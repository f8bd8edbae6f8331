//! A read-only client for a `pass` password store: the logic that decides what
//! is listed, matched, shown, decrypted and kept in memory.

pub mod text;
pub mod paths;
pub mod notifications;
pub mod crypto;
pub mod pass;
pub mod settings;
pub mod finder;
pub mod housekeeper;
pub mod android_interface;
pub mod ui;
