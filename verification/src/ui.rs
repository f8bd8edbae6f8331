//! The decisions behind the user interface: zoom steps, when an edited field is
//! submitted, when a secret key can be loaded, and what copying an entry gives.

use vstd::prelude::*;

use crate::notifications::{Kind, Message, MessageView, DEFAULT_MESSAGE_DURATION_MS};
use crate::crypto::decryption;
use crate::pass::{clear_string, username_of, without_final_newline, PassEntry, PassEntryView, PassRepository};
use crate::settings::{opt_view, Settings, SettingsView};
use crate::text::concat_strs;

verus! {

/// The smallest zoom factor that can still be decreased, in tenths (0.5).
pub const ZOOM_OUT_ABOVE_TENTHS: u32 = 5;

/// The largest zoom factor that can still be increased, in tenths (3.0).
pub const ZOOM_IN_BELOW_TENTHS: u32 = 30;

/// The zoom factor one step up, when it may still grow.
pub fn zoom_in(current_tenths: u32) -> (r: Option<u32>)
    ensures
        current_tenths < ZOOM_IN_BELOW_TENTHS ==> r == Some((current_tenths + 1) as u32),
        current_tenths >= ZOOM_IN_BELOW_TENTHS ==> r is None,
{
    if current_tenths < ZOOM_IN_BELOW_TENTHS {
        Some(current_tenths + 1)
    } else {
        None
    }
}

/// The zoom factor one step down, when it may still shrink.
pub fn zoom_out(current_tenths: u32) -> (r: Option<u32>)
    ensures
        current_tenths > ZOOM_OUT_ABOVE_TENTHS ==> r == Some((current_tenths - 1) as u32),
        current_tenths <= ZOOM_OUT_ABOVE_TENTHS ==> r is None,
{
    if current_tenths > ZOOM_OUT_ABOVE_TENTHS {
        Some(current_tenths - 1)
    } else {
        None
    }
}

/// An edited text field is submitted when it loses focus holding some text.
pub fn submits(lost_focus: bool, buffer: &str) -> (r: bool)
    ensures
        r == (lost_focus && buffer@.len() > 0),
{
    lost_focus && !buffer.is_empty()
}

/// A secret key is ready to load by its digest when the digest is filled in and
/// either a passphrase was just submitted, or the digest field lost focus while a
/// passphrase is set.
pub fn secret_key_request_ready(
    passphrase_update_issued: bool,
    digest: &str,
    digest_lost_focus: bool,
    passphrase_set: bool,
) -> (r: bool)
    ensures
        r == (digest@.len() > 0 && (passphrase_update_issued || (digest_lost_focus && passphrase_set))),
{
    (passphrase_update_issued && !digest.is_empty()) || (digest_lost_focus && !digest.is_empty() && passphrase_set)
}

/// What is copied to the clipboard for an entry: `username:password`.
pub fn clipboard_text(username: &str, password: &str) -> (r: String)
    ensures
        r@ == username@ + ":"@ + password@,
{
    let head = concat_strs(username, ":");
    concat_strs(head.as_str(), password)
}

/// The notice when GnuPG is not fully configured.
pub open spec fn not_configured_notice() -> MessageView {
    MessageView { text: "check settings: GnuPG is not fully configured"@, duration_ms: DEFAULT_MESSAGE_DURATION_MS, kind: Kind::Error }
}

/// The notice when an entry could not be read back; it carries no detail, which
/// could hold sensitive data.
pub open spec fn retrieval_failed_notice() -> MessageView {
    MessageView { text: "cannot retrieve the entry, check settings"@, duration_ms: DEFAULT_MESSAGE_DURATION_MS, kind: Kind::Error }
}

/// The notice when an entry was copied.
pub open spec fn copied_notice() -> MessageView {
    MessageView { text: "copied"@, duration_ms: DEFAULT_MESSAGE_DURATION_MS, kind: Kind::Success }
}

/// The bytes of an entry's file, if it could be read.
pub open spec fn opt_slice_view(b: Option<&[u8]>) -> Option<Seq<u8>> {
    match b {
        Some(v) => Some(v@),
        None => None,
    }
}

/// What copying an entry gives: the text for the clipboard, if any, and the notice.
/// Without the secret key and passphrase GnuPG is not configured; without the
/// entry's file, or when its decryption fails, the entry cannot be retrieved;
/// otherwise the text is `username:password`, the password being the decrypted
/// text without its final newline.
pub open spec fn copy_outcome(entry: PassEntryView, encrypted: Option<Seq<u8>>, s: SettingsView) -> (Option<Seq<char>>, MessageView) {
    match (s.secret_key, s.passphrase) {
        (Some(key), Some(passphrase)) => match encrypted {
            Some(bytes) => match decryption(bytes, key, passphrase) {
                Ok(text) => (Some(username_of(entry) + ":"@ + without_final_newline(text)), copied_notice()),
                Err(_) => (None, retrieval_failed_notice()),
            },
            None => (None, retrieval_failed_notice()),
        },
        _ => (None, not_configured_notice()),
    }
}

/// Copying an entry: with the secret key and passphrase set and the entry's file read
/// (`encrypted`), the entry is decrypted into the text for the clipboard; the notice
/// says what happened. The password is wiped once the text is made.
pub fn copy_entry(
    repository: &PassRepository,
    entry: &PassEntry,
    encrypted: Option<&[u8]>,
    settings: &Settings,
) -> (r: (Option<String>, Message))
    ensures
        opt_view(r.0) == copy_outcome(entry@, opt_slice_view(encrypted), settings@).0,
        r.1@ == copy_outcome(entry@, opt_slice_view(encrypted), settings@).1,
{
    match settings.get_gnupg_secret() {
        None => (None, Message::new("check settings: GnuPG is not fully configured".to_owned(), Kind::Error)),
        Some(secret) => {
            let failed = Message::new("cannot retrieve the entry, check settings".to_owned(), Kind::Error);
            match encrypted {
                None => {
                    clear_string(secret.passphrase);
                    (None, failed)
                },
                Some(bytes) => match repository.retrieve(entry, bytes, secret) {
                    Ok(credentials) => {
                        let (username, password) = credentials;
                        let text = clipboard_text(username.as_str(), password.as_str());
                        clear_string(password);
                        (Some(text), Message::new("copied".to_owned(), Kind::Success))
                    },
                    Err(_) => (None, failed),
                },
            }
        },
    }
}

/// How long the notice about a crash is shown, in milliseconds.
pub const PANIC_NOTICE_DURATION_MS: u64 = 5000;

/// The notice shown when the application panics: the panic's message, if it has one.
pub fn panic_notice(payload: Option<&str>) -> (r: Message)
    ensures
        r@.kind == Kind::Error,
        r@.duration_ms == PANIC_NOTICE_DURATION_MS,
        r@.text == (match payload {
            Some(p) => p@,
            None => "application panicked for unknown reason"@,
        }),
{
    let text = match payload {
        Some(p) => p.to_owned(),
        None => "application panicked for unknown reason".to_owned(),
    };
    Message::new(text, Kind::Error).with_duration(PANIC_NOTICE_DURATION_MS)
}

} // verus!
