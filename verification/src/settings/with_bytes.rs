//! A secret key kept in the stored settings as its binary form.

use pgp::composed::SignedSecretKey;

use vstd::prelude::*;

use crate::crypto::{key_bytes, key_from_bytes, secret_key_from_bytes, secret_key_to_bytes};

verus! {

/// Why a secret key could not be turned into bytes or back.
#[derive(Clone, Copy, Debug, PartialEq, Eq, Structural)]
pub enum KeyError {
    /// The key could not be written in its binary form.
    Unwritable,
    /// The bytes do not hold a secret key.
    Unreadable,
}

/// The bytes held by an optional buffer.
pub open spec fn opt_bytes_view(b: Option<Vec<u8>>) -> Option<Seq<u8>> {
    match b {
        Some(v) => Some(v@),
        None => None,
    }
}

/// What writing an optional secret key gives: no bytes for no key, the key's
/// binary form, or `Unwritable` when it has none.
pub open spec fn serialized(key: Option<SignedSecretKey>) -> Result<Option<Seq<u8>>, KeyError> {
    match key {
        None => Ok(None),
        Some(k) => match key_bytes(k) {
            Some(b) => Ok(Some(b)),
            None => Err(KeyError::Unwritable),
        },
    }
}

/// What reading an optional secret key back gives: no key for no bytes, the key
/// the bytes hold, or `Unreadable` when they hold none.
pub open spec fn deserialized(bytes: Option<Seq<u8>>) -> Result<Option<SignedSecretKey>, KeyError> {
    match bytes {
        None => Ok(None),
        Some(b) => match key_from_bytes(b) {
            Some(k) => Ok(Some(k)),
            None => Err(KeyError::Unreadable),
        },
    }
}

/// What parsing bytes as one secret key gives.
pub open spec fn parsed_key(bytes: Seq<u8>) -> Result<SignedSecretKey, KeyError> {
    match key_from_bytes(bytes) {
        Some(k) => Ok(k),
        None => Err(KeyError::Unreadable),
    }
}

/// The view of the result of writing a key.
pub open spec fn serialized_view(r: Result<Option<Vec<u8>>, KeyError>) -> Result<Option<Seq<u8>>, KeyError> {
    match r {
        Ok(b) => Ok(opt_bytes_view(b)),
        Err(e) => Err(e),
    }
}

/// The binary form of an optional secret key: no bytes for no key.
pub fn serialize(key: &Option<SignedSecretKey>) -> (r: Result<Option<Vec<u8>>, KeyError>)
    ensures
        serialized_view(r) == serialized(*key),
{
    match key {
        Some(k) => match secret_key_to_bytes(k) {
            Ok(bytes) => Ok(Some(bytes)),
            Err(_) => Err(KeyError::Unwritable),
        },
        None => Ok(None),
    }
}

/// The optional secret key read back from its binary form: no key for no bytes.
pub fn deserialize(bytes: Option<Vec<u8>>) -> (r: Result<Option<SignedSecretKey>, KeyError>)
    ensures
        r == deserialized(opt_bytes_view(bytes)),
{
    match bytes {
        Some(b) => match secret_key_from_bytes(b.as_slice()) {
            Ok(key) => Ok(Some(key)),
            Err(_) => Err(KeyError::Unreadable),
        },
        None => Ok(None),
    }
}

/// Parses a binary secret key, such as `gpg --export-secret-keys` writes.
pub fn parse_secret_key(bytes: &[u8]) -> (r: Result<SignedSecretKey, KeyError>)
    ensures
        r == parsed_key(bytes@),
{
    match secret_key_from_bytes(bytes) {
        Ok(key) => Ok(key),
        Err(_) => Err(KeyError::Unreadable),
    }
}

/// A key written and read back is the same key, wherever the binary form the key
/// is written in reads back as that key; no key stays no key.
pub proof fn law_key_bytes_round_trip(key: Option<SignedSecretKey>, bytes: Option<Seq<u8>>)
    requires
        serialized(key) == Ok::<Option<Seq<u8>>, KeyError>(bytes),
        bytes matches Some(b) ==> key_from_bytes(b) == key,
    ensures
        deserialized(bytes) == Ok::<Option<SignedSecretKey>, KeyError>(key),
{
}

} // verus!
