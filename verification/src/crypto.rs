//! The OpenPGP operations the library relies on, all done by the `pgp` crate.

use std::io::Read;

use pgp::composed::{DecryptionOptions, Deserializable, Message as PgpMessage, SignedSecretKey, TheRing};
use pgp::errors::Error;
use pgp::ser::Serialize;
use pgp::types::{KeyDetails, Password};

use vstd::prelude::*;

use crate::pass::RetrieveError;

verus! {

/// An OpenPGP secret key with its signatures (`pgp::composed::SignedSecretKey`).
#[verifier::external_type_specification]
#[verifier::external_body]
pub struct ExSignedSecretKey(SignedSecretKey);

/// An error of the `pgp` crate (`pgp::errors::Error`).
#[verifier::external_type_specification]
#[verifier::external_body]
pub struct ExPgpError(Error);

/// What `SignedSecretKey::from_bytes` makes of some bytes: the key they hold, or none.
pub uninterp spec fn key_from_bytes(bytes: Seq<u8>) -> Option<SignedSecretKey>;

/// Parses one binary secret key (`Deserializable::from_bytes` of `SignedSecretKey`):
/// the result is a function of the bytes alone.
#[verifier::external_body]
pub(crate) fn secret_key_from_bytes(bytes: &[u8]) -> (r: Result<SignedSecretKey, Error>)
    ensures
        r is Ok <==> key_from_bytes(bytes@) is Some,
        r matches Ok(k) ==> key_from_bytes(bytes@) == Some(k),
{
    SignedSecretKey::from_bytes(bytes)
}

/// What `pgp::ser::Serialize::to_bytes` makes of a secret key: its binary form, or none.
pub uninterp spec fn key_bytes(key: SignedSecretKey) -> Option<Seq<u8>>;

/// Writes a secret key in its binary form (`pgp::ser::Serialize::to_bytes`):
/// the result is a function of the key alone.
#[verifier::external_body]
pub(crate) fn secret_key_to_bytes(key: &SignedSecretKey) -> (r: Result<Vec<u8>, Error>)
    ensures
        r is Ok <==> key_bytes(*key) is Some,
        r matches Ok(b) ==> key_bytes(*key) == Some(b@),
{
    key.to_bytes()
}

/// The fingerprint of a key's primary key, as its `Display` writes it.
pub uninterp spec fn key_fingerprint(key: SignedSecretKey) -> Seq<char>;

/// The fingerprint of the primary key, as its `Display` writes it
/// (`KeyDetails::fingerprint` of `primary_key`).
#[verifier::external_body]
pub(crate) fn primary_key_fingerprint(key: &SignedSecretKey) -> (r: String)
    ensures
        r@ == key_fingerprint(*key),
{
    key.primary_key.fingerprint().to_string()
}

/// What decrypting an OpenPGP message with one secret key and its passphrase gives:
/// the text of the message, or the step that failed.
pub uninterp spec fn decryption(message: Seq<u8>, key: SignedSecretKey, passphrase: Seq<char>) -> Result<Seq<char>, RetrieveError>;

/// Decrypts an OpenPGP message (`Message::decrypt_the_ring`, with `abort_early` set).
/// The message is parsed from its bytes (`Message::from_bytes`; failing: `MalformedMessage`);
/// the ring holds the key and `Password::from(passphrase)` with
/// `DecryptionOptions::new().enable_gnupg_aead()` (failing: `CannotDecrypt`); the
/// decrypted content is read as UTF-8 text (`Read::read_to_string`; failing: `NotText`).
/// The outcome is a function of the message bytes, the key and the passphrase.
#[verifier::external_body]
pub(crate) fn decrypt_message(message: &[u8], key: &SignedSecretKey, passphrase: &str) -> (r: Result<String, RetrieveError>)
    ensures
        r is Ok <==> decryption(message@, *key, passphrase@) is Ok,
        r matches Ok(t) ==> decryption(message@, *key, passphrase@)->Ok_0 == t@,
        r matches Err(e) ==> decryption(message@, *key, passphrase@)->Err_0 == e,
{
    let password = Password::from(passphrase);
    let options = DecryptionOptions::new().enable_gnupg_aead();
    let ring = TheRing { secret_keys: vec![key], key_passwords: vec![&password], decrypt_options: options, message_password: vec![], session_keys: vec![] };
    let Ok(parsed) = PgpMessage::from_bytes(message) else { return Err(RetrieveError::MalformedMessage) };
    let Ok((mut plain, _)) = parsed.decrypt_the_ring(ring, true) else { return Err(RetrieveError::CannotDecrypt) };
    let mut text = String::new();
    match plain.read_to_string(&mut text) {
        Ok(_) => Ok(text),
        Err(_) => Err(RetrieveError::NotText),
    }
}

} // verus!
