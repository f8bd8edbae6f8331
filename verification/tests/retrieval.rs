use pgp::composed::{
    EncryptionCaps, KeyType, MessageBuilder, SecretKeyParamsBuilder, SignedPublicKey, SignedSecretKey,
    SubkeyParamsBuilder,
};
use pgp::crypto::ecc_curve::ECCCurve;
use pgp::crypto::sym::SymmetricKeyAlgorithm;
use pgp::ser::Serialize;
use pgp::types::KeyDetails;
use rand::thread_rng;

use shellpass::finder::Finder;
use shellpass::housekeeper::Housekeeper;
use shellpass::notifications::{current_notification, initialize};
use shellpass::pass::{PassEntry, PassRepository, RetrieveError};
use shellpass::settings::with_bytes::{deserialize, parse_secret_key, serialize, KeyError};
use shellpass::settings::{Settings, SettingsUpdateReq};
use shellpass::ui::copy_entry;

const PASSPHRASE: &str = "correct horse";

fn generate_key() -> SignedSecretKey {
    let encryption = SubkeyParamsBuilder::default()
        .key_type(KeyType::ECDH(ECCCurve::Curve25519Legacy))
        .can_sign(false)
        .can_encrypt(EncryptionCaps::All)
        .can_authenticate(false)
        .passphrase(Some(PASSPHRASE.to_string()))
        .build()
        .unwrap();
    let params = SecretKeyParamsBuilder::default()
        .key_type(KeyType::Ed25519Legacy)
        .can_certify(true)
        .can_sign(false)
        .can_encrypt(EncryptionCaps::None)
        .primary_user_id("Alice <alice@example.com>".into())
        .passphrase(Some(PASSPHRASE.to_string()))
        .subkeys(vec![encryption])
        .build()
        .unwrap();
    params.generate(thread_rng()).unwrap()
}

fn encrypt_for(key: &SignedSecretKey, plaintext: &str) -> Vec<u8> {
    let public = SignedPublicKey::from(key.clone());
    let mut builder = MessageBuilder::from_bytes("", plaintext.as_bytes().to_vec())
        .seipd_v1(thread_rng(), SymmetricKeyAlgorithm::AES256);
    builder.encrypt_to_key(thread_rng(), &public.public_subkeys[0]).unwrap();
    builder.to_vec(thread_rng()).unwrap()
}

struct World {
    housekeeper: Housekeeper,
    settings: Settings,
    repository: PassRepository,
    finder: Finder,
    notifications: shellpass::notifications::Notifications,
}

fn configured(key: SignedSecretKey, passphrase: &str) -> World {
    let mut w = World {
        housekeeper: Housekeeper::new(),
        settings: Settings::new(None),
        repository: PassRepository::new(),
        finder: Finder::new(),
        notifications: initialize(),
    };
    assert!(SettingsUpdateReq::GnuPGSecretKey(Ok(key)).apply(&mut w.housekeeper, &mut w.settings, &mut w.repository, &mut w.finder, &mut w.notifications));
    assert!(!SettingsUpdateReq::GnuPGPassphrase(passphrase.to_string()).apply(
        &mut w.housekeeper,
        &mut w.settings,
        &mut w.repository,
        &mut w.finder,
        &mut w.notifications,
    ));
    w
}

#[test]
fn retrieve_decrypts_username_and_password() {
    let key = generate_key();
    let encrypted = encrypt_for(&key, "s3cret\n");
    let w = configured(key, PASSPHRASE);
    let entry = PassEntry::new("/store".to_string(), "web/alice.gpg".to_string());
    let secret = w.settings.get_gnupg_secret().unwrap();
    let creds = w.repository.retrieve(&entry, &encrypted, secret).unwrap();
    assert_eq!(creds, ("alice".to_string(), "s3cret".to_string()));
}

#[test]
fn retrieve_with_wrong_passphrase_cannot_decrypt() {
    let key = generate_key();
    let encrypted = encrypt_for(&key, "s3cret\n");
    let w = configured(key, "wrong");
    let entry = PassEntry::new("/store".to_string(), "web/alice.gpg".to_string());
    let secret = w.settings.get_gnupg_secret().unwrap();
    assert_eq!(w.repository.retrieve(&entry, &encrypted, secret), Err(RetrieveError::CannotDecrypt));
}

#[test]
fn retrieve_rejects_what_is_not_a_message() {
    let key = generate_key();
    let w = configured(key, PASSPHRASE);
    let entry = PassEntry::new("/store".to_string(), "web/alice.gpg".to_string());
    let secret = w.settings.get_gnupg_secret().unwrap();
    assert_eq!(w.repository.retrieve(&entry, b"plain text", secret), Err(RetrieveError::MalformedMessage));
}

#[test]
fn retrieve_rejects_binary_content() {
    let key = generate_key();
    let encrypted = {
        let public = SignedPublicKey::from(key.clone());
        let mut builder = MessageBuilder::from_bytes("", vec![0xffu8, 0xfe, 0x00])
            .seipd_v1(thread_rng(), SymmetricKeyAlgorithm::AES256);
        builder.encrypt_to_key(thread_rng(), &public.public_subkeys[0]).unwrap();
        builder.to_vec(thread_rng()).unwrap()
    };
    let w = configured(key, PASSPHRASE);
    let entry = PassEntry::new("/store".to_string(), "web/alice.gpg".to_string());
    let secret = w.settings.get_gnupg_secret().unwrap();
    assert_eq!(w.repository.retrieve(&entry, &encrypted, secret), Err(RetrieveError::NotText));
}

#[test]
fn copying_an_entry_gives_username_colon_password() {
    let key = generate_key();
    let encrypted = encrypt_for(&key, "hunter2\n");
    let w = configured(key, PASSPHRASE);
    let entry = PassEntry::new("/store".to_string(), "mail/bob.gpg".to_string());
    let (text, notice) = copy_entry(&w.repository, &entry, Some(&encrypted), &w.settings);
    assert_eq!(text, Some("bob:hunter2".to_string()));
    assert_eq!(notice.text(), "copied");
    let (text, notice) = copy_entry(&w.repository, &entry, None, &w.settings);
    assert_eq!(text, None);
    assert_eq!(notice.text(), "cannot retrieve the entry, check settings");
}

#[test]
fn copying_without_configuration_asks_for_settings() {
    let w = World {
        housekeeper: Housekeeper::new(),
        settings: Settings::new(None),
        repository: PassRepository::new(),
        finder: Finder::new(),
        notifications: initialize(),
    };
    let entry = PassEntry::new("/store".to_string(), "mail/bob.gpg".to_string());
    let (text, notice) = copy_entry(&w.repository, &entry, Some(b"x"), &w.settings);
    assert_eq!(text, None);
    assert_eq!(notice.text(), "check settings: GnuPG is not fully configured");
}

#[test]
fn secret_keys_round_trip_through_bytes() {
    let key = generate_key();
    let bytes = key.to_bytes().unwrap();
    let parsed = parse_secret_key(&bytes).unwrap();
    assert_eq!(parsed.to_bytes().unwrap(), bytes);
    let stored = serialize(&Some(parsed)).unwrap().unwrap();
    assert_eq!(stored, bytes);
    assert!(deserialize(Some(stored)).unwrap().is_some());
    assert!(serialize(&None).unwrap().is_none());
    assert!(deserialize(None).unwrap().is_none());
    assert_eq!(deserialize(Some(vec![1, 2, 3])).err(), Some(KeyError::Unreadable));
    assert_eq!(parse_secret_key(b"").err(), Some(KeyError::Unreadable));
}

#[test]
fn stored_settings_keep_everything_but_the_passphrase() {
    let key = generate_key();
    let mut w = configured(key, PASSPHRASE);
    assert!(SettingsUpdateReq::ZoomFactor(20).apply(&mut w.housekeeper, &mut w.settings, &mut w.repository, &mut w.finder, &mut w.notifications));
    let stored = w.settings.to_stored().unwrap();
    assert_eq!(stored.zoom_factor_tenths, 20);
    assert!(stored.gnupg_secret_key.is_some());
    let back = Settings::from_stored(stored).unwrap();
    assert!(!back.gnupg_passphrase_set());
    assert!(back.gnupg_secret_key_digest().is_some());
    assert_eq!(back.gnupg_secret_key_digest(), w.settings.gnupg_secret_key_digest());
    assert_eq!(back.zoom_factor_tenths, 20);
    assert_eq!(back.pass_root(), None);
    let _ = current_notification(&mut w.notifications, 0, 0);
}

#[test]
fn a_failed_decryption_is_reported_as_a_retrieval_failure() {
    let key = generate_key();
    let encrypted = encrypt_for(&key, "hunter2\n");
    let w = configured(key, "not the passphrase");
    let entry = PassEntry::new("/store".to_string(), "mail/bob.gpg".to_string());
    let (text, notice) = copy_entry(&w.repository, &entry, Some(&encrypted), &w.settings);
    assert_eq!(text, None);
    assert_eq!(notice.text(), "cannot retrieve the entry, check settings");
    let (text, notice) = copy_entry(&w.repository, &entry, Some(b"not a message"), &w.settings);
    assert_eq!(text, None);
    assert_eq!(notice.text(), "cannot retrieve the entry, check settings");
}

#[test]
fn only_the_final_newline_is_dropped_from_the_password() {
    let key = generate_key();
    let encrypted = encrypt_for(&key, "line one\nline two\n\n");
    let w = configured(key, PASSPHRASE);
    let entry = PassEntry::new("/store".to_string(), "bob.gpg".to_string());
    let (text, _) = copy_entry(&w.repository, &entry, Some(&encrypted), &w.settings);
    assert_eq!(text, Some("bob:line one\nline two\n".to_string()));
}

#[test]
fn the_key_digest_is_the_primary_fingerprint() {
    let key = generate_key();
    let expected = key.primary_key.fingerprint().to_string();
    assert!(!expected.is_empty());
    let w = configured(key, PASSPHRASE);
    assert_eq!(w.settings.gnupg_secret_key_digest(), Some(expected));
}

#[test]
fn stored_settings_keep_the_key_bytes() {
    let key = generate_key();
    let bytes = key.to_bytes().unwrap();
    let w = configured(key, PASSPHRASE);
    let stored = w.settings.to_stored().unwrap();
    assert_eq!(stored.gnupg_secret_key.as_deref(), Some(bytes.as_slice()));
    let back = Settings::from_stored(stored).unwrap();
    let again = back.to_stored().unwrap();
    assert_eq!(again.gnupg_secret_key, Some(bytes));
    assert!(!back.gnupg_passphrase_set());
}
