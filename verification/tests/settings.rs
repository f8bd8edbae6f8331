use shellpass::finder::Finder;
use shellpass::housekeeper::Housekeeper;
use shellpass::notifications::{current_notification, initialize, Notifications};
use shellpass::pass::{PassRepository, WalkedPath};
use shellpass::settings::{PassRootListing, Settings, SettingsUpdateReq, DEFAULT_ZOOM_FACTOR_TENTHS};

struct World {
    housekeeper: Housekeeper,
    settings: Settings,
    repository: PassRepository,
    finder: Finder,
    notifications: Notifications,
}

fn world() -> World {
    World { housekeeper: Housekeeper::new(), settings: Settings::new(Some("/home/u")), repository: PassRepository::new(), finder: Finder::new(), notifications: initialize() }
}

fn apply(w: &mut World, req: SettingsUpdateReq) -> bool {
    req.apply(&mut w.housekeeper, &mut w.settings, &mut w.repository, &mut w.finder, &mut w.notifications)
}

#[test]
fn defaults_point_at_the_password_store() {
    let s = Settings::new(Some("/home/u"));
    assert_eq!(s.pass_root(), Some("/home/u/.password-store".to_string()));
    assert_eq!(s.zoom_factor_tenths, DEFAULT_ZOOM_FACTOR_TENTHS);
    assert_eq!(s.zoom_factor_tenths, 17);
    assert!(!s.gnupg_passphrase_set());
    assert!(s.get_gnupg_secret().is_none());
    assert!(s.gnupg_secret_key_digest().is_none());
    assert_eq!(Settings::new(None).pass_root(), None);
    assert_eq!(Settings::new(Some("/home/u/")).pass_root(), Some("/home/u/.password-store".to_string()));
}

#[test]
fn a_new_pass_root_lists_its_entries_and_asks_to_save() {
    let mut w = world();
    let listing = PassRootListing {
        root: "/data/pass".to_string(),
        walked: vec![WalkedPath { path: "/data/pass/a.gpg".to_string(), is_file: true }],
    };
    assert!(apply(&mut w, SettingsUpdateReq::PassRoot(Ok(listing))));
    assert_eq!(w.settings.pass_root(), Some("/data/pass".to_string()));
    assert_eq!(w.repository.entries_count(), 1);
    assert!(w.finder.search_requested());
}

#[test]
fn a_failed_pass_root_is_reported() {
    let mut w = world();
    assert!(!apply(&mut w, SettingsUpdateReq::PassRoot(Err("picker closed".to_string()))));
    assert_eq!(w.settings.pass_root(), Some("/home/u/.password-store".to_string()));
    assert_eq!(current_notification(&mut w.notifications, 0, 0).message, "❗ cannot set new pass root: picker closed");
}

#[test]
fn a_failed_secret_key_is_reported() {
    let mut w = world();
    assert!(!apply(&mut w, SettingsUpdateReq::GnuPGSecretKey(Err("no such key".to_string()))));
    assert!(w.settings.gnupg_secret_key_digest().is_none());
    assert_eq!(current_notification(&mut w.notifications, 0, 0).message, "❗ unable to read secret key file: no such key");
}

#[test]
fn the_passphrase_is_set_but_never_saved() {
    let mut w = world();
    assert!(!apply(&mut w, SettingsUpdateReq::GnuPGPassphrase("pw".to_string())));
    assert!(w.settings.gnupg_passphrase_set());
    let seen = w.settings.with_gnupg_passphrase(|p| p.map(|s| s.to_string()));
    assert_eq!(seen, Some("pw".to_string()));
    let stored = w.settings.to_stored().unwrap();
    let back = Settings::from_stored(stored).unwrap();
    assert!(!back.gnupg_passphrase_set());
    assert_eq!(back.pass_root(), w.settings.pass_root());
}

#[test]
fn zoom_changes_are_saved_only_when_they_change_something() {
    let mut w = world();
    assert!(!apply(&mut w, SettingsUpdateReq::ZoomFactor(17)));
    assert!(apply(&mut w, SettingsUpdateReq::ZoomFactor(18)));
    assert_eq!(w.settings.zoom_factor_tenths, 18);
}

#[test]
fn reset_forgets_root_key_passphrase_and_entries() {
    let mut w = world();
    let listing = PassRootListing {
        root: "/data/pass".to_string(),
        walked: vec![WalkedPath { path: "/data/pass/a.gpg".to_string(), is_file: true }],
    };
    apply(&mut w, SettingsUpdateReq::PassRoot(Ok(listing)));
    apply(&mut w, SettingsUpdateReq::GnuPGPassphrase("pw".to_string()));
    assert!(apply(&mut w, SettingsUpdateReq::Reset));
    assert_eq!(w.settings.pass_root(), None);
    assert!(!w.settings.gnupg_passphrase_set());
    assert!(w.settings.get_gnupg_secret().is_none());
    assert_eq!(w.repository.entries_count(), 0);
    assert_eq!(w.repository.last_used_root(), None);
}

#[test]
fn reset_passphrase_forgets_it() {
    let mut w = world();
    apply(&mut w, SettingsUpdateReq::GnuPGPassphrase("pw".to_string()));
    w.settings.reset_passphrase();
    assert!(!w.settings.gnupg_passphrase_set());
    assert_eq!(w.settings.with_gnupg_passphrase(|p| p.is_none()), true);
}
