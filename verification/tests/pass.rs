use shellpass::notifications::{current_notification, initialize};
use shellpass::pass::{clear_string, credentials_from_plaintext, zero_bytes, PassEntry, PassRepository, RetrieveError, WalkedPath};
use shellpass::settings::GnuPGSecret;
use shellpass::settings::with_bytes::parse_secret_key;

fn walked(path: &str, is_file: bool) -> WalkedPath {
    WalkedPath { path: path.to_string(), is_file }
}

fn entry(rel: &str) -> PassEntry {
    PassEntry::new("/store".to_string(), rel.to_string())
}

#[test]
fn entries_show_their_path_without_extension() {
    let e = entry("web/github.com/alice.gpg");
    assert_eq!(e.display_name(), "web/github.com/alice");
    assert_eq!(e.username(), "alice");
    assert_eq!(e.entry_relpath(), "web/github.com/alice.gpg");
    assert_eq!(e.file_path(), "/store/web/github.com/alice.gpg");
}

#[test]
fn username_falls_back_when_there_is_no_file_name() {
    assert_eq!(entry("").username(), "n/a");
    assert_eq!(entry("").display_name(), "");
}

#[test]
fn entries_match_only_what_is_displayed() {
    let e = entry("mail/bob.gpg");
    assert!(e.contains("bob"));
    assert!(e.contains("l/b"));
    assert!(e.contains(""));
    assert!(!e.contains("gpg"));
    assert!(!e.contains("Bob"));
}

#[test]
fn fetching_lists_gpg_files_below_the_root() {
    let mut repo = PassRepository::new();
    let mut center = initialize();
    let walk = vec![
        walked("/store", false),
        walked("/store/.gpg-id", true),
        walked("/store/web", false),
        walked("/store/web/alice.gpg", true),
        walked("/store/web/notes.txt", true),
        walked("/store/mail/bob.gpg", true),
        walked("/store/dir.gpg", false),
    ];
    repo.fetch_entries_for("/store", &walk, &mut center);
    assert_eq!(repo.entries_count(), 2);
    assert_eq!(repo.entry(0).entry_relpath(), "web/alice.gpg");
    assert_eq!(repo.entry(1).entry_relpath(), "mail/bob.gpg");
    assert_eq!(repo.entry(0).origin(), "/store");
    assert_eq!(repo.last_used_root(), Some("/store".to_string()));
    // nothing was queued
    assert_eq!(current_notification(&mut center, 0, 2).message, "2 entries in your pass");
}

#[test]
fn fetching_nothing_warns_and_keeps_the_last_root() {
    let mut repo = PassRepository::new();
    let mut center = initialize();
    repo.fetch_entries_for("/store", &vec![walked("/store/a.gpg", true)], &mut center);
    repo.fetch_entries_for("/empty", &vec![walked("/empty", false)], &mut center);
    assert_eq!(repo.entries_count(), 0);
    assert_eq!(repo.last_used_root(), Some("/store".to_string()));
    assert_eq!(current_notification(&mut center, 0, 0).message, "➡️ no entries found for /empty");
}

#[test]
fn search_keeps_repository_order() {
    let mut repo = PassRepository::new();
    let mut center = initialize();
    let walk = vec![
        walked("/store/a/github.gpg", true),
        walked("/store/b/gitlab.gpg", true),
        walked("/store/c/mail.gpg", true),
    ];
    repo.fetch_entries_for("/store", &walk, &mut center);
    let found: Vec<String> = repo.get_by_pattern("git").iter().map(|e| e.display_name()).collect();
    assert_eq!(found, vec!["a/github".to_string(), "b/gitlab".to_string()]);
    assert_eq!(repo.get_by_pattern("").len(), 3);
    assert!(repo.get_by_pattern("zzz").is_empty());
}

#[test]
fn clearing_forgets_everything() {
    let mut repo = PassRepository::new();
    let mut center = initialize();
    repo.fetch_entries_for("/store", &vec![walked("/store/a.gpg", true)], &mut center);
    repo.clear();
    assert_eq!(repo.entries_count(), 0);
    assert_eq!(repo.last_used_root(), None);
}

#[test]
fn one_final_newline_is_dropped_from_the_password() {
    let e = entry("web/alice.gpg");
    assert_eq!(credentials_from_plaintext(&e, "s3cret\n".to_string()), ("alice".to_string(), "s3cret".to_string()));
    assert_eq!(credentials_from_plaintext(&e, "s3cret\n\n".to_string()).1, "s3cret\n");
    assert_eq!(credentials_from_plaintext(&e, "s3cret".to_string()).1, "s3cret");
    assert_eq!(credentials_from_plaintext(&e, String::new()).1, "");
    assert_eq!(credentials_from_plaintext(&e, "\n".to_string()).1, "");
}

#[test]
fn garbage_is_no_secret_key() {
    let key_bytes: Vec<u8> = vec![0x99, 0x00];
    assert!(parse_secret_key(&key_bytes).is_err());
}

#[test]
fn bytes_are_wiped() {
    let mut b = vec![1u8, 2, 3];
    zero_bytes(&mut b);
    assert_eq!(b, vec![0, 0, 0]);
    clear_string("secret".to_string());
}

#[allow(dead_code)]
fn retrieve_signature_compiles(repo: &PassRepository, e: &PassEntry, secret: GnuPGSecret) -> Result<(String, String), RetrieveError> {
    repo.retrieve(e, b"not a message", secret)
}

