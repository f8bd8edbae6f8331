use shellpass::finder::Finder;
use shellpass::housekeeper::{Housekeeper, PASSPHRASE_MAX_STORE_MS, PERIOD_MS};
use shellpass::notifications::{current_notification, initialize};
use shellpass::pass::{PassRepository, WalkedPath};
use shellpass::settings::{Settings, SettingsUpdateReq};

fn repository(paths: &[&str]) -> PassRepository {
    let mut repo = PassRepository::new();
    let mut center = initialize();
    let walk: Vec<WalkedPath> = paths.iter().map(|p| WalkedPath { path: format!("/s/{p}"), is_file: true }).collect();
    repo.fetch_entries_for("/s", &walk, &mut center);
    repo
}

fn names(f: &Finder) -> Vec<String> {
    f.last_match.iter().map(|e| e.display_name()).collect()
}

#[test]
fn finder_searches_only_when_notified_state_says_so() {
    let repo = repository(&["web/github.gpg", "web/gitlab.gpg", "mail/work.gpg"]);
    let mut f = Finder::new();
    assert!(!f.search_requested());
    f.pattern = "git".to_string();
    f.notify();
    assert!(f.search_requested());
    f.search(&repo);
    assert!(!f.search_requested());
    assert_eq!(names(&f), vec!["web/github", "web/gitlab"]);
}

#[test]
fn narrowing_the_pattern_filters_the_previous_matches() {
    let repo = repository(&["web/github.gpg", "web/gitlab.gpg", "mail/work.gpg"]);
    let mut f = Finder::new();
    f.pattern = "git".to_string();
    f.search(&repo);
    let before = names(&f);
    f.pattern = "github".to_string();
    f.search(&repo);
    let after = names(&f);
    assert!(after.iter().all(|n| before.contains(n)));
    assert_eq!(after, vec!["web/github"]);
}

#[test]
fn empty_pattern_matches_everything() {
    let repo = repository(&["a.gpg", "b.gpg"]);
    let mut f = Finder::new();
    f.search(&repo);
    assert_eq!(names(&f), vec!["a", "b"]);
}

#[test]
fn housekeeper_erases_the_passphrase_after_ten_minutes() {
    let mut settings = Settings::new(None);
    let mut repo = PassRepository::new();
    let mut finder = Finder::new();
    let mut center = initialize();
    let mut hk = Housekeeper::new();
    SettingsUpdateReq::GnuPGPassphrase("pw".to_string()).apply(&mut hk, &mut settings, &mut repo, &mut finder, &mut center);
    let mut now = 1_000;
    hk.run_once(now, &mut settings, &mut center); // registers
    while now <= 1_000 + PASSPHRASE_MAX_STORE_MS {
        hk.run_once(now, &mut settings, &mut center);
        assert!(settings.gnupg_passphrase_set(), "kept at {now}");
        now += PERIOD_MS;
    }
    hk.run_once(now, &mut settings, &mut center);
    assert!(!settings.gnupg_passphrase_set());
    let n = current_notification(&mut center, now, 0);
    assert_eq!(n.message, "√ passphrase is erased by housekeeper");
    assert_eq!(n.duration_ms(), 120_000);
}

#[test]
fn housekeeper_does_nothing_without_a_passphrase() {
    let mut settings = Settings::new(None);
    let mut center = initialize();
    let mut hk = Housekeeper::new();
    hk.run_once(0, &mut settings, &mut center);
    hk.run_once(10 * PASSPHRASE_MAX_STORE_MS, &mut settings, &mut center);
    assert!(!settings.gnupg_passphrase_set());
    assert_eq!(current_notification(&mut center, 0, 0).message, "no entries found, check settings");
}

#[test]
fn housekeeper_boundary_is_strictly_more_than_ten_minutes() {
    let mut settings = Settings::new(None);
    let mut repo = PassRepository::new();
    let mut finder = Finder::new();
    let mut center = initialize();
    let mut hk = Housekeeper::new();
    SettingsUpdateReq::GnuPGPassphrase("pw".to_string()).apply(&mut hk, &mut settings, &mut repo, &mut finder, &mut center);
    hk.run_once(0, &mut settings, &mut center);
    hk.run_once(PASSPHRASE_MAX_STORE_MS, &mut settings, &mut center);
    assert!(settings.gnupg_passphrase_set());
    hk.run_once(PASSPHRASE_MAX_STORE_MS + 1, &mut settings, &mut center);
    assert!(!settings.gnupg_passphrase_set());
}

#[test]
fn housekeeper_counts_afresh_when_the_passphrase_is_entered_again() {
    let mut settings = Settings::new(None);
    let mut repo = PassRepository::new();
    let mut finder = Finder::new();
    let mut center = initialize();
    let mut hk = Housekeeper::new();
    SettingsUpdateReq::GnuPGPassphrase("first".to_string()).apply(&mut hk, &mut settings, &mut repo, &mut finder, &mut center);
    hk.run_once(0, &mut settings, &mut center); // registers the first passphrase
    hk.run_once(590_000, &mut settings, &mut center);
    assert!(settings.gnupg_passphrase_set());
    // entered again just before the first one's time is over
    SettingsUpdateReq::GnuPGPassphrase("second".to_string()).apply(&mut hk, &mut settings, &mut repo, &mut finder, &mut center);
    hk.run_once(600_001, &mut settings, &mut center);
    assert!(settings.gnupg_passphrase_set(), "the second passphrase is kept");
    hk.run_once(600_001 + PASSPHRASE_MAX_STORE_MS, &mut settings, &mut center);
    assert!(settings.gnupg_passphrase_set());
    hk.run_once(600_002 + PASSPHRASE_MAX_STORE_MS, &mut settings, &mut center);
    assert!(!settings.gnupg_passphrase_set());
}

#[test]
fn other_requests_leave_the_housekeeper_count_alone() {
    let mut settings = Settings::new(None);
    let mut repo = PassRepository::new();
    let mut finder = Finder::new();
    let mut center = initialize();
    let mut hk = Housekeeper::new();
    SettingsUpdateReq::GnuPGPassphrase("pw".to_string()).apply(&mut hk, &mut settings, &mut repo, &mut finder, &mut center);
    hk.run_once(0, &mut settings, &mut center);
    SettingsUpdateReq::ZoomFactor(20).apply(&mut hk, &mut settings, &mut repo, &mut finder, &mut center);
    hk.run_once(PASSPHRASE_MAX_STORE_MS + 1, &mut settings, &mut center);
    assert!(!settings.gnupg_passphrase_set());
}
