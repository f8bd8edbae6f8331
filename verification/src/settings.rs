//! Tunable settings and the requests that change them.

pub mod with_bytes;

use pgp::composed::SignedSecretKey;

use vstd::prelude::*;

use crate::crypto::{key_fingerprint, key_from_bytes, primary_key_fingerprint};
use crate::finder::Finder;
use crate::housekeeper::Housekeeper;
use crate::notifications::{push_message, pushed, Kind, Message, MessageView, Notifications, DEFAULT_MESSAGE_DURATION_MS};
use crate::pass::{clear_string, lies_under, listed, no_entries_message, PassEntryView, PassRepository, WalkedPath};
use crate::paths::{join, join_paths};
use crate::settings::with_bytes::{deserialized, opt_bytes_view, serialized, KeyError};
use crate::text::concat_strs;

verus! {

/// The zoom factor the interface starts with, in tenths (1.7).
pub const DEFAULT_ZOOM_FACTOR_TENTHS: u32 = 17;

/// The filled-in secrets that decrypt entries: a secret key and its passphrase.
pub struct GnuPGSecret<'a> {
    pub secret_key: &'a SignedSecretKey,
    pub passphrase: String,
}

/// What the settings hold.
pub struct SettingsView {
    pub pass_root: Option<Seq<char>>,
    pub zoom_factor_tenths: u32,
    pub secret_key: Option<SignedSecretKey>,
    pub passphrase: Option<Seq<char>>,
}

/// Tunable settings. The zoom factor is kept in tenths.
pub struct Settings {
    pass_root: Option<String>,
    pub zoom_factor_tenths: u32,
    gnupg_secret_key: Option<SignedSecretKey>,
    gnupg_passphrase: Option<String>,
}

/// The view of an optional string.
pub open spec fn opt_view(s: Option<String>) -> Option<Seq<char>> {
    match s {
        Some(x) => Some(x@),
        None => None,
    }
}

impl View for Settings {
    type V = SettingsView;

    closed spec fn view(&self) -> SettingsView {
        SettingsView {
            pass_root: opt_view(self.pass_root),
            zoom_factor_tenths: self.zoom_factor_tenths,
            secret_key: self.gnupg_secret_key,
            passphrase: opt_view(self.gnupg_passphrase),
        }
    }
}

/// The name of the pass repository directory inside the home directory.
pub open spec fn password_store_dir() -> Seq<char> {
    ".password-store"@
}

/// The settings as they are kept on disk: everything but the passphrase, which
/// lives no longer than the application.
pub struct StoredSettings {
    pub pass_root: Option<String>,
    pub zoom_factor_tenths: u32,
    pub gnupg_secret_key: Option<Vec<u8>>,
}

/// What the stored settings say: the pass root, the zoom, and the binary form of
/// the secret key, if one is kept.
pub struct StoredView {
    pub pass_root: Option<Seq<char>>,
    pub zoom_factor_tenths: u32,
    pub secret_key: Option<Seq<u8>>,
}

/// What stored settings say.
pub open spec fn stored_settings_view(st: StoredSettings) -> StoredView {
    StoredView {
        pass_root: opt_view(st.pass_root),
        zoom_factor_tenths: st.zoom_factor_tenths,
        secret_key: opt_bytes_view(st.gnupg_secret_key),
    }
}

/// What storing the settings gives: the pass root, the zoom and the key's binary
/// form, never the passphrase; or why the key could not be written.
pub open spec fn stored_outcome(s: SettingsView) -> Result<StoredView, KeyError> {
    match serialized(s.secret_key) {
        Ok(key) => Ok(StoredView { pass_root: s.pass_root, zoom_factor_tenths: s.zoom_factor_tenths, secret_key: key }),
        Err(e) => Err(e),
    }
}

/// What reading stored settings back gives: what was stored, with the key read
/// from its binary form and no passphrase; or why the key could not be read.
pub open spec fn restored_outcome(v: StoredView) -> Result<SettingsView, KeyError> {
    match deserialized(v.secret_key) {
        Ok(key) => Ok(SettingsView {
            pass_root: v.pass_root,
            zoom_factor_tenths: v.zoom_factor_tenths,
            secret_key: key,
            passphrase: None,
        }),
        Err(e) => Err(e),
    }
}

/// The view of the result of storing settings.
pub open spec fn stored_result_view(r: Result<StoredSettings, KeyError>) -> Result<StoredView, KeyError> {
    match r {
        Ok(st) => Ok(stored_settings_view(st)),
        Err(e) => Err(e),
    }
}

/// The view of the result of reading settings back.
pub open spec fn settings_result_view(r: Result<Settings, KeyError>) -> Result<SettingsView, KeyError> {
    match r {
        Ok(s) => Ok(s@),
        Err(e) => Err(e),
    }
}

/// Storing the settings and reading them back gives the same settings without
/// the passphrase, wherever the secret key's binary form reads back as that key.
pub proof fn law_stored_settings_round_trip(s: SettingsView, stored: StoredView)
    requires
        stored_outcome(s) == Ok::<StoredView, KeyError>(stored),
        stored.secret_key matches Some(b) ==> key_from_bytes(b) == s.secret_key,
    ensures
        restored_outcome(stored) == Ok::<SettingsView, KeyError>(SettingsView { passphrase: None, ..s }),
{
    with_bytes::law_key_bytes_round_trip(s.secret_key, stored.secret_key);
}

/// The passphrase is ephemeral: setting or forgetting it changes nothing of what is stored.
pub proof fn law_passphrase_is_never_stored(before: SettingsView, passphrase: Option<Seq<char>>)
    ensures
        stored_outcome(SettingsView { passphrase, ..before }) == stored_outcome(before),
{
}

fn copy_opt_string(s: &Option<String>) -> (r: Option<String>)
    ensures
        opt_view(r) == opt_view(*s),
{
    match s {
        Some(x) => Some(x.clone()),
        None => None,
    }
}

impl Settings {
    /// The default settings: the repository at `~/.password-store` when a home
    /// directory is known, the default zoom, and no secrets.
    pub fn new(home_dir: Option<&str>) -> (r: Self)
        ensures
            r@.pass_root == (match home_dir {
                Some(h) => Some(join(h@, password_store_dir())),
                None => None::<Seq<char>>,
            }),
            r@.zoom_factor_tenths == DEFAULT_ZOOM_FACTOR_TENTHS,
            r@.secret_key is None,
            r@.passphrase is None,
    {
        let pass_root = match home_dir {
            Some(h) => Some(join_paths(h, ".password-store")),
            None => None,
        };
        Settings {
            pass_root,
            zoom_factor_tenths: DEFAULT_ZOOM_FACTOR_TENTHS,
            gnupg_secret_key: None,
            gnupg_passphrase: None,
        }
    }

    /// The root of the pass repository.
    pub fn pass_root(&self) -> (r: Option<String>)
        ensures
            opt_view(r) == self@.pass_root,
    {
        copy_opt_string(&self.pass_root)
    }

    /// The secret key together with its passphrase, when both are set.
    pub fn get_gnupg_secret(&self) -> (r: Option<GnuPGSecret<'_>>)
        ensures
            r is Some <==> (self@.secret_key is Some && self@.passphrase is Some),
            r matches Some(s) ==> self@.secret_key == Some(*s.secret_key) && self@.passphrase == Some(s.passphrase@),
    {
        match (&self.gnupg_secret_key, &self.gnupg_passphrase) {
            (Some(key), Some(pp)) => Some(GnuPGSecret { secret_key: key, passphrase: pp.clone() }),
            _ => None,
        }
    }

    /// Whether a passphrase is set.
    pub fn gnupg_passphrase_set(&self) -> (r: bool)
        ensures
            r == self@.passphrase is Some,
    {
        self.gnupg_passphrase.is_some()
    }

    /// Hands the passphrase, if any, to `payload` and returns what it returns.
    pub fn with_gnupg_passphrase<R, F: FnOnce(Option<&str>) -> R>(&self, payload: F) -> (r: R)
        requires
            forall|p: Option<&str>|
                (p is Some <==> self@.passphrase is Some) && (p matches Some(s) ==> self@.passphrase == Some(s@))
                    ==> #[trigger] payload.requires((p,)),
        ensures
            exists|p: Option<&str>|
                (p is Some <==> self@.passphrase is Some) && (p matches Some(s) ==> self@.passphrase == Some(s@))
                    && #[trigger] payload.ensures((p,), r),
    {
        let p = match &self.gnupg_passphrase {
            Some(pp) => Some(pp.as_str()),
            None => None,
        };
        payload(p)
    }

    /// The fingerprint of the secret key, when one is set.
    pub fn gnupg_secret_key_digest(&self) -> (r: Option<String>)
        ensures
            r is Some <==> self@.secret_key is Some,
            r matches Some(d) ==> self@.secret_key matches Some(k) && d@ == key_fingerprint(k),
    {
        match &self.gnupg_secret_key {
            Some(key) => Some(primary_key_fingerprint(key)),
            None => None,
        }
    }

    /// Forgets the passphrase, wiping it from memory.
    pub fn reset_passphrase(&mut self)
        ensures
            final(self)@ == (SettingsView { passphrase: None, ..old(self)@ }),
    {
        let old_pp = self.gnupg_passphrase.take();
        if let Some(pp) = old_pp {
            clear_string(pp);
        }
    }

    /// Replaces the passphrase, wiping the previous one from memory.
    fn set_passphrase(&mut self, passphrase: String)
        ensures
            final(self)@ == (SettingsView { passphrase: Some(passphrase@), ..old(self)@ }),
    {
        let old_pp = self.gnupg_passphrase.take();
        if let Some(pp) = old_pp {
            clear_string(pp);
        }
        self.gnupg_passphrase = Some(passphrase);
    }

    /// The settings as they are kept on disk.
    pub fn to_stored(&self) -> (r: Result<StoredSettings, KeyError>)
        ensures
            stored_result_view(r) == stored_outcome(self@),
    {
        let key = with_bytes::serialize(&self.gnupg_secret_key)?;
        Ok(StoredSettings {
            pass_root: copy_opt_string(&self.pass_root),
            zoom_factor_tenths: self.zoom_factor_tenths,
            gnupg_secret_key: key,
        })
    }

    /// The settings read back from disk, with no passphrase.
    pub fn from_stored(stored: StoredSettings) -> (r: Result<Settings, KeyError>)
        ensures
            settings_result_view(r) == restored_outcome(stored_settings_view(stored)),
    {
        let StoredSettings { pass_root, zoom_factor_tenths, gnupg_secret_key } = stored;
        let key = with_bytes::deserialize(gnupg_secret_key)?;
        Ok(Settings { pass_root, zoom_factor_tenths, gnupg_secret_key: key, gnupg_passphrase: None })
    }
}


/// A pass root chosen by the user, with the paths found by walking it.
pub struct PassRootListing {
    pub root: String,
    pub walked: Vec<WalkedPath>,
}

/// Runtime settings update requests. A request that needs outside work carries its
/// outcome: the listing of the new pass root, or the loaded secret key, or the
/// error text that explains why there is none.
pub enum SettingsUpdateReq {
    PassRoot(Result<PassRootListing, String>),
    GnuPGPassphrase(String),
    GnuPGSecretKey(Result<SignedSecretKey, String>),
    ZoomFactor(u32),
    Reset,
}

/// The error shown when a new pass root could not be obtained.
pub open spec fn pass_root_error(e: Seq<char>) -> MessageView {
    MessageView { text: "cannot set new pass root: "@ + e, duration_ms: DEFAULT_MESSAGE_DURATION_MS, kind: Kind::Error }
}

/// The error shown when a secret key could not be read.
pub open spec fn secret_key_error(e: Seq<char>) -> MessageView {
    MessageView { text: "unable to read secret key file: "@ + e, duration_ms: DEFAULT_MESSAGE_DURATION_MS, kind: Kind::Error }
}

/// A request can be applied when the paths of a new pass root's listing lie under it.
pub open spec fn applicable(req: SettingsUpdateReq) -> bool {
    match req {
        SettingsUpdateReq::PassRoot(Ok(l)) => lies_under(l.root@, l.walked@),
        _ => true,
    }
}

impl SettingsUpdateReq {
    /// Applies the request right away and returns whether the stored settings changed,
    /// that is, whether they should be saved again. A newly entered passphrase starts
    /// the housekeeper's count of how long it has been kept afresh.
    pub fn apply(
        self,
        housekeeper: &mut Housekeeper,
        settings: &mut Settings,
        repository: &mut PassRepository,
        finder: &mut crate::finder::Finder,
        notifications: &mut Notifications,
    ) -> (r: bool)
        requires
            applicable(self),
        ensures
            match self {
                SettingsUpdateReq::PassRoot(Ok(l)) => {
                    &&& r
                    &&& final(housekeeper)@ == old(housekeeper)@
                    &&& final(settings)@ == (SettingsView { pass_root: Some(l.root@), ..old(settings)@ })
                    &&& final(repository)@.entries == listed(l.root@, l.walked@)
                    &&& (listed(l.root@, l.walked@).len() == 0 ==> final(repository)@.last_used_root == old(repository)@.last_used_root
                        && final(notifications)@ == pushed(old(notifications)@, no_entries_message(l.root@)))
                    &&& (listed(l.root@, l.walked@).len() > 0 ==> final(repository)@.last_used_root == Some(l.root@)
                        && final(notifications)@ == old(notifications)@)
                    &&& final(finder)@ == (crate::finder::FinderView { search_requested: true, ..old(finder)@ })
                },
                SettingsUpdateReq::PassRoot(Err(e)) => {
                    &&& !r
                    &&& final(housekeeper)@ == old(housekeeper)@
                    &&& final(settings)@ == old(settings)@
                    &&& final(repository)@ == old(repository)@
                    &&& final(finder)@ == old(finder)@
                    &&& final(notifications)@ == pushed(old(notifications)@, pass_root_error(e@))
                },
                SettingsUpdateReq::GnuPGPassphrase(pp) => {
                    &&& !r
                    &&& final(housekeeper)@ is None
                    &&& final(settings)@ == (SettingsView { passphrase: Some(pp@), ..old(settings)@ })
                    &&& final(repository)@ == old(repository)@
                    &&& final(finder)@ == old(finder)@
                    &&& final(notifications)@ == old(notifications)@
                },
                SettingsUpdateReq::GnuPGSecretKey(Ok(key)) => {
                    &&& r
                    &&& final(housekeeper)@ == old(housekeeper)@
                    &&& final(settings)@ == (SettingsView { secret_key: Some(key), ..old(settings)@ })
                    &&& final(repository)@ == old(repository)@
                    &&& final(finder)@ == old(finder)@
                    &&& final(notifications)@ == old(notifications)@
                },
                SettingsUpdateReq::GnuPGSecretKey(Err(e)) => {
                    &&& !r
                    &&& final(housekeeper)@ == old(housekeeper)@
                    &&& final(settings)@ == old(settings)@
                    &&& final(repository)@ == old(repository)@
                    &&& final(finder)@ == old(finder)@
                    &&& final(notifications)@ == pushed(old(notifications)@, secret_key_error(e@))
                },
                SettingsUpdateReq::ZoomFactor(z) => {
                    &&& r == (z != old(settings)@.zoom_factor_tenths)
                    &&& final(housekeeper)@ == old(housekeeper)@
                    &&& final(settings)@ == (SettingsView { zoom_factor_tenths: z, ..old(settings)@ })
                    &&& final(repository)@ == old(repository)@
                    &&& final(finder)@ == old(finder)@
                    &&& final(notifications)@ == old(notifications)@
                },
                SettingsUpdateReq::Reset => {
                    &&& r
                    &&& final(housekeeper)@ == old(housekeeper)@
                    &&& final(settings)@ == (SettingsView {
                        pass_root: None,
                        secret_key: None,
                        passphrase: None,
                        ..old(settings)@
                    })
                    &&& final(repository)@.entries == Seq::<PassEntryView>::empty()
                    &&& final(repository)@.last_used_root is None
                    &&& final(finder)@ == (crate::finder::FinderView { search_requested: true, ..old(finder)@ })
                    &&& final(notifications)@ == old(notifications)@
                },
            },
    {
        match self {
            SettingsUpdateReq::PassRoot(Ok(listing)) => {
                repository.fetch_entries_for(listing.root.as_str(), &listing.walked, notifications);
                finder.notify();
                settings.pass_root = Some(listing.root);
                true
            },
            SettingsUpdateReq::PassRoot(Err(e)) => {
                push_message(notifications, Message::new(concat_strs("cannot set new pass root: ", e.as_str()), Kind::Error));
                false
            },
            SettingsUpdateReq::GnuPGPassphrase(pp) => {
                housekeeper.restart();
                settings.set_passphrase(pp);
                false
            },
            SettingsUpdateReq::GnuPGSecretKey(Ok(key)) => {
                settings.gnupg_secret_key = Some(key);
                true
            },
            SettingsUpdateReq::GnuPGSecretKey(Err(e)) => {
                push_message(notifications, Message::new(concat_strs("unable to read secret key file: ", e.as_str()), Kind::Error));
                false
            },
            SettingsUpdateReq::Reset => {
                settings.reset_passphrase();
                settings.gnupg_secret_key = None;
                settings.pass_root = None;
                repository.clear();
                finder.notify();
                true
            },
            SettingsUpdateReq::ZoomFactor(new_zoom) => {
                if settings.zoom_factor_tenths != new_zoom {
                    settings.zoom_factor_tenths = new_zoom;
                    true
                } else {
                    false
                }
            },
        }
    }
}

} // verus!
