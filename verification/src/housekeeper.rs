//! Housekeeper: periodic tasks. It erases the passphrase once it has been kept in
//! memory for longer than allowed.

use vstd::prelude::*;

use crate::notifications::{elapsed, push_message, pushed, Kind, Message, MessageView, Notifications};
use crate::settings::{Settings, SettingsView};

verus! {

/// How often the housekeeper runs, in milliseconds.
pub const PERIOD_MS: u64 = 30_000;

/// For how long the passphrase may be kept in memory, in milliseconds (10 minutes).
pub const PASSPHRASE_MAX_STORE_MS: u64 = 600_000;

/// How long the notice about an erased passphrase is shown, in milliseconds.
pub const ERASED_NOTICE_DURATION_MS: u64 = 120_000;

/// The notice given when the housekeeper erases the passphrase.
pub open spec fn erased_notice() -> MessageView {
    MessageView {
        text: "passphrase is erased by housekeeper"@,
        duration_ms: ERASED_NOTICE_DURATION_MS,
        kind: Kind::Success,
    }
}

/// One run of the housekeeper, from the moment it saw the passphrase set (if it did),
/// the time, and whether a passphrase is set: the new moment, and whether the
/// passphrase is to be erased now.
pub open spec fn housekeeping(seen_set_at: Option<u64>, now: u64, passphrase_set: bool) -> (Option<u64>, bool) {
    match seen_set_at {
        Some(t) => if elapsed(t, now) > PASSPHRASE_MAX_STORE_MS {
            (None, true)
        } else {
            (Some(t), false)
        },
        None => if passphrase_set {
            (Some(now), false)
        } else {
            (None, false)
        },
    }
}

/// The housekeeper's memory: the moment it saw the passphrase set.
pub struct Housekeeper {
    passphrase_seen_set_at: Option<u64>,
}

impl View for Housekeeper {
    type V = Option<u64>;

    closed spec fn view(&self) -> Option<u64> {
        self.passphrase_seen_set_at
    }
}

impl Housekeeper {
    /// A housekeeper that has not seen a passphrase yet.
    pub fn new() -> (r: Self)
        ensures
            r@ is None,
    {
        Housekeeper { passphrase_seen_set_at: None }
    }

    /// Forgets when the passphrase was seen set, so that the next run counts the
    /// time a passphrase is kept from then on.
    pub fn restart(&mut self)
        ensures
            final(self)@ is None,
    {
        self.passphrase_seen_set_at = None;
    }

    /// One run at `now_ms`: a passphrase first seen set is registered with the time;
    /// one registered longer than the allowed time ago is erased and the user told so.
    pub fn run_once(&mut self, now_ms: u64, settings: &mut Settings, notifications: &mut Notifications)
        ensures
            final(self)@ == housekeeping(old(self)@, now_ms, old(settings)@.passphrase is Some).0,
            housekeeping(old(self)@, now_ms, old(settings)@.passphrase is Some).1 ==> final(settings)@ == (SettingsView {
                passphrase: None,
                ..old(settings)@
            }) && final(notifications)@ == pushed(old(notifications)@, erased_notice()),
            !housekeeping(old(self)@, now_ms, old(settings)@.passphrase is Some).1 ==> final(settings)@ == old(settings)@
                && final(notifications)@ == old(notifications)@,
    {
        match self.passphrase_seen_set_at {
            Some(seen) => {
                if now_ms.saturating_sub(seen) > PASSPHRASE_MAX_STORE_MS {
                    settings.reset_passphrase();
                    self.passphrase_seen_set_at = None;
                    let notice = Message::new("passphrase is erased by housekeeper".to_owned(), Kind::Success)
                        .with_duration(ERASED_NOTICE_DURATION_MS);
                    push_message(notifications, notice);
                }
            },
            None => {
                if settings.gnupg_passphrase_set() {
                    self.passphrase_seen_set_at = Some(now_ms);
                }
            },
        }
    }
}

/// A passphrase registered at `registered` is erased by the first run that comes
/// more than the allowed time later, and kept by every run before that.
pub proof fn law_passphrase_erased_after_max_store(registered: u64, now: u64, passphrase_set: bool)
    ensures
        housekeeping(None, registered, true) == (Some(registered), false),
        now > registered + PASSPHRASE_MAX_STORE_MS ==> housekeeping(Some(registered), now, passphrase_set) == (None::<u64>, true),
        now <= registered + PASSPHRASE_MAX_STORE_MS ==> housekeeping(Some(registered), now, passphrase_set) == (Some(registered), false),
{
}

/// Nothing is erased when no passphrase was ever seen set.
pub proof fn law_nothing_erased_without_passphrase(now: u64)
    ensures
        housekeeping(None, now, false) == (None::<u64>, false),
{
}


/// Runs of the housekeeper at the given times, starting with nothing seen and a
/// passphrase set that nobody touches afterwards: what the housekeeper then
/// remembers, and whether the passphrase is still set.
pub open spec fn runs(times: Seq<u64>) -> (Option<u64>, bool)
    decreases times.len(),
{
    if times.len() == 0 {
        (None, true)
    } else {
        let before = runs(times.drop_last());
        let step = housekeeping(before.0, times.last(), before.1);
        (step.0, before.1 && !step.1)
    }
}

/// The passphrase stays in memory for exactly as long as allowed: over runs at
/// non-decreasing times, it is still set while the latest run is within the
/// allowed time of the first one, which registered it, and erased after that.
pub proof fn law_passphrase_kept_for_max_store(times: Seq<u64>)
    requires
        times.len() > 0,
        forall|i: int, j: int| 0 <= i <= j < times.len() ==> times[i] <= times[j],
    ensures
        runs(times) == (if times.last() > times[0] + PASSPHRASE_MAX_STORE_MS {
            (None::<u64>, false)
        } else {
            (Some(times[0]), true)
        }),
    decreases times.len(),
{
    if times.len() > 1 {
        let prefix = times.drop_last();
        assert forall|i: int, j: int| 0 <= i <= j < prefix.len() implies prefix[i] <= prefix[j] by {
            assert(prefix[i] == times[i] && prefix[j] == times[j]);
        }
        law_passphrase_kept_for_max_store(prefix);
        assert(prefix[0] == times[0]);
        assert(prefix.last() == times[times.len() - 2]);
        assert(times[times.len() - 2] <= times.last());
        assert(times[0] <= times.last());
    } else {
        assert(times.drop_last().len() == 0);
        assert(runs(times.drop_last()) == (None::<u64>, true));
        assert(times.last() == times[0]);
    }
}

/// A passphrase entered at `entered` (which restarts the housekeeper) is kept by
/// every run that comes no later than the allowed time after it.
pub proof fn law_entered_passphrase_kept(entered: u64, times: Seq<u64>)
    requires
        times.len() > 0,
        forall|i: int, j: int| 0 <= i <= j < times.len() ==> times[i] <= times[j],
        entered <= times[0],
        times.last() <= entered + PASSPHRASE_MAX_STORE_MS,
    ensures
        runs(times).1,
{
    law_passphrase_kept_for_max_store(times);
}

/// With runs no more than `gap` apart, a passphrase kept longer than allowed is
/// erased by a run that comes at most `gap` after the allowed time is over.
pub proof fn law_passphrase_erased_within_one_period(times: Seq<u64>, gap: u64)
    requires
        times.len() > 0,
        forall|i: int, j: int| 0 <= i <= j < times.len() ==> times[i] <= times[j],
        forall|i: int| 0 < i < times.len() ==> #[trigger] times[i] <= times[i - 1] + gap,
        times.last() > times[0] + PASSPHRASE_MAX_STORE_MS,
    ensures
        exists|k: int|
            0 < k < times.len() && times[k] <= times[0] + PASSPHRASE_MAX_STORE_MS + gap
                && !(#[trigger] runs(times.take(k + 1))).1,
{
    let k = first_run_after(times, times.len() - 1);
    let prefix = times.take(k + 1);
    assert forall|i: int, j: int| 0 <= i <= j < prefix.len() implies prefix[i] <= prefix[j] by {
        assert(prefix[i] == times[i] && prefix[j] == times[j]);
    }
    law_passphrase_kept_for_max_store(prefix);
    assert(prefix[0] == times[0]);
    assert(prefix.last() == times[k]);
    assert(times[k] <= times[k - 1] + gap);
}

/// The first run, up to index `n`, that comes more than the allowed time after the first.
proof fn first_run_after(times: Seq<u64>, n: int) -> (k: int)
    requires
        0 <= n < times.len(),
        times[n] > times[0] + PASSPHRASE_MAX_STORE_MS,
    ensures
        0 < k <= n,
        times[k] > times[0] + PASSPHRASE_MAX_STORE_MS,
        times[k - 1] <= times[0] + PASSPHRASE_MAX_STORE_MS,
    decreases n,
{
    if times[n - 1] > times[0] + PASSPHRASE_MAX_STORE_MS {
        first_run_after(times, n - 1)
    } else {
        n
    }
}

} // verus!
