//! User-visible notifications: messages queued by the parts of the application,
//! and the one notification shown at a time.

use std::collections::VecDeque;

use vstd::prelude::*;

use crate::text::{concat_strs, decimal, decimal_string};

verus! {

/// How long a message stays on screen unless told otherwise, in milliseconds.
pub const DEFAULT_MESSAGE_DURATION_MS: u64 = 3000;

/// How long the status notification lasts: an hour, which is effectively forever.
pub const STATUS_DURATION_MS: u64 = 3_600_000;

/// The kinds of messages.
#[derive(Clone, Copy, Debug, PartialEq, Eq, Structural)]
pub enum Kind {
    Success,
    Warning,
    Error,
}

/// The symbol a message of the given kind is shown with.
pub open spec fn kind_symbol(kind: Kind) -> Seq<char> {
    match kind {
        Kind::Error => "❗"@,
        Kind::Warning => "➡️"@,
        Kind::Success => "√"@,
    }
}

impl Kind {
    /// The symbol a message of this kind is shown with.
    pub fn symbol(&self) -> (r: &'static str)
        ensures
            r@ == kind_symbol(*self),
    {
        match self {
            Kind::Error => "❗",
            Kind::Warning => "➡️",
            Kind::Success => "√",
        }
    }
}

/// What a message says, for how long, and of which kind.
pub struct MessageView {
    pub text: Seq<char>,
    pub duration_ms: u64,
    pub kind: Kind,
}

/// A message that a part of the application sends to the user.
#[derive(Clone, Debug)]
pub struct Message {
    message: String,
    duration_ms: u64,
    kind: Kind,
}

impl View for Message {
    type V = MessageView;

    closed spec fn view(&self) -> MessageView {
        MessageView { text: self.message@, duration_ms: self.duration_ms, kind: self.kind }
    }
}

impl Message {
    /// A message shown for the default duration.
    pub fn new(message: String, kind: Kind) -> (r: Self)
        ensures
            r@ == (MessageView { text: message@, duration_ms: DEFAULT_MESSAGE_DURATION_MS, kind }),
    {
        Message { message, duration_ms: DEFAULT_MESSAGE_DURATION_MS, kind }
    }

    /// The same message, shown for `duration_ms` milliseconds.
    pub fn with_duration(self, duration_ms: u64) -> (r: Self)
        ensures
            r@ == (MessageView { duration_ms, ..self@ }),
    {
        let mut m = self;
        m.duration_ms = duration_ms;
        m
    }

    /// What the message says.
    pub fn text(&self) -> (r: &str)
        ensures
            r@ == self@.text,
    {
        self.message.as_str()
    }

    /// How long the message is shown, in milliseconds.
    pub fn duration_ms(&self) -> (r: u64)
        ensures
            r == self@.duration_ms,
    {
        self.duration_ms
    }

    /// The kind of the message.
    pub fn kind(&self) -> (r: Kind)
        ensures
            r == self@.kind,
    {
        self.kind
    }
}

/// What a notification shows, since when, for how long, and whether the user may close it.
pub struct NotificationView {
    pub text: Seq<char>,
    pub duration_ms: u64,
    pub started_at_ms: u64,
    pub closable: bool,
}

/// A single notification shown to the user.
#[derive(Clone, Debug)]
pub struct Notification {
    pub message: String,
    duration_ms: u64,
    started_at_ms: u64,
    pub closable: bool,
}

impl View for Notification {
    type V = NotificationView;

    closed spec fn view(&self) -> NotificationView {
        NotificationView {
            text: self.message@,
            duration_ms: self.duration_ms,
            started_at_ms: self.started_at_ms,
            closable: self.closable,
        }
    }
}

/// Time passed from `since` to `now`; a clock read before `since` counts as no time.
pub open spec fn elapsed(since: u64, now: u64) -> nat {
    if now >= since {
        (now - since) as nat
    } else {
        0
    }
}

/// A notification has expired when it may be closed and its time has run out.
pub open spec fn expired_at(n: NotificationView, now: u64) -> bool {
    n.closable && elapsed(n.started_at_ms, now) >= n.duration_ms
}

/// The notification that shows a message, started at `now`.
pub open spec fn notification_of(m: MessageView, now: u64) -> NotificationView {
    NotificationView {
        text: kind_symbol(m.kind) + seq![' '] + m.text,
        duration_ms: m.duration_ms,
        started_at_ms: now,
        closable: true,
    }
}

/// The status line about the repository: how many entries it has.
pub open spec fn summary_text(entries_count: nat) -> Seq<char> {
    if entries_count == 0 {
        "no entries found, check settings"@
    } else {
        decimal(entries_count) + " entries in your pass"@
    }
}

/// The status notification shown when no message is pending.
pub open spec fn summary_of(entries_count: nat, now: u64) -> NotificationView {
    NotificationView {
        text: summary_text(entries_count),
        duration_ms: STATUS_DURATION_MS,
        started_at_ms: now,
        closable: false,
    }
}

/// The status line about the repository: how many entries it has.
pub fn summary_line(entries_count: usize) -> (r: String)
    ensures
        r@ == summary_text(entries_count as nat),
{
    if entries_count == 0 {
        "no entries found, check settings".to_owned()
    } else {
        let count = decimal_string(entries_count);
        concat_strs(count.as_str(), " entries in your pass")
    }
}

impl Notification {
    /// The notification that shows `message`, started at `now_ms`.
    pub fn from_message(message: Message, now_ms: u64) -> (r: Self)
        ensures
            r@ == notification_of(message@, now_ms),
    {
        let head = concat_strs(message.kind.symbol(), " ");
        proof {
            reveal_strlit(" ");
        }
        let text = concat_strs(head.as_str(), message.message.as_str());
        assert(text@ =~= kind_symbol(message.kind) + seq![' '] + message.message@);
        Notification { message: text, duration_ms: message.duration_ms, started_at_ms: now_ms, closable: true }
    }

    /// The status notification about a repository of `entries_count` entries.
    pub fn summary(entries_count: usize, now_ms: u64) -> (r: Self)
        ensures
            r@ == summary_of(entries_count as nat, now_ms),
    {
        Notification {
            message: summary_line(entries_count),
            duration_ms: STATUS_DURATION_MS,
            started_at_ms: now_ms,
            closable: false,
        }
    }

    /// Whether the notification has run out at `now_ms`.
    pub fn expired(&self, now_ms: u64) -> (r: bool)
        ensures
            r == expired_at(self@, now_ms),
    {
        self.closable && now_ms.saturating_sub(self.started_at_ms) >= self.duration_ms
    }

    /// Milliseconds left before the notification runs out (none once it has).
    pub fn remaining_ms(&self, now_ms: u64) -> (r: u64)
        ensures
            r == (if elapsed(self@.started_at_ms, now_ms) >= self@.duration_ms {
                0
            } else {
                self@.duration_ms - elapsed(self@.started_at_ms, now_ms)
            }),
            r <= self@.duration_ms,
    {
        let passed = now_ms.saturating_sub(self.started_at_ms);
        if passed >= self.duration_ms {
            0
        } else {
            self.duration_ms - passed
        }
    }

    /// How long the notification lasts, in milliseconds.
    pub fn duration_ms(&self) -> (r: u64)
        ensures
            r == self@.duration_ms,
    {
        self.duration_ms
    }

    /// A copy of the notification.
    pub fn copy(&self) -> (r: Self)
        ensures
            r@ == self@,
    {
        Notification {
            message: self.message.clone(),
            duration_ms: self.duration_ms,
            started_at_ms: self.started_at_ms,
            closable: self.closable,
        }
    }
}


/// The messages waiting to be shown, oldest first, and the notification on screen.
pub struct NotificationsView {
    pub pending: Seq<MessageView>,
    pub current: Option<NotificationView>,
}

/// The notification subsystem: a queue of messages and the current notification.
pub struct Notifications {
    queue: VecDeque<Message>,
    current: Option<Notification>,
}

/// The views of a sequence of messages.
pub open spec fn message_views(ms: Seq<Message>) -> Seq<MessageView> {
    ms.map_values(|m: Message| m@)
}

impl View for Notifications {
    type V = NotificationsView;

    closed spec fn view(&self) -> NotificationsView {
        NotificationsView {
            pending: message_views(self.queue@),
            current: match self.current {
                Some(n) => Some(n@),
                None => None,
            },
        }
    }
}

impl Notifications {
    /// How many messages wait to be shown.
    pub fn pending_len(&self) -> (r: usize)
        ensures
            r == self@.pending.len(),
    {
        self.queue.len()
    }

    /// The message waiting at position `i`, oldest first.
    pub fn pending_message(&self, i: usize) -> (r: &Message)
        requires
            i < self@.pending.len(),
        ensures
            r@ == self@.pending[i as int],
    {
        &self.queue[i]
    }
}

/// The state after a message is queued.
pub open spec fn pushed(c: NotificationsView, m: MessageView) -> NotificationsView {
    NotificationsView { pending: c.pending.push(m), current: c.current }
}

/// The state after the current notification is displaced.
pub open spec fn displaced(c: NotificationsView) -> NotificationsView {
    NotificationsView { pending: c.pending, current: None }
}

/// The state once the current notification is brought up to date at `now`:
/// a missing or expired notification is replaced by the oldest pending message,
/// or by nothing when none is pending.
pub open spec fn refreshed(c: NotificationsView, now: u64) -> NotificationsView {
    let stale = match c.current {
        Some(n) => expired_at(n, now),
        None => true,
    };
    if !stale {
        c
    } else if c.pending.len() > 0 {
        NotificationsView { pending: c.pending.drop_first(), current: Some(notification_of(c.pending[0], now)) }
    } else {
        NotificationsView { pending: c.pending, current: None }
    }
}

/// What is shown in a state: the current notification, or else the status line.
pub open spec fn shown(c: NotificationsView, entries_count: nat, now: u64) -> NotificationView {
    match c.current {
        Some(n) => n,
        None => summary_of(entries_count, now),
    }
}

/// Sets up the notification subsystem: nothing queued and nothing shown.
pub fn initialize() -> (r: Notifications)
    ensures
        r@.pending == Seq::<MessageView>::empty(),
        r@.current is None,
{
    let r = Notifications { queue: VecDeque::new(), current: None };
    assert(r@.pending =~= Seq::<MessageView>::empty());
    r
}

/// The oldest pending message, as a notification started at `now_ms`.
fn try_receive(center: &mut Notifications, now_ms: u64) -> (r: Option<Notification>)
    ensures
        old(center)@.pending.len() == 0 ==> r is None && final(center)@ == old(center)@,
        old(center)@.pending.len() > 0 ==> (r matches Some(n) && n@ == notification_of(old(center)@.pending[0], now_ms)
            && final(center)@.pending == old(center)@.pending.drop_first()),
        final(center)@.current == old(center)@.current,
{
    match center.queue.pop_front() {
        Some(m) => {
            assert(message_views(center.queue@) =~= message_views(old(center).queue@).drop_first());
            Some(Notification::from_message(m, now_ms))
        },
        None => None,
    }
}

/// Brings the current notification up to date at `now_ms` and returns what is shown:
/// a missing or expired notification is replaced by the oldest pending message, and
/// with no message the status line about `entries_count` entries is shown.
pub fn current_notification(center: &mut Notifications, now_ms: u64, entries_count: usize) -> (r: Notification)
    ensures
        final(center)@ == refreshed(old(center)@, now_ms),
        r@ == shown(final(center)@, entries_count as nat, now_ms),
{
    let stale = match &center.current {
        Some(n) => n.expired(now_ms),
        None => true,
    };
    if stale {
        let next = try_receive(center, now_ms);
        center.current = next;
    }
    match &center.current {
        Some(n) => n.copy(),
        None => Notification::summary(entries_count, now_ms),
    }
}

/// Displaces the current notification.
pub fn expire_current(center: &mut Notifications)
    ensures
        final(center)@ == displaced(old(center)@),
{
    center.current = None;
}

/// Queues a message for the user.
pub fn push_message(center: &mut Notifications, message: Message)
    ensures
        final(center)@ == pushed(old(center)@, message@),
{
    let ghost m = message@;
    center.queue.push_back(message);
    assert(message_views(center.queue@) =~= message_views(old(center).queue@).push(m));
}

/// Messages are shown in the order they were sent: queuing a message behind
/// others does not change which one is shown next, and the one queued when
/// nothing is shown or waiting is shown next.
pub proof fn law_messages_shown_in_order(c: NotificationsView, m: MessageView, now: u64)
    ensures
        c.pending.len() > 0 ==> refreshed(pushed(c, m), now) == pushed(refreshed(c, now), m),
        c.pending.len() == 0 && c.current is None ==> refreshed(pushed(c, m), now).current == Some(notification_of(m, now)),
{
    if c.pending.len() > 0 {
        assert(c.pending.push(m).drop_first() =~= c.pending.drop_first().push(m));
    }
    if c.pending.len() == 0 && c.current is None {
        assert(c.pending.push(m)[0] == m);
    }
}

/// A notification that has not run out stays on screen, whatever is queued.
pub proof fn law_unexpired_notification_stays(c: NotificationsView, entries_count: nat, now: u64)
    requires
        c.current matches Some(n) && !expired_at(n, now),
    ensures
        refreshed(c, now) == c,
        shown(refreshed(c, now), entries_count, now) == c.current->0,
{
}

/// With nothing shown and nothing queued, the status line about the repository is shown.
pub proof fn law_status_when_idle(c: NotificationsView, entries_count: nat, now: u64)
    requires
        c.pending.len() == 0,
        c.current is None || expired_at(c.current->0, now),
    ensures
        refreshed(c, now).current is None,
        shown(refreshed(c, now), entries_count, now) == summary_of(entries_count, now),
{
}

/// Every notification made from a message can be closed and stays exactly as long as
/// the message asks; the status line cannot be closed and never runs out.
pub proof fn law_notification_lifetimes(m: MessageView, entries_count: nat, since: u64, now: u64)
    ensures
        notification_of(m, since).closable,
        expired_at(notification_of(m, since), now) <==> elapsed(since, now) >= m.duration_ms,
        !summary_of(entries_count, since).closable,
        !expired_at(summary_of(entries_count, since), now),
{
}

} // verus!
