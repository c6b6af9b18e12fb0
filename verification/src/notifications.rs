//! In-editor notifications: a bounded queue of leveled, timestamped
//! messages, and how a message becomes a toast's title and body. The caller
//! reads the clock and hands each message its time.

use vstd::prelude::*;
use crate::text::{chars_of, string_of, trim, trimmed};

verus! {

/// How serious a notification is.
#[derive(Clone, Copy, Debug, PartialEq, Eq, Structural)]
pub enum NotificationLevel {
    Info,
    Success,
    Warning,
    Error,
}

/// One notification.
pub struct Notification {
    pub level: NotificationLevel,
    pub message: String,
    /// When it was added, in milliseconds since the Unix epoch (UTC).
    pub timestamp: i64,
}

/// The level, text and time of each notification, oldest first.
pub open spec fn entries(v: Seq<Notification>) -> Seq<(NotificationLevel, Seq<char>, i64)> {
    v.map_values(|n: Notification| (n.level, n.message@, n.timestamp))
}

/// The queue after adding a message: appended, then only the newest
/// `max` kept.
pub open spec fn after_add(
    q: Seq<(NotificationLevel, Seq<char>, i64)>,
    level: NotificationLevel,
    message: Seq<char>,
    timestamp: i64,
    max: nat,
) -> Seq<(NotificationLevel, Seq<char>, i64)> {
    let p = q.push((level, message, timestamp));
    if p.len() > max { p.skip(p.len() - max) } else { p }
}

/// A bounded queue of notifications, newest last.
pub struct NotificationManager {
    pub notifications: Vec<Notification>,
    pub max_notifications: usize,
}

impl NotificationManager {
    /// An empty queue that keeps the ten newest notifications.
    pub fn new() -> (r: Self)
        ensures
            r.notifications@.len() == 0,
            r.max_notifications == 10,
    {
        NotificationManager { notifications: Vec::new(), max_notifications: 10 }
    }

    /// Add an informational message, stamped with `timestamp` (milliseconds since the
    /// Unix epoch, UTC).
    pub fn info(&mut self, message: String, timestamp: i64)
        ensures
            final(self).max_notifications == old(self).max_notifications,
            entries(final(self).notifications@) == after_add(entries(old(self).notifications@), NotificationLevel::Info, message@, timestamp, old(self).max_notifications as nat),
    {
        self.add(NotificationLevel::Info, message, timestamp);
    }

    /// Add a success message, stamped with `timestamp` (milliseconds since the
    /// Unix epoch, UTC).
    pub fn success(&mut self, message: String, timestamp: i64)
        ensures
            final(self).max_notifications == old(self).max_notifications,
            entries(final(self).notifications@) == after_add(entries(old(self).notifications@), NotificationLevel::Success, message@, timestamp, old(self).max_notifications as nat),
    {
        self.add(NotificationLevel::Success, message, timestamp);
    }

    /// Add a warning, stamped with `timestamp` (milliseconds since the
    /// Unix epoch, UTC).
    pub fn warning(&mut self, message: String, timestamp: i64)
        ensures
            final(self).max_notifications == old(self).max_notifications,
            entries(final(self).notifications@) == after_add(entries(old(self).notifications@), NotificationLevel::Warning, message@, timestamp, old(self).max_notifications as nat),
    {
        self.add(NotificationLevel::Warning, message, timestamp);
    }

    /// Add an error, stamped with `timestamp` (milliseconds since the
    /// Unix epoch, UTC).
    pub fn error(&mut self, message: String, timestamp: i64)
        ensures
            final(self).max_notifications == old(self).max_notifications,
            entries(final(self).notifications@) == after_add(entries(old(self).notifications@), NotificationLevel::Error, message@, timestamp, old(self).max_notifications as nat),
    {
        self.add(NotificationLevel::Error, message, timestamp);
    }

    /// Append a message stamped with `timestamp`, then drop the oldest
    /// until at most `max_notifications` remain.
    fn add(&mut self, level: NotificationLevel, message: String, timestamp: i64)
        ensures
            final(self).max_notifications == old(self).max_notifications,
            entries(final(self).notifications@) == after_add(entries(old(self).notifications@), level, message@, timestamp, old(self).max_notifications as nat),
    {
        let ghost target = after_add(entries(self.notifications@), level, message@, timestamp, self.max_notifications as nat);
        let ghost pushed = entries(self.notifications@).push((level, message@, timestamp));
        self.notifications.push(Notification { level, message, timestamp });
        proof {
            assert(entries(self.notifications@) =~= pushed);
        }
        let ghost full = entries(self.notifications@);
        while self.notifications.len() > self.max_notifications
            invariant
                full == pushed,
                self.max_notifications == old(self).max_notifications,
                pushed == entries(old(self).notifications@).push((level, message@, timestamp)),
                self.notifications@.len() >= self.max_notifications || self.notifications@.len() == pushed.len(),
                target == if pushed.len() > self.max_notifications { pushed.skip(pushed.len() - self.max_notifications) } else { pushed },
                self.notifications@.len() <= pushed.len(),
                entries(self.notifications@) == pushed.skip(pushed.len() - self.notifications@.len()),
            decreases self.notifications.len(),
        {
            let ghost before = self.notifications@;
            let _ = self.notifications.remove(0);
            proof {
                assert(entries(self.notifications@) =~= entries(before).drop_first());
                assert(pushed.skip(pushed.len() - before.len()).drop_first() =~= pushed.skip(pushed.len() - self.notifications@.len()));
            }
        }
        proof {
            if pushed.len() <= self.max_notifications {
                assert(self.notifications@.len() == pushed.len());
                assert(pushed.skip(0) =~= pushed);
            }
        }
    }

    /// Drop every notification.
    pub fn clear(&mut self)
        ensures
            final(self).notifications@.len() == 0,
            final(self).max_notifications == old(self).max_notifications,
    {
        self.notifications.clear();
    }
}

impl Default for NotificationManager {
    /// An empty queue with a cap of zero.
    fn default() -> (r: Self)
        ensures
            r.notifications@.len() == 0,
            r.max_notifications == 0,
    {
        NotificationManager { notifications: Vec::new(), max_notifications: 0 }
    }
}

/// The queue never holds more than its cap once a message was added.
pub proof fn law_queue_stays_bounded(q: Seq<(NotificationLevel, Seq<char>, i64)>, level: NotificationLevel, message: Seq<char>, timestamp: i64, max: nat)
    ensures
        after_add(q, level, message, timestamp, max).len() <= max || after_add(q, level, message, timestamp, max).len() == q.len() + 1,
        after_add(q, level, message, timestamp, max).len() <= if q.len() + 1 > max { max } else { q.len() + 1 },
        max > 0 ==> after_add(q, level, message, timestamp, max).last() == (level, message, timestamp),
{
}

/// Whether `. ` starts at `i` in `s`.
pub open spec fn is_break(s: Seq<char>, i: int) -> bool {
    0 <= i < s.len() - 1 && s[i] == '.' && s[i + 1] == ' '
}

/// The position of the first `. ` in `s`, if any.
pub open spec fn first_sentence_break(s: Seq<char>) -> Option<int> {
    if exists|i: int| #[trigger] is_break(s, i) {
        Some(choose|i: int| #[trigger] is_break(s, i) && forall|j: int| 0 <= j < i ==> !#[trigger] is_break(s, j))
    } else {
        None
    }
}

/// A toast's title and body from a message: split at the first `. `, both
/// parts trimmed; with nothing after the split, the whole (trimmed) first
/// part is the title and the body is empty.
pub open spec fn spec_toast_text(m: Seq<char>) -> (Seq<char>, Seq<char>) {
    match first_sentence_break(m) {
        None => (trim(m), Seq::empty()),
        Some(i) => {
            let first = trim(m.subrange(0, i));
            let rest = trim(m.subrange(i + 2, m.len() as int));
            if rest.len() == 0 { (first, Seq::empty()) } else { (first, rest) }
        },
    }
}

/// A toast's title and body from a notification's message.
pub fn toast_text(message: &str) -> (r: (String, String))
    ensures
        (r.0@, r.1@) == spec_toast_text(message@),
{
    let v = chars_of(message);
    let mut i: usize = 0;
    let mut found = false;
    while v.len() > 0 && i < v.len() - 1 && !found
        invariant
            i <= v@.len(),
            found ==> is_break(v@, i as int),
            forall|j: int| 0 <= j < i ==> !#[trigger] is_break(v@, j),
        decreases v@.len() - i + (if found { 0int } else { 1int }),
    {
        if v[i] == '.' && v[i + 1] == ' ' {
            found = true;
        } else {
            i = i + 1;
        }
    }
    if !found {
        proof {
            assert(!exists|k: int| #[trigger] is_break(v@, k)) by {
                if exists|k: int| #[trigger] is_break(v@, k) {
                    let k = choose|k: int| #[trigger] is_break(v@, k);
                    assert(k < i);
                }
            }
        }
        let t = trimmed(&v);
        return (string_of(&t), String::new());
    }
    proof {
        assert(is_break(v@, i as int));
        let k = choose|k: int| #[trigger] is_break(v@, k) && forall|j: int| 0 <= j < k ==> !#[trigger] is_break(v@, j);
        assert(k == i) by {
            if k < i {
            } else if k > i {
                assert(!is_break(v@, i as int));
            }
        }
    }
    let mut first: Vec<char> = Vec::new();
    let mut a: usize = 0;
    while a < i
        invariant
            a <= i,
            i < v@.len(),
            first@ == v@.subrange(0, a as int),
        decreases i - a,
    {
        first.push(v[a]);
        a = a + 1;
    }
    let mut rest: Vec<char> = Vec::new();
    let mut b: usize = i + 2;
    while b < v.len()
        invariant
            i + 2 <= b <= v@.len(),
            rest@ == v@.subrange(i + 2, b as int),
        decreases v.len() - b,
    {
        rest.push(v[b]);
        b = b + 1;
    }
    let f = trimmed(&first);
    let r = trimmed(&rest);
    if r.len() == 0 {
        (string_of(&f), String::new())
    } else {
        (string_of(&f), string_of(&r))
    }
}

/// The toast id after `id`: the next one, wrapping past the largest id to
/// 1, never 0.
pub fn next_toast_id(id: u64) -> (r: u64)
    ensures
        r == if id == u64::MAX { 1 } else { (id + 1) as u64 },
{
    let n = id.wrapping_add(1);
    if n < 1 { 1 } else { n }
}

} // verus!
