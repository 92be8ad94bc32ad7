//! A bounded log of the user's interactions with the outliner, most recent
//! first.

use vstd::prelude::*;
use std::collections::VecDeque;
use std::time::{Duration, SystemTime, SystemTimeError};
use crate::text::{decimal, push_decimal};
use vstd::string::StringExecFns;
use vstd::std_specs::convert::IntoSpec;
use vstd::std_specs::iter::IteratorSpec;

verus! {

broadcast use vstd::std_specs::vecdeque::group_vec_dequeue_axioms, vstd::std_specs::vec::group_vec_axioms;

#[verifier::external_type_specification]
#[verifier::external_body]
pub struct ExSystemTime(std::time::SystemTime);

#[verifier::external_type_specification]
#[verifier::external_body]
pub struct ExSystemTimeError(std::time::SystemTimeError);

/// Relies on `SystemTime`'s `Clone`: the type is `Copy`, so a clone is the
/// same reading.
pub assume_specification[ <std::time::SystemTime as core::clone::Clone>::clone ](
    t: &std::time::SystemTime,
) -> (r: std::time::SystemTime)
    ensures
        r == *t,
;

/// Relies on `SystemTime::now`: the clock's current reading. Nothing is
/// promised of the value.
pub assume_specification[ std::time::SystemTime::now ]() -> std::time::SystemTime;

/// Relies on `SystemTime::elapsed`: the time since a reading, or an error
/// when the clock went backwards. Nothing is promised of the value.
pub assume_specification[ std::time::SystemTime::elapsed ](
    t: &std::time::SystemTime,
) -> core::result::Result<core::time::Duration, std::time::SystemTimeError>;

/// Relies on `Duration::as_secs`: the whole seconds of a duration.
pub assume_specification[ core::time::Duration::as_secs ](d: &core::time::Duration) -> u64;

/// The kind of an interaction.
#[derive(Clone, Debug, Hash)]
pub enum EventType {
    /// A node was selected or unselected.
    Selection,
    /// A node was shown or hidden.
    Visibility,
    /// A node was locked or unlocked.
    Lock,
    /// A node was dragged and dropped.
    DragDrop,
    /// A node was renamed.
    Rename,
    /// A kind named by the application.
    Custom(String),
}

/// Two event kinds are the same variant, and custom kinds carry the same text.
pub open spec fn same_event_type(a: EventType, b: EventType) -> bool {
    match (a, b) {
        (EventType::Selection, EventType::Selection) => true,
        (EventType::Visibility, EventType::Visibility) => true,
        (EventType::Lock, EventType::Lock) => true,
        (EventType::DragDrop, EventType::DragDrop) => true,
        (EventType::Rename, EventType::Rename) => true,
        (EventType::Custom(x), EventType::Custom(y)) => x@ == y@,
        _ => false,
    }
}

impl PartialEq for EventType {
    fn eq(&self, other: &EventType) -> (r: bool)
        ensures
            r == same_event_type(*self, *other),
    {
        match (self, other) {
            (EventType::Selection, EventType::Selection) => true,
            (EventType::Visibility, EventType::Visibility) => true,
            (EventType::Lock, EventType::Lock) => true,
            (EventType::DragDrop, EventType::DragDrop) => true,
            (EventType::Rename, EventType::Rename) => true,
            (EventType::Custom(x), EventType::Custom(y)) => x.eq(y),
            _ => false,
        }
    }
}

impl vstd::std_specs::cmp::PartialEqSpecImpl for EventType {
    open spec fn obeys_eq_spec() -> bool {
        true
    }

    open spec fn eq_spec(&self, other: &EventType) -> bool {
        same_event_type(*self, *other)
    }
}

impl Eq for EventType {
}

/// The name of an event kind: the variant's name, or a custom kind's text.
pub open spec fn event_type_name(t: EventType) -> Seq<char> {
    match t {
        EventType::Selection => "Selection"@,
        EventType::Visibility => "Visibility"@,
        EventType::Lock => "Lock"@,
        EventType::DragDrop => "DragDrop"@,
        EventType::Rename => "Rename"@,
        EventType::Custom(s) => s@,
    }
}

impl EventType {
    /// The kind's name.
    pub fn as_str(&self) -> (r: &str)
        ensures
            r@ == event_type_name(*self),
    {
        match self {
            EventType::Selection => "Selection",
            EventType::Visibility => "Visibility",
            EventType::Lock => "Lock",
            EventType::DragDrop => "DragDrop",
            EventType::Rename => "Rename",
            EventType::Custom(s) => s.as_str(),
        }
    }
}

/// One recorded interaction.
#[derive(Clone, Debug)]
pub struct LogEntry<Id> {
    /// When it was recorded.
    pub timestamp: SystemTime,
    /// A description for people.
    pub message: String,
    /// Its kind.
    pub event_type: EventType,
    /// The node it concerns, if any.
    pub node_id: Option<Id>,
}

/// How long ago something happened, for a reader: seconds under a minute,
/// then whole minutes, hours, and days, each followed by " ago".
pub open spec fn age_text(secs: nat) -> Seq<char> {
    if secs < 60 {
        decimal(secs) + "s ago"@
    } else if secs < 3600 {
        decimal(secs / 60) + "m ago"@
    } else if secs < 86400 {
        decimal(secs / 3600) + "h ago"@
    } else {
        decimal(secs / 86400) + "d ago"@
    }
}

/// The text for an age of `secs` seconds.
pub fn format_age(secs: u64) -> (r: String)
    ensures
        r@ == age_text(secs as nat),
{
    let mut s = String::new();
    if secs < 60 {
        push_decimal(&mut s, secs);
        s.append("s ago");
    } else if secs < 3600 {
        push_decimal(&mut s, secs / 60);
        s.append("m ago");
    } else if secs < 86400 {
        push_decimal(&mut s, secs / 3600);
        s.append("h ago");
    } else {
        push_decimal(&mut s, secs / 86400);
        s.append("d ago");
    }
    s
}

/// The text for a time since an event: its age, or "unknown" when the
/// clock could not tell.
pub open spec fn elapsed_text(secs: Option<u64>) -> Seq<char> {
    match secs {
        Some(s) => age_text(s as nat),
        None => "unknown"@,
    }
}

/// The text for the seconds since an event, `None` when the clock could
/// not tell.
pub fn format_elapsed_secs(secs: Option<u64>) -> (r: String)
    ensures
        r@ == elapsed_text(secs),
{
    match secs {
        Some(s) => format_age(s),
        None => "unknown".to_string(),
    }
}

impl<Id> LogEntry<Id> {
    /// An entry stamped with the current time.
    pub fn new(message: String, event_type: EventType, node_id: Option<Id>) -> (r: Self)
        ensures
            r.message == message,
            r.event_type == event_type,
            r.node_id == node_id,
    {
        LogEntry { timestamp: SystemTime::now(), message, event_type, node_id }
    }

    /// The name of the entry's kind.
    pub fn event_type_str(&self) -> (r: &str)
        ensures
            r@ == event_type_name(self.event_type),
    {
        self.event_type.as_str()
    }

    /// The time since the entry was recorded, or an error when the clock
    /// has gone back since.
    pub fn elapsed(&self) -> Result<Duration, SystemTimeError> {
        self.timestamp.elapsed()
    }

    /// How long ago the entry was recorded, as `format_age` writes it, or
    /// "unknown" when the clock has gone back since.
    pub fn format_elapsed(&self) -> (r: String)
        ensures
            exists|secs: Option<u64>| r@ == #[trigger] elapsed_text(secs),
    {
        let secs = match self.elapsed() {
            Ok(duration) => Some(duration.as_secs()),
            Err(_) => None,
        };
        format_elapsed_secs(secs)
    }
}

/// `after` is `before` with one new entry in front, less the oldest entry
/// when that would exceed `capacity`.
pub open spec fn pushed_front<Id>(before: Seq<LogEntry<Id>>, after: Seq<LogEntry<Id>>, capacity: nat) -> bool {
    &&& after.len() == (if before.len() + 1 <= capacity {
        before.len() + 1
    } else {
        before.len()
    })
    &&& forall|i: int| 1 <= i < after.len() ==> #[trigger] after[i] == before[i - 1]
}

/// The entries of `s` whose kind is the same as `t`, in order.
pub open spec fn entries_of_type<Id>(s: Seq<LogEntry<Id>>, t: EventType) -> Seq<LogEntry<Id>>
    decreases s.len(),
{
    if s.len() == 0 {
        Seq::empty()
    } else {
        let before = entries_of_type(s.drop_last(), t);
        if same_event_type(s.last().event_type, t) {
            before.push(s.last())
        } else {
            before
        }
    }
}

/// The most recent entries of a log, newest first, at most `max_entries`
/// of them.
#[derive(Clone, Debug)]
pub struct EventLog<Id> {
    entries: VecDeque<LogEntry<Id>>,
    max_entries: usize,
}

impl<Id> View for EventLog<Id> {
    type V = Seq<LogEntry<Id>>;

    closed spec fn view(&self) -> Seq<LogEntry<Id>> {
        self.entries@
    }
}

impl<Id> EventLog<Id> {
    /// The most entries the log keeps.
    pub closed spec fn capacity(&self) -> nat {
        self.max_entries as nat
    }

    /// The log holds no more entries than its capacity.
    pub open spec fn within_capacity(&self) -> bool {
        self@.len() <= self.capacity()
    }

    /// An empty log that keeps at most `max_entries` entries.
    pub fn new(max_entries: usize) -> (r: Self)
        ensures
            r@ == Seq::<LogEntry<Id>>::empty(),
            r.capacity() == max_entries,
            r.within_capacity(),
    {
        EventLog { entries: VecDeque::new(), max_entries }
    }

    /// Records an interaction as the newest entry, dropping the oldest one
    /// when the log would exceed its capacity. The entry's text is whatever
    /// `message` converts to; `log_text` takes the text itself.
    pub fn log<M: Into<String>>(&mut self, message: M, event_type: EventType, node_id: Option<Id>)
        ensures
            final(self).capacity() == old(self).capacity(),
            pushed_front(old(self)@, final(self)@, old(self).capacity()),
            old(self).within_capacity() ==> final(self).within_capacity(),
            final(self)@.len() > 0 ==> {
                &&& final(self)@[0].event_type == event_type
                &&& final(self)@[0].node_id == node_id
                &&& (M::obeys_into_spec() ==> final(self)@[0].message == message.into_spec())
            },
    {
        self.record(LogEntry::new(message.into(), event_type, node_id));
    }

    /// Records an interaction described by `message` as the newest entry,
    /// dropping the oldest one when the log would exceed its capacity.
    pub fn log_text(&mut self, message: String, event_type: EventType, node_id: Option<Id>)
        ensures
            final(self).capacity() == old(self).capacity(),
            pushed_front(old(self)@, final(self)@, old(self).capacity()),
            old(self).within_capacity() ==> final(self).within_capacity(),
            final(self)@.len() > 0 ==> {
                &&& final(self)@[0].message@ == message@
                &&& final(self)@[0].event_type == event_type
                &&& final(self)@[0].node_id == node_id
            },
    {
        self.record(LogEntry::new(message, event_type, node_id));
    }

    /// Puts `entry` in front, dropping the oldest entry when the log would
    /// exceed its capacity.
    pub(crate) fn record(&mut self, entry: LogEntry<Id>)
        ensures
            final(self).capacity() == old(self).capacity(),
            pushed_front(old(self)@, final(self)@, old(self).capacity()),
            old(self).within_capacity() ==> final(self).within_capacity(),
            final(self)@.len() > 0 ==> final(self)@[0] == entry,
    {
        self.entries.push_front(entry);
        if self.entries.len() > self.max_entries {
            self.entries.pop_back();
        }
    }

    /// The entries, newest first.
    pub fn entries(&self) -> (r: std::collections::vec_deque::Iter<'_, LogEntry<Id>>)
        ensures
            r.remaining() == self@.as_ref(),
    {
        self.entries.iter()
    }

    /// The number of entries.
    pub fn len(&self) -> (r: usize)
        ensures
            r == self@.len(),
    {
        self.entries.len()
    }

    /// Whether the log holds no entry.
    pub fn is_empty(&self) -> (r: bool)
        ensures
            r == (self@.len() == 0),
    {
        self.entries.len() == 0
    }

    /// Removes every entry; the capacity stays.
    pub fn clear(&mut self)
        ensures
            final(self)@ == Seq::<LogEntry<Id>>::empty(),
            final(self).capacity() == old(self).capacity(),
            final(self).within_capacity(),
    {
        self.entries.clear();
    }

    /// The most entries the log keeps.
    pub fn max_entries(&self) -> (r: usize)
        ensures
            r == self.capacity(),
    {
        self.max_entries
    }

    /// Changes the capacity, dropping the oldest entries beyond it.
    pub fn set_max_entries(&mut self, max_entries: usize)
        ensures
            final(self).capacity() == max_entries,
            final(self)@ == old(self)@.take(vstd::math::min(old(self)@.len() as int, max_entries as int)),
            final(self).within_capacity(),
    {
        self.max_entries = max_entries;
        let ghost orig = self.entries@;
        while self.entries.len() > max_entries
            invariant
                self.max_entries == max_entries,
                orig == old(self)@,
                self.entries@.len() >= vstd::math::min(orig.len() as int, max_entries as int),
                self.entries@.len() <= orig.len(),
                self.entries@ == orig.take(self.entries@.len() as int),
            decreases self.entries@.len(),
        {
            self.entries.pop_back();
            assert(self.entries@ =~= orig.take(self.entries@.len() as int));
        }
        assert(self.entries@ =~= orig.take(vstd::math::min(orig.len() as int, max_entries as int)));
    }

    /// The entries of the kind `event_type`, newest first.
    pub fn filter_by_type(&self, event_type: &EventType) -> (r: std::vec::IntoIter<&LogEntry<Id>>)
        ensures
            r.remaining().len() == entries_of_type(self@, *event_type).len(),
            forall|i: int|
                0 <= i < r.remaining().len() ==> *#[trigger] r.remaining()[i] == entries_of_type(
                    self@,
                    *event_type,
                )[i],
    {
        let mut found: Vec<&LogEntry<Id>> = Vec::new();
        let n = self.entries.len();
        let mut i: usize = 0;
        while i < n
            invariant
                n == self@.len(),
                i <= n,
                found@.len() == entries_of_type(self@.take(i as int), *event_type).len(),
                forall|k: int|
                    0 <= k < found@.len() ==> *#[trigger] found@[k] == entries_of_type(
                        self@.take(i as int),
                        *event_type,
                    )[k],
            decreases n - i,
        {
            let entry = &self.entries[i];
            proof {
                assert(self@.take(i + 1).drop_last() =~= self@.take(i as int));
            }
            if entry.event_type == *event_type {
                found.push(entry);
            }
            i = i + 1;
        }
        proof {
            assert(self@.take(n as int) =~= self@);
        }
        found.into_iter()
    }
}

impl<Id> Default for EventLog<Id> {
    /// An empty log that keeps the hundred most recent entries.
    fn default() -> (r: Self)
        ensures
            r@ == Seq::<LogEntry<Id>>::empty(),
            r.capacity() == 100,
            r.within_capacity(),
    {
        Self::new(100)
    }
}

} // verus!
