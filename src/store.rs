//! The event store: an insertion-ordered list of events, searched by linear
//! scan on the exact (date, name) pair.
use crate::datetime::{instant_of, week_start, week_start_of, CivilDate, UtcDateTime};
use vstd::prelude::*;

verus! {

/// A calendar entry: an instant in UTC and its name.
#[derive(Debug)]
pub struct Event {
    pub date: UtcDateTime,
    pub name: String,
}

/// What identifies an event: its instant and its name.
pub type EventKey = ((int, int, int), Seq<char>);

pub open spec fn key_of(e: Event) -> EventKey {
    (instant_of(e.date), e.name@)
}

pub open spec fn key_from(date: UtcDateTime, name: Seq<char>) -> EventKey {
    (instant_of(date), name)
}

/// Some event of `s` carries the key `k`.
pub open spec fn has_key(s: Seq<Event>, k: EventKey) -> bool {
    exists|i: int| 0 <= i < s.len() && #[trigger] key_of(s[i]) == k
}

/// `i` is the first position of `s` whose event carries the key `k`.
pub open spec fn is_first_match(s: Seq<Event>, k: EventKey, i: int) -> bool {
    &&& 0 <= i < s.len()
    &&& key_of(s[i]) == k
    &&& forall|j: int| 0 <= j < i ==> #[trigger] key_of(s[j]) != k
}

/// No two events of `s` carry the same key.
pub open spec fn unique_keys(s: Seq<Event>) -> bool {
    forall|i: int, j: int|
        0 <= i < s.len() && 0 <= j < s.len() && i != j ==> #[trigger] key_of(s[i]) != #[trigger] key_of(s[j])
}

/// The store after adding `e` to `s`: unchanged where the key is taken.
pub open spec fn after_create(s: Seq<Event>, e: Event) -> Seq<Event> {
    if has_key(s, key_of(e)) {
        s
    } else {
        s.push(e)
    }
}

/// The store after adding each event of `es` in turn, from `s`.
pub open spec fn create_each(s: Seq<Event>, es: Seq<Event>) -> Seq<Event>
    decreases es.len(),
{
    if es.len() == 0 {
        s
    } else {
        after_create(create_each(s, es.drop_last()), es.last())
    }
}

/// The period that a query selects on.
#[derive(Clone, Copy, Debug, PartialEq, Eq, Structural)]
pub enum Period {
    Day,
    Week,
    Month,
}

/// The event falls, in UTC, on the calendar day `q`.
pub open spec fn same_day(e: Event, q: CivilDate) -> bool {
    e.date.date.year == q.year && e.date.date.month == q.month && e.date.date.day == q.day
}

/// The event falls in the ISO week (Monday to Sunday) that holds `q`.
pub open spec fn same_week(e: Event, q: CivilDate) -> bool {
    week_start(e.date.date) == week_start(q)
}

/// The event falls, in UTC, in the year and month of `q`.
pub open spec fn same_month(e: Event, q: CivilDate) -> bool {
    e.date.date.year == q.year && e.date.date.month == q.month
}

pub open spec fn in_period(e: Event, q: CivilDate, p: Period) -> bool {
    match p {
        Period::Day => same_day(e, q),
        Period::Week => same_week(e, q),
        Period::Month => same_month(e, q),
    }
}

/// The events of `s` that fall in the period `p` around `q`, in stored order.
pub open spec fn select(s: Seq<Event>, q: CivilDate, p: Period) -> Seq<Event> {
    s.filter(|e: Event| in_period(e, q, p))
}

/// Why a store operation was refused.
#[derive(Clone, Copy, Debug, PartialEq, Eq, Structural)]
pub enum StoreError {
    /// An event with the same date and name is already stored.
    Conflict,
    /// No event with the given date and name is stored.
    NotFound,
}

impl Event {
    /// A copy equal to `self`.
    pub fn duplicate(&self) -> (r: Event)
        ensures
            r == *self,
    {
        Event { date: self.date.duplicate(), name: self.name.clone() }
    }

    /// Whether this event carries the given date and name.
    pub fn has_key(&self, date: &UtcDateTime, name: &String) -> (r: bool)
        ensures
            r == (key_of(*self) == key_from(*date, name@)),
    {
        self.date.same_instant(date) && self.name == *name
    }

    /// Whether this event falls in the period `p` around `q`.
    pub fn in_period(&self, q: &CivilDate, p: Period) -> (r: bool)
        ensures
            r == in_period(*self, *q, p),
    {
        let d = &self.date.date;
        match p {
            Period::Day => d.year == q.year && d.month == q.month && d.day == q.day,
            Period::Week => week_start_of(d) == week_start_of(q),
            Period::Month => d.year == q.year && d.month == q.month,
        }
    }
}

/// The shared list of events, in the order in which they were added.
///
/// `create` never admits a second event with a date and name already
/// stored, so a store built by `create` and `delete` alone keeps its keys
/// unique (`unique_keys`). `update` does not look at the new key, so it may
/// bring two equal keys together; lookups then find the first of them.
pub struct EventStore {
    events: Vec<Event>,
}

impl View for EventStore {
    type V = Seq<Event>;

    closed spec fn view(&self) -> Seq<Event> {
        self.events@
    }
}

impl EventStore {
    /// An empty store.
    pub fn new() -> (r: EventStore)
        ensures
            r@ == Seq::<Event>::empty(),
    {
        EventStore { events: Vec::new() }
    }

    /// How many events are stored.
    pub fn len(&self) -> (r: usize)
        ensures
            r == self@.len(),
    {
        self.events.len()
    }

    /// Copies of the stored events, in stored order.
    pub fn events(&self) -> (r: Vec<Event>)
        ensures
            r@ == self@,
    {
        let mut r: Vec<Event> = Vec::new();
        let mut i: usize = 0;
        while i < self.events.len()
            invariant
                i <= self@.len(),
                r@ == self@.subrange(0, i as int),
            decreases self@.len() - i,
        {
            r.push(self.events[i].duplicate());
            i = i + 1;
        }
        r
    }

    /// The position of the first event with the given date and name.
    pub fn find_index(&self, date: &UtcDateTime, name: &String) -> (r: Option<usize>)
        ensures
            match r {
                Some(i) => is_first_match(self@, key_from(*date, name@), i as int),
                None => !has_key(self@, key_from(*date, name@)),
            },
    {
        let ghost k = key_from(*date, name@);
        let mut i: usize = 0;
        while i < self.events.len()
            invariant
                i <= self@.len(),
                k == key_from(*date, name@),
                forall|j: int| 0 <= j < i ==> #[trigger] key_of(self@[j]) != k,
            decreases self@.len() - i,
        {
            if self.events[i].has_key(date, name) {
                return Some(i);
            }
            i = i + 1;
        }
        None
    }

    /// Adds `event` at the end, unless an event with the same date and name
    /// is already stored.
    pub fn create(&mut self, event: Event) -> (r: Result<(), StoreError>)
        ensures
            has_key(old(self)@, key_of(event)) ==> r == Err::<(), StoreError>(StoreError::Conflict)
                && final(self)@ == old(self)@,
            !has_key(old(self)@, key_of(event)) ==> r == Ok::<(), StoreError>(())
                && final(self)@ == old(self)@.push(event),
            final(self)@ == after_create(old(self)@, event),
            unique_keys(old(self)@) ==> unique_keys(final(self)@),
    {
        match self.find_index(&event.date, &event.name) {
            Some(_) => Err(StoreError::Conflict),
            None => {
                proof {
                    lemma_push_keeps_unique(self@, event);
                }
                self.events.push(event);
                Ok(())
            },
        }
    }

    /// Rewrites the date and name of the first event with the given date and
    /// name, in place.
    pub fn update(&mut self, date: &UtcDateTime, name: &String, new_date: UtcDateTime, new_name: String)
        -> (r: Result<(), StoreError>)
        ensures
            match r {
                Ok(()) => exists|i: int|
                    is_first_match(old(self)@, key_from(*date, name@), i)
                        && final(self)@ == old(self)@.update(i, Event { date: new_date, name: new_name }),
                Err(e) => e == StoreError::NotFound && !has_key(old(self)@, key_from(*date, name@))
                    && final(self)@ == old(self)@,
            },
    {
        match self.find_index(date, name) {
            Some(i) => {
                self.events.set(i, Event { date: new_date, name: new_name });
                Ok(())
            },
            None => Err(StoreError::NotFound),
        }
    }

    /// Removes the first event with the given date and name, keeping the
    /// order of the others, and hands it back.
    pub fn delete(&mut self, date: &UtcDateTime, name: &String) -> (r: Result<Event, StoreError>)
        ensures
            match r {
                Ok(e) => exists|i: int|
                    is_first_match(old(self)@, key_from(*date, name@), i) && e == old(self)@[i]
                        && final(self)@ == old(self)@.remove(i),
                Err(e) => e == StoreError::NotFound && !has_key(old(self)@, key_from(*date, name@))
                    && final(self)@ == old(self)@,
            },
            unique_keys(old(self)@) ==> unique_keys(final(self)@),
    {
        match self.find_index(date, name) {
            Some(i) => {
                proof {
                    lemma_remove_keeps_unique(self@, i as int);
                }
                Ok(self.events.remove(i))
            },
            None => Err(StoreError::NotFound),
        }
    }

    /// Copies of the events that fall in the period `p` around `q`, in
    /// stored order.
    pub fn query(&self, q: &CivilDate, p: Period) -> (r: Vec<Event>)
        ensures
            r@ == select(self@, *q, p),
    {
        let ghost pred = |e: Event| in_period(e, *q, p);
        let mut r: Vec<Event> = Vec::new();
        let mut i: usize = 0;
        while i < self.events.len()
            invariant
                i <= self@.len(),
                pred == (|e: Event| in_period(e, *q, p)),
                r@ == self@.subrange(0, i as int).filter(pred),
            decreases self@.len() - i,
        {
            let ghost next = self@.subrange(0, i + 1);
            proof {
                reveal(Seq::filter);
            }
            assert(next.drop_last() == self@.subrange(0, i as int));
            assert(next.last() == self@[i as int]);
            assert(pred(self@[i as int]) == in_period(self@[i as int], *q, p));
            if self.events[i].in_period(q, p) {
                r.push(self.events[i].duplicate());
                assert(next.filter(pred) == self@.subrange(0, i as int).filter(pred).push(self@[i as int]));
            } else {
                assert(next.filter(pred) == self@.subrange(0, i as int).filter(pred));
            }
            i = i + 1;
        }
        assert(self@.subrange(0, self@.len() as int) == self@);
        r
    }

    /// The events that fall, in UTC, on the calendar day `q`.
    pub fn events_for_day(&self, q: &CivilDate) -> (r: Vec<Event>)
        ensures
            r@ == select(self@, *q, Period::Day),
    {
        self.query(q, Period::Day)
    }

    /// The events that fall in the ISO week (Monday to Sunday) holding `q`.
    pub fn events_for_week(&self, q: &CivilDate) -> (r: Vec<Event>)
        ensures
            r@ == select(self@, *q, Period::Week),
    {
        self.query(q, Period::Week)
    }

    /// The events that fall, in UTC, in the year and month of `q`.
    pub fn events_for_month(&self, q: &CivilDate) -> (r: Vec<Event>)
        ensures
            r@ == select(self@, *q, Period::Month),
    {
        self.query(q, Period::Month)
    }
}

/// Removing an event keeps the keys unique.
pub proof fn lemma_remove_keeps_unique(s: Seq<Event>, i: int)
    requires
        0 <= i < s.len(),
    ensures
        unique_keys(s) ==> unique_keys(s.remove(i)),
{
    let t = s.remove(i);
    if unique_keys(s) {
        assert forall|x: int, y: int|
            0 <= x < t.len() && 0 <= y < t.len() && x != y implies #[trigger] key_of(t[x]) != #[trigger] key_of(t[y]) by {
            let sx = if x < i { x } else { x + 1 };
            let sy = if y < i { y } else { y + 1 };
            assert(t[x] == s[sx] && t[y] == s[sy]);
        }
    }
}

/// Appending an event whose key is absent keeps the keys unique.
proof fn lemma_push_keeps_unique(s: Seq<Event>, e: Event)
    requires
        !has_key(s, key_of(e)),
    ensures
        unique_keys(s) ==> unique_keys(s.push(e)),
{
    let t = s.push(e);
    if unique_keys(s) {
        assert forall|i: int, j: int|
            0 <= i < t.len() && 0 <= j < t.len() && i != j implies #[trigger] key_of(t[i]) != #[trigger] key_of(t[j]) by {
            if i < s.len() && j < s.len() {
                assert(t[i] == s[i] && t[j] == s[j]);
            } else if i < s.len() {
                assert(t[i] == s[i]);
            } else {
                assert(t[j] == s[j]);
            }
        }
    }
}

} // verus!
