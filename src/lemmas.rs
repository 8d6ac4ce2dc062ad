//! What holds of the store across several operations.
use crate::datetime::{week_start, CivilDate};
use vstd::arithmetic::div_mod::{
    lemma_div_is_ordered, lemma_fundamental_div_mod, lemma_fundamental_div_mod_converse_div,
};
use crate::store::{
    after_create, create_each, lemma_remove_keeps_unique, has_key, in_period, is_first_match, key_of, select, unique_keys,
    Event, EventKey, Period,
};
use vstd::prelude::*;

verus! {

/// A query never returns a key that the store does not hold.
pub proof fn lemma_select_keys(s: Seq<Event>, q: CivilDate, p: Period, k: EventKey)
    ensures
        has_key(select(s, q, p), k) ==> has_key(s, k),
    decreases s.len(),
{
    let pred = |e: Event| in_period(e, q, p);
    reveal(Seq::filter);
    if s.len() > 0 && has_key(select(s, q, p), k) {
        let init = s.drop_last();
        lemma_select_keys(init, q, p, k);
        let out = s.filter(pred);
        let sub = init.filter(pred);
        let j = choose|j: int| 0 <= j < out.len() && #[trigger] key_of(out[j]) == k;
        if pred(s.last()) && j == sub.len() {
            assert(key_of(s[s.len() - 1]) == k);
        } else {
            assert(out[j] == sub[j]);
            assert(has_key(sub, k));
            let i = choose|i: int| 0 <= i < init.len() && #[trigger] key_of(init[i]) == k;
            assert(s[i] == init[i]);
        }
    }
}

/// An event that falls in the period around its own date is returned by the
/// query on that date.
proof fn lemma_select_own(s: Seq<Event>, i: int, p: Period)
    requires
        0 <= i < s.len(),
    ensures
        select(s, s[i].date.date, p).contains(s[i]),
{
    let pred = |e: Event| in_period(e, s[i].date.date, p);
    assert(pred(s[i]));
    s.lemma_filter_contains(pred, i);
}

/// Adding an event whose date and name are new grows the store by exactly
/// one; adding the same event a second time is then refused, as the key is
/// taken, and leaves the store as it is.
pub proof fn lemma_create_twice(s: Seq<Event>, e: Event)
    requires
        !has_key(s, key_of(e)),
    ensures
        after_create(s, e) == s.push(e),
        after_create(s, e).len() == s.len() + 1,
        has_key(after_create(s, e), key_of(e)),
        after_create(after_create(s, e), e) == after_create(s, e),
{
    assert(s.push(e)[s.len() as int] == e);
}

/// Once the first event keyed `a` is rewritten as `b`, with another key, and
/// keys were unique, the day, week and month queries on `b`'s date return
/// `b`, and no query returns an event keyed `a`.
pub proof fn lemma_update_round_trip(s: Seq<Event>, a: EventKey, i: int, b: Event, q: CivilDate, p: Period)
    requires
        unique_keys(s),
        is_first_match(s, a, i),
        key_of(b) != a,
    ensures
        select(s.update(i, b), b.date.date, Period::Day).contains(b),
        select(s.update(i, b), b.date.date, Period::Week).contains(b),
        select(s.update(i, b), b.date.date, Period::Month).contains(b),
        !has_key(s.update(i, b), a),
        !has_key(select(s.update(i, b), q, p), a),
{
    let t = s.update(i, b);
    assert(t[i] == b);
    lemma_select_own(t, i, Period::Day);
    lemma_select_own(t, i, Period::Week);
    lemma_select_own(t, i, Period::Month);
    assert forall|j: int| 0 <= j < t.len() implies #[trigger] key_of(t[j]) != a by {
        if j != i {
            assert(t[j] == s[j]);
        }
    }
    lemma_select_keys(t, q, p, a);
}

/// Removing the first event keyed `k` from a store with unique keys shrinks
/// it by exactly one and leaves no event keyed `k`, so a second removal of
/// `k` finds nothing.
pub proof fn lemma_delete_once(s: Seq<Event>, k: EventKey, i: int)
    requires
        unique_keys(s),
        is_first_match(s, k, i),
    ensures
        s.remove(i).len() == s.len() - 1,
        !has_key(s.remove(i), k),
        unique_keys(s.remove(i)),
{
    let t = s.remove(i);
    assert forall|j: int| 0 <= j < t.len() implies #[trigger] key_of(t[j]) != k by {
        if j < i {
            assert(t[j] == s[j]);
        } else {
            assert(t[j] == s[j + 1]);
        }
    }
    lemma_remove_keeps_unique(s, i);
}

/// Adding events with pairwise distinct new keys one after the other, in
/// any order, loses none and adds none twice: each addition finds its key
/// free and succeeds, and the store ends as the old events followed by the
/// new ones.
pub proof fn lemma_create_distinct(s: Seq<Event>, es: Seq<Event>)
    requires
        unique_keys(s + es),
    ensures
        create_each(s, es) == s + es,
        create_each(s, es).len() == s.len() + es.len(),
        forall|k: int| 0 <= k < es.len() ==> !has_key(#[trigger] create_each(s, es.take(k)), key_of(es[k])),
    decreases es.len(),
{
    if es.len() > 0 {
        let init = es.drop_last();
        let e = es.last();
        let u = s + es;
        assert(s + init == u.drop_last());
        assert forall|x: int, y: int|
            0 <= x < (s + init).len() && 0 <= y < (s + init).len() && x != y implies
            #[trigger] key_of((s + init)[x]) != #[trigger] key_of((s + init)[y]) by {
            assert((s + init)[x] == u[x] && (s + init)[y] == u[y]);
        }
        lemma_create_distinct(s, init);
        assert forall|j: int| 0 <= j < (s + init).len() implies #[trigger] key_of((s + init)[j]) != key_of(e) by {
            assert((s + init)[j] == u[j]);
            assert(u[u.len() - 1] == e);
        }
        assert((s + init).push(e) == u);
        assert forall|k: int| 0 <= k < es.len() implies !has_key(#[trigger] create_each(s, es.take(k)), key_of(es[k])) by {
            if k < init.len() {
                assert(es.take(k) == init.take(k));
                assert(es[k] == init[k]);
            } else {
                assert(es.take(k) == init);
            }
        }
    }
}

/// The week start of a well-formed day, written with the day's week index.
proof fn lemma_week_start_form(d: CivilDate)
    requires
        d.wf(),
    ensures
        week_start(d) == 7 * ((d.days_from_ce - 1) / 7) + 1,
        0 <= d.weekday < 7,
{
    lemma_fundamental_div_mod(d.days_from_ce - 1, 7);
}

/// The week of a day starts on a Monday, at most six days before it.
pub proof fn lemma_week_start_is_monday(d: CivilDate)
    requires
        d.wf(),
    ensures
        (week_start(d) - 1) % 7 == 0,
        d.days_from_ce - 6 <= week_start(d) <= d.days_from_ce,
{
    lemma_week_start_form(d);
    let k = (d.days_from_ce - 1) / 7;
    lemma_fundamental_div_mod_converse_div(week_start(d) - 1, 7, k, 0);
    lemma_fundamental_div_mod(week_start(d) - 1, 7);
}

/// Two days share a week exactly when the first lies between the Monday
/// that starts the second's week and the Sunday after it.
pub proof fn lemma_same_week_range(e: CivilDate, q: CivilDate)
    requires
        e.wf(),
        q.wf(),
    ensures
        (week_start(e) == week_start(q))
            <==> (week_start(q) <= e.days_from_ce < week_start(q) + 7),
{
    lemma_week_start_form(e);
    lemma_week_start_form(q);
    let kq = (q.days_from_ce - 1) / 7;
    if week_start(q) <= e.days_from_ce < week_start(q) + 7 {
        let r = e.days_from_ce - 1 - 7 * kq;
        lemma_fundamental_div_mod_converse_div(e.days_from_ce - 1, 7, kq, r);
    }
}

/// A later day never has an earlier week start.
pub proof fn lemma_week_start_monotone(a: CivilDate, b: CivilDate)
    requires
        a.wf(),
        b.wf(),
        a.days_from_ce <= b.days_from_ce,
    ensures
        week_start(a) <= week_start(b),
{
    lemma_week_start_form(a);
    lemma_week_start_form(b);
    lemma_div_is_ordered(a.days_from_ce - 1, b.days_from_ce - 1, 7);
}

/// The day seven days later has its week start seven days later.
pub proof fn lemma_week_start_shift(a: CivilDate, b: CivilDate)
    requires
        a.wf(),
        b.wf(),
        b.days_from_ce == a.days_from_ce + 7,
    ensures
        week_start(b) == week_start(a) + 7,
{
    lemma_week_start_form(a);
    lemma_week_start_form(b);
    let x = a.days_from_ce - 1;
    lemma_fundamental_div_mod(x, 7);
    lemma_fundamental_div_mod_converse_div(x + 7, 7, x / 7 + 1, x % 7);
}

/// Two well-formed dates on the same calendar day share their week.
pub proof fn lemma_same_day_same_week(e: CivilDate, q: CivilDate)
    requires
        e.wf(),
        q.wf(),
        e.year == q.year && e.month == q.month && e.day == q.day,
    ensures
        week_start(e) == week_start(q),
{
}

/// Every stored event carries a well-formed date.
pub open spec fn dates_wf(s: Seq<Event>) -> bool {
    forall|i: int| 0 <= i < s.len() ==> (#[trigger] s[i]).date.date.wf()
}

/// Filters that agree on every element give the same result.
proof fn lemma_filter_same(s: Seq<Event>, p: spec_fn(Event) -> bool, p2: spec_fn(Event) -> bool)
    requires
        forall|i: int| 0 <= i < s.len() ==> p(#[trigger] s[i]) == p2(s[i]),
    ensures
        s.filter(p) == s.filter(p2),
    decreases s.len(),
{
    reveal(Seq::filter);
    if s.len() > 0 {
        let init = s.drop_last();
        assert forall|i: int| 0 <= i < init.len() implies p(#[trigger] init[i]) == p2(init[i]) by {
            assert(init[i] == s[i]);
        }
        lemma_filter_same(init, p, p2);
        assert(p(s[s.len() - 1]) == p2(s[s.len() - 1]));
    }
}

/// Filtering by `p` and then by a narrower `q` is filtering by `q`.
proof fn lemma_filter_narrow(s: Seq<Event>, p: spec_fn(Event) -> bool, q: spec_fn(Event) -> bool)
    requires
        forall|i: int| 0 <= i < s.len() && q(#[trigger] s[i]) ==> p(s[i]),
    ensures
        s.filter(p).filter(q) == s.filter(q),
    decreases s.len(),
{
    reveal(Seq::filter);
    if s.len() > 0 {
        let init = s.drop_last();
        let last = s[s.len() - 1];
        assert forall|i: int| 0 <= i < init.len() && q(#[trigger] init[i]) implies p(init[i]) by {
            assert(init[i] == s[i]);
        }
        lemma_filter_narrow(init, p, q);
        if p(last) {
            let fp = init.filter(p).push(last);
            assert(fp.drop_last() == init.filter(p));
            assert(fp.last() == last);
        }
    }
}

/// The week query on `q` returns exactly the events dated from the Monday
/// that starts `q`'s week to the Sunday after it, in stored order.
pub proof fn lemma_week_query_range(s: Seq<Event>, q: CivilDate)
    requires
        dates_wf(s),
        q.wf(),
    ensures
        select(s, q, Period::Week) == s.filter(
            |e: Event| week_start(q) <= e.date.date.days_from_ce < week_start(q) + 7,
        ),
{
    let p = |e: Event| in_period(e, q, Period::Week);
    let p2 = |e: Event| week_start(q) <= e.date.date.days_from_ce < week_start(q) + 7;
    assert forall|i: int| 0 <= i < s.len() implies p(#[trigger] s[i]) == p2(s[i]) by {
        lemma_same_week_range(s[i].date.date, q);
    }
    lemma_filter_same(s, p, p2);
}

/// What the day query on `q` returns is what the day query returns from the
/// results of the week query, and from those of the month query, on `q`:
/// an event of that day is an event of its week and of its month.
pub proof fn lemma_day_within_week_and_month(s: Seq<Event>, q: CivilDate)
    requires
        dates_wf(s),
        q.wf(),
    ensures
        select(select(s, q, Period::Week), q, Period::Day) == select(s, q, Period::Day),
        select(select(s, q, Period::Month), q, Period::Day) == select(s, q, Period::Day),
{
    let day = |e: Event| in_period(e, q, Period::Day);
    let week = |e: Event| in_period(e, q, Period::Week);
    let month = |e: Event| in_period(e, q, Period::Month);
    assert forall|i: int| 0 <= i < s.len() && day(#[trigger] s[i]) implies week(s[i]) by {
        lemma_same_day_same_week(s[i].date.date, q);
    }
    lemma_filter_narrow(s, week, day);
    lemma_filter_narrow(s, month, day);
}

} // verus!
