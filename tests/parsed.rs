use event_calendar::datetime::{week_start_of, CivilDate, UtcDateTime};
use event_calendar::service::{
    create_at, delete_at, update_at, ReplyBody, STATUS_BAD_REQUEST, STATUS_CREATED, STATUS_OK,
    STATUS_SERVICE_UNAVAILABLE,
};
use event_calendar::store::{Event, EventStore, Period};

fn day(year: i32, month: u32, day: u32, days_from_ce: i32, weekday: u32) -> CivilDate {
    CivilDate { year, month, day, days_from_ce, weekday }
}

fn at(date: CivilDate, secs_of_day: u32, text: &str) -> UtcDateTime {
    UtcDateTime { date, secs_of_day, nanosecond: 0, text: text.to_string() }
}

// 2024-03-04 is a Monday, day 738949 counted from 0001-01-01.
fn monday() -> CivilDate {
    day(2024, 3, 4, 738949, 0)
}

fn sunday() -> CivilDate {
    day(2024, 3, 10, 738955, 6)
}

fn next_monday() -> CivilDate {
    day(2024, 3, 11, 738956, 0)
}

#[test]
fn week_start_is_the_monday() {
    assert_eq!(week_start_of(&monday()), 738949);
    assert_eq!(week_start_of(&sunday()), 738949);
    assert_eq!(week_start_of(&next_monday()), 738956);
}

#[test]
fn create_at_given_values() {
    let mut s = EventStore::new();
    let r = create_at(&mut s, at(monday(), 36000, "M"), "a");
    assert_eq!(r.status, STATUS_CREATED);
    match &r.body {
        ReplyBody::Done(t) => assert_eq!(t, "Added event: 'a' for date M"),
        other => panic!("{:?}", other),
    }
    let again = create_at(&mut s, at(monday(), 36000, "other text"), "a");
    assert_eq!(again.status, STATUS_SERVICE_UNAVAILABLE);
    let later = create_at(&mut s, at(monday(), 36001, "M+1"), "a");
    assert_eq!(later.status, STATUS_CREATED);
    assert_eq!(s.len(), 2);
}

#[test]
fn periods_on_given_values() {
    let mut s = EventStore::new();
    s.create(Event { date: at(monday(), 36000, "m"), name: "m".to_string() }).unwrap();
    s.create(Event { date: at(sunday(), 36000, "s"), name: "s".to_string() }).unwrap();
    s.create(Event { date: at(next_monday(), 0, "n"), name: "n".to_string() }).unwrap();
    let names = |v: Vec<Event>| v.into_iter().map(|e| e.name).collect::<Vec<String>>();
    assert_eq!(names(s.events_for_week(&monday())), vec!["m", "s"]);
    assert_eq!(names(s.events_for_day(&monday())), vec!["m"]);
    assert_eq!(names(s.events_for_month(&day(2024, 3, 1, 738946, 4))), vec!["m", "s", "n"]);
    assert_eq!(names(s.query(&next_monday(), Period::Week)), vec!["n"]);
}

#[test]
fn update_at_given_values() {
    let mut s = EventStore::new();
    create_at(&mut s, at(monday(), 36000, "M"), "a");
    let missing = update_at(&mut s, &at(monday(), 36000, "M"), "t0", "b", Ok(at(sunday(), 0, "S")), "t1", "c");
    assert_eq!(missing.status, STATUS_SERVICE_UNAVAILABLE);
    let bad = update_at(&mut s, &at(monday(), 36000, "M"), "t0", "a", Err("bad".to_string()), "t1", "c");
    assert_eq!(bad.status, STATUS_BAD_REQUEST);
    match &bad.body {
        ReplyBody::Failed(t) => assert_eq!(t, "bad"),
        other => panic!("{:?}", other),
    }
    let ok = update_at(&mut s, &at(monday(), 36000, "M"), "t0", "a", Ok(at(sunday(), 0, "S")), "t1", "c");
    assert_eq!(ok.status, STATUS_OK);
    match &ok.body {
        ReplyBody::Done(t) => assert_eq!(t, "Update event: 'a' for date t0, on event: 'c' for date t1"),
        other => panic!("{:?}", other),
    }
    let all = s.events();
    assert_eq!(all.len(), 1);
    assert_eq!(all[0].name, "c");
    assert_eq!(all[0].date.date, sunday());
}

#[test]
fn delete_at_given_values() {
    let mut s = EventStore::new();
    create_at(&mut s, at(monday(), 36000, "M"), "a");
    let r = delete_at(&mut s, &at(monday(), 36000, "M"), "a");
    assert_eq!(r.status, STATUS_OK);
    match &r.body {
        ReplyBody::Done(t) => assert_eq!(t, "Removed event: 'a' for date M"),
        other => panic!("{:?}", other),
    }
    assert_eq!(s.len(), 0);
    assert_eq!(delete_at(&mut s, &at(monday(), 36000, "M"), "a").status, STATUS_SERVICE_UNAVAILABLE);
}
