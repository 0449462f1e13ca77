use jjamcore::clock::{Date, Stamp, TimeOfDay, Weekday};
use jjamcore::menu::MenuRow;
use jjamcore::reservation::{Reservation, ReservationKind, ReservationStore};
use jjamcore::rotation::OrderRotationTracker;
use jjamcore::schedule::{
    millis_to_next_minute, sync_sleep_minutes, ReminderScheduler,
};
use jjamcore::snapshot::{SnapshotGeneration, SnapshotStore};

fn at(weekday_date: Date, hour: u8, minute: u8) -> Stamp {
    Stamp { date: weekday_date, time: TimeOfDay { hour, minute } }
}

// 2024-03-04 was a Monday, 2024-03-09 a Saturday, 2024-03-10 a Sunday.
fn monday() -> Date {
    Date { year: 2024, month: 3, day: 4 }
}

fn saturday() -> Date {
    Date { year: 2024, month: 3, day: 9 }
}

fn sunday() -> Date {
    Date { year: 2024, month: 3, day: 10 }
}

fn menu_row(date: &str) -> MenuRow {
    MenuRow {
        dates: date.to_string(),
        brst: "밥".to_string(),
        brst_cal: "300".to_string(),
        lunc: "국수".to_string(),
        lunc_cal: "500".to_string(),
        dinr: "전".to_string(),
        dinr_cal: "400".to_string(),
        adspcfd: String::new(),
        adspcfd_cal: String::new(),
        sum_cal: "2900".to_string(),
    }
}

fn fresh_scheduler(menu: Vec<MenuRow>) -> ReminderScheduler {
    let tracker = OrderRotationTracker::load(Vec::new(), at(monday(), 0, 0));
    ReminderScheduler::new(tracker, menu)
}

fn store_of(entries: Vec<(i64, ReservationKind, u8, u8)>) -> ReservationStore {
    let mut store = ReservationStore::new();
    for (id, kind, hour, minute) in entries {
        store.upsert(id, kind, TimeOfDay { hour, minute });
    }
    store
}

#[test]
fn monday_noon_advances_floor_zero_and_lunchorder_sees_the_new_label() {
    let mut sched = fresh_scheduler(vec![menu_row("2024-03-04")]);
    let reservations = store_of(vec![(77, ReservationKind::LunchOrder, 12, 0)]);
    let out = sched.tick(at(monday(), 12, 0), Weekday::Mon, &reservations, &SnapshotStore::new());
    assert!(!out.fault);
    // floor 0 advanced from 0 to 1; floor 1 untouched
    assert_eq!(sched.tracker.current_index(0), 1);
    assert_eq!(sched.tracker.current_index(1), 0);
    // the reminder resolves against the post-advance floor-0 label
    assert_eq!(out.dispatches.len(), 1);
    assert_eq!(out.dispatches[0].subscriber, 77);
    assert_eq!(out.dispatches[0].text, "식사순서: 2-본-1");
}

#[test]
fn sunday_noon_advances_floor_one_not_floor_zero() {
    let mut sched = fresh_scheduler(vec![menu_row("2024-03-10")]);
    let reservations = store_of(vec![(5, ReservationKind::LunchOrder, 12, 0)]);
    let out = sched.tick(at(sunday(), 12, 0), Weekday::Sun, &reservations, &SnapshotStore::new());
    assert!(!out.fault);
    assert_eq!(sched.tracker.current_index(0), 0);
    assert_eq!(sched.tracker.current_index(1), 1);
    // on Sunday the lunch-order reminder resolves against floor 1
    assert_eq!(out.dispatches.len(), 1);
    assert_eq!(out.dispatches[0].text, "식사순서: 2-본-1");
}

#[test]
fn saturday_suppresses_lunch_and_lunchorder() {
    let mut sched = fresh_scheduler(Vec::new());
    let reservations = store_of(vec![
        (1, ReservationKind::Lunch, 11, 30),
        (2, ReservationKind::LunchOrder, 11, 30),
    ]);
    let out = sched.tick(
        at(saturday(), 11, 30),
        Weekday::Sat,
        &reservations,
        &SnapshotStore::new(),
    );
    // no dispatch and no fault, even though the cached menu is empty
    assert!(!out.fault);
    assert!(out.dispatches.is_empty());
}

#[test]
fn weekday_lunch_reminder_formats_the_cached_menu() {
    let mut sched = fresh_scheduler(vec![menu_row("2024-03-04")]);
    let reservations = store_of(vec![(9, ReservationKind::Lunch, 11, 0)]);
    let out = sched.tick(at(monday(), 11, 0), Weekday::Mon, &reservations, &SnapshotStore::new());
    assert!(!out.fault);
    assert_eq!(out.dispatches.len(), 1);
    assert_eq!(out.dispatches[0].text, "<b>점심 메뉴</b> [2900kcal]\n\n국수 [500kcal]");
}

#[test]
fn meal_reminder_with_an_empty_cache_is_the_fatal_fault() {
    let mut sched = fresh_scheduler(Vec::new());
    let reservations = store_of(vec![(3, ReservationKind::Dinner, 17, 0)]);
    let out = sched.tick(at(monday(), 17, 0), Weekday::Mon, &reservations, &SnapshotStore::new());
    assert!(out.fault);
    assert!(out.dispatches.is_empty());
}

#[test]
fn midnight_refreshes_the_cached_menu() {
    let mut sched = fresh_scheduler(Vec::new());
    let snapshot = SnapshotStore {
        current: Some(SnapshotGeneration {
            date: Date { year: 2024, month: 3, day: 4 },
            rows: vec![menu_row("2024-03-04")],
        }),
        previous: None,
    };
    let reservations = store_of(vec![(4, ReservationKind::Breakfast, 0, 0)]);
    let out = sched.tick(at(monday(), 0, 0), Weekday::Mon, &reservations, &snapshot);
    // the refresh happens before messages are computed, so the reminder
    // already formats today's menu
    assert!(!out.fault);
    assert_eq!(out.dispatches.len(), 1);
    assert_eq!(out.dispatches[0].text, "<b>아침 메뉴</b> [2900kcal]\n\n밥 [300kcal]");
    assert_eq!(sched.cached_menu.len(), 1);
}

#[test]
fn order_kinds_other_than_lunchorder_use_floor_one() {
    let mut sched = fresh_scheduler(Vec::new());
    // 18:00 advances floor 1 every day; the due order reminders then see it
    let reservations = store_of(vec![
        (1, ReservationKind::BreakfastOrder, 18, 0),
        (2, ReservationKind::DinnerOrder, 18, 0),
        (3, ReservationKind::NextBreakfastOrder, 18, 0),
    ]);
    let out = sched.tick(at(monday(), 18, 0), Weekday::Mon, &reservations, &SnapshotStore::new());
    assert!(!out.fault);
    assert_eq!(out.dispatches.len(), 3);
    for d in &out.dispatches {
        assert_eq!(d.text, "식사순서: 2-본-1");
    }
}

#[test]
fn bare_brunch_kinds_dispatch_nothing() {
    let mut sched = fresh_scheduler(Vec::new());
    let reservations = store_of(vec![
        (1, ReservationKind::Brunch, 10, 0),
        (2, ReservationKind::SundayBreakfast, 10, 0),
    ]);
    let out = sched.tick(at(monday(), 10, 0), Weekday::Mon, &reservations, &SnapshotStore::new());
    assert!(!out.fault);
    assert!(out.dispatches.is_empty());
}

#[test]
fn only_due_reservations_are_considered() {
    let mut sched = fresh_scheduler(vec![menu_row("2024-03-04")]);
    let reservations = store_of(vec![
        (1, ReservationKind::Dinner, 17, 0),
        (2, ReservationKind::Dinner, 17, 30),
    ]);
    let out = sched.tick(at(monday(), 17, 30), Weekday::Mon, &reservations, &SnapshotStore::new());
    assert_eq!(out.dispatches.len(), 1);
    assert_eq!(out.dispatches[0].subscriber, 2);
}

#[test]
fn eight_oclock_advance_is_weekdays_only() {
    // Monday 08:00 advances floor 1
    let mut sched = fresh_scheduler(Vec::new());
    sched.tick(at(monday(), 8, 0), Weekday::Mon, &ReservationStore::new(), &SnapshotStore::new());
    assert_eq!(sched.tracker.current_index(1), 1);
    assert_eq!(sched.tracker.current_index(0), 0);
    // Sunday 08:00 advances nothing
    let mut sched2 = fresh_scheduler(Vec::new());
    sched2.tick(at(sunday(), 8, 0), Weekday::Sun, &ReservationStore::new(), &SnapshotStore::new());
    assert_eq!(sched2.tracker.current_index(0), 0);
    assert_eq!(sched2.tracker.current_index(1), 0);
}

#[test]
fn saturday_eleven_advances_floor_one() {
    let mut sched = fresh_scheduler(Vec::new());
    sched.tick(
        at(saturday(), 11, 0),
        Weekday::Sat,
        &ReservationStore::new(),
        &SnapshotStore::new(),
    );
    assert_eq!(sched.tracker.current_index(1), 1);
    assert_eq!(sched.tracker.current_index(0), 0);
    // Wednesday 11:00 is not a trigger
    let mut sched2 = fresh_scheduler(Vec::new());
    sched2.tick(at(monday(), 11, 0), Weekday::Wed, &ReservationStore::new(), &SnapshotStore::new());
    assert_eq!(sched2.tracker.current_index(1), 0);
}

#[test]
fn tick_sleep_is_always_positive() {
    assert_eq!(millis_to_next_minute(0, 0), 60000);
    assert_eq!(millis_to_next_minute(59, 999), 1);
    assert_eq!(millis_to_next_minute(12, 500), 47500);
}

#[test]
fn pass_sleep_targets_three_am_plus_offset() {
    // at minute 0 of a day: a full day to 03:00 plus the offset
    assert_eq!(sync_sleep_minutes(0), 1440 + 360);
    // just before midnight
    assert_eq!(sync_sleep_minutes(1439), 1 + 360);
}
