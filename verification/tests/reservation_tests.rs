use jjamcore::clock::TimeOfDay;
use jjamcore::reservation::{kind_label, parse_kind, Reservation, ReservationKind, ReservationStore};

const ALL_KINDS: [ReservationKind; 12] = [
    ReservationKind::Breakfast,
    ReservationKind::BreakfastOrder,
    ReservationKind::NextBreakfast,
    ReservationKind::NextBreakfastOrder,
    ReservationKind::Lunch,
    ReservationKind::LunchOrder,
    ReservationKind::Dinner,
    ReservationKind::DinnerOrder,
    ReservationKind::Brunch,
    ReservationKind::BrunchOrder,
    ReservationKind::SundayBreakfast,
    ReservationKind::SundayBreakfastOrder,
];

#[test]
fn every_schema_label_round_trips() {
    for kind in ALL_KINDS {
        assert_eq!(parse_kind(kind_label(kind)), Some(kind));
    }
    assert_eq!(kind_label(ReservationKind::LunchOrder), "lunchorder");
    assert_eq!(parse_kind("supper"), None);
    assert_eq!(parse_kind(""), None);
}

#[test]
fn upsert_replaces_the_same_key() {
    let mut store = ReservationStore::new();
    store.upsert(7, ReservationKind::Lunch, TimeOfDay { hour: 11, minute: 0 });
    store.upsert(7, ReservationKind::Lunch, TimeOfDay { hour: 12, minute: 30 });
    assert_eq!(store.items.len(), 1);
    assert_eq!(store.items[0].time, TimeOfDay { hour: 12, minute: 30 });
}

#[test]
fn distinct_keys_coexist() {
    let mut store = ReservationStore::new();
    store.upsert(7, ReservationKind::Lunch, TimeOfDay { hour: 11, minute: 0 });
    store.upsert(7, ReservationKind::Dinner, TimeOfDay { hour: 17, minute: 0 });
    store.upsert(8, ReservationKind::Lunch, TimeOfDay { hour: 11, minute: 0 });
    assert_eq!(store.items.len(), 3);
}

#[test]
fn delete_removes_exactly_the_key() {
    let mut store = ReservationStore::new();
    store.upsert(7, ReservationKind::Lunch, TimeOfDay { hour: 11, minute: 0 });
    store.upsert(8, ReservationKind::Lunch, TimeOfDay { hour: 11, minute: 0 });
    store.delete(7, ReservationKind::Lunch);
    assert_eq!(store.items.len(), 1);
    assert_eq!(store.items[0].subscriber, 8);
    // deleting an absent key changes nothing
    store.delete(7, ReservationKind::Lunch);
    assert_eq!(store.items.len(), 1);
}

#[test]
fn due_at_matches_the_exact_minute_in_store_order() {
    let mut store = ReservationStore::new();
    store.upsert(1, ReservationKind::Lunch, TimeOfDay { hour: 11, minute: 0 });
    store.upsert(2, ReservationKind::Dinner, TimeOfDay { hour: 17, minute: 0 });
    store.upsert(3, ReservationKind::LunchOrder, TimeOfDay { hour: 11, minute: 0 });
    let due = store.due_at(TimeOfDay { hour: 11, minute: 0 });
    assert_eq!(due.len(), 2);
    assert_eq!(due[0].subscriber, 1);
    assert_eq!(due[1].subscriber, 3);
    assert!(store.due_at(TimeOfDay { hour: 11, minute: 1 }).is_empty());
}

#[test]
fn from_entries_keeps_persisted_order() {
    let entries = vec![
        Reservation { subscriber: 1, kind: ReservationKind::Lunch, time: TimeOfDay { hour: 11, minute: 0 } },
        Reservation { subscriber: 2, kind: ReservationKind::Dinner, time: TimeOfDay { hour: 17, minute: 0 } },
    ];
    let store = ReservationStore::from_entries(entries.clone());
    assert_eq!(store.items.len(), 2);
    assert_eq!(store.items[0].subscriber, 1);
    assert_eq!(store.items[1].subscriber, 2);
}
