use jjamcore::clock::{Date, Stamp, TimeOfDay};
use jjamcore::rotation::{order_label, OrderRotationTracker, RotationEvent};

fn stamp() -> Stamp {
    Stamp {
        date: Date { year: 2024, month: 3, day: 4 },
        time: TimeOfDay { hour: 12, minute: 0 },
    }
}

#[test]
fn labels_in_fixed_order() {
    assert_eq!(order_label(0), "본-1-2");
    assert_eq!(order_label(1), "2-본-1");
    assert_eq!(order_label(2), "1-2-본");
}

#[test]
fn empty_log_bootstraps_both_floors() {
    let t = OrderRotationTracker::load(Vec::new(), stamp());
    assert_eq!(t.current_index(0), 0);
    assert_eq!(t.current_index(1), 0);
    // the defaults are themselves logged
    assert_eq!(t.log.len(), 2);
    assert_eq!(t.log[0].floor, 0);
    assert_eq!(t.log[0].index, 0);
    assert_eq!(t.log[1].floor, 1);
    assert_eq!(t.log[1].index, 0);
}

#[test]
fn load_takes_latest_event_per_floor() {
    let events = vec![
        RotationEvent { stamp: stamp(), floor: 0, index: 1 },
        RotationEvent { stamp: stamp(), floor: 1, index: 2 },
        RotationEvent { stamp: stamp(), floor: 0, index: 2 },
    ];
    let t = OrderRotationTracker::load(events, stamp());
    assert_eq!(t.current_index(0), 2);
    assert_eq!(t.current_index(1), 2);
    assert_eq!(t.log.len(), 3);
}

#[test]
fn advance_wraps_modulo_three() {
    let mut t = OrderRotationTracker::load(Vec::new(), stamp());
    assert_eq!(t.advance(0, 1, stamp()), 1);
    assert_eq!(t.advance(0, 1, stamp()), 2);
    assert_eq!(t.advance(0, 1, stamp()), 0);
    assert_eq!(t.current_index(0), 0);
    // the other floor is untouched
    assert_eq!(t.current_index(1), 0);
}

#[test]
fn advance_accepts_negative_and_large_deltas() {
    let mut t = OrderRotationTracker::load(Vec::new(), stamp());
    assert_eq!(t.advance(1, -1, stamp()), 2);
    assert_eq!(t.advance(1, -4, stamp()), 1);
    assert_eq!(t.advance(1, 1000000, stamp()), 2);
    assert_eq!(t.advance(1, i64::MIN, stamp()), 0);
    assert_eq!(t.advance(1, i64::MAX, stamp()), 1);
}

#[test]
fn delta_sequence_accumulates_to_sum_mod_three() {
    // deltas 2, 2, -3, 5 sum to 6, and 6 mod 3 == 0
    let mut t = OrderRotationTracker::load(Vec::new(), stamp());
    t.advance(0, 2, stamp());
    t.advance(0, 2, stamp());
    t.advance(0, -3, stamp());
    t.advance(0, 5, stamp());
    assert_eq!(t.current_index(0), 0);
    // deltas 1, 1, 1, 1 sum to 4, and 4 mod 3 == 1
    let mut u = OrderRotationTracker::load(Vec::new(), stamp());
    for _ in 0..4 {
        u.advance(1, 1, stamp());
    }
    assert_eq!(u.current_index(1), 1);
}

#[test]
fn advance_appends_to_the_log() {
    let mut t = OrderRotationTracker::load(Vec::new(), stamp());
    let before = t.log.len();
    let idx = t.advance(0, 2, stamp());
    assert_eq!(t.log.len(), before + 1);
    let last = t.log[t.log.len() - 1];
    assert_eq!(last.floor, 0);
    assert_eq!(last.index, idx);
    assert_eq!(t.current_label(0), "1-2-본");
}
