//! The minute-tick reminder scheduler: scheduled rotation advances, the
//! midnight refresh of the cached menu, and the computation of every message
//! dispatched for the reservations due at a tick.

use vstd::prelude::*;
use crate::clock::{TimeOfDay, Weekday, Stamp};
use crate::menu::{MenuRow, MealSlot, spec_menu_text, format_menu};
use crate::reservation::{Reservation, ReservationKind, ReservationStore, spec_due_at};
use crate::rotation::{OrderRotationTracker, RotationEvent, advance_index, spec_order_label,
    order_label};
use crate::snapshot::{SnapshotStore, spec_lookup};
use crate::clock::spec_iso_date;

verus! {

/// Monday through Friday.
pub open spec fn spec_is_monfri(w: Weekday) -> bool {
    w != Weekday::Sat && w != Weekday::Sun
}

pub fn is_monfri(w: Weekday) -> (r: bool)
    ensures
        r == spec_is_monfri(w),
{
    match w {
        Weekday::Sat => false,
        Weekday::Sun => false,
        _ => true,
    }
}

/// The scheduled advance for a tick: which floor, if any, advances by one at
/// this weekday and (truncated) time.
pub open spec fn spec_rotation_trigger(w: Weekday, t: TimeOfDay) -> Option<u8> {
    if t == (TimeOfDay { hour: 8, minute: 0 }) {
        if spec_is_monfri(w) {
            Some(1u8)
        } else {
            None
        }
    } else if t == (TimeOfDay { hour: 11, minute: 0 }) {
        if w == Weekday::Sat {
            Some(1u8)
        } else {
            None
        }
    } else if t == (TimeOfDay { hour: 12, minute: 0 }) {
        if spec_is_monfri(w) {
            Some(0u8)
        } else if w == Weekday::Sun {
            Some(1u8)
        } else {
            None
        }
    } else if t == (TimeOfDay { hour: 18, minute: 0 }) {
        Some(1u8)
    } else {
        None
    }
}

pub fn rotation_trigger(w: Weekday, t: TimeOfDay) -> (r: Option<u8>)
    ensures
        r == spec_rotation_trigger(w, t),
        r is Some ==> r->Some_0 < 2,
{
    if t.hour == 8 && t.minute == 0 {
        if is_monfri(w) {
            Some(1)
        } else {
            None
        }
    } else if t.hour == 11 && t.minute == 0 {
        if matches!(w, Weekday::Sat) {
            Some(1)
        } else {
            None
        }
    } else if t.hour == 12 && t.minute == 0 {
        if is_monfri(w) {
            Some(0)
        } else if matches!(w, Weekday::Sun) {
            Some(1)
        } else {
            None
        }
    } else if t.hour == 18 && t.minute == 0 {
        Some(1)
    } else {
        None
    }
}

/// A serving-order notice body.
pub open spec fn spec_order_message(idx: int) -> Seq<char> {
    "식사순서: "@ + spec_order_label(idx)
}

fn order_message(idx: u8) -> (r: String)
    requires
        idx < 3,
    ensures
        r@ == spec_order_message(idx as int),
{
    let mut s = String::from_str("식사순서: ");
    s.append(order_label(idx));
    s
}

/// What one due reservation yields at a tick (spec-level).
pub enum ReminderOutcome {
    /// Nothing is dispatched for this reservation.
    Skip,
    /// This message body is dispatched to the reservation's subscriber.
    Send(Seq<char>),
    /// A meal reminder found the cached menu empty: the scheduler's fatal
    /// internal fault.
    Fault,
}

/// A meal-kind reminder formats the cached menu; with an empty cache that is
/// the scheduler's fatal fault.
pub open spec fn spec_meal_outcome(menu: Seq<MenuRow>, title: Seq<char>, slot: MealSlot)
    -> ReminderOutcome {
    if menu.len() == 0 {
        ReminderOutcome::Fault
    } else {
        ReminderOutcome::Send(spec_menu_text(menu, title, slot))
    }
}

/// The message a due reservation of a kind yields, given the tick's weekday,
/// the (post-advance) rotation indexes, and the (post-refresh) cached menu.
/// Meal kinds format the cached menu; order kinds resolve against floor 1
/// except `lunchorder`, which resolves against floor 0 Monday–Friday; lunch
/// and lunch-order reminders are suppressed entirely on Saturday.
pub open spec fn spec_reservation_outcome(
    kind: ReservationKind,
    w: Weekday,
    idx0: int,
    idx1: int,
    menu: Seq<MenuRow>,
) -> ReminderOutcome {
    match kind {
        ReservationKind::Breakfast => spec_meal_outcome(menu, "아침 메뉴"@, MealSlot::Breakfast),
        ReservationKind::BreakfastOrder => ReminderOutcome::Send(spec_order_message(idx1)),
        ReservationKind::NextBreakfast => spec_meal_outcome(
            menu,
            "내일 아침 메뉴"@,
            MealSlot::Breakfast,
        ),
        ReservationKind::NextBreakfastOrder => ReminderOutcome::Send(spec_order_message(idx1)),
        ReservationKind::Lunch => if w == Weekday::Sat {
            ReminderOutcome::Skip
        } else {
            spec_meal_outcome(menu, "점심 메뉴"@, MealSlot::Lunch)
        },
        ReservationKind::LunchOrder => if w == Weekday::Sat {
            ReminderOutcome::Skip
        } else {
            ReminderOutcome::Send(
                spec_order_message(
                    if spec_is_monfri(w) {
                        idx0
                    } else {
                        idx1
                    },
                ),
            )
        },
        ReservationKind::Dinner => spec_meal_outcome(menu, "저녁 메뉴"@, MealSlot::Dinner),
        ReservationKind::DinnerOrder => ReminderOutcome::Send(spec_order_message(idx1)),
        ReservationKind::Brunch => ReminderOutcome::Skip,
        ReservationKind::BrunchOrder => ReminderOutcome::Send(spec_order_message(idx1)),
        ReservationKind::SundayBreakfast => ReminderOutcome::Skip,
        ReservationKind::SundayBreakfastOrder => ReminderOutcome::Send(spec_order_message(idx1)),
    }
}

/// The exec-level counterpart of [`ReminderOutcome`].
pub enum ComputedReminder {
    Skip,
    Send(String),
    Fault,
}

/// The exec outcome realizes the spec outcome.
pub open spec fn spec_matches_outcome(r: ComputedReminder, o: ReminderOutcome) -> bool {
    match (r, o) {
        (ComputedReminder::Skip, ReminderOutcome::Skip) => true,
        (ComputedReminder::Send(s), ReminderOutcome::Send(m)) => s@ == m,
        (ComputedReminder::Fault, ReminderOutcome::Fault) => true,
        _ => false,
    }
}

fn meal_message(menu: &Vec<MenuRow>, title: &str, slot: MealSlot) -> (r: ComputedReminder)
    ensures
        spec_matches_outcome(r, spec_meal_outcome(menu@, title@, slot)),
{
    match format_menu(menu, title, slot) {
        Some(s) => ComputedReminder::Send(s),
        None => ComputedReminder::Fault,
    }
}

/// Computes the message for one due reservation.
fn reservation_message(
    kind: ReservationKind,
    w: Weekday,
    idx0: u8,
    idx1: u8,
    menu: &Vec<MenuRow>,
) -> (r: ComputedReminder)
    requires
        idx0 < 3,
        idx1 < 3,
    ensures
        spec_matches_outcome(
            r,
            spec_reservation_outcome(kind, w, idx0 as int, idx1 as int, menu@),
        ),
{
    match kind {
        ReservationKind::Breakfast => meal_message(menu, "아침 메뉴", MealSlot::Breakfast),
        ReservationKind::BreakfastOrder => ComputedReminder::Send(order_message(idx1)),
        ReservationKind::NextBreakfast => meal_message(menu, "내일 아침 메뉴", MealSlot::Breakfast),
        ReservationKind::NextBreakfastOrder => ComputedReminder::Send(order_message(idx1)),
        ReservationKind::Lunch => if matches!(w, Weekday::Sat) {
            ComputedReminder::Skip
        } else {
            meal_message(menu, "점심 메뉴", MealSlot::Lunch)
        },
        ReservationKind::LunchOrder => if matches!(w, Weekday::Sat) {
            ComputedReminder::Skip
        } else {
            ComputedReminder::Send(
                order_message(
                    if is_monfri(w) {
                        idx0
                    } else {
                        idx1
                    },
                ),
            )
        },
        ReservationKind::Dinner => meal_message(menu, "저녁 메뉴", MealSlot::Dinner),
        ReservationKind::DinnerOrder => ComputedReminder::Send(order_message(idx1)),
        ReservationKind::Brunch => ComputedReminder::Skip,
        ReservationKind::BrunchOrder => ComputedReminder::Send(order_message(idx1)),
        ReservationKind::SundayBreakfast => ComputedReminder::Skip,
        ReservationKind::SundayBreakfastOrder => ComputedReminder::Send(order_message(idx1)),
    }
}

/// One computed delivery: the subscriber and the message body.
pub struct Dispatch {
    pub subscriber: i64,
    pub text: String,
}

/// What a whole tick dispatches for its due reservations, processed in store
/// order: the (subscriber, body) pairs sent before the first faulting
/// reservation, and whether one faulted.
pub open spec fn spec_run_due(
    due: Seq<Reservation>,
    w: Weekday,
    idx0: int,
    idx1: int,
    menu: Seq<MenuRow>,
) -> (Seq<(i64, Seq<char>)>, bool)
    decreases due.len(),
{
    if due.len() == 0 {
        (Seq::empty(), false)
    } else {
        match spec_reservation_outcome(due[0].kind, w, idx0, idx1, menu) {
            ReminderOutcome::Fault => (Seq::empty(), true),
            ReminderOutcome::Skip => spec_run_due(due.skip(1), w, idx0, idx1, menu),
            ReminderOutcome::Send(m) => {
                let rest = spec_run_due(due.skip(1), w, idx0, idx1, menu);
                (seq![(due[0].subscriber, m)] + rest.0, rest.1)
            },
        }
    }
}

/// The dispatch vector realizes the spec pairs.
pub open spec fn spec_dispatches_match(v: Seq<Dispatch>, s: Seq<(i64, Seq<char>)>) -> bool {
    &&& v.len() == s.len()
    &&& forall|i: int|
        0 <= i < v.len() ==> (#[trigger] v[i]).subscriber == s[i].0 && v[i].text@ == s[i].1
}

/// How a tick changes the rotation tracker: if the trigger table names a
/// floor for this weekday and time, that floor advanced by one (logged,
/// stamped with the tick); otherwise the tracker is untouched.
pub open spec fn spec_tracker_after(
    a: OrderRotationTracker,
    b: OrderRotationTracker,
    w: Weekday,
    now: Stamp,
) -> bool {
    match spec_rotation_trigger(w, now.time) {
        None => b == a,
        Some(f) => {
            &&& b.cached(f as int) == advance_index(a.cached(f as int), 1)
            &&& b.cached(1 - f as int) == a.cached(1 - f as int)
            &&& b.log@ == a.log@.push(
                RotationEvent {
                    stamp: now,
                    floor: f,
                    index: advance_index(a.cached(f as int), 1) as u8,
                },
            )
        },
    }
}

/// How a tick changes the cached menu: refreshed from the snapshot store at
/// local midnight, untouched otherwise.
pub open spec fn spec_menu_after(
    old_menu: Seq<MenuRow>,
    snapshot: SnapshotStore,
    now: Stamp,
) -> Seq<MenuRow> {
    if now.time == (TimeOfDay { hour: 0, minute: 0 }) {
        spec_lookup(snapshot, spec_iso_date(now.date))
    } else {
        old_menu
    }
}

/// The minute-tick reminder scheduler's own state: the rotation tracker it
/// advances and the menu cached since the last midnight refresh.
pub struct ReminderScheduler {
    pub tracker: OrderRotationTracker,
    pub cached_menu: Vec<MenuRow>,
}

/// What one tick produced.
pub struct TickOutcome {
    pub dispatches: Vec<Dispatch>,
    /// A meal reminder was due while the cached menu was empty: the
    /// scheduler's fatal internal fault. Dispatches computed before the
    /// faulting reservation are still listed.
    pub fault: bool,
}

impl ReminderScheduler {
    pub fn new(tracker: OrderRotationTracker, cached_menu: Vec<MenuRow>) -> (r: Self)
        ensures
            r.tracker == tracker,
            r.cached_menu == cached_menu,
    {
        ReminderScheduler { tracker, cached_menu }
    }

    /// One minute-aligned tick: first the scheduled rotation advance, then
    /// the midnight menu refresh, then one message per due reservation, in
    /// store order — so an order-kind reminder due at a trigger time
    /// observes the already-advanced label.
    pub fn tick(
        &mut self,
        now: Stamp,
        weekday: Weekday,
        reservations: &ReservationStore,
        snapshot: &SnapshotStore,
    ) -> (r: TickOutcome)
        requires
            old(self).tracker.wf(),
            now.wf(),
        ensures
            final(self).tracker.wf(),
            spec_tracker_after(old(self).tracker, final(self).tracker, weekday, now),
            final(self).cached_menu@ == spec_menu_after(
                old(self).cached_menu@,
                *snapshot,
                now,
            ),
            ({
                let run = spec_run_due(
                    spec_due_at(reservations.items@, now.time),
                    weekday,
                    final(self).tracker.cached(0),
                    final(self).tracker.cached(1),
                    final(self).cached_menu@,
                );
                spec_dispatches_match(r.dispatches@, run.0) && r.fault == run.1
            }),
    {
        if let Some(floor) = rotation_trigger(weekday, now.time) {
            self.tracker.advance(floor, 1, now);
        }
        if now.time.hour == 0 && now.time.minute == 0 {
            self.cached_menu = snapshot.lookup(&now.date);
        }
        let idx0 = self.tracker.current_index(0);
        let idx1 = self.tracker.current_index(1);
        let due = reservations.due_at(now.time);
        let ghost mid = *self;
        let ghost full = spec_run_due(
            due@,
            weekday,
            idx0 as int,
            idx1 as int,
            self.cached_menu@,
        );
        let mut dispatches: Vec<Dispatch> = Vec::new();
        let mut fault = false;
        let ghost mut sent: Seq<(i64, Seq<char>)> = Seq::empty();
        let mut i: usize = 0;
        proof {
            assert(due@.skip(0) =~= due@);
        }
        while i < due.len() && !fault
            invariant
                *self == mid,
                self.tracker.wf(),
                idx0 as int == self.tracker.cached(0),
                idx1 as int == self.tracker.cached(1),
                idx0 < 3,
                idx1 < 3,
                i <= due@.len(),
                full == spec_run_due(
                    due@,
                    weekday,
                    idx0 as int,
                    idx1 as int,
                    self.cached_menu@,
                ),
                spec_dispatches_match(dispatches@, sent),
                !fault ==> {
                    let rest = spec_run_due(
                        due@.skip(i as int),
                        weekday,
                        idx0 as int,
                        idx1 as int,
                        self.cached_menu@,
                    );
                    full == (sent + rest.0, rest.1)
                },
                fault ==> full == (sent, true),
            decreases due@.len() - i,
        {
            let res = due[i];
            proof {
                assert(due@.skip(i as int).len() == due@.len() - i);
                assert(due@.skip(i as int)[0] == due@[i as int]);
                assert(due@.skip(i as int).skip(1) =~= due@.skip(i + 1));
            }
            match reservation_message(res.kind, weekday, idx0, idx1, &self.cached_menu) {
                ComputedReminder::Skip => {},
                ComputedReminder::Send(text) => {
                    dispatches.push(Dispatch { subscriber: res.subscriber, text });
                    proof {
                        let m = spec_reservation_outcome(
                            res.kind,
                            weekday,
                            idx0 as int,
                            idx1 as int,
                            self.cached_menu@,
                        )->Send_0;
                        let rest = spec_run_due(
                            due@.skip(i + 1),
                            weekday,
                            idx0 as int,
                            idx1 as int,
                            self.cached_menu@,
                        );
                        sent = sent.push((res.subscriber, m));
                        assert(sent + rest.0 =~= (sent.drop_last() + (seq![
                            (res.subscriber, m),
                        ] + rest.0)));
                    }
                },
                ComputedReminder::Fault => {
                    fault = true;
                    proof {
                        assert(sent + Seq::<(i64, Seq<char>)>::empty() =~= sent);
                    }
                },
            }
            i += 1;
        }
        proof {
            if !fault {
                assert(due@.skip(due@.len() as int).len() == 0);
                assert(full.0 =~= sent);
            }
        }
        TickOutcome { dispatches, fault }
    }
}

/// Law: on Saturday, a due `lunch` or `lunchorder` reservation yields no
/// dispatch, whatever the rotation state and the cached menu hold.
pub proof fn lemma_saturday_suppresses_lunch(
    kind: ReservationKind,
    idx0: int,
    idx1: int,
    menu: Seq<MenuRow>,
)
    requires
        kind == ReservationKind::Lunch || kind == ReservationKind::LunchOrder,
    ensures
        spec_reservation_outcome(kind, Weekday::Sat, idx0, idx1, menu)
            == ReminderOutcome::Skip,
{
}

/// Law: a Saturday tick whose due reservations are all of the `lunch` or
/// `lunchorder` kinds dispatches nothing at all, and cannot fault.
pub proof fn lemma_saturday_no_lunch_dispatch(
    due: Seq<Reservation>,
    idx0: int,
    idx1: int,
    menu: Seq<MenuRow>,
)
    requires
        forall|i: int|
            0 <= i < due.len() ==> ((#[trigger] due[i]).kind == ReservationKind::Lunch
                || due[i].kind == ReservationKind::LunchOrder),
    ensures
        spec_run_due(due, Weekday::Sat, idx0, idx1, menu) == (
            Seq::<(i64, Seq<char>)>::empty(),
            false,
        ),
    decreases due.len(),
{
    if due.len() > 0 {
        lemma_saturday_no_lunch_dispatch(due.skip(1), idx0, idx1, menu);
    }
}

/// The due list with every `lunch` and `lunchorder` reservation removed,
/// order kept.
pub open spec fn spec_non_lunch(due: Seq<Reservation>) -> Seq<Reservation>
    decreases due.len(),
{
    if due.len() == 0 {
        Seq::empty()
    } else if due[0].kind == ReservationKind::Lunch || due[0].kind
        == ReservationKind::LunchOrder {
        spec_non_lunch(due.skip(1))
    } else {
        seq![due[0]] + spec_non_lunch(due.skip(1))
    }
}

/// Law: a Saturday tick runs exactly as if its due `lunch` and `lunchorder`
/// reservations did not exist — they contribute no dispatch and no fault,
/// whatever else is due around them.
pub proof fn lemma_saturday_drops_lunch(
    due: Seq<Reservation>,
    idx0: int,
    idx1: int,
    menu: Seq<MenuRow>,
)
    ensures
        spec_run_due(due, Weekday::Sat, idx0, idx1, menu) == spec_run_due(
            spec_non_lunch(due),
            Weekday::Sat,
            idx0,
            idx1,
            menu,
        ),
    decreases due.len(),
{
    if due.len() > 0 {
        let h = due[0];
        let rest = due.skip(1);
        lemma_saturday_drops_lunch(rest, idx0, idx1, menu);
        if h.kind == ReservationKind::Lunch || h.kind == ReservationKind::LunchOrder {
            assert(spec_reservation_outcome(h.kind, Weekday::Sat, idx0, idx1, menu)
                == ReminderOutcome::Skip);
        } else {
            let kept = spec_non_lunch(due);
            assert(kept == seq![h] + spec_non_lunch(rest));
            assert(kept.len() > 0);
            assert(kept[0] == h);
            assert(kept.skip(1) =~= spec_non_lunch(rest));
        }
    }
}

/// Law: at a Monday 12:00 tick the floor-0 index advances by one, floor 1 is
/// untouched, and a `lunchorder` reservation due at that same tick resolves
/// against the post-advance floor-0 label.
pub proof fn lemma_monday_noon(
    a: OrderRotationTracker,
    b: OrderRotationTracker,
    now: Stamp,
    menu: Seq<MenuRow>,
)
    requires
        now.time == (TimeOfDay { hour: 12, minute: 0 }),
        spec_tracker_after(a, b, Weekday::Mon, now),
    ensures
        b.cached(0) == advance_index(a.cached(0), 1),
        b.cached(1) == a.cached(1),
        spec_reservation_outcome(
            ReservationKind::LunchOrder,
            Weekday::Mon,
            b.cached(0),
            b.cached(1),
            menu,
        ) == ReminderOutcome::Send(spec_order_message(b.cached(0))),
{
}

/// Law: at a Sunday 12:00 tick it is the floor-1 index — not floor 0 — that
/// advances by one, and a due `lunchorder` reservation resolves against the
/// post-advance floor-1 label.
pub proof fn lemma_sunday_noon(
    a: OrderRotationTracker,
    b: OrderRotationTracker,
    now: Stamp,
    menu: Seq<MenuRow>,
)
    requires
        now.time == (TimeOfDay { hour: 12, minute: 0 }),
        spec_tracker_after(a, b, Weekday::Sun, now),
    ensures
        b.cached(1) == advance_index(a.cached(1), 1),
        b.cached(0) == a.cached(0),
        spec_reservation_outcome(
            ReservationKind::LunchOrder,
            Weekday::Sun,
            b.cached(0),
            b.cached(1),
            menu,
        ) == ReminderOutcome::Send(spec_order_message(b.cached(1))),
{
}

/// Milliseconds from a moment within a minute to the next minute boundary.
/// The sleep the tick loop computes is always positive: its fatal
/// negative-sleep fault cannot arise.
pub fn millis_to_next_minute(second: u8, millis: u16) -> (r: u32)
    requires
        second < 60,
        millis < 1000,
    ensures
        r as int == 60000 - (second as int * 1000 + millis as int),
        0 < r <= 60000,
{
    60000 - (second as u32 * 1000 + millis as u32)
}

/// Minutes from the end of a synchronizer pass to its next scheduled run:
/// until 03:00 the following day, plus the fixed three-hour safety offset.
/// The target never lies in the past, so a pass never reruns immediately.
pub fn sync_sleep_minutes(minute_of_day: u16) -> (r: u16)
    requires
        minute_of_day < 1440,
    ensures
        r as int == (1440 - minute_of_day as int) + 180 + 180,
        r > 0,
{
    1440 - minute_of_day + 360
}

} // verus!
