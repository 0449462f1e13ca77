//! Per-subscriber reminder definitions. Each subscriber may hold at most one
//! reservation per kind; re-creating one with the same key replaces the prior
//! time of day.

use vstd::prelude::*;
use crate::clock::TimeOfDay;
use crate::text::str_eq;

verus! {

/// The full schema-level enumeration of reservation kinds: a meal-menu or a
/// serving-order notice, for a given meal and day offset.
#[derive(Clone, Copy, PartialEq, Eq, Structural, Debug)]
pub enum ReservationKind {
    Breakfast,
    BreakfastOrder,
    NextBreakfast,
    NextBreakfastOrder,
    Lunch,
    LunchOrder,
    Dinner,
    DinnerOrder,
    Brunch,
    BrunchOrder,
    SundayBreakfast,
    SundayBreakfastOrder,
}

/// The schema label of a kind, as persisted.
pub open spec fn spec_kind_label(k: ReservationKind) -> Seq<char> {
    match k {
        ReservationKind::Breakfast => "breakfast"@,
        ReservationKind::BreakfastOrder => "breakfastorder"@,
        ReservationKind::NextBreakfast => "nextbreakfast"@,
        ReservationKind::NextBreakfastOrder => "nextbreakfastorder"@,
        ReservationKind::Lunch => "lunch"@,
        ReservationKind::LunchOrder => "lunchorder"@,
        ReservationKind::Dinner => "dinner"@,
        ReservationKind::DinnerOrder => "dinnerorder"@,
        ReservationKind::Brunch => "brunch"@,
        ReservationKind::BrunchOrder => "brunchorder"@,
        ReservationKind::SundayBreakfast => "sundaybreakfast"@,
        ReservationKind::SundayBreakfastOrder => "sundaybreakfastorder"@,
    }
}

/// The schema label of a kind.
pub fn kind_label(k: ReservationKind) -> (r: &'static str)
    ensures
        r@ == spec_kind_label(k),
{
    match k {
        ReservationKind::Breakfast => "breakfast",
        ReservationKind::BreakfastOrder => "breakfastorder",
        ReservationKind::NextBreakfast => "nextbreakfast",
        ReservationKind::NextBreakfastOrder => "nextbreakfastorder",
        ReservationKind::Lunch => "lunch",
        ReservationKind::LunchOrder => "lunchorder",
        ReservationKind::Dinner => "dinner",
        ReservationKind::DinnerOrder => "dinnerorder",
        ReservationKind::Brunch => "brunch",
        ReservationKind::BrunchOrder => "brunchorder",
        ReservationKind::SundayBreakfast => "sundaybreakfast",
        ReservationKind::SundayBreakfastOrder => "sundaybreakfastorder",
    }
}

/// The kind a schema label names, if any.
pub open spec fn spec_parse_kind(s: Seq<char>) -> Option<ReservationKind> {
    if s == spec_kind_label(ReservationKind::Breakfast) {
        Some(ReservationKind::Breakfast)
    } else if s == spec_kind_label(ReservationKind::BreakfastOrder) {
        Some(ReservationKind::BreakfastOrder)
    } else if s == spec_kind_label(ReservationKind::NextBreakfast) {
        Some(ReservationKind::NextBreakfast)
    } else if s == spec_kind_label(ReservationKind::NextBreakfastOrder) {
        Some(ReservationKind::NextBreakfastOrder)
    } else if s == spec_kind_label(ReservationKind::Lunch) {
        Some(ReservationKind::Lunch)
    } else if s == spec_kind_label(ReservationKind::LunchOrder) {
        Some(ReservationKind::LunchOrder)
    } else if s == spec_kind_label(ReservationKind::Dinner) {
        Some(ReservationKind::Dinner)
    } else if s == spec_kind_label(ReservationKind::DinnerOrder) {
        Some(ReservationKind::DinnerOrder)
    } else if s == spec_kind_label(ReservationKind::Brunch) {
        Some(ReservationKind::Brunch)
    } else if s == spec_kind_label(ReservationKind::BrunchOrder) {
        Some(ReservationKind::BrunchOrder)
    } else if s == spec_kind_label(ReservationKind::SundayBreakfast) {
        Some(ReservationKind::SundayBreakfast)
    } else if s == spec_kind_label(ReservationKind::SundayBreakfastOrder) {
        Some(ReservationKind::SundayBreakfastOrder)
    } else {
        None
    }
}

/// Parses a persisted schema label back into a kind.
pub fn parse_kind(s: &str) -> (r: Option<ReservationKind>)
    ensures
        r == spec_parse_kind(s@),
{
    if str_eq(s, "breakfast") {
        Some(ReservationKind::Breakfast)
    } else if str_eq(s, "breakfastorder") {
        Some(ReservationKind::BreakfastOrder)
    } else if str_eq(s, "nextbreakfast") {
        Some(ReservationKind::NextBreakfast)
    } else if str_eq(s, "nextbreakfastorder") {
        Some(ReservationKind::NextBreakfastOrder)
    } else if str_eq(s, "lunch") {
        Some(ReservationKind::Lunch)
    } else if str_eq(s, "lunchorder") {
        Some(ReservationKind::LunchOrder)
    } else if str_eq(s, "dinner") {
        Some(ReservationKind::Dinner)
    } else if str_eq(s, "dinnerorder") {
        Some(ReservationKind::DinnerOrder)
    } else if str_eq(s, "brunch") {
        Some(ReservationKind::Brunch)
    } else if str_eq(s, "brunchorder") {
        Some(ReservationKind::BrunchOrder)
    } else if str_eq(s, "sundaybreakfast") {
        Some(ReservationKind::SundayBreakfast)
    } else if str_eq(s, "sundaybreakfastorder") {
        Some(ReservationKind::SundayBreakfastOrder)
    } else {
        None
    }
}

/// Law: the schema labels are pairwise distinct, so persisting a kind by its
/// label and parsing it back yields the kind itself.
pub proof fn lemma_kind_label_round_trip(k: ReservationKind)
    ensures
        spec_parse_kind(spec_kind_label(k)) == Some(k),
{
    reveal_strlit("breakfast");
    reveal_strlit("breakfastorder");
    reveal_strlit("nextbreakfast");
    reveal_strlit("nextbreakfastorder");
    reveal_strlit("lunch");
    reveal_strlit("lunchorder");
    reveal_strlit("dinner");
    reveal_strlit("dinnerorder");
    reveal_strlit("brunch");
    reveal_strlit("brunchorder");
    reveal_strlit("sundaybreakfast");
    reveal_strlit("sundaybreakfastorder");
    assert("breakfast"@.len() == 9);
    assert("breakfastorder"@.len() == 14);
    assert("nextbreakfast"@.len() == 13);
    assert("nextbreakfastorder"@.len() == 18);
    assert("lunch"@.len() == 5);
    assert("lunchorder"@.len() == 10);
    assert("dinner"@.len() == 6);
    assert("dinnerorder"@.len() == 11);
    assert("brunch"@.len() == 6);
    assert("brunchorder"@.len() == 11);
    assert("sundaybreakfast"@.len() == 15);
    assert("sundaybreakfastorder"@.len() == 20);
    assert("dinner"@[0] == 'd' && "brunch"@[0] == 'b');
    assert("dinnerorder"@[0] == 'd' && "brunchorder"@[0] == 'b');
    let b = ReservationKind::Breakfast;
    let bo = ReservationKind::BreakfastOrder;
    let nb = ReservationKind::NextBreakfast;
    let nbo = ReservationKind::NextBreakfastOrder;
    let l = ReservationKind::Lunch;
    let lo = ReservationKind::LunchOrder;
    let d = ReservationKind::Dinner;
    let dr = ReservationKind::DinnerOrder;
    let br = ReservationKind::Brunch;
    let bro = ReservationKind::BrunchOrder;
    let sb = ReservationKind::SundayBreakfast;
    let sbo = ReservationKind::SundayBreakfastOrder;
    assert(spec_parse_kind(spec_kind_label(b)) == Some(b));
    assert(spec_parse_kind(spec_kind_label(bo)) == Some(bo));
    assert(spec_parse_kind(spec_kind_label(nb)) == Some(nb));
    assert(spec_parse_kind(spec_kind_label(nbo)) == Some(nbo));
    assert(spec_parse_kind(spec_kind_label(l)) == Some(l));
    assert(spec_parse_kind(spec_kind_label(lo)) == Some(lo));
    assert(spec_parse_kind(spec_kind_label(d)) == Some(d));
    assert(spec_parse_kind(spec_kind_label(dr)) == Some(dr));
    assert(spec_parse_kind(spec_kind_label(br)) == Some(br));
    assert(spec_parse_kind(spec_kind_label(bro)) == Some(bro));
    assert(spec_parse_kind(spec_kind_label(sb)) == Some(sb));
    assert(spec_parse_kind(spec_kind_label(sbo)) == Some(sbo));
}

/// One reminder definition.
#[derive(Clone, Copy, PartialEq, Eq, Structural, Debug)]
pub struct Reservation {
    pub subscriber: i64,
    pub kind: ReservationKind,
    pub time: TimeOfDay,
}

/// Two reservations share their key (subscriber, kind).
pub open spec fn same_key(a: Reservation, b: Reservation) -> bool {
    a.subscriber == b.subscriber && a.kind == b.kind
}

/// No two entries share a key.
pub open spec fn distinct_keys(items: Seq<Reservation>) -> bool {
    forall|i: int, j: int|
        0 <= i < j < items.len() ==> !same_key(#[trigger] items[i], #[trigger] items[j])
}

/// `items` with every entry keyed (subscriber, kind) removed.
pub open spec fn spec_without_key(
    items: Seq<Reservation>,
    subscriber: i64,
    kind: ReservationKind,
) -> Seq<Reservation> {
    items.filter(
        |r: Reservation| !(r.subscriber == subscriber && r.kind == kind),
    )
}

/// The entries due at a time of day, in store order.
pub open spec fn spec_due_at(items: Seq<Reservation>, t: TimeOfDay) -> Seq<Reservation> {
    items.filter(|r: Reservation| r.time == t)
}

/// Removing a key keeps key-distinctness, and keeps only entries of the
/// original store that do not carry the removed key.
proof fn lemma_without_key_distinct(
    items: Seq<Reservation>,
    subscriber: i64,
    kind: ReservationKind,
)
    requires
        distinct_keys(items),
    ensures
        distinct_keys(spec_without_key(items, subscriber, kind)),
        forall|x: Reservation| #[trigger]
            spec_without_key(items, subscriber, kind).contains(x) ==> items.contains(x) && !(
            x.subscriber == subscriber && x.kind == kind),
    decreases items.len(),
{
    reveal(Seq::filter);
    if items.len() > 0 {
        let prefix = items.drop_last();
        assert(distinct_keys(prefix)) by {
            assert(forall|i: int, j: int|
                0 <= i < j < prefix.len() ==> !same_key(
                    #[trigger] items[i],
                    #[trigger] items[j],
                ));
        }
        lemma_without_key_distinct(prefix, subscriber, kind);
        assert(forall|x: Reservation| #[trigger]
            prefix.contains(x) ==> items.contains(x));
        let sub = spec_without_key(prefix, subscriber, kind);
        let out = spec_without_key(items, subscriber, kind);
        if !(items.last().subscriber == subscriber && items.last().kind == kind) {
            assert(out == sub.push(items.last()));
            assert forall|i: int, j: int| 0 <= i < j < out.len() implies !same_key(
                #[trigger] out[i],
                #[trigger] out[j],
            ) by {
                if j == out.len() - 1 {
                    assert(sub.contains(out[i]));
                    let k = choose|k: int| 0 <= k < prefix.len() && prefix[k] == out[i];
                    assert(items[k] == out[i]);
                    assert(items[items.len() - 1] == out[j]);
                }
            }
            assert forall|x: Reservation| #[trigger] out.contains(x) implies items.contains(x)
                && !(x.subscriber == subscriber && x.kind == kind) by {
                let k = choose|k: int| 0 <= k < out.len() && out[k] == x;
                if k < out.len() - 1 {
                    assert(sub[k] == x);
                    assert(sub.contains(x));
                } else {
                    assert(items[items.len() - 1] == x);
                }
            }
        } else {
            assert(out == sub);
        }
    }
}

/// The keyed store of reminder definitions.
pub struct ReservationStore {
    pub items: Vec<Reservation>,
}

impl ReservationStore {
    /// Key uniqueness: one reservation per (subscriber, kind).
    pub open spec fn wf(self) -> bool {
        distinct_keys(self.items@)
    }

    /// An empty store.
    pub fn new() -> (r: Self)
        ensures
            r.wf(),
            r.items@ == Seq::<Reservation>::empty(),
    {
        ReservationStore { items: Vec::new() }
    }

    /// Builds a store from persisted entries, keeping the first entry of any
    /// duplicated key and the persisted order otherwise.
    pub fn from_entries(entries: Vec<Reservation>) -> (r: Self)
        ensures
            r.wf(),
            distinct_keys(entries@) ==> r.items@ == entries@,
            forall|a: int|
                0 <= a < r.items@.len() ==> entries@.contains(#[trigger] r.items@[a]),
    {
        let mut items: Vec<Reservation> = Vec::new();
        let mut i: usize = 0;
        while i < entries.len()
            invariant
                i <= entries@.len(),
                distinct_keys(items@),
                forall|a: int|
                    0 <= a < items@.len() ==> exists|b: int|
                        0 <= b < i && entries@[b] == #[trigger] items@[a],
                distinct_keys(entries@.take(i as int)) ==> items@ == entries@.take(i as int),
            decreases entries@.len() - i,
        {
            let e = entries[i];
            let mut dup = false;
            let mut j: usize = 0;
            while j < items.len()
                invariant
                    j <= items@.len(),
                    e == entries@[i as int],
                    dup <==> exists|a: int| 0 <= a < j && same_key(#[trigger] items@[a], e),
                decreases items@.len() - j,
            {
                let it = items[j];
                if it.subscriber == e.subscriber && kind_eq(it.kind, e.kind) {
                    dup = true;
                }
                j += 1;
            }
            proof {
                assert(entries@.take(i + 1).drop_last() =~= entries@.take(i as int));
                assert(entries@.take(i + 1).last() == entries@[i as int]);
            }
            if !dup {
                items.push(e);
            } else {
                proof {
                    if distinct_keys(entries@.take(i + 1)) {
                        let a = choose|a: int|
                            0 <= a < items@.len() && same_key(#[trigger] items@[a], e);
                        let b = choose|b: int|
                            0 <= b < i && entries@[b] == #[trigger] items@[a];
                        assert(same_key(entries@.take(i + 1)[b], entries@.take(i + 1)[i as int]));
                        assert(false);
                    }
                }
            }
            i += 1;
        }
        proof {
            assert(entries@.take(entries@.len() as int) =~= entries@);
        }
        ReservationStore { items }
    }

    /// Creates or replaces the reservation keyed (subscriber, kind): any
    /// prior entry with that key goes away and the new definition is
    /// appended.
    pub fn upsert(&mut self, subscriber: i64, kind: ReservationKind, time: TimeOfDay)
        requires
            old(self).wf(),
        ensures
            final(self).wf(),
            final(self).items@ == spec_without_key(old(self).items@, subscriber, kind).push(
                Reservation { subscriber, kind, time },
            ),
    {
        self.remove_key(subscriber, kind);
        let ghost mid = self.items@;
        self.items.push(Reservation { subscriber, kind, time });
        proof {
            lemma_without_key_distinct(old(self).items@, subscriber, kind);
            assert forall|i: int, j: int| 0 <= i < j < self.items@.len() implies !same_key(
                #[trigger] self.items@[i],
                #[trigger] self.items@[j],
            ) by {
                if j == self.items@.len() - 1 {
                    assert(mid.contains(mid[i]));
                }
            }
        }
    }

    /// Deletes the reservation keyed (subscriber, kind), if present.
    pub fn delete(&mut self, subscriber: i64, kind: ReservationKind)
        requires
            old(self).wf(),
        ensures
            final(self).wf(),
            final(self).items@ == spec_without_key(old(self).items@, subscriber, kind),
    {
        self.remove_key(subscriber, kind);
        proof {
            lemma_without_key_distinct(old(self).items@, subscriber, kind);
        }
    }

    /// Removes every entry keyed (subscriber, kind) from the backing vector.
    fn remove_key(&mut self, subscriber: i64, kind: ReservationKind)
        ensures
            final(self).items@ == spec_without_key(old(self).items@, subscriber, kind),
    {
        let mut kept: Vec<Reservation> = Vec::new();
        let mut i: usize = 0;
        proof {
            reveal(Seq::filter);
            assert(old(self).items@.take(0) =~= Seq::<Reservation>::empty());
        }
        while i < self.items.len()
            invariant
                i <= self.items@.len(),
                self.items@ == old(self).items@,
                kept@ == spec_without_key(self.items@.take(i as int), subscriber, kind),
            decreases self.items@.len() - i,
        {
            let e = self.items[i];
            proof {
                reveal(Seq::filter);
                assert(self.items@.take(i + 1).drop_last() =~= self.items@.take(i as int));
                assert(self.items@.take(i + 1).last() == self.items@[i as int]);
            }
            if !(e.subscriber == subscriber && kind_eq(e.kind, kind)) {
                kept.push(e);
            }
            i += 1;
        }
        proof {
            assert(self.items@.take(self.items@.len() as int) =~= self.items@);
        }
        self.items = kept;
    }

    /// All reservations due at a time of day, in store order.
    pub fn due_at(&self, t: TimeOfDay) -> (r: Vec<Reservation>)
        ensures
            r@ == spec_due_at(self.items@, t),
    {
        let mut due: Vec<Reservation> = Vec::new();
        let mut i: usize = 0;
        proof {
            reveal(Seq::filter);
            assert(self.items@.take(0) =~= Seq::<Reservation>::empty());
        }
        while i < self.items.len()
            invariant
                i <= self.items@.len(),
                due@ == spec_due_at(self.items@.take(i as int), t),
            decreases self.items@.len() - i,
        {
            let e = self.items[i];
            proof {
                reveal(Seq::filter);
                assert(self.items@.take(i + 1).drop_last() =~= self.items@.take(i as int));
                assert(self.items@.take(i + 1).last() == self.items@[i as int]);
            }
            if e.time == t {
                due.push(e);
            }
            i += 1;
        }
        proof {
            assert(self.items@.take(self.items@.len() as int) =~= self.items@);
        }
        due
    }
}

/// Equality of kinds.
fn kind_eq(a: ReservationKind, b: ReservationKind) -> (r: bool)
    ensures
        r == (a == b),
{
    a == b
}

} // verus!
