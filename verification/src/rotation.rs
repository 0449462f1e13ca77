//! Serving-order rotation: a fixed, ordered set of three labels, one current
//! index per floor (floors 0 and 1), durably represented as an append-only
//! log of advance events with an in-memory cache of the two current indexes.

use vstd::prelude::*;
use vstd::arithmetic::div_mod::{
    lemma_add_mod_noop_right, lemma_mod_bound, lemma_small_mod,
};
use crate::clock::Stamp;

verus! {

/// The three serving-order labels, in their fixed order, shared by both
/// floors.
pub open spec fn spec_order_label(i: int) -> Seq<char> {
    if i == 0 {
        "본-1-2"@
    } else if i == 1 {
        "2-본-1"@
    } else {
        "1-2-본"@
    }
}

/// The label text for a rotation index.
pub fn order_label(i: u8) -> (r: &'static str)
    requires
        i < 3,
    ensures
        r@ == spec_order_label(i as int),
{
    if i == 0 {
        "본-1-2"
    } else if i == 1 {
        "2-본-1"
    } else {
        "1-2-본"
    }
}

/// The index reached by applying a signed delta to a rotation index:
/// `(idx + delta) mod 3`, with the mathematical (always non-negative) mod.
pub open spec fn advance_index(idx: int, delta: int) -> int {
    (idx + delta) % 3
}

/// Euclidean remainder of an arbitrary signed delta, as a small step in [0, 3).
fn delta_step(delta: i64) -> (r: u8)
    ensures
        r as int == (delta as int) % 3,
{
    let rem: i64 = delta % 3;
    let step: i64 = if rem < 0 {
        rem + 3
    } else {
        rem
    };
    proof {
        lemma_mod_bound(delta as int, 3);
    }
    step as u8
}

/// One entry of the append-only rotation log: at `stamp`, the serving order
/// of `floor` became `index`.
#[derive(Clone, Copy, PartialEq, Eq, Structural, Debug)]
pub struct RotationEvent {
    pub stamp: Stamp,
    pub floor: u8,
    pub index: u8,
}

impl RotationEvent {
    pub open spec fn wf(self) -> bool {
        self.floor < 2 && self.index < 3
    }
}

pub open spec fn events_wf(log: Seq<RotationEvent>) -> bool {
    forall|i: int| 0 <= i < log.len() ==> (#[trigger] log[i]).wf()
}

/// The index recorded by the latest event for `floor`, or `None` if the log
/// holds no event for that floor.
pub open spec fn spec_latest_entry(log: Seq<RotationEvent>, floor: int) -> Option<int>
    decreases log.len(),
{
    if log.len() == 0 {
        None
    } else if log.last().floor == floor {
        Some(log.last().index as int)
    } else {
        spec_latest_entry(log.drop_last(), floor)
    }
}

/// The current index a log determines for `floor`: the latest logged index,
/// defaulting to 0.
pub open spec fn spec_latest_index(log: Seq<RotationEvent>, floor: int) -> int {
    match spec_latest_entry(log, floor) {
        Some(i) => i,
        None => 0,
    }
}

proof fn lemma_latest_entry_push(log: Seq<RotationEvent>, e: RotationEvent, floor: int)
    ensures
        spec_latest_entry(log.push(e), floor) == if e.floor == floor {
            Some(e.index as int)
        } else {
            spec_latest_entry(log, floor)
        },
{
    assert(log.push(e).drop_last() =~= log);
}

proof fn lemma_latest_entry_bounds(log: Seq<RotationEvent>, floor: int)
    requires
        events_wf(log),
    ensures
        0 <= spec_latest_index(log, floor) < 3,
    decreases log.len(),
{
    if log.len() > 0 && log.last().floor != floor {
        assert(events_wf(log.drop_last()));
        lemma_latest_entry_bounds(log.drop_last(), floor);
    }
}

/// Scans the log backwards for the latest event of a floor.
fn latest_entry(events: &Vec<RotationEvent>, floor: u8) -> (r: Option<u8>)
    requires
        events_wf(events@),
        floor < 2,
    ensures
        match r {
            Some(i) => spec_latest_entry(events@, floor as int) == Some(i as int) && i < 3,
            None => spec_latest_entry(events@, floor as int) is None,
        },
{
    let ghost f = floor as int;
    let mut i: usize = events.len();
    proof {
        assert(events@.take(events@.len() as int) =~= events@);
    }
    while i > 0
        invariant
            f == floor as int,
            i <= events@.len(),
            events_wf(events@),
            spec_latest_entry(events@, f) == spec_latest_entry(events@.take(i as int), f),
        decreases i,
    {
        let e = events[i - 1];
        proof {
            assert(events@.take(i as int).len() == i as int);
            assert(events@.take(i as int).last() == events@[i - 1]);
        }
        if e.floor == floor {
            proof {
                assert(spec_latest_entry(events@.take(i as int), f) == Some(e.index as int));
                assert(events@[i - 1].wf());
            }
            return Some(e.index);
        }
        proof {
            assert(spec_latest_entry(events@.take(i as int), f) == spec_latest_entry(
                events@.take(i as int).drop_last(),
                f,
            ));
            assert(events@.take(i as int).drop_last() =~= events@.take(i - 1));
        }
        i -= 1;
    }
    None
}

/// In-memory cached view over the rotation log: the two current indexes,
/// kept consistent with the latest log entries.
pub struct OrderRotationTracker {
    pub log: Vec<RotationEvent>,
    pub idx0: u8,
    pub idx1: u8,
}

impl OrderRotationTracker {
    /// The cached current index of a floor.
    pub open spec fn cached(self, floor: int) -> int {
        if floor == 0 {
            self.idx0 as int
        } else {
            self.idx1 as int
        }
    }

    /// The cache agrees with the log, every logged event is well formed, and
    /// both floors have at least one event (the load bootstraps them).
    pub open spec fn wf(self) -> bool {
        &&& events_wf(self.log@)
        &&& spec_latest_entry(self.log@, 0) == Some(self.idx0 as int)
        &&& spec_latest_entry(self.log@, 1) == Some(self.idx1 as int)
        &&& self.idx0 < 3
        &&& self.idx1 < 3
    }

    /// Builds the tracker from the persisted log. A floor with no logged
    /// event starts at index 0, and that default is itself logged, stamped
    /// `now`.
    pub fn load(events: Vec<RotationEvent>, now: Stamp) -> (t: Self)
        requires
            events_wf(events@),
        ensures
            t.wf(),
            t.cached(0) == spec_latest_index(events@, 0),
            t.cached(1) == spec_latest_index(events@, 1),
            t.log@ == {
                let with0: Seq<RotationEvent> = if spec_latest_entry(events@, 0) is None {
                    events@.push(RotationEvent { stamp: now, floor: 0, index: 0 })
                } else {
                    events@
                };
                if spec_latest_entry(events@, 1) is None {
                    with0.push(RotationEvent { stamp: now, floor: 1, index: 0 })
                } else {
                    with0
                }
            },
    {
        let ghost orig = events@;
        let mut log = events;
        let found0 = latest_entry(&log, 0);
        let found1 = latest_entry(&log, 1);
        let idx0: u8 = match found0 {
            Some(i) => i,
            None => {
                let e = RotationEvent { stamp: now, floor: 0, index: 0 };
                log.push(e);
                proof {
                    lemma_latest_entry_push(orig, e, 0);
                    lemma_latest_entry_push(orig, e, 1);
                }
                0
            },
        };
        let ghost with0 = log@;
        let idx1: u8 = match found1 {
            Some(i) => i,
            None => {
                let e = RotationEvent { stamp: now, floor: 1, index: 0 };
                log.push(e);
                proof {
                    lemma_latest_entry_push(with0, e, 0);
                    lemma_latest_entry_push(with0, e, 1);
                }
                0
            },
        };
        proof {
            lemma_latest_entry_bounds(orig, 0);
            lemma_latest_entry_bounds(orig, 1);
        }
        OrderRotationTracker { log, idx0, idx1 }
    }

    /// The current index for a floor.
    pub fn current_index(&self, floor: u8) -> (r: u8)
        requires
            self.wf(),
            floor < 2,
        ensures
            r as int == self.cached(floor as int),
            r < 3,
    {
        if floor == 0 {
            self.idx0
        } else {
            self.idx1
        }
    }

    /// The current serving-order label for a floor.
    pub fn current_label(&self, floor: u8) -> (r: &'static str)
        requires
            self.wf(),
            floor < 2,
        ensures
            r@ == spec_order_label(self.cached(floor as int)),
    {
        order_label(self.current_index(floor))
    }

    /// Advances a floor's index by an arbitrary signed delta, modulo 3,
    /// appending the resulting index to the log, stamped `now`.
    pub fn advance(&mut self, floor: u8, delta: i64, now: Stamp) -> (r: u8)
        requires
            old(self).wf(),
            floor < 2,
        ensures
            final(self).wf(),
            r < 3,
            r as int == advance_index(old(self).cached(floor as int), delta as int),
            final(self).cached(floor as int) == r as int,
            final(self).cached(1 - floor as int) == old(self).cached(1 - floor as int),
            final(self).log@ == old(self).log@.push(
                RotationEvent { stamp: now, floor, index: r },
            ),
    {
        let cur: u8 = self.current_index(floor);
        let step: u8 = delta_step(delta);
        let next: u8 = (cur + step) % 3;
        proof {
            lemma_add_mod_noop_right(cur as int, delta as int, 3);
            lemma_mod_bound(cur as int + step as int, 3);
        }
        let e = RotationEvent { stamp: now, floor, index: next };
        self.log.push(e);
        proof {
            lemma_latest_entry_push(old(self).log@, e, 0);
            lemma_latest_entry_push(old(self).log@, e, 1);
        }
        if floor == 0 {
            self.idx0 = next;
        } else {
            self.idx1 = next;
        }
        next
    }
}

/// The index reached from `start` after applying the deltas in order.
pub open spec fn apply_deltas(start: int, ds: Seq<int>) -> int
    decreases ds.len(),
{
    if ds.len() == 0 {
        start
    } else {
        advance_index(apply_deltas(start, ds.drop_last()), ds.last())
    }
}

/// The sum of a sequence of deltas.
pub open spec fn seq_sum(ds: Seq<int>) -> int
    decreases ds.len(),
{
    if ds.len() == 0 {
        0
    } else {
        seq_sum(ds.drop_last()) + ds.last()
    }
}

/// Law: for any floor whose index starts at `start` in [0, 3), applying any
/// sequence of deltas through `advance` leaves the current index at
/// `(start + Σ deltas) mod 3`; from a fresh floor (`start == 0`) that is
/// `(Σ deltas) mod 3`.
pub proof fn lemma_rotation_accumulates(start: int, ds: Seq<int>)
    requires
        0 <= start < 3,
    ensures
        apply_deltas(start, ds) == (start + seq_sum(ds)) % 3,
    decreases ds.len(),
{
    if ds.len() == 0 {
        lemma_small_mod(start as nat, 3);
    } else {
        lemma_rotation_accumulates(start, ds.drop_last());
        lemma_add_mod_noop_right(ds.last(), start + seq_sum(ds.drop_last()), 3);
    }
}

} // verus!
