//! The dated, two-generation menu snapshot store, the fallback-aware read
//! path over it, and the synchronizer pass that refreshes it from the remote
//! source's record set.

use vstd::prelude::*;
use crate::clock::{Date, spec_date_lt, spec_date_le, date_lt, spec_parse_iso_date, parse_iso_date,
    spec_iso_date, iso_date};
use crate::menu::{MenuRow, spec_row_normalized, normalize_row, row_has_date};
use crate::text::{spec_starts_with, spec_ends_with, starts_with, ends_with};

verus! {

/// One full dated snapshot of the external menu dataset.
pub struct SnapshotGeneration {
    pub date: Date,
    pub rows: Vec<MenuRow>,
}

/// The two reachable generations: the current one and its predecessor.
/// Absent generations mean the store has never (or only once) been filled.
pub struct SnapshotStore {
    pub current: Option<SnapshotGeneration>,
    pub previous: Option<SnapshotGeneration>,
}

/// The rows of a generation sequence dated exactly `date`, in stored order.
pub open spec fn spec_rows_for(rows: Seq<MenuRow>, date: Seq<char>) -> Seq<MenuRow> {
    rows.filter(|r: MenuRow| r.dates@ == date)
}

/// What a lookup yields: the current generation's rows for the date; if it
/// has none, the previous generation's; absence is an empty result, never an
/// error.
pub open spec fn spec_lookup(store: SnapshotStore, date: Seq<char>) -> Seq<MenuRow> {
    let cur = match store.current {
        Some(g) => spec_rows_for(g.rows@, date),
        None => Seq::<MenuRow>::empty(),
    };
    if cur.len() > 0 {
        cur
    } else {
        match store.previous {
            Some(g) => spec_rows_for(g.rows@, date),
            None => Seq::<MenuRow>::empty(),
        }
    }
}

/// Collects the rows of one generation dated `date`.
fn rows_for(rows: &Vec<MenuRow>, date: &str) -> (r: Vec<MenuRow>)
    ensures
        r@ == spec_rows_for(rows@, date@),
{
    let mut out: Vec<MenuRow> = Vec::new();
    let mut i: usize = 0;
    proof {
        reveal(Seq::filter);
        assert(rows@.take(0) =~= Seq::<MenuRow>::empty());
    }
    while i < rows.len()
        invariant
            i <= rows@.len(),
            out@ == spec_rows_for(rows@.take(i as int), date@),
        decreases rows@.len() - i,
    {
        proof {
            reveal(Seq::filter);
            assert(rows@.take(i + 1).drop_last() =~= rows@.take(i as int));
            assert(rows@.take(i + 1).last() == rows@[i as int]);
        }
        if row_has_date(&rows[i], date) {
            out.push(rows[i].duplicate());
        }
        i += 1;
    }
    proof {
        assert(rows@.take(rows@.len() as int) =~= rows@);
    }
    out
}

impl SnapshotStore {
    /// A store with no generation yet.
    pub fn new() -> (r: Self)
        ensures
            r.current is None,
            r.previous is None,
    {
        SnapshotStore { current: None, previous: None }
    }

    /// The persisted row count of the current generation, 0 if none exists.
    pub open spec fn spec_current_count(self) -> int {
        match self.current {
            Some(g) => g.rows@.len() as int,
            None => 0,
        }
    }

    pub fn current_count(&self) -> (r: usize)
        ensures
            r as int == self.spec_current_count(),
    {
        match &self.current {
            Some(g) => g.rows.len(),
            None => 0,
        }
    }

    /// The fallback-aware read path: rows of the current generation for
    /// `date`, else rows of the previous one, else nothing.
    pub fn lookup(&self, date: &Date) -> (r: Vec<MenuRow>)
        requires
            date.wf(),
        ensures
            r@ == spec_lookup(*self, spec_iso_date(*date)),
    {
        let key = iso_date(date);
        if let Some(g) = &self.current {
            let cur = rows_for(&g.rows, key.as_str());
            if cur.len() > 0 {
                return cur;
            }
        }
        if let Some(g) = &self.previous {
            return rows_for(&g.rows, key.as_str());
        }
        Vec::new()
    }
}

/// Law: every row a lookup yields is dated with the looked-up date.
pub proof fn lemma_lookup_rows_carry_the_date(store: SnapshotStore, date: Seq<char>)
    ensures
        forall|i: int|
            0 <= i < spec_lookup(store, date).len()
                ==> (#[trigger] spec_lookup(store, date)[i]).dates@ == date,
{
    broadcast use vstd::seq_lib::group_filter_ensures;

}

/// Law: the read path falls back, and absence is never an error — when the
/// current generation has no row for the date, a lookup yields exactly the
/// previous generation's rows for it, and when neither generation has any,
/// it yields the empty sequence.
pub proof fn lemma_lookup_fallback(store: SnapshotStore, date: Seq<char>)
    ensures
        (match store.current {
            Some(g) => spec_rows_for(g.rows@, date).len() == 0,
            None => true,
        }) ==> spec_lookup(store, date) == (match store.previous {
            Some(g) => spec_rows_for(g.rows@, date),
            None => Seq::<MenuRow>::empty(),
        }),
        (match store.current {
            Some(g) => spec_rows_for(g.rows@, date).len() == 0,
            None => true,
        }) && (match store.previous {
            Some(g) => spec_rows_for(g.rows@, date).len() == 0,
            None => true,
        }) ==> spec_lookup(store, date) =~= Seq::<MenuRow>::empty(),
{
}

/// The menu text a read command yields for a date and slot: the fallback
/// lookup's rows formatted for the slot, or nothing when no generation has
/// the date.
pub fn menu_text_for(store: &SnapshotStore, date: &Date, title: &str, slot: crate::menu::MealSlot)
    -> (r: Option<String>)
    requires
        date.wf(),
    ensures
        r is Some <==> spec_lookup(*store, spec_iso_date(*date)).len() > 0,
        r is Some ==> r->Some_0@ == crate::menu::spec_menu_text(
            spec_lookup(*store, spec_iso_date(*date)),
            title@,
            slot,
        ),
{
    let rows = store.lookup(date);
    crate::menu::format_menu(&rows, title, slot)
}

/// What one synchronizer pass decides after comparing the remote source's
/// declared record count with the persisted count.
#[derive(Clone, Copy, PartialEq, Eq, Structural, Debug)]
pub enum SyncDecision {
    /// Counts are equal: the pass is a no-op.
    UpToDate,
    /// Counts differ, but a generation dated today already exists; rotation
    /// happens at most once per calendar day, so nothing is written.
    AlreadyRolledToday,
    /// Counts differ and no generation is dated today: fetch the full record
    /// set and roll generations.
    Refresh,
}

/// The decision a pass takes, as a function of the store, the remote count,
/// and today's date.
pub open spec fn spec_sync_decision(store: SnapshotStore, remote_count: i64, today: Date)
    -> SyncDecision {
    if remote_count == store.spec_current_count() {
        SyncDecision::UpToDate
    } else if store.current is Some && store.current->Some_0.date == today {
        SyncDecision::AlreadyRolledToday
    } else {
        SyncDecision::Refresh
    }
}

impl SnapshotStore {
    /// Step 1–3 of a pass: compare counts and decide whether to fetch.
    pub fn sync_decide(&self, remote_count: i64, today: Date) -> (r: SyncDecision)
        ensures
            r == spec_sync_decision(*self, remote_count, today),
    {
        let count = self.current_count();
        if remote_count >= 0 && count as u64 == remote_count as u64 {
            SyncDecision::UpToDate
        } else if match &self.current {
            Some(g) => g.date == today,
            None => false,
        } {
            SyncDecision::AlreadyRolledToday
        } else {
            SyncDecision::Refresh
        }
    }

    /// Step 4 of a pass: roll generations — the previous generation becomes
    /// the old current one, and a fresh generation dated `today` holds every
    /// fetched record, normalized. Returns the number of rows written.
    pub fn sync_apply(&mut self, today: Date, raw: &Vec<MenuRow>) -> (writes: usize)
        ensures
            writes == raw@.len(),
            final(self).previous == old(self).current,
            final(self).current is Some,
            final(self).current->Some_0.date == today,
            final(self).current->Some_0.rows@.len() == raw@.len(),
            forall|i: int|
                0 <= i < raw@.len() ==> spec_row_normalized(
                    raw@[i],
                    #[trigger] final(self).current->Some_0.rows@[i],
                ),
    {
        let mut rows: Vec<MenuRow> = Vec::new();
        let mut i: usize = 0;
        while i < raw.len()
            invariant
                i <= raw@.len(),
                rows@.len() == i,
                forall|j: int|
                    0 <= j < i ==> spec_row_normalized(raw@[j], #[trigger] rows@[j]),
            decreases raw@.len() - i,
        {
            rows.push(normalize_row(&raw[i]));
            i += 1;
        }
        let writes = rows.len();
        self.previous = self.current.take();
        self.current = Some(SnapshotGeneration { date: today, rows });
        writes
    }

    /// One full synchronizer pass over an already-fetched record set: with
    /// equal counts nothing is written and both generation pointers are left
    /// unchanged; with differing counts the generations roll at most once
    /// per calendar day.
    pub fn sync_pass(&mut self, remote_count: i64, today: Date, fetched: &Vec<MenuRow>) -> (writes:
        usize)
        ensures
            spec_sync_decision(*old(self), remote_count, today) != SyncDecision::Refresh
                ==> *final(self) == *old(self) && writes == 0,
            remote_count == old(self).spec_current_count() ==> *final(self) == *old(self)
                && writes == 0,
            spec_sync_decision(*old(self), remote_count, today) == SyncDecision::Refresh ==> {
                &&& writes == fetched@.len()
                &&& final(self).previous == old(self).current
                &&& final(self).current is Some
                &&& final(self).current->Some_0.date == today
                &&& final(self).current->Some_0.rows@.len() == fetched@.len()
                &&& forall|i: int|
                    0 <= i < fetched@.len() ==> spec_row_normalized(
                        fetched@[i],
                        #[trigger] final(self).current->Some_0.rows@[i],
                    )
            },
    {
        match self.sync_decide(remote_count, today) {
            SyncDecision::Refresh => self.sync_apply(today, fetched),
            _ => 0,
        }
    }
}

/// The date a storage object name encodes: names shaped
/// `jjam-YYYY-MM-DD.sqlite` (with the date a proper calendar date) name a
/// generation; any other name is not a generation object.
pub open spec fn spec_object_date(name: Seq<char>) -> Option<Date> {
    if spec_starts_with(name, "jjam-"@) && spec_ends_with(name, ".sqlite"@) && name.len() >= 15 {
        spec_parse_iso_date(name.subrange(5, 15))
    } else {
        None
    }
}

/// Parses the date out of a storage object name.
pub fn parse_object_date(name: &str) -> (r: Option<Date>)
    ensures
        r == spec_object_date(name@),
        r is Some ==> r->Some_0.wf(),
{
    if !starts_with(name, "jjam-") {
        return None;
    }
    if !ends_with(name, ".sqlite") {
        return None;
    }
    let len = name.unicode_len();
    if len < 15 {
        proof {
            reveal_strlit("jjam-");
            reveal_strlit(".sqlite");
        }
        return None;
    }
    let middle = name.substring_char(5, 15);
    parse_iso_date(middle)
}

/// The two most recent generation dates among a listing of storage object
/// names: `r.0` the greatest date any name encodes, `r.1` the greatest date
/// strictly before it.
pub fn select_generations(names: &Vec<String>) -> (r: (Option<Date>, Option<Date>))
    ensures
        r.0 is None <==> (forall|i: int|
            0 <= i < names@.len() ==> spec_object_date(#[trigger] names@[i]@) is None),
        r.0 is Some ==> {
            &&& (exists|i: int|
                0 <= i < names@.len() && spec_object_date(#[trigger] names@[i]@) == Some(
                    r.0->Some_0,
                ))
            &&& (forall|i: int|
                0 <= i < names@.len() && spec_object_date(#[trigger] names@[i]@) is Some
                    ==> spec_date_le(spec_object_date(names@[i]@)->Some_0, r.0->Some_0))
        },
        r.1 is Some ==> {
            &&& r.0 is Some
            &&& spec_date_lt(r.1->Some_0, r.0->Some_0)
            &&& (exists|i: int|
                0 <= i < names@.len() && spec_object_date(#[trigger] names@[i]@) == Some(
                    r.1->Some_0,
                ))
            &&& (forall|i: int|
                0 <= i < names@.len() && spec_object_date(#[trigger] names@[i]@) is Some
                    && spec_date_lt(spec_object_date(names@[i]@)->Some_0, r.0->Some_0)
                    ==> spec_date_le(spec_object_date(names@[i]@)->Some_0, r.1->Some_0))
        },
        r.0 is Some && r.1 is None ==> (forall|i: int|
            0 <= i < names@.len() && spec_object_date(#[trigger] names@[i]@) is Some
                ==> !spec_date_lt(spec_object_date(names@[i]@)->Some_0, r.0->Some_0)),
        r.0 is Some ==> r.0->Some_0.wf(),
        r.1 is Some ==> r.1->Some_0.wf(),
{
    let mut latest: Option<Date> = None;
    let mut second: Option<Date> = None;
    let mut i: usize = 0;
    while i < names.len()
        invariant
            i <= names@.len(),
            latest is None <==> (forall|j: int|
                0 <= j < i ==> spec_object_date(#[trigger] names@[j]@) is None),
            latest is Some ==> {
                &&& (exists|j: int|
                    0 <= j < i && spec_object_date(#[trigger] names@[j]@) == Some(
                        latest->Some_0,
                    ))
                &&& (forall|j: int|
                    0 <= j < i && spec_object_date(#[trigger] names@[j]@) is Some
                        ==> spec_date_le(spec_object_date(names@[j]@)->Some_0, latest->Some_0))
                &&& latest->Some_0.wf()
            },
            second is Some ==> {
                &&& latest is Some
                &&& spec_date_lt(second->Some_0, latest->Some_0)
                &&& (exists|j: int|
                    0 <= j < i && spec_object_date(#[trigger] names@[j]@) == Some(
                        second->Some_0,
                    ))
                &&& (forall|j: int|
                    0 <= j < i && spec_object_date(#[trigger] names@[j]@) is Some
                        && spec_date_lt(spec_object_date(names@[j]@)->Some_0, latest->Some_0)
                        ==> spec_date_le(spec_object_date(names@[j]@)->Some_0, second->Some_0))
                &&& second->Some_0.wf()
            },
            latest is Some && second is None ==> (forall|j: int|
                0 <= j < i && spec_object_date(#[trigger] names@[j]@) is Some
                    ==> !spec_date_lt(spec_object_date(names@[j]@)->Some_0, latest->Some_0)),
        decreases names@.len() - i,
    {
        if let Some(d) = parse_object_date(names[i].as_str()) {
            match latest {
                None => {
                    latest = Some(d);
                },
                Some(best) => {
                    if date_lt(&best, &d) {
                        second = Some(best);
                        latest = Some(d);
                    } else if date_lt(&d, &best) {
                        match second {
                            None => {
                                second = Some(d);
                            },
                            Some(s) => {
                                if date_lt(&s, &d) {
                                    second = Some(d);
                                }
                            },
                        }
                    }
                },
            }
        }
        i += 1;
    }
    (latest, second)
}

} // verus!
