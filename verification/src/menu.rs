//! Daily menu records: one row per dish line of a day's plan, with four
//! meal-slot description/calorie pairs and a daily total. The external source
//! mixes up the two fields of a pair in a known way; normalization repairs
//! that and strips the calorie-unit suffix.

use vstd::prelude::*;
use crate::text::{ends_with, spec_ends_with, str_eq, take_chars};

verus! {

/// One menu record: a date, four meal-slot pairs (breakfast, lunch, dinner,
/// supplementary), and the daily total calorie figure.
pub struct MenuRow {
    pub dates: String,
    pub brst: String,
    pub brst_cal: String,
    pub lunc: String,
    pub lunc_cal: String,
    pub dinr: String,
    pub dinr_cal: String,
    pub adspcfd: String,
    pub adspcfd_cal: String,
    pub sum_cal: String,
}

impl MenuRow {
    /// An exact copy of the row.
    pub fn duplicate(&self) -> (r: MenuRow)
        ensures
            r == *self,
    {
        MenuRow {
            dates: self.dates.clone(),
            brst: self.brst.clone(),
            brst_cal: self.brst_cal.clone(),
            lunc: self.lunc.clone(),
            lunc_cal: self.lunc_cal.clone(),
            dinr: self.dinr.clone(),
            dinr_cal: self.dinr_cal.clone(),
            adspcfd: self.adspcfd.clone(),
            adspcfd_cal: self.adspcfd_cal.clone(),
            sum_cal: self.sum_cal.clone(),
        }
    }
}

/// A displayable meal slot of a row.
#[derive(Clone, Copy, PartialEq, Eq, Structural, Debug)]
pub enum MealSlot {
    Breakfast,
    Lunch,
    Dinner,
}

/// The description field of a slot.
pub open spec fn spec_slot_desc(row: MenuRow, slot: MealSlot) -> Seq<char> {
    match slot {
        MealSlot::Breakfast => row.brst@,
        MealSlot::Lunch => row.lunc@,
        MealSlot::Dinner => row.dinr@,
    }
}

/// The calorie field of a slot.
pub open spec fn spec_slot_cal(row: MenuRow, slot: MealSlot) -> Seq<char> {
    match slot {
        MealSlot::Breakfast => row.brst_cal@,
        MealSlot::Lunch => row.lunc_cal@,
        MealSlot::Dinner => row.dinr_cal@,
    }
}

/// The description/calorie pair of a displayable slot.
pub fn slot_data<'a>(row: &'a MenuRow, slot: MealSlot) -> (r: (&'a str, &'a str))
    ensures
        r.0@ == spec_slot_desc(*row, slot),
        r.1@ == spec_slot_cal(*row, slot),
{
    match slot {
        MealSlot::Breakfast => (row.brst.as_str(), row.brst_cal.as_str()),
        MealSlot::Lunch => (row.lunc.as_str(), row.lunc_cal.as_str()),
        MealSlot::Dinner => (row.dinr.as_str(), row.dinr_cal.as_str()),
    }
}

/// The normalized description of a slot pair: if the calorie field does not
/// carry the `kcal` suffix the two fields were swapped at the source, so the
/// calorie field holds the real description.
pub open spec fn spec_norm_desc(desc: Seq<char>, cal: Seq<char>) -> Seq<char> {
    if spec_ends_with(cal, "kcal"@) {
        desc
    } else {
        cal
    }
}

/// The normalized calorie figure of a slot pair: whichever field carries the
/// `kcal` suffix, with the suffix stripped; empty if neither does.
pub open spec fn spec_norm_cal(desc: Seq<char>, cal: Seq<char>) -> Seq<char> {
    if spec_ends_with(cal, "kcal"@) {
        cal.subrange(0, cal.len() - 4)
    } else if spec_ends_with(desc, "kcal"@) {
        desc.subrange(0, desc.len() - 4)
    } else {
        Seq::empty()
    }
}

/// Repairs one description/calorie pair.
pub fn normalize_pair(desc: &str, cal: &str) -> (r: (String, String))
    ensures
        r.0@ == spec_norm_desc(desc@, cal@),
        r.1@ == spec_norm_cal(desc@, cal@),
{
    proof {
        reveal_strlit("kcal");
    }
    if ends_with(cal, "kcal") {
        let stripped = take_chars(cal, cal.unicode_len() - 4);
        (String::from_str(desc), stripped)
    } else if ends_with(desc, "kcal") {
        let stripped = take_chars(desc, desc.unicode_len() - 4);
        (String::from_str(cal), stripped)
    } else {
        (String::from_str(cal), String::new())
    }
}

/// The normalized date field: truncated to its first ten characters
/// (date-only, dropping any time component).
pub open spec fn spec_norm_date(d: Seq<char>) -> Seq<char> {
    if d.len() <= 10 {
        d
    } else {
        d.subrange(0, 10)
    }
}

/// The normalized daily total: the trailing four-character unit suffix is
/// stripped whenever the field is long enough to carry one.
pub open spec fn spec_norm_sum(s: Seq<char>) -> Seq<char> {
    if s.len() < 4 {
        s
    } else {
        s.subrange(0, s.len() - 4)
    }
}

/// Field-wise statement that `out` is the normalization of `raw`.
pub open spec fn spec_row_normalized(raw: MenuRow, out: MenuRow) -> bool {
    &&& out.dates@ == spec_norm_date(raw.dates@)
    &&& out.brst@ == spec_norm_desc(raw.brst@, raw.brst_cal@)
    &&& out.brst_cal@ == spec_norm_cal(raw.brst@, raw.brst_cal@)
    &&& out.lunc@ == spec_norm_desc(raw.lunc@, raw.lunc_cal@)
    &&& out.lunc_cal@ == spec_norm_cal(raw.lunc@, raw.lunc_cal@)
    &&& out.dinr@ == spec_norm_desc(raw.dinr@, raw.dinr_cal@)
    &&& out.dinr_cal@ == spec_norm_cal(raw.dinr@, raw.dinr_cal@)
    &&& out.adspcfd@ == spec_norm_desc(raw.adspcfd@, raw.adspcfd_cal@)
    &&& out.adspcfd_cal@ == spec_norm_cal(raw.adspcfd@, raw.adspcfd_cal@)
    &&& out.sum_cal@ == spec_norm_sum(raw.sum_cal@)
}

/// Normalizes one raw record: repairs all four slot pairs, truncates the
/// date, and strips the daily total's unit suffix.
pub fn normalize_row(raw: &MenuRow) -> (r: MenuRow)
    ensures
        spec_row_normalized(*raw, r),
{
    let dates = if raw.dates.unicode_len() <= 10 {
        raw.dates.clone()
    } else {
        take_chars(raw.dates.as_str(), 10)
    };
    let (brst, brst_cal) = normalize_pair(raw.brst.as_str(), raw.brst_cal.as_str());
    let (lunc, lunc_cal) = normalize_pair(raw.lunc.as_str(), raw.lunc_cal.as_str());
    let (dinr, dinr_cal) = normalize_pair(raw.dinr.as_str(), raw.dinr_cal.as_str());
    let (adspcfd, adspcfd_cal) = normalize_pair(raw.adspcfd.as_str(), raw.adspcfd_cal.as_str());
    let sum_len = raw.sum_cal.unicode_len();
    let sum_cal = if sum_len < 4 {
        raw.sum_cal.clone()
    } else {
        take_chars(raw.sum_cal.as_str(), sum_len - 4)
    };
    MenuRow {
        dates,
        brst,
        brst_cal,
        lunc,
        lunc_cal,
        dinr,
        dinr_cal,
        adspcfd,
        adspcfd_cal,
        sum_cal,
    }
}

/// Whether a slot line of a row is shown: lines where both the description
/// and the calorie field are empty are skipped.
pub open spec fn spec_slot_shown(row: MenuRow, slot: MealSlot) -> bool {
    spec_slot_desc(row, slot).len() > 0 || spec_slot_cal(row, slot).len() > 0
}

/// One body line of the menu text: newline, description, then the calorie
/// figure bracketed with its unit.
pub open spec fn spec_menu_line(row: MenuRow, slot: MealSlot) -> Seq<char> {
    "\n"@ + spec_slot_desc(row, slot) + " ["@ + spec_slot_cal(row, slot) + "kcal]"@
}

/// The concatenated body lines for a sequence of rows, in order, skipping
/// rows whose slot pair is entirely empty.
pub open spec fn spec_menu_lines(rows: Seq<MenuRow>, slot: MealSlot) -> Seq<char>
    decreases rows.len(),
{
    if rows.len() == 0 {
        Seq::empty()
    } else {
        spec_menu_lines(rows.drop_last(), slot) + if spec_slot_shown(rows.last(), slot) {
            spec_menu_line(rows.last(), slot)
        } else {
            Seq::empty()
        }
    }
}

/// The full menu text: a bold title with the daily total of the first row,
/// then one line per shown row.
pub open spec fn spec_menu_text(rows: Seq<MenuRow>, title: Seq<char>, slot: MealSlot) -> Seq<
    char,
> {
    "<b>"@ + title + "</b> ["@ + rows[0].sum_cal@ + "kcal]\n"@ + spec_menu_lines(rows, slot)
}

/// Formats the menu text for one meal slot over the rows of one day.
/// With no rows there is nothing to format, not even a heading: `None`.
pub fn format_menu(rows: &Vec<MenuRow>, title: &str, slot: MealSlot) -> (r: Option<String>)
    ensures
        r is Some <==> rows@.len() > 0,
        r is Some ==> r->Some_0@ == spec_menu_text(rows@, title@, slot),
{
    if rows.len() == 0 {
        return None;
    }
    let mut s = String::from_str("<b>");
    s.append(title);
    s.append("</b> [");
    s.append(rows[0].sum_cal.as_str());
    s.append("kcal]\n");
    let ghost header = s@;
    let mut i: usize = 0;
    proof {
        assert(rows@.take(0) =~= Seq::<MenuRow>::empty());
    }
    while i < rows.len()
        invariant
            i <= rows@.len(),
            s@ == header + spec_menu_lines(rows@.take(i as int), slot),
        decreases rows@.len() - i,
    {
        proof {
            assert(rows@.take(i + 1).drop_last() =~= rows@.take(i as int));
            assert(rows@.take(i + 1).last() == rows@[i as int]);
        }
        let (desc, cal) = slot_data(&rows[i], slot);
        if !(desc.is_empty() && cal.is_empty()) {
            s.append("\n");
            s.append(desc);
            s.append(" [");
            s.append(cal);
            s.append("kcal]");
            proof {
                assert(s@ =~= header + spec_menu_lines(rows@.take(i + 1), slot));
            }
        } else {
            proof {
                assert(s@ =~= header + spec_menu_lines(rows@.take(i + 1), slot));
            }
        }
        i += 1;
    }
    proof {
        assert(rows@.take(rows@.len() as int) =~= rows@);
        assert(s@ =~= spec_menu_text(rows@, title@, slot));
    }
    Some(s)
}

/// Equality test on the date field of a row, used by the lookup path.
pub fn row_has_date(row: &MenuRow, date: &str) -> (r: bool)
    ensures
        r == (row.dates@ == date@),
{
    str_eq(row.dates.as_str(), date)
}

} // verus!
