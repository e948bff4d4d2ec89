//! Daily totals of completed focus sessions, keyed by local `YYYY-MM-DD` dates.

use vstd::prelude::*;

use vstd::string::{StrSliceExecFns, StringSliceAdditionalSpecFns};
use vstd::utf8::encode_utf8;

use crate::legacy::session::SessionKind;
use crate::legacy::timer::TimerEvent;

verus! {

pub const CURRENT_HISTORY_SCHEMA_VERSION: u32 = 1;

/// A lightweight summary for one local calendar day.
#[derive(Debug, Clone, Copy, PartialEq, Eq, Structural)]
pub struct DailySummary {
    pub completed_focus_sessions: u32,
    pub focused_seconds: u64,
}

impl Default for DailySummary {
    fn default() -> (r: Self)
        ensures
            r == (DailySummary { completed_focus_sessions: 0, focused_seconds: 0 }),
    {
        DailySummary { completed_focus_sessions: 0, focused_seconds: 0 }
    }
}

#[derive(Debug, Clone, PartialEq, Eq)]
pub enum HistoryError {
    InvalidLocalDate(String),
    CounterOverflow,
    UnsupportedSchemaVersion { found: u32, supported: u32 },
}

/// A schema version and the days in ascending date order, each date once.
pub struct HistoryModel {
    pub schema_version: u32,
    pub days: Seq<(Seq<char>, DailySummary)>,
}

/// Versioned daily history. Days are kept in ascending text order, each once.
#[derive(Debug, PartialEq, Eq)]
pub struct History {
    schema_version: u32,
    days: Vec<(String, DailySummary)>,
}

impl View for History {
    type V = HistoryModel;

    closed spec fn view(&self) -> HistoryModel {
        HistoryModel {
            schema_version: self.schema_version,
            days: Seq::new(self.days@.len(), |i: int| (self.days@[i].0@, self.days@[i].1)),
        }
    }
}

/// `a` sorts before `b` character by character.
pub open spec fn text_less(a: Seq<char>, b: Seq<char>) -> bool
    decreases a.len(),
{
    if a.len() == 0 {
        b.len() > 0
    } else if b.len() == 0 {
        false
    } else if (a[0] as u32) < (b[0] as u32) {
        true
    } else if a[0] == b[0] {
        text_less(a.drop_first(), b.drop_first())
    } else {
        false
    }
}

/// The index of `date` among the days, or -1.
pub open spec fn day_index(days: Seq<(Seq<char>, DailySummary)>, date: Seq<char>) -> int
    decreases days.len(),
{
    if days.len() == 0 {
        -1
    } else if days.last().0 == date {
        days.len() - 1
    } else {
        day_index(days.drop_last(), date)
    }
}

/// Where a new date goes: before the first later date.
pub open spec fn insert_position(days: Seq<(Seq<char>, DailySummary)>, date: Seq<char>) -> int
    decreases days.len(),
{
    if days.len() == 0 {
        0
    } else if text_less(date, days.last().0) {
        insert_position(days.drop_last(), date)
    } else {
        days.len() as int
    }
}

/// The days are in strictly ascending date order, so each date occurs once.
pub open spec fn days_ordered(days: Seq<(Seq<char>, DailySummary)>) -> bool {
    forall|i: int, j: int| 0 <= i < j < days.len() ==> text_less(#[trigger] days[i].0, #[trigger] days[j].0)
}

/// No text sorts before itself, and two texts never sort before each other.
pub proof fn lemma_text_less_asymmetric(a: Seq<char>, b: Seq<char>)
    ensures
        !(text_less(a, b) && text_less(b, a)),
        !text_less(a, a),
    decreases a.len(),
{
    if a.len() > 0 && b.len() > 0 && a[0] == b[0] {
        lemma_text_less_asymmetric(a.drop_first(), b.drop_first());
    }
    if a.len() > 0 {
        lemma_text_less_asymmetric(a.drop_first(), a.drop_first());
    }
}

/// Sorting before is transitive.
pub proof fn lemma_text_less_transitive(a: Seq<char>, b: Seq<char>, c: Seq<char>)
    requires
        text_less(a, b),
        text_less(b, c),
    ensures
        text_less(a, c),
    decreases a.len(),
{
    if a.len() > 0 && b.len() > 0 && c.len() > 0 && a[0] == b[0] && b[0] == c[0] {
        lemma_text_less_transitive(a.drop_first(), b.drop_first(), c.drop_first());
    }
}

/// Two different texts are ordered one way or the other.
pub proof fn lemma_text_less_total(a: Seq<char>, b: Seq<char>)
    ensures
        a == b || text_less(a, b) || text_less(b, a),
    decreases a.len(),
{
    if a.len() > 0 && b.len() > 0 {
        if a[0] == b[0] {
            lemma_text_less_total(a.drop_first(), b.drop_first());
            if a.drop_first() == b.drop_first() {
                assert(a =~= seq![a[0]] + a.drop_first());
                assert(b =~= seq![b[0]] + b.drop_first());
            }
        } else if !((a[0] as u32) < (b[0] as u32)) {
            assert((b[0] as u32) < (a[0] as u32)) by {
                vstd::utf8::char_u32_cast(a[0], a[0] as u32);
                vstd::utf8::char_u32_cast(b[0], b[0] as u32);
            }
        }
    } else if a.len() == 0 && b.len() == 0 {
        assert(a =~= b);
    }
}

/// In ordered days without `date`, the insertion position splits the days into
/// those before `date` and those after it.
pub proof fn lemma_insert_position(days: Seq<(Seq<char>, DailySummary)>, date: Seq<char>)
    requires
        days_ordered(days),
        day_index(days, date) == -1,
    ensures
        0 <= insert_position(days, date) <= days.len(),
        forall|i: int| 0 <= i < insert_position(days, date) ==> text_less(#[trigger] days[i].0, date),
        forall|i: int| insert_position(days, date) <= i < days.len() ==> text_less(date, #[trigger] days[i].0),
    decreases days.len(),
{
    if days.len() > 0 {
        let rest = days.drop_last();
        assert(days_ordered(rest)) by {
            assert forall|i: int, j: int| 0 <= i < j < rest.len() implies text_less(#[trigger] rest[i].0, #[trigger] rest[j].0) by {
                assert(rest[i] == days[i] && rest[j] == days[j]);
            }
        }
        lemma_insert_position(rest, date);
        let last = days.last().0;
        if !text_less(date, last) {
            lemma_text_less_total(date, last);
            assert forall|i: int| 0 <= i < days.len() implies text_less(#[trigger] days[i].0, date) by {
                if i < days.len() - 1 {
                    assert(text_less(days[i].0, days[days.len() - 1].0));
                    lemma_text_less_transitive(days[i].0, last, date);
                }
            }
        } else {
            assert forall|i: int| 0 <= i < insert_position(days, date) implies text_less(#[trigger] days[i].0, date) by {
                assert(rest[i] == days[i]);
            }
            assert forall|i: int| insert_position(days, date) <= i < days.len() implies text_less(date, #[trigger] days[i].0) by {
                if i < days.len() - 1 {
                    assert(rest[i] == days[i]);
                }
            }
        }
    }
}

/// Inserting a new date at its position, or replacing the summary of a date
/// already present, keeps the days ordered.
pub proof fn lemma_put_ordered(days: Seq<(Seq<char>, DailySummary)>, date: Seq<char>, summary: DailySummary)
    requires
        days_ordered(days),
    ensures
        days_ordered(put_day(days, date, summary)),
{
    let i = day_index(days, date);
    lemma_day_index_bounds(days, date);
    if i >= 0 {
        let r = days.update(i, (date, summary));
        assert forall|a: int, b: int| 0 <= a < b < r.len() implies text_less(#[trigger] r[a].0, #[trigger] r[b].0) by {
            assert(r[a].0 == days[a].0 && r[b].0 == days[b].0);
        }
    } else {
        lemma_insert_position(days, date);
        let p = insert_position(days, date);
        let r = days.insert(p, (date, summary));
        assert forall|a: int, b: int| 0 <= a < b < r.len() implies text_less(#[trigger] r[a].0, #[trigger] r[b].0) by {
            if b < p {
                assert(r[a] == days[a] && r[b] == days[b]);
            } else if b == p {
                assert(r[a] == days[a]);
            } else if a < p {
                assert(r[a] == days[a] && r[b] == days[b - 1]);
                lemma_text_less_transitive(days[a].0, date, days[b - 1].0);
            } else if a == p {
                assert(r[b] == days[b - 1]);
            } else {
                assert(r[a] == days[a - 1] && r[b] == days[b - 1]);
            }
        }
    }
}

/// A found date is at its index.
pub proof fn lemma_day_index_bounds(days: Seq<(Seq<char>, DailySummary)>, date: Seq<char>)
    ensures
        -1 <= day_index(days, date) < days.len(),
        day_index(days, date) >= 0 ==> days[day_index(days, date)].0 == date,
    decreases days.len(),
{
    if days.len() > 0 && days.last().0 != date {
        lemma_day_index_bounds(days.drop_last(), date);
    }
}

/// The days with `date` set to `summary`: replaced where present, otherwise
/// inserted before the first later date.
pub open spec fn put_day(
    days: Seq<(Seq<char>, DailySummary)>,
    date: Seq<char>,
    summary: DailySummary,
) -> Seq<(Seq<char>, DailySummary)> {
    let i = day_index(days, date);
    if i >= 0 {
        days.update(i, (date, summary))
    } else {
        days.insert(insert_position(days, date), (date, summary))
    }
}

/// `YYYY-MM-DD`: ten bytes, dashes at offsets 4 and 7, ASCII digits elsewhere.
pub open spec fn is_local_date(bytes: Seq<u8>) -> bool {
    &&& bytes.len() == 10
    &&& bytes[4] == 45u8
    &&& bytes[7] == 45u8
    &&& forall|i: int| 0 <= i < 10 && i != 4 && i != 7 ==> 48u8 <= #[trigger] bytes[i] <= 57u8
}

/// A local date is accepted exactly when it is ten bytes with a '-' at
/// offsets 4 and 7 and one of the ASCII digits '0' to '9' at every other
/// offset.
pub proof fn lemma_local_date_shape(bytes: Seq<u8>)
    ensures
        is_local_date(bytes) <==> {
            &&& bytes.len() == 10
            &&& bytes[4] == '-' as u8
            &&& bytes[7] == '-' as u8
            &&& forall|i: int|
                0 <= i < 10 && i != 4 && i != 7 ==> '0' as u8 <= #[trigger] bytes[i] && bytes[i]
                    <= '9' as u8
        },
{
}

pub open spec fn summary_of(days: Seq<(Seq<char>, DailySummary)>, date: Seq<char>) -> DailySummary {
    let i = day_index(days, date);
    if i >= 0 {
        days[i].1
    } else {
        DailySummary { completed_focus_sessions: 0, focused_seconds: 0 }
    }
}

/// The days after one more completed focus of `seconds` on `date`.
pub open spec fn with_focus(
    days: Seq<(Seq<char>, DailySummary)>,
    date: Seq<char>,
    seconds: u64,
) -> Seq<(Seq<char>, DailySummary)> {
    let current = summary_of(days, date);
    let updated = DailySummary {
        completed_focus_sessions: (current.completed_focus_sessions + 1) as u32,
        focused_seconds: (current.focused_seconds + seconds) as u64,
    };
    let i = day_index(days, date);
    if i >= 0 {
        days.update(i, (date, updated))
    } else {
        days.insert(insert_position(days, date), (date, updated))
    }
}

/// A date that `day_index` does not find occurs nowhere in the days.
proof fn lemma_day_index_absent(days: Seq<(Seq<char>, DailySummary)>, date: Seq<char>)
    requires
        day_index(days, date) == -1,
    ensures
        forall|i: int| 0 <= i < days.len() ==> (#[trigger] days[i]).0 != date,
    decreases days.len(),
{
    if days.len() > 0 {
        lemma_day_index_absent(days.drop_last(), date);
        assert forall|i: int| 0 <= i < days.len() implies (#[trigger] days[i]).0 != date by {
            if i < days.len() - 1 {
                assert(days.drop_last()[i] == days[i]);
            }
        }
    }
}

/// In ordered days, a date is found exactly where it stands.
proof fn lemma_day_index_at(days: Seq<(Seq<char>, DailySummary)>, date: Seq<char>, k: int)
    requires
        days_ordered(days),
        0 <= k < days.len(),
        days[k].0 == date,
    ensures
        day_index(days, date) == k,
{
    lemma_day_index_bounds(days, date);
    let j = day_index(days, date);
    if j == -1 {
        lemma_day_index_absent(days, date);
        assert(days[k].0 != date);
    } else if j != k {
        lemma_text_less_asymmetric(date, date);
        if j < k {
            assert(text_less(days[j].0, days[k].0));
        } else {
            assert(text_less(days[k].0, days[j].0));
        }
    }
}

/// A date absent from the days is still absent after another date is put.
proof fn lemma_absent_after_put(
    days: Seq<(Seq<char>, DailySummary)>,
    date: Seq<char>,
    summary: DailySummary,
    other: Seq<char>,
)
    requires
        days_ordered(days),
        other != date,
        day_index(days, other) == -1,
    ensures
        day_index(put_day(days, date, summary), other) == -1,
{
    let r = put_day(days, date, summary);
    lemma_day_index_absent(days, other);
    lemma_day_index_bounds(days, date);
    lemma_day_index_bounds(r, other);
    let j = day_index(r, other);
    if j >= 0 {
        let i = day_index(days, date);
        if i >= 0 {
            assert(r[j].0 == days[j].0 || j == i);
        } else {
            lemma_insert_position(days, date);
            let p = insert_position(days, date);
            if j < p {
                assert(r[j] == days[j]);
            } else if j > p {
                assert(r[j] == days[j - 1]);
            }
        }
    }
}

/// Reading the days after putting `summary` for `date`: that date reads back
/// `summary`, and every other date reads what it read before.
proof fn lemma_summary_after_put(
    days: Seq<(Seq<char>, DailySummary)>,
    date: Seq<char>,
    summary: DailySummary,
    other: Seq<char>,
)
    requires
        days_ordered(days),
    ensures
        summary_of(put_day(days, date, summary), date) == summary,
        other != date ==> summary_of(put_day(days, date, summary), other) == summary_of(days, other),
{
    let r = put_day(days, date, summary);
    lemma_put_ordered(days, date, summary);
    lemma_day_index_bounds(days, date);
    lemma_day_index_bounds(days, other);
    let i = day_index(days, date);
    let j = day_index(days, other);
    if i >= 0 {
        lemma_day_index_at(r, date, i);
        if other != date && j >= 0 {
            assert(r[j] == days[j]);
            lemma_day_index_at(r, other, j);
        }
    } else {
        lemma_insert_position(days, date);
        let p = insert_position(days, date);
        assert(r[p] == (date, summary));
        lemma_day_index_at(r, date, p);
        if other != date && j >= 0 {
            if j < p {
                assert(r[j] == days[j]);
                lemma_day_index_at(r, other, j);
            } else {
                assert(r[j + 1] == days[j]);
                lemma_day_index_at(r, other, j + 1);
            }
        }
    }
    if other != date && j < 0 {
        lemma_absent_after_put(days, date, summary, other);
    }
}

/// Recording a completed focus on a date adds one session and its seconds to
/// that date's summary (from zero for a date not yet recorded), leaves every
/// other date's summary as it was, and keeps the days in date order.
pub proof fn lemma_record_focus_adds_to_its_day(
    days: Seq<(Seq<char>, DailySummary)>,
    date: Seq<char>,
    seconds: u64,
    other: Seq<char>,
)
    requires
        days_ordered(days),
        !focus_overflows(days, date, seconds),
    ensures
        summary_of(with_focus(days, date, seconds), date) == (DailySummary {
            completed_focus_sessions: (summary_of(days, date).completed_focus_sessions + 1) as u32,
            focused_seconds: (summary_of(days, date).focused_seconds + seconds) as u64,
        }),
        summary_of(with_focus(days, date, seconds), date).completed_focus_sessions == summary_of(
            days,
            date,
        ).completed_focus_sessions + 1,
        summary_of(with_focus(days, date, seconds), date).focused_seconds == summary_of(
            days,
            date,
        ).focused_seconds + seconds,
        day_index(days, date) == -1 ==> summary_of(days, date) == (DailySummary {
            completed_focus_sessions: 0,
            focused_seconds: 0,
        }),
        other != date ==> summary_of(with_focus(days, date, seconds), other) == summary_of(
            days,
            other,
        ),
        days_ordered(with_focus(days, date, seconds)),
{
    let current = summary_of(days, date);
    let updated = DailySummary {
        completed_focus_sessions: (current.completed_focus_sessions + 1) as u32,
        focused_seconds: (current.focused_seconds + seconds) as u64,
    };
    assert(with_focus(days, date, seconds) == put_day(days, date, updated));
    lemma_summary_after_put(days, date, updated, other);
    lemma_put_ordered(days, date, updated);
}

/// What `record_focus` does with a valid date: fails on counter overflow,
/// otherwise adds the session to that day.
pub open spec fn focus_overflows(days: Seq<(Seq<char>, DailySummary)>, date: Seq<char>, seconds: u64) -> bool {
    let current = summary_of(days, date);
    current.completed_focus_sessions == u32::MAX || current.focused_seconds + seconds > u64::MAX
}

fn text_less_exec(a: &str, b: &str) -> (r: bool)
    ensures
        r == text_less(a@, b@),
{
    let n = a.unicode_len();
    let m = b.unicode_len();
    let mut i: usize = 0;
    assert(a@.skip(0) =~= a@);
    assert(b@.skip(0) =~= b@);
    while i < n && i < m
        invariant
            n == a@.len(),
            m == b@.len(),
            i <= n,
            i <= m,
            text_less(a@, b@) == text_less(a@.skip(i as int), b@.skip(i as int)),
        decreases n - i,
    {
        let x = a.get_char(i);
        let y = b.get_char(i);
        assert(a@.skip(i as int)[0] == x);
        assert(b@.skip(i as int)[0] == y);
        assert(a@.skip(i as int).drop_first() =~= a@.skip(i + 1));
        assert(b@.skip(i as int).drop_first() =~= b@.skip(i + 1));
        if (x as u32) < (y as u32) {
            return true;
        }
        if x != y {
            return false;
        }
        i += 1;
    }
    i < m
}

fn find_day(days: &Vec<(String, DailySummary)>, date: &str) -> (r: Option<usize>)
    ensures
        ({
            let v = Seq::new(days@.len(), |i: int| (days@[i].0@, days@[i].1));
            match r {
                Some(i) => i < days.len() && day_index(v, date@) == i,
                None => day_index(v, date@) == -1,
            }
        }),
{
    let ghost v = Seq::new(days@.len(), |i: int| (days@[i].0@, days@[i].1));
    let key = date.to_owned();
    let mut i: usize = days.len();
    assert(v.subrange(0, i as int) =~= v);
    while i > 0
        invariant
            i <= days.len(),
            key@ == date@,
            v == Seq::new(days@.len(), |i: int| (days@[i].0@, days@[i].1)),
            day_index(v, date@) == day_index(v.subrange(0, i as int), date@),
        decreases i,
    {
        assert(v.subrange(0, i as int).drop_last() =~= v.subrange(0, i - 1));
        assert(v.subrange(0, i as int).last() == v[i - 1]);
        if days[i - 1].0 == key {
            return Some(i - 1);
        }
        i -= 1;
    }
    None
}

fn find_position(days: &Vec<(String, DailySummary)>, date: &str) -> (r: usize)
    ensures
        r <= days.len(),
        r == insert_position(Seq::new(days@.len(), |i: int| (days@[i].0@, days@[i].1)), date@),
{
    let ghost v = Seq::new(days@.len(), |i: int| (days@[i].0@, days@[i].1));
    let mut i: usize = days.len();
    assert(v.subrange(0, i as int) =~= v);
    while i > 0
        invariant
            i <= days.len(),
            v == Seq::new(days@.len(), |i: int| (days@[i].0@, days@[i].1)),
            insert_position(v, date@) == insert_position(v.subrange(0, i as int), date@),
        decreases i,
    {
        assert(v.subrange(0, i as int).drop_last() =~= v.subrange(0, i - 1));
        assert(v.subrange(0, i as int).last() == v[i - 1]);
        if !text_less_exec(date, days[i - 1].0.as_str()) {
            return i;
        }
        i -= 1;
    }
    0
}

/// Stored days as texts and summaries.
pub open spec fn days_view(days: Seq<(String, DailySummary)>) -> Seq<(Seq<char>, DailySummary)> {
    Seq::new(days.len(), |i: int| (days[i].0@, days[i].1))
}

/// The days that putting each given day in turn makes of no days: a later
/// entry for a date replaces an earlier one.
pub open spec fn put_all(days: Seq<(Seq<char>, DailySummary)>) -> Seq<(Seq<char>, DailySummary)>
    decreases days.len(),
{
    if days.len() == 0 {
        Seq::empty()
    } else {
        put_day(put_all(days.drop_last()), days.last().0, days.last().1)
    }
}

/// Sets `date` to `summary` in ordered stored days.
fn put_vec(days: &mut Vec<(String, DailySummary)>, date: String, summary: DailySummary)
    requires
        days_ordered(days_view(old(days)@)),
    ensures
        days_view(final(days)@) == put_day(days_view(old(days)@), date@, summary),
        days_ordered(days_view(final(days)@)),
{
    let ghost v = days_view(days@);
    proof {
        lemma_put_ordered(v, date@, summary);
    }
    match find_day(days, date.as_str()) {
        Some(i) => {
            days.set(i, (date, summary));
            assert(days_view(days@) =~= v.update(i as int, (date@, summary)));
        },
        None => {
            let position = find_position(days, date.as_str());
            days.insert(position, (date, summary));
            assert(days_view(days@) =~= v.insert(position as int, (date@, summary)));
        },
    }
}

/// Checks the `YYYY-MM-DD` shape of a local date.
pub fn validate_local_date(local_date: &str) -> (r: Result<(), HistoryError>)
    ensures
        match r {
            Ok(_) => is_local_date(local_date.spec_bytes()),
            Err(e) => !is_local_date(local_date.spec_bytes()) && e is InvalidLocalDate
                && e->InvalidLocalDate_0@ == local_date@,
        },
{
    let bytes = local_date.as_bytes();
    let mut ok = bytes.len() == 10;
    if ok {
        ok = bytes[4] == 45u8 && bytes[7] == 45u8;
        let mut i: usize = 0;
        while i < 10
            invariant
                bytes@ == local_date.spec_bytes(),
                bytes@.len() == 10,
                i <= 10,
                ok ==> (bytes@[4] == 45u8 && bytes@[7] == 45u8 && forall|k: int|
                    0 <= k < i && k != 4 && k != 7 ==> 48u8 <= #[trigger] bytes@[k] <= 57u8),
                !ok ==> !is_local_date(bytes@),
            decreases 10 - i,
        {
            if i != 4 && i != 7 && !(48u8 <= bytes[i] && bytes[i] <= 57u8) {
                ok = false;
            }
            i += 1;
        }
    }
    if ok {
        Ok(())
    } else {
        Err(HistoryError::InvalidLocalDate(local_date.to_owned()))
    }
}

impl History {
    /// Days are kept in strictly ascending date order.
    #[verifier::type_invariant]
    spec fn days_in_order(self) -> bool {
        days_ordered(days_view(self.days@))
    }

    /// An empty history at the current schema version.
    pub fn new() -> (r: Self)
        ensures
            r@.schema_version == CURRENT_HISTORY_SCHEMA_VERSION,
            r@.days.len() == 0,
    {
        let r = History { schema_version: CURRENT_HISTORY_SCHEMA_VERSION, days: Vec::new() };
        assert(r@.days =~= Seq::<(Seq<char>, DailySummary)>::empty());
        r
    }

    /// A history of these days, as read back from storage: in date order,
    /// a later entry for a date replacing an earlier one. Call `validate`
    /// before relying on it.
    pub fn from_parts(schema_version: u32, days: Vec<(String, DailySummary)>) -> (r: Self)
        ensures
            r@.schema_version == schema_version,
            r@.days == put_all(days_view(days@)),
    {
        let mut out: Vec<(String, DailySummary)> = Vec::new();
        let mut i: usize = 0;
        assert(days_view(days@).take(0) =~= Seq::<(Seq<char>, DailySummary)>::empty());
        assert(days_view(out@) =~= Seq::<(Seq<char>, DailySummary)>::empty());
        while i < days.len()
            invariant
                i <= days.len(),
                days_ordered(days_view(out@)),
                days_view(out@) == put_all(days_view(days@).take(i as int)),
            decreases days.len() - i,
        {
            let date = days[i].0.clone();
            let summary = days[i].1;
            put_vec(&mut out, date, summary);
            assert(days_view(days@).take(i + 1).drop_last() =~= days_view(days@).take(i as int));
            i += 1;
        }
        assert(days_view(days@).take(days.len() as int) =~= days_view(days@));
        let r = History { schema_version, days: out };
        assert(r@.days =~= days_view(out@));
        r
    }

    pub fn schema_version(&self) -> (r: u32)
        ensures
            r == self@.schema_version,
    {
        self.schema_version
    }

    /// The days in ascending date order.
    pub fn days(&self) -> (r: &Vec<(String, DailySummary)>)
        ensures
            Seq::new(r@.len(), |i: int| (r@[i].0@, r@[i].1)) == self@.days,
            days_ordered(self@.days),
    {
        proof {
            use_type_invariant(self);
            assert(self@.days =~= days_view(self.days@));
        }
        &self.days
    }

    pub fn summary(&self, local_date: &str) -> (r: Option<&DailySummary>)
        ensures
            match r {
                Some(s) => day_index(self@.days, local_date@) >= 0 && *s == self@.days[day_index(
                    self@.days,
                    local_date@,
                )].1,
                None => day_index(self@.days, local_date@) == -1,
            },
    {
        match find_day(&self.days, local_date) {
            Some(i) => Some(&self.days[i].1),
            None => None,
        }
    }

    /// Records only completed focus sessions. Returns whether the event was
    /// recorded; a completed break or a skipped session is ignored.
    pub fn record_event(&mut self, local_date: &str, event: &TimerEvent) -> (r: Result<bool, HistoryError>)
        ensures
            match *event {
                TimerEvent::SessionCompleted { session: SessionKind::Focus, duration_seconds, .. } => {
                    match r {
                        Ok(recorded) => recorded && is_local_date(local_date.spec_bytes())
                            && !focus_overflows(old(self)@.days, local_date@, duration_seconds)
                            && final(self)@.days == with_focus(
                            old(self)@.days,
                            local_date@,
                            duration_seconds,
                        ) && final(self)@.schema_version == old(self)@.schema_version,
                        Err(e) => final(self)@ == old(self)@ && if is_local_date(local_date.spec_bytes()) {
                            e == HistoryError::CounterOverflow && focus_overflows(
                                old(self)@.days,
                                local_date@,
                                duration_seconds,
                            )
                        } else {
                            e is InvalidLocalDate && e->InvalidLocalDate_0@ == local_date@
                        },
                    }
                },
                _ => r == Ok::<bool, HistoryError>(false) && final(self)@ == old(self)@,
            },
    {
        match *event {
            TimerEvent::SessionCompleted { session: SessionKind::Focus, duration_seconds, .. } => {
                match self.record_focus(local_date, duration_seconds) {
                    Ok(()) => Ok(true),
                    Err(e) => Err(e),
                }
            },
            _ => Ok(false),
        }
    }

    /// Adds a completed focus session directly to the daily history. A
    /// rejected date or an overflowing counter changes nothing.
    pub fn record_focus(&mut self, local_date: &str, duration_seconds: u64) -> (r: Result<(), HistoryError>)
        ensures
            match r {
                Ok(_) => is_local_date(local_date.spec_bytes()) && !focus_overflows(
                    old(self)@.days,
                    local_date@,
                    duration_seconds,
                ) && final(self)@.days == with_focus(old(self)@.days, local_date@, duration_seconds)
                    && final(self)@.schema_version == old(self)@.schema_version,
                Err(e) => final(self)@ == old(self)@ && if is_local_date(local_date.spec_bytes()) {
                    e == HistoryError::CounterOverflow && focus_overflows(
                        old(self)@.days,
                        local_date@,
                        duration_seconds,
                    )
                } else {
                    e is InvalidLocalDate && e->InvalidLocalDate_0@ == local_date@
                },
            },
    {
        if let Err(e) = validate_local_date(local_date) {
            return Err(e);
        }
        let ghost v = old(self)@.days;
        let found = find_day(&self.days, local_date);
        let current = match found {
            Some(i) => self.days[i].1,
            None => DailySummary { completed_focus_sessions: 0, focused_seconds: 0 },
        };
        let completed_focus_sessions = match current.completed_focus_sessions.checked_add(1) {
            Some(n) => n,
            None => {
                return Err(HistoryError::CounterOverflow);
            },
        };
        let focused_seconds = match current.focused_seconds.checked_add(duration_seconds) {
            Some(n) => n,
            None => {
                return Err(HistoryError::CounterOverflow);
            },
        };
        let updated = DailySummary { completed_focus_sessions, focused_seconds };
        proof {
            use_type_invariant(&*self);
        }
        let mut taken = History::new();
        std::mem::swap(self, &mut taken);
        let History { schema_version, mut days } = taken;
        assert(days_view(days@) =~= v);
        put_vec(&mut days, local_date.to_owned(), updated);
        *self = History { schema_version, days };
        assert(self@.days =~= days_view(self.days@));
        Ok(())
    }

    /// The schema version is current and every date has the `YYYY-MM-DD` shape.
    pub open spec fn validate_ok(&self) -> bool {
        &&& self@.schema_version == CURRENT_HISTORY_SCHEMA_VERSION
        &&& forall|i: int|
            0 <= i < self@.days.len() ==> is_local_date(encode_utf8(#[trigger] self@.days[i].0))
    }

    /// Checks the schema version and the shape of every date.
    pub fn validate(&self) -> (r: Result<(), HistoryError>)
        ensures
            r is Ok <==> self.validate_ok(),
            match r {
                Ok(_) => self@.schema_version == CURRENT_HISTORY_SCHEMA_VERSION && forall|i: int|
                    0 <= i < self@.days.len() ==> is_local_date(encode_utf8(#[trigger] self@.days[i].0)),
                Err(e) => if self@.schema_version != CURRENT_HISTORY_SCHEMA_VERSION {
                    e == (HistoryError::UnsupportedSchemaVersion {
                        found: self@.schema_version,
                        supported: CURRENT_HISTORY_SCHEMA_VERSION,
                    })
                } else {
                    exists|k: int|
                        0 <= k < self@.days.len() && !is_local_date(
                            encode_utf8(#[trigger] self@.days[k].0),
                        ) && (forall|j: int| 0 <= j < k ==> is_local_date(
                            encode_utf8(#[trigger] self@.days[j].0),
                        )) && e is InvalidLocalDate && e->InvalidLocalDate_0@ == self@.days[k].0
                        && forall|j: int|
                            0 <= j < self@.days.len() && text_less(
                                #[trigger] self@.days[j].0,
                                self@.days[k].0,
                            ) ==> is_local_date(encode_utf8(self@.days[j].0))
                },
            },
    {
        proof {
            use_type_invariant(self);
            assert(self@.days =~= days_view(self.days@));
        }
        if self.schema_version != CURRENT_HISTORY_SCHEMA_VERSION {
            return Err(
                HistoryError::UnsupportedSchemaVersion {
                    found: self.schema_version,
                    supported: CURRENT_HISTORY_SCHEMA_VERSION,
                },
            );
        }
        let mut i: usize = 0;
        while i < self.days.len()
            invariant
                i <= self.days.len(),
                self.schema_version == CURRENT_HISTORY_SCHEMA_VERSION,
                days_ordered(self@.days),
                forall|k: int| 0 <= k < i ==> is_local_date(encode_utf8(#[trigger] self.days@[k].0@)),
            decreases self.days.len() - i,
        {
            if let Err(e) = validate_local_date(self.days[i].0.as_str()) {
                proof {
                    assert(self@.days[i as int].0 == self.days@[i as int].0@);
                    assert forall|j: int| 0 <= j < i implies is_local_date(
                        encode_utf8(#[trigger] self@.days[j].0),
                    ) by {
                        assert(self@.days[j].0 == self.days@[j].0@);
                    }
                    assert forall|j: int|
                        0 <= j < self@.days.len() && text_less(
                            #[trigger] self@.days[j].0,
                            self@.days[i as int].0,
                        ) implies is_local_date(encode_utf8(self@.days[j].0)) by {
                        lemma_text_less_asymmetric(self@.days[j].0, self@.days[i as int].0);
                        if j > i {
                            assert(text_less(self@.days[i as int].0, self@.days[j].0));
                        }
                        if j < i {
                            assert(self@.days[j].0 == self.days@[j].0@);
                        }
                    }
                }
                return Err(e);
            }
            i += 1;
        }
        assert forall|k: int| 0 <= k < self@.days.len() implies is_local_date(
            encode_utf8(#[trigger] self@.days[k].0),
        ) by {
            assert(self@.days[k].0 == self.days@[k].0@);
            assert(is_local_date(encode_utf8(self.days@[k].0@)));
        }
        Ok(())
    }
}

impl Clone for History {
    fn clone(&self) -> (r: Self)
        ensures
            r@ == self@,
    {
        proof {
            use_type_invariant(self);
        }
        let mut days: Vec<(String, DailySummary)> = Vec::new();
        let mut i: usize = 0;
        while i < self.days.len()
            invariant
                i <= self.days.len(),
                days_view(days@) == days_view(self.days@).take(i as int),
            decreases self.days.len() - i,
        {
            let key = self.days[i].0.clone();
            let ghost before = days@;
            days.push((key, self.days[i].1));
            assert(days_view(days@) =~= days_view(before).push((key@, self.days@[i as int].1)));
            assert(days_view(self.days@).take(i + 1) =~= days_view(self.days@).take(i as int).push(
                days_view(self.days@)[i as int],
            ));
            i += 1;
        }
        assert(days_view(self.days@).take(self.days.len() as int) =~= days_view(self.days@));
        let r = History { schema_version: self.schema_version, days };
        assert(r@.days =~= days_view(r.days@));
        assert(self@.days =~= days_view(self.days@));
        r
    }
}

impl Default for History {
    fn default() -> (r: Self)
        ensures
            r@.schema_version == CURRENT_HISTORY_SCHEMA_VERSION,
            r@.days.len() == 0,
    {
        History::new()
    }
}

} // verus!
