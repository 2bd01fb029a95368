//! The aggregate itself: set up once per group, fed row by row, finalized
//! into the trimmed mean, cleared for the next group.

use crate::decimal::{decimal_text, normalize, to_text};
use crate::fixed::{lemma_stripped_keeps_value, stripped, Fixed};
use crate::mean::{mean, mean_of};
use crate::order::{all_wf, ascending, lemma_ascending_is_unique, sort_ascending};
use crate::trim::{
    count_to_trim, is_proportion, lemma_trim_leaves_some, lemma_zero_cuts_nothing, trim_count,
};
use crate::validate::{validate, validated};
use crate::value::{coerce, coerced, Value};
use vstd::prelude::*;
use vstd::seq_lib::group_to_multiset_ensures;

verus! {

/// The status that `add` gives for a row that it skipped.
pub const ROW_SKIPPED: u8 = 1;

/// A finalized group may have no value, so a host that asks whether the
/// result can be null is told that it can.
pub const RESULT_MAY_BE_NULL: bool = true;

/// Finalizing failed: the mean of the kept observations has no decimal.
#[derive(Clone, Copy, Debug, PartialEq, Eq, Structural)]
pub struct ProcessError;

/// What an accumulator holds: the observations of the current group, in the
/// order in which they are stored, and the proportion to trim.
pub ghost struct State {
    pub values: Seq<Fixed>,
    pub proportion: Fixed,
}

impl State {
    /// The observations are well-formed decimals and the proportion lies in
    /// `[0, 1)`.
    pub open spec fn wf(self) -> bool {
        &&& all_wf(self.values)
        &&& is_proportion(self.proportion)
    }

    /// A group that has taken no row in yet.
    pub open spec fn fresh(proportion: Fixed) -> State {
        State { values: Seq::empty(), proportion }
    }

    /// The accumulator after one more row: the row's decimal is appended
    /// where the row stands for one, and nothing changes where it does not.
    pub open spec fn taken(self, row: Value) -> State {
        match coerced(row) {
            Some(d) => State { values: self.values.push(d), proportion: self.proportion },
            None => self,
        }
    }

    /// The accumulator after a run of rows, taken in one after the other.
    pub open spec fn fed(self, rows: Seq<Value>) -> State
        decreases rows.len(),
    {
        if rows.len() == 0 {
            self
        } else {
            self.fed(rows.drop_last()).taken(rows.last())
        }
    }

    /// The accumulator emptied for the next group.
    pub open spec fn cleared(self) -> State {
        State::fresh(self.proportion)
    }

    /// `self` holds what `before` holds, in ascending arrangement: the state
    /// in which finalizing leaves an accumulator.
    pub open spec fn arranges(self, before: State) -> bool {
        &&& self.proportion == before.proportion
        &&& self.values.to_multiset() == before.values.to_multiset()
        &&& ascending(self.values)
    }

    /// What finalizing returns once the observations are arranged.
    pub open spec fn result(self) -> Result<Option<Seq<char>>, ProcessError> {
        outcome(self.values, self.proportion)
    }
}

/// The accumulator of one group.
#[derive(Debug)]
pub struct Trimmean {
    values: Vec<Fixed>,
    proportion: Fixed,
}

impl View for Trimmean {
    type V = State;

    closed spec fn view(&self) -> State {
        State { values: self.values@, proportion: self.proportion }
    }
}

/// The observations that are averaged: the ascending arrangement without
/// the first and the last `⌊(n · p) / 2⌋` of its `n` elements.
pub open spec fn kept(sorted: Seq<Fixed>, p: Fixed) -> Seq<Fixed> {
    let trim = trim_count(sorted.len(), p);
    sorted.subrange(trim, sorted.len() - trim)
}

/// What finalizing returns for a mean that was computed, or was not: the
/// mean without trailing zeros, as text.
pub open spec fn rendered(mean: Option<Fixed>) -> Result<Option<Seq<char>>, ProcessError> {
    match mean {
        Some(m) => Ok(Some(decimal_text(stripped(m)))),
        None => Err(ProcessError),
    }
}

/// What finalizing returns for observations in ascending arrangement: no
/// value for an empty group, else the mean of the kept observations.
pub open spec fn outcome(sorted: Seq<Fixed>, p: Fixed) -> Result<Option<Seq<char>>, ProcessError> {
    if sorted.len() == 0 {
        Ok(None)
    } else {
        rendered(mean(kept(sorted, p)))
    }
}

/// `r` succeeds with the text that `expected` holds, has no value where
/// `expected` has none, and fails where `expected` fails.
pub open spec fn agrees(
    r: Result<Option<String>, ProcessError>,
    expected: Result<Option<Seq<char>>, ProcessError>,
) -> bool {
    match expected {
        Ok(None) => r == Ok::<Option<String>, ProcessError>(None),
        Ok(Some(text)) => r matches Ok(Some(s)) && s@ == text,
        Err(_) => r is Err,
    }
}

/// Writes a mean out as text, without trailing zeros.
pub fn render(mean: Option<Fixed>) -> (r: Result<Option<String>, ProcessError>)
    requires
        mean matches Some(m) ==> m.wf(),
    ensures
        agrees(r, rendered(mean)),
{
    match mean {
        Some(m) => {
            proof {
                lemma_stripped_keeps_value(m);
            }
            let short: Fixed = normalize(&m);
            Ok(Some(to_text(&short)))
        },
        None => Err(ProcessError),
    }
}

/// Rearranging a collection leaves as many elements as there were.
pub proof fn lemma_rearranged_length(before: Seq<Fixed>, after: Seq<Fixed>)
    requires
        after.to_multiset() == before.to_multiset(),
    ensures
        after.len() == before.len(),
{
    broadcast use group_to_multiset_ensures;

    assert(after.to_multiset().len() == after.len());
    assert(before.to_multiset().len() == before.len());
}

/// Rearranging a collection of well-formed decimals leaves them well formed
/// and as many.
pub proof fn lemma_rearranged(before: Seq<Fixed>, after: Seq<Fixed>)
    requires
        all_wf(before),
        after.to_multiset() == before.to_multiset(),
    ensures
        all_wf(after),
        after.len() == before.len(),
{
    broadcast use group_to_multiset_ensures;

    lemma_rearranged_length(before, after);
    assert forall|i: int| 0 <= i < after.len() implies (#[trigger] after[i]).wf() by {
        assert(after.contains(after[i]));
        assert(after.to_multiset().count(after[i]) > 0);
        assert(before.contains(after[i]));
    }
}

/// Of `n >= 1` observations, `n - 2 · ⌊(n · p) / 2⌋` are averaged, and that
/// is at least one.
pub proof fn lemma_kept_count(sorted: Seq<Fixed>, p: Fixed)
    requires
        is_proportion(p),
        sorted.len() >= 1,
    ensures
        kept(sorted, p).len() == sorted.len() - 2 * trim_count(sorted.len(), p),
        kept(sorted, p).len() >= 1,
        outcome(sorted, p) == rendered(mean(kept(sorted, p))),
{
    lemma_trim_leaves_some(sorted.len(), p);
}

/// Under the proportion zero every observation is averaged.
pub proof fn lemma_zero_keeps_all(sorted: Seq<Fixed>, p: Fixed)
    requires
        p.units() == 0,
    ensures
        kept(sorted, p) == sorted,
        sorted.len() >= 1 ==> outcome(sorted, p) == rendered(mean(sorted)),
{
    lemma_zero_cuts_nothing(sorted.len(), p);
    assert(kept(sorted, p) =~= sorted);
}

/// A group without observations has no value, which is no error.
pub proof fn lemma_empty_group_has_no_value(arranged: State, before: State)
    requires
        before.values.len() == 0,
        arranged.arranges(before),
    ensures
        arranged.result() == Ok::<Option<Seq<char>>, ProcessError>(None),
{
    lemma_rearranged_length(before.values, arranged.values);
}

/// Rows that stand for no decimal leave the accumulator as it was.
pub proof fn lemma_unusable_rows_change_nothing(state: State, rows: Seq<Value>)
    requires
        forall|i: int| 0 <= i < rows.len() ==> coerced(#[trigger] rows[i]) is None,
    ensures
        state.fed(rows) == state,
    decreases rows.len(),
{
    if rows.len() > 0 {
        lemma_unusable_rows_change_nothing(state, rows.drop_last());
    }
}

/// What a run of rows adds to an accumulator does not depend on what the
/// accumulator held before: the same decimals are appended, in the same
/// order, and the proportion stays.
pub proof fn lemma_fed_appends(state: State, rows: Seq<Value>)
    ensures
        state.fed(rows).proportion == state.proportion,
        state.fed(rows).values == state.values + State::fresh(state.proportion).fed(rows).values,
    decreases rows.len(),
{
    let empty = State::fresh(state.proportion);
    if rows.len() > 0 {
        lemma_fed_appends(state, rows.drop_last());
        lemma_fed_appends(empty, rows.drop_last());
        let front = state.fed(rows.drop_last());
        let alone = empty.fed(rows.drop_last());
        assert(alone.values =~= empty.values + alone.values);
        match coerced(rows.last()) {
            Some(d) => {
                assert(front.values.push(d) =~= state.values + alone.values.push(d));
            },
            None => {},
        }
    } else {
        assert(state.values =~= state.values + empty.values);
    }
}

/// The result depends on which observations a group holds, not on the
/// order in which they arrived.
pub proof fn lemma_result_ignores_arrival_order(
    first: State,
    second: State,
    first_arranged: State,
    second_arranged: State,
)
    requires
        first.proportion == second.proportion,
        first.values.to_multiset() == second.values.to_multiset(),
        first_arranged.arranges(first),
        second_arranged.arranges(second),
    ensures
        first_arranged == second_arranged,
        first_arranged.result() == second_arranged.result(),
{
    lemma_ascending_is_unique(first_arranged.values, second_arranged.values);
}

/// Clearing an accumulator that was finalized and taking the same rows in
/// again leads to the same result as the first run did.
pub proof fn lemma_rerun_gives_same_result(
    start: State,
    rows: Seq<Value>,
    first_run: State,
    second_run: State,
)
    requires
        start.values.len() == 0,
        first_run.arranges(start.fed(rows)),
        second_run.arranges(first_run.cleared().fed(rows)),
    ensures
        second_run == first_run,
        second_run.result() == first_run.result(),
{
    lemma_fed_appends(start, rows);
    lemma_fed_appends(first_run.cleared(), rows);
    assert(start.values =~= Seq::<Fixed>::empty());
    assert(start.fed(rows).values =~= first_run.cleared().fed(rows).values);
    lemma_ascending_is_unique(first_run.values, second_run.values);
}

impl Trimmean {
    /// The state that the accumulator holds is well formed.
    pub open spec fn wf(&self) -> bool {
        self@.wf()
    }

    /// Sets a group up from its two arguments, the value column and the
    /// proportion: an empty accumulator under that proportion, or the
    /// message of the first check that fails.
    pub fn init(args: &[Value]) -> (r: Result<Trimmean, String>)
        ensures
            match validated(args@) {
                Ok(p) => r matches Ok(t) && t.wf() && t@ == State::fresh(p),
                Err(e) => r matches Err(message) && message@ == e.text(),
            },
    {
        match validate(args) {
            Ok(proportion) => Ok(Trimmean { values: Vec::new(), proportion }),
            Err(e) => Err(e.message()),
        }
    }

    /// Takes one row in: its value is appended where it stands for a
    /// decimal; a row that stands for none is skipped and reported with
    /// `ROW_SKIPPED`.
    pub fn add(&mut self, value: &Value) -> (r: Result<(), u8>)
        requires
            old(self).wf(),
        ensures
            final(self).wf(),
            final(self)@ == old(self)@.taken(*value),
            r == (if coerced(*value) is Some {
                Ok::<(), u8>(())
            } else {
                Err::<(), u8>(ROW_SKIPPED)
            }),
    {
        match coerce(value) {
            Some(d) => {
                self.values.push(d);
                Ok(())
            },
            None => Err(ROW_SKIPPED),
        }
    }

    /// Empties the accumulator for the next group; the proportion stays.
    pub fn clear(&mut self) -> (r: Result<(), u8>)
        ensures
            r == Ok::<(), u8>(()),
            final(self)@ == old(self)@.cleared(),
            old(self).wf() ==> final(self).wf(),
    {
        self.values.clear();
        Ok(())
    }

    /// Finalizes the group: arranges the observations in ascending order,
    /// leaves out `⌊(n · p) / 2⌋` of them at each end and returns the mean
    /// of the rest as text, or no value for an empty group.
    pub fn process(&mut self) -> (r: Result<Option<String>, ProcessError>)
        requires
            old(self).wf(),
        ensures
            final(self).wf(),
            final(self)@.arranges(old(self)@),
            final(self)@.values.len() == old(self)@.values.len(),
            agrees(r, final(self)@.result()),
    {
        let n: usize = self.values.len();
        let ghost before = self.values@;
        sort_ascending(&mut self.values);
        proof {
            lemma_rearranged(before, self.values@);
        }
        if n == 0 {
            return Ok(None);
        }
        let trim: usize = count_to_trim(n, &self.proportion);
        render(mean_of(&self.values, trim, n - trim))
    }

    /// The number of observations taken in since the group began.
    pub fn len(&self) -> (n: usize)
        ensures
            n == self@.values.len(),
    {
        self.values.len()
    }

    /// The proportion that the group was set up with.
    pub fn proportion(&self) -> (p: Fixed)
        ensures
            p == self@.proportion,
    {
        self.proportion
    }
}

} // verus!
