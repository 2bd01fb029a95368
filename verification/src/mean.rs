//! The mean of a run of decimals.

use crate::decimal::{checked_quotient, checked_sum, decimal_quotient, decimal_sum};
use crate::fixed::Fixed;
use crate::order::all_wf;
use vstd::prelude::*;

verus! {

/// The sum of a run of decimals, added one after the other from zero, from
/// the first element on; `None` as soon as one addition overflows.
pub open spec fn total(s: Seq<Fixed>) -> Option<Fixed>
    decreases s.len(),
{
    if s.len() == 0 {
        Some(Fixed::zero())
    } else {
        match total(s.drop_last()) {
            Some(t) => decimal_sum(t, s.last()),
            None => None,
        }
    }
}

/// The sum of a run divided by the number of its elements; `None` where the
/// sum or the division has no result.
pub open spec fn mean(s: Seq<Fixed>) -> Option<Fixed> {
    match total(s) {
        Some(t) => decimal_quotient(t, Fixed::whole(s.len() as int)),
        None => None,
    }
}

/// Once the sum of a front part of a run has overflowed, so has the sum of
/// the whole run.
pub proof fn lemma_total_stays_none(s: Seq<Fixed>, k: int)
    requires
        0 <= k <= s.len(),
        total(s.take(k)) is None,
    ensures
        total(s) is None,
    decreases s.len() - k,
{
    if k < s.len() {
        assert(s.take(k + 1).drop_last() =~= s.take(k));
        lemma_total_stays_none(s, k + 1);
    } else {
        assert(s.take(k) =~= s);
    }
}

/// Adds up `values[from..to]`.
pub fn sum_of(values: &Vec<Fixed>, from: usize, to: usize) -> (r: Option<Fixed>)
    requires
        from <= to <= values.len(),
        all_wf(values@),
    ensures
        r == total(values@.subrange(from as int, to as int)),
        r matches Some(t) ==> t.wf(),
{
    let ghost run = values@.subrange(from as int, to as int);
    let mut sum: Fixed = Fixed::from_i64(0);
    let mut i: usize = from;
    assert(run.take(0) =~= Seq::<Fixed>::empty());
    while i < to
        invariant
            from <= i <= to <= values.len(),
            all_wf(values@),
            run == values@.subrange(from as int, to as int),
            sum.wf(),
            total(run.take(i - from)) == Some(sum),
        decreases to - i,
    {
        proof {
            assert(run.take(i + 1 - from).drop_last() =~= run.take(i - from));
            assert(run.take(i + 1 - from).last() == values@[i as int]);
        }
        match checked_sum(&sum, &values[i]) {
            Some(next) => {
                sum = next;
            },
            None => {
                proof {
                    lemma_total_stays_none(run, i + 1 - from);
                }
                return None;
            },
        }
        i = i + 1;
    }
    assert(run.take(to - from) =~= run);
    Some(sum)
}

/// The mean of `values[from..to]`.
pub fn mean_of(values: &Vec<Fixed>, from: usize, to: usize) -> (r: Option<Fixed>)
    requires
        from <= to <= values.len(),
        all_wf(values@),
    ensures
        r == mean(values@.subrange(from as int, to as int)),
        r matches Some(m) ==> m.wf(),
{
    match sum_of(values, from, to) {
        Some(sum) => {
            let count: Fixed = Fixed { mantissa: (to - from) as i128, scale: 0 };
            checked_quotient(&sum, &count)
        },
        None => None,
    }
}

} // verus!
