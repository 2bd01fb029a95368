//! The order in which observations are arranged before trimming.

use crate::decimal::{rank, Rank};
use crate::fixed::{lemma_units_and_scale_determine, Fixed};
use std::cmp::Ordering;
use vstd::prelude::*;
use vstd::relations::{sorted_by, total_ordering};
use vstd::seq_lib::lemma_sorted_unique;

verus! {

/// `a` stands no later than `b`: the smaller number first, and of two
/// decimals that denote the same number the one with fewer decimal places.
pub open spec fn precedes(a: Fixed, b: Fixed) -> bool {
    a.units() < b.units() || (a.units() == b.units() && a.scale <= b.scale)
}

/// `precedes` as a relation.
pub open spec fn precedence() -> spec_fn(Fixed, Fixed) -> bool {
    |a: Fixed, b: Fixed| precedes(a, b)
}

/// Every element stands no later than those behind it.
pub open spec fn ascending(s: Seq<Fixed>) -> bool {
    sorted_by(s, precedence())
}

/// Every element is a well-formed decimal.
pub open spec fn all_wf(s: Seq<Fixed>) -> bool {
    forall|i: int| 0 <= i < s.len() ==> (#[trigger] s[i]).wf()
}

/// `precedes` is a total order on decimals: two decimals stand level only
/// when they are the same decimal.
pub proof fn lemma_precedence_is_total()
    ensures
        total_ordering(precedence()),
{
    assert forall|x: Fixed, y: Fixed| #[trigger]
        precedence()(x, y) && #[trigger] precedence()(y, x) implies x == y by {
        lemma_units_and_scale_determine(x, y);
    }
}

/// A collection of decimals has one ascending arrangement only.
pub proof fn lemma_ascending_is_unique(x: Seq<Fixed>, y: Seq<Fixed>)
    requires
        ascending(x),
        ascending(y),
        x.to_multiset() == y.to_multiset(),
    ensures
        x == y,
{
    lemma_precedence_is_total();
    lemma_sorted_unique(x, y, precedence());
}

/// How `a` stands to `b` in the order of `precedes`.
pub fn ordering_of(a: &Fixed, b: &Fixed) -> (r: Ordering)
    requires
        a.wf(),
        b.wf(),
    ensures
        r == Ordering::Less <==> precedes(*a, *b) && *a != *b,
        r == Ordering::Equal <==> *a == *b,
        r == Ordering::Greater <==> !precedes(*a, *b),
{
    match rank(a, b) {
        Rank::Below => Ordering::Less,
        Rank::Above => Ordering::Greater,
        Rank::Level => {
            if a.scale < b.scale {
                Ordering::Less
            } else if a.scale > b.scale {
                Ordering::Greater
            } else {
                proof {
                    lemma_units_and_scale_determine(*a, *b);
                }
                Ordering::Equal
            }
        },
    }
}

/// Calls `sort_unstable_by` of std's slices, with `ordering_of` as the
/// comparison. Trusted: given a total order it leaves the same elements in
/// the vector, arranged in ascending order.
#[verifier::external_body]
pub(crate) fn sort_ascending(values: &mut Vec<Fixed>)
    requires
        all_wf(old(values)@),
    ensures
        ascending(final(values)@),
        final(values)@.to_multiset() == old(values)@.to_multiset(),
{
    values.sort_unstable_by(|a, b| ordering_of(a, b));
}

} // verus!
