//! The tolerance-equality composer.
//!
//! An aggregate-level tolerance comparison is the conjunction of one
//! scalar comparison per ordinal, over the full field list; the negative
//! form is the disjunction of the per-ordinal negatives. The scalar
//! comparisons themselves are numeric work on IEEE-754 values and happen
//! outside this crate; the composer takes their outcomes, one per
//! ordinal, and folds them.

use vstd::prelude::*;

verus! {

/// The aggregate-level positive comparison: every ordinal's scalar
/// comparison held.
pub fn all_components(outcomes: &Vec<bool>) -> (r: bool)
    ensures
        r == (forall|i: int| 0 <= i < outcomes@.len() ==> outcomes@[i]),
{
    let mut i: usize = 0;
    while i < outcomes.len()
        invariant
            i <= outcomes@.len(),
            forall|k: int| 0 <= k < i ==> outcomes@[k],
        decreases outcomes@.len() - i,
    {
        if !outcomes[i] {
            return false;
        }
        i += 1;
    }
    true
}

/// The aggregate-level negative comparison: some ordinal's negative
/// scalar comparison held.
pub fn any_component(outcomes: &Vec<bool>) -> (r: bool)
    ensures
        r == (exists|i: int| 0 <= i < outcomes@.len() && outcomes@[i]),
{
    let mut i: usize = 0;
    while i < outcomes.len()
        invariant
            i <= outcomes@.len(),
            forall|k: int| 0 <= k < i ==> !outcomes@[k],
        decreases outcomes@.len() - i,
    {
        if outcomes[i] {
            return true;
        }
        i += 1;
    }
    false
}

/// With the negative outcome of each ordinal the negation of its
/// positive outcome — as it is for the scalar comparisons this composer
/// serves — the folded negative comparison is exactly the negation of
/// the folded positive one.
pub proof fn lemma_negative_fold(pos: Seq<bool>, neg: Seq<bool>)
    requires
        pos.len() == neg.len(),
        forall|i: int| 0 <= i < pos.len() ==> neg[i] == !pos[i],
    ensures
        (exists|i: int| 0 <= i < neg.len() && neg[i]) == !(forall|i: int|
            0 <= i < pos.len() ==> pos[i]),
{
    if exists|i: int| 0 <= i < neg.len() && neg[i] {
        let i = choose|i: int| 0 <= i < neg.len() && neg[i];
        assert(!pos[i]);
    }
}

} // verus!
