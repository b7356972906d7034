//! Finding the first of the positions at which something holds.
use vstd::prelude::*;

verus! {

/// The first position below `n` at which `hit` holds.
pub open spec fn first_hit(n: int, hit: spec_fn(int) -> bool) -> Option<int>
    decreases n,
{
    if n <= 0 {
        None
    } else {
        match first_hit(n - 1, hit) {
            Some(i) => Some(i),
            None => if hit(n - 1) {
                Some(n - 1)
            } else {
                None
            },
        }
    }
}

/// `first_hit` finds a position where `hit` holds, the lowest one, and finds
/// none only where there is none.
pub proof fn lemma_first_hit(n: int, hit: spec_fn(int) -> bool)
    ensures
        match first_hit(n, hit) {
            Some(i) => 0 <= i < n && hit(i) && forall|j: int| 0 <= j < i ==> !#[trigger] hit(j),
            None => forall|j: int| 0 <= j < n ==> !#[trigger] hit(j),
        },
    decreases n,
{
    if n > 0 {
        lemma_first_hit(n - 1, hit);
    }
}

} // verus!
