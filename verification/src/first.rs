//! The first failure among checks that run in a fixed order.

use vstd::prelude::*;

verus! {

/// The result of the first of the checks `0..n` that fails, if any fails.
pub open spec fn first_at<E>(n: int, check: spec_fn(int) -> Option<E>) -> Option<E>
    decreases n,
{
    if n <= 0 {
        None
    } else {
        match first_at(n - 1, check) {
            Some(e) => Some(e),
            None => check(n - 1),
        }
    }
}

/// No failure is found exactly when every check passes.
pub proof fn lemma_first_at_none<E>(n: int, check: spec_fn(int) -> Option<E>)
    ensures
        first_at(n, check) is None <==> forall|i: int| 0 <= i < n ==> (#[trigger] check(i)) is None,
    decreases n,
{
    if n > 0 {
        lemma_first_at_none(n - 1, check);
        if first_at(n, check) is None {
            assert forall|i: int| 0 <= i < n implies (#[trigger] check(i)) is None by {
                if i == n - 1 {
                } else {
                    assert(0 <= i < n - 1);
                }
            }
        } else {
            if first_at(n - 1, check) is None {
                assert(check(n - 1) is Some);
            }
        }
    }
}

/// A failure that is found stays the first one when more checks follow.
pub proof fn lemma_first_at_stays<E>(m: int, n: int, check: spec_fn(int) -> Option<E>)
    requires
        m <= n,
        first_at(m, check) is Some,
    ensures
        first_at(n, check) == first_at(m, check),
    decreases n - m,
{
    if m < n {
        lemma_first_at_stays(m, n - 1, check);
    }
}

/// A failure that is found is the result of some check, and every check
/// before that one passes.
pub proof fn lemma_first_at_some<E>(n: int, check: spec_fn(int) -> Option<E>) -> (i: int)
    requires
        first_at(n, check) is Some,
    ensures
        0 <= i < n,
        check(i) == first_at(n, check),
        forall|j: int| 0 <= j < i ==> (#[trigger] check(j)) is None,
    decreases n,
{
    if first_at(n - 1, check) is Some {
        lemma_first_at_some(n - 1, check)
    } else {
        lemma_first_at_none(n - 1, check);
        n - 1
    }
}

} // verus!
