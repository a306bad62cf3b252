//! How the number of a region's open cities moves with the sweep.

use vstd::prelude::*;
use crate::schedule::SweepView;

verus! {

/// Two states with the same origins, whose first `n` cities are open in
/// the one where they are open in the other, count the same.
pub proof fn lemma_open_from_agrees(a: SweepView, b: SweepView, index: usize, n: nat)
    requires
        n <= a.origins.len(),
        n <= b.origins.len(),
        n <= usize::MAX,
        forall|i: int| 0 <= i < n ==> a.origins[i] == b.origins[i],
        forall|i: usize| i < n ==> a.city_open(i) == b.city_open(i),
    ensures
        a.open_from(index, n) == b.open_from(index, n),
    decreases n,
{
    if n > 0 {
        lemma_open_from_agrees(a, b, index, (n - 1) as nat);
        assert(a.origins[n - 1] == b.origins[n - 1]);
    }
}

/// Where one city is open in the first state and answered in the second,
/// and nothing else differs, the region it comes from counts one more in
/// the first, and every other region the same.
pub proof fn lemma_open_from_settles(
    a: SweepView,
    b: SweepView,
    index: usize,
    n: nat,
    ticket: usize,
)
    requires
        n <= a.origins.len(),
        n <= b.origins.len(),
        n <= usize::MAX,
        ticket < n,
        a.city_open(ticket),
        !b.city_open(ticket),
        forall|i: int| 0 <= i < n ==> a.origins[i] == b.origins[i],
        forall|i: usize| i < n && i != ticket ==> a.city_open(i) == b.city_open(i),
    ensures
        a.open_from(index, n) == b.open_from(index, n) + if a.origins[ticket as int] == index {
            1nat
        } else {
            0nat
        },
    decreases n,
{
    assert(a.origins[n - 1] == b.origins[n - 1]);
    if n - 1 == ticket {
        lemma_open_from_agrees(a, b, index, (n - 1) as nat);
    } else {
        lemma_open_from_settles(a, b, index, (n - 1) as nat, ticket);
    }
}

/// A region from which none of the first `n` cities comes counts none.
pub proof fn lemma_open_from_none(state: SweepView, index: usize, n: nat)
    requires
        n <= state.origins.len(),
        forall|i: int| 0 <= i < n ==> state.origins[i] != index,
    ensures
        state.open_from(index, n) == 0,
    decreases n,
{
    if n > 0 {
        lemma_open_from_none(state, index, (n - 1) as nat);
    }
}

/// Open cities that all come from one region add their number to that
/// region's count, and nothing to any other.
pub proof fn lemma_open_from_extends(
    state: SweepView,
    index: usize,
    from: nat,
    n: nat,
    origin: usize,
)
    requires
        from <= n <= state.origins.len(),
        n <= usize::MAX,
        forall|i: int| from <= i < n ==> state.origins[i] == origin,
        forall|i: usize| from <= i < n ==> state.city_open(i),
    ensures
        state.open_from(index, n) == state.open_from(index, from) + if origin == index {
            (n - from) as nat
        } else {
            0nat
        },
    decreases n - from,
{
    if n > from {
        lemma_open_from_extends(state, index, from, (n - 1) as nat, origin);
        assert(state.origins[n - 1] == origin);
        assert(state.city_open((n - 1) as usize));
    }
}

} // verus!
