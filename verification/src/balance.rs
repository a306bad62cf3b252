//! What a sweep holds and what it still owes add up to the same stores at
//! every step, so a sweep that ends holds what the upstream determines, in
//! whatever order the replies came.

use vstd::prelude::*;
use vstd::multiset::Multiset;
use crate::schedule::SweepView;
use crate::upstream::{
    city_yield, expected, owed_by_cities, owed_by_regions, region_yield, rows_yield, Upstream,
};

verus! {

/// Two states with the same first `n` cities, open in the one where they
/// are open in the other, owe the same for them.
pub proof fn lemma_owed_by_cities_agrees(a: SweepView, b: SweepView, upstream: Upstream, n: nat)
    requires
        a.markers == b.markers,
        n <= a.cities.len(),
        n <= b.cities.len(),
        n <= usize::MAX,
        forall|i: int| 0 <= i < n ==> a.cities[i] == b.cities[i],
        forall|i: usize| i < n ==> a.city_open(i) == b.city_open(i),
    ensures
        owed_by_cities(a, upstream, n) == owed_by_cities(b, upstream, n),
    decreases n,
{
    if n > 0 {
        lemma_owed_by_cities_agrees(a, b, upstream, (n - 1) as nat);
        assert(a.cities[n - 1] == b.cities[n - 1]);
    }
}

/// Where one city is open in the first state and answered in the second,
/// and nothing else differs, the first owes that city's yield more.
pub proof fn lemma_owed_by_cities_settles(
    a: SweepView,
    b: SweepView,
    upstream: Upstream,
    n: nat,
    ticket: usize,
)
    requires
        a.markers == b.markers,
        n <= a.cities.len(),
        n <= b.cities.len(),
        n <= usize::MAX,
        ticket < n,
        a.city_open(ticket),
        !b.city_open(ticket),
        forall|i: int| 0 <= i < n ==> a.cities[i] == b.cities[i],
        forall|i: usize| i < n && i != ticket ==> a.city_open(i) == b.city_open(i),
    ensures
        owed_by_cities(a, upstream, n) =~= owed_by_cities(b, upstream, n).add(
            city_yield(a.markers, upstream, a.cities[ticket as int]),
        ),
    decreases n,
{
    assert(a.cities[n - 1] == b.cities[n - 1]);
    if n - 1 == ticket {
        lemma_owed_by_cities_agrees(a, b, upstream, (n - 1) as nat);
    } else {
        lemma_owed_by_cities_settles(a, b, upstream, (n - 1) as nat, ticket);
    }
}

/// Cities that are all open owe the yield of their rows.
pub proof fn lemma_owed_by_cities_extends(state: SweepView, upstream: Upstream, from: nat, n: nat)
    requires
        from <= n <= state.cities.len(),
        n <= usize::MAX,
        forall|i: usize| from <= i < n ==> state.city_open(i),
    ensures
        owed_by_cities(state, upstream, n) =~= owed_by_cities(state, upstream, from).add(
            rows_yield(state.markers, upstream, state.cities.subrange(from as int, n as int)),
        ),
    decreases n - from,
{
    let rows = state.cities.subrange(from as int, n as int);
    if n > from {
        lemma_owed_by_cities_extends(state, upstream, from, (n - 1) as nat);
        assert(rows.drop_last() =~= state.cities.subrange(from as int, n - 1));
        assert(rows.last() == state.cities[n - 1]);
        assert(state.city_open((n - 1) as usize));
    }
}

/// Two states with the same regions, open in the one where they are open
/// in the other, owe the same for them.
pub proof fn lemma_owed_by_regions_agrees(a: SweepView, b: SweepView, upstream: Upstream, n: nat)
    requires
        a.markers == b.markers,
        a.regions == b.regions,
        n <= a.regions.len(),
        n <= usize::MAX,
        forall|i: usize| i < n ==> a.region_open(i) == b.region_open(i),
    ensures
        owed_by_regions(a, upstream, n) == owed_by_regions(b, upstream, n),
    decreases n,
{
    if n > 0 {
        lemma_owed_by_regions_agrees(a, b, upstream, (n - 1) as nat);
    }
}

/// Where one region is open in the first state and answered in the second,
/// and nothing else differs, the first owes that region's yield more.
pub proof fn lemma_owed_by_regions_settles(
    a: SweepView,
    b: SweepView,
    upstream: Upstream,
    n: nat,
    index: usize,
)
    requires
        a.markers == b.markers,
        a.regions == b.regions,
        n <= a.regions.len(),
        n <= usize::MAX,
        index < n,
        a.region_open(index),
        !b.region_open(index),
        forall|i: usize| i < n && i != index ==> a.region_open(i) == b.region_open(i),
    ensures
        owed_by_regions(a, upstream, n) =~= owed_by_regions(b, upstream, n).add(
            region_yield(a.markers, upstream, a.regions[index as int]),
        ),
    decreases n,
{
    if n - 1 == index {
        lemma_owed_by_regions_agrees(a, b, upstream, (n - 1) as nat);
    } else {
        lemma_owed_by_regions_settles(a, b, upstream, (n - 1) as nat, index);
    }
}

/// Regions that are all open owe what is expected of them.
pub proof fn lemma_owed_by_open_regions(state: SweepView, upstream: Upstream, n: nat)
    requires
        n <= state.regions.len(),
        n <= usize::MAX,
        forall|i: usize| i < n ==> state.region_open(i),
    ensures
        owed_by_regions(state, upstream, n) == expected(
            state.markers,
            upstream,
            state.regions.take(n as int),
        ),
    decreases n,
{
    if n > 0 {
        lemma_owed_by_open_regions(state, upstream, (n - 1) as nat);
        assert(state.regions.take(n as int).drop_last() =~= state.regions.take(n - 1));
        assert(state.region_open((n - 1) as usize));
    }
}

/// Cities that are all answered owe nothing.
pub proof fn lemma_answered_cities_owe_nothing(state: SweepView, upstream: Upstream, n: nat)
    requires
        n <= usize::MAX,
        forall|i: usize| i < n ==> !state.city_open(i),
    ensures
        owed_by_cities(state, upstream, n) =~= Multiset::empty(),
    decreases n,
{
    if n > 0 {
        lemma_answered_cities_owe_nothing(state, upstream, (n - 1) as nat);
        assert(!state.city_open((n - 1) as usize));
    }
}

/// Regions that are all answered owe nothing.
pub proof fn lemma_answered_regions_owe_nothing(state: SweepView, upstream: Upstream, n: nat)
    requires
        n <= usize::MAX,
        forall|i: usize| i < n ==> !state.region_open(i),
    ensures
        owed_by_regions(state, upstream, n) =~= Multiset::empty(),
    decreases n,
{
    if n > 0 {
        lemma_answered_regions_owe_nothing(state, upstream, (n - 1) as nat);
        assert(!state.region_open((n - 1) as usize));
    }
}

} // verus!
