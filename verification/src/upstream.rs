//! The upstream service as a fixed assignment of replies to requests, and
//! what a sweep against it must collect.

use vstd::prelude::*;
use vstd::multiset::Multiset;
use crate::classify::{route_of, RouteView};
use crate::collector::yield_of;
use crate::directory::directory_outcome;
use crate::leaf::PageMarkers;
use crate::model::{CityView, ReplyView, StoreView};
use crate::schedule::{city_outcome, listed_rows, SweepView};

verus! {

/// An upstream that does not change: each request has one reply.
pub struct Upstream {
    /// The reply to the listing request of a region.
    pub directory: spec_fn(Seq<char>) -> ReplyView,
    /// The reply to the listing request of a region and a city.
    pub listing: spec_fn(Seq<char>, Seq<char>) -> ReplyView,
    /// The reply to the request of a store's detail page.
    pub page: spec_fn(u64) -> ReplyView,
}

/// The reply that the upstream gives to the one fetch made for a city.
pub open spec fn answer_for(upstream: Upstream, city: CityView) -> ReplyView {
    match route_of(city) {
        RouteView::Leaf(store_id) => (upstream.page)(store_id),
        RouteView::Branch(region, name) => (upstream.listing)(region, name),
    }
}

/// The stores that a city yields against an upstream.
pub open spec fn city_yield(markers: PageMarkers, upstream: Upstream, city: CityView) -> Multiset<
    StoreView,
> {
    yield_of(city_outcome(markers, city, answer_for(upstream, city))).to_multiset()
}

/// The stores that a sequence of cities yields against an upstream.
pub open spec fn rows_yield(markers: PageMarkers, upstream: Upstream, rows: Seq<CityView>) -> Multiset<
    StoreView,
>
    decreases rows.len(),
{
    if rows.len() == 0 {
        Multiset::empty()
    } else {
        rows_yield(markers, upstream, rows.drop_last()).add(
            city_yield(markers, upstream, rows.last()),
        )
    }
}

/// The city rows that the upstream lists for a region.
pub open spec fn region_rows(upstream: Upstream, region: Seq<char>) -> Seq<CityView> {
    listed_rows(directory_outcome(region, (upstream.directory)(region)))
}

/// The stores that a region yields against an upstream.
pub open spec fn region_yield(markers: PageMarkers, upstream: Upstream, region: Seq<char>) -> Multiset<
    StoreView,
> {
    rows_yield(markers, upstream, region_rows(upstream, region))
}

/// The stores that a sweep over the given regions must end with.
pub open spec fn expected(markers: PageMarkers, upstream: Upstream, regions: Seq<Seq<char>>) -> Multiset<
    StoreView,
>
    decreases regions.len(),
{
    if regions.len() == 0 {
        Multiset::empty()
    } else {
        expected(markers, upstream, regions.drop_last()).add(
            region_yield(markers, upstream, regions.last()),
        )
    }
}

/// What the first `n` cities of a state still owe: the yield of those whose
/// fetch has not been answered.
pub open spec fn owed_by_cities(state: SweepView, upstream: Upstream, n: nat) -> Multiset<StoreView>
    decreases n,
{
    if n == 0 {
        Multiset::empty()
    } else {
        owed_by_cities(state, upstream, (n - 1) as nat).add(
            if state.city_open((n - 1) as usize) {
                city_yield(state.markers, upstream, state.cities[n - 1])
            } else {
                Multiset::empty()
            },
        )
    }
}

/// What the first `n` regions of a state still owe: the yield of those
/// whose listing has not been answered.
pub open spec fn owed_by_regions(state: SweepView, upstream: Upstream, n: nat) -> Multiset<
    StoreView,
>
    decreases n,
{
    if n == 0 {
        Multiset::empty()
    } else {
        owed_by_regions(state, upstream, (n - 1) as nat).add(
            if state.region_open((n - 1) as usize) {
                region_yield(state.markers, upstream, state.regions[n - 1])
            } else {
                Multiset::empty()
            },
        )
    }
}

/// What a state holds and what it still owes, together.
pub open spec fn balance(state: SweepView, upstream: Upstream) -> Multiset<StoreView> {
    state.stores.to_multiset().add(owed_by_cities(state, upstream, state.cities.len())).add(
        owed_by_regions(state, upstream, state.regions.len()),
    )
}

} // verus!
