//! Every transition of the sweep keeps its invariant.

use vstd::prelude::*;
use crate::collector::{expansion_size, yield_of};
use crate::counting::{
    lemma_open_from_agrees, lemma_open_from_extends, lemma_open_from_none, lemma_open_from_settles,
};
use crate::directory::directory_outcome;
use crate::leaf::PageMarkers;
use crate::model::ReplyView;
use crate::schedule::{city_outcome, lemma_with, lemma_without, listed_rows, SweepView};

verus! {

/// A sweep that has the rows of a reply to fit beside the cities it holds.
pub open spec fn rows_fit(state: SweepView, index: usize, reply: ReplyView) -> bool {
    state.cities.len() + listed_rows(
        directory_outcome(state.regions[index as int], reply),
    ).len() <= usize::MAX
}

/// The initial state of a sweep with a budget of at least one for each
/// stage is well formed.
pub proof fn lemma_initial_wf(
    markers: PageMarkers,
    regions: Seq<Seq<char>>,
    stage1_limit: usize,
    stage2_limit: usize,
)
    requires
        stage1_limit >= 1,
        stage2_limit >= 1,
        regions.len() <= usize::MAX,
    ensures
        SweepView::initial(markers, regions, stage1_limit, stage2_limit).wf(),
{
    let state = SweepView::initial(markers, regions, stage1_limit, stage2_limit);
    assert forall|r: int| 0 <= r < state.regions.len() implies #[trigger] state.tally_wf(r) by {}
}

/// Starting a region keeps the invariant.
pub proof fn lemma_start_region_wf(state: SweepView)
    requires
        state.wf(),
        state.can_start_region(),
    ensures
        state.start_region().wf(),
{
    let next = state.start_region();
    lemma_with(state.stage1_jobs, state.next_region);
    assert forall|i: int, j: int|
        0 <= i < next.stage1_jobs.len() && 0 <= j < next.stage1_jobs.len() && i != j implies next.stage1_jobs[i]
        != next.stage1_jobs[j] by {
        if i < state.stage1_jobs.len() {
            assert(state.stage1_jobs[i] < state.next_region);
        }
        if j < state.stage1_jobs.len() {
            assert(state.stage1_jobs[j] < state.next_region);
        }
    }
    assert forall|j: int| 0 <= j < next.stage1_jobs.len() implies #[trigger] next.stage1_jobs[j]
        < next.next_region by {
        if j < state.stage1_jobs.len() {
            assert(state.stage1_jobs[j] < state.next_region);
        }
    }
    assert forall|index: usize| next.region_open(index) == state.region_open(index) by {}
    assert forall|i: int| 0 <= i < next.cities.len() implies {
        &&& !next.region_open(#[trigger] next.origins[i])
        &&& next.cities[i].region == next.regions[next.origins[i] as int]
    } by {
        assert(!state.region_open(state.origins[i]));
    }
    assert forall|r: int| 0 <= r < next.regions.len() implies #[trigger] next.tally_wf(r) by {
        assert(state.tally_wf(r));
        lemma_open_from_agrees(state, next, r as usize, state.cities.len());
    }
}

/// Starting a city keeps the invariant.
pub proof fn lemma_start_city_wf(state: SweepView)
    requires
        state.wf(),
        state.can_start_city(),
    ensures
        state.start_city().wf(),
{
    let next = state.start_city();
    assert forall|i: int, j: int|
        0 <= i < next.stage2_jobs.len() && 0 <= j < next.stage2_jobs.len() && i != j implies next.stage2_jobs[i]
        != next.stage2_jobs[j] by {
        if i < state.stage2_jobs.len() {
            assert(state.stage2_jobs[i] < state.next_city);
        }
        if j < state.stage2_jobs.len() {
            assert(state.stage2_jobs[j] < state.next_city);
        }
    }
    assert forall|j: int| 0 <= j < next.stage2_jobs.len() implies #[trigger] next.stage2_jobs[j]
        < next.next_city by {
        if j < state.stage2_jobs.len() {
            assert(state.stage2_jobs[j] < state.next_city);
        }
    }
    assert forall|i: int| 0 <= i < next.cities.len() implies {
        &&& !next.region_open(#[trigger] next.origins[i])
        &&& next.cities[i].region == next.regions[next.origins[i] as int]
    } by {
        assert(!state.region_open(state.origins[i]));
    }
    lemma_with(state.stage2_jobs, state.next_city);
    assert forall|i: usize| i < state.cities.len() implies state.city_open(i) == next.city_open(
        i,
    ) by {}
    assert forall|r: int| 0 <= r < next.regions.len() implies #[trigger] next.tally_wf(r) by {
        assert(state.tally_wf(r));
        lemma_open_from_agrees(state, next, r as usize, state.cities.len());
    }
}

/// Answering a listing in flight keeps the invariant, where its rows fit.
pub proof fn lemma_finish_region_wf(state: SweepView, index: usize, reply: ReplyView)
    requires
        state.wf(),
        state.stage1_jobs.contains(index),
        rows_fit(state, index, reply),
    ensures
        state.finish_region(index, reply).wf(),
{
    let next = state.finish_region(index, reply);
    let outcome = directory_outcome(state.regions[index as int], reply);
    let rows = listed_rows(outcome);
    lemma_without(state.stage1_jobs, index);
    let at = choose|j: int| 0 <= j < state.stage1_jobs.len() && state.stage1_jobs[j] == index;
    assert(index < state.next_region);
    assert forall|j: int| 0 <= j < next.stage1_jobs.len() implies #[trigger] next.stage1_jobs[j]
        < next.next_region by {
        assert(state.stage1_jobs.contains(next.stage1_jobs[j]));
        let from = choose|i: int|
            0 <= i < state.stage1_jobs.len() && state.stage1_jobs[i] == next.stage1_jobs[j];
        assert(state.stage1_jobs[from] < state.next_region);
    }
    assert forall|other: usize| other != index implies next.region_open(other) == state.region_open(
        other,
    ) by {
        assert(next.stage1_jobs.contains(other) == state.stage1_jobs.contains(other));
    }
    assert(!next.region_open(index));
    assert forall|i: int| 0 <= i < next.cities.len() implies {
        &&& !next.region_open(#[trigger] next.origins[i])
        &&& next.cities[i].region == next.regions[next.origins[i] as int]
    } by {
        if i < state.cities.len() {
            assert(!state.region_open(state.origins[i]));
            assert(next.origins[i] == state.origins[i]);
            assert(state.origins[i] != index);
        } else {
            assert(next.origins[i] == index);
            assert(next.cities[i] == rows[i - state.cities.len()]);
            lemma_rows_keep_region(state.regions[index as int], reply, i - state.cities.len());
        }
    }
    let held = state.cities.len();
    assert forall|i: usize| held <= i < next.cities.len() implies next.city_open(i) by {}
    assert forall|i: int| 0 <= i < held implies state.origins[i] != index by {
        assert(!state.region_open(state.origins[i]));
    }
    assert forall|r: int| 0 <= r < next.regions.len() implies #[trigger] next.tally_wf(r) by {
        assert(state.tally_wf(r));
        if r != index {
            assert(next.region_open(r as usize) == state.region_open(r as usize));
        }
        lemma_open_from_agrees(state, next, r as usize, held);
        lemma_open_from_extends(next, r as usize, held, next.cities.len(), index);
        if r == index {
            lemma_open_from_none(state, index, held);
        }
    }
}

/// Every row of a listing carries the region that was asked for.
pub proof fn lemma_rows_keep_region(region: Seq<char>, reply: ReplyView, i: int)
    requires
        0 <= i < listed_rows(directory_outcome(region, reply)).len(),
    ensures
        listed_rows(directory_outcome(region, reply))[i].region == region,
{
}

/// Answering the fetch of a city in flight keeps the invariant.
pub proof fn lemma_finish_city_wf(state: SweepView, ticket: usize, reply: ReplyView)
    requires
        state.wf(),
        state.stage2_jobs.contains(ticket),
    ensures
        state.finish_city(ticket, reply).wf(),
{
    let next = state.finish_city(ticket, reply);
    let outcome = city_outcome(state.markers, state.cities[ticket as int], reply);
    lemma_without(state.stage2_jobs, ticket);
    let at = choose|j: int| 0 <= j < state.stage2_jobs.len() && state.stage2_jobs[j] == ticket;
    assert(state.stage2_jobs[at] < state.next_city);
    let origin = state.origins[ticket as int];
    assert(!state.region_open(origin));
    assert(origin < state.regions.len());
    assert forall|j: int| 0 <= j < next.stage2_jobs.len() implies #[trigger] next.stage2_jobs[j]
        < next.next_city by {
        assert(state.stage2_jobs.contains(next.stage2_jobs[j]));
        let from = choose|i: int|
            0 <= i < state.stage2_jobs.len() && state.stage2_jobs[i] == next.stage2_jobs[j];
        assert(state.stage2_jobs[from] < state.next_city);
    }
    assert forall|i: int| 0 <= i < next.cities.len() implies {
        &&& !next.region_open(#[trigger] next.origins[i])
        &&& next.cities[i].region == next.regions[next.origins[i] as int]
    } by {
        assert(!state.region_open(state.origins[i]));
    }
    assert forall|i: usize| i < state.cities.len() && i != ticket implies state.city_open(i)
        == next.city_open(i) by {
        assert(next.stage2_jobs.contains(i) == state.stage2_jobs.contains(i));
    }
    assert forall|r: int| 0 <= r < next.regions.len() implies #[trigger] next.tally_wf(r) by {
        assert(state.tally_wf(r));
        assert(next.region_open(r as usize) == state.region_open(r as usize));
        assert(yield_of(outcome).len() <= 1 || yield_of(outcome).len()
            == expansion_size(outcome));
        lemma_open_from_settles(state, next, r as usize, state.cities.len(), ticket);
    }
}

} // verus!
