//! Sweeps against an unchanged upstream agree: whatever the order in which
//! replies arrive, and whatever the budgets, a sweep that ends has collected
//! the same stores.

use vstd::prelude::*;
use vstd::multiset::Multiset;
use vstd::seq_lib::lemma_multiset_commutative;
use crate::balance::{
    lemma_answered_cities_owe_nothing, lemma_answered_regions_owe_nothing,
    lemma_owed_by_cities_agrees, lemma_owed_by_cities_extends, lemma_owed_by_cities_settles,
    lemma_owed_by_open_regions, lemma_owed_by_regions_agrees, lemma_owed_by_regions_settles,
};
use crate::collector::yield_of;
use crate::directory::directory_outcome;
use crate::leaf::PageMarkers;
use crate::model::{store_ids, StoreView};
use crate::preserve::lemma_initial_wf;
use crate::run::{allowed, apply, enabled, lemma_run_keeps_wf, run, Step};
use crate::schedule::{city_outcome, lemma_with, lemma_without, listed_rows, SweepView};
use crate::upstream::{answer_for, balance, expected, Upstream};

verus! {

/// Whether the reply that a step carries is the one that the upstream
/// gives to the request it answers.
pub open spec fn faithful(upstream: Upstream, state: SweepView, step: Step) -> bool {
    match step {
        Step::FinishRegion { index, reply } => reply == (upstream.directory)(
            state.regions[index as int],
        ),
        Step::FinishCity { ticket, reply } => reply == answer_for(
            upstream,
            state.cities[ticket as int],
        ),
        _ => true,
    }
}

/// Whether every reply of a run is the upstream's.
pub open spec fn faithful_run(upstream: Upstream, state: SweepView, steps: Seq<Step>) -> bool
    decreases steps.len(),
{
    steps.len() == 0 || (faithful_run(upstream, state, steps.drop_last()) && faithful(
        upstream,
        run(state, steps.drop_last()),
        steps.last(),
    ))
}

/// Starting a region changes nothing of what is held and owed.
pub proof fn lemma_start_region_keeps_balance(state: SweepView, upstream: Upstream)
    requires
        state.wf(),
        state.can_start_region(),
    ensures
        balance(state.start_region(), upstream) == balance(state, upstream),
{
    let next = state.start_region();
    lemma_with(state.stage1_jobs, state.next_region);
    assert forall|i: usize| i < state.regions.len() implies state.region_open(i)
        == next.region_open(i) by {}
    lemma_owed_by_regions_agrees(state, next, upstream, state.regions.len());
    lemma_owed_by_cities_agrees(state, next, upstream, state.cities.len());
}

/// Starting a city changes nothing of what is held and owed.
pub proof fn lemma_start_city_keeps_balance(state: SweepView, upstream: Upstream)
    requires
        state.wf(),
        state.can_start_city(),
    ensures
        balance(state.start_city(), upstream) == balance(state, upstream),
{
    let next = state.start_city();
    lemma_with(state.stage2_jobs, state.next_city);
    assert forall|i: usize| i < state.cities.len() implies state.city_open(i) == next.city_open(
        i,
    ) by {}
    lemma_owed_by_regions_agrees(state, next, upstream, state.regions.len());
    lemma_owed_by_cities_agrees(state, next, upstream, state.cities.len());
}

/// The upstream's reply to a listing turns what the region owed into what
/// its cities owe.
pub proof fn lemma_finish_region_keeps_balance(
    state: SweepView,
    upstream: Upstream,
    index: usize,
)
    requires
        state.wf(),
        enabled(
            state,
            Step::FinishRegion { index, reply: (upstream.directory)(state.regions[index as int]) },
        ),
    ensures
        balance(
            state.finish_region(index, (upstream.directory)(state.regions[index as int])),
            upstream,
        ) == balance(state, upstream),
{
    let reply = (upstream.directory)(state.regions[index as int]);
    let next = state.finish_region(index, reply);
    let rows = listed_rows(directory_outcome(state.regions[index as int], reply));
    let held = state.cities.len();
    lemma_without(state.stage1_jobs, index);
    let at = choose|j: int| 0 <= j < state.stage1_jobs.len() && state.stage1_jobs[j] == index;
    assert(state.stage1_jobs[at] < state.next_region);
    assert forall|i: usize| i < state.regions.len() && i != index implies state.region_open(i)
        == next.region_open(i) by {
        assert(next.stage1_jobs.contains(i) == state.stage1_jobs.contains(i));
    }
    lemma_owed_by_regions_settles(state, next, upstream, state.regions.len(), index);
    assert forall|i: int| 0 <= i < held implies state.cities[i] == next.cities[i] by {}
    lemma_owed_by_cities_agrees(state, next, upstream, held);
    assert forall|i: usize| held <= i < next.cities.len() implies next.city_open(i) by {}
    lemma_owed_by_cities_extends(next, upstream, held, next.cities.len());
    assert(next.cities.subrange(held as int, next.cities.len() as int) =~= rows);
    assert(balance(next, upstream) =~= balance(state, upstream));
}

/// The upstream's reply to a city's fetch turns what the city owed into
/// stores that are held.
pub proof fn lemma_finish_city_keeps_balance(state: SweepView, upstream: Upstream, ticket: usize)
    requires
        state.wf(),
        state.stage2_jobs.contains(ticket),
    ensures
        balance(
            state.finish_city(ticket, answer_for(upstream, state.cities[ticket as int])),
            upstream,
        ) == balance(state, upstream),
{
    let reply = answer_for(upstream, state.cities[ticket as int]);
    let next = state.finish_city(ticket, reply);
    let gained = yield_of(city_outcome(state.markers, state.cities[ticket as int], reply));
    lemma_without(state.stage2_jobs, ticket);
    let at = choose|j: int| 0 <= j < state.stage2_jobs.len() && state.stage2_jobs[j] == ticket;
    assert(state.stage2_jobs[at] < state.next_city);
    assert forall|i: usize| i < state.cities.len() && i != ticket implies state.city_open(i)
        == next.city_open(i) by {
        assert(next.stage2_jobs.contains(i) == state.stage2_jobs.contains(i));
    }
    lemma_owed_by_cities_settles(state, next, upstream, state.cities.len(), ticket);
    lemma_owed_by_regions_agrees(state, next, upstream, state.regions.len());
    lemma_multiset_commutative(state.stores, gained);
    assert(balance(next, upstream) =~= balance(state, upstream));
}

/// A step that carries the upstream's reply changes nothing of what is
/// held and owed together.
pub proof fn lemma_step_keeps_balance(state: SweepView, upstream: Upstream, step: Step)
    requires
        state.wf(),
        enabled(state, step),
        faithful(upstream, state, step),
    ensures
        balance(apply(state, step), upstream) == balance(state, upstream),
{
    match step {
        Step::StartRegion => lemma_start_region_keeps_balance(state, upstream),
        Step::StartCity => lemma_start_city_keeps_balance(state, upstream),
        Step::FinishRegion { index, reply } => lemma_finish_region_keeps_balance(
            state,
            upstream,
            index,
        ),
        Step::FinishCity { ticket, reply } => lemma_finish_city_keeps_balance(
            state,
            upstream,
            ticket,
        ),
    }
}

/// A run that carries the upstream's replies changes nothing of what is
/// held and owed together.
pub proof fn lemma_run_keeps_balance(state: SweepView, upstream: Upstream, steps: Seq<Step>)
    requires
        state.wf(),
        allowed(state, steps),
        faithful_run(upstream, state, steps),
    ensures
        balance(run(state, steps), upstream) == balance(state, upstream),
    decreases steps.len(),
{
    if steps.len() > 0 {
        lemma_run_keeps_balance(state, upstream, steps.drop_last());
        lemma_run_keeps_wf(state, steps.drop_last());
        lemma_step_keeps_balance(run(state, steps.drop_last()), upstream, steps.last());
    }
}

/// Before anything is started, a sweep owes all that is expected of its
/// regions.
pub proof fn lemma_initial_balance(
    markers: PageMarkers,
    regions: Seq<Seq<char>>,
    stage1_limit: usize,
    stage2_limit: usize,
    upstream: Upstream,
)
    requires
        regions.len() <= usize::MAX,
    ensures
        balance(SweepView::initial(markers, regions, stage1_limit, stage2_limit), upstream)
            == expected(markers, upstream, regions),
{
    let state = SweepView::initial(markers, regions, stage1_limit, stage2_limit);
    lemma_owed_by_open_regions(state, upstream, regions.len());
    assert(regions.take(regions.len() as int) =~= regions);
    assert(state.stores.to_multiset() =~= Multiset::empty()) by {
        broadcast use vstd::seq_lib::group_to_multiset_ensures;

        vstd::multiset::lemma_multiset_empty_len(state.stores.to_multiset());
    }
    assert(balance(state, upstream) =~= expected(markers, upstream, regions));
}

/// A sweep that has ended owes nothing: what it holds is its balance.
pub proof fn lemma_finished_balance(state: SweepView, upstream: Upstream)
    requires
        state.wf(),
        state.finished(),
    ensures
        state.stores.to_multiset() == balance(state, upstream),
{
    assert forall|i: usize| i < state.cities.len() implies !state.city_open(i) by {
        if state.stage2_jobs.contains(i) {
            let j = choose|j: int| 0 <= j < state.stage2_jobs.len() && state.stage2_jobs[j] == i;
        }
    }
    assert forall|i: usize| i < state.regions.len() implies !state.region_open(i) by {
        if state.stage1_jobs.contains(i) {
            let j = choose|j: int| 0 <= j < state.stage1_jobs.len() && state.stage1_jobs[j] == i;
        }
    }
    lemma_answered_cities_owe_nothing(state, upstream, state.cities.len());
    lemma_answered_regions_owe_nothing(state, upstream, state.regions.len());
    assert(state.stores.to_multiset() =~= balance(state, upstream));
}

/// A sweep that ends after a run carrying the upstream's replies holds
/// exactly the stores that the upstream determines for its regions: as
/// many of each as expected, in some order.
pub proof fn lemma_complete_sweep_collects_expected(
    markers: PageMarkers,
    regions: Seq<Seq<char>>,
    stage1_limit: usize,
    stage2_limit: usize,
    upstream: Upstream,
    steps: Seq<Step>,
)
    requires
        stage1_limit >= 1,
        stage2_limit >= 1,
        regions.len() <= usize::MAX,
        allowed(SweepView::initial(markers, regions, stage1_limit, stage2_limit), steps),
        faithful_run(
            upstream,
            SweepView::initial(markers, regions, stage1_limit, stage2_limit),
            steps,
        ),
        run(SweepView::initial(markers, regions, stage1_limit, stage2_limit), steps).finished(),
    ensures
        run(
            SweepView::initial(markers, regions, stage1_limit, stage2_limit),
            steps,
        ).stores.to_multiset() == expected(markers, upstream, regions),
{
    let start = SweepView::initial(markers, regions, stage1_limit, stage2_limit);
    lemma_initial_wf(markers, regions, stage1_limit, stage2_limit);
    lemma_initial_balance(markers, regions, stage1_limit, stage2_limit, upstream);
    lemma_run_keeps_wf(start, steps);
    lemma_run_keeps_balance(start, upstream, steps);
    lemma_finished_balance(run(start, steps), upstream);
}

/// Two collections with the same stores, in whatever order, have the same
/// set of store ids.
pub proof fn lemma_same_stores_same_ids(first: Seq<StoreView>, second: Seq<StoreView>)
    requires
        first.to_multiset() == second.to_multiset(),
    ensures
        store_ids(first) == store_ids(second),
{
    broadcast use vstd::seq_lib::group_to_multiset_ensures;

    assert forall|id: u64| store_ids(first).contains(id) == store_ids(second).contains(id) by {
        if store_ids(first).contains(id) {
            let i = choose|i: int| 0 <= i < first.len() && #[trigger] first[i].store_id == id;
            assert(first.contains(first[i]));
            assert(second.to_multiset().count(first[i]) > 0);
            assert(second.contains(first[i]));
            let j = choose|j: int| 0 <= j < second.len() && second[j] == first[i];
            assert(second[j].store_id == id);
        }
        if store_ids(second).contains(id) {
            let i = choose|i: int| 0 <= i < second.len() && #[trigger] second[i].store_id == id;
            assert(second.contains(second[i]));
            assert(first.to_multiset().count(second[i]) > 0);
            assert(first.contains(second[i]));
            let j = choose|j: int| 0 <= j < first.len() && first[j] == second[i];
            assert(first[j].store_id == id);
        }
    }
    assert(store_ids(first) =~= store_ids(second));
}

/// Idempotence: two sweeps over the same regions against an unchanged
/// upstream, each run to its end, collect the same stores and so the same
/// set of store ids. The replies may arrive in different orders and the
/// budgets may differ.
pub proof fn lemma_sweeps_agree(
    markers: PageMarkers,
    regions: Seq<Seq<char>>,
    upstream: Upstream,
    first_limits: (usize, usize),
    first_steps: Seq<Step>,
    second_limits: (usize, usize),
    second_steps: Seq<Step>,
)
    requires
        first_limits.0 >= 1 && first_limits.1 >= 1,
        second_limits.0 >= 1 && second_limits.1 >= 1,
        regions.len() <= usize::MAX,
        allowed(SweepView::initial(markers, regions, first_limits.0, first_limits.1), first_steps),
        faithful_run(
            upstream,
            SweepView::initial(markers, regions, first_limits.0, first_limits.1),
            first_steps,
        ),
        run(
            SweepView::initial(markers, regions, first_limits.0, first_limits.1),
            first_steps,
        ).finished(),
        allowed(
            SweepView::initial(markers, regions, second_limits.0, second_limits.1),
            second_steps,
        ),
        faithful_run(
            upstream,
            SweepView::initial(markers, regions, second_limits.0, second_limits.1),
            second_steps,
        ),
        run(
            SweepView::initial(markers, regions, second_limits.0, second_limits.1),
            second_steps,
        ).finished(),
    ensures
        run(
            SweepView::initial(markers, regions, first_limits.0, first_limits.1),
            first_steps,
        ).stores.to_multiset() == run(
            SweepView::initial(markers, regions, second_limits.0, second_limits.1),
            second_steps,
        ).stores.to_multiset(),
        store_ids(
            run(
                SweepView::initial(markers, regions, first_limits.0, first_limits.1),
                first_steps,
            ).stores,
        ) == store_ids(
            run(
                SweepView::initial(markers, regions, second_limits.0, second_limits.1),
                second_steps,
            ).stores,
        ),
{
    lemma_complete_sweep_collects_expected(
        markers,
        regions,
        first_limits.0,
        first_limits.1,
        upstream,
        first_steps,
    );
    lemma_complete_sweep_collects_expected(
        markers,
        regions,
        second_limits.0,
        second_limits.1,
        upstream,
        second_steps,
    );
    lemma_same_stores_same_ids(
        run(
            SweepView::initial(markers, regions, first_limits.0, first_limits.1),
            first_steps,
        ).stores,
        run(
            SweepView::initial(markers, regions, second_limits.0, second_limits.1),
            second_steps,
        ).stores,
    );
}

} // verus!
