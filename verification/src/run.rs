//! Runs of a sweep: any interleaving of starts and replies that the
//! scheduler allows. What is proved of all runs holds however the caller's
//! fetches happen to complete.

use vstd::prelude::*;
use crate::model::ReplyView;
use crate::preserve::{
    lemma_finish_city_wf, lemma_finish_region_wf, lemma_start_city_wf, lemma_start_region_wf,
    rows_fit,
};
use crate::schedule::SweepView;

verus! {

/// One thing that happens to a sweep.
pub enum Step {
    /// The next waiting region goes in flight.
    StartRegion,
    /// The next waiting city goes in flight.
    StartCity,
    /// The listing of the region at `index` is answered.
    FinishRegion { index: usize, reply: ReplyView },
    /// The fetch for the city with `ticket` is answered.
    FinishCity { ticket: usize, reply: ReplyView },
}

/// Whether a step can happen in a state: a start needs room in its stage
/// and something waiting, a reply needs its request to be in flight.
pub open spec fn enabled(state: SweepView, step: Step) -> bool {
    match step {
        Step::StartRegion => state.can_start_region(),
        Step::StartCity => state.can_start_city(),
        Step::FinishRegion { index, reply } => state.stage1_jobs.contains(index) && rows_fit(
            state,
            index,
            reply,
        ),
        Step::FinishCity { ticket, reply } => state.stage2_jobs.contains(ticket),
    }
}

/// The state after a step.
pub open spec fn apply(state: SweepView, step: Step) -> SweepView {
    match step {
        Step::StartRegion => state.start_region(),
        Step::StartCity => state.start_city(),
        Step::FinishRegion { index, reply } => state.finish_region(index, reply),
        Step::FinishCity { ticket, reply } => state.finish_city(ticket, reply),
    }
}

/// The state after a sequence of steps.
pub open spec fn run(state: SweepView, steps: Seq<Step>) -> SweepView
    decreases steps.len(),
{
    if steps.len() == 0 {
        state
    } else {
        apply(run(state, steps.drop_last()), steps.last())
    }
}

/// Whether each step of a sequence can happen where it stands.
pub open spec fn allowed(state: SweepView, steps: Seq<Step>) -> bool
    decreases steps.len(),
{
    steps.len() == 0 || (allowed(state, steps.drop_last()) && enabled(
        run(state, steps.drop_last()),
        steps.last(),
    ))
}

/// A step that can happen keeps the invariant.
pub proof fn lemma_step_keeps_wf(state: SweepView, step: Step)
    requires
        state.wf(),
        enabled(state, step),
    ensures
        apply(state, step).wf(),
{
    match step {
        Step::StartRegion => lemma_start_region_wf(state),
        Step::StartCity => lemma_start_city_wf(state),
        Step::FinishRegion { index, reply } => lemma_finish_region_wf(state, index, reply),
        Step::FinishCity { ticket, reply } => lemma_finish_city_wf(state, ticket, reply),
    }
}

/// No step changes the regions, the markers or the budgets.
pub proof fn lemma_run_keeps_setup(state: SweepView, steps: Seq<Step>)
    ensures
        run(state, steps).regions == state.regions,
        run(state, steps).markers == state.markers,
        run(state, steps).stage1_limit == state.stage1_limit,
        run(state, steps).stage2_limit == state.stage2_limit,
    decreases steps.len(),
{
    if steps.len() > 0 {
        lemma_run_keeps_setup(state, steps.drop_last());
    }
}

/// A run of allowed steps keeps the invariant.
pub proof fn lemma_run_keeps_wf(state: SweepView, steps: Seq<Step>)
    requires
        state.wf(),
        allowed(state, steps),
    ensures
        run(state, steps).wf(),
    decreases steps.len(),
{
    if steps.len() > 0 {
        lemma_run_keeps_wf(state, steps.drop_last());
        lemma_step_keeps_wf(run(state, steps.drop_last()), steps.last());
    }
}

/// The first steps of an allowed run are an allowed run.
pub proof fn lemma_prefix_allowed(state: SweepView, steps: Seq<Step>, n: int)
    requires
        allowed(state, steps),
        0 <= n <= steps.len(),
    ensures
        allowed(state, steps.take(n)),
    decreases steps.len(),
{
    if n == steps.len() {
        assert(steps.take(n) =~= steps);
    } else {
        lemma_prefix_allowed(state, steps.drop_last(), n);
        assert(steps.drop_last().take(n) =~= steps.take(n));
    }
}

/// Bounded concurrency: at every point of every allowed run, stage one has
/// at most its budget of listings in flight and stage two at most its budget
/// of city fetches, however many regions and cities are waiting.
pub proof fn lemma_budgets_hold_throughout(state: SweepView, steps: Seq<Step>, n: int)
    requires
        state.wf(),
        allowed(state, steps),
        0 <= n <= steps.len(),
    ensures
        run(state, steps.take(n)).stage1_jobs.len() <= state.stage1_limit,
        run(state, steps.take(n)).stage2_jobs.len() <= state.stage2_limit,
{
    lemma_prefix_allowed(state, steps, n);
    lemma_run_keeps_wf(state, steps.take(n));
    lemma_run_keeps_setup(state, steps.take(n));
}

/// In a well-formed state no region has more cities answered than its
/// listing returned, and none has more stores than it has cities resolved
/// plus the rows that its expansions returned: a leaf city gives one store
/// at most. A region without a resolved city, and so a region without
/// cities, has no stores.
pub proof fn lemma_region_within_bound(state: SweepView, index: int)
    requires
        state.wf(),
        0 <= index < state.regions.len(),
    ensures
        state.tallies[index].resolved + state.tallies[index].skipped <= state.tallies[index].cities,
        state.tallies[index].stores <= state.tallies[index].resolved
            + state.tallies[index].expanded,
        state.tallies[index].stores <= state.tallies[index].cities
            + state.tallies[index].expanded,
        state.tallies[index].resolved == 0 ==> state.tallies[index].stores == 0,
        state.tallies[index].cities == 0 ==> state.tallies[index].stores == 0,
{
    assert(state.tally_wf(index));
}

/// At every point of every allowed run, the stores collected for a region
/// are at most as many as the cities that its listing returned, plus the
/// rows that the expansions of its branch cities returned.
pub proof fn lemma_regions_stay_within_bound(
    state: SweepView,
    steps: Seq<Step>,
    n: int,
    index: int,
)
    requires
        state.wf(),
        allowed(state, steps),
        0 <= n <= steps.len(),
        0 <= index < state.regions.len(),
    ensures
        run(state, steps.take(n)).tallies[index].stores <= run(
            state,
            steps.take(n),
        ).tallies[index].cities + run(state, steps.take(n)).tallies[index].expanded,
{
    lemma_prefix_allowed(state, steps, n);
    lemma_run_keeps_wf(state, steps.take(n));
    lemma_run_keeps_setup(state, steps.take(n));
    lemma_region_within_bound(run(state, steps.take(n)), index);
}

/// Causal order: at every point of every allowed run, each city that is
/// known, and so each city whose fetch was started, comes from a region
/// whose listing has been answered.
pub proof fn lemma_cities_follow_listings(
    state: SweepView,
    steps: Seq<Step>,
    n: int,
    ticket: int,
)
    requires
        state.wf(),
        allowed(state, steps),
        0 <= n <= steps.len(),
        0 <= ticket < run(state, steps.take(n)).cities.len(),
    ensures
        !run(state, steps.take(n)).region_open(run(state, steps.take(n)).origins[ticket]),
{
    lemma_prefix_allowed(state, steps, n);
    lemma_run_keeps_wf(state, steps.take(n));
}

} // verus!
