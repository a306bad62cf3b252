//! The scheduler of a sweep. It decides what is fetched next and takes in
//! what came back; performing the fetches is the caller's part.

use vstd::prelude::*;
use crate::classify::{classify, route_of, Route, RouteView};
use crate::collector::{CityOutcome, CityOutcomeView, ResultCollector};
use crate::directory::read_directory;
use crate::expander::{listing_outcome, read_listing};
use crate::leaf::PageMarkers;
use crate::model::{
    city_views, store_views, text_views, City, CityView, FetchOutcome, Reply, ReplyView, Store,
};
use crate::ratelimit::{after_request, answer_at, Admission, RateLimiter};
use crate::preserve::{
    lemma_finish_city_wf, lemma_finish_region_wf, lemma_initial_wf, lemma_start_city_wf,
    lemma_start_region_wf, rows_fit,
};
use crate::run::{apply, enabled, lemma_region_within_bound, Step};
use crate::schedule::{
    blank_tally, city_outcome, listing_status, ListingStatus, SweepView, TallyView,
};

verus! {

/// What is known of one region, in numbers.
#[derive(Clone, Copy, Debug, PartialEq, Eq)]
pub struct RegionTally {
    pub listing: ListingStatus,
    /// City rows that the region's listing returned.
    pub cities: usize,
    /// Cities whose fetch succeeded.
    pub resolved: usize,
    /// Cities whose fetch was skipped or failed.
    pub skipped: usize,
    /// Stores collected for the region.
    pub stores: usize,
    /// Rows that the expansions of the region's branch cities returned.
    pub expanded: usize,
}

impl View for RegionTally {
    type V = TallyView;

    open spec fn view(&self) -> TallyView {
        TallyView {
            listing: self.listing,
            cities: self.cities as nat,
            resolved: self.resolved as nat,
            skipped: self.skipped as nat,
            stores: self.stores as nat,
            expanded: self.expanded as nat,
        }
    }
}

/// The views of a sequence of tallies, in order.
pub open spec fn tally_views(tallies: Seq<RegionTally>) -> Seq<TallyView> {
    tallies.map_values(|t: RegionTally| t@)
}

/// What the caller is to do next.
#[derive(Debug)]
pub enum Action {
    /// Fetch the listing of the region at this index.
    FetchDirectory { index: usize, region: String },
    /// Fetch the detail page of a store, for the city with this ticket.
    FetchStorePage { ticket: usize, store_id: u64 },
    /// Fetch the listing of one city, for the city with this ticket.
    FetchCityListing { ticket: usize, region: String, city: String },
    /// Nothing can be started: hand in a reply first.
    Wait,
    /// Something could be started, but not before this tick: the request
    /// budget of the current window is used up.
    Hold { until: u64 },
    /// Nothing waits and nothing is in flight.
    Finished,
}

/// An `Action` with its strings as sequences of characters.
pub enum ActionView {
    FetchDirectory { index: usize, region: Seq<char> },
    FetchStorePage { ticket: usize, store_id: u64 },
    FetchCityListing { ticket: usize, region: Seq<char>, city: Seq<char> },
    Wait,
    Hold { until: u64 },
    Finished,
}

impl View for Action {
    type V = ActionView;

    open spec fn view(&self) -> ActionView {
        match *self {
            Action::FetchDirectory { index, region } => ActionView::FetchDirectory {
                index,
                region: region@,
            },
            Action::FetchStorePage { ticket, store_id } => ActionView::FetchStorePage {
                ticket,
                store_id,
            },
            Action::FetchCityListing { ticket, region, city } => ActionView::FetchCityListing {
                ticket,
                region: region@,
                city: city@,
            },
            Action::Wait => ActionView::Wait,
            Action::Hold { until } => ActionView::Hold { until },
            Action::Finished => ActionView::Finished,
        }
    }
}

/// Why the scheduler turned a call down.
#[derive(Clone, Copy, Debug, PartialEq, Eq, Structural)]
pub enum SweepError {
    /// A stage was given no budget, so it could never start anything.
    ZeroBudget,
    /// The reply is for a request that is not in flight.
    NotInFlight,
}

/// The fetch that resolves a city: the store page for a leaf, the filtered
/// listing for a branch.
pub open spec fn request_for(ticket: usize, city: CityView) -> ActionView {
    match route_of(city) {
        RouteView::Leaf(store_id) => ActionView::FetchStorePage { ticket, store_id },
        RouteView::Branch(region, name) => ActionView::FetchCityListing {
            ticket,
            region,
            city: name,
        },
    }
}

/// What the scheduler does when asked: it starts a region where stage one
/// has room and a region waits; else a city where stage two has room and a
/// city waits; else nothing.
pub open spec fn decision(state: SweepView) -> (SweepView, ActionView) {
    if state.can_start_region() {
        (
            state.start_region(),
            ActionView::FetchDirectory {
                index: state.next_region,
                region: state.regions[state.next_region as int],
            },
        )
    } else if state.can_start_city() {
        (state.start_city(), request_for(state.next_city, state.cities[state.next_city as int]))
    } else if state.finished() {
        (state, ActionView::Finished)
    } else {
        (state, ActionView::Wait)
    }
}

/// What the scheduler does when asked at a tick, under a request budget.
/// Where something could be started, the limiter is asked, and a refusal
/// holds the start back; where nothing could be started, the limiter is not
/// asked.
pub open spec fn decision_at(state: SweepView, limiter: RateLimiter, now: u64) -> (
    SweepView,
    RateLimiter,
    ActionView,
) {
    if !state.can_start_region() && !state.can_start_city() {
        (state, limiter, decision(state).1)
    } else {
        match answer_at(limiter, now) {
            Admission::Admitted => (
                decision(state).0,
                after_request(limiter, now),
                decision(state).1,
            ),
            Admission::Refused { until } => (
                state,
                after_request(limiter, now),
                ActionView::Hold { until },
            ),
        }
    }
}

/// What a city's fetch came to, with a count in place of the stores.
pub open spec fn summary_of(outcome: CityOutcomeView) -> FetchOutcome<usize> {
    match outcome {
        CityOutcomeView::Leaf(FetchOutcome::Success(_)) => FetchOutcome::Success(1),
        CityOutcomeView::Leaf(FetchOutcome::Skipped(reason)) => FetchOutcome::Skipped(reason),
        CityOutcomeView::Leaf(FetchOutcome::Failed(error)) => FetchOutcome::Failed(error),
        CityOutcomeView::Branch(FetchOutcome::Success(stores)) => FetchOutcome::Success(
            stores.len() as usize,
        ),
        CityOutcomeView::Branch(FetchOutcome::Skipped(reason)) => FetchOutcome::Skipped(reason),
        CityOutcomeView::Branch(FetchOutcome::Failed(error)) => FetchOutcome::Failed(error),
    }
}

/// What the scheduler decides is a step that can happen, or no step at
/// all. It answers `Finished` exactly when the sweep has ended, and `Wait`
/// only while a reply is owed.
pub proof fn lemma_decision_is_a_step(state: SweepView)
    requires
        state.wf(),
    ensures
        state.can_start_region() ==> enabled(state, Step::StartRegion) && decision(state).0
            == apply(state, Step::StartRegion),
        !state.can_start_region() && state.can_start_city() ==> enabled(state, Step::StartCity)
            && decision(state).0 == apply(state, Step::StartCity),
        !state.can_start_region() && !state.can_start_city() ==> decision(state).0 == state,
        decision(state).1 is Finished <==> state.finished(),
        decision(state).1 is Wait ==> state.stage1_jobs.len() + state.stage2_jobs.len() > 0,
        !(decision(state).1 is Hold),
{
    if state.can_start_city() && !state.can_start_region() {
        assert(!(request_for(state.next_city, state.cities[state.next_city as int]) is Finished));
    }
}

/// A row with neither an id nor a count is resolved by the filtered
/// listing of its region and city, whatever the reply: never by a store
/// page.
pub proof fn lemma_bare_row_is_expanded(
    markers: PageMarkers,
    ticket: usize,
    city: CityView,
    reply: ReplyView,
)
    requires
        city.store_id is None,
        city.store_count is None,
    ensures
        request_for(ticket, city) == (ActionView::FetchCityListing {
            ticket,
            region: city.region,
            city: city.name,
        }),
        city_outcome(markers, city, reply) == CityOutcomeView::Branch(listing_outcome(reply)),
{
}

/// A sweep in progress.
pub struct Sweep {
    markers: PageMarkers,
    regions: Vec<String>,
    stage1_limit: usize,
    stage2_limit: usize,
    next_region: usize,
    stage1_jobs: Vec<usize>,
    cities: Vec<City>,
    origins: Vec<usize>,
    next_city: usize,
    stage2_jobs: Vec<usize>,
    collector: ResultCollector,
    tallies: Vec<RegionTally>,
}

impl View for Sweep {
    type V = SweepView;

    closed spec fn view(&self) -> SweepView {
        SweepView {
            markers: self.markers,
            regions: text_views(self.regions@),
            stage1_limit: self.stage1_limit,
            stage2_limit: self.stage2_limit,
            next_region: self.next_region,
            stage1_jobs: self.stage1_jobs@,
            cities: city_views(self.cities@),
            origins: self.origins@,
            next_city: self.next_city,
            stage2_jobs: self.stage2_jobs@,
            stores: self.collector@,
            tallies: tally_views(self.tallies@),
        }
    }
}

/// Finds a job among those in flight.
fn position(jobs: &Vec<usize>, job: usize) -> (r: Option<usize>)
    ensures
        match r {
            Some(k) => k < jobs@.len() && jobs@[k as int] == job,
            None => !jobs@.contains(job),
        },
{
    let mut k: usize = 0;
    while k < jobs.len()
        invariant
            k <= jobs@.len(),
            forall|j: int| 0 <= j < k ==> jobs@[j] != job,
        decreases jobs@.len() - k,
    {
        if jobs[k] == job {
            return Some(k);
        }
        k += 1;
    }
    None
}

impl Sweep {
    /// The invariant of a sweep, which every method keeps.
    pub open spec fn wf(&self) -> bool {
        self@.wf()
    }

    /// A sweep over the given regions that has started nothing. Each stage
    /// needs a budget of at least one.
    pub fn new(
        regions: Vec<String>,
        stage1_limit: usize,
        stage2_limit: usize,
        markers: PageMarkers,
    ) -> (r: Result<Sweep, SweepError>)
        ensures
            r is Err <==> (stage1_limit == 0 || stage2_limit == 0),
            r matches Err(error) ==> error == SweepError::ZeroBudget,
            r matches Ok(sweep) ==> {
                &&& sweep.wf()
                &&& sweep@ == SweepView::initial(
                    markers,
                    text_views(regions@),
                    stage1_limit,
                    stage2_limit,
                )
            },
    {
        if stage1_limit == 0 || stage2_limit == 0 {
            return Err(SweepError::ZeroBudget);
        }
        let mut tallies: Vec<RegionTally> = Vec::new();
        let mut i: usize = 0;
        while i < regions.len()
            invariant
                i <= regions@.len(),
                tallies@.len() == i,
                forall|j: int| 0 <= j < i ==> (#[trigger] tallies@[j])@ == blank_tally(),
            decreases regions@.len() - i,
        {
            tallies.push(
                RegionTally {
                    listing: ListingStatus::Pending,
                    cities: 0,
                    resolved: 0,
                    skipped: 0,
                    stores: 0,
                    expanded: 0,
                },
            );
            i += 1;
        }
        let sweep = Sweep {
            markers,
            regions,
            stage1_limit,
            stage2_limit,
            next_region: 0,
            stage1_jobs: Vec::new(),
            cities: Vec::new(),
            origins: Vec::new(),
            next_city: 0,
            stage2_jobs: Vec::new(),
            collector: ResultCollector::new(),
            tallies,
        };
        proof {
            let target = SweepView::initial(
                markers,
                text_views(regions@),
                stage1_limit,
                stage2_limit,
            );
            assert(sweep@.tallies =~= target.tallies);
            assert(sweep@.cities =~= target.cities);
            assert(sweep@.stage1_jobs =~= target.stage1_jobs);
            assert(sweep@.stage2_jobs =~= target.stage2_jobs);
            assert(sweep@.origins =~= target.origins);
            assert(sweep@.regions =~= target.regions);
            lemma_initial_wf(markers, text_views(regions@), stage1_limit, stage2_limit);
        }
        Ok(sweep)
    }

    /// Decides what is fetched next, and books it as in flight. Neither
    /// stage is ever given more than its budget. `Wait` comes only while
    /// something is in flight, so a reply is then still owed.
    pub fn next_action(&mut self) -> (action: Action)
        requires
            old(self).wf(),
        ensures
            final(self).wf(),
            (final(self)@, action@) == decision(old(self)@),
            action is Wait ==> old(self)@.stage1_jobs.len() + old(self)@.stage2_jobs.len() > 0,
    {
        let ghost before = self@;
        if self.stage1_jobs.len() < self.stage1_limit && self.next_region < self.regions.len() {
            let index: usize = self.next_region;
            let region = self.regions[index].clone();
            self.stage1_jobs.push(index);
            self.next_region = index + 1;
            proof {
                assert(self@.stage1_jobs =~= before.start_region().stage1_jobs);
                assert(self@ == before.start_region());
                lemma_start_region_wf(before);
            }
            Action::FetchDirectory { index, region }
        } else if self.stage2_jobs.len() < self.stage2_limit && self.next_city < self.cities.len() {
            let ticket: usize = self.next_city;
            let action = match classify(&self.cities[ticket]) {
                Route::Leaf(store_id) => Action::FetchStorePage { ticket, store_id },
                Route::Branch(region, city) => Action::FetchCityListing { ticket, region, city },
            };
            self.stage2_jobs.push(ticket);
            self.next_city = ticket + 1;
            proof {
                assert(self@.stage2_jobs =~= before.start_city().stage2_jobs);
                assert(self@ == before.start_city());
                lemma_start_city_wf(before);
            }
            action
        } else if self.next_region == self.regions.len() && self.stage1_jobs.len() == 0
            && self.next_city == self.cities.len() && self.stage2_jobs.len() == 0 {
            Action::Finished
        } else {
            Action::Wait
        }
    }

    /// Decides what is fetched next at the tick `now`, under a request
    /// budget that both stages share: every start of either stage takes one
    /// request from the same limiter.
    pub fn next_action_at(&mut self, limiter: &mut RateLimiter, now: u64) -> (action: Action)
        requires
            old(self).wf(),
        ensures
            final(self).wf(),
            old(limiter).wf() ==> final(limiter).wf(),
            (final(self)@, *final(limiter), action@) == decision_at(old(self)@, *old(limiter), now),
            action is Wait ==> old(self)@.stage1_jobs.len() + old(self)@.stage2_jobs.len() > 0,
    {
        let can_start = (self.stage1_jobs.len() < self.stage1_limit && self.next_region
            < self.regions.len()) || (self.stage2_jobs.len() < self.stage2_limit && self.next_city
            < self.cities.len());
        if can_start {
            match limiter.request(now) {
                Admission::Admitted => {},
                Admission::Refused { until } => {
                    return Action::Hold { until };
                },
            }
        }
        self.next_action()
    }

    /// Takes in the reply to the listing request of the region at `index`.
    /// Its city rows join the waiting cities; a reply that is no listing
    /// leaves the region without cities and the sweep goes on.
    pub fn complete_directory(&mut self, index: usize, reply: &Reply) -> (r: Result<
        ListingStatus,
        SweepError,
    >)
        requires
            old(self).wf(),
        ensures
            final(self).wf(),
            !old(self)@.stage1_jobs.contains(index) ==> {
                &&& r == Err::<ListingStatus, SweepError>(SweepError::NotInFlight)
                &&& final(self)@ == old(self)@
            },
            old(self)@.stage1_jobs.contains(index) ==> {
                &&& rows_fit(old(self)@, index, reply@)
                &&& final(self)@ == old(self)@.finish_region(index, reply@)
                &&& r == Ok::<ListingStatus, SweepError>(
                    listing_status(
                        crate::directory::directory_outcome(old(self)@.regions[index as int], reply@),
                    ),
                )
            },
    {
        let ghost before = self@;
        let slot: usize = match position(&self.stage1_jobs, index) {
            Some(slot) => slot,
            None => {
                return Err(SweepError::NotInFlight);
            },
        };
        proof {
            assert(before.stage1_jobs[slot as int] < before.next_region);
            assert(before.stage1_jobs.contains(index));
            assert(before.stage1_jobs.index_of(index) == slot);
            assert(before.tally_wf(index as int));
        }
        self.stage1_jobs.remove(slot);
        let outcome = read_directory(self.regions[index].as_str(), reply);
        let ghost rows = crate::schedule::listed_rows(outcome@);
        let (status, count): (ListingStatus, usize) = match outcome {
            FetchOutcome::Success(cities) => {
                let mut cities = cities;
                let count: usize = cities.len();
                self.cities.append(&mut cities);
                let mut i: usize = 0;
                while i < count
                    invariant
                        i <= count,
                        slot < before.stage1_jobs.len(),
                        self.origins@ =~= before.origins + Seq::new(i as nat, |j: int| index),
                        self.markers == old(self).markers,
                        self.regions == old(self).regions,
                        self.stage1_limit == old(self).stage1_limit,
                        self.stage2_limit == old(self).stage2_limit,
                        self.next_region == old(self).next_region,
                        self.stage1_jobs@ == before.stage1_jobs.remove(slot as int),
                        city_views(self.cities@) =~= before.cities + rows,
                        self.next_city == old(self).next_city,
                        self.stage2_jobs == old(self).stage2_jobs,
                        self.collector == old(self).collector,
                        self.tallies == old(self).tallies,
                    decreases count - i,
                {
                    self.origins.push(index);
                    i += 1;
                }
                (ListingStatus::Listed, count)
            },
            FetchOutcome::Skipped(reason) => (ListingStatus::Skipped(reason), 0),
            FetchOutcome::Failed(error) => (ListingStatus::Failed(error), 0),
        };
        let held: usize = self.cities.len();
        assert(before.cities.len() + rows.len() == held);
        let tally = self.tallies[index];
        self.tallies.set(
            index,
            RegionTally {
                listing: status,
                cities: count,
                resolved: tally.resolved,
                skipped: tally.skipped,
                stores: tally.stores,
                expanded: tally.expanded,
            },
        );
        proof {
            let target = before.finish_region(index, reply@);
            assert(self@.cities =~= target.cities);
            assert(self@.origins =~= target.origins);
            assert(self@.tallies =~= target.tallies);
            assert(self@.stage1_jobs =~= target.stage1_jobs);
            assert(self@ == target);
            lemma_finish_region_wf(before, index, reply@);
        }
        Ok(status)
    }

    /// Takes in the reply to the request made for the city with `ticket`.
    /// What it yields joins the collected stores; a reply that yields
    /// nothing is counted and the sweep goes on.
    pub fn complete_city(&mut self, ticket: usize, reply: &Reply) -> (r: Result<
        FetchOutcome<usize>,
        SweepError,
    >)
        requires
            old(self).wf(),
        ensures
            final(self).wf(),
            !old(self)@.stage2_jobs.contains(ticket) ==> {
                &&& r == Err::<FetchOutcome<usize>, SweepError>(SweepError::NotInFlight)
                &&& final(self)@ == old(self)@
            },
            old(self)@.stage2_jobs.contains(ticket) ==> {
                &&& final(self)@ == old(self)@.finish_city(ticket, reply@)
                &&& r == Ok::<FetchOutcome<usize>, SweepError>(
                    summary_of(
                        city_outcome(old(self)@.markers, old(self)@.cities[ticket as int], reply@),
                    ),
                )
            },
    {
        let ghost before = self@;
        let slot: usize = match position(&self.stage2_jobs, ticket) {
            Some(slot) => slot,
            None => {
                return Err(SweepError::NotInFlight);
            },
        };
        proof {
            assert(before.stage2_jobs[slot as int] < before.next_city);
            assert(before.stage2_jobs.contains(ticket));
            assert(before.stage2_jobs.index_of(ticket) == slot);
            assert(!before.region_open(before.origins[ticket as int]));
            assert(before.tally_wf(before.origins[ticket as int] as int));
        }
        self.stage2_jobs.remove(slot);
        let outcome = match classify(&self.cities[ticket]) {
            Route::Leaf(store_id) => CityOutcome::Leaf(self.markers.read_reply(store_id, reply)),
            Route::Branch(_, _) => CityOutcome::Branch(read_listing(reply)),
        };
        let ghost shape = outcome@;
        assert(shape == city_outcome(before.markers, before.cities[ticket as int], reply@));
        let summary = match &outcome {
            CityOutcome::Leaf(FetchOutcome::Success(_)) => FetchOutcome::Success(1),
            CityOutcome::Leaf(FetchOutcome::Skipped(reason)) => FetchOutcome::Skipped(*reason),
            CityOutcome::Leaf(FetchOutcome::Failed(error)) => FetchOutcome::Failed(*error),
            CityOutcome::Branch(FetchOutcome::Success(stores)) => FetchOutcome::Success(
                stores.len(),
            ),
            CityOutcome::Branch(FetchOutcome::Skipped(reason)) => FetchOutcome::Skipped(*reason),
            CityOutcome::Branch(FetchOutcome::Failed(error)) => FetchOutcome::Failed(*error),
        };
        let expanded: usize = match &outcome {
            CityOutcome::Branch(FetchOutcome::Success(stores)) => stores.len(),
            _ => 0,
        };
        let success: bool = match &summary {
            FetchOutcome::Success(_) => true,
            _ => false,
        };
        let added: usize = self.collector.absorb(outcome);
        let held: usize = self.collector.len();
        let origin: usize = self.origins[ticket];
        let tally = self.tallies[origin];
        assert(tally@ == before.tallies[origin as int]);
        assert(held == before.stores.len() + added);
        assert(expanded <= added);
        self.tallies.set(
            origin,
            RegionTally {
                listing: tally.listing,
                cities: tally.cities,
                resolved: if success {
                    tally.resolved + 1
                } else {
                    tally.resolved
                },
                skipped: if success {
                    tally.skipped
                } else {
                    tally.skipped + 1
                },
                stores: tally.stores + added,
                expanded: tally.expanded + expanded,
            },
        );
        proof {
            let target = before.finish_city(ticket, reply@);
            assert(self@.tallies =~= target.tallies);
            assert(self@.stage2_jobs =~= target.stage2_jobs);
            assert(self@ == target);
            lemma_finish_city_wf(before, ticket, reply@);
        }
        Ok(summary)
    }

    /// The stores collected so far, in the order in which they arrived.
    pub fn stores(&self) -> (stores: &Vec<Store>)
        ensures
            store_views(stores@) == self@.stores,
    {
        &self.collector.stores
    }

    /// Ends the sweep and hands out what it collected, as one batch.
    pub fn into_stores(self) -> (stores: Vec<Store>)
        ensures
            store_views(stores@) == self@.stores,
    {
        self.collector.into_stores()
    }

    /// The tally of the region at `index`, if there is such a region.
    pub fn tally(&self, index: usize) -> (r: Option<RegionTally>)
        requires
            self.wf(),
        ensures
            match r {
                Some(tally) => index < self@.regions.len() && tally@ == self@.tallies[index as int],
                None => index >= self@.regions.len(),
            },
            r matches Some(tally) ==> {
                &&& tally.resolved + tally.skipped <= tally.cities
                &&& tally.stores <= tally.cities + tally.expanded
                &&& tally.resolved == 0 ==> tally.stores == 0
                &&& tally.cities == 0 ==> tally.stores == 0
            },
    {
        if index < self.tallies.len() {
            proof {
                lemma_region_within_bound(self@, index as int);
            }
            Some(self.tallies[index])
        } else {
            None
        }
    }

    /// How many regions the sweep covers.
    pub fn region_count(&self) -> (n: usize)
        ensures
            n == self@.regions.len(),
    {
        self.regions.len()
    }

    /// How many listings of regions are in flight: never more than the
    /// budget of stage one.
    pub fn stage1_in_flight(&self) -> (n: usize)
        requires
            self.wf(),
        ensures
            n == self@.stage1_jobs.len(),
            n <= self@.stage1_limit,
    {
        self.stage1_jobs.len()
    }

    /// How many fetches for cities are in flight: never more than the
    /// budget of stage two.
    pub fn stage2_in_flight(&self) -> (n: usize)
        requires
            self.wf(),
        ensures
            n == self@.stage2_jobs.len(),
            n <= self@.stage2_limit,
    {
        self.stage2_jobs.len()
    }

    /// Whether nothing waits and nothing is in flight.
    pub fn is_finished(&self) -> (b: bool)
        ensures
            b == self@.finished(),
    {
        self.next_region == self.regions.len() && self.stage1_jobs.len() == 0 && self.next_city
            == self.cities.len() && self.stage2_jobs.len() == 0
    }
}

} // verus!
