//! The sweep as a transition system over mathematical state: what is
//! waiting, what is in flight in each stage, and what has been collected.

use vstd::prelude::*;
use crate::classify::{route_of, RouteView};
use crate::collector::{expansion_size, yield_of, CityOutcomeView};
use crate::directory::directory_outcome;
use crate::expander::listing_outcome;
use crate::leaf::{page_outcome, PageMarkers};
use crate::model::{CityView, FetchError, FetchOutcome, ReplyView, SkipReason, StoreView};

verus! {

/// How far the listing of a region has come.
#[derive(Clone, Copy, Debug, PartialEq, Eq, Structural)]
pub enum ListingStatus {
    /// Not asked for yet, or asked for and not answered.
    Pending,
    /// Answered with city rows.
    Listed,
    /// Set aside; the region contributes nothing.
    Skipped(SkipReason),
    /// Answered with an error; the region contributes nothing.
    Failed(FetchError),
}

/// What is known of one region, in numbers.
pub struct TallyView {
    pub listing: ListingStatus,
    /// City rows that the region's listing returned.
    pub cities: nat,
    /// Cities whose fetch succeeded.
    pub resolved: nat,
    /// Cities whose fetch was skipped or failed.
    pub skipped: nat,
    /// Stores collected for the region.
    pub stores: nat,
    /// Rows that the expansions of the region's branch cities returned.
    pub expanded: nat,
}

/// The state of a sweep.
pub struct SweepView {
    pub markers: PageMarkers,
    /// The regions to sweep, in the order in which they are started.
    pub regions: Seq<Seq<char>>,
    /// At most this many listings of regions are in flight.
    pub stage1_limit: usize,
    /// At most this many fetches for cities are in flight.
    pub stage2_limit: usize,
    /// The regions before this index have been started.
    pub next_region: usize,
    /// The regions whose listing is in flight.
    pub stage1_jobs: Seq<usize>,
    /// Every city row seen so far, in the order in which it arrived.
    pub cities: Seq<CityView>,
    /// For each city, the index of the region whose listing held it.
    pub origins: Seq<usize>,
    /// The cities before this index have been started.
    pub next_city: usize,
    /// The cities whose fetch is in flight.
    pub stage2_jobs: Seq<usize>,
    /// The stores collected so far.
    pub stores: Seq<StoreView>,
    pub tallies: Seq<TallyView>,
}

/// What the fetch made for a city amounts to: a leaf is read off its store
/// page, a branch off its filtered listing.
pub open spec fn city_outcome(markers: PageMarkers, city: CityView, reply: ReplyView) -> CityOutcomeView {
    match route_of(city) {
        RouteView::Leaf(store_id) => CityOutcomeView::Leaf(page_outcome(markers, store_id, reply)),
        RouteView::Branch(_, _) => CityOutcomeView::Branch(listing_outcome(reply)),
    }
}

/// Whether the fetch made for a city succeeded.
pub open spec fn succeeded(outcome: CityOutcomeView) -> bool {
    match outcome {
        CityOutcomeView::Leaf(FetchOutcome::Success(_)) => true,
        CityOutcomeView::Branch(FetchOutcome::Success(_)) => true,
        _ => false,
    }
}

/// The city rows that a listing outcome carries: none unless it succeeded.
pub open spec fn listed_rows(outcome: FetchOutcome<Seq<CityView>>) -> Seq<CityView> {
    match outcome {
        FetchOutcome::Success(rows) => rows,
        _ => Seq::empty(),
    }
}

/// The status that a listing outcome leaves behind.
pub open spec fn listing_status(outcome: FetchOutcome<Seq<CityView>>) -> ListingStatus {
    match outcome {
        FetchOutcome::Success(_) => ListingStatus::Listed,
        FetchOutcome::Skipped(reason) => ListingStatus::Skipped(reason),
        FetchOutcome::Failed(error) => ListingStatus::Failed(error),
    }
}

/// The tally of a region that nothing is known of yet.
pub open spec fn blank_tally() -> TallyView {
    TallyView {
        listing: ListingStatus::Pending,
        cities: 0,
        resolved: 0,
        skipped: 0,
        stores: 0,
        expanded: 0,
    }
}

/// A tally after the region's listing was answered.
pub open spec fn tally_listed(tally: TallyView, outcome: FetchOutcome<Seq<CityView>>) -> TallyView {
    TallyView {
        listing: listing_status(outcome),
        cities: listed_rows(outcome).len(),
        ..tally
    }
}

/// A tally after the fetch for one of the region's cities was answered.
pub open spec fn tally_settled(tally: TallyView, outcome: CityOutcomeView) -> TallyView {
    TallyView {
        resolved: if succeeded(outcome) {
            tally.resolved + 1
        } else {
            tally.resolved
        },
        skipped: if succeeded(outcome) {
            tally.skipped
        } else {
            tally.skipped + 1
        },
        stores: tally.stores + yield_of(outcome).len(),
        expanded: tally.expanded + expansion_size(outcome),
        ..tally
    }
}

/// A sequence of jobs without one of them.
pub open spec fn without(jobs: Seq<usize>, job: usize) -> Seq<usize> {
    jobs.remove(jobs.index_of(job))
}

impl SweepView {
    /// The state before anything was started.
    pub open spec fn initial(
        markers: PageMarkers,
        regions: Seq<Seq<char>>,
        stage1_limit: usize,
        stage2_limit: usize,
    ) -> SweepView {
        SweepView {
            markers,
            regions,
            stage1_limit,
            stage2_limit,
            next_region: 0,
            stage1_jobs: Seq::empty(),
            cities: Seq::empty(),
            origins: Seq::empty(),
            next_city: 0,
            stage2_jobs: Seq::empty(),
            stores: Seq::empty(),
            tallies: Seq::new(regions.len(), |i: int| blank_tally()),
        }
    }

    /// A region is open while its listing has not been answered.
    pub open spec fn region_open(self, index: usize) -> bool {
        index >= self.next_region || self.stage1_jobs.contains(index)
    }

    /// A city is open while its fetch has not been answered.
    pub open spec fn city_open(self, ticket: usize) -> bool {
        ticket >= self.next_city || self.stage2_jobs.contains(ticket)
    }

    /// Stage one has room and a region is waiting.
    pub open spec fn can_start_region(self) -> bool {
        self.stage1_jobs.len() < self.stage1_limit && self.next_region < self.regions.len()
    }

    /// Stage two has room and a city is waiting.
    pub open spec fn can_start_city(self) -> bool {
        self.stage2_jobs.len() < self.stage2_limit && self.next_city < self.cities.len()
    }

    /// Nothing waits and nothing is in flight.
    pub open spec fn finished(self) -> bool {
        &&& self.next_region == self.regions.len()
        &&& self.stage1_jobs.len() == 0
        &&& self.next_city == self.cities.len()
        &&& self.stage2_jobs.len() == 0
    }

    /// The next waiting region goes in flight.
    pub open spec fn start_region(self) -> SweepView {
        SweepView {
            next_region: (self.next_region + 1) as usize,
            stage1_jobs: self.stage1_jobs.push(self.next_region),
            ..self
        }
    }

    /// The next waiting city goes in flight.
    pub open spec fn start_city(self) -> SweepView {
        SweepView {
            next_city: (self.next_city + 1) as usize,
            stage2_jobs: self.stage2_jobs.push(self.next_city),
            ..self
        }
    }

    /// The listing of a region in flight is answered: its rows join the
    /// cities, behind those already there.
    pub open spec fn finish_region(self, index: usize, reply: ReplyView) -> SweepView {
        let outcome = directory_outcome(self.regions[index as int], reply);
        let rows = listed_rows(outcome);
        SweepView {
            stage1_jobs: without(self.stage1_jobs, index),
            cities: self.cities + rows,
            origins: self.origins + Seq::new(rows.len(), |i: int| index),
            tallies: self.tallies.update(
                index as int,
                tally_listed(self.tallies[index as int], outcome),
            ),
            ..self
        }
    }

    /// The fetch for a city in flight is answered: what it yields joins the
    /// stores, behind those already there.
    pub open spec fn finish_city(self, ticket: usize, reply: ReplyView) -> SweepView {
        let outcome = city_outcome(self.markers, self.cities[ticket as int], reply);
        let origin = self.origins[ticket as int];
        SweepView {
            stage2_jobs: without(self.stage2_jobs, ticket),
            stores: self.stores + yield_of(outcome),
            tallies: self.tallies.update(
                origin as int,
                tally_settled(self.tallies[origin as int], outcome),
            ),
            ..self
        }
    }

    /// How many of the first `n` cities come from the region at `index`
    /// and are still open.
    pub open spec fn open_from(self, index: usize, n: nat) -> nat
        decreases n,
    {
        if n == 0 {
            0
        } else {
            self.open_from(index, (n - 1) as nat) + if self.origins[n - 1] == index
                && self.city_open((n - 1) as usize) {
                1nat
            } else {
                0nat
            }
        }
    }

    /// What holds of one region's tally. Each of the region's cities is
    /// resolved, skipped or still open, and only a resolved city has given
    /// stores.
    pub open spec fn tally_wf(self, index: int) -> bool {
        let tally = self.tallies[index];
        &&& (tally.listing is Pending) == self.region_open(index as usize)
        &&& tally.cities == tally.resolved + tally.skipped + self.open_from(
            index as usize,
            self.cities.len(),
        )
        &&& !(tally.listing is Listed) ==> tally.cities == 0
        &&& tally.cities <= self.cities.len()
        &&& tally.resolved + tally.skipped + self.stage2_jobs.len() <= self.next_city
        &&& tally.expanded <= tally.stores
        &&& tally.stores <= tally.resolved + tally.expanded
        &&& tally.resolved == 0 ==> tally.expanded == 0
        &&& tally.stores <= self.stores.len()
    }

    /// The invariant of a sweep. Neither stage holds more jobs than its
    /// limit, no job is held twice, and a city is known only once the
    /// listing of its region was answered.
    pub open spec fn wf(self) -> bool {
        &&& self.stage1_limit >= 1
        &&& self.stage2_limit >= 1
        &&& self.regions.len() <= usize::MAX
        &&& self.cities.len() <= usize::MAX
        &&& self.next_region <= self.regions.len()
        &&& self.stage1_jobs.len() <= self.stage1_limit
        &&& self.stage1_jobs.no_duplicates()
        &&& forall|j: int|
            0 <= j < self.stage1_jobs.len() ==> #[trigger] self.stage1_jobs[j] < self.next_region
        &&& self.origins.len() == self.cities.len()
        &&& self.next_city <= self.cities.len()
        &&& self.stage2_jobs.len() <= self.stage2_limit
        &&& self.stage2_jobs.no_duplicates()
        &&& forall|j: int|
            0 <= j < self.stage2_jobs.len() ==> #[trigger] self.stage2_jobs[j] < self.next_city
        &&& forall|i: int|
            0 <= i < self.cities.len() ==> {
                &&& !self.region_open(#[trigger] self.origins[i])
                &&& self.cities[i].region == self.regions[self.origins[i] as int]
            }
        &&& self.tallies.len() == self.regions.len()
        &&& forall|r: int| 0 <= r < self.regions.len() ==> #[trigger] self.tally_wf(r)
    }
}

/// Taking a job that is held out of a sequence without repeats: the others
/// stay, in their order, and the job is gone.
pub proof fn lemma_without(jobs: Seq<usize>, job: usize)
    requires
        jobs.no_duplicates(),
        jobs.contains(job),
    ensures
        without(jobs, job).len() == jobs.len() - 1,
        without(jobs, job).no_duplicates(),
        !without(jobs, job).contains(job),
        forall|other: usize|
            other != job ==> (#[trigger] without(jobs, job).contains(other) == jobs.contains(other)),
        forall|j: int|
            0 <= j < without(jobs, job).len() ==> jobs.contains(#[trigger] without(jobs, job)[j]),
{
    let k = jobs.index_of(job);
    let rest = without(jobs, job);
    assert(0 <= k < jobs.len() && jobs[k] == job);
    assert forall|j: int| 0 <= j < rest.len() implies #[trigger] rest[j] == jobs[if j < k {
        j
    } else {
        j + 1
    }] by {}
    assert forall|j: int| 0 <= j < rest.len() implies jobs.contains(#[trigger] rest[j]) by {
        let from = if j < k {
            j
        } else {
            j + 1
        };
        assert(jobs[from] == rest[j]);
    }
    assert forall|i: int, j: int| 0 <= i < rest.len() && 0 <= j < rest.len() && i != j implies rest[i]
        != rest[j] by {
        let a = if i < k {
            i
        } else {
            i + 1
        };
        let b = if j < k {
            j
        } else {
            j + 1
        };
        assert(rest[i] == jobs[a] && rest[j] == jobs[b]);
    }
    if rest.contains(job) {
        let j = choose|j: int| 0 <= j < rest.len() && rest[j] == job;
        let from = if j < k {
            j
        } else {
            j + 1
        };
        assert(jobs[from] == job);
    }
    assert forall|other: usize| other != job implies (#[trigger] rest.contains(other)
        == jobs.contains(other)) by {
        if jobs.contains(other) {
            let i = choose|i: int| 0 <= i < jobs.len() && jobs[i] == other;
            let to = if i < k {
                i
            } else {
                i - 1
            };
            assert(rest[to] == other);
        }
        if rest.contains(other) {
            let j = choose|j: int| 0 <= j < rest.len() && rest[j] == other;
            assert(jobs.contains(rest[j]));
        }
    }
}

/// A sequence with one more job holds that job and what it held before.
pub proof fn lemma_with(jobs: Seq<usize>, job: usize)
    ensures
        forall|other: usize| #[trigger]
            jobs.push(job).contains(other) == (jobs.contains(other) || other == job),
{
    assert forall|other: usize| #[trigger]
        jobs.push(job).contains(other) == (jobs.contains(other) || other == job) by {
        if jobs.contains(other) {
            let i = choose|i: int| 0 <= i < jobs.len() && jobs[i] == other;
            assert(jobs.push(job)[i] == other);
        }
        if other == job {
            assert(jobs.push(job)[jobs.len() as int] == other);
        }
        if jobs.push(job).contains(other) {
            let i = choose|i: int| 0 <= i < jobs.push(job).len() && jobs.push(job)[i] == other;
            if i < jobs.len() {
                assert(jobs[i] == other);
            }
        }
    }
}

} // verus!
