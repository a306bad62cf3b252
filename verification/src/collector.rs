//! The single place where stores accumulate. Outcomes that are not a
//! success add nothing; nothing is reordered and nothing is deduplicated.

use vstd::prelude::*;
use crate::model::{store_views, FetchOutcome, Store, StoreView};

verus! {

/// The outcome of the one fetch made for a city.
#[derive(Debug)]
pub enum CityOutcome {
    /// The city named one store, whose page was fetched.
    Leaf(FetchOutcome<Store>),
    /// The city was expanded by its filtered listing.
    Branch(FetchOutcome<Vec<Store>>),
}

/// A `CityOutcome` over views.
pub enum CityOutcomeView {
    Leaf(FetchOutcome<StoreView>),
    Branch(FetchOutcome<Seq<StoreView>>),
}

impl View for CityOutcome {
    type V = CityOutcomeView;

    open spec fn view(&self) -> CityOutcomeView {
        match *self {
            CityOutcome::Leaf(outcome) => CityOutcomeView::Leaf(outcome@),
            CityOutcome::Branch(outcome) => CityOutcomeView::Branch(outcome@),
        }
    }
}

/// The stores that one outcome contributes: one for a leaf that succeeded,
/// the rows of a branch that succeeded, none otherwise.
pub open spec fn yield_of(outcome: CityOutcomeView) -> Seq<StoreView> {
    match outcome {
        CityOutcomeView::Leaf(FetchOutcome::Success(store)) => seq![store],
        CityOutcomeView::Branch(FetchOutcome::Success(stores)) => stores,
        _ => Seq::empty(),
    }
}

/// The stores that a run of outcomes contributes, in the order of the run.
pub open spec fn collected(outcomes: Seq<CityOutcomeView>) -> Seq<StoreView>
    decreases outcomes.len(),
{
    if outcomes.len() == 0 {
        Seq::empty()
    } else {
        collected(outcomes.drop_last()) + yield_of(outcomes.last())
    }
}

/// How many of the outcomes belong to leaf cities.
pub open spec fn leaf_count(outcomes: Seq<CityOutcomeView>) -> nat
    decreases outcomes.len(),
{
    if outcomes.len() == 0 {
        0
    } else {
        leaf_count(outcomes.drop_last()) + if outcomes.last() is Leaf {
            1nat
        } else {
            0nat
        }
    }
}

/// How many of the outcomes belong to branch cities.
pub open spec fn branch_count(outcomes: Seq<CityOutcomeView>) -> nat
    decreases outcomes.len(),
{
    if outcomes.len() == 0 {
        0
    } else {
        branch_count(outcomes.drop_last()) + if outcomes.last() is Branch {
            1nat
        } else {
            0nat
        }
    }
}

/// The number of rows that one outcome's expansion returned: none for a
/// leaf, none for an expansion that did not succeed.
pub open spec fn expansion_size(outcome: CityOutcomeView) -> nat {
    match outcome {
        CityOutcomeView::Branch(FetchOutcome::Success(stores)) => stores.len(),
        _ => 0,
    }
}

/// The number of rows that all expansions returned together.
pub open spec fn expansion_total(outcomes: Seq<CityOutcomeView>) -> nat
    decreases outcomes.len(),
{
    if outcomes.len() == 0 {
        0
    } else {
        expansion_total(outcomes.drop_last()) + expansion_size(outcomes.last())
    }
}

/// The stores accumulated so far.
pub struct ResultCollector {
    pub stores: Vec<Store>,
}

impl View for ResultCollector {
    type V = Seq<StoreView>;

    open spec fn view(&self) -> Seq<StoreView> {
        store_views(self.stores@)
    }
}

impl ResultCollector {
    /// A collector that holds nothing.
    pub fn new() -> (collector: ResultCollector)
        ensures
            collector@ == Seq::<StoreView>::empty(),
    {
        let collector = ResultCollector { stores: Vec::new() };
        assert(collector@ =~= Seq::<StoreView>::empty());
        collector
    }

    /// Takes in one outcome. What it contributes is appended; the stores
    /// held before stay as they are. Returns how many stores were added.
    pub fn absorb(&mut self, outcome: CityOutcome) -> (added: usize)
        ensures
            final(self)@ == old(self)@ + yield_of(outcome@),
            added == yield_of(outcome@).len(),
    {
        let ghost before = self.stores@;
        match outcome {
            CityOutcome::Leaf(FetchOutcome::Success(store)) => {
                self.stores.push(store);
                assert(store_views(self.stores@) =~= store_views(before) + seq![store@]);
                1
            },
            CityOutcome::Branch(FetchOutcome::Success(stores)) => {
                let mut stores = stores;
                let ghost rows = stores@;
                let added: usize = stores.len();
                self.stores.append(&mut stores);
                assert(store_views(self.stores@) =~= store_views(before) + store_views(rows));
                added
            },
            _ => {
                assert(store_views(before) + Seq::<StoreView>::empty() =~= store_views(before));
                0
            },
        }
    }

    /// How many stores are held.
    pub fn len(&self) -> (n: usize)
        ensures
            n == self@.len(),
    {
        self.stores.len()
    }

    /// Hands out what was accumulated, as one batch.
    pub fn into_stores(self) -> (stores: Vec<Store>)
        ensures
            store_views(stores@) == self@,
    {
        self.stores
    }
}

/// Merges a run of outcomes into one collection.
pub fn collect(outcomes: Vec<CityOutcome>) -> (stores: Vec<Store>)
    ensures
        store_views(stores@) == collected(outcomes@.map_values(|o: CityOutcome| o@)),
{
    let ghost all = outcomes@.map_values(|o: CityOutcome| o@);
    let mut rest = outcomes;
    let mut reversed: Vec<CityOutcome> = Vec::new();
    while rest.len() > 0
        invariant
            rest@.len() + reversed@.len() == all.len(),
            forall|j: int| 0 <= j < rest@.len() ==> (#[trigger] rest@[j])@ == all[j],
            forall|j: int|
                0 <= j < reversed@.len() ==> (#[trigger] reversed@[j])@ == all[all.len() - 1 - j],
        decreases rest@.len(),
    {
        match rest.pop() {
            Some(outcome) => {
                reversed.push(outcome);
            },
            None => {},
        }
    }
    let mut collector = ResultCollector::new();
    let ghost mut done: int = 0;
    while reversed.len() > 0
        invariant
            done + reversed@.len() == all.len(),
            0 <= done,
            forall|j: int|
                0 <= j < reversed@.len() ==> (#[trigger] reversed@[j])@ == all[all.len() - 1 - j],
            collector@ == collected(all.subrange(0, done)),
        decreases reversed@.len(),
    {
        match reversed.pop() {
            Some(outcome) => {
                proof {
                    assert(outcome@ == all[done]);
                    assert(all.subrange(0, done + 1).drop_last() =~= all.subrange(0, done));
                    assert(all.subrange(0, done + 1).last() == all[done]);
                    done = done + 1;
                }
                collector.absorb(outcome);
            },
            None => {},
        }
    }
    proof {
        assert(all.subrange(0, done) =~= all);
    }
    collector.into_stores()
}

/// A leaf city contributes at most one store, so a run of outcomes yields
/// at most as many stores as it has leaf cities, plus the rows that its
/// expansions returned. In particular it yields at most as many as it has
/// cities, plus those rows.
pub proof fn lemma_collected_within_bound(outcomes: Seq<CityOutcomeView>)
    ensures
        collected(outcomes).len() <= leaf_count(outcomes) + expansion_total(outcomes),
        leaf_count(outcomes) + branch_count(outcomes) == outcomes.len(),
        collected(outcomes).len() <= outcomes.len() + expansion_total(outcomes),
    decreases outcomes.len(),
{
    if outcomes.len() > 0 {
        lemma_collected_within_bound(outcomes.drop_last());
    }
}

/// Where no expansion returned more than `largest` rows, a run of outcomes
/// yields at most one store for each leaf city and `largest` for each
/// branch city.
pub proof fn lemma_collected_within_largest(outcomes: Seq<CityOutcomeView>, largest: nat)
    requires
        forall|i: int| 0 <= i < outcomes.len() ==> expansion_size(#[trigger] outcomes[i]) <= largest,
    ensures
        expansion_total(outcomes) <= branch_count(outcomes) * largest,
        collected(outcomes).len() <= leaf_count(outcomes) + branch_count(outcomes) * largest,
    decreases outcomes.len(),
{
    if outcomes.len() > 0 {
        let front = outcomes.drop_last();
        assert forall|i: int| 0 <= i < front.len() implies expansion_size(#[trigger] front[i])
            <= largest by {
            assert(front[i] == outcomes[i]);
        }
        lemma_collected_within_largest(front, largest);
        lemma_collected_within_bound(outcomes);
        assert(expansion_size(outcomes.last()) <= largest);
        assert((branch_count(front) + 1) * largest == branch_count(front) * largest + largest)
            by (nonlinear_arith);
    } else {
        assert(0 * largest == 0) by (nonlinear_arith);
    }
}

/// Where at most one city of a run is a branch, the run yields at most as
/// many stores as it has cities, plus the size of the largest expansion.
pub proof fn lemma_collected_within_cities_plus_largest(
    outcomes: Seq<CityOutcomeView>,
    largest: nat,
)
    requires
        forall|i: int| 0 <= i < outcomes.len() ==> expansion_size(#[trigger] outcomes[i]) <= largest,
        branch_count(outcomes) <= 1,
    ensures
        collected(outcomes).len() <= outcomes.len() + largest,
{
    lemma_collected_within_largest(outcomes, largest);
    lemma_collected_within_bound(outcomes);
    assert(branch_count(outcomes) * largest <= largest) by (nonlinear_arith)
        requires
            branch_count(outcomes) <= 1,
    ;
}

} // verus!
