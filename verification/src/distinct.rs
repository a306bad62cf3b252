//! Deduplication by store id, as a policy of its own. A sweep never applies
//! it: the two ways of resolving a city may name one store twice, and the
//! caller says whether the second record is dropped.

use vstd::prelude::*;
use crate::model::{store_ids, store_views, Store, StoreView};

verus! {

/// Whether an id occurs among the first `n` stores.
pub open spec fn seen_before(stores: Seq<StoreView>, n: int, store_id: u64) -> bool {
    exists|j: int| 0 <= j < n && #[trigger] stores[j].store_id == store_id
}

/// The stores whose id did not occur before them, in their order: of each
/// id the first record stays.
pub open spec fn first_of_each_id(stores: Seq<StoreView>) -> Seq<StoreView>
    decreases stores.len(),
{
    if stores.len() == 0 {
        Seq::empty()
    } else if seen_before(stores, stores.len() - 1, stores.last().store_id) {
        first_of_each_id(stores.drop_last())
    } else {
        first_of_each_id(stores.drop_last()).push(stores.last())
    }
}

/// Whether no two stores of a collection share an id.
pub open spec fn distinct_ids(stores: Seq<StoreView>) -> bool {
    forall|i: int, j: int|
        0 <= i < j < stores.len() ==> (#[trigger] stores[i]).store_id != (#[trigger] stores[j]).store_id
}

/// What is kept has every id that the collection has, and no other; no id
/// twice; and never more stores than the collection.
pub proof fn lemma_first_of_each_id(stores: Seq<StoreView>)
    ensures
        store_ids(first_of_each_id(stores)) == store_ids(stores),
        distinct_ids(first_of_each_id(stores)),
        first_of_each_id(stores).len() <= stores.len(),
    decreases stores.len(),
{
    let kept = first_of_each_id(stores);
    if stores.len() > 0 {
        let front = stores.drop_last();
        let kept_front = first_of_each_id(front);
        let last = stores.last();
        lemma_first_of_each_id(front);
        assert forall|id: u64| store_ids(kept).contains(id) == store_ids(stores).contains(id) by {
            assert(store_ids(kept_front).contains(id) == store_ids(front).contains(id));
            if store_ids(kept).contains(id) {
                let i = choose|i: int| 0 <= i < kept.len() && #[trigger] kept[i].store_id == id;
                if i < kept_front.len() {
                    assert(kept_front[i].store_id == id);
                    assert(store_ids(kept_front).contains(id));
                    let j = choose|j: int|
                        0 <= j < front.len() && #[trigger] front[j].store_id == id;
                    assert(stores[j].store_id == id);
                } else {
                    assert(stores[stores.len() - 1].store_id == id);
                }
            }
            if store_ids(stores).contains(id) {
                let j = choose|j: int| 0 <= j < stores.len() && #[trigger] stores[j].store_id == id;
                if j < front.len() {
                    assert(front[j].store_id == id);
                    assert(store_ids(front).contains(id));
                    let i = choose|i: int|
                        0 <= i < kept_front.len() && #[trigger] kept_front[i].store_id == id;
                    assert(kept[i].store_id == id);
                } else if seen_before(stores, stores.len() - 1, last.store_id) {
                    let k = choose|k: int|
                        0 <= k < stores.len() - 1 && #[trigger] stores[k].store_id == last.store_id;
                    assert(front[k].store_id == id);
                    assert(store_ids(front).contains(id));
                    let i = choose|i: int|
                        0 <= i < kept_front.len() && #[trigger] kept_front[i].store_id == id;
                    assert(kept[i].store_id == id);
                } else {
                    assert(kept[kept.len() - 1].store_id == id);
                }
            }
        }
        assert(store_ids(kept) =~= store_ids(stores));
        if !seen_before(stores, stores.len() - 1, last.store_id) {
            assert forall|i: int, j: int| 0 <= i < j < kept.len() implies (#[trigger] kept[i]).store_id
                != (#[trigger] kept[j]).store_id by {
                if j == kept.len() - 1 {
                    assert(kept_front[i].store_id == kept[i].store_id);
                    if kept[i].store_id == last.store_id {
                        assert(store_ids(kept_front).contains(last.store_id));
                        assert(store_ids(front).contains(last.store_id));
                        let k = choose|k: int|
                            0 <= k < front.len() && #[trigger] front[k].store_id == last.store_id;
                        assert(stores[k].store_id == last.store_id);
                    }
                } else {
                    assert(kept_front[i] == kept[i] && kept_front[j] == kept[j]);
                }
            }
        }
    } else {
        assert(store_ids(kept) =~= store_ids(stores));
    }
}

/// A collection without repeated ids is kept whole, so dropping repeats a
/// second time changes nothing.
pub proof fn lemma_distinct_is_kept(stores: Seq<StoreView>)
    requires
        distinct_ids(stores),
    ensures
        first_of_each_id(stores) == stores,
    decreases stores.len(),
{
    if stores.len() > 0 {
        let front = stores.drop_last();
        assert forall|i: int, j: int| 0 <= i < j < front.len() implies (#[trigger] front[i]).store_id
            != (#[trigger] front[j]).store_id by {
            assert(front[i] == stores[i] && front[j] == stores[j]);
        }
        lemma_distinct_is_kept(front);
        if seen_before(stores, stores.len() - 1, stores.last().store_id) {
            let k = choose|k: int|
                0 <= k < stores.len() - 1 && #[trigger] stores[k].store_id
                    == stores.last().store_id;
            assert(stores[k].store_id != stores[stores.len() - 1].store_id);
        }
        assert(front.push(stores.last()) =~= stores);
    } else {
        assert(first_of_each_id(stores) =~= stores);
    }
}

/// Whether one of the stores has the id.
fn holds_id(stores: &Vec<Store>, store_id: u64) -> (found: bool)
    ensures
        found == seen_before(store_views(stores@), stores@.len() as int, store_id),
{
    let ghost views = store_views(stores@);
    let mut i: usize = 0;
    while i < stores.len()
        invariant
            i <= stores@.len(),
            views == store_views(stores@),
            !seen_before(views, i as int, store_id),
        decreases stores@.len() - i,
    {
        if stores[i].store_id == store_id {
            assert(views[i as int].store_id == store_id);
            return true;
        }
        assert forall|j: int| 0 <= j < i + 1 implies #[trigger] views[j].store_id != store_id by {
            if j < i {
                assert(!seen_before(views, i as int, store_id));
            }
        }
        i += 1;
    }
    false
}

/// Drops every store whose id occurred before it. Of each id the first
/// record stays, and what stays keeps its order.
pub fn distinct_by_store_id(stores: &Vec<Store>) -> (kept: Vec<Store>)
    ensures
        store_views(kept@) == first_of_each_id(store_views(stores@)),
        distinct_ids(store_views(kept@)),
        store_ids(store_views(kept@)) == store_ids(store_views(stores@)),
        kept@.len() <= stores@.len(),
{
    let ghost all = store_views(stores@);
    let mut kept: Vec<Store> = Vec::new();
    let mut i: usize = 0;
    proof {
        assert(all.take(0) =~= Seq::<StoreView>::empty());
        assert(store_views(kept@) =~= first_of_each_id(all.take(0)));
    }
    while i < stores.len()
        invariant
            i <= stores@.len(),
            all == store_views(stores@),
            store_views(kept@) == first_of_each_id(all.take(i as int)),
        decreases stores@.len() - i,
    {
        let ghost prefix = all.take(i as int);
        let ghost next = all.take(i + 1);
        let store_id: u64 = stores[i].store_id;
        let found = holds_id(&kept, store_id);
        proof {
            lemma_first_of_each_id(prefix);
            assert(next.drop_last() =~= prefix);
            assert(next.last() == all[i as int]);
            assert(seen_before(store_views(kept@), kept@.len() as int, store_id)
                == store_ids(store_views(kept@)).contains(store_id));
            assert(store_ids(prefix).contains(store_id) == seen_before(
                next,
                next.len() - 1,
                store_id,
            )) by {
                if store_ids(prefix).contains(store_id) {
                    let j = choose|j: int|
                        0 <= j < prefix.len() && #[trigger] prefix[j].store_id == store_id;
                    assert(next[j].store_id == store_id);
                }
                if seen_before(next, next.len() - 1, store_id) {
                    let j = choose|j: int|
                        0 <= j < next.len() - 1 && #[trigger] next[j].store_id == store_id;
                    assert(prefix[j].store_id == store_id);
                }
            }
        }
        if !found {
            let ghost before = store_views(kept@);
            kept.push(stores[i].duplicate());
            assert(store_views(kept@) =~= before.push(all[i as int]));
        }
        i += 1;
    }
    proof {
        assert(all.take(i as int) =~= all);
        lemma_first_of_each_id(all);
    }
    kept
}

} // verus!
