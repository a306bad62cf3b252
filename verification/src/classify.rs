//! Routing of a directory row: a single known store, or a city to expand.

use vstd::prelude::*;
use crate::model::{City, CityView};

verus! {

/// Where a directory row is sent.
#[derive(Debug)]
pub enum Route {
    /// The row names one store; its detail page is fetched.
    Leaf(u64),
    /// The row names a city; its filtered listing is fetched.
    Branch(String, String),
}

/// A `Route` with its strings as sequences of characters.
pub enum RouteView {
    Leaf(u64),
    Branch(Seq<char>, Seq<char>),
}

impl View for Route {
    type V = RouteView;

    open spec fn view(&self) -> RouteView {
        match *self {
            Route::Leaf(id) => RouteView::Leaf(id),
            Route::Branch(region, name) => RouteView::Branch(region@, name@),
        }
    }
}

/// A row is a leaf exactly when it carries an id and no count.
pub open spec fn is_leaf(has_id: bool, has_count: bool) -> bool {
    has_id && !has_count
}

/// The route of a row: a leaf keeps its id, a branch its region and name.
pub open spec fn route_of(city: CityView) -> RouteView {
    if is_leaf(city.store_id is Some, city.store_count is Some) {
        RouteView::Leaf(city.store_id->Some_0)
    } else {
        RouteView::Branch(city.region, city.name)
    }
}

/// Decides how a directory row is resolved.
pub fn classify(city: &City) -> (route: Route)
    ensures
        route@ == route_of(city@),
        route is Leaf <==> (city.store_id is Some && city.store_count is None),
{
    match (city.store_id, city.store_count) {
        (Some(id), None) => Route::Leaf(id),
        _ => Route::Branch(city.region.clone(), city.name.clone()),
    }
}

/// Two rows that agree on which of the two optional fields are present are
/// routed to the same kind of fetch.
pub proof fn lemma_route_depends_on_presence(a: CityView, b: CityView)
    requires
        (a.store_id is Some) == (b.store_id is Some),
        (a.store_count is Some) == (b.store_count is Some),
    ensures
        (route_of(a) is Leaf) == (route_of(b) is Leaf),
        route_of(a) is Leaf <==> is_leaf(a.store_id is Some, a.store_count is Some),
{
}

/// A row with neither an id nor a count is a branch over its own region and
/// name.
pub proof fn lemma_bare_row_is_branch(city: CityView)
    requires
        city.store_id is None,
        city.store_count is None,
    ensures
        route_of(city) == RouteView::Branch(city.region, city.name),
{
}

} // verus!
