//! Records that flow through the sweep, and their mathematical views.

use vstd::prelude::*;

verus! {

/// One row of a region's directory listing.
#[derive(Debug)]
pub struct City {
    pub region: String,
    pub name: String,
    pub store_id: Option<u64>,
    pub store_count: Option<u64>,
}

/// What a `City` is, with its strings as sequences of characters.
pub struct CityView {
    pub region: Seq<char>,
    pub name: Seq<char>,
    pub store_id: Option<u64>,
    pub store_count: Option<u64>,
}

impl View for City {
    type V = CityView;

    open spec fn view(&self) -> CityView {
        CityView {
            region: self.region@,
            name: self.name@,
            store_id: self.store_id,
            store_count: self.store_count,
        }
    }
}

/// One store: the unit that a sweep hands out.
#[derive(Debug)]
pub struct Store {
    pub store_id: u64,
    pub postal_code: String,
    pub address: String,
}

/// What a `Store` is, with its strings as sequences of characters.
pub struct StoreView {
    pub store_id: u64,
    pub postal_code: Seq<char>,
    pub address: Seq<char>,
}

impl View for Store {
    type V = StoreView;

    open spec fn view(&self) -> StoreView {
        StoreView {
            store_id: self.store_id,
            postal_code: self.postal_code@,
            address: self.address@,
        }
    }
}

/// Why a fetch produced an error.
#[derive(Clone, Copy, Debug, PartialEq, Eq, Structural)]
pub enum FetchError {
    /// The transport failed, or the status was not a success.
    Network,
    /// The body was not of the expected shape.
    Schema,
}

/// Why a fetch was set aside without being an error.
#[derive(Clone, Copy, Debug, PartialEq, Eq, Structural)]
pub enum SkipReason {
    /// A page lacked one of the markers that carry a field.
    MissingField,
}

/// The result of one fetch. A failure is a value, never a default record.
#[derive(Debug)]
pub enum FetchOutcome<T> {
    Success(T),
    Skipped(SkipReason),
    Failed(FetchError),
}

impl View for FetchOutcome<Vec<City>> {
    type V = FetchOutcome<Seq<CityView>>;

    open spec fn view(&self) -> FetchOutcome<Seq<CityView>> {
        match *self {
            FetchOutcome::Success(cities) => FetchOutcome::Success(city_views(cities@)),
            FetchOutcome::Skipped(reason) => FetchOutcome::Skipped(reason),
            FetchOutcome::Failed(error) => FetchOutcome::Failed(error),
        }
    }
}

impl View for FetchOutcome<Vec<Store>> {
    type V = FetchOutcome<Seq<StoreView>>;

    open spec fn view(&self) -> FetchOutcome<Seq<StoreView>> {
        match *self {
            FetchOutcome::Success(stores) => FetchOutcome::Success(store_views(stores@)),
            FetchOutcome::Skipped(reason) => FetchOutcome::Skipped(reason),
            FetchOutcome::Failed(error) => FetchOutcome::Failed(error),
        }
    }
}

impl View for FetchOutcome<Store> {
    type V = FetchOutcome<StoreView>;

    open spec fn view(&self) -> FetchOutcome<StoreView> {
        match *self {
            FetchOutcome::Success(store) => FetchOutcome::Success(store@),
            FetchOutcome::Skipped(reason) => FetchOutcome::Skipped(reason),
            FetchOutcome::Failed(error) => FetchOutcome::Failed(error),
        }
    }
}

/// Whether a status code reports success.
pub open spec fn is_success(status: u16) -> bool {
    200 <= status <= 299
}

/// What the transport hands back for one request.
#[derive(Debug)]
pub enum Reply {
    /// The request did not complete.
    TransportFailure,
    /// The upstream answered with this status and body.
    Http { status: u16, body: String },
}

/// A `Reply` with its body as a sequence of characters.
pub enum ReplyView {
    TransportFailure,
    Http { status: u16, body: Seq<char> },
}

impl View for Reply {
    type V = ReplyView;

    open spec fn view(&self) -> ReplyView {
        match *self {
            Reply::TransportFailure => ReplyView::TransportFailure,
            Reply::Http { status, body } => ReplyView::Http { status, body: body@ },
        }
    }
}

/// The length of a text in bytes, as UTF-8.
pub open spec fn byte_len(text: Seq<char>) -> nat {
    vstd::utf8::encode_utf8(text).len()
}

/// A text takes at most four bytes for each of its characters.
pub proof fn lemma_byte_len_bound(text: Seq<char>)
    ensures
        byte_len(text) <= 4 * text.len(),
    decreases text.len(),
{
    if text.len() > 0 {
        lemma_byte_len_bound(text.drop_first());
        assert(vstd::utf8::encode_scalar(text[0] as u32).len() <= 4);
    }
}

/// The length of a text in bytes.
pub fn length_of(text: &str) -> (n: usize)
    ensures
        n == byte_len(text@),
{
    text.as_bytes().len()
}

/// The texts of a sequence of strings, in order.
pub open spec fn text_views(texts: Seq<String>) -> Seq<Seq<char>> {
    texts.map_values(|t: String| t@)
}

/// The views of a sequence of cities, in order.
pub open spec fn city_views(cities: Seq<City>) -> Seq<CityView> {
    cities.map_values(|c: City| c@)
}

/// The views of a sequence of stores, in order.
pub open spec fn store_views(stores: Seq<Store>) -> Seq<StoreView> {
    stores.map_values(|s: Store| s@)
}

/// The ids of the stores in a collection, as a set.
pub open spec fn store_ids(stores: Seq<StoreView>) -> Set<u64> {
    Set::new(|id: u64| exists|i: int| 0 <= i < stores.len() && #[trigger] stores[i].store_id == id)
}

impl Reply {
    /// The reply that stands for a request that was never sent because no
    /// address could be made for it: a transport failure.
    pub fn unsent() -> (reply: Reply)
        ensures
            reply@ == ReplyView::TransportFailure,
    {
        Reply::TransportFailure
    }
}

impl City {
    /// A copy of this row.
    pub fn duplicate(&self) -> (r: City)
        ensures
            r@ == self@,
    {
        City {
            region: self.region.clone(),
            name: self.name.clone(),
            store_id: self.store_id,
            store_count: self.store_count,
        }
    }
}

impl Store {
    /// A copy of this record.
    pub fn duplicate(&self) -> (r: Store)
        ensures
            r@ == self@,
    {
        Store {
            store_id: self.store_id,
            postal_code: self.postal_code.clone(),
            address: self.address.clone(),
        }
    }
}

} // verus!
