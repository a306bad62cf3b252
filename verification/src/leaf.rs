//! Stage two, leaf side: the detail page of one store, read for its postal
//! code and its address.

use vstd::prelude::*;
use crate::html::{
    element_text, first_match, parse_document, parse_selector, parsed_document, parsed_selector,
    select_first, text_of, MAX_TEXT,
};
use crate::model::{
    byte_len, is_success, lemma_byte_len_bound, length_of, FetchError, FetchOutcome, Reply,
    ReplyView, SkipReason, Store, StoreView,
};

verus! {

/// The selector of the element that carries a store's postal code.
pub const POSTAL_MARKER: &'static str = ".store-address-postal[itemprop=postalCode]";

/// The selector of the element that carries a store's street address.
pub const ADDRESS_MARKER: &'static str = ".store-address[itemprop=address]";

/// The two selectors by which a store page is read, parsed once.
pub struct PageMarkers {
    pub postal: scraper::Selector,
    pub address: scraper::Selector,
}

/// The text of the first element of a document that a selector matches.
pub open spec fn field_text(document: scraper::Html, selector: scraper::Selector) -> Option<
    Seq<char>,
> {
    match first_match(document, selector) {
        Some(element) => Some(element_text(element)),
        None => None,
    }
}

/// A store from the two fields of its page. Where either is missing the
/// page is skipped: no record is made up from what is there.
pub open spec fn assembled(
    store_id: u64,
    postal_code: Option<Seq<char>>,
    address: Option<Seq<char>>,
) -> FetchOutcome<StoreView> {
    if postal_code is Some && address is Some {
        FetchOutcome::Success(
            StoreView { store_id, postal_code: postal_code->Some_0, address: address->Some_0 },
        )
    } else {
        FetchOutcome::Skipped(SkipReason::MissingField)
    }
}

/// The selector that a text stands for, where the text is short enough to
/// be read and is a selector.
pub open spec fn marker_of(text: Seq<char>) -> Option<scraper::Selector> {
    if byte_len(text) <= MAX_TEXT {
        parsed_selector(text)
    } else {
        None
    }
}

/// What the text of a store page amounts to. A page longer than `MAX_TEXT`
/// bytes is not read: it is a body of no shape that is expected.
pub open spec fn page_store(markers: PageMarkers, store_id: u64, page: Seq<char>) -> FetchOutcome<
    StoreView,
> {
    if byte_len(page) > MAX_TEXT {
        FetchOutcome::Failed(FetchError::Schema)
    } else {
        assembled(
            store_id,
            field_text(parsed_document(page), markers.postal),
            field_text(parsed_document(page), markers.address),
        )
    }
}

/// What a reply to a store page request amounts to. A transport failure and
/// a status outside 200..=299 are network errors; a page too long to be read
/// is a schema error.
pub open spec fn page_outcome(markers: PageMarkers, store_id: u64, reply: ReplyView) -> FetchOutcome<
    StoreView,
> {
    match reply {
        ReplyView::TransportFailure => FetchOutcome::Failed(FetchError::Network),
        ReplyView::Http { status, body } => if !is_success(status) {
            FetchOutcome::Failed(FetchError::Network)
        } else {
            page_store(markers, store_id, body)
        },
    }
}

/// A page on which neither marker matches is skipped for a missing field:
/// it never gives a store with empty texts. This is said of the pages that
/// are read, those of at most `MAX_TEXT` bytes.
pub proof fn lemma_page_without_markers_is_skipped(
    markers: PageMarkers,
    store_id: u64,
    page: Seq<char>,
)
    requires
        byte_len(page) <= MAX_TEXT,
        first_match(parsed_document(page), markers.postal) is None,
        first_match(parsed_document(page), markers.address) is None,
    ensures
        page_store(markers, store_id, page) == FetchOutcome::<StoreView>::Skipped(
            SkipReason::MissingField,
        ),
{
}

/// A page gives a store exactly when it is read and both markers match,
/// and then the store has the id that was asked for. A page fails exactly
/// when it is too long to be read.
pub proof fn lemma_page_gives_store_iff_both_match(
    markers: PageMarkers,
    store_id: u64,
    page: Seq<char>,
)
    ensures
        page_store(markers, store_id, page) is Success <==> (byte_len(page) <= MAX_TEXT
            && first_match(parsed_document(page), markers.postal) is Some && first_match(
            parsed_document(page),
            markers.address,
        ) is Some),
        page_store(markers, store_id, page) is Failed <==> byte_len(page) > MAX_TEXT,
        page_store(markers, store_id, page) matches FetchOutcome::Success(store)
            ==> store.store_id == store_id,
{
}

/// The two standard markers are short enough to be read.
pub proof fn lemma_standard_markers_fit()
    ensures
        marker_of(POSTAL_MARKER@) == parsed_selector(POSTAL_MARKER@),
        marker_of(ADDRESS_MARKER@) == parsed_selector(ADDRESS_MARKER@),
{
    reveal_strlit(".store-address-postal[itemprop=postalCode]");
    reveal_strlit(".store-address[itemprop=address]");
    lemma_byte_len_bound(POSTAL_MARKER@);
    lemma_byte_len_bound(ADDRESS_MARKER@);
}

/// Builds the record of a store from the two fields read off its page.
pub fn assemble_store(store_id: u64, postal_code: Option<String>, address: Option<String>) -> (outcome:
    FetchOutcome<Store>)
    ensures
        outcome@ == assembled(
            store_id,
            match postal_code {
                Some(text) => Some(text@),
                None => None,
            },
            match address {
                Some(text) => Some(text@),
                None => None,
            },
        ),
{
    match (postal_code, address) {
        (Some(postal_code), Some(address)) => FetchOutcome::Success(
            Store { store_id, postal_code, address },
        ),
        _ => FetchOutcome::Skipped(SkipReason::MissingField),
    }
}

fn read_field(document: &scraper::Html, selector: &scraper::Selector) -> (r: Option<String>)
    ensures
        match r {
            Some(text) => field_text(*document, *selector) == Some(text@),
            None => field_text(*document, *selector) is None,
        },
{
    match select_first(document, selector) {
        Some(element) => Some(text_of(&element)),
        None => None,
    }
}

impl PageMarkers {
    /// Parses the two selectors. There are markers exactly when both texts
    /// are selectors of at most `MAX_TEXT` bytes.
    pub fn parse(postal: &str, address: &str) -> (r: Option<PageMarkers>)
        ensures
            r is Some <==> (marker_of(postal@) is Some && marker_of(address@) is Some),
            r matches Some(markers) ==> {
                &&& Some(markers.postal) == marker_of(postal@)
                &&& Some(markers.address) == marker_of(address@)
            },
    {
        if length_of(postal) > MAX_TEXT || length_of(address) > MAX_TEXT {
            return None;
        }
        let postal = match parse_selector(postal) {
            Some(selector) => selector,
            None => {
                return None;
            },
        };
        let address = match parse_selector(address) {
            Some(selector) => selector,
            None => {
                return None;
            },
        };
        Some(PageMarkers { postal, address })
    }

    /// The markers of a store page: `POSTAL_MARKER` and `ADDRESS_MARKER`.
    pub fn standard() -> (r: Option<PageMarkers>)
        ensures
            r is Some <==> (parsed_selector(POSTAL_MARKER@) is Some && parsed_selector(
                ADDRESS_MARKER@,
            ) is Some),
            r matches Some(markers) ==> {
                &&& Some(markers.postal) == parsed_selector(POSTAL_MARKER@)
                &&& Some(markers.address) == parsed_selector(ADDRESS_MARKER@)
            },
    {
        proof {
            lemma_standard_markers_fit();
        }
        PageMarkers::parse(POSTAL_MARKER, ADDRESS_MARKER)
    }

    /// Reads the text of a store page. A page longer than `MAX_TEXT` bytes
    /// is not read and fails as a body of no expected shape.
    pub fn read_page(&self, store_id: u64, page: &str) -> (outcome: FetchOutcome<Store>)
        ensures
            outcome@ == page_store(*self, store_id, page@),
    {
        if length_of(page) > MAX_TEXT {
            return FetchOutcome::Failed(FetchError::Schema);
        }
        let document = parse_document(page);
        let postal_code = read_field(&document, &self.postal);
        let address = read_field(&document, &self.address);
        assemble_store(store_id, postal_code, address)
    }

    /// Reads the reply to a store page request.
    pub fn read_reply(&self, store_id: u64, reply: &Reply) -> (outcome: FetchOutcome<Store>)
        ensures
            outcome@ == page_outcome(*self, store_id, reply@),
    {
        match reply {
            Reply::TransportFailure => FetchOutcome::Failed(FetchError::Network),
            Reply::Http { status, body } => {
                if *status < 200 || *status > 299 {
                    FetchOutcome::Failed(FetchError::Network)
                } else {
                    self.read_page(store_id, body.as_str())
                }
            },
        }
    }
}

} // verus!
