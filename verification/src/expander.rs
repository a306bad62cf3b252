//! Stage two, branch side: the listing of one city, read as store rows.

use vstd::prelude::*;
use crate::decode::{parse_store_rows, store_rows};
use crate::model::{is_success, FetchError, FetchOutcome, Reply, ReplyView, Store, StoreView};

verus! {

/// What a reply to a city's listing request amounts to. A transport failure
/// and a status outside 200..=299 are network errors; a body that is not an
/// array of store rows is a schema error.
pub open spec fn listing_outcome(reply: ReplyView) -> FetchOutcome<Seq<StoreView>> {
    match reply {
        ReplyView::TransportFailure => FetchOutcome::Failed(FetchError::Network),
        ReplyView::Http { status, body } => if !is_success(status) {
            FetchOutcome::Failed(FetchError::Network)
        } else {
            match store_rows(body) {
                Ok(rows) => FetchOutcome::Success(rows),
                Err(error) => FetchOutcome::Failed(error),
            }
        },
    }
}

/// Reads the reply to a city's listing request.
pub fn read_listing(reply: &Reply) -> (outcome: FetchOutcome<Vec<Store>>)
    ensures
        outcome@ == listing_outcome(reply@),
{
    match reply {
        Reply::TransportFailure => FetchOutcome::Failed(FetchError::Network),
        Reply::Http { status, body } => {
            if *status < 200 || *status > 299 {
                FetchOutcome::Failed(FetchError::Network)
            } else {
                match parse_store_rows(body.as_str()) {
                    Ok(stores) => FetchOutcome::Success(stores),
                    Err(error) => FetchOutcome::Failed(error),
                }
            }
        },
    }
}

} // verus!
