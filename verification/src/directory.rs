//! Stage one: the listing of a region, read as city rows.

use vstd::prelude::*;
use crate::decode::{city_rows, parse_city_rows};
use crate::model::{is_success, City, CityView, FetchError, FetchOutcome, Reply, ReplyView};

verus! {

/// What a reply to a region's listing request amounts to. A transport
/// failure and a status outside 200..=299 are network errors; a body that is
/// not an array of city rows is a schema error.
pub open spec fn directory_outcome(region: Seq<char>, reply: ReplyView) -> FetchOutcome<
    Seq<CityView>,
> {
    match reply {
        ReplyView::TransportFailure => FetchOutcome::Failed(FetchError::Network),
        ReplyView::Http { status, body } => if !is_success(status) {
            FetchOutcome::Failed(FetchError::Network)
        } else {
            match city_rows(region, body) {
                Ok(rows) => FetchOutcome::Success(rows),
                Err(error) => FetchOutcome::Failed(error),
            }
        },
    }
}

/// Reads the reply to a region's listing request. Every row is tagged with
/// the region that was asked for.
pub fn read_directory(region: &str, reply: &Reply) -> (outcome: FetchOutcome<Vec<City>>)
    ensures
        outcome@ == directory_outcome(region@, reply@),
{
    match reply {
        Reply::TransportFailure => FetchOutcome::Failed(FetchError::Network),
        Reply::Http { status, body } => {
            if *status < 200 || *status > 299 {
                FetchOutcome::Failed(FetchError::Network)
            } else {
                match parse_city_rows(region, body.as_str()) {
                    Ok(cities) => FetchOutcome::Success(cities),
                    Err(error) => FetchOutcome::Failed(error),
                }
            }
        },
    }
}

} // verus!
