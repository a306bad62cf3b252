//! The regions that a sweep covers by default.

use vstd::prelude::*;
use crate::model::text_views;

verus! {

/// The codes of the default regions, in the order in which they are swept.
pub open spec fn default_codes() -> Seq<Seq<char>> {
    seq![
        "AL"@, "AK"@, "AZ"@, "AR"@, "CA"@, "CO"@, "CT"@, "DE"@, "FL"@, "GA"@, "HI"@, "ID"@, "IL"@,
        "IN"@, "IA"@, "KS"@, "KY"@, "LA"@, "ME"@, "MD"@, "MA"@, "MI"@, "MN"@, "MS"@, "MO"@, "MT"@,
        "NE"@, "NV"@, "NH"@, "NJ"@, "NM"@, "NY"@, "NC"@, "ND"@, "OH"@, "OK"@, "OR"@, "PA"@, "RI"@,
        "SC"@, "SD"@, "TN"@, "TX"@, "UT"@, "VT"@, "VA"@, "WA"@, "DC"@, "WV"@, "WI"@, "WY"@,
    ]
}

/// The default regions: the fifty states and the federal district.
pub fn default_regions() -> (regions: Vec<String>)
    ensures
        text_views(regions@) == default_codes(),
        regions@.len() == 51,
{
    let codes: [&str; 51] = [
        "AL", "AK", "AZ", "AR", "CA", "CO", "CT", "DE", "FL", "GA", "HI", "ID", "IL", "IN", "IA",
        "KS", "KY", "LA", "ME", "MD", "MA", "MI", "MN", "MS", "MO", "MT", "NE", "NV", "NH", "NJ",
        "NM", "NY", "NC", "ND", "OH", "OK", "OR", "PA", "RI", "SC", "SD", "TN", "TX", "UT", "VT",
        "VA", "WA", "DC", "WV", "WI", "WY",
    ];
    let mut regions: Vec<String> = Vec::new();
    let mut i: usize = 0;
    while i < 51
        invariant
            i <= 51,
            codes@.len() == 51,
            regions@.len() == i,
            forall|j: int| 0 <= j < i ==> (#[trigger] regions@[j])@ == codes@[j]@,
        decreases 51 - i,
    {
        regions.push(codes[i].to_owned());
        i += 1;
    }
    proof {
        assert(codes@ =~= seq![
            "AL", "AK", "AZ", "AR", "CA", "CO", "CT", "DE", "FL", "GA", "HI", "ID", "IL", "IN",
            "IA", "KS", "KY", "LA", "ME", "MD", "MA", "MI", "MN", "MS", "MO", "MT", "NE", "NV",
            "NH", "NJ", "NM", "NY", "NC", "ND", "OH", "OK", "OR", "PA", "RI", "SC", "SD", "TN",
            "TX", "UT", "VT", "VA", "WA", "DC", "WV", "WI", "WY",
        ]);
        assert(text_views(regions@) =~= default_codes());
    }
    regions
}

} // verus!
