//! The addresses of the upstream's endpoints. The one listing endpoint is
//! asked in two ways, by region and by region and city, and each way is an
//! operation of its own. What `reqwest::Url` makes of a text is believed of
//! it, not proved.

use vstd::prelude::*;
use crate::model::{byte_len, length_of};
use crate::sweep::{Action, ActionView};

verus! {

/// The URL, in its normal form, that `Url::parse` reads from a text, or
/// `None` where it reports an error.
pub uninterp spec fn url_from_text(text: Seq<char>) -> Option<Seq<char>>;

/// The URL, in its normal form, that `Url::parse_with_params` makes of a
/// text and the query pairs to append, or `None` where it reports an error.
pub uninterp spec fn url_with_query(base: Seq<char>, pairs: Seq<(Seq<char>, Seq<char>)>) -> Option<
    Seq<char>,
>;

/// No part of an address may be longer than this, in bytes. `Url` keeps
/// an address as one text that it indexes with 32 bits, and a byte of a
/// part may stand there as three. This limit keeps five parts, so written,
/// far below what 32 bits index, on every machine; and it is far above the
/// length of any address, region or city that an upstream has.
pub const MAX_PART: usize = 65536;

/// No text is read as an address that is longer than this, in bytes: room
/// for one part and a number behind it, and as far below what `Url` can
/// index as `MAX_PART` is.
pub const MAX_URL: usize = 131072;

/// The texts of a sequence of query pairs, in order.
pub open spec fn pair_views(pairs: Seq<(String, String)>) -> Seq<(Seq<char>, Seq<char>)> {
    pairs.map_values(|p: (String, String)| (p.0@, p.1@))
}

/// The decimal digit of a number below ten.
pub open spec fn digit(d: nat) -> char {
    seq!['0', '1', '2', '3', '4', '5', '6', '7', '8', '9'][d as int]
}

/// The digits of a sequence of numbers below ten, in order.
pub open spec fn digits_of(numbers: Seq<u8>) -> Seq<char> {
    numbers.map_values(|d: u8| digit(d as nat))
}

/// A number in decimal, without sign or leading zeros.
pub open spec fn decimal(n: nat) -> Seq<char>
    decreases n,
{
    if n < 10 {
        seq![digit(n)]
    } else {
        decimal(n / 10).push(digit(n % 10))
    }
}

/// Calls `Url::parse` and hands out the URL as a string. An error becomes
/// `None`. The text is kept short of what `Url` can index.
#[verifier::external_body]
pub(crate) fn parse_url(text: &str) -> (r: Option<String>)
    requires
        byte_len(text@) <= MAX_URL,
    ensures
        match r {
            Some(url) => url_from_text(text@) == Some(url@),
            None => url_from_text(text@) is None,
        },
{
    reqwest::Url::parse(text).ok().map(String::from)
}

/// Calls `Url::parse_with_params` and hands out the URL as a string. An
/// error becomes `None`. The texts are kept short of what `Url` can index.
#[verifier::external_body]
pub(crate) fn parse_url_with_query(base: &str, pairs: &Vec<(String, String)>) -> (r: Option<String>)
    requires
        byte_len(base@) <= MAX_PART,
        pairs@.len() <= 2,
        forall|i: int|
            0 <= i < pairs@.len() ==> byte_len((#[trigger] pairs@[i]).0@) <= MAX_PART && byte_len(
                pairs@[i].1@,
            ) <= MAX_PART,
    ensures
        match r {
            Some(url) => url_with_query(base@, pair_views(pairs@)) == Some(url@),
            None => url_with_query(base@, pair_views(pairs@)) is None,
        },
{
    reqwest::Url::parse_with_params(base, pairs.iter()).ok().map(String::from)
}

/// The digit of a number below ten, as a text of one character.
fn digit_text(d: u8) -> (text: &'static str)
    requires
        d < 10,
    ensures
        text@ == seq![digit(d as nat)],
{
    proof {
        reveal_strlit("0");
        reveal_strlit("1");
        reveal_strlit("2");
        reveal_strlit("3");
        reveal_strlit("4");
        reveal_strlit("5");
        reveal_strlit("6");
        reveal_strlit("7");
        reveal_strlit("8");
        reveal_strlit("9");
    }
    let text = match d {
        0 => "0",
        1 => "1",
        2 => "2",
        3 => "3",
        4 => "4",
        5 => "5",
        6 => "6",
        7 => "7",
        8 => "8",
        _ => "9",
    };
    assert(text@ =~= seq![digit(d as nat)]);
    text
}

/// Writes a number in decimal behind a text.
fn append_decimal(text: &mut String, number: u64)
    ensures
        final(text)@ == old(text)@ + decimal(number as nat),
{
    let mut low_first: Vec<u8> = Vec::new();
    let mut rest: u64 = number;
    while rest >= 10
        invariant
            forall|j: int| 0 <= j < low_first@.len() ==> low_first@[j] < 10,
            decimal(number as nat) =~= decimal(rest as nat) + digits_of(low_first@).reverse(),
        decreases rest,
    {
        let ghost before = low_first@;
        let ghost whole = rest;
        low_first.push((rest % 10) as u8);
        rest = rest / 10;
        proof {
            assert(decimal(whole as nat) == decimal(rest as nat).push(digit((whole % 10) as nat)));
            assert(digits_of(low_first@).reverse() =~= seq![digit((whole % 10) as nat)]
                + digits_of(before).reverse());
            assert(decimal(rest as nat).push(digit((whole % 10) as nat)) + digits_of(
                before,
            ).reverse() =~= decimal(rest as nat) + digits_of(low_first@).reverse());
        }
    }
    let ghost start = text@;
    text.append(digit_text(rest as u8));
    assert(text@ =~= start + decimal(rest as nat));
    let mut i: usize = low_first.len();
    while i > 0
        invariant
            i <= low_first@.len(),
            forall|j: int| 0 <= j < low_first@.len() ==> low_first@[j] < 10,
            text@ + digits_of(low_first@.subrange(0, i as int)).reverse() =~= start + decimal(
                number as nat,
            ),
        decreases i,
    {
        let ghost before = text@;
        let ghost longer = digits_of(low_first@.subrange(0, i as int));
        i -= 1;
        text.append(digit_text(low_first[i]));
        proof {
            assert(longer.reverse() =~= seq![digit(low_first@[i as int] as nat)] + digits_of(
                low_first@.subrange(0, i as int),
            ).reverse());
            assert(before + longer.reverse() =~= text@ + digits_of(
                low_first@.subrange(0, i as int),
            ).reverse());
        }
    }
    assert(digits_of(low_first@.subrange(0, 0)).reverse() =~= Seq::<char>::empty());
}

/// Where the upstream is found.
pub struct Endpoints {
    /// The address of the listing endpoint.
    pub directory: String,
    /// The name of the query parameter that carries the region.
    pub region_key: String,
    /// The name of the query parameter that carries the city.
    pub city_key: String,
    /// What stands before the store's id in the address of its page.
    pub store_page: String,
}

/// The endpoints with their texts as sequences of characters.
pub struct EndpointsView {
    pub directory: Seq<char>,
    pub region_key: Seq<char>,
    pub city_key: Seq<char>,
    pub store_page: Seq<char>,
}

impl View for Endpoints {
    type V = EndpointsView;

    open spec fn view(&self) -> EndpointsView {
        EndpointsView {
            directory: self.directory@,
            region_key: self.region_key@,
            city_key: self.city_key@,
            store_page: self.store_page@,
        }
    }
}

/// The address of the listing of a region.
pub open spec fn directory_address(endpoints: EndpointsView, region: Seq<char>) -> Option<
    Seq<char>,
> {
    url_with_query(endpoints.directory, seq![(endpoints.region_key, region)])
}

/// The address of the listing of a city in a region.
pub open spec fn city_address(endpoints: EndpointsView, region: Seq<char>, city: Seq<char>) -> Option<
    Seq<char>,
> {
    url_with_query(
        endpoints.directory,
        seq![(endpoints.region_key, region), (endpoints.city_key, city)],
    )
}

/// The address of a store's detail page.
pub open spec fn store_address(endpoints: EndpointsView, store_id: u64) -> Option<Seq<char>> {
    url_from_text(endpoints.store_page + decimal(store_id as nat))
}

/// Whether a text is short enough to be part of an address.
pub open spec fn fits(text: Seq<char>) -> bool {
    byte_len(text) <= MAX_PART
}

/// The address of the listing of a region, where its parts are short
/// enough and a URL comes of them.
pub open spec fn directory_target(endpoints: EndpointsView, region: Seq<char>) -> Option<Seq<char>> {
    if fits(endpoints.directory) && fits(endpoints.region_key) && fits(region) {
        directory_address(endpoints, region)
    } else {
        None
    }
}

/// The address of the listing of a city, where its parts are short enough
/// and a URL comes of them.
pub open spec fn city_target(endpoints: EndpointsView, region: Seq<char>, city: Seq<char>) -> Option<
    Seq<char>,
> {
    if fits(endpoints.directory) && fits(endpoints.region_key) && fits(region) && fits(
        endpoints.city_key,
    ) && fits(city) {
        city_address(endpoints, region, city)
    } else {
        None
    }
}

/// The address of a store's detail page, where the prefix with the id
/// behind it is short enough and a URL comes of it.
pub open spec fn store_target(endpoints: EndpointsView, store_id: u64) -> Option<Seq<char>> {
    if byte_len(endpoints.store_page + decimal(store_id as nat)) <= MAX_URL {
        store_address(endpoints, store_id)
    } else {
        None
    }
}

/// The address that an action fetches: none for an action that fetches
/// nothing.
pub open spec fn target_of(endpoints: EndpointsView, action: ActionView) -> Option<Seq<char>> {
    match action {
        ActionView::FetchDirectory { index, region } => directory_target(endpoints, region),
        ActionView::FetchCityListing { ticket, region, city } => city_target(
            endpoints,
            region,
            city,
        ),
        ActionView::FetchStorePage { ticket, store_id } => store_target(endpoints, store_id),
        ActionView::Wait => None,
        ActionView::Hold { until } => None,
        ActionView::Finished => None,
    }
}

/// An optional string as an optional sequence of characters.
pub open spec fn text_of(text: Option<String>) -> Option<Seq<char>> {
    match text {
        Some(text) => Some(text@),
        None => None,
    }
}

fn short_enough(text: &str) -> (b: bool)
    ensures
        b == fits(text@),
{
    length_of(text) <= MAX_PART
}

impl Endpoints {
    /// Checks a configuration before a sweep starts. There are endpoints
    /// exactly when no part is longer than `MAX_PART` bytes and the two
    /// addresses are URLs.
    pub fn new(directory: String, region_key: String, city_key: String, store_page: String) -> (r:
        Option<Endpoints>)
        ensures
            r is Some <==> {
                &&& fits(directory@)
                &&& fits(region_key@)
                &&& fits(city_key@)
                &&& fits(store_page@)
                &&& url_from_text(directory@) is Some
                &&& url_from_text(store_page@) is Some
            },
            r matches Some(endpoints) ==> endpoints@ == (EndpointsView {
                directory: directory@,
                region_key: region_key@,
                city_key: city_key@,
                store_page: store_page@,
            }),
    {
        if !short_enough(directory.as_str()) || !short_enough(region_key.as_str())
            || !short_enough(city_key.as_str()) || !short_enough(store_page.as_str()) {
            return None;
        }
        if parse_url(directory.as_str()).is_none() {
            return None;
        }
        if parse_url(store_page.as_str()).is_none() {
            return None;
        }
        Some(Endpoints { directory, region_key, city_key, store_page })
    }

    /// The address of the listing of a region.
    pub fn directory_url(&self, region: &str) -> (r: Option<String>)
        ensures
            text_of(r) == directory_target(self@, region@),
    {
        if !short_enough(self.directory.as_str()) || !short_enough(self.region_key.as_str())
            || !short_enough(region) {
            return None;
        }
        let pairs: Vec<(String, String)> = vec![(self.region_key.clone(), region.to_owned())];
        assert(pair_views(pairs@) =~= seq![(self.region_key@, region@)]);
        parse_url_with_query(self.directory.as_str(), &pairs)
    }

    /// The address of the listing of a city in a region.
    pub fn city_url(&self, region: &str, city: &str) -> (r: Option<String>)
        ensures
            text_of(r) == city_target(self@, region@, city@),
    {
        if !short_enough(self.directory.as_str()) || !short_enough(self.region_key.as_str())
            || !short_enough(region) || !short_enough(self.city_key.as_str()) || !short_enough(
            city,
        ) {
            return None;
        }
        let pairs: Vec<(String, String)> = vec![
            (self.region_key.clone(), region.to_owned()),
            (self.city_key.clone(), city.to_owned()),
        ];
        assert(pair_views(pairs@) =~= seq![(self.region_key@, region@), (self.city_key@, city@)]);
        parse_url_with_query(self.directory.as_str(), &pairs)
    }

    /// The address of a store's detail page.
    pub fn store_url(&self, store_id: u64) -> (r: Option<String>)
        ensures
            text_of(r) == store_target(self@, store_id),
    {
        let mut text = self.store_page.clone();
        append_decimal(&mut text, store_id);
        if length_of(text.as_str()) > MAX_URL {
            return None;
        }
        parse_url(text.as_str())
    }

    /// The address to fetch for an action.
    pub fn url_for(&self, action: &Action) -> (r: Option<String>)
        ensures
            text_of(r) == target_of(self@, action@),
    {
        match action {
            Action::FetchDirectory { index, region } => self.directory_url(region.as_str()),
            Action::FetchCityListing { ticket, region, city } => self.city_url(
                region.as_str(),
                city.as_str(),
            ),
            Action::FetchStorePage { ticket, store_id } => self.store_url(*store_id),
            Action::Wait => None,
            Action::Hold { until } => None,
            Action::Finished => None,
        }
    }
}

} // verus!
