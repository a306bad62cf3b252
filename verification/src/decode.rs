//! Decoding of listing bodies. The same endpoint answers with city rows when
//! asked by region, and with store rows when asked by region and city; each
//! shape has its own decoder.

use vstd::prelude::*;
use crate::json::{
    json_model, json_parse, member, parse_value, value_as_array, value_as_string, value_as_u64,
    value_get, value_is_null, JsonModel,
};
use crate::model::{city_views, store_views, City, CityView, FetchError, Store, StoreView};

verus! {

/// An optional number under a key: absent and `null` both stand for none.
/// The outer `None` marks a member of any other kind.
pub open spec fn optional_number(doc: JsonModel, key: Seq<char>) -> Option<Option<u64>> {
    match member(doc, key) {
        None => Some(None),
        Some(JsonModel::Null) => Some(None),
        Some(JsonModel::Number(Some(n))) => Some(Some(n)),
        Some(_) => None,
    }
}

/// A number that must be there.
pub open spec fn required_number(doc: JsonModel, key: Seq<char>) -> Option<u64> {
    match member(doc, key) {
        Some(JsonModel::Number(Some(n))) => Some(n),
        _ => None,
    }
}

/// A string that must be there.
pub open spec fn required_text(doc: JsonModel, key: Seq<char>) -> Option<Seq<char>> {
    match member(doc, key) {
        Some(JsonModel::Text(text)) => Some(text),
        _ => None,
    }
}

/// The city row that an object of the form `{city, storeId?, storeCount?}`
/// stands for, tagged with the region it was asked for.
pub open spec fn city_of(region: Seq<char>, doc: JsonModel) -> Option<CityView> {
    if required_text(doc, "city"@) is Some && optional_number(doc, "storeId"@) is Some
        && optional_number(doc, "storeCount"@) is Some {
        Some(
            CityView {
                region,
                name: required_text(doc, "city"@)->Some_0,
                store_id: optional_number(doc, "storeId"@)->Some_0,
                store_count: optional_number(doc, "storeCount"@)->Some_0,
            },
        )
    } else {
        None
    }
}

/// The store that an object of the form `{storeId, postalCode, address}`
/// stands for.
pub open spec fn store_of(doc: JsonModel) -> Option<StoreView> {
    if required_number(doc, "storeId"@) is Some && required_text(doc, "postalCode"@) is Some
        && required_text(doc, "address"@) is Some {
        Some(
            StoreView {
                store_id: required_number(doc, "storeId"@)->Some_0,
                postal_code: required_text(doc, "postalCode"@)->Some_0,
                address: required_text(doc, "address"@)->Some_0,
            },
        )
    } else {
        None
    }
}

/// The city rows of a document: it must be an array whose every element is
/// a city row. The rows keep the order of the array.
pub open spec fn cities_of(region: Seq<char>, doc: JsonModel) -> Option<Seq<CityView>> {
    if doc is Array && (forall|i: int|
        0 <= i < doc->Array_0.len() ==> (#[trigger] city_of(region, doc->Array_0[i])) is Some) {
        Some(Seq::new(doc->Array_0.len(), |i: int| city_of(region, doc->Array_0[i])->Some_0))
    } else {
        None
    }
}

/// The store rows of a document: it must be an array whose every element is
/// a store row. The rows keep the order of the array.
pub open spec fn stores_of(doc: JsonModel) -> Option<Seq<StoreView>> {
    if doc is Array && (forall|i: int|
        0 <= i < doc->Array_0.len() ==> (#[trigger] store_of(doc->Array_0[i])) is Some) {
        Some(Seq::new(doc->Array_0.len(), |i: int| store_of(doc->Array_0[i])->Some_0))
    } else {
        None
    }
}

/// The city rows that a body holds, or a schema error where the body is no
/// JSON or not an array of city rows.
pub open spec fn city_rows(region: Seq<char>, body: Seq<char>) -> Result<
    Seq<CityView>,
    FetchError,
> {
    match json_parse(body) {
        Some(doc) => match cities_of(region, doc) {
            Some(rows) => Ok(rows),
            None => Err(FetchError::Schema),
        },
        None => Err(FetchError::Schema),
    }
}

/// The store rows that a body holds, or a schema error where the body is no
/// JSON or not an array of store rows.
pub open spec fn store_rows(body: Seq<char>) -> Result<Seq<StoreView>, FetchError> {
    match json_parse(body) {
        Some(doc) => match stores_of(doc) {
            Some(rows) => Ok(rows),
            None => Err(FetchError::Schema),
        },
        None => Err(FetchError::Schema),
    }
}

fn read_optional_number(value: &serde_json::Value, key: &str) -> (r: Option<Option<u64>>)
    ensures
        r == optional_number(json_model(*value), key@),
{
    match value_get(value, key) {
        None => Some(None),
        Some(found) => {
            if value_is_null(found) {
                Some(None)
            } else {
                match value_as_u64(found) {
                    Some(n) => Some(Some(n)),
                    None => None,
                }
            }
        },
    }
}

fn read_required_number(value: &serde_json::Value, key: &str) -> (r: Option<u64>)
    ensures
        r == required_number(json_model(*value), key@),
{
    match value_get(value, key) {
        None => None,
        Some(found) => value_as_u64(found),
    }
}

fn read_required_text(value: &serde_json::Value, key: &str) -> (r: Option<String>)
    ensures
        match r {
            Some(text) => required_text(json_model(*value), key@) == Some(text@),
            None => required_text(json_model(*value), key@) is None,
        },
{
    match value_get(value, key) {
        None => None,
        Some(found) => value_as_string(found),
    }
}

/// Decodes one element of a region's listing.
pub fn decode_city(region: &str, value: &serde_json::Value) -> (r: Option<City>)
    ensures
        match r {
            Some(city) => city_of(region@, json_model(*value)) == Some(city@),
            None => city_of(region@, json_model(*value)) is None,
        },
{
    let name = match read_required_text(value, "city") {
        Some(text) => text,
        None => {
            return None;
        },
    };
    let store_id = match read_optional_number(value, "storeId") {
        Some(n) => n,
        None => {
            return None;
        },
    };
    let store_count = match read_optional_number(value, "storeCount") {
        Some(n) => n,
        None => {
            return None;
        },
    };
    Some(City { region: region.to_owned(), name, store_id, store_count })
}

/// Decodes one element of a city's listing.
pub fn decode_store(value: &serde_json::Value) -> (r: Option<Store>)
    ensures
        match r {
            Some(store) => store_of(json_model(*value)) == Some(store@),
            None => store_of(json_model(*value)) is None,
        },
{
    let store_id: u64 = match read_required_number(value, "storeId") {
        Some(n) => n,
        None => {
            return None;
        },
    };
    let postal_code = match read_required_text(value, "postalCode") {
        Some(text) => text,
        None => {
            return None;
        },
    };
    let address = match read_required_text(value, "address") {
        Some(text) => text,
        None => {
            return None;
        },
    };
    Some(Store { store_id, postal_code, address })
}

/// Decodes a parsed listing of a region into its city rows.
pub fn decode_cities(region: &str, value: &serde_json::Value) -> (r: Option<Vec<City>>)
    ensures
        match r {
            Some(cities) => cities_of(region@, json_model(*value)) == Some(city_views(cities@)),
            None => cities_of(region@, json_model(*value)) is None,
        },
{
    let items = match value_as_array(value) {
        Some(items) => items,
        None => {
            return None;
        },
    };
    let ghost docs = json_model(*value)->Array_0;
    let mut cities: Vec<City> = Vec::new();
    let mut i: usize = 0;
    while i < items.len()
        invariant
            i <= items@.len(),
            items@.len() == docs.len(),
            json_model(*value) is Array,
            docs == json_model(*value)->Array_0,
            forall|j: int| 0 <= j < items@.len() ==> #[trigger] json_model(items@[j]) == docs[j],
            cities@.len() == i,
            forall|j: int|
                0 <= j < i ==> city_of(region@, docs[j]) == Some((#[trigger] cities@[j])@),
        decreases items@.len() - i,
    {
        match decode_city(region, &items[i]) {
            Some(city) => {
                cities.push(city);
            },
            None => {
                assert(city_of(region@, docs[i as int]) is None);
                return None;
            },
        }
        i += 1;
    }
    proof {
        assert forall|j: int| 0 <= j < docs.len() implies (#[trigger] city_of(
            region@,
            docs[j],
        )) is Some by {
            assert(city_of(region@, docs[j]) == Some(cities@[j]@));
        }
        assert(cities_of(region@, json_model(*value))->Some_0 =~= city_views(cities@));
    }
    Some(cities)
}

/// Decodes a parsed listing of a city into its store rows.
pub fn decode_stores(value: &serde_json::Value) -> (r: Option<Vec<Store>>)
    ensures
        match r {
            Some(stores) => stores_of(json_model(*value)) == Some(store_views(stores@)),
            None => stores_of(json_model(*value)) is None,
        },
{
    let items = match value_as_array(value) {
        Some(items) => items,
        None => {
            return None;
        },
    };
    let ghost docs = json_model(*value)->Array_0;
    let mut stores: Vec<Store> = Vec::new();
    let mut i: usize = 0;
    while i < items.len()
        invariant
            i <= items@.len(),
            items@.len() == docs.len(),
            json_model(*value) is Array,
            docs == json_model(*value)->Array_0,
            forall|j: int| 0 <= j < items@.len() ==> #[trigger] json_model(items@[j]) == docs[j],
            stores@.len() == i,
            forall|j: int| 0 <= j < i ==> store_of(docs[j]) == Some((#[trigger] stores@[j])@),
        decreases items@.len() - i,
    {
        match decode_store(&items[i]) {
            Some(store) => {
                stores.push(store);
            },
            None => {
                assert(store_of(docs[i as int]) is None);
                return None;
            },
        }
        i += 1;
    }
    proof {
        assert forall|j: int| 0 <= j < docs.len() implies (#[trigger] store_of(docs[j])) is Some by {
            assert(store_of(docs[j]) == Some(stores@[j]@));
        }
        assert(stores_of(json_model(*value))->Some_0 =~= store_views(stores@));
    }
    Some(stores)
}

/// Reads the body of a region's listing.
pub fn parse_city_rows(region: &str, body: &str) -> (r: Result<Vec<City>, FetchError>)
    ensures
        match r {
            Ok(cities) => city_rows(region@, body@) == Ok::<Seq<CityView>, FetchError>(
                city_views(cities@),
            ),
            Err(e) => city_rows(region@, body@) == Err::<Seq<CityView>, FetchError>(e),
        },
{
    match parse_value(body) {
        Ok(value) => match decode_cities(region, &value) {
            Some(cities) => Ok(cities),
            None => Err(FetchError::Schema),
        },
        Err(_) => Err(FetchError::Schema),
    }
}

/// Reads the body of a city's listing.
pub fn parse_store_rows(body: &str) -> (r: Result<Vec<Store>, FetchError>)
    ensures
        match r {
            Ok(stores) => store_rows(body@) == Ok::<Seq<StoreView>, FetchError>(
                store_views(stores@),
            ),
            Err(e) => store_rows(body@) == Err::<Seq<StoreView>, FetchError>(e),
        },
{
    match parse_value(body) {
        Ok(value) => match decode_stores(&value) {
            Some(stores) => Ok(stores),
            None => Err(FetchError::Schema),
        },
        Err(_) => Err(FetchError::Schema),
    }
}

} // verus!
