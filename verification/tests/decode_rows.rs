use store_locator::decode::{
    decode_cities, decode_city, decode_store, decode_stores, parse_city_rows, parse_store_rows,
};
use store_locator::model::FetchError;

fn value(text: &str) -> serde_json::Value {
    serde_json::from_str(text).expect("the test's own JSON is well formed")
}

#[test]
fn city_row_with_id_and_null_count() {
    let cities = parse_city_rows("CA", r#"[{"city":"Fresno","storeId":123,"storeCount":null}]"#)
        .expect("an array of one city row");
    assert_eq!(cities.len(), 1);
    assert_eq!(cities[0].region, "CA");
    assert_eq!(cities[0].name, "Fresno");
    assert_eq!(cities[0].store_id, Some(123));
    assert_eq!(cities[0].store_count, None);
}

#[test]
fn city_row_with_null_id_and_count() {
    let cities = parse_city_rows("NV", r#"[{"city":"Reno","storeId":null,"storeCount":3}]"#)
        .expect("an array of one city row");
    assert_eq!(cities.len(), 1);
    assert_eq!(cities[0].region, "NV");
    assert_eq!(cities[0].name, "Reno");
    assert_eq!(cities[0].store_id, None);
    assert_eq!(cities[0].store_count, Some(3));
}

#[test]
fn city_row_without_optional_members() {
    let cities = parse_city_rows("TX", r#"[{"city":"Austin"}]"#).expect("a bare city row");
    assert_eq!(cities.len(), 1);
    assert_eq!(cities[0].name, "Austin");
    assert_eq!(cities[0].store_id, None);
    assert_eq!(cities[0].store_count, None);
}

#[test]
fn city_rows_keep_their_order_and_ignore_other_members() {
    let body = r#"[
        {"city":"A","storeId":1,"extra":true},
        {"city":"B","storeCount":2,"nested":{"x":[1,2]}},
        {"city":"C","storeId":3,"storeCount":4}
    ]"#;
    let cities = parse_city_rows("OR", body).expect("three city rows");
    let names: Vec<&str> = cities.iter().map(|c| c.name.as_str()).collect();
    assert_eq!(names, vec!["A", "B", "C"]);
    assert_eq!(cities[0].store_id, Some(1));
    assert_eq!(cities[1].store_count, Some(2));
    assert_eq!(cities[2].store_id, Some(3));
    assert_eq!(cities[2].store_count, Some(4));
    assert!(cities.iter().all(|c| c.region == "OR"));
}

#[test]
fn empty_array_is_no_city() {
    let cities = parse_city_rows("WY", "[]").expect("an empty array");
    assert!(cities.is_empty());
}

#[test]
fn text_that_is_no_json_is_a_schema_error() {
    assert!(matches!(parse_city_rows("CA", "<html>blocked</html>"), Err(FetchError::Schema)));
    assert!(matches!(parse_city_rows("CA", ""), Err(FetchError::Schema)));
    assert!(matches!(parse_store_rows("[{"), Err(FetchError::Schema)));
}

#[test]
fn document_that_is_no_array_is_a_schema_error() {
    assert!(matches!(parse_city_rows("CA", r#"{"city":"Fresno"}"#), Err(FetchError::Schema)));
    assert!(matches!(parse_city_rows("CA", "null"), Err(FetchError::Schema)));
    assert!(matches!(parse_store_rows("17"), Err(FetchError::Schema)));
}

#[test]
fn one_bad_city_row_fails_the_listing() {
    let body = r#"[{"city":"Fresno","storeId":1},{"storeId":2}]"#;
    assert!(matches!(parse_city_rows("CA", body), Err(FetchError::Schema)));
    assert!(matches!(parse_city_rows("CA", r#"["Fresno"]"#), Err(FetchError::Schema)));
    assert!(matches!(parse_city_rows("CA", r#"[{"city":17}]"#), Err(FetchError::Schema)));
}

#[test]
fn city_numbers_must_be_unsigned_integers() {
    assert!(decode_city("CA", &value(r#"{"city":"F","storeId":-1}"#)).is_none());
    assert!(decode_city("CA", &value(r#"{"city":"F","storeId":1.5}"#)).is_none());
    assert!(decode_city("CA", &value(r#"{"city":"F","storeId":"12"}"#)).is_none());
    assert!(decode_city("CA", &value(r#"{"city":"F","storeCount":false}"#)).is_none());
    let largest = decode_city("CA", &value(r#"{"city":"F","storeId":18446744073709551615}"#))
        .expect("the largest id fits");
    assert_eq!(largest.store_id, Some(u64::MAX));
}

#[test]
fn store_rows_are_read_in_order() {
    let body = r#"[
        {"storeId":11,"postalCode":"89501","address":"1 First St"},
        {"storeId":12,"postalCode":"89502","address":"2 Second St"},
        {"storeId":13,"postalCode":"89503","address":"3 Third St"}
    ]"#;
    let stores = parse_store_rows(body).expect("three store rows");
    assert_eq!(stores.len(), 3);
    assert_eq!(stores[0].store_id, 11);
    assert_eq!(stores[0].postal_code, "89501");
    assert_eq!(stores[0].address, "1 First St");
    assert_eq!(stores[1].store_id, 12);
    assert_eq!(stores[2].store_id, 13);
    assert_eq!(stores[2].address, "3 Third St");
}

#[test]
fn store_row_needs_all_three_members() {
    assert!(decode_store(&value(r#"{"postalCode":"1","address":"a"}"#)).is_none());
    assert!(decode_store(&value(r#"{"storeId":1,"address":"a"}"#)).is_none());
    assert!(decode_store(&value(r#"{"storeId":1,"postalCode":"1"}"#)).is_none());
    assert!(decode_store(&value(r#"{"storeId":null,"postalCode":"1","address":"a"}"#)).is_none());
    assert!(decode_store(&value(r#"{"storeId":1,"postalCode":93710,"address":"a"}"#)).is_none());
    assert!(decode_store(&value(r#"[1,"1","a"]"#)).is_none());
    let store =
        decode_store(&value(r#"{"storeId":1,"postalCode":"1","address":"a"}"#)).expect("a store");
    assert_eq!(store.store_id, 1);
}

#[test]
fn city_shaped_rows_are_no_stores() {
    let body = r#"[{"city":"Reno","storeId":null,"storeCount":3}]"#;
    assert!(matches!(parse_store_rows(body), Err(FetchError::Schema)));
}

#[test]
fn parsed_documents_decode_as_their_texts_do() {
    let listing = value(r#"[{"city":"Fresno","storeId":123}]"#);
    let cities = decode_cities("CA", &listing).expect("one city row");
    assert_eq!(cities.len(), 1);
    assert_eq!(cities[0].store_id, Some(123));
    assert!(decode_cities("CA", &value("{}")).is_none());
    let stores = decode_stores(&value(r#"[{"storeId":5,"postalCode":"p","address":"a"}]"#))
        .expect("one store row");
    assert_eq!(stores.len(), 1);
    assert_eq!(stores[0].store_id, 5);
    assert!(decode_stores(&value(r#"[{"storeId":5}]"#)).is_none());
}
