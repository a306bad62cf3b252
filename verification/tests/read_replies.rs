use store_locator::directory::read_directory;
use store_locator::expander::read_listing;
use store_locator::html::MAX_TEXT;
use store_locator::leaf::{assemble_store, PageMarkers, ADDRESS_MARKER, POSTAL_MARKER};
use store_locator::model::{FetchError, FetchOutcome, Reply, SkipReason};

fn http(status: u16, body: &str) -> Reply {
    Reply::Http { status, body: String::from(body) }
}

fn markers() -> PageMarkers {
    PageMarkers::standard().expect("the two standard markers are selectors")
}

const FULL_PAGE: &str = r#"<html><body>
  <div class="store-address" itemprop="address">123 Main St</div>
  <span class="store-address-postal" itemprop="postalCode">93710</span>
</body></html>"#;

#[test]
fn transport_failure_is_a_network_error() {
    assert!(matches!(
        read_directory("CA", &Reply::TransportFailure),
        FetchOutcome::Failed(FetchError::Network)
    ));
    assert!(matches!(
        read_listing(&Reply::TransportFailure),
        FetchOutcome::Failed(FetchError::Network)
    ));
    assert!(matches!(
        markers().read_reply(1, &Reply::TransportFailure),
        FetchOutcome::Failed(FetchError::Network)
    ));
}

#[test]
fn status_outside_the_two_hundreds_is_a_network_error() {
    let body = r#"[{"city":"Fresno","storeId":123}]"#;
    for status in [0u16, 199, 300, 301, 404, 429, 500, 503] {
        assert!(matches!(
            read_directory("CA", &http(status, body)),
            FetchOutcome::Failed(FetchError::Network)
        ));
        assert!(matches!(
            read_listing(&http(status, "[]")),
            FetchOutcome::Failed(FetchError::Network)
        ));
        assert!(matches!(
            markers().read_reply(1, &http(status, FULL_PAGE)),
            FetchOutcome::Failed(FetchError::Network)
        ));
    }
}

#[test]
fn every_status_in_the_two_hundreds_is_read() {
    for status in [200u16, 201, 204, 299] {
        match read_directory("CA", &http(status, r#"[{"city":"Fresno","storeId":123}]"#)) {
            FetchOutcome::Success(cities) => assert_eq!(cities.len(), 1),
            _ => panic!("a listing with a success status is read"),
        }
    }
}

#[test]
fn bad_body_with_good_status_is_a_schema_error() {
    assert!(matches!(
        read_directory("CA", &http(200, "not json")),
        FetchOutcome::Failed(FetchError::Schema)
    ));
    assert!(matches!(
        read_listing(&http(200, r#"{"stores":[]}"#)),
        FetchOutcome::Failed(FetchError::Schema)
    ));
}

#[test]
fn listing_reply_gives_its_stores() {
    let body = r#"[{"storeId":7,"postalCode":"89501","address":"1 First St"}]"#;
    match read_listing(&http(200, body)) {
        FetchOutcome::Success(stores) => {
            assert_eq!(stores.len(), 1);
            assert_eq!(stores[0].store_id, 7);
            assert_eq!(stores[0].postal_code, "89501");
            assert_eq!(stores[0].address, "1 First St");
        }
        _ => panic!("a listing of one store"),
    }
}

#[test]
fn standard_markers_are_the_two_selectors() {
    assert_eq!(POSTAL_MARKER, ".store-address-postal[itemprop=postalCode]");
    assert_eq!(ADDRESS_MARKER, ".store-address[itemprop=address]");
    assert!(PageMarkers::standard().is_some());
}

#[test]
fn text_that_is_no_selector_gives_no_markers() {
    assert!(PageMarkers::parse("div[", ".store-address").is_none());
    assert!(PageMarkers::parse(".store-address-postal", "<<<").is_none());
    assert!(PageMarkers::parse("span.zip", "div.street").is_some());
}

#[test]
fn page_with_both_markers_gives_the_store() {
    match markers().read_page(123, FULL_PAGE) {
        FetchOutcome::Success(store) => {
            assert_eq!(store.store_id, 123);
            assert_eq!(store.postal_code, "93710");
            assert_eq!(store.address, "123 Main St");
        }
        _ => panic!("both markers are on the page"),
    }
}

#[test]
fn page_without_markers_is_skipped() {
    let outcome = markers().read_page(123, "<html><body><p>Coming soon</p></body></html>");
    assert!(matches!(outcome, FetchOutcome::Skipped(SkipReason::MissingField)));
    let empty = markers().read_page(123, "");
    assert!(matches!(empty, FetchOutcome::Skipped(SkipReason::MissingField)));
}

#[test]
fn page_with_one_marker_is_skipped() {
    let only_postal =
        r#"<span class="store-address-postal" itemprop="postalCode">93710</span>"#;
    assert!(matches!(
        markers().read_page(1, only_postal),
        FetchOutcome::Skipped(SkipReason::MissingField)
    ));
    let only_address = r#"<div class="store-address" itemprop="address">123 Main St</div>"#;
    assert!(matches!(
        markers().read_page(1, only_address),
        FetchOutcome::Skipped(SkipReason::MissingField)
    ));
}

#[test]
fn marker_needs_both_class_and_attribute() {
    let page = r#"<div class="store-address">123 Main St</div>
        <span itemprop="postalCode">93710</span>"#;
    assert!(matches!(
        markers().read_page(1, page),
        FetchOutcome::Skipped(SkipReason::MissingField)
    ));
}

#[test]
fn text_nodes_below_a_marker_are_joined_as_they_stand() {
    let page = r#"<div class="store-address" itemprop="address">
  <span>123 Main St</span>, <b>Suite <i>4</i></b>
</div>
<span class="store-address-postal" itemprop="postalCode"> 93710 </span>"#;
    match markers().read_page(9, page) {
        FetchOutcome::Success(store) => {
            assert_eq!(store.address, "\n  123 Main St, Suite 4\n");
            assert_eq!(store.postal_code, " 93710 ");
        }
        _ => panic!("both markers are on the page"),
    }
}

#[test]
fn first_matching_element_is_taken() {
    let page = r#"<div class="store-address" itemprop="address">First</div>
        <div class="store-address" itemprop="address">Second</div>
        <span class="store-address-postal" itemprop="postalCode">11111</span>
        <span class="store-address-postal" itemprop="postalCode">22222</span>"#;
    match markers().read_page(9, page) {
        FetchOutcome::Success(store) => {
            assert_eq!(store.address, "First");
            assert_eq!(store.postal_code, "11111");
        }
        _ => panic!("both markers are on the page"),
    }
}

#[test]
fn empty_marker_gives_an_empty_text_not_a_skip() {
    let page = r#"<div class="store-address" itemprop="address"></div>
        <span class="store-address-postal" itemprop="postalCode"></span>"#;
    match markers().read_page(9, page) {
        FetchOutcome::Success(store) => {
            assert_eq!(store.address, "");
            assert_eq!(store.postal_code, "");
        }
        _ => panic!("both markers are on the page"),
    }
}

#[test]
fn page_reply_with_good_status_is_read() {
    match markers().read_reply(123, &http(200, FULL_PAGE)) {
        FetchOutcome::Success(store) => {
            assert_eq!(store.store_id, 123);
            assert_eq!(store.postal_code, "93710");
            assert_eq!(store.address, "123 Main St");
        }
        _ => panic!("both markers are on the page"),
    }
    assert!(matches!(
        markers().read_reply(123, &http(200, "<p>nothing</p>")),
        FetchOutcome::Skipped(SkipReason::MissingField)
    ));
}

#[test]
fn store_is_assembled_only_from_both_fields() {
    match assemble_store(5, Some(String::from("93710")), Some(String::from("123 Main St"))) {
        FetchOutcome::Success(store) => {
            assert_eq!(store.store_id, 5);
            assert_eq!(store.postal_code, "93710");
            assert_eq!(store.address, "123 Main St");
        }
        _ => panic!("both fields are there"),
    }
    assert!(matches!(
        assemble_store(5, None, Some(String::from("123 Main St"))),
        FetchOutcome::Skipped(SkipReason::MissingField)
    ));
    assert!(matches!(
        assemble_store(5, Some(String::from("93710")), None),
        FetchOutcome::Skipped(SkipReason::MissingField)
    ));
    assert!(matches!(assemble_store(5, None, None), FetchOutcome::Skipped(SkipReason::MissingField)));
}

#[test]
fn text_longer_than_the_limit_is_not_read() {
    assert_eq!(MAX_TEXT, 256 * 1024 * 1024);
    let long = " ".repeat(MAX_TEXT + 1);
    assert!(matches!(
        markers().read_page(1, &long),
        FetchOutcome::Failed(FetchError::Schema)
    ));
    assert!(PageMarkers::parse(&long, ".store-address").is_none());
    assert!(PageMarkers::parse(".store-address-postal", &long).is_none());
    let reply = Reply::Http { status: 200, body: long };
    assert!(matches!(
        markers().read_reply(1, &reply),
        FetchOutcome::Failed(FetchError::Schema)
    ));
}

#[test]
fn request_without_an_address_is_a_transport_failure() {
    assert!(matches!(Reply::unsent(), Reply::TransportFailure));
    assert!(matches!(
        read_directory("CA", &Reply::unsent()),
        FetchOutcome::Failed(FetchError::Network)
    ));
}
