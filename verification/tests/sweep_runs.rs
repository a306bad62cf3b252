use store_locator::leaf::PageMarkers;
use store_locator::model::{FetchError, FetchOutcome, Reply, SkipReason, Store};
use store_locator::schedule::ListingStatus;
use store_locator::sweep::{Action, Sweep, SweepError};

fn http(body: &str) -> Reply {
    Reply::Http { status: 200, body: String::from(body) }
}

fn sweep_over(regions: &[&str], stage1_limit: usize, stage2_limit: usize) -> Sweep {
    let regions: Vec<String> = regions.iter().map(|r| String::from(*r)).collect();
    let markers = PageMarkers::standard().expect("the two standard markers are selectors");
    match Sweep::new(regions, stage1_limit, stage2_limit, markers) {
        Ok(sweep) => sweep,
        Err(_) => panic!("both budgets are at least one"),
    }
}

fn page(postal_code: &str, address: &str) -> String {
    format!(
        r#"<html><body><div class="store-address" itemprop="address">{}</div><span class="store-address-postal" itemprop="postalCode">{}</span></body></html>"#,
        address, postal_code
    )
}

fn triple(store: &Store) -> (u64, String, String) {
    (store.store_id, store.postal_code.clone(), store.address.clone())
}

/// A fixed upstream: the same request always has the same reply.
fn upstream(action: &Action) -> Reply {
    match action {
        Action::FetchDirectory { region, .. } => match region.as_str() {
            "CA" => http(
                r#"[{"city":"Fresno","storeId":123,"storeCount":null},{"city":"Chico","storeId":124}]"#,
            ),
            "NV" => http(r#"[{"city":"Reno","storeId":null,"storeCount":3}]"#),
            "OR" => http(r#"[{"city":"Bend"},{"city":"Salem","storeId":9,"storeCount":2}]"#),
            "UT" => Reply::Http { status: 503, body: String::from("busy") },
            "AZ" => http("not json"),
            _ => http("[]"),
        },
        Action::FetchStorePage { store_id, .. } => match store_id {
            123 => http(&page("93710", "123 Main St")),
            124 => http("<html><body>moved</body></html>"),
            _ => Reply::TransportFailure,
        },
        Action::FetchCityListing { region, city, .. } => match (region.as_str(), city.as_str()) {
            ("NV", "Reno") => http(
                r#"[{"storeId":11,"postalCode":"89501","address":"1 First St"},
                    {"storeId":12,"postalCode":"89502","address":"2 Second St"},
                    {"storeId":13,"postalCode":"89503","address":"3 Third St"}]"#,
            ),
            ("OR", "Bend") => http(r#"[{"storeId":21,"postalCode":"97701","address":"5 Pine"}]"#),
            ("OR", "Salem") => http(r#"{"error":"shape"}"#),
            _ => http("[]"),
        },
        Action::Wait | Action::Hold { .. } | Action::Finished => {
            panic!("nothing is fetched for this action")
        }
    }
}

/// Drives a sweep to its end against the fixed upstream. Replies are handed
/// in oldest first or newest first, and only when nothing can be started.
fn drive(sweep: &mut Sweep, newest_first: bool) -> (usize, usize) {
    let mut in_flight: Vec<Action> = Vec::new();
    let mut most_in_stage1 = 0;
    let mut most_in_stage2 = 0;
    loop {
        let action = sweep.next_action();
        most_in_stage1 = most_in_stage1.max(sweep.stage1_in_flight());
        most_in_stage2 = most_in_stage2.max(sweep.stage2_in_flight());
        match action {
            Action::Finished => {
                assert!(in_flight.is_empty());
                assert!(sweep.is_finished());
                return (most_in_stage1, most_in_stage2);
            }
            Action::Wait => {
                assert!(!in_flight.is_empty());
                let answered =
                    if newest_first { in_flight.pop().unwrap() } else { in_flight.remove(0) };
                let reply = upstream(&answered);
                match answered {
                    Action::FetchDirectory { index, .. } => {
                        assert!(sweep.complete_directory(index, &reply).is_ok());
                    }
                    Action::FetchStorePage { ticket, .. }
                    | Action::FetchCityListing { ticket, .. } => {
                        assert!(sweep.complete_city(ticket, &reply).is_ok());
                    }
                    Action::Wait | Action::Hold { .. } | Action::Finished => unreachable!(),
                }
            }
            started => in_flight.push(started),
        }
    }
}

fn sorted_ids(stores: &[Store]) -> Vec<u64> {
    let mut ids: Vec<u64> = stores.iter().map(|s| s.store_id).collect();
    ids.sort();
    ids
}

#[test]
fn leaf_city_is_resolved_by_its_store_page() {
    let mut sweep = sweep_over(&["CA"], 10, 10);
    match sweep.next_action() {
        Action::FetchDirectory { index, region } => {
            assert_eq!(index, 0);
            assert_eq!(region, "CA");
        }
        _ => panic!("the one region is started first"),
    }
    assert!(matches!(sweep.next_action(), Action::Wait));
    let listing = http(r#"[{"city":"Fresno","storeId":123,"storeCount":null}]"#);
    assert!(matches!(sweep.complete_directory(0, &listing), Ok(ListingStatus::Listed)));
    let ticket = match sweep.next_action() {
        Action::FetchStorePage { ticket, store_id } => {
            assert_eq!(store_id, 123);
            ticket
        }
        _ => panic!("a leaf is resolved by its page"),
    };
    let reply = http(&page("93710", "123 Main St"));
    assert!(matches!(sweep.complete_city(ticket, &reply), Ok(FetchOutcome::Success(1))));
    assert!(matches!(sweep.next_action(), Action::Finished));
    let stores = sweep.into_stores();
    assert_eq!(stores.len(), 1);
    assert_eq!(triple(&stores[0]), (123, String::from("93710"), String::from("123 Main St")));
}

#[test]
fn branch_city_is_resolved_by_its_listing() {
    let mut sweep = sweep_over(&["NV"], 10, 10);
    assert!(matches!(sweep.next_action(), Action::FetchDirectory { index: 0, .. }));
    let listing = http(r#"[{"city":"Reno","storeId":null,"storeCount":3}]"#);
    assert!(matches!(sweep.complete_directory(0, &listing), Ok(ListingStatus::Listed)));
    let ticket = match sweep.next_action() {
        Action::FetchCityListing { ticket, region, city } => {
            assert_eq!(region, "NV");
            assert_eq!(city, "Reno");
            ticket
        }
        _ => panic!("a branch is resolved by its filtered listing"),
    };
    let reply = http(
        r#"[{"storeId":11,"postalCode":"89501","address":"1 First St"},
            {"storeId":12,"postalCode":"89502","address":"2 Second St"},
            {"storeId":13,"postalCode":"89503","address":"3 Third St"}]"#,
    );
    assert!(matches!(sweep.complete_city(ticket, &reply), Ok(FetchOutcome::Success(3))));
    assert!(matches!(sweep.next_action(), Action::Finished));
    let stores = sweep.into_stores();
    let got: Vec<(u64, String, String)> = stores.iter().map(triple).collect();
    assert_eq!(
        got,
        vec![
            (11, String::from("89501"), String::from("1 First St")),
            (12, String::from("89502"), String::from("2 Second St")),
            (13, String::from("89503"), String::from("3 Third St")),
        ]
    );
}

#[test]
fn bare_city_is_expanded_by_its_listing() {
    let mut sweep = sweep_over(&["OR"], 1, 1);
    assert!(matches!(sweep.next_action(), Action::FetchDirectory { index: 0, .. }));
    assert!(sweep.complete_directory(0, &http(r#"[{"city":"Bend"}]"#)).is_ok());
    match sweep.next_action() {
        Action::FetchCityListing { region, city, .. } => {
            assert_eq!(region, "OR");
            assert_eq!(city, "Bend");
        }
        _ => panic!("a bare row is expanded by its filtered listing"),
    }
}

#[test]
fn city_with_id_and_count_is_expanded_by_its_listing() {
    let mut sweep = sweep_over(&["OR"], 1, 1);
    assert!(matches!(sweep.next_action(), Action::FetchDirectory { index: 0, .. }));
    let listing = http(r#"[{"city":"Salem","storeId":9,"storeCount":2}]"#);
    assert!(sweep.complete_directory(0, &listing).is_ok());
    assert!(matches!(sweep.next_action(), Action::FetchCityListing { .. }));
}

#[test]
fn budget_of_zero_is_turned_down() {
    let markers = PageMarkers::standard().expect("the two standard markers are selectors");
    assert!(matches!(
        Sweep::new(vec![String::from("CA")], 0, 10, markers),
        Err(SweepError::ZeroBudget)
    ));
    let markers = PageMarkers::standard().expect("the two standard markers are selectors");
    assert!(matches!(
        Sweep::new(vec![String::from("CA")], 10, 0, markers),
        Err(SweepError::ZeroBudget)
    ));
}

#[test]
fn sweep_over_no_region_is_finished_at_once() {
    let mut sweep = sweep_over(&[], 3, 3);
    assert!(sweep.is_finished());
    assert!(matches!(sweep.next_action(), Action::Finished));
    assert_eq!(sweep.region_count(), 0);
    assert!(sweep.tally(0).is_none());
    assert!(sweep.into_stores().is_empty());
}

#[test]
fn reply_to_nothing_in_flight_is_turned_down() {
    let mut sweep = sweep_over(&["CA", "NV"], 1, 1);
    assert!(matches!(sweep.complete_directory(0, &http("[]")), Err(SweepError::NotInFlight)));
    assert!(matches!(sweep.complete_city(0, &http("[]")), Err(SweepError::NotInFlight)));
    assert!(matches!(sweep.next_action(), Action::FetchDirectory { index: 0, .. }));
    assert!(matches!(sweep.complete_directory(1, &http("[]")), Err(SweepError::NotInFlight)));
    assert!(matches!(sweep.complete_directory(7, &http("[]")), Err(SweepError::NotInFlight)));
    assert!(sweep.complete_directory(0, &http("[]")).is_ok());
    assert!(matches!(sweep.complete_directory(0, &http("[]")), Err(SweepError::NotInFlight)));
    assert_eq!(sweep.stage1_in_flight(), 0);
}

#[test]
fn stage_one_never_exceeds_its_budget() {
    let mut sweep = sweep_over(&["A", "B", "C", "D", "E"], 2, 4);
    assert!(matches!(sweep.next_action(), Action::FetchDirectory { index: 0, .. }));
    assert!(matches!(sweep.next_action(), Action::FetchDirectory { index: 1, .. }));
    assert_eq!(sweep.stage1_in_flight(), 2);
    assert!(matches!(sweep.next_action(), Action::Wait));
    assert!(matches!(sweep.next_action(), Action::Wait));
    assert_eq!(sweep.stage1_in_flight(), 2);
    assert!(sweep.complete_directory(1, &http("[]")).is_ok());
    assert_eq!(sweep.stage1_in_flight(), 1);
    assert!(matches!(sweep.next_action(), Action::FetchDirectory { index: 2, .. }));
    assert!(matches!(sweep.next_action(), Action::Wait));
    assert_eq!(sweep.stage1_in_flight(), 2);
}

#[test]
fn stage_two_never_exceeds_its_budget_with_hundreds_queued() {
    let mut rows = Vec::new();
    for i in 0..300 {
        rows.push(format!(r#"{{"city":"C{}","storeId":{}}}"#, i, i + 1));
    }
    let listing = format!("[{}]", rows.join(","));
    let mut sweep = sweep_over(&["CA"], 1, 3);
    assert!(matches!(sweep.next_action(), Action::FetchDirectory { index: 0, .. }));
    assert!(sweep.complete_directory(0, &http(&listing)).is_ok());
    let mut tickets = Vec::new();
    loop {
        match sweep.next_action() {
            Action::FetchStorePage { ticket, .. } => tickets.push(ticket),
            Action::Wait => break,
            _ => panic!("only store pages are left to fetch"),
        }
        assert!(sweep.stage2_in_flight() <= 3);
    }
    assert_eq!(tickets, vec![0, 1, 2]);
    assert_eq!(sweep.stage2_in_flight(), 3);
    let mut answered = 0;
    while let Some(ticket) = tickets.pop() {
        assert!(sweep.complete_city(ticket, &Reply::TransportFailure).is_ok());
        answered += 1;
        loop {
            match sweep.next_action() {
                Action::FetchStorePage { ticket, .. } => tickets.push(ticket),
                Action::Wait | Action::Finished => break,
                _ => panic!("only store pages are left to fetch"),
            }
            assert!(sweep.stage2_in_flight() <= 3);
        }
    }
    assert_eq!(answered, 300);
    assert!(sweep.is_finished());
    assert!(sweep.stores().is_empty());
}

#[test]
fn city_is_started_only_after_its_listing_came() {
    let mut sweep = sweep_over(&["CA", "NV"], 1, 5);
    assert!(matches!(sweep.next_action(), Action::FetchDirectory { index: 0, .. }));
    assert!(matches!(sweep.next_action(), Action::Wait));
    assert_eq!(sweep.stage2_in_flight(), 0);
    assert!(sweep.complete_directory(0, &upstream(&Action::FetchDirectory {
        index: 0,
        region: String::from("CA"),
    }))
    .is_ok());
    assert!(matches!(sweep.next_action(), Action::FetchDirectory { index: 1, .. }));
    assert!(matches!(sweep.next_action(), Action::FetchStorePage { ticket: 0, store_id: 123 }));
    assert!(matches!(sweep.next_action(), Action::FetchStorePage { ticket: 1, store_id: 124 }));
    assert!(matches!(sweep.next_action(), Action::Wait));
}

#[test]
fn failures_stay_local_and_are_counted() {
    let mut sweep = sweep_over(&["CA", "UT", "AZ", "OR", "NV"], 2, 2);
    drive(&mut sweep, false);
    assert_eq!(sorted_ids(sweep.stores()), vec![11, 12, 13, 21, 123]);

    let ca = sweep.tally(0).expect("the first region");
    assert_eq!(ca.listing, ListingStatus::Listed);
    assert_eq!((ca.cities, ca.resolved, ca.skipped, ca.stores, ca.expanded), (2, 1, 1, 1, 0));

    let ut = sweep.tally(1).expect("the second region");
    assert_eq!(ut.listing, ListingStatus::Failed(FetchError::Network));
    assert_eq!((ut.cities, ut.resolved, ut.skipped, ut.stores, ut.expanded), (0, 0, 0, 0, 0));

    let az = sweep.tally(2).expect("the third region");
    assert_eq!(az.listing, ListingStatus::Failed(FetchError::Schema));
    assert_eq!(az.cities, 0);

    let or = sweep.tally(3).expect("the fourth region");
    assert_eq!(or.listing, ListingStatus::Listed);
    assert_eq!((or.cities, or.resolved, or.skipped, or.stores, or.expanded), (2, 1, 1, 1, 1));

    let nv = sweep.tally(4).expect("the fifth region");
    assert_eq!((nv.cities, nv.resolved, nv.skipped, nv.stores, nv.expanded), (1, 1, 0, 3, 3));

    assert!(sweep.tally(5).is_none());
    assert_eq!(sweep.region_count(), 5);
}

#[test]
fn city_outcomes_are_reported_as_they_come() {
    let mut sweep = sweep_over(&["CA"], 1, 2);
    assert!(matches!(sweep.next_action(), Action::FetchDirectory { index: 0, .. }));
    assert!(sweep.complete_directory(0, &upstream(&Action::FetchDirectory {
        index: 0,
        region: String::from("CA"),
    }))
    .is_ok());
    assert!(matches!(sweep.next_action(), Action::FetchStorePage { ticket: 0, .. }));
    assert!(matches!(sweep.next_action(), Action::FetchStorePage { ticket: 1, .. }));
    assert!(matches!(
        sweep.complete_city(1, &http("<html><body>moved</body></html>")),
        Ok(FetchOutcome::Skipped(SkipReason::MissingField))
    ));
    assert!(matches!(
        sweep.complete_city(0, &Reply::TransportFailure),
        Ok(FetchOutcome::Failed(FetchError::Network))
    ));
    assert!(matches!(sweep.next_action(), Action::Finished));
    assert!(sweep.stores().is_empty());
    let tally = sweep.tally(0).expect("the one region");
    assert_eq!((tally.cities, tally.resolved, tally.skipped, tally.stores), (2, 0, 2, 0));
}

#[test]
fn pending_region_is_reported_as_pending() {
    let mut sweep = sweep_over(&["CA", "NV"], 1, 1);
    assert_eq!(sweep.tally(0).expect("the first region").listing, ListingStatus::Pending);
    assert!(matches!(sweep.next_action(), Action::FetchDirectory { index: 0, .. }));
    assert_eq!(sweep.tally(0).expect("the first region").listing, ListingStatus::Pending);
    assert!(sweep.complete_directory(0, &http("[]")).is_ok());
    assert_eq!(sweep.tally(0).expect("the first region").listing, ListingStatus::Listed);
    assert_eq!(sweep.tally(1).expect("the second region").listing, ListingStatus::Pending);
}

#[test]
fn two_sweeps_of_one_upstream_collect_the_same_ids() {
    let regions = ["CA", "UT", "NV", "AZ", "OR", "WY"];
    let mut first = sweep_over(&regions, 10, 10);
    drive(&mut first, false);
    let mut second = sweep_over(&regions, 10, 10);
    drive(&mut second, false);
    assert_eq!(sorted_ids(first.stores()), sorted_ids(second.stores()));
    assert_eq!(sorted_ids(first.stores()), vec![11, 12, 13, 21, 123]);
}

#[test]
fn order_of_replies_and_budgets_do_not_change_what_is_collected() {
    let regions = ["CA", "UT", "NV", "AZ", "OR", "WY"];
    let mut expected: Option<Vec<(u64, String, String)>> = None;
    for (stage1_limit, stage2_limit) in [(1, 1), (2, 1), (1, 3), (3, 2), (10, 10)] {
        for newest_first in [false, true] {
            let mut sweep = sweep_over(&regions, stage1_limit, stage2_limit);
            let (most1, most2) = drive(&mut sweep, newest_first);
            assert!(most1 <= stage1_limit);
            assert!(most2 <= stage2_limit);
            let mut got: Vec<(u64, String, String)> = sweep.stores().iter().map(triple).collect();
            got.sort();
            match &expected {
                None => expected = Some(got),
                Some(first) => assert_eq!(&got, first),
            }
        }
    }
    assert_eq!(expected.expect("at least one sweep ran").len(), 5);
}

#[test]
fn order_of_arrival_is_kept_in_the_collection() {
    let mut sweep = sweep_over(&["NV", "CA"], 2, 2);
    assert!(matches!(sweep.next_action(), Action::FetchDirectory { index: 0, .. }));
    assert!(matches!(sweep.next_action(), Action::FetchDirectory { index: 1, .. }));
    let ca = upstream(&Action::FetchDirectory { index: 1, region: String::from("CA") });
    let nv = upstream(&Action::FetchDirectory { index: 0, region: String::from("NV") });
    assert!(sweep.complete_directory(1, &ca).is_ok());
    assert!(sweep.complete_directory(0, &nv).is_ok());
    assert!(matches!(sweep.next_action(), Action::FetchStorePage { ticket: 0, store_id: 123 }));
    assert!(matches!(sweep.next_action(), Action::FetchStorePage { ticket: 1, store_id: 124 }));
    assert!(matches!(sweep.next_action(), Action::Wait));
    assert!(sweep.complete_city(0, &http(&page("93710", "123 Main St"))).is_ok());
    let reno = match sweep.next_action() {
        Action::FetchCityListing { ticket, .. } => ticket,
        _ => panic!("the branch city is next"),
    };
    assert_eq!(reno, 2);
    let listing = upstream(&Action::FetchCityListing {
        ticket: reno,
        region: String::from("NV"),
        city: String::from("Reno"),
    });
    assert!(sweep.complete_city(reno, &listing).is_ok());
    assert!(sweep.complete_city(1, &http(&page("95926", "9 Oak Ave"))).is_ok());
    assert!(matches!(sweep.next_action(), Action::Finished));
    assert_eq!(
        sweep.stores().iter().map(|s| s.store_id).collect::<Vec<u64>>(),
        vec![123, 11, 12, 13, 124]
    );
}

#[test]
fn region_without_cities_has_no_stores() {
    let mut sweep = sweep_over(&["UT", "NV", "WY"], 3, 3);
    drive(&mut sweep, true);
    let failed = sweep.tally(0).expect("the first region");
    assert_eq!(failed.listing, ListingStatus::Failed(FetchError::Network));
    assert_eq!((failed.cities, failed.resolved, failed.stores, failed.expanded), (0, 0, 0, 0));
    let empty = sweep.tally(2).expect("the third region");
    assert_eq!(empty.listing, ListingStatus::Listed);
    assert_eq!((empty.cities, empty.resolved, empty.stores, empty.expanded), (0, 0, 0, 0));
    let listed = sweep.tally(1).expect("the second region");
    assert_eq!((listed.cities, listed.resolved, listed.stores, listed.expanded), (1, 1, 3, 3));
    assert_eq!(sweep.stores().len(), 3);
}
