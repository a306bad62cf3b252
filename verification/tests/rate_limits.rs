use store_locator::leaf::PageMarkers;
use store_locator::model::Reply;
use store_locator::ratelimit::{Admission, RateError, RateLimiter};
use store_locator::sweep::{Action, Sweep};

fn limiter(per_window: u64, window: u64, now: u64) -> RateLimiter {
    match RateLimiter::new(per_window, window, now) {
        Ok(limiter) => limiter,
        Err(_) => panic!("the window admits a request and has a length"),
    }
}

fn sweep_over(regions: &[&str], stage1_limit: usize, stage2_limit: usize) -> Sweep {
    let regions: Vec<String> = regions.iter().map(|r| String::from(*r)).collect();
    let markers = PageMarkers::standard().expect("the two standard markers are selectors");
    match Sweep::new(regions, stage1_limit, stage2_limit, markers) {
        Ok(sweep) => sweep,
        Err(_) => panic!("both budgets are at least one"),
    }
}

#[test]
fn window_admits_its_number_and_no_more() {
    let mut limiter = limiter(2, 10, 100);
    assert_eq!(limiter.request(100), Admission::Admitted);
    assert_eq!(limiter.request(105), Admission::Admitted);
    assert_eq!(limiter.request(105), Admission::Refused { until: 110 });
    assert_eq!(limiter.request(109), Admission::Refused { until: 110 });
    assert_eq!(limiter.used, 2);
    assert_eq!(limiter.opened, 100);
}

#[test]
fn new_window_opens_with_the_first_request_after_the_old_one() {
    let mut limiter = limiter(1, 10, 0);
    assert_eq!(limiter.request(3), Admission::Admitted);
    assert_eq!(limiter.request(9), Admission::Refused { until: 10 });
    assert_eq!(limiter.request(25), Admission::Admitted);
    assert_eq!(limiter.opened, 25);
    assert_eq!(limiter.request(34), Admission::Refused { until: 35 });
    assert_eq!(limiter.request(35), Admission::Admitted);
    assert_eq!(limiter.opened, 35);
    assert_eq!(limiter.used, 1);
}

#[test]
fn clock_that_steps_back_stays_in_the_window() {
    let mut limiter = limiter(1, 10, 50);
    assert_eq!(limiter.request(55), Admission::Admitted);
    assert_eq!(limiter.request(7), Admission::Refused { until: 60 });
    assert_eq!(limiter.opened, 50);
}

#[test]
fn window_at_the_end_of_time_does_not_overflow() {
    let mut limiter = limiter(1, 10, u64::MAX - 3);
    assert_eq!(limiter.request(u64::MAX - 2), Admission::Admitted);
    assert_eq!(limiter.request(u64::MAX - 1), Admission::Refused { until: u64::MAX });
    assert_eq!(limiter.request(u64::MAX), Admission::Refused { until: u64::MAX });
}

#[test]
fn limiter_needs_requests_and_a_window() {
    assert_eq!(RateLimiter::new(0, 5, 0), Err(RateError::NoRequests));
    assert_eq!(RateLimiter::new(5, 0, 0), Err(RateError::NoWindow));
    assert_eq!(RateLimiter::new(0, 0, 0), Err(RateError::NoRequests));
    assert_eq!(
        RateLimiter::new(50, 5000, 7),
        Ok(RateLimiter { limited: true, per_window: 50, window: 5000, opened: 7, used: 0 })
    );
}

#[test]
fn unlimited_limiter_admits_everything() {
    let mut limiter = RateLimiter::unlimited();
    for now in [0u64, 0, 0, 1, 1, u64::MAX] {
        assert_eq!(limiter.request(now), Admission::Admitted);
    }
    assert_eq!(limiter, RateLimiter::unlimited());
}

#[test]
fn both_stages_draw_on_one_limiter() {
    let mut sweep = sweep_over(&["CA", "NV", "OR"], 5, 5);
    let mut limiter = limiter(3, 10, 0);
    assert!(matches!(
        sweep.next_action_at(&mut limiter, 0),
        Action::FetchDirectory { index: 0, .. }
    ));
    let listing = Reply::Http {
        status: 200,
        body: String::from(r#"[{"city":"Fresno","storeId":1},{"city":"Chico","storeId":2}]"#),
    };
    assert!(sweep.complete_directory(0, &listing).is_ok());
    assert!(matches!(
        sweep.next_action_at(&mut limiter, 1),
        Action::FetchDirectory { index: 1, .. }
    ));
    assert!(matches!(
        sweep.next_action_at(&mut limiter, 2),
        Action::FetchDirectory { index: 2, .. }
    ));
    assert!(matches!(sweep.next_action_at(&mut limiter, 3), Action::Hold { until: 10 }));
    assert!(matches!(sweep.next_action_at(&mut limiter, 9), Action::Hold { until: 10 }));
    assert_eq!(sweep.stage2_in_flight(), 0);
    assert!(matches!(
        sweep.next_action_at(&mut limiter, 10),
        Action::FetchStorePage { ticket: 0, store_id: 1 }
    ));
    assert!(matches!(
        sweep.next_action_at(&mut limiter, 11),
        Action::FetchStorePage { ticket: 1, store_id: 2 }
    ));
    assert_eq!(limiter.used, 2);
    assert!(matches!(sweep.next_action_at(&mut limiter, 12), Action::Wait));
    assert_eq!(limiter.used, 2);
}

#[test]
fn limiter_is_not_asked_where_nothing_can_start() {
    let mut sweep = sweep_over(&["CA", "NV"], 1, 1);
    let mut limiter = limiter(1, 100, 0);
    assert!(matches!(
        sweep.next_action_at(&mut limiter, 0),
        Action::FetchDirectory { index: 0, .. }
    ));
    assert!(matches!(sweep.next_action_at(&mut limiter, 1), Action::Wait));
    assert!(matches!(sweep.next_action_at(&mut limiter, 500), Action::Wait));
    assert_eq!(limiter.opened, 0);
    assert_eq!(limiter.used, 1);
    assert!(sweep.complete_directory(0, &Reply::TransportFailure).is_ok());
    assert!(matches!(sweep.next_action_at(&mut limiter, 50), Action::Hold { until: 100 }));
    assert!(matches!(
        sweep.next_action_at(&mut limiter, 100),
        Action::FetchDirectory { index: 1, .. }
    ));
    assert!(sweep.complete_directory(1, &Reply::TransportFailure).is_ok());
    assert!(matches!(sweep.next_action_at(&mut limiter, 101), Action::Finished));
}

#[test]
fn unlimited_sweep_decides_as_one_without_a_limiter() {
    let mut plain = sweep_over(&["CA", "NV", "OR"], 2, 2);
    let mut timed = sweep_over(&["CA", "NV", "OR"], 2, 2);
    let mut limiter = RateLimiter::unlimited();
    for now in 0..4u64 {
        let left = plain.next_action();
        let right = timed.next_action_at(&mut limiter, now);
        match (left, right) {
            (
                Action::FetchDirectory { index: a, region: ra },
                Action::FetchDirectory { index: b, region: rb },
            ) => {
                assert_eq!(a, b);
                assert_eq!(ra, rb);
            }
            (Action::Wait, Action::Wait) => {}
            _ => panic!("the two sweeps decide alike"),
        }
    }
}
