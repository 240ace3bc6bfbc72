use leget::scraper_utils::{throttle, Throttle, REQUEST_DELAY};

#[test]
fn the_first_request_does_not_wait() {
    let mut state = Throttle::new();
    assert_eq!(state.last_request, None);
    assert_eq!(throttle(&mut state, 1_000), 0);
    assert_eq!(state.last_request, Some(1_000));
}

#[test]
fn a_request_that_comes_too_soon_waits_for_the_rest_of_the_delay() {
    let mut state = Throttle { last_request: Some(1_000) };
    assert_eq!(throttle(&mut state, 1_200), 300);
    assert_eq!(state.last_request, Some(1_500));
    assert_eq!(throttle(&mut state, 1_500), 500);
    assert_eq!(state.last_request, Some(2_000));
}

#[test]
fn a_request_after_the_delay_does_not_wait() {
    let mut state = Throttle { last_request: Some(1_000) };
    assert_eq!(throttle(&mut state, 1_500), 0);
    assert_eq!(state.last_request, Some(1_500));
    assert_eq!(throttle(&mut state, 9_000), 0);
    assert_eq!(state.last_request, Some(9_000));
}

#[test]
fn a_clock_that_ran_backwards_counts_as_no_time_passed() {
    let mut state = Throttle { last_request: Some(1_000) };
    assert_eq!(throttle(&mut state, 400), REQUEST_DELAY);
    assert_eq!(state.last_request, Some(900));
}

#[test]
fn consecutive_requests_start_at_least_the_delay_apart() {
    let mut state = Throttle::new();
    let mut starts = Vec::new();
    for now in [0u64, 1, 2, 600, 1_000, 1_001, 5_000, 5_499, 5_500] {
        let now = now.max(*starts.last().unwrap_or(&0));
        let wait = throttle(&mut state, now);
        starts.push(now + wait);
    }
    for pair in starts.windows(2) {
        assert!(pair[1] - pair[0] >= REQUEST_DELAY);
    }
}

#[test]
fn the_throttle_works_up_to_the_end_of_the_clock() {
    let mut state = Throttle { last_request: Some(u64::MAX - 600) };
    let now = u64::MAX - REQUEST_DELAY;
    assert_eq!(throttle(&mut state, now), 400);
    assert_eq!(state.last_request, Some(u64::MAX - 100));
}
