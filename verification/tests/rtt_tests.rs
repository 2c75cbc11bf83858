use reliable_transport::rtt::RttEstimator;

#[test]
fn initial_timeout_is_one_second() {
    let est = RttEstimator::new();
    assert_eq!(est.rto_ms, 1000);
    assert_eq!(est.srtt, 0);
    assert_eq!(est.rttvar, 0);
}

#[test]
fn first_sample_seeds_the_estimator() {
    // A 120 ms round trip: srtt = 120, rttvar = 60,
    // rto = clamp(120 + 4 * 60) = 360 ms.
    let mut est = RttEstimator::new();
    est.update(120);
    assert_eq!(est.srtt, 960);
    assert_eq!(est.rttvar, 480);
    assert_eq!(est.rto_ms, 360);
}

#[test]
fn second_sample_is_weighted_in() {
    // After 120 ms then 140 ms: rttvar = 0.75 * 60 + 0.25 * 20 = 50,
    // srtt = 0.875 * 120 + 0.125 * 140 = 122.5, rto = floor(122.5 + 200).
    let mut est = RttEstimator::new();
    est.update(120);
    est.update(140);
    assert_eq!(est.rttvar, 400);
    assert_eq!(est.srtt, 980);
    assert_eq!(est.rto_ms, 322);
}

#[test]
fn timeout_clamps_at_minimum() {
    let mut est = RttEstimator::new();
    est.update(10);
    assert_eq!(est.rto_ms, 200);
}

#[test]
fn timeout_clamps_at_maximum() {
    let mut est = RttEstimator::new();
    est.update(20000);
    assert_eq!(est.rto_ms, 10000);
}

#[test]
fn backoff_doubles_and_caps() {
    let mut est = RttEstimator::new();
    est.backoff();
    assert_eq!(est.rto_ms, 2000);
    est.backoff();
    assert_eq!(est.rto_ms, 4000);
    est.backoff();
    assert_eq!(est.rto_ms, 8000);
    est.backoff();
    assert_eq!(est.rto_ms, 10000);
    est.backoff();
    assert_eq!(est.rto_ms, 10000);
}

#[test]
fn backoff_leaves_smoothed_values_alone() {
    let mut est = RttEstimator::new();
    est.update(120);
    est.backoff();
    assert_eq!(est.srtt, 960);
    assert_eq!(est.rttvar, 480);
    assert_eq!(est.rto_ms, 720);
}

#[test]
fn default_estimator_matches_new() {
    let est = RttEstimator::default();
    assert_eq!(est.rto_ms, 1000);
    assert_eq!(est.srtt, 0);
}
