//! Retry, backoff, pacing, timeout and status-policy behaviour.

use linkcheck::fetch::{
    backoff_delay_ms, default_policy, pacing_delay_ms, retry_decide, run_attempts,
    timeout_for_host, timeout_for_url, AttemptOutcome, RetryDecision, TimeoutConfig, TimeoutRule,
};
use linkcheck::result::{is_healthy_status, CheckResult, Reason};
use linkcheck::text::u16_to_decimal;

#[test]
fn healthy_statuses_are_exactly_2xx() {
    assert!(is_healthy_status(200));
    assert!(is_healthy_status(204));
    assert!(is_healthy_status(299));
    assert!(!is_healthy_status(199));
    assert!(!is_healthy_status(300));
    assert!(!is_healthy_status(301));
    assert!(!is_healthy_status(404));
    assert!(!is_healthy_status(500));
}

#[test]
fn backoff_grows_exponentially_from_the_base() {
    let p = default_policy();
    assert_eq!(backoff_delay_ms(&p, 1, 0), 2000);
    assert_eq!(backoff_delay_ms(&p, 2, 0), 4000);
    assert_eq!(backoff_delay_ms(&p, 3, 0), 8000);
    assert_eq!(backoff_delay_ms(&p, 4, 0), 16000);
}

#[test]
fn backoff_adds_jitter_capped_at_the_bound() {
    let p = default_policy();
    assert_eq!(backoff_delay_ms(&p, 1, 1500), 3500);
    assert_eq!(backoff_delay_ms(&p, 1, 9999), 4000);
}

#[test]
fn backoff_delays_never_shrink_between_attempts() {
    let p = default_policy();
    // Worst case against best case: maximal jitter early, none later.
    let mut previous = 0u64;
    for attempt in 1..=4u64 {
        let jitter = if attempt == 1 { 2000 } else { 0 };
        let delay = backoff_delay_ms(&p, attempt, jitter);
        assert!(delay >= previous);
        previous = delay;
    }
}

#[test]
fn retry_exhaustion_uses_every_attempt_and_keeps_the_last_error() {
    let p = default_policy();
    let outcomes: Vec<AttemptOutcome> = (1..=5)
        .map(|i| AttemptOutcome::TransportFailure(format!("timeout {i}")))
        .collect();
    let (used, verdict) = run_attempts(
        &p,
        &"https://slow.test/x".to_string(),
        &"http://a.test".to_string(),
        &outcomes,
    );
    assert_eq!(used, 5);
    match verdict {
        CheckResult::Failed { url, context_page, reason } => {
            assert_eq!(url, "https://slow.test/x");
            assert_eq!(context_page, "http://a.test");
            match reason {
                Reason::Transport(m) => assert_eq!(m, "timeout 5"),
                Reason::Status(_) => panic!("expected a transport failure"),
            }
        },
        CheckResult::Healthy { .. } => panic!("expected a failure"),
    }
}

#[test]
fn a_received_status_stops_the_retries() {
    let p = default_policy();
    let outcomes = vec![
        AttemptOutcome::TransportFailure("refused".to_string()),
        AttemptOutcome::Status(503),
        AttemptOutcome::Status(200),
        AttemptOutcome::Status(200),
        AttemptOutcome::Status(200),
    ];
    let (used, verdict) = run_attempts(
        &p,
        &"http://a.test/x".to_string(),
        &"http://a.test".to_string(),
        &outcomes,
    );
    assert_eq!(used, 2);
    match verdict {
        CheckResult::Failed { reason: Reason::Status(s), .. } => assert_eq!(s, 503),
        _ => panic!("expected a status failure"),
    }
}

#[test]
fn a_healthy_first_attempt_finishes_at_once() {
    let p = default_policy();
    let outcomes = vec![
        AttemptOutcome::Status(200),
        AttemptOutcome::Status(500),
        AttemptOutcome::Status(500),
        AttemptOutcome::Status(500),
        AttemptOutcome::Status(500),
    ];
    let (used, verdict) = run_attempts(
        &p,
        &"http://a.test/x".to_string(),
        &"http://a.test".to_string(),
        &outcomes,
    );
    assert_eq!(used, 1);
    assert!(matches!(verdict, CheckResult::Healthy { .. }));
}

#[test]
fn retry_decide_retries_transport_failures_until_exhausted() {
    let p = default_policy();
    let url = "http://a.test/x".to_string();
    let page = "http://a.test".to_string();
    let failure = AttemptOutcome::TransportFailure("refused".to_string());
    match retry_decide(&p, &url, &page, 1, &failure, 0) {
        RetryDecision::RetryAfter(d) => assert_eq!(d, 2000),
        RetryDecision::Finish(_) => panic!("first failure must retry"),
    }
    match retry_decide(&p, &url, &page, 5, &failure, 0) {
        RetryDecision::Finish(CheckResult::Failed { reason: Reason::Transport(m), .. }) => {
            assert_eq!(m, "refused")
        },
        _ => panic!("fifth failure must finish"),
    }
    match retry_decide(&p, &url, &page, 1, &AttemptOutcome::Status(404), 0) {
        RetryDecision::Finish(CheckResult::Failed { reason: Reason::Status(s), .. }) => {
            assert_eq!(s, 404)
        },
        _ => panic!("a received status must finish at once"),
    }
}

#[test]
fn pacing_stays_between_200_and_500_ms() {
    assert_eq!(pacing_delay_ms(0), 200);
    assert_eq!(pacing_delay_ms(300), 500);
    assert_eq!(pacing_delay_ms(301), 200);
    for entropy in [1u64, 17, 12345, u64::MAX] {
        let d = pacing_delay_ms(entropy);
        assert!((200..=500).contains(&d));
    }
}

#[test]
fn timeout_overrides_apply_per_host() {
    let cfg = TimeoutConfig {
        default_ms: 30_000,
        rules: vec![TimeoutRule { host: "slow.test".to_string(), timeout_ms: 90_000 }],
    };
    assert_eq!(timeout_for_host(&cfg, &"slow.test".to_string()), 90_000);
    assert_eq!(timeout_for_host(&cfg, &"fast.test".to_string()), 30_000);
    assert_eq!(timeout_for_url(&cfg, "https://slow.test/deep/path?x=1"), 90_000);
    assert_eq!(timeout_for_url(&cfg, "https://fast.test/"), 30_000);
    assert_eq!(timeout_for_url(&cfg, "not a url"), 30_000);
}

#[test]
fn decimal_rendering_is_exact() {
    assert_eq!(u16_to_decimal(0), "0");
    assert_eq!(u16_to_decimal(7), "7");
    assert_eq!(u16_to_decimal(404), "404");
    assert_eq!(u16_to_decimal(65535), "65535");
}
