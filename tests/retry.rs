use youtube_downloader_gui::retry::{backoff_delay, RetryConfig, RetryDecision, RetryState};

#[test]
fn test_retry_config_default() {
    let config = RetryConfig::default();
    assert_eq!(config.max_attempts, 3);
    assert_eq!(config.initial_delay_ms, 1000);
}

#[test]
fn two_failures_then_success() {
    let config = RetryConfig::default();
    let mut state = RetryState::start(&config);
    let mut slept = 0;
    let mut attempts = 1;
    for _ in 0..2 {
        match state.after_failure(&config, true) {
            RetryDecision::Retry { delay_ms } => slept += delay_ms,
            RetryDecision::GiveUp => panic!("gave up"),
        }
        attempts += 1;
    }
    assert_eq!(attempts, 3);
    assert_eq!(state.attempt, 3);
    assert!(slept >= 1000 + 2000);
    assert_eq!(slept, 3000);
}

#[test]
fn gives_up_when_budget_spent_or_not_retryable() {
    let config = RetryConfig::default();
    let mut state = RetryState::start(&config);
    assert_eq!(state.after_failure(&config, false), RetryDecision::GiveUp);
    assert_eq!(state.after_failure(&config, true), RetryDecision::Retry { delay_ms: 1000 });
    assert_eq!(state.after_failure(&config, true), RetryDecision::Retry { delay_ms: 2000 });
    assert_eq!(state.after_failure(&config, true), RetryDecision::GiveUp);
}

#[test]
fn delay_is_capped() {
    let config = RetryConfig { max_attempts: 10, initial_delay_ms: 1000, max_delay_ms: 5000, backoff_multiplier_milli: 3000 };
    let mut state = RetryState::start(&config);
    let mut delays = Vec::new();
    while let RetryDecision::Retry { delay_ms } = state.after_failure(&config, true) {
        delays.push(delay_ms);
    }
    assert_eq!(delays, vec![1000, 3000, 5000, 5000, 5000, 5000, 5000, 5000, 5000]);
}

#[test]
fn first_delay_is_capped_too() {
    let config = RetryConfig { max_attempts: 3, initial_delay_ms: 5000, max_delay_ms: 1000, backoff_multiplier_milli: 2000 };
    let mut state = RetryState::start(&config);
    assert_eq!(state.after_failure(&config, true), RetryDecision::Retry { delay_ms: 1000 });
    assert_eq!(state.after_failure(&config, true), RetryDecision::Retry { delay_ms: 1000 });
    assert_eq!(state.after_failure(&config, true), RetryDecision::GiveUp);
}

#[test]
fn delays_follow_the_closed_form() {
    let shrinking = RetryConfig { max_attempts: 10, initial_delay_ms: 4000, max_delay_ms: 1000, backoff_multiplier_milli: 500 };
    let got: Vec<u64> = (1..=5).map(|n| backoff_delay(&shrinking, n)).collect();
    assert_eq!(got, vec![1000, 1000, 1000, 500, 250]);
    let slow = RetryConfig { max_attempts: 10, initial_delay_ms: 1, max_delay_ms: 1_000_000, backoff_multiplier_milli: 1500 };
    let got: Vec<u64> = (1..=6).map(|n| backoff_delay(&slow, n)).collect();
    assert_eq!(got, vec![1, 1, 2, 3, 5, 7]);
    let long = RetryConfig { max_attempts: 200, initial_delay_ms: 1000, max_delay_ms: 30_000, backoff_multiplier_milli: 1001 };
    assert_eq!(backoff_delay(&long, 200), 1220);
    assert_eq!(backoff_delay(&RetryConfig::default(), 40), 30_000);
}
