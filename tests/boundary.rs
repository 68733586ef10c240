use voiceflow_core::error_boundary::{
    determine_recovery_strategy, monitor_alerts, recovery_delay_ms, Alert, strategy_for_lowercase, CircuitBreakerState,
    ErrorBoundary, ErrorBoundaryConfig, ErrorBoundaryRegistry, RecoveryStrategy,
};
use voiceflow_core::errors::AppError;

fn config(threshold: usize, attempts: usize) -> ErrorBoundaryConfig {
    ErrorBoundaryConfig {
        max_recovery_attempts: attempts,
        default_recovery_delay_ms: 1000,
        enable_automatic_recovery: true,
        error_threshold: threshold,
        circuit_breaker_timeout_ms: 60_000,
    }
}

/// Runs `op` the way a caller wraps an operation, counting the calls of `op`.
fn run(
    b: &mut ErrorBoundary,
    now: u64,
    calls: &mut u32,
    op: impl FnOnce() -> Result<u32, String>,
) -> Result<u32, String> {
    if let Err(e) = b.check_circuit(now) {
        return Err(e.message());
    }
    *calls += 1;
    match op() {
        Ok(v) => {
            b.on_success();
            Ok(v)
        }
        Err(e) => {
            if let Some(plan) = b.on_error(&e, now) {
                b.complete_recovery(&plan.strategy, now + plan.delay_ms);
            }
            Err(e)
        }
    }
}

#[test]
fn new_boundary_is_closed() {
    let b = ErrorBoundary::new("voice".to_string(), None);
    assert_eq!(b.get_circuit_breaker_state(), CircuitBreakerState::Closed);
    let s = b.get_error_stats(0);
    assert_eq!(s.name, "voice");
    assert_eq!(s.error_count, 0);
    assert_eq!(s.last_error_duration, None);
    assert_eq!(s.recovery_attempts, 0);
    assert_eq!(s.total_errors, 0);
    assert!(s.recent_errors.is_empty());
}

#[test]
fn default_config_values() {
    let c = ErrorBoundaryConfig::default();
    assert_eq!(c.max_recovery_attempts, 3);
    assert_eq!(c.default_recovery_delay_ms, 1000);
    assert!(c.enable_automatic_recovery);
    assert_eq!(c.error_threshold, 10);
    assert_eq!(c.circuit_breaker_timeout_ms, 60_000);
    let b = ErrorBoundary::new("x".to_string(), None);
    assert_eq!(b.config(), c);
}

#[test]
fn success_clears_failure_window() {
    let mut b = ErrorBoundary::new("text".to_string(), Some(config(10, 5)));
    b.on_error("boom", 1_000);
    b.on_error("boom", 2_000);
    assert_eq!(b.get_error_stats(2_000).error_count, 2);
    b.on_success();
    let s = b.get_error_stats(3_000);
    assert_eq!(s.error_count, 0);
    assert_eq!(s.recovery_attempts, 0);
    assert_eq!(s.last_error_duration, None);
    assert_eq!(s.circuit_breaker_state, CircuitBreakerState::Closed);
    b.on_success();
    assert_eq!(b.get_error_stats(4_000).error_count, 0);
    assert_eq!(b.get_circuit_breaker_state(), CircuitBreakerState::Closed);
}

#[test]
fn threshold_within_window_opens_breaker() {
    let mut b = ErrorBoundary::new("c".to_string(), Some(config(3, 10)));
    b.on_error("boom", 0);
    b.on_error("boom", 30_000);
    assert_eq!(b.get_circuit_breaker_state(), CircuitBreakerState::Closed);
    b.on_error("boom", 60_000);
    assert_eq!(b.get_circuit_breaker_state(), CircuitBreakerState::Open);
    assert_eq!(b.get_error_stats(60_000).error_count, 3);
}

#[test]
fn stale_failures_leave_the_window() {
    let mut b = ErrorBoundary::new("c".to_string(), Some(config(2, 10)));
    b.on_error("boom", 0);
    b.on_error("boom", 60_001);
    assert_eq!(b.get_error_stats(60_001).error_count, 1);
    assert_eq!(b.get_circuit_breaker_state(), CircuitBreakerState::Closed);
}

#[test]
fn open_breaker_allows_one_trial_after_timeout() {
    let mut b = ErrorBoundary::new("c".to_string(), Some(config(1, 10)));
    b.on_error("boom", 1_000);
    assert_eq!(b.get_circuit_breaker_state(), CircuitBreakerState::Open);
    assert!(b.check_circuit(61_000).is_err());
    assert_eq!(b.get_circuit_breaker_state(), CircuitBreakerState::Open);
    assert!(b.check_circuit(61_001).is_ok());
    assert_eq!(b.get_circuit_breaker_state(), CircuitBreakerState::Closed);
    // The trial fails: the breaker was closed before it ran.
    b.on_error("boom again", 61_001);
    assert_eq!(b.get_circuit_breaker_state(), CircuitBreakerState::Open);
}

#[test]
fn reset_twice_equals_reset_once() {
    let mut b = ErrorBoundary::new("c".to_string(), Some(config(1, 10)));
    b.on_error("boom", 5);
    b.reset();
    let once = b.get_error_stats(10);
    b.reset();
    let twice = b.get_error_stats(10);
    assert_eq!(once, twice);
    assert_eq!(twice.circuit_breaker_state, CircuitBreakerState::Closed);
    assert_eq!(twice.error_count, 0);
    assert_eq!(twice.recovery_attempts, 0);
    assert_eq!(twice.last_error_duration, None);
    assert_eq!(twice.total_errors, 0);
    assert!(twice.recent_errors.is_empty());
}

#[test]
fn classification_by_keyword() {
    assert_eq!(
        determine_recovery_strategy("Request TIMEOUT after 30s"),
        RecoveryStrategy::Retry { max_attempts: 3, delay_ms: 2000, exponential_backoff: true }
    );
    assert_eq!(
        determine_recovery_strategy("Network unreachable"),
        RecoveryStrategy::Fallback("cache".to_string())
    );
    assert_eq!(
        determine_recovery_strategy("connection refused"),
        RecoveryStrategy::Fallback("cache".to_string())
    );
    assert_eq!(determine_recovery_strategy("Validation failed"), RecoveryStrategy::Skip);
    assert_eq!(determine_recovery_strategy("Out of Memory"), RecoveryStrategy::Restart);
    assert_eq!(determine_recovery_strategy("buffer allocation"), RecoveryStrategy::Restart);
    assert_eq!(
        determine_recovery_strategy("boom"),
        RecoveryStrategy::Retry { max_attempts: 1, delay_ms: 1000, exponential_backoff: false }
    );
}

#[test]
fn classification_first_match_wins() {
    assert_eq!(determine_recovery_strategy("memory timeout"), RecoveryStrategy::Restart);
    assert_eq!(
        determine_recovery_strategy("timeout on connection"),
        RecoveryStrategy::Retry { max_attempts: 3, delay_ms: 2000, exponential_backoff: true }
    );
    assert_eq!(
        determine_recovery_strategy("network validation"),
        RecoveryStrategy::Fallback("cache".to_string())
    );
}

#[test]
fn classification_of_lowercased_text() {
    assert_eq!(strategy_for_lowercase("disk timeout"), determine_recovery_strategy("DISK TIMEOUT"));
    // Already lowercased text is taken as it is.
    assert_eq!(
        strategy_for_lowercase("TIMEOUT"),
        RecoveryStrategy::Retry { max_attempts: 1, delay_ms: 1000, exponential_backoff: false }
    );
}

#[test]
fn recovery_delays() {
    let exp = RecoveryStrategy::Retry { max_attempts: 3, delay_ms: 2000, exponential_backoff: true };
    assert_eq!(recovery_delay_ms(&exp, 1), 2000);
    assert_eq!(recovery_delay_ms(&exp, 2), 4000);
    assert_eq!(recovery_delay_ms(&exp, 3), 8000);
    let flat = RecoveryStrategy::Retry { max_attempts: 1, delay_ms: 1000, exponential_backoff: false };
    assert_eq!(recovery_delay_ms(&flat, 4), 1000);
    assert_eq!(recovery_delay_ms(&RecoveryStrategy::Fallback("cache".to_string()), 1), 500);
    assert_eq!(recovery_delay_ms(&RecoveryStrategy::Skip, 1), 100);
    assert_eq!(recovery_delay_ms(&RecoveryStrategy::Restart, 1), 2000);
    assert_eq!(recovery_delay_ms(&RecoveryStrategy::Custom("x".to_string()), 1), 1000);
    let huge = RecoveryStrategy::Retry { max_attempts: 3, delay_ms: u64::MAX / 2 + 1, exponential_backoff: true };
    assert_eq!(recovery_delay_ms(&huge, 2), u64::MAX);
    assert_eq!(recovery_delay_ms(&huge, 70), u64::MAX);
}

#[test]
fn scenario_threshold_two_fails_fast() {
    let mut b = ErrorBoundary::new("translator".to_string(), Some(config(2, 5)));
    let mut calls = 0;
    assert!(run(&mut b, 0, &mut calls, || Err("upstream failed".to_string())).is_err());
    assert!(run(&mut b, 500, &mut calls, || Err("upstream failed".to_string())).is_err());
    assert_eq!(calls, 2);
    assert_eq!(b.get_circuit_breaker_state(), CircuitBreakerState::Open);
    let third = run(&mut b, 1_000, &mut calls, || Ok(7));
    assert_eq!(calls, 2);
    let msg = third.unwrap_err();
    assert_eq!(msg, "Internal error: Circuit breaker is open for component: translator");
    assert!(msg.contains("Circuit breaker is open"));
    assert_eq!(
        b.check_circuit(1_000),
        Err(AppError::Internal("Circuit breaker is open for component: translator".to_string()))
    );
}

#[test]
fn scenario_connection_refused_falls_back() {
    let mut b = ErrorBoundary::new("gateway".to_string(), None);
    assert!(b.check_circuit(0).is_ok());
    let plan = b.on_error("connection refused", 0).expect("a recovery plan");
    assert_eq!(plan.strategy, RecoveryStrategy::Fallback("cache".to_string()));
    assert_eq!(plan.delay_ms, 500);
    assert_eq!(b.get_error_stats(0).recovery_attempts, 1);
    assert_eq!(b.get_circuit_breaker_state(), CircuitBreakerState::Closed);
}

#[test]
fn restart_resets_and_opens() {
    let mut b = ErrorBoundary::new("engine".to_string(), None);
    let plan = b.on_error("Out of memory", 100).expect("a recovery plan");
    assert_eq!(plan.strategy, RecoveryStrategy::Restart);
    assert_eq!(plan.delay_ms, 2000);
    b.complete_recovery(&plan.strategy, 2_100);
    let s = b.get_error_stats(2_100);
    assert_eq!(s.circuit_breaker_state, CircuitBreakerState::Open);
    assert_eq!(s.error_count, 0);
    assert_eq!(s.recovery_attempts, 0);
    assert_eq!(s.last_error_duration, Some(0));
    assert!(b.check_circuit(62_100).is_err());
    assert!(b.check_circuit(62_101).is_ok());
}

#[test]
fn exhausted_attempts_open_breaker() {
    let mut b = ErrorBoundary::new("c".to_string(), Some(config(10, 1)));
    assert!(b.on_error("boom", 0).is_some());
    assert_eq!(b.get_circuit_breaker_state(), CircuitBreakerState::Closed);
    assert!(b.on_error("boom", 10).is_none());
    assert_eq!(b.get_circuit_breaker_state(), CircuitBreakerState::Open);
    assert_eq!(b.get_error_stats(10).recovery_attempts, 1);
}

#[test]
fn retry_delay_grows_with_attempts() {
    let mut b = ErrorBoundary::new("c".to_string(), Some(config(10, 5)));
    assert_eq!(b.on_error("read timeout", 0).unwrap().delay_ms, 2000);
    assert_eq!(b.on_error("read timeout", 1).unwrap().delay_ms, 4000);
    assert_eq!(b.on_error("read timeout", 2).unwrap().delay_ms, 8000);
}

#[test]
fn disabled_recovery_gives_no_plan() {
    let mut c = config(10, 3);
    c.enable_automatic_recovery = false;
    let mut b = ErrorBoundary::new("c".to_string(), Some(c));
    assert!(b.on_error("network down", 0).is_none());
    assert_eq!(b.get_error_stats(0).recovery_attempts, 0);
    assert_eq!(b.get_circuit_breaker_state(), CircuitBreakerState::Closed);
}

#[test]
fn failures_are_reported() {
    let mut b = ErrorBoundary::new("voice".to_string(), None);
    b.on_error("boom", 1_000);
    b.on_error("bang", 2_000);
    let s = b.get_error_stats(5_000);
    assert_eq!(s.total_errors, 2);
    assert_eq!(
        s.recent_errors,
        vec![
            "[0] Internal error: voice: boom".to_string(),
            "[1] Internal error: voice: bang".to_string()
        ]
    );
    assert_eq!(s.last_error_duration, Some(3_000));
    assert_eq!(s.name, "voice");
}

#[test]
fn registry_register_get_remove() {
    let mut r = ErrorBoundaryRegistry::new();
    r.register("a".to_string(), ErrorBoundary::new("a".to_string(), None));
    r.register("b".to_string(), ErrorBoundary::new("b".to_string(), Some(config(1, 1))));
    assert!(r.get("a").is_some());
    assert_eq!(r.get("b").unwrap().config().error_threshold, 1);
    assert!(r.get("c").is_none());
    r.register("b".to_string(), ErrorBoundary::new("b2".to_string(), None));
    assert_eq!(r.get("b").unwrap().name(), "b2");
    let removed = r.remove("a");
    assert_eq!(removed.unwrap().name(), "a");
    assert!(r.get("a").is_none());
    assert!(r.remove("a").is_none());
}

#[test]
fn registry_stats_and_reset_all() {
    let mut r = ErrorBoundaryRegistry::new();
    let mut a = ErrorBoundary::new("a".to_string(), Some(config(1, 3)));
    a.on_error("boom", 0);
    r.register("a".to_string(), a);
    r.register("b".to_string(), ErrorBoundary::new("b".to_string(), None));
    let stats = r.get_all_stats(100);
    assert_eq!(stats.len(), 2);
    assert_eq!(stats[0].name, "a");
    assert_eq!(stats[0].circuit_breaker_state, CircuitBreakerState::Open);
    assert_eq!(stats[0].error_count, 1);
    assert_eq!(stats[1].name, "b");
    assert_eq!(stats[1].error_count, 0);
    r.reset_all();
    let stats = r.get_all_stats(200);
    assert_eq!(stats[0].circuit_breaker_state, CircuitBreakerState::Closed);
    assert_eq!(stats[0].error_count, 0);
    assert_eq!(stats[0].total_errors, 0);
}

#[test]
fn registry_exchange_keeps_order() {
    let mut r = ErrorBoundaryRegistry::new();
    r.register("a".to_string(), ErrorBoundary::new("a".to_string(), None));
    r.register("b".to_string(), ErrorBoundary::new("b".to_string(), None));
    let mut spare = ErrorBoundary::new("spare".to_string(), None);
    assert!(r.exchange("a", &mut spare));
    assert_eq!(spare.name(), "a");
    spare.on_error("boom", 0);
    assert!(r.exchange("a", &mut spare));
    assert_eq!(spare.name(), "spare");
    let stats = r.get_all_stats(0);
    assert_eq!(stats[0].name, "a");
    assert_eq!(stats[0].error_count, 1);
    assert_eq!(stats[1].name, "b");
    assert!(!r.exchange("c", &mut spare));
    assert_eq!(spare.name(), "spare");
}

#[test]
fn stats_count_only_recent_failures() {
    let mut b = ErrorBoundary::new("c".to_string(), Some(config(10, 10)));
    b.on_error("boom", 0);
    assert_eq!(b.get_error_stats(60_000).error_count, 1);
    assert_eq!(b.get_error_stats(100_000).error_count, 0);
    b.on_error("boom", 30_000);
    assert_eq!(b.get_error_stats(60_000).error_count, 2);
    assert_eq!(b.get_error_stats(60_001).error_count, 1);
    assert_eq!(b.get_error_stats(90_001).error_count, 0);
}

#[test]
fn monitor_reports_high_counts_and_open_breakers() {
    let mut busy = ErrorBoundary::new("busy".to_string(), Some(config(100, 100)));
    for t in 0..6 {
        busy.on_error("boom", t);
    }
    let mut open = ErrorBoundary::new("open".to_string(), Some(config(1, 100)));
    open.on_error("boom", 0);
    let quiet = ErrorBoundary::new("quiet".to_string(), None);
    let mut both = ErrorBoundary::new("both".to_string(), Some(config(6, 100)));
    for t in 0..6 {
        both.on_error("boom", t);
    }
    let stats = vec![
        busy.get_error_stats(10),
        open.get_error_stats(10),
        quiet.get_error_stats(10),
        both.get_error_stats(10),
    ];
    assert_eq!(
        monitor_alerts(&stats),
        vec![
            Alert::HighErrorCount {
                component: "busy".to_string(),
                error_count: 6,
                circuit_breaker_state: CircuitBreakerState::Closed,
            },
            Alert::CircuitOpen { component: "open".to_string() },
            Alert::HighErrorCount {
                component: "both".to_string(),
                error_count: 6,
                circuit_breaker_state: CircuitBreakerState::Open,
            },
            Alert::CircuitOpen { component: "both".to_string() },
        ]
    );
    // A failure streak older than the window no longer warns.
    assert!(monitor_alerts(&vec![busy.get_error_stats(100_000)]).is_empty());
}
