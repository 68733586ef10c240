//! Error boundaries: a rolling failure window, a circuit breaker and a
//! recovery policy around the fallible operations of one named component.
//!
//! The boundary is a state machine driven by its caller. An operation is
//! wrapped as follows: `check_circuit` decides whether it may run; the
//! outcome is handed to `on_success` or `on_error`; a recovery plan that
//! `on_error` returns is carried out by waiting `delay_ms` and then calling
//! `complete_recovery`. Time is given by the caller in milliseconds on a
//! monotonic clock.
use vstd::prelude::*;
use std::collections::VecDeque;
use crate::errors::{AppError, ErrorReporter, ReporterView, report_entry, keep_last};
use crate::text::{lower_of, lowercase, chars_of, contains_text, has_substring};
use crate::named::NamedMap;

verus! {

/// Span of the rolling failure window, in milliseconds.
pub const FAILURE_WINDOW_MS: u64 = 60_000;

/// Error recovery strategy.
#[derive(Debug, Clone, PartialEq, Eq)]
pub enum RecoveryStrategy {
    /// Retry the operation.
    Retry { max_attempts: usize, delay_ms: u64, exponential_backoff: bool },
    /// Fall back to an alternative implementation.
    Fallback(String),
    /// Skip the operation.
    Skip,
    /// Shut down and restart the component.
    Restart,
    /// Custom recovery action.
    Custom(String),
}

/// A recovery strategy as a mathematical value.
pub ghost enum StrategyModel {
    Retry { max_attempts: usize, delay_ms: u64, exponential_backoff: bool },
    Fallback(Seq<char>),
    Skip,
    Restart,
    Custom(Seq<char>),
}

impl View for RecoveryStrategy {
    type V = StrategyModel;

    open spec fn view(&self) -> StrategyModel {
        match self {
            RecoveryStrategy::Retry { max_attempts, delay_ms, exponential_backoff } =>
                StrategyModel::Retry {
                max_attempts: *max_attempts,
                delay_ms: *delay_ms,
                exponential_backoff: *exponential_backoff,
            },
            RecoveryStrategy::Fallback(s) => StrategyModel::Fallback(s@),
            RecoveryStrategy::Skip => StrategyModel::Skip,
            RecoveryStrategy::Restart => StrategyModel::Restart,
            RecoveryStrategy::Custom(s) => StrategyModel::Custom(s@),
        }
    }
}

/// The strategy for an error whose lowercased message is `lower`: the first
/// keyword group that occurs in it decides.
pub open spec fn classify(lower: Seq<char>) -> StrategyModel {
    if has_substring(lower, "memory"@) || has_substring(lower, "allocation"@) {
        StrategyModel::Restart
    } else if has_substring(lower, "timeout"@) {
        StrategyModel::Retry { max_attempts: 3, delay_ms: 2000, exponential_backoff: true }
    } else if has_substring(lower, "network"@) || has_substring(lower, "connection"@) {
        StrategyModel::Fallback("cache"@)
    } else if has_substring(lower, "validation"@) {
        StrategyModel::Skip
    } else {
        StrategyModel::Retry { max_attempts: 1, delay_ms: 1000, exponential_backoff: false }
    }
}

/// Chooses the recovery strategy for an error whose message, already
/// lowercased, is `lower`.
pub fn strategy_for_lowercase(lower: &str) -> (r: RecoveryStrategy)
    ensures
        r@ == classify(lower@),
{
    let text = chars_of(lower);
    if contains_text(&text, "memory") || contains_text(&text, "allocation") {
        RecoveryStrategy::Restart
    } else if contains_text(&text, "timeout") {
        RecoveryStrategy::Retry { max_attempts: 3, delay_ms: 2000, exponential_backoff: true }
    } else if contains_text(&text, "network") || contains_text(&text, "connection") {
        RecoveryStrategy::Fallback(String::from_str("cache"))
    } else if contains_text(&text, "validation") {
        RecoveryStrategy::Skip
    } else {
        RecoveryStrategy::Retry { max_attempts: 1, delay_ms: 1000, exponential_backoff: false }
    }
}

/// Chooses the recovery strategy for an error message, ignoring case.
pub fn determine_recovery_strategy(error_msg: &str) -> (r: RecoveryStrategy)
    ensures
        r@ == classify(lower_of(error_msg@)),
{
    let lower = lowercase(error_msg);
    strategy_for_lowercase(lower.as_str())
}

/// 2 to the power `k`.
pub open spec fn pow2(k: nat) -> nat
    decreases k,
{
    if k == 0 {
        1
    } else {
        2 * pow2((k - 1) as nat)
    }
}

/// `x`, or the largest `u64` where `x` exceeds it.
pub open spec fn saturate(x: int) -> u64 {
    if x > u64::MAX {
        u64::MAX
    } else {
        x as u64
    }
}

/// How long to wait, in milliseconds, before the recovery numbered
/// `attempt` (counting from one) with strategy `s` completes.
pub open spec fn recovery_delay(s: StrategyModel, attempt: nat) -> u64 {
    match s {
        StrategyModel::Retry { delay_ms, exponential_backoff, .. } => if exponential_backoff {
            saturate(delay_ms * pow2((attempt - 1) as nat))
        } else {
            delay_ms
        },
        StrategyModel::Fallback(_) => 500,
        StrategyModel::Skip => 100,
        StrategyModel::Restart => 2000,
        StrategyModel::Custom(_) => 1000,
    }
}

proof fn lemma_pow2_positive(k: nat)
    ensures
        pow2(k) >= 1,
    decreases k,
{
    if k > 0 {
        lemma_pow2_positive((k - 1) as nat);
    }
}

fn backoff(delay: u64, attempt: usize) -> (r: u64)
    requires
        attempt >= 1,
    ensures
        r == saturate(delay * pow2((attempt - 1) as nat)),
{
    let mut d = delay;
    let mut k: usize = attempt - 1;
    while k > 0 && d > 0 && d < u64::MAX
        invariant
            saturate(d * pow2(k as nat)) == saturate(delay * pow2((attempt - 1) as nat)),
        decreases k,
    {
        let ghost p = pow2((k - 1) as nat);
        proof {
            lemma_pow2_positive((k - 1) as nat);
            assert(pow2(k as nat) == 2 * p);
            assert(d * pow2(k as nat) == (2 * d) * p) by (nonlinear_arith)
                requires
                    pow2(k as nat) == 2 * p,
            ;
        }
        if d > u64::MAX / 2 {
            proof {
                assert((2 * d) * p >= 2 * d) by (nonlinear_arith)
                    requires
                        p >= 1,
                        d > 0,
                ;
                assert(u64::MAX * p >= u64::MAX) by (nonlinear_arith)
                    requires
                        p >= 1,
                ;
                assert(saturate(d * pow2(k as nat)) == u64::MAX);
                assert(saturate(u64::MAX * p) == u64::MAX);
            }
            d = u64::MAX;
        } else {
            d = d * 2;
        }
        k = k - 1;
    }
    proof {
        lemma_pow2_positive(k as nat);
        let p = pow2(k as nat);
        if d == u64::MAX {
            assert(u64::MAX * p >= u64::MAX) by (nonlinear_arith)
                requires
                    p >= 1,
            ;
            assert(saturate(d * p) == u64::MAX);
        } else if d == 0 {
            assert(d * p == 0);
            assert(saturate(d * p) == 0);
        } else {
            assert(k == 0);
            assert(pow2(0) == 1);
            assert(p == 1);
            assert(d * p == d) by (nonlinear_arith)
                requires
                    p == 1,
            ;
        }
    }
    d
}

/// The wait, in milliseconds, before the recovery numbered `attempt`
/// (counting from one) with `strategy` completes. An exponential retry
/// doubles its delay for each earlier attempt, saturating at the largest
/// `u64`.
pub fn recovery_delay_ms(strategy: &RecoveryStrategy, attempt: usize) -> (r: u64)
    requires
        attempt >= 1,
    ensures
        r == recovery_delay(strategy@, attempt as nat),
{
    match strategy {
        RecoveryStrategy::Retry { delay_ms, exponential_backoff, .. } => {
            if *exponential_backoff {
                backoff(*delay_ms, attempt)
            } else {
                *delay_ms
            }
        },
        RecoveryStrategy::Fallback(_) => 500,
        RecoveryStrategy::Skip => 100,
        RecoveryStrategy::Restart => 2000,
        RecoveryStrategy::Custom(_) => 1000,
    }
}

/// Error boundary configuration. Durations are in milliseconds.
#[derive(Debug, Clone, Copy, PartialEq, Eq, Structural)]
pub struct ErrorBoundaryConfig {
    /// Maximum recovery attempts per failure streak.
    pub max_recovery_attempts: usize,
    /// Default recovery delay (informational).
    pub default_recovery_delay_ms: u64,
    /// Whether recovery is attempted automatically.
    pub enable_automatic_recovery: bool,
    /// Failures within the window at which the circuit breaker opens.
    pub error_threshold: usize,
    /// How long the circuit breaker stays open.
    pub circuit_breaker_timeout_ms: u64,
}

/// The default configuration.
pub open spec fn default_config() -> ErrorBoundaryConfig {
    ErrorBoundaryConfig {
        max_recovery_attempts: 3,
        default_recovery_delay_ms: 1000,
        enable_automatic_recovery: true,
        error_threshold: 10,
        circuit_breaker_timeout_ms: 60_000,
    }
}

impl Default for ErrorBoundaryConfig {
    fn default() -> (r: Self)
        ensures
            r == default_config(),
    {
        ErrorBoundaryConfig {
            max_recovery_attempts: 3,
            default_recovery_delay_ms: 1000,
            enable_automatic_recovery: true,
            error_threshold: 10,
            circuit_breaker_timeout_ms: 60_000,
        }
    }
}

/// Circuit breaker state.
#[derive(Debug, Clone, Copy, PartialEq, Eq, Structural)]
pub enum CircuitBreakerState {
    /// Operations run normally.
    Closed,
    /// Operations are refused.
    Open,
    /// One trial operation is let through.
    HalfOpen,
}

/// Milliseconds from `then` to `now`; zero if `now` is earlier.
pub open spec fn elapsed_ms(now: u64, then: u64) -> nat {
    if now >= then {
        (now - then) as nat
    } else {
        0
    }
}

fn elapsed(now: u64, then: u64) -> (r: u64)
    ensures
        r == elapsed_ms(now, then),
{
    if now >= then {
        now - then
    } else {
        0
    }
}

/// `w` without the entries at its front that are older than the failure
/// window at time `now`.
pub open spec fn evict_stale(w: Seq<u64>, now: u64) -> Seq<u64>
    decreases w.len(),
{
    if w.len() > 0 && elapsed_ms(now, w[0]) > FAILURE_WINDOW_MS {
        evict_stale(w.drop_first(), now)
    } else {
        w
    }
}

/// The failure times never decrease from the front of the window to its
/// back.
pub open spec fn window_ordered(w: Seq<u64>) -> bool {
    forall|i: int, j: int| 0 <= i <= j < w.len() ==> w[i] <= w[j]
}

/// The number of failures in the window `w` that are no older than the
/// window span at time `now`, stale ones being evicted from the front.
pub open spec fn live_failures(w: Seq<u64>, now: u64) -> nat {
    evict_stale(w, now).len()
}

/// The message of the error that a boundary named `name` returns while its
/// circuit breaker is open.
pub open spec fn circuit_open_text(name: Seq<char>) -> Seq<char> {
    "Circuit breaker is open for component: "@ + name
}

/// What an error boundary holds.
pub ghost struct BoundaryView {
    pub name: Seq<char>,
    pub state: CircuitBreakerState,
    /// Times of the failures in the rolling window, oldest first.
    pub window: Seq<u64>,
    /// Time of the last failure or of the last opening of the breaker.
    pub last_error: Option<u64>,
    pub recovery_attempts: nat,
    pub config: ErrorBoundaryConfig,
    pub reporter: ReporterView,
}

impl BoundaryView {
    /// The invariant of a boundary.
    pub open spec fn wf(self) -> bool {
        &&& self.recovery_attempts <= self.config.max_recovery_attempts
        &&& window_ordered(self.window)
        &&& (self.state == CircuitBreakerState::Open ==> self.last_error is Some)
        &&& self.reporter.capacity == crate::errors::MAX_RECENT_ERRORS
        &&& self.reporter.recent.len() <= self.reporter.capacity
    }

    /// Whether an operation may run at time `now`.
    pub open spec fn admits(self, now: u64) -> bool {
        match self.state {
            CircuitBreakerState::Open => match self.last_error {
                Some(t) => elapsed_ms(now, t) > self.config.circuit_breaker_timeout_ms,
                None => true,
            },
            _ => true,
        }
    }

    /// The boundary after the check that precedes an operation at `now`. An
    /// open breaker whose timeout has passed goes through half-open to
    /// closed, letting this one operation through as its trial; a half-open
    /// breaker closes.
    pub open spec fn after_check(self, now: u64) -> BoundaryView {
        match self.state {
            CircuitBreakerState::Open => match self.last_error {
                Some(t) => if elapsed_ms(now, t) > self.config.circuit_breaker_timeout_ms {
                    BoundaryView { state: CircuitBreakerState::Closed, ..self }
                } else {
                    self
                },
                None => self,
            },
            CircuitBreakerState::HalfOpen => BoundaryView {
                state: CircuitBreakerState::Closed,
                ..self
            },
            CircuitBreakerState::Closed => self,
        }
    }

    /// The boundary after its breaker opens at `now`.
    pub open spec fn opened(self, now: u64) -> BoundaryView {
        BoundaryView { state: CircuitBreakerState::Open, last_error: Some(now), ..self }
    }

    /// The boundary after a successful operation.
    pub open spec fn after_success(self) -> BoundaryView {
        BoundaryView {
            state: CircuitBreakerState::Closed,
            window: Seq::empty(),
            last_error: None,
            recovery_attempts: 0,
            ..self
        }
    }

    /// The boundary after a failure at `now` is recorded: the window gains
    /// `now` and loses its stale front, and the breaker opens once the
    /// window holds `error_threshold` failures.
    pub open spec fn after_record(self, now: u64) -> BoundaryView {
        let w = evict_stale(self.window.push(now), now);
        let r = BoundaryView { window: w, last_error: Some(now), ..self };
        if w.len() >= self.config.error_threshold {
            r.opened(now)
        } else {
            r
        }
    }

    /// The message reported for a failure with message `msg`.
    pub open spec fn failure_text(self, msg: Seq<char>) -> Seq<char> {
        "Internal error: "@ + self.name + ": "@ + msg
    }

    /// The boundary after a failure with message `msg` is reported.
    pub open spec fn after_report(self, msg: Seq<char>) -> BoundaryView {
        BoundaryView {
            reporter: ReporterView {
                count: ((self.reporter.count + 1) % 0x1_0000_0000_0000_0000) as u64,
                recent: keep_last(
                    self.reporter.recent.push(
                        report_entry(self.reporter.count, self.failure_text(msg)),
                    ),
                    self.reporter.capacity,
                ),
                capacity: self.reporter.capacity,
            },
            ..self
        }
    }

    /// Whether a failure in this boundary leads to a recovery attempt.
    pub open spec fn attempts_recovery(self) -> bool {
        self.config.enable_automatic_recovery && self.recovery_attempts
            < self.config.max_recovery_attempts
    }

    /// The boundary after an operation fails at `now` with message `msg`:
    /// the failure is recorded and reported; then, with automatic recovery
    /// on, either one more recovery attempt is counted or, when the
    /// attempts are used up, the breaker opens.
    pub open spec fn after_failure(self, msg: Seq<char>, now: u64) -> BoundaryView {
        let r = self.after_record(now).after_report(msg);
        if !self.config.enable_automatic_recovery {
            r
        } else if self.recovery_attempts >= self.config.max_recovery_attempts {
            r.opened(now)
        } else {
            BoundaryView { recovery_attempts: self.recovery_attempts + 1, ..r }
        }
    }

    /// The recovery that follows a failure with message `msg`, if any: its
    /// strategy and how long to wait before completing it.
    pub open spec fn failure_plan(self, msg: Seq<char>) -> Option<(StrategyModel, u64)> {
        if self.attempts_recovery() {
            let s = classify(lower_of(msg));
            Some((s, recovery_delay(s, self.recovery_attempts + 1)))
        } else {
            None
        }
    }

    /// The boundary after a recovery with strategy `s` completes at `now`:
    /// a restart clears the failure tracking and opens the breaker; other
    /// strategies change nothing.
    pub open spec fn after_recovery(self, s: StrategyModel, now: u64) -> BoundaryView {
        if s is Restart {
            BoundaryView {
                window: Seq::empty(),
                last_error: None,
                recovery_attempts: 0,
                ..self
            }.opened(now)
        } else {
            self
        }
    }

    /// The boundary after a manual reset.
    pub open spec fn after_reset(self) -> BoundaryView {
        BoundaryView {
            state: CircuitBreakerState::Closed,
            window: Seq::empty(),
            last_error: None,
            recovery_attempts: 0,
            reporter: ReporterView {
                count: 0,
                recent: Seq::empty(),
                capacity: self.reporter.capacity,
            },
            ..self
        }
    }
}

/// `r` gives the statistics of a boundary `b` at time `now`.
pub open spec fn stats_match(r: ErrorStats, b: BoundaryView, now: u64) -> bool {
    &&& r.name@ == b.name
    &&& r.error_count == live_failures(b.window, now)
    &&& r.last_error_duration == match b.last_error {
        Some(t) => Some(elapsed_ms(now, t) as u64),
        None => None::<u64>,
    }
    &&& r.recovery_attempts == b.recovery_attempts
    &&& r.circuit_breaker_state == b.state
    &&& r.total_errors == b.reporter.count
    &&& r.recent_errors@.map_values(|s: String| s@) == b.reporter.recent
}

/// A recovery to carry out after a failure: wait `delay_ms`, then hand
/// `strategy` to [`ErrorBoundary::complete_recovery`].
#[derive(Debug, Clone, PartialEq, Eq)]
pub struct RecoveryPlan {
    pub strategy: RecoveryStrategy,
    pub delay_ms: u64,
}

/// Error statistics of one boundary, for monitoring.
#[derive(Debug, Clone, PartialEq, Eq)]
pub struct ErrorStats {
    pub name: String,
    /// Failures in the rolling window.
    pub error_count: usize,
    /// Milliseconds since the last failure or opening, if any.
    pub last_error_duration: Option<u64>,
    pub recovery_attempts: usize,
    pub circuit_breaker_state: CircuitBreakerState,
    /// Errors reported since the last reset.
    pub total_errors: u64,
    /// The recent error messages, oldest first.
    pub recent_errors: Vec<String>,
}

/// Error boundary for one named component.
pub struct ErrorBoundary {
    name: String,
    circuit_breaker_state: CircuitBreakerState,
    error_count: VecDeque<u64>,
    last_error: Option<u64>,
    recovery_attempts: usize,
    config: ErrorBoundaryConfig,
    error_reporter: ErrorReporter,
}

impl View for ErrorBoundary {
    type V = BoundaryView;

    closed spec fn view(&self) -> BoundaryView {
        BoundaryView {
            name: self.name@,
            state: self.circuit_breaker_state,
            window: self.error_count@,
            last_error: self.last_error,
            recovery_attempts: self.recovery_attempts as nat,
            config: self.config,
            reporter: self.error_reporter@,
        }
    }
}

impl ErrorBoundary {
    /// The invariant of a boundary.
    pub open spec fn wf(&self) -> bool {
        self@.wf()
    }

    /// A boundary named `name`, closed and with no failures, using `config`
    /// or the default configuration.
    pub fn new(name: String, config: Option<ErrorBoundaryConfig>) -> (r: Self)
        ensures
            r.wf(),
            r@ == (BoundaryView {
                name: name@,
                state: CircuitBreakerState::Closed,
                window: Seq::empty(),
                last_error: None,
                recovery_attempts: 0,
                config: match config {
                    Some(c) => c,
                    None => default_config(),
                },
                reporter: ReporterView {
                    count: 0,
                    recent: Seq::empty(),
                    capacity: crate::errors::MAX_RECENT_ERRORS as nat,
                },
            }),
    {
        let config = match config {
            Some(c) => c,
            None => ErrorBoundaryConfig::default(),
        };
        let r = ErrorBoundary {
            name,
            circuit_breaker_state: CircuitBreakerState::Closed,
            error_count: VecDeque::new(),
            last_error: None,
            recovery_attempts: 0,
            config,
            error_reporter: ErrorReporter::new(),
        };
        assert(r@.window =~= Seq::<u64>::empty());
        r
    }

    /// The name of the component.
    pub fn name(&self) -> (r: &String)
        ensures
            r@ == self@.name,
    {
        &self.name
    }

    /// The configuration.
    pub fn config(&self) -> (r: ErrorBoundaryConfig)
        ensures
            r == self@.config,
    {
        self.config
    }

    /// The check that precedes an operation at time `now`. While the breaker
    /// is open and its timeout has not passed since the last failure or
    /// opening, the operation must not run and the error to return is given;
    /// otherwise the operation may run, and the breaker is closed if it was
    /// open or half-open.
    pub fn check_circuit(&mut self, now: u64) -> (r: Result<(), AppError>)
        requires
            old(self).wf(),
        ensures
            final(self).wf(),
            final(self)@ == old(self)@.after_check(now),
            r is Ok <==> old(self)@.admits(now),
            r is Err ==> r->Err_0 is Internal && r->Err_0->Internal_0@ == circuit_open_text(
                old(self)@.name,
            ),
    {
        match self.circuit_breaker_state {
            CircuitBreakerState::Open => {
                if let Some(t) = self.last_error {
                    if elapsed(now, t) > self.config.circuit_breaker_timeout_ms {
                        // The breaker half-opens, and the trial it allows is
                        // this very operation.
                        self.circuit_breaker_state = CircuitBreakerState::HalfOpen;
                        self.circuit_breaker_state = CircuitBreakerState::Closed;
                    } else {
                        let mut msg = String::from_str("Circuit breaker is open for component: ");
                        msg.append(self.name.as_str());
                        return Err(AppError::Internal(msg));
                    }
                }
            },
            CircuitBreakerState::HalfOpen => {
                self.circuit_breaker_state = CircuitBreakerState::Closed;
            },
            CircuitBreakerState::Closed => {},
        }
        Ok(())
    }

    /// Records a successful operation: the window empties, the recovery
    /// attempts and last failure are forgotten, and the breaker closes.
    pub fn on_success(&mut self)
        requires
            old(self).wf(),
        ensures
            final(self).wf(),
            final(self)@ == old(self)@.after_success(),
    {
        self.error_count.clear();
        self.recovery_attempts = 0;
        self.last_error = None;
        if self.circuit_breaker_state != CircuitBreakerState::Closed {
            self.circuit_breaker_state = CircuitBreakerState::Closed;
        }
        assert(self@.window =~= Seq::<u64>::empty());
    }

    fn open_circuit_breaker(&mut self, now: u64)
        ensures
            final(self)@ == old(self)@.opened(now),
    {
        self.circuit_breaker_state = CircuitBreakerState::Open;
        self.last_error = Some(now);
    }

    fn record_error(&mut self, now: u64)
        requires
            old(self).wf(),
            old(self)@.window.len() > 0 ==> old(self)@.window.last() <= now,
        ensures
            final(self).wf(),
            final(self)@ == old(self)@.after_record(now),
    {
        let ghost pushed = self.error_count@.push(now);
        let ghost start = *self;
        self.error_count.push_back(now);
        assert(window_ordered(self.error_count@)) by {
            assert forall|i: int, j: int|
                0 <= i <= j < pushed.len() implies pushed[i] <= pushed[j] by {
                if j == pushed.len() - 1 && i < j {
                    assert(start.error_count@[i] <= start.error_count@.last());
                }
            }
        }
        while self.error_count.len() > 0 && elapsed(now, self.error_count[0]) > FAILURE_WINDOW_MS
            invariant
                evict_stale(self.error_count@, now) == evict_stale(pushed, now),
                window_ordered(self.error_count@),
                self.name == start.name,
                self.circuit_breaker_state == start.circuit_breaker_state,
                self.last_error == start.last_error,
                self.recovery_attempts == start.recovery_attempts,
                self.config == start.config,
                self.error_reporter == start.error_reporter,
            decreases self.error_count@.len(),
        {
            let ghost before = self.error_count@;
            self.error_count.pop_front();
            assert(self.error_count@ =~= before.drop_first());
            assert forall|i: int, j: int|
                0 <= i <= j < self.error_count@.len() implies self.error_count@[i]
                <= self.error_count@[j] by {
                assert(before[i + 1] <= before[j + 1]);
            }
        }
        assert(evict_stale(self.error_count@, now) == self.error_count@);
        self.last_error = Some(now);
        if self.error_count.len() >= self.config.error_threshold {
            self.open_circuit_breaker(now);
        }
    }

    /// Records a failed operation at time `now` whose error message is
    /// `error_msg`, and decides the recovery: none when automatic recovery
    /// is off or the attempts are used up (the breaker then opens), else the
    /// strategy that the message calls for and the wait before completing
    /// it.
    pub fn on_error(&mut self, error_msg: &str, now: u64) -> (plan: Option<RecoveryPlan>)
        requires
            old(self).wf(),
            old(self)@.window.len() > 0 ==> old(self)@.window.last() <= now,
        ensures
            final(self).wf(),
            final(self)@ == old(self)@.after_failure(error_msg@, now),
            match plan {
                None => old(self)@.failure_plan(error_msg@) is None,
                Some(p) => old(self)@.failure_plan(error_msg@) == Some((p.strategy@, p.delay_ms)),
            },
    {
        let ghost start = self@;
        self.record_error(now);
        let mut detail = self.name.clone();
        detail.append(": ");
        detail.append(error_msg);
        let failure = AppError::Internal(detail);
        let text = failure.message();
        assert(text@ =~= start.failure_text(error_msg@));
        self.error_reporter.report_error(text.as_str());
        assert(self@ == start.after_record(now).after_report(error_msg@));
        if !self.config.enable_automatic_recovery {
            return None;
        }
        if self.recovery_attempts >= self.config.max_recovery_attempts {
            self.open_circuit_breaker(now);
            return None;
        }
        self.recovery_attempts = self.recovery_attempts + 1;
        let strategy = determine_recovery_strategy(error_msg);
        let delay_ms = recovery_delay_ms(&strategy, self.recovery_attempts);
        Some(RecoveryPlan { strategy, delay_ms })
    }

    /// Completes a recovery at time `now`, after its wait: a restart resets
    /// the failure tracking and opens the breaker; other strategies leave
    /// the boundary as it is.
    pub fn complete_recovery(&mut self, strategy: &RecoveryStrategy, now: u64)
        requires
            old(self).wf(),
        ensures
            final(self).wf(),
            final(self)@ == old(self)@.after_recovery(strategy@, now),
    {
        if let RecoveryStrategy::Restart = strategy {
            self.force_restart(now);
        }
    }

    fn force_restart(&mut self, now: u64)
        requires
            old(self).wf(),
        ensures
            final(self).wf(),
            final(self)@ == old(self)@.after_recovery(StrategyModel::Restart, now),
    {
        self.error_count.clear();
        self.recovery_attempts = 0;
        self.last_error = None;
        self.open_circuit_breaker(now);
        assert(self@.window =~= Seq::<u64>::empty());
    }

    /// The current circuit breaker state.
    pub fn get_circuit_breaker_state(&self) -> (r: CircuitBreakerState)
        ensures
            r == self@.state,
    {
        self.circuit_breaker_state
    }

    /// Statistics of the boundary at time `now`.
    pub fn get_error_stats(&self, now: u64) -> (r: ErrorStats)
        ensures
            stats_match(r, self@, now),
    {
        let last_error_duration = match self.last_error {
            Some(t) => Some(elapsed(now, t)),
            None => None,
        };
        let ghost w = self.error_count@;
        let n = self.error_count.len();
        let mut i: usize = 0;
        assert(w.subrange(0, n as int) =~= w);
        while i < n && elapsed(now, self.error_count[i]) > FAILURE_WINDOW_MS
            invariant
                i <= n,
                n == w.len(),
                w == self.error_count@,
                evict_stale(w.subrange(i as int, n as int), now) == evict_stale(w, now),
            decreases n - i,
        {
            assert(w.subrange(i as int, n as int).drop_first() =~= w.subrange(i + 1, n as int));
            i += 1;
        }
        assert(evict_stale(w.subrange(i as int, n as int), now).len() == n - i);
        ErrorStats {
            name: self.name.clone(),
            error_count: n - i,
            last_error_duration,
            recovery_attempts: self.recovery_attempts,
            circuit_breaker_state: self.circuit_breaker_state,
            total_errors: self.error_reporter.get_error_count(),
            recent_errors: self.error_reporter.get_recent_errors(),
        }
    }

    /// Resets the boundary: closed, no failures, no recovery attempts, no
    /// last failure, and an empty error history.
    pub fn reset(&mut self)
        requires
            old(self).wf(),
        ensures
            final(self).wf(),
            final(self)@ == old(self)@.after_reset(),
    {
        self.error_count.clear();
        self.recovery_attempts = 0;
        self.last_error = None;
        self.circuit_breaker_state = CircuitBreakerState::Closed;
        self.error_reporter.clear_errors();
        assert(self@.window =~= Seq::<u64>::empty());
    }
}

/// A boundary's failures in the window above which the monitor warns.
pub const HIGH_ERROR_COUNT: usize = 5;

/// A condition that the periodic monitor reports.
#[derive(Debug, Clone, PartialEq, Eq)]
pub enum Alert {
    /// A component with more than `HIGH_ERROR_COUNT` failures in its window
    /// (a warning).
    HighErrorCount { component: String, error_count: usize, circuit_breaker_state: CircuitBreakerState },
    /// A component whose circuit breaker is open (an error).
    CircuitOpen { component: String },
}

/// An alert as a mathematical value.
pub ghost enum AlertModel {
    HighErrorCount { component: Seq<char>, error_count: usize, circuit_breaker_state: CircuitBreakerState },
    CircuitOpen { component: Seq<char> },
}

impl View for Alert {
    type V = AlertModel;

    open spec fn view(&self) -> AlertModel {
        match self {
            Alert::HighErrorCount { component, error_count, circuit_breaker_state } =>
                AlertModel::HighErrorCount {
                component: component@,
                error_count: *error_count,
                circuit_breaker_state: *circuit_breaker_state,
            },
            Alert::CircuitOpen { component } => AlertModel::CircuitOpen { component: component@ },
        }
    }
}

/// The alerts for one component's statistics: a warning for a high error
/// count, then an error for an open breaker.
pub open spec fn alerts_for(s: ErrorStats) -> Seq<AlertModel> {
    (if s.error_count > HIGH_ERROR_COUNT {
        seq![
            AlertModel::HighErrorCount {
                component: s.name@,
                error_count: s.error_count,
                circuit_breaker_state: s.circuit_breaker_state,
            },
        ]
    } else {
        Seq::empty()
    }) + (if s.circuit_breaker_state == CircuitBreakerState::Open {
        seq![AlertModel::CircuitOpen { component: s.name@ }]
    } else {
        Seq::empty()
    })
}

/// The alerts for a list of statistics, in order.
pub open spec fn alerts_of(stats: Seq<ErrorStats>) -> Seq<AlertModel>
    decreases stats.len(),
{
    if stats.len() == 0 {
        Seq::empty()
    } else {
        alerts_of(stats.drop_last()) + alerts_for(stats.last())
    }
}

/// The alerts that the periodic monitor reports for the given statistics.
pub fn monitor_alerts(stats: &Vec<ErrorStats>) -> (r: Vec<Alert>)
    ensures
        r@.map_values(|a: Alert| a@) == alerts_of(stats@),
{
    let mut out: Vec<Alert> = Vec::new();
    let mut i: usize = 0;
    while i < stats.len()
        invariant
            i <= stats@.len(),
            out@.map_values(|a: Alert| a@) == alerts_of(stats@.take(i as int)),
        decreases stats@.len() - i,
    {
        let s = &stats[i];
        let ghost before = out@.map_values(|a: Alert| a@);
        proof {
            assert(stats@.take(i + 1).drop_last() =~= stats@.take(i as int));
            assert(stats@.take(i + 1).last() == *s);
        }
        if s.error_count > HIGH_ERROR_COUNT {
            out.push(
                Alert::HighErrorCount {
                    component: s.name.clone(),
                    error_count: s.error_count,
                    circuit_breaker_state: s.circuit_breaker_state,
                },
            );
        }
        if s.circuit_breaker_state == CircuitBreakerState::Open {
            out.push(Alert::CircuitOpen { component: s.name.clone() });
        }
        assert(out@.map_values(|a: Alert| a@) =~= before + alerts_for(*s));
        i += 1;
    }
    assert(stats@.take(stats@.len() as int) =~= stats@);
    out
}

/// Named collection of error boundaries.
pub struct ErrorBoundaryRegistry {
    boundaries: NamedMap<ErrorBoundary>,
}

impl View for ErrorBoundaryRegistry {
    type V = Map<Seq<char>, BoundaryView>;

    closed spec fn view(&self) -> Map<Seq<char>, BoundaryView> {
        self.boundaries@.map_values(|b: ErrorBoundary| b@)
    }
}

impl Default for ErrorBoundaryRegistry {
    fn default() -> (r: Self)
        ensures
            r.wf(),
            r@ == Map::<Seq<char>, BoundaryView>::empty(),
    {
        ErrorBoundaryRegistry::new()
    }
}

impl ErrorBoundaryRegistry {
    /// The names of the registered boundaries, in registration order.
    pub closed spec fn names(&self) -> Seq<Seq<char>> {
        self.boundaries.names()
    }

    /// The invariant: a well-formed map of well-formed boundaries.
    pub closed spec fn wf(&self) -> bool {
        &&& self.boundaries.wf()
        &&& forall|k: Seq<char>| #[trigger]
            self.boundaries@.contains_key(k) ==> self.boundaries@[k].wf()
    }

    /// The names are distinct, are exactly the registered ones, and each
    /// registered boundary is well formed.
    pub proof fn lemma_names(&self)
        requires
            self.wf(),
        ensures
            self.names().no_duplicates(),
            forall|k: Seq<char>| #[trigger] self@.contains_key(k) <==> self.names().contains(k),
            forall|k: Seq<char>| #[trigger] self@.contains_key(k) ==> self@[k].wf(),
    {
        self.boundaries.lemma_names();
    }

    /// An empty registry.
    pub fn new() -> (r: Self)
        ensures
            r.wf(),
            r@ == Map::<Seq<char>, BoundaryView>::empty(),
    {
        let r = ErrorBoundaryRegistry { boundaries: NamedMap::new() };
        assert(r@ =~= Map::<Seq<char>, BoundaryView>::empty());
        r
    }

    /// Registers `boundary` under `name`, replacing any boundary registered
    /// under it.
    pub fn register(&mut self, name: String, boundary: ErrorBoundary)
        requires
            old(self).wf(),
            boundary.wf(),
        ensures
            final(self).wf(),
            final(self)@ == old(self)@.insert(name@, boundary@),
    {
        let ghost key = name@;
        let ghost view = boundary@;
        self.boundaries.insert(name, boundary);
        assert(self@ =~= old(self)@.insert(key, view));
    }

    /// The boundary registered under `name`, if any.
    pub fn get(&self, name: &str) -> (r: Option<&ErrorBoundary>)
        requires
            self.wf(),
        ensures
            r is Some <==> self@.contains_key(name@),
            r is Some ==> r->0@ == self@[name@] && r->0.wf(),
    {
        self.boundaries.get(name)
    }

    /// Exchanges the boundary registered under `name` with `boundary`, in
    /// place; false, with nothing changed, if there is none.
    pub fn exchange(&mut self, name: &str, boundary: &mut ErrorBoundary) -> (r: bool)
        requires
            old(self).wf(),
            old(boundary).wf(),
        ensures
            final(self).wf(),
            final(boundary).wf(),
            r == old(self)@.contains_key(name@),
            r ==> final(self)@ == old(self)@.insert(name@, old(boundary)@),
            r ==> final(boundary)@ == old(self)@[name@],
            !r ==> final(self)@ == old(self)@ && *final(boundary) == *old(boundary),
            final(self).names() == old(self).names(),
    {
        match self.boundaries.find(name) {
            Some(i) => {
                let ghost before = self.boundaries@;
                let ghost given = *boundary;
                proof {
                    self.boundaries.lemma_names();
                    assert(self.boundaries.names().contains(name@));
                    assert(self.boundaries@.contains_key(name@));
                }
                self.boundaries.swap_value_at(i, boundary);
                proof {
                    self.boundaries.lemma_names();
                    assert forall|k: Seq<char>| #[trigger]
                        self.boundaries@.contains_key(k) implies self.boundaries@[k].wf() by {
                        if k != name@ {
                            assert(before.contains_key(k));
                        }
                    }
                    assert(self@ =~= old(self)@.insert(name@, given@));
                }
                true
            },
            None => false,
        }
    }

    /// Removes the boundary registered under `name` and returns it, if any.
    pub fn remove(&mut self, name: &str) -> (r: Option<ErrorBoundary>)
        requires
            old(self).wf(),
        ensures
            final(self).wf(),
            final(self)@ == old(self)@.remove(name@),
            r is Some <==> old(self)@.contains_key(name@),
            r is Some ==> r->0@ == old(self)@[name@] && r->0.wf(),
    {
        let r = self.boundaries.remove(name);
        assert(self@ =~= old(self)@.remove(name@));
        r
    }

    /// The statistics of every registered boundary at time `now`, in
    /// registration order.
    pub fn get_all_stats(&self, now: u64) -> (r: Vec<ErrorStats>)
        requires
            self.wf(),
        ensures
            r@.len() == self.names().len(),
            forall|i: int|
                0 <= i < r@.len() ==> stats_match(#[trigger] r@[i], self@[self.names()[i]], now),
    {
        let mut stats: Vec<ErrorStats> = Vec::new();
        let n = self.boundaries.len();
        let mut i: usize = 0;
        while i < n
            invariant
                self.wf(),
                n == self.names().len(),
                i <= n,
                stats@.len() == i,
                forall|j: int|
                    0 <= j < i ==> stats_match(#[trigger] stats@[j], self@[self.names()[j]], now),
            decreases n - i,
        {
            let b = self.boundaries.value_at(i);
            proof {
                self.boundaries.lemma_names();
                assert(self.boundaries.names().contains(self.names()[i as int]));
            }
            stats.push(b.get_error_stats(now));
            i += 1;
        }
        stats
    }

    /// Resets every registered boundary.
    pub fn reset_all(&mut self)
        requires
            old(self).wf(),
        ensures
            final(self).wf(),
            final(self)@ == old(self)@.map_values(|b: BoundaryView| b.after_reset()),
    {
        let ghost start = self@;
        let n = self.boundaries.len();
        let mut spare = ErrorBoundary::new(String::new(), None);
        let mut i: usize = 0;
        proof {
            self.boundaries.lemma_names();
        }
        while i < n
            invariant
                self.wf(),
                n == self.names().len(),
                i <= n,
                self.names() == old(self).names(),
                self@.dom() == start.dom(),
                spare.wf(),
                forall|j: int|
                    0 <= j < n ==> #[trigger] self@[self.names()[j]] == if j < i {
                        start[self.names()[j]].after_reset()
                    } else {
                        start[self.names()[j]]
                    },
            decreases n - i,
        {
            proof {
                self.boundaries.lemma_names();
                assert(self.boundaries.names().contains(self.names()[i as int]));
                assert(self.boundaries@.contains_key(self.names()[i as int]));
                assert(self.boundaries@[self.names()[i as int]].wf());
            }
            let ghost prev = self@;
            let ghost prev_b = self.boundaries@;
            let ghost k = self.names()[i as int];
            assert(self@[self.names()[i as int]] == start[self.names()[i as int]]);
            assert(prev_b[k]@ == start[k]);
            self.boundaries.swap_value_at(i, &mut spare);
            spare.reset();
            let ghost fresh = spare;
            self.boundaries.swap_value_at(i, &mut spare);
            proof {
                assert(self.boundaries@ =~= prev_b.insert(k, fresh));
                assert(self@ =~= prev.insert(k, fresh@));
                assert(fresh@ == start[k].after_reset());
                self.boundaries.lemma_names();
                assert(self@.dom() =~= start.dom());
                assert forall|j: int| 0 <= j < n implies #[trigger] self@[self.names()[j]] == if j
                    < i + 1 {
                    start[self.names()[j]].after_reset()
                } else {
                    start[self.names()[j]]
                } by {
                    if j != i {
                        assert(self.names()[j] != self.names()[i as int]);
                    }
                }
            }
            i += 1;
        }
        proof {
            self.boundaries.lemma_names();
            assert forall|k: Seq<char>| #[trigger] self@.contains_key(k) implies self@[k]
                == start[k].after_reset() by {
                let j = self.names().index_of(k);
                assert(self.names().contains(k));
            }
            assert(self@ =~= start.map_values(|b: BoundaryView| b.after_reset()));
        }
    }
}

/// The boundary after failures with messages `msgs` at times `times`, in
/// order, with no other call in between.
pub open spec fn after_failures(b: BoundaryView, msgs: Seq<Seq<char>>, times: Seq<u64>) -> BoundaryView
    decreases times.len(),
{
    if times.len() == 0 || msgs.len() == 0 {
        b
    } else {
        after_failures(b, msgs.drop_last(), times.drop_last()).after_failure(
            msgs.last(),
            times.last(),
        )
    }
}

/// A successful operation leaves the failure window empty and the breaker
/// closed, and any further success changes nothing more.
pub proof fn success_clears_window(b: BoundaryView)
    ensures
        b.after_success().window.len() == 0,
        b.after_success().state == CircuitBreakerState::Closed,
        b.after_success().after_success() == b.after_success(),
{
}

proof fn lemma_failures_kept(b: BoundaryView, msgs: Seq<Seq<char>>, times: Seq<u64>, start: u64)
    requires
        msgs.len() == times.len(),
        forall|i: int| 0 <= i < b.window.len() ==> start <= #[trigger] b.window[i] <= start + FAILURE_WINDOW_MS,
        forall|i: int| 0 <= i < times.len() ==> start <= #[trigger] times[i] <= start + FAILURE_WINDOW_MS,
    ensures
        after_failures(b, msgs, times).window == b.window + times,
        after_failures(b, msgs, times).config == b.config,
        times.len() > 0 && b.window.len() + times.len() >= b.config.error_threshold
            ==> after_failures(b, msgs, times).state == CircuitBreakerState::Open,
    decreases times.len(),
{
    if times.len() == 0 {
        assert(b.window + times =~= b.window);
    } else {
        let ms = msgs.drop_last();
        let ts = times.drop_last();
        assert forall|i: int| 0 <= i < ts.len() implies start <= #[trigger] ts[i] <= start
            + FAILURE_WINDOW_MS by {
            assert(ts[i] == times[i]);
        }
        lemma_failures_kept(b, ms, ts, start);
        let p = after_failures(b, ms, ts);
        let t = times.last();
        let pushed = p.window.push(t);
        assert(pushed =~= b.window + times);
        let first = pushed[0];
        if b.window.len() > 0 {
            assert(first == b.window[0]);
        } else {
            assert(first == times[0]);
        }
        assert(elapsed_ms(t, first) <= FAILURE_WINDOW_MS);
        assert(evict_stale(pushed, t) == pushed);
    }
}

/// Failures that all fall within one window span are all counted: once
/// the window holds `error_threshold` of them, the breaker is open, so the
/// next check refuses operations until the timeout passes.
pub proof fn failures_within_window_open_breaker(
    b: BoundaryView,
    msgs: Seq<Seq<char>>,
    times: Seq<u64>,
    start: u64,
)
    requires
        msgs.len() == times.len(),
        times.len() > 0,
        forall|i: int| 0 <= i < b.window.len() ==> start <= #[trigger] b.window[i] <= start + FAILURE_WINDOW_MS,
        forall|i: int| 0 <= i < times.len() ==> start <= #[trigger] times[i] <= start + FAILURE_WINDOW_MS,
        b.window.len() + times.len() >= b.config.error_threshold,
    ensures
        after_failures(b, msgs, times).window == b.window + times,
        after_failures(b, msgs, times).state == CircuitBreakerState::Open,
{
    lemma_failures_kept(b, msgs, times, start);
}

/// Once the timeout has passed since the breaker opened, the next check
/// lets the operation through as the one trial and closes the breaker
/// before it runs, whatever the trial's outcome; nothing else changes.
pub proof fn open_breaker_allows_trial_after_timeout(b: BoundaryView, now: u64)
    requires
        b.state == CircuitBreakerState::Open,
        b.last_error is Some,
        elapsed_ms(now, b.last_error->0) > b.config.circuit_breaker_timeout_ms,
    ensures
        b.admits(now),
        b.after_check(now) == (BoundaryView { state: CircuitBreakerState::Closed, ..b }),
{
}

/// Before the timeout has passed, an open breaker refuses the operation and
/// the boundary stays as it is.
pub proof fn open_breaker_refuses_before_timeout(b: BoundaryView, now: u64)
    requires
        b.state == CircuitBreakerState::Open,
        b.last_error is Some,
        elapsed_ms(now, b.last_error->0) <= b.config.circuit_breaker_timeout_ms,
    ensures
        !b.admits(now),
        b.after_check(now) == b,
{
}

/// Resetting twice in a row is the same as resetting once, which leaves the
/// breaker closed with an empty window, no recovery attempts and no last
/// failure.
pub proof fn reset_is_idempotent(b: BoundaryView)
    ensures
        b.after_reset().after_reset() == b.after_reset(),
        b.after_reset().state == CircuitBreakerState::Closed,
        b.after_reset().window.len() == 0,
        b.after_reset().recovery_attempts == 0,
        b.after_reset().last_error is None,
{
}

/// The recovery strategy by keyword of the lowercased message, the first
/// matching group winning: "memory" or "allocation" restart; "timeout"
/// retries three times with exponential backoff from 2000 ms; "network" or
/// "connection" fall back to the cache; "validation" skips; anything else
/// retries once after 1000 ms.
pub proof fn recovery_by_keyword(lower: Seq<char>)
    ensures
        has_substring(lower, "memory"@) || has_substring(lower, "allocation"@) ==> classify(lower)
            == StrategyModel::Restart,
        !has_substring(lower, "memory"@) && !has_substring(lower, "allocation"@)
            && has_substring(lower, "timeout"@) ==> classify(lower) == (StrategyModel::Retry {
            max_attempts: 3,
            delay_ms: 2000,
            exponential_backoff: true,
        }),
        !has_substring(lower, "memory"@) && !has_substring(lower, "allocation"@)
            && !has_substring(lower, "timeout"@) && (has_substring(lower, "network"@)
            || has_substring(lower, "connection"@)) ==> classify(lower) == StrategyModel::Fallback(
            "cache"@,
        ),
        !has_substring(lower, "memory"@) && !has_substring(lower, "allocation"@)
            && !has_substring(lower, "timeout"@) && !has_substring(lower, "network"@)
            && !has_substring(lower, "connection"@) && has_substring(lower, "validation"@)
            ==> classify(lower) == StrategyModel::Skip,
        !has_substring(lower, "memory"@) && !has_substring(lower, "allocation"@)
            && !has_substring(lower, "timeout"@) && !has_substring(lower, "network"@)
            && !has_substring(lower, "connection"@) && !has_substring(lower, "validation"@)
            ==> classify(lower) == (StrategyModel::Retry {
            max_attempts: 1,
            delay_ms: 1000,
            exponential_backoff: false,
        }),
{
}

} // verus!
