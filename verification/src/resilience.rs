//! Circuit breaker that stops calls into a failing service.
//!
//! The breaker is closed while calls succeed. When the share of failures
//! among the recent calls reaches a threshold, it opens and rejects calls
//! until a timeout has passed since the last failure; then it lets one test
//! call through (half-open) and closes again if that call succeeds.

use std::collections::VecDeque;
use std::time::Instant;
use vstd::prelude::*;

use crate::clock::{elapsed_nanos, now};
use crate::errors::CommandError;
use crate::types::EventStoreError;

verus! {

/// Why a configuration value was refused.
#[derive(Debug, Clone, Copy, PartialEq, Eq, Structural)]
pub enum RangeError {
    /// The value is below the smallest one allowed.
    TooSmall,
    /// The value is above the largest one allowed.
    TooLarge,
}

/// Failure threshold, in hundredths of a percent of the recent calls
/// (5000 is 50%). Valid range: 0 to 10000.
#[derive(Debug, Clone, Copy, PartialEq, Eq, Structural)]
pub struct FailureThreshold {
    basis_points: u32,
}

impl FailureThreshold {
    /// The threshold in hundredths of a percent.
    pub closed spec fn spec_value(self) -> u32 {
        self.basis_points
    }

    #[verifier::type_invariant]
    spec fn in_range(self) -> bool {
        self.basis_points <= 10000
    }

    /// A threshold of `basis_points` hundredths of a percent, refused above
    /// 100%.
    pub fn try_new(basis_points: u32) -> (r: Result<Self, RangeError>)
        ensures
            basis_points <= 10000 ==> (r matches Ok(t) && t.spec_value() == basis_points),
            basis_points > 10000 ==> r == Err::<Self, RangeError>(RangeError::TooLarge),
    {
        if basis_points > 10000 {
            Err(RangeError::TooLarge)
        } else {
            Ok(FailureThreshold { basis_points })
        }
    }

    /// The threshold in hundredths of a percent.
    pub fn into_inner(self) -> (v: u32)
        ensures
            v == self.spec_value(),
            v <= 10000,
    {
        proof {
            use_type_invariant(self);
        }
        self.basis_points
    }

    /// The default threshold, 50%.
    pub fn default_threshold() -> (t: Self)
        ensures
            t.spec_value() == 5000,
    {
        FailureThreshold { basis_points: 5000 }
    }
}

/// Time the circuit stays open before a test call, in milliseconds.
/// Valid range: 1 to 600000 (ten minutes).
#[derive(Debug, Clone, Copy, PartialEq, Eq, Structural)]
pub struct TimeoutMs {
    millis: u64,
}

impl TimeoutMs {
    /// The timeout in milliseconds.
    pub closed spec fn spec_value(self) -> u64 {
        self.millis
    }

    #[verifier::type_invariant]
    spec fn in_range(self) -> bool {
        1 <= self.millis <= 600_000
    }

    /// A timeout of `millis` milliseconds, refused outside 1 to 600000.
    pub fn try_new(millis: u64) -> (r: Result<Self, RangeError>)
        ensures
            1 <= millis <= 600_000 ==> (r matches Ok(t) && t.spec_value() == millis),
            millis < 1 ==> r == Err::<Self, RangeError>(RangeError::TooSmall),
            millis > 600_000 ==> r == Err::<Self, RangeError>(RangeError::TooLarge),
    {
        if millis < 1 {
            Err(RangeError::TooSmall)
        } else if millis > 600_000 {
            Err(RangeError::TooLarge)
        } else {
            Ok(TimeoutMs { millis })
        }
    }

    /// The timeout in milliseconds.
    pub fn into_inner(self) -> (v: u64)
        ensures
            v == self.spec_value(),
            1 <= v <= 600_000,
    {
        proof {
            use_type_invariant(self);
        }
        self.millis
    }

    /// The default timeout, 30 seconds.
    pub fn default_timeout() -> (t: Self)
        ensures
            t.spec_value() == 30_000,
    {
        TimeoutMs { millis: 30_000 }
    }
}

/// Number of recent calls considered for the failure rate.
/// Valid range: 10 to 10000.
#[derive(Debug, Clone, Copy, PartialEq, Eq, Structural)]
pub struct WindowSize {
    size: usize,
}

impl WindowSize {
    /// The window size.
    pub closed spec fn spec_value(self) -> usize {
        self.size
    }

    #[verifier::type_invariant]
    spec fn in_range(self) -> bool {
        10 <= self.size <= 10_000
    }

    /// A window of `size` calls, refused outside 10 to 10000.
    pub fn try_new(size: usize) -> (r: Result<Self, RangeError>)
        ensures
            10 <= size <= 10_000 ==> (r matches Ok(t) && t.spec_value() == size),
            size < 10 ==> r == Err::<Self, RangeError>(RangeError::TooSmall),
            size > 10_000 ==> r == Err::<Self, RangeError>(RangeError::TooLarge),
    {
        if size < 10 {
            Err(RangeError::TooSmall)
        } else if size > 10_000 {
            Err(RangeError::TooLarge)
        } else {
            Ok(WindowSize { size })
        }
    }

    /// The window size.
    pub fn into_inner(self) -> (v: usize)
        ensures
            v == self.spec_value(),
            10 <= v <= 10_000,
    {
        proof {
            use_type_invariant(self);
        }
        self.size
    }

    /// The default window, 100 calls.
    pub fn default_size() -> (t: Self)
        ensures
            t.spec_value() == 100,
    {
        WindowSize { size: 100 }
    }
}

/// Minimum number of recent calls before the failure rate is considered.
/// Valid range: 1 to 1000.
#[derive(Debug, Clone, Copy, PartialEq, Eq, Structural)]
pub struct MinRequests {
    count: usize,
}

impl MinRequests {
    /// The minimum number of calls.
    pub closed spec fn spec_value(self) -> usize {
        self.count
    }

    #[verifier::type_invariant]
    spec fn in_range(self) -> bool {
        1 <= self.count <= 1000
    }

    /// A minimum of `count` calls, refused outside 1 to 1000.
    pub fn try_new(count: usize) -> (r: Result<Self, RangeError>)
        ensures
            1 <= count <= 1000 ==> (r matches Ok(t) && t.spec_value() == count),
            count < 1 ==> r == Err::<Self, RangeError>(RangeError::TooSmall),
            count > 1000 ==> r == Err::<Self, RangeError>(RangeError::TooLarge),
    {
        if count < 1 {
            Err(RangeError::TooSmall)
        } else if count > 1000 {
            Err(RangeError::TooLarge)
        } else {
            Ok(MinRequests { count })
        }
    }

    /// The minimum number of calls.
    pub fn into_inner(self) -> (v: usize)
        ensures
            v == self.spec_value(),
            1 <= v <= 1000,
    {
        proof {
            use_type_invariant(self);
        }
        self.count
    }

    /// The default minimum, 10 calls.
    pub fn default_count() -> (t: Self)
        ensures
            t.spec_value() == 10,
    {
        MinRequests { count: 10 }
    }
}

/// Circuit breaker configuration with validated parameters.
#[derive(Debug, Clone, Copy, PartialEq, Eq, Structural)]
pub struct CircuitBreakerConfig {
    /// Share of failures among the recent calls that opens the circuit.
    pub failure_threshold: FailureThreshold,
    /// Time after the last failure before a test call is let through.
    pub timeout: TimeoutMs,
    /// Number of recent calls considered.
    pub window_size: WindowSize,
    /// Minimum number of recent calls before the circuit may open.
    pub min_requests: MinRequests,
    /// Whether the breaker is active at all.
    pub enabled: bool,
}

impl CircuitBreakerConfig {
    /// The default configuration: 50% threshold, 30s timeout, a window of
    /// 100 calls, at least 10 calls, enabled.
    pub fn default_config() -> (c: Self)
        ensures
            c.failure_threshold.spec_value() == 5000,
            c.timeout.spec_value() == 30_000,
            c.window_size.spec_value() == 100,
            c.min_requests.spec_value() == 10,
            c.enabled,
    {
        CircuitBreakerConfig {
            failure_threshold: FailureThreshold::default_threshold(),
            timeout: TimeoutMs::default_timeout(),
            window_size: WindowSize::default_size(),
            min_requests: MinRequests::default_count(),
            enabled: true,
        }
    }
}

impl Default for CircuitBreakerConfig {
    fn default() -> (c: Self)
        ensures
            c.failure_threshold.spec_value() == 5000,
            c.timeout.spec_value() == 30_000,
            c.window_size.spec_value() == 100,
            c.min_requests.spec_value() == 10,
            c.enabled,
    {
        CircuitBreakerConfig::default_config()
    }
}

/// The state of a circuit breaker.
#[derive(Debug, Clone, Copy, PartialEq, Eq, Structural)]
pub enum CircuitState {
    /// Calls pass through.
    Closed,
    /// Calls are rejected.
    Open,
    /// One test call is under way.
    HalfOpen,
}

impl CircuitState {
    /// The state's name: "closed", "open" or "half-open".
    pub fn as_str(&self) -> (s: &'static str)
        ensures
            s@ == match self {
                CircuitState::Closed => "closed"@,
                CircuitState::Open => "open"@,
                CircuitState::HalfOpen => "half-open"@,
            },
    {
        proof {
            reveal_strlit("closed");
            reveal_strlit("open");
            reveal_strlit("half-open");
        }
        match self {
            CircuitState::Closed => "closed",
            CircuitState::Open => "open",
            CircuitState::HalfOpen => "half-open",
        }
    }
}

/// The result of a call through a circuit breaker.
#[derive(Debug, Clone)]
pub enum CircuitResult<T> {
    /// The call was made; it holds the call's result.
    Success(T),
    /// The call failed.
    Failure,
    /// The circuit was open and the call was not made.
    CircuitOpen,
}

impl<T> CircuitResult<T> {
    /// Whether the call was made.
    pub fn is_success(&self) -> (b: bool)
        ensures
            b == self is Success,
    {
        match self {
            CircuitResult::Success(_) => true,
            _ => false,
        }
    }

    /// Whether the call failed.
    pub fn is_failure(&self) -> (b: bool)
        ensures
            b == self is Failure,
    {
        match self {
            CircuitResult::Failure => true,
            _ => false,
        }
    }

    /// Whether the call was rejected by an open circuit.
    pub fn is_circuit_open(&self) -> (b: bool)
        ensures
            b == self is CircuitOpen,
    {
        match self {
            CircuitResult::CircuitOpen => true,
            _ => false,
        }
    }

    /// The value of a successful call. Only defined on `Success`.
    pub fn unwrap(self) -> (v: T)
        requires
            self is Success,
        ensures
            self == CircuitResult::Success(v),
    {
        match self {
            CircuitResult::Success(v) => v,
            _ => {
                proof {
                    assert(false);
                }
                vstd::pervasive::unreached()
            },
        }
    }

    /// The value of a successful call, or `default` otherwise.
    pub fn unwrap_or(self, default: T) -> (v: T)
        ensures
            match self {
                CircuitResult::Success(x) => v == x,
                _ => v == default,
            },
    {
        match self {
            CircuitResult::Success(v) => v,
            _ => default,
        }
    }
}

/// The number of failures (`false` entries) among recorded call outcomes.
pub open spec fn failures_in(s: Seq<bool>) -> nat
    decreases s.len(),
{
    if s.len() == 0 {
        0
    } else {
        failures_in(s.drop_last()) + if s.last() {
            0nat
        } else {
            1nat
        }
    }
}

/// The outcomes kept after `outcome` is recorded on top of `s`: the most
/// recent `window` of them.
pub open spec fn window_after(s: Seq<bool>, outcome: bool, window: nat) -> Seq<bool> {
    let t = s.push(outcome);
    if t.len() > window {
        t.subrange(t.len() - window, t.len() as int)
    } else {
        t
    }
}

/// Whether a breaker in `state` with recent outcomes `recent` opens: it is
/// not open yet, it has seen at least `min_requests` calls, and failures make
/// up at least the threshold share of them.
pub open spec fn reaches_threshold(
    state: CircuitState,
    recent: Seq<bool>,
    config: CircuitBreakerConfig,
) -> bool {
    &&& state != CircuitState::Open
    &&& recent.len() >= config.min_requests.spec_value()
    &&& failures_in(recent) * 10000 >= config.failure_threshold.spec_value() * recent.len()
}

proof fn lemma_failures_drop_first(s: Seq<bool>)
    requires
        s.len() > 0,
    ensures
        failures_in(s) == failures_in(s.drop_first()) + if s[0] {
            0nat
        } else {
            1nat
        },
    decreases s.len(),
{
    let f0: nat = if s[0] {
        0nat
    } else {
        1nat
    };
    let fl: nat = if s.last() {
        0nat
    } else {
        1nat
    };
    assert(failures_in(s) == failures_in(s.drop_last()) + fl);
    if s.len() > 1 {
        lemma_failures_drop_first(s.drop_last());
        assert(s.drop_last()[0] == s[0]);
        assert(failures_in(s.drop_last()) == failures_in(s.drop_last().drop_first()) + f0);
        assert(s.drop_last().drop_first() =~= s.drop_first().drop_last());
        assert(s.drop_first().last() == s.last());
        assert(failures_in(s.drop_first()) == failures_in(s.drop_first().drop_last()) + fl);
    } else {
        assert(s.drop_first().len() == 0);
        assert(s.drop_last().len() == 0);
        assert(failures_in(s.drop_last()) == 0);
        assert(failures_in(s.drop_first()) == 0);
        assert(s.last() == s[0]);
    }
}

proof fn lemma_failures_bound(s: Seq<bool>)
    ensures
        failures_in(s) <= s.len(),
    decreases s.len(),
{
    if s.len() > 0 {
        lemma_failures_bound(s.drop_last());
    }
}

proof fn lemma_failures_all(s: Seq<bool>, outcome: bool)
    requires
        forall|i: int| 0 <= i < s.len() ==> s[i] == outcome,
    ensures
        failures_in(s) == if outcome {
            0
        } else {
            s.len()
        },
    decreases s.len(),
{
    if s.len() > 0 {
        lemma_failures_all(s.drop_last(), outcome);
    }
}

/// A breaker that is not open, and whose recent calls all failed and number
/// at least the minimum, reaches the threshold and opens.
pub proof fn lemma_failures_open_circuit(state: CircuitState, recent: Seq<bool>, config: CircuitBreakerConfig)
    requires
        state != CircuitState::Open,
        recent.len() >= config.min_requests.spec_value(),
        forall|i: int| 0 <= i < recent.len() ==> !recent[i],
        config.failure_threshold.spec_value() <= 10000,
    ensures
        reaches_threshold(state, recent, config),
{
    lemma_failures_all(recent, false);
    let t = config.failure_threshold.spec_value();
    assert(recent.len() * 10000 >= t * recent.len()) by (nonlinear_arith)
        requires
            t <= 10000,
    ;
}

/// With a positive threshold, recent calls that all succeeded never reach
/// it.
pub proof fn lemma_successes_keep_circuit(state: CircuitState, recent: Seq<bool>, config: CircuitBreakerConfig)
    requires
        forall|i: int| 0 <= i < recent.len() ==> recent[i],
        config.failure_threshold.spec_value() > 0,
        config.min_requests.spec_value() >= 1,
    ensures
        !reaches_threshold(state, recent, config),
{
    lemma_failures_all(recent, true);
    let t = config.failure_threshold.spec_value();
    if recent.len() >= config.min_requests.spec_value() {
        assert(t * recent.len() > 0) by (nonlinear_arith)
            requires
                t > 0,
                recent.len() >= 1,
        ;
    }
}

/// Recording an outcome keeps it as the most recent, and keeps at most the
/// window's size of outcomes.
pub proof fn lemma_window_keeps_latest(s: Seq<bool>, outcome: bool, window: nat)
    requires
        window >= 1,
        s.len() <= window,
    ensures
        window_after(s, outcome, window).len() <= window,
        window_after(s, outcome, window).last() == outcome,
        window_after(s, outcome, window).len() == if s.len() < window {
            s.len() + 1
        } else {
            window
        },
{
}

/// A circuit breaker. Calls go through [`CircuitBreaker::begin_call`], which
/// says whether the call may be made, and [`CircuitBreaker::finish_call`],
/// which records how it went.
#[derive(Debug)]
pub struct CircuitBreaker {
    name: String,
    config: CircuitBreakerConfig,
    state: CircuitState,
    last_failure_time: Option<Instant>,
    request_count: u64,
    failure_count: usize,
    recent_results: VecDeque<bool>,
}

impl CircuitBreaker {
    /// The configuration.
    pub closed spec fn spec_config(&self) -> CircuitBreakerConfig {
        self.config
    }

    /// The current state.
    pub closed spec fn spec_state(&self) -> CircuitState {
        self.state
    }

    /// The outcomes of the recent calls, oldest first (`false` for a failure).
    pub closed spec fn spec_recent(&self) -> Seq<bool> {
        self.recent_results@
    }

    /// The number of calls recorded, modulo 2^64.
    pub closed spec fn spec_request_count(&self) -> u64 {
        self.request_count
    }

    /// Whether a failure has been recorded.
    pub closed spec fn spec_has_failed(&self) -> bool {
        self.last_failure_time.is_some()
    }

    /// The breaker's name.
    pub closed spec fn spec_name(&self) -> Seq<char> {
        self.name@
    }

    /// The breaker's invariant: no more outcomes are kept than the window
    /// holds, and the failure count is the number of failures among them.
    pub closed spec fn wf(&self) -> bool {
        &&& self.recent_results@.len() <= self.config.window_size.spec_value()
        &&& self.failure_count == failures_in(self.recent_results@)
    }

    /// Creates a closed breaker with no recorded calls.
    pub fn new(name: String, config: CircuitBreakerConfig) -> (cb: Self)
        ensures
            cb.wf(),
            cb.spec_name() == name@,
            cb.spec_config() == config,
            cb.spec_state() == CircuitState::Closed,
            cb.spec_recent() == Seq::<bool>::empty(),
            cb.spec_request_count() == 0,
            !cb.spec_has_failed(),
    {
        CircuitBreaker {
            name,
            config,
            state: CircuitState::Closed,
            last_failure_time: None,
            request_count: 0,
            failure_count: 0,
            recent_results: VecDeque::new(),
        }
    }

    /// Decides whether a call may be made, given the time elapsed since the
    /// last recorded failure (`None` if there was none). A closed circuit
    /// admits; a half-open one rejects, since its test call is under way; an
    /// open one turns half-open and admits once the timeout has passed since
    /// the last failure, and rejects before.
    pub fn can_attempt_request(&mut self, since_last_failure_nanos: Option<u64>) -> (admitted: bool)
        requires
            old(self).wf(),
        ensures
            final(self).wf(),
            final(self).spec_config() == old(self).spec_config(),
            final(self).spec_recent() == old(self).spec_recent(),
            final(self).spec_request_count() == old(self).spec_request_count(),
            final(self).spec_has_failed() == old(self).spec_has_failed(),
            final(self).spec_name() == old(self).spec_name(),
            match old(self).spec_state() {
                CircuitState::Closed => admitted && final(self).spec_state() == CircuitState::Closed,
                CircuitState::HalfOpen => !admitted && final(self).spec_state() == CircuitState::HalfOpen,
                CircuitState::Open => {
                    let timed_out = since_last_failure_nanos matches Some(e) && e
                        >= old(self).spec_config().timeout.spec_value() * 1_000_000;
                    &&& admitted == timed_out
                    &&& final(self).spec_state() == if timed_out {
                        CircuitState::HalfOpen
                    } else {
                        CircuitState::Open
                    }
                },
            },
    {
        match self.state {
            CircuitState::Closed => true,
            CircuitState::HalfOpen => false,
            CircuitState::Open => {
                match since_last_failure_nanos {
                    Some(elapsed) => {
                        let timeout_nanos = self.config.timeout.into_inner() * 1_000_000;
                        if elapsed >= timeout_nanos {
                            self.state = CircuitState::HalfOpen;
                            true
                        } else {
                            false
                        }
                    },
                    None => false,
                }
            },
        }
    }

    /// Decides whether a call may be made now. A disabled breaker always
    /// admits and keeps its state; otherwise the time since the last failure
    /// is read from the clock and [`CircuitBreaker::can_attempt_request`]
    /// decides.
    pub fn begin_call(&mut self) -> (admitted: bool)
        requires
            old(self).wf(),
        ensures
            final(self).wf(),
            final(self).spec_config() == old(self).spec_config(),
            final(self).spec_recent() == old(self).spec_recent(),
            final(self).spec_request_count() == old(self).spec_request_count(),
            final(self).spec_has_failed() == old(self).spec_has_failed(),
            final(self).spec_name() == old(self).spec_name(),
            !old(self).spec_config().enabled ==> admitted && final(self).spec_state() == old(
                self,
            ).spec_state(),
            old(self).spec_config().enabled ==> match old(self).spec_state() {
                CircuitState::Closed => admitted && final(self).spec_state() == CircuitState::Closed,
                CircuitState::HalfOpen => !admitted && final(self).spec_state() == CircuitState::HalfOpen,
                CircuitState::Open => admitted == (final(self).spec_state() == CircuitState::HalfOpen)
                    && (admitted ==> old(self).spec_has_failed()) && (final(self).spec_state()
                    == CircuitState::HalfOpen || final(self).spec_state() == CircuitState::Open),
            },
    {
        if !self.config.enabled {
            return true;
        }
        let since = match &self.last_failure_time {
            Some(at) => Some(elapsed_nanos(at)),
            None => None,
        };
        self.can_attempt_request(since)
    }

    fn add_result(&mut self, success: bool)
        requires
            old(self).wf(),
        ensures
            final(self).recent_results@ == window_after(
                old(self).recent_results@,
                success,
                old(self).config.window_size.spec_value() as nat,
            ),
            final(self).failure_count == failures_in(final(self).recent_results@),
            final(self).recent_results@.len() <= final(self).config.window_size.spec_value(),
            final(self).config == old(self).config,
            final(self).state == old(self).state,
            final(self).request_count == old(self).request_count,
            final(self).last_failure_time == old(self).last_failure_time,
            final(self).name == old(self).name,
    {
        let ghost before = self.recent_results@;
        let window = self.config.window_size.into_inner();
        let mut count = self.failure_count;
        proof {
            lemma_failures_bound(before);
        }
        self.recent_results.push_back(success);
        if !success {
            count = count + 1;
        }
        proof {
            assert(self.recent_results@.drop_last() =~= before);
        }
        if self.recent_results.len() > window {
            let old_result = self.recent_results.pop_front();
            proof {
                lemma_failures_drop_first(before.push(success));
                assert(self.recent_results@ =~= before.push(success).drop_first());
                assert(before.push(success).subrange(1, (before.len() + 1) as int) =~= self.recent_results@);
            }
            match old_result {
                Some(false) => {
                    count = count - 1;
                },
                _ => {},
            }
        }
        self.failure_count = count;
    }

    /// Records a call that succeeded, or failed with an error that does not
    /// count against the service. A half-open circuit closes.
    pub fn record_success(&mut self)
        requires
            old(self).wf(),
        ensures
            final(self).wf(),
            final(self).spec_recent() == window_after(
                old(self).spec_recent(),
                true,
                old(self).spec_config().window_size.spec_value() as nat,
            ),
            final(self).spec_request_count() == (old(self).spec_request_count() + 1)
                % 0x1_0000_0000_0000_0000,
            final(self).spec_state() == if old(self).spec_state() == CircuitState::HalfOpen {
                CircuitState::Closed
            } else {
                old(self).spec_state()
            },
            final(self).spec_config() == old(self).spec_config(),
            final(self).spec_has_failed() == old(self).spec_has_failed(),
            final(self).spec_name() == old(self).spec_name(),
    {
        self.request_count = self.request_count.wrapping_add(1);
        self.add_result(true);
        if self.state == CircuitState::HalfOpen {
            self.state = CircuitState::Closed;
        }
    }

    fn should_open_circuit(&self) -> (b: bool)
        requires
            self.wf(),
        ensures
            b == reaches_threshold(self.spec_state(), self.spec_recent(), self.spec_config()),
    {
        let window = self.config.window_size.into_inner();
        proof {
            lemma_failures_bound(self.recent_results@);
        }
        if self.state == CircuitState::Open {
            return false;
        }
        let len = self.recent_results.len();
        if len < self.config.min_requests.into_inner() {
            return false;
        }
        let threshold = self.config.failure_threshold.into_inner() as u64;
        proof {
            assert(threshold * len <= 10000 * 10000) by (nonlinear_arith)
                requires
                    threshold <= 10000,
                    len <= 10000,
            ;
        }
        (self.failure_count as u64) * 10000 >= threshold * (len as u64)
    }

    /// Records a call that failed with an error that counts against the
    /// service, made at `at`. The circuit opens when the failures among the
    /// recent calls reach the threshold.
    pub fn record_failure_at(&mut self, at: Instant)
        requires
            old(self).wf(),
        ensures
            final(self).wf(),
            final(self).spec_recent() == window_after(
                old(self).spec_recent(),
                false,
                old(self).spec_config().window_size.spec_value() as nat,
            ),
            final(self).spec_request_count() == (old(self).spec_request_count() + 1)
                % 0x1_0000_0000_0000_0000,
            final(self).spec_state() == if reaches_threshold(
                old(self).spec_state(),
                final(self).spec_recent(),
                old(self).spec_config(),
            ) {
                CircuitState::Open
            } else {
                old(self).spec_state()
            },
            final(self).spec_has_failed(),
            final(self).spec_config() == old(self).spec_config(),
            final(self).spec_name() == old(self).spec_name(),
    {
        self.request_count = self.request_count.wrapping_add(1);
        self.last_failure_time = Some(at);
        self.add_result(false);
        if self.should_open_circuit() {
            self.state = CircuitState::Open;
        }
    }

    /// Records how an admitted call went: `triggers_breaker` is true when it
    /// failed with an error that counts against the service. A disabled
    /// breaker records nothing; a failure is stamped with the current time.
    pub fn finish_call(&mut self, triggers_breaker: bool)
        requires
            old(self).wf(),
        ensures
            final(self).wf(),
            final(self).spec_config() == old(self).spec_config(),
            final(self).spec_name() == old(self).spec_name(),
            !old(self).spec_config().enabled ==> final(self).spec_state() == old(self).spec_state()
                && final(self).spec_recent() == old(self).spec_recent()
                && final(self).spec_request_count() == old(self).spec_request_count(),
            old(self).spec_config().enabled ==> final(self).spec_recent() == window_after(
                old(self).spec_recent(),
                !triggers_breaker,
                old(self).spec_config().window_size.spec_value() as nat,
            ) && final(self).spec_request_count() == (old(self).spec_request_count() + 1)
                % 0x1_0000_0000_0000_0000,
            old(self).spec_config().enabled && !triggers_breaker ==> final(self).spec_state() == (
            if old(self).spec_state() == CircuitState::HalfOpen {
                CircuitState::Closed
            } else {
                old(self).spec_state()
            }),
            old(self).spec_config().enabled && triggers_breaker ==> final(self).spec_has_failed()
                && final(self).spec_state() == (if reaches_threshold(
                old(self).spec_state(),
                final(self).spec_recent(),
                old(self).spec_config(),
            ) {
                CircuitState::Open
            } else {
                old(self).spec_state()
            }),
    {
        if !self.config.enabled {
            return;
        }
        if triggers_breaker {
            let at = now();
            self.record_failure_at(at);
        } else {
            self.record_success();
        }
    }

    /// The current state.
    pub fn state(&self) -> (s: CircuitState)
        ensures
            s == self.spec_state(),
    {
        self.state
    }

    /// The number of failures among the recent calls.
    pub fn failure_count(&self) -> (n: usize)
        requires
            self.wf(),
        ensures
            n == failures_in(self.spec_recent()),
    {
        self.failure_count
    }

    /// The number of recent calls whose outcomes are kept.
    pub fn recent_count(&self) -> (n: usize)
        ensures
            n == self.spec_recent().len(),
    {
        self.recent_results.len()
    }

    /// The number of recorded calls, modulo 2^64.
    pub fn request_count(&self) -> (n: u64)
        ensures
            n == self.spec_request_count(),
    {
        self.request_count
    }

    /// The breaker's name.
    pub fn name(&self) -> (s: &str)
        ensures
            s@ == self.spec_name(),
    {
        self.name.as_str()
    }

    /// A snapshot of the breaker for monitoring: its name, state, counts,
    /// failure rate and configuration.
    pub fn stats(&self) -> (st: CircuitBreakerStats)
        requires
            self.wf(),
        ensures
            st.name@ == self.spec_name(),
            st.state == self.spec_state(),
            st.request_count == self.spec_request_count(),
            st.failure_count == failures_in(self.spec_recent()),
            self.spec_recent().len() == 0 ==> st.failure_rate_basis_points == 0,
            self.spec_recent().len() > 0 ==> st.failure_rate_basis_points == failures_in(
                self.spec_recent(),
            ) * 10000 / self.spec_recent().len(),
            st.config == self.spec_config(),
    {
        CircuitBreakerStats {
            name: self.name.clone(),
            state: self.state,
            request_count: self.request_count,
            failure_count: self.failure_count,
            failure_rate_basis_points: self.failure_rate_basis_points(),
            config: self.config,
        }
    }

    /// The failure rate among the recent calls in hundredths of a percent,
    /// rounded down; 0 when no call was recorded.
    pub fn failure_rate_basis_points(&self) -> (r: u64)
        requires
            self.wf(),
        ensures
            self.spec_recent().len() == 0 ==> r == 0,
            self.spec_recent().len() > 0 ==> r == failures_in(self.spec_recent()) * 10000
                / self.spec_recent().len(),
    {
        let window = self.config.window_size.into_inner();
        proof {
            lemma_failures_bound(self.recent_results@);
        }
        let len = self.recent_results.len();
        if len == 0 {
            0
        } else {
            (self.failure_count as u64) * 10000 / (len as u64)
        }
    }
}

/// A snapshot of a circuit breaker for monitoring.
#[derive(Debug, Clone)]
pub struct CircuitBreakerStats {
    /// The breaker's name.
    pub name: String,
    /// Its state.
    pub state: CircuitState,
    /// The number of recorded calls, modulo 2^64.
    pub request_count: u64,
    /// The number of failures among the recent calls.
    pub failure_count: usize,
    /// The failure rate among the recent calls, in hundredths of a percent.
    pub failure_rate_basis_points: u64,
    /// Its configuration.
    pub config: CircuitBreakerConfig,
}

/// Decides, for an error type, whether its errors count against the service
/// that produced them.
pub trait IsCircuitBreakerError {
    /// Whether this error should count as a failure of the service.
    fn should_trigger_circuit_breaker(&self) -> bool;
}

/// Whether an event store error says that the store itself is failing
/// (unreachable, slow, unavailable or broken), as opposed to a refusal of
/// the request.
pub open spec fn store_error_trips_breaker(e: EventStoreError) -> bool {
    match e {
        EventStoreError::ConnectionFailed(_)
        | EventStoreError::Timeout(_)
        | EventStoreError::Unavailable(_)
        | EventStoreError::TransactionRollback(_)
        | EventStoreError::Io(_)
        | EventStoreError::Internal(_)
        | EventStoreError::StoreFailure { .. } => true,
        EventStoreError::SerializationFailed(_)
        | EventStoreError::DeserializationFailed(_)
        | EventStoreError::VersionConflict
        | EventStoreError::UndeclaredStream { .. }
        | EventStoreError::ConflictingExpectedVersions { .. }
        | EventStoreError::StreamNotFound(_)
        | EventStoreError::DuplicateEventId(_)
        | EventStoreError::Configuration(_)
        | EventStoreError::SchemaEvolutionError(_) => false,
    }
}

/// Whether a command error counts against the service: a store error that
/// does, a timeout, or an internal failure.
pub open spec fn command_error_trips_breaker(e: CommandError) -> bool {
    match e {
        CommandError::EventStore(inner) => store_error_trips_breaker(inner),
        CommandError::Timeout(_) | CommandError::Internal(_) => true,
        _ => false,
    }
}

impl IsCircuitBreakerError for EventStoreError {
    fn should_trigger_circuit_breaker(&self) -> (b: bool)
        ensures
            b == store_error_trips_breaker(*self),
    {
        match self {
            EventStoreError::ConnectionFailed(_)
            | EventStoreError::Timeout(_)
            | EventStoreError::Unavailable(_)
            | EventStoreError::TransactionRollback(_)
            | EventStoreError::Io(_)
            | EventStoreError::Internal(_)
            | EventStoreError::StoreFailure { .. } => true,
            EventStoreError::SerializationFailed(_)
            | EventStoreError::DeserializationFailed(_)
            | EventStoreError::VersionConflict
            | EventStoreError::UndeclaredStream { .. }
            | EventStoreError::ConflictingExpectedVersions { .. }
            | EventStoreError::StreamNotFound(_)
            | EventStoreError::DuplicateEventId(_)
            | EventStoreError::Configuration(_)
            | EventStoreError::SchemaEvolutionError(_) => false,
        }
    }
}

impl IsCircuitBreakerError for CommandError {
    fn should_trigger_circuit_breaker(&self) -> (b: bool)
        ensures
            b == command_error_trips_breaker(*self),
    {
        match self {
            CommandError::EventStore(inner) => inner.should_trigger_circuit_breaker(),
            CommandError::Timeout(_) | CommandError::Internal(_) => true,
            CommandError::ValidationFailed(_)
            | CommandError::BusinessRuleViolation(_)
            | CommandError::DomainError { .. }
            | CommandError::ConcurrencyConflict { .. }
            | CommandError::StreamNotFound(_)
            | CommandError::Unauthorized(_)
            | CommandError::InvalidStreamAccess { .. }
            | CommandError::StreamNotDeclared { .. }
            | CommandError::TypeMismatch { .. } => false,
        }
    }
}

} // verus!
