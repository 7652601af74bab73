//! Health checks for the components of an event-sourced system.

use std::time::Instant;
use vstd::prelude::*;

use crate::clock::{elapsed_nanos, now};
use crate::metadata::Metadata;
use crate::pipeline::ProjectionError;
use crate::text::{decimal, decimal_string};
use crate::types::{EventId, StreamId};

verus! {

/// Health status of a component.
#[derive(Debug, Clone, Copy, PartialEq, Eq, Structural)]
pub enum HealthStatus {
    /// Functioning normally.
    Healthy,
    /// Operational, but impaired.
    Degraded,
    /// Not functioning properly.
    Unhealthy,
}

/// The outcome of a health check.
#[derive(Debug)]
pub struct HealthCheckResult {
    /// The health status.
    pub status: HealthStatus,
    /// Human-readable description.
    pub message: String,
    /// When the check was performed.
    pub checked_at: Instant,
    /// How long the check took, in nanoseconds.
    pub duration: u64,
    /// Additional details.
    pub metadata: Metadata,
}

impl HealthCheckResult {
    fn with_status(status: HealthStatus, message: String, duration: u64) -> (r: Self)
        ensures
            r.status == status,
            r.message@ == message@,
            r.duration == duration,
            r.metadata@ == Map::<Seq<char>, Seq<char>>::empty(),
    {
        HealthCheckResult { status, message, checked_at: now(), duration, metadata: Metadata::new() }
    }

    /// A healthy result, stamped with the current time.
    pub fn healthy(message: String, duration: u64) -> (r: Self)
        ensures
            r.status == HealthStatus::Healthy,
            r.message@ == message@,
            r.duration == duration,
            r.metadata@ == Map::<Seq<char>, Seq<char>>::empty(),
    {
        HealthCheckResult::with_status(HealthStatus::Healthy, message, duration)
    }

    /// A degraded result, stamped with the current time.
    pub fn degraded(message: String, duration: u64) -> (r: Self)
        ensures
            r.status == HealthStatus::Degraded,
            r.message@ == message@,
            r.duration == duration,
            r.metadata@ == Map::<Seq<char>, Seq<char>>::empty(),
    {
        HealthCheckResult::with_status(HealthStatus::Degraded, message, duration)
    }

    /// An unhealthy result, stamped with the current time.
    pub fn unhealthy(message: String, duration: u64) -> (r: Self)
        ensures
            r.status == HealthStatus::Unhealthy,
            r.message@ == message@,
            r.duration == duration,
            r.metadata@ == Map::<Seq<char>, Seq<char>>::empty(),
    {
        HealthCheckResult::with_status(HealthStatus::Unhealthy, message, duration)
    }

    /// Sets a metadata entry, replacing an earlier value of `key`.
    pub fn with_metadata(self, key: String, value: String) -> (r: Self)
        ensures
            r.status == self.status,
            r.message == self.message,
            r.duration == self.duration,
            r.checked_at == self.checked_at,
            r.metadata@ == self.metadata@.insert(key@, value@),
    {
        let mut r = self;
        r.metadata.insert(key, value);
        r
    }

    /// Whether the status is healthy.
    pub fn is_healthy(&self) -> (b: bool)
        ensures
            b == (self.status == HealthStatus::Healthy),
    {
        self.status == HealthStatus::Healthy
    }

    /// Whether the status is degraded.
    pub fn is_degraded(&self) -> (b: bool)
        ensures
            b == (self.status == HealthStatus::Degraded),
    {
        self.status == HealthStatus::Degraded
    }

    /// Whether the status is unhealthy.
    pub fn is_unhealthy(&self) -> (b: bool)
        ensures
            b == (self.status == HealthStatus::Unhealthy),
    {
        self.status == HealthStatus::Unhealthy
    }
}

/// The default time a health check may take: five seconds, in nanoseconds.
pub const DEFAULT_CHECK_TIMEOUT: u64 = 5_000_000_000;

/// A health check of one component.
pub trait HealthCheck {
    /// The name of the check.
    fn name(&self) -> String;

    /// Performs the check.
    fn check(&self) -> HealthCheckResult;

    /// How long the check may take, in nanoseconds: by default
    /// [`DEFAULT_CHECK_TIMEOUT`].
    fn timeout(&self) -> (t: u64)
        default_ensures
            t == DEFAULT_CHECK_TIMEOUT,
    {
        DEFAULT_CHECK_TIMEOUT
    }
}

/// Asks an event store whether a stream exists; the answer is I/O, which
/// the implementor performs.
pub trait StoreConnectivity {
    /// Probes the store for `stream_id`.
    fn probe_stream(&self, stream_id: &StreamId) -> StoreProbe;
}

/// What probing an event store for a stream gave.
#[derive(Debug, Clone, PartialEq, Eq)]
pub enum StoreProbe {
    /// The store answered.
    Reachable,
    /// The connection to the store failed.
    ConnectionFailed,
    /// The store did not answer in time.
    TimedOut,
    /// The store answered with another error, described by the message.
    Failed(String),
}

/// The result of a store check whose probe gave `probe` after `duration`
/// nanoseconds, probing `stream`: healthy with the stream and the response
/// time when the store answered, unhealthy when the connection failed,
/// degraded on a timeout or another error.
pub open spec fn probe_result(stream: Seq<char>, probe: StoreProbe, duration: u64, r: HealthCheckResult) -> bool {
    &&& r.duration == duration
    &&& match probe {
        StoreProbe::Reachable => r.status == HealthStatus::Healthy && r.message@
            == "Event store is accessible"@ && r.metadata@ == Map::<Seq<char>, Seq<char>>::empty().insert(
            "stream_id"@,
            stream,
        ).insert("response_time_ms"@, decimal((duration / 1_000_000) as nat)),
        StoreProbe::ConnectionFailed => r.status == HealthStatus::Unhealthy && r.message@
            == "Event store connection failed"@ && r.metadata@ == Map::<Seq<char>, Seq<char>>::empty().insert(
            "error_type"@,
            "connection"@,
        ),
        StoreProbe::TimedOut => r.status == HealthStatus::Degraded && r.message@
            == "Event store response timeout"@ && r.metadata@ == Map::<Seq<char>, Seq<char>>::empty().insert(
            "error_type"@,
            "timeout"@,
        ),
        StoreProbe::Failed(e) => r.status == HealthStatus::Degraded && r.message@
            == "Event store error: "@ + e@ && r.metadata@ == Map::<Seq<char>, Seq<char>>::empty().insert(
            "error_type"@,
            "other"@,
        ),
    }
}

/// Health check for event store connectivity. The probe itself is I/O; this
/// type turns its outcome into a result.
pub struct EventStoreHealthCheck<S> {
    event_store: S,
    test_stream_id: StreamId,
}

impl<S> EventStoreHealthCheck<S> {
    /// The stream used for probing.
    pub closed spec fn spec_stream(&self) -> Seq<char> {
        self.test_stream_id@
    }

    /// Creates a check that probes `event_store` for `test_stream_id`.
    pub fn new(event_store: S, test_stream_id: StreamId) -> (c: Self)
        ensures
            c.spec_stream() == test_stream_id@,
    {
        EventStoreHealthCheck { event_store, test_stream_id }
    }

    /// The store to probe.
    pub fn event_store(&self) -> &S {
        &self.event_store
    }

    /// The stream to probe.
    pub fn test_stream_id(&self) -> (s: &StreamId)
        ensures
            s@ == self.spec_stream(),
    {
        &self.test_stream_id
    }

    /// The check's name.
    pub fn name(&self) -> (s: String)
        ensures
            s@ == "event_store_connectivity"@,
    {
        "event_store_connectivity".to_owned()
    }

    /// How long the probe may take: ten seconds, in nanoseconds.
    pub fn timeout(&self) -> (t: u64)
        ensures
            t == 10_000_000_000,
    {
        10_000_000_000
    }

    /// The result for a probe that gave `probe` and took `duration`
    /// nanoseconds: healthy when the store answered, unhealthy when the
    /// connection failed, degraded on a timeout or another error.
    pub fn evaluate(&self, probe: StoreProbe, duration: u64) -> (r: HealthCheckResult)
        ensures
            probe_result(self.spec_stream(), probe, duration, r),
    {
        match probe {
            StoreProbe::Reachable => HealthCheckResult::healthy(
                "Event store is accessible".to_owned(),
                duration,
            ).with_metadata("stream_id".to_owned(), self.test_stream_id.as_str().to_owned()).with_metadata(
                "response_time_ms".to_owned(),
                decimal_string(duration / 1_000_000),
            ),
            StoreProbe::ConnectionFailed => HealthCheckResult::unhealthy(
                "Event store connection failed".to_owned(),
                duration,
            ).with_metadata("error_type".to_owned(), "connection".to_owned()),
            StoreProbe::TimedOut => HealthCheckResult::degraded(
                "Event store response timeout".to_owned(),
                duration,
            ).with_metadata("error_type".to_owned(), "timeout".to_owned()),
            StoreProbe::Failed(e) => HealthCheckResult::degraded(
                "Event store error: ".to_owned().concat(e.as_str()),
                duration,
            ).with_metadata("error_type".to_owned(), "other".to_owned()),
        }
    }
}

impl<S: StoreConnectivity> HealthCheck for EventStoreHealthCheck<S> {
    fn name(&self) -> (s: String)
        ensures
            s@ == "event_store_connectivity"@,
    {
        EventStoreHealthCheck::<S>::name(self)
    }

    /// Probes the store on the clock and evaluates the outcome: the result
    /// is that of some probe outcome and some duration, which the store and
    /// the clock decide.
    fn check(&self) -> (r: HealthCheckResult)
        ensures
            exists|probe: StoreProbe, duration: u64| probe_result(self.spec_stream(), probe, duration, r),
    {
        let start = now();
        let probe = self.event_store.probe_stream(&self.test_stream_id);
        let duration = elapsed_nanos(&start);
        self.evaluate(probe, duration)
    }

    fn timeout(&self) -> (t: u64)
        ensures
            t == 10_000_000_000,
    {
        EventStoreHealthCheck::<S>::timeout(self)
    }
}

/// The status of a projection that lags `lag` nanoseconds behind (`None`
/// when it never processed an event) and has seen `error_count` errors:
/// unhealthy without events; past the lag threshold, unhealthy with errors
/// and degraded without; within it, degraded beyond ten errors and healthy
/// otherwise.
pub open spec fn projection_status_for(lag: Option<u64>, error_count: u64, max_lag: u64) -> HealthStatus {
    match lag {
        None => HealthStatus::Unhealthy,
        Some(l) => if l > max_lag {
            if error_count > 0 {
                HealthStatus::Unhealthy
            } else {
                HealthStatus::Degraded
            }
        } else if error_count > 10 {
            HealthStatus::Degraded
        } else {
            HealthStatus::Healthy
        },
    }
}

/// The rank of a status: healthy below degraded below unhealthy.
pub open spec fn severity(s: HealthStatus) -> int {
    match s {
        HealthStatus::Healthy => 0,
        HealthStatus::Degraded => 1,
        HealthStatus::Unhealthy => 2,
    }
}

/// Within its lag threshold a projection tolerates up to ten errors: it is
/// healthy with at most ten and degraded with more, never unhealthy.
pub proof fn lemma_projection_error_tolerance(l: u64, e: u64, max_lag: u64)
    requires
        l <= max_lag,
    ensures
        projection_status_for(Some(l), e, max_lag) == HealthStatus::Healthy <==> e <= 10,
        projection_status_for(Some(l), e, max_lag) == HealthStatus::Degraded <==> e > 10,
{
}

/// A projection that never processed an event is unhealthy, whatever its
/// errors; past its lag threshold it is never healthy: unhealthy with
/// errors, degraded without.
pub proof fn lemma_projection_lagging_status(l: u64, e: u64, max_lag: u64)
    ensures
        projection_status_for(None, e, max_lag) == HealthStatus::Unhealthy,
        l > max_lag ==> projection_status_for(Some(l), e, max_lag) != HealthStatus::Healthy,
        l > max_lag ==> (projection_status_for(Some(l), e, max_lag) == HealthStatus::Unhealthy <==> e > 0),
{
}

/// More errors or more lag never make a projection's status better.
pub proof fn lemma_projection_status_monotone(l: u64, l2: u64, e: u64, e2: u64, max_lag: u64)
    requires
        l <= l2,
        e <= e2,
    ensures
        severity(projection_status_for(Some(l), e, max_lag)) <= severity(projection_status_for(Some(l), e2, max_lag)),
        severity(projection_status_for(Some(l), e, max_lag)) <= severity(projection_status_for(Some(l2), e, max_lag)),
{
}

/// Whether `r` is the result for a projection lagging `lag` nanoseconds
/// behind (`None` before its first event) with `error_count` errors and
/// the lag threshold `max_lag`, for a check that took `duration`
/// nanoseconds: its status, message, duration, and metadata holding the lag
/// in whole milliseconds, if any, and the error count.
pub open spec fn projection_result(
    lag: Option<u64>,
    error_count: u64,
    max_lag: u64,
    duration: u64,
    r: HealthCheckResult,
) -> bool {
    &&& r.status == projection_status_for(lag, error_count, max_lag)
    &&& r.message@ == projection_message(r.status, lag, error_count)
    &&& r.duration == duration
    &&& r.metadata@ == match lag {
        Some(l) => Map::<Seq<char>, Seq<char>>::empty().insert("lag_ms"@, decimal((l / 1_000_000) as nat)),
        None => Map::<Seq<char>, Seq<char>>::empty(),
    }.insert("error_count"@, decimal(error_count as nat))
}

/// The message of a projection check.
pub open spec fn projection_message(status: HealthStatus, lag: Option<u64>, error_count: u64) -> Seq<char> {
    match lag {
        None => "Projection has not processed any events"@,
        Some(l) => {
            let ms = decimal((l / 1_000_000) as nat);
            match status {
                HealthStatus::Healthy => "Projection is healthy, lag: "@ + ms + "ms"@,
                HealthStatus::Degraded => "Projection is degraded, lag: "@ + ms + "ms, errors: "@
                    + decimal(error_count as nat),
                HealthStatus::Unhealthy => "Projection is unhealthy, lag: "@ + ms + "ms, errors: "@
                    + decimal(error_count as nat),
            }
        },
    }
}

/// Computes [`projection_status_for`].
pub fn projection_status(lag: Option<u64>, error_count: u64, max_lag: u64) -> (s: HealthStatus)
    ensures
        s == projection_status_for(lag, error_count, max_lag),
{
    match lag {
        None => HealthStatus::Unhealthy,
        Some(l) => {
            if l > max_lag {
                if error_count > 0 {
                    HealthStatus::Unhealthy
                } else {
                    HealthStatus::Degraded
                }
            } else if error_count > 10 {
                HealthStatus::Degraded
            } else {
                HealthStatus::Healthy
            }
        },
    }
}

/// Health check of a projection's progress.
pub struct ProjectionHealthCheck {
    projection_name: String,
    max_lag_threshold: u64,
    last_processed_event: Option<EventId>,
    last_processing_time: Option<Instant>,
    error_count: u64,
}

impl ProjectionHealthCheck {
    /// The projection's name.
    pub closed spec fn spec_name(&self) -> Seq<char> {
        self.projection_name@
    }

    /// The lag, in nanoseconds, beyond which the projection is behind.
    pub closed spec fn spec_max_lag(&self) -> u64 {
        self.max_lag_threshold
    }

    /// The last event processed, if any.
    pub closed spec fn spec_last_event(&self) -> Option<EventId> {
        self.last_processed_event
    }

    /// Whether an event has been processed.
    pub closed spec fn spec_has_processed(&self) -> bool {
        self.last_processing_time.is_some()
    }

    /// The number of errors recorded, saturated at `u64::MAX`.
    pub closed spec fn spec_error_count(&self) -> u64 {
        self.error_count
    }

    /// Creates a check for `projection_name` with the given lag threshold in
    /// nanoseconds; nothing has been processed yet.
    pub fn new(projection_name: String, max_lag_threshold: u64) -> (c: Self)
        ensures
            c.spec_name() == projection_name@,
            c.spec_max_lag() == max_lag_threshold,
            c.spec_last_event().is_none(),
            !c.spec_has_processed(),
            c.spec_error_count() == 0,
    {
        ProjectionHealthCheck {
            projection_name,
            max_lag_threshold,
            last_processed_event: None,
            last_processing_time: None,
            error_count: 0,
        }
    }

    /// Records that `event_id` was processed now.
    pub fn record_event_processed(&mut self, event_id: EventId)
        ensures
            final(self).spec_last_event() == Some(event_id),
            final(self).spec_has_processed(),
            final(self).spec_error_count() == old(self).spec_error_count(),
            final(self).spec_name() == old(self).spec_name(),
            final(self).spec_max_lag() == old(self).spec_max_lag(),
    {
        self.last_processed_event = Some(event_id);
        self.last_processing_time = Some(now());
    }

    /// Records a processing error.
    pub fn record_error(&mut self, _error: &ProjectionError)
        ensures
            final(self).spec_error_count() == if old(self).spec_error_count() < u64::MAX {
                (old(self).spec_error_count() + 1) as u64
            } else {
                u64::MAX
            },
            final(self).spec_last_event() == old(self).spec_last_event(),
            final(self).spec_has_processed() == old(self).spec_has_processed(),
            final(self).spec_name() == old(self).spec_name(),
            final(self).spec_max_lag() == old(self).spec_max_lag(),
    {
        self.error_count = self.error_count.saturating_add(1);
    }

    /// The time since the last processed event, in nanoseconds; `None` if
    /// none was processed.
    pub fn get_lag(&self) -> (lag: Option<u64>)
        ensures
            lag.is_some() == self.spec_has_processed(),
    {
        match &self.last_processing_time {
            Some(t) => Some(elapsed_nanos(t)),
            None => None,
        }
    }

    /// The number of recorded errors.
    pub fn get_error_count(&self) -> (n: u64)
        ensures
            n == self.spec_error_count(),
    {
        self.error_count
    }

    /// The check's name: the projection's name.
    pub fn name(&self) -> (s: String)
        ensures
            s@ == self.spec_name(),
    {
        self.projection_name.clone()
    }

    /// The result for a projection lagging `lag` nanoseconds behind, with the
    /// recorded error count, for a check that took `duration` nanoseconds.
    pub fn evaluate(&self, lag: Option<u64>, duration: u64) -> (r: HealthCheckResult)
        ensures
            projection_result(lag, self.spec_error_count(), self.spec_max_lag(), duration, r),
    {
        let errors = self.error_count;
        let status = projection_status(lag, errors, self.max_lag_threshold);
        let message = match lag {
            None => "Projection has not processed any events".to_owned(),
            Some(l) => {
                let ms = decimal_string(l / 1_000_000);
                match status {
                    HealthStatus::Healthy => "Projection is healthy, lag: ".to_owned().concat(
                        ms.as_str(),
                    ).concat("ms"),
                    HealthStatus::Degraded => "Projection is degraded, lag: ".to_owned().concat(
                        ms.as_str(),
                    ).concat("ms, errors: ").concat(decimal_string(errors).as_str()),
                    HealthStatus::Unhealthy => "Projection is unhealthy, lag: ".to_owned().concat(
                        ms.as_str(),
                    ).concat("ms, errors: ").concat(decimal_string(errors).as_str()),
                }
            },
        };
        let mut result = HealthCheckResult::with_status(status, message, duration);
        match lag {
            Some(l) => {
                result = result.with_metadata("lag_ms".to_owned(), decimal_string(l / 1_000_000));
            },
            None => {},
        }
        result.with_metadata("error_count".to_owned(), decimal_string(errors))
    }

    /// Performs the check: measures the lag on the clock and evaluates it.
    pub fn check(&self) -> (r: HealthCheckResult)
        ensures
            exists|lag: Option<u64>, duration: u64|
                lag.is_some() == self.spec_has_processed() && projection_result(
                    lag,
                    self.spec_error_count(),
                    self.spec_max_lag(),
                    duration,
                    r,
                ),
    {
        let start = now();
        let lag = self.get_lag();
        let duration = elapsed_nanos(&start);
        let r = self.evaluate(lag, duration);
        assert(lag.is_some() == self.spec_has_processed() && projection_result(
            lag,
            self.spec_error_count(),
            self.spec_max_lag(),
            duration,
            r,
        ));
        r
    }
}

impl HealthCheck for ProjectionHealthCheck {
    fn name(&self) -> (s: String)
        ensures
            s@ == self.spec_name(),
    {
        ProjectionHealthCheck::name(self)
    }

    fn check(&self) -> (r: HealthCheckResult)
        ensures
            exists|lag: Option<u64>, duration: u64|
                lag.is_some() == self.spec_has_processed() && projection_result(
                    lag,
                    self.spec_error_count(),
                    self.spec_max_lag(),
                    duration,
                    r,
                ),
    {
        ProjectionHealthCheck::check(self)
    }
}

/// The memory usage the check reports, in megabytes. Measuring it is not
/// implemented; a fixed value stands for it.
pub const REPORTED_MEMORY_USAGE_MB: u64 = 100;

/// Health check of memory usage against two thresholds.
pub struct MemoryUsageHealthCheck {
    pub name: String,
    pub warning_threshold_mb: u64,
    pub critical_threshold_mb: u64,
}

/// The status for `usage` megabytes: unhealthy from the critical threshold
/// on, degraded from the warning threshold on, healthy below.
pub open spec fn memory_status_for(usage: u64, warning: u64, critical: u64) -> HealthStatus {
    if usage >= critical {
        HealthStatus::Unhealthy
    } else if usage >= warning {
        HealthStatus::Degraded
    } else {
        HealthStatus::Healthy
    }
}

impl MemoryUsageHealthCheck {
    /// The check's name.
    pub closed spec fn spec_name(&self) -> Seq<char> {
        self.name@
    }

    /// Creates a check with the given thresholds in megabytes.
    pub fn new(name: String, warning_threshold_mb: u64, critical_threshold_mb: u64) -> (c: Self)
        ensures
            c.spec_name() == name@,
            c.warning_threshold_mb == warning_threshold_mb,
            c.critical_threshold_mb == critical_threshold_mb,
    {
        MemoryUsageHealthCheck { name, warning_threshold_mb, critical_threshold_mb }
    }

    /// The check's name.
    pub fn name(&self) -> (s: String)
        ensures
            s@ == self.spec_name(),
    {
        self.name.clone()
    }

    /// The current memory usage in megabytes.
    pub fn get_memory_usage_mb(&self) -> (u: u64)
        ensures
            u == REPORTED_MEMORY_USAGE_MB,
    {
        REPORTED_MEMORY_USAGE_MB
    }

    /// The result for a usage of `usage_mb` megabytes, for a check that took
    /// `duration` nanoseconds.
    pub fn evaluate(&self, usage_mb: u64, duration: u64) -> (r: HealthCheckResult)
        ensures
            r.status == memory_status_for(usage_mb, self.warning_threshold_mb, self.critical_threshold_mb),
            r.message@ == match r.status {
                HealthStatus::Unhealthy => "Memory usage critical: "@,
                HealthStatus::Degraded => "Memory usage high: "@,
                HealthStatus::Healthy => "Memory usage normal: "@,
            } + decimal(usage_mb as nat) + "MB"@,
            r.duration == duration,
            r.metadata@ == Map::<Seq<char>, Seq<char>>::empty().insert(
                "memory_usage_mb"@,
                decimal(usage_mb as nat),
            ).insert("warning_threshold_mb"@, decimal(self.warning_threshold_mb as nat)).insert(
                "critical_threshold_mb"@,
                decimal(self.critical_threshold_mb as nat),
            ),
    {
        let usage = decimal_string(usage_mb);
        let (status, prefix) = if usage_mb >= self.critical_threshold_mb {
            (HealthStatus::Unhealthy, "Memory usage critical: ")
        } else if usage_mb >= self.warning_threshold_mb {
            (HealthStatus::Degraded, "Memory usage high: ")
        } else {
            (HealthStatus::Healthy, "Memory usage normal: ")
        };
        let message = prefix.to_owned().concat(usage.as_str()).concat("MB");
        HealthCheckResult::with_status(status, message, duration).with_metadata(
            "memory_usage_mb".to_owned(),
            usage,
        ).with_metadata(
            "warning_threshold_mb".to_owned(),
            decimal_string(self.warning_threshold_mb),
        ).with_metadata("critical_threshold_mb".to_owned(), decimal_string(self.critical_threshold_mb))
    }

    /// Performs the check on the reported memory usage.
    pub fn check(&self) -> (r: HealthCheckResult)
        ensures
            r.status == memory_status_for(
                REPORTED_MEMORY_USAGE_MB,
                self.warning_threshold_mb,
                self.critical_threshold_mb,
            ),
    {
        let start = now();
        let usage = self.get_memory_usage_mb();
        let duration = elapsed_nanos(&start);
        self.evaluate(usage, duration)
    }
}

impl HealthCheck for MemoryUsageHealthCheck {
    fn name(&self) -> (s: String)
        ensures
            s@ == self.spec_name(),
    {
        MemoryUsageHealthCheck::name(self)
    }

    fn check(&self) -> (r: HealthCheckResult)
        ensures
            r.status == memory_status_for(
                REPORTED_MEMORY_USAGE_MB,
                self.warning_threshold_mb,
                self.critical_threshold_mb,
            ),
    {
        MemoryUsageHealthCheck::check(self)
    }
}

/// The overall status of a set of check results: unhealthy when there are
/// none or any is unhealthy, degraded when any is degraded, healthy
/// otherwise.
pub open spec fn overall_status_of(statuses: Seq<HealthStatus>) -> HealthStatus {
    if statuses.len() == 0 {
        HealthStatus::Unhealthy
    } else if exists|i: int| 0 <= i < statuses.len() && statuses[i] == HealthStatus::Unhealthy {
        HealthStatus::Unhealthy
    } else if exists|i: int| 0 <= i < statuses.len() && statuses[i] == HealthStatus::Degraded {
        HealthStatus::Degraded
    } else {
        HealthStatus::Healthy
    }
}

/// Computes [`overall_status_of`].
pub fn overall_status(statuses: &[HealthStatus]) -> (s: HealthStatus)
    ensures
        s == overall_status_of(statuses@),
{
    if statuses.len() == 0 {
        return HealthStatus::Unhealthy;
    }
    let mut has_unhealthy = false;
    let mut has_degraded = false;
    let mut i: usize = 0;
    while i < statuses.len()
        invariant
            i <= statuses@.len(),
            has_unhealthy == exists|j: int| 0 <= j < i && statuses@[j] == HealthStatus::Unhealthy,
            has_degraded == exists|j: int| 0 <= j < i && statuses@[j] == HealthStatus::Degraded,
        decreases statuses@.len() - i,
    {
        match statuses[i] {
            HealthStatus::Unhealthy => {
                has_unhealthy = true;
            },
            HealthStatus::Degraded => {
                has_degraded = true;
            },
            HealthStatus::Healthy => {},
        }
        proof {
            assert forall|j: int| 0 <= j < i + 1 && statuses@[j] == HealthStatus::Unhealthy implies
                has_unhealthy by {}
            assert forall|j: int| 0 <= j < i + 1 && statuses@[j] == HealthStatus::Degraded implies
                has_degraded by {}
        }
        i = i + 1;
    }
    if has_unhealthy {
        HealthStatus::Unhealthy
    } else if has_degraded {
        HealthStatus::Degraded
    } else {
        HealthStatus::Healthy
    }
}

/// The overall status is healthy exactly when there is at least one result
/// and every result is healthy; it is unhealthy when any result is.
pub proof fn lemma_overall_status_worst(statuses: Seq<HealthStatus>)
    ensures
        overall_status_of(statuses) == HealthStatus::Healthy <==> statuses.len() > 0 && forall|i: int|
            0 <= i < statuses.len() ==> statuses[i] == HealthStatus::Healthy,
        (exists|i: int| 0 <= i < statuses.len() && statuses[i] == HealthStatus::Unhealthy)
            ==> overall_status_of(statuses) == HealthStatus::Unhealthy,
{
    if statuses.len() > 0 && overall_status_of(statuses) != HealthStatus::Healthy {
        if forall|i: int| 0 <= i < statuses.len() ==> statuses[i] == HealthStatus::Healthy {
            assert(!exists|i: int| 0 <= i < statuses.len() && statuses[i] == HealthStatus::Unhealthy);
            assert(!exists|i: int| 0 <= i < statuses.len() && statuses[i] == HealthStatus::Degraded);
        }
    }
}

/// The result reported for a check that did not finish within `timeout`
/// nanoseconds.
pub fn timed_out_result(timeout: u64) -> (r: HealthCheckResult)
    ensures
        r.status == HealthStatus::Unhealthy,
        r.message@ == "Health check timed out"@,
        r.duration == timeout,
        r.metadata@ == Map::<Seq<char>, Seq<char>>::empty(),
{
    HealthCheckResult::unhealthy("Health check timed out".to_owned(), timeout)
}

/// The names after registering a check named `n`: a name already present
/// keeps its place, a new one goes last.
pub open spec fn names_after_register(names: Seq<Seq<char>>, n: Seq<char>) -> Seq<Seq<char>> {
    if names.contains(n) {
        names
    } else {
        names.push(n)
    }
}

/// Registering a check under a new name and then unregistering that name
/// leaves the registered names as they were.
pub proof fn lemma_register_unregister_round_trip(names: Seq<Seq<char>>, n: Seq<char>)
    requires
        !names.contains(n),
    ensures
        names_after_register(names, n) == names.push(n),
        names.push(n)[names.len() as int] == n,
        names.push(n).remove(names.len() as int) == names,
{
    assert(names.push(n).remove(names.len() as int) =~= names);
}

/// The checks after registering `c` under the name `n`: it replaces the
/// check of that name in its place, or goes last under a new name.
pub open spec fn checks_after_register<C>(names: Seq<Seq<char>>, checks: Seq<C>, n: Seq<char>, c: C) -> Seq<C> {
    if names.contains(n) {
        checks.update(names.index_of(n), c)
    } else {
        checks.push(c)
    }
}

/// No name occurs twice.
pub open spec fn names_distinct(names: Seq<Seq<char>>) -> bool {
    forall|a: int, b: int| 0 <= a < b < names.len() ==> names[a] != names[b]
}

/// A boxed check, of any type, is a check.
impl<T: HealthCheck + ?Sized> HealthCheck for Box<T> {
    fn name(&self) -> (s: String)
        ensures
            call_ensures(T::name, (&**self,), s),
    {
        (**self).name()
    }

    fn check(&self) -> (r: HealthCheckResult)
        ensures
            call_ensures(T::check, (&**self,), r),
    {
        (**self).check()
    }

    fn timeout(&self) -> (t: u64)
        ensures
            call_ensures(T::timeout, (&**self,), t),
    {
        (**self).timeout()
    }
}

/// A registry of named health checks of type `C` (by default, boxed checks
/// of any type). Registering a check under a name that is taken replaces
/// the earlier check.
pub struct HealthCheckRegistry<C = Box<dyn HealthCheck>> {
    checks: Vec<(String, C)>,
}

impl<C> HealthCheckRegistry<C> {
    /// The names of the registered checks, in registration order.
    pub closed spec fn spec_names(&self) -> Seq<Seq<char>> {
        self.checks@.map_values(|c: (String, C)| c.0@)
    }

    /// The registered checks, in registration order, each at the place of
    /// its name.
    pub closed spec fn spec_checks(&self) -> Seq<C> {
        self.checks@.map_values(|c: (String, C)| c.1)
    }

    #[verifier::type_invariant]
    spec fn unique_names(&self) -> bool {
        names_distinct(self.spec_names())
    }
}

impl<C: HealthCheck> HealthCheckRegistry<C> {

    /// An empty registry.
    pub fn new() -> (r: Self)
        ensures
            r.spec_names().len() == 0,
    {
        let r = HealthCheckRegistry { checks: Vec::new() };
        proof {
            assert(r.spec_names().len() == 0);
        }
        r
    }

    fn position(&self, name: &str) -> (r: Option<usize>)
        ensures
            match r {
                Some(i) => i < self.spec_names().len() && self.spec_names()[i as int] == name@,
                None => !self.spec_names().contains(name@),
            },
    {
        let k = name.to_owned();
        let mut i: usize = 0;
        while i < self.checks.len()
            invariant
                i <= self.checks@.len(),
                k@ == name@,
                forall|j: int| 0 <= j < i ==> self.spec_names()[j] != name@,
            decreases self.checks@.len() - i,
        {
            if self.checks[i].0 == k {
                return Some(i);
            }
            i = i + 1;
        }
        None
    }

    /// Registers `check` under `name`, replacing a check of that name.
    pub fn register_named(&mut self, name: String, check: C)
        ensures
            final(self).spec_names() == names_after_register(old(self).spec_names(), name@),
            final(self).spec_checks() == checks_after_register(
                old(self).spec_names(),
                old(self).spec_checks(),
                name@,
                check,
            ),
    {
        proof {
            use_type_invariant(&*self);
        }
        let ghost names = self.spec_names();
        let ghost old_checks = self.spec_checks();
        let ghost c = check;
        let found = self.position(name.as_str());
        let mut checks: Vec<(String, C)> = Vec::new();
        std::mem::swap(&mut checks, &mut self.checks);
        match found {
            Some(i) => {
                let ghost before = checks@;
                let ghost n = name@;
                checks.set(i, (name, check));
                proof {
                    assert(names.contains(n));
                    assert forall|j: int| 0 <= j < names.len() && names[j] == n implies j == i by {
                        if j != i {
                            assert(names[j] != names[i as int]);
                        }
                    }
                    assert(names.index_of(n) == i) by {
                        names.index_of_first_ensures(n);
                    }
                    assert(checks@.map_values(|c: (String, C)| c.1) =~= old_checks.update(i as int, c));
                    assert(before.map_values(|c: (String, C)| c.0@) == names);
                    assert forall|j: int| 0 <= j < checks@.len() implies #[trigger] checks@[j].0@ == names[j] by {
                        if j != i {
                            assert(checks@[j] == before[j]);
                        }
                    }
                    assert(checks@.map_values(|c: (String, C)| c.0@) =~= names);
                }
            },
            None => {
                let ghost n = name@;
                let ghost before = checks@;
                checks.push((name, check));
                proof {
                    assert(before.map_values(|c: (String, C)| c.0@) == names);
                    assert forall|j: int| 0 <= j < checks@.len() implies #[trigger] checks@[j].0@ == names.push(n)[j] by {
                        if j < before.len() {
                            assert(checks@[j] == before[j]);
                        }
                    }
                    assert(checks@.map_values(|c: (String, C)| c.0@) =~= names.push(n));
                    assert(checks@.map_values(|c: (String, C)| c.1) =~= old_checks.push(c));
                }
            },
        }
        self.checks = checks;
    }

    /// Registers `check` under the name it reports, replacing a check of
    /// that name.
    pub fn register(&mut self, check: C)
        ensures
            exists|n: String|
                #[trigger] call_ensures(C::name, (&check,), n) && final(self).spec_names() == names_after_register(
                    old(self).spec_names(),
                    n@,
                ) && final(self).spec_checks() == checks_after_register(
                    old(self).spec_names(),
                    old(self).spec_checks(),
                    n@,
                    check,
                ),
    {
        let name = check.name();
        let ghost n = name;
        let ghost named = call_ensures(C::name, (&check,), name);
        self.register_named(name, check);
        assert(named);
    }

    /// Removes the check registered under `name`, if any; the others keep
    /// their order.
    pub fn unregister(&mut self, name: &str)
        ensures
            !old(self).spec_names().contains(name@) ==> final(self).spec_names() == old(self).spec_names(),
            old(self).spec_names().contains(name@) ==> exists|i: int|
                0 <= i < old(self).spec_names().len() && old(self).spec_names()[i] == name@
                    && final(self).spec_names() == old(self).spec_names().remove(i),
            !final(self).spec_names().contains(name@),
    {
        proof {
            use_type_invariant(&*self);
        }
        let ghost names = self.spec_names();
        match self.position(name) {
            Some(i) => {
                let mut checks: Vec<(String, C)> = Vec::new();
                std::mem::swap(&mut checks, &mut self.checks);
                checks.remove(i);
                proof {
                    let r = names.remove(i as int);
                    assert(checks@.map_values(|c: (String, C)| c.0@) =~= r);
                    assert forall|a: int, b: int| 0 <= a < b < r.len() implies r[a] != r[b] by {
                        let a2 = if a < i { a } else { a + 1 };
                        let b2 = if b < i { b } else { b + 1 };
                        assert(r[a] == names[a2] && r[b] == names[b2]);
                    }
                    if r.contains(name@) {
                        let j = choose|j: int| 0 <= j < r.len() && r[j] == name@;
                        let j2 = if j < i { j } else { j + 1 };
                        assert(names[j2] == name@);
                    }
                }
                self.checks = checks;
            },
            None => {},
        }
    }

    /// The names of the registered checks, in registration order.
    pub fn list_checks(&self) -> (v: Vec<String>)
        ensures
            v@.map_values(|s: String| s@) == self.spec_names(),
    {
        let mut v: Vec<String> = Vec::new();
        let mut i: usize = 0;
        while i < self.checks.len()
            invariant
                i <= self.checks@.len(),
                v@.map_values(|s: String| s@) == self.spec_names().take(i as int),
            decreases self.checks@.len() - i,
        {
            let name = self.checks[i].0.clone();
            proof {
                assert(name@ == self.checks@[i as int].0@);
                assert(self.spec_names()[i as int] == self.checks@[i as int].0@);
                assert(self.spec_names().take(i + 1) =~= self.spec_names().take(i as int).push(name@));
            }
            v.push(name);
            proof {
                assert(v@.map_values(|s: String| s@) =~= self.spec_names().take(i + 1));
            }
            i = i + 1;
        }
        proof {
            assert(self.spec_names().take(self.checks@.len() as int) =~= self.spec_names());
        }
        v
    }

    /// The registered checks, with their names, in registration order.
    pub fn checks(&self) -> (v: &Vec<(String, C)>)
        ensures
            v@.map_values(|c: (String, C)| c.0@) == self.spec_names(),
    {
        &self.checks
    }

    /// Runs every check, in registration order, and pairs each result with
    /// the name it is registered under.
    pub fn check_all(&self) -> (v: Vec<(String, HealthCheckResult)>)
        ensures
            v@.map_values(|r: (String, HealthCheckResult)| r.0@) == self.spec_names(),
            forall|i: int| 0 <= i < v@.len() ==> call_ensures(C::check, (&self.spec_checks()[i],), #[trigger] v@[i].1),
    {
        let mut v: Vec<(String, HealthCheckResult)> = Vec::new();
        let mut i: usize = 0;
        while i < self.checks.len()
            invariant
                i <= self.checks@.len(),
                v@.map_values(|r: (String, HealthCheckResult)| r.0@) == self.spec_names().take(i as int),
                v@.len() == i,
                forall|k: int| 0 <= k < v@.len() ==> call_ensures(C::check, (&self.spec_checks()[k],), #[trigger] v@[k].1),
            decreases self.checks@.len() - i,
        {
            let result = self.checks[i].1.check();
            let name = self.checks[i].0.clone();
            proof {
                assert(self.spec_checks()[i as int] == self.checks@[i as int].1);
                assert(name@ == self.checks@[i as int].0@);
                assert(self.spec_names()[i as int] == self.checks@[i as int].0@);
                assert(self.spec_names().take(i + 1) =~= self.spec_names().take(i as int).push(name@));
            }
            let ghost before = v@;
            v.push((name, result));
            proof {
                assert(v@.map_values(|r: (String, HealthCheckResult)| r.0@) =~= self.spec_names().take(i + 1));
                assert forall|k: int| 0 <= k < v@.len() implies call_ensures(C::check, (&self.spec_checks()[k],), #[trigger] v@[k].1) by {
                    if k < i {
                        assert(v@[k] == before[k]);
                    }
                }
            }
            i = i + 1;
        }
        proof {
            assert(self.spec_names().take(self.checks@.len() as int) =~= self.spec_names());
        }
        v
    }

    /// Runs the check registered under `name`; `None` if there is none.
    pub fn check_one(&self, name: &str) -> (r: Option<HealthCheckResult>)
        ensures
            r.is_some() == self.spec_names().contains(name@),
    {
        match self.position(name) {
            Some(i) => Some(self.checks[i].1.check()),
            None => None,
        }
    }

    /// The overall status of all checks, as [`overall_status_of`] gives it
    /// for the results of running each registered check: unhealthy when
    /// nothing is registered.
    pub fn overall_health(&self) -> (s: HealthStatus)
        ensures
            exists|results: Seq<HealthCheckResult>|
                results.len() == self.spec_checks().len() && (forall|i: int|
                    0 <= i < results.len() ==> call_ensures(C::check, (&self.spec_checks()[i],), #[trigger] results[i]))
                    && s == overall_status_of(results.map_values(|r: HealthCheckResult| r.status)),
    {
        let results = self.check_all();
        let ghost rs = results@.map_values(|r: (String, HealthCheckResult)| r.1);
        proof {
            assert(results@.map_values(|r: (String, HealthCheckResult)| r.0@).len() == results@.len());
            assert(self.spec_checks().len() == self.spec_names().len());
        }
        let mut statuses: Vec<HealthStatus> = Vec::new();
        let mut i: usize = 0;
        while i < results.len()
            invariant
                i <= results@.len(),
                rs == results@.map_values(|r: (String, HealthCheckResult)| r.1),
                statuses@ == rs.take(i as int).map_values(|r: HealthCheckResult| r.status),
            decreases results@.len() - i,
        {
            statuses.push(results[i].1.status);
            proof {
                assert(rs.take(i + 1).map_values(|r: HealthCheckResult| r.status) =~= rs.take(i as int).map_values(
                    |r: HealthCheckResult| r.status,
                ).push(results@[i as int].1.status));
            }
            i = i + 1;
        }
        let s = overall_status(statuses.as_slice());
        proof {
            assert(rs.take(results@.len() as int) =~= rs);
            assert forall|k: int| 0 <= k < rs.len() implies call_ensures(C::check, (&self.spec_checks()[k],), #[trigger] rs[k]) by {
                assert(rs[k] == results@[k].1);
            }
        }
        s
    }
}

} // verus!
