//! The decisions of a subscription-driven projection runner: how to retry a
//! failed event, when to save a checkpoint, and how processing statistics
//! accumulate. The runner's tasks and I/O stand outside; they consult these
//! types between awaits.

use std::time::Instant;
use vstd::prelude::*;

use crate::clock::now;
use crate::manager::{positions_of, target_status, LifecycleOperation, ManagerError, ProjectionCheckpoint, ProjectionStatus};
use crate::types::{EventId, StreamId};

verus! {

/// Nanoseconds in a millisecond.
pub const NANOS_PER_MILLI: u64 = 1_000_000;

/// Configuration of a projection runner. Durations are in nanoseconds.
#[derive(Debug, Clone, Copy, PartialEq, Eq, Structural)]
pub struct ProjectionRunnerConfig {
    /// Save a checkpoint after this many processed events.
    pub checkpoint_frequency: u64,
    /// The most events to process in one batch.
    pub batch_size: usize,
    /// The longest time between checkpoints.
    pub checkpoint_timeout: u64,
    /// The wait before the first retry of a failed event.
    pub error_retry_delay: u64,
    /// The most retries of a failed event.
    pub max_retries: u32,
    /// The factor by which the wait grows after each retry; only its whole
    /// part counts.
    pub retry_backoff_multiplier: u64,
    /// The longest wait between retries.
    pub max_retry_delay: u64,
    /// Whether an event that still fails after the last retry stops the
    /// runner; otherwise it is skipped.
    pub stop_on_error: bool,
}

impl ProjectionRunnerConfig {
    /// Checkpoints every 100 events or 30 s, batches of 1000, five retries
    /// starting at 100 ms and doubling up to 60 s, skipping events that keep
    /// failing.
    pub fn default_config() -> (c: Self)
        ensures
            c.checkpoint_frequency == 100,
            c.batch_size == 1000,
            c.checkpoint_timeout == 30_000_000_000,
            c.error_retry_delay == 100_000_000,
            c.max_retries == 5,
            c.retry_backoff_multiplier == 2,
            c.max_retry_delay == 60_000_000_000,
            !c.stop_on_error,
    {
        ProjectionRunnerConfig {
            checkpoint_frequency: 100,
            batch_size: 1000,
            checkpoint_timeout: 30_000_000_000,
            error_retry_delay: 100_000_000,
            max_retries: 5,
            retry_backoff_multiplier: 2,
            max_retry_delay: 60_000_000_000,
            stop_on_error: false,
        }
    }
}

impl Default for ProjectionRunnerConfig {
    fn default() -> (c: Self)
        ensures
            c.checkpoint_frequency == 100,
            c.batch_size == 1000,
            c.checkpoint_timeout == 30_000_000_000,
            c.error_retry_delay == 100_000_000,
            c.max_retries == 5,
            c.retry_backoff_multiplier == 2,
            c.max_retry_delay == 60_000_000_000,
            !c.stop_on_error,
    {
        ProjectionRunnerConfig::default_config()
    }
}

/// The wait after a retry that waited `delay` nanoseconds: the delay in
/// whole milliseconds times the multiplier, saturated at `u64::MAX`
/// milliseconds, capped at the maximum retry delay.
pub open spec fn next_retry_delay(config: ProjectionRunnerConfig, delay: u64) -> int {
    let millis = (delay / NANOS_PER_MILLI) as int * config.retry_backoff_multiplier as int;
    let saturated = if millis > u64::MAX {
        u64::MAX as int
    } else {
        millis
    };
    let nanos = saturated * NANOS_PER_MILLI;
    if nanos < config.max_retry_delay {
        nanos
    } else {
        config.max_retry_delay as int
    }
}

/// The wait after a retry never exceeds the maximum delay, and a longer
/// wait is never followed by a shorter one than a shorter wait is.
pub proof fn lemma_next_retry_delay_capped_and_monotone(config: ProjectionRunnerConfig, a: u64, b: u64)
    requires
        a <= b,
    ensures
        0 <= next_retry_delay(config, a) <= config.max_retry_delay,
        next_retry_delay(config, a) <= next_retry_delay(config, b),
{
    let ma = a / NANOS_PER_MILLI;
    let mb = b / NANOS_PER_MILLI;
    assert(ma <= mb) by (nonlinear_arith)
        requires
            a <= b,
            ma == a / NANOS_PER_MILLI,
            mb == b / NANOS_PER_MILLI,
    ;
    let f = config.retry_backoff_multiplier;
    assert(ma as int * f as int <= mb as int * f as int) by (nonlinear_arith)
        requires
            ma <= mb,
    ;
    assert(0 <= ma as int * f as int) by (nonlinear_arith);
}

/// What to do after an attempt to process an event failed.
#[derive(Debug, Clone, Copy, PartialEq, Eq, Structural)]
pub enum RetryDecision {
    /// Wait `wait` nanoseconds, then make retry number `attempt`.
    Retry { attempt: u32, wait: u64 },
    /// Give up on the event and go on with the next.
    Skip,
    /// Give up on the event and stop.
    Fail,
}

/// The retry state of one event.
#[derive(Debug, Clone, Copy, PartialEq, Eq, Structural)]
pub struct EventRetryState {
    /// Retries made so far.
    pub retries: u32,
    /// The wait before the next retry, in nanoseconds.
    pub delay: u64,
}

impl EventRetryState {
    /// The state before the first attempt.
    pub fn new(config: &ProjectionRunnerConfig) -> (s: Self)
        ensures
            s.retries == 0,
            s.delay == config.error_retry_delay,
    {
        EventRetryState { retries: 0, delay: config.error_retry_delay }
    }

    /// Decides what follows a failed attempt: once the retries are used up,
    /// fail or skip as configured; otherwise retry after the current delay,
    /// and grow the delay.
    pub fn on_failure(&mut self, config: &ProjectionRunnerConfig) -> (d: RetryDecision)
        ensures
            old(self).retries >= config.max_retries ==> {
                &&& *final(self) == *old(self)
                &&& d == if config.stop_on_error {
                    RetryDecision::Fail
                } else {
                    RetryDecision::Skip
                }
            },
            old(self).retries < config.max_retries ==> {
                &&& final(self).retries == old(self).retries + 1
                &&& final(self).delay == next_retry_delay(*config, old(self).delay)
                &&& d == RetryDecision::Retry { attempt: final(self).retries, wait: old(self).delay }
            },
    {
        if self.retries >= config.max_retries {
            if config.stop_on_error {
                return RetryDecision::Fail;
            } else {
                return RetryDecision::Skip;
            }
        }
        self.retries = self.retries + 1;
        let wait = self.delay;
        let whole_millis: u64 = self.delay / NANOS_PER_MILLI;
        let factor: u64 = config.retry_backoff_multiplier;
        proof {
            assert(whole_millis * factor <= 0xFFFF_FFFF_FFFF_FFFF * 0xFFFF_FFFF_FFFF_FFFF) by (nonlinear_arith)
                requires whole_millis <= 0xFFFF_FFFF_FFFF_FFFF, factor <= 0xFFFF_FFFF_FFFF_FFFF;
        }
        let millis: u128 = whole_millis as u128 * factor as u128;
        let saturated: u128 = if millis > u64::MAX as u128 {
            u64::MAX as u128
        } else {
            millis
        };
        proof {
            assert(saturated * NANOS_PER_MILLI <= 0xFFFF_FFFF_FFFF_FFFF * 1_000_000);
        }
        let nanos: u128 = saturated * NANOS_PER_MILLI as u128;
        self.delay = if nanos < config.max_retry_delay as u128 {
            nanos as u64
        } else {
            config.max_retry_delay
        };
        RetryDecision::Retry { attempt: self.retries, wait }
    }
}

/// Counts the events processed since the last checkpoint.
#[derive(Debug, Clone, Copy, PartialEq, Eq, Structural)]
pub struct CheckpointCounter {
    /// Events processed since the last checkpoint.
    pub since_checkpoint: u64,
}

impl CheckpointCounter {
    /// A counter at zero.
    pub fn new() -> (c: Self)
        ensures
            c.since_checkpoint == 0,
    {
        CheckpointCounter { since_checkpoint: 0 }
    }

    /// Counts one more processed event; tells whether a checkpoint is due,
    /// that is whether the count reached `frequency`.
    pub fn on_event_processed(&mut self, frequency: u64) -> (due: bool)
        ensures
            final(self).since_checkpoint == if old(self).since_checkpoint < u64::MAX {
                old(self).since_checkpoint + 1
            } else {
                u64::MAX as int
            },
            due == (final(self).since_checkpoint >= frequency),
    {
        self.since_checkpoint = self.since_checkpoint.saturating_add(1);
        self.since_checkpoint >= frequency
    }

    /// A checkpoint was saved.
    pub fn on_checkpoint_saved(&mut self)
        ensures
            final(self).since_checkpoint == 0,
    {
        self.since_checkpoint = 0;
    }
}

/// Processing statistics of a runner.
#[derive(Debug, Clone, Copy)]
pub struct ProjectionRunnerStats {
    /// Events processed.
    pub events_processed: u64,
    /// Checkpoints saved.
    pub checkpoints_saved: u64,
    /// Errors encountered.
    pub errors_encountered: u64,
    /// Retries made.
    pub retries_performed: u64,
    /// Processing time of the last event, in microseconds.
    pub last_processing_time_micros: u64,
    /// Running average of the processing time, in microseconds.
    pub avg_processing_time_micros: u64,
    /// When the runner started.
    pub started_at: Option<Instant>,
    /// When the last event was processed.
    pub last_event_processed_at: Option<Instant>,
}

/// The running average after the `n`-th sample `t`, given the average
/// `avg` of the first `n - 1`, rounded down.
pub open spec fn running_average(avg: u64, n: u64, t: u64) -> int {
    if n <= 1 {
        t as int
    } else {
        (avg * (n - 1) + t) / (n as int)
    }
}

impl ProjectionRunnerStats {
    /// All counters at zero, no times.
    pub fn new() -> (s: Self)
        ensures
            s.events_processed == 0,
            s.checkpoints_saved == 0,
            s.errors_encountered == 0,
            s.retries_performed == 0,
            s.last_processing_time_micros == 0,
            s.avg_processing_time_micros == 0,
            s.started_at.is_none(),
            s.last_event_processed_at.is_none(),
    {
        ProjectionRunnerStats {
            events_processed: 0,
            checkpoints_saved: 0,
            errors_encountered: 0,
            retries_performed: 0,
            last_processing_time_micros: 0,
            avg_processing_time_micros: 0,
            started_at: None,
            last_event_processed_at: None,
        }
    }

    /// Records that the runner started now.
    pub fn record_start(&mut self)
        ensures
            final(self).started_at.is_some(),
            *final(self) == (ProjectionRunnerStats { started_at: final(self).started_at, ..*old(self) }),
    {
        self.started_at = Some(now());
    }

    /// Records an event processed in `micros` microseconds, now.
    pub fn record_processed(&mut self, micros: u64)
        requires
            old(self).events_processed < u64::MAX,
        ensures
            final(self).events_processed == old(self).events_processed + 1,
            final(self).last_processing_time_micros == micros,
            final(self).avg_processing_time_micros == running_average(
                old(self).avg_processing_time_micros,
                final(self).events_processed,
                micros,
            ),
            final(self).last_event_processed_at.is_some(),
            final(self).checkpoints_saved == old(self).checkpoints_saved,
            final(self).errors_encountered == old(self).errors_encountered,
            final(self).retries_performed == old(self).retries_performed,
            final(self).started_at == old(self).started_at,
    {
        self.events_processed = self.events_processed + 1;
        self.last_event_processed_at = Some(now());
        self.last_processing_time_micros = micros;
        if self.events_processed == 1 {
            self.avg_processing_time_micros = micros;
        } else {
            let n = self.events_processed;
            let avg = self.avg_processing_time_micros;
            proof {
                assert(avg * (n - 1) + micros <= avg * n + micros) by (nonlinear_arith)
                    requires n >= 1;
                assert((avg * (n - 1) + micros) / (n as int) <= 0xFFFF_FFFF_FFFF_FFFF) by (nonlinear_arith)
                    requires avg <= 0xFFFF_FFFF_FFFF_FFFF, micros <= 0xFFFF_FFFF_FFFF_FFFF, n >= 2;
                assert(avg * (n - 1) <= 0xFFFF_FFFF_FFFF_FFFF * 0xFFFF_FFFF_FFFF_FFFF) by (nonlinear_arith)
                    requires avg <= 0xFFFF_FFFF_FFFF_FFFF, n <= 0xFFFF_FFFF_FFFF_FFFF, n >= 1;
            }
            let total: u128 = avg as u128 * (n - 1) as u128 + micros as u128;
            self.avg_processing_time_micros = (total / n as u128) as u64;
        }
    }

    /// Records a processing error.
    pub fn record_error(&mut self)
        requires
            old(self).errors_encountered < u64::MAX,
        ensures
            *final(self) == (ProjectionRunnerStats {
                errors_encountered: (old(self).errors_encountered + 1) as u64,
                ..*old(self)
            }),
    {
        self.errors_encountered = self.errors_encountered + 1;
    }

    /// Records a retry.
    pub fn record_retry(&mut self)
        requires
            old(self).retries_performed < u64::MAX,
        ensures
            *final(self) == (ProjectionRunnerStats {
                retries_performed: (old(self).retries_performed + 1) as u64,
                ..*old(self)
            }),
    {
        self.retries_performed = self.retries_performed + 1;
    }

    /// Records a saved checkpoint.
    pub fn record_checkpoint_saved(&mut self)
        requires
            old(self).checkpoints_saved < u64::MAX,
        ensures
            *final(self) == (ProjectionRunnerStats {
                checkpoints_saved: (old(self).checkpoints_saved + 1) as u64,
                ..*old(self)
            }),
    {
        self.checkpoints_saved = self.checkpoints_saved + 1;
    }
}

impl Default for ProjectionRunnerStats {
    fn default() -> (s: Self)
        ensures
            s.events_processed == 0,
            s.checkpoints_saved == 0,
            s.errors_encountered == 0,
            s.retries_performed == 0,
            s.last_processing_time_micros == 0,
            s.avg_processing_time_micros == 0,
            s.started_at.is_none(),
            s.last_event_processed_at.is_none(),
    {
        ProjectionRunnerStats::new()
    }
}

/// What a runner needs of a projection: which events it takes, and how an
/// event changes its state.
pub trait RunnerProjection {
    /// The events it reads.
    type Event;
    /// Its state.
    type State;
    /// Why an event could not be applied.
    type Error;

    /// Whether the projection takes `event`.
    fn should_process_event(&self, event: &Self::Event) -> bool;

    /// The state after `event`.
    fn apply_event(&self, state: Self::State, event: &Self::Event) -> Result<Self::State, Self::Error>;
}

/// Why an event could not be processed.
#[derive(Debug)]
pub enum EventProcessingError<E> {
    /// No state was loaded before events came.
    StateNotInitialized,
    /// The projection could not apply the event.
    Projection(E),
}

/// What became of an event that did not fail.
#[derive(Debug, Clone, Copy, PartialEq, Eq, Structural)]
pub enum EventHandling {
    /// The projection does not take it; nothing changed.
    NotInterested,
    /// It was applied; `checkpoint_due` tells whether enough events were
    /// processed since the last checkpoint that one is to be saved now.
    Processed { checkpoint_due: bool },
}

/// The state a runner keeps between the events it feeds a projection.
#[derive(Debug)]
pub struct ProjectionEventProcessor<St> {
    /// The runner's configuration.
    pub config: ProjectionRunnerConfig,
    /// The projection's state, once loaded.
    pub state: Option<St>,
    /// How far the projection got.
    pub last_checkpoint: ProjectionCheckpoint,
    /// Events processed since the last checkpoint.
    pub counter: CheckpointCounter,
}

impl<St: Clone> ProjectionEventProcessor<St> {
    /// A processor with `state` loaded at `checkpoint`.
    pub fn new(config: ProjectionRunnerConfig, state: Option<St>, checkpoint: ProjectionCheckpoint) -> (p: Self)
        ensures
            p.config == config,
            p.state == state,
            p.last_checkpoint == checkpoint,
            p.counter.since_checkpoint == 0,
    {
        ProjectionEventProcessor { config, state, last_checkpoint: checkpoint, counter: CheckpointCounter::new() }
    }

    /// Feeds the event `event_id` of stream `stream_id` to `projection`. An
    /// event it does not take changes nothing. Otherwise the event is
    /// applied to a copy of the state, which replaces the state only when
    /// the projection succeeds; then the checkpoint moves to the event, in
    /// the stream too, and the event is counted towards the next checkpoint.
    pub fn process_single_event<P: RunnerProjection<State = St>>(
        &mut self,
        projection: &P,
        event_id: EventId,
        stream_id: &StreamId,
        event: &P::Event,
    ) -> (r: Result<EventHandling, EventProcessingError<P::Error>>)
        ensures
            final(self).config == old(self).config,
            match r {
                Ok(EventHandling::NotInterested) => {
                    &&& call_ensures(P::should_process_event, (projection, event), false)
                    &&& *final(self) == *old(self)
                },
                Ok(EventHandling::Processed { checkpoint_due }) => {
                    &&& call_ensures(P::should_process_event, (projection, event), true)
                    &&& old(self).state matches Some(before)
                    &&& final(self).state matches Some(after)
                    &&& exists|copy: St|
                        cloned(before, copy) && call_ensures(
                            P::apply_event,
                            (projection, copy, event),
                            Ok::<St, P::Error>(after),
                        )
                    &&& final(self).last_checkpoint.last_event_id == Some(event_id)
                    &&& positions_of(final(self).last_checkpoint) == positions_of(old(self).last_checkpoint).insert(
                        stream_id@,
                        event_id,
                    )
                    &&& final(self).counter.since_checkpoint == if old(self).counter.since_checkpoint < u64::MAX {
                        old(self).counter.since_checkpoint + 1
                    } else {
                        u64::MAX as int
                    }
                    &&& checkpoint_due == (final(self).counter.since_checkpoint >= old(self).config.checkpoint_frequency)
                },
                Err(EventProcessingError::StateNotInitialized) => {
                    &&& call_ensures(P::should_process_event, (projection, event), true)
                    &&& old(self).state.is_none()
                    &&& *final(self) == *old(self)
                },
                Err(EventProcessingError::Projection(e)) => {
                    &&& call_ensures(P::should_process_event, (projection, event), true)
                    &&& old(self).state matches Some(before)
                    &&& exists|copy: St|
                        cloned(before, copy) && call_ensures(
                            P::apply_event,
                            (projection, copy, event),
                            Err::<St, P::Error>(e),
                        )
                    &&& *final(self) == *old(self)
                },
            },
    {
        if !projection.should_process_event(event) {
            return Ok(EventHandling::NotInterested);
        }
        let current = match &self.state {
            Some(st) => st.clone(),
            None => {
                return Err(EventProcessingError::StateNotInitialized);
            },
        };
        let ghost copy = current;
        proof {
            assert(cloned(self.state.unwrap(), copy));
        }
        let next = match projection.apply_event(current, event) {
            Ok(next) => next,
            Err(e) => {
                proof {
                    assert(call_ensures(P::apply_event, (projection, copy, event), Err::<St, P::Error>(e)));
                }
                return Err(EventProcessingError::Projection(e));
            },
        };
        self.state = Some(next);
        let mut checkpoint = ProjectionCheckpoint::initial();
        std::mem::swap(&mut checkpoint, &mut self.last_checkpoint);
        self.last_checkpoint = checkpoint.with_event_id(event_id).with_stream_position(stream_id.clone(), event_id);
        let due = self.counter.on_event_processed(self.config.checkpoint_frequency);
        Ok(EventHandling::Processed { checkpoint_due: due })
    }

    /// A checkpoint was saved: counting starts again.
    pub fn checkpoint_saved(&mut self)
        ensures
            final(self).counter.since_checkpoint == 0,
            final(self).config == old(self).config,
            final(self).state == old(self).state,
            final(self).last_checkpoint == old(self).last_checkpoint,
    {
        self.counter.on_checkpoint_saved();
    }
}

/// What a runner does after one attempt to process an event.
#[derive(Debug, PartialEq, Eq)]
pub enum AttemptAction {
    /// The event is done with: `Ok` when it was processed or is skipped,
    /// `Err` with the message when the runner stops.
    Done(Result<(), String>),
    /// Wait `wait` nanoseconds, then try the event again.
    RetryAfter { wait: u64 },
}

/// What follows one attempt: the action, and the message for the
/// projection's error hook when the attempt failed.
#[derive(Debug, PartialEq, Eq)]
pub struct AttemptReport {
    /// What to do next.
    pub action: AttemptAction,
    /// The message to hand the projection's error hook, if the attempt
    /// failed.
    pub hook_message: Option<String>,
}

/// `n` plus one, or `n` when that does not fit.
pub open spec fn saturating_next(n: u64) -> u64 {
    if n < u64::MAX {
        (n + 1) as u64
    } else {
        n
    }
}

/// Takes the outcome of one attempt to process an event: `Ok` with the
/// processing time in microseconds, or `Err` with the reason. A success is
/// counted and ends the event. A failure is counted as an error and reported
/// to the error hook as `Event processing failed: ` and the reason; then,
/// as [`EventRetryState::on_failure`] decides, a retry is counted and waited
/// for, or the event is skipped, or the runner stops with
/// `Max retries exceeded: ` and the reason. Counters that are full stay as
/// they are.
pub fn on_attempt(
    retry: &mut EventRetryState,
    stats: &mut ProjectionRunnerStats,
    config: &ProjectionRunnerConfig,
    outcome: Result<u64, String>,
) -> (r: AttemptReport)
    ensures
        match outcome {
            Ok(micros) => {
                &&& r.action == AttemptAction::Done(Ok(()))
                &&& r.hook_message is None
                &&& *final(retry) == *old(retry)
                &&& final(stats).events_processed == saturating_next(old(stats).events_processed)
                &&& old(stats).events_processed < u64::MAX ==> final(stats).last_processing_time_micros == micros
                    && final(stats).avg_processing_time_micros == running_average(
                    old(stats).avg_processing_time_micros,
                    final(stats).events_processed,
                    micros,
                )
                &&& final(stats).errors_encountered == old(stats).errors_encountered
                &&& final(stats).retries_performed == old(stats).retries_performed
                &&& final(stats).checkpoints_saved == old(stats).checkpoints_saved
            },
            Err(reason) => {
                &&& r.hook_message matches Some(m) && m@ == "Event processing failed: "@ + reason@
                &&& final(stats).errors_encountered == saturating_next(old(stats).errors_encountered)
                &&& final(stats).events_processed == old(stats).events_processed
                &&& final(stats).checkpoints_saved == old(stats).checkpoints_saved
                &&& if old(retry).retries >= config.max_retries {
                    &&& *final(retry) == *old(retry)
                    &&& final(stats).retries_performed == old(stats).retries_performed
                    &&& if config.stop_on_error {
                        r.action matches AttemptAction::Done(Err(m)) && m@ == "Max retries exceeded: "@ + reason@
                    } else {
                        r.action == AttemptAction::Done(Ok(()))
                    }
                } else {
                    &&& final(retry).retries == old(retry).retries + 1
                    &&& final(retry).delay == next_retry_delay(*config, old(retry).delay)
                    &&& r.action == AttemptAction::RetryAfter { wait: old(retry).delay }
                    &&& final(stats).retries_performed == saturating_next(old(stats).retries_performed)
                }
            },
        },
{
    match outcome {
        Ok(micros) => {
            if stats.events_processed < u64::MAX {
                stats.record_processed(micros);
            }
            AttemptReport { action: AttemptAction::Done(Ok(())), hook_message: None }
        },
        Err(reason) => {
            if stats.errors_encountered < u64::MAX {
                stats.record_error();
            }
            let hook_message = "Event processing failed: ".to_owned().concat(reason.as_str());
            let action = match retry.on_failure(config) {
                RetryDecision::Retry { wait, .. } => {
                    if stats.retries_performed < u64::MAX {
                        stats.record_retry();
                    }
                    AttemptAction::RetryAfter { wait }
                },
                RetryDecision::Skip => AttemptAction::Done(Ok(())),
                RetryDecision::Fail => AttemptAction::Done(
                    Err("Max retries exceeded: ".to_owned().concat(reason.as_str())),
                ),
            };
            AttemptReport { action, hook_message: Some(hook_message) }
        },
    }
}

/// Whether a runner is running, and the checks its lifecycle calls make.
/// Starting, stopping, pausing and resuming go ahead on these checks; the
/// work each does (the subscription, the processing task, the projection's
/// hooks and the final checkpoint) is the caller's.
#[derive(Debug, Clone, Copy, PartialEq, Eq, Structural)]
pub struct RunnerLifecycle {
    /// Whether the runner is running.
    pub running: bool,
}

/// The refusal of a lifecycle call on a runner that is running when
/// `running` holds: starting a running runner, or stopping, pausing or
/// resuming one that is not; `None` when the call goes ahead.
pub open spec fn runner_refusal(running: bool, op: LifecycleOperation) -> Option<ManagerError> {
    match op {
        LifecycleOperation::Start => if running {
            Some(
                ManagerError::InvalidStateTransition {
                    from: ProjectionStatus::Running,
                    to: ProjectionStatus::Running,
                },
            )
        } else {
            None
        },
        _ => if running {
            None
        } else {
            Some(
                ManagerError::InvalidStateTransition {
                    from: ProjectionStatus::Stopped,
                    to: target_status(op),
                },
            )
        },
    }
}

impl RunnerLifecycle {
    /// A runner that is not running.
    pub fn new() -> (l: Self)
        ensures
            !l.running,
    {
        RunnerLifecycle { running: false }
    }

    /// Whether the runner is running.
    pub fn is_running(&self) -> (b: bool)
        ensures
            b == self.running,
    {
        self.running
    }

    /// Checks the lifecycle call `op`: refused as [`runner_refusal`] says,
    /// and otherwise the runner is running after a start, a pause or a
    /// resume, and not running after a stop.
    pub fn apply(&mut self, op: LifecycleOperation) -> (r: Result<(), ManagerError>)
        ensures
            match runner_refusal(old(self).running, op) {
                Some(e) => r == Err::<(), ManagerError>(e) && *final(self) == *old(self),
                None => r is Ok && final(self).running == (op != LifecycleOperation::Stop),
            },
    {
        match op {
            LifecycleOperation::Start => {
                if self.running {
                    return Err(
                        ManagerError::InvalidStateTransition {
                            from: ProjectionStatus::Running,
                            to: ProjectionStatus::Running,
                        },
                    );
                }
                self.running = true;
                Ok(())
            },
            _ => {
                if !self.running {
                    let to = match op {
                        LifecycleOperation::Stop => ProjectionStatus::Stopped,
                        LifecycleOperation::Pause => ProjectionStatus::Paused,
                        _ => ProjectionStatus::Running,
                    };
                    return Err(ManagerError::InvalidStateTransition { from: ProjectionStatus::Stopped, to });
                }
                if op == LifecycleOperation::Stop {
                    self.running = false;
                }
                Ok(())
            },
        }
    }
}

} // verus!
