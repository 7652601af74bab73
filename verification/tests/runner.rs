use eventcore::manager::{LifecycleOperation, ManagerError, ProjectionCheckpoint, ProjectionStatus};
use eventcore::runner::{
    CheckpointCounter, EventHandling, EventProcessingError, EventRetryState, ProjectionEventProcessor,
    ProjectionRunnerConfig, ProjectionRunnerStats, RetryDecision, RunnerLifecycle, RunnerProjection, on_attempt,
    AttemptAction,
};
use eventcore::types::{EventId, StreamId};

#[test]
fn projection_runner_config_default() {
    let config = ProjectionRunnerConfig::default();
    assert_eq!(config.checkpoint_frequency, 100);
    assert_eq!(config.batch_size, 1000);
    assert_eq!(config.checkpoint_timeout, 30_000_000_000);
    assert_eq!(config.error_retry_delay, 100_000_000);
    assert_eq!(config.max_retries, 5);
    assert_eq!(config.retry_backoff_multiplier, 2);
    assert_eq!(config.max_retry_delay, 60_000_000_000);
    assert!(!config.stop_on_error);
}

#[test]
fn projection_runner_stats_default() {
    let stats = ProjectionRunnerStats::default();
    assert_eq!(stats.events_processed, 0);
    assert_eq!(stats.checkpoints_saved, 0);
    assert_eq!(stats.errors_encountered, 0);
    assert_eq!(stats.retries_performed, 0);
    assert_eq!(stats.last_processing_time_micros, 0);
    assert_eq!(stats.avg_processing_time_micros, 0);
    assert!(stats.started_at.is_none());
    assert!(stats.last_event_processed_at.is_none());
}

#[test]
fn projection_event_processor_update_stats() {
    let mut stats = ProjectionRunnerStats::default();
    stats.record_processed(100);
    assert_eq!(stats.events_processed, 1);
    assert_eq!(stats.last_processing_time_micros, 100);
    assert_eq!(stats.avg_processing_time_micros, 100);
    assert!(stats.last_event_processed_at.is_some());
}

#[test]
fn projection_event_processor_average_processing_time() {
    let mut stats = ProjectionRunnerStats::default();
    stats.record_processed(100);
    stats.record_processed(200);
    stats.record_processed(300);
    assert_eq!(stats.events_processed, 3);
    assert_eq!(stats.avg_processing_time_micros, 200);
    stats.record_processed(0);
    assert_eq!(stats.avg_processing_time_micros, 150);
}

#[test]
fn retries_back_off_until_exhausted() {
    let config = ProjectionRunnerConfig { max_retries: 3, max_retry_delay: 350_000_000, ..ProjectionRunnerConfig::default() };
    let mut state = EventRetryState::new(&config);
    assert_eq!(state.on_failure(&config), RetryDecision::Retry { attempt: 1, wait: 100_000_000 });
    assert_eq!(state.on_failure(&config), RetryDecision::Retry { attempt: 2, wait: 200_000_000 });
    assert_eq!(state.on_failure(&config), RetryDecision::Retry { attempt: 3, wait: 350_000_000 });
    assert_eq!(state.on_failure(&config), RetryDecision::Skip);
    assert_eq!(state.on_failure(&config), RetryDecision::Skip);

    let strict = ProjectionRunnerConfig { max_retries: 0, stop_on_error: true, ..ProjectionRunnerConfig::default() };
    let mut s = EventRetryState::new(&strict);
    assert_eq!(s.on_failure(&strict), RetryDecision::Fail);
}

#[test]
fn sub_millisecond_delays_round_down() {
    let config = ProjectionRunnerConfig { error_retry_delay: 1_500_000, retry_backoff_multiplier: 3, ..ProjectionRunnerConfig::default() };
    let mut state = EventRetryState::new(&config);
    state.on_failure(&config);
    assert_eq!(state.delay, 3_000_000);
}

#[test]
fn checkpoints_fall_due_by_count() {
    let mut counter = CheckpointCounter::new();
    assert!(!counter.on_event_processed(3));
    assert!(!counter.on_event_processed(3));
    assert!(counter.on_event_processed(3));
    counter.on_checkpoint_saved();
    assert_eq!(counter.since_checkpoint, 0);
}

struct Totals;

impl RunnerProjection for Totals {
    type Event = i64;
    type State = i64;
    type Error = String;

    fn should_process_event(&self, event: &i64) -> bool {
        *event >= 0
    }

    fn apply_event(&self, state: i64, event: &i64) -> Result<i64, String> {
        if *event == 13 {
            return Err("unlucky".to_string());
        }
        Ok(state + *event)
    }
}

fn stream(name: &str) -> StreamId {
    StreamId::try_new(name).unwrap()
}

#[test]
fn single_events_update_state_checkpoint_and_counter() {
    let config = ProjectionRunnerConfig { checkpoint_frequency: 2, ..ProjectionRunnerConfig::default() };
    let mut processor = ProjectionEventProcessor::new(config, Some(0i64), ProjectionCheckpoint::initial());
    let a = stream("account-a");
    let first = EventId::from_u128(1);
    let second = EventId::from_u128(2);

    let r = processor.process_single_event(&Totals, first, &a, &5).ok().unwrap();
    assert_eq!(r, EventHandling::Processed { checkpoint_due: false });
    assert_eq!(processor.state, Some(5));
    assert_eq!(processor.last_checkpoint.last_event_id, Some(first));

    let r = processor.process_single_event(&Totals, second, &a, &7).ok().unwrap();
    assert_eq!(r, EventHandling::Processed { checkpoint_due: true });
    assert_eq!(processor.state, Some(12));
    assert_eq!(processor.last_checkpoint.stream_positions.len(), 1);
    assert_eq!(processor.last_checkpoint.stream_positions[0].1, second);
    processor.checkpoint_saved();
    assert_eq!(processor.counter.since_checkpoint, 0);
}

#[test]
fn uninteresting_and_failing_events_change_nothing() {
    let mut processor =
        ProjectionEventProcessor::new(ProjectionRunnerConfig::default(), Some(1i64), ProjectionCheckpoint::initial());
    let s = stream("s");
    assert_eq!(
        processor.process_single_event(&Totals, EventId::from_u128(3), &s, &-4).ok(),
        Some(EventHandling::NotInterested)
    );
    match processor.process_single_event(&Totals, EventId::from_u128(4), &s, &13) {
        Err(EventProcessingError::Projection(m)) => assert_eq!(m, "unlucky"),
        _ => panic!("expected the projection's error"),
    }
    assert_eq!(processor.state, Some(1));
    assert_eq!(processor.last_checkpoint.last_event_id, None);
    assert_eq!(processor.counter.since_checkpoint, 0);
}

#[test]
fn events_before_the_state_is_loaded_are_refused() {
    let mut processor: ProjectionEventProcessor<i64> =
        ProjectionEventProcessor::new(ProjectionRunnerConfig::default(), None, ProjectionCheckpoint::initial());
    assert!(matches!(
        processor.process_single_event(&Totals, EventId::from_u128(5), &stream("s"), &1),
        Err(EventProcessingError::StateNotInitialized)
    ));
}

#[test]
fn stream_positions_keep_one_entry_per_stream() {
    let a = stream("a");
    let b = stream("b");
    let c = ProjectionCheckpoint::initial()
        .with_stream_position(a.clone(), EventId::from_u128(1))
        .with_stream_position(b.clone(), EventId::from_u128(2))
        .with_stream_position(a.clone(), EventId::from_u128(3));
    assert_eq!(c.stream_positions.len(), 2);
    assert_eq!(c.stream_positions[0].0, b);
    assert_eq!(c.stream_positions[1], (a, EventId::from_u128(3)));
    assert_eq!(c.last_event_id, None);
}

/// Fails the first `failures` applications, then adds one to the state.
struct Flaky {
    failures: std::cell::Cell<u32>,
    calls: std::cell::Cell<u32>,
}

impl Flaky {
    fn new(failures: u32) -> Self {
        Flaky { failures: std::cell::Cell::new(failures), calls: std::cell::Cell::new(0) }
    }
}

impl RunnerProjection for Flaky {
    type Event = String;
    type State = u32;
    type Error = String;

    fn should_process_event(&self, _event: &String) -> bool {
        true
    }

    fn apply_event(&self, state: u32, _event: &String) -> Result<u32, String> {
        self.calls.set(self.calls.get() + 1);
        if self.failures.get() > 0 {
            self.failures.set(self.failures.get() - 1);
            return Err("Mock projection failure".to_string());
        }
        Ok(state + 1)
    }
}

/// Feeds one event the way a runner does, without the waits: failed
/// attempts are counted and retried as the retry state decides, and a due
/// checkpoint is counted as saved.
fn feed(
    processor: &mut ProjectionEventProcessor<u32>,
    projection: &Flaky,
    stats: &mut ProjectionRunnerStats,
    event_id: EventId,
) -> Result<(), String> {
    let config = processor.config;
    let mut retry = EventRetryState::new(&config);
    let stream_id = stream("test-stream");
    loop {
        let outcome = match processor.process_single_event(projection, event_id, &stream_id, &"test-payload".to_string()) {
            Ok(handling) => {
                if handling == (EventHandling::Processed { checkpoint_due: true }) {
                    processor.checkpoint_saved();
                    stats.record_checkpoint_saved();
                }
                Ok(1)
            }
            Err(EventProcessingError::Projection(e)) => Err(e),
            Err(EventProcessingError::StateNotInitialized) => Err("Projection state not initialized".to_string()),
        };
        let report = on_attempt(&mut retry, stats, &config, outcome);
        match report.action {
            AttemptAction::Done(result) => return result,
            AttemptAction::RetryAfter { .. } => {}
        }
    }
}

#[test]
fn attempts_report_hook_messages_and_stop_messages() {
    let config = ProjectionRunnerConfig { max_retries: 1, stop_on_error: true, ..ProjectionRunnerConfig::default() };
    let mut retry = EventRetryState::new(&config);
    let mut stats = ProjectionRunnerStats::default();
    let first = on_attempt(&mut retry, &mut stats, &config, Err("boom".to_string()));
    assert_eq!(first.hook_message, Some("Event processing failed: boom".to_string()));
    assert_eq!(first.action, AttemptAction::RetryAfter { wait: 100_000_000 });
    let second = on_attempt(&mut retry, &mut stats, &config, Err("boom".to_string()));
    assert_eq!(second.action, AttemptAction::Done(Err("Max retries exceeded: boom".to_string())));
    assert_eq!(stats.errors_encountered, 2);
    assert_eq!(stats.retries_performed, 1);
    let ok = on_attempt(&mut retry, &mut stats, &config, Ok(42));
    assert_eq!(ok.action, AttemptAction::Done(Ok(())));
    assert_eq!(ok.hook_message, None);
    assert_eq!(stats.events_processed, 1);
    assert_eq!(stats.last_processing_time_micros, 42);
}

#[test]
fn projection_event_processor_retry_logic() {
    let projection = Flaky::new(2);
    let config = ProjectionRunnerConfig { max_retries: 3, error_retry_delay: 1_000_000, ..ProjectionRunnerConfig::default() };
    let mut processor = ProjectionEventProcessor::new(config, Some(0u32), ProjectionCheckpoint::initial());
    let mut stats = ProjectionRunnerStats::default();
    let result = feed(&mut processor, &projection, &mut stats, EventId::from_u128(1));
    assert!(result.is_ok());
    assert_eq!(stats.retries_performed, 2);
    assert_eq!(stats.errors_encountered, 2);
    assert_eq!(stats.events_processed, 1);
    assert_eq!(projection.calls.get(), 3);
}

#[test]
fn projection_event_processor_max_retries_exceeded() {
    let projection = Flaky::new(100);
    let config = ProjectionRunnerConfig {
        max_retries: 2,
        error_retry_delay: 1_000_000,
        stop_on_error: true,
        ..ProjectionRunnerConfig::default()
    };
    let mut processor = ProjectionEventProcessor::new(config, Some(0u32), ProjectionCheckpoint::initial());
    let mut stats = ProjectionRunnerStats::default();
    let result = feed(&mut processor, &projection, &mut stats, EventId::from_u128(1));
    assert!(result.is_err());
    assert_eq!(stats.retries_performed, 2);
    assert_eq!(stats.errors_encountered, 3);
    assert_eq!(stats.events_processed, 0);
}

#[test]
fn projection_event_processor_skip_on_max_retries_when_continue_on_error() {
    let projection = Flaky::new(100);
    let config = ProjectionRunnerConfig {
        max_retries: 1,
        error_retry_delay: 1_000_000,
        stop_on_error: false,
        ..ProjectionRunnerConfig::default()
    };
    let mut processor = ProjectionEventProcessor::new(config, Some(0u32), ProjectionCheckpoint::initial());
    let mut stats = ProjectionRunnerStats::default();
    let result = feed(&mut processor, &projection, &mut stats, EventId::from_u128(1));
    assert!(result.is_ok());
    assert_eq!(stats.retries_performed, 1);
    assert_eq!(stats.errors_encountered, 2);
}

#[test]
fn projection_event_processor_checkpoint_frequency() {
    let projection = Flaky::new(0);
    let config = ProjectionRunnerConfig { checkpoint_frequency: 2, ..ProjectionRunnerConfig::default() };
    let mut processor = ProjectionEventProcessor::new(config, Some(0u32), ProjectionCheckpoint::initial());
    let mut stats = ProjectionRunnerStats::default();
    let first = EventId::from_u128(1);
    let second = EventId::from_u128(2);
    assert!(feed(&mut processor, &projection, &mut stats, first).is_ok());
    assert_eq!(stats.checkpoints_saved, 0);
    assert_eq!(processor.counter.since_checkpoint, 1);
    assert!(feed(&mut processor, &projection, &mut stats, second).is_ok());
    assert_eq!(stats.checkpoints_saved, 1);
    assert_eq!(processor.counter.since_checkpoint, 0);
    assert_eq!(processor.last_checkpoint.last_event_id, Some(second));
    assert_eq!(stats.events_processed, 2);
}

#[test]
fn runner_lifecycle_guards_its_calls() {
    let mut lifecycle = RunnerLifecycle::new();
    assert!(!lifecycle.is_running());
    assert_eq!(
        lifecycle.apply(LifecycleOperation::Stop),
        Err(ManagerError::InvalidStateTransition { from: ProjectionStatus::Stopped, to: ProjectionStatus::Stopped })
    );
    assert_eq!(
        lifecycle.apply(LifecycleOperation::Pause),
        Err(ManagerError::InvalidStateTransition { from: ProjectionStatus::Stopped, to: ProjectionStatus::Paused })
    );
    assert_eq!(lifecycle.apply(LifecycleOperation::Start), Ok(()));
    assert!(lifecycle.is_running());
    assert_eq!(
        lifecycle.apply(LifecycleOperation::Start),
        Err(ManagerError::InvalidStateTransition { from: ProjectionStatus::Running, to: ProjectionStatus::Running })
    );
    assert_eq!(lifecycle.apply(LifecycleOperation::Pause), Ok(()));
    assert_eq!(lifecycle.apply(LifecycleOperation::Resume), Ok(()));
    assert_eq!(lifecycle.apply(LifecycleOperation::Stop), Ok(()));
    assert!(!lifecycle.is_running());
}
