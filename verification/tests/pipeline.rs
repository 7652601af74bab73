use eventcore::pipeline::{
    decide_failure, retry_delay, BackoffMultiplier, CheckpointStore, Event, EventRetryConfig, FailureAction,
    FailureStrategy, NoCheckpointError, NoCheckpointStore, PipelinePhase, PollConfig, PollMode, ProjectionEffect,
    ProjectionEffectResult, ProjectionError, ProjectionPipeline, ProjectionRunner, ProjectionStep, Projector,
};

#[derive(Debug, Clone, PartialEq)]
struct Num(i64);

impl Event for Num {
    fn event_type_name() -> String {
        "Num".to_string()
    }
}

/// Sums the events; fails on negative ones, and answers failures with the
/// given strategy.
struct Summer {
    total: i64,
    applied: Vec<u64>,
    calls: std::rc::Rc<std::cell::Cell<usize>>,
    strategy: FailureStrategy,
}

impl Projector for Summer {
    type Event = Num;
    type Error = String;
    type Context = ();

    fn name(&self) -> String {
        "summer".to_string()
    }

    fn apply(&mut self, event: Num, position: u64, _ctx: &mut ()) -> Result<(), String> {
        self.calls.set(self.calls.get() + 1);
        if event.0 < 0 {
            return Err("negative".to_string());
        }
        self.total += event.0;
        self.applied.push(position);
        Ok(())
    }

    fn on_error(&mut self, _error: &String, _position: u64, _retry_count: u32) -> FailureStrategy {
        self.strategy
    }
}

fn summer(strategy: FailureStrategy) -> Summer {
    Summer { total: 0, applied: Vec::new(), calls: std::rc::Rc::new(std::cell::Cell::new(0)), strategy }
}

struct MemoryCheckpoints;

impl CheckpointStore for MemoryCheckpoints {
    type Error = String;

    fn load(&self, _name: &str) -> Result<Option<u64>, String> {
        Ok(Some(7))
    }

    fn save(&self, _name: &str, _position: u64) -> Result<(), String> {
        Ok(())
    }
}

#[test]
fn batch_run_reads_then_applies_all_events() {
    let runner = ProjectionRunner::new(summer(FailureStrategy::Fatal), ());
    assert_eq!(runner.poll_mode, PollMode::Batch);
    assert!(runner.checkpoint_store.is_none());
    let (mut pipeline, _, _) = runner.into_pipeline();
    assert_eq!(pipeline.phase(), PipelinePhase::PollEvents);

    let step = pipeline.step();
    assert_eq!(
        step,
        ProjectionStep::Yield(ProjectionEffect::ReadEvents {
            event_type: None,
            after_position: None,
            limit: 1000
        })
    );
    let step = pipeline.resume(ProjectionEffectResult::EventsRead(Ok(vec![(Num(2), 10), (Num(3), 11)])));
    assert_eq!(step, ProjectionStep::Done(Ok(())));
    assert_eq!(pipeline.last_checkpoint(), Some(11));
}

#[test]
fn checkpoint_store_is_loaded_first_and_saved_after_each_event() {
    let runner = ProjectionRunner::new(summer(FailureStrategy::Fatal), ()).with_checkpoint_store(MemoryCheckpoints);
    let (mut pipeline, _, store) = runner.into_pipeline();
    assert!(store.is_some());
    assert_eq!(pipeline.phase(), PipelinePhase::LoadCheckpoint);

    let step = pipeline.step();
    assert_eq!(step, ProjectionStep::Yield(ProjectionEffect::LoadCheckpoint { name: "summer".to_string() }));
    let step = pipeline.resume(ProjectionEffectResult::CheckpointLoaded(Ok(Some(7))));
    assert_eq!(
        step,
        ProjectionStep::Yield(ProjectionEffect::ReadEvents {
            event_type: None,
            after_position: Some(7),
            limit: 1000
        })
    );
    let step = pipeline.resume(ProjectionEffectResult::EventsRead(Ok(vec![(Num(1), 8)])));
    assert_eq!(
        step,
        ProjectionStep::Yield(ProjectionEffect::SaveCheckpoint { name: "summer".to_string(), position: 8 })
    );
    let step = pipeline.resume(ProjectionEffectResult::CheckpointSaved(Ok(())));
    assert_eq!(step, ProjectionStep::Done(Ok(())));
}

#[test]
fn failed_checkpoint_load_ends_a_typed_pipeline() {
    let mut pipeline = ProjectionPipeline::new(
        summer(FailureStrategy::Fatal),
        true,
        PollMode::Batch,
        PollConfig::default(),
        EventRetryConfig::default(),
    );
    let _ = pipeline.step();
    let step = pipeline.resume(ProjectionEffectResult::CheckpointLoaded(Err("disk".to_string())));
    assert_eq!(
        step,
        ProjectionStep::Done(Err(ProjectionError::Failed(
            "failed to load checkpoint for projector 'summer': disk".to_string()
        )))
    );
}

#[test]
fn runner_reads_from_the_start_when_the_checkpoint_fails_to_load() {
    let runner = ProjectionRunner::new(summer(FailureStrategy::Fatal), ()).with_checkpoint_store(MemoryCheckpoints);
    let (mut pipeline, _, _) = runner.into_pipeline();
    let _ = pipeline.step();
    let step = pipeline.resume(ProjectionEffectResult::CheckpointLoaded(Err("disk".to_string())));
    assert_eq!(
        step,
        ProjectionStep::Yield(ProjectionEffect::ReadEvents { event_type: None, after_position: None, limit: 1000 })
    );
}

#[test]
fn typed_pipeline_reads_its_event_type() {
    let mut pipeline = ProjectionPipeline::new(
        summer(FailureStrategy::Fatal),
        false,
        PollMode::Batch,
        PollConfig::default(),
        EventRetryConfig::default(),
    );
    assert_eq!(
        pipeline.step(),
        ProjectionStep::Yield(ProjectionEffect::ReadEvents {
            event_type: Some("Num".to_string()),
            after_position: None,
            limit: 1000
        })
    );
    let step = pipeline.resume(ProjectionEffectResult::EventsRead(Ok(vec![(Num(4), 1), (Num(6), 2)])));
    assert_eq!(step, ProjectionStep::Done(Ok(())));
}

#[test]
fn failure_decisions_follow_the_strategy() {
    let config = EventRetryConfig::default();
    assert_eq!(decide_failure(FailureStrategy::Fatal, 0, &config), FailureAction::Stop);
    assert_eq!(decide_failure(FailureStrategy::Skip, 2, &config), FailureAction::SkipEvent);
    assert_eq!(
        decide_failure(FailureStrategy::Retry, 0, &config),
        FailureAction::RetryAfter { retry: 1, delay: 100_000_000 }
    );
    assert_eq!(
        decide_failure(FailureStrategy::Retry, 2, &config),
        FailureAction::RetryAfter { retry: 3, delay: 400_000_000 }
    );
    assert_eq!(decide_failure(FailureStrategy::Retry, 3, &config), FailureAction::GiveUp);
}

#[test]
fn fatal_failure_stops_and_skip_goes_on() {
    let (mut pipeline, _, _) = ProjectionRunner::new(summer(FailureStrategy::Fatal), ()).into_pipeline();
    let _ = pipeline.step();
    let step = pipeline.resume(ProjectionEffectResult::EventsRead(Ok(vec![(Num(-1), 1)])));
    assert_eq!(
        step,
        ProjectionStep::Done(Err(ProjectionError::Failed("projector apply failed".to_string())))
    );

    let (mut pipeline, _, _) = ProjectionRunner::new(summer(FailureStrategy::Skip), ()).into_pipeline();
    let _ = pipeline.step();
    let step = pipeline.resume(ProjectionEffectResult::EventsRead(Ok(vec![(Num(-1), 1), (Num(5), 2)])));
    assert_eq!(step, ProjectionStep::Done(Ok(())));
    assert_eq!(pipeline.last_checkpoint(), Some(2));
}

#[test]
fn retries_wait_with_backoff_then_give_up() {
    let projector = summer(FailureStrategy::Retry);
    let calls = projector.calls.clone();
    let (mut pipeline, _, _) = ProjectionRunner::new(projector, ()).into_pipeline();
    let _ = pipeline.step();
    let mut step = pipeline.resume(ProjectionEffectResult::EventsRead(Ok(vec![(Num(-1), 1)])));
    let mut waits = Vec::new();
    while let ProjectionStep::Yield(ProjectionEffect::Sleep { duration }) = step {
        waits.push(duration);
        step = pipeline.resume(ProjectionEffectResult::Slept);
    }
    assert_eq!(waits, vec![100_000_000, 200_000_000, 400_000_000]);
    assert_eq!(pipeline.phase(), PipelinePhase::Done);
    assert_eq!(calls.get(), 4);
    assert_eq!(
        step,
        ProjectionStep::Done(Err(ProjectionError::Failed("projector apply failed after max retries".to_string())))
    );
}

#[test]
fn read_failures_back_off_until_the_limit() {
    let config = PollConfig { max_consecutive_poll_failures: 2, ..PollConfig::default() };
    let (mut pipeline, _, _) =
        ProjectionRunner::new(summer(FailureStrategy::Fatal), ()).with_poll_config(config).into_pipeline();
    let _ = pipeline.step();
    let step = pipeline.resume(ProjectionEffectResult::EventsRead(Err("down".to_string())));
    assert_eq!(step, ProjectionStep::Yield(ProjectionEffect::Sleep { duration: 100_000_000 }));
    let step = pipeline.resume(ProjectionEffectResult::Slept);
    assert!(matches!(step, ProjectionStep::Yield(ProjectionEffect::ReadEvents { .. })));
    let step = pipeline.resume(ProjectionEffectResult::EventsRead(Err("down".to_string())));
    assert!(matches!(step, ProjectionStep::Yield(ProjectionEffect::Sleep { .. })));
    let _ = pipeline.resume(ProjectionEffectResult::Slept);
    let step = pipeline.resume(ProjectionEffectResult::EventsRead(Err("down".to_string())));
    assert_eq!(
        step,
        ProjectionStep::Done(Err(ProjectionError::Failed("failed to read events after max retries".to_string())))
    );
}

#[test]
fn continuous_mode_sleeps_between_polls() {
    let (mut pipeline, _, _) = ProjectionRunner::new(summer(FailureStrategy::Fatal), ())
        .with_poll_mode(PollMode::Continuous)
        .into_pipeline();
    let _ = pipeline.step();
    let step = pipeline.resume(ProjectionEffectResult::EventsRead(Ok(vec![])));
    assert_eq!(step, ProjectionStep::Yield(ProjectionEffect::Sleep { duration: 50_000_000 }));
    let step = pipeline.resume(ProjectionEffectResult::Slept);
    assert!(matches!(step, ProjectionStep::Yield(ProjectionEffect::ReadEvents { .. })));
    let step = pipeline.resume(ProjectionEffectResult::EventsRead(Ok(vec![(Num(1), 3)])));
    assert_eq!(step, ProjectionStep::Yield(ProjectionEffect::Sleep { duration: 100_000_000 }));
}

#[test]
fn retry_delays_grow_and_are_capped() {
    let config = EventRetryConfig {
        max_retry_attempts: 10,
        retry_delay: 1_000_000,
        retry_backoff_multiplier: BackoffMultiplier::try_new(3000).unwrap(),
        max_retry_delay: 20_000_000,
    };
    assert_eq!(retry_delay(&config, 1), 1_000_000);
    assert_eq!(retry_delay(&config, 2), 3_000_000);
    assert_eq!(retry_delay(&config, 3), 9_000_000);
    assert_eq!(retry_delay(&config, 4), 20_000_000);
    assert_eq!(retry_delay(&config, 9), 20_000_000);
    assert!(BackoffMultiplier::try_new(999).is_none());
}

#[test]
fn retry_delays_are_whole_milliseconds() {
    let config = EventRetryConfig {
        max_retry_attempts: 10,
        retry_delay: 100_400_000,
        retry_backoff_multiplier: BackoffMultiplier::try_new(1500).unwrap(),
        max_retry_delay: 5_000_000_000,
    };
    assert_eq!(retry_delay(&config, 1), 100_000_000);
    assert_eq!(retry_delay(&config, 4), 337_000_000);
}

#[test]
fn no_checkpoint_store_keeps_nothing() {
    let store = NoCheckpointStore;
    assert_eq!(store.load("any").unwrap(), None);
    assert!(store.save("any", 3).is_ok());
    assert_eq!(NoCheckpointError.message(), "no checkpoint store configured");
    assert_eq!(
        ProjectionError::LeadershipError("taken".to_string()).message(),
        "failed to acquire leadership: taken"
    );
}
