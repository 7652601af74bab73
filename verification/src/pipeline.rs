//! The projection pipeline: a pure state machine that drives a projector over
//! the events of a store.
//!
//! The pipeline never performs I/O itself. Each call of [`ProjectionPipeline::step`]
//! or [`ProjectionPipeline::resume`] either yields a [`ProjectionEffect`] (read
//! events, load or save a checkpoint, sleep) for the caller to perform, or
//! reports that the projection is done. The caller hands the outcome of the
//! effect back with `resume`.

use vstd::prelude::*;

verus! {

/// The number of events requested per read.
pub const EVENT_PAGE_SIZE: usize = 1000;

/// Polling mode for projection runners.
#[derive(Debug, Clone, Copy, PartialEq, Eq, Structural)]
pub enum PollMode {
    /// Process the available events once, then stop.
    Batch,
    /// Keep polling for new events until stopped.
    Continuous,
}

/// Configuration for projection polling behavior. Durations are in
/// nanoseconds.
#[derive(Debug, Clone, PartialEq, Eq, Structural)]
pub struct PollConfig {
    /// Interval between polls when events are available.
    pub poll_interval: u64,
    /// Delay before the next poll when no events were found.
    pub empty_poll_backoff: u64,
    /// Delay before the next poll after a failed read.
    pub poll_failure_backoff: u64,
    /// Number of failed reads in a row that are retried before the
    /// projection stops.
    pub max_consecutive_poll_failures: u32,
}

impl PollConfig {
    /// The default polling configuration: poll every 100ms, back off 50ms
    /// after an empty poll and 100ms after a failed one, and give up after
    /// five failed reads in a row.
    pub fn default_config() -> (c: Self)
        ensures
            c.poll_interval == 100_000_000,
            c.empty_poll_backoff == 50_000_000,
            c.poll_failure_backoff == 100_000_000,
            c.max_consecutive_poll_failures == 5,
    {
        PollConfig {
            poll_interval: 100_000_000,
            empty_poll_backoff: 50_000_000,
            poll_failure_backoff: 100_000_000,
            max_consecutive_poll_failures: 5,
        }
    }
}

impl Default for PollConfig {
    fn default() -> (c: Self)
        ensures
            c.poll_interval == 100_000_000,
            c.empty_poll_backoff == 50_000_000,
            c.poll_failure_backoff == 100_000_000,
            c.max_consecutive_poll_failures == 5,
    {
        PollConfig::default_config()
    }
}

/// Exponential backoff multiplier, in thousandths (2000 is a factor of 2.0).
/// It is never below 1000, so that delays never shrink.
#[derive(Debug, Clone, Copy, PartialEq, Eq, Structural)]
pub struct BackoffMultiplier {
    permille: u64,
}

impl BackoffMultiplier {
    /// The factor in thousandths.
    pub closed spec fn spec_permille(self) -> u64 {
        self.permille
    }

    /// A multiplier of `permille / 1000`, or `None` when it is below 1.0.
    pub fn try_new(permille: u64) -> (m: Option<Self>)
        ensures
            m.is_some() <==> permille >= 1000,
            m.is_some() ==> m.unwrap().spec_permille() == permille,
    {
        if permille >= 1000 {
            Some(BackoffMultiplier { permille })
        } else {
            None
        }
    }

    /// The factor in thousandths.
    pub fn into_inner(self) -> (p: u64)
        ensures
            p == self.spec_permille(),
            p >= 1000,
    {
        proof {
            use_type_invariant(self);
        }
        self.permille
    }

    #[verifier::type_invariant]
    spec fn at_least_one(self) -> bool {
        self.permille >= 1000
    }
}

/// Configuration for event retry behavior. Durations are in nanoseconds.
#[derive(Debug, Clone, PartialEq, Eq, Structural)]
pub struct EventRetryConfig {
    /// Maximum number of retry attempts before the failure becomes fatal.
    pub max_retry_attempts: u32,
    /// Delay before the first retry.
    pub retry_delay: u64,
    /// Growth of the delay from one retry to the next.
    pub retry_backoff_multiplier: BackoffMultiplier,
    /// Upper bound of the delay between retries.
    pub max_retry_delay: u64,
}

impl EventRetryConfig {
    /// The default retry configuration: three retries, starting at 100ms and
    /// doubling, capped at 5s.
    pub fn default_config() -> (c: Self)
        ensures
            c.max_retry_attempts == 3,
            c.retry_delay == 100_000_000,
            c.retry_backoff_multiplier.spec_permille() == 2000,
            c.max_retry_delay == 5_000_000_000,
    {
        EventRetryConfig {
            max_retry_attempts: 3,
            retry_delay: 100_000_000,
            retry_backoff_multiplier: BackoffMultiplier { permille: 2000 },
            max_retry_delay: 5_000_000_000,
        }
    }
}

impl Default for EventRetryConfig {
    fn default() -> (c: Self)
        ensures
            c.max_retry_attempts == 3,
            c.retry_delay == 100_000_000,
            c.retry_backoff_multiplier.spec_permille() == 2000,
            c.max_retry_delay == 5_000_000_000,
    {
        EventRetryConfig::default_config()
    }
}

/// `ns` nanoseconds cut down to whole milliseconds.
pub open spec fn whole_millis(ns: nat) -> nat {
    ns / 1_000_000 * 1_000_000
}

/// The uncapped delay before retry number `k + 1`: the base delay grown `k`
/// times by the multiplier, rounding down to the nanosecond at each step.
pub open spec fn grown_delay(base: nat, permille: nat, k: nat) -> nat
    decreases k,
{
    if k == 0 {
        base
    } else {
        grown_delay(base, permille, (k - 1) as nat) * permille / 1000
    }
}

/// The delay before retry number `retry` (counted from 1) under `config`:
/// the base delay in whole milliseconds, grown once per earlier retry, cut
/// down to whole milliseconds and capped at the maximum delay.
pub open spec fn retry_delay_for(config: EventRetryConfig, retry: nat) -> nat
    recommends
        retry >= 1,
{
    let g = whole_millis(
        grown_delay(
            whole_millis(config.retry_delay as nat),
            config.retry_backoff_multiplier.spec_permille() as nat,
            (retry - 1) as nat,
        ),
    );
    if g < config.max_retry_delay {
        g
    } else {
        config.max_retry_delay as nat
    }
}

proof fn lemma_grown_delay_monotone(base: nat, permille: nat, k: nat)
    requires
        permille >= 1000,
    ensures
        grown_delay(base, permille, k) <= grown_delay(base, permille, k + 1),
{
    let g = grown_delay(base, permille, k);
    assert(g * permille / 1000 >= g) by (nonlinear_arith)
        requires
            permille >= 1000,
    {
        assert(g * permille >= g * 1000);
    }
}

proof fn lemma_whole_millis_monotone(a: nat, b: nat)
    requires
        a <= b,
    ensures
        whole_millis(a) <= whole_millis(b),
        whole_millis(a) <= a,
        a < whole_millis(a) + 1_000_000,
{
    assert(a / 1_000_000 <= b / 1_000_000) by (nonlinear_arith)
        requires
            a <= b,
    ;
    assert(a / 1_000_000 * 1_000_000 <= b / 1_000_000 * 1_000_000) by (nonlinear_arith)
        requires
            a / 1_000_000 <= b / 1_000_000,
    ;
    assert(a / 1_000_000 * 1_000_000 <= a < a / 1_000_000 * 1_000_000 + 1_000_000) by (nonlinear_arith);
}

/// The delay before a retry never exceeds the maximum delay, and never
/// shrinks from one retry to the next.
pub proof fn lemma_retry_delay_capped_and_monotone(config: EventRetryConfig, retry: nat)
    requires
        retry >= 1,
        config.retry_backoff_multiplier.spec_permille() >= 1000,
    ensures
        retry_delay_for(config, retry) <= config.max_retry_delay,
        retry_delay_for(config, retry) <= retry_delay_for(config, retry + 1),
{
    let b = whole_millis(config.retry_delay as nat);
    let p = config.retry_backoff_multiplier.spec_permille() as nat;
    lemma_grown_delay_monotone(b, p, (retry - 1) as nat);
    lemma_whole_millis_monotone(grown_delay(b, p, (retry - 1) as nat), grown_delay(b, p, retry as nat));
}

/// Computes the delay before retry number `retry` (counted from 1): the base
/// delay in whole milliseconds grown by the multiplier once per earlier
/// retry, cut down to whole milliseconds and capped at the maximum delay.
pub fn retry_delay(config: &EventRetryConfig, retry: u32) -> (d: u64)
    requires
        retry >= 1,
    ensures
        d == retry_delay_for(*config, retry as nat),
{
    let permille = config.retry_backoff_multiplier.into_inner();
    let cap = config.max_retry_delay;
    let base = config.retry_delay / 1_000_000 * 1_000_000;
    // Growth is followed up to one millisecond past the cap: beyond that
    // every delay is capped.
    let limit: u128 = cap as u128 + 1_000_000;
    let ghost b = base as nat;
    let ghost p = permille as nat;
    proof {
        assert(b == whole_millis(config.retry_delay as nat));
    }
    let mut d: u128 = if (base as u128) < limit {
        base as u128
    } else {
        limit
    };
    let mut k: u32 = 0;
    while k < retry - 1
        invariant
            k <= retry - 1,
            p >= 1000,
            permille == p,
            limit == cap + 1_000_000,
            d as nat == (if grown_delay(b, p, k as nat) < limit {
                grown_delay(b, p, k as nat)
            } else {
                limit as nat
            }),
        decreases retry - 1 - k,
    {
        proof {
            lemma_grown_delay_monotone(b, p, k as nat);
        }
        let grown: u128 = match d.checked_mul(permille as u128) {
            Some(prod) => prod / 1000,
            None => {
                proof {
                    assert(d * p / 1000 >= limit) by (nonlinear_arith)
                        requires
                            d * p > 0xFFFF_FFFF_FFFF_FFFF_FFFF_FFFF_FFFF_FFFFu128,
                            limit <= 0x1_0000_0000_000F_4240u128,
                    ;
                }
                limit
            },
        };
        proof {
            let g = grown_delay(b, p, k as nat);
            assert(grown_delay(b, p, (k + 1) as nat) == g * p / 1000);
            if g >= limit {
                assert(d == limit);
                assert(limit as nat * p / 1000 >= limit as nat) by (nonlinear_arith)
                    requires
                        p >= 1000,
                {
                    assert(limit as nat * p >= limit as nat * 1000);
                }
            }
        }
        proof {
            let g = grown_delay(b, p, k as nat);
            assert(grown < limit ==> grown == d * p / 1000);
            assert(grown >= limit ==> d * p / 1000 >= limit);
        }
        d = if grown < limit {
            grown
        } else {
            limit
        };
        k = k + 1;
    }
    let ms: u128 = d / 1_000_000 * 1_000_000;
    proof {
        let g = grown_delay(b, p, k as nat);
        lemma_whole_millis_monotone(d as nat, g);
        if g >= limit {
            lemma_whole_millis_monotone(limit as nat, g);
        }
    }
    if ms < cap as u128 {
        ms as u64
    } else {
        cap
    }
}

/// What a projector asks for when applying an event failed.
#[derive(Debug, Clone, Copy, PartialEq, Eq, Structural)]
pub enum FailureStrategy {
    /// Stop processing and report an error.
    Fatal,
    /// Skip the event and continue with the next one.
    Skip,
    /// Apply the event again after a delay.
    Retry,
}

/// What the pipeline does about an event whose application failed.
#[derive(Debug, Clone, Copy, PartialEq, Eq, Structural)]
pub enum FailureAction {
    /// Stop with the error `projector apply failed`.
    Stop,
    /// Stop with the error `projector apply failed after max retries`.
    GiveUp,
    /// Pass over the event.
    SkipEvent,
    /// Wait `delay` nanoseconds, then apply the event again, as its retry
    /// number `retry`.
    RetryAfter { retry: u32, delay: u64 },
}

/// The action for a failed event when the projector answered `strategy`
/// after `retry_count` retries of it: a retry is granted while fewer than
/// the maximum number of retries were made.
pub open spec fn failure_action_for(strategy: FailureStrategy, retry_count: nat, config: EventRetryConfig) -> FailureAction {
    match strategy {
        FailureStrategy::Fatal => FailureAction::Stop,
        FailureStrategy::Skip => FailureAction::SkipEvent,
        FailureStrategy::Retry => if retry_count >= config.max_retry_attempts {
            FailureAction::GiveUp
        } else {
            FailureAction::RetryAfter {
                retry: (retry_count + 1) as u32,
                delay: retry_delay_for(config, retry_count + 1) as u64,
            }
        },
    }
}

/// Decides what to do about a failed event from the projector's answer
/// `strategy` and the number of retries of the event so far.
pub fn decide_failure(strategy: FailureStrategy, retry_count: u32, config: &EventRetryConfig) -> (a: FailureAction)
    ensures
        a == failure_action_for(strategy, retry_count as nat, *config),
{
    match strategy {
        FailureStrategy::Fatal => FailureAction::Stop,
        FailureStrategy::Skip => FailureAction::SkipEvent,
        FailureStrategy::Retry => {
            if retry_count >= config.max_retry_attempts {
                FailureAction::GiveUp
            } else {
                let retry = retry_count + 1;
                let delay = retry_delay(config, retry);
                FailureAction::RetryAfter { retry, delay }
            }
        },
    }
}

/// Errors that end a projection.
#[derive(Debug, Clone, PartialEq, Eq)]
pub enum ProjectionError {
    /// The projection failed.
    Failed(String),
    /// Leadership for the projector could not be acquired.
    LeadershipError(String),
}

/// The message of a projection error.
pub open spec fn projection_error_text(e: ProjectionError) -> Seq<char> {
    match e {
        ProjectionError::Failed(m) => "projection failed: "@ + m@,
        ProjectionError::LeadershipError(m) => "failed to acquire leadership: "@ + m@,
    }
}

impl ProjectionError {
    /// The message of the error.
    pub fn message(&self) -> (s: String)
        ensures
            s@ == projection_error_text(*self),
    {
        match self {
            ProjectionError::Failed(m) => "projection failed: ".to_owned().concat(m.as_str()),
            ProjectionError::LeadershipError(m) => "failed to acquire leadership: ".to_owned().concat(m.as_str()),
        }
    }
}

/// An event type that can be projected.
pub trait Event: Clone {
    /// The name under which events of this type are stored.
    fn event_type_name() -> String;
}

/// A projector turns events into a read model.
pub trait Projector {
    /// The events it consumes.
    type Event: Event;
    /// The error it reports when applying an event fails.
    type Error;
    /// Working state that lives for the duration of a run.
    type Context: Default;

    /// The projector's name, under which its checkpoint is stored.
    fn name(&self) -> String;

    /// Applies one event found at `position`.
    fn apply(&mut self, event: Self::Event, position: u64, ctx: &mut Self::Context) -> Result<(), Self::Error>;

    /// Decides what to do about a failed application of the event at
    /// `position`, after `retry_count` retries of it.
    fn on_error(&mut self, error: &Self::Error, position: u64, retry_count: u32) -> FailureStrategy;
}

/// Effects yielded by the projection pipeline.
#[derive(Debug, Clone, PartialEq, Eq)]
pub enum ProjectionEffect {
    /// Read up to `limit` events stored after `after_position` (from the
    /// start when it is `None`): those of type `event_type`, or of every type
    /// when it is `None`.
    ReadEvents { event_type: Option<String>, after_position: Option<u64>, limit: usize },
    /// Load the last checkpoint of the projector `name`.
    LoadCheckpoint { name: String },
    /// Save `position` as the checkpoint of the projector `name`.
    SaveCheckpoint { name: String, position: u64 },
    /// Sleep for `duration` nanoseconds.
    Sleep { duration: u64 },
}

/// The outcome of a [`ProjectionEffect`], handed back to the pipeline.
pub enum ProjectionEffectResult<E> {
    /// Events read from the store, each with its position.
    EventsRead(Result<Vec<(E, u64)>, String>),
    /// The checkpoint that was loaded, if any.
    CheckpointLoaded(Result<Option<u64>, String>),
    /// Whether the checkpoint was saved.
    CheckpointSaved(Result<(), String>),
    /// The sleep is over.
    Slept,
}

/// What one step of the pipeline produced.
#[derive(Debug, PartialEq, Eq)]
pub enum ProjectionStep {
    /// An effect for the caller to perform before calling `resume`.
    Yield(ProjectionEffect),
    /// The projection has finished, successfully or not.
    Done(Result<(), ProjectionError>),
}

/// The phase of a pipeline.
#[derive(Debug, Clone, Copy, PartialEq, Eq, Structural)]
pub enum PipelinePhase {
    LoadCheckpoint,
    AwaitingCheckpoint,
    PollEvents,
    AwaitingEvents,
    ProcessingEvents,
    AwaitingCheckpointSave,
    AwaitingSkipCheckpointSave,
    AwaitingEventRetrySleep,
    AwaitingPollFailureSleep,
    AwaitingPollSleep,
    Done,
}

/// The abstract state of a pipeline: its phase, the positions of the events
/// of the current batch, and its counters.
pub struct PipelineState {
    pub phase: PipelinePhase,
    pub positions: Seq<u64>,
    pub event_index: int,
    pub retry_count: int,
    pub last_checkpoint: Option<u64>,
    pub consecutive_failures: int,
}

/// Whether `phase` is one in which `step` may be called.
pub open spec fn is_ready_phase(phase: PipelinePhase) -> bool {
    phase == PipelinePhase::LoadCheckpoint || phase == PipelinePhase::PollEvents || phase
        == PipelinePhase::ProcessingEvents
}

/// Whether `phase` waits for the outcome of an effect.
pub open spec fn is_awaiting_phase(phase: PipelinePhase) -> bool {
    !is_ready_phase(phase) && phase != PipelinePhase::Done
}

/// Whether `result` is the kind of outcome that `phase` waits for.
pub open spec fn result_fits<E>(phase: PipelinePhase, result: ProjectionEffectResult<E>) -> bool {
    match phase {
        PipelinePhase::AwaitingCheckpoint => result is CheckpointLoaded,
        PipelinePhase::AwaitingEvents => result is EventsRead,
        PipelinePhase::AwaitingCheckpointSave => result is CheckpointSaved,
        PipelinePhase::AwaitingSkipCheckpointSave => result is CheckpointSaved,
        PipelinePhase::AwaitingEventRetrySleep => result is Slept,
        PipelinePhase::AwaitingPollFailureSleep => result is Slept,
        PipelinePhase::AwaitingPollSleep => result is Slept,
        _ => false,
    }
}

/// The positions of a batch of read events.
pub open spec fn positions_of<E>(events: Seq<(E, u64)>) -> Seq<u64> {
    events.map_values(|e: (E, u64)| e.1)
}

/// Whether `s` is a failure whose message is `msg`.
pub open spec fn fails_with(s: ProjectionStep, msg: Seq<char>) -> bool {
    s matches ProjectionStep::Done(Err(ProjectionError::Failed(m))) && m@ == msg
}

/// What holds after `step` is called in state `pre`: `post` is the state
/// after the call, `out` what it returned, and `answers` the answers of the
/// projector to the applications the call made, in order.
pub open spec fn step_post(
    pre: PipelineState,
    post: PipelineState,
    out: ProjectionStep,
    answers: Seq<Option<FailureStrategy>>,
    name: Seq<char>,
    event_type: Seq<char>,
    standalone: bool,
    has_store: bool,
    mode: PollMode,
    poll: PollConfig,
    retry: EventRetryConfig,
) -> bool {
    match pre.phase {
        PipelinePhase::LoadCheckpoint => {
            &&& answers.len() == 0
            &&& out matches ProjectionStep::Yield(ProjectionEffect::LoadCheckpoint { name: n })
                && n@ == name
            &&& post == PipelineState { phase: PipelinePhase::AwaitingCheckpoint, ..pre }
        },
        PipelinePhase::PollEvents => {
            &&& answers.len() == 0
            &&& out matches ProjectionStep::Yield(
                ProjectionEffect::ReadEvents { event_type: t, after_position: a, limit: l },
            ) && (match t {
                None => standalone,
                Some(t) => !standalone && t@ == event_type,
            }) && a == pre.last_checkpoint && l == EVENT_PAGE_SIZE
            &&& post == PipelineState { phase: PipelinePhase::AwaitingEvents, ..pre }
        },
        PipelinePhase::ProcessingEvents => processing_post(pre, post, out, answers, name, has_store, mode, poll, retry),
        _ => false,
    }
}

/// What taking a successful application, or a skip, of the current event
/// leaves: the event's position becomes the checkpoint; with a checkpoint
/// store the pipeline yields its save and waits in `wait_phase`, else it moves
/// on to the next event.
pub open spec fn passed_post(
    pre: PipelineState,
    post: PipelineState,
    out: Option<ProjectionStep>,
    name: Seq<char>,
    has_store: bool,
    wait_phase: PipelinePhase,
) -> bool {
    let position = pre.positions[pre.event_index];
    &&& post.last_checkpoint == Some(position)
    &&& post.positions == pre.positions
    &&& post.consecutive_failures == pre.consecutive_failures
    &&& if has_store {
        &&& out matches Some(
            ProjectionStep::Yield(ProjectionEffect::SaveCheckpoint { name: n, position: p }),
        ) && n@ == name && p == position
        &&& post.phase == wait_phase
        &&& post.event_index == pre.event_index
        &&& post.retry_count == pre.retry_count
    } else {
        &&& out is None
        &&& post.phase == PipelinePhase::ProcessingEvents
        &&& post.event_index == pre.event_index + 1
        &&& post.retry_count == 0
    }
}

/// What carrying out `action` for the failed current event leaves.
pub open spec fn failure_post(
    pre: PipelineState,
    post: PipelineState,
    out: Option<ProjectionStep>,
    action: FailureAction,
    name: Seq<char>,
    has_store: bool,
) -> bool {
    match action {
        FailureAction::Stop => {
            &&& out matches Some(s) && fails_with(s, "projector apply failed"@)
            &&& post == PipelineState { phase: PipelinePhase::Done, ..pre }
        },
        FailureAction::GiveUp => {
            &&& out matches Some(s) && fails_with(s, "projector apply failed after max retries"@)
            &&& post == PipelineState { phase: PipelinePhase::Done, ..pre }
        },
        FailureAction::SkipEvent => passed_post(
            pre,
            post,
            out,
            name,
            has_store,
            PipelinePhase::AwaitingSkipCheckpointSave,
        ),
        FailureAction::RetryAfter { retry, delay } => {
            &&& out == Some(ProjectionStep::Yield(ProjectionEffect::Sleep { duration: delay }))
            &&& post == PipelineState {
                phase: PipelinePhase::AwaitingEventRetrySleep,
                retry_count: retry as int,
                ..pre
            }
        },
    }
}

/// Whether the answer to an application lets processing pass on to the
/// next event: the event was applied, or the projector asked to skip it.
pub open spec fn passes_on(answer: Option<FailureStrategy>) -> bool {
    answer is None || answer == Some(FailureStrategy::Skip)
}

/// What taking the projector's `answer` for the current event leaves: `None`
/// when `apply` succeeded, else what `on_error` answered, which decides the
/// action by [`failure_action_for`].
pub open spec fn reacts(
    pre: PipelineState,
    post: PipelineState,
    out: Option<ProjectionStep>,
    answer: Option<FailureStrategy>,
    name: Seq<char>,
    has_store: bool,
    retry: EventRetryConfig,
) -> bool {
    match answer {
        None => passed_post(pre, post, out, name, has_store, PipelinePhase::AwaitingCheckpointSave),
        Some(s) => failure_post(pre, post, out, failure_action_for(s, pre.retry_count as nat, retry), name, has_store),
    }
}

/// The state in which processing that started in `pre` reaches the event at
/// index `k`: the events before it were passed on, so the checkpoint is the
/// last of them and no retry of the event was made.
pub open spec fn state_at(pre: PipelineState, k: int) -> PipelineState {
    if k == pre.event_index {
        PipelineState { phase: PipelinePhase::ProcessingEvents, ..pre }
    } else {
        PipelineState {
            phase: PipelinePhase::ProcessingEvents,
            event_index: k,
            retry_count: 0,
            last_checkpoint: Some(pre.positions[k - 1]),
            ..pre
        }
    }
}

/// What holds after the events of the current batch were processed from
/// `pre.event_index` on, with `answers` the projector's answers to the
/// applications, in order: each event the processing passed on was applied
/// or skipped without a checkpoint store; processing stopped at the event
/// `post.event_index` as [`reacts`] says for the last answer, or ran through
/// the batch and then ends (in batch mode) or sleeps before the next poll.
pub open spec fn processing_post(
    pre: PipelineState,
    post: PipelineState,
    out: ProjectionStep,
    answers: Seq<Option<FailureStrategy>>,
    name: Seq<char>,
    has_store: bool,
    mode: PollMode,
    poll: PollConfig,
    retry: EventRetryConfig,
) -> bool {
    let len = pre.positions.len();
    let k = post.event_index;
    &&& pre.event_index <= k <= len
    &&& answers.len() == (if k < len {
        k + 1
    } else {
        k
    }) - pre.event_index
    &&& k > pre.event_index ==> !has_store
    &&& forall|i: int| 0 <= i < k - pre.event_index ==> passes_on(#[trigger] answers[i])
    &&& if k < len {
        reacts(state_at(pre, k), post, Some(out), answers.last(), name, has_store, retry)
    } else {
        &&& post == PipelineState { phase: post.phase, ..state_at(pre, len as int) }
        &&& match out {
            ProjectionStep::Done(Ok(())) => mode == PollMode::Batch && post.phase == PipelinePhase::Done,
            ProjectionStep::Yield(ProjectionEffect::Sleep { duration }) => {
                &&& mode == PollMode::Continuous
                &&& post.phase == PipelinePhase::AwaitingPollSleep
                &&& duration == if len > 0 {
                    poll.poll_interval
                } else {
                    poll.empty_poll_backoff
                }
            },
            _ => false,
        }
    }
}

/// When every application the processing makes succeeds: without a
/// checkpoint store, a batch run goes through the whole batch and ends
/// successfully, the checkpoint at the batch's last event; with one, the
/// first event is applied and its position saved as the checkpoint.
pub proof fn lemma_successful_processing(
    pre: PipelineState,
    post: PipelineState,
    out: ProjectionStep,
    answers: Seq<Option<FailureStrategy>>,
    name: Seq<char>,
    has_store: bool,
    poll: PollConfig,
    retry: EventRetryConfig,
)
    requires
        processing_post(pre, post, out, answers, name, has_store, PollMode::Batch, poll, retry),
        forall|i: int| 0 <= i < answers.len() ==> #[trigger] answers[i] is None,
        pre.event_index < pre.positions.len(),
    ensures
        !has_store ==> {
            &&& out matches ProjectionStep::Done(Ok(()))
            &&& post.phase == PipelinePhase::Done
            &&& post.event_index == pre.positions.len()
            &&& post.last_checkpoint == Some(pre.positions.last())
        },
        has_store ==> {
            &&& out matches ProjectionStep::Yield(ProjectionEffect::SaveCheckpoint { name: n, position: p })
                && n@ == name && p == pre.positions[pre.event_index]
            &&& post.phase == PipelinePhase::AwaitingCheckpointSave
            &&& post.event_index == pre.event_index
            &&& post.last_checkpoint == Some(pre.positions[pre.event_index])
        },
{
    let len = pre.positions.len();
    let k = post.event_index;
    if k < len {
        assert(answers[answers.len() - 1] is None);
        if !has_store {
            assert(false);
        }
    } else if !has_store {
        assert(state_at(pre, len as int).last_checkpoint == Some(pre.positions[len - 1]));
        assert(out matches ProjectionStep::Done(Ok(())));
        assert(post.phase == PipelinePhase::Done);
    }
}

/// The state that `resume` moves to when `result` arrives in state `pre`,
/// before it steps on.
pub open spec fn resumed_state<E>(
    pre: PipelineState,
    result: ProjectionEffectResult<E>,
    max_failures: u32,
    standalone: bool,
) -> PipelineState {
    match pre.phase {
        PipelinePhase::AwaitingCheckpoint => match result {
            ProjectionEffectResult::CheckpointLoaded(Ok(cp)) => PipelineState {
                phase: PipelinePhase::PollEvents,
                last_checkpoint: cp,
                consecutive_failures: 0,
                ..pre
            },
            _ => if standalone {
                PipelineState {
                    phase: PipelinePhase::PollEvents,
                    last_checkpoint: None,
                    consecutive_failures: 0,
                    ..pre
                }
            } else {
                PipelineState { phase: PipelinePhase::Done, ..pre }
            },
        },
        PipelinePhase::AwaitingEvents => match result {
            ProjectionEffectResult::EventsRead(Ok(events)) => PipelineState {
                phase: PipelinePhase::ProcessingEvents,
                positions: positions_of(events@),
                event_index: 0,
                retry_count: 0,
                consecutive_failures: 0,
                ..pre
            },
            _ => if pre.consecutive_failures >= max_failures {
                PipelineState { phase: PipelinePhase::Done, ..pre }
            } else {
                PipelineState {
                    phase: PipelinePhase::AwaitingPollFailureSleep,
                    consecutive_failures: pre.consecutive_failures + 1,
                    ..pre
                }
            },
        },
        PipelinePhase::AwaitingCheckpointSave | PipelinePhase::AwaitingSkipCheckpointSave => {
            PipelineState {
                phase: PipelinePhase::ProcessingEvents,
                event_index: pre.event_index + 1,
                retry_count: 0,
                ..pre
            }
        },
        PipelinePhase::AwaitingEventRetrySleep => PipelineState {
            phase: PipelinePhase::ProcessingEvents,
            ..pre
        },
        PipelinePhase::AwaitingPollFailureSleep => PipelineState {
            phase: PipelinePhase::PollEvents,
            ..pre
        },
        PipelinePhase::AwaitingPollSleep => PipelineState {
            phase: PipelinePhase::PollEvents,
            consecutive_failures: 0,
            ..pre
        },
        _ => pre,
    }
}

/// The state a pipeline starts in: loading the checkpoint when there is a
/// checkpoint store, else polling from the beginning, with no batch.
pub open spec fn initial_state(has_store: bool) -> PipelineState {
    PipelineState {
        phase: if has_store {
            PipelinePhase::LoadCheckpoint
        } else {
            PipelinePhase::PollEvents
        },
        positions: Seq::empty(),
        event_index: 0,
        retry_count: 0,
        last_checkpoint: None,
        consecutive_failures: 0,
    }
}

/// One call of the projector's `apply`: a clone of the event handed to it,
/// its position, the number of earlier retries of it, and the answer:
/// `None` when the event was applied, else what `on_error` answered, with
/// the same position and retry count, for the failure.
pub struct ApplyCall<E> {
    pub event: E,
    pub position: u64,
    pub retry_count: u32,
    pub answer: Option<FailureStrategy>,
}

/// Whether `call` is the call of the projector's `apply` made for the
/// `i`-th event processed from index `from` of the batch `events`: a clone of
/// the event, its position, and the number of earlier retries of it, which
/// is `first_retry` for the first event and none for the others.
pub open spec fn handed_to_apply<E: Clone>(
    events: Seq<(E, u64)>,
    from: int,
    i: int,
    first_retry: int,
    call: ApplyCall<E>,
) -> bool {
    &&& cloned(events[from + i].0, call.event)
    &&& call.position == events[from + i].1
    &&& call.retry_count == if i == 0 {
        first_retry
    } else {
        0
    }
}

/// Whether `log` holds, after `pre_log`, exactly the calls of `apply` made
/// while processing the batch `events` from index `from` up to `to`.
pub open spec fn log_extends<E: Clone>(
    events: Seq<(E, u64)>,
    from: int,
    to: int,
    first_retry: int,
    pre_log: Seq<ApplyCall<E>>,
    log: Seq<ApplyCall<E>>,
) -> bool {
    &&& log.len() == pre_log.len() + (to - from)
    &&& log.subrange(0, pre_log.len() as int) == pre_log
    &&& forall|i: int|
        0 <= i < to - from ==> handed_to_apply(events, from, i, first_retry, #[trigger] log[pre_log.len() + i])
}

/// The projector's answers to the calls in `log` after those in `pre_log`.
pub open spec fn answers_after<E>(pre_log: Seq<ApplyCall<E>>, log: Seq<ApplyCall<E>>) -> Seq<Option<FailureStrategy>> {
    log.subrange(pre_log.len() as int, log.len() as int).map_values(|c: ApplyCall<E>| c.answer)
}

/// The index just past the last event that processing reached: the end of
/// the batch when it was exhausted, else the event it stopped at.
pub open spec fn processed_end(post: PipelineState) -> int {
    if post.event_index == post.positions.len() {
        post.event_index
    } else {
        post.event_index + 1
    }
}

/// How the log of `apply` calls grows when a pipeline goes from `pre` to
/// `post` over the batch `events`: only processing calls `apply`, once for
/// each event it reaches.
pub open spec fn applied_log_post<E: Clone>(
    events: Seq<(E, u64)>,
    pre: PipelineState,
    post: PipelineState,
    pre_log: Seq<ApplyCall<E>>,
    post_log: Seq<ApplyCall<E>>,
) -> bool {
    if pre.phase == PipelinePhase::ProcessingEvents {
        log_extends(events, pre.event_index, processed_end(post), pre.retry_count, pre_log, post_log)
    } else {
        post_log == pre_log
    }
}

/// Pure state machine for running a projector: polling, event processing,
/// retries and checkpoints. It yields a [`ProjectionEffect`] for every piece
/// of I/O.
pub struct ProjectionPipeline<P: Projector> {
    projector: P,
    name: String,
    event_type: String,
    standalone: bool,
    has_checkpoint_store: bool,
    poll_mode: PollMode,
    poll_config: PollConfig,
    event_retry_config: EventRetryConfig,
    phase: PipelinePhase,
    events: Vec<(P::Event, u64)>,
    event_index: usize,
    retry_count: u32,
    last_checkpoint: Option<u64>,
    consecutive_failures: u32,
    ctx: P::Context,
    applied: Ghost<Seq<ApplyCall<P::Event>>>,
}

impl<P: Projector> ProjectionPipeline<P> {
    /// The abstract state of the pipeline.
    pub closed spec fn state(&self) -> PipelineState {
        PipelineState {
            phase: self.phase,
            positions: positions_of(self.events@),
            event_index: self.event_index as int,
            retry_count: self.retry_count as int,
            last_checkpoint: self.last_checkpoint,
            consecutive_failures: self.consecutive_failures as int,
        }
    }

    /// The projector's name, as read when the pipeline was created.
    pub closed spec fn spec_name(&self) -> Seq<char> {
        self.name@
    }

    /// The projected event type's name, as read when the pipeline was created.
    pub closed spec fn spec_event_type(&self) -> Seq<char> {
        self.event_type@
    }

    /// The events of the current batch, each with its position.
    pub closed spec fn spec_events(&self) -> Seq<(P::Event, u64)> {
        self.events@
    }

    /// The calls of the projector's `apply` made so far, with what it was
    /// handed and what the projector answered.
    pub closed spec fn spec_applied(&self) -> Seq<ApplyCall<P::Event>> {
        self.applied@
    }

    /// Whether the pipeline runs as the standalone runner: it then reads the
    /// events of every type, takes a checkpoint that fails to load as
    /// absent, and reports a read that keeps failing without the store's
    /// message.
    pub closed spec fn spec_standalone(&self) -> bool {
        self.standalone
    }

    /// Whether a checkpoint store is configured.
    pub closed spec fn spec_has_store(&self) -> bool {
        self.has_checkpoint_store
    }

    /// The polling mode.
    pub closed spec fn spec_mode(&self) -> PollMode {
        self.poll_mode
    }

    /// The polling configuration.
    pub closed spec fn spec_poll(&self) -> PollConfig {
        self.poll_config
    }

    /// The retry configuration.
    pub closed spec fn spec_retry(&self) -> EventRetryConfig {
        self.event_retry_config
    }

    /// The invariant that every call keeps: the counters never exceed their
    /// limits and the event index stays within the batch.
    pub closed spec fn wf(&self) -> bool {
        &&& self.event_index <= self.events@.len()
        &&& self.retry_count <= self.event_retry_config.max_retry_attempts
        &&& self.consecutive_failures <= self.poll_config.max_consecutive_poll_failures
        &&& (self.phase == PipelinePhase::AwaitingCheckpointSave || self.phase
            == PipelinePhase::AwaitingSkipCheckpointSave || self.phase
            == PipelinePhase::AwaitingEventRetrySleep) ==> self.event_index < self.events@.len()
    }

    /// The pipeline of `projector`, running as the standalone runner when
    /// `standalone` is set.
    fn create(
        projector: P,
        standalone: bool,
        has_checkpoint_store: bool,
        poll_mode: PollMode,
        poll_config: PollConfig,
        event_retry_config: EventRetryConfig,
    ) -> (p: Self)
        ensures
            p.wf(),
            p.state() == initial_state(has_checkpoint_store),
            p.spec_events().len() == 0,
            p.spec_applied().len() == 0,
            exists|n: String| #[trigger] call_ensures(P::name, (&projector,), n) && p.spec_name() == n@,
            exists|t: String| #[trigger] call_ensures(P::Event::event_type_name, (), t) && p.spec_event_type() == t@,
            p.spec_standalone() == standalone,
            p.spec_has_store() == has_checkpoint_store,
            p.spec_mode() == poll_mode,
            p.spec_poll() == poll_config,
            p.spec_retry() == event_retry_config,
    {
        let name = projector.name();
        let event_type = P::Event::event_type_name();
        let phase = if has_checkpoint_store {
            PipelinePhase::LoadCheckpoint
        } else {
            PipelinePhase::PollEvents
        };
        let ghost named = call_ensures(P::name, (&projector,), name);
        let ghost typed = call_ensures(P::Event::event_type_name, (), event_type);
        let p = ProjectionPipeline {
            projector,
            name,
            event_type,
            standalone,
            has_checkpoint_store,
            poll_mode,
            poll_config,
            event_retry_config,
            phase,
            events: Vec::new(),
            event_index: 0,
            retry_count: 0,
            last_checkpoint: None,
            consecutive_failures: 0,
            ctx: P::Context::default(),
            applied: Ghost(Seq::empty()),
        };
        proof {
            assert(named && typed);
            assert(p.state().positions =~= Seq::empty());
        }
        p
    }

    /// Creates a pipeline that reads the events of the projector's type.
    /// With a checkpoint store it starts by loading the checkpoint, and a
    /// checkpoint that fails to load ends the run; otherwise it starts
    /// polling from the beginning.
    pub fn new(
        projector: P,
        has_checkpoint_store: bool,
        poll_mode: PollMode,
        poll_config: PollConfig,
        event_retry_config: EventRetryConfig,
    ) -> (p: Self)
        ensures
            p.wf(),
            p.state() == initial_state(has_checkpoint_store),
            p.spec_events().len() == 0,
            p.spec_applied().len() == 0,
            exists|n: String| #[trigger] call_ensures(P::name, (&projector,), n) && p.spec_name() == n@,
            exists|t: String| #[trigger] call_ensures(P::Event::event_type_name, (), t) && p.spec_event_type() == t@,
            !p.spec_standalone(),
            p.spec_has_store() == has_checkpoint_store,
            p.spec_mode() == poll_mode,
            p.spec_poll() == poll_config,
            p.spec_retry() == event_retry_config,
    {
        Self::create(projector, false, has_checkpoint_store, poll_mode, poll_config, event_retry_config)
    }

    /// The current phase.
    pub fn phase(&self) -> (ph: PipelinePhase)
        ensures
            ph == self.state().phase,
    {
        self.phase
    }

    /// The position of the last event that was applied or skipped, or of the
    /// loaded checkpoint.
    pub fn last_checkpoint(&self) -> (c: Option<u64>)
        ensures
            c == self.state().last_checkpoint,
    {
        self.last_checkpoint
    }

    /// Advances the pipeline by one step. Call it only in a ready phase: at
    /// the start, or after `resume` has returned a step in which the pipeline
    /// is again ready. While processing, it applies the events of the batch
    /// in order, each with its position, until one needs an effect or fails.
    pub fn step(&mut self) -> (out: ProjectionStep)
        requires
            old(self).wf(),
            is_ready_phase(old(self).state().phase),
        ensures
            final(self).wf(),
            step_post(
                old(self).state(),
                final(self).state(),
                out,
                answers_after(old(self).spec_applied(), final(self).spec_applied()),
                old(self).spec_name(),
                old(self).spec_event_type(),
                old(self).spec_standalone(),
                old(self).spec_has_store(),
                old(self).spec_mode(),
                old(self).spec_poll(),
                old(self).spec_retry(),
            ),
            final(self).spec_events() == old(self).spec_events(),
            applied_log_post(
                old(self).spec_events(),
                old(self).state(),
                final(self).state(),
                old(self).spec_applied(),
                final(self).spec_applied(),
            ),
            final(self).spec_name() == old(self).spec_name(),
            final(self).spec_event_type() == old(self).spec_event_type(),
            final(self).spec_standalone() == old(self).spec_standalone(),
            final(self).spec_has_store() == old(self).spec_has_store(),
            final(self).spec_mode() == old(self).spec_mode(),
            final(self).spec_poll() == old(self).spec_poll(),
            final(self).spec_retry() == old(self).spec_retry(),
    {
        match self.phase {
            PipelinePhase::LoadCheckpoint => {
                self.phase = PipelinePhase::AwaitingCheckpoint;
                ProjectionStep::Yield(ProjectionEffect::LoadCheckpoint { name: self.name.clone() })
            },
            PipelinePhase::PollEvents => {
                self.phase = PipelinePhase::AwaitingEvents;
                let event_type = if self.standalone {
                    None
                } else {
                    Some(self.event_type.clone())
                };
                ProjectionStep::Yield(
                    ProjectionEffect::ReadEvents {
                        event_type,
                        after_position: self.last_checkpoint,
                        limit: EVENT_PAGE_SIZE,
                    },
                )
            },
            _ => self.process_events(),
        }
    }

    /// Takes a successful application of the current event: its position
    /// becomes the checkpoint, which is saved when there is a checkpoint
    /// store; otherwise the pipeline moves on to the next event and returns
    /// `None`.
    fn on_applied(&mut self) -> (out: Option<ProjectionStep>)
        requires
            old(self).wf(),
            old(self).state().phase == PipelinePhase::ProcessingEvents,
            old(self).state().event_index < old(self).state().positions.len(),
        ensures
            final(self).wf(),
            passed_post(
                old(self).state(),
                final(self).state(),
                out,
                old(self).spec_name(),
                old(self).spec_has_store(),
                PipelinePhase::AwaitingCheckpointSave,
            ),
            final(self).spec_events() == old(self).spec_events(),
            final(self).spec_applied() == old(self).spec_applied(),
            final(self).spec_name() == old(self).spec_name(),
            final(self).spec_event_type() == old(self).spec_event_type(),
            final(self).spec_standalone() == old(self).spec_standalone(),
            final(self).spec_has_store() == old(self).spec_has_store(),
            final(self).spec_mode() == old(self).spec_mode(),
            final(self).spec_poll() == old(self).spec_poll(),
            final(self).spec_retry() == old(self).spec_retry(),
    {
        let idx = self.event_index;
        let len = self.events.len();
        proof {
            assert(self.state().positions.len() == self.events@.len());
            assert(idx < len);
        }
        let position = self.events[idx].1;
        self.last_checkpoint = Some(position);
        if self.has_checkpoint_store {
            self.phase = PipelinePhase::AwaitingCheckpointSave;
            return Some(ProjectionStep::Yield(ProjectionEffect::SaveCheckpoint { name: self.name.clone(), position }));
        }
        self.event_index = idx + 1;
        self.retry_count = 0;
        None
    }

    /// Takes a failed application of the current event, which the projector
    /// answered with `strategy`, and carries out the action decided for it.
    /// Returns `None` when the pipeline moves on to the next event.
    fn on_failure(&mut self, strategy: FailureStrategy) -> (out: Option<ProjectionStep>)
        requires
            old(self).wf(),
            old(self).state().phase == PipelinePhase::ProcessingEvents,
            old(self).state().event_index < old(self).state().positions.len(),
        ensures
            final(self).wf(),
            failure_post(
                old(self).state(),
                final(self).state(),
                out,
                failure_action_for(strategy, old(self).state().retry_count as nat, old(self).spec_retry()),
                old(self).spec_name(),
                old(self).spec_has_store(),
            ),
            final(self).spec_events() == old(self).spec_events(),
            final(self).spec_applied() == old(self).spec_applied(),
            final(self).spec_name() == old(self).spec_name(),
            final(self).spec_event_type() == old(self).spec_event_type(),
            final(self).spec_standalone() == old(self).spec_standalone(),
            final(self).spec_has_store() == old(self).spec_has_store(),
            final(self).spec_mode() == old(self).spec_mode(),
            final(self).spec_poll() == old(self).spec_poll(),
            final(self).spec_retry() == old(self).spec_retry(),
    {
        let idx = self.event_index;
        let len = self.events.len();
        proof {
            assert(self.state().positions.len() == self.events@.len());
            assert(idx < len);
        }
        let position = self.events[idx].1;
        match decide_failure(strategy, self.retry_count, &self.event_retry_config) {
            FailureAction::Stop => {
                self.phase = PipelinePhase::Done;
                Some(ProjectionStep::Done(Err(ProjectionError::Failed("projector apply failed".to_owned()))))
            },
            FailureAction::GiveUp => {
                self.phase = PipelinePhase::Done;
                Some(
                    ProjectionStep::Done(
                        Err(ProjectionError::Failed("projector apply failed after max retries".to_owned())),
                    ),
                )
            },
            FailureAction::SkipEvent => {
                self.last_checkpoint = Some(position);
                if self.has_checkpoint_store {
                    self.phase = PipelinePhase::AwaitingSkipCheckpointSave;
                    return Some(
                        ProjectionStep::Yield(ProjectionEffect::SaveCheckpoint { name: self.name.clone(), position }),
                    );
                }
                self.event_index = idx + 1;
                self.retry_count = 0;
                None
            },
            FailureAction::RetryAfter { retry, delay } => {
                self.retry_count = retry;
                self.phase = PipelinePhase::AwaitingEventRetrySleep;
                Some(ProjectionStep::Yield(ProjectionEffect::Sleep { duration: delay }))
            },
        }
    }

    fn process_events(&mut self) -> (out: ProjectionStep)
        requires
            old(self).wf(),
            old(self).state().phase == PipelinePhase::ProcessingEvents,
        ensures
            final(self).wf(),
            processing_post(
                old(self).state(),
                final(self).state(),
                out,
                answers_after(old(self).spec_applied(), final(self).spec_applied()),
                old(self).spec_name(),
                old(self).spec_has_store(),
                old(self).spec_mode(),
                old(self).spec_poll(),
                old(self).spec_retry(),
            ),
            final(self).spec_events() == old(self).spec_events(),
            log_extends(
                old(self).spec_events(),
                old(self).state().event_index,
                processed_end(final(self).state()),
                old(self).state().retry_count,
                old(self).spec_applied(),
                final(self).spec_applied(),
            ),
            final(self).spec_name() == old(self).spec_name(),
            final(self).spec_event_type() == old(self).spec_event_type(),
            final(self).spec_standalone() == old(self).spec_standalone(),
            final(self).spec_has_store() == old(self).spec_has_store(),
            final(self).spec_mode() == old(self).spec_mode(),
            final(self).spec_poll() == old(self).spec_poll(),
            final(self).spec_retry() == old(self).spec_retry(),
    {
        let ghost pre = self.state();
        let ghost pre_log = self.applied@;
        proof {
            assert(self.applied@.subrange(0, pre_log.len() as int) =~= pre_log);
        }
        loop
            invariant
                self.wf(),
                pre.event_index <= self.event_index <= pre.positions.len(),
                self.state() == state_at(pre, self.event_index as int),
                self.events@ == old(self).spec_events(),
                log_extends(self.events@, pre.event_index, self.event_index as int, pre.retry_count, pre_log, self.applied@),
                self.event_index > pre.event_index ==> !self.has_checkpoint_store,
                forall|i: int|
                    0 <= i < self.event_index - pre.event_index ==> passes_on(
                        #[trigger] answers_after(pre_log, self.applied@)[i],
                    ),
                pre_log == old(self).spec_applied(),
                self.name@ == old(self).spec_name(),
                self.event_type@ == old(self).spec_event_type(),
                self.standalone == old(self).spec_standalone(),
                self.has_checkpoint_store == old(self).spec_has_store(),
                self.poll_mode == old(self).spec_mode(),
                self.poll_config == old(self).spec_poll(),
                self.event_retry_config == old(self).spec_retry(),
                pre == old(self).state(),
            decreases self.events@.len() - self.event_index,
        {
            let len = self.events.len();
            if self.event_index >= len {
                if self.poll_mode == PollMode::Batch {
                    self.phase = PipelinePhase::Done;
                    return ProjectionStep::Done(Ok(()));
                }
                let delay = if len > 0 {
                    self.poll_config.poll_interval
                } else {
                    self.poll_config.empty_poll_backoff
                };
                self.phase = PipelinePhase::AwaitingPollSleep;
                return ProjectionStep::Yield(ProjectionEffect::Sleep { duration: delay });
            }
            let idx = self.event_index;
            let position = self.events[idx].1;
            let event = self.events[idx].0.clone();
            let retry_count = self.retry_count;
            let ghost handed = event;
            proof {
                assert(pre.positions[idx as int] == position);
            }
            let mut ctx = P::Context::default();
            std::mem::swap(&mut ctx, &mut self.ctx);
            let applied = self.projector.apply(event, position, &mut ctx);
            std::mem::swap(&mut ctx, &mut self.ctx);
            let answer = match applied {
                Ok(()) => None,
                Err(error) => Some(self.projector.on_error(&error, position, retry_count)),
            };
            let ghost old_log = self.applied@;
            proof {
                self.applied@ = self.applied@.push(
                    ApplyCall { event: handed, position, retry_count, answer },
                );
                assert(self.applied@.subrange(0, pre_log.len() as int) =~= pre_log) by {
                    assert(old_log.subrange(0, pre_log.len() as int) =~= pre_log);
                }
                assert forall|i: int| 0 <= i < idx + 1 - pre.event_index implies handed_to_apply(
                    self.events@,
                    pre.event_index,
                    i,
                    pre.retry_count,
                    #[trigger] self.applied@[pre_log.len() + i],
                ) by {
                    if i < idx - pre.event_index {
                        assert(self.applied@[pre_log.len() + i] == old_log[pre_log.len() + i]);
                    }
                }
                assert(answers_after(pre_log, self.applied@) =~= answers_after(pre_log, old_log).push(answer));
            }
            let next = self.react(answer);
            match next {
                Some(out) => {
                    proof {
                        let answers = answers_after(pre_log, self.applied@);
                        assert forall|i: int| 0 <= i < idx - pre.event_index implies passes_on(#[trigger] answers[i]) by {
                            assert(answers[i] == answers_after(pre_log, old_log)[i]);
                        }
                    }
                    return out;
                },
                None => {
                    proof {
                        assert(passes_on(answer));
                    }
                },
            }
        }
    }

    /// Takes the projector's answer for the current event, `None` when it
    /// was applied, and carries out what follows, as [`reacts`] says.
    /// Returns `None` when the pipeline moves on to the next event.
    fn react(&mut self, answer: Option<FailureStrategy>) -> (out: Option<ProjectionStep>)
        requires
            old(self).wf(),
            old(self).state().phase == PipelinePhase::ProcessingEvents,
            old(self).state().event_index < old(self).state().positions.len(),
        ensures
            final(self).wf(),
            reacts(
                old(self).state(),
                final(self).state(),
                out,
                answer,
                old(self).spec_name(),
                old(self).spec_has_store(),
                old(self).spec_retry(),
            ),
            final(self).spec_events() == old(self).spec_events(),
            final(self).spec_applied() == old(self).spec_applied(),
            final(self).spec_name() == old(self).spec_name(),
            final(self).spec_event_type() == old(self).spec_event_type(),
            final(self).spec_standalone() == old(self).spec_standalone(),
            final(self).spec_has_store() == old(self).spec_has_store(),
            final(self).spec_mode() == old(self).spec_mode(),
            final(self).spec_poll() == old(self).spec_poll(),
            final(self).spec_retry() == old(self).spec_retry(),
    {
        match answer {
            None => self.on_applied(),
            Some(strategy) => self.on_failure(strategy),
        }
    }

    /// Hands the outcome of the last yielded effect back to the pipeline and
    /// advances it. `result` must be the kind of outcome the effect produces.
    pub fn resume(&mut self, result: ProjectionEffectResult<P::Event>) -> (out: ProjectionStep)
        requires
            old(self).wf(),
            is_awaiting_phase(old(self).state().phase),
            result_fits(old(self).state().phase, result),
        ensures
            final(self).wf(),
            ({
                let mid = resumed_state(
                    old(self).state(),
                    result,
                    old(self).spec_poll().max_consecutive_poll_failures,
                    old(self).spec_standalone(),
                );
                let events = match result {
                    ProjectionEffectResult::EventsRead(Ok(events)) => events@,
                    _ => old(self).spec_events(),
                };
                &&& final(self).spec_events() == events
                &&& if mid.phase == PipelinePhase::Done {
                    &&& final(self).state() == mid
                    &&& final(self).spec_applied() == old(self).spec_applied()
                    &&& match result {
                        ProjectionEffectResult::CheckpointLoaded(Err(e)) => fails_with(
                            out,
                            "failed to load checkpoint for projector '"@ + old(self).spec_name()
                                + "': "@ + e@,
                        ),
                        ProjectionEffectResult::EventsRead(Err(e)) => fails_with(
                            out,
                            if old(self).spec_standalone() {
                                "failed to read events after max retries"@
                            } else {
                                "failed to read events after max retries: "@ + e@
                            },
                        ),
                        _ => false,
                    }
                } else if mid.phase == PipelinePhase::AwaitingPollFailureSleep {
                    &&& final(self).state() == mid
                    &&& final(self).spec_applied() == old(self).spec_applied()
                    &&& out == ProjectionStep::Yield(
                        ProjectionEffect::Sleep {
                            duration: old(self).spec_poll().poll_failure_backoff,
                        },
                    )
                } else {
                    &&& step_post(
                        mid,
                        final(self).state(),
                        out,
                        answers_after(old(self).spec_applied(), final(self).spec_applied()),
                        old(self).spec_name(),
                        old(self).spec_event_type(),
                        old(self).spec_standalone(),
                        old(self).spec_has_store(),
                        old(self).spec_mode(),
                        old(self).spec_poll(),
                        old(self).spec_retry(),
                    )
                    &&& applied_log_post(
                        events,
                        mid,
                        final(self).state(),
                        old(self).spec_applied(),
                        final(self).spec_applied(),
                    )
                }
            }),
            final(self).spec_name() == old(self).spec_name(),
            final(self).spec_event_type() == old(self).spec_event_type(),
            final(self).spec_standalone() == old(self).spec_standalone(),
            final(self).spec_has_store() == old(self).spec_has_store(),
            final(self).spec_mode() == old(self).spec_mode(),
            final(self).spec_poll() == old(self).spec_poll(),
            final(self).spec_retry() == old(self).spec_retry(),
    {
        match self.phase {
            PipelinePhase::AwaitingCheckpoint => {
                match result {
                    ProjectionEffectResult::CheckpointLoaded(Ok(cp)) => {
                        self.last_checkpoint = cp;
                        self.consecutive_failures = 0;
                        self.ctx = P::Context::default();
                        self.phase = PipelinePhase::PollEvents;
                        self.step()
                    },
                    ProjectionEffectResult::CheckpointLoaded(Err(e)) => {
                        if self.standalone {
                            self.last_checkpoint = None;
                            self.consecutive_failures = 0;
                            self.ctx = P::Context::default();
                            self.phase = PipelinePhase::PollEvents;
                            return self.step();
                        }
                        self.phase = PipelinePhase::Done;
                        let msg = "failed to load checkpoint for projector '".to_owned().concat(
                            self.name.as_str(),
                        ).concat("': ").concat(e.as_str());
                        ProjectionStep::Done(Err(ProjectionError::Failed(msg)))
                    },
                    _ => {
                        proof {
                            assert(false);
                        }
                        ProjectionStep::Done(Ok(()))
                    },
                }
            },
            PipelinePhase::AwaitingEvents => {
                match result {
                    ProjectionEffectResult::EventsRead(Ok(events)) => {
                        self.events = events;
                        self.event_index = 0;
                        self.retry_count = 0;
                        self.consecutive_failures = 0;
                        self.phase = PipelinePhase::ProcessingEvents;
                        self.step()
                    },
                    ProjectionEffectResult::EventsRead(Err(e)) => {
                        if self.consecutive_failures >= self.poll_config.max_consecutive_poll_failures {
                            self.phase = PipelinePhase::Done;
                            let msg = if self.standalone {
                                "failed to read events after max retries".to_owned()
                            } else {
                                "failed to read events after max retries: ".to_owned().concat(e.as_str())
                            };
                            return ProjectionStep::Done(Err(ProjectionError::Failed(msg)));
                        }
                        self.consecutive_failures = self.consecutive_failures + 1;
                        self.phase = PipelinePhase::AwaitingPollFailureSleep;
                        ProjectionStep::Yield(
                            ProjectionEffect::Sleep { duration: self.poll_config.poll_failure_backoff },
                        )
                    },
                    _ => {
                        proof {
                            assert(false);
                        }
                        ProjectionStep::Done(Ok(()))
                    },
                }
            },
            PipelinePhase::AwaitingCheckpointSave | PipelinePhase::AwaitingSkipCheckpointSave => {
                let len = self.events.len();
                assert(self.event_index < len);
                self.event_index = self.event_index + 1;
                self.retry_count = 0;
                self.phase = PipelinePhase::ProcessingEvents;
                self.step()
            },
            PipelinePhase::AwaitingEventRetrySleep => {
                self.phase = PipelinePhase::ProcessingEvents;
                self.step()
            },
            PipelinePhase::AwaitingPollFailureSleep => {
                self.phase = PipelinePhase::PollEvents;
                self.step()
            },
            _ => {
                self.consecutive_failures = 0;
                self.phase = PipelinePhase::PollEvents;
                self.step()
            },
        }
    }
}

/// Where a projector's checkpoint is kept: the position of the last event
/// it processed, under its name.
pub trait CheckpointStore {
    /// Why loading or saving failed.
    type Error;

    /// The checkpoint saved under `name`, if any.
    fn load(&self, name: &str) -> Result<Option<u64>, Self::Error>;

    /// Saves `position` as the checkpoint under `name`.
    fn save(&self, name: &str, position: u64) -> Result<(), Self::Error>;
}

/// The checkpoint store of a runner that keeps no checkpoints.
#[derive(Debug, Clone, Copy, Default)]
pub struct NoCheckpointStore;

/// The error of [`NoCheckpointStore`], which it never reports.
#[derive(Debug, Clone, Copy)]
pub struct NoCheckpointError;

impl NoCheckpointError {
    /// The error's message.
    pub fn message(&self) -> (s: String)
        ensures
            s@ == "no checkpoint store configured"@,
    {
        "no checkpoint store configured".to_owned()
    }
}

impl CheckpointStore for NoCheckpointStore {
    type Error = NoCheckpointError;

    /// Nothing was saved.
    fn load(&self, name: &str) -> (r: Result<Option<u64>, NoCheckpointError>)
        ensures
            r matches Ok(None),
    {
        Ok(None)
    }

    /// Saving does nothing, and succeeds.
    fn save(&self, name: &str, position: u64) -> (r: Result<(), NoCheckpointError>)
        ensures
            r is Ok,
    {
        Ok(())
    }
}

/// A projector with the store it reads, the checkpoint store it may keep its
/// checkpoint in, and how it polls and retries. [`ProjectionRunner::into_pipeline`]
/// turns it into the pipeline that runs it.
#[derive(Debug)]
pub struct ProjectionRunner<P, R, C> {
    /// The projector.
    pub projector: P,
    /// The store the events are read from.
    pub store: R,
    /// The checkpoint store, if checkpoints are kept.
    pub checkpoint_store: Option<C>,
    /// Whether to process the available events once or keep polling.
    pub poll_mode: PollMode,
    /// How to poll.
    pub poll_config: PollConfig,
    /// How to retry a failed event.
    pub event_retry_config: EventRetryConfig,
}

impl<P: Projector, R> ProjectionRunner<P, R, NoCheckpointStore> {
    /// A runner of `projector` over `store` without checkpoints, in batch
    /// mode, with the default polling and retry configurations.
    pub fn new(projector: P, store: R) -> (r: Self)
        ensures
            r.projector == projector,
            r.store == store,
            r.checkpoint_store.is_none(),
            r.poll_mode == PollMode::Batch,
            r.poll_config.poll_interval == 100_000_000,
            r.poll_config.empty_poll_backoff == 50_000_000,
            r.poll_config.poll_failure_backoff == 100_000_000,
            r.poll_config.max_consecutive_poll_failures == 5,
            r.event_retry_config.max_retry_attempts == 3,
            r.event_retry_config.retry_delay == 100_000_000,
            r.event_retry_config.retry_backoff_multiplier.spec_permille() == 2000,
            r.event_retry_config.max_retry_delay == 5_000_000_000,
    {
        ProjectionRunner {
            projector,
            store,
            checkpoint_store: None,
            poll_mode: PollMode::Batch,
            poll_config: PollConfig::default_config(),
            event_retry_config: EventRetryConfig::default_config(),
        }
    }

    /// The same runner, keeping its checkpoint in `checkpoint_store`.
    pub fn with_checkpoint_store<C: CheckpointStore>(self, checkpoint_store: C) -> (r: ProjectionRunner<P, R, C>)
        ensures
            r.projector == self.projector,
            r.store == self.store,
            r.checkpoint_store == Some(checkpoint_store),
            r.poll_mode == self.poll_mode,
            r.poll_config == self.poll_config,
            r.event_retry_config == self.event_retry_config,
    {
        ProjectionRunner {
            projector: self.projector,
            store: self.store,
            checkpoint_store: Some(checkpoint_store),
            poll_mode: self.poll_mode,
            poll_config: self.poll_config,
            event_retry_config: self.event_retry_config,
        }
    }
}

impl<P: Projector, R, C> ProjectionRunner<P, R, C> {
    /// Sets the polling mode.
    pub fn with_poll_mode(self, mode: PollMode) -> (r: Self)
        ensures
            r.projector == self.projector,
            r.store == self.store,
            r.checkpoint_store == self.checkpoint_store,
            r.poll_mode == mode,
            r.poll_config == self.poll_config,
            r.event_retry_config == self.event_retry_config,
    {
        ProjectionRunner { poll_mode: mode, ..self }
    }

    /// Sets the polling configuration.
    pub fn with_poll_config(self, config: PollConfig) -> (r: Self)
        ensures
            r.projector == self.projector,
            r.store == self.store,
            r.checkpoint_store == self.checkpoint_store,
            r.poll_mode == self.poll_mode,
            r.poll_config == config,
            r.event_retry_config == self.event_retry_config,
    {
        ProjectionRunner { poll_config: config, ..self }
    }

    /// Sets the retry configuration for failed events.
    pub fn with_event_retry_config(self, config: EventRetryConfig) -> (r: Self)
        ensures
            r.projector == self.projector,
            r.store == self.store,
            r.checkpoint_store == self.checkpoint_store,
            r.poll_mode == self.poll_mode,
            r.poll_config == self.poll_config,
            r.event_retry_config == config,
    {
        ProjectionRunner { event_retry_config: config, ..self }
    }

    /// The pipeline that runs the projector as the standalone runner, with
    /// the store and the checkpoint store its effects are performed on. It
    /// reads the events of every type, starts by loading the checkpoint
    /// exactly when there is a checkpoint store, and takes a checkpoint that
    /// fails to load as absent.
    pub fn into_pipeline(self) -> (r: (ProjectionPipeline<P>, R, Option<C>))
        ensures
            r.0.wf(),
            r.0.state() == initial_state(self.checkpoint_store.is_some()),
            r.0.spec_events().len() == 0,
            r.0.spec_applied().len() == 0,
            exists|n: String| #[trigger] call_ensures(P::name, (&self.projector,), n) && r.0.spec_name() == n@,
            exists|t: String| #[trigger] call_ensures(P::Event::event_type_name, (), t) && r.0.spec_event_type() == t@,
            r.0.spec_standalone(),
            r.0.spec_has_store() == self.checkpoint_store.is_some(),
            r.0.spec_mode() == self.poll_mode,
            r.0.spec_poll() == self.poll_config,
            r.0.spec_retry() == self.event_retry_config,
            r.1 == self.store,
            r.2 == self.checkpoint_store,
    {
        let has_store = self.checkpoint_store.is_some();
        let pipeline = ProjectionPipeline::create(
            self.projector,
            true,
            has_store,
            self.poll_mode,
            self.poll_config,
            self.event_retry_config,
        );
        (pipeline, self.store, self.checkpoint_store)
    }
}

} // verus!
