//! Lifecycle management of projections: which status changes are allowed,
//! and the health each registered projection reports. The projections'
//! hooks and tasks are run by the caller once a transition is accepted.

use std::time::Instant;
use vstd::prelude::*;

use crate::assoc::{assoc_map, keys_distinct, lemma_assoc_at, lemma_assoc_contains, lemma_assoc_remove, lemma_assoc_update};
use crate::clock::{elapsed_nanos, now};
use crate::json::{lemma_assoc_without, without_key};
use crate::types::{EventId, StreamId};

verus! {

/// The lifecycle status of a projection.
#[derive(Debug, Clone, Copy, PartialEq, Eq, Structural)]
pub enum ProjectionStatus {
    /// Not processing.
    Stopped,
    /// Processing events.
    Running,
    /// Temporarily not processing.
    Paused,
    /// Stopped by an error.
    Faulted,
    /// Being rebuilt from the start.
    Rebuilding,
}

impl ProjectionStatus {
    /// Whether a projection in this status may start: when stopped, paused
    /// or faulted.
    pub open spec fn spec_can_start(self) -> bool {
        self == ProjectionStatus::Stopped || self == ProjectionStatus::Paused || self == ProjectionStatus::Faulted
    }

    /// Whether a projection in this status may stop: when running, paused
    /// or rebuilding.
    pub open spec fn spec_can_stop(self) -> bool {
        self == ProjectionStatus::Running || self == ProjectionStatus::Paused || self
            == ProjectionStatus::Rebuilding
    }

    /// Whether it may start.
    pub fn can_start(&self) -> (b: bool)
        ensures
            b == self.spec_can_start(),
    {
        match self {
            ProjectionStatus::Stopped | ProjectionStatus::Paused | ProjectionStatus::Faulted => true,
            _ => false,
        }
    }

    /// Whether it may stop.
    pub fn can_stop(&self) -> (b: bool)
        ensures
            b == self.spec_can_stop(),
    {
        match self {
            ProjectionStatus::Running | ProjectionStatus::Paused | ProjectionStatus::Rebuilding => true,
            _ => false,
        }
    }

    /// Whether it may pause: only when running.
    pub fn can_pause(&self) -> (b: bool)
        ensures
            b == (*self == ProjectionStatus::Running),
    {
        match self {
            ProjectionStatus::Running => true,
            _ => false,
        }
    }
}

/// Stream positions as pairs of stream text and event.
pub open spec fn position_pairs(p: Seq<(StreamId, EventId)>) -> Seq<(Seq<char>, EventId)> {
    p.map_values(|e: (StreamId, EventId)| (e.0@, e.1))
}

/// The last event processed per stream, by stream text; a later pair for a
/// stream overrides an earlier one.
pub open spec fn positions_of(c: ProjectionCheckpoint) -> Map<Seq<char>, EventId> {
    assoc_map(position_pairs(c.stream_positions@))
}

/// How far a projection got: the last event it processed, and the last
/// event per stream.
#[derive(Debug)]
pub struct ProjectionCheckpoint {
    /// The last event processed.
    pub last_event_id: Option<EventId>,
    /// The last event processed per stream, by stream.
    pub stream_positions: Vec<(StreamId, EventId)>,
}

impl ProjectionCheckpoint {
    /// The checkpoint before any event.
    pub fn initial() -> (c: Self)
        ensures
            c.last_event_id.is_none(),
            c.stream_positions@.len() == 0,
    {
        ProjectionCheckpoint { last_event_id: None, stream_positions: Vec::new() }
    }

    /// The checkpoint with `event_id` as the last event processed in
    /// `stream_id`.
    pub fn with_stream_position(self, stream_id: StreamId, event_id: EventId) -> (c: Self)
        ensures
            c.last_event_id == self.last_event_id,
            positions_of(c) == positions_of(self).insert(stream_id@, event_id),
    {
        let ghost start = position_pairs(self.stream_positions@);
        let mut kept: Vec<(StreamId, EventId)> = Vec::new();
        let mut i: usize = 0;
        while i < self.stream_positions.len()
            invariant
                i <= self.stream_positions@.len(),
                start == position_pairs(self.stream_positions@),
                position_pairs(kept@) == without_key(start.subrange(0, i as int), stream_id@),
            decreases self.stream_positions@.len() - i,
        {
            let ghost before = kept@;
            proof {
                assert(start.subrange(0, i + 1).drop_last() =~= start.subrange(0, i as int));
                assert(start[i as int] == (self.stream_positions@[i as int].0@, self.stream_positions@[i as int].1));
            }
            if !self.stream_positions[i].0.same_as(&stream_id) {
                let entry = (self.stream_positions[i].0.clone(), self.stream_positions[i].1);
                kept.push(entry);
                proof {
                    assert(position_pairs(kept@) =~= position_pairs(before).push(start[i as int]));
                }
            }
            i = i + 1;
        }
        proof {
            assert(start.subrange(0, start.len() as int) =~= start);
            lemma_assoc_without(start, stream_id@);
        }
        let ghost without = kept@;
        kept.push((stream_id, event_id));
        proof {
            assert(position_pairs(kept@) =~= position_pairs(without).push((stream_id@, event_id)));
            assert(position_pairs(kept@).drop_last() =~= position_pairs(without));
            assert(assoc_map(position_pairs(kept@)) =~= assoc_map(start).insert(stream_id@, event_id));
        }
        ProjectionCheckpoint { last_event_id: self.last_event_id, stream_positions: kept }
    }

    /// The checkpoint moved to `event_id`.
    pub fn with_event_id(self, event_id: EventId) -> (c: Self)
        ensures
            c.last_event_id == Some(event_id),
            c.stream_positions == self.stream_positions,
    {
        ProjectionCheckpoint { last_event_id: Some(event_id), stream_positions: self.stream_positions }
    }
}

/// Health of one projection.
#[derive(Debug)]
pub struct ProjectionHealth {
    /// Its status.
    pub status: ProjectionStatus,
    /// When it last processed an event.
    pub last_activity: Option<Instant>,
    /// Events processed since it started.
    pub events_processed: u64,
    /// Errors encountered.
    pub error_count: u64,
    /// The last error's message.
    pub last_error: Option<String>,
    /// Its checkpoint.
    pub current_checkpoint: ProjectionCheckpoint,
    /// Whether it is healthy: no error since it last processed an event.
    pub is_healthy: bool,
}

impl ProjectionHealth {
    /// The health of a stopped projection at `checkpoint`, with nothing
    /// processed and no errors.
    pub fn initial(checkpoint: ProjectionCheckpoint) -> (h: Self)
        ensures
            h.status == ProjectionStatus::Stopped,
            h.last_activity.is_none(),
            h.events_processed == 0,
            h.error_count == 0,
            h.last_error.is_none(),
            h.current_checkpoint == checkpoint,
            h.is_healthy,
    {
        ProjectionHealth {
            status: ProjectionStatus::Stopped,
            last_activity: None,
            events_processed: 0,
            error_count: 0,
            last_error: None,
            current_checkpoint: checkpoint,
            is_healthy: true,
        }
    }

    /// An event was processed now; the projection is healthy again.
    pub fn record_event_processed(&mut self)
        requires
            old(self).events_processed < u64::MAX,
        ensures
            final(self).events_processed == old(self).events_processed + 1,
            final(self).last_activity.is_some(),
            final(self).is_healthy,
            final(self).status == old(self).status,
            final(self).error_count == old(self).error_count,
            final(self).last_error == old(self).last_error,
            final(self).current_checkpoint == old(self).current_checkpoint,
    {
        self.last_activity = Some(now());
        self.events_processed = self.events_processed + 1;
        self.is_healthy = true;
    }

    /// An error occurred; the projection is unhealthy.
    pub fn record_error(&mut self, error: &str)
        requires
            old(self).error_count < u64::MAX,
        ensures
            final(self).error_count == old(self).error_count + 1,
            final(self).last_error matches Some(e) && e@ == error@,
            !final(self).is_healthy,
            final(self).status == old(self).status,
            final(self).events_processed == old(self).events_processed,
            final(self).last_activity == old(self).last_activity,
            final(self).current_checkpoint == old(self).current_checkpoint,
    {
        self.error_count = self.error_count + 1;
        self.last_error = Some(error.to_owned());
        self.is_healthy = false;
    }

    /// Sets the status.
    pub fn set_status(&mut self, status: ProjectionStatus)
        ensures
            final(self).status == status,
            final(self).events_processed == old(self).events_processed,
            final(self).error_count == old(self).error_count,
            final(self).last_error == old(self).last_error,
            final(self).last_activity == old(self).last_activity,
            final(self).current_checkpoint == old(self).current_checkpoint,
            final(self).is_healthy == old(self).is_healthy,
    {
        self.status = status;
    }

    /// Sets the checkpoint.
    pub fn set_checkpoint(&mut self, checkpoint: ProjectionCheckpoint)
        ensures
            final(self).current_checkpoint == checkpoint,
            final(self).status == old(self).status,
            final(self).events_processed == old(self).events_processed,
            final(self).error_count == old(self).error_count,
            final(self).last_error == old(self).last_error,
            final(self).last_activity == old(self).last_activity,
            final(self).is_healthy == old(self).is_healthy,
    {
        self.current_checkpoint = checkpoint;
    }
}

/// Configuration of a projection manager. Durations are in nanoseconds.
#[derive(Debug, Clone, Copy, PartialEq, Eq, Structural)]
pub struct ProjectionManagerConfig {
    /// How often projection health is checked.
    pub health_check_interval: u64,
    /// Consecutive errors after which a projection is unhealthy.
    pub max_consecutive_errors: u64,
    /// Inactivity after which a projection is stale.
    pub stale_threshold: u64,
}

impl ProjectionManagerConfig {
    /// Checks every 30 s, unhealthy after 5 errors, stale after 5 minutes.
    pub fn default_config() -> (c: Self)
        ensures
            c.health_check_interval == 30_000_000_000,
            c.max_consecutive_errors == 5,
            c.stale_threshold == 300_000_000_000,
    {
        ProjectionManagerConfig {
            health_check_interval: 30_000_000_000,
            max_consecutive_errors: 5,
            stale_threshold: 300_000_000_000,
        }
    }
}

impl Default for ProjectionManagerConfig {
    fn default() -> (c: Self)
        ensures
            c.health_check_interval == 30_000_000_000,
            c.max_consecutive_errors == 5,
            c.stale_threshold == 300_000_000_000,
    {
        ProjectionManagerConfig::default_config()
    }
}

/// Why a lifecycle operation was refused.
#[derive(Debug, Clone, PartialEq, Eq)]
pub enum ManagerError {
    /// No projection is registered under the name.
    NotFound(String),
    /// The projection's status does not allow the change.
    InvalidStateTransition { from: ProjectionStatus, to: ProjectionStatus },
}

/// The status a lifecycle operation moves a projection to.
#[derive(Debug, Clone, Copy, PartialEq, Eq, Structural)]
pub enum LifecycleOperation {
    /// Start it.
    Start,
    /// Stop it.
    Stop,
    /// Pause it.
    Pause,
    /// Resume it after a pause.
    Resume,
}

/// The status an operation leads to.
pub open spec fn target_status(op: LifecycleOperation) -> ProjectionStatus {
    match op {
        LifecycleOperation::Start => ProjectionStatus::Running,
        LifecycleOperation::Stop => ProjectionStatus::Stopped,
        LifecycleOperation::Pause => ProjectionStatus::Paused,
        LifecycleOperation::Resume => ProjectionStatus::Running,
    }
}

/// Whether `op` is allowed from `status`: start from stopped, paused or
/// faulted; stop from running, paused or rebuilding; pause from running;
/// resume from paused.
pub open spec fn allowed(op: LifecycleOperation, status: ProjectionStatus) -> bool {
    match op {
        LifecycleOperation::Start => status.spec_can_start(),
        LifecycleOperation::Stop => status.spec_can_stop(),
        LifecycleOperation::Pause => status == ProjectionStatus::Running,
        LifecycleOperation::Resume => status == ProjectionStatus::Paused,
    }
}

/// Every operation that can go ahead can be undone: a started projection
/// may stop, a paused one may resume into the status it was paused from,
/// and a resumed one may pause again.
pub proof fn lemma_lifecycle_reversible(status: ProjectionStatus)
    ensures
        allowed(LifecycleOperation::Start, status) ==> allowed(
            LifecycleOperation::Stop,
            target_status(LifecycleOperation::Start),
        ),
        allowed(LifecycleOperation::Pause, status) ==> allowed(
            LifecycleOperation::Resume,
            target_status(LifecycleOperation::Pause),
        ) && target_status(LifecycleOperation::Resume) == status,
        allowed(LifecycleOperation::Resume, status) ==> allowed(
            LifecycleOperation::Pause,
            target_status(LifecycleOperation::Resume),
        ) && target_status(LifecycleOperation::Pause) == status,
        allowed(LifecycleOperation::Stop, status) ==> allowed(
            LifecycleOperation::Start,
            target_status(LifecycleOperation::Stop),
        ),
{
}

/// Registering a projection under a new name and then unregistering it
/// leaves the registered projections as they were: `registered` is what
/// [`ProjectionManager::register_projection`] leaves for the name `name`.
pub proof fn lemma_register_unregister_round_trip(
    before: Map<Seq<char>, ProjectionHealth>,
    registered: Map<Seq<char>, ProjectionHealth>,
    name: Seq<char>,
)
    requires
        !before.contains_key(name),
        registered.dom() == before.dom().insert(name),
        forall|n: Seq<char>| n != name && before.contains_key(n) ==> registered[n] == before[n],
    ensures
        registered.remove(name) == before,
{
    assert(registered.remove(name) =~= before);
}

/// Decides whether `op` may go ahead for a projection whose status is
/// `status`; `None` when it is not registered under `name`.
pub fn check_transition(name: &str, status: Option<ProjectionStatus>, op: LifecycleOperation) -> (r: Result<
    ProjectionStatus,
    ManagerError,
>)
    ensures
        match status {
            None => r matches Err(ManagerError::NotFound(n)) && n@ == name@,
            Some(s) => if allowed(op, s) {
                r == Ok::<ProjectionStatus, ManagerError>(target_status(op))
            } else {
                r == Err::<ProjectionStatus, ManagerError>(
                    ManagerError::InvalidStateTransition { from: s, to: target_status(op) },
                )
            },
        },
{
    match status {
        None => Err(ManagerError::NotFound(name.to_owned())),
        Some(s) => {
            let (ok, to) = match op {
                LifecycleOperation::Start => (s.can_start(), ProjectionStatus::Running),
                LifecycleOperation::Stop => (s.can_stop(), ProjectionStatus::Stopped),
                LifecycleOperation::Pause => (s.can_pause(), ProjectionStatus::Paused),
                LifecycleOperation::Resume => (
                    match s {
                        ProjectionStatus::Paused => true,
                        _ => false,
                    },
                    ProjectionStatus::Running,
                ),
            };
            if ok {
                Ok(to)
            } else {
                Err(ManagerError::InvalidStateTransition { from: s, to })
            }
        },
    }
}

/// How long a projection may go without processing an event before the
/// health check marks it unhealthy: five minutes, in nanoseconds.
pub const INACTIVITY_LIMIT_NANOS: u64 = 300_000_000_000;

/// What the health check makes of a projection's health `before`, when
/// `elapsed` nanoseconds have passed since its last activity: a projection
/// that has been active, and not for longer than the limit, gets an error
/// and is unhealthy; any other stays as it was.
pub open spec fn inactivity_checked(before: ProjectionHealth, after: ProjectionHealth, elapsed: u64) -> bool {
    if before.last_activity.is_some() && elapsed > INACTIVITY_LIMIT_NANOS {
        &&& after.error_count == before.error_count + 1
        &&& after.last_error matches Some(e) && e@ == "Projection has been inactive for too long"@
        &&& !after.is_healthy
        &&& after.status == before.status
        &&& after.events_processed == before.events_processed
        &&& after.last_activity == before.last_activity
        &&& after.current_checkpoint == before.current_checkpoint
    } else {
        after == before
    }
}

/// The health of registered projections, by name, and the transitions
/// between their statuses.
pub struct ProjectionManager {
    health: Vec<(String, ProjectionHealth)>,
    config: ProjectionManagerConfig,
}

impl ProjectionManager {
    /// The registered names and their health, in order of registration.
    pub closed spec fn spec_pairs(&self) -> Seq<(Seq<char>, ProjectionHealth)> {
        self.health@.map_values(|e: (String, ProjectionHealth)| (e.0@, e.1))
    }

    /// The health of each registered projection, by name.
    pub open spec fn spec_health(&self) -> Map<Seq<char>, ProjectionHealth> {
        assoc_map(self.spec_pairs())
    }

    /// The configuration.
    pub closed spec fn spec_config(&self) -> ProjectionManagerConfig {
        self.config
    }

    #[verifier::type_invariant]
    spec fn names_distinct(&self) -> bool {
        keys_distinct(self.spec_pairs())
    }

    /// A manager with the default configuration and no projections.
    pub fn new() -> (m: Self)
        ensures
            m.spec_health() == Map::<Seq<char>, ProjectionHealth>::empty(),
            m.spec_config().health_check_interval == 30_000_000_000,
            m.spec_config().max_consecutive_errors == 5,
            m.spec_config().stale_threshold == 300_000_000_000,
    {
        ProjectionManager::with_config(ProjectionManagerConfig::default_config())
    }

    /// A manager with `config` and no projections.
    pub fn with_config(config: ProjectionManagerConfig) -> (m: Self)
        ensures
            m.spec_health() == Map::<Seq<char>, ProjectionHealth>::empty(),
            m.spec_config() == config,
    {
        let m = ProjectionManager { health: Vec::new(), config };
        proof {
            assert(m.spec_pairs().len() == 0);
        }
        m
    }

    /// The configuration.
    pub fn config(&self) -> (c: ProjectionManagerConfig)
        ensures
            c == self.spec_config(),
    {
        self.config
    }

    fn position(&self, name: &str) -> (r: Option<usize>)
        ensures
            match r {
                Some(i) => i < self.spec_pairs().len() && self.spec_pairs()[i as int].0 == name@,
                None => forall|i: int| 0 <= i < self.spec_pairs().len() ==> (#[trigger] self.spec_pairs()[i]).0
                    != name@,
            },
    {
        let k = name.to_owned();
        let mut i: usize = 0;
        while i < self.health.len()
            invariant
                i <= self.health@.len(),
                k@ == name@,
                forall|j: int| 0 <= j < i ==> (#[trigger] self.spec_pairs()[j]).0 != name@,
            decreases self.health@.len() - i,
        {
            if self.health[i].0 == k {
                return Some(i);
            }
            i = i + 1;
        }
        None
    }

    /// Registers the projection `name` at `checkpoint`, stopped; an earlier
    /// registration of the name is replaced.
    pub fn register_projection(&mut self, name: &str, checkpoint: ProjectionCheckpoint)
        ensures
            final(self).spec_health().dom() == old(self).spec_health().dom().insert(name@),
            final(self).spec_health()[name@].status == ProjectionStatus::Stopped,
            final(self).spec_health()[name@].current_checkpoint == checkpoint,
            final(self).spec_health()[name@].events_processed == 0,
            final(self).spec_health()[name@].error_count == 0,
            forall|n: Seq<char>| n != name@ && old(self).spec_health().contains_key(n) ==> final(self).spec_health()[n]
                == old(self).spec_health()[n],
            final(self).spec_config() == old(self).spec_config(),
    {
        proof {
            use_type_invariant(&*self);
        }
        let health = ProjectionHealth::initial(checkpoint);
        self.put(name, health);
    }

    fn put(&mut self, name: &str, health: ProjectionHealth)
        ensures
            final(self).spec_health() == old(self).spec_health().insert(name@, health),
            final(self).spec_config() == old(self).spec_config(),
    {
        proof {
            use_type_invariant(&*self);
        }
        let ghost pairs = self.spec_pairs();
        let found = self.position(name);
        let mut entries: Vec<(String, ProjectionHealth)> = Vec::new();
        std::mem::swap(&mut entries, &mut self.health);
        let ghost before = entries@;
        match found {
            Some(i) => {
                proof {
                    lemma_assoc_update(pairs, i as int, health);
                }
                entries.set(i, (name.to_owned(), health));
                proof {
                    let np = entries@.map_values(|e: (String, ProjectionHealth)| (e.0@, e.1));
                    assert forall|j: int| 0 <= j < np.len() implies #[trigger] np[j] == pairs.update(
                        i as int,
                        (pairs[i as int].0, health),
                    )[j] by {
                        if j != i {
                            assert(entries@[j] == before[j]);
                        }
                    }
                    assert(np =~= pairs.update(i as int, (pairs[i as int].0, health)));
                }
            },
            None => {
                proof {
                    lemma_assoc_contains(pairs, name@);
                }
                entries.push((name.to_owned(), health));
                proof {
                    let np = entries@.map_values(|e: (String, ProjectionHealth)| (e.0@, e.1));
                    assert forall|j: int| 0 <= j < np.len() implies #[trigger] np[j] == pairs.push((name@, health))[j] by {
                        if j < before.len() {
                            assert(entries@[j] == before[j]);
                        }
                    }
                    assert(np =~= pairs.push((name@, health)));
                    assert(pairs.push((name@, health)).drop_last() =~= pairs);
                }
            },
        }
        self.health = entries;
    }

    /// Removes the projection `name`.
    pub fn unregister_projection(&mut self, name: &str)
        ensures
            final(self).spec_health() == old(self).spec_health().remove(name@),
            final(self).spec_config() == old(self).spec_config(),
    {
        proof {
            use_type_invariant(&*self);
        }
        let ghost pairs = self.spec_pairs();
        match self.position(name) {
            Some(i) => {
                let mut entries: Vec<(String, ProjectionHealth)> = Vec::new();
                std::mem::swap(&mut entries, &mut self.health);
                let ghost before = entries@;
                entries.remove(i);
                proof {
                    lemma_assoc_remove(pairs, i as int);
                    let np = entries@.map_values(|e: (String, ProjectionHealth)| (e.0@, e.1));
                    assert forall|j: int| 0 <= j < np.len() implies #[trigger] np[j] == pairs.remove(i as int)[j] by {
                        if j < i {
                            assert(entries@[j] == before[j]);
                        } else {
                            assert(entries@[j] == before[j + 1]);
                        }
                    }
                    assert(np =~= pairs.remove(i as int));
                }
                self.health = entries;
            },
            None => {
                proof {
                    lemma_assoc_contains(pairs, name@);
                    assert(assoc_map(pairs).remove(name@) =~= assoc_map(pairs));
                }
            },
        }
    }

    /// The health of the projection `name`.
    pub fn health(&self, name: &str) -> (h: Option<&ProjectionHealth>)
        ensures
            match h {
                Some(x) => self.spec_health().contains_key(name@) && self.spec_health()[name@] == *x,
                None => !self.spec_health().contains_key(name@),
            },
    {
        proof {
            use_type_invariant(self);
        }
        match self.position(name) {
            Some(i) => {
                proof {
                    lemma_assoc_at(self.spec_pairs(), i as int);
                }
                Some(&self.health[i].1)
            },
            None => {
                proof {
                    lemma_assoc_contains(self.spec_pairs(), name@);
                }
                None
            },
        }
    }

    /// The recorded status of the projection `name`.
    pub fn status(&self, name: &str) -> (s: Option<ProjectionStatus>)
        ensures
            match s {
                Some(x) => self.spec_health().contains_key(name@) && self.spec_health()[name@].status == x,
                None => !self.spec_health().contains_key(name@),
            },
    {
        match self.health(name) {
            Some(h) => Some(h.status),
            None => None,
        }
    }

    /// Applies `op` to the projection `name`, whose own status is `current`:
    /// refused when the name is not registered or the status does not allow
    /// it; otherwise the recorded status becomes the operation's target.
    pub fn transition(&mut self, name: &str, current: ProjectionStatus, op: LifecycleOperation) -> (r: Result<
        ProjectionStatus,
        ManagerError,
    >)
        ensures
            !old(self).spec_health().contains_key(name@) ==> (r matches Err(ManagerError::NotFound(n)) && n@ == name@),
            old(self).spec_health().contains_key(name@) && !allowed(op, current) ==> r == Err::<ProjectionStatus, ManagerError>(
                ManagerError::InvalidStateTransition { from: current, to: target_status(op) },
            ),
            old(self).spec_health().contains_key(name@) && allowed(op, current) ==> r == Ok::<ProjectionStatus, ManagerError>(
                target_status(op),
            ),
            r is Err ==> final(self).spec_health() == old(self).spec_health(),
            r is Ok ==> {
                &&& old(self).spec_health().contains_key(name@)
                &&& allowed(op, current)
                &&& r == Ok::<ProjectionStatus, ManagerError>(target_status(op))
                &&& final(self).spec_health().dom() == old(self).spec_health().dom()
                &&& final(self).spec_health()[name@].status == target_status(op)
                &&& final(self).spec_health()[name@].events_processed == old(self).spec_health()[name@].events_processed
                &&& final(self).spec_health()[name@].error_count == old(self).spec_health()[name@].error_count
                &&& forall|n: Seq<char>| n != name@ && old(self).spec_health().contains_key(n) ==> final(self).spec_health()[n]
                    == old(self).spec_health()[n]
            },
            final(self).spec_config() == old(self).spec_config(),
    {
        let registered = match self.status(name) {
            Some(_) => Some(current),
            None => None,
        };
        let decision = check_transition(name, registered, op);
        match decision {
            Ok(to) => {
                self.update_status(name, to);
                Ok(to)
            },
            Err(e) => Err(e),
        }
    }

    fn swap_health(&mut self, name: &str, replacement: ProjectionHealth) -> (previous: ProjectionHealth)
        requires
            old(self).spec_health().contains_key(name@),
        ensures
            previous == old(self).spec_health()[name@],
            final(self).spec_health() == old(self).spec_health().insert(name@, replacement),
            final(self).spec_config() == old(self).spec_config(),
    {
        proof {
            use_type_invariant(&*self);
        }
        let ghost pairs = self.spec_pairs();
        match self.position(name) {
            Some(i) => {
                let mut entries: Vec<(String, ProjectionHealth)> = Vec::new();
                std::mem::swap(&mut entries, &mut self.health);
                let ghost before = entries@;
                let (key, previous) = entries.remove(i);
                proof {
                    lemma_assoc_at(pairs, i as int);
                    lemma_assoc_update(pairs, i as int, replacement);
                }
                entries.insert(i, (key, replacement));
                proof {
                    let np = entries@.map_values(|e: (String, ProjectionHealth)| (e.0@, e.1));
                    assert forall|j: int| 0 <= j < np.len() implies #[trigger] np[j] == pairs.update(
                        i as int,
                        (pairs[i as int].0, replacement),
                    )[j] by {
                        if j != i {
                            assert(entries@[j] == before[j]);
                        }
                    }
                    assert(np =~= pairs.update(i as int, (pairs[i as int].0, replacement)));
                }
                self.health = entries;
                previous
            },
            None => {
                proof {
                    lemma_assoc_contains(pairs, name@);
                }
                ProjectionHealth::initial(ProjectionCheckpoint::initial())
            },
        }
    }

    fn update_status(&mut self, name: &str, status: ProjectionStatus)
        requires
            old(self).spec_health().contains_key(name@),
        ensures
            final(self).spec_health().dom() == old(self).spec_health().dom(),
            final(self).spec_health()[name@].status == status,
            final(self).spec_health()[name@].events_processed == old(self).spec_health()[name@].events_processed,
            final(self).spec_health()[name@].error_count == old(self).spec_health()[name@].error_count,
            forall|n: Seq<char>| n != name@ && old(self).spec_health().contains_key(n) ==> final(self).spec_health()[n]
                == old(self).spec_health()[n],
            final(self).spec_config() == old(self).spec_config(),
    {
        let ghost before = self.spec_health();
        let mut h = self.swap_health(name, ProjectionHealth::initial(ProjectionCheckpoint::initial()));
        h.set_status(status);
        let ghost nh = h;
        self.put(name, h);
        proof {
            assert(self.spec_health() == before.insert(name@, nh));
            assert(before.insert(name@, nh).dom() =~= before.dom());
        }
    }

    /// Starts rebuilding the projection `name` from the start: its status
    /// becomes rebuilding, its checkpoint the initial one, its counters
    /// zero, and it is healthy; refused when the name is not registered.
    pub fn rebuild(&mut self, name: &str) -> (r: Result<(), ManagerError>)
        ensures
            !old(self).spec_health().contains_key(name@) ==> (r matches Err(ManagerError::NotFound(n)) && n@ == name@
                && final(self).spec_health() == old(self).spec_health()),
            old(self).spec_health().contains_key(name@) ==> {
                &&& r is Ok
                &&& final(self).spec_health().dom() == old(self).spec_health().dom()
                &&& final(self).spec_health()[name@].status == ProjectionStatus::Rebuilding
                &&& final(self).spec_health()[name@].current_checkpoint.last_event_id.is_none()
                &&& final(self).spec_health()[name@].current_checkpoint.stream_positions@.len() == 0
                &&& final(self).spec_health()[name@].events_processed == 0
                &&& final(self).spec_health()[name@].error_count == 0
                &&& final(self).spec_health()[name@].last_error.is_none()
                &&& final(self).spec_health()[name@].is_healthy
                &&& final(self).spec_health()[name@].last_activity == old(self).spec_health()[name@].last_activity
                &&& forall|n: Seq<char>| n != name@ && old(self).spec_health().contains_key(n) ==> final(self).spec_health()[n]
                    == old(self).spec_health()[n]
            },
            final(self).spec_config() == old(self).spec_config(),
    {
        match self.status(name) {
            Some(_) => {
                let ghost before = self.spec_health();
                let previous = self.swap_health(name, ProjectionHealth::initial(ProjectionCheckpoint::initial()));
                let h = ProjectionHealth {
                    status: ProjectionStatus::Rebuilding,
                    last_activity: previous.last_activity,
                    events_processed: 0,
                    error_count: 0,
                    last_error: None,
                    current_checkpoint: ProjectionCheckpoint::initial(),
                    is_healthy: true,
                };
                let ghost nh = h;
                self.put(name, h);
                proof {
                    assert(before.insert(name@, nh).dom() =~= before.dom());
                }
                Ok(())
            },
            None => Err(ManagerError::NotFound(name.to_owned())),
        }
    }

    /// The health of the projection `name`; refused when the name is not
    /// registered.
    pub fn get_health(&self, name: &str) -> (r: Result<&ProjectionHealth, ManagerError>)
        ensures
            match r {
                Ok(h) => self.spec_health().contains_key(name@) && self.spec_health()[name@] == *h,
                Err(e) => !self.spec_health().contains_key(name@) && (e matches ManagerError::NotFound(n) && n@
                    == name@),
            },
    {
        match self.health(name) {
            Some(h) => Ok(h),
            None => Err(ManagerError::NotFound(name.to_owned())),
        }
    }

    /// The registered names, in order of registration.
    pub fn list_projections(&self) -> (names: Vec<String>)
        ensures
            names@.map_values(|n: String| n@) == self.spec_pairs().map_values(
                |p: (Seq<char>, ProjectionHealth)| p.0,
            ),
    {
        let mut names: Vec<String> = Vec::new();
        let mut i: usize = 0;
        while i < self.health.len()
            invariant
                i <= self.health@.len(),
                names@.map_values(|n: String| n@) == self.spec_pairs().subrange(0, i as int).map_values(
                    |p: (Seq<char>, ProjectionHealth)| p.0,
                ),
            decreases self.health@.len() - i,
        {
            let ghost before = names@;
            names.push(self.health[i].0.clone());
            proof {
                assert(self.spec_pairs()[i as int].0 == self.health@[i as int].0@);
                assert(names@.map_values(|n: String| n@) =~= before.map_values(|n: String| n@).push(
                    self.health@[i as int].0@,
                ));
                assert(self.spec_pairs().subrange(0, i + 1).map_values(|p: (Seq<char>, ProjectionHealth)| p.0)
                    =~= self.spec_pairs().subrange(0, i as int).map_values(
                    |p: (Seq<char>, ProjectionHealth)| p.0,
                ).push(self.spec_pairs()[i as int].0));
            }
            i = i + 1;
        }
        proof {
            assert(self.spec_pairs().subrange(0, self.spec_pairs().len() as int) =~= self.spec_pairs());
        }
        names
    }

    /// Applies the health check to the projection `name`, whose last
    /// activity was `since_last_activity_nanos` nanoseconds ago, as
    /// [`inactivity_checked`] says. Nothing changes for a name that is not
    /// registered.
    pub fn record_inactivity(&mut self, name: &str, since_last_activity_nanos: u64)
        requires
            old(self).spec_health().contains_key(name@) ==> old(self).spec_health()[name@].error_count < u64::MAX,
        ensures
            final(self).spec_config() == old(self).spec_config(),
            final(self).spec_health().dom() == old(self).spec_health().dom(),
            forall|n: Seq<char>| n != name@ && old(self).spec_health().contains_key(n) ==> final(self).spec_health()[n]
                == old(self).spec_health()[n],
            old(self).spec_health().contains_key(name@) ==> inactivity_checked(
                old(self).spec_health()[name@],
                final(self).spec_health()[name@],
                since_last_activity_nanos,
            ),
    {
        match self.health(name) {
            Some(h) => {
                if h.last_activity.is_none() || since_last_activity_nanos <= INACTIVITY_LIMIT_NANOS {
                    return;
                }
            },
            None => {
                return;
            },
        }
        let ghost before = self.spec_health();
        let mut h = self.swap_health(name, ProjectionHealth::initial(ProjectionCheckpoint::initial()));
        h.is_healthy = false;
        h.record_error("Projection has been inactive for too long");
        let ghost nh = h;
        self.put(name, h);
        proof {
            assert(self.spec_health() == before.insert(name@, nh));
            assert(before.insert(name@, nh).dom() =~= before.dom());
        }
    }

    /// The health check of the projection `name`: reads the time since its
    /// last activity and applies [`ProjectionManager::record_inactivity`].
    pub fn check_projection_health(&mut self, name: &str)
        requires
            old(self).spec_health().contains_key(name@) ==> old(self).spec_health()[name@].error_count < u64::MAX,
        ensures
            final(self).spec_config() == old(self).spec_config(),
            final(self).spec_health().dom() == old(self).spec_health().dom(),
            forall|n: Seq<char>| n != name@ && old(self).spec_health().contains_key(n) ==> final(self).spec_health()[n]
                == old(self).spec_health()[n],
            old(self).spec_health().contains_key(name@) ==> exists|elapsed: u64|
                inactivity_checked(old(self).spec_health()[name@], final(self).spec_health()[name@], elapsed),
    {
        let elapsed = match self.health(name) {
            Some(h) => match &h.last_activity {
                Some(at) => elapsed_nanos(at),
                None => 0,
            },
            None => 0,
        };
        self.record_inactivity(name, elapsed);
    }
}

} // verus!
