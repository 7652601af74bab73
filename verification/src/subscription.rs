//! Subscriptions to the events of a store: where a subscription stands,
//! per stream, and the names and options it is started with. Reading and
//! delivering events is the caller's I/O; these types keep the position.

use vstd::prelude::*;

use crate::assoc::{assoc_map, keys_distinct, lemma_assoc_at, lemma_assoc_contains, lemma_assoc_update};
use crate::manager::ProjectionCheckpoint;
use crate::pipeline::{projection_error_text, ProjectionError};
use crate::reconstruction::StoredEvent;
use crate::text::{lemma_trimmed_idempotent, trim, trimmed};
use crate::types::{store_error_text, EventId, EventStoreError, StreamId};

verus! {

/// How streams are selected by name.
#[derive(Debug, Clone, Copy, PartialEq, Eq, Structural)]
pub enum SpecificStreamsMode {
    /// By exact name.
    Named,
    /// By pattern.
    Pattern,
}

/// The last event of a stream that a subscription processed.
#[derive(Debug, Clone, Copy, PartialEq, Eq, Structural)]
pub struct Checkpoint {
    /// The event.
    pub event_id: EventId,
    /// The stream's version after it.
    pub version: u64,
}

impl Checkpoint {
    /// A checkpoint at `event_id`, version `version`.
    pub fn new(event_id: EventId, version: u64) -> (c: Self)
        ensures
            c.event_id == event_id,
            c.version == version,
    {
        Checkpoint { event_id, version }
    }
}

/// Where a subscription stands: the last event it processed, and a
/// checkpoint per stream.
#[derive(Debug)]
pub struct SubscriptionPosition {
    last_event_id: EventId,
    stream_checkpoints: Vec<(StreamId, Checkpoint)>,
}

impl SubscriptionPosition {
    /// The last event processed.
    pub closed spec fn spec_last(&self) -> EventId {
        self.last_event_id
    }

    /// The streams and their checkpoints, in order of first update.
    pub closed spec fn spec_pairs(&self) -> Seq<(Seq<char>, Checkpoint)> {
        self.stream_checkpoints@.map_values(|e: (StreamId, Checkpoint)| (e.0@, e.1))
    }

    /// The checkpoint of each stream, by stream.
    pub open spec fn spec_checkpoints(&self) -> Map<Seq<char>, Checkpoint> {
        assoc_map(self.spec_pairs())
    }

    #[verifier::type_invariant]
    spec fn streams_distinct(&self) -> bool {
        keys_distinct(self.spec_pairs())
    }

    /// A position at `last_event_id`, with no stream checkpoints.
    pub fn new(last_event_id: EventId) -> (p: Self)
        ensures
            p.spec_last() == last_event_id,
            p.spec_checkpoints() == Map::<Seq<char>, Checkpoint>::empty(),
            p.spec_pairs().len() == 0,
    {
        let p = SubscriptionPosition { last_event_id, stream_checkpoints: Vec::new() };
        proof {
            assert(p.spec_pairs().len() == 0);
        }
        p
    }

    /// The last event processed.
    pub fn last_event_id(&self) -> (id: EventId)
        ensures
            id == self.spec_last(),
    {
        self.last_event_id
    }

    /// Sets the last event processed.
    pub fn set_last_event_id(&mut self, event_id: EventId)
        ensures
            final(self).spec_last() == event_id,
            final(self).spec_pairs() == old(self).spec_pairs(),
    {
        proof {
            use_type_invariant(&*self);
        }
        self.last_event_id = event_id;
    }

    fn position(&self, stream_id: &StreamId) -> (r: Option<usize>)
        ensures
            match r {
                Some(i) => i < self.spec_pairs().len() && self.spec_pairs()[i as int].0 == stream_id@,
                None => forall|i: int| 0 <= i < self.spec_pairs().len() ==> (#[trigger] self.spec_pairs()[i]).0
                    != stream_id@,
            },
    {
        let mut i: usize = 0;
        while i < self.stream_checkpoints.len()
            invariant
                i <= self.stream_checkpoints@.len(),
                forall|j: int| 0 <= j < i ==> (#[trigger] self.spec_pairs()[j]).0 != stream_id@,
            decreases self.stream_checkpoints@.len() - i,
        {
            if self.stream_checkpoints[i].0.same_as(stream_id) {
                return Some(i);
            }
            i = i + 1;
        }
        None
    }

    /// Sets the checkpoint of `stream_id`.
    pub fn update_checkpoint(&mut self, stream_id: StreamId, checkpoint: Checkpoint)
        ensures
            final(self).spec_checkpoints() == old(self).spec_checkpoints().insert(stream_id@, checkpoint),
            final(self).spec_last() == old(self).spec_last(),
    {
        proof {
            use_type_invariant(&*self);
        }
        let ghost pairs = self.spec_pairs();
        let found = self.position(&stream_id);
        let mut entries: Vec<(StreamId, Checkpoint)> = Vec::new();
        std::mem::swap(&mut entries, &mut self.stream_checkpoints);
        let ghost before = entries@;
        let ghost sid = stream_id@;
        match found {
            Some(i) => {
                proof {
                    lemma_assoc_update(pairs, i as int, checkpoint);
                }
                entries.set(i, (stream_id, checkpoint));
                proof {
                    let np = entries@.map_values(|e: (StreamId, Checkpoint)| (e.0@, e.1));
                    assert forall|j: int| 0 <= j < np.len() implies #[trigger] np[j] == pairs.update(
                        i as int,
                        (pairs[i as int].0, checkpoint),
                    )[j] by {
                        if j != i {
                            assert(entries@[j] == before[j]);
                        }
                    }
                    assert(np =~= pairs.update(i as int, (pairs[i as int].0, checkpoint)));
                }
            },
            None => {
                proof {
                    lemma_assoc_contains(pairs, sid);
                }
                entries.push((stream_id, checkpoint));
                proof {
                    let np = entries@.map_values(|e: (StreamId, Checkpoint)| (e.0@, e.1));
                    assert forall|j: int| 0 <= j < np.len() implies #[trigger] np[j] == pairs.push((sid, checkpoint))[j] by {
                        if j < before.len() {
                            assert(entries@[j] == before[j]);
                        }
                    }
                    assert(np =~= pairs.push((sid, checkpoint)));
                    assert(pairs.push((sid, checkpoint)).drop_last() =~= pairs);
                }
            },
        }
        self.stream_checkpoints = entries;
    }

    /// The checkpoint of `stream_id`, if it has one.
    pub fn get_checkpoint(&self, stream_id: &StreamId) -> (c: Option<&Checkpoint>)
        ensures
            match c {
                Some(x) => self.spec_checkpoints().contains_key(stream_id@) && self.spec_checkpoints()[stream_id@] == *x,
                None => !self.spec_checkpoints().contains_key(stream_id@),
            },
    {
        proof {
            use_type_invariant(self);
        }
        match self.position(stream_id) {
            Some(i) => {
                proof {
                    lemma_assoc_at(self.spec_pairs(), i as int);
                }
                Some(&self.stream_checkpoints[i].1)
            },
            None => {
                proof {
                    lemma_assoc_contains(self.spec_pairs(), stream_id@);
                }
                None
            },
        }
    }

    /// The streams and their checkpoints, in order of first update.
    pub fn stream_checkpoints(&self) -> (v: &Vec<(StreamId, Checkpoint)>)
        ensures
            v@.map_values(|e: (StreamId, Checkpoint)| (e.0@, e.1)) == self.spec_pairs(),
    {
        &self.stream_checkpoints
    }

    /// The projection checkpoint that records this position: the last event,
    /// and each stream's last event.
    pub fn to_projection_checkpoint(&self) -> (c: ProjectionCheckpoint)
        ensures
            c.last_event_id == Some(self.spec_last()),
            c.stream_positions@.len() == self.spec_pairs().len(),
            forall|i: int| 0 <= i < c.stream_positions@.len() ==> (#[trigger] c.stream_positions@[i]).0@
                == self.spec_pairs()[i].0 && c.stream_positions@[i].1 == self.spec_pairs()[i].1.event_id,
    {
        let mut positions: Vec<(StreamId, EventId)> = Vec::new();
        let mut i: usize = 0;
        while i < self.stream_checkpoints.len()
            invariant
                i <= self.stream_checkpoints@.len(),
                positions@.len() == i,
                forall|k: int| 0 <= k < i ==> (#[trigger] positions@[k]).0@ == self.spec_pairs()[k].0
                    && positions@[k].1 == self.spec_pairs()[k].1.event_id,
            decreases self.stream_checkpoints@.len() - i,
        {
            let sid = self.stream_checkpoints[i].0.clone();
            let eid = self.stream_checkpoints[i].1.event_id;
            positions.push((sid, eid));
            i = i + 1;
        }
        ProjectionCheckpoint { last_event_id: Some(self.last_event_id), stream_positions: positions }
    }
}

/// Whether the event `event_id` was already processed at `position`: its
/// id is at most the last processed one.
pub open spec fn already_processed(position: Option<SubscriptionPosition>, event_id: EventId) -> bool {
    match position {
        Some(p) => event_id@ <= p.spec_last()@,
        None => false,
    }
}

/// Whether an event was already processed, as [`already_processed`] says.
pub fn is_already_processed(position: &Option<SubscriptionPosition>, event_id: EventId) -> (b: bool)
    ensures
        b == already_processed(*position, event_id),
{
    match position {
        Some(p) => event_id.as_u128() <= p.last_event_id().as_u128(),
        None => false,
    }
}

/// The position after processing event `event_id`, at version `version`,
/// of stream `stream_id`, from `position` (`None` before any event).
pub fn advance_position(
    position: Option<SubscriptionPosition>,
    event_id: EventId,
    stream_id: StreamId,
    version: u64,
) -> (p: SubscriptionPosition)
    ensures
        p.spec_last() == event_id,
        p.spec_checkpoints() == match position {
            Some(old) => old.spec_checkpoints(),
            None => Map::<Seq<char>, Checkpoint>::empty(),
        }.insert(stream_id@, Checkpoint { event_id, version }),
{
    let mut p = match position {
        Some(old) => old,
        None => SubscriptionPosition::new(event_id),
    };
    p.set_last_event_id(event_id);
    p.update_checkpoint(stream_id, Checkpoint::new(event_id, version));
    p
}

/// The checkpoints that the stream positions `pairs` give, each stream's
/// event at version zero; a later pair for a stream overrides an earlier
/// one.
pub open spec fn checkpoints_at_zero(pairs: Seq<(StreamId, EventId)>) -> Map<Seq<char>, Checkpoint>
    decreases pairs.len(),
{
    if pairs.len() == 0 {
        Map::empty()
    } else {
        checkpoints_at_zero(pairs.drop_last()).insert(
            pairs.last().0@,
            Checkpoint { event_id: pairs.last().1, version: 0 },
        )
    }
}

/// The position a stored projection checkpoint records: none without a last
/// event; otherwise that event, with each stream's event at version zero.
pub fn position_from_checkpoint(checkpoint: &ProjectionCheckpoint) -> (p: Option<SubscriptionPosition>)
    ensures
        checkpoint.last_event_id.is_none() ==> p.is_none(),
        checkpoint.last_event_id matches Some(id) ==> p matches Some(pos) && pos.spec_last() == id
            && pos.spec_checkpoints() == checkpoints_at_zero(checkpoint.stream_positions@),
{
    match checkpoint.last_event_id {
        None => None,
        Some(id) => {
            let mut p = SubscriptionPosition::new(id);
            let mut i: usize = 0;
            while i < checkpoint.stream_positions.len()
                invariant
                    i <= checkpoint.stream_positions@.len(),
                    p.spec_last() == id,
                    p.spec_checkpoints() == checkpoints_at_zero(checkpoint.stream_positions@.take(i as int)),
                decreases checkpoint.stream_positions@.len() - i,
            {
                let sid = checkpoint.stream_positions[i].0.clone();
                let eid = checkpoint.stream_positions[i].1;
                proof {
                    let t = checkpoint.stream_positions@.take(i + 1);
                    assert(t.drop_last() =~= checkpoint.stream_positions@.take(i as int));
                    assert(t.last() == checkpoint.stream_positions@[i as int]);
                }
                p.update_checkpoint(sid, Checkpoint::new(eid, 0));
                i = i + 1;
            }
            proof {
                assert(checkpoint.stream_positions@.take(checkpoint.stream_positions@.len() as int)
                    =~= checkpoint.stream_positions@);
            }
            Some(p)
        },
    }
}

/// Where a subscription starts and which streams it reads.
#[derive(Debug)]
pub enum SubscriptionOptions {
    /// All events, from the first.
    CatchUpFromBeginning,
    /// All events after a position.
    CatchUpFromPosition(SubscriptionPosition),
    /// Only events written from now on.
    LiveOnly,
    /// Selected streams, from the first event.
    SpecificStreamsFromBeginning(SpecificStreamsMode),
    /// Selected streams, after a position.
    SpecificStreamsFromPosition(SpecificStreamsMode, SubscriptionPosition),
    /// All streams, after an event when given.
    AllStreams { from_position: Option<EventId> },
    /// The given streams, after an event when given.
    SpecificStreams { streams: Vec<StreamId>, from_position: Option<EventId> },
}

/// The longest subscription name, in characters.
pub const MAX_SUBSCRIPTION_NAME_LEN: usize = 255;

/// Why a subscription name was refused.
#[derive(Debug, Clone, Copy, PartialEq, Eq, Structural)]
pub enum SubscriptionNameError {
    /// Nothing but whitespace was given.
    NotEmptyViolated,
    /// More than 255 characters remain after trimming.
    LenCharMaxViolated,
}

/// The name of a subscription: trimmed, not empty, at most 255 characters.
#[derive(Debug, PartialEq, Eq, Hash)]
pub struct SubscriptionName {
    value: String,
}

impl View for SubscriptionName {
    type V = Seq<char>;

    open spec fn view(&self) -> Seq<char> {
        self.spec_text()
    }
}

impl Clone for SubscriptionName {
    fn clone(&self) -> (r: Self)
        ensures
            r@ == self@,
    {
        SubscriptionName { value: self.value.clone() }
    }
}

impl SubscriptionName {
    /// The name's text.
    pub closed spec fn spec_text(&self) -> Seq<char> {
        self.value@
    }

    /// Validates `value` as a name after trimming whitespace.
    pub fn try_new(value: &str) -> (r: Result<Self, SubscriptionNameError>)
        ensures
            ({
                let t = trimmed(value@);
                match r {
                    Ok(name) => 0 < t.len() <= 255 && name@ == t,
                    Err(SubscriptionNameError::NotEmptyViolated) => t.len() == 0,
                    Err(SubscriptionNameError::LenCharMaxViolated) => t.len() > 255,
                }
            }),
    {
        let t = trim(value);
        let n = t.as_str().unicode_len();
        if n == 0 {
            Err(SubscriptionNameError::NotEmptyViolated)
        } else if n > MAX_SUBSCRIPTION_NAME_LEN {
            Err(SubscriptionNameError::LenCharMaxViolated)
        } else {
            Ok(SubscriptionName { value: t })
        }
    }

    /// The name's text.
    pub fn as_str(&self) -> (s: &str)
        ensures
            s@ == self@,
    {
        self.value.as_str()
    }
}

/// The text of an accepted subscription name is accepted again as it is.
pub proof fn lemma_subscription_name_revalidates(value: Seq<char>)
    requires
        0 < trimmed(value).len() <= MAX_SUBSCRIPTION_NAME_LEN,
    ensures
        trimmed(trimmed(value)) == trimmed(value),
{
    lemma_trimmed_idempotent(value);
}

/// The name of the subscription that feeds the projection `projection_name`:
/// `projection-` followed by the projection's name.
pub fn projection_subscription_name(projection_name: &str) -> (r: Result<SubscriptionName, SubscriptionNameError>)
    ensures
        ({
            let t = trimmed("projection-"@ + projection_name@);
            match r {
                Ok(name) => 0 < t.len() <= 255 && name@ == t,
                Err(SubscriptionNameError::NotEmptyViolated) => t.len() == 0,
                Err(SubscriptionNameError::LenCharMaxViolated) => t.len() > 255,
            }
        }),
{
    let full = "projection-".to_owned().concat(projection_name);
    SubscriptionName::try_new(full.as_str())
}

/// What can go wrong with a subscription.
#[derive(Debug)]
pub enum SubscriptionError {
    /// The event store failed.
    EventStore(EventStoreError),
    /// The projection failed.
    Projection(ProjectionError),
    /// The subscription was cancelled.
    Cancelled,
    /// A checkpoint could not be saved.
    CheckpointSaveFailed(String),
    /// A checkpoint could not be loaded.
    CheckpointLoadFailed(String),
}

/// The result of a subscription operation.
pub type SubscriptionResult<T> = Result<T, SubscriptionError>;

impl SubscriptionError {
    /// The error's message.
    pub fn message(&self) -> (s: String)
        ensures
            s@ == match *self {
                SubscriptionError::EventStore(e) => "Event store error: "@ + store_error_text(e),
                SubscriptionError::Projection(e) => "Projection error: "@ + projection_error_text(e),
                SubscriptionError::Cancelled => "Subscription cancelled"@,
                SubscriptionError::CheckpointSaveFailed(m) => "Failed to save checkpoint: "@ + m@,
                SubscriptionError::CheckpointLoadFailed(m) => "Failed to load checkpoint: "@ + m@,
            },
    {
        match self {
            SubscriptionError::EventStore(e) => "Event store error: ".to_owned().concat(e.message().as_str()),
            SubscriptionError::Projection(e) => "Projection error: ".to_owned().concat(e.message().as_str()),
            SubscriptionError::Cancelled => "Subscription cancelled".to_owned(),
            SubscriptionError::CheckpointSaveFailed(m) => "Failed to save checkpoint: ".to_owned().concat(m.as_str()),
            SubscriptionError::CheckpointLoadFailed(m) => "Failed to load checkpoint: ".to_owned().concat(m.as_str()),
        }
    }
}

/// Processes the events a subscription delivers.
pub trait EventProcessor {
    /// The events it processes.
    type Event;

    /// Processes one event.
    fn process_event(&mut self, event: StoredEvent<Self::Event>) -> SubscriptionResult<()>;

    /// Called when the subscription has caught up with the live events.
    fn on_live(&mut self) -> SubscriptionResult<()> {
        Ok(())
    }
}

/// A subscription to the events of a store, which delivers them to a
/// processor and keeps its position.
pub trait Subscription {
    /// The events it delivers.
    type Event;

    /// Starts delivering events to `processor`, as `options` say.
    fn start<P: EventProcessor<Event = Self::Event>>(
        &mut self,
        name: SubscriptionName,
        options: SubscriptionOptions,
        processor: P,
    ) -> SubscriptionResult<()>;

    /// Stops delivering events.
    fn stop(&mut self) -> SubscriptionResult<()>;

    /// Pauses delivery.
    fn pause(&mut self) -> SubscriptionResult<()>;

    /// Resumes delivery after a pause.
    fn resume(&mut self) -> SubscriptionResult<()>;

    /// Where the subscription stands.
    fn get_position(&self) -> SubscriptionResult<Option<SubscriptionPosition>>;

    /// Saves `position` as the subscription's checkpoint.
    fn save_checkpoint(&mut self, position: SubscriptionPosition) -> SubscriptionResult<()>;

    /// The checkpoint saved for the subscription `name`, if any.
    fn load_checkpoint(&self, name: &SubscriptionName) -> SubscriptionResult<Option<SubscriptionPosition>>;
}

} // verus!
