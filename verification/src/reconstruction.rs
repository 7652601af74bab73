//! Rebuilding a command's state from the events of the streams it reads.

use vstd::prelude::*;

use crate::types::{EventId, StreamId};
use vstd::set_lib::{lemma_int_range, lemma_len_subset, lemma_subset_equality, set_int_range};

verus! {

/// An event as read from the store.
#[derive(Debug)]
pub struct StoredEvent<E> {
    /// The event's id.
    pub event_id: EventId,
    /// The stream it belongs to.
    pub stream_id: StreamId,
    /// The stream's version after it.
    pub event_version: u64,
    /// When it was written, in nanoseconds since the Unix epoch.
    pub timestamp: i64,
    /// What happened.
    pub payload: E,
}

/// A command whose state is rebuilt by applying events in order.
pub trait Command {
    /// The state the command decides on.
    type State: Default;
    /// The events it reads.
    type Event;

    /// The state after `event`.
    spec fn next_state(&self, state: Self::State, event: StoredEvent<Self::Event>) -> Self::State;

    /// Applies `event` to `state`.
    fn apply(&self, state: &mut Self::State, event: &StoredEvent<Self::Event>)
        ensures
            *final(state) == self.next_state(*old(state), *event),
    ;
}

/// The state after applying `events`, in order, to `initial`.
pub open spec fn fold_events<C: Command>(command: C, initial: C::State, events: Seq<StoredEvent<C::Event>>) -> C::State
    decreases events.len(),
{
    if events.len() == 0 {
        initial
    } else {
        command.next_state(fold_events(command, initial, events.drop_last()), events.last())
    }
}

/// Applying no events leaves the state as it is.
pub proof fn lemma_fold_empty<C: Command>(command: C, initial: C::State)
    ensures
        fold_events(command, initial, Seq::empty()) == initial,
{
}

/// Applying `first` and then `second` gives the state that applying them
/// together, in that order, gives.
pub proof fn lemma_fold_append<C: Command>(
    command: C,
    initial: C::State,
    first: Seq<StoredEvent<C::Event>>,
    second: Seq<StoredEvent<C::Event>>,
)
    ensures
        fold_events(command, initial, first + second) == fold_events(
            command,
            fold_events(command, initial, first),
            second,
        ),
    decreases second.len(),
{
    if second.len() == 0 {
        assert(first + second =~= first);
    } else {
        lemma_fold_append(command, initial, first, second.drop_last());
        assert((first + second).drop_last() =~= first + second.drop_last());
        assert((first + second).last() == second.last());
    }
}

/// Applies `events`, in order, to `initial`.
pub fn reconstruct_state_from<C: Command>(command: &C, initial: C::State, events: &[StoredEvent<C::Event>]) -> (s: C::State)
    ensures
        s == fold_events(*command, initial, events@),
{
    let mut state = initial;
    let mut i: usize = 0;
    while i < events.len()
        invariant
            i <= events@.len(),
            state == fold_events(*command, initial, events@.take(i as int)),
        decreases events@.len() - i,
    {
        command.apply(&mut state, &events[i]);
        proof {
            let t = events@.take(i + 1);
            assert(t.drop_last() =~= events@.take(i as int));
            assert(t.last() == events@[i as int]);
        }
        i = i + 1;
    }
    proof {
        assert(events@.take(events@.len() as int) =~= events@);
    }
    state
}

/// Whether the event at index `i` of `events` comes before the one at index
/// `j` when events are ordered by id: a smaller id first, and among equal
/// ids the earlier one read.
pub open spec fn comes_before<E>(events: Seq<StoredEvent<E>>, i: int, j: int) -> bool {
    events[i].event_id@ < events[j].event_id@ || (events[i].event_id@ == events[j].event_id@ && i < j)
}

/// Whether `order` lists the indices of `events` in ascending order of the
/// events' ids, equal ids in the order read. Exactly one order does.
pub open spec fn is_id_order<E>(events: Seq<StoredEvent<E>>, order: Seq<int>) -> bool {
    &&& order.len() == events.len()
    &&& forall|k: int| 0 <= k < order.len() ==> 0 <= #[trigger] order[k] < events.len()
    &&& forall|k: int, l: int|
        0 <= k < l < order.len() ==> comes_before(events, #[trigger] order[k], #[trigger] order[l])
}

/// Every index of `events` has a place in an order by id.
proof fn lemma_id_order_covers<E>(events: Seq<StoredEvent<E>>, order: Seq<int>, j: int)
    requires
        is_id_order(events, order),
        0 <= j < events.len(),
    ensures
        exists|m: int| 0 <= m < order.len() && order[m] == j,
{
    assert(order.no_duplicates()) by {
        assert forall|k: int, l: int| 0 <= k < order.len() && 0 <= l < order.len() && k != l implies order[k]
            != order[l] by {
            if k < l {
                assert(comes_before(events, order[k], order[l]));
            } else {
                assert(comes_before(events, order[l], order[k]));
            }
        }
    }
    order.unique_seq_to_set();
    lemma_int_range(0, events.len() as int);
    assert(order.to_set().subset_of(set_int_range(0, events.len() as int))) by {
        assert forall|x: int| order.to_set().contains(x) implies set_int_range(0, events.len() as int).contains(x) by {
            assert(order.contains(x));
        }
    }
    lemma_len_subset(order.to_set(), set_int_range(0, events.len() as int));
    lemma_subset_equality(order.to_set(), set_int_range(0, events.len() as int));
    assert(set_int_range(0, events.len() as int).contains(j));
    assert(order.to_set().contains(j));
    assert(order.contains(j));
}

proof fn lemma_id_orders_agree_below<E>(events: Seq<StoredEvent<E>>, a: Seq<int>, b: Seq<int>, k: int)
    requires
        is_id_order(events, a),
        is_id_order(events, b),
        0 <= k <= events.len(),
    ensures
        forall|i: int| 0 <= i < k ==> a[i] == b[i],
    decreases k,
{
    if k > 0 {
        lemma_id_orders_agree_below(events, a, b, k - 1);
        let i = k - 1;
        if a[i] != b[i] {
            lemma_id_order_covers(events, a, b[i]);
            lemma_id_order_covers(events, b, a[i]);
            let m = choose|m: int| 0 <= m < a.len() && a[m] == b[i];
            let n = choose|n: int| 0 <= n < b.len() && b[n] == a[i];
            if m < i {
                assert(b[m] == b[i]);
                assert(comes_before(events, b[m], b[i]));
            }
            if n < i {
                assert(a[n] == a[i]);
                assert(comes_before(events, a[n], a[i]));
            }
            assert(m != i && n != i);
            assert(comes_before(events, a[i], a[m]));
            assert(comes_before(events, b[i], b[n]));
            assert(false);
        }
    }
}

/// Exactly one order lists the indices of the events by ascending id, equal
/// ids in the order read.
pub proof fn lemma_id_order_unique<E>(events: Seq<StoredEvent<E>>, a: Seq<int>, b: Seq<int>)
    requires
        is_id_order(events, a),
        is_id_order(events, b),
    ensures
        a == b,
{
    lemma_id_orders_agree_below(events, a, b, events.len() as int);
    assert(a =~= b);
}

/// The events of `events` taken in `order`.
pub open spec fn in_order<E>(events: Seq<StoredEvent<E>>, order: Seq<int>) -> Seq<StoredEvent<E>> {
    order.map_values(|k: int| events[k])
}

/// The indices of `events` sorted by event id, equal ids in the order read.
fn id_order<E>(events: &[StoredEvent<E>]) -> (order: Vec<usize>)
    ensures
        is_id_order(events@, order@.map_values(|k: usize| k as int)),
{
    let mut order: Vec<usize> = Vec::new();
    let mut i: usize = 0;
    while i < events.len()
        invariant
            i <= events@.len(),
            order@.len() == i,
            forall|k: int| 0 <= k < order@.len() ==> #[trigger] order@[k] < i,
            forall|k: int, l: int|
                0 <= k < l < order@.len() ==> comes_before(events@, #[trigger] order@[k] as int, #[trigger] order@[l] as int),
        decreases events@.len() - i,
    {
        let id = events[i].event_id.as_u128();
        let mut pos: usize = 0;
        while pos < order.len() && events[order[pos]].event_id.as_u128() <= id
            invariant
                i < events@.len(),
                id == events@[i as int].event_id@,
                pos <= order@.len(),
                order@.len() == i,
                forall|k: int| 0 <= k < order@.len() ==> #[trigger] order@[k] < i,
                forall|k: int| 0 <= k < pos ==> events@[#[trigger] order@[k] as int].event_id@ <= id,
            decreases order@.len() - pos,
        {
            pos = pos + 1;
        }
        let ghost before = order@;
        order.insert(pos, i);
        proof {
            assert forall|k: int| 0 <= k < order@.len() implies #[trigger] order@[k] < i + 1 by {
                if k < pos {
                    assert(order@[k] == before[k]);
                } else if k > pos {
                    assert(order@[k] == before[k - 1]);
                }
            }
            assert forall|k: int, l: int|
                0 <= k < l < order@.len() implies comes_before(
                events@,
                #[trigger] order@[k] as int,
                #[trigger] order@[l] as int,
            ) by {
                if l < pos {
                    assert(order@[k] == before[k] && order@[l] == before[l]);
                } else if l == pos {
                    assert(order@[k] == before[k]);
                    assert(events@[before[k] as int].event_id@ <= id);
                } else if k < pos {
                    assert(order@[k] == before[k] && order@[l] == before[l - 1]);
                } else if k == pos {
                    assert(order@[l] == before[l - 1]);
                    assert(pos < before.len());
                    assert(!(events@[before[pos as int] as int].event_id@ <= id));
                    if l - 1 > pos {
                        assert(comes_before(events@, before[pos as int] as int, before[l - 1] as int));
                    }
                } else {
                    assert(order@[k] == before[k - 1] && order@[l] == before[l - 1]);
                }
            }
        }
        i = i + 1;
    }
    proof {
        let m = order@.map_values(|k: usize| k as int);
        assert forall|k: int, l: int| 0 <= k < l < m.len() implies comes_before(events@, #[trigger] m[k], #[trigger] m[l]) by {
            assert(m[k] == order@[k] as int && m[l] == order@[l] as int);
        }
        assert forall|k: int| 0 <= k < m.len() implies 0 <= #[trigger] m[k] < events@.len() by {
            assert(m[k] == order@[k] as int);
        }
    }
    order
}

/// Rebuilds the state of `command` by applying `events` to a state that
/// `Default::default` returns, in ascending order of their ids, which are
/// time-ordered; events with equal ids keep the order they were read in.
/// The events are not changed and the streams are not consulted.
pub fn reconstruct_state<C: Command>(command: &C, events: &[StoredEvent<C::Event>], streams: &[StreamId]) -> (s: C::State)
    ensures
        exists|initial: C::State, order: Seq<int>|
            call_ensures(C::State::default, (), initial) && is_id_order(events@, order) && s == fold_events(
                *command,
                initial,
                in_order(events@, order),
            ),
{
    let order = id_order(events);
    let ghost ord = order@.map_values(|k: usize| k as int);
    let ghost sorted = in_order(events@, ord);
    let initial = C::State::default();
    let mut state = initial;
    let mut k: usize = 0;
    while k < order.len()
        invariant
            k <= order@.len(),
            is_id_order(events@, ord),
            ord == order@.map_values(|k: usize| k as int),
            sorted == in_order(events@, ord),
            state == fold_events(*command, initial, sorted.take(k as int)),
        decreases order@.len() - k,
    {
        let idx = order[k];
        proof {
            assert(ord[k as int] == idx as int);
        }
        command.apply(&mut state, &events[idx]);
        proof {
            let t = sorted.take(k + 1);
            assert(t.drop_last() =~= sorted.take(k as int));
            assert(t.last() == events@[idx as int]);
        }
        k = k + 1;
    }
    proof {
        assert(sorted.take(order@.len() as int) =~= sorted);
    }
    state
}

/// Why the events cannot rebuild a state.
#[derive(Debug)]
pub enum ReconstructionError {
    /// An event belongs to a stream the command does not read.
    UnexpectedStream { stream_id: StreamId, expected_streams: Vec<StreamId> },
    /// A stream the command needs has no events.
    MissingEvents { stream_id: StreamId },
    /// The events are out of order.
    InvalidEventOrdering { details: String },
    /// A business rule does not hold of the rebuilt state.
    InvariantViolation { details: String },
}

/// Whether `streams` holds `id`.
pub open spec fn has_stream(streams: Seq<StreamId>, id: Seq<char>) -> bool {
    exists|i: int| 0 <= i < streams.len() && (#[trigger] streams[i])@ == id
}

/// The index of the first event whose stream is not in `streams`, if any.
pub open spec fn first_unexpected<E>(events: Seq<StoredEvent<E>>, streams: Seq<StreamId>) -> Option<int> {
    if exists|i: int| 0 <= i < events.len() && !has_stream(streams, (#[trigger] events[i]).stream_id@) {
        Some(
            choose|i: int|
                0 <= i < events.len() && !has_stream(streams, events[i].stream_id@) && forall|j: int|
                    0 <= j < i ==> has_stream(streams, (#[trigger] events[j]).stream_id@),
        )
    } else {
        None
    }
}

/// Whether the event at `i` is the first of `events` that belongs to none
/// of `streams`.
pub open spec fn is_first_unexpected<E>(events: Seq<StoredEvent<E>>, streams: Seq<StreamId>, i: int) -> bool {
    &&& 0 <= i < events.len()
    &&& !has_stream(streams, events[i].stream_id@)
    &&& forall|j: int| 0 <= j < i ==> has_stream(streams, (#[trigger] events[j]).stream_id@)
}

proof fn lemma_first_unexpected_below<E>(events: Seq<StoredEvent<E>>, streams: Seq<StreamId>, k: int)
    requires
        0 <= k < events.len(),
        !has_stream(streams, events[k].stream_id@),
    ensures
        exists|i: int| #[trigger] is_first_unexpected(events, streams, i),
    decreases k,
{
    if exists|j: int| 0 <= j < k && !has_stream(streams, (#[trigger] events[j]).stream_id@) {
        let j = choose|j: int| 0 <= j < k && !has_stream(streams, (#[trigger] events[j]).stream_id@);
        lemma_first_unexpected_below(events, streams, j);
    } else {
        assert(is_first_unexpected(events, streams, k));
    }
}

/// The event that [`first_unexpected`] finds is the first that belongs to
/// none of the streams; when it finds none, every event belongs to one.
pub proof fn lemma_first_unexpected<E>(events: Seq<StoredEvent<E>>, streams: Seq<StreamId>)
    ensures
        match first_unexpected(events, streams) {
            Some(i) => is_first_unexpected(events, streams, i),
            None => forall|i: int| 0 <= i < events.len() ==> has_stream(streams, (#[trigger] events[i]).stream_id@),
        },
{
    if exists|k: int| 0 <= k < events.len() && !has_stream(streams, (#[trigger] events[k]).stream_id@) {
        let k = choose|k: int| 0 <= k < events.len() && !has_stream(streams, (#[trigger] events[k]).stream_id@);
        lemma_first_unexpected_below(events, streams, k);
        let i = choose|i: int| #[trigger] is_first_unexpected(events, streams, i);
        assert(is_first_unexpected(events, streams, i));
    }
}

fn contains_stream(streams: &[StreamId], id: &StreamId) -> (b: bool)
    ensures
        b == has_stream(streams@, id@),
{
    let mut i: usize = 0;
    while i < streams.len()
        invariant
            i <= streams@.len(),
            forall|j: int| 0 <= j < i ==> (#[trigger] streams@[j])@ != id@,
        decreases streams@.len() - i,
    {
        if streams[i].same_as(id) {
            return true;
        }
        i = i + 1;
    }
    false
}

fn copy_streams(streams: &[StreamId]) -> (v: Vec<StreamId>)
    ensures
        v@.len() == streams@.len(),
        forall|i: int| 0 <= i < v@.len() ==> (#[trigger] v@[i])@ == streams@[i]@,
{
    let mut v: Vec<StreamId> = Vec::new();
    let mut i: usize = 0;
    while i < streams.len()
        invariant
            i <= streams@.len(),
            v@.len() == i,
            forall|k: int| 0 <= k < i ==> (#[trigger] v@[k])@ == streams@[k]@,
        decreases streams@.len() - i,
    {
        v.push(streams[i].clone());
        i = i + 1;
    }
    v
}

/// Checks that every event belongs to one of `expected_streams`; the first
/// that does not is reported with the expected streams.
pub fn validate_events_for_reconstruction<E>(events: &[StoredEvent<E>], expected_streams: &[StreamId]) -> (r: Result<
    (),
    ReconstructionError,
>)
    ensures
        match first_unexpected(events@, expected_streams@) {
            None => r is Ok,
            Some(i) => r matches Err(ReconstructionError::UnexpectedStream { stream_id, expected_streams: got }) && stream_id@
                == events@[i].stream_id@ && got@.len() == expected_streams@.len() && forall|k: int|
                0 <= k < got@.len() ==> (#[trigger] got@[k])@ == expected_streams@[k]@,
        },
{
    let mut i: usize = 0;
    while i < events.len()
        invariant
            i <= events@.len(),
            forall|j: int| 0 <= j < i ==> has_stream(expected_streams@, (#[trigger] events@[j]).stream_id@),
        decreases events@.len() - i,
    {
        if !contains_stream(expected_streams, &events[i].stream_id) {
            proof {
                let w = choose|k: int|
                    0 <= k < events@.len() && !has_stream(expected_streams@, events@[k].stream_id@) && forall|j: int|
                        0 <= j < k ==> has_stream(expected_streams@, (#[trigger] events@[j]).stream_id@);
                assert(0 <= i < events@.len() && !has_stream(expected_streams@, events@[i as int].stream_id@));
                if w < i {
                    assert(has_stream(expected_streams@, events@[w].stream_id@));
                }
                if w > i {
                    assert(has_stream(expected_streams@, events@[i as int].stream_id@));
                }
            }
            return Err(
                ReconstructionError::UnexpectedStream {
                    stream_id: events[i].stream_id.clone(),
                    expected_streams: copy_streams(expected_streams),
                },
            );
        }
        i = i + 1;
    }
    Ok(())
}

/// The number of `events` in stream `id`.
pub open spec fn count_in_stream<E>(events: Seq<StoredEvent<E>>, id: Seq<char>) -> nat
    decreases events.len(),
{
    if events.len() == 0 {
        0
    } else {
        count_in_stream(events.drop_last(), id) + if events.last().stream_id@ == id {
            1nat
        } else {
            0nat
        }
    }
}

/// The span between the earliest and the latest timestamp of `events`, in
/// nanoseconds, or zero when the earliest is later.
pub open spec fn min_timestamp<E>(events: Seq<StoredEvent<E>>) -> int
    decreases events.len(),
{
    if events.len() <= 1 {
        if events.len() == 0 {
            0
        } else {
            events[0].timestamp as int
        }
    } else {
        let m = min_timestamp(events.drop_last());
        if events.last().timestamp < m {
            events.last().timestamp as int
        } else {
            m
        }
    }
}

/// The latest timestamp of `events`.
pub open spec fn max_timestamp<E>(events: Seq<StoredEvent<E>>) -> int
    decreases events.len(),
{
    if events.len() <= 1 {
        if events.len() == 0 {
            0
        } else {
            events[0].timestamp as int
        }
    } else {
        let m = max_timestamp(events.drop_last());
        if events.last().timestamp > m {
            events.last().timestamp as int
        } else {
            m
        }
    }
}

proof fn lemma_min_le_max<E>(events: Seq<StoredEvent<E>>)
    ensures
        min_timestamp(events) <= max_timestamp(events),
    decreases events.len(),
{
    if events.len() > 1 {
        lemma_min_le_max(events.drop_last());
    }
}

/// Statistics of a reconstruction.
#[derive(Debug)]
pub struct ReconstructionStats {
    /// Events applied.
    pub events_processed: usize,
    /// Streams read.
    pub streams_count: usize,
    /// Events per stream read, in the order the streams were given.
    pub events_per_stream: Vec<(StreamId, usize)>,
    /// Nanoseconds between the earliest and the latest event, when there are
    /// events.
    pub time_span: Option<u64>,
}

fn count_events<E>(events: &[StoredEvent<E>], id: &StreamId) -> (n: usize)
    ensures
        n == count_in_stream(events@, id@),
{
    let mut n: usize = 0;
    let mut i: usize = 0;
    while i < events.len()
        invariant
            i <= events@.len(),
            n == count_in_stream(events@.take(i as int), id@),
            n <= i,
        decreases events@.len() - i,
    {
        proof {
            let t = events@.take(i + 1);
            assert(t.drop_last() =~= events@.take(i as int));
            assert(t.last() == events@[i as int]);
        }
        if events[i].stream_id.same_as(id) {
            n = n + 1;
        }
        i = i + 1;
    }
    proof {
        assert(events@.take(events@.len() as int) =~= events@);
    }
    n
}

impl ReconstructionStats {
    /// The statistics of `events` read from `streams`.
    pub fn from_stream_data<E>(events: &[StoredEvent<E>], streams: &[StreamId]) -> (s: Self)
        ensures
            s.events_processed == events@.len(),
            s.streams_count == streams@.len(),
            s.events_per_stream@.len() == streams@.len(),
            forall|k: int|
                0 <= k < streams@.len() ==> (#[trigger] s.events_per_stream@[k]).0@ == streams@[k]@
                    && s.events_per_stream@[k].1 == count_in_stream(events@, streams@[k]@),
            events@.len() == 0 ==> s.time_span.is_none(),
            events@.len() > 0 ==> s.time_span == Some(
                (if max_timestamp(events@) - min_timestamp(events@) > u64::MAX {
                    u64::MAX as int
                } else {
                    max_timestamp(events@) - min_timestamp(events@)
                }) as u64,
            ),
    {
        let mut per_stream: Vec<(StreamId, usize)> = Vec::new();
        let mut k: usize = 0;
        while k < streams.len()
            invariant
                k <= streams@.len(),
                per_stream@.len() == k,
                forall|j: int|
                    0 <= j < k ==> (#[trigger] per_stream@[j]).0@ == streams@[j]@ && per_stream@[j].1
                        == count_in_stream(events@, streams@[j]@),
            decreases streams@.len() - k,
        {
            let n = count_events(events, &streams[k]);
            per_stream.push((streams[k].clone(), n));
            k = k + 1;
        }
        let time_span = if events.len() == 0 {
            None
        } else {
            let mut lo: i64 = events[0].timestamp;
            let mut hi: i64 = events[0].timestamp;
            let mut i: usize = 1;
            proof {
                assert(events@.take(1).len() == 1);
                assert(events@.take(1)[0] == events@[0]);
            }
            while i < events.len()
                invariant
                    1 <= i <= events@.len(),
                    lo == min_timestamp(events@.take(i as int)),
                    hi == max_timestamp(events@.take(i as int)),
                decreases events@.len() - i,
            {
                proof {
                    let t = events@.take(i + 1);
                    assert(t.drop_last() =~= events@.take(i as int));
                    assert(t.last() == events@[i as int]);
                }
                if events[i].timestamp < lo {
                    lo = events[i].timestamp;
                }
                if events[i].timestamp > hi {
                    hi = events[i].timestamp;
                }
                i = i + 1;
            }
            proof {
                assert(events@.take(events@.len() as int) =~= events@);
                lemma_min_le_max(events@);
            }
            let span: i128 = hi as i128 - lo as i128;
            if span > u64::MAX as i128 {
                Some(u64::MAX)
            } else if span < 0 {
                Some(0)
            } else {
                Some(span as u64)
            }
        };
        ReconstructionStats {
            events_processed: events.len(),
            streams_count: streams.len(),
            events_per_stream: per_stream,
            time_span,
        }
    }
}

} // verus!
