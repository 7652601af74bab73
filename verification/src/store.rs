//! In-memory event store with optimistic concurrency control.
//!
//! Each stream keeps its events in order and a version that counts them. An
//! append names the version it expects of every stream it touches; if any
//! stream is at another version, nothing is written. Every appended event is
//! also added to a global log, in which its index is its position.

use vstd::prelude::*;

use crate::types::{
    EventStoreError, StreamId, StreamVersion, StreamWriteEntry, StreamWrites, registered_version,
};

verus! {

/// The events and version of one stream.
struct StreamRecord<E> {
    id: StreamId,
    events: Vec<E>,
    version: StreamVersion,
}

/// One entry of the global log: the stream and type name of an appended
/// event, and its index among the events of its stream.
struct LogRecord {
    stream_id: StreamId,
    event_type: String,
    index: usize,
}

/// The contents of a store seen from one stream: its events in order and its
/// version.
pub struct StreamContents<E> {
    pub events: Seq<E>,
    pub version: u64,
}

/// The streams of a list of records, by identifier.
spec fn streams_map<E>(records: Seq<StreamRecord<E>>) -> Map<Seq<char>, StreamContents<E>>
    decreases records.len(),
{
    if records.len() == 0 {
        Map::empty()
    } else {
        streams_map(records.drop_last()).insert(
            records.last().id@,
            StreamContents { events: records.last().events@, version: records.last().version@ },
        )
    }
}

/// The events among `events` that go to stream `id`, where `streams[i]` is
/// the stream of `events[i]`.
pub open spec fn events_for<E>(streams: Seq<Seq<char>>, events: Seq<E>, id: Seq<char>) -> Seq<E>
    decreases streams.len(),
{
    if streams.len() == 0 || events.len() == 0 {
        Seq::empty()
    } else if streams.last() == id {
        events_for(streams.drop_last(), events.drop_last(), id).push(events.last())
    } else {
        events_for(streams.drop_last(), events.drop_last(), id)
    }
}

/// A batch whose events all go to stream `id` adds all its events to that
/// stream, in the order of the batch.
pub proof fn lemma_single_stream_batch<E>(streams: Seq<Seq<char>>, events: Seq<E>, id: Seq<char>)
    requires
        streams.len() == events.len(),
        forall|i: int| 0 <= i < streams.len() ==> streams[i] == id,
    ensures
        events_for(streams, events, id) == events,
    decreases streams.len(),
{
    if streams.len() > 0 {
        lemma_single_stream_batch(streams.drop_last(), events.drop_last(), id);
        assert(events.drop_last().push(events.last()) =~= events);
    }
}

/// A batch that names no event for stream `id` adds nothing to it.
pub proof fn lemma_untouched_stream<E>(streams: Seq<Seq<char>>, events: Seq<E>, id: Seq<char>)
    requires
        forall|i: int| 0 <= i < streams.len() ==> streams[i] != id,
    ensures
        events_for(streams, events, id) == Seq::<E>::empty(),
    decreases streams.len(),
{
    if streams.len() > 0 && events.len() > 0 {
        lemma_untouched_stream(streams.drop_last(), events.drop_last(), id);
    }
}

/// `v` advanced by `n`, saturating at `u64::MAX`.
pub open spec fn advanced(v: u64, n: nat) -> u64 {
    if v + n <= u64::MAX {
        (v + n) as u64
    } else {
        u64::MAX
    }
}

/// Whether every registered stream is at its expected version in `store`.
pub open spec fn versions_match<E>(
    expected: Seq<(Seq<char>, u64)>,
    store: Map<Seq<char>, StreamContents<E>>,
) -> bool {
    forall|i: int|
        0 <= i < expected.len() ==> version_in(store, (#[trigger] expected[i]).0)
            == expected[i].1
}

/// The version of stream `id` in `store`: 0 for a stream never written.
pub open spec fn version_in<E>(store: Map<Seq<char>, StreamContents<E>>, id: Seq<char>) -> u64 {
    if store.contains_key(id) {
        store[id].version
    } else {
        0
    }
}

/// The events of stream `id` in `store`: none for a stream never written.
pub open spec fn events_in<E>(store: Map<Seq<char>, StreamContents<E>>, id: Seq<char>) -> Seq<E> {
    if store.contains_key(id) {
        store[id].events
    } else {
        Seq::empty()
    }
}

proof fn lemma_streams_map_keys<E>(records: Seq<StreamRecord<E>>, id: Seq<char>)
    ensures
        streams_map(records).contains_key(id) <==> exists|j: int|
            0 <= j < records.len() && (#[trigger] records[j]).id@ == id,
    decreases records.len(),
{
    if records.len() > 0 {
        lemma_streams_map_keys(records.drop_last(), id);
        if streams_map(records.drop_last()).contains_key(id) {
            let j = choose|j: int|
                0 <= j < records.drop_last().len() && (#[trigger] records.drop_last()[j]).id@ == id;
            assert(records[j] == records.drop_last()[j]);
        }
        if exists|j: int| 0 <= j < records.len() && (#[trigger] records[j]).id@ == id {
            let j = choose|j: int| 0 <= j < records.len() && (#[trigger] records[j]).id@ == id;
            if j < records.len() - 1 {
                assert(records.drop_last()[j] == records[j]);
            }
        }
    }
}

proof fn lemma_streams_map_at<E>(records: Seq<StreamRecord<E>>, j: int)
    requires
        0 <= j < records.len(),
        forall|a: int, b: int|
            0 <= a < b < records.len() ==> (#[trigger] records[a]).id@ != (#[trigger] records[b]).id@,
    ensures
        streams_map(records).contains_key(records[j].id@),
        streams_map(records)[records[j].id@] == (StreamContents {
            events: records[j].events@,
            version: records[j].version@,
        }),
    decreases records.len(),
{
    if j < records.len() - 1 {
        lemma_streams_map_at(records.drop_last(), j);
        assert(records.drop_last()[j] == records[j]);
        assert(records.last().id@ != records[j].id@);
    }
}

proof fn lemma_streams_map_update<E>(records: Seq<StreamRecord<E>>, j: int, r: StreamRecord<E>)
    requires
        0 <= j < records.len(),
        r.id@ == records[j].id@,
        forall|a: int, b: int|
            0 <= a < b < records.len() ==> (#[trigger] records[a]).id@ != (#[trigger] records[b]).id@,
    ensures
        streams_map(records.update(j, r)) == streams_map(records).insert(
            r.id@,
            StreamContents { events: r.events@, version: r.version@ },
        ),
    decreases records.len(),
{
    let u = records.update(j, r);
    if j == records.len() - 1 {
        assert(u.drop_last() =~= records.drop_last());
        lemma_streams_map_keys(records.drop_last(), r.id@);
        assert(streams_map(u) =~= streams_map(records).insert(
            r.id@,
            StreamContents { events: r.events@, version: r.version@ },
        ));
    } else {
        lemma_streams_map_update(records.drop_last(), j, r);
        assert(u.drop_last() =~= records.drop_last().update(j, r));
        assert(records.last().id@ != r.id@);
        assert(streams_map(u) =~= streams_map(records).insert(
            r.id@,
            StreamContents { events: r.events@, version: r.version@ },
        ));
    }
}

/// A lightweight event store that keeps everything in memory.
pub struct InMemoryEventStore<E> {
    streams: Vec<StreamRecord<E>>,
    global_log: Vec<LogRecord>,
}

impl<E> InMemoryEventStore<E> {
    /// The streams of the store, by identifier.
    pub closed spec fn spec_streams(&self) -> Map<Seq<char>, StreamContents<E>> {
        streams_map(self.streams@)
    }

    /// The global log, in the order of appending: for each event, its stream,
    /// its type name and its index among the events of its stream. An entry's
    /// index in the log is the event's position.
    pub closed spec fn spec_log(&self) -> Seq<(Seq<char>, Seq<char>, nat)> {
        self.global_log@.map_values(|r: LogRecord| (r.stream_id@, r.event_type@, r.index as nat))
    }

    /// Each stream is kept once.
    pub closed spec fn wf(&self) -> bool {
        forall|a: int, b: int|
            0 <= a < b < self.streams@.len() ==> (#[trigger] self.streams@[a]).id@
                != (#[trigger] self.streams@[b]).id@
    }

    /// An empty store: every stream is at version 0 with no events.
    pub fn new() -> (s: Self)
        ensures
            s.wf(),
            s.spec_streams() == Map::<Seq<char>, StreamContents<E>>::empty(),
            s.spec_log().len() == 0,
    {
        InMemoryEventStore { streams: Vec::new(), global_log: Vec::new() }
    }

    fn find(&self, id: &StreamId) -> (r: Option<usize>)
        requires
            self.wf(),
        ensures
            match r {
                Some(j) => j < self.streams@.len() && self.streams@[j as int].id@ == id@,
                None => !self.spec_streams().contains_key(id@),
            },
    {
        let mut j: usize = 0;
        while j < self.streams.len()
            invariant
                j <= self.streams@.len(),
                forall|k: int| 0 <= k < j ==> (#[trigger] self.streams@[k]).id@ != id@,
            decreases self.streams@.len() - j,
        {
            if self.streams[j].id.same_as(id) {
                return Some(j);
            }
            j = j + 1;
        }
        proof {
            lemma_streams_map_keys(self.streams@, id@);
        }
        None
    }

    /// The current version of `stream_id`: 0 for a stream never written.
    pub fn stream_version(&self, stream_id: &StreamId) -> (v: StreamVersion)
        requires
            self.wf(),
        ensures
            v@ == version_in(self.spec_streams(), stream_id@),
    {
        match self.find(stream_id) {
            Some(j) => {
                proof {
                    lemma_streams_map_at(self.streams@, j as int);
                }
                self.streams[j].version
            },
            None => StreamVersion::new(0),
        }
    }

    /// The events of `stream_id`, in the order they were appended.
    pub fn stream_events(&self, stream_id: &StreamId) -> (evs: &[E])
        requires
            self.wf(),
        ensures
            evs@ == events_in(self.spec_streams(), stream_id@),
    {
        match self.find(stream_id) {
            Some(j) => {
                proof {
                    lemma_streams_map_at(self.streams@, j as int);
                }
                self.streams[j].events.as_slice()
            },
            None => &[],
        }
    }

    /// Appends a batch of writes atomically. It succeeds exactly when every
    /// registered stream is at its expected version; then each event is added
    /// to its stream and to the global log, in order, and each stream's
    /// version grows by the number of its new events. On a version conflict
    /// nothing changes.
    pub fn append_events(&mut self, writes: StreamWrites<E>) -> (r: Result<(), EventStoreError>)
        requires
            old(self).wf(),
            writes.wf(),
        ensures
            final(self).wf(),
            r.is_ok() <==> versions_match(writes.spec_expected(), old(self).spec_streams()),
            r.is_err() ==> r == Err::<(), EventStoreError>(EventStoreError::VersionConflict)
                && final(self).spec_streams() == old(self).spec_streams() && final(self).spec_log()
                == old(self).spec_log(),
            r.is_ok() ==> forall|id: Seq<char>|
                #![trigger events_in(final(self).spec_streams(), id)]
                events_in(final(self).spec_streams(), id) == events_in(old(self).spec_streams(), id)
                    + events_for(writes.spec_entry_streams(), writes.spec_entry_events(), id)
                    && version_in(final(self).spec_streams(), id) == advanced(
                    version_in(old(self).spec_streams(), id),
                    events_for(writes.spec_entry_streams(), writes.spec_entry_events(), id).len(),
                ),
            r.is_ok() ==> final(self).spec_log().len() == old(self).spec_log().len()
                + writes.spec_entry_events().len(),
            r.is_ok() ==> final(self).spec_log().subrange(0, old(self).spec_log().len() as int)
                == old(self).spec_log(),
            r.is_ok() ==> forall|i: int|
                0 <= i < writes.spec_entry_events().len() ==> {
                    let rec = #[trigger] final(self).spec_log()[old(self).spec_log().len() + i];
                    &&& rec.0 == writes.spec_entry_streams()[i]
                    &&& rec.2 < events_in(final(self).spec_streams(), rec.0).len()
                    &&& events_in(final(self).spec_streams(), rec.0)[rec.2 as int]
                        == writes.spec_entry_events()[i]
                },
    {
        let expected = writes.expected_versions();
        let ghost exp = writes.spec_expected();
        let mut i: usize = 0;
        while i < expected.len()
            invariant
                self.wf(),
                *self == *old(self),
                exp == writes.spec_expected(),
                expected@.map_values(|p: (StreamId, StreamVersion)| (p.0@, p.1@)) == exp,
                i <= expected@.len(),
                forall|k: int|
                    0 <= k < i ==> version_in(self.spec_streams(), (#[trigger] exp[k]).0)
                        == exp[k].1,
            decreases expected@.len() - i,
        {
            let current = self.stream_version(&expected[i].0);
            if current.into_inner() != expected[i].1.into_inner() {
                proof {
                    assert(exp[i as int] == (expected@[i as int].0@, expected@[i as int].1@));
                    assert(version_in(old(self).spec_streams(), exp[i as int].0) != exp[i as int].1);
                    assert(!versions_match(exp, old(self).spec_streams()));
                    assert(exp == writes.spec_expected());
                    assert(!versions_match(writes.spec_expected(), old(self).spec_streams()));
                }
                return Err(EventStoreError::VersionConflict);
            }
            proof {
                assert(exp[i as int] == (expected@[i as int].0@, expected@[i as int].1@));
            }
            i = i + 1;
        }
        let ghost streams = writes.spec_entry_streams();
        let ghost events = writes.spec_entry_events();
        let ghost start = self.spec_streams();
        let ghost log0 = self.spec_log();
        let mut entries = writes.into_entries();
        let ghost all = entries@;
        let n_exec = entries.len();
        let ghost n = all.len();
        let mut k: usize = 0;
        proof {
            assert(streams.len() == n && events.len() == n);
        }
        while entries.len() > 0
            invariant
                self.wf(),
                n == all.len(),
                n == n_exec,
                streams.len() == n,
                events.len() == n,
                forall|q: int| 0 <= q < n ==> #[trigger] streams[q] == all[q].stream_id@,
                forall|q: int| 0 <= q < n ==> #[trigger] events[q] == all[q].event,
                k <= n,
                entries@ == all.subrange(k as int, n as int),
                forall|id: Seq<char>|
                    #![trigger events_in(self.spec_streams(), id)]
                    events_in(self.spec_streams(), id) == events_in(start, id) + events_for(
                        streams.take(k as int),
                        events.take(k as int),
                        id,
                    ) && version_in(self.spec_streams(), id) == advanced(
                        version_in(start, id),
                        events_for(streams.take(k as int), events.take(k as int), id).len(),
                    ),
                self.spec_log().len() == log0.len() + k,
                self.spec_log().subrange(0, log0.len() as int) == log0,
                forall|i: int|
                    0 <= i < k ==> {
                        let rec = #[trigger] self.spec_log()[log0.len() + i];
                        &&& rec.0 == streams[i]
                        &&& rec.2 < events_in(self.spec_streams(), rec.0).len()
                        &&& events_in(self.spec_streams(), rec.0)[rec.2 as int] == events[i]
                    },
            decreases entries@.len(),
        {
            let entry = entries.remove(0);
            let StreamWriteEntry { stream_id, event, event_type } = entry;
            let ghost pre = self.spec_streams();
            let ghost prelog = self.spec_log();
            let ghost sid = stream_id@;
            proof {
                assert(all[k as int] == entry);
                assert(streams.take(k + 1).drop_last() =~= streams.take(k as int));
                assert(events.take(k + 1).drop_last() =~= events.take(k as int));
                assert(streams.take(k + 1).last() == sid);
                assert(events.take(k + 1).last() == event);
                assert(entries@ =~= all.subrange(k + 1, n as int));
            }
            let index;
            let ghost new_ver: u64;
            match self.find(&stream_id) {
                Some(j) => {
                    proof {
                        lemma_streams_map_at(self.streams@, j as int);
                    }
                    let ghost before = self.streams@;
                    let mut rec = self.streams.remove(j);
                    index = rec.events.len();
                    rec.events.push(event);
                    rec.version = rec.version.increment();
                    let ghost rec_view = rec;
                    self.streams.insert(j, rec);
                    proof {
                        new_ver = rec_view.version@;
                        assert(self.streams@ =~= before.update(j as int, rec_view));
                        lemma_streams_map_update(before, j as int, rec_view);
                        assert(new_ver == if version_in(pre, sid) < u64::MAX {
                            (version_in(pre, sid) + 1) as u64
                        } else {
                            u64::MAX
                        });
                        assert(rec_view.events@ == events_in(pre, sid).push(event));
                        assert forall|a: int, b: int|
                            0 <= a < b < self.streams@.len() implies (#[trigger] self.streams@[a]).id@
                            != (#[trigger] self.streams@[b]).id@ by {
                            assert(self.streams@[a].id@ == before[a].id@);
                            assert(self.streams@[b].id@ == before[b].id@);
                        }
                    }
                },
                None => {
                    let ghost before = self.streams@;
                    let mut evs = Vec::new();
                    evs.push(event);
                    index = 0;
                    let rec = StreamRecord {
                        id: stream_id.clone(),
                        events: evs,
                        version: StreamVersion::new(1),
                    };
                    let ghost rec_view = rec;
                    self.streams.push(rec);
                    proof {
                        new_ver = 1;
                        lemma_streams_map_keys(before, sid);
                        assert(self.streams@.drop_last() =~= before);
                        assert forall|a: int, b: int|
                            0 <= a < b < self.streams@.len() implies (#[trigger] self.streams@[a]).id@
                            != (#[trigger] self.streams@[b]).id@ by {
                            if b == before.len() {
                                assert(self.streams@[a] == before[a]);
                            } else {
                                assert(self.streams@[a] == before[a]);
                                assert(self.streams@[b] == before[b]);
                            }
                        }
                        assert(events_in(pre, sid).len() == 0);
                        assert(version_in(pre, sid) == 0);
                        assert(rec_view.events@ =~= events_in(pre, sid).push(event));
                    }
                },
            }
            self.global_log.push(LogRecord { stream_id, event_type, index });
            proof {
                let post = self.spec_streams();
                assert(post == pre.insert(
                    sid,
                    StreamContents { events: events_in(pre, sid).push(event), version: new_ver },
                ));
                assert(new_ver == if version_in(pre, sid) < u64::MAX {
                    (version_in(pre, sid) + 1) as u64
                } else {
                    u64::MAX
                });
                assert forall|id: Seq<char>|
                    #![trigger events_in(self.spec_streams(), id)]
                    events_in(self.spec_streams(), id) == events_in(start, id) + events_for(
                        streams.take(k + 1),
                        events.take(k + 1),
                        id,
                    ) && version_in(self.spec_streams(), id) == advanced(
                        version_in(start, id),
                        events_for(streams.take(k + 1), events.take(k + 1), id).len(),
                    ) by {
                    let ef = events_for(streams.take(k as int), events.take(k as int), id);
                    let ef1 = events_for(streams.take(k + 1), events.take(k + 1), id);
                    if id == sid {
                        assert(ef1 == ef.push(event));
                        assert(events_in(post, id) == events_in(pre, id).push(event));
                        assert(events_in(start, id) + events_for(
                            streams.take(k as int),
                            events.take(k as int),
                            id,
                        ).push(event) =~= (events_in(start, id) + events_for(
                            streams.take(k as int),
                            events.take(k as int),
                            id,
                        )).push(event));
                    } else {
                        assert(ef1 == ef);
                        assert(events_in(post, id) == events_in(pre, id));
                        assert(version_in(post, id) == version_in(pre, id));
                    }
                }
                assert(self.spec_log() =~= prelog.push((sid, event_type@, index as nat)));
                assert forall|i: int|
                    0 <= i < k + 1 implies {
                        let rec = #[trigger] self.spec_log()[log0.len() + i];
                        &&& rec.0 == streams[i]
                        &&& rec.2 < events_in(self.spec_streams(), rec.0).len()
                        &&& events_in(self.spec_streams(), rec.0)[rec.2 as int] == events[i]
                    } by {
                    if i < k {
                        assert(self.spec_log()[log0.len() + i] == prelog[log0.len() + i]);
                    }
                }
                assert(self.spec_log().subrange(0, log0.len() as int) =~= log0);
            }
            k = k + 1;
        }
        proof {
            assert(streams.take(n as int) =~= streams);
            assert(events.take(n as int) =~= events);
        }
        Ok(())
    }
}

} // verus!
