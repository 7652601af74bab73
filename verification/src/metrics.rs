//! Counters and timers for observability.

use vstd::prelude::*;
use vstd::relations::{sorted_by, total_ordering};
use vstd::seq_lib::{lemma_sorted_unique, to_multiset_build, to_multiset_insert};

use crate::clock::{elapsed_nanos, now};
use crate::errors::{command_error_category, CommandError};
use crate::logging::StructuredLogger;
use crate::named::{count_of, NamedValues};
use crate::types::{EventId, StreamId};

verus! {

/// The number of most recent samples that a [`Timer`] keeps.
pub const MAX_TIMER_SAMPLES: usize = 1000;

/// A monotonically increasing counter. Like an atomic counter, it wraps
/// around on overflow.
#[derive(Debug)]
pub struct Counter {
    value: u64,
}

impl View for Counter {
    type V = u64;

    open spec fn view(&self) -> u64 {
        self.spec_value()
    }
}

impl Counter {
    /// The current value of the counter.
    pub closed spec fn spec_value(&self) -> u64 {
        self.value
    }

    /// Creates a counter at zero.
    pub fn new() -> (c: Self)
        ensures
            c@ == 0,
    {
        Counter { value: 0 }
    }

    /// Adds one, wrapping around on overflow.
    pub fn increment(&mut self)
        ensures
            final(self)@ == (old(self)@ + 1) % 0x1_0000_0000_0000_0000,
    {
        self.value = self.value.wrapping_add(1);
    }

    /// Adds `amount`, wrapping around on overflow.
    pub fn increment_by(&mut self, amount: u64)
        ensures
            final(self)@ == (old(self)@ + amount) % 0x1_0000_0000_0000_0000,
    {
        self.value = self.value.wrapping_add(amount);
    }

    /// The current value.
    pub fn get(&self) -> (v: u64)
        ensures
            v == self@,
    {
        self.value
    }

    /// Sets the counter back to zero.
    pub fn reset(&mut self)
        ensures
            final(self)@ == 0,
    {
        self.value = 0;
    }
}

impl Default for Counter {
    fn default() -> (c: Self)
        ensures
            c@ == 0,
    {
        Counter::new()
    }
}

/// The samples a timer keeps after `s` were recorded in order: the last
/// [`MAX_TIMER_SAMPLES`] of them.
pub open spec fn sample_window(s: Seq<u64>) -> Seq<u64> {
    if s.len() > MAX_TIMER_SAMPLES {
        s.subrange(s.len() - MAX_TIMER_SAMPLES, s.len() as int)
    } else {
        s
    }
}

/// The sum of a sequence of durations.
pub open spec fn total(s: Seq<u64>) -> int
    decreases s.len(),
{
    if s.len() == 0 {
        0
    } else {
        total(s.drop_last()) + s.last()
    }
}

/// The order in which samples are ranked.
pub open spec fn sample_leq() -> spec_fn(u64, u64) -> bool {
    |a: u64, b: u64| a <= b
}

/// The samples in ascending order.
pub open spec fn ascending(s: Seq<u64>) -> Seq<u64> {
    s.sort_by(sample_leq())
}

/// The rank, among `len` ascending samples, that the `p`-th percentile
/// takes: `(len - 1) * p / 100`, rounded to the nearest integer, halves
/// upward.
pub open spec fn percentile_rank(len: nat, p: nat) -> int {
    ((len - 1) * p * 2 + 100) / 200
}

/// The `p`-th percentile of the samples `s`: the sample of
/// [`percentile_rank`] in ascending order; `None` without samples, or when
/// a percentile above 100 ranks past the last sample.
pub open spec fn percentile_of(s: Seq<u64>, p: nat) -> Option<u64> {
    if s.len() == 0 || percentile_rank(s.len(), p) >= s.len() {
        None
    } else {
        Some(ascending(s)[percentile_rank(s.len(), p)])
    }
}

proof fn lemma_sample_leq_total()
    ensures
        total_ordering(sample_leq()),
{
}

/// A timer keeps at most [`MAX_TIMER_SAMPLES`] samples, and the latest
/// recorded is the last it keeps.
pub proof fn lemma_sample_window_keeps_latest(s: Seq<u64>, d: u64)
    ensures
        sample_window(s.push(d)).len() <= MAX_TIMER_SAMPLES,
        sample_window(s.push(d)).last() == d,
{
}

/// A percentile is one of the samples, and a higher percentile is never
/// below a lower one.
pub proof fn lemma_percentiles_ordered(s: Seq<u64>, p: nat, q: nat)
    requires
        s.len() > 0,
        p <= q <= 100,
    ensures
        percentile_of(s, p) matches Some(a) && s.contains(a),
        percentile_of(s, p) matches Some(a) && percentile_of(s, q) matches Some(b) && a <= b,
{
    lemma_sample_leq_total();
    s.lemma_sort_by_ensures(sample_leq());
    let sorted = ascending(s);
    let n = s.len();
    assert(sorted.len() == n) by {
        sorted.to_multiset_ensures();
        s.to_multiset_ensures();
    }
    let rp = percentile_rank(n, p);
    let rq = percentile_rank(n, q);
    assert(0 <= rp <= rq <= n - 1) by (nonlinear_arith)
        requires
            rp == ((n - 1) * p * 2 + 100) / 200,
            rq == ((n - 1) * q * 2 + 100) / 200,
            p <= q <= 100,
            n >= 1,
    {
        assert((n - 1) * p * 2 <= (n - 1) * q * 2);
        assert((n - 1) * q * 2 + 100 <= (n - 1) * 200 + 100);
    }
    if rp < rq {
        assert(sample_leq()(sorted[rp], sorted[rq]));
    }
    assert(sorted.contains(sorted[rp]));
    assert(s.contains(sorted[rp])) by {
        sorted.to_multiset_ensures();
        s.to_multiset_ensures();
        assert(sorted.to_multiset().count(sorted[rp]) > 0);
    }
}

/// A sorted copy of `s`, by insertion.
fn sorted_copy(s: &Vec<u64>) -> (r: Vec<u64>)
    ensures
        r@ == ascending(s@),
{
    broadcast use to_multiset_build, to_multiset_insert;

    let mut r: Vec<u64> = Vec::new();
    let mut i: usize = 0;
    proof {
        assert(s@.subrange(0, 0) =~= r@);
    }
    while i < s.len()
        invariant
            i <= s@.len(),
            sorted_by(r@, sample_leq()),
            r@.to_multiset() == s@.subrange(0, i as int).to_multiset(),
        decreases s@.len() - i,
    {
        let x = s[i];
        let mut j: usize = 0;
        while j < r.len() && r[j] <= x
            invariant
                j <= r@.len(),
                forall|k: int| 0 <= k < j ==> r@[k] <= x,
            decreases r@.len() - j,
        {
            j = j + 1;
        }
        let ghost before = r@;
        r.insert(j, x);
        proof {
            assert(r@ == before.insert(j as int, x));
            assert forall|a: int, b: int| 0 <= a < b < r@.len() implies #[trigger] (sample_leq())(
                r@[a],
                r@[b],
            ) by {
                assert(sorted_by(before, sample_leq()));
                if b < j {
                    assert((sample_leq())(before[a], before[b]));
                } else if b == j {
                } else if a < j {
                    assert(before[a] <= x);
                    if j < before.len() {
                        assert((sample_leq())(before[j as int], before[b - 1]));
                    }
                } else if a == j {
                    assert((sample_leq())(before[j as int], before[b - 1]));
                } else {
                    assert((sample_leq())(before[a - 1], before[b - 1]));
                }
            }
            to_multiset_insert(before, j as int, x);
            assert(s@.subrange(0, i + 1) =~= s@.subrange(0, i as int).push(x));
            to_multiset_build(s@.subrange(0, i as int), x);
        }
        i = i + 1;
    }
    proof {
        assert(s@.subrange(0, s@.len() as int) =~= s@);
        lemma_sample_leq_total();
        s@.lemma_sort_by_ensures(sample_leq());
        lemma_sorted_unique(r@, ascending(s@), sample_leq());
    }
    r
}

/// A timer that records durations, in nanoseconds, and keeps the most recent
/// [`MAX_TIMER_SAMPLES`] of them.
#[derive(Debug)]
pub struct Timer {
    samples: Vec<u64>,
}

impl View for Timer {
    type V = Seq<u64>;

    open spec fn view(&self) -> Seq<u64> {
        self.spec_samples()
    }
}

impl Timer {
    /// The samples the timer holds, oldest first.
    pub closed spec fn spec_samples(&self) -> Seq<u64> {
        self.samples@
    }

    /// Creates a timer with no samples.
    pub fn new() -> (t: Self)
        ensures
            t@ == Seq::<u64>::empty(),
    {
        Timer { samples: Vec::new() }
    }

    /// Records one duration; the oldest samples are dropped so that no more
    /// than [`MAX_TIMER_SAMPLES`] remain.
    pub fn record(&mut self, duration: u64)
        ensures
            final(self)@ == sample_window(old(self)@.push(duration)),
    {
        self.samples.push(duration);
        let ghost full = self.samples@;
        let ghost mut dropped: int = 0;
        while self.samples.len() > MAX_TIMER_SAMPLES
            invariant
                0 <= dropped <= full.len(),
                self.samples@ == full.subrange(dropped, full.len() as int),
                dropped > 0 ==> full.len() - dropped >= MAX_TIMER_SAMPLES,
            decreases self.samples.len(),
        {
            self.samples.remove(0);
            proof {
                dropped = dropped + 1;
            }
        }
        proof {
            if full.len() > MAX_TIMER_SAMPLES {
                assert(dropped == full.len() - MAX_TIMER_SAMPLES);
            } else {
                assert(dropped == 0);
                assert(self.samples@ =~= full);
            }
        }
    }

    /// A copy of the recorded samples, oldest first.
    pub fn get_samples(&self) -> (s: Vec<u64>)
        ensures
            s@ == self@,
    {
        self.samples.clone()
    }

    /// The mean of the samples, rounded down, or `None` when there are none.
    pub fn mean(&self) -> (m: Option<u64>)
        ensures
            self@.len() == 0 ==> m.is_none(),
            self@.len() > 0 ==> m == Some((total(self@) / (self@.len() as int)) as u64),
    {
        let n = self.samples.len();
        if n == 0 {
            return None;
        }
        let mut sum: u128 = 0;
        let mut i: usize = 0;
        while i < n
            invariant
                n == self.samples@.len(),
                i <= n,
                sum == total(self.samples@.subrange(0, i as int)),
                sum <= i * 0xFFFF_FFFF_FFFF_FFFFu64,
                n <= usize::MAX,
            decreases n - i,
        {
            proof {
                assert(self.samples@.subrange(0, i + 1).drop_last() =~= self.samples@.subrange(0, i as int));
                assert(i * 0xFFFF_FFFF_FFFF_FFFFu64 + 0xFFFF_FFFF_FFFF_FFFFu64 == (i + 1) * 0xFFFF_FFFF_FFFF_FFFFu64) by (nonlinear_arith);
                assert((i + 1) * 0xFFFF_FFFF_FFFF_FFFFu64 <= 0x1_0000_0000_0000_0000 * 0xFFFF_FFFF_FFFF_FFFFu64) by (nonlinear_arith)
                    requires i + 1 <= 0x1_0000_0000_0000_0000;
            }
            sum = sum + self.samples[i] as u128;
            i = i + 1;
        }
        proof {
            assert(self.samples@.subrange(0, n as int) =~= self.samples@);
            assert((sum as int) / (n as int) <= 0xFFFF_FFFF_FFFF_FFFFu64) by (nonlinear_arith)
                requires sum <= n * 0xFFFF_FFFF_FFFF_FFFFu64, n > 0;
        }
        Some((sum / (n as u128)) as u64)
    }
}

impl Timer {
    /// The `p`-th percentile of the samples, for a whole percent `p`, as
    /// [`percentile_of`] defines it; `None` without samples, or when a
    /// percentile above 100 ranks past the last sample.
    pub fn percentile(&self, p: u64) -> (r: Option<u64>)
        ensures
            r == percentile_of(self@, p as nat),
    {
        let n = self.samples.len();
        if n == 0 {
            return None;
        }
        let sorted = sorted_copy(&self.samples);
        proof {
            assert((n - 1) * p <= 0xFFFF_FFFF_FFFF_FFFF * 0xFFFF_FFFF_FFFF_FFFF) by (nonlinear_arith)
                requires p <= 0xFFFF_FFFF_FFFF_FFFFu64, n <= 0xFFFF_FFFF_FFFF_FFFFu64, n >= 1;
        }
        let scaled: u128 = (n - 1) as u128 * p as u128;
        let rank_wide: u128 = scaled / 100 + (if scaled % 100 >= 50 {
            1
        } else {
            0
        });
        proof {
            assert(rank_wide == ((n - 1) * p * 2 + 100) / 200) by (nonlinear_arith)
                requires
                    scaled == (n - 1) * p,
                    rank_wide == scaled / 100 + (if scaled % 100 >= 50 { 1int } else { 0int }),
            ;
        }
        if rank_wide >= n as u128 {
            return None;
        }
        proof {
            assert(sorted@.len() == n) by {
                self@.lemma_sort_by_ensures(sample_leq());
                assert(sorted@.to_multiset().len() == self@.to_multiset().len());
                sorted@.to_multiset_ensures();
                self@.to_multiset_ensures();
            }
        }
        let rank = rank_wide as usize;
        Some(sorted[rank])
    }

    /// The 95th percentile of the samples, as [`percentile_of`] defines it.
    pub fn p95(&self) -> (r: Option<u64>)
        ensures
            r == percentile_of(self@, 95),
    {
        self.percentile(95)
    }

    /// The 99th percentile of the samples, as [`percentile_of`] defines it.
    pub fn p99(&self) -> (r: Option<u64>)
        ensures
            r == percentile_of(self@, 99),
    {
        self.percentile(99)
    }

    /// Runs `f`, records how long it took, and returns its result.
    pub fn time<R, F: FnOnce() -> R>(&mut self, f: F) -> (r: R)
        requires
            f.requires(()),
        ensures
            f.ensures((), r),
            exists|d: u64| final(self)@ == sample_window(old(self)@.push(d)),
    {
        let start = now();
        let result = f();
        let elapsed = elapsed_nanos(&start);
        self.record(elapsed);
        result
    }
}

impl Default for Timer {
    fn default() -> (t: Self)
        ensures
            t@ == Seq::<u64>::empty(),
    {
        Timer::new()
    }
}

/// A count one higher, wrapping around on overflow.
pub open spec fn next_count(n: u64) -> u64 {
    ((n + 1) % 0x1_0000_0000_0000_0000) as u64
}

/// A level one higher, held at the largest value.
pub open spec fn level_up(n: i64) -> i64 {
    if n < i64::MAX {
        (n + 1) as i64
    } else {
        n
    }
}

/// A level one lower, held at the smallest value.
pub open spec fn level_down(n: i64) -> i64 {
    if n > i64::MIN {
        (n - 1) as i64
    } else {
        n
    }
}

/// The counts after each of `names` is counted once more, in order.
pub open spec fn counted(m: Map<Seq<char>, u64>, names: Seq<Seq<char>>) -> Map<Seq<char>, u64>
    decreases names.len(),
{
    if names.len() == 0 {
        m
    } else {
        let before = counted(m, names.drop_last());
        before.insert(names.last(), next_count(count_of(before, names.last())))
    }
}

/// How often `name` occurs in `names`.
pub open spec fn occurrences(names: Seq<Seq<char>>, name: Seq<char>) -> nat
    decreases names.len(),
{
    if names.len() == 0 {
        0
    } else {
        occurrences(names.drop_last(), name) + if names.last() == name {
            1nat
        } else {
            0nat
        }
    }
}

/// Counting a list of names raises each name's count by the number of
/// times it occurs in the list, wrapping around on overflow, and leaves the
/// other names' counts as they were.
pub proof fn lemma_counted_adds_occurrences(m: Map<Seq<char>, u64>, names: Seq<Seq<char>>, name: Seq<char>)
    ensures
        count_of(counted(m, names), name) == (count_of(m, name) + occurrences(names, name))
            % 0x1_0000_0000_0000_0000,
    decreases names.len(),
{
    if names.len() > 0 {
        lemma_counted_adds_occurrences(m, names.drop_last(), name);
        let before = counted(m, names.drop_last());
        let k = count_of(m, name) + occurrences(names.drop_last(), name);
        if names.last() == name {
            assert((k % 0x1_0000_0000_0000_0000 + 1) % 0x1_0000_0000_0000_0000 == (k + 1)
                % 0x1_0000_0000_0000_0000) by (nonlinear_arith)
                requires
                    k >= 0,
            ;
        }
    }
}

/// The texts of stream identifiers.
pub open spec fn stream_texts(ids: Seq<StreamId>) -> Seq<Seq<char>> {
    ids.map_values(|s: StreamId| s@)
}

fn count_once(counts: &mut NamedValues<u64>, name: &str)
    ensures
        final(counts).spec_map() == old(counts).spec_map().insert(
            name@,
            next_count(count_of(old(counts).spec_map(), name@)),
        ),
{
    let current = match counts.get(name) {
        Some(c) => *c,
        None => 0,
    };
    counts.put(name, current.wrapping_add(1));
}

fn count_in(counts: &NamedValues<u64>, name: &str) -> (n: u64)
    ensures
        n == count_of(counts.spec_map(), name@),
{
    match counts.get(name) {
        Some(c) => *c,
        None => 0,
    }
}

fn count_streams(counts: &mut NamedValues<u64>, stream_ids: &[StreamId])
    ensures
        final(counts).spec_map() == counted(old(counts).spec_map(), stream_texts(stream_ids@)),
{
    let ghost start = counts.spec_map();
    let mut i: usize = 0;
    while i < stream_ids.len()
        invariant
            i <= stream_ids@.len(),
            counts.spec_map() == counted(start, stream_texts(stream_ids@.subrange(0, i as int))),
        decreases stream_ids@.len() - i,
    {
        proof {
            assert(stream_texts(stream_ids@.subrange(0, i + 1)).drop_last() =~= stream_texts(
                stream_ids@.subrange(0, i as int),
            ));
        }
        count_once(counts, stream_ids[i].as_str());
        i = i + 1;
    }
    proof {
        assert(stream_ids@.subrange(0, stream_ids@.len() as int) =~= stream_ids@);
    }
}

/// Metrics of command execution.
#[derive(Debug)]
pub struct CommandMetrics {
    /// Commands started.
    pub commands_executed: Counter,
    /// Commands that succeeded.
    pub commands_succeeded: Counter,
    /// Commands that failed.
    pub commands_failed: Counter,
    /// Durations of successful commands, in nanoseconds.
    pub command_duration: Timer,
    /// Commands started and not yet finished.
    pub concurrent_commands: i64,
    /// Commands started, by command type.
    pub commands_by_type: NamedValues<u64>,
    /// Failures, by error category.
    pub errors_by_type: NamedValues<u64>,
}

impl CommandMetrics {
    /// Metrics with nothing recorded.
    pub fn new() -> (m: Self)
        ensures
            m.commands_executed@ == 0,
            m.commands_succeeded@ == 0,
            m.commands_failed@ == 0,
            m.command_duration@ == Seq::<u64>::empty(),
            m.concurrent_commands == 0,
            m.commands_by_type.spec_map() == Map::<Seq<char>, u64>::empty(),
            m.errors_by_type.spec_map() == Map::<Seq<char>, u64>::empty(),
    {
        CommandMetrics {
            commands_executed: Counter::new(),
            commands_succeeded: Counter::new(),
            commands_failed: Counter::new(),
            command_duration: Timer::new(),
            concurrent_commands: 0,
            commands_by_type: NamedValues::new(),
            errors_by_type: NamedValues::new(),
        }
    }

    /// Records that a command of `command_type` started.
    pub fn record_command_start(&mut self, command_type: &str)
        ensures
            final(self).commands_executed@ == next_count(old(self).commands_executed@),
            final(self).concurrent_commands == level_up(old(self).concurrent_commands),
            final(self).commands_by_type.spec_map() == old(self).commands_by_type.spec_map().insert(
                command_type@,
                next_count(count_of(old(self).commands_by_type.spec_map(), command_type@)),
            ),
            final(self).commands_succeeded == old(self).commands_succeeded,
            final(self).commands_failed == old(self).commands_failed,
            final(self).command_duration == old(self).command_duration,
            final(self).errors_by_type == old(self).errors_by_type,
    {
        self.commands_executed.increment();
        if self.concurrent_commands < i64::MAX {
            self.concurrent_commands = self.concurrent_commands + 1;
        }
        count_once(&mut self.commands_by_type, command_type);
    }

    /// Records that a command succeeded after `duration_nanos` nanoseconds.
    pub fn record_command_success(&mut self, duration_nanos: u64)
        ensures
            final(self).commands_succeeded@ == next_count(old(self).commands_succeeded@),
            final(self).concurrent_commands == level_down(old(self).concurrent_commands),
            final(self).command_duration@ == sample_window(old(self).command_duration@.push(duration_nanos)),
            final(self).commands_executed == old(self).commands_executed,
            final(self).commands_failed == old(self).commands_failed,
            final(self).commands_by_type == old(self).commands_by_type,
            final(self).errors_by_type == old(self).errors_by_type,
    {
        self.commands_succeeded.increment();
        if self.concurrent_commands > i64::MIN {
            self.concurrent_commands = self.concurrent_commands - 1;
        }
        self.command_duration.record(duration_nanos);
    }

    /// Records that a command failed with `error`, counted under the error's
    /// category.
    pub fn record_command_failure(&mut self, error: &CommandError)
        ensures
            final(self).commands_failed@ == next_count(old(self).commands_failed@),
            final(self).concurrent_commands == level_down(old(self).concurrent_commands),
            final(self).errors_by_type.spec_map() == old(self).errors_by_type.spec_map().insert(
                command_error_category(*error),
                next_count(count_of(old(self).errors_by_type.spec_map(), command_error_category(*error))),
            ),
            final(self).commands_executed == old(self).commands_executed,
            final(self).commands_succeeded == old(self).commands_succeeded,
            final(self).command_duration == old(self).command_duration,
            final(self).commands_by_type == old(self).commands_by_type,
    {
        self.commands_failed.increment();
        if self.concurrent_commands > i64::MIN {
            self.concurrent_commands = self.concurrent_commands - 1;
        }
        let error_type = StructuredLogger::classify_command_error(error);
        count_once(&mut self.errors_by_type, error_type);
    }

    /// The number of started commands of `command_type`.
    pub fn get_command_count_by_type(&self, command_type: &str) -> (n: u64)
        ensures
            n == count_of(self.commands_by_type.spec_map(), command_type@),
    {
        count_in(&self.commands_by_type, command_type)
    }

    /// The number of failures in the category `error_type`.
    pub fn get_error_count_by_type(&self, error_type: &str) -> (n: u64)
        ensures
            n == count_of(self.errors_by_type.spec_map(), error_type@),
    {
        count_in(&self.errors_by_type, error_type)
    }
}

/// Metrics of event store operations.
#[derive(Debug)]
pub struct EventStoreMetrics {
    /// Read operations started.
    pub reads_total: Counter,
    /// Write operations started.
    pub writes_total: Counter,
    /// Events written.
    pub events_written: Counter,
    /// Events read.
    pub events_read: Counter,
    /// Durations of reads, in nanoseconds.
    pub read_duration: Timer,
    /// Durations of writes, in nanoseconds.
    pub write_duration: Timer,
    /// Operations started and not yet finished.
    pub concurrent_operations: i64,
    /// The number of streams, as last reported.
    pub stream_count: usize,
    /// Operations started, by stream.
    pub operations_by_stream: NamedValues<u64>,
}

impl EventStoreMetrics {
    /// Metrics with nothing recorded.
    pub fn new() -> (m: Self)
        ensures
            m.reads_total@ == 0,
            m.writes_total@ == 0,
            m.events_written@ == 0,
            m.events_read@ == 0,
            m.read_duration@ == Seq::<u64>::empty(),
            m.write_duration@ == Seq::<u64>::empty(),
            m.concurrent_operations == 0,
            m.stream_count == 0,
            m.operations_by_stream.spec_map() == Map::<Seq<char>, u64>::empty(),
    {
        EventStoreMetrics {
            reads_total: Counter::new(),
            writes_total: Counter::new(),
            events_written: Counter::new(),
            events_read: Counter::new(),
            read_duration: Timer::new(),
            write_duration: Timer::new(),
            concurrent_operations: 0,
            stream_count: 0,
            operations_by_stream: NamedValues::new(),
        }
    }

    /// Records that a read of `stream_ids` started; each stream is counted
    /// once for each time it is named.
    pub fn record_read_start(&mut self, stream_ids: &[StreamId])
        ensures
            final(self).reads_total@ == next_count(old(self).reads_total@),
            final(self).concurrent_operations == level_up(old(self).concurrent_operations),
            final(self).operations_by_stream.spec_map() == counted(
                old(self).operations_by_stream.spec_map(),
                stream_texts(stream_ids@),
            ),
            final(self).writes_total == old(self).writes_total,
            final(self).events_written == old(self).events_written,
            final(self).events_read == old(self).events_read,
            final(self).read_duration == old(self).read_duration,
            final(self).write_duration == old(self).write_duration,
            final(self).stream_count == old(self).stream_count,
    {
        self.reads_total.increment();
        if self.concurrent_operations < i64::MAX {
            self.concurrent_operations = self.concurrent_operations + 1;
        }
        count_streams(&mut self.operations_by_stream, stream_ids);
    }

    /// Records that a read finished with `events_count` events after
    /// `duration_nanos` nanoseconds.
    pub fn record_read_complete(&mut self, events_count: usize, duration_nanos: u64)
        ensures
            final(self).events_read@ == (old(self).events_read@ + events_count) % 0x1_0000_0000_0000_0000,
            final(self).read_duration@ == sample_window(old(self).read_duration@.push(duration_nanos)),
            final(self).concurrent_operations == level_down(old(self).concurrent_operations),
            final(self).reads_total == old(self).reads_total,
            final(self).writes_total == old(self).writes_total,
            final(self).events_written == old(self).events_written,
            final(self).write_duration == old(self).write_duration,
            final(self).stream_count == old(self).stream_count,
            final(self).operations_by_stream == old(self).operations_by_stream,
    {
        self.events_read.increment_by(events_count as u64);
        self.read_duration.record(duration_nanos);
        if self.concurrent_operations > i64::MIN {
            self.concurrent_operations = self.concurrent_operations - 1;
        }
    }

    /// Records that a write to `stream_ids` started; each stream is counted
    /// once for each time it is named.
    pub fn record_write_start(&mut self, stream_ids: &[StreamId])
        ensures
            final(self).writes_total@ == next_count(old(self).writes_total@),
            final(self).concurrent_operations == level_up(old(self).concurrent_operations),
            final(self).operations_by_stream.spec_map() == counted(
                old(self).operations_by_stream.spec_map(),
                stream_texts(stream_ids@),
            ),
            final(self).reads_total == old(self).reads_total,
            final(self).events_written == old(self).events_written,
            final(self).events_read == old(self).events_read,
            final(self).read_duration == old(self).read_duration,
            final(self).write_duration == old(self).write_duration,
            final(self).stream_count == old(self).stream_count,
    {
        self.writes_total.increment();
        if self.concurrent_operations < i64::MAX {
            self.concurrent_operations = self.concurrent_operations + 1;
        }
        count_streams(&mut self.operations_by_stream, stream_ids);
    }

    /// Records that a write finished with `events_count` events after
    /// `duration_nanos` nanoseconds.
    pub fn record_write_complete(&mut self, events_count: usize, duration_nanos: u64)
        ensures
            final(self).events_written@ == (old(self).events_written@ + events_count)
                % 0x1_0000_0000_0000_0000,
            final(self).write_duration@ == sample_window(old(self).write_duration@.push(duration_nanos)),
            final(self).concurrent_operations == level_down(old(self).concurrent_operations),
            final(self).reads_total == old(self).reads_total,
            final(self).writes_total == old(self).writes_total,
            final(self).events_read == old(self).events_read,
            final(self).read_duration == old(self).read_duration,
            final(self).stream_count == old(self).stream_count,
            final(self).operations_by_stream == old(self).operations_by_stream,
    {
        self.events_written.increment_by(events_count as u64);
        self.write_duration.record(duration_nanos);
        if self.concurrent_operations > i64::MIN {
            self.concurrent_operations = self.concurrent_operations - 1;
        }
    }

    /// Records the number of streams.
    pub fn update_stream_count(&mut self, count: usize)
        ensures
            final(self).stream_count == count,
            final(self).reads_total == old(self).reads_total,
            final(self).writes_total == old(self).writes_total,
            final(self).events_written == old(self).events_written,
            final(self).events_read == old(self).events_read,
            final(self).concurrent_operations == old(self).concurrent_operations,
            final(self).operations_by_stream == old(self).operations_by_stream,
    {
        self.stream_count = count;
    }

    /// The number of operations started on `stream_id`.
    pub fn get_operations_for_stream(&self, stream_id: &StreamId) -> (n: u64)
        ensures
            n == count_of(self.operations_by_stream.spec_map(), stream_id@),
    {
        count_in(&self.operations_by_stream, stream_id.as_str())
    }
}

/// Metrics of projections.
#[derive(Debug)]
pub struct ProjectionMetrics {
    /// Events processed.
    pub events_processed: Counter,
    /// Events skipped.
    pub events_skipped: Counter,
    /// Errors while processing.
    pub projection_errors: Counter,
    /// Durations of event processing, in nanoseconds.
    pub processing_duration: Timer,
    /// How far each projection lags behind, in milliseconds, as last
    /// reported.
    pub lag_by_projection: NamedValues<u64>,
    /// The last event each projection processed.
    pub last_processed_event: NamedValues<EventId>,
    /// Checkpoints saved.
    pub checkpoint_updates: Counter,
    /// The number of running projections, as last reported.
    pub active_projections: usize,
}

impl ProjectionMetrics {
    /// Metrics with nothing recorded.
    pub fn new() -> (m: Self)
        ensures
            m.events_processed@ == 0,
            m.events_skipped@ == 0,
            m.projection_errors@ == 0,
            m.processing_duration@ == Seq::<u64>::empty(),
            m.lag_by_projection.spec_map() == Map::<Seq<char>, u64>::empty(),
            m.last_processed_event.spec_map() == Map::<Seq<char>, EventId>::empty(),
            m.checkpoint_updates@ == 0,
            m.active_projections == 0,
    {
        ProjectionMetrics {
            events_processed: Counter::new(),
            events_skipped: Counter::new(),
            projection_errors: Counter::new(),
            processing_duration: Timer::new(),
            lag_by_projection: NamedValues::new(),
            last_processed_event: NamedValues::new(),
            checkpoint_updates: Counter::new(),
            active_projections: 0,
        }
    }

    /// Records that `projection_name` processed `event_id` in
    /// `duration_nanos` nanoseconds.
    pub fn record_event_processed(&mut self, projection_name: &str, event_id: EventId, duration_nanos: u64)
        ensures
            final(self).events_processed@ == next_count(old(self).events_processed@),
            final(self).processing_duration@ == sample_window(
                old(self).processing_duration@.push(duration_nanos),
            ),
            final(self).last_processed_event.spec_map() == old(self).last_processed_event.spec_map().insert(
                projection_name@,
                event_id,
            ),
            final(self).events_skipped == old(self).events_skipped,
            final(self).projection_errors == old(self).projection_errors,
            final(self).lag_by_projection == old(self).lag_by_projection,
            final(self).checkpoint_updates == old(self).checkpoint_updates,
            final(self).active_projections == old(self).active_projections,
    {
        self.events_processed.increment();
        self.processing_duration.record(duration_nanos);
        self.last_processed_event.put(projection_name, event_id);
    }

    /// Records that a projection skipped an event.
    pub fn record_event_skipped(&mut self, projection_name: &str)
        ensures
            final(self).events_skipped@ == next_count(old(self).events_skipped@),
            final(self).events_processed == old(self).events_processed,
            final(self).projection_errors == old(self).projection_errors,
            final(self).processing_duration == old(self).processing_duration,
            final(self).lag_by_projection == old(self).lag_by_projection,
            final(self).last_processed_event == old(self).last_processed_event,
            final(self).checkpoint_updates == old(self).checkpoint_updates,
            final(self).active_projections == old(self).active_projections,
    {
        self.events_skipped.increment();
    }

    /// Records that a projection failed on an event.
    pub fn record_projection_error(&mut self, projection_name: &str)
        ensures
            final(self).projection_errors@ == next_count(old(self).projection_errors@),
            final(self).events_processed == old(self).events_processed,
            final(self).events_skipped == old(self).events_skipped,
            final(self).processing_duration == old(self).processing_duration,
            final(self).lag_by_projection == old(self).lag_by_projection,
            final(self).last_processed_event == old(self).last_processed_event,
            final(self).checkpoint_updates == old(self).checkpoint_updates,
            final(self).active_projections == old(self).active_projections,
    {
        self.projection_errors.increment();
    }

    /// Records that `projection_name` lags `lag_nanos` nanoseconds behind,
    /// kept in whole milliseconds.
    pub fn update_projection_lag(&mut self, projection_name: &str, lag_nanos: u64)
        ensures
            final(self).lag_by_projection.spec_map() == old(self).lag_by_projection.spec_map().insert(
                projection_name@,
                lag_nanos / 1_000_000,
            ),
            final(self).events_processed == old(self).events_processed,
            final(self).events_skipped == old(self).events_skipped,
            final(self).projection_errors == old(self).projection_errors,
            final(self).processing_duration == old(self).processing_duration,
            final(self).last_processed_event == old(self).last_processed_event,
            final(self).checkpoint_updates == old(self).checkpoint_updates,
            final(self).active_projections == old(self).active_projections,
    {
        self.lag_by_projection.put(projection_name, lag_nanos / 1_000_000);
    }

    /// Records that a projection saved a checkpoint.
    pub fn record_checkpoint_update(&mut self, projection_name: &str)
        ensures
            final(self).checkpoint_updates@ == next_count(old(self).checkpoint_updates@),
            final(self).events_processed == old(self).events_processed,
            final(self).events_skipped == old(self).events_skipped,
            final(self).projection_errors == old(self).projection_errors,
            final(self).processing_duration == old(self).processing_duration,
            final(self).lag_by_projection == old(self).lag_by_projection,
            final(self).last_processed_event == old(self).last_processed_event,
            final(self).active_projections == old(self).active_projections,
    {
        self.checkpoint_updates.increment();
    }

    /// Records the number of running projections.
    pub fn set_active_projections(&mut self, count: usize)
        ensures
            final(self).active_projections == count,
            final(self).events_processed == old(self).events_processed,
            final(self).events_skipped == old(self).events_skipped,
            final(self).projection_errors == old(self).projection_errors,
            final(self).processing_duration == old(self).processing_duration,
            final(self).lag_by_projection == old(self).lag_by_projection,
            final(self).last_processed_event == old(self).last_processed_event,
            final(self).checkpoint_updates == old(self).checkpoint_updates,
    {
        self.active_projections = count;
    }

    /// The lag of `projection_name` in milliseconds, or 0 when none was
    /// reported.
    pub fn get_projection_lag(&self, projection_name: &str) -> (n: u64)
        ensures
            n == count_of(self.lag_by_projection.spec_map(), projection_name@),
    {
        count_in(&self.lag_by_projection, projection_name)
    }

    /// The last event that `projection_name` processed, if any.
    pub fn get_last_processed_event(&self, projection_name: &str) -> (r: Option<EventId>)
        ensures
            r == (if self.last_processed_event.spec_map().contains_key(projection_name@) {
                Some(self.last_processed_event.spec_map()[projection_name@])
            } else {
                None
            }),
    {
        match self.last_processed_event.get(projection_name) {
            Some(id) => Some(*id),
            None => None,
        }
    }
}

/// The metrics of commands, the event store and projections together.
#[derive(Debug)]
pub struct MetricsRegistry {
    /// Command metrics.
    pub command_metrics: CommandMetrics,
    /// Event store metrics.
    pub event_store_metrics: EventStoreMetrics,
    /// Projection metrics.
    pub projection_metrics: ProjectionMetrics,
}

impl MetricsRegistry {
    /// A registry with nothing recorded.
    pub fn new() -> (r: Self)
        ensures
            r.command_metrics.commands_executed@ == 0,
            r.command_metrics.commands_succeeded@ == 0,
            r.command_metrics.commands_failed@ == 0,
            r.event_store_metrics.reads_total@ == 0,
            r.event_store_metrics.writes_total@ == 0,
            r.event_store_metrics.events_written@ == 0,
            r.event_store_metrics.events_read@ == 0,
            r.projection_metrics.events_processed@ == 0,
            r.projection_metrics.events_skipped@ == 0,
            r.projection_metrics.projection_errors@ == 0,
            r.projection_metrics.checkpoint_updates@ == 0,
            r.command_metrics.command_duration@ == Seq::<u64>::empty(),
            r.command_metrics.concurrent_commands == 0,
            r.command_metrics.commands_by_type.spec_map() == Map::<Seq<char>, u64>::empty(),
            r.command_metrics.errors_by_type.spec_map() == Map::<Seq<char>, u64>::empty(),
            r.event_store_metrics.read_duration@ == Seq::<u64>::empty(),
            r.event_store_metrics.write_duration@ == Seq::<u64>::empty(),
            r.event_store_metrics.concurrent_operations == 0,
            r.event_store_metrics.stream_count == 0,
            r.event_store_metrics.operations_by_stream.spec_map() == Map::<Seq<char>, u64>::empty(),
            r.projection_metrics.processing_duration@ == Seq::<u64>::empty(),
            r.projection_metrics.lag_by_projection.spec_map() == Map::<Seq<char>, u64>::empty(),
            r.projection_metrics.last_processed_event.spec_map() == Map::<Seq<char>, EventId>::empty(),
            r.projection_metrics.active_projections == 0,
    {
        MetricsRegistry {
            command_metrics: CommandMetrics::new(),
            event_store_metrics: EventStoreMetrics::new(),
            projection_metrics: ProjectionMetrics::new(),
        }
    }

    /// Sets the totals of commands, store operations, events and projection
    /// work back to zero; durations, levels and per-name counts stay.
    pub fn reset_all(&mut self)
        ensures
            final(self).command_metrics.commands_executed@ == 0,
            final(self).command_metrics.commands_succeeded@ == 0,
            final(self).command_metrics.commands_failed@ == 0,
            final(self).event_store_metrics.reads_total@ == 0,
            final(self).event_store_metrics.writes_total@ == 0,
            final(self).event_store_metrics.events_written@ == 0,
            final(self).event_store_metrics.events_read@ == 0,
            final(self).projection_metrics.events_processed@ == 0,
            final(self).projection_metrics.events_skipped@ == 0,
            final(self).projection_metrics.projection_errors@ == 0,
            final(self).projection_metrics.checkpoint_updates@ == 0,
            final(self).command_metrics.command_duration == old(self).command_metrics.command_duration,
            final(self).command_metrics.commands_by_type == old(self).command_metrics.commands_by_type,
            final(self).command_metrics.errors_by_type == old(self).command_metrics.errors_by_type,
            final(self).event_store_metrics.operations_by_stream
                == old(self).event_store_metrics.operations_by_stream,
            final(self).projection_metrics.last_processed_event
                == old(self).projection_metrics.last_processed_event,
    {
        self.command_metrics.commands_executed.reset();
        self.command_metrics.commands_succeeded.reset();
        self.command_metrics.commands_failed.reset();
        self.event_store_metrics.reads_total.reset();
        self.event_store_metrics.writes_total.reset();
        self.event_store_metrics.events_written.reset();
        self.event_store_metrics.events_read.reset();
        self.projection_metrics.events_processed.reset();
        self.projection_metrics.events_skipped.reset();
        self.projection_metrics.projection_errors.reset();
        self.projection_metrics.checkpoint_updates.reset();
    }
}

} // verus!
