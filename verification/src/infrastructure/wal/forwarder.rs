//! The decisions of the task that hands the log to a sink, batch by batch.

use vstd::prelude::*;

use crate::infrastructure::sink::SinkError;
use crate::infrastructure::wal::types::{EventView, WalEntry, WalEvent, WalOffset};

verus! {

/// No pause between two attempts is longer than this, in milliseconds.
pub const RETRY_BACKOFF_CAP_MS: u64 = 5000;

/// The first pause is no longer than this, in milliseconds.
pub const RETRY_BACKOFF_START_CAP_MS: u64 = 1000;

/// The first pause after a failure.
pub open spec fn first_backoff(flush_interval_ms: u64) -> u64 {
    if flush_interval_ms < RETRY_BACKOFF_START_CAP_MS {
        flush_interval_ms
    } else {
        RETRY_BACKOFF_START_CAP_MS
    }
}

/// The pause after the one of `backoff_ms`: twice as long, within the cap.
pub open spec fn next_backoff(backoff_ms: u64) -> u64 {
    if backoff_ms * 2 < RETRY_BACKOFF_CAP_MS {
        (backoff_ms * 2) as u64
    } else {
        RETRY_BACKOFF_CAP_MS
    }
}

/// The pause after `failures` failures in a row.
pub open spec fn backoff_after(flush_interval_ms: u64, failures: nat) -> u64
    decreases failures,
{
    if failures == 0 {
        first_backoff(flush_interval_ms)
    } else {
        next_backoff(backoff_after(flush_interval_ms, (failures - 1) as nat))
    }
}

/// The contents of some events.
pub open spec fn event_views(events: Seq<WalEvent>) -> Seq<EventView> {
    events.map_values(|e: WalEvent| e@)
}

/// The contents of the events of some entries.
pub open spec fn entry_events(entries: Seq<WalEntry>) -> Seq<EventView> {
    entries.map_values(|e: WalEntry| e.event@)
}

/// Whether a batch is full.
pub open spec fn is_full(batch: Seq<WalEntry>, size: usize) -> bool {
    batch.len() >= size
}

/// How many entries a batch has at most: one is always taken.
pub open spec fn most_entries(size: usize) -> nat {
    if size == 0 {
        1
    } else {
        size as nat
    }
}

/// The place after the last entry of a batch.
pub open spec fn batch_end(batch: Seq<WalEntry>) -> WalOffset {
    batch.last().offset_after
}

/// No pause is ever longer than the cap.
pub proof fn law_backoff_is_bounded(flush_interval_ms: u64, failures: nat)
    ensures
        backoff_after(flush_interval_ms, failures) <= RETRY_BACKOFF_CAP_MS,
        failures == 0 ==> backoff_after(flush_interval_ms, failures) <= RETRY_BACKOFF_START_CAP_MS,
        backoff_after(flush_interval_ms, failures) <= backoff_after(
            flush_interval_ms,
            failures + 1,
        ),
    decreases failures,
{
    if failures > 0 {
        law_backoff_is_bounded(flush_interval_ms, (failures - 1) as nat);
    }
}

fn start_backoff(flush_interval_ms: u64) -> (ms: u64)
    ensures
        ms == first_backoff(flush_interval_ms),
{
    if flush_interval_ms < RETRY_BACKOFF_START_CAP_MS {
        flush_interval_ms
    } else {
        RETRY_BACKOFF_START_CAP_MS
    }
}

fn grow_backoff(backoff_ms: u64) -> (ms: u64)
    requires
        backoff_ms <= RETRY_BACKOFF_CAP_MS,
    ensures
        ms == next_backoff(backoff_ms),
        ms <= RETRY_BACKOFF_CAP_MS,
{
    if backoff_ms * 2 < RETRY_BACKOFF_CAP_MS {
        backoff_ms * 2
    } else {
        RETRY_BACKOFF_CAP_MS
    }
}

/// The entries that wait to be handed to the sink.
#[derive(Debug)]
pub struct Forwarder {
    batch: Vec<WalEntry>,
    batch_size: usize,
    flush_interval_ms: u64,
}

/// A batch that is being written to the sink. The log keeps its place until the
/// sink took the batch or refused it for good.
pub struct FlushAttempt {
    events: Vec<WalEvent>,
    highest: WalOffset,
    flush_interval_ms: u64,
    backoff_ms: u64,
    failures: Ghost<nat>,
}

/// A batch that the sink took, or refused for good: it is not written again,
/// and the log's place is committed.
pub struct CommitAttempt {
    highest: WalOffset,
    count: usize,
    dropped: bool,
    flush_interval_ms: u64,
    backoff_ms: u64,
    failures: Ghost<nat>,
}

/// What follows from an attempt to write.
pub enum AfterWrite {
    Commit(CommitAttempt),
    /// Pause, then write the same batch again.
    Retry { sleep_ms: u64, attempt: FlushAttempt },
}

/// What follows from an attempt to commit.
pub enum AfterCommit {
    Done,
    /// Pause, then commit the same place again.
    Retry { sleep_ms: u64, attempt: CommitAttempt },
}

impl Forwarder {
    pub closed spec fn spec_batch(&self) -> Seq<WalEntry> {
        self.batch@
    }

    pub closed spec fn size(&self) -> usize {
        self.batch_size
    }

    pub closed spec fn interval(&self) -> u64 {
        self.flush_interval_ms
    }

    pub fn new(batch_size: usize, flush_interval_ms: u64) -> (f: Self)
        ensures
            f.spec_batch() == Seq::<WalEntry>::empty(),
            f.size() == batch_size,
            f.interval() == flush_interval_ms,
    {
        Forwarder { batch: Vec::new(), batch_size, flush_interval_ms }
    }

    /// The flush interval passed, or the log was closed: whether there is a
    /// batch to flush.
    pub fn has_entries(&self) -> (flush: bool)
        ensures
            flush == (self.spec_batch().len() > 0),
    {
        self.batch.len() > 0
    }

    /// An entry was read: whether the batch is to be flushed with it.
    pub fn push(&mut self, entry: WalEntry) -> (flush: bool)
        ensures
            final(self).spec_batch() == old(self).spec_batch().push(entry),
            final(self).size() == old(self).size(),
            final(self).interval() == old(self).interval(),
            flush == is_full(final(self).spec_batch(), final(self).size()),
    {
        self.batch.push(entry);
        self.batch.len() >= self.batch_size
    }

    /// Takes the batch out, to be written.
    pub fn flush(&mut self) -> (attempt: FlushAttempt)
        requires
            old(self).spec_batch().len() > 0,
        ensures
            final(self).spec_batch() == Seq::<WalEntry>::empty(),
            final(self).size() == old(self).size(),
            final(self).interval() == old(self).interval(),
            attempt.wf(),
            attempt.contents() == entry_events(old(self).spec_batch()),
            attempt.spec_highest() == batch_end(old(self).spec_batch()),
            attempt.interval() == old(self).interval(),
            attempt.spec_failures() == 0,
    {
        let n: usize = self.batch.len();
        let highest: WalOffset = self.batch[n - 1].offset_after;
        let mut batch: Vec<WalEntry> = Vec::new();
        std::mem::swap(&mut batch, &mut self.batch);
        let ghost all = batch@;
        let mut events: Vec<WalEvent> = Vec::new();
        for entry in it: batch
            invariant
                it.seq() == all,
                event_views(events@) == entry_events(all).take(it.index() as int),
        {
            let ghost before = events@;
            let ghost k = it.index() as int;
            events.push(entry.event);
            proof {
                assert(event_views(events@) =~= event_views(before).push(entry.event@));
                assert(entry_events(all).take(k + 1) =~= entry_events(all).take(k).push(
                    entry.event@,
                ));
            }
        }
        proof {
            assert(entry_events(all).take(all.len() as int) =~= entry_events(all));
        }
        FlushAttempt {
            events,
            highest,
            flush_interval_ms: self.flush_interval_ms,
            backoff_ms: start_backoff(self.flush_interval_ms),
            failures: Ghost(0),
        }
    }
}

impl FlushAttempt {
    /// The events of the batch.
    pub closed spec fn contents(&self) -> Seq<EventView> {
        event_views(self.events@)
    }

    /// The place after the last event of the batch.
    pub closed spec fn spec_highest(&self) -> WalOffset {
        self.highest
    }

    pub closed spec fn interval(&self) -> u64 {
        self.flush_interval_ms
    }

    /// How often writing this batch failed.
    pub closed spec fn spec_failures(&self) -> nat {
        self.failures@
    }

    pub closed spec fn wf(&self) -> bool {
        &&& self.backoff_ms == backoff_after(self.flush_interval_ms, self.failures@)
        &&& self.backoff_ms <= RETRY_BACKOFF_CAP_MS
    }

    /// The events to write.
    pub fn events(&self) -> (events: &Vec<WalEvent>)
        ensures
            event_views(events@) == self.contents(),
    {
        &self.events
    }

    /// The sink answered. A batch that it took, or refused for good, is
    /// committed; after any other failure the same batch is written again.
    pub fn written(self, result: Result<(), SinkError>) -> (next: AfterWrite)
        requires
            self.wf(),
        ensures
            match next {
                AfterWrite::Commit(commit) => {
                    &&& result is Ok || result->Err_0 is Permanent
                    &&& commit.wf()
                    &&& commit.spec_highest() == self.spec_highest()
                    &&& commit.spec_count() == self.contents().len()
                    &&& commit.spec_dropped() == (result is Err)
                    &&& commit.interval() == self.interval()
                    &&& commit.spec_failures() == 0
                },
                AfterWrite::Retry { sleep_ms, attempt } => {
                    &&& result is Err && result->Err_0 is Retryable
                    &&& sleep_ms == backoff_after(self.interval(), self.spec_failures())
                    &&& attempt.wf()
                    &&& attempt.contents() == self.contents()
                    &&& attempt.spec_highest() == self.spec_highest()
                    &&& attempt.interval() == self.interval()
                    &&& attempt.spec_failures() == self.spec_failures() + 1
                },
            },
    {
        let dropped = match result {
            Ok(()) => false,
            Err(SinkError::Permanent(_)) => true,
            Err(SinkError::Retryable(_)) => {
                let sleep_ms: u64 = self.backoff_ms;
                let backoff_ms: u64 = grow_backoff(sleep_ms);
                let failures: Ghost<nat> = Ghost(self.failures@ + 1);
                let attempt = FlushAttempt {
                    events: self.events,
                    highest: self.highest,
                    flush_interval_ms: self.flush_interval_ms,
                    backoff_ms,
                    failures,
                };
                return AfterWrite::Retry { sleep_ms, attempt };
            },
        };
        AfterWrite::Commit(
            CommitAttempt {
                highest: self.highest,
                count: self.events.len(),
                dropped,
                flush_interval_ms: self.flush_interval_ms,
                backoff_ms: start_backoff(self.flush_interval_ms),
                failures: Ghost(0),
            },
        )
    }
}

impl CommitAttempt {
    pub closed spec fn spec_highest(&self) -> WalOffset {
        self.highest
    }

    /// How many events the batch had.
    pub closed spec fn spec_count(&self) -> nat {
        self.count as nat
    }

    /// Whether the sink refused the batch for good.
    pub closed spec fn spec_dropped(&self) -> bool {
        self.dropped
    }

    pub closed spec fn interval(&self) -> u64 {
        self.flush_interval_ms
    }

    /// How often this commit failed.
    pub closed spec fn spec_failures(&self) -> nat {
        self.failures@
    }

    pub closed spec fn wf(&self) -> bool {
        &&& self.backoff_ms == backoff_after(self.flush_interval_ms, self.failures@)
        &&& self.backoff_ms <= RETRY_BACKOFF_CAP_MS
    }

    /// The place to commit.
    pub fn highest(&self) -> (offset: WalOffset)
        ensures
            offset == self.spec_highest(),
    {
        self.highest
    }

    pub fn count(&self) -> (n: usize)
        ensures
            n == self.spec_count(),
    {
        self.count
    }

    pub fn dropped(&self) -> (b: bool)
        ensures
            b == self.spec_dropped(),
    {
        self.dropped
    }

    /// Whether the cursor was written. If not, the same place is committed
    /// again after a pause; the batch is not written again.
    pub fn committed(self, written: bool) -> (next: AfterCommit)
        requires
            self.wf(),
        ensures
            match next {
                AfterCommit::Done => written,
                AfterCommit::Retry { sleep_ms, attempt } => {
                    &&& !written
                    &&& sleep_ms == backoff_after(self.interval(), self.spec_failures())
                    &&& attempt.wf()
                    &&& attempt.spec_highest() == self.spec_highest()
                    &&& attempt.spec_count() == self.spec_count()
                    &&& attempt.spec_dropped() == self.spec_dropped()
                    &&& attempt.interval() == self.interval()
                    &&& attempt.spec_failures() == self.spec_failures() + 1
                },
            },
    {
        if written {
            return AfterCommit::Done;
        }
        let sleep_ms: u64 = self.backoff_ms;
        let backoff_ms: u64 = grow_backoff(sleep_ms);
        let failures: Ghost<nat> = Ghost(self.failures@ + 1);
        AfterCommit::Retry {
            sleep_ms,
            attempt: CommitAttempt {
                highest: self.highest,
                count: self.count,
                dropped: self.dropped,
                flush_interval_ms: self.flush_interval_ms,
                backoff_ms,
                failures,
            },
        }
    }
}

/// One turn of the task that hands the log to a sink.
pub enum ForwarderTurn {
    /// An entry was read.
    Read(WalEntry),
    /// The flush interval passed, or the log was closed.
    Tick,
}

/// The task, from its start on: the entries that wait, the batches that were
/// handed to the sink, and the place that was committed last.
#[verifier::ext_equal]
pub struct ForwarderRun {
    pub batch: Seq<WalEntry>,
    pub handed: Seq<Seq<WalEntry>>,
    pub committed: Option<WalOffset>,
}

impl ForwarderRun {
    /// The task when it starts.
    pub open spec fn start() -> ForwarderRun {
        ForwarderRun { batch: Seq::empty(), handed: Seq::empty(), committed: None }
    }

    /// After the batch was handed to the sink, which took it or refused it for
    /// good, and its end was committed.
    pub open spec fn flushed(self) -> ForwarderRun {
        ForwarderRun {
            batch: Seq::empty(),
            handed: self.handed.push(self.batch),
            committed: Some(batch_end(self.batch)),
        }
    }

    /// After one turn: a batch is flushed when it is full, and when the flush
    /// interval passed and it is not empty.
    pub open spec fn turn(self, turn: ForwarderTurn, size: usize) -> ForwarderRun {
        match turn {
            ForwarderTurn::Read(entry) => {
                let grown = ForwarderRun { batch: self.batch.push(entry), ..self };
                if is_full(grown.batch, size) {
                    grown.flushed()
                } else {
                    grown
                }
            },
            ForwarderTurn::Tick => if self.batch.len() > 0 {
                self.flushed()
            } else {
                self
            },
        }
    }

    /// After some turns.
    pub open spec fn turns(self, turns: Seq<ForwarderTurn>, size: usize) -> ForwarderRun
        decreases turns.len(),
    {
        if turns.len() == 0 {
            self
        } else {
            self.turns(turns.drop_last(), size).turn(turns.last(), size)
        }
    }
}

/// The entries that were read in some turns.
pub open spec fn entries_read(turns: Seq<ForwarderTurn>) -> Seq<WalEntry>
    decreases turns.len(),
{
    if turns.len() == 0 {
        Seq::empty()
    } else {
        let before = entries_read(turns.drop_last());
        match turns.last() {
            ForwarderTurn::Read(entry) => before.push(entry),
            ForwarderTurn::Tick => before,
        }
    }
}

/// The entries of some batches, one batch after the other.
pub open spec fn all_entries(batches: Seq<Seq<WalEntry>>) -> Seq<WalEntry>
    decreases batches.len(),
{
    if batches.len() == 0 {
        Seq::empty()
    } else {
        all_entries(batches.drop_last()) + batches.last()
    }
}

/// At any moment of a run, the batches that were handed to the sink, one after
/// the other, and the entries that wait are all that was read, in order, none
/// lost and none twice. Every batch has an entry, and no more than the batch size,
/// and fewer wait than that. The place that was committed last is the end of the
/// last entry that was handed over.
pub proof fn law_batches_are_what_was_read(turns: Seq<ForwarderTurn>, size: usize)
    ensures
        ({
            let run = ForwarderRun::start().turns(turns, size);
            &&& all_entries(run.handed) + run.batch == entries_read(turns)
            &&& forall|i: int|
                0 <= i < run.handed.len() ==> 1 <= (#[trigger] run.handed[i]).len()
                    <= most_entries(size)
            &&& run.batch.len() < most_entries(size)
            &&& run.committed == (if run.handed.len() == 0 {
                None
            } else {
                Some(all_entries(run.handed).last().offset_after)
            })
        }),
    decreases turns.len(),
{
    let begin = ForwarderRun::start();
    let run = begin.turns(turns, size);
    if turns.len() == 0 {
        assert(all_entries(run.handed) + run.batch =~= entries_read(turns));
    } else {
        let before = begin.turns(turns.drop_last(), size);
        law_batches_are_what_was_read(turns.drop_last(), size);
        let grown = match turns.last() {
            ForwarderTurn::Read(entry) => before.batch.push(entry),
            ForwarderTurn::Tick => before.batch,
        };
        assert(all_entries(before.handed) + grown =~= entries_read(turns));
        if run.handed != before.handed {
            assert(run.handed == before.handed.push(grown));
            assert(run.handed.drop_last() =~= before.handed);
            assert(all_entries(run.handed) + run.batch =~= entries_read(turns));
            assert(all_entries(run.handed).last() == grown.last());
            assert forall|i: int| 0 <= i < run.handed.len() implies 1 <= (
            #[trigger] run.handed[i]).len() <= most_entries(size) by {
                if i < before.handed.len() {
                    assert(run.handed[i] == before.handed[i]);
                }
            }
        }
    }
}

/// Once the log was closed, everything that was read was handed to the sink, and
/// the place that was committed last is the end of the last entry.
pub proof fn law_nothing_is_left_when_the_log_is_closed(turns: Seq<ForwarderTurn>, size: usize)
    ensures
        ({
            let end = ForwarderRun::start().turns(turns, size).turn(ForwarderTurn::Tick, size);
            &&& end.batch.len() == 0
            &&& all_entries(end.handed) == entries_read(turns)
            &&& end.committed == (if entries_read(turns).len() == 0 {
                None
            } else {
                Some(entries_read(turns).last().offset_after)
            })
        }),
{
    let all = turns.push(ForwarderTurn::Tick);
    assert(all.drop_last() =~= turns);
    law_batches_are_what_was_read(turns, size);
    law_batches_are_what_was_read(all, size);
    let end = ForwarderRun::start().turns(all, size);
    assert(all_entries(end.handed) + end.batch =~= all_entries(end.handed));
    if end.handed.len() > 0 {
        assert(end.handed[end.handed.len() - 1].len() >= 1);
    }
}

/// The first pause is the flush interval, but at most a second. Each one after it
/// is twice as long as the one before, but at most five seconds.
pub proof fn law_pauses_double(flush_interval_ms: u64, failures: nat)
    ensures
        flush_interval_ms <= 1000 ==> backoff_after(flush_interval_ms, 0) == flush_interval_ms,
        flush_interval_ms > 1000 ==> backoff_after(flush_interval_ms, 0) == 1000,
        2 * backoff_after(flush_interval_ms, failures) <= 5000 ==> backoff_after(
            flush_interval_ms,
            failures + 1,
        ) == 2 * backoff_after(flush_interval_ms, failures),
        2 * backoff_after(flush_interval_ms, failures) > 5000 ==> backoff_after(
            flush_interval_ms,
            failures + 1,
        ) == 5000,
{
}

/// The events of a batch are those of its entries, one by one and in order, and
/// the place that is committed is where the last of them ends.
pub proof fn law_batch_is_made_of_its_entries(batch: Seq<WalEntry>, entry: WalEntry, i: int)
    ensures
        entry_events(batch).len() == batch.len(),
        0 <= i < batch.len() ==> entry_events(batch)[i] == batch[i].event@,
        batch_end(batch.push(entry)) == entry.offset_after,
{
}

/// A batch is handed over as soon as it has the configured number of entries, and
/// with the first entry if that number is 0.
pub proof fn law_full_batches_are_handed_over(run: ForwarderRun, entry: WalEntry, size: usize)
    requires
        run.batch.len() < most_entries(size),
    ensures
        ({
            let after = run.turn(ForwarderTurn::Read(entry), size);
            if run.batch.len() + 1 == size || size == 0 {
                &&& after.batch.len() == 0
                &&& after.handed == run.handed.push(run.batch.push(entry))
                &&& after.committed == Some(entry.offset_after)
            } else {
                &&& after.batch == run.batch.push(entry)
                &&& after.handed == run.handed
                &&& after.committed == run.committed
            }
        }),
{
}

/// A batch that the sink took is committed, and so is one that it refused for
/// good, which counts as dropped. After any other failure nothing is committed,
/// and the same batch is written again.
pub proof fn law_only_passing_failures_are_retried(
    attempt: FlushAttempt,
    result: Result<(), SinkError>,
    next: AfterWrite,
)
    requires
        attempt.wf(),
        call_ensures(FlushAttempt::written, (attempt, result), next),
    ensures
        result is Ok ==> next is Commit,
        result matches Err(SinkError::Permanent(_)) ==> next is Commit,
        result matches Err(SinkError::Retryable(_)) ==> next is Retry,
        next matches AfterWrite::Commit(commit) ==> commit.spec_highest() == attempt.spec_highest()
            && (commit.spec_dropped() <==> result is Err) && commit.spec_count()
            == attempt.contents().len(),
        next matches AfterWrite::Retry { attempt: again, .. } ==> again.contents()
            == attempt.contents() && again.spec_highest() == attempt.spec_highest(),
{
}

/// The pauses between two failures in a row double, up to five seconds.
pub proof fn law_pauses_between_writes_double(
    attempt: FlushAttempt,
    first: SinkError,
    pause: u64,
    again: FlushAttempt,
    second: SinkError,
    longer: u64,
    third: FlushAttempt,
)
    requires
        attempt.wf(),
        call_ensures(
            FlushAttempt::written,
            (attempt, Err(first)),
            (AfterWrite::Retry { sleep_ms: pause, attempt: again }),
        ),
        call_ensures(
            FlushAttempt::written,
            (again, Err(second)),
            (AfterWrite::Retry { sleep_ms: longer, attempt: third }),
        ),
    ensures
        2 * pause <= 5000 ==> longer == 2 * pause,
        2 * pause > 5000 ==> longer == 5000,
        attempt.spec_failures() == 0 && attempt.interval() <= 1000 ==> pause == attempt.interval(),
        attempt.spec_failures() == 0 && attempt.interval() > 1000 ==> pause == 1000,
{
    law_pauses_double(attempt.interval(), attempt.spec_failures());
    law_pauses_double(attempt.interval(), 0);
}

/// A commit ends when the cursor was written. Until then the same place is
/// committed again.
pub proof fn law_commits_are_repeated(commit: CommitAttempt, written: bool, next: AfterCommit)
    requires
        commit.wf(),
        call_ensures(CommitAttempt::committed, (commit, written), next),
    ensures
        next is Done <==> written,
        next matches AfterCommit::Retry { attempt, .. } ==> attempt.spec_highest()
            == commit.spec_highest(),
{
}

/// An entry that was read joins the batch as its last one, and a batch that is
/// flushed is handed over whole, with the place where its last entry ends.
pub proof fn law_entries_are_handed_over(
    forwarder: &mut Forwarder,
    entry: WalEntry,
    flush: bool,
    after: &mut Forwarder,
    attempt: FlushAttempt,
)
    requires
        call_ensures(Forwarder::push, (forwarder, entry), flush),
        *after == *final(forwarder),
        call_ensures(Forwarder::flush, (after,), attempt),
    ensures
        flush <==> old(forwarder).spec_batch().len() + 1 >= old(forwarder).size(),
        attempt.spec_highest() == entry.offset_after,
        attempt.contents().len() == old(forwarder).spec_batch().len() + 1,
        attempt.contents().last() == entry.event@,
        attempt.contents().drop_last() == entry_events(old(forwarder).spec_batch()),
        final(after).spec_batch().len() == 0,
{
    assert(attempt.contents().drop_last() =~= entry_events(forwarder.spec_batch()));
}

} // verus!
