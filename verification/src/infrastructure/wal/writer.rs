//! The decisions of the thread that writes the log.
//!
//! The thread itself receives requests, flushes, opens files and writes bytes;
//! after each of these it tells the [`Writer`] how it went, and the [`Writer`]
//! says what is published, who is told, and what comes next.

use vstd::prelude::*;

use crate::infrastructure::wal::codec;
use crate::infrastructure::wal::types::{WalEvent, WalOffset};

verus! {

/// How long records may stay in the buffer, in microseconds, before they are
/// flushed to the file and the reader is told.
pub const FLUSH_INTERVAL_US: u64 = 5000;

/// The name of the counter of segment rotations.
pub const WAL_SEGMENT_ROTATIONS_METRIC: &'static str = "wal_segment_rotations_total";

/// A place in the log that one thread writes and others read, guarded by a
/// version: odd while the place is being changed, and changed by every store.
#[derive(Debug)]
pub struct AtomicWalOffset {
    version: u64,
    segment_id: u64,
    byte_offset: u64,
}

/// The three words of an [`AtomicWalOffset`], as they stand in memory.
#[verifier::ext_equal]
pub struct SeqlockWords {
    pub version: u64,
    pub segment_id: u64,
    pub byte_offset: u64,
}

impl View for AtomicWalOffset {
    type V = SeqlockWords;

    closed spec fn view(&self) -> SeqlockWords {
        SeqlockWords {
            version: self.version,
            segment_id: self.segment_id,
            byte_offset: self.byte_offset,
        }
    }
}

impl SeqlockWords {
    /// No store is under way.
    pub open spec fn stable(self) -> bool {
        self.version % 2 == 0
    }

    pub open spec fn place(self) -> WalOffset {
        WalOffset { segment_id: self.segment_id, byte_offset: self.byte_offset }
    }

    /// One step of the writing thread: it makes the version odd, changes either
    /// word while the version is odd, or makes the version even again.
    pub open spec fn writer_step(self, next: SeqlockWords) -> bool {
        let bumped = next.version == self.version + 1 && next.place() == self.place();
        if self.stable() {
            bumped
        } else {
            ||| bumped
            ||| next.version == self.version
        }
    }

    /// The words after each write of a store, in the order of the writes: the
    /// version becomes odd, the segment and the byte offset are changed, the
    /// version becomes even again.
    pub open spec fn store_words(self, offset: WalOffset) -> Seq<SeqlockWords> {
        let odd = SeqlockWords { version: self.version.wrapping_add(1), ..self };
        let segment = SeqlockWords { segment_id: offset.segment_id, ..odd };
        let byte = SeqlockWords { byte_offset: offset.byte_offset, ..segment };
        let even = SeqlockWords { version: byte.version.wrapping_add(1), ..byte };
        seq![odd, segment, byte, even]
    }
}

/// The words from the start on, while some places were stored one after the
/// other.
pub open spec fn store_history(first: WalOffset, stores: Seq<WalOffset>) -> Seq<SeqlockWords>
    decreases stores.len(),
{
    if stores.len() == 0 {
        seq![
            (SeqlockWords {
                version: 0,
                segment_id: first.segment_id,
                byte_offset: first.byte_offset,
            }),
        ]
    } else {
        let before = store_history(first, stores.drop_last());
        before + before.last().store_words(stores.last())
    }
}

/// The place that a reader may take from what it read.
pub open spec fn taken(start: u64, segment_id: u64, byte_offset: u64, end: u64) -> Option<
    WalOffset,
> {
    if start % 2 == 0 && start == end {
        Some(WalOffset { segment_id, byte_offset })
    } else {
        None
    }
}

/// The place that a reader may take from what it read, in this order: the
/// version, the segment, the byte offset, and the version again. `None` if a
/// store was under way.
pub fn snapshot(start: u64, segment_id: u64, byte_offset: u64, end: u64) -> (r: Option<WalOffset>)
    ensures
        r == taken(start, segment_id, byte_offset, end),
{
    if start % 2 == 1 {
        return None;
    }
    if start == end {
        Some(WalOffset { segment_id, byte_offset })
    } else {
        None
    }
}

impl AtomicWalOffset {
    pub fn new(offset: WalOffset) -> (r: Self)
        ensures
            r@ == store_history(offset, Seq::empty()).last(),
            r@.stable(),
            r@.place() == offset,
    {
        AtomicWalOffset {
            version: 0,
            segment_id: offset.segment_id,
            byte_offset: offset.byte_offset,
        }
    }

    /// The place that was stored last.
    pub fn load(&self) -> (offset: WalOffset)
        requires
            self@.stable(),
        ensures
            offset == self@.place(),
    {
        match snapshot(self.version, self.segment_id, self.byte_offset, self.version) {
            Some(offset) => offset,
            None => WalOffset { segment_id: self.segment_id, byte_offset: self.byte_offset },
        }
    }

    /// Stores a place: the version becomes odd, the place is changed, the
    /// version becomes even again.
    pub fn store(&mut self, offset: WalOffset)
        requires
            old(self)@.stable(),
        ensures
            final(self)@ == old(self)@.store_words(offset).last(),
            final(self)@.stable(),
            final(self)@.place() == offset,
    {
        let ghost words = self@.store_words(offset);
        self.version = self.version.wrapping_add(1);
        assert(self@ == words[0]);
        self.segment_id = offset.segment_id;
        assert(self@ == words[1]);
        self.byte_offset = offset.byte_offset;
        assert(self@ == words[2]);
        self.version = self.version.wrapping_add(1);
        assert(self@ == words[3]);
    }
}

/// The version never goes back, and as long as it stays at an even number the
/// place stays as it is.
proof fn lemma_seqlock_history(history: Seq<SeqlockWords>, i: int, j: int)
    requires
        steps_of_writer(history),
        0 <= i <= j < history.len(),
    ensures
        history[i].version <= history[j].version,
        history[i].stable() && history[i].version == history[j].version ==> history[i].place()
            == history[j].place(),
    decreases j - i,
{
    if i < j {
        lemma_seqlock_history(history, i, j - 1);
        assert(history[j - 1].writer_step(history[j - 1 + 1]));
    }
}

/// A reader never takes a torn place: if it read the version, the segment, the
/// byte offset and the version again at four moments in this order, while the
/// writer went on between them, and [`snapshot`] gives a place, then this is
/// the place that was stored at all four moments.
pub proof fn law_snapshot_is_never_torn(
    history: Seq<SeqlockWords>,
    at_start: int,
    at_segment: int,
    at_byte: int,
    at_end: int,
)
    requires
        steps_of_writer(history),
        0 <= at_start <= at_segment <= at_byte <= at_end < history.len(),
        history[at_start].stable(),
        history[at_start].version == history[at_end].version,
    ensures
        history[at_segment].segment_id == history[at_start].segment_id,
        history[at_byte].byte_offset == history[at_start].byte_offset,
        history[at_end].place() == history[at_start].place(),
{
    lemma_seqlock_history(history, at_start, at_segment);
    lemma_seqlock_history(history, at_segment, at_end);
    lemma_seqlock_history(history, at_start, at_byte);
    lemma_seqlock_history(history, at_byte, at_end);
    lemma_seqlock_history(history, at_start, at_end);
}

/// Whether each of some words is one step of the writing thread from the one
/// before.
pub open spec fn steps_of_writer(history: Seq<SeqlockWords>) -> bool {
    forall|k: int|
        0 <= k < history.len() - 1 ==> (#[trigger] history[k]).writer_step(history[k + 1])
}

/// Every write of a store is one step of the writing thread.
pub proof fn law_store_is_made_of_writer_steps(words: SeqlockWords, offset: WalOffset)
    requires
        words.stable(),
        words.version < u64::MAX - 1,
    ensures
        steps_of_writer(seq![words] + words.store_words(offset)),
        words.store_words(offset).last().stable(),
        words.store_words(offset).last().version == words.version + 2,
        words.store_words(offset).last().place() == offset,
{
    let all = seq![words] + words.store_words(offset);
    assert(all[0] == words);
    assert(all[1] == words.store_words(offset)[0]);
    assert(all[2] == words.store_words(offset)[1]);
    assert(all[3] == words.store_words(offset)[2]);
    assert(all[4] == words.store_words(offset)[3]);
    assert(all.len() == 5);
}

/// What holds of the words while places are stored: they change by steps of the
/// writing thread, and where no store is under way, the place is a whole one.
proof fn lemma_store_history(first: WalOffset, stores: Seq<WalOffset>)
    requires
        2 * stores.len() < u64::MAX,
    ensures
        store_history(first, stores).len() > 0,
        store_history(first, stores).last().version == 2 * stores.len(),
        store_history(first, stores).last().place() == (if stores.len() == 0 {
            first
        } else {
            stores.last()
        }),
        steps_of_writer(store_history(first, stores)),
        forall|k: int|
            0 <= k < store_history(first, stores).len() && (#[trigger] store_history(
                first,
                stores,
            )[k]).stable() ==> store_history(first, stores)[k].place() == first || stores.contains(
                store_history(first, stores)[k].place(),
            ),
    decreases stores.len(),
{
    let history = store_history(first, stores);
    if stores.len() > 0 {
        let before = store_history(first, stores.drop_last());
        let offset = stores.last();
        lemma_store_history(first, stores.drop_last());
        let words = before.last();
        law_store_is_made_of_writer_steps(words, offset);
        let n = before.len() as int;
        let tail = seq![words] + words.store_words(offset);
        assert forall|k: int| 0 <= k < history.len() - 1 implies (
        #[trigger] history[k]).writer_step(history[k + 1]) by {
            if k < n - 1 {
                assert(before[k].writer_step(before[k + 1]));
            } else {
                assert(tail[k - (n - 1)].writer_step(tail[k - (n - 1) + 1]));
            }
        }
        assert forall|k: int| 0 <= k < history.len() && (#[trigger] history[k]).stable() implies
            history[k].place() == first || stores.contains(history[k].place()) by {
            if k < n {
                assert(history[k] == before[k]);
                if before[k].place() != first {
                    let j = choose|j: int|
                        0 <= j < stores.drop_last().len() && stores.drop_last()[j]
                            == before[k].place();
                    assert(stores[j] == before[k].place());
                }
            } else {
                assert(history[k] == words.store_words(offset)[k - n]);
                assert(stores[stores.len() - 1] == offset);
            }
        }
    }
}

/// Whatever was stored, and at whatever moments a reader read the version, the
/// segment, the byte offset and the version again, the place that it takes is
/// the first one or one that was stored, as a whole. Before anything is stored,
/// it is the first one.
pub proof fn law_loads_return_a_stored_place(
    first: WalOffset,
    stores: Seq<WalOffset>,
    at_start: int,
    at_segment: int,
    at_byte: int,
    at_end: int,
)
    requires
        2 * stores.len() < u64::MAX,
        0 <= at_start <= at_segment <= at_byte <= at_end < store_history(first, stores).len(),
    ensures
        ({
            let history = store_history(first, stores);
            let place = taken(
                history[at_start].version,
                history[at_segment].segment_id,
                history[at_byte].byte_offset,
                history[at_end].version,
            );
            &&& place matches Some(offset) ==> offset == first || stores.contains(offset)
            &&& stores.len() == 0 ==> place == Some(first)
        }),
{
    let history = store_history(first, stores);
    lemma_store_history(first, stores);
    if history[at_start].stable() && history[at_start].version == history[at_end].version {
        law_snapshot_is_never_torn(history, at_start, at_segment, at_byte, at_end);
    }
}

/// An event to write, and whom to tell when it was flushed.
pub struct WriteRequest<A> {
    pub event: WalEvent,
    pub durable_ack: Option<A>,
}

/// Why the writing thread ended.
#[derive(Debug, Clone, Copy, PartialEq, Eq, Structural)]
pub enum WriterFatalReason {
    FlushBeforeRotation,
    OpenNextSegment,
    WriteAll,
}

impl WriterFatalReason {
    pub fn as_str(self) -> (s: &'static str)
        ensures
            s@ == (match self {
                WriterFatalReason::FlushBeforeRotation => "flush_before_rotation"@,
                WriterFatalReason::OpenNextSegment => "open_next_segment"@,
                WriterFatalReason::WriteAll => "write_all"@,
            }),
    {
        match self {
            WriterFatalReason::FlushBeforeRotation => "flush_before_rotation",
            WriterFatalReason::OpenNextSegment => "open_next_segment",
            WriterFatalReason::WriteAll => "write_all",
        }
    }

    /// What those who wait for an event are told, before the cause.
    pub open spec fn spec_message(self) -> Seq<char> {
        match self {
            WriterFatalReason::FlushBeforeRotation => "WAL writer flush failed before rotation: "@,
            WriterFatalReason::OpenNextSegment => "WAL writer failed to open next segment: "@,
            WriterFatalReason::WriteAll => "WAL writer write_all failed: "@,
        }
    }

    fn message(self, cause: &str) -> (s: String)
        ensures
            s@ == self.spec_message() + cause@,
    {
        let mut s = String::from_str(
            match self {
                WriterFatalReason::FlushBeforeRotation =>
                    "WAL writer flush failed before rotation: ",
                WriterFatalReason::OpenNextSegment => "WAL writer failed to open next segment: ",
                WriterFatalReason::WriteAll => "WAL writer write_all failed: ",
            },
        );
        s.append(cause);
        s
    }
}

/// One who waits until a record was flushed, and where that record ends.
pub struct PendingAck<A> {
    pub ack: A,
    pub end: WalOffset,
}

/// A record that is about to be written.
pub struct PendingRecord<A> {
    pub frame: Vec<u8>,
    pub ack: Option<A>,
}

impl<A> PendingRecord<A> {
    /// A frame has its length prefix, and a length that the prefix can say.
    pub open spec fn wf(self) -> bool {
        4 <= self.frame@.len() <= 4 + u32::MAX
    }
}

/// An event that cannot be written.
pub struct Rejected<A> {
    pub ack: Option<A>,
    pub message: String,
}

/// What readers may see from now on, and who is told that they are durable.
pub struct Published<A> {
    pub head: WalOffset,
    pub acked: Vec<PendingAck<A>>,
}

/// The end of the writing thread, and who is told so.
pub struct Fatal<A> {
    pub reason: WriterFatalReason,
    pub failed: Vec<A>,
    pub message: String,
}

/// What the writing thread does next.
#[derive(Debug, Clone, Copy, PartialEq, Eq, Structural)]
pub enum WriterWait {
    /// Flush the buffer.
    Flush,
    /// Receive a request, for as long as it takes or for some microseconds.
    Receive(Option<u64>),
}

/// Whether a record of `len` bytes starts a new segment.
pub open spec fn rotation_due(byte_offset: u64, len: nat, segment_bytes: u64) -> bool {
    byte_offset > 0 && byte_offset + len > segment_bytes
}

/// Where a record of `len` bytes goes in a log that ends at `tail`.
pub open spec fn placement(tail: WalOffset, len: nat, segment_bytes: u64) -> WalOffset {
    if rotation_due(tail.byte_offset, len, segment_bytes) {
        WalOffset { segment_id: (tail.segment_id + 1) as u64, byte_offset: 0 }
    } else {
        tail
    }
}

/// A record starts its segment, or leaves the segment within the threshold. It
/// never goes before the end of the log.
pub proof fn law_segments_stay_within_the_threshold(tail: WalOffset, len: nat, segment_bytes: u64)
    requires
        tail.segment_id < u64::MAX,
    ensures
        placement(tail, len, segment_bytes).byte_offset == 0 || placement(
            tail,
            len,
            segment_bytes,
        ).byte_offset + len <= segment_bytes,
        tail.at_or_before(placement(tail, len, segment_bytes)),
{
}

/// The ones who wait, first the one who waits for the record at hand.
pub open spec fn waiting<A>(ack: Option<A>, pending: Seq<PendingAck<A>>) -> Seq<A> {
    let rest = pending.map_values(|p: PendingAck<A>| p.ack);
    match ack {
        Some(a) => seq![a] + rest,
        None => rest,
    }
}

/// The state of the writing thread.
pub struct Writer<A> {
    segment_id: u64,
    byte_offset: u64,
    segment_bytes: u64,
    head: WalOffset,
    dirty: bool,
    flush_deadline: u64,
    pending: Vec<PendingAck<A>>,
}

/// What a [`Writer`] holds.
#[verifier::ext_equal]
pub struct WriterView<A> {
    /// Where the next record goes, if the segment has room.
    pub tail: WalOffset,
    /// The place up to which the log was flushed and readers may read.
    pub head: WalOffset,
    /// The rotation threshold.
    pub limit: u64,
    /// Whether there may be records that were not flushed.
    pub dirty: bool,
    /// When the oldest record that was not flushed must be.
    pub deadline: u64,
    /// Who waits for a flush.
    pub pending: Seq<PendingAck<A>>,
}

impl<A> WriterView<A> {
    /// A writer that goes on at the end of a log.
    pub open spec fn fresh(start: WalOffset, limit: u64, now: u64) -> WriterView<A> {
        WriterView {
            tail: start,
            head: start,
            limit,
            dirty: false,
            deadline: now,
            pending: Seq::empty(),
        }
    }

    /// After the end of the log was published, and those who wait were told.
    pub open spec fn published(self) -> WriterView<A> {
        WriterView { head: self.tail, pending: Seq::empty(), ..self }
    }

    /// After a flush that was due.
    pub open spec fn flushed(self) -> WriterView<A> {
        WriterView { dirty: false, ..self.published() }
    }

    /// After a flush that was due and failed.
    pub open spec fn flush_failed(self, now: u64) -> WriterView<A> {
        WriterView { deadline: now.saturating_add(FLUSH_INTERVAL_US), ..self }
    }

    /// At the start of the next segment.
    pub open spec fn rotated(self) -> WriterView<A> {
        WriterView {
            tail: WalOffset { segment_id: (self.tail.segment_id + 1) as u64, byte_offset: 0 },
            ..self.published()
        }
    }

    /// After a record of `len` bytes was written.
    pub open spec fn wrote(self, len: nat, ack: Option<A>, now: u64) -> WriterView<A> {
        let end = WalOffset {
            segment_id: self.tail.segment_id,
            byte_offset: (self.tail.byte_offset + len) as u64,
        };
        WriterView {
            tail: end,
            dirty: true,
            deadline: if self.dirty {
                self.deadline
            } else {
                now.saturating_add(FLUSH_INTERVAL_US)
            },
            pending: match ack {
                Some(ack) => self.pending.push((PendingAck { ack, end })),
                None => self.pending,
            },
            ..self
        }
    }
}

impl<A> View for Writer<A> {
    type V = WriterView<A>;

    closed spec fn view(&self) -> WriterView<A> {
        WriterView {
            tail: WalOffset { segment_id: self.segment_id, byte_offset: self.byte_offset },
            head: self.head,
            limit: self.segment_bytes,
            dirty: self.dirty,
            deadline: self.flush_deadline,
            pending: self.pending@,
        }
    }
}

impl<A> Writer<A> {
    /// Where the next record goes, if the segment has room.
    pub open spec fn tail(&self) -> WalOffset {
        self@.tail
    }

    /// The place up to which the log was flushed and readers may read.
    pub open spec fn spec_head(&self) -> WalOffset {
        self@.head
    }

    /// The rotation threshold.
    pub open spec fn limit(&self) -> u64 {
        self@.limit
    }

    /// Whether there may be records that were not flushed.
    pub open spec fn spec_dirty(&self) -> bool {
        self@.dirty
    }

    /// When the oldest record that was not flushed must be.
    pub open spec fn deadline(&self) -> u64 {
        self@.deadline
    }

    /// Who waits for a flush.
    pub open spec fn spec_pending(&self) -> Seq<PendingAck<A>> {
        self@.pending
    }

    /// What holds whatever happened: readers see no more than was written, and
    /// whoever waits does so for a record that was written.
    pub open spec fn sound(&self) -> bool {
        &&& self.spec_head().at_or_before(self.tail())
        &&& forall|i: int|
            0 <= i < self.spec_pending().len() ==> (
            #[trigger] self.spec_pending()[i]).end.at_or_before(self.tail())
    }

    /// What holds between two requests: while nothing is buffered, readers see
    /// all that was written, and nobody waits.
    pub open spec fn wf(&self) -> bool {
        &&& self.sound()
        &&& !self.spec_dirty() ==> self.spec_head() == self.tail() && self.spec_pending().len()
            == 0
    }

    /// A writer that goes on at the end of a log.
    pub fn new(start: WalOffset, segment_bytes: u64, now: u64) -> (w: Self)
        ensures
            w.wf(),
            w@ == WriterView::<A>::fresh(start, segment_bytes, now),
    {
        Writer {
            segment_id: start.segment_id,
            byte_offset: start.byte_offset,
            segment_bytes,
            head: start,
            dirty: false,
            flush_deadline: now,
            pending: Vec::new(),
        }
    }

    /// What comes next: a flush that is due, or the next request, for which a
    /// writer with buffered records waits no longer than the flush is due.
    pub fn poll(&self, now: u64) -> (next: WriterWait)
        ensures
            next == (if self.spec_dirty() && now >= self.deadline() {
                WriterWait::Flush
            } else if self.spec_dirty() {
                WriterWait::Receive(Some((self.deadline() - now) as u64))
            } else {
                WriterWait::Receive(None)
            }),
    {
        if self.dirty && now >= self.flush_deadline {
            WriterWait::Flush
        } else if self.dirty {
            WriterWait::Receive(Some(self.flush_deadline - now))
        } else {
            WriterWait::Receive(None)
        }
    }

    /// The number of the segment that is written.
    pub fn segment_id(&self) -> (id: u64)
        ensures
            id == self.tail().segment_id,
    {
        self.segment_id
    }

    /// Publishes the end of the log, which was flushed.
    fn publish(&mut self) -> (p: Published<A>)
        requires
            old(self).sound(),
        ensures
            p.head == old(self).tail(),
            p.acked@ == old(self).spec_pending(),
            forall|i: int|
                0 <= i < p.acked@.len() ==> (#[trigger] p.acked@[i]).end.at_or_before(p.head),
            final(self)@ == old(self)@.published(),
    {
        let head = WalOffset { segment_id: self.segment_id, byte_offset: self.byte_offset };
        self.head = head;
        let mut acked: Vec<PendingAck<A>> = Vec::new();
        std::mem::swap(&mut acked, &mut self.pending);
        proof {
            assert forall|i: int| 0 <= i < acked@.len() implies (
            #[trigger] acked@[i]).end.at_or_before(head) by {
                assert(old(self).spec_pending()[i] == acked@[i]);
            }
        }
        Published { head, acked }
    }

    /// Everyone who waits, to be told that it failed.
    fn take_waiting(&mut self, ack: Option<A>) -> (failed: Vec<A>)
        ensures
            failed@ == waiting(ack, old(self).spec_pending()),
            final(self)@ == (WriterView { pending: Seq::empty(), ..old(self)@ }),
    {
        let mut waiters: Vec<PendingAck<A>> = Vec::new();
        std::mem::swap(&mut waiters, &mut self.pending);
        let mut failed: Vec<A> = Vec::new();
        if let Some(a) = ack {
            failed.push(a);
        }
        let ghost first = failed@;
        let ghost all = old(self).spec_pending();
        let ghost wanted = all.map_values(|p: PendingAck<A>| p.ack);
        for waiter in it: waiters
            invariant
                it.seq() == all,
                wanted == all.map_values(|p: PendingAck<A>| p.ack),
                failed@ == first + wanted.take(it.index() as int),
        {
            let ghost k = it.index() as int;
            failed.push(waiter.ack);
            proof {
                assert(first + wanted.take(k + 1) =~= (first + wanted.take(k)).push(waiter.ack));
            }
        }
        proof {
            assert(wanted.take(wanted.len() as int) =~= wanted);
            assert(failed@ =~= waiting(ack, all));
        }
        failed
    }

    /// The flush that [`Writer::poll`] asked for was made. If it failed, it is
    /// tried again after the flush interval.
    pub fn periodic_flushed(&mut self, flushed: bool, now: u64) -> (p: Option<Published<A>>)
        requires
            old(self).wf(),
        ensures
            final(self).wf(),
            old(self).spec_head().at_or_before(final(self).spec_head()),
            match p {
                Some(p) => {
                    &&& flushed
                    &&& p.head == old(self).tail()
                    &&& p.acked@ == old(self).spec_pending()
                    &&& forall|i: int|
                        0 <= i < p.acked@.len() ==> (#[trigger] p.acked@[i]).end.at_or_before(
                            p.head,
                        )
                    &&& final(self)@ == old(self)@.flushed()
                },
                None => {
                    &&& !flushed
                    &&& final(self)@ == old(self)@.flush_failed(now)
                },
            },
    {
        if !flushed {
            self.flush_deadline = now.saturating_add(FLUSH_INTERVAL_US);
            assert(self.spec_pending() == old(self).spec_pending());
            return None;
        }
        let published = self.publish();
        self.dirty = false;
        Some(published)
    }

    /// A request came: its record, or the refusal of an event that is too long.
    pub fn received(&self, req: WriteRequest<A>) -> (r: Result<PendingRecord<A>, Rejected<A>>)
        ensures
            match r {
                Ok(record) => {
                    &&& record.wf()
                    &&& record.frame@ == codec::frame(req.event@)
                    &&& record.ack == req.durable_ack
                    &&& codec::event_layout(req.event@).len() <= u32::MAX
                },
                Err(rejected) => {
                    &&& codec::event_layout(req.event@).len() > u32::MAX
                    &&& rejected.ack == req.durable_ack
                    &&& rejected.message@ == "WAL writer encode failed: "@
                        + "WAL record exceeds u32::MAX bytes"@
                },
            },
    {
        let mut frame: Vec<u8> = Vec::new();
        match codec::encode_into(&mut frame, &req.event) {
            Ok(()) => {
                proof {
                    crate::wire::lemma_le_roundtrip(codec::event_layout(req.event@).len(), 4);
                }
                Ok(PendingRecord { frame, ack: req.durable_ack })
            },
            Err(e) => {
                let mut message = String::from_str("WAL writer encode failed: ");
                message.append(e.message().as_str());
                Err(Rejected { ack: req.durable_ack, message })
            },
        }
    }

    /// Whether the record goes into a new segment, before which the buffer is
    /// flushed.
    pub fn needs_rotation(&self, record: &PendingRecord<A>) -> (due: bool)
        ensures
            due == rotation_due(self.tail().byte_offset, record.frame@.len(), self.limit()),
    {
        let len: u64 = record.frame.len() as u64;
        self.byte_offset > 0 && (self.byte_offset > self.segment_bytes || len > self.segment_bytes
            - self.byte_offset)
    }

    /// The buffer was flushed before the rotation. What was written is
    /// published, and the log goes on at the start of the next segment. If the
    /// flush failed, the thread ends.
    pub fn rotation_flushed(
        &mut self,
        flushed: Result<(), String>,
        record: PendingRecord<A>,
    ) -> (r: Result<(Published<A>, PendingRecord<A>), Fatal<A>>)
        requires
            old(self).wf(),
            old(self).tail().segment_id < u64::MAX,
        ensures
            final(self).sound(),
            old(self).spec_head().at_or_before(final(self).spec_head()),
            match flushed {
                Ok(()) => match r {
                    Ok((p, kept)) => {
                        &&& kept == record
                        &&& p.head == old(self).tail()
                        &&& p.acked@ == old(self).spec_pending()
                        &&& forall|i: int|
                            0 <= i < p.acked@.len() ==> (#[trigger] p.acked@[i]).end.at_or_before(
                                p.head,
                            )
                        &&& final(self)@ == old(self)@.rotated()
                    },
                    Err(_) => false,
                },
                Err(cause) => match r {
                    Ok(_) => false,
                    Err(fatal) => {
                        &&& fatal.reason is FlushBeforeRotation
                        &&& fatal.failed@ == waiting(record.ack, old(self).spec_pending())
                        &&& fatal.message@ == fatal.reason.spec_message() + cause@
                        &&& final(self)@ == (WriterView { pending: Seq::empty(), ..old(self)@ })
                    },
                },
            },
    {
        match flushed {
            Ok(()) => {
                let published = self.publish();
                self.segment_id = self.segment_id + 1;
                self.byte_offset = 0;
                Ok((published, record))
            },
            Err(cause) => Err(
                self.fatal(WriterFatalReason::FlushBeforeRotation, cause.as_str(), record.ack),
            ),
        }
    }

    /// The end of the thread: everyone who waits is told.
    fn fatal(&mut self, reason: WriterFatalReason, cause: &str, ack: Option<A>) -> (fatal: Fatal<A>)
        ensures
            fatal.reason == reason,
            fatal.failed@ == waiting(ack, old(self).spec_pending()),
            fatal.message@ == reason.spec_message() + cause@,
            final(self)@ == (WriterView { pending: Seq::empty(), ..old(self)@ }),
    {
        let message = reason.message(cause);
        let failed = self.take_waiting(ack);
        Fatal { reason, failed, message }
    }

    /// The file of the next segment was opened. If that failed, the thread
    /// ends.
    pub fn segment_opened(&mut self, opened: Result<(), String>, record: PendingRecord<A>) -> (r:
        Result<PendingRecord<A>, Fatal<A>>)
        requires
            old(self).sound(),
        ensures
            final(self).sound(),
            match opened {
                Ok(()) => {
                    &&& r == Ok::<PendingRecord<A>, Fatal<A>>(record)
                    &&& final(self)@ == old(self)@
                },
                Err(cause) => match r {
                    Ok(_) => false,
                    Err(fatal) => {
                        &&& fatal.reason is OpenNextSegment
                        &&& fatal.failed@ == waiting(record.ack, old(self).spec_pending())
                        &&& fatal.message@ == fatal.reason.spec_message() + cause@
                        &&& final(self)@ == (WriterView { pending: Seq::empty(), ..old(self)@ })
                    },
                },
            },
    {
        match opened {
            Ok(()) => Ok(record),
            Err(cause) => Err(
                self.fatal(WriterFatalReason::OpenNextSegment, cause.as_str(), record.ack),
            ),
        }
    }

    /// The bytes of the record were handed to the buffer. They are not yet for
    /// readers to see: a flush publishes them, at the latest after the flush
    /// interval. If writing failed, the thread ends.
    pub fn record_written(
        &mut self,
        written: Result<(), String>,
        record: PendingRecord<A>,
        now: u64,
    ) -> (r: Result<(), Fatal<A>>)
        requires
            old(self).sound(),
            record.wf(),
            !rotation_due(old(self).tail().byte_offset, record.frame@.len(), old(self).limit()),
        ensures
            final(self).sound(),
            match written {
                Ok(()) => {
                    &&& r is Ok
                    &&& final(self).wf()
                    &&& old(self).tail().byte_offset + record.frame@.len() <= u64::MAX
                    &&& final(self)@ == old(self)@.wrote(record.frame@.len(), record.ack, now)
                },
                Err(cause) => match r {
                    Ok(_) => false,
                    Err(fatal) => {
                        &&& fatal.reason is WriteAll
                        &&& fatal.failed@ == waiting(record.ack, old(self).spec_pending())
                        &&& fatal.message@ == fatal.reason.spec_message() + cause@
                        &&& final(self)@ == (WriterView { pending: Seq::empty(), ..old(self)@ })
                    },
                },
            },
    {
        let len: u64 = record.frame.len() as u64;
        if let Err(cause) = written {
            return Err(self.fatal(WriterFatalReason::WriteAll, cause.as_str(), record.ack));
        }
        self.byte_offset = self.byte_offset + len;
        let end = WalOffset { segment_id: self.segment_id, byte_offset: self.byte_offset };
        if let Some(ack) = record.ack {
            self.pending.push(PendingAck { ack, end });
        }
        if !self.dirty {
            self.dirty = true;
            self.flush_deadline = now.saturating_add(FLUSH_INTERVAL_US);
        }
        proof {
            assert forall|i: int| 0 <= i < self.spec_pending().len() implies (
            #[trigger] self.spec_pending()[i]).end.at_or_before(self.tail()) by {
                if i < old(self).spec_pending().len() {
                    assert(old(self).spec_pending()[i] == self.spec_pending()[i]);
                }
            }
        }
        Ok(())
    }

    /// All senders are gone and the last flush was made: what was written is
    /// published, or everyone who waits is told that it failed.
    pub fn shut_down(self, flushed: Result<(), String>) -> (r: Result<
        Published<A>,
        Rejected<Vec<A>>,
    >)
        requires
            self.wf(),
        ensures
            match flushed {
                Ok(()) => match r {
                    Ok(p) => {
                        &&& p.head == self.tail()
                        &&& p.acked@ == self.spec_pending()
                        &&& forall|i: int|
                            0 <= i < p.acked@.len() ==> (#[trigger] p.acked@[i]).end.at_or_before(
                                p.head,
                            )
                    },
                    Err(_) => false,
                },
                Err(cause) => match r {
                    Ok(_) => false,
                    Err(failure) => {
                        &&& failure.ack matches Some(failed) && failed@ == waiting(
                            None,
                            self.spec_pending(),
                        )
                        &&& failure.message@ == "WAL writer final flush failed on shutdown: "@
                            + cause@
                    },
                },
            },
    {
        let mut this = self;
        match flushed {
            Ok(()) => Ok(this.publish()),
            Err(cause) => {
                let mut message = String::from_str("WAL writer final flush failed on shutdown: ");
                message.append(cause.as_str());
                let failed = this.take_waiting(None);
                Err(Rejected { ack: Some(failed), message })
            },
        }
    }
}

/// A record goes into the segment that is written as long as it fits there: up to
/// the threshold, and in an empty segment however long it is. Only otherwise does
/// it start the next segment.
pub proof fn law_segments_are_filled(tail: WalOffset, len: nat, segment_bytes: u64)
    requires
        tail.segment_id < u64::MAX,
    ensures
        tail.byte_offset + len <= segment_bytes ==> placement(tail, len, segment_bytes) == tail,
        tail.byte_offset == 0 ==> placement(tail, len, segment_bytes) == tail,
        tail.byte_offset > 0 && tail.byte_offset + len > segment_bytes ==> placement(
            tail,
            len,
            segment_bytes,
        ).segment_id == tail.segment_id + 1 && placement(tail, len, segment_bytes).byte_offset == 0,
{
}

/// A record that is written leaves alone what readers may read. The first one
/// after a flush sets the time of the next one, five milliseconds on, and no
/// later one moves it. Who asked for it waits behind all others, for the end of
/// that record.
pub proof fn law_written_records_wait_for_the_flush<A>(
    writer: WriterView<A>,
    len: nat,
    ack: Option<A>,
    now: u64,
)
    requires
        writer.tail.byte_offset + len <= u64::MAX,
    ensures
        ({
            let after = writer.wrote(len, ack, now);
            &&& after.head == writer.head
            &&& after.limit == writer.limit
            &&& after.tail.segment_id == writer.tail.segment_id
            &&& after.tail.byte_offset - writer.tail.byte_offset == len
            &&& after.dirty
            &&& writer.dirty ==> after.deadline == writer.deadline
            &&& !writer.dirty && now <= u64::MAX - 5000 ==> after.deadline - now == 5000
            &&& ack matches Some(a) ==> after.pending.len() == writer.pending.len() + 1
                && after.pending.last().ack == a && after.pending.last().end == after.tail
                && after.pending.drop_last() == writer.pending
            &&& ack is None ==> after.pending == writer.pending
        }),
{
    if ack is Some {
        assert(writer.wrote(len, ack, now).pending.drop_last() =~= writer.pending);
    }
}

/// After a flush everything that was written may be read, and nobody waits. A
/// flush that failed changes neither, and is tried again five milliseconds later.
pub proof fn law_flush_makes_everything_readable<A>(writer: WriterView<A>, now: u64)
    ensures
        writer.flushed().head == writer.tail,
        writer.flushed().tail == writer.tail,
        writer.flushed().pending.len() == 0,
        !writer.flushed().dirty,
        writer.flush_failed(now).head == writer.head,
        writer.flush_failed(now).tail == writer.tail,
        writer.flush_failed(now).pending == writer.pending,
        writer.flush_failed(now).dirty == writer.dirty,
        now <= u64::MAX - 5000 ==> writer.flush_failed(now).deadline - now == 5000,
        writer.tail.segment_id < u64::MAX ==> {
            &&& writer.rotated().tail.segment_id == writer.tail.segment_id + 1
            &&& writer.rotated().tail.byte_offset == 0
            &&& writer.rotated().head == writer.tail
            &&& writer.rotated().pending.len() == 0
        },
{
}

/// Everyone who waits is told, once and in order, the one whose record failed
/// first.
pub proof fn law_everyone_who_waits_is_told<A>(ack: Option<A>, pending: Seq<PendingAck<A>>, i: int)
    requires
        0 <= i < pending.len(),
    ensures
        ack is None ==> waiting(ack, pending).len() == pending.len() && waiting(ack, pending)[i]
            == pending[i].ack,
        ack matches Some(a) ==> waiting(ack, pending).len() == pending.len() + 1 && waiting(
            ack,
            pending,
        )[0] == a && waiting(ack, pending)[i + 1] == pending[i].ack,
{
}

/// What was read counts if and only if no store was under way when the reading
/// began, and none began before it ended.
pub proof fn law_reading_counts_between_stores(
    start: u64,
    segment_id: u64,
    byte_offset: u64,
    end: u64,
)
    ensures
        taken(start, segment_id, byte_offset, end) is Some <==> start == end && start % 2 == 0,
        taken(start, segment_id, byte_offset, end) matches Some(place) ==> place.segment_id
            == segment_id && place.byte_offset == byte_offset,
{
}

/// A writer with nothing to flush waits for requests without end. One with
/// something to flush waits until it is due, and then flushes.
pub proof fn law_writer_flushes_when_due<A>(writer: Writer<A>, now: u64, next: WriterWait)
    requires
        call_ensures(Writer::<A>::poll, (&writer, now), next),
    ensures
        next is Flush <==> writer.spec_dirty() && now >= writer.deadline(),
        next matches WriterWait::Receive(None) <==> !writer.spec_dirty(),
        next matches WriterWait::Receive(Some(wait)) ==> wait > 0 && now + wait
            == writer.deadline(),
{
}

/// Who waits for a flush is told of success if and only if it succeeded, and then
/// everyone is, and everything that was written may be read.
pub proof fn law_acknowledged_after_the_flush<A>(
    writer: &mut Writer<A>,
    flushed: bool,
    now: u64,
    p: Option<Published<A>>,
)
    requires
        writer.wf(),
        call_ensures(Writer::<A>::periodic_flushed, (writer, flushed, now), p),
    ensures
        p is Some <==> flushed,
        flushed ==> {
            &&& final(writer).spec_head() == old(writer).tail()
            &&& final(writer).spec_pending().len() == 0
            &&& p->0.acked@ == old(writer).spec_pending()
            &&& p->0.head == old(writer).tail()
        },
        !flushed ==> {
            &&& final(writer).spec_head() == old(writer).spec_head()
            &&& final(writer).spec_pending() == old(writer).spec_pending()
            &&& final(writer).spec_dirty() == old(writer).spec_dirty()
        },
        final(writer).tail() == old(writer).tail(),
{
}

/// At the end, everyone who still waits is told: of success if and only if the
/// last flush succeeded.
pub proof fn law_everyone_is_told_at_the_end<A>(
    writer: Writer<A>,
    flushed: Result<(), String>,
    r: Result<Published<A>, Rejected<Vec<A>>>,
)
    requires
        writer.wf(),
        call_ensures(Writer::<A>::shut_down, (writer, flushed), r),
    ensures
        r is Ok <==> flushed is Ok,
        r matches Ok(p) ==> p.acked@ == writer.spec_pending() && p.head == writer.tail(),
        r matches Err(failure) ==> (failure.ack matches Some(failed) && failed@ == waiting(
            None,
            writer.spec_pending(),
        )),
{
}

/// A request becomes the record of its event, unless that is too long for a length
/// prefix; who asked is then told, and the writer goes on.
pub proof fn law_requests_become_records<A>(
    writer: Writer<A>,
    req: WriteRequest<A>,
    r: Result<PendingRecord<A>, Rejected<A>>,
)
    requires
        call_ensures(Writer::<A>::received, (&writer, req), r),
    ensures
        r is Ok <==> codec::event_layout(req.event@).len() <= 0xffff_ffff,
        r matches Ok(record) ==> record.frame@ == codec::frame(req.event@) && record.ack
            == req.durable_ack,
        r matches Err(rejected) ==> rejected.ack == req.durable_ack,
{
}

/// A write that failed is the end of the writer: the one who asked for it and all
/// who still wait are told, in this order.
pub proof fn law_failed_write_is_fatal<A>(
    writer: &mut Writer<A>,
    written: Result<(), String>,
    record: PendingRecord<A>,
    now: u64,
    r: Result<(), Fatal<A>>,
)
    requires
        writer.sound(),
        record.wf(),
        !rotation_due(writer.tail().byte_offset, record.frame@.len(), writer.limit()),
        call_ensures(Writer::<A>::record_written, (writer, written, record, now), r),
    ensures
        r is Ok <==> written is Ok,
        r matches Err(fatal) ==> fatal.reason is WriteAll && fatal.failed@ == waiting(
            record.ack,
            old(writer).spec_pending(),
        ),
        written is Ok ==> {
            &&& final(writer).tail().segment_id == old(writer).tail().segment_id
            &&& final(writer).tail().byte_offset - old(writer).tail().byte_offset
                == record.frame@.len()
            &&& final(writer).spec_head() == old(writer).spec_head()
            &&& final(writer).spec_dirty()
        },
        written is Err ==> final(writer).tail() == old(writer).tail(),
{
}

/// A segment is left only when it was flushed: its readers may then read all of
/// it, who waited is told, and the record goes on to the next segment.
pub proof fn law_segments_are_flushed_before_they_are_left<A>(
    writer: &mut Writer<A>,
    flushed: Result<(), String>,
    record: PendingRecord<A>,
    r: Result<(Published<A>, PendingRecord<A>), Fatal<A>>,
)
    requires
        writer.wf(),
        writer.tail().segment_id < u64::MAX,
        call_ensures(Writer::<A>::rotation_flushed, (writer, flushed, record), r),
    ensures
        r is Ok <==> flushed is Ok,
        r matches Ok((p, kept)) ==> {
            &&& kept == record
            &&& p.acked@ == old(writer).spec_pending()
            &&& final(writer).spec_head() == old(writer).tail()
            &&& final(writer).tail().segment_id == old(writer).tail().segment_id + 1
            &&& final(writer).tail().byte_offset == 0
        },
        r matches Err(fatal) ==> fatal.reason is FlushBeforeRotation && fatal.failed@ == waiting(
            record.ack,
            old(writer).spec_pending(),
        ) && final(writer).tail() == old(writer).tail(),
{
}

/// A record asks for the next segment if and only if the segment has bytes and has
/// no room for it.
pub proof fn law_rotation_is_asked_for_when_full<A>(
    writer: Writer<A>,
    record: PendingRecord<A>,
    due: bool,
)
    requires
        call_ensures(Writer::<A>::needs_rotation, (&writer, &record), due),
    ensures
        due <==> writer.tail().byte_offset > 0 && writer.tail().byte_offset + record.frame@.len()
            > writer.limit(),
{
}

/// A place that was stored is the place that is loaded.
pub proof fn law_stored_place_is_loaded(
    words: &mut AtomicWalOffset,
    offset: WalOffset,
    loaded: WalOffset,
)
    requires
        words@.stable(),
        call_ensures(AtomicWalOffset::store, (words, offset), ()),
        call_ensures(AtomicWalOffset::load, (&*final(words),), loaded),
    ensures
        loaded == offset,
{
}

/// A new writer starts at its place, with nothing to flush and nobody waiting, and
/// readers may read up to there.
pub proof fn law_new_writer_has_nothing_to_flush<A>(
    start: WalOffset,
    segment_bytes: u64,
    now: u64,
    writer: Writer<A>,
)
    requires
        call_ensures(Writer::<A>::new, (start, segment_bytes, now), writer),
    ensures
        writer.tail() == start,
        writer.spec_head() == start,
        writer.limit() == segment_bytes,
        !writer.spec_dirty(),
        writer.spec_pending().len() == 0,
{
}

} // verus!
