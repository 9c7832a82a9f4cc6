//! The decisions of the reader of the log.

use vstd::prelude::*;

use crate::infrastructure::wal::codec;
use crate::infrastructure::wal::codec::{ByteReader, CodecError, Frame};
use crate::infrastructure::wal::segment::ascending;
use crate::infrastructure::wal::types::{EventView, WalEntry, WalEvent, WalOffset};

verus! {

/// The outcome of one attempt to read at the place of a subscription.
#[derive(Debug)]
pub enum ReadOutcome {
    /// An event, and the width of its frame.
    Record { event: WalEvent, bytes_consumed: usize },
    /// There is no such segment file yet.
    NotFound,
    /// The segment file could not be opened.
    OpenError,
    /// The place could not be reached within the file.
    SeekError,
    /// The end of the file, or of a frame that was cut short.
    Eof,
    /// Bytes that are no record.
    Corrupt(CodecError),
}

/// What follows from an attempt to read.
#[derive(Debug)]
pub enum NextStep {
    /// Hand this entry to the caller.
    Deliver(WalEntry),
    /// See whether to go on or to wait.
    WaitOrAdvance,
    /// Read the length prefix at this place, to skip the record.
    Skip,
}

/// What follows from a look at the head of the log.
#[derive(Debug, Clone, Copy, PartialEq, Eq, Structural)]
pub enum WaitStep {
    /// Read again at once.
    Retry,
    /// Wait until the writer flushed, then read again.
    Wait,
    /// There is nothing left to read, and there will not be.
    Finished,
}

/// The reader's place in the log, and how far segments were deleted.
#[derive(Debug)]
pub struct WalSubscription {
    cur_segment_id: u64,
    cur_byte_offset: u64,
    last_gc_segment_id: u64,
}

/// One step of a subscription, as far as its place goes.
pub enum PlaceStep {
    /// An event was delivered, whose record has a payload of this length.
    Delivered { event: EventView, payload_len: nat },
    /// A record with a payload of this length was skipped.
    Skipped { payload_len: nat },
    /// The next segment is read.
    NextSegment,
    /// There is nothing to read yet.
    Stayed,
}

/// Whether a step leads from one place to another.
pub open spec fn moves(from: WalOffset, step: PlaceStep, to: WalOffset) -> bool {
    match step {
        PlaceStep::Delivered { payload_len, .. } => {
            &&& to.segment_id == from.segment_id
            &&& to.byte_offset == from.byte_offset + 4 + payload_len
        },
        PlaceStep::Skipped { payload_len } => {
            &&& to.segment_id == from.segment_id
            &&& to.byte_offset == from.byte_offset + 4 + payload_len
        },
        PlaceStep::NextSegment => to.segment_id == from.segment_id + 1 && to.byte_offset == 0,
        PlaceStep::Stayed => to == from,
    }
}

/// Whether these are the steps of a subscription and the places before, between
/// and after them.
pub open spec fn is_run(places: Seq<WalOffset>, steps: Seq<PlaceStep>) -> bool {
    &&& places.len() == steps.len() + 1
    &&& forall|k: int|
        0 <= k < steps.len() ==> moves(places[k], #[trigger] steps[k], places[k + 1])
}

/// The events that some steps delivered.
pub open spec fn delivered_events(steps: Seq<PlaceStep>) -> Seq<EventView>
    decreases steps.len(),
{
    if steps.len() == 0 {
        Seq::<EventView>::empty()
    } else {
        let before = delivered_events(steps.drop_last());
        match steps.last() {
            PlaceStep::Delivered { event, .. } => before.push(event),
            _ => before,
        }
    }
}

/// Reads one record from the bytes at the place of a subscription.
pub fn read_one(reader: &mut ByteReader, payload: &mut Vec<u8>) -> (outcome: ReadOutcome)
    requires
        old(reader).wf(),
    ensures
        match codec::first_frame(old(reader).remaining()) {
            Frame::Record(event, width) => outcome matches ReadOutcome::Record {
                event: e,
                bytes_consumed,
            } && e@ == event && bytes_consumed == width && width == 4 + codec::prefix_len(
                old(reader).remaining(),
            ),
            Frame::Torn => match old(reader).spec_failure() {
                Some(cause) => outcome matches ReadOutcome::Corrupt(CodecError::Read(s)) && s@
                    == cause,
                None => outcome is Eof,
            },
            Frame::TooLong(len) => outcome matches ReadOutcome::Corrupt(
                CodecError::LengthLimit(n),
            ) && n == len,
            Frame::Corrupt(_) => outcome matches ReadOutcome::Corrupt(CodecError::Payload(_)),
        },
        final(reader).advanced(&*old(reader), codec::decode_consumes(old(reader).remaining())),
        final(payload)@ == codec::decode_scratch(old(reader).remaining(), old(payload)@),
{
    match codec::decode_into(reader, payload) {
        Ok(Some((event, bytes_consumed))) => ReadOutcome::Record { event, bytes_consumed },
        Ok(None) => ReadOutcome::Eof,
        Err(e) => ReadOutcome::Corrupt(e),
    }
}

/// The length prefix at the front of some bytes, if there are enough of them.
pub fn read_len_prefix(bytes: &Vec<u8>) -> (len: Option<u32>)
    ensures
        match len {
            Some(n) => bytes@.len() >= 4 && n == codec::prefix_len(bytes@),
            None => bytes@.len() < 4,
        },
{
    if bytes.len() < 4 {
        return None;
    }
    let mut prefix: Vec<u8> = Vec::new();
    prefix.push(bytes[0]);
    prefix.push(bytes[1]);
    prefix.push(bytes[2]);
    prefix.push(bytes[3]);
    proof {
        assert(prefix@ =~= bytes@.take(4));
    }
    Some(crate::wire::u32_from_le(prefix.as_slice()))
}

/// The segments that a commit of `up_to` deletes, where those before segment
/// `collected` were deleted before: the ones before the segment of `up_to`, if
/// that is further.
pub open spec fn deleted_segments(collected: u64, up_to: WalOffset, segments: Seq<u64>) -> Seq<u64> {
    if up_to.segment_id > collected {
        segments.filter(|id: u64| id < up_to.segment_id)
    } else {
        Seq::<u64>::empty()
    }
}

/// How far segments were deleted when `up_to` was committed.
pub open spec fn collected_after(collected: u64, up_to: WalOffset) -> u64 {
    if up_to.segment_id > collected {
        up_to.segment_id
    } else {
        collected
    }
}

/// How far segments were deleted after a commit of `up_to`, `reclaimed` or not.
pub open spec fn mark_after(collected: u64, up_to: WalOffset, reclaimed: bool) -> u64 {
    if reclaimed {
        collected_after(collected, up_to)
    } else {
        collected
    }
}

/// Whether bytes that are no record, at this place, are skipped: not where the
/// writer may still be writing them.
pub open spec fn skips(here: WalOffset, head: WalOffset) -> bool {
    !(head.segment_id == here.segment_id && here.byte_offset >= head.byte_offset)
}

/// What follows when there is nothing to read at this place, and where reading
/// goes on.
pub open spec fn wait_step(here: WalOffset, head: WalOffset, last_head: Option<WalOffset>) -> (
    WaitStep,
    WalOffset,
) {
    let left = head.segment_id > here.segment_id || (last_head matches Some(last)
        && last.segment_id > here.segment_id);
    if left {
        (
            WaitStep::Retry,
            WalOffset { segment_id: (here.segment_id + 1) as u64, byte_offset: 0 },
        )
    } else {
        match last_head {
            Some(last) => if last.byte_offset > here.byte_offset {
                (WaitStep::Retry, here)
            } else {
                (WaitStep::Finished, here)
            },
            None => (WaitStep::Wait, here),
        }
    }
}

/// Bytes before the place up to which the log was flushed are skipped if they are
/// no record; those from there on are waited for.
pub proof fn law_only_flushed_bytes_are_skipped(here: WalOffset, head: WalOffset)
    requires
        here.at_or_before(head),
    ensures
        skips(here, head) <==> here != head,
{
}

/// A reader ends only when the writer has ended, and everything that it wrote was
/// read. As long as the writer goes on, it waits, and it goes to the next segment
/// only if something was written there or behind it.
pub proof fn law_reader_ends_behind_everything(
    here: WalOffset,
    head: WalOffset,
    last_head: Option<WalOffset>,
)
    requires
        last_head matches Some(last) ==> head.at_or_before(last) && here.at_or_before(last),
    ensures
        wait_step(here, head, last_head).0 is Finished <==> last_head == Some(here),
        wait_step(here, head, last_head).0 is Wait <==> last_head is None && head.segment_id
            <= here.segment_id,
        ({
            let next = wait_step(here, head, last_head).1;
            let reached = match last_head {
                Some(last) => last.segment_id,
                None => head.segment_id,
            };
            if reached > here.segment_id {
                next.segment_id == here.segment_id + 1 && next.byte_offset == 0
            } else {
                next == here
            }
        }),
{
}

impl WalSubscription {
    /// Where the next record is read.
    pub closed spec fn place(&self) -> WalOffset {
        WalOffset { segment_id: self.cur_segment_id, byte_offset: self.cur_byte_offset }
    }

    /// The segments before this one were deleted.
    pub closed spec fn collected(&self) -> u64 {
        self.last_gc_segment_id
    }

    /// A subscription that reads from `start` on. The first commit deletes
    /// what an earlier run may have left behind.
    pub fn new(start: WalOffset) -> (s: Self)
        ensures
            s.place() == start,
            s.collected() == start.segment_id.saturating_sub(1),
    {
        WalSubscription {
            cur_segment_id: start.segment_id,
            cur_byte_offset: start.byte_offset,
            last_gc_segment_id: start.segment_id.saturating_sub(1),
        }
    }

    /// Where the next record is read.
    pub fn position(&self) -> (offset: WalOffset)
        ensures
            offset == self.place(),
    {
        WalOffset { segment_id: self.cur_segment_id, byte_offset: self.cur_byte_offset }
    }

    /// What follows from an attempt to read. A record is delivered, and the
    /// place moves past it. Bytes that are no record are waited for at the end
    /// of the log, where the writer may not be done with them, and skipped
    /// where the writer published what comes after.
    pub fn on_read(&mut self, outcome: ReadOutcome, head: WalOffset) -> (step: NextStep)
        requires
            outcome matches ReadOutcome::Record { bytes_consumed, .. } ==> old(
                self,
            ).place().byte_offset + bytes_consumed <= u64::MAX,
        ensures
            final(self).collected() == old(self).collected(),
            match outcome {
                ReadOutcome::Record { event, bytes_consumed } => match step {
                    NextStep::Deliver(entry) => {
                        &&& entry.event == event
                        &&& entry.offset == old(self).place()
                        &&& entry.offset_after.segment_id == old(self).place().segment_id
                        &&& entry.offset_after.byte_offset == old(self).place().byte_offset
                            + bytes_consumed
                        &&& final(self).place() == entry.offset_after
                        &&& bytes_consumed >= 4 ==> moves(
                            old(self).place(),
                            PlaceStep::Delivered {
                                event: event@,
                                payload_len: (bytes_consumed - 4) as nat,
                            },
                            final(self).place(),
                        )
                    },
                    _ => false,
                },
                ReadOutcome::Corrupt(_) => {
                    &&& final(self).place() == old(self).place()
                    &&& step is Skip == skips(old(self).place(), head)
                    &&& if head.segment_id == old(self).place().segment_id && old(
                        self,
                    ).place().byte_offset >= head.byte_offset {
                        step is WaitOrAdvance
                    } else {
                        step is Skip
                    }
                },
                _ => step is WaitOrAdvance && final(self).place() == old(self).place(),
            },
    {
        match outcome {
            ReadOutcome::Record { event, bytes_consumed } => {
                let offset = self.position();
                self.cur_byte_offset = self.cur_byte_offset + bytes_consumed as u64;
                let offset_after = self.position();
                NextStep::Deliver(WalEntry { offset, offset_after, event })
            },
            ReadOutcome::Corrupt(_) => {
                let at_active_tail = head.segment_id == self.cur_segment_id && self.cur_byte_offset
                    >= head.byte_offset;
                if at_active_tail {
                    NextStep::WaitOrAdvance
                } else {
                    NextStep::Skip
                }
            },
            _ => NextStep::WaitOrAdvance,
        }
    }

    /// Skips the record at this place, whose length prefix was read, if it
    /// could be. `false` if it could not, so that the head of the log decides.
    pub fn skip_corrupt_record(&mut self, prefix: Option<u32>) -> (skipped: bool)
        requires
            prefix matches Some(len) ==> old(self).place().byte_offset + 4 + len <= u64::MAX,
        ensures
            final(self).collected() == old(self).collected(),
            match prefix {
                Some(len) => {
                    &&& skipped
                    &&& moves(
                        old(self).place(),
                        PlaceStep::Skipped { payload_len: len as nat },
                        final(self).place(),
                    )
                },
                None => !skipped && final(self).place() == old(self).place(),
            },
    {
        match prefix {
            Some(len) => {
                self.cur_byte_offset = self.cur_byte_offset + (4 + len as u64);
                true
            },
            None => false,
        }
    }

    /// What to do where nothing could be read. A segment that the writer left
    /// is followed by the next one. `last_head` is the head of the log after
    /// the writer ended, if it did: what lies before it is still read.
    pub fn wait_or_advance(&mut self, head: WalOffset, last_head: Option<WalOffset>) -> (step:
        WaitStep)
        ensures
            final(self).collected() == old(self).collected(),
            (step, final(self).place()) == wait_step(old(self).place(), head, last_head),
            ({
                let here = old(self).place();
                let left = head.segment_id > here.segment_id || (last_head matches Some(last)
                    && last.segment_id > here.segment_id);
                if left {
                    &&& step is Retry
                    &&& moves(here, PlaceStep::NextSegment, final(self).place())
                } else {
                    &&& final(self).place() == here
                    &&& step == (match last_head {
                        Some(last) => if last.byte_offset > here.byte_offset {
                            WaitStep::Retry
                        } else {
                            WaitStep::Finished
                        },
                        None => WaitStep::Wait,
                    })
                }
            }),
    {
        if head.segment_id > self.cur_segment_id {
            self.cur_segment_id = self.cur_segment_id + 1;
            self.cur_byte_offset = 0;
            return WaitStep::Retry;
        }
        if let Some(last) = last_head {
            if last.segment_id > self.cur_segment_id {
                self.cur_segment_id = self.cur_segment_id + 1;
                self.cur_byte_offset = 0;
                return WaitStep::Retry;
            }
            return if last.byte_offset > self.cur_byte_offset {
                WaitStep::Retry
            } else {
                WaitStep::Finished
            };
        }
        WaitStep::Wait
    }

    /// Whether a commit of `up_to` deletes segments.
    pub fn collects(&self, up_to: WalOffset) -> (run_gc: bool)
        ensures
            run_gc == (up_to.segment_id > self.collected()),
    {
        up_to.segment_id > self.last_gc_segment_id
    }

    /// The segments that a commit of `up_to` deletes, out of those there are:
    /// the ones before the segment of `up_to`, if that is further than before.
    pub fn segments_to_delete(&self, up_to: WalOffset, segments: &Vec<u64>) -> (ids: Vec<u64>)
        requires
            ascending(segments@),
        ensures
            ids@ == deleted_segments(self.collected(), up_to, segments@),
    {
        let mut ids: Vec<u64> = Vec::new();
        if !self.collects(up_to) {
            return ids;
        }
        let ghost keep = |id: u64| id < up_to.segment_id;
        let mut i: usize = 0;
        proof {
            assert(segments@.take(0) =~= Seq::<u64>::empty());
            reveal(Seq::filter);
            assert(segments@.take(0).filter(keep) =~= ids@);
        }
        while i < segments.len() && segments[i] < up_to.segment_id
            invariant
                i <= segments@.len(),
                keep == (|id: u64| id < up_to.segment_id),
                ids@ == segments@.take(i as int).filter(keep),
            decreases segments@.len() - i,
        {
            ids.push(segments[i]);
            proof {
                reveal(Seq::filter);
                assert(segments@.take(i + 1).drop_last() =~= segments@.take(i as int));
            }
            i = i + 1;
        }
        proof {
            lemma_filter_prefix(segments@, up_to.segment_id, i as int);
        }
        ids
    }

    /// The cursor was written: `up_to` was committed. `reclaimed` says whether
    /// every segment that was to be deleted is gone; if not, a later commit
    /// tries again.
    pub fn committed(&mut self, up_to: WalOffset, reclaimed: bool)
        ensures
            final(self).place() == old(self).place(),
            final(self).collected() == mark_after(old(self).collected(), up_to, reclaimed),
    {
        if reclaimed && self.collects(up_to) {
            self.last_gc_segment_id = up_to.segment_id;
        }
    }
}

/// Of ascending numbers, those under a bound are the first ones.
proof fn lemma_filter_prefix(ids: Seq<u64>, bound: u64, n: int)
    requires
        ascending(ids),
        0 <= n <= ids.len(),
        n < ids.len() ==> ids[n] >= bound,
    ensures
        ids.filter(|id: u64| id < bound) == ids.take(n).filter(|id: u64| id < bound),
    decreases ids.len() - n,
{
    let keep = |id: u64| id < bound;
    if n == ids.len() {
        assert(ids.take(n) =~= ids);
    } else {
        assert(n + 1 < ids.len() ==> ids[n + 1] >= ids[n]);
        lemma_filter_prefix(ids, bound, n + 1);
        reveal(Seq::filter);
        assert(ids.take(n + 1).drop_last() =~= ids.take(n));
        assert(ids.take(n + 1).last() == ids[n]);
    }
}

/// A commit never deletes the segment it points into, nor a later one, and of
/// the earlier ones it leaves none, if it deletes any.
pub proof fn law_commit_deletes_only_earlier_segments(
    collected: u64,
    up_to: WalOffset,
    segments: Seq<u64>,
    id: u64,
)
    ensures
        deleted_segments(collected, up_to, segments).contains(id) ==> segments.contains(id) && id
            < up_to.segment_id,
        up_to.segment_id > collected && segments.contains(id) && id < up_to.segment_id
            ==> deleted_segments(collected, up_to, segments).contains(id),
{
    broadcast use vstd::seq_lib::group_filter_ensures;

    let keep = |s: u64| s < up_to.segment_id;
    if segments.contains(id) && keep(id) {
        let i = choose|i: int| 0 <= i < segments.len() && segments[i] == id;
        segments.lemma_filter_contains(keep, i);
    }
    if segments.filter(keep).contains(id) {
        let j = choose|j: int| 0 <= j < segments.filter(keep).len() && segments.filter(keep)[j] == id;
        segments.lemma_filter_pred(keep, j);
        segments.lemma_filter_contains_rev(keep, id);
    }
}

/// Once a place was committed and all segments before it were deleted,
/// committing it again, or an earlier one, deletes nothing.
pub proof fn law_repeated_commit_deletes_nothing(
    collected: u64,
    first: WalOffset,
    again: WalOffset,
    segments: Seq<u64>,
)
    requires
        again.at_or_before(first),
    ensures
        deleted_segments(mark_after(collected, first, true), again, segments)
            == Seq::<u64>::empty(),
        mark_after(mark_after(collected, first, true), again, true) == mark_after(
            collected,
            first,
            true,
        ),
{
}

/// A segment that a commit was to delete, and that is still there, is deleted by
/// the next commit of this place or a later one: as long as not all are gone,
/// the mark stays where it was.
pub proof fn law_failed_deletion_is_retried(
    collected: u64,
    first: WalOffset,
    before: Seq<u64>,
    again: WalOffset,
    segments: Seq<u64>,
    id: u64,
)
    requires
        deleted_segments(collected, first, before).contains(id),
        segments.contains(id),
        first.at_or_before(again),
    ensures
        deleted_segments(mark_after(collected, first, false), again, segments).contains(id),
{
    law_commit_deletes_only_earlier_segments(collected, first, before, id);
    law_commit_deletes_only_earlier_segments(collected, again, segments, id);
}

/// The place of a subscription never goes back.
proof fn lemma_run_goes_forward(places: Seq<WalOffset>, steps: Seq<PlaceStep>, i: int, j: int)
    requires
        is_run(places, steps),
        0 <= i <= j < places.len(),
    ensures
        places[i].at_or_before(places[j]),
    decreases j - i,
{
    if i < j {
        lemma_run_goes_forward(places, steps, i, j - 1);
        assert(moves(places[j - 1], steps[j - 1], places[j - 1 + 1]));
    }
}

/// Of two entries that one subscription delivers, the earlier one ends at or
/// before the place where the later one starts. An entry starts before it ends,
/// within one segment, and is as long as its payload and the length prefix.
pub proof fn law_deliveries_go_forward(
    places: Seq<WalOffset>,
    steps: Seq<PlaceStep>,
    a: int,
    b: int,
)
    requires
        is_run(places, steps),
        0 <= a < b < steps.len(),
        steps[a] is Delivered,
        steps[b] is Delivered,
    ensures
        places[a].segment_id == places[a + 1].segment_id,
        places[a + 1].byte_offset - places[a].byte_offset == 4 + steps[a]->Delivered_payload_len,
        places[a].at_or_before(places[a + 1]),
        places[a] != places[a + 1],
        places[a + 1].at_or_before(places[b]),
{
    assert(moves(places[a], steps[a], places[a + 1]));
    lemma_run_goes_forward(places, steps, a + 1, b);
}

/// An event that was read is delivered with the place where its record starts and
/// the place where it ends, and reading goes on there.
pub proof fn law_events_are_delivered_with_their_places(
    reader: &mut WalSubscription,
    event: WalEvent,
    bytes_consumed: usize,
    head: WalOffset,
    step: NextStep,
)
    requires
        reader.place().byte_offset + bytes_consumed <= u64::MAX,
        call_ensures(
            WalSubscription::on_read,
            (reader, ReadOutcome::Record { event, bytes_consumed }, head),
            step,
        ),
    ensures
        step matches NextStep::Deliver(entry) && {
            &&& entry.event@ == event@
            &&& entry.offset == old(reader).place()
            &&& entry.offset_after == final(reader).place()
            &&& final(reader).place().segment_id == old(reader).place().segment_id
            &&& final(reader).place().byte_offset - old(reader).place().byte_offset
                == bytes_consumed
        },
{
}

/// At the end of what can be read, nothing is delivered or skipped, and the
/// reader stays where it is.
pub proof fn law_reader_stays_at_the_end(
    reader: &mut WalSubscription,
    outcome: ReadOutcome,
    head: WalOffset,
    step: NextStep,
)
    requires
        !(outcome is Record),
        call_ensures(WalSubscription::on_read, (reader, outcome, head), step),
    ensures
        final(reader).place() == old(reader).place(),
        !(step is Deliver),
        !(outcome is Corrupt) ==> step is WaitOrAdvance,
        outcome is Corrupt && old(reader).place().at_or_before(head) ==> (step is Skip <==> old(
            reader,
        ).place() != head),
{
}

/// A skipped record is passed as its length prefix has it, together with the four
/// bytes of the prefix; without a prefix nothing is skipped.
pub proof fn law_skipping_takes_one_record(
    reader: &mut WalSubscription,
    prefix: Option<u32>,
    skipped: bool,
)
    requires
        prefix matches Some(len) ==> reader.place().byte_offset + 4 + len <= u64::MAX,
        call_ensures(WalSubscription::skip_corrupt_record, (reader, prefix), skipped),
    ensures
        skipped <==> prefix is Some,
        final(reader).place().segment_id == old(reader).place().segment_id,
        prefix matches Some(len) ==> final(reader).place().byte_offset == old(
            reader,
        ).place().byte_offset + 4 + len,
        prefix is None ==> final(reader).place() == old(reader).place(),
{
}

/// A commit looks for segments to delete if and only if it goes into a later
/// segment than any before it, and a new reader counts what is before its own
/// segment as deleted.
pub proof fn law_commits_into_later_segments_delete(
    start: WalOffset,
    reader: WalSubscription,
    up_to: WalOffset,
    run_gc: bool,
)
    requires
        call_ensures(WalSubscription::new, (start,), reader),
        call_ensures(WalSubscription::collects, (&reader, up_to), run_gc),
    ensures
        reader.place() == start,
        run_gc <==> up_to.segment_id >= start.segment_id && up_to.segment_id > 0,
{
}

/// A record that stands where the reader is, is read as its event, whatever comes
/// behind it, and takes as many bytes as it has. Where a record is torn, or there
/// are no bytes, there is nothing to read yet.
pub proof fn law_records_are_read_where_they_stand(
    reader: &mut ByteReader,
    payload: &mut Vec<u8>,
    outcome: ReadOutcome,
    event: EventView,
    rest: Seq<u8>,
)
    requires
        reader.wf(),
        call_ensures(read_one, (reader, payload), outcome),
        codec::event_layout(event).len() <= codec::MAX_WAL_RECORD_PAYLOAD_BYTES,
    ensures
        old(reader).remaining() == codec::frame(event) + rest ==> (outcome matches
            ReadOutcome::Record { event: e, bytes_consumed } && e@ == event && bytes_consumed
            == codec::frame(event).len()),
        codec::first_frame(old(reader).remaining()) is Torn && !old(reader).spec_broken()
            ==> outcome is Eof,
        codec::first_frame(old(reader).remaining()) is TooLong || codec::first_frame(
            old(reader).remaining(),
        ) is Corrupt ==> outcome is Corrupt,
{
    codec::law_frame_roundtrip(event, rest);
}

/// The length prefix of a record is the length of what follows it.
pub proof fn law_length_prefix_is_that_of_the_record(
    bytes: Vec<u8>,
    event: EventView,
    rest: Seq<u8>,
    len: Option<u32>,
)
    requires
        call_ensures(read_len_prefix, (&bytes,), len),
        bytes@ == codec::frame(event) + rest,
        codec::event_layout(event).len() <= u32::MAX,
    ensures
        len matches Some(n) && n == codec::event_layout(event).len(),
{
    let prefix = crate::wire::le_bytes(codec::event_layout(event).len(), 4);
    crate::wire::lemma_byte_span_values();
    crate::wire::lemma_le_roundtrip(codec::event_layout(event).len(), 4);
    assert(bytes@.take(4) =~= prefix);
}

} // verus!
