//! What the files of a log hold, and what is read from them.

use vstd::prelude::*;

use crate::infrastructure::wal::codec::{
    all_within_limit, event_layout, first_frame, frame, law_complete_records_are_readable,
    law_frame_roundtrip, law_record_is_local, law_valid_prefix_then, readable, records,
    valid_prefix, Frame, MAX_WAL_RECORD_PAYLOAD_BYTES,
};
use crate::infrastructure::wal::subscription::{delivered_events, is_run, moves, PlaceStep};
use crate::infrastructure::wal::types::{EventView, WalOffset};
use crate::infrastructure::wal::wal::read_start;
use crate::infrastructure::wal::writer::placement;

verus! {

/// The segment files of a log: the number of the first one, and the bytes of
/// each.
#[verifier::ext_equal]
pub struct LogFiles {
    pub first: u64,
    pub files: Seq<Seq<u8>>,
}

impl LogFiles {
    /// There is a file, and numbers and lengths fit their types.
    pub open spec fn wf(self) -> bool {
        &&& self.files.len() > 0
        &&& self.first + self.files.len() <= u64::MAX
        &&& forall|i: int|
            0 <= i < self.files.len() ==> (#[trigger] self.files[i]).len() <= u64::MAX
    }

    /// Every file is nothing but complete records.
    pub open spec fn clean(self) -> bool {
        forall|i: int|
            0 <= i < self.files.len() ==> valid_prefix(#[trigger] self.files[i])
                == self.files[i].len()
    }

    /// The end of the log.
    pub open spec fn tail(self) -> WalOffset {
        WalOffset {
            segment_id: (self.first + self.files.len() - 1) as u64,
            byte_offset: self.files.last().len() as u64,
        }
    }

    /// The log after a record was written where the writer puts it.
    pub open spec fn append(self, event: EventView, segment_bytes: u64) -> LogFiles {
        let bytes = frame(event);
        if placement(self.tail(), bytes.len(), segment_bytes) == self.tail() {
            LogFiles {
                first: self.first,
                files: self.files.update(self.files.len() - 1, self.files.last() + bytes),
            }
        } else {
            LogFiles { first: self.first, files: self.files.push(bytes) }
        }
    }

    /// The events that a reader gets who starts in file `i` at byte `at`: those of
    /// the rest of that file, then those of the next files. Complete records that
    /// are no events, or are over the limit, are skipped; where a file is cut
    /// short, or the reader is past its end, the next file is read.
    pub open spec fn read_from(self, i: int, at: int) -> Seq<EventView>
        decreases self.files.len() - i,
    {
        if 0 <= i < self.files.len() && 0 <= at {
            let here = if at <= self.files[i].len() {
                readable(self.files[i].skip(at))
            } else {
                Seq::<EventView>::empty()
            };
            here + self.read_from(i + 1, 0)
        } else {
            Seq::<EventView>::empty()
        }
    }

    /// The events that a reader gets who starts at a place.
    pub open spec fn read_at(self, place: WalOffset) -> Seq<EventView> {
        self.read_from(place.segment_id - self.first, place.byte_offset as int)
    }

    /// Whether these files, as they are, make a subscription at a place take
    /// this step.
    pub open spec fn leads_to(self, from: WalOffset, step: PlaceStep) -> bool {
        let i = from.segment_id - self.first;
        let at = from.byte_offset as int;
        &&& 0 <= i < self.files.len()
        &&& match step {
            PlaceStep::Delivered { event, payload_len } => {
                &&& at <= self.files[i].len()
                &&& first_frame(self.files[i].skip(at)) == Frame::Record(event, 4 + payload_len)
            },
            PlaceStep::Skipped { payload_len } => {
                &&& at <= self.files[i].len()
                &&& match first_frame(self.files[i].skip(at)) {
                    Frame::Corrupt(width) => width == 4 + payload_len,
                    Frame::TooLong(len) => len == payload_len,
                    _ => false,
                }
            },
            PlaceStep::NextSegment => at > self.files[i].len() || first_frame(
                self.files[i].skip(at),
            ) is Torn,
            PlaceStep::Stayed => true,
        }
    }

    /// The log after the first `n` files were deleted.
    pub open spec fn without_first(self, n: nat) -> LogFiles {
        LogFiles { first: (self.first + n) as u64, files: self.files.skip(n as int) }
    }
}

/// Two logs read the same from a file on, if they have the same files there.
proof fn lemma_same_files(a: LogFiles, b: LogFiles, i: int, j: int, at: int)
    requires
        0 <= i,
        0 <= j,
        a.files.len() - i == b.files.len() - j,
        i <= a.files.len(),
        a.files.skip(i) == b.files.skip(j),
    ensures
        a.read_from(i, at) == b.read_from(j, at),
    decreases a.files.len() - i,
{
    if i < a.files.len() {
        assert(a.files.skip(i)[0] == a.files[i]);
        assert(b.files.skip(j)[0] == b.files[j]);
        assert(a.files.skip(i + 1) =~= a.files.skip(i).skip(1));
        assert(b.files.skip(j + 1) =~= b.files.skip(j).skip(1));
        lemma_same_files(a, b, i + 1, j + 1, 0);
    }
}

/// Every step of a subscription delivers the next event that is there to be read,
/// or none, and leaves what comes after.
pub proof fn law_step_reads_the_log(log: LogFiles, from: WalOffset, step: PlaceStep, to: WalOffset)
    requires
        log.leads_to(from, step),
        moves(from, step, to),
    ensures
        log.read_at(from) == (match step {
            PlaceStep::Delivered { event, .. } => seq![event] + log.read_at(to),
            _ => log.read_at(to),
        }),
{
    let i = from.segment_id - log.first;
    let at = from.byte_offset as int;
    let rest = log.read_from(i + 1, 0);
    let here = log.files[i].skip(at);
    match step {
        PlaceStep::Delivered { event, payload_len } => {
            law_record_is_local(here, Seq::empty());
            assert(here.skip(4 + payload_len as int) =~= log.files[i].skip(at + 4 + payload_len));
            assert(log.read_at(from) =~= seq![event] + log.read_at(to));
        },
        PlaceStep::Skipped { payload_len } => {
            if 4 + payload_len <= here.len() {
                assert(here.skip(4 + payload_len as int) =~= log.files[i].skip(
                    at + 4 + payload_len,
                ));
            }
        },
        PlaceStep::NextSegment => {
            assert(log.read_at(from) =~= rest);
        },
        PlaceStep::Stayed => {},
    }
}

/// A record that is no event, or is over the limit, takes nothing but itself
/// from the reader, who goes on right behind it.
pub proof fn law_reader_goes_on_behind_a_skipped_record(log: LogFiles, i: int, at: int)
    requires
        0 <= i < log.files.len(),
        0 <= at <= log.files[i].len(),
    ensures
        match first_frame(log.files[i].skip(at)) {
            Frame::Corrupt(width) => log.read_from(i, at) == log.read_from(i, at + width),
            Frame::TooLong(len) => log.read_from(i, at) == log.read_from(i, at + 4 + len),
            _ => true,
        },
{
    let here = log.files[i].skip(at);
    match first_frame(here) {
        Frame::Corrupt(width) => {
            assert(here.skip(width as int) =~= log.files[i].skip(at + width));
        },
        Frame::TooLong(len) => {
            if 4 + len <= here.len() {
                assert(here.skip(4 + len as int) =~= log.files[i].skip(at + 4 + len));
            }
        },
        _ => {},
    }
}

/// A subscription delivers what is there to be read from its first place on, each
/// event once and in order: what it delivered, and what it would still deliver,
/// is all of it.
pub proof fn law_run_reads_the_log(log: LogFiles, places: Seq<WalOffset>, steps: Seq<PlaceStep>)
    requires
        is_run(places, steps),
        forall|k: int| 0 <= k < steps.len() ==> log.leads_to(places[k], #[trigger] steps[k]),
    ensures
        log.read_at(places[0]) == delivered_events(steps) + log.read_at(places.last()),
    decreases steps.len(),
{
    if steps.len() == 0 {
        assert(log.read_at(places[0]) =~= delivered_events(steps) + log.read_at(places.last()));
    } else {
        let n = steps.len() - 1;
        let front = steps.drop_last();
        let until = places.drop_last();
        assert forall|k: int| 0 <= k < front.len() implies moves(
            until[k],
            #[trigger] front[k],
            until[k + 1],
        ) by {
            assert(moves(places[k], steps[k], places[k + 1]));
        }
        assert forall|k: int| 0 <= k < front.len() implies log.leads_to(
            until[k],
            #[trigger] front[k],
        ) by {
            assert(log.leads_to(places[k], steps[k]));
        }
        law_run_reads_the_log(log, until, front);
        assert(moves(places[n], steps[n], places[n + 1]));
        law_step_reads_the_log(log, places[n], steps[n], places[n + 1]);
        assert(log.read_at(places[0]) =~= delivered_events(steps) + log.read_at(places.last()));
    }
}

/// What was written is read back: an event that is appended to a log is read
/// after everything that was read before, wherever the writer puts it, and
/// nothing else changes for the reader.
pub proof fn law_appended_event_is_read_last(
    log: LogFiles,
    event: EventView,
    segment_bytes: u64,
    i: int,
    at: int,
)
    requires
        log.wf(),
        valid_prefix(log.files.last()) == log.files.last().len(),
        event_layout(event).len() <= MAX_WAL_RECORD_PAYLOAD_BYTES,
        0 <= i < log.files.len(),
        0 <= at,
        i == log.files.len() - 1 ==> at <= log.files[i].len() && valid_prefix(
            log.files[i].skip(at),
        ) == log.files[i].len() - at,
    ensures
        log.append(event, segment_bytes).read_from(i, at) == log.read_from(i, at).push(event),
        valid_prefix(log.append(event, segment_bytes).files.last()) == log.append(
            event,
            segment_bytes,
        ).files.last().len(),
        log.clean() ==> log.append(event, segment_bytes).clean(),
    decreases log.files.len() - i,
{
    let after = log.append(event, segment_bytes);
    let last = log.files.len() - 1;
    lemma_append_clean(log, event, segment_bytes);
    if i == last {
        lemma_append_to_last_file(log, event, segment_bytes, at);
    } else {
        assert(after.files[i] == log.files[i]);
        assert(log.files[i + 1].skip(0) =~= log.files[i + 1]);
        law_appended_event_is_read_last(log, event, segment_bytes, i + 1, 0);
        assert(after.read_from(i, at) =~= log.read_from(i, at).push(event));
    }
}

/// A frame on its own is one complete record.
proof fn lemma_frame_alone(event: EventView)
    requires
        event_layout(event).len() <= MAX_WAL_RECORD_PAYLOAD_BYTES,
    ensures
        valid_prefix(frame(event)) == frame(event).len(),
        records(frame(event)) == seq![event],
{
    let bytes = frame(event);
    let none = Seq::<u8>::empty();
    law_frame_roundtrip(event, none);
    assert(bytes + none =~= bytes);
    assert(bytes.skip(bytes.len() as int) =~= none);
    assert(valid_prefix(none) == 0);
    assert(records(none) =~= Seq::<EventView>::empty());
    assert(valid_prefix(bytes) == bytes.len() + valid_prefix(none));
    assert(records(bytes) =~= seq![event]);
}

proof fn lemma_append_clean(log: LogFiles, event: EventView, segment_bytes: u64)
    requires
        log.wf(),
        valid_prefix(log.files.last()) == log.files.last().len(),
        event_layout(event).len() <= MAX_WAL_RECORD_PAYLOAD_BYTES,
    ensures
        valid_prefix(log.append(event, segment_bytes).files.last()) == log.append(
            event,
            segment_bytes,
        ).files.last().len(),
        log.clean() ==> log.append(event, segment_bytes).clean(),
{
    let after = log.append(event, segment_bytes);
    let last = log.files.len() - 1;
    lemma_frame_alone(event);
    lemma_extended(log.files[last], frame(event));
    if log.clean() {
        assert forall|k: int| 0 <= k < after.files.len() implies valid_prefix(
            #[trigger] after.files[k],
        ) == after.files[k].len() by {
            if k < last {
                assert(after.files[k] == log.files[k]);
            }
        }
    }
}

proof fn lemma_append_to_last_file(log: LogFiles, event: EventView, segment_bytes: u64, at: int)
    requires
        log.wf(),
        event_layout(event).len() <= MAX_WAL_RECORD_PAYLOAD_BYTES,
        0 <= at <= log.files.last().len(),
        valid_prefix(log.files.last().skip(at)) == log.files.last().len() - at,
    ensures
        log.append(event, segment_bytes).read_from(log.files.len() - 1, at) == log.read_from(
            log.files.len() - 1,
            at,
        ).push(event),
{
    let after = log.append(event, segment_bytes);
    let bytes = frame(event);
    let last = log.files.len() - 1;
    let here = log.files[last].skip(at);
    let none = Seq::<u8>::empty();
    lemma_frame_alone(event);
    lemma_extended(here, none);
    lemma_extended(bytes, none);
    assert(here + none =~= here);
    assert(bytes + none =~= bytes);
    assert(readable(none) =~= Seq::<EventView>::empty());
    assert(log.read_from(last + 1, 0) =~= Seq::<EventView>::empty());
    if placement(log.tail(), bytes.len(), segment_bytes) != log.tail() {
        assert(after.files[last] == log.files[last]);
        assert(after.files[last + 1].skip(0) =~= bytes);
        assert(after.read_from(last + 2, 0) =~= Seq::<EventView>::empty());
        assert(after.read_from(last + 1, 0) =~= seq![event]);
    } else {
        assert(after.files[last].skip(at) =~= here + bytes);
        lemma_extended(here, bytes);
        assert(after.read_from(last + 1, 0) =~= Seq::<EventView>::empty());
    }
    assert(after.read_from(last, at) =~= log.read_from(last, at).push(event));
}

/// Records that follow complete records.
proof fn lemma_extended(bytes: Seq<u8>, more: Seq<u8>)
    requires
        valid_prefix(bytes) == bytes.len(),
    ensures
        valid_prefix(bytes + more) == bytes.len() + valid_prefix(more),
        records(bytes + more) == records(bytes) + records(more),
        readable(bytes + more) == records(bytes) + readable(more),
{
    law_valid_prefix_then(bytes, more);
    law_complete_records_are_readable(bytes, more);
    assert(bytes.take(bytes.len() as int) =~= bytes);
}

/// The end of a log after an append: the record starts where the writer puts
/// it, and the log ends where the record does.
pub proof fn law_append_moves_tail(log: LogFiles, event: EventView, segment_bytes: u64)
    requires
        log.wf(),
        log.files.last().len() + frame(event).len() <= u64::MAX,
    ensures
        ({
            let start = placement(log.tail(), frame(event).len(), segment_bytes);
            let tail = log.append(event, segment_bytes).tail();
            &&& tail.segment_id == start.segment_id
            &&& tail.byte_offset == start.byte_offset + frame(event).len()
        }),
{
    let after = log.append(event, segment_bytes);
    if placement(log.tail(), frame(event).len(), segment_bytes) == log.tail() {
        assert(after.files.last() == log.files.last() + frame(event));
    } else {
        assert(after.files.last() == frame(event));
    }
}

/// A reader who starts where an entry ended gets what comes after that entry:
/// after a restart at a committed place, exactly the entries that were not
/// committed are read again, in order.
pub proof fn law_restart_reads_the_rest(log: LogFiles, i: int, at: int)
    requires
        0 <= i < log.files.len(),
        0 <= at <= log.files[i].len(),
        first_frame(log.files[i].skip(at)) is Record,
    ensures
        ({
            let event = first_frame(log.files[i].skip(at))->Record_0;
            let width = first_frame(log.files[i].skip(at))->Record_1;
            log.read_from(i, at) == seq![event] + log.read_from(i, at + width)
        }),
{
    let here = log.files[i].skip(at);
    let width = first_frame(here)->Record_1 as int;
    law_record_is_local(here, Seq::empty());
    assert(here.skip(width) =~= log.files[i].skip(at + width));
    assert(log.read_from(i, at) =~= seq![first_frame(here)->Record_0] + log.read_from(
        i,
        at + width,
    ));
}

/// Deleting the segments before the one that is read takes nothing from the
/// reader.
pub proof fn law_deletion_keeps_what_is_unread(log: LogFiles, deleted: nat, i: int, at: int)
    requires
        deleted <= i < log.files.len(),
    ensures
        log.without_first(deleted).read_from(i - deleted, at) == log.read_from(i, at),
{
    let kept = log.without_first(deleted);
    assert(kept.files.skip(i - deleted) =~= log.files.skip(i));
    lemma_same_files(kept, log, i - deleted, i, at);
}

/// A log to which some events were appended, one after the other.
pub open spec fn append_all(log: LogFiles, events: Seq<EventView>, segment_bytes: u64) -> LogFiles
    decreases events.len(),
{
    if events.len() == 0 {
        log
    } else {
        append_all(log, events.drop_last(), segment_bytes).append(events.last(), segment_bytes)
    }
}

/// All that is written to a new log is read from its start, each event once and
/// in the order of writing, across any number of segments.
pub proof fn law_log_reads_what_was_written(
    events: Seq<EventView>,
    segment_bytes: u64,
    first: u64,
)
    requires
        all_within_limit(events),
        first + events.len() < u64::MAX,
        (MAX_WAL_RECORD_PAYLOAD_BYTES + 4) * events.len() <= u64::MAX,
    ensures
        ({
            let empty = LogFiles { first, files: seq![Seq::<u8>::empty()] };
            let log = append_all(empty, events, segment_bytes);
            &&& log.wf()
            &&& log.clean()
            &&& log.read_from(0, 0) == events
        }),
    decreases events.len(),
{
    let empty = LogFiles { first, files: seq![Seq::<u8>::empty()] };
    let log = append_all(empty, events, segment_bytes);
    lemma_append_all_bounds(events, segment_bytes, first);
    if events.len() == 0 {
        assert(empty.files[0].skip(0) =~= Seq::<u8>::empty());
        assert(readable(Seq::<u8>::empty()) =~= Seq::<EventView>::empty());
        assert(log.read_from(1, 0) =~= Seq::<EventView>::empty());
        assert(log.read_from(0, 0) =~= events);
    } else {
        let before = append_all(empty, events.drop_last(), segment_bytes);
        assert((MAX_WAL_RECORD_PAYLOAD_BYTES + 4) * events.drop_last().len() <= u64::MAX)
            by (nonlinear_arith)
            requires
                (MAX_WAL_RECORD_PAYLOAD_BYTES + 4) * events.len() <= u64::MAX,
                events.drop_last().len() <= events.len(),
        ;
        law_log_reads_what_was_written(events.drop_last(), segment_bytes, first);
        assert(before.files[0].skip(0) =~= before.files[0]);
        assert(events.last() == events[events.len() - 1]);
        law_appended_event_is_read_last(before, events.last(), segment_bytes, 0, 0);
        assert(events.drop_last().push(events.last()) =~= events);
    }
}

/// The files of a new log stay within bounds that the number of events gives.
proof fn lemma_append_all_bounds(events: Seq<EventView>, segment_bytes: u64, first: u64)
    requires
        all_within_limit(events),
        first + events.len() < u64::MAX,
        (MAX_WAL_RECORD_PAYLOAD_BYTES + 4) * events.len() <= u64::MAX,
    ensures
        ({
            let empty = LogFiles { first, files: seq![Seq::<u8>::empty()] };
            let log = append_all(empty, events, segment_bytes);
            &&& log.wf()
            &&& log.first == first
            &&& 1 <= log.files.len() <= 1 + events.len()
            &&& forall|i: int|
                0 <= i < log.files.len() ==> (#[trigger] log.files[i]).len() <= (
                MAX_WAL_RECORD_PAYLOAD_BYTES + 4) * events.len()
        }),
    decreases events.len(),
{
    let empty = LogFiles { first, files: seq![Seq::<u8>::empty()] };
    let log = append_all(empty, events, segment_bytes);
    if events.len() > 0 {
        let front = events.drop_last();
        let m = MAX_WAL_RECORD_PAYLOAD_BYTES + 4;
        assert(m * front.len() + m == m * events.len()) by (nonlinear_arith)
            requires
                front.len() + 1 == events.len(),
        ;
        lemma_append_all_bounds(front, segment_bytes, first);
        let before = append_all(empty, front, segment_bytes);
        let event = events.last();
        law_frame_roundtrip(event, Seq::empty());
        assert(event == events[events.len() - 1]);
        assert forall|i: int| 0 <= i < log.files.len() implies (#[trigger] log.files[i]).len() <= m
            * events.len() by {
            if i < before.files.len() - 1 {
                assert(log.files[i] == before.files[i]);
            } else if i == before.files.len() - 1 {
                assert(before.files[i].len() <= m * front.len());
            }
        }
    }
}

/// What a subscription delivers of a new log is what was appended, in the order
/// of appending: an event that is delivered before another was appended before
/// it.
pub proof fn law_events_are_delivered_in_the_order_of_appending(
    events: Seq<EventView>,
    segment_bytes: u64,
    first: u64,
    places: Seq<WalOffset>,
    steps: Seq<PlaceStep>,
)
    requires
        all_within_limit(events),
        first + events.len() < u64::MAX,
        (MAX_WAL_RECORD_PAYLOAD_BYTES + 4) * events.len() <= u64::MAX,
        is_run(places, steps),
        places[0] == (WalOffset { segment_id: first, byte_offset: 0 }),
        forall|k: int|
            0 <= k < steps.len() ==> append_all(
                (LogFiles { first, files: seq![Seq::<u8>::empty()] }),
                events,
                segment_bytes,
            ).leads_to(places[k], #[trigger] steps[k]),
    ensures
        delivered_events(steps).len() <= events.len(),
        delivered_events(steps) == events.take(delivered_events(steps).len() as int),
{
    let empty = LogFiles { first, files: seq![Seq::<u8>::empty()] };
    let log = append_all(empty, events, segment_bytes);
    law_log_reads_what_was_written(events, segment_bytes, first);
    lemma_append_all_bounds(events, segment_bytes, first);
    law_run_reads_the_log(log, places, steps);
    let got = delivered_events(steps);
    assert(events =~= got + log.read_at(places.last()));
    assert(got =~= events.take(got.len() as int));
}

/// The numbers of the segments of a log.
pub open spec fn segment_ids(log: LogFiles) -> Seq<u64> {
    Seq::new(log.files.len(), |i: int| (log.first + i) as u64)
}

/// A log that is opened anew, and of which nothing was committed, is read from
/// its first event on; one with a cursor is read from there on.
pub proof fn law_opened_log_is_read_from_the_start(log: LogFiles, cursor: WalOffset)
    requires
        log.wf(),
    ensures
        read_start(segment_ids(log), log.tail().segment_id, None) matches Some(start)
            && log.read_at(start) == log.read_from(0, 0),
        segment_ids(log).contains(cursor.segment_id) ==> (read_start(
            segment_ids(log),
            log.tail().segment_id,
            Some(cursor),
        ) matches Some(start) && log.read_at(start) == log.read_at(cursor)),
{
    let ids = segment_ids(log);
    assert(ids[0] == log.first);
    if ids.contains(cursor.segment_id) {
        let i = choose|i: int| 0 <= i < ids.len() && ids[i] == cursor.segment_id;
        assert(ids[i] == log.first + i);
    }
}

} // verus!
