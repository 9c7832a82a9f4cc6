//! What the writing thread leaves behind, from its start to its end, while
//! files can be opened and written.

use vstd::prelude::*;

use crate::infrastructure::wal::codec::{event_layout, frame, frames};
use crate::infrastructure::wal::log_model::{append_all, law_append_moves_tail, LogFiles};
use crate::infrastructure::wal::types::{EventView, WalOffset};
use crate::infrastructure::wal::writer::{placement, rotation_due, waiting, PendingAck, WriterView};
use crate::wire;

verus! {

/// One turn of the writing thread.
pub enum WriterTurn<A> {
    /// A request was received, and its record written at this time.
    Write { event: EventView, ack: Option<A>, now: u64 },
    /// The buffer was flushed.
    Flush,
    /// The buffer was to be flushed at this time, and could not be.
    FlushFailed { now: u64 },
}

/// The writing thread, the files it writes, and whom it told that an event is
/// durable.
#[verifier::ext_equal]
pub struct WriterRun<A> {
    pub writer: WriterView<A>,
    pub log: LogFiles,
    pub told: Seq<A>,
}

impl<A> WriterRun<A> {
    /// A writing thread that goes on at the end of a log.
    pub open spec fn start(log: LogFiles, limit: u64, now: u64) -> WriterRun<A> {
        WriterRun {
            writer: WriterView::fresh(log.tail(), limit, now),
            log,
            told: Seq::empty(),
        }
    }

    /// Those who wait are told, and an empty file follows.
    pub open spec fn rotate(self) -> WriterRun<A> {
        WriterRun {
            writer: self.writer.rotated(),
            log: LogFiles { files: self.log.files.push(Seq::empty()), ..self.log },
            told: self.told + waiting(None, self.writer.pending),
        }
    }

    /// A record is added to the last file.
    pub open spec fn put(self, bytes: Seq<u8>, ack: Option<A>, now: u64) -> WriterRun<A> {
        let files = self.log.files;
        WriterRun {
            writer: self.writer.wrote(bytes.len(), ack, now),
            log: LogFiles {
                files: files.update(files.len() - 1, files.last() + bytes),
                ..self.log
            },
            told: self.told,
        }
    }

    /// After one turn.
    pub open spec fn turn(self, turn: WriterTurn<A>) -> WriterRun<A> {
        match turn {
            WriterTurn::Write { event, ack, now } => {
                let bytes = frame(event);
                if rotation_due(self.writer.tail.byte_offset, bytes.len(), self.writer.limit) {
                    self.rotate().put(bytes, ack, now)
                } else {
                    self.put(bytes, ack, now)
                }
            },
            WriterTurn::Flush => WriterRun {
                writer: self.writer.flushed(),
                told: self.told + waiting(None, self.writer.pending),
                ..self
            },
            WriterTurn::FlushFailed { now } => WriterRun {
                writer: self.writer.flush_failed(now),
                ..self
            },
        }
    }

    /// After some turns.
    pub open spec fn turns(self, turns: Seq<WriterTurn<A>>) -> WriterRun<A>
        decreases turns.len(),
    {
        if turns.len() == 0 {
            self
        } else {
            self.turns(turns.drop_last()).turn(turns.last())
        }
    }

    /// After all senders were gone and the last flush was made.
    pub open spec fn shut_down(self) -> WriterRun<A> {
        WriterRun {
            writer: self.writer.published(),
            told: self.told + waiting(None, self.writer.pending),
            ..self
        }
    }
}

/// The events that were written in some turns.
pub open spec fn written<A>(turns: Seq<WriterTurn<A>>) -> Seq<EventView>
    decreases turns.len(),
{
    if turns.len() == 0 {
        Seq::empty()
    } else {
        let before = written(turns.drop_last());
        match turns.last() {
            WriterTurn::Write { event, .. } => before.push(event),
            _ => before,
        }
    }
}

/// Those who asked to be told in some turns.
pub open spec fn asked<A>(turns: Seq<WriterTurn<A>>) -> Seq<A>
    decreases turns.len(),
{
    if turns.len() == 0 {
        Seq::empty()
    } else {
        let before = asked(turns.drop_last());
        match turns.last() {
            WriterTurn::Write { ack: Some(ack), .. } => before.push(ack),
            _ => before,
        }
    }
}

/// Whether the lengths of these events fit their prefixes.
pub open spec fn all_encodable(events: Seq<EventView>) -> bool {
    forall|k: int|
        0 <= k < events.len() ==> event_layout(#[trigger] events[k]).len() <= u32::MAX
}

/// Whether numbers and lengths of files fit their types, however `n` records are
/// added to a log.
pub open spec fn has_room(log: LogFiles, n: nat) -> bool {
    &&& log.wf()
    &&& log.first + log.files.len() + n <= u64::MAX
    &&& log.files.last().len() + (u32::MAX + 4) * n <= u64::MAX
}

/// The bytes of some files, one after the other.
pub open spec fn joined(files: Seq<Seq<u8>>) -> Seq<u8>
    decreases files.len(),
{
    if files.len() == 0 {
        Seq::empty()
    } else {
        joined(files.drop_last()) + files.last()
    }
}

/// Where the record of event number `k` starts, of those that are added to a log.
pub open spec fn start_of(log: LogFiles, events: Seq<EventView>, k: int, limit: u64) -> WalOffset {
    placement(append_all(log, events.take(k), limit).tail(), frame(events[k]).len(), limit)
}

proof fn lemma_frame_len(event: EventView)
    requires
        event_layout(event).len() <= u32::MAX,
    ensures
        4 <= frame(event).len() <= u32::MAX + 4,
{
    wire::lemma_le_roundtrip(event_layout(event).len(), 4);
}

/// What the addition of a record does to the files of a log.
proof fn lemma_append(log: LogFiles, event: EventView, limit: u64, n: nat)
    requires
        has_room(log, (n + 1) as nat),
        event_layout(event).len() <= u32::MAX,
    ensures
        ({
            let after = log.append(event, limit);
            let due = rotation_due(log.tail().byte_offset, frame(event).len(), limit);
            &&& has_room(after, n)
            &&& after.first == log.first
            &&& log.files.len() <= after.files.len()
            &&& after.files == (if due {
                log.files.push(frame(event))
            } else {
                log.files.update(log.files.len() - 1, log.files.last() + frame(event))
            })
            &&& joined(after.files) == joined(log.files) + frame(event)
        }),
{
    let after = log.append(event, limit);
    let bytes = frame(event);
    lemma_frame_len(event);
    assert((u32::MAX + 4) * (n + 1) == (u32::MAX + 4) * n + (u32::MAX + 4)) by (nonlinear_arith);
    assert((u32::MAX + 4) * n >= 0) by (nonlinear_arith);
    if rotation_due(log.tail().byte_offset, bytes.len(), limit) {
        assert(after.files.drop_last() =~= log.files);
    } else {
        assert(after.files.drop_last() =~= log.files.drop_last());
        assert(joined(after.files) =~= joined(log.files) + bytes);
    }
    assert forall|i: int| 0 <= i < after.files.len() implies (#[trigger] after.files[i]).len()
        <= u64::MAX by {
        if i < log.files.len() - 1 {
            assert(after.files[i] == log.files[i]);
        }
    }
}

/// Adding events keeps within the room that there is.
proof fn lemma_append_all(log: LogFiles, events: Seq<EventView>, limit: u64, n: nat)
    requires
        has_room(log, (events.len() + n) as nat),
        all_encodable(events),
    ensures
        ({
            let after = append_all(log, events, limit);
            &&& has_room(after, n)
            &&& after.first == log.first
            &&& log.files.len() <= after.files.len()
            &&& joined(after.files) == joined(log.files) + frames(events)
        }),
    decreases events.len(),
{
    if events.len() == 0 {
        assert(joined(log.files) + frames(events) =~= joined(log.files));
    } else {
        let front = events.drop_last();
        let before = append_all(log, front, limit);
        assert forall|k: int| 0 <= k < front.len() implies event_layout(#[trigger] front[k]).len()
            <= u32::MAX by {
            assert(front[k] == events[k]);
        }
        assert(events.last() == events[events.len() - 1]);
        lemma_append_all(log, front, limit, n + 1);
        lemma_append(before, events.last(), limit, n);
        assert(joined(append_all(log, events, limit).files) =~= joined(log.files) + frames(events));
    }
}

/// The frames of events go to the files one after the other, each in one piece:
/// all bytes that are added are those of the frames, in the order of the
/// segments, and the record of each event stands whole where it was placed.
pub proof fn law_records_are_never_split(log: LogFiles, events: Seq<EventView>, limit: u64)
    requires
        has_room(log, events.len()),
        all_encodable(events),
    ensures
        ({
            let after = append_all(log, events, limit);
            &&& joined(after.files) == joined(log.files) + frames(events)
            &&& forall|k: int|
                0 <= k < events.len() ==> #[trigger] stands_at(
                    after,
                    start_of(log, events, k, limit),
                    frame(events[k]),
                )
        }),
    decreases events.len(),
{
    let after = append_all(log, events, limit);
    lemma_append_all(log, events, limit, 0);
    if events.len() > 0 {
        let front = events.drop_last();
        let n = events.len() - 1;
        let before = append_all(log, front, limit);
        let event = events.last();
        assert forall|k: int| 0 <= k < front.len() implies event_layout(#[trigger] front[k]).len()
            <= u32::MAX by {
            assert(front[k] == events[k]);
        }
        assert(event == events[n]);
        assert((u32::MAX + 4) * n <= (u32::MAX + 4) * events.len()) by (nonlinear_arith)
            requires
                0 <= n <= events.len(),
        ;
        law_records_are_never_split(log, front, limit);
        lemma_append_all(log, front, limit, 1);
        lemma_append(before, event, limit, 0);
        assert forall|k: int| 0 <= k < events.len() implies #[trigger] stands_at(
            after,
            start_of(log, events, k, limit),
            frame(events[k]),
        ) by {
            if k < n {
                assert(front.take(k) =~= events.take(k));
                assert(front[k] == events[k]);
                let place = start_of(log, front, k, limit);
                assert(stands_at(before, place, frame(front[k])));
                let i = place.segment_id - log.first;
                let at = place.byte_offset as int;
                let end = at + frame(events[k]).len();
                assert(after.files[i].subrange(at, end) =~= before.files[i].subrange(at, end));
            } else {
                assert(events.take(k) =~= front);
                let place = start_of(log, events, k, limit);
                let i = place.segment_id - log.first;
                let at = place.byte_offset as int;
                assert(after.files[i].subrange(at, at + frame(event).len()) =~= frame(event));
            }
        }
    }
}

/// Whether these bytes stand at a place of a log.
pub open spec fn stands_at(log: LogFiles, place: WalOffset, bytes: Seq<u8>) -> bool {
    let i = place.segment_id - log.first;
    &&& 0 <= i < log.files.len()
    &&& place.byte_offset + bytes.len() <= log.files[i].len()
    &&& log.files[i].subrange(place.byte_offset as int, place.byte_offset + bytes.len()) == bytes
}

/// Whether a segment is within the threshold, or holds one record only.
pub open spec fn within_threshold(file: Seq<u8>, events: Seq<EventView>, limit: u64) -> bool {
    file.len() <= limit || exists|k: int|
        0 <= k < events.len() && file == frame(#[trigger] events[k])
}

/// However many events are added to a log, the files before its last one stay as
/// they are, and every new segment is within the threshold or holds one record
/// only.
pub proof fn law_new_segments_are_within_the_threshold(
    log: LogFiles,
    events: Seq<EventView>,
    limit: u64,
)
    requires
        has_room(log, events.len()),
        all_encodable(events),
    ensures
        ({
            let after = append_all(log, events, limit);
            &&& log.files.len() <= after.files.len()
            &&& forall|i: int|
                0 <= i < log.files.len() - 1 ==> #[trigger] after.files[i] == log.files[i]
            &&& forall|i: int|
                log.files.len() <= i < after.files.len() ==> within_threshold(
                    #[trigger] after.files[i],
                    events,
                    limit,
                )
        }),
    decreases events.len(),
{
    if events.len() > 0 {
        let after = append_all(log, events, limit);
        let front = events.drop_last();
        let n = events.len() - 1;
        let before = append_all(log, front, limit);
        let event = events.last();
        assert forall|k: int| 0 <= k < front.len() implies event_layout(#[trigger] front[k]).len()
            <= u32::MAX by {
            assert(front[k] == events[k]);
        }
        assert(event == events[n]);
        assert((u32::MAX + 4) * n <= (u32::MAX + 4) * events.len()) by (nonlinear_arith)
            requires
                0 <= n <= events.len(),
        ;
        law_new_segments_are_within_the_threshold(log, front, limit);
        lemma_append_all(log, front, limit, 1);
        lemma_append(before, event, limit, 0);
        assert forall|i: int| log.files.len() <= i < after.files.len() implies within_threshold(
            #[trigger] after.files[i],
            events,
            limit,
        ) by {
            if i < before.files.len() && after.files[i] == before.files[i] {
                assert(within_threshold(before.files[i], front, limit));
                if before.files[i].len() > limit {
                    let k = choose|k: int|
                        0 <= k < front.len() && before.files[i] == frame(#[trigger] front[k]);
                    assert(events[k] == front[k]);
                }
            } else if i == before.files.len() {
                assert(after.files[i] == frame(events[n]));
            } else {
                let last = before.files.last();
                assert(i == before.files.len() - 1);
                assert(after.files[i] == last + frame(event));
                if last.len() == 0 {
                    assert(after.files[i] =~= frame(events[n]));
                }
            }
        }
        assert forall|i: int| 0 <= i < log.files.len() - 1 implies #[trigger] after.files[i]
            == log.files[i] by {
            assert(before.files[i] == log.files[i]);
        }
    }
}

/// One more who waits.
proof fn lemma_waiting_push<A>(pending: Seq<PendingAck<A>>, p: PendingAck<A>)
    ensures
        waiting(None, pending.push(p)) == waiting(None, pending).push(p.ack),
{
    assert(waiting(None, pending.push(p)) =~= waiting(None, pending).push(p.ack));
}

/// A run of the writing thread: its files are the log to which the events were
/// added, its place is the end of that log, and those who asked were told or
/// wait.
proof fn lemma_run<A>(log: LogFiles, limit: u64, now: u64, turns: Seq<WriterTurn<A>>, n: nat)
    requires
        has_room(log, (written(turns).len() + n) as nat),
        all_encodable(written(turns)),
    ensures
        ({
            let run = WriterRun::<A>::start(log, limit, now).turns(turns);
            &&& run.log == append_all(log, written(turns), limit)
            &&& has_room(run.log, n)
            &&& run.writer.tail == run.log.tail()
            &&& run.writer.limit == limit
            &&& asked(turns) == run.told + waiting(None, run.writer.pending)
        }),
    decreases turns.len(),
{
    let begin = WriterRun::<A>::start(log, limit, now);
    let run = begin.turns(turns);
    if turns.len() == 0 {
        assert(asked(turns) =~= run.told + waiting(None, run.writer.pending));
    } else {
        let front = turns.drop_last();
        let before = begin.turns(front);
        match turns.last() {
            WriterTurn::Write { event, ack, now } => {
                let events = written(turns);
                assert(events.drop_last() =~= written(front));
                assert(events.last() == event);
                assert forall|k: int| 0 <= k < written(front).len() implies event_layout(
                    #[trigger] written(front)[k],
                ).len() <= u32::MAX by {
                    assert(written(front)[k] == events[k]);
                }
                assert(event == events[events.len() - 1]);
                lemma_run(log, limit, begin.writer.deadline, front, n + 1);
                lemma_append(before.log, event, limit, n);
                lemma_frame_len(event);
                law_append_moves_tail(before.log, event, limit);
                let bytes = frame(event);
                let due = rotation_due(before.writer.tail.byte_offset, bytes.len(), limit);
                let placed = if due {
                    before.rotate()
                } else {
                    before
                };
                assert(placed.told + waiting(None, placed.writer.pending) =~= asked(front));
                if due {
                    assert(Seq::<u8>::empty() + bytes =~= bytes);
                    assert(run.log.files =~= before.log.files.push(bytes));
                }
                assert(run.log =~= before.log.append(event, limit));
                match ack {
                    Some(a) => {
                        lemma_waiting_push(
                            placed.writer.pending,
                            (PendingAck { ack: a, end: run.writer.tail }),
                        );
                        assert(asked(turns) =~= run.told + waiting(None, run.writer.pending));
                    },
                    None => {},
                }
            },
            WriterTurn::Flush => {
                lemma_run(log, limit, now, front, n);
                assert(asked(turns) =~= run.told + waiting(None, run.writer.pending));
            },
            WriterTurn::FlushFailed { now: _ } => {
                lemma_run(log, limit, now, front, n);
            },
        }
    }
}

/// A whole run of the writing thread, from the end of a log on until all senders
/// are gone, while files can be opened and written: the bytes that were added, in
/// the order of the segments, are the frames of the events in the order of the
/// requests, each record in one piece; the files before the last one stay as they
/// are; every new segment is within the threshold or holds one record only;
/// readers may read to the end of the log; and everyone who asked was told once,
/// in the order of the requests.
pub proof fn law_writer_run<A>(
    log: LogFiles,
    limit: u64,
    now: u64,
    turns: Seq<WriterTurn<A>>,
)
    requires
        has_room(log, written(turns).len()),
        all_encodable(written(turns)),
    ensures
        ({
            let events = written(turns);
            let end = WriterRun::<A>::start(log, limit, now).turns(turns).shut_down();
            &&& end.log.first == log.first
            &&& joined(end.log.files) == joined(log.files) + frames(events)
            &&& forall|k: int|
                0 <= k < events.len() ==> #[trigger] stands_at(
                    end.log,
                    start_of(log, events, k, limit),
                    frame(events[k]),
                )
            &&& forall|i: int|
                0 <= i < log.files.len() - 1 ==> #[trigger] end.log.files[i] == log.files[i]
            &&& forall|i: int|
                log.files.len() <= i < end.log.files.len() ==> within_threshold(
                    #[trigger] end.log.files[i],
                    events,
                    limit,
                )
            &&& end.writer.head == end.log.tail()
            &&& end.writer.pending.len() == 0
            &&& end.told == asked(turns)
        }),
{
    let events = written(turns);
    lemma_run(log, limit, now, turns, 0);
    lemma_append_all(log, events, limit, 0);
    law_records_are_never_split(log, events, limit);
    law_new_segments_are_within_the_threshold(log, events, limit);
}

} // verus!
