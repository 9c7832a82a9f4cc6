//! Opening a log, and what becomes of an event that is appended.

use vstd::prelude::*;

use crate::infrastructure::wal::codec;
use crate::infrastructure::wal::codec::{ByteReader, CodecError};
use crate::infrastructure::wal::recover::{last_valid_offset, scan_meets_end};
use crate::infrastructure::wal::segment::ascending;
use crate::infrastructure::wal::types::{
    AppendDurableError, EventView, TryAppendError, WalEvent, WalOffset,
};
use crate::text;

verus! {

/// Where the writer goes on in a log that was opened.
#[derive(Debug, Clone, Copy, PartialEq, Eq, Structural)]
pub struct ActiveSegment {
    /// The last segment, and how many of its bytes are complete records.
    pub tail: WalOffset,
    /// Whether the file is longer than that and is cut.
    pub truncate: bool,
}

/// The number of the first segment of a log whose last one is `active_id`.
pub open spec fn first_segment(segments: Seq<u64>, active_id: u64) -> u64 {
    if segments.len() > 0 {
        segments[0]
    } else {
        active_id
    }
}

/// Where reading starts in a log with these segments, whose last one is
/// `active_id`: `None` if the cursor points outside of it.
pub open spec fn read_start(
    segments: Seq<u64>,
    active_id: u64,
    cursor: Option<WalOffset>,
) -> Option<WalOffset> {
    let first = first_segment(segments, active_id);
    match cursor {
        None => Some(WalOffset { segment_id: first, byte_offset: 0 }),
        Some(offset) => if first <= offset.segment_id <= active_id {
            Some(offset)
        } else {
            None
        },
    }
}

/// After a restart, a cursor into any segment of the log is where reading goes
/// on, and one into no segment between the first and the last is refused. Without
/// a cursor, reading starts at the first byte of a segment of the log that has no
/// other one before it.
pub proof fn law_reading_goes_on_at_the_cursor(
    segments: Seq<u64>,
    active_id: u64,
    cursor: Option<WalOffset>,
)
    requires
        ascending(segments),
        segments.len() > 0,
        segments.last() == active_id,
    ensures
        match cursor {
            Some(offset) => {
                &&& segments.contains(offset.segment_id) ==> read_start(segments, active_id, cursor)
                    == Some(offset)
                &&& (forall|i: int|
                    0 <= i < segments.len() ==> offset.segment_id < #[trigger] segments[i])
                    ==> read_start(segments, active_id, cursor) is None
                &&& (forall|i: int|
                    0 <= i < segments.len() ==> offset.segment_id > #[trigger] segments[i])
                    ==> read_start(segments, active_id, cursor) is None
                &&& read_start(segments, active_id, cursor) matches Some(start) ==> start == offset
            },
            None => {
                &&& read_start(segments, active_id, cursor) matches Some(start) && start.byte_offset
                    == 0 && segments.contains(start.segment_id) && (forall|i: int|
                    0 <= i < segments.len() ==> start.segment_id <= #[trigger] segments[i])
            },
        },
{
    let n = segments.len() - 1;
    assert(segments[n] == active_id);
    assert(segments.contains(segments[0]));
    if let Some(offset) = cursor {
        if segments.contains(offset.segment_id) {
            let i = choose|i: int| 0 <= i < segments.len() && segments[i] == offset.segment_id;
            assert(segments[0] <= segments[i] <= segments[n]);
        }
    }
}

/// In a log without segment files, reading starts where the first one will.
pub proof fn law_reading_starts_with_the_first_segment(active_id: u64)
    ensures
        read_start(Seq::empty(), active_id, None) == Some(
            (WalOffset { segment_id: active_id, byte_offset: 0 }),
        ),
{
}

/// Where the writer goes on in a log with these segments, of which the last one
/// has these bytes.
pub open spec fn active_tail(segments: Seq<u64>, bytes: Seq<u8>) -> WalOffset {
    if segments.len() == 0 {
        WalOffset { segment_id: 1, byte_offset: 0 }
    } else {
        WalOffset { segment_id: segments.last(), byte_offset: codec::valid_prefix(bytes) as u64 }
    }
}

/// After a restart, the writer goes on in the segment that has no other one
/// after it, behind every complete record that was written there, whatever is
/// left of the record that the crash tore. A new log starts with the segment 1.
pub proof fn law_writer_goes_on_behind_what_was_written(
    segments: Seq<u64>,
    events: Seq<EventView>,
    torn: Seq<u8>,
)
    requires
        ascending(segments),
        codec::all_within_limit(events),
        codec::first_frame(torn) is Torn,
        codec::frames(events).len() <= u64::MAX,
    ensures
        segments.len() > 0 ==> {
            let tail = active_tail(segments, codec::frames(events) + torn);
            &&& tail.byte_offset == codec::frames(events).len()
            &&& segments.contains(tail.segment_id)
            &&& forall|i: int|
                0 <= i < segments.len() ==> #[trigger] segments[i] <= tail.segment_id
        },
        segments.len() == 0 ==> active_tail(segments, codec::frames(events) + torn) == (WalOffset {
            segment_id: 1,
            byte_offset: 0,
        }),
{
    codec::law_written_events_are_read_back(events, torn);
    if segments.len() > 0 {
        assert(segments[segments.len() - 1] == segments.last());
    }
}

/// Where the writer goes on: at the end of the complete records of the last
/// segment, or at the start of segment 1 if there is none. `file_len` is the
/// length of the file of the last segment, and `file` its bytes. It fails if the
/// end of the records could not be read.
pub fn plan_active(segments: &Vec<u64>, file_len: u64, file: &mut ByteReader) -> (r: Result<
    ActiveSegment,
    CodecError,
>)
    requires
        old(file).wf(),
    ensures
        r matches Ok(plan) ==> plan.tail == active_tail(segments@, old(file).remaining()),
        if segments@.len() == 0 {
            r matches Ok(plan) && plan == (ActiveSegment {
                tail: WalOffset { segment_id: 1, byte_offset: 0 },
                truncate: false,
            })
        } else if old(file).spec_broken() && scan_meets_end(old(file).remaining()) {
            r matches Err(CodecError::Read(cause)) && Some(cause@) == old(file).spec_failure()
        } else {
            r matches Ok(plan) && plan.tail.segment_id == segments@.last()
                && plan.tail.byte_offset == codec::valid_prefix(old(file).remaining())
                && plan.truncate == (plan.tail.byte_offset < file_len)
        },
{
    if segments.len() == 0 {
        return Ok(
            ActiveSegment {
                tail: WalOffset { segment_id: 1, byte_offset: 0 },
                truncate: false,
            },
        );
    }
    let id: u64 = segments[segments.len() - 1];
    let valid: u64 = match last_valid_offset(file) {
        Ok(valid) => valid,
        Err(e) => {
            return Err(e);
        },
    };
    Ok(
        ActiveSegment {
            tail: WalOffset { segment_id: id, byte_offset: valid },
            truncate: valid < file_len,
        },
    )
}

/// A cursor that points to a segment which the log does not have.
#[derive(Debug)]
pub struct CursorOutside {
    pub message: String,
}

/// `WalOffset { segment_id: .., byte_offset: .. }` with the numbers.
pub open spec fn offset_text(offset: WalOffset) -> Seq<char> {
    "WalOffset { segment_id: "@ + text::decimal(offset.segment_id as nat) + ", byte_offset: "@
        + text::decimal(offset.byte_offset as nat) + " }"@
}

/// Some numbers, separated by a comma and a space.
pub open spec fn ids_text(ids: Seq<u64>) -> Seq<char>
    decreases ids.len(),
{
    if ids.len() == 0 {
        Seq::<char>::empty()
    } else if ids.len() == 1 {
        text::decimal(ids[0] as nat)
    } else {
        ids_text(ids.drop_last()) + ", "@ + text::decimal(ids.last() as nat)
    }
}

fn render_ids(ids: &Vec<u64>) -> (s: String)
    ensures
        s@ == ids_text(ids@),
{
    let mut s = String::new();
    let mut i: usize = 0;
    proof {
        assert(s@ =~= ids_text(ids@.take(0)));
    }
    while i < ids.len()
        invariant
            i <= ids@.len(),
            s@ == ids_text(ids@.take(i as int)),
        decreases ids@.len() - i,
    {
        proof {
            assert(ids@.take(i + 1).drop_last() =~= ids@.take(i as int));
            if i == 0 {
                assert(s@ + text::decimal(ids@[0] as nat) =~= text::decimal(ids@[0] as nat));
            }
        }
        if i > 0 {
            s.append(", ");
        }
        s.append(text::decimal_text(ids[i]).as_str());
        i = i + 1;
    }
    proof {
        assert(ids@.take(i as int) =~= ids@);
    }
    s
}

/// Where reading starts in a log that was opened: at the cursor, if there is
/// one, or else at the start of the first segment. It fails if the cursor
/// points outside the segments of the log.
pub fn plan_read_start(segments: &Vec<u64>, active_id: u64, cursor: Option<WalOffset>) -> (r:
    Result<WalOffset, CursorOutside>)
    ensures
        match read_start(segments@, active_id, cursor) {
            Some(place) => r matches Ok(start) && start == place,
            None => r is Err,
        },
        ({
            let first = first_segment(segments@, active_id);
            match cursor {
                None => r matches Ok(start) && start == (WalOffset {
                    segment_id: first,
                    byte_offset: 0,
                }),
                Some(offset) => if first <= offset.segment_id <= active_id {
                    r matches Ok(start) && start == offset
                } else {
                    r matches Err(e) && e.message@
                        == "WAL cursor points outside available segments: cursor="@ + offset_text(
                        offset,
                    ) + ", segments=["@ + ids_text(segments@) + "]"@
                },
            }
        }),
{
    let first: u64 = if segments.len() > 0 {
        segments[0]
    } else {
        active_id
    };
    match cursor {
        None => Ok(WalOffset { segment_id: first, byte_offset: 0 }),
        Some(offset) => {
            if offset.segment_id < first || offset.segment_id > active_id {
                let mut message = String::from_str(
                    "WAL cursor points outside available segments: cursor=",
                );
                let mut place = String::from_str("WalOffset { segment_id: ");
                place.append(text::decimal_text(offset.segment_id).as_str());
                place.append(", byte_offset: ");
                place.append(text::decimal_text(offset.byte_offset).as_str());
                place.append(" }");
                message.append(place.as_str());
                message.append(", segments=[");
                message.append(render_ids(segments).as_str());
                message.append("]");
                return Err(CursorOutside { message });
            }
            Ok(offset)
        },
    }
}

/// Why the queue into the writer did not take a request.
#[derive(Debug, Clone, Copy, PartialEq, Eq, Structural)]
pub enum QueueRefusal {
    Full,
    Disconnected,
}

/// What an append that does not wait reports, if the queue handed the event
/// back.
pub fn try_append_refused(refusal: QueueRefusal, event: WalEvent) -> (e: TryAppendError)
    ensures
        e == (match refusal {
            QueueRefusal::Full => TryAppendError::Full(event),
            QueueRefusal::Disconnected => TryAppendError::Closed(event),
        }),
{
    match refusal {
        QueueRefusal::Full => TryAppendError::Full(event),
        QueueRefusal::Disconnected => TryAppendError::Closed(event),
    }
}

/// What an append that waits reports, if the queue handed the event back.
pub fn append_durable_refused(refusal: QueueRefusal, event: WalEvent) -> (e: AppendDurableError)
    ensures
        e == (match refusal {
            QueueRefusal::Full => AppendDurableError::Full(event),
            QueueRefusal::Disconnected => AppendDurableError::Closed(event),
        }),
{
    match refusal {
        QueueRefusal::Full => AppendDurableError::Full(event),
        QueueRefusal::Disconnected => AppendDurableError::Closed(event),
    }
}

/// What an append that waits reports, when the writer answered, or ended
/// without an answer (`None`).
pub fn append_durable_answered(answer: Option<Result<(), String>>) -> (r: Result<
    (),
    AppendDurableError,
>)
    ensures
        match answer {
            Some(Ok(())) => r is Ok,
            Some(Err(reason)) => r matches Err(AppendDurableError::Durability(s)) && s@ == reason@,
            None => r matches Err(AppendDurableError::Durability(s)) && s@
                == "wal writer exited before durability ack"@,
        },
{
    match answer {
        Some(Ok(())) => Ok(()),
        Some(Err(reason)) => Err(AppendDurableError::Durability(reason)),
        None => Err(
            AppendDurableError::Durability(
                String::from_str("wal writer exited before durability ack"),
            ),
        ),
    }
}

/// What `plan_read_start` answers for a log that was opened: the cursor, if it
/// points into a segment of the log; without a cursor, the first byte of a segment
/// that has no other one before it; and an error for a cursor before or behind all
/// segments.
pub proof fn law_planned_start_loses_nothing(
    segments: Vec<u64>,
    active_id: u64,
    cursor: Option<WalOffset>,
    r: Result<WalOffset, CursorOutside>,
)
    requires
        call_ensures(plan_read_start, (&segments, active_id, cursor), r),
        ascending(segments@),
        segments@.len() > 0,
        segments@.last() == active_id,
    ensures
        cursor matches Some(offset) ==> {
            &&& segments@.contains(offset.segment_id) ==> (r matches Ok(start) && start == offset)
            &&& offset.segment_id < segments@[0] ==> r is Err
            &&& offset.segment_id > active_id ==> r is Err
        },
        cursor is None ==> (r matches Ok(start) && start.byte_offset == 0 && segments@.contains(
            start.segment_id,
        ) && forall|i: int|
            0 <= i < segments@.len() ==> start.segment_id <= #[trigger] segments@[i]),
{
    law_reading_goes_on_at_the_cursor(segments@, active_id, cursor);
    if let Some(offset) = cursor {
        assert forall|i: int| 0 <= i < segments@.len() && offset.segment_id < segments@[0] implies
            offset.segment_id < #[trigger] segments@[i] by {
            assert(segments@[0] <= segments@[i]);
        }
        assert forall|i: int| 0 <= i < segments@.len() && offset.segment_id > active_id implies
            offset.segment_id > #[trigger] segments@[i] by {
            assert(segments@[i] <= segments@[segments@.len() - 1]);
        }
    }
}

/// What `plan_active` answers for the bytes that a crash left: the writer goes on
/// behind the last complete record, and the file is cut if and only if it is
/// longer than that.
pub proof fn law_planned_tail_is_behind_what_was_written(
    segments: Vec<u64>,
    file_len: u64,
    file: &mut ByteReader,
    events: Seq<EventView>,
    torn: Seq<u8>,
    r: Result<ActiveSegment, CodecError>,
)
    requires
        call_ensures(plan_active, (&segments, file_len, file), r),
        segments@.len() > 0,
        file.remaining() == codec::frames(events) + torn,
        file.spec_failure() is None,
        file_len == codec::frames(events).len() + torn.len(),
        codec::all_within_limit(events),
        codec::first_frame(torn) is Torn,
    ensures
        r matches Ok(plan) && plan.tail.segment_id == segments@.last() && plan.tail.byte_offset
            == codec::frames(events).len() && plan.truncate == (torn.len() > 0),
{
    codec::law_written_events_are_read_back(events, torn);
}

/// An event that the queue did not take is handed back, with whether the queue was
/// full or closed.
pub proof fn law_refused_events_are_handed_back(
    refusal: QueueRefusal,
    event: WalEvent,
    tried: TryAppendError,
    durable: AppendDurableError,
)
    requires
        call_ensures(try_append_refused, (refusal, event), tried),
        call_ensures(append_durable_refused, (refusal, event), durable),
    ensures
        refusal is Full <==> tried is Full,
        refusal is Disconnected <==> tried is Closed,
        tried matches TryAppendError::Full(e) ==> e == event,
        tried matches TryAppendError::Closed(e) ==> e == event,
        refusal is Full <==> durable is Full,
        refusal is Disconnected <==> durable is Closed,
        durable matches AppendDurableError::Full(e) ==> e == event,
        durable matches AppendDurableError::Closed(e) ==> e == event,
{
}

/// An append is durable if and only if the writer said so: not if it failed, nor
/// if it ended without an answer.
pub proof fn law_only_the_writer_makes_durable(
    answer: Option<Result<(), String>>,
    r: Result<(), AppendDurableError>,
)
    requires
        call_ensures(append_durable_answered, (answer,), r),
    ensures
        r is Ok <==> answer matches Some(Ok(())),
        answer matches Some(Err(reason)) ==> (r matches Err(AppendDurableError::Durability(s)) && s@
            == reason@),
        answer is None ==> r matches Err(AppendDurableError::Durability(_)),
{
}

/// The text of a place shows both of its numbers, and that of several segments
/// has a comma between each two.
pub proof fn law_text_of_places(a: WalOffset, b: WalOffset, ids: Seq<u64>, id: u64)
    ensures
        a.segment_id == b.segment_id && offset_text(a) == offset_text(b) ==> a == b,
        a.byte_offset == b.byte_offset && offset_text(a) == offset_text(b) ==> a == b,
        ids.len() > 0 ==> ids_text(ids.push(id)) == ids_text(ids) + ", "@ + text::decimal(
            id as nat,
        ),
        ids_text(seq![id]) == text::decimal(id as nat),
{
    let s = "WalOffset { segment_id: "@;
    let m = ", byte_offset: "@;
    let e = " }"@;
    let (x, y) = (text::decimal(a.segment_id as nat), text::decimal(a.byte_offset as nat));
    let (u, v) = (text::decimal(b.segment_id as nat), text::decimal(b.byte_offset as nat));
    assert(s + x + m + y + e =~= s + x + (m + y + e));
    assert(s + u + m + v + e =~= s + u + (m + v + e));
    if offset_text(a) == offset_text(b) && a.segment_id == b.segment_id {
        text::lemma_between(s + x + m, y, v, e);
        text::law_numbers_are_written_differently(a.byte_offset as nat, b.byte_offset as nat);
    }
    if offset_text(a) == offset_text(b) && a.byte_offset == b.byte_offset {
        text::lemma_between(s, x, u, m + y + e);
        text::law_numbers_are_written_differently(a.segment_id as nat, b.segment_id as nat);
    }
    assert(ids.push(id).drop_last() =~= ids);
}

} // verus!
