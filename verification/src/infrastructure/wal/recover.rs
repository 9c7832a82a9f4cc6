//! Finding the end of the complete records of a segment file.

use vstd::prelude::*;

use crate::infrastructure::wal::codec;
use crate::infrastructure::wal::types::EventView;
use crate::infrastructure::wal::codec::{ByteReader, CodecError, DecodeOutcome, Frame};

verus! {

/// Whether the scan of some bytes for complete records runs into their end: what
/// follows the records is cut short, or is over the limit and cut short.
pub open spec fn scan_meets_end(bytes: Seq<u8>) -> bool {
    let rest = bytes.skip(codec::valid_prefix(bytes) as int);
    match codec::first_frame(rest) {
        Frame::Torn => true,
        Frame::TooLong(len) => 4 + len > rest.len(),
        _ => false,
    }
}

/// How many bytes at the front of a segment file are complete records: the
/// length that the file is to be cut to before the writer goes on. The scan
/// stops at the first frame that is torn, over the limit or no event. It fails
/// if it needs bytes that could not be read.
pub fn last_valid_offset(reader: &mut ByteReader) -> (r: Result<u64, CodecError>)
    requires
        old(reader).wf(),
    ensures
        if old(reader).spec_broken() && scan_meets_end(old(reader).remaining()) {
            r matches Err(CodecError::Read(cause)) && Some(cause@) == old(reader).spec_failure()
        } else {
            r matches Ok(len) && len == codec::valid_prefix(old(reader).remaining())
        },
{
    let ghost bytes = reader.remaining();
    let total: usize = reader.left();
    let mut payload: Vec<u8> = Vec::new();
    let mut valid_len: u64 = 0;
    let mut done: bool = false;
    proof {
        assert(bytes.skip(0) =~= bytes);
        codec::law_valid_prefix_then(bytes, Seq::empty());
    }
    while !done
        invariant
            reader.wf(),
            reader.spec_failure() == old(reader).spec_failure(),
            bytes == old(reader).remaining(),
            bytes.len() == total,
            valid_len <= bytes.len(),
            codec::valid_prefix(bytes) <= bytes.len(),
            done ==> valid_len == codec::valid_prefix(bytes),
            done ==> !(reader.spec_broken() && scan_meets_end(bytes)),
            !done ==> reader.remaining() == bytes.skip(valid_len as int),
            !done ==> codec::valid_prefix(bytes) == valid_len + codec::valid_prefix(
                reader.remaining(),
            ),
        decreases
            reader.remaining().len(),
            (if done {
                0int
            } else {
                1int
            }),
    {
        let ghost here = reader.remaining();
        match codec::decode_for_recovery(reader, &mut payload) {
            Ok(DecodeOutcome::ValidRecord(_, consumed)) => {
                proof {
                    codec::law_record_is_local(here, Seq::empty());
                    assert(bytes.skip(valid_len as int).skip(consumed as int) =~= bytes.skip(
                        valid_len + consumed,
                    ));
                }
                valid_len = valid_len + consumed as u64;
            },
            Ok(_) => {
                done = true;
            },
            Err(e) => {
                return Err(e);
            },
        }
    }
    Ok(valid_len)
}

/// A scan over complete records meets the end of the bytes where they end there,
/// or within a record, and does not where a complete record is no event, or where
/// one that is too long is complete.
pub proof fn law_scan_ends_within_a_torn_record(events: Seq<EventView>, tail: Seq<u8>)
    requires
        codec::all_within_limit(events),
    ensures
        codec::first_frame(tail) is Torn ==> scan_meets_end(codec::frames(events) + tail),
        codec::first_frame(tail) is Corrupt ==> !scan_meets_end(codec::frames(events) + tail),
        codec::first_frame(tail) is TooLong ==> (scan_meets_end(codec::frames(events) + tail)
            <==> tail.len() < 4 + codec::prefix_len(tail)),
{
    let bytes = codec::frames(events) + tail;
    if !(codec::first_frame(tail) is Record) {
        codec::law_written_events_are_read_back(events, tail);
        assert(codec::valid_prefix(tail) == 0);
        assert(bytes.skip(codec::frames(events).len() as int) =~= tail);
    }
}

} // verus!
