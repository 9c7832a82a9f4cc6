//! The values that the write-ahead log is made of.

use vstd::prelude::*;

use crate::wire;

verus! {

/// A place in the log: a segment, and a byte offset into its file.
#[derive(Debug, Clone, Copy, PartialEq, Eq, PartialOrd, Ord, Structural)]
pub struct WalOffset {
    pub segment_id: u64,
    pub byte_offset: u64,
}

impl WalOffset {
    /// The order of the log: by segment, then by byte offset.
    pub open spec fn at_or_before(self, other: WalOffset) -> bool {
        ||| self.segment_id < other.segment_id
        ||| self.segment_id == other.segment_id && self.byte_offset <= other.byte_offset
    }

    /// The sixteen bytes of a place: both numbers, most significant byte first.
    pub open spec fn layout(self) -> Seq<u8> {
        wire::be_bytes(self.segment_id as nat, 8) + wire::be_bytes(self.byte_offset as nat, 8)
    }

    pub fn to_bytes(self) -> (buf: [u8; 16])
        ensures
            buf@ == self.layout(),
    {
        let mut v: Vec<u8> = Vec::new();
        wire::push_u64_be(&mut v, self.segment_id);
        wire::push_u64_be(&mut v, self.byte_offset);
        proof {
            wire::lemma_be_roundtrip(self.segment_id as nat, 8);
            wire::lemma_be_roundtrip(self.byte_offset as nat, 8);
            assert(v@ =~= self.layout());
        }
        let buf: [u8; 16] = [
            v[0],
            v[1],
            v[2],
            v[3],
            v[4],
            v[5],
            v[6],
            v[7],
            v[8],
            v[9],
            v[10],
            v[11],
            v[12],
            v[13],
            v[14],
            v[15],
        ];
        proof {
            assert(buf@ =~= v@);
        }
        buf
    }

    pub fn from_bytes(buf: [u8; 16]) -> (offset: Self)
        ensures
            offset.layout() == buf@,
    {
        let bytes = vstd::array::array_as_slice(&buf);
        let offset = WalOffset {
            segment_id: wire::u64_from_be(bytes, 0),
            byte_offset: wire::u64_from_be(bytes, 8),
        };
        proof {
            let high = buf@.subrange(0, 8);
            let low = buf@.subrange(8, 16);
            wire::lemma_be_value_bytes(high);
            wire::lemma_be_value_bytes(low);
            assert(high + low =~= buf@);
        }
        offset
    }
}

/// A place is read back from its bytes as it was, and no two places share their
/// bytes.
pub proof fn law_offset_bytes_injective(a: WalOffset, b: WalOffset)
    ensures
        a.layout() == b.layout() ==> a == b,
        a.layout().len() == 16,
{
    wire::lemma_byte_span_values();
    wire::lemma_be_roundtrip(a.segment_id as nat, 8);
    wire::lemma_be_roundtrip(a.byte_offset as nat, 8);
    wire::lemma_be_roundtrip(b.segment_id as nat, 8);
    wire::lemma_be_roundtrip(b.byte_offset as nat, 8);
    assert(a.layout().subrange(0, 8) =~= wire::be_bytes(a.segment_id as nat, 8));
    assert(a.layout().subrange(8, 16) =~= wire::be_bytes(a.byte_offset as nat, 8));
    assert(b.layout().subrange(0, 8) =~= wire::be_bytes(b.segment_id as nat, 8));
    assert(b.layout().subrange(8, 16) =~= wire::be_bytes(b.byte_offset as nat, 8));
}

/// One event of the log: where it came from, when, and the encoded payload.
#[derive(Debug)]
pub struct WalEvent {
    pub topic: String,
    pub ts_ms: i64,
    pub payload: String,
}

/// The contents of a [`WalEvent`].
#[verifier::ext_equal]
pub struct EventView {
    pub topic: Seq<char>,
    pub ts_ms: i64,
    pub payload: Seq<char>,
}

impl View for WalEvent {
    type V = EventView;

    open spec fn view(&self) -> EventView {
        EventView { topic: self.topic@, ts_ms: self.ts_ms, payload: self.payload@ }
    }
}

impl Clone for WalEvent {
    fn clone(&self) -> (copy: Self)
        ensures
            copy@ == self@,
    {
        WalEvent {
            topic: self.topic.clone(),
            ts_ms: self.ts_ms,
            payload: self.payload.clone(),
        }
    }
}

/// An event as it is read from the log.
#[derive(Debug)]
pub struct WalEntry {
    /// Where the record starts.
    pub offset: WalOffset,
    /// Where the record ends, which is where the next one starts.
    pub offset_after: WalOffset,
    pub event: WalEvent,
}

impl Clone for WalEntry {
    fn clone(&self) -> (copy: Self)
        ensures
            copy.offset == self.offset,
            copy.offset_after == self.offset_after,
            copy.event@ == self.event@,
    {
        WalEntry {
            offset: self.offset,
            offset_after: self.offset_after,
            event: self.event.clone(),
        }
    }
}

/// How a log is kept.
#[derive(Debug, Clone)]
pub struct WalOptions {
    /// The directory of the segment files.
    pub dir: String,
    /// Rotation threshold for segment files.
    pub segment_bytes: u64,
    /// Bound of the queue into the writer.
    pub queue_capacity: usize,
}

/// Why a non-blocking append was rejected. Each variant hands the event back.
#[derive(Debug)]
pub enum TryAppendError {
    Full(WalEvent),
    Closed(WalEvent),
}

/// Why an append that waits for durability failed.
#[derive(Debug)]
pub enum AppendDurableError {
    Full(WalEvent),
    Closed(WalEvent),
    Durability(String),
}

/// The places of a log are in one order: by segment, and within a segment by
/// offset.
pub proof fn law_places_are_in_one_order(a: WalOffset, b: WalOffset, c: WalOffset)
    ensures
        a.at_or_before(a),
        a.at_or_before(b) || b.at_or_before(a),
        a.at_or_before(b) && b.at_or_before(a) ==> a == b,
        a.at_or_before(b) && b.at_or_before(c) ==> a.at_or_before(c),
        a.segment_id < b.segment_id ==> a.at_or_before(b),
        a.segment_id == b.segment_id ==> (a.at_or_before(b) <==> a.byte_offset <= b.byte_offset),
{
}

/// The first eight bytes of a place are its segment and the other eight its
/// offset, each with the most significant byte first.
pub proof fn law_bytes_of_a_place(a: WalOffset)
    ensures
        a.layout().len() == 16,
        wire::be_value(a.layout().take(8)) == a.segment_id,
        wire::be_value(a.layout().skip(8)) == a.byte_offset,
        a.layout()[0] == a.segment_id as nat / 0x100_0000_0000_0000,
        a.layout()[7] == a.segment_id as nat % 256,
        a.layout()[8] == a.byte_offset as nat / 0x100_0000_0000_0000,
        a.layout()[15] == a.byte_offset as nat % 256,
{
    let high = wire::be_bytes(a.segment_id as nat, 8);
    let low = wire::be_bytes(a.byte_offset as nat, 8);
    wire::lemma_byte_span_values();
    wire::lemma_be_roundtrip(a.segment_id as nat, 8);
    wire::lemma_be_roundtrip(a.byte_offset as nat, 8);
    assert(a.layout().take(8) =~= high);
    assert(a.layout().skip(8) =~= low);
    wire::law_bytes_are_in_order(a.segment_id as nat, 8, 0);
    wire::law_bytes_are_in_order(a.byte_offset as nat, 8, 0);
    wire::law_bytes_are_in_order(a.segment_id as nat, 8, 7);
    wire::law_bytes_are_in_order(a.byte_offset as nat, 8, 7);
    wire::law_span_grows_by_one_byte(7);
    wire::law_span_grows_by_one_byte(0);
    assert(wire::byte_span(7) == 0x100_0000_0000_0000);
}

/// The bytes of a place are read as that place.
pub proof fn law_place_is_read_from_its_bytes(a: WalOffset, buf: [u8; 16], b: WalOffset)
    requires
        call_ensures(WalOffset::to_bytes, (a,), buf),
        call_ensures(WalOffset::from_bytes, (buf,), b),
    ensures
        b == a,
{
    law_offset_bytes_injective(a, b);
}

} // verus!
