//! Record framing: a four-byte little-endian length, then the encoded event.

use vstd::prelude::*;
use vstd::utf8::encode_utf8;

use crate::infrastructure::wal::types::{EventView, WalEvent};
use crate::text;
use crate::wire;

verus! {

/// A frame that promises more payload bytes than this is not read.
pub const MAX_WAL_RECORD_PAYLOAD_BYTES: usize = 1048576;

/// How many bytes are skipped at a time.
const DISCARD_CHUNK: usize = 8192;

/// A string in a record: its length in bytes, in eight bytes, then its UTF-8
/// bytes.
pub open spec fn string_layout(s: Seq<char>) -> Seq<u8> {
    wire::le_bytes(encode_utf8(s).len(), 8) + encode_utf8(s)
}

/// A signed number in two's complement, as an unsigned one.
pub open spec fn twos_complement(n: i64) -> nat {
    if n < 0 {
        (n + 0x1_0000_0000_0000_0000) as nat
    } else {
        n as nat
    }
}

/// The bytes of an event in a record, without the length prefix.
pub open spec fn record_layout(topic: Seq<char>, ts_ms: i64, payload: Seq<char>) -> Seq<u8> {
    string_layout(topic) + wire::le_bytes(twos_complement(ts_ms), 8) + string_layout(payload)
}

/// The bytes of an event in a record, without the length prefix.
pub open spec fn event_layout(event: EventView) -> Seq<u8> {
    record_layout(event.topic, event.ts_ms, event.payload)
}

/// The bytes of an event in a segment file.
pub open spec fn frame(event: EventView) -> Seq<u8> {
    wire::le_bytes(event_layout(event).len(), 4) + event_layout(event)
}

/// The bytes of some events in a segment file, one after the other.
pub open spec fn frames(events: Seq<EventView>) -> Seq<u8>
    decreases events.len(),
{
    if events.len() == 0 {
        Seq::<u8>::empty()
    } else {
        frames(events.drop_last()) + frame(events.last())
    }
}

/// Whether the payload of a record starts with the bytes of this event.
pub open spec fn starts_with_event(bytes: Seq<u8>, event: EventView) -> bool {
    event_layout(event).is_prefix_of(bytes)
}

/// The event at the start of the payload of a record, if there is one.
pub open spec fn decoded(bytes: Seq<u8>) -> Option<EventView> {
    if exists|event: EventView| starts_with_event(bytes, event) {
        Some(choose|event: EventView| starts_with_event(bytes, event))
    } else {
        None
    }
}

/// What stands at the start of a stream of bytes.
pub enum Frame {
    /// The bytes end before the frame does.
    Torn,
    /// The length prefix is over the limit.
    TooLong(nat),
    /// The frame is complete, and of this width, but its payload is no event.
    Corrupt(nat),
    /// An event, and the width of its frame.
    Record(EventView, nat),
}

/// The length prefix at the start of a stream of bytes.
pub open spec fn prefix_len(bytes: Seq<u8>) -> nat {
    wire::le_value(bytes.take(4))
}

/// What stands at the start of a stream of bytes.
pub open spec fn first_frame(bytes: Seq<u8>) -> Frame {
    if bytes.len() < 4 {
        Frame::Torn
    } else {
        let len = prefix_len(bytes);
        if len > MAX_WAL_RECORD_PAYLOAD_BYTES {
            Frame::TooLong(len)
        } else if bytes.len() < 4 + len {
            Frame::Torn
        } else {
            match decoded(bytes.subrange(4, 4 + len as int)) {
                Some(event) => Frame::Record(event, 4 + len),
                None => Frame::Corrupt(4 + len),
            }
        }
    }
}

/// How many bytes at the start of a stream are complete records.
pub open spec fn valid_prefix(bytes: Seq<u8>) -> nat
    decreases bytes.len(),
{
    match first_frame(bytes) {
        Frame::Record(event, width) => if 0 < width <= bytes.len() {
            width + valid_prefix(bytes.skip(width as int))
        } else {
            0
        },
        _ => 0,
    }
}

/// The events of the complete records at the start of a stream.
pub open spec fn records(bytes: Seq<u8>) -> Seq<EventView>
    decreases bytes.len(),
{
    match first_frame(bytes) {
        Frame::Record(event, width) => if 0 < width <= bytes.len() {
            seq![event] + records(bytes.skip(width as int))
        } else {
            Seq::<EventView>::empty()
        },
        _ => Seq::<EventView>::empty(),
    }
}

/// The events that a reader gets out of a stream: those of its records, where a
/// complete record that is no event, or is over the limit, is skipped.
pub open spec fn readable(bytes: Seq<u8>) -> Seq<EventView>
    decreases bytes.len(),
{
    match first_frame(bytes) {
        Frame::Record(event, width) => if 0 < width <= bytes.len() {
            seq![event] + readable(bytes.skip(width as int))
        } else {
            Seq::<EventView>::empty()
        },
        Frame::Corrupt(width) => if 0 < width <= bytes.len() {
            readable(bytes.skip(width as int))
        } else {
            Seq::<EventView>::empty()
        },
        Frame::TooLong(len) => if 4 + len <= bytes.len() {
            readable(bytes.skip(4 + len as int))
        } else {
            Seq::<EventView>::empty()
        },
        Frame::Torn => Seq::<EventView>::empty(),
    }
}

/// Whether bytes are one record that a reader skips: its payload is no event, or
/// it is over the limit.
pub open spec fn skipped_whole(bytes: Seq<u8>) -> bool {
    match first_frame(bytes) {
        Frame::Corrupt(width) => width == bytes.len(),
        Frame::TooLong(len) => 4 + len == bytes.len(),
        _ => false,
    }
}

/// The error of the `bincode` crate.
#[verifier::external_type_specification]
#[verifier::external_body]
pub struct ExBincodeErrorKind(bincode::ErrorKind);

/// `bincode::serialize_into` on a byte vector and a tuple of a string, a number
/// and a string: the bytes are added at the end, strings after their length in
/// eight little-endian bytes, the number in eight little-endian bytes. Writing
/// to a vector does not fail.
#[verifier::external_body]
fn bincode_append(buf: &mut Vec<u8>, topic: &str, ts_ms: i64, payload: &str) -> (r: Result<
    (),
    bincode::Error,
>)
    ensures
        r is Ok,
        final(buf)@ == old(buf)@ + record_layout(topic@, ts_ms, payload@),
{
    bincode::serialize_into(buf, &(topic, ts_ms, payload))
}

/// `bincode::deserialize` to a tuple of a string, a number and a string: it
/// gives the tuple whose bytes the input starts with, and fails if there is
/// none. Bytes after those are not looked at.
#[verifier::external_body]
fn bincode_read(bytes: &[u8]) -> (r: Result<(String, i64, String), bincode::Error>)
    ensures
        match r {
            Ok((topic, ts_ms, payload)) => record_layout(topic@, ts_ms, payload@).is_prefix_of(
                bytes@,
            ),
            Err(_) => forall|topic: Seq<char>, ts_ms: i64, payload: Seq<char>| !(
            #[trigger] record_layout(topic, ts_ms, payload)).is_prefix_of(bytes@),
        },
{
    bincode::deserialize(bytes)
}

/// Why bytes could not be read.
#[derive(Debug)]
pub enum ReadError {
    /// The bytes end too soon.
    UnexpectedEof,
    /// The source behind the bytes failed where they end, for this reason.
    Failed(String),
}

impl ReadError {
    /// Whether this is what a read past the end reports, where the source failed
    /// for this reason, or just ended.
    pub open spec fn is_end(&self, failure: Option<Seq<char>>) -> bool {
        match failure {
            Some(cause) => *self matches ReadError::Failed(s) && s@ == cause,
            None => *self is UnexpectedEof,
        }
    }
}

/// Bytes that are read from front to back.
#[derive(Debug)]
pub struct ByteReader {
    data: Vec<u8>,
    pos: usize,
    failure: Option<String>,
}

impl ByteReader {
    pub closed spec fn wf(&self) -> bool {
        self.pos <= self.data@.len()
    }

    /// The bytes not read yet.
    pub closed spec fn remaining(&self) -> Seq<u8> {
        self.data@.skip(self.pos as int)
    }

    /// How many bytes were read.
    pub closed spec fn spec_position(&self) -> nat {
        self.pos as nat
    }

    /// Why reading past the end fails, if it meets a failure rather than an end
    /// of file.
    pub closed spec fn spec_failure(&self) -> Option<Seq<char>> {
        match self.failure {
            Some(cause) => Some(cause@),
            None => None,
        }
    }

    /// Whether reading past the end meets a failure rather than an end of file.
    pub open spec fn spec_broken(&self) -> bool {
        self.spec_failure() is Some
    }

    /// Whether this is `before` after `n` bytes were read.
    pub open spec fn advanced(&self, before: &ByteReader, n: nat) -> bool {
        &&& self.wf()
        &&& n <= before.remaining().len()
        &&& self.remaining() == before.remaining().skip(n as int)
        &&& self.spec_position() == before.spec_position() + n
        &&& self.spec_failure() == before.spec_failure()
    }

    /// A reader of a whole file.
    pub fn new(data: Vec<u8>) -> (r: Self)
        ensures
            r.wf(),
            r.remaining() == data@,
            r.spec_position() == 0,
            r.spec_failure() is None,
    {
        let r = ByteReader { data, pos: 0, failure: None };
        proof {
            assert(r.remaining() =~= data@);
        }
        r
    }

    /// A reader of the bytes that came before reading failed, for this reason.
    pub fn new_broken(data: Vec<u8>, cause: String) -> (r: Self)
        ensures
            r.wf(),
            r.remaining() == data@,
            r.spec_position() == 0,
            r.spec_failure() == Some(cause@),
    {
        let r = ByteReader { data, pos: 0, failure: Some(cause) };
        proof {
            assert(r.remaining() =~= data@);
        }
        r
    }

    pub fn position(&self) -> (n: usize)
        ensures
            n == self.spec_position(),
    {
        self.pos
    }

    /// How many bytes were not read yet.
    pub fn left(&self) -> (n: usize)
        requires
            self.wf(),
        ensures
            n == self.remaining().len(),
    {
        self.data.len() - self.pos
    }

    /// Fills `out` from the front of the bytes. If there are too few of them,
    /// they are used up and `out` stays as it was.
    pub fn read_exact(&mut self, out: &mut Vec<u8>) -> (r: Result<(), ReadError>)
        requires
            old(self).wf(),
        ensures
            match r {
                Ok(()) => {
                    &&& old(out)@.len() <= old(self).remaining().len()
                    &&& final(out)@ == old(self).remaining().take(old(out)@.len() as int)
                    &&& final(self).advanced(&*old(self), old(out)@.len())
                },
                Err(e) => {
                    &&& old(self).remaining().len() < old(out)@.len()
                    &&& e.is_end(old(self).spec_failure())
                    &&& final(out)@ == old(out)@
                    &&& final(self).advanced(&*old(self), old(self).remaining().len())
                },
            },
    {
        let want: usize = out.len();
        let total: usize = self.data.len();
        let left: usize = total - self.pos;
        if left < want {
            self.pos = total;
            proof {
                assert(self.remaining() =~= old(self).remaining().skip(left as int));
            }
            return Err(
                match &self.failure {
                    Some(cause) => ReadError::Failed(cause.clone()),
                    None => ReadError::UnexpectedEof,
                },
            );
        }
        let start: usize = self.pos;
        out.clear();
        let mut i: usize = 0;
        while i < want
            invariant
                i <= want,
                start + want <= total,
                total == self.data@.len(),
                out@ == self.data@.subrange(start as int, start + i),
                self.pos == start,
                self.data@ == old(self).data@,
                self.failure == old(self).failure,
            decreases want - i,
        {
            let byte: u8 = self.data[start + i];
            out.push(byte);
            proof {
                assert(self.data@.subrange(start as int, start + i + 1) =~= self.data@.subrange(
                    start as int,
                    start + i,
                ).push(byte));
            }
            i = i + 1;
        }
        self.pos = start + want;
        proof {
            assert(out@ =~= old(self).remaining().take(want as int));
            assert(self.remaining() =~= old(self).remaining().skip(want as int));
        }
        Ok(())
    }
}

/// Why a record could not be written or read.
#[derive(Debug)]
pub enum CodecError {
    /// The encoded event has more bytes than its length prefix can say.
    Oversized,
    /// The length prefix is over the limit.
    LengthLimit(u32),
    /// The payload is no event.
    Payload(bincode::Error),
    /// Reading failed, for this reason.
    Read(String),
}

/// What the error of the `bincode` crate says.
pub uninterp spec fn bincode_message(e: bincode::Error) -> Seq<char>;

/// The text of the error of the `bincode` crate, as its `Display` gives it.
#[verifier::external_body]
fn bincode_error_text(e: &bincode::Error) -> (s: String)
    ensures
        s@ == bincode_message(*e),
{
    e.to_string()
}

impl CodecError {
    /// The message of the error. That of a payload which is no event is the one
    /// of the `bincode` crate; that of a failed read is its cause.
    pub fn message(&self) -> (s: String)
        ensures
            match self {
                CodecError::Oversized => s@ == "WAL record exceeds u32::MAX bytes"@,
                CodecError::LengthLimit(len) => s@ == "WAL record length "@ + text::decimal(
                    *len as nat,
                ) + " exceeds max "@ + text::decimal(MAX_WAL_RECORD_PAYLOAD_BYTES as nat)
                    + " bytes"@,
                CodecError::Payload(e) => s@ == bincode_message(*e),
                CodecError::Read(cause) => s@ == cause@,
            },
    {
        match self {
            CodecError::Oversized => String::from_str("WAL record exceeds u32::MAX bytes"),
            CodecError::LengthLimit(len) => {
                let mut s = String::from_str("WAL record length ");
                s.append(text::decimal_text(*len as u64).as_str());
                s.append(" exceeds max ");
                s.append(text::decimal_text(MAX_WAL_RECORD_PAYLOAD_BYTES as u64).as_str());
                s.append(" bytes");
                s
            },
            CodecError::Payload(e) => bincode_error_text(e),
            CodecError::Read(cause) => cause.clone(),
        }
    }
}

/// Puts the frame of `event` into `buf`, in place of what it held. It fails if
/// the length of the encoded event does not fit its prefix.
pub fn encode_into(buf: &mut Vec<u8>, event: &WalEvent) -> (r: Result<(), CodecError>)
    ensures
        match r {
            Ok(()) => {
                &&& event_layout(event@).len() <= u32::MAX
                &&& final(buf)@ == frame(event@)
            },
            Err(e) => {
                &&& e is Oversized
                &&& event_layout(event@).len() > u32::MAX
            },
        },
{
    buf.clear();
    buf.push(0);
    buf.push(0);
    buf.push(0);
    buf.push(0);
    match bincode_append(buf, event.topic.as_str(), event.ts_ms, event.payload.as_str()) {
        Ok(()) => {},
        Err(e) => {
            return Err(CodecError::Payload(e));
        },
    }
    let len: usize = buf.len() - 4;
    if len > u32::MAX as usize {
        return Err(CodecError::Oversized);
    }
    let mut prefix: Vec<u8> = Vec::new();
    wire::push_u32_le(&mut prefix, len as u32);
    proof {
        wire::lemma_le_roundtrip(len as nat, 4);
        assert(prefix@ =~= wire::le_bytes(len as nat, 4));
    }
    buf.set(0, prefix[0]);
    buf.set(1, prefix[1]);
    buf.set(2, prefix[2]);
    buf.set(3, prefix[3]);
    proof {
        assert(buf@ =~= frame(event@));
    }
    Ok(())
}

/// The outcome of reading a record where a corrupt one is to be skipped.
#[derive(Debug)]
pub enum DecodeOutcome {
    /// An event, and the width of its frame.
    ValidRecord(WalEvent, usize),
    /// The end of the bytes, or a frame that they end within.
    CleanEof,
    /// A complete frame of this width whose payload is no event.
    FrameCorrupt(usize),
}

/// The payload of a record starts with the bytes of at most one event.
pub proof fn law_event_unique(bytes: Seq<u8>, a: EventView, b: EventView)
    requires
        bytes.len() <= u64::MAX,
        starts_with_event(bytes, a),
        starts_with_event(bytes, b),
    ensures
        a == b,
{
    lemma_string_unique(bytes, a.topic, b.topic);
    let n = string_layout(a.topic).len() as int;
    wire::lemma_byte_span_values();
    wire::lemma_le_roundtrip(twos_complement(a.ts_ms), 8);
    wire::lemma_le_roundtrip(twos_complement(b.ts_ms), 8);
    assert(wire::le_bytes(twos_complement(a.ts_ms), 8) =~= event_layout(a).subrange(n, n + 8));
    assert(wire::le_bytes(twos_complement(b.ts_ms), 8) =~= event_layout(b).subrange(n, n + 8));
    assert(event_layout(a).subrange(n, n + 8) =~= bytes.subrange(n, n + 8));
    assert(event_layout(b).subrange(n, n + 8) =~= bytes.subrange(n, n + 8));
    assert(a.ts_ms == b.ts_ms);
    let tail = bytes.skip(n + 8);
    assert(string_layout(a.payload) =~= event_layout(a).skip(n + 8));
    assert(string_layout(b.payload) =~= event_layout(b).skip(n + 8));
    assert(string_layout(a.payload).is_prefix_of(tail));
    assert(string_layout(b.payload).is_prefix_of(tail));
    lemma_string_unique(tail, a.payload, b.payload);
    assert(a =~= b);
}

/// Bytes start with the layout of at most one string.
proof fn lemma_string_unique(bytes: Seq<u8>, a: Seq<char>, b: Seq<char>)
    requires
        bytes.len() <= u64::MAX,
        string_layout(a).len() <= bytes.len(),
        string_layout(b).len() <= bytes.len(),
        string_layout(a) =~= bytes.take(string_layout(a).len() as int),
        string_layout(b) =~= bytes.take(string_layout(b).len() as int),
    ensures
        a == b,
{
    let x = encode_utf8(a);
    let y = encode_utf8(b);
    wire::lemma_byte_span_values();
    wire::lemma_le_roundtrip(x.len(), 8);
    wire::lemma_le_roundtrip(y.len(), 8);
    assert(string_layout(a).take(8) =~= wire::le_bytes(x.len(), 8));
    assert(string_layout(b).take(8) =~= wire::le_bytes(y.len(), 8));
    assert(string_layout(a).take(8) =~= bytes.take(8));
    assert(string_layout(b).take(8) =~= bytes.take(8));
    assert(x.len() == y.len());
    assert(x =~= string_layout(a).skip(8));
    assert(y =~= string_layout(b).skip(8));
    vstd::utf8::encode_utf8_decode_utf8(a);
    vstd::utf8::encode_utf8_decode_utf8(b);
}

/// The event that bytes start with is the one that [`decoded`] gives.
proof fn lemma_decoded(bytes: Seq<u8>, event: EventView)
    requires
        bytes.len() <= u64::MAX,
        starts_with_event(bytes, event),
    ensures
        decoded(bytes) == Some(event),
{
    let chosen = choose|e: EventView| starts_with_event(bytes, e);
    law_event_unique(bytes, chosen, event);
}

/// Reads the payload of a record.
fn decode_payload(bytes: &Vec<u8>) -> (r: Result<WalEvent, CodecError>)
    ensures
        match r {
            Ok(event) => decoded(bytes@) == Some(event@),
            Err(e) => e is Payload && decoded(bytes@) is None,
        },
{
    let len: usize = bytes.len();
    match bincode_read(bytes.as_slice()) {
        Ok((topic, ts_ms, payload)) => {
            let event = WalEvent { topic, ts_ms, payload };
            proof {
                lemma_decoded(bytes@, event@);
            }
            Ok(event)
        },
        Err(e) => {
            proof {
                if decoded(bytes@) is Some {
                    let event = choose|event: EventView| starts_with_event(bytes@, event);
                    assert(!record_layout(event.topic, event.ts_ms, event.payload).is_prefix_of(
                        bytes@,
                    ));
                }
            }
            Err(CodecError::Payload(e))
        },
    }
}

/// What [`decode_into`] makes of the bytes at the front of a reader.
pub open spec fn decode_result(
    bytes: Seq<u8>,
    failure: Option<Seq<char>>,
    r: Result<Option<(WalEvent, usize)>, CodecError>,
) -> bool {
    match first_frame(bytes) {
        Frame::Record(event, width) => r matches Ok(Some((e, consumed))) && e@ == event && consumed
            == width,
        Frame::Torn => match failure {
            None => r matches Ok(None),
            Some(cause) => r matches Err(CodecError::Read(s)) && s@ == cause,
        },
        Frame::TooLong(len) => r matches Err(CodecError::LengthLimit(n)) && n == len,
        Frame::Corrupt(_) => r matches Err(CodecError::Payload(_)),
    }
}

/// How far [`decode_into`] reads: past the frame, past a length prefix that is
/// over the limit, or to the end.
pub open spec fn decode_consumes(bytes: Seq<u8>) -> nat {
    match first_frame(bytes) {
        Frame::Record(_, width) => width,
        Frame::Corrupt(width) => width,
        Frame::TooLong(_) => 4,
        Frame::Torn => bytes.len(),
    }
}

/// The scratch buffer after [`decode_into`]: the bytes of the record, zeros
/// where the bytes end within it, and as before where no payload is read.
pub open spec fn decode_scratch(bytes: Seq<u8>, before: Seq<u8>) -> Seq<u8> {
    if bytes.len() < 4 || prefix_len(bytes) > MAX_WAL_RECORD_PAYLOAD_BYTES {
        before
    } else if bytes.len() < 4 + prefix_len(bytes) {
        Seq::new(prefix_len(bytes), |i: int| 0u8)
    } else {
        bytes.subrange(4, 4 + prefix_len(bytes) as int)
    }
}

/// Reads one record from the front of `r`: the event and the width of its
/// frame. `None` where the bytes end, also within a frame.
pub fn decode_from(r: &mut ByteReader) -> (result: Result<Option<(WalEvent, usize)>, CodecError>)
    requires
        old(r).wf(),
    ensures
        decode_result(old(r).remaining(), old(r).spec_failure(), result),
        final(r).advanced(&*old(r), decode_consumes(old(r).remaining())),
{
    let mut payload: Vec<u8> = Vec::new();
    decode_into(r, &mut payload)
}

/// Reads a length prefix.
fn read_prefix(r: &mut ByteReader) -> (result: Result<u32, ReadError>)
    requires
        old(r).wf(),
    ensures
        match result {
            Ok(len) => {
                &&& old(r).remaining().len() >= 4
                &&& len == prefix_len(old(r).remaining())
                &&& final(r).advanced(&*old(r), 4)
            },
            Err(e) => {
                &&& old(r).remaining().len() < 4
                &&& e.is_end(old(r).spec_failure())
                &&& final(r).advanced(&*old(r), old(r).remaining().len())
            },
        },
{
    let mut prefix: Vec<u8> = Vec::new();
    prefix.resize(4, 0);
    match r.read_exact(&mut prefix) {
        Ok(()) => Ok(wire::u32_from_le(prefix.as_slice())),
        Err(e) => Err(e),
    }
}

/// Reads one record as [`decode_from`] does, with `payload` as the buffer for
/// its bytes.
pub fn decode_into(r: &mut ByteReader, payload: &mut Vec<u8>) -> (result: Result<
    Option<(WalEvent, usize)>,
    CodecError,
>)
    requires
        old(r).wf(),
    ensures
        decode_result(old(r).remaining(), old(r).spec_failure(), result),
        final(r).advanced(&*old(r), decode_consumes(old(r).remaining())),
        final(payload)@ == decode_scratch(old(r).remaining(), old(payload)@),
{
    let ghost bytes = r.remaining();
    let len: usize = match read_prefix(r) {
        Ok(len) => {
            match ensure_len_within_limit(len) {
                Ok(()) => {},
                Err(e) => {
                    return Err(e);
                },
            }
            len as usize
        },
        Err(ReadError::UnexpectedEof) => {
            return Ok(None);
        },
        Err(ReadError::Failed(cause)) => {
            return Err(CodecError::Read(cause));
        },
    };
    let ghost after_prefix = r.remaining();
    payload.clear();
    payload.resize(len, 0);
    proof {
        assert(payload@ =~= Seq::new(len as nat, |i: int| 0u8));
        assert(bytes.skip(4).skip(after_prefix.len() as int) =~= bytes.skip(bytes.len() as int));
    }
    match r.read_exact(payload) {
        Ok(()) => {},
        Err(ReadError::UnexpectedEof) => {
            return Ok(None);
        },
        Err(ReadError::Failed(cause)) => {
            return Err(CodecError::Read(cause));
        },
    }
    proof {
        assert(payload@ =~= bytes.subrange(4, 4 + len as int));
        assert(bytes.skip(4).skip(len as int) =~= bytes.skip(4 + len as int));
    }
    match decode_payload(payload) {
        Ok(event) => Ok(Some((event, 4 + len))),
        Err(e) => Err(e),
    }
}

fn ensure_len_within_limit(len: u32) -> (r: Result<(), CodecError>)
    ensures
        match r {
            Ok(()) => len <= MAX_WAL_RECORD_PAYLOAD_BYTES,
            Err(e) => len > MAX_WAL_RECORD_PAYLOAD_BYTES && (e matches CodecError::LengthLimit(n)
                && n == len),
        },
{
    if len as usize > MAX_WAL_RECORD_PAYLOAD_BYTES {
        return Err(CodecError::LengthLimit(len));
    }
    Ok(())
}

/// Skips `remaining` bytes; `false` if the bytes end before that.
fn discard_bytes(r: &mut ByteReader, remaining: usize) -> (result: Result<bool, CodecError>)
    requires
        old(r).wf(),
    ensures
        match result {
            Ok(true) => final(r).advanced(&*old(r), remaining as nat),
            Ok(false) => {
                &&& old(r).remaining().len() < remaining
                &&& old(r).spec_failure() is None
                &&& final(r).advanced(&*old(r), old(r).remaining().len())
            },
            Err(e) => {
                &&& old(r).remaining().len() < remaining
                &&& e matches CodecError::Read(s) && Some(s@) == old(r).spec_failure()
                &&& final(r).advanced(&*old(r), old(r).remaining().len())
            },
        },
{
    let ghost bytes = r.remaining();
    let mut left: usize = remaining;
    proof {
        assert(bytes.skip(0) =~= bytes);
    }
    while left > 0
        invariant
            left <= remaining,
            remaining - left <= bytes.len(),
            bytes == old(r).remaining(),
            r.advanced(&*old(r), (remaining - left) as nat),
        decreases left,
    {
        let step: usize = if left < DISCARD_CHUNK {
            left
        } else {
            DISCARD_CHUNK
        };
        let ghost done = (remaining - left) as int;
        let ghost here = r.remaining();
        let mut scratch: Vec<u8> = Vec::new();
        scratch.resize(step, 0);
        proof {
            if step <= here.len() {
                assert(bytes.skip(done).skip(step as int) =~= bytes.skip(done + step));
            }
            assert(bytes.skip(done).skip(here.len() as int) =~= bytes.skip(bytes.len() as int));
        }
        match r.read_exact(&mut scratch) {
            Ok(()) => {
                left = left - step;
            },
            Err(ReadError::UnexpectedEof) => {
                return Ok(false);
            },
            Err(ReadError::Failed(cause)) => {
                return Err(CodecError::Read(cause));
            },
        }
    }
    Ok(true)
}

/// What [`decode_for_recovery`] makes of the bytes at the front of a reader.
pub open spec fn recovery_result(
    bytes: Seq<u8>,
    failure: Option<Seq<char>>,
    r: Result<DecodeOutcome, CodecError>,
) -> bool {
    let ended = match failure {
        None => r matches Ok(DecodeOutcome::CleanEof),
        Some(cause) => r matches Err(CodecError::Read(s)) && s@ == cause,
    };
    match first_frame(bytes) {
        Frame::Record(event, width) => r matches Ok(DecodeOutcome::ValidRecord(e, consumed)) && e@
            == event && consumed == width,
        Frame::Torn => ended,
        Frame::TooLong(len) => if 4 + len <= bytes.len() {
            r matches Ok(DecodeOutcome::FrameCorrupt(consumed)) && consumed == 4 + len
        } else {
            ended
        },
        Frame::Corrupt(width) => r matches Ok(DecodeOutcome::FrameCorrupt(consumed)) && consumed
            == width,
    }
}

/// How far [`decode_for_recovery`] reads: past the frame, or to the end.
pub open spec fn recovery_consumes(bytes: Seq<u8>) -> nat {
    match first_frame(bytes) {
        Frame::Record(_, width) => width,
        Frame::Corrupt(width) => width,
        Frame::TooLong(len) => if 4 + len <= bytes.len() {
            4 + len
        } else {
            bytes.len()
        },
        Frame::Torn => bytes.len(),
    }
}

/// Reads one record from the front of `r`, telling a complete frame whose
/// payload is no event from the end of the bytes.
pub fn decode_for_recovery(r: &mut ByteReader, payload: &mut Vec<u8>) -> (result: Result<
    DecodeOutcome,
    CodecError,
>)
    requires
        old(r).wf(),
    ensures
        recovery_result(old(r).remaining(), old(r).spec_failure(), result),
        final(r).advanced(&*old(r), recovery_consumes(old(r).remaining())),
        final(payload)@ == decode_scratch(old(r).remaining(), old(payload)@),
{
    let ghost bytes = r.remaining();
    let prefix: u32 = match read_prefix(r) {
        Ok(len) => len,
        Err(ReadError::UnexpectedEof) => {
            return Ok(DecodeOutcome::CleanEof);
        },
        Err(ReadError::Failed(cause)) => {
            return Err(CodecError::Read(cause));
        },
    };
    let ghost after_prefix = r.remaining();
    let len: usize = prefix as usize;
    proof {
        assert(bytes.skip(4).skip(after_prefix.len() as int) =~= bytes.skip(bytes.len() as int));
    }
    if ensure_len_within_limit(prefix).is_err() {
        return match discard_bytes(r, len) {
            Ok(true) => {
                proof {
                    assert(bytes.skip(4).skip(len as int) =~= bytes.skip(4 + len as int));
                }
                Ok(DecodeOutcome::FrameCorrupt(4 + len))
            },
            Ok(false) => Ok(DecodeOutcome::CleanEof),
            Err(e) => Err(e),
        };
    }
    payload.clear();
    payload.resize(len, 0);
    proof {
        assert(payload@ =~= Seq::new(len as nat, |i: int| 0u8));
    }
    match r.read_exact(payload) {
        Ok(()) => {},
        Err(ReadError::UnexpectedEof) => {
            return Ok(DecodeOutcome::CleanEof);
        },
        Err(ReadError::Failed(cause)) => {
            return Err(CodecError::Read(cause));
        },
    }
    proof {
        assert(payload@ =~= bytes.subrange(4, 4 + len as int));
        assert(bytes.skip(4).skip(len as int) =~= bytes.skip(4 + len as int));
    }
    match decode_payload(payload) {
        Ok(event) => Ok(DecodeOutcome::ValidRecord(event, 4 + len)),
        Err(_) => Ok(DecodeOutcome::FrameCorrupt(4 + len)),
    }
}

/// The frame of an event that is within the limit is read back as that event,
/// whatever comes after it.
pub proof fn law_frame_roundtrip(event: EventView, rest: Seq<u8>)
    requires
        event_layout(event).len() <= MAX_WAL_RECORD_PAYLOAD_BYTES,
    ensures
        first_frame(frame(event) + rest) == Frame::Record(event, frame(event).len()),
        frame(event).len() == 4 + event_layout(event).len(),
{
    let layout = event_layout(event);
    let bytes = frame(event) + rest;
    wire::lemma_byte_span_values();
    wire::lemma_le_roundtrip(layout.len(), 4);
    assert(bytes.take(4) =~= wire::le_bytes(layout.len(), 4));
    assert(bytes.subrange(4, 4 + layout.len() as int) =~= layout);
    lemma_decoded(layout, event);
}

/// A frame that was cut short anywhere is seen as torn.
pub proof fn law_cut_frame_is_torn(event: EventView, kept: int)
    requires
        event_layout(event).len() <= MAX_WAL_RECORD_PAYLOAD_BYTES,
        0 <= kept < frame(event).len(),
    ensures
        first_frame(frame(event).take(kept)) is Torn,
{
    let layout = event_layout(event);
    let bytes = frame(event).take(kept);
    wire::lemma_byte_span_values();
    wire::lemma_le_roundtrip(layout.len(), 4);
    if kept >= 4 {
        assert(bytes.take(4) =~= wire::le_bytes(layout.len(), 4));
    }
}

/// Only the bytes of the frame itself decide what a record is read as.
pub proof fn law_record_is_local(bytes: Seq<u8>, rest: Seq<u8>)
    requires
        first_frame(bytes) is Record,
    ensures
        4 <= first_frame(bytes)->Record_1 <= bytes.len(),
        first_frame(bytes.take(first_frame(bytes)->Record_1 as int) + rest) == first_frame(bytes),
{
    let width = first_frame(bytes)->Record_1 as int;
    let other = bytes.take(width) + rest;
    assert(other.take(4) =~= bytes.take(4));
    assert(other.subrange(4, width) =~= bytes.subrange(4, width));
}

/// The complete records of a stream end within it, and a stream that goes on
/// differently after them has the same records before what follows.
#[verifier::spinoff_prover]
#[verifier::rlimit(60)]
pub proof fn law_valid_prefix_then(bytes: Seq<u8>, rest: Seq<u8>)
    ensures
        valid_prefix(bytes) <= bytes.len(),
        valid_prefix(bytes.take(valid_prefix(bytes) as int) + rest) == valid_prefix(bytes)
            + valid_prefix(rest),
        records(bytes.take(valid_prefix(bytes) as int) + rest) == records(bytes) + records(rest),
    decreases bytes.len(),
{
    let n = valid_prefix(bytes) as int;
    match first_frame(bytes) {
        Frame::Record(event, width) => {
            law_record_is_local(bytes, Seq::empty());
            let w = width as int;
            let after = bytes.skip(w);
            law_valid_prefix_then(after, rest);
            let m = valid_prefix(after) as int;
            let joined = bytes.take(n) + rest;
            assert(joined =~= bytes.take(w) + (after.take(m) + rest));
            law_record_is_local(bytes, after.take(m) + rest);
            assert(joined.skip(w) =~= after.take(m) + rest);
            assert(records(joined) =~= records(bytes) + records(rest));
        },
        _ => {
            assert(bytes.take(0) + rest =~= rest);
            assert(records(bytes) + records(rest) =~= records(rest));
        },
    }
}

/// Truncating a file to its complete records leaves a file that is nothing but
/// those records.
pub proof fn law_truncated_file_is_clean(bytes: Seq<u8>)
    ensures
        ({
            let kept = bytes.take(valid_prefix(bytes) as int);
            &&& kept.len() == valid_prefix(bytes)
            &&& valid_prefix(kept) == kept.len()
            &&& records(kept) == records(bytes)
        }),
{
    let none = Seq::<u8>::empty();
    law_valid_prefix_then(bytes, none);
    assert(bytes.take(valid_prefix(bytes) as int) + none =~= bytes.take(
        valid_prefix(bytes) as int,
    ));
    assert(records(bytes) + records(none) =~= records(bytes));
}

/// Whether the frames of all these events are within the limit.
pub open spec fn all_within_limit(events: Seq<EventView>) -> bool {
    forall|i: int|
        0 <= i < events.len() ==> event_layout(#[trigger] events[i]).len()
            <= MAX_WAL_RECORD_PAYLOAD_BYTES
}

/// Events that were written one after the other are read back in that order,
/// and what follows them is read after them.
pub proof fn law_written_events_are_read_back(events: Seq<EventView>, tail: Seq<u8>)
    requires
        all_within_limit(events),
    ensures
        records(frames(events) + tail) == events + records(tail),
        valid_prefix(frames(events) + tail) == frames(events).len() + valid_prefix(tail),
    decreases events.len(),
{
    if events.len() == 0 {
        assert(frames(events) + tail =~= tail);
        assert(events + records(tail) =~= records(tail));
    } else {
        let before = events.drop_last();
        let event = events.last();
        let next = frame(event) + tail;
        law_written_events_are_read_back(before, next);
        assert(frames(events) + tail =~= frames(before) + next);
        law_frame_roundtrip(event, tail);
        assert(next.skip(frame(event).len() as int) =~= tail);
        assert(before + (seq![event] + records(tail)) =~= events + records(tail));
    }
}

/// After a crash that tore the last record, the complete records are all kept,
/// and the file is cut to exactly their length.
pub proof fn law_torn_tail_is_dropped(events: Seq<EventView>, torn: EventView, kept: int)
    requires
        all_within_limit(events),
        event_layout(torn).len() <= MAX_WAL_RECORD_PAYLOAD_BYTES,
        0 <= kept < frame(torn).len(),
    ensures
        valid_prefix(frames(events) + frame(torn).take(kept)) == frames(events).len(),
        records(frames(events) + frame(torn).take(kept)) == events,
{
    let tail = frame(torn).take(kept);
    law_cut_frame_is_torn(torn, kept);
    law_written_events_are_read_back(events, tail);
    assert(events + records(tail) =~= events);
}

/// A record that is appended to a truncated file is read after all the records
/// that were kept.
pub proof fn law_append_after_truncation(bytes: Seq<u8>, event: EventView)
    requires
        event_layout(event).len() <= MAX_WAL_RECORD_PAYLOAD_BYTES,
    ensures
        records(bytes.take(valid_prefix(bytes) as int) + frame(event)) == records(bytes).push(
            event,
        ),
{
    law_valid_prefix_then(bytes, frame(event));
    let none = Seq::<u8>::empty();
    law_frame_roundtrip(event, none);
    assert(frame(event) + none =~= frame(event));
    assert(frame(event).skip(frame(event).len() as int) =~= none);
    assert(records(none) =~= Seq::<EventView>::empty());
    assert(records(frame(event)) =~= seq![event]);
    assert(records(bytes) + seq![event] =~= records(bytes).push(event));
}

/// Complete records are all read, and then what follows them.
#[verifier::spinoff_prover]
#[verifier::rlimit(60)]
pub proof fn law_complete_records_are_readable(bytes: Seq<u8>, rest: Seq<u8>)
    ensures
        readable(bytes.take(valid_prefix(bytes) as int) + rest) == records(bytes) + readable(rest),
    decreases bytes.len(),
{
    let n = valid_prefix(bytes) as int;
    law_valid_prefix_then(bytes, rest);
    match first_frame(bytes) {
        Frame::Record(event, width) => {
            law_record_is_local(bytes, Seq::empty());
            let w = width as int;
            let after = bytes.skip(w);
            law_complete_records_are_readable(after, rest);
            law_valid_prefix_then(after, rest);
            let m = valid_prefix(after) as int;
            let joined = bytes.take(n) + rest;
            assert(joined =~= bytes.take(w) + (after.take(m) + rest));
            law_record_is_local(bytes, after.take(m) + rest);
            assert(joined.skip(w) =~= after.take(m) + rest);
            assert(readable(joined) =~= records(bytes) + readable(rest));
        },
        _ => {
            assert(bytes.take(0) + rest =~= rest);
            assert(records(bytes) + readable(rest) =~= readable(rest));
        },
    }
}

/// A record that is skipped takes nothing but itself from the reader: the events
/// before it and after it are all read.
pub proof fn law_skipped_record_takes_only_itself(
    before: Seq<EventView>,
    skipped: Seq<u8>,
    after: Seq<EventView>,
    tail: Seq<u8>,
)
    requires
        all_within_limit(before),
        skipped_whole(skipped),
        all_within_limit(after),
    ensures
        readable(frames(before) + skipped + frames(after) + tail) == before + after + readable(
            tail,
        ),
{
    let rest = frames(after) + tail;
    let none = Seq::<u8>::empty();
    law_written_events_are_read_back(before, none);
    law_written_events_are_read_back(after, none);
    assert(frames(before) + none =~= frames(before));
    assert(frames(after) + none =~= frames(after));
    assert(records(none) =~= Seq::<EventView>::empty());
    assert(before + records(none) =~= before);
    assert(after + records(none) =~= after);
    law_complete_records_are_readable(frames(before), skipped + rest);
    law_complete_records_are_readable(frames(after), tail);
    assert(frames(before).take(frames(before).len() as int) =~= frames(before));
    assert(frames(after).take(frames(after).len() as int) =~= frames(after));
    let joined = skipped + rest;
    assert(joined.take(4) =~= skipped.take(4));
    assert(joined.skip(skipped.len() as int) =~= rest);
    if first_frame(skipped) is Corrupt {
        let w = skipped.len() as int;
        assert(joined.subrange(4, w) =~= skipped.subrange(4, w));
    }
    assert(readable(joined) == readable(rest));
    assert(frames(before) + skipped + frames(after) + tail =~= frames(before) + joined);
    assert(before + (after + readable(tail)) =~= before + after + readable(tail));
}

/// A record is a length prefix of four bytes, the least significant one first,
/// and then the event: the bytes of the topic behind their number in eight bytes,
/// the time in eight bytes, and the bytes of the payload behind their number in
/// eight bytes.
pub proof fn law_parts_of_a_record(event: EventView)
    requires
        event_layout(event).len() <= u32::MAX,
    ensures
        ({
            let bytes = frame(event);
            let topic = encode_utf8(event.topic);
            let payload = encode_utf8(event.payload);
            let after = 12 + topic.len() as int;
            &&& bytes.len() == 28 + topic.len() + payload.len()
            &&& wire::le_value(bytes.take(4)) == bytes.len() - 4
            &&& wire::le_value(bytes.subrange(4, 12)) == topic.len()
            &&& bytes.subrange(12, after) == topic
            &&& wire::le_value(bytes.subrange(after, after + 8)) == twos_complement(event.ts_ms)
            &&& wire::le_value(bytes.subrange(after + 8, after + 16)) == payload.len()
            &&& bytes.skip(after + 16) == payload
        }),
{
    let bytes = frame(event);
    let topic = encode_utf8(event.topic);
    let payload = encode_utf8(event.payload);
    let after = 12 + topic.len() as int;
    wire::lemma_byte_span_values();
    wire::lemma_le_roundtrip(event_layout(event).len(), 4);
    wire::lemma_le_roundtrip(topic.len(), 8);
    wire::lemma_le_roundtrip(twos_complement(event.ts_ms), 8);
    wire::lemma_le_roundtrip(payload.len(), 8);
    assert(bytes.take(4) =~= wire::le_bytes(event_layout(event).len(), 4));
    assert(bytes.subrange(4, 12) =~= wire::le_bytes(topic.len(), 8));
    assert(bytes.subrange(12, after) =~= topic);
    assert(bytes.subrange(after, after + 8) =~= wire::le_bytes(twos_complement(event.ts_ms), 8));
    assert(bytes.subrange(after + 8, after + 16) =~= wire::le_bytes(payload.len(), 8));
    assert(bytes.skip(after + 16) =~= payload);
}

/// A time is stored modulo two to the power of 64.
pub proof fn law_times_are_stored_in_twos_complement(n: i64)
    ensures
        twos_complement(n) < 0x1_0000_0000_0000_0000,
        twos_complement(n) == n || twos_complement(n) == n + 0x1_0000_0000_0000_0000,
{
}

/// A length prefix over one mebibyte is never taken for that of a record, and one
/// up to there always is, where the bytes suffice.
pub proof fn law_records_have_at_most_a_mebibyte(bytes: Seq<u8>)
    requires
        bytes.len() >= 4,
    ensures
        first_frame(bytes) is TooLong <==> wire::le_value(bytes.take(4)) > 0x10_0000,
        first_frame(bytes) is Torn <==> wire::le_value(bytes.take(4)) <= 0x10_0000 && bytes.len()
            - 4 < wire::le_value(bytes.take(4)),
        first_frame(bytes) matches Frame::Record(_, width) ==> width == 4 + wire::le_value(
            bytes.take(4),
        ),
        first_frame(bytes) matches Frame::Corrupt(width) ==> width == 4 + wire::le_value(
            bytes.take(4),
        ),
{
}

/// A reader stands behind a record when it has read it, in whichever way.
pub proof fn law_reading_takes_the_whole_record(event: EventView, rest: Seq<u8>)
    requires
        event_layout(event).len() <= MAX_WAL_RECORD_PAYLOAD_BYTES,
    ensures
        decode_consumes(frame(event) + rest) == frame(event).len(),
        recovery_consumes(frame(event) + rest) == frame(event).len(),
        decode_scratch(frame(event) + rest, rest) == event_layout(event),
{
    law_frame_roundtrip(event, rest);
    let bytes = frame(event) + rest;
    wire::lemma_byte_span_values();
    wire::lemma_le_roundtrip(event_layout(event).len(), 4);
    assert(bytes.take(4) =~= wire::le_bytes(event_layout(event).len(), 4));
    assert(bytes.subrange(4, frame(event).len() as int) =~= event_layout(event));
}

/// A recovering reader goes over a complete record that is no event as a whole,
/// and never beyond the bytes that there are.
pub proof fn law_recovery_goes_over_whole_records(bytes: Seq<u8>)
    ensures
        recovery_consumes(bytes) <= bytes.len(),
        bytes.len() >= 4 && 4 + wire::le_value(bytes.take(4)) <= bytes.len() ==> recovery_consumes(
            bytes,
        ) == 4 + wire::le_value(bytes.take(4)),
        bytes.len() < 4 || 4 + wire::le_value(bytes.take(4)) > bytes.len() ==> recovery_consumes(
            bytes,
        ) == bytes.len(),
{
}

/// What was encoded is decoded as it was, by every reader, whatever comes behind
/// it.
pub proof fn law_encoded_event_is_decoded(
    buf: &mut Vec<u8>,
    event: WalEvent,
    encoded: Result<(), CodecError>,
    rest: Seq<u8>,
    reader: &mut ByteReader,
    read: Result<Option<(WalEvent, usize)>, CodecError>,
    other: &mut ByteReader,
    scratch: &mut Vec<u8>,
    recovered: Result<DecodeOutcome, CodecError>,
)
    requires
        event_layout(event@).len() <= MAX_WAL_RECORD_PAYLOAD_BYTES,
        call_ensures(encode_into, (buf, &event), encoded),
        reader.wf(),
        other.wf(),
        reader.remaining() == final(buf)@ + rest,
        other.remaining() == final(buf)@ + rest,
        call_ensures(decode_from, (reader,), read),
        call_ensures(decode_for_recovery, (other, scratch), recovered),
    ensures
        encoded is Ok,
        read matches Ok(Some((e, consumed))) && e@ == event@ && consumed == final(buf)@.len(),
        recovered matches Ok(DecodeOutcome::ValidRecord(e, consumed)) && e@ == event@ && consumed
            == final(buf)@.len(),
        final(reader).remaining() == rest,
        final(other).remaining() == rest,
{
    law_frame_roundtrip(event@, rest);
    assert((frame(event@) + rest).skip(frame(event@).len() as int) =~= rest);
}

/// Of a record that is too long only the length prefix is read, and of one that is
/// torn all that there is.
pub proof fn law_too_long_records_are_not_read(bytes: Seq<u8>, before: Seq<u8>)
    ensures
        bytes.len() >= 4 && wire::le_value(bytes.take(4)) > 0x10_0000 ==> {
            &&& decode_consumes(bytes) == 4
            &&& decode_scratch(bytes, before) == before
        },
        first_frame(bytes) is Torn ==> decode_consumes(bytes) == bytes.len(),
        bytes.len() < 4 ==> decode_scratch(bytes, before) == before,
{
}

} // verus!
