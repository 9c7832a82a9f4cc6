//! The commit cursor: the place up to which the log was forwarded.

use vstd::prelude::*;

use crate::infrastructure::wal::types::{law_offset_bytes_injective, WalOffset};
use crate::text;

verus! {

/// The cursor file has this many bytes that are no cursor.
#[derive(Debug, Clone, Copy, PartialEq, Eq, Structural)]
pub struct CursorLengthError {
    pub len: usize,
}

impl CursorLengthError {
    pub fn message(&self) -> (s: String)
        ensures
            s@ == "Invalid cursor file length: expected 16 bytes, got "@ + text::decimal(
                self.len as nat,
            ),
    {
        let mut s = String::from_str("Invalid cursor file length: expected 16 bytes, got ");
        s.append(text::decimal_text(self.len as u64).as_str());
        s
    }
}

/// The cursor that a file holds. `None` stands for a file that does not exist;
/// an empty file holds no cursor.
pub fn read_cursor(file: Option<&Vec<u8>>) -> (r: Result<Option<WalOffset>, CursorLengthError>)
    ensures
        match file {
            None => r == Ok::<Option<WalOffset>, CursorLengthError>(None),
            Some(bytes) => match r {
                Ok(None) => bytes@.len() == 0,
                Ok(Some(offset)) => bytes@.len() == 16 && offset.layout() == bytes@,
                Err(e) => bytes@.len() != 0 && bytes@.len() != 16 && e.len == bytes@.len(),
            },
        },
{
    let bytes = match file {
        Some(bytes) => bytes,
        None => {
            return Ok(None);
        },
    };
    if bytes.len() == 0 {
        return Ok(None);
    }
    if bytes.len() != 16 {
        return Err(CursorLengthError { len: bytes.len() });
    }
    let buf: [u8; 16] = [
        bytes[0],
        bytes[1],
        bytes[2],
        bytes[3],
        bytes[4],
        bytes[5],
        bytes[6],
        bytes[7],
        bytes[8],
        bytes[9],
        bytes[10],
        bytes[11],
        bytes[12],
        bytes[13],
        bytes[14],
        bytes[15],
    ];
    proof {
        assert(buf@ =~= bytes@);
    }
    Ok(Some(WalOffset::from_bytes(buf)))
}

/// What a cursor file holds after this place was committed.
pub fn write_cursor(offset: WalOffset) -> (bytes: Vec<u8>)
    ensures
        bytes@ == offset.layout(),
{
    let buf: [u8; 16] = offset.to_bytes();
    let mut bytes: Vec<u8> = Vec::new();
    let mut i: usize = 0;
    while i < 16
        invariant
            i <= 16,
            bytes@ == buf@.take(i as int),
        decreases 16 - i,
    {
        bytes.push(buf[i]);
        i = i + 1;
        proof {
            assert(bytes@ =~= buf@.take(i as int));
        }
    }
    proof {
        assert(buf@.take(16) =~= buf@);
    }
    bytes
}

/// The place that was committed is the one that is read back: a file with the
/// bytes of one place is never read as another.
pub proof fn law_committed_place_is_read_back(committed: WalOffset, read: WalOffset)
    requires
        read.layout() == committed.layout(),
    ensures
        read == committed,
        committed.layout().len() == 16,
{
    law_offset_bytes_injective(read, committed);
}

/// A cursor that was written is read back as the place that it was written for.
/// Where there is no file, or an empty one, there is no cursor, and bytes of any
/// other number are an error.
pub proof fn law_written_cursor_is_read_back(
    offset: WalOffset,
    bytes: Vec<u8>,
    r: Result<Option<WalOffset>, CursorLengthError>,
    other: Vec<u8>,
    s: Result<Option<WalOffset>, CursorLengthError>,
    t: Result<Option<WalOffset>, CursorLengthError>,
)
    requires
        call_ensures(write_cursor, (offset,), bytes),
        call_ensures(read_cursor, (Some(&bytes),), r),
        call_ensures(read_cursor, (Some(&other),), s),
        call_ensures(read_cursor, (None,), t),
    ensures
        r matches Ok(Some(place)) && place == offset,
        s matches Ok(None) <==> other@.len() == 0,
        s is Err <==> other@.len() != 0 && other@.len() != 16,
        t matches Ok(None),
{
    crate::infrastructure::wal::types::law_offset_bytes_injective(offset, offset);
    if let Ok(Some(place)) = r {
        crate::infrastructure::wal::types::law_offset_bytes_injective(place, offset);
    }
}

} // verus!
