//! Destinations of the log.

pub mod influx;
pub mod point;

use vstd::prelude::*;

verus! {

/// Why a batch was not written.
#[derive(Debug)]
pub enum SinkError {
    /// The failure may pass: the batch is kept and written again, and the log
    /// keeps its place.
    Retryable(String),
    /// The batch can never be written: it is dropped, and the log goes on.
    Permanent(String),
}

impl SinkError {
    /// The text of the error.
    pub open spec fn text(&self) -> Seq<char> {
        match self {
            SinkError::Retryable(cause) => "retryable sink error: "@ + cause@,
            SinkError::Permanent(cause) => "permanent sink error: "@ + cause@,
        }
    }

    pub fn message(&self) -> (s: String)
        ensures
            s@ == self.text(),
    {
        match self {
            SinkError::Retryable(cause) => {
                let mut s = String::from_str("retryable sink error: ");
                s.append(cause.as_str());
                s
            },
            SinkError::Permanent(cause) => {
                let mut s = String::from_str("permanent sink error: ");
                s.append(cause.as_str());
                s
            },
        }
    }
}

/// The text of an error ends with its cause, and tells whether it may pass.
pub proof fn law_sink_errors_show_the_cause(cause: String, other: String)
    ensures
        cause@.is_suffix_of(SinkError::Retryable(cause).text()),
        cause@.is_suffix_of(SinkError::Permanent(cause).text()),
        SinkError::Retryable(cause).text() != SinkError::Permanent(other).text(),
{
    let a = SinkError::Retryable(cause).text();
    let b = SinkError::Permanent(cause).text();
    assert(a.subrange(a.len() - cause@.len(), a.len() as int) =~= cause@);
    assert(b.subrange(b.len() - cause@.len(), b.len() as int) =~= cause@);
    reveal_strlit("retryable sink error: ");
    reveal_strlit("permanent sink error: ");
    assert(SinkError::Retryable(cause).text()[0] == 'r');
    assert(SinkError::Permanent(other).text()[0] == 'p');
}

} // verus!
