//! The orchestrator's error taxonomy. Every failure carries a message; a
//! `ConfigError` additionally carries a truncated preview of the offending
//! document.

use vstd::prelude::*;

verus! {

/// How many leading bytes of an offending document an error keeps.
pub const PREVIEW_LEN: usize = 200;

/// The truncated preview an error carries: the first `PREVIEW_LEN` bytes.
pub open spec fn spec_preview(s: Seq<u8>) -> Seq<u8> {
    if s.len() <= PREVIEW_LEN {
        s
    } else {
        s.subrange(0, PREVIEW_LEN as int)
    }
}

/// The kinds of failure the orchestrator reports.
#[derive(Debug)]
pub enum Error {
    /// An input document is not valid JSON or lacks a required field; the
    /// payload is a preview of the document.
    ConfigError(Vec<u8>),
    /// A helper binary could not be launched; the payload names it.
    SpawnError(Vec<u8>),
    /// A helper exited within its health-check window; the payload is the
    /// reported exit status.
    HealthCheckError(i32),
    /// An operating-system tool reported failure; the payload is its
    /// message.
    PlatformError(Vec<u8>),
    /// A file or stream operation failed; the payload is its message.
    IoError(Vec<u8>),
    /// Tool output could not be read as a measurement; the payload is the
    /// output.
    ParseError(Vec<u8>),
}

/// Builds the preview of `s` that a `ConfigError` carries.
pub fn preview_of(s: &[u8]) -> (r: Vec<u8>)
    ensures
        r@ == spec_preview(s@),
{
    let end = if s.len() <= PREVIEW_LEN {
        s.len()
    } else {
        PREVIEW_LEN
    };
    let r = crate::textutil::copy_range(s, 0, end);
    proof {
        if s@.len() <= PREVIEW_LEN {
            assert(s@.subrange(0, s@.len() as int) =~= s@);
        }
    }
    r
}

} // verus!
