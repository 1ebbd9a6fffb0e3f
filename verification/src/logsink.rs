//! The structured log: every record is one JSON object on one line, with
//! its level, message and timestamp, so the file can be tailed and each
//! append stays atomic. The application appends the rendered line to the
//! log file; the library owns the format.

use vstd::prelude::*;
use vstd::string::StringSliceAdditionalSpecFns;
use crate::singbox::spec_json_str;

verus! {

/// One rendered log record: a JSON object with the level, the message and
/// the timestamp, keys in name order, closed by a line feed.
pub open spec fn spec_log_line(ts: Seq<u8>, level: Seq<u8>, msg: Seq<u8>) -> Seq<u8> {
    ("{\"level\":").spec_bytes() + spec_json_str(level) + (",\"message\":").spec_bytes()
        + spec_json_str(msg) + (",\"timestamp\":").spec_bytes() + spec_json_str(ts) + (
    "}\n").spec_bytes()
}

/// Renders one log record.
pub fn format_log_line(ts: &[u8], level: &[u8], msg: &[u8]) -> (r: Vec<u8>)
    ensures
        r@ == spec_log_line(ts@, level@, msg@),
{
    let mut out: Vec<u8> = Vec::new();
    crate::textutil::push_str_bytes(&mut out, "{\"level\":");
    crate::singbox::push_json_str(&mut out, level);
    crate::textutil::push_str_bytes(&mut out, ",\"message\":");
    crate::singbox::push_json_str(&mut out, msg);
    crate::textutil::push_str_bytes(&mut out, ",\"timestamp\":");
    crate::singbox::push_json_str(&mut out, ts);
    crate::textutil::push_str_bytes(&mut out, "}\n");
    proof {
        assert(out@ =~= spec_log_line(ts@, level@, msg@));
    }
    out
}

/// Relies on chrono's `Local::now().to_rfc3339()`: the wall-clock moment
/// of the call as an RFC 3339 text. Nothing is assumed of the value, for
/// it depends on the clock.
#[verifier::external_body]
fn now_rfc3339() -> String {
    chrono::Local::now().to_rfc3339()
}

/// Renders one log record stamped with the moment of the call. Whatever
/// the clock said, the line is the documented record of this level and
/// message.
pub fn log_record(level: &[u8], msg: &[u8]) -> (r: Vec<u8>)
    ensures
        exists|ts: Seq<u8>| r@ == spec_log_line(ts, level@, msg@),
{
    let ts = now_rfc3339();
    let tsb = ts.as_str().as_bytes();
    let r = format_log_line(tsb, level, msg);
    proof {
        assert(r@ == spec_log_line(tsb@, level@, msg@));
    }
    r
}

} // verus!
