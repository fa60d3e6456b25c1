//! The file-based request/response handshake with the game-side script.
//!
//! The shell writes a command file holding the command and a millisecond
//! timestamp, then polls for a response file. A response is taken only when
//! it is correlated with the request: it must either echo the timestamp's
//! digits or carry no timestamp marker at all. The body handed to the caller
//! is everything before the first marker, trimmed of surrounding whitespace.

use vstd::prelude::*;

verus! {

use crate::text::{
    lit_bytes, dec_bytes, decimal_u64, push_decimal_u64, push_bytes, text_bytes, bytes_range,
    contains_bytes, contains_bytes_exec, find_bytes, first_match_from, spec_trim, trim_bytes,
};

/// How often the response file is polled, and how many times, before the
/// request is given up: 50 polls 100 ms apart, five seconds in all.
pub const RESPONSE_POLL_ATTEMPTS: u64 = 50;

/// The pause between two polls of the response file, in milliseconds.
pub const RESPONSE_POLL_INTERVAL_MS: u64 = 100;

/// The marker before the timestamp a response echoes.
pub open spec fn timestamp_marker() -> Seq<u8> {
    lit_bytes("TIMESTAMP:"@)
}

/// The command asking the script to list the save points.
pub fn scan_command() -> (r: Vec<u8>)
    ensures
        r@ == lit_bytes("SCAN"@),
{
    text_bytes("SCAN")
}

/// The command asking the script to teleport to the save point so named.
pub fn teleport_command(name: &[u8]) -> (r: Vec<u8>)
    ensures
        r@ == lit_bytes("TPNAME "@) + name@,
{
    let mut out = text_bytes("TPNAME ");
    push_bytes(&mut out, name);
    out
}

/// The full request line written to the command file: the command, a space,
/// and the decimal timestamp.
pub fn command_line(cmd: &[u8], timestamp: u64) -> (r: Vec<u8>)
    ensures
        r@ == cmd@ + seq![32u8] + dec_bytes(timestamp as nat),
{
    let mut out: Vec<u8> = Vec::new();
    push_bytes(&mut out, cmd);
    out.push(32);
    push_decimal_u64(&mut out, timestamp);
    assert(out@ =~= cmd@ + seq![32u8] + dec_bytes(timestamp as nat));
    out
}

/// A response belongs to the request with this timestamp when it echoes the
/// timestamp's digits, or when it carries no timestamp marker at all.
pub open spec fn response_matches(resp: Seq<u8>, timestamp: nat) -> bool {
    contains_bytes(resp, dec_bytes(timestamp)) || !contains_bytes(resp, timestamp_marker())
}

/// The body of a response: everything before the first timestamp marker
/// (the whole text where there is none), trimmed of surrounding whitespace.
pub open spec fn response_body(resp: Seq<u8>) -> Seq<u8> {
    match first_match_from(resp, timestamp_marker(), 0) {
        Some(p) => spec_trim(resp.subrange(0, p)),
        None => spec_trim(resp),
    }
}

/// Judges one read of the response file against the request's timestamp:
/// the extracted body when the response matches, `None` when it belongs to
/// another request and the poll must go on.
pub fn check_response(resp: &[u8], timestamp: u64) -> (r: Option<Vec<u8>>)
    ensures
        match r {
            Some(body) => response_matches(resp@, timestamp as nat) && body@ == response_body(
                resp@,
            ),
            None => !response_matches(resp@, timestamp as nat),
        },
{
    let digits = decimal_u64(timestamp);
    let marker = text_bytes("TIMESTAMP:");
    let marker_pos = find_bytes(resp, marker.as_slice());
    if !contains_bytes_exec(resp, digits.as_slice()) && marker_pos.is_some() {
        return None;
    }
    match marker_pos {
        Some(p) => {
            proof {
                crate::text::lemma_first_match_from(resp@, timestamp_marker(), 0);
            }
            let head = bytes_range(resp, 0, p);
            Some(trim_bytes(head.as_slice()))
        },
        None => Some(trim_bytes(resp)),
    }
}

} // verus!
