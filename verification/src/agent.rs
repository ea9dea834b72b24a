//! The host side of the guest control channel: which reply answers a request, how long to
//! look for it, and what the learner is told when the guest never answers. The socket and
//! the JSON framing are the application's.
use crate::text::{append, owned};
use vstd::prelude::*;

verus! {

/// How many replies a request reads before giving up on correlating one: replies to earlier
/// requests that timed out may still be queued ahead of its own.
pub const REPLY_ATTEMPTS: u32 = 8;

/// A reply answers request `request_id` when it carries that id, or id 0, which the guest
/// uses for a frame it could not parse and so could not correlate.
pub open spec fn answers_spec(reply_id: u64, request_id: u64) -> bool {
    reply_id == request_id || reply_id == 0
}

pub fn answers(reply_id: u64, request_id: u64) -> (r: bool)
    ensures
        r == answers_spec(reply_id, request_id),
{
    reply_id == request_id || reply_id == 0
}

/// What the learner is told when the guest did not answer a ping before the deadline: that
/// Linux did not finish starting, with the last thing that went wrong when there was one.
pub open spec fn not_started_spec(last_error: Option<Seq<char>>) -> Seq<char> {
    match last_error {
        Some(d) => "Linux did not finish starting in time (last error: "@ + d + ")"@,
        None => "Linux did not finish starting in time"@,
    }
}

pub fn not_started_message(last_error: Option<&str>) -> (r: String)
    ensures
        r@ == not_started_spec(crate::validators::network::opt_text(last_error)),
{
    let mut r = owned("Linux did not finish starting in time");
    match last_error {
        Some(d) => {
            append(&mut r, " (last error: ");
            append(&mut r, d);
            append(&mut r, ")");
            assert(r@ =~= "Linux did not finish starting in time"@ + " (last error: "@ + d@ + ")"@);
            proof {
                reveal_strlit("Linux did not finish starting in time");
                reveal_strlit(" (last error: ");
                reveal_strlit("Linux did not finish starting in time (last error: ");
            }
            assert("Linux did not finish starting in time"@ + " (last error: "@ =~= "Linux did not finish starting in time (last error: "@);
        },
        None => {},
    }
    r
}

/// How long to wait before pinging a starting guest again: 150 ms, or what is left before
/// the deadline when that is less.
pub fn retry_pause_ms(remaining_ms: u64) -> (r: u64)
    ensures
        r == if remaining_ms < 150 { remaining_ms } else { 150 },
{
    if remaining_ms < 150 {
        remaining_ms
    } else {
        150
    }
}

} // verus!
