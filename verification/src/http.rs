//! What is said of and to web services.

use vstd::prelude::*;
use crate::text;

verus! {

/// Seconds after which a request is given up.
pub const TIMEOUT_SECS: u64 = 30;

/// How the bot calls itself.
pub fn user_agent(version: &str) -> (r: String)
    ensures
        r@ == "concord-bots/"@ + version@,
{
    text::cat2("concord-bots/", version)
}

/// What is said of an answer that is no success.
pub fn failure(status: &str, url: &str, body: &str) -> (r: String)
    ensures
        r@ == "HTTP "@ + status@ + " for "@ + url@ + ": "@ + body@,
{
    text::cat6("HTTP ", status, " for ", url, ": ", body)
}

} // verus!
