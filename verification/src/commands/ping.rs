//! The latency check: the bot answers, measures how long the answer took,
//! and edits the answer to show it.
use vstd::prelude::*;
use crate::text::{decimal, decimal_chars, from_chars, push_all, push_str, to_chars};

verus! {

/// The command group of the latency check.
pub struct Ping;

impl Ping {
    pub fn new() -> (r: Self)
        ensures
            r == Ping,
    {
        Ping
    }
}

/// The first answer, sent before the delay is known.
pub fn ping_placeholder() -> (m: String)
    ensures
        m@ == "Pong! Calculating delay..."@,
{
    String::from_str("Pong! Calculating delay...")
}

/// The answer once the delay, in whole milliseconds, is known.
pub fn ping_result(elapsed_ms: u128) -> (m: String)
    ensures
        m@ == "Pong! Response time: "@ + decimal(elapsed_ms as nat) + "ms"@,
{
    let mut out = to_chars("Pong! Response time: ");
    let n = decimal_chars(elapsed_ms);
    push_all(&mut out, n.as_slice());
    push_str(&mut out, "ms");
    from_chars(out.as_slice())
}

} // verus!
