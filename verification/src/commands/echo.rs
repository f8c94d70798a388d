//! The echo command, which repeats the text it is given.
use vstd::prelude::*;

verus! {

/// The reply to `^echo`: the text itself, or a request for text when there
/// is none.
pub fn echo_reply(text: &str) -> (m: String)
    ensures
        m@ == (if text@.len() == 0 {
            "Please provide text to echo!"@
        } else {
            text@
        }),
{
    if text.is_empty() {
        String::from_str("Please provide text to echo!")
    } else {
        String::from_str(text)
    }
}

} // verus!
