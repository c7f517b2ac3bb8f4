//! Formatting replies for LINE text messages.
use vstd::prelude::*;
use crate::text::{chars_of, string_of};

verus! {

/// Maximum characters allowed in a single LINE text message.
pub const LINE_TEXT_MAX: usize = 5000;

/// The first `max` characters of `s` (all of `s` when it is shorter).
pub open spec fn truncate_chars(s: Seq<char>, max: nat) -> Seq<char> {
    if s.len() <= max {
        s
    } else {
        s.take(max as int)
    }
}

/// The first `max` characters of `text`.
pub fn truncated_to(text: &str, max: usize) -> (r: String)
    ensures
        r@ == truncate_chars(text@, max as nat),
{
    let v = chars_of(text);
    if v.len() <= max {
        let r = string_of(&v, 0, v.len());
        assert(v@.subrange(0, v@.len() as int) =~= v@);
        r
    } else {
        string_of(&v, 0, max)
    }
}

/// Prepare text for a LINE text message. Truncates at the 5000-char limit.
pub fn to_line_text(text: &str) -> (r: String)
    ensures
        r@ == truncate_chars(text@, LINE_TEXT_MAX as nat),
{
    truncated_to(text, LINE_TEXT_MAX)
}

} // verus!
