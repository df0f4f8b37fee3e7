//! The clock: the timestamp that a line begins with. The reading and its
//! rendering are nanotime's.

use crate::format::{escape_char, has_escape};
use vstd::prelude::*;

verus! {

/// A character of a clock reading: a decimal digit, `:` or `.`.
pub open spec fn is_clock_char(c: char) -> bool {
    ('0' <= c && c <= '9') || c == ':' || c == '.'
}

/// A clock reading: at least the twelve characters of `HH:MM:SS.mmm`, each a
/// digit, `:` or `.`.
pub open spec fn is_clock_text(s: Seq<char>) -> bool {
    s.len() >= 12 && forall|i: int| 0 <= i < s.len() ==> is_clock_char(#[trigger] s[i])
}

/// Calls nanotime's `NanoTime::now` and renders the reading to a string.
/// Trusted: nanotime renders hour, minute and second in at least two digits
/// each and the millisecond in at least three, joined by `:`, `:` and `.`; so
/// the text has at least twelve characters, each a digit, `:` or `.`. The
/// reading itself depends on the clock, and nothing is said of it.
#[verifier::external_body]
pub(crate) fn format_current_timestamp() -> (r: String)
    ensures
        is_clock_text(r@),
{
    nanotime::NanoTime::now().to_string()
}

/// A clock reading holds no color escape sequence.
pub proof fn lemma_clock_text_without_escape(s: Seq<char>)
    requires
        is_clock_text(s),
    ensures
        !has_escape(s),
{
    if has_escape(s) {
        let i = choose|i: int|
            0 <= i && i + 1 < s.len() && #[trigger] s[i] == escape_char() && s[i + 1] == '[';
        assert(is_clock_char(s[i]));
    }
}

} // verus!
