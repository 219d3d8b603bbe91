//! Text helpers shared by the library.

use vstd::prelude::*;
use vstd::string::*;

verus! {

/// `needle` occurs as a contiguous run of characters in `hay`.
pub open spec fn is_substring(needle: Seq<char>, hay: Seq<char>) -> bool {
    exists|i: int|
        0 <= i && i + needle.len() <= hay.len() && #[trigger] hay.subrange(i, i + needle.len())
            == needle
}

/// Relies on `str::contains` with a `&str` pattern: whether `needle` matches
/// a sub-slice of `hay`.
#[verifier::external_body]
pub(crate) fn contains_text(hay: &str, needle: &str) -> (r: bool)
    ensures
        r == is_substring(needle@, hay@),
{
    hay.contains(needle)
}

/// What [`truncate_with_ellipsis`] returns: the first `max_chars` characters
/// followed by `...` when `s` is longer than that, else `s` itself.
pub open spec fn truncated(s: Seq<char>, max_chars: nat) -> Seq<char> {
    if s.len() > max_chars {
        s.subrange(0, max_chars as int) + "..."@
    } else {
        s
    }
}

/// Truncate a string to `max_chars` characters, appending `...` if anything
/// was cut. Counts characters, not bytes, so multi-byte text is never split.
pub fn truncate_with_ellipsis(s: &str, max_chars: usize) -> (r: String)
    ensures
        r@ == truncated(s@, max_chars as nat),
{
    let n = s.unicode_len();
    if n > max_chars {
        let head = String::from_str(s.substring_char(0, max_chars));
        head.concat("...")
    } else {
        String::from_str(s)
    }
}

} // verus!
