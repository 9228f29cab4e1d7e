//! Character-indexed slicing of string slices.

use vstd::prelude::*;
use vstd::string::StrSliceExecFns;

verus! {

/// The slice of `s` covering characters `start..=end` — both indices count
/// characters, not bytes — or `None` when `end` is not a character index of
/// `s`.
pub fn fetch_string_slice<'a>(s: &'a str, start: usize, end: usize) -> (r: Option<&'a str>)
    requires
        start <= end,
    ensures
        end < s@.len() ==> (r matches Some(t) && t@ == s@.subrange(start as int, end + 1)),
        end >= s@.len() ==> r is None,
{
    let n = s.unicode_len();
    if end < n {
        Some(s.substring_char(start, end + 1))
    } else {
        None
    }
}

} // verus!
