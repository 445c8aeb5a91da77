//! The severity model: six ordered levels, compared by ordinal.
//!
//! An unrecognized level name maps to ordinal 0 (the same as `TRACE`), a
//! deliberate fail-open policy: unknown levels are never dropped by a strict
//! threshold of 0, and an unknown threshold shows everything.

use crate::text::{char_from_u32_unchecked_ascii, chars_eq_str, str_to_chars};
use vstd::prelude::*;

verus! {

/// Ordinal of a severity level name, compared exactly against the six
/// uppercase names; anything else falls open to 0.
pub open spec fn level_ordinal_spec(s: Seq<char>) -> int {
    if s == "TRACE"@ {
        0
    } else if s == "DEBUG"@ {
        1
    } else if s == "INFO"@ {
        2
    } else if s == "WARN"@ {
        3
    } else if s == "ERROR"@ {
        4
    } else if s == "FATAL"@ {
        5
    } else {
        0
    }
}

/// Uppercase a single character, ASCII letters only.
pub open spec fn ascii_upper_char(c: char) -> char {
    if 'a' <= c <= 'z' {
        (((c as u32) - 32) as u32) as char
    } else {
        c
    }
}

/// Uppercase a character sequence, ASCII letters only.
pub open spec fn ascii_upper(s: Seq<char>) -> Seq<char> {
    s.map_values(|c: char| ascii_upper_char(c))
}

/// Ordinal used for the threshold: the given name is uppercased first, so
/// the threshold compare is case-insensitive.
pub open spec fn threshold_ordinal_spec(s: Seq<char>) -> int {
    level_ordinal_spec(ascii_upper(s))
}

/// A record at level `level` is displayed under threshold `threshold` iff
/// its ordinal is at least the threshold's ordinal.
pub open spec fn displayed_spec(level: Seq<char>, threshold: Seq<char>) -> bool {
    level_ordinal_spec(level) >= threshold_ordinal_spec(threshold)
}

/// Ordinal of a level name given as a character vector.
pub fn level_ordinal_chars(s: &Vec<char>) -> (r: usize)
    ensures
        r == level_ordinal_spec(s@),
        r <= 5,
{
    if chars_eq_str(s, "TRACE") {
        0
    } else if chars_eq_str(s, "DEBUG") {
        1
    } else if chars_eq_str(s, "INFO") {
        2
    } else if chars_eq_str(s, "WARN") {
        3
    } else if chars_eq_str(s, "ERROR") {
        4
    } else if chars_eq_str(s, "FATAL") {
        5
    } else {
        0
    }
}

/// Ordinal of a level name given as a string slice.
pub fn level_ordinal(s: &str) -> (r: usize)
    ensures
        r == level_ordinal_spec(s@),
        r <= 5,
{
    let cs = str_to_chars(s);
    level_ordinal_chars(&cs)
}

/// Uppercase a character vector, ASCII letters only.
pub fn to_ascii_upper(s: &Vec<char>) -> (r: Vec<char>)
    ensures
        r@ == ascii_upper(s@),
{
    let mut r: Vec<char> = Vec::new();
    let mut i: usize = 0;
    while i < s.len()
        invariant
            i <= s@.len(),
            r@.len() == i,
            forall|j: int| 0 <= j < i ==> r@[j] == ascii_upper_char(s@[j]),
        decreases s@.len() - i,
    {
        let c = s[i];
        if 'a' <= c && c <= 'z' {
            let u = (c as u32) - 32;
            let cc = char_from_u32_unchecked_ascii(u);
            proof {
                vstd::utf8::char_u32_cast(cc, u);
            }
            r.push(cc);
        } else {
            r.push(c);
        }
        i = i + 1;
    }
    proof {
        assert(r@ =~= ascii_upper(s@));
    }
    r
}

/// Ordinal used for the threshold: case-insensitive against the level table.
pub fn threshold_ordinal(s: &str) -> (r: usize)
    ensures
        r == threshold_ordinal_spec(s@),
        r <= 5,
{
    let cs = str_to_chars(s);
    let up = to_ascii_upper(&cs);
    level_ordinal_chars(&up)
}

/// A record is displayed under a threshold exactly when its level's ordinal
/// is at least the threshold's ordinal.
pub proof fn law_display_iff_ordinal(level: Seq<char>, threshold: Seq<char>)
    ensures
        displayed_spec(level, threshold) <==> level_ordinal_spec(level) >= threshold_ordinal_spec(
            threshold,
        ),
{
}

/// An unrecognized threshold name has ordinal 0, so it shows every record:
/// whatever the record's level, the filter accepts it.
pub proof fn law_unknown_threshold_shows_all(level: Seq<char>, threshold: Seq<char>)
    requires
        threshold_ordinal_spec(threshold) == 0,
    ensures
        displayed_spec(level, threshold),
{
}

/// An unrecognized level name is treated exactly as ordinal 0.
pub proof fn law_unknown_level_is_ordinal_zero(level: Seq<char>)
    requires
        level != "TRACE"@,
        level != "DEBUG"@,
        level != "INFO"@,
        level != "WARN"@,
        level != "ERROR"@,
        level != "FATAL"@,
    ensures
        level_ordinal_spec(level) == 0,
{
}

} // verus!
