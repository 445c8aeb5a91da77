//! Rendering: ANSI coloring, fixed-width alignment, and the composition of
//! the final display line.
//!
//! Color is explicit configuration threaded through every function as a
//! `bool`; with color off, every piece renders as its bare text.

use crate::access::{
    check_elapsed, digits_val, elapsed_valid, extract_access, field_elapsed, field_id, field_ip,
    field_path, field_status, field_ua, is_max_split, is_split_at, matches_grammar, parse_status,
    path_method, path_protocol, path_split3, path_split_at, path_splits3, path_uri, raw_matches,
    status_valid, vec_subrange,
};
use crate::text::{char_from_u32_unchecked_ascii, chars_eq_str, str_to_chars};
use vstd::prelude::*;

verus! {

/// Text wrapped in an ANSI color sequence when color is on, bare otherwise.
pub open spec fn painted(color: bool, code: Seq<char>, text: Seq<char>) -> Seq<char> {
    if color {
        "\u{1b}["@ + code + "m"@ + text + "\u{1b}[0m"@
    } else {
        text
    }
}

/// `n` spaces.
pub open spec fn spaces(n: int) -> Seq<char>
    decreases n,
{
    if n <= 0 {
        Seq::empty()
    } else {
        spaces(n - 1).push(' ')
    }
}

/// `s` right-aligned in a field of width `w`.
pub open spec fn pad_left_spec(s: Seq<char>, w: int) -> Seq<char> {
    if s.len() >= w {
        s
    } else {
        spaces(w - s.len()) + s
    }
}

pub open spec fn digit_char(d: int) -> char {
    ((('0' as u32) + d) as u32) as char
}

/// The decimal writing of a non-negative number.
pub open spec fn dec_str(n: int) -> Seq<char>
    decreases n,
{
    if n <= 9 {
        seq![digit_char(if n < 0 { 0 } else { n })]
    } else {
        dec_str(n / 10).push(digit_char(n % 10))
    }
}

/// Append the characters of `s` to `v`.
pub fn push_all(v: &mut Vec<char>, s: &Vec<char>)
    ensures
        final(v)@ == old(v)@ + s@,
{
    let mut i: usize = 0;
    while i < s.len()
        invariant
            i <= s@.len(),
            v@ == old(v)@ + s@.take(i as int),
        decreases s@.len() - i,
    {
        v.push(s[i]);
        proof {
            assert(old(v)@ + s@.take(i + 1) =~= (old(v)@ + s@.take(i as int)).push(s@[i as int]));
        }
        i = i + 1;
    }
    proof {
        assert(s@.take(s@.len() as int) =~= s@);
    }
}

/// Append the characters of the string slice `s` to `v`.
pub fn push_str_chars(v: &mut Vec<char>, s: &str)
    ensures
        final(v)@ == old(v)@ + s@,
{
    let cs = str_to_chars(s);
    push_all(v, &cs);
}

/// Wrap `text` in the ANSI sequence for `code` when `color` is on.
pub fn paint(color: bool, code: &str, text: &Vec<char>) -> (r: Vec<char>)
    ensures
        r@ == painted(color, code@, text@),
{
    let mut r: Vec<char> = Vec::new();
    if color {
        push_str_chars(&mut r, "\u{1b}[");
        push_str_chars(&mut r, code);
        push_str_chars(&mut r, "m");
        push_all(&mut r, text);
        push_str_chars(&mut r, "\u{1b}[0m");
        proof {
            assert(r@ =~= painted(color, code@, text@));
        }
    } else {
        push_all(&mut r, text);
        proof {
            assert(r@ =~= text@);
        }
    }
    r
}

/// Right-align `s` in a field of `w` characters, filling with spaces.
pub fn pad_left(s: &Vec<char>, w: usize) -> (r: Vec<char>)
    ensures
        r@ == pad_left_spec(s@, w as int),
{
    if s.len() >= w {
        return vec_subrange(s, 0, s.len());
    }
    let mut r: Vec<char> = Vec::new();
    let mut i: usize = 0;
    let n = w - s.len();
    while i < n
        invariant
            i <= n,
            r@ == spaces(i as int),
        decreases n - i,
    {
        r.push(' ');
        proof {
            assert(spaces(i + 1) == spaces(i as int).push(' '));
        }
        i = i + 1;
    }
    push_all(&mut r, s);
    proof {
        assert(s@.subrange(0, s@.len() as int) =~= s@);
    }
    r
}

/// The decimal writing of `n`, one character per digit.
pub fn format_u64(n: u64) -> (r: Vec<char>)
    ensures
        r@ == dec_str(n as int),
    decreases n,
{
    let d: u32 = ('0' as u32) + (n % 10) as u32;
    let c = char_from_u32_unchecked_ascii(d);
    proof {
        vstd::utf8::char_u32_cast(c, d);
    }
    if n <= 9 {
        let mut r: Vec<char> = Vec::new();
        r.push(c);
        proof {
            assert(r@ =~= seq![digit_char(n as int)]);
        }
        r
    } else {
        let mut r = format_u64(n / 10);
        r.push(c);
        r
    }
}

/// The level tag shown for an ordinal: the level name, right-aligned to
/// five characters.
pub open spec fn level_tag(ord: int) -> Seq<char> {
    if ord == 0 {
        "TRACE"@
    } else if ord == 1 {
        "DEBUG"@
    } else if ord == 2 {
        " INFO"@
    } else if ord == 3 {
        " WARN"@
    } else if ord == 4 {
        "ERROR"@
    } else {
        "FATAL"@
    }
}

/// One distinct color per level, more alarming from TRACE to FATAL:
/// magenta, blue, green, yellow, red, bold red.
pub open spec fn level_color(ord: int) -> Seq<char> {
    if ord == 0 {
        "35"@
    } else if ord == 1 {
        "34"@
    } else if ord == 2 {
        "32"@
    } else if ord == 3 {
        "33"@
    } else if ord == 4 {
        "31"@
    } else {
        "1;31"@
    }
}

pub open spec fn rendered_level(ord: int, color: bool) -> Seq<char> {
    painted(color, level_color(ord), level_tag(ord))
}

/// The colorized level tag for an ordinal.
pub fn format_level(ord: usize, color: bool) -> (r: Vec<char>)
    ensures
        r@ == rendered_level(ord as int, color),
{
    if ord == 0 {
        let t = str_to_chars("TRACE");
        paint(color, "35", &t)
    } else if ord == 1 {
        let t = str_to_chars("DEBUG");
        paint(color, "34", &t)
    } else if ord == 2 {
        let t = str_to_chars(" INFO");
        paint(color, "32", &t)
    } else if ord == 3 {
        let t = str_to_chars(" WARN");
        paint(color, "33", &t)
    } else if ord == 4 {
        let t = str_to_chars("ERROR");
        paint(color, "31", &t)
    } else {
        let t = str_to_chars("FATAL");
        paint(color, "1;31", &t)
    }
}

/// One distinct bold color per status bracket: informational, success,
/// redirect, client error, server error.
pub open spec fn status_color(v: int) -> Seq<char> {
    if v < 200 {
        "1;36"@
    } else if v < 300 {
        "1;32"@
    } else if v < 400 {
        "1;35"@
    } else if v < 500 {
        "1;33"@
    } else {
        "1;31"@
    }
}

pub open spec fn rendered_status(v: int, color: bool) -> Seq<char> {
    painted(color, status_color(v), dec_str(v))
}

/// The colorized decimal writing of a status code.
pub fn format_status_code(v: u16, color: bool) -> (r: Vec<char>)
    ensures
        r@ == rendered_status(v as int, color),
{
    let t = format_u64(v as u64);
    if v < 200 {
        paint(color, "1;36", &t)
    } else if v < 300 {
        paint(color, "1;32", &t)
    } else if v < 400 {
        paint(color, "1;35", &t)
    } else if v < 500 {
        paint(color, "1;33", &t)
    } else {
        paint(color, "1;31", &t)
    }
}

/// The color of a recognized, colorized HTTP method; `None` for the methods
/// rendered uncolored and for anything unrecognized.
pub open spec fn method_color(m: Seq<char>) -> Option<Seq<char>> {
    if m == "GET"@ {
        Some("32"@)
    } else if m == "POST"@ {
        Some("34"@)
    } else if m == "PUT"@ {
        Some("33"@)
    } else if m == "PATCH"@ {
        Some("35"@)
    } else if m == "DELETE"@ {
        Some("31"@)
    } else {
        None
    }
}

/// A method, right-aligned to seven characters, colorized when recognized.
pub open spec fn rendered_method(m: Seq<char>, color: bool) -> Seq<char> {
    match method_color(m) {
        Some(code) => painted(color, code, pad_left_spec(m, 7)),
        None => pad_left_spec(m, 7),
    }
}

/// Format an HTTP method at fixed width with its color.
pub fn format_http_method(m: &Vec<char>, color: bool) -> (r: Vec<char>)
    ensures
        r@ == rendered_method(m@, color),
{
    let pad = pad_left(m, 7);
    if chars_eq_str(m, "GET") {
        paint(color, "32", &pad)
    } else if chars_eq_str(m, "POST") {
        paint(color, "34", &pad)
    } else if chars_eq_str(m, "PUT") {
        paint(color, "33", &pad)
    } else if chars_eq_str(m, "PATCH") {
        paint(color, "35", &pad)
    } else if chars_eq_str(m, "DELETE") {
        paint(color, "31", &pad)
    } else {
        pad
    }
}

/// Two three-token splits of one path are the same split.
pub proof fn lemma_path_split_unique(c: Seq<char>, i1: int, j1: int, i2: int, j2: int)
    requires
        path_split_at(c, i1, j1),
        path_split_at(c, i2, j2),
    ensures
        i1 == i2 && j1 == j2,
{
    assert(c[i2] == ' ');
    assert(c[j2] == ' ');
}

/// A path rendered as `method | uri | protocol` when it splits into exactly
/// three non-empty tokens, and unmodified otherwise.
pub open spec fn rendered_path(c: Seq<char>, color: bool) -> Seq<char> {
    if path_splits3(c) {
        let (i, j) = choose|i: int, j: int| #[trigger] path_split_at(c, i, j);
        rendered_method(path_method(c, i), color) + " | "@ + path_uri(c, i, j) + " | "@
            + path_protocol(c, j)
    } else {
        c
    }
}

/// Format a request path, decomposing it when it has the three-token shape.
pub fn format_request_path(c: &Vec<char>, color: bool) -> (r: Vec<char>)
    ensures
        r@ == rendered_path(c@, color),
{
    match path_split3(c) {
        None => vec_subrange(c, 0, c.len()),
        Some((i, j)) => {
            proof {
                let (ci, cj) = choose|ci: int, cj: int| #[trigger] path_split_at(c@, ci, cj);
                lemma_path_split_unique(c@, ci, cj, i as int, j as int);
            }
            let method = vec_subrange(c, 0, i);
            let uri = vec_subrange(c, i + 1, j);
            let clen = c.len();
            let proto = vec_subrange(c, j + 1, clen);
            let mut r = format_http_method(&method, color);
            push_str_chars(&mut r, " | ");
            push_all(&mut r, &uri);
            push_str_chars(&mut r, " | ");
            push_all(&mut r, &proto);
            proof {
                assert(r@ =~= rendered_path(c@, color));
            }
            r
        },
    }
}

/// Both the status code and the elapsed-seconds text of a decomposition are
/// valid.
pub open spec fn access_fields_valid(m: Seq<char>, q4: int, q5: int, q6: int) -> bool {
    status_valid(field_status(m, q4, q5)) && elapsed_valid(field_elapsed(m, q5, q6))
}

/// The rendering of a valid decomposition: status, path, request id, elapsed
/// seconds right-aligned to ten characters with an `s` suffix, client
/// address, user agent, separated by ` | `.
pub open spec fn rendered_access_fields(
    m: Seq<char>,
    q2: int,
    q3: int,
    q4: int,
    q5: int,
    q6: int,
    color: bool,
) -> Seq<char> {
    rendered_status(digits_val(field_status(m, q4, q5)), color) + " | "@ + rendered_path(
        field_path(m, q3, q4),
        color,
    ) + " | "@ + field_id(m, q2) + " | "@ + pad_left_spec(field_elapsed(m, q5, q6), 10) + "s | "@
        + field_ip(m, q2, q3) + " | "@ + field_ua(m, q6)
}

/// Two maximal decompositions of one message are the same decomposition.
pub proof fn lemma_max_split_unique(
    m: Seq<char>,
    a2: int,
    a3: int,
    a4: int,
    a5: int,
    a6: int,
    b2: int,
    b3: int,
    b4: int,
    b5: int,
    b6: int,
)
    requires
        is_max_split(m, a2, a3, a4, a5, a6),
        is_max_split(m, b2, b3, b4, b5, b6),
    ensures
        a2 == b2 && a3 == b3 && a4 == b4 && a5 == b5 && a6 == b6,
{
    assert(is_split_at(m, a2, a3, a4, a5, a6));
    assert(is_split_at(m, b2, b3, b4, b5, b6));
}

/// The rendering of a message: the decomposed access-log form when the
/// message matches the sub-grammar with a valid status code and elapsed
/// time, and the message itself, unchanged, otherwise.
pub open spec fn rendered_msg(m: Seq<char>, color: bool) -> Seq<char> {
    if matches_grammar(m) {
        let (q2, q3, q4, q5, q6) = choose|q2: int, q3: int, q4: int, q5: int, q6: int|
            #[trigger] is_max_split(m, q2, q3, q4, q5, q6);
        if access_fields_valid(m, q4, q5, q6) {
            rendered_access_fields(m, q2, q3, q4, q5, q6, color)
        } else {
            m
        }
    } else {
        m
    }
}

/// Format a message: decompose it as an access-log entry if possible, and
/// fall back to the message itself on any mismatch or invalid field.
pub fn format_msg(msg: &Vec<char>, color: bool) -> (r: Vec<char>)
    ensures
        r@ == rendered_msg(msg@, color),
{
    let f = match extract_access(msg) {
        None => {
            let r = vec_subrange(msg, 0, msg.len());
            proof {
                assert(r@ =~= msg@);
            }
            return r;
        },
        Some(f) => f,
    };
    proof {
        let (e2, e3, e4, e5, e6) = choose|e2: int, e3: int, e4: int, e5: int, e6: int|
            #[trigger] is_max_split(msg@, e2, e3, e4, e5, e6) && raw_matches(
                &f,
                msg@,
                e2,
                e3,
                e4,
                e5,
                e6,
            );
        let (c2, c3, c4, c5, c6) = choose|c2: int, c3: int, c4: int, c5: int, c6: int|
            #[trigger] is_max_split(msg@, c2, c3, c4, c5, c6);
        lemma_max_split_unique(msg@, e2, e3, e4, e5, e6, c2, c3, c4, c5, c6);
    }
    let status = match parse_status(&f.status_text) {
        None => {
            let r = vec_subrange(msg, 0, msg.len());
            proof {
                assert(r@ =~= msg@);
            }
            return r;
        },
        Some(v) => v,
    };
    if !check_elapsed(&f.elapsed_seconds) {
        let r = vec_subrange(msg, 0, msg.len());
        proof {
            assert(r@ =~= msg@);
        }
        return r;
    }
    let mut r = format_status_code(status, color);
    push_str_chars(&mut r, " | ");
    let path = format_request_path(&f.request_path, color);
    push_all(&mut r, &path);
    push_str_chars(&mut r, " | ");
    push_all(&mut r, &f.request_id);
    push_str_chars(&mut r, " | ");
    let pe = pad_left(&f.elapsed_seconds, 10);
    push_all(&mut r, &pe);
    push_str_chars(&mut r, "s | ");
    push_all(&mut r, &f.client_ip_address);
    push_str_chars(&mut r, " | ");
    push_all(&mut r, &f.user_agent);
    proof {
        assert(r@ =~= rendered_msg(msg@, color));
    }
    r
}

/// A message that does not match the sub-grammar renders unchanged.
pub proof fn law_non_matching_message_unchanged(m: Seq<char>, color: bool)
    requires
        !matches_grammar(m),
    ensures
        rendered_msg(m, color) == m,
{
}

/// A message that matches the sub-grammar but whose decomposition carries an
/// invalid status code or elapsed time also renders unchanged.
pub proof fn law_invalid_fields_fall_back(
    m: Seq<char>,
    q2: int,
    q3: int,
    q4: int,
    q5: int,
    q6: int,
    color: bool,
)
    requires
        is_max_split(m, q2, q3, q4, q5, q6),
        !access_fields_valid(m, q4, q5, q6),
    ensures
        rendered_msg(m, color) == m,
{
    let (c2, c3, c4, c5, c6) = choose|c2: int, c3: int, c4: int, c5: int, c6: int|
        #[trigger] is_max_split(m, c2, c3, c4, c5, c6);
    lemma_max_split_unique(m, c2, c3, c4, c5, c6, q2, q3, q4, q5, q6);
}

/// A path that does not split into exactly three non-empty tokens renders
/// unmodified, with no partial breakdown.
pub proof fn law_unsplit_path_unchanged(c: Seq<char>, color: bool)
    requires
        !path_splits3(c),
    ensures
        rendered_path(c, color) == c,
{
}

} // verus!
