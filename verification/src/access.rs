//! The access-log sub-grammar: detecting and decomposing a message of the
//! fixed shape
//!
//! ```text
//! request_id=<A>, client_ip_address=<B>, request_path="<C>", status_code=<D>, elapsed_seconds=<E>, user_agent="<F>"
//! ```
//!
//! The whole message must match, anchored at both ends; there is no partial
//! extraction.  When several decompositions exist (a field itself contains
//! one of the literal separators), the one whose separator positions are all
//! maximal is taken; it is unique and every greedy left-to-right match agrees
//! with it.

use crate::text::str_to_chars;
use vstd::prelude::*;

verus! {

/// The literal that opens the pattern.
pub open spec fn sep_id() -> Seq<char> {
    "request_id="@
}

pub open spec fn sep_ip() -> Seq<char> {
    ", client_ip_address="@
}

pub open spec fn sep_path() -> Seq<char> {
    ", request_path=\""@
}

pub open spec fn sep_status() -> Seq<char> {
    "\", status_code="@
}

pub open spec fn sep_elapsed() -> Seq<char> {
    ", elapsed_seconds="@
}

pub open spec fn sep_ua() -> Seq<char> {
    ", user_agent=\""@
}

/// `n` occurs in `h` starting at position `i`.
pub open spec fn occurs_at(h: Seq<char>, n: Seq<char>, i: int) -> bool {
    0 <= i && i + n.len() <= h.len() && h.subrange(i, i + n.len()) == n
}

/// The message `m` decomposes along the pattern with the five inner
/// separators standing at `q2` .. `q6`, in order and without overlap.
pub open spec fn is_split_at(m: Seq<char>, q2: int, q3: int, q4: int, q5: int, q6: int) -> bool {
    &&& occurs_at(m, sep_id(), 0)
    &&& sep_id().len() <= q2
    &&& occurs_at(m, sep_ip(), q2)
    &&& q2 + sep_ip().len() <= q3
    &&& occurs_at(m, sep_path(), q3)
    &&& q3 + sep_path().len() <= q4
    &&& occurs_at(m, sep_status(), q4)
    &&& q4 + sep_status().len() <= q5
    &&& occurs_at(m, sep_elapsed(), q5)
    &&& q5 + sep_elapsed().len() <= q6
    &&& occurs_at(m, sep_ua(), q6)
    &&& q6 + sep_ua().len() <= m.len() - 1
    &&& m.len() >= 1 && m[m.len() - 1] == '"'
}

/// The message matches the sub-grammar in its entirety.
pub open spec fn matches_grammar(m: Seq<char>) -> bool {
    exists|q2: int, q3: int, q4: int, q5: int, q6: int| #[trigger] is_split_at(m, q2, q3, q4, q5, q6)
}

/// The decomposition whose separator positions are all maximal.
pub open spec fn is_max_split(m: Seq<char>, q2: int, q3: int, q4: int, q5: int, q6: int) -> bool {
    &&& is_split_at(m, q2, q3, q4, q5, q6)
    &&& forall|r2: int, r3: int, r4: int, r5: int, r6: int|
        #[trigger] is_split_at(m, r2, r3, r4, r5, r6) ==> r2 <= q2 && r3 <= q3 && r4 <= q4 && r5
            <= q5 && r6 <= q6
}

pub open spec fn field_id(m: Seq<char>, q2: int) -> Seq<char> {
    m.subrange(sep_id().len() as int, q2)
}

pub open spec fn field_ip(m: Seq<char>, q2: int, q3: int) -> Seq<char> {
    m.subrange(q2 + sep_ip().len(), q3)
}

pub open spec fn field_path(m: Seq<char>, q3: int, q4: int) -> Seq<char> {
    m.subrange(q3 + sep_path().len(), q4)
}

pub open spec fn field_status(m: Seq<char>, q4: int, q5: int) -> Seq<char> {
    m.subrange(q4 + sep_status().len(), q5)
}

pub open spec fn field_elapsed(m: Seq<char>, q5: int, q6: int) -> Seq<char> {
    m.subrange(q5 + sep_elapsed().len(), q6)
}

pub open spec fn field_ua(m: Seq<char>, q6: int) -> Seq<char> {
    m.subrange(q6 + sep_ua().len(), m.len() - 1)
}

/// The six raw texts captured by a successful decomposition.
pub struct RawAccess {
    pub request_id: Vec<char>,
    pub client_ip_address: Vec<char>,
    pub request_path: Vec<char>,
    pub status_text: Vec<char>,
    pub elapsed_seconds: Vec<char>,
    pub user_agent: Vec<char>,
}

/// The raw capture equals the fields of the given decomposition.
pub open spec fn raw_matches(f: &RawAccess, m: Seq<char>, q2: int, q3: int, q4: int, q5: int, q6: int) -> bool {
    &&& f.request_id@ == field_id(m, q2)
    &&& f.client_ip_address@ == field_ip(m, q2, q3)
    &&& f.request_path@ == field_path(m, q3, q4)
    &&& f.status_text@ == field_status(m, q4, q5)
    &&& f.elapsed_seconds@ == field_elapsed(m, q5, q6)
    &&& f.user_agent@ == field_ua(m, q6)
}

/// Does `n` occur in `h` at `i`?  Decided character by character.
pub fn match_at(h: &Vec<char>, n: &Vec<char>, i: usize) -> (b: bool)
    ensures
        b == occurs_at(h@, n@, i as int),
{
    if n.len() > h.len() || i > h.len() - n.len() {
        return false;
    }
    let mut k: usize = 0;
    while k < n.len()
        invariant
            h@.len() <= usize::MAX,
            i + n@.len() <= h@.len(),
            k <= n@.len(),
            forall|t: int| 0 <= t < k ==> h@[i + t] == n@[t],
        decreases n@.len() - k,
    {
        if h[i + k] != n[k] {
            proof {
                assert(h@.subrange(i as int, i + n@.len())[k as int] == h@[i + k]);
            }
            return false;
        }
        k = k + 1;
    }
    proof {
        assert(h@.subrange(i as int, i + n@.len()) =~= n@);
    }
    true
}

/// The last position at which `n` occurs in `h` with its end at or before
/// `end`, if there is one.
pub fn rfind_within(h: &Vec<char>, n: &Vec<char>, end: usize) -> (r: Option<usize>)
    requires
        end <= h@.len(),
    ensures
        match r {
            Some(i) => occurs_at(h@, n@, i as int) && i + n@.len() <= end && forall|j: int|
                i < j && j + n@.len() <= end ==> !occurs_at(h@, n@, j),
            None => forall|j: int| 0 <= j && j + n@.len() <= end ==> !occurs_at(h@, n@, j),
        },
{
    if n.len() > end {
        return None;
    }
    let mut i: usize = end - n.len();
    loop
        invariant
            n@.len() <= end <= h@.len(),
            i + n@.len() <= end,
            forall|j: int| i < j && j + n@.len() <= end ==> !occurs_at(h@, n@, j),
        decreases i,
    {
        if match_at(h, n, i) {
            return Some(i);
        }
        if i == 0 {
            return None;
        }
        i = i - 1;
    }
}

/// Copy the characters of `v` between `a` (inclusive) and `b` (exclusive).
pub fn vec_subrange(v: &Vec<char>, a: usize, b: usize) -> (r: Vec<char>)
    requires
        a <= b <= v@.len(),
    ensures
        r@ == v@.subrange(a as int, b as int),
{
    let mut r: Vec<char> = Vec::new();
    let mut i: usize = a;
    while i < b
        invariant
            a <= i <= b <= v@.len(),
            r@.len() == i - a,
            forall|t: int| 0 <= t < r@.len() ==> r@[t] == v@[a + t],
        decreases b - i,
    {
        r.push(v[i]);
        i = i + 1;
    }
    proof {
        assert(r@ =~= v@.subrange(a as int, b as int));
    }
    r
}

/// Decompose a message along the sub-grammar, taking the decomposition with
/// all separator positions maximal; `None` exactly when the message does not
/// match the pattern at all.
pub fn extract_access(m: &Vec<char>) -> (r: Option<RawAccess>)
    ensures
        match r {
            Some(f) => exists|q2: int, q3: int, q4: int, q5: int, q6: int|
                #[trigger] is_max_split(m@, q2, q3, q4, q5, q6) && raw_matches(&f, m@, q2, q3, q4, q5, q6),
            None => !matches_grammar(m@),
        },
{
    let p = str_to_chars("request_id=");
    let s2 = str_to_chars(", client_ip_address=");
    let s3 = str_to_chars(", request_path=\"");
    let s4 = str_to_chars("\", status_code=");
    let s5 = str_to_chars(", elapsed_seconds=");
    let s6 = str_to_chars(", user_agent=\"");
    if m.len() == 0 {
        return None;
    }
    if m[m.len() - 1] != '"' {
        return None;
    }
    if !match_at(m, &p, 0) {
        return None;
    }
    let end6 = m.len() - 1;
    let q6 = match rfind_within(m, &s6, end6) {
        Some(i) => i,
        None => {
            proof {
                if matches_grammar(m@) {
                    let (r2, r3, r4, r5, r6) = choose|r2: int, r3: int, r4: int, r5: int, r6: int|
                        is_split_at(m@, r2, r3, r4, r5, r6);
                    assert(occurs_at(m@, s6@, r6));
                }
            }
            return None;
        },
    };
    let q5 = match rfind_within(m, &s5, q6) {
        Some(i) => i,
        None => {
            proof {
                if matches_grammar(m@) {
                    let (r2, r3, r4, r5, r6) = choose|r2: int, r3: int, r4: int, r5: int, r6: int|
                        is_split_at(m@, r2, r3, r4, r5, r6);
                    assert(occurs_at(m@, s6@, r6));
                    assert(r6 <= q6);
                    assert(occurs_at(m@, s5@, r5));
                }
            }
            return None;
        },
    };
    let q4 = match rfind_within(m, &s4, q5) {
        Some(i) => i,
        None => {
            proof {
                if matches_grammar(m@) {
                    let (r2, r3, r4, r5, r6) = choose|r2: int, r3: int, r4: int, r5: int, r6: int|
                        is_split_at(m@, r2, r3, r4, r5, r6);
                    assert(occurs_at(m@, s6@, r6));
                    assert(r6 <= q6);
                    assert(occurs_at(m@, s5@, r5));
                    assert(r5 <= q5);
                    assert(occurs_at(m@, s4@, r4));
                }
            }
            return None;
        },
    };
    let q3 = match rfind_within(m, &s3, q4) {
        Some(i) => i,
        None => {
            proof {
                if matches_grammar(m@) {
                    let (r2, r3, r4, r5, r6) = choose|r2: int, r3: int, r4: int, r5: int, r6: int|
                        is_split_at(m@, r2, r3, r4, r5, r6);
                    assert(occurs_at(m@, s6@, r6));
                    assert(r6 <= q6);
                    assert(occurs_at(m@, s5@, r5));
                    assert(r5 <= q5);
                    assert(occurs_at(m@, s4@, r4));
                    assert(r4 <= q4);
                    assert(occurs_at(m@, s3@, r3));
                }
            }
            return None;
        },
    };
    let q2 = match rfind_within(m, &s2, q3) {
        Some(i) => i,
        None => {
            proof {
                if matches_grammar(m@) {
                    let (r2, r3, r4, r5, r6) = choose|r2: int, r3: int, r4: int, r5: int, r6: int|
                        is_split_at(m@, r2, r3, r4, r5, r6);
                    assert(occurs_at(m@, s6@, r6));
                    assert(r6 <= q6);
                    assert(occurs_at(m@, s5@, r5));
                    assert(r5 <= q5);
                    assert(occurs_at(m@, s4@, r4));
                    assert(r4 <= q4);
                    assert(occurs_at(m@, s3@, r3));
                    assert(r3 <= q3);
                    assert(occurs_at(m@, s2@, r2));
                }
            }
            return None;
        },
    };
    if q2 < p.len() {
        proof {
            if matches_grammar(m@) {
                let (r2, r3, r4, r5, r6) = choose|r2: int, r3: int, r4: int, r5: int, r6: int|
                    is_split_at(m@, r2, r3, r4, r5, r6);
                assert(occurs_at(m@, s6@, r6));
                assert(r6 <= q6);
                assert(occurs_at(m@, s5@, r5));
                assert(r5 <= q5);
                assert(occurs_at(m@, s4@, r4));
                assert(r4 <= q4);
                assert(occurs_at(m@, s3@, r3));
                assert(r3 <= q3);
                assert(occurs_at(m@, s2@, r2));
                assert(r2 <= q2);
                assert(sep_id().len() <= r2);
            }
        }
        return None;
    }
    proof {
        assert(occurs_at(m@, sep_id(), 0));
        assert(is_split_at(m@, q2 as int, q3 as int, q4 as int, q5 as int, q6 as int));
        assert forall|r2: int, r3: int, r4: int, r5: int, r6: int|
            #[trigger] is_split_at(m@, r2, r3, r4, r5, r6) implies r2 <= q2 && r3 <= q3 && r4 <= q4
            && r5 <= q5 && r6 <= q6 by {
            assert(occurs_at(m@, s6@, r6));
            assert(r6 <= q6);
            assert(occurs_at(m@, s5@, r5));
            assert(r5 <= q5);
            assert(occurs_at(m@, s4@, r4));
            assert(r4 <= q4);
            assert(occurs_at(m@, s3@, r3));
            assert(r3 <= q3);
            assert(occurs_at(m@, s2@, r2));
            assert(r2 <= q2);
        }
        assert(is_max_split(m@, q2 as int, q3 as int, q4 as int, q5 as int, q6 as int));
    }
    let f = RawAccess {
        request_id: vec_subrange(m, p.len(), q2),
        client_ip_address: vec_subrange(m, q2 + s2.len(), q3),
        request_path: vec_subrange(m, q3 + s3.len(), q4),
        status_text: vec_subrange(m, q4 + s4.len(), q5),
        elapsed_seconds: vec_subrange(m, q5 + s5.len(), q6),
        user_agent: vec_subrange(m, q6 + s6.len(), end6),
    };
    Some(f)
}

pub open spec fn is_digit(c: char) -> bool {
    '0' <= c <= '9'
}

pub open spec fn digit_val(c: char) -> int {
    (c as u32) - ('0' as u32)
}

pub open spec fn all_digits(s: Seq<char>) -> bool {
    forall|i: int| 0 <= i < s.len() ==> is_digit(#[trigger] s[i])
}

/// The number written by a sequence of decimal digits.
pub open spec fn digits_val(s: Seq<char>) -> int
    decreases s.len(),
{
    if s.len() == 0 {
        0
    } else {
        digits_val(s.drop_last()) * 10 + digit_val(s.last())
    }
}

/// A status code text is valid when it is all digits and writes a number in
/// the range 100 to 599.
pub open spec fn status_valid(s: Seq<char>) -> bool {
    s.len() >= 1 && all_digits(s) && 100 <= digits_val(s) <= 599
}

/// Parse a status code text: `Some` exactly on the valid texts, and then the
/// parsed value is the number written.
pub fn parse_status(d: &Vec<char>) -> (r: Option<u16>)
    ensures
        match r {
            Some(v) => status_valid(d@) && v == digits_val(d@),
            None => !status_valid(d@),
        },
{
    if d.len() == 0 {
        return None;
    }
    let mut val: u32 = 0;
    let mut over: bool = false;
    let mut i: usize = 0;
    while i < d.len()
        invariant
            i <= d@.len(),
            all_digits(d@.take(i as int)),
            !over ==> val == digits_val(d@.take(i as int)) && val <= 599,
            over ==> digits_val(d@.take(i as int)) > 599,
        decreases d@.len() - i,
    {
        let c = d[i];
        if c < '0' || c > '9' {
            proof {
                assert(d@.take(d@.len() as int) =~= d@);
                assert(!is_digit(d@[i as int]));
            }
            return None;
        }
        let dv: u32 = (c as u32) - ('0' as u32);
        proof {
            assert(d@.take(i + 1).drop_last() =~= d@.take(i as int));
            assert(d@.take(i + 1).last() == d@[i as int]);
            assert(digits_val(d@.take(i + 1)) == digits_val(d@.take(i as int)) * 10 + digit_val(
                d@[i as int],
            ));
        }
        if !over {
            let next: u32 = val * 10 + dv;
            if next > 599 {
                over = true;
            } else {
                val = next;
            }
        }
        i = i + 1;
    }
    proof {
        assert(d@.take(d@.len() as int) =~= d@);
    }
    if over {
        return None;
    }
    if val < 100 {
        return None;
    }
    Some(val as u16)
}

/// An elapsed-seconds text is valid when it is one or more digits, with at
/// most one decimal point strictly inside, so that it writes a non-negative
/// decimal number.
pub open spec fn elapsed_valid(e: Seq<char>) -> bool {
    &&& e.len() >= 1
    &&& is_digit(e[0])
    &&& is_digit(e[e.len() - 1])
    &&& forall|i: int| 0 <= i < e.len() ==> is_digit(#[trigger] e[i]) || e[i] == '.'
    &&& forall|i: int, j: int|
        0 <= i < e.len() && 0 <= j < e.len() && #[trigger] e[i] == '.' && #[trigger] e[j] == '.'
            ==> i == j
}

/// Decide validity of an elapsed-seconds text.
pub fn check_elapsed(e: &Vec<char>) -> (r: bool)
    ensures
        r == elapsed_valid(e@),
{
    if e.len() == 0 {
        return false;
    }
    let c0 = e[0];
    if c0 < '0' || c0 > '9' {
        return false;
    }
    let cl = e[e.len() - 1];
    if cl < '0' || cl > '9' {
        return false;
    }
    let mut i: usize = 0;
    let mut dots: usize = 0;
    let ghost mut dot_idx: int = 0;
    while i < e.len()
        invariant
            i <= e@.len(),
            forall|k: int| 0 <= k < i ==> is_digit(#[trigger] e@[k]) || e@[k] == '.',
            dots <= 2,
            dots == 0 ==> forall|k: int| 0 <= k < i ==> #[trigger] e@[k] != '.',
            dots == 1 ==> 0 <= dot_idx < i && e@[dot_idx] == '.' && forall|k: int|
                0 <= k < i && #[trigger] e@[k] == '.' ==> k == dot_idx,
            dots == 2 ==> exists|a: int, b: int|
                0 <= a < b < i && #[trigger] e@[a] == '.' && #[trigger] e@[b] == '.',
        decreases e@.len() - i,
    {
        let c = e[i];
        if c == '.' {
            if dots == 0 {
                dots = 1;
                proof {
                    dot_idx = i as int;
                }
            } else if dots == 1 {
                dots = 2;
                proof {
                    assert(0 <= dot_idx < i && e@[dot_idx] == '.' && e@[i as int] == '.');
                }
            }
        } else if c < '0' || c > '9' {
            return false;
        }
        i = i + 1;
    }
    if dots >= 2 {
        proof {
            let (a, b) = choose|a: int, b: int|
                0 <= a < b < e@.len() && #[trigger] e@[a] == '.' && #[trigger] e@[b] == '.';
            assert(!elapsed_valid(e@));
        }
        return false;
    }
    true
}

/// The path splits into three non-empty tokens around single spaces at
/// positions `i` and `j`, and has no other space.
pub open spec fn path_split_at(c: Seq<char>, i: int, j: int) -> bool {
    &&& 1 <= i
    &&& i + 2 <= j
    &&& j + 2 <= c.len()
    &&& c[i] == ' '
    &&& c[j] == ' '
    &&& forall|k: int| 0 <= k < c.len() && #[trigger] c[k] == ' ' ==> k == i || k == j
}

/// The path splits on single spaces into exactly three non-empty tokens.
pub open spec fn path_splits3(c: Seq<char>) -> bool {
    exists|i: int, j: int| #[trigger] path_split_at(c, i, j)
}

pub open spec fn path_method(c: Seq<char>, i: int) -> Seq<char> {
    c.subrange(0, i)
}

pub open spec fn path_uri(c: Seq<char>, i: int, j: int) -> Seq<char> {
    c.subrange(i + 1, j)
}

pub open spec fn path_protocol(c: Seq<char>, j: int) -> Seq<char> {
    c.subrange(j + 1, c.len() as int)
}

/// Find the two space positions of a three-token path, or report that the
/// path does not split that way.
pub fn path_split3(c: &Vec<char>) -> (r: Option<(usize, usize)>)
    ensures
        match r {
            Some(p) => path_split_at(c@, p.0 as int, p.1 as int),
            None => !path_splits3(c@),
        },
{
    let mut i: usize = 0;
    let mut cnt: usize = 0;
    let mut i1: usize = 0;
    let mut i2: usize = 0;
    let ghost mut k3: int = 0;
    while i < c.len()
        invariant
            i <= c@.len(),
            cnt <= 3,
            cnt == 0 ==> forall|k: int| 0 <= k < i ==> #[trigger] c@[k] != ' ',
            cnt >= 1 ==> i1 < i && c@[i1 as int] == ' ',
            cnt == 1 ==> forall|k: int| 0 <= k < i && #[trigger] c@[k] == ' ' ==> k == i1,
            cnt >= 2 ==> i1 < i2 < i && c@[i2 as int] == ' ',
            cnt == 2 ==> forall|k: int|
                0 <= k < i && #[trigger] c@[k] == ' ' ==> k == i1 || k == i2,
            cnt == 3 ==> 0 <= k3 < i && c@[k3] == ' ' && k3 != i1 && k3 != i2,
        decreases c@.len() - i,
    {
        if c[i] == ' ' {
            if cnt == 0 {
                i1 = i;
                cnt = 1;
            } else if cnt == 1 {
                i2 = i;
                cnt = 2;
            } else if cnt == 2 {
                proof {
                    k3 = i as int;
                }
                cnt = 3;
            }
        }
        i = i + 1;
    }
    if cnt == 2 {
        if i1 >= 1 && i2 - i1 >= 2 && c.len() - i2 >= 2 {
            return Some((i1, i2));
        }
        proof {
            if path_splits3(c@) {
                let (a, b) = choose|a: int, b: int| path_split_at(c@, a, b);
                assert(a == i1 || a == i2);
                assert(b == i1 || b == i2);
                assert(a == i1 && b == i2);
            }
        }
        return None;
    }
    proof {
        if path_splits3(c@) {
            let (a, b) = choose|a: int, b: int| path_split_at(c@, a, b);
            assert(c@[a] == ' ');
            assert(c@[b] == ' ');
            if cnt == 3 {
                assert(k3 == a || k3 == b);
                assert(i1 == a || i1 == b);
                assert(i2 == a || i2 == b);
            }
        }
    }
    None
}

} // verus!
