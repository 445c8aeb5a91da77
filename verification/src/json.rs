//! The structured envelope: one object per line, in the usual brace-and-quote
//! notation, with string keys, and string, number, boolean, null, object and
//! array values.
//!
//! The decoder is split in two flat machines: a lexer from characters to
//! tokens, and a parser from tokens to the envelope's fields.  Both consume
//! one symbol per step, and decoding is all-or-nothing: any flaw anywhere in
//! the line rejects the whole line.

use crate::access::{all_digits, digit_val, digits_val, is_digit, occurs_at, vec_subrange};
use crate::text::{char_from_scalar, chars_eq_str, str_to_chars};
use vstd::prelude::*;

verus! {

/// A lexical token of the envelope notation.  String tokens carry their text
/// already unescaped; number tokens carry their raw text.
pub enum Token {
    LBrace,
    RBrace,
    LBracket,
    RBracket,
    Colon,
    Comma,
    StrTok(Vec<char>),
    NumTok(Vec<char>),
    TrueTok,
    FalseTok,
    NullTok,
}

/// The mathematical model of a token.
pub ghost enum TokenModel {
    LBrace,
    RBrace,
    LBracket,
    RBracket,
    Colon,
    Comma,
    StrTok(Seq<char>),
    NumTok(Seq<char>),
    TrueTok,
    FalseTok,
    NullTok,
}

impl View for Token {
    type V = TokenModel;

    open spec fn view(&self) -> TokenModel {
        match self {
            Token::LBrace => TokenModel::LBrace,
            Token::RBrace => TokenModel::RBrace,
            Token::LBracket => TokenModel::LBracket,
            Token::RBracket => TokenModel::RBracket,
            Token::Colon => TokenModel::Colon,
            Token::Comma => TokenModel::Comma,
            Token::StrTok(s) => TokenModel::StrTok(s@),
            Token::NumTok(s) => TokenModel::NumTok(s@),
            Token::TrueTok => TokenModel::TrueTok,
            Token::FalseTok => TokenModel::FalseTok,
            Token::NullTok => TokenModel::NullTok,
        }
    }
}

pub open spec fn tokens_model(ts: Seq<Token>) -> Seq<TokenModel> {
    ts.map_values(|t: Token| t@)
}

pub broadcast proof fn lemma_tokens_model_push(ts: Seq<Token>, t: Token)
    ensures
        #[trigger] tokens_model(ts.push(t)) == tokens_model(ts).push(t@),
{
    assert(tokens_model(ts.push(t)) =~= tokens_model(ts).push(t@));
}

pub open spec fn is_ws(c: char) -> bool {
    c == ' ' || c == '\t' || c == '\n' || c == '\r'
}

pub open spec fn is_hex(c: char) -> bool {
    is_digit(c) || ('a' <= c <= 'f') || ('A' <= c <= 'F')
}

pub open spec fn hex_val(c: char) -> int {
    if is_digit(c) {
        (c as u32) - ('0' as u32)
    } else if 'a' <= c <= 'f' {
        10 + (c as u32) - ('a' as u32)
    } else {
        10 + (c as u32) - ('A' as u32)
    }
}

/// The state of the lexer between two characters.
pub ghost enum LexSt {
    /// Between tokens.
    Normal,
    /// Inside a string; the text unescaped so far.
    InStr(Seq<char>),
    /// Inside a string, after a backslash.
    Esc(Seq<char>),
    /// Inside a hex escape: text, value so far, digits taken (0 to 3).
    Hex(Seq<char>, int, int),
    /// After a high-surrogate escape, expecting a backslash.
    Pair1(Seq<char>, int),
    /// After a high-surrogate escape and backslash, expecting `u`.
    Pair2(Seq<char>, int),
    /// Inside the hex escape of the low half: text, high half, value, digits.
    Hex2(Seq<char>, int, int, int),
    /// Inside a number: raw text, number-shape state.
    Num(Seq<char>, int),
}

/// Number-shape states: 0 after a minus sign; 1 after a leading zero; 2 in
/// the integer digits; 3 right after the point; 4 in the fraction digits; 5
/// right after the exponent letter; 6 after the exponent sign; 7 in the
/// exponent digits.  A number may end in states 1, 2, 4 and 7.
pub open spec fn num_accepting(d: int) -> bool {
    d == 1 || d == 2 || d == 4 || d == 7
}

pub open spec fn lex_rank(st: LexSt) -> int {
    match st {
        LexSt::Normal => 0,
        _ => 1,
    }
}

/// One lexer: the tokens of `s` from position `i` onwards in state `st`,
/// appended to `toks`; `None` when the text is not lexically well formed.
pub open spec fn spec_lex(s: Seq<char>, i: int, st: LexSt, toks: Seq<TokenModel>) -> Option<
    Seq<TokenModel>,
>
    decreases s.len() - i, lex_rank(st),
{
    if i < 0 || i > s.len() {
        None
    } else if i == s.len() {
        match st {
            LexSt::Normal => Some(toks),
            LexSt::Num(t, d) => if num_accepting(d) {
                Some(toks.push(TokenModel::NumTok(t)))
            } else {
                None
            },
            _ => None,
        }
    } else {
        let c = s[i];
        match st {
            LexSt::Normal => {
                if is_ws(c) {
                    spec_lex(s, i + 1, LexSt::Normal, toks)
                } else if c == '{' {
                    spec_lex(s, i + 1, LexSt::Normal, toks.push(TokenModel::LBrace))
                } else if c == '}' {
                    spec_lex(s, i + 1, LexSt::Normal, toks.push(TokenModel::RBrace))
                } else if c == '[' {
                    spec_lex(s, i + 1, LexSt::Normal, toks.push(TokenModel::LBracket))
                } else if c == ']' {
                    spec_lex(s, i + 1, LexSt::Normal, toks.push(TokenModel::RBracket))
                } else if c == ':' {
                    spec_lex(s, i + 1, LexSt::Normal, toks.push(TokenModel::Colon))
                } else if c == ',' {
                    spec_lex(s, i + 1, LexSt::Normal, toks.push(TokenModel::Comma))
                } else if c == '"' {
                    spec_lex(s, i + 1, LexSt::InStr(Seq::empty()), toks)
                } else if c == '-' {
                    spec_lex(s, i + 1, LexSt::Num(seq![c], 0), toks)
                } else if c == '0' {
                    spec_lex(s, i + 1, LexSt::Num(seq![c], 1), toks)
                } else if is_digit(c) {
                    spec_lex(s, i + 1, LexSt::Num(seq![c], 2), toks)
                } else if c == 't' {
                    if i + 4 <= s.len() && occurs_at(s, "true"@, i) {
                        spec_lex(s, i + 4, LexSt::Normal, toks.push(TokenModel::TrueTok))
                    } else {
                        None
                    }
                } else if c == 'f' {
                    if i + 5 <= s.len() && occurs_at(s, "false"@, i) {
                        spec_lex(s, i + 5, LexSt::Normal, toks.push(TokenModel::FalseTok))
                    } else {
                        None
                    }
                } else if c == 'n' {
                    if i + 4 <= s.len() && occurs_at(s, "null"@, i) {
                        spec_lex(s, i + 4, LexSt::Normal, toks.push(TokenModel::NullTok))
                    } else {
                        None
                    }
                } else {
                    None
                }
            },
            LexSt::InStr(acc) => {
                if c == '"' {
                    spec_lex(s, i + 1, LexSt::Normal, toks.push(TokenModel::StrTok(acc)))
                } else if c == '\\' {
                    spec_lex(s, i + 1, LexSt::Esc(acc), toks)
                } else if (c as u32) < 0x20 {
                    None
                } else {
                    spec_lex(s, i + 1, LexSt::InStr(acc.push(c)), toks)
                }
            },
            LexSt::Esc(acc) => {
                if c == '"' || c == '\\' || c == '/' {
                    spec_lex(s, i + 1, LexSt::InStr(acc.push(c)), toks)
                } else if c == 'b' {
                    spec_lex(s, i + 1, LexSt::InStr(acc.push('\u{8}')), toks)
                } else if c == 'f' {
                    spec_lex(s, i + 1, LexSt::InStr(acc.push('\u{c}')), toks)
                } else if c == 'n' {
                    spec_lex(s, i + 1, LexSt::InStr(acc.push('\n')), toks)
                } else if c == 'r' {
                    spec_lex(s, i + 1, LexSt::InStr(acc.push('\r')), toks)
                } else if c == 't' {
                    spec_lex(s, i + 1, LexSt::InStr(acc.push('\t')), toks)
                } else if c == 'u' {
                    spec_lex(s, i + 1, LexSt::Hex(acc, 0, 0), toks)
                } else {
                    None
                }
            },
            LexSt::Hex(acc, v, k) => {
                if is_hex(c) {
                    let v2 = v * 16 + hex_val(c);
                    if k < 3 {
                        spec_lex(s, i + 1, LexSt::Hex(acc, v2, k + 1), toks)
                    } else if 0xD800 <= v2 < 0xDC00 {
                        spec_lex(s, i + 1, LexSt::Pair1(acc, v2), toks)
                    } else if 0xDC00 <= v2 < 0xE000 {
                        None
                    } else {
                        spec_lex(s, i + 1, LexSt::InStr(acc.push((v2 as u32) as char)), toks)
                    }
                } else {
                    None
                }
            },
            LexSt::Pair1(acc, hi) => {
                if c == '\\' {
                    spec_lex(s, i + 1, LexSt::Pair2(acc, hi), toks)
                } else {
                    None
                }
            },
            LexSt::Pair2(acc, hi) => {
                if c == 'u' {
                    spec_lex(s, i + 1, LexSt::Hex2(acc, hi, 0, 0), toks)
                } else {
                    None
                }
            },
            LexSt::Hex2(acc, hi, v, k) => {
                if is_hex(c) {
                    let v2 = v * 16 + hex_val(c);
                    if k < 3 {
                        spec_lex(s, i + 1, LexSt::Hex2(acc, hi, v2, k + 1), toks)
                    } else if 0xDC00 <= v2 < 0xE000 {
                        let scalar = 0x10000 + (hi - 0xD800) * 0x400 + (v2 - 0xDC00);
                        spec_lex(s, i + 1, LexSt::InStr(acc.push((scalar as u32) as char)), toks)
                    } else {
                        None
                    }
                } else {
                    None
                }
            },
            LexSt::Num(t, d) => {
                if is_digit(c) && (d == 0 || d == 2 || d == 3 || d == 4 || d == 5 || d == 6 || d
                    == 7) {
                    let d2: int = if d == 0 {
                        if c == '0' {
                            1int
                        } else {
                            2int
                        }
                    } else if d == 3 {
                        4int
                    } else if d == 5 || d == 6 {
                        7int
                    } else {
                        d
                    };
                    spec_lex(s, i + 1, LexSt::Num(t.push(c), d2), toks)
                } else if c == '.' && (d == 1 || d == 2) {
                    spec_lex(s, i + 1, LexSt::Num(t.push(c), 3), toks)
                } else if (c == 'e' || c == 'E') && (d == 1 || d == 2 || d == 4) {
                    spec_lex(s, i + 1, LexSt::Num(t.push(c), 5), toks)
                } else if (c == '+' || c == '-') && d == 5 {
                    spec_lex(s, i + 1, LexSt::Num(t.push(c), 6), toks)
                } else if num_accepting(d) {
                    spec_lex(s, i, LexSt::Normal, toks.push(TokenModel::NumTok(t)))
                } else {
                    None
                }
            },
        }
    }
}

/// The tokens of a whole line.
pub open spec fn spec_tokens(s: Seq<char>) -> Option<Seq<TokenModel>> {
    spec_lex(s, 0, LexSt::Normal, Seq::empty())
}

/// The lexer's executable state.
pub enum LexState {
    Normal,
    InStr(Vec<char>),
    Esc(Vec<char>),
    Hex(Vec<char>, u32, u8),
    Pair1(Vec<char>, u32),
    Pair2(Vec<char>, u32),
    Hex2(Vec<char>, u32, u32, u8),
    Num(Vec<char>, u8),
}

impl View for LexState {
    type V = LexSt;

    open spec fn view(&self) -> LexSt {
        match self {
            LexState::Normal => LexSt::Normal,
            LexState::InStr(a) => LexSt::InStr(a@),
            LexState::Esc(a) => LexSt::Esc(a@),
            LexState::Hex(a, v, k) => LexSt::Hex(a@, *v as int, *k as int),
            LexState::Pair1(a, hi) => LexSt::Pair1(a@, *hi as int),
            LexState::Pair2(a, hi) => LexSt::Pair2(a@, *hi as int),
            LexState::Hex2(a, hi, v, k) => LexSt::Hex2(a@, *hi as int, *v as int, *k as int),
            LexState::Num(t, d) => LexSt::Num(t@, *d as int),
        }
    }
}

/// The value of a hex digit, or `None` if the character is not one.
pub fn hex_digit(c: char) -> (r: Option<u32>)
    ensures
        match r {
            Some(v) => is_hex(c) && v == hex_val(c) && v < 16,
            None => !is_hex(c),
        },
{
    if '0' <= c && c <= '9' {
        Some((c as u32) - ('0' as u32))
    } else if 'a' <= c && c <= 'f' {
        Some(10 + (c as u32) - ('a' as u32))
    } else if 'A' <= c && c <= 'F' {
        Some(10 + (c as u32) - ('A' as u32))
    } else {
        None
    }
}

/// Lex a whole line into tokens; `None` exactly when the line is not
/// lexically well formed.
pub fn lex(s: &Vec<char>) -> (r: Option<Vec<Token>>)
    ensures
        match r {
            Some(ts) => spec_tokens(s@) == Some(tokens_model(ts@)),
            None => spec_tokens(s@) is None,
        },
{
    proof {
        reveal_strlit("true");
        reveal_strlit("false");
        reveal_strlit("null");
        assert(tokens_model(Seq::<Token>::empty()) =~= Seq::<TokenModel>::empty());
    }
    let mut toks: Vec<Token> = Vec::new();
    let mut st = LexState::Normal;
    let mut i: usize = 0;
    let tru = str_to_chars("true");
    let fal = str_to_chars("false");
    let nul = str_to_chars("null");
    while i < s.len()
        invariant
            i <= s@.len(),
            tru@ == "true"@,
            fal@ == "false"@,
            nul@ == "null"@,
            spec_tokens(s@) == spec_lex(s@, i as int, st@, tokens_model(toks@)),
            (st@ matches LexSt::Num(t, d) ==> 0 <= d <= 7),
            (st@ matches LexSt::Hex(a, v, k) ==> 0 <= k <= 3 && 0 <= v < 0x1000 && (k == 0 ==> v
                == 0) && (k == 1 ==> v < 16) && (k == 2 ==> v < 256)),
            (st@ matches LexSt::Hex2(a, hi, v, k) ==> 0xd800 <= hi < 0xdc00 && 0 <= k <= 3 && 0
                <= v < 0x1000 && (k == 0 ==> v == 0) && (k == 1 ==> v < 16) && (k == 2 ==> v
                < 256)),
            (st@ matches LexSt::Pair1(a, hi) ==> 0xd800 <= hi < 0xdc00),
            (st@ matches LexSt::Pair2(a, hi) ==> 0xd800 <= hi < 0xdc00),
        decreases s@.len() - i, lex_rank(st@),
    {
        proof {
            reveal_strlit("true");
            reveal_strlit("false");
            reveal_strlit("null");
        }
        let ghost oi = i as int;
        let ghost ost = st@;
        let ghost otm = tokens_model(toks@);
        let ghost otoks = toks@;
        let c = s[i];
        match st {
            LexState::Normal => {
                st = LexState::Normal;
                if c == ' ' || c == '\t' || c == '\n' || c == '\r' {
                    i = i + 1;
                } else if c == '{' {
                    toks.push(Token::LBrace);
                    proof {
                        lemma_tokens_model_push(otoks, toks@.last());
                    }
                    i = i + 1;
                } else if c == '}' {
                    toks.push(Token::RBrace);
                    proof {
                        lemma_tokens_model_push(otoks, toks@.last());
                    }
                    i = i + 1;
                } else if c == '[' {
                    toks.push(Token::LBracket);
                    proof {
                        lemma_tokens_model_push(otoks, toks@.last());
                    }
                    i = i + 1;
                } else if c == ']' {
                    toks.push(Token::RBracket);
                    proof {
                        lemma_tokens_model_push(otoks, toks@.last());
                    }
                    i = i + 1;
                } else if c == ':' {
                    toks.push(Token::Colon);
                    proof {
                        lemma_tokens_model_push(otoks, toks@.last());
                    }
                    i = i + 1;
                } else if c == ',' {
                    toks.push(Token::Comma);
                    proof {
                        lemma_tokens_model_push(otoks, toks@.last());
                    }
                    i = i + 1;
                } else if c == '"' {
                    st = LexState::InStr(Vec::new());
                    i = i + 1;
                } else if c == '-' {
                    let mut t: Vec<char> = Vec::new();
                    t.push(c);
                    st = LexState::Num(t, 0);
                    i = i + 1;
                } else if c == '0' {
                    let mut t: Vec<char> = Vec::new();
                    t.push(c);
                    st = LexState::Num(t, 1);
                    i = i + 1;
                } else if '1' <= c && c <= '9' {
                    let mut t: Vec<char> = Vec::new();
                    t.push(c);
                    st = LexState::Num(t, 2);
                    i = i + 1;
                } else if c == 't' {
                    if crate::access::match_at(s, &tru, i) {
                        toks.push(Token::TrueTok);
                        proof {
                            lemma_tokens_model_push(otoks, toks@.last());
                        }
                        i = i + 4;
                    } else {
                        return None;
                    }
                } else if c == 'f' {
                    if crate::access::match_at(s, &fal, i) {
                        toks.push(Token::FalseTok);
                        proof {
                            lemma_tokens_model_push(otoks, toks@.last());
                        }
                        i = i + 5;
                    } else {
                        return None;
                    }
                } else if c == 'n' {
                    if crate::access::match_at(s, &nul, i) {
                        toks.push(Token::NullTok);
                        proof {
                            lemma_tokens_model_push(otoks, toks@.last());
                        }
                        i = i + 4;
                    } else {
                        return None;
                    }
                } else {
                    return None;
                }
            },
            LexState::InStr(mut acc) => {
                if c == '"' {
                    toks.push(Token::StrTok(acc));
                    proof {
                        lemma_tokens_model_push(otoks, toks@.last());
                    }
                    st = LexState::Normal;
                    i = i + 1;
                } else if c == '\\' {
                    st = LexState::Esc(acc);
                    i = i + 1;
                } else if (c as u32) < 0x20 {
                    return None;
                } else {
                    acc.push(c);
                    st = LexState::InStr(acc);
                    i = i + 1;
                }
            },
            LexState::Esc(mut acc) => {
                if c == '"' || c == '\\' || c == '/' {
                    acc.push(c);
                    st = LexState::InStr(acc);
                    i = i + 1;
                } else if c == 'b' {
                    acc.push('\u{8}');
                    st = LexState::InStr(acc);
                    i = i + 1;
                } else if c == 'f' {
                    acc.push('\u{c}');
                    st = LexState::InStr(acc);
                    i = i + 1;
                } else if c == 'n' {
                    acc.push('\n');
                    st = LexState::InStr(acc);
                    i = i + 1;
                } else if c == 'r' {
                    acc.push('\r');
                    st = LexState::InStr(acc);
                    i = i + 1;
                } else if c == 't' {
                    acc.push('\t');
                    st = LexState::InStr(acc);
                    i = i + 1;
                } else if c == 'u' {
                    st = LexState::Hex(acc, 0, 0);
                    i = i + 1;
                } else {
                    return None;
                }
            },
            LexState::Hex(mut acc, v, k) => {
                match hex_digit(c) {
                    None => {
                        return None;
                    },
                    Some(hv) => {
                        let v2 = v * 16 + hv;
                        if k < 3 {
                            st = LexState::Hex(acc, v2, k + 1);
                            i = i + 1;
                        } else if 0xD800 <= v2 && v2 < 0xDC00 {
                            st = LexState::Pair1(acc, v2);
                            i = i + 1;
                        } else if 0xDC00 <= v2 && v2 < 0xE000 {
                            return None;
                        } else {
                            let cc = char_from_scalar(v2);
                            proof {
                                vstd::utf8::char_u32_cast(cc, v2);
                            }
                            acc.push(cc);
                            st = LexState::InStr(acc);
                            i = i + 1;
                        }
                    },
                }
            },
            LexState::Pair1(acc, hi) => {
                if c == '\\' {
                    st = LexState::Pair2(acc, hi);
                    i = i + 1;
                } else {
                    return None;
                }
            },
            LexState::Pair2(acc, hi) => {
                if c == 'u' {
                    st = LexState::Hex2(acc, hi, 0, 0);
                    i = i + 1;
                } else {
                    return None;
                }
            },
            LexState::Hex2(mut acc, hi, v, k) => {
                match hex_digit(c) {
                    None => {
                        return None;
                    },
                    Some(hv) => {
                        let v2 = v * 16 + hv;
                        if k < 3 {
                            st = LexState::Hex2(acc, hi, v2, k + 1);
                            i = i + 1;
                        } else if 0xDC00 <= v2 && v2 < 0xE000 {
                            let scalar = 0x10000 + (hi - 0xD800) * 0x400 + (v2 - 0xDC00);
                            let cc = char_from_scalar(scalar);
                            proof {
                                vstd::utf8::char_u32_cast(cc, scalar);
                            }
                            acc.push(cc);
                            st = LexState::InStr(acc);
                            i = i + 1;
                        } else {
                            return None;
                        }
                    },
                }
            },
            LexState::Num(mut t, d) => {
                if ('0' <= c && c <= '9') && d != 1 {
                    let d2: u8 = if d == 0 {
                        if c == '0' {
                            1
                        } else {
                            2
                        }
                    } else if d == 3 {
                        4
                    } else if d == 5 || d == 6 {
                        7
                    } else {
                        d
                    };
                    t.push(c);
                    st = LexState::Num(t, d2);
                    i = i + 1;
                } else if c == '.' && (d == 1 || d == 2) {
                    t.push(c);
                    st = LexState::Num(t, 3);
                    i = i + 1;
                } else if (c == 'e' || c == 'E') && (d == 1 || d == 2 || d == 4) {
                    t.push(c);
                    st = LexState::Num(t, 5);
                    i = i + 1;
                } else if (c == '+' || c == '-') && d == 5 {
                    t.push(c);
                    st = LexState::Num(t, 6);
                    i = i + 1;
                } else if d == 1 || d == 2 || d == 4 || d == 7 {
                    toks.push(Token::NumTok(t));
                    proof {
                        lemma_tokens_model_push(otoks, toks@.last());
                    }
                    st = LexState::Normal;
                } else {
                    return None;
                }
            },
        }
        proof {
            assert(spec_lex(s@, oi, ost, otm) == spec_lex(s@, i as int, st@, tokens_model(toks@)));
        }
    }
    match st {
        LexState::Normal => Some(toks),
        LexState::Num(t, d) => {
            if d == 1 || d == 2 || d == 4 || d == 7 {
                let ghost ftoks = toks@;
                toks.push(Token::NumTok(t));
                proof {
                    lemma_tokens_model_push(ftoks, toks@.last());
                }
                Some(toks)
            } else {
                None
            }
        },
        _ => None,
    }
}

/// Which envelope field a key names.
#[derive(Clone, Copy)]
pub enum FieldKey {
    TimeKey,
    LevelKey,
    FileKey,
    LineKey,
    MsgKey,
    OtherKey,
}

pub open spec fn classify_spec(k: Seq<char>) -> FieldKey {
    if k == "time"@ {
        FieldKey::TimeKey
    } else if k == "level"@ {
        FieldKey::LevelKey
    } else if k == "file"@ {
        FieldKey::FileKey
    } else if k == "line"@ {
        FieldKey::LineKey
    } else if k == "msg"@ {
        FieldKey::MsgKey
    } else {
        FieldKey::OtherKey
    }
}

/// The fields gathered while walking the envelope's members.  `file` and
/// `line` may be given as null, so presence is tracked apart from the value.
pub struct PartialFields {
    pub time: Option<Vec<char>>,
    pub level: Option<Vec<char>>,
    pub msg: Option<Vec<char>>,
    pub file_seen: bool,
    pub file: Option<Vec<char>>,
    pub line_seen: bool,
    pub line: Option<usize>,
}

pub ghost struct PF {
    pub time: Option<Seq<char>>,
    pub level: Option<Seq<char>>,
    pub msg: Option<Seq<char>>,
    pub file_seen: bool,
    pub file: Option<Seq<char>>,
    pub line_seen: bool,
    pub line: Option<usize>,
}

pub open spec fn opt_chars_model(v: Option<Vec<char>>) -> Option<Seq<char>> {
    match v {
        Some(x) => Some(x@),
        None => None,
    }
}

impl View for PartialFields {
    type V = PF;

    open spec fn view(&self) -> PF {
        PF {
            time: opt_chars_model(self.time),
            level: opt_chars_model(self.level),
            msg: opt_chars_model(self.msg),
            file_seen: self.file_seen,
            file: opt_chars_model(self.file),
            line_seen: self.line_seen,
            line: self.line,
        }
    }
}

pub open spec fn pf_empty() -> PF {
    PF {
        time: None,
        level: None,
        msg: None,
        file_seen: false,
        file: None,
        line_seen: false,
        line: None,
    }
}

/// The line number a number token stands for: digits only, fitting the
/// machine's word; anything else is not a line number.
pub open spec fn line_token_value(t: Seq<char>) -> Option<usize> {
    if t.len() >= 1 && all_digits(t) && digits_val(t) <= usize::MAX {
        Some(digits_val(t) as usize)
    } else {
        None
    }
}

/// The parser's state between two tokens.  The `Sk` states walk a value of
/// an unrecognized member, with a stack of the open containers (`true` for
/// an object, `false` for an array).
pub ghost enum PSt {
    Start,
    KeyOrEnd,
    Key,
    Colon(FieldKey),
    Value(FieldKey),
    AfterVal,
    SkVal(Seq<bool>),
    SkValOrEnd(Seq<bool>),
    SkAfter(Seq<bool>),
    SkKeyOrEnd(Seq<bool>),
    SkKey(Seq<bool>),
    SkColon(Seq<bool>),
    Done,
}

pub open spec fn is_scalar_tok(t: TokenModel) -> bool {
    t is StrTok || t is NumTok || t is TrueTok || t is FalseTok || t is NullTok
}

/// After a complete skipped value: back at the member level when every
/// container is closed, inside the innermost container otherwise.
pub open spec fn sk_after(stk: Seq<bool>) -> PSt {
    if stk.len() == 0 {
        PSt::AfterVal
    } else {
        PSt::SkAfter(stk)
    }
}

/// One parser: the fields of the envelope written by `toks` from position
/// `j` onwards in state `st`; `None` when the tokens do not form the
/// envelope shape.
pub open spec fn spec_parse(toks: Seq<TokenModel>, j: int, st: PSt, f: PF) -> Option<PF>
    decreases toks.len() - j,
{
    if j < 0 || j > toks.len() {
        None
    } else if j == toks.len() {
        if st is Done {
            Some(f)
        } else {
            None
        }
    } else {
        let t = toks[j];
        match st {
            PSt::Start => {
                if t is LBrace {
                    spec_parse(toks, j + 1, PSt::KeyOrEnd, f)
                } else {
                    None
                }
            },
            PSt::KeyOrEnd => {
                match t {
                    TokenModel::StrTok(k) => spec_parse(toks, j + 1, PSt::Colon(classify_spec(k)), f),
                    TokenModel::RBrace => spec_parse(toks, j + 1, PSt::Done, f),
                    _ => None,
                }
            },
            PSt::Key => {
                match t {
                    TokenModel::StrTok(k) => spec_parse(toks, j + 1, PSt::Colon(classify_spec(k)), f),
                    _ => None,
                }
            },
            PSt::Colon(fk) => {
                if t is Colon {
                    spec_parse(toks, j + 1, PSt::Value(fk), f)
                } else {
                    None
                }
            },
            PSt::Value(fk) => {
                match fk {
                    FieldKey::TimeKey => {
                        match t {
                            TokenModel::StrTok(x) => if f.time is None {
                                spec_parse(toks, j + 1, PSt::AfterVal, PF { time: Some(x), ..f })
                            } else {
                                None
                            },
                            _ => None,
                        }
                    },
                    FieldKey::LevelKey => {
                        match t {
                            TokenModel::StrTok(x) => if f.level is None {
                                spec_parse(toks, j + 1, PSt::AfterVal, PF { level: Some(x), ..f })
                            } else {
                                None
                            },
                            _ => None,
                        }
                    },
                    FieldKey::MsgKey => {
                        match t {
                            TokenModel::StrTok(x) => if f.msg is None {
                                spec_parse(toks, j + 1, PSt::AfterVal, PF { msg: Some(x), ..f })
                            } else {
                                None
                            },
                            _ => None,
                        }
                    },
                    FieldKey::FileKey => {
                        if f.file_seen {
                            None
                        } else {
                            match t {
                                TokenModel::StrTok(x) => spec_parse(
                                    toks,
                                    j + 1,
                                    PSt::AfterVal,
                                    PF { file_seen: true, file: Some(x), ..f },
                                ),
                                TokenModel::NullTok => spec_parse(
                                    toks,
                                    j + 1,
                                    PSt::AfterVal,
                                    PF { file_seen: true, file: None, ..f },
                                ),
                                _ => None,
                            }
                        }
                    },
                    FieldKey::LineKey => {
                        if f.line_seen {
                            None
                        } else {
                            match t {
                                TokenModel::NumTok(x) => {
                                    match line_token_value(x) {
                                        Some(v) => spec_parse(
                                            toks,
                                            j + 1,
                                            PSt::AfterVal,
                                            PF { line_seen: true, line: Some(v), ..f },
                                        ),
                                        None => None,
                                    }
                                },
                                TokenModel::NullTok => spec_parse(
                                    toks,
                                    j + 1,
                                    PSt::AfterVal,
                                    PF { line_seen: true, line: None, ..f },
                                ),
                                _ => None,
                            }
                        }
                    },
                    FieldKey::OtherKey => {
                        if is_scalar_tok(t) {
                            spec_parse(toks, j + 1, PSt::AfterVal, f)
                        } else if t is LBrace {
                            spec_parse(toks, j + 1, PSt::SkKeyOrEnd(seq![true]), f)
                        } else if t is LBracket {
                            spec_parse(toks, j + 1, PSt::SkValOrEnd(seq![false]), f)
                        } else {
                            None
                        }
                    },
                }
            },
            PSt::AfterVal => {
                if t is Comma {
                    spec_parse(toks, j + 1, PSt::Key, f)
                } else if t is RBrace {
                    spec_parse(toks, j + 1, PSt::Done, f)
                } else {
                    None
                }
            },
            PSt::SkVal(stk) => {
                if is_scalar_tok(t) {
                    spec_parse(toks, j + 1, sk_after(stk), f)
                } else if t is LBrace {
                    spec_parse(toks, j + 1, PSt::SkKeyOrEnd(stk.push(true)), f)
                } else if t is LBracket {
                    spec_parse(toks, j + 1, PSt::SkValOrEnd(stk.push(false)), f)
                } else {
                    None
                }
            },
            PSt::SkValOrEnd(stk) => {
                if t is RBracket && stk.len() >= 1 && stk.last() == false {
                    spec_parse(toks, j + 1, sk_after(stk.drop_last()), f)
                } else if is_scalar_tok(t) {
                    spec_parse(toks, j + 1, sk_after(stk), f)
                } else if t is LBrace {
                    spec_parse(toks, j + 1, PSt::SkKeyOrEnd(stk.push(true)), f)
                } else if t is LBracket {
                    spec_parse(toks, j + 1, PSt::SkValOrEnd(stk.push(false)), f)
                } else {
                    None
                }
            },
            PSt::SkAfter(stk) => {
                if stk.len() == 0 {
                    None
                } else if stk.last() {
                    if t is Comma {
                        spec_parse(toks, j + 1, PSt::SkKey(stk), f)
                    } else if t is RBrace {
                        spec_parse(toks, j + 1, sk_after(stk.drop_last()), f)
                    } else {
                        None
                    }
                } else {
                    if t is Comma {
                        spec_parse(toks, j + 1, PSt::SkVal(stk), f)
                    } else if t is RBracket {
                        spec_parse(toks, j + 1, sk_after(stk.drop_last()), f)
                    } else {
                        None
                    }
                }
            },
            PSt::SkKeyOrEnd(stk) => {
                if t is StrTok {
                    spec_parse(toks, j + 1, PSt::SkColon(stk), f)
                } else if t is RBrace && stk.len() >= 1 && stk.last() {
                    spec_parse(toks, j + 1, sk_after(stk.drop_last()), f)
                } else {
                    None
                }
            },
            PSt::SkKey(stk) => {
                if t is StrTok {
                    spec_parse(toks, j + 1, PSt::SkColon(stk), f)
                } else {
                    None
                }
            },
            PSt::SkColon(stk) => {
                if t is Colon {
                    spec_parse(toks, j + 1, PSt::SkVal(stk), f)
                } else {
                    None
                }
            },
            PSt::Done => None,
        }
    }
}

/// The envelope's fields as written by a whole line.
pub open spec fn spec_fields(s: Seq<char>) -> Option<PF> {
    match spec_tokens(s) {
        None => None,
        Some(toks) => spec_parse(toks, 0, PSt::Start, pf_empty()),
    }
}

/// The parser's executable state.
pub enum PState {
    Start,
    KeyOrEnd,
    Key,
    Colon(FieldKey),
    Value(FieldKey),
    AfterVal,
    SkVal(Vec<bool>),
    SkValOrEnd(Vec<bool>),
    SkAfter(Vec<bool>),
    SkKeyOrEnd(Vec<bool>),
    SkKey(Vec<bool>),
    SkColon(Vec<bool>),
    Done,
}

impl View for PState {
    type V = PSt;

    open spec fn view(&self) -> PSt {
        match self {
            PState::Start => PSt::Start,
            PState::KeyOrEnd => PSt::KeyOrEnd,
            PState::Key => PSt::Key,
            PState::Colon(fk) => PSt::Colon(*fk),
            PState::Value(fk) => PSt::Value(*fk),
            PState::AfterVal => PSt::AfterVal,
            PState::SkVal(s) => PSt::SkVal(s@),
            PState::SkValOrEnd(s) => PSt::SkValOrEnd(s@),
            PState::SkAfter(s) => PSt::SkAfter(s@),
            PState::SkKeyOrEnd(s) => PSt::SkKeyOrEnd(s@),
            PState::SkKey(s) => PSt::SkKey(s@),
            PState::SkColon(s) => PSt::SkColon(s@),
            PState::Done => PSt::Done,
        }
    }
}

/// Which field a member key names.
pub fn classify_key(k: &Vec<char>) -> (r: FieldKey)
    ensures
        r == classify_spec(k@),
{
    if chars_eq_str(k, "time") {
        FieldKey::TimeKey
    } else if chars_eq_str(k, "level") {
        FieldKey::LevelKey
    } else if chars_eq_str(k, "file") {
        FieldKey::FileKey
    } else if chars_eq_str(k, "line") {
        FieldKey::LineKey
    } else if chars_eq_str(k, "msg") {
        FieldKey::MsgKey
    } else {
        FieldKey::OtherKey
    }
}

/// A fresh copy of a character vector.
pub fn copy_chars(x: &Vec<char>) -> (r: Vec<char>)
    ensures
        r@ == x@,
{
    let r = vec_subrange(x, 0, x.len());
    proof {
        assert(r@ =~= x@);
    }
    r
}

/// Parse a number token as a line number: `Some` exactly on one or more
/// digits writing a number that fits the machine's word.
pub fn parse_line_number(t: &Vec<char>) -> (r: Option<usize>)
    ensures
        r == line_token_value(t@),
{
    if t.len() == 0 {
        return None;
    }
    let mut val: usize = 0;
    let mut over: bool = false;
    let mut i: usize = 0;
    while i < t.len()
        invariant
            i <= t@.len(),
            all_digits(t@.take(i as int)),
            !over ==> val == digits_val(t@.take(i as int)),
            over ==> digits_val(t@.take(i as int)) > usize::MAX,
        decreases t@.len() - i,
    {
        let c = t[i];
        if c < '0' || c > '9' {
            proof {
                assert(t@.take(t@.len() as int) =~= t@);
                assert(!is_digit(t@[i as int]));
            }
            return None;
        }
        let d: usize = ((c as u32) - ('0' as u32)) as usize;
        proof {
            assert(t@.take(i + 1).drop_last() =~= t@.take(i as int));
            assert(t@.take(i + 1).last() == t@[i as int]);
            assert(digits_val(t@.take(i + 1)) == digits_val(t@.take(i as int)) * 10 + digit_val(
                t@[i as int],
            ));
        }
        if !over {
            if val > usize::MAX / 10 || (val == usize::MAX / 10 && d > usize::MAX % 10) {
                over = true;
            } else {
                val = val * 10 + d;
            }
        }
        i = i + 1;
    }
    proof {
        assert(t@.take(t@.len() as int) =~= t@);
    }
    if over {
        return None;
    }
    Some(val)
}

/// Parse a token stream as the envelope; `None` exactly when the tokens do
/// not form the envelope shape.
pub fn parse_tokens(toks: &Vec<Token>) -> (r: Option<PartialFields>)
    ensures
        match r {
            Some(f) => spec_parse(tokens_model(toks@), 0, PSt::Start, pf_empty()) == Some(f@),
            None => spec_parse(tokens_model(toks@), 0, PSt::Start, pf_empty()) is None,
        },
{
    let mut st = PState::Start;
    let mut f = PartialFields {
        time: None,
        level: None,
        msg: None,
        file_seen: false,
        file: None,
        line_seen: false,
        line: None,
    };
    let mut j: usize = 0;
    proof {
        assert(f@ == pf_empty());
    }
    while j < toks.len()
        invariant
            j <= toks@.len(),
            toks@.len() == tokens_model(toks@).len(),
            spec_parse(tokens_model(toks@), 0, PSt::Start, pf_empty()) == spec_parse(
                tokens_model(toks@),
                j as int,
                st@,
                f@,
            ),
        decreases toks@.len() - j,
    {
        let ghost oj = j as int;
        let ghost ost = st@;
        let ghost opf = f@;
        let t = vstd::std_specs::vec::vec_index(toks, j);
        proof {
            assert(t@ == tokens_model(toks@)[j as int]);
        }
        match st {
            PState::Start => {
                match t {
                    Token::LBrace => {
                        st = PState::KeyOrEnd;
                        j = j + 1;
                    },
                    _ => {
                        return None;
                    },
                }
            },
            PState::KeyOrEnd => {
                match t {
                    Token::StrTok(k) => {
                        st = PState::Colon(classify_key(k));
                        j = j + 1;
                    },
                    Token::RBrace => {
                        st = PState::Done;
                        j = j + 1;
                    },
                    _ => {
                        return None;
                    },
                }
            },
            PState::Key => {
                match t {
                    Token::StrTok(k) => {
                        st = PState::Colon(classify_key(k));
                        j = j + 1;
                    },
                    _ => {
                        return None;
                    },
                }
            },
            PState::Colon(fk) => {
                match t {
                    Token::Colon => {
                        st = PState::Value(fk);
                        j = j + 1;
                    },
                    _ => {
                        return None;
                    },
                }
            },
            PState::Value(fk) => {
                match fk {
                    FieldKey::TimeKey => {
                        match t {
                            Token::StrTok(x) => {
                                if f.time.is_some() {
                                    return None;
                                }
                                f.time = Some(copy_chars(x));
                                st = PState::AfterVal;
                                j = j + 1;
                            },
                            _ => {
                                return None;
                            },
                        }
                    },
                    FieldKey::LevelKey => {
                        match t {
                            Token::StrTok(x) => {
                                if f.level.is_some() {
                                    return None;
                                }
                                f.level = Some(copy_chars(x));
                                st = PState::AfterVal;
                                j = j + 1;
                            },
                            _ => {
                                return None;
                            },
                        }
                    },
                    FieldKey::MsgKey => {
                        match t {
                            Token::StrTok(x) => {
                                if f.msg.is_some() {
                                    return None;
                                }
                                f.msg = Some(copy_chars(x));
                                st = PState::AfterVal;
                                j = j + 1;
                            },
                            _ => {
                                return None;
                            },
                        }
                    },
                    FieldKey::FileKey => {
                        if f.file_seen {
                            return None;
                        }
                        match t {
                            Token::StrTok(x) => {
                                f.file_seen = true;
                                f.file = Some(copy_chars(x));
                                st = PState::AfterVal;
                                j = j + 1;
                            },
                            Token::NullTok => {
                                f.file_seen = true;
                                f.file = None;
                                st = PState::AfterVal;
                                j = j + 1;
                            },
                            _ => {
                                return None;
                            },
                        }
                    },
                    FieldKey::LineKey => {
                        if f.line_seen {
                            return None;
                        }
                        match t {
                            Token::NumTok(x) => {
                                match parse_line_number(x) {
                                    Some(v) => {
                                        f.line_seen = true;
                                        f.line = Some(v);
                                        st = PState::AfterVal;
                                        j = j + 1;
                                    },
                                    None => {
                                        return None;
                                    },
                                }
                            },
                            Token::NullTok => {
                                f.line_seen = true;
                                f.line = None;
                                st = PState::AfterVal;
                                j = j + 1;
                            },
                            _ => {
                                return None;
                            },
                        }
                    },
                    FieldKey::OtherKey => {
                        match t {
                            Token::StrTok(_) | Token::NumTok(_) | Token::TrueTok | Token::FalseTok
                                | Token::NullTok => {
                                st = PState::AfterVal;
                                j = j + 1;
                            },
                            Token::LBrace => {
                                let mut s: Vec<bool> = Vec::new();
                                s.push(true);
                                proof {
                                    assert(s@ =~= seq![true]);
                                }
                                st = PState::SkKeyOrEnd(s);
                                j = j + 1;
                            },
                            Token::LBracket => {
                                let mut s: Vec<bool> = Vec::new();
                                s.push(false);
                                proof {
                                    assert(s@ =~= seq![false]);
                                }
                                st = PState::SkValOrEnd(s);
                                j = j + 1;
                            },
                            _ => {
                                return None;
                            },
                        }
                    },
                }
            },
            PState::AfterVal => {
                match t {
                    Token::Comma => {
                        st = PState::Key;
                        j = j + 1;
                    },
                    Token::RBrace => {
                        st = PState::Done;
                        j = j + 1;
                    },
                    _ => {
                        return None;
                    },
                }
            },
            PState::SkVal(mut s) => {
                match t {
                    Token::StrTok(_) | Token::NumTok(_) | Token::TrueTok | Token::FalseTok
                        | Token::NullTok => {
                        st = if s.len() == 0 {
                            PState::AfterVal
                        } else {
                            PState::SkAfter(s)
                        };
                        j = j + 1;
                    },
                    Token::LBrace => {
                        s.push(true);
                        st = PState::SkKeyOrEnd(s);
                        j = j + 1;
                    },
                    Token::LBracket => {
                        s.push(false);
                        st = PState::SkValOrEnd(s);
                        j = j + 1;
                    },
                    _ => {
                        return None;
                    },
                }
            },
            PState::SkValOrEnd(mut s) => {
                match t {
                    Token::RBracket => {
                        if s.len() >= 1 && !s[s.len() - 1] {
                            s.pop();
                            proof {
                                assert(s@ =~= ost->SkValOrEnd_0.drop_last());
                            }
                            st = if s.len() == 0 {
                                PState::AfterVal
                            } else {
                                PState::SkAfter(s)
                            };
                            j = j + 1;
                        } else {
                            return None;
                        }
                    },
                    Token::StrTok(_) | Token::NumTok(_) | Token::TrueTok | Token::FalseTok
                        | Token::NullTok => {
                        st = if s.len() == 0 {
                            PState::AfterVal
                        } else {
                            PState::SkAfter(s)
                        };
                        j = j + 1;
                    },
                    Token::LBrace => {
                        s.push(true);
                        st = PState::SkKeyOrEnd(s);
                        j = j + 1;
                    },
                    Token::LBracket => {
                        s.push(false);
                        st = PState::SkValOrEnd(s);
                        j = j + 1;
                    },
                    _ => {
                        return None;
                    },
                }
            },
            PState::SkAfter(mut s) => {
                if s.len() == 0 {
                    return None;
                }
                let top = s[s.len() - 1];
                match t {
                    Token::Comma => {
                        st = if top {
                            PState::SkKey(s)
                        } else {
                            PState::SkVal(s)
                        };
                        j = j + 1;
                    },
                    Token::RBrace => {
                        if top {
                            s.pop();
                            proof {
                                assert(s@ =~= ost->SkAfter_0.drop_last());
                            }
                            st = if s.len() == 0 {
                                PState::AfterVal
                            } else {
                                PState::SkAfter(s)
                            };
                            j = j + 1;
                        } else {
                            return None;
                        }
                    },
                    Token::RBracket => {
                        if !top {
                            s.pop();
                            proof {
                                assert(s@ =~= ost->SkAfter_0.drop_last());
                            }
                            st = if s.len() == 0 {
                                PState::AfterVal
                            } else {
                                PState::SkAfter(s)
                            };
                            j = j + 1;
                        } else {
                            return None;
                        }
                    },
                    _ => {
                        return None;
                    },
                }
            },
            PState::SkKeyOrEnd(mut s) => {
                match t {
                    Token::StrTok(_) => {
                        st = PState::SkColon(s);
                        j = j + 1;
                    },
                    Token::RBrace => {
                        if s.len() >= 1 && s[s.len() - 1] {
                            s.pop();
                            proof {
                                assert(s@ =~= ost->SkKeyOrEnd_0.drop_last());
                            }
                            st = if s.len() == 0 {
                                PState::AfterVal
                            } else {
                                PState::SkAfter(s)
                            };
                            j = j + 1;
                        } else {
                            return None;
                        }
                    },
                    _ => {
                        return None;
                    },
                }
            },
            PState::SkKey(s) => {
                match t {
                    Token::StrTok(_) => {
                        st = PState::SkColon(s);
                        j = j + 1;
                    },
                    _ => {
                        return None;
                    },
                }
            },
            PState::SkColon(s) => {
                match t {
                    Token::Colon => {
                        st = PState::SkVal(s);
                        j = j + 1;
                    },
                    _ => {
                        return None;
                    },
                }
            },
            PState::Done => {
                return None;
            },
        }
        proof {
            assert(spec_parse(tokens_model(toks@), oj, ost, opf) == spec_parse(
                tokens_model(toks@),
                j as int,
                st@,
                f@,
            ));
        }
    }
    match st {
        PState::Done => Some(f),
        _ => None,
    }
}

} // verus!
