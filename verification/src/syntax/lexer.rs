//! The lexer: turns source text into tokens.
//!
//! The behaviour of every lexing step is described by a spec function over the
//! source bytes; each executable step is proved to compute exactly that.
use vstd::prelude::*;
use vstd::string::StringSliceAdditionalSpecFns;
use crate::syntax::span::Span;
use crate::syntax::token::{Tok, TokKind, Token, TokenKind, spec_keyword, toks_view};
use crate::text::{push_char, push_str, to_string};

verus! {

// ── Errors ───────────────────────────────────────────────────────────

/// A lexical error with its message and location.
#[derive(Debug, Clone)]
pub struct LexError {
    pub message: String,
    pub span: Span,
}

/// The mathematical value of a lexical error.
pub struct LexErr {
    pub message: Seq<char>,
    pub span: Span,
}

impl View for LexError {
    type V = LexErr;

    open spec fn view(&self) -> LexErr {
        LexErr { message: self.message@, span: self.span }
    }
}

// ── Byte classes ─────────────────────────────────────────────────────

pub open spec fn is_digit(c: u8) -> bool {
    48 <= c <= 57
}

pub open spec fn is_alpha(c: u8) -> bool {
    (65 <= c <= 90) || (97 <= c <= 122)
}

pub open spec fn is_upper(c: u8) -> bool {
    65 <= c <= 90
}

pub open spec fn is_ident_char(c: u8) -> bool {
    is_alpha(c) || is_digit(c) || c == 95
}

/// ASCII whitespace as Rust's `u8::is_ascii_whitespace` defines it.
pub open spec fn is_space(c: u8) -> bool {
    c == 32 || c == 9 || c == 10 || c == 12 || c == 13
}

/// The value of a hexadecimal digit.
pub open spec fn spec_hex_digit(b: u8) -> Option<u8> {
    if 48 <= b <= 57 {
        Some((b - 48) as u8)
    } else if 97 <= b <= 102 {
        Some((b - 97 + 10) as u8)
    } else if 65 <= b <= 70 {
        Some((b - 65 + 10) as u8)
    } else {
        None
    }
}

pub fn hex_digit(b: u8) -> (r: Option<u8>)
    ensures
        r == spec_hex_digit(b),
{
    if b >= 48 && b <= 57 {
        Some(b - 48)
    } else if b >= 97 && b <= 102 {
        Some(b - 97 + 10)
    } else if b >= 65 && b <= 70 {
        Some(b - 65 + 10)
    } else {
        None
    }
}

/// The byte at `p`, if inside the input.
pub open spec fn byte_at(b: Seq<u8>, p: int) -> Option<u8> {
    if 0 <= p < b.len() {
        Some(b[p])
    } else {
        None
    }
}

/// Characters of an ASCII byte range, one character per byte.
pub open spec fn ascii_text(b: Seq<u8>, s: int, e: int) -> Seq<char> {
    b.subrange(s, e).map_values(|x: u8| x as char)
}

/// The span from `s` to `e` in file `fid` (offsets truncated to 32 bits).
pub open spec fn mk_span(fid: u32, s: int, e: int) -> Span {
    Span { file_id: fid, start: s as u32, end: e as u32 }
}

pub open spec fn mk_err(msg: Seq<char>, fid: u32, s: int, e: int) -> LexErr {
    LexErr { message: msg, span: mk_span(fid, s, e) }
}

pub open spec fn mk_tok(k: TokKind, fid: u32, s: int, e: int) -> Tok {
    Tok { kind: k, span: mk_span(fid, s, e) }
}

// ── Scanning runs of bytes ──────────────────────────────────────────

/// The first position at or after `p` whose byte is not a digit.
pub open spec fn skip_digits(b: Seq<u8>, p: int) -> int
    decreases b.len() - p,
{
    if 0 <= p < b.len() && is_digit(b[p]) {
        skip_digits(b, p + 1)
    } else {
        p
    }
}

/// The first position at or after `p` whose byte is not a hex digit.
pub open spec fn skip_hex(b: Seq<u8>, p: int) -> int
    decreases b.len() - p,
{
    if 0 <= p < b.len() && spec_hex_digit(b[p]) is Some {
        skip_hex(b, p + 1)
    } else {
        p
    }
}

/// The first position at or after `p` whose byte cannot continue an identifier.
pub open spec fn skip_ident(b: Seq<u8>, p: int) -> int
    decreases b.len() - p,
{
    if 0 <= p < b.len() && is_ident_char(b[p]) {
        skip_ident(b, p + 1)
    } else {
        p
    }
}

/// The first position at or after `p` whose byte is not whitespace.
pub open spec fn skip_space(b: Seq<u8>, p: int) -> int
    decreases b.len() - p,
{
    if 0 <= p < b.len() && is_space(b[p]) {
        skip_space(b, p + 1)
    } else {
        p
    }
}

proof fn lemma_skip_digits(b: Seq<u8>, p: int)
    requires
        0 <= p <= b.len(),
    ensures
        p <= skip_digits(b, p) <= b.len(),
        forall|i: int| p <= i < skip_digits(b, p) ==> is_digit(#[trigger] b[i]),
    decreases b.len() - p,
{
    if p < b.len() && is_digit(b[p]) {
        lemma_skip_digits(b, p + 1);
    }
}

proof fn lemma_skip_hex(b: Seq<u8>, p: int)
    requires
        0 <= p <= b.len(),
    ensures
        p <= skip_hex(b, p) <= b.len(),
        forall|i: int| p <= i < skip_hex(b, p) ==> spec_hex_digit(#[trigger] b[i]) is Some,
    decreases b.len() - p,
{
    if p < b.len() && spec_hex_digit(b[p]) is Some {
        lemma_skip_hex(b, p + 1);
    }
}

proof fn lemma_skip_ident(b: Seq<u8>, p: int)
    requires
        0 <= p <= b.len(),
    ensures
        p <= skip_ident(b, p) <= b.len(),
    decreases b.len() - p,
{
    if p < b.len() && is_ident_char(b[p]) {
        lemma_skip_ident(b, p + 1);
    }
}

proof fn lemma_skip_space(b: Seq<u8>, p: int)
    requires
        0 <= p <= b.len(),
    ensures
        p <= skip_space(b, p) <= b.len(),
    decreases b.len() - p,
{
    if p < b.len() && is_space(b[p]) {
        lemma_skip_space(b, p + 1);
    }
}

// ── Comments and whitespace ──────────────────────────────────────────

/// Scans the inside of a comment at nesting `depth`, returning the position
/// after the comment closes, or `None` when input ends first.
pub open spec fn skip_comment_body(b: Seq<u8>, p: int, depth: nat) -> Option<int>
    decreases b.len() - p, depth,
{
    if depth == 0 {
        Some(p)
    } else if !(0 <= p < b.len()) {
        None
    } else if p + 1 < b.len() && b[p] == 40 && b[p + 1] == 42 {
        skip_comment_body(b, p + 2, depth + 1)
    } else if p + 1 < b.len() && b[p] == 42 && b[p + 1] == 41 {
        skip_comment_body(b, p + 2, (depth - 1) as nat)
    } else {
        skip_comment_body(b, p + 1, depth)
    }
}

proof fn lemma_skip_comment_body(b: Seq<u8>, p: int, depth: nat)
    requires
        0 <= p <= b.len(),
    ensures
        skip_comment_body(b, p, depth) matches Some(q) ==> p <= q <= b.len(),
    decreases b.len() - p, depth,
{
    if depth == 0 {
    } else if !(0 <= p < b.len()) {
    } else if p + 1 < b.len() && b[p] == 40 && b[p + 1] == 42 {
        lemma_skip_comment_body(b, p + 2, depth + 1);
    } else if p + 1 < b.len() && b[p] == 42 && b[p + 1] == 41 {
        lemma_skip_comment_body(b, p + 2, (depth - 1) as nat);
    } else {
        lemma_skip_comment_body(b, p + 1, depth);
    }
}

/// True when a comment opens at `p`.
pub open spec fn comment_opens(b: Seq<u8>, p: int) -> bool {
    0 <= p && p + 1 < b.len() && b[p] == 40 && b[p + 1] == 42
}

/// Skips whitespace and (nested) comments starting at `p`.
pub open spec fn skip_trivia(b: Seq<u8>, p: int, fid: u32) -> Result<int, LexErr>
    decreases b.len() - p,
{
    let q = skip_space(b, p);
    if comment_opens(b, q) {
        match skip_comment_body(b, q + 2, 1) {
            None => Err(mk_err("unterminated comment"@, fid, q, b.len() as int)),
            Some(r) => if p < r <= b.len() {
                skip_trivia(b, r, fid)
            } else {
                Ok(r)
            },
        }
    } else {
        Ok(q)
    }
}

proof fn lemma_skip_trivia(b: Seq<u8>, p: int, fid: u32)
    requires
        0 <= p <= b.len(),
    ensures
        skip_trivia(b, p, fid) matches Ok(q) ==> p <= q <= b.len(),
    decreases b.len() - p,
{
    lemma_skip_space(b, p);
    let q = skip_space(b, p);
    if comment_opens(b, q) {
        lemma_skip_comment_body(b, q + 2, 1);
        match skip_comment_body(b, q + 2, 1) {
            None => {},
            Some(r) => if p < r <= b.len() {
                lemma_skip_trivia(b, r, fid);
            },
        }
    }
}

// ── UTF-8 ────────────────────────────────────────────────────────────

pub open spec fn is_cont(c: u8) -> bool {
    128 <= c < 192
}

pub open spec fn valid_scalar(v: u32) -> bool {
    v <= 0x10FFFF && !(0xD800 <= v <= 0xDFFF)
}

/// The code point encoded at `p` and its width in bytes.
pub open spec fn raw_code_point(b: Seq<u8>, p: int) -> Option<(u32, int)> {
    let b0 = b[p];
    if b0 < 128 {
        Some((b0 as u32, 1))
    } else if 192 <= b0 < 224 && p + 1 < b.len() && is_cont(b[p + 1]) {
        Some(((((b0 & 31u8) as u32) << 6u32) | ((b[p + 1] & 63u8) as u32), 2))
    } else if 224 <= b0 < 240 && p + 2 < b.len() && is_cont(b[p + 1]) && is_cont(b[p + 2]) {
        Some(((((b0 & 15u8) as u32) << 12u32) | (((b[p + 1] & 63u8) as u32) << 6u32) | ((b[p + 2]
            & 63u8) as u32), 3))
    } else if 240 <= b0 < 248 && p + 3 < b.len() && is_cont(b[p + 1]) && is_cont(b[p + 2])
        && is_cont(b[p + 3]) {
        Some(((((b0 & 7u8) as u32) << 18u32) | (((b[p + 1] & 63u8) as u32) << 12u32) | (((b[p
            + 2] & 63u8) as u32) << 6u32) | ((b[p + 3] & 63u8) as u32), 4))
    } else {
        None
    }
}

/// The character starting at byte `p` and its width; a malformed sequence
/// reads as U+FFFD of width one.
pub open spec fn decode_char(b: Seq<u8>, p: int) -> (char, int) {
    match raw_code_point(b, p) {
        Some((v, w)) => if valid_scalar(v) {
            (v as char, w)
        } else {
            ('\u{FFFD}', 1)
        },
        None => ('\u{FFFD}', 1),
    }
}

/// `char::from_u32`: the character with the given scalar value.
#[verifier::external_body]
pub(crate) fn char_from_u32(v: u32) -> (r: Option<char>)
    ensures
        r == (if valid_scalar(v) { Some(v as char) } else { None }),
{
    char::from_u32(v)
}

pub(crate) fn decode_char_exec(b: &[u8], p: usize) -> (r: (char, usize))
    requires
        p < b@.len(),
    ensures
        r.0 == decode_char(b@, p as int).0,
        r.1 == decode_char(b@, p as int).1,
        1 <= r.1 <= 4,
{
    let b0 = b[p];
    let raw: Option<(u32, usize)> = if b0 < 128 {
        Some((b0 as u32, 1))
    } else if b0 >= 192 && b0 < 224 && b.len() - p > 1 && b[p + 1] >= 128 && b[p + 1] < 192 {
        Some(((((b0 & 31u8) as u32) << 6u32) | ((b[p + 1] & 63u8) as u32), 2))
    } else if b0 >= 224 && b0 < 240 && b.len() - p > 2 && b[p + 1] >= 128 && b[p + 1] < 192
        && b[p + 2] >= 128 && b[p + 2] < 192 {
        Some(((((b0 & 15u8) as u32) << 12u32) | (((b[p + 1] & 63u8) as u32) << 6u32) | ((b[p
            + 2] & 63u8) as u32), 3))
    } else if b0 >= 240 && b0 < 248 && b.len() - p > 3 && b[p + 1] >= 128 && b[p + 1] < 192
        && b[p + 2] >= 128 && b[p + 2] < 192 && b[p + 3] >= 128 && b[p + 3] < 192 {
        Some(((((b0 & 7u8) as u32) << 18u32) | (((b[p + 1] & 63u8) as u32) << 12u32) | (((b[p
            + 2] & 63u8) as u32) << 6u32) | ((b[p + 3] & 63u8) as u32), 4))
    } else {
        None
    };
    match raw {
        Some((v, w)) => match char_from_u32(v) {
            Some(c) => (c, w),
            None => ('\u{FFFD}', 1),
        },
        None => ('\u{FFFD}', 1),
    }
}

// ── Numeric values ───────────────────────────────────────────────────

/// The value of a sequence of decimal digit bytes.
pub open spec fn dec_value(d: Seq<u8>) -> nat
    decreases d.len(),
{
    if d.len() == 0 {
        0
    } else {
        dec_value(d.drop_last()) * 10 + ((d.last() - 48) as nat)
    }
}

/// The value of a sequence of hexadecimal digit bytes.
pub open spec fn hex_value(d: Seq<u8>) -> nat
    decreases d.len(),
{
    if d.len() == 0 {
        0
    } else {
        hex_value(d.drop_last()) * 16 + (match spec_hex_digit(d.last()) {
            Some(v) => v as nat,
            None => 0,
        })
    }
}

proof fn lemma_dec_value_mono(b: Seq<u8>, s: int, i: int, j: int)
    requires
        0 <= s <= i <= j <= b.len(),
        forall|k: int| s <= k < j ==> is_digit(#[trigger] b[k]),
    ensures
        dec_value(b.subrange(s, i)) <= dec_value(b.subrange(s, j)),
    decreases j - i,
{
    if i < j {
        lemma_dec_value_mono(b, s, i, j - 1);
        assert(b.subrange(s, j).drop_last() == b.subrange(s, j - 1));
    }
}

proof fn lemma_hex_value_mono(b: Seq<u8>, s: int, i: int, j: int)
    requires
        0 <= s <= i <= j <= b.len(),
    ensures
        hex_value(b.subrange(s, i)) <= hex_value(b.subrange(s, j)),
    decreases j - i,
{
    if i < j {
        lemma_hex_value_mono(b, s, i, j - 1);
        assert(b.subrange(s, j).drop_last() == b.subrange(s, j - 1));
    }
}

/// Parses the decimal digits `b[s..e]`, failing when the value exceeds `bound`.
fn parse_dec(b: &[u8], s: usize, e: usize, bound: u64) -> (r: Option<u64>)
    requires
        s <= e <= b@.len(),
        forall|k: int| s <= k < e ==> is_digit(#[trigger] b@[k]),
    ensures
        r == (if dec_value(b@.subrange(s as int, e as int)) <= bound {
            Some(dec_value(b@.subrange(s as int, e as int)) as u64)
        } else {
            None
        }),
{
    let mut acc: u64 = 0;
    let mut i = s;
    assert(b@.subrange(s as int, s as int).len() == 0);
    while i < e
        invariant
            s <= i <= e <= b@.len(),
            forall|k: int| s <= k < e ==> is_digit(#[trigger] b@[k]),
            acc == dec_value(b@.subrange(s as int, i as int)),
            acc <= bound,
        decreases e - i,
    {
        let d = (b[i] - 48) as u64;
        assert(b@.subrange(s as int, i + 1).drop_last() == b@.subrange(s as int, i as int));
        assert(is_digit(b@[i as int]));
        if d > bound {
            assert(acc * 10 + d > bound) by (nonlinear_arith)
                requires d > bound, acc >= 0;
            proof { lemma_dec_value_mono(b@, s as int, i + 1, e as int); }
            return None;
        }
        if acc > (bound - d) / 10 {
            assert(acc * 10 + d > bound) by (nonlinear_arith)
                requires acc > (bound - d) / 10, d <= 9, d <= bound;
            proof { lemma_dec_value_mono(b@, s as int, i + 1, e as int); }
            return None;
        }
        assert(acc * 10 + d <= bound) by (nonlinear_arith)
            requires acc <= (bound - d) / 10, d <= bound;
        acc = acc * 10 + d;
        i = i + 1;
    }
    Some(acc)
}

/// Parses the hexadecimal digits `b[s..e]`, failing when the value exceeds `u64::MAX`.
fn parse_hex(b: &[u8], s: usize, e: usize) -> (r: Option<u64>)
    requires
        s <= e <= b@.len(),
        forall|k: int| s <= k < e ==> spec_hex_digit(#[trigger] b@[k]) is Some,
    ensures
        r == (if hex_value(b@.subrange(s as int, e as int)) <= u64::MAX {
            Some(hex_value(b@.subrange(s as int, e as int)) as u64)
        } else {
            None
        }),
{
    let mut acc: u64 = 0;
    let mut i = s;
    assert(b@.subrange(s as int, s as int).len() == 0);
    while i < e
        invariant
            s <= i <= e <= b@.len(),
            forall|k: int| s <= k < e ==> spec_hex_digit(#[trigger] b@[k]) is Some,
            acc == hex_value(b@.subrange(s as int, i as int)),
        decreases e - i,
    {
        let d: u64 = match hex_digit(b[i]) {
            Some(v) => v as u64,
            None => 0,
        };
        assert(b@.subrange(s as int, i + 1).drop_last() == b@.subrange(s as int, i as int));
        assert(d <= 15);
        if acc > (u64::MAX - d) / 16 {
            assert(acc * 16 + d > u64::MAX) by (nonlinear_arith)
                requires acc > (u64::MAX - d) / 16, d <= 15;
            proof { lemma_hex_value_mono(b@, s as int, i + 1, e as int); }
            return None;
        }
        assert(acc * 16 + d <= u64::MAX) by (nonlinear_arith)
            requires acc <= (u64::MAX - d) / 16, d <= 15;
        acc = acc * 16 + d;
        i = i + 1;
    }
    Some(acc)
}

/// The characters of the ASCII byte range `b[s..e]` as a string.
fn ascii_string(b: &[u8], s: usize, e: usize) -> (r: String)
    requires
        s <= e <= b@.len(),
    ensures
        r@ == ascii_text(b@, s as int, e as int),
{
    let mut out = String::new();
    let mut i = s;
    while i < e
        invariant
            s <= i <= e <= b@.len(),
            out@ == ascii_text(b@, s as int, i as int),
        decreases e - i,
    {
        push_char(&mut out, b[i] as char);
        assert(ascii_text(b@, s as int, i + 1) == ascii_text(b@, s as int, i as int).push(
            b@[i as int] as char,
        ));
        i = i + 1;
    }
    out
}

// ── Token rules ──────────────────────────────────────────────────────

/// An escape sequence whose backslash is at `p`, inside a literal opened at `ls`.
pub open spec fn lex_escape(b: Seq<u8>, ls: int, p: int, fid: u32) -> Result<(char, int), LexErr> {
    let p1 = p + 1;
    if p1 >= b.len() {
        Err(mk_err("unterminated escape sequence"@, fid, ls, p1))
    } else {
        let c = b[p1];
        if c == 110 {
            Ok(('\n', p1 + 1))
        } else if c == 116 {
            Ok(('\t', p1 + 1))
        } else if c == 114 {
            Ok(('\r', p1 + 1))
        } else if c == 48 {
            Ok(('\0', p1 + 1))
        } else if c == 92 {
            Ok(('\\', p1 + 1))
        } else if c == 34 {
            Ok(('"', p1 + 1))
        } else if c == 120 {
            if p1 + 2 >= b.len() {
                Err(mk_err("incomplete \\x escape"@, fid, ls, p1))
            } else {
                match (spec_hex_digit(b[p1 + 1]), spec_hex_digit(b[p1 + 2])) {
                    (Some(h), Some(l)) => Ok((((h * 16 + l) as u8) as char, p1 + 3)),
                    _ => Err(mk_err("invalid hex digit in \\x escape"@, fid, ls, p1)),
                }
            }
        } else {
            Err(mk_err("unknown escape sequence: \\"@.push(c as char), fid, p1 - 1, p1 + 1))
        }
    }
}

/// The rest of a string literal opened at `s`, scanning from `p` with the
/// characters `acc` read so far.
pub open spec fn lex_string_body(b: Seq<u8>, s: int, p: int, acc: Seq<char>, fid: u32) -> Result<
    (Tok, int),
    LexErr,
>
    decreases b.len() - p,
{
    if !(0 <= p < b.len()) {
        Err(mk_err("unterminated string literal"@, fid, s, p))
    } else if b[p] == 34 {
        Ok((mk_tok(TokKind::StringLit(acc), fid, s, p + 1), p + 1))
    } else if b[p] == 92 {
        match lex_escape(b, s, p, fid) {
            Err(e) => Err(e),
            Ok((c, q)) => lex_string_body(b, s, q, acc.push(c), fid),
        }
    } else {
        lex_string_body(b, s, p + decode_char(b, p).1, acc.push(decode_char(b, p).0), fid)
    }
}

/// A character literal `#"c"` opened at `s`.
pub open spec fn lex_char(b: Seq<u8>, s: int, fid: u32) -> Result<(Tok, int), LexErr> {
    let p = s + 2;
    if p >= b.len() {
        Err(mk_err("unterminated character literal"@, fid, s, p))
    } else {
        let r: Result<(char, int), LexErr> = if b[p] == 92 {
            lex_escape(b, s, p, fid)
        } else {
            Ok((decode_char(b, p).0, p + decode_char(b, p).1))
        };
        match r {
            Err(e) => Err(e),
            Ok((c, q)) => if q >= b.len() || b[q] != 34 {
                Err(mk_err("unterminated character literal, expected closing \""@, fid, s, q))
            } else {
                Ok((mk_tok(TokKind::CharLit(c), fid, s, q + 1), q + 1))
            },
        }
    }
}

/// A number starting at `s`: an integer, a float (kept as text) or a word.
pub open spec fn lex_number(b: Seq<u8>, s: int, fid: u32) -> Result<(Tok, int), LexErr> {
    if b[s] == 48 && byte_at(b, s + 1) == Some(119u8) {
        let p = s + 2;
        if p < b.len() && (b[p] == 120 || b[p] == 88) {
            let hs = p + 1;
            let e = skip_hex(b, hs);
            if e == hs {
                Err(mk_err("expected hex digits after 0wx"@, fid, s, e))
            } else if hex_value(b.subrange(hs, e)) <= u64::MAX {
                Ok((mk_tok(TokKind::WordLit(hex_value(b.subrange(hs, e)) as u64), fid, s, e), e))
            } else {
                Err(mk_err("word literal overflow: 0wx"@ + ascii_text(b, hs, e), fid, s, e))
            }
        } else {
            let e = skip_digits(b, p);
            if e == p {
                Err(mk_err("expected digits after 0w"@, fid, s, e))
            } else if dec_value(b.subrange(p, e)) <= u64::MAX {
                Ok((mk_tok(TokKind::WordLit(dec_value(b.subrange(p, e)) as u64), fid, s, e), e))
            } else {
                Err(mk_err("word literal overflow: 0w"@ + ascii_text(b, p, e), fid, s, e))
            }
        }
    } else {
        let p1 = skip_digits(b, s);
        let has_frac = p1 < b.len() && b[p1] == 46 && p1 + 1 < b.len() && is_digit(b[p1 + 1]);
        let p2 = if has_frac {
            skip_digits(b, p1 + 1)
        } else {
            p1
        };
        if p2 < b.len() && (b[p2] == 101 || b[p2] == 69) {
            let p3 = if p2 + 1 < b.len() && (b[p2 + 1] == 43 || b[p2 + 1] == 45) {
                p2 + 2
            } else {
                p2 + 1
            };
            if p3 >= b.len() || !is_digit(b[p3]) {
                Err(mk_err("expected digits after exponent"@, fid, s, p3))
            } else {
                let p4 = skip_digits(b, p3);
                Ok((mk_tok(TokKind::FloatLit(ascii_text(b, s, p4)), fid, s, p4), p4))
            }
        } else if has_frac {
            Ok((mk_tok(TokKind::FloatLit(ascii_text(b, s, p2)), fid, s, p2), p2))
        } else if dec_value(b.subrange(s, p2)) <= i64::MAX {
            Ok((mk_tok(TokKind::IntLit(dec_value(b.subrange(s, p2)) as i64), fid, s, p2), p2))
        } else {
            Err(mk_err("invalid integer literal: "@ + ascii_text(b, s, p2), fid, s, p2))
        }
    }
}

/// A type variable `'name` starting at `s`.
pub open spec fn lex_tyvar(b: Seq<u8>, s: int, fid: u32) -> (Tok, int) {
    let e = skip_ident(b, s + 1);
    (mk_tok(TokKind::TyVar(ascii_text(b, s, e)), fid, s, e), e)
}

/// An identifier, keyword or `_` starting at `s`.
pub open spec fn lex_ident(b: Seq<u8>, s: int, fid: u32) -> (Tok, int) {
    let e = skip_ident(b, s);
    let text = ascii_text(b, s, e);
    let k = if text == "_"@ {
        TokKind::Underscore
    } else {
        match spec_keyword(text) {
            Some(k) => k,
            None => if is_upper(b[s]) {
                TokKind::UpperIdent(text)
            } else {
                TokKind::Ident(text)
            },
        }
    };
    (mk_tok(k, fid, s, e), e)
}

/// The operator or delimiter starting at `s`, with its length.
pub open spec fn op_at(b: Seq<u8>, s: int) -> Option<(TokKind, int)> {
    let c = b[s];
    let n1 = byte_at(b, s + 1);
    let n2 = byte_at(b, s + 2);
    if c == 40 {
        Some((TokKind::LParen, 1))
    } else if c == 41 {
        Some((TokKind::RParen, 1))
    } else if c == 91 {
        Some((TokKind::LBracket, 1))
    } else if c == 93 {
        Some((TokKind::RBracket, 1))
    } else if c == 44 {
        Some((TokKind::Comma, 1))
    } else if c == 46 {
        Some((TokKind::Dot, 1))
    } else if c == 59 {
        Some((TokKind::Semicolon, 1))
    } else if c == 126 {
        Some((TokKind::Tilde, 1))
    } else if c == 35 {
        Some((TokKind::Hash, 1))
    } else if c == 94 {
        Some((TokKind::Caret, 1))
    } else if c == 124 {
        if n1 == Some(62u8) { Some((TokKind::PipeGt, 2)) } else { Some((TokKind::Bar, 1)) }
    } else if c == 58 {
        if n1 == Some(58u8) {
            Some((TokKind::ColonColon, 2))
        } else if n1 == Some(62u8) {
            Some((TokKind::ColonGt, 2))
        } else {
            Some((TokKind::Colon, 1))
        }
    } else if c == 61 {
        if n1 == Some(62u8) { Some((TokKind::Arrow, 2)) } else { Some((TokKind::Eq, 1)) }
    } else if c == 45 {
        if n1 == Some(62u8) {
            Some((TokKind::ThinArrow, 2))
        } else if n1 == Some(46u8) {
            Some((TokKind::MinusDot, 2))
        } else {
            Some((TokKind::Minus, 1))
        }
    } else if c == 43 {
        if n1 == Some(46u8) { Some((TokKind::PlusDot, 2)) } else { Some((TokKind::Plus, 1)) }
    } else if c == 42 {
        if n1 == Some(46u8) { Some((TokKind::StarDot, 2)) } else { Some((TokKind::Star, 1)) }
    } else if c == 47 {
        if n1 == Some(46u8) { Some((TokKind::SlashDot, 2)) } else { Some((TokKind::Slash, 1)) }
    } else if c == 60 {
        if n1 == Some(62u8) {
            Some((TokKind::Ne, 2))
        } else if n1 == Some(61u8) {
            if n2 == Some(46u8) { Some((TokKind::LeDot, 3)) } else { Some((TokKind::Le, 2)) }
        } else if n1 == Some(46u8) {
            Some((TokKind::LtDot, 2))
        } else {
            Some((TokKind::Lt, 1))
        }
    } else if c == 62 {
        if n1 == Some(61u8) {
            if n2 == Some(46u8) { Some((TokKind::GeDot, 3)) } else { Some((TokKind::Ge, 2)) }
        } else if n1 == Some(46u8) {
            Some((TokKind::GtDot, 2))
        } else {
            Some((TokKind::Gt, 1))
        }
    } else {
        None
    }
}

/// The operator or delimiter token starting at `s`.
pub open spec fn lex_op(b: Seq<u8>, s: int, fid: u32) -> Result<(Tok, int), LexErr> {
    match op_at(b, s) {
        Some((k, n)) => Ok((mk_tok(k, fid, s, s + n), s + n)),
        None => Err(
            mk_err(
                "unexpected character: '"@.push(b[s] as char).push('\''),
                fid,
                s,
                s + 1,
            ),
        ),
    }
}

/// True when a type variable starts at `p` (a quote then a letter or `_`).
pub open spec fn tyvar_starts(b: Seq<u8>, p: int) -> bool {
    b[p] == 39 && match byte_at(b, p + 1) {
        Some(d) => is_alpha(d) || d == 95,
        None => false,
    }
}

/// The next token at or after position `pos`, with the position after it.
pub open spec fn next_token(b: Seq<u8>, pos: int, fid: u32) -> Result<(Tok, int), LexErr> {
    match skip_trivia(b, pos, fid) {
        Err(e) => Err(e),
        Ok(p) => if p >= b.len() {
            Ok((mk_tok(TokKind::Eof, fid, p, p), p))
        } else {
            let c = b[p];
            if c == 34 {
                lex_string_body(b, p, p + 1, Seq::empty(), fid)
            } else if c == 35 && byte_at(b, p + 1) == Some(34u8) {
                lex_char(b, p, fid)
            } else if is_digit(c) {
                lex_number(b, p, fid)
            } else if tyvar_starts(b, p) {
                Ok(lex_tyvar(b, p, fid))
            } else if is_alpha(c) || c == 95 {
                Ok(lex_ident(b, p, fid))
            } else {
                lex_op(b, p, fid)
            }
        },
    }
}

// ── Executable scanning ──────────────────────────────────────────────

fn is_digit_byte(c: u8) -> (r: bool)
    ensures
        r == is_digit(c),
{
    c >= 48 && c <= 57
}

fn is_alpha_byte(c: u8) -> (r: bool)
    ensures
        r == is_alpha(c),
{
    (c >= 65 && c <= 90) || (c >= 97 && c <= 122)
}

fn scan_digits(b: &[u8], p: usize) -> (r: usize)
    requires
        p <= b@.len(),
    ensures
        r == skip_digits(b@, p as int),
        p <= r <= b@.len(),
        forall|i: int| p <= i < r ==> is_digit(#[trigger] b@[i]),
{
    proof { lemma_skip_digits(b@, p as int); }
    let mut q = p;
    while q < b.len() && is_digit_byte(b[q])
        invariant
            p <= q <= b@.len(),
            skip_digits(b@, q as int) == skip_digits(b@, p as int),
        decreases b@.len() - q,
    {
        q = q + 1;
    }
    q
}

fn scan_hex(b: &[u8], p: usize) -> (r: usize)
    requires
        p <= b@.len(),
    ensures
        r == skip_hex(b@, p as int),
        p <= r <= b@.len(),
        forall|i: int| p <= i < r ==> spec_hex_digit(#[trigger] b@[i]) is Some,
{
    proof { lemma_skip_hex(b@, p as int); }
    let mut q = p;
    while q < b.len() && hex_digit(b[q]).is_some()
        invariant
            p <= q <= b@.len(),
            skip_hex(b@, q as int) == skip_hex(b@, p as int),
        decreases b@.len() - q,
    {
        q = q + 1;
    }
    q
}

fn scan_ident(b: &[u8], p: usize) -> (r: usize)
    requires
        p <= b@.len(),
    ensures
        r == skip_ident(b@, p as int),
        p <= r <= b@.len(),
{
    proof { lemma_skip_ident(b@, p as int); }
    let mut q = p;
    while q < b.len() && (is_alpha_byte(b[q]) || is_digit_byte(b[q]) || b[q] == 95)
        invariant
            p <= q <= b@.len(),
            skip_ident(b@, q as int) == skip_ident(b@, p as int),
        decreases b@.len() - q,
    {
        q = q + 1;
    }
    q
}

fn scan_space(b: &[u8], p: usize) -> (r: usize)
    requires
        p <= b@.len(),
    ensures
        r == skip_space(b@, p as int),
        p <= r <= b@.len(),
{
    proof { lemma_skip_space(b@, p as int); }
    let mut q = p;
    while q < b.len() && (b[q] == 32 || b[q] == 9 || b[q] == 10 || b[q] == 12 || b[q] == 13)
        invariant
            p <= q <= b@.len(),
            skip_space(b@, q as int) == skip_space(b@, p as int),
        decreases b@.len() - q,
    {
        q = q + 1;
    }
    q
}

fn scan_comment_body(b: &[u8], p0: usize, d0: usize) -> (r: Option<usize>)
    requires
        p0 <= b@.len(),
        d0 <= p0,
    ensures
        skip_comment_body(b@, p0 as int, d0 as nat) == (match r {
            Some(q) => Some(q as int),
            None => None::<int>,
        }),
{
    let mut p = p0;
    let mut d = d0;
    while d > 0
        invariant
            p <= b@.len(),
            d <= p,
            skip_comment_body(b@, p as int, d as nat) == skip_comment_body(
                b@,
                p0 as int,
                d0 as nat,
            ),
        decreases 2 * (b@.len() - p) + d,
    {
        if p >= b.len() {
            return None;
        }
        if p + 1 < b.len() && b[p] == 40 && b[p + 1] == 42 {
            p = p + 2;
            d = d + 1;
        } else if p + 1 < b.len() && b[p] == 42 && b[p + 1] == 41 {
            p = p + 2;
            d = d - 1;
        } else {
            p = p + 1;
        }
    }
    Some(p)
}

fn span_of(fid: u32, s: usize, e: usize) -> (r: Span)
    ensures
        r == mk_span(fid, s as int, e as int),
{
    Span { file_id: fid, start: s as u32, end: e as u32 }
}

fn error_at(message: String, fid: u32, s: usize, e: usize) -> (r: LexError)
    ensures
        r@ == mk_err(message@, fid, s as int, e as int),
{
    LexError { message, span: span_of(fid, s, e) }
}

/// The span from `s` to `s + k`, the end taken modulo 2^32 like every offset.
fn span_ahead(fid: u32, s: usize, k: u32) -> (r: Span)
    requires
        k <= 3,
    ensures
        r == mk_span(fid, s as int, s + k),
{
    let start = s as u32;
    let end = start.wrapping_add(k);
    proof {
        assert(((s + k) as u32) == ((s as u32) + k) as u32) by (bit_vector)
            requires
                k <= 3,
        ;
        if start + k > u32::MAX {
            assert(end == (start + k - 0x1_0000_0000) as u32);
            assert((start + k - 0x1_0000_0000) as u32 == (start + k) as u32) by (bit_vector)
                requires
                    start + k > 0xffff_ffff,
                    k <= 3,
            ;
        }
    }
    Span { file_id: fid, start, end }
}

fn token_at(kind: TokenKind, fid: u32, s: usize, e: usize) -> (r: Token)
    ensures
        r@ == mk_tok(kind@, fid, s as int, e as int),
{
    Token { kind, span: span_of(fid, s, e) }
}

fn scan_trivia(b: &[u8], p0: usize, fid: u32) -> (r: Result<usize, LexError>)
    requires
        p0 <= b@.len(),
    ensures
        match (r, skip_trivia(b@, p0 as int, fid)) {
            (Ok(q), Ok(sq)) => q == sq && q <= b@.len(),
            (Err(e), Err(se)) => e@ == se,
            _ => false,
        },
{
    let mut p = p0;
    loop
        invariant
            p0 <= p <= b@.len(),
            skip_trivia(b@, p as int, fid) == skip_trivia(b@, p0 as int, fid),
        decreases b@.len() - p,
    {
        let q = scan_space(b, p);
        if q < b.len() && b.len() - q > 1 && b[q] == 40 && b[q + 1] == 42 {
            proof { lemma_skip_comment_body(b@, q + 2, 1); }
            match scan_comment_body(b, q + 2, 1) {
                None => {
                    return Err(error_at(to_string("unterminated comment"), fid, q, b.len()));
                },
                Some(r) => {
                    if p < r && r <= b.len() {
                        p = r;
                    } else {
                        return Ok(r);
                    }
                },
            }
        } else {
            return Ok(q);
        }
    }
}

/// True when an executable lexing result carries exactly the token (or error)
/// that the rule describes.
pub open spec fn lexed(r: Result<(Token, usize), LexError>, s: Result<(Tok, int), LexErr>) -> bool {
    match (r, s) {
        (Ok((t, q)), Ok((st, sq))) => t@ == st && q == sq,
        (Err(e), Err(se)) => e@ == se,
        _ => false,
    }
}

fn scan_escape(b: &[u8], ls: usize, p: usize, fid: u32) -> (r: Result<(char, usize), LexError>)
    requires
        b@.len() <= usize::MAX,
        ls <= p < b@.len(),
    ensures
        match (r, lex_escape(b@, ls as int, p as int, fid)) {
            (Ok((c, q)), Ok((sc, sq))) => c == sc && q == sq && p < q <= b@.len(),
            (Err(e), Err(se)) => e@ == se,
            _ => false,
        },
{
    let p1 = p + 1;
    if p1 >= b.len() {
        return Err(error_at(to_string("unterminated escape sequence"), fid, ls, p1));
    }
    let c = b[p1];
    if c == 110 {
        Ok(('\n', p1 + 1))
    } else if c == 116 {
        Ok(('\t', p1 + 1))
    } else if c == 114 {
        Ok(('\r', p1 + 1))
    } else if c == 48 {
        Ok(('\0', p1 + 1))
    } else if c == 92 {
        Ok(('\\', p1 + 1))
    } else if c == 34 {
        Ok(('"', p1 + 1))
    } else if c == 120 {
        if b.len() - p1 <= 2 {
            return Err(error_at(to_string("incomplete \\x escape"), fid, ls, p1));
        }
        match (hex_digit(b[p1 + 1]), hex_digit(b[p1 + 2])) {
            (Some(h), Some(l)) => Ok((((h * 16 + l) as u8) as char, p1 + 3)),
            _ => Err(error_at(to_string("invalid hex digit in \\x escape"), fid, ls, p1)),
        }
    } else {
        let mut m = to_string("unknown escape sequence: \\");
        push_char(&mut m, c as char);
        Err(error_at(m, fid, p1 - 1, p1 + 1))
    }
}

fn scan_string(b: &[u8], s: usize, fid: u32) -> (r: Result<(Token, usize), LexError>)
    requires
        b@.len() <= usize::MAX,
        s < b@.len(),
    ensures
        lexed(r, lex_string_body(b@, s as int, s + 1, Seq::empty(), fid)),
{
    let mut p = s + 1;
    let mut value = String::new();
    loop
        invariant
            s < p <= b@.len(),
            b@.len() <= usize::MAX,
            lex_string_body(b@, s as int, p as int, value@, fid) == lex_string_body(
                b@,
                s as int,
                s + 1,
                Seq::empty(),
                fid,
            ),
        decreases b@.len() - p,
    {
        if p >= b.len() {
            return Err(error_at(to_string("unterminated string literal"), fid, s, p));
        }
        if b[p] == 34 {
            return Ok((token_at(TokenKind::StringLit(value), fid, s, p + 1), p + 1));
        }
        if b[p] == 92 {
            match scan_escape(b, s, p, fid) {
                Err(e) => {
                    return Err(e);
                },
                Ok((c, q)) => {
                    push_char(&mut value, c);
                    p = q;
                },
            }
        } else {
            let (c, w) = decode_char_exec(b, p);
            push_char(&mut value, c);
            p = p + w;
        }
    }
}

fn scan_char(b: &[u8], s: usize, fid: u32) -> (r: Result<(Token, usize), LexError>)
    requires
        b@.len() <= usize::MAX,
        s < b@.len(),
    ensures
        lexed(r, lex_char(b@, s as int, fid)),
{
    if b.len() - s <= 2 {
        let span = span_ahead(fid, s, 2);
        return Err(LexError { message: to_string("unterminated character literal"), span });
    }
    let p = s + 2;
    let (c, q) = if b[p] == 92 {
        match scan_escape(b, s, p, fid) {
            Err(e) => {
                return Err(e);
            },
            Ok(x) => x,
        }
    } else {
        let (c, w) = decode_char_exec(b, p);
        (c, p + w)
    };
    if q >= b.len() || b[q] != 34 {
        return Err(
            error_at(
                to_string("unterminated character literal, expected closing \""),
                fid,
                s,
                q,
            ),
        );
    }
    Ok((token_at(TokenKind::CharLit(c), fid, s, q + 1), q + 1))
}

fn scan_tyvar(b: &[u8], s: usize, fid: u32) -> (r: (Token, usize))
    requires
        b@.len() <= usize::MAX,
        s < b@.len(),
    ensures
        r.0@ == lex_tyvar(b@, s as int, fid).0,
        r.1 == lex_tyvar(b@, s as int, fid).1,
        s < r.1 <= b@.len(),
{
    let e = scan_ident(b, s + 1);
    (token_at(TokenKind::TyVar(ascii_string(b, s, e)), fid, s, e), e)
}

fn scan_ident_token(b: &[u8], s: usize, fid: u32) -> (r: (Token, usize))
    requires
        s < b@.len(),
        is_alpha(b@[s as int]) || b@[s as int] == 95,
    ensures
        r.0@ == lex_ident(b@, s as int, fid).0,
        r.1 == lex_ident(b@, s as int, fid).1,
        s < r.1 <= b@.len(),
{
    let e = scan_ident(b, s);
    proof { lemma_skip_ident(b@, s + 1); }
    assert(skip_ident(b@, s as int) == skip_ident(b@, s + 1));
    let text = ascii_string(b, s, e);
    let kind = if crate::text::str_eq(text.as_str(), "_") {
        TokenKind::Underscore
    } else {
        match TokenKind::keyword_from_str(text.as_str()) {
            Some(k) => k,
            None => if b[s] >= 65 && b[s] <= 90 {
                TokenKind::UpperIdent(text)
            } else {
                TokenKind::Ident(text)
            },
        }
    };
    (token_at(kind, fid, s, e), e)
}

fn byte_after(b: &[u8], p: usize, k: usize) -> (r: Option<u8>)
    requires
        p < b@.len(),
        k <= 2,
        b@.len() <= usize::MAX,
    ensures
        r == byte_at(b@, p + k),
{
    if b.len() - p > k {
        Some(b[p + k])
    } else {
        None
    }
}

fn scan_op(b: &[u8], s: usize) -> (r: Option<(TokenKind, usize)>)
    requires
        s < b@.len(),
        b@.len() <= usize::MAX,
    ensures
        match (r, op_at(b@, s as int)) {
            (Some((k, n)), Some((sk, sn))) => k@ == sk && n == sn && 1 <= n <= 3,
            (None, None) => true,
            _ => false,
        },
{
    let c = b[s];
    let n1 = byte_after(b, s, 1);
    let n2 = byte_after(b, s, 2);
    if c == 40 {
        Some((TokenKind::LParen, 1))
    } else if c == 41 {
        Some((TokenKind::RParen, 1))
    } else if c == 91 {
        Some((TokenKind::LBracket, 1))
    } else if c == 93 {
        Some((TokenKind::RBracket, 1))
    } else if c == 44 {
        Some((TokenKind::Comma, 1))
    } else if c == 46 {
        Some((TokenKind::Dot, 1))
    } else if c == 59 {
        Some((TokenKind::Semicolon, 1))
    } else if c == 126 {
        Some((TokenKind::Tilde, 1))
    } else if c == 35 {
        Some((TokenKind::Hash, 1))
    } else if c == 94 {
        Some((TokenKind::Caret, 1))
    } else if c == 124 {
        if n1 == Some(62u8) {
            Some((TokenKind::PipeGt, 2))
        } else {
            Some((TokenKind::Bar, 1))
        }
    } else if c == 58 {
        if n1 == Some(58u8) {
            Some((TokenKind::ColonColon, 2))
        } else if n1 == Some(62u8) {
            Some((TokenKind::ColonGt, 2))
        } else {
            Some((TokenKind::Colon, 1))
        }
    } else if c == 61 {
        if n1 == Some(62u8) {
            Some((TokenKind::Arrow, 2))
        } else {
            Some((TokenKind::Eq, 1))
        }
    } else if c == 45 {
        if n1 == Some(62u8) {
            Some((TokenKind::ThinArrow, 2))
        } else if n1 == Some(46u8) {
            Some((TokenKind::MinusDot, 2))
        } else {
            Some((TokenKind::Minus, 1))
        }
    } else if c == 43 {
        if n1 == Some(46u8) {
            Some((TokenKind::PlusDot, 2))
        } else {
            Some((TokenKind::Plus, 1))
        }
    } else if c == 42 {
        if n1 == Some(46u8) {
            Some((TokenKind::StarDot, 2))
        } else {
            Some((TokenKind::Star, 1))
        }
    } else if c == 47 {
        if n1 == Some(46u8) {
            Some((TokenKind::SlashDot, 2))
        } else {
            Some((TokenKind::Slash, 1))
        }
    } else if c == 60 {
        if n1 == Some(62u8) {
            Some((TokenKind::Ne, 2))
        } else if n1 == Some(61u8) {
            if n2 == Some(46u8) {
                Some((TokenKind::LeDot, 3))
            } else {
                Some((TokenKind::Le, 2))
            }
        } else if n1 == Some(46u8) {
            Some((TokenKind::LtDot, 2))
        } else {
            Some((TokenKind::Lt, 1))
        }
    } else if c == 62 {
        if n1 == Some(61u8) {
            if n2 == Some(46u8) {
                Some((TokenKind::GeDot, 3))
            } else {
                Some((TokenKind::Ge, 2))
            }
        } else if n1 == Some(46u8) {
            Some((TokenKind::GtDot, 2))
        } else {
            Some((TokenKind::Gt, 1))
        }
    } else {
        None
    }
}

fn scan_op_token(b: &[u8], s: usize, fid: u32) -> (r: Result<(Token, usize), LexError>)
    requires
        s < b@.len(),
        b@.len() <= usize::MAX,
    ensures
        lexed(r, lex_op(b@, s as int, fid)),
{
    match scan_op(b, s) {
        Some((k, n)) => Ok((token_at(k, fid, s, s + n), s + n)),
        None => {
            let mut m = to_string("unexpected character: '");
            push_char(&mut m, b[s] as char);
            push_char(&mut m, '\'');
            Err(error_at(m, fid, s, s + 1))
        },
    }
}

fn scan_number(b: &[u8], s: usize, fid: u32) -> (r: Result<(Token, usize), LexError>)
    requires
        s < b@.len(),
        b@.len() <= usize::MAX,
        is_digit(b@[s as int]),
    ensures
        lexed(r, lex_number(b@, s as int, fid)),
{
    if b[s] == 48 && byte_after(b, s, 1) == Some(119u8) {
        let p = s + 2;
        if p < b.len() && (b[p] == 120 || b[p] == 88) {
            let hs = p + 1;
            let e = scan_hex(b, hs);
            if e == hs {
                return Err(error_at(to_string("expected hex digits after 0wx"), fid, s, e));
            }
            match parse_hex(b, hs, e) {
                Some(v) => Ok((token_at(TokenKind::WordLit(v), fid, s, e), e)),
                None => {
                    let mut m = to_string("word literal overflow: 0wx");
                    let digits = ascii_string(b, hs, e);
                    push_str(&mut m, digits.as_str());
                    Err(error_at(m, fid, s, e))
                },
            }
        } else {
            let e = scan_digits(b, p);
            if e == p {
                return Err(error_at(to_string("expected digits after 0w"), fid, s, e));
            }
            match parse_dec(b, p, e, u64::MAX) {
                Some(v) => Ok((token_at(TokenKind::WordLit(v), fid, s, e), e)),
                None => {
                    let mut m = to_string("word literal overflow: 0w");
                    let digits = ascii_string(b, p, e);
                    push_str(&mut m, digits.as_str());
                    Err(error_at(m, fid, s, e))
                },
            }
        }
    } else {
        let p1 = scan_digits(b, s);
        let has_frac = p1 < b.len() && b[p1] == 46 && b.len() - p1 > 1 && is_digit_byte(
            b[p1 + 1],
        );
        let p2 = if has_frac {
            scan_digits(b, p1 + 1)
        } else {
            p1
        };
        if p2 < b.len() && (b[p2] == 101 || b[p2] == 69) {
            let p3 = if b.len() - p2 > 1 && (b[p2 + 1] == 43 || b[p2 + 1] == 45) {
                p2 + 2
            } else {
                p2 + 1
            };
            if p3 >= b.len() || !is_digit_byte(b[p3]) {
                return Err(error_at(to_string("expected digits after exponent"), fid, s, p3));
            }
            let p4 = scan_digits(b, p3);
            Ok((token_at(TokenKind::FloatLit(ascii_string(b, s, p4)), fid, s, p4), p4))
        } else if has_frac {
            Ok((token_at(TokenKind::FloatLit(ascii_string(b, s, p2)), fid, s, p2), p2))
        } else {
            match parse_dec(b, s, p2, 0x7fff_ffff_ffff_ffffu64) {
                Some(v) => Ok((token_at(TokenKind::IntLit(v as i64), fid, s, p2), p2)),
                None => {
                    let mut m = to_string("invalid integer literal: ");
                    let digits = ascii_string(b, s, p2);
                    push_str(&mut m, digits.as_str());
                    Err(error_at(m, fid, s, p2))
                },
            }
        }
    }
}

fn scan_token(b: &[u8], pos: usize, fid: u32) -> (r: Result<(Token, usize), LexError>)
    requires
        pos <= b@.len(),
        b@.len() <= usize::MAX,
    ensures
        lexed(r, next_token(b@, pos as int, fid)),
{
    let p = match scan_trivia(b, pos, fid) {
        Err(e) => {
            return Err(e);
        },
        Ok(p) => p,
    };
    if p >= b.len() {
        return Ok((token_at(TokenKind::Eof, fid, p, p), p));
    }
    let c = b[p];
    if c == 34 {
        scan_string(b, p, fid)
    } else if c == 35 && byte_after(b, p, 1) == Some(34u8) {
        scan_char(b, p, fid)
    } else if is_digit_byte(c) {
        scan_number(b, p, fid)
    } else if c == 39 && match byte_after(b, p, 1) {
        Some(d) => is_alpha_byte(d) || d == 95,
        None => false,
    } {
        let (t, e) = scan_tyvar(b, p, fid);
        Ok((t, e))
    } else if is_alpha_byte(c) || c == 95 {
        let (t, e) = scan_ident_token(b, p, fid);
        Ok((t, e))
    } else {
        scan_op_token(b, p, fid)
    }
}

// ── Whole input ──────────────────────────────────────────────────────

/// All tokens from position `pos` on, ending with the end-of-input token, or
/// the first lexical error.
pub open spec fn lex_all(b: Seq<u8>, pos: int, fid: u32) -> Result<Seq<Tok>, LexErr>
    decreases b.len() - pos,
{
    match next_token(b, pos, fid) {
        Err(e) => Err(e),
        Ok((t, q)) => if t.kind is Eof || !(pos < q <= b.len()) {
            Ok(seq![t])
        } else {
            match lex_all(b, q, fid) {
                Err(e) => Err(e),
                Ok(ts) => Ok(seq![t] + ts),
            }
        },
    }
}

proof fn lemma_keyword_not_eof(s: Seq<char>)
    ensures
        spec_keyword(s) matches Some(k) ==> !(k is Eof),
{
}

proof fn lemma_string_body_span(b: Seq<u8>, s: int, p: int, acc: Seq<char>, fid: u32)
    requires
        0 <= s < p,
    ensures
        lex_string_body(b, s, p, acc, fid) matches Ok((t, q)) ==> p < q <= b.len() && t.span == mk_span(fid, s, q)
            && !(t.kind is Eof),
    decreases b.len() - p,
{
    if !(0 <= p < b.len()) {
    } else if b[p] == 34 {
    } else if b[p] == 92 {
        match lex_escape(b, s, p, fid) {
            Err(e) => {},
            Ok((c, q)) => {
                assert(q > p);
                lemma_string_body_span(b, s, q, acc.push(c), fid);
            },
        }
    } else {
        lemma_string_body_span(b, s, p + decode_char(b, p).1, acc.push(decode_char(b, p).0), fid);
    }
}

/// The token `next_token` finds spans from where whitespace and comments end
/// to the position it returns; only the end-of-input token is empty, and it
/// stands at the end of the input.
proof fn lemma_next_token_span(b: Seq<u8>, pos: int, fid: u32)
    requires
        0 <= pos <= b.len(),
    ensures
        next_token(b, pos, fid) matches Ok((t, q)) ==> (skip_trivia(b, pos, fid) matches Ok(s) && pos <= s <= q
            <= b.len() && t.span == mk_span(fid, s, q) && (t.kind is Eof ==> s == q && q == b.len()) && (!(
        t.kind is Eof) ==> s < q)),
{
    lemma_skip_trivia(b, pos, fid);
    match skip_trivia(b, pos, fid) {
        Err(e) => {},
        Ok(p) => if p >= b.len() {
        } else {
            let c = b[p];
            if c == 34 {
                lemma_string_body_span(b, p, p + 1, Seq::empty(), fid);
            } else if c == 35 && byte_at(b, p + 1) == Some(34u8) {
                if p + 2 < b.len() && b[p + 2] == 92 {
                    match lex_escape(b, p, p + 2, fid) {
                        Ok((ch, q)) => assert(q > p + 2),
                        Err(e) => {},
                    }
                }
            } else if is_digit(c) {
                lemma_skip_digits(b, p);
                lemma_skip_digits(b, p + 1);
                assert(skip_digits(b, p) == skip_digits(b, p + 1));
                if b[p] == 48 && byte_at(b, p + 1) == Some(119u8) {
                    if p + 2 < b.len() && (b[p + 2] == 120 || b[p + 2] == 88) {
                        lemma_skip_hex(b, p + 3);
                    } else {
                        lemma_skip_digits(b, p + 2);
                    }
                } else {
                    let p1 = skip_digits(b, p);
                    if p1 < b.len() && b[p1] == 46 && p1 + 1 < b.len() && is_digit(b[p1 + 1]) {
                        lemma_skip_digits(b, p1 + 1);
                    }
                    let has_frac = p1 < b.len() && b[p1] == 46 && p1 + 1 < b.len() && is_digit(b[p1 + 1]);
                    let p2 = if has_frac {
                        skip_digits(b, p1 + 1)
                    } else {
                        p1
                    };
                    if p2 < b.len() && (b[p2] == 101 || b[p2] == 69) {
                        let p3 = if p2 + 1 < b.len() && (b[p2 + 1] == 43 || b[p2 + 1] == 45) {
                            p2 + 2
                        } else {
                            p2 + 1
                        };
                        if p3 < b.len() {
                            lemma_skip_digits(b, p3);
                        }
                    }
                }
            } else if tyvar_starts(b, p) {
                lemma_skip_ident(b, p + 1);
            } else if is_alpha(c) || c == 95 {
                lemma_skip_ident(b, p + 1);
                assert(is_ident_char(b[p]));
                assert(skip_ident(b, p) == skip_ident(b, p + 1));
                lemma_keyword_not_eof(ascii_text(b, p, skip_ident(b, p)));
            } else {
            }
        },
    }
}

/// What a successful lex gives: one end-of-input token, last, standing empty
/// at the end of the input; every other token non-empty; every token in the
/// input and in its file; each token ending before the next begins.
pub proof fn law_lex_all_tokens(b: Seq<u8>, pos: int, fid: u32)
    requires
        0 <= pos <= b.len(),
        b.len() <= u32::MAX,
    ensures
        lex_all(b, pos, fid) matches Ok(ts) ==> {
            &&& ts.len() >= 1
            &&& ts.last().kind is Eof
            &&& forall|i: int| 0 <= i < ts.len() - 1 ==> !(#[trigger] ts[i].kind is Eof)
            &&& ts.last().span.start == b.len() && ts.last().span.end == b.len()
            &&& forall|i: int| 0 <= i < ts.len() - 1 ==> (#[trigger] ts[i]).span.start < ts[i].span.end
            &&& forall|i: int|
                0 <= i < ts.len() ==> pos <= (#[trigger] ts[i]).span.start <= ts[i].span.end <= b.len()
                    && ts[i].span.file_id == fid
            &&& forall|i: int, j: int|
                0 <= i < j < ts.len() ==> (#[trigger] ts[i]).span.end <= (#[trigger] ts[j]).span.start
        },
    decreases b.len() - pos,
{
    lemma_next_token_span(b, pos, fid);
    lemma_lex_all_step(b, pos, fid);
    match next_token(b, pos, fid) {
        Err(e) => {},
        Ok((t, q)) => {
            let s = skip_trivia(b, pos, fid)->Ok_0;
            assert(t.span.start == s && t.span.end == q);
            if t.kind is Eof || !(pos < q <= b.len()) {
                assert(t.kind is Eof);
            } else {
                law_lex_all_tokens(b, q, fid);
                match lex_all(b, q, fid) {
                    Err(e) => {},
                    Ok(rest) => {
                        let ts = seq![t] + rest;
                        assert(ts.last() == rest.last());
                        assert forall|i: int| 0 <= i < ts.len() - 1 implies !(#[trigger] ts[i].kind is Eof) by {
                            if i > 0 {
                                assert(ts[i] == rest[i - 1]);
                            }
                        }
                        assert forall|i: int| 0 <= i < ts.len() - 1 implies (#[trigger] ts[i]).span.start
                            < ts[i].span.end by {
                            if i > 0 {
                                assert(ts[i] == rest[i - 1]);
                            }
                        }
                        assert forall|i: int| 0 <= i < ts.len() implies pos <= (#[trigger] ts[i]).span.start
                            <= ts[i].span.end <= b.len() && ts[i].span.file_id == fid by {
                            if i > 0 {
                                assert(ts[i] == rest[i - 1]);
                            }
                        }
                        assert forall|i: int, j: int| 0 <= i < j < ts.len() implies (#[trigger] ts[i]).span.end
                            <= (#[trigger] ts[j]).span.start by {
                            assert(ts[j] == rest[j - 1]);
                            if i > 0 {
                                assert(ts[i] == rest[i - 1]);
                            }
                        }
                    },
                }
            }
        },
    }
}

/// `done` followed by what is left, `rest`, makes up the whole result `all`.
pub open spec fn lexed_so_far(
    all: Result<Seq<Tok>, LexErr>,
    done: Seq<Tok>,
    rest: Result<Seq<Tok>, LexErr>,
) -> bool {
    match all {
        Err(e) => rest == Err::<Seq<Tok>, LexErr>(e),
        Ok(a) => rest matches Ok(r) && a == done + r,
    }
}

proof fn lemma_lex_all_step(b: Seq<u8>, pos: int, fid: u32)
    ensures
        next_token(b, pos, fid) matches Ok((t, q)) ==> (if t.kind is Eof || !(pos < q <= b.len()) {
            lex_all(b, pos, fid) == Ok::<Seq<Tok>, LexErr>(seq![t])
        } else {
            lex_all(b, pos, fid) == match lex_all(b, q, fid) {
                Err(e) => Err(e),
                Ok(ts) => Ok(seq![t] + ts),
            }
        }),
        next_token(b, pos, fid) matches Err(e) ==> lex_all(b, pos, fid) == Err::<Seq<Tok>, LexErr>(e),
{
}

/// A lexer over the bytes of a source text.
pub struct Lexer<'src> {
    bytes: &'src [u8],
    pos: usize,
    file_id: u32,
}

impl<'src> Lexer<'src> {
    /// The bytes being lexed.
    pub closed spec fn input(&self) -> Seq<u8> {
        self.bytes@
    }

    /// The current position in the input.
    pub closed spec fn position(&self) -> int {
        self.pos as int
    }

    /// The file id recorded in spans.
    pub closed spec fn file(&self) -> u32 {
        self.file_id
    }

    /// A lexer at the start of `source`.
    pub fn new(source: &'src str, file_id: u32) -> (r: Self)
        ensures
            r.input() == source.spec_bytes(),
            r.position() == 0,
            r.file() == file_id,
    {
        let bytes = source.as_bytes();
        proof {
            vstd::utf8::encode_utf8_decode_utf8(source@);
        }
        Lexer { bytes, pos: 0, file_id }
    }

    /// Lexes the rest of the input: every token up to and including the
    /// end-of-input token, or the first lexical error.
    pub fn tokenize(&mut self) -> (r: Result<Vec<Token>, LexError>)
        requires
            old(self).position() <= old(self).input().len(),
        ensures
            final(self).input() == old(self).input(),
            final(self).position() <= final(self).input().len(),
            final(self).file() == old(self).file(),
            match (r, lex_all(old(self).input(), old(self).position(), old(self).file())) {
                (Ok(v), Ok(ts)) => toks_view(v@) == ts,
                (Err(e), Err(se)) => e@ == se,
                _ => false,
            },
    {
        let b = self.bytes;
        let n = b.len();
        let fid = self.file_id;
        let ghost p0 = self.pos as int;
        let mut tokens: Vec<Token> = Vec::new();
        loop
            invariant
                self.bytes == b,
                self.file_id == fid,
                self.pos <= b@.len() <= usize::MAX,
                old(self).bytes == b,
                old(self).file_id == fid,
                old(self).pos as int == p0,
                lexed_so_far(lex_all(b@, p0, fid), toks_view(tokens@), lex_all(b@, self.pos as int, fid)),
            decreases b@.len() - self.pos,
        {
            let pos = self.pos;
            match scan_token(b, pos, fid) {
                Err(e) => {
                    return Err(e);
                },
                Ok((t, q)) => {
                    let is_eof = match t.kind {
                        TokenKind::Eof => true,
                        _ => false,
                    };
                    let progress = pos < q && q <= b.len();
                    let ghost before = tokens@;
                    let ghost tv = t@;
                    tokens.push(t);
                    proof {
                        assert(toks_view(tokens@) =~= toks_view(before).push(tv));
                        lemma_lex_all_step(b@, pos as int, fid);
                        assert(toks_view(before) + seq![tv] =~= toks_view(before).push(tv));
                        if let Ok(rest) = lex_all(b@, q as int, fid) {
                            assert(toks_view(before) + (seq![tv] + rest) =~= toks_view(before).push(tv) + rest);
                        }
                    }
                    if is_eof || !progress {
                        return Ok(tokens);
                    }
                    self.pos = q;
                },
            }
        }
    }
}

} // verus!
