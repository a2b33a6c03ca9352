//! Printed text read back: the lexer gives back the string a string literal
//! was printed from and the operator an operator was printed from, and each
//! escape sequence reads as its own character.
use vstd::prelude::*;
use crate::syntax::lexer::{
    lex_all,
    comment_opens, decode_char, lex_string_body, mk_tok, next_token, raw_code_point, skip_space, skip_trivia,
    valid_scalar, LexErr, lex_escape, spec_hex_digit, hex_value, lex_op, op_at, byte_at, lex_ident, skip_ident,
    ascii_text, is_ident_char,
};
use crate::syntax::pretty::{binop_text, escape, escape_all, string_text};
use crate::syntax::ast::BinOp;
use crate::syntax::token::{spec_keyword, Tok, TokKind};

verus! {

/// Every character of `s` is ASCII.
pub open spec fn all_ascii(s: Seq<char>) -> bool {
    forall|i: int| 0 <= i < s.len() ==> (#[trigger] s[i] as u32) < 128
}

/// The bytes of an ASCII text, one per character.
pub open spec fn ascii_bytes(t: Seq<char>) -> Seq<u8> {
    t.map_values(|c: char| (c as u32) as u8)
}

proof fn lemma_escape_all_front(c: char, t: Seq<char>)
    ensures
        escape_all(seq![c] + t) == escape(c) + escape_all(t),
    decreases t.len(),
{
    if t.len() == 0 {
        assert(seq![c] + t =~= seq![c]);
        assert(seq![c].drop_last() =~= Seq::<char>::empty());
        assert(escape_all(Seq::<char>::empty()) =~= Seq::<char>::empty());
        assert(escape_all(seq![c]) == escape_all(Seq::<char>::empty()) + escape(c));
        assert(escape(c) + escape_all(t) =~= escape(c));
        assert(escape_all(Seq::<char>::empty()) + escape(c) =~= escape(c));
    } else {
        lemma_escape_all_front(c, t.drop_last());
        assert((seq![c] + t).drop_last() =~= seq![c] + t.drop_last());
        assert((seq![c] + t).last() == t.last());
        assert((escape(c) + escape_all(t.drop_last())) + escape(t.last()) =~= escape(c) + (escape_all(t.drop_last())
            + escape(t.last())));
    }
}

proof fn lemma_lex_escaped(b: Seq<u8>, st: int, p: int, acc: Seq<char>, s: Seq<char>, fid: u32)
    requires
        all_ascii(s),
        0 <= st < p,
        p + escape_all(s).len() < b.len(),
        forall|i: int| 0 <= i < escape_all(s).len() ==> b[p + i] == ((#[trigger] escape_all(s)[i]) as u32) as u8,
        b[p + escape_all(s).len()] == 34,
    ensures
        lex_string_body(b, st, p, acc, fid) == Ok::<(Tok, int), LexErr>(
            (
                mk_tok(TokKind::StringLit(acc + s), fid, st, p + escape_all(s).len() + 1),
                p + escape_all(s).len() + 1,
            ),
        ),
    decreases s.len(),
{
    if s.len() == 0 {
        assert(escape_all(s) =~= Seq::<char>::empty());
        assert(acc + s =~= acc);
    } else {
        reveal_strlit("\\n");
        reveal_strlit("\\t");
        reveal_strlit("\\\\");
        reveal_strlit("\\\"");
        let c = s[0];
        let t = s.drop_first();
        assert(s =~= seq![c] + t);
        lemma_escape_all_front(c, t);
        let e = escape(c);
        let n = e.len() as int;
        assert(escape_all(s) == e + escape_all(t));
        assert(all_ascii(t)) by {
            assert forall|i: int| 0 <= i < t.len() implies (#[trigger] t[i] as u32) < 128 by {
                assert(t[i] == s[i + 1]);
            }
        }
        assert forall|i: int| 0 <= i < escape_all(t).len() implies b[p + n + i] == ((#[trigger] escape_all(
            t,
        )[i]) as u32) as u8 by {
            assert(escape_all(s)[n + i] == escape_all(t)[i]);
        }
        assert(n >= 1);
        assert(escape_all(s)[0] == e[0]);
        assert(b[p + 0] == (escape_all(s)[0] as u32) as u8);
        assert(acc.push(c) + t =~= acc + s);
        if c == '\n' || c == '\t' || c == '\\' || c == '"' {
            assert(n == 2);
            assert(b[p + 1] == (escape_all(s)[1] as u32) as u8);
            assert(escape_all(s)[1] == e[1]);
            assert(b[p] == 92);
            lemma_lex_escaped(b, st, p + 2, acc.push(c), t, fid);
        } else {
            assert(n == 1);
            assert((s[0] as u32) < 128);
            assert(e == seq![c]);
            let v = c as u32;
            assert(v < 128);
            assert(b[p] == v as u8);
            assert((v as u8) as u32 == v) by (bit_vector)
                requires
                    v < 128,
            ;
            vstd::utf8::char_u32_cast(c, v);
            assert(v as char == c);
            assert(((34u8 as u32) as char) == '"');
            assert(((92u8 as u32) as char) == '\\');
            assert(b[p] != 34 && b[p] != 92);
            assert(raw_code_point(b, p) == Some((b[p] as u32, 1int)));
            assert(valid_scalar(b[p] as u32));
            assert(decode_char(b, p) == (c, 1int));
            lemma_lex_escaped(b, st, p + 1, acc.push(c), t, fid);
        }
    }
}

/// Lexing a printed string literal gives back the string: for an ASCII
/// string `s`, the first token of the bytes of `string_text(s)` is the
/// literal `s`, spanning all of them.
pub proof fn law_string_literal_round_trip(s: Seq<char>, fid: u32)
    requires
        all_ascii(s),
    ensures
        next_token(ascii_bytes(string_text(s)), 0, fid) == Ok::<(Tok, int), LexErr>(
            (
                mk_tok(TokKind::StringLit(s), fid, 0, string_text(s).len() as int),
                string_text(s).len() as int,
            ),
        ),
{
    let t = string_text(s);
    let b = ascii_bytes(t);
    reveal_strlit("\"");
    assert(t == seq!['"'] + escape_all(s) + seq!['"']);
    assert(b.len() == t.len());
    assert(b[0] == 34);
    assert(skip_space(b, 0) == 0);
    assert(!comment_opens(b, 0));
    assert(skip_trivia(b, 0, fid) == Ok::<int, LexErr>(0));
    assert forall|i: int| 0 <= i < escape_all(s).len() implies b[1 + i] == ((#[trigger] escape_all(s)[i]) as u32) as u8 by {
        assert(t[1 + i] == escape_all(s)[i]);
    }
    assert(t[1 + escape_all(s).len() as int] == '"');
    lemma_lex_escaped(b, 0, 1, Seq::empty(), s, fid);
    assert(Seq::<char>::empty() + s =~= s);
}

/// The whole lex of a printed ASCII string literal is the literal, spanning
/// all of its bytes, then the end-of-input token at their end.
pub proof fn law_string_literal_lexes_alone(s: Seq<char>, fid: u32)
    requires
        all_ascii(s),
    ensures
        lex_all(ascii_bytes(string_text(s)), 0, fid) == Ok::<Seq<Tok>, LexErr>(
            seq![
                mk_tok(TokKind::StringLit(s), fid, 0, string_text(s).len() as int),
                mk_tok(TokKind::Eof, fid, string_text(s).len() as int, string_text(s).len() as int),
            ],
        ),
{
    let t = string_text(s);
    let b = ascii_bytes(t);
    let n = t.len() as int;
    law_string_literal_round_trip(s, fid);
    assert(b.len() == n);
    assert(n >= 2) by {
        reveal_strlit("\"");
    }
    assert(skip_space(b, n) == n);
    assert(!comment_opens(b, n));
    assert(skip_trivia(b, n, fid) == Ok::<int, LexErr>(n));
    assert(next_token(b, n, fid) == Ok::<(Tok, int), LexErr>((mk_tok(TokKind::Eof, fid, n, n), n)));
    assert(lex_all(b, n, fid) == Ok::<Seq<Tok>, LexErr>(seq![mk_tok(TokKind::Eof, fid, n, n)]));
    assert(seq![mk_tok(TokKind::StringLit(s), fid, 0, n)] + seq![mk_tok(TokKind::Eof, fid, n, n)] =~= seq![
        mk_tok(TokKind::StringLit(s), fid, 0, n),
        mk_tok(TokKind::Eof, fid, n, n),
    ]);
}

} // verus!

verus! {

/// The character an escape sequence reads as, if it reads.
pub open spec fn escape_char(r: Result<(char, int), LexErr>) -> Option<char> {
    match r {
        Ok((c, _)) => Some(c),
        Err(_) => None,
    }
}

/// The letters of the named escapes: `n`, `t`, `r`, `0`, `\` and `"`.
pub open spec fn named_escape_letter(c: u8) -> bool {
    c == 110 || c == 116 || c == 114 || c == 48 || c == 92 || c == 34
}

/// A `\x` escape reads as the character whose code is the value of its two
/// hexadecimal digits, the value those digits have in a `0x` integer
/// literal, and ends after them.
pub proof fn law_hex_escape_value(b: Seq<u8>, ls: int, p: int, fid: u32)
    requires
        0 <= p,
        p + 3 < b.len(),
        b[p] == 92,
        b[p + 1] == 120,
        spec_hex_digit(b[p + 2]) is Some,
        spec_hex_digit(b[p + 3]) is Some,
    ensures
        lex_escape(b, ls, p, fid) is Ok,
        lex_escape(b, ls, p, fid)->Ok_0 == ((hex_value(b.subrange(p + 2, p + 4)) as u8) as char, p + 4),
        hex_value(b.subrange(p + 2, p + 4)) < 256,
        (((hex_value(b.subrange(p + 2, p + 4)) as u8) as char) as u32) == hex_value(b.subrange(p + 2, p + 4)),
{
    let d = b.subrange(p + 2, p + 4);
    assert(d.drop_last().drop_last() =~= Seq::<u8>::empty());
    assert(d.drop_last().last() == b[p + 2]);
    assert(d.last() == b[p + 3]);
    let h = spec_hex_digit(b[p + 2])->Some_0;
    let l = spec_hex_digit(b[p + 3])->Some_0;
    assert(h < 16 && l < 16);
    assert(hex_value(d.drop_last().drop_last()) == 0);
    assert(hex_value(d.drop_last()) == h as nat);
    assert(hex_value(d) == h * 16 + l);
}

/// A named escape reads as the same character as the `\x` escape of that
/// character's code: `\n` as `\x0A`, `\t` as `\x09`, `\r` as `\x0D`, `\0` as
/// `\x00`, `\\` as `\x5C` and `\"` as `\x22`.
pub proof fn law_named_escape_is_hex_escape(
    b: Seq<u8>,
    ls: int,
    p: int,
    b2: Seq<u8>,
    ls2: int,
    p2: int,
    fid: u32,
)
    requires
        0 <= p,
        p + 1 < b.len(),
        b[p] == 92,
        0 <= p2,
        p2 + 3 < b2.len(),
        b2[p2] == 92,
        b2[p2 + 1] == 120,
        (b[p + 1] == 110 && b2[p2 + 2] == 48 && b2[p2 + 3] == 65)
            || (b[p + 1] == 116 && b2[p2 + 2] == 48 && b2[p2 + 3] == 57)
            || (b[p + 1] == 114 && b2[p2 + 2] == 48 && b2[p2 + 3] == 68)
            || (b[p + 1] == 48 && b2[p2 + 2] == 48 && b2[p2 + 3] == 48)
            || (b[p + 1] == 92 && b2[p2 + 2] == 53 && b2[p2 + 3] == 67)
            || (b[p + 1] == 34 && b2[p2 + 2] == 50 && b2[p2 + 3] == 50),
    ensures
        escape_char(lex_escape(b, ls, p, fid)) is Some,
        escape_char(lex_escape(b, ls, p, fid)) == escape_char(lex_escape(b2, ls2, p2, fid)),
{
    law_hex_escape_value(b2, ls2, p2, fid);
}

/// The named escapes read as six different characters: two named escapes
/// with different letters never read as the same character.
pub proof fn law_named_escapes_distinct(b: Seq<u8>, ls: int, p: int, b2: Seq<u8>, ls2: int, p2: int, fid: u32)
    requires
        0 <= p,
        p + 1 < b.len(),
        b[p] == 92,
        0 <= p2,
        p2 + 1 < b2.len(),
        b2[p2] == 92,
        named_escape_letter(b[p + 1]),
        named_escape_letter(b2[p2 + 1]),
        b[p + 1] != b2[p2 + 1],
    ensures
        escape_char(lex_escape(b, ls, p, fid)) is Some,
        escape_char(lex_escape(b2, ls2, p2, fid)) is Some,
        escape_char(lex_escape(b, ls, p, fid)) != escape_char(lex_escape(b2, ls2, p2, fid)),
{
}

} // verus!

verus! {

/// The kind of the token that the printed text of `op` lexes as.
pub open spec fn printed_op_token(op: BinOp) -> TokKind {
    match next_token(ascii_bytes(binop_text(op)), 0, 0) {
        Ok((t, _)) => t.kind,
        Err(_) => TokKind::Eof,
    }
}

proof fn lemma_symbol_token(t: Seq<char>, fid: u32)
    requires
        1 <= t.len() <= 3,
        all_ascii(t),
        t[0] == '<' || t[0] == '>' || t[0] == '=' || t[0] == '+' || t[0] == '-' || t[0] == '*' || t[0] == '/'
            || t[0] == '^',
    ensures
        next_token(ascii_bytes(t), 0, fid) == lex_op(ascii_bytes(t), 0, fid),
{
    let b = ascii_bytes(t);
    assert(b.len() == t.len());
    assert(b[0] == (t[0] as u32) as u8);
    assert(skip_space(b, 0) == 0);
    assert(!comment_opens(b, 0));
    assert(skip_trivia(b, 0, fid) == Ok::<int, LexErr>(0));
}

proof fn lemma_word_token(t: Seq<char>, fid: u32)
    requires
        1 <= t.len(),
        forall|i: int| 0 <= i < t.len() ==> 'a' <= #[trigger] t[i] && t[i] <= 'z',
    ensures
        next_token(ascii_bytes(t), 0, fid) == Ok::<(Tok, int), LexErr>(lex_ident(ascii_bytes(t), 0, fid)),
        lex_ident(ascii_bytes(t), 0, fid).1 == t.len(),
        ascii_text(ascii_bytes(t), 0, t.len() as int) == t,
{
    let b = ascii_bytes(t);
    let n = t.len() as int;
    assert(b.len() == n);
    assert forall|i: int| 0 <= i < n implies (#[trigger] b[i]) as char == t[i] && 97 <= b[i] <= 122 by {
        let v = t[i] as u32;
        assert(97 <= v <= 122);
        assert(b[i] == v as u8);
        assert((v as u8) as u32 == v) by (bit_vector)
            requires
                v < 128,
        ;
        vstd::utf8::char_u32_cast(t[i], v);
    }
    assert(skip_space(b, 0) == 0);
    assert(!comment_opens(b, 0));
    assert(skip_trivia(b, 0, fid) == Ok::<int, LexErr>(0));
    lemma_skip_word(b, 0);
    assert(ascii_text(b, 0, n) =~= t);
}

proof fn lemma_skip_word(b: Seq<u8>, p: int)
    requires
        0 <= p <= b.len(),
        forall|i: int| 0 <= i < b.len() ==> 97 <= #[trigger] b[i] <= 122,
    ensures
        skip_ident(b, p) == b.len(),
    decreases b.len() - p,
{
    if p < b.len() {
        assert(is_ident_char(b[p]));
        lemma_skip_word(b, p + 1);
    }
}

} // verus!

verus! {

proof fn lemma_keyword_mod()
    ensures
        "mod"@ != "_"@,
        spec_keyword("mod"@) == Some(TokKind::Mod),
{
    reveal_strlit("mod");
    reveal_strlit("_");
    reveal_strlit("val");
    assert("mod"@[0] != "val"@[0]);
    reveal_strlit("fun");
    assert("mod"@[0] != "fun"@[0]);
    reveal_strlit("fn");
    assert("mod"@.len() != "fn"@.len());
    reveal_strlit("let");
    assert("mod"@[0] != "let"@[0]);
    reveal_strlit("in");
    assert("mod"@.len() != "in"@.len());
    reveal_strlit("end");
    assert("mod"@[0] != "end"@[0]);
    reveal_strlit("if");
    assert("mod"@.len() != "if"@.len());
    reveal_strlit("then");
    assert("mod"@.len() != "then"@.len());
    reveal_strlit("else");
    assert("mod"@.len() != "else"@.len());
    reveal_strlit("case");
    assert("mod"@.len() != "case"@.len());
    reveal_strlit("of");
    assert("mod"@.len() != "of"@.len());
    reveal_strlit("datatype");
    assert("mod"@.len() != "datatype"@.len());
    reveal_strlit("type");
    assert("mod"@.len() != "type"@.len());
    reveal_strlit("local");
    assert("mod"@.len() != "local"@.len());
    reveal_strlit("and");
    assert("mod"@[0] != "and"@[0]);
    reveal_strlit("rec");
    assert("mod"@[0] != "rec"@[0]);
    reveal_strlit("use");
    assert("mod"@[0] != "use"@[0]);
    reveal_strlit("structure");
    assert("mod"@.len() != "structure"@.len());
    reveal_strlit("struct");
    assert("mod"@.len() != "struct"@.len());
    reveal_strlit("signature");
    assert("mod"@.len() != "signature"@.len());
    reveal_strlit("sig");
    assert("mod"@[0] != "sig"@[0]);
    reveal_strlit("true");
    assert("mod"@.len() != "true"@.len());
    reveal_strlit("false");
    assert("mod"@.len() != "false"@.len());
    reveal_strlit("not");
    assert("mod"@[0] != "not"@[0]);
    reveal_strlit("andalso");
    assert("mod"@.len() != "andalso"@.len());
    reveal_strlit("orelse");
    assert("mod"@.len() != "orelse"@.len());
    reveal_strlit("_");
    assert("mod"@.len() != "_"@.len());
}

proof fn lemma_keyword_andalso()
    ensures
        "andalso"@ != "_"@,
        spec_keyword("andalso"@) == Some(TokKind::Andalso),
{
    reveal_strlit("andalso");
    reveal_strlit("_");
    reveal_strlit("val");
    assert("andalso"@.len() != "val"@.len());
    reveal_strlit("fun");
    assert("andalso"@.len() != "fun"@.len());
    reveal_strlit("fn");
    assert("andalso"@.len() != "fn"@.len());
    reveal_strlit("let");
    assert("andalso"@.len() != "let"@.len());
    reveal_strlit("in");
    assert("andalso"@.len() != "in"@.len());
    reveal_strlit("end");
    assert("andalso"@.len() != "end"@.len());
    reveal_strlit("if");
    assert("andalso"@.len() != "if"@.len());
    reveal_strlit("then");
    assert("andalso"@.len() != "then"@.len());
    reveal_strlit("else");
    assert("andalso"@.len() != "else"@.len());
    reveal_strlit("case");
    assert("andalso"@.len() != "case"@.len());
    reveal_strlit("of");
    assert("andalso"@.len() != "of"@.len());
    reveal_strlit("datatype");
    assert("andalso"@.len() != "datatype"@.len());
    reveal_strlit("type");
    assert("andalso"@.len() != "type"@.len());
    reveal_strlit("local");
    assert("andalso"@.len() != "local"@.len());
    reveal_strlit("and");
    assert("andalso"@.len() != "and"@.len());
    reveal_strlit("rec");
    assert("andalso"@.len() != "rec"@.len());
    reveal_strlit("use");
    assert("andalso"@.len() != "use"@.len());
    reveal_strlit("structure");
    assert("andalso"@.len() != "structure"@.len());
    reveal_strlit("struct");
    assert("andalso"@.len() != "struct"@.len());
    reveal_strlit("signature");
    assert("andalso"@.len() != "signature"@.len());
    reveal_strlit("sig");
    assert("andalso"@.len() != "sig"@.len());
    reveal_strlit("true");
    assert("andalso"@.len() != "true"@.len());
    reveal_strlit("false");
    assert("andalso"@.len() != "false"@.len());
    reveal_strlit("not");
    assert("andalso"@.len() != "not"@.len());
    reveal_strlit("_");
    assert("andalso"@.len() != "_"@.len());
}

proof fn lemma_keyword_orelse()
    ensures
        "orelse"@ != "_"@,
        spec_keyword("orelse"@) == Some(TokKind::Orelse),
{
    reveal_strlit("orelse");
    reveal_strlit("_");
    reveal_strlit("val");
    assert("orelse"@.len() != "val"@.len());
    reveal_strlit("fun");
    assert("orelse"@.len() != "fun"@.len());
    reveal_strlit("fn");
    assert("orelse"@.len() != "fn"@.len());
    reveal_strlit("let");
    assert("orelse"@.len() != "let"@.len());
    reveal_strlit("in");
    assert("orelse"@.len() != "in"@.len());
    reveal_strlit("end");
    assert("orelse"@.len() != "end"@.len());
    reveal_strlit("if");
    assert("orelse"@.len() != "if"@.len());
    reveal_strlit("then");
    assert("orelse"@.len() != "then"@.len());
    reveal_strlit("else");
    assert("orelse"@.len() != "else"@.len());
    reveal_strlit("case");
    assert("orelse"@.len() != "case"@.len());
    reveal_strlit("of");
    assert("orelse"@.len() != "of"@.len());
    reveal_strlit("datatype");
    assert("orelse"@.len() != "datatype"@.len());
    reveal_strlit("type");
    assert("orelse"@.len() != "type"@.len());
    reveal_strlit("local");
    assert("orelse"@.len() != "local"@.len());
    reveal_strlit("and");
    assert("orelse"@.len() != "and"@.len());
    reveal_strlit("rec");
    assert("orelse"@.len() != "rec"@.len());
    reveal_strlit("use");
    assert("orelse"@.len() != "use"@.len());
    reveal_strlit("structure");
    assert("orelse"@.len() != "structure"@.len());
    reveal_strlit("struct");
    assert("orelse"@[0] != "struct"@[0]);
    reveal_strlit("signature");
    assert("orelse"@.len() != "signature"@.len());
    reveal_strlit("sig");
    assert("orelse"@.len() != "sig"@.len());
    reveal_strlit("true");
    assert("orelse"@.len() != "true"@.len());
    reveal_strlit("false");
    assert("orelse"@.len() != "false"@.len());
    reveal_strlit("not");
    assert("orelse"@.len() != "not"@.len());
    reveal_strlit("andalso");
    assert("orelse"@.len() != "andalso"@.len());
    reveal_strlit("_");
    assert("orelse"@.len() != "_"@.len());
}

/// The token each operator's printed text lexes as, spanning all of it.
pub(crate) proof fn lemma_printed_op(op: BinOp, fid: u32)
    ensures
        next_token(ascii_bytes(binop_text(op)), 0, fid) == Ok::<(Tok, int), LexErr>(
            (
                mk_tok(printed_op_token(op), fid, 0, binop_text(op).len() as int),
                binop_text(op).len() as int,
            ),
        ),
        printed_op_token(op) == match op {
            BinOp::AddInt => TokKind::Plus,
            BinOp::SubInt => TokKind::Minus,
            BinOp::MulInt => TokKind::Star,
            BinOp::DivInt => TokKind::Slash,
            BinOp::AddFloat => TokKind::PlusDot,
            BinOp::SubFloat => TokKind::MinusDot,
            BinOp::MulFloat => TokKind::StarDot,
            BinOp::DivFloat => TokKind::SlashDot,
            BinOp::ConcatStr => TokKind::Caret,
            BinOp::LtInt => TokKind::Lt,
            BinOp::GtInt => TokKind::Gt,
            BinOp::LeInt => TokKind::Le,
            BinOp::GeInt => TokKind::Ge,
            BinOp::LtFloat => TokKind::LtDot,
            BinOp::GtFloat => TokKind::GtDot,
            BinOp::LeFloat => TokKind::LeDot,
            BinOp::GeFloat => TokKind::GeDot,
            BinOp::Eq => TokKind::Eq,
            BinOp::Ne => TokKind::Ne,
            BinOp::ModInt => TokKind::Mod,
            BinOp::Andalso => TokKind::Andalso,
            BinOp::Orelse => TokKind::Orelse,
        },
{
    match op {
        BinOp::AddInt => {
            reveal_strlit("+");
            lemma_symbol_token(binop_text(op), fid);
            lemma_symbol_token(binop_text(op), 0);
            assert(printed_op_token(op) == TokKind::Plus);
        },
        BinOp::SubInt => {
            reveal_strlit("-");
            lemma_symbol_token(binop_text(op), fid);
            lemma_symbol_token(binop_text(op), 0);
            assert(printed_op_token(op) == TokKind::Minus);
        },
        BinOp::MulInt => {
            reveal_strlit("*");
            lemma_symbol_token(binop_text(op), fid);
            lemma_symbol_token(binop_text(op), 0);
            assert(printed_op_token(op) == TokKind::Star);
        },
        BinOp::DivInt => {
            reveal_strlit("/");
            lemma_symbol_token(binop_text(op), fid);
            lemma_symbol_token(binop_text(op), 0);
            assert(printed_op_token(op) == TokKind::Slash);
        },
        BinOp::AddFloat => {
            reveal_strlit("+.");
            lemma_symbol_token(binop_text(op), fid);
            lemma_symbol_token(binop_text(op), 0);
            assert(printed_op_token(op) == TokKind::PlusDot);
        },
        BinOp::SubFloat => {
            reveal_strlit("-.");
            lemma_symbol_token(binop_text(op), fid);
            lemma_symbol_token(binop_text(op), 0);
            assert(printed_op_token(op) == TokKind::MinusDot);
        },
        BinOp::MulFloat => {
            reveal_strlit("*.");
            lemma_symbol_token(binop_text(op), fid);
            lemma_symbol_token(binop_text(op), 0);
            assert(printed_op_token(op) == TokKind::StarDot);
        },
        BinOp::DivFloat => {
            reveal_strlit("/.");
            lemma_symbol_token(binop_text(op), fid);
            lemma_symbol_token(binop_text(op), 0);
            assert(printed_op_token(op) == TokKind::SlashDot);
        },
        BinOp::ConcatStr => {
            reveal_strlit("^");
            lemma_symbol_token(binop_text(op), fid);
            lemma_symbol_token(binop_text(op), 0);
            assert(printed_op_token(op) == TokKind::Caret);
        },
        BinOp::LtInt => {
            reveal_strlit("<");
            lemma_symbol_token(binop_text(op), fid);
            lemma_symbol_token(binop_text(op), 0);
            assert(printed_op_token(op) == TokKind::Lt);
        },
        BinOp::GtInt => {
            reveal_strlit(">");
            lemma_symbol_token(binop_text(op), fid);
            lemma_symbol_token(binop_text(op), 0);
            assert(printed_op_token(op) == TokKind::Gt);
        },
        BinOp::LeInt => {
            reveal_strlit("<=");
            lemma_symbol_token(binop_text(op), fid);
            lemma_symbol_token(binop_text(op), 0);
            assert(printed_op_token(op) == TokKind::Le);
        },
        BinOp::GeInt => {
            reveal_strlit(">=");
            lemma_symbol_token(binop_text(op), fid);
            lemma_symbol_token(binop_text(op), 0);
            assert(printed_op_token(op) == TokKind::Ge);
        },
        BinOp::LtFloat => {
            reveal_strlit("<.");
            lemma_symbol_token(binop_text(op), fid);
            lemma_symbol_token(binop_text(op), 0);
            assert(printed_op_token(op) == TokKind::LtDot);
        },
        BinOp::GtFloat => {
            reveal_strlit(">.");
            lemma_symbol_token(binop_text(op), fid);
            lemma_symbol_token(binop_text(op), 0);
            assert(printed_op_token(op) == TokKind::GtDot);
        },
        BinOp::LeFloat => {
            reveal_strlit("<=.");
            lemma_symbol_token(binop_text(op), fid);
            lemma_symbol_token(binop_text(op), 0);
            assert(printed_op_token(op) == TokKind::LeDot);
        },
        BinOp::GeFloat => {
            reveal_strlit(">=.");
            lemma_symbol_token(binop_text(op), fid);
            lemma_symbol_token(binop_text(op), 0);
            assert(printed_op_token(op) == TokKind::GeDot);
        },
        BinOp::Eq => {
            reveal_strlit("=");
            lemma_symbol_token(binop_text(op), fid);
            lemma_symbol_token(binop_text(op), 0);
            assert(printed_op_token(op) == TokKind::Eq);
        },
        BinOp::Ne => {
            reveal_strlit("<>");
            lemma_symbol_token(binop_text(op), fid);
            lemma_symbol_token(binop_text(op), 0);
            assert(printed_op_token(op) == TokKind::Ne);
        },
        BinOp::ModInt => {
            reveal_strlit("mod");
            lemma_word_token(binop_text(op), fid);
            lemma_word_token(binop_text(op), 0);
            lemma_keyword_mod();
            assert(printed_op_token(op) == TokKind::Mod);
        },
        BinOp::Andalso => {
            reveal_strlit("andalso");
            lemma_word_token(binop_text(op), fid);
            lemma_word_token(binop_text(op), 0);
            lemma_keyword_andalso();
            assert(printed_op_token(op) == TokKind::Andalso);
        },
        BinOp::Orelse => {
            reveal_strlit("orelse");
            lemma_word_token(binop_text(op), fid);
            lemma_word_token(binop_text(op), 0);
            lemma_keyword_orelse();
            assert(printed_op_token(op) == TokKind::Orelse);
        },
    }
}

} // verus!

verus! {

/// Each operator prints as text that lexes as a single token spanning all of
/// it.
pub proof fn law_operator_text_is_one_token(op: BinOp, fid: u32)
    ensures
        next_token(ascii_bytes(binop_text(op)), 0, fid) == Ok::<(Tok, int), LexErr>(
            (
                mk_tok(printed_op_token(op), fid, 0, binop_text(op).len() as int),
                binop_text(op).len() as int,
            ),
        ),
{
    lemma_printed_op(op, fid);
}

/// Different operators print as texts that lex as different tokens, so the
/// printed text of an operator determines it.
pub proof fn law_operator_tokens_distinct(a: BinOp, b: BinOp)
    requires
        a != b,
    ensures
        printed_op_token(a) != printed_op_token(b),
        binop_text(a) != binop_text(b),
{
    lemma_printed_op(a, 0);
    lemma_printed_op(b, 0);
}

} // verus!
