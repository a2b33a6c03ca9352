//! The source formatter: comments are collected from the text, checked to
//! stand where the formatter keeps them (before a declaration, or after one
//! on its last line), and printed back with the program.
use vstd::prelude::*;
use vstd::string::StringSliceAdditionalSpecFns;
use crate::syntax::ast::{Decl, DeclKind, Program};
use crate::syntax::lexer::{decode_char, decode_char_exec, LexError, Lexer};
use crate::syntax::parser::{lemma_simple_program_tokens, simple_program, ParseError, Parser};
use crate::syntax::pretty::{
    blank_line, emit_decl, ensure_blank_line, nest, pretty_decl, push_spaces, spaces, Comment,
};
use crate::syntax::span::Span;
use crate::syntax::token::{toks_view, TokenKind};
use crate::text::{pop_char, push_char, push_str, to_string};

verus! {

// ── Lines ────────────────────────────────────────────────────────────────

/// The offsets at which the lines of `b[..n]` start.
pub open spec fn line_starts(b: Seq<u8>, n: int) -> Seq<usize>
    decreases n,
{
    if n <= 0 {
        seq![0usize]
    } else if b[n - 1] == 10 {
        line_starts(b, n - 1).push(n as usize)
    } else {
        line_starts(b, n - 1)
    }
}

/// How many of `offs` are at most `byte`.
pub open spec fn count_at_most(offs: Seq<usize>, byte: nat) -> nat
    decreases offs.len(),
{
    if offs.len() == 0 {
        0
    } else {
        count_at_most(offs.drop_last(), byte) + if offs.last() <= byte {
            1nat
        } else {
            0nat
        }
    }
}

/// The line holding `byte`, given the sorted offsets at which lines start.
pub open spec fn line_index(offs: Seq<usize>, byte: nat) -> nat {
    let k = count_at_most(offs, byte);
    if k == 0 {
        0
    } else {
        (k - 1) as nat
    }
}

// ── Whitespace ───────────────────────────────────────────────────────────

/// Unicode white space, as `char::is_whitespace` reads it.
pub open spec fn is_ws(c: char) -> bool {
    let v = c as u32;
    (9 <= v <= 13) || v == 32 || v == 0x85 || v == 0xA0 || v == 0x1680 || (0x2000 <= v <= 0x200A)
        || v == 0x2028 || v == 0x2029 || v == 0x202F || v == 0x205F || v == 0x3000
}

pub open spec fn trim_start(s: Seq<char>) -> Seq<char>
    decreases s.len(),
{
    if s.len() > 0 && is_ws(s[0]) {
        trim_start(s.drop_first())
    } else {
        s
    }
}

pub open spec fn trim_end(s: Seq<char>) -> Seq<char>
    decreases s.len(),
{
    if s.len() > 0 && is_ws(s.last()) {
        trim_end(s.drop_last())
    } else {
        s
    }
}

/// `s` without white space at either end.
pub open spec fn trim(s: Seq<char>) -> Seq<char> {
    trim_end(trim_start(s))
}

/// `b` without its trailing newlines.
pub open spec fn trim_newlines(b: Seq<char>) -> Seq<char>
    decreases b.len(),
{
    if b.len() > 0 && b.last() == '\n' {
        trim_newlines(b.drop_last())
    } else {
        b
    }
}

// ── Collecting comments ──────────────────────────────────────────────────

/// Where a string or character literal whose body starts at `p` ends.
pub open spec fn literal_end(b: Seq<u8>, p: int) -> int
    decreases b.len() - p,
{
    if p >= b.len() || p < 0 {
        p
    } else if b[p] == 92 {
        literal_end(b, if p + 2 <= b.len() { p + 2 } else { b.len() as int })
    } else if b[p] == 34 {
        p + 1
    } else {
        literal_end(b, p + 1)
    }
}

/// Where a comment whose body starts at `p`, `depth` levels deep, ends (the
/// end of the input when it is not closed).
pub open spec fn comment_end(b: Seq<u8>, p: int, depth: nat) -> int
    decreases b.len() - p,
{
    if p >= b.len() || p < 0 || depth == 0 {
        p
    } else if b[p] == 40 && p + 1 < b.len() && b[p + 1] == 42 {
        comment_end(b, p + 2, depth + 1)
    } else if b[p] == 42 && p + 1 < b.len() && b[p + 1] == 41 {
        comment_end(b, p + 2, (depth - 1) as nat)
    } else {
        comment_end(b, p + 1, depth)
    }
}

pub proof fn lemma_literal_end(b: Seq<u8>, p: int)
    requires
        0 <= p <= b.len(),
    ensures
        p <= literal_end(b, p) <= b.len(),
    decreases b.len() - p,
{
    if p < b.len() {
        if b[p] == 92 {
            lemma_literal_end(b, if p + 2 <= b.len() { p + 2 } else { b.len() as int });
        } else if b[p] != 34 {
            lemma_literal_end(b, p + 1);
        }
    }
}

pub proof fn lemma_comment_end(b: Seq<u8>, p: int, depth: nat)
    requires
        0 <= p <= b.len(),
    ensures
        p <= comment_end(b, p, depth) <= b.len(),
    decreases b.len() - p,
{
    if p < b.len() && depth > 0 {
        if b[p] == 40 && p + 1 < b.len() && b[p + 1] == 42 {
            lemma_comment_end(b, p + 2, depth + 1);
        } else if b[p] == 42 && p + 1 < b.len() && b[p + 1] == 41 {
            lemma_comment_end(b, p + 2, (depth - 1) as nat);
        } else {
            lemma_comment_end(b, p + 1, depth);
        }
    }
}

/// The characters decoded from the bytes `b[s..e]`.
pub open spec fn decoded_range(b: Seq<u8>, s: int, e: int) -> Seq<char>
    decreases e - s,
{
    if s < 0 || s >= e || s >= b.len() {
        Seq::empty()
    } else {
        let (c, w) = decode_char(b, s);
        let next = s + if w >= 1 {
            w
        } else {
            1
        };
        seq![c] + if next >= e {
            Seq::empty()
        } else {
            decoded_range(b, next, e)
        }
    }
}

/// The comment occupying `b[s..e]`.
pub open spec fn comment_at(b: Seq<u8>, offs: Seq<usize>, s: int, e: int) -> (Seq<char>, u32, u32, nat, nat) {
    (decoded_range(b, s, e), s as u32, e as u32, line_index(offs, s as nat), line_index(offs, e as nat))
}

/// The comments of `b` from `pos` on, skipping string and character
/// literals: text, start and end (as `u32`), first and last line.
pub open spec fn comments_from(b: Seq<u8>, offs: Seq<usize>, pos: int) -> Seq<(Seq<char>, u32, u32, nat, nat)>
    decreases b.len() - pos,
{
    if pos < 0 || pos >= b.len() {
        Seq::empty()
    } else if b[pos] == 34 {
        proof {
            lemma_literal_end(b, pos + 1);
        }
        comments_from(b, offs, literal_end(b, pos + 1))
    } else if b[pos] == 35 && pos + 1 < b.len() && b[pos + 1] == 34 {
        proof {
            lemma_literal_end(b, pos + 2);
        }
        comments_from(b, offs, literal_end(b, pos + 2))
    } else if b[pos] == 40 && pos + 1 < b.len() && b[pos + 1] == 42 {
        let e = comment_end(b, pos + 2, 1);
        proof {
            lemma_comment_end(b, pos + 2, 1);
        }
        seq![comment_at(b, offs, pos, e)] + comments_from(b, offs, e)
    } else {
        comments_from(b, offs, pos + 1)
    }
}

/// The value of a comment.
pub open spec fn comment_view(c: Comment) -> (Seq<char>, u32, u32, nat, nat) {
    (c.text@, c.start, c.end, c.start_line as nat, c.end_line as nat)
}

// ── Where comments may stand ─────────────────────────────────────────────

pub open spec fn in_range(c: Comment, s: u32, e: u32) -> bool {
    c.start >= s && c.end <= e
}

pub open spec fn trails(c: Comment, decl_end: u32, next: u32, line: nat) -> bool {
    c.start >= decl_end && c.start < next && c.start_line == line
}

/// The comment `c` stands where the formatter keeps it among the
/// declarations `ds` of a container spanning `cs..ce`.
pub open spec fn allowed_list(ds: Seq<Decl>, cs: u32, ce: u32, c: Comment, offs: Seq<usize>) -> bool
    decreases ds, 1nat, 0int,
{
    if ds.len() == 0 {
        in_range(c, cs, ce)
    } else {
        allowed_prefix(ds, ds.len() as int, cs, ce, c, offs) || in_range(c, ds.last().span.end, ce)
    }
}

/// `c` stands before, after or inside one of the first `k` declarations.
pub open spec fn allowed_prefix(ds: Seq<Decl>, k: int, cs: u32, ce: u32, c: Comment, offs: Seq<usize>) -> bool
    decreases ds, 0nat, k,
{
    if k <= 0 || k > ds.len() {
        false
    } else {
        let i = k - 1;
        let d = ds[i];
        let cursor = if i == 0 {
            cs
        } else {
            ds[i - 1].span.end
        };
        let next = if i + 1 < ds.len() {
            ds[i + 1].span.start
        } else {
            ce
        };
        allowed_prefix(ds, k - 1, cs, ce, c, offs) || in_range(c, cursor, d.span.start) || trails(
            c,
            d.span.end,
            next,
            line_index(offs, d.span.end as nat),
        ) || allowed_nested(d, c, offs)
    }
}

/// `c` stands where the formatter keeps it inside a structure or local
/// declaration.
pub open spec fn allowed_nested(d: Decl, c: Comment, offs: Seq<usize>) -> bool
    decreases d, 2nat, 0int,
{
    match d.kind {
        DeclKind::Structure { decls, .. } => allowed_list(decls@, d.span.start, d.span.end, c, offs),
        DeclKind::Local(ls, bs) => allowed_list(ls@, d.span.start, d.span.end, c, offs) || allowed_list(
            bs@,
            d.span.start,
            d.span.end,
            c,
            offs,
        ),
        _ => false,
    }
}

/// The first comment that stands where the formatter does not keep
/// comments, if any.
pub open spec fn first_misplaced(p: Program, cs: Seq<Comment>, offs: Seq<usize>, k: int) -> Option<int>
    decreases k,
{
    if k <= 0 || k > cs.len() {
        None
    } else {
        match first_misplaced(p, cs, offs, k - 1) {
            Some(j) => Some(j),
            None => if allowed_list(p.decls@, 0, u32::MAX, cs[k - 1], offs) {
                None
            } else {
                Some(k - 1)
            },
        }
    }
}

// ── Printing with comments ───────────────────────────────────────────────

/// The comments between `after` and `before` (and inside the container).
pub open spec fn leading(cs: Seq<Comment>, after: u32, before: u32, ce: u32) -> Seq<Comment>
    decreases cs.len(),
{
    if cs.len() == 0 {
        Seq::empty()
    } else {
        let r = leading(cs.drop_last(), after, before, ce);
        let c = cs.last();
        if c.start >= after && c.end <= before && c.end <= ce {
            r.push(c)
        } else {
            r
        }
    }
}

/// The comments starting after a declaration's end, on its last line.
pub open spec fn trailing(cs: Seq<Comment>, decl_end: u32, before: u32, ce: u32, line: nat) -> Seq<Comment>
    decreases cs.len(),
{
    if cs.len() == 0 {
        Seq::empty()
    } else {
        let r = trailing(cs.drop_last(), decl_end, before, ce, line);
        let c = cs.last();
        if c.start >= decl_end && c.start < before && c.end <= ce && c.start_line == line {
            r.push(c)
        } else {
            r
        }
    }
}

/// Comments each on its own lines, a blank line kept between groups.
pub open spec fn emit_comments(b: Seq<char>, s: Seq<Comment>, ind: nat) -> Seq<char>
    decreases s.len(),
{
    if s.len() == 0 {
        b
    } else {
        let b1 = emit_comments(b, s.drop_last(), ind);
        let b2 = if s.len() > 1 {
            if s.last().start_line > s[s.len() - 2].end_line + 1 {
                blank_line(b1)
            } else if b1.len() > 0 && b1.last() != '\n' {
                b1.push('\n')
            } else {
                b1
            }
        } else {
            b1
        };
        b2 + spaces(ind) + trim(s.last().text@) + "\n"@
    }
}

/// Trailing comments, each after two spaces.
pub open spec fn trail_text(s: Seq<Comment>) -> Seq<char>
    decreases s.len(),
{
    if s.len() == 0 {
        Seq::empty()
    } else {
        trail_text(s.drop_last()) + "  "@ + trim(s.last().text@)
    }
}

/// The largest of `e` and the comments' ends.
pub open spec fn max_end(e: u32, s: Seq<Comment>) -> u32
    decreases s.len(),
{
    if s.len() == 0 {
        e
    } else {
        let m = max_end(e, s.drop_last());
        if s.last().end > m {
            s.last().end
        } else {
            m
        }
    }
}

/// Where the declaration after the `i`-th starts.
pub open spec fn next_start(ds: Seq<Decl>, i: int) -> u32 {
    if i + 1 < ds.len() {
        ds[i + 1].span.start
    } else {
        u32::MAX
    }
}

/// The text and the cursor after printing the first `k` declarations of a
/// list with their comments.
pub open spec fn list_state(
    b0: Seq<char>,
    ds: Seq<Decl>,
    k: int,
    ind: nat,
    cs: Seq<Comment>,
    offs: Seq<usize>,
    start: u32,
    end: u32,
) -> (Seq<char>, u32)
    decreases ds, 0nat, k,
{
    if k <= 0 || k > ds.len() {
        (b0, start)
    } else {
        let (b, cur) = list_state(b0, ds, k - 1, ind, cs, offs, start, end);
        let i = k - 1;
        let d = ds[i];
        let lead = leading(cs, cur, d.span.start, end);
        let b1 = if i > 0 {
            if lead.len() == 0 {
                blank_line(b)
            } else if !(b.len() > 0 && b.last() == '\n') {
                b.push('\n')
            } else {
                b
            }
        } else {
            b
        };
        let b2 = if i > 0 && lead.len() > 0 && lead[0].start_line > line_index(offs, cur as nat)
            + 1 {
            blank_line(b1)
        } else {
            b1
        };
        let b3 = emit_comments(b2, lead, ind);
        let b4 = emit_decl_c(b3, d, ind, cs, offs);
        let tr = trailing(cs, d.span.end, next_start(ds, i), end, line_index(offs, d.span.end as nat));
        (b4 + trail_text(tr), max_end(d.span.end, tr))
    }
}

/// A list of declarations printed with its comments, the container spanning
/// `start..end`.
pub open spec fn emit_list_c(
    b0: Seq<char>,
    ds: Seq<Decl>,
    ind: nat,
    cs: Seq<Comment>,
    offs: Seq<usize>,
    start: u32,
    end: u32,
) -> Seq<char>
    decreases ds, 1nat, 0int,
{
    let (b, cur) = list_state(b0, ds, ds.len() as int, ind, cs, offs, start, end);
    let rest = leading(cs, cur, end, end);
    let b1 = if rest.len() > 0 && b.len() > 0 && rest[0].start_line > line_index(offs, cur as nat)
        + 1 {
        blank_line(b)
    } else {
        b
    };
    trim_newlines(emit_comments(b1, rest, ind))
}

/// A declaration printed with the comments of the lists it holds.
pub open spec fn emit_decl_c(b: Seq<char>, d: Decl, ind: nat, cs: Seq<Comment>, offs: Seq<usize>) -> Seq<
    char,
>
    decreases d, 2nat, 0int,
{
    match d.kind {
        DeclKind::Local(ls, bs) => {
            let b1 = emit_list_c(
                b + spaces(ind) + "local\n"@,
                ls@,
                nest(ind, 2),
                cs,
                offs,
                d.span.start,
                d.span.end,
            );
            let b2 = if ls@.len() > 0 {
                b1 + "\n"@
            } else {
                b1
            };
            let b3 = emit_list_c(
                b2 + spaces(ind) + "in\n"@,
                bs@,
                nest(ind, 2),
                cs,
                offs,
                d.span.start,
                d.span.end,
            );
            let b4 = if bs@.len() > 0 {
                b3 + "\n"@
            } else {
                b3
            };
            b4 + spaces(ind) + "end"@
        },
        DeclKind::Structure { name, signature, opaque, decls } => {
            let b1 = b + spaces(ind) + "structure "@ + name@ + match signature {
                Some(s) => if opaque {
                    " :> "@ + s@
                } else {
                    " : "@ + s@
                },
                None => Seq::empty(),
            } + " = struct\n"@;
            let b2 = emit_list_c(b1, decls@, nest(ind, 2), cs, offs, d.span.start, d.span.end);
            let b3 = if decls@.len() > 0 {
                b2 + "\n"@
            } else {
                b2
            };
            b3 + spaces(ind) + "end"@
        },
        _ => emit_decl(b, d, ind),
    }
}

/// A program's formatted text: printed with its comments, ending in a
/// newline unless empty.
pub open spec fn formatted(p: Program, cs: Seq<Comment>, offs: Seq<usize>) -> Seq<char> {
    let t = emit_list_c(Seq::empty(), p.decls@, 0, cs, offs, 0, u32::MAX);
    if t.len() > 0 && t.last() != '\n' {
        t.push('\n')
    } else {
        t
    }
}


// ── Executable: lines and comments ───────────────────────────────────────

/// The byte offsets at which the lines of `source` start.
fn line_offsets(source: &str) -> (r: Vec<usize>)
    ensures
        r@ == line_starts(source.spec_bytes(), source.spec_bytes().len() as int),
{
    let bytes = source.as_bytes();
    let mut offsets: Vec<usize> = Vec::new();
    offsets.push(0);
    let mut idx: usize = 0;
    while idx < bytes.len()
        invariant
            idx <= bytes@.len(),
            bytes@ == source.spec_bytes(),
            offsets@ == line_starts(bytes@, idx as int),
        decreases bytes@.len() - idx,
    {
        if bytes[idx] == 10u8 {
            offsets.push(idx + 1);
        }
        idx = idx + 1;
    }
    offsets
}

/// The line holding `byte`.
fn line_for_offsets(offs: &Vec<usize>, byte: usize) -> (r: usize)
    ensures
        r == line_index(offs@, byte as nat),
{
    let mut k: usize = 0;
    let mut i: usize = 0;
    while i < offs.len()
        invariant
            i <= offs@.len(),
            k as nat == count_at_most(offs@.take(i as int), byte as nat),
            k <= i,
        decreases offs@.len() - i,
    {
        assert(offs@.take(i + 1).drop_last() =~= offs@.take(i as int));
        if offs[i] <= byte {
            k = k + 1;
        }
        i = i + 1;
    }
    assert(offs@.take(offs@.len() as int) =~= offs@);
    if k == 0 {
        0
    } else {
        k - 1
    }
}

/// Skips a string or character literal whose body starts at `p`.
fn skip_literal(b: &[u8], p: usize) -> (r: usize)
    requires
        p <= b@.len(),
    ensures
        r == literal_end(b@, p as int),
{
    let mut pos = p;
    while pos < b.len()
        invariant
            p <= pos <= b@.len(),
            literal_end(b@, p as int) == literal_end(b@, pos as int),
        decreases b@.len() - pos,
    {
        if b[pos] == 92u8 {
            pos = if b.len() - pos >= 2 {
                pos + 2
            } else {
                b.len()
            };
        } else if b[pos] == 34u8 {
            return pos + 1;
        } else {
            pos = pos + 1;
        }
    }
    pos
}

/// Skips a comment body starting at `p`, `depth` levels deep.
fn skip_comment(b: &[u8], p: usize) -> (r: usize)
    requires
        p <= b@.len(),
    ensures
        r == comment_end(b@, p as int, 1),
{
    let mut pos = p;
    let mut depth: usize = 1;
    while pos < b.len() && depth > 0
        invariant
            p <= pos <= b@.len(),
            depth <= pos - p + 1,
            comment_end(b@, p as int, 1) == comment_end(b@, pos as int, depth as nat),
        decreases b@.len() - pos,
    {
        if b[pos] == 40u8 && b.len() - pos > 1 && b[pos + 1] == 42u8 {
            depth = depth + 1;
            pos = pos + 2;
        } else if b[pos] == 42u8 && b.len() - pos > 1 && b[pos + 1] == 41u8 {
            depth = depth - 1;
            pos = pos + 2;
        } else {
            pos = pos + 1;
        }
    }
    pos
}

/// The characters decoded from `b[s..e]`.
fn decode_range(b: &[u8], s: usize, e: usize) -> (r: String)
    requires
        e <= b@.len(),
    ensures
        r@ == decoded_range(b@, s as int, e as int),
{
    let mut out = String::new();
    let mut p = s;
    let ghost whole = decoded_range(b@, s as int, e as int);
    assert(out@ + decoded_range(b@, p as int, e as int) =~= whole);
    while p < e
        invariant
            e <= b@.len(),
            whole == decoded_range(b@, s as int, e as int),
            out@ + decoded_range(b@, p as int, e as int) == whole,
        decreases e - p,
    {
        let (c, w) = decode_char_exec(b, p);
        let ghost before = out@;
        push_char(&mut out, c);
        proof {
            if p + w >= e {
                assert(decoded_range(b@, p as int, e as int) =~= seq![c]);
            } else {
                assert(decoded_range(b@, p as int, e as int) =~= seq![c] + decoded_range(
                    b@,
                    p + w,
                    e as int,
                ));
            }
            assert(out@ =~= before.push(c));
        }
        if e - p <= w {
            assert(out@ =~= whole);
            return out;
        }
        p = p + w;
    }
    assert(decoded_range(b@, p as int, e as int) =~= Seq::<char>::empty());
    assert(out@ =~= whole);
    out
}

/// The comments of `source`, skipping string and character literals.
fn collect_comments(source: &str, offs: &Vec<usize>) -> (r: Vec<Comment>)
    ensures
        r@.map_values(|c: Comment| comment_view(c)) == comments_from(source.spec_bytes(), offs@, 0),
{
    let b = source.as_bytes();
    let ghost all = comments_from(b@, offs@, 0);
    let mut comments: Vec<Comment> = Vec::new();
    let mut pos: usize = 0;
    assert(comments@.map_values(|c: Comment| comment_view(c)) + all =~= all);
    while pos < b.len()
        invariant
            pos <= b@.len(),
            b@ == source.spec_bytes(),
            all == comments_from(b@, offs@, 0),
            comments@.map_values(|c: Comment| comment_view(c)) + comments_from(b@, offs@, pos as int)
                == all,
        decreases b@.len() - pos,
    {
        let ghost done = comments@.map_values(|c: Comment| comment_view(c));
        if b[pos] == 34u8 {
            proof {
                lemma_literal_end(b@, pos + 1);
            }
            pos = skip_literal(b, pos + 1);
        } else if b[pos] == 35u8 && b.len() - pos > 1 && b[pos + 1] == 34u8 {
            proof {
                lemma_literal_end(b@, pos + 2);
            }
            pos = skip_literal(b, pos + 2);
        } else if b[pos] == 40u8 && b.len() - pos > 1 && b[pos + 1] == 42u8 {
            let start = pos;
            let end = skip_comment(b, pos + 2);
            proof {
                lemma_comment_end(b@, start + 2, 1);
            }
            let text = decode_range(b, start, end);
            let c = Comment {
                text,
                start: #[verifier::truncate] (start as u32),
                end: #[verifier::truncate] (end as u32),
                start_line: line_for_offsets(offs, start),
                end_line: line_for_offsets(offs, end),
            };
            comments.push(c);
            proof {
                assert(comments@.map_values(|c: Comment| comment_view(c)) =~= done.push(comment_view(c)));
                assert(comment_view(c) == comment_at(b@, offs@, start as int, end as int));
            }
            pos = end;
        } else {
            pos = pos + 1;
        }
    }
    comments
}


// ── Executable: checking where comments stand ────────────────────────────

/// Why formatting failed.
#[derive(Debug)]
pub enum FormatError {
    Lex(LexError),
    Parse(ParseError),
    UnsupportedComment { message: String, span: Span },
    TreeSitter(String),
}

/// The message for a comment the formatter cannot keep in place.
pub const UNSUPPORTED_COMMENT_MESSAGE: &'static str = "formatter only supports declaration-leading comments and short trailing declaration comments; move this comment before the declaration it describes";

fn mark_comments_in_range(start: u32, end: u32, comments: &Vec<Comment>, allowed: &mut Vec<bool>)
    requires
        old(allowed)@.len() == comments@.len(),
    ensures
        final(allowed)@.len() == comments@.len(),
        forall|j: int|
            0 <= j < comments@.len() ==> #[trigger] final(allowed)@[j] == (old(allowed)@[j] || in_range(
                comments@[j],
                start,
                end,
            )),
{
    let ghost before = allowed@;
    let mut idx: usize = 0;
    while idx < comments.len()
        invariant
            idx <= comments@.len(),
            allowed@.len() == comments@.len(),
            before.len() == comments@.len(),
            forall|j: int|
                0 <= j < comments@.len() ==> #[trigger] allowed@[j] == (before[j] || (j < idx
                    && in_range(comments@[j], start, end))),
        decreases comments@.len() - idx,
    {
        let comment = &comments[idx];
        if comment.start >= start && comment.end <= end {
            allowed.set(idx, true);
        }
        idx = idx + 1;
    }
}

fn mark_trailing_decl_comments(
    decl_end: u32,
    next_start: u32,
    comments: &Vec<Comment>,
    offs: &Vec<usize>,
    allowed: &mut Vec<bool>,
)
    requires
        old(allowed)@.len() == comments@.len(),
    ensures
        final(allowed)@.len() == comments@.len(),
        forall|j: int|
            0 <= j < comments@.len() ==> #[trigger] final(allowed)@[j] == (old(allowed)@[j] || trails(
                comments@[j],
                decl_end,
                next_start,
                line_index(offs@, decl_end as nat),
            )),
{
    let line = line_for_offsets(offs, decl_end as usize);
    let ghost before = allowed@;
    let mut idx: usize = 0;
    while idx < comments.len()
        invariant
            idx <= comments@.len(),
            allowed@.len() == comments@.len(),
            before.len() == comments@.len(),
            line == line_index(offs@, decl_end as nat),
            forall|j: int|
                0 <= j < comments@.len() ==> #[trigger] allowed@[j] == (before[j] || (j < idx && trails(
                    comments@[j],
                    decl_end,
                    next_start,
                    line as nat,
                ))),
        decreases comments@.len() - idx,
    {
        let comment = &comments[idx];
        if comment.start >= decl_end && comment.start < next_start && comment.start_line == line {
            allowed.set(idx, true);
        }
        idx = idx + 1;
    }
}

fn mark_allowed_decl_comments(
    decls: &Vec<Decl>,
    container_start: u32,
    container_end: u32,
    comments: &Vec<Comment>,
    offs: &Vec<usize>,
    allowed: &mut Vec<bool>,
)
    requires
        old(allowed)@.len() == comments@.len(),
    ensures
        final(allowed)@.len() == comments@.len(),
        forall|j: int|
            0 <= j < comments@.len() ==> #[trigger] final(allowed)@[j] == (old(allowed)@[j] || allowed_list(
                decls@,
                container_start,
                container_end,
                comments@[j],
                offs@,
            )),
    decreases decls@, 1nat,
{
    if decls.len() == 0 {
        mark_comments_in_range(container_start, container_end, comments, allowed);
        return;
    }
    let ghost before = allowed@;
    let mut cursor = container_start;
    let mut idx: usize = 0;
    while idx < decls.len()
        invariant
            idx <= decls@.len(),
            decls@.len() > 0,
            allowed@.len() == comments@.len(),
            before.len() == comments@.len(),
            cursor == if idx == 0 {
                container_start
            } else {
                decls@[idx - 1].span.end
            },
            forall|j: int|
                0 <= j < comments@.len() ==> #[trigger] allowed@[j] == (before[j] || allowed_prefix(
                    decls@,
                    idx as int,
                    container_start,
                    container_end,
                    comments@[j],
                    offs@,
                )),
        decreases decls@.len() - idx,
    {
        let decl = &decls[idx];
        let next_start = if idx + 1 < decls.len() {
            decls[idx + 1].span.start
        } else {
            container_end
        };
        mark_comments_in_range(cursor, decl.span.start, comments, allowed);
        mark_trailing_decl_comments(decl.span.end, next_start, comments, offs, allowed);
        assert(decreases_to!(decls@ => decls@[idx as int]));
        mark_nested_decl_comments(decl, comments, offs, allowed);
        cursor = decl.span.end;
        idx = idx + 1;
    }
    mark_comments_in_range(cursor, container_end, comments, allowed);
}

fn mark_nested_decl_comments(decl: &Decl, comments: &Vec<Comment>, offs: &Vec<usize>, allowed: &mut Vec<bool>)
    requires
        old(allowed)@.len() == comments@.len(),
    ensures
        final(allowed)@.len() == comments@.len(),
        forall|j: int|
            0 <= j < comments@.len() ==> #[trigger] final(allowed)@[j] == (old(allowed)@[j] || allowed_nested(
                *decl,
                comments@[j],
                offs@,
            )),
    decreases *decl, 2nat,
{
    proof {
        assert(decreases_to!(*decl => decl.kind));
    }
    match &decl.kind {
        DeclKind::Structure { decls, .. } => {
            proof {
                assert(decreases_to!(decl.kind => decl.kind->decls));
                assert(decreases_to!(decl.kind->decls => decls@));
            }
            mark_allowed_decl_comments(
                decls,
                decl.span.start,
                decl.span.end,
                comments,
                offs,
                allowed,
            );
        },
        DeclKind::Local(locals, body) => {
            proof {
                assert(decreases_to!(decl.kind => decl.kind->Local_0));
                assert(decreases_to!(decl.kind->Local_0 => locals@));
                assert(decreases_to!(decl.kind => decl.kind->Local_1));
                assert(decreases_to!(decl.kind->Local_1 => body@));
            }
            let ghost before = allowed@;
            mark_allowed_decl_comments(
                locals,
                decl.span.start,
                decl.span.end,
                comments,
                offs,
                allowed,
            );
            let ghost mid = allowed@;
            mark_allowed_decl_comments(
                body,
                decl.span.start,
                decl.span.end,
                comments,
                offs,
                allowed,
            );
            assert forall|j: int| 0 <= j < comments@.len() implies #[trigger] allowed@[j] == (before[j]
                || allowed_nested(*decl, comments@[j], offs@)) by {
                assert(mid[j] == (before[j] || allowed_list(locals@, decl.span.start, decl.span.end, comments@[j], offs@)));
            }
        },
        _ => {},
    }
}

/// Once found, the first misplaced comment stays the first.
pub proof fn lemma_first_misplaced_stable(p: Program, cs: Seq<Comment>, offs: Seq<usize>, k: int, n: int)
    requires
        0 <= k <= n <= cs.len(),
        first_misplaced(p, cs, offs, k) is Some,
    ensures
        first_misplaced(p, cs, offs, n) == first_misplaced(p, cs, offs, k),
    decreases n - k,
{
    if k < n {
        lemma_first_misplaced_stable(p, cs, offs, k, n - 1);
    }
}

/// The comment the formatter cannot keep in place, if any: none when there
/// are no comments or no declarations.
pub open spec fn misplaced(p: Program, cs: Seq<Comment>, offs: Seq<usize>) -> Option<int> {
    if cs.len() == 0 || p.decls@.len() == 0 {
        None
    } else {
        first_misplaced(p, cs, offs, cs.len() as int)
    }
}

/// Checks that every comment stands where the formatter keeps comments.
fn validate_comment_convention(program: &Program, comments: &Vec<Comment>, offs: &Vec<usize>, file_id: u32) -> (r:
    Result<(), FormatError>)
    ensures
        match misplaced(*program, comments@, offs@) {
            None => r is Ok,
            Some(j) => 0 <= j < comments@.len() && (r matches Err(
                FormatError::UnsupportedComment { message, span },
            ) && message@ == UNSUPPORTED_COMMENT_MESSAGE@ && span == (Span {
                file_id,
                start: comments@[j].start,
                end: comments@[j].end,
            })),
        },
{
    if comments.len() == 0 || program.decls.len() == 0 {
        return Ok(());
    }
    let mut allowed: Vec<bool> = Vec::new();
    let mut k: usize = 0;
    while k < comments.len()
        invariant
            k <= comments@.len(),
            allowed@.len() == k,
            forall|j: int| 0 <= j < k ==> !(#[trigger] allowed@[j]),
        decreases comments@.len() - k,
    {
        allowed.push(false);
        k = k + 1;
    }
    mark_allowed_decl_comments(&program.decls, 0, u32::MAX, comments, offs, &mut allowed);
    let mut idx: usize = 0;
    while idx < comments.len()
        invariant
            idx <= comments@.len(),
            allowed@.len() == comments@.len(),
            forall|j: int|
                0 <= j < comments@.len() ==> #[trigger] allowed@[j] == allowed_list(
                    program.decls@,
                    0,
                    u32::MAX,
                    comments@[j],
                    offs@,
                ),
            first_misplaced(*program, comments@, offs@, idx as int) is None,
            comments@.len() > 0,
            program.decls@.len() > 0,
        decreases comments@.len() - idx,
    {
        if !allowed[idx] {
            proof {
                assert(first_misplaced(*program, comments@, offs@, idx + 1) == Some(idx as int));
                lemma_first_misplaced_stable(*program, comments@, offs@, idx + 1, comments@.len() as int);
            }
            let comment = &comments[idx];
            return Err(
                FormatError::UnsupportedComment {
                    message: to_string(UNSUPPORTED_COMMENT_MESSAGE),
                    span: Span { file_id, start: comment.start, end: comment.end },
                },
            );
        }
        idx = idx + 1;
    }
    Ok(())
}


// ── Executable: printing with comments ───────────────────────────────────

fn is_ws_char(c: char) -> (r: bool)
    ensures
        r == is_ws(c),
{
    let v = c as u32;
    (9 <= v && v <= 13) || v == 32 || v == 0x85 || v == 0xA0 || v == 0x1680 || (0x2000 <= v && v
        <= 0x200A) || v == 0x2028 || v == 0x2029 || v == 0x202F || v == 0x205F || v == 0x3000
}

/// Appends `text` without white space at either end.
pub(crate) fn push_trimmed(buf: &mut String, text: &String)
    ensures
        final(buf)@ == old(buf)@ + trim(text@),
{
    let cs = crate::text::chars_of(text.as_str());
    let n = cs.len();
    let mut a: usize = 0;
    assert(cs@.subrange(0, n as int) =~= cs@);
    while a < n && is_ws_char(cs[a])
        invariant
            a <= n,
            n == cs@.len(),
            cs@ == text@,
            trim_start(cs@) == trim_start(cs@.subrange(a as int, n as int)),
        decreases n - a,
    {
        assert(cs@.subrange(a + 1, n as int) =~= cs@.subrange(a as int, n as int).drop_first());
        a = a + 1;
    }
    assert(trim_start(cs@.subrange(a as int, n as int)) == cs@.subrange(a as int, n as int));
    let mut e: usize = n;
    while e > a && is_ws_char(cs[e - 1])
        invariant
            a <= e <= n,
            n == cs@.len(),
            cs@ == text@,
            trim_end(cs@.subrange(a as int, n as int)) == trim_end(cs@.subrange(a as int, e as int)),
        decreases e,
    {
        assert(cs@.subrange(a as int, e - 1) =~= cs@.subrange(a as int, e as int).drop_last());
        e = e - 1;
    }
    assert(trim_end(cs@.subrange(a as int, e as int)) == cs@.subrange(a as int, e as int));
    crate::text::push_between(buf, &cs, a, e);
}

/// Whether `buf` ends with a newline.
fn ends_with_newline(buf: &mut String) -> (r: bool)
    ensures
        final(buf)@ == old(buf)@,
        r == (old(buf)@.len() > 0 && old(buf)@.last() == '\n'),
{
    let ghost before = buf@;
    match pop_char(buf) {
        Some(c) => {
            push_char(buf, c);
            assert(buf@ =~= before);
            c == '\n'
        },
        None => false,
    }
}

/// Removes the newlines at the end of `buf`.
fn trim_trailing_newlines(buf: &mut String)
    ensures
        final(buf)@ == trim_newlines(old(buf)@),
{
    loop
        invariant
            trim_newlines(buf@) == trim_newlines(old(buf)@),
        ensures
            buf@ == trim_newlines(old(buf)@),
        decreases buf@.len(),
    {
        let ghost before = buf@;
        match pop_char(buf) {
            Some(c) => {
                if c != '\n' {
                    push_char(buf, c);
                    assert(buf@ =~= before);
                    break;
                }
            },
            None => {
                break;
            },
        }
    }
}

/// The positions of the comments between `after` and `before`.
fn leading_indices(comments: &Vec<Comment>, after: u32, before: u32, ce: u32) -> (r: Vec<usize>)
    ensures
        forall|k: int| 0 <= k < r@.len() ==> #[trigger] r@[k] < comments@.len(),
        r@.map_values(|j: usize| comments@[j as int]) == leading(comments@, after, before, ce),
{
    let mut out: Vec<usize> = Vec::new();
    let mut i: usize = 0;
    while i < comments.len()
        invariant
            i <= comments@.len(),
            forall|k: int| 0 <= k < out@.len() ==> #[trigger] out@[k] < i,
            out@.map_values(|j: usize| comments@[j as int]) == leading(
                comments@.take(i as int),
                after,
                before,
                ce,
            ),
        decreases comments@.len() - i,
    {
        let ghost prev = out@;
        assert(comments@.take(i + 1).drop_last() =~= comments@.take(i as int));
        let c = &comments[i];
        if c.start >= after && c.end <= before && c.end <= ce {
            out.push(i);
            assert(out@.map_values(|j: usize| comments@[j as int]) =~= prev.map_values(
                |j: usize| comments@[j as int],
            ).push(comments@[i as int]));
        }
        i = i + 1;
    }
    assert(comments@.take(comments@.len() as int) =~= comments@);
    out
}

/// The positions of the comments starting after a declaration's end, on
/// its last line.
fn trailing_indices(comments: &Vec<Comment>, decl_end: u32, before: u32, ce: u32, line: usize) -> (r: Vec<
    usize,
>)
    ensures
        forall|k: int| 0 <= k < r@.len() ==> #[trigger] r@[k] < comments@.len(),
        r@.map_values(|j: usize| comments@[j as int]) == trailing(
            comments@,
            decl_end,
            before,
            ce,
            line as nat,
        ),
{
    let mut out: Vec<usize> = Vec::new();
    let mut i: usize = 0;
    while i < comments.len()
        invariant
            i <= comments@.len(),
            forall|k: int| 0 <= k < out@.len() ==> #[trigger] out@[k] < i,
            out@.map_values(|j: usize| comments@[j as int]) == trailing(
                comments@.take(i as int),
                decl_end,
                before,
                ce,
                line as nat,
            ),
        decreases comments@.len() - i,
    {
        let ghost prev = out@;
        assert(comments@.take(i + 1).drop_last() =~= comments@.take(i as int));
        let c = &comments[i];
        if c.start >= decl_end && c.start < before && c.end <= ce && c.start_line == line {
            out.push(i);
            assert(out@.map_values(|j: usize| comments@[j as int]) =~= prev.map_values(
                |j: usize| comments@[j as int],
            ).push(comments@[i as int]));
        }
        i = i + 1;
    }
    assert(comments@.take(comments@.len() as int) =~= comments@);
    out
}

/// Writes comments each on its own lines.
fn write_comment_sequence(buf: &mut String, comments: &Vec<Comment>, idx: &Vec<usize>, ind: usize)
    requires
        forall|k: int| 0 <= k < idx@.len() ==> #[trigger] idx@[k] < comments@.len(),
    ensures
        final(buf)@ == emit_comments(old(buf)@, idx@.map_values(|j: usize| comments@[j as int]), ind as nat),
{
    let ghost start = buf@;
    let ghost all = idx@.map_values(|j: usize| comments@[j as int]);
    let mut k: usize = 0;
    while k < idx.len()
        invariant
            k <= idx@.len(),
            all == idx@.map_values(|j: usize| comments@[j as int]),
            forall|m: int| 0 <= m < idx@.len() ==> #[trigger] idx@[m] < comments@.len(),
            buf@ == emit_comments(start, all.take(k as int), ind as nat),
        decreases idx@.len() - k,
    {
        let c = &comments[idx[k]];
        proof {
            let pre = all.take(k + 1);
            assert(pre.drop_last() =~= all.take(k as int));
            assert(pre.last() == *c);
            if k > 0 {
                assert(pre[pre.len() - 2] == comments@[idx@[k - 1] as int]);
            }
        }
        if k > 0 {
            let prev_end_line = comments[idx[k - 1]].end_line;
            if c.start_line > prev_end_line && c.start_line - prev_end_line > 1 {
                ensure_blank_line(buf);
            } else if !buf.as_str().is_empty() && !ends_with_newline(buf) {
                push_char(buf, '\n');
            }
        }
        push_spaces(buf, ind);
        push_trimmed(buf, &c.text);
        push_str(buf, "\n");
        k = k + 1;
    }
    assert(all.take(idx@.len() as int) =~= all);
}

fn line_gap(comments: &Vec<Comment>, offs: &Vec<usize>, first: usize, cursor: u32) -> (r: bool)
    requires
        first < comments@.len(),
    ensures
        r == (comments@[first as int].start_line > line_index(offs@, cursor as nat) + 1),
{
    let line = line_for_offsets(offs, cursor as usize);
    let sl = comments[first].start_line;
    sl > line && sl - line > 1
}

/// Prints a list of declarations with their comments.
fn pretty_list_c(
    buf: &mut String,
    ds: &Vec<Decl>,
    ind: usize,
    comments: &Vec<Comment>,
    offs: &Vec<usize>,
    start: u32,
    end: u32,
)
    ensures
        final(buf)@ == emit_list_c(old(buf)@, ds@, ind as nat, comments@, offs@, start, end),
    decreases ds@, 1nat,
{
    let ghost b0 = buf@;
    let mut cursor = start;
    let mut i: usize = 0;
    while i < ds.len()
        invariant
            i <= ds@.len(),
            (buf@, cursor) == list_state(b0, ds@, i as int, ind as nat, comments@, offs@, start, end),
        decreases ds@.len() - i,
    {
        let d = &ds[i];
        let ghost bs = buf@;
        let lead = leading_indices(comments, cursor, d.span.start, end);
        let ghost lead_s = lead@.map_values(|j: usize| comments@[j as int]);
        if i > 0 {
            if lead.len() == 0 {
                ensure_blank_line(buf);
            } else if !ends_with_newline(buf) {
                push_char(buf, '\n');
            }
        }
        if i > 0 && lead.len() > 0 && line_gap(comments, offs, lead[0], cursor) {
            ensure_blank_line(buf);
        }
        write_comment_sequence(buf, comments, &lead, ind);
        assert(decreases_to!(ds@ => ds@[i as int]));
        pretty_decl_c(buf, d, ind, comments, offs);
        let next = if i + 1 < ds.len() {
            ds[i + 1].span.start
        } else {
            u32::MAX
        };
        let line = line_for_offsets(offs, d.span.end as usize);
        let tr = trailing_indices(comments, d.span.end, next, end, line);
        let ghost tr_s = tr@.map_values(|j: usize| comments@[j as int]);
        let ghost b4 = buf@;
        let mut trailing_end = d.span.end;
        let mut k: usize = 0;
        while k < tr.len()
            invariant
                k <= tr@.len(),
                tr_s == tr@.map_values(|j: usize| comments@[j as int]),
                forall|m: int| 0 <= m < tr@.len() ==> #[trigger] tr@[m] < comments@.len(),
                buf@ == b4 + trail_text(tr_s.take(k as int)),
                trailing_end == max_end(d.span.end, tr_s.take(k as int)),
            decreases tr@.len() - k,
        {
            let c = &comments[tr[k]];
            proof {
                let pre = tr_s.take(k + 1);
                assert(pre.drop_last() =~= tr_s.take(k as int));
                assert(pre.last() == *c);
            }
            push_str(buf, "  ");
            push_trimmed(buf, &c.text);
            if c.end > trailing_end {
                trailing_end = c.end;
            }
            proof {
                assert(buf@ =~= b4 + trail_text(tr_s.take(k + 1)));
            }
            k = k + 1;
        }
        proof {
            assert(tr_s.take(tr@.len() as int) =~= tr_s);
            assert(ds@.take(i + 1).len() == i + 1);
        }
        cursor = trailing_end;
        i = i + 1;
    }
    let rest = leading_indices(comments, cursor, end, end);
    if rest.len() > 0 && !buf.as_str().is_empty() && line_gap(comments, offs, rest[0], cursor) {
        ensure_blank_line(buf);
    }
    write_comment_sequence(buf, comments, &rest, ind);
    trim_trailing_newlines(buf);
}

/// Prints a declaration, with the comments of the lists it holds.
fn pretty_decl_c(buf: &mut String, d: &Decl, ind: usize, comments: &Vec<Comment>, offs: &Vec<usize>)
    ensures
        final(buf)@ == emit_decl_c(old(buf)@, *d, ind as nat, comments@, offs@),
    decreases *d, 2nat,
{
    let inner = crate::syntax::pretty::nest_by(ind, 2);
    proof {
        assert(decreases_to!(*d => d.kind));
    }
    match &d.kind {
        DeclKind::Local(ls, bs) => {
            proof {
                assert(decreases_to!(d.kind => d.kind->Local_0));
                assert(decreases_to!(d.kind->Local_0 => ls@));
                assert(decreases_to!(d.kind => d.kind->Local_1));
                assert(decreases_to!(d.kind->Local_1 => bs@));
            }
            push_spaces(buf, ind);
            push_str(buf, "local\n");
            pretty_list_c(buf, ls, inner, comments, offs, d.span.start, d.span.end);
            if ls.len() > 0 {
                push_str(buf, "\n");
            }
            push_spaces(buf, ind);
            push_str(buf, "in\n");
            pretty_list_c(buf, bs, inner, comments, offs, d.span.start, d.span.end);
            if bs.len() > 0 {
                push_str(buf, "\n");
            }
            push_spaces(buf, ind);
            push_str(buf, "end");
        },
        DeclKind::Structure { name, signature, opaque, decls } => {
            proof {
                assert(decreases_to!(d.kind => d.kind->decls));
                assert(decreases_to!(d.kind->decls => decls@));
            }
            push_spaces(buf, ind);
            push_str(buf, "structure ");
            push_str(buf, name.as_str());
            let ghost before_sig = buf@;
            match signature {
                Some(x) => {
                    if *opaque {
                        push_str(buf, " :> ");
                    } else {
                        push_str(buf, " : ");
                    }
                    push_str(buf, x.as_str());
                },
                None => {},
            }
            proof {
                let sig_text = match signature {
                    Some(x) => if *opaque {
                        " :> "@ + x@
                    } else {
                        " : "@ + x@
                    },
                    None => Seq::<char>::empty(),
                };
                assert(buf@ =~= before_sig + sig_text);
            }
            push_str(buf, " = struct\n");
            pretty_list_c(buf, decls, inner, comments, offs, d.span.start, d.span.end);
            if decls.len() > 0 {
                push_str(buf, "\n");
            }
            push_spaces(buf, ind);
            push_str(buf, "end");
        },
        _ => pretty_decl(buf, d, ind),
    }
}

/// Prints a program with its comments, ending in a newline unless empty.
fn pretty_formatted(prog: &Program, comments: &Vec<Comment>, offs: &Vec<usize>) -> (r: String)
    ensures
        r@ == formatted(*prog, comments@, offs@),
{
    let mut buf = String::new();
    pretty_list_c(&mut buf, &prog.decls, 0, comments, offs, 0, u32::MAX);
    if !buf.as_str().is_empty() && !ends_with_newline(&mut buf) {
        push_char(&mut buf, '\n');
    }
    buf
}


// ── Formatting ───────────────────────────────────────────────────────────

/// Formats a parsed program whose source had the given comments and line
/// offsets: refused when a comment stands where it cannot be kept, else the
/// program's formatted text.
pub fn format_program(program: &Program, comments: &Vec<Comment>, offs: &Vec<usize>, file_id: u32) -> (r:
    Result<String, FormatError>)
    ensures
        match misplaced(*program, comments@, offs@) {
            None => r matches Ok(t) && t@ == formatted(*program, comments@, offs@),
            Some(j) => 0 <= j < comments@.len() && (r matches Err(
                FormatError::UnsupportedComment { message, span },
            ) && message@ == UNSUPPORTED_COMMENT_MESSAGE@ && span == (Span {
                file_id,
                start: comments@[j].start,
                end: comments@[j].end,
            })),
        },
{
    match validate_comment_convention(program, comments, offs, file_id) {
        Err(e) => Err(e),
        Ok(()) => Ok(pretty_formatted(program, comments, offs)),
    }
}

/// Formats source text: it is lexed and parsed, its comments collected and
/// checked, and the program printed back with them.
pub fn format_source(source: &str, file_id: u32) -> (r: Result<String, FormatError>)
    ensures
        crate::syntax::lexer::lex_all(source.spec_bytes(), 0, file_id) is Err <==> r matches Err(
            FormatError::Lex(_),
        ),
        r matches Ok(t) ==> exists|p: Program, cs: Seq<Comment>|
            cs.map_values(|c: Comment| comment_view(c)) == comments_from(
                source.spec_bytes(),
                line_starts(source.spec_bytes(), source.spec_bytes().len() as int),
                0,
            ) && misplaced(p, cs, line_starts(source.spec_bytes(), source.spec_bytes().len() as int))
                is None && t@ == formatted(
                p,
                cs,
                line_starts(source.spec_bytes(), source.spec_bytes().len() as int),
            ),
        crate::syntax::lexer::lex_all(source.spec_bytes(), 0, file_id) matches Ok(ts) ==> (ts.len() == 1
            && ts[0].kind is Eof ==> (r matches Ok(t) && exists|p: Program, cs: Seq<Comment>|
            p.decls@.len() == 0 && cs.map_values(|c: Comment| comment_view(c)) == comments_from(
                source.spec_bytes(),
                line_starts(source.spec_bytes(), source.spec_bytes().len() as int),
                0,
            ) && t@ == formatted(p, cs, line_starts(source.spec_bytes(), source.spec_bytes().len() as int)))),
        r matches Err(FormatError::Parse(_)) ==> crate::syntax::lexer::lex_all(source.spec_bytes(), 0, file_id) is Ok,
        r matches Err(FormatError::UnsupportedComment { message, span }) ==> {
            &&& message@ == UNSUPPORTED_COMMENT_MESSAGE@
            &&& crate::syntax::lexer::lex_all(source.spec_bytes(), 0, file_id) is Ok
            &&& exists|j: int|
                0 <= j < comments_from(
                    source.spec_bytes(),
                    line_starts(source.spec_bytes(), source.spec_bytes().len() as int),
                    0,
                ).len() && span.file_id == file_id && span.start == (#[trigger] comments_from(
                    source.spec_bytes(),
                    line_starts(source.spec_bytes(), source.spec_bytes().len() as int),
                    0,
                )[j]).1 && span.end == comments_from(
                    source.spec_bytes(),
                    line_starts(source.spec_bytes(), source.spec_bytes().len() as int),
                    0,
                )[j].2
        },
        crate::syntax::lexer::lex_all(source.spec_bytes(), 0, file_id) matches Ok(ts) ==> forall|n: nat|
            #![trigger simple_program(ts, 0, n)]
            simple_program(ts, 0, n) && comments_from(
                source.spec_bytes(),
                line_starts(source.spec_bytes(), source.spec_bytes().len() as int),
                0,
            ).len() == 0 ==> (r matches Ok(t) && exists|p: Program|
                p.decls@.len() == n && t@ == formatted(
                    p,
                    Seq::<Comment>::empty(),
                    line_starts(source.spec_bytes(), source.spec_bytes().len() as int),
                )),
{
    let offsets = line_offsets(source);
    let comments = collect_comments(source, &offsets);
    let mut lexer = Lexer::new(source, file_id);
    let tokens = match lexer.tokenize() {
        Ok(tokens) => tokens,
        Err(e) => return Err(FormatError::Lex(e)),
    };
    let ghost ls = line_starts(source.spec_bytes(), source.spec_bytes().len() as int);
    let ghost plain = comments_from(source.spec_bytes(), ls, 0).len() == 0;
    proof {
        if plain {
            assert(comments@.len() == 0);
            assert(comments@ =~= Seq::<Comment>::empty());
        }
    }
    let n = tokens.len();
    let terminated = n > 0 && match &tokens[n - 1].kind {
        TokenKind::Eof => true,
        _ => false,
    };
    if !terminated {
        proof {
            assert forall|k: nat| #[trigger] simple_program(toks_view(tokens@), 0, k) implies false by {
                lemma_simple_program_tokens(tokens@, 0, k);
            }
        }
        return Err(
            FormatError::Parse(
                ParseError {
                    message: to_string("unexpected end of input"),
                    span: Span { file_id, start: 0, end: 0 },
                },
            ),
        );
    }
    proof {
        assert(tokens@[0]@ == toks_view(tokens@)[0]);
    }
    let mut parser = Parser::new(tokens);
    let program = match parser.parse_program() {
        Ok(p) => p,
        Err(e) => {
            proof {
                assert forall|k: nat| #[trigger] simple_program(toks_view(tokens@), 0, k) implies false by {
                    lemma_simple_program_tokens(tokens@, 0, k);
                }
            }
            return Err(FormatError::Parse(e));
        },
    };
    let r = format_program(&program, &comments, &offsets, file_id);
    proof {
        if r is Ok {
            assert(misplaced(program, comments@, offsets@) is None);
        }
        if let Err(FormatError::UnsupportedComment { message, span }) = &r {
            let j = misplaced(program, comments@, offsets@)->0;
            let cv = comments@.map_values(|c: Comment| comment_view(c));
            assert(cv[j] == comment_view(comments@[j]));
        }
        assert forall|k: nat| #[trigger] simple_program(toks_view(tokens@), 0, k) && plain implies (r matches Ok(t)
            && exists|p: Program| p.decls@.len() == k && t@ == formatted(p, Seq::<Comment>::empty(), ls)) by {
            lemma_simple_program_tokens(tokens@, 0, k);
            assert(program.decls@.len() == k);
        }
    }
    r
}

} // verus!
