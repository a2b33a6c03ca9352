//! The pretty-printer: turns a syntax tree back into source text.
//!
//! Its output is described by spec functions over the tree; each printing
//! function is proved to append exactly that text to the buffer.
use vstd::prelude::*;
use crate::syntax::ast::{
    BinOp, ConDecl, Decl, DeclKind, EffectHandler, Expr, ExprKind, FunBinding, FunClause, Pat,
    PatKind, Program, SignatureSpec, TypeExpr, TypeExprKind,
};
use crate::text::{chars_of, pop_char, push_char, push_str};

verus! {

/// A source comment with its byte range and line range.
#[derive(Debug, Clone, PartialEq, Eq)]
pub struct Comment {
    pub text: String,
    pub start: u32,
    pub end: u32,
    pub start_line: usize,
    pub end_line: usize,
}

pub open spec fn pp_type(t: TypeExpr) -> Seq<char>
    decreases t, 1nat,
{
    match t.kind {
        TypeExprKind::Named(s) => s@,
        TypeExprKind::Var(s) => s@,
        TypeExprKind::App(name, args) => if args@.len() == 1 {
            pp_atom_type(args@[0]) + " "@ + name@
        } else {
            "("@ + pp_type_list(args@) + ") "@ + name@
        },
        TypeExprKind::Arrow(lhs, rhs) => pp_arrow_lhs(*lhs) + " -> "@ + pp_type(*rhs),
        TypeExprKind::Tuple(elems) => pp_tuple_elems(elems@),
        TypeExprKind::Paren(inner) => "("@ + pp_type(*inner) + ")"@,
    }
}

pub open spec fn pp_atom_type(t: TypeExpr) -> Seq<char>
    decreases t, 2nat,
{
    match t.kind {
        TypeExprKind::Arrow(_, _) | TypeExprKind::Tuple(_) => "("@ + pp_type(t) + ")"@,
        _ => pp_type(t),
    }
}

pub open spec fn pp_arrow_lhs(t: TypeExpr) -> Seq<char>
    decreases t, 2nat,
{
    match t.kind {
        TypeExprKind::Arrow(_, _) => "("@ + pp_type(t) + ")"@,
        _ => pp_type(t),
    }
}

pub open spec fn pp_type_list(ts: Seq<TypeExpr>) -> Seq<char>
    decreases ts, 0nat,
{
    if ts.len() == 0 {
        Seq::empty()
    } else if ts.len() == 1 {
        pp_type(ts[0])
    } else {
        pp_type_list(ts.drop_last()) + ", "@ + pp_type(ts.last())
    }
}

pub open spec fn pp_tuple_elems(ts: Seq<TypeExpr>) -> Seq<char>
    decreases ts, 0nat,
{
    if ts.len() == 0 {
        Seq::empty()
    } else if ts.len() == 1 {
        pp_atom_type(ts[0])
    } else {
        pp_tuple_elems(ts.drop_last()) + " * "@ + pp_atom_type(ts.last())
    }
}

#[verifier::loop_isolation(false)]
fn pretty_type(buf: &mut String, ty: &TypeExpr)
    ensures
        final(buf)@ == old(buf)@ + pp_type(*ty),
    decreases *ty, 1nat,
{
    match &ty.kind {
        TypeExprKind::Named(s) => push_str(buf, s.as_str()),
        TypeExprKind::Var(s) => push_str(buf, s.as_str()),
        TypeExprKind::App(name, args) => {
            if args.len() == 1 {
                pretty_atom_type(buf, &args[0]);
                push_str(buf, " ");
                push_str(buf, name.as_str());
            } else {
                push_str(buf, "(");
                let ghost start = buf@;
                let mut i: usize = 0;
                while i < args.len()
                    invariant
                        i <= args@.len(),
                        buf@ == start + pp_type_list(args@.take(i as int)),
                    decreases args@.len() - i,
                {
                    proof {
                        assert(args@.take(i + 1).drop_last() =~= args@.take(i as int));
                    }
                    if i > 0 {
                        push_str(buf, ", ");
                    }
                    proof {
                        assert(decreases_to!(*ty => ty.kind));
                        assert(decreases_to!(ty.kind => ty.kind->App_1));
                        assert(decreases_to!(*args => args@));
                        assert(decreases_to!(args@ => args@[i as int]));
                    }
                    pretty_type(buf, &args[i]);
                    i = i + 1;
                }
                assert(args@.take(args@.len() as int) =~= args@);
                push_str(buf, ") ");
                push_str(buf, name.as_str());
            }
        },
        TypeExprKind::Arrow(lhs, rhs) => {
            pretty_arrow_lhs(buf, lhs);
            push_str(buf, " -> ");
            pretty_type(buf, rhs);
        },
        TypeExprKind::Tuple(elems) => {
            let ghost start = buf@;
            let mut i: usize = 0;
            while i < elems.len()
                invariant
                    i <= elems@.len(),
                    buf@ == start + pp_tuple_elems(elems@.take(i as int)),
                decreases elems@.len() - i,
            {
                proof {
                    assert(elems@.take(i + 1).drop_last() =~= elems@.take(i as int));
                }
                if i > 0 {
                    push_str(buf, " * ");
                }
                proof {
                    assert(decreases_to!(*ty => ty.kind));
                    assert(decreases_to!(ty.kind => ty.kind->Tuple_0));
                    assert(decreases_to!(*elems => elems@));
                    assert(decreases_to!(elems@ => elems@[i as int]));
                }
                pretty_atom_type(buf, &elems[i]);
                i = i + 1;
            }
            assert(elems@.take(elems@.len() as int) =~= elems@);
        },
        TypeExprKind::Paren(inner) => {
            push_str(buf, "(");
            pretty_type(buf, inner);
            push_str(buf, ")");
        },
    }
}

fn pretty_atom_type(buf: &mut String, ty: &TypeExpr)
    ensures
        final(buf)@ == old(buf)@ + pp_atom_type(*ty),
    decreases *ty, 2nat,
{
    match &ty.kind {
        TypeExprKind::Arrow(_, _) | TypeExprKind::Tuple(_) => {
            push_str(buf, "(");
            pretty_type(buf, ty);
            push_str(buf, ")");
        },
        _ => pretty_type(buf, ty),
    }
}

fn pretty_arrow_lhs(buf: &mut String, ty: &TypeExpr)
    ensures
        final(buf)@ == old(buf)@ + pp_arrow_lhs(*ty),
    decreases *ty, 2nat,
{
    match &ty.kind {
        TypeExprKind::Arrow(_, _) => {
            push_str(buf, "(");
            pretty_type(buf, ty);
            push_str(buf, ")");
        },
        _ => pretty_type(buf, ty),
    }
}

// ── Literals ─────────────────────────────────────────────────────────

/// The decimal digit for `d < 10`.
pub open spec fn digit_char(d: nat) -> char {
    ((d + 48) as u8) as char
}

/// The decimal digits of `n`.
pub open spec fn digits(n: nat) -> Seq<char>
    decreases n,
{
    if n < 10 {
        seq![digit_char(n)]
    } else {
        digits(n / 10).push(digit_char(n % 10))
    }
}

/// An integer in decimal, with a leading `-` when negative.
pub open spec fn int_text(n: int) -> Seq<char> {
    if n < 0 {
        seq!['-'] + digits((-n) as nat)
    } else {
        digits(n as nat)
    }
}

/// A character as it appears inside a quoted literal.
pub open spec fn escape(c: char) -> Seq<char> {
    if c == '\n' {
        "\\n"@
    } else if c == '\t' {
        "\\t"@
    } else if c == '\\' {
        "\\\\"@
    } else if c == '"' {
        "\\\""@
    } else {
        seq![c]
    }
}

pub open spec fn escape_all(s: Seq<char>) -> Seq<char>
    decreases s.len(),
{
    if s.len() == 0 {
        Seq::empty()
    } else {
        escape_all(s.drop_last()) + escape(s.last())
    }
}

/// A string literal with its quotes and escapes.
pub open spec fn string_text(s: Seq<char>) -> Seq<char> {
    "\""@ + escape_all(s) + "\""@
}

/// A character literal `#"c"`.
pub open spec fn char_text(c: char) -> Seq<char> {
    "#\""@ + escape(c) + "\""@
}

/// A float literal in a pattern, whose text starts with `-` when negated.
pub open spec fn pat_float_text(t: Seq<char>) -> Seq<char> {
    if t.len() > 0 && t[0] == '-' {
        "~"@ + t.drop_first()
    } else {
        t
    }
}

pub fn push_digits(buf: &mut String, n: u64)
    ensures
        final(buf)@ == old(buf)@ + digits(n as nat),
    decreases n,
{
    if n >= 10 {
        push_digits(buf, n / 10);
    }
    let d = (n % 10) as u8;
    push_char(buf, (d + 48) as char);
    assert(final(buf)@ =~= old(buf)@ + digits(n as nat));
}

fn push_int(buf: &mut String, n: i64)
    ensures
        final(buf)@ == old(buf)@ + int_text(n as int),
{
    if n < 0 {
        push_char(buf, '-');
        let m: u64 = (0i128 - (n as i128)) as u64;
        push_digits(buf, m);
        assert(final(buf)@ =~= old(buf)@ + int_text(n as int));
    } else {
        push_digits(buf, n as u64);
    }
}

fn push_escaped(buf: &mut String, c: char)
    ensures
        final(buf)@ == old(buf)@ + escape(c),
{
    if c == '\n' {
        push_str(buf, "\\n");
    } else if c == '\t' {
        push_str(buf, "\\t");
    } else if c == '\\' {
        push_str(buf, "\\\\");
    } else if c == '"' {
        push_str(buf, "\\\"");
    } else {
        push_char(buf, c);
        assert(final(buf)@ =~= old(buf)@ + escape(c));
    }
}

fn push_string_lit(buf: &mut String, s: &str)
    ensures
        final(buf)@ == old(buf)@ + string_text(s@),
{
    let cs = chars_of(s);
    push_str(buf, "\"");
    let ghost start = buf@;
    let mut i: usize = 0;
    while i < cs.len()
        invariant
            i <= cs@.len(),
            buf@ == start + escape_all(cs@.take(i as int)),
        decreases cs@.len() - i,
    {
        assert(cs@.take(i + 1).drop_last() =~= cs@.take(i as int));
        push_escaped(buf, cs[i]);
        i = i + 1;
    }
    assert(cs@.take(cs@.len() as int) =~= cs@);
    push_str(buf, "\"");
    assert(final(buf)@ =~= old(buf)@ + string_text(s@));
}

fn push_char_lit(buf: &mut String, c: char)
    ensures
        final(buf)@ == old(buf)@ + char_text(c),
{
    push_str(buf, "#\"");
    push_escaped(buf, c);
    push_str(buf, "\"");
    assert(final(buf)@ =~= old(buf)@ + char_text(c));
}

fn push_pat_float(buf: &mut String, t: &String)
    ensures
        final(buf)@ == old(buf)@ + pat_float_text(t@),
{
    let cs = chars_of(t.as_str());
    if cs.len() > 0 && cs[0] == '-' {
        push_str(buf, "~");
        let ghost start = buf@;
        let mut i: usize = 1;
        while i < cs.len()
            invariant
                1 <= i <= cs@.len(),
                buf@ == start + cs@.subrange(1, i as int),
            decreases cs@.len() - i,
        {
            push_char(buf, cs[i]);
            assert(cs@.subrange(1, i + 1) =~= cs@.subrange(1, i as int).push(cs@[i as int]));
            i = i + 1;
        }
        assert(cs@.subrange(1, cs@.len() as int) =~= t@.drop_first());
        assert(final(buf)@ =~= old(buf)@ + pat_float_text(t@));
    } else {
        push_str(buf, t.as_str());
    }
}

// ── Patterns ─────────────────────────────────────────────────────────

pub open spec fn pp_pat(p: Pat) -> Seq<char>
    decreases p, 1nat,
{
    match p.kind {
        PatKind::Wildcard => "_"@,
        PatKind::Var(s) => s@,
        PatKind::IntLit(n) => if n < 0 {
            "~"@ + digits((-n) as nat)
        } else {
            digits(n as nat)
        },
        PatKind::FloatLit(t) => pat_float_text(t@),
        PatKind::StringLit(s) => string_text(s@),
        PatKind::CharLit(c) => char_text(c),
        PatKind::BoolLit(b) => if b {
            "true"@
        } else {
            "false"@
        },
        PatKind::Unit => "()"@,
        PatKind::Tuple(ps) => "("@ + pp_pat_list(ps@) + ")"@,
        PatKind::Constructor(s, payload) => match payload {
            None => s@,
            Some(q) => s@ + " "@ + pp_atom_pat(*q),
        },
        PatKind::Cons(hd, tl) => pp_atom_pat(*hd) + " :: "@ + pp_pat(*tl),
        PatKind::List(ps) => "["@ + pp_pat_list(ps@) + "]"@,
        PatKind::Ann(q, ty) => pp_pat(*q) + " : "@ + pp_type(ty),
        PatKind::As(s, q) => s@ + " as "@ + pp_pat(*q),
        PatKind::Paren(q) => "("@ + pp_pat(*q) + ")"@,
    }
}

pub open spec fn pp_atom_pat(p: Pat) -> Seq<char>
    decreases p, 2nat,
{
    match p.kind {
        PatKind::Constructor(_, Some(_)) | PatKind::Cons(_, _) | PatKind::Ann(_, _) | PatKind::As(
            _,
            _,
        ) => "("@ + pp_pat(p) + ")"@,
        _ => pp_pat(p),
    }
}

pub open spec fn pp_pat_list(ps: Seq<Pat>) -> Seq<char>
    decreases ps, 0nat,
{
    if ps.len() == 0 {
        Seq::empty()
    } else if ps.len() == 1 {
        pp_pat(ps[0])
    } else {
        pp_pat_list(ps.drop_last()) + ", "@ + pp_pat(ps.last())
    }
}

#[verifier::loop_isolation(false)]
fn pretty_pat_list(buf: &mut String, ps: &Vec<Pat>, Ghost(outer): Ghost<Pat>)
    requires
        decreases_to!(outer => ps@),
    ensures
        final(buf)@ == old(buf)@ + pp_pat_list(ps@),
    decreases outer, 0nat,
{
    let ghost start = buf@;
    let mut i: usize = 0;
    while i < ps.len()
        invariant
            i <= ps@.len(),
            buf@ == start + pp_pat_list(ps@.take(i as int)),
        decreases ps@.len() - i,
    {
        assert(ps@.take(i + 1).drop_last() =~= ps@.take(i as int));
        if i > 0 {
            push_str(buf, ", ");
        }
        assert(decreases_to!(ps@ => ps@[i as int]));
        pretty_pat(buf, &ps[i]);
        i = i + 1;
    }
    assert(ps@.take(ps@.len() as int) =~= ps@);
}

#[verifier::loop_isolation(false)]
fn pretty_pat(buf: &mut String, pat: &Pat)
    ensures
        final(buf)@ == old(buf)@ + pp_pat(*pat),
    decreases *pat, 1nat,
{
    match &pat.kind {
        PatKind::Wildcard => push_str(buf, "_"),
        PatKind::Var(s) => push_str(buf, s.as_str()),
        PatKind::IntLit(n) => {
            if *n < 0 {
                push_str(buf, "~");
                let m: u64 = (0i128 - (*n as i128)) as u64;
                push_digits(buf, m);
            } else {
                push_digits(buf, *n as u64);
            }
        },
        PatKind::FloatLit(t) => push_pat_float(buf, t),
        PatKind::StringLit(s) => push_string_lit(buf, s.as_str()),
        PatKind::CharLit(c) => push_char_lit(buf, *c),
        PatKind::BoolLit(b) => {
            if *b {
                push_str(buf, "true");
            } else {
                push_str(buf, "false");
            }
        },
        PatKind::Unit => push_str(buf, "()"),
        PatKind::Tuple(ps) => {
            push_str(buf, "(");
            proof {
                assert(decreases_to!(*pat => pat.kind));
                assert(decreases_to!(pat.kind => pat.kind->Tuple_0));
                assert(decreases_to!(pat.kind->Tuple_0 => ps@));
            }
            pretty_pat_list(buf, ps, Ghost(*pat));
            push_str(buf, ")");
        },
        PatKind::Constructor(s, payload) => {
            push_str(buf, s.as_str());
            match payload {
                None => {},
                Some(q) => {
                    push_str(buf, " ");
                    pretty_atom_pat(buf, q);
                },
            }
        },
        PatKind::Cons(hd, tl) => {
            pretty_atom_pat(buf, hd);
            push_str(buf, " :: ");
            pretty_pat(buf, tl);
        },
        PatKind::List(ps) => {
            push_str(buf, "[");
            proof {
                assert(decreases_to!(*pat => pat.kind));
                assert(decreases_to!(pat.kind => pat.kind->List_0));
                assert(decreases_to!(pat.kind->List_0 => ps@));
            }
            pretty_pat_list(buf, ps, Ghost(*pat));
            push_str(buf, "]");
        },
        PatKind::Ann(q, ty) => {
            pretty_pat(buf, q);
            push_str(buf, " : ");
            pretty_type(buf, ty);
        },
        PatKind::As(s, q) => {
            push_str(buf, s.as_str());
            push_str(buf, " as ");
            pretty_pat(buf, q);
        },
        PatKind::Paren(q) => {
            push_str(buf, "(");
            pretty_pat(buf, q);
            push_str(buf, ")");
        },
    }
    assert(final(buf)@ =~= old(buf)@ + pp_pat(*pat));
}

fn pretty_atom_pat(buf: &mut String, pat: &Pat)
    ensures
        final(buf)@ == old(buf)@ + pp_atom_pat(*pat),
    decreases *pat, 2nat,
{
    match &pat.kind {
        PatKind::Constructor(_, Some(_)) | PatKind::Cons(_, _) | PatKind::Ann(_, _) | PatKind::As(
            _,
            _,
        ) => {
            push_str(buf, "(");
            pretty_pat(buf, pat);
            push_str(buf, ")");
        },
        _ => pretty_pat(buf, pat),
    }
}

// ── Layout helpers ───────────────────────────────────────────────────

/// The indentation `k` columns deeper than `ind` (capped at `usize::MAX`).
pub open spec fn nest(ind: nat, k: nat) -> nat {
    if ind + k <= usize::MAX {
        ind + k
    } else {
        usize::MAX as nat
    }
}

/// `n` spaces.
pub open spec fn spaces(n: nat) -> Seq<char> {
    Seq::new(n, |i: int| ' ')
}

/// Expressions printed over several lines.
pub open spec fn is_multiline(e: Expr) -> bool {
    e.kind is Case || e.kind is Let || e.kind is Handle
}

/// `b` without its trailing spaces and tabs.
pub open spec fn trim_blanks(b: Seq<char>) -> Seq<char>
    decreases b.len(),
{
    if b.len() > 0 && (b.last() == ' ' || b.last() == '\t') {
        trim_blanks(b.drop_last())
    } else {
        b
    }
}

/// `b` ended by an empty line (unless it is empty).
pub open spec fn blank_line(b: Seq<char>) -> Seq<char> {
    let t = trim_blanks(b);
    if t.len() == 0 || (t.len() >= 2 && t[t.len() - 1] == '\n' && t[t.len() - 2] == '\n') {
        t
    } else if t.last() == '\n' {
        t.push('\n')
    } else {
        t.push('\n').push('\n')
    }
}

// ── Operators ────────────────────────────────────────────────────────

pub open spec fn binop_prec(op: BinOp) -> nat {
    match op {
        BinOp::Orelse => 1,
        BinOp::Andalso => 2,
        BinOp::Eq | BinOp::Ne | BinOp::LtInt | BinOp::GtInt | BinOp::LeInt | BinOp::GeInt
        | BinOp::LtFloat | BinOp::GtFloat | BinOp::LeFloat | BinOp::GeFloat => 3,
        BinOp::AddInt | BinOp::SubInt | BinOp::AddFloat | BinOp::SubFloat | BinOp::ConcatStr => 4,
        BinOp::MulInt | BinOp::DivInt | BinOp::ModInt | BinOp::MulFloat | BinOp::DivFloat => 5,
    }
}

pub open spec fn is_right_assoc(op: BinOp) -> bool {
    op is Orelse || op is Andalso
}

pub open spec fn binop_text(op: BinOp) -> Seq<char> {
    match op {
        BinOp::AddInt => "+"@,
        BinOp::SubInt => "-"@,
        BinOp::MulInt => "*"@,
        BinOp::DivInt => "/"@,
        BinOp::ModInt => "mod"@,
        BinOp::AddFloat => "+."@,
        BinOp::SubFloat => "-."@,
        BinOp::MulFloat => "*."@,
        BinOp::DivFloat => "/."@,
        BinOp::ConcatStr => "^"@,
        BinOp::LtInt => "<"@,
        BinOp::GtInt => ">"@,
        BinOp::LeInt => "<="@,
        BinOp::GeInt => ">="@,
        BinOp::LtFloat => "<."@,
        BinOp::GtFloat => ">."@,
        BinOp::LeFloat => "<=."@,
        BinOp::GeFloat => ">=."@,
        BinOp::Eq => "="@,
        BinOp::Ne => "<>"@,
        BinOp::Andalso => "andalso"@,
        BinOp::Orelse => "orelse"@,
    }
}

/// The left operand of `op` needs parentheses.
pub open spec fn parens_lhs(op: BinOp, lhs: Expr) -> bool {
    match lhs.kind {
        ExprKind::BinOp(l, _, _) => if is_right_assoc(op) {
            binop_prec(l) <= binop_prec(op)
        } else {
            binop_prec(l) < binop_prec(op)
        },
        _ => false,
    }
}

/// The right operand of `op` needs parentheses.
pub open spec fn parens_rhs(op: BinOp, rhs: Expr) -> bool {
    match rhs.kind {
        ExprKind::BinOp(r, _, _) => if is_right_assoc(op) {
            binop_prec(r) < binop_prec(op)
        } else {
            binop_prec(r) <= binop_prec(op)
        },
        _ => false,
    }
}

/// Expressions that need parentheses where an atom is expected.
pub open spec fn parens_as_atom(e: Expr) -> bool {
    !(e.kind is IntLit || e.kind is FloatLit || e.kind is StringLit || e.kind is CharLit
        || e.kind is BoolLit || e.kind is Unit || e.kind is Var || e.kind is Constructor
        || e.kind is Tuple || e.kind is List || e.kind is Paren)
}

// ── Declarations' fixed parts ────────────────────────────────────────

pub open spec fn join_names(ns: Seq<String>) -> Seq<char>
    decreases ns.len(),
{
    if ns.len() == 0 {
        Seq::empty()
    } else if ns.len() == 1 {
        ns[0]@
    } else {
        join_names(ns.drop_last()) + ", "@ + ns.last()@
    }
}

/// Type parameters before a declared type's name.
pub open spec fn tyvars_text(tvs: Seq<String>) -> Seq<char> {
    if tvs.len() == 0 {
        Seq::empty()
    } else if tvs.len() == 1 {
        tvs[0]@ + " "@
    } else {
        "("@ + join_names(tvs) + ") "@
    }
}

pub open spec fn con_text(c: ConDecl) -> Seq<char> {
    match c.payload {
        None => c.name@,
        Some(ty) => c.name@ + " of "@ + pp_type(ty),
    }
}

/// The constructors of a datatype declared over several lines.
pub open spec fn cons_text(cs: Seq<ConDecl>, ind: nat) -> Seq<char>
    decreases cs.len(),
{
    if cs.len() == 0 {
        Seq::empty()
    } else if cs.len() == 1 {
        spaces(nest(ind, 4)) + con_text(cs[0])
    } else {
        cons_text(cs.drop_last(), ind) + "\n"@ + spaces(nest(ind, 2)) + "| "@ + con_text(cs.last())
    }
}

pub open spec fn sig_specs_text(ss: Seq<SignatureSpec>, ind: nat) -> Seq<char>
    decreases ss.len(),
{
    if ss.len() == 0 {
        Seq::empty()
    } else {
        sig_specs_text(ss.drop_last(), ind) + match ss.last() {
            SignatureSpec::Val { name, ty, .. } => spaces(nest(ind, 2)) + "val "@ + name@ + " : "@
                + pp_type(ty) + "\n"@,
        }
    }
}

/// The argument patterns of a function clause, each after a space.
pub open spec fn arg_pats_text(ps: Seq<Pat>) -> Seq<char>
    decreases ps.len(),
{
    if ps.len() == 0 {
        Seq::empty()
    } else {
        arg_pats_text(ps.drop_last()) + " "@ + pp_atom_pat(ps.last())
    }
}

// ── Expressions and declarations ─────────────────────────────────────
//
// A declaration list separates its items by a blank line that looks at the
// text already printed, so these functions describe the whole buffer after
// printing, given the buffer `b` before.

pub open spec fn emit_expr(b: Seq<char>, e: Expr, ind: nat) -> Seq<char>
    decreases e, 2nat,
{
    match e.kind {
        ExprKind::IntLit(n) => b + int_text(n as int),
        ExprKind::FloatLit(t) => b + t@,
        ExprKind::StringLit(s) => b + string_text(s@),
        ExprKind::CharLit(c) => b + char_text(c),
        ExprKind::BoolLit(x) => if x {
            b + "true"@
        } else {
            b + "false"@
        },
        ExprKind::Unit => b + "()"@,
        ExprKind::Var(s) => b + s@,
        ExprKind::Constructor(s) => b + s@,
        ExprKind::Tuple(es) => emit_expr_list(b + "("@, es@, ind) + ")"@,
        ExprKind::List(es) => emit_expr_list(b + "["@, es@, ind) + "]"@,
        ExprKind::Cons(hd, tl) => emit_expr(emit_cons_operand(b, *hd, ind) + " :: "@, *tl, ind),
        ExprKind::BinOp(op, lhs, rhs) => {
            let nl = parens_lhs(op, *lhs);
            let nr = parens_rhs(op, *rhs);
            let b1 = if nl {
                b + "("@
            } else {
                b
            };
            let b2 = emit_expr(b1, *lhs, ind);
            let b3 = if nl {
                b2 + ")"@
            } else {
                b2
            };
            let b4 = b3 + " "@ + binop_text(op) + " "@;
            let b5 = if nr {
                b4 + "("@
            } else {
                b4
            };
            let b6 = emit_expr(b5, *rhs, ind);
            if nr {
                b6 + ")"@
            } else {
                b6
            }
        },
        ExprKind::UnaryNeg(x) => emit_atom_expr(b + "~"@, *x, ind),
        ExprKind::Not(x) => emit_atom_expr(b + "not "@, *x, ind),
        ExprKind::App(f, a) => emit_atom_expr(emit_app_func(b, *f, ind) + " "@, *a, ind),
        ExprKind::Fn(p, body) => emit_expr(b + "fn "@ + pp_pat(p) + " => "@, *body, ind),
        ExprKind::If(c, t, x) => emit_expr(
            emit_expr(emit_expr(b + "if "@, *c, ind) + " then "@, *t, ind) + " else "@,
            *x,
            ind,
        ),
        ExprKind::Let(ds, body) => emit_expr(
            emit_let_decls(b + "let\n"@, ds@, ind) + spaces(ind) + "in\n"@ + spaces(nest(ind, 2)),
            *body,
            nest(ind, 2),
        ) + "\n"@ + spaces(ind) + "end"@,
        ExprKind::Case(scrut, branches) => emit_branches(
            emit_expr(b + "case "@, *scrut, ind) + " of\n"@,
            branches@,
            ind,
        ),
        ExprKind::Ann(x, ty) => emit_expr(b, *x, ind) + " : "@ + pp_type(ty),
        ExprKind::Paren(x) => emit_expr(b + "("@, *x, ind) + ")"@,
        ExprKind::Perform(s, a) => emit_atom_expr(b + "perform "@ + s@ + " "@, *a, ind),
        ExprKind::Handle { body, return_var, return_body, handlers } => emit_handlers(
            emit_expr(
                emit_expr(b + "handle\n"@ + spaces(nest(ind, 2)), *body, nest(ind, 2)) + "\n"@ + spaces(ind)
                    + "with\n"@ + spaces(nest(ind, 2)) + "return "@ + return_var@ + " => "@,
                *return_body,
                nest(ind, 2),
            ),
            handlers@,
            ind,
        ),
        ExprKind::Resume(c, a) => emit_atom_expr(
            emit_atom_expr(b + "resume "@, *c, ind) + " "@,
            *a,
            ind,
        ),
    }
}

pub open spec fn emit_atom_expr(b: Seq<char>, e: Expr, ind: nat) -> Seq<char>
    decreases e, 3nat,
{
    if parens_as_atom(e) {
        emit_expr(b + "("@, e, ind) + ")"@
    } else {
        emit_expr(b, e, ind)
    }
}

pub open spec fn emit_app_func(b: Seq<char>, e: Expr, ind: nat) -> Seq<char>
    decreases e, 3nat,
{
    if e.kind is App || e.kind is Var || e.kind is Constructor || e.kind is Paren {
        emit_expr(b, e, ind)
    } else {
        emit_expr(b + "("@, e, ind) + ")"@
    }
}

pub open spec fn emit_cons_operand(b: Seq<char>, e: Expr, ind: nat) -> Seq<char>
    decreases e, 3nat,
{
    if (e.kind matches ExprKind::BinOp(op, _, _) && (op is Orelse || op is Andalso))
        || e.kind is Ann {
        emit_expr(b + "("@, e, ind) + ")"@
    } else {
        emit_expr(b, e, ind)
    }
}

pub open spec fn emit_expr_list(b: Seq<char>, es: Seq<Expr>, ind: nat) -> Seq<char>
    decreases es, 1nat,
{
    if es.len() == 0 {
        b
    } else if es.len() == 1 {
        emit_expr(b, es[0], ind)
    } else {
        emit_expr(emit_expr_list(b, es.drop_last(), ind) + ", "@, es.last(), ind)
    }
}

pub open spec fn emit_let_decls(b: Seq<char>, ds: Seq<Decl>, ind: nat) -> Seq<char>
    decreases ds, 1nat,
{
    if ds.len() == 0 {
        b
    } else {
        emit_decl(emit_let_decls(b, ds.drop_last(), ind), ds.last(), nest(ind, 2)) + "\n"@
    }
}

/// A case branch's arrow and body, after its pattern.
pub open spec fn emit_arm(b: Seq<char>, body: Expr, ind: nat) -> Seq<char>
    decreases body, 3nat,
{
    if is_multiline(body) {
        emit_expr(b + " =>\n"@ + spaces(nest(ind, 4)), body, nest(ind, 4))
    } else {
        emit_expr(b + " => "@, body, nest(ind, 4))
    }
}

pub open spec fn emit_branches(b: Seq<char>, bs: Seq<(Pat, Expr)>, ind: nat) -> Seq<char>
    decreases bs, 1nat,
{
    if bs.len() == 0 {
        b
    } else {
        let b1 = if bs.len() == 1 {
            b + spaces(nest(ind, 4))
        } else {
            emit_branches(b, bs.drop_last(), ind) + "\n"@ + spaces(nest(ind, 2)) + "| "@
        };
        emit_arm(b1 + pp_pat(bs.last().0), bs.last().1, ind)
    }
}

pub open spec fn emit_handlers(b: Seq<char>, hs: Seq<EffectHandler>, ind: nat) -> Seq<char>
    decreases hs, 1nat,
{
    if hs.len() == 0 {
        b
    } else {
        let h = hs.last();
        emit_expr(
            emit_handlers(b, hs.drop_last(), ind) + "\n"@ + spaces(ind) + "| "@ + h.effect_name@
                + " "@ + h.payload_var@ + " "@ + h.cont_var@ + " => "@,
            h.body,
            nest(ind, 2),
        )
    }
}

pub open spec fn emit_clauses(b: Seq<char>, name: Seq<char>, cs: Seq<FunClause>, ind: nat) -> Seq<
    char,
>
    decreases cs, 1nat,
{
    if cs.len() == 0 {
        b
    } else {
        let b1 = if cs.len() == 1 {
            b
        } else {
            emit_clauses(b, name, cs.drop_last(), ind) + "\n"@ + spaces(nest(ind, 2)) + "| "@
        };
        let c = cs.last();
        let b2 = b1 + name + arg_pats_text(c.pats@);
        if is_multiline(c.body) {
            emit_expr(b2 + " =\n"@ + spaces(nest(ind, 2)), c.body, nest(ind, 2))
        } else {
            emit_expr(b2 + " = "@, c.body, nest(ind, 2))
        }
    }
}

pub open spec fn emit_fun_bindings(b: Seq<char>, fs: Seq<FunBinding>, ind: nat) -> Seq<char>
    decreases fs, 1nat,
{
    if fs.len() == 0 {
        b
    } else {
        let b1 = if fs.len() == 1 {
            b + spaces(ind) + "fun "@
        } else {
            emit_fun_bindings(b, fs.drop_last(), ind) + "\n"@ + spaces(ind) + "and "@
        };
        emit_clauses(b1, fs.last().name@, fs.last().clauses@, ind)
    }
}

pub open spec fn emit_decl_list(b: Seq<char>, ds: Seq<Decl>, ind: nat) -> Seq<char>
    decreases ds, 1nat,
{
    if ds.len() == 0 {
        b
    } else {
        let b1 = emit_decl_list(b, ds.drop_last(), ind);
        let b2 = if ds.len() > 1 {
            blank_line(b1)
        } else {
            b1
        };
        emit_decl(b2, ds.last(), ind)
    }
}

pub open spec fn emit_decl(b: Seq<char>, d: Decl, ind: nat) -> Seq<char>
    decreases d, 2nat,
{
    match d.kind {
        DeclKind::Val(p, e) => {
            let b1 = b + spaces(ind) + "val "@ + pp_pat(p);
            if is_multiline(e) {
                emit_expr(b1 + " =\n"@ + spaces(nest(ind, 2)), e, nest(ind, 2))
            } else {
                emit_expr(b1 + " = "@, e, ind)
            }
        },
        DeclKind::ValRec(name, e) => emit_expr(
            b + spaces(ind) + "val rec "@ + name@ + " = "@,
            e,
            ind,
        ),
        DeclKind::Fun(fs) => emit_fun_bindings(b, fs@, ind),
        DeclKind::Datatype(dt) => {
            let b1 = b + spaces(ind) + "datatype "@ + tyvars_text(dt.tyvars@) + dt.name@;
            if dt.constructors@.len() == 1 {
                b1 + " = "@ + con_text(dt.constructors@[0])
            } else {
                b1 + " =\n"@ + cons_text(dt.constructors@, ind)
            }
        },
        DeclKind::TypeAlias(ta) => b + spaces(ind) + "type "@ + tyvars_text(ta.tyvars@) + ta.name@
            + " = "@ + pp_type(ta.ty),
        DeclKind::Local(ls, bs) => {
            let b1 = emit_decl_list(b + spaces(ind) + "local\n"@, ls@, nest(ind, 2));
            let b2 = if ls@.len() > 0 {
                b1 + "\n"@
            } else {
                b1
            };
            let b3 = emit_decl_list(b2 + spaces(ind) + "in\n"@, bs@, nest(ind, 2));
            let b4 = if bs@.len() > 0 {
                b3 + "\n"@
            } else {
                b3
            };
            b4 + spaces(ind) + "end"@
        },
        DeclKind::Use(path) => b + spaces(ind) + "use "@ + string_text(path@),
        DeclKind::Signature(sig) => b + spaces(ind) + "signature "@ + sig.name@ + " = sig\n"@
            + sig_specs_text(sig.specs@, ind) + spaces(ind) + "end"@,
        DeclKind::Structure { name, signature, opaque, decls } => {
            let b1 = b + spaces(ind) + "structure "@ + name@ + match signature {
                Some(s) => if opaque {
                    " :> "@ + s@
                } else {
                    " : "@ + s@
                },
                None => Seq::empty(),
            } + " = struct\n"@;
            let b2 = emit_decl_list(b1, decls@, nest(ind, 2));
            let b3 = if decls@.len() > 0 {
                b2 + "\n"@
            } else {
                b2
            };
            b3 + spaces(ind) + "end"@
        },
        DeclKind::Effect(name, payload) => b + spaces(ind) + "effect "@ + name@ + match payload {
            Some(ty) => " of "@ + pp_type(ty),
            None => Seq::empty(),
        },
    }
}

/// The text of a whole program.
pub open spec fn program_text(p: Program) -> Seq<char> {
    emit_decl_list(Seq::empty(), p.decls@, 0)
}

// ── Executable printing ──────────────────────────────────────────────

pub(crate) fn nest_by(ind: usize, k: usize) -> (r: usize)
    ensures
        r == nest(ind as nat, k as nat),
{
    if ind <= usize::MAX - k {
        ind + k
    } else {
        usize::MAX
    }
}

pub(crate) fn push_spaces(buf: &mut String, n: usize)
    ensures
        final(buf)@ == old(buf)@ + spaces(n as nat),
{
    let ghost start = buf@;
    let mut i: usize = 0;
    while i < n
        invariant
            i <= n,
            buf@ == start + spaces(i as nat),
        decreases n - i,
    {
        push_char(buf, ' ');
        assert(spaces((i + 1) as nat) =~= spaces(i as nat).push(' '));
        i = i + 1;
    }
}

pub(crate) fn ensure_blank_line(buf: &mut String)
    ensures
        final(buf)@ == blank_line(old(buf)@),
{
    loop
        invariant
            trim_blanks(buf@) == trim_blanks(old(buf)@),
        ensures
            buf@ == trim_blanks(old(buf)@),
        decreases buf@.len(),
    {
        let ghost before = buf@;
        match pop_char(buf) {
            Some(c) => {
                if c == ' ' || c == '\t' {
                    assert(trim_blanks(before) == trim_blanks(before.drop_last()));
                } else {
                    push_char(buf, c);
                    assert(buf@ =~= before);
                    assert(trim_blanks(before) == before);
                    break;
                }
            },
            None => {
                assert(trim_blanks(before) == before);
                break;
            },
        }
    }
    let ghost t = buf@;
    match pop_char(buf) {
        None => {},
        Some(c1) => {
            if c1 == '\n' {
                match pop_char(buf) {
                    Some(c2) => {
                        push_char(buf, c2);
                        push_char(buf, c1);
                        if c2 != '\n' {
                            push_char(buf, '\n');
                        }
                    },
                    None => {
                        push_char(buf, c1);
                        push_char(buf, '\n');
                    },
                }
            } else {
                push_char(buf, c1);
                push_char(buf, '\n');
                push_char(buf, '\n');
            }
        },
    }
    assert(buf@ =~= blank_line(old(buf)@));
}

fn is_multiline_expr(e: &Expr) -> (r: bool)
    ensures
        r == is_multiline(*e),
{
    match &e.kind {
        ExprKind::Case(_, _) | ExprKind::Let(_, _) | ExprKind::Handle { .. } => true,
        _ => false,
    }
}

fn prec_of(op: BinOp) -> (r: u8)
    ensures
        r == binop_prec(op),
{
    match op {
        BinOp::Orelse => 1,
        BinOp::Andalso => 2,
        BinOp::Eq | BinOp::Ne | BinOp::LtInt | BinOp::GtInt | BinOp::LeInt | BinOp::GeInt
        | BinOp::LtFloat | BinOp::GtFloat | BinOp::LeFloat | BinOp::GeFloat => 3,
        BinOp::AddInt | BinOp::SubInt | BinOp::AddFloat | BinOp::SubFloat | BinOp::ConcatStr => 4,
        BinOp::MulInt | BinOp::DivInt | BinOp::ModInt | BinOp::MulFloat | BinOp::DivFloat => 5,
    }
}

fn binop_str(op: BinOp) -> (r: &'static str)
    ensures
        r@ == binop_text(op),
{
    match op {
        BinOp::AddInt => "+",
        BinOp::SubInt => "-",
        BinOp::MulInt => "*",
        BinOp::DivInt => "/",
        BinOp::ModInt => "mod",
        BinOp::AddFloat => "+.",
        BinOp::SubFloat => "-.",
        BinOp::MulFloat => "*.",
        BinOp::DivFloat => "/.",
        BinOp::ConcatStr => "^",
        BinOp::LtInt => "<",
        BinOp::GtInt => ">",
        BinOp::LeInt => "<=",
        BinOp::GeInt => ">=",
        BinOp::LtFloat => "<.",
        BinOp::GtFloat => ">.",
        BinOp::LeFloat => "<=.",
        BinOp::GeFloat => ">=.",
        BinOp::Eq => "=",
        BinOp::Ne => "<>",
        BinOp::Andalso => "andalso",
        BinOp::Orelse => "orelse",
    }
}

fn needs_parens_lhs(op: BinOp, lhs: &Expr) -> (r: bool)
    ensures
        r == parens_lhs(op, *lhs),
{
    match &lhs.kind {
        ExprKind::BinOp(l, _, _) => {
            let right = match op {
                BinOp::Orelse | BinOp::Andalso => true,
                _ => false,
            };
            if right {
                prec_of(*l) <= prec_of(op)
            } else {
                prec_of(*l) < prec_of(op)
            }
        },
        _ => false,
    }
}

fn needs_parens_rhs(op: BinOp, rhs: &Expr) -> (r: bool)
    ensures
        r == parens_rhs(op, *rhs),
{
    match &rhs.kind {
        ExprKind::BinOp(o, _, _) => {
            let right = match op {
                BinOp::Orelse | BinOp::Andalso => true,
                _ => false,
            };
            if right {
                prec_of(*o) < prec_of(op)
            } else {
                prec_of(*o) <= prec_of(op)
            }
        },
        _ => false,
    }
}

fn needs_parens_as_atom(e: &Expr) -> (r: bool)
    ensures
        r == parens_as_atom(*e),
{
    match &e.kind {
        ExprKind::IntLit(_) | ExprKind::FloatLit(_) | ExprKind::StringLit(_) | ExprKind::CharLit(_)
        | ExprKind::BoolLit(_) | ExprKind::Unit | ExprKind::Var(_) | ExprKind::Constructor(_)
        | ExprKind::Tuple(_) | ExprKind::List(_) | ExprKind::Paren(_) => false,
        _ => true,
    }
}

fn push_names(buf: &mut String, ns: &Vec<String>)
    ensures
        final(buf)@ == old(buf)@ + join_names(ns@),
{
    let ghost start = buf@;
    let mut i: usize = 0;
    while i < ns.len()
        invariant
            i <= ns@.len(),
            buf@ == start + join_names(ns@.take(i as int)),
        decreases ns@.len() - i,
    {
        assert(ns@.take(i + 1).drop_last() =~= ns@.take(i as int));
        if i > 0 {
            push_str(buf, ", ");
        }
        push_str(buf, ns[i].as_str());
        i = i + 1;
    }
    assert(ns@.take(ns@.len() as int) =~= ns@);
}

fn push_tyvars(buf: &mut String, tvs: &Vec<String>)
    ensures
        final(buf)@ == old(buf)@ + tyvars_text(tvs@),
{
    if tvs.len() == 0 {
        assert(buf@ =~= old(buf)@ + tyvars_text(tvs@));
    } else if tvs.len() == 1 {
        push_str(buf, tvs[0].as_str());
        push_str(buf, " ");
        assert(buf@ =~= old(buf)@ + tyvars_text(tvs@));
    } else {
        push_str(buf, "(");
        push_names(buf, tvs);
        push_str(buf, ") ");
        assert(buf@ =~= old(buf)@ + tyvars_text(tvs@));
    }
}

fn push_con(buf: &mut String, c: &ConDecl)
    ensures
        final(buf)@ == old(buf)@ + con_text(*c),
{
    push_str(buf, c.name.as_str());
    match &c.payload {
        None => {},
        Some(ty) => {
            push_str(buf, " of ");
            pretty_type(buf, ty);
        },
    }
    assert(buf@ =~= old(buf)@ + con_text(*c));
}

fn push_cons(buf: &mut String, cs: &Vec<ConDecl>, ind: usize)
    ensures
        final(buf)@ == old(buf)@ + cons_text(cs@, ind as nat),
{
    let ghost start = buf@;
    let mut i: usize = 0;
    while i < cs.len()
        invariant
            i <= cs@.len(),
            buf@ == start + cons_text(cs@.take(i as int), ind as nat),
        decreases cs@.len() - i,
    {
        assert(cs@.take(i + 1).drop_last() =~= cs@.take(i as int));
        if i == 0 {
            push_spaces(buf, nest_by(ind, 4));
        } else {
            push_str(buf, "\n");
            push_spaces(buf, nest_by(ind, 2));
            push_str(buf, "| ");
        }
        push_con(buf, &cs[i]);
        assert(buf@ =~= start + cons_text(cs@.take(i + 1), ind as nat));
        i = i + 1;
    }
    assert(cs@.take(cs@.len() as int) =~= cs@);
}

fn push_sig_specs(buf: &mut String, ss: &Vec<SignatureSpec>, ind: usize)
    ensures
        final(buf)@ == old(buf)@ + sig_specs_text(ss@, ind as nat),
{
    let ghost start = buf@;
    let mut i: usize = 0;
    while i < ss.len()
        invariant
            i <= ss@.len(),
            buf@ == start + sig_specs_text(ss@.take(i as int), ind as nat),
        decreases ss@.len() - i,
    {
        assert(ss@.take(i + 1).drop_last() =~= ss@.take(i as int));
        match &ss[i] {
            SignatureSpec::Val { name, ty, .. } => {
                push_spaces(buf, nest_by(ind, 2));
                push_str(buf, "val ");
                push_str(buf, name.as_str());
                push_str(buf, " : ");
                pretty_type(buf, ty);
                push_str(buf, "\n");
            },
        }
        assert(buf@ =~= start + sig_specs_text(ss@.take(i + 1), ind as nat));
        i = i + 1;
    }
    assert(ss@.take(ss@.len() as int) =~= ss@);
}

fn push_arg_pats(buf: &mut String, ps: &Vec<Pat>)
    ensures
        final(buf)@ == old(buf)@ + arg_pats_text(ps@),
{
    let ghost start = buf@;
    let mut i: usize = 0;
    while i < ps.len()
        invariant
            i <= ps@.len(),
            buf@ == start + arg_pats_text(ps@.take(i as int)),
        decreases ps@.len() - i,
    {
        assert(ps@.take(i + 1).drop_last() =~= ps@.take(i as int));
        push_str(buf, " ");
        pretty_atom_pat(buf, &ps[i]);
        assert(buf@ =~= start + arg_pats_text(ps@.take(i + 1)));
        i = i + 1;
    }
    assert(ps@.take(ps@.len() as int) =~= ps@);
}

#[verifier::loop_isolation(false)]
fn pretty_expr(buf: &mut String, e: &Expr, ind: usize)
    ensures
        final(buf)@ == emit_expr(old(buf)@, *e, ind as nat),
    decreases *e, 2nat,
{
    let ghost b = buf@;
    proof {
        assert(decreases_to!(*e => e.kind));
    }
    match &e.kind {
        ExprKind::IntLit(n) => push_int(buf, *n),
        ExprKind::FloatLit(t) => push_str(buf, t.as_str()),
        ExprKind::StringLit(x) => push_string_lit(buf, x.as_str()),
        ExprKind::CharLit(c) => push_char_lit(buf, *c),
        ExprKind::BoolLit(x) => {
            if *x {
                push_str(buf, "true");
            } else {
                push_str(buf, "false");
            }
        },
        ExprKind::Unit => push_str(buf, "()"),
        ExprKind::Var(x) => push_str(buf, x.as_str()),
        ExprKind::Constructor(x) => push_str(buf, x.as_str()),
        ExprKind::Tuple(es) => {
            push_str(buf, "(");
            proof {
                assert(decreases_to!(e.kind => e.kind->Tuple_0));
                assert(decreases_to!(e.kind->Tuple_0 => es@));
            }
            pretty_expr_list(buf, es, ind, Ghost(*e));
            push_str(buf, ")");
        },
        ExprKind::List(es) => {
            push_str(buf, "[");
            proof {
                assert(decreases_to!(e.kind => e.kind->List_0));
                assert(decreases_to!(e.kind->List_0 => es@));
            }
            pretty_expr_list(buf, es, ind, Ghost(*e));
            push_str(buf, "]");
        },
        ExprKind::Cons(hd, tl) => {
            pretty_cons_operand(buf, hd, ind);
            push_str(buf, " :: ");
            pretty_expr(buf, tl, ind);
        },
        ExprKind::BinOp(op, lhs, rhs) => {
            let nl = needs_parens_lhs(*op, lhs);
            let nr = needs_parens_rhs(*op, rhs);
            if nl {
                push_str(buf, "(");
            }
            pretty_expr(buf, lhs, ind);
            if nl {
                push_str(buf, ")");
            }
            push_str(buf, " ");
            push_str(buf, binop_str(*op));
            push_str(buf, " ");
            if nr {
                push_str(buf, "(");
            }
            pretty_expr(buf, rhs, ind);
            if nr {
                push_str(buf, ")");
            }
        },
        ExprKind::UnaryNeg(x) => {
            push_str(buf, "~");
            pretty_atom_expr(buf, x, ind);
        },
        ExprKind::Not(x) => {
            push_str(buf, "not ");
            pretty_atom_expr(buf, x, ind);
        },
        ExprKind::App(f, a) => {
            pretty_app_func(buf, f, ind);
            push_str(buf, " ");
            pretty_atom_expr(buf, a, ind);
        },
        ExprKind::Fn(p, body) => {
            push_str(buf, "fn ");
            pretty_pat(buf, p);
            push_str(buf, " => ");
            pretty_expr(buf, body, ind);
        },
        ExprKind::If(c, t, x) => {
            push_str(buf, "if ");
            pretty_expr(buf, c, ind);
            push_str(buf, " then ");
            pretty_expr(buf, t, ind);
            push_str(buf, " else ");
            pretty_expr(buf, x, ind);
        },
        ExprKind::Let(ds, body) => {
            push_str(buf, "let\n");
            proof {
                assert(decreases_to!(e.kind => e.kind->Let_0));
                assert(decreases_to!(e.kind->Let_0 => ds@));
            }
            pretty_let_decls(buf, ds, ind, Ghost(*e));
            push_spaces(buf, ind);
            push_str(buf, "in\n");
            let inner = nest_by(ind, 2);
            push_spaces(buf, inner);
            pretty_expr(buf, body, inner);
            push_str(buf, "\n");
            push_spaces(buf, ind);
            push_str(buf, "end");
        },
        ExprKind::Case(scrut, branches) => {
            push_str(buf, "case ");
            pretty_expr(buf, scrut, ind);
            push_str(buf, " of\n");
            proof {
                assert(decreases_to!(e.kind => e.kind->Case_1));
                assert(decreases_to!(e.kind->Case_1 => branches@));
            }
            pretty_branches(buf, branches, ind, Ghost(*e));
        },
        ExprKind::Ann(x, ty) => {
            pretty_expr(buf, x, ind);
            push_str(buf, " : ");
            pretty_type(buf, ty);
        },
        ExprKind::Paren(x) => {
            push_str(buf, "(");
            pretty_expr(buf, x, ind);
            push_str(buf, ")");
        },
        ExprKind::Perform(name, a) => {
            push_str(buf, "perform ");
            push_str(buf, name.as_str());
            push_str(buf, " ");
            pretty_atom_expr(buf, a, ind);
        },
        ExprKind::Handle { body, return_var, return_body, handlers } => {
            let inner = nest_by(ind, 2);
            push_str(buf, "handle\n");
            push_spaces(buf, inner);
            pretty_expr(buf, body, inner);
            push_str(buf, "\n");
            push_spaces(buf, ind);
            push_str(buf, "with\n");
            push_spaces(buf, inner);
            push_str(buf, "return ");
            push_str(buf, return_var.as_str());
            push_str(buf, " => ");
            pretty_expr(buf, return_body, inner);
            proof {
                assert(decreases_to!(e.kind => e.kind->handlers));
                assert(decreases_to!(e.kind->handlers => handlers@));
            }
            pretty_handlers(buf, handlers, ind, Ghost(*e));
        },
        ExprKind::Resume(c, a) => {
            push_str(buf, "resume ");
            pretty_atom_expr(buf, c, ind);
            push_str(buf, " ");
            pretty_atom_expr(buf, a, ind);
        },
    }
}

fn pretty_atom_expr(buf: &mut String, e: &Expr, ind: usize)
    ensures
        final(buf)@ == emit_atom_expr(old(buf)@, *e, ind as nat),
    decreases *e, 3nat,
{
    if needs_parens_as_atom(e) {
        push_str(buf, "(");
        pretty_expr(buf, e, ind);
        push_str(buf, ")");
    } else {
        pretty_expr(buf, e, ind);
    }
}

fn pretty_app_func(buf: &mut String, e: &Expr, ind: usize)
    ensures
        final(buf)@ == emit_app_func(old(buf)@, *e, ind as nat),
    decreases *e, 3nat,
{
    match &e.kind {
        ExprKind::App(_, _) | ExprKind::Var(_) | ExprKind::Constructor(_) | ExprKind::Paren(_) => {
            pretty_expr(buf, e, ind)
        },
        _ => {
            push_str(buf, "(");
            pretty_expr(buf, e, ind);
            push_str(buf, ")");
        },
    }
}

fn pretty_cons_operand(buf: &mut String, e: &Expr, ind: usize)
    ensures
        final(buf)@ == emit_cons_operand(old(buf)@, *e, ind as nat),
    decreases *e, 3nat,
{
    match &e.kind {
        ExprKind::BinOp(BinOp::Orelse, _, _) | ExprKind::BinOp(BinOp::Andalso, _, _)
        | ExprKind::Ann(_, _) => {
            push_str(buf, "(");
            pretty_expr(buf, e, ind);
            push_str(buf, ")");
        },
        _ => pretty_expr(buf, e, ind),
    }
}

#[verifier::loop_isolation(false)]
fn pretty_expr_list(buf: &mut String, es: &Vec<Expr>, ind: usize, Ghost(outer): Ghost<Expr>)
    requires
        decreases_to!(outer => es@),
    ensures
        final(buf)@ == emit_expr_list(old(buf)@, es@, ind as nat),
    decreases outer, 1nat,
{
    let ghost start = buf@;
    let mut i: usize = 0;
    while i < es.len()
        invariant
            i <= es@.len(),
            buf@ == emit_expr_list(start, es@.take(i as int), ind as nat),
        decreases es@.len() - i,
    {
        assert(es@.take(i + 1).drop_last() =~= es@.take(i as int));
        if i > 0 {
            push_str(buf, ", ");
        }
        assert(decreases_to!(es@ => es@[i as int]));
        pretty_expr(buf, &es[i], ind);
        i = i + 1;
    }
    assert(es@.take(es@.len() as int) =~= es@);
}

#[verifier::loop_isolation(false)]
fn pretty_let_decls(buf: &mut String, ds: &Vec<Decl>, ind: usize, Ghost(outer): Ghost<Expr>)
    requires
        decreases_to!(outer => ds@),
    ensures
        final(buf)@ == emit_let_decls(old(buf)@, ds@, ind as nat),
    decreases outer, 1nat,
{
    let ghost start = buf@;
    let inner = nest_by(ind, 2);
    let mut i: usize = 0;
    while i < ds.len()
        invariant
            i <= ds@.len(),
            buf@ == emit_let_decls(start, ds@.take(i as int), ind as nat),
        decreases ds@.len() - i,
    {
        assert(ds@.take(i + 1).drop_last() =~= ds@.take(i as int));
        assert(decreases_to!(ds@ => ds@[i as int]));
        pretty_decl(buf, &ds[i], inner);
        push_str(buf, "\n");
        i = i + 1;
    }
    assert(ds@.take(ds@.len() as int) =~= ds@);
}

fn pretty_arm(buf: &mut String, body: &Expr, ind: usize)
    ensures
        final(buf)@ == emit_arm(old(buf)@, *body, ind as nat),
    decreases *body, 3nat,
{
    let inner = nest_by(ind, 4);
    if is_multiline_expr(body) {
        push_str(buf, " =>\n");
        push_spaces(buf, inner);
        pretty_expr(buf, body, inner);
    } else {
        push_str(buf, " => ");
        pretty_expr(buf, body, inner);
    }
}

#[verifier::loop_isolation(false)]
fn pretty_branches(
    buf: &mut String,
    bs: &Vec<(Pat, Expr)>,
    ind: usize,
    Ghost(outer): Ghost<Expr>,
)
    requires
        decreases_to!(outer => bs@),
    ensures
        final(buf)@ == emit_branches(old(buf)@, bs@, ind as nat),
    decreases outer, 1nat,
{
    let ghost start = buf@;
    let mut i: usize = 0;
    while i < bs.len()
        invariant
            i <= bs@.len(),
            buf@ == emit_branches(start, bs@.take(i as int), ind as nat),
        decreases bs@.len() - i,
    {
        assert(bs@.take(i + 1).drop_last() =~= bs@.take(i as int));
        if i == 0 {
            push_spaces(buf, nest_by(ind, 4));
        } else {
            push_str(buf, "\n");
            push_spaces(buf, nest_by(ind, 2));
            push_str(buf, "| ");
        }
        let (pat, body) = &bs[i];
        pretty_pat(buf, pat);
        assert(decreases_to!(bs@ => bs@[i as int]));
        assert(decreases_to!(bs@[i as int] => bs@[i as int].1));
        pretty_arm(buf, body, ind);
        i = i + 1;
    }
    assert(bs@.take(bs@.len() as int) =~= bs@);
}

#[verifier::loop_isolation(false)]
fn pretty_handlers(
    buf: &mut String,
    hs: &Vec<EffectHandler>,
    ind: usize,
    Ghost(outer): Ghost<Expr>,
)
    requires
        decreases_to!(outer => hs@),
    ensures
        final(buf)@ == emit_handlers(old(buf)@, hs@, ind as nat),
    decreases outer, 1nat,
{
    let ghost start = buf@;
    let mut i: usize = 0;
    while i < hs.len()
        invariant
            i <= hs@.len(),
            buf@ == emit_handlers(start, hs@.take(i as int), ind as nat),
        decreases hs@.len() - i,
    {
        assert(hs@.take(i + 1).drop_last() =~= hs@.take(i as int));
        let h = &hs[i];
        push_str(buf, "\n");
        push_spaces(buf, ind);
        push_str(buf, "| ");
        push_str(buf, h.effect_name.as_str());
        push_str(buf, " ");
        push_str(buf, h.payload_var.as_str());
        push_str(buf, " ");
        push_str(buf, h.cont_var.as_str());
        push_str(buf, " => ");
        assert(decreases_to!(hs@ => hs@[i as int]));
        assert(decreases_to!(hs@[i as int] => hs@[i as int].body));
        pretty_expr(buf, &h.body, nest_by(ind, 2));
        i = i + 1;
    }
    assert(hs@.take(hs@.len() as int) =~= hs@);
}

#[verifier::loop_isolation(false)]
fn pretty_clauses(
    buf: &mut String,
    name: &String,
    cs: &Vec<FunClause>,
    ind: usize,
    Ghost(outer): Ghost<Decl>,
)
    requires
        decreases_to!(outer => cs@),
    ensures
        final(buf)@ == emit_clauses(old(buf)@, name@, cs@, ind as nat),
    decreases outer, 0nat,
{
    let ghost start = buf@;
    let inner = nest_by(ind, 2);
    let mut i: usize = 0;
    while i < cs.len()
        invariant
            i <= cs@.len(),
            buf@ == emit_clauses(start, name@, cs@.take(i as int), ind as nat),
        decreases cs@.len() - i,
    {
        assert(cs@.take(i + 1).drop_last() =~= cs@.take(i as int));
        if i > 0 {
            push_str(buf, "\n");
            push_spaces(buf, inner);
            push_str(buf, "| ");
        }
        let c = &cs[i];
        push_str(buf, name.as_str());
        push_arg_pats(buf, &c.pats);
        assert(decreases_to!(cs@ => cs@[i as int]));
        assert(decreases_to!(cs@[i as int] => cs@[i as int].body));
        if is_multiline_expr(&c.body) {
            push_str(buf, " =\n");
            push_spaces(buf, inner);
            pretty_expr(buf, &c.body, inner);
        } else {
            push_str(buf, " = ");
            pretty_expr(buf, &c.body, inner);
        }
        i = i + 1;
    }
    assert(cs@.take(cs@.len() as int) =~= cs@);
}

#[verifier::loop_isolation(false)]
fn pretty_fun_bindings(buf: &mut String, fs: &Vec<FunBinding>, ind: usize, Ghost(outer): Ghost<Decl>)
    requires
        decreases_to!(outer => fs@),
    ensures
        final(buf)@ == emit_fun_bindings(old(buf)@, fs@, ind as nat),
    decreases outer, 1nat,
{
    let ghost start = buf@;
    let mut i: usize = 0;
    while i < fs.len()
        invariant
            i <= fs@.len(),
            buf@ == emit_fun_bindings(start, fs@.take(i as int), ind as nat),
        decreases fs@.len() - i,
    {
        assert(fs@.take(i + 1).drop_last() =~= fs@.take(i as int));
        if i > 0 {
            push_str(buf, "\n");
        }
        push_spaces(buf, ind);
        if i == 0 {
            push_str(buf, "fun ");
        } else {
            push_str(buf, "and ");
        }
        let f = &fs[i];
        assert(decreases_to!(fs@ => fs@[i as int]));
        assert(decreases_to!(fs@[i as int] => fs@[i as int].clauses));
        assert(decreases_to!(fs@[i as int].clauses => f.clauses@));
        pretty_clauses(buf, &f.name, &f.clauses, ind, Ghost(outer));
        i = i + 1;
    }
    assert(fs@.take(fs@.len() as int) =~= fs@);
}

#[verifier::loop_isolation(false)]
fn pretty_decl_list(buf: &mut String, ds: &Vec<Decl>, ind: usize, Ghost(outer): Ghost<Decl>)
    requires
        decreases_to!(outer => ds@),
    ensures
        final(buf)@ == emit_decl_list(old(buf)@, ds@, ind as nat),
    decreases outer, 1nat,
{
    let ghost start = buf@;
    let mut i: usize = 0;
    while i < ds.len()
        invariant
            i <= ds@.len(),
            buf@ == emit_decl_list(start, ds@.take(i as int), ind as nat),
        decreases ds@.len() - i,
    {
        assert(ds@.take(i + 1).drop_last() =~= ds@.take(i as int));
        if i > 0 {
            ensure_blank_line(buf);
        }
        assert(decreases_to!(ds@ => ds@[i as int]));
        pretty_decl(buf, &ds[i], ind);
        i = i + 1;
    }
    assert(ds@.take(ds@.len() as int) =~= ds@);
}

#[verifier::loop_isolation(false)]
pub(crate) fn pretty_decl(buf: &mut String, d: &Decl, ind: usize)
    ensures
        final(buf)@ == emit_decl(old(buf)@, *d, ind as nat),
    decreases *d, 2nat,
{
    let ghost b = buf@;
    let inner = nest_by(ind, 2);
    proof {
        assert(decreases_to!(*d => d.kind));
    }
    match &d.kind {
        DeclKind::Val(p, e) => {
            push_spaces(buf, ind);
            push_str(buf, "val ");
            pretty_pat(buf, p);
            if is_multiline_expr(e) {
                push_str(buf, " =\n");
                push_spaces(buf, inner);
                pretty_expr(buf, e, inner);
            } else {
                push_str(buf, " = ");
                pretty_expr(buf, e, ind);
            }
        },
        DeclKind::ValRec(name, e) => {
            push_spaces(buf, ind);
            push_str(buf, "val rec ");
            push_str(buf, name.as_str());
            push_str(buf, " = ");
            pretty_expr(buf, e, ind);
        },
        DeclKind::Fun(fs) => {
            proof {
                assert(decreases_to!(d.kind => d.kind->Fun_0));
                assert(decreases_to!(d.kind->Fun_0 => fs@));
            }
            pretty_fun_bindings(buf, fs, ind, Ghost(*d));
        },
        DeclKind::Datatype(dt) => {
            push_spaces(buf, ind);
            push_str(buf, "datatype ");
            push_tyvars(buf, &dt.tyvars);
            push_str(buf, dt.name.as_str());
            if dt.constructors.len() == 1 {
                push_str(buf, " = ");
                push_con(buf, &dt.constructors[0]);
            } else {
                push_str(buf, " =\n");
                push_cons(buf, &dt.constructors, ind);
            }
        },
        DeclKind::TypeAlias(ta) => {
            push_spaces(buf, ind);
            push_str(buf, "type ");
            push_tyvars(buf, &ta.tyvars);
            push_str(buf, ta.name.as_str());
            push_str(buf, " = ");
            pretty_type(buf, &ta.ty);
        },
        DeclKind::Local(ls, bs) => {
            push_spaces(buf, ind);
            push_str(buf, "local\n");
            proof {
                assert(decreases_to!(d.kind => d.kind->Local_0));
                assert(decreases_to!(d.kind->Local_0 => ls@));
                assert(decreases_to!(d.kind => d.kind->Local_1));
                assert(decreases_to!(d.kind->Local_1 => bs@));
            }
            pretty_decl_list(buf, ls, inner, Ghost(*d));
            if ls.len() > 0 {
                push_str(buf, "\n");
            }
            push_spaces(buf, ind);
            push_str(buf, "in\n");
            pretty_decl_list(buf, bs, inner, Ghost(*d));
            if bs.len() > 0 {
                push_str(buf, "\n");
            }
            push_spaces(buf, ind);
            push_str(buf, "end");
        },
        DeclKind::Use(path) => {
            push_spaces(buf, ind);
            push_str(buf, "use ");
            push_string_lit(buf, path.as_str());
        },
        DeclKind::Signature(sig) => {
            push_spaces(buf, ind);
            push_str(buf, "signature ");
            push_str(buf, sig.name.as_str());
            push_str(buf, " = sig\n");
            push_sig_specs(buf, &sig.specs, ind);
            push_spaces(buf, ind);
            push_str(buf, "end");
        },
        DeclKind::Structure { name, signature, opaque, decls } => {
            push_spaces(buf, ind);
            push_str(buf, "structure ");
            push_str(buf, name.as_str());
            let ghost before_sig = buf@;
            match signature {
                Some(x) => {
                    if *opaque {
                        push_str(buf, " :> ");
                    } else {
                        push_str(buf, " : ");
                    }
                    push_str(buf, x.as_str());
                },
                None => {},
            }
            proof {
                let sig_text = match signature {
                    Some(x) => if *opaque {
                        " :> "@ + x@
                    } else {
                        " : "@ + x@
                    },
                    None => Seq::<char>::empty(),
                };
                assert(buf@ =~= before_sig + sig_text);
            }
            push_str(buf, " = struct\n");
            proof {
                assert(decreases_to!(d.kind => d.kind->decls));
                assert(decreases_to!(d.kind->decls => decls@));
            }
            pretty_decl_list(buf, decls, inner, Ghost(*d));
            if decls.len() > 0 {
                push_str(buf, "\n");
            }
            push_spaces(buf, ind);
            push_str(buf, "end");
        },
        DeclKind::Effect(name, payload) => {
            push_spaces(buf, ind);
            push_str(buf, "effect ");
            push_str(buf, name.as_str());
            let ghost before_payload = buf@;
            match payload {
                Some(ty) => {
                    push_str(buf, " of ");
                    pretty_type(buf, ty);
                },
                None => {},
            }
            proof {
                let payload_text = match payload {
                    Some(ty) => " of "@ + pp_type(*ty),
                    None => Seq::<char>::empty(),
                };
                assert(buf@ =~= before_payload + payload_text);
            }
        },
    }
}

/// Prints a program as source text.
pub fn pretty_program(prog: &Program) -> (r: String)
    ensures
        r@ == program_text(*prog),
{
    let mut buf = String::new();
    let ghost b = buf@;
    let ds = &prog.decls;
    let mut i: usize = 0;
    while i < ds.len()
        invariant
            i <= ds@.len(),
            ds == &prog.decls,
            b == Seq::<char>::empty(),
            buf@ == emit_decl_list(b, ds@.take(i as int), 0),
        decreases ds@.len() - i,
    {
        assert(ds@.take(i + 1).drop_last() =~= ds@.take(i as int));
        if i > 0 {
            ensure_blank_line(&mut buf);
        }
        pretty_decl(&mut buf, &ds[i], 0);
        i = i + 1;
    }
    assert(ds@.take(ds@.len() as int) =~= ds@);
    buf
}

} // verus!
