//! Desugaring: parentheses dropped, list literals turned into cons cells,
//! `andalso`, `orelse` and `not` turned into conditionals, and a function
//! of several clauses turned into one clause that cases on its arguments.
use vstd::prelude::*;
use crate::syntax::ast::{BinOp, Decl, DeclKind, EffectHandler, Expr, ExprKind, FunBinding, FunClause, Pat, PatKind};
use crate::syntax::pretty::{digits, push_digits};
use crate::syntax::span::Span;
use crate::text::to_string;

verus! {

// ── Patterns ─────────────────────────────────────────────────────────────

/// `b` is `a` desugared: parentheses dropped, a non-empty list pattern
/// made into cons cells ending in the empty list, all at the list's span.
pub open spec fn pat_de(a: Pat, b: Pat) -> bool
    decreases a, 1nat,
{
    match a.kind {
        PatKind::Paren(p) => pat_de(*p, b),
        PatKind::List(ps) => if ps@.len() > 0 {
            pat_chain(ps@, b, a.span)
        } else {
            b == a
        },
        PatKind::Tuple(ps) => b.span == a.span && (b.kind matches PatKind::Tuple(qs) && pats_de(ps@, qs@)),
        PatKind::Constructor(n, p) => b.span == a.span && (b.kind matches PatKind::Constructor(m, q) && m == n && match (p, q) {
            (Some(p1), Some(q1)) => pat_de(*p1, *q1),
            (None, None) => true,
            _ => false,
        }),
        PatKind::Cons(h, t) => b.span == a.span && (b.kind matches PatKind::Cons(h2, t2) && pat_de(*h, *h2) && pat_de(*t, *t2)),
        PatKind::Ann(p, ty) => b.span == a.span && (b.kind matches PatKind::Ann(q, ty2) && pat_de(*p, *q) && ty2 == ty),
        PatKind::As(x, p) => b.span == a.span && (b.kind matches PatKind::As(y, q) && y == x && pat_de(*p, *q)),
        _ => b == a,
    }
}

/// `b` is the patterns `ps` desugared and consed onto the empty list.
pub open spec fn pat_chain(ps: Seq<Pat>, b: Pat, span: Span) -> bool
    decreases ps, 0nat,
{
    &&& b.span == span
    &&& if ps.len() == 0 {
        b.kind matches PatKind::List(v) && v@.len() == 0
    } else {
        b.kind matches PatKind::Cons(h, t) && pat_de(ps[0], *h) && pat_chain(ps.subrange(1, ps.len() as int), *t, span)
    }
}

pub open spec fn pats_de(xs: Seq<Pat>, ys: Seq<Pat>) -> bool
    decreases xs, 0nat,
{
    &&& xs.len() == ys.len()
    &&& xs.len() > 0 ==> pats_de(xs.drop_last(), ys.drop_last()) && pat_de(xs.last(), ys.last())
}

/// Desugars a pattern.
pub fn desugar_pat(pat: Pat) -> (r: Pat)
    ensures
        pat_de(pat, r),
    decreases pat, 1nat,
{
    let ghost p0 = pat;
    let span = pat.span;
    proof {
        assert(decreases_to!(pat => pat.kind));
    }
    let kind = match pat.kind {
        PatKind::Paren(p) => {
            return desugar_pat(*p);
        },
        PatKind::List(ps) => {
            if ps.len() > 0 {
                let ghost g = ps@;
                return pat_list_chain(ps, span, Ghost(g));
            }
            PatKind::List(ps)
        },
        PatKind::Tuple(ps) => {
            let ghost g = ps@;
            PatKind::Tuple(desugar_pats(ps, Ghost(g)))
        },
        PatKind::Constructor(n, p) => {
            let q = match p {
                Some(p1) => Some(Box::new(desugar_pat(*p1))),
                None => None,
            };
            PatKind::Constructor(n, q)
        },
        PatKind::Cons(h, t) => PatKind::Cons(Box::new(desugar_pat(*h)), Box::new(desugar_pat(*t))),
        PatKind::Ann(p, ty) => PatKind::Ann(Box::new(desugar_pat(*p)), ty),
        PatKind::As(x, p) => PatKind::As(x, Box::new(desugar_pat(*p))),
        other => other,
    };
    Pat { kind, span }
}

fn pat_list_chain(ps: Vec<Pat>, span: Span, Ghost(outer): Ghost<Seq<Pat>>) -> (r: Pat)
    requires
        outer == ps@,
    ensures
        pat_chain(ps@, r, span),
    decreases outer, 0nat,
{
    let ghost all = ps@;
    let mut rest = ps;
    let mut result = Pat { kind: PatKind::List(Vec::new()), span };
    assert(all.subrange(all.len() as int, all.len() as int) =~= Seq::<Pat>::empty());
    while rest.len() > 0
        invariant
            all == outer,
            rest@ == all.take(rest@.len() as int),
            rest@.len() <= all.len(),
            pat_chain(all.subrange(rest@.len() as int, all.len() as int), result, span),
        decreases rest@.len(),
    {
        let k = rest.len();
        let p = match rest.pop() {
            Some(p) => p,
            None => {
                return result;
            },
        };
        assert(p == all[k - 1]);
        assert(decreases_to!(all => all[k - 1]));
        let q = desugar_pat(p);
        proof {
            let suffix = all.subrange(k - 1, all.len() as int);
            assert(suffix[0] == all[k - 1]);
            assert(suffix.subrange(1, suffix.len() as int) =~= all.subrange(k as int, all.len() as int));
        }
        result = Pat { kind: PatKind::Cons(Box::new(q), Box::new(result)), span };
        assert(rest@ =~= all.take(k - 1));
    }
    assert(all.subrange(0, all.len() as int) =~= all);
    result
}

fn desugar_pats(ps: Vec<Pat>, Ghost(outer): Ghost<Seq<Pat>>) -> (r: Vec<Pat>)
    requires
        outer == ps@,
    ensures
        pats_de(ps@, r@),
    decreases outer, 0nat,
{
    let ghost all = ps@;
    let n = ps.len();
    let mut rest = ps;
    let mut out: Vec<Pat> = Vec::new();
    let mut i: usize = 0;
    while rest.len() > 0
        invariant
            all.len() == n,
            all == outer,
            i <= all.len(),
            rest@ == all.skip(i as int),
            pats_de(all.take(i as int), out@),
        decreases rest@.len(),
    {
        let p = rest.remove(0);
        assert(p == all[i as int]);
        assert(decreases_to!(all => all[i as int]));
        let q = desugar_pat(p);
        proof {
            assert(all.take(i + 1).drop_last() =~= all.take(i as int));
            assert(out@.push(q).drop_last() =~= out@);
        }
        out.push(q);
        assert(rest@ =~= all.skip(i + 1));
        i = i + 1;
    }
    assert(all.take(i as int) =~= all);
    out
}

// ── Where desugaring is defined ──────────────────────────────────────────

/// The argument names a function of several clauses is given.
pub open spec fn arg_name(j: nat) -> Seq<char> {
    "_arg"@ + digits(j)
}

/// A function binding of several clauses has clauses, and where the first
/// takes one argument every clause has one.
pub open spec fn binding_ok(b: FunBinding) -> bool {
    b.clauses@.len() != 1 ==> {
        &&& b.clauses@.len() > 0
        &&& b.clauses@[0].pats@.len() == 1 ==> forall|i: int| 0 <= i < b.clauses@.len() ==> (#[trigger] b.clauses@[i]).pats@.len() >= 1
    }
}

/// Desugaring does not meet a signature or a structure among nested
/// declarations, nor a function binding it cannot merge.
pub open spec fn expr_ok(e: Expr) -> bool
    decreases e, 1nat,
{
    match e.kind {
        ExprKind::Paren(x) => expr_ok(*x),
        ExprKind::List(xs) => exprs_ok(xs@),
        ExprKind::Tuple(xs) => exprs_ok(xs@),
        ExprKind::Cons(h, t) => expr_ok(*h) && expr_ok(*t),
        ExprKind::BinOp(_, l, r) => expr_ok(*l) && expr_ok(*r),
        ExprKind::UnaryNeg(x) => expr_ok(*x),
        ExprKind::Not(x) => expr_ok(*x),
        ExprKind::App(f, x) => expr_ok(*f) && expr_ok(*x),
        ExprKind::Fn(_, b) => expr_ok(*b),
        ExprKind::If(c, t, f) => expr_ok(*c) && expr_ok(*t) && expr_ok(*f),
        ExprKind::Let(ds, b) => decls_ok(ds@) && expr_ok(*b),
        ExprKind::Case(x, arms) => expr_ok(*x) && arms_ok(arms@),
        ExprKind::Ann(x, _) => expr_ok(*x),
        ExprKind::Perform(_, x) => expr_ok(*x),
        ExprKind::Handle { body, return_var: _, return_body, handlers } => expr_ok(*body) && expr_ok(*return_body)
            && handlers_ok(handlers@),
        ExprKind::Resume(c, x) => expr_ok(*c) && expr_ok(*x),
        _ => true,
    }
}

pub open spec fn exprs_ok(xs: Seq<Expr>) -> bool
    decreases xs, 0nat,
{
    xs.len() > 0 ==> exprs_ok(xs.drop_last()) && expr_ok(xs.last())
}

pub open spec fn arms_ok(xs: Seq<(Pat, Expr)>) -> bool
    decreases xs, 0nat,
{
    xs.len() > 0 ==> arms_ok(xs.drop_last()) && expr_ok(xs.last().1)
}

pub open spec fn handlers_ok(xs: Seq<EffectHandler>) -> bool
    decreases xs, 0nat,
{
    xs.len() > 0 ==> handlers_ok(xs.drop_last()) && expr_ok(xs.last().body)
}

pub open spec fn decl_ok(d: Decl) -> bool
    decreases d, 1nat,
{
    match d.kind {
        DeclKind::Signature(_) => false,
        DeclKind::Structure { .. } => false,
        DeclKind::Val(_, e) => expr_ok(e),
        DeclKind::ValRec(_, e) => expr_ok(e),
        DeclKind::Fun(bs) => bindings_ok(bs@),
        DeclKind::Local(ls, body) => decls_ok(ls@) && decls_ok(body@),
        _ => true,
    }
}

pub open spec fn decls_ok(ds: Seq<Decl>) -> bool
    decreases ds, 0nat,
{
    ds.len() > 0 ==> decls_ok(ds.drop_last()) && decl_ok(ds.last())
}

pub open spec fn bindings_ok(bs: Seq<FunBinding>) -> bool
    decreases bs, 0nat,
{
    bs.len() > 0 ==> bindings_ok(bs.drop_last()) && binding_ok(bs.last()) && clauses_ok(bs.last().clauses@)
}

pub open spec fn clauses_ok(cs: Seq<FunClause>) -> bool
    decreases cs, 0nat,
{
    cs.len() > 0 ==> clauses_ok(cs.drop_last()) && expr_ok(cs.last().body)
}

// ── Expressions and declarations ─────────────────────────────────────────

/// `b` is `a` desugared.
pub open spec fn expr_de(a: Expr, b: Expr) -> bool
    decreases a, 1nat,
{
    match a.kind {
        ExprKind::Paren(e) => expr_de(*e, b),
        ExprKind::List(xs) => if xs@.len() > 0 {
            expr_chain(xs@, b, a.span)
        } else {
            b == a
        },
        ExprKind::BinOp(op, l, r) => b.span == a.span && if op == BinOp::Andalso {
            b.kind matches ExprKind::If(c, t, f) && expr_de(*l, *c) && expr_de(*r, *t) && f.span == a.span
                && f.kind == ExprKind::BoolLit(false)
        } else if op == BinOp::Orelse {
            b.kind matches ExprKind::If(c, t, f) && expr_de(*l, *c) && t.span == a.span && t.kind == ExprKind::BoolLit(true)
                && expr_de(*r, *f)
        } else {
            b.kind matches ExprKind::BinOp(o2, l2, r2) && o2 == op && expr_de(*l, *l2) && expr_de(*r, *r2)
        },
        ExprKind::Not(e) => b.span == a.span && (b.kind matches ExprKind::If(c, t, f) && expr_de(*e, *c) && t.span == a.span
            && t.kind == ExprKind::BoolLit(false) && f.span == a.span && f.kind == ExprKind::BoolLit(true)),
        ExprKind::UnaryNeg(x) => b.span == a.span && (b.kind matches ExprKind::UnaryNeg(y) && expr_de(*x, *y)),
        ExprKind::App(f, x) => b.span == a.span && (b.kind matches ExprKind::App(g, y) && expr_de(*f, *g) && expr_de(*x, *y)),
        ExprKind::Fn(p, body) => b.span == a.span && (b.kind matches ExprKind::Fn(q, body2) && pat_de(p, q) && expr_de(*body, *body2)),
        ExprKind::If(c, t, f) => b.span == a.span && (b.kind matches ExprKind::If(c2, t2, f2) && expr_de(*c, *c2) && expr_de(*t, *t2)
            && expr_de(*f, *f2)),
        ExprKind::Let(ds, body) => b.span == a.span && (b.kind matches ExprKind::Let(ds2, body2) && decls_de(ds@, ds2@)
            && expr_de(*body, *body2)),
        ExprKind::Case(x, arms) => b.span == a.span && (b.kind matches ExprKind::Case(y, arms2) && expr_de(*x, *y)
            && arms_de(arms@, arms2@)),
        ExprKind::Tuple(xs) => b.span == a.span && (b.kind matches ExprKind::Tuple(ys) && exprs_de(xs@, ys@)),
        ExprKind::Cons(h, t) => b.span == a.span && (b.kind matches ExprKind::Cons(h2, t2) && expr_de(*h, *h2) && expr_de(*t, *t2)),
        ExprKind::Ann(x, ty) => b.span == a.span && (b.kind matches ExprKind::Ann(y, ty2) && expr_de(*x, *y) && ty2 == ty),
        ExprKind::Perform(n, x) => b.span == a.span && (b.kind matches ExprKind::Perform(m, y) && m == n && expr_de(*x, *y)),
        ExprKind::Handle { body, return_var, return_body, handlers } => b.span == a.span && (b.kind matches ExprKind::Handle {
            body: body2,
            return_var: rv2,
            return_body: rb2,
            handlers: hs2,
        } && expr_de(*body, *body2) && rv2 == return_var && expr_de(*return_body, *rb2) && handlers_de(handlers@, hs2@)),
        ExprKind::Resume(c, x) => b.span == a.span && (b.kind matches ExprKind::Resume(c2, y) && expr_de(*c, *c2) && expr_de(*x, *y)),
        _ => b == a,
    }
}

/// `b` is the expressions `xs` desugared and consed onto the empty list.
pub open spec fn expr_chain(xs: Seq<Expr>, b: Expr, span: Span) -> bool
    decreases xs, 0nat,
{
    &&& b.span == span
    &&& if xs.len() == 0 {
        b.kind matches ExprKind::List(v) && v@.len() == 0
    } else {
        b.kind matches ExprKind::Cons(h, t) && expr_de(xs[0], *h) && expr_chain(xs.subrange(1, xs.len() as int), *t, span)
    }
}

pub open spec fn exprs_de(xs: Seq<Expr>, ys: Seq<Expr>) -> bool
    decreases xs, 0nat,
{
    &&& xs.len() == ys.len()
    &&& xs.len() > 0 ==> exprs_de(xs.drop_last(), ys.drop_last()) && expr_de(xs.last(), ys.last())
}

pub open spec fn arms_de(xs: Seq<(Pat, Expr)>, ys: Seq<(Pat, Expr)>) -> bool
    decreases xs, 0nat,
{
    &&& xs.len() == ys.len()
    &&& xs.len() > 0 ==> arms_de(xs.drop_last(), ys.drop_last()) && pat_de(xs.last().0, ys.last().0)
        && expr_de(xs.last().1, ys.last().1)
}

pub open spec fn handlers_de(xs: Seq<EffectHandler>, ys: Seq<EffectHandler>) -> bool
    decreases xs, 0nat,
{
    &&& xs.len() == ys.len()
    &&& xs.len() > 0 ==> {
        let h = xs.last();
        let h2 = ys.last();
        &&& handlers_de(xs.drop_last(), ys.drop_last())
        &&& h2.effect_name == h.effect_name
        &&& h2.payload_var == h.payload_var
        &&& h2.cont_var == h.cont_var
        &&& h2.span == h.span
        &&& expr_de(h.body, h2.body)
    }
}

/// `b` is `a` desugared.
pub open spec fn decl_de(a: Decl, b: Decl) -> bool
    decreases a, 1nat,
{
    &&& b.span == a.span
    &&& match a.kind {
        DeclKind::Val(p, e) => b.kind matches DeclKind::Val(q, e2) && pat_de(p, q) && expr_de(e, e2),
        DeclKind::ValRec(x, e) => b.kind matches DeclKind::ValRec(y, e2) && y == x && expr_de(e, e2),
        DeclKind::Fun(bs) => b.kind matches DeclKind::Fun(bs2) && bindings_de(bs@, bs2@),
        DeclKind::Local(ls, body) => b.kind matches DeclKind::Local(ls2, body2) && decls_de(ls@, ls2@) && decls_de(body@, body2@),
        DeclKind::Signature(_) => false,
        DeclKind::Structure { .. } => false,
        _ => b == a,
    }
}

pub open spec fn decls_de(xs: Seq<Decl>, ys: Seq<Decl>) -> bool
    decreases xs, 0nat,
{
    &&& xs.len() == ys.len()
    &&& xs.len() > 0 ==> decls_de(xs.drop_last(), ys.drop_last()) && decl_de(xs.last(), ys.last())
}

pub open spec fn bindings_de(xs: Seq<FunBinding>, ys: Seq<FunBinding>) -> bool
    decreases xs, 0nat,
{
    &&& xs.len() == ys.len()
    &&& xs.len() > 0 ==> bindings_de(xs.drop_last(), ys.drop_last()) && fun_de(xs.last(), ys.last())
}

/// Each clause desugared.
pub open spec fn clauses_de(xs: Seq<FunClause>, ys: Seq<FunClause>) -> bool
    decreases xs, 0nat,
{
    &&& xs.len() == ys.len()
    &&& xs.len() > 0 ==> {
        let c = xs.last();
        let d = ys.last();
        &&& clauses_de(xs.drop_last(), ys.drop_last())
        &&& d.span == c.span
        &&& pats_de(c.pats@, d.pats@)
        &&& expr_de(c.body, d.body)
    }
}

/// The arms a merged function cases over: each clause's pattern (its
/// patterns as a tuple at the clause's span, or its one pattern) with its
/// body, desugared.
pub open spec fn merged_arms(xs: Seq<FunClause>, ys: Seq<(Pat, Expr)>, arity: nat) -> bool
    decreases xs, 0nat,
{
    &&& xs.len() == ys.len()
    &&& xs.len() > 0 ==> {
        let c = xs.last();
        let arm = ys.last();
        &&& merged_arms(xs.drop_last(), ys.drop_last(), arity)
        &&& if arity == 1 {
            pat_de(c.pats@[0], arm.0)
        } else {
            arm.0.span == c.span && (arm.0.kind matches PatKind::Tuple(ps) && pats_de(c.pats@, ps@))
        }
        &&& expr_de(c.body, arm.1)
    }
}

/// The variable `_arg{j}` at `span`.
pub open spec fn is_arg_var(e: Expr, j: nat, span: Span) -> bool {
    e.span == span && (e.kind matches ExprKind::Var(x) && x@ == arg_name(j))
}

/// A function binding desugared: one clause stays one clause; several
/// become one clause taking `_arg0`, `_arg1`, ... that cases on them.
pub open spec fn fun_de(a: FunBinding, b: FunBinding) -> bool
    decreases a, 1nat,
{
    &&& b.name == a.name
    &&& b.span == a.span
    &&& if a.clauses@.len() == 1 {
        clauses_de(a.clauses@, b.clauses@)
    } else {
        let arity = a.clauses@[0].pats@.len();
        let m = b.clauses@[0];
        &&& b.clauses@.len() == 1
        &&& m.span == a.span
        &&& m.pats@.len() == arity
        &&& forall|j: int| 0 <= j < arity ==> (#[trigger] m.pats@[j]).span == a.span && (m.pats@[j].kind matches PatKind::Var(x)
            && x@ == arg_name(j as nat))
        &&& m.body.span == a.span
        &&& m.body.kind matches ExprKind::Case(scr, arms) && merged_arms(a.clauses@, arms@, arity) && if arity == 1 {
            is_arg_var(*scr, 0, a.span)
        } else {
            scr.span == a.span && (scr.kind matches ExprKind::Tuple(es) && es@.len() == arity && forall|j: int|
                0 <= j < arity ==> is_arg_var(#[trigger] es@[j], j as nat, a.span))
        }
    }
}

// ── Lemmas ───────────────────────────────────────────────────────────────

proof fn lemma_exprs_ok_at(xs: Seq<Expr>, i: int)
    requires
        exprs_ok(xs),
        0 <= i < xs.len(),
    ensures
        expr_ok(xs[i]),
    decreases xs.len(),
{
    if i < xs.len() - 1 {
        lemma_exprs_ok_at(xs.drop_last(), i);
    }
}

proof fn lemma_arms_ok_at(xs: Seq<(Pat, Expr)>, i: int)
    requires
        arms_ok(xs),
        0 <= i < xs.len(),
    ensures
        expr_ok(xs[i].1),
    decreases xs.len(),
{
    if i < xs.len() - 1 {
        lemma_arms_ok_at(xs.drop_last(), i);
    }
}

proof fn lemma_handlers_ok_at(xs: Seq<EffectHandler>, i: int)
    requires
        handlers_ok(xs),
        0 <= i < xs.len(),
    ensures
        expr_ok(xs[i].body),
    decreases xs.len(),
{
    if i < xs.len() - 1 {
        lemma_handlers_ok_at(xs.drop_last(), i);
    }
}

proof fn lemma_decls_ok_at(xs: Seq<Decl>, i: int)
    requires
        decls_ok(xs),
        0 <= i < xs.len(),
    ensures
        decl_ok(xs[i]),
    decreases xs.len(),
{
    if i < xs.len() - 1 {
        lemma_decls_ok_at(xs.drop_last(), i);
    }
}

proof fn lemma_bindings_ok_at(xs: Seq<FunBinding>, i: int)
    requires
        bindings_ok(xs),
        0 <= i < xs.len(),
    ensures
        binding_ok(xs[i]),
        clauses_ok(xs[i].clauses@),
    decreases xs.len(),
{
    if i < xs.len() - 1 {
        lemma_bindings_ok_at(xs.drop_last(), i);
    }
}

proof fn lemma_clauses_ok_at(xs: Seq<FunClause>, i: int)
    requires
        clauses_ok(xs),
        0 <= i < xs.len(),
    ensures
        expr_ok(xs[i].body),
    decreases xs.len(),
{
    if i < xs.len() - 1 {
        lemma_clauses_ok_at(xs.drop_last(), i);
    }
}

proof fn lemma_pats_de_at(xs: Seq<Pat>, ys: Seq<Pat>, i: int)
    requires
        pats_de(xs, ys),
        0 <= i < xs.len(),
    ensures
        pat_de(xs[i], ys[i]),
    decreases xs.len(),
{
    if i < xs.len() - 1 {
        lemma_pats_de_at(xs.drop_last(), ys.drop_last(), i);
    }
}

proof fn lemma_clauses_de_at(xs: Seq<FunClause>, ys: Seq<FunClause>, i: int)
    requires
        clauses_de(xs, ys),
        0 <= i < xs.len(),
    ensures
        ys[i].span == xs[i].span,
        pats_de(xs[i].pats@, ys[i].pats@),
        expr_de(xs[i].body, ys[i].body),
    decreases xs.len(),
{
    if i < xs.len() - 1 {
        lemma_clauses_de_at(xs.drop_last(), ys.drop_last(), i);
    }
}

// ── Executable desugaring ────────────────────────────────────────────────

/// Desugars an expression.
pub fn desugar_expr(expr: Expr) -> (r: Expr)
    requires
        expr_ok(expr),
    ensures
        expr_de(expr, r),
    decreases expr, 5nat,
{
    let span = expr.span;
    proof {
        assert(decreases_to!(expr => expr.kind));
    }
    let kind = match expr.kind {
        ExprKind::Paren(e) => {
            return desugar_expr(*e);
        },
        ExprKind::List(xs) => {
            if xs.len() > 0 {
                let ghost g = xs@;
                return expr_list_chain(xs, span, Ghost(g));
            }
            ExprKind::List(xs)
        },
        ExprKind::BinOp(op, l, r) => {
            if op == BinOp::Andalso {
                ExprKind::If(
                    Box::new(desugar_expr(*l)),
                    Box::new(desugar_expr(*r)),
                    Box::new(Expr { kind: ExprKind::BoolLit(false), span }),
                )
            } else if op == BinOp::Orelse {
                let c = desugar_expr(*l);
                let f = desugar_expr(*r);
                ExprKind::If(Box::new(c), Box::new(Expr { kind: ExprKind::BoolLit(true), span }), Box::new(f))
            } else {
                ExprKind::BinOp(op, Box::new(desugar_expr(*l)), Box::new(desugar_expr(*r)))
            }
        },
        ExprKind::Not(e) => ExprKind::If(
            Box::new(desugar_expr(*e)),
            Box::new(Expr { kind: ExprKind::BoolLit(false), span }),
            Box::new(Expr { kind: ExprKind::BoolLit(true), span }),
        ),
        ExprKind::UnaryNeg(x) => ExprKind::UnaryNeg(Box::new(desugar_expr(*x))),
        ExprKind::App(f, x) => ExprKind::App(Box::new(desugar_expr(*f)), Box::new(desugar_expr(*x))),
        ExprKind::Fn(p, body) => {
            let q = desugar_pat(p);
            ExprKind::Fn(q, Box::new(desugar_expr(*body)))
        },
        ExprKind::If(c, t, f) => ExprKind::If(
            Box::new(desugar_expr(*c)),
            Box::new(desugar_expr(*t)),
            Box::new(desugar_expr(*f)),
        ),
        ExprKind::Let(ds, body) => {
            let ghost g = ds@;
            let ds2 = desugar_decls(ds, Ghost(g));
            ExprKind::Let(ds2, Box::new(desugar_expr(*body)))
        },
        ExprKind::Case(x, arms) => {
            let x2 = desugar_expr(*x);
            let ghost g = arms@;
            ExprKind::Case(Box::new(x2), desugar_arms(arms, Ghost(g)))
        },
        ExprKind::Tuple(xs) => {
            let ghost g = xs@;
            ExprKind::Tuple(desugar_exprs(xs, Ghost(g)))
        },
        ExprKind::Cons(h, t) => ExprKind::Cons(Box::new(desugar_expr(*h)), Box::new(desugar_expr(*t))),
        ExprKind::Ann(x, ty) => ExprKind::Ann(Box::new(desugar_expr(*x)), ty),
        ExprKind::Perform(n, x) => ExprKind::Perform(n, Box::new(desugar_expr(*x))),
        ExprKind::Handle { body, return_var, return_body, handlers } => {
            let body2 = desugar_expr(*body);
            let rb2 = desugar_expr(*return_body);
            let ghost g = handlers@;
            let hs2 = desugar_handlers(handlers, Ghost(g));
            ExprKind::Handle { body: Box::new(body2), return_var, return_body: Box::new(rb2), handlers: hs2 }
        },
        ExprKind::Resume(c, x) => ExprKind::Resume(Box::new(desugar_expr(*c)), Box::new(desugar_expr(*x))),
        other => other,
    };
    Expr { kind, span }
}

fn expr_list_chain(xs: Vec<Expr>, span: Span, Ghost(outer): Ghost<Seq<Expr>>) -> (r: Expr)
    requires
        outer == xs@,
        exprs_ok(xs@),
    ensures
        expr_chain(xs@, r, span),
    decreases outer, 1nat,
{
    let ghost all = xs@;
    let mut rest = xs;
    let mut result = Expr { kind: ExprKind::List(Vec::new()), span };
    assert(all.subrange(all.len() as int, all.len() as int) =~= Seq::<Expr>::empty());
    while rest.len() > 0
        invariant
            all == outer,
            exprs_ok(all),
            rest@ == all.take(rest@.len() as int),
            rest@.len() <= all.len(),
            expr_chain(all.subrange(rest@.len() as int, all.len() as int), result, span),
        decreases rest@.len(),
    {
        let k = rest.len();
        let e = match rest.pop() {
            Some(e) => e,
            None => {
                return result;
            },
        };
        assert(e == all[k - 1]);
        assert(decreases_to!(all => all[k - 1]));
        proof {
            lemma_exprs_ok_at(all, k - 1);
        }
        let d = desugar_expr(e);
        proof {
            let suffix = all.subrange(k - 1, all.len() as int);
            assert(suffix[0] == all[k - 1]);
            assert(suffix.subrange(1, suffix.len() as int) =~= all.subrange(k as int, all.len() as int));
        }
        result = Expr { kind: ExprKind::Cons(Box::new(d), Box::new(result)), span };
        assert(rest@ =~= all.take(k - 1));
    }
    assert(all.subrange(0, all.len() as int) =~= all);
    result
}

fn desugar_exprs(xs: Vec<Expr>, Ghost(outer): Ghost<Seq<Expr>>) -> (r: Vec<Expr>)
    requires
        outer == xs@,
        exprs_ok(xs@),
    ensures
        exprs_de(xs@, r@),
    decreases outer, 1nat,
{
    let ghost all = xs@;
    let n = xs.len();
    let mut rest = xs;
    let mut out: Vec<Expr> = Vec::new();
    let mut i: usize = 0;
    while rest.len() > 0
        invariant
            all.len() == n,
            all == outer,
            exprs_ok(all),
            i <= all.len(),
            rest@ == all.skip(i as int),
            exprs_de(all.take(i as int), out@),
        decreases rest@.len(),
    {
        let e = rest.remove(0);
        assert(e == all[i as int]);
        assert(decreases_to!(all => all[i as int]));
        proof {
            lemma_exprs_ok_at(all, i as int);
        }
        let d = desugar_expr(e);
        proof {
            assert(all.take(i + 1).drop_last() =~= all.take(i as int));
            assert(out@.push(d).drop_last() =~= out@);
        }
        out.push(d);
        assert(rest@ =~= all.skip(i + 1));
        i = i + 1;
    }
    assert(all.take(i as int) =~= all);
    out
}

fn desugar_arms(arms: Vec<(Pat, Expr)>, Ghost(outer): Ghost<Seq<(Pat, Expr)>>) -> (r: Vec<(Pat, Expr)>)
    requires
        outer == arms@,
        arms_ok(arms@),
    ensures
        arms_de(arms@, r@),
    decreases outer, 1nat,
{
    let ghost all = arms@;
    let n = arms.len();
    let mut rest = arms;
    let mut out: Vec<(Pat, Expr)> = Vec::new();
    let mut i: usize = 0;
    while rest.len() > 0
        invariant
            all.len() == n,
            all == outer,
            arms_ok(all),
            i <= all.len(),
            rest@ == all.skip(i as int),
            arms_de(all.take(i as int), out@),
        decreases rest@.len(),
    {
        let (p, e) = rest.remove(0);
        assert(p == all[i as int].0 && e == all[i as int].1);
        assert(decreases_to!(all => all[i as int]));
        assert(decreases_to!(all[i as int] => all[i as int].1));
        proof {
            lemma_arms_ok_at(all, i as int);
        }
        let q = desugar_pat(p);
        let d = desugar_expr(e);
        proof {
            assert(all.take(i + 1).drop_last() =~= all.take(i as int));
            assert(out@.push((q, d)).drop_last() =~= out@);
        }
        out.push((q, d));
        assert(rest@ =~= all.skip(i + 1));
        i = i + 1;
    }
    assert(all.take(i as int) =~= all);
    out
}

fn desugar_handlers(hs: Vec<EffectHandler>, Ghost(outer): Ghost<Seq<EffectHandler>>) -> (r: Vec<EffectHandler>)
    requires
        outer == hs@,
        handlers_ok(hs@),
    ensures
        handlers_de(hs@, r@),
    decreases outer, 1nat,
{
    let ghost all = hs@;
    let n = hs.len();
    let mut rest = hs;
    let mut out: Vec<EffectHandler> = Vec::new();
    let mut i: usize = 0;
    while rest.len() > 0
        invariant
            all.len() == n,
            all == outer,
            handlers_ok(all),
            i <= all.len(),
            rest@ == all.skip(i as int),
            handlers_de(all.take(i as int), out@),
        decreases rest@.len(),
    {
        let h = rest.remove(0);
        assert(h == all[i as int]);
        assert(decreases_to!(all => all[i as int]));
        assert(decreases_to!(all[i as int] => all[i as int].body));
        proof {
            lemma_handlers_ok_at(all, i as int);
        }
        let EffectHandler { effect_name, payload_var, cont_var, body, span } = h;
        let h2 = EffectHandler { effect_name, payload_var, cont_var, body: desugar_expr(body), span };
        proof {
            assert(all.take(i + 1).drop_last() =~= all.take(i as int));
            assert(out@.push(h2).drop_last() =~= out@);
        }
        out.push(h2);
        assert(rest@ =~= all.skip(i + 1));
        i = i + 1;
    }
    assert(all.take(i as int) =~= all);
    out
}

fn desugar_decls(ds: Vec<Decl>, Ghost(outer): Ghost<Seq<Decl>>) -> (r: Vec<Decl>)
    requires
        outer == ds@,
        decls_ok(ds@),
    ensures
        decls_de(ds@, r@),
    decreases outer, 3nat,
{
    let ghost all = ds@;
    let n = ds.len();
    let mut rest = ds;
    let mut out: Vec<Decl> = Vec::new();
    let mut i: usize = 0;
    while rest.len() > 0
        invariant
            all.len() == n,
            all == outer,
            decls_ok(all),
            i <= all.len(),
            rest@ == all.skip(i as int),
            decls_de(all.take(i as int), out@),
        decreases rest@.len(),
    {
        let d = rest.remove(0);
        assert(d == all[i as int]);
        assert(decreases_to!(all => all[i as int]));
        proof {
            lemma_decls_ok_at(all, i as int);
        }
        let d2 = desugar_decl(d);
        proof {
            assert(all.take(i + 1).drop_last() =~= all.take(i as int));
            assert(out@.push(d2).drop_last() =~= out@);
        }
        out.push(d2);
        assert(rest@ =~= all.skip(i + 1));
        i = i + 1;
    }
    assert(all.take(i as int) =~= all);
    out
}

/// Desugars a declaration (not a signature or a structure: those are
/// removed or flattened before).
pub fn desugar_decl(decl: Decl) -> (r: Decl)
    requires
        decl_ok(decl),
    ensures
        decl_de(decl, r),
    decreases decl, 5nat,
{
    let span = decl.span;
    proof {
        assert(decreases_to!(decl => decl.kind));
    }
    let kind = match decl.kind {
        DeclKind::Val(p, e) => {
            let q = desugar_pat(p);
            DeclKind::Val(q, desugar_expr(e))
        },
        DeclKind::ValRec(x, e) => DeclKind::ValRec(x, desugar_expr(e)),
        DeclKind::Fun(bs) => {
            let ghost g = bs@;
            DeclKind::Fun(desugar_bindings(bs, Ghost(g)))
        },
        DeclKind::Local(ls, body) => {
            let ghost g1 = ls@;
            let ghost g2 = body@;
            let ls2 = desugar_decls(ls, Ghost(g1));
            DeclKind::Local(ls2, desugar_decls(body, Ghost(g2)))
        },
        other => other,
    };
    Decl { kind, span }
}

fn desugar_bindings(bs: Vec<FunBinding>, Ghost(outer): Ghost<Seq<FunBinding>>) -> (r: Vec<FunBinding>)
    requires
        outer == bs@,
        bindings_ok(bs@),
    ensures
        bindings_de(bs@, r@),
    decreases outer, 3nat,
{
    let ghost all = bs@;
    let n = bs.len();
    let mut rest = bs;
    let mut out: Vec<FunBinding> = Vec::new();
    let mut i: usize = 0;
    while rest.len() > 0
        invariant
            all.len() == n,
            all == outer,
            bindings_ok(all),
            i <= all.len(),
            rest@ == all.skip(i as int),
            bindings_de(all.take(i as int), out@),
        decreases rest@.len(),
    {
        let b = rest.remove(0);
        assert(b == all[i as int]);
        assert(decreases_to!(all => all[i as int]));
        proof {
            lemma_bindings_ok_at(all, i as int);
        }
        let ghost gb = b;
        let b2 = desugar_fun_binding_in(b, Ghost(gb));
        proof {
            assert(all.take(i + 1).drop_last() =~= all.take(i as int));
            assert(out@.push(b2).drop_last() =~= out@);
        }
        out.push(b2);
        assert(rest@ =~= all.skip(i + 1));
        i = i + 1;
    }
    assert(all.take(i as int) =~= all);
    out
}

/// Desugars a function binding: its clauses' patterns and bodies, and, where
/// it has several clauses, merges them into one that takes `_arg0`,
/// `_arg1`, ... and cases on them.
pub fn desugar_fun_binding(binding: FunBinding) -> (r: FunBinding)
    requires
        binding_ok(binding),
        clauses_ok(binding.clauses@),
    ensures
        fun_de(binding, r),
{
    let ghost g = binding;
    desugar_fun_binding_in(binding, Ghost(g))
}

fn desugar_fun_binding_in(binding: FunBinding, Ghost(outer): Ghost<FunBinding>) -> (r: FunBinding)
    requires
        outer == binding,
        binding_ok(binding),
        clauses_ok(binding.clauses@),
    ensures
        fun_de(binding, r),
    decreases outer, 2nat,
{
    let ghost b0 = binding;
    assert(decreases_to!(b0 => b0.clauses));
    let FunBinding { name, clauses, span } = binding;
    let ghost all = clauses@;
    assert(decreases_to!(b0.clauses => all));
    let n = clauses.len();
    let mut rest = clauses;
    let mut cs: Vec<FunClause> = Vec::new();
    let mut i: usize = 0;
    while rest.len() > 0
        invariant
            all.len() == n,
            i <= all.len(),
            rest@ == all.skip(i as int),
            decreases_to!(outer => all),
            clauses_ok(all),
            clauses_de(all.take(i as int), cs@),
        decreases rest@.len(),
    {
        let c = rest.remove(0);
        assert(c == all[i as int]);
        assert(decreases_to!(all => all[i as int]));
        assert(decreases_to!(all[i as int] => all[i as int].body));
        proof {
            lemma_clauses_ok_at(all, i as int);
        }
        let FunClause { pats, body, span: cspan } = c;
        let ghost gp = pats@;
        let pats2 = desugar_pats(pats, Ghost(gp));
        let body2 = desugar_expr(body);
        let c2 = FunClause { pats: pats2, body: body2, span: cspan };
        proof {
            assert(all.take(i + 1).drop_last() =~= all.take(i as int));
            assert(cs@.push(c2).drop_last() =~= cs@);
        }
        cs.push(c2);
        assert(rest@ =~= all.skip(i + 1));
        i = i + 1;
    }
    assert(all.take(i as int) =~= all);
    if cs.len() == 1 {
        return FunBinding { name, clauses: cs, span };
    }
    proof {
        lemma_clauses_de_at(all, cs@, 0);
    }
    let arity = cs[0].pats.len();
    // the argument variables, as patterns and as expressions
    let mut arg_pats: Vec<Pat> = Vec::new();
    let mut arg_exprs: Vec<Expr> = Vec::new();
    let mut j: usize = 0;
    while j < arity
        invariant
            j <= arity,
            arg_pats@.len() == j,
            arg_exprs@.len() == j,
            forall|q: int| 0 <= q < j ==> (#[trigger] arg_pats@[q]).span == span && (arg_pats@[q].kind matches PatKind::Var(x)
                && x@ == arg_name(q as nat)),
            forall|q: int| 0 <= q < j ==> is_arg_var(#[trigger] arg_exprs@[q], q as nat, span),
        decreases arity - j,
    {
        let mut a = to_string("_arg");
        push_digits(&mut a, j as u64);
        let mut b = to_string("_arg");
        push_digits(&mut b, j as u64);
        arg_pats.push(Pat { kind: PatKind::Var(a), span });
        arg_exprs.push(Expr { kind: ExprKind::Var(b), span });
        j = j + 1;
    }
    // the arms: each clause's patterns with its body
    let ghost ds = cs@;
    let m = cs.len();
    let mut rest2 = cs;
    let mut arms: Vec<(Pat, Expr)> = Vec::new();
    let mut k: usize = 0;
    while rest2.len() > 0
        invariant
            ds.len() == m,
            all.len() == m,
            k <= m,
            rest2@ == ds.skip(k as int),
            clauses_de(all, ds),
            arity == all[0].pats@.len(),
            arity == 1 ==> forall|q: int| 0 <= q < all.len() ==> (#[trigger] all[q]).pats@.len() >= 1,
            merged_arms(all.take(k as int), arms@, arity as nat),
        decreases rest2@.len(),
    {
        let c = rest2.remove(0);
        assert(c == ds[k as int]);
        proof {
            lemma_clauses_de_at(all, ds, k as int);
        }
        let FunClause { pats, body, span: cspan } = c;
        let pat = if arity == 1 {
            let mut ps = pats;
            proof {
                lemma_pats_de_at(all[k as int].pats@, ps@, 0);
            }
            ps.remove(0)
        } else {
            Pat { kind: PatKind::Tuple(pats), span: cspan }
        };
        proof {
            assert(all.take(k + 1).drop_last() =~= all.take(k as int));
            assert(all.take(k + 1).last() == all[k as int]);
            assert(arms@.push((pat, body)).drop_last() =~= arms@);
        }
        arms.push((pat, body));
        assert(rest2@ =~= ds.skip(k + 1));
        k = k + 1;
    }
    assert(all.take(k as int) =~= all);
    let scrutinee = if arity == 1 {
        let e = arg_exprs.remove(0);
        e
    } else {
        Expr { kind: ExprKind::Tuple(arg_exprs), span }
    };
    let case_expr = Expr { kind: ExprKind::Case(Box::new(scrutinee), arms), span };
    let mut merged: Vec<FunClause> = Vec::new();
    merged.push(FunClause { pats: arg_pats, body: case_expr, span });
    FunBinding { name, clauses: merged, span }
}


// ── Checking that desugaring applies ───────────────────────────────────

/// Whether `e` meets `expr_ok`.
pub fn check_expr_ok(e: &Expr) -> (r: bool)
    ensures
        r == expr_ok(*e),
    decreases *e, 1nat,
{
    proof {
        assert(decreases_to!(*e => e.kind));
    }
    match &e.kind {
        ExprKind::Paren(x) => check_expr_ok(x),
        ExprKind::List(xs) => check_exprs_ok(xs, Ghost(*e)),
        ExprKind::Tuple(xs) => check_exprs_ok(xs, Ghost(*e)),
        ExprKind::Cons(h, t) => check_expr_ok(h) && check_expr_ok(t),
        ExprKind::BinOp(_, l, r) => check_expr_ok(l) && check_expr_ok(r),
        ExprKind::UnaryNeg(x) => check_expr_ok(x),
        ExprKind::Not(x) => check_expr_ok(x),
        ExprKind::App(f, x) => check_expr_ok(f) && check_expr_ok(x),
        ExprKind::Fn(_, b) => check_expr_ok(b),
        ExprKind::If(c, t, f) => check_expr_ok(c) && check_expr_ok(t) && check_expr_ok(f),
        ExprKind::Let(ds, b) => check_decls_ok(ds, Ghost(ds@)) && check_expr_ok(b),
        ExprKind::Case(x, arms) => {
            let a = check_expr_ok(x);
            let mut ok = true;
            let mut i: usize = 0;
            proof {
                assert(decreases_to!(*e => arms@));
            }
            while i < arms.len()
                invariant
                    i <= arms@.len(),
                    decreases_to!(*e => arms@),
                    ok == arms_ok(arms@.take(i as int)),
                decreases arms@.len() - i,
            {
                assert(decreases_to!(arms@ => arms@[i as int]));
                let b = check_expr_ok(&arms[i].1);
                proof {
                    let pre = arms@.take(i + 1);
                    assert(pre.drop_last() =~= arms@.take(i as int));
                    assert(pre.last() == arms@[i as int]);
                }
                ok = ok && b;
                i = i + 1;
            }
            assert(arms@.take(arms@.len() as int) =~= arms@);
            a && ok
        },
        ExprKind::Ann(x, _) => check_expr_ok(x),
        ExprKind::Perform(_, x) => check_expr_ok(x),
        ExprKind::Handle { body, return_var: _, return_body, handlers } => {
            let a = check_expr_ok(body);
            let b = check_expr_ok(return_body);
            let mut ok = true;
            let mut i: usize = 0;
            proof {
                assert(decreases_to!(*e => handlers@));
            }
            while i < handlers.len()
                invariant
                    i <= handlers@.len(),
                    decreases_to!(*e => handlers@),
                    ok == handlers_ok(handlers@.take(i as int)),
                decreases handlers@.len() - i,
            {
                assert(decreases_to!(handlers@ => handlers@[i as int]));
                let c = check_expr_ok(&handlers[i].body);
                proof {
                    let pre = handlers@.take(i + 1);
                    assert(pre.drop_last() =~= handlers@.take(i as int));
                    assert(pre.last() == handlers@[i as int]);
                }
                ok = ok && c;
                i = i + 1;
            }
            assert(handlers@.take(handlers@.len() as int) =~= handlers@);
            a && b && ok
        },
        ExprKind::Resume(c, x) => check_expr_ok(c) && check_expr_ok(x),
        _ => true,
    }
}

fn check_exprs_ok(xs: &Vec<Expr>, Ghost(outer): Ghost<Expr>) -> (r: bool)
    requires
        decreases_to!(outer => xs@),
    ensures
        r == exprs_ok(xs@),
    decreases outer, 0nat,
{
    let mut ok = true;
    let mut i: usize = 0;
    while i < xs.len()
        invariant
            i <= xs@.len(),
            decreases_to!(outer => xs@),
            ok == exprs_ok(xs@.take(i as int)),
        decreases xs@.len() - i,
    {
        assert(decreases_to!(xs@ => xs@[i as int]));
        let b = check_expr_ok(&xs[i]);
        proof {
            let pre = xs@.take(i + 1);
            assert(pre.drop_last() =~= xs@.take(i as int));
            assert(pre.last() == xs@[i as int]);
        }
        ok = ok && b;
        i = i + 1;
    }
    assert(xs@.take(xs@.len() as int) =~= xs@);
    ok
}

fn check_decls_ok(ds: &Vec<Decl>, Ghost(outer): Ghost<Seq<Decl>>) -> (r: bool)
    requires
        outer == ds@,
    ensures
        r == decls_ok(ds@),
    decreases outer, 0nat,
{
    let mut ok = true;
    let mut i: usize = 0;
    while i < ds.len()
        invariant
            i <= ds@.len(),
            outer == ds@,
            ok == decls_ok(ds@.take(i as int)),
        decreases ds@.len() - i,
    {
        assert(decreases_to!(ds@ => ds@[i as int]));
        let b = check_decl_ok(&ds[i]);
        proof {
            let pre = ds@.take(i + 1);
            assert(pre.drop_last() =~= ds@.take(i as int));
            assert(pre.last() == ds@[i as int]);
        }
        ok = ok && b;
        i = i + 1;
    }
    assert(ds@.take(ds@.len() as int) =~= ds@);
    ok
}

/// Whether `d` meets `decl_ok`, so that it can be desugared.
pub fn check_decl_ok(d: &Decl) -> (r: bool)
    ensures
        r == decl_ok(*d),
    decreases *d, 1nat,
{
    proof {
        assert(decreases_to!(*d => d.kind));
    }
    match &d.kind {
        DeclKind::Signature(_) => false,
        DeclKind::Structure { .. } => false,
        DeclKind::Val(_, e) => check_expr_ok(e),
        DeclKind::ValRec(_, e) => check_expr_ok(e),
        DeclKind::Fun(bs) => {
            let mut ok = true;
            let mut i: usize = 0;
            proof {
                assert(decreases_to!(*d => bs@));
            }
            while i < bs.len()
                invariant
                    i <= bs@.len(),
                    decreases_to!(*d => bs@),
                    ok == bindings_ok(bs@.take(i as int)),
                decreases bs@.len() - i,
            {
                assert(decreases_to!(bs@ => bs@[i as int]));
                let b = &bs[i];
                let cs = &b.clauses;
                proof {
                    assert(decreases_to!(bs@[i as int] => cs@));
                }
                let n = cs.len();
                let mut shape = true;
                if n != 1 {
                    if n == 0 {
                        shape = false;
                    } else if cs[0].pats.len() == 1 {
                        let mut k: usize = 0;
                        while k < n
                            invariant
                                k <= n,
                                n == cs@.len(),
                                shape == forall|q: int| 0 <= q < k ==> (#[trigger] cs@[q]).pats@.len() >= 1,
                            decreases n - k,
                        {
                            if cs[k].pats.len() < 1 {
                                shape = false;
                            }
                            k = k + 1;
                        }
                    }
                }
                assert(shape == binding_ok(*b));
                let mut cok = true;
                let mut j: usize = 0;
                while j < n
                    invariant
                        j <= n,
                        n == cs@.len(),
                        decreases_to!(*d => bs@),
                        decreases_to!(bs@ => bs@[i as int]),
                        decreases_to!(bs@[i as int] => cs@),
                        cs == &bs@[i as int].clauses,
                        cok == clauses_ok(cs@.take(j as int)),
                    decreases n - j,
                {
                    assert(decreases_to!(cs@ => cs@[j as int]));
                    let c = check_expr_ok(&cs[j].body);
                    proof {
                        let pre = cs@.take(j + 1);
                        assert(pre.drop_last() =~= cs@.take(j as int));
                        assert(pre.last() == cs@[j as int]);
                    }
                    cok = cok && c;
                    j = j + 1;
                }
                assert(cs@.take(n as int) =~= cs@);
                proof {
                    let pre = bs@.take(i + 1);
                    assert(pre.drop_last() =~= bs@.take(i as int));
                    assert(pre.last() == bs@[i as int]);
                }
                ok = ok && shape && cok;
                i = i + 1;
            }
            assert(bs@.take(bs@.len() as int) =~= bs@);
            ok
        },
        DeclKind::Local(ls, body) => check_decls_ok(ls, Ghost(ls@)) && check_decls_ok(body, Ghost(body@)),
        _ => true,
    }
}

} // verus!
