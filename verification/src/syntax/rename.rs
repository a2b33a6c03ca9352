//! Renaming the items of a structure: each name its module scope binds is
//! replaced by the name it stands for, except where a local binding
//! shadows it.
use vstd::prelude::*;
use crate::syntax::ast::{ConDecl, DatatypeDecl, Decl, DeclKind, EffectHandler, Expr, ExprKind, FunBinding, FunClause, Pat, PatKind, TypeAliasDecl, TypeExpr};
use crate::syntax::modules::{lookup_renamed, pairs_view, rename_te, rename_type_expr, rename_value_symbol, renamed, te_view, ModuleScope};
use crate::text::clone_string;

verus! {

/// What `n` stands for under a renaming.
pub open spec fn rn(m: Seq<(String, String)>, n: String) -> Seq<char> {
    renamed(pairs_view(m), n@)
}

/// The values of a list of names.
pub open spec fn names(v: Seq<String>) -> Seq<Seq<char>> {
    v.map_values(|s: String| s@)
}

// ── Names a pattern binds ────────────────────────────────────────────────

/// The names `p` binds, left to right.
pub open spec fn pat_binds(p: Pat) -> Seq<Seq<char>>
    decreases p, 1nat,
{
    match p.kind {
        PatKind::Var(x) => seq![x@],
        PatKind::Tuple(ps) => pats_binds(ps@),
        PatKind::List(ps) => pats_binds(ps@),
        PatKind::Constructor(_, Some(q)) => pat_binds(*q),
        PatKind::Cons(h, t) => pat_binds(*h) + pat_binds(*t),
        PatKind::Ann(q, _) => pat_binds(*q),
        PatKind::Paren(q) => pat_binds(*q),
        PatKind::As(x, q) => seq![x@] + pat_binds(*q),
        _ => Seq::empty(),
    }
}

pub open spec fn pats_binds(ps: Seq<Pat>) -> Seq<Seq<char>>
    decreases ps, 0nat,
{
    if ps.len() == 0 {
        Seq::empty()
    } else {
        pats_binds(ps.drop_last()) + pat_binds(ps.last())
    }
}

/// Adds the names `pat` binds to `out`.
pub fn collect_pat_bound_names(pat: &Pat, out: &mut Vec<String>)
    ensures
        names(final(out)@) == names(old(out)@) + pat_binds(*pat),
    decreases *pat, 1nat,
{
    let ghost o = names(out@);
    proof {
        assert(decreases_to!(*pat => pat.kind));
    }
    match &pat.kind {
        PatKind::Var(x) => {
            out.push(clone_string(x));
            assert(names(out@) =~= o + seq![x@]);
        },
        PatKind::Tuple(ps) => collect_all_bound_names(ps, out, Ghost(*pat)),
        PatKind::List(ps) => collect_all_bound_names(ps, out, Ghost(*pat)),
        PatKind::Constructor(_, Some(q)) => collect_pat_bound_names(q, out),
        PatKind::Cons(h, t) => {
            collect_pat_bound_names(h, out);
            collect_pat_bound_names(t, out);
            assert(names(out@) =~= o + (pat_binds(**h) + pat_binds(**t)));
        },
        PatKind::Ann(q, _) => collect_pat_bound_names(q, out),
        PatKind::Paren(q) => collect_pat_bound_names(q, out),
        PatKind::As(x, q) => {
            out.push(clone_string(x));
            collect_pat_bound_names(q, out);
            assert(names(out@) =~= o + (seq![x@] + pat_binds(**q)));
        },
        _ => {
            assert(names(out@) =~= o + Seq::<Seq<char>>::empty());
        },
    }
}

fn collect_all_bound_names(ps: &Vec<Pat>, out: &mut Vec<String>, Ghost(outer): Ghost<Pat>)
    requires
        decreases_to!(outer => ps@),
    ensures
        names(final(out)@) == names(old(out)@) + pats_binds(ps@),
    decreases outer, 0nat,
{
    let mut i: usize = 0;
    while i < ps.len()
        invariant
            i <= ps@.len(),
            decreases_to!(outer => ps@),
            names(out@) == names(old(out)@) + pats_binds(ps@.take(i as int)),
        decreases ps@.len() - i,
    {
        assert(decreases_to!(ps@ => ps@[i as int]));
        collect_pat_bound_names(&ps[i], out);
        proof {
            let pre = ps@.take(i + 1);
            assert(pre.drop_last() =~= ps@.take(i as int));
            assert(pre.last() == ps@[i as int]);
        }
        assert(names(out@) =~= names(old(out)@) + pats_binds(ps@.take(i + 1)));
        i = i + 1;
    }
    assert(ps@.take(ps@.len() as int) =~= ps@);
}

/// The names `pat` binds.
pub fn pat_bound_names(pat: &Pat) -> (r: Vec<String>)
    ensures
        names(r@) == pat_binds(*pat),
{
    let mut out: Vec<String> = Vec::new();
    assert(names(out@) =~= Seq::<Seq<char>>::empty());
    collect_pat_bound_names(pat, &mut out);
    assert(names(out@) =~= pat_binds(*pat));
    out
}

// ── Renaming patterns ────────────────────────────────────────────────────

/// `b` is `a` renamed through `sc`: constructors always, variables where
/// the pattern's names are exported; a constructor's payload binds no
/// exported name.
pub open spec fn pat_ren(a: Pat, b: Pat, sc: ModuleScope, export: bool) -> bool
    decreases a, 1nat,
{
    &&& b.span == a.span
    &&& match a.kind {
        PatKind::Var(x) => b.kind matches PatKind::Var(y) && y@ == (if export { rn(sc.values@, x) } else { x@ }),
        PatKind::Tuple(xs) => b.kind matches PatKind::Tuple(ys) && pats_ren(xs@, ys@, sc, export),
        PatKind::List(xs) => b.kind matches PatKind::List(ys) && pats_ren(xs@, ys@, sc, export),
        PatKind::Constructor(c, p) => b.kind matches PatKind::Constructor(d, q) && d@ == rn(sc.constructors@, c) && match (p, q) {
            (Some(p1), Some(q1)) => pat_ren(*p1, *q1, sc, false),
            (None, None) => true,
            _ => false,
        },
        PatKind::Cons(h, t) => b.kind matches PatKind::Cons(h2, t2) && pat_ren(*h, *h2, sc, export) && pat_ren(*t, *t2, sc, export),
        PatKind::Ann(p, ty) => b.kind matches PatKind::Ann(q, ty2) && pat_ren(*p, *q, sc, export)
            && te_view(ty2) == rename_te(ty, pairs_view(sc.types@)),
        PatKind::As(x, p) => b.kind matches PatKind::As(y, q) && y@ == (if export { rn(sc.values@, x) } else { x@ })
            && pat_ren(*p, *q, sc, export),
        PatKind::Paren(p) => b.kind matches PatKind::Paren(q) && pat_ren(*p, *q, sc, export),
        _ => b.kind == a.kind,
    }
}

pub open spec fn pats_ren(xs: Seq<Pat>, ys: Seq<Pat>, sc: ModuleScope, export: bool) -> bool
    decreases xs, 0nat,
{
    &&& xs.len() == ys.len()
    &&& xs.len() > 0 ==> pats_ren(xs.drop_last(), ys.drop_last(), sc, export) && pat_ren(xs.last(), ys.last(), sc, export)
}

/// A name as renamed by `m` where `export` holds.
fn export_name(m: &Vec<(String, String)>, x: String, export: bool) -> (r: String)
    ensures
        r@ == (if export { rn(m@, x) } else { x@ }),
{
    if export {
        lookup_renamed(m, &x)
    } else {
        x
    }
}

/// Renames a pattern through the module scope.
pub fn rename_pat(pat: Pat, scope: &ModuleScope, export_names: bool) -> (r: Pat)
    ensures
        pat_ren(pat, r, *scope, export_names),
    decreases pat, 1nat,
{
    let ghost p0 = pat;
    let span = pat.span;
    proof {
        assert(decreases_to!(pat => pat.kind));
    }
    let kind = match pat.kind {
        PatKind::Var(x) => PatKind::Var(export_name(&scope.values, x, export_names)),
        PatKind::Tuple(ps) => PatKind::Tuple(rename_pats(ps, scope, export_names, Ghost(p0))),
        PatKind::List(ps) => PatKind::List(rename_pats(ps, scope, export_names, Ghost(p0))),
        PatKind::Constructor(c, payload) => {
            let c2 = lookup_renamed(&scope.constructors, &c);
            let q = match payload {
                Some(p) => Some(Box::new(rename_pat(*p, scope, false))),
                None => None,
            };
            PatKind::Constructor(c2, q)
        },
        PatKind::Cons(h, t) => PatKind::Cons(
            Box::new(rename_pat(*h, scope, export_names)),
            Box::new(rename_pat(*t, scope, export_names)),
        ),
        PatKind::Ann(p, ty) => {
            let ty2 = rename_type_expr(&ty, scope);
            PatKind::Ann(Box::new(rename_pat(*p, scope, export_names)), ty2)
        },
        PatKind::As(x, p) => {
            let y = export_name(&scope.values, x, export_names);
            PatKind::As(y, Box::new(rename_pat(*p, scope, export_names)))
        },
        PatKind::Paren(p) => PatKind::Paren(Box::new(rename_pat(*p, scope, export_names))),
        other => other,
    };
    Pat { kind, span }
}

fn rename_pats(ps: Vec<Pat>, scope: &ModuleScope, export_names: bool, Ghost(outer): Ghost<Pat>) -> (r: Vec<Pat>)
    requires
        decreases_to!(outer => ps@),
    ensures
        pats_ren(ps@, r@, *scope, export_names),
    decreases outer, 0nat,
{
    let ghost all = ps@;
    let n = ps.len();
    let mut rest = ps;
    let mut out: Vec<Pat> = Vec::new();
    let mut i: usize = 0;
    while rest.len() > 0
        invariant
            all.len() == n,
            i <= all.len(),
            rest@ == all.skip(i as int),
            decreases_to!(outer => all),
            pats_ren(all.take(i as int), out@, *scope, export_names),
        decreases rest@.len(),
    {
        let p = rest.remove(0);
        assert(p == all[i as int]);
        assert(decreases_to!(all => all[i as int]));
        let q = rename_pat(p, scope, export_names);
        proof {
            let pre = all.take(i + 1);
            assert(pre.drop_last() =~= all.take(i as int));
            assert(out@.push(q).drop_last() =~= out@);
        }
        out.push(q);
        assert(rest@ =~= all.skip(i + 1));
        i = i + 1;
    }
    assert(all.take(i as int) =~= all);
    out
}

// ── Names a declaration binds ────────────────────────────────────────────

/// The names a declaration binds for the declarations after it.
pub open spec fn decl_names(d: Decl) -> Seq<Seq<char>>
    decreases d, 1nat,
{
    match d.kind {
        DeclKind::Val(p, _) => pat_binds(p),
        DeclKind::ValRec(x, _) => seq![x@],
        DeclKind::Fun(bs) => bindings_names(bs@),
        DeclKind::Local(_, body) => decls_names(body@),
        _ => Seq::empty(),
    }
}

pub open spec fn decls_names(ds: Seq<Decl>) -> Seq<Seq<char>>
    decreases ds, 0nat,
{
    if ds.len() == 0 {
        Seq::empty()
    } else {
        decls_names(ds.drop_last()) + decl_names(ds.last())
    }
}

/// The names of function bindings.
pub open spec fn bindings_names(bs: Seq<FunBinding>) -> Seq<Seq<char>> {
    bs.map_values(|b: FunBinding| b.name@)
}

fn collect_decl_names(decl: &Decl, out: &mut Vec<String>)
    ensures
        names(final(out)@) == names(old(out)@) + decl_names(*decl),
    decreases *decl, 1nat,
{
    let ghost o = names(out@);
    proof {
        assert(decreases_to!(*decl => decl.kind));
    }
    match &decl.kind {
        DeclKind::Val(p, _) => collect_pat_bound_names(p, out),
        DeclKind::ValRec(x, _) => {
            out.push(clone_string(x));
            assert(names(out@) =~= o + seq![x@]);
        },
        DeclKind::Fun(bs) => {
            let mut i: usize = 0;
            while i < bs.len()
                invariant
                    i <= bs@.len(),
                    names(out@) == o + bindings_names(bs@).take(i as int),
                decreases bs@.len() - i,
            {
                let ghost prev = out@;
                out.push(clone_string(&bs[i].name));
                assert(names(out@) =~= names(prev).push(bs@[i as int].name@));
                assert(bindings_names(bs@).take(i + 1) =~= bindings_names(bs@).take(i as int).push(bs@[i as int].name@));
                assert(names(out@) =~= o + bindings_names(bs@).take(i + 1));
                i = i + 1;
            }
            assert(bindings_names(bs@).take(bs@.len() as int) =~= bindings_names(bs@));
        },
        DeclKind::Local(_, body) => {
            let mut i: usize = 0;
            while i < body.len()
                invariant
                    i <= body@.len(),
                    decreases_to!(*decl => body@),
                    names(out@) == o + decls_names(body@.take(i as int)),
                decreases body@.len() - i,
            {
                assert(decreases_to!(body@ => body@[i as int]));
                collect_decl_names(&body[i], out);
                proof {
                    let pre = body@.take(i + 1);
                    assert(pre.drop_last() =~= body@.take(i as int));
                    assert(pre.last() == body@[i as int]);
                }
                assert(names(out@) =~= o + decls_names(body@.take(i + 1)));
                i = i + 1;
            }
            assert(body@.take(body@.len() as int) =~= body@);
        },
        _ => {
            assert(names(out@) =~= o + Seq::<Seq<char>>::empty());
        },
    }
}

/// The names a declaration binds for the declarations after it.
pub fn local_decl_value_names(decl: &Decl) -> (r: Vec<String>)
    ensures
        names(r@) == decl_names(*decl),
{
    let mut out: Vec<String> = Vec::new();
    assert(names(out@) =~= Seq::<Seq<char>>::empty());
    collect_decl_names(decl, &mut out);
    assert(names(out@) =~= decl_names(*decl));
    out
}

// ── Where renaming is defined ────────────────────────────────────────────

/// No structure is nested where renaming goes.
pub open spec fn expr_flat(e: Expr) -> bool
    decreases e, 1nat,
{
    match e.kind {
        ExprKind::Tuple(xs) => exprs_flat(xs@),
        ExprKind::List(xs) => exprs_flat(xs@),
        ExprKind::Cons(h, t) => expr_flat(*h) && expr_flat(*t),
        ExprKind::BinOp(_, l, r) => expr_flat(*l) && expr_flat(*r),
        ExprKind::UnaryNeg(x) => expr_flat(*x),
        ExprKind::Not(x) => expr_flat(*x),
        ExprKind::App(f, x) => expr_flat(*f) && expr_flat(*x),
        ExprKind::Fn(_, b) => expr_flat(*b),
        ExprKind::If(c, t, f) => expr_flat(*c) && expr_flat(*t) && expr_flat(*f),
        ExprKind::Let(ds, b) => decls_flat(ds@) && expr_flat(*b),
        ExprKind::Case(x, arms) => expr_flat(*x) && arms_flat(arms@),
        ExprKind::Ann(x, _) => expr_flat(*x),
        ExprKind::Perform(_, x) => expr_flat(*x),
        ExprKind::Handle { body, return_var: _, return_body, handlers } => expr_flat(*body) && expr_flat(*return_body)
            && handlers_flat(handlers@),
        ExprKind::Resume(c, x) => expr_flat(*c) && expr_flat(*x),
        _ => true,
    }
}

pub open spec fn exprs_flat(xs: Seq<Expr>) -> bool
    decreases xs, 0nat,
{
    xs.len() > 0 ==> exprs_flat(xs.drop_last()) && expr_flat(xs.last())
}

pub open spec fn arms_flat(xs: Seq<(Pat, Expr)>) -> bool
    decreases xs, 0nat,
{
    xs.len() > 0 ==> arms_flat(xs.drop_last()) && expr_flat(xs.last().1)
}

pub open spec fn handlers_flat(xs: Seq<EffectHandler>) -> bool
    decreases xs, 0nat,
{
    xs.len() > 0 ==> handlers_flat(xs.drop_last()) && expr_flat(xs.last().body)
}

pub open spec fn decl_flat(d: Decl) -> bool
    decreases d, 1nat,
{
    match d.kind {
        DeclKind::Structure { .. } => false,
        DeclKind::Val(_, e) => expr_flat(e),
        DeclKind::ValRec(_, e) => expr_flat(e),
        DeclKind::Fun(bs) => bindings_flat(bs@),
        DeclKind::Local(ls, body) => decls_flat(ls@) && decls_flat(body@),
        _ => true,
    }
}

pub open spec fn decls_flat(ds: Seq<Decl>) -> bool
    decreases ds, 0nat,
{
    ds.len() > 0 ==> decls_flat(ds.drop_last()) && decl_flat(ds.last())
}

pub open spec fn bindings_flat(bs: Seq<FunBinding>) -> bool
    decreases bs, 0nat,
{
    bs.len() > 0 ==> bindings_flat(bs.drop_last()) && clauses_flat(bs.last().clauses@)
}

pub open spec fn clauses_flat(cs: Seq<FunClause>) -> bool
    decreases cs, 0nat,
{
    cs.len() > 0 ==> clauses_flat(cs.drop_last()) && expr_flat(cs.last().body)
}

// ── Renaming expressions and declarations ────────────────────────────────

/// A value name as the scope renames it, unless `ls` shadows it.
pub open spec fn value_name(sc: ModuleScope, ls: Seq<Seq<char>>, x: String) -> Seq<char> {
    if ls.contains(x@) {
        x@
    } else {
        rn(sc.values@, x)
    }
}

/// A name renamed by `m` where `public` holds.
pub open spec fn public_name(m: Seq<(String, String)>, x: String, public: bool) -> Seq<char> {
    if public {
        rn(m, x)
    } else {
        x@
    }
}

/// `b` is `a` renamed through `sc` with `ls` bound locally: variables not
/// shadowed, constructors, effects and types are renamed; a parenthesized
/// expression is left as it is.
pub open spec fn expr_ren(a: Expr, b: Expr, sc: ModuleScope, ls: Seq<Seq<char>>) -> bool
    decreases a, 1nat,
{
    &&& b.span == a.span
    &&& match a.kind {
        ExprKind::Var(x) => b.kind matches ExprKind::Var(y) && y@ == value_name(sc, ls, x),
        ExprKind::Constructor(x) => b.kind matches ExprKind::Constructor(y) && y@ == rn(sc.constructors@, x),
        ExprKind::Tuple(xs) => b.kind matches ExprKind::Tuple(ys) && exprs_ren(xs@, ys@, sc, ls),
        ExprKind::List(xs) => b.kind matches ExprKind::List(ys) && exprs_ren(xs@, ys@, sc, ls),
        ExprKind::Cons(h, t) => b.kind matches ExprKind::Cons(h2, t2) && expr_ren(*h, *h2, sc, ls) && expr_ren(*t, *t2, sc, ls),
        ExprKind::BinOp(o, l, r) => b.kind matches ExprKind::BinOp(o2, l2, r2) && o2 == o && expr_ren(*l, *l2, sc, ls)
            && expr_ren(*r, *r2, sc, ls),
        ExprKind::UnaryNeg(x) => b.kind matches ExprKind::UnaryNeg(y) && expr_ren(*x, *y, sc, ls),
        ExprKind::Not(x) => b.kind matches ExprKind::Not(y) && expr_ren(*x, *y, sc, ls),
        ExprKind::App(f, x) => b.kind matches ExprKind::App(g, y) && expr_ren(*f, *g, sc, ls) && expr_ren(*x, *y, sc, ls),
        ExprKind::Fn(p, body) => b.kind matches ExprKind::Fn(q, body2) && pat_ren(p, q, sc, false)
            && expr_ren(*body, *body2, sc, ls + pat_binds(p)),
        ExprKind::If(c, t, f) => b.kind matches ExprKind::If(c2, t2, f2) && expr_ren(*c, *c2, sc, ls)
            && expr_ren(*t, *t2, sc, ls) && expr_ren(*f, *f2, sc, ls),
        ExprKind::Let(ds, body) => b.kind matches ExprKind::Let(ds2, body2) && local_seq_ren(ds@, ds2@, sc, ls)
            && expr_ren(*body, *body2, sc, ls + decls_names(ds2@)),
        ExprKind::Case(x, arms) => b.kind matches ExprKind::Case(y, arms2) && expr_ren(*x, *y, sc, ls)
            && arms_ren(arms@, arms2@, sc, ls),
        ExprKind::Ann(x, ty) => b.kind matches ExprKind::Ann(y, ty2) && expr_ren(*x, *y, sc, ls)
            && te_view(ty2) == rename_te(ty, pairs_view(sc.types@)),
        ExprKind::Perform(e, x) => b.kind matches ExprKind::Perform(e2, y) && e2@ == rn(sc.effects@, e)
            && expr_ren(*x, *y, sc, ls),
        ExprKind::Handle { body, return_var, return_body, handlers } => b.kind matches ExprKind::Handle {
            body: body2,
            return_var: rv2,
            return_body: rb2,
            handlers: hs2,
        } && expr_ren(*body, *body2, sc, ls) && rv2 == return_var && expr_ren(*return_body, *rb2, sc, ls.push(return_var@))
            && handlers_ren(handlers@, hs2@, sc, ls),
        ExprKind::Resume(c, x) => b.kind matches ExprKind::Resume(c2, y) && expr_ren(*c, *c2, sc, ls) && expr_ren(*x, *y, sc, ls),
        _ => b.kind == a.kind,
    }
}

pub open spec fn exprs_ren(xs: Seq<Expr>, ys: Seq<Expr>, sc: ModuleScope, ls: Seq<Seq<char>>) -> bool
    decreases xs, 0nat,
{
    &&& xs.len() == ys.len()
    &&& xs.len() > 0 ==> exprs_ren(xs.drop_last(), ys.drop_last(), sc, ls) && expr_ren(xs.last(), ys.last(), sc, ls)
}

pub open spec fn arms_ren(xs: Seq<(Pat, Expr)>, ys: Seq<(Pat, Expr)>, sc: ModuleScope, ls: Seq<Seq<char>>) -> bool
    decreases xs, 0nat,
{
    &&& xs.len() == ys.len()
    &&& xs.len() > 0 ==> arms_ren(xs.drop_last(), ys.drop_last(), sc, ls) && pat_ren(xs.last().0, ys.last().0, sc, false)
        && expr_ren(xs.last().1, ys.last().1, sc, ls + pat_binds(xs.last().0))
}

pub open spec fn handlers_ren(xs: Seq<EffectHandler>, ys: Seq<EffectHandler>, sc: ModuleScope, ls: Seq<Seq<char>>) -> bool
    decreases xs, 0nat,
{
    &&& xs.len() == ys.len()
    &&& xs.len() > 0 ==> {
        let h = xs.last();
        let h2 = ys.last();
        &&& handlers_ren(xs.drop_last(), ys.drop_last(), sc, ls)
        &&& h2.effect_name@ == rn(sc.effects@, h.effect_name)
        &&& h2.payload_var == h.payload_var
        &&& h2.cont_var == h.cont_var
        &&& h2.span == h.span
        &&& expr_ren(h.body, h2.body, sc, ls.push(h.payload_var@).push(h.cont_var@))
    }
}

/// How many declarations renaming keeps: all but signatures.
pub open spec fn kept(ds: Seq<Decl>) -> nat
    decreases ds.len(),
{
    if ds.len() == 0 {
        0
    } else {
        kept(ds.drop_last()) + if ds.last().kind is Signature { 0nat } else { 1nat }
    }
}

/// `outs` is what renaming makes of `d`: nothing of a signature, else one
/// renamed declaration.
pub open spec fn mdecl_ren(d: Decl, outs: Seq<Decl>, sc: ModuleScope, ls: Seq<Seq<char>>, hidden: bool, export: bool) -> bool
    decreases d, 2nat,
{
    if d.kind is Signature {
        outs.len() == 0
    } else {
        outs.len() == 1 && decl_ren(d, outs[0], sc, ls, hidden, export)
    }
}

/// A local sequence: each declaration renamed with the names the ones
/// before it bind.
pub open spec fn local_seq_ren(ds: Seq<Decl>, out: Seq<Decl>, sc: ModuleScope, ls: Seq<Seq<char>>) -> bool
    decreases ds, 0nat,
{
    &&& out.len() == kept(ds)
    &&& ds.len() > 0 ==> {
        let k = kept(ds.drop_last()) as int;
        &&& local_seq_ren(ds.drop_last(), out.take(k), sc, ls)
        &&& mdecl_ren(ds.last(), out.skip(k), sc, ls + decls_names(ds.drop_last()), false, false)
    }
}

/// An exported sequence: each declaration renamed as public or hidden.
pub open spec fn export_seq_ren(ds: Seq<Decl>, out: Seq<Decl>, sc: ModuleScope, ls: Seq<Seq<char>>, hidden: bool, export: bool) -> bool
    decreases ds, 0nat,
{
    &&& out.len() == kept(ds)
    &&& ds.len() > 0 ==> {
        let k = kept(ds.drop_last()) as int;
        &&& export_seq_ren(ds.drop_last(), out.take(k), sc, ls, hidden, export)
        &&& mdecl_ren(ds.last(), out.skip(k), sc, ls, hidden, export)
    }
}

/// A declaration renamed: its own names where exported or hidden, what it
/// refers to always.
pub open spec fn decl_ren(a: Decl, b: Decl, sc: ModuleScope, ls: Seq<Seq<char>>, hidden: bool, export: bool) -> bool
    decreases a, 1nat,
{
    let public = export || hidden;
    &&& b.span == a.span
    &&& match a.kind {
        DeclKind::Val(p, e) => b.kind matches DeclKind::Val(p2, e2) && pat_ren(p, p2, sc, public) && expr_ren(e, e2, sc, ls),
        DeclKind::ValRec(x, e) => b.kind matches DeclKind::ValRec(y, e2) && y@ == public_name(sc.values@, x, public)
            && expr_ren(e, e2, sc, if public { ls } else { ls.push(x@) }),
        DeclKind::Fun(bs) => b.kind matches DeclKind::Fun(bs2) && bindings_ren(
            bs@,
            bs2@,
            sc,
            ls + if public { Seq::<Seq<char>>::empty() } else { bindings_names(bs@) },
            public,
        ),
        DeclKind::Datatype(dt) => b.kind matches DeclKind::Datatype(dt2) && dt2.tyvars == dt.tyvars && dt2.span == dt.span
            && dt2.name@ == public_name(sc.types@, dt.name, public) && cons_ren(dt.constructors@, dt2.constructors@, sc, public),
        DeclKind::TypeAlias(ta) => b.kind matches DeclKind::TypeAlias(ta2) && ta2.tyvars == ta.tyvars && ta2.span == ta.span
            && ta2.name@ == public_name(sc.types@, ta.name, public) && te_view(ta2.ty) == rename_te(ta.ty, pairs_view(sc.types@)),
        DeclKind::Local(ds, body) => b.kind matches DeclKind::Local(ds2, body2) && local_seq_ren(ds@, ds2@, sc, ls) && if export {
            export_seq_ren(body@, body2@, sc, ls, false, true)
        } else if hidden {
            export_seq_ren(body@, body2@, sc, ls, true, false)
        } else {
            local_seq_ren(body@, body2@, sc, ls)
        },
        DeclKind::Use(_) => b.kind == a.kind,
        DeclKind::Effect(x, ty) => b.kind matches DeclKind::Effect(y, ty2) && y@ == public_name(sc.effects@, x, public)
            && match (ty, ty2) {
            (Some(t), Some(t2)) => te_view(t2) == rename_te(t, pairs_view(sc.types@)),
            (None, None) => true,
            _ => false,
        },
        _ => false,
    }
}

pub open spec fn cons_ren(xs: Seq<ConDecl>, ys: Seq<ConDecl>, sc: ModuleScope, public: bool) -> bool
    decreases xs.len(),
{
    &&& xs.len() == ys.len()
    &&& xs.len() > 0 ==> {
        let c = xs.last();
        let c2 = ys.last();
        &&& cons_ren(xs.drop_last(), ys.drop_last(), sc, public)
        &&& c2.span == c.span
        &&& c2.name@ == public_name(sc.constructors@, c.name, public)
        &&& match (c.payload, c2.payload) {
            (Some(t), Some(t2)) => te_view(t2) == rename_te(t, pairs_view(sc.types@)),
            (None, None) => true,
            _ => false,
        }
    }
}

/// Function bindings renamed: their names where exported, each clause's
/// body with `env` and the clause's own variables bound.
pub open spec fn bindings_ren(xs: Seq<FunBinding>, ys: Seq<FunBinding>, sc: ModuleScope, env: Seq<Seq<char>>, export: bool) -> bool
    decreases xs, 0nat,
{
    &&& xs.len() == ys.len()
    &&& xs.len() > 0 ==> {
        let b = xs.last();
        let b2 = ys.last();
        &&& bindings_ren(xs.drop_last(), ys.drop_last(), sc, env, export)
        &&& b2.span == b.span
        &&& b2.name@ == public_name(sc.values@, b.name, export)
        &&& clauses_ren(b.clauses@, b2.clauses@, sc, env)
    }
}

pub open spec fn clauses_ren(xs: Seq<FunClause>, ys: Seq<FunClause>, sc: ModuleScope, env: Seq<Seq<char>>) -> bool
    decreases xs, 0nat,
{
    &&& xs.len() == ys.len()
    &&& xs.len() > 0 ==> {
        let c = xs.last();
        let c2 = ys.last();
        &&& clauses_ren(xs.drop_last(), ys.drop_last(), sc, env)
        &&& c2.span == c.span
        &&& pats_ren(c.pats@, c2.pats@, sc, false)
        &&& expr_ren(c.body, c2.body, sc, env + pats_binds(c.pats@))
    }
}

// ── Lemmas: flatness of parts ────────────────────────────────────────────

proof fn lemma_exprs_flat_at(xs: Seq<Expr>, i: int)
    requires
        exprs_flat(xs),
        0 <= i < xs.len(),
    ensures
        expr_flat(xs[i]),
    decreases xs.len(),
{
    if i < xs.len() - 1 {
        lemma_exprs_flat_at(xs.drop_last(), i);
    }
}

proof fn lemma_arms_flat_at(xs: Seq<(Pat, Expr)>, i: int)
    requires
        arms_flat(xs),
        0 <= i < xs.len(),
    ensures
        expr_flat(xs[i].1),
    decreases xs.len(),
{
    if i < xs.len() - 1 {
        lemma_arms_flat_at(xs.drop_last(), i);
    }
}

proof fn lemma_handlers_flat_at(xs: Seq<EffectHandler>, i: int)
    requires
        handlers_flat(xs),
        0 <= i < xs.len(),
    ensures
        expr_flat(xs[i].body),
    decreases xs.len(),
{
    if i < xs.len() - 1 {
        lemma_handlers_flat_at(xs.drop_last(), i);
    }
}

proof fn lemma_decls_flat_at(xs: Seq<Decl>, i: int)
    requires
        decls_flat(xs),
        0 <= i < xs.len(),
    ensures
        decl_flat(xs[i]),
    decreases xs.len(),
{
    if i < xs.len() - 1 {
        lemma_decls_flat_at(xs.drop_last(), i);
    }
}

proof fn lemma_bindings_flat_at(xs: Seq<FunBinding>, i: int)
    requires
        bindings_flat(xs),
        0 <= i < xs.len(),
    ensures
        clauses_flat(xs[i].clauses@),
    decreases xs.len(),
{
    if i < xs.len() - 1 {
        lemma_bindings_flat_at(xs.drop_last(), i);
    }
}

proof fn lemma_clauses_flat_at(xs: Seq<FunClause>, i: int)
    requires
        clauses_flat(xs),
        0 <= i < xs.len(),
    ensures
        expr_flat(xs[i].body),
    decreases xs.len(),
{
    if i < xs.len() - 1 {
        lemma_clauses_flat_at(xs.drop_last(), i);
    }
}

// ── Executable renaming ──────────────────────────────────────────────────

/// A copy of a list of names.
fn clone_names(v: &Vec<String>) -> (r: Vec<String>)
    ensures
        names(r@) == names(v@),
{
    let mut out: Vec<String> = Vec::new();
    let mut i: usize = 0;
    while i < v.len()
        invariant
            i <= v@.len(),
            names(out@) == names(v@).take(i as int),
        decreases v@.len() - i,
    {
        let ghost prev = out@;
        out.push(clone_string(&v[i]));
        assert(names(out@) =~= names(prev).push(v@[i as int]@));
        assert(names(v@).take(i + 1) =~= names(v@).take(i as int).push(v@[i as int]@));
        i = i + 1;
    }
    assert(names(v@).take(v@.len() as int) =~= names(v@));
    out
}

/// Appends `more` to `env`.
fn append_names(env: &mut Vec<String>, more: Vec<String>)
    ensures
        names(final(env)@) == names(old(env)@) + names(more@),
{
    let mut more = more;
    let ghost m = more@;
    env.append(&mut more);
    assert(names(env@) =~= names(old(env)@) + names(m));
}

/// Renames an expression through the module scope, `local_values` being
/// bound locally.
pub fn rename_expr(expr: Expr, scope: &ModuleScope, local_values: &Vec<String>) -> (r: Expr)
    requires
        expr_flat(expr),
    ensures
        expr_ren(expr, r, *scope, names(local_values@)),
    decreases expr, 5nat,
{
    let ghost e0 = expr;
    let span = expr.span;
    proof {
        assert(decreases_to!(expr => expr.kind));
    }
    let kind = match expr.kind {
        ExprKind::Var(x) => {
            let y = rename_value_symbol(&x, scope, local_values);
            proof {
                let ls = names(local_values@);
                if ls.contains(x@) {
                    let j = choose|j: int| 0 <= j < ls.len() && ls[j] == x@;
                    assert(local_values@[j]@ == x@);
                }
                if exists|j: int| 0 <= j < local_values@.len() && #[trigger] local_values@[j]@ == x@ {
                    let j = choose|j: int| 0 <= j < local_values@.len() && #[trigger] local_values@[j]@ == x@;
                    assert(ls[j] == x@);
                }
            }
            ExprKind::Var(y)
        },
        ExprKind::Constructor(x) => ExprKind::Constructor(lookup_renamed(&scope.constructors, &x)),
        ExprKind::Tuple(xs) => {
            let ghost g = xs@;
            ExprKind::Tuple(rename_exprs(xs, scope, local_values, Ghost(g)))
        },
        ExprKind::List(xs) => {
            let ghost g = xs@;
            ExprKind::List(rename_exprs(xs, scope, local_values, Ghost(g)))
        },
        ExprKind::Cons(h, t) => ExprKind::Cons(
            Box::new(rename_expr(*h, scope, local_values)),
            Box::new(rename_expr(*t, scope, local_values)),
        ),
        ExprKind::BinOp(op, l, r) => ExprKind::BinOp(
            op,
            Box::new(rename_expr(*l, scope, local_values)),
            Box::new(rename_expr(*r, scope, local_values)),
        ),
        ExprKind::UnaryNeg(x) => ExprKind::UnaryNeg(Box::new(rename_expr(*x, scope, local_values))),
        ExprKind::Not(x) => ExprKind::Not(Box::new(rename_expr(*x, scope, local_values))),
        ExprKind::App(f, x) => ExprKind::App(
            Box::new(rename_expr(*f, scope, local_values)),
            Box::new(rename_expr(*x, scope, local_values)),
        ),
        ExprKind::Fn(p, body) => {
            let mut env = clone_names(local_values);
            append_names(&mut env, pat_bound_names(&p));
            let p2 = rename_pat(p, scope, false);
            ExprKind::Fn(p2, Box::new(rename_expr(*body, scope, &env)))
        },
        ExprKind::If(c, t, f) => ExprKind::If(
            Box::new(rename_expr(*c, scope, local_values)),
            Box::new(rename_expr(*t, scope, local_values)),
            Box::new(rename_expr(*f, scope, local_values)),
        ),
        ExprKind::Let(ds, body) => {
            let ghost g = ds@;
            let ds2 = rename_local_decl_seq(ds, scope, local_values, Ghost(g));
            let mut env = clone_names(local_values);
            let mut i: usize = 0;
            while i < ds2.len()
                invariant
                    i <= ds2@.len(),
                    names(env@) == names(local_values@) + decls_names(ds2@.take(i as int)),
                decreases ds2@.len() - i,
            {
                append_names(&mut env, local_decl_value_names(&ds2[i]));
                proof {
                    let pre = ds2@.take(i + 1);
                    assert(pre.drop_last() =~= ds2@.take(i as int));
                    assert(pre.last() == ds2@[i as int]);
                }
                assert(names(env@) =~= names(local_values@) + decls_names(ds2@.take(i + 1)));
                i = i + 1;
            }
            assert(ds2@.take(ds2@.len() as int) =~= ds2@);
            ExprKind::Let(ds2, Box::new(rename_expr(*body, scope, &env)))
        },
        ExprKind::Case(x, arms) => {
            let x2 = rename_expr(*x, scope, local_values);
            let ghost g = arms@;
            ExprKind::Case(Box::new(x2), rename_arms(arms, scope, local_values, Ghost(g)))
        },
        ExprKind::Ann(x, ty) => {
            let ty2 = rename_type_expr(&ty, scope);
            ExprKind::Ann(Box::new(rename_expr(*x, scope, local_values)), ty2)
        },
        ExprKind::Perform(e, x) => {
            let e2 = lookup_renamed(&scope.effects, &e);
            ExprKind::Perform(e2, Box::new(rename_expr(*x, scope, local_values)))
        },
        ExprKind::Handle { body, return_var, return_body, handlers } => {
            let body2 = rename_expr(*body, scope, local_values);
            let mut renv = clone_names(local_values);
            renv.push(clone_string(&return_var));
            assert(names(renv@) =~= names(local_values@).push(return_var@));
            let rb2 = rename_expr(*return_body, scope, &renv);
            let ghost g = handlers@;
            let hs2 = rename_handlers(handlers, scope, local_values, Ghost(g));
            ExprKind::Handle { body: Box::new(body2), return_var, return_body: Box::new(rb2), handlers: hs2 }
        },
        ExprKind::Resume(c, x) => ExprKind::Resume(
            Box::new(rename_expr(*c, scope, local_values)),
            Box::new(rename_expr(*x, scope, local_values)),
        ),
        other => other,
    };
    Expr { kind, span }
}

fn rename_exprs(xs: Vec<Expr>, scope: &ModuleScope, local_values: &Vec<String>, Ghost(outer): Ghost<Seq<Expr>>) -> (r: Vec<Expr>)
    requires
        outer == xs@,
        exprs_flat(xs@),
    ensures
        exprs_ren(xs@, r@, *scope, names(local_values@)),
    decreases outer, 1nat,
{
    let ghost all = xs@;
    let n = xs.len();
    let mut rest = xs;
    let mut out: Vec<Expr> = Vec::new();
    let mut i: usize = 0;
    while rest.len() > 0
        invariant
            all.len() == n,
            i <= all.len(),
            rest@ == all.skip(i as int),
            all == outer,
            exprs_flat(all),
            exprs_ren(all.take(i as int), out@, *scope, names(local_values@)),
        decreases rest@.len(),
    {
        let e = rest.remove(0);
        assert(e == all[i as int]);
        assert(decreases_to!(all => all[i as int]));
        proof {
            lemma_exprs_flat_at(all, i as int);
        }
        let e2 = rename_expr(e, scope, local_values);
        proof {
            assert(all.take(i + 1).drop_last() =~= all.take(i as int));
            assert(out@.push(e2).drop_last() =~= out@);
        }
        out.push(e2);
        assert(rest@ =~= all.skip(i + 1));
        i = i + 1;
    }
    assert(all.take(i as int) =~= all);
    out
}

fn rename_arms(arms: Vec<(Pat, Expr)>, scope: &ModuleScope, local_values: &Vec<String>, Ghost(outer): Ghost<Seq<(Pat, Expr)>>) -> (r: Vec<(Pat, Expr)>)
    requires
        outer == arms@,
        arms_flat(arms@),
    ensures
        arms_ren(arms@, r@, *scope, names(local_values@)),
    decreases outer, 1nat,
{
    let ghost all = arms@;
    let n = arms.len();
    let mut rest = arms;
    let mut out: Vec<(Pat, Expr)> = Vec::new();
    let mut i: usize = 0;
    while rest.len() > 0
        invariant
            all.len() == n,
            i <= all.len(),
            rest@ == all.skip(i as int),
            all == outer,
            arms_flat(all),
            arms_ren(all.take(i as int), out@, *scope, names(local_values@)),
        decreases rest@.len(),
    {
        let (p, e) = rest.remove(0);
        assert(p == all[i as int].0 && e == all[i as int].1);
        assert(decreases_to!(all => all[i as int]));
        assert(decreases_to!(all[i as int] => all[i as int].1));
        proof {
            lemma_arms_flat_at(all, i as int);
        }
        let mut env = clone_names(local_values);
        append_names(&mut env, pat_bound_names(&p));
        let p2 = rename_pat(p, scope, false);
        let e2 = rename_expr(e, scope, &env);
        proof {
            assert(all.take(i + 1).drop_last() =~= all.take(i as int));
            assert(out@.push((p2, e2)).drop_last() =~= out@);
        }
        out.push((p2, e2));
        assert(rest@ =~= all.skip(i + 1));
        i = i + 1;
    }
    assert(all.take(i as int) =~= all);
    out
}

fn rename_handlers(hs: Vec<EffectHandler>, scope: &ModuleScope, local_values: &Vec<String>, Ghost(outer): Ghost<Seq<EffectHandler>>) -> (r: Vec<EffectHandler>)
    requires
        outer == hs@,
        handlers_flat(hs@),
    ensures
        handlers_ren(hs@, r@, *scope, names(local_values@)),
    decreases outer, 1nat,
{
    let ghost all = hs@;
    let n = hs.len();
    let mut rest = hs;
    let mut out: Vec<EffectHandler> = Vec::new();
    let mut i: usize = 0;
    while rest.len() > 0
        invariant
            all.len() == n,
            i <= all.len(),
            rest@ == all.skip(i as int),
            all == outer,
            handlers_flat(all),
            handlers_ren(all.take(i as int), out@, *scope, names(local_values@)),
        decreases rest@.len(),
    {
        let h = rest.remove(0);
        assert(h == all[i as int]);
        assert(decreases_to!(all => all[i as int]));
        assert(decreases_to!(all[i as int] => all[i as int].body));
        proof {
            lemma_handlers_flat_at(all, i as int);
        }
        let EffectHandler { effect_name, payload_var, cont_var, body, span } = h;
        let mut env = clone_names(local_values);
        env.push(clone_string(&payload_var));
        env.push(clone_string(&cont_var));
        assert(names(env@) =~= names(local_values@).push(payload_var@).push(cont_var@));
        let body2 = rename_expr(body, scope, &env);
        let h2 = EffectHandler {
            effect_name: lookup_renamed(&scope.effects, &effect_name),
            payload_var,
            cont_var,
            body: body2,
            span,
        };
        proof {
            assert(all.take(i + 1).drop_last() =~= all.take(i as int));
            assert(out@.push(h2).drop_last() =~= out@);
        }
        out.push(h2);
        assert(rest@ =~= all.skip(i + 1));
        i = i + 1;
    }
    assert(all.take(i as int) =~= all);
    out
}

/// Renames a sequence of local declarations, each with the names the ones
/// before it bind.
fn rename_local_decl_seq(decls: Vec<Decl>, scope: &ModuleScope, local_values: &Vec<String>, Ghost(outer): Ghost<Seq<Decl>>) -> (r: Vec<Decl>)
    requires
        outer == decls@,
        decls_flat(decls@),
    ensures
        local_seq_ren(decls@, r@, *scope, names(local_values@)),
    decreases outer, 3nat,
{
    let ghost all = decls@;
    let ghost ls = names(local_values@);
    let n = decls.len();
    let mut rest = decls;
    let mut out: Vec<Decl> = Vec::new();
    let mut env = clone_names(local_values);
    let mut i: usize = 0;
    while rest.len() > 0
        invariant
            all.len() == n,
            i <= all.len(),
            rest@ == all.skip(i as int),
            all == outer,
            decls_flat(all),
            ls == names(local_values@),
            names(env@) == ls + decls_names(all.take(i as int)),
            local_seq_ren(all.take(i as int), out@, *scope, ls),
        decreases rest@.len(),
    {
        let d = rest.remove(0);
        assert(d == all[i as int]);
        assert(decreases_to!(all => all[i as int]));
        proof {
            lemma_decls_flat_at(all, i as int);
        }
        let bound = local_decl_value_names(&d);
        let ghost env_i = names(env@);
        let mut outs = rename_module_decl(d, scope, &env, false, false);
        let ghost o_old = out@;
        let ghost o_new = outs@;
        out.append(&mut outs);
        append_names(&mut env, bound);
        proof {
            let pre = all.take(i + 1);
            assert(pre.drop_last() =~= all.take(i as int));
            assert(pre.last() == all[i as int]);
            assert(out@ =~= o_old + o_new);
            assert(out@.take(o_old.len() as int) =~= o_old);
            assert(out@.skip(o_old.len() as int) =~= o_new);
        }
        assert(names(env@) =~= ls + decls_names(all.take(i + 1)));
        assert(rest@ =~= all.skip(i + 1));
        i = i + 1;
    }
    assert(all.take(i as int) =~= all);
    out
}

/// Renames a structure's exported sequence of declarations.
fn rename_export_decl_seq(
    decls: Vec<Decl>,
    scope: &ModuleScope,
    local_values: &Vec<String>,
    module_hidden: bool,
    export_names: bool,
    Ghost(outer): Ghost<Seq<Decl>>,
) -> (r: Vec<Decl>)
    requires
        outer == decls@,
        decls_flat(decls@),
    ensures
        export_seq_ren(decls@, r@, *scope, names(local_values@), module_hidden, export_names),
    decreases outer, 3nat,
{
    let ghost all = decls@;
    let ghost ls = names(local_values@);
    let n = decls.len();
    let mut rest = decls;
    let mut out: Vec<Decl> = Vec::new();
    let mut i: usize = 0;
    while rest.len() > 0
        invariant
            all.len() == n,
            i <= all.len(),
            rest@ == all.skip(i as int),
            all == outer,
            decls_flat(all),
            ls == names(local_values@),
            export_seq_ren(all.take(i as int), out@, *scope, ls, module_hidden, export_names),
        decreases rest@.len(),
    {
        let d = rest.remove(0);
        assert(d == all[i as int]);
        assert(decreases_to!(all => all[i as int]));
        proof {
            lemma_decls_flat_at(all, i as int);
        }
        let mut outs = rename_module_decl(d, scope, local_values, module_hidden, export_names);
        let ghost o_old = out@;
        let ghost o_new = outs@;
        out.append(&mut outs);
        proof {
            let pre = all.take(i + 1);
            assert(pre.drop_last() =~= all.take(i as int));
            assert(pre.last() == all[i as int]);
            assert(out@ =~= o_old + o_new);
            assert(out@.take(o_old.len() as int) =~= o_old);
            assert(out@.skip(o_old.len() as int) =~= o_new);
        }
        assert(rest@ =~= all.skip(i + 1));
        i = i + 1;
    }
    assert(all.take(i as int) =~= all);
    out
}

/// Renames a datatype's constructors' payloads, and its own names where
/// they are public.
fn rename_datatype(dt: DatatypeDecl, scope: &ModuleScope, public: bool) -> (r: DatatypeDecl)
    ensures
        r.tyvars == dt.tyvars,
        r.span == dt.span,
        r.name@ == public_name(scope.types@, dt.name, public),
        cons_ren(dt.constructors@, r.constructors@, *scope, public),
{
    let DatatypeDecl { tyvars, name, constructors, span } = dt;
    let name2 = export_name(&scope.types, name, public);
    let ghost all = constructors@;
    let n = constructors.len();
    let mut rest = constructors;
    let mut out: Vec<ConDecl> = Vec::new();
    let mut i: usize = 0;
    while rest.len() > 0
        invariant
            all.len() == n,
            i <= all.len(),
            rest@ == all.skip(i as int),
            cons_ren(all.take(i as int), out@, *scope, public),
        decreases rest@.len(),
    {
        let c = rest.remove(0);
        assert(c == all[i as int]);
        let ConDecl { name: cname, payload, span: cspan } = c;
        let payload2 = match payload {
            Some(t) => Some(rename_type_expr(&t, scope)),
            None => None,
        };
        let c2 = ConDecl { name: export_name(&scope.constructors, cname, public), payload: payload2, span: cspan };
        proof {
            assert(all.take(i + 1).drop_last() =~= all.take(i as int));
            assert(out@.push(c2).drop_last() =~= out@);
        }
        out.push(c2);
        assert(rest@ =~= all.skip(i + 1));
        i = i + 1;
    }
    assert(all.take(i as int) =~= all);
    DatatypeDecl { tyvars, name: name2, constructors: out, span }
}

/// The names of function bindings.
fn binding_names(bs: &Vec<FunBinding>) -> (r: Vec<String>)
    ensures
        names(r@) == bindings_names(bs@),
{
    let mut out: Vec<String> = Vec::new();
    let mut i: usize = 0;
    while i < bs.len()
        invariant
            i <= bs@.len(),
            names(out@) == bindings_names(bs@).take(i as int),
        decreases bs@.len() - i,
    {
        let ghost prev = out@;
        out.push(clone_string(&bs[i].name));
        assert(names(out@) =~= names(prev).push(bs@[i as int].name@));
        assert(bindings_names(bs@).take(i + 1) =~= bindings_names(bs@).take(i as int).push(bs@[i as int].name@));
        i = i + 1;
    }
    assert(bindings_names(bs@).take(bs@.len() as int) =~= bindings_names(bs@));
    out
}

/// Renames one function binding: each clause's body with `env` and the
/// clause's variables bound, its patterns, and its name where exported.
fn rename_fun_binding(binding: FunBinding, scope: &ModuleScope, env: &Vec<String>, export_names: bool, Ghost(outer): Ghost<FunBinding>) -> (r: FunBinding)
    requires
        outer == binding,
        clauses_flat(binding.clauses@),
    ensures
        r.span == binding.span,
        r.name@ == public_name(scope.values@, binding.name, export_names),
        clauses_ren(binding.clauses@, r.clauses@, *scope, names(env@)),
    decreases outer, 1nat,
{
    let ghost b0 = binding;
    assert(decreases_to!(b0 => b0.clauses));
    let FunBinding { name, clauses, span } = binding;
    let ghost all = clauses@;
    assert(decreases_to!(b0.clauses => all));
    let n = clauses.len();
    let mut rest = clauses;
    let mut out: Vec<FunClause> = Vec::new();
    let mut i: usize = 0;
    while rest.len() > 0
        invariant
            all.len() == n,
            i <= all.len(),
            rest@ == all.skip(i as int),
            decreases_to!(outer => all),
            clauses_flat(all),
            clauses_ren(all.take(i as int), out@, *scope, names(env@)),
        decreases rest@.len(),
    {
        let c = rest.remove(0);
        assert(c == all[i as int]);
        assert(decreases_to!(all => all[i as int]));
        assert(decreases_to!(all[i as int] => all[i as int].body));
        proof {
            lemma_clauses_flat_at(all, i as int);
        }
        let ghost c0 = c;
        let FunClause { pats, body, span: cspan } = c;
        let mut env2 = clone_names(env);
        let mut j: usize = 0;
        while j < pats.len()
            invariant
                j <= pats@.len(),
                names(env2@) == names(env@) + pats_binds(pats@.take(j as int)),
            decreases pats@.len() - j,
        {
            collect_pat_bound_names(&pats[j], &mut env2);
            proof {
                let pre = pats@.take(j + 1);
                assert(pre.drop_last() =~= pats@.take(j as int));
                assert(pre.last() == pats@[j as int]);
            }
            assert(names(env2@) =~= names(env@) + pats_binds(pats@.take(j + 1)));
            j = j + 1;
        }
        assert(pats@.take(pats@.len() as int) =~= pats@);
        let body2 = rename_expr(body, scope, &env2);
        let ghost p_all = pats@;
        let pats2 = rename_clause_pats(pats, scope);
        let c2 = FunClause { pats: pats2, body: body2, span: cspan };
        proof {
            assert(all.take(i + 1).drop_last() =~= all.take(i as int));
            assert(out@.push(c2).drop_last() =~= out@);
        }
        out.push(c2);
        assert(rest@ =~= all.skip(i + 1));
        i = i + 1;
    }
    assert(all.take(i as int) =~= all);
    FunBinding { name: export_name(&scope.values, name, export_names), clauses: out, span }
}

/// A clause's patterns renamed, binding no exported name.
fn rename_clause_pats(pats: Vec<Pat>, scope: &ModuleScope) -> (r: Vec<Pat>)
    ensures
        pats_ren(pats@, r@, *scope, false),
{
    let ghost all = pats@;
    let n = pats.len();
    let mut rest = pats;
    let mut out: Vec<Pat> = Vec::new();
    let mut i: usize = 0;
    while rest.len() > 0
        invariant
            all.len() == n,
            i <= all.len(),
            rest@ == all.skip(i as int),
            pats_ren(all.take(i as int), out@, *scope, false),
        decreases rest@.len(),
    {
        let p = rest.remove(0);
        assert(p == all[i as int]);
        let q = rename_pat(p, scope, false);
        proof {
            assert(all.take(i + 1).drop_last() =~= all.take(i as int));
            assert(out@.push(q).drop_last() =~= out@);
        }
        out.push(q);
        assert(rest@ =~= all.skip(i + 1));
        i = i + 1;
    }
    assert(all.take(i as int) =~= all);
    out
}

fn rename_bindings(bs: Vec<FunBinding>, scope: &ModuleScope, env: &Vec<String>, export_names: bool, Ghost(outer): Ghost<Seq<FunBinding>>) -> (r: Vec<FunBinding>)
    requires
        outer == bs@,
        bindings_flat(bs@),
    ensures
        bindings_ren(bs@, r@, *scope, names(env@), export_names),
    decreases outer, 2nat,
{
    let ghost all = bs@;
    let n = bs.len();
    let mut rest = bs;
    let mut out: Vec<FunBinding> = Vec::new();
    let mut i: usize = 0;
    while rest.len() > 0
        invariant
            all.len() == n,
            i <= all.len(),
            rest@ == all.skip(i as int),
            all == outer,
            bindings_flat(all),
            bindings_ren(all.take(i as int), out@, *scope, names(env@), export_names),
        decreases rest@.len(),
    {
        let b = rest.remove(0);
        assert(b == all[i as int]);
        assert(decreases_to!(all => all[i as int]));
        proof {
            lemma_bindings_flat_at(all, i as int);
        }
        let ghost gb = b;
        let b2 = rename_fun_binding(b, scope, env, export_names, Ghost(gb));
        proof {
            assert(all.take(i + 1).drop_last() =~= all.take(i as int));
            assert(out@.push(b2).drop_last() =~= out@);
        }
        out.push(b2);
        assert(rest@ =~= all.skip(i + 1));
        i = i + 1;
    }
    assert(all.take(i as int) =~= all);
    out
}

/// Renames a declaration of a structure: what it refers to always, the
/// names it binds where they are exported or hidden. A signature leaves
/// nothing.
pub fn rename_module_decl(
    decl: Decl,
    scope: &ModuleScope,
    local_values: &Vec<String>,
    module_hidden: bool,
    export_names: bool,
) -> (r: Vec<Decl>)
    requires
        decl_flat(decl),
    ensures
        mdecl_ren(decl, r@, *scope, names(local_values@), module_hidden, export_names),
    decreases decl, 5nat,
{
    let ghost d0 = decl;
    let span = decl.span;
    let public = export_names || module_hidden;
    proof {
        assert(decreases_to!(decl => decl.kind));
    }
    let kind = match decl.kind {
        DeclKind::Structure { .. } => {
            return Vec::new();
        },
        DeclKind::Signature(_) => {
            return Vec::new();
        },
        DeclKind::Val(p, e) => {
            let p2 = rename_pat(p, scope, public);
            DeclKind::Val(p2, rename_expr(e, scope, local_values))
        },
        DeclKind::ValRec(x, e) => {
            let mut env = clone_names(local_values);
            if !public {
                env.push(clone_string(&x));
            }
            assert(names(env@) =~= if public { names(local_values@) } else { names(local_values@).push(x@) });
            let y = export_name(&scope.values, x, public);
            DeclKind::ValRec(y, rename_expr(e, scope, &env))
        },
        DeclKind::Fun(bs) => {
            let mut env = clone_names(local_values);
            if !public {
                append_names(&mut env, binding_names(&bs));
            }
            assert(names(env@) =~= names(local_values@) + if public { Seq::<Seq<char>>::empty() } else { bindings_names(bs@) });
            let ghost g = bs@;
            DeclKind::Fun(rename_bindings(bs, scope, &env, public, Ghost(g)))
        },
        DeclKind::Datatype(dt) => DeclKind::Datatype(rename_datatype(dt, scope, public)),
        DeclKind::TypeAlias(ta) => {
            let TypeAliasDecl { tyvars, name, ty, span: tspan } = ta;
            let ty2 = rename_type_expr(&ty, scope);
            DeclKind::TypeAlias(TypeAliasDecl { tyvars, name: export_name(&scope.types, name, public), ty: ty2, span: tspan })
        },
        DeclKind::Local(ds, body) => {
            let ghost g1 = ds@;
            let ghost g2 = body@;
            let ds2 = rename_local_decl_seq(ds, scope, local_values, Ghost(g1));
            let body2 = if export_names {
                rename_export_decl_seq(body, scope, local_values, false, true, Ghost(g2))
            } else if module_hidden {
                rename_export_decl_seq(body, scope, local_values, true, false, Ghost(g2))
            } else {
                rename_local_decl_seq(body, scope, local_values, Ghost(g2))
            };
            DeclKind::Local(ds2, body2)
        },
        DeclKind::Use(path) => DeclKind::Use(path),
        DeclKind::Effect(x, ty) => {
            let ty2 = match ty {
                Some(t) => Some(rename_type_expr(&t, scope)),
                None => None,
            };
            DeclKind::Effect(export_name(&scope.effects, x, public), ty2)
        },
    };
    let mut out: Vec<Decl> = Vec::new();
    out.push(Decl { kind, span });
    out
}

} // verus!
