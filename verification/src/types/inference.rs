//! Inferring the types of patterns, expressions and declarations, and the
//! value restriction.
use vstd::prelude::*;
use crate::syntax::ast::{
    BinOp, Decl, DeclKind, Expr, ExprKind, FunBinding, FunClause, Pat, PatKind, Program,
    TypeExpr, TypeExprKind, DatatypeDecl, TypeAliasDecl,
};
use crate::syntax::span::Span;
use crate::text::{clone_string, push_str, str_eq, string_eq, to_string};
use crate::types::assoc::assoc;
use crate::types::infer::{
    count_tyvars_upto, grows, lemma_arms_core_at, lemma_bindings_core_at, lemma_clauses_core_at,
    lemma_decls_core_at, lemma_exprs_core_at, lemma_handlers_core_at, lemma_pats_core_at,
    lemma_subst_ok_grow, lemma_tyvar_resolve_bound, tyvar_count, tyvar_naming, message_with,
    arms_core, bindings_core, clauses_core, decl_core, decls_core, expr_core, exprs_core,
    handlers_core, keeps_names, pat_core, pats_core, scope_lookup, scope_view, InferCtx, TypeError, env_lookup,
};
use crate::types::subst::{
    acyclic, app, keys, lemma_app_avoiding, lemma_app_compose, lemma_app_resolves, lemma_avoids_empty, lemma_resolved,
    subst_vars, subst_vars_list, tsize, fresh_map,
};
use crate::types::ty::{free_vars_of, is_con, lemma_tys_push, scheme_view, ty_view, tys_view, Scheme, SchemeV, TyV, Type};

verus! {

// ── The value restriction ───────────────────────────────────────────────

/// A syntactic value: an expression whose evaluation does no work that a
/// let-bound polymorphic name could observe.
pub open spec fn syntactic_value(e: Expr) -> bool
    decreases e, 1nat,
{
    match e.kind {
        ExprKind::IntLit(_) | ExprKind::FloatLit(_) | ExprKind::StringLit(_) | ExprKind::CharLit(_)
        | ExprKind::BoolLit(_) | ExprKind::Unit | ExprKind::Var(_) | ExprKind::Constructor(_)
        | ExprKind::Fn(_, _) => true,
        ExprKind::Tuple(xs) => syntactic_values(xs@),
        ExprKind::List(xs) => xs@.len() == 0,
        ExprKind::Cons(h, t) => syntactic_value(*h) && syntactic_value(*t),
        ExprKind::App(f, x) => (f.kind is Constructor) && syntactic_value(*x),
        ExprKind::Ann(x, _) => syntactic_value(*x),
        _ => false,
    }
}

pub open spec fn syntactic_values(xs: Seq<Expr>) -> bool
    decreases xs, 0nat,
{
    xs.len() > 0 ==> syntactic_values(xs.drop_last()) && syntactic_value(xs.last())
}

/// Whether `expr` is a syntactic value, so that its type may be
/// generalized.
pub fn is_syntactic_value(expr: &Expr) -> (r: bool)
    ensures
        r == syntactic_value(*expr),
    decreases *expr, 1nat,
{
    proof {
        assert(decreases_to!(*expr => expr.kind));
    }
    match &expr.kind {
        ExprKind::IntLit(_) | ExprKind::FloatLit(_) | ExprKind::StringLit(_) | ExprKind::CharLit(_)
        | ExprKind::BoolLit(_) | ExprKind::Unit | ExprKind::Var(_) | ExprKind::Constructor(_)
        | ExprKind::Fn(_, _) => true,
        ExprKind::Tuple(xs) => all_syntactic_values(xs, Ghost(*expr)),
        ExprKind::List(xs) => xs.len() == 0,
        ExprKind::Cons(h, t) => is_syntactic_value(h) && is_syntactic_value(t),
        ExprKind::App(f, x) => match &f.kind {
            ExprKind::Constructor(_) => is_syntactic_value(x),
            _ => false,
        },
        ExprKind::Ann(x, _) => is_syntactic_value(x),
        _ => false,
    }
}

fn all_syntactic_values(xs: &Vec<Expr>, Ghost(outer): Ghost<Expr>) -> (r: bool)
    requires
        decreases_to!(outer => xs@),
    ensures
        r == syntactic_values(xs@),
    decreases outer, 0nat,
{
    let mut i: usize = 0;
    while i < xs.len()
        invariant
            i <= xs@.len(),
            decreases_to!(outer => xs@),
            syntactic_values(xs@.take(i as int)),
        decreases xs@.len() - i,
    {
        assert(decreases_to!(xs@ => xs@[i as int]));
        let b = is_syntactic_value(&xs[i]);
        proof {
            let pre = xs@.take(i + 1);
            assert(pre.drop_last() =~= xs@.take(i as int));
            assert(pre.last() == xs@[i as int]);
        }
        if !b {
            proof {
                if syntactic_values(xs@) {
                    lemma_values_prefix(xs@, i as int + 1);
                }
            }
            return false;
        }
        i = i + 1;
    }
    assert(xs@.take(xs@.len() as int) =~= xs@);
    true
}

proof fn lemma_values_prefix(xs: Seq<Expr>, k: int)
    requires
        0 <= k <= xs.len(),
        syntactic_values(xs),
    ensures
        syntactic_values(xs.take(k)),
    decreases xs.len() - k,
{
    if k < xs.len() {
        lemma_values_prefix(xs, k + 1);
        assert(xs.take(k + 1).drop_last() =~= xs.take(k));
    } else {
        assert(xs.take(k) =~= xs);
    }
}

// ── Patterns ────────────────────────────────────────────────────────────

/// The variables a pattern binds, in the order inference lists them: an
/// `as` name after the names of its pattern.
pub open spec fn pat_vars(p: Pat) -> Seq<Seq<char>>
    decreases p, 1nat,
{
    match p.kind {
        PatKind::Var(x) => seq![x@],
        PatKind::Tuple(ps) => pats_vars(ps@),
        PatKind::Cons(h, t) => pat_vars(*h) + pat_vars(*t),
        PatKind::Constructor(_, Some(q)) => pat_vars(*q),
        PatKind::Ann(q, _) => pat_vars(*q),
        PatKind::As(x, q) => pat_vars(*q).push(x@),
        PatKind::Paren(q) => pat_vars(*q),
        _ => Seq::empty(),
    }
}

pub open spec fn pats_vars(ps: Seq<Pat>) -> Seq<Seq<char>>
    decreases ps, 0nat,
{
    if ps.len() == 0 {
        Seq::empty()
    } else {
        pats_vars(ps.drop_last()) + pat_vars(ps.last())
    }
}

/// The names of a list of bindings.
pub open spec fn names_of(bs: Seq<(String, Type)>) -> Seq<Seq<char>> {
    bs.map_values(|b: (String, Type)| b.0@)
}

/// A pattern whose inference cannot fail for want of a unifier: variables,
/// wildcards, literals, the empty list, and tuples, `as` and parentheses of
/// such patterns.
pub open spec fn pat_simple(p: Pat) -> bool
    decreases p, 1nat,
{
    match p.kind {
        PatKind::Tuple(ps) => pats_simple(ps@),
        PatKind::As(_, q) => pat_simple(*q),
        PatKind::Paren(q) => pat_simple(*q),
        PatKind::Constructor(_, _) | PatKind::Cons(_, _) | PatKind::Ann(_, _) => false,
        _ => true,
    }
}

pub open spec fn pats_simple(ps: Seq<Pat>) -> bool
    decreases ps, 0nat,
{
    ps.len() > 0 ==> pats_simple(ps.drop_last()) && pat_simple(ps.last())
}

/// The fresh variables that inferring a simple pattern hands out.
pub open spec fn pat_fresh(p: Pat) -> nat
    decreases p, 1nat,
{
    match p.kind {
        PatKind::Wildcard | PatKind::Var(_) | PatKind::List(_) => 1,
        PatKind::Tuple(ps) => pats_fresh(ps@),
        PatKind::As(_, q) => pat_fresh(*q),
        PatKind::Paren(q) => pat_fresh(*q),
        _ => 0,
    }
}

pub open spec fn pats_fresh(ps: Seq<Pat>) -> nat
    decreases ps, 0nat,
{
    if ps.len() == 0 {
        0
    } else {
        pats_fresh(ps.drop_last()) + pat_fresh(ps.last())
    }
}

proof fn lemma_pats_simple_at(ps: Seq<Pat>, i: int)
    requires
        pats_simple(ps),
        0 <= i < ps.len(),
    ensures
        pat_simple(ps[i]),
    decreases ps.len(),
{
    if i < ps.len() - 1 {
        lemma_pats_simple_at(ps.drop_last(), i);
    }
}

proof fn lemma_pats_fresh_prefix(ps: Seq<Pat>, k: int)
    requires
        0 <= k <= ps.len(),
    ensures
        pats_fresh(ps.take(k)) <= pats_fresh(ps),
    decreases ps.len() - k,
{
    if k < ps.len() {
        lemma_pats_fresh_prefix(ps, k + 1);
        assert(ps.take(k + 1).drop_last() =~= ps.take(k));
    } else {
        assert(ps.take(k) =~= ps);
    }
}

/// The base type of a literal pattern.
pub open spec fn lit_pat_con(k: PatKind) -> Option<Seq<char>> {
    match k {
        PatKind::IntLit(_) => Some("Int"@),
        PatKind::FloatLit(_) => Some("Float"@),
        PatKind::StringLit(_) => Some("String"@),
        PatKind::CharLit(_) => Some("Char"@),
        PatKind::BoolLit(_) => Some("Bool"@),
        PatKind::Unit => Some("Unit"@),
        _ => None,
    }
}

/// The first name (other than `_`) that occurs a second time.
pub open spec fn first_dup(ns: Seq<Seq<char>>) -> Option<Seq<char>>
    decreases ns.len(),
{
    first_dup_from(ns, 0)
}

pub open spec fn first_dup_from(ns: Seq<Seq<char>>, i: int) -> Option<Seq<char>>
    decreases ns.len() - i,
{
    if i < 0 || i >= ns.len() {
        None
    } else if ns[i] != "_"@ && ns.take(i).contains(ns[i]) {
        Some(ns[i])
    } else {
        first_dup_from(ns, i + 1)
    }
}

impl InferCtx {
    /// The type of a pattern and the variables it binds with their types,
    /// in order.
    pub fn infer_pat_inner(&mut self, pat: &Pat) -> (r: Result<(Type, Vec<(String, Type)>), TypeError>)
        requires
            old(self).wf(),
            pat_core(*pat),
        ensures
            grows(*old(self), *final(self)),
            final(self).env() == old(self).env(),
            (r matches Ok(v) ==> names_of(v.1@) == pat_vars(*pat)),
            r matches Ok((t, bs)) ==> pat_has_typing(final(self).bindings(), *pat, ty_view(t), monos_view(bs@)),
            lit_pat_con(pat.kind) is Some ==> (r matches Ok((t, bs)) && is_con(t, lit_pat_con(pat.kind)->0)
                && bs@.len() == 0),
            (pat.kind is Wildcard || pat.kind is Var) && old(self).next() < u32::MAX ==> (r matches Ok((t, _))
                && t == Type::Var(old(self).next())),
            pat.kind is Var ==> (r matches Ok((t, bs)) ==> bs@.len() == 1 && ty_view(bs@[0].1) == ty_view(t)),
            (pat.kind is Var && old(self).next() < u32::MAX) ==> (r matches Ok((_, bs)) && bs@.len() == 1 && ty_view(
                bs@[0].1,
            ) == TyV::Var(old(self).next()) && final(self).bindings() == old(self).bindings() && final(self).next()
                == old(self).next() + 1 && final(self).cons() == old(self).cons()),
            (pat.kind matches PatKind::Constructor(x, _) && assoc(old(self).cons(), x@) is None) ==> (r matches Err(
                e,
            ) && e.message@ == "unknown constructor: "@ + pat.kind->Constructor_0@ && e.span == pat.span),
            (pat_simple(*pat) && old(self).next() + pat_fresh(*pat) <= u32::MAX) ==> (r is Ok && final(self).next()
                == old(self).next() + pat_fresh(*pat)),
        decreases *pat, 1nat,
    {
        proof {
            assert(decreases_to!(*pat => pat.kind));
        }
        match &pat.kind {
            PatKind::Wildcard => {
                let t = self.fresh_checked(pat.span)?;
                let bs: Vec<(String, Type)> = Vec::new();
                proof {
                    let d = Typing { ty: ty_view(t), parts: Seq::empty(), binds: monos_view(bs@) };
                    assert(pat_typed(self.bindings(), *pat, d));
                }
                Ok((t, bs))
            },
            PatKind::Var(x) => {
                let t = self.fresh_checked(pat.span)?;
                let t2 = t.duplicate();
                let mut bs: Vec<(String, Type)> = Vec::new();
                bs.push((clone_string(x), t2));
                assert(names_of(bs@) =~= seq![x@]);
                proof {
                    let d = Typing { ty: ty_view(t), parts: Seq::empty(), binds: monos_view(bs@) };
                    assert(monos_view(bs@) =~= seq![(x@, mono(ty_view(t)))]);
                    assert(pat_typed(self.bindings(), *pat, d));
                }
                Ok((t, bs))
            },
            PatKind::IntLit(_) => {
                let t = Type::int_type();
                let bs: Vec<(String, Type)> = Vec::new();
                proof {
                    lemma_lit_pat_typing(self.bindings(), *pat, ty_view(t), monos_view(bs@));
                }
                Ok((t, bs))
            },
            PatKind::FloatLit(_) => {
                let t = Type::float();
                let bs: Vec<(String, Type)> = Vec::new();
                proof {
                    lemma_lit_pat_typing(self.bindings(), *pat, ty_view(t), monos_view(bs@));
                }
                Ok((t, bs))
            },
            PatKind::StringLit(_) => {
                let t = Type::string();
                let bs: Vec<(String, Type)> = Vec::new();
                proof {
                    lemma_lit_pat_typing(self.bindings(), *pat, ty_view(t), monos_view(bs@));
                }
                Ok((t, bs))
            },
            PatKind::CharLit(_) => {
                let t = Type::char();
                let bs: Vec<(String, Type)> = Vec::new();
                proof {
                    lemma_lit_pat_typing(self.bindings(), *pat, ty_view(t), monos_view(bs@));
                }
                Ok((t, bs))
            },
            PatKind::BoolLit(_) => {
                let t = Type::bool();
                let bs: Vec<(String, Type)> = Vec::new();
                proof {
                    lemma_lit_pat_typing(self.bindings(), *pat, ty_view(t), monos_view(bs@));
                }
                Ok((t, bs))
            },
            PatKind::Unit => {
                let t = Type::unit();
                let bs: Vec<(String, Type)> = Vec::new();
                proof {
                    lemma_lit_pat_typing(self.bindings(), *pat, ty_view(t), monos_view(bs@));
                }
                Ok((t, bs))
            },
            PatKind::Tuple(ps) => {
                let (tys, bs) = self.infer_pats_inner(ps, Ghost(*pat))?;
                let ghost tv = tys_view(tys@);
                let t = Type::Tuple(tys);
                proof {
                    let ds = choose|ds: Seq<Typing>| #[trigger] pats_typed(self.bindings(), ps@, ds) && typing_tys(ds) == tv && binds_concat(ds) == monos_view(bs@);
                    let d = Typing { ty: ty_view(t), parts: ds, binds: monos_view(bs@) };
                    assert(pat_typed(self.bindings(), *pat, d));
                }
                Ok((t, bs))
            },
            PatKind::List(_) => {
                let t = self.fresh_checked(pat.span)?;
                let ghost tg = t;
                let lt = Type::list(t);
                let bs: Vec<(String, Type)> = Vec::new();
                proof {
                    lemma_tys_view_one(tg);
                    let d = Typing { ty: ty_view(lt), parts: Seq::empty(), binds: monos_view(bs@) };
                    assert(monos_view(bs@) =~= Seq::<(Seq<char>, SchemeV)>::empty());
                    assert(pat_typed(self.bindings(), *pat, d));
                }
                Ok((lt, bs))
            },
            PatKind::Cons(h, t) => {
                let (ht, mut bs) = self.infer_pat_inner(h)?;
                let ghost c1 = *self;
                let ghost s1 = self.bindings();
                let (tt, mut tbs) = self.infer_pat_inner(t)?;
                let ghost c2 = *self;
                let ghost s2 = self.bindings();
                let ghost hb = bs@;
                let ghost tb = tbs@;
                bs.append(&mut tbs);
                assert(names_of(bs@) =~= names_of(hb) + names_of(tb));
                let ghost htv = ty_view(ht);
                proof {
                    lemma_tys_view_one(ht);
                }
                let list_ty = Type::list(ht);
                self.unify_checked(&tt, &list_ty, pat.span)?;
                proof {
                    let s3 = self.bindings();
                    lemma_grows_prefix(c1, *self);
                    lemma_grows_prefix(c2, *self);
                    let dh = choose|d: Typing| #[trigger] pat_typed(s1, **h, d) && d.ty == htv && d.binds == monos_view(hb);
                    let dt = choose|d: Typing| #[trigger] pat_typed(s2, **t, d) && d.ty == ty_view(tt) && d.binds == monos_view(tb);
                    lemma_pat_typed_extend(s1, s3, **h, dh);
                    lemma_pat_typed_extend(s2, s3, **t, dt);
                    assert(ty_view(list_ty) == list_of(htv));
                    assert(monos_view(bs@) =~= monos_view(hb) + monos_view(tb));
                    let d = Typing { ty: ty_view(list_ty), parts: seq![dh, dt], binds: monos_view(bs@) };
                    assert(pat_typed(s3, *pat, d));
                }
                Ok((list_ty, bs))
            },
            PatKind::Constructor(name, payload) => {
                let scheme = match self.constructor_scheme(name.as_str()) {
                    Some(s) => s,
                    None => {
                        let m = message_with("unknown constructor: ", name);
                        return Err(self.err(m.as_str(), pat.span));
                    },
                };
                let con_ty = self.instantiate_checked(&scheme, pat.span)?;
                match payload {
                    None => {
                        let bs: Vec<(String, Type)> = Vec::new();
                        proof {
                            let d = Typing { ty: ty_view(con_ty), parts: Seq::empty(), binds: monos_view(bs@) };
                            assert(pat_typed(self.bindings(), *pat, d));
                        }
                        Ok((con_ty, bs))
                    },
                    Some(q) => {
                        let result = self.fresh_checked(pat.span)?;
                        let (pt, bs) = self.infer_pat_inner(q)?;
                        let ghost cq = *self;
                        let ghost ptv = ty_view(pt);
                        let expected = Type::arrow(pt, result.duplicate());
                        self.unify_checked(&con_ty, &expected, pat.span)?;
                        proof {
                            lemma_grows_prefix(cq, *self);
                            let d0 = choose|d: Typing| #[trigger] pat_typed(cq.bindings(), **q, d) && d.ty == ptv && d.binds == monos_view(bs@);
                            lemma_pat_typed_extend(cq.bindings(), self.bindings(), **q, d0);
                            let d = Typing { ty: ty_view(result), parts: seq![d0], binds: monos_view(bs@) };
                            assert(pat_typed(self.bindings(), *pat, d));
                        }
                        Ok((result, bs))
                    },
                }
            },
            PatKind::Ann(q, te) => {
                let (pt, bs) = self.infer_pat_inner(q)?;
                let ghost cq = *self;
                let declared = self.resolve_checked(te, pat.span)?;
                self.unify_checked(&pt, &declared, pat.span)?;
                proof {
                    lemma_grows_prefix(cq, *self);
                    let d0 = choose|d: Typing| #[trigger] pat_typed(cq.bindings(), **q, d) && d.ty == ty_view(pt) && d.binds == monos_view(bs@);
                    lemma_pat_typed_extend(cq.bindings(), self.bindings(), **q, d0);
                    let d = Typing { ty: ty_view(declared), parts: seq![d0], binds: monos_view(bs@) };
                    assert(pat_typed(self.bindings(), *pat, d));
                }
                Ok((declared, bs))
            },
            PatKind::As(x, q) => {
                let (pt, mut bs) = self.infer_pat_inner(q)?;
                let ghost b0 = bs@;
                bs.push((clone_string(x), pt.duplicate()));
                assert(names_of(bs@) =~= names_of(b0).push(x@));
                proof {
                    let d0 = choose|d: Typing| #[trigger] pat_typed(self.bindings(), **q, d) && d.ty == ty_view(pt) && d.binds == monos_view(b0);
                    assert(monos_view(bs@) =~= monos_view(b0).push((x@, mono(ty_view(pt)))));
                    let d = Typing { ty: ty_view(pt), parts: seq![d0], binds: monos_view(bs@) };
                    assert(pat_typed(self.bindings(), *pat, d));
                }
                Ok((pt, bs))
            },
            PatKind::Paren(q) => {
                let r = self.infer_pat_inner(q);
                proof {
                    if let Ok((t, bs)) = &r {
                        let s1 = self.bindings();
                        let d0 = choose|d: Typing| #[trigger] pat_typed(s1, **q, d) && d.ty == ty_view(*t) && d.binds == monos_view(bs@);
                        let d = Typing { ty: ty_view(*t), parts: seq![d0], binds: monos_view(bs@) };
                        assert(pat_typed(s1, *pat, d));
                    }
                }
                r
            },
        }
    }

    fn infer_pats_inner(&mut self, ps: &Vec<Pat>, Ghost(outer): Ghost<Pat>) -> (r: Result<
        (Vec<Type>, Vec<(String, Type)>),
        TypeError,
    >)
        requires
            old(self).wf(),
            pats_core(ps@),
            decreases_to!(outer => ps@),
        ensures
            grows(*old(self), *final(self)),
            final(self).env() == old(self).env(),
            (r matches Ok(v) ==> names_of(v.1@) == pats_vars(ps@) && v.0@.len() == ps@.len()),
            r matches Ok((tys, bs)) ==> exists|ds: Seq<Typing>|
                #[trigger] pats_typed(final(self).bindings(), ps@, ds) && typing_tys(ds) == tys_view(tys@)
                    && binds_concat(ds) == monos_view(bs@),
            (pats_simple(ps@) && old(self).next() + pats_fresh(ps@) <= u32::MAX) ==> (r is Ok && final(self).next()
                == old(self).next() + pats_fresh(ps@)),
        decreases outer, 0nat,
    {
        let mut tys: Vec<Type> = Vec::new();
        let mut bs: Vec<(String, Type)> = Vec::new();
        let ghost mut ds: Seq<Typing> = Seq::empty();
        proof {
            assert(ps@.take(0) =~= Seq::<Pat>::empty());
            assert(typing_tys(ds) =~= tys_view(tys@));
            assert(monos_view(bs@) =~= binds_concat(ds));
        }
        let mut i: usize = 0;
        while i < ps.len()
            invariant
                i <= ps@.len(),
                pats_typed(self.bindings(), ps@.take(i as int), ds),
                typing_tys(ds) == tys_view(tys@),
                binds_concat(ds) == monos_view(bs@),
                pats_core(ps@),
                decreases_to!(outer => ps@),
                grows(*old(self), *self),
                self.env() == old(self).env(),
                tys@.len() == i,
                names_of(bs@) == pats_vars(ps@.take(i as int)),
                (pats_simple(ps@) && old(self).next() + pats_fresh(ps@) <= u32::MAX) ==> self.next() == old(
                    self,
                ).next() + pats_fresh(ps@.take(i as int)),
            decreases ps@.len() - i,
        {
            assert(decreases_to!(ps@ => ps@[i as int]));
            proof {
                lemma_pats_core_at(ps@, i as int);
                let pre = ps@.take(i + 1);
                assert(pre.drop_last() =~= ps@.take(i as int));
                assert(pre.last() == ps@[i as int]);
                lemma_pats_fresh_prefix(ps@, i + 1);
                if pats_simple(ps@) {
                    lemma_pats_simple_at(ps@, i as int);
                }
            }
            let ghost cb = *self;
            let (t, mut more) = self.infer_pat_inner(&ps[i])?;
            let ghost b0 = bs@;
            let ghost m0 = more@;
            let ghost t0 = tys@;
            bs.append(&mut more);
            tys.push(t);
            proof {
                lemma_grows_prefix(cb, *self);
                lemma_pats_typed_extend(cb.bindings(), self.bindings(), ps@.take(i as int), ds);
                let dn = choose|d: Typing| #[trigger] pat_typed(self.bindings(), ps@[i as int], d) && d.ty == ty_view(t) && d.binds == monos_view(m0);
                let nds = ds.push(dn);
                let pre = ps@.take(i + 1);
                assert(pre.drop_last() =~= ps@.take(i as int));
                assert(nds.drop_last() =~= ds);
                assert(pats_typed(self.bindings(), pre, nds));
                lemma_tys_push(t0, t);
                assert(typing_tys(nds) =~= typing_tys(ds).push(dn.ty));
                assert(monos_view(bs@) =~= monos_view(b0) + monos_view(m0));
                assert(binds_concat(nds) == binds_concat(ds) + dn.binds);
                ds = nds;
                let pre = ps@.take(i + 1);
                assert(pre.drop_last() =~= ps@.take(i as int));
                assert(pre.last() == ps@[i as int]);
                assert(names_of(bs@) =~= names_of(b0) + names_of(m0));
            }
            i = i + 1;
        }
        assert(ps@.take(ps@.len() as int) =~= ps@);
        assert(pats_typed(self.bindings(), ps@, ds));
        Ok((tys, bs))
    }

    /// The type of a pattern and the variables it binds, refusing a
    /// variable (other than `_`) bound twice.
    pub fn infer_pat(&mut self, pat: &Pat) -> (r: Result<(Type, Vec<(String, Type)>), TypeError>)
        requires
            old(self).wf(),
            pat_core(*pat),
        ensures
            grows(*old(self), *final(self)),
            final(self).env() == old(self).env(),
            (r matches Ok(v) ==> names_of(v.1@) == pat_vars(*pat) && first_dup(pat_vars(*pat)) is None),
            r matches Ok((t, bs)) ==> pat_has_typing(final(self).bindings(), *pat, ty_view(t), monos_view(bs@)),
            first_dup(pat_vars(*pat)) is Some ==> r is Err,
            (pat_simple(*pat) && old(self).next() + pat_fresh(*pat) <= u32::MAX && first_dup(pat_vars(*pat)) is None)
                ==> r is Ok,
            pat.kind is Var ==> (r matches Ok((t, bs)) ==> bs@.len() == 1 && ty_view(bs@[0].1) == ty_view(t)),
            (pat.kind is Var && old(self).next() < u32::MAX) ==> (r matches Ok((t, bs)) && t == Type::Var(
                old(self).next(),
            ) && bs@.len() == 1 && ty_view(bs@[0].1) == TyV::Var(old(self).next()) && final(self).bindings() == old(
                self,
            ).bindings() && final(self).next() == old(self).next() + 1 && final(self).cons() == old(self).cons()),
    {
        let (ty, bindings) = self.infer_pat_inner(pat)?;
        let ghost mid = *self;
        let ghost ns = names_of(bindings@);
        let mut i: usize = 0;
        while i < bindings.len()
            invariant
                i <= bindings@.len(),
                ns == names_of(bindings@),
                first_dup(ns) == first_dup_from(ns, i as int),
                ns == pat_vars(*pat),
                grows(*old(self), *self),
                self.env() == old(self).env(),
                *self == mid,
            decreases bindings@.len() - i,
        {
            let name = &bindings[i].0;
            assert(name@ == ns[i as int]);
            if !str_eq(name.as_str(), "_") {
                let mut j: usize = 0;
                let mut seen = false;
                while j < i
                    invariant
                        j <= i < bindings@.len(),
                        ns == names_of(bindings@),
                        seen == ns.take(j as int).contains(ns[i as int]),
                        name@ == ns[i as int],
                    decreases i - j,
                {
                    let ghost t0 = ns.take(j as int);
                    let ghost t1 = ns.take(j + 1);
                    proof {
                        assert(t1 =~= t0.push(ns[j as int]));
                        assert(ns[j as int] == bindings@[j as int].0@);
                        assert(ns[i as int] == bindings@[i as int].0@);
                    }
                    let same = string_eq(&bindings[j].0, name);
                    assert(same == (ns[j as int] == ns[i as int]));
                    if same {
                        seen = true;
                        assert(t1[j as int] == ns[i as int]);
                    } else {
                        proof {
                            if t1.contains(ns[i as int]) {
                                let k = choose|k: int| 0 <= k < t1.len() && t1[k] == ns[i as int];
                                assert(k != j);
                                assert(t0[k] == t1[k]);
                            }
                            if t0.contains(ns[i as int]) {
                                let k = choose|k: int| 0 <= k < t0.len() && t0[k] == ns[i as int];
                                assert(t1[k] == t0[k]);
                            }
                        }
                    }
                    j = j + 1;
                }
                proof {
                    assert(ns.take(i as int).take(j as int) =~= ns.take(j as int));
                }
                if seen {
                    proof {
                        assert(ns[i as int] != "_"@);
                        assert(ns.take(i as int).take(j as int) =~= ns.take(i as int));
                        assert(first_dup_from(ns, i as int) == Some(ns[i as int]));
                    }
                    let m = message_with("duplicate variable in pattern: ", name);
                    return Err(self.err(m.as_str(), pat.span));
                }
            }
            i = i + 1;
        }
        Ok((ty, bindings))
    }
}


/// The names a declaration binds in the scope it stands in (constructors
/// and effects aside).
pub open spec fn decl_binds(d: Decl) -> Seq<Seq<char>>
    decreases d, 1nat,
{
    match d.kind {
        DeclKind::Val(p, _) => pat_vars(p),
        DeclKind::ValRec(x, _) => seq![x@],
        DeclKind::Fun(bs) => fun_names(bs@),
        DeclKind::Local(_, body) => decls_binds(body@),
        _ => Seq::empty(),
    }
}

pub open spec fn decls_binds(ds: Seq<Decl>) -> Seq<Seq<char>>
    decreases ds, 0nat,
{
    if ds.len() == 0 {
        Seq::empty()
    } else {
        decls_binds(ds.drop_last()) + decl_binds(ds.last())
    }
}

/// The names of a group of function bindings.
pub open spec fn fun_names(bs: Seq<FunBinding>) -> Seq<Seq<char>> {
    bs.map_values(|b: FunBinding| b.name@)
}

/// The scope binds every one of `names`.
pub open spec fn binds_all(sc: Seq<(Seq<char>, SchemeV)>, names: Seq<Seq<char>>) -> bool {
    forall|j: int| 0 <= j < names.len() ==> #[trigger] scope_lookup(sc, names[j]) is Some
}

proof fn lemma_binds_concat(
    sc: Seq<(Seq<char>, SchemeV)>,
    before: Seq<(Seq<char>, SchemeV)>,
    a: Seq<Seq<char>>,
    b: Seq<Seq<char>>,
)
    requires
        binds_all(before, a),
        keeps_names(before, sc),
        binds_all(sc, b),
    ensures
        binds_all(sc, a + b),
{
    assert forall|j: int| 0 <= j < (a + b).len() implies #[trigger] scope_lookup(sc, (a + b)[j]) is Some by {
        if j < a.len() {
            assert((a + b)[j] == a[j]);
            assert(scope_lookup(before, a[j]) is Some);
        } else {
            assert((a + b)[j] == b[j - a.len()]);
        }
    }
}

proof fn lemma_scope_lookup_some(sv: Seq<(Seq<char>, SchemeV)>, x: Seq<char>)
    requires
        scope_lookup(sv, x) is Some,
    ensures
        exists|w: int| 0 <= w < sv.len() && sv[w].0 == x,
    decreases sv.len(),
{
    if sv[0].0 != x {
        lemma_scope_lookup_some(sv.drop_first(), x);
        let w = choose|w: int| 0 <= w < sv.drop_first().len() && sv.drop_first()[w].0 == x;
        assert(sv[w + 1].0 == x);
    }
}

/// The curried type `'v(first) -> ... -> 'v(first + k - 1) -> 'v(res)`.
pub open spec fn curried(first: nat, k: nat, res: nat) -> TyV
    decreases k,
{
    if k == 0 {
        TyV::Var(res as u32)
    } else {
        TyV::Arrow(Box::new(TyV::Var(first as u32)), Box::new(curried(first + 1, (k - 1) as nat, res)))
    }
}

// ── Expressions and declarations ───────────────────────────────────────

/// `b` comes from `a` by inference: it grows `a`, keeps every scope of `a`
/// open, and, when inference succeeded, opened no scope that it left open.
pub open spec fn scoped(a: InferCtx, b: InferCtx, ok: bool) -> bool {
    &&& grows(a, b)
    &&& a.env().len() <= b.env().len()
    &&& ok ==> b.env().len() == a.env().len()
}

// ── What an inferred type means ──────────────────────────────────────────

/// A typing of an expression: the type it is given, the typings of its
/// parts, in order, and (for `let`) the schemes its declarations bind.
pub struct Typing {
    pub ty: TyV,
    pub parts: Seq<Typing>,
    pub binds: Seq<(Seq<char>, SchemeV)>,
}

/// The types of a sequence of typings.
pub open spec fn typing_tys(ds: Seq<Typing>) -> Seq<TyV> {
    ds.map_values(|d: Typing| d.ty)
}

/// Under the substitution `s` and in the environment `env`, `d` types `e`
/// by the rules for literals, variables (an instance of their scheme),
/// tuples, applications, conditionals, parentheses, binary operators, list
/// cells, the empty list, functions `fn p => b` (from the type of values `p`
/// matches to that of `b`, typed with the variables of `p` bound, each to its
/// type alone), `case` (each arm's pattern matching values of the
/// scrutinee's type, each arm's body, typed with its pattern's variables
/// bound, having the type of the whole), annotated expressions (the type of
/// what is inside), negation `~x` (the type of `x`, `int` or `float`) and
/// `let` over `val x = e` declarations (each typed with
/// the schemes before it, the body with all of them), read after applying
/// `s`. Other forms are not constrained.
pub open spec fn typed(s: Seq<(u32, TyV)>, env: Seq<Seq<(Seq<char>, SchemeV)>>, e: Expr, d: Typing) -> bool
    decreases e, 1nat,
{
    match e.kind {
        ExprKind::IntLit(_) | ExprKind::FloatLit(_) | ExprKind::StringLit(_) | ExprKind::CharLit(_)
        | ExprKind::BoolLit(_) | ExprKind::Unit => app(s, 0, d.ty) == TyV::Con(lit_expr_con(e.kind)->0),
        ExprKind::Var(x) => match env_lookup(env, x@) {
            Some(sc) => exists|b: Seq<(u32, TyV)>, m: Seq<(u32, TyV)>|
                #![trigger subst_vars(app(b, 0, sc.ty), m)]
                b.is_prefix_of(s) && keys(m) == sc.vars && app(s, 0, d.ty) == app(
                    s,
                    0,
                    subst_vars(app(b, 0, sc.ty), m),
                ),
            None => false,
        },
        ExprKind::Tuple(xs) => typed_all(s, env, xs@, d.parts) && app(s, 0, d.ty) == app(
            s,
            0,
            TyV::Tuple(typing_tys(d.parts)),
        ),
        ExprKind::App(f, a) => d.parts.len() == 2 && typed(s, env, *f, d.parts[0]) && typed(s, env, *a, d.parts[1])
            && app(s, 0, d.parts[0].ty) == app(s, 0, TyV::Arrow(Box::new(d.parts[1].ty), Box::new(d.ty))),
        ExprKind::If(c, x, y) => d.parts.len() == 3 && typed(s, env, *c, d.parts[0]) && app(s, 0, d.parts[0].ty)
            == TyV::Con("Bool"@) && typed(s, env, *x, d.parts[1]) && typed(s, env, *y, d.parts[2]) && app(
            s,
            0,
            d.parts[1].ty,
        ) == app(s, 0, d.ty) && app(s, 0, d.parts[2].ty) == app(s, 0, d.ty),
        ExprKind::Paren(x) => d.parts.len() == 1 && typed(s, env, *x, d.parts[0]) && app(s, 0, d.parts[0].ty) == app(
            s,
            0,
            d.ty,
        ),
        ExprKind::BinOp(op, l, r) => d.parts.len() == 2 && typed(s, env, *l, d.parts[0]) && typed(s, env, *r, d.parts[1])
            && binop_rule(s, op, d.parts[0].ty, d.parts[1].ty, d.ty),
        ExprKind::Cons(h, t) => d.parts.len() == 2 && typed(s, env, *h, d.parts[0]) && typed(s, env, *t, d.parts[1])
            && app(s, 0, d.parts[1].ty) == app(s, 0, list_of(d.parts[0].ty)) && app(s, 0, d.ty) == app(
            s,
            0,
            list_of(d.parts[0].ty),
        ),
        ExprKind::List(_) => d.ty matches TyV::App(n, args) && n == "list"@ && args.len() == 1,
        ExprKind::Let(ds, b) => var_program(ds@) ==> (d.binds.len() == ds@.len() && d.parts.len() == ds@.len() + 1
            && typed_let(s, env, ds@, d.binds, d.parts.take(ds@.len() as int)) && typed(
            s,
            let_env(env, d.binds),
            *b,
            d.parts.last(),
        ) && app(s, 0, d.parts.last().ty) == app(s, 0, d.ty)),
        ExprKind::Case(x, arms) => d.parts.len() == 2 * arms@.len() + 1 && typed(s, env, *x, d.parts[0]) && typed_arms(
            s,
            env,
            arms@,
            d.parts[0].ty,
            d.ty,
            d.parts.skip(1),
        ),
        ExprKind::Fn(p, b) => match p.kind {
            PatKind::Var(x) => d.parts.len() == 2 && typed(s, fn_env(env, x@, d.parts[0].ty), *b, d.parts[1]) && app(
                s,
                0,
                d.ty,
            ) == app(s, 0, TyV::Arrow(Box::new(d.parts[0].ty), Box::new(d.parts[1].ty))),
            _ => d.parts.len() == 2 && pat_typed(s, p, d.parts[0]) && typed(s, let_env(env, d.parts[0].binds), *b, d.parts[1])
                && app(s, 0, d.ty) == app(s, 0, TyV::Arrow(Box::new(d.parts[0].ty), Box::new(d.parts[1].ty))),
        },
        ExprKind::Ann(x, _) => d.parts.len() == 1 && typed(s, env, *x, d.parts[0]) && app(s, 0, d.parts[0].ty) == app(
            s,
            0,
            d.ty,
        ),
        ExprKind::UnaryNeg(x) => d.parts.len() == 1 && typed(s, env, *x, d.parts[0]) && app(s, 0, d.parts[0].ty) == app(
            s,
            0,
            d.ty,
        ) && (app(s, 0, d.ty) == TyV::Con("Int"@) || app(s, 0, d.ty) == TyV::Con("Float"@)),
        _ => true,
    }
}

/// The arms of a `case`, with typings `parts` (the pattern's, then the
/// body's, for each arm): under `s`, every arm's pattern matches values of
/// the scrutinee's type `st`, and every arm's body, typed with the variables
/// of its pattern bound, has the result type `rt`.
pub open spec fn typed_arms(
    s: Seq<(u32, TyV)>,
    env: Seq<Seq<(Seq<char>, SchemeV)>>,
    arms: Seq<(Pat, Expr)>,
    st: TyV,
    rt: TyV,
    parts: Seq<Typing>,
) -> bool
    decreases arms, 0nat,
{
    &&& parts.len() == 2 * arms.len()
    &&& arms.len() > 0 ==> {
        &&& typed_arms(s, env, arms.drop_last(), st, rt, parts.take(parts.len() - 2))
        &&& pat_typed(s, arms.last().0, parts[parts.len() - 2])
        &&& app(s, 0, parts[parts.len() - 2].ty) == app(s, 0, st)
        &&& typed(s, let_env(env, parts[parts.len() - 2].binds), arms.last().1, parts.last())
        &&& app(s, 0, parts.last().ty) == app(s, 0, rt)
    }
}

/// The scheme giving a name the type `t` alone.
pub open spec fn mono(t: TyV) -> SchemeV {
    SchemeV { vars: Seq::empty(), ty: t }
}

/// Names bound each to its type alone.
pub open spec fn monos_view(bs: Seq<(String, Type)>) -> Seq<(Seq<char>, SchemeV)> {
    bs.map_values(|b: (String, Type)| (b.0@, mono(ty_view(b.1))))
}

/// Under `s`, `d` types the pattern `p`: `d.ty` is the type of the values it
/// matches and `d.binds` the variables it binds, each to its type alone, in
/// order. `_` and a variable match any type; a literal, its base type;
/// `h :: t`, lists whose elements `h` matches and which `t` matches; `[]`,
/// lists; a tuple, tuples of what its parts match; parentheses and `x as q`,
/// what `q` matches (`x` bound to that type after the variables of `q`); an
/// annotated pattern, what is inside; a constructor binds what its argument
/// binds (the type of a constructor pattern is not constrained).
pub open spec fn pat_typed(s: Seq<(u32, TyV)>, p: Pat, d: Typing) -> bool
    decreases p, 1nat,
{
    match p.kind {
        PatKind::Wildcard => d.binds.len() == 0,
        PatKind::Var(x) => d.binds == seq![(x@, mono(d.ty))],
        PatKind::Cons(h, t) => d.parts.len() == 2 && pat_typed(s, *h, d.parts[0]) && pat_typed(s, *t, d.parts[1]) && app(
            s,
            0,
            d.parts[1].ty,
        ) == app(s, 0, list_of(d.parts[0].ty)) && app(s, 0, d.ty) == app(s, 0, list_of(d.parts[0].ty)) && d.binds
            == d.parts[0].binds + d.parts[1].binds,
        PatKind::List(_) => d.ty matches TyV::App(n, args) && n == "list"@ && args.len() == 1 && d.binds.len() == 0,
        PatKind::Paren(q) => d.parts.len() == 1 && pat_typed(s, *q, d.parts[0]) && d.ty == d.parts[0].ty && d.binds
            == d.parts[0].binds,
        PatKind::As(x, q) => d.parts.len() == 1 && pat_typed(s, *q, d.parts[0]) && d.ty == d.parts[0].ty && d.binds
            == d.parts[0].binds.push((x@, mono(d.ty))),
        PatKind::Ann(q, _) => d.parts.len() == 1 && pat_typed(s, *q, d.parts[0]) && app(s, 0, d.parts[0].ty) == app(
            s,
            0,
            d.ty,
        ) && d.binds == d.parts[0].binds,
        PatKind::Constructor(_, payload) => match payload {
            Some(q) => d.parts.len() == 1 && pat_typed(s, *q, d.parts[0]) && d.binds == d.parts[0].binds,
            None => d.binds.len() == 0,
        },
        PatKind::Tuple(ps) => pats_typed(s, ps@, d.parts) && app(s, 0, d.ty) == app(
            s,
            0,
            TyV::Tuple(typing_tys(d.parts)),
        ) && d.binds == binds_concat(d.parts),
        _ => match lit_pat_con(p.kind) {
            Some(c) => app(s, 0, d.ty) == TyV::Con(c) && d.binds.len() == 0,
            None => true,
        },
    }
}

/// Under `s`, `ds` type the patterns `ps`, one each.
pub open spec fn pats_typed(s: Seq<(u32, TyV)>, ps: Seq<Pat>, ds: Seq<Typing>) -> bool
    decreases ps, 0nat,
{
    &&& ps.len() == ds.len()
    &&& ps.len() > 0 ==> pats_typed(s, ps.drop_last(), ds.drop_last()) && pat_typed(s, ps.last(), ds.last())
}

/// The bindings of typings, in order.
pub open spec fn binds_concat(ds: Seq<Typing>) -> Seq<(Seq<char>, SchemeV)>
    decreases ds.len(),
{
    if ds.len() == 0 {
        Seq::empty()
    } else {
        binds_concat(ds.drop_last()) + ds.last().binds
    }
}

/// Some typing of the pattern `p` gives it the type `t` and the bindings
/// `binds`.
pub open spec fn pat_has_typing(s: Seq<(u32, TyV)>, p: Pat, t: TyV, binds: Seq<(Seq<char>, SchemeV)>) -> bool {
    exists|d: Typing| #[trigger] pat_typed(s, p, d) && d.ty == t && d.binds == binds
}

proof fn lemma_tys_view_one(x: Type)
    ensures
        tys_view(seq![x]) == seq![ty_view(x)],
{
    let one = seq![x];
    assert(one.drop_last() =~= Seq::<Type>::empty());
    assert(one.last() == x);
    assert(tys_view(Seq::<Type>::empty()) == Seq::<TyV>::empty());
    assert(tys_view(one) == tys_view(one.drop_last()).push(ty_view(one.last())));
    assert(Seq::<TyV>::empty().push(ty_view(x)) =~= seq![ty_view(x)]);
}

/// The argument types `'v(first)`, ..., `'v(first + k - 1)`.
pub open spec fn arg_tys(first: nat, k: nat) -> Seq<TyV> {
    Seq::new(k, |j: int| TyV::Var((first + j) as u32))
}

/// Under `s`, the typings `ps` (one for each parameter pattern, then one for
/// the body) type the clause `c` of a function with argument types `args`
/// and result type `rt`: each pattern matches values of its argument type,
/// and the body, typed with the variables of the patterns bound in order,
/// has the result type.
pub open spec fn clause_typed(
    s: Seq<(u32, TyV)>,
    env: Seq<Seq<(Seq<char>, SchemeV)>>,
    c: FunClause,
    args: Seq<TyV>,
    rt: TyV,
    ps: Seq<Typing>,
) -> bool {
    &&& c.pats@.len() == args.len()
    &&& ps.len() == args.len() + 1
    &&& forall|j: int|
        0 <= j < args.len() ==> #[trigger] pat_typed(s, c.pats@[j], ps[j]) && app(s, 0, ps[j].ty) == app(s, 0, args[j])
    &&& typed(s, let_env(env, binds_concat(ps.take(args.len() as int))), c.body, ps.last())
    &&& app(s, 0, ps.last().ty) == app(s, 0, rt)
}

/// Every clause of `cls` is typed by its typings in `parts`.
pub open spec fn typed_clauses(
    s: Seq<(u32, TyV)>,
    env: Seq<Seq<(Seq<char>, SchemeV)>>,
    cls: Seq<FunClause>,
    args: Seq<TyV>,
    rt: TyV,
    parts: Seq<Seq<Typing>>,
) -> bool {
    &&& parts.len() == cls.len()
    &&& forall|i: int| 0 <= i < cls.len() ==> #[trigger] clause_typed(s, env, cls[i], args, rt, parts[i])
}

proof fn lemma_after_monos_concat(a: Seq<(String, Type)>, b: Seq<(String, Type)>, x: Seq<char>, d: Option<SchemeV>)
    ensures
        after_monos(a + b, x, d) == after_monos(b, x, after_monos(a, x, d)),
    decreases b.len(),
{
    if b.len() == 0 {
        assert(a + b =~= a);
    } else {
        assert((a + b).drop_last() =~= a + b.drop_last());
        assert((a + b).last() == b.last());
        lemma_after_monos_concat(a, b.drop_last(), x, d);
    }
}

proof fn lemma_clause_typed_extend(
    s: Seq<(u32, TyV)>,
    s2: Seq<(u32, TyV)>,
    env: Seq<Seq<(Seq<char>, SchemeV)>>,
    c: FunClause,
    args: Seq<TyV>,
    rt: TyV,
    ps: Seq<Typing>,
)
    requires
        s.is_prefix_of(s2),
        clause_typed(s, env, c, args, rt, ps),
    ensures
        clause_typed(s2, env, c, args, rt, ps),
{
    assert forall|j: int| 0 <= j < args.len() implies #[trigger] pat_typed(s2, c.pats@[j], ps[j]) && app(s2, 0, ps[j].ty)
        == app(s2, 0, args[j]) by {
        assert(pat_typed(s, c.pats@[j], ps[j]));
        lemma_pat_typed_extend(s, s2, c.pats@[j], ps[j]);
        lemma_app_eq_extend(s, s2, ps[j].ty, args[j]);
    }
    lemma_typed_extend(s, s2, let_env(env, binds_concat(ps.take(args.len() as int))), c.body, ps.last());
    lemma_app_eq_extend(s, s2, ps.last().ty, rt);
}

proof fn lemma_typed_clauses_extend(
    s: Seq<(u32, TyV)>,
    s2: Seq<(u32, TyV)>,
    env: Seq<Seq<(Seq<char>, SchemeV)>>,
    cls: Seq<FunClause>,
    args: Seq<TyV>,
    rt: TyV,
    parts: Seq<Seq<Typing>>,
)
    requires
        s.is_prefix_of(s2),
        typed_clauses(s, env, cls, args, rt, parts),
    ensures
        typed_clauses(s2, env, cls, args, rt, parts),
{
    assert forall|i: int| 0 <= i < cls.len() implies #[trigger] clause_typed(s2, env, cls[i], args, rt, parts[i]) by {
        lemma_clause_typed_extend(s, s2, env, cls[i], args, rt, parts[i]);
    }
}

/// Binding each of `bs` to its type alone, in a new scope over `env`, gives
/// the environment `let_env` makes of them.
proof fn lemma_monos_env(env: Seq<Seq<(Seq<char>, SchemeV)>>, benv: Seq<Seq<(Seq<char>, SchemeV)>>, bs: Seq<(String, Type)>)
    requires
        benv.len() == env.len() + 1,
        benv.drop_last() == env,
        forall|x: Seq<char>| #[trigger] scope_lookup(benv.last(), x) == after_monos(
            bs,
            x,
            scope_lookup(Seq::<(Seq<char>, SchemeV)>::empty(), x),
        ),
    ensures
        same_lookups(benv, let_env(env, monos_view(bs))),
{
    assert(benv =~= env.push(benv.last()));
    assert forall|y: Seq<char>| #[trigger] env_lookup(benv, y) == env_lookup(let_env(env, monos_view(bs)), y) by {
        lemma_env_push_lookup(env, benv.last(), y);
        lemma_env_push_lookup(env, let_scope(monos_view(bs)), y);
        lemma_let_scope_lookup(monos_view(bs), y);
        assert(scope_lookup(Seq::<(Seq<char>, SchemeV)>::empty(), y) is None);
        lemma_after_monos_lookup(bs, y);
    }
}

proof fn lemma_after_monos_lookup(bs: Seq<(String, Type)>, y: Seq<char>)
    ensures
        after_monos(bs, y, None) == let_lookup(monos_view(bs), y),
    decreases bs.len(),
{
    if bs.len() > 0 {
        assert(monos_view(bs).drop_last() =~= monos_view(bs.drop_last()));
        lemma_after_monos_lookup(bs.drop_last(), y);
    }
}

/// One more arm of a `case`: its pattern typed with type `pt` and bindings
/// `bs` under `sp`, `pt` equated with the scrutinee's type under `su`, and
/// its body typed with type `bt` under `sb` in an environment that looks up
/// like `env` with those bindings; `bt` equated with the result type under
/// `sf`, which extends them all.
proof fn lemma_arm_step(
    s: Seq<(u32, TyV)>,
    env: Seq<Seq<(Seq<char>, SchemeV)>>,
    arms: Seq<(Pat, Expr)>,
    i: int,
    st: TyV,
    rt: TyV,
    parts: Seq<Typing>,
    sp: Seq<(u32, TyV)>,
    pt: TyV,
    bs: Seq<(String, Type)>,
    su: Seq<(u32, TyV)>,
    benv: Seq<Seq<(Seq<char>, SchemeV)>>,
    sb: Seq<(u32, TyV)>,
    bt: TyV,
    sf: Seq<(u32, TyV)>,
) -> (np: Seq<Typing>)
    requires
        0 <= i < arms.len(),
        typed_arms(s, env, arms.take(i), st, rt, parts),
        s.is_prefix_of(sf),
        pat_has_typing(sp, arms[i].0, pt, monos_view(bs)),
        sp.is_prefix_of(sf),
        app(su, 0, pt) == app(su, 0, st),
        su.is_prefix_of(sf),
        same_lookups(benv, let_env(env, monos_view(bs))),
        has_typing(sb, benv, arms[i].1, bt),
        sb.is_prefix_of(sf),
        app(sf, 0, bt) == app(sf, 0, rt),
    ensures
        typed_arms(sf, env, arms.take(i + 1), st, rt, np),
{
    let binds = monos_view(bs);
    let dp = choose|d: Typing| #[trigger] pat_typed(sp, arms[i].0, d) && d.ty == pt && d.binds == binds;
    let db = choose|d: Typing| #[trigger] typed(sb, benv, arms[i].1, d) && d.ty == bt;
    lemma_typed_arms_extend(s, sf, env, arms.take(i), st, rt, parts);
    lemma_pat_typed_extend(sp, sf, arms[i].0, dp);
    lemma_app_eq_extend(su, sf, pt, st);
    lemma_typed_env(sb, benv, let_env(env, binds), arms[i].1, db);
    lemma_typed_extend(sb, sf, let_env(env, binds), arms[i].1, db);
    let np = parts.push(dp).push(db);
    let pre = arms.take(i + 1);
    assert(pre.drop_last() =~= arms.take(i));
    assert(pre.last() == arms[i]);
    assert(np.take(np.len() - 2) =~= parts);
    assert(np[np.len() - 2] == dp);
    assert(np.last() == db);
    np
}

/// A literal pattern has its base type and binds nothing.
proof fn lemma_lit_pat_typing(s: Seq<(u32, TyV)>, p: Pat, t: TyV, binds: Seq<(Seq<char>, SchemeV)>)
    requires
        lit_pat_con(p.kind) is Some,
        t == TyV::Con(lit_pat_con(p.kind)->0),
        binds.len() == 0,
    ensures
        pat_has_typing(s, p, t, binds),
{
    let d = Typing { ty: t, parts: Seq::empty(), binds: binds };
    assert(app(s, 0, t) == t);
    assert(pat_typed(s, p, d));
}

/// A pattern typing under `s` stays one under any extension of `s`.
pub proof fn lemma_pat_typed_extend(s: Seq<(u32, TyV)>, s2: Seq<(u32, TyV)>, p: Pat, d: Typing)
    requires
        s.is_prefix_of(s2),
        pat_typed(s, p, d),
    ensures
        pat_typed(s2, p, d),
    decreases p, 1nat,
{
    match p.kind {
        PatKind::Cons(h, t) => {
            lemma_pat_typed_extend(s, s2, *h, d.parts[0]);
            lemma_pat_typed_extend(s, s2, *t, d.parts[1]);
            lemma_app_eq_extend(s, s2, d.parts[1].ty, list_of(d.parts[0].ty));
            lemma_app_eq_extend(s, s2, d.ty, list_of(d.parts[0].ty));
        },
        PatKind::Paren(q) => {
            lemma_pat_typed_extend(s, s2, *q, d.parts[0]);
        },
        PatKind::As(_, q) => {
            lemma_pat_typed_extend(s, s2, *q, d.parts[0]);
        },
        PatKind::Ann(q, _) => {
            lemma_pat_typed_extend(s, s2, *q, d.parts[0]);
            lemma_app_eq_extend(s, s2, d.parts[0].ty, d.ty);
        },
        PatKind::Constructor(_, payload) => {
            if let Some(q) = payload {
                lemma_pat_typed_extend(s, s2, *q, d.parts[0]);
            }
        },
        PatKind::Tuple(ps) => {
            lemma_pats_typed_extend(s, s2, ps@, d.parts);
            lemma_app_eq_extend(s, s2, d.ty, TyV::Tuple(typing_tys(d.parts)));
        },
        PatKind::Wildcard | PatKind::Var(_) | PatKind::List(_) => {},
        _ => {
            if let Some(c) = lit_pat_con(p.kind) {
                let k = TyV::Con(c);
                assert(app(s, 0, k) == k);
                lemma_app_eq_extend(s, s2, d.ty, k);
                assert(app(s2, 0, k) == k);
            }
        },
    }
}

pub proof fn lemma_pats_typed_extend(s: Seq<(u32, TyV)>, s2: Seq<(u32, TyV)>, ps: Seq<Pat>, ds: Seq<Typing>)
    requires
        s.is_prefix_of(s2),
        pats_typed(s, ps, ds),
    ensures
        pats_typed(s2, ps, ds),
    decreases ps, 0nat,
{
    if ps.len() > 0 {
        lemma_pats_typed_extend(s, s2, ps.drop_last(), ds.drop_last());
        lemma_pat_typed_extend(s, s2, ps.last(), ds.last());
    }
}

proof fn lemma_typed_arms_extend(
    s: Seq<(u32, TyV)>,
    s2: Seq<(u32, TyV)>,
    env: Seq<Seq<(Seq<char>, SchemeV)>>,
    arms: Seq<(Pat, Expr)>,
    st: TyV,
    rt: TyV,
    parts: Seq<Typing>,
)
    requires
        s.is_prefix_of(s2),
        typed_arms(s, env, arms, st, rt, parts),
    ensures
        typed_arms(s2, env, arms, st, rt, parts),
    decreases arms, 0nat,
{
    if arms.len() > 0 {
        let n = parts.len();
        lemma_typed_arms_extend(s, s2, env, arms.drop_last(), st, rt, parts.take(n - 2));
        lemma_pat_typed_extend(s, s2, arms.last().0, parts[n - 2]);
        lemma_app_eq_extend(s, s2, parts[n - 2].ty, st);
        lemma_typed_extend(s, s2, let_env(env, parts[n - 2].binds), arms.last().1, parts.last());
        lemma_app_eq_extend(s, s2, parts.last().ty, rt);
    }
}

proof fn lemma_typed_arms_env(
    s: Seq<(u32, TyV)>,
    a: Seq<Seq<(Seq<char>, SchemeV)>>,
    b: Seq<Seq<(Seq<char>, SchemeV)>>,
    arms: Seq<(Pat, Expr)>,
    st: TyV,
    rt: TyV,
    parts: Seq<Typing>,
)
    requires
        same_lookups(a, b),
        typed_arms(s, a, arms, st, rt, parts),
    ensures
        typed_arms(s, b, arms, st, rt, parts),
    decreases arms, 0nat,
{
    if arms.len() > 0 {
        let n = parts.len();
        lemma_typed_arms_env(s, a, b, arms.drop_last(), st, rt, parts.take(n - 2));
        lemma_push_same(a, b, let_scope(parts[n - 2].binds));
        lemma_typed_env(s, let_env(a, parts[n - 2].binds), let_env(b, parts[n - 2].binds), arms.last().1, parts.last());
    }
}

/// Each of `ds` is `val x = e` with `x` a variable: `binds` gives `x` a
/// scheme whose type is, under `s`, that of a typing in `parts` of `e`, in
/// the environment of `env` with the schemes before it.
pub open spec fn typed_let(
    s: Seq<(u32, TyV)>,
    env: Seq<Seq<(Seq<char>, SchemeV)>>,
    ds: Seq<Decl>,
    binds: Seq<(Seq<char>, SchemeV)>,
    parts: Seq<Typing>,
) -> bool
    decreases ds, 0nat,
{
    &&& ds.len() == binds.len()
    &&& ds.len() == parts.len()
    &&& ds.len() > 0 ==> {
        &&& typed_let(s, env, ds.drop_last(), binds.drop_last(), parts.drop_last())
        &&& match ds.last().kind {
            DeclKind::Val(p, e) => p.kind matches PatKind::Var(x) && binds.last().0 == x@ && typed(
                s,
                let_env(env, binds.drop_last()),
                e,
                parts.last(),
            ) && app(s, 0, binds.last().1.ty) == app(s, 0, parts.last().ty),
            _ => false,
        }
    }
}

/// The scope the bindings `binds` make, the later ones first.
pub open spec fn let_scope(binds: Seq<(Seq<char>, SchemeV)>) -> Seq<(Seq<char>, SchemeV)>
    decreases binds.len(),
{
    if binds.len() == 0 {
        Seq::empty()
    } else {
        seq![binds.last()] + let_scope(binds.drop_last())
    }
}

/// `env` with one more scope holding `binds`.
pub open spec fn let_env(env: Seq<Seq<(Seq<char>, SchemeV)>>, binds: Seq<(Seq<char>, SchemeV)>) -> Seq<
    Seq<(Seq<char>, SchemeV)>,
> {
    env.push(let_scope(binds))
}

/// The latest of `binds` for `y`.
pub open spec fn let_lookup(binds: Seq<(Seq<char>, SchemeV)>, y: Seq<char>) -> Option<SchemeV>
    decreases binds.len(),
{
    if binds.len() == 0 {
        None
    } else if binds.last().0 == y {
        Some(binds.last().1)
    } else {
        let_lookup(binds.drop_last(), y)
    }
}

proof fn lemma_let_scope_lookup(binds: Seq<(Seq<char>, SchemeV)>, y: Seq<char>)
    ensures
        scope_lookup(let_scope(binds), y) == let_lookup(binds, y),
    decreases binds.len(),
{
    if binds.len() > 0 {
        lemma_let_scope_lookup(binds.drop_last(), y);
        let sc = let_scope(binds);
        assert(sc[0] == binds.last());
        assert(sc.drop_first() =~= let_scope(binds.drop_last()));
    }
}

proof fn lemma_env_push_lookup(env: Seq<Seq<(Seq<char>, SchemeV)>>, sc: Seq<(Seq<char>, SchemeV)>, y: Seq<char>)
    ensures
        env_lookup(env.push(sc), y) == match scope_lookup(sc, y) {
            Some(v) => Some(v),
            None => env_lookup(env, y),
        },
{
    assert(env.push(sc).drop_last() =~= env);
}

proof fn lemma_push_same(a: Seq<Seq<(Seq<char>, SchemeV)>>, b: Seq<Seq<(Seq<char>, SchemeV)>>, sc: Seq<(Seq<char>, SchemeV)>)
    requires
        same_lookups(a, b),
    ensures
        same_lookups(a.push(sc), b.push(sc)),
{
    assert forall|y: Seq<char>| #[trigger] env_lookup(a.push(sc), y) == env_lookup(b.push(sc), y) by {
        lemma_env_push_lookup(a, sc, y);
        lemma_env_push_lookup(b, sc, y);
        assert(env_lookup(a, y) == env_lookup(b, y));
    }
}

/// `env` with one more scope, binding `x` to the type `t` alone.
pub open spec fn fn_env(env: Seq<Seq<(Seq<char>, SchemeV)>>, x: Seq<char>, t: TyV) -> Seq<Seq<(Seq<char>, SchemeV)>> {
    env.push(seq![(x, SchemeV { vars: Seq::empty(), ty: t })])
}

/// Two environments that give every name the same binding.
pub open spec fn same_lookups(a: Seq<Seq<(Seq<char>, SchemeV)>>, b: Seq<Seq<(Seq<char>, SchemeV)>>) -> bool {
    forall|y: Seq<char>| #[trigger] env_lookup(a, y) == env_lookup(b, y)
}

proof fn lemma_fn_env_same(a: Seq<Seq<(Seq<char>, SchemeV)>>, b: Seq<Seq<(Seq<char>, SchemeV)>>, x: Seq<char>, t: TyV)
    requires
        same_lookups(a, b),
    ensures
        same_lookups(fn_env(a, x, t), fn_env(b, x, t)),
{
    let sc = seq![(x, SchemeV { vars: Seq::empty(), ty: t })];
    assert forall|y: Seq<char>| #[trigger] env_lookup(fn_env(a, x, t), y) == env_lookup(fn_env(b, x, t), y) by {
        assert(fn_env(a, x, t).last() == sc && fn_env(a, x, t).drop_last() =~= a);
        assert(fn_env(b, x, t).last() == sc && fn_env(b, x, t).drop_last() =~= b);
        assert(sc.drop_first() =~= Seq::<(Seq<char>, SchemeV)>::empty());
        if y != x {
            assert(sc[0].0 == x);
            assert(scope_lookup(Seq::<(Seq<char>, SchemeV)>::empty(), y) is None);
            assert(scope_lookup(sc, y) == scope_lookup(sc.drop_first(), y));
            assert(scope_lookup(sc, y) is None);
            assert(env_lookup(a, y) == env_lookup(b, y));
        }
    }
}

/// A typing holds in any environment that gives every name the same binding.
proof fn lemma_typed_env(
    s: Seq<(u32, TyV)>,
    a: Seq<Seq<(Seq<char>, SchemeV)>>,
    b: Seq<Seq<(Seq<char>, SchemeV)>>,
    e: Expr,
    d: Typing,
)
    requires
        same_lookups(a, b),
        typed(s, a, e, d),
    ensures
        typed(s, b, e, d),
    decreases e, 1nat,
{
    match e.kind {
        ExprKind::Var(x) => {
            assert(env_lookup(a, x@) == env_lookup(b, x@));
        },
        ExprKind::Tuple(xs) => lemma_typed_all_env(s, a, b, xs@, d.parts),
        ExprKind::App(f, x) => {
            lemma_typed_env(s, a, b, *f, d.parts[0]);
            lemma_typed_env(s, a, b, *x, d.parts[1]);
        },
        ExprKind::If(c, x, y) => {
            lemma_typed_env(s, a, b, *c, d.parts[0]);
            lemma_typed_env(s, a, b, *x, d.parts[1]);
            lemma_typed_env(s, a, b, *y, d.parts[2]);
        },
        ExprKind::Paren(x) => lemma_typed_env(s, a, b, *x, d.parts[0]),
        ExprKind::BinOp(_, l, r) => {
            lemma_typed_env(s, a, b, *l, d.parts[0]);
            lemma_typed_env(s, a, b, *r, d.parts[1]);
        },
        ExprKind::Cons(h, t) => {
            lemma_typed_env(s, a, b, *h, d.parts[0]);
            lemma_typed_env(s, a, b, *t, d.parts[1]);
        },
        ExprKind::Let(ds, body) => {
            if var_program(ds@) {
                lemma_typed_let_env(s, a, b, ds@, d.binds, d.parts.take(ds@.len() as int));
                lemma_push_same(a, b, let_scope(d.binds));
                lemma_typed_env(s, let_env(a, d.binds), let_env(b, d.binds), *body, d.parts.last());
            }
        },
        ExprKind::Case(x, arms) => {
            lemma_typed_env(s, a, b, *x, d.parts[0]);
            lemma_typed_arms_env(s, a, b, arms@, d.parts[0].ty, d.ty, d.parts.skip(1));
        },
        ExprKind::Fn(p, body) => match p.kind {
            PatKind::Var(x) => {
                lemma_fn_env_same(a, b, x@, d.parts[0].ty);
                lemma_typed_env(s, fn_env(a, x@, d.parts[0].ty), fn_env(b, x@, d.parts[0].ty), *body, d.parts[1]);
            },
            _ => {
                lemma_push_same(a, b, let_scope(d.parts[0].binds));
                lemma_typed_env(s, let_env(a, d.parts[0].binds), let_env(b, d.parts[0].binds), *body, d.parts[1]);
            },
        },
        ExprKind::Ann(x, _) => lemma_typed_env(s, a, b, *x, d.parts[0]),
        ExprKind::UnaryNeg(x) => lemma_typed_env(s, a, b, *x, d.parts[0]),
        _ => {},
    }
}

proof fn lemma_typed_let_env(
    s: Seq<(u32, TyV)>,
    a: Seq<Seq<(Seq<char>, SchemeV)>>,
    b: Seq<Seq<(Seq<char>, SchemeV)>>,
    ds: Seq<Decl>,
    binds: Seq<(Seq<char>, SchemeV)>,
    parts: Seq<Typing>,
)
    requires
        same_lookups(a, b),
        typed_let(s, a, ds, binds, parts),
    ensures
        typed_let(s, b, ds, binds, parts),
    decreases ds, 0nat,
{
    if ds.len() > 0 {
        lemma_typed_let_env(s, a, b, ds.drop_last(), binds.drop_last(), parts.drop_last());
        match ds.last().kind {
            DeclKind::Val(p, e) => {
                lemma_push_same(a, b, let_scope(binds.drop_last()));
                lemma_typed_env(s, let_env(a, binds.drop_last()), let_env(b, binds.drop_last()), e, parts.last());
            },
            _ => {},
        }
    }
}

proof fn lemma_typed_all_env(
    s: Seq<(u32, TyV)>,
    a: Seq<Seq<(Seq<char>, SchemeV)>>,
    b: Seq<Seq<(Seq<char>, SchemeV)>>,
    xs: Seq<Expr>,
    ds: Seq<Typing>,
)
    requires
        same_lookups(a, b),
        typed_all(s, a, xs, ds),
    ensures
        typed_all(s, b, xs, ds),
    decreases xs, 0nat,
{
    if xs.len() > 0 {
        lemma_typed_all_env(s, a, b, xs.drop_last(), ds.drop_last());
        lemma_typed_env(s, a, b, xs.last(), ds.last());
    }
}

/// The list type of elements `t`.
pub open spec fn list_of(t: TyV) -> TyV {
    TyV::App("list"@, seq![t])
}

/// The rule of the operator `op` on operands of types `tl` and `tr` with
/// result `t`: its operand and result base types, or, for `=` and `<>`,
/// operands of one type and a `bool` result.
pub open spec fn binop_rule(s: Seq<(u32, TyV)>, op: BinOp, tl: TyV, tr: TyV, t: TyV) -> bool {
    match binop_sig(op) {
        Some(sig) => app(s, 0, tl) == TyV::Con(sig.0) && app(s, 0, tr) == TyV::Con(sig.0) && app(s, 0, t) == TyV::Con(
            sig.1,
        ),
        None => app(s, 0, tl) == app(s, 0, tr) && app(s, 0, t) == TyV::Con("Bool"@),
    }
}

proof fn lemma_binop_rule_extend(s: Seq<(u32, TyV)>, s2: Seq<(u32, TyV)>, op: BinOp, tl: TyV, tr: TyV, t: TyV)
    requires
        s.is_prefix_of(s2),
        binop_rule(s, op, tl, tr, t),
    ensures
        binop_rule(s2, op, tl, tr, t),
{
    match binop_sig(op) {
        Some(sig) => {
            let a = TyV::Con(sig.0);
            let b = TyV::Con(sig.1);
            assert(app(s, 0, a) == a && app(s, 0, b) == b);
            lemma_app_eq_extend(s, s2, tl, a);
            lemma_app_eq_extend(s, s2, tr, a);
            lemma_app_eq_extend(s, s2, t, b);
            assert(app(s2, 0, a) == a && app(s2, 0, b) == b);
        },
        None => {
            let b = TyV::Con("Bool"@);
            assert(app(s, 0, b) == b);
            lemma_app_eq_extend(s, s2, tl, tr);
            lemma_app_eq_extend(s, s2, t, b);
            assert(app(s2, 0, b) == b);
        },
    }
}

/// Each of `xs` is typed by the typing at the same place in `ds`.
pub open spec fn typed_all(
    s: Seq<(u32, TyV)>,
    env: Seq<Seq<(Seq<char>, SchemeV)>>,
    xs: Seq<Expr>,
    ds: Seq<Typing>,
) -> bool
    decreases xs, 0nat,
{
    &&& xs.len() == ds.len()
    &&& xs.len() > 0 ==> typed_all(s, env, xs.drop_last(), ds.drop_last()) && typed(s, env, xs.last(), ds.last())
}

/// The forms `typed` constrains (literals, variables, tuples, applications,
/// conditionals, parentheses, operators, list cells, the empty list, `case`,
/// functions, annotations, negation, and `let` over `val x = e` declarations).
pub open spec fn typing_form(k: ExprKind) -> bool {
    lit_expr_con(k) is Some || k is Var || k is Tuple || k is App || k is If || k is Paren || k is BinOp || k is Cons
        || k is List || k is Case || k is Fn || k is Ann || k is UnaryNeg || (k matches ExprKind::Let(ds, _)
        && var_program(ds@))
}

/// Some typing gives `e` the type `t`.
pub open spec fn has_typing(s: Seq<(u32, TyV)>, env: Seq<Seq<(Seq<char>, SchemeV)>>, e: Expr, t: TyV) -> bool {
    exists|d: Typing| #[trigger] typed(s, env, e, d) && d.ty == t
}

/// Forms `typed` does not constrain can have any type.
pub proof fn lemma_other_has_typing(s: Seq<(u32, TyV)>, env: Seq<Seq<(Seq<char>, SchemeV)>>, e: Expr, t: TyV)
    requires
        !typing_form(e.kind),
    ensures
        has_typing(s, env, e, t),
{
    let d = Typing { ty: t, parts: Seq::empty(), binds: Seq::empty() };
    assert(typed(s, env, e, d));
}

/// Types equal under `s` stay equal under any extension of `s`.
pub proof fn lemma_app_eq_extend(s: Seq<(u32, TyV)>, s2: Seq<(u32, TyV)>, x: TyV, y: TyV)
    requires
        s.is_prefix_of(s2),
        app(s, 0, x) == app(s, 0, y),
    ensures
        app(s2, 0, x) == app(s2, 0, y),
{
    let e = s2.skip(s.len() as int);
    assert(s + e =~= s2);
    lemma_app_compose(s, e, 0, x);
    lemma_app_compose(s, e, 0, y);
}

/// A typing under `s` stays a typing under any extension of `s`.
pub proof fn lemma_typed_extend(
    s: Seq<(u32, TyV)>,
    s2: Seq<(u32, TyV)>,
    env: Seq<Seq<(Seq<char>, SchemeV)>>,
    e: Expr,
    d: Typing,
)
    requires
        s.is_prefix_of(s2),
        typed(s, env, e, d),
    ensures
        typed(s2, env, e, d),
    decreases e, 1nat,
{
    match e.kind {
        ExprKind::IntLit(_) | ExprKind::FloatLit(_) | ExprKind::StringLit(_) | ExprKind::CharLit(_)
        | ExprKind::BoolLit(_) | ExprKind::Unit => {
            let c = TyV::Con(lit_expr_con(e.kind)->0);
            assert(app(s, 0, c) == c);
            lemma_app_eq_extend(s, s2, d.ty, c);
            assert(app(s2, 0, c) == c);
        },
        ExprKind::Var(x) => {
            let sc = env_lookup(env, x@)->0;
            let (b, m) = choose|b: Seq<(u32, TyV)>, m: Seq<(u32, TyV)>|
                #![trigger subst_vars(app(b, 0, sc.ty), m)]
                b.is_prefix_of(s) && keys(m) == sc.vars && app(s, 0, d.ty) == app(
                    s,
                    0,
                    subst_vars(app(b, 0, sc.ty), m),
                );
            lemma_app_eq_extend(s, s2, d.ty, subst_vars(app(b, 0, sc.ty), m));
            assert(b =~= s2.subrange(0, b.len() as int)) by {
                assert forall|i: int| 0 <= i < b.len() implies b[i] == s2[i] by {
                    assert(b[i] == s.subrange(0, b.len() as int)[i]);
                    assert(s[i] == s2.subrange(0, s.len() as int)[i]);
                }
            }
        },
        ExprKind::Tuple(xs) => {
            lemma_typed_all_extend(s, s2, env, xs@, d.parts);
            lemma_app_eq_extend(s, s2, d.ty, TyV::Tuple(typing_tys(d.parts)));
        },
        ExprKind::App(f, a) => {
            lemma_typed_extend(s, s2, env, *f, d.parts[0]);
            lemma_typed_extend(s, s2, env, *a, d.parts[1]);
            lemma_app_eq_extend(s, s2, d.parts[0].ty, TyV::Arrow(Box::new(d.parts[1].ty), Box::new(d.ty)));
        },
        ExprKind::If(c, x, y) => {
            lemma_typed_extend(s, s2, env, *c, d.parts[0]);
            lemma_typed_extend(s, s2, env, *x, d.parts[1]);
            lemma_typed_extend(s, s2, env, *y, d.parts[2]);
            let bool_t = TyV::Con("Bool"@);
            assert(app(s, 0, bool_t) == bool_t);
            lemma_app_eq_extend(s, s2, d.parts[0].ty, bool_t);
            assert(app(s2, 0, bool_t) == bool_t);
            lemma_app_eq_extend(s, s2, d.parts[1].ty, d.ty);
            lemma_app_eq_extend(s, s2, d.parts[2].ty, d.ty);
        },
        ExprKind::Paren(x) => {
            lemma_typed_extend(s, s2, env, *x, d.parts[0]);
            lemma_app_eq_extend(s, s2, d.parts[0].ty, d.ty);
        },
        ExprKind::BinOp(op, l, r) => {
            lemma_typed_extend(s, s2, env, *l, d.parts[0]);
            lemma_typed_extend(s, s2, env, *r, d.parts[1]);
            lemma_binop_rule_extend(s, s2, op, d.parts[0].ty, d.parts[1].ty, d.ty);
        },
        ExprKind::Cons(h, t) => {
            lemma_typed_extend(s, s2, env, *h, d.parts[0]);
            lemma_typed_extend(s, s2, env, *t, d.parts[1]);
            lemma_app_eq_extend(s, s2, d.parts[1].ty, list_of(d.parts[0].ty));
            lemma_app_eq_extend(s, s2, d.ty, list_of(d.parts[0].ty));
        },
        ExprKind::Let(ds, b) => {
            if var_program(ds@) {
                lemma_typed_let_extend(s, s2, env, ds@, d.binds, d.parts.take(ds@.len() as int));
                lemma_typed_extend(s, s2, let_env(env, d.binds), *b, d.parts.last());
                lemma_app_eq_extend(s, s2, d.parts.last().ty, d.ty);
            }
        },
        ExprKind::Case(x, arms) => {
            lemma_typed_extend(s, s2, env, *x, d.parts[0]);
            lemma_typed_arms_extend(s, s2, env, arms@, d.parts[0].ty, d.ty, d.parts.skip(1));
        },
        ExprKind::Fn(p, b) => match p.kind {
            PatKind::Var(x) => {
                lemma_typed_extend(s, s2, fn_env(env, x@, d.parts[0].ty), *b, d.parts[1]);
                lemma_app_eq_extend(s, s2, d.ty, TyV::Arrow(Box::new(d.parts[0].ty), Box::new(d.parts[1].ty)));
            },
            _ => {
                lemma_pat_typed_extend(s, s2, p, d.parts[0]);
                lemma_typed_extend(s, s2, let_env(env, d.parts[0].binds), *b, d.parts[1]);
                lemma_app_eq_extend(s, s2, d.ty, TyV::Arrow(Box::new(d.parts[0].ty), Box::new(d.parts[1].ty)));
            },
        },
        ExprKind::Ann(x, _) => {
            lemma_typed_extend(s, s2, env, *x, d.parts[0]);
            lemma_app_eq_extend(s, s2, d.parts[0].ty, d.ty);
        },
        ExprKind::UnaryNeg(x) => {
            lemma_typed_extend(s, s2, env, *x, d.parts[0]);
            lemma_app_eq_extend(s, s2, d.parts[0].ty, d.ty);
            let c = app(s, 0, d.ty);
            assert(app(s, 0, c) == c);
            lemma_app_eq_extend(s, s2, d.ty, c);
            assert(app(s2, 0, c) == c);
        },
        _ => {},
    }
}

proof fn lemma_typed_let_extend(
    s: Seq<(u32, TyV)>,
    s2: Seq<(u32, TyV)>,
    env: Seq<Seq<(Seq<char>, SchemeV)>>,
    ds: Seq<Decl>,
    binds: Seq<(Seq<char>, SchemeV)>,
    parts: Seq<Typing>,
)
    requires
        s.is_prefix_of(s2),
        typed_let(s, env, ds, binds, parts),
    ensures
        typed_let(s2, env, ds, binds, parts),
    decreases ds, 0nat,
{
    if ds.len() > 0 {
        lemma_typed_let_extend(s, s2, env, ds.drop_last(), binds.drop_last(), parts.drop_last());
        match ds.last().kind {
            DeclKind::Val(p, e) => {
                lemma_typed_extend(s, s2, let_env(env, binds.drop_last()), e, parts.last());
                lemma_app_eq_extend(s, s2, binds.last().1.ty, parts.last().ty);
            },
            _ => {},
        }
    }
}

pub proof fn lemma_typed_all_extend(
    s: Seq<(u32, TyV)>,
    s2: Seq<(u32, TyV)>,
    env: Seq<Seq<(Seq<char>, SchemeV)>>,
    xs: Seq<Expr>,
    ds: Seq<Typing>,
)
    requires
        s.is_prefix_of(s2),
        typed_all(s, env, xs, ds),
    ensures
        typed_all(s2, env, xs, ds),
    decreases xs, 0nat,
{
    if xs.len() > 0 {
        lemma_typed_all_extend(s, s2, env, xs.drop_last(), ds.drop_last());
        lemma_typed_extend(s, s2, env, xs.last(), ds.last());
    }
}

/// `fn x => x x`: a function applying its parameter to itself.
pub open spec fn self_application(e: Expr) -> bool {
    match e.kind {
        ExprKind::Fn(p, b) => match (p.kind, b.kind) {
            (PatKind::Var(x), ExprKind::App(f, a)) => (f.kind matches ExprKind::Var(y) && y@ == x@) && (a.kind matches ExprKind::Var(
                z,
            ) && z@ == x@),
            _ => false,
        },
        _ => false,
    }
}

proof fn lemma_subst_vars_none(t: TyV, m: Seq<(u32, TyV)>)
    requires
        m.len() == 0,
    ensures
        subst_vars(t, m) == t,
    decreases t,
{
    match t {
        TyV::Arrow(a, b) => {
            lemma_subst_vars_none(*a, m);
            lemma_subst_vars_none(*b, m);
        },
        TyV::Tuple(ts) => lemma_subst_vars_list_none(ts, m),
        TyV::App(_, ts) => lemma_subst_vars_list_none(ts, m),
        _ => {},
    }
}

proof fn lemma_subst_vars_list_none(ts: Seq<TyV>, m: Seq<(u32, TyV)>)
    requires
        m.len() == 0,
    ensures
        subst_vars_list(ts, m) == ts,
    decreases ts,
{
    if ts.len() > 0 {
        lemma_subst_vars_list_none(ts.drop_last(), m);
        lemma_subst_vars_none(ts.last(), m);
        assert(ts.drop_last().push(ts.last()) =~= ts);
    }
}

/// Under an acyclic `s`, reading a type first under a prefix of `s` changes
/// nothing.
proof fn lemma_prefix_app(s: Seq<(u32, TyV)>, b: Seq<(u32, TyV)>, t: TyV)
    requires
        acyclic(s),
        b.is_prefix_of(s),
    ensures
        app(s, 0, app(b, 0, t)) == app(s, 0, t),
{
    assert(acyclic(b)) by {
        assert forall|j: int| 0 <= j < b.len() implies #[trigger] crate::types::subst::avoids(
            b[j].1,
            keys(b).take(j + 1),
        ) by {
            assert(b[j] == s[j]);
            assert(keys(b).take(j + 1) =~= keys(s).take(j + 1));
        }
    }
    lemma_avoids_empty(t, keys(b).take(0));
    lemma_app_resolves(b, 0, t);
    assert(keys(b).skip(0) =~= keys(b));
    lemma_app_avoiding(b, 0, app(b, 0, t));
    let e = s.skip(b.len() as int);
    assert(b + e =~= s);
    lemma_app_compose(b, e, 0, t);
    lemma_app_compose(b, e, 0, app(b, 0, t));
}

/// A variable bound to a type alone is typed by that type, under `s`.
proof fn lemma_mono_var_typing(s: Seq<(u32, TyV)>, env: Seq<Seq<(Seq<char>, SchemeV)>>, x: Seq<char>, pt: TyV, e: Expr, d: Typing)
    requires
        e.kind matches ExprKind::Var(y) && y@ == x,
        env_lookup(env, x) == Some(SchemeV { vars: Seq::empty(), ty: pt }),
        typed(s, env, e, d),
        acyclic(s),
    ensures
        app(s, 0, d.ty) == app(s, 0, pt),
{
    let sc = SchemeV { vars: Seq::<u32>::empty(), ty: pt };
    let (b, m) = choose|b: Seq<(u32, TyV)>, m: Seq<(u32, TyV)>|
        #![trigger subst_vars(app(b, 0, sc.ty), m)]
        b.is_prefix_of(s) && keys(m) == sc.vars && app(s, 0, d.ty) == app(s, 0, subst_vars(app(b, 0, sc.ty), m));
    assert(keys(m).len() == m.len());
    lemma_subst_vars_none(app(b, 0, pt), m);
    lemma_prefix_app(s, b, pt);
}

/// `fn x => x x` has no typing: it would need a type equal to a function
/// type from that type itself.
pub proof fn law_self_application_has_no_typing(
    s: Seq<(u32, TyV)>,
    env: Seq<Seq<(Seq<char>, SchemeV)>>,
    e: Expr,
    t: TyV,
)
    requires
        acyclic(s),
        self_application(e),
    ensures
        !has_typing(s, env, e, t),
{
    if has_typing(s, env, e, t) {
        let d = choose|d: Typing| #[trigger] typed(s, env, e, d) && d.ty == t;
        match e.kind {
            ExprKind::Fn(p, body) => match (p.kind, body.kind) {
                (PatKind::Var(x), ExprKind::App(f, a)) => {
                    let pt = d.parts[0].ty;
                    let fe = fn_env(env, x@, pt);
                    let db = d.parts[1];
                    assert(typed(s, fe, *body, db));
                    let sc = seq![(x@, SchemeV { vars: Seq::<u32>::empty(), ty: pt })];
                    lemma_env_push_lookup(env, sc, x@);
                    assert(env_lookup(fe, x@) == Some(SchemeV { vars: Seq::<u32>::empty(), ty: pt }));
                    lemma_mono_var_typing(s, fe, x@, pt, *f, db.parts[0]);
                    lemma_mono_var_typing(s, fe, x@, pt, *a, db.parts[1]);
                    let q = app(s, 0, pt);
                    assert(q == TyV::Arrow(Box::new(q), Box::new(app(s, 0, db.ty))));
                    assert(tsize(q) > tsize(q));
                },
                _ => {},
            },
            _ => {},
        }
    }
}

/// A context that grows keeps its bindings as a prefix.
pub proof fn lemma_grows_prefix(a: InferCtx, b: InferCtx)
    requires
        grows(a, b),
    ensures
        a.bindings().is_prefix_of(b.bindings()),
{
    assert(a.bindings() =~= b.bindings().subrange(0, a.bindings().len() as int));
}

/// The base type of a literal expression.
/// The declaration `val x = c` with `x` a variable and `c` a literal: the
/// variable and the literal's type constructor.
pub open spec fn literal_val(d: Decl) -> Option<(Seq<char>, Seq<char>)> {
    match d.kind {
        DeclKind::Val(p, e) => match p.kind {
            PatKind::Var(x) => match lit_expr_con(e.kind) {
                Some(c) => Some((x@, c)),
                None => None,
            },
            _ => None,
        },
        _ => None,
    }
}

/// The declaration `val x = e` with `x` a variable: the variable and `e`.
pub open spec fn var_val(d: Decl) -> Option<(Seq<char>, Expr)> {
    match d.kind {
        DeclKind::Val(p, e) => match p.kind {
            PatKind::Var(x) => Some((x@, e)),
            _ => None,
        },
        _ => None,
    }
}

/// The variable a `val x = e` declaration binds.
pub open spec fn vname(d: Decl) -> Seq<char> {
    match var_val(d) {
        Some((x, _)) => x,
        None => Seq::empty(),
    }
}

/// The expression of a `val x = e` declaration.
pub open spec fn vexpr(d: Decl) -> Expr {
    match d.kind {
        DeclKind::Val(_, e) => e,
        _ => arbitrary(),
    }
}

/// Every declaration is `val x = e` with `x` a variable.
pub open spec fn var_program(decls: Seq<Decl>) -> bool {
    forall|k: int| 0 <= k < decls.len() ==> (#[trigger] var_val(decls[k])) is Some
}

/// No `val` declaration after the `k`-th among the first `n` binds its
/// variable again.
pub open spec fn binds_last_var(decls: Seq<Decl>, k: int, n: int) -> bool {
    forall|j: int| k < j < n ==> vname(#[trigger] decls[j]) != vname(decls[k])
}

/// The type bound to `x` is, under `s`, a type that the typing rules give
/// `e` in some environment.
pub open spec fn bound_as_typed(
    s: Seq<(u32, TyV)>,
    lookup: Option<SchemeV>,
    e: Expr,
) -> bool {
    exists|env: Seq<Seq<(Seq<char>, SchemeV)>>, t: TyV|
        #[trigger] has_typing(s, env, e, t) && (lookup matches Some(sc) && app(s, 0, sc.ty) == app(s, 0, t))
}

/// A `val` declaration whose pattern binds some variable twice.
pub open spec fn repeats_pattern_var(d: Decl) -> bool {
    d.kind matches DeclKind::Val(p, _) && first_dup(pat_vars(p)) is Some
}

/// A declaration checking refuses on its form alone: a `val` whose pattern
/// repeats a variable, or `val x = fn y => y y`.
pub open spec fn refused_form(d: Decl) -> bool {
    repeats_pattern_var(d) || (var_val(d) is Some && self_application(vexpr(d)))
}

/// The variable a literal declaration binds.
pub open spec fn lit_name(d: Decl) -> Seq<char> {
    match literal_val(d) {
        Some((x, _)) => x,
        None => Seq::empty(),
    }
}

/// The type constructor of a literal declaration's literal.
pub open spec fn lit_con(d: Decl) -> Seq<char> {
    match literal_val(d) {
        Some((_, c)) => c,
        None => Seq::empty(),
    }
}

/// Every declaration is `val x = c` with a literal `c`, and no `x` names a
/// constructor of `cons`.
pub open spec fn literal_program(decls: Seq<Decl>, cons: Seq<(Seq<char>, SchemeV)>) -> bool {
    forall|k: int|
        0 <= k < decls.len() ==> (#[trigger] literal_val(decls[k])) is Some && assoc(cons, lit_name(decls[k]))
            is None
}

/// No declaration after the `k`-th among the first `n` binds its name again.
pub open spec fn binds_last(decls: Seq<Decl>, k: int, n: int) -> bool {
    forall|j: int| k < j < n ==> lit_name(#[trigger] decls[j]) != lit_name(decls[k])
}

pub open spec fn lit_expr_con(k: ExprKind) -> Option<Seq<char>> {
    match k {
        ExprKind::IntLit(_) => Some("Int"@),
        ExprKind::FloatLit(_) => Some("Float"@),
        ExprKind::StringLit(_) => Some("String"@),
        ExprKind::CharLit(_) => Some("Char"@),
        ExprKind::BoolLit(_) => Some("Bool"@),
        ExprKind::Unit => Some("Unit"@),
        _ => None,
    }
}

/// The operand and result types of an arithmetic, string or comparison
/// operator.
pub open spec fn binop_sig(op: BinOp) -> Option<(Seq<char>, Seq<char>)> {
    match op {
        BinOp::AddInt | BinOp::SubInt | BinOp::MulInt | BinOp::DivInt | BinOp::ModInt => Some(("Int"@, "Int"@)),
        BinOp::AddFloat | BinOp::SubFloat | BinOp::MulFloat | BinOp::DivFloat => Some(("Float"@, "Float"@)),
        BinOp::ConcatStr => Some(("String"@, "String"@)),
        BinOp::LtInt | BinOp::GtInt | BinOp::LeInt | BinOp::GeInt => Some(("Int"@, "Bool"@)),
        BinOp::LtFloat | BinOp::GtFloat | BinOp::LeFloat | BinOp::GeFloat => Some(("Float"@, "Bool"@)),
        _ => None,
    }
}

/// `b` is a copy of `a`: the same shape, names and spans.
pub open spec fn same_te(a: TypeExpr, b: TypeExpr) -> bool
    decreases a, 1nat,
{
    a.span == b.span && match (a.kind, b.kind) {
        (TypeExprKind::Named(x), TypeExprKind::Named(y)) => x@ == y@,
        (TypeExprKind::Var(x), TypeExprKind::Var(y)) => x@ == y@,
        (TypeExprKind::App(x, xs), TypeExprKind::App(y, ys)) => x@ == y@ && same_tes(xs@, ys@),
        (TypeExprKind::Arrow(a1, a2), TypeExprKind::Arrow(b1, b2)) => same_te(*a1, *b1) && same_te(*a2, *b2),
        (TypeExprKind::Tuple(xs), TypeExprKind::Tuple(ys)) => same_tes(xs@, ys@),
        (TypeExprKind::Paren(x), TypeExprKind::Paren(y)) => same_te(*x, *y),
        _ => false,
    }
}

pub open spec fn same_tes(xs: Seq<TypeExpr>, ys: Seq<TypeExpr>) -> bool
    decreases xs, 0nat,
{
    xs.len() == ys.len() && (xs.len() > 0 ==> same_tes(xs.drop_last(), ys.drop_last()) && same_te(
        xs.last(),
        ys.last(),
    ))
}

/// `b` is a copy of `a`: the same shape, names, literals and spans.
pub open spec fn same_pat(a: Pat, b: Pat) -> bool
    decreases a, 1nat,
{
    a.span == b.span && match (a.kind, b.kind) {
        (PatKind::Wildcard, PatKind::Wildcard) => true,
        (PatKind::Var(x), PatKind::Var(y)) => x@ == y@,
        (PatKind::IntLit(x), PatKind::IntLit(y)) => x == y,
        (PatKind::FloatLit(x), PatKind::FloatLit(y)) => x@ == y@,
        (PatKind::StringLit(x), PatKind::StringLit(y)) => x@ == y@,
        (PatKind::CharLit(x), PatKind::CharLit(y)) => x == y,
        (PatKind::BoolLit(x), PatKind::BoolLit(y)) => x == y,
        (PatKind::Unit, PatKind::Unit) => true,
        (PatKind::Tuple(xs), PatKind::Tuple(ys)) => same_pats(xs@, ys@),
        (PatKind::Constructor(x, px), PatKind::Constructor(y, py)) => x@ == y@ && match (px, py) {
            (Some(p), Some(q)) => same_pat(*p, *q),
            (None, None) => true,
            _ => false,
        },
        (PatKind::Cons(h1, t1), PatKind::Cons(h2, t2)) => same_pat(*h1, *h2) && same_pat(*t1, *t2),
        (PatKind::List(xs), PatKind::List(ys)) => same_pats(xs@, ys@),
        (PatKind::Ann(p, t), PatKind::Ann(q, u)) => same_pat(*p, *q) && same_te(t, u),
        (PatKind::As(x, p), PatKind::As(y, q)) => x@ == y@ && same_pat(*p, *q),
        (PatKind::Paren(p), PatKind::Paren(q)) => same_pat(*p, *q),
        _ => false,
    }
}

pub open spec fn same_pats(xs: Seq<Pat>, ys: Seq<Pat>) -> bool
    decreases xs, 0nat,
{
    xs.len() == ys.len() && (xs.len() > 0 ==> same_pats(xs.drop_last(), ys.drop_last()) && same_pat(
        xs.last(),
        ys.last(),
    ))
}

/// A copy of a type expression.
fn copy_type_expr(te: &TypeExpr) -> (r: TypeExpr)
    ensures
        same_te(*te, r),
    decreases *te, 1nat,
{
    proof {
        assert(decreases_to!(*te => te.kind));
    }
    let kind = match &te.kind {
        TypeExprKind::Named(n) => TypeExprKind::Named(clone_string(n)),
        TypeExprKind::Var(n) => TypeExprKind::Var(clone_string(n)),
        TypeExprKind::App(n, args) => TypeExprKind::App(clone_string(n), copy_type_exprs(args, Ghost(*te))),
        TypeExprKind::Arrow(a, b) => TypeExprKind::Arrow(Box::new(copy_type_expr(a)), Box::new(copy_type_expr(b))),
        TypeExprKind::Tuple(ts) => TypeExprKind::Tuple(copy_type_exprs(ts, Ghost(*te))),
        TypeExprKind::Paren(t) => TypeExprKind::Paren(Box::new(copy_type_expr(t))),
    };
    TypeExpr { kind, span: te.span }
}

fn copy_type_exprs(ts: &Vec<TypeExpr>, Ghost(outer): Ghost<TypeExpr>) -> (r: Vec<TypeExpr>)
    requires
        decreases_to!(outer => ts@),
    ensures
        same_tes(ts@, r@),
    decreases outer, 0nat,
{
    let mut out: Vec<TypeExpr> = Vec::new();
    let mut i: usize = 0;
    while i < ts.len()
        invariant
            i <= ts@.len(),
            decreases_to!(outer => ts@),
            same_tes(ts@.take(i as int), out@),
        decreases ts@.len() - i,
    {
        assert(decreases_to!(ts@ => ts@[i as int]));
        let c = copy_type_expr(&ts[i]);
        let ghost o0 = out@;
        out.push(c);
        proof {
            let pre = ts@.take(i + 1);
            assert(pre.drop_last() =~= ts@.take(i as int));
            assert(out@.drop_last() =~= o0);
            assert(pre.last() == ts@[i as int]);
        }
        i = i + 1;
    }
    assert(ts@.take(ts@.len() as int) =~= ts@);
    out
}

/// A copy of a pattern.
fn copy_pat(p: &Pat) -> (r: Pat)
    ensures
        same_pat(*p, r),
    decreases *p, 1nat,
{
    proof {
        assert(decreases_to!(*p => p.kind));
    }
    let kind = match &p.kind {
        PatKind::Wildcard => PatKind::Wildcard,
        PatKind::Var(x) => PatKind::Var(clone_string(x)),
        PatKind::IntLit(n) => PatKind::IntLit(*n),
        PatKind::FloatLit(t) => PatKind::FloatLit(clone_string(t)),
        PatKind::StringLit(t) => PatKind::StringLit(clone_string(t)),
        PatKind::CharLit(c) => PatKind::CharLit(*c),
        PatKind::BoolLit(b) => PatKind::BoolLit(*b),
        PatKind::Unit => PatKind::Unit,
        PatKind::Tuple(ps) => PatKind::Tuple(copy_pats(ps, Ghost(*p))),
        PatKind::Constructor(n, payload) => PatKind::Constructor(
            clone_string(n),
            match payload {
                Some(q) => Some(Box::new(copy_pat(q))),
                None => None,
            },
        ),
        PatKind::Cons(h, t) => PatKind::Cons(Box::new(copy_pat(h)), Box::new(copy_pat(t))),
        PatKind::List(ps) => PatKind::List(copy_pats(ps, Ghost(*p))),
        PatKind::Ann(q, te) => PatKind::Ann(Box::new(copy_pat(q)), copy_type_expr(te)),
        PatKind::As(x, q) => PatKind::As(clone_string(x), Box::new(copy_pat(q))),
        PatKind::Paren(q) => PatKind::Paren(Box::new(copy_pat(q))),
    };
    Pat { kind, span: p.span }
}

fn copy_pats(ps: &Vec<Pat>, Ghost(outer): Ghost<Pat>) -> (r: Vec<Pat>)
    requires
        decreases_to!(outer => ps@),
    ensures
        same_pats(ps@, r@),
    decreases outer, 0nat,
{
    let mut out: Vec<Pat> = Vec::new();
    let mut i: usize = 0;
    while i < ps.len()
        invariant
            i <= ps@.len(),
            decreases_to!(outer => ps@),
            same_pats(ps@.take(i as int), out@),
        decreases ps@.len() - i,
    {
        assert(decreases_to!(ps@ => ps@[i as int]));
        let c = copy_pat(&ps[i]);
        let ghost o0 = out@;
        out.push(c);
        proof {
            let pre = ps@.take(i + 1);
            assert(pre.drop_last() =~= ps@.take(i as int));
            assert(out@.drop_last() =~= o0);
            assert(pre.last() == ps@[i as int]);
        }
        i = i + 1;
    }
    assert(ps@.take(ps@.len() as int) =~= ps@);
    out
}

/// What a scope gives for `x` after binding each of `bs` monomorphically
/// in order, where it gave `d` before.
pub open spec fn after_monos(bs: Seq<(String, Type)>, x: Seq<char>, d: Option<SchemeV>) -> Option<SchemeV>
    decreases bs.len(),
{
    if bs.len() == 0 {
        d
    } else if bs.last().0@ == x {
        Some(SchemeV { vars: Seq::empty(), ty: ty_view(bs.last().1) })
    } else {
        after_monos(bs.drop_last(), x, d)
    }
}

impl InferCtx {
    /// Binds each name monomorphically to its type, in order.
    fn bind_monos(&mut self, bs: &Vec<(String, Type)>)
        requires
            old(self).env().len() > 0,
        ensures
            final(self).env().len() == old(self).env().len(),
            final(self).env().drop_last() == old(self).env().drop_last(),
            forall|x: Seq<char>| #[trigger] scope_lookup(final(self).env().last(), x) == after_monos(
                bs@,
                x,
                scope_lookup(old(self).env().last(), x),
            ),
            final(self).bindings() == old(self).bindings(),
            final(self).next() == old(self).next(),
    {
        let mut i: usize = 0;
        while i < bs.len()
            invariant
                i <= bs@.len(),
                self.env().len() == old(self).env().len(),
                old(self).env().len() > 0,
                self.env().drop_last() == old(self).env().drop_last(),
                forall|x: Seq<char>| #[trigger] scope_lookup(self.env().last(), x) == after_monos(
                    bs@.take(i as int),
                    x,
                    scope_lookup(old(self).env().last(), x),
                ),
                self.bindings() == old(self).bindings(),
                self.next() == old(self).next(),
            decreases bs@.len() - i,
        {
            let ghost before = self.env().last();
            let name = clone_string(&bs[i].0);
            let sch = Scheme::mono(bs[i].1.duplicate());
            assert(sch.vars@ =~= Seq::<u32>::empty());
            self.bind(name, sch);
            proof {
                let pre = bs@.take(i + 1);
                assert(pre.drop_last() =~= bs@.take(i as int));
                assert(pre.last() == bs@[i as int]);
                assert forall|x: Seq<char>| #[trigger] scope_lookup(self.env().last(), x) == after_monos(
                    pre,
                    x,
                    scope_lookup(old(self).env().last(), x),
                ) by {
                    if x != bs@[i as int].0@ {
                        assert(scope_lookup(self.env().last(), x) == scope_lookup(before, x));
                    }
                }
            }
            i = i + 1;
        }
        assert(bs@.take(bs@.len() as int) =~= bs@);
    }

    /// The type of an expression.
    #[verifier::rlimit(60)]
    #[verifier::spinoff_prover]
    pub fn infer_expr(&mut self, expr: &Expr) -> (r: Result<Type, TypeError>)
        requires
            old(self).wf(),
            old(self).env().len() > 0,
            expr_core(*expr),
        ensures
            scoped(*old(self), *final(self), r is Ok),
            r is Ok ==> final(self).env() == old(self).env(),
            lit_expr_con(expr.kind) is Some ==> (r matches Ok(t) && is_con(t, lit_expr_con(expr.kind)->0) && *final(self)
                == *old(self)),
            (expr.kind matches ExprKind::Var(x) && old(self).lookup_spec(x@) is None) ==> (r matches Err(e)
                && e.message@ == "unbound variable: "@ + expr.kind->Var_0@ && e.span == expr.span),
            (expr.kind matches ExprKind::Constructor(x) && assoc(old(self).cons(), x@) is None) ==> (r matches Err(
                e,
            ) && e.message@ == "unknown constructor: "@ + expr.kind->Constructor_0@ && e.span == expr.span),
            expr.kind matches ExprKind::Tuple(xs) ==> (r matches Ok(t) ==> (t matches Type::Tuple(ts) && ts@.len()
                == xs@.len() && forall|k: int|
                0 <= k < xs@.len() && #[trigger] lit_expr_con(xs@[k].kind) is Some ==> is_con(
                    ts@[k],
                    lit_expr_con(xs@[k].kind)->0,
                ))),
            expr.kind matches ExprKind::Tuple(xs) ==> ((forall|k: int|
                0 <= k < xs@.len() ==> #[trigger] lit_expr_con(xs@[k].kind) is Some) ==> r is Ok),
            (expr.kind is List || expr.kind is Cons) ==> (r matches Ok(t) ==> (t matches Type::App(n, args) && n@
                == "list"@ && args@.len() == 1)),
            (expr.kind is List && old(self).next() < u32::MAX) ==> r is Ok,
            expr.kind is App ==> (r matches Ok(t) ==> t is Var),
            expr.kind is Fn ==> (r matches Ok(t) ==> t is Arrow),
            expr.kind matches ExprKind::Var(x) ==> (old(self).lookup_spec(x@) matches Some(sc) ==> match r {
                Ok(t) => ty_view(t) == subst_vars(app(old(self).bindings(), 0, sc.ty), fresh_map(sc.vars, old(self).next() as nat))
                    && final(self).bindings() == old(self).bindings() && final(self).next() == old(self).next()
                    + sc.vars.len(),
                Err(e) => old(self).next() + sc.vars.len() > u32::MAX && e.message@ == "type variable supply exhausted"@,
            }),
            expr.kind matches ExprKind::Constructor(x) ==> (assoc(old(self).cons(), x@) matches Some(sc) ==> match r {
                Ok(t) => ty_view(t) == subst_vars(app(old(self).bindings(), 0, sc.ty), fresh_map(sc.vars, old(self).next() as nat))
                    && final(self).bindings() == old(self).bindings() && final(self).next() == old(self).next()
                    + sc.vars.len(),
                Err(e) => old(self).next() + sc.vars.len() > u32::MAX && e.message@ == "type variable supply exhausted"@,
            }),
            r matches Ok(t) ==> (typing_form(expr.kind) ==> has_typing(final(self).bindings(), old(self).env(), *expr, ty_view(t))),
        decreases *expr, 5nat,
    {
        proof {
            assert(decreases_to!(*expr => expr.kind));
            if lit_expr_con(expr.kind) is Some {
                let c = TyV::Con(lit_expr_con(expr.kind)->0);
                assert(typed(old(self).bindings(), old(self).env(), *expr, Typing { ty: c, parts: Seq::empty(), binds: Seq::empty() }));
            }
        }
        let span = expr.span;
        match &expr.kind {
            ExprKind::IntLit(_) => Ok(Type::int_type()),
            ExprKind::FloatLit(_) => Ok(Type::float()),
            ExprKind::StringLit(_) => Ok(Type::string()),
            ExprKind::CharLit(_) => Ok(Type::char()),
            ExprKind::BoolLit(_) => Ok(Type::bool()),
            ExprKind::Unit => Ok(Type::unit()),
            ExprKind::Var(x) => match self.lookup_scheme(x.as_str()) {
                Some(scheme) => {
                    let ghost b0 = self.bindings();
                    let ghost n0 = self.next() as nat;
                    let r = self.instantiate_checked(&scheme, span);
                    proof {
                        if let Ok(t) = &r {
                            let sc = scheme_view(scheme);
                            let m = fresh_map(sc.vars, n0);
                            assert(keys(m) =~= sc.vars);
                            assert(b0.is_prefix_of(b0));
                            let d = Typing { ty: ty_view(*t), parts: Seq::empty(), binds: Seq::empty() };
                            assert(typed(self.bindings(), old(self).env(), *expr, d));
                        }
                    }
                    r
                },
                None => {
                    let m = message_with("unbound variable: ", x);
                    Err(self.err(m.as_str(), span))
                },
            },
            ExprKind::Constructor(x) => match self.constructor_scheme(x.as_str()) {
                Some(scheme) => self.instantiate_checked(&scheme, span),
                None => {
                    let m = message_with("unknown constructor: ", x);
                    Err(self.err(m.as_str(), span))
                },
            },
            ExprKind::Tuple(xs) => {
                let tys = self.infer_exprs(xs, Ghost(*expr))?;
                proof {
                    let s1 = self.bindings();
                    let ds = choose|ds: Seq<Typing>|
                        #[trigger] typed_all(s1, old(self).env(), xs@, ds) && typing_tys(ds) == tys_view(tys@);
                    let d = Typing { ty: ty_view(Type::Tuple(tys)), parts: ds, binds: Seq::empty() };
                    assert(typed(s1, old(self).env(), *expr, d));
                }
                Ok(Type::Tuple(tys))
            },
            ExprKind::List(_) => {
                let t = self.fresh_checked(span)?;
                let ghost tv = t;
                let lt = Type::list(t);
                proof {
                    lemma_tys_push(Seq::empty(), tv);
                    assert(seq![tv] =~= Seq::<Type>::empty().push(tv));
                    assert(tys_view(Seq::<Type>::empty()) =~= Seq::<TyV>::empty());
                    let d = Typing { ty: ty_view(lt), parts: Seq::empty(), binds: Seq::empty() };
                    assert(typed(self.bindings(), old(self).env(), *expr, d));
                }
                Ok(lt)
            },
            ExprKind::Cons(h, t) => {
                let hd = self.infer_expr(h)?;
                let ghost st1 = *self;
                let ghost hv = ty_view(hd);
                let tl = self.infer_expr(t)?;
                let ghost st2 = *self;
                let ghost hd0 = hd;
                let list_ty = Type::list(hd);
                self.unify_checked(&tl, &list_ty, span)?;
                proof {
                    let env = old(self).env();
                    let s3 = self.bindings();
                    lemma_grows_prefix(st1, *self);
                    lemma_grows_prefix(st2, *self);
                    if !typing_form(h.kind) {
                        lemma_other_has_typing(st1.bindings(), env, **h, hv);
                    }
                    if !typing_form(t.kind) {
                        lemma_other_has_typing(st2.bindings(), env, **t, ty_view(tl));
                    }
                    assert(has_typing(st1.bindings(), env, **h, hv));
                    assert(has_typing(st2.bindings(), env, **t, ty_view(tl)));
                    let dh = choose|d: Typing| #[trigger] typed(st1.bindings(), env, **h, d) && d.ty == hv;
                    let dt = choose|d: Typing| #[trigger] typed(st2.bindings(), env, **t, d) && d.ty == ty_view(tl);
                    lemma_typed_extend(st1.bindings(), s3, env, **h, dh);
                    lemma_typed_extend(st2.bindings(), s3, env, **t, dt);
                    assert(ty_view(list_ty) == list_of(hv)) by {
                        lemma_tys_push(Seq::empty(), hd0);
                        assert(seq![hd0] =~= Seq::<Type>::empty().push(hd0));
                        assert(tys_view(Seq::<Type>::empty()) =~= Seq::<TyV>::empty());
                        assert(tys_view(seq![hd0]) =~= seq![hv]);
                    }
                    let d = Typing { ty: ty_view(list_ty), parts: seq![dh, dt], binds: Seq::empty() };
                    assert(typed(s3, env, *expr, d));
                }
                Ok(list_ty)
            },
            ExprKind::BinOp(op, l, r) => {
                let res = self.infer_binop(*op, l, r, span, Ghost(*expr));
                proof {
                    if let Ok(t) = &res {
                        let s1 = self.bindings();
                        let env = old(self).env();
                        let (dl, dr) = choose|dl: Typing, dr: Typing|
                            #![trigger typed(s1, env, **l, dl), typed(s1, env, **r, dr)]
                            typed(s1, env, **l, dl) && typed(s1, env, **r, dr) && binop_rule(s1, *op, dl.ty, dr.ty, ty_view(*t));
                        let d = Typing { ty: ty_view(*t), parts: seq![dl, dr], binds: Seq::empty() };
                        assert(typed(s1, env, *expr, d));
                    }
                }
                res
            },
            ExprKind::UnaryNeg(e) => {
                let ty = self.infer_expr(e)?;
                let resolved = self.apply(&ty);
                let numeric = match &resolved {
                    Type::Con(n) => str_eq(n.as_str(), "Int") || str_eq(n.as_str(), "Float"),
                    _ => false,
                };
                if numeric {
                    let ghost rv = ty_view(resolved);
                    self.record_expr_type(span, resolved);
                    proof {
                        let env = old(self).env();
                        let s2 = self.bindings();
                        if !typing_form(e.kind) {
                            lemma_other_has_typing(s2, env, **e, ty_view(ty));
                        }
                        assert(has_typing(s2, env, **e, ty_view(ty)));
                        let d0 = choose|d: Typing| #[trigger] typed(s2, env, **e, d) && d.ty == ty_view(ty);
                        assert(rv == app(s2, 0, ty_view(ty)));
                        assert(rv == TyV::Con("Int"@) || rv == TyV::Con("Float"@));
                        let d = Typing { ty: ty_view(ty), parts: seq![d0], binds: Seq::empty() };
                        assert(typed(s2, env, *expr, d));
                    }
                    Ok(ty)
                } else {
                    match &resolved {
                        Type::Var(_) => Err(self.err("~ requires int or float, but type is unconstrained", e.span)),
                        _ => {
                            let shown = self.display(&resolved);
                            let m = message_with("~ requires int or float, found ", &shown);
                            Err(self.err(m.as_str(), e.span))
                        },
                    }
                }
            },
            ExprKind::Not(_) => {
                proof {
                    assert(false);
                }
                Ok(Type::bool())
            },
            ExprKind::App(f, a) => {
                let ghost st0 = *self;
                let ft = self.infer_expr(f)?;
                let ghost st1 = *self;
                let at = self.infer_expr(a)?;
                let ghost st2 = *self;
                let ghost atv = ty_view(at);
                let result = self.fresh_checked(span)?;
                let expected = Type::arrow(at, result.duplicate());
                let ghost st3 = *self;
                self.unify_checked(&ft, &expected, span)?;
                proof {
                    let env = old(self).env();
                    let s3 = self.bindings();
                    lemma_grows_prefix(st1, *self);
                    lemma_grows_prefix(st2, *self);
                    if !typing_form(f.kind) {
                        lemma_other_has_typing(st1.bindings(), env, **f, ty_view(ft));
                    }
                    if !typing_form(a.kind) {
                        lemma_other_has_typing(st2.bindings(), env, **a, atv);
                    }
                    assert(has_typing(st1.bindings(), env, **f, ty_view(ft)));
                    assert(has_typing(st2.bindings(), env, **a, atv));
                    let df = choose|d: Typing| #[trigger] typed(st1.bindings(), env, **f, d) && d.ty == ty_view(ft);
                    let da = choose|d: Typing| #[trigger] typed(st2.bindings(), env, **a, d) && d.ty == atv;
                    lemma_typed_extend(st1.bindings(), s3, env, **f, df);
                    lemma_typed_extend(st2.bindings(), s3, env, **a, da);
                    let d = Typing { ty: ty_view(result), parts: seq![df, da], binds: Seq::empty() };
                    assert(ty_view(expected) == TyV::Arrow(Box::new(atv), Box::new(ty_view(result))));
                    assert(typed(s3, env, *expr, d));
                }
                Ok(result)
            },
            ExprKind::Fn(p, body) => {
                self.push_scope();
                let (param_ty, bs) = self.infer_pat(p)?;
                let ghost cp = *self;
                self.bind_monos(&bs);
                let ghost env_b = self.env();
                let ghost st1 = *self;
                let body_ty = self.infer_expr(body)?;
                let ghost st2 = *self;
                self.pop_scope();
                let resolved = self.apply(&param_ty);
                let info = self.type_info_for(&resolved);
                let mut pats: Vec<&Pat> = Vec::new();
                pats.push(p);
                self.check_exhaustiveness(pats.as_slice(), &info, span)?;
                let ghost pv = ty_view(param_ty);
                let ghost bv = ty_view(body_ty);
                let at = Type::arrow(param_ty, body_ty);
                proof {
                    if p.kind is Var {
                        let x = p.kind->Var_0@;
                        let env = old(self).env();
                        let s2 = self.bindings();
                        let fe = fn_env(env, x, pv);
                        assert(pat_vars(*p) == seq![x]);
                        assert(bs@[0].0@ == x) by {
                            assert(names_of(bs@)[0] == bs@[0].0@);
                        }
                        assert(same_lookups(env_b, fe)) by {
                            assert forall|y: Seq<char>| #[trigger] env_lookup(env_b, y) == env_lookup(fe, y) by {
                                assert(bs@.drop_last() =~= Seq::<(String, Type)>::empty());
                                assert(scope_lookup(Seq::<(Seq<char>, SchemeV)>::empty(), y) is None);
                                let sc = seq![(x, SchemeV { vars: Seq::empty(), ty: pv })];
                                assert(sc.drop_first() =~= Seq::<(Seq<char>, SchemeV)>::empty());
                                assert(fe.last() == sc && fe.drop_last() =~= env);
                                assert(env_b.len() == env.len() + 1);
                                assert(env_b.drop_last() == env);
                                assert(bs@.last() == bs@[0]);
                                assert(scope_lookup(env_b.last(), y) == after_monos(bs@, y, None));
                                if y == x {
                                    assert(after_monos(bs@, y, None) == Some(SchemeV { vars: Seq::<u32>::empty(), ty: pv }));
                                    assert(scope_lookup(sc, y) == Some(SchemeV { vars: Seq::<u32>::empty(), ty: pv }));
                                } else {
                                    assert(after_monos(Seq::<(String, Type)>::empty(), y, None) is None);
                                    assert(after_monos(bs@, y, None) == after_monos(bs@.drop_last(), y, None));
                                    assert(after_monos(bs@, y, None) is None);
                                    assert(sc[0].0 == x);
                                    assert(scope_lookup(sc, y) == scope_lookup(sc.drop_first(), y));
                                    assert(scope_lookup(sc, y) is None);
                                }
                            }
                        }
                        if !typing_form(body.kind) {
                            lemma_other_has_typing(st2.bindings(), env_b, **body, bv);
                        }
                        assert(has_typing(st2.bindings(), env_b, **body, bv));
                        let db = choose|d: Typing| #[trigger] typed(st2.bindings(), env_b, **body, d) && d.ty == bv;
                        lemma_typed_env(st2.bindings(), env_b, fe, **body, db);
                        assert(st2.bindings() == s2);
                        let dp = Typing { ty: pv, parts: Seq::empty(), binds: Seq::empty() };
                        let d = Typing { ty: ty_view(at), parts: seq![dp, db], binds: Seq::empty() };
                        assert(typed(s2, env, *expr, d));
                    } else {
                        let env = old(self).env();
                        let s2 = self.bindings();
                        let empty = Seq::<(Seq<char>, SchemeV)>::empty();
                        assert(cp.env() == env.push(empty));
                        assert(env.push(empty).drop_last() =~= env);
                        assert(cp.env().last() == empty);
                        lemma_monos_env(env, env_b, bs@);
                        let binds = monos_view(bs@);
                        lemma_grows_prefix(cp, *self);
                        let dp = choose|d: Typing| #[trigger] pat_typed(cp.bindings(), *p, d) && d.ty == pv && d.binds == binds;
                        lemma_pat_typed_extend(cp.bindings(), s2, *p, dp);
                        if !typing_form(body.kind) {
                            lemma_other_has_typing(st2.bindings(), env_b, **body, bv);
                        }
                        assert(has_typing(st2.bindings(), env_b, **body, bv));
                        let db = choose|d: Typing| #[trigger] typed(st2.bindings(), env_b, **body, d) && d.ty == bv;
                        lemma_typed_env(st2.bindings(), env_b, let_env(env, binds), **body, db);
                        assert(st2.bindings() == s2);
                        let d = Typing { ty: ty_view(at), parts: seq![dp, db], binds: Seq::empty() };
                        assert(typed(s2, env, *expr, d));
                    }
                }
                Ok(at)
            },
            ExprKind::If(c, t, f) => {
                let ct = self.infer_expr(c)?;
                let ghost st1 = *self;
                let bt = Type::bool();
                self.unify_checked(&ct, &bt, c.span)?;
                let ghost st2 = *self;
                let tt = self.infer_expr(t)?;
                let ghost st3 = *self;
                let ft = self.infer_expr(f)?;
                let ghost st4 = *self;
                self.unify_checked(&tt, &ft, span)?;
                proof {
                    let env = old(self).env();
                    let s5 = self.bindings();
                    lemma_grows_prefix(st1, *self);
                    lemma_grows_prefix(st2, *self);
                    lemma_grows_prefix(st3, *self);
                    if !typing_form(c.kind) {
                        lemma_other_has_typing(st1.bindings(), env, **c, ty_view(ct));
                    }
                    if !typing_form(t.kind) {
                        lemma_other_has_typing(st3.bindings(), env, **t, ty_view(tt));
                    }
                    if !typing_form(f.kind) {
                        lemma_other_has_typing(st4.bindings(), env, **f, ty_view(ft));
                    }
                    assert(has_typing(st1.bindings(), env, **c, ty_view(ct)));
                    assert(has_typing(st3.bindings(), env, **t, ty_view(tt)));
                    assert(has_typing(st4.bindings(), env, **f, ty_view(ft)));
                    let dc = choose|d: Typing| #[trigger] typed(st1.bindings(), env, **c, d) && d.ty == ty_view(ct);
                    let dt = choose|d: Typing| #[trigger] typed(st3.bindings(), env, **t, d) && d.ty == ty_view(tt);
                    let df = choose|d: Typing| #[trigger] typed(st4.bindings(), env, **f, d) && d.ty == ty_view(ft);
                    lemma_typed_extend(st1.bindings(), s5, env, **c, dc);
                    lemma_typed_extend(st3.bindings(), s5, env, **t, dt);
                    lemma_typed_extend(st4.bindings(), s5, env, **f, df);
                    let bool_t = TyV::Con("Bool"@);
                    assert(ty_view(bt) == bool_t);
                    assert(app(st2.bindings(), 0, bool_t) == bool_t);
                    lemma_app_eq_extend(st2.bindings(), s5, ty_view(ct), bool_t);
                    assert(app(s5, 0, bool_t) == bool_t);
                    let d = Typing { ty: ty_view(tt), parts: seq![dc, dt, df], binds: Seq::empty() };
                    assert(typed(s5, env, *expr, d));
                }
                Ok(tt)
            },
            ExprKind::Let(ds, body) => {
                let ghost base = self.env().len();
                self.push_scope();
                assert(decreases_to!(*expr => ds@));
                let ghost vd = var_program(ds@);
                let ghost mut binds: Seq<(Seq<char>, SchemeV)> = Seq::empty();
                let ghost mut parts: Seq<Typing> = Seq::empty();
                proof {
                    assert(ds@.take(0) =~= Seq::<Decl>::empty());
                    assert(let_scope(binds) =~= Seq::<(Seq<char>, SchemeV)>::empty());
                    assert(self.env() =~= let_env(old(self).env(), binds));
                }
                let mut i: usize = 0;
                while i < ds.len()
                    invariant
                        i <= ds@.len(),
                        vd == var_program(ds@),
                        vd ==> binds.len() == i && parts.len() == i,
                        vd ==> typed_let(self.bindings(), old(self).env(), ds@.take(i as int), binds, parts),
                        vd ==> same_lookups(self.env(), let_env(old(self).env(), binds)),
                        decls_core(ds@),
                        lit_expr_con(expr.kind) is None,
                        !(expr.kind is Tuple) && !(expr.kind is List) && !(expr.kind is Cons) && !(expr.kind is App) && !(expr.kind is Fn),
                        !(expr.kind is Var) && !(expr.kind is Constructor),
                        decreases_to!(*expr => ds@),
                        grows(*old(self), *self),
                        self.env().len() == base + 1,
                        base == old(self).env().len(),
                        self.env().drop_last() == old(self).env(),
                    decreases ds@.len() - i,
                {
                    assert(decreases_to!(ds@ => ds@[i as int]));
                    proof {
                        lemma_decls_core_at(ds@, i as int);
                    }
                    let ghost pre = *self;
                    self.infer_decl(&ds[i])?;
                    proof {
                        if vd {
                            let dcl = ds@[i as int];
                            assert(var_val(dcl) is Some);
                            let x = vname(dcl);
                            let e = vexpr(dcl);
                            assert(var_val(dcl) == Some((x, e)));
                            let s2 = self.bindings();
                            lemma_grows_prefix(pre, *self);
                            let t = choose|t: TyV|
                                #[trigger] has_typing(s2, pre.env(), e, t) && (self.lookup_spec(x) matches Some(sc) && sc.ty
                                    == app(s2, 0, t) && app(s2, 0, sc.ty) == sc.ty);
                            let sc = self.lookup_spec(x)->0;
                            let de = choose|d: Typing| #[trigger] typed(s2, pre.env(), e, d) && d.ty == t;
                            let le = let_env(old(self).env(), binds);
                            lemma_typed_env(s2, pre.env(), le, e, de);
                            lemma_typed_let_extend(pre.bindings(), s2, old(self).env(), ds@.take(i as int), binds, parts);
                            let nb = binds.push((x, sc));
                            let np = parts.push(de);
                            assert(ds@.take(i + 1).drop_last() =~= ds@.take(i as int));
                            assert(ds@.take(i + 1).last() == dcl);
                            assert(nb.drop_last() =~= binds);
                            assert(np.drop_last() =~= parts);
                            assert(typed_let(s2, old(self).env(), ds@.take(i + 1), nb, np));
                            assert(same_lookups(self.env(), let_env(old(self).env(), nb))) by {
                                assert forall|y: Seq<char>| #[trigger] env_lookup(self.env(), y) == env_lookup(
                                    let_env(old(self).env(), nb),
                                    y,
                                ) by {
                                    lemma_env_push_lookup(old(self).env(), let_scope(nb), y);
                                    lemma_env_push_lookup(old(self).env(), let_scope(binds), y);
                                    lemma_let_scope_lookup(nb, y);
                                    lemma_let_scope_lookup(binds, y);
                                    assert(env_lookup(pre.env(), y) == env_lookup(le, y));
                                    if y != x {
                                        assert(self.lookup_spec(y) == pre.lookup_spec(y));
                                    }
                                }
                            }
                            binds = nb;
                            parts = np;
                        }
                    }
                    i = i + 1;
                }
                let ghost stb = *self;
                let ghost envb = self.env();
                let ty = self.infer_expr(body)?;
                proof {
                    if vd {
                        let s2 = self.bindings();
                        let env = old(self).env();
                        lemma_grows_prefix(stb, *self);
                        if !typing_form(body.kind) {
                            lemma_other_has_typing(s2, envb, **body, ty_view(ty));
                        }
                        assert(has_typing(s2, envb, **body, ty_view(ty)));
                        let db = choose|d: Typing| #[trigger] typed(s2, envb, **body, d) && d.ty == ty_view(ty);
                        lemma_typed_env(s2, envb, let_env(env, binds), **body, db);
                        lemma_typed_let_extend(stb.bindings(), s2, env, ds@.take(i as int), binds, parts);
                        assert(ds@.take(i as int) =~= ds@);
                        let np = parts.push(db);
                        assert(np.take(ds@.len() as int) =~= parts);
                        let d = Typing { ty: ty_view(ty), parts: np, binds: binds };
                        assert(typed(s2, env, *expr, d));
                    }
                }
                self.pop_scope();
                Ok(ty)
            },
            ExprKind::Case(scrutinee, arms) => {
                let ghost env = old(self).env();
                let st = self.infer_expr(scrutinee)?;
                let ghost d0: Typing;
                proof {
                    if !typing_form(scrutinee.kind) {
                        lemma_other_has_typing(self.bindings(), env, **scrutinee, ty_view(st));
                    }
                    d0 = choose|d: Typing| #[trigger] typed(self.bindings(), env, **scrutinee, d) && d.ty == ty_view(st);
                }
                let ghost c0 = *self;
                let result = self.fresh_checked(span)?;
                let ghost base = self.env().len();
                let ghost mut parts: Seq<Typing> = Seq::empty();
                assert(decreases_to!(*expr => arms@));
                assert(arms@.take(0) =~= Seq::<(Pat, Expr)>::empty());
                let mut i: usize = 0;
                while i < arms.len()
                    invariant
                        i <= arms@.len(),
                        env == old(self).env(),
                        grows(c0, *self),
                        typed(c0.bindings(), env, **scrutinee, d0),
                        d0.ty == ty_view(st),
                        typed_arms(self.bindings(), env, arms@.take(i as int), ty_view(st), ty_view(result), parts),
                        arms_core(arms@),
                        lit_expr_con(expr.kind) is None,
                        !(expr.kind is Tuple) && !(expr.kind is List) && !(expr.kind is Cons) && !(expr.kind is App) && !(expr.kind is Fn),
                        !(expr.kind is Var) && !(expr.kind is Constructor),
                        decreases_to!(*expr => arms@),
                        grows(*old(self), *self),
                        self.env().len() == base,
                        base == old(self).env().len(),
                        self.env() == old(self).env(),
                    decreases arms@.len() - i,
                {
                    assert(decreases_to!(arms@ => arms@[i as int]));
                    proof {
                        lemma_arms_core_at(arms@, i as int);
                    }
                    let ghost cs = *self;
                    self.push_scope();
                    let (pt, bs) = self.infer_pat(&arms[i].0)?;
                    let ghost cp = *self;
                    self.unify_checked(&pt, &st, arms[i].0.span)?;
                    let ghost cu = *self;
                    self.bind_monos(&bs);
                    let ghost cb = *self;
                    let bt = self.infer_expr(&arms[i].1)?;
                    let ghost cbody = *self;
                    self.unify_checked(&bt, &result, arms[i].1.span)?;
                    self.pop_scope();
                    proof {
                        let sf = self.bindings();
                        lemma_grows_prefix(cs, *self);
                        lemma_grows_prefix(cp, *self);
                        lemma_grows_prefix(cu, *self);
                        lemma_grows_prefix(cbody, *self);
                        if !typing_form(arms@[i as int].1.kind) {
                            lemma_other_has_typing(cbody.bindings(), cb.env(), arms@[i as int].1, ty_view(bt));
                        }
                        let empty = Seq::<(Seq<char>, SchemeV)>::empty();
                        assert(cu.env() == env.push(empty));
                        assert(env.push(empty).drop_last() =~= env);
                        assert(cu.env().last() == empty);
                        lemma_monos_env(env, cb.env(), bs@);
                        parts = lemma_arm_step(cs.bindings(), env, arms@, i as int, ty_view(st), ty_view(result), parts,
                            cp.bindings(), ty_view(pt), bs@, cu.bindings(), cb.env(), cbody.bindings(), ty_view(bt), sf);
                    }
                    i = i + 1;
                }
                let resolved = self.apply(&st);
                let info = self.type_info_for(&resolved);
                let mut pats: Vec<&Pat> = Vec::new();
                let mut j: usize = 0;
                while j < arms.len()
                    invariant
                        j <= arms@.len(),
                    decreases arms@.len() - j,
                {
                    pats.push(&arms[j].0);
                    j = j + 1;
                }
                self.check_exhaustiveness(pats.as_slice(), &info, span)?;
                proof {
                    let sf = self.bindings();
                    lemma_grows_prefix(c0, *self);
                    lemma_typed_extend(c0.bindings(), sf, env, **scrutinee, d0);
                    assert(arms@.take(arms@.len() as int) =~= arms@);
                    let all = seq![d0] + parts;
                    assert(all.skip(1) =~= parts);
                    let d = Typing { ty: ty_view(result), parts: all, binds: Seq::empty() };
                    assert(typed(sf, env, *expr, d));
                }
                Ok(result)
            },
            ExprKind::Ann(e, te) => {
                let inferred = self.infer_expr(e)?;
                let ghost c1 = *self;
                let declared = self.resolve_checked(te, span)?;
                self.unify_checked(&inferred, &declared, span)?;
                proof {
                    let env = old(self).env();
                    let s2 = self.bindings();
                    if !typing_form(e.kind) {
                        lemma_other_has_typing(c1.bindings(), env, **e, ty_view(inferred));
                    }
                    assert(has_typing(c1.bindings(), env, **e, ty_view(inferred)));
                    let d0 = choose|d: Typing| #[trigger] typed(c1.bindings(), env, **e, d) && d.ty == ty_view(inferred);
                    lemma_grows_prefix(c1, *self);
                    lemma_typed_extend(c1.bindings(), s2, env, **e, d0);
                    let d = Typing { ty: ty_view(declared), parts: seq![d0], binds: Seq::empty() };
                    assert(typed(s2, env, *expr, d));
                }
                Ok(declared)
            },
            ExprKind::Paren(e) => {
                let r = self.infer_expr(e);
                proof {
                    if let Ok(t) = &r {
                        let env = old(self).env();
                        if !typing_form(e.kind) {
                            lemma_other_has_typing(self.bindings(), env, **e, ty_view(*t));
                        }
                        assert(has_typing(self.bindings(), env, **e, ty_view(*t)));
                        let d0 = choose|d: Typing| #[trigger] typed(self.bindings(), env, **e, d) && d.ty == ty_view(*t);
                        let d = Typing { ty: ty_view(*t), parts: seq![d0], binds: Seq::empty() };
                        assert(typed(self.bindings(), env, *expr, d));
                    }
                }
                r
            },
            ExprKind::Perform(name, arg) => {
                let at = self.infer_expr(arg)?;
                match self.effect_arg(name) {
                    Some(declared) => {
                        self.unify_checked(&at, &declared, span)?;
                        self.fresh_checked(span)
                    },
                    None => {
                        let m = message_with("undeclared effect: ", name);
                        Err(self.err(m.as_str(), span))
                    },
                }
            },
            ExprKind::Handle { body, return_var, return_body, handlers } => {
                let _body_ty = self.infer_expr(body)?;
                let ghost base = self.env().len();
                self.push_scope();
                let ret_var = self.fresh_checked(span)?;
                self.bind(clone_string(return_var), Scheme::mono(ret_var));
                let return_ty = self.infer_expr(return_body)?;
                self.pop_scope();
                assert(decreases_to!(*expr => handlers@));
                let mut i: usize = 0;
                while i < handlers.len()
                    invariant
                        i <= handlers@.len(),
                        handlers_core(handlers@),
                        lit_expr_con(expr.kind) is None,
                        !(expr.kind is Tuple) && !(expr.kind is List) && !(expr.kind is Cons) && !(expr.kind is App) && !(expr.kind is Fn),
                        !(expr.kind is Var) && !(expr.kind is Constructor),
                        decreases_to!(*expr => handlers@),
                        grows(*old(self), *self),
                        self.env().len() == base,
                        base == old(self).env().len(),
                        self.env() == old(self).env(),
                    decreases handlers@.len() - i,
                {
                    assert(decreases_to!(handlers@ => handlers@[i as int]));
                    proof {
                        lemma_handlers_core_at(handlers@, i as int);
                    }
                    let handler = &handlers[i];
                    self.push_scope();
                    let payload_ty = match self.effect_arg(&handler.effect_name) {
                        Some(declared) => declared,
                        None => self.fresh_checked(handler.span)?,
                    };
                    self.bind(clone_string(&handler.payload_var), Scheme::mono(payload_ty));
                    let resume_arg = self.fresh_checked(handler.span)?;
                    let cont_ty = Type::arrow(resume_arg, return_ty.duplicate());
                    self.bind(clone_string(&handler.cont_var), Scheme::mono(cont_ty));
                    let handler_ty = self.infer_expr(&handler.body)?;
                    self.unify_checked(&handler_ty, &return_ty, handler.body.span)?;
                    self.pop_scope();
                    i = i + 1;
                }
                Ok(return_ty)
            },
            ExprKind::Resume(c, a) => {
                let _cont_ty = self.infer_expr(c)?;
                let _arg_ty = self.infer_expr(a)?;
                self.fresh_checked(span)
            },
        }
    }

    fn infer_exprs(&mut self, xs: &Vec<Expr>, Ghost(outer): Ghost<Expr>) -> (r: Result<Vec<Type>, TypeError>)
        requires
            old(self).wf(),
            old(self).env().len() > 0,
            exprs_core(xs@),
            decreases_to!(outer => xs@),
        ensures
            scoped(*old(self), *final(self), r is Ok),
            r is Ok ==> final(self).env() == old(self).env(),
            r matches Ok(v) ==> v@.len() == xs@.len() && forall|k: int|
                0 <= k < xs@.len() && #[trigger] lit_expr_con(xs@[k].kind) is Some ==> is_con(
                    v@[k],
                    lit_expr_con(xs@[k].kind)->0,
                ),
            (forall|k: int| 0 <= k < xs@.len() ==> #[trigger] lit_expr_con(xs@[k].kind) is Some) ==> r is Ok,
            r matches Ok(v) ==> exists|ds: Seq<Typing>|
                #[trigger] typed_all(final(self).bindings(), old(self).env(), xs@, ds) && typing_tys(ds) == tys_view(v@),
        decreases outer, 4nat,
    {
        let mut tys: Vec<Type> = Vec::new();
        let ghost mut ds: Seq<Typing> = Seq::empty();
        let mut i: usize = 0;
        assert(xs@.take(0) =~= Seq::<Expr>::empty());
        while i < xs.len()
            invariant
                i <= xs@.len(),
                typed_all(self.bindings(), old(self).env(), xs@.take(i as int), ds),
                typing_tys(ds) == tys_view(tys@),
                exprs_core(xs@),
                decreases_to!(outer => xs@),
                grows(*old(self), *self),
                self.env().len() == old(self).env().len(),
                old(self).env().len() > 0,
                self.env() == old(self).env(),
                tys@.len() == i,
                forall|k: int|
                    0 <= k < i && #[trigger] lit_expr_con(xs@[k].kind) is Some ==> is_con(
                        tys@[k],
                        lit_expr_con(xs@[k].kind)->0,
                    ),
            decreases xs@.len() - i,
        {
            assert(decreases_to!(xs@ => xs@[i as int]));
            proof {
                lemma_exprs_core_at(xs@, i as int);
            }
            let ghost s0 = self.bindings();
            let ghost pre = *self;
            let t = self.infer_expr(&xs[i])?;
            proof {
                let s1 = self.bindings();
                lemma_grows_prefix(pre, *self);
                lemma_typed_all_extend(s0, s1, old(self).env(), xs@.take(i as int), ds);
                if !typing_form(xs@[i as int].kind) {
                    lemma_other_has_typing(s1, old(self).env(), xs@[i as int], ty_view(t));
                }
                assert(has_typing(s1, old(self).env(), xs@[i as int], ty_view(t)));
                let d = choose|d: Typing| #[trigger] typed(s1, old(self).env(), xs@[i as int], d) && d.ty == ty_view(t);
                assert(xs@.take(i + 1).drop_last() =~= xs@.take(i as int));
                assert(xs@.take(i + 1).last() == xs@[i as int]);
                assert(ds.push(d).drop_last() =~= ds);
                lemma_tys_push(tys@, t);
                assert(typing_tys(ds.push(d)) =~= typing_tys(ds).push(d.ty));
                ds = ds.push(d);
            }
            tys.push(t);
            i = i + 1;
        }
        assert(xs@.take(i as int) =~= xs@);
        Ok(tys)
    }

    /// The type of a binary operation.
    fn infer_binop(&mut self, op: BinOp, lhs: &Expr, rhs: &Expr, span: Span, Ghost(outer): Ghost<Expr>) -> (r: Result<
        Type,
        TypeError,
    >)
        requires
            old(self).wf(),
            old(self).env().len() > 0,
            expr_core(*lhs),
            expr_core(*rhs),
            op != BinOp::Andalso && op != BinOp::Orelse,
            decreases_to!(outer => *lhs),
            decreases_to!(outer => *rhs),
        ensures
            scoped(*old(self), *final(self), r is Ok),
            r is Ok ==> final(self).env() == old(self).env(),
            r matches Ok(t) ==> is_con(t, match binop_sig(op) {
                Some(sig) => sig.1,
                None => "Bool"@,
            }),
            (binop_sig(op) matches Some(sig) && lit_expr_con(lhs.kind) == Some(sig.0) && lit_expr_con(rhs.kind)
                == Some(sig.0)) ==> r is Ok,
            ((op == BinOp::Eq || op == BinOp::Ne) && lit_expr_con(lhs.kind) is Some && lit_expr_con(rhs.kind)
                == lit_expr_con(lhs.kind)) ==> r is Ok,
            r matches Ok(t) ==> exists|dl: Typing, dr: Typing|
                #![trigger typed(final(self).bindings(), old(self).env(), *lhs, dl), typed(final(self).bindings(), old(self).env(), *rhs, dr)]
                typed(final(self).bindings(), old(self).env(), *lhs, dl) && typed(final(self).bindings(), old(self).env(), *rhs, dr)
                    && binop_rule(final(self).bindings(), op, dl.ty, dr.ty, ty_view(t)),
        decreases outer, 4nat,
    {
        let lt = self.infer_expr(lhs)?;
        let ghost st1 = *self;
        let rt = self.infer_expr(rhs)?;
        let ghost st2 = *self;
        proof {
            if !typing_form(lhs.kind) {
                lemma_other_has_typing(st1.bindings(), old(self).env(), *lhs, ty_view(lt));
            }
            if !typing_form(rhs.kind) {
                lemma_other_has_typing(st2.bindings(), old(self).env(), *rhs, ty_view(rt));
            }
            assert(has_typing(st1.bindings(), old(self).env(), *lhs, ty_view(lt)));
            assert(has_typing(st2.bindings(), old(self).env(), *rhs, ty_view(rt)));
        }
        let ghost dl = choose|d: Typing| #[trigger] typed(st1.bindings(), old(self).env(), *lhs, d) && d.ty == ty_view(lt);
        let ghost dr = choose|d: Typing| #[trigger] typed(st2.bindings(), old(self).env(), *rhs, d) && d.ty == ty_view(rt);
        let (expected_lhs, expected_rhs, result) = match op {
            BinOp::AddInt | BinOp::SubInt | BinOp::MulInt | BinOp::DivInt | BinOp::ModInt => (
                Type::int_type(),
                Type::int_type(),
                Type::int_type(),
            ),
            BinOp::AddFloat | BinOp::SubFloat | BinOp::MulFloat | BinOp::DivFloat => (
                Type::float(),
                Type::float(),
                Type::float(),
            ),
            BinOp::ConcatStr => (Type::string(), Type::string(), Type::string()),
            BinOp::LtInt | BinOp::GtInt | BinOp::LeInt | BinOp::GeInt => (
                Type::int_type(),
                Type::int_type(),
                Type::bool(),
            ),
            BinOp::LtFloat | BinOp::GtFloat | BinOp::LeFloat | BinOp::GeFloat => (
                Type::float(),
                Type::float(),
                Type::bool(),
            ),
            _ => {
                self.unify_checked(&lt, &rt, span)?;
                let resolved = self.apply(&lt);
                let allowed = match &resolved {
                    Type::Var(_) => true,
                    _ => resolved.is_equality(),
                };
                if !allowed {
                    let shown = self.display(&resolved);
                    let m = message_with("= and <> require equality types, found ", &shown);
                    return Err(self.err(m.as_str(), span));
                }
                let bt = Type::bool();
                proof {
                    let s3 = self.bindings();
                    lemma_grows_prefix(st1, *self);
                    lemma_grows_prefix(st2, *self);
                    lemma_typed_extend(st1.bindings(), s3, old(self).env(), *lhs, dl);
                    lemma_typed_extend(st2.bindings(), s3, old(self).env(), *rhs, dr);
                    assert(binop_sig(op) is None);
                    assert(ty_view(bt) == TyV::Con("Bool"@));
                    assert(binop_rule(s3, op, dl.ty, dr.ty, ty_view(bt)));
                }
                return Ok(bt);
            },
        };
        let ghost st3 = *self;
        self.unify_checked(&lt, &expected_lhs, lhs.span)?;
        let ghost st4 = *self;
        self.unify_checked(&rt, &expected_rhs, rhs.span)?;
        proof {
            let s5 = self.bindings();
            lemma_grows_prefix(st1, *self);
            lemma_grows_prefix(st2, *self);
            lemma_grows_prefix(st4, *self);
            lemma_typed_extend(st1.bindings(), s5, old(self).env(), *lhs, dl);
            lemma_typed_extend(st2.bindings(), s5, old(self).env(), *rhs, dr);
            let sig = binop_sig(op)->0;
            let a = TyV::Con(sig.0);
            assert(ty_view(expected_lhs) == a && ty_view(expected_rhs) == a);
            assert(ty_view(result) == TyV::Con(sig.1));
            assert(app(st4.bindings(), 0, a) == a);
            lemma_app_eq_extend(st4.bindings(), s5, ty_view(lt), a);
            assert(app(s5, 0, a) == a);
            assert(app(s5, 0, TyV::Con(sig.1)) == TyV::Con(sig.1));
            assert(binop_rule(s5, op, dl.ty, dr.ty, ty_view(result)));
        }
        Ok(result)
    }

    /// Checks a declaration, binding what it declares in the innermost
    /// scope.
    pub fn infer_decl(&mut self, decl: &Decl) -> (r: Result<(), TypeError>)
        requires
            old(self).wf(),
            old(self).env().len() > 0,
            decl_core(*decl),
        ensures
            scoped(*old(self), *final(self), r is Ok),
            r is Ok ==> final(self).env().drop_last() == old(self).env().drop_last() && keeps_names(
                old(self).env().last(),
                final(self).env().last(),
            ) && binds_all(final(self).env().last(), decl_binds(*decl)),
            decl.kind is Use ==> (r is Ok && final(self).env() == old(self).env()),
            literal_val(*decl) matches Some((x, c)) ==> (old(self).next() < u32::MAX && assoc(old(self).cons(), x)
                is None ==> (r is Ok && final(self).lookup_spec(x) == Some(SchemeV { vars: Seq::empty(), ty: TyV::Con(c) })
                && final(self).next() == old(self).next() + 1 && final(self).cons() == old(self).cons() && forall|y: Seq<char>|
                y != x ==> #[trigger] final(self).lookup_spec(y) == old(self).lookup_spec(y))),
            refused_form(*decl) ==> r is Err,
            var_val(*decl) matches Some((x, e)) ==> (r is Ok ==> exists|t: TyV|
                #[trigger] has_typing(final(self).bindings(), old(self).env(), e, t) && (final(self).lookup_spec(x) matches Some(
                    sc,
                ) && sc.ty == app(final(self).bindings(), 0, t) && app(final(self).bindings(), 0, sc.ty) == sc.ty)),
            var_val(*decl) matches Some((x, e)) ==> (r is Ok ==> forall|y: Seq<char>|
                y != x ==> #[trigger] final(self).lookup_spec(y) == old(self).lookup_spec(y)),
        decreases *decl, 5nat,
    {
        proof {
            assert(decreases_to!(*decl => decl.kind));
        }
        let span = decl.span;
        match &decl.kind {
            DeclKind::Val(p, e) => {
                let ghost pair: (Seq<char>, Seq<char>) = literal_val(*decl)->0;
                let ghost x = pair.0;
                let ghost c = pair.1;
                let ghost lit = literal_val(*decl) is Some && old(self).next() < u32::MAX && assoc(old(self).cons(), x)
                    is None;
                let ghost k = old(self).next();
                let ghost vv = var_val(*decl) is Some;
                let ghost vpair: (Seq<char>, Expr) = var_val(*decl)->0;
                let ghost vx = vpair.0;
                let expr_ty = self.infer_expr(e)?;
                let ghost st1 = *self;
                let (pat_ty, bs) = self.infer_pat(p)?;
                proof {
                    if lit {
                        let b = self.bindings();
                        assert(b == old(self).bindings());
                        assert(!keys(b).skip(0).contains(k)) by {
                            if keys(b).skip(0).contains(k) {
                                let j = choose|j: int| 0 <= j < keys(b).skip(0).len() && keys(b).skip(0)[j] == k;
                                assert(keys(b).skip(0)[j] == b[j].0);
                                assert(old(self).wf());
                            }
                        }
                        lemma_app_avoiding(b, 0, TyV::Var(k));
                        assert(ty_view(expr_ty) == TyV::Con(c));
                        assert(ty_view(pat_ty) == TyV::Var(k));
                        assert(app(b, 0, TyV::Con(c)) == TyV::Con(c));
                    }
                }
                self.unify_checked(&expr_ty, &pat_ty, span)?;
                let ghost s3 = self.bindings();
                proof {
                    if vv {
                        lemma_grows_prefix(st1, *self);
                        if !typing_form(e.kind) {
                            lemma_other_has_typing(st1.bindings(), old(self).env(), *e, ty_view(expr_ty));
                        }
                        let dd = choose|d: Typing| #[trigger] typed(st1.bindings(), old(self).env(), *e, d) && d.ty == ty_view(expr_ty);
                        lemma_typed_extend(st1.bindings(), s3, old(self).env(), *e, dd);
                        assert(has_typing(s3, old(self).env(), *e, ty_view(expr_ty)));
                        assert(var_val(*decl) == Some((vx, *e)));
                        lemma_resolved(s3, self.next() as nat, ty_view(expr_ty));
                    }
                }
                proof {
                    if lit {
                        assert(app(self.bindings(), 0, TyV::Con(c)) == TyV::Con(c));
                        assert(app(self.bindings(), 0, TyV::Var(k)) == TyV::Con(c));
                    }
                }
                let can_gen = is_syntactic_value(e);
                let ghost ns = names_of(bs@);
                let mut i: usize = 0;
                while i < bs.len()
                    invariant
                        i <= bs@.len(),
                        grows(*old(self), *self),
                        self.env().len() == old(self).env().len(),
                        old(self).env().len() > 0,
                        self.env().drop_last() == old(self).env().drop_last(),
                        keeps_names(old(self).env().last(), self.env().last()),
                        ns == names_of(bs@),
                        !(decl.kind is Use),
                        forall|j: int| 0 <= j < i ==> #[trigger] scope_lookup(self.env().last(), ns[j]) is Some,
                        lit == (literal_val(*decl) is Some && old(self).next() < u32::MAX && assoc(old(self).cons(), x)
                            is None),
                        literal_val(*decl) is Some ==> literal_val(*decl) == Some((x, c)),
                        vv == (var_val(*decl) is Some),
                        vv ==> {
                            &&& var_val(*decl) == Some((vx, *e))
                            &&& bs@.len() == 1
                            &&& ns[0] == vx
                            &&& self.bindings() == s3
                            &&& app(s3, 0, ty_view(bs@[0].1)) == app(s3, 0, ty_view(expr_ty))
                            &&& has_typing(s3, old(self).env(), *e, ty_view(expr_ty))
                            &&& app(s3, 0, app(s3, 0, ty_view(expr_ty))) == app(s3, 0, ty_view(expr_ty))
                            &&& i == 1 ==> (self.lookup_spec(vx) matches Some(sc) && sc.ty == app(s3, 0, ty_view(expr_ty)))
                        },
                        var_val(*decl) is Some ==> (var_val(*decl) == Some((vx, *e)) && ns[0] == vx && bs@.len() == 1 && forall|
                            y: Seq<char>,
                        | y != vx ==> #[trigger] self.lookup_spec(y) == old(self).lookup_spec(y)),
                        lit ==> {
                            &&& assoc(old(self).cons(), x) is None
                            &&& literal_val(*decl) == Some((x, c))
                            &&& bs@.len() == 1
                            &&& ty_view(bs@[0].1) == TyV::Var(k)
                            &&& app(self.bindings(), 0, TyV::Var(k)) == TyV::Con(c)
                            &&& self.cons() == old(self).cons()
                            &&& can_gen
                            &&& ns[0] == x
                            &&& i == 1 ==> self.lookup_spec(x) == Some(SchemeV { vars: Seq::empty(), ty: TyV::Con(c) })
                            &&& self.next() == k + 1
                            &&& forall|y: Seq<char>| y != x ==> #[trigger] self.lookup_spec(y) == old(self).lookup_spec(y)
                        },
                    decreases bs@.len() - i,
                {
                    let name = &bs[i].0;
                    proof {
                        assert(ns[i as int] == name@);
                    }
                    let found = self.constructor_scheme(name.as_str());
                    proof {
                        if lit {
                            assert(i == 0);
                            assert(name@ == x);
                            assert(assoc(self.cons(), x) is None);
                            assert(found is None);
                        }
                    }
                    if found.is_some() {
                        let mut m = to_string("cannot shadow constructor '");
                        push_str(&mut m, name.as_str());
                        push_str(&mut m, "' with a value binding");
                        return Err(self.err(m.as_str(), span));
                    }
                    let scheme = if can_gen {
                        self.generalize(&bs[i].1, false)
                    } else {
                        Scheme::mono(self.apply(&bs[i].1))
                    };
                    proof {
                        if lit {
                            assert(ty_view(scheme.ty) == TyV::Con(c));
                            assert(scheme.ty is Con);
                            assert(free_vars_of(scheme.ty) =~= Seq::<u32>::empty());
                            assert(scheme.vars@ =~= Seq::<u32>::empty());
                            assert(scheme_view(scheme) == SchemeV { vars: Seq::empty(), ty: TyV::Con(c) });
                        }
                    }
                    let ghost before = self.env().last();
                    self.bind(clone_string(name), scheme);
                    proof {
                        assert(ns[i as int] == name@);
                        assert forall|j: int| 0 <= j < i + 1 implies #[trigger] scope_lookup(
                            self.env().last(),
                            ns[j],
                        ) is Some by {
                            if ns[j] != name@ {
                                assert(scope_lookup(before, ns[j]) is Some);
                            }
                        }
                        assert forall|x: Seq<char>| #[trigger] scope_lookup(old(self).env().last(), x) is Some implies scope_lookup(
                            self.env().last(),
                            x,
                        ) is Some by {
                            if x != name@ {
                                assert(scope_lookup(before, x) is Some);
                            }
                        }
                    }
                    i = i + 1;
                }
                proof {
                    assert forall|j: int| 0 <= j < decl_binds(*decl).len() implies #[trigger] scope_lookup(
                        self.env().last(),
                        decl_binds(*decl)[j],
                    ) is Some by {
                        assert(decl_binds(*decl)[j] == ns[j]);
                    }
                    if vv && self_application(*e) {
                        law_self_application_has_no_typing(s3, old(self).env(), *e, ty_view(expr_ty));
                    }
                }
                Ok(())
            },
            DeclKind::ValRec(name, e) => {
                self.push_scope();
                let func_var = self.fresh_checked(span)?;
                self.bind(clone_string(name), Scheme::mono(func_var.duplicate()));
                let expr_ty = self.infer_expr(e)?;
                self.unify_checked(&func_var, &expr_ty, span)?;
                let scheme = self.generalize(&func_var, true);
                self.pop_scope();
                assert(self.env() == old(self).env());
                let ghost before = self.env().last();
                self.bind(clone_string(name), scheme);
                proof {
                    assert forall|x: Seq<char>| #[trigger] scope_lookup(old(self).env().last(), x) is Some implies scope_lookup(
                        self.env().last(),
                        x,
                    ) is Some by {
                        if x != name@ {
                            assert(scope_lookup(before, x) is Some);
                        }
                    }
                    assert(decl_binds(*decl)[0] == name@);
                }
                Ok(())
            },
            DeclKind::Fun(bs) => self.infer_fun_bindings(bs, Ghost(*decl)),
            DeclKind::Datatype(dt) => {
                if !self.datatype_fits(dt) {
                    return Err(self.err("type variable supply exhausted", span));
                }
                let ghost s0 = self.bindings();
                let ghost n0 = self.next() as nat;
                let r = self.register_datatype(dt);
                proof {
                    lemma_subst_ok_grow(s0, n0, self.next() as nat);
                }
                r
            },
            DeclKind::TypeAlias(ta) => {
                if !self.alias_fits(ta) {
                    return Err(self.err("type variable supply exhausted", span));
                }
                let ghost s0 = self.bindings();
                let ghost n0 = self.next() as nat;
                proof {
                    lemma_tyvar_resolve_bound(
                        ta.ty,
                        tyvar_naming(ta.tyvars@, n0),
                        n0 + ta.tyvars@.len(),
                        true,
                        self.aliases(),
                        self.arities(),
                    );
                }
                let r = self.register_type_alias(ta);
                proof {
                    lemma_subst_ok_grow(s0, n0, self.next() as nat);
                }
                r
            },
            DeclKind::Local(locals, body) => {
                let ghost base = self.env().len();
                let ghost e0 = self.env();
                self.push_scope();
                assert(decreases_to!(*decl => locals@));
                let mut i: usize = 0;
                while i < locals.len()
                    invariant
                        literal_val(*decl) is None,
                        i <= locals@.len(),
                        decls_core(locals@),
                        decreases_to!(*decl => locals@),
                        grows(*old(self), *self),
                        self.env().len() == base + 1,
                        base == old(self).env().len(),
                        e0 == old(self).env(),
                        self.env().drop_last() == e0,
                        !(decl.kind is Use),
                    decreases locals@.len() - i,
                {
                    assert(decreases_to!(locals@ => locals@[i as int]));
                    proof {
                        lemma_decls_core_at(locals@, i as int);
                    }
                    self.infer_decl(&locals[i])?;
                    i = i + 1;
                }
                let ghost e1 = self.env();
                self.push_scope();
                assert(decreases_to!(*decl => body@));
                let mut k: usize = 0;
                assert(body@.take(0) =~= Seq::<Decl>::empty());
                while k < body.len()
                    invariant
                        literal_val(*decl) is None,
                        k <= body@.len(),
                        decls_core(body@),
                        decreases_to!(*decl => body@),
                        grows(*old(self), *self),
                        self.env().len() == base + 2,
                        base == old(self).env().len(),
                        e0 == old(self).env(),
                        e1.drop_last() == e0,
                        e1.len() == base + 1,
                        self.env().drop_last() == e1,
                        !(decl.kind is Use),
                        binds_all(self.env().last(), decls_binds(body@.take(k as int))),
                    decreases body@.len() - k,
                {
                    assert(decreases_to!(body@ => body@[k as int]));
                    proof {
                        lemma_decls_core_at(body@, k as int);
                    }
                    let ghost before = self.env().last();
                    self.infer_decl(&body[k])?;
                    proof {
                        let pre = body@.take(k + 1);
                        assert(pre.drop_last() =~= body@.take(k as int));
                        assert(pre.last() == body@[k as int]);
                        lemma_binds_concat(self.env().last(), before, decls_binds(body@.take(k as int)), decl_binds(body@[k as int]));
                    }
                    k = k + 1;
                }
                assert(body@.take(body@.len() as int) =~= body@);
                let ghost l2 = self.env().last();
                let exported = self.take_scope();
                self.pop_scope();
                assert(self.env() == e0);
                let ghost sv = scope_view(exported@);
                let mut j: usize = 0;
                while j < exported.len()
                    invariant
                        j <= exported@.len(),
                        grows(*old(self), *self),
                        self.env().len() == base,
                        base == old(self).env().len(),
                        base > 0,
                        self.env().drop_last() == old(self).env().drop_last(),
                        keeps_names(old(self).env().last(), self.env().last()),
                        sv == scope_view(exported@),
                        forall|q: int| 0 <= q < j ==> #[trigger] scope_lookup(self.env().last(), sv[q].0) is Some,
                    decreases exported@.len() - j,
                {
                    let ghost before = self.env().last();
                    let ghost nm = exported@[j as int].0@;
                    assert(sv[j as int].0 == nm);
                    self.bind(clone_string(&exported[j].0), exported[j].1.duplicate());
                    proof {
                        assert forall|q: int| 0 <= q < j + 1 implies #[trigger] scope_lookup(self.env().last(), sv[q].0)
                            is Some by {
                            if sv[q].0 != nm {
                                assert(scope_lookup(before, sv[q].0) is Some);
                            }
                        }
                        assert forall|x: Seq<char>| #[trigger] scope_lookup(old(self).env().last(), x) is Some implies scope_lookup(
                            self.env().last(),
                            x,
                        ) is Some by {
                            if x != nm {
                                assert(scope_lookup(before, x) is Some);
                            }
                        }
                    }
                    j = j + 1;
                }
                proof {
                    assert(sv == l2);
                    assert forall|q: int| 0 <= q < decl_binds(*decl).len() implies #[trigger] scope_lookup(
                        self.env().last(),
                        decl_binds(*decl)[q],
                    ) is Some by {
                        let x = decl_binds(*decl)[q];
                        assert(scope_lookup(l2, x) is Some);
                        lemma_scope_lookup_some(l2, x);
                        let w = choose|w: int| 0 <= w < l2.len() && l2[w].0 == x;
                        assert(scope_lookup(self.env().last(), sv[w].0) is Some);
                    }
                }
                Ok(())
            },
            DeclKind::Use(_) => Ok(()),
            DeclKind::Signature(_) => {
                proof {
                    assert(false);
                }
                Ok(())
            },
            DeclKind::Structure { .. } => {
                proof {
                    assert(false);
                }
                Ok(())
            },
            DeclKind::Effect(name, payload) => {
                let arg_type = match payload {
                    Some(te) => self.resolve_checked(te, span)?,
                    None => Type::unit(),
                };
                let result_type = self.fresh_checked(span)?;
                self.declare_effect(clone_string(name), arg_type, result_type);
                Ok(())
            },
        }
    }

    /// Whether declaring `dt` stays within the supply of type variables.
    fn datatype_fits(&self, dt: &DatatypeDecl) -> (r: bool)
        ensures
            r == (self.next() + dt.tyvars@.len() <= u32::MAX && forall|i: int|
                0 <= i < dt.constructors@.len() ==> match (#[trigger] dt.constructors@[i]).payload {
                    Some(p) => self.next() + dt.tyvars@.len() + tyvar_count(p) <= u32::MAX,
                    None => true,
                }),
    {
        let room: u64 = (u32::MAX - self.next_var()) as u64;
        let k: u64 = dt.tyvars.len() as u64;
        if k > room {
            return false;
        }
        let left: u64 = room - k;
        let mut i: usize = 0;
        while i < dt.constructors.len()
            invariant
                i <= dt.constructors@.len(),
                left == u32::MAX - self.next() - dt.tyvars@.len(),
                forall|j: int|
                    0 <= j < i ==> match (#[trigger] dt.constructors@[j]).payload {
                        Some(p) => self.next() + dt.tyvars@.len() + tyvar_count(p) <= u32::MAX,
                        None => true,
                    },
            decreases dt.constructors@.len() - i,
        {
            match &dt.constructors[i].payload {
                Some(p) => {
                    let n = count_tyvars_upto(p, left + 1);
                    if n > left {
                        assert(match dt.constructors@[i as int].payload {
                            Some(q) => self.next() + dt.tyvars@.len() + tyvar_count(q) > u32::MAX,
                            None => false,
                        });
                        return false;
                    }
                },
                None => {},
            }
            i = i + 1;
        }
        true
    }

    /// Whether declaring `ta` stays within the supply of type variables.
    fn alias_fits(&self, ta: &TypeAliasDecl) -> (r: bool)
        ensures
            r == (self.next() + ta.tyvars@.len() + tyvar_count(ta.ty) <= u32::MAX),
    {
        let room: u64 = (u32::MAX - self.next_var()) as u64;
        let k: u64 = ta.tyvars.len() as u64;
        if k > room {
            return false;
        }
        let left: u64 = room - k;
        let n = count_tyvars_upto(&ta.ty, left + 1);
        n <= left
    }

    /// Checks a group of (possibly mutually recursive) function bindings.
    fn infer_fun_bindings(&mut self, bs: &Vec<FunBinding>, Ghost(outer): Ghost<Decl>) -> (r: Result<(), TypeError>)
        requires
            old(self).wf(),
            old(self).env().len() > 0,
            bindings_core(bs@),
            decreases_to!(outer => bs@),
        ensures
            scoped(*old(self), *final(self), r is Ok),
            r is Ok ==> final(self).env().drop_last() == old(self).env().drop_last() && keeps_names(
                old(self).env().last(),
                final(self).env().last(),
            ) && binds_all(final(self).env().last(), fun_names(bs@)),
            bs@.len() == 0 ==> r is Ok,
        decreases outer, 4nat,
    {
        let ghost base = self.env().len();
        self.push_scope();
        let mut func_vars: Vec<Type> = Vec::new();
        let mut i: usize = 0;
        while i < bs.len()
            invariant
                i <= bs@.len(),
                func_vars@.len() == i,
                grows(*old(self), *self),
                self.env().len() == base + 1,
                base == old(self).env().len(),
                self.env().drop_last() == old(self).env(),
            decreases bs@.len() - i,
        {
            let v = self.fresh_checked(bs[i].span)?;
            self.bind(clone_string(&bs[i].name), Scheme::mono(v.duplicate()));
            func_vars.push(v);
            i = i + 1;
        }
        let mut k: usize = 0;
        while k < bs.len()
            invariant
                k <= bs@.len(),
                func_vars@.len() == bs@.len(),
                bindings_core(bs@),
                decreases_to!(outer => bs@),
                grows(*old(self), *self),
                self.env().len() == base + 1,
                base == old(self).env().len(),
                self.env().drop_last() == old(self).env(),
            decreases bs@.len() - k,
        {
            assert(decreases_to!(bs@ => bs@[k as int]));
            proof {
                lemma_bindings_core_at(bs@, k as int);
            }
            let ft = self.infer_fun_binding(&bs[k], Ghost(outer))?;
            self.unify_checked(&func_vars[k], &ft, bs[k].span)?;
            k = k + 1;
        }
        let mut schemes: Vec<(String, Scheme)> = Vec::new();
        let mut j: usize = 0;
        while j < bs.len()
            invariant
                j <= bs@.len(),
                func_vars@.len() == bs@.len(),
                grows(*old(self), *self),
                self.env().len() == base + 1,
                base == old(self).env().len(),
                self.env().drop_last() == old(self).env(),
                schemes@.len() == j,
                forall|t: int| 0 <= t < j ==> #[trigger] schemes@[t].0@ == bs@[t].name@,
            decreases bs@.len() - j,
        {
            let scheme = self.generalize(&func_vars[j], true);
            schemes.push((clone_string(&bs[j].name), scheme));
            j = j + 1;
        }
        self.pop_scope();
        assert(self.env() == old(self).env());
        let ghost names = fun_names(bs@);
        let mut q: usize = 0;
        while q < schemes.len()
            invariant
                q <= schemes@.len(),
                schemes@.len() == bs@.len(),
                grows(*old(self), *self),
                self.env().len() == base,
                base == old(self).env().len(),
                base > 0,
                self.env().drop_last() == old(self).env().drop_last(),
                keeps_names(old(self).env().last(), self.env().last()),
                names == fun_names(bs@),
                forall|t: int| 0 <= t < schemes@.len() ==> #[trigger] schemes@[t].0@ == names[t],
                forall|t: int| 0 <= t < q ==> #[trigger] scope_lookup(self.env().last(), names[t]) is Some,
            decreases schemes@.len() - q,
        {
            let ghost before = self.env().last();
            let ghost nm = schemes@[q as int].0@;
            self.bind(clone_string(&schemes[q].0), schemes[q].1.duplicate());
            proof {
                assert forall|t: int| 0 <= t < q + 1 implies #[trigger] scope_lookup(self.env().last(), names[t])
                    is Some by {
                    if names[t] != nm {
                        assert(scope_lookup(before, names[t]) is Some);
                    }
                }
                assert forall|x: Seq<char>| #[trigger] scope_lookup(old(self).env().last(), x) is Some implies scope_lookup(
                    self.env().last(),
                    x,
                ) is Some by {
                    if x != nm {
                        assert(scope_lookup(before, x) is Some);
                    }
                }
            }
            q = q + 1;
        }
        Ok(())
    }

    /// The curried type of a function defined by clauses.
    fn infer_fun_binding(&mut self, b: &FunBinding, Ghost(outer): Ghost<Decl>) -> (r: Result<Type, TypeError>)
        requires
            old(self).wf(),
            old(self).env().len() > 0,
            b.clauses@.len() > 0,
            clauses_core(b.clauses@),
            decreases_to!(outer => *b),
        ensures
            scoped(*old(self), *final(self), r is Ok),
            r is Ok ==> final(self).env() == old(self).env(),
            r matches Ok(t) ==> ty_view(t) == curried(
                old(self).next() as nat,
                b.clauses@[0].pats@.len() as nat,
                (old(self).next() + b.clauses@[0].pats@.len()) as nat,
            ),
            r is Ok ==> exists|parts: Seq<Seq<Typing>>|
                #[trigger] typed_clauses(
                    final(self).bindings(),
                    old(self).env(),
                    b.clauses@,
                    arg_tys(old(self).next() as nat, b.clauses@[0].pats@.len() as nat),
                    TyV::Var((old(self).next() + b.clauses@[0].pats@.len()) as u32),
                    parts,
                ),
        decreases outer, 3nat,
    {
        let arity = b.clauses[0].pats.len();
        let ghost base = self.env().len();
        let ghost n0 = self.next() as nat;
        let mut arg_vars: Vec<Type> = Vec::new();
        let mut i: usize = 0;
        while i < arity
            invariant
                i <= arity,
                arg_vars@.len() == i,
                grows(*old(self), *self),
                self.env().len() == base,
                base == old(self).env().len(),
                self.env() == old(self).env(),
                n0 == old(self).next(),
                self.next() == n0 + i,
                forall|j: int| 0 <= j < i ==> #[trigger] arg_vars@[j] == Type::Var((n0 + j) as u32),
            decreases arity - i,
        {
            let v = self.fresh_checked(b.span)?;
            arg_vars.push(v);
            i = i + 1;
        }
        let result_var = self.fresh_checked(b.span)?;
        assert(decreases_to!(*b => b.clauses));
        assert(decreases_to!(b.clauses => b.clauses@));
        let ghost env = old(self).env();
        let ghost args = arg_tys(n0, arity as nat);
        let ghost rt = TyV::Var((n0 + arity) as u32);
        let ghost mut parts: Seq<Seq<Typing>> = Seq::empty();
        let mut c: usize = 0;
        while c < b.clauses.len()
            invariant
                c <= b.clauses@.len(),
                env == old(self).env(),
                args == arg_tys(n0, arity as nat),
                rt == TyV::Var((n0 + arity) as u32),
                typed_clauses(self.bindings(), env, b.clauses@.take(c as int), args, rt, parts),
                arg_vars@.len() == arity,
                clauses_core(b.clauses@),
                decreases_to!(outer => b.clauses@),
                forall|j: int| 0 <= j < c ==> (#[trigger] b.clauses@[j]).pats@.len() == arity,
                grows(*old(self), *self),
                self.env().len() == base,
                base == old(self).env().len(),
                base > 0,
                self.env() == old(self).env(),
                n0 == old(self).next(),
                n0 + arity < u32::MAX,
                forall|j: int| 0 <= j < arity ==> #[trigger] arg_vars@[j] == Type::Var((n0 + j) as u32),
                result_var == Type::Var((n0 + arity) as u32),
            decreases b.clauses@.len() - c,
        {
            let clause = &b.clauses[c];
            if clause.pats.len() != arity {
                return Err(self.err("clauses have different arities", clause.span));
            }
            assert(decreases_to!(b.clauses@ => b.clauses@[c as int]));
            assert(decreases_to!(b.clauses@[c as int] => b.clauses@[c as int].body));
            proof {
                lemma_clauses_core_at(b.clauses@, c as int);
            }
            let ghost c_start = *self;
            self.push_scope();
            let ghost mut ps: Seq<Typing> = Seq::empty();
            let ghost mut all_bs: Seq<(String, Type)> = Seq::empty();
            proof {
                assert(binds_concat(ps) =~= monos_view(all_bs));
            }
            let mut j: usize = 0;
            while j < arity
                invariant
                    j <= arity,
                    env == old(self).env(),
                    args == arg_tys(n0, arity as nat),
                    forall|q: int| 0 <= q < arity ==> #[trigger] arg_vars@[q] == Type::Var((n0 + q) as u32),
                    grows(c_start, *self),
                    ps.len() == j,
                    forall|k: int| 0 <= k < j ==> #[trigger] pat_typed(self.bindings(), clause.pats@[k], ps[k]) && app(
                        self.bindings(),
                        0,
                        ps[k].ty,
                    ) == app(self.bindings(), 0, args[k]),
                    binds_concat(ps) == monos_view(all_bs),
                    forall|x: Seq<char>| #[trigger] scope_lookup(self.env().last(), x) == after_monos(
                        all_bs,
                        x,
                        scope_lookup(Seq::<(Seq<char>, SchemeV)>::empty(), x),
                    ),
                    arity == clause.pats@.len(),
                    arg_vars@.len() == arity,
                    pats_core(clause.pats@),
                    grows(*old(self), *self),
                    self.env().len() == base + 1,
                    base == old(self).env().len(),
                    base > 0,
                    self.env().drop_last() == old(self).env(),
                decreases arity - j,
            {
                proof {
                    lemma_pats_core_at(clause.pats@, j as int);
                }
                let ghost cj = *self;
                let (pt, bs) = self.infer_pat(&clause.pats[j])?;
                let ghost cp = *self;
                self.unify_checked(&pt, &arg_vars[j], clause.pats[j].span)?;
                let ghost cu = *self;
                self.bind_monos(&bs);
                proof {
                    let s2 = self.bindings();
                    lemma_grows_prefix(cj, *self);
                    lemma_grows_prefix(cp, *self);
                    assert forall|k: int| 0 <= k < j implies #[trigger] pat_typed(s2, clause.pats@[k], ps[k]) && app(
                        s2,
                        0,
                        ps[k].ty,
                    ) == app(s2, 0, args[k]) by {
                        lemma_pat_typed_extend(cj.bindings(), s2, clause.pats@[k], ps[k]);
                        lemma_app_eq_extend(cj.bindings(), s2, ps[k].ty, args[k]);
                    }
                    let dp = choose|d: Typing| #[trigger] pat_typed(cp.bindings(), clause.pats@[j as int], d) && d.ty
                        == ty_view(pt) && d.binds == monos_view(bs@);
                    lemma_pat_typed_extend(cp.bindings(), s2, clause.pats@[j as int], dp);
                    assert(ty_view(arg_vars@[j as int]) == args[j as int]);
                    let nps = ps.push(dp);
                    let nbs = all_bs + bs@;
                    assert forall|k: int| 0 <= k < j + 1 implies #[trigger] pat_typed(s2, clause.pats@[k], nps[k]) && app(
                        s2,
                        0,
                        nps[k].ty,
                    ) == app(s2, 0, args[k]) by {
                        if k < j {
                            assert(nps[k] == ps[k]);
                        }
                    }
                    assert(nps.drop_last() =~= ps);
                    assert(monos_view(nbs) =~= monos_view(all_bs) + monos_view(bs@));
                    assert(binds_concat(nps) == binds_concat(ps) + dp.binds);
                    assert forall|x: Seq<char>| #[trigger] scope_lookup(self.env().last(), x) == after_monos(
                        nbs,
                        x,
                        scope_lookup(Seq::<(Seq<char>, SchemeV)>::empty(), x),
                    ) by {
                        lemma_after_monos_concat(all_bs, bs@, x, scope_lookup(Seq::<(Seq<char>, SchemeV)>::empty(), x));
                        assert(scope_lookup(cu.env().last(), x) == scope_lookup(cj.env().last(), x));
                    }
                    ps = nps;
                    all_bs = nbs;
                }
                j = j + 1;
            }
            let ghost cb = *self;
            let body_ty = self.infer_expr(&clause.body)?;
            let ghost cbody = *self;
            self.unify_checked(&body_ty, &result_var, clause.body.span)?;
            self.pop_scope();
            proof {
                let s2 = self.bindings();
                lemma_grows_prefix(cb, *self);
                lemma_grows_prefix(cbody, *self);
                lemma_grows_prefix(c_start, *self);
                assert(cb.env() == cb.env().drop_last().push(cb.env().last()));
                lemma_monos_env(env, cb.env(), all_bs);
                let binds = monos_view(all_bs);
                let cl = b.clauses@[c as int];
                assert(cl == *clause);
                if !typing_form(cl.body.kind) {
                    lemma_other_has_typing(cbody.bindings(), cb.env(), cl.body, ty_view(body_ty));
                }
                assert(has_typing(cbody.bindings(), cb.env(), cl.body, ty_view(body_ty)));
                let db = choose|d: Typing| #[trigger] typed(cbody.bindings(), cb.env(), cl.body, d) && d.ty == ty_view(body_ty);
                lemma_typed_env(cbody.bindings(), cb.env(), let_env(env, binds), cl.body, db);
                lemma_typed_extend(cbody.bindings(), s2, let_env(env, binds), cl.body, db);
                assert forall|k: int| 0 <= k < arity implies #[trigger] pat_typed(s2, cl.pats@[k], ps[k]) && app(
                    s2,
                    0,
                    ps[k].ty,
                ) == app(s2, 0, args[k]) by {
                    lemma_pat_typed_extend(cb.bindings(), s2, cl.pats@[k], ps[k]);
                    lemma_app_eq_extend(cb.bindings(), s2, ps[k].ty, args[k]);
                }
                let cps = ps.push(db);
                assert(cps.take(arity as int) =~= ps);
                assert forall|k: int| 0 <= k < arity implies #[trigger] pat_typed(s2, cl.pats@[k], cps[k]) && app(
                    s2,
                    0,
                    cps[k].ty,
                ) == app(s2, 0, args[k]) by {
                    assert(cps[k] == ps[k]);
                }
                assert(ty_view(result_var) == rt);
                assert(clause_typed(s2, env, cl, args, rt, cps));
                lemma_typed_clauses_extend(c_start.bindings(), s2, env, b.clauses@.take(c as int), args, rt, parts);
                let nparts = parts.push(cps);
                assert forall|i: int| 0 <= i < c + 1 implies #[trigger] clause_typed(
                    s2,
                    env,
                    b.clauses@.take(c + 1)[i],
                    args,
                    rt,
                    nparts[i],
                ) by {
                    if i < c {
                        assert(b.clauses@.take(c + 1)[i] == b.clauses@.take(c as int)[i]);
                        assert(nparts[i] == parts[i]);
                    }
                }
                parts = nparts;
            }
            c = c + 1;
        }
        let ghost s_end = self.bindings();
        assert(b.clauses@.take(b.clauses@.len() as int) =~= b.clauses@);
        assert(typed_clauses(s_end, env, b.clauses@, args, rt, parts));
        if arity == 1 {
            let resolved = self.apply(&arg_vars[0]);
            let info = self.type_info_for(&resolved);
            let mut pats: Vec<&Pat> = Vec::new();
            let mut q: usize = 0;
            while q < b.clauses.len()
                invariant
                    q <= b.clauses@.len(),
                    forall|j: int| 0 <= j < b.clauses@.len() ==> (#[trigger] b.clauses@[j]).pats@.len() == 1,
                decreases b.clauses@.len() - q,
            {
                pats.push(&b.clauses[q].pats[0]);
                q = q + 1;
            }
            self.check_exhaustiveness(pats.as_slice(), &info, b.span)?;
        } else {
            let mut elems: Vec<Type> = Vec::new();
            let mut q: usize = 0;
            while q < arg_vars.len()
                invariant
                    q <= arg_vars@.len(),
                decreases arg_vars@.len() - q,
            {
                elems.push(self.apply(&arg_vars[q]));
                q = q + 1;
            }
            let info = self.type_info_for(&Type::Tuple(elems));
            let mut tuple_pats: Vec<Pat> = Vec::new();
            let mut t: usize = 0;
            while t < b.clauses.len()
                invariant
                    t <= b.clauses@.len(),
                decreases b.clauses@.len() - t,
            {
                let clause = &b.clauses[t];
                let mut ps: Vec<Pat> = Vec::new();
                let mut u: usize = 0;
                while u < clause.pats.len()
                    invariant
                        u <= clause.pats@.len(),
                    decreases clause.pats@.len() - u,
                {
                    ps.push(copy_pat(&clause.pats[u]));
                    u = u + 1;
                }
                tuple_pats.push(Pat { kind: PatKind::Tuple(ps), span: clause.span });
                t = t + 1;
            }
            let mut refs: Vec<&Pat> = Vec::new();
            let mut w: usize = 0;
            while w < tuple_pats.len()
                invariant
                    w <= tuple_pats@.len(),
                decreases tuple_pats@.len() - w,
            {
                refs.push(&tuple_pats[w]);
                w = w + 1;
            }
            self.check_exhaustiveness(refs.as_slice(), &info, b.span)?;
        }
        let mut ty = result_var;
        let mut k: usize = arity;
        while k > 0
            invariant
                k <= arity,
                arg_vars@.len() == arity,
                n0 + arity < u32::MAX,
                forall|j: int| 0 <= j < arity ==> #[trigger] arg_vars@[j] == Type::Var((n0 + j) as u32),
                ty_view(ty) == curried((n0 + k) as nat, (arity - k) as nat, (n0 + arity) as nat),
            decreases k,
        {
            k = k - 1;
            ty = Type::arrow(arg_vars[k].duplicate(), ty);
        }
        assert(self.bindings() == s_end);
        assert(typed_clauses(self.bindings(), env, b.clauses@, args, rt, parts));
        Ok(ty)
    }

    /// Checks each declaration of a program in turn.
    pub fn infer_program(&mut self, program: &Program) -> (r: Result<(), TypeError>)
        requires
            old(self).wf(),
            old(self).env().len() > 0,
            decls_core(program.decls@),
        ensures
            scoped(*old(self), *final(self), r is Ok),
            r is Ok ==> final(self).env().drop_last() == old(self).env().drop_last() && keeps_names(
                old(self).env().last(),
                final(self).env().last(),
            ) && binds_all(final(self).env().last(), decls_binds(program.decls@)),
            program.decls@.len() == 0 ==> r is Ok,
            (forall|k: int| 0 <= k < program.decls@.len() ==> (#[trigger] program.decls@[k]).kind is Use) ==> (r is Ok
                && final(self).env() == old(self).env()),
            (exists|k: int| 0 <= k < program.decls@.len() && refused_form(#[trigger] program.decls@[k])) ==> r is Err,
            (var_program(program.decls@) && r is Ok) ==> forall|k: int|
                0 <= k < program.decls@.len() && binds_last_var(program.decls@, k, program.decls@.len() as int)
                    ==> bound_as_typed(
                    final(self).bindings(),
                    final(self).lookup_spec(vname(#[trigger] program.decls@[k])),
                    vexpr(program.decls@[k]),
                ),
            (literal_program(program.decls@, old(self).cons()) && old(self).next() + program.decls@.len() < u32::MAX)
                ==> (r is Ok && forall|k: int|
                0 <= k < program.decls@.len() && binds_last(program.decls@, k, program.decls@.len() as int)
                    ==> final(self).lookup_spec(lit_name(#[trigger] program.decls@[k])) == Some(
                    SchemeV { vars: Seq::empty(), ty: TyV::Con(lit_con(program.decls@[k])) },
                )),
    {
        let ghost lp = literal_program(program.decls@, old(self).cons()) && old(self).next() + program.decls@.len()
            < u32::MAX;
        let mut i: usize = 0;
        assert(program.decls@.take(0) =~= Seq::<Decl>::empty());
        while i < program.decls.len()
            invariant
                i <= program.decls@.len(),
                decls_core(program.decls@),
                grows(*old(self), *self),
                self.env().len() == old(self).env().len(),
                old(self).env().len() > 0,
                self.env().drop_last() == old(self).env().drop_last(),
                keeps_names(old(self).env().last(), self.env().last()),
                binds_all(self.env().last(), decls_binds(program.decls@.take(i as int))),
                (forall|k: int| 0 <= k < program.decls@.len() ==> (#[trigger] program.decls@[k]).kind is Use) ==> self.env()
                    == old(self).env(),
                lp == (literal_program(program.decls@, old(self).cons()) && old(self).next() + program.decls@.len()
                    < u32::MAX),
                lp ==> self.next() == old(self).next() + i,
                forall|k: int| 0 <= k < i ==> !refused_form(#[trigger] program.decls@[k]),
                var_program(program.decls@) ==> forall|k: int|
                    0 <= k < i && binds_last_var(program.decls@, k, i as int) ==> bound_as_typed(
                        self.bindings(),
                        self.lookup_spec(vname(#[trigger] program.decls@[k])),
                        vexpr(program.decls@[k]),
                    ),
                lp ==> self.cons() == old(self).cons(),
                lp ==> forall|k: int|
                    0 <= k < i && binds_last(program.decls@, k, i as int) ==> self.lookup_spec(
                        lit_name(#[trigger] program.decls@[k]),
                    ) == Some(SchemeV { vars: Seq::empty(), ty: TyV::Con(lit_con(program.decls@[k])) }),
            decreases program.decls@.len() - i,
        {
            proof {
                lemma_decls_core_at(program.decls@, i as int);
            }
            let ghost before = self.env().last();
            let ghost pre = *self;
            proof {
                if lp {
                    assert(literal_val(program.decls@[i as int]) is Some);
                    assert(assoc(old(self).cons(), lit_name(program.decls@[i as int])) is None);
                }
            }
            self.infer_decl(&program.decls[i])?;
            proof {
                if var_program(program.decls@) {
                    let d = program.decls@[i as int];
                    assert(var_val(d) is Some);
                    assert(var_val(d) == Some((vname(d), vexpr(d))));
                    let s2 = self.bindings();
                    lemma_grows_prefix(pre, *self);
                    assert forall|k: int|
                        0 <= k < i + 1 && binds_last_var(program.decls@, k, i + 1) implies bound_as_typed(
                        s2,
                        self.lookup_spec(vname(#[trigger] program.decls@[k])),
                        vexpr(program.decls@[k]),
                    ) by {
                        let dk = program.decls@[k];
                        if k < i {
                            assert(vname(program.decls@[i as int]) != vname(dk));
                            assert(binds_last_var(program.decls@, k, i as int));
                            assert(bound_as_typed(pre.bindings(), pre.lookup_spec(vname(dk)), vexpr(dk)));
                            let (env, t) = choose|env: Seq<Seq<(Seq<char>, SchemeV)>>, t: TyV|
                                #[trigger] has_typing(pre.bindings(), env, vexpr(dk), t) && (pre.lookup_spec(vname(dk)) matches Some(sc)
                                    && app(pre.bindings(), 0, sc.ty) == app(pre.bindings(), 0, t));
                            let dd = choose|dd: Typing| #[trigger] typed(pre.bindings(), env, vexpr(dk), dd) && dd.ty == t;
                            lemma_typed_extend(pre.bindings(), s2, env, vexpr(dk), dd);
                            assert(has_typing(s2, env, vexpr(dk), t));
                            assert(self.lookup_spec(vname(dk)) == pre.lookup_spec(vname(dk)));
                            let sc = pre.lookup_spec(vname(dk))->0;
                            lemma_app_eq_extend(pre.bindings(), s2, sc.ty, t);
                        } else {
                            let env = pre.env();
                            let t = choose|t: TyV|
                                #[trigger] has_typing(s2, env, vexpr(d), t) && (self.lookup_spec(vname(d)) matches Some(sc)
                                    && sc.ty == app(s2, 0, t) && app(s2, 0, sc.ty) == sc.ty);
                            assert(has_typing(s2, env, vexpr(d), t));
                        }
                    }
                }
                if lp {
                    let d = program.decls@[i as int];
                    assert(literal_val(d) == Some((lit_name(d), lit_con(d))));
                    assert forall|k: int|
                        0 <= k < i + 1 && binds_last(program.decls@, k, i + 1) implies self.lookup_spec(
                        lit_name(#[trigger] program.decls@[k]),
                    ) == Some(SchemeV { vars: Seq::empty(), ty: TyV::Con(lit_con(program.decls@[k])) }) by {
                        if k < i {
                            assert(lit_name(program.decls@[i as int]) != lit_name(program.decls@[k]));
                            assert(binds_last(program.decls@, k, i as int));
                        }
                    }
                }
            }
            proof {
                let pre = program.decls@.take(i + 1);
                assert(pre.drop_last() =~= program.decls@.take(i as int));
                assert(pre.last() == program.decls@[i as int]);
                lemma_binds_concat(
                    self.env().last(),
                    before,
                    decls_binds(program.decls@.take(i as int)),
                    decl_binds(program.decls@[i as int]),
                );
            }
            i = i + 1;
        }
        assert(program.decls@.take(program.decls@.len() as int) =~= program.decls@);
        Ok(())
    }
}


// ── Checking that a program is desugared ───────────────────────────────

/// Whether `p` meets `pat_core`.
pub fn check_pat_core(p: &Pat) -> (r: bool)
    ensures
        r == pat_core(*p),
    decreases *p, 1nat,
{
    proof {
        assert(decreases_to!(*p => p.kind));
    }
    match &p.kind {
        PatKind::List(ps) => ps.len() == 0,
        PatKind::Tuple(ps) => check_pats_core(ps, Ghost(ps@)),
        PatKind::Cons(h, t) => check_pat_core(h) && check_pat_core(t),
        PatKind::Constructor(_, Some(q)) => check_pat_core(q),
        PatKind::Ann(q, _) => check_pat_core(q),
        PatKind::As(_, q) => check_pat_core(q),
        PatKind::Paren(q) => check_pat_core(q),
        _ => true,
    }
}

fn check_pats_core(ps: &Vec<Pat>, Ghost(outer): Ghost<Seq<Pat>>) -> (r: bool)
    requires
        outer == ps@,
    ensures
        r == pats_core(ps@),
    decreases outer, 0nat,
{
    let mut ok = true;
    let mut i: usize = 0;
    while i < ps.len()
        invariant
            i <= ps@.len(),
            outer == ps@,
            ok == pats_core(ps@.take(i as int)),
        decreases ps@.len() - i,
    {
        assert(decreases_to!(ps@ => ps@[i as int]));
        let b = check_pat_core(&ps[i]);
        proof {
            let pre = ps@.take(i + 1);
            assert(pre.drop_last() =~= ps@.take(i as int));
            assert(pre.last() == ps@[i as int]);
        }
        ok = ok && b;
        i = i + 1;
    }
    assert(ps@.take(ps@.len() as int) =~= ps@);
    ok
}

/// Whether `e` meets `expr_core`.
pub fn check_expr_core(e: &Expr) -> (r: bool)
    ensures
        r == expr_core(*e),
    decreases *e, 1nat,
{
    proof {
        assert(decreases_to!(*e => e.kind));
    }
    match &e.kind {
        ExprKind::List(xs) => xs.len() == 0,
        ExprKind::Not(_) => false,
        ExprKind::BinOp(op, l, r) => {
            let plain = match op {
                BinOp::Andalso | BinOp::Orelse => false,
                _ => true,
            };
            plain && check_expr_core(l) && check_expr_core(r)
        },
        ExprKind::Tuple(xs) => check_exprs_core(xs, Ghost(xs@)),
        ExprKind::Cons(h, t) => check_expr_core(h) && check_expr_core(t),
        ExprKind::UnaryNeg(x) => check_expr_core(x),
        ExprKind::App(f, x) => check_expr_core(f) && check_expr_core(x),
        ExprKind::Fn(p, b) => check_pat_core(p) && check_expr_core(b),
        ExprKind::If(c, t, f) => check_expr_core(c) && check_expr_core(t) && check_expr_core(f),
        ExprKind::Let(ds, b) => check_decls_core(ds, Ghost(ds@)) && check_expr_core(b),
        ExprKind::Case(x, arms) => {
            let a = check_expr_core(x);
            let mut ok = true;
            let mut i: usize = 0;
            proof {
                assert(decreases_to!(*e => arms@));
            }
            while i < arms.len()
                invariant
                    i <= arms@.len(),
                    decreases_to!(*e => arms@),
                    ok == arms_core(arms@.take(i as int)),
                decreases arms@.len() - i,
            {
                assert(decreases_to!(arms@ => arms@[i as int]));
                let b = check_pat_core(&arms[i].0) && check_expr_core(&arms[i].1);
                proof {
                    let pre = arms@.take(i + 1);
                    assert(pre.drop_last() =~= arms@.take(i as int));
                    assert(pre.last() == arms@[i as int]);
                }
                ok = ok && b;
                i = i + 1;
            }
            assert(arms@.take(arms@.len() as int) =~= arms@);
            a && ok
        },
        ExprKind::Ann(x, _) => check_expr_core(x),
        ExprKind::Paren(x) => check_expr_core(x),
        ExprKind::Perform(_, x) => check_expr_core(x),
        ExprKind::Handle { body, return_var: _, return_body, handlers } => {
            let a = check_expr_core(body);
            let b = check_expr_core(return_body);
            let mut ok = true;
            let mut i: usize = 0;
            proof {
                assert(decreases_to!(*e => handlers@));
            }
            while i < handlers.len()
                invariant
                    i <= handlers@.len(),
                    decreases_to!(*e => handlers@),
                    ok == handlers_core(handlers@.take(i as int)),
                decreases handlers@.len() - i,
            {
                assert(decreases_to!(handlers@ => handlers@[i as int]));
                let c = check_expr_core(&handlers[i].body);
                proof {
                    let pre = handlers@.take(i + 1);
                    assert(pre.drop_last() =~= handlers@.take(i as int));
                    assert(pre.last() == handlers@[i as int]);
                }
                ok = ok && c;
                i = i + 1;
            }
            assert(handlers@.take(handlers@.len() as int) =~= handlers@);
            a && b && ok
        },
        ExprKind::Resume(c, x) => check_expr_core(c) && check_expr_core(x),
        _ => true,
    }
}

fn check_exprs_core(xs: &Vec<Expr>, Ghost(outer): Ghost<Seq<Expr>>) -> (r: bool)
    requires
        outer == xs@,
    ensures
        r == exprs_core(xs@),
    decreases outer, 0nat,
{
    let mut ok = true;
    let mut i: usize = 0;
    while i < xs.len()
        invariant
            i <= xs@.len(),
            outer == xs@,
            ok == exprs_core(xs@.take(i as int)),
        decreases xs@.len() - i,
    {
        assert(decreases_to!(xs@ => xs@[i as int]));
        let b = check_expr_core(&xs[i]);
        proof {
            let pre = xs@.take(i + 1);
            assert(pre.drop_last() =~= xs@.take(i as int));
            assert(pre.last() == xs@[i as int]);
        }
        ok = ok && b;
        i = i + 1;
    }
    assert(xs@.take(xs@.len() as int) =~= xs@);
    ok
}

fn check_decls_core(ds: &Vec<Decl>, Ghost(outer): Ghost<Seq<Decl>>) -> (r: bool)
    requires
        outer == ds@,
    ensures
        r == decls_core(ds@),
    decreases outer, 0nat,
{
    let mut ok = true;
    let mut i: usize = 0;
    while i < ds.len()
        invariant
            i <= ds@.len(),
            outer == ds@,
            ok == decls_core(ds@.take(i as int)),
        decreases ds@.len() - i,
    {
        assert(decreases_to!(ds@ => ds@[i as int]));
        let b = check_decl_core(&ds[i]);
        proof {
            let pre = ds@.take(i + 1);
            assert(pre.drop_last() =~= ds@.take(i as int));
            assert(pre.last() == ds@[i as int]);
        }
        ok = ok && b;
        i = i + 1;
    }
    assert(ds@.take(ds@.len() as int) =~= ds@);
    ok
}

/// Whether `d` meets `decl_core`, so that its types can be inferred.
pub fn check_decl_core(d: &Decl) -> (r: bool)
    ensures
        r == decl_core(*d),
    decreases *d, 1nat,
{
    proof {
        assert(decreases_to!(*d => d.kind));
    }
    match &d.kind {
        DeclKind::Signature(_) => false,
        DeclKind::Structure { .. } => false,
        DeclKind::Val(p, e) => check_pat_core(p) && check_expr_core(e),
        DeclKind::ValRec(_, e) => check_expr_core(e),
        DeclKind::Fun(bs) => {
            let mut ok = true;
            let mut i: usize = 0;
            proof {
                assert(decreases_to!(*d => bs@));
            }
            while i < bs.len()
                invariant
                    i <= bs@.len(),
                    decreases_to!(*d => bs@),
                    ok == bindings_core(bs@.take(i as int)),
                decreases bs@.len() - i,
            {
                assert(decreases_to!(bs@ => bs@[i as int]));
                let cs = &bs[i].clauses;
                proof {
                    assert(decreases_to!(bs@[i as int] => cs@));
                }
                let n = cs.len();
                let mut cok = true;
                let mut j: usize = 0;
                while j < n
                    invariant
                        j <= n,
                        n == cs@.len(),
                        decreases_to!(*d => bs@),
                        decreases_to!(bs@ => bs@[i as int]),
                        decreases_to!(bs@[i as int] => cs@),
                        cok == clauses_core(cs@.take(j as int)),
                    decreases n - j,
                {
                    assert(decreases_to!(cs@ => cs@[j as int]));
                    let c = check_pats_core(&cs[j].pats, Ghost(cs@[j as int].pats@)) && check_expr_core(&cs[j].body);
                    proof {
                        let pre = cs@.take(j + 1);
                        assert(pre.drop_last() =~= cs@.take(j as int));
                        assert(pre.last() == cs@[j as int]);
                    }
                    cok = cok && c;
                    j = j + 1;
                }
                assert(cs@.take(n as int) =~= cs@);
                proof {
                    let pre = bs@.take(i + 1);
                    assert(pre.drop_last() =~= bs@.take(i as int));
                    assert(pre.last() == bs@[i as int]);
                }
                ok = ok && n > 0 && cok;
                i = i + 1;
            }
            assert(bs@.take(bs@.len() as int) =~= bs@);
            ok
        },
        DeclKind::Local(ls, body) => check_decls_core(ls, Ghost(ls@)) && check_decls_core(body, Ghost(body@)),
        _ => true,
    }
}

/// Whether every declaration of `program` meets `decl_core`.
pub fn check_program_core(program: &Program) -> (r: bool)
    ensures
        r == decls_core(program.decls@),
{
    check_decls_core(&program.decls, Ghost(program.decls@))
}

} // verus!
