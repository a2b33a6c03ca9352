//! The type-inference context: its environment of bindings, seeded with the
//! builtins' types.
use vstd::prelude::*;
use crate::builtins::builtin_type_signatures;
use crate::syntax::ast::{TypeExpr, TypeExprKind};
use crate::syntax::span::Span;
use crate::text::{push_str, str_eq, string_eq, to_string};
use crate::syntax::pretty::{digits, push_digits};
use crate::types::assoc::{
    assoc, assoc_put, first_at, absent, find_key, lemma_assoc_first, lemma_assoc_absent,
    lemma_assoc_put_first, lemma_assoc_put_absent, lemma_assoc_put_get, put_key,
};
use crate::syntax::ast::{ConDecl, DatatypeDecl, TypeAliasDecl};
use crate::types::exhaustive::{
    adt_ti, bool_ti, check_match, clause_rows, dt_view, infinite_ti, list_ti, match_exhaustive, pats_of,
    redundant_upto, tags_view, tuple_ti, unit_ti, TypeInfo, TI, clause_redundant,
};
use crate::syntax::ast::{BinOp, Decl, DeclKind, Expr, ExprKind, FunBinding, Pat, PatKind, Program};
use crate::types::ty::{
    Scheme, SchemeV, TyV, Type, scheme_view, ty_view, tys_view, lemma_tys_push, lemma_tys_view_index,
    show, free_vars_of, lemma_collect_vars, contains_u32,
};
use crate::types::subst::{
    app, app_list, keys, avoids, avoids_all, below, below_all, occurs_v, occurs_vs, tsize, tsizes,
    subst_ok, acyclic, lemma_app_avoiding, lemma_app_list_avoiding, lemma_app_resolves,
    lemma_app_list_resolves, lemma_app_past_end, lemma_app_compose, lemma_app_list_compose,
    lemma_distinct_below, lemma_app_below, lemma_avoids_push, lemma_avoids_empty, lemma_list_index,
    lemma_app_list_index, lemma_occurs_vs_index, lemma_resolved, lookup_last, subst_vars,
    subst_vars_list, fresh_map, lemma_push_contains,
};
use crate::builtins::{builtin_table, signed_builtins, signed_view, SignatureView};
use crate::types::sigtext::{sig_type, signature_type};

verus! {

/// A type error with its message and location.
#[derive(Debug, Clone)]
pub struct TypeError {
    pub message: String,
    pub span: Span,
}

/// A warning (such as a redundant clause) with its location.
#[derive(Debug, Clone)]
pub struct Warning {
    pub message: String,
    pub span: Span,
}

/// The inference context: the next fresh type variable, the scopes of
/// bindings (innermost last), and the arities of the known type
/// constructors.
pub struct InferCtx {
    subst: Vec<(u32, Type)>,
    next_var: u32,
    scopes: Vec<Vec<(String, Scheme)>>,
    type_arities: Vec<(String, usize)>,
    constructors: Vec<(String, Scheme)>,
    type_aliases: Vec<(String, (Vec<u32>, Type))>,
    constructor_tags: Vec<(String, u16)>,
    datatype_constructors: Vec<(String, Vec<(String, usize)>)>,
    effect_sigs: Vec<(String, (Type, Type))>,
    pub expr_types: Vec<(Span, Type)>,
    pub warnings: Vec<Warning>,
}

pub open spec fn scope_view(sc: Seq<(String, Scheme)>) -> Seq<(Seq<char>, SchemeV)> {
    sc.map_values(|e: (String, Scheme)| (e.0@, scheme_view(e.1)))
}

/// Every name that scope `a` binds, scope `b` binds too.
pub open spec fn keeps_names(a: Seq<(Seq<char>, SchemeV)>, b: Seq<(Seq<char>, SchemeV)>) -> bool {
    forall|x: Seq<char>| #[trigger] scope_lookup(a, x) is Some ==> scope_lookup(b, x) is Some
}

/// The binding of `name` in one scope (its first entry for that name).
pub open spec fn scope_lookup(sc: Seq<(Seq<char>, SchemeV)>, name: Seq<char>) -> Option<SchemeV>
    decreases sc.len(),
{
    if sc.len() == 0 {
        None
    } else if sc[0].0 == name {
        Some(sc[0].1)
    } else {
        scope_lookup(sc.drop_first(), name)
    }
}

/// The binding of `name` in the innermost scope that has one.
pub open spec fn env_lookup(env: Seq<Seq<(Seq<char>, SchemeV)>>, name: Seq<char>) -> Option<SchemeV>
    decreases env.len(),
{
    if env.len() == 0 {
        None
    } else {
        match scope_lookup(env.last(), name) {
            Some(s) => Some(s),
            None => env_lookup(env.drop_last(), name),
        }
    }
}

impl InferCtx {
    /// The scopes, innermost last.
    pub closed spec fn env(&self) -> Seq<Seq<(Seq<char>, SchemeV)>> {
        self.scopes@.map_values(|sc: Vec<(String, Scheme)>| scope_view(sc@))
    }

    /// The next fresh type variable.
    pub closed spec fn next(&self) -> u32 {
        self.next_var
    }

    /// The bindings of type variables made so far, oldest first.
    pub closed spec fn bindings(&self) -> Seq<(u32, TyV)> {
        self.subst@.map_values(|e: (u32, Type)| (e.0, ty_view(e.1)))
    }

    /// The context's substitution is acyclic, binds each variable once, and
    /// mentions only variables below the next fresh one.
    pub open spec fn wf(&self) -> bool {
        subst_ok(self.bindings(), self.next() as nat)
    }

    /// The arities of the known type constructors.
    pub closed spec fn arities(&self) -> Seq<(Seq<char>, usize)> {
        self.type_arities@.map_values(|e: (String, usize)| (e.0@, e.1))
    }

    /// The type aliases: each name with its parameters and body.
    pub closed spec fn aliases(&self) -> Seq<(Seq<char>, (Seq<u32>, TyV))> {
        self.type_aliases@.map_values(|e: (String, (Vec<u32>, Type))| (e.0@, (e.1.0@, ty_view(e.1.1))))
    }

    /// The datatype constructors with their schemes.
    pub closed spec fn cons(&self) -> Seq<(Seq<char>, SchemeV)> {
        self.constructors@.map_values(|e: (String, Scheme)| (e.0@, scheme_view(e.1)))
    }

    /// Each constructor's position in its datatype.
    pub closed spec fn tags(&self) -> Seq<(Seq<char>, u16)> {
        self.constructor_tags@.map_values(|e: (String, u16)| (e.0@, e.1))
    }

    /// Each datatype's constructors with their arities.
    pub closed spec fn dt_cons(&self) -> Seq<(Seq<char>, Seq<(Seq<char>, usize)>)> {
        self.datatype_constructors@.map_values(
            |e: (String, Vec<(String, usize)>)|
                (e.0@, e.1@.map_values(|c: (String, usize)| (c.0@, c.1))),
        )
    }

    /// The constructor lists of the datatypes, as exhaustiveness checking
    /// reads them.
    pub closed spec fn dt_sets(&self) -> Seq<Seq<(Seq<char>, usize)>> {
        dt_view(self.datatype_constructors@)
    }

    /// The warnings recorded so far.
    pub closed spec fn warns(&self) -> Seq<Warning> {
        self.warnings@
    }

    /// The scheme bound to `name`.
    pub open spec fn lookup_spec(&self, name: Seq<char>) -> Option<SchemeV> {
        env_lookup(self.env(), name)
    }

    /// Binds `name` in the innermost scope, replacing an earlier binding of
    /// it there.
    pub fn bind(&mut self, name: String, scheme: Scheme)
        requires
            old(self).env().len() > 0,
        ensures
            final(self).env().len() == old(self).env().len(),
            final(self).next() == old(self).next(),
            final(self).arities() == old(self).arities(),
            final(self).bindings() == old(self).bindings(),
            final(self).aliases() == old(self).aliases(),
            final(self).cons() == old(self).cons(),
            final(self).tags() == old(self).tags(),
            final(self).dt_cons() == old(self).dt_cons(),
            final(self).lookup_spec(name@) == Some(scheme_view(scheme)),
            forall|other: Seq<char>|
                other != name@ ==> #[trigger] final(self).lookup_spec(other) == old(
                    self,
                ).lookup_spec(other),
            final(self).env().drop_last() == old(self).env().drop_last(),
            scope_lookup(final(self).env().last(), name@) == Some(scheme_view(scheme)),
            forall|other: Seq<char>|
                other != name@ ==> #[trigger] scope_lookup(final(self).env().last(), other) == scope_lookup(
                    old(self).env().last(),
                    other,
                ),
    {
        let ghost old_env = self.env();
        let last = self.scopes.len() - 1;
        let mut scope = match self.scopes.pop() {
            Some(sc) => sc,
            None => Vec::new(),
        };
        let ghost sv = scope_view(scope@);
        assert(sv == old_env[last as int]);
        let mut i: usize = 0;
        let mut found = false;
        while i < scope.len() && !found
            invariant
                i <= scope@.len(),
                sv == scope_view(scope@),
                found ==> i < scope@.len() && scope@[i as int].0@ == name@,
                forall|j: int| 0 <= j < i ==> scope@[j].0@ != name@,
            decreases scope@.len() - i, if found { 0int } else { 1int },
        {
            if string_eq(&scope[i].0, &name) {
                found = true;
            } else {
                i = i + 1;
            }
        }
        let ghost sview = scheme_view(scheme);
        let ghost nm = name@;
        proof {
            assert forall|j: int| 0 <= j < i implies sv[j].0 != nm by {
                assert(sv[j].0 == scope@[j].0@);
            }
        }
        if found {
            assert(sv[i as int].0 == nm);
            scope.set(i, (name, scheme));
            proof {
                assert(scope_view(scope@) =~= sv.update(i as int, (nm, sview)));
                lemma_scope_set(sv, i as int, nm, sview);
            }
        } else {
            scope.push((name, scheme));
            proof {
                assert(scope_view(scope@) =~= sv.push((nm, sview)));
                lemma_scope_push(sv, nm, sview);
            }
        }
        let ghost new_sv = scope_view(scope@);
        self.scopes.push(scope);
        proof {
            assert(self.env() =~= old_env.update(last as int, new_sv));
            assert(self.env().drop_last() =~= old_env.drop_last());
            assert(self.env().last() == new_sv);
            lemma_env_update_last(old_env, new_sv, nm);
            assert forall|other: Seq<char>| other != nm implies #[trigger] self.lookup_spec(other)
                == env_lookup(old_env, other) by {
                lemma_env_update_last(old_env, new_sv, other);
                lemma_env_update_last(old_env, sv, other);
                assert(old_env.update(last as int, sv) =~= old_env);
            }
        }
    }

    /// The scheme bound to `name`, as it was bound, if any.
    #[verifier::loop_isolation(false)]
    pub fn lookup_scheme(&self, name: &str) -> (r: Option<Scheme>)
        ensures
            match (r, self.lookup_spec(name@)) {
                (Some(s), Some(v)) => scheme_view(s) == v,
                (None, None) => true,
                _ => false,
            },
    {
        let ghost env = self.env();
        let mut k = self.scopes.len();
        assert(env.take(k as int) =~= env);
        while k > 0
            invariant
                k <= self.scopes@.len(),
                env == self.env(),
                env_lookup(env, name@) == env_lookup(env.take(k as int), name@),
            decreases k,
        {
            let scope = &self.scopes[k - 1];
            let ghost sv = scope_view(scope@);
            assert(env.take(k as int).last() == sv);
            assert(env.take(k as int).drop_last() =~= env.take(k - 1));
            let mut i: usize = 0;
            assert(sv.subrange(0, sv.len() as int) =~= sv);
            while i < scope.len()
                invariant
                    i <= scope@.len(),
                    sv == scope_view(scope@),
                    scope_lookup(sv, name@) == scope_lookup(sv.subrange(i as int, sv.len() as int), name@),
                decreases scope@.len() - i,
            {
                let ghost rest = sv.subrange(i as int, sv.len() as int);
                assert(rest[0] == sv[i as int]);
                assert(rest.drop_first() =~= sv.subrange(i + 1, sv.len() as int));
                if str_eq(scope[i].0.as_str(), name) {
                    let r = scope[i].1.duplicate();
                    proof {
                        assert(sv[i as int] == (scope@[i as int].0@, scheme_view(scope@[i as int].1)));
                        assert(scope_lookup(rest, name@) == Some(sv[i as int].1));
                        assert(env_lookup(env.take(k as int), name@) == Some(sv[i as int].1));
                    }
                    return Some(r);
                }
                i = i + 1;
            }
            assert(sv.subrange(sv.len() as int, sv.len() as int) =~= Seq::<(Seq<char>, SchemeV)>::empty());
            k = k - 1;
        }
        None
    }
}

pub proof fn lemma_scope_set(sv: Seq<(Seq<char>, SchemeV)>, i: int, name: Seq<char>, s: SchemeV)
    requires
        0 <= i < sv.len(),
        sv[i].0 == name,
        forall|j: int| 0 <= j < i ==> sv[j].0 != name,
    ensures
        scope_lookup(sv.update(i, (name, s)), name) == Some(s),
        forall|other: Seq<char>|
            other != name ==> #[trigger] scope_lookup(sv.update(i, (name, s)), other)
                == scope_lookup(sv, other),
    decreases i,
{
    let u = sv.update(i, (name, s));
    if i > 0 {
        assert(u.drop_first() =~= sv.drop_first().update(i - 1, (name, s)));
        lemma_scope_set(sv.drop_first(), i - 1, name, s);
        assert(sv[0].0 != name);
        assert forall|other: Seq<char>| other != name implies #[trigger] scope_lookup(u, other)
            == scope_lookup(sv, other) by {
            assert(u[0] == sv[0]);
            assert(scope_lookup(u.drop_first(), other) == scope_lookup(sv.drop_first(), other));
        }
    } else {
        assert(u.drop_first() =~= sv.drop_first());
        assert forall|other: Seq<char>| other != name implies #[trigger] scope_lookup(u, other)
            == scope_lookup(sv, other) by {
            assert(u[0].0 == name);
            assert(scope_lookup(u, other) == scope_lookup(u.drop_first(), other));
            assert(scope_lookup(sv, other) == scope_lookup(sv.drop_first(), other));
        }
    }
}

pub proof fn lemma_scope_push(sv: Seq<(Seq<char>, SchemeV)>, name: Seq<char>, s: SchemeV)
    requires
        forall|j: int| 0 <= j < sv.len() ==> sv[j].0 != name,
    ensures
        scope_lookup(sv.push((name, s)), name) == Some(s),
        forall|other: Seq<char>|
            other != name ==> #[trigger] scope_lookup(sv.push((name, s)), other) == scope_lookup(
                sv,
                other,
            ),
    decreases sv.len(),
{
    let u = sv.push((name, s));
    if sv.len() > 0 {
        assert(u.drop_first() =~= sv.drop_first().push((name, s)));
        lemma_scope_push(sv.drop_first(), name, s);
        assert(u[0] == sv[0]);
        assert forall|other: Seq<char>| other != name implies #[trigger] scope_lookup(u, other)
            == scope_lookup(sv, other) by {
            assert(u[0] == sv[0]);
            assert(scope_lookup(u.drop_first(), other) == scope_lookup(sv.drop_first(), other));
        }
    } else {
        assert(u.drop_first() =~= Seq::<(Seq<char>, SchemeV)>::empty());
        assert forall|other: Seq<char>| other != name implies #[trigger] scope_lookup(u, other)
            == scope_lookup(sv, other) by {
            assert(u[0].0 == name);
            assert(scope_lookup(u, other) == scope_lookup(u.drop_first(), other));
            assert(scope_lookup(u.drop_first(), other) == None::<SchemeV>);
        }
    }
}

pub proof fn lemma_env_update_last(
    env: Seq<Seq<(Seq<char>, SchemeV)>>,
    sc: Seq<(Seq<char>, SchemeV)>,
    name: Seq<char>,
)
    requires
        env.len() > 0,
    ensures
        env_lookup(env.update(env.len() - 1, sc), name) == match scope_lookup(sc, name) {
            Some(s) => Some(s),
            None => env_lookup(env.drop_last(), name),
        },
{
    assert(env.update(env.len() - 1, sc).drop_last() =~= env.drop_last());
}

/// What the builtins bind `name` to, given their signatures in order: the
/// type of the last signature of that name whose text denotes a type, with
/// no quantified variables.
pub open spec fn builtin_binding(sv: Seq<(Seq<char>, SignatureView)>, name: Seq<char>) -> Option<SchemeV>
    decreases sv.len(),
{
    if sv.len() == 0 {
        None
    } else if sv.last().0 == name && sig_type(sv.last().1.ty) is Some {
        Some(SchemeV { vars: Seq::empty(), ty: sig_type(sv.last().1.ty)->0 })
    } else {
        builtin_binding(sv.drop_last(), name)
    }
}

/// Two types that no substitution can make equal at their top: neither is
/// a variable, and their constructors, names or numbers of parts differ.
pub open spec fn heads_clash(a: TyV, b: TyV) -> bool {
    match (a, b) {
        (TyV::Var(_), _) => false,
        (_, TyV::Var(_)) => false,
        (TyV::Con(p), TyV::Con(q)) => p != q,
        (TyV::Arrow(_, _), TyV::Arrow(_, _)) => false,
        (TyV::Tuple(xs), TyV::Tuple(ys)) => xs.len() != ys.len(),
        (TyV::App(p, xs), TyV::App(q, ys)) => p != q || xs.len() != ys.len(),
        _ => true,
    }
}

/// The names of the base types usable in builtin signatures, with the type
/// constant each stands for.
pub open spec fn base_type_name(n: Seq<char>) -> Option<Seq<char>> {
    if n == "int"@ {
        Some("Int"@)
    } else if n == "float"@ {
        Some("Float"@)
    } else if n == "bool"@ {
        Some("Bool"@)
    } else if n == "string"@ {
        Some("String"@)
    } else if n == "char"@ {
        Some("Char"@)
    } else if n == "unit"@ {
        Some("Unit"@)
    } else if n == "bytes"@ {
        Some("Bytes"@)
    } else if n == "rng"@ {
        Some("Rng"@)
    } else if n == "pid"@ {
        Some("Pid"@)
    } else {
        None
    }
}

pub(crate) fn base_type(n: &String) -> (r: Option<Type>)
    ensures
        match (r, base_type_name(n@)) {
            (Some(t), Some(c)) => ty_view(t) == TyV::Con(c),
            (None, None) => true,
            _ => false,
        },
{
    let s = n.as_str();
    if str_eq(s, "int") {
        Some(Type::int_type())
    } else if str_eq(s, "float") {
        Some(Type::float())
    } else if str_eq(s, "bool") {
        Some(Type::bool())
    } else if str_eq(s, "string") {
        Some(Type::string())
    } else if str_eq(s, "char") {
        Some(Type::char())
    } else if str_eq(s, "unit") {
        Some(Type::unit())
    } else if str_eq(s, "bytes") {
        Some(Type::bytes())
    } else if str_eq(s, "rng") {
        Some(Type::rng())
    } else if str_eq(s, "pid") {
        Some(Type::pid())
    } else {
        None
    }
}


impl InferCtx {
    /// A context with one empty scope, the list type constructor, and every
    /// builtin whose signature can be read bound to its (monomorphic) type,
    /// type variable `0` standing for the signatures' `'a`.
    pub fn new() -> (r: InferCtx)
        ensures
            r.next() == 1,
            r.bindings().len() == 0,
            r.wf(),
            r.env().len() == 1,
            r.arities() == seq![("list"@, 1usize)],
            r.aliases().len() == 0,
            r.cons().len() == 0,
            r.tags().len() == 0,
            r.dt_cons().len() == 0,
            forall|name: Seq<char>| #[trigger]
                r.lookup_spec(name) == builtin_binding(signed_builtins(builtin_table()), name),
            forall|name: Seq<char>| #[trigger]
                r.lookup_spec(name) is Some ==> exists|i: int|
                    0 <= i < signed_builtins(builtin_table()).len()
                        && signed_builtins(builtin_table())[i].0 == name,
            forall|name: Seq<char>| #[trigger]
                r.lookup_spec(name) matches Some(s) ==> s.vars.len() == 0,
    {
        let top: Vec<(String, Scheme)> = Vec::new();
        let mut scopes: Vec<Vec<(String, Scheme)>> = Vec::new();
        scopes.push(top);
        let mut ctx = InferCtx {
            subst: Vec::new(),
            next_var: 1,
            scopes,
            type_arities: vec![(to_string("list"), 1)],
            constructors: Vec::new(),
            type_aliases: Vec::new(),
            constructor_tags: Vec::new(),
            datatype_constructors: Vec::new(),
            effect_sigs: Vec::new(),
            expr_types: Vec::new(),
            warnings: Vec::new(),
        };
        proof {
            assert(ctx.arities() =~= seq![("list"@, 1usize)]);
            assert(scope_view(top@) =~= Seq::<(Seq<char>, SchemeV)>::empty());
            assert(ctx.env() =~= seq![Seq::<(Seq<char>, SchemeV)>::empty()]);
            assert forall|name: Seq<char>| #[trigger] ctx.lookup_spec(name) is None by {
                let e = ctx.env();
                assert(e.last() =~= Seq::<(Seq<char>, SchemeV)>::empty());
                assert(scope_lookup(e.last(), name) is None);
                assert(e.drop_last() =~= Seq::<Seq<(Seq<char>, SchemeV)>>::empty());
                assert(env_lookup(e.drop_last(), name) is None);
                assert(env_lookup(e, name) is None);
            }
        }
        let sigs = builtin_type_signatures();
        let ghost sv = signed_view(sigs@);
        let mut i: usize = 0;
        while i < sigs.len()
            invariant
                i <= sigs@.len(),
                sv == signed_view(sigs@),
                sv == signed_builtins(builtin_table()),
                ctx.next() == 1,
                ctx.bindings().len() == 0,
                ctx.env().len() == 1,
                ctx.arities() == seq![("list"@, 1usize)],
                ctx.aliases().len() == 0,
                ctx.cons().len() == 0,
                ctx.tags().len() == 0,
                ctx.dt_cons().len() == 0,
                forall|name: Seq<char>| #[trigger]
                    ctx.lookup_spec(name) is Some ==> exists|j: int|
                        0 <= j < i && sv[j].0 == name,
                forall|name: Seq<char>| #[trigger]
                    ctx.lookup_spec(name) matches Some(s) ==> s.vars.len() == 0,
                forall|name: Seq<char>| #[trigger]
                    ctx.lookup_spec(name) == builtin_binding(sv.take(i as int), name),
            decreases sigs@.len() - i,
        {
            let (name, sig) = &sigs[i];
            assert(sv[i as int].0 == name@);
            assert(sv[i as int].1.ty == sig.ty@);
            let ghost pre = sv.take(i + 1);
            assert(pre.drop_last() =~= sv.take(i as int));
            assert(pre.last() == sv[i as int]);
            match signature_type(sig.ty) {
                Some(ty) => {
                    let scheme = Scheme::mono(ty);
                    assert(scheme_view(scheme).vars =~= Seq::<u32>::empty());
                    ctx.bind(to_string(name), scheme);
                },
                None => {},
            }
            i = i + 1;
        }
        assert(sv.take(sv.len() as int) =~= sv);
        ctx
    }
}


impl InferCtx {
    /// A fresh type variable.
    pub fn fresh(&mut self) -> (r: Type)
        requires
            old(self).next() < u32::MAX,
        ensures
            r == Type::Var(old(self).next()),
            final(self).next() == old(self).next() + 1,
            final(self).bindings() == old(self).bindings(),
            final(self).env() == old(self).env(),
            final(self).arities() == old(self).arities(),
            final(self).cons() == old(self).cons(),
            old(self).wf() ==> final(self).wf(),
    {
        let v = self.next_var;
        self.next_var = self.next_var + 1;
        proof {
            let s = self.bindings();
            if subst_ok(s, v as nat) {
                assert forall|j: int| 0 <= j < s.len() implies (#[trigger] s[j]).0 < v as nat + 1
                    && below(s[j].1, v as nat + 1) by {
                    lemma_below_mono(s[j].1, v as nat, v as nat + 1);
                }
            }
        }
        Type::Var(v)
    }

    /// `ty` with the substitution applied through.
    pub fn apply(&self, ty: &Type) -> (r: Type)
        ensures
            ty_view(r) == app(self.bindings(), 0, ty_view(*ty)),
    {
        self.apply_from(0, ty)
    }

    /// `ty` read under the bindings from the `lo`-th on.
    fn apply_from(&self, lo: usize, ty: &Type) -> (r: Type)
        requires
            lo <= self.subst@.len(),
        ensures
            ty_view(r) == app(self.bindings(), lo as int, ty_view(*ty)),
        decreases self.subst@.len() - lo, *ty, 1nat,
    {
        let ghost s = self.bindings();
        match ty {
            Type::Var(v) => {
                let mut j = lo;
                while j < self.subst.len()
                    invariant
                        lo <= j <= self.subst@.len(),
                        s == self.bindings(),
                        ty_view(*ty) == TyV::Var(*v),
                        app(s, lo as int, TyV::Var(*v)) == app(s, j as int, TyV::Var(*v)),
                    decreases self.subst@.len() - j,
                {
                    assert(s[j as int] == (self.subst@[j as int].0, ty_view(self.subst@[j as int].1)));
                    if self.subst[j].0 == *v {
                        assert(app(s, j as int, TyV::Var(*v)) == app(s, j + 1, s[j as int].1));
                        return self.apply_from(j + 1, &self.subst[j].1);
                    }
                    j = j + 1;
                }
                Type::Var(*v)
            },
            Type::Arrow(a, b) => {
                let ra = self.apply_from(lo, a);
                let rb = self.apply_from(lo, b);
                Type::Arrow(Box::new(ra), Box::new(rb))
            },
            Type::Tuple(ts) => {
                proof {
                    assert(decreases_to!(*ty => ts@));
                }
                Type::Tuple(self.apply_all(lo, ts, Ghost(*ty)))
            },
            Type::App(n, ts) => {
                proof {
                    assert(decreases_to!(*ty => ts@));
                }
                Type::App(crate::text::clone_string(n), self.apply_all(lo, ts, Ghost(*ty)))
            },
            Type::Con(n) => Type::Con(crate::text::clone_string(n)),
        }
    }

    fn apply_all(&self, lo: usize, ts: &Vec<Type>, Ghost(outer): Ghost<Type>) -> (r: Vec<Type>)
        requires
            lo <= self.subst@.len(),
            decreases_to!(outer => ts@),
        ensures
            tys_view(r@) == app_list(self.bindings(), lo as int, tys_view(ts@)),
        decreases self.subst@.len() - lo, outer, 0nat,
    {
        let ghost s = self.bindings();
        let mut out: Vec<Type> = Vec::new();
        let mut i: usize = 0;
        while i < ts.len()
            invariant
                i <= ts@.len(),
                lo <= self.subst@.len(),
                s == self.bindings(),
                decreases_to!(outer => ts@),
                tys_view(out@) == app_list(s, lo as int, tys_view(ts@.take(i as int))),
            decreases ts@.len() - i,
        {
            assert(ts@.take(i + 1) =~= ts@.take(i as int).push(ts@[i as int]));
            assert(decreases_to!(ts@ => ts@[i as int]));
            let t = self.apply_from(lo, &ts[i]);
            proof {
                lemma_tys_push(ts@.take(i as int), ts@[i as int]);
                lemma_tys_push(out@, t);
                let tv = tys_view(ts@.take(i + 1));
                assert(tv.drop_last() =~= tys_view(ts@.take(i as int)));
            }
            out.push(t);
            i = i + 1;
        }
        assert(ts@.take(ts@.len() as int) =~= ts@);
        out
    }

    /// `scheme` with the substitution applied to its type.
    pub fn apply_scheme(&self, scheme: &Scheme) -> (r: Scheme)
        ensures
            r.vars@ == scheme.vars@,
            ty_view(r.ty) == app(self.bindings(), 0, ty_view(scheme.ty)),
    {
        let d = scheme.duplicate();
        Scheme { vars: d.vars, ty: self.apply(&scheme.ty) }
    }
}

/// A bound on the variables of a type holds of any larger bound.
pub proof fn lemma_below_mono(t: TyV, n: nat, m: nat)
    requires
        below(t, n),
        n <= m,
    ensures
        below(t, m),
    decreases t,
{
    match t {
        TyV::Arrow(a, b) => {
            lemma_below_mono(*a, n, m);
            lemma_below_mono(*b, n, m);
        },
        TyV::Tuple(ts) => lemma_below_all_mono(ts, n, m),
        TyV::App(_, ts) => lemma_below_all_mono(ts, n, m),
        _ => {},
    }
}

pub proof fn lemma_below_all_mono(ts: Seq<TyV>, n: nat, m: nat)
    requires
        below_all(ts, n),
        n <= m,
    ensures
        below_all(ts, m),
    decreases ts,
{
    if ts.len() > 0 {
        lemma_below_all_mono(ts.drop_last(), n, m);
        lemma_below_mono(ts.last(), n, m);
    }
}


impl InferCtx {
    /// Whether `v` occurs in `ty` with the substitution applied through.
    pub fn occurs(&self, v: u32, ty: &Type) -> (r: bool)
        ensures
            r == occurs_v(v, app(self.bindings(), 0, ty_view(*ty))),
    {
        self.occurs_from(0, v, ty)
    }

    fn occurs_from(&self, lo: usize, v: u32, ty: &Type) -> (r: bool)
        requires
            lo <= self.subst@.len(),
        ensures
            r == occurs_v(v, app(self.bindings(), lo as int, ty_view(*ty))),
        decreases self.subst@.len() - lo, *ty, 1nat,
    {
        let ghost s = self.bindings();
        match ty {
            Type::Var(u) => {
                let mut j = lo;
                while j < self.subst.len()
                    invariant
                        lo <= j <= self.subst@.len(),
                        s == self.bindings(),
                        ty_view(*ty) == TyV::Var(*u),
                        app(s, lo as int, TyV::Var(*u)) == app(s, j as int, TyV::Var(*u)),
                    decreases self.subst@.len() - j,
                {
                    assert(s[j as int] == (self.subst@[j as int].0, ty_view(self.subst@[j as int].1)));
                    if self.subst[j].0 == *u {
                        assert(app(s, j as int, TyV::Var(*u)) == app(s, j + 1, s[j as int].1));
                        return self.occurs_from(j + 1, v, &self.subst[j].1);
                    }
                    j = j + 1;
                }
                v == *u
            },
            Type::Arrow(a, b) => self.occurs_from(lo, v, a) || self.occurs_from(lo, v, b),
            Type::Tuple(ts) => {
                proof {
                    assert(decreases_to!(*ty => ts@));
                }
                self.occurs_any(lo, v, ts, Ghost(*ty))
            },
            Type::App(_, ts) => {
                proof {
                    assert(decreases_to!(*ty => ts@));
                }
                self.occurs_any(lo, v, ts, Ghost(*ty))
            },
            Type::Con(_) => false,
        }
    }

    fn occurs_any(&self, lo: usize, v: u32, ts: &Vec<Type>, Ghost(outer): Ghost<Type>) -> (r: bool)
        requires
            lo <= self.subst@.len(),
            decreases_to!(outer => ts@),
        ensures
            r == occurs_vs(v, app_list(self.bindings(), lo as int, tys_view(ts@))),
        decreases self.subst@.len() - lo, outer, 0nat,
    {
        let ghost s = self.bindings();
        let ghost xs = app_list(s, lo as int, tys_view(ts@));
        proof {
            lemma_tys_view_index(ts@);
            lemma_app_list_index(s, lo as int, tys_view(ts@));
            lemma_occurs_vs_index(v, xs);
        }
        let mut i: usize = 0;
        while i < ts.len()
            invariant
                i <= ts@.len(),
                lo <= self.subst@.len(),
                s == self.bindings(),
                decreases_to!(outer => ts@),
                xs == app_list(s, lo as int, tys_view(ts@)),
                xs.len() == ts@.len(),
                forall|k: int| 0 <= k < ts@.len() ==> #[trigger] xs[k] == app(s, lo as int, ty_view(ts@[k])),
                forall|k: int| 0 <= k < i ==> !occurs_v(v, #[trigger] xs[k]),
                occurs_vs(v, xs) == exists|k: int| 0 <= k < xs.len() && occurs_v(v, #[trigger] xs[k]),
            decreases ts@.len() - i,
        {
            assert(decreases_to!(ts@ => ts@[i as int]));
            if self.occurs_from(lo, v, &ts[i]) {
                assert(occurs_v(v, xs[i as int]));
                return true;
            }
            i = i + 1;
        }
        false
    }

    /// The error `message` at `span`.
    pub fn err(&self, message: &str, span: Span) -> (r: TypeError)
        ensures
            r.message@ == message@,
            r.span == span,
    {
        TypeError { message: to_string(message), span }
    }

    /// The text of `ty` with the substitution applied through.
    pub fn display(&self, ty: &Type) -> (r: String)
        ensures
            r@ == show(app(self.bindings(), 0, ty_view(*ty))),
    {
        self.apply(ty).text()
    }

    /// Binds the unbound variable `x` to `t`, which mentions no bound
    /// variable and not `x`.
    fn bind_var(&mut self, x: u32, t: Type)
        requires
            old(self).wf(),
            !keys(old(self).bindings()).contains(x),
            x < old(self).next(),
            avoids(ty_view(t), keys(old(self).bindings())),
            below(ty_view(t), old(self).next() as nat),
            !occurs_v(x, ty_view(t)),
        ensures
            final(self).cons() == old(self).cons(),
            final(self).bindings() == old(self).bindings().push((x, ty_view(t))),
            final(self).wf(),
            final(self).next() == old(self).next(),
            final(self).env() == old(self).env(),
            final(self).arities() == old(self).arities(),
    {
        let ghost s0 = self.bindings();
        let ghost tv = ty_view(t);
        self.subst.push((x, t));
        proof {
            let s1 = self.bindings();
            assert(s1 =~= s0.push((x, tv)));
            let k0 = keys(s0);
            let k1 = keys(s1);
            assert(k1 =~= k0.push(x));
            assert forall|j: int| 0 <= j < s1.len() implies #[trigger] avoids(s1[j].1, k1.take(j + 1)) by {
                if j < s0.len() {
                    assert(k1.take(j + 1) =~= k0.take(j + 1));
                    assert(s1[j] == s0[j]);
                    assert(avoids(s0[j].1, k0.take(j + 1)));
                } else {
                    assert(k1.take(j + 1) =~= k0.push(x));
                    lemma_avoids_push(tv, k0, x);
                }
            }
            assert(k1.no_duplicates()) by {
                assert forall|i: int, j: int| 0 <= i < k1.len() && 0 <= j < k1.len() && i != j implies k1[i]
                    != k1[j] by {
                    if i < k0.len() && j < k0.len() {
                        assert(k1[i] == k0[i] && k1[j] == k0[j]);
                    } else if i < k0.len() {
                        assert(k1[i] == k0[i]);
                        assert(k0.contains(k0[i]));
                    } else if j < k0.len() {
                        assert(k1[j] == k0[j]);
                        assert(k0.contains(k0[j]));
                    }
                }
            }
            assert forall|j: int| 0 <= j < s1.len() implies (#[trigger] s1[j]).0 < self.next() as nat
                && below(s1[j].1, self.next() as nat) by {
                if j < s0.len() {
                    assert(s1[j] == s0[j]);
                }
            }
        }
    }

    /// Unifies `t1` with `t2`, extending the substitution; on success both
    /// types read the same under it.
    pub fn unify(&mut self, t1: &Type, t2: &Type, span: Span) -> (r: Result<(), TypeError>)
        requires
            old(self).wf(),
            below(ty_view(*t1), old(self).next() as nat),
            below(ty_view(*t2), old(self).next() as nat),
        ensures
            final(self).cons() == old(self).cons(),
            final(self).wf(),
            final(self).next() == old(self).next(),
            final(self).env() == old(self).env(),
            final(self).arities() == old(self).arities(),
            old(self).bindings().is_prefix_of(final(self).bindings()),
            r is Ok ==> app(final(self).bindings(), 0, ty_view(*t1)) == app(
                final(self).bindings(),
                0,
                ty_view(*t2),
            ),
            app(old(self).bindings(), 0, ty_view(*t1)) == app(old(self).bindings(), 0, ty_view(*t2)) ==> (r is Ok
                && final(self).bindings() == old(self).bindings()),
            app(old(self).bindings(), 0, ty_view(*t1)) matches TyV::Var(x) ==> (!occurs_v(
                x,
                app(old(self).bindings(), 0, ty_view(*t2)),
            ) ==> r is Ok),
            app(old(self).bindings(), 0, ty_view(*t2)) matches TyV::Var(y) ==> (!occurs_v(
                y,
                app(old(self).bindings(), 0, ty_view(*t1)),
            ) ==> r is Ok),
            app(old(self).bindings(), 0, ty_view(*t1)) matches TyV::Var(x) ==> (occurs_v(
                x,
                app(old(self).bindings(), 0, ty_view(*t2)),
            ) && app(old(self).bindings(), 0, ty_view(*t2)) != TyV::Var(x) ==> (r matches Err(e) && e.message@
                == "infinite type (occurs check failed)"@)),
            heads_clash(app(old(self).bindings(), 0, ty_view(*t1)), app(old(self).bindings(), 0, ty_view(*t2)))
                ==> (r matches Err(e) && e.span == span && e.message@ == "type mismatch: expected "@ + show(
                app(old(self).bindings(), 0, ty_view(*t1)),
            ) + ", found "@ + show(app(old(self).bindings(), 0, ty_view(*t2)))),
        decreases old(self).next() - old(self).bindings().len(), tsize(
            app(old(self).bindings(), 0, ty_view(*t1)),
        ) + tsize(app(old(self).bindings(), 0, ty_view(*t2))), 1nat,
    {
        let ghost s0 = self.bindings();
        let ghost n = self.next() as nat;
        let ghost tv1 = ty_view(*t1);
        let ghost tv2 = ty_view(*t2);
        let a = self.apply(t1);
        let b = self.apply(t2);
        let ghost av = ty_view(a);
        let ghost bv = ty_view(b);
        proof {
            lemma_resolved(s0, n, tv1);
            lemma_resolved(s0, n, tv2);
            assert(s0.is_prefix_of(s0));
            assert(keys(s0).skip(0) =~= keys(s0));
        }
        match (&a, &b) {
            (Type::Var(x), Type::Var(y)) if *x == *y => Ok(()),
            (Type::Var(x), _) => {
                if self.occurs(*x, &b) {
                    return Err(self.err("infinite type (occurs check failed)", span));
                }
                let x = *x;
                self.bind_var(x, b);
                proof {
                    self.lemma_bound_var_reads(s0, x, bv, tv1, tv2);
                }
                Ok(())
            },
            (_, Type::Var(y)) => {
                if self.occurs(*y, &a) {
                    return Err(self.err("infinite type (occurs check failed)", span));
                }
                let y = *y;
                self.bind_var(y, a);
                proof {
                    self.lemma_bound_var_reads(s0, y, av, tv2, tv1);
                }
                Ok(())
            },
            (Type::Con(p), Type::Con(q)) => {
                if string_eq(p, q) {
                    Ok(())
                } else {
                    Err(self.mismatch(&a, &b, span))
                }
            },
            (Type::Arrow(a1, b1), Type::Arrow(a2, b2)) => {
                proof {
                    lemma_app_avoiding(s0, 0, ty_view(**a1));
                    lemma_app_avoiding(s0, 0, ty_view(**a2));
                }
                match self.unify(a1, a2, span) {
                    Err(e) => return Err(e),
                    Ok(()) => {},
                }
                let ghost s1 = self.bindings();
                proof {
                    self.lemma_measure(s0, s1, n);
                    if s1.len() == s0.len() {
                        assert(s1 =~= s0);
                        lemma_app_avoiding(s0, 0, ty_view(**b1));
                        lemma_app_avoiding(s0, 0, ty_view(**b2));
                    }
                }
                let r = self.unify(b1, b2, span);
                proof {
                    let s2 = self.bindings();
                    assert(s0.is_prefix_of(s2));
                    if r is Ok {
                        lemma_extension_keeps(s1, s2, ty_view(**a1), ty_view(**a2));
                        lemma_read_resolved(s0, s2, tv1, av);
                        lemma_read_resolved(s0, s2, tv2, bv);
                    }
                }
                r
            },
            (Type::Tuple(ts1), Type::Tuple(ts2)) => {
                proof {
                    lemma_tys_view_index(ts1@);
                    lemma_tys_view_index(ts2@);
                }
                if ts1.len() != ts2.len() {
                    return Err(self.mismatch(&a, &b, span));
                }
                let ghost bound = tsize(av) + tsize(bv);
                let r = self.unify_all(ts1, ts2, span, Ghost(bound));
                proof {
                    if r is Ok {
                        let s2 = self.bindings();
                        lemma_read_resolved(s0, s2, tv1, av);
                        lemma_read_resolved(s0, s2, tv2, bv);
                    }
                }
                r
            },
            (Type::App(n1, args1), Type::App(n2, args2)) => {
                proof {
                    lemma_tys_view_index(args1@);
                    lemma_tys_view_index(args2@);
                }
                if !(string_eq(n1, n2) && args1.len() == args2.len()) {
                    return Err(self.mismatch(&a, &b, span));
                }
                let ghost bound = tsize(av) + tsize(bv);
                let r = self.unify_all(args1, args2, span, Ghost(bound));
                proof {
                    if r is Ok {
                        let s2 = self.bindings();
                        lemma_read_resolved(s0, s2, tv1, av);
                        lemma_read_resolved(s0, s2, tv2, bv);
                    }
                }
                r
            },
            _ => Err(self.mismatch(&a, &b, span)),
        }
    }

    /// The error for types that do not unify.
    fn mismatch(&self, a: &Type, b: &Type, span: Span) -> (r: TypeError)
        ensures
            r.message@ == "type mismatch: expected "@ + show(app(self.bindings(), 0, ty_view(*a)))
                + ", found "@ + show(app(self.bindings(), 0, ty_view(*b))),
            r.span == span,
    {
        let mut msg = to_string("type mismatch: expected ");
        let ta = self.display(a);
        let tb = self.display(b);
        crate::text::push_str(&mut msg, ta.as_str());
        crate::text::push_str(&mut msg, ", found ");
        crate::text::push_str(&mut msg, tb.as_str());
        self.err(msg.as_str(), span)
    }

    /// Unifies `ts1` with `ts2` pairwise, left to right, stopping at the first
    /// failure.
    fn unify_all(&mut self, ts1: &Vec<Type>, ts2: &Vec<Type>, span: Span, Ghost(bound): Ghost<nat>) -> (r:
        Result<(), TypeError>)
        requires
            old(self).wf(),
            ts1@.len() == ts2@.len(),
            avoids_all(tys_view(ts1@), keys(old(self).bindings())),
            avoids_all(tys_view(ts2@), keys(old(self).bindings())),
            below_all(tys_view(ts1@), old(self).next() as nat),
            below_all(tys_view(ts2@), old(self).next() as nat),
            tsizes(tys_view(ts1@)) + tsizes(tys_view(ts2@)) < bound,
        ensures
            final(self).cons() == old(self).cons(),
            final(self).wf(),
            final(self).next() == old(self).next(),
            final(self).env() == old(self).env(),
            final(self).arities() == old(self).arities(),
            old(self).bindings().is_prefix_of(final(self).bindings()),
            r is Ok ==> app_list(final(self).bindings(), 0, tys_view(ts1@)) == app_list(
                final(self).bindings(),
                0,
                tys_view(ts2@),
            ),
            tys_view(ts1@) == tys_view(ts2@) ==> (r is Ok && final(self).bindings() == old(self).bindings()),
        decreases old(self).next() - old(self).bindings().len(), bound, 0nat,
    {
        let ghost s0 = self.bindings();
        let ghost n = self.next() as nat;
        let ghost vs1 = tys_view(ts1@);
        let ghost vs2 = tys_view(ts2@);
        proof {
            lemma_tys_view_index(ts1@);
            lemma_tys_view_index(ts2@);
            lemma_list_index(vs1, keys(s0), n);
            lemma_list_index(vs2, keys(s0), n);
            assert(s0.is_prefix_of(s0));
        }
        let mut i: usize = 0;
        while i < ts1.len()
            invariant
                self.cons() == old(self).cons(),
                i <= ts1@.len(),
                ts1@.len() == ts2@.len(),
                self.wf(),
                self.next() == n,
                self.env() == old(self).env(),
                self.arities() == old(self).arities(),
                s0 == old(self).bindings(),
                s0.is_prefix_of(self.bindings()),
                n == old(self).next() as nat,
                vs1 == tys_view(ts1@),
                vs2 == tys_view(ts2@),
                vs1.len() == ts1@.len(),
                vs2.len() == ts2@.len(),
                forall|k: int| 0 <= k < ts1@.len() ==> #[trigger] vs1[k] == ty_view(ts1@[k]),
                forall|k: int| 0 <= k < ts2@.len() ==> #[trigger] vs2[k] == ty_view(ts2@[k]),
                forall|k: int| 0 <= k < vs1.len() ==> avoids(#[trigger] vs1[k], keys(s0)),
                forall|k: int| 0 <= k < vs2.len() ==> avoids(#[trigger] vs2[k], keys(s0)),
                forall|k: int| 0 <= k < vs1.len() ==> below(#[trigger] vs1[k], n),
                forall|k: int| 0 <= k < vs2.len() ==> below(#[trigger] vs2[k], n),
                forall|k: int| 0 <= k < vs1.len() ==> tsize(#[trigger] vs1[k]) <= tsizes(vs1),
                forall|k: int| 0 <= k < vs2.len() ==> tsize(#[trigger] vs2[k]) <= tsizes(vs2),
                tsizes(vs1) + tsizes(vs2) < bound,
                forall|k: int| 0 <= k < i ==> app(self.bindings(), 0, #[trigger] vs1[k]) == app(
                    self.bindings(),
                    0,
                    vs2[k],
                ),
                vs1 == vs2 ==> self.bindings() == s0,
            decreases ts1@.len() - i,
        {
            let ghost cur = self.bindings();
            proof {
                self.lemma_measure(s0, cur, n);
                if cur.len() == s0.len() {
                    assert(cur =~= s0);
                    assert(keys(s0).skip(0) =~= keys(s0));
                    lemma_app_avoiding(s0, 0, vs1[i as int]);
                    lemma_app_avoiding(s0, 0, vs2[i as int]);
                }
            }
            proof {
                if vs1 == vs2 {
                    assert(ty_view(ts1@[i as int]) == ty_view(ts2@[i as int]));
                }
            }
            match self.unify(&ts1[i], &ts2[i], span) {
                Err(e) => return Err(e),
                Ok(()) => {},
            }
            proof {
                let next = self.bindings();
                assert forall|k: int| 0 <= k < i + 1 implies app(next, 0, #[trigger] vs1[k]) == app(
                    next,
                    0,
                    vs2[k],
                ) by {
                    if k < i {
                        lemma_extension_keeps(cur, next, vs1[k], vs2[k]);
                    }
                }
            }
            i = i + 1;
        }
        proof {
            let fin = self.bindings();
            lemma_app_list_index(fin, 0, vs1);
            lemma_app_list_index(fin, 0, vs2);
            assert(app_list(fin, 0, vs1) =~= app_list(fin, 0, vs2));
        }
        Ok(())
    }

    /// After binding the unbound `x` to the resolved `t`, a type that read as
    /// `x` and one that read as `t` both read as `t`.
    proof fn lemma_bound_var_reads(&self, s0: Seq<(u32, TyV)>, x: u32, t: TyV, u1: TyV, u2: TyV)
        requires
            self.bindings() == s0.push((x, t)),
            app(s0, 0, u1) == TyV::Var(x),
            app(s0, 0, u2) == t,
            !occurs_v(x, t),
        ensures
            app(self.bindings(), 0, u1) == app(self.bindings(), 0, u2),
    {
        let e = seq![(x, t)];
        assert(s0 + e =~= self.bindings());
        lemma_app_compose(s0, e, 0, u1);
        lemma_app_compose(s0, e, 0, u2);
        lemma_app_past_end(e, 1, t);
        lemma_avoids_empty(t, Seq::<u32>::empty());
        lemma_avoids_push(t, Seq::<u32>::empty(), x);
        assert(keys(e).skip(0) =~= Seq::<u32>::empty().push(x));
        lemma_app_avoiding(e, 0, t);
    }

    /// The count of unbound variables below the next fresh one does not
    /// grow as the substitution is extended, and shrinks when it grows.
    proof fn lemma_measure(&self, s0: Seq<(u32, TyV)>, s1: Seq<(u32, TyV)>, n: nat)
        requires
            self.wf(),
            self.bindings() == s1,
            self.next() as nat == n,
            s0.is_prefix_of(s1),
        ensures
            s0.len() <= s1.len() <= n,
    {
        assert forall|j: int| 0 <= j < keys(s1).len() implies #[trigger] keys(s1)[j] < n by {
            assert(keys(s1)[j] == s1[j].0);
        }
        lemma_distinct_below(keys(s1), n);
    }
}

/// Types that read the same under `s` read the same under any extension of
/// it.
pub proof fn lemma_extension_keeps(s: Seq<(u32, TyV)>, s2: Seq<(u32, TyV)>, t1: TyV, t2: TyV)
    requires
        s.is_prefix_of(s2),
        app(s, 0, t1) == app(s, 0, t2),
    ensures
        app(s2, 0, t1) == app(s2, 0, t2),
{
    let e = s2.skip(s.len() as int);
    assert(s + e =~= s2);
    lemma_app_compose(s, e, 0, t1);
    lemma_app_compose(s, e, 0, t2);
}

/// Under an extension of `s`, a type reads as what it reads as under `s`
/// read again.
pub proof fn lemma_read_resolved(s: Seq<(u32, TyV)>, s2: Seq<(u32, TyV)>, t: TyV, r: TyV)
    requires
        s.is_prefix_of(s2),
        app(s, 0, t) == r,
        app(s, 0, r) == r,
    ensures
        app(s2, 0, t) == app(s2, 0, r),
{
    lemma_extension_keeps(s, s2, t, r);
}


/// `v` is free in the binding `b`: it occurs in the binding's type read
/// under `s`, and the binding does not quantify it.
pub open spec fn free_in_binding(s: Seq<(u32, TyV)>, b: SchemeV, v: u32) -> bool {
    occurs_v(v, app(s, 0, b.ty)) && !b.vars.contains(v)
}

/// `v` is free in one of the first `j` bindings of the scope `sc`.
pub open spec fn free_in_scope(sc: Seq<(Seq<char>, SchemeV)>, j: int, s: Seq<(u32, TyV)>, v: u32) -> bool {
    exists|b: int| 0 <= b < j && #[trigger] free_in_binding(s, sc[b].1, v)
}

/// `v` is free in a binding of one of the first `limit` scopes.
pub open spec fn free_in_env(
    env: Seq<Seq<(Seq<char>, SchemeV)>>,
    limit: int,
    s: Seq<(u32, TyV)>,
    v: u32,
) -> bool {
    exists|a: int| 0 <= a < limit && #[trigger] free_in_scope(env[a], env[a].len() as int, s, v)
}

/// The number of scopes whose bindings count as the environment's.
pub open spec fn env_limit(env_len: nat, exclude_top_scope: bool) -> int {
    if exclude_top_scope {
        env_len - 1
    } else {
        env_len as int
    }
}

impl InferCtx {
    /// Opens an inner scope.
    pub fn push_scope(&mut self)
        ensures
            final(self).env() == old(self).env().push(Seq::empty()),
            final(self).bindings() == old(self).bindings(),
            final(self).next() == old(self).next(),
            final(self).arities() == old(self).arities(),
    {
        let ghost e = self.env();
        self.scopes.push(Vec::new());
        proof {
            assert(scope_view(Seq::<(String, Scheme)>::empty()) =~= Seq::<(Seq<char>, SchemeV)>::empty());
            assert(self.env() =~= e.push(Seq::empty()));
        }
    }

    /// Closes the innermost scope, if there is one.
    pub fn pop_scope(&mut self)
        ensures
            final(self).env() == if old(self).env().len() > 0 {
                old(self).env().drop_last()
            } else {
                old(self).env()
            },
            final(self).bindings() == old(self).bindings(),
            final(self).next() == old(self).next(),
            final(self).arities() == old(self).arities(),
    {
        let ghost e = self.env();
        let _ = self.scopes.pop();
        proof {
            if e.len() > 0 {
                assert(self.env() =~= e.drop_last());
            } else {
                assert(self.env() =~= e);
            }
        }
    }

    /// The variables free in the environment's bindings, read under the
    /// substitution, leaving out the innermost scope when asked to.
    pub fn free_vars_in_env(&self, exclude_top_scope: bool) -> (r: Vec<u32>)
        requires
            exclude_top_scope ==> self.env().len() > 0,
        ensures
            forall|v: u32|
                r@.contains(v) == free_in_env(
                    self.env(),
                    env_limit(self.env().len(), exclude_top_scope),
                    self.bindings(),
                    v,
                ),
    {
        let ghost env = self.env();
        let ghost s = self.bindings();
        let limit = if exclude_top_scope {
            self.scopes.len() - 1
        } else {
            self.scopes.len()
        };
        let mut vars: Vec<u32> = Vec::new();
        let mut i: usize = 0;
        while i < limit
            invariant
                i <= limit <= self.scopes@.len(),
                env == self.env(),
                s == self.bindings(),
                forall|v: u32| #[trigger] vars@.contains(v) == free_in_env(env, i as int, s, v),
            decreases limit - i,
        {
            let scope = &self.scopes[i];
            let ghost sc = env[i as int];
            let ghost outer = vars@;
            assert(sc == scope_view(scope@));
            let mut j: usize = 0;
            while j < scope.len()
                invariant
                    i < limit <= self.scopes@.len(),
                    env == self.env(),
                    s == self.bindings(),
                    sc == env[i as int],
                    sc == scope_view(scope@),
                    j <= scope@.len(),
                    forall|v: u32| #[trigger] outer.contains(v) == free_in_env(env, i as int, s, v),
                    forall|v: u32|
                        #[trigger] vars@.contains(v) == (outer.contains(v) || free_in_scope(sc, j as int, s, v)),
                decreases scope@.len() - j,
            {
                let scheme = self.apply_scheme(&scope[j].1);
                assert(sc[j as int].1 == scheme_view(scope@[j as int].1));
                let fv = scheme.ty.free_vars();
                let mut k: usize = 0;
                let ghost before = vars@;
                while k < fv.len()
                    invariant
                        k <= fv@.len(),
                        fv@ == free_vars_of(scheme.ty),
                        forall|v: u32|
                            #[trigger] vars@.contains(v) == (before.contains(v) || (fv@.take(k as int).contains(v)
                                && !scheme.vars@.contains(v))),
                    decreases fv@.len() - k,
                {
                    let v = fv[k];
                    let ghost prev = vars@;
                    assert(forall|w: u32| prev.contains(w) == (before.contains(w) || (fv@.take(k as int).contains(w)
                                && !scheme.vars@.contains(w))));
                    if !contains_u32(&scheme.vars, v) && !contains_u32(&vars, v) {
                        vars.push(v);
                    }
                    proof {
                        let t0 = fv@.take(k as int);
                        let t1 = fv@.take(k + 1);
                        assert(t1 =~= t0.push(v));
                        assert forall|w: u32|
                            vars@.contains(w) == (before.contains(w) || (t1.contains(w)
                                && !scheme.vars@.contains(w))) by {
                            lemma_push_contains(t0, v, w);
                            lemma_push_contains(prev, v, w);
                            assert(prev.contains(w) == (before.contains(w) || (t0.contains(w)
                                && !scheme.vars@.contains(w))));
                        }
                    }
                    k = k + 1;
                }
                proof {
                    assert(fv@.take(fv@.len() as int) =~= fv@);
                    assert forall|w: u32| #[trigger] vars@.contains(w) == (before.contains(w) || (fv@.contains(w)
                        && !scheme.vars@.contains(w))) by {
                        assert(fv@.take(k as int).contains(w) == fv@.contains(w));
                    }
                    assert forall|v: u32|
                        vars@.contains(v) == (outer.contains(v) || free_in_scope(sc, j + 1, s, v)) by {
                        lemma_collect_vars(scheme.ty, Seq::empty(), v);
                        assert(!Seq::<u32>::empty().contains(v));
                        assert(free_in_binding(s, sc[j as int].1, v) == (fv@.contains(v)
                            && !scheme.vars@.contains(v)));
                        if free_in_scope(sc, j + 1, s, v) {
                            let b = choose|b: int| 0 <= b < j + 1 && #[trigger] free_in_binding(s, sc[b].1, v);
                            if b < j {
                                assert(free_in_scope(sc, j as int, s, v));
                            }
                        }
                        if free_in_scope(sc, j as int, s, v) {
                            let b = choose|b: int| 0 <= b < j && #[trigger] free_in_binding(s, sc[b].1, v);
                            assert(free_in_scope(sc, j + 1, s, v));
                        }
                    }
                }
                j = j + 1;
            }
            proof {
                assert(scope@.len() == sc.len());
                assert forall|v: u32| #[trigger] vars@.contains(v) == free_in_env(env, i + 1, s, v) by {
                    if free_in_env(env, i + 1, s, v) {
                        let a = choose|a: int|
                            0 <= a < i + 1 && #[trigger] free_in_scope(env[a], env[a].len() as int, s, v);
                        if a < i {
                            assert(free_in_env(env, i as int, s, v));
                        }
                    }
                    if free_in_env(env, i as int, s, v) {
                        let a = choose|a: int|
                            0 <= a < i && #[trigger] free_in_scope(env[a], env[a].len() as int, s, v);
                        assert(free_in_env(env, i + 1, s, v));
                    }
                    if free_in_scope(sc, sc.len() as int, s, v) {
                        assert(free_in_scope(env[i as int], env[i as int].len() as int, s, v));
                    }
                }
            }
            i = i + 1;
        }
        vars
    }
}


impl InferCtx {
    /// `ty` with the substitution applied, generalized over its variables
    /// that are not free in the environment (leaving out the innermost scope
    /// when asked to).
    pub fn generalize(&self, ty: &Type, exclude_scope: bool) -> (r: Scheme)
        requires
            exclude_scope ==> self.env().len() > 0,
        ensures
            ty_view(r.ty) == app(self.bindings(), 0, ty_view(*ty)),
            r.vars@ == free_vars_of(r.ty).filter(
                |v: u32|
                    !free_in_env(
                        self.env(),
                        env_limit(self.env().len(), exclude_scope),
                        self.bindings(),
                        v,
                    ),
            ),
    {
        let t = self.apply(ty);
        let env_vars = self.free_vars_in_env(exclude_scope);
        let ty_vars = t.free_vars();
        let ghost pred = |v: u32|
            !free_in_env(self.env(), env_limit(self.env().len(), exclude_scope), self.bindings(), v);
        let mut vars: Vec<u32> = Vec::new();
        let mut i: usize = 0;
        while i < ty_vars.len()
            invariant
                i <= ty_vars@.len(),
                forall|v: u32| env_vars@.contains(v) == !pred(v),
                vars@ == ty_vars@.take(i as int).filter(pred),
            decreases ty_vars@.len() - i,
        {
            let v = ty_vars[i];
            proof {
                let pre = ty_vars@.take(i + 1);
                assert(pre.drop_last() =~= ty_vars@.take(i as int));
                assert(pre.last() == v);
                reveal(Seq::filter);
            }
            if !contains_u32(&env_vars, v) {
                vars.push(v);
            }
            i = i + 1;
        }
        assert(ty_vars@.take(ty_vars@.len() as int) =~= ty_vars@);
        Scheme { vars, ty: t }
    }

    /// `ty` with each variable that `mapping` maps replaced by its (last)
    /// image.
    pub fn substitute_vars(&self, ty: &Type, mapping: &Vec<(u32, Type)>) -> (r: Type)
        ensures
            ty_view(r) == subst_vars(ty_view(*ty), mapping_view(mapping@)),
        decreases *ty, 1nat,
    {
        match ty {
            Type::Var(v) => {
                let mut j = mapping.len();
                assert(mapping@.take(mapping@.len() as int) =~= mapping@);
                while j > 0
                    invariant
                        j <= mapping@.len(),
                        ty_view(*ty) == TyV::Var(*v),
                        lookup_last(mapping_view(mapping@), *v) == lookup_last(
                            mapping_view(mapping@.take(j as int)),
                            *v,
                        ),
                    decreases j,
                {
                    proof {
                        let m = mapping_view(mapping@.take(j as int));
                        assert(m.drop_last() =~= mapping_view(mapping@.take(j - 1)));
                        assert(m.last() == (mapping@[j - 1].0, ty_view(mapping@[j - 1].1)));
                    }
                    if mapping[j - 1].0 == *v {
                        return mapping[j - 1].1.duplicate();
                    }
                    j = j - 1;
                }
                assert(mapping_view(mapping@.take(0)) =~= Seq::<(u32, TyV)>::empty());
                Type::Var(*v)
            },
            Type::Arrow(a, b) => Type::Arrow(
                Box::new(self.substitute_vars(a, mapping)),
                Box::new(self.substitute_vars(b, mapping)),
            ),
            Type::Tuple(ts) => {
                proof {
                    assert(decreases_to!(*ty => ts@));
                }
                Type::Tuple(self.substitute_all(ts, mapping, Ghost(*ty)))
            },
            Type::App(n, ts) => {
                proof {
                    assert(decreases_to!(*ty => ts@));
                }
                Type::App(crate::text::clone_string(n), self.substitute_all(ts, mapping, Ghost(*ty)))
            },
            Type::Con(n) => Type::Con(crate::text::clone_string(n)),
        }
    }

    fn substitute_all(&self, ts: &Vec<Type>, mapping: &Vec<(u32, Type)>, Ghost(outer): Ghost<Type>) -> (r:
        Vec<Type>)
        requires
            decreases_to!(outer => ts@),
        ensures
            tys_view(r@) == subst_vars_list(tys_view(ts@), mapping_view(mapping@)),
        decreases outer, 0nat,
    {
        let ghost m = mapping_view(mapping@);
        let mut out: Vec<Type> = Vec::new();
        let mut i: usize = 0;
        while i < ts.len()
            invariant
                i <= ts@.len(),
                m == mapping_view(mapping@),
                decreases_to!(outer => ts@),
                tys_view(out@) == subst_vars_list(tys_view(ts@.take(i as int)), m),
            decreases ts@.len() - i,
        {
            assert(ts@.take(i + 1) =~= ts@.take(i as int).push(ts@[i as int]));
            assert(decreases_to!(ts@ => ts@[i as int]));
            let t = self.substitute_vars(&ts[i], mapping);
            proof {
                lemma_tys_push(ts@.take(i as int), ts@[i as int]);
                lemma_tys_push(out@, t);
                let tv = tys_view(ts@.take(i + 1));
                assert(tv.drop_last() =~= tys_view(ts@.take(i as int)));
            }
            out.push(t);
            i = i + 1;
        }
        assert(ts@.take(ts@.len() as int) =~= ts@);
        out
    }

    /// A fresh instance of `scheme`: its type with the substitution applied
    /// and each quantified variable replaced by a fresh one, in order.
    pub fn instantiate(&mut self, scheme: &Scheme) -> (r: Type)
        requires
            old(self).next() + scheme.vars@.len() <= u32::MAX,
        ensures
            ty_view(r) == subst_vars(
                app(old(self).bindings(), 0, ty_view(scheme.ty)),
                fresh_map(scheme.vars@, old(self).next() as nat),
            ),
            final(self).next() == old(self).next() + scheme.vars@.len(),
            final(self).bindings() == old(self).bindings(),
            final(self).env() == old(self).env(),
            final(self).arities() == old(self).arities(),
            old(self).wf() ==> final(self).wf(),
    {
        let ghost start = self.next();
        let ghost was_wf = self.wf();
        let applied = self.apply_scheme(scheme);
        let mut mapping: Vec<(u32, Type)> = Vec::new();
        let mut i: usize = 0;
        while i < applied.vars.len()
            invariant
                i <= applied.vars@.len(),
                applied.vars@ == scheme.vars@,
                self.next() == start + i,
                start + scheme.vars@.len() <= u32::MAX,
                self.bindings() == old(self).bindings(),
                self.env() == old(self).env(),
                self.arities() == old(self).arities(),
                was_wf == old(self).wf(),
                was_wf ==> self.wf(),
                mapping_view(mapping@) == fresh_map(scheme.vars@, start as nat).take(i as int),
            decreases applied.vars@.len() - i,
        {
            let ghost mv0 = mapping_view(mapping@);
            let v = self.fresh();
            mapping.push((applied.vars[i], v));
            proof {
                assert(mapping_view(mapping@) =~= mv0.push((scheme.vars@[i as int], TyV::Var((start + i) as u32))));
                assert(mapping_view(mapping@) =~= fresh_map(scheme.vars@, start as nat).take(i + 1));
            }
            i = i + 1;
        }
        assert(fresh_map(scheme.vars@, start as nat).take(scheme.vars@.len() as int) =~= fresh_map(
            scheme.vars@,
            start as nat,
        ));
        self.substitute_vars(&applied.ty, &mapping)
    }
}

/// The value of a mapping from variables to types.
pub open spec fn mapping_view(m: Seq<(u32, Type)>) -> Seq<(u32, TyV)> {
    m.map_values(|e: (u32, Type)| (e.0, ty_view(e.1)))
}


// ── Type expressions ─────────────────────────────────────────────────────

/// The primitive type names no longer accepted in upper case, with the name
/// to use instead.
pub open spec fn upper_alias(n: Seq<char>) -> Option<Seq<char>> {
    if n == "Int"@ {
        Some("int"@)
    } else if n == "Float"@ {
        Some("float"@)
    } else if n == "Bool"@ {
        Some("bool"@)
    } else if n == "String"@ {
        Some("string"@)
    } else if n == "Char"@ {
        Some("char"@)
    } else if n == "Unit"@ {
        Some("unit"@)
    } else if n == "Bytes"@ {
        Some("bytes"@)
    } else if n == "Rng"@ {
        Some("rng"@)
    } else if n == "Pid"@ {
        Some("pid"@)
    } else {
        None
    }
}

/// The number of type variables written in a type expression.
pub open spec fn tyvar_count(te: TypeExpr) -> nat
    decreases te, 1nat,
{
    match te.kind {
        TypeExprKind::Var(_) => 1,
        TypeExprKind::Named(_) => 0,
        TypeExprKind::App(_, args) => tyvar_counts(args@),
        TypeExprKind::Arrow(a, b) => tyvar_count(*a) + tyvar_count(*b),
        TypeExprKind::Tuple(ts) => tyvar_counts(ts@),
        TypeExprKind::Paren(t) => tyvar_count(*t),
    }
}

pub open spec fn tyvar_counts(ts: Seq<TypeExpr>) -> nat
    decreases ts, 0nat,
{
    if ts.len() == 0 {
        0
    } else {
        tyvar_counts(ts.drop_last()) + tyvar_count(ts.last())
    }
}

/// The result of resolving a type expression: the type or the error
/// message with its span, the type-variable names after it, and the next
/// fresh variable after it.
pub type Resolved<T> = (Result<T, (Seq<char>, Span)>, Seq<(Seq<char>, u32)>, nat);

/// Pairs each parameter with the argument at its position.
pub open spec fn zip_params(ps: Seq<u32>, vs: Seq<TyV>) -> Seq<(u32, TyV)> {
    Seq::new(ps.len(), |i: int| (ps[i], vs[i]))
}

/// Resolves a type expression against the aliases and type constructors
/// known, naming type variables through `map`; unknown variables are
/// refused when `strict`, else get fresh variables.
pub open spec fn resolve_te(
    te: TypeExpr,
    map: Seq<(Seq<char>, u32)>,
    next: nat,
    strict: bool,
    aliases: Seq<(Seq<char>, (Seq<u32>, TyV))>,
    arities: Seq<(Seq<char>, usize)>,
) -> Resolved<TyV>
    decreases te, 1nat,
{
    match te.kind {
        TypeExprKind::Named(n) => match base_type_name(n@) {
            Some(c) => (Ok(TyV::Con(c)), map, next),
            None => match upper_alias(n@) {
                Some(lower) => (
                    Err(
                        (
                            "primitive type '"@ + n@ + "' is no longer supported; use '"@ + lower
                                + "'"@,
                            te.span,
                        ),
                    ),
                    map,
                    next,
                ),
                None => match assoc(aliases, n@) {
                    Some(a) => if a.0.len() == 0 {
                        (Ok(a.1), map, next)
                    } else {
                        (
                            Err(
                                (
                                    "type "@ + n@ + " expects "@ + digits(a.0.len()) + " argument(s)"@,
                                    te.span,
                                ),
                            ),
                            map,
                            next,
                        )
                    },
                    None => match assoc(arities, n@) {
                        Some(k) => if k == 0 {
                            (Ok(TyV::Con(n@)), map, next)
                        } else {
                            (
                                Err(
                                    (
                                        "type "@ + n@ + " expects "@ + digits(k as nat)
                                            + " argument(s)"@,
                                        te.span,
                                    ),
                                ),
                                map,
                                next,
                            )
                        },
                        None => (Err(("unknown type: "@ + n@, te.span)), map, next),
                    },
                },
            },
        },
        TypeExprKind::Var(n) => match assoc(map, n@) {
            Some(v) => (Ok(TyV::Var(v)), map, next),
            None => if strict {
                (Err(("unbound type variable: "@ + n@, te.span)), map, next)
            } else {
                (Ok(TyV::Var(next as u32)), map.push((n@, next as u32)), next + 1)
            },
        },
        TypeExprKind::App(n, args) => {
            let (r, m1, n1) = resolve_tes(args@, map, next, strict, aliases, arities);
            match r {
                Err(e) => (Err(e), m1, n1),
                Ok(vs) => match assoc(aliases, n@) {
                    Some(a) => if a.0.len() != vs.len() {
                        (
                            Err(
                                (
                                    "type "@ + n@ + " expects "@ + digits(a.0.len()) + " argument(s)"@
                                        + ", got "@ + digits(vs.len()),
                                    te.span,
                                ),
                            ),
                            m1,
                            n1,
                        )
                    } else {
                        (Ok(subst_vars(a.1, zip_params(a.0, vs))), m1, n1)
                    },
                    None => match assoc(arities, n@) {
                        Some(k) => if k != vs.len() {
                            (
                                Err(
                                    (
                                        "type "@ + n@ + " expects "@ + digits(k as nat)
                                            + " argument(s)"@ + ", got "@ + digits(vs.len()),
                                        te.span,
                                    ),
                                ),
                                m1,
                                n1,
                            )
                        } else {
                            (Ok(TyV::App(n@, vs)), m1, n1)
                        },
                        None => (Err(("unknown type constructor: "@ + n@, te.span)), m1, n1),
                    },
                },
            }
        },
        TypeExprKind::Arrow(a, b) => {
            let (ra, m1, n1) = resolve_te(*a, map, next, strict, aliases, arities);
            match ra {
                Err(e) => (Err(e), m1, n1),
                Ok(va) => {
                    let (rb, m2, n2) = resolve_te(*b, m1, n1, strict, aliases, arities);
                    match rb {
                        Err(e) => (Err(e), m2, n2),
                        Ok(vb) => (Ok(TyV::Arrow(Box::new(va), Box::new(vb))), m2, n2),
                    }
                },
            }
        },
        TypeExprKind::Tuple(ts) => {
            let (r, m1, n1) = resolve_tes(ts@, map, next, strict, aliases, arities);
            match r {
                Err(e) => (Err(e), m1, n1),
                Ok(vs) => (Ok(TyV::Tuple(vs)), m1, n1),
            }
        },
        TypeExprKind::Paren(t) => resolve_te(*t, map, next, strict, aliases, arities),
    }
}

/// Resolves type expressions left to right, stopping at the first error.
pub open spec fn resolve_tes(
    ts: Seq<TypeExpr>,
    map: Seq<(Seq<char>, u32)>,
    next: nat,
    strict: bool,
    aliases: Seq<(Seq<char>, (Seq<u32>, TyV))>,
    arities: Seq<(Seq<char>, usize)>,
) -> Resolved<Seq<TyV>>
    decreases ts, 0nat,
{
    if ts.len() == 0 {
        (Ok(Seq::empty()), map, next)
    } else {
        let (r, m1, n1) = resolve_tes(ts.drop_last(), map, next, strict, aliases, arities);
        match r {
            Err(e) => (Err(e), m1, n1),
            Ok(vs) => {
                let (r2, m2, n2) = resolve_te(ts.last(), m1, n1, strict, aliases, arities);
                match r2 {
                    Err(e) => (Err(e), m2, n2),
                    Ok(v) => (Ok(vs.push(v)), m2, n2),
                }
            },
        }
    }
}


/// The value of a naming of type variables.
pub open spec fn names_view(m: Seq<(String, u32)>) -> Seq<(Seq<char>, u32)> {
    m.map_values(|e: (String, u32)| (e.0@, e.1))
}

/// An executable result agrees with a resolution's result.
pub open spec fn resolved_matches(r: Result<Type, TypeError>, s: Result<TyV, (Seq<char>, Span)>) -> bool {
    match (r, s) {
        (Ok(t), Ok(v)) => ty_view(t) == v,
        (Err(e), Err(x)) => e.message@ == x.0 && e.span == x.1,
        _ => false,
    }
}

pub open spec fn resolved_all_matches(r: Result<Vec<Type>, TypeError>, s: Result<Seq<TyV>, (Seq<char>, Span)>) -> bool {
    match (r, s) {
        (Ok(t), Ok(v)) => tys_view(t@) == v,
        (Err(e), Err(x)) => e.message@ == x.0 && e.span == x.1,
        _ => false,
    }
}

fn upper_alias_exec(n: &str) -> (r: Option<&'static str>)
    ensures
        match (r, upper_alias(n@)) {
            (Some(a), Some(b)) => a@ == b,
            (None, None) => true,
            _ => false,
        },
{
    if str_eq(n, "Int") {
        Some("int")
    } else if str_eq(n, "Float") {
        Some("float")
    } else if str_eq(n, "Bool") {
        Some("bool")
    } else if str_eq(n, "String") {
        Some("string")
    } else if str_eq(n, "Char") {
        Some("char")
    } else if str_eq(n, "Unit") {
        Some("unit")
    } else if str_eq(n, "Bytes") {
        Some("bytes")
    } else if str_eq(n, "Rng") {
        Some("rng")
    } else if str_eq(n, "Pid") {
        Some("pid")
    } else {
        None
    }
}

/// `type {name} expects {n} argument(s)`, and `, got {m}` when given.
fn arity_message(name: &String, n: usize, got: Option<usize>) -> (r: String)
    ensures
        r@ == match got {
            Some(m) => "type "@ + name@ + " expects "@ + digits(n as nat) + " argument(s)"@ + ", got "@
                + digits(m as nat),
            None => "type "@ + name@ + " expects "@ + digits(n as nat) + " argument(s)"@,
        },
{
    let mut m = to_string("type ");
    push_str(&mut m, name.as_str());
    push_str(&mut m, " expects ");
    push_digits(&mut m, n as u64);
    push_str(&mut m, " argument(s)");
    match got {
        Some(k) => {
            push_str(&mut m, ", got ");
            push_digits(&mut m, k as u64);
        },
        None => {},
    }
    assert(m@ =~= match got {
        Some(k) => "type "@ + name@ + " expects "@ + digits(n as nat) + " argument(s)"@ + ", got "@
            + digits(k as nat),
        None => "type "@ + name@ + " expects "@ + digits(n as nat) + " argument(s)"@,
    });
    m
}

pub(crate) fn message_with(prefix: &str, name: &String) -> (r: String)
    ensures
        r@ == prefix@ + name@,
{
    let mut m = to_string(prefix);
    push_str(&mut m, name.as_str());
    m
}

impl InferCtx {
    /// Resolves a type expression, naming its type variables through
    /// `tyvar_map`.
    pub fn resolve_type_expr_inner(&mut self, te: &TypeExpr, tyvar_map: &mut Vec<(String, u32)>, strict: bool) -> (r:
        Result<Type, TypeError>)
        requires
            old(self).next() + tyvar_count(*te) <= u32::MAX,
        ensures
            resolved_matches(
                r,
                resolve_te(
                    *te,
                    names_view(old(tyvar_map)@),
                    old(self).next() as nat,
                    strict,
                    old(self).aliases(),
                    old(self).arities(),
                ).0,
            ),
            names_view(final(tyvar_map)@) == resolve_te(
                *te,
                names_view(old(tyvar_map)@),
                old(self).next() as nat,
                strict,
                old(self).aliases(),
                old(self).arities(),
            ).1,
            final(self).next() as nat == resolve_te(
                *te,
                names_view(old(tyvar_map)@),
                old(self).next() as nat,
                strict,
                old(self).aliases(),
                old(self).arities(),
            ).2,
            final(self).bindings() == old(self).bindings(),
            final(self).env() == old(self).env(),
            final(self).arities() == old(self).arities(),
            final(self).aliases() == old(self).aliases(),
            final(self).cons() == old(self).cons(),
            final(self).tags() == old(self).tags(),
            final(self).dt_cons() == old(self).dt_cons(),
        decreases *te, 1nat,
    {
        let ghost map0 = names_view(tyvar_map@);
        let ghost al = self.aliases();
        let ghost ar = self.arities();
        proof {
            assert(decreases_to!(*te => te.kind));
        }
        match &te.kind {
            TypeExprKind::Named(n) => {
                match base_type(n) {
                    Some(t) => {
                        return Ok(t);
                    },
                    None => {},
                }
                match upper_alias_exec(n.as_str()) {
                    Some(lower) => {
                        let mut m = to_string("primitive type '");
                        push_str(&mut m, n.as_str());
                        push_str(&mut m, "' is no longer supported; use '");
                        push_str(&mut m, lower);
                        push_str(&mut m, "'");
                        return Err(self.err(m.as_str(), te.span));
                    },
                    None => {},
                }
                match find_key(&self.type_aliases, n.as_str()) {
                    Some(i) => {
                        proof {
                            assert(first_at(al, n@, i as int)) by {
                                assert forall|j: int| 0 <= j < i implies #[trigger] al[j].0 != n@ by {
                                    assert(al[j].0 == self.type_aliases@[j].0@);
                                }
                            }
                            lemma_assoc_first(al, n@, i as int);
                        }
                        let params = self.type_aliases[i].1.0.len();
                        if params == 0 {
                            return Ok(self.type_aliases[i].1.1.duplicate());
                        }
                        let m = arity_message(n, params, None);
                        return Err(self.err(m.as_str(), te.span));
                    },
                    None => {
                        proof {
                            assert(absent(al, n@)) by {
                                assert forall|j: int| 0 <= j < al.len() implies #[trigger] al[j].0 != n@ by {
                                    assert(al[j].0 == self.type_aliases@[j].0@);
                                }
                            }
                            lemma_assoc_absent(al, n@);
                        }
                    },
                }
                match find_key(&self.type_arities, n.as_str()) {
                    Some(i) => {
                        proof {
                            assert(first_at(ar, n@, i as int)) by {
                                assert forall|j: int| 0 <= j < i implies #[trigger] ar[j].0 != n@ by {
                                    assert(ar[j].0 == self.type_arities@[j].0@);
                                }
                            }
                            lemma_assoc_first(ar, n@, i as int);
                        }
                        let k = self.type_arities[i].1;
                        if k == 0 {
                            return Ok(Type::Con(crate::text::clone_string(n)));
                        }
                        let m = arity_message(n, k, None);
                        Err(self.err(m.as_str(), te.span))
                    },
                    None => {
                        proof {
                            assert(absent(ar, n@)) by {
                                assert forall|j: int| 0 <= j < ar.len() implies #[trigger] ar[j].0 != n@ by {
                                    assert(ar[j].0 == self.type_arities@[j].0@);
                                }
                            }
                            lemma_assoc_absent(ar, n@);
                        }
                        let m = message_with("unknown type: ", n);
                        Err(self.err(m.as_str(), te.span))
                    },
                }
            },
            TypeExprKind::Var(n) => {
                match find_key(tyvar_map, n.as_str()) {
                    Some(i) => {
                        proof {
                            assert(first_at(map0, n@, i as int)) by {
                                assert forall|j: int| 0 <= j < i implies #[trigger] map0[j].0 != n@ by {
                                    assert(map0[j].0 == tyvar_map@[j].0@);
                                }
                            }
                            lemma_assoc_first(map0, n@, i as int);
                        }
                        Ok(Type::Var(tyvar_map[i].1))
                    },
                    None => {
                        proof {
                            assert(absent(map0, n@)) by {
                                assert forall|j: int| 0 <= j < map0.len() implies #[trigger] map0[j].0 != n@ by {
                                    assert(map0[j].0 == tyvar_map@[j].0@);
                                }
                            }
                            lemma_assoc_absent(map0, n@);
                        }
                        if strict {
                            let m = message_with("unbound type variable: ", n);
                            return Err(self.err(m.as_str(), te.span));
                        }
                        let v = self.next_var;
                        self.next_var = self.next_var + 1;
                        tyvar_map.push((crate::text::clone_string(n), v));
                        proof {
                            assert(names_view(tyvar_map@) =~= map0.push((n@, v)));
                        }
                        Ok(Type::Var(v))
                    },
                }
            },
            TypeExprKind::App(n, args) => {
                proof {
                    assert(decreases_to!(te.kind => te.kind->App_1));
                    assert(decreases_to!(te.kind->App_1 => args@));
                }
                let resolved = match self.resolve_all(args, tyvar_map, strict, Ghost(*te)) {
                    Err(e) => return Err(e),
                    Ok(vs) => vs,
                };
                let ghost vs = tys_view(resolved@);
                proof {
                    lemma_tys_view_index(resolved@);
                }
                match find_key(&self.type_aliases, n.as_str()) {
                    Some(i) => {
                        proof {
                            assert(first_at(al, n@, i as int)) by {
                                assert forall|j: int| 0 <= j < i implies #[trigger] al[j].0 != n@ by {
                                    assert(al[j].0 == self.type_aliases@[j].0@);
                                }
                            }
                            lemma_assoc_first(al, n@, i as int);
                        }
                        let params = &self.type_aliases[i].1.0;
                        if params.len() != resolved.len() {
                            let m = arity_message(n, params.len(), Some(resolved.len()));
                            return Err(self.err(m.as_str(), te.span));
                        }
                        let mut mapping: Vec<(u32, Type)> = Vec::new();
                        let mut k: usize = 0;
                        while k < params.len()
                            invariant
                                k <= params@.len(),
                                params@.len() == resolved@.len(),
                                vs == tys_view(resolved@),
                                vs.len() == resolved@.len(),
                                forall|q: int| 0 <= q < resolved@.len() ==> #[trigger] vs[q] == ty_view(resolved@[q]),
                                mapping_view(mapping@) == zip_params(params@, vs).take(k as int),
                            decreases params@.len() - k,
                        {
                            let a = resolved[k].duplicate();
                            let ghost mv0 = mapping_view(mapping@);
                            mapping.push((params[k], a));
                            proof {
                                assert(mapping_view(mapping@) =~= mv0.push((params@[k as int], vs[k as int])));
                                assert(zip_params(params@, vs).take(k + 1) =~= zip_params(params@, vs).take(k as int).push(
                                    (params@[k as int], vs[k as int]),
                                ));
                            }
                            k = k + 1;
                        }
                        assert(zip_params(params@, vs).take(params@.len() as int) =~= zip_params(params@, vs));
                        Ok(self.substitute_vars(&self.type_aliases[i].1.1, &mapping))
                    },
                    None => {
                        proof {
                            assert(absent(al, n@)) by {
                                assert forall|j: int| 0 <= j < al.len() implies #[trigger] al[j].0 != n@ by {
                                    assert(al[j].0 == self.type_aliases@[j].0@);
                                }
                            }
                            lemma_assoc_absent(al, n@);
                        }
                        match find_key(&self.type_arities, n.as_str()) {
                            Some(i) => {
                                proof {
                                    assert(first_at(ar, n@, i as int)) by {
                                        assert forall|j: int| 0 <= j < i implies #[trigger] ar[j].0 != n@ by {
                                            assert(ar[j].0 == self.type_arities@[j].0@);
                                        }
                                    }
                                    lemma_assoc_first(ar, n@, i as int);
                                }
                                let k = self.type_arities[i].1;
                                if k != resolved.len() {
                                    let m = arity_message(n, k, Some(resolved.len()));
                                    return Err(self.err(m.as_str(), te.span));
                                }
                                Ok(Type::App(crate::text::clone_string(n), resolved))
                            },
                            None => {
                                proof {
                                    assert(absent(ar, n@)) by {
                                        assert forall|j: int| 0 <= j < ar.len() implies #[trigger] ar[j].0 != n@ by {
                                            assert(ar[j].0 == self.type_arities@[j].0@);
                                        }
                                    }
                                    lemma_assoc_absent(ar, n@);
                                }
                                let m = message_with("unknown type constructor: ", n);
                                Err(self.err(m.as_str(), te.span))
                            },
                        }
                    },
                }
            },
            TypeExprKind::Arrow(a, b) => {
                let ghost m_a = names_view(tyvar_map@);
                let ghost n_a = self.next() as nat;
                proof {
                    lemma_tyvar_resolve_bound(**a, m_a, n_a, strict, al, ar);
                }
                let ra = match self.resolve_type_expr_inner(a, tyvar_map, strict) {
                    Err(e) => return Err(e),
                    Ok(t) => t,
                };
                let rb = match self.resolve_type_expr_inner(b, tyvar_map, strict) {
                    Err(e) => return Err(e),
                    Ok(t) => t,
                };
                Ok(Type::arrow(ra, rb))
            },
            TypeExprKind::Tuple(ts) => {
                proof {
                    assert(decreases_to!(te.kind => te.kind->Tuple_0));
                    assert(decreases_to!(te.kind->Tuple_0 => ts@));
                }
                match self.resolve_all(ts, tyvar_map, strict, Ghost(*te)) {
                    Err(e) => Err(e),
                    Ok(vs) => Ok(Type::Tuple(vs)),
                }
            },
            TypeExprKind::Paren(t) => self.resolve_type_expr_inner(t, tyvar_map, strict),
        }
    }

    fn resolve_all(&mut self, ts: &Vec<TypeExpr>, tyvar_map: &mut Vec<(String, u32)>, strict: bool, Ghost(outer): Ghost<TypeExpr>) -> (r:
        Result<Vec<Type>, TypeError>)
        requires
            decreases_to!(outer => ts@),
            old(self).next() + tyvar_counts(ts@) <= u32::MAX,
        ensures
            resolved_all_matches(
                r,
                resolve_tes(
                    ts@,
                    names_view(old(tyvar_map)@),
                    old(self).next() as nat,
                    strict,
                    old(self).aliases(),
                    old(self).arities(),
                ).0,
            ),
            names_view(final(tyvar_map)@) == resolve_tes(
                ts@,
                names_view(old(tyvar_map)@),
                old(self).next() as nat,
                strict,
                old(self).aliases(),
                old(self).arities(),
            ).1,
            final(self).next() as nat == resolve_tes(
                ts@,
                names_view(old(tyvar_map)@),
                old(self).next() as nat,
                strict,
                old(self).aliases(),
                old(self).arities(),
            ).2,
            final(self).bindings() == old(self).bindings(),
            final(self).env() == old(self).env(),
            final(self).arities() == old(self).arities(),
            final(self).aliases() == old(self).aliases(),
            final(self).cons() == old(self).cons(),
            final(self).tags() == old(self).tags(),
            final(self).dt_cons() == old(self).dt_cons(),
        decreases outer, 0nat,
    {
        let ghost map0 = names_view(tyvar_map@);
        let ghost n0 = self.next() as nat;
        let ghost al = self.aliases();
        let ghost ar = self.arities();
        let mut out: Vec<Type> = Vec::new();
        let mut i: usize = 0;
        while i < ts.len()
            invariant
                i <= ts@.len(),
                decreases_to!(outer => ts@),
                n0 + tyvar_counts(ts@) <= u32::MAX,
                al == old(self).aliases(),
                ar == old(self).arities(),
                map0 == names_view(old(tyvar_map)@),
                n0 == old(self).next() as nat,
                resolve_tes(ts@.take(i as int), map0, n0, strict, al, ar) == (
                    Ok::<Seq<TyV>, (Seq<char>, Span)>(tys_view(out@)),
                    names_view(tyvar_map@),
                    self.next() as nat,
                ),
                self.next() as nat <= n0 + tyvar_counts(ts@.take(i as int)),
                self.bindings() == old(self).bindings(),
                self.env() == old(self).env(),
                self.arities() == ar,
                self.aliases() == al,
                self.cons() == old(self).cons(),
                self.tags() == old(self).tags(),
                self.dt_cons() == old(self).dt_cons(),
            decreases ts@.len() - i,
        {
            assert(ts@.take(i + 1).drop_last() =~= ts@.take(i as int));
            assert(decreases_to!(ts@ => ts@[i as int]));
            proof {
                lemma_tyvar_counts_prefix(ts@, i as int + 1);
                lemma_tyvar_resolve_bound(ts@[i as int], names_view(tyvar_map@), self.next() as nat, strict, al, ar);
            }
            let ghost m_i = names_view(tyvar_map@);
            let ghost n_i = self.next() as nat;
            let res = self.resolve_type_expr_inner(&ts[i], tyvar_map, strict);
            proof {
                let pre = ts@.take(i + 1);
                assert(pre.last() == ts@[i as int]);
                assert(pre.drop_last() =~= ts@.take(i as int));
            }
            match res {
                Err(e) => {
                    proof {
                        let pre = ts@.take(i + 1);
                        let step = resolve_te(ts@[i as int], m_i, n_i, strict, al, ar);
                        assert(step.0 is Err);
                        assert(resolve_tes(pre, map0, n0, strict, al, ar) == (
                            Err::<Seq<TyV>, (Seq<char>, Span)>(step.0->Err_0),
                            step.1,
                            step.2,
                        ));
                        lemma_tes_prefix_err(ts@, i as int + 1, map0, n0, strict, al, ar);
                    }
                    return Err(e);
                },
                Ok(t) => {
                    proof {
                        lemma_tys_push(out@, t);
                    }
                    out.push(t);
                },
            }
            i = i + 1;
        }
        assert(ts@.take(ts@.len() as int) =~= ts@);
        Ok(out)
    }
}

/// The type variables of a prefix are no more than those of the whole.
pub proof fn lemma_tyvar_counts_prefix(ts: Seq<TypeExpr>, n: int)
    requires
        0 <= n <= ts.len(),
    ensures
        tyvar_counts(ts.take(n)) <= tyvar_counts(ts),
        n > 0 ==> tyvar_counts(ts.take(n - 1)) + tyvar_count(ts[n - 1]) == tyvar_counts(ts.take(n)),
    decreases ts.len() - n,
{
    if n > 0 {
        assert(ts.take(n).drop_last() =~= ts.take(n - 1));
    }
    if n < ts.len() {
        lemma_tyvar_counts_prefix(ts, n + 1);
        assert(ts.take(n + 1).drop_last() =~= ts.take(n));
    } else {
        assert(ts.take(n) =~= ts);
    }
}

/// Resolving allocates at most one fresh variable per variable written.
pub proof fn lemma_tyvar_resolve_bound(
    te: TypeExpr,
    map: Seq<(Seq<char>, u32)>,
    next: nat,
    strict: bool,
    al: Seq<(Seq<char>, (Seq<u32>, TyV))>,
    ar: Seq<(Seq<char>, usize)>,
)
    ensures
        next <= resolve_te(te, map, next, strict, al, ar).2 <= next + tyvar_count(te),
    decreases te, 1nat,
{
    match te.kind {
        TypeExprKind::App(_, args) => lemma_tyvar_resolves_bound(args@, map, next, strict, al, ar),
        TypeExprKind::Arrow(a, b) => {
            lemma_tyvar_resolve_bound(*a, map, next, strict, al, ar);
            let (_, m1, n1) = resolve_te(*a, map, next, strict, al, ar);
            lemma_tyvar_resolve_bound(*b, m1, n1, strict, al, ar);
        },
        TypeExprKind::Tuple(ts) => lemma_tyvar_resolves_bound(ts@, map, next, strict, al, ar),
        TypeExprKind::Paren(t) => lemma_tyvar_resolve_bound(*t, map, next, strict, al, ar),
        _ => {},
    }
}

pub proof fn lemma_tyvar_resolves_bound(
    ts: Seq<TypeExpr>,
    map: Seq<(Seq<char>, u32)>,
    next: nat,
    strict: bool,
    al: Seq<(Seq<char>, (Seq<u32>, TyV))>,
    ar: Seq<(Seq<char>, usize)>,
)
    ensures
        next <= resolve_tes(ts, map, next, strict, al, ar).2 <= next + tyvar_counts(ts),
    decreases ts, 0nat,
{
    if ts.len() > 0 {
        lemma_tyvar_resolves_bound(ts.drop_last(), map, next, strict, al, ar);
        let (_, m1, n1) = resolve_tes(ts.drop_last(), map, next, strict, al, ar);
        lemma_tyvar_resolve_bound(ts.last(), m1, n1, strict, al, ar);
    }
}

/// Strict resolution names no new variables: the naming and the next
/// fresh variable come back unchanged.
pub proof fn lemma_strict_keeps(
    te: TypeExpr,
    map: Seq<(Seq<char>, u32)>,
    next: nat,
    al: Seq<(Seq<char>, (Seq<u32>, TyV))>,
    ar: Seq<(Seq<char>, usize)>,
)
    ensures
        resolve_te(te, map, next, true, al, ar).1 == map,
        resolve_te(te, map, next, true, al, ar).2 == next,
    decreases te, 1nat,
{
    match te.kind {
        TypeExprKind::App(_, args) => lemma_strict_keeps_all(args@, map, next, al, ar),
        TypeExprKind::Arrow(a, b) => {
            lemma_strict_keeps(*a, map, next, al, ar);
            lemma_strict_keeps(*b, map, next, al, ar);
        },
        TypeExprKind::Tuple(ts) => lemma_strict_keeps_all(ts@, map, next, al, ar),
        TypeExprKind::Paren(t) => lemma_strict_keeps(*t, map, next, al, ar),
        _ => {},
    }
}

pub proof fn lemma_strict_keeps_all(
    ts: Seq<TypeExpr>,
    map: Seq<(Seq<char>, u32)>,
    next: nat,
    al: Seq<(Seq<char>, (Seq<u32>, TyV))>,
    ar: Seq<(Seq<char>, usize)>,
)
    ensures
        resolve_tes(ts, map, next, true, al, ar).1 == map,
        resolve_tes(ts, map, next, true, al, ar).2 == next,
    decreases ts, 0nat,
{
    if ts.len() > 0 {
        lemma_strict_keeps_all(ts.drop_last(), map, next, al, ar);
        lemma_strict_keeps(ts.last(), map, next, al, ar);
    }
}

/// An error in a prefix is the error of the whole.
pub proof fn lemma_tes_prefix_err(
    ts: Seq<TypeExpr>,
    n: int,
    map: Seq<(Seq<char>, u32)>,
    next: nat,
    strict: bool,
    al: Seq<(Seq<char>, (Seq<u32>, TyV))>,
    ar: Seq<(Seq<char>, usize)>,
)
    requires
        0 <= n <= ts.len(),
        resolve_tes(ts.take(n), map, next, strict, al, ar).0 is Err,
    ensures
        resolve_tes(ts, map, next, strict, al, ar) == resolve_tes(ts.take(n), map, next, strict, al, ar),
    decreases ts.len() - n,
{
    if n < ts.len() {
        assert(ts.take(n + 1).drop_last() =~= ts.take(n));
        lemma_tes_prefix_err(ts, n + 1, map, next, strict, al, ar);
    } else {
        assert(ts.take(n) =~= ts);
    }
}


// ── Pattern matching ─────────────────────────────────────────────────────

/// The description of a type that exhaustiveness checking uses: the
/// booleans, unit and lists have fixed constructors, tuples one, declared
/// datatypes theirs; everything else counts as infinite.
pub open spec fn type_info_of(t: TyV, dts: Seq<(Seq<char>, Seq<(Seq<char>, usize)>)>) -> TI {
    match t {
        TyV::Con(n) => if n == "Bool"@ {
            bool_ti()
        } else if n == "Unit"@ {
            unit_ti()
        } else if n == "Int"@ || n == "Float"@ || n == "String"@ || n == "Char"@ {
            infinite_ti()
        } else {
            match assoc(dts, n) {
                Some(cs) => adt_ti(cs),
                None => infinite_ti(),
            }
        },
        TyV::App(n, _) => if n == "list"@ {
            list_ti()
        } else {
            match assoc(dts, n) {
                Some(cs) => adt_ti(cs),
                None => infinite_ti(),
            }
        },
        TyV::Tuple(es) => tuple_ti(es.len() as usize),
        _ => infinite_ti(),
    }
}

/// The redundant clauses found are among the clauses checked.
pub proof fn lemma_redundant_below(
    rows: Seq<Seq<crate::types::exhaustive::SP>>,
    n: nat,
    ti: TI,
    dt: Seq<Seq<(Seq<char>, usize)>>,
)
    ensures
        forall|k: int| 0 <= k < redundant_upto(rows, n, ti, dt).len() ==> #[trigger] redundant_upto(
            rows,
            n,
            ti,
            dt,
        )[k] < n,
    decreases n,
{
    if n > 0 {
        lemma_redundant_below(rows, (n - 1) as nat, ti, dt);
        let prev = redundant_upto(rows, (n - 1) as nat, ti, dt);
        let r = redundant_upto(rows, n, ti, dt);
        assert forall|k: int| 0 <= k < r.len() implies #[trigger] r[k] < n by {
            if clause_redundant(rows, n - 1, ti, dt) {
                assert(r == prev.push((n - 1) as usize));
                if k < prev.len() {
                    assert(r[k] == prev[k]);
                }
            } else {
                assert(r == prev);
            }
        }
    }
}

impl InferCtx {
    /// The constructors of a datatype by name, for exhaustiveness checking.
    fn datatype_info(&self, name: &String) -> (r: TypeInfo)
        ensures
            r@ == match assoc(self.dt_cons(), name@) {
                Some(cs) => adt_ti(cs),
                None => infinite_ti(),
            },
    {
        let ghost d = self.dt_cons();
        match find_key(&self.datatype_constructors, name.as_str()) {
            Some(i) => {
                proof {
                    assert(first_at(d, name@, i as int)) by {
                        assert forall|j: int| 0 <= j < i implies #[trigger] d[j].0 != name@ by {
                            assert(d[j].0 == self.datatype_constructors@[j].0@);
                        }
                    }
                    lemma_assoc_first(d, name@, i as int);
                }
                TypeInfo::adt_type(name.as_str(), &self.datatype_constructors[i].1)
            },
            None => {
                proof {
                    assert(absent(d, name@)) by {
                        assert forall|j: int| 0 <= j < d.len() implies #[trigger] d[j].0 != name@ by {
                            assert(d[j].0 == self.datatype_constructors@[j].0@);
                        }
                    }
                    lemma_assoc_absent(d, name@);
                }
                TypeInfo::infinite()
            },
        }
    }

    /// The description of `ty` that exhaustiveness checking uses.
    pub fn type_info_for(&self, ty: &Type) -> (r: TypeInfo)
        ensures
            r@ == type_info_of(ty_view(*ty), self.dt_cons()),
    {
        match ty {
            Type::Con(name) => {
                let s = name.as_str();
                if str_eq(s, "Bool") {
                    TypeInfo::bool_type()
                } else if str_eq(s, "Unit") {
                    TypeInfo::unit_type()
                } else if str_eq(s, "Int") || str_eq(s, "Float") || str_eq(s, "String") || str_eq(
                    s,
                    "Char",
                ) {
                    TypeInfo::infinite()
                } else {
                    self.datatype_info(name)
                }
            },
            Type::App(name, _) => {
                if str_eq(name.as_str(), "list") {
                    TypeInfo::list_type()
                } else {
                    self.datatype_info(name)
                }
            },
            Type::Tuple(elems) => {
                proof {
                    lemma_tys_view_index(elems@);
                }
                TypeInfo::tuple_type(elems.len())
            },
            Type::Var(_) => TypeInfo::infinite(),
            Type::Arrow(_, _) => TypeInfo::infinite(),
        }
    }

    /// Checks a match for exhaustiveness (an error when it is not) and
    /// records a warning for each redundant clause.
    #[verifier::spinoff_prover]
    pub fn check_exhaustiveness(&mut self, pats: &[&Pat], type_info: &TypeInfo, span: Span) -> (r: Result<
        (),
        TypeError,
    >)
        ensures
            ({
                let rows = clause_rows(pats_of(pats@), old(self).tags());
                let dt = old(self).dt_sets();
                let red = redundant_upto(rows, pats@.len(), type_info@, dt);
                if match_exhaustive(rows, type_info@, dt) {
                    &&& r is Ok
                    &&& final(self).warns().len() == old(self).warns().len() + red.len()
                    &&& final(self).warns().take(old(self).warns().len() as int) == old(self).warns()
                    &&& forall|k: int|
                        0 <= k < red.len() ==> #[trigger] final(self).warns()[old(self).warns().len()
                            + k].message@ == "redundant match clause (clause "@ + digits((red[k] + 1) as nat)
                            + ")"@ && final(self).warns()[old(self).warns().len() + k].span
                            == pats@[red[k] as int].span
                } else {
                    &&& r matches Err(e)
                    &&& e.message@ == "non-exhaustive match"@
                    &&& e.span == span
                    &&& final(self).warns() == old(self).warns()
                }
            }),
            final(self).bindings() == old(self).bindings(),
            final(self).env() == old(self).env(),
            final(self).next() == old(self).next(),
            final(self).tags() == old(self).tags(),
            final(self).dt_cons() == old(self).dt_cons(),
    {
        let result = check_match(pats, type_info, &self.constructor_tags, &self.datatype_constructors);
        proof {
            assert(self.tags() =~= tags_view(self.constructor_tags@));
        }
        if !result.exhaustive {
            return Err(self.err("non-exhaustive match", span));
        }
        let ghost w0 = self.warnings@;
        let ghost red = result.redundant_clauses@;
        proof {
            lemma_redundant_below(
                clause_rows(pats_of(pats@), tags_view(self.constructor_tags@)),
                pats@.len(),
                type_info@,
                dt_view(self.datatype_constructors@),
            );
        }
        let n_pats = pats.len();
        let mut k: usize = 0;
        while k < result.redundant_clauses.len()
            invariant
                n_pats == pats@.len(),
                k <= red.len(),
                red == result.redundant_clauses@,
                forall|q: int| 0 <= q < red.len() ==> #[trigger] red[q] < pats@.len(),
                self.bindings() == old(self).bindings(),
                self.env() == old(self).env(),
                self.next() == old(self).next(),
                self.tags() == old(self).tags(),
                self.dt_cons() == old(self).dt_cons(),
                self.warnings@.len() == w0.len() + k,
                self.warnings@.take(w0.len() as int) == w0,
                forall|q: int|
                    0 <= q < k ==> #[trigger] self.warnings@[w0.len() + q].message@
                        == "redundant match clause (clause "@ + digits((red[q] + 1) as nat) + ")"@
                        && self.warnings@[w0.len() + q].span == pats@[red[q] as int].span,
            decreases red.len() - k,
        {
            let idx = result.redundant_clauses[k];
            assert(idx < n_pats);
            let mut message = to_string("redundant match clause (clause ");
            push_digits(&mut message, idx as u64 + 1);
            push_str(&mut message, ")");
            let ghost before = self.warnings@;
            self.warnings.push(Warning { message, span: pats[idx].span });
            proof {
                assert(self.warnings@.take(w0.len() as int) =~= before.take(w0.len() as int));
                assert(self.warnings@[w0.len() + k] == self.warnings@.last());
                assert forall|q: int|
                    0 <= q < k + 1 implies #[trigger] self.warnings@[w0.len() + q].message@
                        == "redundant match clause (clause "@ + digits((red[q] + 1) as nat) + ")"@
                        && self.warnings@[w0.len() + q].span == pats@[red[q] as int].span by {
                    if q < k {
                        assert(self.warnings@[w0.len() + q] == before[w0.len() + q]);
                    }
                }
                assert(forall|q: int|
                    0 <= q < k + 1 ==> #[trigger] self.warnings@[w0.len() + q].message@
                        == "redundant match clause (clause "@ + digits((red[q] + 1) as nat) + ")"@
                        && self.warnings@[w0.len() + q].span == pats@[red[q] as int].span);
            }
            k = k + 1;
        }
        proof {
            let rows = clause_rows(pats_of(pats@), old(self).tags());
            assert(old(self).dt_sets() == dt_view(old(self).datatype_constructors@));
            assert(red == redundant_upto(rows, pats@.len(), type_info@, old(self).dt_sets()));
            assert(match_exhaustive(rows, type_info@, old(self).dt_sets()));
            assert(self.warns() == self.warnings@);
            assert(old(self).warns() == w0);
        }
        Ok(())
    }
}


// ── Declaring types ──────────────────────────────────────────────────────

/// The naming of a declaration's type variables: the `i`-th gets variable
/// `n0 + i`, a repeated name its last variable.
pub open spec fn tyvar_naming(tvs: Seq<String>, n0: nat) -> Seq<(Seq<char>, u32)>
    decreases tvs.len(),
{
    if tvs.len() == 0 {
        Seq::empty()
    } else {
        assoc_put(tyvar_naming(tvs.drop_last(), n0), tvs.last()@, (n0 + tvs.len() - 1) as u32)
    }
}

/// The variables `n0 .. n0 + k`.
pub open spec fn fresh_range(n0: nat, k: nat) -> Seq<u32> {
    Seq::new(k, |i: int| (n0 + i) as u32)
}

/// What declaring a type alias does: refused when its name is taken; else
/// its parameters get fresh variables and its body is resolved strictly;
/// on success the alias and its arity are recorded.
pub open spec fn alias_outcome(
    ta: TypeAliasDecl,
    next: nat,
    aliases: Seq<(Seq<char>, (Seq<u32>, TyV))>,
    arities: Seq<(Seq<char>, usize)>,
) -> (Result<(Seq<(Seq<char>, (Seq<u32>, TyV))>, Seq<(Seq<char>, usize)>), (Seq<char>, Span)>, nat) {
    if assoc(arities, ta.name@) is Some || assoc(aliases, ta.name@) is Some {
        (Err(("duplicate type name: "@ + ta.name@, ta.span)), next)
    } else {
        let k = ta.tyvars@.len();
        let (r, _, n1) = resolve_te(ta.ty, tyvar_naming(ta.tyvars@, next), next + k, true, aliases, arities);
        match r {
            Err(e) => (Err(e), n1),
            Ok(body) => (
                Ok(
                    (
                        assoc_put(aliases, ta.name@, (fresh_range(next, k), body)),
                        assoc_put(arities, ta.name@, k as usize),
                    ),
                ),
                n1,
            ),
        }
    }
}

impl InferCtx {
    /// Resolves a type expression, refusing type variables not yet named.
    pub fn resolve_type_expr_strict(&mut self, te: &TypeExpr, tyvar_map: &mut Vec<(String, u32)>) -> (r: Result<
        Type,
        TypeError,
    >)
        requires
            old(self).next() + tyvar_count(*te) <= u32::MAX,
        ensures
            resolved_matches(
                r,
                resolve_te(*te, names_view(old(tyvar_map)@), old(self).next() as nat, true, old(self).aliases(), old(self).arities()).0,
            ),
            names_view(final(tyvar_map)@) == resolve_te(*te, names_view(old(tyvar_map)@), old(self).next() as nat, true, old(self).aliases(), old(self).arities()).1,
            final(self).next() as nat == resolve_te(*te, names_view(old(tyvar_map)@), old(self).next() as nat, true, old(self).aliases(), old(self).arities()).2,
            final(self).bindings() == old(self).bindings(),
            final(self).env() == old(self).env(),
            final(self).arities() == old(self).arities(),
            final(self).aliases() == old(self).aliases(),
            final(self).cons() == old(self).cons(),
            final(self).tags() == old(self).tags(),
            final(self).dt_cons() == old(self).dt_cons(),
    {
        self.resolve_type_expr_inner(te, tyvar_map, true)
    }

    /// Resolves a type expression, giving fresh variables to type variables
    /// not yet named.
    pub fn resolve_type_expr(&mut self, te: &TypeExpr, tyvar_map: &mut Vec<(String, u32)>) -> (r: Result<
        Type,
        TypeError,
    >)
        requires
            old(self).next() + tyvar_count(*te) <= u32::MAX,
        ensures
            resolved_matches(
                r,
                resolve_te(*te, names_view(old(tyvar_map)@), old(self).next() as nat, false, old(self).aliases(), old(self).arities()).0,
            ),
            names_view(final(tyvar_map)@) == resolve_te(*te, names_view(old(tyvar_map)@), old(self).next() as nat, false, old(self).aliases(), old(self).arities()).1,
            final(self).next() as nat == resolve_te(*te, names_view(old(tyvar_map)@), old(self).next() as nat, false, old(self).aliases(), old(self).arities()).2,
            final(self).bindings() == old(self).bindings(),
            final(self).env() == old(self).env(),
            final(self).arities() == old(self).arities(),
            final(self).aliases() == old(self).aliases(),
            final(self).cons() == old(self).cons(),
            final(self).tags() == old(self).tags(),
            final(self).dt_cons() == old(self).dt_cons(),
    {
        self.resolve_type_expr_inner(te, tyvar_map, false)
    }

    /// Declares a type alias.
    pub fn register_type_alias(&mut self, ta: &TypeAliasDecl) -> (r: Result<(), TypeError>)
        requires
            old(self).next() + ta.tyvars@.len() + tyvar_count(ta.ty) <= u32::MAX,
        ensures
            ({
                let (o, n1) = alias_outcome(*ta, old(self).next() as nat, old(self).aliases(), old(self).arities());
                &&& final(self).next() as nat == n1
                &&& match (r, o) {
                    (Ok(()), Ok((al, ar))) => final(self).aliases() == al && final(self).arities() == ar,
                    (Err(e), Err(x)) => e.message@ == x.0 && e.span == x.1 && final(self).aliases()
                        == old(self).aliases() && final(self).arities() == old(self).arities(),
                    _ => false,
                }
            }),
            final(self).bindings() == old(self).bindings(),
            final(self).env() == old(self).env(),
            final(self).cons() == old(self).cons(),
            final(self).tags() == old(self).tags(),
            final(self).dt_cons() == old(self).dt_cons(),
    {
        let ghost al = self.aliases();
        let ghost ar = self.arities();
        let ghost n0 = self.next() as nat;
        let dup_arity = find_key(&self.type_arities, ta.name.as_str());
        let dup_alias = find_key(&self.type_aliases, ta.name.as_str());
        proof {
            match dup_arity {
                Some(i) => {
                    assert(first_at(ar, ta.name@, i as int)) by {
                        assert forall|j: int| 0 <= j < i implies #[trigger] ar[j].0 != ta.name@ by {
                            assert(ar[j].0 == self.type_arities@[j].0@);
                        }
                    }
                    lemma_assoc_first(ar, ta.name@, i as int);
                },
                None => {
                    assert(absent(ar, ta.name@)) by {
                        assert forall|j: int| 0 <= j < ar.len() implies #[trigger] ar[j].0 != ta.name@ by {
                            assert(ar[j].0 == self.type_arities@[j].0@);
                        }
                    }
                    lemma_assoc_absent(ar, ta.name@);
                },
            }
            match dup_alias {
                Some(i) => {
                    assert(first_at(al, ta.name@, i as int)) by {
                        assert forall|j: int| 0 <= j < i implies #[trigger] al[j].0 != ta.name@ by {
                            assert(al[j].0 == self.type_aliases@[j].0@);
                        }
                    }
                    lemma_assoc_first(al, ta.name@, i as int);
                },
                None => {
                    assert(absent(al, ta.name@)) by {
                        assert forall|j: int| 0 <= j < al.len() implies #[trigger] al[j].0 != ta.name@ by {
                            assert(al[j].0 == self.type_aliases@[j].0@);
                        }
                    }
                    lemma_assoc_absent(al, ta.name@);
                },
            }
        }
        if dup_arity.is_some() || dup_alias.is_some() {
            let m = message_with("duplicate type name: ", &ta.name);
            return Err(self.err(m.as_str(), ta.span));
        }
        let mut tyvar_map: Vec<(String, u32)> = Vec::new();
        let mut param_vars: Vec<u32> = Vec::new();
        let mut i: usize = 0;
        while i < ta.tyvars.len()
            invariant
                i <= ta.tyvars@.len(),
                n0 == old(self).next() as nat,
                n0 + ta.tyvars@.len() + tyvar_count(ta.ty) <= u32::MAX,
                self.next() as nat == n0 + i,
                names_view(tyvar_map@) == tyvar_naming(ta.tyvars@.take(i as int), n0),
                param_vars@ == fresh_range(n0, i as nat),
                self.bindings() == old(self).bindings(),
                self.env() == old(self).env(),
                self.arities() == old(self).arities(),
                self.aliases() == old(self).aliases(),
                self.cons() == old(self).cons(),
                self.tags() == old(self).tags(),
                self.dt_cons() == old(self).dt_cons(),
            decreases ta.tyvars@.len() - i,
        {
            let v = self.next_var;
            self.next_var = self.next_var + 1;
            let ghost mv = names_view(tyvar_map@);
            let ghost tm0 = tyvar_map@;
            let name = crate::text::clone_string(&ta.tyvars[i]);
            let put = put_key(&mut tyvar_map, name, v);
            proof {
                let k = ta.tyvars@[i as int]@;
                match put {
                    Some(q) => {
                        assert(first_at(mv, k, q as int)) by {
                            assert forall|j: int| 0 <= j < q implies #[trigger] mv[j].0 != k by {
                                assert(mv[j].0 == tm0[j].0@);
                            }
                        }
                        lemma_assoc_put_first(mv, k, q as int, v);
                        assert(names_view(tyvar_map@) =~= mv.update(q as int, (k, v)));
                    },
                    None => {
                        assert(absent(mv, k)) by {
                            assert forall|j: int| 0 <= j < mv.len() implies #[trigger] mv[j].0 != k by {
                                assert(mv[j].0 == tm0[j].0@);
                            }
                        }
                        lemma_assoc_put_absent(mv, k, v);
                        assert(names_view(tyvar_map@) =~= mv.push((k, v)));
                    },
                }
                let pre = ta.tyvars@.take(i + 1);
                assert(pre.drop_last() =~= ta.tyvars@.take(i as int));
                assert(pre.last() == ta.tyvars@[i as int]);
            }
            param_vars.push(v);
            assert(param_vars@ =~= fresh_range(n0, (i + 1) as nat));
            i = i + 1;
        }
        assert(ta.tyvars@.take(ta.tyvars@.len() as int) =~= ta.tyvars@);
        let body = match self.resolve_type_expr_strict(&ta.ty, &mut tyvar_map) {
            Err(e) => return Err(e),
            Ok(b) => b,
        };
        let ghost body_v = ty_view(body);
        let ghost al1 = self.aliases();
        let put1 = put_key(&mut self.type_aliases, crate::text::clone_string(&ta.name), (param_vars, body));
        proof {
            let k = ta.name@;
            let w = (fresh_range(n0, ta.tyvars@.len()), body_v);
            assert(absent(al1, k));
            assert(put1 is None) by {
                if put1 is Some {
                    let q = put1->Some_0;
                    assert(al1[q as int].0 == k);
                }
            }
            lemma_assoc_put_absent(al1, k, w);
            assert(self.aliases() =~= al1.push((k, w)));
        }
        let ghost ar1 = self.arities();
        let put2 = put_key(&mut self.type_arities, crate::text::clone_string(&ta.name), ta.tyvars.len());
        proof {
            let k = ta.name@;
            assert(absent(ar1, k));
            assert(put2 is None) by {
                if put2 is Some {
                    let q = put2->Some_0;
                    assert(ar1[q as int].0 == k);
                }
            }
            lemma_assoc_put_absent(ar1, k, ta.tyvars@.len() as usize);
            assert(self.arities() =~= ar1.push((k, ta.tyvars@.len() as usize)));
        }
        Ok(())
    }
}


// ── Declaring datatypes ──────────────────────────────────────────────────

/// The type a datatype's values have: its name applied to its parameters.
pub open spec fn datatype_result(name: Seq<char>, n0: nat, k: nat) -> TyV {
    if k == 0 {
        TyV::Con(name)
    } else {
        TyV::App(name, Seq::new(k, |i: int| TyV::Var((n0 + i) as u32)))
    }
}

/// A constructor's scheme: its payload's type (resolved strictly against
/// the datatype's parameters) to the datatype, over the parameters.
pub open spec fn con_scheme(
    c: ConDecl,
    dt: DatatypeDecl,
    n0: nat,
    al: Seq<(Seq<char>, (Seq<u32>, TyV))>,
    ar: Seq<(Seq<char>, usize)>,
) -> Result<SchemeV, (Seq<char>, Span)> {
    let k = dt.tyvars@.len();
    let res = datatype_result(dt.name@, n0, k);
    match c.payload {
        Some(p) => match resolve_te(p, tyvar_naming(dt.tyvars@, n0), n0 + k, true, al, ar).0 {
            Ok(t) => Ok(SchemeV { vars: fresh_range(n0, k), ty: TyV::Arrow(Box::new(t), Box::new(res)) }),
            Err(e) => Err(e),
        },
        None => Ok(SchemeV { vars: fresh_range(n0, k), ty: res }),
    }
}

/// The constructor table after declaring the first `j` constructors, or
/// the first error: a name already taken, or a payload that does not
/// resolve.
pub open spec fn cons_after(
    dt: DatatypeDecl,
    j: int,
    cons0: Seq<(Seq<char>, SchemeV)>,
    n0: nat,
    al: Seq<(Seq<char>, (Seq<u32>, TyV))>,
    ar: Seq<(Seq<char>, usize)>,
) -> Result<Seq<(Seq<char>, SchemeV)>, (Seq<char>, Span)>
    decreases j,
{
    if j <= 0 || j > dt.constructors@.len() {
        Ok(cons0)
    } else {
        match cons_after(dt, j - 1, cons0, n0, al, ar) {
            Err(e) => Err(e),
            Ok(t) => {
                let c = dt.constructors@[j - 1];
                if assoc(t, c.name@) is Some {
                    Err(("duplicate constructor name: "@ + c.name@, c.span))
                } else {
                    match con_scheme(c, dt, n0, al, ar) {
                        Err(e) => Err(e),
                        Ok(sc) => Ok(assoc_put(t, c.name@, sc)),
                    }
                }
            },
        }
    }
}

/// The constructor tags after tagging the first `j` constructors by
/// position.
pub open spec fn tags_after(cs: Seq<ConDecl>, j: int, tags0: Seq<(Seq<char>, u16)>) -> Seq<(Seq<char>, u16)>
    decreases j,
{
    if j <= 0 || j > cs.len() {
        tags0
    } else {
        assoc_put(tags_after(cs, j - 1, tags0), cs[j - 1].name@, (j - 1) as u16)
    }
}

/// Each constructor's name with its arity (one with a payload, else none).
pub open spec fn con_info(cs: Seq<ConDecl>) -> Seq<(Seq<char>, usize)> {
    Seq::new(cs.len(), |i: int| (cs[i].name@, if cs[i].payload is Some { 1usize } else { 0usize }))
}

/// `x` names one of the first `j` constructors.
pub open spec fn names_con(cs: Seq<ConDecl>, j: int, x: Seq<char>) -> bool {
    exists|i: int| 0 <= i < j && #[trigger] cs[i].name@ == x
}

impl InferCtx {
    /// Declares a datatype: records its arity, gives its parameters fresh
    /// variables, binds each constructor to its scheme, and records the
    /// constructors' tags and arities for exhaustiveness checking.
    pub fn register_datatype(&mut self, dt: &DatatypeDecl) -> (r: Result<(), TypeError>)
        requires
            old(self).next() + dt.tyvars@.len() <= u32::MAX,
            old(self).env().len() > 0,
            forall|i: int|
                0 <= i < dt.constructors@.len() ==> match (#[trigger] dt.constructors@[i]).payload {
                    Some(p) => old(self).next() + dt.tyvars@.len() + tyvar_count(p) <= u32::MAX,
                    None => true,
                },
        ensures
            ({
                let n0 = old(self).next() as nat;
                let k = dt.tyvars@.len();
                let ar1 = assoc_put(old(self).arities(), dt.name@, k as usize);
                let outcome = cons_after(*dt, dt.constructors@.len() as int, old(self).cons(), n0, old(self).aliases(), ar1);
                if assoc(old(self).arities(), dt.name@) is Some {
                    &&& r matches Err(e)
                    &&& e.message@ == "duplicate type name: "@ + dt.name@
                    &&& e.span == dt.span
                    &&& final(self).next() == old(self).next()
                    &&& final(self).arities() == old(self).arities()
                    &&& final(self).cons() == old(self).cons()
                    &&& final(self).env() == old(self).env()
                } else {
                    &&& final(self).next() as nat == n0 + k
                    &&& final(self).arities() == ar1
                    &&& match (r, outcome) {
                        (Ok(()), Ok(t)) => {
                            &&& final(self).cons() == t
                            &&& final(self).tags() == tags_after(dt.constructors@, dt.constructors@.len() as int, old(self).tags())
                            &&& final(self).dt_cons() == assoc_put(old(self).dt_cons(), dt.name@, con_info(dt.constructors@))
                            &&& forall|x: Seq<char>| #[trigger] final(self).lookup_spec(x) == if names_con(dt.constructors@, dt.constructors@.len() as int, x) {
                                assoc(t, x)
                            } else {
                                old(self).lookup_spec(x)
                            }
                        },
                        (Err(e), Err(m)) => e.message@ == m.0 && e.span == m.1,
                        _ => false,
                    }
                }
            }),
            final(self).bindings() == old(self).bindings(),
            final(self).aliases() == old(self).aliases(),
            final(self).env().len() == old(self).env().len(),
            final(self).env().drop_last() == old(self).env().drop_last(),
            keeps_names(old(self).env().last(), final(self).env().last()),
    {
        let ghost n0 = self.next() as nat;
        let ghost k = dt.tyvars@.len();
        let ghost al = self.aliases();
        let ghost ar0 = self.arities();
        let ghost cons0 = self.cons();
        let ghost tags0 = self.tags();
        let ghost dtc0 = self.dt_cons();
        let ghost env_look = |x: Seq<char>| self.lookup_spec(x);
        let dup = find_key(&self.type_arities, dt.name.as_str());
        proof {
            match dup {
                Some(i) => {
                    assert(first_at(ar0, dt.name@, i as int)) by {
                        assert forall|j: int| 0 <= j < i implies #[trigger] ar0[j].0 != dt.name@ by {
                            assert(ar0[j].0 == self.type_arities@[j].0@);
                        }
                    }
                    lemma_assoc_first(ar0, dt.name@, i as int);
                },
                None => {
                    assert(absent(ar0, dt.name@)) by {
                        assert forall|j: int| 0 <= j < ar0.len() implies #[trigger] ar0[j].0 != dt.name@ by {
                            assert(ar0[j].0 == self.type_arities@[j].0@);
                        }
                    }
                    lemma_assoc_absent(ar0, dt.name@);
                },
            }
        }
        if dup.is_some() {
            let m = message_with("duplicate type name: ", &dt.name);
            return Err(self.err(m.as_str(), dt.span));
        }
        let arity = dt.tyvars.len();
        let put = put_key(&mut self.type_arities, crate::text::clone_string(&dt.name), arity);
        proof {
            assert(put is None) by {
                if put is Some {
                    let q = put->Some_0;
                    assert(ar0[q as int].0 == dt.name@);
                }
            }
            lemma_assoc_put_absent(ar0, dt.name@, arity);
            assert(self.arities() =~= ar0.push((dt.name@, arity)));
        }
        let ghost ar1 = self.arities();
        // the parameters' variables, and the naming of the parameters
        let mut tyvar_map: Vec<(String, u32)> = Vec::new();
        let mut param_vars: Vec<u32> = Vec::new();
        let mut args: Vec<Type> = Vec::new();
        let mut i: usize = 0;
        while i < dt.tyvars.len()
            invariant
                i <= dt.tyvars@.len(),
                n0 == old(self).next() as nat,
                n0 + dt.tyvars@.len() <= u32::MAX,
                self.next() as nat == n0 + i,
                names_view(tyvar_map@) == tyvar_naming(dt.tyvars@.take(i as int), n0),
                param_vars@ == fresh_range(n0, i as nat),
                tys_view(args@) == Seq::new(i as nat, |q: int| TyV::Var((n0 + q) as u32)),
                self.bindings() == old(self).bindings(),
                self.env() == old(self).env(),
                self.arities() == ar1,
                self.aliases() == al,
                self.cons() == cons0,
                self.tags() == tags0,
                self.dt_cons() == dtc0,
            decreases dt.tyvars@.len() - i,
        {
            let v = self.next_var;
            self.next_var = self.next_var + 1;
            let ghost mv = names_view(tyvar_map@);
            let ghost tm0 = tyvar_map@;
            let put = put_key(&mut tyvar_map, crate::text::clone_string(&dt.tyvars[i]), v);
            proof {
                let key = dt.tyvars@[i as int]@;
                match put {
                    Some(q) => {
                        assert(first_at(mv, key, q as int)) by {
                            assert forall|j: int| 0 <= j < q implies #[trigger] mv[j].0 != key by {
                                assert(mv[j].0 == tm0[j].0@);
                            }
                        }
                        lemma_assoc_put_first(mv, key, q as int, v);
                        assert(names_view(tyvar_map@) =~= mv.update(q as int, (key, v)));
                    },
                    None => {
                        assert(absent(mv, key)) by {
                            assert forall|j: int| 0 <= j < mv.len() implies #[trigger] mv[j].0 != key by {
                                assert(mv[j].0 == tm0[j].0@);
                            }
                        }
                        lemma_assoc_put_absent(mv, key, v);
                        assert(names_view(tyvar_map@) =~= mv.push((key, v)));
                    },
                }
                let pre = dt.tyvars@.take(i + 1);
                assert(pre.drop_last() =~= dt.tyvars@.take(i as int));
                assert(pre.last() == dt.tyvars@[i as int]);
            }
            param_vars.push(v);
            proof {
                lemma_tys_push(args@, Type::Var(v));
            }
            args.push(Type::Var(v));
            assert(param_vars@ =~= fresh_range(n0, (i + 1) as nat));
            assert(tys_view(args@) =~= Seq::new((i + 1) as nat, |q: int| TyV::Var((n0 + q) as u32)));
            i = i + 1;
        }
        assert(dt.tyvars@.take(dt.tyvars@.len() as int) =~= dt.tyvars@);
        let result_ty = if arity == 0 {
            Type::Con(crate::text::clone_string(&dt.name))
        } else {
            Type::App(crate::text::clone_string(&dt.name), args)
        };
        assert(ty_view(result_ty) == datatype_result(dt.name@, n0, k));
        // the constructors
        let mut c: usize = 0;
        while c < dt.constructors.len()
            invariant
                c <= dt.constructors@.len(),
                n0 == old(self).next() as nat,
                k == dt.tyvars@.len(),
                self.next() as nat == n0 + k,
                names_view(tyvar_map@) == tyvar_naming(dt.tyvars@, n0),
                param_vars@ == fresh_range(n0, k),
                ty_view(result_ty) == datatype_result(dt.name@, n0, k),
                forall|q: int|
                    0 <= q < dt.constructors@.len() ==> match (#[trigger] dt.constructors@[q]).payload {
                        Some(p) => n0 + k + tyvar_count(p) <= u32::MAX,
                        None => true,
                    },
                cons_after(*dt, c as int, cons0, n0, al, ar1) == Ok::<Seq<(Seq<char>, SchemeV)>, (Seq<char>, Span)>(self.cons()),
                self.env().len() == old(self).env().len(),
                old(self).env().len() > 0,
                self.env().drop_last() == old(self).env().drop_last(),
                keeps_names(old(self).env().last(), self.env().last()),
                forall|x: Seq<char>| #[trigger] self.lookup_spec(x) == if names_con(dt.constructors@, c as int, x) {
                    assoc(self.cons(), x)
                } else {
                    old(self).lookup_spec(x)
                },
                self.bindings() == old(self).bindings(),
                self.arities() == ar1,
                self.aliases() == al,
                self.tags() == tags0,
                self.dt_cons() == dtc0,
                al == old(self).aliases(),
                cons0 == old(self).cons(),
                tags0 == old(self).tags(),
                dtc0 == old(self).dt_cons(),
                ar1 == assoc_put(old(self).arities(), dt.name@, k as usize),
                assoc(old(self).arities(), dt.name@) is None,
            decreases dt.constructors@.len() - c,
        {
            let con = &dt.constructors[c];
            let ghost s0 = *self;
            let ghost t = self.cons();
            let ghost cv = self.constructors@;
            let found = find_key(&self.constructors, con.name.as_str());
            proof {
                let pre_ok = cons_after(*dt, c as int + 1, cons0, n0, al, ar1);
                match found {
                    Some(q) => {
                        assert(first_at(t, con.name@, q as int)) by {
                            assert forall|j: int| 0 <= j < q implies #[trigger] t[j].0 != con.name@ by {
                                assert(t[j].0 == cv[j].0@);
                            }
                        }
                        lemma_assoc_first(t, con.name@, q as int);
                    },
                    None => {
                        assert(absent(t, con.name@)) by {
                            assert forall|j: int| 0 <= j < t.len() implies #[trigger] t[j].0 != con.name@ by {
                                assert(t[j].0 == cv[j].0@);
                            }
                        }
                        lemma_assoc_absent(t, con.name@);
                    },
                }
            }
            if found.is_some() {
                let m = message_with("duplicate constructor name: ", &con.name);
                proof {
                    lemma_cons_after_err(*dt, c as int + 1, cons0, n0, al, ar1);
                }
                return Err(self.err(m.as_str(), con.span));
            }
            let con_ty = match &con.payload {
                Some(payload) => {
                    let mut map_copy = crate::types::infer::copy_names(&tyvar_map);
                    proof {
                        lemma_strict_keeps(*payload, names_view(map_copy@), self.next() as nat, al, ar1);
                    }
                    match self.resolve_type_expr_strict(payload, &mut map_copy) {
                        Ok(pt) => Type::arrow(pt, result_ty.duplicate()),
                        Err(e) => {
                            proof {
                                lemma_cons_after_err(*dt, c as int + 1, cons0, n0, al, ar1);
                            }
                            return Err(e);
                        },
                    }
                },
                None => result_ty.duplicate(),
            };
            let ghost sc = SchemeV { vars: fresh_range(n0, k), ty: ty_view(con_ty) };
            assert(con_scheme(*con, *dt, n0, al, ar1) == Ok::<SchemeV, (Seq<char>, Span)>(sc));
            let vars_copy = crate::types::infer::copy_vars(&param_vars);
            let scheme = Scheme { vars: vars_copy, ty: con_ty };
            let scheme2 = scheme.duplicate();
            let put = put_key(&mut self.constructors, crate::text::clone_string(&con.name), scheme);
            proof {
                assert(put is None) by {
                    if put is Some {
                        let q = put->Some_0;
                        assert(t[q as int].0 == con.name@);
                    }
                }
                lemma_assoc_put_absent(t, con.name@, sc);
                assert(self.cons() =~= t.push((con.name@, sc)));
                assert(cons_after(*dt, c as int + 1, cons0, n0, al, ar1) == Ok::<Seq<(Seq<char>, SchemeV)>, (Seq<char>, Span)>(self.cons()));
            }
            let ghost s1 = *self;
            assert(s1.env() == s0.env());
            self.bind(crate::text::clone_string(&con.name), scheme2);
            proof {
                assert forall|x: Seq<char>| #[trigger] self.lookup_spec(x) == if names_con(dt.constructors@, c + 1, x) {
                    assoc(self.cons(), x)
                } else {
                    old(self).lookup_spec(x)
                } by {
                    crate::types::assoc::lemma_assoc_put_get(t, con.name@, sc, x);
                    assert(s1.lookup_spec(x) == s0.lookup_spec(x));
                    if x == con.name@ {
                        assert(dt.constructors@[c as int].name@ == x);
                    } else {
                        if names_con(dt.constructors@, c + 1, x) {
                            let q = choose|q: int| 0 <= q < c + 1 && #[trigger] dt.constructors@[q].name@ == x;
                            assert(q != c);
                            assert(names_con(dt.constructors@, c as int, x));
                        }
                        if names_con(dt.constructors@, c as int, x) {
                            let q = choose|q: int| 0 <= q < c && #[trigger] dt.constructors@[q].name@ == x;
                            assert(names_con(dt.constructors@, c + 1, x));
                        }
                    }
                }
            }
            c = c + 1;
        }
        // tags and constructor arities, for exhaustiveness checking
        let ghost env_mid = self.env();
        let ghost cons_mid = self.cons();
        assert forall|x: Seq<char>| #[trigger] env_lookup(env_mid, x) == if names_con(dt.constructors@, dt.constructors@.len() as int, x) {
            assoc(cons_mid, x)
        } else {
            old(self).lookup_spec(x)
        } by {
            assert(self.lookup_spec(x) == env_lookup(env_mid, x));
        }
        let mut info: Vec<(String, usize)> = Vec::new();
        let mut q: usize = 0;
        while q < dt.constructors.len()
            invariant
                q <= dt.constructors@.len(),
                info@.len() == q,
                self.tags() == tags_after(dt.constructors@, q as int, tags0),
                info@.map_values(|p: (String, usize)| (p.0@, p.1)) == con_info(dt.constructors@).take(q as int),
                self.bindings() == old(self).bindings(),
                self.arities() == ar1,
                self.aliases() == al,
                self.next() as nat == n0 + k,
                self.dt_cons() == dtc0,
                self.env() == env_mid,
                self.cons() == cons_mid,
            decreases dt.constructors@.len() - q,
        {
            let con = &dt.constructors[q];
            let ghost tg = self.tags();
            let ghost tv = self.constructor_tags@;
            let tag: u16 = #[verifier::truncate] (q as u16);
            let put = put_key(&mut self.constructor_tags, crate::text::clone_string(&con.name), tag);
            proof {
                let key = con.name@;
                match put {
                    Some(p) => {
                        assert(first_at(tg, key, p as int)) by {
                            assert forall|j: int| 0 <= j < p implies #[trigger] tg[j].0 != key by {
                                assert(tg[j].0 == tv[j].0@);
                            }
                        }
                        lemma_assoc_put_first(tg, key, p as int, tag);
                        assert(self.tags() =~= tg.update(p as int, (key, tag)));
                    },
                    None => {
                        assert(absent(tg, key)) by {
                            assert forall|j: int| 0 <= j < tg.len() implies #[trigger] tg[j].0 != key by {
                                assert(tg[j].0 == tv[j].0@);
                            }
                        }
                        lemma_assoc_put_absent(tg, key, tag);
                        assert(self.tags() =~= tg.push((key, tag)));
                    },
                }
            }
            let ghost iv = info@;
            let arity_c: usize = if con.payload.is_some() { 1 } else { 0 };
            info.push((crate::text::clone_string(&con.name), arity_c));
            proof {
                let f = |p: (String, usize)| (p.0@, p.1);
                assert forall|j: int| 0 <= j < q + 1 implies #[trigger] info@.map_values(f)[j] == con_info(dt.constructors@)[j] by {
                    if j < q {
                        assert(info@[j] == iv[j]);
                        assert(iv.map_values(f)[j] == con_info(dt.constructors@).take(q as int)[j]);
                    }
                }
                assert(info@.map_values(f) =~= con_info(dt.constructors@).take(q + 1));
            }
            q = q + 1;
        }
        assert(con_info(dt.constructors@).take(dt.constructors@.len() as int) =~= con_info(dt.constructors@));
        let ghost dc = self.dt_cons();
        let ghost dv = self.datatype_constructors@;
        let put = put_key(&mut self.datatype_constructors, crate::text::clone_string(&dt.name), info);
        proof {
            let key = dt.name@;
            let w = con_info(dt.constructors@);
            match put {
                Some(p) => {
                    assert(first_at(dc, key, p as int)) by {
                        assert forall|j: int| 0 <= j < p implies #[trigger] dc[j].0 != key by {
                            assert(dc[j].0 == dv[j].0@);
                        }
                    }
                    lemma_assoc_put_first(dc, key, p as int, w);
                    assert(self.dt_cons() =~= dc.update(p as int, (key, w)));
                },
                None => {
                    assert(absent(dc, key)) by {
                        assert forall|j: int| 0 <= j < dc.len() implies #[trigger] dc[j].0 != key by {
                            assert(dc[j].0 == dv[j].0@);
                        }
                    }
                    lemma_assoc_put_absent(dc, key, w);
                    assert(self.dt_cons() =~= dc.push((key, w)));
                },
            }
            assert forall|x: Seq<char>| #[trigger] self.lookup_spec(x) == if names_con(dt.constructors@, dt.constructors@.len() as int, x) {
                assoc(self.cons(), x)
            } else {
                old(self).lookup_spec(x)
            } by {
                assert(self.lookup_spec(x) == env_lookup(env_mid, x));
            }
        }
        Ok(())
    }
}

/// A copy of a naming of type variables.
fn copy_names(m: &Vec<(String, u32)>) -> (r: Vec<(String, u32)>)
    ensures
        names_view(r@) == names_view(m@),
{
    let mut out: Vec<(String, u32)> = Vec::new();
    let mut i: usize = 0;
    while i < m.len()
        invariant
            i <= m@.len(),
            out@.len() == i,
            names_view(out@) == names_view(m@).take(i as int),
        decreases m@.len() - i,
    {
        let ghost prev = out@;
        out.push((crate::text::clone_string(&m[i].0), m[i].1));
        proof {
            assert forall|j: int| 0 <= j < i + 1 implies #[trigger] names_view(out@)[j] == names_view(m@)[j] by {
                if j < i {
                    assert(out@[j] == prev[j]);
                    assert(names_view(prev)[j] == names_view(m@).take(i as int)[j]);
                }
            }
        }
        assert(names_view(out@) =~= names_view(m@).take(i + 1));
        i = i + 1;
    }
    assert(names_view(m@).take(m@.len() as int) =~= names_view(m@));
    out
}

/// A copy of a list of variables.
fn copy_vars(v: &Vec<u32>) -> (r: Vec<u32>)
    ensures
        r@ == v@,
{
    let mut out: Vec<u32> = Vec::new();
    let mut i: usize = 0;
    while i < v.len()
        invariant
            i <= v@.len(),
            out@ == v@.take(i as int),
        decreases v@.len() - i,
    {
        out.push(v[i]);
        assert(out@ =~= v@.take(i + 1));
        i = i + 1;
    }
    assert(v@.take(v@.len() as int) =~= v@);
    out
}

/// An error among the first `j` constructors is the error of all of them.
pub proof fn lemma_cons_after_err(
    dt: DatatypeDecl,
    j: int,
    cons0: Seq<(Seq<char>, SchemeV)>,
    n0: nat,
    al: Seq<(Seq<char>, (Seq<u32>, TyV))>,
    ar: Seq<(Seq<char>, usize)>,
)
    requires
        0 <= j <= dt.constructors@.len(),
        cons_after(dt, j, cons0, n0, al, ar) is Err,
    ensures
        cons_after(dt, dt.constructors@.len() as int, cons0, n0, al, ar) == cons_after(dt, j, cons0, n0, al, ar),
    decreases dt.constructors@.len() - j,
{
    if j < dt.constructors@.len() {
        lemma_cons_after_err(dt, j + 1, cons0, n0, al, ar);
    }
}

// ── Inferring the types of programs ─────────────────────────────────────

/// A desugared pattern: list patterns are empty.
pub open spec fn pat_core(p: Pat) -> bool
    decreases p, 1nat,
{
    match p.kind {
        PatKind::List(ps) => ps@.len() == 0,
        PatKind::Tuple(ps) => pats_core(ps@),
        PatKind::Cons(h, t) => pat_core(*h) && pat_core(*t),
        PatKind::Constructor(_, Some(q)) => pat_core(*q),
        PatKind::Ann(q, _) => pat_core(*q),
        PatKind::As(_, q) => pat_core(*q),
        PatKind::Paren(q) => pat_core(*q),
        _ => true,
    }
}

pub open spec fn pats_core(ps: Seq<Pat>) -> bool
    decreases ps, 0nat,
{
    ps.len() > 0 ==> pats_core(ps.drop_last()) && pat_core(ps.last())
}

/// A desugared expression: list literals are empty, and `not`, `andalso`
/// and `orelse` are gone; nested declarations are desugared too.
pub open spec fn expr_core(e: Expr) -> bool
    decreases e, 1nat,
{
    match e.kind {
        ExprKind::List(xs) => xs@.len() == 0,
        ExprKind::Not(_) => false,
        ExprKind::BinOp(op, l, r) => op != BinOp::Andalso && op != BinOp::Orelse && expr_core(*l) && expr_core(*r),
        ExprKind::Tuple(xs) => exprs_core(xs@),
        ExprKind::Cons(h, t) => expr_core(*h) && expr_core(*t),
        ExprKind::UnaryNeg(x) => expr_core(*x),
        ExprKind::App(f, x) => expr_core(*f) && expr_core(*x),
        ExprKind::Fn(p, b) => pat_core(p) && expr_core(*b),
        ExprKind::If(c, t, f) => expr_core(*c) && expr_core(*t) && expr_core(*f),
        ExprKind::Let(ds, b) => decls_core(ds@) && expr_core(*b),
        ExprKind::Case(x, arms) => expr_core(*x) && arms_core(arms@),
        ExprKind::Ann(x, _) => expr_core(*x),
        ExprKind::Paren(x) => expr_core(*x),
        ExprKind::Perform(_, x) => expr_core(*x),
        ExprKind::Handle { body, return_var: _, return_body, handlers } => expr_core(*body) && expr_core(*return_body)
            && handlers_core(handlers@),
        ExprKind::Resume(c, x) => expr_core(*c) && expr_core(*x),
        _ => true,
    }
}

pub open spec fn exprs_core(xs: Seq<Expr>) -> bool
    decreases xs, 0nat,
{
    xs.len() > 0 ==> exprs_core(xs.drop_last()) && expr_core(xs.last())
}

pub open spec fn arms_core(xs: Seq<(Pat, Expr)>) -> bool
    decreases xs, 0nat,
{
    xs.len() > 0 ==> arms_core(xs.drop_last()) && pat_core(xs.last().0) && expr_core(xs.last().1)
}

pub open spec fn handlers_core(xs: Seq<crate::syntax::ast::EffectHandler>) -> bool
    decreases xs, 0nat,
{
    xs.len() > 0 ==> handlers_core(xs.drop_last()) && expr_core(xs.last().body)
}

/// A desugared declaration: no signature or structure, and functions with
/// clauses.
pub open spec fn decl_core(d: Decl) -> bool
    decreases d, 1nat,
{
    match d.kind {
        DeclKind::Signature(_) => false,
        DeclKind::Structure { .. } => false,
        DeclKind::Val(p, e) => pat_core(p) && expr_core(e),
        DeclKind::ValRec(_, e) => expr_core(e),
        DeclKind::Fun(bs) => bindings_core(bs@),
        DeclKind::Local(ls, body) => decls_core(ls@) && decls_core(body@),
        _ => true,
    }
}

pub open spec fn decls_core(ds: Seq<Decl>) -> bool
    decreases ds, 0nat,
{
    ds.len() > 0 ==> decls_core(ds.drop_last()) && decl_core(ds.last())
}

pub open spec fn bindings_core(bs: Seq<FunBinding>) -> bool
    decreases bs, 0nat,
{
    bs.len() > 0 ==> bindings_core(bs.drop_last()) && bs.last().clauses@.len() > 0 && clauses_core(bs.last().clauses@)
}

pub open spec fn clauses_core(cs: Seq<crate::syntax::ast::FunClause>) -> bool
    decreases cs, 0nat,
{
    cs.len() > 0 ==> clauses_core(cs.drop_last()) && pats_core(cs.last().pats@) && expr_core(cs.last().body)
}

pub proof fn lemma_exprs_core_at(xs: Seq<Expr>, i: int)
    requires
        exprs_core(xs),
        0 <= i < xs.len(),
    ensures
        expr_core(xs[i]),
    decreases xs.len(),
{
    if i < xs.len() - 1 {
        lemma_exprs_core_at(xs.drop_last(), i);
    }
}

pub proof fn lemma_pats_core_at(xs: Seq<Pat>, i: int)
    requires
        pats_core(xs),
        0 <= i < xs.len(),
    ensures
        pat_core(xs[i]),
    decreases xs.len(),
{
    if i < xs.len() - 1 {
        lemma_pats_core_at(xs.drop_last(), i);
    }
}

pub proof fn lemma_arms_core_at(xs: Seq<(Pat, Expr)>, i: int)
    requires
        arms_core(xs),
        0 <= i < xs.len(),
    ensures
        pat_core(xs[i].0),
        expr_core(xs[i].1),
    decreases xs.len(),
{
    if i < xs.len() - 1 {
        lemma_arms_core_at(xs.drop_last(), i);
    }
}

pub proof fn lemma_handlers_core_at(xs: Seq<crate::syntax::ast::EffectHandler>, i: int)
    requires
        handlers_core(xs),
        0 <= i < xs.len(),
    ensures
        expr_core(xs[i].body),
    decreases xs.len(),
{
    if i < xs.len() - 1 {
        lemma_handlers_core_at(xs.drop_last(), i);
    }
}

pub proof fn lemma_decls_core_at(xs: Seq<Decl>, i: int)
    requires
        decls_core(xs),
        0 <= i < xs.len(),
    ensures
        decl_core(xs[i]),
    decreases xs.len(),
{
    if i < xs.len() - 1 {
        lemma_decls_core_at(xs.drop_last(), i);
    }
}

pub proof fn lemma_bindings_core_at(xs: Seq<FunBinding>, i: int)
    requires
        bindings_core(xs),
        0 <= i < xs.len(),
    ensures
        xs[i].clauses@.len() > 0,
        clauses_core(xs[i].clauses@),
    decreases xs.len(),
{
    if i < xs.len() - 1 {
        lemma_bindings_core_at(xs.drop_last(), i);
    }
}

pub proof fn lemma_clauses_core_at(xs: Seq<crate::syntax::ast::FunClause>, i: int)
    requires
        clauses_core(xs),
        0 <= i < xs.len(),
    ensures
        pats_core(xs[i].pats@),
        expr_core(xs[i].body),
    decreases xs.len(),
{
    if i < xs.len() - 1 {
        lemma_clauses_core_at(xs.drop_last(), i);
    }
}

/// A substitution stays well formed as the supply of variables grows.
pub proof fn lemma_subst_ok_grow(s: Seq<(u32, TyV)>, n: nat, m: nat)
    requires
        subst_ok(s, n),
        n <= m,
    ensures
        subst_ok(s, m),
{
    assert forall|j: int| 0 <= j < s.len() implies (#[trigger] s[j]).0 < m && below(s[j].1, m) by {
        lemma_below_mono(s[j].1, n, m);
    }
}

/// The type variables `te` writes, counted up to `cap`.
pub(crate) fn count_tyvars_upto(te: &TypeExpr, cap: u64) -> (r: u64)
    ensures
        r <= cap,
        r < cap ==> r == tyvar_count(*te),
        r == cap ==> tyvar_count(*te) >= cap,
    decreases *te, 1nat,
{
    proof {
        assert(decreases_to!(*te => te.kind));
    }
    match &te.kind {
        TypeExprKind::Var(_) => if cap >= 1 { 1 } else { 0 },
        TypeExprKind::Named(_) => 0,
        TypeExprKind::App(_, args) => count_all_upto(args, cap, Ghost(*te)),
        TypeExprKind::Arrow(a, b) => {
            let x = count_tyvars_upto(a, cap);
            if x == cap {
                return cap;
            }
            let y = count_tyvars_upto(b, cap - x);
            x + y
        },
        TypeExprKind::Tuple(ts) => count_all_upto(ts, cap, Ghost(*te)),
        TypeExprKind::Paren(t) => count_tyvars_upto(t, cap),
    }
}

fn count_all_upto(ts: &Vec<TypeExpr>, cap: u64, Ghost(outer): Ghost<TypeExpr>) -> (r: u64)
    requires
        decreases_to!(outer => ts@),
    ensures
        r <= cap,
        r < cap ==> r == tyvar_counts(ts@),
        r == cap ==> tyvar_counts(ts@) >= cap,
    decreases outer, 0nat,
{
    let mut total: u64 = 0;
    let mut i: usize = 0;
    while i < ts.len()
        invariant
            i <= ts@.len(),
            decreases_to!(outer => ts@),
            total < cap ==> total == tyvar_counts(ts@.take(i as int)),
            total <= cap,
            total == cap ==> tyvar_counts(ts@.take(i as int)) >= cap,
        decreases ts@.len() - i,
    {
        if total == cap {
            proof {
                lemma_tyvar_counts_prefix(ts@, i as int);
            }
            return cap;
        }
        assert(decreases_to!(ts@ => ts@[i as int]));
        let x = count_tyvars_upto(&ts[i], cap - total);
        proof {
            lemma_tyvar_counts_prefix(ts@, i as int + 1);
            assert(ts@.take(i + 1).drop_last() =~= ts@.take(i as int));
        }
        total = total + x;
        i = i + 1;
    }
    assert(ts@.take(ts@.len() as int) =~= ts@);
    total
}

/// Whether every variable of `ty` is below `n`.
fn ty_below(ty: &Type, n: u32) -> (r: bool)
    ensures
        r == below(ty_view(*ty), n as nat),
    decreases *ty, 1nat,
{
    match ty {
        Type::Var(v) => *v < n,
        Type::Con(_) => true,
        Type::Arrow(a, b) => ty_below(a, n) && ty_below(b, n),
        Type::App(_, ts) => tys_below(ts, n, Ghost(*ty)),
        Type::Tuple(ts) => tys_below(ts, n, Ghost(*ty)),
    }
}

fn tys_below(ts: &Vec<Type>, n: u32, Ghost(outer): Ghost<Type>) -> (r: bool)
    requires
        decreases_to!(outer => ts@),
    ensures
        r == below_all(tys_view(ts@), n as nat),
    decreases outer, 0nat,
{
    let mut i: usize = 0;
    while i < ts.len()
        invariant
            i <= ts@.len(),
            decreases_to!(outer => ts@),
            below_all(tys_view(ts@.take(i as int)), n as nat),
        decreases ts@.len() - i,
    {
        assert(decreases_to!(ts@ => ts@[i as int]));
        let b = ty_below(&ts[i], n);
        proof {
            let pre = ts@.take(i + 1);
            assert(pre.drop_last() =~= ts@.take(i as int));
            assert(pre.last() == ts@[i as int]);
            let tv = tys_view(pre);
            assert(tv == tys_view(ts@.take(i as int)).push(ty_view(ts@[i as int])));
            assert(tv.drop_last() =~= tys_view(ts@.take(i as int)));
        }
        if !b {
            proof {
                if below_all(tys_view(ts@), n as nat) {
                    lemma_below_all_prefix(ts@, i as int + 1, n as nat);
                }
            }
            return false;
        }
        i = i + 1;
    }
    assert(ts@.take(ts@.len() as int) =~= ts@);
    true
}

/// A list all below `n` has each prefix all below `n`.
proof fn lemma_below_all_prefix(ts: Seq<Type>, k: int, n: nat)
    requires
        0 <= k <= ts.len(),
        below_all(tys_view(ts), n),
    ensures
        below_all(tys_view(ts.take(k)), n),
    decreases ts.len() - k,
{
    if k < ts.len() {
        lemma_below_all_prefix(ts, k + 1, n);
        let pre = ts.take(k + 1);
        assert(pre.drop_last() =~= ts.take(k));
        let tv = tys_view(pre);
        assert(tv == tys_view(ts.take(k)).push(ty_view(pre.last())));
        assert(tv.drop_last() =~= tys_view(ts.take(k)));
    } else {
        assert(ts.take(k) =~= ts);
    }
}


/// The context `b` comes from `a` by inference steps: it is well formed,
/// has handed out no fewer variables, and extends the bindings of `a`.
pub open spec fn grows(a: InferCtx, b: InferCtx) -> bool {
    &&& b.wf()
    &&& a.next() <= b.next()
    &&& a.bindings().len() <= b.bindings().len()
    &&& forall|i: int| 0 <= i < a.bindings().len() ==> #[trigger] b.bindings()[i] == a.bindings()[i]
}

impl InferCtx {
    /// The scheme of the constructor `name`, if one is declared.
    pub fn constructor_scheme(&self, name: &str) -> (r: Option<Scheme>)
        ensures
            match (r, assoc(self.cons(), name@)) {
                (Some(s), Some(v)) => scheme_view(s) == v,
                (None, None) => true,
                _ => false,
            },
    {
        let ghost c = self.cons();
        match find_key(&self.constructors, name) {
            Some(i) => {
                proof {
                    assert(first_at(c, name@, i as int)) by {
                        assert forall|j: int| 0 <= j < i implies #[trigger] c[j].0 != name@ by {
                            assert(c[j].0 == self.constructors@[j].0@);
                        }
                    }
                    lemma_assoc_first(c, name@, i as int);
                }
                Some(self.constructors[i].1.duplicate())
            },
            None => {
                proof {
                    assert(absent(c, name@)) by {
                        assert forall|j: int| 0 <= j < c.len() implies #[trigger] c[j].0 != name@ by {
                            assert(c[j].0 == self.constructors@[j].0@);
                        }
                    }
                    lemma_assoc_absent(c, name@);
                }
                None
            },
        }
    }

    /// A fresh type variable, or an error once every variable is spent.
    pub fn fresh_checked(&mut self, span: Span) -> (r: Result<Type, TypeError>)
        requires
            old(self).wf(),
        ensures
            final(self).cons() == old(self).cons(),
            grows(*old(self), *final(self)),
            final(self).bindings() == old(self).bindings(),
            final(self).env() == old(self).env(),
            match r {
                Ok(t) => old(self).next() < u32::MAX && t == Type::Var(old(self).next()) && final(self).next()
                    == old(self).next() + 1,
                Err(e) => old(self).next() == u32::MAX && final(self).next() == old(self).next()
                    && e.message@ == "type variable supply exhausted"@ && e.span == span,
            },
    {
        if self.next_var == u32::MAX {
            Err(self.err("type variable supply exhausted", span))
        } else {
            Ok(self.fresh())
        }
    }

    /// Unifies `t1` with `t2` when both mention only variables handed out
    /// so far; a type with any other variable is refused.
    pub fn unify_checked(&mut self, t1: &Type, t2: &Type, span: Span) -> (r: Result<(), TypeError>)
        requires
            old(self).wf(),
        ensures
            final(self).cons() == old(self).cons(),
            grows(*old(self), *final(self)),
            final(self).next() == old(self).next(),
            final(self).env() == old(self).env(),
            r is Ok ==> app(final(self).bindings(), 0, ty_view(*t1)) == app(
                final(self).bindings(),
                0,
                ty_view(*t2),
            ),
            !(below(ty_view(*t1), old(self).next() as nat) && below(ty_view(*t2), old(self).next() as nat))
                ==> (r matches Err(e) && e.message@ == "type variable out of range"@ && e.span == span
                && final(self).bindings() == old(self).bindings()),
            (below(ty_view(*t1), old(self).next() as nat) && below(ty_view(*t2), old(self).next() as nat)
                && app(old(self).bindings(), 0, ty_view(*t1)) == app(old(self).bindings(), 0, ty_view(*t2)))
                ==> (r is Ok && final(self).bindings() == old(self).bindings()),
            (below(ty_view(*t1), old(self).next() as nat) && below(ty_view(*t2), old(self).next() as nat)) ==> {
                &&& app(old(self).bindings(), 0, ty_view(*t1)) matches TyV::Var(x) ==> (!occurs_v(
                    x,
                    app(old(self).bindings(), 0, ty_view(*t2)),
                ) ==> r is Ok)
                &&& app(old(self).bindings(), 0, ty_view(*t2)) matches TyV::Var(y) ==> (!occurs_v(
                    y,
                    app(old(self).bindings(), 0, ty_view(*t1)),
                ) ==> r is Ok)
                &&& app(old(self).bindings(), 0, ty_view(*t1)) matches TyV::Var(x) ==> (occurs_v(
                    x,
                    app(old(self).bindings(), 0, ty_view(*t2)),
                ) && app(old(self).bindings(), 0, ty_view(*t2)) != TyV::Var(x) ==> (r matches Err(e)
                    && e.message@ == "infinite type (occurs check failed)"@))
                &&& heads_clash(app(old(self).bindings(), 0, ty_view(*t1)), app(old(self).bindings(), 0, ty_view(*t2)))
                    ==> (r matches Err(e) && e.span == span && e.message@ == "type mismatch: expected "@ + show(
                    app(old(self).bindings(), 0, ty_view(*t1)),
                ) + ", found "@ + show(app(old(self).bindings(), 0, ty_view(*t2))))
            },
    {
        if ty_below(t1, self.next_var) && ty_below(t2, self.next_var) {
            let ghost b0 = self.bindings();
            let r = self.unify(t1, t2, span);
            proof {
                let b1 = self.bindings();
                assert forall|i: int| 0 <= i < b0.len() implies #[trigger] b1[i] == b0[i] by {
                    assert(b0 == b1.subrange(0, b0.len() as int));
                    assert(b0[i] == b1.subrange(0, b0.len() as int)[i]);
                }
            }
            r
        } else {
            Err(self.err("type variable out of range", span))
        }
    }

    /// A fresh instance of `scheme`, or an error when there are not
    /// variables enough left for it.
    pub fn instantiate_checked(&mut self, scheme: &Scheme, span: Span) -> (r: Result<Type, TypeError>)
        requires
            old(self).wf(),
        ensures
            grows(*old(self), *final(self)),
            final(self).bindings() == old(self).bindings(),
            final(self).env() == old(self).env(),
            match r {
                Ok(t) => ty_view(t) == subst_vars(
                    app(old(self).bindings(), 0, ty_view(scheme.ty)),
                    fresh_map(scheme.vars@, old(self).next() as nat),
                ) && final(self).next() == old(self).next() + scheme.vars@.len(),
                Err(e) => old(self).next() + scheme.vars@.len() > u32::MAX && e.message@
                    == "type variable supply exhausted"@ && e.span == span && final(self).next() == old(self).next(),
            },
    {
        let room: u64 = (u32::MAX - self.next_var) as u64;
        if (scheme.vars.len() as u64) <= room {
            Ok(self.instantiate(scheme))
        } else {
            Err(self.err("type variable supply exhausted", span))
        }
    }

    /// Resolves a type expression with no type variables named yet, or an
    /// error when there are not variables enough left for it.
    pub fn resolve_checked(&mut self, te: &TypeExpr, span: Span) -> (r: Result<Type, TypeError>)
        requires
            old(self).wf(),
        ensures
            grows(*old(self), *final(self)),
            final(self).bindings() == old(self).bindings(),
            final(self).env() == old(self).env(),
            old(self).next() + tyvar_count(*te) <= u32::MAX ==> resolved_matches(
                r,
                resolve_te(*te, Seq::empty(), old(self).next() as nat, false, old(self).aliases(), old(self).arities()).0,
            ),
            old(self).next() + tyvar_count(*te) > u32::MAX ==> (r matches Err(e) && e.message@
                == "type variable supply exhausted"@ && e.span == span),
    {
        let room: u64 = (u32::MAX - self.next_var) as u64 + 1;
        let n = count_tyvars_upto(te, room);
        if n == room {
            return Err(self.err("type variable supply exhausted", span));
        }
        let mut map: Vec<(String, u32)> = Vec::new();
        let ghost s0 = self.bindings();
        let ghost n0 = self.next() as nat;
        proof {
            assert(names_view(map@) =~= Seq::<(Seq<char>, u32)>::empty());
            lemma_tyvar_resolve_bound(*te, Seq::empty(), n0, false, self.aliases(), self.arities());
        }
        let r = self.resolve_type_expr(te, &mut map);
        proof {
            lemma_subst_ok_grow(s0, n0, self.next() as nat);
        }
        r
    }
}


impl InferCtx {
    /// The declared effects with their argument and result types.
    pub closed spec fn effects(&self) -> Seq<(Seq<char>, (TyV, TyV))> {
        self.effect_sigs@.map_values(|e: (String, (Type, Type))| (e.0@, (ty_view(e.1.0), ty_view(e.1.1))))
    }

    /// The next fresh type variable.
    pub fn next_var(&self) -> (r: u32)
        ensures
            r == self.next(),
    {
        self.next_var
    }

    /// The types recorded for expressions, by span.
    pub closed spec fn recorded(&self) -> Seq<(Span, TyV)> {
        self.expr_types@.map_values(|e: (Span, Type)| (e.0, ty_view(e.1)))
    }

    /// The argument type declared for the effect `name`, if it is declared.
    pub fn effect_arg(&self, name: &String) -> (r: Option<Type>)
        ensures
            match (r, assoc(self.effects(), name@)) {
                (Some(t), Some(p)) => ty_view(t) == p.0,
                (None, None) => true,
                _ => false,
            },
    {
        let ghost e = self.effects();
        match find_key(&self.effect_sigs, name.as_str()) {
            Some(i) => {
                proof {
                    assert(first_at(e, name@, i as int)) by {
                        assert forall|j: int| 0 <= j < i implies #[trigger] e[j].0 != name@ by {
                            assert(e[j].0 == self.effect_sigs@[j].0@);
                        }
                    }
                    lemma_assoc_first(e, name@, i as int);
                }
                Some(self.effect_sigs[i].1.0.duplicate())
            },
            None => {
                proof {
                    assert(absent(e, name@)) by {
                        assert forall|j: int| 0 <= j < e.len() implies #[trigger] e[j].0 != name@ by {
                            assert(e[j].0 == self.effect_sigs@[j].0@);
                        }
                    }
                    lemma_assoc_absent(e, name@);
                }
                None
            },
        }
    }

    /// Declares the effect `name` with its argument and result types,
    /// replacing an earlier declaration of it.
    pub fn declare_effect(&mut self, name: String, arg: Type, res: Type)
        ensures
            final(self).bindings() == old(self).bindings(),
            final(self).next() == old(self).next(),
            final(self).env() == old(self).env(),
            forall|x: Seq<char>| #[trigger] assoc(final(self).effects(), x) == if x == name@ {
                Some((ty_view(arg), ty_view(res)))
            } else {
                assoc(old(self).effects(), x)
            },
    {
        let ghost e0 = self.effects();
        let ghost nm = name@;
        let ghost v = (ty_view(arg), ty_view(res));
        let put = put_key(&mut self.effect_sigs, name, (arg, res));
        proof {
            match put {
                Some(i) => {
                    assert(first_at(e0, nm, i as int)) by {
                        assert forall|j: int| 0 <= j < i implies #[trigger] e0[j].0 != nm by {
                            assert(e0[j].0 == old(self).effect_sigs@[j].0@);
                        }
                    }
                    assert(self.effects() =~= e0.update(i as int, (nm, v)));
                    lemma_assoc_put_first(e0, nm, i as int, v);
                },
                None => {
                    assert(absent(e0, nm)) by {
                        assert forall|j: int| 0 <= j < e0.len() implies #[trigger] e0[j].0 != nm by {
                            assert(e0[j].0 == old(self).effect_sigs@[j].0@);
                        }
                    }
                    assert(self.effects() =~= e0.push((nm, v)));
                    lemma_assoc_put_absent(e0, nm, v);
                },
            }
            assert forall|x: Seq<char>| #[trigger] assoc(self.effects(), x) == if x == nm {
                Some(v)
            } else {
                assoc(e0, x)
            } by {
                lemma_assoc_put_get(e0, nm, v, x);
            }
        }
    }

    /// Records the type of the expression at `span`, replacing an earlier
    /// record for that span.
    #[verifier::loop_isolation(false)]
    pub fn record_expr_type(&mut self, span: Span, ty: Type)
        ensures
            final(self).bindings() == old(self).bindings(),
            final(self).next() == old(self).next(),
            final(self).env() == old(self).env(),
            final(self).recorded().contains((span, ty_view(ty))),
    {
        let ghost tv = ty_view(ty);
        let mut i: usize = 0;
        let mut found = false;
        while i < self.expr_types.len() && !found
            invariant
                i <= self.expr_types@.len(),
                found ==> i < self.expr_types@.len() && self.expr_types@[i as int].0 == span,
            decreases self.expr_types@.len() - i, if found { 0int } else { 1int },
        {
            if self.expr_types[i].0 == span {
                found = true;
            } else {
                i = i + 1;
            }
        }
        if found {
            self.expr_types.set(i, (span, ty));
            assert(self.recorded()[i as int] == (span, tv));
        } else {
            self.expr_types.push((span, ty));
            assert(self.recorded()[self.expr_types@.len() - 1] == (span, tv));
        }
    }

    /// Closes the innermost scope and hands back its bindings.
    pub fn take_scope(&mut self) -> (r: Vec<(String, Scheme)>)
        requires
            old(self).env().len() > 0,
        ensures
            final(self).env() == old(self).env().drop_last(),
            scope_view(r@) == old(self).env().last(),
            final(self).bindings() == old(self).bindings(),
            final(self).next() == old(self).next(),
    {
        let ghost e = self.env();
        let r = match self.scopes.pop() {
            Some(sc) => sc,
            None => Vec::new(),
        };
        assert(self.env() =~= e.drop_last());
        r
    }
}


impl InferCtx {
    /// The scheme bound to `name`, if any, with the substitution applied to
    /// its type.
    pub fn lookup_type(&self, name: &str) -> (r: Option<Scheme>)
        ensures
            match (r, self.lookup_spec(name@)) {
                (Some(s), Some(v)) => s.vars@ == v.vars && ty_view(s.ty) == app(self.bindings(), 0, v.ty),
                (None, None) => true,
                _ => false,
            },
    {
        match self.lookup_scheme(name) {
            Some(s) => Some(self.apply_scheme(&s)),
            None => None,
        }
    }
}

} // verus!
