//! Names across module boundaries: renaming through a module's scope, and
//! the mangled names under which a structure's items are published or
//! hidden.
use vstd::prelude::*;
use crate::syntax::ast::{TypeExpr, TypeExprKind};
use crate::syntax::span::Span;
use crate::text::{clone_string, push_char, push_str, string_eq, to_string};
use crate::types::assoc::{absent, assoc, find_key, first_at, lemma_assoc_absent, lemma_assoc_first};

verus! {

/// The names a module brings into scope, each with the name it stands for.
#[derive(Debug, Clone, PartialEq, Eq)]
pub struct ModuleScope {
    pub values: Vec<(String, String)>,
    pub constructors: Vec<(String, String)>,
    pub types: Vec<(String, String)>,
    pub effects: Vec<(String, String)>,
}

/// Whether a signature's item is published under its module's name or
/// hidden.
#[derive(Debug, Clone, Copy, PartialEq, Eq, Structural)]
pub enum RemapMode {
    Public,
    Hidden,
}

/// The mathematical value of a type expression.
pub enum TeKind {
    Named(Seq<char>),
    Var(Seq<char>),
    App(Seq<char>, Seq<TeV>),
    Arrow(Box<TeV>, Box<TeV>),
    Tuple(Seq<TeV>),
    Paren(Box<TeV>),
}

pub struct TeV {
    pub kind: TeKind,
    pub span: Span,
}

pub open spec fn te_view(t: TypeExpr) -> TeV
    decreases t, 1nat,
{
    TeV {
        kind: match t.kind {
            TypeExprKind::Named(n) => TeKind::Named(n@),
            TypeExprKind::Var(n) => TeKind::Var(n@),
            TypeExprKind::App(n, args) => TeKind::App(n@, tes_view(args@)),
            TypeExprKind::Arrow(a, b) => TeKind::Arrow(Box::new(te_view(*a)), Box::new(te_view(*b))),
            TypeExprKind::Tuple(ts) => TeKind::Tuple(tes_view(ts@)),
            TypeExprKind::Paren(i) => TeKind::Paren(Box::new(te_view(*i))),
        },
        span: t.span,
    }
}

pub open spec fn tes_view(ts: Seq<TypeExpr>) -> Seq<TeV>
    decreases ts, 0nat,
{
    if ts.len() == 0 {
        Seq::empty()
    } else {
        tes_view(ts.drop_last()).push(te_view(ts.last()))
    }
}

/// The values of a list of renamings.
pub open spec fn pairs_view(v: Seq<(String, String)>) -> Seq<(Seq<char>, Seq<char>)> {
    v.map_values(|p: (String, String)| (p.0@, p.1@))
}

/// What `n` stands for under `renaming`: its first entry, or itself.
pub open spec fn renamed(renaming: Seq<(Seq<char>, Seq<char>)>, n: Seq<char>) -> Seq<char> {
    match assoc(renaming, n) {
        Some(m) => m,
        None => n,
    }
}

/// A type expression with each type name renamed by `types`; type
/// variables and spans stay.
pub open spec fn rename_te(t: TypeExpr, types: Seq<(Seq<char>, Seq<char>)>) -> TeV
    decreases t, 1nat,
{
    TeV {
        kind: match t.kind {
            TypeExprKind::Named(n) => TeKind::Named(renamed(types, n@)),
            TypeExprKind::Var(n) => TeKind::Var(n@),
            TypeExprKind::App(n, args) => TeKind::App(renamed(types, n@), rename_tes(args@, types)),
            TypeExprKind::Arrow(a, b) => TeKind::Arrow(Box::new(rename_te(*a, types)), Box::new(rename_te(*b, types))),
            TypeExprKind::Tuple(ts) => TeKind::Tuple(rename_tes(ts@, types)),
            TypeExprKind::Paren(i) => TeKind::Paren(Box::new(rename_te(*i, types))),
        },
        span: t.span,
    }
}

pub open spec fn rename_tes(ts: Seq<TypeExpr>, types: Seq<(Seq<char>, Seq<char>)>) -> Seq<TeV>
    decreases ts, 0nat,
{
    if ts.len() == 0 {
        Seq::empty()
    } else {
        rename_tes(ts.drop_last(), types).push(rename_te(ts.last(), types))
    }
}

/// What `n` stands for under `renaming`.
pub(crate) fn lookup_renamed(renaming: &Vec<(String, String)>, n: &String) -> (r: String)
    ensures
        r@ == renamed(pairs_view(renaming@), n@),
{
    let ghost pv = pairs_view(renaming@);
    match find_key(renaming, n.as_str()) {
        Some(i) => {
            proof {
                assert(first_at(pv, n@, i as int)) by {
                    assert forall|j: int| 0 <= j < i implies #[trigger] pv[j].0 != n@ by {
                        assert(pv[j].0 == renaming@[j].0@);
                    }
                }
                lemma_assoc_first(pv, n@, i as int);
            }
            clone_string(&renaming[i].1)
        },
        None => {
            proof {
                assert(absent(pv, n@)) by {
                    assert forall|j: int| 0 <= j < pv.len() implies #[trigger] pv[j].0 != n@ by {
                        assert(pv[j].0 == renaming@[j].0@);
                    }
                }
                lemma_assoc_absent(pv, n@);
            }
            clone_string(n)
        },
    }
}

/// Renames the type names of `ty` through the module scope.
pub fn rename_type_expr(ty: &TypeExpr, scope: &ModuleScope) -> (r: TypeExpr)
    ensures
        te_view(r) == rename_te(*ty, pairs_view(scope.types@)),
    decreases *ty, 1nat,
{
    proof {
        assert(decreases_to!(*ty => ty.kind));
    }
    let kind = match &ty.kind {
        TypeExprKind::Named(n) => TypeExprKind::Named(lookup_renamed(&scope.types, n)),
        TypeExprKind::Var(n) => TypeExprKind::Var(clone_string(n)),
        TypeExprKind::App(n, args) => TypeExprKind::App(lookup_renamed(&scope.types, n), rename_all(args, scope, Ghost(*ty))),
        TypeExprKind::Arrow(a, b) => TypeExprKind::Arrow(
            Box::new(rename_type_expr(a, scope)),
            Box::new(rename_type_expr(b, scope)),
        ),
        TypeExprKind::Tuple(ts) => TypeExprKind::Tuple(rename_all(ts, scope, Ghost(*ty))),
        TypeExprKind::Paren(i) => TypeExprKind::Paren(Box::new(rename_type_expr(i, scope))),
    };
    TypeExpr { kind, span: ty.span }
}

fn rename_all(ts: &Vec<TypeExpr>, scope: &ModuleScope, Ghost(outer): Ghost<TypeExpr>) -> (r: Vec<TypeExpr>)
    requires
        decreases_to!(outer => ts@),
    ensures
        tes_view(r@) == rename_tes(ts@, pairs_view(scope.types@)),
    decreases outer, 0nat,
{
    let mut out: Vec<TypeExpr> = Vec::new();
    let mut i: usize = 0;
    while i < ts.len()
        invariant
            i <= ts@.len(),
            decreases_to!(outer => ts@),
            tes_view(out@) == rename_tes(ts@.take(i as int), pairs_view(scope.types@)),
        decreases ts@.len() - i,
    {
        assert(decreases_to!(ts@ => ts@[i as int]));
        let t = rename_type_expr(&ts[i], scope);
        proof {
            let pre = ts@.take(i + 1);
            assert(pre.drop_last() =~= ts@.take(i as int));
            assert(out@.push(t).drop_last() =~= out@);
        }
        out.push(t);
        i = i + 1;
    }
    assert(ts@.take(ts@.len() as int) =~= ts@);
    out
}

/// A value name as the module scope renames it, unless a local binding
/// shadows it.
pub fn rename_value_symbol(sym: &String, scope: &ModuleScope, local_values: &Vec<String>) -> (r: String)
    ensures
        r@ == if exists|i: int| 0 <= i < local_values@.len() && #[trigger] local_values@[i]@ == sym@ {
            sym@
        } else {
            renamed(pairs_view(scope.values@), sym@)
        },
{
    let mut i: usize = 0;
    while i < local_values.len()
        invariant
            i <= local_values@.len(),
            forall|j: int| 0 <= j < i ==> local_values@[j]@ != sym@,
        decreases local_values@.len() - i,
    {
        if string_eq(&local_values[i], sym) {
            return clone_string(sym);
        }
        i = i + 1;
    }
    lookup_renamed(&scope.values, sym)
}

/// `parts` joined by dots.
pub open spec fn dotted(parts: Seq<Seq<char>>) -> Seq<char>
    decreases parts.len(),
{
    if parts.len() == 0 {
        Seq::empty()
    } else if parts.len() == 1 {
        parts[0]
    } else {
        dotted(parts.drop_last()) + "."@ + parts.last()
    }
}

/// The values of a module path.
pub open spec fn path_view(p: Seq<String>) -> Seq<Seq<char>> {
    p.map_values(|s: String| s@)
}

/// The name under which `sym` of the module at `mod_path` is bound:
/// the path, a dot, a `$` where it is hidden, then the name.
pub open spec fn mangled(mod_path: Seq<Seq<char>>, sym: Seq<char>, hidden: bool) -> Seq<char> {
    let q = dotted(mod_path);
    let q1 = if q.len() > 0 { q + "."@ } else { q };
    let q2 = if hidden { q1 + "$"@ } else { q1 };
    q2 + sym
}

/// The name under which `sym` of the module at `mod_path` is bound.
pub fn mangle_symbol(mod_path: &Vec<String>, sym: &str, hidden: bool) -> (r: String)
    ensures
        r@ == mangled(path_view(mod_path@), sym@, hidden),
{
    let ghost pv = path_view(mod_path@);
    let mut q = String::new();
    let mut i: usize = 0;
    while i < mod_path.len()
        invariant
            i <= mod_path@.len(),
            pv == path_view(mod_path@),
            q@ == dotted(pv.take(i as int)),
        decreases mod_path@.len() - i,
    {
        let ghost before = q@;
        if i > 0 {
            push_char(&mut q, '.');
        }
        push_str(&mut q, mod_path[i].as_str());
        proof {
            let pre = pv.take(i + 1);
            assert(pre.drop_last() =~= pv.take(i as int));
            assert(pre.last() == mod_path@[i as int]@);
            if i == 0 {
                assert(pre.len() == 1);
            } else {
                assert(q@ =~= before + "."@ + mod_path@[i as int]@) by {
                    reveal_strlit(".");
                }
            }
        }
        i = i + 1;
    }
    assert(pv.take(pv.len() as int) =~= pv);
    let ghost q0 = q@;
    if !str_is_empty(&q) {
        push_char(&mut q, '.');
        assert(q@ =~= q0 + "."@) by {
            reveal_strlit(".");
        }
    }
    if hidden {
        let ghost q1 = q@;
        push_char(&mut q, '$');
        assert(q@ =~= q1 + "$"@) by {
            reveal_strlit("$");
        }
    }
    push_str(&mut q, sym);
    q
}

/// Whether `s` is empty.
fn str_is_empty(s: &String) -> (r: bool)
    ensures
        r == (s@.len() == 0),
{
    crate::text::chars_of(s.as_str()).len() == 0
}

/// Whether a signature specifies the type `sym`.
pub open spec fn specified(type_specs: Seq<(String, (Vec<String>, Span))>, sym: Seq<char>) -> bool {
    exists|i: int| 0 <= i < type_specs.len() && #[trigger] type_specs[i].0@ == sym
}

/// A type name of a signature: the types it specifies are bound under the
/// module's mangled names, others stay.
pub open spec fn remapped_name(
    sym: Seq<char>,
    mod_path: Seq<Seq<char>>,
    mode: RemapMode,
    type_specs: Seq<(String, (Vec<String>, Span))>,
) -> Seq<char> {
    if specified(type_specs, sym) {
        mangled(mod_path, sym, mode == RemapMode::Hidden)
    } else {
        sym
    }
}

/// A type name of a signature, remapped to the name its module binds it
/// under where the signature specifies it.
pub fn remap_signature_type_name(
    sym: &String,
    mod_path: &Vec<String>,
    mode: RemapMode,
    type_specs: &Vec<(String, (Vec<String>, Span))>,
) -> (r: String)
    ensures
        r@ == remapped_name(sym@, path_view(mod_path@), mode, type_specs@),
{
    let mut i: usize = 0;
    while i < type_specs.len()
        invariant
            i <= type_specs@.len(),
            forall|j: int| 0 <= j < i ==> type_specs@[j].0@ != sym@,
        decreases type_specs@.len() - i,
    {
        if string_eq(&type_specs[i].0, sym) {
            return match mode {
                RemapMode::Public => mangle_symbol(mod_path, sym.as_str(), false),
                RemapMode::Hidden => mangle_symbol(mod_path, sym.as_str(), true),
            };
        }
        i = i + 1;
    }
    clone_string(sym)
}

/// A signature's type expression with its specified type names remapped.
pub open spec fn remap_te(
    t: TypeExpr,
    mod_path: Seq<Seq<char>>,
    mode: RemapMode,
    type_specs: Seq<(String, (Vec<String>, Span))>,
) -> TeV
    decreases t, 1nat,
{
    TeV {
        kind: match t.kind {
            TypeExprKind::Named(n) => TeKind::Named(remapped_name(n@, mod_path, mode, type_specs)),
            TypeExprKind::Var(n) => TeKind::Var(n@),
            TypeExprKind::App(n, args) => TeKind::App(
                remapped_name(n@, mod_path, mode, type_specs),
                remap_tes(args@, mod_path, mode, type_specs),
            ),
            TypeExprKind::Arrow(a, b) => TeKind::Arrow(
                Box::new(remap_te(*a, mod_path, mode, type_specs)),
                Box::new(remap_te(*b, mod_path, mode, type_specs)),
            ),
            TypeExprKind::Tuple(ts) => TeKind::Tuple(remap_tes(ts@, mod_path, mode, type_specs)),
            TypeExprKind::Paren(i) => TeKind::Paren(Box::new(remap_te(*i, mod_path, mode, type_specs))),
        },
        span: t.span,
    }
}

pub open spec fn remap_tes(
    ts: Seq<TypeExpr>,
    mod_path: Seq<Seq<char>>,
    mode: RemapMode,
    type_specs: Seq<(String, (Vec<String>, Span))>,
) -> Seq<TeV>
    decreases ts, 0nat,
{
    if ts.len() == 0 {
        Seq::empty()
    } else {
        remap_tes(ts.drop_last(), mod_path, mode, type_specs).push(remap_te(ts.last(), mod_path, mode, type_specs))
    }
}

/// Remaps the specified type names of a signature's type expression.
pub fn remap_signature_type_expr(
    ty: &TypeExpr,
    mod_path: &Vec<String>,
    mode: RemapMode,
    type_specs: &Vec<(String, (Vec<String>, Span))>,
) -> (r: TypeExpr)
    ensures
        te_view(r) == remap_te(*ty, path_view(mod_path@), mode, type_specs@),
    decreases *ty, 1nat,
{
    proof {
        assert(decreases_to!(*ty => ty.kind));
    }
    let kind = match &ty.kind {
        TypeExprKind::Named(n) => TypeExprKind::Named(remap_signature_type_name(n, mod_path, mode, type_specs)),
        TypeExprKind::Var(n) => TypeExprKind::Var(clone_string(n)),
        TypeExprKind::App(n, args) => TypeExprKind::App(
            remap_signature_type_name(n, mod_path, mode, type_specs),
            remap_all(args, mod_path, mode, type_specs, Ghost(*ty)),
        ),
        TypeExprKind::Arrow(a, b) => TypeExprKind::Arrow(
            Box::new(remap_signature_type_expr(a, mod_path, mode, type_specs)),
            Box::new(remap_signature_type_expr(b, mod_path, mode, type_specs)),
        ),
        TypeExprKind::Tuple(ts) => TypeExprKind::Tuple(remap_all(ts, mod_path, mode, type_specs, Ghost(*ty))),
        TypeExprKind::Paren(i) => TypeExprKind::Paren(Box::new(remap_signature_type_expr(i, mod_path, mode, type_specs))),
    };
    TypeExpr { kind, span: ty.span }
}

fn remap_all(
    ts: &Vec<TypeExpr>,
    mod_path: &Vec<String>,
    mode: RemapMode,
    type_specs: &Vec<(String, (Vec<String>, Span))>,
    Ghost(outer): Ghost<TypeExpr>,
) -> (r: Vec<TypeExpr>)
    requires
        decreases_to!(outer => ts@),
    ensures
        tes_view(r@) == remap_tes(ts@, path_view(mod_path@), mode, type_specs@),
    decreases outer, 0nat,
{
    let mut out: Vec<TypeExpr> = Vec::new();
    let mut i: usize = 0;
    while i < ts.len()
        invariant
            i <= ts@.len(),
            decreases_to!(outer => ts@),
            tes_view(out@) == remap_tes(ts@.take(i as int), path_view(mod_path@), mode, type_specs@),
        decreases ts@.len() - i,
    {
        assert(decreases_to!(ts@ => ts@[i as int]));
        let t = remap_signature_type_expr(&ts[i], mod_path, mode, type_specs);
        proof {
            let pre = ts@.take(i + 1);
            assert(pre.drop_last() =~= ts@.take(i as int));
            assert(out@.push(t).drop_last() =~= out@);
        }
        out.push(t);
        i = i + 1;
    }
    assert(ts@.take(ts@.len() as int) =~= ts@);
    out
}

/// A scope that renames no type leaves a type expression as it was.
pub proof fn law_rename_without_types_keeps(t: TypeExpr)
    ensures
        rename_te(t, Seq::empty()) == te_view(t),
    decreases t, 1nat,
{
    match t.kind {
        TypeExprKind::App(_, args) => law_rename_all_without_types_keeps(args@),
        TypeExprKind::Arrow(a, b) => {
            law_rename_without_types_keeps(*a);
            law_rename_without_types_keeps(*b);
        },
        TypeExprKind::Tuple(ts) => law_rename_all_without_types_keeps(ts@),
        TypeExprKind::Paren(i) => law_rename_without_types_keeps(*i),
        _ => {},
    }
}

pub proof fn law_rename_all_without_types_keeps(ts: Seq<TypeExpr>)
    ensures
        rename_tes(ts, Seq::empty()) == tes_view(ts),
    decreases ts, 0nat,
{
    if ts.len() > 0 {
        law_rename_all_without_types_keeps(ts.drop_last());
        law_rename_without_types_keeps(ts.last());
    }
}

/// A signature that specifies no type remaps nothing.
pub proof fn law_remap_without_specs_keeps(t: TypeExpr, mod_path: Seq<Seq<char>>, mode: RemapMode)
    ensures
        remap_te(t, mod_path, mode, Seq::empty()) == te_view(t),
    decreases t, 1nat,
{
    match t.kind {
        TypeExprKind::App(_, args) => law_remap_all_without_specs_keeps(args@, mod_path, mode),
        TypeExprKind::Arrow(a, b) => {
            law_remap_without_specs_keeps(*a, mod_path, mode);
            law_remap_without_specs_keeps(*b, mod_path, mode);
        },
        TypeExprKind::Tuple(ts) => law_remap_all_without_specs_keeps(ts@, mod_path, mode),
        TypeExprKind::Paren(i) => law_remap_without_specs_keeps(*i, mod_path, mode),
        _ => {},
    }
}

pub proof fn law_remap_all_without_specs_keeps(ts: Seq<TypeExpr>, mod_path: Seq<Seq<char>>, mode: RemapMode)
    ensures
        remap_tes(ts, mod_path, mode, Seq::empty()) == tes_view(ts),
    decreases ts, 0nat,
{
    if ts.len() > 0 {
        law_remap_all_without_specs_keeps(ts.drop_last(), mod_path, mode);
        law_remap_without_specs_keeps(ts.last(), mod_path, mode);
    }
}

} // verus!
