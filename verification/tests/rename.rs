use hiko::syntax::ast::{
    ConDecl, DatatypeDecl, Decl, DeclKind, Expr, ExprKind, FunBinding, FunClause, Pat, PatKind, SignatureDecl,
};
use hiko::syntax::modules::ModuleScope;
use hiko::syntax::rename::{local_decl_value_names, pat_bound_names, rename_expr, rename_module_decl, rename_pat};
use hiko::syntax::span::Span;

fn sp(start: u32) -> Span {
    Span { file_id: 0, start, end: start + 1 }
}

fn var(x: &str, at: u32) -> Expr {
    Expr { kind: ExprKind::Var(x.to_string()), span: sp(at) }
}

fn pvar(x: &str, at: u32) -> Pat {
    Pat { kind: PatKind::Var(x.to_string()), span: sp(at) }
}

fn pairs(ps: &[(&str, &str)]) -> Vec<(String, String)> {
    ps.iter().map(|(a, b)| (a.to_string(), b.to_string())).collect()
}

fn scope() -> ModuleScope {
    ModuleScope {
        values: pairs(&[("f", "M.f"), ("g", "M.g")]),
        constructors: pairs(&[("Red", "M.Red")]),
        types: pairs(&[("color", "M.color")]),
        effects: Vec::new(),
    }
}

#[test]
fn free_values_are_renamed_locals_are_not() {
    let e = Expr { kind: ExprKind::App(Box::new(var("f", 1)), Box::new(var("x", 2))), span: sp(0) };
    let expected = Expr { kind: ExprKind::App(Box::new(var("M.f", 1)), Box::new(var("x", 2))), span: sp(0) };
    assert_eq!(rename_expr(e, &scope(), &vec![]), expected);
}

#[test]
fn a_lambda_parameter_shadows_the_scope() {
    let e = Expr { kind: ExprKind::Fn(pvar("f", 1), Box::new(var("f", 2))), span: sp(0) };
    let expected = Expr { kind: ExprKind::Fn(pvar("f", 1), Box::new(var("f", 2))), span: sp(0) };
    assert_eq!(rename_expr(e, &scope(), &vec![]), expected);
}

#[test]
fn let_bindings_shadow_what_follows_them() {
    let decl = Decl { kind: DeclKind::Val(pvar("g", 1), var("f", 2)), span: sp(1) };
    let e = Expr { kind: ExprKind::Let(vec![decl], Box::new(var("g", 3))), span: sp(0) };
    let decl2 = Decl { kind: DeclKind::Val(pvar("g", 1), var("M.f", 2)), span: sp(1) };
    let expected = Expr { kind: ExprKind::Let(vec![decl2], Box::new(var("g", 3))), span: sp(0) };
    assert_eq!(rename_expr(e, &scope(), &vec![]), expected);
}

#[test]
fn constructors_in_patterns_are_renamed() {
    let p = Pat { kind: PatKind::Constructor("Red".to_string(), Some(Box::new(pvar("f", 1)))), span: sp(0) };
    let expected = Pat { kind: PatKind::Constructor("M.Red".to_string(), Some(Box::new(pvar("f", 1)))), span: sp(0) };
    assert_eq!(rename_pat(p, &scope(), true), expected);
}

#[test]
fn exported_value_declarations_take_their_module_names() {
    let d = Decl { kind: DeclKind::Val(pvar("f", 1), Expr { kind: ExprKind::IntLit(1), span: sp(2) }), span: sp(0) };
    let out = rename_module_decl(d, &scope(), &vec![], false, true);
    let expected = Decl { kind: DeclKind::Val(pvar("M.f", 1), Expr { kind: ExprKind::IntLit(1), span: sp(2) }), span: sp(0) };
    assert_eq!(out, vec![expected]);
}

#[test]
fn signatures_leave_nothing() {
    let d = Decl {
        kind: DeclKind::Signature(SignatureDecl { name: "S".to_string(), specs: vec![], span: sp(0) }),
        span: sp(0),
    };
    assert!(rename_module_decl(d, &scope(), &vec![], false, true).is_empty());
}

fn fun_f() -> Decl {
    let clause = FunClause {
        pats: vec![pvar("x", 2)],
        body: Expr { kind: ExprKind::App(Box::new(var("f", 3)), Box::new(var("x", 4))), span: sp(3) },
        span: sp(1),
    };
    Decl {
        kind: DeclKind::Fun(vec![FunBinding { name: "f".to_string(), clauses: vec![clause], span: sp(1) }]),
        span: sp(0),
    }
}

#[test]
fn exported_functions_refer_to_themselves_by_module_name() {
    let out = rename_module_decl(fun_f(), &scope(), &vec![], false, true);
    let clause = FunClause {
        pats: vec![pvar("x", 2)],
        body: Expr { kind: ExprKind::App(Box::new(var("M.f", 3)), Box::new(var("x", 4))), span: sp(3) },
        span: sp(1),
    };
    let expected = Decl {
        kind: DeclKind::Fun(vec![FunBinding { name: "M.f".to_string(), clauses: vec![clause], span: sp(1) }]),
        span: sp(0),
    };
    assert_eq!(out, vec![expected]);
}

#[test]
fn local_functions_refer_to_themselves_directly() {
    let out = rename_module_decl(fun_f(), &scope(), &vec![], false, false);
    assert_eq!(out, vec![fun_f()]);
}

#[test]
fn hidden_datatypes_rename_their_type_and_constructors() {
    let dt = DatatypeDecl {
        tyvars: vec![],
        name: "color".to_string(),
        constructors: vec![ConDecl { name: "Red".to_string(), payload: None, span: sp(1) }],
        span: sp(0),
    };
    let out = rename_module_decl(Decl { kind: DeclKind::Datatype(dt), span: sp(0) }, &scope(), &vec![], true, false);
    let expected = DatatypeDecl {
        tyvars: vec![],
        name: "M.color".to_string(),
        constructors: vec![ConDecl { name: "M.Red".to_string(), payload: None, span: sp(1) }],
        span: sp(0),
    };
    assert_eq!(out, vec![Decl { kind: DeclKind::Datatype(expected), span: sp(0) }]);
}

#[test]
fn bound_names_are_collected_left_to_right() {
    let p = Pat {
        kind: PatKind::Tuple(vec![pvar("a", 1), Pat { kind: PatKind::As("b".to_string(), Box::new(pvar("c", 3))), span: sp(2) }]),
        span: sp(0),
    };
    assert_eq!(pat_bound_names(&p), vec!["a".to_string(), "b".to_string(), "c".to_string()]);
    assert_eq!(local_decl_value_names(&fun_f()), vec!["f".to_string()]);
}
