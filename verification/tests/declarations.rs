use hiko::syntax::ast::{ConDecl, DatatypeDecl, Pat, PatKind, TypeAliasDecl, TypeExpr, TypeExprKind};
use hiko::syntax::span::Span;
use hiko::types::infer::InferCtx;
use hiko::types::ty::Type;

fn sp(start: u32) -> Span {
    Span { file_id: 0, start, end: start + 1 }
}

fn named(n: &str) -> TypeExpr {
    TypeExpr { kind: TypeExprKind::Named(n.to_string()), span: sp(0) }
}

fn tyvar(n: &str) -> TypeExpr {
    TypeExpr { kind: TypeExprKind::Var(n.to_string()), span: sp(7) }
}

fn con(name: &str, payload: Option<TypeExpr>, at: u32) -> ConDecl {
    ConDecl { name: name.to_string(), payload, span: sp(at) }
}

fn color() -> DatatypeDecl {
    DatatypeDecl {
        tyvars: vec![],
        name: "color".to_string(),
        constructors: vec![con("Red", None, 1), con("Green", None, 2), con("Blue", None, 3)],
        span: sp(0),
    }
}

fn ctor_pat(name: &str, at: u32) -> Pat {
    Pat { kind: PatKind::Constructor(name.to_string(), None), span: sp(at) }
}

#[test]
fn datatype_constructors_get_schemes_over_the_parameters() {
    let mut ctx = InferCtx::new();
    let dt = DatatypeDecl {
        tyvars: vec!["'a".to_string()],
        name: "box".to_string(),
        constructors: vec![con("Empty", None, 1), con("Full", Some(tyvar("'a")), 2)],
        span: sp(0),
    };
    assert!(ctx.register_datatype(&dt).is_ok());
    let full = ctx.lookup_type("Full").unwrap();
    assert_eq!(full.vars.len(), 1);
    let v = full.vars[0];
    let result = Type::App("box".to_string(), vec![Type::Var(v)]);
    assert_eq!(full.ty, Type::arrow(Type::Var(v), result.duplicate()));
    let empty = ctx.lookup_type("Empty").unwrap();
    assert_eq!(empty.vars, vec![v]);
    assert_eq!(empty.ty, result);
}

#[test]
fn datatype_without_parameters_has_a_plain_result() {
    let mut ctx = InferCtx::new();
    assert!(ctx.register_datatype(&color()).is_ok());
    let red = ctx.lookup_type("Red").unwrap();
    assert!(red.vars.is_empty());
    assert_eq!(red.ty, Type::Con("color".to_string()));
}

#[test]
fn datatype_declared_twice_is_refused() {
    let mut ctx = InferCtx::new();
    assert!(ctx.register_datatype(&color()).is_ok());
    let err = ctx.register_datatype(&color()).unwrap_err();
    assert_eq!(err.message, "duplicate type name: color");
    assert_eq!(err.span, sp(0));
}

#[test]
fn constructor_declared_twice_is_refused() {
    let mut ctx = InferCtx::new();
    assert!(ctx.register_datatype(&color()).is_ok());
    let dt = DatatypeDecl {
        tyvars: vec![],
        name: "light".to_string(),
        constructors: vec![con("On", None, 4), con("Red", None, 9)],
        span: sp(0),
    };
    let err = ctx.register_datatype(&dt).unwrap_err();
    assert_eq!(err.message, "duplicate constructor name: Red");
    assert_eq!(err.span, sp(9));
}

#[test]
fn constructor_payload_may_not_name_an_unbound_variable() {
    let mut ctx = InferCtx::new();
    let dt = DatatypeDecl {
        tyvars: vec!["'a".to_string()],
        name: "wrap".to_string(),
        constructors: vec![con("Wrap", Some(tyvar("'b")), 1)],
        span: sp(0),
    };
    let err = ctx.register_datatype(&dt).unwrap_err();
    assert_eq!(err.message, "unbound type variable: 'b");
    assert_eq!(err.span, sp(7));
}

#[test]
fn missing_constructor_makes_a_match_non_exhaustive() {
    let mut ctx = InferCtx::new();
    assert!(ctx.register_datatype(&color()).is_ok());
    let info = ctx.type_info_for(&Type::Con("color".to_string()));
    let red = ctor_pat("Red", 10);
    let green = ctor_pat("Green", 20);
    let err = ctx.check_exhaustiveness(&[&red, &green], &info, sp(5)).unwrap_err();
    assert_eq!(err.message, "non-exhaustive match");
    assert_eq!(err.span, sp(5));
}

#[test]
fn clause_after_full_coverage_is_redundant() {
    let mut ctx = InferCtx::new();
    assert!(ctx.register_datatype(&color()).is_ok());
    let info = ctx.type_info_for(&Type::Con("color".to_string()));
    let red = ctor_pat("Red", 10);
    let green = ctor_pat("Green", 20);
    let blue = ctor_pat("Blue", 30);
    let rest = Pat { kind: PatKind::Wildcard, span: sp(40) };
    assert!(ctx.check_exhaustiveness(&[&red, &green, &blue, &rest], &info, sp(5)).is_ok());
    assert_eq!(ctx.warnings.len(), 1);
    assert_eq!(ctx.warnings[0].message, "redundant match clause (clause 4)");
    assert_eq!(ctx.warnings[0].span, sp(40));
}

#[test]
fn type_alias_expands_with_its_arguments() {
    let mut ctx = InferCtx::new();
    let pair = TypeAliasDecl {
        tyvars: vec!["'a".to_string()],
        name: "pair".to_string(),
        ty: TypeExpr { kind: TypeExprKind::Tuple(vec![tyvar("'a"), tyvar("'a")]), span: sp(0) },
        span: sp(0),
    };
    assert!(ctx.register_type_alias(&pair).is_ok());
    let use_site = TypeExpr { kind: TypeExprKind::App("pair".to_string(), vec![named("int")]), span: sp(3) };
    let mut map = Vec::new();
    let ty = ctx.resolve_type_expr(&use_site, &mut map).unwrap();
    assert_eq!(ty, Type::Tuple(vec![Type::int_type(), Type::int_type()]));
}

#[test]
fn type_alias_applied_to_wrong_arity_is_refused() {
    let mut ctx = InferCtx::new();
    let pair = TypeAliasDecl {
        tyvars: vec!["'a".to_string()],
        name: "pair".to_string(),
        ty: TypeExpr { kind: TypeExprKind::Tuple(vec![tyvar("'a"), tyvar("'a")]), span: sp(0) },
        span: sp(0),
    };
    assert!(ctx.register_type_alias(&pair).is_ok());
    let mut map = Vec::new();
    let err = ctx.resolve_type_expr(&named("pair"), &mut map).unwrap_err();
    assert_eq!(err.message, "type pair expects 1 argument(s)");
}

#[test]
fn uppercase_primitive_names_are_refused() {
    let mut ctx = InferCtx::new();
    let mut map = Vec::new();
    let err = ctx.resolve_type_expr(&named("Int"), &mut map).unwrap_err();
    assert_eq!(err.message, "primitive type 'Int' is no longer supported; use 'int'");
}
