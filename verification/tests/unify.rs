use hiko::syntax::span::Span;
use hiko::types::infer::InferCtx;
use hiko::types::ty::{Scheme, Type};

fn span() -> Span {
    Span { file_id: 0, start: 0, end: 0 }
}

#[test]
fn unify_binds_a_variable() {
    let mut ctx = InferCtx::new();
    let a = ctx.fresh();
    assert!(ctx.unify(&a, &Type::int_type(), span()).is_ok());
    assert_eq!(ctx.apply(&a), Type::int_type());
}

#[test]
fn unify_arrows_binds_both_sides() {
    let mut ctx = InferCtx::new();
    let a = ctx.fresh();
    let b = ctx.fresh();
    let left = Type::arrow(a.duplicate(), Type::bool());
    let right = Type::arrow(Type::int_type(), b.duplicate());
    assert!(ctx.unify(&left, &right, span()).is_ok());
    assert_eq!(ctx.apply(&a), Type::int_type());
    assert_eq!(ctx.apply(&b), Type::bool());
    assert_eq!(ctx.apply(&left), ctx.apply(&right));
}

#[test]
fn unify_follows_chains_of_bindings() {
    let mut ctx = InferCtx::new();
    let a = ctx.fresh();
    let b = ctx.fresh();
    let c = ctx.fresh();
    assert!(ctx.unify(&a, &b, span()).is_ok());
    assert!(ctx.unify(&b, &c, span()).is_ok());
    assert!(ctx.unify(&c, &Type::string(), span()).is_ok());
    assert_eq!(ctx.apply(&a), Type::string());
    assert_eq!(ctx.display(&Type::Tuple(vec![a, b, c])), "string * string * string");
}

#[test]
fn unify_rejects_infinite_types() {
    let mut ctx = InferCtx::new();
    let a = ctx.fresh();
    let f = Type::arrow(a.duplicate(), Type::int_type());
    let err = ctx.unify(&a, &f, span()).unwrap_err();
    assert_eq!(err.message, "infinite type (occurs check failed)");
}

#[test]
fn unify_reports_mismatches() {
    let mut ctx = InferCtx::new();
    let err = ctx.unify(&Type::int_type(), &Type::bool(), span()).unwrap_err();
    assert_eq!(err.message, "type mismatch: expected int, found bool");
    let err = ctx
        .unify(
            &Type::Tuple(vec![Type::int_type(), Type::int_type()]),
            &Type::Tuple(vec![Type::int_type()]),
            span(),
        )
        .unwrap_err();
    assert_eq!(err.message, "type mismatch: expected int * int, found int");
}

#[test]
fn unify_lists_element_wise() {
    let mut ctx = InferCtx::new();
    let a = ctx.fresh();
    let left = Type::list(Type::Tuple(vec![a.duplicate(), Type::char()]));
    let right = Type::list(Type::Tuple(vec![Type::float(), Type::char()]));
    assert!(ctx.unify(&left, &right, span()).is_ok());
    assert_eq!(ctx.apply(&a), Type::float());
    let err = ctx.unify(&left, &Type::list(Type::int_type()), span()).unwrap_err();
    assert_eq!(err.message, "type mismatch: expected float * char, found int");
}

#[test]
fn occurs_sees_through_bindings() {
    let mut ctx = InferCtx::new();
    let a = ctx.fresh();
    let b = ctx.fresh();
    assert!(ctx.unify(&a, &Type::list(b.duplicate()), span()).is_ok());
    assert!(ctx.occurs(2, &a));
    assert!(!ctx.occurs(1, &Type::list(b)));
}

#[test]
fn type_text_follows_display_rules() {
    let ctx = InferCtx::new();
    assert_eq!(Type::Var(0).text(), "'a");
    assert_eq!(Type::Var(27).text(), "'b1");
    let f = Type::arrow(Type::arrow(Type::int_type(), Type::int_type()), Type::Var(1));
    assert_eq!(f.text(), "(int -> int) -> 'b");
    assert_eq!(Type::list(Type::list(Type::word())).text(), "(word list) list");
    let pair = Type::App("map".to_string(), vec![Type::string(), Type::Con("Item".to_string())]);
    assert_eq!(pair.text(), "(string, Item) map");
    let nested = Type::Tuple(vec![Type::Tuple(vec![Type::unit()]), Type::pid()]);
    assert_eq!(ctx.display(&nested), "(unit) * pid");
}

#[test]
fn generalize_quantifies_variables_not_in_the_environment() {
    let mut ctx = InferCtx::new();
    let a = ctx.fresh();
    let b = ctx.fresh();
    ctx.push_scope();
    let id = Type::arrow(a.duplicate(), a.duplicate());
    let scheme = ctx.generalize(&id, false);
    assert_eq!(scheme.vars, vec![1]);
    assert!(ctx.unify(&b, &Type::bool(), span()).is_ok());
    let pair = Type::Tuple(vec![b, a]);
    let scheme = ctx.generalize(&pair, true);
    assert_eq!(scheme.vars, vec![1]);
    assert_eq!(scheme.ty, Type::Tuple(vec![Type::bool(), Type::Var(1)]));
}

#[test]
fn instantiate_uses_fresh_variables() {
    let mut ctx = InferCtx::new();
    let scheme = Scheme {
        vars: vec![0, 5],
        ty: Type::arrow(Type::Var(0), Type::Tuple(vec![Type::Var(5), Type::Var(0)])),
    };
    let t = ctx.instantiate(&scheme);
    assert_eq!(
        t,
        Type::arrow(Type::Var(1), Type::Tuple(vec![Type::Var(2), Type::Var(1)]))
    );
    let next = ctx.fresh();
    assert_eq!(next, Type::Var(3));
}

#[test]
fn substitute_vars_prefers_the_last_entry() {
    let ctx = InferCtx::new();
    let mapping = vec![(0, Type::int_type()), (0, Type::bool()), (1, Type::Var(0))];
    let t = Type::Tuple(vec![Type::Var(0), Type::Var(1), Type::Var(2)]);
    assert_eq!(
        ctx.substitute_vars(&t, &mapping),
        Type::Tuple(vec![Type::bool(), Type::Var(0), Type::Var(2)])
    );
}
