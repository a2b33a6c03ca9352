use hiko::builtins::builtins;
use hiko::types::infer::InferCtx;
use hiko::types::ty::Type;

#[test]
fn infer_ctx_contains_all_metadata_builtins() {
    let ctx = InferCtx::new();
    for meta in builtins() {
        assert!(
            ctx.lookup_type(meta.name).is_some(),
            "missing builtin in InferCtx: {}",
            meta.name
        );
    }
}

#[test]
fn builtin_types_follow_their_signatures() {
    let ctx = InferCtx::new();
    let print = ctx.lookup_type("print").unwrap();
    assert!(print.vars.is_empty());
    assert_eq!(print.ty, Type::arrow(Type::string(), Type::unit()));
    let split = ctx.lookup_type("split").unwrap();
    assert_eq!(
        split.ty,
        Type::arrow(
            Type::Tuple(vec![Type::string(), Type::string()]),
            Type::list(Type::string())
        )
    );
    let panic = ctx.lookup_type("panic").unwrap();
    assert_eq!(panic.ty, Type::arrow(Type::string(), Type::Var(0)));
    assert!(ctx.lookup_type("no_such_name").is_none());
}

#[test]
fn type_constructors_and_equality() {
    assert_eq!(Type::int_type(), Type::Con("Int".to_string()));
    assert!(Type::int_type().is_equality());
    assert!(Type::Tuple(vec![Type::bool(), Type::string()]).is_equality());
    assert!(!Type::list(Type::int_type()).is_equality());
    assert!(!Type::Var(3).is_equality());
    assert!(!Type::arrow(Type::int_type(), Type::int_type()).is_equality());
    assert!(!Type::rng().is_equality());
}

#[test]
fn free_vars_in_order_without_repeats() {
    let t = Type::arrow(
        Type::Tuple(vec![Type::Var(2), Type::Var(0), Type::Var(2)]),
        Type::list(Type::Var(5)),
    );
    assert_eq!(t.free_vars(), vec![2, 0, 5]);
    assert!(Type::int_type().free_vars().is_empty());
}

#[test]
fn builtins_are_bound_to_the_types_their_signatures_denote() {
    let ctx = InferCtx::new();
    let floor = ctx.lookup_type("floor").unwrap();
    assert!(floor.vars.is_empty());
    assert_eq!(floor.ty, Type::arrow(Type::float(), Type::int_type()));
    assert_eq!(ctx.lookup_type("ceil").unwrap().ty, Type::arrow(Type::float(), Type::int_type()));
    assert_eq!(ctx.lookup_type("sqrt").unwrap().ty, Type::arrow(Type::float(), Type::float()));
    assert_eq!(ctx.lookup_type("spawn").unwrap().ty.text(), "(unit -> 'a) -> pid");
    for (name, sig) in hiko::builtins::builtin_type_signatures() {
        if sig.ty.contains("word") {
            continue;
        }
        let scheme = ctx.lookup_type(name).unwrap_or_else(|| panic!("unbound builtin: {name}"));
        assert_eq!(scheme.ty.text(), sig.ty, "builtin {name}");
    }
}
