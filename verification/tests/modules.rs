use hiko::syntax::ast::{TypeExpr, TypeExprKind};
use hiko::syntax::modules::{
    mangle_symbol, remap_signature_type_expr, remap_signature_type_name, rename_type_expr,
    rename_value_symbol, ModuleScope, RemapMode,
};
use hiko::syntax::span::Span;

fn sp(start: u32) -> Span {
    Span { file_id: 0, start, end: start + 1 }
}

fn te(kind: TypeExprKind, at: u32) -> TypeExpr {
    TypeExpr { kind, span: sp(at) }
}

fn pairs(ps: &[(&str, &str)]) -> Vec<(String, String)> {
    ps.iter().map(|(a, b)| (a.to_string(), b.to_string())).collect()
}

fn scope(values: &[(&str, &str)], types: &[(&str, &str)]) -> ModuleScope {
    ModuleScope { values: pairs(values), constructors: Vec::new(), types: pairs(types), effects: Vec::new() }
}

#[test]
fn type_names_are_renamed_through_the_scope() {
    let ty = te(
        TypeExprKind::Arrow(
            Box::new(te(TypeExprKind::App("list".to_string(), vec![te(TypeExprKind::Named("t".to_string()), 2)]), 1)),
            Box::new(te(TypeExprKind::Var("'a".to_string()), 3)),
        ),
        0,
    );
    let renamed = rename_type_expr(&ty, &scope(&[], &[("t", "M.t")]));
    let expected = te(
        TypeExprKind::Arrow(
            Box::new(te(TypeExprKind::App("list".to_string(), vec![te(TypeExprKind::Named("M.t".to_string()), 2)]), 1)),
            Box::new(te(TypeExprKind::Var("'a".to_string()), 3)),
        ),
        0,
    );
    assert_eq!(renamed, expected);
}

#[test]
fn empty_scope_renames_nothing() {
    let ty = te(TypeExprKind::Tuple(vec![te(TypeExprKind::Named("int".to_string()), 1)]), 0);
    let same = te(TypeExprKind::Tuple(vec![te(TypeExprKind::Named("int".to_string()), 1)]), 0);
    assert_eq!(rename_type_expr(&ty, &scope(&[], &[])), same);
}

#[test]
fn local_values_shadow_the_scope() {
    let s = scope(&[("f", "M.f")], &[]);
    assert_eq!(rename_value_symbol(&"f".to_string(), &s, &vec![]), "M.f");
    assert_eq!(rename_value_symbol(&"f".to_string(), &s, &vec!["f".to_string()]), "f");
    assert_eq!(rename_value_symbol(&"g".to_string(), &s, &vec![]), "g");
}

#[test]
fn mangled_names_carry_the_module_path() {
    let path = vec!["A".to_string(), "B".to_string()];
    assert_eq!(mangle_symbol(&path, "x", false), "A.B.x");
    assert_eq!(mangle_symbol(&path, "x", true), "A.B.$x");
    assert_eq!(mangle_symbol(&vec![], "x", false), "x");
    assert_eq!(mangle_symbol(&vec![], "x", true), "$x");
}

#[test]
fn specified_types_are_remapped_others_stay() {
    let path = vec!["S".to_string()];
    let specs = vec![("t".to_string(), (vec![], sp(0)))];
    assert_eq!(remap_signature_type_name(&"t".to_string(), &path, RemapMode::Public, &specs), "S.t");
    assert_eq!(remap_signature_type_name(&"t".to_string(), &path, RemapMode::Hidden, &specs), "S.$t");
    assert_eq!(remap_signature_type_name(&"u".to_string(), &path, RemapMode::Public, &specs), "u");
    let ty = te(TypeExprKind::App("t".to_string(), vec![te(TypeExprKind::Named("u".to_string()), 1)]), 0);
    let expected = te(TypeExprKind::App("S.$t".to_string(), vec![te(TypeExprKind::Named("u".to_string()), 1)]), 0);
    assert_eq!(remap_signature_type_expr(&ty, &path, RemapMode::Hidden, &specs), expected);
}
