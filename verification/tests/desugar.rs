use hiko::syntax::ast::{BinOp, Decl, DeclKind, Expr, ExprKind, FunBinding, FunClause, Pat, PatKind};
use hiko::syntax::desugar::{desugar_decl, desugar_expr, desugar_fun_binding, desugar_pat};
use hiko::syntax::span::Span;

fn sp(start: u32) -> Span {
    Span { file_id: 0, start, end: start + 1 }
}

fn ex(kind: ExprKind, at: u32) -> Expr {
    Expr { kind, span: sp(at) }
}

fn lit(n: i64, at: u32) -> Expr {
    ex(ExprKind::IntLit(n), at)
}

fn var(x: &str, at: u32) -> Expr {
    ex(ExprKind::Var(x.to_string()), at)
}

fn pvar(x: &str, at: u32) -> Pat {
    Pat { kind: PatKind::Var(x.to_string()), span: sp(at) }
}

fn pint(n: i64, at: u32) -> Pat {
    Pat { kind: PatKind::IntLit(n), span: sp(at) }
}

#[test]
fn list_literals_become_cons_cells() {
    let e = ex(ExprKind::List(vec![lit(1, 1), lit(2, 2)]), 0);
    let expected = ex(
        ExprKind::Cons(Box::new(lit(1, 1)), Box::new(ex(ExprKind::Cons(Box::new(lit(2, 2)), Box::new(ex(ExprKind::List(vec![]), 0))), 0))),
        0,
    );
    assert_eq!(desugar_expr(e), expected);
    assert_eq!(desugar_expr(ex(ExprKind::List(vec![]), 5)), ex(ExprKind::List(vec![]), 5));
}

#[test]
fn boolean_connectives_become_conditionals() {
    let e = ex(ExprKind::BinOp(BinOp::Andalso, Box::new(var("a", 1)), Box::new(var("b", 2))), 0);
    let expected = ex(ExprKind::If(Box::new(var("a", 1)), Box::new(var("b", 2)), Box::new(ex(ExprKind::BoolLit(false), 0))), 0);
    assert_eq!(desugar_expr(e), expected);
    let e = ex(ExprKind::BinOp(BinOp::Orelse, Box::new(var("a", 1)), Box::new(var("b", 2))), 0);
    let expected = ex(ExprKind::If(Box::new(var("a", 1)), Box::new(ex(ExprKind::BoolLit(true), 0)), Box::new(var("b", 2))), 0);
    assert_eq!(desugar_expr(e), expected);
    let e = ex(ExprKind::Not(Box::new(var("a", 1))), 0);
    let expected = ex(
        ExprKind::If(Box::new(var("a", 1)), Box::new(ex(ExprKind::BoolLit(false), 0)), Box::new(ex(ExprKind::BoolLit(true), 0))),
        0,
    );
    assert_eq!(desugar_expr(e), expected);
}

#[test]
fn parentheses_disappear() {
    let e = ex(ExprKind::Paren(Box::new(ex(ExprKind::Paren(Box::new(var("x", 2))), 1))), 0);
    assert_eq!(desugar_expr(e), var("x", 2));
    let p = Pat { kind: PatKind::Paren(Box::new(pvar("y", 1))), span: sp(0) };
    assert_eq!(desugar_pat(p), pvar("y", 1));
}

#[test]
fn list_patterns_become_cons_patterns() {
    let p = Pat { kind: PatKind::List(vec![pvar("h", 1)]), span: sp(0) };
    let expected = Pat {
        kind: PatKind::Cons(Box::new(pvar("h", 1)), Box::new(Pat { kind: PatKind::List(vec![]), span: sp(0) })),
        span: sp(0),
    };
    assert_eq!(desugar_pat(p), expected);
}

#[test]
fn one_clause_functions_keep_their_shape() {
    let b = FunBinding {
        name: "id".to_string(),
        clauses: vec![FunClause { pats: vec![pvar("x", 2)], body: var("x", 3), span: sp(1) }],
        span: sp(0),
    };
    let expected = FunBinding {
        name: "id".to_string(),
        clauses: vec![FunClause { pats: vec![pvar("x", 2)], body: var("x", 3), span: sp(1) }],
        span: sp(0),
    };
    assert_eq!(desugar_fun_binding(b), expected);
}

#[test]
fn several_clauses_merge_into_a_case_on_the_argument() {
    let b = FunBinding {
        name: "f".to_string(),
        clauses: vec![
            FunClause { pats: vec![pint(0, 2)], body: lit(1, 3), span: sp(1) },
            FunClause { pats: vec![pvar("n", 5)], body: var("n", 6), span: sp(4) },
        ],
        span: sp(0),
    };
    let case = ex(
        ExprKind::Case(Box::new(var("_arg0", 0)), vec![(pint(0, 2), lit(1, 3)), (pvar("n", 5), var("n", 6))]),
        0,
    );
    let expected = FunBinding {
        name: "f".to_string(),
        clauses: vec![FunClause { pats: vec![pvar("_arg0", 0)], body: case, span: sp(0) }],
        span: sp(0),
    };
    assert_eq!(desugar_fun_binding(b), expected);
}

#[test]
fn several_clauses_of_two_arguments_case_on_a_tuple() {
    let b = FunBinding {
        name: "g".to_string(),
        clauses: vec![
            FunClause { pats: vec![pint(0, 2), pvar("y", 3)], body: var("y", 4), span: sp(1) },
            FunClause { pats: vec![pvar("x", 6), pvar("y", 7)], body: var("x", 8), span: sp(5) },
        ],
        span: sp(0),
    };
    let tuple = |ps: Vec<Pat>, at: u32| Pat { kind: PatKind::Tuple(ps), span: sp(at) };
    let case = ex(
        ExprKind::Case(
            Box::new(ex(ExprKind::Tuple(vec![var("_arg0", 0), var("_arg1", 0)]), 0)),
            vec![(tuple(vec![pint(0, 2), pvar("y", 3)], 1), var("y", 4)), (tuple(vec![pvar("x", 6), pvar("y", 7)], 5), var("x", 8))],
        ),
        0,
    );
    let expected = FunBinding {
        name: "g".to_string(),
        clauses: vec![FunClause { pats: vec![pvar("_arg0", 0), pvar("_arg1", 0)], body: case, span: sp(0) }],
        span: sp(0),
    };
    assert_eq!(desugar_fun_binding(b), expected);
}

#[test]
fn declarations_desugar_their_parts() {
    let d = Decl { kind: DeclKind::Val(pvar("x", 1), ex(ExprKind::Paren(Box::new(lit(3, 3))), 2)), span: sp(0) };
    let expected = Decl { kind: DeclKind::Val(pvar("x", 1), lit(3, 3)), span: sp(0) };
    assert_eq!(desugar_decl(d), expected);
}
