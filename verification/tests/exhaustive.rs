use hiko::syntax::ast::{Expr, ExprKind, Pat};
use hiko::syntax::lexer::Lexer;
use hiko::syntax::parser::Parser;
use hiko::syntax::ast::DeclKind;
use hiko::types::exhaustive::{check_match, TypeInfo};

/// The clause patterns of the `case` in `val _ = case x of ...`.
fn case_pats(src: &str) -> Vec<Pat> {
    let tokens = Lexer::new(src, 0).tokenize().unwrap();
    let prog = Parser::new(tokens).parse_program().unwrap();
    let decl = prog.decls.into_iter().next().unwrap();
    match decl.kind {
        DeclKind::Val(_, Expr { kind: ExprKind::Case(_, branches), .. }) => {
            branches.into_iter().map(|(p, _)| p).collect()
        }
        _ => panic!("expected a case"),
    }
}

fn option_dt() -> Vec<(String, Vec<(String, usize)>)> {
    vec![(
        "option".to_string(),
        vec![("None".to_string(), 0), ("Some".to_string(), 1)],
    )]
}

fn option_tags() -> Vec<(String, u16)> {
    vec![("None".to_string(), 0), ("Some".to_string(), 1)]
}

fn check(src: &str, ti: &TypeInfo) -> (bool, Vec<usize>) {
    let pats = case_pats(src);
    let refs: Vec<&Pat> = pats.iter().collect();
    let r = check_match(&refs, ti, &option_tags(), &option_dt());
    (r.exhaustive, r.redundant_clauses)
}

#[test]
fn bool_match_with_both_cases_is_exhaustive() {
    let r = check("val _ = case b of true => 1 | false => 0", &TypeInfo::bool_type());
    assert_eq!(r, (true, vec![]));
}

#[test]
fn bool_match_missing_a_case_is_not_exhaustive() {
    let r = check("val _ = case b of true => 1", &TypeInfo::bool_type());
    assert_eq!(r, (false, vec![]));
}

#[test]
fn wildcard_makes_match_exhaustive_and_later_clauses_redundant() {
    let r = check("val _ = case n of 0 => 1 | _ => 2 | 3 => 4", &TypeInfo::infinite());
    assert_eq!(r, (true, vec![2]));
}

#[test]
fn int_literals_alone_are_not_exhaustive() {
    let r = check("val _ = case n of 0 => 1 | 1 => 2 | 0 => 3", &TypeInfo::infinite());
    assert_eq!(r, (false, vec![2]));
}

#[test]
fn option_match() {
    let ti = TypeInfo::adt_type(
        "option",
        &vec![("None".to_string(), 0), ("Some".to_string(), 1)],
    );
    assert_eq!(check("val _ = case o of None => 0 | Some x => x", &ti), (true, vec![]));
    assert_eq!(check("val _ = case o of Some x => x", &ti), (false, vec![]));
    assert_eq!(
        check("val _ = case o of Some 1 => 1 | None => 0", &ti),
        (false, vec![])
    );
}

#[test]
fn list_match() {
    let ti = TypeInfo::list_type();
    assert_eq!(check("val _ = case l of [] => 0 | x :: xs => 1", &ti), (true, vec![]));
    assert_eq!(check("val _ = case l of [] => 0 | [x] => 1", &ti), (false, vec![]));
    assert_eq!(
        check("val _ = case l of [] => 0 | x :: xs => 1 | [y] => 2", &ti),
        (true, vec![2])
    );
}

#[test]
fn tuple_match() {
    let ti = TypeInfo::tuple_type(2);
    assert_eq!(
        check("val _ = case p of (true, x) => 1 | (false, y) => 2", &ti),
        (true, vec![])
    );
    assert_eq!(check("val _ = case p of (true, x) => 1", &ti), (false, vec![]));
}
