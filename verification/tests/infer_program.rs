use hiko::syntax::ast::{ConDecl, DatatypeDecl, Decl, DeclKind, Expr, ExprKind, Pat, PatKind, Program};
use hiko::syntax::desugar::{check_decl_ok, desugar_decl};
use hiko::syntax::lexer::Lexer;
use hiko::syntax::parser::Parser;
use hiko::syntax::span::Span;
use hiko::types::infer::InferCtx;
use hiko::types::inference::{check_program_core, is_syntactic_value};
use hiko::types::ty::Type;

fn program(input: &str) -> Program {
    let tokens = Lexer::new(input, 0).tokenize().expect("lex error");
    let parsed = Parser::new(tokens).parse_program().expect("parse error");
    let mut decls = Vec::new();
    for d in parsed.decls {
        match d.kind {
            DeclKind::Signature(_) => {}
            _ => decls.push(desugar_decl(d)),
        }
    }
    Program { decls }
}

fn infer(input: &str) -> InferCtx {
    let p = program(input);
    let mut ctx = InferCtx::new();
    ctx.infer_program(&p).expect("type error");
    ctx
}

fn infer_err(input: &str) -> String {
    let p = program(input);
    let mut ctx = InferCtx::new();
    ctx.infer_program(&p).unwrap_err().message
}

fn type_of(ctx: &InferCtx, name: &str) -> String {
    let scheme = ctx
        .lookup_type(name)
        .unwrap_or_else(|| panic!("no binding: {name}"));
    scheme.ty.text()
}

#[test]
fn test_int_lit() {
    let ctx = infer("val x = 42");
    assert_eq!(type_of(&ctx, "x"), "int");
}

#[test]
fn test_float_lit() {
    let ctx = infer("val x = 3.14");
    assert_eq!(type_of(&ctx, "x"), "float");
}

#[test]
fn test_string_lit() {
    let ctx = infer(r#"val x = "hello""#);
    assert_eq!(type_of(&ctx, "x"), "string");
}

#[test]
fn test_bool_lit() {
    let ctx = infer("val x = true");
    assert_eq!(type_of(&ctx, "x"), "bool");
}

#[test]
fn test_unit() {
    let ctx = infer("val x = ()");
    assert_eq!(type_of(&ctx, "x"), "unit");
}

#[test]
fn test_identity() {
    let ctx = infer("val id = fn x => x");
    let scheme = ctx.lookup_type("id").unwrap();
    assert!(!scheme.vars.is_empty(), "id should be polymorphic");
}

#[test]
fn test_const_fn() {
    let ctx = infer("fun f x y = x + y");
    assert_eq!(type_of(&ctx, "f"), "int -> int -> int");
}

#[test]
fn test_higher_order() {
    let ctx = infer("fun twice f x = f (f x)");
    let scheme = ctx.lookup_type("twice").unwrap();
    assert!(!scheme.vars.is_empty());
}

#[test]
fn test_let_poly() {
    let ctx = infer("val r = let val id = fn x => x in (id 42, id true) end");
    assert_eq!(type_of(&ctx, "r"), "int * bool");
}

#[test]
fn test_value_restriction() {
    let ctx = infer("val f = fn x => x val r = f 42");
    assert_eq!(type_of(&ctx, "r"), "int");
}

#[test]
fn test_option() {
    let ctx = infer("datatype 'a option = None | Some of 'a val x = Some 42");
    assert_eq!(type_of(&ctx, "x"), "int option");
}

#[test]
fn test_option_none() {
    let ctx = infer("datatype 'a option = None | Some of 'a val x = None");
    let scheme = ctx.lookup_type("x").unwrap();
    assert!(!scheme.vars.is_empty(), "None should be polymorphic");
}

#[test]
fn test_case_option() {
    let ctx = infer(
        "datatype 'a option = None | Some of 'a
         fun get_or_default opt d = case opt of None => d | Some x => x",
    );
    let scheme = ctx.lookup_type("get_or_default").unwrap();
    assert!(!scheme.vars.is_empty());
}

#[test]
fn test_pattern_tuple() {
    let ctx = infer("val (x, y) = (1, true)");
    assert_eq!(type_of(&ctx, "x"), "int");
    assert_eq!(type_of(&ctx, "y"), "bool");
}

#[test]
fn test_list_literal() {
    let ctx = infer("val xs = [1, 2, 3]");
    assert_eq!(type_of(&ctx, "xs"), "int list");
}

#[test]
fn test_cons() {
    let ctx = infer("val xs = 1 :: [2, 3]");
    assert_eq!(type_of(&ctx, "xs"), "int list");
}

#[test]
fn test_list_pattern() {
    let ctx = infer("fun hd (x :: _) = x | hd [] = 0");
    assert!(ctx.lookup_type("hd").is_some());
}

#[test]
fn test_int_arith() {
    let ctx = infer("val x = 1 + 2 * 3");
    assert_eq!(type_of(&ctx, "x"), "int");
}

#[test]
fn test_float_arith() {
    let ctx = infer("val x = 1.0 +. 2.0");
    assert_eq!(type_of(&ctx, "x"), "float");
}

#[test]
fn test_comparison() {
    let ctx = infer("val b = 1 < 2");
    assert_eq!(type_of(&ctx, "b"), "bool");
}

#[test]
fn test_equality() {
    let ctx = infer("val b = 42 = 42");
    assert_eq!(type_of(&ctx, "b"), "bool");
}

#[test]
fn test_type_mismatch() {
    let msg = infer_err("val x = 1 + true");
    assert!(msg.contains("type mismatch"), "got: {msg}");
}

#[test]
fn test_occurs_check() {
    let msg = infer_err("val f = fn x => x x");
    assert!(msg.contains("infinite type"), "got: {msg}");
}

#[test]
fn test_unbound_var() {
    let msg = infer_err("val x = y");
    assert!(msg.contains("unbound variable"), "got: {msg}");
}

#[test]
fn test_equality_on_list() {
    let msg = infer_err("val b = [1] = [1]");
    assert!(msg.contains("equality"), "got: {msg}");
}

#[test]
fn test_if() {
    let ctx = infer("val x = if true then 1 else 2");
    assert_eq!(type_of(&ctx, "x"), "int");
}

#[test]
fn test_if_branch_mismatch() {
    let msg = infer_err("val x = if true then 1 else true");
    assert!(msg.contains("type mismatch"), "got: {msg}");
}

#[test]
fn test_mutual_recursion() {
    let ctx = infer(
        "fun is_even 0 = true | is_even n = is_odd (n - 1)
         and is_odd 0 = false | is_odd n = is_even (n - 1)",
    );
    assert_eq!(type_of(&ctx, "is_even"), "int -> bool");
    assert_eq!(type_of(&ctx, "is_odd"), "int -> bool");
}

#[test]
fn test_annotation() {
    let ctx = infer("val x = (42 : int)");
    assert_eq!(type_of(&ctx, "x"), "int");
}

#[test]
fn test_annotation_mismatch() {
    let msg = infer_err("val x = (42 : bool)");
    assert!(msg.contains("type mismatch"), "got: {msg}");
}

#[test]
fn test_uppercase_primitive_annotation_rejected() {
    let msg = infer_err("val x = (42 : Int)");
    assert!(
        msg.contains("primitive type 'Int' is no longer supported; use 'int'"),
        "got: {msg}"
    );
}

#[test]
fn infer_test_val_rec() {
    let ctx = infer("val rec f = fn n => if n = 0 then 1 else n * f (n - 1)");
    assert_eq!(type_of(&ctx, "f"), "int -> int");
}

#[test]
fn test_map() {
    let ctx = infer("fun map f xs = case xs of [] => [] | x :: xs => f x :: map f xs");
    let scheme = ctx.lookup_type("map").unwrap();
    assert!(scheme.vars.len() >= 2, "map should have ≥2 type vars");
}

#[test]
fn infer_test_complex_program() {
    let ctx = infer(
        "datatype 'a option = None | Some of 'a
         fun map_opt f opt = case opt of None => None | Some x => Some (f x)
         val result = map_opt (fn x => x + 1) (Some 42)",
    );
    assert_eq!(type_of(&ctx, "result"), "int option");
}

#[test]
fn test_constructor_pattern_type_mismatch() {
    let msg = infer_err("datatype color = Red | Blue val Red = 42");
    assert!(msg.contains("type mismatch"), "got: {msg}");
}

#[test]
fn test_equality_polymorphic_allowed() {
    let ctx = infer("fun f x y = x = y");
    let ty = type_of(&ctx, "f");
    assert!(ty.ends_with("-> bool"), "got: {ty}");
}

#[test]
fn test_equality_on_option_rejected() {
    let msg = infer_err(
        "datatype 'a option = None | Some of 'a
         val b = Some 1 = Some 2",
    );
    assert!(msg.contains("equality"), "got: {msg}");
}

#[test]
fn test_type_alias_param() {
    let ctx = infer(
        "type 'a pair = 'a * 'a
         val x = (1, 2) : int pair",
    );
    assert_eq!(type_of(&ctx, "x"), "int * int");
}

#[test]
fn test_neg_int() {
    let ctx = infer("val x = ~42");
    assert_eq!(type_of(&ctx, "x"), "int");
}

#[test]
fn test_neg_float() {
    let ctx = infer("val x = ~3.14");
    assert_eq!(type_of(&ctx, "x"), "float");
}

#[test]
fn test_neg_bool_rejected() {
    let msg = infer_err("val x = ~true");
    assert!(msg.contains("int or float"), "got: {msg}");
}

#[test]
fn test_local_exports_body() {
    let ctx = infer("local val x = 1 in val y = x end val z = y");
    assert_eq!(type_of(&ctx, "z"), "int");
}

#[test]
fn test_local_hides_private() {
    let msg = infer_err("local val x = 1 in val y = x end val z = x");
    assert!(msg.contains("unbound variable"), "got: {msg}");
}

#[test]
fn test_unbound_tyvar_in_datatype() {
    let msg = infer_err("datatype 'a bad = Bad of 'b");
    assert!(msg.contains("unbound type variable"), "got: {msg}");
}

#[test]
fn test_unbound_tyvar_in_type_alias() {
    let msg = infer_err("type 'a bad = 'b");
    assert!(msg.contains("unbound type variable"), "got: {msg}");
}

#[test]
fn test_duplicate_constructor() {
    let msg = infer_err("datatype a = Red datatype b = Red");
    assert!(msg.contains("duplicate constructor"), "got: {msg}");
}

#[test]
fn test_duplicate_type_name() {
    let msg = infer_err("datatype color = Red type color = int");
    assert!(msg.contains("duplicate type"), "got: {msg}");
}

#[test]
fn test_val_rec_polymorphic() {
    let ctx = infer("val rec id = fn x => x val a = id 1 val b = id true");
    assert_eq!(type_of(&ctx, "a"), "int");
    assert_eq!(type_of(&ctx, "b"), "bool");
}

#[test]
fn test_duplicate_pat_var() {
    let msg = infer_err("val (x, x) = (1, 2)");
    assert!(msg.contains("duplicate variable"), "got: {msg}");
}

#[test]
fn test_builtin_int_to_string() {
    let ctx = infer("val s = int_to_string 42");
    assert_eq!(type_of(&ctx, "s"), "string");
}

#[test]
fn test_spawn_returns_pid() {
    let ctx = infer("val child = spawn (fn () => 42)");
    assert_eq!(type_of(&ctx, "child"), "pid");
}

#[test]
fn test_await_process_rejects_int() {
    let msg = infer_err("val x = await_process 123");
    assert!(msg.contains("type mismatch"), "got: {msg}");
}

#[test]
fn test_non_exhaustive_case_bool() {
    let msg = infer_err("val x = case true of false => 0");
    assert!(msg.contains("non-exhaustive"), "got: {msg}");
}

#[test]
fn test_non_exhaustive_clausal_fun() {
    let msg = infer_err("fun f 0 = 1");
    assert!(msg.contains("non-exhaustive"), "got: {msg}");
}

#[test]
fn test_exhaustive_bool() {
    let ctx = infer("val x = case true of true => 1 | false => 0");
    assert_eq!(type_of(&ctx, "x"), "int");
}

#[test]
fn test_exhaustive_option() {
    let _ctx = infer(
        "datatype 'a option = None | Some of 'a
         fun f opt = case opt of None => 0 | Some x => x",
    );
}

#[test]
fn test_exhaustive_wildcard() {
    let ctx = infer("val x = case 42 of _ => 1");
    assert_eq!(type_of(&ctx, "x"), "int");
}

#[test]
fn test_exhaustive_list() {
    let _ctx = infer("fun f xs = case xs of [] => 0 | _ :: _ => 1");
}

#[test]
fn test_non_exhaustive_list() {
    let msg = infer_err("fun f (x :: _) = x");
    assert!(msg.contains("non-exhaustive"), "got: {msg}");
}

#[test]
fn test_exhaustive_3way_adt() {
    let _ctx = infer(
        "datatype expr = Num of int | Add of expr * expr | Mul of expr * expr
         fun eval e = case e of Num n => n | Add (a, b) => eval a + eval b | Mul (a, b) => eval a * eval b
         val result = eval (Add (Num 1, Mul (Num 2, Num 3)))",
    );
}

#[test]
fn test_redundant_clause_warning() {
    let p = program("val x = case true of _ => 1 | false => 2");
    let mut ctx = InferCtx::new();
    ctx.infer_program(&p).unwrap();
    assert!(!ctx.warnings.is_empty(), "expected redundancy warning");
    assert!(
        ctx.warnings[0].message.contains("redundant"),
        "got: {}",
        ctx.warnings[0].message
    );
}

#[test]
fn test_nested_adt_non_exhaustive() {
    let msg = infer_err(
        "datatype flag = On | Off
         datatype t = A of flag | B
         val x = case A Off of A On => 1 | B => 0",
    );
    assert!(msg.contains("non-exhaustive"), "got: {msg}");
}

#[test]
fn test_nested_adt_exhaustive() {
    let _ctx = infer(
        "datatype flag = On | Off
         datatype t = A of flag | B
         val x = case A Off of A On => 1 | A Off => 2 | B => 0",
    );
}

#[test]
fn test_fn_non_exhaustive() {
    let msg = infer_err("val f = fn true => 1");
    assert!(msg.contains("non-exhaustive"), "got: {msg}");
}

#[test]
fn test_fn_exhaustive() {
    let _ctx = infer("val f = fn _ => 1");
}

#[test]
fn test_distinct_literals_not_redundant() {
    let p = program("val x = case 2 of 1 => 1 | 2 => 2 | _ => 3");
    let mut ctx = InferCtx::new();
    ctx.infer_program(&p).unwrap();
    assert!(
        ctx.warnings.is_empty(),
        "distinct literals should not be redundant, got: {:?}",
        ctx.warnings
    );
}

// ── Further cases ───────────────────────────────────────────────────────

fn sp(at: u32) -> Span {
    Span { file_id: 0, start: at, end: at + 1 }
}

#[test]
fn pattern_names_are_listed_in_order_with_as_names_last() {
    let mut ctx = InferCtx::new();
    let inner = Pat {
        kind: PatKind::Tuple(vec![
            Pat { kind: PatKind::Var("a".to_string()), span: sp(1) },
            Pat { kind: PatKind::Wildcard, span: sp(2) },
            Pat { kind: PatKind::Var("b".to_string()), span: sp(3) },
        ]),
        span: sp(0),
    };
    let pat = Pat { kind: PatKind::As("whole".to_string(), Box::new(inner)), span: sp(0) };
    let (ty, bs) = ctx.infer_pat(&pat).unwrap();
    let names: Vec<&str> = bs.iter().map(|b| b.0.as_str()).collect();
    assert_eq!(names, vec!["a", "b", "whole"]);
    assert!(matches!(ty, Type::Tuple(ref ts) if ts.len() == 3));
}

#[test]
fn unknown_constructor_in_pattern_is_reported() {
    let mut ctx = InferCtx::new();
    let pat = Pat { kind: PatKind::Constructor("Nope".to_string(), None), span: sp(7) };
    let err = ctx.infer_pat(&pat).unwrap_err();
    assert_eq!(err.message, "unknown constructor: Nope");
    assert_eq!(err.span, sp(7));
}

#[test]
fn literal_patterns_have_their_base_types() {
    let mut ctx = InferCtx::new();
    let pat = Pat { kind: PatKind::CharLit('c'), span: sp(0) };
    let (ty, bs) = ctx.infer_pat(&pat).unwrap();
    assert_eq!(ty, Type::char());
    assert!(bs.is_empty());
}

#[test]
fn wildcards_may_repeat_in_a_pattern() {
    let _ctx = infer("val (_, _) = (1, 2)");
}

#[test]
fn unbound_variable_message_names_it() {
    assert_eq!(infer_err("val x = missing"), "unbound variable: missing");
    assert_eq!(infer_err("val x = Missing"), "unknown constructor: Missing");
}

#[test]
fn undeclared_effect_is_reported() {
    let msg = infer_err("val x = perform Ask ()");
    assert_eq!(msg, "undeclared effect: Ask");
}

#[test]
fn shadowing_a_constructor_is_refused() {
    let dt = DatatypeDecl {
        tyvars: vec![],
        name: "c".to_string(),
        constructors: vec![ConDecl { name: "K".to_string(), payload: None, span: sp(1) }],
        span: sp(0),
    };
    let val = Decl {
        kind: DeclKind::Val(
            Pat { kind: PatKind::Var("K".to_string()), span: sp(3) },
            Expr { kind: ExprKind::IntLit(1), span: sp(4) },
        ),
        span: sp(2),
    };
    let p = Program {
        decls: vec![Decl { kind: DeclKind::Datatype(dt), span: sp(0) }, val],
    };
    let mut ctx = InferCtx::new();
    let err = ctx.infer_program(&p).unwrap_err();
    assert_eq!(err.message, "cannot shadow constructor 'K' with a value binding");
    assert_eq!(err.span, sp(2));
}

#[test]
fn equality_on_an_unresolved_variable_is_allowed() {
    let ctx = infer("fun same x y = x = y");
    let ty = type_of(&ctx, "same");
    let parts: Vec<&str> = ty.split(" -> ").collect();
    assert_eq!(parts.len(), 3, "got: {ty}");
    assert_eq!(parts[0], parts[1]);
    assert!(parts[0].starts_with('\''), "got: {ty}");
    assert_eq!(parts[2], "bool");
}

#[test]
fn syntactic_values_follow_the_value_restriction() {
    let p = program("val a = fn x => x val b = (1, fn y => y) val c = (fn x => x) 1");
    let mut kinds = Vec::new();
    for d in &p.decls {
        if let DeclKind::Val(_, e) = &d.kind {
            kinds.push(is_syntactic_value(e));
        }
    }
    assert_eq!(kinds, vec![true, true, false]);
}

#[test]
fn desugared_programs_are_ready_for_inference() {
    let tokens = Lexer::new("val xs = [1, 2] fun f 0 = 1 | f n = n", 0).tokenize().unwrap();
    let parsed = Parser::new(tokens).parse_program().unwrap();
    assert!(parsed.decls.iter().all(check_decl_ok));
    assert!(!check_program_core(&parsed));
    assert!(check_program_core(&program("val xs = [1, 2] fun f 0 = 1 | f n = n")));
    let sig = Lexer::new("signature S = sig end", 0).tokenize().unwrap();
    let sig = Parser::new(sig).parse_program().unwrap();
    assert!(!check_decl_ok(&sig.decls[0]));
}

#[test]
fn programs_of_uses_check_and_bind_nothing() {
    let p = program("use \"a.hk\"\nuse \"b.hk\"");
    let mut ctx = InferCtx::new();
    assert!(ctx.infer_program(&p).is_ok());
    assert!(ctx.lookup_type("a").is_none());
}

#[test]
fn tuples_lists_and_applications_take_their_shapes() {
    let ctx = infer("val t = (1, \"s\") val l = [] val a = (fn x => x) 3 val f = fn x => x");
    assert_eq!(type_of(&ctx, "t"), "int * string");
    assert!(type_of(&ctx, "l").ends_with("list"));
    assert_eq!(type_of(&ctx, "a"), "int");
    assert!(type_of(&ctx, "f").contains("->"));
}

#[test]
fn literal_declarations_bind_their_types() {
    let ctx = infer("val a = 1 val b = \"s\" val c = true val d = () val e = #\"c\"");
    assert_eq!(type_of(&ctx, "a"), "int");
    assert_eq!(type_of(&ctx, "b"), "string");
    assert_eq!(type_of(&ctx, "c"), "bool");
    assert_eq!(type_of(&ctx, "d"), "unit");
    assert_eq!(type_of(&ctx, "e"), "char");
    assert!(ctx.lookup_type("a").unwrap().vars.is_empty());
}

#[test]
fn the_last_literal_declaration_of_a_name_wins() {
    let ctx = infer("val a = 1 val b = true val a = \"s\"");
    assert_eq!(type_of(&ctx, "a"), "string");
    assert_eq!(type_of(&ctx, "b"), "bool");
}

#[test]
fn curried_adder_value_is_int_to_int_to_int() {
    let ctx = infer("val f = fn x => fn y => x + y");
    assert_eq!(type_of(&ctx, "f"), "int -> int -> int");
}

#[test]
fn application_conditional_and_list_cell_types() {
    let ctx = infer("val g = fn x => x val a = g 1 val b = if true then \"t\" else \"f\" val c = 1 :: [] val d = (1 < 2, 2.0 +. 1.5)");
    assert_eq!(type_of(&ctx, "a"), "int");
    assert_eq!(type_of(&ctx, "b"), "string");
    assert_eq!(type_of(&ctx, "c"), "int list");
    assert_eq!(type_of(&ctx, "d"), "bool * float");
}

#[test]
fn a_repeated_pattern_variable_fails_the_program() {
    let msg = infer_err("val a = 1 val (x, x) = (1, 2) val b = 2");
    assert!(msg.contains("duplicate variable"), "{msg}");
}

#[test]
fn bound_variables_are_instantiated_not_refused() {
    let ctx = infer("val id = fn x => x val n = id 5 val s = id \"s\"");
    assert_eq!(type_of(&ctx, "n"), "int");
    assert_eq!(type_of(&ctx, "s"), "string");
}

#[test]
fn let_bound_values_type_the_body() {
    let ctx = infer("val r = let val id = fn x => x in (id 42, id true) end val k = let val a = 1 val b = a + 2 in b * a end");
    assert_eq!(type_of(&ctx, "r"), "int * bool");
    assert_eq!(type_of(&ctx, "k"), "int");
}

#[test]
fn self_application_is_refused_as_an_infinite_type() {
    let msg = infer_err("val ok = 1 val f = fn x => x x");
    assert!(msg.contains("infinite type"), "{msg}");
}
