use hiko::syntax::ast::{BinOp, DeclKind, ExprKind, PatKind, Program, TypeExprKind};
use hiko::syntax::lexer::Lexer;
use hiko::syntax::parser::Parser;

fn parse(input: &str) -> Program {
    let mut lexer = Lexer::new(input, 0);
    let tokens = lexer.tokenize().expect("lex error");
    let mut parser = Parser::new(tokens);
    parser.parse_program().expect("parse error")
}

#[allow(dead_code)]
fn parse_err(input: &str) -> String {
    let mut lexer = Lexer::new(input, 0);
    let tokens = lexer.tokenize().expect("lex error");
    let mut parser = Parser::new(tokens);
    parser.parse_program().unwrap_err().message
}

#[test]
fn test_val_binding() {
    let prog = parse("val x = 42");
    assert_eq!(prog.decls.len(), 1);
    assert!(matches!(&prog.decls[0].kind, DeclKind::Val(_, _)));
}

#[test]
fn parser_test_val_rec() {
    let prog = parse("val rec f = fn x => x");
    if let DeclKind::ValRec(name, _) = &prog.decls[0].kind {
        assert_eq!(name.as_str(), "f");
    } else {
        panic!("expected ValRec");
    }
}

#[test]
fn test_val_rec_requires_fn() {
    assert_eq!(
        parse_err("val rec x = 1"),
        "val rec requires fn on the right-hand side"
    );
}

#[test]
fn test_app_with_unary_neg() {
    // f ~1 should parse as App(f, UnaryNeg(1))
    let prog = parse("val x = f ~1");
    if let DeclKind::Val(_, ref expr) = prog.decls[0].kind {
        if let ExprKind::App(_, ref arg) = expr.kind {
            assert!(matches!(&arg.kind, ExprKind::UnaryNeg(_)));
        } else {
            panic!("expected App");
        }
    }
}

#[test]
fn test_app_with_not() {
    let prog = parse("val x = f not true");
    if let DeclKind::Val(_, ref expr) = prog.decls[0].kind {
        if let ExprKind::App(_, ref arg) = expr.kind {
            assert!(matches!(&arg.kind, ExprKind::Not(_)));
        } else {
            panic!("expected App");
        }
    }
}

#[test]
fn test_constructor_with_unary_neg() {
    let prog = parse("val x = Some ~1");
    if let DeclKind::Val(_, ref expr) = prog.decls[0].kind {
        if let ExprKind::App(_, ref arg) = expr.kind {
            assert!(matches!(&arg.kind, ExprKind::UnaryNeg(_)));
        } else {
            panic!("expected App");
        }
    }
}

#[test]
fn test_fun_simple() {
    let prog = parse("fun add x y = x + y");
    if let DeclKind::Fun(bindings) = &prog.decls[0].kind {
        assert_eq!(bindings[0].name.as_str(), "add");
        assert_eq!(bindings[0].clauses[0].pats.len(), 2);
    } else {
        panic!("expected fun");
    }
}

#[test]
fn test_fun_clausal() {
    let prog = parse("fun f 0 = 1 | f n = n");
    if let DeclKind::Fun(bindings) = &prog.decls[0].kind {
        assert_eq!(bindings[0].clauses.len(), 2);
    } else {
        panic!("expected fun");
    }
}

#[test]
fn test_fun_mutual() {
    let prog = parse("fun f x = g x and g y = f y");
    if let DeclKind::Fun(bindings) = &prog.decls[0].kind {
        assert_eq!(bindings.len(), 2);
        assert_eq!(bindings[0].name.as_str(), "f");
        assert_eq!(bindings[1].name.as_str(), "g");
    } else {
        panic!("expected fun");
    }
}

#[test]
fn test_datatype_simple() {
    let prog = parse("datatype shape = Circle of Float | Rect of Float * Float");
    if let DeclKind::Datatype(dt) = &prog.decls[0].kind {
        assert_eq!(dt.name.as_str(), "shape");
        assert_eq!(dt.tyvars.len(), 0);
        assert_eq!(dt.constructors.len(), 2);
    } else {
        panic!("expected datatype");
    }
}

#[test]
fn test_datatype_parameterized() {
    let prog = parse("datatype 'a option = None | Some of 'a");
    if let DeclKind::Datatype(dt) = &prog.decls[0].kind {
        let tyvars: Vec<&str> = dt
            .tyvars
            .iter()
            .map(|s| s.as_str())
            .collect();
        assert_eq!(tyvars, vec!["'a"]);
        assert_eq!(dt.constructors.len(), 2);
    } else {
        panic!("expected datatype");
    }
}

#[test]
fn test_datatype_multi_param() {
    let prog = parse("datatype ('a, 'b) either = Left of 'a | Right of 'b");
    if let DeclKind::Datatype(dt) = &prog.decls[0].kind {
        let tyvars: Vec<&str> = dt
            .tyvars
            .iter()
            .map(|s| s.as_str())
            .collect();
        assert_eq!(tyvars, vec!["'a", "'b"]);
    } else {
        panic!("expected datatype");
    }
}

#[test]
fn test_type_alias() {
    let prog = parse("type point = Float * Float");
    assert!(matches!(&prog.decls[0].kind, DeclKind::TypeAlias(_)));
}

#[test]
fn test_use_decl() {
    let prog = parse(r#"use "foo.hml""#);
    assert!(matches!(&prog.decls[0].kind, DeclKind::Use(path) if path == "foo.hml"));
}

#[test]
fn test_signature_decl() {
    let prog = parse("signature LIST = sig val fold : Int -> Int end");
    if let DeclKind::Signature(sig) = &prog.decls[0].kind {
        assert_eq!(sig.name.as_str(), "LIST");
        assert_eq!(sig.specs.len(), 1);
    } else {
        panic!("expected signature");
    }
}

#[test]
fn test_structure_decl() {
    let prog = parse("structure List = struct fun fold f acc xs = acc end");
    if let DeclKind::Structure {
        name,
        signature,
        opaque,
        decls,
    } = &prog.decls[0].kind
    {
        assert_eq!(name.as_str(), "List");
        assert!(signature.is_none());
        assert!(!opaque);
        assert_eq!(decls.len(), 1);
    } else {
        panic!("expected structure");
    }
}

#[test]
fn test_structure_decl_with_signature() {
    let prog = parse("structure List : LIST = struct fun fold f acc xs = acc end");
    if let DeclKind::Structure {
        name,
        signature,
        opaque,
        decls,
    } = &prog.decls[0].kind
    {
        assert_eq!(name.as_str(), "List");
        assert_eq!(signature.as_deref(), Some("LIST"));
        assert!(!opaque);
        assert_eq!(decls.len(), 1);
    } else {
        panic!("expected structure");
    }
}

#[test]
fn test_structure_decl_with_opaque_signature() {
    let prog = parse("structure List :> LIST = struct fun fold f acc xs = acc end");
    if let DeclKind::Structure {
        name,
        signature,
        opaque,
        decls,
    } = &prog.decls[0].kind
    {
        assert_eq!(name.as_str(), "List");
        assert_eq!(signature.as_deref(), Some("LIST"));
        assert!(*opaque);
        assert_eq!(decls.len(), 1);
    } else {
        panic!("expected structure");
    }
}

#[test]
fn test_qualified_access_expr() {
    let prog = parse("val sum = List.fold add 0 xs");
    if let DeclKind::Val(_, expr) = &prog.decls[0].kind {
        match &expr.kind {
            ExprKind::App(func, _) => match &func.kind {
                ExprKind::App(func, _) => match &func.kind {
                    ExprKind::App(func, _) => match &func.kind {
                        ExprKind::Var(sym) => {
                            assert_eq!(sym.as_str(), "List.fold");
                        }
                        _ => panic!("expected qualified var"),
                    },
                    _ => panic!("expected application chain"),
                },
                _ => panic!("expected application chain"),
            },
            _ => panic!("expected application"),
        }
    } else {
        panic!("expected val");
    }
}

#[test]
fn test_let_expr() {
    let prog = parse("val x = let val a = 1 in a + 2 end");
    assert!(matches!(&prog.decls[0].kind, DeclKind::Val(_, _)));
}

#[test]
fn test_case_expr() {
    let prog = parse("val x = case y of 0 => 1 | n => n");
    assert!(matches!(&prog.decls[0].kind, DeclKind::Val(_, _)));
}

#[test]
fn test_fn_expr() {
    let prog = parse("val f = fn x => x + 1");
    assert!(matches!(&prog.decls[0].kind, DeclKind::Val(_, _)));
}

#[test]
fn test_if_expr() {
    let prog = parse("val x = if true then 1 else 2");
    assert!(matches!(&prog.decls[0].kind, DeclKind::Val(_, _)));
}

#[test]
fn test_tuple_expr() {
    let prog = parse("val x = (1, 2, 3)");
    if let DeclKind::Val(_, ref expr) = prog.decls[0].kind {
        assert!(matches!(&expr.kind, ExprKind::Tuple(elems) if elems.len() == 3));
    }
}

#[test]
fn test_list_expr() {
    let prog = parse("val x = [1, 2, 3]");
    if let DeclKind::Val(_, ref expr) = prog.decls[0].kind {
        assert!(matches!(&expr.kind, ExprKind::List(elems) if elems.len() == 3));
    }
}

#[test]
fn test_cons_expr() {
    let prog = parse("val x = 1 :: 2 :: []");
    if let DeclKind::Val(_, ref expr) = prog.decls[0].kind {
        assert!(matches!(&expr.kind, ExprKind::Cons(_, _)));
    }
}

#[test]
fn test_operator_precedence() {
    // 1 + 2 * 3 should be 1 + (2 * 3)
    let prog = parse("val x = 1 + 2 * 3");
    if let DeclKind::Val(_, ref expr) = prog.decls[0].kind {
        if let ExprKind::BinOp(BinOp::AddInt, _, ref rhs) = expr.kind {
            assert!(matches!(&rhs.kind, ExprKind::BinOp(BinOp::MulInt, _, _)));
        } else {
            panic!("expected AddInt at top");
        }
    }
}

#[test]
fn test_application() {
    let prog = parse("val x = f a b");
    if let DeclKind::Val(_, ref expr) = prog.decls[0].kind {
        // f a b = (f a) b
        if let ExprKind::App(ref func, _) = expr.kind {
            assert!(matches!(&func.kind, ExprKind::App(_, _)));
        } else {
            panic!("expected App");
        }
    }
}

#[test]
fn test_pattern_cons() {
    let prog = parse("val (x :: xs) = [1, 2]");
    if let DeclKind::Val(ref pat, _) = prog.decls[0].kind {
        if let PatKind::Paren(ref inner) = pat.kind {
            assert!(matches!(&inner.kind, PatKind::Cons(_, _)));
        }
    }
}

#[test]
fn test_pattern_constructor() {
    let prog = parse("fun f (Some x) = x | f None = 0");
    if let DeclKind::Fun(ref bindings) = prog.decls[0].kind {
        assert_eq!(bindings[0].clauses.len(), 2);
    }
}

#[test]
fn test_type_annotation() {
    let prog = parse("val x = (42 : Int)");
    assert!(matches!(&prog.decls[0].kind, DeclKind::Val(_, _)));
}

#[test]
fn test_arrow_type() {
    let prog = parse("type f = Int -> Bool");
    if let DeclKind::TypeAlias(ref ta) = prog.decls[0].kind {
        assert!(matches!(&ta.ty.kind, TypeExprKind::Arrow(_, _)));
    }
}

#[test]
fn test_type_app() {
    let prog = parse("type xs = Int list");
    if let DeclKind::TypeAlias(ref ta) = prog.decls[0].kind {
        if let TypeExprKind::App(sym, _) = &ta.ty.kind {
            assert_eq!(sym.as_str(), "list");
        } else {
            panic!("expected App");
        }
    }
}

#[test]
fn test_local_decl() {
    let prog = parse("local val x = 1 in val y = x end");
    assert!(matches!(&prog.decls[0].kind, DeclKind::Local(_, _)));
}

#[test]
fn test_negative_pattern() {
    let prog = parse("fun f ~1 = true | f _ = false");
    if let DeclKind::Fun(ref bindings) = prog.decls[0].kind {
        if let PatKind::IntLit(n) = &bindings[0].clauses[0].pats[0].kind {
            assert_eq!(*n, -1);
        }
    }
}

#[test]
fn test_as_pattern() {
    let prog = parse("val (x as Some _) = y");
    if let DeclKind::Val(ref pat, _) = prog.decls[0].kind {
        if let PatKind::Paren(ref inner) = pat.kind {
            if let PatKind::As(sym, _) = &inner.kind {
                assert_eq!(sym.as_str(), "x");
            } else {
                panic!("expected As");
            }
        }
    }
}

#[test]
fn test_float_operators() {
    let prog = parse("val x = 1.0 +. 2.0 *. 3.0");
    if let DeclKind::Val(_, ref expr) = prog.decls[0].kind {
        if let ExprKind::BinOp(BinOp::AddFloat, _, ref rhs) = expr.kind {
            assert!(matches!(&rhs.kind, ExprKind::BinOp(BinOp::MulFloat, _, _)));
        } else {
            panic!("expected AddFloat");
        }
    }
}

#[test]
fn test_unit_expr() {
    let prog = parse("val x = ()");
    if let DeclKind::Val(_, ref expr) = prog.decls[0].kind {
        assert!(matches!(&expr.kind, ExprKind::Unit));
    }
}

#[test]
fn test_empty_list() {
    let prog = parse("val x = []");
    if let DeclKind::Val(_, ref expr) = prog.decls[0].kind {
        assert!(matches!(&expr.kind, ExprKind::List(elems) if elems.is_empty()));
    }
}

#[test]
fn test_orelse_right_assoc() {
    // a orelse b orelse c should be a orelse (b orelse c)
    let prog = parse("val x = a orelse b orelse c");
    if let DeclKind::Val(_, ref expr) = prog.decls[0].kind {
        if let ExprKind::BinOp(BinOp::Orelse, _, ref rhs) = expr.kind {
            assert!(matches!(&rhs.kind, ExprKind::BinOp(BinOp::Orelse, _, _)));
        } else {
            panic!("expected Orelse at top");
        }
    }
}

#[test]
fn test_andalso_right_assoc() {
    let prog = parse("val x = a andalso b andalso c");
    if let DeclKind::Val(_, ref expr) = prog.decls[0].kind {
        if let ExprKind::BinOp(BinOp::Andalso, _, ref rhs) = expr.kind {
            assert!(matches!(&rhs.kind, ExprKind::BinOp(BinOp::Andalso, _, _)));
        } else {
            panic!("expected Andalso at top");
        }
    }
}

#[test]
fn parser_test_complex_program() {
    // A realistic multi-declaration program
    let src = r#"
        datatype 'a option = None | Some of 'a

        fun map_option f opt =
          case opt of
            None   => None
          | Some x => Some (f x)

        val result = map_option (fn x => x + 1) (Some 42)
    "#;
    let prog = parse(src);
    assert_eq!(prog.decls.len(), 3);
}


#[test]
fn simple_declarations_parse_one_for_one() {
    let prog = parse("val x = 1 fun f y = y val z = true fun g _ = \"s\"");
    assert_eq!(prog.decls.len(), 4);
    assert!(matches!(&prog.decls[0].kind, DeclKind::Val(_, _)));
    assert!(matches!(&prog.decls[1].kind, DeclKind::Fun(_)));
    assert!(matches!(&prog.decls[2].kind, DeclKind::Val(_, _)));
    assert!(matches!(&prog.decls[3].kind, DeclKind::Fun(_)));
}

fn val_body(prog: &Program, i: usize) -> &ExprKind {
    match &prog.decls[i].kind {
        DeclKind::Val(_, e) => &e.kind,
        _ => panic!("not a val"),
    }
}

fn val_pat(prog: &Program, i: usize) -> &PatKind {
    match &prog.decls[i].kind {
        DeclKind::Val(p, _) => &p.kind,
        _ => panic!("not a val"),
    }
}

#[test]
fn compound_atoms_parse_to_their_forms() {
    let prog = parse("val u = () val e = [] val p = (1) val t = (1, 2) val l = [3]");
    assert!(matches!(val_body(&prog, 0), ExprKind::Unit));
    assert!(matches!(val_body(&prog, 1), ExprKind::List(v) if v.is_empty()));
    assert!(matches!(val_body(&prog, 2), ExprKind::Paren(_)));
    assert!(matches!(val_body(&prog, 3), ExprKind::Tuple(v) if v.len() == 2));
    assert!(matches!(val_body(&prog, 4), ExprKind::List(v) if v.len() == 1));
}

#[test]
fn compound_atom_patterns_parse_to_their_forms() {
    let prog = parse("val () = () val [] = [] val (a) = 1 val (b, c) = (1, 2) val [d] = [1]");
    assert!(matches!(val_pat(&prog, 0), PatKind::Unit));
    assert!(matches!(val_pat(&prog, 1), PatKind::List(v) if v.is_empty()));
    assert!(matches!(val_pat(&prog, 2), PatKind::Paren(_)));
    assert!(matches!(val_pat(&prog, 3), PatKind::Tuple(v) if v.len() == 2));
    assert!(matches!(val_pat(&prog, 4), PatKind::List(v) if v.len() == 1));
}

#[test]
fn arrow_type_alone_parses_as_arrow() {
    let tokens = Lexer::new("int -> bool", 0).tokenize().expect("lex error");
    let ty = Parser::new(tokens).parse_type_only().expect("parse error");
    assert!(matches!(ty.kind, TypeExprKind::Arrow(_, _)));
}
