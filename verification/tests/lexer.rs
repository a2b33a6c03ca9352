use hiko::syntax::lexer::Lexer;
use hiko::syntax::token::TokenKind;

/// The value of the single float literal in `input` (its text read as f64).
fn lex_float(input: &str) -> f64 {
    let toks = lex(input);
    assert_eq!(toks.len(), 2);
    assert_eq!(toks[1], TokenKind::Eof);
    match &toks[0] {
        TokenKind::FloatLit(text) => text.parse::<f64>().unwrap(),
        other => panic!("expected a float literal, found {other:?}"),
    }
}

fn lex(input: &str) -> Vec<TokenKind> {
    let mut lexer = Lexer::new(input, 0);
    lexer
        .tokenize()
        .unwrap()
        .into_iter()
        .map(|t| t.kind)
        .collect()
}

fn lex_err(input: &str) -> String {
    let mut lexer = Lexer::new(input, 0);
    lexer.tokenize().unwrap_err().message
}

#[test]
fn test_int_literals() {
    assert_eq!(lex("42"), vec![TokenKind::IntLit(42), TokenKind::Eof]);
    assert_eq!(lex("0"), vec![TokenKind::IntLit(0), TokenKind::Eof]);
    assert_eq!(lex("12345"), vec![TokenKind::IntLit(12345), TokenKind::Eof]);
}

#[test]
fn test_float_literals() {
    assert_eq!(lex_float("3.14"), 314.0 / 100.0);
    assert_eq!(lex_float("1.0e10"), 1.0e10);
    assert_eq!(lex_float("2.5E-3"), 2.5e-3);
    assert_eq!(lex_float("0.0"), 0.0);
}

#[test]
fn test_string_literals() {
    assert_eq!(
        lex(r#""hello""#),
        vec![TokenKind::StringLit("hello".to_string()), TokenKind::Eof]
    );
    assert_eq!(
        lex(r#""a\nb""#),
        vec![TokenKind::StringLit("a\nb".to_string()), TokenKind::Eof]
    );
    assert_eq!(
        lex(r#""a\\b""#),
        vec![TokenKind::StringLit("a\\b".to_string()), TokenKind::Eof]
    );
}

#[test]
fn test_char_literals() {
    assert_eq!(
        lex(r#"#"a""#),
        vec![TokenKind::CharLit('a'), TokenKind::Eof]
    );
    assert_eq!(
        lex(r#"#"\n""#),
        vec![TokenKind::CharLit('\n'), TokenKind::Eof]
    );
}

#[test]
fn test_keywords() {
    assert_eq!(lex("val"), vec![TokenKind::Val, TokenKind::Eof]);
    assert_eq!(lex("fun"), vec![TokenKind::Fun, TokenKind::Eof]);
    assert_eq!(lex("fn"), vec![TokenKind::Fn, TokenKind::Eof]);
    assert_eq!(lex("let"), vec![TokenKind::Let, TokenKind::Eof]);
    assert_eq!(lex("case"), vec![TokenKind::Case, TokenKind::Eof]);
    assert_eq!(lex("datatype"), vec![TokenKind::Datatype, TokenKind::Eof]);
    assert_eq!(lex("andalso"), vec![TokenKind::Andalso, TokenKind::Eof]);
    assert_eq!(lex("orelse"), vec![TokenKind::Orelse, TokenKind::Eof]);
}

#[test]
fn test_identifiers() {
    assert_eq!(
        lex("foo"),
        vec![TokenKind::Ident("foo".to_string()), TokenKind::Eof]
    );
    assert_eq!(
        lex("x1"),
        vec![TokenKind::Ident("x1".to_string()), TokenKind::Eof]
    );
    assert_eq!(
        lex("_bar"),
        vec![TokenKind::Ident("_bar".to_string()), TokenKind::Eof]
    );
}

#[test]
fn test_upper_idents() {
    assert_eq!(
        lex("Some"),
        vec![TokenKind::UpperIdent("Some".to_string()), TokenKind::Eof]
    );
    assert_eq!(
        lex("None"),
        vec![TokenKind::UpperIdent("None".to_string()), TokenKind::Eof]
    );
}

#[test]
fn test_tyvars() {
    assert_eq!(
        lex("'a"),
        vec![TokenKind::TyVar("'a".to_string()), TokenKind::Eof]
    );
    assert_eq!(
        lex("'abc"),
        vec![TokenKind::TyVar("'abc".to_string()), TokenKind::Eof]
    );
}

#[test]
fn test_operators() {
    assert_eq!(
        lex("+ - * /"),
        vec![
            TokenKind::Plus,
            TokenKind::Minus,
            TokenKind::Star,
            TokenKind::Slash,
            TokenKind::Eof,
        ]
    );
}

#[test]
fn test_comparison_operators() {
    assert_eq!(
        lex("< <= > >="),
        vec![
            TokenKind::Lt,
            TokenKind::Le,
            TokenKind::Gt,
            TokenKind::Ge,
            TokenKind::Eof,
        ]
    );
}

#[test]
fn test_word_literals() {
    assert_eq!(lex("0w42"), vec![TokenKind::WordLit(42), TokenKind::Eof]);
    assert_eq!(lex("0wxFF"), vec![TokenKind::WordLit(0xFF), TokenKind::Eof]);
    assert_eq!(
        lex("0wxDEADBEEF"),
        vec![TokenKind::WordLit(0xDEADBEEF), TokenKind::Eof]
    );
    assert_eq!(lex("0w0"), vec![TokenKind::WordLit(0), TokenKind::Eof]);
}

#[test]
fn test_equality_operators() {
    assert_eq!(
        lex("= <>"),
        vec![TokenKind::Eq, TokenKind::Ne, TokenKind::Eof]
    );
}

#[test]
fn test_arrows_and_cons() {
    assert_eq!(
        lex("=> -> :: |>"),
        vec![
            TokenKind::Arrow,
            TokenKind::ThinArrow,
            TokenKind::ColonColon,
            TokenKind::PipeGt,
            TokenKind::Eof,
        ]
    );
}

#[test]
fn test_delimiters() {
    assert_eq!(
        lex("( ) [ ] , : ; | _ #"),
        vec![
            TokenKind::LParen,
            TokenKind::RParen,
            TokenKind::LBracket,
            TokenKind::RBracket,
            TokenKind::Comma,
            TokenKind::Colon,
            TokenKind::Semicolon,
            TokenKind::Bar,
            TokenKind::Underscore,
            TokenKind::Hash,
            TokenKind::Eof,
        ]
    );
}

#[test]
fn test_comments() {
    assert_eq!(
        lex("(* comment *) 42"),
        vec![TokenKind::IntLit(42), TokenKind::Eof]
    );
}

#[test]
fn test_nested_comments() {
    assert_eq!(
        lex("(* outer (* inner *) still outer *) 1"),
        vec![TokenKind::IntLit(1), TokenKind::Eof],
    );
}

#[test]
fn test_unterminated_comment() {
    assert_eq!(lex_err("(* oops"), "unterminated comment");
}

#[test]
fn test_unterminated_string() {
    assert_eq!(lex_err(r#""oops"#), "unterminated string literal");
}

#[test]
fn test_unexpected_char() {
    assert_eq!(lex_err("@"), "unexpected character: '@'");
}

#[test]
fn test_negation_is_operator() {
    assert_eq!(
        lex("~42"),
        vec![TokenKind::Tilde, TokenKind::IntLit(42), TokenKind::Eof,]
    );
}

#[test]
fn test_full_expression() {
    let tokens = lex("fun fib n = if n < 2 then n else fib (n - 1) + fib (n - 2)");
    assert_eq!(tokens[0], TokenKind::Fun);
    assert_eq!(tokens[1], TokenKind::Ident("fib".to_string()));
    assert_eq!(tokens[2], TokenKind::Ident("n".to_string()));
    assert_eq!(tokens[3], TokenKind::Eq);
    assert_eq!(tokens[4], TokenKind::If);
}

#[test]
fn test_empty_input() {
    assert_eq!(lex(""), vec![TokenKind::Eof]);
}

#[test]
fn test_comments_only() {
    assert_eq!(lex("(* just a comment *)"), vec![TokenKind::Eof]);
}

#[test]
fn test_datatype_declaration() {
    let tokens = lex("datatype 'a option = None | Some of 'a");
    assert_eq!(tokens[0], TokenKind::Datatype);
    assert_eq!(tokens[1], TokenKind::TyVar("'a".to_string()));
    assert_eq!(tokens[2], TokenKind::Ident("option".to_string()));
    assert_eq!(tokens[3], TokenKind::Eq);
    assert_eq!(tokens[4], TokenKind::UpperIdent("None".to_string()));
    assert_eq!(tokens[5], TokenKind::Bar);
    assert_eq!(tokens[6], TokenKind::UpperIdent("Some".to_string()));
    assert_eq!(tokens[7], TokenKind::Of);
    assert_eq!(tokens[8], TokenKind::TyVar("'a".to_string()));
}


#[test]
fn lexed_spans_are_in_order_and_end_with_one_eof() {
    let src = "val x = (* note *) 1 + 2.5 ^ \"s\" #\"c\" 'a";
    let tokens = Lexer::new(src, 7).tokenize().expect("lex error");
    let n = tokens.len();
    assert!(matches!(tokens[n - 1].kind, TokenKind::Eof));
    for t in &tokens[..n - 1] {
        assert!(!matches!(t.kind, TokenKind::Eof));
    }
    for t in &tokens {
        assert!(t.span.start <= t.span.end && t.span.end as usize <= src.len());
        assert_eq!(t.span.file_id, 7);
    }
    for w in tokens.windows(2) {
        assert!(w[0].span.end <= w[1].span.start);
    }
}
