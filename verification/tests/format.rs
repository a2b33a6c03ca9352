use hiko::syntax::format::{format_source, FormatError};

fn fmt(source: &str) -> String {
    format_source(source, 0).expect("formatting should succeed")
}

#[test]
fn preserves_header_and_trailing_comments() {
    let source = "(* header *)\nval _=println \"hi\" (* tail *)\n";
    assert_eq!(
        fmt(source),
        "(* header *)\nval _ = println \"hi\"  (* tail *)\n"
    );
}

#[test]
fn keeps_comment_markers_inside_strings() {
    let source = "val s = \"(* not a comment *)\"\n(* real comment *)\nval _ = println s\n";
    assert_eq!(
        fmt(source),
        "val s = \"(* not a comment *)\"\n(* real comment *)\nval _ = println s\n"
    );
}

#[test]
fn rejects_expression_level_comments() {
    let source = "fun f x =\n  case x of\n      [] => 0\n    | y :: ys => (* branch *) y\n";
    let err = format_source(source, 0).expect_err("expression comment should be rejected");
    assert!(matches!(err, FormatError::UnsupportedComment { .. }));
}

#[test]
fn formats_comment_only_files() {
    let source = "(* hello *)\n(* world *)\n";
    assert_eq!(fmt(source), "(* hello *)\n(* world *)\n");
}

#[test]
fn preserves_single_blank_lines_between_comment_groups() {
    let source = "(* header *)\n\n(* section *)\nval x=1\n\n(* next *)\nval y=2\n";
    assert_eq!(
        fmt(source),
        "(* header *)\n\n(* section *)\nval x = 1\n\n(* next *)\nval y = 2\n"
    );
}

#[test]
fn nested_let_decls_do_not_gain_forced_blank_lines() {
    let source = "val x = let\n  val a=1\n  val b=2\nin\n  a + b\nend\n";
    assert_eq!(
        fmt(source),
        "val x =\n  let\n    val a = 1\n    val b = 2\n  in\n    a + b\n  end\n"
    );
}

#[test]
fn formats_datatype_branches_with_comments_via_ast() {
    let source = "structure Json = struct\n(* Constructor tags are fixed. *)\ndatatype json = JNull | JBool of bool | JArray of json list | JObject of (string * json) list\nend\n";
    assert_eq!(
        fmt(source),
        "structure Json = struct\n  (* Constructor tags are fixed. *)\n  datatype json =\n      JNull\n    | JBool of bool\n    | JArray of json list\n    | JObject of (string * json) list\nend\n"
    );
}

#[test]
fn formats_signature_types_with_spaces() {
    let source = "signature EXEC = sig\nval run:string->string list->int*string*string\nend\n";
    assert_eq!(
        fmt(source),
        "signature EXEC = sig\n  val run : string -> string list -> int * string * string\nend\n"
    );
}

#[test]
fn mutual_fun_after_let_body_keeps_and_on_new_line() {
    let source = "fun walk dir = let\n  val entries = list_dir dir\nin\n  walk_entries dir entries\nend\nand walk_entries dir entries = case entries of\n  [] => ()\n| name :: rest => walk_entries dir rest\n";
    assert_eq!(
        fmt(source),
        "fun walk dir =\n  let\n    val entries = list_dir dir\n  in\n    walk_entries dir entries\n  end\nand walk_entries dir entries =\n  case entries of\n      [] => ()\n    | name :: rest => walk_entries dir rest\n"
    );
}

#[test]
fn separates_top_level_declarations_by_a_blank_line() {
    assert_eq!(fmt("val a=1\nval b=2\n"), "val a = 1\n\nval b = 2\n");
}

#[test]
fn local_declaration_lists_share_their_container_comments() {
    // Both lists of a `local` span the whole declaration, so each prints the
    // comments standing anywhere in it.
    let source = "local\n(* helper *)\nval h = 1\nin\nval x = h (* uses h *)\nend\n";
    assert_eq!(
        fmt(source),
        "local\n  (* helper *)\n  val h = 1\n\n  (* uses h *)\nin\n  (* helper *)\n  val x = h  (* uses h *)\nend\n"
    );
}

#[test]
fn reports_lexical_errors() {
    let err = format_source("val s = \"open\n", 0).expect_err("unterminated string");
    assert!(matches!(err, FormatError::Lex(_)));
}

#[test]
fn formats_empty_source_to_nothing() {
    assert_eq!(fmt(""), "");
}

#[test]
fn comment_free_simple_declarations_always_format() {
    assert_eq!(fmt("val x=1\nfun f y=y\n"), "val x = 1\n\nfun f y = y\n");
}
