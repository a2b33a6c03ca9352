use hiko::compile::error::{binop_to_op, CompileError};
use hiko::compile::op::Op;
use hiko::syntax::ast::BinOp;

#[test]
fn every_byte_below_57_decodes_and_encodes_back() {
    for b in 0u8..57 {
        let op = Op::try_from(b).expect("byte should decode");
        assert_eq!(op.byte(), b);
    }
}

#[test]
fn bytes_past_the_instruction_set_are_rejected() {
    assert_eq!(Op::try_from(57), Err(57));
    assert_eq!(Op::try_from(255), Err(255));
}

#[test]
fn instruction_bytes_follow_the_listing() {
    assert_eq!(Op::Const.byte(), 0);
    assert_eq!(Op::Pop.byte(), 9);
    assert_eq!(Op::ConcatString.byte(), 39);
    assert_eq!(Op::Halt.byte(), 52);
    assert_eq!(Op::RemoveHandler.byte(), 56);
    assert_eq!(Op::try_from(48), Ok(Op::Call));
}

#[test]
fn strict_operators_map_to_their_instructions() {
    assert_eq!(binop_to_op(BinOp::AddInt), Op::AddInt);
    assert_eq!(binop_to_op(BinOp::DivFloat), Op::DivFloat);
    assert_eq!(binop_to_op(BinOp::ConcatStr), Op::ConcatString);
    assert_eq!(binop_to_op(BinOp::GeFloat), Op::GeFloat);
    assert_eq!(binop_to_op(BinOp::Ne), Op::Ne);
}

#[test]
fn codegen_errors_keep_their_message() {
    match CompileError::codegen("no such global".to_string()) {
        CompileError::Codegen(m) => assert_eq!(m, "no such global"),
        _ => panic!("expected a codegen error"),
    }
}
