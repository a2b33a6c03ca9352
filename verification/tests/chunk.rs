use hiko::compile::chunk::{Chunk, Constant};
use hiko::compile::op::Op;
use hiko::syntax::span::Span;

fn sp(start: u32) -> Span {
    Span { file_id: 0, start, end: start + 1 }
}

#[test]
fn u16_is_written_little_endian_and_read_back() {
    let mut chunk = Chunk::new();
    chunk.emit_u16(0x1234);
    assert_eq!(chunk.code, vec![0x34, 0x12]);
    let mut ip = 0;
    assert_eq!(Chunk::read_u16(&chunk.code, &mut ip), 0x1234);
    assert_eq!(ip, 2);
}

#[test]
fn negative_i16_round_trips() {
    let mut chunk = Chunk::new();
    chunk.emit_i16(-2);
    assert_eq!(chunk.code, vec![0xfe, 0xff]);
    chunk.emit_i16(i16::MIN);
    chunk.emit_i16(i16::MAX);
    let mut ip = 0;
    assert_eq!(Chunk::read_i16(&chunk.code, &mut ip), -2);
    assert_eq!(Chunk::read_i16(&chunk.code, &mut ip), i16::MIN);
    assert_eq!(Chunk::read_i16(&chunk.code, &mut ip), i16::MAX);
    assert_eq!(ip, 6);
}

#[test]
fn read_u8_steps_one_byte() {
    let mut chunk = Chunk::new();
    chunk.emit_op(Op::Pop);
    chunk.emit_u8(7);
    let mut ip = 0;
    assert_eq!(Chunk::read_u8(&chunk.code, &mut ip), Op::Pop.byte());
    assert_eq!(Chunk::read_u8(&chunk.code, &mut ip), 7);
    assert_eq!(ip, 2);
}

#[test]
fn patched_jump_lands_at_the_end_of_the_code() {
    let mut chunk = Chunk::new();
    let pos = chunk.emit_jump(Op::Jump);
    assert_eq!(pos, 1);
    assert_eq!(chunk.code, vec![Op::Jump.byte(), 0, 0]);
    chunk.emit_op(Op::Unit);
    chunk.emit_op(Op::Pop);
    assert!(chunk.patch_jump(pos).is_ok());
    let mut ip = pos;
    let offset = Chunk::read_i16(&chunk.code, &mut ip);
    assert_eq!(offset, 2);
    assert_eq!(ip as i64 + offset as i64, chunk.code.len() as i64);
}

#[test]
fn jump_target_beyond_i16_is_refused() {
    let mut chunk = Chunk::new();
    let pos = chunk.emit_jump(Op::Jump);
    for _ in 0..32767 {
        chunk.emit_u8(0);
    }
    let err = chunk.patch_jump(pos).unwrap_err();
    assert_eq!(err, "jump target overflow: bytecode offset 32770 exceeds i16::MAX");
}

#[test]
fn jump_origin_beyond_i16_is_refused() {
    let mut chunk = Chunk::new();
    let err = chunk.patch_jump(40000).unwrap_err();
    assert_eq!(err, "jump origin overflow: bytecode offset 40002 exceeds i16::MAX");
}

#[test]
fn constants_are_numbered_in_order() {
    let mut chunk = Chunk::new();
    assert_eq!(chunk.add_constant(Constant::Int(5)), Ok(0));
    assert_eq!(chunk.add_constant(Constant::String("x".to_string())), Ok(1));
    assert_eq!(chunk.add_constant(Constant::Float(1.5f64.to_bits())), Ok(2));
    assert_eq!(chunk.constants.len(), 3);
}

#[test]
fn full_constant_pool_is_refused() {
    let mut chunk = Chunk::new();
    for i in 0..65536 {
        assert!(chunk.add_constant(Constant::Int(i)).is_ok());
    }
    let err = chunk.add_constant(Constant::Char('c')).unwrap_err();
    assert_eq!(err, "constant pool overflow: 65536 exceeds u16::MAX");
    assert_eq!(chunk.constants.len(), 65536);
}

#[test]
fn spans_are_recorded_once_per_offset_and_looked_up_backwards() {
    let mut chunk = Chunk::new();
    chunk.record_span(sp(10));
    chunk.record_span(sp(11));
    chunk.emit_op(Op::Unit);
    chunk.emit_op(Op::Pop);
    chunk.record_span(sp(20));
    chunk.emit_op(Op::Return);
    assert_eq!(chunk.spans, vec![(0, sp(10)), (2, sp(20))]);
    assert_eq!(chunk.span_at(0), Some(sp(10)));
    assert_eq!(chunk.span_at(1), Some(sp(10)));
    assert_eq!(chunk.span_at(2), Some(sp(20)));
    assert_eq!(chunk.span_at(9), Some(sp(20)));
}

#[test]
fn no_span_before_the_first_recording() {
    let mut chunk = Chunk::new();
    chunk.emit_op(Op::Unit);
    chunk.record_span(sp(3));
    assert_eq!(chunk.span_at(0), None);
    assert_eq!(chunk.span_at(1), Some(sp(3)));
}
