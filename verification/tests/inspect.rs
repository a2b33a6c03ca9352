use hiko::builtins::core_builtin_names;
use hiko::compile::chunk::{Chunk, CompiledProgram, Constant, FunctionProto};
use hiko::compile::op::Op;
use hiko::inspect::{count_chunk_opcodes, inspect_program_work, scan_chunk_globals, strict_violations};
use hiko::syntax::span::Span;

fn sp(start: u32) -> Span {
    Span { file_id: 0, start, end: start + 1 }
}

fn chunk_of(code: Vec<u8>, constants: Vec<Constant>) -> Chunk {
    Chunk { code, constants, spans: Vec::new() }
}

#[test]
fn counts_instructions_not_bytes() {
    let chunk = chunk_of(vec![Op::Const.byte(), 0, 0, Op::Pop.byte(), Op::Return.byte()], vec![Constant::Int(1)]);
    assert_eq!(count_chunk_opcodes(&chunk), Ok(3));
}

#[test]
fn closure_operands_cover_their_captures() {
    let code = vec![Op::MakeClosure.byte(), 0, 0, 2, 1, 0, 0, 0, 1, 0, Op::Halt.byte()];
    assert_eq!(count_chunk_opcodes(&chunk_of(code, vec![])), Ok(2));
}

#[test]
fn handler_operands_cover_their_clauses() {
    let mut code = vec![Op::InstallHandler.byte(), 2, 0];
    code.extend_from_slice(&[0; 8]);
    code.push(Op::RemoveHandler.byte());
    assert_eq!(count_chunk_opcodes(&chunk_of(code, vec![])), Ok(2));
}

#[test]
fn unknown_opcode_is_reported() {
    let chunk = chunk_of(vec![Op::Unit.byte(), 200], vec![]);
    assert_eq!(count_chunk_opcodes(&chunk), Err("invalid opcode while counting bytecode: 200".to_string()));
}

#[test]
fn truncated_operands_are_reported() {
    let chunk = chunk_of(vec![Op::Const.byte(), 0], vec![]);
    assert_eq!(count_chunk_opcodes(&chunk), Err("unexpected end of bytecode".to_string()));
}

#[test]
fn scan_collects_reads_with_spans_and_definitions() {
    let mut chunk = chunk_of(vec![], vec![Constant::String("exec".to_string()), Constant::String("x".to_string())]);
    chunk.record_span(sp(4));
    chunk.emit_op(Op::GetGlobal);
    chunk.emit_u16(0);
    chunk.emit_op(Op::SetGlobal);
    chunk.emit_u16(1);
    let mut defs = Vec::new();
    let mut reads = Vec::new();
    assert!(scan_chunk_globals(&chunk, &mut defs, &mut reads).is_ok());
    assert_eq!(defs, vec!["x".to_string()]);
    assert_eq!(reads, vec![("exec".to_string(), Some(sp(4)))]);
}

#[test]
fn scan_refuses_a_global_named_by_a_non_string() {
    let chunk = chunk_of(vec![Op::GetGlobal.byte(), 0, 0], vec![Constant::Int(3)]);
    let err = scan_chunk_globals(&chunk, &mut Vec::new(), &mut Vec::new()).unwrap_err();
    assert_eq!(err, "expected string constant at index 0");
}

#[test]
fn scan_refuses_a_constant_index_out_of_bounds() {
    let chunk = chunk_of(vec![Op::SetGlobal.byte(), 5, 0], vec![]);
    let err = scan_chunk_globals(&chunk, &mut Vec::new(), &mut Vec::new()).unwrap_err();
    assert_eq!(err, "constant index out of bounds: 5");
}

#[test]
fn scan_reports_unknown_opcodes_as_scanning() {
    let chunk = chunk_of(vec![99], vec![]);
    let err = scan_chunk_globals(&chunk, &mut Vec::new(), &mut Vec::new()).unwrap_err();
    assert_eq!(err, "invalid opcode while scanning bytecode: 99");
}

fn program_reading(names: &[&str], function_defines: Option<&str>) -> CompiledProgram {
    let mut main = Chunk::new();
    for (i, n) in names.iter().enumerate() {
        let idx = main.add_constant(Constant::String(n.to_string())).unwrap();
        main.record_span(sp(10 * i as u32));
        main.emit_op(Op::GetGlobal);
        main.emit_u16(idx);
    }
    main.emit_op(Op::Halt);
    let mut functions = Vec::new();
    if let Some(d) = function_defines {
        let mut chunk = Chunk::new();
        let idx = chunk.add_constant(Constant::String(d.to_string())).unwrap();
        chunk.emit_op(Op::Unit);
        chunk.emit_op(Op::SetGlobal);
        chunk.emit_u16(idx);
        chunk.emit_op(Op::Return);
        functions.push(FunctionProto { name: Some("f".to_string()), arity: 1, n_captures: 0, chunk });
    }
    CompiledProgram { main, functions }
}

#[test]
fn disabled_builtin_is_reported_once_at_its_first_use() {
    let program = program_reading(&["exec", "println", "exec"], None);
    let allowed = core_builtin_names();
    let violations = strict_violations(&program, &allowed).unwrap();
    assert_eq!(violations.len(), 1);
    assert_eq!(violations[0].builtin, "exec");
    assert_eq!(violations[0].capability_path, Some("capabilities.exec.exec"));
    assert_eq!(violations[0].span, Some(sp(0)));
}

#[test]
fn builtin_name_defined_by_the_program_is_no_violation() {
    let program = program_reading(&["exec"], Some("exec"));
    let allowed = core_builtin_names();
    assert!(strict_violations(&program, &allowed).unwrap().is_empty());
}

#[test]
fn unknown_globals_are_no_violation() {
    let program = program_reading(&["my_helper"], None);
    assert!(strict_violations(&program, &Vec::new()).unwrap().is_empty());
}

#[test]
fn work_inspection_counts_each_chunk() {
    let program = program_reading(&["a", "b"], Some("c"));
    let work = inspect_program_work(&program).unwrap();
    assert_eq!(work.main_static_opcodes, 3);
    assert_eq!(work.functions.len(), 1);
    assert_eq!(work.functions[0].name, Some("f".to_string()));
    assert_eq!(work.functions[0].arity, 1);
    assert_eq!(work.functions[0].static_opcodes, 3);
    assert_eq!(work.total_static_opcodes(), 6);
}

#[test]
fn work_inspection_stops_at_a_bad_function() {
    let mut program = program_reading(&[], None);
    program.functions.push(FunctionProto { name: None, arity: 0, n_captures: 0, chunk: chunk_of(vec![Op::Call.byte()], vec![]) });
    assert_eq!(inspect_program_work(&program), Err("unexpected end of bytecode".to_string()));
}
