//! Compile errors and the instruction for each strict binary operator.
use vstd::prelude::*;
use crate::compile::op::Op;
use crate::syntax::ast::BinOp;
use crate::types::infer::TypeError;

verus! {

/// An error from compiling: a type error, or one from code generation.
#[derive(Debug)]
pub enum CompileError {
    Type(TypeError),
    Codegen(String),
}

impl CompileError {
    /// A code-generation error with `msg`.
    pub fn codegen(msg: String) -> (r: CompileError)
        ensures
            r matches CompileError::Codegen(m) && m@ == msg@,
    {
        CompileError::Codegen(msg)
    }
}

/// The instruction for a strict binary operator (the short-circuit ones
/// have none).
pub open spec fn binop_op(op: BinOp) -> Option<Op> {
    match op {
        BinOp::AddInt => Some(Op::AddInt),
        BinOp::SubInt => Some(Op::SubInt),
        BinOp::MulInt => Some(Op::MulInt),
        BinOp::DivInt => Some(Op::DivInt),
        BinOp::ModInt => Some(Op::ModInt),
        BinOp::AddFloat => Some(Op::AddFloat),
        BinOp::SubFloat => Some(Op::SubFloat),
        BinOp::MulFloat => Some(Op::MulFloat),
        BinOp::DivFloat => Some(Op::DivFloat),
        BinOp::ConcatStr => Some(Op::ConcatString),
        BinOp::LtInt => Some(Op::LtInt),
        BinOp::GtInt => Some(Op::GtInt),
        BinOp::LeInt => Some(Op::LeInt),
        BinOp::GeInt => Some(Op::GeInt),
        BinOp::LtFloat => Some(Op::LtFloat),
        BinOp::GtFloat => Some(Op::GtFloat),
        BinOp::LeFloat => Some(Op::LeFloat),
        BinOp::GeFloat => Some(Op::GeFloat),
        BinOp::Eq => Some(Op::Eq),
        BinOp::Ne => Some(Op::Ne),
        BinOp::Andalso => None,
        BinOp::Orelse => None,
    }
}

/// The instruction for a strict binary operator.
pub fn binop_to_op(op: BinOp) -> (r: Op)
    requires
        binop_op(op) is Some,
    ensures
        binop_op(op) == Some(r),
{
    match op {
        BinOp::AddInt => Op::AddInt,
        BinOp::SubInt => Op::SubInt,
        BinOp::MulInt => Op::MulInt,
        BinOp::DivInt => Op::DivInt,
        BinOp::ModInt => Op::ModInt,
        BinOp::AddFloat => Op::AddFloat,
        BinOp::SubFloat => Op::SubFloat,
        BinOp::MulFloat => Op::MulFloat,
        BinOp::DivFloat => Op::DivFloat,
        BinOp::ConcatStr => Op::ConcatString,
        BinOp::LtInt => Op::LtInt,
        BinOp::GtInt => Op::GtInt,
        BinOp::LeInt => Op::LeInt,
        BinOp::GeInt => Op::GeInt,
        BinOp::LtFloat => Op::LtFloat,
        BinOp::GtFloat => Op::GtFloat,
        BinOp::LeFloat => Op::LeFloat,
        BinOp::GeFloat => Op::GeFloat,
        BinOp::Eq => Op::Eq,
        BinOp::Ne => Op::Ne,
        BinOp::Andalso => Op::Halt,
        BinOp::Orelse => Op::Halt,
    }
}

/// Distinct strict operators compile to distinct instructions.
pub proof fn law_binop_ops_distinct(a: BinOp, b: BinOp)
    requires
        binop_op(a) is Some,
        binop_op(b) is Some,
        a != b,
    ensures
        binop_op(a) != binop_op(b),
{
}

} // verus!
