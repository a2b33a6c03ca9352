//! The instruction set of the bytecode.
use vstd::prelude::*;

verus! {

/// One instruction of the bytecode.
#[derive(Debug, Clone, Copy, PartialEq, Eq, Structural)]
pub enum Op {
    Const,
    Unit,
    True,
    False,
    GetLocal,
    SetLocal,
    GetUpvalue,
    GetGlobal,
    SetGlobal,
    Pop,
    AddInt,
    SubInt,
    MulInt,
    DivInt,
    ModInt,
    Neg,
    AddFloat,
    SubFloat,
    MulFloat,
    DivFloat,
    NegFloat,
    Eq,
    Ne,
    LtInt,
    GtInt,
    LeInt,
    GeInt,
    EqFloat,
    NeFloat,
    LtFloat,
    GtFloat,
    LeFloat,
    GeFloat,
    EqBool,
    NeBool,
    EqChar,
    NeChar,
    EqString,
    NeString,
    ConcatString,
    Not,
    MakeTuple,
    GetField,
    MakeData,
    GetTag,
    Jump,
    JumpIfFalse,
    MakeClosure,
    Call,
    TailCall,
    Return,
    Panic,
    Halt,
    InstallHandler,
    Perform,
    Resume,
    RemoveHandler,
}

/// The byte that encodes an instruction.
pub open spec fn op_code(op: Op) -> u8 {
    match op {
        Op::Const => 0,
        Op::Unit => 1,
        Op::True => 2,
        Op::False => 3,
        Op::GetLocal => 4,
        Op::SetLocal => 5,
        Op::GetUpvalue => 6,
        Op::GetGlobal => 7,
        Op::SetGlobal => 8,
        Op::Pop => 9,
        Op::AddInt => 10,
        Op::SubInt => 11,
        Op::MulInt => 12,
        Op::DivInt => 13,
        Op::ModInt => 14,
        Op::Neg => 15,
        Op::AddFloat => 16,
        Op::SubFloat => 17,
        Op::MulFloat => 18,
        Op::DivFloat => 19,
        Op::NegFloat => 20,
        Op::Eq => 21,
        Op::Ne => 22,
        Op::LtInt => 23,
        Op::GtInt => 24,
        Op::LeInt => 25,
        Op::GeInt => 26,
        Op::EqFloat => 27,
        Op::NeFloat => 28,
        Op::LtFloat => 29,
        Op::GtFloat => 30,
        Op::LeFloat => 31,
        Op::GeFloat => 32,
        Op::EqBool => 33,
        Op::NeBool => 34,
        Op::EqChar => 35,
        Op::NeChar => 36,
        Op::EqString => 37,
        Op::NeString => 38,
        Op::ConcatString => 39,
        Op::Not => 40,
        Op::MakeTuple => 41,
        Op::GetField => 42,
        Op::MakeData => 43,
        Op::GetTag => 44,
        Op::Jump => 45,
        Op::JumpIfFalse => 46,
        Op::MakeClosure => 47,
        Op::Call => 48,
        Op::TailCall => 49,
        Op::Return => 50,
        Op::Panic => 51,
        Op::Halt => 52,
        Op::InstallHandler => 53,
        Op::Perform => 54,
        Op::Resume => 55,
        Op::RemoveHandler => 56,
    }
}

impl Op {
    /// The byte that encodes the instruction.
    pub fn byte(self) -> (r: u8)
        ensures
            r == op_code(self),
    {
        match self {
            Op::Const => 0,
            Op::Unit => 1,
            Op::True => 2,
            Op::False => 3,
            Op::GetLocal => 4,
            Op::SetLocal => 5,
            Op::GetUpvalue => 6,
            Op::GetGlobal => 7,
            Op::SetGlobal => 8,
            Op::Pop => 9,
            Op::AddInt => 10,
            Op::SubInt => 11,
            Op::MulInt => 12,
            Op::DivInt => 13,
            Op::ModInt => 14,
            Op::Neg => 15,
            Op::AddFloat => 16,
            Op::SubFloat => 17,
            Op::MulFloat => 18,
            Op::DivFloat => 19,
            Op::NegFloat => 20,
            Op::Eq => 21,
            Op::Ne => 22,
            Op::LtInt => 23,
            Op::GtInt => 24,
            Op::LeInt => 25,
            Op::GeInt => 26,
            Op::EqFloat => 27,
            Op::NeFloat => 28,
            Op::LtFloat => 29,
            Op::GtFloat => 30,
            Op::LeFloat => 31,
            Op::GeFloat => 32,
            Op::EqBool => 33,
            Op::NeBool => 34,
            Op::EqChar => 35,
            Op::NeChar => 36,
            Op::EqString => 37,
            Op::NeString => 38,
            Op::ConcatString => 39,
            Op::Not => 40,
            Op::MakeTuple => 41,
            Op::GetField => 42,
            Op::MakeData => 43,
            Op::GetTag => 44,
            Op::Jump => 45,
            Op::JumpIfFalse => 46,
            Op::MakeClosure => 47,
            Op::Call => 48,
            Op::TailCall => 49,
            Op::Return => 50,
            Op::Panic => 51,
            Op::Halt => 52,
            Op::InstallHandler => 53,
            Op::Perform => 54,
            Op::Resume => 55,
            Op::RemoveHandler => 56,
        }
    }

    /// The instruction a byte encodes; a byte that encodes none comes back as
    /// the error.
    pub fn try_from(b: u8) -> (r: Result<Op, u8>)
        ensures
            b < 57 ==> (r matches Ok(op) && op_code(op) == b),
            b >= 57 ==> r == Err::<Op, u8>(b),
    {
        match b {
            0 => Ok(Op::Const),
            1 => Ok(Op::Unit),
            2 => Ok(Op::True),
            3 => Ok(Op::False),
            4 => Ok(Op::GetLocal),
            5 => Ok(Op::SetLocal),
            6 => Ok(Op::GetUpvalue),
            7 => Ok(Op::GetGlobal),
            8 => Ok(Op::SetGlobal),
            9 => Ok(Op::Pop),
            10 => Ok(Op::AddInt),
            11 => Ok(Op::SubInt),
            12 => Ok(Op::MulInt),
            13 => Ok(Op::DivInt),
            14 => Ok(Op::ModInt),
            15 => Ok(Op::Neg),
            16 => Ok(Op::AddFloat),
            17 => Ok(Op::SubFloat),
            18 => Ok(Op::MulFloat),
            19 => Ok(Op::DivFloat),
            20 => Ok(Op::NegFloat),
            21 => Ok(Op::Eq),
            22 => Ok(Op::Ne),
            23 => Ok(Op::LtInt),
            24 => Ok(Op::GtInt),
            25 => Ok(Op::LeInt),
            26 => Ok(Op::GeInt),
            27 => Ok(Op::EqFloat),
            28 => Ok(Op::NeFloat),
            29 => Ok(Op::LtFloat),
            30 => Ok(Op::GtFloat),
            31 => Ok(Op::LeFloat),
            32 => Ok(Op::GeFloat),
            33 => Ok(Op::EqBool),
            34 => Ok(Op::NeBool),
            35 => Ok(Op::EqChar),
            36 => Ok(Op::NeChar),
            37 => Ok(Op::EqString),
            38 => Ok(Op::NeString),
            39 => Ok(Op::ConcatString),
            40 => Ok(Op::Not),
            41 => Ok(Op::MakeTuple),
            42 => Ok(Op::GetField),
            43 => Ok(Op::MakeData),
            44 => Ok(Op::GetTag),
            45 => Ok(Op::Jump),
            46 => Ok(Op::JumpIfFalse),
            47 => Ok(Op::MakeClosure),
            48 => Ok(Op::Call),
            49 => Ok(Op::TailCall),
            50 => Ok(Op::Return),
            51 => Ok(Op::Panic),
            52 => Ok(Op::Halt),
            53 => Ok(Op::InstallHandler),
            54 => Ok(Op::Perform),
            55 => Ok(Op::Resume),
            56 => Ok(Op::RemoveHandler),
            _ => Err(b),
        }
    }
}

/// Decoding the byte of an instruction gives the instruction back.
pub proof fn law_decode_encode(op: Op)
    ensures
        op_code(op) < 57,
        forall|x: Op| op_code(x) == op_code(op) ==> x == op,
{
}

} // verus!
