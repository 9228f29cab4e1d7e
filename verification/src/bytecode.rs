//! The machine's closed instruction set: the opcodes, their numeric
//! discriminants, and the decoding of a raw program word back to an opcode.

use vstd::prelude::*;

verus! {

/// The number of control words (saved frame pointer, return address and
/// argument count) that `CALL` pushes onto the stack. A parameter's
/// `LLOAD`/`LSTORE` offset must step back past these words before it reaches
/// the caller-pushed arguments.
pub const FUNC_PARAM_OFFSET: i32 = 3;

/// One operation of the machine's closed instruction set.
///
/// Each opcode is followed in the program array by a fixed number of in-line
/// operands: one for `PUSH`, `GLOAD`, `GSTORE`, `LLOAD`, `LSTORE`, `JMP`,
/// `JMP0` and `JMP1`, two for `CALL`, none for the rest. The numeric
/// discriminants are consecutive from zero in declaration order.
#[derive(Clone, Copy, Debug, PartialEq, Eq, Structural)]
pub enum OpCode {
    PUSH,
    GLOAD,
    GSTORE,
    LLOAD,
    LSTORE,
    CALL,
    RET,
    ADD,
    SUB,
    MUL,
    DIV,
    PRINT,
    HALT,
    POP,
    EQ,
    NE,
    GT,
    LT,
    GE,
    LE,
    JMP,
    JMP0,
    JMP1,
}

/// The opcode a raw program word stands for, or `None` when the word lies
/// outside the defined enumeration. Decoding is an exhaustive mapping: no
/// out-of-range word is ever reinterpreted as an opcode.
pub open spec fn spec_decode(n: i32) -> Option<OpCode> {
    if n == 0 {
        Some(OpCode::PUSH)
    } else if n == 1 {
        Some(OpCode::GLOAD)
    } else if n == 2 {
        Some(OpCode::GSTORE)
    } else if n == 3 {
        Some(OpCode::LLOAD)
    } else if n == 4 {
        Some(OpCode::LSTORE)
    } else if n == 5 {
        Some(OpCode::CALL)
    } else if n == 6 {
        Some(OpCode::RET)
    } else if n == 7 {
        Some(OpCode::ADD)
    } else if n == 8 {
        Some(OpCode::SUB)
    } else if n == 9 {
        Some(OpCode::MUL)
    } else if n == 10 {
        Some(OpCode::DIV)
    } else if n == 11 {
        Some(OpCode::PRINT)
    } else if n == 12 {
        Some(OpCode::HALT)
    } else if n == 13 {
        Some(OpCode::POP)
    } else if n == 14 {
        Some(OpCode::EQ)
    } else if n == 15 {
        Some(OpCode::NE)
    } else if n == 16 {
        Some(OpCode::GT)
    } else if n == 17 {
        Some(OpCode::LT)
    } else if n == 18 {
        Some(OpCode::GE)
    } else if n == 19 {
        Some(OpCode::LE)
    } else if n == 20 {
        Some(OpCode::JMP)
    } else if n == 21 {
        Some(OpCode::JMP0)
    } else if n == 22 {
        Some(OpCode::JMP1)
    } else {
        None
    }
}

impl OpCode {
    /// Decodes a raw program word. Returns `None`, never a wrong opcode, for
    /// any word outside the defined enumeration (below 0 or above 22).
    pub fn decode(n: i32) -> (r: Option<OpCode>)
        ensures
            r == spec_decode(n),
    {
        match n {
            0 => Some(OpCode::PUSH),
            1 => Some(OpCode::GLOAD),
            2 => Some(OpCode::GSTORE),
            3 => Some(OpCode::LLOAD),
            4 => Some(OpCode::LSTORE),
            5 => Some(OpCode::CALL),
            6 => Some(OpCode::RET),
            7 => Some(OpCode::ADD),
            8 => Some(OpCode::SUB),
            9 => Some(OpCode::MUL),
            10 => Some(OpCode::DIV),
            11 => Some(OpCode::PRINT),
            12 => Some(OpCode::HALT),
            13 => Some(OpCode::POP),
            14 => Some(OpCode::EQ),
            15 => Some(OpCode::NE),
            16 => Some(OpCode::GT),
            17 => Some(OpCode::LT),
            18 => Some(OpCode::GE),
            19 => Some(OpCode::LE),
            20 => Some(OpCode::JMP),
            21 => Some(OpCode::JMP0),
            22 => Some(OpCode::JMP1),
            _ => None,
        }
    }
}

} // verus!
