//! The instruction set: opcode mnemonics, their dense numeric encoding,
//! and the round-trip between the two.

use vstd::prelude::*;

verus! {

/// The closed set of operations the virtual machine understands.
///
/// `IGL` stands for every unrecognized mnemonic or numeric code; it is a
/// decodable opcode whose execution semantics is "stop and report".
#[derive(Debug, Clone, Copy, PartialEq, Eq, Structural)]
pub enum Opcode {
    HLT,
    IGL,
    LOAD,
    ADD,
    SUB,
    MUL,
    DIV,
    JMP,
    JMPF,
    JMPB,
    EQ,
    NEQ,
    GT,
    LT,
    GTQ,
    LTQ,
    JEQ,
    NOP,
    ALOC,
    INC,
    DEC,
}

/// The numeric code of an opcode on the wire.
pub open spec fn opcode_code(op: Opcode) -> u8 {
    match op {
        Opcode::LOAD => 0,
        Opcode::ADD => 1,
        Opcode::SUB => 2,
        Opcode::MUL => 3,
        Opcode::DIV => 4,
        Opcode::HLT => 5,
        Opcode::JMP => 6,
        Opcode::JMPF => 7,
        Opcode::JMPB => 8,
        Opcode::EQ => 9,
        Opcode::NEQ => 10,
        Opcode::GTQ => 11,
        Opcode::LTQ => 12,
        Opcode::LT => 13,
        Opcode::GT => 14,
        Opcode::JEQ => 15,
        Opcode::NOP => 16,
        Opcode::ALOC => 17,
        Opcode::INC => 18,
        Opcode::DEC => 19,
        Opcode::IGL => 20,
    }
}

/// The opcode a byte decodes to; every unmapped byte decodes to `IGL`.
pub open spec fn opcode_of_byte(v: u8) -> Opcode {
    if v == 0 {
        Opcode::LOAD
    } else if v == 1 {
        Opcode::ADD
    } else if v == 2 {
        Opcode::SUB
    } else if v == 3 {
        Opcode::MUL
    } else if v == 4 {
        Opcode::DIV
    } else if v == 5 {
        Opcode::HLT
    } else if v == 6 {
        Opcode::JMP
    } else if v == 7 {
        Opcode::JMPF
    } else if v == 8 {
        Opcode::JMPB
    } else if v == 9 {
        Opcode::EQ
    } else if v == 10 {
        Opcode::NEQ
    } else if v == 11 {
        Opcode::GTQ
    } else if v == 12 {
        Opcode::LTQ
    } else if v == 13 {
        Opcode::LT
    } else if v == 14 {
        Opcode::GT
    } else if v == 15 {
        Opcode::JEQ
    } else if v == 16 {
        Opcode::NOP
    } else if v == 17 {
        Opcode::ALOC
    } else if v == 18 {
        Opcode::INC
    } else if v == 19 {
        Opcode::DEC
    } else {
        Opcode::IGL
    }
}

impl Opcode {
    /// Decode a byte from the wire.
    pub fn from_byte(v: u8) -> (op: Opcode)
        ensures
            op == opcode_of_byte(v),
    {
        match v {
            0 => Opcode::LOAD,
            1 => Opcode::ADD,
            2 => Opcode::SUB,
            3 => Opcode::MUL,
            4 => Opcode::DIV,
            5 => Opcode::HLT,
            6 => Opcode::JMP,
            7 => Opcode::JMPF,
            8 => Opcode::JMPB,
            9 => Opcode::EQ,
            10 => Opcode::NEQ,
            11 => Opcode::GTQ,
            12 => Opcode::LTQ,
            13 => Opcode::LT,
            14 => Opcode::GT,
            15 => Opcode::JEQ,
            16 => Opcode::NOP,
            17 => Opcode::ALOC,
            18 => Opcode::INC,
            19 => Opcode::DEC,
            _ => Opcode::IGL,
        }
    }

    /// Encode this opcode as its wire byte.
    pub fn to_byte(self) -> (v: u8)
        ensures
            v == opcode_code(self),
    {
        match self {
            Opcode::LOAD => 0,
            Opcode::ADD => 1,
            Opcode::SUB => 2,
            Opcode::MUL => 3,
            Opcode::DIV => 4,
            Opcode::HLT => 5,
            Opcode::JMP => 6,
            Opcode::JMPF => 7,
            Opcode::JMPB => 8,
            Opcode::EQ => 9,
            Opcode::NEQ => 10,
            Opcode::GTQ => 11,
            Opcode::LTQ => 12,
            Opcode::LT => 13,
            Opcode::GT => 14,
            Opcode::JEQ => 15,
            Opcode::NOP => 16,
            Opcode::ALOC => 17,
            Opcode::INC => 18,
            Opcode::DEC => 19,
            Opcode::IGL => 20,
        }
    }
}

/// Encoding and decoding are inverse, and the numeric code space is
/// total: every byte decodes to exactly one opcode, and every byte
/// outside the assigned range decodes to `IGL`.
pub proof fn lemma_opcode_round_trip()
    ensures
        forall|op: Opcode| #[trigger] opcode_of_byte(opcode_code(op)) == op,
        forall|v: u8| v > 20 ==> #[trigger] opcode_of_byte(v) == Opcode::IGL,
{
}

/// A decoded instruction: just its opcode, as far as the decoder is
/// concerned; operands are read from the byte stream at execution time.
#[derive(Debug, PartialEq, Eq, Structural)]
pub struct Instruction {
    pub opcode: Opcode,
}

impl Instruction {
    pub fn new(opcode: Opcode) -> (r: Instruction)
        ensures
            r.opcode == opcode,
    {
        Instruction { opcode }
    }
}

} // verus!
