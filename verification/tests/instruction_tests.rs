use regvm::instruction::{Instruction, Opcode};

#[test]
fn test_create_hlt() {
    let opcode = Opcode::HLT;
    assert_eq!(opcode, Opcode::HLT);
}

#[test]
fn test_create_instruction() {
    let instruction = Instruction::new(Opcode::HLT);
    assert_eq!(instruction.opcode, Opcode::HLT);
}

#[test]
fn test_opcode_round_trip() {
    let all = [
        Opcode::HLT,
        Opcode::IGL,
        Opcode::LOAD,
        Opcode::ADD,
        Opcode::SUB,
        Opcode::MUL,
        Opcode::DIV,
        Opcode::JMP,
        Opcode::JMPF,
        Opcode::JMPB,
        Opcode::EQ,
        Opcode::NEQ,
        Opcode::GT,
        Opcode::LT,
        Opcode::GTQ,
        Opcode::LTQ,
        Opcode::JEQ,
        Opcode::NOP,
        Opcode::ALOC,
        Opcode::INC,
        Opcode::DEC,
    ];
    for op in all {
        assert_eq!(Opcode::from_byte(op.to_byte()), op);
    }
}

#[test]
fn test_decode_is_total() {
    // Every byte decodes to exactly one opcode; all unmapped values
    // decode to IGL.
    for b in 0u16..=255 {
        let op = Opcode::from_byte(b as u8);
        if b > 20 {
            assert_eq!(op, Opcode::IGL);
        }
        // Decoding is consistent with re-encoding for mapped bytes.
        if b <= 20 {
            assert_eq!(op.to_byte() as u16, b);
        }
    }
}

#[test]
fn test_specific_codes() {
    assert_eq!(Opcode::from_byte(0), Opcode::LOAD);
    assert_eq!(Opcode::from_byte(5), Opcode::HLT);
    assert_eq!(Opcode::from_byte(9), Opcode::EQ);
    assert_eq!(Opcode::from_byte(17), Opcode::ALOC);
    assert_eq!(Opcode::from_byte(20), Opcode::IGL);
    assert_eq!(Opcode::IGL.to_byte(), 20);
}
