use regvm::assembler::{Assembler, AssemblerPhase};
use regvm::errors::AssemblyError;
use regvm::symbols::{Symbol, SymbolTable, SymbolType};
use regvm::vm::VM;

#[test]
fn test_symbol_table() {
    let mut sym = SymbolTable::new();
    let new_symbol = Symbol::new("test".to_string(), SymbolType::Label, 12);
    sym.add_symbol(new_symbol);
    assert_eq!(sym.symbols.len(), 1);
    let v = sym.symbol_value("test");
    assert_eq!(true, v.is_some());
    let v = v.unwrap();
    assert_eq!(v, 12);
    let v = sym.symbol_value("does_not_exist");
    assert_eq!(v.is_some(), false);
}

#[test]
fn test_assemble_program() {
    let mut assembler = Assembler::new();
    let test_string = "load $0 #100\nload $1 #1\nload $2 #0\ntest: inc $0\nneq $0 $2\njmpe @test\nhlt";
    let program = assembler.assemble(test_string).unwrap();
    let mut vm = VM::new();
    // Seven statements, four bytes each; the label reference resolves
    // instead of being dropped.
    assert_eq!(program.len(), 28);
    for i in program {
        vm.add_byte(i);
    }
    assert_eq!(vm.program.len(), 28);
}

#[test]
fn test_assemble_empty_source() {
    let mut assembler = Assembler::new();
    let program = assembler.assemble("").unwrap();
    assert_eq!(program.len(), 0);
    let program = assembler.assemble("\n\n   \n").unwrap();
    assert_eq!(program.len(), 0);
}

#[test]
fn test_assemble_is_idempotent() {
    let src = "load $0 #100\nload $1 #50\nadd $0 $1 $2\nhlt";
    let mut assembler = Assembler::new();
    let first = assembler.assemble(src).unwrap();
    let second = assembler.assemble(src).unwrap();
    assert_eq!(first, second);
    let mut other = Assembler::new();
    let third = other.assemble(src).unwrap();
    assert_eq!(first, third);
}

#[test]
fn test_assemble_phase_advances() {
    let mut assembler = Assembler::new();
    assert_eq!(assembler.phase, AssemblerPhase::First);
    assembler.assemble("hlt").unwrap();
    assert_eq!(assembler.phase, AssemblerPhase::Second);
}

#[test]
fn test_unresolved_label_fails_with_no_output() {
    let mut assembler = Assembler::new();
    let result = assembler.assemble("load $0 @missing\nhlt");
    match result {
        Err(AssemblyError::UnresolvedSymbol { name }) => assert_eq!(name, "missing"),
        other => panic!("expected an unresolved-symbol failure, got {:?}", other),
    }
}

#[test]
fn test_duplicate_label_rejected() {
    let mut assembler = Assembler::new();
    let result = assembler.assemble("a: hlt\na: hlt");
    match result {
        Err(AssemblyError::DuplicateSymbol { name }) => assert_eq!(name, "a"),
        other => panic!("expected a duplicate-symbol failure, got {:?}", other),
    }
}

#[test]
fn test_syntax_error_carries_line_number() {
    let mut assembler = Assembler::new();
    let result = assembler.assemble("hlt\nload $0 #x");
    match result {
        Err(AssemblyError::Syntax { line }) => assert_eq!(line, 2),
        other => panic!("expected a syntax failure, got {:?}", other),
    }
}

#[test]
fn test_forward_label_resolves_to_slot_offset() {
    // The reference is forward: "end" is declared after the use; pass
    // one still resolves it to byte offset 12 (statement 3).
    let mut assembler = Assembler::new();
    let bytes = assembler.assemble("load $0 @end\njmp $0\nhlt\nend: hlt").unwrap();
    assert_eq!(bytes.len(), 16);
    // LOAD $0, then the 16-bit big-endian resolved offset.
    assert_eq!(&bytes[0..4], &[0, 0, 0, 12]);
}

#[test]
fn test_negative_immediate_encodes_low_16_bits() {
    let mut assembler = Assembler::new();
    let bytes = assembler.assemble("load $0 #-1").unwrap();
    assert_eq!(bytes, vec![0, 0, 255, 255]);
}

#[test]
fn test_load_add_encoding() {
    let mut assembler = Assembler::new();
    let bytes = assembler.assemble("load $0 #500\nadd $0 $1 $2").unwrap();
    assert_eq!(bytes, vec![0, 0, 1, 244, 1, 0, 1, 2]);
}

#[test]
fn test_unknown_mnemonic_assembles_to_igl() {
    let mut assembler = Assembler::new();
    let bytes = assembler.assemble("aold").unwrap();
    assert_eq!(bytes, vec![20, 0, 0, 0]);
}

#[test]
fn test_directive_emits_no_bytes() {
    let mut assembler = Assembler::new();
    let bytes = assembler.assemble(".data\nhlt").unwrap();
    assert_eq!(bytes, vec![5, 0, 0, 0]);
}
