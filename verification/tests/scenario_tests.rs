use regvm::assembler::Assembler;
use regvm::vm::{VmStatus, VM};

#[test]
fn test_load_add_scenario() {
    // Assembles to four 4-byte slots; after a free run register 2
    // holds the sum and the counter sits at the end of the image.
    let mut assembler = Assembler::new();
    let bytes = assembler.assemble("load $0 #100\nload $1 #50\nadd $0 $1 $2\nhlt").unwrap();
    assert_eq!(bytes.len(), 16);
    let mut vm = VM::new();
    vm.add_bytes(bytes);
    vm.run();
    assert_eq!(vm.registers[2], 150);
    assert_eq!(vm.pc, 16);
    assert_eq!(vm.status, VmStatus::Halted);
}

#[test]
fn test_division_with_remainder_scenario() {
    let mut vm = VM::new();
    vm.registers[0] = 17;
    vm.registers[1] = 5;
    vm.program = vec![4, 0, 1, 2];
    vm.run_once();
    assert_eq!(vm.registers[2], 3);
    assert_eq!(vm.remainder, 2);
}

#[test]
fn test_conditional_jump_scenario() {
    // EQ of register 0 against itself raises the flag; the JEQ that
    // follows moves the counter to the offset held in register 1.
    let mut vm = VM::new();
    vm.registers[0] = 10;
    vm.registers[1] = 12;
    vm.program = vec![9, 0, 0, 0, 15, 1, 0, 0];
    vm.run_once();
    assert_eq!(vm.equal_flag, true);
    vm.run_once();
    assert_eq!(vm.pc, 12);
}

#[test]
fn test_heap_growth_scenario() {
    let mut vm = VM::new();
    vm.registers[0] = 500;
    vm.program = vec![17, 0, 0, 0];
    assert_eq!(vm.heap.len(), 0);
    vm.run_once();
    assert_eq!(vm.heap.len(), 500);
    assert!(vm.heap.iter().all(|b| *b == 0));
}

#[test]
fn test_empty_program_runs_to_completion() {
    let mut assembler = Assembler::new();
    let bytes = assembler.assemble("").unwrap();
    assert_eq!(bytes.len(), 0);
    let mut vm = VM::new();
    vm.add_bytes(bytes);
    vm.run();
    assert_eq!(vm.pc, 0);
    assert_eq!(vm.status, VmStatus::Exhausted);
}

#[test]
fn test_forward_reference_lands_on_label() {
    // A forward label reference: the loader puts the resolved offset
    // in register 0, the jump lands exactly on the first byte of the
    // labelled statement, and execution halts there.
    let mut assembler = Assembler::new();
    let bytes = assembler.assemble("load $0 @end\njmp $0\nhlt\nend: hlt").unwrap();
    assert_eq!(bytes.len(), 16);
    assert_eq!(&bytes[0..4], &[0, 0, 0, 12]);
    let mut vm = VM::new();
    vm.add_bytes(bytes);
    vm.run();
    // The HLT at offset 8 was jumped over; the one at 12 ran.
    assert_eq!(vm.status, VmStatus::Halted);
    assert_eq!(vm.pc, 16);
    assert_eq!(vm.registers[0], 12);
}
