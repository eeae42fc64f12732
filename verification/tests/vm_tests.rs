use regvm::vm::{prepend_header, VmError, VmStatus, VM};

#[test]
fn test_vm() {
    let vm = VM::new();
    assert_eq!(vm.registers[0], 0)
}

#[test]
fn test_eq_opcode() {
    let mut test_vm = VM::new();
    test_vm.registers[0] = 10;
    test_vm.registers[1] = 10;
    test_vm.program = vec![9, 0, 1, 0, 9, 0, 1, 0];
    test_vm.run_once();
    assert_eq!(test_vm.equal_flag, true);
    test_vm.registers[1] = 20;
    test_vm.run_once();
    assert_eq!(test_vm.equal_flag, false);
}

#[test]
fn test_jmpf_opcode() {
    let mut test_vm = VM::new();
    test_vm.registers[0] = 2;
    test_vm.program = vec![8, 0, 0, 0, 6, 0, 0, 0];
    test_vm.run_once();
    assert_eq!(test_vm.pc, 4);
}

#[test]
fn test_jmpb_opcode() {
    let mut test_vm = VM::new();
    test_vm.registers[1] = 6;
    test_vm.program = vec![0, 0, 0, 10, 8, 1, 0, 0];
    test_vm.run_once();
    test_vm.run_once();
    assert_eq!(test_vm.pc, 12);
}

#[test]
fn test_load_opcode() {
    let mut test_vm = VM::new();
    test_vm.program = vec![0, 0, 1, 244]; // 500 as two big-endian bytes
    test_vm.run();
    assert_eq!(test_vm.registers[0], 500);
}

#[test]
fn test_jmp_opcode() {
    let mut test_vm = VM::new();
    test_vm.registers[0] = 1;
    test_vm.program = vec![7, 0, 0, 0];
    test_vm.run_once();
    assert_eq!(test_vm.pc, 3);
}

#[test]
fn test_opcode_hlt() {
    let mut test_vm = VM::new();
    let test_bytes = vec![0, 0, 0, 0];
    test_vm.program = test_bytes;
    test_vm.run();
    assert_eq!(test_vm.pc, 4);
}

#[test]
fn test_opcode_igl() {
    let mut test_vm = VM::new();
    let test_bytes = vec![200, 0, 0, 0];
    test_vm.program = test_bytes;
    test_vm.run();
    assert_eq!(test_vm.pc, 1);
}

#[test]
fn test_gte_opcode() {
    let mut test_vm = VM::new();
    test_vm.registers[0] = 20;
    test_vm.registers[1] = 10;
    test_vm.program = vec![11, 0, 1, 0, 11, 0, 1, 0, 11, 0, 1, 0];
    test_vm.run_once();
    assert_eq!(test_vm.equal_flag, true);
    test_vm.registers[0] = 10;
    test_vm.run_once();
    assert_eq!(test_vm.equal_flag, true);
    test_vm.registers[0] = 5;
    test_vm.run_once();
    assert_eq!(test_vm.equal_flag, false);
}

#[test]
fn test_neq_opcode() {
    let mut test_vm = VM::new();
    test_vm.registers[0] = 10;
    test_vm.registers[1] = 20;
    test_vm.program = vec![10, 0, 1, 0, 10, 0, 1, 0];
    test_vm.run_once();
    assert_eq!(test_vm.equal_flag, true);
    test_vm.registers[1] = 10;
    test_vm.run_once();
    assert_eq!(test_vm.equal_flag, false);
}

#[test]
fn test_lte_opcode() {
    let mut test_vm = VM::new();
    test_vm.registers[0] = 20;
    test_vm.registers[1] = 10;
    test_vm.program = vec![12, 0, 1, 0, 12, 0, 1, 0, 12, 0, 1, 0];
    test_vm.run_once();
    assert_eq!(test_vm.equal_flag, false);
    test_vm.registers[0] = 10;
    test_vm.run_once();
    assert_eq!(test_vm.equal_flag, true);
    test_vm.registers[0] = 5;
    test_vm.run_once();
    assert_eq!(test_vm.equal_flag, true);
}

#[test]
fn test_lt_opcode() {
    let mut test_vm = VM::new();
    test_vm.registers[0] = 20;
    test_vm.registers[1] = 10;
    test_vm.program = vec![13, 0, 1, 0, 13, 0, 1, 0, 13, 0, 1, 0];
    test_vm.run_once();
    assert_eq!(test_vm.equal_flag, false);
    test_vm.registers[0] = 10;
    test_vm.run_once();
    assert_eq!(test_vm.equal_flag, false);
    test_vm.registers[0] = 5;
    test_vm.run_once();
    assert_eq!(test_vm.equal_flag, true);
}

#[test]
fn test_gt_opcode() {
    let mut test_vm = VM::new();
    test_vm.registers[0] = 20;
    test_vm.registers[1] = 10;
    test_vm.program = vec![14, 0, 1, 0, 14, 0, 1, 0, 14, 0, 1, 0];
    test_vm.run_once();
    assert_eq!(test_vm.equal_flag, true);
    test_vm.registers[0] = 10;
    test_vm.run_once();
    assert_eq!(test_vm.equal_flag, false);
    test_vm.registers[0] = 5;
    test_vm.run_once();
    assert_eq!(test_vm.equal_flag, false);
}

#[test]
fn test_jeq_opcode() {
    let mut test_vm = VM::new();
    test_vm.registers[0] = 7;
    test_vm.equal_flag = true;
    test_vm.program = vec![15, 0, 0, 0, 15, 0, 0, 0, 15, 0, 0, 0];
    test_vm.run_once();
    assert_eq!(test_vm.pc, 7);
}

#[test]
fn test_aloc_opcode() {
    let mut test_vm = VM::new();
    test_vm.registers[0] = 500;
    test_vm.program = vec![17, 0, 0, 0];
    test_vm.run_once();
    assert_eq!(test_vm.heap.len(), 500);
}

#[test]
fn test_inc_dec_opcodes() {
    let mut test_vm = VM::new();
    test_vm.registers[0] = 5;
    test_vm.program = vec![18, 0, 0, 0];
    test_vm.run_once();
    assert_eq!(test_vm.registers[0], 6);

    let mut test_vm = VM::new();
    test_vm.registers[0] = 5;
    test_vm.program = vec![19, 0, 0, 0];
    test_vm.run_once();
    assert_eq!(test_vm.registers[0], 4);
}

#[test]
fn test_nop_opcode() {
    let mut test_vm = VM::new();
    test_vm.program = vec![16, 5, 0, 0, 0];
    test_vm.run_once();
    assert_eq!(test_vm.pc, 1);
    assert_eq!(test_vm.status, VmStatus::Running);
}

#[test]
fn test_register_out_of_range_faults() {
    let mut test_vm = VM::new();
    test_vm.program = vec![1, 40, 0, 0];
    test_vm.run();
    assert_eq!(test_vm.status, VmStatus::Faulted(VmError::OperandOutOfRange));
}

#[test]
fn test_division_by_zero_faults() {
    let mut test_vm = VM::new();
    test_vm.registers[0] = 17;
    test_vm.registers[1] = 0;
    test_vm.program = vec![4, 0, 1, 2];
    test_vm.run();
    assert_eq!(test_vm.status, VmStatus::Faulted(VmError::DivisionByZero));
    // Prior state stays inspectable.
    assert_eq!(test_vm.registers[0], 17);
}

#[test]
fn test_add_overflow_faults() {
    let mut test_vm = VM::new();
    test_vm.registers[0] = i32::MAX;
    test_vm.registers[1] = 1;
    test_vm.program = vec![1, 0, 1, 2];
    test_vm.run();
    assert_eq!(test_vm.status, VmStatus::Faulted(VmError::ArithmeticOverflow));
}

#[test]
fn test_igl_reports_unrecognized() {
    let mut test_vm = VM::new();
    test_vm.program = vec![200, 0, 0, 0];
    test_vm.run();
    assert_eq!(test_vm.status, VmStatus::Faulted(VmError::UnrecognizedInstruction));
}

#[test]
fn test_division_signs() {
    // -17 / 5: quotient truncates toward zero, remainder stays
    // non-negative.
    let mut test_vm = VM::new();
    test_vm.registers[0] = -17;
    test_vm.registers[1] = 5;
    test_vm.program = vec![4, 0, 1, 2];
    test_vm.run_once();
    assert_eq!(test_vm.registers[2], -3);
    assert_eq!(test_vm.remainder, 3);
}

#[test]
fn test_clear_program() {
    let mut test_vm = VM::new();
    test_vm.program = vec![1, 2, 3, 4];
    test_vm.clear_program();
    assert_eq!(test_vm.program.len(), 0);
}

#[test]
fn test_add_bytes() {
    let mut test_vm = VM::new();
    test_vm.add_bytes(vec![5, 0]);
    test_vm.add_bytes(vec![0, 0]);
    assert_eq!(test_vm.program, vec![5, 0, 0, 0]);
}

#[test]
fn test_prepend_and_verify_header() {
    let image = prepend_header(vec![5, 0, 0, 0]);
    assert_eq!(image.len(), 68);
    assert_eq!(&image[0..4], &[45, 50, 49, 45]);
    assert!(image[4..64].iter().all(|b| *b == 0));
    assert_eq!(&image[64..], &[5, 0, 0, 0]);

    let mut vm = VM::new();
    vm.program = image;
    assert!(vm.verify_header());

    let mut vm = VM::new();
    vm.program = vec![45, 50];
    assert!(!vm.verify_header());

    let mut vm = VM::new();
    vm.program = vec![1, 2, 3, 4, 5];
    assert!(!vm.verify_header());
}

#[test]
fn test_jmpb_subtract_mode() {
    // The explicit alternative semantics: with the switch set, JMPB
    // subtracts the register from the counter.
    let mut test_vm = VM::new();
    test_vm.jmpb_subtracts = true;
    test_vm.registers[1] = 6;
    test_vm.program = vec![0, 0, 0, 10, 8, 1, 0, 0];
    test_vm.run_once();
    test_vm.run_once();
    assert_eq!(test_vm.pc, 0);
}

#[test]
fn test_jeq_without_flag_falls_through() {
    let mut test_vm = VM::new();
    test_vm.registers[0] = 7;
    test_vm.program = vec![15, 0, 0, 0];
    test_vm.run_once();
    assert_eq!(test_vm.pc, 2);
    assert_eq!(test_vm.status, VmStatus::Running);
}

#[test]
fn test_truncated_instruction_faults() {
    let mut test_vm = VM::new();
    test_vm.program = vec![0, 0];
    test_vm.run();
    assert_eq!(test_vm.status, VmStatus::Faulted(VmError::OperandOutOfRange));
    assert_eq!(test_vm.pc, 1);
}
