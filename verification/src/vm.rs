//! The virtual machine: a fixed file of 32 signed 32-bit registers, a
//! byte-indexed program counter, an equality flag, a remainder field,
//! and a flat heap that only ever grows. Execution is byte-by-byte
//! fetch-decode-execute; `step` below is the exact one-step transition
//! every execution method is proved against.
//!
//! Every condition the instruction set leaves open — operand bytes
//! past the end of the program, register indexes outside 0..32,
//! division by zero, arithmetic overflow, negative jump targets — is an
//! explicit fault: the machine stops with a `VmError` and leaves its
//! state inspectable.

use vstd::prelude::*;

use crate::instruction::{opcode_of_byte, Opcode};

verus! {

/// Why the machine stopped abnormally.
#[derive(Debug, Clone, Copy, PartialEq, Eq, Structural)]
pub enum VmError {
    /// The decoded opcode was `IGL`.
    UnrecognizedInstruction,
    /// A register index, operand byte, or jump target was out of range.
    OperandOutOfRange,
    /// A `DIV` met a zero divisor.
    DivisionByZero,
    /// An arithmetic result left the 32-bit signed range.
    ArithmeticOverflow,
}

/// Whether the machine may take another step, and if not, why it
/// stopped.
#[derive(Debug, Clone, Copy, PartialEq, Eq, Structural)]
pub enum VmStatus {
    Running,
    /// A `HLT` was executed: normal termination.
    Halted,
    /// The program counter reached the end of the program.
    Exhausted,
    Faulted(VmError),
}

/// The mathematical state of the machine.
pub ghost struct VmView {
    pub registers: Seq<i32>,
    pub pc: int,
    pub program: Seq<u8>,
    pub remainder: int,
    pub equal_flag: bool,
    pub heap: Seq<u8>,
    pub status: VmStatus,
    pub jmpb_subtracts: bool,
}

/// The virtual machine.
pub struct VM {
    /// The register file: 32 signed 32-bit registers.
    pub registers: [i32; 32],
    /// Byte index of the next instruction byte to execute.
    pub pc: usize,
    /// The bytecode being run.
    pub program: Vec<u8>,
    /// Remainder of the most recent division.
    pub remainder: usize,
    /// Result of the most recent comparison.
    pub equal_flag: bool,
    /// The flat, zero-filled, grow-only heap.
    pub heap: Vec<u8>,
    /// Whether and why execution has stopped.
    pub status: VmStatus,
    /// By default both relative jumps add the jump register to the
    /// counter; set this to make `JMPB` subtract instead.
    pub jmpb_subtracts: bool,
}

impl View for VM {
    type V = VmView;

    open spec fn view(&self) -> VmView {
        VmView {
            registers: self.registers@,
            pc: self.pc as int,
            program: self.program@,
            remainder: self.remainder as int,
            equal_flag: self.equal_flag,
            heap: self.heap@,
            status: self.status,
            jmpb_subtracts: self.jmpb_subtracts,
        }
    }
}

// ---------------------------------------------------------------------
// Arithmetic helpers
// ---------------------------------------------------------------------

pub open spec fn abs_int(a: int) -> int {
    if a >= 0 {
        a
    } else {
        -a
    }
}

/// Quotient with truncation toward zero, as hardware division gives it.
pub open spec fn div_quotient(a: int, d: int) -> int {
    let q = abs_int(a) / abs_int(d);
    if (a >= 0) == (d >= 0) {
        q
    } else {
        -q
    }
}

/// The non-negative residue of `a` modulo `d`, in `[0, |d|)`.
pub open spec fn div_remainder(a: int, d: int) -> int {
    let m = abs_int(a) % abs_int(d);
    if a >= 0 || m == 0 {
        m
    } else {
        abs_int(d) - m
    }
}

/// An unsigned 16-bit value from two big-endian bytes.
pub open spec fn be16(hi: u8, lo: u8) -> int {
    256 * (hi as int) + (lo as int)
}

pub open spec fn alu_result(op: Opcode, a: int, b: int) -> int {
    match op {
        Opcode::ADD => a + b,
        Opcode::SUB => a - b,
        Opcode::MUL => a * b,
        _ => 0,
    }
}

pub open spec fn cmp_result(op: Opcode, a: int, b: int) -> bool {
    match op {
        Opcode::EQ => a == b,
        Opcode::NEQ => a != b,
        Opcode::GT => a > b,
        Opcode::LT => a < b,
        Opcode::GTQ => a >= b,
        Opcode::LTQ => a <= b,
        _ => false,
    }
}

// ---------------------------------------------------------------------
// The one-step transition
// ---------------------------------------------------------------------

pub open spec fn faulted(v: VmView, pc: int, e: VmError) -> VmView {
    VmView { pc, status: VmStatus::Faulted(e), ..v }
}

pub open spec fn step_hlt(v: VmView, pc1: int) -> VmView {
    if pc1 + 3 > v.program.len() {
        faulted(v, pc1, VmError::OperandOutOfRange)
    } else {
        VmView { pc: pc1 + 3, status: VmStatus::Halted, ..v }
    }
}

pub open spec fn step_load(v: VmView, pc1: int) -> VmView {
    if pc1 + 3 > v.program.len() {
        faulted(v, pc1, VmError::OperandOutOfRange)
    } else {
        let reg = v.program[pc1];
        let val = be16(v.program[pc1 + 1], v.program[pc1 + 2]);
        if reg >= 32 {
            faulted(v, pc1 + 3, VmError::OperandOutOfRange)
        } else {
            VmView { registers: v.registers.update(reg as int, val as i32), pc: pc1 + 3, ..v }
        }
    }
}

pub open spec fn step_alu(v: VmView, pc1: int, op: Opcode) -> VmView {
    if pc1 + 3 > v.program.len() {
        faulted(v, pc1, VmError::OperandOutOfRange)
    } else {
        let r1 = v.program[pc1];
        let r2 = v.program[pc1 + 1];
        let rd = v.program[pc1 + 2];
        if r1 >= 32 || r2 >= 32 || rd >= 32 {
            faulted(v, pc1 + 3, VmError::OperandOutOfRange)
        } else {
            let res = alu_result(op, v.registers[r1 as int] as int, v.registers[r2 as int] as int);
            if res < -0x8000_0000 || res > 0x7FFF_FFFF {
                faulted(v, pc1 + 3, VmError::ArithmeticOverflow)
            } else {
                VmView { registers: v.registers.update(rd as int, res as i32), pc: pc1 + 3, ..v }
            }
        }
    }
}

pub open spec fn step_div(v: VmView, pc1: int) -> VmView {
    if pc1 + 3 > v.program.len() {
        faulted(v, pc1, VmError::OperandOutOfRange)
    } else {
        let r1 = v.program[pc1];
        let r2 = v.program[pc1 + 1];
        let rd = v.program[pc1 + 2];
        if r1 >= 32 || r2 >= 32 || rd >= 32 {
            faulted(v, pc1 + 3, VmError::OperandOutOfRange)
        } else {
            let a = v.registers[r1 as int] as int;
            let d = v.registers[r2 as int] as int;
            if d == 0 {
                faulted(v, pc1 + 3, VmError::DivisionByZero)
            } else {
                let q = div_quotient(a, d);
                if q < -0x8000_0000 || q > 0x7FFF_FFFF {
                    faulted(v, pc1 + 3, VmError::ArithmeticOverflow)
                } else {
                    VmView {
                        registers: v.registers.update(rd as int, q as i32),
                        remainder: div_remainder(a, d),
                        pc: pc1 + 3,
                        ..v
                    }
                }
            }
        }
    }
}

pub open spec fn step_cmp(v: VmView, pc1: int, op: Opcode) -> VmView {
    if pc1 + 3 > v.program.len() {
        faulted(v, pc1, VmError::OperandOutOfRange)
    } else {
        let r1 = v.program[pc1];
        let r2 = v.program[pc1 + 1];
        if r1 >= 32 || r2 >= 32 {
            faulted(v, pc1 + 3, VmError::OperandOutOfRange)
        } else {
            let flag = cmp_result(op, v.registers[r1 as int] as int, v.registers[r2 as int] as int);
            VmView { equal_flag: flag, pc: pc1 + 3, ..v }
        }
    }
}

pub open spec fn step_jmp(v: VmView, pc1: int) -> VmView {
    if pc1 + 1 > v.program.len() {
        faulted(v, pc1, VmError::OperandOutOfRange)
    } else {
        let reg = v.program[pc1];
        if reg >= 32 {
            faulted(v, pc1 + 1, VmError::OperandOutOfRange)
        } else {
            let t = v.registers[reg as int] as int;
            if t < 0 {
                faulted(v, pc1 + 1, VmError::OperandOutOfRange)
            } else {
                VmView { pc: t, ..v }
            }
        }
    }
}

pub open spec fn step_jmpf(v: VmView, pc1: int) -> VmView {
    if pc1 + 1 > v.program.len() {
        faulted(v, pc1, VmError::OperandOutOfRange)
    } else {
        let reg = v.program[pc1];
        if reg >= 32 {
            faulted(v, pc1 + 1, VmError::OperandOutOfRange)
        } else {
            let val = v.registers[reg as int] as int;
            if val < 0 {
                faulted(v, pc1 + 1, VmError::OperandOutOfRange)
            } else if pc1 + 1 + val > usize::MAX as int {
                faulted(v, pc1 + 1, VmError::OperandOutOfRange)
            } else {
                VmView { pc: pc1 + 1 + val, ..v }
            }
        }
    }
}

pub open spec fn step_jmpb(v: VmView, pc1: int) -> VmView {
    if !v.jmpb_subtracts {
        step_jmpf(v, pc1)
    } else if pc1 + 1 > v.program.len() {
        faulted(v, pc1, VmError::OperandOutOfRange)
    } else {
        let reg = v.program[pc1];
        if reg >= 32 {
            faulted(v, pc1 + 1, VmError::OperandOutOfRange)
        } else {
            let val = v.registers[reg as int] as int;
            if val < 0 || pc1 + 1 - val < 0 {
                faulted(v, pc1 + 1, VmError::OperandOutOfRange)
            } else {
                VmView { pc: pc1 + 1 - val, ..v }
            }
        }
    }
}

pub open spec fn step_jeq(v: VmView, pc1: int) -> VmView {
    if pc1 + 1 > v.program.len() {
        faulted(v, pc1, VmError::OperandOutOfRange)
    } else {
        let reg = v.program[pc1];
        if reg >= 32 {
            faulted(v, pc1 + 1, VmError::OperandOutOfRange)
        } else if v.equal_flag {
            let t = v.registers[reg as int] as int;
            if t < 0 {
                faulted(v, pc1 + 1, VmError::OperandOutOfRange)
            } else {
                VmView { pc: t, ..v }
            }
        } else {
            VmView { pc: pc1 + 1, ..v }
        }
    }
}

pub open spec fn step_aloc(v: VmView, pc1: int) -> VmView {
    if pc1 + 1 > v.program.len() {
        faulted(v, pc1, VmError::OperandOutOfRange)
    } else {
        let reg = v.program[pc1];
        if reg >= 32 {
            faulted(v, pc1 + 1, VmError::OperandOutOfRange)
        } else {
            let bytes = v.registers[reg as int] as int;
            if bytes < 0 {
                faulted(v, pc1 + 1, VmError::OperandOutOfRange)
            } else if v.heap.len() + bytes > usize::MAX as int {
                faulted(v, pc1 + 1, VmError::OperandOutOfRange)
            } else {
                VmView { heap: v.heap + Seq::new(bytes as nat, |i: int| 0u8), pc: pc1 + 1, ..v }
            }
        }
    }
}

pub open spec fn step_incdec(v: VmView, pc1: int, delta: int) -> VmView {
    if pc1 + 1 > v.program.len() {
        faulted(v, pc1, VmError::OperandOutOfRange)
    } else {
        let reg = v.program[pc1];
        if reg >= 32 {
            faulted(v, pc1 + 1, VmError::OperandOutOfRange)
        } else {
            let res = v.registers[reg as int] as int + delta;
            if res < -0x8000_0000 || res > 0x7FFF_FFFF {
                faulted(v, pc1 + 1, VmError::ArithmeticOverflow)
            } else {
                VmView {
                    registers: v.registers.update(reg as int, res as i32),
                    pc: pc1 + 1,
                    ..v
                }
            }
        }
    }
}

/// One step of the machine. A machine that has stopped does not move;
/// a counter at or past the end of the program exhausts; otherwise one
/// opcode is fetched, decoded, and executed.
pub open spec fn step(v: VmView) -> VmView {
    if !(v.status is Running) {
        v
    } else if v.pc >= v.program.len() {
        VmView { status: VmStatus::Exhausted, ..v }
    } else {
        let op = opcode_of_byte(v.program[v.pc]);
        let pc1 = v.pc + 1;
        match op {
            Opcode::HLT => step_hlt(v, pc1),
            Opcode::IGL => VmView {
                pc: pc1,
                status: VmStatus::Faulted(VmError::UnrecognizedInstruction),
                ..v
            },
            Opcode::NOP => VmView { pc: pc1, ..v },
            Opcode::LOAD => step_load(v, pc1),
            Opcode::ADD => step_alu(v, pc1, Opcode::ADD),
            Opcode::SUB => step_alu(v, pc1, Opcode::SUB),
            Opcode::MUL => step_alu(v, pc1, Opcode::MUL),
            Opcode::DIV => step_div(v, pc1),
            Opcode::JMP => step_jmp(v, pc1),
            Opcode::JMPF => step_jmpf(v, pc1),
            Opcode::JMPB => step_jmpb(v, pc1),
            Opcode::EQ => step_cmp(v, pc1, Opcode::EQ),
            Opcode::NEQ => step_cmp(v, pc1, Opcode::NEQ),
            Opcode::GT => step_cmp(v, pc1, Opcode::GT),
            Opcode::LT => step_cmp(v, pc1, Opcode::LT),
            Opcode::GTQ => step_cmp(v, pc1, Opcode::GTQ),
            Opcode::LTQ => step_cmp(v, pc1, Opcode::LTQ),
            Opcode::JEQ => step_jeq(v, pc1),
            Opcode::ALOC => step_aloc(v, pc1),
            Opcode::INC => step_incdec(v, pc1, 1),
            Opcode::DEC => step_incdec(v, pc1, -1),
        }
    }
}

/// `n` steps of the machine.
pub open spec fn step_n(v: VmView, n: nat) -> VmView
    decreases n,
{
    if n == 0 {
        v
    } else {
        step(step_n(v, (n - 1) as nat))
    }
}

// ---------------------------------------------------------------------
// The machine itself
// ---------------------------------------------------------------------

impl VM {
    pub fn new() -> (r: VM)
        ensures
            r@.registers == Seq::new(32, |i: int| 0i32),
            r@.pc == 0,
            r@.program == Seq::<u8>::empty(),
            r@.remainder == 0,
            r@.equal_flag == false,
            r@.heap == Seq::<u8>::empty(),
            r@.status is Running,
            r@.jmpb_subtracts == false,
    {
        let r = VM {
            registers: [0; 32],
            pc: 0,
            program: Vec::new(),
            remainder: 0,
            equal_flag: false,
            heap: Vec::new(),
            status: VmStatus::Running,
            jmpb_subtracts: false,
        };
        proof {
            assert(r@.registers =~= Seq::new(32, |i: int| 0i32));
            assert(r@.program =~= Seq::<u8>::empty());
            assert(r@.heap =~= Seq::<u8>::empty());
        }
        r
    }

    /// Appends one byte to the program buffer.
    pub fn add_byte(&mut self, b: u8)
        ensures
            final(self)@ == (VmView { program: old(self)@.program.push(b), ..old(self)@ }),
    {
        self.program.push(b);
    }

    /// Appends a whole byte string to the program buffer.
    pub fn add_bytes(&mut self, b: Vec<u8>)
        ensures
            final(self)@ == (VmView { program: old(self)@.program + b@, ..old(self)@ }),
    {
        let mut rest = b;
        self.program.append(&mut rest);
    }

    /// Empties the program buffer; every other part of the state stays.
    pub fn clear_program(&mut self)
        ensures
            final(self)@ == (VmView { program: Seq::<u8>::empty(), ..old(self)@ }),
    {
        self.program = Vec::new();
        proof {
            assert(self.program@ =~= Seq::<u8>::empty());
        }
    }

    fn decode_opcode(&mut self) -> (op: Opcode)
        requires
            old(self).pc < old(self).program.len(),
        ensures
            final(self)@ == (VmView { pc: old(self)@.pc + 1, ..old(self)@ }),
            op == opcode_of_byte(old(self)@.program[old(self)@.pc]),
    {
        let opcode = Opcode::from_byte(self.program[self.pc]);
        self.pc = self.pc + 1;
        opcode
    }

    fn next_8_bits(&mut self) -> (b: u8)
        requires
            old(self).pc < old(self).program.len(),
        ensures
            final(self)@ == (VmView { pc: old(self)@.pc + 1, ..old(self)@ }),
            b == old(self)@.program[old(self)@.pc],
    {
        let result = self.program[self.pc];
        self.pc = self.pc + 1;
        result
    }

    fn next_16_bits(&mut self) -> (w: u16)
        requires
            old(self).pc + 1 < old(self).program.len(),
        ensures
            final(self)@ == (VmView { pc: old(self)@.pc + 2, ..old(self)@ }),
            w as int == be16(
                old(self)@.program[old(self)@.pc],
                old(self)@.program[old(self)@.pc + 1],
            ),
    {
        let hi = self.program[self.pc];
        let lo = self.program[self.pc + 1];
        self.pc = self.pc + 2;
        (hi as u16) * 256 + (lo as u16)
    }

    /// Executes exactly one instruction.
    pub fn run_once(&mut self)
        ensures
            final(self)@ == step(old(self)@),
    {
        let _ = self.execute_instruction();
    }

    /// Runs until the machine stops, with an explicit step budget so
    /// that termination is provable; the budget is far beyond anything
    /// a real run can spend.
    pub fn run(&mut self)
        ensures
            exists|n: nat|
                n <= u64::MAX && final(self)@ == step_n(old(self)@, n) && (!(final(self)@.status
                    is Running) || n == u64::MAX),
    {
        let mut fuel: u64 = u64::MAX;
        let mut done = false;
        while !done && fuel > 0
            invariant
                fuel <= u64::MAX,
                self@ == step_n(old(self)@, (u64::MAX - fuel) as nat),
                done ==> !(self@.status is Running),
            decreases fuel,
        {
            let ghost k = (u64::MAX - fuel) as nat;
            done = self.execute_instruction();
            fuel = fuel - 1;
            proof {
                assert((u64::MAX - fuel) as nat == k + 1);
                assert(step_n(old(self)@, k + 1) == step(step_n(old(self)@, k)));
            }
        }
    }

    /// One fetch-decode-execute cycle; the result says whether the
    /// machine has stopped.
    fn execute_instruction(&mut self) -> (done: bool)
        ensures
            final(self)@ == step(old(self)@),
            done == !(step(old(self)@).status is Running),
    {
        match self.status {
            VmStatus::Running => {},
            _ => {
                return true;
            },
        }
        if self.pc >= self.program.len() {
            self.status = VmStatus::Exhausted;
            return true;
        }
        let op = self.decode_opcode();
        match op {
            Opcode::HLT => self.exec_hlt(),
            Opcode::IGL => {
                self.status = VmStatus::Faulted(VmError::UnrecognizedInstruction);
                true
            },
            Opcode::NOP => false,
            Opcode::LOAD => self.exec_load(),
            Opcode::ADD | Opcode::SUB | Opcode::MUL => self.exec_alu(op),
            Opcode::DIV => self.exec_div(),
            Opcode::EQ | Opcode::NEQ | Opcode::GT | Opcode::LT | Opcode::GTQ | Opcode::LTQ => self
                .exec_cmp(op),
            Opcode::JMP => self.exec_jmp(),
            Opcode::JMPF => self.exec_jmpf(),
            Opcode::JMPB => self.exec_jmpb(),
            Opcode::JEQ => self.exec_jeq(),
            Opcode::ALOC => self.exec_aloc(),
            Opcode::INC | Opcode::DEC => self.exec_incdec(op),
        }
    }

    fn exec_hlt(&mut self) -> (done: bool)
        requires
            old(self).status is Running,
        ensures
            final(self)@ == step_hlt(old(self)@, old(self)@.pc),
            done == !(step_hlt(old(self)@, old(self)@.pc).status is Running),
    {
        if self.program.len() < 3 || self.pc > self.program.len() - 3 {
            self.status = VmStatus::Faulted(VmError::OperandOutOfRange);
        } else {
            self.pc = self.pc + 3;
            self.status = VmStatus::Halted;
        }
        true
    }

    fn exec_load(&mut self) -> (done: bool)
        requires
            old(self).status is Running,
        ensures
            final(self)@ == step_load(old(self)@, old(self)@.pc),
            done == !(step_load(old(self)@, old(self)@.pc).status is Running),
    {
        if self.program.len() < 3 || self.pc > self.program.len() - 3 {
            self.status = VmStatus::Faulted(VmError::OperandOutOfRange);
            return true;
        }
        let reg = self.next_8_bits();
        let number = self.next_16_bits();
        if reg >= 32 {
            self.status = VmStatus::Faulted(VmError::OperandOutOfRange);
            return true;
        }
        self.registers[reg as usize] = number as i32;
        false
    }

    fn exec_alu(&mut self, op: Opcode) -> (done: bool)
        requires
            old(self).status is Running,
            op == Opcode::ADD || op == Opcode::SUB || op == Opcode::MUL,
        ensures
            final(self)@ == step_alu(old(self)@, old(self)@.pc, op),
            done == !(step_alu(old(self)@, old(self)@.pc, op).status is Running),
    {
        if self.program.len() < 3 || self.pc > self.program.len() - 3 {
            self.status = VmStatus::Faulted(VmError::OperandOutOfRange);
            return true;
        }
        let r1 = self.next_8_bits();
        let r2 = self.next_8_bits();
        let rd = self.next_8_bits();
        if r1 >= 32 || r2 >= 32 || rd >= 32 {
            self.status = VmStatus::Faulted(VmError::OperandOutOfRange);
            return true;
        }
        let a = self.registers[r1 as usize] as i64;
        let b = self.registers[r2 as usize] as i64;
        proof {
            assert(-0x4000_0000_0000_0000 <= a as int * b as int <= 0x4000_0000_0000_0000)
                by (nonlinear_arith)
                requires
                    -0x8000_0000 <= a as int <= 0x7FFF_FFFF,
                    -0x8000_0000 <= b as int <= 0x7FFF_FFFF,
            ;
        }
        let res: i64 = match op {
            Opcode::ADD => a + b,
            Opcode::SUB => a - b,
            _ => a * b,
        };
        if res < -0x8000_0000i64 || res > 0x7FFF_FFFFi64 {
            self.status = VmStatus::Faulted(VmError::ArithmeticOverflow);
            return true;
        }
        self.registers[rd as usize] = res as i32;
        false
    }

    fn exec_div(&mut self) -> (done: bool)
        requires
            old(self).status is Running,
        ensures
            final(self)@ == step_div(old(self)@, old(self)@.pc),
            done == !(step_div(old(self)@, old(self)@.pc).status is Running),
    {
        if self.program.len() < 3 || self.pc > self.program.len() - 3 {
            self.status = VmStatus::Faulted(VmError::OperandOutOfRange);
            return true;
        }
        let r1 = self.next_8_bits();
        let r2 = self.next_8_bits();
        let rd = self.next_8_bits();
        if r1 >= 32 || r2 >= 32 || rd >= 32 {
            self.status = VmStatus::Faulted(VmError::OperandOutOfRange);
            return true;
        }
        let a = self.registers[r1 as usize];
        let d = self.registers[r2 as usize];
        if d == 0 {
            self.status = VmStatus::Faulted(VmError::DivisionByZero);
            return true;
        }
        let amag: u64 = if a >= 0 {
            a as u64
        } else {
            (-(a as i64)) as u64
        };
        let dmag: u64 = if d >= 0 {
            d as u64
        } else {
            (-(d as i64)) as u64
        };
        let qmag = amag / dmag;
        let mmag = amag % dmag;
        let same_sign = (a >= 0) == (d >= 0);
        let q: i32 = if same_sign {
            if qmag > 0x7FFF_FFFF {
                self.status = VmStatus::Faulted(VmError::ArithmeticOverflow);
                return true;
            }
            qmag as i32
        } else {
            if qmag > 0x8000_0000 {
                self.status = VmStatus::Faulted(VmError::ArithmeticOverflow);
                return true;
            }
            (-(qmag as i64)) as i32
        };
        let rem: u64 = if a >= 0 || mmag == 0 {
            mmag
        } else {
            dmag - mmag
        };
        self.registers[rd as usize] = q;
        self.remainder = rem as usize;
        false
    }

    fn exec_cmp(&mut self, op: Opcode) -> (done: bool)
        requires
            old(self).status is Running,
            op == Opcode::EQ || op == Opcode::NEQ || op == Opcode::GT || op == Opcode::LT || op
                == Opcode::GTQ || op == Opcode::LTQ,
        ensures
            final(self)@ == step_cmp(old(self)@, old(self)@.pc, op),
            done == !(step_cmp(old(self)@, old(self)@.pc, op).status is Running),
    {
        if self.program.len() < 3 || self.pc > self.program.len() - 3 {
            self.status = VmStatus::Faulted(VmError::OperandOutOfRange);
            return true;
        }
        let r1 = self.next_8_bits();
        let r2 = self.next_8_bits();
        let _pad = self.next_8_bits();
        if r1 >= 32 || r2 >= 32 {
            self.status = VmStatus::Faulted(VmError::OperandOutOfRange);
            return true;
        }
        let a = self.registers[r1 as usize];
        let b = self.registers[r2 as usize];
        self.equal_flag = match op {
            Opcode::EQ => a == b,
            Opcode::NEQ => a != b,
            Opcode::GT => a > b,
            Opcode::LT => a < b,
            Opcode::GTQ => a >= b,
            _ => a <= b,
        };
        false
    }

    fn exec_jmp(&mut self) -> (done: bool)
        requires
            old(self).status is Running,
        ensures
            final(self)@ == step_jmp(old(self)@, old(self)@.pc),
            done == !(step_jmp(old(self)@, old(self)@.pc).status is Running),
    {
        if self.pc >= self.program.len() {
            self.status = VmStatus::Faulted(VmError::OperandOutOfRange);
            return true;
        }
        let reg = self.next_8_bits();
        if reg >= 32 {
            self.status = VmStatus::Faulted(VmError::OperandOutOfRange);
            return true;
        }
        let target = self.registers[reg as usize];
        if target < 0 {
            self.status = VmStatus::Faulted(VmError::OperandOutOfRange);
            return true;
        }
        self.pc = target as usize;
        false
    }

    fn exec_jmpf(&mut self) -> (done: bool)
        requires
            old(self).status is Running,
        ensures
            final(self)@ == step_jmpf(old(self)@, old(self)@.pc),
            done == !(step_jmpf(old(self)@, old(self)@.pc).status is Running),
    {
        if self.pc >= self.program.len() {
            self.status = VmStatus::Faulted(VmError::OperandOutOfRange);
            return true;
        }
        let reg = self.next_8_bits();
        if reg >= 32 {
            self.status = VmStatus::Faulted(VmError::OperandOutOfRange);
            return true;
        }
        let value = self.registers[reg as usize];
        if value < 0 {
            self.status = VmStatus::Faulted(VmError::OperandOutOfRange);
            return true;
        }
        let add = value as usize;
        if usize::MAX - self.pc < add {
            self.status = VmStatus::Faulted(VmError::OperandOutOfRange);
            return true;
        }
        self.pc = self.pc + add;
        false
    }

    fn exec_jmpb(&mut self) -> (done: bool)
        requires
            old(self).status is Running,
        ensures
            final(self)@ == step_jmpb(old(self)@, old(self)@.pc),
            done == !(step_jmpb(old(self)@, old(self)@.pc).status is Running),
    {
        if !self.jmpb_subtracts {
            return self.exec_jmpf();
        }
        if self.pc >= self.program.len() {
            self.status = VmStatus::Faulted(VmError::OperandOutOfRange);
            return true;
        }
        let reg = self.next_8_bits();
        if reg >= 32 {
            self.status = VmStatus::Faulted(VmError::OperandOutOfRange);
            return true;
        }
        let value = self.registers[reg as usize];
        if value < 0 {
            self.status = VmStatus::Faulted(VmError::OperandOutOfRange);
            return true;
        }
        let sub = value as usize;
        if sub > self.pc {
            self.status = VmStatus::Faulted(VmError::OperandOutOfRange);
            return true;
        }
        self.pc = self.pc - sub;
        false
    }

    fn exec_jeq(&mut self) -> (done: bool)
        requires
            old(self).status is Running,
        ensures
            final(self)@ == step_jeq(old(self)@, old(self)@.pc),
            done == !(step_jeq(old(self)@, old(self)@.pc).status is Running),
    {
        if self.pc >= self.program.len() {
            self.status = VmStatus::Faulted(VmError::OperandOutOfRange);
            return true;
        }
        let reg = self.next_8_bits();
        if reg >= 32 {
            self.status = VmStatus::Faulted(VmError::OperandOutOfRange);
            return true;
        }
        if self.equal_flag {
            let target = self.registers[reg as usize];
            if target < 0 {
                self.status = VmStatus::Faulted(VmError::OperandOutOfRange);
                return true;
            }
            self.pc = target as usize;
        }
        false
    }

    fn exec_aloc(&mut self) -> (done: bool)
        requires
            old(self).status is Running,
        ensures
            final(self)@ == step_aloc(old(self)@, old(self)@.pc),
            done == !(step_aloc(old(self)@, old(self)@.pc).status is Running),
    {
        if self.pc >= self.program.len() {
            self.status = VmStatus::Faulted(VmError::OperandOutOfRange);
            return true;
        }
        let reg = self.next_8_bits();
        if reg >= 32 {
            self.status = VmStatus::Faulted(VmError::OperandOutOfRange);
            return true;
        }
        let bytes = self.registers[reg as usize];
        if bytes < 0 {
            self.status = VmStatus::Faulted(VmError::OperandOutOfRange);
            return true;
        }
        let grow = bytes as usize;
        if usize::MAX - self.heap.len() < grow {
            self.status = VmStatus::Faulted(VmError::OperandOutOfRange);
            return true;
        }
        let ghost mid = self@;
        let ghost oldheap = self.heap@;
        let mut j: usize = 0;
        while j < grow
            invariant
                j <= grow,
                self.heap@ == oldheap + Seq::new(j as nat, |i: int| 0u8),
                self.heap@.len() == oldheap.len() + j,
                oldheap.len() + grow <= usize::MAX,
                self.registers@ == mid.registers,
                self.pc as int == mid.pc,
                self.program@ == mid.program,
                self.remainder as int == mid.remainder,
                self.equal_flag == mid.equal_flag,
                self.status == mid.status,
                self.jmpb_subtracts == mid.jmpb_subtracts,
            decreases grow - j,
        {
            self.heap.push(0);
            j = j + 1;
            proof {
                assert(self.heap@ =~= oldheap + Seq::new(j as nat, |i: int| 0u8));
            }
        }
        false
    }

    fn exec_incdec(&mut self, op: Opcode) -> (done: bool)
        requires
            old(self).status is Running,
            op == Opcode::INC || op == Opcode::DEC,
        ensures
            final(self)@ == step_incdec(old(self)@, old(self)@.pc, if op == Opcode::INC { 1int } else { -1int }),
            done == !(step_incdec(old(self)@, old(self)@.pc, if op == Opcode::INC { 1int } else { -1int }).status is Running),
    {
        if self.pc >= self.program.len() {
            self.status = VmStatus::Faulted(VmError::OperandOutOfRange);
            return true;
        }
        let reg = self.next_8_bits();
        if reg >= 32 {
            self.status = VmStatus::Faulted(VmError::OperandOutOfRange);
            return true;
        }
        let a = self.registers[reg as usize] as i64;
        let res: i64 = if matches!(op, Opcode::INC) {
            a + 1
        } else {
            a - 1
        };
        if res < -0x8000_0000i64 || res > 0x7FFF_FFFFi64 {
            self.status = VmStatus::Faulted(VmError::ArithmeticOverflow);
            return true;
        }
        self.registers[reg as usize] = res as i32;
        false
    }

    /// Whether the program buffer begins with the four magic bytes of
    /// the optional program header.
    pub fn verify_header(&self) -> (r: bool)
        ensures
            r == (self.program@.len() >= 4 && self.program@.subrange(0, 4) == header_prefix()),
    {
        if self.program.len() < 4 {
            return false;
        }
        let ok = self.program[0] == 45 && self.program[1] == 50 && self.program[2] == 49
            && self.program[3] == 45;
        proof {
            if ok {
                assert(self.program@.subrange(0, 4) =~= header_prefix());
            } else {
                if self.program@.subrange(0, 4) == header_prefix() {
                    assert(self.program@[0] == header_prefix()[0]);
                    assert(self.program@[1] == header_prefix()[1]);
                    assert(self.program@[2] == header_prefix()[2]);
                    assert(self.program@[3] == header_prefix()[3]);
                }
            }
        }
        ok
    }
}

// ---------------------------------------------------------------------
// The optional program header
// ---------------------------------------------------------------------

/// Total size of the program header region, magic prefix included.
pub const PIE_HEADER_LENGTH: usize = 64;

/// The four magic bytes that open a program header.
pub open spec fn header_prefix() -> Seq<u8> {
    seq![45u8, 50u8, 49u8, 45u8]
}

/// The whole header region: the magic prefix, zero-padded to
/// `PIE_HEADER_LENGTH` bytes.
pub open spec fn header_seq() -> Seq<u8> {
    header_prefix() + Seq::new((PIE_HEADER_LENGTH - 4) as nat, |i: int| 0u8)
}

/// Puts the fixed header region in front of a program image.
pub fn prepend_header(b: Vec<u8>) -> (r: Vec<u8>)
    ensures
        r@ == header_seq() + b@,
{
    let ghost b0 = b@;
    let mut prepension: Vec<u8> = Vec::new();
    prepension.push(45);
    prepension.push(50);
    prepension.push(49);
    prepension.push(45);
    proof {
        assert(prepension@ =~= header_prefix() + Seq::new(0nat, |i: int| 0u8));
    }
    while prepension.len() < PIE_HEADER_LENGTH
        invariant
            4 <= prepension@.len() <= PIE_HEADER_LENGTH,
            prepension@ == header_prefix() + Seq::new(
                (prepension@.len() - 4) as nat,
                |i: int| 0u8,
            ),
        decreases PIE_HEADER_LENGTH - prepension.len(),
    {
        prepension.push(0);
        proof {
            assert(prepension@ =~= header_prefix() + Seq::new(
                (prepension@.len() - 4) as nat,
                |i: int| 0u8,
            ));
        }
    }
    let mut rest = b;
    prepension.append(&mut rest);
    proof {
        assert(prepension@ =~= header_seq() + b0);
    }
    prepension
}

} // verus!
