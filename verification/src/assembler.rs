//! The two-phase assembler. Pass one walks the program once, collecting
//! every declared label into the symbol table at the byte offset of its
//! statement (four bytes per statement); a duplicate name is rejected
//! outright. Pass two serializes every statement in order, resolving
//! label references against that table. The result is a function of the
//! source text alone: the table is rebuilt on every call.

use vstd::prelude::*;

use crate::errors::{AsmErrV, AssemblyError};
use crate::instruction::{opcode_of_byte, Opcode};
use crate::parser::{
    instr_bytes, label_name_of, parse_program, parse_source, program_bytes, program_bytes_from,
    slot_sized, InstrV, Program,
};
use crate::symbols::{lemma_lookup_push, lookup, Symbol, SymbolTable, SymbolType, SymbolV};
use crate::vm::{step, VmView};

verus! {

/// The two passes, transitioned in fixed order and never revisited.
#[derive(Debug, Clone, Copy, PartialEq, Eq, Structural)]
pub enum AssemblerPhase {
    First,
    Second,
}

/// More statements than this cannot be addressed by the 32-bit symbol
/// offsets (each statement occupies four bytes).
pub const MAX_STATEMENTS: usize = 0x4000_0000;

/// The symbol table pass one builds for the statements from index `k`
/// on, given the table `acc` built so far: each declared label at the
/// byte offset of its statement, a duplicate name failing the pass.
pub open spec fn build_symbols(instrs: Seq<InstrV>, k: int, acc: Seq<SymbolV>) -> Result<
    Seq<SymbolV>,
    AsmErrV,
>
    decreases instrs.len() - k,
{
    if k < 0 || k >= instrs.len() {
        Result::Ok(acc)
    } else {
        match label_name_of(instrs[k]) {
            Option::Some(name) => if lookup(acc, name) is Some {
                Result::Err(AsmErrV::DuplicateSymbol { name })
            } else {
                build_symbols(instrs, k + 1, acc.push(SymbolV { name, offset: (4 * k) as u32 }))
            },
            Option::None => build_symbols(instrs, k + 1, acc),
        }
    }
}

/// What assembling a source text yields: parse, bound the statement
/// count, build the symbol table, serialize. Any failure yields its
/// error and no output.
pub open spec fn assemble_spec(src: Seq<char>) -> Result<Seq<u8>, AsmErrV> {
    match parse_source(src, 1) {
        Result::Err(e) => Result::Err(e),
        Result::Ok(instrs) => if instrs.len() > MAX_STATEMENTS {
            Result::Err(AsmErrV::TooLarge)
        } else {
            match build_symbols(instrs, 0, Seq::empty()) {
                Result::Err(e) => Result::Err(e),
                Result::Ok(syms) => program_bytes(instrs, syms),
            }
        },
    }
}

/// The assembler: its current phase and the symbol table of the call
/// in progress.
#[derive(Debug)]
pub struct Assembler {
    pub phase: AssemblerPhase,
    pub symbols: SymbolTable,
}

impl Assembler {
    pub fn new() -> (r: Assembler)
        ensures
            r.phase == AssemblerPhase::First,
            r.symbols@ == Seq::<SymbolV>::empty(),
    {
        Assembler { phase: AssemblerPhase::First, symbols: SymbolTable::new() }
    }

    /// Pass one: collect every declared label at the byte offset of its
    /// statement, rejecting duplicates.
    fn extract_labels(&mut self, p: &Program) -> (r: Result<(), AssemblyError>)
        requires
            p@.len() <= MAX_STATEMENTS,
        ensures
            final(self).phase == old(self).phase,
            match build_symbols(p@, 0, old(self).symbols@) {
                Result::Ok(s) => r is Ok && final(self).symbols@ == s,
                Result::Err(e) => r matches Result::Err(er) && er@ == e,
            },
    {
        let n = p.instructions.len();
        let mut i: usize = 0;
        while i < n
            invariant
                i <= n,
                n == p.instructions.len(),
                n <= MAX_STATEMENTS,
                self.phase == old(self).phase,
                build_symbols(p@, 0, old(self).symbols@) == build_symbols(
                    p@,
                    i as int,
                    self.symbols@,
                ),
            decreases n - i,
        {
            let ins = &p.instructions[i];
            proof {
                assert(ins@ == p@[i as int]);
            }
            if ins.is_label() {
                match ins.get_label_name() {
                    Option::Some(name) => {
                        if self.symbols.symbol_value(name.as_str()).is_some() {
                            return Result::Err(AssemblyError::DuplicateSymbol { name });
                        }
                        let off: u32 = 4 * (i as u32);
                        self.symbols.add_symbol(Symbol::new(name, SymbolType::Label, off));
                    },
                    Option::None => {},
                }
            }
            i += 1;
        }
        Result::Ok(())
    }

    /// Pass one, then hand over to pass two.
    fn process_first_phase(&mut self, p: &Program) -> (r: Result<(), AssemblyError>)
        requires
            p@.len() <= MAX_STATEMENTS,
        ensures
            match build_symbols(p@, 0, old(self).symbols@) {
                Result::Ok(s) => r is Ok && final(self).symbols@ == s && final(self).phase
                    == AssemblerPhase::Second,
                Result::Err(e) => r matches Result::Err(er) && er@ == e,
            },
    {
        match self.extract_labels(p) {
            Result::Ok(_) => {
                self.phase = AssemblerPhase::Second;
                Result::Ok(())
            },
            Result::Err(e) => Result::Err(e),
        }
    }

    /// Pass two: serialize every statement against the table pass one
    /// built.
    fn process_second_phase(&mut self, p: &Program) -> (r: Result<Vec<u8>, AssemblyError>)
        ensures
            *final(self) == *old(self),
            match program_bytes(p@, old(self).symbols@) {
                Result::Ok(b) => r matches Result::Ok(v) && v@ == b,
                Result::Err(e) => r matches Result::Err(er) && er@ == e,
            },
    {
        p.to_bytes(&self.symbols)
    }

    /// Assembles a source text to its binary image, or fails with a
    /// typed error and no output. The result is a function of the text
    /// alone: assembling the same text twice yields byte-identical
    /// output, whatever state the assembler was in.
    pub fn assemble(&mut self, raw: &str) -> (r: Result<Vec<u8>, AssemblyError>)
        ensures
            match assemble_spec(raw@) {
                Result::Ok(b) => r matches Result::Ok(v) && v@ == b,
                Result::Err(e) => r matches Result::Err(er) && er@ == e,
            },
            r is Ok ==> final(self).phase == AssemblerPhase::Second,
            match parse_source(raw@, 1) {
                Result::Ok(instrs) => r is Ok ==> build_symbols(instrs, 0, Seq::empty())
                    == Result::<Seq<SymbolV>, AsmErrV>::Ok(final(self).symbols@),
                Result::Err(_) => true,
            },
    {
        self.phase = AssemblerPhase::First;
        self.symbols = SymbolTable::new();
        let program = match parse_program(raw) {
            Result::Ok(p) => p,
            Result::Err(e) => {
                return Result::Err(e);
            },
        };
        if program.instructions.len() > MAX_STATEMENTS {
            return Result::Err(AssemblyError::TooLarge);
        }
        match self.process_first_phase(&program) {
            Result::Ok(_) => {},
            Result::Err(e) => {
                return Result::Err(e);
            },
        }
        self.process_second_phase(&program)
    }
}

// ---------------------------------------------------------------------
// Two-phase correctness
// ---------------------------------------------------------------------

/// A symbol, once present in the table, keeps its first-match offset
/// through the rest of a successful first pass.
proof fn lemma_build_symbols_preserves_lookup(
    instrs: Seq<InstrV>,
    k: int,
    acc: Seq<SymbolV>,
    syms: Seq<SymbolV>,
    name: Seq<char>,
)
    requires
        build_symbols(instrs, k, acc) == Result::<Seq<SymbolV>, AsmErrV>::Ok(syms),
        lookup(acc, name) is Some,
    ensures
        lookup(syms, name) == lookup(acc, name),
    decreases instrs.len() - k,
{
    if k < 0 || k >= instrs.len() {
    } else {
        match label_name_of(instrs[k]) {
            Option::Some(n2) => {
                let x = SymbolV { name: n2, offset: (4 * k) as u32 };
                lemma_lookup_push(acc, x, name);
                lemma_build_symbols_preserves_lookup(instrs, k + 1, acc.push(x), syms, name);
            },
            Option::None => {
                lemma_build_symbols_preserves_lookup(instrs, k + 1, acc, syms, name);
            },
        }
    }
}

/// A first pass that still has to meet a label whose name is already
/// in the table cannot succeed.
proof fn lemma_build_symbols_dup_fails(
    instrs: Seq<InstrV>,
    k: int,
    acc: Seq<SymbolV>,
    j: int,
    name: Seq<char>,
)
    requires
        0 <= k <= j < instrs.len(),
        label_name_of(instrs[j]) == Option::Some(name),
        lookup(acc, name) is Some,
    ensures
        build_symbols(instrs, k, acc) is Err,
    decreases j - k,
{
    if k == j {
    } else {
        match label_name_of(instrs[k]) {
            Option::Some(n2) => {
                if lookup(acc, n2) is Some {
                } else {
                    let x = SymbolV { name: n2, offset: (4 * k) as u32 };
                    lemma_lookup_push(acc, x, name);
                    lemma_build_symbols_dup_fails(instrs, k + 1, acc.push(x), j, name);
                }
            },
            Option::None => {
                lemma_build_symbols_dup_fails(instrs, k + 1, acc, j, name);
            },
        }
    }
}

/// After a successful first pass, a label declared on statement `j`
/// resolves to byte offset `4 * j`.
proof fn lemma_build_symbols_lookup(
    instrs: Seq<InstrV>,
    k: int,
    acc: Seq<SymbolV>,
    syms: Seq<SymbolV>,
    j: int,
    name: Seq<char>,
)
    requires
        0 <= k <= j < instrs.len(),
        build_symbols(instrs, k, acc) == Result::<Seq<SymbolV>, AsmErrV>::Ok(syms),
        label_name_of(instrs[j]) == Option::Some(name),
        lookup(acc, name) is None,
    ensures
        lookup(syms, name) == Option::Some((4 * j) as u32),
    decreases j - k,
{
    if k == j {
        let x = SymbolV { name, offset: (4 * j) as u32 };
        lemma_lookup_push(acc, x, name);
        lemma_build_symbols_preserves_lookup(instrs, k + 1, acc.push(x), syms, name);
    } else {
        match label_name_of(instrs[k]) {
            Option::Some(n2) => {
                let x = SymbolV { name: n2, offset: (4 * k) as u32 };
                lemma_lookup_push(acc, x, name);
                if n2 == name {
                    lemma_build_symbols_dup_fails(instrs, k + 1, acc.push(x), j, name);
                } else {
                    lemma_build_symbols_lookup(instrs, k + 1, acc.push(x), syms, j, name);
                }
            },
            Option::None => {
                lemma_build_symbols_lookup(instrs, k + 1, acc, syms, j, name);
            },
        }
    }
}

/// When every statement serializes to one four-byte slot, the image is
/// the slots in order: statement `i` occupies bytes `4*i .. 4*i+4`.
proof fn lemma_program_bytes_layout(
    instrs: Seq<InstrV>,
    syms: Seq<SymbolV>,
    k: int,
    bytes: Seq<u8>,
)
    requires
        0 <= k <= instrs.len(),
        program_bytes_from(instrs, k, syms) == Result::<Seq<u8>, AsmErrV>::Ok(bytes),
        forall|i: int| k <= i < instrs.len() ==> slot_sized(#[trigger] instrs[i], syms),
    ensures
        bytes.len() == 4 * (instrs.len() - k),
        forall|i: int|
            k <= i < instrs.len() ==> bytes.subrange(4 * (i - k), 4 * (i - k) + 4) == instr_bytes(
                #[trigger] instrs[i],
                syms,
            )->Ok_0,
    decreases instrs.len() - k,
{
    if k >= instrs.len() {
    } else {
        let b = instr_bytes(instrs[k], syms)->Ok_0;
        let t = program_bytes_from(instrs, k + 1, syms)->Ok_0;
        lemma_program_bytes_layout(instrs, syms, k + 1, t);
        assert(bytes == b + t);
        assert(b.len() == 4);
        assert forall|i: int|
            k <= i < instrs.len() implies bytes.subrange(4 * (i - k), 4 * (i - k) + 4)
            == instr_bytes(instrs[i], syms)->Ok_0 by {
            if i == k {
                assert(bytes.subrange(0, 4) =~= b);
            } else {
                assert(bytes.subrange(4 * (i - k), 4 * (i - k) + 4) =~= t.subrange(
                    4 * (i - k - 1),
                    4 * (i - k - 1) + 4,
                ));
            }
        }
    }
}

/// Two-phase correctness. For a program whose statements each occupy
/// one four-byte slot — forward references included, since the table
/// is complete before anything is serialized — the symbol of the label
/// declared on statement `j` resolves to byte offset `4 * j`, and the
/// assembled image holds statement `j`'s bytes at exactly that offset.
pub proof fn lemma_two_phase_offsets(
    instrs: Seq<InstrV>,
    syms: Seq<SymbolV>,
    bytes: Seq<u8>,
    j: int,
    name: Seq<char>,
)
    requires
        instrs.len() <= MAX_STATEMENTS,
        build_symbols(instrs, 0, Seq::empty()) == Result::<Seq<SymbolV>, AsmErrV>::Ok(syms),
        program_bytes(instrs, syms) == Result::<Seq<u8>, AsmErrV>::Ok(bytes),
        forall|i: int| 0 <= i < instrs.len() ==> slot_sized(#[trigger] instrs[i], syms),
        0 <= j < instrs.len(),
        label_name_of(instrs[j]) == Option::Some(name),
    ensures
        lookup(syms, name) == Option::Some((4 * j) as u32),
        (4 * j) as u32 as int == 4 * j,
        bytes.len() == 4 * instrs.len(),
        bytes.subrange(4 * j, 4 * j + 4) == instr_bytes(instrs[j], syms)->Ok_0,
{
    assert(lookup(Seq::<SymbolV>::empty(), name) is None);
    lemma_build_symbols_lookup(instrs, 0, Seq::empty(), syms, j, name);
    lemma_program_bytes_layout(instrs, syms, 0, bytes);
}

/// Executing a `JMP` through a register that holds the resolved offset
/// of a label lands the program counter exactly on the first byte of
/// the labelled statement's slot.
pub proof fn lemma_jump_reaches_label(
    v: VmView,
    instrs: Seq<InstrV>,
    syms: Seq<SymbolV>,
    bytes: Seq<u8>,
    j: int,
    name: Seq<char>,
)
    requires
        instrs.len() <= MAX_STATEMENTS,
        build_symbols(instrs, 0, Seq::empty()) == Result::<Seq<SymbolV>, AsmErrV>::Ok(syms),
        program_bytes(instrs, syms) == Result::<Seq<u8>, AsmErrV>::Ok(bytes),
        forall|i: int| 0 <= i < instrs.len() ==> slot_sized(#[trigger] instrs[i], syms),
        0 <= j < instrs.len(),
        label_name_of(instrs[j]) == Option::Some(name),
        v.status is Running,
        v.program == bytes,
        v.registers.len() == 32,
        0 <= v.pc,
        v.pc + 2 <= bytes.len(),
        opcode_of_byte(bytes[v.pc]) == Opcode::JMP,
        bytes[v.pc + 1] < 32,
        v.registers[bytes[v.pc + 1] as int] as int == 4 * j,
    ensures
        step(v).pc == 4 * j,
        step(v).status is Running,
        bytes.subrange(step(v).pc, step(v).pc + 4) == instr_bytes(instrs[j], syms)->Ok_0,
{
    lemma_two_phase_offsets(instrs, syms, bytes, j, name);
}

} // verus!
