//! Statements and programs: one parsed instruction per source line, and
//! the serializer that turns a parsed instruction into its fixed-width
//! binary form.
//!
//! A statement is an optional leading label declaration followed by an
//! opcode and up to three operands, or a lone directive. Serialization
//! pushes the opcode byte, then each operand (registers as one byte,
//! integers and resolved label offsets as two big-endian bytes), then
//! zero-pads the instruction to four bytes.

use vstd::arithmetic::div_mod::{lemma_fundamental_div_mod, lemma_fundamental_div_mod_converse};
use vstd::prelude::*;
use vstd::string::*;

use crate::errors::{AsmErrV, AssemblyError};
use crate::instruction::opcode_code;
use crate::lexer::{
    directive_token, fields_of, label_decl_token, opcode_token, operand_token, parse_directive,
    parse_label_declaration, parse_opcode, parse_operand, split_fields, Token, TokenV,
};
use crate::symbols::{lookup, SymbolTable, SymbolV};

verus! {

/// One parsed statement: an opcode with up to three operands, possibly
/// labelled, or a directive.
#[derive(Debug, PartialEq)]
pub struct AssemblerInstruction {
    pub opcode: Option<Token>,
    pub operand1: Option<Token>,
    pub operand2: Option<Token>,
    pub operand3: Option<Token>,
    pub label: Option<Token>,
    pub directive: Option<Token>,
}

/// The mathematical shape of a parsed statement.
pub ghost struct InstrV {
    pub opcode: Option<TokenV>,
    pub operand1: Option<TokenV>,
    pub operand2: Option<TokenV>,
    pub operand3: Option<TokenV>,
    pub label: Option<TokenV>,
    pub directive: Option<TokenV>,
}

impl View for AssemblerInstruction {
    type V = InstrV;

    open spec fn view(&self) -> InstrV {
        InstrV {
            opcode: self.opcode.deep_view(),
            operand1: self.operand1.deep_view(),
            operand2: self.operand2.deep_view(),
            operand3: self.operand3.deep_view(),
            label: self.label.deep_view(),
            directive: self.directive.deep_view(),
        }
    }
}

impl DeepView for AssemblerInstruction {
    type V = InstrV;

    open spec fn deep_view(&self) -> InstrV {
        self.view()
    }
}

// ---------------------------------------------------------------------
// Statement grammar
// ---------------------------------------------------------------------

/// The statement a line denotes, or `None` when the line matches no
/// statement form. A blank line (no fields) denotes no statement.
pub open spec fn statement_of(line: Seq<char>) -> Option<InstrV> {
    let fs = fields_of(line);
    if fs.len() == 0 {
        Option::None
    } else if fs.len() == 1 && directive_token(fs[0]) is Some {
        Option::Some(
            InstrV {
                opcode: Option::None,
                operand1: Option::None,
                operand2: Option::None,
                operand3: Option::None,
                label: Option::None,
                directive: directive_token(fs[0]),
            },
        )
    } else {
        let lbl = label_decl_token(fs[0]);
        let rest = if lbl is Some {
            fs.skip(1)
        } else {
            fs
        };
        if rest.len() == 0 || rest.len() > 4 {
            Option::None
        } else if opcode_token(rest[0]) is None {
            Option::None
        } else if rest.len() >= 2 && operand_token(rest[1]) is None {
            Option::None
        } else if rest.len() >= 3 && operand_token(rest[2]) is None {
            Option::None
        } else if rest.len() >= 4 && operand_token(rest[3]) is None {
            Option::None
        } else {
            Option::Some(
                InstrV {
                    opcode: opcode_token(rest[0]),
                    operand1: if rest.len() >= 2 {
                        operand_token(rest[1])
                    } else {
                        Option::None
                    },
                    operand2: if rest.len() >= 3 {
                        operand_token(rest[2])
                    } else {
                        Option::None
                    },
                    operand3: if rest.len() >= 4 {
                        operand_token(rest[3])
                    } else {
                        Option::None
                    },
                    label: lbl,
                    directive: Option::None,
                },
            )
        }
    }
}

/// Parses one statement; trailing or leading whitespace, including a
/// newline, is ignored. `None` means the line is blank or malformed.
pub fn parse_instruction(s: &str) -> (r: Option<AssemblerInstruction>)
    ensures
        r.deep_view() == statement_of(s@),
{
    let fields = split_fields(s);
    let ghost fs = fields_of(s@);
    if fields.len() == 0 {
        return Option::None;
    }
    if fields.len() == 1 {
        if let Option::Some(dt) = parse_directive(fields[0]) {
            return Option::Some(
                AssemblerInstruction {
                    opcode: Option::None,
                    operand1: Option::None,
                    operand2: Option::None,
                    operand3: Option::None,
                    label: Option::None,
                    directive: Option::Some(dt),
                },
            );
        }
    }
    let lbl = parse_label_declaration(fields[0]);
    let base: usize = if lbl.is_some() {
        1
    } else {
        0
    };
    let ghost rest = if label_decl_token(fs[0]) is Some {
        fs.skip(1)
    } else {
        fs
    };
    let nrest = fields.len() - base;
    proof {
        assert(rest.len() == nrest);
        assert(forall|i: int|
            0 <= i < rest.len() ==> rest[i] == fields@.map_values(|f: &str| f@)[base + i]);
    }
    if nrest == 0 || nrest > 4 {
        return Option::None;
    }
    let opc = match parse_opcode(fields[base]) {
        Option::Some(t) => t,
        Option::None => {
            return Option::None;
        },
    };
    let o1 = if nrest >= 2 {
        match parse_operand(fields[base + 1]) {
            Option::Some(t) => Option::Some(t),
            Option::None => {
                return Option::None;
            },
        }
    } else {
        Option::None
    };
    let o2 = if nrest >= 3 {
        match parse_operand(fields[base + 2]) {
            Option::Some(t) => Option::Some(t),
            Option::None => {
                return Option::None;
            },
        }
    } else {
        Option::None
    };
    let o3 = if nrest >= 4 {
        match parse_operand(fields[base + 3]) {
            Option::Some(t) => Option::Some(t),
            Option::None => {
                return Option::None;
            },
        }
    } else {
        Option::None
    };
    Option::Some(
        AssemblerInstruction {
            opcode: Option::Some(opc),
            operand1: o1,
            operand2: o2,
            operand3: o3,
            label: lbl,
            directive: Option::None,
        },
    )
}

// ---------------------------------------------------------------------
// Programs
// ---------------------------------------------------------------------

/// An ordered sequence of parsed statements; order defines both
/// execution order and byte layout.
#[derive(Debug, PartialEq)]
pub struct Program {
    pub instructions: Vec<AssemblerInstruction>,
}

impl View for Program {
    type V = Seq<InstrV>;

    open spec fn view(&self) -> Seq<InstrV> {
        self.instructions.deep_view()
    }
}

impl DeepView for Program {
    type V = Seq<InstrV>;

    open spec fn deep_view(&self) -> Seq<InstrV> {
        self.view()
    }
}

/// Length of the leading run of characters before a newline.
pub open spec fn line_end(s: Seq<char>) -> int
    decreases s.len(),
{
    if s.len() == 0 {
        0
    } else if s[0] == '\n' {
        0
    } else {
        1 + line_end(s.skip(1))
    }
}

pub proof fn lemma_line_end_bounds(s: Seq<char>)
    ensures
        0 <= line_end(s) <= s.len(),
    decreases s.len(),
{
    if s.len() > 0 && s[0] != '\n' {
        lemma_line_end_bounds(s.skip(1));
    }
}

fn line_end_exec(s: &str) -> (r: usize)
    ensures
        r as int == line_end(s@),
        r <= s@.len(),
    decreases s@.len(),
{
    let n = s.unicode_len();
    if n == 0 {
        0
    } else if s.get_char(0) == '\n' {
        0
    } else {
        let rest = s.substring_char(1, n);
        proof {
            assert(rest@ =~= s@.skip(1));
        }
        1 + line_end_exec(rest)
    }
}

/// Line numbers count from 1 and saturate rather than wrap.
pub open spec fn next_line_no(n: int) -> int {
    if n < usize::MAX {
        n + 1
    } else {
        n
    }
}

fn next_line_exec(n: usize) -> (r: usize)
    ensures
        r as int == next_line_no(n as int),
{
    if n < usize::MAX {
        n + 1
    } else {
        n
    }
}

/// The statements a source text denotes, line by line: blank lines are
/// skipped, and the first malformed line fails the whole parse with its
/// line number. An empty text denotes the empty program.
pub open spec fn parse_source(src: Seq<char>, lineno: int) -> Result<Seq<InstrV>, AsmErrV>
    decreases src.len(),
    via parse_source_dec
{
    let e = line_end(src);
    let line = src.take(e);
    let rest = if e < src.len() {
        parse_source(src.skip(e + 1), next_line_no(lineno))
    } else {
        Result::<Seq<InstrV>, AsmErrV>::Ok(Seq::empty())
    };
    if fields_of(line).len() == 0 {
        rest
    } else {
        match statement_of(line) {
            Option::None => Result::Err(AsmErrV::Syntax { line: lineno }),
            Option::Some(ins) => match rest {
                Result::Ok(t) => Result::Ok(seq![ins] + t),
                Result::Err(e2) => Result::Err(e2),
            },
        }
    }
}

#[via_fn]
proof fn parse_source_dec(src: Seq<char>, lineno: int) {
    lemma_line_end_bounds(src);
}

fn parse_statements(s: &str, lineno: usize) -> (r: Result<Vec<AssemblerInstruction>, AssemblyError>)
    ensures
        match parse_source(s@, lineno as int) {
            Result::Ok(instrs) => r matches Result::Ok(v) && v.deep_view() == instrs,
            Result::Err(e) => r matches Result::Err(er) && er@ == e,
        },
    decreases s@.len(),
{
    let n = s.unicode_len();
    let e = line_end_exec(s);
    let line = s.substring_char(0, e);
    proof {
        assert(line@ =~= s@.take(line_end(s@)));
    }
    let blank = {
        let fs = split_fields(line);
        fs.len() == 0
    };
    let cur: Option<AssemblerInstruction> = if blank {
        Option::None
    } else {
        match parse_instruction(line) {
            Option::Some(i) => Option::Some(i),
            Option::None => {
                return Result::Err(AssemblyError::Syntax { line: lineno });
            },
        }
    };
    let mut rest: Vec<AssemblerInstruction> = if e < n {
        let tail = s.substring_char(e + 1, n);
        proof {
            assert(tail@ =~= s@.skip(line_end(s@) + 1));
        }
        match parse_statements(tail, next_line_exec(lineno)) {
            Result::Ok(v) => v,
            Result::Err(er) => {
                return Result::Err(er);
            },
        }
    } else {
        Vec::new()
    };
    match cur {
        Option::None => Result::Ok(rest),
        Option::Some(i) => {
            let ghost rest_dv = rest.deep_view();
            let ghost idv = i.deep_view();
            let mut v: Vec<AssemblerInstruction> = Vec::new();
            v.push(i);
            v.append(&mut rest);
            proof {
                assert(v.deep_view() =~= seq![idv] + rest_dv);
            }
            Result::Ok(v)
        },
    }
}

/// Parses a whole source text into a program.
pub fn parse_program(s: &str) -> (r: Result<Program, AssemblyError>)
    ensures
        match parse_source(s@, 1) {
            Result::Ok(instrs) => r matches Result::Ok(p) && p@ == instrs,
            Result::Err(e) => r matches Result::Err(er) && er@ == e,
        },
{
    match parse_statements(s, 1) {
        Result::Ok(v) => Result::Ok(Program { instructions: v }),
        Result::Err(e) => Result::Err(e),
    }
}

// ---------------------------------------------------------------------
// Serialization
// ---------------------------------------------------------------------

/// An integer operand truncated to its low 16 bits, as encoded.
pub open spec fn imm16(v: i32) -> int {
    (v as int) % 0x10000
}

/// Computes the two big-endian bytes of an integer operand.
fn imm16_bytes(value: i32) -> (r: (u8, u8))
    ensures
        r.0 as int == imm16(value) / 256,
        r.1 as int == imm16(value) % 256,
{
    let m: u32 = if value >= 0 {
        (value as u32) % 0x10000
    } else {
        let k: u64 = (-(value as i64)) as u64;
        let r0: u64 = (k - 1) % 0x10000;
        proof {
            lemma_fundamental_div_mod((k - 1) as int, 0x10000);
            lemma_fundamental_div_mod_converse(
                value as int,
                0x10000,
                -((k - 1) as int / 0x10000) - 1,
                0xFFFF - ((k - 1) as int % 0x10000),
            );
        }
        (0xFFFF - r0) as u32
    };
    ((m / 256) as u8, (m % 256) as u8)
}

/// The bytes an operand token contributes: one for a register, two
/// big-endian for an integer, two big-endian for a resolved label
/// offset; an unresolved label or a misplaced token fails.
pub open spec fn operand_bytes(t: TokenV, syms: Seq<SymbolV>) -> Result<Seq<u8>, AsmErrV> {
    match t {
        TokenV::Register { reg_num } => Result::Ok(seq![reg_num]),
        TokenV::IntegerOperand { value } => Result::Ok(
            seq![(imm16(value) / 256) as u8, (imm16(value) % 256) as u8],
        ),
        TokenV::LabelUsage { name } => match lookup(syms, name) {
            Option::Some(off) => Result::Ok(
                seq![
                    ((off as int % 0x10000) / 256) as u8,
                    ((off as int % 0x10000) % 256) as u8,
                ],
            ),
            Option::None => Result::Err(AsmErrV::UnresolvedSymbol { name }),
        },
        _ => Result::Err(AsmErrV::OperandMisuse),
    }
}

pub open spec fn opt_operand_bytes(o: Option<TokenV>, syms: Seq<SymbolV>) -> Result<
    Seq<u8>,
    AsmErrV,
> {
    match o {
        Option::None => Result::Ok(Seq::empty()),
        Option::Some(t) => operand_bytes(t, syms),
    }
}

/// Zero-pads an instruction's bytes up to the canonical four.
pub open spec fn pad4(s: Seq<u8>) -> Seq<u8> {
    if s.len() >= 4 {
        s
    } else {
        s + Seq::new((4 - s.len()) as nat, |i: int| 0u8)
    }
}

/// The bytes one statement serializes to: the opcode byte, the operand
/// bytes in order, padded to four; a statement without an opcode
/// contributes nothing.
pub open spec fn instr_bytes(i: InstrV, syms: Seq<SymbolV>) -> Result<Seq<u8>, AsmErrV> {
    match i.opcode {
        Option::None => Result::Ok(Seq::empty()),
        Option::Some(TokenV::Op { code }) => match opt_operand_bytes(i.operand1, syms) {
            Result::Err(e) => Result::Err(e),
            Result::Ok(b1) => match opt_operand_bytes(i.operand2, syms) {
                Result::Err(e) => Result::Err(e),
                Result::Ok(b2) => match opt_operand_bytes(i.operand3, syms) {
                    Result::Err(e) => Result::Err(e),
                    Result::Ok(b3) => Result::Ok(pad4(seq![opcode_code(code)] + b1 + b2 + b3)),
                },
            },
        },
        Option::Some(_) => Result::Err(AsmErrV::OperandMisuse),
    }
}

/// Appends the bytes of one operand token, or reports why it cannot be
/// encoded, leaving the output untouched.
fn extract_operand(t: &Token, results: &mut Vec<u8>, symbols: &SymbolTable) -> (r: Result<
    (),
    AssemblyError,
>)
    ensures
        match operand_bytes(t@, symbols@) {
            Result::Ok(b) => r is Ok && final(results)@ == old(results)@ + b,
            Result::Err(e) => r matches Result::Err(er) && er@ == e && final(results)@ == old(
                results,
            )@,
        },
{
    match t {
        Token::Register { reg_num } => {
            results.push(*reg_num);
            proof {
                assert(results@ =~= old(results)@ + seq![t@->Register_reg_num]);
            }
            Result::Ok(())
        },
        Token::IntegerOperand { value } => {
            let (hi, lo) = imm16_bytes(*value);
            results.push(hi);
            results.push(lo);
            proof {
                assert(results@ =~= old(results)@ + seq![hi, lo]);
            }
            Result::Ok(())
        },
        Token::LabelUsage { name } => {
            match symbols.symbol_value(name.as_str()) {
                Option::Some(off) => {
                    let m: u32 = off % 0x10000;
                    results.push((m / 256) as u8);
                    results.push((m % 256) as u8);
                    proof {
                        assert(results@ =~= old(results)@ + seq![
                            ((off as int % 0x10000) / 256) as u8,
                            ((off as int % 0x10000) % 256) as u8,
                        ]);
                    }
                    Result::Ok(())
                },
                Option::None => Result::Err(
                    AssemblyError::UnresolvedSymbol { name: name.clone() },
                ),
            }
        },
        _ => Result::Err(AssemblyError::OperandMisuse),
    }
}

impl AssemblerInstruction {
    /// Whether this statement carries a label token.
    pub fn is_label(&self) -> (r: bool)
        ensures
            r == (self@.label is Some),
    {
        self.label.is_some()
    }

    /// The declared label name, when the label slot holds a declaration.
    pub fn get_label_name(&self) -> (r: Option<String>)
        ensures
            r.deep_view() == label_name_of(self@),
    {
        match &self.label {
            Option::Some(Token::LabelDeclaration { name }) => Option::Some(name.clone()),
            _ => Option::None,
        }
    }

    /// Serializes this statement against a symbol table.
    pub fn to_bytes(&self, symbols: &SymbolTable) -> (r: Result<Vec<u8>, AssemblyError>)
        ensures
            match instr_bytes(self@, symbols@) {
                Result::Ok(b) => r matches Result::Ok(v) && v@ == b,
                Result::Err(e) => r matches Result::Err(er) && er@ == e,
            },
    {
        let mut results: Vec<u8> = Vec::new();
        match &self.opcode {
            Option::None => {
                proof {
                    assert(results@ =~= Seq::<u8>::empty());
                }
                return Result::Ok(results);
            },
            Option::Some(Token::Op { code }) => {
                results.push(code.to_byte());
            },
            Option::Some(_) => {
                return Result::Err(AssemblyError::OperandMisuse);
            },
        }
        if let Option::Some(t) = &self.operand1 {
            match extract_operand(t, &mut results, symbols) {
                Result::Ok(_) => {},
                Result::Err(e) => {
                    return Result::Err(e);
                },
            }
        }
        if let Option::Some(t) = &self.operand2 {
            match extract_operand(t, &mut results, symbols) {
                Result::Ok(_) => {},
                Result::Err(e) => {
                    return Result::Err(e);
                },
            }
        }
        if let Option::Some(t) = &self.operand3 {
            match extract_operand(t, &mut results, symbols) {
                Result::Ok(_) => {},
                Result::Err(e) => {
                    return Result::Err(e);
                },
            }
        }
        let ghost base = results@;
        while results.len() < 4
            invariant
                results@.len() >= base.len(),
                base.len() < 4 ==> results@.len() <= 4,
                base.len() >= 4 ==> results@.len() == base.len(),
                results@ == base + Seq::new((results@.len() - base.len()) as nat, |i: int| 0u8),
            decreases 4 - results.len(),
        {
            results.push(0);
            proof {
                assert(results@ =~= base + Seq::new(
                    (results@.len() - base.len()) as nat,
                    |i: int| 0u8,
                ));
            }
        }
        proof {
            assert(results@ =~= pad4(base));
        }
        Result::Ok(results)
    }
}

/// The declared label name of a statement, if its label slot holds a
/// declaration token.
pub open spec fn label_name_of(i: InstrV) -> Option<Seq<char>> {
    match i.label {
        Option::Some(TokenV::LabelDeclaration { name }) => Option::Some(name),
        _ => Option::None,
    }
}

/// The bytes of the statements from index `k` on, concatenated in
/// order; the first statement that cannot be serialized fails the
/// whole program.
pub open spec fn program_bytes_from(instrs: Seq<InstrV>, k: int, syms: Seq<SymbolV>) -> Result<
    Seq<u8>,
    AsmErrV,
>
    decreases instrs.len() - k,
{
    if k < 0 || k >= instrs.len() {
        Result::Ok(Seq::empty())
    } else {
        match instr_bytes(instrs[k], syms) {
            Result::Err(e) => Result::Err(e),
            Result::Ok(b) => match program_bytes_from(instrs, k + 1, syms) {
                Result::Err(e) => Result::Err(e),
                Result::Ok(t) => Result::Ok(b + t),
            },
        }
    }
}

/// Whether a statement serializes to exactly one four-byte slot under
/// a given symbol table, as every ordinary instruction does.
pub open spec fn slot_sized(i: InstrV, syms: Seq<SymbolV>) -> bool {
    match instr_bytes(i, syms) {
        Result::Ok(b) => b.len() == 4,
        Result::Err(_) => false,
    }
}

/// The bytes a whole program serializes to.
pub open spec fn program_bytes(instrs: Seq<InstrV>, syms: Seq<SymbolV>) -> Result<
    Seq<u8>,
    AsmErrV,
> {
    program_bytes_from(instrs, 0, syms)
}

impl Program {
    /// Serializes every instruction, in program order, against a symbol
    /// table.
    pub fn to_bytes(&self, symbols: &SymbolTable) -> (r: Result<Vec<u8>, AssemblyError>)
        ensures
            match program_bytes(self@, symbols@) {
                Result::Ok(b) => r matches Result::Ok(v) && v@ == b,
                Result::Err(e) => r matches Result::Err(er) && er@ == e,
            },
    {
        let n = self.instructions.len();
        let mut acc: Vec<u8> = Vec::new();
        let mut i: usize = 0;
        proof {
            assert(Seq::<u8>::empty() + program_bytes_from(self@, 0, symbols@)->Ok_0 =~= program_bytes_from(self@, 0, symbols@)->Ok_0);
        }
        while i < n
            invariant
                i <= n,
                n == self.instructions.len(),
                match program_bytes_from(self@, i as int, symbols@) {
                    Result::Ok(t) => program_bytes(self@, symbols@) == Result::<Seq<u8>, AsmErrV>::Ok(acc@ + t),
                    Result::Err(e) => program_bytes(self@, symbols@) == Result::<Seq<u8>, AsmErrV>::Err(e),
                },
            decreases n - i,
        {
            let ghost pre = acc@;
            match self.instructions[i].to_bytes(symbols) {
                Result::Ok(mut b) => {
                    let ghost bseq = b@;
                    acc.append(&mut b);
                    proof {
                        if program_bytes_from(self@, i as int + 1, symbols@) is Ok {
                            let t = program_bytes_from(self@, i as int + 1, symbols@)->Ok_0;
                            assert(pre + (bseq + t) =~= (pre + bseq) + t);
                        }
                    }
                },
                Result::Err(e) => {
                    return Result::Err(e);
                },
            }
            i += 1;
        }
        proof {
            assert(acc@ + Seq::<u8>::empty() =~= acc@);
        }
        Result::Ok(acc)
    }
}

} // verus!
