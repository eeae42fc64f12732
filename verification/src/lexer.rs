//! Tokens of the assembly surface syntax, and the recognizers that turn
//! one whitespace-separated field of a source line into a token.
//!
//! Surface forms: `$N` is a register, `#N` (optionally signed) an integer
//! literal, `name:` a label declaration, `@name` a label reference,
//! `.name` a directive, and a bare alphabetic word an opcode mnemonic
//! (unrecognized mnemonics lex to `IGL` rather than failing).

use vstd::prelude::*;
use vstd::string::*;

use crate::instruction::Opcode;

verus! {

/// One lexical token of the assembly language.
#[derive(Debug, Clone)]
pub enum Token {
    Op { code: Opcode },
    Register { reg_num: u8 },
    IntegerOperand { value: i32 },
    LabelDeclaration { name: String },
    LabelUsage { name: String },
    Directive { name: String },
}

/// The mathematical shape of a token: names are plain character
/// sequences.
pub ghost enum TokenV {
    Op { code: Opcode },
    Register { reg_num: u8 },
    IntegerOperand { value: i32 },
    LabelDeclaration { name: Seq<char> },
    LabelUsage { name: Seq<char> },
    Directive { name: Seq<char> },
}

impl View for Token {
    type V = TokenV;

    open spec fn view(&self) -> TokenV {
        match self {
            Token::Op { code } => TokenV::Op { code: *code },
            Token::Register { reg_num } => TokenV::Register { reg_num: *reg_num },
            Token::IntegerOperand { value } => TokenV::IntegerOperand { value: *value },
            Token::LabelDeclaration { name } => TokenV::LabelDeclaration { name: name@ },
            Token::LabelUsage { name } => TokenV::LabelUsage { name: name@ },
            Token::Directive { name } => TokenV::Directive { name: name@ },
        }
    }
}

impl DeepView for Token {
    type V = TokenV;

    open spec fn deep_view(&self) -> TokenV {
        self.view()
    }
}

impl PartialEq for Token {
    fn eq(&self, other: &Token) -> (r: bool) {
        match (self, other) {
            (Token::Op { code: a }, Token::Op { code: b }) => *a == *b,
            (Token::Register { reg_num: a }, Token::Register { reg_num: b }) => *a == *b,
            (Token::IntegerOperand { value: a }, Token::IntegerOperand { value: b }) => *a == *b,
            (Token::LabelDeclaration { name: a }, Token::LabelDeclaration { name: b }) => a.eq(b),
            (Token::LabelUsage { name: a }, Token::LabelUsage { name: b }) => a.eq(b),
            (Token::Directive { name: a }, Token::Directive { name: b }) => a.eq(b),
            _ => false,
        }
    }
}

impl vstd::std_specs::cmp::PartialEqSpecImpl for Token {
    open spec fn obeys_eq_spec() -> bool {
        true
    }

    open spec fn eq_spec(&self, other: &Token) -> bool {
        self@ == other@
    }
}

// ---------------------------------------------------------------------
// Character classes
// ---------------------------------------------------------------------

pub open spec fn is_digit(c: char) -> bool {
    48 <= c as u32 && c as u32 <= 57
}

pub open spec fn digit_val(c: char) -> int {
    c as u32 as int - 48
}

pub open spec fn is_alpha(c: char) -> bool {
    (65 <= c as u32 && c as u32 <= 90) || (97 <= c as u32 && c as u32 <= 122)
}

pub open spec fn is_ident_char(c: char) -> bool {
    is_alpha(c) || is_digit(c) || c as u32 == 95
}

pub open spec fn is_space(c: char) -> bool {
    c == ' ' || c == '\t' || c == '\r' || c == '\n'
}

pub open spec fn all_digits(s: Seq<char>) -> bool {
    forall|i: int| 0 <= i < s.len() ==> is_digit(#[trigger] s[i])
}

pub open spec fn all_alpha(s: Seq<char>) -> bool {
    forall|i: int| 0 <= i < s.len() ==> is_alpha(#[trigger] s[i])
}

pub open spec fn all_ident(s: Seq<char>) -> bool {
    forall|i: int| 0 <= i < s.len() ==> is_ident_char(#[trigger] s[i])
}

fn is_space_char(c: char) -> (r: bool)
    ensures
        r == is_space(c),
{
    c == ' ' || c == '\t' || c == '\r' || c == '\n'
}

// ---------------------------------------------------------------------
// Decimal digit strings
// ---------------------------------------------------------------------

/// The number a digit string denotes, most significant digit first.
pub open spec fn digits_val(s: Seq<char>) -> int
    decreases s.len(),
{
    if s.len() == 0 {
        0
    } else {
        10 * digits_val(s.drop_last()) + digit_val(s.last())
    }
}

pub proof fn lemma_digits_val_nonneg(s: Seq<char>)
    requires
        all_digits(s),
    ensures
        digits_val(s) >= 0,
    decreases s.len(),
{
    if s.len() > 0 {
        assert forall|i: int| 0 <= i < s.drop_last().len() implies is_digit(
            #[trigger] s.drop_last()[i],
        ) by {
            assert(s.drop_last()[i] == s[i]);
        }
        lemma_digits_val_nonneg(s.drop_last());
        assert(is_digit(s.last()));
    }
}

/// Reads a digit string, reporting values above `0x8000_0000` only as
/// "too large" so that overflow never occurs while scanning.
fn parse_digits(s: &str) -> (r: Option<u64>)
    ensures
        match r {
            Option::None => !(s@.len() > 0 && all_digits(s@)),
            Option::Some(v) => {
                &&& s@.len() > 0
                &&& all_digits(s@)
                &&& digits_val(s@) <= 0x8000_0000 ==> v == digits_val(s@)
                &&& digits_val(s@) > 0x8000_0000 ==> v > 0x8000_0000
            },
        },
    decreases s@.len(),
{
    let n = s.unicode_len();
    if n == 0 {
        return Option::None;
    }
    let c = s.get_char(n - 1);
    let u = c as u32;
    if u < 48 || u > 57 {
        proof {
            assert(s@.last() == s@[n - 1]);
            assert(!is_digit(s@[n - 1]));
        }
        return Option::None;
    }
    let d = (u - 48) as u64;
    if n == 1 {
        proof {
            assert(s@.drop_last() =~= Seq::<char>::empty());
            assert(digits_val(Seq::<char>::empty()) == 0);
            assert(digits_val(s@) == 10 * digits_val(s@.drop_last()) + digit_val(s@.last()));
            assert forall|i: int| 0 <= i < s@.len() implies is_digit(#[trigger] s@[i]) by {
                assert(s@[i] == s@.last());
            }
        }
        Option::Some(d)
    } else {
        let prefix = s.substring_char(0, n - 1);
        proof {
            assert(prefix@ =~= s@.drop_last());
        }
        match parse_digits(prefix) {
            Option::None => {
                proof {
                    if all_digits(s@) {
                        assert forall|i: int| 0 <= i < prefix@.len() implies is_digit(
                            #[trigger] prefix@[i],
                        ) by {
                            assert(prefix@[i] == s@[i]);
                        }
                        assert(false);
                    }
                }
                Option::None
            },
            Option::Some(p) => {
                let v = if p > 0x8000_0000 {
                    p
                } else {
                    10 * p + d
                };
                proof {
                    assert forall|i: int| 0 <= i < s@.len() implies is_digit(#[trigger] s@[i]) by {
                        if i < n - 1 {
                            assert(s@[i] == prefix@[i]);
                        } else {
                            assert(s@[i] == s@.last());
                        }
                    }
                    lemma_digits_val_nonneg(prefix@);
                    assert(digits_val(s@) == 10 * digits_val(prefix@) + digit_val(s@.last()));
                }
                Option::Some(v)
            },
        }
    }
}

// ---------------------------------------------------------------------
// String utilities
// ---------------------------------------------------------------------

/// Character-for-character string comparison.
pub fn str_eq(a: &str, b: &str) -> (r: bool)
    ensures
        r == (a@ == b@),
{
    let na = a.unicode_len();
    let nb = b.unicode_len();
    if na != nb {
        return false;
    }
    let mut i: usize = 0;
    while i < na
        invariant
            i <= na,
            na == a@.len(),
            na == b@.len(),
            forall|j: int| 0 <= j < i ==> a@[j] == b@[j],
        decreases na - i,
    {
        if a.get_char(i) != b.get_char(i) {
            return false;
        }
        i += 1;
    }
    proof {
        assert(a@ =~= b@);
    }
    true
}

// ---------------------------------------------------------------------
// Whitespace-separated fields
// ---------------------------------------------------------------------

/// Length of the leading run of non-space characters.
pub open spec fn field_end(s: Seq<char>) -> int
    decreases s.len(),
{
    if s.len() == 0 {
        0
    } else if is_space(s[0]) {
        0
    } else {
        1 + field_end(s.skip(1))
    }
}

pub proof fn lemma_field_end_bounds(s: Seq<char>)
    ensures
        0 <= field_end(s) <= s.len(),
    decreases s.len(),
{
    if s.len() > 0 && !is_space(s[0]) {
        lemma_field_end_bounds(s.skip(1));
    }
}

/// The whitespace-separated fields of a line, in order.
pub open spec fn fields_of(s: Seq<char>) -> Seq<Seq<char>>
    decreases s.len(),
    via fields_of_dec
{
    if s.len() == 0 {
        Seq::empty()
    } else if is_space(s[0]) {
        fields_of(s.skip(1))
    } else {
        seq![s.take(field_end(s))] + fields_of(s.skip(field_end(s)))
    }
}

#[via_fn]
proof fn fields_of_dec(s: Seq<char>) {
    if s.len() > 0 && !is_space(s[0]) {
        lemma_field_end_bounds(s.skip(1));
    }
}

fn field_end_exec(s: &str) -> (r: usize)
    ensures
        r as int == field_end(s@),
        r <= s@.len(),
    decreases s@.len(),
{
    let n = s.unicode_len();
    if n == 0 {
        0
    } else if is_space_char(s.get_char(0)) {
        0
    } else {
        let rest = s.substring_char(1, n);
        proof {
            assert(rest@ =~= s@.skip(1));
        }
        1 + field_end_exec(rest)
    }
}

/// Splits a line into its whitespace-separated fields.
pub fn split_fields<'a>(s: &'a str) -> (r: Vec<&'a str>)
    ensures
        r@.map_values(|f: &'a str| f@) == fields_of(s@),
    decreases s@.len(),
{
    let n = s.unicode_len();
    if n == 0 {
        let r: Vec<&'a str> = Vec::new();
        proof {
            assert(r@.map_values(|f: &'a str| f@) =~= fields_of(s@));
        }
        r
    } else if is_space_char(s.get_char(0)) {
        let rest = s.substring_char(1, n);
        proof {
            assert(rest@ =~= s@.skip(1));
        }
        split_fields(rest)
    } else {
        let e = field_end_exec(s);
        let head = s.substring_char(0, e);
        let tail = s.substring_char(e, n);
        proof {
            lemma_field_end_bounds(s@.skip(1));
            assert(field_end(s@) == 1 + field_end(s@.skip(1)));
            assert(head@ =~= s@.take(field_end(s@)));
            assert(tail@ =~= s@.skip(field_end(s@)));
        }
        let mut r: Vec<&'a str> = Vec::new();
        r.push(head);
        let mut rest_fields = split_fields(tail);
        let ghost rest_map = rest_fields@.map_values(|f: &'a str| f@);
        r.append(&mut rest_fields);
        proof {
            assert(r@.map_values(|f: &'a str| f@) =~= seq![head@] + rest_map);
        }
        r
    }
}

// ---------------------------------------------------------------------
// Opcode mnemonics
// ---------------------------------------------------------------------

/// The opcode a mnemonic names; every unknown mnemonic maps to `IGL`.
pub open spec fn opcode_of_mnemonic(s: Seq<char>) -> Opcode {
    if s == "load"@ {
        Opcode::LOAD
    } else if s == "add"@ {
        Opcode::ADD
    } else if s == "sub"@ {
        Opcode::SUB
    } else if s == "mul"@ {
        Opcode::MUL
    } else if s == "div"@ {
        Opcode::DIV
    } else if s == "hlt"@ {
        Opcode::HLT
    } else if s == "jmp"@ {
        Opcode::JMP
    } else if s == "jmpf"@ {
        Opcode::JMPF
    } else if s == "jmpb"@ {
        Opcode::JMPB
    } else if s == "eq"@ {
        Opcode::EQ
    } else if s == "neq"@ {
        Opcode::NEQ
    } else if s == "gte"@ {
        Opcode::GTQ
    } else if s == "gt"@ {
        Opcode::GT
    } else if s == "lte"@ {
        Opcode::LTQ
    } else if s == "lt"@ {
        Opcode::LT
    } else if s == "jmpe"@ {
        Opcode::JEQ
    } else if s == "nop"@ {
        Opcode::NOP
    } else if s == "aloc"@ {
        Opcode::ALOC
    } else if s == "inc"@ {
        Opcode::INC
    } else if s == "dec"@ {
        Opcode::DEC
    } else {
        Opcode::IGL
    }
}

/// Looks a mnemonic up in the instruction table.
pub fn opcode_for_mnemonic(s: &str) -> (op: Opcode)
    ensures
        op == opcode_of_mnemonic(s@),
{
    if str_eq(s, "load") {
        Opcode::LOAD
    } else if str_eq(s, "add") {
        Opcode::ADD
    } else if str_eq(s, "sub") {
        Opcode::SUB
    } else if str_eq(s, "mul") {
        Opcode::MUL
    } else if str_eq(s, "div") {
        Opcode::DIV
    } else if str_eq(s, "hlt") {
        Opcode::HLT
    } else if str_eq(s, "jmp") {
        Opcode::JMP
    } else if str_eq(s, "jmpf") {
        Opcode::JMPF
    } else if str_eq(s, "jmpb") {
        Opcode::JMPB
    } else if str_eq(s, "eq") {
        Opcode::EQ
    } else if str_eq(s, "neq") {
        Opcode::NEQ
    } else if str_eq(s, "gte") {
        Opcode::GTQ
    } else if str_eq(s, "gt") {
        Opcode::GT
    } else if str_eq(s, "lte") {
        Opcode::LTQ
    } else if str_eq(s, "lt") {
        Opcode::LT
    } else if str_eq(s, "jmpe") {
        Opcode::JEQ
    } else if str_eq(s, "nop") {
        Opcode::NOP
    } else if str_eq(s, "aloc") {
        Opcode::ALOC
    } else if str_eq(s, "inc") {
        Opcode::INC
    } else if str_eq(s, "dec") {
        Opcode::DEC
    } else {
        Opcode::IGL
    }
}

// ---------------------------------------------------------------------
// Token recognizers, one per surface form
// ---------------------------------------------------------------------

/// An opcode field: a non-empty, all-alphabetic word.
pub open spec fn opcode_token(f: Seq<char>) -> Option<TokenV> {
    if f.len() > 0 && all_alpha(f) {
        Option::Some(TokenV::Op { code: opcode_of_mnemonic(f) })
    } else {
        Option::None
    }
}

/// An integer operand: `#`, an optional minus sign, then digits, with
/// the value held to 32 signed bits.
pub open spec fn int_operand_token(f: Seq<char>) -> Option<TokenV> {
    if f.len() >= 2 && f[0] == '#' {
        let t = f.skip(1);
        if all_digits(t) {
            if digits_val(t) <= 0x7FFF_FFFF {
                Option::Some(TokenV::IntegerOperand { value: digits_val(t) as i32 })
            } else {
                Option::None
            }
        } else if t[0] == '-' && t.len() >= 2 && all_digits(t.skip(1)) {
            if digits_val(t.skip(1)) <= 0x8000_0000 {
                Option::Some(TokenV::IntegerOperand { value: (-digits_val(t.skip(1))) as i32 })
            } else {
                Option::None
            }
        } else {
            Option::None
        }
    } else {
        Option::None
    }
}

/// A register operand: `$` then digits, with the index held to 8 bits.
pub open spec fn register_token(f: Seq<char>) -> Option<TokenV> {
    if f.len() >= 2 && f[0] == '$' && all_digits(f.skip(1)) && digits_val(f.skip(1)) <= 255 {
        Option::Some(TokenV::Register { reg_num: digits_val(f.skip(1)) as u8 })
    } else {
        Option::None
    }
}

/// A label declaration: an identifier followed by `:`.
pub open spec fn label_decl_token(f: Seq<char>) -> Option<TokenV> {
    if f.len() >= 2 && f.last() == ':' && all_ident(f.drop_last()) {
        Option::Some(TokenV::LabelDeclaration { name: f.drop_last() })
    } else {
        Option::None
    }
}

/// A label reference: `@` then an identifier.
pub open spec fn label_usage_token(f: Seq<char>) -> Option<TokenV> {
    if f.len() >= 2 && f[0] == '@' && all_ident(f.skip(1)) {
        Option::Some(TokenV::LabelUsage { name: f.skip(1) })
    } else {
        Option::None
    }
}

/// A directive: `.` then its name, taken without further validation.
pub open spec fn directive_token(f: Seq<char>) -> Option<TokenV> {
    if f.len() >= 2 && f[0] == '.' {
        Option::Some(TokenV::Directive { name: f.skip(1) })
    } else {
        Option::None
    }
}

/// What a field in operand position denotes: an integer literal, a
/// register, or a label reference, told apart by their sigils.
pub open spec fn operand_token(f: Seq<char>) -> Option<TokenV> {
    if f.len() == 0 {
        Option::None
    } else if f[0] == '#' {
        int_operand_token(f)
    } else if f[0] == '$' {
        register_token(f)
    } else if f[0] == '@' {
        label_usage_token(f)
    } else {
        Option::None
    }
}

fn all_alpha_exec(f: &str) -> (r: bool)
    ensures
        r == (f@.len() > 0 && all_alpha(f@)),
{
    let n = f.unicode_len();
    if n == 0 {
        return false;
    }
    let mut i: usize = 0;
    while i < n
        invariant
            i <= n,
            n == f@.len(),
            forall|j: int| 0 <= j < i ==> is_alpha(#[trigger] f@[j]),
        decreases n - i,
    {
        let u = f.get_char(i) as u32;
        if !((65 <= u && u <= 90) || (97 <= u && u <= 122)) {
            return false;
        }
        i += 1;
    }
    true
}

fn all_ident_exec(f: &str) -> (r: bool)
    ensures
        r == (f@.len() > 0 && all_ident(f@)),
{
    let n = f.unicode_len();
    if n == 0 {
        return false;
    }
    let mut i: usize = 0;
    while i < n
        invariant
            i <= n,
            n == f@.len(),
            forall|j: int| 0 <= j < i ==> is_ident_char(#[trigger] f@[j]),
        decreases n - i,
    {
        let u = f.get_char(i) as u32;
        if !((65 <= u && u <= 90) || (97 <= u && u <= 122) || (48 <= u && u <= 57) || u == 95) {
            return false;
        }
        i += 1;
    }
    true
}

/// Recognizes an opcode mnemonic field.
pub fn parse_opcode(f: &str) -> (r: Option<Token>)
    ensures
        r.deep_view() == opcode_token(f@),
{
    if all_alpha_exec(f) {
        Option::Some(Token::Op { code: opcode_for_mnemonic(f) })
    } else {
        Option::None
    }
}

/// Recognizes an integer operand field such as `#100` or `#-7`.
pub fn parse_integer_operand(f: &str) -> (r: Option<Token>)
    ensures
        r.deep_view() == int_operand_token(f@),
{
    let n = f.unicode_len();
    if n < 2 || f.get_char(0) != '#' {
        return Option::None;
    }
    let t = f.substring_char(1, n);
    proof {
        assert(t@ =~= f@.skip(1));
    }
    let neg = t.get_char(0) == '-';
    if neg {
        if n < 3 {
            return Option::None;
        }
        let digits = f.substring_char(2, n);
        proof {
            assert(digits@ =~= t@.skip(1));
            if all_digits(t@) {
                assert(is_digit(t@[0]));
                assert(false);
            }
        }
        match parse_digits(digits) {
            Option::None => Option::None,
            Option::Some(v) => {
                if v <= 0x8000_0000 {
                    let value: i32 = if v == 0x8000_0000 {
                        i32::MIN
                    } else {
                        -(v as i32)
                    };
                    Option::Some(Token::IntegerOperand { value })
                } else {
                    Option::None
                }
            },
        }
    } else {
        match parse_digits(t) {
            Option::None => Option::None,
            Option::Some(v) => {
                if v <= 0x7FFFFFFF {
                    Option::Some(Token::IntegerOperand { value: v as i32 })
                } else {
                    proof {
                        if digits_val(t@) <= 0x7FFFFFFF {
                            assert(v == digits_val(t@));
                        }
                    }
                    Option::None
                }
            },
        }
    }
}

/// Recognizes a register operand field such as `$3`.
pub fn parse_register(f: &str) -> (r: Option<Token>)
    ensures
        r.deep_view() == register_token(f@),
{
    let n = f.unicode_len();
    if n < 2 || f.get_char(0) != '$' {
        return Option::None;
    }
    let t = f.substring_char(1, n);
    proof {
        assert(t@ =~= f@.skip(1));
    }
    match parse_digits(t) {
        Option::None => Option::None,
        Option::Some(v) => {
            if v <= 255 {
                Option::Some(Token::Register { reg_num: v as u8 })
            } else {
                proof {
                    if digits_val(t@) <= 255 {
                        assert(v == digits_val(t@));
                    }
                }
                Option::None
            }
        },
    }
}

/// Recognizes a label declaration field such as `start:`.
pub fn parse_label_declaration(f: &str) -> (r: Option<Token>)
    ensures
        r.deep_view() == label_decl_token(f@),
{
    let n = f.unicode_len();
    if n < 2 || f.get_char(n - 1) != ':' {
        return Option::None;
    }
    let head = f.substring_char(0, n - 1);
    proof {
        assert(head@ =~= f@.drop_last());
    }
    if all_ident_exec(head) {
        Option::Some(Token::LabelDeclaration { name: String::from_str(head) })
    } else {
        Option::None
    }
}

/// Recognizes a label reference field such as `@start`.
pub fn parse_label_usage(f: &str) -> (r: Option<Token>)
    ensures
        r.deep_view() == label_usage_token(f@),
{
    let n = f.unicode_len();
    if n < 2 || f.get_char(0) != '@' {
        return Option::None;
    }
    let t = f.substring_char(1, n);
    proof {
        assert(t@ =~= f@.skip(1));
    }
    if all_ident_exec(t) {
        Option::Some(Token::LabelUsage { name: String::from_str(t) })
    } else {
        Option::None
    }
}

/// Recognizes a directive field such as `.data`.
pub fn parse_directive(f: &str) -> (r: Option<Token>)
    ensures
        r.deep_view() == directive_token(f@),
{
    let n = f.unicode_len();
    if n < 2 || f.get_char(0) != '.' {
        return Option::None;
    }
    let t = f.substring_char(1, n);
    proof {
        assert(t@ =~= f@.skip(1));
    }
    Option::Some(Token::Directive { name: String::from_str(t) })
}

/// Recognizes a field in operand position; integer literals are tried
/// before registers, then label references.
pub fn parse_operand(f: &str) -> (r: Option<Token>)
    ensures
        r.deep_view() == operand_token(f@),
{
    let n = f.unicode_len();
    if n == 0 {
        return Option::None;
    }
    let c = f.get_char(0);
    if c == '#' {
        parse_integer_operand(f)
    } else if c == '$' {
        parse_register(f)
    } else if c == '@' {
        parse_label_usage(f)
    } else {
        Option::None
    }
}

} // verus!
