use regvm::instruction::Opcode;
use regvm::lexer::{
    parse_directive, parse_integer_operand, parse_label_declaration, parse_label_usage,
    parse_opcode, parse_operand, parse_register, Token,
};
use regvm::parser::{parse_instruction, parse_program, AssemblerInstruction};
use regvm::symbols::SymbolTable;

#[test]
fn test_opcode_load() {
    // First tests that the opcode is detected and parsed correctly.
    let result = parse_opcode("load");
    assert_eq!(result.is_some(), true);
    let token = result.unwrap();
    assert_eq!(token, Token::Op { code: Opcode::LOAD });

    // An unknown mnemonic still lexes, as IGL.
    let result = parse_opcode("aold");
    assert_eq!(result.is_some(), true);
}

#[test]
fn test_parse_integer_operand() {
    // Test a valid integer operand.
    let result = parse_integer_operand("#10");
    assert_eq!(result.is_some(), true);
    let value = result.unwrap();
    assert_eq!(value, Token::IntegerOperand { value: 10 });

    // Test an invalid one (missing the #).
    let result = parse_integer_operand("10");
    assert_eq!(result.is_some(), false);
}

#[test]
fn test_opcode() {
    let result = parse_opcode("load");
    assert_eq!(result.is_some(), true);
    let token = result.unwrap();
    assert_eq!(token, Token::Op { code: Opcode::LOAD });
    let result = parse_opcode("aold");
    let token = result.unwrap();
    assert_eq!(token, Token::Op { code: Opcode::IGL });
    let result = parse_opcode("div");
    let token = result.unwrap();
    assert_eq!(token, Token::Op { code: Opcode::DIV });
}

#[test]
fn test_parse_instruction_form_one() {
    let result = parse_instruction("load $0 #100\n");
    assert_eq!(
        result,
        Some(AssemblerInstruction {
            opcode: Some(Token::Op { code: Opcode::LOAD }),
            label: None,
            directive: None,
            operand1: Some(Token::Register { reg_num: 0 }),
            operand2: Some(Token::IntegerOperand { value: 100 }),
            operand3: None,
        })
    );
}

#[test]
fn test_parse_instruction_form_two() {
    let result = parse_instruction("hlt");
    assert_eq!(
        result,
        Some(AssemblerInstruction {
            opcode: Some(Token::Op { code: Opcode::HLT }),
            label: None,
            directive: None,
            operand1: None,
            operand2: None,
            operand3: None,
        })
    );
}

#[test]
fn test_parse_instruction_form_three() {
    let result = parse_instruction("add $0 $1 $2\n");
    assert_eq!(
        result,
        Some(AssemblerInstruction {
            opcode: Some(Token::Op { code: Opcode::ADD }),
            label: None,
            directive: None,
            operand1: Some(Token::Register { reg_num: 0 }),
            operand2: Some(Token::Register { reg_num: 1 }),
            operand3: Some(Token::Register { reg_num: 2 }),
        })
    );
}

#[test]
fn test_parse_program() {
    let result = parse_program("load $0 #100\n");
    assert_eq!(result.is_ok(), true);
    let p = result.unwrap();
    assert_eq!(1, p.instructions.len());
}

#[test]
fn test_program_to_bytes() {
    let result = parse_program("load $0 #100\n");
    assert_eq!(result.is_ok(), true);
    let program = result.unwrap();
    let bytecode = program.to_bytes(&SymbolTable::new()).unwrap();
    assert_eq!(bytecode.len(), 4);
}

#[test]
fn test_parse_register() {
    assert_eq!(parse_register("$3"), Some(Token::Register { reg_num: 3 }));
    assert_eq!(parse_register("$255"), Some(Token::Register { reg_num: 255 }));
    assert_eq!(parse_register("$256"), None);
    assert_eq!(parse_register("3"), None);
    assert_eq!(parse_register("$"), None);
}

#[test]
fn test_parse_negative_integer() {
    assert_eq!(parse_integer_operand("#-5"), Some(Token::IntegerOperand { value: -5 }));
    assert_eq!(
        parse_integer_operand("#2147483647"),
        Some(Token::IntegerOperand { value: 2147483647 })
    );
    assert_eq!(parse_integer_operand("#2147483648"), None);
    assert_eq!(
        parse_integer_operand("#-2147483648"),
        Some(Token::IntegerOperand { value: -2147483648 })
    );
    assert_eq!(parse_integer_operand("#-2147483649"), None);
    assert_eq!(parse_integer_operand("#-"), None);
    assert_eq!(parse_integer_operand("#"), None);
}

#[test]
fn test_parse_label_forms() {
    assert_eq!(
        parse_label_declaration("start:"),
        Some(Token::LabelDeclaration { name: "start".to_string() })
    );
    assert_eq!(parse_label_declaration("start"), None);
    assert_eq!(
        parse_label_usage("@start"),
        Some(Token::LabelUsage { name: "start".to_string() })
    );
    assert_eq!(parse_label_usage("start"), None);
    assert_eq!(
        parse_directive(".data"),
        Some(Token::Directive { name: "data".to_string() })
    );
    assert_eq!(parse_directive("data"), None);
}

#[test]
fn test_parse_operand_order() {
    // The operand position accepts integers, registers, and label
    // references, told apart by their sigils.
    assert_eq!(parse_operand("#7"), Some(Token::IntegerOperand { value: 7 }));
    assert_eq!(parse_operand("$7"), Some(Token::Register { reg_num: 7 }));
    assert_eq!(parse_operand("@x"), Some(Token::LabelUsage { name: "x".to_string() }));
    assert_eq!(parse_operand("seven"), None);
}

#[test]
fn test_parse_labelled_instruction() {
    let result = parse_instruction("test: inc $0");
    assert_eq!(
        result,
        Some(AssemblerInstruction {
            opcode: Some(Token::Op { code: Opcode::INC }),
            label: Some(Token::LabelDeclaration { name: "test".to_string() }),
            directive: None,
            operand1: Some(Token::Register { reg_num: 0 }),
            operand2: None,
            operand3: None,
        })
    );
}

#[test]
fn test_parse_directive_statement() {
    let result = parse_instruction(".data");
    assert_eq!(
        result,
        Some(AssemblerInstruction {
            opcode: None,
            label: None,
            directive: Some(Token::Directive { name: "data".to_string() }),
            operand1: None,
            operand2: None,
            operand3: None,
        })
    );
}

#[test]
fn test_parse_rejects_bare_label_and_junk() {
    assert_eq!(parse_instruction("start:"), None);
    assert_eq!(parse_instruction("load $0 #1 $2 $3 $4"), None);
    assert_eq!(parse_instruction("123"), None);
    assert_eq!(parse_instruction(""), None);
    assert_eq!(parse_instruction("   \n"), None);
}
