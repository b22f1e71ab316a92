//! The assembler: tokens, operands, lines, labels and diagnostics.
use dcpu::assembler;
use dcpu::assembler::assemble;
use dcpu::assembler::AssemblerContext;
use dcpu::assembler::BasicInstructionComponents;
use dcpu::assembler::LineResult;
use dcpu::assembler::SpecialInstructionComponents;
use dcpu::instruction::Instruction;
use dcpu::literal;
use dcpu::op::BasicOp;
use dcpu::op::SpecialOp;
use dcpu::register;
use dcpu::register::Register;

fn chars(s: &str) -> Vec<char> {
    s.chars().collect()
}

fn operand(token: &str) -> Result<assembler::ValType, String> {
    assembler::get_val_type(&chars(token))
}

fn label(name: &str) -> Vec<char> {
    chars(name)
}

fn tokens(line: &str) -> Vec<String> {
    let line = chars(line);
    assembler::tokenize(&line).iter().map(|t| t.iter().collect()).collect()
}

fn errors(source: &str) -> Vec<String> {
    assemble(source).unwrap_err()
}

#[test]
fn registers_by_name() {
    assert_eq!(register::try_from("A"), Some(Register::A));
    assert_eq!(register::try_from("B"), Some(Register::B));
    assert_eq!(register::try_from("C"), Some(Register::C));
    assert_eq!(register::try_from("X"), Some(Register::X));
    assert_eq!(register::try_from("Y"), Some(Register::Y));
    assert_eq!(register::try_from("Z"), Some(Register::Z));
    assert_eq!(register::try_from("I"), Some(Register::I));
    assert_eq!(register::try_from("J"), Some(Register::J));
    assert_eq!(register::try_from("j"), Some(Register::J));
    assert_eq!(register::try_from("D"), None);
    assert_eq!(register::try_from("AB"), None);
    assert_eq!(register::try_from(""), None);
    let all = [
        Register::A,
        Register::B,
        Register::C,
        Register::X,
        Register::Y,
        Register::Z,
        Register::I,
        Register::J,
    ];
    for (i, r) in all.iter().enumerate() {
        assert_eq!(r.index() as usize, i);
    }
}

#[test]
fn literals_in_decimal_and_hexadecimal() {
    assert_eq!(literal::try_from("0"), Some(0));
    assert_eq!(literal::try_from("007"), Some(7));
    assert_eq!(literal::try_from("65535"), Some(0xffff));
    assert_eq!(literal::try_from("65536"), None);
    assert_eq!(literal::try_from("99999999999999999999"), None);
    assert_eq!(literal::try_from("0x0"), Some(0));
    assert_eq!(literal::try_from("0x30"), Some(0x30));
    assert_eq!(literal::try_from("0xffff"), Some(0xffff));
    assert_eq!(literal::try_from("0xFfFf"), Some(0xffff));
    assert_eq!(literal::try_from("0x0000ffff"), Some(0xffff));
    assert_eq!(literal::try_from("0x10000"), None);
    assert_eq!(literal::try_from("0x"), None);
    assert_eq!(literal::try_from("0xg"), None);
    assert_eq!(literal::try_from("x10"), None);
    assert_eq!(literal::try_from("zz10"), None);
    assert_eq!(literal::try_from("10a"), None);
    assert_eq!(literal::try_from("ff"), None);
    assert_eq!(literal::try_from("+5"), None);
    assert_eq!(literal::try_from("-1"), None);
    assert_eq!(literal::try_from(""), None);
    assert_eq!(literal::try_from("1 "), None);
}

#[test]
fn lines_split_into_tokens() {
    assert_eq!(tokens("SET A, 0x30"), vec!["SET", "A", ",", "0x30"]);
    assert_eq!(tokens("  SET   A ,0x30  "), vec!["SET", "A", ",", "0x30"]);
    assert_eq!(tokens("SET\tA,B\r"), vec!["SET", "A", ",", "B"]);
    assert_eq!(tokens(",,a"), vec![",", ",", "a"]);
    assert_eq!(tokens(""), Vec::<String>::new());
    assert_eq!(tokens("   "), Vec::<String>::new());
    assert_eq!(tokens("DAT \"a b, c\", 5"), vec!["DAT", "\"a b, c\"", ",", "5"]);
    assert_eq!(tokens("\"ab\"cd"), vec!["\"ab\"", "cd"]);
    assert_eq!(tokens("ab\"c d\""), vec!["ab\"c", "d\""]);
    assert_eq!(tokens("\"open, to the end"), vec!["\"open, to the end"]);
    assert_eq!(tokens("[0x10+A],B"), vec!["[0x10+A]", ",", "B"]);
}

#[test]
fn plain_operands() {
    assert_eq!(operand("A"), Ok(assembler::ValType::Register(0)));
    assert_eq!(operand("j"), Ok(assembler::ValType::Register(7)));
    assert_eq!(operand("PC"), Ok(assembler::ValType::ProgramCounter));
    assert_eq!(operand("sp"), Ok(assembler::ValType::StackPointer));
    assert_eq!(operand("EX"), Ok(assembler::ValType::Extra));
    assert_eq!(operand("PUSH"), Ok(assembler::ValType::Push));
    assert_eq!(operand("POP"), Ok(assembler::ValType::Pop));
    assert_eq!(operand("PEEK"), Ok(assembler::ValType::Peek));
    assert_eq!(operand("PICK"), Ok(assembler::ValType::Pick));
    assert_eq!(operand("0"), Ok(assembler::ValType::Literal(0)));
    assert_eq!(operand("30"), Ok(assembler::ValType::Literal(30)));
    assert_eq!(operand("31"), Ok(assembler::ValType::NextWord(31)));
    assert_eq!(operand("0xffff"), Ok(assembler::ValType::Literal(0xffff)));
    assert_eq!(operand("0xfffe"), Ok(assembler::ValType::NextWord(0xfffe)));
    assert_eq!(operand("loop"), Ok(assembler::ValType::Label(label("loop"))));
    assert_eq!(operand("99999"), Ok(assembler::ValType::Label(label("99999"))));
}

#[test]
fn bracketed_operands() {
    assert_eq!(operand("[A]"), Ok(assembler::ValType::RegisterDeref(0)));
    assert_eq!(operand("[0x1000]"), Ok(assembler::ValType::NextWordDeref(0x1000)));
    assert_eq!(operand("[5]"), Ok(assembler::ValType::NextWordDeref(5)));
    assert_eq!(operand("[data]"), Ok(assembler::ValType::LabelDeref(label("data"))));
    assert_eq!(operand("[0x9002+B]"), Ok(assembler::ValType::NextWordRegisterDeref(0x9002, 1)));
    assert_eq!(operand("[B+0x9002]"), Ok(assembler::ValType::NextWordRegisterDeref(0x9002, 1)));
    assert_eq!(operand("[data+I]"), Ok(assembler::ValType::LabelRegisterDeref(label("data"), 6)));
    assert_eq!(operand("[I+data]"), Ok(assembler::ValType::LabelRegisterDeref(label("data"), 6)));
    assert_eq!(operand("[data+2]"), Ok(assembler::ValType::LabelNextWordDeref(label("data"), 2)));
    assert_eq!(operand("[2+data]"), Ok(assembler::ValType::LabelNextWordDeref(label("data"), 2)));
    assert_eq!(operand("[]"), Ok(assembler::ValType::LabelDeref(label(""))));
}

#[test]
fn operand_faults() {
    assert_eq!(operand("[PC]"), Err(String::from("Can't dereference \"PC\"")));
    assert_eq!(operand("[PUSH]"), Err(String::from("Can't dereference \"PUSH\"")));
    assert_eq!(operand("[A+B+1]"), Err(String::from("Only one \"+\" allowed inside brackets")));
    assert_eq!(operand("A+1"), Err(String::from("Must dereference addition expressions")));
    assert_eq!(operand("[A+B]"), Err(String::from("Improperly formatted addition expression \"A+B\"")));
    assert_eq!(operand("[1+2]"), Err(String::from("Improperly formatted addition expression \"1+2\"")));
    assert_eq!(operand("[PC+1]"), Err(String::from("Improperly formatted addition expression \"PC+1\"")));
    assert_eq!(
        assembler::get_base_type(&chars("a+b")),
        Err(String::from("Invalid syntax \"a+b\""))
    );
}

#[test]
fn words_of_operands() {
    assert_eq!(operand("A").unwrap().num_words(), 0);
    assert_eq!(operand("[A]").unwrap().num_words(), 0);
    assert_eq!(operand("30").unwrap().num_words(), 0);
    assert_eq!(operand("31").unwrap().num_words(), 1);
    assert_eq!(operand("[3]").unwrap().num_words(), 1);
    assert_eq!(operand("[3+A]").unwrap().num_words(), 1);
    assert_eq!(operand("l").unwrap().num_words(), 1);
    assert_eq!(operand("[l]").unwrap().num_words(), 1);
    assert_eq!(operand("[l+A]").unwrap().num_words(), 1);
    assert_eq!(operand("[l+1]").unwrap().num_words(), 1);
    assert_eq!(operand("PICK").unwrap().num_words(), 1);
    assert_eq!(operand("PEEK").unwrap().num_words(), 0);
}

#[test]
fn instructions_assemble_to_their_words() {
    assert_eq!(assemble("SET A, 0x30"), Ok(vec![0x7c01, 0x0030]));
    assert_eq!(assemble("SET A, 1"), Ok(vec![0x8801]));
    assert_eq!(assemble("SET A, 0xffff"), Ok(vec![0x8001]));
    assert_eq!(assemble("SET A, 30"), Ok(vec![0xfc01]));
    assert_eq!(assemble("SET A, 31"), Ok(vec![0x7c01, 31]));
    assert_eq!(assemble("IFE A, 5"), Ok(vec![0x9812]));
    assert_eq!(assemble(":finish SET PC, finish"), Ok(vec![0x7f81, 0]));
    assert_eq!(assemble("SET [0x1000], 0x20"), Ok(vec![0x7fc1, 0x1000, 0x20]));
    assert_eq!(assemble("SET [0x10+A], [0x20+B]"), Ok(vec![0x4601, 0x10, 0x20]));
    assert_eq!(assemble("SET PUSH, POP"), Ok(vec![0x6301]));
    assert_eq!(assemble("JSR 0x100"), Ok(vec![0x7c20, 0x100]));
    assert_eq!(assemble("IAS A"), Ok(vec![0x0140]));
    assert_eq!(assemble("hwn B"), Ok(vec![0x0600]));
    assert_eq!(assemble("SET A, PICK"), Ok(vec![0x6801, 0]));
    assert_eq!(assemble(""), Ok(vec![]));
    assert_eq!(assemble("\n\n  ; nothing\n"), Ok(vec![]));
}

#[test]
fn assembled_words_decode_to_the_instruction() {
    let program = assemble("ADD [0x10+X], 0x1234").unwrap();
    assert_eq!(program.len(), 3);
    let instr = Instruction::new(program[0]);
    assert_eq!(instr.num_words(), 3);
    assert_eq!(instr.encode(), program[0]);
    assert_eq!(program[1], 0x10);
    assert_eq!(program[2], 0x1234);
}

#[test]
fn data_lines() {
    assert_eq!(assemble("DAT 0x10, \"Hi\", 5"), Ok(vec![0x10, 0x48, 0x69, 5]));
    assert_eq!(assemble("DAT \"a b\""), Ok(vec![0x61, 0x20, 0x62]));
    assert_eq!(assemble("dat 1 2"), Ok(vec![12]));
    assert_eq!(assemble("DAT 1,"), Ok(vec![1]));
    assert_eq!(assemble("DAT"), Ok(vec![]));
    assert_eq!(assemble("DAT \"\""), Ok(vec![]));
    assert_eq!(assemble("DAT \" ~\""), Ok(vec![0x20, 0x7e]));
    assert_eq!(assemble("DAT 65535, 0"), Ok(vec![0xffff, 0]));
    assert_eq!(errors("DAT foo"), vec!["Line 0: Unrecognized data format \"foo\""]);
    assert_eq!(errors("DAT 1,,2"), vec!["Line 0: Unrecognized data format \"\""]);
    assert_eq!(errors("DAT \"a,b\""), vec!["Line 0: Unrecognized data format \"\"a\""]);
    assert_eq!(errors("DAT \""), vec!["Line 0: Unrecognized data format \"\"\""]);
    assert_eq!(errors("DAT \"abc"), vec!["Line 0: Unrecognized data format \"\"abc\""]);
    assert_eq!(errors("DAT \"a\tb\""), vec!["Line 0: Byte 9 out of range for string literal"]);
    assert_eq!(errors("DAT \"a\u{7f}\""), vec!["Line 0: Byte 127 out of range for string literal"]);
    assert_eq!(errors("DAT \"\u{e9}\""), vec!["Line 0: Byte 195 out of range for string literal"]);
    assert_eq!(errors("DAT \"\u{20ac}\""), vec!["Line 0: Byte 226 out of range for string literal"]);
    assert_eq!(errors("DAT \"\u{1f600}\""), vec!["Line 0: Byte 240 out of range for string literal"]);
    assert_eq!(errors("DAT 1, \"\u{1}\", foo"), vec!["Line 0: Byte 1 out of range for string literal"]);
}

#[test]
fn every_diagnostic() {
    assert_eq!(errors("FOO A, 1"), vec!["Line 0: Expected an op name; got \"FOO\""]);
    assert_eq!(errors("SET"), vec!["Line 0: Incomplete line"]);
    assert_eq!(errors("SET A"), vec!["Line 0: Incomplete line"]);
    assert_eq!(errors("SET A,"), vec!["Line 0: Incomplete line"]);
    assert_eq!(errors("SET A 1"), vec!["Line 0: Expected comma; got \"1\""]);
    assert_eq!(errors("SET A, 1 2"), vec!["Line 0: Expected line to end; got \"2\""]);
    assert_eq!(errors("SET [PC], 1"), vec!["Line 0: Can't dereference \"PC\""]);
    assert_eq!(errors("SET A, [PC]"), vec!["Line 0: Can't dereference \"PC\""]);
    assert_eq!(errors("SET [A+B+1], 1"), vec!["Line 0: Only one \"+\" allowed inside brackets"]);
    assert_eq!(errors("SET A+1, 1"), vec!["Line 0: Must dereference addition expressions"]);
    assert_eq!(errors("SET [A+B], 1"), vec!["Line 0: Improperly formatted addition expression \"A+B\""]);
    assert_eq!(errors(":a\n:a"), vec!["Line 1: Label \"a\" already exists"]);
    assert_eq!(errors("SET A, nolabel"), vec!["Line 0: No label \"nolabel\" found"]);
    assert_eq!(errors("JSR"), vec!["Line 0: Incomplete line"]);
    assert_eq!(errors("JSR [PC]"), vec!["Line 0: Can't dereference \"PC\""]);
    assert_eq!(errors("JSR A, B"), vec!["Line 0: Expected line to end; got \",\""]);
    assert_eq!(
        errors("SET lbl, 1"),
        vec!["Line 0: Can't have labels as lvalues", "Line 0: Incomplete line"]
    );
    assert_eq!(
        errors("SET lbl 1"),
        vec!["Line 0: Can't have labels as lvalues", "Line 0: Expected comma; got \"1\""]
    );
}

#[test]
fn a_known_label_ends_its_line() {
    // The second definition is the line's one fault; what follows it on
    // the line is not read.
    assert_eq!(errors(":a SET A, 1\n:a FOO"), vec!["Line 1: Label \"a\" already exists"]);
}

#[test]
fn three_faults_give_three_diagnostics() {
    let source = "SET A, 1\nFOO A, 1\nSET B, 2\nSET A\nSET A, [PC]\nSET C, 3\n";
    assert_eq!(
        assemble(source),
        Err(vec![
            String::from("Line 1: Expected an op name; got \"FOO\""),
            String::from("Line 3: Incomplete line"),
            String::from("Line 4: Can't dereference \"PC\""),
        ])
    );
}

#[test]
fn line_numbers_have_all_their_digits() {
    let mut source = String::new();
    for _ in 0..1234 {
        source.push_str("SET A, 1\n");
    }
    source.push_str("SET");
    assert_eq!(errors(&source), vec!["Line 1234: Incomplete line"]);
}

#[test]
fn the_second_pass_stops_at_the_first_missing_label() {
    assert_eq!(
        errors("SET A, one\nSET B, 1\nSET [two], [three]\n"),
        vec!["Line 0: No label \"one\" found"]
    );
    assert_eq!(errors("SET A, 1\nSET [two], [three]\n"), vec!["Line 1: No label \"two\" found"]);
    assert_eq!(errors("SET A, 1\nSET [A], [three]\n"), vec!["Line 1: No label \"three\" found"]);
    // A fault of the first pass keeps the second from running.
    assert_eq!(errors("SET A, one\nSET"), vec!["Line 1: Incomplete line"]);
}

#[test]
fn a_label_is_the_same_before_and_behind_its_use() {
    let mut filler = String::new();
    for _ in 0..40 {
        filler.push_str("DAT 0\n");
    }
    // Forward: the label is defined behind its use, at word 2 + 40.
    let forward = format!("SET PC, end\n{}:end SET A, 1\n", filler);
    let forward_by_number = format!("SET PC, 42\n{}SET A, 1\n", filler);
    assert_eq!(assemble(&forward), assemble(&forward_by_number));
    assert!(assemble(&forward).is_ok());
    // Backward: the label is defined before its use, at word 40.
    let backward = format!("{}:start SET A, 1\nSET PC, start\n", filler);
    let backward_by_number = format!("{}SET A, 1\nSET PC, 40\n", filler);
    assert_eq!(assemble(&backward), assemble(&backward_by_number));
    // The same label, used on both sides of its definition.
    let both = assemble("SET PC, here\n:here SET PC, here\n").unwrap();
    assert_eq!(both, vec![0x7f81, 2, 0x7f81, 2]);
}

#[test]
fn labels_count_words_not_lines() {
    let program = assemble(
        ":la SET A, 0x100\n:lb DAT \"xyz\"\n:lc SET [la], [lb]\n:ld\n\n:le JSR lc\n:lf DAT la, lb\n",
    );
    // A label is no number and no string.
    assert_eq!(program, Err(vec![String::from("Line 6: Unrecognized data format \"la\"")]));
    let program = assemble(
        ":la SET A, 0x100\n:lb DAT \"xyz\"\n:lc SET [la], [lb]\n:ld\n\n:le JSR lc\nSET X, ld\nSET Y, le\n",
    )
        .unwrap();
    assert_eq!(
        program,
        vec![0x7c01, 0x100, 0x78, 0x79, 0x7a, 0x7bc1, 0, 2, 0x7c20, 5, 0x7c61, 8, 0x7c81, 8]
    );
}

#[test]
fn names_of_registers_are_no_labels() {
    // A label may be called `a`, but `a` in an operand is the register.
    assert_eq!(assemble("DAT 0\n:a SET B, a\nSET B, [a]\n"), Ok(vec![0, 0x0021, 0x2021]));
    assert_eq!(assemble("DAT 0\n:pop SET B, pop\n"), Ok(vec![0, 0x6021]));
}

#[test]
fn label_sums() {
    assert_eq!(assemble("DAT 1, 2\n:t DAT 3\nSET A, [t+1]\nSET B, [t+J]\n"), Ok(vec![
        1, 2, 3, 0x7801, 3, 0x5c21, 2
    ]));
    // The sum wraps around.
    assert_eq!(assemble("DAT 1\n:t SET A, [t+0xffff]\n"), Ok(vec![1, 0x7801, 0]));
}

#[test]
fn the_first_pass_line_by_line() {
    let mut context = AssemblerContext::new();
    assert_eq!(context.process_line(0, &chars("; only a comment")), None);
    assert_eq!(context.process_line(1, &chars(":start")), None);
    assert_eq!(
        context.process_line(2, &chars("  SET A, start ; go")),
        Some(LineResult::BasicInstruction(BasicInstructionComponents {
            op: BasicOp::SET,
            b: assembler::ValType::Register(0),
            a: assembler::ValType::Label(label("start")),
        }))
    );
    assert_eq!(
        context.process_line(3, &chars("JSR [start+1]")),
        Some(LineResult::SpecialInstruction(SpecialInstructionComponents {
            op: SpecialOp::JSR,
            a: assembler::ValType::LabelNextWordDeref(label("start"), 1),
        }))
    );
    assert_eq!(context.process_line(4, &chars("DAT 7, \"ok\"")), Some(LineResult::Data(vec![7, 0x6f, 0x6b])));
    assert_eq!(context.process_line(5, &chars(":start SET A, 1")), None);
    assert_eq!(context.finish(), Err(vec![String::from("Line 5: Label \"start\" already exists")]));
}

#[test]
fn the_second_pass_instruction_by_instruction() {
    let mut context = AssemblerContext::new();
    context.process_line(0, &chars("DAT 0, 0, 0"));
    context.process_line(1, &chars(":three"));
    let basic = BasicInstructionComponents {
        op: BasicOp::ADD,
        b: assembler::ValType::LabelDeref(label("three")),
        a: assembler::ValType::NextWord(0x1234),
    };
    assert!(context.append_normal_instruction(&basic, 2));
    let special = SpecialInstructionComponents { op: SpecialOp::JSR, a: assembler::ValType::Label(label("three")) };
    assert!(context.append_special_instruction(&special, 3));
    context.append_data(&vec![9, 8]);
    let mut words = Vec::new();
    assert_eq!(
        context.process_val_type(&assembler::ValType::LabelRegisterDeref(label("three"), 2), &mut words),
        Ok(dcpu::val_type::ValType::RegisterNextWordDeref(2))
    );
    assert_eq!(words, vec![3]);
    assert_eq!(
        context.process_val_type(&assembler::ValType::Label(label("four")), &mut words),
        Err(String::from("No label \"four\" found"))
    );
    assert_eq!(words, vec![3]);
    assert_eq!(context.finish(), Ok(vec![0x7fc2, 3, 0x1234, 0x7c20, 3, 9, 8]));

    let mut context = AssemblerContext::new();
    let missing = SpecialInstructionComponents { op: SpecialOp::JSR, a: assembler::ValType::Label(label("gone")) };
    assert!(!context.append_special_instruction(&missing, 7));
    assert_eq!(context.finish(), Err(vec![String::from("Line 7: No label \"gone\" found")]));
}

#[test]
fn a_line_without_tokens_is_no_instruction_and_no_fault() {
    let mut context = AssemblerContext::new();
    let none: Vec<&[char]> = Vec::new();
    assert_eq!(context.process_basic_line(&none, 0), None);
    assert_eq!(context.process_special_line(&none, 1), None);
    let dat = chars("DAT");
    let one = chars("1");
    assert_eq!(context.process_data_line(&[&dat, &one], 2), Some(vec![1]));
    assert_eq!(context.finish(), Ok(vec![]));
}

#[test]
fn fmt_error_puts_the_line_first() {
    assert_eq!(assembler::fmt_error("Incomplete line", 0), "Line 0: Incomplete line");
    assert_eq!(assembler::fmt_error("x", 10), "Line 10: x");
    assert_eq!(assembler::fmt_error("", 907), "Line 907: ");
}
