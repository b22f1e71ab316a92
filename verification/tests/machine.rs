//! The processor: opcodes, addressing modes, decoding and ticks.
use dcpu::instruction::make_instruction_bits;
use dcpu::instruction::BasicInstruction;
use dcpu::instruction::Instruction;
use dcpu::instruction::SpecialInstruction;
use dcpu::instruction::ValSize;
use dcpu::op::BasicOp;
use dcpu::op::OpResult;
use dcpu::op::SpecialOp;
use dcpu::val_type::ValKind;
use dcpu::val_type::ValType;
use dcpu::Dcpu;

const BASIC_OPS: [BasicOp; 27] = [
    BasicOp::SET,
    BasicOp::ADD,
    BasicOp::SUB,
    BasicOp::MUL,
    BasicOp::MLI,
    BasicOp::DIV,
    BasicOp::DVI,
    BasicOp::MOD,
    BasicOp::MDI,
    BasicOp::AND,
    BasicOp::BOR,
    BasicOp::XOR,
    BasicOp::SHR,
    BasicOp::ASR,
    BasicOp::SHL,
    BasicOp::IFB,
    BasicOp::IFC,
    BasicOp::IFE,
    BasicOp::IFN,
    BasicOp::IFG,
    BasicOp::IFA,
    BasicOp::IFL,
    BasicOp::IFU,
    BasicOp::ADX,
    BasicOp::SBX,
    BasicOp::STI,
    BasicOp::STD,
];

const SPECIAL_OPS: [SpecialOp; 9] = [
    SpecialOp::JSR,
    SpecialOp::INT,
    SpecialOp::IAG,
    SpecialOp::IAS,
    SpecialOp::RFI,
    SpecialOp::IAQ,
    SpecialOp::HWN,
    SpecialOp::HWQ,
    SpecialOp::HWI,
];

/// Every mode that can stand in operand `a`.
fn a_modes() -> Vec<ValType> {
    let mut modes = vec![
        ValType::Pop,
        ValType::Peek,
        ValType::Pick,
        ValType::StackPointer,
        ValType::ProgramCounter,
        ValType::Extra,
        ValType::NextWordDeref,
        ValType::NextWord,
        ValType::Literal(0xffff),
    ];
    for r in 0..8 {
        modes.push(ValType::Register(r));
        modes.push(ValType::RegisterDeref(r));
        modes.push(ValType::RegisterNextWordDeref(r));
    }
    for v in 0..31 {
        modes.push(ValType::Literal(v));
    }
    modes
}

/// Every mode that can stand in operand `b`.
fn b_modes() -> Vec<ValType> {
    let mut modes = vec![
        ValType::Push,
        ValType::Peek,
        ValType::Pick,
        ValType::StackPointer,
        ValType::ProgramCounter,
        ValType::Extra,
        ValType::NextWordDeref,
        ValType::NextWord,
    ];
    for r in 0..8 {
        modes.push(ValType::Register(r));
        modes.push(ValType::RegisterDeref(r));
        modes.push(ValType::RegisterNextWordDeref(r));
    }
    modes
}

/// Runs `op` with `b` in register A and `a` as a literal; gives back
/// register A and the excess register.
fn run(op: BasicOp, b: u16, a: u16, ex: u16) -> (u16, u16) {
    let mut dcpu = Dcpu::new();
    dcpu.set_reg(0, b);
    dcpu.set_ex(ex);
    let res = op.eval(ValKind::Register(0), ValKind::Literal(a), &mut dcpu);
    assert_eq!(res, OpResult::NextInstr);
    (dcpu.reg(0), dcpu.ex())
}

fn test(op: BasicOp, b: u16, a: u16) -> bool {
    let mut dcpu = Dcpu::new();
    let before_ex = 0x1234;
    dcpu.set_ex(before_ex);
    let res = op.eval(ValKind::Literal(b), ValKind::Literal(a), &mut dcpu);
    assert_eq!(dcpu.ex(), before_ex);
    res == OpResult::NextInstr
}

#[test]
fn decode_of_encode_is_identity_for_basic_instructions() {
    let mut count = 0;
    for op in BASIC_OPS.iter() {
        for a in a_modes() {
            for b in b_modes() {
                let instr = Instruction::Basic(BasicInstruction { op: *op, a, b });
                let word = instr.encode();
                assert_eq!(Instruction::try_new(word), Some(instr));
                assert_eq!(Instruction::new(word), instr);
                assert_eq!(Instruction::new(word).encode(), word);
                count += 1;
            }
        }
    }
    assert_eq!(count, 27 * 64 * 32);
}

#[test]
fn decode_of_encode_is_identity_for_special_instructions() {
    for op in SPECIAL_OPS.iter() {
        for a in a_modes() {
            let instr = Instruction::Special(SpecialInstruction { op: *op, a });
            let word = instr.encode();
            assert_eq!(word & 0b11111, 0);
            assert_eq!(Instruction::try_new(word), Some(instr));
        }
    }
}

#[test]
fn push_and_pop_share_a_code() {
    assert_eq!(ValType::new(0x18, ValSize::A), ValType::Pop);
    assert_eq!(ValType::new(0x18, ValSize::B), ValType::Push);
    assert_eq!(ValType::Push.val_code(), 0x18);
    assert_eq!(ValType::Pop.val_code(), 0x18);
    // So a push in operand `a` comes back as a pop.
    let instr = Instruction::Basic(BasicInstruction {
        op: BasicOp::SET,
        a: ValType::Push,
        b: ValType::Register(0),
    });
    assert_eq!(
        Instruction::new(instr.encode()),
        Instruction::Basic(BasicInstruction { op: BasicOp::SET, a: ValType::Pop, b: ValType::Register(0) })
    );
}

#[test]
fn value_codes_decode_by_range() {
    assert_eq!(ValType::new(0x00, ValSize::A), ValType::Register(0));
    assert_eq!(ValType::new(0x07, ValSize::A), ValType::Register(7));
    assert_eq!(ValType::new(0x08, ValSize::A), ValType::RegisterDeref(0));
    assert_eq!(ValType::new(0x0f, ValSize::B), ValType::RegisterDeref(7));
    assert_eq!(ValType::new(0x10, ValSize::A), ValType::RegisterNextWordDeref(0));
    assert_eq!(ValType::new(0x17, ValSize::A), ValType::RegisterNextWordDeref(7));
    assert_eq!(ValType::new(0x19, ValSize::A), ValType::Peek);
    assert_eq!(ValType::new(0x1a, ValSize::A), ValType::Pick);
    assert_eq!(ValType::new(0x1b, ValSize::A), ValType::StackPointer);
    assert_eq!(ValType::new(0x1c, ValSize::A), ValType::ProgramCounter);
    assert_eq!(ValType::new(0x1d, ValSize::A), ValType::Extra);
    assert_eq!(ValType::new(0x1e, ValSize::A), ValType::NextWordDeref);
    assert_eq!(ValType::new(0x1f, ValSize::A), ValType::NextWord);
    assert_eq!(ValType::new(0x20, ValSize::A), ValType::Literal(0xffff));
    assert_eq!(ValType::new(0x21, ValSize::A), ValType::Literal(0));
    assert_eq!(ValType::new(0x3f, ValSize::A), ValType::Literal(30));
    for code in 0..0x40 {
        assert_eq!(ValType::new(code, ValSize::A).val_code(), code);
        assert_eq!(ValType::new(code, ValSize::B).val_code(), code);
    }
}

#[test]
fn words_and_cycles_of_modes() {
    for mode in a_modes() {
        let takes = matches!(
            mode,
            ValType::RegisterNextWordDeref(_) | ValType::Pick | ValType::NextWordDeref | ValType::NextWord
        );
        assert_eq!(mode.num_words(), if takes { 1 } else { 0 });
        assert_eq!(mode.num_cycles(), if takes { 1 } else { 0 });
    }
}

#[test]
fn opcode_numbers_names_and_cycles() {
    let codes: [u16; 27] = [
        0x01, 0x02, 0x03, 0x04, 0x05, 0x06, 0x07, 0x08, 0x09, 0x0a, 0x0b, 0x0c, 0x0d, 0x0e, 0x0f, 0x10, 0x11,
        0x12, 0x13, 0x14, 0x15, 0x16, 0x17, 0x1a, 0x1b, 0x1e, 0x1f,
    ];
    let cycles: [u16; 27] = [1, 2, 2, 2, 2, 3, 3, 3, 3, 1, 1, 1, 1, 1, 1, 2, 2, 2, 2, 2, 2, 2, 2, 3, 3, 2, 2];
    for (i, op) in BASIC_OPS.iter().enumerate() {
        assert_eq!(op.op_code(), codes[i]);
        assert_eq!(BasicOp::new(codes[i]), *op);
        assert_eq!(BasicOp::from_code(codes[i]), Some(*op));
        assert_eq!(op.num_cycles(), cycles[i]);
        assert_eq!(op.name(), format!("{:?}", op));
        assert_eq!(BasicOp::try_from(op.name()), Some(*op));
        assert_eq!(BasicOp::try_from(&op.name().to_lowercase()), Some(*op));
    }
    for code in [0x00, 0x18, 0x19, 0x1c, 0x1d, 0x20, 0xffff] {
        assert_eq!(BasicOp::from_code(code), None);
    }
    let codes: [u16; 9] = [0x01, 0x08, 0x09, 0x0a, 0x0b, 0x0c, 0x10, 0x11, 0x12];
    let cycles: [u16; 9] = [3, 4, 1, 1, 3, 2, 2, 4, 4];
    for (i, op) in SPECIAL_OPS.iter().enumerate() {
        assert_eq!(op.op_code(), codes[i]);
        assert_eq!(SpecialOp::new(codes[i]), *op);
        assert_eq!(op.num_cycles(), cycles[i]);
        assert_eq!(op.name(), format!("{:?}", op));
        assert_eq!(SpecialOp::try_from(op.name()), Some(*op));
        assert_eq!(SpecialOp::try_from(&op.name().to_lowercase()), Some(*op));
    }
    for code in [0x00, 0x02, 0x07, 0x0d, 0x0f, 0x13, 0x1f] {
        assert_eq!(SpecialOp::from_code(code), None);
    }
    assert_eq!(BasicOp::try_from("jsr"), None);
    assert_eq!(BasicOp::try_from("se"), None);
    assert_eq!(BasicOp::try_from("sett"), None);
    assert_eq!(BasicOp::try_from(""), None);
    assert_eq!(SpecialOp::try_from("set"), None);
    assert_eq!(BasicOp::try_from("Set"), Some(BasicOp::SET));
}

#[test]
fn instruction_words_split_into_fields() {
    assert_eq!(make_instruction_bits(0x1f, 0x00, 0x01), 0x7c01);
    assert_eq!(make_instruction_bits(0x1f, 0x1c, 0x01), 0x7f81);
    assert_eq!(make_instruction_bits(0x1f, 0x01, 0x00), 0x7c20);
    assert_eq!(make_instruction_bits(0x3f, 0x1f, 0x1f), 0xffff);
    assert_eq!(
        Instruction::new(0x7c01),
        Instruction::Basic(BasicInstruction { op: BasicOp::SET, a: ValType::NextWord, b: ValType::Register(0) })
    );
    assert_eq!(
        Instruction::new(0x7c20),
        Instruction::Special(SpecialInstruction { op: SpecialOp::JSR, a: ValType::NextWord })
    );
    assert_eq!(Instruction::new(0x7c01).num_words(), 2);
    assert_eq!(Instruction::new(0x8801).num_words(), 1);
    // SET [0x1000 + A], [0x2000 + B]
    assert_eq!(Instruction::new(make_instruction_bits(0x11, 0x10, 0x01)).num_words(), 3);
    assert_eq!(Instruction::new(0x7c20).num_words(), 2);
    assert_eq!(Instruction::try_new(0x0000), None);
    assert_eq!(Instruction::try_new(0x0018), None);
    assert_eq!(Instruction::try_new(0x0040), None);
}

#[test]
fn add_and_sub_set_the_excess() {
    assert_eq!(run(BasicOp::ADD, 0xffff, 1, 0), (0, 1));
    assert_eq!(run(BasicOp::ADD, 1, 2, 0xffff), (3, 0));
    assert_eq!(run(BasicOp::ADD, 0xffff, 0xffff, 0), (0xfffe, 1));
    assert_eq!(run(BasicOp::SUB, 0, 1, 0), (0xffff, 0xffff));
    assert_eq!(run(BasicOp::SUB, 5, 3, 0xffff), (2, 0));
    assert_eq!(run(BasicOp::SUB, 3, 3, 7), (0, 0));
}

#[test]
fn add_and_sub_with_carry() {
    assert_eq!(run(BasicOp::ADX, 0xffff, 0, 1), (0, 1));
    assert_eq!(run(BasicOp::ADX, 1, 2, 0xffff), (2, 1));
    assert_eq!(run(BasicOp::ADX, 1, 2, 3), (6, 0));
    assert_eq!(run(BasicOp::SBX, 0, 1, 0), (0xffff, 0xffff));
    assert_eq!(run(BasicOp::SBX, 5, 3, 0), (2, 0));
    assert_eq!(run(BasicOp::SBX, 5, 3, 4), (6, 0));
    assert_eq!(run(BasicOp::SBX, 0xffff, 0, 1), (0, 1));
    assert_eq!(run(BasicOp::SBX, 0, 0xffff, 0xffff), (0, 0));
}

#[test]
fn products_keep_their_high_word() {
    assert_eq!(run(BasicOp::MUL, 0x1234, 0x100, 0), (0x3400, 0x12));
    assert_eq!(run(BasicOp::MUL, 0xffff, 0xffff, 0), (0x0001, 0xfffe));
    assert_eq!(run(BasicOp::MUL, 3, 4, 9), (12, 0));
    assert_eq!(run(BasicOp::MLI, 0xffff, 2, 0), (0xfffe, 0xffff));
    assert_eq!(run(BasicOp::MLI, 0xfffe, 0xfffd, 5), (6, 0));
    assert_eq!(run(BasicOp::MLI, 0x8000, 0x8000, 0), (0, 0x4000));
    assert_eq!(run(BasicOp::MLI, 0x8000, 0x7fff, 0), (0x8000, 0xc000));
    assert_eq!(run(BasicOp::MLI, 3, 4, 9), (12, 0));
}

#[test]
fn quotients_and_remainders() {
    assert_eq!(run(BasicOp::DIV, 7, 2, 0), (3, 0x8000));
    assert_eq!(run(BasicOp::DIV, 1, 3, 0), (0, 0x5555));
    assert_eq!(run(BasicOp::DIV, 0xffff, 1, 9), (0xffff, 0));
    assert_eq!(run(BasicOp::DIV, 7, 0, 9), (0, 0));
    assert_eq!(run(BasicOp::DVI, 0xfff9, 2, 0), (0xfffd, 0x8000));
    assert_eq!(run(BasicOp::DVI, 7, 0xfffe, 0), (0xfffd, 0x8000));
    assert_eq!(run(BasicOp::DVI, 0xfff9, 0xfffe, 0), (3, 0x8000));
    assert_eq!(run(BasicOp::DVI, 0x8000, 0xffff, 7), (0x8000, 0));
    assert_eq!(run(BasicOp::DVI, 7, 0, 9), (0, 0));
    assert_eq!(run(BasicOp::MOD, 7, 3, 0x1234), (1, 0x1234));
    assert_eq!(run(BasicOp::MOD, 7, 0, 0x1234), (0, 0x1234));
    assert_eq!(run(BasicOp::MDI, 0xfff9, 16, 0x1234), (0xfff9, 0x1234));
    assert_eq!(run(BasicOp::MDI, 7, 0xfff0, 0x1234), (7, 0x1234));
    assert_eq!(run(BasicOp::MDI, 0x8000, 0xffff, 0x1234), (0, 0x1234));
    assert_eq!(run(BasicOp::MDI, 7, 0, 0x1234), (0, 0x1234));
}

#[test]
fn bitwise_opcodes_leave_the_excess() {
    assert_eq!(run(BasicOp::AND, 0xf0f0, 0x3c3c, 0x1234), (0x3030, 0x1234));
    assert_eq!(run(BasicOp::BOR, 0xf0f0, 0x3c3c, 0x1234), (0xfcfc, 0x1234));
    assert_eq!(run(BasicOp::XOR, 0xf0f0, 0x3c3c, 0x1234), (0xcccc, 0x1234));
    assert_eq!(run(BasicOp::SET, 0xf0f0, 0x3c3c, 0x1234), (0x3c3c, 0x1234));
}

#[test]
fn shifts_keep_what_they_push_out() {
    assert_eq!(run(BasicOp::SHR, 0x8001, 1, 0), (0x4000, 0x8000));
    assert_eq!(run(BasicOp::SHR, 0x8001, 0, 7), (0x8001, 0));
    assert_eq!(run(BasicOp::SHR, 0x8001, 16, 0), (0, 0x8001));
    assert_eq!(run(BasicOp::SHR, 0x8001, 17, 0), (0, 0x4000));
    assert_eq!(run(BasicOp::SHR, 0x8001, 32, 7), (0, 0));
    assert_eq!(run(BasicOp::SHR, 0x8001, 0xffff, 7), (0, 0));
    assert_eq!(run(BasicOp::ASR, 0x8000, 1, 7), (0xc000, 0));
    assert_eq!(run(BasicOp::ASR, 0x8001, 1, 0), (0xc000, 0x8000));
    assert_eq!(run(BasicOp::ASR, 0x7ffe, 1, 0), (0x3fff, 0));
    assert_eq!(run(BasicOp::ASR, 0xffff, 20, 0), (0xffff, 0x0fff));
    assert_eq!(run(BasicOp::ASR, 0x7fff, 16, 0), (0, 0x7fff));
    assert_eq!(run(BasicOp::ASR, 0x8000, 0xffff, 7), (0xffff, 0));
    assert_eq!(run(BasicOp::SHL, 0x8001, 1, 0), (0x0002, 1));
    assert_eq!(run(BasicOp::SHL, 1, 16, 0), (0, 1));
    assert_eq!(run(BasicOp::SHL, 1, 31, 0), (0, 0x8000));
    assert_eq!(run(BasicOp::SHL, 0xffff, 20, 0), (0, 0xfff0));
    assert_eq!(run(BasicOp::SHL, 1, 32, 7), (0, 0));
    assert_eq!(run(BasicOp::SHL, 0xffff, 0xffff, 7), (0, 0));
}

#[test]
fn tests_decide_and_change_nothing() {
    assert!(test(BasicOp::IFB, 0b0110, 0b0100));
    assert!(!test(BasicOp::IFB, 0b0110, 0b1001));
    assert!(test(BasicOp::IFC, 0b0110, 0b1001));
    assert!(!test(BasicOp::IFC, 0b0110, 0b0100));
    assert!(test(BasicOp::IFE, 5, 5));
    assert!(!test(BasicOp::IFE, 5, 6));
    assert!(test(BasicOp::IFN, 5, 6));
    assert!(!test(BasicOp::IFN, 5, 5));
    assert!(test(BasicOp::IFG, 0xffff, 1));
    assert!(!test(BasicOp::IFG, 1, 1));
    assert!(test(BasicOp::IFA, 1, 0xffff));
    assert!(!test(BasicOp::IFA, 0xffff, 1));
    assert!(test(BasicOp::IFL, 1, 0xffff));
    assert!(!test(BasicOp::IFL, 1, 1));
    assert!(test(BasicOp::IFU, 0xffff, 1));
    assert!(!test(BasicOp::IFU, 1, 0xffff));
    assert!(!test(BasicOp::IFU, 0x8000, 0x8000));
}

#[test]
fn sti_and_std_step_i_and_j() {
    let mut dcpu = Dcpu::new();
    dcpu.set_reg(6, 0xffff);
    dcpu.set_reg(7, 10);
    BasicOp::STI.eval(ValKind::Deref(0x100), ValKind::Literal(9), &mut dcpu);
    assert_eq!(dcpu.mem(0x100), 9);
    assert_eq!((dcpu.reg(6), dcpu.reg(7)), (0, 11));
    BasicOp::STD.eval(ValKind::Deref(0x101), ValKind::Literal(8), &mut dcpu);
    assert_eq!(dcpu.mem(0x101), 8);
    assert_eq!((dcpu.reg(6), dcpu.reg(7)), (0xffff, 10));
    // The store comes first: STI I, 5 leaves 6.
    BasicOp::STI.eval(ValKind::Register(6), ValKind::Literal(5), &mut dcpu);
    assert_eq!(dcpu.reg(6), 6);
}

#[test]
fn a_store_to_a_literal_is_dropped() {
    let mut dcpu = Dcpu::new();
    let res = BasicOp::ADD.eval(ValKind::Literal(0xffff), ValKind::Literal(1), &mut dcpu);
    assert_eq!(res, OpResult::NextInstr);
    assert_eq!(dcpu.ex(), 1);
    for r in 0..8 {
        assert_eq!(dcpu.reg(r), 0);
    }
}

#[test]
fn stores_to_the_stack_pointer_and_the_excess_are_dropped() {
    // `SET SP, 5` and `SET EX, 5` resolve to literals: nothing changes.
    let mut dcpu = Dcpu::new();
    dcpu.set_mem(0, make_instruction_bits(0x26, 0x1b, 0x01));
    dcpu.set_mem(1, make_instruction_bits(0x26, 0x1d, 0x01));
    dcpu.tick();
    dcpu.tick();
    assert_eq!(dcpu.sp(), 0xffff);
    assert_eq!(dcpu.ex(), 0);
    assert_eq!(dcpu.pc(), 2);
}

#[test]
fn special_opcodes() {
    let mut dcpu = Dcpu::new();
    dcpu.set_pc(0x10);
    let res = SpecialOp::JSR.eval(ValKind::Literal(0x200), &mut dcpu);
    assert_eq!(res, OpResult::NextInstr);
    assert_eq!(dcpu.sp(), 0xfffe);
    assert_eq!(dcpu.mem(0xfffe), 0x10);
    assert_eq!(dcpu.pc(), 0x200);

    SpecialOp::IAS.eval(ValKind::Literal(0x77), &mut dcpu);
    assert_eq!(dcpu.ia(), 0x77);
    SpecialOp::IAG.eval(ValKind::Register(2), &mut dcpu);
    assert_eq!(dcpu.reg(2), 0x77);
    dcpu.set_reg(3, 5);
    SpecialOp::HWN.eval(ValKind::Register(3), &mut dcpu);
    assert_eq!(dcpu.reg(3), 0);

    for op in [SpecialOp::JSR, SpecialOp::IAG, SpecialOp::IAS, SpecialOp::HWN] {
        assert!(op.is_emulated());
    }
    for op in [SpecialOp::INT, SpecialOp::RFI, SpecialOp::IAQ, SpecialOp::HWQ, SpecialOp::HWI] {
        assert!(!op.is_emulated());
        let mut fresh = Dcpu::new();
        fresh.set_reg(1, 9);
        let res = op.eval(ValKind::Register(1), &mut fresh);
        assert_eq!(res, OpResult::NextInstr);
        assert_eq!(fresh.reg(1), 9);
        assert_eq!((fresh.pc(), fresh.sp(), fresh.ex(), fresh.ia()), (0, 0xffff, 0, 0));
    }
}

#[test]
fn modes_resolve_with_their_side_effects() {
    let mut dcpu = Dcpu::new();
    dcpu.set_reg(1, 0x100);
    dcpu.set_mem(0, 0x20);
    dcpu.set_mem(1, 0xfff0);
    dcpu.set_ex(0x55);
    assert_eq!(ValType::Register(1).eval(&mut dcpu), ValKind::Register(1));
    assert_eq!(ValType::RegisterDeref(1).eval(&mut dcpu), ValKind::Deref(0x100));
    assert_eq!(dcpu.pc(), 0);
    assert_eq!(ValType::RegisterNextWordDeref(1).eval(&mut dcpu), ValKind::Deref(0x120));
    assert_eq!(dcpu.pc(), 1);
    // The sum wraps around.
    assert_eq!(ValType::RegisterNextWordDeref(1).eval(&mut dcpu), ValKind::Deref(0x00f0));
    assert_eq!(dcpu.pc(), 2);
    assert_eq!(ValType::Push.eval(&mut dcpu), ValKind::Deref(0xfffe));
    assert_eq!(dcpu.sp(), 0xfffe);
    assert_eq!(ValType::Peek.eval(&mut dcpu), ValKind::Deref(0xfffe));
    assert_eq!(ValType::Pop.eval(&mut dcpu), ValKind::Deref(0xfffe));
    assert_eq!(dcpu.sp(), 0xffff);
    assert_eq!(ValType::Pop.eval(&mut dcpu), ValKind::Deref(0xffff));
    assert_eq!(dcpu.sp(), 0);
    assert_eq!(ValType::StackPointer.eval(&mut dcpu), ValKind::Literal(0));
    assert_eq!(ValType::ProgramCounter.eval(&mut dcpu), ValKind::ProgramCounter);
    assert_eq!(ValType::Extra.eval(&mut dcpu), ValKind::Literal(0x55));
    dcpu.set_pc(0);
    dcpu.set_sp(0x10);
    assert_eq!(ValType::Pick.eval(&mut dcpu), ValKind::Deref(0x30));
    assert_eq!(dcpu.pc(), 1);
    assert_eq!(ValType::NextWordDeref.eval(&mut dcpu), ValKind::Deref(0xfff0));
    assert_eq!(dcpu.pc(), 2);
    assert_eq!(ValType::NextWord.eval(&mut dcpu), ValKind::Deref(2));
    assert_eq!(dcpu.pc(), 3);
    assert_eq!(ValType::Literal(0xffff).eval(&mut dcpu), ValKind::Literal(0xffff));
    assert_eq!(dcpu.pc(), 3);
    dcpu.set_pc(0xffff);
    assert_eq!(ValType::NextWord.eval(&mut dcpu), ValKind::Deref(0xffff));
    assert_eq!(dcpu.pc(), 0);
}

#[test]
fn operand_b_is_resolved_before_operand_a() {
    // SET PUSH, POP: the push lowers the stack pointer, the pop then reads
    // that same word and raises the stack pointer again.
    let mut dcpu = Dcpu::new();
    dcpu.set_mem(0, make_instruction_bits(0x18, 0x18, 0x01));
    dcpu.set_mem(0xfffe, 0x1234);
    dcpu.set_mem(0xffff, 0x5678);
    dcpu.tick();
    assert_eq!(dcpu.sp(), 0xffff);
    assert_eq!(dcpu.mem(0xfffe), 0x1234);
    assert_eq!(dcpu.mem(0xffff), 0x5678);
    // SET [0x10 + A], [0x20 + A]: the word of `b` comes first.
    let mut dcpu = Dcpu::new();
    dcpu.set_mem(0, make_instruction_bits(0x10, 0x10, 0x01));
    dcpu.set_mem(1, 0x10);
    dcpu.set_mem(2, 0x20);
    dcpu.set_mem(0x20, 0xabcd);
    dcpu.tick();
    assert_eq!(dcpu.mem(0x10), 0xabcd);
    assert_eq!(dcpu.pc(), 3);
}

#[test]
fn new_processor() {
    let dcpu = Dcpu::new();
    for r in 0..8 {
        assert_eq!(dcpu.reg(r), 0);
    }
    assert_eq!(dcpu.mem(0), 0);
    assert_eq!(dcpu.mem(0xffff), 0);
    assert_eq!(dcpu.pc(), 0);
    assert_eq!(dcpu.sp(), 0xffff);
    assert_eq!(dcpu.ex(), 0);
    assert_eq!(dcpu.ia(), 0);
    assert!(!dcpu.finished());
}

#[test]
fn counters_wrap_around() {
    let mut dcpu = Dcpu::new();
    dcpu.set_pc(0xffff);
    dcpu.incr_pc();
    assert_eq!(dcpu.pc(), 0);
    dcpu.incr_sp();
    assert_eq!(dcpu.sp(), 0);
    dcpu.decr_sp();
    assert_eq!(dcpu.sp(), 0xffff);
    dcpu.decr_sp();
    assert_eq!(dcpu.sp(), 0xfffe);
}

#[test]
fn load_program_copies_from_address_zero() {
    let mut dcpu = Dcpu::new();
    dcpu.set_mem(3, 0x9999);
    dcpu.set_pc(0x40);
    dcpu.set_reg(2, 7);
    dcpu.load_program(&vec![0x7c01, 0x0030, 0x8801]);
    assert_eq!(dcpu.mem(0), 0x7c01);
    assert_eq!(dcpu.mem(1), 0x0030);
    assert_eq!(dcpu.mem(2), 0x8801);
    assert_eq!(dcpu.mem(3), 0x9999);
    assert_eq!(dcpu.pc(), 0);
    assert_eq!(dcpu.reg(2), 7);
}

#[test]
fn load_program_wraps_around_the_end_of_memory() {
    let mut program: Vec<u16> = Vec::new();
    for i in 0..0x1_0002u32 {
        program.push((i % 0x1_0000) as u16 ^ 0x5555);
    }
    program[0x1_0000] = 0xaaaa;
    let mut dcpu = Dcpu::new();
    dcpu.load_program(&program);
    assert_eq!(dcpu.mem(0), 0xaaaa);
    assert_eq!(dcpu.mem(1), 1 ^ 0x5555);
    assert_eq!(dcpu.mem(2), 2 ^ 0x5555);
    assert_eq!(dcpu.mem(0xffff), 0xffff ^ 0x5555);
}

#[test]
fn set_register_to_literal() {
    for r in 0..8u16 {
        for v in [0u16, 1, 30, 31, 0x1234, 0xfffe, 0xffff] {
            let inline = v == 0xffff || v <= 30;
            let a = if inline { ValType::Literal(v) } else { ValType::NextWord };
            let instr = Instruction::Basic(BasicInstruction { op: BasicOp::SET, a, b: ValType::Register(r) });
            for start in [0u16, 0x100, 0xffff] {
                let mut dcpu = Dcpu::new();
                dcpu.set_mem(start, instr.encode());
                if !inline {
                    dcpu.set_mem(start.wrapping_add(1), v);
                }
                dcpu.set_pc(start);
                assert!(dcpu.try_tick());
                assert_eq!(dcpu.reg(r), v);
                assert_eq!(dcpu.pc(), start.wrapping_add(instr.num_words()));
                assert_eq!(instr.num_words(), if inline { 1 } else { 2 });
            }
        }
    }
}

#[test]
fn add_carries_into_the_excess_register() {
    // SET EX, 0 / SET A, 0xffff / ADD A, 1
    let mut dcpu = Dcpu::new();
    dcpu.load_program(&vec![
        make_instruction_bits(0x21, 0x1d, 0x01),
        make_instruction_bits(0x20, 0x00, 0x01),
        make_instruction_bits(0x22, 0x00, 0x02),
    ]);
    dcpu.tick();
    dcpu.tick();
    assert_eq!(dcpu.reg(0), 0xffff);
    dcpu.tick();
    assert_eq!(dcpu.reg(0), 0);
    assert_eq!(dcpu.ex(), 1);
    // SET A, 0 / SUB A, 1
    let mut dcpu = Dcpu::new();
    dcpu.load_program(&vec![make_instruction_bits(0x21, 0x00, 0x01), make_instruction_bits(0x22, 0x00, 0x03)]);
    dcpu.tick();
    dcpu.tick();
    assert_eq!(dcpu.reg(0), 0xffff);
    assert_eq!(dcpu.ex(), 0xffff);
}

#[test]
fn a_failed_test_skips_a_whole_instruction() {
    // IFE A, 5 / SET B, 0x1000 / SET C, 1
    let mut dcpu = Dcpu::new();
    dcpu.load_program(&vec![
        make_instruction_bits(0x26, 0x00, 0x12),
        make_instruction_bits(0x1f, 0x01, 0x01),
        0x1000,
        make_instruction_bits(0x22, 0x02, 0x01),
    ]);
    dcpu.tick();
    assert_eq!(dcpu.pc(), 3);
    assert_eq!(dcpu.reg(1), 0);
    dcpu.tick();
    assert_eq!(dcpu.reg(2), 1);
    // With A == 5 the guarded instruction runs.
    dcpu.set_pc(0);
    dcpu.set_reg(0, 5);
    dcpu.tick();
    assert_eq!(dcpu.pc(), 1);
    dcpu.tick();
    assert_eq!(dcpu.reg(1), 0x1000);
    assert_eq!(dcpu.pc(), 3);
}

#[test]
fn a_failed_test_skips_three_words() {
    // IFN A, 0 / SET [0x10 + A], [0x20 + A] / SET C, 1
    let mut dcpu = Dcpu::new();
    dcpu.load_program(&vec![
        make_instruction_bits(0x21, 0x00, 0x13),
        make_instruction_bits(0x10, 0x10, 0x01),
        0x10,
        0x20,
        make_instruction_bits(0x22, 0x02, 0x01),
    ]);
    dcpu.tick();
    assert_eq!(dcpu.pc(), 4);
}

#[test]
fn jsr_pushes_the_return_address() {
    // JSR 3 / <word> / <unused> / SET A, 1
    let mut dcpu = Dcpu::new();
    dcpu.load_program(&vec![make_instruction_bits(0x1f, 0x01, 0x00), 3, 0, make_instruction_bits(0x22, 0x00, 0x01)]);
    dcpu.tick();
    assert_eq!(dcpu.sp(), 0xfffe);
    assert_eq!(dcpu.mem(0xfffe), 2);
    assert_eq!(dcpu.pc(), 3);
    assert!(!dcpu.finished());
}

#[test]
fn a_jump_to_itself_finishes_the_processor() {
    // SET A, 1 / :halt SET PC, halt
    let mut dcpu = Dcpu::new();
    dcpu.load_program(&vec![make_instruction_bits(0x22, 0x00, 0x01), make_instruction_bits(0x1f, 0x1c, 0x01), 1]);
    dcpu.tick();
    assert!(!dcpu.finished());
    assert_eq!(dcpu.pc(), 1);
    dcpu.tick();
    assert!(dcpu.finished());
    assert_eq!(dcpu.pc(), 1);
    // Ticks are now no-ops.
    dcpu.set_reg(0, 0);
    dcpu.set_pc(0);
    dcpu.tick();
    assert!(dcpu.try_tick());
    assert_eq!(dcpu.reg(0), 0);
    assert_eq!(dcpu.pc(), 0);
    assert!(dcpu.finished());
}

#[test]
fn a_jump_to_itself_at_address_zero_finishes_at_once() {
    let mut dcpu = Dcpu::new();
    dcpu.load_program(&vec![make_instruction_bits(0x1f, 0x1c, 0x01), 0]);
    dcpu.tick();
    assert!(dcpu.finished());
}

#[test]
fn a_loop_of_two_instructions_does_not_finish() {
    // SET A, 1 / SET PC, 0
    let mut dcpu = Dcpu::new();
    dcpu.load_program(&vec![make_instruction_bits(0x22, 0x00, 0x01), make_instruction_bits(0x21, 0x1c, 0x01)]);
    for _ in 0..100 {
        dcpu.tick();
        assert!(!dcpu.finished());
    }
}

#[test]
fn try_tick_refuses_a_word_without_opcode() {
    let mut dcpu = Dcpu::new();
    dcpu.set_reg(0, 3);
    assert!(!dcpu.try_tick());
    assert_eq!(dcpu.pc(), 0);
    assert_eq!(dcpu.reg(0), 3);
    assert!(!dcpu.finished());
    // IFE PUSH, 1 fails and then stands at a word without opcode: the
    // tick is refused and the stack pointer is as before.
    dcpu.set_mem(0, make_instruction_bits(0x22, 0x18, 0x12));
    dcpu.set_mem(1, 0x0018);
    assert!(!dcpu.try_tick());
    assert_eq!(dcpu.pc(), 0);
    assert_eq!(dcpu.sp(), 0xffff);
    // With an instruction to skip the tick goes through.
    dcpu.set_mem(1, make_instruction_bits(0x22, 0x00, 0x01));
    assert!(dcpu.try_tick());
    assert_eq!(dcpu.pc(), 2);
    assert_eq!(dcpu.sp(), 0xfffe);
    assert_eq!(dcpu.reg(0), 3);
}

#[test]
fn modes_as_they_are_shown() {
    let letters = ["A", "B", "C", "X", "Y", "Z", "I", "J"];
    for r in 0..8u16 {
        let letter = letters[r as usize];
        assert_eq!(ValType::Register(r).to_string(), letter);
        assert_eq!(ValType::RegisterDeref(r).to_string(), format!("[{}]", letter));
        assert_eq!(ValType::RegisterNextWordDeref(r).to_string(), format!("[<next word>+{}]", letter));
    }
    assert_eq!(ValType::Push.to_string(), "PUSH");
    assert_eq!(ValType::Pop.to_string(), "POP");
    assert_eq!(ValType::Peek.to_string(), "PEEK");
    assert_eq!(ValType::Pick.to_string(), "PICK");
    assert_eq!(ValType::StackPointer.to_string(), "SP");
    assert_eq!(ValType::ProgramCounter.to_string(), "PC");
    assert_eq!(ValType::Extra.to_string(), "EX");
    assert_eq!(ValType::NextWordDeref.to_string(), "[<next word>]");
    assert_eq!(ValType::NextWord.to_string(), "<next word>");
    assert_eq!(ValType::Literal(0).to_string(), "0x0");
    assert_eq!(ValType::Literal(10).to_string(), "0xa");
    assert_eq!(ValType::Literal(30).to_string(), "0x1e");
    assert_eq!(ValType::Literal(0xffff).to_string(), "0xffff");
}

#[test]
fn instructions_as_they_are_shown() {
    assert_eq!(Instruction::new(0x7c01).to_string(), "SET A, <next word>");
    assert_eq!(Instruction::new(0x7f81).to_string(), "SET PC, <next word>");
    assert_eq!(Instruction::new(0x9812).to_string(), "IFE A, 0x5");
    assert_eq!(Instruction::new(0x6301).to_string(), "SET PUSH, POP");
    assert_eq!(Instruction::new(0x4601).to_string(), "SET [<next word>+A], [<next word>+B]");
    assert_eq!(Instruction::new(0x7c20).to_string(), "JSR <next word>");
    assert_eq!(Instruction::new(0x0140).to_string(), "IAS A");
    for op in BASIC_OPS.iter() {
        assert_eq!(op.to_string(), format!("{:?}", op));
    }
    for op in SPECIAL_OPS.iter() {
        assert_eq!(op.to_string(), format!("{:?}", op));
    }
}

#[test]
fn the_processor_as_it_is_shown() {
    let mut dcpu = Dcpu::new();
    dcpu.set_reg(0, 0x30);
    dcpu.set_reg(7, 0xffff);
    dcpu.set_pc(0x1234);
    dcpu.set_ex(1);
    dcpu.set_ia(0xabc);
    let expected = format!(
        "\
====================
 A: {:#x}
 B: {:#x}
 C: {:#x}
 X: {:#x}
 Y: {:#x}
 Z: {:#x}
 I: {:#x}
 J: {:#x}
--------------------
 PC: {:#x}
 SP: {:#x}
 EX: {:#x}
 IA: {:#x}
====================
        ",
        0x30, 0, 0, 0, 0, 0, 0, 0xffff, 0x1234, 0xffff, 1, 0xabc
    );
    assert_eq!(dcpu.to_string(), expected);
    assert!(dcpu.to_string().starts_with("====================\n A: 0x30\n B: 0x0\n"));
    assert!(dcpu.to_string().ends_with(" IA: 0xabc\n====================\n        "));
}
