//! Instructions: how a word splits into an opcode and operand fields, and
//! how a decoded instruction runs.
//!
//! A basic instruction holds its opcode in bits 0 to 4 (never zero),
//! operand `b` in bits 5 to 9 and operand `a` in bits 10 to 15. A special
//! instruction has bits 0 to 4 zero, its opcode in bits 5 to 9 and its one
//! operand `a` in bits 10 to 15.
use crate::cpu::next_addr;
use crate::cpu::Dcpu;
use crate::cpu::DcpuState;
use crate::op::BasicOp;
use crate::op::OpResult;
use crate::op::SpecialOp;
use crate::val_type::lemma_code_of_code;
use crate::val_type::lemma_of_code_code;
use crate::val_type::lemma_resolve;
use crate::val_type::ValType;
use vstd::prelude::*;

verus! {

/// Which operand field a value code was read from.
#[derive(Clone, Copy, Debug, PartialEq, Eq, Structural)]
pub enum ValSize {
    /// Operand `a`: six bits.
    A,
    /// Operand `b`: five bits.
    B,
}

/// A decoded instruction.
#[derive(Clone, Copy, Debug, PartialEq, Eq, Structural)]
pub enum Instruction {
    Basic(BasicInstruction),
    Special(SpecialInstruction),
}

/// An opcode with two operands.
#[derive(Clone, Copy, Debug, PartialEq, Eq, Structural)]
pub struct BasicInstruction {
    pub op: BasicOp,
    pub a: ValType,
    pub b: ValType,
}

/// An opcode with one operand.
#[derive(Clone, Copy, Debug, PartialEq, Eq, Structural)]
pub struct SpecialInstruction {
    pub op: SpecialOp,
    pub a: ValType,
}

/// The three fields packed into a word: `a_code` from bit 10 up,
/// `b_code` from bit 5, `op_code` from bit 0.
pub open spec fn pack(a_code: u16, b_code: u16, op_code: u16) -> u16 {
    (a_code << 10u16) | (b_code << 5u16) | op_code
}

/// Bits 0 to 4 of a word.
pub open spec fn op_field(word: u16) -> u16 {
    word & 0b11111
}

/// Bits 5 to 9 of a word.
pub open spec fn b_field(word: u16) -> u16 {
    (word >> 5u16) & 0b11111
}

/// Bits 10 to 15 of a word.
pub open spec fn a_field(word: u16) -> u16 {
    (word >> 10u16) & 0b111111
}

/// Whether a word holds an opcode that exists.
pub open spec fn valid_word(word: u16) -> bool {
    if op_field(word) == 0 {
        SpecialOp::of_code(b_field(word)) is Some
    } else {
        BasicOp::of_code(op_field(word)) is Some
    }
}

/// How many words the instruction that starts with `word` takes: its own,
/// and one for each operand that takes a word. A special instruction has
/// no operand `b`.
pub open spec fn word_length(word: u16) -> int {
    Instruction::of_word(word).len()
}

/// The fields of a word are as wide as their bits, and packing them
/// gives the word back.
pub proof fn lemma_fields(word: u16)
    ensures
        op_field(word) <= 0x1f,
        b_field(word) <= 0x1f,
        a_field(word) <= 0x3f,
        pack(a_field(word), b_field(word), op_field(word)) == word,
{
    assert(word & 0b11111 <= 0x1f && (word >> 5u16) & 0b11111 <= 0x1f && (word >> 10u16) & 0b111111
        <= 0x3f && (((word >> 10u16) & 0b111111) << 10u16) | (((word >> 5u16) & 0b11111) << 5u16) | (
    word & 0b11111) == word) by (bit_vector);
}

/// Fields that fit their bits come back out of the packed word.
pub proof fn lemma_pack(a_code: u16, b_code: u16, op_code: u16)
    requires
        a_code <= 0x3f,
        b_code <= 0x1f,
        op_code <= 0x1f,
    ensures
        a_field(pack(a_code, b_code, op_code)) == a_code,
        b_field(pack(a_code, b_code, op_code)) == b_code,
        op_field(pack(a_code, b_code, op_code)) == op_code,
{
    let word = (a_code << 10u16) | (b_code << 5u16) | op_code;
    assert((word >> 10u16) & 0b111111 == a_code && (word >> 5u16) & 0b11111 == b_code && word
        & 0b11111 == op_code) by (bit_vector)
        requires
            word == (a_code << 10u16) | (b_code << 5u16) | op_code,
            a_code <= 0x3f,
            b_code <= 0x1f,
            op_code <= 0x1f,
    ;
}

impl Instruction {
    /// The operands name registers and literals that exist.
    pub open spec fn wf(self) -> bool {
        match self {
            Instruction::Basic(i) => i.a.wf() && i.b.wf(),
            Instruction::Special(i) => i.a.wf(),
        }
    }

    /// Whether each operand can stand in its field: a push only in
    /// operand `b`; a pop and an inline literal only in operand `a`.
    pub open spec fn encodable(self) -> bool {
        match self {
            Instruction::Basic(i) => !(i.a is Push) && !(i.b is Pop) && !(i.b is Literal),
            Instruction::Special(i) => !(i.a is Push),
        }
    }

    /// The instruction that a word holds (for a word with an opcode
    /// that exists).
    pub open spec fn of_word(word: u16) -> Instruction {
        if op_field(word) == 0 {
            Instruction::Special(
                SpecialInstruction {
                    op: SpecialOp::of_code(b_field(word))->0,
                    a: ValType::of_code(a_field(word), ValSize::A),
                },
            )
        } else {
            Instruction::Basic(
                BasicInstruction {
                    op: BasicOp::of_code(op_field(word))->0,
                    a: ValType::of_code(a_field(word), ValSize::A),
                    b: ValType::of_code(b_field(word), ValSize::B),
                },
            )
        }
    }

    /// The word that holds the instruction.
    pub open spec fn word(self) -> u16 {
        match self {
            Instruction::Basic(i) => pack(i.a.code(), i.b.code(), i.op.code()),
            Instruction::Special(i) => pack(i.a.code(), i.op.code(), 0),
        }
    }

    /// The number of words the instruction takes.
    pub open spec fn len(self) -> int {
        match self {
            Instruction::Basic(i) => 1 + (if i.a.takes_word() {
                1int
            } else {
                0int
            }) + (if i.b.takes_word() {
                1int
            } else {
                0int
            }),
            Instruction::Special(i) => 1 + (if i.a.takes_word() {
                1int
            } else {
                0int
            }),
        }
    }

    /// What the instruction does to state `s`, whose program counter is
    /// already past the instruction's first word: operand `b` is resolved,
    /// then operand `a`, then the opcode is applied.
    #[verifier::opaque]
    pub open spec fn run(self, s: DcpuState) -> (DcpuState, OpResult) {
        match self {
            Instruction::Basic(i) => {
                let (b_kind, s1) = i.b.resolve(s);
                let (a_kind, s2) = i.a.resolve(s1);
                i.op.apply(b_kind, a_kind, s2)
            },
            Instruction::Special(i) => {
                let (a_kind, s1) = i.a.resolve(s);
                i.op.apply(a_kind, s1)
            },
        }
    }

    /// The instruction as it is shown: the opcode's name, operand `b`
    /// and a comma where there is one, operand `a`.
    pub open spec fn text(self) -> Seq<char> {
        match self {
            Instruction::Basic(i) => i.op.mnemonic() + seq![' '] + i.b.text() + seq![',', ' ']
                + i.a.text(),
            Instruction::Special(i) => i.op.mnemonic() + seq![' '] + i.a.text(),
        }
    }

    /// The instruction as it is shown.
    pub fn to_string(&self) -> (s: String)
        requires
            self.wf(),
        ensures
            s@ == self.text(),
    {
        match *self {
            Instruction::Basic(ref i) => {
                let mut s = i.op.to_string();
                s.push(' ');
                s.append(i.b.to_string().as_str());
                s.push(',');
                s.push(' ');
                s.append(i.a.to_string().as_str());
                proof {
                    assert(s@ =~= self.text());
                }
                s
            },
            Instruction::Special(ref i) => {
                let mut s = i.op.to_string();
                s.push(' ');
                s.append(i.a.to_string().as_str());
                proof {
                    assert(s@ =~= self.text());
                }
                s
            },
        }
    }

    /// Decodes a word, if its opcode exists.
    pub fn try_new(word: u16) -> (res: Option<Instruction>)
        ensures
            res is Some == valid_word(word),
            res matches Some(instr) ==> instr == Instruction::of_word(word) && instr.wf(),
    {
        proof {
            lemma_fields(word);
        }
        let lower_bits = word & 0b11111;
        let a_val = (word >> 10) & 0b111111;
        if lower_bits == 0 {
            let op_code = (word >> 5) & 0b11111;
            match SpecialOp::from_code(op_code) {
                Some(op) => Some(
                    Instruction::Special(
                        SpecialInstruction { op, a: ValType::new(a_val, ValSize::A) },
                    ),
                ),
                None => None,
            }
        } else {
            let b_val = (word >> 5) & 0b11111;
            match BasicOp::from_code(lower_bits) {
                Some(op) => Some(
                    Instruction::Basic(
                        BasicInstruction {
                            op,
                            a: ValType::new(a_val, ValSize::A),
                            b: ValType::new(b_val, ValSize::B),
                        },
                    ),
                ),
                None => None,
            }
        }
    }

    /// Decodes a word.
    pub fn new(word: u16) -> (instr: Instruction)
        requires
            valid_word(word),
        ensures
            instr == Instruction::of_word(word),
            instr.wf(),
    {
        match Instruction::try_new(word) {
            Some(instr) => instr,
            None => vstd::pervasive::unreached(),
        }
    }

    /// Encodes the instruction as its first word.
    pub fn encode(&self) -> (word: u16)
        requires
            self.wf(),
        ensures
            word == self.word(),
    {
        match *self {
            Instruction::Basic(ref i) => make_instruction_bits(
                i.a.val_code(),
                i.b.val_code(),
                i.op.op_code(),
            ),
            Instruction::Special(ref i) => make_instruction_bits(i.a.val_code(), i.op.op_code(), 0),
        }
    }

    /// Runs the instruction on a processor whose program counter is
    /// already past the instruction's first word.
    pub fn eval(&self, dcpu: &mut Dcpu) -> (res: OpResult)
        requires
            self.wf(),
        ensures
            (final(dcpu)@, res) == self.run(old(dcpu)@),
    {
        reveal(Instruction::run);
        match *self {
            Instruction::Basic(ref i) => {
                // Always evaluate `b` before `a`.
                let b_val = i.b.eval(dcpu);
                let a_val = i.a.eval(dcpu);
                i.op.eval(b_val, a_val, dcpu)
            },
            Instruction::Special(ref i) => {
                let a_val = i.a.eval(dcpu);
                i.op.eval(a_val, dcpu)
            },
        }
    }

    /// The number of words the instruction takes: 1, 2 or 3.
    pub fn num_words(&self) -> (n: u16)
        ensures
            n == self.len(),
            1 <= n <= 3,
    {
        1 + match *self {
            Instruction::Basic(ref i) => i.a.num_words() + i.b.num_words(),
            Instruction::Special(ref i) => i.a.num_words(),
        }
    }
}

/// Packs three fields into a word: `a_code` from bit 10 up, `b_code` from
/// bit 5, `op_code` from bit 0. A special instruction passes its opcode
/// as `b_code` and 0 as `op_code`.
pub fn make_instruction_bits(a_code: u16, b_code: u16, op_code: u16) -> (word: u16)
    ensures
        word == pack(a_code, b_code, op_code),
{
    (a_code << 10) | (b_code << 5) | op_code
}

/// Decoding the word of an instruction gives the instruction back, for
/// every opcode and every operand that can stand in its field.
pub proof fn lemma_decode_encode(instr: Instruction)
    requires
        instr.wf(),
        instr.encodable(),
    ensures
        valid_word(instr.word()),
        Instruction::of_word(instr.word()) == instr,
{
    match instr {
        Instruction::Basic(i) => {
            lemma_of_code_code(i.a, ValSize::A);
            lemma_of_code_code(i.b, ValSize::B);
            lemma_pack(i.a.code(), i.b.code(), i.op.code());
            i.op.lemma_of_code();
        },
        Instruction::Special(i) => {
            lemma_of_code_code(i.a, ValSize::A);
            lemma_pack(i.a.code(), i.op.code(), 0);
            i.op.lemma_of_code();
        },
    }
}

/// Encoding the instruction that a valid word holds gives the word back.
pub proof fn lemma_encode_decode(word: u16)
    requires
        valid_word(word),
    ensures
        Instruction::of_word(word).word() == word,
        Instruction::of_word(word).wf(),
        Instruction::of_word(word).encodable(),
{
    lemma_fields(word);
    lemma_code_of_code(a_field(word), ValSize::A);
    lemma_code_of_code(b_field(word), ValSize::B);
}

/// An instruction that asks to skip the next one is a test: it has
/// changed nothing but the stack pointer and the program counter, which
/// stands behind the words that its operands took.
pub proof fn lemma_skip_keeps_data(instr: Instruction, s: DcpuState)
    requires
        instr.wf(),
        instr.run(s).1 is SkipNextInstr,
    ensures
        instr.run(s).0 == (DcpuState {
            pc: next_addr(s.pc, instr.len() - 1),
            sp: instr.run(s).0.sp,
            ..s
        }),
{
    reveal(Instruction::run);
    match instr {
        Instruction::Basic(i) => {
            let (b_kind, s1) = i.b.resolve(s);
            let (a_kind, s2) = i.a.resolve(s1);
            lemma_resolve(i.b, s);
            lemma_resolve(i.a, s1);
            i.op.lemma_skip_is_test(b_kind, a_kind, s2);
            i.op.lemma_test(b_kind, a_kind, s2);
        },
        Instruction::Special(i) => {
            let (a_kind, s1) = i.a.resolve(s);
            lemma_resolve(i.a, s);
            reveal(SpecialOp::apply);
        },
    }
}

/// Running an instruction keeps the sizes of the register file and of
/// memory.
pub proof fn lemma_run_keeps_sizes(instr: Instruction, s: DcpuState)
    requires
        instr.wf(),
        s.wf(),
    ensures
        instr.run(s).0.wf(),
{
    reveal(Instruction::run);
    match instr {
        Instruction::Basic(i) => {
            let (b_kind, s1) = i.b.resolve(s);
            let (a_kind, s2) = i.a.resolve(s1);
            lemma_resolve(i.b, s);
            lemma_resolve(i.a, s1);
            i.op.lemma_apply_keeps_sizes(b_kind, a_kind, s2);
        },
        Instruction::Special(i) => {
            let (a_kind, s1) = i.a.resolve(s);
            lemma_resolve(i.a, s);
            i.op.lemma_apply_keeps_sizes(a_kind, s1);
        },
    }
}

} // verus!
