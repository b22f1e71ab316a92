//! Opcodes: their numbers and names, and what each does to the
//! processor once its operands are resolved.
use crate::cpu::next_addr;
use crate::cpu::Dcpu;
use crate::cpu::DcpuState;
use crate::text::chars_of;
use crate::text::is_word;
use crate::text::to_upper;
use crate::val_type::ValKind;
use crate::word::add_words;
use crate::word::asr_word;
use crate::word::asr_words;
use crate::word::div_words;
use crate::word::dvi_words;
use crate::word::mdi_words;
use crate::word::mli_words;
use crate::word::mod_words;
use crate::word::mul_words;
use crate::word::quot;
use crate::word::rem;
use crate::word::shl_excess;
use crate::word::shl_words;
use crate::word::shr_excess;
use crate::word::shr_words;
use crate::word::signed;
use crate::word::sub_words;
use crate::word::to_signed;
use crate::word::wrap;
use vstd::prelude::*;

verus! {

/// Index of register I, which `STI` and `STD` step.
pub const REG_I: u16 = 6;

/// Index of register J, which `STI` and `STD` step.
pub const REG_J: u16 = 7;

/// Tells whether to skip the next instruction or not.
#[derive(Clone, Copy, Debug, PartialEq, Eq, Structural)]
pub enum OpResult {
    NextInstr,
    SkipNextInstr,
}

/// The opcodes with two operands; `b` is read and, but for the tests,
/// written; `a` is only read.
#[derive(Clone, Copy, Debug, PartialEq, Eq, Structural)]
pub enum BasicOp {
    /// Copies `a` to `b`.
    SET,
    /// Adds `a` to `b`; the excess is the carry.
    ADD,
    /// Subtracts `a` from `b`; the excess is 0xffff on a borrow.
    SUB,
    /// Multiplies unsigned; the excess is the high word.
    MUL,
    /// Multiplies signed; the excess is the high word.
    MLI,
    /// Divides unsigned; the excess is the fraction. By zero: 0 and 0.
    DIV,
    /// Divides signed, rounding towards zero. By zero: 0 and 0.
    DVI,
    /// Unsigned remainder. By zero: 0.
    MOD,
    /// Signed remainder, with the sign of `b`. By zero: 0.
    MDI,
    /// Bitwise and.
    AND,
    /// Bitwise or.
    BOR,
    /// Bitwise exclusive or.
    XOR,
    /// Shifts right, zeros coming in; the excess is what went out.
    SHR,
    /// Shifts right, the sign bit coming in; the excess is what went out.
    ASR,
    /// Shifts left; the excess is what went out.
    SHL,
    /// Runs the next instruction only if `b & a` is not zero.
    IFB,
    /// Runs the next instruction only if `b & a` is zero.
    IFC,
    /// Runs the next instruction only if `b == a`.
    IFE,
    /// Runs the next instruction only if `b != a`.
    IFN,
    /// Runs the next instruction only if `b > a`, unsigned.
    IFG,
    /// Runs the next instruction only if `b > a`, signed.
    IFA,
    /// Runs the next instruction only if `b < a`, unsigned.
    IFL,
    /// Runs the next instruction only if `b < a`, signed.
    IFU,
    /// Adds `a` and the excess to `b`; the excess is the carry.
    ADX,
    /// Subtracts `a` from `b` and adds the excess.
    SBX,
    /// Copies `a` to `b`, then adds one to registers I and J.
    STI,
    /// Copies `a` to `b`, then takes one from registers I and J.
    STD,
}

/// The opcodes with one operand, `a`.
#[derive(Clone, Copy, Debug, PartialEq, Eq, Structural)]
pub enum SpecialOp {
    /// Pushes the address of the next instruction and jumps to `a`.
    JSR,
    /// Software interrupt (does nothing here).
    INT,
    /// Copies the interrupt address to `a`.
    IAG,
    /// Sets the interrupt address to `a`.
    IAS,
    /// Return from interrupt (does nothing here).
    RFI,
    /// Interrupt queueing (does nothing here).
    IAQ,
    /// Number of devices: stores 0 to `a`.
    HWN,
    /// Device query (does nothing here).
    HWQ,
    /// Device interrupt (does nothing here).
    HWI,
}

/// The names of the basic opcodes, letter by letter.
proof fn lemma_basic_mnemonics()
    ensures
        forall|x: BasicOp, y: BasicOp| #[trigger] x.mnemonic() == #[trigger] y.mnemonic() ==> x == y,
        forall|x: BasicOp| (#[trigger] x.mnemonic()).len() == 3,
{
    reveal_strlit("SET");
    reveal_strlit("ADD");
    reveal_strlit("SUB");
    reveal_strlit("MUL");
    reveal_strlit("MLI");
    reveal_strlit("DIV");
    reveal_strlit("DVI");
    reveal_strlit("MOD");
    reveal_strlit("MDI");
    reveal_strlit("AND");
    reveal_strlit("BOR");
    reveal_strlit("XOR");
    reveal_strlit("SHR");
    reveal_strlit("ASR");
    reveal_strlit("SHL");
    reveal_strlit("IFB");
    reveal_strlit("IFC");
    reveal_strlit("IFE");
    reveal_strlit("IFN");
    reveal_strlit("IFG");
    reveal_strlit("IFA");
    reveal_strlit("IFL");
    reveal_strlit("IFU");
    reveal_strlit("ADX");
    reveal_strlit("SBX");
    reveal_strlit("STI");
    reveal_strlit("STD");
    assert forall|x: BasicOp, y: BasicOp| #[trigger] x.mnemonic() == #[trigger] y.mnemonic() implies x == y by {
        let m = x.mnemonic();
        let n = y.mnemonic();
        assert(m[0] == n[0] && m[1] == n[1] && m[2] == n[2]);
    }
}

/// The names of the special opcodes, letter by letter.
proof fn lemma_special_mnemonics()
    ensures
        forall|x: SpecialOp, y: SpecialOp| #[trigger] x.mnemonic() == #[trigger] y.mnemonic() ==> x == y,
        forall|x: SpecialOp| (#[trigger] x.mnemonic()).len() == 3,
{
    reveal_strlit("JSR");
    reveal_strlit("INT");
    reveal_strlit("IAG");
    reveal_strlit("IAS");
    reveal_strlit("RFI");
    reveal_strlit("IAQ");
    reveal_strlit("HWN");
    reveal_strlit("HWQ");
    reveal_strlit("HWI");
    assert forall|x: SpecialOp, y: SpecialOp| #[trigger] x.mnemonic() == #[trigger] y.mnemonic() implies x == y by {
        let m = x.mnemonic();
        let n = y.mnemonic();
        assert(m[0] == n[0] && m[1] == n[1] && m[2] == n[2]);
    }
}

impl BasicOp {
    /// The opcode's number.
    pub open spec fn code(self) -> u16 {
        match self {
            BasicOp::SET => 0x01,
            BasicOp::ADD => 0x02,
            BasicOp::SUB => 0x03,
            BasicOp::MUL => 0x04,
            BasicOp::MLI => 0x05,
            BasicOp::DIV => 0x06,
            BasicOp::DVI => 0x07,
            BasicOp::MOD => 0x08,
            BasicOp::MDI => 0x09,
            BasicOp::AND => 0x0a,
            BasicOp::BOR => 0x0b,
            BasicOp::XOR => 0x0c,
            BasicOp::SHR => 0x0d,
            BasicOp::ASR => 0x0e,
            BasicOp::SHL => 0x0f,
            BasicOp::IFB => 0x10,
            BasicOp::IFC => 0x11,
            BasicOp::IFE => 0x12,
            BasicOp::IFN => 0x13,
            BasicOp::IFG => 0x14,
            BasicOp::IFA => 0x15,
            BasicOp::IFL => 0x16,
            BasicOp::IFU => 0x17,
            BasicOp::ADX => 0x1a,
            BasicOp::SBX => 0x1b,
            BasicOp::STI => 0x1e,
            BasicOp::STD => 0x1f,
        }
    }

    /// The opcode with this number, if there is one.
    pub open spec fn of_code(op_code: u16) -> Option<BasicOp> {
        if op_code == 0x01 {
            Some(BasicOp::SET)
        } else if op_code == 0x02 {
            Some(BasicOp::ADD)
        } else if op_code == 0x03 {
            Some(BasicOp::SUB)
        } else if op_code == 0x04 {
            Some(BasicOp::MUL)
        } else if op_code == 0x05 {
            Some(BasicOp::MLI)
        } else if op_code == 0x06 {
            Some(BasicOp::DIV)
        } else if op_code == 0x07 {
            Some(BasicOp::DVI)
        } else if op_code == 0x08 {
            Some(BasicOp::MOD)
        } else if op_code == 0x09 {
            Some(BasicOp::MDI)
        } else if op_code == 0x0a {
            Some(BasicOp::AND)
        } else if op_code == 0x0b {
            Some(BasicOp::BOR)
        } else if op_code == 0x0c {
            Some(BasicOp::XOR)
        } else if op_code == 0x0d {
            Some(BasicOp::SHR)
        } else if op_code == 0x0e {
            Some(BasicOp::ASR)
        } else if op_code == 0x0f {
            Some(BasicOp::SHL)
        } else if op_code == 0x10 {
            Some(BasicOp::IFB)
        } else if op_code == 0x11 {
            Some(BasicOp::IFC)
        } else if op_code == 0x12 {
            Some(BasicOp::IFE)
        } else if op_code == 0x13 {
            Some(BasicOp::IFN)
        } else if op_code == 0x14 {
            Some(BasicOp::IFG)
        } else if op_code == 0x15 {
            Some(BasicOp::IFA)
        } else if op_code == 0x16 {
            Some(BasicOp::IFL)
        } else if op_code == 0x17 {
            Some(BasicOp::IFU)
        } else if op_code == 0x1a {
            Some(BasicOp::ADX)
        } else if op_code == 0x1b {
            Some(BasicOp::SBX)
        } else if op_code == 0x1e {
            Some(BasicOp::STI)
        } else if op_code == 0x1f {
            Some(BasicOp::STD)
        } else {
            None
        }
    }

    /// The opcode's name, in upper case.
    pub open spec fn mnemonic(self) -> Seq<char> {
        match self {
            BasicOp::SET => "SET"@,
            BasicOp::ADD => "ADD"@,
            BasicOp::SUB => "SUB"@,
            BasicOp::MUL => "MUL"@,
            BasicOp::MLI => "MLI"@,
            BasicOp::DIV => "DIV"@,
            BasicOp::DVI => "DVI"@,
            BasicOp::MOD => "MOD"@,
            BasicOp::MDI => "MDI"@,
            BasicOp::AND => "AND"@,
            BasicOp::BOR => "BOR"@,
            BasicOp::XOR => "XOR"@,
            BasicOp::SHR => "SHR"@,
            BasicOp::ASR => "ASR"@,
            BasicOp::SHL => "SHL"@,
            BasicOp::IFB => "IFB"@,
            BasicOp::IFC => "IFC"@,
            BasicOp::IFE => "IFE"@,
            BasicOp::IFN => "IFN"@,
            BasicOp::IFG => "IFG"@,
            BasicOp::IFA => "IFA"@,
            BasicOp::IFL => "IFL"@,
            BasicOp::IFU => "IFU"@,
            BasicOp::ADX => "ADX"@,
            BasicOp::SBX => "SBX"@,
            BasicOp::STI => "STI"@,
            BasicOp::STD => "STD"@,
        }
    }

    /// The opcode that a name stands for, whatever the case of its
    /// letters, if it is the name of one.
    pub open spec fn of_name(name: Seq<char>) -> Option<BasicOp> {
        if exists|op: BasicOp| #[trigger] op.mnemonic() == to_upper(name) {
            Some(choose|op: BasicOp| #[trigger] op.mnemonic() == to_upper(name))
        } else {
            None
        }
    }

    /// An opcode is the one that its number stands for: no two opcodes
    /// share a number.
    pub proof fn lemma_of_code(self)
        ensures
            BasicOp::of_code(self.code()) == Some(self),
    {
    }

    /// Every opcode's name has three letters.
    pub proof fn lemma_mnemonic_len(self)
        ensures
            self.mnemonic().len() == 3,
    {
        lemma_basic_mnemonics();
    }

    /// No two opcodes share a name.
    pub proof fn lemma_mnemonic_unique(self, other: BasicOp)
        requires
            self.mnemonic() == other.mnemonic(),
        ensures
            self == other,
    {
        lemma_basic_mnemonics();
    }

    /// Decodes an opcode number, if it is one.
    pub fn from_code(op_code: u16) -> (res: Option<BasicOp>)
        ensures
            res == BasicOp::of_code(op_code),
            res matches Some(op) ==> op.code() == op_code,
    {
        let res =
        if op_code == 0x01 {
            Some(BasicOp::SET)
        } else if op_code == 0x02 {
            Some(BasicOp::ADD)
        } else if op_code == 0x03 {
            Some(BasicOp::SUB)
        } else if op_code == 0x04 {
            Some(BasicOp::MUL)
        } else if op_code == 0x05 {
            Some(BasicOp::MLI)
        } else if op_code == 0x06 {
            Some(BasicOp::DIV)
        } else if op_code == 0x07 {
            Some(BasicOp::DVI)
        } else if op_code == 0x08 {
            Some(BasicOp::MOD)
        } else if op_code == 0x09 {
            Some(BasicOp::MDI)
        } else if op_code == 0x0a {
            Some(BasicOp::AND)
        } else if op_code == 0x0b {
            Some(BasicOp::BOR)
        } else if op_code == 0x0c {
            Some(BasicOp::XOR)
        } else if op_code == 0x0d {
            Some(BasicOp::SHR)
        } else if op_code == 0x0e {
            Some(BasicOp::ASR)
        } else if op_code == 0x0f {
            Some(BasicOp::SHL)
        } else if op_code == 0x10 {
            Some(BasicOp::IFB)
        } else if op_code == 0x11 {
            Some(BasicOp::IFC)
        } else if op_code == 0x12 {
            Some(BasicOp::IFE)
        } else if op_code == 0x13 {
            Some(BasicOp::IFN)
        } else if op_code == 0x14 {
            Some(BasicOp::IFG)
        } else if op_code == 0x15 {
            Some(BasicOp::IFA)
        } else if op_code == 0x16 {
            Some(BasicOp::IFL)
        } else if op_code == 0x17 {
            Some(BasicOp::IFU)
        } else if op_code == 0x1a {
            Some(BasicOp::ADX)
        } else if op_code == 0x1b {
            Some(BasicOp::SBX)
        } else if op_code == 0x1e {
            Some(BasicOp::STI)
        } else if op_code == 0x1f {
            Some(BasicOp::STD)
        } else {
            None
        };
        res
    }

    /// Decodes an opcode number.
    pub fn new(op_code: u16) -> (op: BasicOp)
        requires
            BasicOp::of_code(op_code) is Some,
        ensures
            Some(op) == BasicOp::of_code(op_code),
            op.code() == op_code,
    {
        match BasicOp::from_code(op_code) {
            Some(op) => op,
            None => vstd::pervasive::unreached(),
        }
    }

    /// The opcode's number.
    pub fn op_code(&self) -> (op_code: u16)
        ensures
            op_code == self.code(),
            1 <= op_code <= 0x1f,
            BasicOp::of_code(op_code) == Some(*self),
    {
        let op_code: u16 = match *self {
            BasicOp::SET => 0x01,
            BasicOp::ADD => 0x02,
            BasicOp::SUB => 0x03,
            BasicOp::MUL => 0x04,
            BasicOp::MLI => 0x05,
            BasicOp::DIV => 0x06,
            BasicOp::DVI => 0x07,
            BasicOp::MOD => 0x08,
            BasicOp::MDI => 0x09,
            BasicOp::AND => 0x0a,
            BasicOp::BOR => 0x0b,
            BasicOp::XOR => 0x0c,
            BasicOp::SHR => 0x0d,
            BasicOp::ASR => 0x0e,
            BasicOp::SHL => 0x0f,
            BasicOp::IFB => 0x10,
            BasicOp::IFC => 0x11,
            BasicOp::IFE => 0x12,
            BasicOp::IFN => 0x13,
            BasicOp::IFG => 0x14,
            BasicOp::IFA => 0x15,
            BasicOp::IFL => 0x16,
            BasicOp::IFU => 0x17,
            BasicOp::ADX => 0x1a,
            BasicOp::SBX => 0x1b,
            BasicOp::STI => 0x1e,
            BasicOp::STD => 0x1f,
        };
        op_code
    }

    /// The cycles the opcode costs, its operands not counted.
    pub fn num_cycles(&self) -> (n: u16)
        ensures
            n == self.cycles(),
    {
        match *self {
            BasicOp::SET => 1,
            BasicOp::ADD => 2,
            BasicOp::SUB => 2,
            BasicOp::MUL => 2,
            BasicOp::MLI => 2,
            BasicOp::DIV => 3,
            BasicOp::DVI => 3,
            BasicOp::MOD => 3,
            BasicOp::MDI => 3,
            BasicOp::AND => 1,
            BasicOp::BOR => 1,
            BasicOp::XOR => 1,
            BasicOp::SHR => 1,
            BasicOp::ASR => 1,
            BasicOp::SHL => 1,
            BasicOp::IFB => 2,
            BasicOp::IFC => 2,
            BasicOp::IFE => 2,
            BasicOp::IFN => 2,
            BasicOp::IFG => 2,
            BasicOp::IFA => 2,
            BasicOp::IFL => 2,
            BasicOp::IFU => 2,
            BasicOp::ADX => 3,
            BasicOp::SBX => 3,
            BasicOp::STI => 2,
            BasicOp::STD => 2,
        }
    }

    /// The opcode's name, in upper case.
    pub fn name(&self) -> (name: &'static str)
        ensures
            name@ == self.mnemonic(),
    {
        match *self {
            BasicOp::SET => "SET",
            BasicOp::ADD => "ADD",
            BasicOp::SUB => "SUB",
            BasicOp::MUL => "MUL",
            BasicOp::MLI => "MLI",
            BasicOp::DIV => "DIV",
            BasicOp::DVI => "DVI",
            BasicOp::MOD => "MOD",
            BasicOp::MDI => "MDI",
            BasicOp::AND => "AND",
            BasicOp::BOR => "BOR",
            BasicOp::XOR => "XOR",
            BasicOp::SHR => "SHR",
            BasicOp::ASR => "ASR",
            BasicOp::SHL => "SHL",
            BasicOp::IFB => "IFB",
            BasicOp::IFC => "IFC",
            BasicOp::IFE => "IFE",
            BasicOp::IFN => "IFN",
            BasicOp::IFG => "IFG",
            BasicOp::IFA => "IFA",
            BasicOp::IFL => "IFL",
            BasicOp::IFU => "IFU",
            BasicOp::ADX => "ADX",
            BasicOp::SBX => "SBX",
            BasicOp::STI => "STI",
            BasicOp::STD => "STD",
        }
    }

    /// The opcode as it is shown: its name.
    pub fn to_string(&self) -> (s: String)
        ensures
            s@ == self.mnemonic(),
    {
        String::from_str(self.name())
    }

    /// Finds the opcode that a name stands for; the case of its letters
    /// does not matter.
    pub fn from_name(name: &[char]) -> (res: Option<BasicOp>)
        ensures
            res == BasicOp::of_name(name@),
    {
        let res =
        if is_word(name, "SET") {
            Some(BasicOp::SET)
        } else if is_word(name, "ADD") {
            Some(BasicOp::ADD)
        } else if is_word(name, "SUB") {
            Some(BasicOp::SUB)
        } else if is_word(name, "MUL") {
            Some(BasicOp::MUL)
        } else if is_word(name, "MLI") {
            Some(BasicOp::MLI)
        } else if is_word(name, "DIV") {
            Some(BasicOp::DIV)
        } else if is_word(name, "DVI") {
            Some(BasicOp::DVI)
        } else if is_word(name, "MOD") {
            Some(BasicOp::MOD)
        } else if is_word(name, "MDI") {
            Some(BasicOp::MDI)
        } else if is_word(name, "AND") {
            Some(BasicOp::AND)
        } else if is_word(name, "BOR") {
            Some(BasicOp::BOR)
        } else if is_word(name, "XOR") {
            Some(BasicOp::XOR)
        } else if is_word(name, "SHR") {
            Some(BasicOp::SHR)
        } else if is_word(name, "ASR") {
            Some(BasicOp::ASR)
        } else if is_word(name, "SHL") {
            Some(BasicOp::SHL)
        } else if is_word(name, "IFB") {
            Some(BasicOp::IFB)
        } else if is_word(name, "IFC") {
            Some(BasicOp::IFC)
        } else if is_word(name, "IFE") {
            Some(BasicOp::IFE)
        } else if is_word(name, "IFN") {
            Some(BasicOp::IFN)
        } else if is_word(name, "IFG") {
            Some(BasicOp::IFG)
        } else if is_word(name, "IFA") {
            Some(BasicOp::IFA)
        } else if is_word(name, "IFL") {
            Some(BasicOp::IFL)
        } else if is_word(name, "IFU") {
            Some(BasicOp::IFU)
        } else if is_word(name, "ADX") {
            Some(BasicOp::ADX)
        } else if is_word(name, "SBX") {
            Some(BasicOp::SBX)
        } else if is_word(name, "STI") {
            Some(BasicOp::STI)
        } else if is_word(name, "STD") {
            Some(BasicOp::STD)
        } else {
            None
        };
        proof {
            match res {
                Some(op) => {
                    assert(op.mnemonic() == to_upper(name@));
                    let chosen = choose|o: BasicOp| #[trigger] o.mnemonic() == to_upper(name@);
                    op.lemma_mnemonic_unique(chosen);
                },
                None => {
                    assert forall|o: BasicOp| #[trigger] o.mnemonic() != to_upper(name@) by {}
                },
            }
        }
        res
    }

    /// Finds the opcode that a name stands for; the case of its letters
    /// does not matter.
    pub fn try_from(op_name: &str) -> (res: Option<BasicOp>)
        ensures
            res == BasicOp::of_name(op_name@),
    {
        let name = chars_of(op_name);
        BasicOp::from_name(name.as_slice())
    }

    /// The cycles the opcode costs, its operands not counted. A test
    /// that fails costs one more.
    pub open spec fn cycles(self) -> u16 {
        match self {
            BasicOp::SET => 1,
            BasicOp::ADD => 2,
            BasicOp::SUB => 2,
            BasicOp::MUL => 2,
            BasicOp::MLI => 2,
            BasicOp::DIV => 3,
            BasicOp::DVI => 3,
            BasicOp::MOD => 3,
            BasicOp::MDI => 3,
            BasicOp::AND => 1,
            BasicOp::BOR => 1,
            BasicOp::XOR => 1,
            BasicOp::SHR => 1,
            BasicOp::ASR => 1,
            BasicOp::SHL => 1,
            BasicOp::IFB => 2,
            BasicOp::IFC => 2,
            BasicOp::IFE => 2,
            BasicOp::IFN => 2,
            BasicOp::IFG => 2,
            BasicOp::IFA => 2,
            BasicOp::IFL => 2,
            BasicOp::IFU => 2,
            BasicOp::ADX => 3,
            BasicOp::SBX => 3,
            BasicOp::STI => 2,
            BasicOp::STD => 2,
        }
    }

    /// Whether the opcode is a test: it changes nothing and decides
    /// whether the next instruction runs.
    pub open spec fn is_test(self) -> bool {
        self is IFB || self is IFC || self is IFE || self is IFN || self is IFG || self is IFA
            || self is IFL || self is IFU
    }

    /// Whether a test lets the next instruction run.
    pub open spec fn holds(self, b: u16, a: u16) -> bool {
        match self {
            BasicOp::IFB => b & a != 0,
            BasicOp::IFC => b & a == 0,
            BasicOp::IFE => b == a,
            BasicOp::IFN => b != a,
            BasicOp::IFG => b > a,
            BasicOp::IFA => signed(b) > signed(a),
            BasicOp::IFL => b < a,
            BasicOp::IFU => signed(b) < signed(a),
            _ => true,
        }
    }

    /// The word that the opcode stores to `b`, given the values of both
    /// operands and of the excess register before it.
    pub open spec fn result(self, b: u16, a: u16, ex: u16) -> u16 {
        match self {
            BasicOp::SET => a,
            BasicOp::ADD => wrap(b + a),
            BasicOp::SUB => wrap(b - a),
            BasicOp::MUL => wrap(b * a),
            BasicOp::MLI => wrap(signed(b) * signed(a)),
            BasicOp::DIV => if a == 0 {
                0
            } else {
                b / a
            },
            BasicOp::DVI => if a == 0 {
                0
            } else {
                wrap(quot(signed(b), signed(a)))
            },
            BasicOp::MOD => if a == 0 {
                0
            } else {
                b % a
            },
            BasicOp::MDI => if a == 0 {
                0
            } else {
                wrap(rem(signed(b), signed(a)))
            },
            BasicOp::AND => b & a,
            BasicOp::BOR => b | a,
            BasicOp::XOR => b ^ a,
            BasicOp::SHR => b >> a,
            BasicOp::ASR => asr_word(b, a),
            BasicOp::SHL => b << a,
            BasicOp::ADX => wrap(b + a + ex),
            BasicOp::SBX => wrap(b - a + ex),
            BasicOp::STI => a,
            BasicOp::STD => a,
            _ => b,
        }
    }

    /// The excess register after the opcode: 1 for a carry, 0xffff for a
    /// borrow, the high word of a product, the bits that a shift pushed
    /// out, the fraction behind a quotient; 0 where such an opcode has
    /// none of these; unchanged by every other opcode.
    pub open spec fn excess(self, b: u16, a: u16, ex: u16) -> u16 {
        match self {
            BasicOp::ADD => if b + a > 0xffff {
                1
            } else {
                0
            },
            BasicOp::SUB => if b - a < 0 {
                0xffff
            } else {
                0
            },
            BasicOp::MUL => wrap(b * a / 0x1_0000),
            BasicOp::MLI => wrap(signed(b) * signed(a) / 0x1_0000),
            BasicOp::DIV => if a == 0 {
                0
            } else {
                wrap(b * 0x1_0000 / a as int)
            },
            BasicOp::DVI => if a == 0 {
                0
            } else {
                wrap(quot(signed(b) * 0x1_0000, signed(a)))
            },
            BasicOp::SHR => shr_excess(b, a),
            BasicOp::ASR => shr_excess(b, a),
            BasicOp::SHL => shl_excess(b, a),
            BasicOp::ADX => if b + a + ex > 0xffff {
                1
            } else {
                0
            },
            BasicOp::SBX => if b - a + ex < 0 {
                0xffff
            } else if b - a + ex > 0xffff {
                1
            } else {
                0
            },
            _ => ex,
        }
    }

    /// By how much the opcode steps registers I and J after its store.
    pub open spec fn stride(self) -> int {
        match self {
            BasicOp::STI => 1,
            BasicOp::STD => -1,
            _ => 0,
        }
    }

    /// What the opcode does to state `s`, given its resolved operands. A
    /// test changes nothing and asks to skip the next instruction where
    /// it fails. Any other opcode reads both operands, sets the excess
    /// register, stores its result to `b` (dropped where `b` is a
    /// literal), and `STI` and `STD` then step registers I and J.
    #[verifier::opaque]
    pub open spec fn apply(self, b_kind: ValKind, a_kind: ValKind, s: DcpuState) -> (
        DcpuState,
        OpResult,
    ) {
        let a = s.read(a_kind);
        let b = s.read(b_kind);
        if self.is_test() {
            (
                s,
                if self.holds(b, a) {
                    OpResult::NextInstr
                } else {
                    OpResult::SkipNextInstr
                },
            )
        } else {
            let stored = s.set_ex(self.excess(b, a, s.ex)).write(b_kind, self.result(b, a, s.ex));
            let stepped = if self.stride() == 0 {
                stored
            } else {
                let i = stored.set_reg(REG_I, wrap(stored.reg[REG_I as int] + self.stride()));
                i.set_reg(REG_J, wrap(i.reg[REG_J as int] + self.stride()))
            };
            (stepped, OpResult::NextInstr)
        }
    }

    /// A test changes nothing, and lets the next instruction run exactly
    /// if it holds of the two values.
    pub proof fn lemma_test(self, b_kind: ValKind, a_kind: ValKind, s: DcpuState)
        requires
            self.is_test(),
        ensures
            self.apply(b_kind, a_kind, s).0 == s,
            self.apply(b_kind, a_kind, s).1 is NextInstr <==> self.holds(
                s.read(b_kind),
                s.read(a_kind),
            ),
    {
        reveal(BasicOp::apply);
    }

    /// Only a test asks to skip the next instruction.
    pub proof fn lemma_skip_is_test(self, b_kind: ValKind, a_kind: ValKind, s: DcpuState)
        requires
            self.apply(b_kind, a_kind, s).1 is SkipNextInstr,
        ensures
            self.is_test(),
    {
        reveal(BasicOp::apply);
    }

    /// The opcode keeps the sizes of the register file and of memory.
    pub proof fn lemma_apply_keeps_sizes(self, b_kind: ValKind, a_kind: ValKind, s: DcpuState)
        requires
            s.wf(),
            b_kind.wf(),
        ensures
            self.apply(b_kind, a_kind, s).0.wf(),
    {
        reveal(BasicOp::apply);
    }

    /// Runs the opcode on the processor. The operands were resolved
    /// before, `b` first.
    pub fn eval(&self, b_kind: ValKind, a_kind: ValKind, dcpu: &mut Dcpu) -> (res: OpResult)
        requires
            b_kind.wf(),
            a_kind.wf(),
        ensures
            (final(dcpu)@, res) == self.apply(b_kind, a_kind, old(dcpu)@),
    {
        reveal(BasicOp::apply);
        let a_val = read(a_kind, dcpu);
        let b_val = read(b_kind, dcpu);

        match *self {
            BasicOp::SET => {
                self::set(b_kind, a_val, dcpu);
                OpResult::NextInstr
            },
            BasicOp::ADD => {
                let (result, ex_val) = add_words(b_val, a_val, 0);
                dcpu.set_ex(ex_val);
                self::set(b_kind, result, dcpu);
                OpResult::NextInstr
            },
            BasicOp::SUB => {
                let (result, ex_val) = sub_words(b_val, a_val, 0);
                dcpu.set_ex(ex_val);
                self::set(b_kind, result, dcpu);
                OpResult::NextInstr
            },
            BasicOp::MUL => {
                let (result, ex_val) = mul_words(b_val, a_val);
                dcpu.set_ex(ex_val);
                self::set(b_kind, result, dcpu);
                OpResult::NextInstr
            },
            BasicOp::MLI => {
                let (result, ex_val) = mli_words(b_val, a_val);
                dcpu.set_ex(ex_val);
                self::set(b_kind, result, dcpu);
                OpResult::NextInstr
            },
            BasicOp::DIV => {
                let (result, ex_val) = div_words(b_val, a_val);
                dcpu.set_ex(ex_val);
                self::set(b_kind, result, dcpu);
                OpResult::NextInstr
            },
            BasicOp::DVI => {
                let (result, ex_val) = dvi_words(b_val, a_val);
                dcpu.set_ex(ex_val);
                self::set(b_kind, result, dcpu);
                OpResult::NextInstr
            },
            BasicOp::MOD => {
                self::set(b_kind, mod_words(b_val, a_val), dcpu);
                OpResult::NextInstr
            },
            BasicOp::MDI => {
                self::set(b_kind, mdi_words(b_val, a_val), dcpu);
                OpResult::NextInstr
            },
            BasicOp::AND => {
                self::set(b_kind, b_val & a_val, dcpu);
                OpResult::NextInstr
            },
            BasicOp::BOR => {
                self::set(b_kind, b_val | a_val, dcpu);
                OpResult::NextInstr
            },
            BasicOp::XOR => {
                self::set(b_kind, b_val ^ a_val, dcpu);
                OpResult::NextInstr
            },
            BasicOp::SHR => {
                let (result, ex_val) = shr_words(b_val, a_val);
                dcpu.set_ex(ex_val);
                self::set(b_kind, result, dcpu);
                OpResult::NextInstr
            },
            BasicOp::ASR => {
                let (result, ex_val) = asr_words(b_val, a_val);
                dcpu.set_ex(ex_val);
                self::set(b_kind, result, dcpu);
                OpResult::NextInstr
            },
            BasicOp::SHL => {
                let (result, ex_val) = shl_words(b_val, a_val);
                dcpu.set_ex(ex_val);
                self::set(b_kind, result, dcpu);
                OpResult::NextInstr
            },
            BasicOp::IFB => {
                if (b_val & a_val) != 0 {
                    OpResult::NextInstr
                } else {
                    OpResult::SkipNextInstr
                }
            },
            BasicOp::IFC => {
                if (b_val & a_val) == 0 {
                    OpResult::NextInstr
                } else {
                    OpResult::SkipNextInstr
                }
            },
            BasicOp::IFE => {
                if b_val == a_val {
                    OpResult::NextInstr
                } else {
                    OpResult::SkipNextInstr
                }
            },
            BasicOp::IFN => {
                if b_val != a_val {
                    OpResult::NextInstr
                } else {
                    OpResult::SkipNextInstr
                }
            },
            BasicOp::IFG => {
                if b_val > a_val {
                    OpResult::NextInstr
                } else {
                    OpResult::SkipNextInstr
                }
            },
            BasicOp::IFA => {
                if to_signed(b_val) > to_signed(a_val) {
                    OpResult::NextInstr
                } else {
                    OpResult::SkipNextInstr
                }
            },
            BasicOp::IFL => {
                if b_val < a_val {
                    OpResult::NextInstr
                } else {
                    OpResult::SkipNextInstr
                }
            },
            BasicOp::IFU => {
                if to_signed(b_val) < to_signed(a_val) {
                    OpResult::NextInstr
                } else {
                    OpResult::SkipNextInstr
                }
            },
            BasicOp::ADX => {
                let (result, ex_val) = add_words(b_val, a_val, dcpu.ex());
                dcpu.set_ex(ex_val);
                self::set(b_kind, result, dcpu);
                OpResult::NextInstr
            },
            BasicOp::SBX => {
                let (result, ex_val) = sub_words(b_val, a_val, dcpu.ex());
                dcpu.set_ex(ex_val);
                self::set(b_kind, result, dcpu);
                OpResult::NextInstr
            },
            BasicOp::STI => {
                self::set(b_kind, a_val, dcpu);
                let i_reg = dcpu.reg(REG_I);
                dcpu.set_reg(REG_I, i_reg.wrapping_add(1));
                let j_reg = dcpu.reg(REG_J);
                dcpu.set_reg(REG_J, j_reg.wrapping_add(1));
                OpResult::NextInstr
            },
            BasicOp::STD => {
                self::set(b_kind, a_val, dcpu);
                let i_reg = dcpu.reg(REG_I);
                dcpu.set_reg(REG_I, i_reg.wrapping_sub(1));
                let j_reg = dcpu.reg(REG_J);
                dcpu.set_reg(REG_J, j_reg.wrapping_sub(1));
                OpResult::NextInstr
            },
        }
    }
}

impl SpecialOp {
    /// The opcode's number.
    pub open spec fn code(self) -> u16 {
        match self {
            SpecialOp::JSR => 0x01,
            SpecialOp::INT => 0x08,
            SpecialOp::IAG => 0x09,
            SpecialOp::IAS => 0x0a,
            SpecialOp::RFI => 0x0b,
            SpecialOp::IAQ => 0x0c,
            SpecialOp::HWN => 0x10,
            SpecialOp::HWQ => 0x11,
            SpecialOp::HWI => 0x12,
        }
    }

    /// The opcode with this number, if there is one.
    pub open spec fn of_code(op_code: u16) -> Option<SpecialOp> {
        if op_code == 0x01 {
            Some(SpecialOp::JSR)
        } else if op_code == 0x08 {
            Some(SpecialOp::INT)
        } else if op_code == 0x09 {
            Some(SpecialOp::IAG)
        } else if op_code == 0x0a {
            Some(SpecialOp::IAS)
        } else if op_code == 0x0b {
            Some(SpecialOp::RFI)
        } else if op_code == 0x0c {
            Some(SpecialOp::IAQ)
        } else if op_code == 0x10 {
            Some(SpecialOp::HWN)
        } else if op_code == 0x11 {
            Some(SpecialOp::HWQ)
        } else if op_code == 0x12 {
            Some(SpecialOp::HWI)
        } else {
            None
        }
    }

    /// The opcode's name, in upper case.
    pub open spec fn mnemonic(self) -> Seq<char> {
        match self {
            SpecialOp::JSR => "JSR"@,
            SpecialOp::INT => "INT"@,
            SpecialOp::IAG => "IAG"@,
            SpecialOp::IAS => "IAS"@,
            SpecialOp::RFI => "RFI"@,
            SpecialOp::IAQ => "IAQ"@,
            SpecialOp::HWN => "HWN"@,
            SpecialOp::HWQ => "HWQ"@,
            SpecialOp::HWI => "HWI"@,
        }
    }

    /// The opcode that a name stands for, whatever the case of its
    /// letters, if it is the name of one.
    pub open spec fn of_name(name: Seq<char>) -> Option<SpecialOp> {
        if exists|op: SpecialOp| #[trigger] op.mnemonic() == to_upper(name) {
            Some(choose|op: SpecialOp| #[trigger] op.mnemonic() == to_upper(name))
        } else {
            None
        }
    }

    /// An opcode is the one that its number stands for: no two opcodes
    /// share a number.
    pub proof fn lemma_of_code(self)
        ensures
            SpecialOp::of_code(self.code()) == Some(self),
    {
    }

    /// Every opcode's name has three letters.
    pub proof fn lemma_mnemonic_len(self)
        ensures
            self.mnemonic().len() == 3,
    {
        lemma_special_mnemonics();
    }

    /// No two opcodes share a name.
    pub proof fn lemma_mnemonic_unique(self, other: SpecialOp)
        requires
            self.mnemonic() == other.mnemonic(),
        ensures
            self == other,
    {
        lemma_special_mnemonics();
    }

    /// Decodes an opcode number, if it is one.
    pub fn from_code(op_code: u16) -> (res: Option<SpecialOp>)
        ensures
            res == SpecialOp::of_code(op_code),
            res matches Some(op) ==> op.code() == op_code,
    {
        let res =
        if op_code == 0x01 {
            Some(SpecialOp::JSR)
        } else if op_code == 0x08 {
            Some(SpecialOp::INT)
        } else if op_code == 0x09 {
            Some(SpecialOp::IAG)
        } else if op_code == 0x0a {
            Some(SpecialOp::IAS)
        } else if op_code == 0x0b {
            Some(SpecialOp::RFI)
        } else if op_code == 0x0c {
            Some(SpecialOp::IAQ)
        } else if op_code == 0x10 {
            Some(SpecialOp::HWN)
        } else if op_code == 0x11 {
            Some(SpecialOp::HWQ)
        } else if op_code == 0x12 {
            Some(SpecialOp::HWI)
        } else {
            None
        };
        res
    }

    /// Decodes an opcode number.
    pub fn new(op_code: u16) -> (op: SpecialOp)
        requires
            SpecialOp::of_code(op_code) is Some,
        ensures
            Some(op) == SpecialOp::of_code(op_code),
            op.code() == op_code,
    {
        match SpecialOp::from_code(op_code) {
            Some(op) => op,
            None => vstd::pervasive::unreached(),
        }
    }

    /// The opcode's number.
    pub fn op_code(&self) -> (op_code: u16)
        ensures
            op_code == self.code(),
            1 <= op_code <= 0x1f,
            SpecialOp::of_code(op_code) == Some(*self),
    {
        let op_code: u16 = match *self {
            SpecialOp::JSR => 0x01,
            SpecialOp::INT => 0x08,
            SpecialOp::IAG => 0x09,
            SpecialOp::IAS => 0x0a,
            SpecialOp::RFI => 0x0b,
            SpecialOp::IAQ => 0x0c,
            SpecialOp::HWN => 0x10,
            SpecialOp::HWQ => 0x11,
            SpecialOp::HWI => 0x12,
        };
        op_code
    }

    /// The cycles the opcode costs, its operands not counted.
    pub fn num_cycles(&self) -> (n: u16)
        ensures
            n == self.cycles(),
    {
        match *self {
            SpecialOp::JSR => 3,
            SpecialOp::INT => 4,
            SpecialOp::IAG => 1,
            SpecialOp::IAS => 1,
            SpecialOp::RFI => 3,
            SpecialOp::IAQ => 2,
            SpecialOp::HWN => 2,
            SpecialOp::HWQ => 4,
            SpecialOp::HWI => 4,
        }
    }

    /// The opcode's name, in upper case.
    pub fn name(&self) -> (name: &'static str)
        ensures
            name@ == self.mnemonic(),
    {
        match *self {
            SpecialOp::JSR => "JSR",
            SpecialOp::INT => "INT",
            SpecialOp::IAG => "IAG",
            SpecialOp::IAS => "IAS",
            SpecialOp::RFI => "RFI",
            SpecialOp::IAQ => "IAQ",
            SpecialOp::HWN => "HWN",
            SpecialOp::HWQ => "HWQ",
            SpecialOp::HWI => "HWI",
        }
    }

    /// The opcode as it is shown: its name.
    pub fn to_string(&self) -> (s: String)
        ensures
            s@ == self.mnemonic(),
    {
        String::from_str(self.name())
    }

    /// Finds the opcode that a name stands for; the case of its letters
    /// does not matter.
    pub fn from_name(name: &[char]) -> (res: Option<SpecialOp>)
        ensures
            res == SpecialOp::of_name(name@),
    {
        let res =
        if is_word(name, "JSR") {
            Some(SpecialOp::JSR)
        } else if is_word(name, "INT") {
            Some(SpecialOp::INT)
        } else if is_word(name, "IAG") {
            Some(SpecialOp::IAG)
        } else if is_word(name, "IAS") {
            Some(SpecialOp::IAS)
        } else if is_word(name, "RFI") {
            Some(SpecialOp::RFI)
        } else if is_word(name, "IAQ") {
            Some(SpecialOp::IAQ)
        } else if is_word(name, "HWN") {
            Some(SpecialOp::HWN)
        } else if is_word(name, "HWQ") {
            Some(SpecialOp::HWQ)
        } else if is_word(name, "HWI") {
            Some(SpecialOp::HWI)
        } else {
            None
        };
        proof {
            match res {
                Some(op) => {
                    assert(op.mnemonic() == to_upper(name@));
                    let chosen = choose|o: SpecialOp| #[trigger] o.mnemonic() == to_upper(name@);
                    op.lemma_mnemonic_unique(chosen);
                },
                None => {
                    assert forall|o: SpecialOp| #[trigger] o.mnemonic() != to_upper(name@) by {}
                },
            }
        }
        res
    }

    /// Finds the opcode that a name stands for; the case of its letters
    /// does not matter.
    pub fn try_from(op_name: &str) -> (res: Option<SpecialOp>)
        ensures
            res == SpecialOp::of_name(op_name@),
    {
        let name = chars_of(op_name);
        SpecialOp::from_name(name.as_slice())
    }

    /// The cycles the opcode costs, its operand not counted.
    pub open spec fn cycles(self) -> u16 {
        match self {
            SpecialOp::JSR => 3,
            SpecialOp::INT => 4,
            SpecialOp::IAG => 1,
            SpecialOp::IAS => 1,
            SpecialOp::RFI => 3,
            SpecialOp::IAQ => 2,
            SpecialOp::HWN => 2,
            SpecialOp::HWQ => 4,
            SpecialOp::HWI => 4,
        }
    }

    /// What the opcode does to state `s`, given its resolved operand.
    /// `JSR` lowers the stack pointer, stores the program counter (which
    /// is past the instruction by now) there and jumps to `a`. `IAG` and
    /// `IAS` read and set the interrupt address. `HWN` stores 0, the
    /// number of devices. Interrupts and devices are not emulated: the
    /// other opcodes change nothing.
    #[verifier::opaque]
    pub open spec fn apply(self, a_kind: ValKind, s: DcpuState) -> (DcpuState, OpResult) {
        let a = s.read(a_kind);
        let after = match self {
            SpecialOp::JSR => {
                let sp = next_addr(s.sp, -1);
                s.set_sp(sp).set_mem(sp, s.pc).set_pc(a)
            },
            SpecialOp::IAG => s.write(a_kind, s.ia),
            SpecialOp::IAS => s.set_ia(a),
            SpecialOp::HWN => s.write(a_kind, 0),
            _ => s,
        };
        (after, OpResult::NextInstr)
    }

    /// Whether the opcode is emulated. Interrupts and devices are not:
    /// `INT`, `RFI`, `IAQ`, `HWQ` and `HWI` are decoded and do nothing.
    pub open spec fn emulated(self) -> bool {
        self is JSR || self is IAG || self is IAS || self is HWN
    }

    /// Whether the opcode is emulated.
    pub fn is_emulated(&self) -> (b: bool)
        ensures
            b == self.emulated(),
    {
        match *self {
            SpecialOp::JSR => true,
            SpecialOp::IAG => true,
            SpecialOp::IAS => true,
            SpecialOp::HWN => true,
            _ => false,
        }
    }

    /// An opcode that is not emulated changes nothing.
    pub proof fn lemma_not_emulated(self, a_kind: ValKind, s: DcpuState)
        requires
            !self.emulated(),
        ensures
            self.apply(a_kind, s) == (s, OpResult::NextInstr),
    {
        reveal(SpecialOp::apply);
    }

    /// The opcode keeps the sizes of the register file and of memory, and
    /// never asks to skip.
    pub proof fn lemma_apply_keeps_sizes(self, a_kind: ValKind, s: DcpuState)
        requires
            s.wf(),
            a_kind.wf(),
        ensures
            self.apply(a_kind, s).0.wf(),
            self.apply(a_kind, s).1 is NextInstr,
    {
        reveal(SpecialOp::apply);
    }

    /// Runs the opcode on the processor. The operand was resolved before.
    pub fn eval(&self, a_kind: ValKind, dcpu: &mut Dcpu) -> (res: OpResult)
        requires
            a_kind.wf(),
        ensures
            (final(dcpu)@, res) == self.apply(a_kind, old(dcpu)@),
    {
        reveal(SpecialOp::apply);
        let a_val = read(a_kind, dcpu);

        match *self {
            SpecialOp::JSR => {
                dcpu.decr_sp();
                let sp = dcpu.sp();
                // The operand is resolved, so the program counter points
                // at the next instruction.
                let curr_pc = dcpu.pc();
                dcpu.set_mem(sp, curr_pc);
                dcpu.set_pc(a_val);
                OpResult::NextInstr
            },
            SpecialOp::INT => OpResult::NextInstr,
            SpecialOp::IAG => {
                let ia = dcpu.ia();
                self::set(a_kind, ia, dcpu);
                OpResult::NextInstr
            },
            SpecialOp::IAS => {
                dcpu.set_ia(a_val);
                OpResult::NextInstr
            },
            SpecialOp::RFI => OpResult::NextInstr,
            SpecialOp::IAQ => OpResult::NextInstr,
            SpecialOp::HWN => {
                self::set(a_kind, 0, dcpu);
                OpResult::NextInstr
            },
            SpecialOp::HWQ => OpResult::NextInstr,
            SpecialOp::HWI => OpResult::NextInstr,
        }
    }
}

/// Reads the value of a resolved operand.
pub fn read(kind: ValKind, dcpu: &Dcpu) -> (val: u16)
    requires
        kind.wf(),
    ensures
        val == dcpu@.read(kind),
{
    match kind {
        ValKind::Literal(v) => v,
        ValKind::Register(v) => dcpu.reg(v),
        ValKind::ProgramCounter => dcpu.pc(),
        ValKind::Deref(v) => dcpu.mem(v),
    }
}

/// Stores a value to a resolved operand. A store to a literal is dropped.
pub fn set(lhs: ValKind, rhs: u16, dcpu: &mut Dcpu)
    requires
        lhs.wf(),
    ensures
        final(dcpu)@ == old(dcpu)@.write(lhs, rhs),
{
    match lhs {
        ValKind::Literal(_) => (),
        ValKind::Register(v) => dcpu.set_reg(v, rhs),
        ValKind::ProgramCounter => dcpu.set_pc(rhs),
        ValKind::Deref(v) => dcpu.set_mem(v, rhs),
    }
}

} // verus!
