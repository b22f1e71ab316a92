//! Addressing modes: what an operand field means, and what it resolves to
//! on a live processor.
use crate::cpu::next_addr;
use crate::cpu::Dcpu;
use crate::cpu::DcpuState;
use crate::cpu::NUM_REGISTERS;
use crate::instruction::ValSize;
use crate::word::signed;
use crate::word::wrap;
use crate::text::hex;
use crate::text::push_hex;
use vstd::prelude::*;

verus! {

/// The addressing mode of an operand, as decoded from its field.
#[derive(Clone, Copy, Debug, PartialEq, Eq, Structural)]
pub enum ValType {
    /// A general register.
    Register(u16),
    /// The word a register points at.
    RegisterDeref(u16),
    /// The word at a register plus the next word of the instruction.
    RegisterNextWordDeref(u16),
    /// The word below the stack; the stack grows by it.
    Push,
    /// The word on top of the stack; the stack shrinks by it.
    Pop,
    /// The word on top of the stack.
    Peek,
    /// The word at the stack pointer plus the next word of the instruction.
    Pick,
    StackPointer,
    ProgramCounter,
    /// The excess register.
    Extra,
    /// The word that the next word of the instruction points at.
    NextWordDeref,
    /// The next word of the instruction itself.
    NextWord,
    /// A small number held in the operand field: 0xffff (minus one) or 0 to 30.
    Literal(u16),
}

/// What an operand resolved to: where an opcode reads and writes.
#[derive(Clone, Copy, Debug, PartialEq, Eq, Structural)]
pub enum ValKind {
    /// A value with no place behind it; writes to it are dropped.
    Literal(u16),
    /// The general register of this index.
    Register(u16),
    /// The program counter.
    ProgramCounter,
    /// The memory word at this address.
    Deref(u16),
}

/// The letter of a register: A, B, C, X, Y, Z, I, J.
pub open spec fn register_letter_of(r: u16) -> char {
    if r == 0 {
        'A'
    } else if r == 1 {
        'B'
    } else if r == 2 {
        'C'
    } else if r == 3 {
        'X'
    } else if r == 4 {
        'Y'
    } else if r == 5 {
        'Z'
    } else if r == 6 {
        'I'
    } else {
        'J'
    }
}

/// The name of a register: its letter.
pub open spec fn register_name(r: u16) -> Seq<char> {
    seq![register_letter_of(r)]
}

/// The letter of a register.
pub fn register_letter(r: u16) -> (c: char)
    requires
        r < NUM_REGISTERS,
    ensures
        c == register_letter_of(r),
{
    if r == 0 {
        'A'
    } else if r == 1 {
        'B'
    } else if r == 2 {
        'C'
    } else if r == 3 {
        'X'
    } else if r == 4 {
        'Y'
    } else if r == 5 {
        'Z'
    } else if r == 6 {
        'I'
    } else {
        'J'
    }
}

impl ValKind {
    /// A register kind names one of the eight registers.
    pub open spec fn wf(self) -> bool {
        self matches ValKind::Register(r) ==> r < NUM_REGISTERS
    }
}

impl DcpuState {
    /// The value an opcode reads from a resolved operand.
    pub open spec fn read(self, kind: ValKind) -> u16 {
        match kind {
            ValKind::Literal(v) => v,
            ValKind::Register(r) => self.reg[r as int],
            ValKind::ProgramCounter => self.pc,
            ValKind::Deref(addr) => self.mem[addr as int],
        }
    }

    /// The state after an opcode wrote `val` to a resolved operand.
    pub open spec fn write(self, kind: ValKind, val: u16) -> DcpuState {
        match kind {
            ValKind::Literal(_) => self,
            ValKind::Register(r) => self.set_reg(r, val),
            ValKind::ProgramCounter => self.set_pc(val),
            ValKind::Deref(addr) => self.set_mem(addr, val),
        }
    }
}

impl ValType {
    /// Register modes name one of the eight registers, and an inline
    /// literal is one of the 32 numbers the field can hold.
    pub open spec fn wf(self) -> bool {
        match self {
            ValType::Register(r) => r < NUM_REGISTERS,
            ValType::RegisterDeref(r) => r < NUM_REGISTERS,
            ValType::RegisterNextWordDeref(r) => r < NUM_REGISTERS,
            ValType::Literal(v) => v == 0xffff || v <= 30,
            _ => true,
        }
    }

    /// The mode that a value code stands for. Code 0x18 is a pop in
    /// operand `a` and a push in operand `b`.
    pub open spec fn of_code(val_code: u16, val_size: ValSize) -> ValType {
        if val_code <= 0x07 {
            ValType::Register(val_code)
        } else if val_code <= 0x0f {
            ValType::RegisterDeref((val_code - 0x08) as u16)
        } else if val_code <= 0x17 {
            ValType::RegisterNextWordDeref((val_code - 0x10) as u16)
        } else if val_code == 0x18 {
            match val_size {
                ValSize::A => ValType::Pop,
                ValSize::B => ValType::Push,
            }
        } else if val_code == 0x19 {
            ValType::Peek
        } else if val_code == 0x1a {
            ValType::Pick
        } else if val_code == 0x1b {
            ValType::StackPointer
        } else if val_code == 0x1c {
            ValType::ProgramCounter
        } else if val_code == 0x1d {
            ValType::Extra
        } else if val_code == 0x1e {
            ValType::NextWordDeref
        } else if val_code == 0x1f {
            ValType::NextWord
        } else {
            ValType::Literal(wrap(val_code - 0x21))
        }
    }

    /// The value code of a mode. Push and pop share code 0x18.
    pub open spec fn code(self) -> u16 {
        match self {
            ValType::Register(r) => r,
            ValType::RegisterDeref(r) => (r + 0x08) as u16,
            ValType::RegisterNextWordDeref(r) => (r + 0x10) as u16,
            ValType::Push => 0x18,
            ValType::Pop => 0x18,
            ValType::Peek => 0x19,
            ValType::Pick => 0x1a,
            ValType::StackPointer => 0x1b,
            ValType::ProgramCounter => 0x1c,
            ValType::Extra => 0x1d,
            ValType::NextWordDeref => 0x1e,
            ValType::NextWord => 0x1f,
            ValType::Literal(v) => wrap(signed(v) + 0x21),
        }
    }

    /// Whether the mode reads the word after the instruction's own.
    pub open spec fn takes_word(self) -> bool {
        self is RegisterNextWordDeref || self is Pick || self is NextWordDeref || self is NextWord
    }

    /// What the mode resolves to in state `s`, and the state it leaves:
    /// a mode that takes a word moves the program counter past it, a push
    /// lowers the stack pointer before it is used, a pop raises it after.
    #[verifier::opaque]
    pub open spec fn resolve(self, s: DcpuState) -> (ValKind, DcpuState) {
        match self {
            ValType::Register(r) => (ValKind::Register(r), s),
            ValType::RegisterDeref(r) => (ValKind::Deref(s.reg[r as int]), s),
            ValType::RegisterNextWordDeref(r) => (
                ValKind::Deref(wrap(s.reg[r as int] + s.next_word())),
                s.advance(1),
            ),
            ValType::Push => (
                ValKind::Deref(next_addr(s.sp, -1)),
                s.set_sp(next_addr(s.sp, -1)),
            ),
            ValType::Pop => (ValKind::Deref(s.sp), s.set_sp(next_addr(s.sp, 1))),
            ValType::Peek => (ValKind::Deref(s.sp), s),
            ValType::Pick => (ValKind::Deref(wrap(s.sp + s.next_word())), s.advance(1)),
            ValType::StackPointer => (ValKind::Literal(s.sp), s),
            ValType::ProgramCounter => (ValKind::ProgramCounter, s),
            ValType::Extra => (ValKind::Literal(s.ex), s),
            ValType::NextWordDeref => (ValKind::Deref(s.next_word()), s.advance(1)),
            ValType::NextWord => (ValKind::Deref(s.pc), s.advance(1)),
            ValType::Literal(v) => (ValKind::Literal(v), s),
        }
    }

    /// The mode as it is shown: a register by its letter, a word that the
    /// instruction carries as `<next word>`, a dereference in brackets,
    /// an inline literal as a hexadecimal number.
    pub open spec fn text(self) -> Seq<char> {
        match self {
            ValType::Register(r) => register_name(r),
            ValType::RegisterDeref(r) => seq!['['] + register_name(r) + seq![']'],
            ValType::RegisterNextWordDeref(r) => "[<next word>+"@ + register_name(r) + seq![']'],
            ValType::Push => "PUSH"@,
            ValType::Pop => "POP"@,
            ValType::Peek => "PEEK"@,
            ValType::Pick => "PICK"@,
            ValType::StackPointer => "SP"@,
            ValType::ProgramCounter => "PC"@,
            ValType::Extra => "EX"@,
            ValType::NextWordDeref => "[<next word>]"@,
            ValType::NextWord => "<next word>"@,
            ValType::Literal(v) => hex(v),
        }
    }

    /// The mode as it is shown.
    pub fn to_string(&self) -> (s: String)
        requires
            self.wf(),
        ensures
            s@ == self.text(),
    {
        match *self {
            ValType::Register(r) => {
                let mut s = String::new();
                s.push(register_letter(r));
                proof {
                    assert(s@ =~= register_name(r));
                }
                s
            },
            ValType::RegisterDeref(r) => {
                let mut s = String::new();
                s.push('[');
                s.push(register_letter(r));
                s.push(']');
                proof {
                    assert(s@ =~= seq!['['] + register_name(r) + seq![']']);
                }
                s
            },
            ValType::RegisterNextWordDeref(r) => {
                let mut s = String::from_str("[<next word>+");
                s.push(register_letter(r));
                s.push(']');
                proof {
                    assert(s@ =~= "[<next word>+"@ + register_name(r) + seq![']']);
                }
                s
            },
            ValType::Push => String::from_str("PUSH"),
            ValType::Pop => String::from_str("POP"),
            ValType::Peek => String::from_str("PEEK"),
            ValType::Pick => String::from_str("PICK"),
            ValType::StackPointer => String::from_str("SP"),
            ValType::ProgramCounter => String::from_str("PC"),
            ValType::Extra => String::from_str("EX"),
            ValType::NextWordDeref => String::from_str("[<next word>]"),
            ValType::NextWord => String::from_str("<next word>"),
            ValType::Literal(v) => {
                let mut s = String::new();
                push_hex(&mut s, v);
                proof {
                    assert(s@ =~= hex(v));
                }
                s
            },
        }
    }

    /// Decodes a value code read from the operand field `val_size`.
    pub fn new(val_code: u16, val_size: ValSize) -> (val_type: ValType)
        requires
            val_code <= 0x3f,
        ensures
            val_type == ValType::of_code(val_code, val_size),
            val_type.wf(),
    {
        if val_code <= 0x07 {
            ValType::Register(val_code)
        } else if val_code <= 0x0f {
            ValType::RegisterDeref(val_code - 0x08)
        } else if val_code <= 0x17 {
            ValType::RegisterNextWordDeref(val_code - 0x10)
        } else if val_code == 0x18 {
            match val_size {
                ValSize::A => ValType::Pop,
                ValSize::B => ValType::Push,
            }
        } else if val_code == 0x19 {
            ValType::Peek
        } else if val_code == 0x1a {
            ValType::Pick
        } else if val_code == 0x1b {
            ValType::StackPointer
        } else if val_code == 0x1c {
            ValType::ProgramCounter
        } else if val_code == 0x1d {
            ValType::Extra
        } else if val_code == 0x1e {
            ValType::NextWordDeref
        } else if val_code == 0x1f {
            ValType::NextWord
        } else if val_code == 0x20 {
            ValType::Literal(0xffff)
        } else {
            ValType::Literal(val_code - 0x21)
        }
    }

    /// Encodes the mode as a value code.
    pub fn val_code(&self) -> (val_code: u16)
        requires
            self.wf(),
        ensures
            val_code == self.code(),
            val_code <= 0x3f,
            !(self is Literal) ==> val_code <= 0x1f,
    {
        match *self {
            ValType::Register(r) => r,
            ValType::RegisterDeref(r) => r + 0x08,
            ValType::RegisterNextWordDeref(r) => r + 0x10,
            ValType::Push => 0x18,
            ValType::Pop => 0x18,
            ValType::Peek => 0x19,
            ValType::Pick => 0x1a,
            ValType::StackPointer => 0x1b,
            ValType::ProgramCounter => 0x1c,
            ValType::Extra => 0x1d,
            ValType::NextWordDeref => 0x1e,
            ValType::NextWord => 0x1f,
            ValType::Literal(v) => if v == 0xffff {
                0x20
            } else {
                v + 0x21
            },
        }
    }

    /// How many words the mode adds to its instruction: 0 or 1.
    pub fn num_words(&self) -> (n: u16)
        ensures
            n == if self.takes_word() { 1int } else { 0int },
    {
        match *self {
            ValType::RegisterNextWordDeref(_) => 1,
            ValType::Pick => 1,
            ValType::NextWordDeref => 1,
            ValType::NextWord => 1,
            _ => 0,
        }
    }

    /// How many cycles the mode adds to its instruction: one for the
    /// word it takes, if it takes one.
    pub fn num_cycles(&self) -> (n: u32)
        ensures
            n == if self.takes_word() { 1int } else { 0int },
    {
        match *self {
            ValType::RegisterNextWordDeref(_) => 1,
            ValType::Pick => 1,
            ValType::NextWordDeref => 1,
            ValType::NextWord => 1,
            _ => 0,
        }
    }

    /// Resolves the operand on the processor. Operand `b` of an
    /// instruction is resolved before operand `a`.
    pub fn eval(&self, dcpu: &mut Dcpu) -> (kind: ValKind)
        requires
            self.wf(),
        ensures
            (kind, final(dcpu)@) == self.resolve(old(dcpu)@),
            kind.wf(),
    {
        reveal(ValType::resolve);
        match *self {
            ValType::Register(r) => ValKind::Register(r),
            ValType::RegisterDeref(r) => ValKind::Deref(dcpu.reg(r)),
            ValType::RegisterNextWordDeref(r) => {
                let mem_index = dcpu.reg(r).wrapping_add(dcpu.mem(dcpu.pc()));
                dcpu.incr_pc();
                ValKind::Deref(mem_index)
            },
            ValType::Push => {
                dcpu.decr_sp();
                ValKind::Deref(dcpu.sp())
            },
            ValType::Pop => {
                let mem_index = dcpu.sp();
                dcpu.incr_sp();
                ValKind::Deref(mem_index)
            },
            ValType::Peek => ValKind::Deref(dcpu.sp()),
            ValType::Pick => {
                let mem_index = dcpu.sp().wrapping_add(dcpu.mem(dcpu.pc()));
                dcpu.incr_pc();
                ValKind::Deref(mem_index)
            },
            ValType::StackPointer => ValKind::Literal(dcpu.sp()),
            ValType::ProgramCounter => ValKind::ProgramCounter,
            ValType::Extra => ValKind::Literal(dcpu.ex()),
            ValType::NextWordDeref => {
                let mem_index = dcpu.mem(dcpu.pc());
                dcpu.incr_pc();
                ValKind::Deref(mem_index)
            },
            ValType::NextWord => {
                let mem_index = dcpu.pc();
                dcpu.incr_pc();
                ValKind::Deref(mem_index)
            },
            ValType::Literal(val) => ValKind::Literal(val),
        }
    }
}

/// Decoding a mode's code in the operand field it can stand in gives the
/// mode back: a push stands only in operand `b`, a pop and an inline
/// literal only in operand `a`.
pub proof fn lemma_of_code_code(val_type: ValType, val_size: ValSize)
    requires
        val_type.wf(),
        val_type is Push ==> val_size is B,
        val_type is Pop ==> val_size is A,
    ensures
        ValType::of_code(val_type.code(), val_size) == val_type,
        val_type.code() <= 0x3f,
        val_type.code() <= 0x1f <==> !(val_type is Literal),
{
}

/// Resolving an operand changes nothing but the program counter, which
/// moves past the word that the mode takes, if it takes one, and the
/// stack pointer; and it resolves to a place that exists.
pub proof fn lemma_resolve(val_type: ValType, s: DcpuState)
    requires
        val_type.wf(),
    ensures
        val_type.resolve(s).0.wf(),
        val_type.resolve(s).1 == (DcpuState {
            pc: next_addr(
                s.pc,
                if val_type.takes_word() {
                    1
                } else {
                    0
                },
            ),
            sp: val_type.resolve(s).1.sp,
            ..s
        }),
{
    reveal(ValType::resolve);
}

/// Every code of six bits decodes to a mode whose code it is.
pub proof fn lemma_code_of_code(val_code: u16, val_size: ValSize)
    requires
        val_code <= 0x3f,
    ensures
        ValType::of_code(val_code, val_size).code() == val_code,
        ValType::of_code(val_code, val_size).wf(),
{
}

} // verus!
