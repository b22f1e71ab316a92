//! The processor: eight registers, 65,536 words of memory and the four
//! special registers. Addresses and counters wrap around at 2^16.
use crate::instruction::lemma_skip_keeps_data;
use crate::instruction::valid_word;
use crate::instruction::Instruction;
use crate::op::OpResult;
use crate::text::hex;
use crate::text::push_hex;
use vstd::prelude::*;

verus! {

/// Number of general registers (A, B, C, X, Y, Z, I, J).
pub const NUM_REGISTERS: u16 = 8;

/// Number of words of memory.
pub const RAM_SIZE: usize = 0x1_0000;

/// Where the stack pointer starts; a push decrements it first.
pub const STACK_START: u16 = 0xffff;

/// The processor's state as a mathematical value.
pub struct DcpuState {
    /// The general registers, by index.
    pub reg: Seq<u16>,
    /// Main memory, by address.
    pub mem: Seq<u16>,
    /// Program counter.
    pub pc: u16,
    /// Stack pointer.
    pub sp: u16,
    /// Excess: carry, borrow, or the bits an operation shifted out.
    pub ex: u16,
    /// Interrupt address.
    pub ia: u16,
    /// Set once a tick has left the program counter where it found it.
    pub finished: bool,
}

impl DcpuState {
    /// The sizes every processor state has.
    pub open spec fn wf(self) -> bool {
        self.reg.len() == NUM_REGISTERS && self.mem.len() == RAM_SIZE
    }

    /// The state of a processor that was just created.
    pub open spec fn initial() -> DcpuState {
        DcpuState {
            reg: Seq::new(NUM_REGISTERS as nat, |i: int| 0u16),
            mem: Seq::new(RAM_SIZE as nat, |i: int| 0u16),
            pc: 0,
            sp: STACK_START,
            ex: 0,
            ia: 0,
            finished: false,
        }
    }

    /// The state with register `i` holding `val`.
    pub open spec fn set_reg(self, i: u16, val: u16) -> DcpuState {
        DcpuState { reg: self.reg.update(i as int, val), ..self }
    }

    /// The state with the word at address `i` holding `val`.
    pub open spec fn set_mem(self, i: u16, val: u16) -> DcpuState {
        DcpuState { mem: self.mem.update(i as int, val), ..self }
    }

    /// The state with another program counter.
    pub open spec fn set_pc(self, pc: u16) -> DcpuState {
        DcpuState { pc, ..self }
    }

    /// The state with another stack pointer.
    pub open spec fn set_sp(self, sp: u16) -> DcpuState {
        DcpuState { sp, ..self }
    }

    /// The state with another excess.
    pub open spec fn set_ex(self, ex: u16) -> DcpuState {
        DcpuState { ex, ..self }
    }

    /// The state with another interrupt address.
    pub open spec fn set_ia(self, ia: u16) -> DcpuState {
        DcpuState { ia, ..self }
    }

    /// The state, finished or not.
    pub open spec fn set_finished(self, finished: bool) -> DcpuState {
        DcpuState { finished, ..self }
    }

    /// The word that the program counter points at.
    pub open spec fn next_word(self) -> u16 {
        self.mem[self.pc as int]
    }

    /// The state with the program counter moved on by `n` words.
    pub open spec fn advance(self, n: int) -> DcpuState {
        self.set_pc(next_addr(self.pc, n))
    }

    /// Whether a tick finds an opcode that exists in each word it has to
    /// decode: the word at the program counter and, where that
    /// instruction asks to skip the next one, the word it then stands at.
    pub open spec fn can_tick(self) -> bool {
        self.finished || (valid_word(self.next_word()) && {
            let (after, res) = Instruction::of_word(self.next_word()).run(self.advance(1));
            res is SkipNextInstr ==> valid_word(after.next_word())
        })
    }

    /// The state one tick later. A finished processor stays as it is.
    /// A running one fetches the word at the program counter, moves past
    /// it and runs the instruction; where that asks to skip, it moves
    /// past every word of the instruction it then stands at, without
    /// running it. It is finished if the program counter ends where the
    /// tick found it.
    pub open spec fn tick(self) -> DcpuState {
        if self.finished {
            self
        } else {
            let (after, res) = Instruction::of_word(self.next_word()).run(self.advance(1));
            let landed = match res {
                OpResult::NextInstr => after,
                OpResult::SkipNextInstr => after.advance(Instruction::of_word(after.next_word()).len()),
            };
            landed.set_finished(landed.pc == self.pc)
        }
    }

    /// The registers as they are shown: a frame, the eight general
    /// registers, a rule, the four special registers, a frame, each
    /// register on a line of its own with its value in hexadecimal.
    pub open spec fn text(self) -> Seq<char> {
        "====================\n"@ + " A: "@ + hex(self.reg[0]) + "\n B: "@ + hex(self.reg[1])
            + "\n C: "@ + hex(self.reg[2]) + "\n X: "@ + hex(self.reg[3]) + "\n Y: "@ + hex(
            self.reg[4],
        ) + "\n Z: "@ + hex(self.reg[5]) + "\n I: "@ + hex(self.reg[6]) + "\n J: "@ + hex(
            self.reg[7],
        ) + "\n--------------------\n"@ + " PC: "@ + hex(self.pc) + "\n SP: "@ + hex(self.sp)
            + "\n EX: "@ + hex(self.ex) + "\n IA: "@ + hex(self.ia)
            + "\n====================\n        "@
    }

    /// Memory after `program` was copied in from address 0.
    pub open spec fn load(self, program: Seq<u16>) -> DcpuState {
        DcpuState {
            mem: Seq::new(RAM_SIZE as nat, |a: int| loaded_word(self.mem, program, a)),
            pc: 0,
            ..self
        }
    }
}

/// The address `n` words after `addr`, wrapping around the end of memory.
pub open spec fn next_addr(addr: u16, n: int) -> u16 {
    ((addr + n) % 0x1_0000) as u16
}

/// What address `a` holds after the first `program.len()` words were
/// copied in: words beyond the end of memory wrap around to address 0, so
/// the last word written to `a` stays; an address that no word reached
/// keeps what it held.
pub open spec fn loaded_word(mem: Seq<u16>, program: Seq<u16>, a: int) -> u16 {
    if a < program.len() {
        program[a + 0x1_0000 * ((program.len() - 1 - a) / 0x1_0000)]
    } else {
        mem[a]
    }
}

/// The processor.
pub struct Dcpu {
    reg: [u16; 8],
    mem: [u16; 65536],
    pc: u16,
    finished: bool,
    sp: u16,
    ex: u16,
    ia: u16,
}

impl View for Dcpu {
    type V = DcpuState;

    closed spec fn view(&self) -> DcpuState {
        DcpuState {
            reg: self.reg@,
            mem: self.mem@,
            pc: self.pc,
            sp: self.sp,
            ex: self.ex,
            ia: self.ia,
            finished: self.finished,
        }
    }
}

impl Dcpu {
    /// Every processor has eight registers and 65,536 words of memory.
    pub proof fn lemma_wf(&self)
        ensures
            self@.wf(),
    {
    }

    /// A processor with all registers and memory zero, the stack pointer at
    /// `STACK_START`, ready to run from address 0.
    pub fn new() -> (dcpu: Dcpu)
        ensures
            dcpu@ == DcpuState::initial(),
    {
        let dcpu = Dcpu { reg: [0; 8], mem: [0; 65536], pc: 0, finished: false, sp: STACK_START, ex: 0, ia: 0 };
        assert(dcpu.reg@ =~= DcpuState::initial().reg);
        assert(dcpu.mem@ =~= DcpuState::initial().mem);
        dcpu
    }

    /// Copies a program into memory, starting at address 0, and sets the
    /// program counter to 0.
    pub fn load_program(&mut self, program: &Vec<u16>)
        ensures
            final(self)@ == old(self)@.load(program@),
    {
        let mut i: usize = 0;
        while i < program.len()
            invariant
                i <= program.len(),
                self@.mem =~= Seq::new(
                    RAM_SIZE as nat,
                    |a: int| loaded_word(old(self)@.mem, program@.take(i as int), a),
                ),
                self@ == (DcpuState { mem: self@.mem, ..old(self)@ }),
            decreases program.len() - i,
        {
            let addr: u16 = (i % RAM_SIZE) as u16;
            self.set_mem(addr, program[i]);
            proof {
                let before = Seq::new(RAM_SIZE as nat, |a: int| loaded_word(old(self)@.mem, program@.take(i as int), a));
                let after = Seq::new(RAM_SIZE as nat, |a: int| loaded_word(old(self)@.mem, program@.take(i + 1), a));
                assert(before.update(addr as int, program[i as int]) =~= after);
            }
            i += 1;
        }
        assert(program@.take(i as int) =~= program@);
        self.set_pc(0);
    }

    /// Runs one instruction. A word whose opcode does not exist cannot be
    /// run: `try_tick` tests for it.
    pub fn tick(&mut self)
        requires
            old(self)@.can_tick(),
        ensures
            final(self)@ == old(self)@.tick(),
    {
        if !self.finished {
            let start_pc = self.pc;
            let curr_instr = Instruction::new(self.mem(self.pc()));
            self.incr_pc();
            match curr_instr.eval(self) {
                OpResult::NextInstr => (),
                OpResult::SkipNextInstr => {
                    let curr_pc = self.pc();
                    let instr_size = Instruction::new(self.mem(self.pc())).num_words();
                    self.set_pc(curr_pc.wrapping_add(instr_size));
                },
            }
            self.finished = self.pc == start_pc;
        }
    }

    /// Runs one instruction if every word the tick has to decode holds
    /// an opcode that exists, and says whether it did. If not, the
    /// processor is left as it was.
    pub fn try_tick(&mut self) -> (done: bool)
        ensures
            done == old(self)@.can_tick(),
            done ==> final(self)@ == old(self)@.tick(),
            !done ==> final(self)@ == old(self)@,
    {
        if self.finished {
            return true;
        }
        let start_pc = self.pc;
        let start_sp = self.sp;
        let curr_instr = match Instruction::try_new(self.mem(self.pc())) {
            Some(instr) => instr,
            None => {
                return false;
            },
        };
        self.incr_pc();
        match curr_instr.eval(self) {
            OpResult::NextInstr => (),
            OpResult::SkipNextInstr => {
                proof {
                    lemma_skip_keeps_data(curr_instr, old(self)@.advance(1));
                }
                match Instruction::try_new(self.mem(self.pc())) {
                    Some(skipped) => {
                        let curr_pc = self.pc();
                        self.set_pc(curr_pc.wrapping_add(skipped.num_words()));
                    },
                    None => {
                        self.pc = start_pc;
                        self.sp = start_sp;
                        return false;
                    },
                }
            },
        }
        self.finished = self.pc == start_pc;
        true
    }

    /// The value of register `i`.
    pub fn reg(&self, i: u16) -> (val: u16)
        requires
            i < NUM_REGISTERS,
        ensures
            val == self@.reg[i as int],
    {
        self.reg[i as usize]
    }

    /// Stores `val` to register `i`.
    pub fn set_reg(&mut self, i: u16, val: u16)
        requires
            i < NUM_REGISTERS,
        ensures
            final(self)@ == old(self)@.set_reg(i, val),
    {
        self.reg[i as usize] = val;
        assert(self.reg@ =~= old(self).reg@.update(i as int, val));
    }

    /// The word at address `i`.
    pub fn mem(&self, i: u16) -> (val: u16)
        ensures
            val == self@.mem[i as int],
    {
        self.mem[i as usize]
    }

    /// Stores `val` to the word at address `i`.
    pub fn set_mem(&mut self, i: u16, val: u16)
        ensures
            final(self)@ == old(self)@.set_mem(i, val),
    {
        self.mem[i as usize] = val;
        assert(self.mem@ =~= old(self).mem@.update(i as int, val));
    }

    /// The program counter.
    pub fn pc(&self) -> (pc: u16)
        ensures
            pc == self@.pc,
    {
        self.pc
    }

    /// Sets the program counter.
    pub fn set_pc(&mut self, pc: u16)
        ensures
            final(self)@ == old(self)@.set_pc(pc),
    {
        self.pc = pc;
    }

    /// Moves the program counter on by one word; after 0xffff comes 0.
    pub fn incr_pc(&mut self)
        ensures
            final(self)@ == old(self)@.advance(1),
    {
        self.pc = self.pc.wrapping_add(1);
    }

    /// The stack pointer.
    pub fn sp(&self) -> (sp: u16)
        ensures
            sp == self@.sp,
    {
        self.sp
    }

    /// Sets the stack pointer.
    pub fn set_sp(&mut self, sp: u16)
        ensures
            final(self)@ == old(self)@.set_sp(sp),
    {
        self.sp = sp;
    }

    /// Moves the stack pointer up by one word; after 0xffff comes 0.
    pub fn incr_sp(&mut self)
        ensures
            final(self)@ == old(self)@.set_sp(next_addr(old(self)@.sp, 1)),
    {
        self.sp = self.sp.wrapping_add(1);
    }

    /// Moves the stack pointer down by one word; before 0 comes 0xffff.
    pub fn decr_sp(&mut self)
        ensures
            final(self)@ == old(self)@.set_sp(next_addr(old(self)@.sp, -1)),
    {
        self.sp = self.sp.wrapping_sub(1);
    }

    /// The excess register.
    pub fn ex(&self) -> (ex: u16)
        ensures
            ex == self@.ex,
    {
        self.ex
    }

    /// Sets the excess register.
    pub fn set_ex(&mut self, ex: u16)
        ensures
            final(self)@ == old(self)@.set_ex(ex),
    {
        self.ex = ex;
    }

    /// The interrupt address.
    pub fn ia(&self) -> (ia: u16)
        ensures
            ia == self@.ia,
    {
        self.ia
    }

    /// Sets the interrupt address.
    pub fn set_ia(&mut self, ia: u16)
        ensures
            final(self)@ == old(self)@.set_ia(ia),
    {
        self.ia = ia;
    }

    /// The registers as they are shown.
    pub fn to_string(&self) -> (s: String)
        ensures
            s@ == self@.text(),
    {
        let mut s = String::from_str("====================\n");
        s.append(" A: ");
        push_hex(&mut s, self.reg(0));
        s.append("\n B: ");
        push_hex(&mut s, self.reg(1));
        s.append("\n C: ");
        push_hex(&mut s, self.reg(2));
        s.append("\n X: ");
        push_hex(&mut s, self.reg(3));
        s.append("\n Y: ");
        push_hex(&mut s, self.reg(4));
        s.append("\n Z: ");
        push_hex(&mut s, self.reg(5));
        s.append("\n I: ");
        push_hex(&mut s, self.reg(6));
        s.append("\n J: ");
        push_hex(&mut s, self.reg(7));
        s.append("\n--------------------\n");
        s.append(" PC: ");
        push_hex(&mut s, self.pc());
        s.append("\n SP: ");
        push_hex(&mut s, self.sp());
        s.append("\n EX: ");
        push_hex(&mut s, self.ex());
        s.append("\n IA: ");
        push_hex(&mut s, self.ia());
        s.append("\n====================\n        ");
        s
    }

    /// Whether the processor has stopped; ticks then change nothing.
    pub fn finished(&self) -> (finished: bool)
        ensures
            finished == self@.finished,
    {
        self.finished
    }
}

} // verus!
