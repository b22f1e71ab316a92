//! What holds of every tick of the processor.
use crate::cpu::next_addr;
use crate::cpu::DcpuState;
use crate::instruction::lemma_decode_encode;
use crate::instruction::lemma_encode_decode;
use crate::instruction::lemma_run_keeps_sizes;
use crate::instruction::valid_word;
use crate::instruction::word_length;
use crate::instruction::BasicInstruction;
use crate::instruction::Instruction;
use crate::instruction::SpecialInstruction;
use crate::op::BasicOp;
use crate::op::SpecialOp;
use crate::val_type::lemma_resolve;
use crate::val_type::ValType;
use crate::word::lemma_quot_bound;
use crate::word::lemma_quot_rem;
use crate::word::quot;
use crate::word::rem;
use crate::word::signed;
use vstd::prelude::*;

verus! {

/// A finished processor stays as it is.
pub proof fn lemma_finished_is_terminal(s: DcpuState)
    requires
        s.finished,
    ensures
        s.can_tick(),
        s.tick() == s,
{
}

/// A running processor finishes in exactly those ticks that leave the
/// program counter where they found it.
pub proof fn lemma_finishes_when_pc_stalls(s: DcpuState)
    requires
        !s.finished,
    ensures
        s.tick().finished <==> s.tick().pc == s.pc,
{
}

/// A tick keeps the sizes of the register file and of memory.
pub proof fn lemma_tick_keeps_sizes(s: DcpuState)
    requires
        s.wf(),
        s.can_tick(),
    ensures
        s.tick().wf(),
{
    if !s.finished {
        lemma_encode_decode(s.next_word());
        lemma_run_keeps_sizes(Instruction::of_word(s.next_word()), s.advance(1));
    }
}

/// `SET r, v`: one tick leaves `v` in register `r` and the program
/// counter behind the instruction, whether `v` stands in the operand
/// field (`a` is an inline literal) or in the next word.
pub proof fn lemma_set_register(s: DcpuState, r: u16, a: ValType, v: u16)
    requires
        s.wf(),
        !s.finished,
        r < 8,
        a == ValType::Literal(v) && a.wf() || a == ValType::NextWord && s.mem[next_addr(s.pc, 1) as int]
            == v,
        s.next_word() == Instruction::Basic(
            BasicInstruction { op: BasicOp::SET, a, b: ValType::Register(r) },
        ).word(),
    ensures
        s.can_tick(),
        s.tick().reg[r as int] == v,
        s.tick().pc == next_addr(
            s.pc,
            Instruction::Basic(BasicInstruction { op: BasicOp::SET, a, b: ValType::Register(r) }).len(),
        ),
{
    reveal(Instruction::run);
    reveal(ValType::resolve);
    reveal(BasicOp::apply);
    lemma_decode_encode(
        Instruction::Basic(BasicInstruction { op: BasicOp::SET, a, b: ValType::Register(r) }),
    );
}

/// A test that fails skips the whole instruction behind it: the program
/// counter ends behind every word of the test and every word of the
/// instruction it guards, and nothing else has changed but what
/// resolving the operands did to the stack pointer.
pub proof fn lemma_failed_test_skips_instruction(s: DcpuState, test: BasicInstruction)
    requires
        s.wf(),
        !s.finished,
        test.op.is_test(),
        Instruction::Basic(test).wf(),
        Instruction::Basic(test).encodable(),
        s.next_word() == Instruction::Basic(test).word(),
        ({
            let (b_kind, s1) = test.b.resolve(s.advance(1));
            let (a_kind, s2) = test.a.resolve(s1);
            !test.op.holds(s2.read(b_kind), s2.read(a_kind))
        }),
        valid_word(s.mem[next_addr(s.pc, Instruction::Basic(test).len()) as int]),
    ensures
        s.can_tick(),
        s.tick().pc == next_addr(
            s.pc,
            Instruction::Basic(test).len() + word_length(
                s.mem[next_addr(s.pc, Instruction::Basic(test).len()) as int],
            ),
        ),
        s.tick().reg == s.reg,
        s.tick().mem == s.mem,
        s.tick().ex == s.ex,
        s.tick().ia == s.ia,
{
    reveal(Instruction::run);
    lemma_decode_encode(Instruction::Basic(test));
    let (b_kind, s1) = test.b.resolve(s.advance(1));
    let (a_kind, s2) = test.a.resolve(s1);
    lemma_resolve(test.b, s.advance(1));
    lemma_resolve(test.a, s1);
    test.op.lemma_test(b_kind, a_kind, s2);
}

/// `JSR target`, the target in the next word: one tick lowers the stack
/// pointer by one, stores the address of the instruction behind the
/// `JSR` where the stack pointer then points, and jumps to the target.
pub proof fn lemma_jsr(s: DcpuState, target: u16)
    requires
        s.wf(),
        !s.finished,
        s.next_word() == Instruction::Special(
            SpecialInstruction { op: SpecialOp::JSR, a: ValType::NextWord },
        ).word(),
        s.mem[next_addr(s.pc, 1) as int] == target,
    ensures
        s.can_tick(),
        s.tick().sp == next_addr(s.sp, -1),
        s.tick().mem[s.tick().sp as int] == next_addr(s.pc, 2),
        s.tick().pc == target,
{
    reveal(Instruction::run);
    reveal(ValType::resolve);
    reveal(SpecialOp::apply);
    lemma_decode_encode(
        Instruction::Special(SpecialInstruction { op: SpecialOp::JSR, a: ValType::NextWord }),
    );
}

/// `SET PC, here`, with `here` the address of the instruction itself:
/// the tick that runs it finishes the processor, and every later tick
/// changes nothing.
pub proof fn lemma_jump_to_self_finishes(s: DcpuState)
    requires
        s.wf(),
        !s.finished,
        s.next_word() == Instruction::Basic(
            BasicInstruction { op: BasicOp::SET, a: ValType::NextWord, b: ValType::ProgramCounter },
        ).word(),
        s.mem[next_addr(s.pc, 1) as int] == s.pc,
    ensures
        s.can_tick(),
        s.tick().finished,
        s.tick().pc == s.pc,
        s.tick().can_tick(),
        s.tick().tick() == s.tick(),
{
    reveal(Instruction::run);
    reveal(ValType::resolve);
    reveal(BasicOp::apply);
    lemma_decode_encode(
        Instruction::Basic(
            BasicInstruction { op: BasicOp::SET, a: ValType::NextWord, b: ValType::ProgramCounter },
        ),
    );
}

/// `ADD` and `ADX` lose nothing: the excess and the result together are
/// the whole sum.
pub proof fn lemma_add_keeps_the_sum(b: u16, a: u16, ex: u16)
    ensures
        BasicOp::ADD.excess(b, a, ex) * 0x1_0000 + BasicOp::ADD.result(b, a, ex) == b + a,
        BasicOp::ADX.excess(b, a, ex) * 0x1_0000 + BasicOp::ADX.result(b, a, ex) == b + a + ex
            || b + a + ex >= 0x2_0000,
{
}

/// `SUB` borrows from the excess: with 0xffff read as minus one, the
/// excess and the result together are the whole difference.
pub proof fn lemma_sub_keeps_the_difference(b: u16, a: u16, ex: u16)
    ensures
        signed(BasicOp::SUB.excess(b, a, ex)) * 0x1_0000 + BasicOp::SUB.result(b, a, ex) == b - a,
        signed(BasicOp::SBX.excess(b, a, ex)) * 0x1_0000 + BasicOp::SBX.result(b, a, ex) == b - a
            + ex,
{
}

/// `MUL` loses nothing: the excess is the high word of the product and
/// the result its low word. So it is with `MLI`, where the operands and
/// the high word are read as signed.
pub proof fn lemma_mul_keeps_the_product(b: u16, a: u16, ex: u16)
    ensures
        BasicOp::MUL.excess(b, a, ex) * 0x1_0000 + BasicOp::MUL.result(b, a, ex) == b * a,
        signed(BasicOp::MLI.excess(b, a, ex)) * 0x1_0000 + BasicOp::MLI.result(b, a, ex) == signed(
            b,
        ) * signed(a),
{
    assert(0 <= b * a <= 0xffff * 0xffff) by (nonlinear_arith)
        requires
            0 <= b <= 0xffff,
            0 <= a <= 0xffff,
    ;
    assert(-0x4000_0000 <= signed(b) * signed(a) <= 0x4000_0000) by (nonlinear_arith)
        requires
            -0x8000 <= signed(b) <= 0x7fff,
            -0x8000 <= signed(a) <= 0x7fff,
    ;
}

/// `DIV` and `MOD` share out `b`: the quotient times `a` and the
/// remainder together are `b`, and the remainder is less than `a`.
pub proof fn lemma_div_mod_share_out(b: u16, a: u16, ex: u16)
    requires
        a != 0,
    ensures
        BasicOp::DIV.result(b, a, ex) * a + BasicOp::MOD.result(b, a, ex) == b,
        BasicOp::MOD.result(b, a, ex) < a,
{
    vstd::arithmetic::div_mod::lemma_fundamental_div_mod(b as int, a as int);
    assert((b as int / a as int) * a == a * (b as int / a as int)) by (nonlinear_arith);
}

/// `DVI` and `MDI` share out `b` as signed numbers, but for the one
/// quotient that no word holds, minus 0x8000 by minus one.
pub proof fn lemma_signed_div_mod_share_out(b: u16, a: u16, ex: u16)
    requires
        a != 0,
        !(b == 0x8000 && a == 0xffff),
    ensures
        signed(BasicOp::DVI.result(b, a, ex)) * signed(a) + signed(BasicOp::MDI.result(b, a, ex))
            == signed(b),
{
    lemma_quot_rem(signed(b), signed(a));
    lemma_quot_bound(signed(b), signed(a));
    let q = quot(signed(b), signed(a));
    let r = rem(signed(b), signed(a));
    assert(-0x8000 <= q <= 0x7fff) by {
        if q == 0x8000 {
            assert(signed(a) * q == signed(a) * 0x8000) by (nonlinear_arith)
                requires
                    q == 0x8000,
            ;
            assert(false);
        }
    }
    assert(q * signed(a) == signed(a) * q) by (nonlinear_arith);
}

/// A shift by up to 16 bits loses nothing: seen in 32 bits, the result
/// and the excess together are the word shifted. A left shift has the
/// excess above the result, a right shift below.
pub proof fn lemma_shift_keeps_the_bits(b: u16, a: u16, ex: u16)
    requires
        a <= 16,
    ensures
        ((BasicOp::SHL.excess(b, a, ex) as u32) << 16u32) | (BasicOp::SHL.result(b, a, ex) as u32)
            == (b as u32) << a,
        ((BasicOp::SHR.result(b, a, ex) as u32) << 16u32) | (BasicOp::SHR.excess(b, a, ex) as u32)
            == ((b as u32) << 16u32) >> a,
{
    assert((((((((b as u32) << a) >> 16u32) & 0xffff) as u16) as u32) << 16u32) | ((b << a) as u32)
        == (b as u32) << a) by (bit_vector)
        requires
            a <= 16,
    ;
    assert((((b >> a) as u32) << 16u32) | ((((((b as u32) << 16u32) >> a) & 0xffff) as u16) as u32)
        == ((b as u32) << 16u32) >> a) by (bit_vector)
        requires
            a <= 16,
    ;
}

} // verus!
