//! System-wide properties, each stated and proved as a public proof
//! function over the same specification functions the executable code is
//! verified against.

use vstd::prelude::*;

use crate::bus::{mem_byte, wram_after};
use crate::cart::BANK_SIZE;
use crate::cpu::{sr_byte, sr_from_byte, sval};
use crate::nes::{can_step, good_step, halted_step, Halt, NES};
use crate::sem::{opcode_at, page, step_b1, step_b2, wrap16};

verus! {

/// Flag round-trip: for every status-byte value, unpacking the flags and
/// packing them again reproduces the byte, bit for bit.
pub proof fn lemma_flag_round_trip(val: u8)
    ensures
        sr_byte(sr_from_byte(val)) == val,
{
    let b7: u8 = val / 128 % 2;
    let b6: u8 = val / 64 % 2;
    let b5: u8 = val / 32 % 2;
    let b4: u8 = val / 16 % 2;
    let b3: u8 = val / 8 % 2;
    let b2: u8 = val / 4 % 2;
    let b1: u8 = val / 2 % 2;
    let b0: u8 = val % 2;
    assert(b7 < 2 && b6 < 2 && b5 < 2 && b4 < 2 && b3 < 2 && b2 < 2 && b1 < 2 && b0 < 2)
        by (bit_vector)
        requires
            b7 == val / 128 % 2,
            b6 == val / 64 % 2,
            b5 == val / 32 % 2,
            b4 == val / 16 % 2,
            b3 == val / 8 % 2,
            b2 == val / 4 % 2,
            b1 == val / 2 % 2,
            b0 == val % 2,
    ;
    assert(b7 * 128 + b6 * 64 + b5 * 32 + b4 * 16 + b3 * 8 + b2 * 4 + b1 * 2 + b0 == val)
        by (bit_vector)
        requires
            b7 == val / 128 % 2,
            b6 == val / 64 % 2,
            b5 == val / 32 % 2,
            b4 == val / 16 % 2,
            b3 == val / 8 % 2,
            b2 == val / 4 % 2,
            b1 == val / 2 % 2,
            b0 == val % 2,
    ;
}

/// Work-RAM mirroring: after a write of `v` at `a` (below 0x0800), a read
/// of `a + 2048k` for k = 1, 2, 3 sees `v` through the bus decoder — all
/// four addresses land on the same work-RAM cell.
pub proof fn lemma_wram_mirroring(s: &NES, sp: &NES, a: u16, k: u16, v: u8)
    requires
        s.wf(),
        a < 2048,
        1 <= k <= 3,
        sp.wram.contents@ == wram_after(s, a, v),
    ensures
        mem_byte(sp, a) == v,
        mem_byte(sp, (a + 2048 * k) as u16) == v,
{
    vstd::arithmetic::div_mod::lemma_small_mod(a as nat, 2048);
    vstd::arithmetic::div_mod::lemma_mod_add_multiples_vanish(a as int, 2048);
    vstd::arithmetic::div_mod::lemma_mod_add_multiples_vanish(a as int + 2048, 2048);
    vstd::arithmetic::div_mod::lemma_mod_add_multiples_vanish(a as int + 4096, 2048);
}

/// PRG-ROM mirroring: a CPU read at `a` and one at `a + bank_size` see
/// the same cartridge byte.
pub proof fn lemma_prg_mirroring(s: &NES, a: u16)
    requires
        s.wf(),
        0x8000 <= a,
        a as int + BANK_SIZE < 0x10000,
    ensures
        mem_byte(s, a) == mem_byte(s, (a + BANK_SIZE) as u16),
{
    vstd::arithmetic::div_mod::lemma_mod_add_multiples_vanish(a as int, BANK_SIZE as int);
}

/// Cycle accounting: an immediate load of the accumulator (opcode 0xA9)
/// advances the cycle counter by exactly 2 and the program counter by
/// exactly 2, from any state it executes in (the reset state included).
pub proof fn lemma_lda_imm_cost(s: &NES, post: &NES, line: Seq<char>)
    requires
        good_step(s, post, line),
        opcode_at(s) == 0xA9,
    ensures
        post.cycles == s.cycles + 2,
        post.cpu.PC == wrap16(s.cpu.PC as int + 2),
        post.cpu.ACC == step_b1(s),
{
    crate::sem::lemma_lda(s, 0xA9, step_b1(s), step_b2(s));
}

/// Page-cross penalty: indexed absolute loads (opcode 0xBD) from base
/// 0x00FF cost one more cycle with X = 1 (which crosses into page 1)
/// than with X = 0 (which does not).
pub proof fn lemma_lda_absx_penalty(
    s0: &NES,
    post0: &NES,
    line0: Seq<char>,
    s1: &NES,
    post1: &NES,
    line1: Seq<char>,
)
    requires
        good_step(s0, post0, line0),
        good_step(s1, post1, line1),
        opcode_at(s0) == 0xBD,
        opcode_at(s1) == 0xBD,
        step_b1(s0) == 0xFF,
        step_b2(s0) == 0,
        step_b1(s1) == 0xFF,
        step_b2(s1) == 0,
        s0.cpu.X == 0,
        s1.cpu.X == 1,
        s0.cycles == s1.cycles,
    ensures
        post0.cycles == s0.cycles + 4,
        post1.cycles == s1.cycles + 5,
        post1.cycles == post0.cycles + 1,
{
    crate::sem::lemma_lda(s0, 0xBD, step_b1(s0), step_b2(s0));
    crate::sem::lemma_lda(s1, 0xBD, step_b1(s1), step_b2(s1));
}

/// Branch cost: a not-taken branch (opcode 0xD0 here) costs its base two
/// cycles; a taken branch to the same page costs three; a taken branch
/// crossing a page costs four.
pub proof fn lemma_branch_cost(s: &NES, post: &NES, line: Seq<char>)
    requires
        good_step(s, post, line),
        opcode_at(s) == 0xD0,
    ensures
        ({
            let taken = !s.cpu.SR.Z;
            let pc1 = wrap16(s.cpu.PC as int + 2);
            let target = wrap16(pc1 as int + sval(step_b1(s)) + 0x10000);
            &&& post.cycles as int == s.cycles as int + 2 + (if !taken {
                0int
            } else if page(pc1) == page(target) {
                1int
            } else {
                2int
            })
            &&& post.cpu.PC == (if taken {
                target
            } else {
                pc1
            })
        }),
{
    crate::sem::lemma_bne(s, 0xD0, step_b1(s), step_b2(s));
}

/// Breakpoint one-shot: stepping onto a registered breakpoint halts
/// before executing (registers, memory and cycles untouched, the program
/// counter still at the breakpoint) and consumes the registration, so a
/// later visit to the same address with an unchanged breakpoint set is
/// not blocked again.
pub proof fn lemma_breakpoint_one_shot(s: &NES, post: &NES, halt: Halt, later: &NES)
    requires
        s.breakpoints@.contains(s.cpu.PC as usize),
        halted_step(s, post, halt),
        later.cpu.PC == s.cpu.PC,
        later.breakpoints@ == post.breakpoints@,
    ensures
        halt == (Halt::Breakpoint { pc: s.cpu.PC }),
        post.cpu == s.cpu,
        post.cycles == s.cycles,
        post.wram.contents@ == s.wram.contents@,
        !post.breakpoints@.contains(s.cpu.PC as usize),
        !later.breakpoints@.contains(later.cpu.PC as usize),
{
}

/// A successful step never halts, and a halted step is exactly a step
/// that could not execute.
pub proof fn lemma_step_dichotomy(s: &NES, post: &NES, halt: Halt)
    requires
        halted_step(s, post, halt),
    ensures
        !can_step(s),
{
    if can_step(s) {
        assert(!s.breakpoints@.contains(s.cpu.PC as usize));
    }
}

} // verus!
