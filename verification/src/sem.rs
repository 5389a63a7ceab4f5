//! The specification-level semantics of the instruction set: effective
//! addresses and page-cross conditions per addressing mode, the operand
//! text each mode prints, and for every instruction family the exact
//! effect of one instruction — registers, flags, memory, cycle cost and
//! trace text — as pure functions of the machine state. The executable
//! handlers are verified against these functions, and the step controller
//! assembles its full contract from them.

use vstd::prelude::*;

use crate::bus::{mem_byte, read_ok, write_ok};
use crate::cpu::{sr_byte, sr_from_byte, sval, Cpu, SR};
use crate::instr::{
    is_adc, is_and, is_asl, is_bit, is_cmp, is_cpx, is_cpy, is_dec, is_eor, is_idcp, is_iisb,
    is_ilax, is_implied, is_inc, is_inop, is_irla, is_irra, is_isax, is_islo, is_isre, is_lda,
    is_ldx, is_ldy, is_lsr, is_ora, is_read_op, is_rmw_op, is_rol, is_ror, is_sbc, is_sta, is_stx,
    is_sty, is_urmw_op, op_cycles, op_len, op_mode, read_penalty, wb_penalty,
};
use crate::nes::{AddrMode, Fault, NES};
use crate::ppu::PPUREGS;
use crate::text::{hex2, hex4, spaces};

verus! {

/// Reducing a non-negative value into a byte can be done before or after
/// adding to it.
pub proof fn lemma_wrap8_add(a: int, b: int)
    requires
        0 <= a,
        0 <= b,
    ensures
        wrap8(wrap8(a) as int + b) == wrap8(a + b),
{
    vstd::arithmetic::div_mod::lemma_mod_twice(a, 256);
    vstd::arithmetic::div_mod::lemma_add_mod_noop(a % 256, b, 256);
    vstd::arithmetic::div_mod::lemma_add_mod_noop(a, b, 256);
}

/// A full turn of the stack pointer changes nothing.
pub proof fn lemma_wrap8_drop256(a: int)
    requires
        0 <= a,
    ensures
        wrap8(a + 256) == wrap8(a),
{
    vstd::arithmetic::div_mod::lemma_mod_add_multiples_vanish(a, 256);
}

/// A value reduced into the 16-bit address space.
pub open spec fn wrap16(x: int) -> u16 {
    (x % 0x10000) as u16
}

/// A value reduced into a byte.
pub open spec fn wrap8(x: int) -> u8 {
    (x % 256) as u8
}

/// The 256-byte page of an address.
pub open spec fn page(a: u16) -> int {
    a as int / 256
}

/// A little-endian operand pair as an absolute address.
pub open spec fn abs_addr(b1: u8, b2: u8) -> u16 {
    (b2 as int * 256 + b1 as int) as u16
}

/// The word read from the zero-page pointer `b1` (the high-byte fetch
/// wraps within the zero page).
pub open spec fn ind_base(s: &NES, b1: u8) -> u16 {
    (mem_byte(s, ((b1 as int + 1) % 256) as u16) as int * 256 + mem_byte(s, b1 as u16) as int) as u16
}

/// The effective address an addressing mode resolves to (meaningless for
/// the accumulator and immediate modes, and for indirect, which only the
/// jump instruction uses and resolves itself).
pub open spec fn ea_of(s: &NES, m: AddrMode, b1: u8, b2: u8) -> u16 {
    match m {
        AddrMode::ABS => abs_addr(b1, b2),
        AddrMode::ABSX => wrap16(abs_addr(b1, b2) as int + s.cpu.X as int),
        AddrMode::ABSY => wrap16(abs_addr(b1, b2) as int + s.cpu.Y as int),
        AddrMode::INDX => {
            let zp = (b1 as int + s.cpu.X as int) % 256;
            (mem_byte(s, (((zp + 1) % 256)) as u16) as int * 256 + mem_byte(s, zp as u16) as int) as u16
        },
        AddrMode::INDY => wrap16(ind_base(s, b1) as int + s.cpu.Y as int),
        AddrMode::REL => wrap16(s.cpu.PC as int + sval(b1) + 0x10000),
        AddrMode::ZPG => b1 as u16,
        AddrMode::ZPGX => ((b1 as int + s.cpu.X as int) % 256) as u16,
        AddrMode::ZPGY => ((b1 as int + s.cpu.Y as int) % 256) as u16,
        _ => 0,
    }
}

/// Whether resolving this mode crosses a page boundary (the condition the
/// one-cycle penalty tests).
pub open spec fn crossed(s: &NES, m: AddrMode, b1: u8, b2: u8) -> bool {
    match m {
        AddrMode::ABSX => page(abs_addr(b1, b2)) != page(
            wrap16(abs_addr(b1, b2) as int + s.cpu.X as int),
        ),
        AddrMode::ABSY => page(abs_addr(b1, b2)) != page(
            wrap16(abs_addr(b1, b2) as int + s.cpu.Y as int),
        ),
        AddrMode::INDY => page(ind_base(s, b1)) != page(
            wrap16(ind_base(s, b1) as int + s.cpu.Y as int),
        ),
        AddrMode::REL => page(s.cpu.PC) != page(ea_of(s, m, b1, b2)),
        AddrMode::ZPGX => b1 as int + s.cpu.X as int >= 256,
        AddrMode::ZPGY => b1 as int + s.cpu.Y as int >= 256,
        _ => false,
    }
}

/// Whether the operand of this mode lives in memory (as opposed to the
/// accumulator or the instruction itself).
pub open spec fn operand_in_mem(m: AddrMode) -> bool {
    !(m is ACC || m is IMM)
}

/// The operand value an addressing mode yields.
pub open spec fn rval(s: &NES, m: AddrMode, b1: u8, b2: u8) -> u8 {
    if m is ACC {
        s.cpu.ACC
    } else if m is IMM {
        b1
    } else {
        mem_byte(s, ea_of(s, m, b1, b2))
    }
}

/// Whether fetching the operand faults (its effective address falls into
/// the unmapped area).
pub open spec fn rfault(s: &NES, m: AddrMode, b1: u8, b2: u8) -> bool {
    operand_in_mem(m) && !read_ok(ea_of(s, m, b1, b2))
}

/// The operand text a mode appends to the trace line.
pub open spec fn operand_text(s: &NES, m: AddrMode, b1: u8, b2: u8) -> Seq<char> {
    let ea = ea_of(s, m, b1, b2);
    let v = rval(s, m, b1, b2);
    match m {
        AddrMode::ACC => "A"@,
        AddrMode::IMM => "#$"@ + hex2(b1),
        AddrMode::ABS => "$"@ + hex4(ea) + " = "@ + hex2(v),
        AddrMode::ABSX => "$"@ + hex4(abs_addr(b1, b2)) + ",X @ "@ + hex4(ea) + " = "@ + hex2(v),
        AddrMode::ABSY => "$"@ + hex4(abs_addr(b1, b2)) + ",Y @ "@ + hex4(ea) + " = "@ + hex2(v),
        AddrMode::INDX => "($"@ + hex2(b1) + ",X) @ "@ + hex2(wrap8(b1 as int + s.cpu.X as int))
            + " = "@ + hex4(ea) + " = "@ + hex2(v),
        AddrMode::INDY => "($"@ + hex2(b1) + "),Y = "@ + hex4(ind_base(s, b1)) + " @ "@ + hex4(ea)
            + " = "@ + hex2(v),
        AddrMode::ZPG => "$"@ + hex2(b1) + " = "@ + hex2(v),
        AddrMode::ZPGX => "$"@ + hex2(b1) + ",X @ "@ + hex2(ea as u8) + " = "@ + hex2(v),
        AddrMode::ZPGY => "$"@ + hex2(b1) + ",Y @ "@ + hex2(ea as u8) + " = "@ + hex2(v),
        _ => Seq::<char>::empty(),
    }
}

/// The effect of one executed instruction on the parts of the system an
/// instruction can touch.
pub struct Eff {
    /// The register file afterwards.
    pub cpu: Cpu,
    /// Work RAM afterwards.
    pub wram: Seq<u8>,
    /// The picture-unit registers afterwards.
    pub regs: PPUREGS,
    /// The cycle counter afterwards (as an unbounded integer).
    pub cycles: int,
    /// The operand text appended to the trace line.
    pub text: Seq<char>,
}

/// The status register with negative and zero set from a result byte.
pub open spec fn nz(sr: SR, v: u8) -> SR {
    SR { N: v >= 128, Z: v == 0, ..sr }
}

/// The program counter advanced over this instruction.
pub open spec fn pc_next(s: &NES, op: u8) -> u16 {
    wrap16(s.cpu.PC as int + op_len(op) as int)
}

/// The addressing mode of an opcode that has one.
pub open spec fn the_mode(op: u8) -> AddrMode {
    op_mode(op)->Some_0
}

/// The cycle counter after this instruction: base cost plus the
/// page-cross penalties its fetch and (for read-modify-write forms) its
/// write-back address computation are eligible for.
pub open spec fn cyc(s: &NES, op: u8, b1: u8, b2: u8) -> int {
    s.cycles as int + op_cycles(op) as int + (if read_penalty(op) && crossed(
        s,
        the_mode(op),
        b1,
        b2,
    ) {
        1int
    } else {
        0int
    }) + (if wb_penalty(op) && crossed(s, the_mode(op), b1, b2) {
        1int
    } else {
        0int
    })
}

/// An effect that only changes the register file and the cycle counter.
pub open spec fn reg_eff(s: &NES, op: u8, b1: u8, b2: u8, cpu: Cpu) -> Eff {
    Eff {
        cpu,
        wram: s.wram.contents@,
        regs: s.ppu.regs,
        cycles: cyc(s, op, b1, b2),
        text: operand_text(s, the_mode(op), b1, b2),
    }
}

/// Work RAM after this instruction writes `v` at `ea` through the bus.
pub open spec fn wram_w(s: &NES, ea: u16, v: u8) -> Seq<u8> {
    crate::bus::wram_after(s, ea, v)
}

/// The picture-unit registers after this instruction writes `v` at `ea`.
pub open spec fn regs_w(s: &NES, ea: u16, v: u8) -> PPUREGS {
    crate::bus::regs_after(s, ea, v)
}

/// An effect that writes one byte to memory besides changing registers.
pub open spec fn mem_eff(s: &NES, op: u8, b1: u8, b2: u8, cpu: Cpu, v: u8) -> Eff {
    let ea = ea_of(s, the_mode(op), b1, b2);
    Eff {
        cpu,
        wram: wram_w(s, ea, v),
        regs: regs_w(s, ea, v),
        cycles: cyc(s, op, b1, b2),
        text: operand_text(s, the_mode(op), b1, b2),
    }
}

// ---------------------------------------------------------------------
// Loads, stores, transfers
// ---------------------------------------------------------------------

/// LDA: load the accumulator, setting N and Z.
pub open spec fn lda_eff(s: &NES, op: u8, b1: u8, b2: u8) -> Eff {
    let v = rval(s, the_mode(op), b1, b2);
    reg_eff(s, op, b1, b2, Cpu { PC: pc_next(s, op), ACC: v, SR: nz(s.cpu.SR, v), ..s.cpu })
}

/// LDX: load X, setting N and Z.
pub open spec fn ldx_eff(s: &NES, op: u8, b1: u8, b2: u8) -> Eff {
    let v = rval(s, the_mode(op), b1, b2);
    reg_eff(s, op, b1, b2, Cpu { PC: pc_next(s, op), X: v, SR: nz(s.cpu.SR, v), ..s.cpu })
}

/// LDY: load Y, setting N and Z.
pub open spec fn ldy_eff(s: &NES, op: u8, b1: u8, b2: u8) -> Eff {
    let v = rval(s, the_mode(op), b1, b2);
    reg_eff(s, op, b1, b2, Cpu { PC: pc_next(s, op), Y: v, SR: nz(s.cpu.SR, v), ..s.cpu })
}

/// Undocumented LAX: load the accumulator and X together.
pub open spec fn ilax_eff(s: &NES, op: u8, b1: u8, b2: u8) -> Eff {
    let v = rval(s, the_mode(op), b1, b2);
    reg_eff(s, op, b1, b2, Cpu { PC: pc_next(s, op), ACC: v, X: v, SR: nz(s.cpu.SR, v), ..s.cpu })
}

/// STA: store the accumulator; flags untouched.
pub open spec fn sta_eff(s: &NES, op: u8, b1: u8, b2: u8) -> Eff {
    mem_eff(s, op, b1, b2, Cpu { PC: pc_next(s, op), ..s.cpu }, s.cpu.ACC)
}

/// STX: store X.
pub open spec fn stx_eff(s: &NES, op: u8, b1: u8, b2: u8) -> Eff {
    mem_eff(s, op, b1, b2, Cpu { PC: pc_next(s, op), ..s.cpu }, s.cpu.X)
}

/// STY: store Y.
pub open spec fn sty_eff(s: &NES, op: u8, b1: u8, b2: u8) -> Eff {
    mem_eff(s, op, b1, b2, Cpu { PC: pc_next(s, op), ..s.cpu }, s.cpu.Y)
}

/// Undocumented SAX: store the bitwise AND of the accumulator and X.
pub open spec fn isax_eff(s: &NES, op: u8, b1: u8, b2: u8) -> Eff {
    mem_eff(s, op, b1, b2, Cpu { PC: pc_next(s, op), ..s.cpu }, s.cpu.ACC & s.cpu.X)
}

/// A register-to-register transfer, setting N and Z from the value moved.
pub open spec fn transfer_eff(s: &NES, op: u8, cpu: Cpu) -> Eff {
    Eff {
        cpu,
        wram: s.wram.contents@,
        regs: s.ppu.regs,
        cycles: s.cycles as int + op_cycles(op) as int,
        text: Seq::<char>::empty(),
    }
}

// ---------------------------------------------------------------------
// Arithmetic and logic
// ---------------------------------------------------------------------

/// ADC: add with carry. The result is reduced modulo 256; carry reports
/// the unsigned overflow, overflow the signed one; decimal mode is
/// tracked but inert.
pub open spec fn adc_eff(s: &NES, op: u8, b1: u8, b2: u8) -> Eff {
    let v = rval(s, the_mode(op), b1, b2);
    let c: int = if s.cpu.SR.C {
        1
    } else {
        0
    };
    let sum = s.cpu.ACC as int + v as int + c;
    let res = wrap8(sum);
    let signed = sval(s.cpu.ACC) + sval(v) + c;
    let sr = SR {
        N: res >= 128,
        Z: res == 0,
        C: sum > 255,
        V: signed < -128 || signed > 127,
        ..s.cpu.SR
    };
    reg_eff(s, op, b1, b2, Cpu { PC: pc_next(s, op), ACC: res, SR: sr, ..s.cpu })
}

/// SBC: subtract with borrow (the complement of carry). Carry clears
/// exactly when the unsigned subtraction borrows; overflow follows the
/// signed rule.
pub open spec fn sbc_eff(s: &NES, op: u8, b1: u8, b2: u8) -> Eff {
    let v = rval(s, the_mode(op), b1, b2);
    let b: int = if s.cpu.SR.C {
        0
    } else {
        1
    };
    let diff = s.cpu.ACC as int - v as int - b;
    let res = wrap8(diff + 512);
    let sr = SR {
        N: res >= 128,
        Z: res == 0,
        C: diff >= 0,
        V: ((s.cpu.ACC >= 128) != (v >= 128)) && ((s.cpu.ACC >= 128) != (res >= 128)),
        ..s.cpu.SR
    };
    reg_eff(s, op, b1, b2, Cpu { PC: pc_next(s, op), ACC: res, SR: sr, ..s.cpu })
}

/// AND / ORA / EOR: a bitwise operation into the accumulator with N and Z.
pub open spec fn logic_eff(s: &NES, op: u8, b1: u8, b2: u8, a2: u8) -> Eff {
    reg_eff(s, op, b1, b2, Cpu { PC: pc_next(s, op), ACC: a2, SR: nz(s.cpu.SR, a2), ..s.cpu })
}

/// CMP / CPX / CPY: compare a register against the operand; N and Z from
/// the wrapped difference, carry set when the register is not below the
/// operand.
pub open spec fn cmp_eff(s: &NES, op: u8, b1: u8, b2: u8, reg: u8) -> Eff {
    let v = rval(s, the_mode(op), b1, b2);
    let res = wrap8(reg as int - v as int + 256);
    let sr = SR { N: res >= 128, Z: res == 0, C: reg >= v, ..s.cpu.SR };
    reg_eff(s, op, b1, b2, Cpu { PC: pc_next(s, op), SR: sr, ..s.cpu })
}

/// BIT: N and V from bits 7 and 6 of the operand, Z from its AND with
/// the accumulator.
pub open spec fn bit_eff(s: &NES, op: u8, b1: u8, b2: u8) -> Eff {
    let v = rval(s, the_mode(op), b1, b2);
    let sr = SR {
        N: v >= 128,
        V: v as int / 64 % 2 == 1,
        Z: (s.cpu.ACC & v) == 0,
        ..s.cpu.SR
    };
    reg_eff(s, op, b1, b2, Cpu { PC: pc_next(s, op), SR: sr, ..s.cpu })
}

// ---------------------------------------------------------------------
// Shifts and rotates (accumulator or memory), increments, decrements
// ---------------------------------------------------------------------

/// The shifted or rotated byte and the new carry, per family.
pub open spec fn asl_val(v: u8) -> (u8, bool) {
    (wrap8(2 * v as int), v >= 128)
}

pub open spec fn lsr_val(v: u8) -> (u8, bool) {
    ((v / 2) as u8, v % 2 == 1)
}

pub open spec fn rol_val(v: u8, c: bool) -> (u8, bool) {
    (
        wrap8(2 * v as int + (if c {
            1int
        } else {
            0int
        })),
        v >= 128,
    )
}

pub open spec fn ror_val(v: u8, c: bool) -> (u8, bool) {
    (
        ((v / 2) as int + (if c {
            128int
        } else {
            0int
        })) as u8,
        v % 2 == 1,
    )
}

/// A documented shift or rotate: the transformed byte goes back to the
/// accumulator or to memory; N and Z follow the result, carry the bit
/// shifted out (except LSR, whose N is always clear — subsumed since its
/// result is below 128).
pub open spec fn shift_eff(s: &NES, op: u8, b1: u8, b2: u8, v2: u8, c2: bool) -> Eff {
    let m = the_mode(op);
    let sr = SR { N: v2 >= 128, Z: v2 == 0, C: c2, ..s.cpu.SR };
    if m is ACC {
        reg_eff(s, op, b1, b2, Cpu { PC: pc_next(s, op), ACC: v2, SR: sr, ..s.cpu })
    } else {
        mem_eff(s, op, b1, b2, Cpu { PC: pc_next(s, op), SR: sr, ..s.cpu }, v2)
    }
}

/// INC / DEC: the incremented or decremented byte goes back to memory,
/// with N and Z.
pub open spec fn incdec_eff(s: &NES, op: u8, b1: u8, b2: u8, v2: u8) -> Eff {
    mem_eff(s, op, b1, b2, Cpu { PC: pc_next(s, op), SR: nz(s.cpu.SR, v2), ..s.cpu }, v2)
}

// ---------------------------------------------------------------------
// Branches, jumps, subroutines, interrupts
// ---------------------------------------------------------------------

/// A conditional branch: the program counter first advances over the
/// instruction; a taken branch goes to that value plus the signed offset
/// and costs one extra cycle, or two when the target sits on another
/// page.
pub open spec fn branch_eff(s: &NES, op: u8, b1: u8, taken: bool) -> Eff {
    let pc1 = wrap16(s.cpu.PC as int + 2);
    let target = wrap16(pc1 as int + sval(b1) + 0x10000);
    let extra: int = if taken {
        1 + (if page(pc1) != page(target) {
            1int
        } else {
            0int
        })
    } else {
        0
    };
    Eff {
        cpu: Cpu {
            PC: if taken {
                target
            } else {
                pc1
            },
            ..s.cpu
        },
        wram: s.wram.contents@,
        regs: s.ppu.regs,
        cycles: s.cycles as int + op_cycles(op) as int + extra,
        text: "$"@ + hex4(target),
    }
}

/// JMP absolute: the operand word becomes the program counter.
pub open spec fn jmp_abs_eff(s: &NES, b1: u8, b2: u8) -> Eff {
    let target = abs_addr(b1, b2);
    Eff {
        cpu: Cpu { PC: target, ..s.cpu },
        wram: s.wram.contents@,
        regs: s.ppu.regs,
        cycles: s.cycles as int + 3,
        text: "$"@ + hex4(target),
    }
}

/// The second pointer byte of an indirect jump: the increment of the low
/// byte wraps within the page, never carrying into the high byte.
pub open spec fn jmp_ind_hi_addr(b1: u8, b2: u8) -> u16 {
    (b2 as int * 256 + (b1 as int + 1) % 256) as u16
}

/// JMP indirect: the program counter is read from the operand word, the
/// high pointer byte fetched with the documented page-wrap quirk.
pub open spec fn jmp_ind_eff(s: &NES, b1: u8, b2: u8) -> Eff {
    let base = abs_addr(b1, b2);
    let lo = mem_byte(s, base);
    let hi = mem_byte(s, jmp_ind_hi_addr(b1, b2));
    let target = (hi as int * 256 + lo as int) as u16;
    Eff {
        cpu: Cpu { PC: target, ..s.cpu },
        wram: s.wram.contents@,
        regs: s.ppu.regs,
        cycles: s.cycles as int + 5,
        text: "($"@ + hex4(base) + ") = "@ + hex4(target),
    }
}

/// The work-RAM index of the stack slot at the given stack pointer.
pub open spec fn stack_at(sp: u8) -> int {
    256 + sp as int
}

/// JSR: pushes the address of its own last byte (high byte first), then
/// jumps to the operand word.
pub open spec fn jsr_eff(s: &NES, op: u8, b1: u8, b2: u8) -> Eff {
    let ra = wrap16(s.cpu.PC as int + 2);
    let sp1 = wrap8(s.cpu.SP as int + 255);
    let target = abs_addr(b1, b2);
    Eff {
        cpu: Cpu { PC: target, SP: wrap8(s.cpu.SP as int + 254), ..s.cpu },
        wram: s.wram.contents@.update(stack_at(s.cpu.SP), (ra as int / 256) as u8).update(
            stack_at(sp1),
            (ra as int % 256) as u8,
        ),
        regs: s.ppu.regs,
        cycles: s.cycles as int + 6,
        text: "$"@ + hex4(target),
    }
}

/// RTS: pulls the return address (low byte first) and resumes one past
/// it.
pub open spec fn rts_eff(s: &NES, op: u8) -> Eff {
    let lo = s.wram.contents@[stack_at(wrap8(s.cpu.SP as int + 1))];
    let hi = s.wram.contents@[stack_at(wrap8(s.cpu.SP as int + 2))];
    Eff {
        cpu: Cpu {
            PC: wrap16(hi as int * 256 + lo as int + 1),
            SP: wrap8(s.cpu.SP as int + 2),
            ..s.cpu
        },
        wram: s.wram.contents@,
        regs: s.ppu.regs,
        cycles: s.cycles as int + 6,
        text: Seq::<char>::empty(),
    }
}

/// RTI: pulls the status byte — preserving both B bits, which live only
/// in the register file — then the return address.
pub open spec fn rti_eff(s: &NES, op: u8) -> Eff {
    let p = s.wram.contents@[stack_at(wrap8(s.cpu.SP as int + 1))];
    let lo = s.wram.contents@[stack_at(wrap8(s.cpu.SP as int + 2))];
    let hi = s.wram.contents@[stack_at(wrap8(s.cpu.SP as int + 3))];
    let sr = SR { BH: s.cpu.SR.BH, BL: s.cpu.SR.BL, ..sr_from_byte(p) };
    Eff {
        cpu: Cpu {
            PC: (hi as int * 256 + lo as int) as u16,
            SP: wrap8(s.cpu.SP as int + 3),
            SR: sr,
            ..s.cpu
        },
        wram: s.wram.contents@,
        regs: s.ppu.regs,
        cycles: s.cycles as int + 6,
        text: Seq::<char>::empty(),
    }
}

/// BRK: pushes the address two past the opcode (high byte first), sets
/// interrupt-disable, then pushes the status byte with both B bits set.
pub open spec fn brk_eff(s: &NES, op: u8) -> Eff {
    let ra = wrap16(s.cpu.PC as int + 2);
    let sp1 = wrap8(s.cpu.SP as int + 255);
    let sp2 = wrap8(s.cpu.SP as int + 254);
    let sr2 = SR { I: true, ..s.cpu.SR };
    let pushed = sr_byte(SR { BH: true, BL: true, ..sr2 });
    Eff {
        cpu: Cpu { PC: wrap16(s.cpu.PC as int + 1), SP: wrap8(s.cpu.SP as int + 253), SR: sr2, ..s.cpu },
        wram: s.wram.contents@.update(stack_at(s.cpu.SP), (ra as int / 256) as u8).update(
            stack_at(sp1),
            (ra as int % 256) as u8,
        ).update(stack_at(sp2), pushed),
        regs: s.ppu.regs,
        cycles: s.cycles as int + 7,
        text: Seq::<char>::empty(),
    }
}

// ---------------------------------------------------------------------
// Stack pushes and pulls
// ---------------------------------------------------------------------

/// PHA: pushes the accumulator.
pub open spec fn pha_eff(s: &NES, op: u8) -> Eff {
    Eff {
        cpu: Cpu { PC: pc_next(s, op), SP: wrap8(s.cpu.SP as int + 255), ..s.cpu },
        wram: s.wram.contents@.update(stack_at(s.cpu.SP), s.cpu.ACC),
        regs: s.ppu.regs,
        cycles: s.cycles as int + 3,
        text: Seq::<char>::empty(),
    }
}

/// PHP: pushes the status byte with both B bits set.
pub open spec fn php_eff(s: &NES, op: u8) -> Eff {
    Eff {
        cpu: Cpu { PC: pc_next(s, op), SP: wrap8(s.cpu.SP as int + 255), ..s.cpu },
        wram: s.wram.contents@.update(
            stack_at(s.cpu.SP),
            sr_byte(SR { BH: true, BL: true, ..s.cpu.SR }),
        ),
        regs: s.ppu.regs,
        cycles: s.cycles as int + 3,
        text: Seq::<char>::empty(),
    }
}

/// PLA: pulls the accumulator, setting N and Z.
pub open spec fn pla_eff(s: &NES, op: u8) -> Eff {
    let v = s.wram.contents@[stack_at(wrap8(s.cpu.SP as int + 1))];
    Eff {
        cpu: Cpu {
            PC: pc_next(s, op),
            ACC: v,
            SR: nz(s.cpu.SR, v),
            SP: wrap8(s.cpu.SP as int + 1),
            ..s.cpu
        },
        wram: s.wram.contents@,
        regs: s.ppu.regs,
        cycles: s.cycles as int + 4,
        text: Seq::<char>::empty(),
    }
}

/// PLP: pulls the status byte, preserving both B bits.
pub open spec fn plp_eff(s: &NES, op: u8) -> Eff {
    let v = s.wram.contents@[stack_at(wrap8(s.cpu.SP as int + 1))];
    let sr = SR { BH: s.cpu.SR.BH, BL: s.cpu.SR.BL, ..sr_from_byte(v) };
    Eff {
        cpu: Cpu { PC: pc_next(s, op), SR: sr, SP: wrap8(s.cpu.SP as int + 1), ..s.cpu },
        wram: s.wram.contents@,
        regs: s.ppu.regs,
        cycles: s.cycles as int + 4,
        text: Seq::<char>::empty(),
    }
}

// ---------------------------------------------------------------------
// Undocumented composites
// ---------------------------------------------------------------------

/// Undocumented DCP: decrement memory, then compare the accumulator
/// against the decremented byte; the trace text shows the byte before
/// the decrement.
pub open spec fn idcp_eff(s: &NES, op: u8, b1: u8, b2: u8) -> Eff {
    let m = the_mode(op);
    let v0 = rval(s, m, b1, b2);
    let v2 = wrap8(v0 as int - 1 + 256);
    let res = wrap8(s.cpu.ACC as int - v2 as int + 256);
    let sr = SR { N: res >= 128, Z: res == 0, C: s.cpu.ACC >= v2, ..s.cpu.SR };
    mem_eff(s, op, b1, b2, Cpu { PC: pc_next(s, op), SR: sr, ..s.cpu }, v2)
}

/// Undocumented ISB: increment memory, then subtract the incremented
/// byte from the accumulator with borrow.
pub open spec fn iisb_eff(s: &NES, op: u8, b1: u8, b2: u8) -> Eff {
    let m = the_mode(op);
    let v0 = rval(s, m, b1, b2);
    let v2 = wrap8(v0 as int + 1);
    let b: int = if s.cpu.SR.C {
        0
    } else {
        1
    };
    let diff = s.cpu.ACC as int - v2 as int - b;
    let res = wrap8(diff + 512);
    let sr = SR {
        N: res >= 128,
        Z: res == 0,
        C: diff >= 0,
        V: ((s.cpu.ACC >= 128) != (v2 >= 128)) && ((s.cpu.ACC >= 128) != (res >= 128)),
        ..s.cpu.SR
    };
    mem_eff(s, op, b1, b2, Cpu { PC: pc_next(s, op), ACC: res, SR: sr, ..s.cpu }, v2)
}

/// Undocumented SLO: shift memory left, then OR it into the accumulator.
pub open spec fn islo_eff(s: &NES, op: u8, b1: u8, b2: u8) -> Eff {
    let m = the_mode(op);
    let v0 = rval(s, m, b1, b2);
    let v2 = wrap8(2 * v0 as int);
    let a2 = s.cpu.ACC | v2;
    let sr = SR { N: a2 >= 128, Z: a2 == 0, C: v0 >= 128, ..s.cpu.SR };
    mem_eff(s, op, b1, b2, Cpu { PC: pc_next(s, op), ACC: a2, SR: sr, ..s.cpu }, v2)
}

/// Undocumented RLA: rotate memory left through carry, then AND it into
/// the accumulator.
pub open spec fn irla_eff(s: &NES, op: u8, b1: u8, b2: u8) -> Eff {
    let m = the_mode(op);
    let v0 = rval(s, m, b1, b2);
    let v2 = rol_val(v0, s.cpu.SR.C).0;
    let a2 = s.cpu.ACC & v2;
    let sr = SR { N: a2 >= 128, Z: a2 == 0, C: v0 >= 128, ..s.cpu.SR };
    mem_eff(s, op, b1, b2, Cpu { PC: pc_next(s, op), ACC: a2, SR: sr, ..s.cpu }, v2)
}

/// Undocumented SRE: shift memory right, then XOR it into the
/// accumulator.
pub open spec fn isre_eff(s: &NES, op: u8, b1: u8, b2: u8) -> Eff {
    let m = the_mode(op);
    let v0 = rval(s, m, b1, b2);
    let v2 = (v0 / 2) as u8;
    let a2 = s.cpu.ACC ^ v2;
    let sr = SR { N: a2 >= 128, Z: a2 == 0, C: v0 % 2 == 1, ..s.cpu.SR };
    mem_eff(s, op, b1, b2, Cpu { PC: pc_next(s, op), ACC: a2, SR: sr, ..s.cpu }, v2)
}

/// Undocumented RRA: rotate memory right through carry, then add the
/// rotated byte to the accumulator with the carry the rotation produced.
pub open spec fn irra_eff(s: &NES, op: u8, b1: u8, b2: u8) -> Eff {
    let m = the_mode(op);
    let v0 = rval(s, m, b1, b2);
    let c1 = v0 % 2 == 1;
    let v2 = ror_val(v0, s.cpu.SR.C).0;
    let cin: int = if c1 {
        1
    } else {
        0
    };
    let sum = s.cpu.ACC as int + v2 as int + cin;
    let res = wrap8(sum);
    let signed = sval(s.cpu.ACC) + sval(v2) + cin;
    let sr = SR {
        N: res >= 128,
        Z: res == 0,
        C: sum > 255,
        V: signed < -128 || signed > 127,
        ..s.cpu.SR
    };
    mem_eff(s, op, b1, b2, Cpu { PC: pc_next(s, op), ACC: res, SR: sr, ..s.cpu }, v2)
}

// ---------------------------------------------------------------------
// Dispatch
// ---------------------------------------------------------------------

/// An effect that touches nothing but the program counter and the base
/// cycle cost (with possibly changed registers handed in).
pub open spec fn imp_eff(s: &NES, op: u8, cpu: Cpu) -> Eff {
    Eff {
        cpu,
        wram: s.wram.contents@,
        regs: s.ppu.regs,
        cycles: s.cycles as int + op_cycles(op) as int,
        text: Seq::<char>::empty(),
    }
}

/// Whether the opcode is an undocumented one, whose handler shortens the
/// trace prefix by one column (their mnemonics carry the `*` prefix).
pub open spec fn is_undocumented(op: u8) -> bool {
    is_inop(op) || is_ilax(op) || is_isax(op) || op == 0xEB || is_idcp(op) || is_iisb(op)
        || is_islo(op) || is_irla(op) || is_isre(op) || is_irra(op)
}

/// The fault of an address that must first be read and then written.
pub open spec fn rw_fault_at(ea: u16) -> Option<Fault> {
    if !read_ok(ea) {
        Some(Fault::UnmappedRead { addr: ea })
    } else if !write_ok(ea) {
        Some(Fault::UnmappedWrite { addr: ea })
    } else {
        None
    }
}

/// The fault of a plain operand read.
pub open spec fn read_fault_of(s: &NES, op: u8, b1: u8, b2: u8) -> Option<Fault> {
    if rfault(s, the_mode(op), b1, b2) {
        Some(Fault::UnmappedRead { addr: ea_of(s, the_mode(op), b1, b2) })
    } else {
        None
    }
}

/// The fault of a read-modify-write or store operand.
pub open spec fn rw_fault_of(s: &NES, op: u8, b1: u8, b2: u8) -> Option<Fault> {
    rw_fault_at(ea_of(s, the_mode(op), b1, b2))
}

/// The fault of a shift or rotate, which touches no memory in its
/// accumulator form.
pub open spec fn rmw_fault_of(s: &NES, op: u8, b1: u8, b2: u8) -> Option<Fault> {
    if the_mode(op) is ACC {
        None
    } else {
        rw_fault_at(ea_of(s, the_mode(op), b1, b2))
    }
}

/// The fault, if any, executing this instruction runs into: its operand
/// read, its write-back, or an indirect jump's pointer reads touching the
/// unmapped area. `None` means the instruction completes.
#[verifier::opaque]
pub open spec fn instr_fault(s: &NES, op: u8, b1: u8, b2: u8) -> Option<Fault> {
    if is_read_op(op) {
        read_fault_of(s, op, b1, b2)
    } else if is_rmw_op(op) {
        rmw_fault_of(s, op, b1, b2)
    } else if is_urmw_op(op) || is_sta(op) || is_stx(op) || is_sty(op) || is_isax(op) {
        rw_fault_of(s, op, b1, b2)
    } else if op == 0x6C {
        if !read_ok(abs_addr(b1, b2)) {
            Some(Fault::UnmappedRead { addr: abs_addr(b1, b2) })
        } else if !read_ok(jmp_ind_hi_addr(b1, b2)) {
            Some(Fault::UnmappedRead { addr: jmp_ind_hi_addr(b1, b2) })
        } else {
            None
        }
    } else {
        None
    }
}

/// The effect of one executed instruction (meaningful when the opcode is
/// known and `instr_fault` is `None`).
#[verifier::opaque]
pub open spec fn instr_eff(s: &NES, op: u8, b1: u8, b2: u8) -> Eff {
    let m = the_mode(op);
    let v = rval(s, m, b1, b2);
    if is_lda(op) {
        lda_eff(s, op, b1, b2)
    } else if is_ldx(op) {
        ldx_eff(s, op, b1, b2)
    } else if is_ldy(op) {
        ldy_eff(s, op, b1, b2)
    } else if is_ilax(op) {
        ilax_eff(s, op, b1, b2)
    } else if is_sta(op) {
        sta_eff(s, op, b1, b2)
    } else if is_stx(op) {
        stx_eff(s, op, b1, b2)
    } else if is_sty(op) {
        sty_eff(s, op, b1, b2)
    } else if is_isax(op) {
        isax_eff(s, op, b1, b2)
    } else if is_adc(op) {
        adc_eff(s, op, b1, b2)
    } else if is_sbc(op) || op == 0xEB {
        sbc_eff(s, op, b1, b2)
    } else if is_and(op) {
        logic_eff(s, op, b1, b2, s.cpu.ACC & v)
    } else if is_ora(op) {
        logic_eff(s, op, b1, b2, s.cpu.ACC | v)
    } else if is_eor(op) {
        logic_eff(s, op, b1, b2, s.cpu.ACC ^ v)
    } else if is_cmp(op) {
        cmp_eff(s, op, b1, b2, s.cpu.ACC)
    } else if is_cpx(op) {
        cmp_eff(s, op, b1, b2, s.cpu.X)
    } else if is_cpy(op) {
        cmp_eff(s, op, b1, b2, s.cpu.Y)
    } else if is_bit(op) {
        bit_eff(s, op, b1, b2)
    } else if is_asl(op) {
        shift_eff(s, op, b1, b2, asl_val(v).0, asl_val(v).1)
    } else if is_lsr(op) {
        shift_eff(s, op, b1, b2, lsr_val(v).0, lsr_val(v).1)
    } else if is_rol(op) {
        shift_eff(s, op, b1, b2, rol_val(v, s.cpu.SR.C).0, rol_val(v, s.cpu.SR.C).1)
    } else if is_ror(op) {
        shift_eff(s, op, b1, b2, ror_val(v, s.cpu.SR.C).0, ror_val(v, s.cpu.SR.C).1)
    } else if is_inc(op) {
        incdec_eff(s, op, b1, b2, wrap8(v as int + 1))
    } else if is_dec(op) {
        incdec_eff(s, op, b1, b2, wrap8(v as int - 1 + 256))
    } else if is_idcp(op) {
        idcp_eff(s, op, b1, b2)
    } else if is_iisb(op) {
        iisb_eff(s, op, b1, b2)
    } else if is_islo(op) {
        islo_eff(s, op, b1, b2)
    } else if is_irla(op) {
        irla_eff(s, op, b1, b2)
    } else if is_isre(op) {
        isre_eff(s, op, b1, b2)
    } else if is_irra(op) {
        irra_eff(s, op, b1, b2)
    } else if op == 0x90 {
        branch_eff(s, op, b1, !s.cpu.SR.C)
    } else if op == 0xB0 {
        branch_eff(s, op, b1, s.cpu.SR.C)
    } else if op == 0xF0 {
        branch_eff(s, op, b1, s.cpu.SR.Z)
    } else if op == 0xD0 {
        branch_eff(s, op, b1, !s.cpu.SR.Z)
    } else if op == 0x30 {
        branch_eff(s, op, b1, s.cpu.SR.N)
    } else if op == 0x10 {
        branch_eff(s, op, b1, !s.cpu.SR.N)
    } else if op == 0x70 {
        branch_eff(s, op, b1, s.cpu.SR.V)
    } else if op == 0x50 {
        branch_eff(s, op, b1, !s.cpu.SR.V)
    } else if op == 0x4C {
        jmp_abs_eff(s, b1, b2)
    } else if op == 0x6C {
        jmp_ind_eff(s, b1, b2)
    } else if op == 0x20 {
        jsr_eff(s, op, b1, b2)
    } else if op == 0x60 {
        rts_eff(s, op)
    } else if op == 0x40 {
        rti_eff(s, op)
    } else if op == 0x00 {
        brk_eff(s, op)
    } else if op == 0x48 {
        pha_eff(s, op)
    } else if op == 0x08 {
        php_eff(s, op)
    } else if op == 0x68 {
        pla_eff(s, op)
    } else if op == 0x28 {
        plp_eff(s, op)
    } else if op == 0x18 {
        imp_eff(s, op, Cpu { PC: pc_next(s, op), SR: SR { C: false, ..s.cpu.SR }, ..s.cpu })
    } else if op == 0x38 {
        imp_eff(s, op, Cpu { PC: pc_next(s, op), SR: SR { C: true, ..s.cpu.SR }, ..s.cpu })
    } else if op == 0xD8 {
        imp_eff(s, op, Cpu { PC: pc_next(s, op), SR: SR { D: false, ..s.cpu.SR }, ..s.cpu })
    } else if op == 0xF8 {
        imp_eff(s, op, Cpu { PC: pc_next(s, op), SR: SR { D: true, ..s.cpu.SR }, ..s.cpu })
    } else if op == 0x58 {
        imp_eff(s, op, Cpu { PC: pc_next(s, op), SR: SR { I: false, ..s.cpu.SR }, ..s.cpu })
    } else if op == 0x78 {
        imp_eff(s, op, Cpu { PC: pc_next(s, op), SR: SR { I: true, ..s.cpu.SR }, ..s.cpu })
    } else if op == 0xB8 {
        imp_eff(s, op, Cpu { PC: pc_next(s, op), SR: SR { V: false, ..s.cpu.SR }, ..s.cpu })
    } else if op == 0xCA {
        let v2 = wrap8(s.cpu.X as int - 1 + 256);
        imp_eff(s, op, Cpu { PC: pc_next(s, op), X: v2, SR: nz(s.cpu.SR, v2), ..s.cpu })
    } else if op == 0x88 {
        let v2 = wrap8(s.cpu.Y as int - 1 + 256);
        imp_eff(s, op, Cpu { PC: pc_next(s, op), Y: v2, SR: nz(s.cpu.SR, v2), ..s.cpu })
    } else if op == 0xE8 {
        let v2 = wrap8(s.cpu.X as int + 1);
        imp_eff(s, op, Cpu { PC: pc_next(s, op), X: v2, SR: nz(s.cpu.SR, v2), ..s.cpu })
    } else if op == 0xC8 {
        let v2 = wrap8(s.cpu.Y as int + 1);
        imp_eff(s, op, Cpu { PC: pc_next(s, op), Y: v2, SR: nz(s.cpu.SR, v2), ..s.cpu })
    } else if op == 0xAA {
        imp_eff(
            s,
            op,
            Cpu { PC: pc_next(s, op), X: s.cpu.ACC, SR: nz(s.cpu.SR, s.cpu.ACC), ..s.cpu },
        )
    } else if op == 0xA8 {
        imp_eff(
            s,
            op,
            Cpu { PC: pc_next(s, op), Y: s.cpu.ACC, SR: nz(s.cpu.SR, s.cpu.ACC), ..s.cpu },
        )
    } else if op == 0xBA {
        imp_eff(
            s,
            op,
            Cpu { PC: pc_next(s, op), X: s.cpu.SP, SR: nz(s.cpu.SR, s.cpu.SP), ..s.cpu },
        )
    } else if op == 0x8A {
        imp_eff(
            s,
            op,
            Cpu { PC: pc_next(s, op), ACC: s.cpu.X, SR: nz(s.cpu.SR, s.cpu.X), ..s.cpu },
        )
    } else if op == 0x98 {
        imp_eff(
            s,
            op,
            Cpu { PC: pc_next(s, op), ACC: s.cpu.Y, SR: nz(s.cpu.SR, s.cpu.Y), ..s.cpu },
        )
    } else if op == 0x9A {
        imp_eff(s, op, Cpu { PC: pc_next(s, op), SP: s.cpu.X, ..s.cpu })
    } else if op == 0xEA {
        imp_eff(s, op, Cpu { PC: pc_next(s, op), ..s.cpu })
    } else if is_inop(op) && is_implied(op) {
        imp_eff(s, op, Cpu { PC: pc_next(s, op), ..s.cpu })
    } else if is_inop(op) {
        reg_eff(s, op, b1, b2, Cpu { PC: pc_next(s, op), ..s.cpu })
    } else {
        imp_eff(s, op, s.cpu)
    }
}

/// Unfolds the dispatch for this instruction family.
pub proof fn lemma_lda(s: &NES, op: u8, b1: u8, b2: u8)
    requires
        is_lda(op),
    ensures
        instr_eff(s, op, b1, b2) == lda_eff(s, op, b1, b2),
        instr_fault(s, op, b1, b2) == read_fault_of(s, op, b1, b2),
{
    reveal(instr_eff);
    reveal(instr_fault);
}

/// Unfolds the dispatch for this instruction family.
pub proof fn lemma_ldx(s: &NES, op: u8, b1: u8, b2: u8)
    requires
        is_ldx(op),
    ensures
        instr_eff(s, op, b1, b2) == ldx_eff(s, op, b1, b2),
        instr_fault(s, op, b1, b2) == read_fault_of(s, op, b1, b2),
{
    reveal(instr_eff);
    reveal(instr_fault);
}

/// Unfolds the dispatch for this instruction family.
pub proof fn lemma_ldy(s: &NES, op: u8, b1: u8, b2: u8)
    requires
        is_ldy(op),
    ensures
        instr_eff(s, op, b1, b2) == ldy_eff(s, op, b1, b2),
        instr_fault(s, op, b1, b2) == read_fault_of(s, op, b1, b2),
{
    reveal(instr_eff);
    reveal(instr_fault);
}

/// Unfolds the dispatch for this instruction family.
pub proof fn lemma_ilax(s: &NES, op: u8, b1: u8, b2: u8)
    requires
        is_ilax(op),
    ensures
        instr_eff(s, op, b1, b2) == ilax_eff(s, op, b1, b2),
        instr_fault(s, op, b1, b2) == read_fault_of(s, op, b1, b2),
{
    reveal(instr_eff);
    reveal(instr_fault);
}

/// Unfolds the dispatch for this instruction family.
pub proof fn lemma_sta(s: &NES, op: u8, b1: u8, b2: u8)
    requires
        is_sta(op),
    ensures
        instr_eff(s, op, b1, b2) == sta_eff(s, op, b1, b2),
        instr_fault(s, op, b1, b2) == rw_fault_of(s, op, b1, b2),
{
    reveal(instr_eff);
    reveal(instr_fault);
}

/// Unfolds the dispatch for this instruction family.
pub proof fn lemma_stx(s: &NES, op: u8, b1: u8, b2: u8)
    requires
        is_stx(op),
    ensures
        instr_eff(s, op, b1, b2) == stx_eff(s, op, b1, b2),
        instr_fault(s, op, b1, b2) == rw_fault_of(s, op, b1, b2),
{
    reveal(instr_eff);
    reveal(instr_fault);
}

/// Unfolds the dispatch for this instruction family.
pub proof fn lemma_sty(s: &NES, op: u8, b1: u8, b2: u8)
    requires
        is_sty(op),
    ensures
        instr_eff(s, op, b1, b2) == sty_eff(s, op, b1, b2),
        instr_fault(s, op, b1, b2) == rw_fault_of(s, op, b1, b2),
{
    reveal(instr_eff);
    reveal(instr_fault);
}

/// Unfolds the dispatch for this instruction family.
pub proof fn lemma_isax(s: &NES, op: u8, b1: u8, b2: u8)
    requires
        is_isax(op),
    ensures
        instr_eff(s, op, b1, b2) == isax_eff(s, op, b1, b2),
        instr_fault(s, op, b1, b2) == rw_fault_of(s, op, b1, b2),
{
    reveal(instr_eff);
    reveal(instr_fault);
}

/// Unfolds the dispatch for this instruction family.
pub proof fn lemma_adc(s: &NES, op: u8, b1: u8, b2: u8)
    requires
        is_adc(op),
    ensures
        instr_eff(s, op, b1, b2) == adc_eff(s, op, b1, b2),
        instr_fault(s, op, b1, b2) == read_fault_of(s, op, b1, b2),
{
    reveal(instr_eff);
    reveal(instr_fault);
}

/// Unfolds the dispatch for this instruction family.
pub proof fn lemma_sbc(s: &NES, op: u8, b1: u8, b2: u8)
    requires
        is_sbc(op) || op == 0xEB,
    ensures
        instr_eff(s, op, b1, b2) == sbc_eff(s, op, b1, b2),
        instr_fault(s, op, b1, b2) == read_fault_of(s, op, b1, b2),
{
    reveal(instr_eff);
    reveal(instr_fault);
}

/// Unfolds the dispatch for this instruction family.
pub proof fn lemma_and(s: &NES, op: u8, b1: u8, b2: u8)
    requires
        is_and(op),
    ensures
        instr_eff(s, op, b1, b2) == logic_eff(s, op, b1, b2, s.cpu.ACC & rval(s, the_mode(op), b1, b2)),
        instr_fault(s, op, b1, b2) == read_fault_of(s, op, b1, b2),
{
    reveal(instr_eff);
    reveal(instr_fault);
}

/// Unfolds the dispatch for this instruction family.
pub proof fn lemma_ora(s: &NES, op: u8, b1: u8, b2: u8)
    requires
        is_ora(op),
    ensures
        instr_eff(s, op, b1, b2) == logic_eff(s, op, b1, b2, s.cpu.ACC | rval(s, the_mode(op), b1, b2)),
        instr_fault(s, op, b1, b2) == read_fault_of(s, op, b1, b2),
{
    reveal(instr_eff);
    reveal(instr_fault);
}

/// Unfolds the dispatch for this instruction family.
pub proof fn lemma_eor(s: &NES, op: u8, b1: u8, b2: u8)
    requires
        is_eor(op),
    ensures
        instr_eff(s, op, b1, b2) == logic_eff(s, op, b1, b2, s.cpu.ACC ^ rval(s, the_mode(op), b1, b2)),
        instr_fault(s, op, b1, b2) == read_fault_of(s, op, b1, b2),
{
    reveal(instr_eff);
    reveal(instr_fault);
}

/// Unfolds the dispatch for this instruction family.
pub proof fn lemma_cmp(s: &NES, op: u8, b1: u8, b2: u8)
    requires
        is_cmp(op),
    ensures
        instr_eff(s, op, b1, b2) == cmp_eff(s, op, b1, b2, s.cpu.ACC),
        instr_fault(s, op, b1, b2) == read_fault_of(s, op, b1, b2),
{
    reveal(instr_eff);
    reveal(instr_fault);
}

/// Unfolds the dispatch for this instruction family.
pub proof fn lemma_cpx(s: &NES, op: u8, b1: u8, b2: u8)
    requires
        is_cpx(op),
    ensures
        instr_eff(s, op, b1, b2) == cmp_eff(s, op, b1, b2, s.cpu.X),
        instr_fault(s, op, b1, b2) == read_fault_of(s, op, b1, b2),
{
    reveal(instr_eff);
    reveal(instr_fault);
}

/// Unfolds the dispatch for this instruction family.
pub proof fn lemma_cpy(s: &NES, op: u8, b1: u8, b2: u8)
    requires
        is_cpy(op),
    ensures
        instr_eff(s, op, b1, b2) == cmp_eff(s, op, b1, b2, s.cpu.Y),
        instr_fault(s, op, b1, b2) == read_fault_of(s, op, b1, b2),
{
    reveal(instr_eff);
    reveal(instr_fault);
}

/// Unfolds the dispatch for this instruction family.
pub proof fn lemma_bit(s: &NES, op: u8, b1: u8, b2: u8)
    requires
        is_bit(op),
    ensures
        instr_eff(s, op, b1, b2) == bit_eff(s, op, b1, b2),
        instr_fault(s, op, b1, b2) == read_fault_of(s, op, b1, b2),
{
    reveal(instr_eff);
    reveal(instr_fault);
}

/// Unfolds the dispatch for this instruction family.
pub proof fn lemma_asl(s: &NES, op: u8, b1: u8, b2: u8)
    requires
        is_asl(op),
    ensures
        instr_eff(s, op, b1, b2) == shift_eff(s, op, b1, b2, asl_val(rval(s, the_mode(op), b1, b2)).0, asl_val(rval(s, the_mode(op), b1, b2)).1),
        instr_fault(s, op, b1, b2) == rmw_fault_of(s, op, b1, b2),
{
    reveal(instr_eff);
    reveal(instr_fault);
}

/// Unfolds the dispatch for this instruction family.
pub proof fn lemma_lsr(s: &NES, op: u8, b1: u8, b2: u8)
    requires
        is_lsr(op),
    ensures
        instr_eff(s, op, b1, b2) == shift_eff(s, op, b1, b2, lsr_val(rval(s, the_mode(op), b1, b2)).0, lsr_val(rval(s, the_mode(op), b1, b2)).1),
        instr_fault(s, op, b1, b2) == rmw_fault_of(s, op, b1, b2),
{
    reveal(instr_eff);
    reveal(instr_fault);
}

/// Unfolds the dispatch for this instruction family.
pub proof fn lemma_rol(s: &NES, op: u8, b1: u8, b2: u8)
    requires
        is_rol(op),
    ensures
        instr_eff(s, op, b1, b2) == shift_eff(s, op, b1, b2, rol_val(rval(s, the_mode(op), b1, b2), s.cpu.SR.C).0, rol_val(rval(s, the_mode(op), b1, b2), s.cpu.SR.C).1),
        instr_fault(s, op, b1, b2) == rmw_fault_of(s, op, b1, b2),
{
    reveal(instr_eff);
    reveal(instr_fault);
}

/// Unfolds the dispatch for this instruction family.
pub proof fn lemma_ror(s: &NES, op: u8, b1: u8, b2: u8)
    requires
        is_ror(op),
    ensures
        instr_eff(s, op, b1, b2) == shift_eff(s, op, b1, b2, ror_val(rval(s, the_mode(op), b1, b2), s.cpu.SR.C).0, ror_val(rval(s, the_mode(op), b1, b2), s.cpu.SR.C).1),
        instr_fault(s, op, b1, b2) == rmw_fault_of(s, op, b1, b2),
{
    reveal(instr_eff);
    reveal(instr_fault);
}

/// Unfolds the dispatch for this instruction family.
pub proof fn lemma_inc(s: &NES, op: u8, b1: u8, b2: u8)
    requires
        is_inc(op),
    ensures
        instr_eff(s, op, b1, b2) == incdec_eff(s, op, b1, b2, wrap8(rval(s, the_mode(op), b1, b2) as int + 1)),
        instr_fault(s, op, b1, b2) == rmw_fault_of(s, op, b1, b2),
{
    reveal(instr_eff);
    reveal(instr_fault);
}

/// Unfolds the dispatch for this instruction family.
pub proof fn lemma_dec(s: &NES, op: u8, b1: u8, b2: u8)
    requires
        is_dec(op),
    ensures
        instr_eff(s, op, b1, b2) == incdec_eff(s, op, b1, b2, wrap8(rval(s, the_mode(op), b1, b2) as int - 1 + 256)),
        instr_fault(s, op, b1, b2) == rmw_fault_of(s, op, b1, b2),
{
    reveal(instr_eff);
    reveal(instr_fault);
}

/// Unfolds the dispatch for this instruction family.
pub proof fn lemma_idcp(s: &NES, op: u8, b1: u8, b2: u8)
    requires
        is_idcp(op),
    ensures
        instr_eff(s, op, b1, b2) == idcp_eff(s, op, b1, b2),
        instr_fault(s, op, b1, b2) == rw_fault_of(s, op, b1, b2),
{
    reveal(instr_eff);
    reveal(instr_fault);
}

/// Unfolds the dispatch for this instruction family.
pub proof fn lemma_iisb(s: &NES, op: u8, b1: u8, b2: u8)
    requires
        is_iisb(op),
    ensures
        instr_eff(s, op, b1, b2) == iisb_eff(s, op, b1, b2),
        instr_fault(s, op, b1, b2) == rw_fault_of(s, op, b1, b2),
{
    reveal(instr_eff);
    reveal(instr_fault);
}

/// Unfolds the dispatch for this instruction family.
pub proof fn lemma_islo(s: &NES, op: u8, b1: u8, b2: u8)
    requires
        is_islo(op),
    ensures
        instr_eff(s, op, b1, b2) == islo_eff(s, op, b1, b2),
        instr_fault(s, op, b1, b2) == rw_fault_of(s, op, b1, b2),
{
    reveal(instr_eff);
    reveal(instr_fault);
}

/// Unfolds the dispatch for this instruction family.
pub proof fn lemma_irla(s: &NES, op: u8, b1: u8, b2: u8)
    requires
        is_irla(op),
    ensures
        instr_eff(s, op, b1, b2) == irla_eff(s, op, b1, b2),
        instr_fault(s, op, b1, b2) == rw_fault_of(s, op, b1, b2),
{
    reveal(instr_eff);
    reveal(instr_fault);
}

/// Unfolds the dispatch for this instruction family.
pub proof fn lemma_isre(s: &NES, op: u8, b1: u8, b2: u8)
    requires
        is_isre(op),
    ensures
        instr_eff(s, op, b1, b2) == isre_eff(s, op, b1, b2),
        instr_fault(s, op, b1, b2) == rw_fault_of(s, op, b1, b2),
{
    reveal(instr_eff);
    reveal(instr_fault);
}

/// Unfolds the dispatch for this instruction family.
pub proof fn lemma_irra(s: &NES, op: u8, b1: u8, b2: u8)
    requires
        is_irra(op),
    ensures
        instr_eff(s, op, b1, b2) == irra_eff(s, op, b1, b2),
        instr_fault(s, op, b1, b2) == rw_fault_of(s, op, b1, b2),
{
    reveal(instr_eff);
    reveal(instr_fault);
}

/// Unfolds the dispatch for this instruction family.
pub proof fn lemma_bcc(s: &NES, op: u8, b1: u8, b2: u8)
    requires
        op == 0x90,
    ensures
        instr_eff(s, op, b1, b2) == branch_eff(s, op, b1, !s.cpu.SR.C),
        instr_fault(s, op, b1, b2) == None::<Fault>,
{
    reveal(instr_eff);
    reveal(instr_fault);
}

/// Unfolds the dispatch for this instruction family.
pub proof fn lemma_bcs(s: &NES, op: u8, b1: u8, b2: u8)
    requires
        op == 0xB0,
    ensures
        instr_eff(s, op, b1, b2) == branch_eff(s, op, b1, s.cpu.SR.C),
        instr_fault(s, op, b1, b2) == None::<Fault>,
{
    reveal(instr_eff);
    reveal(instr_fault);
}

/// Unfolds the dispatch for this instruction family.
pub proof fn lemma_beq(s: &NES, op: u8, b1: u8, b2: u8)
    requires
        op == 0xF0,
    ensures
        instr_eff(s, op, b1, b2) == branch_eff(s, op, b1, s.cpu.SR.Z),
        instr_fault(s, op, b1, b2) == None::<Fault>,
{
    reveal(instr_eff);
    reveal(instr_fault);
}

/// Unfolds the dispatch for this instruction family.
pub proof fn lemma_bne(s: &NES, op: u8, b1: u8, b2: u8)
    requires
        op == 0xD0,
    ensures
        instr_eff(s, op, b1, b2) == branch_eff(s, op, b1, !s.cpu.SR.Z),
        instr_fault(s, op, b1, b2) == None::<Fault>,
{
    reveal(instr_eff);
    reveal(instr_fault);
}

/// Unfolds the dispatch for this instruction family.
pub proof fn lemma_bmi(s: &NES, op: u8, b1: u8, b2: u8)
    requires
        op == 0x30,
    ensures
        instr_eff(s, op, b1, b2) == branch_eff(s, op, b1, s.cpu.SR.N),
        instr_fault(s, op, b1, b2) == None::<Fault>,
{
    reveal(instr_eff);
    reveal(instr_fault);
}

/// Unfolds the dispatch for this instruction family.
pub proof fn lemma_bpl(s: &NES, op: u8, b1: u8, b2: u8)
    requires
        op == 0x10,
    ensures
        instr_eff(s, op, b1, b2) == branch_eff(s, op, b1, !s.cpu.SR.N),
        instr_fault(s, op, b1, b2) == None::<Fault>,
{
    reveal(instr_eff);
    reveal(instr_fault);
}

/// Unfolds the dispatch for this instruction family.
pub proof fn lemma_bvc(s: &NES, op: u8, b1: u8, b2: u8)
    requires
        op == 0x50,
    ensures
        instr_eff(s, op, b1, b2) == branch_eff(s, op, b1, !s.cpu.SR.V),
        instr_fault(s, op, b1, b2) == None::<Fault>,
{
    reveal(instr_eff);
    reveal(instr_fault);
}

/// Unfolds the dispatch for this instruction family.
pub proof fn lemma_bvs(s: &NES, op: u8, b1: u8, b2: u8)
    requires
        op == 0x70,
    ensures
        instr_eff(s, op, b1, b2) == branch_eff(s, op, b1, s.cpu.SR.V),
        instr_fault(s, op, b1, b2) == None::<Fault>,
{
    reveal(instr_eff);
    reveal(instr_fault);
}

/// Unfolds the dispatch for the jump instruction.
pub proof fn lemma_jmp(s: &NES, op: u8, b1: u8, b2: u8)
    requires
        op == 0x4C || op == 0x6C,
    ensures
        op == 0x4C ==> instr_eff(s, op, b1, b2) == jmp_abs_eff(s, b1, b2) && instr_fault(
            s,
            op,
            b1,
            b2,
        ) is None,
        op == 0x6C ==> instr_eff(s, op, b1, b2) == jmp_ind_eff(s, b1, b2) && instr_fault(
            s,
            op,
            b1,
            b2,
        ) == (if !read_ok(abs_addr(b1, b2)) {
            Some(Fault::UnmappedRead { addr: abs_addr(b1, b2) })
        } else if !read_ok(jmp_ind_hi_addr(b1, b2)) {
            Some(Fault::UnmappedRead { addr: jmp_ind_hi_addr(b1, b2) })
        } else {
            None
        }),
{
    reveal(instr_eff);
    reveal(instr_fault);
}

/// Unfolds the dispatch for this instruction family.
pub proof fn lemma_jsr(s: &NES, op: u8, b1: u8, b2: u8)
    requires
        op == 0x20,
    ensures
        instr_eff(s, op, b1, b2) == jsr_eff(s, op, b1, b2),
        instr_fault(s, op, b1, b2) == None::<Fault>,
{
    reveal(instr_eff);
    reveal(instr_fault);
}

/// Unfolds the dispatch for this instruction family.
pub proof fn lemma_rts(s: &NES, op: u8, b1: u8, b2: u8)
    requires
        op == 0x60,
    ensures
        instr_eff(s, op, b1, b2) == rts_eff(s, op),
        instr_fault(s, op, b1, b2) == None::<Fault>,
{
    reveal(instr_eff);
    reveal(instr_fault);
}

/// Unfolds the dispatch for this instruction family.
pub proof fn lemma_rti(s: &NES, op: u8, b1: u8, b2: u8)
    requires
        op == 0x40,
    ensures
        instr_eff(s, op, b1, b2) == rti_eff(s, op),
        instr_fault(s, op, b1, b2) == None::<Fault>,
{
    reveal(instr_eff);
    reveal(instr_fault);
}

/// Unfolds the dispatch for this instruction family.
pub proof fn lemma_brk(s: &NES, op: u8, b1: u8, b2: u8)
    requires
        op == 0x00,
    ensures
        instr_eff(s, op, b1, b2) == brk_eff(s, op),
        instr_fault(s, op, b1, b2) == None::<Fault>,
{
    reveal(instr_eff);
    reveal(instr_fault);
}

/// Unfolds the dispatch for this instruction family.
pub proof fn lemma_pha(s: &NES, op: u8, b1: u8, b2: u8)
    requires
        op == 0x48,
    ensures
        instr_eff(s, op, b1, b2) == pha_eff(s, op),
        instr_fault(s, op, b1, b2) == None::<Fault>,
{
    reveal(instr_eff);
    reveal(instr_fault);
}

/// Unfolds the dispatch for this instruction family.
pub proof fn lemma_php(s: &NES, op: u8, b1: u8, b2: u8)
    requires
        op == 0x08,
    ensures
        instr_eff(s, op, b1, b2) == php_eff(s, op),
        instr_fault(s, op, b1, b2) == None::<Fault>,
{
    reveal(instr_eff);
    reveal(instr_fault);
}

/// Unfolds the dispatch for this instruction family.
pub proof fn lemma_pla(s: &NES, op: u8, b1: u8, b2: u8)
    requires
        op == 0x68,
    ensures
        instr_eff(s, op, b1, b2) == pla_eff(s, op),
        instr_fault(s, op, b1, b2) == None::<Fault>,
{
    reveal(instr_eff);
    reveal(instr_fault);
}

/// Unfolds the dispatch for this instruction family.
pub proof fn lemma_plp(s: &NES, op: u8, b1: u8, b2: u8)
    requires
        op == 0x28,
    ensures
        instr_eff(s, op, b1, b2) == plp_eff(s, op),
        instr_fault(s, op, b1, b2) == None::<Fault>,
{
    reveal(instr_eff);
    reveal(instr_fault);
}

/// Unfolds the dispatch for this instruction family.
pub proof fn lemma_clc(s: &NES, op: u8, b1: u8, b2: u8)
    requires
        op == 0x18,
    ensures
        instr_eff(s, op, b1, b2) == imp_eff(s, op, Cpu { PC: pc_next(s, op), SR: SR { C: false, ..s.cpu.SR }, ..s.cpu }),
        instr_fault(s, op, b1, b2) == None::<Fault>,
{
    reveal(instr_eff);
    reveal(instr_fault);
}

/// Unfolds the dispatch for this instruction family.
pub proof fn lemma_sec(s: &NES, op: u8, b1: u8, b2: u8)
    requires
        op == 0x38,
    ensures
        instr_eff(s, op, b1, b2) == imp_eff(s, op, Cpu { PC: pc_next(s, op), SR: SR { C: true, ..s.cpu.SR }, ..s.cpu }),
        instr_fault(s, op, b1, b2) == None::<Fault>,
{
    reveal(instr_eff);
    reveal(instr_fault);
}

/// Unfolds the dispatch for this instruction family.
pub proof fn lemma_cld(s: &NES, op: u8, b1: u8, b2: u8)
    requires
        op == 0xD8,
    ensures
        instr_eff(s, op, b1, b2) == imp_eff(s, op, Cpu { PC: pc_next(s, op), SR: SR { D: false, ..s.cpu.SR }, ..s.cpu }),
        instr_fault(s, op, b1, b2) == None::<Fault>,
{
    reveal(instr_eff);
    reveal(instr_fault);
}

/// Unfolds the dispatch for this instruction family.
pub proof fn lemma_sed(s: &NES, op: u8, b1: u8, b2: u8)
    requires
        op == 0xF8,
    ensures
        instr_eff(s, op, b1, b2) == imp_eff(s, op, Cpu { PC: pc_next(s, op), SR: SR { D: true, ..s.cpu.SR }, ..s.cpu }),
        instr_fault(s, op, b1, b2) == None::<Fault>,
{
    reveal(instr_eff);
    reveal(instr_fault);
}

/// Unfolds the dispatch for this instruction family.
pub proof fn lemma_cli(s: &NES, op: u8, b1: u8, b2: u8)
    requires
        op == 0x58,
    ensures
        instr_eff(s, op, b1, b2) == imp_eff(s, op, Cpu { PC: pc_next(s, op), SR: SR { I: false, ..s.cpu.SR }, ..s.cpu }),
        instr_fault(s, op, b1, b2) == None::<Fault>,
{
    reveal(instr_eff);
    reveal(instr_fault);
}

/// Unfolds the dispatch for this instruction family.
pub proof fn lemma_sei(s: &NES, op: u8, b1: u8, b2: u8)
    requires
        op == 0x78,
    ensures
        instr_eff(s, op, b1, b2) == imp_eff(s, op, Cpu { PC: pc_next(s, op), SR: SR { I: true, ..s.cpu.SR }, ..s.cpu }),
        instr_fault(s, op, b1, b2) == None::<Fault>,
{
    reveal(instr_eff);
    reveal(instr_fault);
}

/// Unfolds the dispatch for this instruction family.
pub proof fn lemma_clv(s: &NES, op: u8, b1: u8, b2: u8)
    requires
        op == 0xB8,
    ensures
        instr_eff(s, op, b1, b2) == imp_eff(s, op, Cpu { PC: pc_next(s, op), SR: SR { V: false, ..s.cpu.SR }, ..s.cpu }),
        instr_fault(s, op, b1, b2) == None::<Fault>,
{
    reveal(instr_eff);
    reveal(instr_fault);
}

/// Unfolds the dispatch for this instruction family.
pub proof fn lemma_tax(s: &NES, op: u8, b1: u8, b2: u8)
    requires
        op == 0xAA,
    ensures
        instr_eff(s, op, b1, b2) == imp_eff(s, op, Cpu { PC: pc_next(s, op), X: s.cpu.ACC, SR: nz(s.cpu.SR, s.cpu.ACC), ..s.cpu }),
        instr_fault(s, op, b1, b2) == None::<Fault>,
{
    reveal(instr_eff);
    reveal(instr_fault);
}

/// Unfolds the dispatch for this instruction family.
pub proof fn lemma_tay(s: &NES, op: u8, b1: u8, b2: u8)
    requires
        op == 0xA8,
    ensures
        instr_eff(s, op, b1, b2) == imp_eff(s, op, Cpu { PC: pc_next(s, op), Y: s.cpu.ACC, SR: nz(s.cpu.SR, s.cpu.ACC), ..s.cpu }),
        instr_fault(s, op, b1, b2) == None::<Fault>,
{
    reveal(instr_eff);
    reveal(instr_fault);
}

/// Unfolds the dispatch for this instruction family.
pub proof fn lemma_tsx(s: &NES, op: u8, b1: u8, b2: u8)
    requires
        op == 0xBA,
    ensures
        instr_eff(s, op, b1, b2) == imp_eff(s, op, Cpu { PC: pc_next(s, op), X: s.cpu.SP, SR: nz(s.cpu.SR, s.cpu.SP), ..s.cpu }),
        instr_fault(s, op, b1, b2) == None::<Fault>,
{
    reveal(instr_eff);
    reveal(instr_fault);
}

/// Unfolds the dispatch for this instruction family.
pub proof fn lemma_txa(s: &NES, op: u8, b1: u8, b2: u8)
    requires
        op == 0x8A,
    ensures
        instr_eff(s, op, b1, b2) == imp_eff(s, op, Cpu { PC: pc_next(s, op), ACC: s.cpu.X, SR: nz(s.cpu.SR, s.cpu.X), ..s.cpu }),
        instr_fault(s, op, b1, b2) == None::<Fault>,
{
    reveal(instr_eff);
    reveal(instr_fault);
}

/// Unfolds the dispatch for this instruction family.
pub proof fn lemma_tya(s: &NES, op: u8, b1: u8, b2: u8)
    requires
        op == 0x98,
    ensures
        instr_eff(s, op, b1, b2) == imp_eff(s, op, Cpu { PC: pc_next(s, op), ACC: s.cpu.Y, SR: nz(s.cpu.SR, s.cpu.Y), ..s.cpu }),
        instr_fault(s, op, b1, b2) == None::<Fault>,
{
    reveal(instr_eff);
    reveal(instr_fault);
}

/// Unfolds the dispatch for this instruction family.
pub proof fn lemma_txs(s: &NES, op: u8, b1: u8, b2: u8)
    requires
        op == 0x9A,
    ensures
        instr_eff(s, op, b1, b2) == imp_eff(s, op, Cpu { PC: pc_next(s, op), SP: s.cpu.X, ..s.cpu }),
        instr_fault(s, op, b1, b2) == None::<Fault>,
{
    reveal(instr_eff);
    reveal(instr_fault);
}

/// Unfolds the dispatch for this instruction family.
pub proof fn lemma_nop(s: &NES, op: u8, b1: u8, b2: u8)
    requires
        op == 0xEA,
    ensures
        instr_eff(s, op, b1, b2) == imp_eff(s, op, Cpu { PC: pc_next(s, op), ..s.cpu }),
        instr_fault(s, op, b1, b2) == None::<Fault>,
{
    reveal(instr_eff);
    reveal(instr_fault);
}

/// Unfolds the dispatch for this instruction family.
pub proof fn lemma_dex(s: &NES, op: u8, b1: u8, b2: u8)
    requires
        op == 0xCA,
    ensures
        instr_eff(s, op, b1, b2) == imp_eff(s, op, Cpu { PC: pc_next(s, op), X: wrap8(s.cpu.X as int - 1 + 256), SR: nz(s.cpu.SR, wrap8(s.cpu.X as int - 1 + 256)), ..s.cpu }),
        instr_fault(s, op, b1, b2) == None::<Fault>,
{
    reveal(instr_eff);
    reveal(instr_fault);
}

/// Unfolds the dispatch for this instruction family.
pub proof fn lemma_dey(s: &NES, op: u8, b1: u8, b2: u8)
    requires
        op == 0x88,
    ensures
        instr_eff(s, op, b1, b2) == imp_eff(s, op, Cpu { PC: pc_next(s, op), Y: wrap8(s.cpu.Y as int - 1 + 256), SR: nz(s.cpu.SR, wrap8(s.cpu.Y as int - 1 + 256)), ..s.cpu }),
        instr_fault(s, op, b1, b2) == None::<Fault>,
{
    reveal(instr_eff);
    reveal(instr_fault);
}

/// Unfolds the dispatch for this instruction family.
pub proof fn lemma_inx(s: &NES, op: u8, b1: u8, b2: u8)
    requires
        op == 0xE8,
    ensures
        instr_eff(s, op, b1, b2) == imp_eff(s, op, Cpu { PC: pc_next(s, op), X: wrap8(s.cpu.X as int + 1), SR: nz(s.cpu.SR, wrap8(s.cpu.X as int + 1)), ..s.cpu }),
        instr_fault(s, op, b1, b2) == None::<Fault>,
{
    reveal(instr_eff);
    reveal(instr_fault);
}

/// Unfolds the dispatch for this instruction family.
pub proof fn lemma_iny(s: &NES, op: u8, b1: u8, b2: u8)
    requires
        op == 0xC8,
    ensures
        instr_eff(s, op, b1, b2) == imp_eff(s, op, Cpu { PC: pc_next(s, op), Y: wrap8(s.cpu.Y as int + 1), SR: nz(s.cpu.SR, wrap8(s.cpu.Y as int + 1)), ..s.cpu }),
        instr_fault(s, op, b1, b2) == None::<Fault>,
{
    reveal(instr_eff);
    reveal(instr_fault);
}

/// Unfolds the dispatch for the undocumented NOPs.
pub proof fn lemma_inop(s: &NES, op: u8, b1: u8, b2: u8)
    requires
        is_inop(op),
    ensures
        is_implied(op) ==> instr_eff(s, op, b1, b2) == imp_eff(
            s,
            op,
            Cpu { PC: pc_next(s, op), ..s.cpu },
        ) && instr_fault(s, op, b1, b2) is None,
        !is_implied(op) ==> instr_eff(s, op, b1, b2) == reg_eff(
            s,
            op,
            b1,
            b2,
            Cpu { PC: pc_next(s, op), ..s.cpu },
        ) && instr_fault(s, op, b1, b2) == read_fault_of(s, op, b1, b2),
{
    reveal(instr_eff);
    reveal(instr_fault);
}

// ---------------------------------------------------------------------
// One whole step: fetch, decode, execute, trace
// ---------------------------------------------------------------------

/// The opcode byte under the program counter.
pub open spec fn opcode_at(s: &NES) -> u8 {
    mem_byte(s, s.cpu.PC)
}

/// The instruction's bytes as fetched through the bus, opcode first.
pub open spec fn fetched(s: &NES) -> Seq<u8> {
    Seq::new(
        op_len(opcode_at(s)),
        |i: int| mem_byte(s, ((s.cpu.PC as int + i) % 0x10000) as u16),
    )
}

/// The first operand byte of the instruction under the program counter.
pub open spec fn step_b1(s: &NES) -> u8 {
    fetched(s)[1]
}

/// The second operand byte, zero when the instruction has none.
pub open spec fn step_b2(s: &NES) -> u8 {
    crate::nes::b2_of(fetched(s))
}

/// Whether every byte of the instruction can be fetched.
pub open spec fn fetch_ok(s: &NES) -> bool {
    forall|i: int|
        0 <= i < op_len(opcode_at(s)) ==> #[trigger] read_ok(
            ((s.cpu.PC as int + i) % 0x10000) as u16,
        )
}

/// The effect of the instruction under the program counter.
pub open spec fn step_eff(s: &NES) -> Eff {
    instr_eff(s, opcode_at(s), step_b1(s), step_b2(s))
}

/// The fault of the instruction under the program counter.
pub open spec fn step_instr_fault(s: &NES) -> Option<Fault> {
    instr_fault(s, opcode_at(s), step_b1(s), step_b2(s))
}

/// The raw instruction bytes as the trace prints them: two hex digits and
/// a space for each of the first `n` bytes.
pub open spec fn bytes_text(s: &NES, n: int) -> Seq<char>
    decreases n,
{
    if n <= 0 {
        Seq::<char>::empty()
    } else {
        bytes_text(s, n - 1) + hex2(mem_byte(s, ((s.cpu.PC as int + (n - 1)) % 0x10000) as u16))
            + " "@
    }
}

/// The fixed-column head of a trace line: four hex digits of the program
/// counter, the raw bytes, padding out to a fixed column, and the
/// mnemonic. An undocumented opcode's `*`-prefixed mnemonic eats one
/// padding column, matching the reference tool's formatting.
pub open spec fn trace_prefix(s: &NES, op: u8) -> Seq<char> {
    let n = op_len(op) as int;
    hex4(s.cpu.PC) + "  "@ + bytes_text(s, n) + spaces(
        (if is_undocumented(op) {
            9int
        } else {
            10int
        }) - 3 * n,
    ) + crate::instr::op_name(op) + " "@
}

/// The whole trace line one step produces: the prefix, the operand text,
/// padding out to the register column, the register/flag summary of the
/// state after the instruction, and the cycle counter.
pub open spec fn trace_line(s: &NES) -> Seq<char> {
    let op = opcode_at(s);
    let e = step_eff(s);
    let body = trace_prefix(s, op) + e.text;
    body + spaces(
        if body.len() < 48 {
            48 - body.len() as int
        } else {
            0int
        },
    ) + crate::cpu::cpu_log_seq(e.cpu) + " CYC:"@ + crate::text::dec_seq(e.cycles)
}

} // verus!
