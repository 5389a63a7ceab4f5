//! The console: CPU, cartridge (through the picture unit), work RAM,
//! opcode table, the monotonic cycle counter, and the debugger's
//! breakpoint and watchpoint sets.

use vstd::prelude::*;

use crate::cpu::Cpu;
use crate::instr::Instr;
use crate::ppu::Ppu;
use crate::wram::Wram;

verus! {

/// The thirteen operand addressing modes (implied operands need none).
#[allow(clippy::upper_case_acronyms)]
#[derive(Debug, Clone, Copy, PartialEq, Eq, Structural)]
pub enum AddrMode {
    ACC,
    ABS,
    ABSX,
    ABSY,
    IMM,
    IND,
    INDX,
    INDY,
    REL,
    ZPG,
    ZPGX,
    ZPGY,
}

/// A fatal condition: the emulation model cannot proceed correctly past
/// it, so the run aborts.
#[derive(Debug, Clone, Copy, PartialEq, Eq, Structural)]
pub enum Fault {
    /// An opcode with no table entry was fetched: an unemulated
    /// instruction, not a transient condition.
    UnknownOpcode { op: u8, pc: u16 },
    /// A read touched the unimplemented cartridge expansion/SRAM area.
    UnmappedRead { addr: u16 },
    /// A write touched the cartridge expansion/SRAM area or PRG-ROM.
    UnmappedWrite { addr: u16 },
}

/// Why a step halted instead of returning a trace line.
#[derive(Debug, Clone, Copy, PartialEq, Eq, Structural)]
pub enum Halt {
    /// Stepping reached a registered breakpoint; the registration is
    /// consumed and execution can resume.
    Breakpoint { pc: u16 },
    /// A fatal condition; not resumable.
    Fatal { fault: Fault },
}

/// The whole emulated system.
#[allow(clippy::upper_case_acronyms)]
#[derive(Debug, Clone)]
pub struct NES {
    pub cpu: Cpu,
    pub ppu: Ppu,
    pub instr_data: Instr,
    pub wram: Wram,
    /// Cycles since boot; seeded at 7 to match the reset latency.
    pub cycles: u128,
    /// Addresses at which stepping halts before executing; each
    /// registration fires once.
    pub breakpoints: Vec<usize>,
    /// Addresses whose accesses are flagged for debugger attention.
    pub watchpoints: Vec<usize>,
}

impl NES {
    /// Structural soundness of the whole system.
    pub open spec fn wf(&self) -> bool {
        &&& self.wram.wf()
        &&& self.ppu.wf()
        &&& self.instr_data.wf()
    }

    /// Assembles a console around the given parts, with the cycle counter
    /// seeded at 7 (the reset latency) and no breakpoints or watchpoints.
    pub fn new(cpu: Cpu, wram: Wram, ppu: Ppu) -> (r: NES)
        requires
            wram.wf(),
            ppu.wf(),
        ensures
            r.wf(),
            r.cpu == cpu,
            r.wram == wram,
            r.ppu == ppu,
            r.cycles == 7,
            r.breakpoints@ == Seq::<usize>::empty(),
            r.watchpoints@ == Seq::<usize>::empty(),
    {
        NES {
            cpu,
            ppu,
            wram,
            cycles: 7,
            instr_data: Instr::new(),
            breakpoints: Vec::new(),
            watchpoints: Vec::new(),
        }
    }

    /// Registers a watchpoint address.
    pub fn add_watchpoint(&mut self, addr: usize)
        requires
            old(self).wf(),
        ensures
            final(self).wf(),
            final(self).watchpoints@ == old(self).watchpoints@.push(addr),
            final(self).breakpoints@ == old(self).breakpoints@,
            final(self).cpu == old(self).cpu,
            final(self).cycles == old(self).cycles,
            same_ppu(&final(self).ppu, &old(self).ppu),
            final(self).wram.contents@ == old(self).wram.contents@,
    {
        self.watchpoints.push(addr);
    }

    /// Registers a breakpoint address; stepping onto it halts once and
    /// consumes the registration.
    pub fn add_breakpoint(&mut self, addr: usize)
        requires
            old(self).wf(),
        ensures
            final(self).wf(),
            final(self).breakpoints@ == old(self).breakpoints@.push(addr),
            final(self).watchpoints@ == old(self).watchpoints@,
            final(self).cpu == old(self).cpu,
            final(self).cycles == old(self).cycles,
            same_ppu(&final(self).ppu, &old(self).ppu),
            final(self).wram.contents@ == old(self).wram.contents@,
    {
        self.breakpoints.push(addr);
    }
}

/// Everything of the system except the cycle counter is unchanged.
pub open spec fn only_cycles_changed(pre: &NES, post: &NES) -> bool {
    &&& post.cpu == pre.cpu
    &&& post.wram.contents@ == pre.wram.contents@
    &&& same_ppu(&post.ppu, &pre.ppu)
    &&& post.breakpoints@ == pre.breakpoints@
    &&& post.watchpoints@ == pre.watchpoints@
}

/// `post` is `pre` with the effect of one instruction applied.
pub open spec fn eff_applied(pre: &NES, post: &NES, e: crate::sem::Eff) -> bool {
    &&& post.wf()
    &&& post.cpu == e.cpu
    &&& post.wram.contents@ == e.wram
    &&& post.ppu.regs == e.regs
    &&& post.cycles as int == e.cycles
    &&& same_ppu_rest(&post.ppu, &pre.ppu)
    &&& post.breakpoints@ == pre.breakpoints@
    &&& post.watchpoints@ == pre.watchpoints@
}

/// The second operand byte where the instruction has one, zero otherwise.
pub open spec fn b2_of(bytes: Seq<u8>) -> u8 {
    if bytes.len() >= 3 {
        bytes[2]
    } else {
        0
    }
}

/// The predicate kept of the elements that survive a breakpoint removal.
pub open spec fn keep_pred(x: usize) -> spec_fn(usize) -> bool {
    |y: usize| y != x
}

/// Whether a step from this state executes an instruction (as opposed to
/// halting on a breakpoint or a fatal condition).
pub open spec fn can_step(s: &NES) -> bool {
    &&& !s.breakpoints@.contains(s.cpu.PC as usize)
    &&& crate::bus::read_ok(s.cpu.PC)
    &&& crate::instr::op_known(crate::sem::opcode_at(s))
    &&& crate::sem::fetch_ok(s)
    &&& crate::sem::step_instr_fault(s) is None
}

/// One successful step from `a` to `b` producing trace line `line`.
pub open spec fn good_step(a: &NES, b: &NES, line: Seq<char>) -> bool {
    &&& can_step(a)
    &&& line == crate::sem::trace_line(a)
    &&& eff_applied(a, b, crate::sem::step_eff(a))
    &&& b.watchpoints@ == a.watchpoints@
    &&& b.cycles as int <= a.cycles as int + 16
}

/// One halted step from `a` to `b` with reason `halt`: a breakpoint is
/// consumed without executing; a fatal condition reports its fault, with
/// memory and the breakpoint set untouched (and, for faults before
/// execution, the whole state untouched).
pub open spec fn halted_step(a: &NES, b: &NES, halt: Halt) -> bool {
    let pc = a.cpu.PC;
    let op = crate::sem::opcode_at(a);
    &&& b.wf()
    &&& b.watchpoints@ == a.watchpoints@
    &&& if a.breakpoints@.contains(pc as usize) {
        &&& halt == Halt::Breakpoint { pc }
        &&& b.cpu == a.cpu
        &&& b.cycles == a.cycles
        &&& b.wram.contents@ == a.wram.contents@
        &&& same_ppu(&b.ppu, &a.ppu)
        &&& b.breakpoints@ == a.breakpoints@.filter(keep_pred(pc as usize))
        &&& !b.breakpoints@.contains(pc as usize)
        &&& forall|x: usize|
            x != pc as usize ==> (b.breakpoints@.contains(x) <==> a.breakpoints@.contains(x))
    } else if !crate::bus::read_ok(pc) {
        &&& halt == Halt::Fatal { fault: Fault::UnmappedRead { addr: pc } }
        &&& *b == *a
    } else if !crate::instr::op_known(op) {
        &&& halt == Halt::Fatal { fault: Fault::UnknownOpcode { op, pc } }
        &&& *b == *a
    } else if !crate::sem::fetch_ok(a) {
        &&& halt is Fatal
        &&& exists|i: int|
            0 <= i < crate::instr::op_len(op) && halt == Halt::Fatal {
                fault: Fault::UnmappedRead { addr: ((pc as int + i) % 0x10000) as u16 },
            } && !(#[trigger] crate::bus::read_ok(((pc as int + i) % 0x10000) as u16))
        &&& *b == *a
    } else {
        &&& crate::sem::step_instr_fault(a) is Some
        &&& halt == Halt::Fatal { fault: crate::sem::step_instr_fault(a)->Some_0 }
        &&& b.wram.contents@ == a.wram.contents@
        &&& b.ppu.regs == a.ppu.regs
        &&& same_ppu_rest(&b.ppu, &a.ppu)
        &&& b.breakpoints@ == a.breakpoints@
    }
}

/// Why a run returned control to its caller.
#[derive(Debug)]
pub enum RunEvent {
    /// A produced trace line differed from the next reference line; both
    /// are surfaced so the exact register or cycle delta is visible.
    Mismatch { expected: String, actual: String },
    /// A step halted: a breakpoint (resumable) or a fatal condition.
    Halted { halt: Halt },
    /// Every reference line was matched.
    LogExhausted,
}

/// The contract every instruction handler meets: it succeeds exactly when
/// the instruction runs into no fault, and then applies the instruction's
/// specified effect and appends its operand text to the trace line; a
/// fault is reported exactly as specified, with memory and the debugger's
/// sets untouched.
pub open spec fn handler_contract(
    pre: &NES,
    post: &NES,
    text_pre: Seq<char>,
    text_post: Seq<char>,
    op: u8,
    b1: u8,
    b2: u8,
    r: Result<(), Fault>,
) -> bool {
    &&& post.wf()
    &&& (r is Ok <==> crate::sem::instr_fault(pre, op, b1, b2) is None)
    &&& (r is Ok ==> eff_applied(pre, post, crate::sem::instr_eff(pre, op, b1, b2)) && text_post
        == text_pre + crate::sem::instr_eff(pre, op, b1, b2).text && post.cycles as int
        <= pre.cycles as int + 16)
    &&& (r is Err ==> {
        &&& r == Result::<(), Fault>::Err(crate::sem::instr_fault(pre, op, b1, b2)->Some_0)
        &&& post.wram.contents@ == pre.wram.contents@
        &&& post.ppu.regs == pre.ppu.regs
        &&& same_ppu_rest(&post.ppu, &pre.ppu)
        &&& post.breakpoints@ == pre.breakpoints@
        &&& post.watchpoints@ == pre.watchpoints@
    })
}

/// Addition reduced into the 16-bit address space.
pub(crate) fn wadd16(a: u16, b: u16) -> (r: u16)
    ensures
        r == crate::sem::wrap16(a as int + b as int),
{
    (((a as u32) + (b as u32)) % 0x10000) as u16
}

/// Addition reduced into a byte.
pub(crate) fn wadd8(a: u8, b: u8) -> (r: u8)
    ensures
        r == crate::sem::wrap8(a as int + b as int),
{
    ((a as u16 + b as u16) % 256) as u8
}

/// Subtraction reduced into a byte.
pub(crate) fn wsub8(a: u8, b: u8) -> (r: u8)
    ensures
        r == crate::sem::wrap8(a as int - b as int + 256),
{
    ((a as u16 + 256 - b as u16) % 256) as u8
}

impl NES {
    /// Reads one byte from the work-RAM window (zero page and stack live
    /// here, so the indirect-pointer and stack reads can never fault).
    fn read_low(&self, addr: u16) -> (r: u8)
        requires
            self.wf(),
            addr < 0x2000,
        ensures
            r == crate::bus::mem_byte(self, addr),
    {
        self.wram.contents[addr as usize % 2048]
    }

    /// Computes the effective address of an addressing mode from the
    /// operand bytes, adding the one-cycle page-cross penalty when the
    /// caller flags the mode as eligible. Zero-page arithmetic wraps
    /// within 0x00-0xFF; the two indirect modes keep their documented
    /// asymmetry (pre-indexed by X without carry, post-indexed by Y with
    /// full 16-bit carry).
    pub fn calc_addr(&mut self, bytes: &[u8], mode: AddrMode, penalty: bool) -> (r: u16)
        requires
            old(self).wf(),
            !(mode is ACC) && !(mode is IMM) && !(mode is IND),
            bytes@.len() >= crate::instr::mode_len(mode),
            old(self).cycles < u128::MAX,
        ensures
            final(self).wf(),
            r == crate::sem::ea_of(old(self), mode, bytes@[1], b2_of(bytes@)),
            final(self).cycles as int == old(self).cycles as int + (if penalty
                && crate::sem::crossed(old(self), mode, bytes@[1], b2_of(bytes@)) {
                1int
            } else {
                0int
            }),
            only_cycles_changed(old(self), final(self)),
    {
        match mode {
            AddrMode::ABS => {
                let b1 = bytes[1];
                let b2 = bytes[2];
                b2 as u16 * 256 + b1 as u16
            },
            AddrMode::ABSX => {
                let base_addr = bytes[2] as u16 * 256 + bytes[1] as u16;
                let addr = (((base_addr as u32) + (self.cpu.X as u32)) % 0x10000) as u16;
                if base_addr / 256 != addr / 256 && penalty {
                    self.cycles = self.cycles + 1;
                }
                addr
            },
            AddrMode::ABSY => {
                let base_addr = bytes[2] as u16 * 256 + bytes[1] as u16;
                let addr = (((base_addr as u32) + (self.cpu.Y as u32)) % 0x10000) as u16;
                if base_addr / 256 != addr / 256 && penalty {
                    self.cycles = self.cycles + 1;
                }
                addr
            },
            AddrMode::INDX => {
                let zpg_addr = (bytes[1] as u16 + self.cpu.X as u16) % 256;
                let ea_l = self.read_low(zpg_addr);
                let ea_h = self.read_low((zpg_addr + 1) % 256);
                ea_h as u16 * 256 + ea_l as u16
            },
            AddrMode::INDY => {
                let zpg_addr = bytes[1] as u16;
                let ea_l = self.read_low(zpg_addr);
                let ea_h = self.read_low((zpg_addr + 1) % 256);
                let base_addr = ea_h as u16 * 256 + ea_l as u16;
                let addr = (((base_addr as u32) + (self.cpu.Y as u32)) % 0x10000) as u16;
                if base_addr / 256 != addr / 256 && penalty {
                    self.cycles = self.cycles + 1;
                }
                addr
            },
            AddrMode::REL => {
                // The offset is signed; adding 0x10000 (or 0x10000 - 256
                // for a negative offset) keeps the sum non-negative
                // before it is reduced into the address space.
                let off = bytes[1];
                let x: u32 = (self.cpu.PC as u32) + (off as u32) + (if off < 128 {
                    0x10000
                } else {
                    0xFF00
                });
                let target = (x % 0x10000) as u16;
                if self.cpu.PC / 256 != target / 256 && penalty {
                    self.cycles = self.cycles + 1;
                }
                target
            },
            AddrMode::ZPG => bytes[1] as u16,
            AddrMode::ZPGX => {
                let sum = bytes[1] as u16 + self.cpu.X as u16;
                if sum / 256 != 0 && penalty {
                    self.cycles = self.cycles + 1;
                }
                sum % 256
            },
            AddrMode::ZPGY => {
                let sum = bytes[1] as u16 + self.cpu.Y as u16;
                if sum / 256 != 0 && penalty {
                    self.cycles = self.cycles + 1;
                }
                sum % 256
            },
            _ => 0,
        }
    }

    /// Resolves the addressing mode and reads the operand value,
    /// appending the mode's operand text (address, intermediate pointers
    /// and the byte read) to the trace line. Fails exactly when the
    /// effective address falls into the unmapped area; the page-cross
    /// penalty, if the caller flags the mode as eligible, is charged
    /// either way.
    #[verifier::rlimit(100)]
    #[verifier::spinoff_prover]
    pub fn get_val(
        &mut self,
        bytes: &[u8],
        mode: AddrMode,
        stepstring: &mut String,
        penalty: bool,
    ) -> (r: Result<u8, Fault>)
        requires
            old(self).wf(),
            !(mode is IND),
            bytes@.len() >= crate::instr::mode_len(mode),
            old(self).cycles < u128::MAX,
        ensures
            final(self).wf(),
            only_cycles_changed(old(self), final(self)),
            final(self).cycles as int == old(self).cycles as int + (if penalty
                && crate::sem::crossed(old(self), mode, bytes@[1], b2_of(bytes@)) {
                1int
            } else {
                0int
            }),
            r is Ok <==> !crate::sem::rfault(old(self), mode, bytes@[1], b2_of(bytes@)),
            r is Ok ==> r->Ok_0 == crate::sem::rval(old(self), mode, bytes@[1], b2_of(bytes@))
                && final(stepstring)@ == old(stepstring)@ + crate::sem::operand_text(
                old(self),
                mode,
                bytes@[1],
                b2_of(bytes@),
            ),
            r is Err ==> r == Result::<u8, Fault>::Err(
                Fault::UnmappedRead {
                    addr: crate::sem::ea_of(old(self), mode, bytes@[1], b2_of(bytes@)),
                },
            ) && final(stepstring)@ == old(stepstring)@,
    {
        let ghost pre = *self;
        match mode {
            AddrMode::ACC => {
                stepstring.append("A");
                assert(final(stepstring)@ =~= old(stepstring)@ + crate::sem::operand_text(
                    old(self),
                    mode,
                    bytes@[1],
                    b2_of(bytes@),
                ));
                Ok(self.cpu.ACC)
            },
            AddrMode::IMM => {
                stepstring.append("#$");
                crate::text::push_hex2(stepstring, bytes[1]);
                assert(stepstring@ =~= old(stepstring)@ + crate::sem::operand_text(
                    old(self),
                    mode,
                    bytes@[1],
                    b2_of(bytes@),
                ));
                Ok(bytes[1])
            },
            AddrMode::ABS => {
                let addr = self.calc_addr(bytes, AddrMode::ABS, penalty);
                let val = match self.read1(addr) {
                    Ok(v) => v,
                    Err(f) => {
                        return Err(f);
                    },
                };
                stepstring.append("$");
                crate::text::push_hex4(stepstring, addr);
                stepstring.append(" = ");
                crate::text::push_hex2(stepstring, val);
                assert(stepstring@ =~= old(stepstring)@ + crate::sem::operand_text(
                    &pre,
                    mode,
                    bytes@[1],
                    b2_of(bytes@),
                ));
                Ok(val)
            },
            AddrMode::ABSX => {
                let addr = self.calc_addr(bytes, AddrMode::ABSX, penalty);
                let val = match self.read1(addr) {
                    Ok(v) => v,
                    Err(f) => {
                        return Err(f);
                    },
                };
                stepstring.append("$");
                crate::text::push_hex4(stepstring, bytes[2] as u16 * 256 + bytes[1] as u16);
                stepstring.append(",X @ ");
                crate::text::push_hex4(stepstring, addr);
                stepstring.append(" = ");
                crate::text::push_hex2(stepstring, val);
                assert(stepstring@ =~= old(stepstring)@ + crate::sem::operand_text(
                    &pre,
                    mode,
                    bytes@[1],
                    b2_of(bytes@),
                ));
                Ok(val)
            },
            AddrMode::ABSY => {
                let addr = self.calc_addr(bytes, AddrMode::ABSY, penalty);
                let val = match self.read1(addr) {
                    Ok(v) => v,
                    Err(f) => {
                        return Err(f);
                    },
                };
                stepstring.append("$");
                crate::text::push_hex4(stepstring, bytes[2] as u16 * 256 + bytes[1] as u16);
                stepstring.append(",Y @ ");
                crate::text::push_hex4(stepstring, addr);
                stepstring.append(" = ");
                crate::text::push_hex2(stepstring, val);
                assert(stepstring@ =~= old(stepstring)@ + crate::sem::operand_text(
                    &pre,
                    mode,
                    bytes@[1],
                    b2_of(bytes@),
                ));
                Ok(val)
            },
            AddrMode::INDX => {
                let addr = self.calc_addr(bytes, AddrMode::INDX, penalty);
                let val = match self.read1(addr) {
                    Ok(v) => v,
                    Err(f) => {
                        return Err(f);
                    },
                };
                stepstring.append("($");
                crate::text::push_hex2(stepstring, bytes[1]);
                stepstring.append(",X) @ ");
                crate::text::push_hex2(
                    stepstring,
                    ((bytes[1] as u16 + self.cpu.X as u16) % 256) as u8,
                );
                stepstring.append(" = ");
                crate::text::push_hex4(stepstring, addr);
                stepstring.append(" = ");
                crate::text::push_hex2(stepstring, val);
                assert(stepstring@ =~= old(stepstring)@ + crate::sem::operand_text(
                    &pre,
                    mode,
                    bytes@[1],
                    b2_of(bytes@),
                ));
                Ok(val)
            },
            AddrMode::INDY => {
                let addr = self.calc_addr(bytes, AddrMode::INDY, penalty);
                let val = match self.read1(addr) {
                    Ok(v) => v,
                    Err(f) => {
                        return Err(f);
                    },
                };
                let ptr_lo = self.read_low(bytes[1] as u16);
                let ptr_hi = self.read_low((bytes[1] as u16 + 1) % 256);
                stepstring.append("($");
                crate::text::push_hex2(stepstring, bytes[1]);
                stepstring.append("),Y = ");
                crate::text::push_hex4(stepstring, ptr_hi as u16 * 256 + ptr_lo as u16);
                stepstring.append(" @ ");
                crate::text::push_hex4(stepstring, addr);
                stepstring.append(" = ");
                crate::text::push_hex2(stepstring, val);
                assert(stepstring@ =~= old(stepstring)@ + crate::sem::operand_text(
                    &pre,
                    mode,
                    bytes@[1],
                    b2_of(bytes@),
                ));
                Ok(val)
            },
            AddrMode::REL => {
                let addr = self.calc_addr(bytes, AddrMode::REL, penalty);
                match self.read1(addr) {
                    Ok(v) => Ok(v),
                    Err(f) => Err(f),
                }
            },
            AddrMode::ZPG => {
                let addr = self.calc_addr(bytes, AddrMode::ZPG, penalty);
                let val = match self.read1(addr) {
                    Ok(v) => v,
                    Err(f) => {
                        return Err(f);
                    },
                };
                stepstring.append("$");
                crate::text::push_hex2(stepstring, bytes[1]);
                stepstring.append(" = ");
                crate::text::push_hex2(stepstring, val);
                assert(stepstring@ =~= old(stepstring)@ + crate::sem::operand_text(
                    &pre,
                    mode,
                    bytes@[1],
                    b2_of(bytes@),
                ));
                Ok(val)
            },
            AddrMode::ZPGX => {
                let addr = self.calc_addr(bytes, AddrMode::ZPGX, penalty);
                let val = match self.read1(addr) {
                    Ok(v) => v,
                    Err(f) => {
                        return Err(f);
                    },
                };
                stepstring.append("$");
                crate::text::push_hex2(stepstring, bytes[1]);
                stepstring.append(",X @ ");
                crate::text::push_hex2(stepstring, addr as u8);
                stepstring.append(" = ");
                crate::text::push_hex2(stepstring, val);
                assert(stepstring@ =~= old(stepstring)@ + crate::sem::operand_text(
                    &pre,
                    mode,
                    bytes@[1],
                    b2_of(bytes@),
                ));
                Ok(val)
            },
            AddrMode::ZPGY => {
                let addr = self.calc_addr(bytes, AddrMode::ZPGY, penalty);
                let val = match self.read1(addr) {
                    Ok(v) => v,
                    Err(f) => {
                        return Err(f);
                    },
                };
                stepstring.append("$");
                crate::text::push_hex2(stepstring, bytes[1]);
                stepstring.append(",Y @ ");
                crate::text::push_hex2(stepstring, addr as u8);
                stepstring.append(" = ");
                crate::text::push_hex2(stepstring, val);
                assert(stepstring@ =~= old(stepstring)@ + crate::sem::operand_text(
                    &pre,
                    mode,
                    bytes@[1],
                    b2_of(bytes@),
                ));
                Ok(val)
            },
            _ => Ok(0),
        }
    }

    /// Advances the program counter over the instruction (wrapping in
    /// the address space) and charges its base cycle cost.
    pub(crate) fn advance(&mut self, instr: u8)
        requires
            old(self).wf(),
            crate::instr::op_known(instr),
            old(self).cycles < u128::MAX - 8,
        ensures
            final(self).wf(),
            final(self).cpu == (Cpu {
                PC: crate::sem::pc_next(old(self), instr),
                ..old(self).cpu
            }),
            final(self).cycles as int == old(self).cycles as int + crate::instr::op_cycles(
                instr,
            ) as int,
            final(self).wram.contents@ == old(self).wram.contents@,
            same_ppu(&final(self).ppu, &old(self).ppu),
            final(self).breakpoints@ == old(self).breakpoints@,
            final(self).watchpoints@ == old(self).watchpoints@,
    {
        proof {
            crate::instr::lemma_op_bounds(instr);
        }
        let (ilen, icyc) = match self.instr_data.get(instr) {
            Some(d) => (d.len, d.cycles),
            None => vstd::pervasive::unreached(),
        };
        self.cpu.PC = wadd16(self.cpu.PC, ilen as u16);
        self.cycles = self.cycles + icyc as u128;
    }

    /// Charges the instruction's base cycle cost without moving the
    /// program counter (for jumps, which set it themselves).
    pub(crate) fn add_base_cycles(&mut self, instr: u8)
        requires
            old(self).wf(),
            crate::instr::op_known(instr),
            old(self).cycles < u128::MAX - 8,
        ensures
            final(self).wf(),
            final(self).cpu == old(self).cpu,
            final(self).cycles as int == old(self).cycles as int + crate::instr::op_cycles(
                instr,
            ) as int,
            final(self).wram.contents@ == old(self).wram.contents@,
            same_ppu(&final(self).ppu, &old(self).ppu),
            final(self).breakpoints@ == old(self).breakpoints@,
            final(self).watchpoints@ == old(self).watchpoints@,
    {
        proof {
            crate::instr::lemma_op_bounds(instr);
        }
        let icyc = match self.instr_data.get(instr) {
            Some(d) => d.cycles,
            None => vstd::pervasive::unreached(),
        };
        self.cycles = self.cycles + icyc as u128;
    }

    /// `get_val` without the trace text: resolves the mode and reads the
    /// operand value, charging the penalty the same way.
    pub fn get_val_silent(&mut self, bytes: &[u8], mode: AddrMode, penalty: bool) -> (r: Result<
        u8,
        Fault,
    >)
        requires
            old(self).wf(),
            !(mode is IND),
            bytes@.len() >= crate::instr::mode_len(mode),
            old(self).cycles < u128::MAX,
        ensures
            final(self).wf(),
            only_cycles_changed(old(self), final(self)),
            final(self).cycles as int == old(self).cycles as int + (if penalty
                && crate::sem::crossed(old(self), mode, bytes@[1], b2_of(bytes@)) {
                1int
            } else {
                0int
            }),
            r is Ok <==> !crate::sem::rfault(old(self), mode, bytes@[1], b2_of(bytes@)),
            r is Ok ==> r->Ok_0 == crate::sem::rval(old(self), mode, bytes@[1], b2_of(bytes@)),
            r is Err ==> r == Result::<u8, Fault>::Err(
                Fault::UnmappedRead {
                    addr: crate::sem::ea_of(old(self), mode, bytes@[1], b2_of(bytes@)),
                },
            ),
    {
        match mode {
            AddrMode::ACC => Ok(self.cpu.ACC),
            AddrMode::IMM => Ok(bytes[1]),
            _ => {
                let addr = self.calc_addr(bytes, mode, penalty);
                self.read1(addr)
            },
        }
    }
}

/// Two cartridges hold the same bytes.
pub open spec fn same_cart(a: &crate::cart::Cart, b: &crate::cart::Cart) -> bool {
    &&& a.prg_rom@ == b.prg_rom@
    &&& a.prg_ram@ == b.prg_ram@
    &&& a.chr_rom@ == b.chr_rom@
}

/// Two picture units are in the same abstract state apart from their
/// memory-mapped registers.
pub open spec fn same_ppu_rest(a: &Ppu, b: &Ppu) -> bool {
    &&& a.OAM@ == b.OAM@
    &&& a.vram.contents@ == b.vram.contents@
    &&& same_cart(&a.cart, &b.cart)
    &&& a.cur_dot == b.cur_dot
    &&& a.cur_line == b.cur_line
    &&& a.cycles == b.cycles
    &&& a.frames == b.frames
    &&& a.frame@ == b.frame@
}

/// Two picture units are in the same abstract state.
pub open spec fn same_ppu(a: &Ppu, b: &Ppu) -> bool {
    &&& a.regs == b.regs
    &&& same_ppu_rest(a, b)
}


/// Whether a sequence with `y` appended contains `a`.
proof fn lemma_push_contains<A>(s: Seq<A>, y: A, a: A)
    ensures
        s.push(y).contains(a) <==> (s.contains(a) || a == y),
{
    if s.push(y).contains(a) {
        let i = choose|i: int| 0 <= i < s.push(y).len() && s.push(y)[i] == a;
        if i < s.len() {
            assert(s[i] == a);
        }
    }
    if s.contains(a) {
        let i = choose|i: int| 0 <= i < s.len() && s[i] == a;
        assert(s.push(y)[i] == a);
    }
    if a == y {
        assert(s.push(y)[s.len() as int] == a);
    }
}

/// Removes every occurrence of `x` from the vector.
fn remove_all(v: &mut Vec<usize>, x: usize)
    ensures
        final(v)@ == old(v)@.filter(keep_pred(x)),
        !final(v)@.contains(x),
        forall|a: usize| a != x ==> (final(v)@.contains(a) <==> old(v)@.contains(a)),
{
    proof {
        reveal(Seq::filter);
        assert(old(v)@.subrange(0, 0).filter(keep_pred(x)) =~= Seq::<usize>::empty());
    }
    let mut kept: Vec<usize> = Vec::new();
    let mut i: usize = 0;
    let n = v.len();
    while i < n
        invariant
            n == v@.len(),
            i <= n,
            *v == *old(v),
            kept@ == old(v)@.subrange(0, i as int).filter(keep_pred(x)),
            !kept@.contains(x),
            forall|a: usize| a != x ==> (kept@.contains(a) <==> old(v)@.subrange(0, i as int).contains(a)),
        decreases n - i,
    {
        let e = v[i];
        let ghost kept0 = kept@;
        if e != x {
            kept.push(e);
        }
        proof {
            reveal(Seq::filter);
            assert(old(v)@.subrange(0, i + 1).drop_last() =~= old(v)@.subrange(0, i as int));
            assert(old(v)@.subrange(0, i + 1).last() == old(v)@[i as int]);
            assert(old(v)@.subrange(0, i + 1).filter(keep_pred(x)) == (if keep_pred(x)(
                old(v)@[i as int],
            ) {
                old(v)@.subrange(0, i as int).filter(keep_pred(x)).push(old(v)@[i as int])
            } else {
                old(v)@.subrange(0, i as int).filter(keep_pred(x))
            }));
            assert forall|a: usize| a != x implies (kept@.contains(a)
                <==> old(v)@.subrange(0, i + 1).contains(a)) by {
                lemma_push_contains(kept0, e, a);
                lemma_push_contains(old(v)@.subrange(0, i as int), old(v)@[i as int], a);
                assert(old(v)@.subrange(0, i as int).push(old(v)@[i as int]) =~= old(
                    v,
                )@.subrange(0, i + 1));
            }
            if e == x {
                assert(old(v)@.subrange(0, i as int).push(old(v)@[i as int]) =~= old(
                    v,
                )@.subrange(0, i + 1));
                assert forall|a: usize| a != x implies (old(v)@.subrange(0, i + 1).contains(a)
                    <==> old(v)@.subrange(0, i as int).contains(a)) by {
                    lemma_push_contains(old(v)@.subrange(0, i as int), old(v)@[i as int], a);
                }
            }
        }
        i = i + 1;
    }
    proof {
        assert(old(v)@.subrange(0, n as int) =~= old(v)@);
    }
    *v = kept;
}

impl NES {
    /// Whether an address is a registered breakpoint.
    fn at_breakpoint(&self, addr: usize) -> (r: bool)
        ensures
            r == self.breakpoints@.contains(addr),
    {
        let mut i: usize = 0;
        let n = self.breakpoints.len();
        while i < n
            invariant
                n == self.breakpoints@.len(),
                i <= n,
                forall|j: int| 0 <= j < i ==> self.breakpoints@[j] != addr,
            decreases n - i,
        {
            if self.breakpoints[i] == addr {
                return true;
            }
            i = i + 1;
        }
        false
    }

    /// One fetch-decode-execute step. Stepping onto a registered
    /// breakpoint consumes it and halts without executing. Otherwise the
    /// opcode is fetched and looked up (a missing table entry is fatal),
    /// the instruction bytes are read, the matching handler runs, and the
    /// fixed-column trace line is returned: program counter, raw bytes,
    /// mnemonic and operand text, then the register/flag summary and
    /// cycle counter of the state after the instruction.
    #[verifier::rlimit(100)]
    #[verifier::spinoff_prover]
    pub fn step(&mut self) -> (r: Result<String, Halt>)
        requires
            old(self).wf(),
            old(self).cycles < u128::MAX - 16,
        ensures
            final(self).wf(),
            final(self).watchpoints@ == old(self).watchpoints@,
            r is Ok <==> can_step(old(self)),
            r is Ok ==> r->Ok_0@ == crate::sem::trace_line(old(self)) && good_step(
                old(self),
                final(self),
                r->Ok_0@,
            ),
            r is Err ==> halted_step(old(self), final(self), r->Err_0),
    {
        let pc = self.cpu.PC;
        if self.at_breakpoint(pc as usize) {
            remove_all(&mut self.breakpoints, pc as usize);
            return Err(Halt::Breakpoint { pc });
        }
        let op = match self.read1(pc) {
            Ok(v) => v,
            Err(f) => {
                return Err(Halt::Fatal { fault: f });
            },
        };
        proof {
            vstd::arithmetic::div_mod::lemma_small_mod(pc as nat, 0x10000);
        }
        let (ilen, iname) = match self.instr_data.get(op) {
            Some(d) => (d.len, d.name.clone()),
            None => {
                return Err(Halt::Fatal { fault: Fault::UnknownOpcode { op, pc } });
            },
        };
        let bytes = match self.read(pc, ilen) {
            Ok(b) => b,
            Err(f) => {
                return Err(Halt::Fatal { fault: f });
            },
        };
        proof {
            assert(bytes@ =~= crate::sem::fetched(old(self)));
        }
        let mut stepstring = String::new();
        crate::text::push_hex4(&mut stepstring, pc);
        stepstring.append("  ");
        let ghost head0 = stepstring@;
        proof {
            assert(head0 =~= crate::text::hex4(pc) + "  "@);
            assert(stepstring@ =~= head0 + crate::sem::bytes_text(old(self), 0));
        }
        let mut i: usize = 0;
        while i < ilen
            invariant
                old(self).wf(),
                *self == *old(self),
                ilen == crate::instr::op_len(op),
                op == crate::sem::opcode_at(old(self)),
                pc == old(self).cpu.PC,
                bytes@ == crate::sem::fetched(old(self)),
                bytes@.len() == ilen,
                i <= ilen,
                stepstring@ == head0 + crate::sem::bytes_text(old(self), i as int),
            decreases ilen - i,
        {
            crate::text::push_hex2(&mut stepstring, bytes[i]);
            stepstring.append(" ");
            i = i + 1;
            proof {
                assert(stepstring@ =~= head0 + crate::sem::bytes_text(old(self), i as int));
            }
        }
        proof {
            crate::instr::lemma_op_bounds(op);
        }
        let pad: usize = if crate::instr::undocumented(op) {
            9 - 3 * ilen
        } else {
            10 - 3 * ilen
        };
        crate::text::push_spaces(&mut stepstring, pad);
        stepstring.append(iname.as_str());
        stepstring.append(" ");
        proof {
            assert(stepstring@ =~= crate::sem::trace_prefix(old(self), op));
        }
        let ghost prefix = stepstring@;
        let res: Result<(), Fault> = match op {
            0x61 | 0x65 | 0x69 | 0x6D | 0x71 | 0x75 | 0x79 | 0x7D => self.ADC(op, bytes, &mut stepstring),
            0x21 | 0x25 | 0x29 | 0x2D | 0x31 | 0x35 | 0x39 | 0x3D => self.AND(op, bytes, &mut stepstring),
            0x06 | 0x0A | 0x0E | 0x16 | 0x1E => self.ASL(op, bytes, &mut stepstring),
            0x90 => self.BCC(op, bytes, &mut stepstring),
            0xB0 => self.BCS(op, bytes, &mut stepstring),
            0xF0 => self.BEQ(op, bytes, &mut stepstring),
            0x24 | 0x2C => self.BIT(op, bytes, &mut stepstring),
            0x30 => self.BMI(op, bytes, &mut stepstring),
            0xD0 => self.BNE(op, bytes, &mut stepstring),
            0x10 => self.BPL(op, bytes, &mut stepstring),
            0x00 => self.BRK(op, bytes, &mut stepstring),
            0x50 => self.BVC(op, bytes, &mut stepstring),
            0x70 => self.BVS(op, bytes, &mut stepstring),
            0x18 => self.CLC(op, bytes, &mut stepstring),
            0xD8 => self.CLD(op, bytes, &mut stepstring),
            0x58 => self.CLI(op, bytes, &mut stepstring),
            0xB8 => self.CLV(op, bytes, &mut stepstring),
            0xC1 | 0xC5 | 0xC9 | 0xCD | 0xD1 | 0xD5 | 0xD9 | 0xDD => self.CMP(op, bytes, &mut stepstring),
            0xE0 | 0xE4 | 0xEC => self.CPX(op, bytes, &mut stepstring),
            0xC0 | 0xC4 | 0xCC => self.CPY(op, bytes, &mut stepstring),
            0xC6 | 0xCE | 0xD6 | 0xDE => self.DEC(op, bytes, &mut stepstring),
            0xCA => self.DEX(op, bytes, &mut stepstring),
            0x88 => self.DEY(op, bytes, &mut stepstring),
            0x41 | 0x45 | 0x49 | 0x4D | 0x51 | 0x55 | 0x59 | 0x5D => self.EOR(op, bytes, &mut stepstring),
            0xC3 | 0xC7 | 0xCF | 0xD3 | 0xD7 | 0xDB | 0xDF => self.IDCP(op, bytes, &mut stepstring),
            0xE3 | 0xE7 | 0xEF | 0xF3 | 0xF7 | 0xFB | 0xFF => self.IISB(op, bytes, &mut stepstring),
            0xA3 | 0xA7 | 0xAF | 0xB3 | 0xB7 | 0xBF => self.ILAX(op, bytes, &mut stepstring),
            0xE6 | 0xEE | 0xF6 | 0xFE => self.INC(op, bytes, &mut stepstring),
            0x04 | 0x0C | 0x14 | 0x1A | 0x1C | 0x34 | 0x3A | 0x3C | 0x44 | 0x54 | 0x5A | 0x5C | 0x64 | 0x74 | 0x7A | 0x7C | 0x80 | 0x82 | 0x89 | 0xC2 | 0xD4 | 0xDA | 0xDC | 0xE2 | 0xF4 | 0xFA | 0xFC => self.INOP(op, bytes, &mut stepstring),
            0xE8 => self.INX(op, bytes, &mut stepstring),
            0xC8 => self.INY(op, bytes, &mut stepstring),
            0x23 | 0x27 | 0x2F | 0x33 | 0x37 | 0x3B | 0x3F => self.IRLA(op, bytes, &mut stepstring),
            0x63 | 0x67 | 0x6F | 0x73 | 0x77 | 0x7B | 0x7F => self.IRRA(op, bytes, &mut stepstring),
            0x83 | 0x87 | 0x8F | 0x97 => self.ISAX(op, bytes, &mut stepstring),
            0x03 | 0x07 | 0x0F | 0x13 | 0x17 | 0x1B | 0x1F => self.ISLO(op, bytes, &mut stepstring),
            0x43 | 0x47 | 0x4F | 0x53 | 0x57 | 0x5B | 0x5F => self.ISRE(op, bytes, &mut stepstring),
            0xEB => self.IUSBC(op, bytes, &mut stepstring),
            0x4C | 0x6C => self.JMP(op, bytes, &mut stepstring),
            0x20 => self.JSR(op, bytes, &mut stepstring),
            0xA1 | 0xA5 | 0xA9 | 0xAD | 0xB1 | 0xB5 | 0xB9 | 0xBD => self.LDA(op, bytes, &mut stepstring),
            0xA2 | 0xA6 | 0xAE | 0xB6 | 0xBE => self.LDX(op, bytes, &mut stepstring),
            0xA0 | 0xA4 | 0xAC | 0xB4 | 0xBC => self.LDY(op, bytes, &mut stepstring),
            0x46 | 0x4A | 0x4E | 0x56 | 0x5E => self.LSR(op, bytes, &mut stepstring),
            0xEA => self.NOP(op, bytes, &mut stepstring),
            0x01 | 0x05 | 0x09 | 0x0D | 0x11 | 0x15 | 0x19 | 0x1D => self.ORA(op, bytes, &mut stepstring),
            0x48 => self.PHA(op, bytes, &mut stepstring),
            0x08 => self.PHP(op, bytes, &mut stepstring),
            0x68 => self.PLA(op, bytes, &mut stepstring),
            0x28 => self.PLP(op, bytes, &mut stepstring),
            0x26 | 0x2A | 0x2E | 0x36 | 0x3E => self.ROL(op, bytes, &mut stepstring),
            0x66 | 0x6A | 0x6E | 0x76 | 0x7E => self.ROR(op, bytes, &mut stepstring),
            0x40 => self.RTI(op, bytes, &mut stepstring),
            0x60 => self.RTS(op, bytes, &mut stepstring),
            0xE1 | 0xE5 | 0xE9 | 0xED | 0xF1 | 0xF5 | 0xF9 | 0xFD => self.SBC(op, bytes, &mut stepstring),
            0x38 => self.SEC(op, bytes, &mut stepstring),
            0xF8 => self.SED(op, bytes, &mut stepstring),
            0x78 => self.SEI(op, bytes, &mut stepstring),
            0x81 | 0x85 | 0x8D | 0x91 | 0x95 | 0x99 | 0x9D => self.STA(op, bytes, &mut stepstring),
            0x86 | 0x8E | 0x96 => self.STX(op, bytes, &mut stepstring),
            0x84 | 0x8C | 0x94 => self.STY(op, bytes, &mut stepstring),
            0xAA => self.TAX(op, bytes, &mut stepstring),
            0xA8 => self.TAY(op, bytes, &mut stepstring),
            0xBA => self.TSX(op, bytes, &mut stepstring),
            0x8A => self.TXA(op, bytes, &mut stepstring),
            0x9A => self.TXS(op, bytes, &mut stepstring),
            0x98 => self.TYA(op, bytes, &mut stepstring),
            _ => vstd::pervasive::unreached(),
        };
        match res {
            Ok(_) => {},
            Err(f) => {
                return Err(Halt::Fatal { fault: f });
            },
        }
        let ghost body = stepstring@;
        let body_len = stepstring.as_str().unicode_len();
        let pad2: usize = if body_len < 48 {
            48 - body_len
        } else {
            0
        };
        crate::text::push_spaces(&mut stepstring, pad2);
        let cpu_part = self.cpu.fmt_log();
        stepstring.append(cpu_part.as_str());
        stepstring.append(" CYC:");
        crate::text::push_dec(&mut stepstring, self.cycles);
        proof {
            assert(stepstring@ =~= crate::sem::trace_line(old(self)));
        }
        Ok(stepstring)
    }
}


/// The relation a finished run leaves behind: a chain of intermediate
/// states `sts` (starting at the initial state), one matched reference
/// line per successful step, and the event that ended the run, with the
/// reference log consumed from the back, one entry per step attempted.
pub open spec fn run_chain(
    s0: &NES,
    s_end: &NES,
    log0: Seq<String>,
    log_end: Seq<String>,
    lines: Seq<String>,
    ev: RunEvent,
    sts: Seq<NES>,
) -> bool {
    let k = lines.len() as int;
    &&& sts.len() == k + 1
    &&& sts[0] == *s0
    &&& k <= log0.len()
    &&& forall|i: int| 0 <= i < k ==> good_step(&sts[i], &sts[i + 1], (#[trigger] lines[i])@)
    &&& forall|i: int| 0 <= i < k ==> (#[trigger] lines[i])@ == log0[log0.len() - 1 - i]@
    &&& match ev {
        RunEvent::LogExhausted => {
            &&& log_end.len() == 0
            &&& k == log0.len()
            &&& *s_end == sts[k]
        },
        RunEvent::Mismatch { expected, actual } => {
            &&& k < log0.len()
            &&& log_end == log0.take(log0.len() - k - 1)
            &&& expected@ == log0[log0.len() - 1 - k]@
            &&& good_step(&sts[k], s_end, actual@)
            &&& expected@ != actual@
        },
        RunEvent::Halted { halt } => {
            &&& k < log0.len()
            &&& log_end == log0.take(log0.len() - k - 1)
            &&& halted_step(&sts[k], s_end, halt)
        },
    }
}

/// There is a chain of intermediate states tying the initial and final
/// states, the consumed reference log, the matched lines and the ending
/// event together.
pub open spec fn run_ok(
    s0: &NES,
    s_end: &NES,
    log0: Seq<String>,
    log_end: Seq<String>,
    lines: Seq<String>,
    ev: RunEvent,
) -> bool {
    exists|sts: Seq<NES>| #[trigger] run_chain(s0, s_end, log0, log_end, lines, ev, sts)
}

impl NES {
    /// Steps the system against a reference log (stored last-line-first,
    /// so entries pop off the back), comparing each produced trace line
    /// with the next expected one. Returns the matched lines together
    /// with the event that stopped the run: a line mismatch (with both
    /// lines surfaced), a halt (breakpoint or fatal condition), or the
    /// log running out. This loop is the system's primary correctness
    /// oracle; the caller hands control to a debugger on mismatch or
    /// halt and may resume.
    pub fn run(&mut self, good_log: &mut Vec<String>) -> (r: (Vec<String>, RunEvent))
        requires
            old(self).wf(),
            old(self).cycles as int + 16 * (old(good_log)@.len() + 1) <= u128::MAX as int,
        ensures
            final(self).wf(),
            run_ok(old(self), final(self), old(good_log)@, final(good_log)@, r.0@, r.1),
    {
        let mut pending_logs: Vec<String> = Vec::new();
        let ghost mut sts: Seq<NES> = seq![*old(self)];
        loop
            invariant
                self.wf(),
                sts.len() == pending_logs@.len() + 1,
                sts[0] == *old(self),
                sts.last() == *self,
                pending_logs@.len() <= old(good_log)@.len(),
                good_log@ == old(good_log)@.take(
                    old(good_log)@.len() - pending_logs@.len(),
                ),
                self.cycles as int + 16 * (good_log@.len() + 1) <= u128::MAX as int,
                forall|i: int|
                    0 <= i < pending_logs@.len() ==> good_step(
                        &sts[i],
                        &sts[i + 1],
                        (#[trigger] pending_logs@[i])@,
                    ),
                forall|i: int|
                    0 <= i < pending_logs@.len() ==> (#[trigger] pending_logs@[i])@ == old(
                        good_log,
                    )@[old(good_log)@.len() - 1 - i]@,
            decreases good_log@.len(),
        {
            let ghost k = pending_logs@.len() as int;
            let good_line = match good_log.pop() {
                Some(v) => v,
                None => {
                    proof {
                        assert(good_log@ =~= old(good_log)@.take(0));
                        assert(run_chain(
                            old(self),
                            self,
                            old(good_log)@,
                            good_log@,
                            pending_logs@,
                            RunEvent::LogExhausted,
                            sts,
                        ));
                        assert(run_ok(
                            old(self),
                            self,
                            old(good_log)@,
                            good_log@,
                            pending_logs@,
                            RunEvent::LogExhausted
                        ));
                    }
                    return (pending_logs, RunEvent::LogExhausted);
                },
            };
            proof {
                assert(good_log@ =~= old(good_log)@.take(old(good_log)@.len() - k - 1));
                assert(good_line == old(good_log)@[old(good_log)@.len() - 1 - k]);
            }
            let ghost pre = *self;
            match self.step() {
                Ok(our_line) => {
                    if good_line == our_line {
                        pending_logs.push(our_line);
                        proof {
                            sts = sts.push(*self);
                        }
                    } else {
                        proof {
                            assert(run_chain(
                                old(self),
                                self,
                                old(good_log)@,
                                good_log@,
                                pending_logs@,
                                RunEvent::Mismatch { expected: good_line, actual: our_line },
                                sts,
                            ));
                        }
                        return (
                            pending_logs,
                            RunEvent::Mismatch { expected: good_line, actual: our_line },
                        );
                    }
                },
                Err(halt) => {
                    proof {
                        assert(run_chain(
                            old(self),
                            self,
                            old(good_log)@,
                            good_log@,
                            pending_logs@,
                            RunEvent::Halted { halt },
                            sts,
                        ));
                        assert(run_ok(
                            old(self),
                            self,
                            old(good_log)@,
                            good_log@,
                            pending_logs@,
                            RunEvent::Halted { halt }
                        ));
                    }
                    return (pending_logs, RunEvent::Halted { halt });
                },
            }
        }
    }
}


/// The raw-byte text of a fetched instruction: two upper-case hex digits
/// and a space per byte.
pub open spec fn hex_bytes(b: Seq<u8>) -> Seq<char>
    decreases b.len(),
{
    if b.len() == 0 {
        Seq::<char>::empty()
    } else {
        hex_bytes(b.drop_last()) + crate::text::hex2(b.last()) + " "@
    }
}

/// Renders a run of bytes as hex pairs separated by spaces.
pub fn print_bytes(bytes: &Vec<u8>) -> (r: String)
    ensures
        r@ == hex_bytes(bytes@),
{
    let mut ret_str = String::new();
    let mut i: usize = 0;
    let n = bytes.len();
    proof {
        assert(bytes@.take(0) =~= Seq::<u8>::empty());
    }
    while i < n
        invariant
            n == bytes@.len(),
            i <= n,
            ret_str@ == hex_bytes(bytes@.take(i as int)),
        decreases n - i,
    {
        crate::text::push_hex2(&mut ret_str, bytes[i]);
        ret_str.append(" ");
        i = i + 1;
        proof {
            assert(bytes@.take(i as int).drop_last() =~= bytes@.take(i - 1));
            assert(ret_str@ =~= hex_bytes(bytes@.take(i as int)));
        }
    }
    proof {
        assert(bytes@.take(n as int) =~= bytes@);
    }
    ret_str
}

impl NES {
    /// The debugger's view of the register file while the system is
    /// quiescent.
    pub fn register_snapshot(&self) -> (r: Cpu)
        ensures
            r == self.cpu,
    {
        self.cpu
    }

    /// The debugger's view of a stretch of memory: each byte decoded
    /// through the bus at its own address, failing on unmapped addresses
    /// exactly as a CPU read would.
    pub fn memory_window(&self, start: u16, length: usize) -> (r: Result<Vec<u8>, Fault>)
        requires
            self.wf(),
            length <= 0x10000,
        ensures
            r is Ok <==> (forall|i: int|
                0 <= i < length ==> #[trigger] crate::bus::read_ok(
                    ((start as int + i) % 0x10000) as u16,
                )),
            r is Ok ==> {
                let bytes = r->Ok_0;
                &&& bytes@.len() == length
                &&& forall|i: int|
                    0 <= i < length ==> #[trigger] bytes@[i] == crate::bus::mem_byte(
                        self,
                        ((start as int + i) % 0x10000) as u16,
                    )
            },
    {
        self.read(start, length)
    }
}

} // verus!
