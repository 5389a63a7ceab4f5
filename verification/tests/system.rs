//! System-level checks: the bus decoder, cycle accounting, page-cross
//! and branch penalties, undocumented composites, breakpoints, and the
//! step/run loop against a reference log.

use nes_core::cart::Cart;
use nes_core::cpu::Cpu;
use nes_core::nes::{Fault, Halt, RunEvent, NES};
use nes_core::ppu::Ppu;
use nes_core::wram::Wram;

fn rom_image(prg: Vec<u8>) -> Vec<u8> {
    let mut img = vec![0u8; 16];
    img[4] = 1;
    img[5] = 1;
    let mut prg_full = prg;
    prg_full.resize(16384, 0);
    img.extend(prg_full);
    img.extend(vec![0u8; 8192]);
    img
}

fn make_nes(prg: Vec<u8>) -> NES {
    let cart = Cart::new(&rom_image(prg)).unwrap();
    let ppu = Ppu::new(cart);
    let cpu = Cpu::new();
    let wram = Wram::new();
    let mut nes = NES::new(cpu, wram, ppu);
    nes.cpu.PC = 0x8000;
    nes
}

fn suffix(regs: &str, cyc: u128) -> String {
    format!("{} CYC:{}", regs, cyc)
}

#[test]
fn wram_mirroring_bus() {
    let mut nes = make_nes(vec![]);
    nes.write(0x0005, &vec![0xAB]).unwrap();
    for k in 0..4u16 {
        assert_eq!(nes.read(0x0005 + 2048 * k, 1).unwrap(), vec![0xAB]);
    }
    // A write through a mirror lands in the same cell.
    nes.write(0x1805, &vec![0xCD]).unwrap();
    assert_eq!(nes.read(0x0005, 1).unwrap(), vec![0xCD]);
}

#[test]
fn prg_mirroring_bus() {
    let mut prg = vec![0u8; 16384];
    prg[0x0042] = 0x99;
    let nes = make_nes(prg);
    assert_eq!(nes.read(0x8042, 1).unwrap(), vec![0x99]);
    assert_eq!(nes.read(0xC042, 1).unwrap(), vec![0x99]);
}

#[test]
fn apu_stub_reads_zero() {
    let mut nes = make_nes(vec![]);
    assert_eq!(nes.read(0x4000, 1).unwrap(), vec![0]);
    assert_eq!(nes.read(0x4017, 1).unwrap(), vec![0]);
    // Writes are dropped without error.
    nes.write(0x4005, &vec![0xFF]).unwrap();
    assert_eq!(nes.read(0x4005, 1).unwrap(), vec![0]);
}

#[test]
fn unmapped_regions_fault() {
    let mut nes = make_nes(vec![]);
    assert_eq!(
        nes.read(0x6000, 1),
        Err(Fault::UnmappedRead { addr: 0x6000 })
    );
    assert_eq!(
        nes.read(0x4018, 1),
        Err(Fault::UnmappedRead { addr: 0x4018 })
    );
    assert_eq!(
        nes.write(0x8000, &vec![1]),
        Err(Fault::UnmappedWrite { addr: 0x8000 })
    );
    assert_eq!(
        nes.write(0x6000, &vec![1]),
        Err(Fault::UnmappedWrite { addr: 0x6000 })
    );
}

#[test]
fn ppu_register_window_mirrors() {
    let mut nes = make_nes(vec![]);
    nes.write(0x2001, &vec![0xA5]).unwrap();
    assert_eq!(nes.read(0x2009, 1).unwrap(), vec![0xA5]);
    assert_eq!(nes.read(0x3FF9, 1).unwrap(), vec![0xA5]);
}

#[test]
fn lda_immediate_costs_two_cycles() {
    let mut nes = make_nes(vec![0xA9, 0x10]);
    assert_eq!(nes.cycles, 7);
    let line = nes.step().unwrap();
    assert_eq!(nes.cycles, 9);
    assert_eq!(nes.cpu.PC, 0x8002);
    assert_eq!(nes.cpu.ACC, 0x10);
    let expected = format!(
        "8000  A9 10     LDA #$10{}{}",
        " ".repeat(24),
        suffix("A:10 X:00 Y:00 P:  N:0 V:0 B:10 D:0 I:1 Z:0 C:0  SP:FD ", 9)
    );
    assert_eq!(line, expected);
}

#[test]
fn absolute_x_page_cross_penalty() {
    // LDA $00FF,X reading zero page / page one of work RAM.
    let mut no_cross = make_nes(vec![0xBD, 0xFF, 0x00]);
    no_cross.cpu.X = 0;
    no_cross.step().unwrap();
    assert_eq!(no_cross.cycles, 7 + 4);

    let mut cross = make_nes(vec![0xBD, 0xFF, 0x00]);
    cross.cpu.X = 1;
    cross.step().unwrap();
    assert_eq!(cross.cycles, 7 + 5);
}

#[test]
fn branch_costs() {
    // Not taken: base two cycles.
    let mut not_taken = make_nes(vec![0xD0, 0x05]);
    not_taken.cpu.SR.Z = true;
    not_taken.step().unwrap();
    assert_eq!(not_taken.cycles, 7 + 2);
    assert_eq!(not_taken.cpu.PC, 0x8002);

    // Taken, same page: base plus one.
    let mut same_page = make_nes(vec![0xD0, 0x05]);
    same_page.cpu.SR.Z = false;
    same_page.step().unwrap();
    assert_eq!(same_page.cycles, 7 + 3);
    assert_eq!(same_page.cpu.PC, 0x8007);

    // Taken, crossing a page: base plus two.
    let mut prg = vec![0u8; 16384];
    prg[0x00F0] = 0xD0;
    prg[0x00F1] = 0x20;
    let mut crossing = make_nes(prg);
    crossing.cpu.PC = 0x80F0;
    crossing.cpu.SR.Z = false;
    crossing.step().unwrap();
    assert_eq!(crossing.cycles, 7 + 4);
    assert_eq!(crossing.cpu.PC, 0x8112);
}

#[test]
fn dcp_composite() {
    // DCP $10 with memory 0x05 and ACC 0x05: memory decrements to 0x04,
    // then compares as CMP against 0x04.
    let mut nes = make_nes(vec![0xC7, 0x10]);
    nes.write(0x0010, &vec![0x05]).unwrap();
    nes.cpu.ACC = 0x05;
    nes.step().unwrap();
    assert_eq!(nes.read(0x0010, 1).unwrap(), vec![0x04]);
    assert!(nes.cpu.SR.C);
    assert!(!nes.cpu.SR.Z);
    assert_eq!(nes.cycles, 7 + 5);
}

#[test]
fn adc_signed_overflow() {
    // 0x50 + 0x50 overflows the signed range without an unsigned carry.
    let mut nes = make_nes(vec![0xA9, 0x50, 0x69, 0x50]);
    nes.step().unwrap();
    nes.step().unwrap();
    assert_eq!(nes.cpu.ACC, 0xA0);
    assert!(nes.cpu.SR.V);
    assert!(nes.cpu.SR.N);
    assert!(!nes.cpu.SR.C);
    assert!(!nes.cpu.SR.Z);
}

#[test]
fn sbc_borrow_flags() {
    // 0x03 - 0x04 with carry set borrows: carry clears, result wraps.
    let mut nes = make_nes(vec![0xA9, 0x03, 0x38, 0xE9, 0x04]);
    nes.step().unwrap();
    nes.step().unwrap();
    nes.step().unwrap();
    assert_eq!(nes.cpu.ACC, 0xFF);
    assert!(!nes.cpu.SR.C);
    assert!(nes.cpu.SR.N);
}

#[test]
fn stack_push_pull() {
    // LDA #$42, PHA, LDA #$00, PLA: the accumulator comes back, the
    // stack pointer returns, and the pushed byte sits in page 1.
    let mut nes = make_nes(vec![0xA9, 0x42, 0x48, 0xA9, 0x00, 0x68]);
    for _ in 0..4 {
        nes.step().unwrap();
    }
    assert_eq!(nes.cpu.ACC, 0x42);
    assert_eq!(nes.cpu.SP, 0xFD);
    assert_eq!(nes.memory_window(0x01FD, 1).unwrap(), vec![0x42]);
}

#[test]
fn sp_wraps_silently() {
    // Pull with an empty stack wraps the stack pointer within 8 bits.
    let mut nes = make_nes(vec![0x68]);
    nes.cpu.SP = 0xFF;
    nes.step().unwrap();
    assert_eq!(nes.cpu.SP, 0x00);
}

#[test]
fn jsr_rts_round_trip() {
    // JSR $8010 ... RTS resumes right after the call.
    let mut prg = vec![0u8; 16384];
    prg[0] = 0x20;
    prg[1] = 0x10;
    prg[2] = 0x80;
    prg[0x10] = 0x60;
    let mut nes = make_nes(prg);
    nes.step().unwrap();
    assert_eq!(nes.cpu.PC, 0x8010);
    assert_eq!(nes.cpu.SP, 0xFB);
    nes.step().unwrap();
    assert_eq!(nes.cpu.PC, 0x8003);
    assert_eq!(nes.cpu.SP, 0xFD);
    assert_eq!(nes.cycles, 7 + 6 + 6);
}

#[test]
fn jmp_indirect_page_wrap() {
    // The pointer's high byte is fetched with the documented page-wrap
    // quirk: ($10FF) reads its high byte from $1000, not $1100.
    let mut nes = make_nes(vec![0x6C, 0xFF, 0x10]);
    nes.write(0x10FF, &vec![0x34]).unwrap();
    nes.write(0x1000, &vec![0x12]).unwrap();
    nes.write(0x1100, &vec![0x77]).unwrap();
    nes.step().unwrap();
    assert_eq!(nes.cpu.PC, 0x1234);
}

#[test]
fn unknown_opcode_is_fatal() {
    let mut nes = make_nes(vec![0x02]);
    assert_eq!(
        nes.step(),
        Err(Halt::Fatal {
            fault: Fault::UnknownOpcode { op: 0x02, pc: 0x8000 }
        })
    );
}

#[test]
fn store_to_unmapped_area_is_fatal() {
    // STA $6000 touches the unimplemented cartridge SRAM area.
    let mut nes = make_nes(vec![0x8D, 0x00, 0x60]);
    assert_eq!(
        nes.step(),
        Err(Halt::Fatal {
            fault: Fault::UnmappedRead { addr: 0x6000 }
        })
    );
}

#[test]
fn breakpoint_halts_before_executing() {
    let mut nes = make_nes(vec![0xA9, 0x10]);
    nes.add_breakpoint(0x8000);
    assert_eq!(nes.step(), Err(Halt::Breakpoint { pc: 0x8000 }));
    // Nothing executed: registers and cycles untouched.
    assert_eq!(nes.cpu.PC, 0x8000);
    assert_eq!(nes.cycles, 7);
    // The registration is consumed: the next step executes.
    assert!(nes.step().is_ok());
    assert_eq!(nes.cpu.ACC, 0x10);
}

#[test]
fn breakpoint_fires_once_per_registration() {
    // JMP $8000 loops back to the same address; the consumed breakpoint
    // does not re-halt.
    let mut nes = make_nes(vec![0x4C, 0x00, 0x80]);
    nes.add_breakpoint(0x8000);
    assert_eq!(nes.step(), Err(Halt::Breakpoint { pc: 0x8000 }));
    assert!(nes.step().is_ok());
    assert_eq!(nes.cpu.PC, 0x8000);
    assert!(nes.step().is_ok());
    // Re-registration makes it fire again.
    nes.add_breakpoint(0x8000);
    assert_eq!(nes.step(), Err(Halt::Breakpoint { pc: 0x8000 }));
}

#[test]
fn end_to_end_against_reference_log() {
    // A small program stepped from the entry point, after halting at the
    // registered entry breakpoint without executing, must reproduce the
    // reference lines exactly.
    let prg = vec![0xA2, 0x00, 0x86, 0x10, 0xA9, 0x05, 0x69, 0x03, 0xEA];
    let expected = [
        format!(
            "8000  A2 00     LDX #$00{}{}",
            " ".repeat(24),
            suffix("A:00 X:00 Y:00 P:  N:0 V:0 B:10 D:0 I:1 Z:1 C:0  SP:FD ", 9)
        ),
        format!(
            "8002  86 10     STX $10 = 00{}{}",
            " ".repeat(20),
            suffix("A:00 X:00 Y:00 P:  N:0 V:0 B:10 D:0 I:1 Z:1 C:0  SP:FD ", 12)
        ),
        format!(
            "8004  A9 05     LDA #$05{}{}",
            " ".repeat(24),
            suffix("A:05 X:00 Y:00 P:  N:0 V:0 B:10 D:0 I:1 Z:0 C:0  SP:FD ", 14)
        ),
        format!(
            "8006  69 03     ADC #$03{}{}",
            " ".repeat(24),
            suffix("A:08 X:00 Y:00 P:  N:0 V:0 B:10 D:0 I:1 Z:0 C:0  SP:FD ", 16)
        ),
        format!(
            "8008  EA        NOP {}{}",
            " ".repeat(28),
            suffix("A:08 X:00 Y:00 P:  N:0 V:0 B:10 D:0 I:1 Z:0 C:0  SP:FD ", 18)
        ),
    ];

    let mut nes = make_nes(prg.clone());
    nes.add_breakpoint(0x8000);
    assert_eq!(nes.step(), Err(Halt::Breakpoint { pc: 0x8000 }));
    assert_eq!(nes.cycles, 7);
    for want in expected.iter() {
        let line = nes.step().unwrap();
        assert_eq!(&line, want);
    }

    // The run loop matches the same log (stored last-line-first, with a
    // sacrificial entry for the entry-breakpoint halt) and reports the
    // halt, then exhaustion.
    let mut nes2 = make_nes(prg);
    nes2.add_breakpoint(0x8000);
    let mut log: Vec<String> = expected.iter().rev().cloned().collect();
    log.push("entry".to_string());
    let (matched, event) = nes2.run(&mut log);
    assert!(matched.is_empty());
    assert!(matches!(
        event,
        RunEvent::Halted { halt: Halt::Breakpoint { pc: 0x8000 } }
    ));
    let (matched, event) = nes2.run(&mut log);
    assert_eq!(matched.len(), 5);
    assert!(matches!(event, RunEvent::LogExhausted));
    assert!(log.is_empty());
}

#[test]
fn run_surfaces_mismatch() {
    let mut nes = make_nes(vec![0xA9, 0x10]);
    let mut log = vec!["not the right line".to_string()];
    let (matched, event) = nes.run(&mut log);
    assert!(matched.is_empty());
    match event {
        RunEvent::Mismatch { expected, actual } => {
            assert_eq!(expected, "not the right line");
            assert!(actual.starts_with("8000  A9 10     LDA #$10"));
        },
        _ => panic!("expected a mismatch"),
    }
}

#[test]
fn run_reports_fatal_halt() {
    let mut nes = make_nes(vec![0x02]);
    let mut log = vec!["line".to_string()];
    let (_, event) = nes.run(&mut log);
    assert!(matches!(
        event,
        RunEvent::Halted {
            halt: Halt::Fatal { fault: Fault::UnknownOpcode { op: 0x02, pc: 0x8000 } }
        }
    ));
}

#[test]
fn register_snapshot_and_memory_window() {
    let mut nes = make_nes(vec![]);
    nes.cpu.ACC = 0x55;
    let snap = nes.register_snapshot();
    assert_eq!(snap.ACC, 0x55);
    nes.write(0x0123, &vec![9, 8, 7]).unwrap();
    assert_eq!(nes.memory_window(0x0123, 3).unwrap(), vec![9, 8, 7]);
    assert!(nes.memory_window(0x6000, 1).is_err());
}

#[test]
fn unofficial_nop_trace_columns() {
    // The undocumented *NOP keeps the reference tool's one-column shift.
    let mut nes = make_nes(vec![0x1A]);
    let line = nes.step().unwrap();
    assert!(line.starts_with("8000  1A       *NOP "));
}

#[test]
fn lax_loads_both_registers() {
    let mut nes = make_nes(vec![0xA7, 0x10]);
    nes.write(0x0010, &vec![0x9C]).unwrap();
    nes.step().unwrap();
    assert_eq!(nes.cpu.ACC, 0x9C);
    assert_eq!(nes.cpu.X, 0x9C);
    assert!(nes.cpu.SR.N);
}

#[test]
fn watchpoints_are_registered() {
    let mut nes = make_nes(vec![]);
    nes.add_watchpoint(0x0200);
    assert_eq!(nes.watchpoints, vec![0x0200]);
}
