//! Unit-level checks: status-flag packing, cartridge parsing and
//! mirroring, the picture-unit registers, the opcode table, and the text
//! helpers.

use nes_core::cart::{Cart, CartError};
use nes_core::cpu::{Cpu, SR};
use nes_core::instr::Instr;
use nes_core::nes::print_bytes;
use nes_core::ppu::{Ppu, PPUCTRL, PPUMASK, PPUSTATUS};

fn rom_image(prg: Vec<u8>) -> Vec<u8> {
    let mut img = vec![0u8; 16];
    img[4] = 1;
    img[5] = 1;
    let mut prg_full = prg;
    prg_full.resize(16384, 0);
    img.extend(prg_full);
    img.extend(vec![0u8; 8192]);
    img
}

#[test]
fn flag_round_trip_all_bytes() {
    // Decode-then-encode reproduces every documented bit, for every value.
    for v in 0..=255u8 {
        let mut sr = SR::new();
        sr.encode(v);
        assert_eq!(sr.decode(), v);
    }
}

#[test]
fn flag_bit_layout() {
    let mut sr = SR::new();
    sr.encode(0b1010_0101);
    assert!(sr.N);
    assert!(!sr.V);
    assert!(sr.BH);
    assert!(!sr.BL);
    assert!(!sr.D);
    assert!(sr.I);
    assert!(!sr.Z);
    assert!(sr.C);
    let mut sr2 = SR::new();
    sr2.N = true;
    sr2.C = true;
    assert_eq!(sr2.decode(), 0x81);
}

#[test]
fn boot_cpu_state() {
    let cpu = Cpu::new();
    assert_eq!(cpu.PC, 0);
    assert_eq!(cpu.ACC, 0);
    assert_eq!(cpu.SP, 0xFD);
    // Flags decoded from 0x24: interrupt-disable and B-high set.
    assert!(cpu.SR.I);
    assert!(cpu.SR.BH);
    assert!(!cpu.SR.BL);
    assert!(!cpu.SR.N);
    assert_eq!(cpu.SR.decode(), 0x24);
}

#[test]
fn cpu_log_line_format() {
    let cpu = Cpu::new();
    assert_eq!(
        cpu.fmt_log(),
        "A:00 X:00 Y:00 P:  N:0 V:0 B:10 D:0 I:1 Z:0 C:0  SP:FD "
    );
}

#[test]
fn cpu_tui_lines() {
    let cpu = Cpu::new();
    let lines = cpu.fmt_for_tui();
    assert_eq!(lines.len(), 7);
    assert_eq!(lines[0], "PC:  0000");
    assert_eq!(lines[4], "SP:  FD");
    assert_eq!(lines[5], "SR:  24");
    assert_eq!(lines[6], "     N:0 V:0 BH:1 BL:0 D:0 I:1 Z:0 C:0");
}

#[test]
fn cart_rejects_short_image() {
    assert_eq!(Cart::new(&[0u8; 8]).unwrap_err(), CartError::TooShort);
}

#[test]
fn cart_rejects_trainer() {
    let mut img = rom_image(vec![]);
    img[6] = 0b0000_0100;
    assert_eq!(Cart::new(&img).unwrap_err(), CartError::Trainer);
}

#[test]
fn cart_rejects_missing_prg() {
    let mut img = rom_image(vec![]);
    img[4] = 0;
    assert_eq!(Cart::new(&img).unwrap_err(), CartError::NoPrgRom);
}

#[test]
fn cart_rejects_truncated_data() {
    let img = rom_image(vec![]);
    assert_eq!(Cart::new(&img[..1000]).unwrap_err(), CartError::TooShort);
}

#[test]
fn cart_parses_prg_data() {
    let mut prg = vec![0u8; 16384];
    prg[0] = 0xDE;
    prg[16383] = 0xAD;
    let cart = Cart::new(&rom_image(prg)).unwrap();
    assert_eq!(cart.prg_rom.len(), 16384);
    assert_eq!(cart.prg_rom[0], 0xDE);
    assert_eq!(cart.prg_rom[16383], 0xAD);
    assert_eq!(cart.chr_rom.len(), 8192);
    assert_eq!(cart.prg_ram.len(), 2048);
}

#[test]
fn cart_prg_reads_mirror() {
    let mut prg = vec![0u8; 16384];
    prg[0x123] = 0x77;
    let cart = Cart::new(&rom_image(prg)).unwrap();
    assert_eq!(cart.cpu_read(0x8123, 1), vec![0x77]);
    assert_eq!(cart.cpu_read(0xC123, 1), vec![0x77]);
}

#[test]
fn ppu_ctrl_round_trip() {
    for v in [0x00u8, 0x01, 0x03, 0x80, 0xA5, 0xFF] {
        assert_eq!(PPUCTRL::from_byte(v).to_byte(), v);
    }
}

#[test]
fn ppu_mask_round_trip() {
    for v in 0..=255u8 {
        assert_eq!(PPUMASK::from_byte(v).to_byte(), v);
    }
}

#[test]
fn ppu_status_keeps_top_bits() {
    assert_eq!(PPUSTATUS::from_byte(0xFF).to_byte(), 0xE0);
    assert_eq!(PPUSTATUS::from_byte(0x80).to_byte(), 0x80);
}

#[test]
fn opcode_table_entries() {
    let table = Instr::new();
    let lda = table.get(0xA9).unwrap();
    assert_eq!(lda.name, "LDA");
    assert_eq!(lda.len, 2);
    assert_eq!(lda.cycles, 2);
    let dcp = table.get(0xC7).unwrap();
    assert_eq!(dcp.name, "*DCP");
    assert_eq!(dcp.len, 2);
    assert_eq!(dcp.cycles, 5);
    assert!(table.get(0x02).is_none());
    assert!(table.get(0xFF).is_some());
}

#[test]
fn print_bytes_hex_pairs() {
    assert_eq!(print_bytes(&vec![0xDE, 0xAD, 0x01]), "DE AD 01 ");
    assert_eq!(print_bytes(&vec![]), "");
}

#[test]
fn rgb_expansion() {
    let cart = Cart::new(&rom_image(vec![])).unwrap();
    let ppu = Ppu::new(cart);
    let rgb = ppu.u8_to_rgb(0xA0);
    assert_eq!(rgb.len(), 24);
    assert_eq!(&rgb[0..3], &[255, 255, 255]);
    assert_eq!(&rgb[3..6], &[0, 0, 0]);
    assert_eq!(&rgb[6..9], &[255, 255, 255]);
    assert_eq!(&rgb[9..24], &[0u8; 15][..]);
}

#[test]
fn beam_advances_and_wraps() {
    let cart = Cart::new(&rom_image(vec![])).unwrap();
    let mut ppu = Ppu::new(cart);
    ppu.tick_beam();
    assert_eq!((ppu.cur_dot, ppu.cur_line), (1, 0));
    ppu.cur_dot = 341;
    ppu.tick_beam();
    assert_eq!((ppu.cur_dot, ppu.cur_line), (0, 1));
    ppu.cur_dot = 341;
    ppu.cur_line = 261;
    ppu.tick_beam();
    assert_eq!((ppu.cur_dot, ppu.cur_line), (0, 0));
}

#[test]
fn ppu_renders_a_scanline() {
    let mut prg = vec![0u8; 16384];
    prg.resize(16384, 0);
    let mut cart = Cart::new(&rom_image(prg)).unwrap();
    // Tile 0, row 0, high plane: leftmost pixel set.
    cart.chr_rom[0] = 0x80;
    let mut ppu = Ppu::new(cart);
    let r = ppu.step();
    assert!(r.is_ok());
    // Leftmost pixel of line 0 renders white, the next one black.
    assert_eq!(&ppu.frame[0..3], &[255, 255, 255]);
    assert_eq!(&ppu.frame[3..6], &[0, 0, 0]);
    // Line 1 is untouched boot grey.
    assert_eq!(ppu.frame[768], 200);
    assert_eq!(ppu.cur_dot, 1);
}

#[test]
fn ppu_signals_finished_frame() {
    let cart = Cart::new(&rom_image(vec![])).unwrap();
    let mut ppu = Ppu::new(cart);
    ppu.cur_line = 261;
    ppu.cur_dot = 341;
    let r = ppu.step();
    assert_eq!(r, Err("just sent a frame".to_string()));
    assert_eq!((ppu.cur_dot, ppu.cur_line), (0, 0));
}

#[test]
fn ppu_vblank_line_changes_nothing() {
    let cart = Cart::new(&rom_image(vec![])).unwrap();
    let mut ppu = Ppu::new(cart);
    ppu.cur_line = 241;
    let before = ppu.frame.clone();
    let r = ppu.step();
    assert_eq!(r, Ok(String::new()));
    assert_eq!(ppu.frame, before);
}

#[test]
fn ppu_bus_read_write() {
    let cart = Cart::new(&rom_image(vec![])).unwrap();
    let mut ppu = Ppu::new(cart);
    ppu.write(0x2005, &vec![1, 2, 3]);
    assert_eq!(ppu.read(0x2005, 3), vec![1, 2, 3]);
    // The 0x3000 window mirrors the nametables.
    assert_eq!(ppu.read(0x3005, 3), vec![1, 2, 3]);
}
