//! The picture unit as the CPU core sees it: the eight memory-mapped
//! control registers with their hardware bit layouts, object attribute
//! memory, video RAM, the cartridge's pattern storage, and a scanline
//! renderer that fills an RGB frame buffer. The CPU bus dispatches
//! 0x2000-0x3FFF accesses to the registers; rendering itself is a
//! collaborator outside the processor core proper.

use vstd::prelude::*;

use crate::cart::Cart;
use crate::vram::Vram;

verus! {

/// Bytes in one rendered RGB frame: 256 x 240 pixels, three bytes each.
pub const FRAME_SIZE: usize = 184320;

/// The control register, one boolean per documented bit, plus the two-bit
/// nametable select in the low bits.
#[allow(non_snake_case)]
#[derive(Debug, Clone, Copy, PartialEq, Eq, Structural)]
pub struct PPUCTRL {
    pub nmi_enable: bool,
    pub ppu_master_slave: bool,
    pub sprite_height: bool,
    pub background_tile_select: bool,
    pub sprite_tile_select: bool,
    pub increment_mode: bool,
    pub nametable_select: u8,
}

/// The packed byte of a control register whose nametable select is in range.
pub open spec fn ctrl_byte(c: PPUCTRL) -> u8 {
    ((if c.nmi_enable {
        128int
    } else {
        0int
    }) + (if c.ppu_master_slave {
        64int
    } else {
        0int
    }) + (if c.sprite_height {
        32int
    } else {
        0int
    }) + (if c.background_tile_select {
        16int
    } else {
        0int
    }) + (if c.sprite_tile_select {
        8int
    } else {
        0int
    }) + (if c.increment_mode {
        4int
    } else {
        0int
    }) + c.nametable_select as int) as u8
}

/// The control register unpacked from a byte.
pub open spec fn ctrl_from_byte(val: u8) -> PPUCTRL {
    PPUCTRL {
        nmi_enable: val as int / 128 % 2 == 1,
        ppu_master_slave: val as int / 64 % 2 == 1,
        sprite_height: val as int / 32 % 2 == 1,
        background_tile_select: val as int / 16 % 2 == 1,
        sprite_tile_select: val as int / 8 % 2 == 1,
        increment_mode: val as int / 4 % 2 == 1,
        nametable_select: (val as int % 4) as u8,
    }
}

impl PPUCTRL {
    /// The nametable select holds only its two bits.
    pub open spec fn wf(&self) -> bool {
        self.nametable_select < 4
    }

    /// Unpacks a byte written to 0x2000.
    pub fn from_byte(val: u8) -> (r: Self)
        ensures
            r == ctrl_from_byte(val),
            r.wf(),
    {
        PPUCTRL {
            nmi_enable: val / 128 % 2 == 1,
            ppu_master_slave: val / 64 % 2 == 1,
            sprite_height: val / 32 % 2 == 1,
            background_tile_select: val / 16 % 2 == 1,
            sprite_tile_select: val / 8 % 2 == 1,
            increment_mode: val / 4 % 2 == 1,
            nametable_select: val % 4,
        }
    }

    /// Packs the register for a read of 0x2000.
    pub fn to_byte(self) -> (r: u8)
        requires
            self.wf(),
        ensures
            r == ctrl_byte(self),
    {
        let mut ret: u8 = 0;
        if self.nmi_enable {
            ret += 128;
        }
        if self.ppu_master_slave {
            ret += 64;
        }
        if self.sprite_height {
            ret += 32;
        }
        if self.background_tile_select {
            ret += 16;
        }
        if self.sprite_tile_select {
            ret += 8;
        }
        if self.increment_mode {
            ret += 4;
        }
        ret += self.nametable_select;
        ret
    }
}

/// The mask register, one boolean per bit.
#[allow(non_snake_case)]
#[derive(Debug, Clone, Copy, PartialEq, Eq, Structural)]
pub struct PPUMASK {
    pub BLUE: bool,
    pub GREEN: bool,
    pub RED: bool,
    pub SPRITE_ENABLE: bool,
    pub BACKGROUND_ENABLE: bool,
    pub LEFT_SPRITE_HIDE: bool,
    pub LEFT_BACKGROUND_HIDE: bool,
    pub GREYSCALE: bool,
}

/// The packed byte of the mask register.
pub open spec fn mask_byte(m: PPUMASK) -> u8 {
    ((if m.BLUE {
        128int
    } else {
        0int
    }) + (if m.GREEN {
        64int
    } else {
        0int
    }) + (if m.RED {
        32int
    } else {
        0int
    }) + (if m.SPRITE_ENABLE {
        16int
    } else {
        0int
    }) + (if m.BACKGROUND_ENABLE {
        8int
    } else {
        0int
    }) + (if m.LEFT_SPRITE_HIDE {
        4int
    } else {
        0int
    }) + (if m.LEFT_BACKGROUND_HIDE {
        2int
    } else {
        0int
    }) + (if m.GREYSCALE {
        1int
    } else {
        0int
    })) as u8
}

/// The mask register unpacked from a byte.
pub open spec fn mask_from_byte(val: u8) -> PPUMASK {
    PPUMASK {
        BLUE: val as int / 128 % 2 == 1,
        GREEN: val as int / 64 % 2 == 1,
        RED: val as int / 32 % 2 == 1,
        SPRITE_ENABLE: val as int / 16 % 2 == 1,
        BACKGROUND_ENABLE: val as int / 8 % 2 == 1,
        LEFT_SPRITE_HIDE: val as int / 4 % 2 == 1,
        LEFT_BACKGROUND_HIDE: val as int / 2 % 2 == 1,
        GREYSCALE: val as int % 2 == 1,
    }
}

impl PPUMASK {
    /// Unpacks a byte written to 0x2001.
    pub fn from_byte(val: u8) -> (r: Self)
        ensures
            r == mask_from_byte(val),
    {
        PPUMASK {
            BLUE: val / 128 % 2 == 1,
            GREEN: val / 64 % 2 == 1,
            RED: val / 32 % 2 == 1,
            SPRITE_ENABLE: val / 16 % 2 == 1,
            BACKGROUND_ENABLE: val / 8 % 2 == 1,
            LEFT_SPRITE_HIDE: val / 4 % 2 == 1,
            LEFT_BACKGROUND_HIDE: val / 2 % 2 == 1,
            GREYSCALE: val % 2 == 1,
        }
    }

    /// Packs the register for a read of 0x2001.
    pub fn to_byte(self) -> (r: u8)
        ensures
            r == mask_byte(self),
    {
        let mut ret: u8 = 0;
        if self.BLUE {
            ret += 128;
        }
        if self.GREEN {
            ret += 64;
        }
        if self.RED {
            ret += 32;
        }
        if self.SPRITE_ENABLE {
            ret += 16;
        }
        if self.BACKGROUND_ENABLE {
            ret += 8;
        }
        if self.LEFT_SPRITE_HIDE {
            ret += 4;
        }
        if self.LEFT_BACKGROUND_HIDE {
            ret += 2;
        }
        if self.GREYSCALE {
            ret += 1;
        }
        ret
    }
}

/// The status register: its three meaningful bits.
#[allow(non_snake_case)]
#[derive(Debug, Clone, Copy, PartialEq, Eq, Structural)]
pub struct PPUSTATUS {
    pub VBLANK: bool,
    pub SPRITE_0_HIT: bool,
    pub SPRITE_OVERFLOW: bool,
}

/// The packed byte of the status register; the stale low bits read as zero.
pub open spec fn status_byte(s: PPUSTATUS) -> u8 {
    ((if s.VBLANK {
        128int
    } else {
        0int
    }) + (if s.SPRITE_0_HIT {
        64int
    } else {
        0int
    }) + (if s.SPRITE_OVERFLOW {
        32int
    } else {
        0int
    })) as u8
}

/// The status register unpacked from a byte.
pub open spec fn status_from_byte(val: u8) -> PPUSTATUS {
    PPUSTATUS {
        VBLANK: val as int / 128 % 2 == 1,
        SPRITE_0_HIT: val as int / 64 % 2 == 1,
        SPRITE_OVERFLOW: val as int / 32 % 2 == 1,
    }
}

impl PPUSTATUS {
    /// Unpacks a byte written to 0x2002.
    pub fn from_byte(val: u8) -> (r: Self)
        ensures
            r == status_from_byte(val),
    {
        PPUSTATUS {
            VBLANK: val / 128 % 2 == 1,
            SPRITE_0_HIT: val / 64 % 2 == 1,
            SPRITE_OVERFLOW: val / 32 % 2 == 1,
        }
    }

    /// Packs the register for a read of 0x2002.
    pub fn to_byte(self) -> (r: u8)
        ensures
            r == status_byte(self),
    {
        let mut ret: u8 = 0;
        if self.VBLANK {
            ret += 128;
        }
        if self.SPRITE_0_HIT {
            ret += 64;
        }
        if self.SPRITE_OVERFLOW {
            ret += 32;
        }
        ret
    }
}

/// The eight memory-mapped registers (plus the DMA port at 0x4014).
#[allow(non_snake_case)]
#[derive(Debug, Clone, Copy, PartialEq, Eq, Structural)]
pub struct PPUREGS {
    pub PPUCTRL: PPUCTRL,
    pub PPUMASK: PPUMASK,
    pub PPUSTATUS: PPUSTATUS,
    pub OAMADDR: u8,
    pub OAMDATA: u8,
    pub PPUSCROLL: u8,
    pub PPUADDR: u8,
    pub PPUDATA: u8,
    pub OAMDMA: u8,
}

impl PPUREGS {
    pub open spec fn wf(&self) -> bool {
        self.PPUCTRL.wf()
    }

    /// All registers decoded from zero.
    pub fn new() -> (r: Self)
        ensures
            r == boot_regs(),
            r.wf(),
    {
        PPUREGS {
            PPUCTRL: PPUCTRL::from_byte(0),
            PPUMASK: PPUMASK::from_byte(0),
            PPUSTATUS: PPUSTATUS::from_byte(0),
            OAMADDR: 0,
            OAMDATA: 0,
            PPUSCROLL: 0,
            PPUADDR: 0,
            PPUDATA: 0,
            OAMDMA: 0,
        }
    }
}

/// The register file at power-on: everything decoded from zero.
pub open spec fn boot_regs() -> PPUREGS {
    PPUREGS {
        PPUCTRL: ctrl_from_byte(0),
        PPUMASK: mask_from_byte(0),
        PPUSTATUS: status_from_byte(0),
        OAMADDR: 0,
        OAMDATA: 0,
        PPUSCROLL: 0,
        PPUADDR: 0,
        PPUDATA: 0,
        OAMDMA: 0,
    }
}

/// The picture unit.
#[allow(non_snake_case)]
#[derive(Debug, Clone)]
pub struct Ppu {
    /// 256 bytes of object attribute memory.
    pub OAM: Vec<u8>,
    /// The memory-mapped registers.
    pub regs: PPUREGS,
    pub vram: Vram,
    pub cart: Cart,
    /// Current dot within the scanline, 0..=341.
    pub cur_dot: usize,
    /// Current scanline, 0..=261.
    pub cur_line: usize,
    /// Clock cycles since boot.
    pub cycles: usize,
    /// Frames completed since boot.
    pub frames: usize,
    /// The RGB frame being built, three bytes per pixel.
    pub frame: Vec<u8>,
}

impl Ppu {
    pub open spec fn wf(&self) -> bool {
        &&& self.OAM@.len() == 256
        &&& self.regs.wf()
        &&& self.vram.wf()
        &&& self.cart.wf()
        &&& self.frame@.len() == FRAME_SIZE
        &&& self.cur_line <= 261
        &&& self.cur_dot <= 341
    }

    /// A fresh picture unit around the given cartridge: zeroed OAM and
    /// registers, zeroed video RAM, beam at the first dot of the first
    /// line, and the frame buffer filled with the boot-up grey (200).
    pub fn new(cart: Cart) -> (r: Self)
        requires
            cart.wf(),
        ensures
            r.wf(),
            r.regs == boot_regs(),
            r.cart == cart,
            r.cur_dot == 0,
            r.cur_line == 0,
            r.cycles == 0,
            r.frames == 0,
            forall|i: int| 0 <= i < 256 ==> r.OAM@[i] == 0u8,
            forall|i: int| 0 <= i < crate::vram::VRAM_SIZE ==> r.vram.contents@[i] == 0u8,
            forall|i: int| 0 <= i < FRAME_SIZE ==> r.frame@[i] == 200u8,
    {
        Ppu {
            OAM: vec![0u8; 256],
            regs: PPUREGS::new(),
            vram: Vram::new(),
            cart,
            cur_dot: 0,
            cur_line: 0,
            cycles: 0,
            frames: 0,
            frame: vec![200u8; FRAME_SIZE],
        }
    }
}


/// Whether bit `k` of a byte is set, counting from the most significant
/// bit.
pub open spec fn bit_from_msb(px: u8, k: int) -> bool {
    if k == 0 {
        px as int / 128 % 2 == 1
    } else if k == 1 {
        px as int / 64 % 2 == 1
    } else if k == 2 {
        px as int / 32 % 2 == 1
    } else if k == 3 {
        px as int / 16 % 2 == 1
    } else if k == 4 {
        px as int / 8 % 2 == 1
    } else if k == 5 {
        px as int / 4 % 2 == 1
    } else if k == 6 {
        px as int / 2 % 2 == 1
    } else {
        px as int % 2 == 1
    }
}

/// The combined pattern byte of tile `t` on scanline `line`: the OR of
/// the two pattern planes' bytes for that row, the tile index taken from
/// the first nametable.
pub open spec fn tile_row_pixels(p: &Ppu, line: int, t: int) -> u8 {
    let tile = p.vram.contents@[line / 8 * 32 + t];
    let pa = tile as int * 16;
    p.cart.chr_rom@[pa + line % 8] | p.cart.chr_rom@[pa + 8 + line % 8]
}

/// One byte of the RGB expansion of scanline `line`: offset `off` within
/// the line's 768-byte slice selects tile `off / 24` and bit
/// `(off % 24) / 3`; a set bit renders white, a clear one black.
pub open spec fn rgb_of(p: &Ppu, line: int, off: int) -> u8 {
    if bit_from_msb(tile_row_pixels(p, line, off / 24), off % 24 / 3) {
        255
    } else {
        0
    }
}

impl Ppu {
    /// Expands one pattern byte into 24 RGB bytes: white for a set bit,
    /// black for a clear one, most significant bit leftmost.
    pub fn u8_to_rgb(&self, pixels: u8) -> (r: Vec<u8>)
        ensures
            r@.len() == 24,
            forall|j: int|
                0 <= j < 24 ==> r@[j] == (if bit_from_msb(pixels, j / 3) {
                    255u8
                } else {
                    0u8
                }),
    {
        let mut ret_vec: Vec<u8> = Vec::new();
        let mut k: usize = 0;
        while k < 8
            invariant
                k <= 8,
                ret_vec@.len() == 3 * k,
                forall|j: int|
                    0 <= j < 3 * k ==> ret_vec@[j] == (if bit_from_msb(pixels, j / 3) {
                        255u8
                    } else {
                        0u8
                    }),
            decreases 8 - k,
        {
            let d: u8 = match k {
                0 => 128,
                1 => 64,
                2 => 32,
                3 => 16,
                4 => 8,
                5 => 4,
                6 => 2,
                _ => 1,
            };
            let byte: u8 = if pixels / d % 2 == 1 {
                255
            } else {
                0
            };
            ret_vec.push(byte);
            ret_vec.push(byte);
            ret_vec.push(byte);
            k = k + 1;
        }
        ret_vec
    }

    /// Moves the beam one dot forward, wrapping to the next scanline
    /// after dot 341 and to the top of the frame after scanline 261.
    pub fn tick_beam(&mut self)
        requires
            old(self).wf(),
        ensures
            final(self).wf(),
            final(self).regs == old(self).regs,
            final(self).OAM@ == old(self).OAM@,
            final(self).vram.contents@ == old(self).vram.contents@,
            crate::nes::same_cart(&final(self).cart, &old(self).cart),
            final(self).cycles == old(self).cycles,
            final(self).frames == old(self).frames,
            final(self).frame@ == old(self).frame@,
            old(self).cur_dot >= 341 ==> final(self).cur_dot == 0,
            old(self).cur_dot >= 341 && old(self).cur_line >= 261 ==> final(self).cur_line == 0,
            old(self).cur_dot >= 341 && old(self).cur_line < 261 ==> final(self).cur_line == old(
                self,
            ).cur_line + 1,
            old(self).cur_dot < 341 ==> final(self).cur_dot == old(self).cur_dot + 1
                && final(self).cur_line == old(self).cur_line,
    {
        if self.cur_dot >= 341 {
            self.cur_dot = 0;
            if self.cur_line >= 261 {
                self.cur_line = 0;
            } else {
                self.cur_line = self.cur_line + 1;
            }
        } else {
            self.cur_dot = self.cur_dot + 1;
        }
    }

    /// One picture-unit step. On a visible scanline the line's 768-byte
    /// slice of the frame buffer is rebuilt from the first nametable and
    /// the pattern planes; the vertical-blank and post-render lines do
    /// nothing; at the last dot of the dummy line the finished frame is
    /// signalled to the caller (who forwards the frame buffer to the
    /// display). The beam then advances one dot.
    pub fn step(&mut self) -> (r: Result<String, String>)
        requires
            old(self).wf(),
        ensures
            final(self).wf(),
            final(self).regs == old(self).regs,
            final(self).OAM@ == old(self).OAM@,
            final(self).vram.contents@ == old(self).vram.contents@,
            crate::nes::same_cart(&final(self).cart, &old(self).cart),
            final(self).cycles == old(self).cycles,
            final(self).frames == old(self).frames,
            r is Err <==> old(self).cur_line == 261 && old(self).cur_dot == 341,
            r is Err ==> r->Err_0@ == "just sent a frame"@ && final(self).frame@ == old(
                self,
            ).frame@ && final(self).cur_dot == 0 && final(self).cur_line == 0,
            r is Ok ==> r->Ok_0@ == Seq::<char>::empty(),
            old(self).cur_line < 240 ==> forall|i: int|
                0 <= i < FRAME_SIZE ==> final(self).frame@[i] == (if old(self).cur_line * 768 <= i
                    < old(self).cur_line * 768 + 768 {
                    rgb_of(old(self), old(self).cur_line as int, i - old(self).cur_line * 768)
                } else {
                    old(self).frame@[i]
                }),
            old(self).cur_line >= 240 ==> final(self).frame@ == old(self).frame@,
    {
        let log_line = String::new();
        if self.cur_line < 240 {
            let tile_row = self.cur_line / 8;
            let base: usize = 0x2000 + tile_row * 32;
            let tile_data = self.read(base as u16, 32);
            let line = self.cur_line;
            let row = self.cur_line % 8;
            let mut t: usize = 0;
            while t < 32
                invariant
                    old(self).wf(),
                    self.wf(),
                    self.regs == old(self).regs,
                    self.OAM@ == old(self).OAM@,
                    self.vram.contents@ == old(self).vram.contents@,
                    crate::nes::same_cart(&self.cart, &old(self).cart),
                    self.cycles == old(self).cycles,
                    self.frames == old(self).frames,
                    self.cur_dot == old(self).cur_dot,
                    self.cur_line == old(self).cur_line,
                    line == old(self).cur_line,
                    line < 240,
                    row == line % 8,
                    tile_data@.len() == 32,
                    forall|j: int|
                        0 <= j < 32 ==> tile_data@[j] == old(self).vram.contents@[line as int / 8
                            * 32 + j],
                    t <= 32,
                    forall|i: int|
                        0 <= i < FRAME_SIZE ==> self.frame@[i] == (if line * 768 <= i < line * 768
                            + 24 * t {
                            rgb_of(old(self), line as int, i - line * 768)
                        } else {
                            old(self).frame@[i]
                        }),
                decreases 32 - t,
            {
                let tile = tile_data[t];
                let pattern_addr: usize = tile as usize * 16;
                let pattern_raw = self.read(pattern_addr as u16, 16);
                let pixels = pattern_raw[row] | pattern_raw[8 + row];
                proof {
                    assert(pixels == tile_row_pixels(old(self), line as int, t as int));
                }
                let pixels_rgb = self.u8_to_rgb(pixels);
                let framebuffer_addr: usize = line * 768 + t * 24;
                let mut j: usize = 0;
                while j < 24
                    invariant
                        old(self).wf(),
                        self.wf(),
                        self.regs == old(self).regs,
                        self.OAM@ == old(self).OAM@,
                        self.vram.contents@ == old(self).vram.contents@,
                        crate::nes::same_cart(&self.cart, &old(self).cart),
                        self.cycles == old(self).cycles,
                        self.frames == old(self).frames,
                        self.cur_dot == old(self).cur_dot,
                        self.cur_line == old(self).cur_line,
                        line == old(self).cur_line,
                        line < 240,
                        t < 32,
                        j <= 24,
                        framebuffer_addr == line * 768 + t * 24,
                        pixels_rgb@.len() == 24,
                        forall|q: int|
                            0 <= q < 24 ==> pixels_rgb@[q] == (if bit_from_msb(
                                tile_row_pixels(old(self), line as int, t as int),
                                q / 3,
                            ) {
                                255u8
                            } else {
                                0u8
                            }),
                        forall|i: int|
                            0 <= i < FRAME_SIZE ==> self.frame@[i] == (if line * 768 <= i < line
                                * 768 + 24 * t + j {
                                rgb_of(old(self), line as int, i - line * 768)
                            } else {
                                old(self).frame@[i]
                            }),
                    decreases 24 - j,
                {
                    proof {
                        assert(rgb_of(old(self), line as int, (t * 24 + j) as int) == (if
                            bit_from_msb(
                            tile_row_pixels(old(self), line as int, t as int),
                            j as int / 3,
                        ) {
                            255u8
                        } else {
                            0u8
                        })) by {
                            assert((t * 24 + j) as int / 24 == t as int) by (nonlinear_arith)
                                requires
                                    0 <= j < 24,
                                    0 <= t,
                            ;
                            assert((t * 24 + j) as int % 24 == j as int) by (nonlinear_arith)
                                requires
                                    0 <= j < 24,
                                    0 <= t,
                            ;
                        }
                    }
                    self.frame[framebuffer_addr + j] = pixels_rgb[j];
                    j = j + 1;
                }
                t = t + 1;
            }
        } else if self.cur_line == 261 {
            if self.cur_dot == 341 {
                self.tick_beam();
                return Err(String::from_str("just sent a frame"));
            }
        }
        self.tick_beam();
        Ok(log_line)
    }
}

} // verus!
