//! The 16-bit memory bus. Each byte of a CPU access is decoded
//! independently at its own address (the address wraps modulo 0x10000):
//! 0x0000-0x1FFF is the 2KB work RAM mirrored every 2048 bytes,
//! 0x2000-0x3FFF the eight picture-unit registers mirrored every 8 bytes,
//! 0x4000-0x4017 the APU/IO stub (reads return 0, writes are dropped),
//! 0x4018-0x7FFF the unimplemented cartridge expansion/SRAM area (fatal on
//! access), and 0x8000-0xFFFF the cartridge PRG-ROM mirrored modulo the
//! bank size. The picture unit's own bus decodes pattern storage, video
//! RAM and its mirror.

use vstd::prelude::*;

use crate::cart::BANK_SIZE;
use crate::nes::{Fault, NES};
use crate::ppu::{ctrl_byte, mask_byte, status_byte, Ppu, PPUCTRL, PPUMASK, PPUREGS, PPUSTATUS};

verus! {

/// Whether a single-byte read of `addr` is mapped (everything but the
/// cartridge expansion/SRAM area).
pub open spec fn read_ok(addr: u16) -> bool {
    !(0x4018 <= addr && addr < 0x8000)
}

/// Whether a single-byte write of `addr` is mapped (work RAM, the
/// picture-unit registers and the APU/IO stub; expansion, SRAM and
/// PRG-ROM are not writable).
pub open spec fn write_ok(addr: u16) -> bool {
    addr < 0x4018
}

/// One mirrored picture-unit register as a byte, by its index 0..8.
pub open spec fn reg_byte(r: PPUREGS, idx: int) -> u8 {
    if idx == 0 {
        ctrl_byte(r.PPUCTRL)
    } else if idx == 1 {
        mask_byte(r.PPUMASK)
    } else if idx == 2 {
        status_byte(r.PPUSTATUS)
    } else if idx == 3 {
        r.OAMADDR
    } else if idx == 4 {
        r.OAMDATA
    } else if idx == 5 {
        r.PPUSCROLL
    } else if idx == 6 {
        r.PPUADDR
    } else {
        r.PPUDATA
    }
}

/// The byte the CPU sees at `addr` (meaningful when `read_ok(addr)`).
pub open spec fn mem_byte(s: &NES, addr: u16) -> u8 {
    if addr < 0x2000 {
        s.wram.contents@[addr as int % 2048]
    } else if addr < 0x4000 {
        reg_byte(s.ppu.regs, (addr - 0x2000) as int % 8)
    } else if addr < 0x8000 {
        0
    } else {
        s.ppu.cart.prg_rom@[addr as int % (BANK_SIZE as int)]
    }
}

/// Work RAM after a one-byte write at `addr`.
pub open spec fn wram_after(s: &NES, addr: u16, v: u8) -> Seq<u8> {
    if addr < 0x2000 {
        s.wram.contents@.update(addr as int % 2048, v)
    } else {
        s.wram.contents@
    }
}

/// The picture-unit registers after a one-byte write at `addr`.
pub open spec fn regs_after(s: &NES, addr: u16, v: u8) -> PPUREGS {
    if 0x2000 <= addr && addr < 0x4000 {
        reg_written(s.ppu.regs, (addr - 0x2000) as int % 8, v)
    } else {
        s.ppu.regs
    }
}

/// The register file with mirrored register `idx` set from `v`.
pub open spec fn reg_written(r: PPUREGS, idx: int, v: u8) -> PPUREGS {
    if idx == 0 {
        PPUREGS { PPUCTRL: crate::ppu::ctrl_from_byte(v), ..r }
    } else if idx == 1 {
        PPUREGS { PPUMASK: crate::ppu::mask_from_byte(v), ..r }
    } else if idx == 2 {
        PPUREGS { PPUSTATUS: crate::ppu::status_from_byte(v), ..r }
    } else if idx == 3 {
        PPUREGS { OAMADDR: v, ..r }
    } else if idx == 4 {
        PPUREGS { OAMDATA: v, ..r }
    } else if idx == 5 {
        PPUREGS { PPUSCROLL: v, ..r }
    } else if idx == 6 {
        PPUREGS { PPUADDR: v, ..r }
    } else {
        PPUREGS { PPUDATA: v, ..r }
    }
}

/// Everything of the system except work RAM and the picture-unit
/// registers is unchanged.
pub open spec fn frame_bus_write(a: &NES, b: &NES) -> bool {
    &&& b.cpu == a.cpu
    &&& b.cycles == a.cycles
    &&& b.breakpoints@ == a.breakpoints@
    &&& b.watchpoints@ == a.watchpoints@
    &&& b.ppu.OAM@ == a.ppu.OAM@
    &&& b.ppu.vram.contents@ == a.ppu.vram.contents@
    &&& crate::nes::same_cart(&b.ppu.cart, &a.ppu.cart)
    &&& b.ppu.cur_dot == a.ppu.cur_dot
    &&& b.ppu.cur_line == a.ppu.cur_line
    &&& b.ppu.cycles == a.ppu.cycles
    &&& b.ppu.frames == a.ppu.frames
    &&& b.ppu.frame@ == a.ppu.frame@
}

impl NES {
    /// Reads one byte through the bus decoder.
    pub fn read1(&self, addr: u16) -> (r: Result<u8, Fault>)
        requires
            self.wf(),
        ensures
            r is Ok <==> read_ok(addr),
            r is Ok ==> r->Ok_0 == mem_byte(self, addr),
            r is Err ==> r == Result::<u8, Fault>::Err(Fault::UnmappedRead { addr }),
    {
        if addr < 0x2000 {
            Ok(self.wram.contents[addr as usize % 2048])
        } else if addr < 0x4000 {
            let idx = (addr - 0x2000) % 8;
            Ok(
                match idx {
                    0 => self.ppu.regs.PPUCTRL.to_byte(),
                    1 => self.ppu.regs.PPUMASK.to_byte(),
                    2 => self.ppu.regs.PPUSTATUS.to_byte(),
                    3 => self.ppu.regs.OAMADDR,
                    4 => self.ppu.regs.OAMDATA,
                    5 => self.ppu.regs.PPUSCROLL,
                    6 => self.ppu.regs.PPUADDR,
                    _ => self.ppu.regs.PPUDATA,
                },
            )
        } else if addr < 0x4018 {
            Ok(0)
        } else if addr < 0x8000 {
            Err(Fault::UnmappedRead { addr })
        } else {
            Ok(self.ppu.cart.prg_rom[addr as usize % BANK_SIZE])
        }
    }

    /// Writes one byte through the bus decoder.
    pub fn write1(&mut self, addr: u16, v: u8) -> (r: Result<(), Fault>)
        requires
            old(self).wf(),
        ensures
            final(self).wf(),
            r is Ok <==> write_ok(addr),
            r is Ok ==> {
                &&& final(self).wram.contents@ == wram_after(old(self), addr, v)
                &&& final(self).ppu.regs == regs_after(old(self), addr, v)
                &&& frame_bus_write(old(self), final(self))
            },
            r is Err ==> r == Result::<(), Fault>::Err(Fault::UnmappedWrite { addr })
                && *final(self) == *old(self),
    {
        if addr < 0x2000 {
            self.wram.contents[addr as usize % 2048] = v;
            Ok(())
        } else if addr < 0x4000 {
            let idx = (addr - 0x2000) % 8;
            match idx {
                0 => self.ppu.regs.PPUCTRL = PPUCTRL::from_byte(v),
                1 => self.ppu.regs.PPUMASK = PPUMASK::from_byte(v),
                2 => self.ppu.regs.PPUSTATUS = PPUSTATUS::from_byte(v),
                3 => self.ppu.regs.OAMADDR = v,
                4 => self.ppu.regs.OAMDATA = v,
                5 => self.ppu.regs.PPUSCROLL = v,
                6 => self.ppu.regs.PPUADDR = v,
                _ => self.ppu.regs.PPUDATA = v,
            }
            Ok(())
        } else if addr < 0x4018 {
            // APU/IO stub: writes are dropped.
            Ok(())
        } else {
            Err(Fault::UnmappedWrite { addr })
        }
    }

    /// Reads `length` bytes, each decoded at its own (16-bit-wrapped)
    /// address. Fails on the first byte that falls into the unmapped
    /// area, and succeeds exactly when no byte does.
    pub fn read(&self, addr: u16, length: usize) -> (r: Result<Vec<u8>, Fault>)
        requires
            self.wf(),
            length <= 0x10000,
        ensures
            r is Ok <==> (forall|i: int|
                0 <= i < length ==> #[trigger] read_ok(((addr as int + i) % 0x10000) as u16)),
            r is Ok ==> {
                let bytes = r->Ok_0;
                &&& bytes@.len() == length
                &&& forall|i: int|
                    0 <= i < length ==> #[trigger] bytes@[i] == mem_byte(
                        self,
                        ((addr as int + i) % 0x10000) as u16,
                    )
            },
            r is Err ==> exists|i: int|
                0 <= i < length && r == Result::<Vec<u8>, Fault>::Err(
                    Fault::UnmappedRead { addr: ((addr as int + i) % 0x10000) as u16 },
                ) && !(#[trigger] read_ok(((addr as int + i) % 0x10000) as u16)),
    {
        let mut bytes: Vec<u8> = Vec::new();
        let mut i: usize = 0;
        while i < length
            invariant
                self.wf(),
                length <= 0x10000,
                i <= length,
                bytes@.len() == i,
                forall|j: int|
                    0 <= j < i ==> #[trigger] read_ok(((addr as int + j) % 0x10000) as u16),
                forall|j: int|
                    0 <= j < i ==> #[trigger] bytes@[j] == mem_byte(
                        self,
                        ((addr as int + j) % 0x10000) as u16,
                    ),
            decreases length - i,
        {
            let a: u16 = (((addr as u32) + (i as u32)) % 0x10000) as u16;
            assert(a == ((addr as int + i) % 0x10000) as u16);
            match self.read1(a) {
                Ok(v) => bytes.push(v),
                Err(f) => {
                    proof {
                        assert(!read_ok(((addr as int + i) % 0x10000) as u16));
                    }
                    return Err(f);
                },
            }
            i = i + 1;
        }
        Ok(bytes)
    }

    /// Writes the given bytes, each decoded at its own (16-bit-wrapped)
    /// address. Succeeds, and changes state, exactly when every byte lands
    /// in a writable area; otherwise reports the first offending address
    /// and leaves the system untouched.
    pub fn write(&mut self, addr: u16, bytes: &Vec<u8>) -> (r: Result<(), Fault>)
        requires
            old(self).wf(),
            bytes@.len() <= 0x10000,
        ensures
            final(self).wf(),
            r is Ok <==> (forall|i: int|
                0 <= i < bytes@.len() ==> #[trigger] write_ok(((addr as int + i) % 0x10000) as u16)),
            r is Ok ==> {
                &&& final(self).wram.contents@ == wram_after_n(old(self), addr, bytes@)
                &&& final(self).ppu.regs == regs_after_n(old(self), addr, bytes@)
                &&& frame_bus_write(old(self), final(self))
            },
            r is Err ==> *final(self) == *old(self) && exists|i: int|
                0 <= i < bytes@.len() && r == Result::<(), Fault>::Err(
                    Fault::UnmappedWrite { addr: ((addr as int + i) % 0x10000) as u16 },
                ) && !(#[trigger] write_ok(((addr as int + i) % 0x10000) as u16)),
    {
        // Check every target address first, so that a fatal write leaves
        // the system untouched.
        let mut i: usize = 0;
        let len = bytes.len();
        while i < len
            invariant
                old(self).wf(),
                *self == *old(self),
                len == bytes@.len(),
                len <= 0x10000,
                i <= len,
                forall|j: int| 0 <= j < i ==> #[trigger] write_ok(((addr as int + j) % 0x10000) as u16),
            decreases len - i,
        {
            let a: u16 = (((addr as u32) + (i as u32)) % 0x10000) as u16;
            assert(a == ((addr as int + i) % 0x10000) as u16);
            if a >= 0x4018 {
                proof {
                    assert(!write_ok(((addr as int + i) % 0x10000) as u16));
                }
                return Err(Fault::UnmappedWrite { addr: a });
            }
            i = i + 1;
        }
        let mut i: usize = 0;
        while i < len
            invariant
                old(self).wf(),
                self.wf(),
                len == bytes@.len(),
                len <= 0x10000,
                i <= len,
                forall|j: int| 0 <= j < len ==> #[trigger] write_ok(((addr as int + j) % 0x10000) as u16),
                self.wram.contents@ == wram_after_n(old(self), addr, bytes@.take(i as int)),
                self.ppu.regs == regs_after_n(old(self), addr, bytes@.take(i as int)),
                frame_bus_write(old(self), self),
            decreases len - i,
        {
            let a: u16 = (((addr as u32) + (i as u32)) % 0x10000) as u16;
            assert(a == ((addr as int + i) % 0x10000) as u16);
            let ghost pre = *self;
            let res = self.write1(a, bytes[i]);
            proof {
                assert(res is Ok);
                assert(bytes@.take(i + 1).drop_last() =~= bytes@.take(i as int));
                assert(bytes@.take(i + 1).last() == bytes@[i as int]);
                lemma_write_n_step(old(self), addr, bytes@.take(i + 1), &pre, self);
            }
            i = i + 1;
        }
        proof {
            assert(bytes@.take(len as int) =~= bytes@);
        }
        Ok(())
    }
}

/// Work RAM after writing a run of bytes starting at `addr`.
pub open spec fn wram_after_n(s: &NES, addr: u16, bytes: Seq<u8>) -> Seq<u8>
    decreases bytes.len(),
{
    if bytes.len() == 0 {
        s.wram.contents@
    } else {
        let prev = wram_after_n(s, addr, bytes.drop_last());
        let a = ((addr as int + bytes.len() - 1) % 0x10000) as u16;
        if a < 0x2000 {
            prev.update(a as int % 2048, bytes.last())
        } else {
            prev
        }
    }
}

/// The picture-unit registers after writing a run of bytes starting at
/// `addr`.
pub open spec fn regs_after_n(s: &NES, addr: u16, bytes: Seq<u8>) -> PPUREGS
    decreases bytes.len(),
{
    if bytes.len() == 0 {
        s.ppu.regs
    } else {
        let prev = regs_after_n(s, addr, bytes.drop_last());
        let a = ((addr as int + bytes.len() - 1) % 0x10000) as u16;
        if 0x2000 <= a && a < 0x4000 {
            reg_written(prev, (a - 0x2000) as int % 8, bytes.last())
        } else {
            prev
        }
    }
}

/// One step of the multi-byte write recursion: if `mid` holds the first
/// `n-1` writes and `post` adds the write of the last byte, then `post`
/// holds all `n`.
proof fn lemma_write_n_step(base: &NES, addr: u16, bytes: Seq<u8>, mid: &NES, post: &NES)
    requires
        bytes.len() >= 1,
        mid.wram.contents@ == wram_after_n(base, addr, bytes.drop_last()),
        mid.ppu.regs == regs_after_n(base, addr, bytes.drop_last()),
        post.wram.contents@ == wram_after(mid, ((addr as int + bytes.len() - 1) % 0x10000) as u16, bytes.last()),
        post.ppu.regs == regs_after(mid, ((addr as int + bytes.len() - 1) % 0x10000) as u16, bytes.last()),
    ensures
        post.wram.contents@ == wram_after_n(base, addr, bytes),
        post.ppu.regs == regs_after_n(base, addr, bytes),
{
}

/// Where a nametable (or mirror) address lands in video RAM.
pub open spec fn vram_base(addr: u16) -> int {
    if addr < 0x3000 {
        addr - 0x2000
    } else {
        addr - 0x3000
    }
}

/// `post` is `pre` with `bytes` laid over it starting at `base`.
pub open spec fn vram_written(pre: Seq<u8>, base: int, bytes: Seq<u8>, post: Seq<u8>) -> bool {
    &&& post.len() == pre.len()
    &&& forall|i: int|
        0 <= i < pre.len() ==> post[i] == (if base <= i && i < base + bytes.len() {
            bytes[i - base]
        } else {
            pre[i]
        })
}

impl Ppu {
    /// Whether a picture-unit bus access of `length` bytes at `addr` stays
    /// inside pattern storage, the nametables, or the nametable mirror.
    pub open spec fn ppu_range_ok(addr: int, length: int) -> bool {
        ||| addr + length <= 0x2000
        ||| (0x2000 <= addr && addr + length <= 0x2800)
        ||| (0x3000 <= addr && addr + length <= 0x3800)
    }

    /// The byte the picture unit sees at `addr`.
    pub open spec fn ppu_byte(&self, addr: int) -> u8 {
        if addr < 0x2000 {
            self.cart.chr_rom@[addr]
        } else if addr < 0x3000 {
            self.vram.contents@[addr - 0x2000]
        } else {
            self.vram.contents@[addr - 0x3000]
        }
    }

    /// Reads `length` bytes from the picture unit's own address space.
    pub fn read(&self, addr: u16, len: usize) -> (r: Vec<u8>)
        requires
            self.wf(),
            Ppu::ppu_range_ok(addr as int, len as int),
        ensures
            r@.len() == len,
            forall|i: int| 0 <= i < len ==> r@[i] == self.ppu_byte(addr as int + i),
    {
        let mut r: Vec<u8> = Vec::new();
        if addr < 0x2000 {
            r = self.cart.ppu_read(addr, len);
        } else if addr < 0x3000 {
            let base = addr - 0x2000;
            let mut i: usize = 0;
            while i < len
                invariant
                    self.wf(),
                    base as int + len <= 2048,
                    i <= len,
                    r@.len() == i,
                    forall|j: int| 0 <= j < i ==> r@[j] == self.vram.contents@[base as int + j],
                decreases len - i,
            {
                r.push(self.vram.contents[base as usize + i]);
                i = i + 1;
            }
        } else {
            let base = addr - 0x3000;
            let mut i: usize = 0;
            while i < len
                invariant
                    self.wf(),
                    base as int + len <= 2048,
                    i <= len,
                    r@.len() == i,
                    forall|j: int| 0 <= j < i ==> r@[j] == self.vram.contents@[base as int + j],
                decreases len - i,
            {
                r.push(self.vram.contents[base as usize + i]);
                i = i + 1;
            }
        }
        r
    }

    /// Writes through the picture unit's own address space: pattern
    /// storage takes each byte at the base address in turn (so the last
    /// byte sticks), the nametables and their mirror take the run in
    /// sequence.
    pub fn write(&mut self, addr: u16, bytes: &Vec<u8>)
        requires
            old(self).wf(),
            Ppu::ppu_range_ok(addr as int, bytes@.len() as int),
        ensures
            final(self).wf(),
            final(self).regs == old(self).regs,
            final(self).OAM@ == old(self).OAM@,
            final(self).frame@ == old(self).frame@,
            final(self).cart.prg_rom@ == old(self).cart.prg_rom@,
            final(self).cart.prg_ram@ == old(self).cart.prg_ram@,
            final(self).cur_dot == old(self).cur_dot,
            final(self).cur_line == old(self).cur_line,
            final(self).cycles == old(self).cycles,
            final(self).frames == old(self).frames,
            addr < 0x2000 ==> {
                &&& final(self).vram.contents@ == old(self).vram.contents@
                &&& (bytes@.len() == 0 ==> final(self).cart.chr_rom@ == old(self).cart.chr_rom@)
                &&& (bytes@.len() > 0 ==> final(self).cart.chr_rom@ == old(
                    self,
                ).cart.chr_rom@.update(addr as int, bytes@.last()))
            },
            addr >= 0x2000 ==> {
                &&& final(self).cart.chr_rom@ == old(self).cart.chr_rom@
                &&& vram_written(
                    old(self).vram.contents@,
                    vram_base(addr),
                    bytes@,
                    final(self).vram.contents@,
                )
            },
    {
        if addr < 0x2000 {
            let mut i: usize = 0;
            let len = bytes.len();
            while i < len
                invariant
                    old(self).wf(),
                    self.wf(),
                    addr < 0x2000,
                    len == bytes@.len(),
                    i <= len,
                    self.vram.contents@ == old(self).vram.contents@,
                    self.regs == old(self).regs,
                    self.OAM@ == old(self).OAM@,
                    self.frame@ == old(self).frame@,
                    self.cart.prg_rom@ == old(self).cart.prg_rom@,
                    self.cart.prg_ram@ == old(self).cart.prg_ram@,
                    self.cur_dot == old(self).cur_dot,
                    self.cur_line == old(self).cur_line,
                    self.cycles == old(self).cycles,
                    self.frames == old(self).frames,
                    i == 0 ==> self.cart.chr_rom@ == old(self).cart.chr_rom@,
                    i > 0 ==> self.cart.chr_rom@ == old(self).cart.chr_rom@.update(
                        addr as int,
                        bytes@[i - 1],
                    ),
                decreases len - i,
            {
                let ghost chr_pre = self.cart.chr_rom@;
                proof {
                    if i > 0 {
                        assert(chr_pre == old(self).cart.chr_rom@.update(
                            addr as int,
                            bytes@[i as int - 1],
                        ));
                    }
                }
                self.cart.ppu_write(addr, bytes[i]);
                proof {
                    assert(self.cart.chr_rom@ == chr_pre.update(addr as int, bytes@[i as int]));
                    if i > 0 {
                        assert(chr_pre.update(addr as int, bytes@[i as int]) =~= old(
                            self,
                        ).cart.chr_rom@.update(addr as int, bytes@[i as int]));
                    }
                }
                i = i + 1;
            }
        } else {
            let base: u16 = if addr < 0x3000 {
                addr - 0x2000
            } else {
                addr - 0x3000
            };
            let mut i: usize = 0;
            let len = bytes.len();
            while i < len
                invariant
                    old(self).wf(),
                    self.wf(),
                    old(self).vram.contents@.len() == 2048,
                    base as int + len <= 2048,
                    len == bytes@.len(),
                    i <= len,
                    self.cart.chr_rom@ == old(self).cart.chr_rom@,
                    self.cart.prg_rom@ == old(self).cart.prg_rom@,
                    self.cart.prg_ram@ == old(self).cart.prg_ram@,
                    self.regs == old(self).regs,
                    self.OAM@ == old(self).OAM@,
                    self.frame@ == old(self).frame@,
                    self.cur_dot == old(self).cur_dot,
                    self.cur_line == old(self).cur_line,
                    self.cycles == old(self).cycles,
                    self.frames == old(self).frames,
                    self.vram.contents@.len() == 2048,
                    forall|k: int|
                        0 <= k < 2048 ==> self.vram.contents@[k] == (if base <= k < base + i {
                            bytes@[k - base]
                        } else {
                            old(self).vram.contents@[k]
                        }),
                decreases len - i,
            {
                self.vram.contents[base as usize + i] = bytes[i];
                i = i + 1;
            }
        }
    }
}

} // verus!
