//! The cartridge: PRG-ROM (program code mapped into the upper half of the
//! CPU address space, mirrored modulo the bank size) and CHR-ROM (pattern
//! data visible to the picture unit), parsed from an iNES-style image:
//! a 16-byte header (byte 4 = PRG-ROM size in 16KB units, byte 5 = CHR-ROM
//! size in 8KB units, byte 6 bit 2 = trainer-present flag), PRG-ROM data
//! right after the header, CHR-ROM data after the PRG-ROM. Trainer-bearing
//! images are rejected; only a single fixed-mapping cartridge is modelled.

use vstd::prelude::*;

verus! {

/// PRG-ROM bank size; CPU reads in 0x8000-0xFFFF reduce modulo this.
pub const BANK_SIZE: usize = 16384;

/// CHR-ROM size the picture unit can address.
pub const CHR_SIZE: usize = 8192;

/// Why a cartridge image was rejected.
#[derive(Debug, Clone, Copy, PartialEq, Eq, Structural)]
pub enum CartError {
    /// The image is shorter than its header promises.
    TooShort,
    /// The image carries a trainer, which this cartridge model does not
    /// support.
    Trainer,
    /// The header declares no PRG-ROM at all.
    NoPrgRom,
}

#[derive(Debug, Clone)]
pub struct Cart {
    pub prg_rom: Vec<u8>,
    pub prg_ram: Vec<u8>,
    pub chr_rom: Vec<u8>,
}

/// Number of PRG-ROM bytes an image's header declares.
pub open spec fn prg_bytes_of(rom: Seq<u8>) -> int {
    rom[4] as int * BANK_SIZE as int
}

/// Number of CHR-ROM bytes an image's header declares.
pub open spec fn chr_bytes_of(rom: Seq<u8>) -> int {
    rom[5] as int * CHR_SIZE as int
}

/// Whether an image's header flags a trainer (byte 6, bit 2).
pub open spec fn has_trainer(rom: Seq<u8>) -> bool {
    rom[6] as int / 4 % 2 == 1
}

impl Cart {
    /// At least one PRG-ROM bank and a full CHR address space are present,
    /// so that mirrored reads always land in bounds.
    pub open spec fn wf(&self) -> bool {
        &&& self.prg_rom@.len() >= BANK_SIZE
        &&& self.chr_rom@.len() >= CHR_SIZE
    }

    /// Parses an iNES-style image. Returns the cartridge exactly when the
    /// image has a full header, declares at least one PRG-ROM bank, carries
    /// no trainer, and holds all the data its header declares; PRG-RAM
    /// starts zeroed, and a cartridge without CHR-ROM gets zeroed CHR
    /// storage instead.
    pub fn new(rom_raw: &[u8]) -> (r: Result<Cart, CartError>)
        ensures
            rom_raw@.len() < 16 ==> r == Result::<Cart, CartError>::Err(CartError::TooShort),
            rom_raw@.len() >= 16 && has_trainer(rom_raw@) ==> r == Result::<Cart, CartError>::Err(
                CartError::Trainer,
            ),
            rom_raw@.len() >= 16 && !has_trainer(rom_raw@) && rom_raw@[4] == 0 ==> r
                == Result::<Cart, CartError>::Err(CartError::NoPrgRom),
            rom_raw@.len() >= 16 && !has_trainer(rom_raw@) && rom_raw@[4] != 0 && rom_raw@.len()
                < 16 + prg_bytes_of(rom_raw@) + chr_bytes_of(rom_raw@) ==> r
                == Result::<Cart, CartError>::Err(CartError::TooShort),
            r is Ok <==> rom_raw@.len() >= 16 && !has_trainer(rom_raw@) && rom_raw@[4] != 0
                && rom_raw@.len() >= 16 + prg_bytes_of(rom_raw@) + chr_bytes_of(rom_raw@),
            r is Ok ==> {
                let c = r->Ok_0;
                &&& c.wf()
                &&& c.prg_rom@ == rom_raw@.subrange(16, 16 + prg_bytes_of(rom_raw@))
                &&& c.prg_ram@ == Seq::new(2048nat, |i: int| 0u8)
                &&& (rom_raw@[5] != 0 ==> c.chr_rom@ == rom_raw@.subrange(
                    16 + prg_bytes_of(rom_raw@),
                    16 + prg_bytes_of(rom_raw@) + chr_bytes_of(rom_raw@),
                ))
                &&& (rom_raw@[5] == 0 ==> c.chr_rom@ == Seq::new(CHR_SIZE as nat, |i: int| 0u8))
            },
    {
        if rom_raw.len() < 16 {
            return Err(CartError::TooShort);
        }
        let prg_rom_size = rom_raw[4];
        let chr_rom_size = rom_raw[5];
        let flags_6 = rom_raw[6];
        if flags_6 / 4 % 2 == 1 {
            return Err(CartError::Trainer);
        }
        if prg_rom_size == 0 {
            return Err(CartError::NoPrgRom);
        }
        let prg_bytes: usize = prg_rom_size as usize * BANK_SIZE;
        let chr_bytes: usize = chr_rom_size as usize * CHR_SIZE;
        if rom_raw.len() < 16 + prg_bytes || rom_raw.len() - 16 - prg_bytes < chr_bytes {
            return Err(CartError::TooShort);
        }
        let prg_rom = copy_range(rom_raw, 16, prg_bytes);
        let chr_rom = if chr_rom_size != 0 {
            copy_range(rom_raw, 16 + prg_bytes, chr_bytes)
        } else {
            let z = vec![0u8; CHR_SIZE];
            assert(z@ =~= Seq::new(CHR_SIZE as nat, |i: int| 0u8));
            z
        };
        let prg_ram = vec![0u8; 2048];
        assert(prg_ram@ =~= Seq::new(2048nat, |i: int| 0u8));
        Ok(Cart { prg_rom, prg_ram, chr_rom })
    }

    /// A CPU read of `length` bytes starting at `addr`, each byte taken
    /// from PRG-ROM at its address reduced modulo the bank size.
    pub fn cpu_read(&self, addr: u16, length: usize) -> (r: Vec<u8>)
        requires
            self.wf(),
            length <= BANK_SIZE,
        ensures
            r@.len() == length,
            forall|i: int|
                0 <= i < length ==> r@[i] == self.prg_rom@[(addr as int + i) % (
                BANK_SIZE as int)],
    {
        let mut r: Vec<u8> = Vec::new();
        let mut i: usize = 0;
        while i < length
            invariant
                self.wf(),
                length <= BANK_SIZE,
                i <= length,
                r@.len() == i,
                forall|j: int|
                    0 <= j < i ==> r@[j] == self.prg_rom@[(addr as int + j) % (BANK_SIZE as int)],
            decreases length - i,
        {
            let idx: usize = (addr as usize + i) % BANK_SIZE;
            r.push(self.prg_rom[idx]);
            i = i + 1;
        }
        r
    }

    /// Writes one byte into PRG-ROM storage at the mirrored address.
    pub fn cpu_write(&mut self, addr: u16, byte: u8)
        requires
            old(self).wf(),
        ensures
            final(self).wf(),
            final(self).prg_rom@ == old(self).prg_rom@.update(
                addr as int % (BANK_SIZE as int),
                byte,
            ),
            final(self).prg_ram@ == old(self).prg_ram@,
            final(self).chr_rom@ == old(self).chr_rom@,
    {
        let eff_addr: usize = addr as usize % BANK_SIZE;
        self.prg_rom[eff_addr] = byte;
    }

    /// A picture-unit read of `length` bytes of CHR-ROM starting at `addr`.
    pub fn ppu_read(&self, addr: u16, length: usize) -> (r: Vec<u8>)
        requires
            self.wf(),
            addr as int + length <= CHR_SIZE,
        ensures
            r@.len() == length,
            forall|i: int| 0 <= i < length ==> r@[i] == self.chr_rom@[addr as int + i],
    {
        let mut r: Vec<u8> = Vec::new();
        let mut i: usize = 0;
        while i < length
            invariant
                self.wf(),
                addr as int + length <= CHR_SIZE,
                i <= length,
                r@.len() == i,
                forall|j: int| 0 <= j < i ==> r@[j] == self.chr_rom@[addr as int + j],
            decreases length - i,
        {
            r.push(self.chr_rom[addr as usize + i]);
            i = i + 1;
        }
        r
    }

    /// Writes one byte of CHR storage.
    pub fn ppu_write(&mut self, addr: u16, byte: u8)
        requires
            old(self).wf(),
            addr < CHR_SIZE,
        ensures
            final(self).wf(),
            final(self).chr_rom@ == old(self).chr_rom@.update(addr as int, byte),
            final(self).prg_rom@ == old(self).prg_rom@,
            final(self).prg_ram@ == old(self).prg_ram@,
    {
        self.chr_rom[addr as usize] = byte;
    }
}

/// Copies `rom[start .. start + len]` into a fresh vector.
fn copy_range(rom: &[u8], start: usize, len: usize) -> (r: Vec<u8>)
    requires
        start + len <= rom@.len(),
    ensures
        r@ == rom@.subrange(start as int, start as int + len as int),
{
    let n: usize = rom.len();
    let mut r: Vec<u8> = Vec::new();
    let mut i: usize = 0;
    while i < len
        invariant
            n == rom@.len(),
            start + len <= rom@.len(),
            i <= len,
            r@.len() == i,
            forall|j: int| 0 <= j < i ==> r@[j] == rom@[start as int + j],
        decreases len - i,
    {
        r.push(rom[start + i]);
        i = i + 1;
    }
    assert(r@ =~= rom@.subrange(start as int, start as int + len as int));
    r
}

} // verus!
