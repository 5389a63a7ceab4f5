//! The processor state: program counter, accumulator, index registers,
//! stack pointer and the eight status flags, with the hardware-exact bit
//! layout of the status byte (N=7, V=6, B-high=5, B-low=4, D=3, I=2, Z=1,
//! C=0), and the stack discipline within page 1 of work RAM.

use vstd::prelude::*;
use vstd::string::StringExecFns;

use crate::text::{bit_char, hex2, hex4, push_bit, push_hex2, push_hex4};
use crate::wram::Wram;

verus! {

/// The register/flag summary that ends every trace line:
/// `A:xx X:xx Y:xx P:  N:n V:v B:hl D:d I:i Z:z C:c  SP:xx ` (with a
/// trailing space), all values in upper-case hex, flags as single bits.
pub open spec fn cpu_log_seq(c: Cpu) -> Seq<char> {
    "A:"@ + hex2(c.ACC) + " X:"@ + hex2(c.X) + " Y:"@ + hex2(c.Y) + " P:  N:"@ + bit_char(c.SR.N)
        + " V:"@ + bit_char(c.SR.V) + " B:"@ + bit_char(c.SR.BH) + bit_char(c.SR.BL) + " D:"@
        + bit_char(c.SR.D) + " I:"@ + bit_char(c.SR.I) + " Z:"@ + bit_char(c.SR.Z) + " C:"@
        + bit_char(c.SR.C) + "  SP:"@ + hex2(c.SP) + " "@
}

/// The status register as eight booleans.
#[allow(non_snake_case)]
#[derive(Debug, Clone, Copy, PartialEq, Eq, Structural)]
pub struct SR {
    pub N: bool,
    pub V: bool,
    pub BH: bool,
    pub BL: bool,
    pub D: bool,
    pub I: bool,
    pub Z: bool,
    pub C: bool,
}

/// The packed status byte of a flag set, per the documented bit layout.
pub open spec fn sr_byte(sr: SR) -> u8 {
    ((if sr.N {
        128int
    } else {
        0int
    }) + (if sr.V {
        64int
    } else {
        0int
    }) + (if sr.BH {
        32int
    } else {
        0int
    }) + (if sr.BL {
        16int
    } else {
        0int
    }) + (if sr.D {
        8int
    } else {
        0int
    }) + (if sr.I {
        4int
    } else {
        0int
    }) + (if sr.Z {
        2int
    } else {
        0int
    }) + (if sr.C {
        1int
    } else {
        0int
    })) as u8
}

/// The flag set unpacked from a status byte, per the documented bit layout.
pub open spec fn sr_from_byte(val: u8) -> SR {
    SR {
        N: val as int / 128 % 2 == 1,
        V: val as int / 64 % 2 == 1,
        BH: val as int / 32 % 2 == 1,
        BL: val as int / 16 % 2 == 1,
        D: val as int / 8 % 2 == 1,
        I: val as int / 4 % 2 == 1,
        Z: val as int / 2 % 2 == 1,
        C: val as int % 2 == 1,
    }
}

/// The signed (two's-complement) reading of a byte, used by relative
/// branches and by the negative flag.
pub open spec fn sval(b: u8) -> int {
    if b < 128 {
        b as int
    } else {
        b as int - 256
    }
}

impl SR {
    /// Packs the eight flags into the status byte.
    pub fn decode(&self) -> (r: u8)
        ensures
            r == sr_byte(*self),
    {
        let mut ret_field: u8 = 0;
        if self.N {
            ret_field += 128;
        }
        if self.V {
            ret_field += 64;
        }
        if self.BH {
            ret_field += 32;
        }
        if self.BL {
            ret_field += 16;
        }
        if self.D {
            ret_field += 8;
        }
        if self.I {
            ret_field += 4;
        }
        if self.Z {
            ret_field += 2;
        }
        if self.C {
            ret_field += 1;
        }
        ret_field
    }

    /// Unpacks a status byte into the eight flags.
    pub fn encode(&mut self, val: u8)
        ensures
            *final(self) == sr_from_byte(val),
    {
        self.N = val / 128 % 2 == 1;
        self.V = val / 64 % 2 == 1;
        self.BH = val / 32 % 2 == 1;
        self.BL = val / 16 % 2 == 1;
        self.D = val / 8 % 2 == 1;
        self.I = val / 4 % 2 == 1;
        self.Z = val / 2 % 2 == 1;
        self.C = val % 2 == 1;
    }

    /// All flags clear.
    pub fn new() -> (r: Self)
        ensures
            r == (SR { N: false, V: false, BH: false, BL: false, D: false, I: false, Z: false, C: false }),
    {
        SR { N: false, V: false, BH: false, BL: false, D: false, I: false, Z: false, C: false }
    }
}

/// The register file.
#[allow(non_snake_case)]
#[derive(Debug, Clone, Copy, PartialEq, Eq, Structural)]
pub struct Cpu {
    pub PC: u16,
    pub ACC: u8,
    pub X: u8,
    pub Y: u8,
    pub SR: SR,
    pub SP: u8,
}

/// The boot-time register file: SP at 0xFD, flags decoded from 0x24
/// (interrupt-disable and B-high set), everything else zero.
pub open spec fn boot_cpu() -> Cpu {
    Cpu {
        PC: 0,
        ACC: 0,
        X: 0,
        Y: 0,
        SR: sr_from_byte(0x24),
        SP: 0xFD,
    }
}

impl Cpu {
    /// The register file as it stands at boot.
    pub fn new() -> (r: Self)
        ensures
            r == boot_cpu(),
    {
        let mut our_cpu = Cpu { PC: 0, ACC: 0, X: 0, Y: 0, SR: SR::new(), SP: 0xFD };
        our_cpu.SR.encode(0x24);
        our_cpu
    }

    /// Pushes a byte: writes at 0x0100 + SP within page 1 of work RAM, then
    /// decrements SP, wrapping silently within 8 bits.
    pub fn push(&mut self, wram: &mut Wram, val: u8)
        requires
            old(wram).wf(),
        ensures
            final(wram).wf(),
            final(wram).contents@ == old(wram).contents@.update(
                256 + old(self).SP as int,
                val,
            ),
            *final(self) == (Cpu { SP: ((old(self).SP as int + 255) % 256) as u8, ..*old(self) }),
    {
        let addr: usize = 256 + self.SP as usize;
        wram.contents[addr] = val;
        self.SP = (((self.SP as u16) + 255) % 256) as u8;
    }

    /// Pops a byte: increments SP, wrapping silently within 8 bits, then
    /// reads at 0x0100 + SP within page 1 of work RAM.
    pub fn pop(&mut self, wram: &mut Wram) -> (r: u8)
        requires
            old(wram).wf(),
        ensures
            final(wram).wf(),
            final(wram).contents@ == old(wram).contents@,
            *final(self) == (Cpu { SP: ((old(self).SP as int + 1) % 256) as u8, ..*old(self) }),
            r == old(wram).contents@[256 + (old(self).SP as int + 1) % 256],
    {
        self.SP = (((self.SP as u16) + 1) % 256) as u8;
        let addr: usize = 256 + self.SP as usize;
        wram.contents[addr]
    }

    /// The register/flag summary that ends every trace line.
    pub fn fmt_log(&self) -> (r: String)
        ensures
            r@ == cpu_log_seq(*self),
    {
        let mut s = String::new();
        s.append("A:");
        push_hex2(&mut s, self.ACC);
        s.append(" X:");
        push_hex2(&mut s, self.X);
        s.append(" Y:");
        push_hex2(&mut s, self.Y);
        s.append(" P:  N:");
        push_bit(&mut s, self.SR.N);
        s.append(" V:");
        push_bit(&mut s, self.SR.V);
        s.append(" B:");
        push_bit(&mut s, self.SR.BH);
        push_bit(&mut s, self.SR.BL);
        s.append(" D:");
        push_bit(&mut s, self.SR.D);
        s.append(" I:");
        push_bit(&mut s, self.SR.I);
        s.append(" Z:");
        push_bit(&mut s, self.SR.Z);
        s.append(" C:");
        push_bit(&mut s, self.SR.C);
        s.append("  SP:");
        push_hex2(&mut s, self.SP);
        s.append(" ");
        assert(s@ =~= cpu_log_seq(*self));
        s
    }

    /// The register file rendered one field per line, for a front end that
    /// cannot show embedded newlines.
    pub fn fmt_for_tui(&self) -> (r: Vec<String>)
        ensures
            r@.len() == 7,
            r@[0]@ == "PC:  "@ + hex4(self.PC),
            r@[1]@ == "ACC: "@ + hex2(self.ACC),
            r@[2]@ == "X:   "@ + hex2(self.X),
            r@[3]@ == "Y:   "@ + hex2(self.Y),
            r@[4]@ == "SP:  "@ + hex2(self.SP),
            r@[5]@ == "SR:  "@ + hex2(sr_byte(self.SR)),
            r@[6]@ == "     N:"@ + bit_char(self.SR.N) + " V:"@ + bit_char(self.SR.V) + " BH:"@
                + bit_char(self.SR.BH) + " BL:"@ + bit_char(self.SR.BL) + " D:"@ + bit_char(
                self.SR.D,
            ) + " I:"@ + bit_char(self.SR.I) + " Z:"@ + bit_char(self.SR.Z) + " C:"@ + bit_char(
                self.SR.C,
            ),
    {
        let mut ret_vec: Vec<String> = Vec::new();
        let mut line = String::from_str("PC:  ");
        push_hex4(&mut line, self.PC);
        ret_vec.push(line);
        let mut line = String::from_str("ACC: ");
        push_hex2(&mut line, self.ACC);
        ret_vec.push(line);
        let mut line = String::from_str("X:   ");
        push_hex2(&mut line, self.X);
        ret_vec.push(line);
        let mut line = String::from_str("Y:   ");
        push_hex2(&mut line, self.Y);
        ret_vec.push(line);
        let mut line = String::from_str("SP:  ");
        push_hex2(&mut line, self.SP);
        ret_vec.push(line);
        let mut line = String::from_str("SR:  ");
        push_hex2(&mut line, self.SR.decode());
        ret_vec.push(line);
        let mut line = String::from_str("     N:");
        push_bit(&mut line, self.SR.N);
        line.append(" V:");
        push_bit(&mut line, self.SR.V);
        line.append(" BH:");
        push_bit(&mut line, self.SR.BH);
        line.append(" BL:");
        push_bit(&mut line, self.SR.BL);
        line.append(" D:");
        push_bit(&mut line, self.SR.D);
        line.append(" I:");
        push_bit(&mut line, self.SR.I);
        line.append(" Z:");
        push_bit(&mut line, self.SR.Z);
        line.append(" C:");
        push_bit(&mut line, self.SR.C);
        assert(line@ =~= "     N:"@ + bit_char(self.SR.N) + " V:"@ + bit_char(self.SR.V) + " BH:"@
            + bit_char(self.SR.BH) + " BL:"@ + bit_char(self.SR.BL) + " D:"@ + bit_char(self.SR.D)
            + " I:"@ + bit_char(self.SR.I) + " Z:"@ + bit_char(self.SR.Z) + " C:"@ + bit_char(
            self.SR.C,
        ));
        ret_vec.push(line);
        ret_vec
    }
}

} // verus!
