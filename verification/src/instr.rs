//! The opcode table: for every documented and undocumented opcode byte,
//! its printable mnemonic, instruction length in bytes, and base cycle
//! cost, as a dense 256-entry lookup table built once at startup.

use vstd::prelude::*;
use vstd::pervasive::unreached;

use crate::nes::{b2_of, handler_contract, wadd16, wadd8, wsub8, AddrMode, Fault, NES};

verus! {

/// Metadata of one opcode.
#[derive(Debug, Clone)]
pub struct InstrData {
    /// Printable mnemonic (undocumented opcodes carry a `*` prefix).
    pub name: String,
    /// Instruction length in bytes, including the opcode itself.
    pub len: usize,
    /// Base cycle cost, before addressing and branch penalties.
    pub cycles: usize,
}

impl InstrData {
    pub fn new(name: &str, len: usize, cycles: usize) -> (r: Self)
        ensures
            r.name@ == name@,
            r.len == len,
            r.cycles == cycles,
    {
        InstrData { name: name.to_owned(), len, cycles }
    }
}

/// The dense opcode table, indexed by opcode byte.
#[derive(Debug, Clone)]
pub struct Instr {
    pub instrs: Vec<Option<InstrData>>,
}

impl Instr {
    /// The table has all 256 slots and each slot agrees with the opcode
    /// specification.
    pub open spec fn wf(&self) -> bool {
        &&& self.instrs@.len() == 256
        &&& forall|op: int|
            0 <= op < 256 ==> {
                &&& (self.instrs@[op] is Some <==> op_known(op as u8))
                &&& (self.instrs@[op] is Some ==> {
                    let d = self.instrs@[op]->Some_0;
                    &&& d.name@ == op_name(op as u8)
                    &&& d.len == op_len(op as u8)
                    &&& d.cycles == op_cycles(op as u8)
                })
            }
    }

    /// Builds the table.
    pub fn new() -> (r: Self)
        ensures
            r.wf(),
    {
        let mut instrs: Vec<Option<InstrData>> = Vec::new();
        let mut op: usize = 0;
        while op < 256
            invariant
                op <= 256,
                instrs@.len() == op,
                forall|j: int|
                    0 <= j < op ==> {
                        &&& (#[trigger] instrs@[j] is Some <==> op_known(j as u8))
                        &&& (instrs@[j] is Some ==> {
                            let d = instrs@[j]->Some_0;
                            &&& d.name@ == op_name(j as u8)
                            &&& d.len == op_len(j as u8)
                            &&& d.cycles == op_cycles(j as u8)
                        })
                    },
            decreases 256 - op,
        {
            instrs.push(instr_entry(op as u8));
            op = op + 1;
        }
        Instr { instrs }
    }

    /// Looks an opcode up; `None` marks an unemulated opcode, which is a
    /// fatal condition when hit during execution.
    pub fn get(&self, op: u8) -> (r: Option<&InstrData>)
        requires
            self.wf(),
        ensures
            r is Some <==> op_known(op),
            r is Some ==> {
                let d = r->Some_0;
                &&& d.name@ == op_name(op)
                &&& d.len == op_len(op)
                &&& d.cycles == op_cycles(op)
            },
    {
        match &self.instrs[op as usize] {
            Some(d) => Some(d),
            None => None,
        }
    }
}

/// Opcodes of the ADC family.
pub open spec fn is_adc(op: u8) -> bool {
    op == 0x61 || op == 0x65 || op == 0x69 || op == 0x6D || op == 0x71 || op == 0x75 || op == 0x79 || op == 0x7D
}

/// Opcodes of the AND family.
pub open spec fn is_and(op: u8) -> bool {
    op == 0x21 || op == 0x25 || op == 0x29 || op == 0x2D || op == 0x31 || op == 0x35 || op == 0x39 || op == 0x3D
}

/// Opcodes of the ASL family.
pub open spec fn is_asl(op: u8) -> bool {
    op == 0x06 || op == 0x0A || op == 0x0E || op == 0x16 || op == 0x1E
}

/// Opcodes of the BIT family.
pub open spec fn is_bit(op: u8) -> bool {
    op == 0x24 || op == 0x2C
}

/// Opcodes of the CMP family.
pub open spec fn is_cmp(op: u8) -> bool {
    op == 0xC1 || op == 0xC5 || op == 0xC9 || op == 0xCD || op == 0xD1 || op == 0xD5 || op == 0xD9 || op == 0xDD
}

/// Opcodes of the CPX family.
pub open spec fn is_cpx(op: u8) -> bool {
    op == 0xE0 || op == 0xE4 || op == 0xEC
}

/// Opcodes of the CPY family.
pub open spec fn is_cpy(op: u8) -> bool {
    op == 0xC0 || op == 0xC4 || op == 0xCC
}

/// Opcodes of the DEC family.
pub open spec fn is_dec(op: u8) -> bool {
    op == 0xC6 || op == 0xCE || op == 0xD6 || op == 0xDE
}

/// Opcodes of the EOR family.
pub open spec fn is_eor(op: u8) -> bool {
    op == 0x41 || op == 0x45 || op == 0x49 || op == 0x4D || op == 0x51 || op == 0x55 || op == 0x59 || op == 0x5D
}

/// Opcodes of the INC family.
pub open spec fn is_inc(op: u8) -> bool {
    op == 0xE6 || op == 0xEE || op == 0xF6 || op == 0xFE
}

/// Opcodes of the JMP family.
pub open spec fn is_jmp(op: u8) -> bool {
    op == 0x4C || op == 0x6C
}

/// Opcodes of the LDA family.
pub open spec fn is_lda(op: u8) -> bool {
    op == 0xA1 || op == 0xA5 || op == 0xA9 || op == 0xAD || op == 0xB1 || op == 0xB5 || op == 0xB9 || op == 0xBD
}

/// Opcodes of the LDX family.
pub open spec fn is_ldx(op: u8) -> bool {
    op == 0xA2 || op == 0xA6 || op == 0xAE || op == 0xB6 || op == 0xBE
}

/// Opcodes of the LDY family.
pub open spec fn is_ldy(op: u8) -> bool {
    op == 0xA0 || op == 0xA4 || op == 0xAC || op == 0xB4 || op == 0xBC
}

/// Opcodes of the LSR family.
pub open spec fn is_lsr(op: u8) -> bool {
    op == 0x46 || op == 0x4A || op == 0x4E || op == 0x56 || op == 0x5E
}

/// Opcodes of the ORA family.
pub open spec fn is_ora(op: u8) -> bool {
    op == 0x01 || op == 0x05 || op == 0x09 || op == 0x0D || op == 0x11 || op == 0x15 || op == 0x19 || op == 0x1D
}

/// Opcodes of the ROL family.
pub open spec fn is_rol(op: u8) -> bool {
    op == 0x26 || op == 0x2A || op == 0x2E || op == 0x36 || op == 0x3E
}

/// Opcodes of the ROR family.
pub open spec fn is_ror(op: u8) -> bool {
    op == 0x66 || op == 0x6A || op == 0x6E || op == 0x76 || op == 0x7E
}

/// Opcodes of the SBC family.
pub open spec fn is_sbc(op: u8) -> bool {
    op == 0xE1 || op == 0xE5 || op == 0xE9 || op == 0xED || op == 0xF1 || op == 0xF5 || op == 0xF9 || op == 0xFD
}

/// Opcodes of the STA family.
pub open spec fn is_sta(op: u8) -> bool {
    op == 0x81 || op == 0x85 || op == 0x8D || op == 0x91 || op == 0x95 || op == 0x99 || op == 0x9D
}

/// Opcodes of the STX family.
pub open spec fn is_stx(op: u8) -> bool {
    op == 0x86 || op == 0x8E || op == 0x96
}

/// Opcodes of the STY family.
pub open spec fn is_sty(op: u8) -> bool {
    op == 0x84 || op == 0x8C || op == 0x94
}

/// Opcodes of the *NOP family.
pub open spec fn is_inop(op: u8) -> bool {
    op == 0x04 || op == 0x0C || op == 0x14 || op == 0x1A || op == 0x1C || op == 0x34 || op == 0x3A || op == 0x3C || op == 0x44 || op == 0x54 || op == 0x5A || op == 0x5C || op == 0x64 || op == 0x74 || op == 0x7A || op == 0x7C || op == 0x80 || op == 0x82 || op == 0x89 || op == 0xC2 || op == 0xD4 || op == 0xDA || op == 0xDC || op == 0xE2 || op == 0xF4 || op == 0xFA || op == 0xFC
}

/// Opcodes of the *LAX family.
pub open spec fn is_ilax(op: u8) -> bool {
    op == 0xA3 || op == 0xA7 || op == 0xAF || op == 0xB3 || op == 0xB7 || op == 0xBF
}

/// Opcodes of the *SAX family.
pub open spec fn is_isax(op: u8) -> bool {
    op == 0x83 || op == 0x87 || op == 0x8F || op == 0x97
}

/// Opcodes of the *DCP family.
pub open spec fn is_idcp(op: u8) -> bool {
    op == 0xC3 || op == 0xC7 || op == 0xCF || op == 0xD3 || op == 0xD7 || op == 0xDB || op == 0xDF
}

/// Opcodes of the *ISB family.
pub open spec fn is_iisb(op: u8) -> bool {
    op == 0xE3 || op == 0xE7 || op == 0xEF || op == 0xF3 || op == 0xF7 || op == 0xFB || op == 0xFF
}

/// Opcodes of the *SLO family.
pub open spec fn is_islo(op: u8) -> bool {
    op == 0x03 || op == 0x07 || op == 0x0F || op == 0x13 || op == 0x17 || op == 0x1B || op == 0x1F
}

/// Opcodes of the *RLA family.
pub open spec fn is_irla(op: u8) -> bool {
    op == 0x23 || op == 0x27 || op == 0x2F || op == 0x33 || op == 0x37 || op == 0x3B || op == 0x3F
}

/// Opcodes of the *SRE family.
pub open spec fn is_isre(op: u8) -> bool {
    op == 0x43 || op == 0x47 || op == 0x4F || op == 0x53 || op == 0x57 || op == 0x5B || op == 0x5F
}

/// Opcodes of the *RRA family.
pub open spec fn is_irra(op: u8) -> bool {
    op == 0x63 || op == 0x67 || op == 0x6F || op == 0x73 || op == 0x77 || op == 0x7B || op == 0x7F
}

/// Opcodes with an implied operand (no addressing mode, length 1).
pub open spec fn is_implied(op: u8) -> bool {
    op == 0x00 || op == 0x18 || op == 0xD8 || op == 0x58 || op == 0xB8 || op == 0xCA || op == 0x88 || op == 0xE8 || op == 0xC8 || op == 0xEA || op == 0x48 || op == 0x08 || op == 0x68 || op == 0x28 || op == 0x40 || op == 0x60 || op == 0x38 || op == 0xF8 || op == 0x78 || op == 0xAA || op == 0xA8 || op == 0xBA || op == 0x8A || op == 0x9A || op == 0x98 || op == 0x1A || op == 0x3A || op == 0x5A || op == 0x7A || op == 0xDA || op == 0xFA
}

/// The addressing mode of an opcode with an operand.
pub open spec fn op_mode(op: u8) -> Option<AddrMode> {
    if op == 0x09 || op == 0x29 || op == 0x49 || op == 0x69 || op == 0x80 || op == 0x82 || op == 0x89 || op == 0xA0 || op == 0xA2 || op == 0xA9 || op == 0xC0 || op == 0xC2 || op == 0xC9 || op == 0xE0 || op == 0xE2 || op == 0xE9 || op == 0xEB {
        Some(AddrMode::IMM)
    } else if op == 0x04 || op == 0x05 || op == 0x06 || op == 0x07 || op == 0x24 || op == 0x25 || op == 0x26 || op == 0x27 || op == 0x44 || op == 0x45 || op == 0x46 || op == 0x47 || op == 0x64 || op == 0x65 || op == 0x66 || op == 0x67 || op == 0x84 || op == 0x85 || op == 0x86 || op == 0x87 || op == 0xA4 || op == 0xA5 || op == 0xA6 || op == 0xA7 || op == 0xC4 || op == 0xC5 || op == 0xC6 || op == 0xC7 || op == 0xE4 || op == 0xE5 || op == 0xE6 || op == 0xE7 {
        Some(AddrMode::ZPG)
    } else if op == 0x14 || op == 0x15 || op == 0x16 || op == 0x17 || op == 0x34 || op == 0x35 || op == 0x36 || op == 0x37 || op == 0x54 || op == 0x55 || op == 0x56 || op == 0x57 || op == 0x74 || op == 0x75 || op == 0x76 || op == 0x77 || op == 0x94 || op == 0x95 || op == 0xB4 || op == 0xB5 || op == 0xD4 || op == 0xD5 || op == 0xD6 || op == 0xD7 || op == 0xF4 || op == 0xF5 || op == 0xF6 || op == 0xF7 {
        Some(AddrMode::ZPGX)
    } else if op == 0x96 || op == 0x97 || op == 0xB6 || op == 0xB7 {
        Some(AddrMode::ZPGY)
    } else if op == 0x0C || op == 0x0D || op == 0x0E || op == 0x0F || op == 0x20 || op == 0x2C || op == 0x2D || op == 0x2E || op == 0x2F || op == 0x4C || op == 0x4D || op == 0x4E || op == 0x4F || op == 0x6D || op == 0x6E || op == 0x6F || op == 0x8C || op == 0x8D || op == 0x8E || op == 0x8F || op == 0xAC || op == 0xAD || op == 0xAE || op == 0xAF || op == 0xCC || op == 0xCD || op == 0xCE || op == 0xCF || op == 0xEC || op == 0xED || op == 0xEE || op == 0xEF {
        Some(AddrMode::ABS)
    } else if op == 0x1C || op == 0x1D || op == 0x1E || op == 0x1F || op == 0x3C || op == 0x3D || op == 0x3E || op == 0x3F || op == 0x5C || op == 0x5D || op == 0x5E || op == 0x5F || op == 0x7C || op == 0x7D || op == 0x7E || op == 0x7F || op == 0x9D || op == 0xBC || op == 0xBD || op == 0xDC || op == 0xDD || op == 0xDE || op == 0xDF || op == 0xFC || op == 0xFD || op == 0xFE || op == 0xFF {
        Some(AddrMode::ABSX)
    } else if op == 0x19 || op == 0x1B || op == 0x39 || op == 0x3B || op == 0x59 || op == 0x5B || op == 0x79 || op == 0x7B || op == 0x99 || op == 0xB9 || op == 0xBE || op == 0xBF || op == 0xD9 || op == 0xDB || op == 0xF9 || op == 0xFB {
        Some(AddrMode::ABSY)
    } else if op == 0x6C {
        Some(AddrMode::IND)
    } else if op == 0x01 || op == 0x03 || op == 0x21 || op == 0x23 || op == 0x41 || op == 0x43 || op == 0x61 || op == 0x63 || op == 0x81 || op == 0x83 || op == 0xA1 || op == 0xA3 || op == 0xC1 || op == 0xC3 || op == 0xE1 || op == 0xE3 {
        Some(AddrMode::INDX)
    } else if op == 0x11 || op == 0x13 || op == 0x31 || op == 0x33 || op == 0x51 || op == 0x53 || op == 0x71 || op == 0x73 || op == 0x91 || op == 0xB1 || op == 0xB3 || op == 0xD1 || op == 0xD3 || op == 0xF1 || op == 0xF3 {
        Some(AddrMode::INDY)
    } else if op == 0x10 || op == 0x30 || op == 0x50 || op == 0x70 || op == 0x90 || op == 0xB0 || op == 0xD0 || op == 0xF0 {
        Some(AddrMode::REL)
    } else if op == 0x0A || op == 0x2A || op == 0x4A || op == 0x6A {
        Some(AddrMode::ACC)
    } else {
        None
    }
}

/// Whether the opcode is in the table.
pub open spec fn op_known(op: u8) -> bool {
    is_implied(op) || op_mode(op) is Some
}

/// Instruction length in bytes of a known opcode (0 marks an opcode with
/// no table entry).
pub open spec fn op_len(op: u8) -> nat {
    if is_implied(op) {
        1
    } else {
        match op_mode(op) {
            Some(m) => mode_len(m),
            None => 0,
        }
    }
}

/// Operand bytes per addressing mode, plus one for the opcode itself.
pub open spec fn mode_len(m: AddrMode) -> nat {
    match m {
        AddrMode::ACC => 1,
        AddrMode::IMM | AddrMode::ZPG | AddrMode::ZPGX | AddrMode::ZPGY | AddrMode::INDX
            | AddrMode::INDY | AddrMode::REL => 2,
        AddrMode::ABS | AddrMode::ABSX | AddrMode::ABSY | AddrMode::IND => 3,
    }
}

/// Base cycles of the plain read instructions, by mode.
pub open spec fn read_cycles(m: AddrMode) -> nat {
    match m {
        AddrMode::IMM => 2,
        AddrMode::ZPG => 3,
        AddrMode::ZPGX | AddrMode::ZPGY => 4,
        AddrMode::ABS | AddrMode::ABSX | AddrMode::ABSY => 4,
        AddrMode::INDX => 6,
        AddrMode::INDY => 5,
        _ => 0,
    }
}

/// Base cycles of the documented read-modify-write instructions, by mode.
pub open spec fn rmw_cycles(m: AddrMode) -> nat {
    match m {
        AddrMode::ACC => 2,
        AddrMode::ZPG => 5,
        AddrMode::ZPGX => 6,
        AddrMode::ABS => 6,
        AddrMode::ABSX => 7,
        _ => 0,
    }
}

/// Base cycles of the undocumented read-modify-write composites, by mode.
pub open spec fn urmw_cycles(m: AddrMode) -> nat {
    match m {
        AddrMode::ZPG => 5,
        AddrMode::ZPGX => 6,
        AddrMode::ABS => 6,
        AddrMode::ABSX | AddrMode::ABSY => 7,
        AddrMode::INDX | AddrMode::INDY => 8,
        _ => 0,
    }
}

/// Base cycles of STA, by mode (stores never take the page-cross penalty;
/// the indexed modes carry it in the base cost).
pub open spec fn sta_cycles(m: AddrMode) -> nat {
    match m {
        AddrMode::ZPG => 3,
        AddrMode::ZPGX => 4,
        AddrMode::ABS => 4,
        AddrMode::ABSX | AddrMode::ABSY => 5,
        AddrMode::INDX | AddrMode::INDY => 6,
        _ => 0,
    }
}

/// Base cycles of the other stores (STX, STY, SAX), by mode.
pub open spec fn store_cycles(m: AddrMode) -> nat {
    match m {
        AddrMode::ZPG => 3,
        AddrMode::ZPGX | AddrMode::ZPGY => 4,
        AddrMode::ABS => 4,
        AddrMode::INDX => 6,
        _ => 0,
    }
}

/// The instructions whose operand is a plain read.
pub open spec fn is_read_op(op: u8) -> bool {
    is_adc(op) || is_and(op) || is_cmp(op) || is_cpx(op) || is_cpy(op) || is_eor(op) || is_lda(
        op,
    ) || is_ldx(op) || is_ldy(op) || is_ora(op) || is_sbc(op) || is_bit(op) || is_ilax(op) || op
        == 0xEB || (is_inop(op) && !is_implied(op))
}

/// The documented read-modify-write instructions.
pub open spec fn is_rmw_op(op: u8) -> bool {
    is_asl(op) || is_lsr(op) || is_rol(op) || is_ror(op) || is_inc(op) || is_dec(op)
}

/// The undocumented read-modify-write composites.
pub open spec fn is_urmw_op(op: u8) -> bool {
    is_idcp(op) || is_iisb(op) || is_islo(op) || is_irla(op) || is_isre(op) || is_irra(op)
}

/// Base cycle cost of a known opcode.
pub open spec fn op_cycles(op: u8) -> nat {
    if op == 0x20 {
        6
    } else if op == 0x4C {
        3
    } else if op == 0x6C {
        5
    } else if is_read_op(op) {
        read_cycles(op_mode(op)->Some_0)
    } else if is_rmw_op(op) {
        rmw_cycles(op_mode(op)->Some_0)
    } else if is_urmw_op(op) {
        urmw_cycles(op_mode(op)->Some_0)
    } else if is_sta(op) {
        sta_cycles(op_mode(op)->Some_0)
    } else if is_stx(op) || is_sty(op) || is_isax(op) {
        store_cycles(op_mode(op)->Some_0)
    } else if op_mode(op) == Some(AddrMode::REL) {
        2
    } else if op == 0x00 {
        7
    } else if op == 0x40 || op == 0x60 {
        6
    } else if op == 0x48 || op == 0x08 {
        3
    } else if op == 0x68 || op == 0x28 {
        4
    } else if is_implied(op) {
        2
    } else {
        0
    }
}

/// Whether the value fetch of this opcode is page-cross penalty
/// eligible (the indexed read instructions).
pub open spec fn read_penalty(op: u8) -> bool {
    op == 0x11 || op == 0x19 || op == 0x1C || op == 0x1D || op == 0x31 || op == 0x39 || op == 0x3C || op == 0x3D || op == 0x51 || op == 0x59 || op == 0x5C || op == 0x5D || op == 0x71 || op == 0x79 || op == 0x7C || op == 0x7D || op == 0xB1 || op == 0xB3 || op == 0xB9 || op == 0xBC || op == 0xBD || op == 0xBE || op == 0xBF || op == 0xD1 || op == 0xD9 || op == 0xDC || op == 0xDD || op == 0xF1 || op == 0xF9 || op == 0xFC || op == 0xFD
}

/// Whether the write-back address computation of this opcode is
/// page-cross penalty eligible (the documented read-modify-write
/// instructions on memory).
pub open spec fn wb_penalty(op: u8) -> bool {
    is_rmw_op(op) && op_mode(op) != Some(AddrMode::ACC)
}

/// Mnemonic of a known opcode.
pub open spec fn op_name(op: u8) -> Seq<char> {
    if is_adc(op) {
        "ADC"@
    } else if is_and(op) {
        "AND"@
    } else if is_asl(op) {
        "ASL"@
    } else if is_bit(op) {
        "BIT"@
    } else if is_cmp(op) {
        "CMP"@
    } else if is_cpx(op) {
        "CPX"@
    } else if is_cpy(op) {
        "CPY"@
    } else if is_dec(op) {
        "DEC"@
    } else if is_eor(op) {
        "EOR"@
    } else if is_inc(op) {
        "INC"@
    } else if is_jmp(op) {
        "JMP"@
    } else if is_lda(op) {
        "LDA"@
    } else if is_ldx(op) {
        "LDX"@
    } else if is_ldy(op) {
        "LDY"@
    } else if is_lsr(op) {
        "LSR"@
    } else if is_ora(op) {
        "ORA"@
    } else if is_rol(op) {
        "ROL"@
    } else if is_ror(op) {
        "ROR"@
    } else if is_sbc(op) {
        "SBC"@
    } else if is_sta(op) {
        "STA"@
    } else if is_stx(op) {
        "STX"@
    } else if is_sty(op) {
        "STY"@
    } else if is_inop(op) {
        "*NOP"@
    } else if is_ilax(op) {
        "*LAX"@
    } else if is_isax(op) {
        "*SAX"@
    } else if is_idcp(op) {
        "*DCP"@
    } else if is_iisb(op) {
        "*ISB"@
    } else if is_islo(op) {
        "*SLO"@
    } else if is_irla(op) {
        "*RLA"@
    } else if is_isre(op) {
        "*SRE"@
    } else if is_irra(op) {
        "*RRA"@
    } else if op == 0x00 {
        "BRK"@
    } else if op == 0x08 {
        "PHP"@
    } else if op == 0x10 {
        "BPL"@
    } else if op == 0x18 {
        "CLC"@
    } else if op == 0x20 {
        "JSR"@
    } else if op == 0x28 {
        "PLP"@
    } else if op == 0x30 {
        "BMI"@
    } else if op == 0x38 {
        "SEC"@
    } else if op == 0x40 {
        "RTI"@
    } else if op == 0x48 {
        "PHA"@
    } else if op == 0x50 {
        "BVC"@
    } else if op == 0x58 {
        "CLI"@
    } else if op == 0x60 {
        "RTS"@
    } else if op == 0x68 {
        "PLA"@
    } else if op == 0x70 {
        "BVS"@
    } else if op == 0x78 {
        "SEI"@
    } else if op == 0x88 {
        "DEY"@
    } else if op == 0x8A {
        "TXA"@
    } else if op == 0x90 {
        "BCC"@
    } else if op == 0x98 {
        "TYA"@
    } else if op == 0x9A {
        "TXS"@
    } else if op == 0xA8 {
        "TAY"@
    } else if op == 0xAA {
        "TAX"@
    } else if op == 0xB0 {
        "BCS"@
    } else if op == 0xB8 {
        "CLV"@
    } else if op == 0xBA {
        "TSX"@
    } else if op == 0xC8 {
        "INY"@
    } else if op == 0xCA {
        "DEX"@
    } else if op == 0xD0 {
        "BNE"@
    } else if op == 0xD8 {
        "CLD"@
    } else if op == 0xE8 {
        "INX"@
    } else if op == 0xEA {
        "NOP"@
    } else if op == 0xEB {
        "*SBC"@
    } else if op == 0xF0 {
        "BEQ"@
    } else if op == 0xF8 {
        "SED"@
    } else {
        Seq::<char>::empty()
    }
}

/// No instruction is longer than three bytes or has a base cost above
/// eight cycles.
pub proof fn lemma_op_bounds(op: u8)
    ensures
        op_len(op) <= 3,
        op_cycles(op) <= 8,
{
}

#[verifier::rlimit(100)]
fn instr_entry(op: u8) -> (r: Option<InstrData>)
    ensures
        r is Some <==> op_known(op),
        r is Some ==> {
            let d = r->Some_0;
            &&& d.name@ == op_name(op)
            &&& d.len == op_len(op)
            &&& d.cycles == op_cycles(op)
        },
{
    match op {
        0x00 => Some(InstrData::new("BRK", 1, 7)),
        0x01 => Some(InstrData::new("ORA", 2, 6)),
        0x03 | 0x13 => Some(InstrData::new("*SLO", 2, 8)),
        0x04 | 0x44 | 0x64 => Some(InstrData::new("*NOP", 2, 3)),
        0x05 => Some(InstrData::new("ORA", 2, 3)),
        0x06 => Some(InstrData::new("ASL", 2, 5)),
        0x07 => Some(InstrData::new("*SLO", 2, 5)),
        0x08 => Some(InstrData::new("PHP", 1, 3)),
        0x09 => Some(InstrData::new("ORA", 2, 2)),
        0x0A => Some(InstrData::new("ASL", 1, 2)),
        0x0C | 0x1C | 0x3C | 0x5C | 0x7C | 0xDC | 0xFC => Some(InstrData::new("*NOP", 3, 4)),
        0x0D | 0x19 | 0x1D => Some(InstrData::new("ORA", 3, 4)),
        0x0E => Some(InstrData::new("ASL", 3, 6)),
        0x0F => Some(InstrData::new("*SLO", 3, 6)),
        0x10 => Some(InstrData::new("BPL", 2, 2)),
        0x11 => Some(InstrData::new("ORA", 2, 5)),
        0x14 | 0x34 | 0x54 | 0x74 | 0xD4 | 0xF4 => Some(InstrData::new("*NOP", 2, 4)),
        0x15 => Some(InstrData::new("ORA", 2, 4)),
        0x16 => Some(InstrData::new("ASL", 2, 6)),
        0x17 => Some(InstrData::new("*SLO", 2, 6)),
        0x18 => Some(InstrData::new("CLC", 1, 2)),
        0x1A | 0x3A | 0x5A | 0x7A | 0xDA | 0xFA => Some(InstrData::new("*NOP", 1, 2)),
        0x1B | 0x1F => Some(InstrData::new("*SLO", 3, 7)),
        0x1E => Some(InstrData::new("ASL", 3, 7)),
        0x20 => Some(InstrData::new("JSR", 3, 6)),
        0x21 => Some(InstrData::new("AND", 2, 6)),
        0x23 | 0x33 => Some(InstrData::new("*RLA", 2, 8)),
        0x24 => Some(InstrData::new("BIT", 2, 3)),
        0x25 => Some(InstrData::new("AND", 2, 3)),
        0x26 => Some(InstrData::new("ROL", 2, 5)),
        0x27 => Some(InstrData::new("*RLA", 2, 5)),
        0x28 => Some(InstrData::new("PLP", 1, 4)),
        0x29 => Some(InstrData::new("AND", 2, 2)),
        0x2A => Some(InstrData::new("ROL", 1, 2)),
        0x2C => Some(InstrData::new("BIT", 3, 4)),
        0x2D | 0x39 | 0x3D => Some(InstrData::new("AND", 3, 4)),
        0x2E => Some(InstrData::new("ROL", 3, 6)),
        0x2F => Some(InstrData::new("*RLA", 3, 6)),
        0x30 => Some(InstrData::new("BMI", 2, 2)),
        0x31 => Some(InstrData::new("AND", 2, 5)),
        0x35 => Some(InstrData::new("AND", 2, 4)),
        0x36 => Some(InstrData::new("ROL", 2, 6)),
        0x37 => Some(InstrData::new("*RLA", 2, 6)),
        0x38 => Some(InstrData::new("SEC", 1, 2)),
        0x3B | 0x3F => Some(InstrData::new("*RLA", 3, 7)),
        0x3E => Some(InstrData::new("ROL", 3, 7)),
        0x40 => Some(InstrData::new("RTI", 1, 6)),
        0x41 => Some(InstrData::new("EOR", 2, 6)),
        0x43 | 0x53 => Some(InstrData::new("*SRE", 2, 8)),
        0x45 => Some(InstrData::new("EOR", 2, 3)),
        0x46 => Some(InstrData::new("LSR", 2, 5)),
        0x47 => Some(InstrData::new("*SRE", 2, 5)),
        0x48 => Some(InstrData::new("PHA", 1, 3)),
        0x49 => Some(InstrData::new("EOR", 2, 2)),
        0x4A => Some(InstrData::new("LSR", 1, 2)),
        0x4C => Some(InstrData::new("JMP", 3, 3)),
        0x4D | 0x59 | 0x5D => Some(InstrData::new("EOR", 3, 4)),
        0x4E => Some(InstrData::new("LSR", 3, 6)),
        0x4F => Some(InstrData::new("*SRE", 3, 6)),
        0x50 => Some(InstrData::new("BVC", 2, 2)),
        0x51 => Some(InstrData::new("EOR", 2, 5)),
        0x55 => Some(InstrData::new("EOR", 2, 4)),
        0x56 => Some(InstrData::new("LSR", 2, 6)),
        0x57 => Some(InstrData::new("*SRE", 2, 6)),
        0x58 => Some(InstrData::new("CLI", 1, 2)),
        0x5B | 0x5F => Some(InstrData::new("*SRE", 3, 7)),
        0x5E => Some(InstrData::new("LSR", 3, 7)),
        0x60 => Some(InstrData::new("RTS", 1, 6)),
        0x61 => Some(InstrData::new("ADC", 2, 6)),
        0x63 | 0x73 => Some(InstrData::new("*RRA", 2, 8)),
        0x65 => Some(InstrData::new("ADC", 2, 3)),
        0x66 => Some(InstrData::new("ROR", 2, 5)),
        0x67 => Some(InstrData::new("*RRA", 2, 5)),
        0x68 => Some(InstrData::new("PLA", 1, 4)),
        0x69 => Some(InstrData::new("ADC", 2, 2)),
        0x6A => Some(InstrData::new("ROR", 1, 2)),
        0x6C => Some(InstrData::new("JMP", 3, 5)),
        0x6D | 0x79 | 0x7D => Some(InstrData::new("ADC", 3, 4)),
        0x6E => Some(InstrData::new("ROR", 3, 6)),
        0x6F => Some(InstrData::new("*RRA", 3, 6)),
        0x70 => Some(InstrData::new("BVS", 2, 2)),
        0x71 => Some(InstrData::new("ADC", 2, 5)),
        0x75 => Some(InstrData::new("ADC", 2, 4)),
        0x76 => Some(InstrData::new("ROR", 2, 6)),
        0x77 => Some(InstrData::new("*RRA", 2, 6)),
        0x78 => Some(InstrData::new("SEI", 1, 2)),
        0x7B | 0x7F => Some(InstrData::new("*RRA", 3, 7)),
        0x7E => Some(InstrData::new("ROR", 3, 7)),
        0x80 | 0x82 | 0x89 | 0xC2 | 0xE2 => Some(InstrData::new("*NOP", 2, 2)),
        0x81 | 0x91 => Some(InstrData::new("STA", 2, 6)),
        0x83 => Some(InstrData::new("*SAX", 2, 6)),
        0x84 => Some(InstrData::new("STY", 2, 3)),
        0x85 => Some(InstrData::new("STA", 2, 3)),
        0x86 => Some(InstrData::new("STX", 2, 3)),
        0x87 => Some(InstrData::new("*SAX", 2, 3)),
        0x88 => Some(InstrData::new("DEY", 1, 2)),
        0x8A => Some(InstrData::new("TXA", 1, 2)),
        0x8C => Some(InstrData::new("STY", 3, 4)),
        0x8D => Some(InstrData::new("STA", 3, 4)),
        0x8E => Some(InstrData::new("STX", 3, 4)),
        0x8F => Some(InstrData::new("*SAX", 3, 4)),
        0x90 => Some(InstrData::new("BCC", 2, 2)),
        0x94 => Some(InstrData::new("STY", 2, 4)),
        0x95 => Some(InstrData::new("STA", 2, 4)),
        0x96 => Some(InstrData::new("STX", 2, 4)),
        0x97 => Some(InstrData::new("*SAX", 2, 4)),
        0x98 => Some(InstrData::new("TYA", 1, 2)),
        0x99 | 0x9D => Some(InstrData::new("STA", 3, 5)),
        0x9A => Some(InstrData::new("TXS", 1, 2)),
        0xA0 => Some(InstrData::new("LDY", 2, 2)),
        0xA1 => Some(InstrData::new("LDA", 2, 6)),
        0xA2 => Some(InstrData::new("LDX", 2, 2)),
        0xA3 => Some(InstrData::new("*LAX", 2, 6)),
        0xA4 => Some(InstrData::new("LDY", 2, 3)),
        0xA5 => Some(InstrData::new("LDA", 2, 3)),
        0xA6 => Some(InstrData::new("LDX", 2, 3)),
        0xA7 => Some(InstrData::new("*LAX", 2, 3)),
        0xA8 => Some(InstrData::new("TAY", 1, 2)),
        0xA9 => Some(InstrData::new("LDA", 2, 2)),
        0xAA => Some(InstrData::new("TAX", 1, 2)),
        0xAC | 0xBC => Some(InstrData::new("LDY", 3, 4)),
        0xAD | 0xB9 | 0xBD => Some(InstrData::new("LDA", 3, 4)),
        0xAE | 0xBE => Some(InstrData::new("LDX", 3, 4)),
        0xAF | 0xBF => Some(InstrData::new("*LAX", 3, 4)),
        0xB0 => Some(InstrData::new("BCS", 2, 2)),
        0xB1 => Some(InstrData::new("LDA", 2, 5)),
        0xB3 => Some(InstrData::new("*LAX", 2, 5)),
        0xB4 => Some(InstrData::new("LDY", 2, 4)),
        0xB5 => Some(InstrData::new("LDA", 2, 4)),
        0xB6 => Some(InstrData::new("LDX", 2, 4)),
        0xB7 => Some(InstrData::new("*LAX", 2, 4)),
        0xB8 => Some(InstrData::new("CLV", 1, 2)),
        0xBA => Some(InstrData::new("TSX", 1, 2)),
        0xC0 => Some(InstrData::new("CPY", 2, 2)),
        0xC1 => Some(InstrData::new("CMP", 2, 6)),
        0xC3 | 0xD3 => Some(InstrData::new("*DCP", 2, 8)),
        0xC4 => Some(InstrData::new("CPY", 2, 3)),
        0xC5 => Some(InstrData::new("CMP", 2, 3)),
        0xC6 => Some(InstrData::new("DEC", 2, 5)),
        0xC7 => Some(InstrData::new("*DCP", 2, 5)),
        0xC8 => Some(InstrData::new("INY", 1, 2)),
        0xC9 => Some(InstrData::new("CMP", 2, 2)),
        0xCA => Some(InstrData::new("DEX", 1, 2)),
        0xCC => Some(InstrData::new("CPY", 3, 4)),
        0xCD | 0xD9 | 0xDD => Some(InstrData::new("CMP", 3, 4)),
        0xCE => Some(InstrData::new("DEC", 3, 6)),
        0xCF => Some(InstrData::new("*DCP", 3, 6)),
        0xD0 => Some(InstrData::new("BNE", 2, 2)),
        0xD1 => Some(InstrData::new("CMP", 2, 5)),
        0xD5 => Some(InstrData::new("CMP", 2, 4)),
        0xD6 => Some(InstrData::new("DEC", 2, 6)),
        0xD7 => Some(InstrData::new("*DCP", 2, 6)),
        0xD8 => Some(InstrData::new("CLD", 1, 2)),
        0xDB | 0xDF => Some(InstrData::new("*DCP", 3, 7)),
        0xDE => Some(InstrData::new("DEC", 3, 7)),
        0xE0 => Some(InstrData::new("CPX", 2, 2)),
        0xE1 => Some(InstrData::new("SBC", 2, 6)),
        0xE3 | 0xF3 => Some(InstrData::new("*ISB", 2, 8)),
        0xE4 => Some(InstrData::new("CPX", 2, 3)),
        0xE5 => Some(InstrData::new("SBC", 2, 3)),
        0xE6 => Some(InstrData::new("INC", 2, 5)),
        0xE7 => Some(InstrData::new("*ISB", 2, 5)),
        0xE8 => Some(InstrData::new("INX", 1, 2)),
        0xE9 => Some(InstrData::new("SBC", 2, 2)),
        0xEA => Some(InstrData::new("NOP", 1, 2)),
        0xEB => Some(InstrData::new("*SBC", 2, 2)),
        0xEC => Some(InstrData::new("CPX", 3, 4)),
        0xED | 0xF9 | 0xFD => Some(InstrData::new("SBC", 3, 4)),
        0xEE => Some(InstrData::new("INC", 3, 6)),
        0xEF => Some(InstrData::new("*ISB", 3, 6)),
        0xF0 => Some(InstrData::new("BEQ", 2, 2)),
        0xF1 => Some(InstrData::new("SBC", 2, 5)),
        0xF5 => Some(InstrData::new("SBC", 2, 4)),
        0xF6 => Some(InstrData::new("INC", 2, 6)),
        0xF7 => Some(InstrData::new("*ISB", 2, 6)),
        0xF8 => Some(InstrData::new("SED", 1, 2)),
        0xFB | 0xFF => Some(InstrData::new("*ISB", 3, 7)),
        0xFE => Some(InstrData::new("INC", 3, 7)),
        _ => None,
    }
}



/// The add-with-carry arithmetic: the wrapped sum, the unsigned carry
/// out, and the signed overflow.
fn adc_core(a: u8, v: u8, c: bool) -> (r: (u8, bool, bool))
    ensures
        r.0 as int == (a as int + v as int + (if c {
            1int
        } else {
            0int
        })) % 256,
        r.1 == (a as int + v as int + (if c {
            1int
        } else {
            0int
        }) > 255),
        r.2 == ({
            let signed = crate::cpu::sval(a) + crate::cpu::sval(v) + (if c {
                1int
            } else {
                0int
            });
            signed < -128 || signed > 127
        }),
{
    let cin: u16 = if c {
        1
    } else {
        0
    };
    let sum: u16 = a as u16 + v as u16 + cin;
    let res = (sum % 256) as u8;
    let sa: i32 = if a >= 128 {
        a as i32 - 256
    } else {
        a as i32
    };
    let sv: i32 = if v >= 128 {
        v as i32 - 256
    } else {
        v as i32
    };
    let signed: i32 = sa + sv + cin as i32;
    (res, sum > 255, signed < -128 || signed > 127)
}

/// The subtract-with-borrow arithmetic: the wrapped difference, whether
/// no borrow occurred (the new carry), and the signed overflow per the
/// hardware's sign rule.
fn sbc_core(a: u8, v: u8, c: bool) -> (r: (u8, bool, bool))
    ensures
        r.0 as int == (a as int - v as int - (if c {
            0int
        } else {
            1int
        }) + 512) % 256,
        r.1 == (a as int - v as int - (if c {
            0int
        } else {
            1int
        }) >= 0),
        r.2 == (((a >= 128) != (v >= 128)) && ((a >= 128) != (r.0 >= 128))),
{
    let borrow: i32 = if c {
        0
    } else {
        1
    };
    let diff: i32 = a as i32 - v as i32 - borrow;
    let res = ((diff + 512) % 256) as u8;
    (res, diff >= 0, ((a >= 128) != (v >= 128)) && ((a >= 128) != (res >= 128)))
}

#[allow(non_snake_case, unused_variables)]
impl NES {
    /// Load the accumulator, setting N and Z.
    #[verifier::rlimit(100)]
    #[verifier::spinoff_prover]
    pub fn LDA(&mut self, instr: u8, bytes: Vec<u8>, stepstring: &mut String) -> (r: Result<
        (),
        Fault,
    >)
        requires
            old(self).wf(),
            is_lda(instr),
            bytes@.len() == op_len(instr),
            old(self).cycles < u128::MAX - 16,
        ensures
            handler_contract(
                old(self),
                final(self),
                old(stepstring)@,
                final(stepstring)@,
                instr,
                bytes@[1],
                b2_of(bytes@),
                r,
            ),
    {
        proof {
            crate::sem::lemma_lda(old(self), instr, bytes@[1], b2_of(bytes@));
        }
        let (mode, pen) = match instr {
            0xA1 => (AddrMode::INDX, false),
            0xA5 => (AddrMode::ZPG, false),
            0xA9 => (AddrMode::IMM, false),
            0xAD => (AddrMode::ABS, false),
            0xB1 => (AddrMode::INDY, true),
            0xB5 => (AddrMode::ZPGX, false),
            0xB9 => (AddrMode::ABSY, true),
            0xBD => (AddrMode::ABSX, true),
            _ => unreached(),
        };
        let val = match self.get_val(bytes.as_slice(), mode, stepstring, pen) {
            Ok(v) => v,
            Err(f) => {
                return Err(f);
            },
        };
        self.cpu.ACC = val;
        self.cpu.SR.N = val >= 128;
        self.cpu.SR.Z = val == 0;
        self.advance(instr);
        Ok(())
    }

    /// Load X, setting N and Z.
    #[verifier::rlimit(100)]
    #[verifier::spinoff_prover]
    pub fn LDX(&mut self, instr: u8, bytes: Vec<u8>, stepstring: &mut String) -> (r: Result<
        (),
        Fault,
    >)
        requires
            old(self).wf(),
            is_ldx(instr),
            bytes@.len() == op_len(instr),
            old(self).cycles < u128::MAX - 16,
        ensures
            handler_contract(
                old(self),
                final(self),
                old(stepstring)@,
                final(stepstring)@,
                instr,
                bytes@[1],
                b2_of(bytes@),
                r,
            ),
    {
        proof {
            crate::sem::lemma_ldx(old(self), instr, bytes@[1], b2_of(bytes@));
        }
        let (mode, pen) = match instr {
            0xA2 => (AddrMode::IMM, false),
            0xA6 => (AddrMode::ZPG, false),
            0xAE => (AddrMode::ABS, false),
            0xB6 => (AddrMode::ZPGY, false),
            0xBE => (AddrMode::ABSY, true),
            _ => unreached(),
        };
        let val = match self.get_val(bytes.as_slice(), mode, stepstring, pen) {
            Ok(v) => v,
            Err(f) => {
                return Err(f);
            },
        };
        self.cpu.X = val;
        self.cpu.SR.N = val >= 128;
        self.cpu.SR.Z = val == 0;
        self.advance(instr);
        Ok(())
    }

    /// Load Y, setting N and Z.
    #[verifier::rlimit(100)]
    #[verifier::spinoff_prover]
    pub fn LDY(&mut self, instr: u8, bytes: Vec<u8>, stepstring: &mut String) -> (r: Result<
        (),
        Fault,
    >)
        requires
            old(self).wf(),
            is_ldy(instr),
            bytes@.len() == op_len(instr),
            old(self).cycles < u128::MAX - 16,
        ensures
            handler_contract(
                old(self),
                final(self),
                old(stepstring)@,
                final(stepstring)@,
                instr,
                bytes@[1],
                b2_of(bytes@),
                r,
            ),
    {
        proof {
            crate::sem::lemma_ldy(old(self), instr, bytes@[1], b2_of(bytes@));
        }
        let (mode, pen) = match instr {
            0xA0 => (AddrMode::IMM, false),
            0xA4 => (AddrMode::ZPG, false),
            0xAC => (AddrMode::ABS, false),
            0xB4 => (AddrMode::ZPGX, false),
            0xBC => (AddrMode::ABSX, true),
            _ => unreached(),
        };
        let val = match self.get_val(bytes.as_slice(), mode, stepstring, pen) {
            Ok(v) => v,
            Err(f) => {
                return Err(f);
            },
        };
        self.cpu.Y = val;
        self.cpu.SR.N = val >= 128;
        self.cpu.SR.Z = val == 0;
        self.advance(instr);
        Ok(())
    }

    /// Undocumented LAX: load the accumulator and X together.
    #[verifier::rlimit(100)]
    #[verifier::spinoff_prover]
    pub fn ILAX(&mut self, instr: u8, bytes: Vec<u8>, stepstring: &mut String) -> (r: Result<
        (),
        Fault,
    >)
        requires
            old(self).wf(),
            is_ilax(instr),
            bytes@.len() == op_len(instr),
            old(self).cycles < u128::MAX - 16,
        ensures
            handler_contract(
                old(self),
                final(self),
                old(stepstring)@,
                final(stepstring)@,
                instr,
                bytes@[1],
                b2_of(bytes@),
                r,
            ),
    {
        proof {
            crate::sem::lemma_ilax(old(self), instr, bytes@[1], b2_of(bytes@));
        }
        let (mode, pen) = match instr {
            0xA3 => (AddrMode::INDX, false),
            0xA7 => (AddrMode::ZPG, false),
            0xAF => (AddrMode::ABS, false),
            0xB3 => (AddrMode::INDY, true),
            0xB7 => (AddrMode::ZPGY, false),
            0xBF => (AddrMode::ABSY, true),
            _ => unreached(),
        };
        let val = match self.get_val(bytes.as_slice(), mode, stepstring, pen) {
            Ok(v) => v,
            Err(f) => {
                return Err(f);
            },
        };
        self.cpu.ACC = val;
        self.cpu.X = val;
        self.cpu.SR.N = val >= 128;
        self.cpu.SR.Z = val == 0;
        self.advance(instr);
        Ok(())
    }

    /// Bitwise AND into the accumulator, setting N and Z.
    #[verifier::rlimit(100)]
    #[verifier::spinoff_prover]
    pub fn AND(&mut self, instr: u8, bytes: Vec<u8>, stepstring: &mut String) -> (r: Result<
        (),
        Fault,
    >)
        requires
            old(self).wf(),
            is_and(instr),
            bytes@.len() == op_len(instr),
            old(self).cycles < u128::MAX - 16,
        ensures
            handler_contract(
                old(self),
                final(self),
                old(stepstring)@,
                final(stepstring)@,
                instr,
                bytes@[1],
                b2_of(bytes@),
                r,
            ),
    {
        proof {
            crate::sem::lemma_and(old(self), instr, bytes@[1], b2_of(bytes@));
        }
        let (mode, pen) = match instr {
            0x21 => (AddrMode::INDX, false),
            0x25 => (AddrMode::ZPG, false),
            0x29 => (AddrMode::IMM, false),
            0x2D => (AddrMode::ABS, false),
            0x31 => (AddrMode::INDY, true),
            0x35 => (AddrMode::ZPGX, false),
            0x39 => (AddrMode::ABSY, true),
            0x3D => (AddrMode::ABSX, true),
            _ => unreached(),
        };
        let val = match self.get_val(bytes.as_slice(), mode, stepstring, pen) {
            Ok(v) => v,
            Err(f) => {
                return Err(f);
            },
        };
        self.cpu.ACC = self.cpu.ACC & val;
        self.cpu.SR.N = self.cpu.ACC >= 128;
        self.cpu.SR.Z = self.cpu.ACC == 0;
        self.advance(instr);
        Ok(())
    }

    /// Bitwise OR into the accumulator, setting N and Z.
    #[verifier::rlimit(100)]
    #[verifier::spinoff_prover]
    pub fn ORA(&mut self, instr: u8, bytes: Vec<u8>, stepstring: &mut String) -> (r: Result<
        (),
        Fault,
    >)
        requires
            old(self).wf(),
            is_ora(instr),
            bytes@.len() == op_len(instr),
            old(self).cycles < u128::MAX - 16,
        ensures
            handler_contract(
                old(self),
                final(self),
                old(stepstring)@,
                final(stepstring)@,
                instr,
                bytes@[1],
                b2_of(bytes@),
                r,
            ),
    {
        proof {
            crate::sem::lemma_ora(old(self), instr, bytes@[1], b2_of(bytes@));
        }
        let (mode, pen) = match instr {
            0x01 => (AddrMode::INDX, false),
            0x05 => (AddrMode::ZPG, false),
            0x09 => (AddrMode::IMM, false),
            0x0D => (AddrMode::ABS, false),
            0x11 => (AddrMode::INDY, true),
            0x15 => (AddrMode::ZPGX, false),
            0x19 => (AddrMode::ABSY, true),
            0x1D => (AddrMode::ABSX, true),
            _ => unreached(),
        };
        let val = match self.get_val(bytes.as_slice(), mode, stepstring, pen) {
            Ok(v) => v,
            Err(f) => {
                return Err(f);
            },
        };
        self.cpu.ACC = self.cpu.ACC | val;
        self.cpu.SR.N = self.cpu.ACC >= 128;
        self.cpu.SR.Z = self.cpu.ACC == 0;
        self.advance(instr);
        Ok(())
    }

    /// Bitwise exclusive OR into the accumulator, setting N and Z.
    #[verifier::rlimit(100)]
    #[verifier::spinoff_prover]
    pub fn EOR(&mut self, instr: u8, bytes: Vec<u8>, stepstring: &mut String) -> (r: Result<
        (),
        Fault,
    >)
        requires
            old(self).wf(),
            is_eor(instr),
            bytes@.len() == op_len(instr),
            old(self).cycles < u128::MAX - 16,
        ensures
            handler_contract(
                old(self),
                final(self),
                old(stepstring)@,
                final(stepstring)@,
                instr,
                bytes@[1],
                b2_of(bytes@),
                r,
            ),
    {
        proof {
            crate::sem::lemma_eor(old(self), instr, bytes@[1], b2_of(bytes@));
        }
        let (mode, pen) = match instr {
            0x41 => (AddrMode::INDX, false),
            0x45 => (AddrMode::ZPG, false),
            0x49 => (AddrMode::IMM, false),
            0x4D => (AddrMode::ABS, false),
            0x51 => (AddrMode::INDY, true),
            0x55 => (AddrMode::ZPGX, false),
            0x59 => (AddrMode::ABSY, true),
            0x5D => (AddrMode::ABSX, true),
            _ => unreached(),
        };
        let val = match self.get_val(bytes.as_slice(), mode, stepstring, pen) {
            Ok(v) => v,
            Err(f) => {
                return Err(f);
            },
        };
        self.cpu.ACC = self.cpu.ACC ^ val;
        self.cpu.SR.N = self.cpu.ACC >= 128;
        self.cpu.SR.Z = self.cpu.ACC == 0;
        self.advance(instr);
        Ok(())
    }

    /// Add with carry: result modulo 256, carry from the unsigned sum, overflow from the signed one.
    #[verifier::rlimit(100)]
    #[verifier::spinoff_prover]
    pub fn ADC(&mut self, instr: u8, bytes: Vec<u8>, stepstring: &mut String) -> (r: Result<
        (),
        Fault,
    >)
        requires
            old(self).wf(),
            is_adc(instr),
            bytes@.len() == op_len(instr),
            old(self).cycles < u128::MAX - 16,
        ensures
            handler_contract(
                old(self),
                final(self),
                old(stepstring)@,
                final(stepstring)@,
                instr,
                bytes@[1],
                b2_of(bytes@),
                r,
            ),
    {
        proof {
            crate::sem::lemma_adc(old(self), instr, bytes@[1], b2_of(bytes@));
        }
        let (mode, pen) = match instr {
            0x61 => (AddrMode::INDX, false),
            0x65 => (AddrMode::ZPG, false),
            0x69 => (AddrMode::IMM, false),
            0x6D => (AddrMode::ABS, false),
            0x71 => (AddrMode::INDY, true),
            0x75 => (AddrMode::ZPGX, false),
            0x79 => (AddrMode::ABSY, true),
            0x7D => (AddrMode::ABSX, true),
            _ => unreached(),
        };
        let val = match self.get_val(bytes.as_slice(), mode, stepstring, pen) {
            Ok(v) => v,
            Err(f) => {
                return Err(f);
            },
        };
        let (res, carry, over) = adc_core(self.cpu.ACC, val, self.cpu.SR.C);
        self.cpu.ACC = res;
        self.cpu.SR.N = res >= 128;
        self.cpu.SR.Z = res == 0;
        self.cpu.SR.C = carry;
        self.cpu.SR.V = over;
        self.advance(instr);
        Ok(())
    }

    /// Subtract with borrow: carry clears exactly when the subtraction borrows; overflow follows the signed rule.
    #[verifier::rlimit(100)]
    #[verifier::spinoff_prover]
    pub fn SBC(&mut self, instr: u8, bytes: Vec<u8>, stepstring: &mut String) -> (r: Result<
        (),
        Fault,
    >)
        requires
            old(self).wf(),
            is_sbc(instr),
            bytes@.len() == op_len(instr),
            old(self).cycles < u128::MAX - 16,
        ensures
            handler_contract(
                old(self),
                final(self),
                old(stepstring)@,
                final(stepstring)@,
                instr,
                bytes@[1],
                b2_of(bytes@),
                r,
            ),
    {
        proof {
            crate::sem::lemma_sbc(old(self), instr, bytes@[1], b2_of(bytes@));
        }
        let (mode, pen) = match instr {
            0xE1 => (AddrMode::INDX, false),
            0xE5 => (AddrMode::ZPG, false),
            0xE9 => (AddrMode::IMM, false),
            0xED => (AddrMode::ABS, false),
            0xF1 => (AddrMode::INDY, true),
            0xF5 => (AddrMode::ZPGX, false),
            0xF9 => (AddrMode::ABSY, true),
            0xFD => (AddrMode::ABSX, true),
            _ => unreached(),
        };
        let val = match self.get_val(bytes.as_slice(), mode, stepstring, pen) {
            Ok(v) => v,
            Err(f) => {
                return Err(f);
            },
        };
        let (res, carry, over) = sbc_core(self.cpu.ACC, val, self.cpu.SR.C);
        self.cpu.ACC = res;
        self.cpu.SR.N = res >= 128;
        self.cpu.SR.Z = res == 0;
        self.cpu.SR.C = carry;
        self.cpu.SR.V = over;
        self.advance(instr);
        Ok(())
    }

    /// Compare the accumulator against the operand: N and Z from the wrapped difference, carry when the register is not below the operand.
    #[verifier::rlimit(100)]
    #[verifier::spinoff_prover]
    pub fn CMP(&mut self, instr: u8, bytes: Vec<u8>, stepstring: &mut String) -> (r: Result<
        (),
        Fault,
    >)
        requires
            old(self).wf(),
            is_cmp(instr),
            bytes@.len() == op_len(instr),
            old(self).cycles < u128::MAX - 16,
        ensures
            handler_contract(
                old(self),
                final(self),
                old(stepstring)@,
                final(stepstring)@,
                instr,
                bytes@[1],
                b2_of(bytes@),
                r,
            ),
    {
        proof {
            crate::sem::lemma_cmp(old(self), instr, bytes@[1], b2_of(bytes@));
        }
        let (mode, pen) = match instr {
            0xC1 => (AddrMode::INDX, false),
            0xC5 => (AddrMode::ZPG, false),
            0xC9 => (AddrMode::IMM, false),
            0xCD => (AddrMode::ABS, false),
            0xD1 => (AddrMode::INDY, true),
            0xD5 => (AddrMode::ZPGX, false),
            0xD9 => (AddrMode::ABSY, true),
            0xDD => (AddrMode::ABSX, true),
            _ => unreached(),
        };
        let val = match self.get_val(bytes.as_slice(), mode, stepstring, pen) {
            Ok(v) => v,
            Err(f) => {
                return Err(f);
            },
        };
        let reg = self.cpu.ACC;
        let res = wsub8(reg, val);
        self.cpu.SR.N = res >= 128;
        self.cpu.SR.Z = res == 0;
        self.cpu.SR.C = reg >= val;
        self.advance(instr);
        Ok(())
    }

    /// Compare X against the operand: N and Z from the wrapped difference, carry when the register is not below the operand.
    #[verifier::rlimit(100)]
    #[verifier::spinoff_prover]
    pub fn CPX(&mut self, instr: u8, bytes: Vec<u8>, stepstring: &mut String) -> (r: Result<
        (),
        Fault,
    >)
        requires
            old(self).wf(),
            is_cpx(instr),
            bytes@.len() == op_len(instr),
            old(self).cycles < u128::MAX - 16,
        ensures
            handler_contract(
                old(self),
                final(self),
                old(stepstring)@,
                final(stepstring)@,
                instr,
                bytes@[1],
                b2_of(bytes@),
                r,
            ),
    {
        proof {
            crate::sem::lemma_cpx(old(self), instr, bytes@[1], b2_of(bytes@));
        }
        let (mode, pen) = match instr {
            0xE0 => (AddrMode::IMM, false),
            0xE4 => (AddrMode::ZPG, false),
            0xEC => (AddrMode::ABS, false),
            _ => unreached(),
        };
        let val = match self.get_val(bytes.as_slice(), mode, stepstring, pen) {
            Ok(v) => v,
            Err(f) => {
                return Err(f);
            },
        };
        let reg = self.cpu.X;
        let res = wsub8(reg, val);
        self.cpu.SR.N = res >= 128;
        self.cpu.SR.Z = res == 0;
        self.cpu.SR.C = reg >= val;
        self.advance(instr);
        Ok(())
    }

    /// Compare Y against the operand: N and Z from the wrapped difference, carry when the register is not below the operand.
    #[verifier::rlimit(100)]
    #[verifier::spinoff_prover]
    pub fn CPY(&mut self, instr: u8, bytes: Vec<u8>, stepstring: &mut String) -> (r: Result<
        (),
        Fault,
    >)
        requires
            old(self).wf(),
            is_cpy(instr),
            bytes@.len() == op_len(instr),
            old(self).cycles < u128::MAX - 16,
        ensures
            handler_contract(
                old(self),
                final(self),
                old(stepstring)@,
                final(stepstring)@,
                instr,
                bytes@[1],
                b2_of(bytes@),
                r,
            ),
    {
        proof {
            crate::sem::lemma_cpy(old(self), instr, bytes@[1], b2_of(bytes@));
        }
        let (mode, pen) = match instr {
            0xC0 => (AddrMode::IMM, false),
            0xC4 => (AddrMode::ZPG, false),
            0xCC => (AddrMode::ABS, false),
            _ => unreached(),
        };
        let val = match self.get_val(bytes.as_slice(), mode, stepstring, pen) {
            Ok(v) => v,
            Err(f) => {
                return Err(f);
            },
        };
        let reg = self.cpu.Y;
        let res = wsub8(reg, val);
        self.cpu.SR.N = res >= 128;
        self.cpu.SR.Z = res == 0;
        self.cpu.SR.C = reg >= val;
        self.advance(instr);
        Ok(())
    }

    /// Bit test: N and V from bits 7 and 6 of the operand, Z from its AND with the accumulator.
    #[verifier::rlimit(100)]
    #[verifier::spinoff_prover]
    pub fn BIT(&mut self, instr: u8, bytes: Vec<u8>, stepstring: &mut String) -> (r: Result<
        (),
        Fault,
    >)
        requires
            old(self).wf(),
            is_bit(instr),
            bytes@.len() == op_len(instr),
            old(self).cycles < u128::MAX - 16,
        ensures
            handler_contract(
                old(self),
                final(self),
                old(stepstring)@,
                final(stepstring)@,
                instr,
                bytes@[1],
                b2_of(bytes@),
                r,
            ),
    {
        proof {
            crate::sem::lemma_bit(old(self), instr, bytes@[1], b2_of(bytes@));
        }
        let (mode, pen) = match instr {
            0x24 => (AddrMode::ZPG, false),
            0x2C => (AddrMode::ABS, false),
            _ => unreached(),
        };
        let val = match self.get_val(bytes.as_slice(), mode, stepstring, pen) {
            Ok(v) => v,
            Err(f) => {
                return Err(f);
            },
        };
        self.cpu.SR.N = val >= 128;
        self.cpu.SR.V = val / 64 % 2 == 1;
        self.cpu.SR.Z = (self.cpu.ACC & val) == 0;
        self.advance(instr);
        Ok(())
    }

    /// Arithmetic shift left: bit 7 moves into carry. Works on the accumulator or on memory.
    #[verifier::rlimit(100)]
    #[verifier::spinoff_prover]
    pub fn ASL(&mut self, instr: u8, bytes: Vec<u8>, stepstring: &mut String) -> (r: Result<
        (),
        Fault,
    >)
        requires
            old(self).wf(),
            is_asl(instr),
            bytes@.len() == op_len(instr),
            old(self).cycles < u128::MAX - 16,
        ensures
            handler_contract(
                old(self),
                final(self),
                old(stepstring)@,
                final(stepstring)@,
                instr,
                bytes@[1],
                b2_of(bytes@),
                r,
            ),
    {
        proof {
            crate::sem::lemma_asl(old(self), instr, bytes@[1], b2_of(bytes@));
        }
        let mode = match instr {
            0x06 => AddrMode::ZPG,
            0x0A => AddrMode::ACC,
            0x0E => AddrMode::ABS,
            0x16 => AddrMode::ZPGX,
            0x1E => AddrMode::ABSX,
            _ => unreached(),
        };
        let val = match self.get_val(bytes.as_slice(), mode, stepstring, false) {
            Ok(v) => v,
            Err(f) => {
                return Err(f);
            },
        };
        let v2 = ((val as u16 * 2) % 256) as u8;
        let c2 = val >= 128;
        self.cpu.SR.N = v2 >= 128;
        self.cpu.SR.Z = v2 == 0;
        self.cpu.SR.C = c2;
        if instr == 0x0A {
            self.cpu.ACC = v2;
        } else {
            let addr = self.calc_addr(bytes.as_slice(), mode, true);
            match self.write1(addr, v2) {
                Ok(_) => {},
                Err(f) => {
                    return Err(f);
                },
            }
        }
        self.advance(instr);
        Ok(())
    }

    /// Logical shift right: bit 0 moves into carry, N always clears. Works on the accumulator or on memory.
    #[verifier::rlimit(100)]
    #[verifier::spinoff_prover]
    pub fn LSR(&mut self, instr: u8, bytes: Vec<u8>, stepstring: &mut String) -> (r: Result<
        (),
        Fault,
    >)
        requires
            old(self).wf(),
            is_lsr(instr),
            bytes@.len() == op_len(instr),
            old(self).cycles < u128::MAX - 16,
        ensures
            handler_contract(
                old(self),
                final(self),
                old(stepstring)@,
                final(stepstring)@,
                instr,
                bytes@[1],
                b2_of(bytes@),
                r,
            ),
    {
        proof {
            crate::sem::lemma_lsr(old(self), instr, bytes@[1], b2_of(bytes@));
        }
        let mode = match instr {
            0x46 => AddrMode::ZPG,
            0x4A => AddrMode::ACC,
            0x4E => AddrMode::ABS,
            0x56 => AddrMode::ZPGX,
            0x5E => AddrMode::ABSX,
            _ => unreached(),
        };
        let val = match self.get_val(bytes.as_slice(), mode, stepstring, false) {
            Ok(v) => v,
            Err(f) => {
                return Err(f);
            },
        };
        let v2 = val / 2;
        let c2 = val % 2 == 1;
        self.cpu.SR.N = v2 >= 128;
        self.cpu.SR.Z = v2 == 0;
        self.cpu.SR.C = c2;
        if instr == 0x4A {
            self.cpu.ACC = v2;
        } else {
            let addr = self.calc_addr(bytes.as_slice(), mode, true);
            match self.write1(addr, v2) {
                Ok(_) => {},
                Err(f) => {
                    return Err(f);
                },
            }
        }
        self.advance(instr);
        Ok(())
    }

    /// Rotate left: carry moves into bit 0, bit 7 into carry. Works on the accumulator or on memory.
    #[verifier::rlimit(100)]
    #[verifier::spinoff_prover]
    pub fn ROL(&mut self, instr: u8, bytes: Vec<u8>, stepstring: &mut String) -> (r: Result<
        (),
        Fault,
    >)
        requires
            old(self).wf(),
            is_rol(instr),
            bytes@.len() == op_len(instr),
            old(self).cycles < u128::MAX - 16,
        ensures
            handler_contract(
                old(self),
                final(self),
                old(stepstring)@,
                final(stepstring)@,
                instr,
                bytes@[1],
                b2_of(bytes@),
                r,
            ),
    {
        proof {
            crate::sem::lemma_rol(old(self), instr, bytes@[1], b2_of(bytes@));
        }
        let mode = match instr {
            0x26 => AddrMode::ZPG,
            0x2A => AddrMode::ACC,
            0x2E => AddrMode::ABS,
            0x36 => AddrMode::ZPGX,
            0x3E => AddrMode::ABSX,
            _ => unreached(),
        };
        let val = match self.get_val(bytes.as_slice(), mode, stepstring, false) {
            Ok(v) => v,
            Err(f) => {
                return Err(f);
            },
        };
        let cin: u16 = if self.cpu.SR.C {
            1
        } else {
            0
        };
        let v2 = ((val as u16 * 2 + cin) % 256) as u8;
        let c2 = val >= 128;
        self.cpu.SR.N = v2 >= 128;
        self.cpu.SR.Z = v2 == 0;
        self.cpu.SR.C = c2;
        if instr == 0x2A {
            self.cpu.ACC = v2;
        } else {
            let addr = self.calc_addr(bytes.as_slice(), mode, true);
            match self.write1(addr, v2) {
                Ok(_) => {},
                Err(f) => {
                    return Err(f);
                },
            }
        }
        self.advance(instr);
        Ok(())
    }

    /// Rotate right: carry moves into bit 7, bit 0 into carry. Works on the accumulator or on memory.
    #[verifier::rlimit(100)]
    #[verifier::spinoff_prover]
    pub fn ROR(&mut self, instr: u8, bytes: Vec<u8>, stepstring: &mut String) -> (r: Result<
        (),
        Fault,
    >)
        requires
            old(self).wf(),
            is_ror(instr),
            bytes@.len() == op_len(instr),
            old(self).cycles < u128::MAX - 16,
        ensures
            handler_contract(
                old(self),
                final(self),
                old(stepstring)@,
                final(stepstring)@,
                instr,
                bytes@[1],
                b2_of(bytes@),
                r,
            ),
    {
        proof {
            crate::sem::lemma_ror(old(self), instr, bytes@[1], b2_of(bytes@));
        }
        let mode = match instr {
            0x66 => AddrMode::ZPG,
            0x6A => AddrMode::ACC,
            0x6E => AddrMode::ABS,
            0x76 => AddrMode::ZPGX,
            0x7E => AddrMode::ABSX,
            _ => unreached(),
        };
        let val = match self.get_val(bytes.as_slice(), mode, stepstring, false) {
            Ok(v) => v,
            Err(f) => {
                return Err(f);
            },
        };
        let v2 = val / 2 + (if self.cpu.SR.C {
            128
        } else {
            0
        });
        let c2 = val % 2 == 1;
        self.cpu.SR.N = v2 >= 128;
        self.cpu.SR.Z = v2 == 0;
        self.cpu.SR.C = c2;
        if instr == 0x6A {
            self.cpu.ACC = v2;
        } else {
            let addr = self.calc_addr(bytes.as_slice(), mode, true);
            match self.write1(addr, v2) {
                Ok(_) => {},
                Err(f) => {
                    return Err(f);
                },
            }
        }
        self.advance(instr);
        Ok(())
    }

    /// Increment memory, setting N and Z.
    #[verifier::rlimit(100)]
    #[verifier::spinoff_prover]
    pub fn INC(&mut self, instr: u8, bytes: Vec<u8>, stepstring: &mut String) -> (r: Result<
        (),
        Fault,
    >)
        requires
            old(self).wf(),
            is_inc(instr),
            bytes@.len() == op_len(instr),
            old(self).cycles < u128::MAX - 16,
        ensures
            handler_contract(
                old(self),
                final(self),
                old(stepstring)@,
                final(stepstring)@,
                instr,
                bytes@[1],
                b2_of(bytes@),
                r,
            ),
    {
        proof {
            crate::sem::lemma_inc(old(self), instr, bytes@[1], b2_of(bytes@));
        }
        let mode = match instr {
            0xE6 => AddrMode::ZPG,
            0xEE => AddrMode::ABS,
            0xF6 => AddrMode::ZPGX,
            0xFE => AddrMode::ABSX,
            _ => unreached(),
        };
        let addr = self.calc_addr(bytes.as_slice(), mode, true);
        let val = match self.get_val(bytes.as_slice(), mode, stepstring, false) {
            Ok(v) => v,
            Err(f) => {
                return Err(f);
            },
        };
        let v2 = wadd8(val, 1);
        match self.write1(addr, v2) {
            Ok(_) => {},
            Err(f) => {
                return Err(f);
            },
        }
        self.cpu.SR.N = v2 >= 128;
        self.cpu.SR.Z = v2 == 0;
        self.advance(instr);
        Ok(())
    }

    /// Decrement memory, setting N and Z.
    #[verifier::rlimit(100)]
    #[verifier::spinoff_prover]
    pub fn DEC(&mut self, instr: u8, bytes: Vec<u8>, stepstring: &mut String) -> (r: Result<
        (),
        Fault,
    >)
        requires
            old(self).wf(),
            is_dec(instr),
            bytes@.len() == op_len(instr),
            old(self).cycles < u128::MAX - 16,
        ensures
            handler_contract(
                old(self),
                final(self),
                old(stepstring)@,
                final(stepstring)@,
                instr,
                bytes@[1],
                b2_of(bytes@),
                r,
            ),
    {
        proof {
            crate::sem::lemma_dec(old(self), instr, bytes@[1], b2_of(bytes@));
        }
        let mode = match instr {
            0xC6 => AddrMode::ZPG,
            0xCE => AddrMode::ABS,
            0xD6 => AddrMode::ZPGX,
            0xDE => AddrMode::ABSX,
            _ => unreached(),
        };
        let addr = self.calc_addr(bytes.as_slice(), mode, true);
        let val = match self.get_val(bytes.as_slice(), mode, stepstring, false) {
            Ok(v) => v,
            Err(f) => {
                return Err(f);
            },
        };
        let v2 = wsub8(val, 1);
        match self.write1(addr, v2) {
            Ok(_) => {},
            Err(f) => {
                return Err(f);
            },
        }
        self.cpu.SR.N = v2 >= 128;
        self.cpu.SR.Z = v2 == 0;
        self.advance(instr);
        Ok(())
    }

    /// Store the accumulator; flags untouched. The trace shows the byte previously at the target.
    #[verifier::rlimit(100)]
    #[verifier::spinoff_prover]
    pub fn STA(&mut self, instr: u8, bytes: Vec<u8>, stepstring: &mut String) -> (r: Result<
        (),
        Fault,
    >)
        requires
            old(self).wf(),
            is_sta(instr),
            bytes@.len() == op_len(instr),
            old(self).cycles < u128::MAX - 16,
        ensures
            handler_contract(
                old(self),
                final(self),
                old(stepstring)@,
                final(stepstring)@,
                instr,
                bytes@[1],
                b2_of(bytes@),
                r,
            ),
    {
        proof {
            crate::sem::lemma_sta(old(self), instr, bytes@[1], b2_of(bytes@));
        }
        let mode = match instr {
            0x81 => AddrMode::INDX,
            0x85 => AddrMode::ZPG,
            0x8D => AddrMode::ABS,
            0x91 => AddrMode::INDY,
            0x95 => AddrMode::ZPGX,
            0x99 => AddrMode::ABSY,
            0x9D => AddrMode::ABSX,
            _ => unreached(),
        };
        let addr = self.calc_addr(bytes.as_slice(), mode, false);
        match self.get_val(bytes.as_slice(), mode, stepstring, false) {
            Ok(_) => {},
            Err(f) => {
                return Err(f);
            },
        }
        match self.write1(addr, self.cpu.ACC) {
            Ok(_) => {},
            Err(f) => {
                return Err(f);
            },
        }
        self.advance(instr);
        Ok(())
    }

    /// Store X; flags untouched.
    #[verifier::rlimit(100)]
    #[verifier::spinoff_prover]
    pub fn STX(&mut self, instr: u8, bytes: Vec<u8>, stepstring: &mut String) -> (r: Result<
        (),
        Fault,
    >)
        requires
            old(self).wf(),
            is_stx(instr),
            bytes@.len() == op_len(instr),
            old(self).cycles < u128::MAX - 16,
        ensures
            handler_contract(
                old(self),
                final(self),
                old(stepstring)@,
                final(stepstring)@,
                instr,
                bytes@[1],
                b2_of(bytes@),
                r,
            ),
    {
        proof {
            crate::sem::lemma_stx(old(self), instr, bytes@[1], b2_of(bytes@));
        }
        let mode = match instr {
            0x86 => AddrMode::ZPG,
            0x8E => AddrMode::ABS,
            0x96 => AddrMode::ZPGY,
            _ => unreached(),
        };
        let addr = self.calc_addr(bytes.as_slice(), mode, false);
        match self.get_val(bytes.as_slice(), mode, stepstring, false) {
            Ok(_) => {},
            Err(f) => {
                return Err(f);
            },
        }
        match self.write1(addr, self.cpu.X) {
            Ok(_) => {},
            Err(f) => {
                return Err(f);
            },
        }
        self.advance(instr);
        Ok(())
    }

    /// Store Y; flags untouched.
    #[verifier::rlimit(100)]
    #[verifier::spinoff_prover]
    pub fn STY(&mut self, instr: u8, bytes: Vec<u8>, stepstring: &mut String) -> (r: Result<
        (),
        Fault,
    >)
        requires
            old(self).wf(),
            is_sty(instr),
            bytes@.len() == op_len(instr),
            old(self).cycles < u128::MAX - 16,
        ensures
            handler_contract(
                old(self),
                final(self),
                old(stepstring)@,
                final(stepstring)@,
                instr,
                bytes@[1],
                b2_of(bytes@),
                r,
            ),
    {
        proof {
            crate::sem::lemma_sty(old(self), instr, bytes@[1], b2_of(bytes@));
        }
        let mode = match instr {
            0x84 => AddrMode::ZPG,
            0x8C => AddrMode::ABS,
            0x94 => AddrMode::ZPGX,
            _ => unreached(),
        };
        let addr = self.calc_addr(bytes.as_slice(), mode, false);
        match self.get_val(bytes.as_slice(), mode, stepstring, false) {
            Ok(_) => {},
            Err(f) => {
                return Err(f);
            },
        }
        match self.write1(addr, self.cpu.Y) {
            Ok(_) => {},
            Err(f) => {
                return Err(f);
            },
        }
        self.advance(instr);
        Ok(())
    }

    /// Undocumented SAX: store the bitwise AND of the accumulator and X.
    #[verifier::rlimit(100)]
    #[verifier::spinoff_prover]
    pub fn ISAX(&mut self, instr: u8, bytes: Vec<u8>, stepstring: &mut String) -> (r: Result<
        (),
        Fault,
    >)
        requires
            old(self).wf(),
            is_isax(instr),
            bytes@.len() == op_len(instr),
            old(self).cycles < u128::MAX - 16,
        ensures
            handler_contract(
                old(self),
                final(self),
                old(stepstring)@,
                final(stepstring)@,
                instr,
                bytes@[1],
                b2_of(bytes@),
                r,
            ),
    {
        proof {
            crate::sem::lemma_isax(old(self), instr, bytes@[1], b2_of(bytes@));
        }
        let mode = match instr {
            0x83 => AddrMode::INDX,
            0x87 => AddrMode::ZPG,
            0x8F => AddrMode::ABS,
            0x97 => AddrMode::ZPGY,
            _ => unreached(),
        };
        let addr = self.calc_addr(bytes.as_slice(), mode, false);
        match self.get_val(bytes.as_slice(), mode, stepstring, false) {
            Ok(_) => {},
            Err(f) => {
                return Err(f);
            },
        }
        match self.write1(addr, self.cpu.ACC & self.cpu.X) {
            Ok(_) => {},
            Err(f) => {
                return Err(f);
            },
        }
        self.advance(instr);
        Ok(())
    }

    /// Branch on carry clear. A taken branch costs one extra cycle, two when it crosses a page.
    #[verifier::rlimit(100)]
    #[verifier::spinoff_prover]
    pub fn BCC(&mut self, instr: u8, bytes: Vec<u8>, stepstring: &mut String) -> (r: Result<
        (),
        Fault,
    >)
        requires
            old(self).wf(),
            instr == 0x90,
            bytes@.len() == op_len(instr),
            old(self).cycles < u128::MAX - 16,
        ensures
            handler_contract(
                old(self),
                final(self),
                old(stepstring)@,
                final(stepstring)@,
                instr,
                bytes@[1],
                b2_of(bytes@),
                r,
            ),
    {
        proof {
            crate::sem::lemma_bcc(old(self), instr, bytes@[1], b2_of(bytes@));
        }
        self.advance(instr);
        let target = self.calc_addr(bytes.as_slice(), AddrMode::REL, false);
        stepstring.append("$");
        crate::text::push_hex4(stepstring, target);
        proof {
            assert(stepstring@ =~= old(stepstring)@ + ("$"@ + crate::text::hex4(target)));
        }
        if !self.cpu.SR.C {
            let _crossing: u16 = self.calc_addr(bytes.as_slice(), AddrMode::REL, true);
            self.cpu.PC = target;
            self.cycles = self.cycles + 1;
        }
        Ok(())
    }

    /// Branch on carry set. A taken branch costs one extra cycle, two when it crosses a page.
    #[verifier::rlimit(100)]
    #[verifier::spinoff_prover]
    pub fn BCS(&mut self, instr: u8, bytes: Vec<u8>, stepstring: &mut String) -> (r: Result<
        (),
        Fault,
    >)
        requires
            old(self).wf(),
            instr == 0xB0,
            bytes@.len() == op_len(instr),
            old(self).cycles < u128::MAX - 16,
        ensures
            handler_contract(
                old(self),
                final(self),
                old(stepstring)@,
                final(stepstring)@,
                instr,
                bytes@[1],
                b2_of(bytes@),
                r,
            ),
    {
        proof {
            crate::sem::lemma_bcs(old(self), instr, bytes@[1], b2_of(bytes@));
        }
        self.advance(instr);
        let target = self.calc_addr(bytes.as_slice(), AddrMode::REL, false);
        stepstring.append("$");
        crate::text::push_hex4(stepstring, target);
        proof {
            assert(stepstring@ =~= old(stepstring)@ + ("$"@ + crate::text::hex4(target)));
        }
        if self.cpu.SR.C {
            let _crossing: u16 = self.calc_addr(bytes.as_slice(), AddrMode::REL, true);
            self.cpu.PC = target;
            self.cycles = self.cycles + 1;
        }
        Ok(())
    }

    /// Branch on equal (zero set). A taken branch costs one extra cycle, two when it crosses a page.
    #[verifier::rlimit(100)]
    #[verifier::spinoff_prover]
    pub fn BEQ(&mut self, instr: u8, bytes: Vec<u8>, stepstring: &mut String) -> (r: Result<
        (),
        Fault,
    >)
        requires
            old(self).wf(),
            instr == 0xF0,
            bytes@.len() == op_len(instr),
            old(self).cycles < u128::MAX - 16,
        ensures
            handler_contract(
                old(self),
                final(self),
                old(stepstring)@,
                final(stepstring)@,
                instr,
                bytes@[1],
                b2_of(bytes@),
                r,
            ),
    {
        proof {
            crate::sem::lemma_beq(old(self), instr, bytes@[1], b2_of(bytes@));
        }
        self.advance(instr);
        let target = self.calc_addr(bytes.as_slice(), AddrMode::REL, false);
        stepstring.append("$");
        crate::text::push_hex4(stepstring, target);
        proof {
            assert(stepstring@ =~= old(stepstring)@ + ("$"@ + crate::text::hex4(target)));
        }
        if self.cpu.SR.Z {
            let _crossing: u16 = self.calc_addr(bytes.as_slice(), AddrMode::REL, true);
            self.cpu.PC = target;
            self.cycles = self.cycles + 1;
        }
        Ok(())
    }

    /// Branch on minus (negative set). A taken branch costs one extra cycle, two when it crosses a page.
    #[verifier::rlimit(100)]
    #[verifier::spinoff_prover]
    pub fn BMI(&mut self, instr: u8, bytes: Vec<u8>, stepstring: &mut String) -> (r: Result<
        (),
        Fault,
    >)
        requires
            old(self).wf(),
            instr == 0x30,
            bytes@.len() == op_len(instr),
            old(self).cycles < u128::MAX - 16,
        ensures
            handler_contract(
                old(self),
                final(self),
                old(stepstring)@,
                final(stepstring)@,
                instr,
                bytes@[1],
                b2_of(bytes@),
                r,
            ),
    {
        proof {
            crate::sem::lemma_bmi(old(self), instr, bytes@[1], b2_of(bytes@));
        }
        self.advance(instr);
        let target = self.calc_addr(bytes.as_slice(), AddrMode::REL, false);
        stepstring.append("$");
        crate::text::push_hex4(stepstring, target);
        proof {
            assert(stepstring@ =~= old(stepstring)@ + ("$"@ + crate::text::hex4(target)));
        }
        if self.cpu.SR.N {
            let _crossing: u16 = self.calc_addr(bytes.as_slice(), AddrMode::REL, true);
            self.cpu.PC = target;
            self.cycles = self.cycles + 1;
        }
        Ok(())
    }

    /// Branch on not equal (zero clear). A taken branch costs one extra cycle, two when it crosses a page.
    #[verifier::rlimit(100)]
    #[verifier::spinoff_prover]
    pub fn BNE(&mut self, instr: u8, bytes: Vec<u8>, stepstring: &mut String) -> (r: Result<
        (),
        Fault,
    >)
        requires
            old(self).wf(),
            instr == 0xD0,
            bytes@.len() == op_len(instr),
            old(self).cycles < u128::MAX - 16,
        ensures
            handler_contract(
                old(self),
                final(self),
                old(stepstring)@,
                final(stepstring)@,
                instr,
                bytes@[1],
                b2_of(bytes@),
                r,
            ),
    {
        proof {
            crate::sem::lemma_bne(old(self), instr, bytes@[1], b2_of(bytes@));
        }
        self.advance(instr);
        let target = self.calc_addr(bytes.as_slice(), AddrMode::REL, false);
        stepstring.append("$");
        crate::text::push_hex4(stepstring, target);
        proof {
            assert(stepstring@ =~= old(stepstring)@ + ("$"@ + crate::text::hex4(target)));
        }
        if !self.cpu.SR.Z {
            let _crossing: u16 = self.calc_addr(bytes.as_slice(), AddrMode::REL, true);
            self.cpu.PC = target;
            self.cycles = self.cycles + 1;
        }
        Ok(())
    }

    /// Branch on plus (negative clear). A taken branch costs one extra cycle, two when it crosses a page.
    #[verifier::rlimit(100)]
    #[verifier::spinoff_prover]
    pub fn BPL(&mut self, instr: u8, bytes: Vec<u8>, stepstring: &mut String) -> (r: Result<
        (),
        Fault,
    >)
        requires
            old(self).wf(),
            instr == 0x10,
            bytes@.len() == op_len(instr),
            old(self).cycles < u128::MAX - 16,
        ensures
            handler_contract(
                old(self),
                final(self),
                old(stepstring)@,
                final(stepstring)@,
                instr,
                bytes@[1],
                b2_of(bytes@),
                r,
            ),
    {
        proof {
            crate::sem::lemma_bpl(old(self), instr, bytes@[1], b2_of(bytes@));
        }
        self.advance(instr);
        let target = self.calc_addr(bytes.as_slice(), AddrMode::REL, false);
        stepstring.append("$");
        crate::text::push_hex4(stepstring, target);
        proof {
            assert(stepstring@ =~= old(stepstring)@ + ("$"@ + crate::text::hex4(target)));
        }
        if !self.cpu.SR.N {
            let _crossing: u16 = self.calc_addr(bytes.as_slice(), AddrMode::REL, true);
            self.cpu.PC = target;
            self.cycles = self.cycles + 1;
        }
        Ok(())
    }

    /// Branch on overflow clear. A taken branch costs one extra cycle, two when it crosses a page.
    #[verifier::rlimit(100)]
    #[verifier::spinoff_prover]
    pub fn BVC(&mut self, instr: u8, bytes: Vec<u8>, stepstring: &mut String) -> (r: Result<
        (),
        Fault,
    >)
        requires
            old(self).wf(),
            instr == 0x50,
            bytes@.len() == op_len(instr),
            old(self).cycles < u128::MAX - 16,
        ensures
            handler_contract(
                old(self),
                final(self),
                old(stepstring)@,
                final(stepstring)@,
                instr,
                bytes@[1],
                b2_of(bytes@),
                r,
            ),
    {
        proof {
            crate::sem::lemma_bvc(old(self), instr, bytes@[1], b2_of(bytes@));
        }
        self.advance(instr);
        let target = self.calc_addr(bytes.as_slice(), AddrMode::REL, false);
        stepstring.append("$");
        crate::text::push_hex4(stepstring, target);
        proof {
            assert(stepstring@ =~= old(stepstring)@ + ("$"@ + crate::text::hex4(target)));
        }
        if !self.cpu.SR.V {
            let _crossing: u16 = self.calc_addr(bytes.as_slice(), AddrMode::REL, true);
            self.cpu.PC = target;
            self.cycles = self.cycles + 1;
        }
        Ok(())
    }

    /// Branch on overflow set. A taken branch costs one extra cycle, two when it crosses a page.
    #[verifier::rlimit(100)]
    #[verifier::spinoff_prover]
    pub fn BVS(&mut self, instr: u8, bytes: Vec<u8>, stepstring: &mut String) -> (r: Result<
        (),
        Fault,
    >)
        requires
            old(self).wf(),
            instr == 0x70,
            bytes@.len() == op_len(instr),
            old(self).cycles < u128::MAX - 16,
        ensures
            handler_contract(
                old(self),
                final(self),
                old(stepstring)@,
                final(stepstring)@,
                instr,
                bytes@[1],
                b2_of(bytes@),
                r,
            ),
    {
        proof {
            crate::sem::lemma_bvs(old(self), instr, bytes@[1], b2_of(bytes@));
        }
        self.advance(instr);
        let target = self.calc_addr(bytes.as_slice(), AddrMode::REL, false);
        stepstring.append("$");
        crate::text::push_hex4(stepstring, target);
        proof {
            assert(stepstring@ =~= old(stepstring)@ + ("$"@ + crate::text::hex4(target)));
        }
        if self.cpu.SR.V {
            let _crossing: u16 = self.calc_addr(bytes.as_slice(), AddrMode::REL, true);
            self.cpu.PC = target;
            self.cycles = self.cycles + 1;
        }
        Ok(())
    }

    /// Jump: absolute sets the program counter from the operand word; indirect reads it through the operand pointer, whose high-byte fetch wraps within the page.
    #[verifier::rlimit(100)]
    #[verifier::spinoff_prover]
    pub fn JMP(&mut self, instr: u8, bytes: Vec<u8>, stepstring: &mut String) -> (r: Result<
        (),
        Fault,
    >)
        requires
            old(self).wf(),
            is_jmp(instr),
            bytes@.len() == op_len(instr),
            old(self).cycles < u128::MAX - 16,
        ensures
            handler_contract(
                old(self),
                final(self),
                old(stepstring)@,
                final(stepstring)@,
                instr,
                bytes@[1],
                b2_of(bytes@),
                r,
            ),
    {
        proof {
            crate::sem::lemma_jmp(old(self), instr, bytes@[1], b2_of(bytes@));
        }
        if instr == 0x4C {
            let target = bytes[2] as u16 * 256 + bytes[1] as u16;
            stepstring.append("$");
            crate::text::push_hex4(stepstring, target);
            proof {
                assert(stepstring@ =~= old(stepstring)@ + ("$"@ + crate::text::hex4(target)));
            }
            self.cpu.PC = target;
        } else {
            let base_addr = bytes[2] as u16 * 256 + bytes[1] as u16;
            let new_lo = match self.read1(base_addr) {
                Ok(v) => v,
                Err(f) => {
                    return Err(f);
                },
            };
            let addr2 = base_addr - base_addr % 256 + (base_addr % 256 + 1) % 256;
            let new_hi = match self.read1(addr2) {
                Ok(v) => v,
                Err(f) => {
                    return Err(f);
                },
            };
            let new_pc = new_hi as u16 * 256 + new_lo as u16;
            stepstring.append("($");
            crate::text::push_hex4(stepstring, base_addr);
            stepstring.append(") = ");
            crate::text::push_hex4(stepstring, new_pc);
            proof {
                assert(stepstring@ =~= old(stepstring)@ + ("($"@ + crate::text::hex4(base_addr)
                    + ") = "@ + crate::text::hex4(new_pc)));
            }
            self.cpu.PC = new_pc;
        }
        self.add_base_cycles(instr);
        Ok(())
    }

    /// Jump to subroutine: pushes the address of its own last byte (high byte first), then jumps to the operand word.
    #[verifier::rlimit(100)]
    #[verifier::spinoff_prover]
    pub fn JSR(&mut self, instr: u8, bytes: Vec<u8>, stepstring: &mut String) -> (r: Result<
        (),
        Fault,
    >)
        requires
            old(self).wf(),
            instr == 0x20,
            bytes@.len() == op_len(instr),
            old(self).cycles < u128::MAX - 16,
        ensures
            handler_contract(
                old(self),
                final(self),
                old(stepstring)@,
                final(stepstring)@,
                instr,
                bytes@[1],
                b2_of(bytes@),
                r,
            ),
    {
        proof {
            crate::sem::lemma_jsr(old(self), instr, bytes@[1], b2_of(bytes@));
        }
        let ra = wadd16(self.cpu.PC, 2);
        let rah = (ra / 256) as u8;
        let ral = (ra % 256) as u8;
        self.cpu.push(&mut self.wram, rah);
        self.cpu.push(&mut self.wram, ral);
        let target = bytes[2] as u16 * 256 + bytes[1] as u16;
        self.cpu.PC = target;
        stepstring.append("$");
        crate::text::push_hex4(stepstring, target);
        proof {
            assert(stepstring@ =~= old(stepstring)@ + ("$"@ + crate::text::hex4(target)));
        }
        self.add_base_cycles(instr);
        Ok(())
    }

    /// Return from subroutine: pulls the return address (low byte first) and resumes one past it.
    #[verifier::rlimit(100)]
    #[verifier::spinoff_prover]
    pub fn RTS(&mut self, instr: u8, bytes: Vec<u8>, stepstring: &mut String) -> (r: Result<
        (),
        Fault,
    >)
        requires
            old(self).wf(),
            instr == 0x60,
            bytes@.len() == op_len(instr),
            old(self).cycles < u128::MAX - 16,
        ensures
            handler_contract(
                old(self),
                final(self),
                old(stepstring)@,
                final(stepstring)@,
                instr,
                bytes@[1],
                b2_of(bytes@),
                r,
            ),
    {
        proof {
            crate::sem::lemma_rts(old(self), instr, bytes@[1], b2_of(bytes@));
        }
        proof {
            crate::sem::lemma_wrap8_add(old(self).cpu.SP as int + 1, 1);
        }
        let new_pc_lo = self.cpu.pop(&mut self.wram) as u16;
        let new_pc_hi = self.cpu.pop(&mut self.wram) as u16;
        self.cpu.PC = wadd16(new_pc_hi * 256 + new_pc_lo, 1);
        self.add_base_cycles(instr);
        Ok(())
    }

    /// Return from interrupt: pulls the status byte - preserving both B bits - then the return address.
    #[verifier::rlimit(100)]
    #[verifier::spinoff_prover]
    pub fn RTI(&mut self, instr: u8, bytes: Vec<u8>, stepstring: &mut String) -> (r: Result<
        (),
        Fault,
    >)
        requires
            old(self).wf(),
            instr == 0x40,
            bytes@.len() == op_len(instr),
            old(self).cycles < u128::MAX - 16,
        ensures
            handler_contract(
                old(self),
                final(self),
                old(stepstring)@,
                final(stepstring)@,
                instr,
                bytes@[1],
                b2_of(bytes@),
                r,
            ),
    {
        proof {
            crate::sem::lemma_rti(old(self), instr, bytes@[1], b2_of(bytes@));
        }
        proof {
            crate::sem::lemma_wrap8_add(old(self).cpu.SP as int + 1, 1);
            crate::sem::lemma_wrap8_add(old(self).cpu.SP as int + 2, 1);
        }
        let new_sr = self.cpu.pop(&mut self.wram);
        let old_bh = self.cpu.SR.BH;
        let old_bl = self.cpu.SR.BL;
        self.cpu.SR.encode(new_sr);
        self.cpu.SR.BH = old_bh;
        self.cpu.SR.BL = old_bl;
        let new_pc_lo = self.cpu.pop(&mut self.wram) as u16;
        let new_pc_hi = self.cpu.pop(&mut self.wram) as u16;
        self.cpu.PC = new_pc_hi * 256 + new_pc_lo;
        self.add_base_cycles(instr);
        Ok(())
    }

    /// Break: pushes the address two past the opcode (high byte first), sets interrupt-disable, then pushes the status byte with both B bits set.
    #[verifier::rlimit(100)]
    #[verifier::spinoff_prover]
    pub fn BRK(&mut self, instr: u8, bytes: Vec<u8>, stepstring: &mut String) -> (r: Result<
        (),
        Fault,
    >)
        requires
            old(self).wf(),
            instr == 0x00,
            bytes@.len() == op_len(instr),
            old(self).cycles < u128::MAX - 16,
        ensures
            handler_contract(
                old(self),
                final(self),
                old(stepstring)@,
                final(stepstring)@,
                instr,
                bytes@[1],
                b2_of(bytes@),
                r,
            ),
    {
        proof {
            crate::sem::lemma_brk(old(self), instr, bytes@[1], b2_of(bytes@));
        }
        proof {
            crate::sem::lemma_wrap8_add(old(self).cpu.SP as int + 255, 255);
            crate::sem::lemma_wrap8_drop256(old(self).cpu.SP as int + 254);
        }
        let ra = wadd16(self.cpu.PC, 2);
        self.cpu.push(&mut self.wram, (ra / 256) as u8);
        self.cpu.push(&mut self.wram, (ra % 256) as u8);
        self.cpu.SR.I = true;
        let mut saved_sr = self.cpu.SR;
        saved_sr.BH = true;
        saved_sr.BL = true;
        self.cpu.push(&mut self.wram, saved_sr.decode());
        self.advance(instr);
        Ok(())
    }

    /// Push the accumulator.
    #[verifier::rlimit(100)]
    #[verifier::spinoff_prover]
    pub fn PHA(&mut self, instr: u8, bytes: Vec<u8>, stepstring: &mut String) -> (r: Result<
        (),
        Fault,
    >)
        requires
            old(self).wf(),
            instr == 0x48,
            bytes@.len() == op_len(instr),
            old(self).cycles < u128::MAX - 16,
        ensures
            handler_contract(
                old(self),
                final(self),
                old(stepstring)@,
                final(stepstring)@,
                instr,
                bytes@[1],
                b2_of(bytes@),
                r,
            ),
    {
        proof {
            crate::sem::lemma_pha(old(self), instr, bytes@[1], b2_of(bytes@));
        }
        self.cpu.push(&mut self.wram, self.cpu.ACC);
        self.advance(instr);
        Ok(())
    }

    /// Push the status byte with both B bits set.
    #[verifier::rlimit(100)]
    #[verifier::spinoff_prover]
    pub fn PHP(&mut self, instr: u8, bytes: Vec<u8>, stepstring: &mut String) -> (r: Result<
        (),
        Fault,
    >)
        requires
            old(self).wf(),
            instr == 0x08,
            bytes@.len() == op_len(instr),
            old(self).cycles < u128::MAX - 16,
        ensures
            handler_contract(
                old(self),
                final(self),
                old(stepstring)@,
                final(stepstring)@,
                instr,
                bytes@[1],
                b2_of(bytes@),
                r,
            ),
    {
        proof {
            crate::sem::lemma_php(old(self), instr, bytes@[1], b2_of(bytes@));
        }
        let mut saved_sr = self.cpu.SR;
        saved_sr.BH = true;
        saved_sr.BL = true;
        self.cpu.push(&mut self.wram, saved_sr.decode());
        self.advance(instr);
        Ok(())
    }

    /// Pull the accumulator, setting N and Z.
    #[verifier::rlimit(100)]
    #[verifier::spinoff_prover]
    pub fn PLA(&mut self, instr: u8, bytes: Vec<u8>, stepstring: &mut String) -> (r: Result<
        (),
        Fault,
    >)
        requires
            old(self).wf(),
            instr == 0x68,
            bytes@.len() == op_len(instr),
            old(self).cycles < u128::MAX - 16,
        ensures
            handler_contract(
                old(self),
                final(self),
                old(stepstring)@,
                final(stepstring)@,
                instr,
                bytes@[1],
                b2_of(bytes@),
                r,
            ),
    {
        proof {
            crate::sem::lemma_pla(old(self), instr, bytes@[1], b2_of(bytes@));
        }
        let val = self.cpu.pop(&mut self.wram);
        self.cpu.ACC = val;
        self.cpu.SR.N = val >= 128;
        self.cpu.SR.Z = val == 0;
        self.advance(instr);
        Ok(())
    }

    /// Pull the status byte, preserving both B bits.
    #[verifier::rlimit(100)]
    #[verifier::spinoff_prover]
    pub fn PLP(&mut self, instr: u8, bytes: Vec<u8>, stepstring: &mut String) -> (r: Result<
        (),
        Fault,
    >)
        requires
            old(self).wf(),
            instr == 0x28,
            bytes@.len() == op_len(instr),
            old(self).cycles < u128::MAX - 16,
        ensures
            handler_contract(
                old(self),
                final(self),
                old(stepstring)@,
                final(stepstring)@,
                instr,
                bytes@[1],
                b2_of(bytes@),
                r,
            ),
    {
        proof {
            crate::sem::lemma_plp(old(self), instr, bytes@[1], b2_of(bytes@));
        }
        let pulled = self.cpu.pop(&mut self.wram);
        let old_bh = self.cpu.SR.BH;
        let old_bl = self.cpu.SR.BL;
        self.cpu.SR.encode(pulled);
        self.cpu.SR.BH = old_bh;
        self.cpu.SR.BL = old_bl;
        self.advance(instr);
        Ok(())
    }

    /// Clear carry.
    #[verifier::rlimit(100)]
    #[verifier::spinoff_prover]
    pub fn CLC(&mut self, instr: u8, bytes: Vec<u8>, stepstring: &mut String) -> (r: Result<
        (),
        Fault,
    >)
        requires
            old(self).wf(),
            instr == 0x18,
            bytes@.len() == op_len(instr),
            old(self).cycles < u128::MAX - 16,
        ensures
            handler_contract(
                old(self),
                final(self),
                old(stepstring)@,
                final(stepstring)@,
                instr,
                bytes@[1],
                b2_of(bytes@),
                r,
            ),
    {
        proof {
            crate::sem::lemma_clc(old(self), instr, bytes@[1], b2_of(bytes@));
        }
        self.cpu.SR.C = false;
        self.advance(instr);
        Ok(())
    }

    /// Clear decimal mode.
    #[verifier::rlimit(100)]
    #[verifier::spinoff_prover]
    pub fn CLD(&mut self, instr: u8, bytes: Vec<u8>, stepstring: &mut String) -> (r: Result<
        (),
        Fault,
    >)
        requires
            old(self).wf(),
            instr == 0xD8,
            bytes@.len() == op_len(instr),
            old(self).cycles < u128::MAX - 16,
        ensures
            handler_contract(
                old(self),
                final(self),
                old(stepstring)@,
                final(stepstring)@,
                instr,
                bytes@[1],
                b2_of(bytes@),
                r,
            ),
    {
        proof {
            crate::sem::lemma_cld(old(self), instr, bytes@[1], b2_of(bytes@));
        }
        self.cpu.SR.D = false;
        self.advance(instr);
        Ok(())
    }

    /// Clear interrupt-disable.
    #[verifier::rlimit(100)]
    #[verifier::spinoff_prover]
    pub fn CLI(&mut self, instr: u8, bytes: Vec<u8>, stepstring: &mut String) -> (r: Result<
        (),
        Fault,
    >)
        requires
            old(self).wf(),
            instr == 0x58,
            bytes@.len() == op_len(instr),
            old(self).cycles < u128::MAX - 16,
        ensures
            handler_contract(
                old(self),
                final(self),
                old(stepstring)@,
                final(stepstring)@,
                instr,
                bytes@[1],
                b2_of(bytes@),
                r,
            ),
    {
        proof {
            crate::sem::lemma_cli(old(self), instr, bytes@[1], b2_of(bytes@));
        }
        self.cpu.SR.I = false;
        self.advance(instr);
        Ok(())
    }

    /// Clear overflow.
    #[verifier::rlimit(100)]
    #[verifier::spinoff_prover]
    pub fn CLV(&mut self, instr: u8, bytes: Vec<u8>, stepstring: &mut String) -> (r: Result<
        (),
        Fault,
    >)
        requires
            old(self).wf(),
            instr == 0xB8,
            bytes@.len() == op_len(instr),
            old(self).cycles < u128::MAX - 16,
        ensures
            handler_contract(
                old(self),
                final(self),
                old(stepstring)@,
                final(stepstring)@,
                instr,
                bytes@[1],
                b2_of(bytes@),
                r,
            ),
    {
        proof {
            crate::sem::lemma_clv(old(self), instr, bytes@[1], b2_of(bytes@));
        }
        self.cpu.SR.V = false;
        self.advance(instr);
        Ok(())
    }

    /// Set carry.
    #[verifier::rlimit(100)]
    #[verifier::spinoff_prover]
    pub fn SEC(&mut self, instr: u8, bytes: Vec<u8>, stepstring: &mut String) -> (r: Result<
        (),
        Fault,
    >)
        requires
            old(self).wf(),
            instr == 0x38,
            bytes@.len() == op_len(instr),
            old(self).cycles < u128::MAX - 16,
        ensures
            handler_contract(
                old(self),
                final(self),
                old(stepstring)@,
                final(stepstring)@,
                instr,
                bytes@[1],
                b2_of(bytes@),
                r,
            ),
    {
        proof {
            crate::sem::lemma_sec(old(self), instr, bytes@[1], b2_of(bytes@));
        }
        self.cpu.SR.C = true;
        self.advance(instr);
        Ok(())
    }

    /// Set decimal mode (tracked but inert in arithmetic).
    #[verifier::rlimit(100)]
    #[verifier::spinoff_prover]
    pub fn SED(&mut self, instr: u8, bytes: Vec<u8>, stepstring: &mut String) -> (r: Result<
        (),
        Fault,
    >)
        requires
            old(self).wf(),
            instr == 0xF8,
            bytes@.len() == op_len(instr),
            old(self).cycles < u128::MAX - 16,
        ensures
            handler_contract(
                old(self),
                final(self),
                old(stepstring)@,
                final(stepstring)@,
                instr,
                bytes@[1],
                b2_of(bytes@),
                r,
            ),
    {
        proof {
            crate::sem::lemma_sed(old(self), instr, bytes@[1], b2_of(bytes@));
        }
        self.cpu.SR.D = true;
        self.advance(instr);
        Ok(())
    }

    /// Set interrupt-disable.
    #[verifier::rlimit(100)]
    #[verifier::spinoff_prover]
    pub fn SEI(&mut self, instr: u8, bytes: Vec<u8>, stepstring: &mut String) -> (r: Result<
        (),
        Fault,
    >)
        requires
            old(self).wf(),
            instr == 0x78,
            bytes@.len() == op_len(instr),
            old(self).cycles < u128::MAX - 16,
        ensures
            handler_contract(
                old(self),
                final(self),
                old(stepstring)@,
                final(stepstring)@,
                instr,
                bytes@[1],
                b2_of(bytes@),
                r,
            ),
    {
        proof {
            crate::sem::lemma_sei(old(self), instr, bytes@[1], b2_of(bytes@));
        }
        self.cpu.SR.I = true;
        self.advance(instr);
        Ok(())
    }

    /// Transfer the accumulator to X, setting N and Z.
    #[verifier::rlimit(100)]
    #[verifier::spinoff_prover]
    pub fn TAX(&mut self, instr: u8, bytes: Vec<u8>, stepstring: &mut String) -> (r: Result<
        (),
        Fault,
    >)
        requires
            old(self).wf(),
            instr == 0xAA,
            bytes@.len() == op_len(instr),
            old(self).cycles < u128::MAX - 16,
        ensures
            handler_contract(
                old(self),
                final(self),
                old(stepstring)@,
                final(stepstring)@,
                instr,
                bytes@[1],
                b2_of(bytes@),
                r,
            ),
    {
        proof {
            crate::sem::lemma_tax(old(self), instr, bytes@[1], b2_of(bytes@));
        }
        self.cpu.X = self.cpu.ACC;
        self.cpu.SR.N = self.cpu.X >= 128;
        self.cpu.SR.Z = self.cpu.X == 0;
        self.advance(instr);
        Ok(())
    }

    /// Transfer the accumulator to Y, setting N and Z.
    #[verifier::rlimit(100)]
    #[verifier::spinoff_prover]
    pub fn TAY(&mut self, instr: u8, bytes: Vec<u8>, stepstring: &mut String) -> (r: Result<
        (),
        Fault,
    >)
        requires
            old(self).wf(),
            instr == 0xA8,
            bytes@.len() == op_len(instr),
            old(self).cycles < u128::MAX - 16,
        ensures
            handler_contract(
                old(self),
                final(self),
                old(stepstring)@,
                final(stepstring)@,
                instr,
                bytes@[1],
                b2_of(bytes@),
                r,
            ),
    {
        proof {
            crate::sem::lemma_tay(old(self), instr, bytes@[1], b2_of(bytes@));
        }
        self.cpu.Y = self.cpu.ACC;
        self.cpu.SR.N = self.cpu.Y >= 128;
        self.cpu.SR.Z = self.cpu.Y == 0;
        self.advance(instr);
        Ok(())
    }

    /// Transfer the stack pointer to X, setting N and Z.
    #[verifier::rlimit(100)]
    #[verifier::spinoff_prover]
    pub fn TSX(&mut self, instr: u8, bytes: Vec<u8>, stepstring: &mut String) -> (r: Result<
        (),
        Fault,
    >)
        requires
            old(self).wf(),
            instr == 0xBA,
            bytes@.len() == op_len(instr),
            old(self).cycles < u128::MAX - 16,
        ensures
            handler_contract(
                old(self),
                final(self),
                old(stepstring)@,
                final(stepstring)@,
                instr,
                bytes@[1],
                b2_of(bytes@),
                r,
            ),
    {
        proof {
            crate::sem::lemma_tsx(old(self), instr, bytes@[1], b2_of(bytes@));
        }
        self.cpu.X = self.cpu.SP;
        self.cpu.SR.N = self.cpu.X >= 128;
        self.cpu.SR.Z = self.cpu.X == 0;
        self.advance(instr);
        Ok(())
    }

    /// Transfer X to the accumulator, setting N and Z.
    #[verifier::rlimit(100)]
    #[verifier::spinoff_prover]
    pub fn TXA(&mut self, instr: u8, bytes: Vec<u8>, stepstring: &mut String) -> (r: Result<
        (),
        Fault,
    >)
        requires
            old(self).wf(),
            instr == 0x8A,
            bytes@.len() == op_len(instr),
            old(self).cycles < u128::MAX - 16,
        ensures
            handler_contract(
                old(self),
                final(self),
                old(stepstring)@,
                final(stepstring)@,
                instr,
                bytes@[1],
                b2_of(bytes@),
                r,
            ),
    {
        proof {
            crate::sem::lemma_txa(old(self), instr, bytes@[1], b2_of(bytes@));
        }
        self.cpu.ACC = self.cpu.X;
        self.cpu.SR.N = self.cpu.ACC >= 128;
        self.cpu.SR.Z = self.cpu.ACC == 0;
        self.advance(instr);
        Ok(())
    }

    /// Transfer X to the stack pointer; no flags.
    #[verifier::rlimit(100)]
    #[verifier::spinoff_prover]
    pub fn TXS(&mut self, instr: u8, bytes: Vec<u8>, stepstring: &mut String) -> (r: Result<
        (),
        Fault,
    >)
        requires
            old(self).wf(),
            instr == 0x9A,
            bytes@.len() == op_len(instr),
            old(self).cycles < u128::MAX - 16,
        ensures
            handler_contract(
                old(self),
                final(self),
                old(stepstring)@,
                final(stepstring)@,
                instr,
                bytes@[1],
                b2_of(bytes@),
                r,
            ),
    {
        proof {
            crate::sem::lemma_txs(old(self), instr, bytes@[1], b2_of(bytes@));
        }
        self.cpu.SP = self.cpu.X;
        self.advance(instr);
        Ok(())
    }

    /// Transfer Y to the accumulator, setting N and Z.
    #[verifier::rlimit(100)]
    #[verifier::spinoff_prover]
    pub fn TYA(&mut self, instr: u8, bytes: Vec<u8>, stepstring: &mut String) -> (r: Result<
        (),
        Fault,
    >)
        requires
            old(self).wf(),
            instr == 0x98,
            bytes@.len() == op_len(instr),
            old(self).cycles < u128::MAX - 16,
        ensures
            handler_contract(
                old(self),
                final(self),
                old(stepstring)@,
                final(stepstring)@,
                instr,
                bytes@[1],
                b2_of(bytes@),
                r,
            ),
    {
        proof {
            crate::sem::lemma_tya(old(self), instr, bytes@[1], b2_of(bytes@));
        }
        self.cpu.ACC = self.cpu.Y;
        self.cpu.SR.N = self.cpu.ACC >= 128;
        self.cpu.SR.Z = self.cpu.ACC == 0;
        self.advance(instr);
        Ok(())
    }

    /// Decrement X, setting N and Z.
    #[verifier::rlimit(100)]
    #[verifier::spinoff_prover]
    pub fn DEX(&mut self, instr: u8, bytes: Vec<u8>, stepstring: &mut String) -> (r: Result<
        (),
        Fault,
    >)
        requires
            old(self).wf(),
            instr == 0xCA,
            bytes@.len() == op_len(instr),
            old(self).cycles < u128::MAX - 16,
        ensures
            handler_contract(
                old(self),
                final(self),
                old(stepstring)@,
                final(stepstring)@,
                instr,
                bytes@[1],
                b2_of(bytes@),
                r,
            ),
    {
        proof {
            crate::sem::lemma_dex(old(self), instr, bytes@[1], b2_of(bytes@));
        }
        self.cpu.X = wsub8(self.cpu.X, 1);
        self.cpu.SR.N = self.cpu.X >= 128;
        self.cpu.SR.Z = self.cpu.X == 0;
        self.advance(instr);
        Ok(())
    }

    /// Decrement Y, setting N and Z.
    #[verifier::rlimit(100)]
    #[verifier::spinoff_prover]
    pub fn DEY(&mut self, instr: u8, bytes: Vec<u8>, stepstring: &mut String) -> (r: Result<
        (),
        Fault,
    >)
        requires
            old(self).wf(),
            instr == 0x88,
            bytes@.len() == op_len(instr),
            old(self).cycles < u128::MAX - 16,
        ensures
            handler_contract(
                old(self),
                final(self),
                old(stepstring)@,
                final(stepstring)@,
                instr,
                bytes@[1],
                b2_of(bytes@),
                r,
            ),
    {
        proof {
            crate::sem::lemma_dey(old(self), instr, bytes@[1], b2_of(bytes@));
        }
        self.cpu.Y = wsub8(self.cpu.Y, 1);
        self.cpu.SR.N = self.cpu.Y >= 128;
        self.cpu.SR.Z = self.cpu.Y == 0;
        self.advance(instr);
        Ok(())
    }

    /// Increment X, setting N and Z.
    #[verifier::rlimit(100)]
    #[verifier::spinoff_prover]
    pub fn INX(&mut self, instr: u8, bytes: Vec<u8>, stepstring: &mut String) -> (r: Result<
        (),
        Fault,
    >)
        requires
            old(self).wf(),
            instr == 0xE8,
            bytes@.len() == op_len(instr),
            old(self).cycles < u128::MAX - 16,
        ensures
            handler_contract(
                old(self),
                final(self),
                old(stepstring)@,
                final(stepstring)@,
                instr,
                bytes@[1],
                b2_of(bytes@),
                r,
            ),
    {
        proof {
            crate::sem::lemma_inx(old(self), instr, bytes@[1], b2_of(bytes@));
        }
        self.cpu.X = wadd8(self.cpu.X, 1);
        self.cpu.SR.N = self.cpu.X >= 128;
        self.cpu.SR.Z = self.cpu.X == 0;
        self.advance(instr);
        Ok(())
    }

    /// Increment Y, setting N and Z.
    #[verifier::rlimit(100)]
    #[verifier::spinoff_prover]
    pub fn INY(&mut self, instr: u8, bytes: Vec<u8>, stepstring: &mut String) -> (r: Result<
        (),
        Fault,
    >)
        requires
            old(self).wf(),
            instr == 0xC8,
            bytes@.len() == op_len(instr),
            old(self).cycles < u128::MAX - 16,
        ensures
            handler_contract(
                old(self),
                final(self),
                old(stepstring)@,
                final(stepstring)@,
                instr,
                bytes@[1],
                b2_of(bytes@),
                r,
            ),
    {
        proof {
            crate::sem::lemma_iny(old(self), instr, bytes@[1], b2_of(bytes@));
        }
        self.cpu.Y = wadd8(self.cpu.Y, 1);
        self.cpu.SR.N = self.cpu.Y >= 128;
        self.cpu.SR.Z = self.cpu.Y == 0;
        self.advance(instr);
        Ok(())
    }

    /// No operation.
    #[verifier::rlimit(100)]
    #[verifier::spinoff_prover]
    pub fn NOP(&mut self, instr: u8, bytes: Vec<u8>, stepstring: &mut String) -> (r: Result<
        (),
        Fault,
    >)
        requires
            old(self).wf(),
            instr == 0xEA,
            bytes@.len() == op_len(instr),
            old(self).cycles < u128::MAX - 16,
        ensures
            handler_contract(
                old(self),
                final(self),
                old(stepstring)@,
                final(stepstring)@,
                instr,
                bytes@[1],
                b2_of(bytes@),
                r,
            ),
    {
        proof {
            crate::sem::lemma_nop(old(self), instr, bytes@[1], b2_of(bytes@));
        }
        self.advance(instr);
        Ok(())
    }

    /// Undocumented NOP: reads (and discards) its operand where it has one, so the usual operand text and page-cross penalty still apply.
    #[verifier::rlimit(100)]
    #[verifier::spinoff_prover]
    pub fn INOP(&mut self, instr: u8, bytes: Vec<u8>, stepstring: &mut String) -> (r: Result<
        (),
        Fault,
    >)
        requires
            old(self).wf(),
            is_inop(instr),
            bytes@.len() == op_len(instr),
            old(self).cycles < u128::MAX - 16,
        ensures
            handler_contract(
                old(self),
                final(self),
                old(stepstring)@,
                final(stepstring)@,
                instr,
                bytes@[1],
                b2_of(bytes@),
                r,
            ),
    {
        proof {
            crate::sem::lemma_inop(old(self), instr, bytes@[1], b2_of(bytes@));
        }
        match instr {
            0x80 | 0x82 | 0x89 | 0xC2 | 0xE2 => {
                stepstring.append("#$");
                crate::text::push_hex2(stepstring, bytes[1]);
                proof {
                    assert(stepstring@ =~= old(stepstring)@ + ("#$"@ + crate::text::hex2(
                        bytes@[1],
                    )));
                }
            },
            0x04 | 0x44 | 0x64 => {
                match self.get_val(bytes.as_slice(), AddrMode::ZPG, stepstring, false) {
                    Ok(_) => {},
                    Err(f) => {
                        return Err(f);
                    },
                }
            },
            0x14 | 0x34 | 0x54 | 0x74 | 0xD4 | 0xF4 => {
                match self.get_val(bytes.as_slice(), AddrMode::ZPGX, stepstring, false) {
                    Ok(_) => {},
                    Err(f) => {
                        return Err(f);
                    },
                }
            },
            0x0C => {
                match self.get_val(bytes.as_slice(), AddrMode::ABS, stepstring, false) {
                    Ok(_) => {},
                    Err(f) => {
                        return Err(f);
                    },
                }
            },
            0x1C | 0x3C | 0x5C | 0x7C | 0xDC | 0xFC => {
                match self.get_val(bytes.as_slice(), AddrMode::ABSX, stepstring, true) {
                    Ok(_) => {},
                    Err(f) => {
                        return Err(f);
                    },
                }
            },
            _ => {},
        }
        self.advance(instr);
        Ok(())
    }

    /// Undocumented SBC (immediate): behaves exactly like the documented subtract with borrow.
    #[verifier::rlimit(100)]
    #[verifier::spinoff_prover]
    pub fn IUSBC(&mut self, instr: u8, bytes: Vec<u8>, stepstring: &mut String) -> (r: Result<
        (),
        Fault,
    >)
        requires
            old(self).wf(),
            instr == 0xEB,
            bytes@.len() == op_len(instr),
            old(self).cycles < u128::MAX - 16,
        ensures
            handler_contract(
                old(self),
                final(self),
                old(stepstring)@,
                final(stepstring)@,
                instr,
                bytes@[1],
                b2_of(bytes@),
                r,
            ),
    {
        proof {
            crate::sem::lemma_sbc(old(self), instr, bytes@[1], b2_of(bytes@));
        }
        let val = match self.get_val(bytes.as_slice(), AddrMode::IMM, stepstring, false) {
            Ok(v) => v,
            Err(f) => {
                return Err(f);
            },
        };
        let (res, carry, over) = sbc_core(self.cpu.ACC, val, self.cpu.SR.C);
        self.cpu.ACC = res;
        self.cpu.SR.N = res >= 128;
        self.cpu.SR.Z = res == 0;
        self.cpu.SR.C = carry;
        self.cpu.SR.V = over;
        self.advance(instr);
        Ok(())
    }

    /// Undocumented DCP: decrement memory, then compare the accumulator against the decremented byte (the trace shows the byte before the decrement).
    #[verifier::rlimit(100)]
    #[verifier::spinoff_prover]
    pub fn IDCP(&mut self, instr: u8, bytes: Vec<u8>, stepstring: &mut String) -> (r: Result<
        (),
        Fault,
    >)
        requires
            old(self).wf(),
            is_idcp(instr),
            bytes@.len() == op_len(instr),
            old(self).cycles < u128::MAX - 16,
        ensures
            handler_contract(
                old(self),
                final(self),
                old(stepstring)@,
                final(stepstring)@,
                instr,
                bytes@[1],
                b2_of(bytes@),
                r,
            ),
    {
        proof {
            crate::sem::lemma_idcp(old(self), instr, bytes@[1], b2_of(bytes@));
        }
        let mode = match instr {
            0xC3 => AddrMode::INDX,
            0xC7 => AddrMode::ZPG,
            0xCF => AddrMode::ABS,
            0xD3 => AddrMode::INDY,
            0xD7 => AddrMode::ZPGX,
            0xDB => AddrMode::ABSY,
            0xDF => AddrMode::ABSX,
            _ => unreached(),
        };
        let addr = self.calc_addr(bytes.as_slice(), mode, false);
        let val = match self.get_val(bytes.as_slice(), mode, stepstring, false) {
            Ok(v) => v,
            Err(f) => {
                return Err(f);
            },
        };
        let v2 = wsub8(val, 1);
        let res = wsub8(self.cpu.ACC, v2);
        self.cpu.SR.N = res >= 128;
        self.cpu.SR.Z = res == 0;
        self.cpu.SR.C = self.cpu.ACC >= v2;
        match self.write1(addr, v2) {
            Ok(_) => {},
            Err(f) => {
                return Err(f);
            },
        }
        self.advance(instr);
        Ok(())
    }

    /// Undocumented ISB: increment memory, then subtract the incremented byte from the accumulator with borrow.
    #[verifier::rlimit(100)]
    #[verifier::spinoff_prover]
    pub fn IISB(&mut self, instr: u8, bytes: Vec<u8>, stepstring: &mut String) -> (r: Result<
        (),
        Fault,
    >)
        requires
            old(self).wf(),
            is_iisb(instr),
            bytes@.len() == op_len(instr),
            old(self).cycles < u128::MAX - 16,
        ensures
            handler_contract(
                old(self),
                final(self),
                old(stepstring)@,
                final(stepstring)@,
                instr,
                bytes@[1],
                b2_of(bytes@),
                r,
            ),
    {
        proof {
            crate::sem::lemma_iisb(old(self), instr, bytes@[1], b2_of(bytes@));
        }
        let mode = match instr {
            0xE3 => AddrMode::INDX,
            0xE7 => AddrMode::ZPG,
            0xEF => AddrMode::ABS,
            0xF3 => AddrMode::INDY,
            0xF7 => AddrMode::ZPGX,
            0xFB => AddrMode::ABSY,
            0xFF => AddrMode::ABSX,
            _ => unreached(),
        };
        let addr = self.calc_addr(bytes.as_slice(), mode, false);
        let val = match self.get_val(bytes.as_slice(), mode, stepstring, false) {
            Ok(v) => v,
            Err(f) => {
                return Err(f);
            },
        };
        let v2 = wadd8(val, 1);
        let (res, carry, over) = sbc_core(self.cpu.ACC, v2, self.cpu.SR.C);
        self.cpu.ACC = res;
        self.cpu.SR.N = res >= 128;
        self.cpu.SR.Z = res == 0;
        self.cpu.SR.C = carry;
        self.cpu.SR.V = over;
        match self.write1(addr, v2) {
            Ok(_) => {},
            Err(f) => {
                return Err(f);
            },
        }
        self.advance(instr);
        Ok(())
    }

    /// Undocumented SLO: shift memory left, then OR it into the accumulator; carry from the bit shifted out.
    #[verifier::rlimit(100)]
    #[verifier::spinoff_prover]
    pub fn ISLO(&mut self, instr: u8, bytes: Vec<u8>, stepstring: &mut String) -> (r: Result<
        (),
        Fault,
    >)
        requires
            old(self).wf(),
            is_islo(instr),
            bytes@.len() == op_len(instr),
            old(self).cycles < u128::MAX - 16,
        ensures
            handler_contract(
                old(self),
                final(self),
                old(stepstring)@,
                final(stepstring)@,
                instr,
                bytes@[1],
                b2_of(bytes@),
                r,
            ),
    {
        proof {
            crate::sem::lemma_islo(old(self), instr, bytes@[1], b2_of(bytes@));
        }
        let mode = match instr {
            0x03 => AddrMode::INDX,
            0x07 => AddrMode::ZPG,
            0x0F => AddrMode::ABS,
            0x13 => AddrMode::INDY,
            0x17 => AddrMode::ZPGX,
            0x1B => AddrMode::ABSY,
            0x1F => AddrMode::ABSX,
            _ => unreached(),
        };
        let addr = self.calc_addr(bytes.as_slice(), mode, false);
        let val = match self.get_val(bytes.as_slice(), mode, stepstring, false) {
            Ok(v) => v,
            Err(f) => {
                return Err(f);
            },
        };
        let v2 = ((val as u16 * 2) % 256) as u8;
        self.cpu.SR.C = val >= 128;
        self.cpu.ACC = self.cpu.ACC | v2;
        self.cpu.SR.N = self.cpu.ACC >= 128;
        self.cpu.SR.Z = self.cpu.ACC == 0;
        match self.write1(addr, v2) {
            Ok(_) => {},
            Err(f) => {
                return Err(f);
            },
        }
        self.advance(instr);
        Ok(())
    }

    /// Undocumented RLA: rotate memory left through carry, then AND it into the accumulator.
    #[verifier::rlimit(100)]
    #[verifier::spinoff_prover]
    pub fn IRLA(&mut self, instr: u8, bytes: Vec<u8>, stepstring: &mut String) -> (r: Result<
        (),
        Fault,
    >)
        requires
            old(self).wf(),
            is_irla(instr),
            bytes@.len() == op_len(instr),
            old(self).cycles < u128::MAX - 16,
        ensures
            handler_contract(
                old(self),
                final(self),
                old(stepstring)@,
                final(stepstring)@,
                instr,
                bytes@[1],
                b2_of(bytes@),
                r,
            ),
    {
        proof {
            crate::sem::lemma_irla(old(self), instr, bytes@[1], b2_of(bytes@));
        }
        let mode = match instr {
            0x23 => AddrMode::INDX,
            0x27 => AddrMode::ZPG,
            0x2F => AddrMode::ABS,
            0x33 => AddrMode::INDY,
            0x37 => AddrMode::ZPGX,
            0x3B => AddrMode::ABSY,
            0x3F => AddrMode::ABSX,
            _ => unreached(),
        };
        let addr = self.calc_addr(bytes.as_slice(), mode, false);
        let val = match self.get_val(bytes.as_slice(), mode, stepstring, false) {
            Ok(v) => v,
            Err(f) => {
                return Err(f);
            },
        };
        let cin: u16 = if self.cpu.SR.C {
            1
        } else {
            0
        };
        let v2 = ((val as u16 * 2 + cin) % 256) as u8;
        self.cpu.SR.C = val >= 128;
        self.cpu.ACC = self.cpu.ACC & v2;
        self.cpu.SR.N = self.cpu.ACC >= 128;
        self.cpu.SR.Z = self.cpu.ACC == 0;
        match self.write1(addr, v2) {
            Ok(_) => {},
            Err(f) => {
                return Err(f);
            },
        }
        self.advance(instr);
        Ok(())
    }

    /// Undocumented SRE: shift memory right, then XOR it into the accumulator.
    #[verifier::rlimit(100)]
    #[verifier::spinoff_prover]
    pub fn ISRE(&mut self, instr: u8, bytes: Vec<u8>, stepstring: &mut String) -> (r: Result<
        (),
        Fault,
    >)
        requires
            old(self).wf(),
            is_isre(instr),
            bytes@.len() == op_len(instr),
            old(self).cycles < u128::MAX - 16,
        ensures
            handler_contract(
                old(self),
                final(self),
                old(stepstring)@,
                final(stepstring)@,
                instr,
                bytes@[1],
                b2_of(bytes@),
                r,
            ),
    {
        proof {
            crate::sem::lemma_isre(old(self), instr, bytes@[1], b2_of(bytes@));
        }
        let mode = match instr {
            0x43 => AddrMode::INDX,
            0x47 => AddrMode::ZPG,
            0x4F => AddrMode::ABS,
            0x53 => AddrMode::INDY,
            0x57 => AddrMode::ZPGX,
            0x5B => AddrMode::ABSY,
            0x5F => AddrMode::ABSX,
            _ => unreached(),
        };
        let addr = self.calc_addr(bytes.as_slice(), mode, false);
        let val = match self.get_val(bytes.as_slice(), mode, stepstring, false) {
            Ok(v) => v,
            Err(f) => {
                return Err(f);
            },
        };
        let v2 = val / 2;
        self.cpu.SR.C = val % 2 == 1;
        self.cpu.ACC = self.cpu.ACC ^ v2;
        self.cpu.SR.N = self.cpu.ACC >= 128;
        self.cpu.SR.Z = self.cpu.ACC == 0;
        match self.write1(addr, v2) {
            Ok(_) => {},
            Err(f) => {
                return Err(f);
            },
        }
        self.advance(instr);
        Ok(())
    }

    /// Undocumented RRA: rotate memory right through carry, then add the rotated byte to the accumulator with the carry the rotation produced.
    #[verifier::rlimit(100)]
    #[verifier::spinoff_prover]
    pub fn IRRA(&mut self, instr: u8, bytes: Vec<u8>, stepstring: &mut String) -> (r: Result<
        (),
        Fault,
    >)
        requires
            old(self).wf(),
            is_irra(instr),
            bytes@.len() == op_len(instr),
            old(self).cycles < u128::MAX - 16,
        ensures
            handler_contract(
                old(self),
                final(self),
                old(stepstring)@,
                final(stepstring)@,
                instr,
                bytes@[1],
                b2_of(bytes@),
                r,
            ),
    {
        proof {
            crate::sem::lemma_irra(old(self), instr, bytes@[1], b2_of(bytes@));
        }
        let mode = match instr {
            0x63 => AddrMode::INDX,
            0x67 => AddrMode::ZPG,
            0x6F => AddrMode::ABS,
            0x73 => AddrMode::INDY,
            0x77 => AddrMode::ZPGX,
            0x7B => AddrMode::ABSY,
            0x7F => AddrMode::ABSX,
            _ => unreached(),
        };
        let addr = self.calc_addr(bytes.as_slice(), mode, false);
        let val = match self.get_val(bytes.as_slice(), mode, stepstring, false) {
            Ok(v) => v,
            Err(f) => {
                return Err(f);
            },
        };
        let v2 = val / 2 + (if self.cpu.SR.C {
            128
        } else {
            0
        });
        let c1 = val % 2 == 1;
        let (res, carry, over) = adc_core(self.cpu.ACC, v2, c1);
        self.cpu.ACC = res;
        self.cpu.SR.N = res >= 128;
        self.cpu.SR.Z = res == 0;
        self.cpu.SR.C = carry;
        self.cpu.SR.V = over;
        match self.write1(addr, v2) {
            Ok(_) => {},
            Err(f) => {
                return Err(f);
            },
        }
        self.advance(instr);
        Ok(())
    }

}

/// Executable test for an undocumented opcode (one whose mnemonic
/// carries the `*` prefix).
pub fn undocumented(op: u8) -> (r: bool)
    ensures
        r == crate::sem::is_undocumented(op),
{
    match op {
        0x03 | 0x04 | 0x07 | 0x0C | 0x0F | 0x13 | 0x14 | 0x17 | 0x1A | 0x1B => true,
        0x1C | 0x1F | 0x23 | 0x27 | 0x2F | 0x33 | 0x34 | 0x37 | 0x3A | 0x3B => true,
        0x3C | 0x3F | 0x43 | 0x44 | 0x47 | 0x4F | 0x53 | 0x54 | 0x57 | 0x5A => true,
        0x5B | 0x5C | 0x5F | 0x63 | 0x64 | 0x67 | 0x6F | 0x73 | 0x74 | 0x77 => true,
        0x7A | 0x7B | 0x7C | 0x7F | 0x80 | 0x82 | 0x83 | 0x87 | 0x89 | 0x8F => true,
        0x97 | 0xA3 | 0xA7 | 0xAF | 0xB3 | 0xB7 | 0xBF | 0xC2 | 0xC3 | 0xC7 => true,
        0xCF | 0xD3 | 0xD4 | 0xD7 | 0xDA | 0xDB | 0xDC | 0xDF | 0xE2 | 0xE3 => true,
        0xE7 | 0xEB | 0xEF | 0xF3 | 0xF4 | 0xF7 | 0xFA | 0xFB | 0xFC | 0xFF => true,
        _ => false,
    }
}

} // verus!
