//! The instruction descriptor: the instruction byte, its length, its
//! immediate operand and the bit fields that select its handler.

use crate::cpu::op_decode::{spec_p, spec_q, spec_x, spec_y, spec_z};
use crate::cpu::Register16;
use crate::gameboy::{GameBoy, Machine};
use crate::memory::spec_next_addr;
use crate::utils::{lemma_fields, low_byte};
use vstd::prelude::*;

verus! {

/// Length in bytes of the instruction that each byte begins.
pub const SIZE_TABLE: [u8; 256] = [
    1, 3, 1, 1, 1, 1, 2, 1, 3, 1, 1, 1, 1, 1, 2, 1,
    2, 3, 1, 1, 1, 1, 2, 1, 2, 1, 1, 1, 1, 1, 2, 1,
    2, 3, 1, 1, 1, 1, 2, 1, 2, 1, 1, 1, 1, 1, 2, 1,
    2, 3, 1, 1, 1, 1, 2, 1, 2, 1, 1, 1, 1, 1, 2, 1,
    1, 1, 1, 1, 1, 1, 1, 1, 1, 1, 1, 1, 1, 1, 1, 1,
    1, 1, 1, 1, 1, 1, 1, 1, 1, 1, 1, 1, 1, 1, 1, 1,
    1, 1, 1, 1, 1, 1, 1, 1, 1, 1, 1, 1, 1, 1, 1, 1,
    1, 1, 1, 1, 1, 1, 1, 1, 1, 1, 1, 1, 1, 1, 1, 1,
    1, 1, 1, 1, 1, 1, 1, 1, 1, 1, 1, 1, 1, 1, 1, 1,
    1, 1, 1, 1, 1, 1, 1, 1, 1, 1, 1, 1, 1, 1, 1, 1,
    1, 1, 1, 1, 1, 1, 1, 1, 1, 1, 1, 1, 1, 1, 1, 1,
    1, 1, 1, 1, 1, 1, 1, 1, 1, 1, 1, 1, 1, 1, 1, 1,
    1, 1, 3, 3, 3, 1, 2, 1, 1, 1, 3, 2, 3, 3, 2, 1,
    1, 1, 3, 1, 3, 1, 2, 1, 1, 1, 3, 1, 3, 1, 2, 1,
    2, 1, 2, 1, 1, 1, 2, 1, 2, 1, 3, 1, 1, 1, 2, 1,
    2, 1, 2, 1, 1, 1, 2, 1, 2, 1, 3, 1, 1, 1, 2, 1,
];

/// Length in bytes of the instruction that `op` begins.
pub open spec fn spec_length(op: u8) -> u8 {
    SIZE_TABLE[op as int]
}

/// Every entry of the table is 1, 2 or 3.
pub proof fn lemma_length_range(op: u8)
    ensures
        1 <= spec_length(op) <= 3,
{
}

/// An instruction: its first byte, its length, its immediate operand once
/// fetched, and the bit fields of the first byte.
#[derive(Clone, Copy, Debug)]
pub struct Opcode {
    pub opcode: u8,
    pub length: u8,
    pub param: Option<u16>,
    pub x: u8,
    pub y: u8,
    pub z: u8,
    pub p: u8,
    pub q: u8,
}

impl Opcode {
    /// The descriptor of the instruction that `op` begins, before its
    /// operand is fetched.
    pub open spec fn spec_from(op: u8) -> Opcode {
        Opcode {
            opcode: op,
            length: spec_length(op),
            param: None,
            x: spec_x(op),
            y: spec_y(op),
            z: spec_z(op),
            p: spec_p(op),
            q: spec_q(op),
        }
    }

    /// The length and the bit fields are those of the instruction byte.
    pub open spec fn wf(self) -> bool {
        self == (Opcode { param: self.param, ..Self::spec_from(self.opcode) })
    }

    /// The immediate operand of an instruction of `length` bytes at `pc`:
    /// none for one byte, the byte that follows for two, the little-endian
    /// word that follows for three.
    pub open spec fn spec_param(m: Machine, pc: u16, length: u8) -> Option<u16> {
        if length == 2 {
            Some(m.spec_read_byte(spec_next_addr(pc)) as u16)
        } else if length == 3 {
            Some(m.spec_read_word(spec_next_addr(pc)))
        } else {
            None
        }
    }

    /// The length and the width of the immediate operand agree.
    pub open spec fn spec_operand_agrees(self) -> bool {
        &&& self.length == 1 ==> self.param is None
        &&& self.length == 2 ==> self.param is Some && self.param->0 < 256
        &&& self.length == 3 ==> self.param is Some
    }

    /// The descriptor of the instruction at the program counter, operand
    /// included.
    pub open spec fn spec_fetch(m: Machine) -> Opcode {
        let op = Self::spec_from(m.spec_read_byte(m.cpu.pc));
        Opcode { param: Self::spec_param(m, m.cpu.pc, op.length), ..op }
    }

    /// The immediate operand as a word, zero when there is none.
    pub open spec fn spec_word(self) -> u16 {
        match self.param {
            Some(v) => v,
            None => 0,
        }
    }

    /// The low byte of the immediate operand, zero when there is none.
    pub open spec fn spec_byte(self) -> u8 {
        (self.spec_word() % 256) as u8
    }

    /// Reads the immediate operand of the instruction at the program counter
    /// through the bus, records it and returns it.
    pub fn fetch_param(&mut self, gb: &GameBoy) -> (param: Option<u16>)
        requires
            1 <= old(self).length <= 3,
            gb.wf(),
        ensures
            param == Self::spec_param(gb@, gb@.cpu.pc, old(self).length),
            *final(self) == (Opcode { param, ..*old(self) }),
            final(self).spec_operand_agrees(),
    {
        let at = gb.cpu.get_16(Register16::PC).wrapping_add(1);
        let param = match self.length {
            1 => None,
            2 => Some(gb.read_byte(at) as u16),
            _ => Some(gb.read_word(at)),
        };
        self.param = param;
        param
    }

    /// The five bit fields: `x`, `y`, `z`, `p`, `q`.
    pub fn flag_slice(&self) -> (fields: (u8, u8, u8, u8, u8))
        ensures
            fields == (self.x, self.y, self.z, self.p, self.q),
    {
        (self.x, self.y, self.z, self.p, self.q)
    }

    /// The immediate operand as a word, zero when there is none.
    pub fn word(&self) -> (v: u16)
        ensures
            v == self.spec_word(),
    {
        match self.param {
            Some(v) => v,
            None => 0,
        }
    }

    /// The low byte of the immediate operand, zero when there is none.
    pub fn byte(&self) -> (v: u8)
        ensures
            v == self.spec_byte(),
    {
        low_byte(self.word())
    }
}

impl From<u8> for Opcode {
    fn from(op: u8) -> (r: Opcode)
    {
        proof {
            lemma_fields(op);
        }
        let y = (op & 0b0011_1000) >> 3;
        Opcode {
            opcode: op,
            length: SIZE_TABLE[op as usize],
            param: None,
            x: (op & 0b1100_0000) >> 6,
            y,
            z: op & 0b0000_0111,
            p: (y & 0b0000_0110) >> 1,
            q: y & 0b0000_0001,
        }
    }
}

impl vstd::std_specs::convert::FromSpecImpl<u8> for Opcode {
    open spec fn obeys_from_spec() -> bool {
        true
    }

    open spec fn from_spec(op: u8) -> Opcode {
        Opcode::spec_from(op)
    }
}

} // verus!
