//! The bit fields of an instruction byte.

use crate::utils::lemma_fields;
use vstd::prelude::*;

verus! {

/// Field `x`: bits 7 and 6.
pub open spec fn spec_x(opcode: u8) -> u8 {
    opcode / 64
}

/// Field `y`: bits 5 to 3.
pub open spec fn spec_y(opcode: u8) -> u8 {
    (opcode / 8) % 8
}

/// Field `z`: bits 2 to 0.
pub open spec fn spec_z(opcode: u8) -> u8 {
    opcode % 8
}

/// Field `p`: the upper two bits of `y`.
pub open spec fn spec_p(opcode: u8) -> u8 {
    (opcode / 16) % 4
}

/// Field `q`: the lowest bit of `y`.
pub open spec fn spec_q(opcode: u8) -> u8 {
    (opcode / 8) % 2
}

/// Field `x` of an instruction byte: bits 7 and 6.
pub fn get_x(opcode: u8) -> (byte: u8)
    ensures
        byte == spec_x(opcode),
{
    proof {
        lemma_fields(opcode);
    }
    let byte = (opcode & 0b1100_0000) >> 6;
    byte
}

/// Field `y` of an instruction byte: bits 5 to 3.
pub fn get_y(opcode: u8) -> (byte: u8)
    ensures
        byte == spec_y(opcode),
{
    proof {
        lemma_fields(opcode);
    }
    let byte = (opcode & 0b0011_1000) >> 3;
    byte
}

/// Field `z` of an instruction byte: bits 2 to 0.
pub fn get_z(opcode: u8) -> (byte: u8)
    ensures
        byte == spec_z(opcode),
{
    proof {
        lemma_fields(opcode);
    }
    let byte = opcode & 0b0000_0111;
    byte
}

/// Field `p` of an instruction byte: the upper two bits of `y`.
pub fn get_p(opcode: u8) -> (byte: u8)
    ensures
        byte == spec_p(opcode),
{
    proof {
        lemma_fields(opcode);
    }
    let y = get_y(opcode);
    let byte = (y & 0b0000_0110) >> 1;
    byte
}

/// Field `q` of an instruction byte: the lowest bit of `y`.
pub fn get_q(opcode: u8) -> (byte: u8)
    ensures
        byte == spec_q(opcode),
{
    proof {
        lemma_fields(opcode);
    }
    let y = get_y(opcode);
    let byte = y & 0b0000_0001;
    byte
}

/// The fields of an instruction byte put it back together.
pub proof fn lemma_fields_compose(opcode: u8)
    ensures
        opcode == spec_x(opcode) * 64 + spec_y(opcode) * 8 + spec_z(opcode),
        spec_y(opcode) == spec_p(opcode) * 2 + spec_q(opcode),
        spec_x(opcode) < 4,
        spec_y(opcode) < 8,
        spec_z(opcode) < 8,
        spec_p(opcode) < 4,
        spec_q(opcode) < 2,
{
}

} // verus!
