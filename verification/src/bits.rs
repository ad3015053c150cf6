//! Single-bit and bit-field operations on bytes, provided by the `bitlab`
//! crate. `bitlab` numbers bits from the most significant end: offset 0 is
//! bit 7 of the byte and offset 7 is bit 0.

use bitlab::InsertIntoSizedIntegerTypes;
use bitlab::SingleBits;
use vstd::prelude::*;

verus! {

/// The byte with only the bit at `offset` set, offset 0 being the most
/// significant bit.
pub open spec fn spec_mask(offset: u32) -> u8 {
    0x80u8 >> offset
}

/// Whether the bit at `offset` of `value` is set.
pub open spec fn spec_bit(value: u8, offset: u32) -> bool {
    value & spec_mask(offset) != 0
}

/// `value` with the bit at `offset` set.
pub open spec fn spec_set_bit(value: u8, offset: u32) -> u8 {
    value | spec_mask(offset)
}

/// `value` with the bit at `offset` cleared.
pub open spec fn spec_clear_bit(value: u8, offset: u32) -> u8 {
    value & !spec_mask(offset)
}

/// The mask of the `length` bits that start at `offset`.
pub open spec fn spec_field_mask(offset: u32, length: u32) -> u8 {
    (0xFFu8 >> ((8 - length) as u32)) << ((8 - offset - length) as u32)
}

/// `target` with the `length` bits that start at `offset` replaced by the
/// low `length` bits of `value`.
pub open spec fn spec_insert(target: u8, offset: u32, length: u32, value: u8) -> u8 {
    (target & !spec_field_mask(offset, length)) | (value << ((8 - offset - length) as u32))
}

/// `bitlab::SingleBits::get_bit` on a byte: the bit at `offset`, or nothing
/// when `offset` is past the last bit.
#[verifier::external_body]
pub(crate) fn get_bit(value: u8, offset: u32) -> (r: Option<bool>)
    ensures
        offset < 8 ==> r == Some(spec_bit(value, offset)),
        offset >= 8 ==> r is None,
{
    value.get_bit(offset).ok()
}

/// `bitlab::SingleBits::set_bit` on a byte: `value` with the bit at `offset`
/// set, or nothing when `offset` is past the last bit.
#[verifier::external_body]
pub(crate) fn set_bit(value: u8, offset: u32) -> (r: Option<u8>)
    ensures
        offset < 8 ==> r == Some(spec_set_bit(value, offset)),
        offset >= 8 ==> r is None,
{
    value.set_bit(offset).ok()
}

/// `bitlab::SingleBits::clear_bit` on a byte: `value` with the bit at
/// `offset` cleared, or nothing when `offset` is past the last bit.
#[verifier::external_body]
pub(crate) fn clear_bit(value: u8, offset: u32) -> (r: Option<u8>)
    ensures
        offset < 8 ==> r == Some(spec_clear_bit(value, offset)),
        offset >= 8 ==> r is None,
{
    value.clear_bit(offset).ok()
}

/// `bitlab::InsertIntoSizedIntegerTypes::set` on a byte, for a field of one
/// to seven bits that lies within the byte: the field is replaced by `value`
/// when `value` fits in `length` bits, and nothing is returned when it does
/// not.
#[verifier::external_body]
pub(crate) fn insert(target: u8, offset: u32, length: u32, value: u8) -> (r: Option<u8>)
    requires
        1 <= length < 8,
        offset + length <= 8,
    ensures
        value >> length == 0 ==> r == Some(spec_insert(target, offset, length, value)),
        value >> length != 0 ==> r is None,
{
    target.set(offset, length, value).ok()
}

/// The bit of `value` at `offset`.
pub fn bit_of(value: u8, offset: u32) -> (set: bool)
    requires
        offset < 8,
    ensures
        set == spec_bit(value, offset),
{
    match get_bit(value, offset) {
        Some(set) => set,
        None => vstd::pervasive::unreached(),
    }
}

/// `value` with the bit at `offset` set.
pub fn with_bit(value: u8, offset: u32) -> (r: u8)
    requires
        offset < 8,
    ensures
        r == spec_set_bit(value, offset),
{
    match set_bit(value, offset) {
        Some(r) => r,
        None => vstd::pervasive::unreached(),
    }
}

/// `value` with the bit at `offset` cleared.
pub fn without_bit(value: u8, offset: u32) -> (r: u8)
    requires
        offset < 8,
    ensures
        r == spec_clear_bit(value, offset),
{
    match clear_bit(value, offset) {
        Some(r) => r,
        None => vstd::pervasive::unreached(),
    }
}

} // verus!
