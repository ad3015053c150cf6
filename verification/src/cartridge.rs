//! The cartridge: a read-only image of bytes and the fields of its header.

use crate::utils::{join_bytes, spec_join};
use vstd::prelude::*;

verus! {

/// First and one-past-last address of the title in the header.
pub const TITLE: (u16, u16) = (0x0134, 0x0143);

/// Address of the byte that names the cartridge's controller.
pub const CARTRIDGE_TYPE: u16 = 0x0147;

/// Address of the byte that encodes the size of the ROM.
pub const ROM_SIZE: u16 = 0x0148;

/// Address of the byte that encodes the size of the RAM.
pub const RAM_SIZE: u16 = 0x0149;

/// The memory bank controller of a cartridge.
#[derive(Clone, Copy, Debug, PartialEq, Eq, Structural)]
pub enum MBC {
    ROM,
    MBC1,
    MBC2,
    MBC3,
    MBC4,
    MBC5,
}

/// The controller that a header byte names, if it names one.
pub open spec fn spec_cartridge_type(code: u8) -> Option<MBC> {
    if code == 0x00 || code == 0x08 || code == 0x09 {
        Some(MBC::ROM)
    } else if code == 0x01 || code == 0x02 || code == 0x03 {
        Some(MBC::MBC1)
    } else if code == 0x05 || code == 0x06 {
        Some(MBC::MBC2)
    } else if code == 0x0F || code == 0x10 || code == 0x11 || code == 0x12 || code == 0x13 {
        Some(MBC::MBC3)
    } else if code == 0x15 || code == 0x16 || code == 0x17 {
        Some(MBC::MBC4)
    } else if code == 0x19 || code == 0x1B || code == 0x1C || code == 0x1D || code == 0x1E {
        Some(MBC::MBC5)
    } else {
        None
    }
}

/// The characters of a title field: its bytes up to the first zero, each
/// read as the character with that code.
pub open spec fn spec_title(field: Seq<u8>) -> Seq<char>
    decreases field.len(),
{
    if field.len() == 0 || field[0] == 0 {
        Seq::empty()
    } else {
        seq![field[0] as char] + spec_title(field.drop_first())
    }
}

/// `String::push`: appends one character.
#[verifier::external_body]
fn push_char(s: &mut String, c: char)
    ensures
        final(s)@ == old(s)@.push(c),
{
    s.push(c)
}

/// A cartridge image and its size in bytes.
pub struct Cartridge(Vec<u8>, usize);

impl View for Cartridge {
    type V = Seq<u8>;

    closed spec fn view(&self) -> Seq<u8> {
        self.0@
    }
}

impl Cartridge {
    /// The recorded size is the number of bytes in the image.
    #[verifier::type_invariant]
    spec fn inv(self) -> bool {
        self.1 == self.0@.len()
    }

    /// A cartridge that holds the bytes of a ROM file.
    pub fn new(rom: Vec<u8>) -> (c: Cartridge)
        ensures
            c@ == rom@,
    {
        let size = rom.len();
        Cartridge(rom, size)
    }

    /// Reads the byte at `addr`.
    pub fn read_byte(&self, addr: u16) -> (v: u8)
        requires
            addr < self@.len(),
        ensures
            v == self@[addr as int],
    {
        self.0[addr as usize]
    }

    /// Reads the little-endian word at `addr`.
    pub fn read_word(&self, addr: u16) -> (v: u16)
        requires
            addr + 1 < self@.len(),
            addr < 0xFFFF,
        ensures
            v == spec_join(self@[addr + 1], self@[addr as int]),
    {
        let a = self.read_byte(addr);
        let b = self.read_byte(addr + 1);
        join_bytes(b, a)
    }

    /// The bytes from `addr.0` up to, not including, `addr.1`.
    pub fn read_range(&self, addr: (u16, u16)) -> (bytes: Vec<u8>)
        requires
            addr.0 <= addr.1 <= self@.len(),
        ensures
            bytes@ == self@.subrange(addr.0 as int, addr.1 as int),
    {
        let mut a: Vec<u8> = Vec::with_capacity((addr.1 - addr.0) as usize);
        let mut x: u16 = addr.0;
        while x < addr.1
            invariant
                addr.0 <= x <= addr.1 <= self@.len(),
                a@ == self@.subrange(addr.0 as int, x as int),
            decreases addr.1 - x,
        {
            a.push(self.0[x as usize]);
            x = x + 1;
            assert(a@ =~= self@.subrange(addr.0 as int, x as int));
        }
        a
    }

    /// The title in the header, up to its first zero byte.
    pub fn read_title(&self) -> (title: String)
        requires
            TITLE.1 <= self@.len(),
        ensures
            title@ == spec_title(self@.subrange(TITLE.0 as int, TITLE.1 as int)),
    {
        let mut title = String::new();
        let field = self.read_range(TITLE);
        let mut n: usize = 0;
        proof {
            assert(field@.subrange(0, field@.len() as int) =~= field@);
            assert(title@ + spec_title(field@) =~= spec_title(field@));
        }
        while n < field.len() && field[n] != 0
            invariant
                n <= field@.len(),
                title@ + spec_title(field@.subrange(n as int, field@.len() as int)) == spec_title(field@),
            decreases field@.len() - n,
        {
            let letter = field[n];
            let ghost before = title@;
            push_char(&mut title, letter as char);
            proof {
                let rest = field@.subrange(n as int, field@.len() as int);
                assert(rest.drop_first() =~= field@.subrange(n + 1, field@.len() as int));
                assert(before + (seq![letter as char] + spec_title(rest.drop_first())) =~= before.push(
                    letter as char,
                ) + spec_title(rest.drop_first()));
            }
            n = n + 1;
        }
        proof {
            assert(title@ + Seq::<char>::empty() =~= title@);
        }
        title
    }

    /// The controller that the header names.
    pub fn cartridge_type(&self) -> (kind: MBC)
        requires
            CARTRIDGE_TYPE < self@.len(),
            spec_cartridge_type(self@[CARTRIDGE_TYPE as int]) is Some,
        ensures
            Some(kind) == spec_cartridge_type(self@[CARTRIDGE_TYPE as int]),
    {
        match self.read_byte(CARTRIDGE_TYPE) {
            0x00 | 0x8 | 0x9 => MBC::ROM,
            0x1 | 0x2 | 0x3 => MBC::MBC1,
            0x5 | 0x6 => MBC::MBC2,
            0xF | 0x10 | 0x11 | 0x12 | 0x13 => MBC::MBC3,
            0x15 | 0x16 | 0x17 => MBC::MBC4,
            0x19 | 0x1B | 0x1C | 0x1D | 0x1E => MBC::MBC5,
            _ => vstd::pervasive::unreached(),
        }
    }

    /// The size of the image in bytes.
    pub fn size(&self) -> (n: usize)
        ensures
            n == self@.len(),
    {
        proof {
            use_type_invariant(self);
        }
        self.1
    }
}

} // verus!
