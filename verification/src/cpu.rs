//! The register file: eight byte registers, their paired views, stack
//! pointer, program counter, flags, the interrupt masks and the clock that
//! drives the display.

use crate::ppu::{budget, spec_budget, GpuMode, Ppu, LAST_LINE, VBLANK_FIRST_LINE};
use crate::utils::{
    high_byte, join_bytes, lemma_bit_masks, lemma_high_nibble, lemma_with_bit, lemma_with_bit_bounds,
    low_byte, spec_bit_at, spec_high, spec_join, spec_low, spec_with_bit, spec_with_high_nibble,
};
use vstd::prelude::*;

pub mod op_decode;
pub mod opcode;
pub mod opcodes;

verus! {

/// Dots of display time per machine cycle.
pub const DOTS_PER_CYCLE: u64 = 4;

/// The byte registers.
#[derive(Clone, Copy, Debug, PartialEq, Eq, Structural)]
pub enum Register8 {
    A,
    F,
    B,
    C,
    D,
    E,
    H,
    L,
}

/// The word registers: four pairs of byte registers, high half first, then
/// the stack pointer and the program counter.
#[derive(Clone, Copy, Debug, PartialEq, Eq, Structural)]
pub enum Register16 {
    AF,
    BC,
    DE,
    HL,
    SP,
    PC,
}

/// The flags held in bits 7 to 4 of `F`, and the two negated conditions
/// that branches test.
#[derive(Clone, Copy, Debug, PartialEq, Eq, Structural)]
pub enum Flag {
    Z,
    NZ,
    N,
    H,
    C,
    NC,
}

/// The interrupt sources, highest priority first.
#[derive(Clone, Copy, Debug, PartialEq, Eq, Structural)]
pub enum IterFlag {
    VBLANK,
    LCDSTAT,
    TIMER,
    SERIAL,
    JOYPAD,
}

impl Flag {
    /// The place value in `F` of the bit that the flag reads.
    pub open spec fn spec_weight(self) -> int {
        match self {
            Flag::Z | Flag::NZ => 128,
            Flag::N => 64,
            Flag::H => 32,
            Flag::C | Flag::NC => 16,
        }
    }

    /// Whether the flag names a bit of `F` rather than a negated condition.
    pub open spec fn spec_is_bit(self) -> bool {
        self == Flag::Z || self == Flag::N || self == Flag::H || self == Flag::C
    }
}

impl IterFlag {
    /// The place value of the source's bit in the enable and pending masks.
    pub open spec fn spec_weight(self) -> int {
        match self {
            IterFlag::VBLANK => 1,
            IterFlag::LCDSTAT => 2,
            IterFlag::TIMER => 4,
            IterFlag::SERIAL => 8,
            IterFlag::JOYPAD => 16,
        }
    }

    /// The address at which the source's service routine starts.
    pub open spec fn spec_vector(self) -> u16 {
        match self {
            IterFlag::VBLANK => 0x40,
            IterFlag::LCDSTAT => 0x48,
            IterFlag::TIMER => 0x50,
            IterFlag::SERIAL => 0x58,
            IterFlag::JOYPAD => 0x60,
        }
    }

    /// The address at which the source's service routine starts.
    pub fn vector(self) -> (v: u16)
        ensures
            v == self.spec_vector(),
    {
        match self {
            IterFlag::VBLANK => 0x40,
            IterFlag::LCDSTAT => 0x48,
            IterFlag::TIMER => 0x50,
            IterFlag::SERIAL => 0x58,
            IterFlag::JOYPAD => 0x60,
        }
    }
}

/// Processor state. Instructions keep the low nibble of `F` zero; a direct
/// write to `F` or `AF` stores the byte as given.
#[derive(Clone, Copy, Debug)]
pub struct Cpu {
    /// Accumulator.
    pub a: u8,
    /// Flags: Z, N, H, C in bits 7 to 4.
    pub f: u8,
    pub b: u8,
    pub c: u8,
    pub d: u8,
    pub e: u8,
    pub h: u8,
    pub l: u8,
    pub sp: u16,
    pub pc: u16,
    /// Interrupt master enable.
    pub iter_master: bool,
    /// Interrupt enable mask, one bit per source.
    pub iter_enable: u8,
    /// Interrupt pending mask, one bit per source.
    pub iter_flags: u8,
    /// Machine cycles elapsed, modulo 2^64.
    pub ticks: u64,
    pub ppu: Ppu,
}

impl Cpu {
    /// The two interrupt masks have five bits, and the display is well
    /// formed with its dot counter below the budget of its phase.
    pub open spec fn wf(self) -> bool {
        &&& self.iter_enable < 32
        &&& self.iter_flags < 32
        &&& self.ppu.wf()
        &&& self.ppu.settled()
    }

    /// The low nibble of `F` is zero.
    pub open spec fn spec_flags_clean(self) -> bool {
        self.f % 16 == 0
    }

    /// The value of a byte register.
    pub open spec fn spec_get_8(self, reg: Register8) -> u8 {
        match reg {
            Register8::A => self.a,
            Register8::F => self.f,
            Register8::B => self.b,
            Register8::C => self.c,
            Register8::D => self.d,
            Register8::E => self.e,
            Register8::H => self.h,
            Register8::L => self.l,
        }
    }

    /// The state with one byte register written and all else kept.
    pub open spec fn spec_set_8(self, reg: Register8, v: u8) -> Cpu {
        match reg {
            Register8::A => Cpu { a: v, ..self },
            Register8::F => Cpu { f: v, ..self },
            Register8::B => Cpu { b: v, ..self },
            Register8::C => Cpu { c: v, ..self },
            Register8::D => Cpu { d: v, ..self },
            Register8::E => Cpu { e: v, ..self },
            Register8::H => Cpu { h: v, ..self },
            Register8::L => Cpu { l: v, ..self },
        }
    }

    /// A pair reads as its high register times 256 plus its low register.
    pub open spec fn spec_get_16(self, reg: Register16) -> u16 {
        match reg {
            Register16::AF => spec_join(self.a, self.f),
            Register16::BC => spec_join(self.b, self.c),
            Register16::DE => spec_join(self.d, self.e),
            Register16::HL => spec_join(self.h, self.l),
            Register16::SP => self.sp,
            Register16::PC => self.pc,
        }
    }

    /// Writing a pair writes the high half of `v` to its high register and
    /// the low half to its low register.
    pub open spec fn spec_set_16(self, reg: Register16, v: u16) -> Cpu {
        match reg {
            Register16::AF => Cpu { a: spec_high(v), f: spec_low(v), ..self },
            Register16::BC => Cpu { b: spec_high(v), c: spec_low(v), ..self },
            Register16::DE => Cpu { d: spec_high(v), e: spec_low(v), ..self },
            Register16::HL => Cpu { h: spec_high(v), l: spec_low(v), ..self },
            Register16::SP => Cpu { sp: v, ..self },
            Register16::PC => Cpu { pc: v, ..self },
        }
    }

    /// Whether a flag holds: the bit of `F` for `Z`, `N`, `H`, `C`, its
    /// negation for `NZ` and `NC`.
    pub open spec fn spec_flag(self, flag: Flag) -> bool {
        match flag {
            Flag::NZ | Flag::NC => !spec_bit_at(self.f, flag.spec_weight()),
            _ => spec_bit_at(self.f, flag.spec_weight()),
        }
    }

    /// The state with one flag bit made equal to `set`.
    pub open spec fn spec_set_flag(self, flag: Flag, set: bool) -> Cpu {
        Cpu { f: spec_with_bit(self.f, flag.spec_weight(), set), ..self }
    }

    /// The state with the four flags replaced and the low nibble of `F`
    /// kept.
    pub open spec fn spec_with_flags(self, z: bool, n: bool, h: bool, c: bool) -> Cpu {
        Cpu { f: spec_with_high_nibble(self.f, z, n, h, c), ..self }
    }

    /// Whether an interrupt source is pending.
    pub open spec fn spec_iter_flag(self, flag: IterFlag) -> bool {
        spec_bit_at(self.iter_flags, flag.spec_weight())
    }

    /// Whether an interrupt source is enabled.
    pub open spec fn spec_iter_flag_enable(self, flag: IterFlag) -> bool {
        spec_bit_at(self.iter_enable, flag.spec_weight())
    }

    /// The state with one source's bit of the pending mask made equal to
    /// `set`.
    pub open spec fn spec_set_iter_flag(self, flag: IterFlag, set: bool) -> Cpu {
        Cpu { iter_flags: spec_with_bit(self.iter_flags, flag.spec_weight(), set), ..self }
    }

    /// The state with one source's bit of the enable mask made equal to
    /// `set`.
    pub open spec fn spec_set_iter_flag_enable(self, flag: IterFlag, set: bool) -> Cpu {
        Cpu { iter_enable: spec_with_bit(self.iter_enable, flag.spec_weight(), set), ..self }
    }

    /// One display transition: nothing while the dot counter is below the
    /// budget of the phase; otherwise the next phase begins, and entering
    /// vertical blanking marks the VBlank interrupt pending.
    pub open spec fn spec_ppu_step(self) -> Cpu {
        if self.ppu.settled() {
            self
        } else {
            Cpu {
                ppu: self.ppu.spec_next_phase(),
                iter_flags: if self.ppu.spec_enters_vblank() {
                    spec_with_bit(self.iter_flags, IterFlag::VBLANK.spec_weight(), true)
                } else {
                    self.iter_flags
                },
                ..self
            }
        }
    }

    /// The state once display transitions have brought the dot counter
    /// below the budget of the phase.
    pub open spec fn spec_settle(self) -> Cpu
        decreases self.ppu.tick,
    {
        if self.ppu.settled() {
            self
        } else {
            self.spec_ppu_step().spec_settle()
        }
    }

    /// The state after `inc` machine cycles: the cycle counter advances, the
    /// dot counter advances by four dots per cycle, and the display makes
    /// the transitions that are due.
    pub open spec fn spec_inc_ticks(self, inc: u8) -> Cpu {
        (Cpu {
            ticks: ((self.ticks + inc) % 0x1_0000_0000_0000_0000) as u64,
            ppu: Ppu { tick: (self.ppu.tick + DOTS_PER_CYCLE * inc) as u64, ..self.ppu },
            ..self
        }).spec_settle()
    }

    /// The interrupt source that is serviced next: the first, in priority
    /// order, that is both enabled and pending.
    pub open spec fn spec_pending_source(self) -> Option<IterFlag> {
        if self.spec_iter_flag_enable(IterFlag::VBLANK) && self.spec_iter_flag(IterFlag::VBLANK) {
            Some(IterFlag::VBLANK)
        } else if self.spec_iter_flag_enable(IterFlag::LCDSTAT) && self.spec_iter_flag(
            IterFlag::LCDSTAT,
        ) {
            Some(IterFlag::LCDSTAT)
        } else if self.spec_iter_flag_enable(IterFlag::TIMER) && self.spec_iter_flag(IterFlag::TIMER) {
            Some(IterFlag::TIMER)
        } else if self.spec_iter_flag_enable(IterFlag::SERIAL) && self.spec_iter_flag(
            IterFlag::SERIAL,
        ) {
            Some(IterFlag::SERIAL)
        } else if self.spec_iter_flag_enable(IterFlag::JOYPAD) && self.spec_iter_flag(
            IterFlag::JOYPAD,
        ) {
            Some(IterFlag::JOYPAD)
        } else {
            None
        }
    }

    /// The source that an interrupt check accepts: the next source to
    /// service, if interrupts are enabled.
    pub open spec fn spec_accepted_source(self) -> Option<IterFlag> {
        if self.iter_master {
            self.spec_pending_source()
        } else {
            None
        }
    }

    /// The processor after an interrupt check: when a source is accepted,
    /// interrupts are disabled and that source is no longer pending.
    pub open spec fn spec_interrupt_step(self) -> Cpu {
        match self.spec_accepted_source() {
            Some(source) => Cpu { iter_master: false, ..self.spec_set_iter_flag(source, false) },
            None => self,
        }
    }

    /// A processor with every register zero and interrupts disabled.
    pub fn new() -> (cpu: Cpu)
        ensures
            cpu == (Cpu {
                a: 0,
                f: 0,
                b: 0,
                c: 0,
                d: 0,
                e: 0,
                h: 0,
                l: 0,
                sp: 0,
                pc: 0,
                iter_master: false,
                iter_enable: 0,
                iter_flags: 0,
                ticks: 0,
                ppu: Ppu::spec_new(),
            }),
            cpu.wf(),
            cpu.spec_flags_clean(),
    {
        Cpu {
            a: 0,
            f: 0,
            b: 0,
            c: 0,
            d: 0,
            e: 0,
            h: 0,
            l: 0,
            sp: 0,
            pc: 0,
            iter_master: false,
            iter_enable: 0,
            iter_flags: 0,
            ticks: 0,
            ppu: Ppu::new(),
        }
    }

    /// Loads the register pattern that the boot program leaves behind, enables
    /// interrupts and clears both interrupt masks. The display and the cycle
    /// counter are kept.
    pub fn reset_no_bios(&mut self)
        ensures
            *final(self) == (Cpu {
                a: 0x01,
                f: 0xB0,
                b: 0x01,
                c: 0xB0,
                d: 0x01,
                e: 0xB0,
                h: 0x01,
                l: 0xB0,
                sp: 0x01,
                pc: 0xB0,
                iter_master: true,
                iter_enable: 0,
                iter_flags: 0,
                ..*old(self)
            }),
    {
        self.a = 0x01;
        self.f = 0xB0;
        self.b = 0x01;
        self.c = 0xB0;
        self.d = 0x01;
        self.e = 0xB0;
        self.h = 0x01;
        self.l = 0xB0;
        self.sp = 0x01;
        self.pc = 0xB0;
        self.iter_master = true;
        self.iter_flags = 0x0;
        self.iter_enable = 0x0;
    }

    /// Makes one display transition if one is due.
    pub fn ppu_step(&mut self)
        requires
            old(self).ppu.wf(),
        ensures
            *final(self) == old(self).spec_ppu_step(),
            final(self).ppu.wf(),
            old(self).iter_flags < 32 ==> final(self).iter_flags < 32,
    {
        match self.ppu.mode {
            GpuMode::VRAM => {
                if self.ppu.tick >= 172 {
                    self.ppu.tick = self.ppu.tick - 172;
                    self.ppu.mode = GpuMode::HBLANK;
                }
            },
            GpuMode::OAM => {
                if self.ppu.tick >= 80 {
                    self.ppu.mode = GpuMode::VRAM;
                    self.ppu.tick = self.ppu.tick - 80;
                }
            },
            GpuMode::VBLANK => {
                if self.ppu.tick >= 456 {
                    self.ppu.tick = self.ppu.tick - 456;
                    if self.ppu.scanline >= 153 {
                        self.ppu.scanline = 0;
                        self.ppu.mode = GpuMode::OAM;
                    } else {
                        self.ppu.scanline = self.ppu.scanline + 1;
                    }
                }
            },
            GpuMode::HBLANK => {
                if self.ppu.tick >= 204 {
                    self.ppu_hblank();
                    if self.ppu.scanline == VBLANK_FIRST_LINE {
                        self.set_iter_flag(IterFlag::VBLANK, true);
                        self.ppu.mode = GpuMode::VBLANK;
                    } else {
                        self.ppu.mode = GpuMode::OAM;
                    }
                    self.ppu.tick = self.ppu.tick - 204;
                }
            },
        }
    }

    /// Moves the display to the next scanline.
    pub fn ppu_hblank(&mut self)
        requires
            old(self).ppu.scanline < 255,
        ensures
            *final(self) == (Cpu {
                ppu: Ppu { scanline: (old(self).ppu.scanline + 1) as u8, ..old(self).ppu },
                ..*old(self)
            }),
    {
        self.ppu.scanline += 1;
    }

    /// The first interrupt source, in priority order, that is both enabled
    /// and pending.
    pub fn pending_source(&self) -> (source: Option<IterFlag>)
        ensures
            source == self.spec_pending_source(),
    {
        if self.get_iter_flag_enable(IterFlag::VBLANK) && self.get_iter_flag(IterFlag::VBLANK) {
            Some(IterFlag::VBLANK)
        } else if self.get_iter_flag_enable(IterFlag::LCDSTAT) && self.get_iter_flag(IterFlag::LCDSTAT) {
            Some(IterFlag::LCDSTAT)
        } else if self.get_iter_flag_enable(IterFlag::TIMER) && self.get_iter_flag(IterFlag::TIMER) {
            Some(IterFlag::TIMER)
        } else if self.get_iter_flag_enable(IterFlag::SERIAL) && self.get_iter_flag(IterFlag::SERIAL) {
            Some(IterFlag::SERIAL)
        } else if self.get_iter_flag_enable(IterFlag::JOYPAD) && self.get_iter_flag(IterFlag::JOYPAD) {
            Some(IterFlag::JOYPAD)
        } else {
            None
        }
    }

    /// Checks for an interrupt. With interrupts enabled and a source both
    /// enabled and pending, the source of highest priority is accepted:
    /// interrupts are disabled, the source is no longer pending, and it is
    /// returned. Otherwise nothing changes.
    pub fn interrupt_step(&mut self) -> (source: Option<IterFlag>)
        ensures
            source == old(self).spec_accepted_source(),
            *final(self) == old(self).spec_interrupt_step(),
            old(self).wf() ==> final(self).wf(),
    {
        if !self.iter_master {
            return None;
        }
        match self.pending_source() {
            Some(source) => {
                self.handle_vblank_inter();
                self.set_iter_flag(source, false);
                Some(source)
            },
            None => None,
        }
    }

    /// Disables interrupts, as the service of an interrupt begins.
    pub fn handle_vblank_inter(&mut self)
        ensures
            *final(self) == (Cpu { iter_master: false, ..*old(self) }),
    {
        self.iter_master = false;
    }

    /// Enables or disables interrupts as a whole.
    pub fn set_iter_master(&mut self, state: bool)
        ensures
            *final(self) == (Cpu { iter_master: state, ..*old(self) }),
    {
        self.iter_master = state;
    }

    /// Whether interrupts are enabled as a whole.
    pub fn get_iter_master(&self) -> (state: bool)
        ensures
            state == self.iter_master,
    {
        self.iter_master
    }

    /// Reads a byte register.
    pub fn get_8(&self, reg: Register8) -> (v: u8)
        ensures
            v == self.spec_get_8(reg),
    {
        match reg {
            Register8::A => self.a,
            Register8::F => self.f,
            Register8::B => self.b,
            Register8::C => self.c,
            Register8::D => self.d,
            Register8::E => self.e,
            Register8::H => self.h,
            Register8::L => self.l,
        }
    }

    /// Writes a byte register.
    pub fn set_8(&mut self, reg: Register8, v: u8)
        ensures
            *final(self) == old(self).spec_set_8(reg, v),
    {
        match reg {
            Register8::A => self.a = v,
            Register8::F => self.f = v,
            Register8::B => self.b = v,
            Register8::C => self.c = v,
            Register8::D => self.d = v,
            Register8::E => self.e = v,
            Register8::H => self.h = v,
            Register8::L => self.l = v,
        };
    }

    /// Reads a word register.
    pub fn get_16(&self, reg: Register16) -> (v: u16)
        ensures
            v == self.spec_get_16(reg),
    {
        match reg {
            Register16::AF => join_bytes(self.a, self.f),
            Register16::BC => join_bytes(self.b, self.c),
            Register16::DE => join_bytes(self.d, self.e),
            Register16::HL => join_bytes(self.h, self.l),
            Register16::SP => self.sp,
            Register16::PC => self.pc,
        }
    }

    /// Writes a word register.
    pub fn set_16(&mut self, reg: Register16, v: u16)
        ensures
            *final(self) == old(self).spec_set_16(reg, v),
    {
        match reg {
            Register16::AF => {
                self.a = high_byte(v);
                self.f = low_byte(v);
            },
            Register16::BC => {
                self.b = high_byte(v);
                self.c = low_byte(v);
            },
            Register16::DE => {
                self.d = high_byte(v);
                self.e = low_byte(v);
            },
            Register16::HL => {
                self.h = high_byte(v);
                self.l = low_byte(v);
            },
            Register16::SP => self.sp = v,
            Register16::PC => self.pc = v,
        }
    }

    /// Marks an interrupt source pending, or no longer pending.
    pub fn set_iter_flag(&mut self, flag: IterFlag, set: bool)
        ensures
            *final(self) == old(self).spec_set_iter_flag(flag, set),
            old(self).iter_flags < 32 ==> final(self).iter_flags < 32,
    {
        proof {
            reveal(spec_bit_at);
            reveal(spec_with_bit);
            lemma_bit_masks(self.iter_flags);
        }
        match (flag, set) {
            (IterFlag::VBLANK, true) => self.iter_flags = self.iter_flags | 0b0000_0001,
            (IterFlag::LCDSTAT, true) => self.iter_flags = self.iter_flags | 0b0000_0010,
            (IterFlag::TIMER, true) => self.iter_flags = self.iter_flags | 0b0000_0100,
            (IterFlag::SERIAL, true) => self.iter_flags = self.iter_flags | 0b0000_1000,
            (IterFlag::JOYPAD, true) => self.iter_flags = self.iter_flags | 0b0001_0000,
            (IterFlag::VBLANK, false) => self.iter_flags = self.iter_flags & 0b1111_1110,
            (IterFlag::LCDSTAT, false) => self.iter_flags = self.iter_flags & 0b1111_1101,
            (IterFlag::TIMER, false) => self.iter_flags = self.iter_flags & 0b1111_1011,
            (IterFlag::SERIAL, false) => self.iter_flags = self.iter_flags & 0b1111_0111,
            (IterFlag::JOYPAD, false) => self.iter_flags = self.iter_flags & 0b1110_1111,
        }
    }

    /// Whether an interrupt source is pending.
    pub fn get_iter_flag(&self, flag: IterFlag) -> (set: bool)
        ensures
            set == self.spec_iter_flag(flag),
    {
        proof {
            reveal(spec_bit_at);
            reveal(spec_with_bit);
            lemma_bit_masks(self.iter_flags);
        }
        match flag {
            IterFlag::VBLANK => (self.iter_flags & 0b0000_0001) == 1,
            IterFlag::LCDSTAT => ((self.iter_flags & 0b0000_0010) >> 1) == 1,
            IterFlag::TIMER => ((self.iter_flags & 0b0000_0100) >> 2) == 1,
            IterFlag::SERIAL => ((self.iter_flags & 0b0000_1000) >> 3) == 1,
            IterFlag::JOYPAD => ((self.iter_flags & 0b0001_0000) >> 4) == 1,
        }
    }

    /// Enables or disables an interrupt source.
    pub fn set_iter_flag_enable(&mut self, flag: IterFlag, set: bool)
        ensures
            *final(self) == old(self).spec_set_iter_flag_enable(flag, set),
            old(self).iter_enable < 32 ==> final(self).iter_enable < 32,
    {
        proof {
            reveal(spec_bit_at);
            reveal(spec_with_bit);
            lemma_bit_masks(self.iter_enable);
        }
        match (flag, set) {
            (IterFlag::VBLANK, true) => self.iter_enable = self.iter_enable | 0b0000_0001,
            (IterFlag::LCDSTAT, true) => self.iter_enable = self.iter_enable | 0b0000_0010,
            (IterFlag::TIMER, true) => self.iter_enable = self.iter_enable | 0b0000_0100,
            (IterFlag::SERIAL, true) => self.iter_enable = self.iter_enable | 0b0000_1000,
            (IterFlag::JOYPAD, true) => self.iter_enable = self.iter_enable | 0b0001_0000,
            (IterFlag::VBLANK, false) => self.iter_enable = self.iter_enable & 0b1111_1110,
            (IterFlag::LCDSTAT, false) => self.iter_enable = self.iter_enable & 0b1111_1101,
            (IterFlag::TIMER, false) => self.iter_enable = self.iter_enable & 0b1111_1011,
            (IterFlag::SERIAL, false) => self.iter_enable = self.iter_enable & 0b1111_0111,
            (IterFlag::JOYPAD, false) => self.iter_enable = self.iter_enable & 0b1110_1111,
        }
    }

    /// Whether an interrupt source is enabled.
    pub fn get_iter_flag_enable(&self, flag: IterFlag) -> (set: bool)
        ensures
            set == self.spec_iter_flag_enable(flag),
    {
        proof {
            reveal(spec_bit_at);
            reveal(spec_with_bit);
            lemma_bit_masks(self.iter_enable);
        }
        match flag {
            IterFlag::VBLANK => (self.iter_enable & 0b0000_0001) == 1,
            IterFlag::LCDSTAT => ((self.iter_enable & 0b0000_0010) >> 1) == 1,
            IterFlag::TIMER => ((self.iter_enable & 0b0000_0100) >> 2) == 1,
            IterFlag::SERIAL => ((self.iter_enable & 0b0000_1000) >> 3) == 1,
            IterFlag::JOYPAD => ((self.iter_enable & 0b0001_0000) >> 4) == 1,
        }
    }

    /// Sets or clears one of the flags `Z`, `N`, `H`, `C`; every other bit
    /// of `F` is kept.
    pub fn set_flag(&mut self, flag: Flag, set: bool)
        requires
            flag.spec_is_bit(),
        ensures
            *final(self) == old(self).spec_set_flag(flag, set),
    {
        let f = self.get_8(Register8::F);
        proof {
            reveal(spec_bit_at);
            reveal(spec_with_bit);
            lemma_bit_masks(f);
        }
        match (flag, set) {
            (Flag::Z, true) => self.set_8(Register8::F, f | 0b1000_0000),
            (Flag::N, true) => self.set_8(Register8::F, f | 0b0100_0000),
            (Flag::H, true) => self.set_8(Register8::F, f | 0b0010_0000),
            (Flag::C, true) => self.set_8(Register8::F, f | 0b0001_0000),
            (Flag::Z, false) => self.set_8(Register8::F, f & 0b0111_1111),
            (Flag::N, false) => self.set_8(Register8::F, f & 0b1011_1111),
            (Flag::H, false) => self.set_8(Register8::F, f & 0b1101_1111),
            (Flag::C, false) => self.set_8(Register8::F, f & 0b1110_1111),
            _ => vstd::pervasive::unreached(),
        }
    }

    /// Whether a flag holds.
    pub fn get_flag(&self, flag: Flag) -> (set: bool)
        ensures
            set == self.spec_flag(flag),
    {
        let f = self.get_8(Register8::F);
        proof {
            reveal(spec_bit_at);
            reveal(spec_with_bit);
            lemma_bit_masks(f);
        }
        match flag {
            Flag::C => ((f & 0b0001_0000) >> 4) == 1,
            Flag::H => ((f & 0b0010_0000) >> 5) == 1,
            Flag::N => ((f & 0b0100_0000) >> 6) == 1,
            Flag::Z => ((f & 0b1000_0000) >> 7) == 1,
            Flag::NC => ((f & 0b0001_0000) >> 4) != 1,
            Flag::NZ => ((f & 0b1000_0000) >> 7) != 1,
        }
    }

    /// Writes the four flags at once; the low nibble of `F` is kept.
    pub fn set_flags(&mut self, z: bool, n: bool, h: bool, c: bool)
        ensures
            *final(self) == old(self).spec_with_flags(z, n, h, c),
    {
        proof {
            lemma_flags_compose(*self, z, n, h, c);
        }
        self.set_flag(Flag::Z, z);
        self.set_flag(Flag::N, n);
        self.set_flag(Flag::H, h);
        self.set_flag(Flag::C, c);
    }

    /// Whether the processor is well formed, as the operations that let
    /// time pass require.
    pub fn is_valid(&self) -> (valid: bool)
        ensures
            valid == self.wf(),
    {
        self.iter_enable < 32 && self.iter_flags < 32 && self.ppu.scanline <= LAST_LINE && (
        self.ppu.mode == GpuMode::VBLANK || self.ppu.scanline < VBLANK_FIRST_LINE) && self.ppu.tick
            < budget(self.ppu.mode)
    }

    /// Clears the four flags; the low nibble of `F` is kept.
    pub fn reset_flags(&mut self)
        ensures
            *final(self) == old(self).spec_with_flags(false, false, false, false),
    {
        self.set_flags(false, false, false, false);
    }

    /// Adds one to a byte register, wrapping from 255 to 0.
    pub fn inc_8(&mut self, reg: Register8)
        ensures
            *final(self) == old(self).spec_set_8(reg, ((old(self).spec_get_8(reg) + 1) % 256) as u8),
    {
        match reg {
            Register8::A => self.a = self.a.wrapping_add(1),
            Register8::F => self.f = self.f.wrapping_add(1),
            Register8::B => self.b = self.b.wrapping_add(1),
            Register8::C => self.c = self.c.wrapping_add(1),
            Register8::D => self.d = self.d.wrapping_add(1),
            Register8::E => self.e = self.e.wrapping_add(1),
            Register8::H => self.h = self.h.wrapping_add(1),
            Register8::L => self.l = self.l.wrapping_add(1),
        };
    }

    /// Adds one to a word register, wrapping from 65535 to 0.
    pub fn inc_16(&mut self, reg: Register16)
        ensures
            *final(self) == old(self).spec_set_16(
                reg,
                ((old(self).spec_get_16(reg) + 1) % 0x1_0000) as u16,
            ),
    {
        let v: u16 = self.get_16(reg).wrapping_add(1);
        self.set_16(reg, v);
    }

    /// Advances the program counter by `inc`, wrapping at the end of the
    /// address space.
    pub fn inc_pc(&mut self, inc: u8)
        ensures
            *final(self) == (Cpu { pc: ((old(self).pc + inc) % 0x1_0000) as u16, ..*old(self) }),
    {
        self.pc = self.pc.wrapping_add(inc as u16);
    }

    /// Lets `inc` machine cycles pass.
    pub fn inc_ticks(&mut self, inc: u8)
        requires
            old(self).wf(),
        ensures
            *final(self) == old(self).spec_inc_ticks(inc),
            final(self).wf(),
    {
        self.ticks = self.ticks.wrapping_add(inc as u64);
        self.ppu.tick = self.ppu.tick + DOTS_PER_CYCLE * (inc as u64);
        let ghost start = *self;
        while self.ppu.tick >= budget(self.ppu.mode)
            invariant
                self.ppu.wf(),
                self.iter_flags < 32,
                self.iter_enable < 32,
                self.spec_settle() == start.spec_settle(),
            decreases self.ppu.tick,
        {
            self.ppu_step();
        }
    }
}

/// A word written to a register is read back unchanged; after a write to a
/// pair, the high register holds the word's upper byte and the low register
/// its lower byte.
pub proof fn lemma_set_get_16(cpu: Cpu, reg: Register16, v: u16)
    ensures
        cpu.spec_set_16(reg, v).spec_get_16(reg) == v,
        reg == Register16::AF ==> cpu.spec_set_16(reg, v).spec_get_8(Register8::A) == v / 256
            && cpu.spec_set_16(reg, v).spec_get_8(Register8::F) == v % 256,
        reg == Register16::BC ==> cpu.spec_set_16(reg, v).spec_get_8(Register8::B) == v / 256
            && cpu.spec_set_16(reg, v).spec_get_8(Register8::C) == v % 256,
        reg == Register16::DE ==> cpu.spec_set_16(reg, v).spec_get_8(Register8::D) == v / 256
            && cpu.spec_set_16(reg, v).spec_get_8(Register8::E) == v % 256,
        reg == Register16::HL ==> cpu.spec_set_16(reg, v).spec_get_8(Register8::H) == v / 256
            && cpu.spec_set_16(reg, v).spec_get_8(Register8::L) == v % 256,
{
}

/// A byte written to a register is read back unchanged, and every other
/// byte register keeps its value.
pub proof fn lemma_set_get_8(cpu: Cpu, reg: Register8, v: u8, other: Register8)
    ensures
        cpu.spec_set_8(reg, v).spec_get_8(reg) == v,
        other != reg ==> cpu.spec_set_8(reg, v).spec_get_8(other) == cpu.spec_get_8(other),
{
}

/// Setting or clearing a flag gives that flag the new value and changes no
/// other bit of `F` and no other part of the processor.
pub proof fn lemma_flag_isolation(cpu: Cpu, flag: Flag, set: bool)
    requires
        flag.spec_is_bit(),
    ensures
        cpu.spec_set_flag(flag, set).spec_flag(flag) == set,
        flag.spec_weight() != 128 ==> spec_bit_at(cpu.spec_set_flag(flag, set).f, 128) == spec_bit_at(
            cpu.f,
            128,
        ),
        flag.spec_weight() != 64 ==> spec_bit_at(cpu.spec_set_flag(flag, set).f, 64) == spec_bit_at(
            cpu.f,
            64,
        ),
        flag.spec_weight() != 32 ==> spec_bit_at(cpu.spec_set_flag(flag, set).f, 32) == spec_bit_at(
            cpu.f,
            32,
        ),
        flag.spec_weight() != 16 ==> spec_bit_at(cpu.spec_set_flag(flag, set).f, 16) == spec_bit_at(
            cpu.f,
            16,
        ),
        spec_bit_at(cpu.spec_set_flag(flag, set).f, 8) == spec_bit_at(cpu.f, 8),
        spec_bit_at(cpu.spec_set_flag(flag, set).f, 4) == spec_bit_at(cpu.f, 4),
        spec_bit_at(cpu.spec_set_flag(flag, set).f, 2) == spec_bit_at(cpu.f, 2),
        spec_bit_at(cpu.spec_set_flag(flag, set).f, 1) == spec_bit_at(cpu.f, 1),
        cpu.spec_set_flag(flag, set) == (Cpu { f: cpu.spec_set_flag(flag, set).f, ..cpu }),
{
    lemma_with_bit(cpu.f, set);
}

/// Writing the four flags one after the other gives `F` the chosen pattern
/// in its high nibble and keeps its low nibble: each of the sixteen
/// patterns can be reached, from any state.
pub proof fn lemma_flags_compose(cpu: Cpu, z: bool, n: bool, h: bool, c: bool)
    ensures
        cpu.spec_set_flag(Flag::Z, z).spec_set_flag(Flag::N, n).spec_set_flag(
            Flag::H,
            h,
        ).spec_set_flag(Flag::C, c) == cpu.spec_with_flags(z, n, h, c),
        cpu.spec_with_flags(z, n, h, c).spec_flag(Flag::Z) == z,
        cpu.spec_with_flags(z, n, h, c).spec_flag(Flag::N) == n,
        cpu.spec_with_flags(z, n, h, c).spec_flag(Flag::H) == h,
        cpu.spec_with_flags(z, n, h, c).spec_flag(Flag::C) == c,
        cpu.spec_with_flags(z, n, h, c).f % 16 == cpu.f % 16,
        cpu.spec_with_flags(z, n, h, c).f / 16 == (if z { 8int } else { 0 }) + (if n { 4int } else { 0 })
            + (if h { 2int } else { 0 }) + (if c { 1int } else { 0 }),
{
    lemma_high_nibble(cpu.f, z, n, h, c);
}

/// Setting or clearing one flag is the same as writing all four with the
/// three others at their present values.
pub proof fn lemma_set_flag_as_with_flags(cpu: Cpu, flag: Flag, set: bool)
    requires
        flag.spec_is_bit(),
    ensures
        cpu.spec_set_flag(flag, set) == cpu.spec_with_flags(
            if flag == Flag::Z { set } else { cpu.spec_flag(Flag::Z) },
            if flag == Flag::N { set } else { cpu.spec_flag(Flag::N) },
            if flag == Flag::H { set } else { cpu.spec_flag(Flag::H) },
            if flag == Flag::C { set } else { cpu.spec_flag(Flag::C) },
        ),
{
    lemma_high_nibble(cpu.f, set, set, set, set);
}

/// Marking one interrupt source pending or not pending changes that
/// source's bit only, and enabling or disabling a source likewise.
pub proof fn lemma_iter_flag_isolation(cpu: Cpu, flag: IterFlag, set: bool, other: IterFlag)
    ensures
        cpu.spec_set_iter_flag(flag, set).spec_iter_flag(flag) == set,
        other != flag ==> cpu.spec_set_iter_flag(flag, set).spec_iter_flag(other) == cpu.spec_iter_flag(
            other,
        ),
        cpu.spec_set_iter_flag_enable(flag, set).spec_iter_flag_enable(flag) == set,
        other != flag ==> cpu.spec_set_iter_flag_enable(flag, set).spec_iter_flag_enable(other)
            == cpu.spec_iter_flag_enable(other),
{
    lemma_with_bit(cpu.iter_flags, set);
    lemma_with_bit(cpu.iter_enable, set);
    let w = flag.spec_weight();
    let v = other.spec_weight();
    assert(w == 1 || w == 2 || w == 4 || w == 8 || w == 16);
    assert(v == 1 || v == 2 || v == 4 || v == 8 || v == 16);
    assert(other != flag ==> v != w);
}

/// Letting the display settle changes nothing of the processor but the
/// display and the pending mask, and of the pending mask nothing but the
/// VBlank bit, which it can only set. Afterwards the dot counter is below
/// the budget of the phase, and the registers that the bus exposes are as
/// before, the scanline excepted.
pub proof fn lemma_settle_frame(cpu: Cpu)
    requires
        cpu.ppu.wf(),
    ensures
        cpu.spec_settle() == (Cpu {
            ppu: cpu.spec_settle().ppu,
            iter_flags: cpu.spec_settle().iter_flags,
            ..cpu
        }),
        cpu.spec_settle().iter_flags == cpu.iter_flags || cpu.spec_settle().iter_flags
            == spec_with_bit(cpu.iter_flags, 1, true),
        cpu.spec_settle().ppu.wf(),
        cpu.spec_settle().ppu.settled(),
        cpu.spec_settle().ppu.control == cpu.ppu.control,
        cpu.spec_settle().ppu.scroll_x == cpu.ppu.scroll_x,
        cpu.spec_settle().ppu.scroll_y == cpu.ppu.scroll_y,
        cpu.spec_settle().ppu.ly_compare == cpu.ppu.ly_compare,
        cpu.iter_flags < 32 ==> cpu.spec_settle().iter_flags < 32,
    decreases cpu.ppu.tick,
{
    if !cpu.ppu.settled() {
        let next = cpu.spec_ppu_step();
        lemma_settle_frame(next);
        lemma_with_bit_bounds(cpu.iter_flags, true);
        assert(IterFlag::VBLANK.spec_weight() == 1);
    }
}

/// While the dots that elapse do not use up the budget of the phase, the
/// display stays in its phase and only its dot counter moves.
pub proof fn lemma_ticks_within_phase(cpu: Cpu, inc: u8)
    requires
        cpu.wf(),
        cpu.ppu.tick + DOTS_PER_CYCLE * inc < spec_budget(cpu.ppu.mode),
    ensures
        cpu.spec_inc_ticks(inc).ppu == (Ppu {
            tick: (cpu.ppu.tick + DOTS_PER_CYCLE * inc) as u64,
            ..cpu.ppu
        }),
        cpu.spec_inc_ticks(inc).iter_flags == cpu.iter_flags,
{
}

/// When the dots that elapse use up the budget of the phase but not that of
/// the phase that follows, the display is in the following phase with the
/// dots left over: from the sprite search in the pixel transfer, from the
/// pixel transfer in horizontal blanking, from horizontal blanking on the
/// next line, which begins vertical blanking, with the VBlank interrupt
/// pending, if it is the first line of it, and from a line of vertical
/// blanking on the next, which is line 0 of a new frame after the last.
pub proof fn lemma_ticks_into_next_phase(cpu: Cpu, inc: u8)
    requires
        cpu.wf(),
        cpu.ppu.tick + DOTS_PER_CYCLE * inc >= spec_budget(cpu.ppu.mode),
        cpu.ppu.tick + DOTS_PER_CYCLE * inc - spec_budget(cpu.ppu.mode) < spec_budget(
            cpu.ppu.spec_next_phase().mode,
        ),
    ensures
        cpu.spec_inc_ticks(inc).ppu == (Ppu {
            tick: (cpu.ppu.tick + DOTS_PER_CYCLE * inc - spec_budget(cpu.ppu.mode)) as u64,
            ..cpu.ppu.spec_next_phase()
        }),
        cpu.ppu.mode == GpuMode::OAM ==> cpu.spec_inc_ticks(inc).ppu.mode == GpuMode::VRAM,
        cpu.ppu.mode == GpuMode::VRAM ==> cpu.spec_inc_ticks(inc).ppu.mode == GpuMode::HBLANK,
        cpu.ppu.spec_enters_vblank() ==> cpu.spec_inc_ticks(inc).ppu.mode == GpuMode::VBLANK
            && cpu.spec_inc_ticks(inc).spec_iter_flag(IterFlag::VBLANK),
        !cpu.ppu.spec_enters_vblank() ==> cpu.spec_inc_ticks(inc).iter_flags == cpu.iter_flags,
{
    let fed = Cpu {
        ticks: ((cpu.ticks + inc) % 0x1_0000_0000_0000_0000) as u64,
        ppu: Ppu { tick: (cpu.ppu.tick + DOTS_PER_CYCLE * inc) as u64, ..cpu.ppu },
        ..cpu
    };
    let next = fed.spec_ppu_step();
    assert(fed.spec_settle() == next.spec_settle());
    assert(next.ppu.settled());
    lemma_with_bit(cpu.iter_flags, true);
    assert(IterFlag::VBLANK.spec_weight() == 1);
}

} // verus!