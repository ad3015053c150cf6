//! The machine as a whole: processor, boot program, cartridge and working
//! memory behind one memory bus, with the stack and the interrupt
//! controller that work through that bus.

use crate::cartridge::Cartridge;
use crate::cpu::{Cpu, Flag, IterFlag, Register16, Register8};
use crate::memory::{spec_next_addr, Memory, MEMORY_SIZE};
use crate::ppu::Ppu;
use crate::bits::bit_of;
use crate::cpu::lemma_settle_frame;
use crate::utils::{
    high_byte, join_bytes, lemma_shifts, lemma_with_bit, lemma_with_bit_bounds, low_byte, spec_bit_at, spec_high, spec_join,
    spec_low, spec_with_bit,
};
use vstd::prelude::*;

pub mod debugger;

verus! {

/// Number of bytes of the boot program that overlays the cartridge.
pub const BOOT_SIZE: usize = 0x100;

/// Number of bytes of the address space that the cartridge backs.
pub const ROM_WINDOW: usize = 0x8000;

/// Address of the display control register.
pub const REG_CONTROL: u16 = 0xFF40;

/// Address of the vertical scroll register.
pub const REG_SCROLL_Y: u16 = 0xFF42;

/// Address of the horizontal scroll register.
pub const REG_SCROLL_X: u16 = 0xFF43;

/// Address of the scanline register.
pub const REG_SCANLINE: u16 = 0xFF44;

/// Address of the register that starts a transfer to sprite memory.
pub const REG_DMA: u16 = 0xFF46;

/// First address of sprite memory, the destination of a transfer.
pub const DMA_TARGET: u16 = 0xFE00;

/// Number of bytes that a transfer copies.
pub const DMA_LENGTH: u16 = 0x9F;

/// Machine cycles charged when an interrupt is serviced: twelve dots.
pub const INTERRUPT_CYCLES: u8 = 3;

/// The machine: one owner of the processor, the boot program, the
/// cartridge and the working memory.
pub struct GameBoy {
    pub cpu: Box<Cpu>,
    pub boot_rom: Vec<u8>,
    pub cartridge: Box<Cartridge>,
    pub mem: Box<Memory>,
    /// Whether the boot program overlays the first 256 bytes.
    pub boot_overlay: bool,
    /// Whether the processor waits for an interrupt instead of fetching.
    pub halted: bool,
}

/// The machine as plain values.
pub ghost struct Machine {
    pub cpu: Cpu,
    pub boot_rom: Seq<u8>,
    pub boot_overlay: bool,
    pub rom: Seq<u8>,
    pub mem: Seq<u8>,
    pub halted: bool,
}

impl View for GameBoy {
    type V = Machine;

    open spec fn view(&self) -> Machine {
        Machine {
            cpu: *self.cpu,
            boot_rom: self.boot_rom@,
            boot_overlay: self.boot_overlay,
            rom: self.cartridge@,
            mem: self.mem@,
            halted: self.halted,
        }
    }
}

/// Whether `addr` lies in the mirror of working memory.
pub open spec fn spec_is_echo(addr: u16) -> bool {
    0xE000 <= addr <= 0xFDFF
}

impl Machine {
    /// Every address resolves: working memory is complete, the cartridge
    /// fills its window, an active boot overlay has all its bytes, and the
    /// processor is well formed.
    pub open spec fn wf(self) -> bool {
        &&& self.mem.len() == MEMORY_SIZE
        &&& self.rom.len() >= ROM_WINDOW
        &&& self.boot_overlay ==> self.boot_rom.len() >= BOOT_SIZE
        &&& self.cpu.wf()
    }

    /// The byte that the bus returns for `addr`.
    pub open spec fn spec_read_byte(self, addr: u16) -> u8 {
        if addr < BOOT_SIZE && self.boot_overlay {
            self.boot_rom[addr as int]
        } else if addr < ROM_WINDOW {
            self.rom[addr as int]
        } else if spec_is_echo(addr) {
            self.mem[addr - 0x2000]
        } else if addr == REG_CONTROL {
            self.cpu.ppu.control
        } else if addr == REG_SCROLL_Y {
            self.cpu.ppu.scroll_y
        } else if addr == REG_SCROLL_X {
            self.cpu.ppu.scroll_x
        } else if addr == REG_SCANLINE {
            self.cpu.ppu.scanline
        } else {
            self.mem[addr as int]
        }
    }

    /// The little-endian word that the bus returns for `addr`.
    pub open spec fn spec_read_word(self, addr: u16) -> u16 {
        spec_join(self.spec_read_byte(spec_next_addr(addr)), self.spec_read_byte(addr))
    }

    /// The machine with one byte of working memory written.
    pub open spec fn spec_with_mem(self, at: int, v: u8) -> Machine {
        Machine { mem: self.mem.update(at, v), ..self }
    }

    /// The machine with another display state.
    pub open spec fn spec_with_ppu(self, ppu: Ppu) -> Machine {
        Machine { cpu: Cpu { ppu, ..self.cpu }, ..self }
    }

    /// The machine after `v` has gone to the place that `addr` names, before
    /// any transfer that the write starts: the cartridge ignores writes, the
    /// mirror writes through to working memory, the display registers take
    /// the byte, and the scanline register goes back to zero whatever is
    /// written.
    pub open spec fn spec_store_byte(self, addr: u16, v: u8) -> Machine {
        if addr < ROM_WINDOW {
            self
        } else if spec_is_echo(addr) {
            self.spec_with_mem(addr - 0x2000, v)
        } else if addr == REG_CONTROL {
            self.spec_with_ppu(Ppu { control: v, ..self.cpu.ppu })
        } else if addr == REG_SCROLL_Y {
            self.spec_with_ppu(Ppu { scroll_y: v, ..self.cpu.ppu })
        } else if addr == REG_SCROLL_X {
            self.spec_with_ppu(Ppu { scroll_x: v, ..self.cpu.ppu })
        } else if addr == REG_SCANLINE {
            self.spec_with_ppu(Ppu { scanline: 0, ..self.cpu.ppu })
        } else {
            self.spec_with_mem(addr as int, v)
        }
    }

    /// The address from which a transfer started by `v` takes its byte
    /// number `i`.
    pub open spec fn spec_dma_source(v: u8, i: int) -> u16 {
        (v as int * 0x100 + i) as u16
    }

    /// The machine after a transfer started by `v`: each of the bytes of the
    /// destination holds what the bus returned for its source before the
    /// transfer.
    pub open spec fn spec_dma_transfer(self, v: u8) -> Machine {
        Machine {
            mem: Seq::new(
                self.mem.len(),
                |at: int|
                    if DMA_TARGET <= at < DMA_TARGET + DMA_LENGTH {
                        self.spec_read_byte(Self::spec_dma_source(v, at - DMA_TARGET))
                    } else {
                        self.mem[at]
                    },
            ),
            ..self
        }
    }

    /// The machine after a write of `v` to `addr` through the bus.
    pub open spec fn spec_write_byte(self, addr: u16, v: u8) -> Machine {
        if addr == REG_DMA {
            self.spec_store_byte(addr, v).spec_dma_transfer(v)
        } else {
            self.spec_store_byte(addr, v)
        }
    }

    /// The machine after a write of the word `v` to `addr` through the bus:
    /// the high byte goes to the address that follows, then the low byte to
    /// `addr`.
    pub open spec fn spec_write_word(self, addr: u16, v: u16) -> Machine {
        self.spec_write_byte(spec_next_addr(addr), spec_high(v)).spec_write_byte(addr, spec_low(v))
    }

    /// The machine with another processor state.
    pub open spec fn spec_with_cpu(self, cpu: Cpu) -> Machine {
        Machine { cpu, ..self }
    }

    /// The machine after `v` has been pushed: the stack pointer goes down by
    /// two, wrapping, and the word is written where it then points.
    pub open spec fn spec_push(self, v: u16) -> Machine {
        let sp = ((self.cpu.sp + 0x1_0000 - 2) % 0x1_0000) as u16;
        self.spec_with_cpu(Cpu { sp, ..self.cpu }).spec_write_word(sp, v)
    }

    /// The word on top of the stack.
    pub open spec fn spec_top(self) -> u16 {
        self.spec_read_word(self.cpu.sp)
    }

    /// The stack pointer after a word has been popped: up by two, wrapping.
    pub open spec fn spec_sp_after_pop(self) -> u16 {
        ((self.cpu.sp + 2) % 0x1_0000) as u16
    }

    /// The machine after the program counter has been popped.
    pub open spec fn spec_read_from_stack(self) -> Machine {
        self.spec_with_cpu(Cpu { pc: self.spec_top(), sp: self.spec_sp_after_pop(), ..self.cpu })
    }

    /// The machine after a return from an interrupt routine: interrupts are
    /// enabled and the program counter is popped.
    pub open spec fn spec_reti(self) -> Machine {
        self.spec_with_cpu(Cpu { iter_master: true, ..self.cpu }).spec_read_from_stack()
    }

    /// The machine after an interrupt check. With interrupts enabled, the
    /// enabled and pending source of highest priority is serviced:
    /// interrupts are disabled, the source is no longer pending, a halted
    /// processor resumes, the program counter is pushed and replaced by the
    /// source's vector, and the service cost elapses. Otherwise nothing
    /// changes.
    pub open spec fn spec_interrupt_step(self) -> Machine {
        match self.cpu.spec_accepted_source() {
            Some(source) => {
                let accepted = Machine { cpu: self.cpu.spec_interrupt_step(), halted: false, ..self };
                let pushed = accepted.spec_push(self.cpu.pc);
                pushed.spec_with_cpu(
                    (Cpu { pc: source.spec_vector(), ..pushed.cpu }).spec_inc_ticks(INTERRUPT_CYCLES),
                )
            },
            None => self,
        }
    }

    /// The condition that entry `index` of the condition table names.
    pub open spec fn spec_cc(index: u8) -> Flag {
        if index == 0 {
            Flag::NZ
        } else if index == 1 {
            Flag::Z
        } else if index == 2 {
            Flag::NC
        } else {
            Flag::C
        }
    }

    /// The register that entry `index` of the operand table names; entry 6
    /// is the byte in memory at `HL`.
    pub open spec fn spec_r(index: u8) -> Register8 {
        if index == 0 {
            Register8::B
        } else if index == 1 {
            Register8::C
        } else if index == 2 {
            Register8::D
        } else if index == 3 {
            Register8::E
        } else if index == 4 {
            Register8::H
        } else if index == 5 {
            Register8::L
        } else {
            Register8::A
        }
    }

    /// The pair that entry `index` of the first pair table names.
    pub open spec fn spec_rp(index: u8) -> Register16 {
        if index == 0 {
            Register16::BC
        } else if index == 1 {
            Register16::DE
        } else if index == 2 {
            Register16::HL
        } else {
            Register16::SP
        }
    }

    /// The pair that entry `index` of the second pair table names.
    pub open spec fn spec_rp2(index: u8) -> Register16 {
        if index == 0 {
            Register16::BC
        } else if index == 1 {
            Register16::DE
        } else if index == 2 {
            Register16::HL
        } else {
            Register16::AF
        }
    }

    /// The value of `HL`.
    pub open spec fn spec_hl(self) -> u16 {
        self.cpu.spec_get_16(Register16::HL)
    }

    /// The value of operand `index`: a register, or for index 6 the byte
    /// that the bus returns for `HL`.
    pub open spec fn spec_get_table_r(self, index: u8) -> u8 {
        if index == 6 {
            self.spec_read_byte(self.spec_hl())
        } else {
            self.cpu.spec_get_8(Self::spec_r(index))
        }
    }

    /// The machine after `value` has been written to operand `index`.
    pub open spec fn spec_set_table_r(self, index: u8, value: u8) -> Machine {
        if index == 6 {
            self.spec_write_byte(self.spec_hl(), value)
        } else {
            self.spec_with_cpu(self.cpu.spec_set_8(Self::spec_r(index), value))
        }
    }

    /// The result of rotation or shift number `index` on `value`, with
    /// `carry` as the carry flag before it.
    pub open spec fn spec_rot_value(index: u8, value: u8, carry: bool) -> u8 {
        let v = value as int;
        let cy: int = if carry { 1 } else { 0 };
        (if index == 0 {
            (v * 2) % 256 + v / 128
        } else if index == 1 {
            v / 2 + (v % 2) * 128
        } else if index == 2 {
            (v * 2) % 256 + cy
        } else if index == 3 {
            v / 2 + cy * 128
        } else if index == 4 {
            (v * 2) % 256
        } else if index == 5 {
            v / 2 + (v / 128) * 128
        } else if index == 6 {
            (v % 16) * 16 + v / 16
        } else if index == 7 {
            v / 2
        } else {
            0
        }) as u8
    }

    /// The carry flag after rotation or shift number `index` on `value`: the
    /// bit that left the byte, and none for the nibble swap.
    pub open spec fn spec_rot_carry(index: u8, value: u8) -> bool {
        if index == 0 || index == 2 || index == 4 {
            value >= 128
        } else if index == 6 {
            false
        } else {
            value % 2 == 1
        }
    }

    /// The processor after rotation or shift number `index` on `value`:
    /// `Z` tells whether the result is zero, `N` and `H` are clear, `C` is
    /// the bit that left. Numbers above 7 name no operation.
    pub open spec fn spec_exec_table_rot(self, index: u8, value: u8) -> Machine {
        if index < 8 {
            self.spec_with_cpu(
                self.cpu.spec_with_flags(
                    Self::spec_rot_value(index, value, self.cpu.spec_flag(Flag::C)) == 0,
                    false,
                    false,
                    Self::spec_rot_carry(index, value),
                ),
            )
        } else {
            self
        }
    }
}

impl GameBoy {
    /// Every address resolves and the processor is well formed.
    pub open spec fn wf(&self) -> bool {
        self@.wf()
    }

    /// Assembles a machine with its boot overlay active and its processor
    /// running.
    pub fn new(cpu: Box<Cpu>, boot_rom: Vec<u8>, cartridge: Box<Cartridge>, mem: Box<Memory>) -> (gb:
        GameBoy)
        ensures
            gb@ == (Machine {
                cpu: *cpu,
                boot_rom: boot_rom@,
                boot_overlay: true,
                rom: cartridge@,
                mem: mem@,
                halted: false,
            }),
    {
        GameBoy { cpu, boot_rom, cartridge, mem, boot_overlay: true, halted: false }
    }

    /// Reads a byte through the bus.
    pub fn read_byte(&self, addr: u16) -> (v: u8)
        requires
            self.wf(),
        ensures
            v == self@.spec_read_byte(addr),
    {
        match addr {
            0..=0x3FFF => {
                if addr <= 0xFF && self.boot_overlay {
                    return self.boot_rom[addr as usize];
                }
                self.cartridge.read_byte(addr)
            },
            0x4000..=0x7FFF => self.cartridge.read_byte(addr),
            0xE000..=0xFDFF => self.mem.read_byte(addr - 0x2000),
            0xFF40 => self.cpu.ppu.control,
            0xFF42 => self.cpu.ppu.scroll_y,
            0xFF43 => self.cpu.ppu.scroll_x,
            0xFF44 => self.cpu.ppu.scanline,
            _ => self.mem.read_byte(addr),
        }
    }

    /// Reads a little-endian word through the bus.
    pub fn read_word(&self, addr: u16) -> (v: u16)
        requires
            self.wf(),
        ensures
            v == self@.spec_read_word(addr),
    {
        let a = self.read_byte(addr);
        let b = self.read_byte(addr.wrapping_add(1));
        join_bytes(b, a)
    }

    /// Writes a byte through the bus. A write to the transfer register
    /// stores the byte and then copies to sprite memory.
    pub fn write_byte(&mut self, addr: u16, v: u8)
        requires
            old(self).wf(),
        ensures
            final(self)@ == old(self)@.spec_write_byte(addr, v),
            final(self).wf(),
    {
        match addr {
            0..=0x7FFF => {},
            0xE000..=0xFDFF => self.mem.write_byte(addr - 0x2000, v),
            0xFF40 => self.cpu.ppu.control = v,
            0xFF42 => self.cpu.ppu.scroll_y = v,
            0xFF43 => self.cpu.ppu.scroll_x = v,
            0xFF44 => self.cpu.ppu.scanline = 0,
            0xFF46 => {
                self.mem.write_byte(addr, v);
                self.dma_transfer(v);
            },
            _ => self.mem.write_byte(addr, v),
        }
    }

    /// Writes a little-endian word through the bus.
    pub fn write_word(&mut self, addr: u16, v: u16)
        requires
            old(self).wf(),
        ensures
            final(self)@ == old(self)@.spec_write_word(addr, v),
            final(self).wf(),
    {
        self.write_byte(addr.wrapping_add(1), high_byte(v));
        self.write_byte(addr, low_byte(v));
    }

    /// Copies to sprite memory the bytes that the bus returns from
    /// `addr * 0x100` on, in increasing address order.
    pub fn dma_transfer(&mut self, addr: u8)
        requires
            old(self).wf(),
        ensures
            final(self)@ == old(self)@.spec_dma_transfer(addr),
            final(self).wf(),
    {
        let offset_addr: u16 = addr as u16 * 0x100;
        let mut i: u16 = 0;
        while i < DMA_LENGTH
            invariant
                i <= DMA_LENGTH,
                offset_addr == addr * 0x100,
                self.wf(),
                self@ == (Machine { mem: self@.mem, ..old(self)@ }),
                forall|at: int|
                    0 <= at < MEMORY_SIZE ==> self@.mem[at] == (if DMA_TARGET <= at < DMA_TARGET + i {
                        old(self)@.spec_read_byte(Machine::spec_dma_source(addr, at - DMA_TARGET))
                    } else {
                        old(self)@.mem[at]
                    }),
            decreases DMA_LENGTH - i,
        {
            let from = offset_addr + i;
            let to = DMA_TARGET + i;
            let value = self.read_byte(from);
            self.mem.write_byte(to, value);
            i = i + 1;
        }
        assert(self@.mem =~= old(self)@.spec_dma_transfer(addr).mem);
    }
    /// A copy of the processor's state: every register, the flags, the
    /// interrupt masks, the cycle counter and the display.
    pub fn snapshot(&self) -> (cpu: Cpu)
        ensures
            cpu == self@.cpu,
    {
        *self.cpu
    }

    /// Stops overlaying the boot program on the cartridge.
    pub fn disable_boot_overlay(&mut self)
        ensures
            final(self)@ == (Machine { boot_overlay: false, ..old(self)@ }),
    {
        self.boot_overlay = false;
    }

    /// Whether every address resolves and the processor is well formed, as
    /// the operations on the machine require.
    pub fn is_valid(&self) -> (valid: bool)
        ensures
            valid == self.wf(),
    {
        self.mem.mem.len() == MEMORY_SIZE && self.cartridge.size() >= ROM_WINDOW && (!self.boot_overlay
            || self.boot_rom.len() >= BOOT_SIZE) && self.cpu.is_valid()
    }

    /// Checks for an interrupt and services the source of highest priority
    /// if there is one to service.
    pub fn interrupt_step(&mut self)
        requires
            old(self).wf(),
        ensures
            final(self)@ == old(self)@.spec_interrupt_step(),
            final(self).wf(),
    {
        let pc = self.cpu.get_16(Register16::PC);
        match self.cpu.interrupt_step() {
            Some(source) => {
                self.halted = false;
                self.write_to_stack(pc);
                self.cpu.set_16(Register16::PC, source.vector());
                self.cpu.inc_ticks(INTERRUPT_CYCLES);
            },
            None => {},
        }
    }

    /// Returns from an interrupt routine.
    pub fn reti(&mut self)
        requires
            old(self).wf(),
        ensures
            final(self)@ == old(self)@.spec_reti(),
            final(self).wf(),
    {
        self.cpu.set_iter_master(true);
        self.read_from_stack();
    }

    /// Pushes a word on the stack.
    pub fn write_to_stack(&mut self, addr: u16)
        requires
            old(self).wf(),
        ensures
            final(self)@ == old(self)@.spec_push(addr),
            final(self).wf(),
    {
        let sp = self.cpu.get_16(Register16::SP).wrapping_sub(2);
        self.cpu.set_16(Register16::SP, sp);
        self.write_word(sp, addr);
    }

    /// Pops the program counter from the stack.
    pub fn read_from_stack(&mut self)
        requires
            old(self).wf(),
        ensures
            final(self)@ == old(self)@.spec_read_from_stack(),
            final(self).wf(),
    {
        let sp = self.cpu.get_16(Register16::SP);
        let pc = self.read_word(sp);
        self.cpu.set_16(Register16::PC, pc);
        self.cpu.set_16(Register16::SP, sp.wrapping_add(2));
    }

    /// Whether condition `index` holds.
    pub fn get_table_cc(&self, index: u8) -> (holds: bool)
        requires
            index < 4,
        ensures
            holds == self@.cpu.spec_flag(Machine::spec_cc(index)),
    {
        match index {
            0 => self.cpu.get_flag(Flag::NZ),
            1 => self.cpu.get_flag(Flag::Z),
            2 => self.cpu.get_flag(Flag::NC),
            _ => self.cpu.get_flag(Flag::C),
        }
    }

    /// Reads operand `index`.
    pub fn get_table_r(&self, index: u8) -> (value: u8)
        requires
            index < 8,
            self.wf(),
        ensures
            value == self@.spec_get_table_r(index),
    {
        match index {
            0 => self.cpu.get_8(Register8::B),
            1 => self.cpu.get_8(Register8::C),
            2 => self.cpu.get_8(Register8::D),
            3 => self.cpu.get_8(Register8::E),
            4 => self.cpu.get_8(Register8::H),
            5 => self.cpu.get_8(Register8::L),
            6 => self.read_byte(self.cpu.get_16(Register16::HL)),
            _ => self.cpu.get_8(Register8::A),
        }
    }

    /// Reads pair `index` of the first pair table.
    pub fn get_table_rp(&self, index: u8) -> (value: u16)
        requires
            index < 4,
        ensures
            value == self@.cpu.spec_get_16(Machine::spec_rp(index)),
    {
        match index {
            0 => self.cpu.get_16(Register16::BC),
            1 => self.cpu.get_16(Register16::DE),
            2 => self.cpu.get_16(Register16::HL),
            _ => self.cpu.get_16(Register16::SP),
        }
    }

    /// Reads pair `index` of the second pair table.
    pub fn get_table_rp2(&self, index: u8) -> (value: u16)
        requires
            index < 4,
        ensures
            value == self@.cpu.spec_get_16(Machine::spec_rp2(index)),
    {
        match index {
            0 => self.cpu.get_16(Register16::BC),
            1 => self.cpu.get_16(Register16::DE),
            2 => self.cpu.get_16(Register16::HL),
            _ => self.cpu.get_16(Register16::AF),
        }
    }

    /// Sets or clears the flag that condition `index` names. Only the
    /// conditions `Z` and `C` name a flag.
    pub fn set_table_cc(&mut self, index: u8, value: bool)
        requires
            index == 1 || index == 3,
        ensures
            final(self)@ == old(self)@.spec_with_cpu(
                old(self)@.cpu.spec_set_flag(Machine::spec_cc(index), value),
            ),
    {
        match index {
            1 => self.cpu.set_flag(Flag::Z, value),
            _ => self.cpu.set_flag(Flag::C, value),
        }
    }

    /// Writes operand `index`.
    pub fn set_table_r(&mut self, index: u8, value: u8)
        requires
            index < 8,
            old(self).wf(),
        ensures
            final(self)@ == old(self)@.spec_set_table_r(index, value),
            final(self).wf(),
    {
        match index {
            0 => self.cpu.set_8(Register8::B, value),
            1 => self.cpu.set_8(Register8::C, value),
            2 => self.cpu.set_8(Register8::D, value),
            3 => self.cpu.set_8(Register8::E, value),
            4 => self.cpu.set_8(Register8::H, value),
            5 => self.cpu.set_8(Register8::L, value),
            6 => {
                let hl = self.cpu.get_16(Register16::HL);
                self.write_byte(hl, value)
            },
            _ => self.cpu.set_8(Register8::A, value),
        }
    }

    /// Writes pair `index` of the first pair table.
    pub fn set_table_rp(&mut self, index: u8, value: u16)
        requires
            index < 4,
        ensures
            final(self)@ == old(self)@.spec_with_cpu(
                old(self)@.cpu.spec_set_16(Machine::spec_rp(index), value),
            ),
    {
        match index {
            0 => self.cpu.set_16(Register16::BC, value),
            1 => self.cpu.set_16(Register16::DE, value),
            2 => self.cpu.set_16(Register16::HL, value),
            _ => self.cpu.set_16(Register16::SP, value),
        }
    }

    /// Writes pair `index` of the second pair table.
    pub fn set_table_rp2(&mut self, index: u8, value: u16)
        requires
            index < 4,
        ensures
            final(self)@ == old(self)@.spec_with_cpu(
                old(self)@.cpu.spec_set_16(Machine::spec_rp2(index), value),
            ),
    {
        match index {
            0 => self.cpu.set_16(Register16::BC, value),
            1 => self.cpu.set_16(Register16::DE, value),
            2 => self.cpu.set_16(Register16::HL, value),
            _ => self.cpu.set_16(Register16::AF, value),
        }
    }

    /// Applies rotation or shift number `index` to `value`, sets the flags,
    /// and returns the result: 0 rotate left, 1 rotate right, 2 rotate left
    /// through carry, 3 rotate right through carry, 4 shift left, 5 shift
    /// right keeping the sign, 6 swap nibbles, 7 shift right.
    pub fn exec_table_rot(&mut self, index: u8, value: u8) -> (res: u8)
        ensures
            res == Machine::spec_rot_value(index, value, old(self)@.cpu.spec_flag(Flag::C)),
            final(self)@ == old(self)@.spec_exec_table_rot(index, value),
    {
        proof {
            lemma_shifts(value);
        }
        let top = bit_of(value, 0);
        let bottom = bit_of(value, 7);
        match index {
            0 => {
                let carry = top;
                let mut res = value << 1;
                if carry {
                    res = res + 1;
                }
                self.cpu.set_flags(res == 0, false, false, carry);
                res
            },
            1 => {
                let carry = bottom;
                let mut res = value >> 1;
                if carry {
                    res = res | 0b1000_0000;
                }
                self.cpu.set_flags(res == 0, false, false, carry);
                res
            },
            2 => {
                let carry = self.cpu.get_flag(Flag::C);
                let mut res = value << 1;
                if carry {
                    res = res + 1;
                }
                self.cpu.set_flags(res == 0, false, false, top);
                res
            },
            3 => {
                let mut res = value >> 1;
                if self.cpu.get_flag(Flag::C) {
                    res = res | 0b1000_0000;
                }
                self.cpu.set_flags(res == 0, false, false, bottom);
                res
            },
            4 => {
                let res = value << 1;
                self.cpu.set_flags(res == 0, false, false, top);
                res
            },
            5 => {
                let res = (value & 0x80) | (value >> 1);
                self.cpu.set_flags(res == 0, false, false, bottom);
                res
            },
            6 => {
                let res = ((value & 0xF) << 4) | ((value & 0xF0) >> 4);
                self.cpu.set_flags(res == 0, false, false, false);
                res
            },
            7 => {
                let res = value >> 1;
                self.cpu.set_flags(res == 0, false, false, bottom);
                res
            },
            _ => 0,
        }
    }
}

/// Whether the bus returns for `addr` the byte that was last written to it:
/// it does outside the cartridge's window, the scanline register excepted.
pub open spec fn spec_keeps_writes(addr: u16) -> bool {
    addr >= ROM_WINDOW && addr != REG_SCANLINE
}

/// The place in working memory that backs `addr`, for an address that
/// working memory backs.
pub open spec fn spec_cell(addr: u16) -> int {
    if spec_is_echo(addr) {
        addr - 0x2000
    } else {
        addr as int
    }
}

/// Whether working memory backs `addr`, rather than the boot program, the
/// cartridge or a display register.
pub open spec fn spec_in_memory(addr: u16) -> bool {
    addr >= ROM_WINDOW && addr != REG_CONTROL && addr != REG_SCROLL_Y && addr != REG_SCROLL_X && addr
        != REG_SCANLINE
}

/// A write through the bus leaves the machine well formed.
pub proof fn lemma_write_keeps_wf(m: Machine, addr: u16, v: u8)
    requires
        m.wf(),
    ensures
        m.spec_write_byte(addr, v).wf(),
        m.spec_write_byte(addr, v).cpu == (Cpu { ppu: m.spec_write_byte(addr, v).cpu.ppu, ..m.cpu }),
        m.spec_write_byte(addr, v).cpu.ppu.tick == m.cpu.ppu.tick,
        m.spec_write_byte(addr, v).cpu.ppu.mode == m.cpu.ppu.mode,
        m.spec_write_byte(addr, v).rom == m.rom,
        m.spec_write_byte(addr, v).boot_rom == m.boot_rom,
        m.spec_write_byte(addr, v).boot_overlay == m.boot_overlay,
        m.spec_write_byte(addr, v).halted == m.halted,
{
}

/// A byte written through the bus is read back from the same address,
/// unless the cartridge or the scanline register is addressed: the cartridge
/// keeps its byte, and the scanline register reads zero after any write.
pub proof fn lemma_bus_byte_round_trip(m: Machine, addr: u16, v: u8)
    requires
        m.wf(),
    ensures
        spec_keeps_writes(addr) ==> m.spec_write_byte(addr, v).spec_read_byte(addr) == v,
        addr < ROM_WINDOW ==> m.spec_write_byte(addr, v) == m,
        addr == REG_SCANLINE ==> m.spec_write_byte(addr, v).spec_read_byte(addr) == 0,
{
}

/// A write through the bus to an address other than the transfer register
/// changes what the bus returns for no address that another place backs.
pub proof fn lemma_bus_write_is_local(m: Machine, addr: u16, v: u8, other: u16)
    requires
        m.wf(),
        addr != REG_DMA,
        other != addr,
        !(spec_in_memory(addr) && spec_in_memory(other) && spec_cell(addr) == spec_cell(other)),
    ensures
        m.spec_write_byte(addr, v).spec_read_byte(other) == m.spec_read_byte(other),
{
}

/// A word written through the bus is read back from the same address, its
/// low byte from the address written and its high byte from the address
/// that follows, where both addresses keep what is written to them.
pub proof fn lemma_bus_word_round_trip(m: Machine, addr: u16, v: u16)
    requires
        m.wf(),
        spec_keeps_writes(addr),
        spec_keeps_writes(spec_next_addr(addr)),
    ensures
        m.spec_write_word(addr, v).spec_read_word(addr) == v,
        m.spec_write_word(addr, v).spec_read_byte(addr) == v % 256,
        m.spec_write_word(addr, v).spec_read_byte(spec_next_addr(addr)) == v / 256,
{
    let next = spec_next_addr(addr);
    let first = m.spec_write_byte(next, spec_high(v));
    lemma_write_keeps_wf(m, next, spec_high(v));
    lemma_bus_byte_round_trip(m, next, spec_high(v));
    let second = first.spec_write_byte(addr, spec_low(v));
    lemma_bus_byte_round_trip(first, addr, spec_low(v));
    assert(second.spec_read_byte(next) == spec_high(v));
}

/// After a write of `v` to the transfer register, the bus returns for byte
/// `i` of sprite memory what it returned for byte `i` of the source once
/// `v` was stored: what it returned before the write, unless the source
/// byte is the transfer register itself.
pub proof fn lemma_dma_copies(m: Machine, v: u8, i: int)
    requires
        m.wf(),
        0 <= i < DMA_LENGTH,
    ensures
        m.spec_write_byte(REG_DMA, v).spec_read_byte((DMA_TARGET + i) as u16) == m.spec_store_byte(
            REG_DMA,
            v,
        ).spec_read_byte(Machine::spec_dma_source(v, i)),
        Machine::spec_dma_source(v, i) != REG_DMA ==> m.spec_write_byte(REG_DMA, v).spec_read_byte(
            (DMA_TARGET + i) as u16,
        ) == m.spec_read_byte(Machine::spec_dma_source(v, i)),
        Machine::spec_dma_source(v, i) == v * 0x100 + i,
{
}

/// The rank of an interrupt source: 0 for the highest priority.
pub open spec fn spec_rank(source: IterFlag) -> int {
    match source {
        IterFlag::VBLANK => 0,
        IterFlag::LCDSTAT => 1,
        IterFlag::TIMER => 2,
        IterFlag::SERIAL => 3,
        IterFlag::JOYPAD => 4,
    }
}

/// The source that is serviced next is enabled and pending, and no source
/// of higher priority is both; there is none only if no source is both.
pub proof fn lemma_priority(cpu: Cpu, source: IterFlag)
    ensures
        cpu.spec_pending_source() == Some(source) ==> cpu.spec_iter_flag_enable(source)
            && cpu.spec_iter_flag(source),
        cpu.spec_pending_source() == Some(source) ==> forall|other: IterFlag|
            spec_rank(other) < spec_rank(source) ==> !(cpu.spec_iter_flag_enable(other)
                && cpu.spec_iter_flag(other)),
        cpu.spec_pending_source() is None ==> !(cpu.spec_iter_flag_enable(source) && cpu.spec_iter_flag(
            source,
        )),
{
}

/// An interrupt check changes the machine only if interrupts are enabled
/// and some source is both enabled and pending. It then services the source
/// of highest priority: interrupts are disabled, the processor runs, the
/// program counter is at the source's vector, the stack pointer is two
/// lower, the enable mask is as before, and of the pending mask only the
/// source's bit has changed, which is clear, unless the display entered
/// vertical blanking while the service cost elapsed and so set the VBlank
/// bit. Where the two bytes under the new stack pointer keep what is
/// written to them, they hold the program counter from before.
pub proof fn lemma_interrupt_service(m: Machine)
    requires
        m.wf(),
    ensures
        !m.cpu.iter_master || m.cpu.spec_pending_source() is None ==> m.spec_interrupt_step() == m,
        m.cpu.iter_master && m.cpu.spec_pending_source() is Some ==> ({
            let source = m.cpu.spec_pending_source()->0;
            let after = m.spec_interrupt_step();
            let cleared = spec_with_bit(m.cpu.iter_flags, source.spec_weight(), false);
            &&& after.wf()
            &&& after.cpu.pc == source.spec_vector()
            &&& !after.cpu.iter_master
            &&& !after.halted
            &&& after.cpu.sp == ((m.cpu.sp + 0x1_0000 - 2) % 0x1_0000) as u16
            &&& after.cpu.iter_enable == m.cpu.iter_enable
            &&& !spec_bit_at(cleared, source.spec_weight())
            &&& after.cpu.iter_flags == cleared || after.cpu.iter_flags == spec_with_bit(cleared, 1, true)
            &&& spec_keeps_writes(after.cpu.sp) && spec_keeps_writes(spec_next_addr(after.cpu.sp))
                ==> after.spec_read_word(after.cpu.sp) == m.cpu.pc
        }),
{
    if m.cpu.iter_master && m.cpu.spec_pending_source() is Some {
        let source = m.cpu.spec_pending_source()->0;
        let accepted = Machine { cpu: m.cpu.spec_interrupt_step(), halted: false, ..m };
        let sp = ((m.cpu.sp + 0x1_0000 - 2) % 0x1_0000) as u16;
        let lowered = accepted.spec_with_cpu(Cpu { sp, ..accepted.cpu });
        let pushed = accepted.spec_push(m.cpu.pc);
        let next = spec_next_addr(sp);
        let first = lowered.spec_write_byte(next, spec_high(m.cpu.pc));
        lemma_with_bit(m.cpu.iter_flags, false);
        lemma_with_bit_bounds(m.cpu.iter_flags, false);
        let w = source.spec_weight();
        assert(w == 1 || w == 2 || w == 4 || w == 8 || w == 16);
        assert(lowered.wf());
        lemma_write_keeps_wf(lowered, next, spec_high(m.cpu.pc));
        lemma_write_keeps_wf(first, sp, spec_low(m.cpu.pc));
        let aimed = Cpu { pc: source.spec_vector(), ..pushed.cpu };
        let fed = Cpu {
            ticks: ((aimed.ticks + INTERRUPT_CYCLES) % 0x1_0000_0000_0000_0000) as u64,
            ppu: Ppu { tick: (aimed.ppu.tick + 4 * INTERRUPT_CYCLES) as u64, ..aimed.ppu },
            ..aimed
        };
        lemma_settle_frame(fed);
        let after = m.spec_interrupt_step();
        assert(after.cpu == fed.spec_settle());
        if spec_keeps_writes(sp) && spec_keeps_writes(next) {
            lemma_bus_word_round_trip(lowered, sp, m.cpu.pc);
            assert(after.spec_read_word(sp) == pushed.spec_read_word(sp)) by {
                assert(after.mem == pushed.mem);
                assert(after.cpu.ppu.control == pushed.cpu.ppu.control);
                assert(after.cpu.ppu.scroll_x == pushed.cpu.ppu.scroll_x);
                assert(after.cpu.ppu.scroll_y == pushed.cpu.ppu.scroll_y);
            }
        }
    }
}

} // verus!