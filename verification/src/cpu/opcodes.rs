//! The instruction set: what each instruction does to the machine, how long
//! it takes, and the step that fetches, decodes and executes one.

use crate::bits::{bit_of, spec_bit, spec_clear_bit, spec_set_bit, with_bit, without_bit};
use crate::cpu::op_decode::{get_x, get_y, get_z, lemma_fields_compose, spec_x, spec_y, spec_z};
use crate::cpu::opcode::{spec_length, Opcode};
use crate::cpu::{
    lemma_flags_compose, lemma_set_flag_as_with_flags, lemma_settle_frame, Cpu, Flag, Register16,
    Register8,
};
use crate::gameboy::{
    lemma_bus_word_round_trip, lemma_write_keeps_wf, spec_keeps_writes, GameBoy, Machine,
};
use crate::memory::spec_next_addr;
use crate::utils::{lemma_bit_masks, lemma_shifts, spec_high, spec_low};
use vstd::prelude::*;

verus! {

/// Why a step could not be made.
#[derive(Clone, Copy, Debug, PartialEq, Eq, Structural)]
pub enum Error {
    /// The instruction byte at the program counter begins no instruction
    /// that the processor executes.
    UnimplementedOpcode(u8),
}

/// How an instruction ended: whether the program counter still has to move
/// past it, and the machine cycles it took.
#[derive(Clone, Copy, Debug, PartialEq, Eq, Structural)]
pub struct Outcome {
    pub add_op_length: bool,
    pub ticks: u8,
}

/// A value and the four flags that an arithmetic operation produces.
pub ghost struct AluOut {
    pub value: u8,
    pub z: bool,
    pub n: bool,
    pub h: bool,
    pub c: bool,
}

/// `v` reduced to a byte.
pub open spec fn spec_wrap8(v: int) -> u8 {
    (v % 0x100) as u8
}

/// `v` reduced to a word.
pub open spec fn spec_wrap16(v: int) -> u16 {
    (v % 0x1_0000) as u16
}

/// Reduction to a byte adds or takes off 256 once for a value that lies
/// within 256 of the byte range, and leaves a byte as it is.
pub proof fn lemma_wrap8(v: int)
    ensures
        0 <= v < 256 ==> spec_wrap8(v) == v,
        -256 <= v < 0 ==> spec_wrap8(v) == v + 256,
        256 <= v < 512 ==> spec_wrap8(v) == v - 256,
{
}

/// Reduction to a word adds or takes off 65536 once for a value that lies
/// within 65536 of the word range, and leaves a word as it is.
pub proof fn lemma_wrap16(v: int)
    ensures
        0 <= v < 0x1_0000 ==> spec_wrap16(v) == v,
        -0x1_0000 <= v < 0 ==> spec_wrap16(v) == v + 0x1_0000,
        0x1_0000 <= v < 0x2_0000 ==> spec_wrap16(v) == v - 0x1_0000,
{
}

/// One if `b` holds, else zero.
pub open spec fn spec_unit(b: bool) -> int {
    if b {
        1
    } else {
        0
    }
}

/// Operation `y` of the arithmetic unit on accumulator `a` and `operand`,
/// with `carry` as the carry flag before it: 0 add, 1 add with carry,
/// 2 subtract, 3 subtract with carry, 4 and, 5 exclusive or, 6 or,
/// 7 compare. `H` is the carry or borrow out of bit 3 and `C` the one out of
/// bit 7; compare gives the flags of subtract and keeps the accumulator.
pub open spec fn spec_alu(y: u8, a: u8, operand: u8, carry: bool) -> AluOut {
    let cy = spec_unit(carry);
    if y == 0 {
        AluOut {
            value: spec_wrap8(a + operand),
            z: spec_wrap8(a + operand) == 0,
            n: false,
            h: a % 16 + operand % 16 > 15,
            c: a + operand > 255,
        }
    } else if y == 1 {
        AluOut {
            value: spec_wrap8(a + operand + cy),
            z: spec_wrap8(a + operand + cy) == 0,
            n: false,
            h: a % 16 + operand % 16 + cy > 15,
            c: a + operand + cy > 255,
        }
    } else if y == 2 {
        AluOut {
            value: spec_wrap8(a - operand),
            z: a == operand,
            n: true,
            h: a % 16 < operand % 16,
            c: a < operand,
        }
    } else if y == 3 {
        AluOut {
            value: spec_wrap8(a - operand - cy),
            z: spec_wrap8(a - operand - cy) == 0,
            n: true,
            h: a % 16 < operand % 16 + cy,
            c: a < operand + cy,
        }
    } else if y == 4 {
        AluOut { value: a & operand, z: a & operand == 0, n: false, h: true, c: false }
    } else if y == 5 {
        AluOut { value: a ^ operand, z: a ^ operand == 0, n: false, h: false, c: false }
    } else if y == 6 {
        AluOut { value: a | operand, z: a | operand == 0, n: false, h: false, c: false }
    } else {
        AluOut { value: a, z: a == operand, n: true, h: a % 16 < operand % 16, c: a < operand }
    }
}

/// The accumulator after decimal adjustment and whether the adjustment
/// carried, from the accumulator and the flags `N`, `H`, `C` before it.
/// After an addition, 6 is added when the low digit is above 9 or `H` is
/// set, then 0x60 when the value is above 0x9F or `C` is set; after a
/// subtraction, 6 is taken off when `H` is set and 0x60 when `C` is set.
pub open spec fn spec_daa(a: u8, n: bool, h: bool, c: bool) -> (u8, bool) {
    if n {
        let low: int = if h {
            spec_wrap8(a - 6) as int
        } else {
            a as int
        };
        let all: int = if c {
            low - 0x60
        } else {
            low
        };
        (spec_wrap8(all), c)
    } else {
        let low: int = if h || a % 16 > 9 {
            a + 6
        } else {
            a as int
        };
        let all: int = if c || low > 0x9F {
            low + 0x60
        } else {
            low
        };
        (spec_wrap8(all), c || all > 255)
    }
}

impl Cpu {
    /// The processor after operation `y` of the arithmetic unit on the
    /// accumulator and `operand`. Numbers above 7 name no operation.
    pub open spec fn spec_alu(self, y: u8, operand: u8) -> Cpu {
        let out = spec_alu(y, self.a, operand, self.spec_flag(Flag::C));
        if y < 8 {
            (Cpu { a: out.value, ..self }).spec_with_flags(out.z, out.n, out.h, out.c)
        } else {
            self
        }
    }

    /// The processor after a rotation of the accumulator by one bit: 0 left,
    /// 1 right, 2 left through carry, 3 right through carry. `C` is the bit
    /// that left, `N` and `H` are clear, `Z` is kept.
    pub open spec fn spec_rotate_a(self, index: u8) -> Cpu {
        (Cpu {
            a: Machine::spec_rot_value(index, self.a, self.spec_flag(Flag::C)),
            ..self
        }).spec_with_flags(
            self.spec_flag(Flag::Z),
            false,
            false,
            Machine::spec_rot_carry(index, self.a),
        )
    }

    /// The processor after decimal adjustment of the accumulator: `Z` tells
    /// whether the result is zero, `H` is clear, `C` is set if the
    /// adjustment carried and kept otherwise, `N` is kept.
    pub open spec fn spec_daa(self) -> Cpu {
        let (value, carry) = spec_daa(
            self.a,
            self.spec_flag(Flag::N),
            self.spec_flag(Flag::H),
            self.spec_flag(Flag::C),
        );
        (Cpu { a: value, ..self }).spec_with_flags(value == 0, self.spec_flag(Flag::N), false, carry)
    }

    /// The processor after the accumulator has been complemented: `N` and
    /// `H` are set.
    pub open spec fn spec_cpl(self) -> Cpu {
        (Cpu { a: (255 - self.a) as u8, ..self }).spec_with_flags(
            self.spec_flag(Flag::Z),
            true,
            true,
            self.spec_flag(Flag::C),
        )
    }

    /// The processor after the carry flag has been set: `N` and `H` are
    /// clear.
    pub open spec fn spec_scf(self) -> Cpu {
        self.spec_with_flags(self.spec_flag(Flag::Z), false, false, true)
    }

    /// The processor after the carry flag has been complemented: `Z`, `N`
    /// and `H` are clear.
    pub open spec fn spec_ccf(self) -> Cpu {
        self.spec_with_flags(false, false, false, !self.spec_flag(Flag::C))
    }

    /// The processor after the word register `reg` has been increased by
    /// `operand`: `H` is the carry out of bit 11, `C` the carry out of bit
    /// 15, `N` is clear, `Z` is kept; then the sum, reduced to a word, is
    /// written.
    pub open spec fn spec_add_16(self, reg: Register16, operand: u16) -> Cpu {
        let v = self.spec_get_16(reg);
        self.spec_with_flags(
            self.spec_flag(Flag::Z),
            false,
            v % 0x1000 + operand % 0x1000 > 0xFFF,
            v + operand > 0xFFFF,
        ).spec_set_16(reg, spec_wrap16(v + operand))
    }

    /// The processor after `HL` has been increased by `operand`.
    pub open spec fn spec_add_hl(self, operand: u16) -> Cpu {
        self.spec_add_16(Register16::HL, operand)
    }
}

impl Machine {
    /// The machine after operation `y` of the arithmetic unit on the
    /// accumulator and `operand`.
    pub open spec fn spec_exec_alu(self, y: u8, operand: u8) -> Machine {
        self.spec_with_cpu(self.cpu.spec_alu(y, operand))
    }

    /// The machine after operation `y` of the arithmetic unit on the
    /// accumulator and operand `z`. Numbers above 7 name no operand.
    pub open spec fn spec_call_alu_table_r(self, z: u8, y: u8) -> Machine {
        if z < 8 {
            self.spec_exec_alu(y, self.spec_get_table_r(z))
        } else {
            self
        }
    }

    /// The machine after operand `index` has been increased by one: `Z`
    /// tells whether the result is zero, `N` is clear, `H` is the carry out
    /// of bit 3, `C` is kept.
    pub open spec fn spec_inc8(self, index: u8) -> Machine {
        let v = self.spec_get_table_r(index);
        self.spec_with_cpu(
            self.cpu.spec_with_flags(
                spec_wrap8(v + 1) == 0,
                false,
                v % 16 == 15,
                self.cpu.spec_flag(Flag::C),
            ),
        ).spec_set_table_r(index, spec_wrap8(v + 1))
    }

    /// The machine after operand `index` has been decreased by one: `Z`
    /// tells whether the result is zero, `N` is set, `H` is the borrow out
    /// of bit 3, `C` is kept.
    pub open spec fn spec_dec8(self, index: u8) -> Machine {
        let v = self.spec_get_table_r(index);
        self.spec_with_cpu(
            self.cpu.spec_with_flags(
                spec_wrap8(v - 1) == 0,
                true,
                v % 16 == 0,
                self.cpu.spec_flag(Flag::C),
            ),
        ).spec_set_table_r(index, spec_wrap8(v - 1))
    }

    /// The machine after `operand` has been added to operand `index`, with
    /// the flags of an addition.
    pub open spec fn spec_add8(self, index: u8, operand: u8) -> Machine {
        let v = self.spec_get_table_r(index);
        self.spec_with_cpu(
            self.cpu.spec_with_flags(
                spec_wrap8(v + operand) == 0,
                false,
                v % 16 + operand % 16 > 15,
                v + operand > 255,
            ),
        ).spec_set_table_r(index, spec_wrap8(v + operand))
    }

    /// The machine after bit `y` of operand `z`, counted from the least
    /// significant bit, has been tested: `Z` is set if the bit is clear, `N`
    /// is clear, `H` is set, `C` is kept.
    pub open spec fn spec_bit_test(self, y: u8, z: u8) -> Machine {
        self.spec_with_cpu(
            self.cpu.spec_with_flags(
                !spec_bit(self.spec_get_table_r(z), (7 - y) as u32),
                false,
                true,
                self.cpu.spec_flag(Flag::C),
            ),
        )
    }

    /// The machine after the bit of operand `z` at offset `y`, counted from
    /// the most significant bit, has been cleared.
    pub open spec fn spec_res(self, y: u8, z: u8) -> Machine {
        self.spec_set_table_r(z, spec_clear_bit(self.spec_get_table_r(z), y as u32))
    }

    /// The machine after the bit of operand `z` at offset `y`, counted from
    /// the most significant bit, has been set.
    pub open spec fn spec_set(self, y: u8, z: u8) -> Machine {
        self.spec_set_table_r(z, spec_set_bit(self.spec_get_table_r(z), y as u32))
    }

    /// The machine after a return: the program counter is popped.
    pub open spec fn spec_ret(self) -> Machine {
        self.spec_read_from_stack()
    }
}

/// What one instruction does: the machine after it, before the program
/// counter moves past it and before its cycles elapse, and how it ended.
pub ghost struct Effect {
    pub machine: Machine,
    pub outcome: Outcome,
}

/// An instruction that ran on and took `ticks` cycles.
pub open spec fn spec_ran(machine: Machine, ticks: u8) -> Option<Effect> {
    Some(Effect { machine, outcome: Outcome { add_op_length: true, ticks } })
}

/// An instruction that set the program counter itself and took `ticks`
/// cycles.
pub open spec fn spec_jumped(machine: Machine, ticks: u8) -> Option<Effect> {
    Some(Effect { machine, outcome: Outcome { add_op_length: false, ticks } })
}

/// The offset that the byte `d` stands for: `d` itself below 128, `d - 256`
/// from 128 on.
pub open spec fn spec_signed(d: u8) -> int {
    if d < 128 {
        d as int
    } else {
        d - 256
    }
}

/// The target of a relative jump of `length` bytes at `pc` with offset byte
/// `d`: the offset counts from the instruction that follows.
pub open spec fn spec_jr_target(pc: u16, length: u8, d: u8) -> u16 {
    spec_wrap16(pc + length + spec_signed(d))
}

/// Cycles of an instruction that takes `register` cycles on a register
/// operand and `memory` cycles on the byte at `HL`.
pub open spec fn spec_operand_ticks(index: u8, register: u8, memory: u8) -> u8 {
    if index == 6 {
        memory
    } else {
        register
    }
}

impl Machine {
    /// The machine with the program counter at `target`.
    pub open spec fn spec_jump(self, target: u16) -> Machine {
        self.spec_with_cpu(Cpu { pc: target, ..self.cpu })
    }

    /// The machine after a call from an instruction of `length` bytes: the
    /// address of the instruction that follows is pushed and the program
    /// counter is at `target`.
    pub open spec fn spec_call(self, length: u8, target: u16) -> Machine {
        let pushed = self.spec_push(spec_wrap16(self.cpu.pc + length));
        pushed.spec_jump(target)
    }

    /// The machine after the accumulator has been stored at `addr`.
    pub open spec fn spec_store_a(self, addr: u16) -> Machine {
        self.spec_write_byte(addr, self.cpu.a)
    }

    /// The machine after the accumulator has been loaded from `addr`.
    pub open spec fn spec_load_a(self, addr: u16) -> Machine {
        self.spec_with_cpu(Cpu { a: self.spec_read_byte(addr), ..self.cpu })
    }

    /// The machine with `HL` moved by `delta`, wrapping.
    pub open spec fn spec_move_hl(self, delta: int) -> Machine {
        self.spec_with_cpu(self.cpu.spec_set_16(Register16::HL, spec_wrap16(self.spec_hl() + delta)))
    }

    /// The machine after pair `index` of the second pair table has been
    /// popped. The low nibble of `F` takes no bits from the stack.
    pub open spec fn spec_pop(self, index: u8) -> Machine {
        let top = self.spec_top();
        let value = if index == 3 {
            (top - top % 16) as u16
        } else {
            top
        };
        self.spec_with_cpu(
            (Cpu { sp: self.spec_sp_after_pop(), ..self.cpu }).spec_set_16(
                Machine::spec_rp2(index),
                value,
            ),
        )
    }

    /// The address in the high page that the byte `low` names.
    pub open spec fn spec_high_page(low: u8) -> u16 {
        (0xFF00 + low) as u16
    }

    /// Instructions whose field `x` is 0: relative jumps, word loads and
    /// additions, loads through a pair, increments and decrements, byte
    /// loads of an immediate, and the operations on accumulator and flags.
    #[verifier::opaque]
    pub open spec fn spec_x0(self, op: Opcode) -> Option<Effect> {
        let nn = op.spec_word();
        let n = op.spec_byte();
        let cpu = self.cpu;
        if op.z == 0 {
            if op.y == 0 {
                spec_ran(self, 1)
            } else if op.y == 1 {
                spec_ran(self.spec_write_word(nn, cpu.sp), 5)
            } else if op.y == 2 {
                None
            } else if op.y == 3 || cpu.spec_flag(Self::spec_cc((op.y - 4) as u8)) {
                spec_jumped(self.spec_jump(spec_jr_target(cpu.pc, op.length, n)), 3)
            } else {
                spec_ran(self, 2)
            }
        } else if op.z == 1 {
            if op.q == 0 {
                spec_ran(self.spec_with_cpu(cpu.spec_set_16(Self::spec_rp(op.p), nn)), 3)
            } else {
                spec_ran(
                    self.spec_with_cpu(cpu.spec_add_hl(cpu.spec_get_16(Self::spec_rp(op.p)))),
                    2,
                )
            }
        } else if op.z == 2 {
            if op.q == 0 {
                if op.p == 0 {
                    spec_ran(self.spec_store_a(cpu.spec_get_16(Register16::BC)), 2)
                } else if op.p == 1 {
                    spec_ran(self.spec_store_a(cpu.spec_get_16(Register16::DE)), 2)
                } else if op.p == 2 {
                    spec_ran(self.spec_store_a(self.spec_hl()).spec_move_hl(1), 2)
                } else {
                    spec_ran(self.spec_store_a(self.spec_hl()).spec_move_hl(-1), 2)
                }
            } else {
                if op.p == 0 {
                    spec_ran(self.spec_load_a(cpu.spec_get_16(Register16::BC)), 2)
                } else if op.p == 1 {
                    spec_ran(self.spec_load_a(cpu.spec_get_16(Register16::DE)), 2)
                } else if op.p == 2 {
                    spec_ran(self.spec_load_a(self.spec_hl()).spec_move_hl(1), 2)
                } else {
                    spec_ran(self.spec_load_a(self.spec_hl()).spec_move_hl(-1), 2)
                }
            }
        } else if op.z == 3 {
            let pair = Self::spec_rp(op.p);
            let delta: int = if op.q == 0 {
                1
            } else {
                -1
            };
            spec_ran(
                self.spec_with_cpu(cpu.spec_set_16(pair, spec_wrap16(cpu.spec_get_16(pair) + delta))),
                2,
            )
        } else if op.z == 4 {
            spec_ran(self.spec_inc8(op.y), spec_operand_ticks(op.y, 1, 3))
        } else if op.z == 5 {
            spec_ran(self.spec_dec8(op.y), spec_operand_ticks(op.y, 1, 3))
        } else if op.z == 6 {
            spec_ran(self.spec_set_table_r(op.y, n), spec_operand_ticks(op.y, 2, 3))
        } else {
            if op.y < 4 {
                spec_ran(self.spec_with_cpu(cpu.spec_rotate_a(op.y)), 1)
            } else if op.y == 4 {
                spec_ran(self.spec_with_cpu(cpu.spec_daa()), 1)
            } else if op.y == 5 {
                spec_ran(self.spec_with_cpu(cpu.spec_cpl()), 1)
            } else if op.y == 6 {
                spec_ran(self.spec_with_cpu(cpu.spec_scf()), 1)
            } else {
                spec_ran(self.spec_with_cpu(cpu.spec_ccf()), 1)
            }
        }
    }

    /// Instructions whose field `x` is 1: the halt, and the loads of one
    /// operand from another.
    #[verifier::opaque]
    pub open spec fn spec_x1(self, op: Opcode) -> Option<Effect> {
        if op.y == 6 && op.z == 6 {
            spec_ran(Machine { halted: true, ..self }, 1)
        } else {
            spec_ran(
                self.spec_set_table_r(op.y, self.spec_get_table_r(op.z)),
                if op.y == 6 || op.z == 6 {
                    2
                } else {
                    1
                },
            )
        }
    }

    /// Instructions whose field `x` is 2: the arithmetic unit on an
    /// operand.
    #[verifier::opaque]
    pub open spec fn spec_x2(self, op: Opcode) -> Option<Effect> {
        spec_ran(self.spec_call_alu_table_r(op.z, op.y), spec_operand_ticks(op.z, 1, 2))
    }

    /// The instruction that the byte `cb` selects behind the prefix: by its
    /// bits 7-6 a rotation or shift, a bit test, a bit clear or a bit set,
    /// with bits 5-3 as the operation or bit number and bits 2-0 as the
    /// operand.
    #[verifier::opaque]
    pub open spec fn spec_cb(self, cb: u8) -> Option<Effect> {
        let x = spec_x(cb);
        let y = spec_y(cb);
        let z = spec_z(cb);
        if x == 0 {
            let value = self.spec_get_table_r(z);
            spec_ran(
                self.spec_exec_table_rot(y, value).spec_set_table_r(
                    z,
                    Self::spec_rot_value(y, value, self.cpu.spec_flag(Flag::C)),
                ),
                spec_operand_ticks(z, 2, 4),
            )
        } else if x == 1 {
            spec_ran(self.spec_bit_test(y, z), spec_operand_ticks(z, 2, 3))
        } else if x == 2 {
            spec_ran(self.spec_res(y, z), spec_operand_ticks(z, 2, 4))
        } else {
            spec_ran(self.spec_set(y, z), spec_operand_ticks(z, 2, 4))
        }
    }

    /// Instructions whose field `x` is 3: returns, jumps, calls and
    /// restarts, the stack, loads through an immediate address or the high
    /// page, the arithmetic unit on an immediate, the prefixed instructions
    /// and the interrupt switch.
    #[verifier::opaque]
    pub open spec fn spec_x3(self, op: Opcode) -> Option<Effect> {
        let nn = op.spec_word();
        let n = op.spec_byte();
        let cpu = self.cpu;
        if op.z == 0 {
            if op.y < 4 {
                if cpu.spec_flag(Self::spec_cc(op.y)) {
                    spec_jumped(self.spec_ret(), 5)
                } else {
                    spec_ran(self, 2)
                }
            } else if op.y == 4 {
                spec_ran(self.spec_store_a(Self::spec_high_page(n)), 3)
            } else if op.y == 6 {
                spec_ran(self.spec_load_a(Self::spec_high_page(n)), 3)
            } else {
                None
            }
        } else if op.z == 1 {
            if op.q == 0 {
                spec_ran(self.spec_pop(op.p), 3)
            } else if op.p == 0 {
                spec_jumped(self.spec_ret(), 4)
            } else if op.p == 1 {
                spec_jumped(self.spec_reti(), 4)
            } else if op.p == 2 {
                spec_jumped(self.spec_jump(self.spec_hl()), 1)
            } else {
                spec_ran(self.spec_with_cpu(Cpu { sp: self.spec_hl(), ..cpu }), 2)
            }
        } else if op.z == 2 {
            if op.y < 4 {
                if cpu.spec_flag(Self::spec_cc(op.y)) {
                    spec_jumped(self.spec_jump(nn), 4)
                } else {
                    spec_ran(self, 3)
                }
            } else if op.y == 4 {
                spec_ran(self.spec_store_a(Self::spec_high_page(cpu.c)), 2)
            } else if op.y == 5 {
                spec_ran(self.spec_store_a(nn), 4)
            } else if op.y == 6 {
                spec_ran(self.spec_load_a(Self::spec_high_page(cpu.c)), 2)
            } else {
                spec_ran(self.spec_load_a(nn), 4)
            }
        } else if op.z == 3 {
            if op.y == 0 {
                spec_jumped(self.spec_jump(nn), 4)
            } else if op.y == 1 {
                self.spec_cb(n)
            } else if op.y == 6 {
                spec_ran(self.spec_with_cpu(Cpu { iter_master: false, ..cpu }), 1)
            } else if op.y == 7 {
                spec_ran(self.spec_with_cpu(Cpu { iter_master: true, ..cpu }), 1)
            } else {
                None
            }
        } else if op.z == 4 {
            if op.y < 4 {
                if cpu.spec_flag(Self::spec_cc(op.y)) {
                    spec_jumped(self.spec_call(op.length, nn), 6)
                } else {
                    spec_ran(self, 3)
                }
            } else {
                None
            }
        } else if op.z == 5 {
            if op.q == 0 {
                spec_ran(self.spec_push(cpu.spec_get_16(Self::spec_rp2(op.p))), 4)
            } else if op.p == 0 {
                spec_jumped(self.spec_call(op.length, nn), 6)
            } else {
                None
            }
        } else if op.z == 6 {
            spec_ran(self.spec_exec_alu(op.y, n), 2)
        } else {
            spec_jumped(self.spec_call(op.length, (op.y * 8) as u16), 4)
        }
    }

    /// What the instruction `op` does, or nothing if the processor does not
    /// execute it.
    pub open spec fn spec_execute(self, op: Opcode) -> Option<Effect> {
        if op.x == 0 {
            self.spec_x0(op)
        } else if op.x == 1 {
            self.spec_x1(op)
        } else if op.x == 2 {
            self.spec_x2(op)
        } else {
            self.spec_x3(op)
        }
    }

    /// The machine once an instruction of `length` bytes has ended: the
    /// program counter moves past it unless the instruction set it, then
    /// the instruction's cycles elapse.
    pub open spec fn spec_finish(self, length: u8, outcome: Outcome) -> Machine {
        let pc = if outcome.add_op_length {
            spec_wrap16(self.cpu.pc + length)
        } else {
            self.cpu.pc
        };
        self.spec_with_cpu((Cpu { pc, ..self.cpu }).spec_inc_ticks(outcome.ticks))
    }

    /// The machine after the instruction at the program counter, or the
    /// error that names the instruction byte if the processor does not
    /// execute it.
    pub open spec fn spec_decode(self) -> Result<Machine, Error> {
        let op = Opcode::spec_fetch(self);
        match self.spec_execute(op) {
            Some(effect) => Ok(effect.machine.spec_finish(op.length, effect.outcome)),
            None => Err(Error::UnimplementedOpcode(op.opcode)),
        }
    }
}

/// Clears the bit of operand `z` at offset `y`, offset 0 being the most
/// significant bit.
pub fn op_res(gb: &mut GameBoy, y: u8, z: u8)
    requires
        y < 8,
        z < 8,
        old(gb).wf(),
    ensures
        final(gb)@ == old(gb)@.spec_res(y, z),
        final(gb).wf(),
{
    let r = gb.get_table_r(z);
    gb.set_table_r(z, without_bit(r, y as u32));
}

/// Sets the bit of operand `z` at offset `y`, offset 0 being the most
/// significant bit.
pub fn op_set(gb: &mut GameBoy, y: u8, z: u8)
    requires
        y < 8,
        z < 8,
        old(gb).wf(),
    ensures
        final(gb)@ == old(gb)@.spec_set(y, z),
        final(gb).wf(),
{
    let r = gb.get_table_r(z);
    gb.set_table_r(z, with_bit(r, y as u32));
}

/// Tests bit `y` of operand `z`, bit 0 being the least significant bit.
pub fn op_bit(gb: &mut GameBoy, y: u8, z: u8)
    requires
        y < 8,
        z < 8,
        old(gb).wf(),
    ensures
        final(gb)@ == old(gb)@.spec_bit_test(y, z),
        final(gb).wf(),
{
    let value = gb.get_table_r(z);
    let carry = gb.cpu.get_flag(Flag::C);
    if bit_of(value, 7 - y as u32) {
        gb.cpu.set_flags(false, false, true, carry);
    } else {
        gb.cpu.set_flags(true, false, true, carry);
    }
}

/// Adds two bytes, wrapping, and sets the flags of an addition: `Z` tells
/// whether the sum is zero, `N` is clear, `H` is the carry out of bit 3 and
/// `C` the carry out of bit 7.
pub fn add8(gb: &mut GameBoy, val: u8, add: u8) -> (sum: u8)
    ensures
        sum == spec_wrap8(val + add),
        final(gb)@ == old(gb)@.spec_with_cpu(
            old(gb)@.cpu.spec_with_flags(
                sum == 0,
                false,
                val % 16 + add % 16 > 15,
                val + add > 255,
            ),
        ),
{
    proof {
        lemma_shifts(val);
        lemma_shifts(add);
    }
    let half = (val & 0x0F) + (add & 0x0F) > 0x0F;
    let wide: u16 = val as u16 + add as u16;
    let sum = (wide % 0x100) as u8;
    gb.cpu.set_flags(sum == 0, false, half, wide > 0xFF);
    sum
}

/// Adds two words, wrapping, and sets the flags of a word addition: `N` is
/// clear, `H` is the carry out of bit 11 and `C` the carry out of bit 15;
/// `Z` is kept.
pub fn add16(gb: &mut GameBoy, val: u16, add: u16) -> (sum: u16)
    ensures
        sum == spec_wrap16(val + add),
        final(gb)@ == old(gb)@.spec_with_cpu(
            old(gb)@.cpu.spec_with_flags(
                old(gb)@.cpu.spec_flag(Flag::Z),
                false,
                val % 0x1000 + add % 0x1000 > 0xFFF,
                val + add > 0xFFFF,
            ),
        ),
{
    let half = (val % 0x1000) + (add % 0x1000) > 0x0FFF;
    let wide: u32 = val as u32 + add as u32;
    let zero = gb.cpu.get_flag(Flag::Z);
    gb.cpu.set_flags(zero, false, half, wide > 0xFFFF);
    (wide % 0x1_0000) as u16
}

/// Subtracts a byte from a byte, wrapping, and sets the flags of a
/// subtraction: `Z` tells whether the difference is zero, `N` is set, `H`
/// is the borrow out of bit 3 and `C` the borrow out of bit 7.
pub fn minus8(gb: &mut GameBoy, val: u8, minus: u8) -> (difference: u8)
    ensures
        difference == spec_wrap8(val - minus),
        final(gb)@ == old(gb)@.spec_with_cpu(
            old(gb)@.cpu.spec_with_flags(
                difference == 0,
                true,
                val % 16 < minus % 16,
                val < minus,
            ),
        ),
{
    proof {
        lemma_shifts(val);
        lemma_shifts(minus);
    }
    let half = (val & 0x0F) < (minus & 0x0F);
    let difference = val.wrapping_sub(minus);
    assert(difference == spec_wrap8(val - minus)) by {
        lemma_wrap8(val - minus);
    }
    gb.cpu.set_flags(difference == 0, true, half, val < minus);
    difference
}

/// Loads a byte register.
pub fn op_ld_reg8(gb: &mut GameBoy, reg: Register8, operand: u8)
    ensures
        final(gb)@ == old(gb)@.spec_with_cpu(old(gb)@.cpu.spec_set_8(reg, operand)),
        old(gb).wf() ==> final(gb).wf(),
{
    gb.cpu.set_8(reg, operand);
}

/// Loads pair `index` of the first pair table.
pub fn op_ld_reg16(gb: &mut GameBoy, index: u8, operand: u16)
    requires
        index < 4,
    ensures
        final(gb)@ == old(gb)@.spec_with_cpu(
            old(gb)@.cpu.spec_set_16(Machine::spec_rp(index), operand),
        ),
        old(gb).wf() ==> final(gb).wf(),
{
    gb.set_table_rp(index, operand);
}

/// Stores a byte through the bus.
pub fn op_ld_mem8(gb: &mut GameBoy, address: u16, operand: u8)
    requires
        old(gb).wf(),
    ensures
        final(gb)@ == old(gb)@.spec_write_byte(address, operand),
        final(gb).wf(),
{
    gb.write_byte(address, operand);
}

/// Stores a word through the bus.
pub fn op_ld_mem16(gb: &mut GameBoy, address: u16, operand: u16)
    requires
        old(gb).wf(),
    ensures
        final(gb)@ == old(gb)@.spec_write_word(address, operand),
        final(gb).wf(),
{
    gb.write_word(address, operand);
}

/// Loads operand `index`.
pub fn op_ld_8(gb: &mut GameBoy, index: u8, operand: u8)
    requires
        index < 8,
        old(gb).wf(),
    ensures
        final(gb)@ == old(gb)@.spec_set_table_r(index, operand),
        final(gb).wf(),
{
    gb.set_table_r(index, operand);
}

/// Increases operand `index` by one, wrapping; the carry flag is kept.
pub fn op_inc8(gb: &mut GameBoy, index: u8)
    requires
        index < 8,
        old(gb).wf(),
    ensures
        final(gb)@ == old(gb)@.spec_inc8(index),
        final(gb).wf(),
{
    let carry = gb.cpu.get_flag(Flag::C);
    let value = gb.get_table_r(index);
    let res = add8(gb, value, 1);
    proof {
        lemma_set_flag_as_with_flags(*gb.cpu, Flag::C, carry);
        lemma_flags_compose(*old(gb).cpu, res == 0, false, value % 16 + 1 > 15, value + 1 > 255);
        lemma_wrap8(value + 1);
    }
    gb.cpu.set_flag(Flag::C, carry);
    gb.set_table_r(index, res);
}

/// Decreases pair `index` of the first pair table by one, wrapping; no flag
/// changes.
pub fn op_dec16(gb: &mut GameBoy, index: u8)
    requires
        index < 4,
    ensures
        final(gb)@ == old(gb)@.spec_with_cpu(
            old(gb)@.cpu.spec_set_16(
                Machine::spec_rp(index),
                spec_wrap16(old(gb)@.cpu.spec_get_16(Machine::spec_rp(index)) - 1),
            ),
        ),
        old(gb).wf() ==> final(gb).wf(),
{
    let value = gb.get_table_rp(index);
    proof {
        lemma_wrap16(value - 1);
    }
    let res = value.wrapping_sub(1);
    gb.set_table_rp(index, res);
}

/// Decreases operand `index` by one, wrapping; the carry flag is kept.
pub fn op_dec8(gb: &mut GameBoy, index: u8)
    requires
        index < 8,
        old(gb).wf(),
    ensures
        final(gb)@ == old(gb)@.spec_dec8(index),
        final(gb).wf(),
{
    let carry = gb.cpu.get_flag(Flag::C);
    let value = gb.get_table_r(index);
    let res = minus8(gb, value, 1);
    proof {
        lemma_set_flag_as_with_flags(*gb.cpu, Flag::C, carry);
        lemma_flags_compose(*old(gb).cpu, res == 0, true, value % 16 < 1, value < 1);
    }
    gb.cpu.set_flag(Flag::C, carry);
    gb.set_table_r(index, res);
}

/// Adds `operand` to operand `index`, with the flags of an addition.
pub fn op_add8(gb: &mut GameBoy, index: u8, operand: u8)
    requires
        index < 8,
        old(gb).wf(),
    ensures
        final(gb)@ == old(gb)@.spec_add8(index, operand),
        final(gb).wf(),
{
    let value = gb.get_table_r(index);
    let res = add8(gb, value, operand);
    gb.set_table_r(index, res);
}

/// Adds pair `index` of the first pair table to the word register `reg`.
pub fn op_add16(gb: &mut GameBoy, reg: Register16, index: u8)
    requires
        index < 4,
    ensures
        final(gb)@ == old(gb)@.spec_with_cpu(
            old(gb)@.cpu.spec_add_16(reg, old(gb)@.cpu.spec_get_16(Machine::spec_rp(index))),
        ),
        old(gb).wf() ==> final(gb).wf(),
{
    let operand = gb.get_table_rp(index);
    let target = gb.cpu.get_16(reg);
    let res = add16(gb, target, operand);
    gb.cpu.set_16(reg, res);
}

/// Applies operation `y` of the arithmetic unit to the accumulator and
/// operand `z`.
pub fn call_alu_table_r(gb: &mut GameBoy, z: u8, y: u8)
    requires
        old(gb).wf(),
    ensures
        final(gb)@ == old(gb)@.spec_call_alu_table_r(z, y),
        final(gb).wf(),
{
    match z {
        0 => exec_alu(gb, y, gb.cpu.get_8(Register8::B)),
        1 => exec_alu(gb, y, gb.cpu.get_8(Register8::C)),
        2 => exec_alu(gb, y, gb.cpu.get_8(Register8::D)),
        3 => exec_alu(gb, y, gb.cpu.get_8(Register8::E)),
        4 => exec_alu(gb, y, gb.cpu.get_8(Register8::H)),
        5 => exec_alu(gb, y, gb.cpu.get_8(Register8::L)),
        6 => exec_alu(gb, y, gb.read_byte(gb.cpu.get_16(Register16::HL))),
        7 => exec_alu(gb, y, gb.cpu.get_8(Register8::A)),
        _ => {},
    }
}

/// Applies operation `y` of the arithmetic unit to the accumulator and
/// `operand`.
pub fn exec_alu(gb: &mut GameBoy, y: u8, operand: u8)
    ensures
        final(gb)@ == old(gb)@.spec_exec_alu(y, operand),
        old(gb).wf() ==> final(gb).wf(),
{
    match y {
        0 => alu_add_a(gb, operand),
        1 => alu_adc_a(gb, operand),
        2 => alu_sub(gb, operand),
        3 => alu_sbc(gb, operand),
        4 => alu_and(gb, operand),
        5 => alu_xor(gb, operand),
        6 => alu_or(gb, operand),
        7 => alu_cp(gb, operand),
        _ => {},
    }
}

/// Rotates the accumulator left by one bit; bit 7 goes to bit 0 and to the
/// carry flag.
pub fn rlca(gb: &mut GameBoy)
    ensures
        final(gb)@ == old(gb)@.spec_with_cpu(old(gb)@.cpu.spec_rotate_a(0)),
        old(gb).wf() ==> final(gb).wf(),
{
    let a = gb.cpu.get_8(Register8::A);
    proof {
        lemma_shifts(a);
    }
    let seventh = a >> 7;
    let rotated = a << 1 | seventh;
    let zero = gb.cpu.get_flag(Flag::Z);
    gb.cpu.set_8(Register8::A, rotated);
    gb.cpu.set_flags(zero, false, false, seventh == 0b1);
}

/// Rotates the accumulator right by one bit; bit 0 goes to bit 7 and to the
/// carry flag.
pub fn rrca(gb: &mut GameBoy)
    ensures
        final(gb)@ == old(gb)@.spec_with_cpu(old(gb)@.cpu.spec_rotate_a(1)),
        old(gb).wf() ==> final(gb).wf(),
{
    let a = gb.cpu.get_8(Register8::A);
    proof {
        lemma_shifts(a);
        lemma_bit_masks(a);
    }
    let first = a & 0b1;
    let rotated = a >> 1 | a << 7;
    let zero = gb.cpu.get_flag(Flag::Z);
    gb.cpu.set_8(Register8::A, rotated);
    gb.cpu.set_flags(zero, false, false, first == 0b1);
}

/// Rotates the accumulator left by one bit through the carry flag: bit 7
/// goes to the carry flag and the carry flag to bit 0.
pub fn rla(gb: &mut GameBoy)
    ensures
        final(gb)@ == old(gb)@.spec_with_cpu(old(gb)@.cpu.spec_rotate_a(2)),
        old(gb).wf() ==> final(gb).wf(),
{
    let a = gb.cpu.get_8(Register8::A);
    proof {
        lemma_shifts(a);
    }
    let carry: u8 = if gb.cpu.get_flag(Flag::C) {
        1
    } else {
        0
    };
    let seventh = a >> 7;
    let rotated = (a << 1) + carry;
    let zero = gb.cpu.get_flag(Flag::Z);
    gb.cpu.set_8(Register8::A, rotated);
    gb.cpu.set_flags(zero, false, false, seventh == 0b1);
}

/// Rotates the accumulator right by one bit through the carry flag: bit 0
/// goes to the carry flag and the carry flag to bit 7.
pub fn rra(gb: &mut GameBoy)
    ensures
        final(gb)@ == old(gb)@.spec_with_cpu(old(gb)@.cpu.spec_rotate_a(3)),
        old(gb).wf() ==> final(gb).wf(),
{
    let a = gb.cpu.get_8(Register8::A);
    proof {
        lemma_shifts(a);
        lemma_bit_masks(a);
    }
    let first = a & 0b1;
    let rotated = if gb.cpu.get_flag(Flag::C) {
        a >> 1 | 0x80
    } else {
        a >> 1
    };
    let zero = gb.cpu.get_flag(Flag::Z);
    gb.cpu.set_8(Register8::A, rotated);
    gb.cpu.set_flags(zero, false, false, first == 0b1);
}

/// The accumulator after decimal adjustment, and whether the adjustment
/// carried.
pub fn daa_adjust(a: u8, negative: bool, half: bool, carry: bool) -> (r: (u8, bool))
    ensures
        r == spec_daa(a, negative, half, carry),
{
    if negative {
        let mut v: u8 = a;
        if half {
            proof {
                lemma_wrap8(a - 6);
            }
            v = v.wrapping_sub(0x06);
        }
        if carry {
            proof {
                lemma_wrap8(v - 0x60);
            }
            v = v.wrapping_sub(0x60);
        }
        (v, carry)
    } else {
        let mut s: u16 = a as u16;
        if half || (s % 0x10) > 9 {
            s += 0x06
        }
        if carry || s > 0x9F {
            s += 0x60;
        }
        ((s % 0x100) as u8, carry || s >= 0x100)
    }
}

/// Adjusts the accumulator to two decimal digits after an addition or a
/// subtraction of such values.
pub fn daa(gb: &mut GameBoy)
    ensures
        final(gb)@ == old(gb)@.spec_with_cpu(old(gb)@.cpu.spec_daa()),
        old(gb).wf() ==> final(gb).wf(),
{
    let a = gb.cpu.get_8(Register8::A);
    let negative = gb.cpu.get_flag(Flag::N);
    let half = gb.cpu.get_flag(Flag::H);
    let carry = gb.cpu.get_flag(Flag::C);
    let (value, carried) = daa_adjust(a, negative, half, carry);
    gb.cpu.set_8(Register8::A, value);
    gb.cpu.set_flags(value == 0, negative, false, carried);
}

/// Complements the accumulator.
pub fn cpl(gb: &mut GameBoy)
    ensures
        final(gb)@ == old(gb)@.spec_with_cpu(old(gb)@.cpu.spec_cpl()),
        old(gb).wf() ==> final(gb).wf(),
{
    let a = gb.cpu.get_8(Register8::A);
    proof {
        lemma_shifts(a);
    }
    let zero = gb.cpu.get_flag(Flag::Z);
    let carry = gb.cpu.get_flag(Flag::C);
    gb.cpu.set_8(Register8::A, !a);
    gb.cpu.set_flags(zero, true, true, carry);
}

/// Sets the carry flag.
pub fn scf(gb: &mut GameBoy)
    ensures
        final(gb)@ == old(gb)@.spec_with_cpu(old(gb)@.cpu.spec_scf()),
        old(gb).wf() ==> final(gb).wf(),
{
    let zero = gb.cpu.get_flag(Flag::Z);
    gb.cpu.set_flags(zero, false, false, true);
}

/// Complements the carry flag.
pub fn ccf(gb: &mut GameBoy)
    ensures
        final(gb)@ == old(gb)@.spec_with_cpu(old(gb)@.cpu.spec_ccf()),
        old(gb).wf() ==> final(gb).wf(),
{
    let carry = gb.cpu.get_flag(Flag::C);
    gb.cpu.set_flags(false, false, false, !carry);
}

/// Adds `operand` to the accumulator.
pub fn alu_add_a(gb: &mut GameBoy, operand: u8)
    ensures
        final(gb)@ == old(gb)@.spec_exec_alu(0, operand),
        old(gb).wf() ==> final(gb).wf(),
{
    let a = gb.cpu.get_8(Register8::A);
    proof {
        lemma_shifts(a);
        lemma_shifts(operand);
    }
    let res: u16 = a as u16 + operand as u16;
    let final_res: u8 = (res % 0x100) as u8;
    gb.cpu.set_flags(final_res == 0, false, ((a & 0xF) + (operand & 0xF)) > 0xF, res > 0xFF);
    gb.cpu.set_8(Register8::A, final_res)
}

/// Adds `operand` and the carry flag to the accumulator.
pub fn alu_adc_a(gb: &mut GameBoy, operand: u8)
    ensures
        final(gb)@ == old(gb)@.spec_exec_alu(1, operand),
        old(gb).wf() ==> final(gb).wf(),
{
    let a = gb.cpu.get_8(Register8::A);
    proof {
        lemma_shifts(a);
        lemma_shifts(operand);
    }
    let mut carry: u16 = 0;
    if gb.cpu.get_flag(Flag::C) {
        carry = 1;
    }
    let res: u16 = a as u16 + operand as u16 + carry;
    let final_res: u8 = (res % 0x100) as u8;
    let half = ((a & 0xF) as u16 + (operand & 0xF) as u16 + carry) > 0xF;
    gb.cpu.set_flags(final_res == 0, false, half, res > 0xFF);
    gb.cpu.set_8(Register8::A, final_res)
}

/// Subtracts `operand` from the accumulator.
pub fn alu_sub(gb: &mut GameBoy, operand: u8)
    ensures
        final(gb)@ == old(gb)@.spec_exec_alu(2, operand),
        old(gb).wf() ==> final(gb).wf(),
{
    let a = gb.cpu.get_8(Register8::A);
    proof {
        lemma_shifts(a);
        lemma_shifts(operand);
        lemma_wrap8(a - operand);
    }
    let res: u8 = a.wrapping_sub(operand);
    gb.cpu.set_flags(res == 0, true, (a & 0xF) < (operand & 0xF), a < operand);
    gb.cpu.set_8(Register8::A, res);
}

/// Subtracts `operand` and the carry flag from the accumulator.
pub fn alu_sbc(gb: &mut GameBoy, operand: u8)
    ensures
        final(gb)@ == old(gb)@.spec_exec_alu(3, operand),
        old(gb).wf() ==> final(gb).wf(),
{
    let a = gb.cpu.get_8(Register8::A);
    let mut carry: u16 = 0;
    if gb.cpu.get_flag(Flag::C) {
        carry = 1;
    }
    proof {
        lemma_shifts(a);
        lemma_shifts(operand);
        lemma_wrap8(a - operand - carry);
    }
    let res: u8 = a.wrapping_sub(operand).wrapping_sub(carry as u8);
    let half = ((a & 0xF) as u16) < (operand & 0xF) as u16 + carry;
    let borrow = (a as u16) < operand as u16 + carry;
    assert(res == spec_wrap8(a - operand - carry));
    gb.cpu.set_flags(res == 0, true, half, borrow);
    gb.cpu.set_8(Register8::A, res);
}

/// Ands `operand` into the accumulator.
pub fn alu_and(gb: &mut GameBoy, operand: u8)
    ensures
        final(gb)@ == old(gb)@.spec_exec_alu(4, operand),
        old(gb).wf() ==> final(gb).wf(),
{
    let res: u8 = gb.cpu.get_8(Register8::A) & operand;
    gb.cpu.set_flags(res == 0, false, true, false);
    gb.cpu.set_8(Register8::A, res);
}

/// Exclusive-ors `operand` into the accumulator.
pub fn alu_xor(gb: &mut GameBoy, operand: u8)
    ensures
        final(gb)@ == old(gb)@.spec_exec_alu(5, operand),
        old(gb).wf() ==> final(gb).wf(),
{
    let res: u8 = gb.cpu.get_8(Register8::A) ^ operand;
    gb.cpu.set_flags(res == 0, false, false, false);
    gb.cpu.set_8(Register8::A, res);
}

/// Ors `operand` into the accumulator.
pub fn alu_or(gb: &mut GameBoy, operand: u8)
    ensures
        final(gb)@ == old(gb)@.spec_exec_alu(6, operand),
        old(gb).wf() ==> final(gb).wf(),
{
    let res: u8 = gb.cpu.get_8(Register8::A) | operand;
    gb.cpu.set_flags(res == 0, false, false, false);
    gb.cpu.set_8(Register8::A, res);
}

/// Compares the accumulator with `operand`: the flags of a subtraction,
/// the accumulator kept.
pub fn alu_cp(gb: &mut GameBoy, operand: u8)
    ensures
        final(gb)@ == old(gb)@.spec_exec_alu(7, operand),
        old(gb).wf() ==> final(gb).wf(),
{
    let a = gb.cpu.get_8(Register8::A);
    proof {
        lemma_shifts(a);
        lemma_shifts(operand);
        lemma_wrap8(a - operand);
    }
    let res: u8 = a.wrapping_sub(operand);
    gb.cpu.set_flags(res == 0, true, (a & 0x0F) < (operand & 0x0F), a < operand);
}

/// Returns from a subroutine: pops the program counter.
pub fn op_ret(gb: &mut GameBoy)
    requires
        old(gb).wf(),
    ensures
        final(gb)@ == old(gb)@.spec_ret(),
        final(gb).wf(),
{
    gb.read_from_stack();
}

/// Whether `out` and the machine after it are what `expected` describes,
/// the machine being unchanged where nothing is expected.
pub open spec fn spec_matches(
    expected: Option<Effect>,
    before: Machine,
    out: Option<Outcome>,
    after: Machine,
) -> bool {
    match expected {
        Some(effect) => out == Some(effect.outcome) && after == effect.machine,
        None => out is None && after == before,
    }
}

/// The target of a relative jump.
pub fn jr_target(pc: u16, length: u8, d: u8) -> (target: u16)
    ensures
        target == spec_jr_target(pc, length, d),
{
    let after = pc.wrapping_add(length as u16);
    proof {
        lemma_wrap16(pc + length);
        lemma_wrap16(pc + length + spec_signed(d));
        lemma_wrap16(after + spec_signed(d));
    }
    if d < 128 {
        after.wrapping_add(d as u16)
    } else {
        after.wrapping_sub(256 - d as u16)
    }
}

/// Cycles of an instruction that takes `register` cycles on a register
/// operand and `memory` cycles on the byte at `HL`.
pub fn operand_ticks(index: u8, register: u8, memory: u8) -> (ticks: u8)
    ensures
        ticks == spec_operand_ticks(index, register, memory),
{
    if index == 6 {
        memory
    } else {
        register
    }
}

/// Stores the accumulator at `HL` and moves `HL` up or down by one.
fn store_a_step(gb: &mut GameBoy, up: bool)
    requires
        old(gb).wf(),
    ensures
        final(gb)@ == old(gb)@.spec_store_a(old(gb)@.spec_hl()).spec_move_hl(
            if up {
                1int
            } else {
                -1int
            },
        ),
        final(gb).wf(),
{
    let hl = gb.cpu.get_16(Register16::HL);
    let a = gb.cpu.get_8(Register8::A);
    gb.write_byte(hl, a);
    let at = gb.cpu.get_16(Register16::HL);
    proof {
        lemma_wrap16(at + 1);
        lemma_wrap16(at - 1);
    }
    gb.cpu.set_16(
        Register16::HL,
        if up {
            at.wrapping_add(1)
        } else {
            at.wrapping_sub(1)
        },
    );
}

/// Loads the accumulator from `HL` and moves `HL` up or down by one.
fn load_a_step(gb: &mut GameBoy, up: bool)
    requires
        old(gb).wf(),
    ensures
        final(gb)@ == old(gb)@.spec_load_a(old(gb)@.spec_hl()).spec_move_hl(
            if up {
                1int
            } else {
                -1int
            },
        ),
        final(gb).wf(),
{
    let hl = gb.cpu.get_16(Register16::HL);
    let value = gb.read_byte(hl);
    gb.cpu.set_8(Register8::A, value);
    proof {
        lemma_wrap16(hl + 1);
        lemma_wrap16(hl - 1);
    }
    gb.cpu.set_16(
        Register16::HL,
        if up {
            hl.wrapping_add(1)
        } else {
            hl.wrapping_sub(1)
        },
    );
}

/// Loads the accumulator from `addr` through the bus.
fn load_a(gb: &mut GameBoy, addr: u16)
    requires
        old(gb).wf(),
    ensures
        final(gb)@ == old(gb)@.spec_load_a(addr),
        final(gb).wf(),
{
    let value = gb.read_byte(addr);
    gb.cpu.set_8(Register8::A, value);
}

/// Executes an instruction whose field `x` is 0.
pub fn execute_x0(gb: &mut GameBoy, op: &Opcode) -> (out: Option<Outcome>)
    requires
        old(gb).wf(),
        op.wf(),
        op.x == 0,
    ensures
        spec_matches(old(gb)@.spec_x0(*op), old(gb)@, out, final(gb)@),
        final(gb).wf(),
{
    proof {
        reveal(Machine::spec_x0);
        lemma_fields_compose(op.opcode);
    }
    let mut add_op_length: bool = true;
    let mut ticks: u8 = 1;
    match op.flag_slice() {
        (0, 0, 0, _, _) => {
            // NOP
        },
        (0, 1, 0, _, _) => {
            // LD (nn), SP
            let sp = gb.cpu.get_16(Register16::SP);
            op_ld_mem16(gb, op.word(), sp);
            ticks = 5;
        },
        (0, 2, 0, _, _) => {
            // STOP
            return None;
        },
        (0, 3, 0, _, _) => {
            // JR d
            let pc_val = gb.cpu.get_16(Register16::PC);
            gb.cpu.set_16(Register16::PC, jr_target(pc_val, op.length, op.byte()));
            add_op_length = false;
            ticks = 3;
        },
        (0, _, 0, _, _) => {
            // JR cc[y-4], d
            if gb.get_table_cc(op.y - 4) {
                let pc_val = gb.cpu.get_16(Register16::PC);
                gb.cpu.set_16(Register16::PC, jr_target(pc_val, op.length, op.byte()));
                add_op_length = false;
                ticks = 3;
            } else {
                ticks = 2;
            }
        },
        (0, _, 1, _, 0) => {
            // LD rp[p], nn
            op_ld_reg16(gb, op.p, op.word());
            ticks = 3;
        },
        (0, _, 1, _, _) => {
            // ADD HL, rp[p]
            op_add16(gb, Register16::HL, op.p);
            ticks = 2;
        },
        (0, _, 2, 0, 0) => {
            // LD (BC), A
            let a = gb.cpu.get_8(Register8::A);
            op_ld_mem8(gb, gb.cpu.get_16(Register16::BC), a);
            ticks = 2;
        },
        (0, _, 2, 1, 0) => {
            // LD (DE), A
            let a = gb.cpu.get_8(Register8::A);
            op_ld_mem8(gb, gb.cpu.get_16(Register16::DE), a);
            ticks = 2;
        },
        (0, _, 2, 2, 0) => {
            // LD (HL+), A
            store_a_step(gb, true);
            ticks = 2;
        },
        (0, _, 2, _, 0) => {
            // LD (HL-), A
            store_a_step(gb, false);
            ticks = 2;
        },
        (0, _, 2, 0, _) => {
            // LD A, (BC)
            load_a(gb, gb.cpu.get_16(Register16::BC));
            ticks = 2;
        },
        (0, _, 2, 1, _) => {
            // LD A, (DE)
            load_a(gb, gb.cpu.get_16(Register16::DE));
            ticks = 2;
        },
        (0, _, 2, 2, _) => {
            // LD A, (HL+)
            load_a_step(gb, true);
            ticks = 2;
        },
        (0, _, 2, _, _) => {
            // LD A, (HL-)
            load_a_step(gb, false);
            ticks = 2;
        },
        (0, _, 3, _, 0) => {
            // INC rp[p]
            let value = gb.get_table_rp(op.p);
            proof {
                lemma_wrap16(value + 1);
            }
            gb.set_table_rp(op.p, value.wrapping_add(1));
            ticks = 2;
        },
        (0, _, 3, _, _) => {
            // DEC rp[p]
            op_dec16(gb, op.p);
            ticks = 2;
        },
        (0, _, 4, _, _) => {
            // INC r[y]
            op_inc8(gb, op.y);
            ticks = operand_ticks(op.y, 1, 3);
        },
        (0, _, 5, _, _) => {
            // DEC r[y]
            op_dec8(gb, op.y);
            ticks = operand_ticks(op.y, 1, 3);
        },
        (0, _, 6, _, _) => {
            // LD r[y], n
            op_ld_8(gb, op.y, op.byte());
            ticks = operand_ticks(op.y, 2, 3);
        },
        (0, 0, _, _, _) => rlca(gb),
        (0, 1, _, _, _) => rrca(gb),
        (0, 2, _, _, _) => rla(gb),
        (0, 3, _, _, _) => rra(gb),
        (0, 4, _, _, _) => daa(gb),
        (0, 5, _, _, _) => cpl(gb),
        (0, 6, _, _, _) => scf(gb),
        _ => ccf(gb),
    }
    Some(Outcome { add_op_length, ticks })
}

/// Executes an instruction whose field `x` is 1.
pub fn execute_x1(gb: &mut GameBoy, op: &Opcode) -> (out: Option<Outcome>)
    requires
        old(gb).wf(),
        op.wf(),
        op.x == 1,
    ensures
        spec_matches(old(gb)@.spec_x1(*op), old(gb)@, out, final(gb)@),
        final(gb).wf(),
{
    proof {
        reveal(Machine::spec_x1);
        lemma_fields_compose(op.opcode);
    }
    match op.flag_slice() {
        (1, 6, 6, _, _) => {
            // HALT
            gb.halted = true;
            Some(Outcome { add_op_length: true, ticks: 1 })
        },
        _ => {
            // LD r[y], r[z]
            let operand = gb.get_table_r(op.z);
            op_ld_8(gb, op.y, operand);
            let ticks: u8 = if op.y == 6 || op.z == 6 {
                2
            } else {
                1
            };
            Some(Outcome { add_op_length: true, ticks })
        },
    }
}

/// Executes an instruction whose field `x` is 2.
pub fn execute_x2(gb: &mut GameBoy, op: &Opcode) -> (out: Option<Outcome>)
    requires
        old(gb).wf(),
        op.wf(),
        op.x == 2,
    ensures
        spec_matches(old(gb)@.spec_x2(*op), old(gb)@, out, final(gb)@),
        final(gb).wf(),
{
    proof {
        reveal(Machine::spec_x2);
    }
    // alu[y] r[z]
    call_alu_table_r(gb, op.z, op.y);
    Some(Outcome { add_op_length: true, ticks: operand_ticks(op.z, 1, 2) })
}

/// Executes the instruction that the byte `cb` selects behind the prefix.
pub fn execute_cb(gb: &mut GameBoy, cb: u8) -> (out: Option<Outcome>)
    requires
        old(gb).wf(),
    ensures
        spec_matches(old(gb)@.spec_cb(cb), old(gb)@, out, final(gb)@),
        final(gb).wf(),
{
    proof {
        reveal(Machine::spec_cb);
        lemma_fields_compose(cb);
    }
    let x = get_x(cb);
    let y = get_y(cb);
    let z = get_z(cb);
    let mut ticks = operand_ticks(z, 2, 4);
    match x {
        0 => {
            let value = gb.get_table_r(z);
            let res = gb.exec_table_rot(y, value);
            gb.set_table_r(z, res);
        },
        1 => {
            op_bit(gb, y, z);
            ticks = operand_ticks(z, 2, 3);
        },
        2 => op_res(gb, y, z),
        _ => op_set(gb, y, z),
    }
    Some(Outcome { add_op_length: true, ticks })
}

/// Calls the routine at `target` from an instruction of `length` bytes.
fn call(gb: &mut GameBoy, length: u8, target: u16)
    requires
        old(gb).wf(),
    ensures
        final(gb)@ == old(gb)@.spec_call(length, target),
        final(gb).wf(),
{
    let pc = gb.cpu.get_16(Register16::PC);
    proof {
        lemma_wrap16(pc + length);
    }
    gb.write_to_stack(pc.wrapping_add(length as u16));
    gb.cpu.set_16(Register16::PC, target);
}

/// Pops pair `index` of the second pair table.
fn pop(gb: &mut GameBoy, index: u8)
    requires
        index < 4,
        old(gb).wf(),
    ensures
        final(gb)@ == old(gb)@.spec_pop(index),
        final(gb).wf(),
{
    let sp = gb.cpu.get_16(Register16::SP);
    let mut poped = gb.read_word(sp);
    if index == 3 {
        poped = poped - poped % 16;
    }
    gb.cpu.set_16(Register16::SP, sp.wrapping_add(2));
    gb.set_table_rp2(index, poped);
}

/// Executes an instruction whose field `x` is 3.
pub fn execute_x3(gb: &mut GameBoy, op: &Opcode) -> (out: Option<Outcome>)
    requires
        old(gb).wf(),
        op.wf(),
        op.x == 3,
    ensures
        spec_matches(old(gb)@.spec_x3(*op), old(gb)@, out, final(gb)@),
        final(gb).wf(),
{
    proof {
        reveal(Machine::spec_x3);
        lemma_fields_compose(op.opcode);
    }
    let mut add_op_length: bool = true;
    let mut ticks: u8 = 1;
    match op.flag_slice() {
        (3, 0..=3, 0, _, _) => {
            // RET cc[y]
            if gb.get_table_cc(op.y) {
                op_ret(gb);
                add_op_length = false;
                ticks = 5;
            } else {
                ticks = 2;
            }
        },
        (3, 4, 0, _, _) => {
            // LDH (n), A
            let a = gb.cpu.get_8(Register8::A);
            gb.write_byte(0xFF00 + op.byte() as u16, a);
            ticks = 3;
        },
        (3, 6, 0, _, _) => {
            // LDH A, (n)
            load_a(gb, 0xFF00 + op.byte() as u16);
            ticks = 3;
        },
        (3, _, 0, _, _) => {
            return None;
        },
        (3, _, 1, _, 0) => {
            // POP rp2[p]
            pop(gb, op.p);
            ticks = 3;
        },
        (3, _, 1, 0, _) => {
            // RET
            op_ret(gb);
            add_op_length = false;
            ticks = 4;
        },
        (3, _, 1, 1, _) => {
            // RETI
            gb.reti();
            add_op_length = false;
            ticks = 4;
        },
        (3, _, 1, 2, _) => {
            // JP HL
            gb.cpu.set_16(Register16::PC, gb.cpu.get_16(Register16::HL));
            add_op_length = false;
        },
        (3, _, 1, _, _) => {
            // LD SP, HL
            gb.cpu.set_16(Register16::SP, gb.cpu.get_16(Register16::HL));
            ticks = 2;
        },
        (3, 0..=3, 2, _, _) => {
            // JP cc[y], nn
            if gb.get_table_cc(op.y) {
                gb.cpu.set_16(Register16::PC, op.word());
                add_op_length = false;
                ticks = 4;
            } else {
                ticks = 3;
            }
        },
        (3, 4, 2, _, _) => {
            // LD (FF00h+C), A
            let a = gb.cpu.get_8(Register8::A);
            gb.write_byte(0xFF00 + gb.cpu.get_8(Register8::C) as u16, a);
            ticks = 2;
        },
        (3, 5, 2, _, _) => {
            // LD (nn), A
            let a = gb.cpu.get_8(Register8::A);
            gb.write_byte(op.word(), a);
            ticks = 4;
        },
        (3, 6, 2, _, _) => {
            // LD A, (FF00h+C)
            load_a(gb, 0xFF00 + gb.cpu.get_8(Register8::C) as u16);
            ticks = 2;
        },
        (3, _, 2, _, _) => {
            // LD A, (nn)
            load_a(gb, op.word());
            ticks = 4;
        },
        (3, 0, 3, _, _) => {
            // JP nn
            gb.cpu.set_16(Register16::PC, op.word());
            add_op_length = false;
            ticks = 4;
        },
        (3, 1, 3, _, _) => {
            // CB
            return execute_cb(gb, op.byte());
        },
        (3, 6, 3, _, _) => {
            // DI
            gb.cpu.set_iter_master(false);
        },
        (3, 7, 3, _, _) => {
            // EI
            gb.cpu.set_iter_master(true);
        },
        (3, _, 3, _, _) => {
            return None;
        },
        (3, 0..=3, 4, _, _) => {
            // CALL cc[y], nn
            if gb.get_table_cc(op.y) {
                call(gb, op.length, op.word());
                add_op_length = false;
                ticks = 6;
            } else {
                ticks = 3;
            }
        },
        (3, _, 4, _, _) => {
            return None;
        },
        (3, _, 5, _, 0) => {
            // PUSH rp2[p]
            let value = gb.get_table_rp2(op.p);
            gb.write_to_stack(value);
            ticks = 4;
        },
        (3, _, 5, 0, _) => {
            // CALL nn
            call(gb, op.length, op.word());
            add_op_length = false;
            ticks = 6;
        },
        (3, _, 5, _, _) => {
            return None;
        },
        (3, _, 6, _, _) => {
            // alu[y] n
            exec_alu(gb, op.y, op.byte());
            ticks = 2;
        },
        _ => {
            // RST y*8
            call(gb, op.length, op.y as u16 * 8);
            add_op_length = false;
            ticks = 4;
        },
    }
    Some(Outcome { add_op_length, ticks })
}

/// Fetches the instruction at the program counter, executes it, moves the
/// program counter past it unless the instruction set it, and lets the
/// instruction's cycles elapse. An instruction byte that the processor
/// does not execute is reported and leaves the machine as it was.
pub fn decode(gb: &mut GameBoy) -> (res: Result<(), Error>)
    requires
        old(gb).wf(),
    ensures
        final(gb).wf(),
        match res {
            Ok(_) => old(gb)@.spec_decode() == Ok::<Machine, Error>(final(gb)@),
            Err(e) => old(gb)@.spec_decode() == Err::<Machine, Error>(e) && final(gb)@ == old(gb)@,
        },
{
    let pc = gb.cpu.get_16(Register16::PC);
    let mut op = Opcode::from(gb.read_byte(pc));
    op.fetch_param(gb);
    proof {
        lemma_fields_compose(op.opcode);
    }
    let out = match op.x {
        0 => execute_x0(gb, &op),
        1 => execute_x1(gb, &op),
        2 => execute_x2(gb, &op),
        _ => execute_x3(gb, &op),
    };
    match out {
        Some(outcome) => {
            if outcome.add_op_length {
                proof {
                    lemma_wrap16(gb.cpu.pc + op.length);
                }
                gb.cpu.inc_pc(op.length);
            }
            gb.cpu.inc_ticks(outcome.ticks);
            Ok(())
        },
        None => Err(Error::UnimplementedOpcode(op.opcode)),
    }
}

impl Machine {
    /// The machine after one step. A halted processor with no interrupt
    /// both enabled and pending lets one cycle pass; otherwise the processor
    /// is running, and the instruction at the program counter is executed.
    /// Either way an interrupt check follows. An instruction byte that the
    /// processor does not execute ends the step with an error.
    pub open spec fn spec_step(self) -> Result<Machine, Error> {
        if self.halted && self.cpu.spec_pending_source() is None {
            Ok(self.spec_with_cpu(self.cpu.spec_inc_ticks(1)).spec_interrupt_step())
        } else {
            match (Machine { halted: false, ..self }).spec_decode() {
                Ok(after) => Ok(after.spec_interrupt_step()),
                Err(e) => Err(e),
            }
        }
    }
}

/// Makes one step: executes the instruction at the program counter, or lets
/// a halted processor wait, then checks for an interrupt. When the step
/// fails, the machine is as it was, but for a halted processor that an
/// interrupt has woken.
pub fn step(gb: &mut GameBoy) -> (res: Result<(), Error>)
    requires
        old(gb).wf(),
    ensures
        final(gb).wf(),
        match res {
            Ok(_) => old(gb)@.spec_step() == Ok::<Machine, Error>(final(gb)@),
            Err(e) => old(gb)@.spec_step() == Err::<Machine, Error>(e) && final(gb)@ == (Machine {
                halted: false,
                ..old(gb)@
            }),
        },
{
    if gb.halted {
        if gb.cpu.pending_source().is_none() {
            gb.cpu.inc_ticks(1);
            gb.interrupt_step();
            return Ok(());
        }
        gb.halted = false;
    }
    match decode(gb) {
        Ok(_) => {
            gb.interrupt_step();
            Ok(())
        },
        Err(e) => Err(e),
    }
}

/// A write of the four flags keeps the low nibble of `F`, and a write
/// through the bus changes nothing of the processor but the display
/// registers and leaves the machine well formed.
pub proof fn lemma_flags_and_writes()
    ensures
        forall|cpu: Cpu, z: bool, n: bool, h: bool, c: bool|
            (#[trigger] cpu.spec_with_flags(z, n, h, c)).f % 16 == cpu.f % 16,
        forall|m: Machine, addr: u16, v: u8|
            m.wf() ==> (#[trigger] m.spec_write_byte(addr, v)).wf() && m.spec_write_byte(addr, v).cpu
                == (Cpu { ppu: m.spec_write_byte(addr, v).cpu.ppu, ..m.cpu }),
{
    assert forall|cpu: Cpu, z: bool, n: bool, h: bool, c: bool|
        (#[trigger] cpu.spec_with_flags(z, n, h, c)).f % 16 == cpu.f % 16 by {
        lemma_flags_compose(cpu, z, n, h, c);
    }
    assert forall|m: Machine, addr: u16, v: u8| m.wf() implies (#[trigger] m.spec_write_byte(
        addr,
        v,
    )).wf() && m.spec_write_byte(addr, v).cpu == (Cpu {
        ppu: m.spec_write_byte(addr, v).cpu.ppu,
        ..m.cpu
    }) by {
        lemma_write_keeps_wf(m, addr, v);
    }
}

/// Whether the fields of `op` are in range and `p` and `q` are the two
/// parts of `y`.
pub open spec fn spec_fields_in_range(op: Opcode) -> bool {
    op.x < 4 && op.y < 8 && op.z < 8 && op.p < 4 && op.q < 2 && op.y == op.p * 2 + op.q && 1
        <= op.length <= 3
}

/// Whether `after` is well formed and has a zero low nibble in `F` if
/// `before` has.
pub open spec fn spec_tidy(before: Machine, after: Machine) -> bool {
    after.wf() && (before.cpu.spec_flags_clean() ==> after.cpu.spec_flags_clean())
}

/// Writing an operand, pushing, calling, returning and popping leave the
/// machine well formed and set no bit in the low nibble of `F`.
pub proof fn lemma_moves_tidy(m: Machine, index: u8, v: u8, w: u16, length: u8)
    requires
        m.wf(),
    ensures
        index < 8 ==> spec_tidy(m, m.spec_set_table_r(index, v)),
        spec_tidy(m, m.spec_push(w)),
        spec_tidy(m, m.spec_call(length, w)),
        spec_tidy(m, m.spec_ret()),
        spec_tidy(m, m.spec_reti()),
        index < 4 ==> spec_tidy(m, m.spec_pop(index)),
        spec_tidy(m, m.spec_write_word(w, w)),
        spec_tidy(m, m.spec_store_a(w)),
        spec_tidy(m, m.spec_load_a(w)),
        spec_tidy(m, m.spec_store_a(w).spec_move_hl(1)),
        spec_tidy(m, m.spec_store_a(w).spec_move_hl(-1)),
        spec_tidy(m, m.spec_load_a(w).spec_move_hl(1)),
        spec_tidy(m, m.spec_load_a(w).spec_move_hl(-1)),
{
    lemma_flags_and_writes();
    let sp = ((m.cpu.sp + 0x1_0000 - 2) % 0x1_0000) as u16;
    let lowered = m.spec_with_cpu(Cpu { sp, ..m.cpu });
    let after_high = lowered.spec_write_byte(spec_next_addr(sp), spec_high(w));
    assert(after_high.wf());
    let back = spec_wrap16(m.cpu.pc + length);
    let after_back = lowered.spec_write_byte(spec_next_addr(sp), spec_high(back));
    assert(after_back.wf());
    let word_high = m.spec_write_byte(spec_next_addr(w), spec_high(w));
    assert(word_high.wf());
}

/// The operations on one operand leave the machine well formed and set no
/// bit in the low nibble of `F`.
pub proof fn lemma_operand_ops_tidy(m: Machine, y: u8, z: u8, operand: u8)
    requires
        m.wf(),
        y < 8,
        z < 8,
    ensures
        spec_tidy(m, m.spec_inc8(y)),
        spec_tidy(m, m.spec_dec8(y)),
        spec_tidy(m, m.spec_call_alu_table_r(z, y)),
        spec_tidy(m, m.spec_exec_alu(y, operand)),
        spec_tidy(m, m.spec_bit_test(y, z)),
        spec_tidy(m, m.spec_res(y, z)),
        spec_tidy(m, m.spec_set(y, z)),
        spec_tidy(m, m.spec_exec_table_rot(y, operand).spec_set_table_r(z, operand)),
        spec_tidy(m, m.spec_set_table_r(y, m.spec_get_table_r(z))),
{
    lemma_flags_and_writes();
}

/// The operations on the accumulator, the flags and `HL` keep the low
/// nibble of `F` and change nothing of the processor but the accumulator,
/// `H`, `L` and `F`.
pub proof fn lemma_accumulator_ops_tidy(cpu: Cpu, index: u8, v: u16)
    ensures
        cpu.spec_rotate_a(index).f % 16 == cpu.f % 16,
        cpu.spec_daa().f % 16 == cpu.f % 16,
        cpu.spec_cpl().f % 16 == cpu.f % 16,
        cpu.spec_scf().f % 16 == cpu.f % 16,
        cpu.spec_ccf().f % 16 == cpu.f % 16,
        cpu.spec_add_hl(v).f % 16 == cpu.f % 16,
        cpu.spec_rotate_a(index).ppu == cpu.ppu && cpu.spec_rotate_a(index).iter_flags == cpu.iter_flags
            && cpu.spec_rotate_a(index).iter_enable == cpu.iter_enable,
        cpu.spec_daa().ppu == cpu.ppu && cpu.spec_daa().iter_flags == cpu.iter_flags
            && cpu.spec_daa().iter_enable == cpu.iter_enable,
        cpu.spec_cpl().ppu == cpu.ppu && cpu.spec_cpl().iter_flags == cpu.iter_flags
            && cpu.spec_cpl().iter_enable == cpu.iter_enable,
        cpu.spec_scf().ppu == cpu.ppu && cpu.spec_scf().iter_flags == cpu.iter_flags
            && cpu.spec_scf().iter_enable == cpu.iter_enable,
        cpu.spec_ccf().ppu == cpu.ppu && cpu.spec_ccf().iter_flags == cpu.iter_flags
            && cpu.spec_ccf().iter_enable == cpu.iter_enable,
        cpu.spec_add_hl(v).ppu == cpu.ppu && cpu.spec_add_hl(v).iter_flags == cpu.iter_flags
            && cpu.spec_add_hl(v).iter_enable == cpu.iter_enable,
{
    lemma_flags_and_writes();
}

/// No instruction whose field `x` is 0 sets a bit in the low nibble of
/// `F`, and each leaves the machine well formed.
pub proof fn lemma_x0_tidy(m: Machine, op: Opcode)
    requires
        m.wf(),
        spec_fields_in_range(op),
        m.spec_x0(op) is Some,
    ensures
        spec_tidy(m, m.spec_x0(op)->0.machine),
{
    reveal(Machine::spec_x0);
    let nn = op.spec_word();
    if op.z == 0 {
        lemma_moves_tidy(m, op.y, op.spec_byte(), nn, op.length);
        if op.y == 1 {
            let first = m.spec_write_byte(spec_next_addr(nn), spec_high(m.cpu.sp));
            lemma_write_keeps_wf(m, spec_next_addr(nn), spec_high(m.cpu.sp));
            lemma_write_keeps_wf(first, nn, spec_low(m.cpu.sp));
        }
    } else if op.z == 1 {
        lemma_accumulator_ops_tidy(m.cpu, 0, m.cpu.spec_get_16(Machine::spec_rp(op.p)));
    } else if op.z == 2 {
        if op.p == 0 {
            lemma_moves_tidy(m, op.y, 0, m.cpu.spec_get_16(Register16::BC), op.length);
        } else if op.p == 1 {
            lemma_moves_tidy(m, op.y, 0, m.cpu.spec_get_16(Register16::DE), op.length);
        } else {
            lemma_moves_tidy(m, op.y, 0, m.spec_hl(), op.length);
        }
    } else if op.z == 3 {
    } else if op.z == 4 || op.z == 5 {
        lemma_operand_ops_tidy(m, op.y, op.z, 0);
    } else if op.z == 6 {
        lemma_moves_tidy(m, op.y, op.spec_byte(), nn, op.length);
    } else {
        lemma_accumulator_ops_tidy(m.cpu, op.y, 0);
    }
}

/// No instruction whose field `x` is 1 or 2 sets a bit in the low nibble
/// of `F`, and each leaves the machine well formed.
pub proof fn lemma_x1_x2_tidy(m: Machine, op: Opcode)
    requires
        m.wf(),
        spec_fields_in_range(op),
    ensures
        m.spec_x1(op) is Some && spec_tidy(m, m.spec_x1(op)->0.machine),
        m.spec_x2(op) is Some && spec_tidy(m, m.spec_x2(op)->0.machine),
{
    reveal(Machine::spec_x1);
    reveal(Machine::spec_x2);
    lemma_operand_ops_tidy(m, op.y, op.z, 0);
}

/// No prefixed instruction sets a bit in the low nibble of `F`, and each
/// leaves the machine well formed.
pub proof fn lemma_cb_tidy(m: Machine, cb: u8)
    requires
        m.wf(),
    ensures
        m.spec_cb(cb) is Some && spec_tidy(m, m.spec_cb(cb)->0.machine),
{
    reveal(Machine::spec_cb);
    lemma_fields_compose(cb);
    let y = spec_y(cb);
    let z = spec_z(cb);
    let value = m.spec_get_table_r(z);
    lemma_operand_ops_tidy(m, y, z, Machine::spec_rot_value(y, value, m.cpu.spec_flag(Flag::C)));
    lemma_flags_and_writes();
    let rotated = m.spec_exec_table_rot(y, value);
    assert(rotated.wf());
    lemma_moves_tidy(
        rotated,
        z,
        Machine::spec_rot_value(y, value, m.cpu.spec_flag(Flag::C)),
        0,
        0,
    );
}

/// No instruction whose field `x` is 3 sets a bit in the low nibble of
/// `F`, and each leaves the machine well formed.
pub proof fn lemma_x3_tidy(m: Machine, op: Opcode)
    requires
        m.wf(),
        spec_fields_in_range(op),
        m.spec_x3(op) is Some,
    ensures
        spec_tidy(m, m.spec_x3(op)->0.machine),
{
    reveal(Machine::spec_x3);
    let nn = op.spec_word();
    let n = op.spec_byte();
    if op.z == 0 {
        lemma_moves_tidy(m, op.p, n, Machine::spec_high_page(n), op.length);
    } else if op.z == 1 {
        lemma_moves_tidy(m, op.p, n, nn, op.length);
    } else if op.z == 2 {
        if op.y == 4 || op.y == 6 {
            lemma_moves_tidy(m, op.p, n, Machine::spec_high_page(m.cpu.c), op.length);
        } else {
            lemma_moves_tidy(m, op.p, n, nn, op.length);
        }
    } else if op.z == 3 {
        if op.y == 1 {
            lemma_cb_tidy(m, n);
        }
    } else if op.z == 4 {
        lemma_moves_tidy(m, op.p, n, nn, op.length);
    } else if op.z == 5 {
        if op.q == 0 {
            lemma_moves_tidy(m, op.p, n, m.cpu.spec_get_16(Machine::spec_rp2(op.p)), op.length);
        } else {
            lemma_moves_tidy(m, op.p, n, nn, op.length);
        }
    } else if op.z == 6 {
        lemma_operand_ops_tidy(m, op.y, op.z, n);
    } else {
        lemma_moves_tidy(m, op.p, n, (op.y * 8) as u16, op.length);
    }
}

/// No instruction sets a bit in the low nibble of `F`: if the nibble is
/// zero before an instruction, it is zero after it. Every instruction
/// leaves the machine well formed.
pub proof fn lemma_execute_keeps_flags_clean(m: Machine, op: Opcode)
    requires
        m.wf(),
        spec_fields_in_range(op),
        m.spec_execute(op) is Some,
    ensures
        m.spec_execute(op)->0.machine.wf(),
        m.cpu.spec_flags_clean() ==> m.spec_execute(op)->0.machine.cpu.spec_flags_clean(),
{
    if op.x == 0 {
        lemma_x0_tidy(m, op);
    } else if op.x == 1 || op.x == 2 {
        lemma_x1_x2_tidy(m, op);
    } else {
        lemma_x3_tidy(m, op);
    }
}

/// Letting cycles pass changes the cycle counter, the display and the
/// pending mask, and nothing else of the processor, and leaves it well
/// formed.
pub proof fn lemma_ticks_keep_registers(cpu: Cpu, inc: u8)
    requires
        cpu.wf(),
    ensures
        cpu.spec_inc_ticks(inc).wf(),
        cpu.spec_inc_ticks(inc) == (Cpu {
            ticks: cpu.spec_inc_ticks(inc).ticks,
            ppu: cpu.spec_inc_ticks(inc).ppu,
            iter_flags: cpu.spec_inc_ticks(inc).iter_flags,
            ..cpu
        }),
{
    let fed = Cpu {
        ticks: ((cpu.ticks + inc) % 0x1_0000_0000_0000_0000) as u64,
        ppu: crate::ppu::Ppu { tick: (cpu.ppu.tick + 4 * inc) as u64, ..cpu.ppu },
        ..cpu
    };
    lemma_settle_frame(fed);
}

/// An interrupt check keeps `F` and leaves the machine well formed.
pub proof fn lemma_interrupt_keeps_flags(m: Machine)
    requires
        m.wf(),
    ensures
        m.spec_interrupt_step().wf(),
        m.spec_interrupt_step().cpu.f == m.cpu.f,
{
    crate::gameboy::lemma_interrupt_service(m);
    if m.cpu.iter_master && m.cpu.spec_pending_source() is Some {
        let source = m.cpu.spec_pending_source()->0;
        let accepted = Machine { cpu: m.cpu.spec_interrupt_step(), halted: false, ..m };
        let sp = ((m.cpu.sp + 0x1_0000 - 2) % 0x1_0000) as u16;
        let lowered = accepted.spec_with_cpu(Cpu { sp, ..accepted.cpu });
        let next = spec_next_addr(sp);
        let first = lowered.spec_write_byte(next, spec_high(m.cpu.pc));
        crate::utils::lemma_with_bit_bounds(m.cpu.iter_flags, false);
        let w = source.spec_weight();
        assert(w == 1 || w == 2 || w == 4 || w == 8 || w == 16);
        assert(lowered.wf());
        lemma_write_keeps_wf(lowered, next, spec_high(m.cpu.pc));
        lemma_write_keeps_wf(first, sp, spec_low(m.cpu.pc));
        let pushed = accepted.spec_push(m.cpu.pc);
        lemma_ticks_keep_registers(Cpu { pc: source.spec_vector(), ..pushed.cpu }, crate::gameboy::INTERRUPT_CYCLES);
    }
}

/// If the low nibble of `F` is zero before an instruction is fetched and
/// executed, it is zero after it, and the machine is well formed.
pub proof fn lemma_decode_keeps_flags_clean(m: Machine)
    requires
        m.wf(),
        m.spec_decode() is Ok,
    ensures
        m.spec_decode()->Ok_0.wf(),
        m.cpu.spec_flags_clean() ==> m.spec_decode()->Ok_0.cpu.spec_flags_clean(),
{
    let op = Opcode::spec_fetch(m);
    lemma_fields_compose(op.opcode);
    crate::cpu::opcode::lemma_length_range(op.opcode);
    lemma_execute_keeps_flags_clean(m, op);
    let effect = m.spec_execute(op)->0;
    let pc = if effect.outcome.add_op_length {
        spec_wrap16(effect.machine.cpu.pc + op.length)
    } else {
        effect.machine.cpu.pc
    };
    lemma_ticks_keep_registers(Cpu { pc, ..effect.machine.cpu }, effect.outcome.ticks);
}

/// If the low nibble of `F` is zero before a step, it is zero after it.
pub proof fn lemma_step_keeps_flags_clean(m: Machine)
    requires
        m.wf(),
        m.cpu.spec_flags_clean(),
        m.spec_step() is Ok,
    ensures
        m.spec_step()->Ok_0.cpu.spec_flags_clean(),
        m.spec_step()->Ok_0.wf(),
{
    if m.halted && m.cpu.spec_pending_source() is None {
        lemma_ticks_keep_registers(m.cpu, 1);
        lemma_interrupt_keeps_flags(m.spec_with_cpu(m.cpu.spec_inc_ticks(1)));
    } else {
        let woken = Machine { halted: false, ..m };
        lemma_decode_keeps_flags_clean(woken);
        lemma_interrupt_keeps_flags(woken.spec_decode()->Ok_0);
    }
}

/// A call leaves the program counter at its target. A return after a call
/// brings the program counter to the instruction that follows the call and
/// the stack pointer, which the call lowered by two, back to where it was,
/// where the two bytes that the call writes keep what is written to them.
pub proof fn lemma_call_then_ret(m: Machine, length: u8, target: u16)
    requires
        m.wf(),
        spec_keeps_writes(m.spec_call(length, target).cpu.sp),
        spec_keeps_writes(spec_next_addr(m.spec_call(length, target).cpu.sp)),
    ensures
        m.spec_call(length, target).cpu.pc == target,
        m.spec_call(length, target).cpu.sp == spec_wrap16(m.cpu.sp - 2),
        m.spec_call(length, target).spec_top() == spec_wrap16(m.cpu.pc + length),
        m.spec_call(length, target).spec_ret().cpu.pc == spec_wrap16(m.cpu.pc + length),
        m.spec_call(length, target).spec_ret().cpu.sp == m.cpu.sp,
{
    let sp = ((m.cpu.sp + 0x1_0000 - 2) % 0x1_0000) as u16;
    let lowered = m.spec_with_cpu(Cpu { sp, ..m.cpu });
    let back = spec_wrap16(m.cpu.pc + length);
    lemma_wrap16(m.cpu.sp - 2);
    lemma_wrap16(sp + 2);
    lemma_bus_word_round_trip(lowered, sp, back);
    let next = spec_next_addr(sp);
    let first = lowered.spec_write_byte(next, spec_high(back));
    lemma_write_keeps_wf(lowered, next, spec_high(back));
    lemma_write_keeps_wf(first, sp, spec_low(back));
    let pushed = m.spec_push(back);
    let called = m.spec_call(length, target);
    assert(called.spec_read_word(sp) == pushed.spec_read_word(sp));
}

/// The machine once an instruction has ended has the registers that the
/// instruction left, but for the program counter, which has moved past the
/// instruction unless the instruction set it, and its cycle counter is
/// further by the instruction's cycles. Memory, cartridge and boot program
/// are as the instruction left them.
pub proof fn lemma_finish(m: Machine, length: u8, outcome: Outcome)
    requires
        m.wf(),
    ensures
        m.spec_finish(length, outcome).wf(),
        m.spec_finish(length, outcome).cpu == (Cpu {
            pc: if outcome.add_op_length {
                spec_wrap16(m.cpu.pc + length)
            } else {
                m.cpu.pc
            },
            ticks: ((m.cpu.ticks + outcome.ticks) % 0x1_0000_0000_0000_0000) as u64,
            ppu: m.spec_finish(length, outcome).cpu.ppu,
            iter_flags: m.spec_finish(length, outcome).cpu.iter_flags,
            ..m.cpu
        }),
        m.spec_finish(length, outcome) == (Machine { cpu: m.spec_finish(length, outcome).cpu, ..m }),
        m.spec_finish(length, outcome).cpu.ppu.control == m.cpu.ppu.control,
        m.spec_finish(length, outcome).cpu.ppu.scroll_x == m.cpu.ppu.scroll_x,
        m.spec_finish(length, outcome).cpu.ppu.scroll_y == m.cpu.ppu.scroll_y,
{
    let pc = if outcome.add_op_length {
        spec_wrap16(m.cpu.pc + length)
    } else {
        m.cpu.pc
    };
    let moved = Cpu { pc, ..m.cpu };
    lemma_settle_frame(
        Cpu {
            ticks: ((moved.ticks + outcome.ticks) % 0x1_0000_0000_0000_0000) as u64,
            ppu: crate::ppu::Ppu { tick: (moved.ppu.tick + 4 * outcome.ticks) as u64, ..moved.ppu },
            ..moved
        },
    );
}

/// The byte `0x18` is the relative jump: two bytes, three cycles, and the
/// program counter moves to the instruction that follows plus the signed
/// offset in the second byte.
pub proof fn lemma_jr(m: Machine)
    requires
        m.wf(),
        m.spec_read_byte(m.cpu.pc) == 0x18,
    ensures
        m.spec_decode() is Ok,
        m.spec_decode()->Ok_0.cpu.pc == spec_wrap16(
            m.cpu.pc + 2 + spec_signed(m.spec_read_byte(spec_next_addr(m.cpu.pc))),
        ),
        m.spec_decode()->Ok_0.cpu.ticks == (m.cpu.ticks + 3) % 0x1_0000_0000_0000_0000,
{
    let op = Opcode::spec_fetch(m);
    assert(spec_length(0x18) == 2);
    let d = m.spec_read_byte(spec_next_addr(m.cpu.pc));
    assert(op.x == 0 && op.y == 3 && op.z == 0 && op.length == 2);
    assert(op.spec_byte() == d);
    let jumped = m.spec_jump(spec_jr_target(m.cpu.pc, 2, d));
    assert(m.spec_x0(op) == spec_jumped(jumped, 3)) by {
        reveal(Machine::spec_x0);
    }
    lemma_finish(jumped, 2, Outcome { add_op_length: false, ticks: 3 });
}

/// The bytes `0x20`, `0x28`, `0x30` and `0x38` are the relative jumps on
/// the conditions `NZ`, `Z`, `NC` and `C`. Where the condition holds, the
/// jump is taken as the unconditional one is, in three cycles; where it does
/// not, the program counter moves past the two bytes, in two cycles.
pub proof fn lemma_jr_cc(m: Machine, index: u8)
    requires
        m.wf(),
        index < 4,
        m.spec_read_byte(m.cpu.pc) == 0x20 + 8 * index,
    ensures
        m.spec_decode() is Ok,
        m.cpu.spec_flag(Machine::spec_cc(index)) ==> m.spec_decode()->Ok_0.cpu.pc == spec_wrap16(
            m.cpu.pc + 2 + spec_signed(m.spec_read_byte(spec_next_addr(m.cpu.pc))),
        ) && m.spec_decode()->Ok_0.cpu.ticks == (m.cpu.ticks + 3) % 0x1_0000_0000_0000_0000,
        !m.cpu.spec_flag(Machine::spec_cc(index)) ==> m.spec_decode()->Ok_0.cpu.pc == spec_wrap16(
            m.cpu.pc + 2,
        ) && m.spec_decode()->Ok_0.cpu.ticks == (m.cpu.ticks + 2) % 0x1_0000_0000_0000_0000,
{
    let op = Opcode::spec_fetch(m);
    assert(spec_length(0x20) == 2 && spec_length(0x28) == 2 && spec_length(0x30) == 2 && spec_length(
        0x38,
    ) == 2);
    assert(op.x == 0 && op.z == 0 && op.y == 4 + index && op.length == 2);
    let d = m.spec_read_byte(spec_next_addr(m.cpu.pc));
    assert(op.spec_byte() == d);
    let jumped = m.spec_jump(spec_jr_target(m.cpu.pc, 2, d));
    assert(m.spec_x0(op) == (if m.cpu.spec_flag(Machine::spec_cc(index)) {
        spec_jumped(jumped, 3)
    } else {
        spec_ran(m, 2)
    })) by {
        reveal(Machine::spec_x0);
    }
    lemma_finish(jumped, 2, Outcome { add_op_length: false, ticks: 3 });
    lemma_finish(m, 2, Outcome { add_op_length: true, ticks: 2 });
}

/// The byte `0x80` adds `B` to the accumulator: the accumulator holds the
/// sum reduced to a byte, `C` tells whether the sum passed 255, `H` whether
/// the sum of the low nibbles passed 15, `Z` whether the result is zero, `N`
/// is clear, `B` is kept, and the program counter moves on by one.
pub proof fn lemma_add_a_b(m: Machine)
    requires
        m.wf(),
        m.spec_read_byte(m.cpu.pc) == 0x80,
    ensures
        m.spec_decode() is Ok,
        m.spec_decode()->Ok_0.cpu.a == (m.cpu.a + m.cpu.b) % 256,
        m.spec_decode()->Ok_0.cpu.b == m.cpu.b,
        m.spec_decode()->Ok_0.cpu.spec_flag(Flag::C) == (m.cpu.a + m.cpu.b > 255),
        m.spec_decode()->Ok_0.cpu.spec_flag(Flag::H) == (m.cpu.a % 16 + m.cpu.b % 16 > 15),
        m.spec_decode()->Ok_0.cpu.spec_flag(Flag::Z) == ((m.cpu.a + m.cpu.b) % 256 == 0),
        !m.spec_decode()->Ok_0.cpu.spec_flag(Flag::N),
        m.spec_decode()->Ok_0.cpu.pc == spec_wrap16(m.cpu.pc + 1),
{
    let op = Opcode::spec_fetch(m);
    assert(spec_length(0x80) == 1);
    assert(op.x == 2 && op.y == 0 && op.z == 0 && op.length == 1);
    let added = m.spec_with_cpu(m.cpu.spec_alu(0, m.cpu.b));
    assert(m.spec_x2(op) == spec_ran(added, 1)) by {
        reveal(Machine::spec_x2);
    }
    let out = spec_alu(0, m.cpu.a, m.cpu.b, m.cpu.spec_flag(Flag::C));
    lemma_flags_compose(Cpu { a: out.value, ..m.cpu }, out.z, out.n, out.h, out.c);
    lemma_finish(added, 1, Outcome { add_op_length: true, ticks: 1 });
}

/// The byte `0xCD` is the call: three bytes, six cycles. It leaves the
/// program counter at the word that follows the instruction byte and the
/// stack pointer two lower. Where the two bytes under the lowered stack
/// pointer keep what is written to them, they hold the address of the
/// instruction that follows the call.
pub proof fn lemma_call(m: Machine)
    requires
        m.wf(),
        m.spec_read_byte(m.cpu.pc) == 0xCD,
    ensures
        m.spec_decode() is Ok,
        m.spec_decode()->Ok_0.wf(),
        m.spec_decode()->Ok_0.cpu.pc == m.spec_read_word(spec_next_addr(m.cpu.pc)),
        m.spec_decode()->Ok_0.cpu.sp == spec_wrap16(m.cpu.sp - 2),
        spec_keeps_writes(spec_wrap16(m.cpu.sp - 2)) && spec_keeps_writes(
            spec_next_addr(spec_wrap16(m.cpu.sp - 2)),
        ) ==> m.spec_decode()->Ok_0.spec_top() == spec_wrap16(m.cpu.pc + 3),
{
    let op = Opcode::spec_fetch(m);
    assert(spec_length(0xCD) == 3);
    let target = m.spec_read_word(spec_next_addr(m.cpu.pc));
    assert(op.x == 3 && op.y == 1 && op.z == 5 && op.p == 0 && op.q == 1 && op.length == 3);
    assert(op.spec_word() == target);
    assert(m.spec_x3(op) == spec_jumped(m.spec_call(3, target), 6)) by {
        reveal(Machine::spec_x3);
    }
    let called = m.spec_call(3, target);
    lemma_moves_tidy(m, 0, 0, target, 3);
    lemma_wrap16(m.cpu.sp - 2);
    let sp = ((m.cpu.sp + 0x1_0000 - 2) % 0x1_0000) as u16;
    let lowered = m.spec_with_cpu(Cpu { sp, ..m.cpu });
    let back = spec_wrap16(m.cpu.pc + 3);
    let first = lowered.spec_write_byte(spec_next_addr(sp), spec_high(back));
    lemma_write_keeps_wf(lowered, spec_next_addr(sp), spec_high(back));
    lemma_write_keeps_wf(first, sp, spec_low(back));
    lemma_finish(called, 3, Outcome { add_op_length: false, ticks: 6 });
    let after = m.spec_decode()->Ok_0;
    if spec_keeps_writes(sp) && spec_keeps_writes(spec_next_addr(sp)) {
        lemma_call_then_ret(m, 3, target);
        assert(after.spec_read_word(sp) == called.spec_read_word(sp));
    }
}

/// The byte `0xC9` is the return: one byte, four cycles. It brings the
/// program counter to the word on top of the stack and the stack pointer up
/// by two.
pub proof fn lemma_ret(m: Machine)
    requires
        m.wf(),
        m.spec_read_byte(m.cpu.pc) == 0xC9,
    ensures
        m.spec_decode() is Ok,
        m.spec_decode()->Ok_0.cpu.pc == m.spec_top(),
        m.spec_decode()->Ok_0.cpu.sp == spec_wrap16(m.cpu.sp + 2),
{
    let op = Opcode::spec_fetch(m);
    assert(spec_length(0xC9) == 1);
    assert(op.x == 3 && op.y == 1 && op.z == 1 && op.p == 0 && op.q == 1 && op.length == 1);
    assert(m.spec_x3(op) == spec_jumped(m.spec_ret(), 4)) by {
        reveal(Machine::spec_x3);
    }
    lemma_moves_tidy(m, 0, 0, 0, 0);
    lemma_finish(m.spec_ret(), 1, Outcome { add_op_length: false, ticks: 4 });
}

/// A return that is executed right after a call brings the program counter
/// to the instruction that follows the call, three bytes on, and the stack
/// pointer back to where it was, where the two bytes that the call writes
/// keep what is written to them.
pub proof fn lemma_call_and_ret(m: Machine)
    requires
        m.wf(),
        m.spec_read_byte(m.cpu.pc) == 0xCD,
        spec_keeps_writes(spec_wrap16(m.cpu.sp - 2)),
        spec_keeps_writes(spec_next_addr(spec_wrap16(m.cpu.sp - 2))),
        m.spec_decode() is Ok,
        m.spec_decode()->Ok_0.spec_read_byte(m.spec_decode()->Ok_0.cpu.pc) == 0xC9,
    ensures
        m.spec_decode()->Ok_0.spec_decode() is Ok,
        m.spec_decode()->Ok_0.spec_decode()->Ok_0.cpu.pc == spec_wrap16(m.cpu.pc + 3),
        m.spec_decode()->Ok_0.spec_decode()->Ok_0.cpu.sp == m.cpu.sp,
{
    lemma_call(m);
    lemma_ret(m.spec_decode()->Ok_0);
    lemma_wrap16(m.cpu.sp - 2);
    lemma_wrap16(spec_wrap16(m.cpu.sp - 2) + 2);
}

} // verus!