use gameboy_emu::cpu::{Cpu, Flag, Register16, Register8};
use gameboy_emu::utils::get_opcode_from_small;

#[test]
fn set_get() {
    let mut cpu = Cpu::new();

    cpu.set_8(Register8::A, 50);
    cpu.set_8(Register8::F, 51);
    cpu.set_8(Register8::B, 52);
    cpu.set_8(Register8::C, 53);
    cpu.set_8(Register8::D, 54);
    cpu.set_8(Register8::E, 55);
    cpu.set_8(Register8::H, 56);
    cpu.set_8(Register8::L, 57);
    assert_eq!(cpu.get_8(Register8::A), 50);
    assert_eq!(cpu.get_8(Register8::F), 51);
    assert_eq!(cpu.get_8(Register8::B), 52);
    assert_eq!(cpu.get_8(Register8::C), 53);
    assert_eq!(cpu.get_8(Register8::D), 54);
    assert_eq!(cpu.get_8(Register8::E), 55);
    assert_eq!(cpu.get_8(Register8::H), 56);
    assert_eq!(cpu.get_8(Register8::L), 57);

    cpu.set_16(Register16::AF, 50_000);
    cpu.set_16(Register16::BC, 51_000);
    cpu.set_16(Register16::DE, 52_000);
    cpu.set_16(Register16::HL, 53_000);
    cpu.set_16(Register16::SP, 54_000);
    cpu.set_16(Register16::PC, 55_000);
    assert_eq!(cpu.get_16(Register16::AF), 50_000);
    assert_eq!(cpu.get_16(Register16::BC), 51_000);
    assert_eq!(cpu.get_16(Register16::DE), 52_000);
    assert_eq!(cpu.get_16(Register16::HL), 53_000);
    assert_eq!(cpu.get_16(Register16::SP), 54_000);
    assert_eq!(cpu.get_16(Register16::PC), 55_000);

    cpu.inc_16(Register16::AF);
    cpu.inc_16(Register16::BC);
    cpu.inc_16(Register16::DE);
    cpu.inc_16(Register16::HL);
    cpu.inc_16(Register16::SP);
    cpu.inc_16(Register16::PC);
    assert_eq!(cpu.get_16(Register16::AF), 50_001);
    assert_eq!(cpu.get_16(Register16::BC), 51_001);
    assert_eq!(cpu.get_16(Register16::DE), 52_001);
    assert_eq!(cpu.get_16(Register16::HL), 53_001);
    assert_eq!(cpu.get_16(Register16::SP), 54_001);
    assert_eq!(cpu.get_16(Register16::PC), 55_001);
}

#[test]
fn flags() {
    let mut cpu = Cpu::new();

    cpu.reset_flags();

    cpu.set_flag(Flag::Z, true);
    assert_eq!(cpu.get_8(Register8::F), 0b10000000);
    cpu.set_flag(Flag::N, true);
    assert_eq!(cpu.get_8(Register8::F), 0b11000000);
    cpu.set_flag(Flag::H, true);
    assert_eq!(cpu.get_8(Register8::F), 0b11100000);
    cpu.set_flag(Flag::C, true);
    assert_eq!(cpu.get_8(Register8::F), 0b11110000);

    cpu.set_flag(Flag::Z, false);
    assert_eq!(cpu.get_8(Register8::F), 0b01110000);
    cpu.set_flag(Flag::N, false);
    assert_eq!(cpu.get_8(Register8::F), 0b00110000);
    cpu.set_flag(Flag::H, false);
    assert_eq!(cpu.get_8(Register8::F), 0b00010000);
    cpu.set_flag(Flag::C, false);
    assert_eq!(cpu.get_8(Register8::F), 0b00000000);
}

#[test]
fn test_get_opcode_from_small() {
    assert_eq!(get_opcode_from_small(0, 3, 0, None, None), 0x18);
}

#[test]
fn pair_halves() {
    let mut cpu = Cpu::new();
    cpu.set_16(Register16::BC, 0xABCD);
    assert_eq!(cpu.get_8(Register8::B), 0xAB);
    assert_eq!(cpu.get_8(Register8::C), 0xCD);
    cpu.set_16(Register16::DE, 0x00FF);
    assert_eq!(cpu.get_8(Register8::D), 0x00);
    assert_eq!(cpu.get_8(Register8::E), 0xFF);
    cpu.set_16(Register16::HL, 0xFF00);
    assert_eq!(cpu.get_8(Register8::H), 0xFF);
    assert_eq!(cpu.get_8(Register8::L), 0x00);
    cpu.set_16(Register16::AF, 0x1234);
    assert_eq!(cpu.get_8(Register8::A), 0x12);
    assert_eq!(cpu.get_8(Register8::F), 0x34);
    cpu.set_8(Register8::H, 0x56);
    cpu.set_8(Register8::L, 0x78);
    assert_eq!(cpu.get_16(Register16::HL), 0x5678);
}

#[test]
fn pair_round_trip_for_every_pair() {
    let pairs = [
        Register16::AF,
        Register16::BC,
        Register16::DE,
        Register16::HL,
        Register16::SP,
        Register16::PC,
    ];
    for pair in pairs {
        for v in [0u16, 1, 0x00FF, 0x0100, 0x7FFF, 0x8000, 0xFFFE, 0xFFFF] {
            let mut cpu = Cpu::new();
            cpu.set_16(pair, v);
            assert_eq!(cpu.get_16(pair), v);
        }
    }
}

#[test]
fn increments_wrap() {
    let mut cpu = Cpu::new();
    cpu.set_8(Register8::B, 0xFF);
    cpu.inc_8(Register8::B);
    assert_eq!(cpu.get_8(Register8::B), 0x00);
    cpu.set_16(Register16::HL, 0xFFFF);
    cpu.inc_16(Register16::HL);
    assert_eq!(cpu.get_16(Register16::HL), 0x0000);
    cpu.set_16(Register16::BC, 0x00FF);
    cpu.inc_16(Register16::BC);
    assert_eq!(cpu.get_16(Register16::BC), 0x0100);
    cpu.set_16(Register16::PC, 0xFFFE);
    cpu.inc_pc(3);
    assert_eq!(cpu.get_16(Register16::PC), 0x0001);
}

#[test]
fn flag_isolation() {
    for start in [0x00u8, 0x0F, 0xA5, 0xF0, 0xFF] {
        for (flag, mask) in [(Flag::Z, 0x80u8), (Flag::N, 0x40), (Flag::H, 0x20), (Flag::C, 0x10)] {
            let mut cpu = Cpu::new();
            cpu.set_8(Register8::F, start);
            cpu.set_flag(flag, true);
            assert_eq!(cpu.get_8(Register8::F), start | mask);
            assert!(cpu.get_flag(flag));
            cpu.set_flag(flag, false);
            assert_eq!(cpu.get_8(Register8::F), start & !mask);
            assert!(!cpu.get_flag(flag));
        }
    }
}

#[test]
fn flags_reach_every_pattern() {
    for pattern in 0u8..16 {
        let mut cpu = Cpu::new();
        cpu.set_8(Register8::F, 0xA0);
        cpu.set_flag(Flag::Z, pattern & 8 != 0);
        cpu.set_flag(Flag::N, pattern & 4 != 0);
        cpu.set_flag(Flag::H, pattern & 2 != 0);
        cpu.set_flag(Flag::C, pattern & 1 != 0);
        assert_eq!(cpu.get_8(Register8::F), pattern << 4);

        let mut other = Cpu::new();
        other.set_8(Register8::F, 0x5B);
        other.set_flags(pattern & 8 != 0, pattern & 4 != 0, pattern & 2 != 0, pattern & 1 != 0);
        assert_eq!(other.get_8(Register8::F), (pattern << 4) | 0x0B);
    }
}

#[test]
fn negated_conditions() {
    let mut cpu = Cpu::new();
    assert!(cpu.get_flag(Flag::NZ));
    assert!(cpu.get_flag(Flag::NC));
    cpu.set_flag(Flag::Z, true);
    cpu.set_flag(Flag::C, true);
    assert!(!cpu.get_flag(Flag::NZ));
    assert!(!cpu.get_flag(Flag::NC));
}

#[test]
fn reset_flags_keeps_low_nibble() {
    let mut cpu = Cpu::new();
    cpu.set_8(Register8::F, 0xF7);
    cpu.reset_flags();
    assert_eq!(cpu.get_8(Register8::F), 0x07);
}

#[test]
fn reset_no_bios_pattern() {
    let mut cpu = Cpu::new();
    cpu.set_iter_flag(gameboy_emu::cpu::IterFlag::TIMER, true);
    cpu.reset_no_bios();
    assert_eq!(cpu.get_16(Register16::AF), 0x01B0);
    assert_eq!(cpu.get_16(Register16::BC), 0x01B0);
    assert_eq!(cpu.get_16(Register16::DE), 0x01B0);
    assert_eq!(cpu.get_16(Register16::HL), 0x01B0);
    assert_eq!(cpu.get_16(Register16::SP), 0x0001);
    assert_eq!(cpu.get_16(Register16::PC), 0x00B0);
    assert!(cpu.get_iter_master());
    assert!(!cpu.get_iter_flag(gameboy_emu::cpu::IterFlag::TIMER));
}

#[test]
fn new_cpu_is_zeroed_and_valid() {
    let cpu = Cpu::new();
    assert_eq!(cpu.get_16(Register16::AF), 0);
    assert_eq!(cpu.get_16(Register16::SP), 0);
    assert_eq!(cpu.get_16(Register16::PC), 0);
    assert!(!cpu.get_iter_master());
    assert_eq!(cpu.ticks, 0);
    assert!(cpu.is_valid());
}

#[test]
fn opcode_from_small_with_p_and_q() {
    assert_eq!(get_opcode_from_small(3, 7, 7, None, None), 0xFF);
    assert_eq!(get_opcode_from_small(1, 2, 3, None, None), 0x53);
    assert_eq!(get_opcode_from_small(0, 0, 0, Some(3), Some(1)), 0x07);
    assert_eq!(get_opcode_from_small(3, 1, 7, Some(0), Some(0)), 0xC8);
    assert_eq!(get_opcode_from_small(0, 0, 5, Some(1), None), 0x05);
    assert_eq!(get_opcode_from_small(2, 5, 4, Some(2), Some(1)), 0xAD);
}
