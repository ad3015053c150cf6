use gameboy_emu::cpu::{Cpu, IterFlag};
use gameboy_emu::ppu::{budget, GpuMode, Ppu};

fn cpu_in(mode: GpuMode, scanline: u8, tick: u64) -> Cpu {
    let mut cpu = Cpu::new();
    cpu.ppu.mode = mode;
    cpu.ppu.scanline = scanline;
    cpu.ppu.tick = tick;
    cpu
}

#[test]
fn new_display() {
    let ppu = Ppu::new();
    assert_eq!(ppu.mode, GpuMode::HBLANK);
    assert_eq!(ppu.tick, 0);
    assert_eq!(ppu.scanline, 0);
    assert_eq!(ppu.control, 0);
    assert_eq!(ppu.scroll_x, 0);
    assert_eq!(ppu.scroll_y, 0);
    assert_eq!(ppu.ly_compare, 0);
}

#[test]
fn budgets() {
    assert_eq!(budget(GpuMode::OAM), 80);
    assert_eq!(budget(GpuMode::VRAM), 172);
    assert_eq!(budget(GpuMode::HBLANK), 204);
    assert_eq!(budget(GpuMode::VBLANK), 456);
}

#[test]
fn eighty_dots_end_the_sprite_search() {
    let mut cpu = cpu_in(GpuMode::OAM, 0, 0);
    cpu.inc_ticks(20);
    assert_eq!(cpu.ppu.mode, GpuMode::VRAM);
    assert_eq!(cpu.ppu.tick, 0);
    assert_eq!(cpu.ppu.scanline, 0);
    assert_eq!(cpu.ticks, 20);
}

#[test]
fn fewer_dots_stay_in_the_phase() {
    let mut cpu = cpu_in(GpuMode::OAM, 0, 0);
    cpu.inc_ticks(19);
    assert_eq!(cpu.ppu.mode, GpuMode::OAM);
    assert_eq!(cpu.ppu.tick, 76);
    cpu.inc_ticks(0);
    assert_eq!(cpu.ppu.tick, 76);
}

#[test]
fn left_over_dots_carry_into_the_next_phase() {
    let mut cpu = cpu_in(GpuMode::OAM, 7, 72);
    cpu.inc_ticks(6);
    assert_eq!(cpu.ppu.mode, GpuMode::VRAM);
    assert_eq!(cpu.ppu.tick, 16);

    let mut cpu = cpu_in(GpuMode::VRAM, 7, 170);
    cpu.inc_ticks(1);
    assert_eq!(cpu.ppu.mode, GpuMode::HBLANK);
    assert_eq!(cpu.ppu.tick, 2);
    assert_eq!(cpu.ppu.scanline, 7);
}

#[test]
fn horizontal_blanking_ends_the_line() {
    let mut cpu = cpu_in(GpuMode::HBLANK, 7, 200);
    cpu.inc_ticks(1);
    assert_eq!(cpu.ppu.mode, GpuMode::OAM);
    assert_eq!(cpu.ppu.tick, 0);
    assert_eq!(cpu.ppu.scanline, 8);
    assert!(!cpu.get_iter_flag(IterFlag::VBLANK));
}

#[test]
fn vertical_blanking_begins_on_line_143() {
    let mut cpu = cpu_in(GpuMode::HBLANK, 141, 200);
    cpu.inc_ticks(1);
    assert_eq!(cpu.ppu.mode, GpuMode::OAM);
    assert_eq!(cpu.ppu.scanline, 142);
    assert!(!cpu.get_iter_flag(IterFlag::VBLANK));

    let mut cpu = cpu_in(GpuMode::HBLANK, 142, 200);
    cpu.inc_ticks(1);
    assert_eq!(cpu.ppu.mode, GpuMode::VBLANK);
    assert_eq!(cpu.ppu.scanline, 143);
    assert_eq!(cpu.ppu.tick, 0);
    assert!(cpu.get_iter_flag(IterFlag::VBLANK));
    assert!(!cpu.get_iter_flag(IterFlag::LCDSTAT));
}

#[test]
fn vertical_blanking_counts_lines_and_wraps() {
    let mut cpu = cpu_in(GpuMode::VBLANK, 143, 452);
    cpu.inc_ticks(1);
    assert_eq!(cpu.ppu.mode, GpuMode::VBLANK);
    assert_eq!(cpu.ppu.scanline, 144);
    assert_eq!(cpu.ppu.tick, 0);

    let mut cpu = cpu_in(GpuMode::VBLANK, 153, 452);
    cpu.inc_ticks(2);
    assert_eq!(cpu.ppu.mode, GpuMode::OAM);
    assert_eq!(cpu.ppu.scanline, 0);
    assert_eq!(cpu.ppu.tick, 4);
}

#[test]
fn a_line_takes_456_dots() {
    let mut cpu = cpu_in(GpuMode::OAM, 3, 0);
    cpu.inc_ticks(114);
    assert_eq!(cpu.ppu.mode, GpuMode::OAM);
    assert_eq!(cpu.ppu.scanline, 4);
    assert_eq!(cpu.ppu.tick, 0);
}

#[test]
fn a_frame_has_154_lines() {
    let mut cpu = cpu_in(GpuMode::OAM, 0, 0);
    let mut lines = 0;
    loop {
        cpu.inc_ticks(114);
        lines += 1;
        assert!(cpu.is_valid());
        if cpu.ppu.scanline == 0 {
            break;
        }
        assert_eq!(cpu.ppu.scanline as u32, lines);
    }
    assert_eq!(lines, 154);
    assert_eq!(cpu.ppu.mode, GpuMode::OAM);
    assert_eq!(cpu.ppu.tick, 0);
    assert!(cpu.get_iter_flag(IterFlag::VBLANK));
    assert_eq!(cpu.ticks, 154 * 114);
}

#[test]
fn many_cycles_make_many_transitions() {
    let mut cpu = cpu_in(GpuMode::OAM, 0, 0);
    cpu.inc_ticks(255);
    // 1020 dots: two lines of 456 and 108 more, which end the sprite search.
    assert_eq!(cpu.ppu.scanline, 2);
    assert_eq!(cpu.ppu.mode, GpuMode::VRAM);
    assert_eq!(cpu.ppu.tick, 28);
}

#[test]
fn one_transition_at_a_time() {
    let mut cpu = cpu_in(GpuMode::OAM, 0, 300);
    cpu.ppu_step();
    assert_eq!(cpu.ppu.mode, GpuMode::VRAM);
    assert_eq!(cpu.ppu.tick, 220);
    cpu.ppu_step();
    assert_eq!(cpu.ppu.mode, GpuMode::HBLANK);
    assert_eq!(cpu.ppu.tick, 48);
    cpu.ppu_step();
    assert_eq!(cpu.ppu.mode, GpuMode::HBLANK);
    assert_eq!(cpu.ppu.tick, 48);
    cpu.ppu_hblank();
    assert_eq!(cpu.ppu.scanline, 1);
}

#[test]
fn cycle_counter_wraps() {
    let mut cpu = Cpu::new();
    cpu.ticks = u64::MAX - 1;
    cpu.inc_ticks(3);
    assert_eq!(cpu.ticks, 1);
}

#[test]
fn validity() {
    assert!(cpu_in(GpuMode::OAM, 142, 79).is_valid());
    assert!(!cpu_in(GpuMode::OAM, 0, 80).is_valid());
    assert!(!cpu_in(GpuMode::OAM, 143, 0).is_valid());
    assert!(cpu_in(GpuMode::VBLANK, 153, 455).is_valid());
    assert!(!cpu_in(GpuMode::VBLANK, 154, 0).is_valid());
    assert!(cpu_in(GpuMode::VBLANK, 0, 0).is_valid());
    assert!(!cpu_in(GpuMode::VRAM, 0, 172).is_valid());
    assert!(!cpu_in(GpuMode::HBLANK, 0, 204).is_valid());
    let mut cpu = Cpu::new();
    cpu.iter_flags = 32;
    assert!(!cpu.is_valid());
}
