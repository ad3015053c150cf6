use gameboy_emu::cartridge::{Cartridge, MBC};
use gameboy_emu::memory::Memory;

#[test]
fn read_write() {
    let mut mem = Memory::new();
    mem.write_byte(0xdeff, 0xb1);
    assert_eq!(mem.read_byte(0xdeff), 0xb1);
    mem.write_byte(0xffff, 0xff);
    assert_eq!(mem.read_byte(0xffff), 0xff);
    mem.write_byte(0x0000, 0xde);
    assert_eq!(mem.read_byte(0x0000), 0xde);
}

#[test]
fn memory_starts_zeroed() {
    let mem = Memory::new();
    assert_eq!(mem.mem.len(), 65536);
    assert!(mem.mem.iter().all(|b| *b == 0));
}

#[test]
fn memory_words_are_little_endian() {
    let mut mem = Memory::new();
    mem.write_word(0x1000, 0x4644);
    assert_eq!(mem.read_byte(0x1000), 0x44);
    assert_eq!(mem.read_byte(0x1001), 0x46);
    assert_eq!(mem.read_word(0x1000), 0x4644);
}

#[test]
fn memory_word_round_trip_at_every_address() {
    let mut mem = Memory::new();
    for addr in [0u16, 1, 0x00FF, 0x7FFF, 0x8000, 0xFFFE, 0xFFFF] {
        mem.write_word(addr, 0xBEEF);
        assert_eq!(mem.read_word(addr), 0xBEEF);
        assert_eq!(mem.read_byte(addr), 0xEF);
        assert_eq!(mem.read_byte(addr.wrapping_add(1)), 0xBE);
    }
}

#[test]
fn memory_word_wraps_at_the_end() {
    let mut mem = Memory::new();
    mem.write_word(0xFFFF, 0x1234);
    assert_eq!(mem.read_byte(0xFFFF), 0x34);
    assert_eq!(mem.read_byte(0x0000), 0x12);
}

#[test]
fn memory_range() {
    let mut mem = Memory::new();
    mem.write_byte(0x10, 1);
    mem.write_byte(0x11, 2);
    mem.write_byte(0x12, 3);
    assert_eq!(mem.read_range((0x10, 0x13)), vec![1, 2, 3]);
    assert_eq!(mem.read_range((0x11, 0x12)), vec![2]);
    assert_eq!(mem.read_range((0x11, 0x11)), Vec::<u8>::new());
}

#[test]
fn memory_takes_a_file() {
    let mut mem = Memory::new();
    mem.write_byte(0x0FFF, 9);
    mem.write_byte(0x1003, 9);
    mem.write_from_file(0x1000, &vec![0xAA, 0xBB, 0xCC]);
    assert_eq!(mem.read_range((0x0FFF, 0x1004)), vec![9, 0xAA, 0xBB, 0xCC, 9]);
    mem.write_from_file(0xFFFE, &vec![1, 2]);
    assert_eq!(mem.read_byte(0xFFFE), 1);
    assert_eq!(mem.read_byte(0xFFFF), 2);
    mem.write_from_file(0x2000, &vec![]);
    assert_eq!(mem.read_byte(0x2000), 0);
}

fn header(title: &[u8], kind: u8) -> Cartridge {
    let mut rom = vec![0u8; 0x8000];
    for (i, b) in title.iter().enumerate() {
        rom[0x134 + i] = *b;
    }
    rom[0x147] = kind;
    Cartridge::new(rom)
}

#[test]
fn cartridge_reads() {
    let mut rom = vec![0u8; 0x200];
    rom[0x100] = 0x34;
    rom[0x101] = 0x12;
    let cartridge = Cartridge::new(rom);
    assert_eq!(cartridge.size(), 0x200);
    assert_eq!(cartridge.read_byte(0x100), 0x34);
    assert_eq!(cartridge.read_byte(0x101), 0x12);
    assert_eq!(cartridge.read_word(0x100), 0x1234);
    assert_eq!(cartridge.read_range((0xFF, 0x103)), vec![0, 0x34, 0x12, 0]);
}

#[test]
fn cartridge_title_stops_at_zero() {
    assert_eq!(header(b"TETRIS", 0).read_title(), "TETRIS");
    assert_eq!(header(b"", 0).read_title(), "");
    assert_eq!(header(b"AB\0CD", 0).read_title(), "AB");
}

#[test]
fn cartridge_title_is_at_most_fifteen_characters() {
    assert_eq!(header(b"ABCDEFGHIJKLMNOPQRS", 0).read_title(), "ABCDEFGHIJKLMNO");
}

#[test]
fn cartridge_title_reads_bytes_as_code_points() {
    assert_eq!(header(&[0x41, 0xE9, 0xFF], 0).read_title(), "A\u{e9}\u{ff}");
}

#[test]
fn cartridge_types() {
    assert_eq!(header(b"", 0x00).cartridge_type(), MBC::ROM);
    assert_eq!(header(b"", 0x08).cartridge_type(), MBC::ROM);
    assert_eq!(header(b"", 0x09).cartridge_type(), MBC::ROM);
    assert_eq!(header(b"", 0x01).cartridge_type(), MBC::MBC1);
    assert_eq!(header(b"", 0x03).cartridge_type(), MBC::MBC1);
    assert_eq!(header(b"", 0x05).cartridge_type(), MBC::MBC2);
    assert_eq!(header(b"", 0x06).cartridge_type(), MBC::MBC2);
    assert_eq!(header(b"", 0x0F).cartridge_type(), MBC::MBC3);
    assert_eq!(header(b"", 0x13).cartridge_type(), MBC::MBC3);
    assert_eq!(header(b"", 0x15).cartridge_type(), MBC::MBC4);
    assert_eq!(header(b"", 0x17).cartridge_type(), MBC::MBC4);
    assert_eq!(header(b"", 0x19).cartridge_type(), MBC::MBC5);
    assert_eq!(header(b"", 0x1B).cartridge_type(), MBC::MBC5);
    assert_eq!(header(b"", 0x1E).cartridge_type(), MBC::MBC5);
}
