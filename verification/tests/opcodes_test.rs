use gameboy_emu::cartridge::Cartridge;
use gameboy_emu::cpu::opcodes::decode;
use gameboy_emu::cpu::{Cpu, Flag, Register16, Register8};
use gameboy_emu::gameboy::GameBoy;
use gameboy_emu::memory::Memory;
use gameboy_emu::utils::get_opcode_from_small;

fn init_env() -> GameBoy {
    let rom = Cartridge::new(vec![0; 0x8000]);
    let cpu = Cpu::new();
    let mem = Memory::new();
    GameBoy::new(Box::new(cpu), vec![0; 0x100], Box::new(rom), Box::new(mem))
}

/// Puts a byte into the cartridge, where programs live.
fn load(gb: &mut GameBoy, addr: u16, v: u8) {
    let mut image = gb.cartridge.read_range((0, 0x8000));
    image[addr as usize] = v;
    gb.cartridge = Box::new(Cartridge::new(image));
}

#[test]
fn test_jr_d() {
    let mut gb = init_env();

    load(&mut gb, 0x1000, 0x18);
    load(&mut gb, 0x1001, 0x10);

    gb.cpu.set_16(Register16::PC, 0x1000);
    decode(&mut gb).unwrap();

    // The offset counts from the instruction that follows the jump.
    assert_eq!(gb.cpu.get_16(Register16::PC), 0x1002 + 0x10);

    load(&mut gb, 0x1001, 0xFC);
    gb.cpu.set_16(Register16::PC, 0x1000);
    decode(&mut gb).unwrap();

    assert_eq!(gb.cpu.get_16(Register16::PC), 0x1002 - 4);
}

#[test]
fn test_jr_cc_d() {
    let mut gb = init_env();

    load(&mut gb, 0x1000, get_opcode_from_small(0, 4, 0, None, None));
    load(&mut gb, 0x1001, 0xFC);

    gb.cpu.set_flag(Flag::Z, true);
    gb.cpu.set_16(Register16::PC, 0x1000);
    decode(&mut gb).unwrap();

    assert_eq!(gb.cpu.get_16(Register16::PC), 0x1002);

    gb.cpu.set_flag(Flag::Z, false);
    gb.cpu.set_16(Register16::PC, 0x1000);
    decode(&mut gb).unwrap();

    assert_eq!(gb.cpu.get_16(Register16::PC), 0x1000 - 2);
}

#[test]
fn test_ld() {
    let mut gb = init_env();

    load(&mut gb, 0x1000, 0x01);
    load(&mut gb, 0x1001, 0x10);
    load(&mut gb, 0x1002, 0x00);

    gb.cpu.set_16(Register16::PC, 0x1000);
    decode(&mut gb).unwrap();

    assert_eq!(gb.cpu.get_16(Register16::BC), 0x0010);

    //LD (BC), A
    load(&mut gb, 0x1000, 0x02);
    gb.cpu.set_16(Register16::PC, 0x1000);
    gb.cpu.set_16(Register16::BC, 0x1010);
    gb.cpu.set_8(Register8::A, 0x42);
    decode(&mut gb).unwrap();

    // 0x1010 lies in the cartridge, which ignores writes.
    assert_eq!(gb.mem.read_byte(0x1010), 0x00);
    assert_eq!(gb.read_byte(0x1010), 0x00);

    gb.cpu.set_16(Register16::PC, 0x1000);
    gb.cpu.set_16(Register16::BC, 0xC010);
    decode(&mut gb).unwrap();

    assert_eq!(gb.mem.read_byte(0xC010), 0x42);

    //LD (DE), A
    load(&mut gb, 0x1000, 0x12);
    gb.cpu.set_16(Register16::PC, 0x1000);
    gb.cpu.set_16(Register16::DE, 0x1011);
    gb.cpu.set_8(Register8::A, 0x42);
    decode(&mut gb).unwrap();

    assert_eq!(gb.mem.read_byte(0x1011), 0x00);

    gb.cpu.set_16(Register16::PC, 0x1000);
    gb.cpu.set_16(Register16::DE, 0xC011);
    decode(&mut gb).unwrap();

    assert_eq!(gb.mem.read_byte(0xC011), 0x42);

    //LD HL, nn
    load(&mut gb, 0x1000, 0x21);
    load(&mut gb, 0x1001, 0x43);
    load(&mut gb, 0x1002, 0x42);
    gb.cpu.set_16(Register16::PC, 0x1000);
    gb.cpu.set_16(Register16::HL, 0);

    decode(&mut gb).unwrap();

    assert_eq!(gb.cpu.get_16(Register16::HL), 0x4243);

    // LD (HL+), A
    load(&mut gb, 0x1000, 0x22);
    gb.cpu.set_16(Register16::PC, 0x1000);
    gb.cpu.set_16(Register16::HL, 0x4242);
    gb.cpu.set_8(Register8::A, 0x42);

    decode(&mut gb).unwrap();

    assert_eq!(gb.mem.read_word(0x4243), 0x00);
    assert_eq!(gb.cpu.get_16(Register16::HL), 0x4243);
    assert_eq!(gb.cpu.get_16(Register16::PC), 0x1001);

    gb.cpu.set_16(Register16::PC, 0x1000);
    gb.cpu.set_16(Register16::HL, 0xC242);

    decode(&mut gb).unwrap();

    assert_eq!(gb.mem.read_word(0xC242), 0x42);
    assert_eq!(gb.cpu.get_16(Register16::HL), 0xC243);

    // LD (nn), SP
    load(&mut gb, 0x1000, 0x08);
    load(&mut gb, 0x1001, 0x00);
    load(&mut gb, 0x1002, 0x20);
    gb.cpu.set_16(Register16::PC, 0x1000);
    gb.cpu.set_16(Register16::SP, 0x4242);
    decode(&mut gb).unwrap();

    assert_eq!(gb.mem.read_word(0x2000), 0x0000);

    load(&mut gb, 0x1002, 0xC0);
    gb.cpu.set_16(Register16::PC, 0x1000);
    decode(&mut gb).unwrap();

    assert_eq!(gb.mem.read_word(0xC000), 0x4242);
    assert_eq!(gb.cpu.get_16(Register16::PC), 0x1003);

    // LD (HL-), A
    load(&mut gb, 0x1000, 0x32);
    load(&mut gb, 0x1001, 0x00);
    load(&mut gb, 0x1002, 0x20);
    gb.cpu.set_16(Register16::PC, 0x1000);
    gb.cpu.set_16(Register16::HL, 0xC100);
    gb.cpu.set_8(Register8::A, 0x42);
    decode(&mut gb).unwrap();

    assert_eq!(gb.mem.read_byte(0x2000), 0x00);
    assert_eq!(gb.mem.read_byte(0xC100), 0x42);
    assert_eq!(gb.cpu.get_16(Register16::HL), 0xC0FF);
    assert_eq!(gb.cpu.get_16(Register16::PC), 0x1001);

    // LD (nn), A
    load(&mut gb, 0x1000, 0xEA);
    load(&mut gb, 0x1001, 0x00);
    load(&mut gb, 0x1002, 0xC2);
    gb.cpu.set_16(Register16::PC, 0x1000);
    gb.cpu.set_8(Register8::A, 0x42);
    decode(&mut gb).unwrap();

    assert_eq!(gb.mem.read_byte(0xC200), 0x42);

    // LD A, (BC)
    load(&mut gb, 0x1000, 0x0A);
    load(&mut gb, 0x2020, 0x42);
    gb.cpu.set_16(Register16::PC, 0x1000);
    gb.cpu.set_16(Register16::BC, 0x2020);
    gb.cpu.set_8(Register8::A, 0x0);
    decode(&mut gb).unwrap();

    assert_eq!(gb.cpu.get_8(Register8::A), 0x42);

    // LD A, (DE)
    load(&mut gb, 0x1000, 0x1A);
    load(&mut gb, 0x2020, 0x42);
    gb.cpu.set_16(Register16::PC, 0x1000);
    gb.cpu.set_16(Register16::DE, 0x2020);
    gb.cpu.set_8(Register8::A, 0x0);
    decode(&mut gb).unwrap();

    assert_eq!(gb.cpu.get_8(Register8::A), 0x42);

    // LD A, (HL+)
    load(&mut gb, 0x1000, 0x2A);
    load(&mut gb, 0x1001, 0x20);
    load(&mut gb, 0x1002, 0x20);

    load(&mut gb, 0x2020, 0x42);
    load(&mut gb, 0x2021, 0x41);
    gb.cpu.set_16(Register16::PC, 0x1000);
    gb.cpu.set_16(Register16::HL, 0x2020);
    gb.cpu.set_8(Register8::A, 0);
    decode(&mut gb).unwrap();

    assert_eq!(gb.cpu.get_8(Register8::A), 0x42);
    assert_eq!(gb.cpu.get_16(Register16::HL), 0x2021);
    assert_eq!(gb.cpu.get_16(Register16::PC), 0x1001);

    // LD A, (HL-)
    load(&mut gb, 0x1000, 0x3A);
    gb.cpu.set_16(Register16::PC, 0x1000);
    gb.cpu.set_8(Register8::A, 0);
    decode(&mut gb).unwrap();

    assert_eq!(gb.cpu.get_8(Register8::A), 0x41);
    assert_eq!(gb.cpu.get_16(Register16::HL), 0x2020);

    // LD A, (nn)
    load(&mut gb, 0x1000, 0xFA);
    load(&mut gb, 0x1001, 0x20);
    load(&mut gb, 0x1002, 0x20);
    gb.cpu.set_16(Register16::PC, 0x1000);
    gb.cpu.set_8(Register8::A, 0);
    decode(&mut gb).unwrap();

    assert_eq!(gb.cpu.get_8(Register8::A), 0x42);
    assert_eq!(gb.cpu.get_16(Register16::PC), 0x1003);

    // LD SP, HL
    load(&mut gb, 0x1000, 0xF9);
    gb.cpu.set_16(Register16::SP, 0x0000);
    gb.cpu.set_16(Register16::HL, 0x4243);
    gb.cpu.set_16(Register16::PC, 0x1000);
    decode(&mut gb).unwrap();

    assert_eq!(gb.cpu.get_16(Register16::SP), 0x4243);
    assert_eq!(gb.cpu.get_16(Register16::PC), 0x1001);
}

#[test]
fn test_inc_16() {
    let mut gb = init_env();

    load(&mut gb, 0x1000, 0x03);

    gb.cpu.set_16(Register16::PC, 0x1000);
    gb.cpu.set_16(Register16::BC, 0x4242);

    decode(&mut gb).unwrap();

    assert_eq!(gb.cpu.get_16(Register16::BC), 0x4243);
}

#[test]
fn test_dec_16() {
    let mut gb = init_env();

    load(&mut gb, 0x1000, 0x0B);

    gb.cpu.set_16(Register16::PC, 0x1000);
    gb.cpu.set_16(Register16::BC, 0x4242);

    decode(&mut gb).unwrap();

    assert_eq!(gb.cpu.get_16(Register16::BC), 0x4241);
}

#[test]
fn test_inc_8() {
    let mut gb = init_env();

    load(&mut gb, 0x1000, 0x04);

    gb.cpu.set_16(Register16::PC, 0x1000);
    gb.cpu.set_8(Register8::B, 0x42);

    decode(&mut gb).unwrap();

    assert_eq!(gb.cpu.get_8(Register8::B), 0x43);
}

#[test]
fn test_dec_8() {
    let mut gb = init_env();

    load(&mut gb, 0x1000, 0x05);

    gb.cpu.set_16(Register16::PC, 0x1000);
    gb.cpu.set_8(Register8::B, 0x42);

    decode(&mut gb).unwrap();

    assert_eq!(gb.cpu.get_8(Register8::B), 0x41);
}

#[test]
fn test_ld_8() {
    let mut gb = init_env();

    load(&mut gb, 0x1000, 0x06);
    load(&mut gb, 0x1001, 0x42);

    gb.cpu.set_16(Register16::PC, 0x1000);
    gb.cpu.set_8(Register8::B, 0x0);

    decode(&mut gb).unwrap();

    assert_eq!(gb.cpu.get_8(Register8::B), 0x42);

    load(&mut gb, 0x1000, 0x41);

    gb.cpu.set_16(Register16::PC, 0x1000);
    gb.cpu.set_8(Register8::B, 0x0);
    gb.cpu.set_8(Register8::C, 0x42);

    decode(&mut gb).unwrap();

    assert_eq!(gb.cpu.get_8(Register8::B), 0x42);

    //LD (HL-), A
    load(&mut gb, 0x1000, 0x32);

    gb.cpu.set_16(Register16::PC, 0x1000);
    gb.cpu.set_8(Register8::A, 0x42);
    gb.cpu.set_16(Register16::HL, 0x4242);

    decode(&mut gb).unwrap();

    // 0x4242 lies in the cartridge, which ignores writes.
    assert_eq!(gb.mem.read_byte(0x4241), 0x00);
    assert_eq!(gb.mem.read_byte(0x4242), 0x00);
    assert_eq!(gb.cpu.get_16(Register16::PC), 0x1001);
    assert_eq!(gb.cpu.get_16(Register16::HL), 0x4241);

    gb.cpu.set_16(Register16::PC, 0x1000);
    gb.cpu.set_16(Register16::HL, 0xC242);

    decode(&mut gb).unwrap();

    assert_eq!(gb.mem.read_byte(0xC242), 0x42);
    assert_eq!(gb.cpu.get_16(Register16::HL), 0xC241);
}

#[test]
fn test_rlca() {
    let mut gb = init_env();

    load(&mut gb, 0x1000, 0x07);

    gb.cpu.set_16(Register16::PC, 0x1000);
    gb.cpu.set_8(Register8::A, 0x42);

    decode(&mut gb).unwrap();

    assert_eq!(gb.cpu.get_8(Register8::A), 0x84);

    gb.cpu.set_16(Register16::PC, 0x1000);

    decode(&mut gb).unwrap();

    assert_eq!(gb.cpu.get_8(Register8::A), 0x09);
}

#[test]
fn test_ret() {
    let mut gb = init_env();

    load(&mut gb, 0x1000, 0xC9);

    gb.cpu.set_16(Register16::PC, 0x1000);
    gb.cpu.set_16(Register16::SP, 0x4242);

    decode(&mut gb).unwrap();

    // The program counter is the word that the stack pointer pointed at.
    assert_eq!(gb.cpu.get_16(Register16::PC), 0x0000);
    assert_eq!(gb.cpu.get_16(Register16::SP), 0x4244);

    load(&mut gb, 0x4242, 0x42);
    load(&mut gb, 0x4243, 0x42);
    gb.cpu.set_16(Register16::PC, 0x1000);
    gb.cpu.set_16(Register16::SP, 0x4242);

    decode(&mut gb).unwrap();

    assert_eq!(gb.cpu.get_16(Register16::PC), 0x4242);

    load(&mut gb, 0x1000, 0xC8);

    gb.cpu.set_16(Register16::PC, 0x1000);
    gb.cpu.set_16(Register16::SP, 0x4242);

    decode(&mut gb).unwrap();

    assert_eq!(gb.cpu.get_16(Register16::PC), 0x1001);

    load(&mut gb, 0x1000, 0xC8);

    gb.cpu.set_16(Register16::PC, 0x1000);
    gb.cpu.set_16(Register16::SP, 0x4242);
    gb.cpu.set_flag(Flag::Z, true);

    decode(&mut gb).unwrap();

    assert_eq!(gb.cpu.get_16(Register16::PC), 0x4242);
}

#[test]
fn test_jp() {
    let mut gb = init_env();

    // jp_nn
    load(&mut gb, 0x1000, 0xC3);
    load(&mut gb, 0x1001, 0x43);
    load(&mut gb, 0x1002, 0x42);

    gb.cpu.set_16(Register16::PC, 0x1000);

    decode(&mut gb).unwrap();

    assert_eq!(gb.cpu.get_16(Register16::PC), 0x4243);

    // jp_HL
    load(&mut gb, 0x1000, 0xE9);
    gb.cpu.set_16(Register16::HL, 0x4342);

    gb.cpu.set_16(Register16::PC, 0x1000);

    decode(&mut gb).unwrap();

    assert_eq!(gb.cpu.get_16(Register16::PC), 0x4342);

    // JP cc[y], nn
    load(&mut gb, 0x1000, 0xC2);
    load(&mut gb, 0x1001, 0x42);
    load(&mut gb, 0x1002, 0x42);

    gb.cpu.set_16(Register16::PC, 0x1000);
    gb.cpu.set_flag(Flag::Z, true);

    decode(&mut gb).unwrap();

    assert_eq!(gb.cpu.get_16(Register16::PC), 0x1003);

    // JP cc[y], nn
    gb.cpu.set_16(Register16::PC, 0x1000);
    gb.cpu.set_flag(Flag::Z, false);

    decode(&mut gb).unwrap();

    assert_eq!(gb.cpu.get_16(Register16::PC), 0x4242);
}

#[test]
fn test_alu() {
    let mut gb = init_env();

    load(&mut gb, 0x1000, 0x80);
    gb.cpu.set_16(Register16::PC, 0x1000);
    gb.cpu.set_8(Register8::A, 0x10);
    gb.cpu.set_8(Register8::B, 0x10);

    decode(&mut gb).unwrap();

    assert_eq!(gb.cpu.get_8(Register8::A), 0x20);
    assert_eq!(gb.cpu.get_8(Register8::B), 0x10);
    assert_eq!(gb.cpu.get_16(Register16::PC), 0x1001);
    assert_eq!(gb.cpu.get_flag(Flag::C), false);
    assert_eq!(gb.cpu.get_flag(Flag::H), false);

    load(&mut gb, 0x1000, 0x80);
    gb.cpu.set_16(Register16::PC, 0x1000);
    gb.cpu.set_8(Register8::A, 0xFF);
    gb.cpu.set_8(Register8::B, 0x10);
    gb.cpu.set_flag(Flag::C, false);

    decode(&mut gb).unwrap();

    assert_eq!(gb.cpu.get_8(Register8::A), 0x0F);
    assert_eq!(gb.cpu.get_8(Register8::B), 0x10);
    assert_eq!(gb.cpu.get_16(Register16::PC), 0x1001);
    assert_eq!(gb.cpu.get_flag(Flag::C), true);

    load(&mut gb, 0x1000, 0x88);
    gb.cpu.set_16(Register16::PC, 0x1000);
    gb.cpu.set_8(Register8::A, 0x10);
    gb.cpu.set_8(Register8::B, 0x10);
    gb.cpu.set_flag(Flag::C, true);

    decode(&mut gb).unwrap();

    assert_eq!(gb.cpu.get_8(Register8::A), 0x21);
    assert_eq!(gb.cpu.get_8(Register8::B), 0x10);
    assert_eq!(gb.cpu.get_16(Register16::PC), 0x1001);

    load(&mut gb, 0x1000, 0x88);
    gb.cpu.set_16(Register16::PC, 0x1000);
    gb.cpu.set_8(Register8::A, 0x10);
    gb.cpu.set_8(Register8::B, 0x10);
    gb.cpu.set_flag(Flag::C, false);

    decode(&mut gb).unwrap();

    assert_eq!(gb.cpu.get_8(Register8::A), 0x20);
    assert_eq!(gb.cpu.get_8(Register8::B), 0x10);
    assert_eq!(gb.cpu.get_16(Register16::PC), 0x1001);

    load(&mut gb, 0x1000, 0x90);
    gb.cpu.set_16(Register16::PC, 0x1000);
    gb.cpu.set_8(Register8::A, 0x10);
    gb.cpu.set_8(Register8::B, 0x10);

    decode(&mut gb).unwrap();

    assert_eq!(gb.cpu.get_8(Register8::A), 0x00);
    assert_eq!(gb.cpu.get_8(Register8::B), 0x10);
    assert_eq!(gb.cpu.get_16(Register16::PC), 0x1001);

    //SUB B+
    load(&mut gb, 0x1000, 0x90);
    gb.cpu.set_16(Register16::PC, 0x1000);
    gb.cpu.set_8(Register8::A, 0x10);
    gb.cpu.set_8(Register8::B, 0x10);
    gb.cpu.set_flag(Flag::C, false);

    decode(&mut gb).unwrap();

    assert_eq!(gb.cpu.get_8(Register8::A), 0x00);
    assert_eq!(gb.cpu.get_8(Register8::B), 0x10);
    assert_eq!(gb.cpu.get_16(Register16::PC), 0x1001);
    assert_eq!(gb.cpu.get_flag(Flag::C), false);

    //SUB B
    load(&mut gb, 0x1000, 0x90);
    gb.cpu.set_16(Register16::PC, 0x1000);
    gb.cpu.set_8(Register8::A, 0x10);
    gb.cpu.set_8(Register8::B, 0x11);
    gb.cpu.set_flag(Flag::C, false);

    decode(&mut gb).unwrap();

    assert_eq!(gb.cpu.get_8(Register8::A), 0xFF);
    assert_eq!(gb.cpu.get_8(Register8::B), 0x11);
    assert_eq!(gb.cpu.get_16(Register16::PC), 0x1001);
    assert_eq!(gb.cpu.get_flag(Flag::C), true);
}

#[test]
fn test_pop() {
    let mut gb = init_env();

    load(&mut gb, 0x1000, 0xC1);
    gb.cpu.set_16(Register16::SP, 0x4242);
    gb.cpu.set_16(Register16::PC, 0x1000);

    decode(&mut gb).unwrap();

    // The pair takes the word that the stack pointer pointed at.
    assert_eq!(gb.cpu.get_16(Register16::PC), 0x1001);
    assert_eq!(gb.cpu.get_16(Register16::BC), 0x0000);
    assert_eq!(gb.cpu.get_16(Register16::SP), 0x4244);

    load(&mut gb, 0x4242, 0x42);
    load(&mut gb, 0x4243, 0x42);
    gb.cpu.set_16(Register16::SP, 0x4242);
    gb.cpu.set_16(Register16::PC, 0x1000);

    decode(&mut gb).unwrap();

    assert_eq!(gb.cpu.get_16(Register16::PC), 0x1001);
    assert_eq!(gb.cpu.get_16(Register16::BC), 0x4242);
}

#[test]
fn test_call() {
    let mut gb = init_env();

    //CALL NZ, nn
    load(&mut gb, 0x1000, 0xC4);
    load(&mut gb, 0x1001, 0x42);
    load(&mut gb, 0x1002, 0x42);

    gb.cpu.set_16(Register16::PC, 0x1000);

    decode(&mut gb).unwrap();

    assert_eq!(gb.cpu.get_16(Register16::PC), 0x4242);

    //CALL NZ, nn
    gb.cpu.set_16(Register16::PC, 0x1000);
    gb.cpu.set_flag(Flag::Z, true);

    decode(&mut gb).unwrap();

    assert_eq!(gb.cpu.get_16(Register16::PC), 0x1003);

    //CALL nn
    load(&mut gb, 0x1000, 0xCD);
    gb.cpu.set_16(Register16::PC, 0x1000);

    decode(&mut gb).unwrap();

    assert_eq!(gb.cpu.get_16(Register16::PC), 0x4242);
}

#[test]
fn test_add() {
    let mut gb = init_env();

    // ADD HL, rp[p]
    load(&mut gb, 0x1000, 0x09);

    gb.cpu.set_16(Register16::PC, 0x1000);
    gb.cpu.set_16(Register16::BC, 0x4242);

    gb.cpu.set_16(Register16::HL, 0);
    assert_eq!(gb.cpu.get_16(Register16::HL), 0);

    decode(&mut gb).unwrap();

    assert_eq!(gb.cpu.get_16(Register16::PC), 0x1001);
    assert_eq!(gb.cpu.get_16(Register16::HL), 0x4242);
}

#[test]
fn test_rst() {
    let mut gb = init_env();

    //RST x18
    load(&mut gb, 0x1000, 0xDF);
    gb.cpu.set_16(Register16::PC, 0x1000);

    decode(&mut gb).unwrap();

    // The return address goes on the stack, which grows down from zero.
    assert_eq!(gb.cpu.get_16(Register16::SP), 0xFFFE);
    assert_eq!(gb.read_word(0xFFFE), 0x1001);
    assert_eq!(gb.cpu.get_16(Register16::PC), 0x0018);

    //RST x08
    load(&mut gb, 0x1000, 0xCF);
    gb.cpu.set_16(Register16::PC, 0x1000);

    decode(&mut gb).unwrap();

    assert_eq!(gb.cpu.get_16(Register16::SP), 0xFFFC);
    assert_eq!(gb.read_word(0xFFFC), 0x1001);
    assert_eq!(gb.cpu.get_16(Register16::PC), 0x0008);
}

#[test]
fn test_bit() {
    let mut gb = init_env();

    gb.cpu.reset_flags();

    //CB Bit 0, B
    load(&mut gb, 0x1000, 0xCB);
    load(&mut gb, 0x1001, 0x40);
    gb.cpu.set_8(Register8::B, 0);
    gb.cpu.set_16(Register16::PC, 0x1000);

    decode(&mut gb).unwrap();

    assert_eq!(gb.cpu.get_flag(Flag::Z), true);
    assert_eq!(gb.cpu.get_flag(Flag::N), false);
    assert_eq!(gb.cpu.get_flag(Flag::H), true);
    assert_eq!(gb.cpu.get_16(Register16::PC), 0x1002);

    //CB Bit 0, B
    load(&mut gb, 0x1000, 0xCB);
    load(&mut gb, 0x1001, 0x40);
    gb.cpu.set_8(Register8::B, 0b1000_0000);
    gb.cpu.set_16(Register16::PC, 0x1000);

    decode(&mut gb).unwrap();

    assert_eq!(gb.cpu.get_flag(Flag::Z), true);
    assert_eq!(gb.cpu.get_flag(Flag::N), false);
    assert_eq!(gb.cpu.get_flag(Flag::H), true);

    //CB RES 0, B
    load(&mut gb, 0x1000, 0xCB);
    load(&mut gb, 0x1001, 0x80);
    gb.cpu.set_8(Register8::B, 0b1100_0000);
    gb.cpu.set_16(Register16::PC, 0x1000);

    decode(&mut gb).unwrap();

    assert_eq!(gb.cpu.get_8(Register8::B), 0b0100_0000);

    //CB SET 0, B
    load(&mut gb, 0x1000, 0xCB);
    load(&mut gb, 0x1001, 0xC0);
    gb.cpu.set_8(Register8::B, 0b0100_0000);
    gb.cpu.set_16(Register16::PC, 0x1000);

    decode(&mut gb).unwrap();

    assert_eq!(gb.cpu.get_8(Register8::B), 0b1100_0000);
}

#[test]
fn test_push() {
    let mut gb = init_env();

    load(&mut gb, 0x1000, 0xD5);
    gb.cpu.set_16(Register16::PC, 0x1000);
    gb.cpu.set_16(Register16::DE, 0x4242);

    decode(&mut gb).unwrap();

    // The stack pointer goes down by two and points at the pushed word.
    assert_eq!(gb.cpu.get_16(Register16::SP), 0xFFFE);
    assert_eq!(gb.read_word(gb.cpu.get_16(Register16::SP)), 0x4242);
}
