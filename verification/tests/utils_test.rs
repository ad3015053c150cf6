use gameboy_emu::bits::{bit_of, with_bit, without_bit};
use gameboy_emu::cpu::op_decode::{get_p, get_q, get_x, get_y, get_z};
use gameboy_emu::utils::{high_byte, join_bytes, low_byte};

#[test]
fn word_halves() {
    assert_eq!(high_byte(0xABCD), 0xAB);
    assert_eq!(low_byte(0xABCD), 0xCD);
    assert_eq!(high_byte(0x00FF), 0x00);
    assert_eq!(low_byte(0xFF00), 0x00);
    assert_eq!(join_bytes(0xAB, 0xCD), 0xABCD);
    assert_eq!(join_bytes(0x00, 0x01), 0x0001);
    assert_eq!(join_bytes(0xFF, 0xFF), 0xFFFF);
}

#[test]
fn word_halves_round_trip() {
    for v in [0u16, 1, 0x00FF, 0x0100, 0x1234, 0x8000, 0xFFFF] {
        assert_eq!(join_bytes(high_byte(v), low_byte(v)), v);
    }
}

#[test]
fn bits_count_from_the_top() {
    assert!(bit_of(0b1000_0000, 0));
    assert!(!bit_of(0b1000_0000, 7));
    assert!(bit_of(0b0000_0001, 7));
    assert!(!bit_of(0b0000_0001, 0));
    assert!(bit_of(0b0010_0000, 2));
    assert!(!bit_of(0b1101_1111, 2));
}

#[test]
fn setting_a_bit() {
    assert_eq!(with_bit(0b0000_0101, 0), 0b1000_0101);
    assert_eq!(with_bit(0b0000_0000, 7), 0b0000_0001);
    assert_eq!(with_bit(0b0000_0000, 3), 0b0001_0000);
    assert_eq!(with_bit(0b1111_1111, 4), 0b1111_1111);
}

#[test]
fn clearing_a_bit() {
    assert_eq!(without_bit(0b1000_0101, 0), 0b0000_0101);
    assert_eq!(without_bit(0b1111_1111, 7), 0b1111_1110);
    assert_eq!(without_bit(0b1111_1111, 3), 0b1110_1111);
    assert_eq!(without_bit(0b0000_0000, 4), 0b0000_0000);
}

#[test]
fn instruction_fields() {
    assert_eq!(get_x(0xCB), 3);
    assert_eq!(get_y(0xCB), 1);
    assert_eq!(get_z(0xCB), 3);
    assert_eq!(get_p(0xCB), 0);
    assert_eq!(get_q(0xCB), 1);

    assert_eq!(get_x(0x76), 1);
    assert_eq!(get_y(0x76), 6);
    assert_eq!(get_z(0x76), 6);
    assert_eq!(get_p(0x76), 3);
    assert_eq!(get_q(0x76), 0);

    assert_eq!(get_x(0x00), 0);
    assert_eq!(get_y(0xFF), 7);
    assert_eq!(get_z(0xFF), 7);
    assert_eq!(get_p(0xFF), 3);
    assert_eq!(get_q(0xFF), 1);
}

#[test]
fn instruction_fields_recompose() {
    for op in 0u16..256 {
        let op = op as u8;
        assert_eq!(get_x(op) * 64 + get_y(op) * 8 + get_z(op), op);
        assert_eq!(get_p(op) * 2 + get_q(op), get_y(op));
    }
}
