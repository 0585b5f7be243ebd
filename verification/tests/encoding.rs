//! Bit-exact instruction words and packed addressing operands.

use tilemul::encode::{fma_operand, op, state_word, xy_operand, z_operand, Opcode};

#[test]
fn state_control_words() {
    // opcode 17: base 0x00201000 + (17 << 5) = 0x00201220, plus the flag
    assert_eq!(state_word(false), 0x0020_1220);
    assert_eq!(state_word(true), 0x0020_1221);
    assert_eq!(op(Opcode::StateCtrl, 0), 0x0020_1220);
    assert_eq!(op(Opcode::StateCtrl, 1), 0x0020_1221);
}

#[test]
fn operand_encoding_is_decimal_like() {
    // operand 0x25: low nibble 5 plus (0x25 >> 4) * 10 = 25
    assert_eq!(op(Opcode::LoadX, 0x25), 0x0020_1000 + 25);
    // a plain register-number operand below 16 passes through unchanged
    assert_eq!(op(Opcode::FmaF32, 9), 0x0020_1000 + (12 << 5) + 9);
}

#[test]
fn opcode_values() {
    assert_eq!(op(Opcode::LoadX, 0), 0x0020_1000);
    assert_eq!(op(Opcode::LoadY, 0), 0x0020_1000 + (1 << 5));
    assert_eq!(op(Opcode::StoreX, 0), 0x0020_1000 + (2 << 5));
    assert_eq!(op(Opcode::StoreY, 0), 0x0020_1000 + (3 << 5));
    assert_eq!(op(Opcode::LoadZ, 0), 0x0020_1000 + (4 << 5));
    assert_eq!(op(Opcode::StoreZ, 0), 0x0020_1000 + (5 << 5));
    assert_eq!(op(Opcode::FmaF32, 0), 0x0020_1000 + (12 << 5));
}

#[test]
fn load_store_operand_packing() {
    assert_eq!(xy_operand(3, 0x1000), 0x0300_0000_0000_1000);
    assert_eq!(z_operand(63, 0x1000), 0x3f00_0000_0000_1000);
    // the index fields mask: 11 & 0x7 == 3, 69 & 0x3f == 5
    assert_eq!(xy_operand(11, 0xdead), xy_operand(3, 0xdead));
    assert_eq!(z_operand(69, 0xdead), z_operand(5, 0xdead));
    // addresses are truncated to 56 bits
    assert_eq!(xy_operand(0, 0xff00_0000_0000_0042), 0x0042);
}

#[test]
fn fma_operand_packing() {
    assert_eq!(fma_operand(1, 0, 0), 1 << 20);
    assert_eq!(fma_operand(0, 64, 0), 64 << 10);
    assert_eq!(fma_operand(0, 0, 64), 64);
    assert_eq!(fma_operand(2, 448, 4), (2 << 20) | (448 << 10) | 4);
    // offsets mask to 9 bits, the selector to 6
    assert_eq!(fma_operand(65, 512 + 8, 1024 + 2), (1 << 20) | (8 << 10) | 2);
}
