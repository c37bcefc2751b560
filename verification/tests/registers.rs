use gioco_ragazzo::cpu::{OpcodeDecoder, Registers};

#[test]
fn registers_start_with_boot_values() {
    let r = Registers::new();
    assert_eq!((r.a, r.f, r.b, r.c, r.d, r.e, r.h, r.l), (0x01, 0xB0, 0x00, 0x13, 0x00, 0xD8, 0x01, 0x4D));
    assert_eq!(r.get_af(), 0x01B0);
    assert_eq!(r.get_bc(), 0x0013);
    assert_eq!(r.get_de(), 0x00D8);
    assert_eq!(r.get_hl(), 0x014D);
}

#[test]
fn register_pairs_read_back_what_was_set() {
    let mut r = Registers::new();
    r.set_bc(0xABCD);
    assert_eq!((r.b, r.c), (0xAB, 0xCD));
    assert_eq!(r.get_bc(), 0xABCD);
    r.set_de(0x1234);
    assert_eq!((r.d, r.e), (0x12, 0x34));
    assert_eq!(r.get_de(), 0x1234);
    r.set_hl(0xFF00);
    assert_eq!((r.h, r.l), (0xFF, 0x00));
    assert_eq!(r.get_hl(), 0xFF00);
}

#[test]
fn af_keeps_low_flag_bits_zero() {
    let mut r = Registers::new();
    r.set_af(0x12FF);
    assert_eq!(r.a, 0x12);
    assert_eq!(r.f, 0xF0);
    assert_eq!(r.get_af(), 0x12F0);
}

#[test]
fn flags_read_back_and_leave_the_others() {
    let mut r = Registers::new();
    r.f = 0x00;
    r.set_zero_flag(true);
    assert_eq!(r.f, 0x80);
    assert!(r.get_zero_flag());
    r.set_sub_flag(true);
    assert_eq!(r.f, 0xC0);
    assert!(r.get_sub_flag());
    r.set_half_carry_flag(true);
    assert_eq!(r.f, 0xE0);
    assert!(r.get_half_carry_flag());
    r.set_carry_flag(true);
    assert_eq!(r.f, 0xF0);
    assert!(r.get_carry_flag());
    r.set_sub_flag(false);
    assert_eq!(r.f, 0xB0);
    assert!(!r.get_sub_flag());
    assert!(r.get_zero_flag() && r.get_half_carry_flag() && r.get_carry_flag());
    r.set_zero_flag(false);
    r.set_half_carry_flag(false);
    r.set_carry_flag(false);
    assert_eq!(r.f, 0x00);
}

#[test]
fn opcode_fields_are_split_in_octal() {
    // 0xCB = 11 001 011
    assert_eq!(OpcodeDecoder::get_x(0xCB), 3);
    assert_eq!(OpcodeDecoder::get_y(0xCB), 1);
    assert_eq!(OpcodeDecoder::get_z(0xCB), 3);
    // 0x76 (HALT) = 01 110 110
    assert_eq!(OpcodeDecoder::get_x(0x76), 1);
    assert_eq!(OpcodeDecoder::get_y(0x76), 6);
    assert_eq!(OpcodeDecoder::get_z(0x76), 6);
    assert_eq!(OpcodeDecoder::get_x(0x00), 0);
    assert_eq!(OpcodeDecoder::get_z(0xFF), 7);
}
