use gbcore::memory::{u16_to_u8s, u8s_to_u16, RegisterFlags, RegisterPair, Registers};

#[test]
fn register_pair_uinc_16_1() {
    let mut r = RegisterPair::default();
    r.s16(0);
    r.uinc16();

    assert_eq!(1, r.r16())
}

#[test]
fn register_pair_uinc_16_lower_overflow() {
    let mut r = RegisterPair::default();
    r.s16(0x00FF);
    r.uinc16();

    assert_eq!(0x0100, r.r16())
}

#[test]
fn register_pair_uinc_16_total_overflow() {
    let mut r = RegisterPair::default();
    r.s16(0xFFFF);
    r.uinc16();

    assert_eq!(0, r.r16())
}

#[test]
fn register_pair_udec_16_1() {
    let mut r = RegisterPair::default();
    r.s16(1);
    r.udec16();

    assert_eq!(0, r.r16())
}

#[test]
fn register_pair_udec_16_half_underflow() {
    let mut r = RegisterPair::default();
    r.s16(0x0100);
    r.udec16();

    assert_eq!(0x00FF, r.r16())
}

#[test]
fn register_pair_udec_16_total_underflow() {
    let mut r = RegisterPair::default();
    r.s16(0);
    r.udec16();

    assert_eq!(0xFFFF, r.r16())
}

#[test]
fn pair_stores_high_byte_first() {
    let mut r = RegisterPair::default();
    r.s16(0xBEEF);
    assert_eq!(r.ind, (0xBE, 0xEF));
    assert_eq!(u8s_to_u16(0x12, 0x34), 0x1234);
    assert_eq!(u16_to_u8s(0xABCD), (0xAB, 0xCD));
}

#[test]
fn flag_byte_drops_low_nibble() {
    let f = RegisterFlags::from_bits_truncate(0xFF);
    assert!(f.z && f.n && f.h && f.cy);
    assert_eq!(f.bits(), 0xF0);
    let g = RegisterFlags::from_bits_truncate(0x5A);
    assert_eq!(g.bits(), 0x50);
    let mut r = Registers::default();
    r.set_flags_unchecked(0x9F);
    assert_eq!(r.f.bits(), 0x90);
}
