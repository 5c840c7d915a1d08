use gbcore::memory::Registers;
use gbcore::operations::{
    add_16, add_16_mixed, add_8, add_sp_e, and_8, bit, cp_8, dec_16, dec_8, inc_16, inc_8, or_8,
    res, rl, rlc, rr, rrc, sla, sra, srl, sub_8, swap, xor_8,
};

fn flags(r: &Registers) -> (bool, bool, bool, bool) {
    (r.f.z, r.f.n, r.f.h, r.f.cy)
}

#[test]
fn add8_without_carry_all_bytes() {
    let mut r = Registers::default();
    for a in 0..=255u8 {
        for b in 0..=255u8 {
            let v = add_8(a, b, &mut r, false);
            let sum = a as u16 + b as u16;
            assert_eq!(v as u16, sum % 256);
            assert_eq!(r.f.cy, sum >= 256);
            assert_eq!(r.f.h, (a & 0xF) + (b & 0xF) >= 0x10);
            assert_eq!(r.f.z, v == 0);
            assert!(!r.f.n);
        }
    }
}

#[test]
fn add8_with_carry_of_ff() {
    let mut r = Registers::default();
    assert_eq!(add_8(0x00, 0xFF, &mut r, true), 0x00);
    assert_eq!(flags(&r), (true, false, true, true));
}

#[test]
fn swap_twice_and_eight_rotations() {
    let mut r = Registers::default();
    for a in 0..=255u8 {
        let s = swap(a, &mut r);
        assert_eq!(swap(s, &mut r), a);
        let mut x = a;
        let mut y = a;
        for _ in 0..8 {
            x = rlc(x, &mut r, false);
            y = rrc(y, &mut r, false);
        }
        assert_eq!(x, a);
        assert_eq!(y, a);
    }
    assert_eq!(swap(0xAB, &mut r), 0xBA);
}

#[test]
fn set_then_res_gives_byte_back_when_bit_clear() {
    for a in 0..=255u8 {
        for b in 0..8u8 {
            if a & (1 << b) == 0 {
                assert_eq!(res(gbcore::operations::set(a, b), b), a);
            }
            assert_eq!(gbcore::operations::set(a, b) & (1 << b), 1 << b);
            assert_eq!(res(a, b) & (1 << b), 0);
        }
    }
    assert_eq!(gbcore::operations::set(0x00, 7), 0x80);
    assert_eq!(res(0xFF, 0), 0xFE);
}

#[test]
fn cp_matches_sub_flags() {
    let mut r1 = Registers::default();
    let mut r2 = Registers::default();
    for a in (0..=255u8).step_by(3) {
        for b in (0..=255u8).step_by(5) {
            r1.a = a;
            cp_8(a, b, &mut r1);
            sub_8(a, b, &mut r2, false);
            assert_eq!(r1.a, a);
            assert_eq!(flags(&r1), flags(&r2));
        }
    }
}

#[test]
fn sub8_with_borrow() {
    let mut r = Registers::default();
    assert_eq!(sub_8(0x10, 0x01, &mut r, true), 0x0E);
    assert_eq!(flags(&r), (false, true, true, false));
    assert_eq!(sub_8(0x00, 0x00, &mut r, true), 0xFF);
    assert_eq!(flags(&r), (false, true, true, true));
}

#[test]
fn logic_flags() {
    let mut r = Registers::default();
    assert_eq!(and_8(0xF0, 0x0F, &mut r), 0);
    assert_eq!(flags(&r), (true, false, true, false));
    assert_eq!(or_8(0xF0, 0x0F, &mut r), 0xFF);
    assert_eq!(flags(&r), (false, false, false, false));
    assert_eq!(xor_8(0x55, 0x55, &mut r), 0);
    assert_eq!(flags(&r), (true, false, false, false));
}

#[test]
fn inc_dec_keep_carry() {
    let mut r = Registers::default();
    r.f.cy = true;
    assert_eq!(inc_8(0x0F, &mut r), 0x10);
    assert_eq!(flags(&r), (false, false, true, true));
    assert_eq!(inc_8(0xFF, &mut r), 0x00);
    assert!(r.f.z && r.f.cy);
    assert_eq!(dec_8(0x10, &mut r), 0x0F);
    assert_eq!(flags(&r), (false, true, true, true));
    assert_eq!(dec_8(0x01, &mut r), 0);
    assert!(r.f.z);
    assert_eq!(inc_16(0xFFFF), 0);
    assert_eq!(dec_16(0), 0xFFFF);
}

#[test]
fn add16_keeps_zero_flag() {
    let mut r = Registers::default();
    r.f.z = true;
    assert_eq!(add_16(0x0FFF, 0x0001, &mut r), 0x1000);
    assert_eq!(flags(&r), (true, false, true, false));
    assert_eq!(add_16(0xFFFF, 0x0001, &mut r), 0x0000);
    assert_eq!(flags(&r), (true, false, true, true));
}

#[test]
fn signed_offsets() {
    let mut r = Registers::default();
    r.sp = 0x1000;
    add_sp_e(0xFF, &mut r);
    assert_eq!(r.sp, 0x0FFF);
    assert_eq!(flags(&r), (false, false, false, false));
    r.sp = 0x00FF;
    add_sp_e(0x01, &mut r);
    assert_eq!(r.sp, 0x0100);
    assert_eq!(flags(&r), (false, false, true, true));
    assert_eq!(add_16_mixed(0x0005, -6, &mut r), 0xFFFF);
    assert_eq!(add_16_mixed(0xFFF8, 8, &mut r), 0x0000);
    assert!(r.f.cy && r.f.h);
}

#[test]
fn rotates_and_shifts() {
    let mut r = Registers::default();
    assert_eq!(rlc(0x80, &mut r, false), 0x01);
    assert!(r.f.cy && !r.f.z);
    assert_eq!(rlc(0x00, &mut r, true), 0x00);
    assert!(!r.f.z);
    assert_eq!(rlc(0x00, &mut r, false), 0x00);
    assert!(r.f.z);
    r.f.cy = true;
    assert_eq!(rl(0x80, &mut r, false), 0x01);
    assert!(r.f.cy);
    r.f.cy = true;
    assert_eq!(rr(0x01, &mut r, false), 0x80);
    assert!(r.f.cy);
    assert_eq!(rrc(0x01, &mut r, false), 0x80);
    assert_eq!(sla(0x81, &mut r), 0x02);
    assert!(r.f.cy);
    assert_eq!(sra(0x81, &mut r), 0xC0);
    assert!(r.f.cy);
    assert_eq!(srl(0x81, &mut r), 0x40);
    assert!(r.f.cy);
    bit(0x08, 3, &mut r);
    assert!(!r.f.z && r.f.h && !r.f.n);
    bit(0x08, 2, &mut r);
    assert!(r.f.z);
}
