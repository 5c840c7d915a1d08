use vstd::prelude::*;

use crate::memory::{flag_bits, with_flags, RegisterFlags, Registers};

verus! {

/// One for a set carry, zero for a clear one.
pub open spec fn carry_int(c: bool) -> int {
    if c {
        1
    } else {
        0
    }
}

/// A flag set from its four bits.
pub open spec fn flags(z: bool, n: bool, h: bool, cy: bool) -> RegisterFlags {
    RegisterFlags { z, n, h, cy }
}

pub open spec fn add8_value(a: u8, b: u8, c: bool) -> u8 {
    ((a as int + b as int + carry_int(c)) % 256) as u8
}

pub open spec fn add8_flags(a: u8, b: u8, c: bool) -> RegisterFlags {
    flags(
        add8_value(a, b, c) == 0,
        false,
        a as int % 16 + b as int % 16 + carry_int(c) > 15,
        a as int + b as int + carry_int(c) > 255,
    )
}

pub open spec fn sub8_value(a: u8, b: u8, c: bool) -> u8 {
    ((a as int - b as int - carry_int(c) + 512) % 256) as u8
}

pub open spec fn sub8_flags(a: u8, b: u8, c: bool) -> RegisterFlags {
    flags(
        sub8_value(a, b, c) == 0,
        true,
        (a as int % 16) < b as int % 16 + carry_int(c),
        (a as int) < b as int + carry_int(c),
    )
}

/// The flags of a comparison, stated on its own terms.
pub open spec fn cp8_flags(a: u8, b: u8) -> RegisterFlags {
    flags(a == b, true, (a as int % 16) < (b as int % 16), a < b)
}

/// Flags of AND, OR and XOR: zero from the result, H set by AND only.
pub open spec fn logic_flags(result: u8, is_and: bool) -> RegisterFlags {
    flags(result == 0, false, is_and, false)
}

pub open spec fn add16_value(a: u16, b: u16) -> u16 {
    ((a as int + b as int) % 0x10000) as u16
}

pub open spec fn add16_flags(old: RegisterFlags, a: u16, b: u16) -> RegisterFlags {
    flags(old.z, false, a as int % 0x1000 + b as int % 0x1000 > 0xFFF, a as int + b as int > 0xFFFF)
}

/// The signed value of a byte read as a two's-complement offset.
pub open spec fn signed_byte(e: u8) -> int {
    if e < 128 {
        e as int
    } else {
        e as int - 256
    }
}

/// The byte that holds a signed offset in two's complement.
pub open spec fn byte_of_i8(b: i8) -> u8 {
    ((b as int + 256) % 256) as u8
}

pub open spec fn add_e_value(a: u16, e: u8) -> u16 {
    ((a as int + signed_byte(e) + 0x10000) % 0x10000) as u16
}

/// Flags of a signed-offset add to a 16-bit value: carries out of bit 3 and
/// bit 7 of the unsigned low-byte sum, whatever the sign.
pub open spec fn add_e_flags(a: u16, e: u8) -> RegisterFlags {
    flags(false, false, a as int % 16 + e as int % 16 > 15, a as int % 256 + e as int > 255)
}

pub open spec fn rlc_value(a: u8) -> u8 {
    ((a as int * 2) % 256 + a as int / 128) as u8
}

pub open spec fn rrc_value(a: u8) -> u8 {
    (a as int / 2 + (a as int % 2) * 128) as u8
}

pub open spec fn rl_value(a: u8, c: bool) -> u8 {
    ((a as int * 2) % 256 + carry_int(c)) as u8
}

pub open spec fn rr_value(a: u8, c: bool) -> u8 {
    (a as int / 2 + carry_int(c) * 128) as u8
}

/// Flags of a rotate or shift; the accumulator-only form forces Z to 0.
pub open spec fn shift_flags(result: u8, cy: bool, accumulator_form: bool) -> RegisterFlags {
    flags(!accumulator_form && result == 0, false, false, cy)
}

pub open spec fn sla_value(a: u8) -> u8 {
    ((a as int * 2) % 256) as u8
}

pub open spec fn sra_value(a: u8) -> u8 {
    (a as int / 2 + (a as int / 128) * 128) as u8
}

pub open spec fn srl_value(a: u8) -> u8 {
    (a as int / 2) as u8
}

pub open spec fn swap_value(a: u8) -> u8 {
    ((a as int % 16) * 16 + a as int / 16) as u8
}

/// Whether bit `b` of `a` is set.
pub open spec fn bit_is_set(a: u8, b: u8) -> bool {
    (a >> b) & 1u8 == 1u8
}

pub open spec fn set_value(a: u8, b: u8) -> u8 {
    a | (1u8 << b)
}

pub open spec fn res_value(a: u8, b: u8) -> u8 {
    a & !(1u8 << b)
}

/// `a + b + carry` modulo 256; Z, H and CY from the sum, N cleared.
pub fn add_8(a: u8, b: u8, m: &mut Registers, carry: bool) -> (r: u8)
    ensures
        r == add8_value(a, b, carry),
        *final(m) == with_flags(*old(m), add8_flags(a, b, carry)),
{
    let c: u16 = if carry {
        1
    } else {
        0
    };
    let sum: u16 = a as u16 + b as u16 + c;
    let low: u16 = (a % 16) as u16 + (b % 16) as u16 + c;
    let result = (sum % 256) as u8;
    m.f = RegisterFlags { z: result == 0, n: false, h: low > 15, cy: sum > 255 };
    result
}

/// 16-bit add: H from bit 11, CY from bit 15, N cleared, Z kept.
pub fn add_16(a: u16, b: u16, m: &mut Registers) -> (r: u16)
    ensures
        r == add16_value(a, b),
        *final(m) == with_flags(*old(m), add16_flags(old(m).f, a, b)),
{
    let sum: u32 = a as u32 + b as u32;
    let low: u32 = (a % 0x1000) as u32 + (b % 0x1000) as u32;
    m.f = RegisterFlags { z: m.f.z, n: false, h: low > 0xFFF, cy: sum > 0xFFFF };
    (sum % 0x10000) as u16
}

/// Adds a signed offset to a 16-bit value, wrapping; flags as for `add_sp_e`.
fn add_offset(a: u16, e: u8, m: &mut Registers) -> (r: u16)
    ensures
        r == add_e_value(a, e),
        *final(m) == with_flags(*old(m), add_e_flags(a, e)),
{
    let result: u16 = if e < 128 {
        ((a as u32 + e as u32) % 0x10000) as u16
    } else {
        ((a as u32 + 0x10000 - (256 - e as u32)) % 0x10000) as u16
    };
    m.f = RegisterFlags {
        z: false,
        n: false,
        h: a % 16 + (e % 16) as u16 > 15,
        cy: a % 256 + e as u16 > 255,
    };
    result
}

/// `a + b` for a signed `b`, as `LD HL, SP+e` computes it.
pub fn add_16_mixed(a: u16, b: i8, m: &mut Registers) -> (r: u16)
    ensures
        r == add_e_value(a, byte_of_i8(b)),
        r as int == (a as int + b as int + 0x10000) % 0x10000,
        *final(m) == with_flags(*old(m), add_e_flags(a, byte_of_i8(b))),
{
    let e: u8 = if b < 0 {
        (256 + b as i16) as u8
    } else {
        b as u8
    };
    add_offset(a, e, m)
}

/// `a - b - borrow` modulo 256; Z, H and CY from the difference, N set.
pub fn sub_8(a: u8, b: u8, m: &mut Registers, carry: bool) -> (r: u8)
    ensures
        r == sub8_value(a, b, carry),
        *final(m) == with_flags(*old(m), sub8_flags(a, b, carry)),
{
    let c: u8 = if carry {
        1
    } else {
        0
    };
    let result = ((a as u16 + 512 - b as u16 - c as u16) % 256) as u8;
    m.f = RegisterFlags {
        z: result == 0,
        n: true,
        h: (a % 16) < (b % 16) + c,
        cy: (a as u16) < b as u16 + c as u16,
    };
    result
}

pub fn and_8(a: u8, b: u8, m: &mut Registers) -> (r: u8)
    ensures
        r == a & b,
        *final(m) == with_flags(*old(m), logic_flags(r, true)),
{
    let result = a & b;
    m.f = RegisterFlags { z: result == 0, n: false, h: true, cy: false };
    result
}

pub fn or_8(a: u8, b: u8, m: &mut Registers) -> (r: u8)
    ensures
        r == a | b,
        *final(m) == with_flags(*old(m), logic_flags(r, false)),
{
    let result = a | b;
    m.f = RegisterFlags { z: result == 0, n: false, h: false, cy: false };
    result
}

pub fn xor_8(a: u8, b: u8, m: &mut Registers) -> (r: u8)
    ensures
        r == a ^ b,
        *final(m) == with_flags(*old(m), logic_flags(r, false)),
{
    let result = a ^ b;
    m.f = RegisterFlags { z: result == 0, n: false, h: false, cy: false };
    result
}

/// Compares `a` with `b`: the flags of `a - b`, the difference discarded.
pub fn cp_8(a: u8, b: u8, m: &mut Registers)
    ensures
        *final(m) == with_flags(*old(m), cp8_flags(a, b)),
{
    m.f = RegisterFlags { z: a == b, n: true, h: (a % 16) < (b % 16), cy: a < b };
}

/// `a + 1` modulo 256; Z, H from the low nibble, N cleared, CY kept.
pub fn inc_8(a: u8, m: &mut Registers) -> (r: u8)
    ensures
        r as int == (a as int + 1) % 256,
        *final(m) == with_flags(*old(m), flags(r == 0, false, a % 16 == 15, old(m).f.cy)),
{
    let result: u8 = if a == 255 {
        0
    } else {
        a + 1
    };
    m.f = RegisterFlags { z: result == 0, n: false, h: a % 16 == 15, cy: m.f.cy };
    result
}

pub fn inc_16(a: u16) -> (r: u16)
    ensures
        r as int == (a as int + 1) % 0x10000,
{
    if a == 0xFFFF {
        0
    } else {
        a + 1
    }
}

pub fn dec_16(a: u16) -> (r: u16)
    ensures
        r as int == (a as int + 0xFFFF) % 0x10000,
{
    if a == 0 {
        0xFFFF
    } else {
        a - 1
    }
}

/// `a - 1` modulo 256; Z, H from a borrow out of the low nibble, N set, CY kept.
pub fn dec_8(a: u8, m: &mut Registers) -> (r: u8)
    ensures
        r as int == (a as int + 255) % 256,
        *final(m) == with_flags(*old(m), flags(r == 0, true, a % 16 == 0, old(m).f.cy)),
{
    let result: u8 = if a == 0 {
        255
    } else {
        a - 1
    };
    m.f = RegisterFlags { z: result == 0, n: true, h: a % 16 == 0, cy: m.f.cy };
    result
}

/// Adds the signed offset `e` to SP; Z and N cleared, H and CY from the
/// unsigned low-byte sum.
pub fn add_sp_e(e: u8, m: &mut Registers)
    ensures
        final(m).sp == add_e_value(old(m).sp, e),
        final(m).f == add_e_flags(old(m).sp, e),
        final(m).a == old(m).a && final(m).pc == old(m).pc,
        final(m).bc == old(m).bc && final(m).de == old(m).de && final(m).hl == old(m).hl,
{
    let sp = m.sp;
    let result = add_offset(sp, e, m);
    m.sp = result;
}

pub fn rlc(a: u8, m: &mut Registers, rlca: bool) -> (r: u8)
    ensures
        r == rlc_value(a),
        *final(m) == with_flags(*old(m), shift_flags(r, a >= 128, rlca)),
{
    let result = ((a as u16 * 2) % 256) as u8 + a / 128;
    m.f = RegisterFlags { z: !rlca && result == 0, n: false, h: false, cy: a >= 128 };
    result
}

pub fn rrc(a: u8, m: &mut Registers, rrca: bool) -> (r: u8)
    ensures
        r == rrc_value(a),
        *final(m) == with_flags(*old(m), shift_flags(r, a % 2 == 1, rrca)),
{
    let result = a / 2 + (a % 2) * 128;
    m.f = RegisterFlags { z: !rrca && result == 0, n: false, h: false, cy: a % 2 == 1 };
    result
}

/// Rotates left through the carry.
pub fn rl(a: u8, m: &mut Registers, rla: bool) -> (r: u8)
    ensures
        r == rl_value(a, old(m).f.cy),
        *final(m) == with_flags(*old(m), shift_flags(r, a >= 128, rla)),
{
    let c: u8 = if m.f.cy {
        1
    } else {
        0
    };
    let result = ((a as u16 * 2) % 256) as u8 + c;
    m.f = RegisterFlags { z: !rla && result == 0, n: false, h: false, cy: a >= 128 };
    result
}

/// Rotates right through the carry.
pub fn rr(a: u8, m: &mut Registers, rra: bool) -> (r: u8)
    ensures
        r == rr_value(a, old(m).f.cy),
        *final(m) == with_flags(*old(m), shift_flags(r, a % 2 == 1, rra)),
{
    let c: u8 = if m.f.cy {
        128
    } else {
        0
    };
    let result = a / 2 + c;
    m.f = RegisterFlags { z: !rra && result == 0, n: false, h: false, cy: a % 2 == 1 };
    result
}

pub fn sla(a: u8, m: &mut Registers) -> (r: u8)
    ensures
        r == sla_value(a),
        *final(m) == with_flags(*old(m), shift_flags(r, a >= 128, false)),
{
    let result = ((a as u16 * 2) % 256) as u8;
    m.f = RegisterFlags { z: result == 0, n: false, h: false, cy: a >= 128 };
    result
}

/// Arithmetic shift right: bit 7 is kept.
pub fn sra(a: u8, m: &mut Registers) -> (r: u8)
    ensures
        r == sra_value(a),
        *final(m) == with_flags(*old(m), shift_flags(r, a % 2 == 1, false)),
{
    let result = a / 2 + (a / 128) * 128;
    m.f = RegisterFlags { z: result == 0, n: false, h: false, cy: a % 2 == 1 };
    result
}

/// Logical shift right: bit 7 becomes 0.
pub fn srl(a: u8, m: &mut Registers) -> (r: u8)
    ensures
        r == srl_value(a),
        *final(m) == with_flags(*old(m), shift_flags(r, a % 2 == 1, false)),
{
    let result = a / 2;
    m.f = RegisterFlags { z: result == 0, n: false, h: false, cy: a % 2 == 1 };
    result
}

/// Exchanges the two nibbles.
pub fn swap(a: u8, m: &mut Registers) -> (r: u8)
    ensures
        r == swap_value(a),
        *final(m) == with_flags(*old(m), flags(r == 0, false, false, false)),
{
    let result = (a % 16) * 16 + a / 16;
    m.f = RegisterFlags { z: result == 0, n: false, h: false, cy: false };
    result
}

/// Tests bit `b` of `a`: Z set when the bit is clear, N cleared, H set.
pub fn bit(a: u8, b: u8, m: &mut Registers)
    requires
        b < 8,
    ensures
        *final(m) == with_flags(*old(m), flags(!bit_is_set(a, b), false, true, old(m).f.cy)),
{
    let set = (a >> b) & 1 == 1;
    m.f = RegisterFlags { z: !set, n: false, h: true, cy: m.f.cy };
}

/// `a` with bit `b` set.
pub fn set(a: u8, b: u8) -> (r: u8)
    requires
        b < 8,
    ensures
        r == set_value(a, b),
        bit_is_set(r, b),
{
    let r = a | (1u8 << b);
    assert(bit_is_set(a | (1u8 << b), b)) by (bit_vector)
        requires
            b < 8,
    ;
    r
}

/// `a` with bit `b` cleared.
pub fn res(a: u8, b: u8) -> (r: u8)
    requires
        b < 8,
    ensures
        r == res_value(a, b),
        !bit_is_set(r, b),
{
    let r = a & !(1u8 << b);
    assert(!bit_is_set(a & !(1u8 << b), b)) by (bit_vector)
        requires
            b < 8,
    ;
    r
}

/// Adding without carry gives the sum modulo 256, sets CY exactly when the
/// sum reaches 256, H exactly when the low nibbles sum to 0x10 or more, Z
/// exactly when the result is zero, and clears N.
pub proof fn lemma_add8_without_carry(a: u8, b: u8)
    ensures
        add8_value(a, b, false) as int == (a as int + b as int) % 256,
        add8_flags(a, b, false).cy <==> a as int + b as int >= 256,
        add8_flags(a, b, false).h <==> (a & 0xF) as int + (b & 0xF) as int >= 0x10,
        add8_flags(a, b, false).z <==> add8_value(a, b, false) == 0,
        !add8_flags(a, b, false).n,
{
    assert(a & 0xF == a % 16) by (bit_vector);
    assert(b & 0xF == b % 16) by (bit_vector);
}

/// Swapping nibbles twice gives the byte back.
pub proof fn lemma_swap_twice(a: u8)
    ensures
        swap_value(swap_value(a)) == a,
{
}

/// Eight left rotations give the byte back.
pub proof fn lemma_rlc_eight_times(a: u8)
    ensures
        rlc_value(rlc_value(rlc_value(rlc_value(rlc_value(rlc_value(rlc_value(rlc_value(a))))))))
            == a,
{
    assert(rlc_value(rlc_value(rlc_value(rlc_value(rlc_value(rlc_value(rlc_value(rlc_value(a))))))))
        == a) by (bit_vector);
}

/// Eight right rotations give the byte back.
pub proof fn lemma_rrc_eight_times(a: u8)
    ensures
        rrc_value(rrc_value(rrc_value(rrc_value(rrc_value(rrc_value(rrc_value(rrc_value(a))))))))
            == a,
{
    assert(rrc_value(rrc_value(rrc_value(rrc_value(rrc_value(rrc_value(rrc_value(rrc_value(a))))))))
        == a) by (bit_vector);
}

/// Setting a clear bit and then clearing it again gives the byte back.
pub proof fn lemma_set_then_res(a: u8, b: u8)
    requires
        b < 8,
        !bit_is_set(a, b),
    ensures
        res_value(set_value(a, b), b) == a,
{
    assert(res_value(set_value(a, b), b) == a) by (bit_vector)
        requires
            b < 8,
            !bit_is_set(a, b),
    ;
}

/// A comparison sets the flags exactly as a subtraction without borrow does.
pub proof fn lemma_cp_flags_are_sub_flags(a: u8, b: u8)
    ensures
        cp8_flags(a, b) == sub8_flags(a, b, false),
{
}

/// The flag byte never has a bit of its low nibble set.
pub proof fn lemma_flag_bits_low_nibble(f: RegisterFlags)
    ensures
        flag_bits(f) % 16 == 0,
{
}

} // verus!
