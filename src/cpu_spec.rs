use vstd::prelude::*;

use crate::basic_memory::{prog_write, readable, writable, Machine};
use crate::memory::{flag_bits, flags_of, pair_of, with_flags, word, MemorySharedData, RegisterFlags, Registers};
use crate::operations::{
    add16_flags, add16_value, add8_flags, add8_value, add_e_flags, add_e_value, bit_is_set,
    cp8_flags, flags, logic_flags, res_value, rl_value, rlc_value, rr_value, rrc_value, set_value,
    shift_flags, signed_byte, sla_value, sra_value, srl_value, sub8_flags, sub8_value, swap_value,
};

verus! {

/// Why an instruction could not be carried out.
#[derive(Clone, Copy, Debug, PartialEq, Eq, Structural)]
pub enum CpuError {
    /// A read or write of the absent cartridge RAM, or a read of the
    /// prohibited range, at this address.
    BusFault(u16),
    /// HALT or STOP, which this core does not model.
    Unimplemented(u8),
    /// An opcode that the instruction set leaves undefined.
    InvalidInstruction(u8),
    /// A relative jump whose target leaves the address space; the address of
    /// the instruction that follows it.
    JumpOutOfRange(u16),
}

pub open spec fn wrap16(v: int) -> u16 {
    (v % 0x10000) as u16
}

pub open spec fn with_regs(s: Machine, r: Registers) -> Machine {
    Machine { shared: MemorySharedData { r: r, ..s.shared }, mem: s.mem }
}

pub open spec fn with_pc(s: Machine, pc: u16) -> Machine {
    with_regs(s, Registers { pc: pc, ..s.shared.r })
}

pub open spec fn with_sp(s: Machine, sp: u16) -> Machine {
    with_regs(s, Registers { sp: sp, ..s.shared.r })
}

pub open spec fn with_a(s: Machine, a: u8) -> Machine {
    with_regs(s, Registers { a: a, ..s.shared.r })
}

pub open spec fn with_ime(s: Machine, ime: bool) -> Machine {
    Machine { shared: MemorySharedData { ime: ime, ..s.shared }, mem: s.mem }
}

/// A read by the program.
pub open spec fn rd(s: Machine, addr: u16) -> Result<u8, CpuError> {
    if readable(addr) {
        Ok(s.mem[addr as int])
    } else {
        Err(CpuError::BusFault(addr))
    }
}

/// A write by the program.
pub open spec fn wr(s: Machine, addr: u16, val: u8) -> Result<Machine, CpuError> {
    if writable(addr) {
        Ok(prog_write(s, addr, val))
    } else {
        Err(CpuError::BusFault(addr))
    }
}

/// Reads the byte at PC and advances PC.
pub open spec fn fetch8(s: Machine) -> Result<(u8, Machine), CpuError> {
    match rd(s, s.shared.r.pc) {
        Ok(v) => Ok((v, with_pc(s, wrap16(s.shared.r.pc + 1)))),
        Err(e) => Err(e),
    }
}

/// Reads a little-endian 16-bit immediate at PC and advances PC past it.
pub open spec fn fetch16(s: Machine) -> Result<(u16, Machine), CpuError> {
    match fetch8(s) {
        Err(e) => Err(e),
        Ok((lo, s1)) => match fetch8(s1) {
            Err(e) => Err(e),
            Ok((hi, s2)) => Ok((word(hi, lo), s2)),
        },
    }
}

/// The 8-bit register of slot `code`: B, C, D, E, H, L, -, A.
pub open spec fn reg8(r: Registers, code: u8) -> u8 {
    if code == 0 {
        r.bc.ind.0
    } else if code == 1 {
        r.bc.ind.1
    } else if code == 2 {
        r.de.ind.0
    } else if code == 3 {
        r.de.ind.1
    } else if code == 4 {
        r.hl.ind.0
    } else if code == 5 {
        r.hl.ind.1
    } else {
        r.a
    }
}

pub open spec fn set_reg8(r: Registers, code: u8, v: u8) -> Registers {
    if code == 0 {
        Registers { bc: pair_with_high(r.bc.ind, v), ..r }
    } else if code == 1 {
        Registers { bc: pair_with_low(r.bc.ind, v), ..r }
    } else if code == 2 {
        Registers { de: pair_with_high(r.de.ind, v), ..r }
    } else if code == 3 {
        Registers { de: pair_with_low(r.de.ind, v), ..r }
    } else if code == 4 {
        Registers { hl: pair_with_high(r.hl.ind, v), ..r }
    } else if code == 5 {
        Registers { hl: pair_with_low(r.hl.ind, v), ..r }
    } else {
        Registers { a: v, ..r }
    }
}

pub open spec fn pair_with_high(ind: (u8, u8), v: u8) -> crate::memory::RegisterPair {
    crate::memory::RegisterPair { ind: (v, ind.1) }
}

pub open spec fn pair_with_low(ind: (u8, u8), v: u8) -> crate::memory::RegisterPair {
    crate::memory::RegisterPair { ind: (ind.0, v) }
}

/// The operand of slot `code`: a register, or the byte at HL for slot 6.
pub open spec fn operand(s: Machine, code: u8) -> Result<u8, CpuError> {
    if code == 6 {
        rd(s, s.shared.r.hl.view16())
    } else {
        Ok(reg8(s.shared.r, code))
    }
}

pub open spec fn set_operand(s: Machine, code: u8, v: u8) -> Result<Machine, CpuError> {
    if code == 6 {
        wr(s, s.shared.r.hl.view16(), v)
    } else {
        Ok(with_regs(s, set_reg8(s.shared.r, code, v)))
    }
}

/// The 16-bit register of slot `code`: BC, DE, HL, SP.
pub open spec fn pair16(r: Registers, code: u8) -> u16 {
    if code == 0 {
        r.bc.view16()
    } else if code == 1 {
        r.de.view16()
    } else if code == 2 {
        r.hl.view16()
    } else {
        r.sp
    }
}

pub open spec fn set_pair16(r: Registers, code: u8, v: u16) -> Registers {
    if code == 0 {
        Registers { bc: pair_of(v), ..r }
    } else if code == 1 {
        Registers { de: pair_of(v), ..r }
    } else if code == 2 {
        Registers { hl: pair_of(v), ..r }
    } else {
        Registers { sp: v, ..r }
    }
}

/// The 16-bit register of stack slot `code`: BC, DE, HL, AF.
pub open spec fn stack_pair(r: Registers, code: u8) -> u16 {
    if code == 3 {
        word(r.a, flag_bits(r.f))
    } else {
        pair16(r, code)
    }
}

pub open spec fn set_stack_pair(r: Registers, code: u8, v: u16) -> Registers {
    if code == 3 {
        Registers { a: (v as int / 256) as u8, f: flags_of((v as int % 256) as u8), ..r }
    } else {
        set_pair16(r, code, v)
    }
}

/// Branch condition `cc`: NZ, Z, NC, C.
pub open spec fn condition(f: RegisterFlags, cc: u8) -> bool {
    if cc == 0 {
        !f.z
    } else if cc == 1 {
        f.z
    } else if cc == 2 {
        !f.cy
    } else {
        f.cy
    }
}

/// Pushes a 16-bit value: high byte at SP-1, low byte at SP-2, SP lowered by 2.
pub open spec fn push16(s: Machine, v: u16) -> Result<Machine, CpuError> {
    let sp = s.shared.r.sp;
    let a1 = wrap16(sp + 0xFFFF);
    let a2 = wrap16(sp + 0xFFFE);
    match wr(s, a1, (v as int / 256) as u8) {
        Err(e) => Err(e),
        Ok(s1) => match wr(s1, a2, (v as int % 256) as u8) {
            Err(e) => Err(e),
            Ok(s2) => Ok(with_sp(s2, a2)),
        },
    }
}

/// Pops a 16-bit value: low byte at SP, high byte at SP+1, SP raised by 2.
pub open spec fn pop16(s: Machine) -> Result<(u16, Machine), CpuError> {
    let sp = s.shared.r.sp;
    match rd(s, sp) {
        Err(e) => Err(e),
        Ok(lo) => match rd(s, wrap16(sp + 1)) {
            Err(e) => Err(e),
            Ok(hi) => Ok((word(hi, lo), with_sp(s, wrap16(sp + 2)))),
        },
    }
}

/// The register file after ALU operation `y` of A with `v`: ADD, ADC, SUB,
/// SBC, AND, XOR, OR, CP.
pub open spec fn alu_regs(r: Registers, y: u8, v: u8) -> Registers {
    let c = r.f.cy;
    if y == 0 {
        Registers { a: add8_value(r.a, v, false), f: add8_flags(r.a, v, false), ..r }
    } else if y == 1 {
        Registers { a: add8_value(r.a, v, c), f: add8_flags(r.a, v, c), ..r }
    } else if y == 2 {
        Registers { a: sub8_value(r.a, v, false), f: sub8_flags(r.a, v, false), ..r }
    } else if y == 3 {
        Registers { a: sub8_value(r.a, v, c), f: sub8_flags(r.a, v, c), ..r }
    } else if y == 4 {
        Registers { a: r.a & v, f: logic_flags(r.a & v, true), ..r }
    } else if y == 5 {
        Registers { a: r.a ^ v, f: logic_flags(r.a ^ v, false), ..r }
    } else if y == 6 {
        Registers { a: r.a | v, f: logic_flags(r.a | v, false), ..r }
    } else {
        with_flags(r, cp8_flags(r.a, v))
    }
}

/// Rotate or shift `y` of the prefixed table applied to `v`: RLC, RRC, RL,
/// RR, SLA, SRA, SWAP, SRL; the result and the new flags.
pub open spec fn cb_shift(f: RegisterFlags, y: u8, v: u8) -> (u8, RegisterFlags) {
    if y == 0 {
        (rlc_value(v), shift_flags(rlc_value(v), v >= 128, false))
    } else if y == 1 {
        (rrc_value(v), shift_flags(rrc_value(v), v % 2 == 1, false))
    } else if y == 2 {
        (rl_value(v, f.cy), shift_flags(rl_value(v, f.cy), v >= 128, false))
    } else if y == 3 {
        (rr_value(v, f.cy), shift_flags(rr_value(v, f.cy), v % 2 == 1, false))
    } else if y == 4 {
        (sla_value(v), shift_flags(sla_value(v), v >= 128, false))
    } else if y == 5 {
        (sra_value(v), shift_flags(sra_value(v), v % 2 == 1, false))
    } else if y == 6 {
        (swap_value(v), flags(swap_value(v) == 0, false, false, false))
    } else {
        (srl_value(v), shift_flags(srl_value(v), v % 2 == 1, false))
    }
}

/// Decimal adjust of A after a BCD addition or subtraction.
pub open spec fn daa_regs(r: Registers) -> Registers {
    if !r.f.n {
        let adjust_high = r.f.cy || r.a > 0x99;
        let a1 = if adjust_high {
            ((r.a + 0x60) % 256) as u8
        } else {
            r.a
        };
        let a2 = if r.f.h || a1 % 16 > 9 {
            ((a1 + 6) % 256) as u8
        } else {
            a1
        };
        Registers { a: a2, f: flags(a2 == 0, r.f.n, false, r.f.cy || adjust_high), ..r }
    } else {
        let a1 = if r.f.cy {
            ((r.a + 256 - 0x60) % 256) as u8
        } else {
            r.a
        };
        let a2 = if r.f.h {
            ((a1 + 256 - 6) % 256) as u8
        } else {
            a1
        };
        Registers { a: a2, f: flags(a2 == 0, r.f.n, false, r.f.cy), ..r }
    }
}

/// The accumulator-only rotates, DAA, CPL, SCF and CCF (opcodes 00yyy111).
pub open spec fn misc_regs(r: Registers, y: u8) -> Registers {
    let a = r.a;
    if y == 0 {
        Registers { a: rlc_value(a), f: shift_flags(rlc_value(a), a >= 128, true), ..r }
    } else if y == 1 {
        Registers { a: rrc_value(a), f: shift_flags(rrc_value(a), a % 2 == 1, true), ..r }
    } else if y == 2 {
        Registers { a: rl_value(a, r.f.cy), f: shift_flags(rl_value(a, r.f.cy), a >= 128, true), ..r }
    } else if y == 3 {
        Registers {
            a: rr_value(a, r.f.cy),
            f: shift_flags(rr_value(a, r.f.cy), a % 2 == 1, true),
            ..r
        }
    } else if y == 4 {
        daa_regs(r)
    } else if y == 5 {
        Registers { a: (255 - a) as u8, f: flags(r.f.z, true, true, r.f.cy), ..r }
    } else if y == 6 {
        with_flags(r, flags(r.f.z, false, false, true))
    } else {
        with_flags(r, flags(r.f.z, false, false, !r.f.cy))
    }
}

/// A relative jump on `taken`, its offset at PC.
pub open spec fn jr(s: Machine, taken: bool) -> Result<(Machine, u64), CpuError> {
    match fetch8(s) {
        Err(e) => Err(e),
        Ok((e, s1)) => if taken {
            let target = s1.shared.r.pc + signed_byte(e);
            if 0 <= target < 0x10000 {
                Ok((with_pc(s1, target as u16), 3))
            } else {
                Err(CpuError::JumpOutOfRange(s1.shared.r.pc))
            }
        } else {
            Ok((s1, 2))
        },
    }
}

/// The address that LD A,(rr) and LD (rr),A name: BC, DE, HL, HL.
pub open spec fn indirect_addr(r: Registers, p: u8) -> u16 {
    if p == 0 {
        r.bc.view16()
    } else if p == 1 {
        r.de.view16()
    } else {
        r.hl.view16()
    }
}

/// HL after LD (HL+) or LD (HL-); other registers unchanged.
pub open spec fn hl_step(r: Registers, p: u8) -> Registers {
    if p == 2 {
        Registers { hl: pair_of(wrap16(r.hl.view16() + 1)), ..r }
    } else if p == 3 {
        Registers { hl: pair_of(wrap16(r.hl.view16() + 0xFFFF)), ..r }
    } else {
        r
    }
}

/// Opcodes 00yyyzzz for z in 0..4.
#[verifier::opaque]
pub open spec fn exec_x0_low(s: Machine, y: u8, z: u8) -> Result<(Machine, u64), CpuError> {
    let r = s.shared.r;
    let p = y / 2;
    if z == 0 {
        if y == 0 {
            Ok((s, 1))
        } else if y == 1 {
            match fetch16(s) {
                Err(e) => Err(e),
                Ok((nn, s1)) => match wr(s1, nn, (r.sp as int % 256) as u8) {
                    Err(e) => Err(e),
                    Ok(s2) => match wr(s2, wrap16(nn + 1), (r.sp as int / 256) as u8) {
                        Err(e) => Err(e),
                        Ok(s3) => Ok((s3, 5)),
                    },
                },
            }
        } else if y == 2 {
            Err(CpuError::Unimplemented(0x10))
        } else if y == 3 {
            jr(s, true)
        } else {
            jr(s, condition(r.f, (y - 4) as u8))
        }
    } else if z == 1 {
        if y % 2 == 0 {
            match fetch16(s) {
                Err(e) => Err(e),
                Ok((nn, s1)) => Ok((with_regs(s1, set_pair16(s1.shared.r, p, nn)), 3)),
            }
        } else {
            let hl = r.hl.view16();
            let v = pair16(r, p);
            Ok(
                (
                    with_regs(s, Registers { hl: pair_of(add16_value(hl, v)), f: add16_flags(r.f, hl, v), ..r }),
                    2,
                ),
            )
        }
    } else if z == 2 {
        let addr = indirect_addr(r, p);
        if y % 2 == 0 {
            match wr(s, addr, r.a) {
                Err(e) => Err(e),
                Ok(s1) => Ok((with_regs(s1, hl_step(s1.shared.r, p)), 2)),
            }
        } else {
            match rd(s, addr) {
                Err(e) => Err(e),
                Ok(v) => Ok((with_regs(s, hl_step(Registers { a: v, ..r }, p)), 2)),
            }
        }
    } else {
        let v = pair16(r, p);
        if y % 2 == 0 {
            Ok((with_regs(s, set_pair16(r, p, wrap16(v + 1))), 2))
        } else {
            Ok((with_regs(s, set_pair16(r, p, wrap16(v + 0xFFFF))), 2))
        }
    }
}

/// Opcodes 00yyyzzz for z in 4..8.
#[verifier::opaque]
pub open spec fn exec_x0_high(s: Machine, y: u8, z: u8) -> Result<(Machine, u64), CpuError> {
    let r = s.shared.r;
    if z == 4 || z == 5 {
        match operand(s, y) {
            Err(e) => Err(e),
            Ok(v) => {
                let nv = if z == 4 {
                    ((v + 1) % 256) as u8
                } else {
                    ((v + 255) % 256) as u8
                };
                let f = if z == 4 {
                    flags(nv == 0, false, v % 16 == 15, r.f.cy)
                } else {
                    flags(nv == 0, true, v % 16 == 0, r.f.cy)
                };
                match set_operand(with_regs(s, with_flags(r, f)), y, nv) {
                    Err(e) => Err(e),
                    Ok(s1) => Ok((s1, if y == 6 { 3 } else { 1 })),
                }
            },
        }
    } else if z == 6 {
        match fetch8(s) {
            Err(e) => Err(e),
            Ok((n, s1)) => match set_operand(s1, y, n) {
                Err(e) => Err(e),
                Ok(s2) => Ok((s2, if y == 6 { 3 } else { 2 })),
            },
        }
    } else {
        Ok((with_regs(s, misc_regs(r, y)), 1))
    }
}

/// LD r, r' (opcodes 01yyyzzz but HALT).
#[verifier::opaque]
pub open spec fn exec_ld_r_r(s: Machine, y: u8, z: u8) -> Result<(Machine, u64), CpuError> {
    match operand(s, z) {
        Err(e) => Err(e),
        Ok(v) => match set_operand(s, y, v) {
            Err(e) => Err(e),
            Ok(s1) => Ok((s1, if y == 6 || z == 6 { 2 } else { 1 })),
        },
    }
}

/// The prefixed table: the byte after 0xCB at PC selects the operation.
#[verifier::opaque]
pub open spec fn exec_cb(s: Machine) -> Result<(Machine, u64), CpuError> {
    match fetch8(s) {
        Err(e) => Err(e),
        Ok((op, s1)) => {
            let x = op / 64;
            let y = (op / 8) % 8;
            let z = op % 8;
            let r = s1.shared.r;
            match operand(s1, z) {
                Err(e) => Err(e),
                Ok(v) => if x == 1 {
                    Ok(
                        (
                            with_regs(s1, with_flags(r, flags(!bit_is_set(v, y), false, true, r.f.cy))),
                            if z == 6 { 3 } else { 2 },
                        ),
                    )
                } else {
                    let s2 = if x == 0 {
                        with_regs(s1, with_flags(r, cb_shift(r.f, y, v).1))
                    } else {
                        s1
                    };
                    let nv = if x == 0 {
                        cb_shift(r.f, y, v).0
                    } else if x == 2 {
                        res_value(v, y)
                    } else {
                        set_value(v, y)
                    };
                    match set_operand(s2, z, nv) {
                        Err(e) => Err(e),
                        Ok(s3) => Ok((s3, if z == 6 { 4 } else { 2 })),
                    }
                },
            }
        },
    }
}

/// Returns: pops PC.
pub open spec fn ret(s: Machine) -> Result<Machine, CpuError> {
    match pop16(s) {
        Err(e) => Err(e),
        Ok((v, s1)) => Ok(with_pc(s1, v)),
    }
}

/// Calls: pushes PC and jumps.
pub open spec fn call(s: Machine, target: u16) -> Result<Machine, CpuError> {
    match push16(s, s.shared.r.pc) {
        Err(e) => Err(e),
        Ok(s1) => Ok(with_pc(s1, target)),
    }
}

/// Opcodes 11yyyzzz for z in 0..4.
#[verifier::opaque]
pub open spec fn exec_x3_low(s: Machine, op: u8, y: u8, z: u8) -> Result<(Machine, u64), CpuError> {
    let r = s.shared.r;
    let p = y / 2;
    if z == 0 {
        if y < 4 {
            if condition(r.f, y) {
                match ret(s) {
                    Err(e) => Err(e),
                    Ok(s1) => Ok((s1, 5)),
                }
            } else {
                Ok((s, 2))
            }
        } else {
            match fetch8(s) {
                Err(e) => Err(e),
                Ok((n, s1)) => {
                    let r1 = s1.shared.r;
                    if y == 4 {
                        match wr(s1, (0xFF00 + n) as u16, r1.a) {
                            Err(e) => Err(e),
                            Ok(s2) => Ok((s2, 3)),
                        }
                    } else if y == 5 {
                        Ok((with_regs(s1, Registers { sp: add_e_value(r1.sp, n), f: add_e_flags(r1.sp, n), ..r1 }), 4))
                    } else if y == 6 {
                        match rd(s1, (0xFF00 + n) as u16) {
                            Err(e) => Err(e),
                            Ok(v) => Ok((with_a(s1, v), 3)),
                        }
                    } else {
                        Ok(
                            (
                                with_regs(s1, Registers { hl: pair_of(add_e_value(r1.sp, n)), f: add_e_flags(r1.sp, n), ..r1 }),
                                3,
                            ),
                        )
                    }
                },
            }
        }
    } else if z == 1 {
        if y % 2 == 0 {
            match pop16(s) {
                Err(e) => Err(e),
                Ok((v, s1)) => Ok((with_regs(s1, set_stack_pair(s1.shared.r, p, v)), 3)),
            }
        } else if p == 0 || p == 1 {
            match ret(s) {
                Err(e) => Err(e),
                Ok(s1) => Ok((if p == 1 { with_ime(s1, true) } else { s1 }, 4)),
            }
        } else if p == 2 {
            Ok((with_pc(s, r.hl.view16()), 1))
        } else {
            Ok((with_sp(s, r.hl.view16()), 2))
        }
    } else if z == 2 {
        if y < 4 {
            match fetch16(s) {
                Err(e) => Err(e),
                Ok((nn, s1)) => if condition(r.f, y) {
                    Ok((with_pc(s1, nn), 4))
                } else {
                    Ok((s1, 3))
                },
            }
        } else if y == 4 {
            match wr(s, (0xFF00 + r.bc.ind.1) as u16, r.a) {
                Err(e) => Err(e),
                Ok(s1) => Ok((s1, 2)),
            }
        } else if y == 6 {
            match rd(s, (0xFF00 + r.bc.ind.1) as u16) {
                Err(e) => Err(e),
                Ok(v) => Ok((with_a(s, v), 2)),
            }
        } else {
            match fetch16(s) {
                Err(e) => Err(e),
                Ok((nn, s1)) => if y == 5 {
                    match wr(s1, nn, r.a) {
                        Err(e) => Err(e),
                        Ok(s2) => Ok((s2, 4)),
                    }
                } else {
                    match rd(s1, nn) {
                        Err(e) => Err(e),
                        Ok(v) => Ok((with_a(s1, v), 4)),
                    }
                },
            }
        }
    } else {
        if y == 0 {
            match fetch16(s) {
                Err(e) => Err(e),
                Ok((nn, s1)) => Ok((with_pc(s1, nn), 4)),
            }
        } else if y == 1 {
            exec_cb(s)
        } else if y == 6 {
            Ok((with_ime(s, false), 1))
        } else if y == 7 {
            Ok((with_ime(s, true), 1))
        } else {
            Err(CpuError::InvalidInstruction(op))
        }
    }
}

/// Opcodes 11yyyzzz for z in 4..8.
pub open spec fn exec_x3_high(s: Machine, op: u8, y: u8, z: u8) -> Result<(Machine, u64), CpuError> {
    let r = s.shared.r;
    let p = y / 2;
    if z == 4 || (z == 5 && y == 1) {
        if z == 4 && y >= 4 {
            Err(CpuError::InvalidInstruction(op))
        } else {
            match fetch16(s) {
                Err(e) => Err(e),
                Ok((nn, s1)) => if z == 5 || condition(r.f, y) {
                    match call(s1, nn) {
                        Err(e) => Err(e),
                        Ok(s2) => Ok((s2, 6)),
                    }
                } else {
                    Ok((s1, 3))
                },
            }
        }
    } else if z == 5 {
        if y % 2 == 0 {
            match push16(s, stack_pair(r, p)) {
                Err(e) => Err(e),
                Ok(s1) => Ok((s1, 4)),
            }
        } else {
            Err(CpuError::InvalidInstruction(op))
        }
    } else if z == 6 {
        match fetch8(s) {
            Err(e) => Err(e),
            Ok((n, s1)) => Ok((with_regs(s1, alu_regs(s1.shared.r, y, n)), 2)),
        }
    } else {
        match call(s, (y as int * 8) as u16) {
            Err(e) => Err(e),
            Ok(s1) => Ok((s1, 4)),
        }
    }
}

/// Carries out opcode `op`, PC already past it.
pub open spec fn execute(s: Machine, op: u8) -> Result<(Machine, u64), CpuError> {
    let x = op / 64;
    let y = (op / 8) % 8;
    let z = op % 8;
    if x == 0 {
        if z < 4 {
            exec_x0_low(s, y, z)
        } else {
            exec_x0_high(s, y, z)
        }
    } else if x == 1 {
        if op == 0x76 {
            Err(CpuError::Unimplemented(op))
        } else {
            exec_ld_r_r(s, y, z)
        }
    } else if x == 2 {
        match operand(s, z) {
            Err(e) => Err(e),
            Ok(v) => Ok((with_regs(s, alu_regs(s.shared.r, y, v)), if z == 6 { 2 } else { 1 })),
        }
    } else if z < 4 {
        exec_x3_low(s, op, y, z)
    } else {
        exec_x3_high(s, op, y, z)
    }
}

/// One instruction: fetch the opcode at PC, advance PC, carry it out; the
/// machine after it and the machine cycles it took.
pub open spec fn step(s: Machine) -> Result<(Machine, u64), CpuError> {
    match fetch8(s) {
        Err(e) => Err(e),
        Ok((op, s1)) => execute(s1, op),
    }
}

} // verus!

verus! {

/// An address that holds what the program writes there and reads it back:
/// stored, readable, and none of the registers whose writes have side effects.
pub open spec fn plain(addr: u16) -> bool {
    &&& crate::basic_memory::stores(addr)
    &&& readable(addr)
    &&& addr != crate::constants::ADDRESS_JOYP
    &&& addr != crate::constants::ADDRESS_DIV
    &&& addr != crate::constants::ADDRESS_STAT
    &&& addr != crate::constants::ADDRESS_LY
    &&& addr != crate::constants::ADDRESS_DMA_CONTROL
}

/// Pushing a value and popping it again gives the value back and leaves SP
/// where it was, when the two stack bytes are plain memory.
pub proof fn lemma_push_then_pop(s: Machine, v: u16)
    requires
        s.mem.len() == 0x10000,
        plain(wrap16(s.shared.r.sp + 0xFFFF)),
        plain(wrap16(s.shared.r.sp + 0xFFFE)),
    ensures
        push16(s, v) is Ok,
        pop16(push16(s, v)->Ok_0) is Ok,
        pop16(push16(s, v)->Ok_0)->Ok_0.0 == v,
        pop16(push16(s, v)->Ok_0)->Ok_0.1.shared.r.sp == s.shared.r.sp,
        pop16(push16(s, v)->Ok_0)->Ok_0.1.shared.r == s.shared.r,
{
    let sp = s.shared.r.sp;
    let a1 = wrap16(sp + 0xFFFF);
    let a2 = wrap16(sp + 0xFFFE);
    let s1 = prog_write(s, a1, (v as int / 256) as u8);
    let s2 = prog_write(s1, a2, (v as int % 256) as u8);
    assert(s1.mem[a1 as int] == (v as int / 256) as u8);
    assert(s2.mem[a2 as int] == (v as int % 256) as u8);
    assert(s2.mem[a1 as int] == (v as int / 256) as u8);
    assert(wrap16(a2 + 1) == a1);
    assert(wrap16(a2 + 2) == sp);
}

/// The PUSH instruction of slot `q` at PC, seen through `step`.
proof fn lemma_push_step(s: Machine, q: u8)
    requires
        s.mem.len() == 0x10000,
        q < 4,
        readable(s.shared.r.pc),
        s.mem[s.shared.r.pc as int] == 0xC5 + 16 * q,
    ensures
        step(s) == (match push16(with_pc(s, wrap16(s.shared.r.pc + 1)), stack_pair(s.shared.r, q)) {
            Err(e) => Err(e),
            Ok(s1) => Ok::<(Machine, u64), CpuError>((s1, 4)),
        }),
{
    let op = (0xC5 + 16 * q) as u8;
    assert(op / 64 == 3 && op % 8 == 5 && (op / 8) % 8 == 2 * q) by {
        assert(q == 0 || q == 1 || q == 2 || q == 3);
    }
}

/// The POP instruction of slot `q` at PC, seen through `step`.
proof fn lemma_pop_step(s: Machine, q: u8)
    requires
        s.mem.len() == 0x10000,
        q < 4,
        readable(s.shared.r.pc),
        s.mem[s.shared.r.pc as int] == 0xC1 + 16 * q,
    ensures
        step(s) == (match pop16(with_pc(s, wrap16(s.shared.r.pc + 1))) {
            Err(e) => Err(e),
            Ok((v, s1)) => Ok::<(Machine, u64), CpuError>((with_regs(s1, set_stack_pair(s1.shared.r, q, v)), 3)),
        }),
{
    let op = (0xC1 + 16 * q) as u8;
    assert(op / 64 == 3 && op % 8 == 1 && (op / 8) % 8 == 2 * q) by {
        assert(q == 0 || q == 1 || q == 2 || q == 3);
    }
    reveal(exec_x3_low);
}

/// PUSH of a register slot followed by POP of the same slot restores the
/// slot's value and SP, when both opcodes and the two stack bytes are plain
/// memory and the stack bytes do not overlap the POP opcode.
pub proof fn lemma_push_pop_instructions(s: Machine, q: u8)
    requires
        s.mem.len() == 0x10000,
        q < 4,
        readable(s.shared.r.pc),
        readable(wrap16(s.shared.r.pc + 1)),
        s.mem[s.shared.r.pc as int] == 0xC5 + 16 * q,
        s.mem[wrap16(s.shared.r.pc + 1) as int] == 0xC1 + 16 * q,
        plain(wrap16(s.shared.r.sp + 0xFFFF)),
        plain(wrap16(s.shared.r.sp + 0xFFFE)),
        crate::basic_memory::canonical(wrap16(s.shared.r.sp + 0xFFFF))
            != crate::basic_memory::canonical(wrap16(s.shared.r.pc + 1)),
        crate::basic_memory::canonical(wrap16(s.shared.r.sp + 0xFFFE))
            != crate::basic_memory::canonical(wrap16(s.shared.r.pc + 1)),
    ensures
        step(s) is Ok,
        step(step(s)->Ok_0.0) is Ok,
        stack_pair(step(step(s)->Ok_0.0)->Ok_0.0.shared.r, q) == stack_pair(s.shared.r, q),
        step(step(s)->Ok_0.0)->Ok_0.0.shared.r.sp == s.shared.r.sp,
{
    let pc = s.shared.r.pc;
    let s1 = with_pc(s, wrap16(pc + 1));
    let v = stack_pair(s.shared.r, q);
    lemma_push_step(s, q);
    lemma_push_then_pop(s1, v);
    let s2 = push16(s1, v)->Ok_0;
    let sp = s.shared.r.sp;
    let a1 = wrap16(sp + 0xFFFF);
    let a2 = wrap16(sp + 0xFFFE);
    let t1 = prog_write(s1, a1, (v as int / 256) as u8);
    assert(t1.mem[wrap16(pc + 1) as int] == s1.mem[wrap16(pc + 1) as int]);
    assert(s2.mem[wrap16(pc + 1) as int] == s.mem[wrap16(pc + 1) as int]);
    assert(s2.shared.r.pc == wrap16(pc + 1));
    lemma_pop_step(s2, q);
    let s3 = with_pc(s2, wrap16(s2.shared.r.pc + 1));
    assert(s3.shared.r.sp == s2.shared.r.sp);
    lemma_push_then_pop(s1, v);
    lemma_stack_pair_round_trip(s3.shared.r, q, v);
    crate::memory::lemma_flags_round_trip(s.shared.r.f);
}

/// Storing a slot's own value into it gives that value back.
proof fn lemma_stack_pair_round_trip(r: Registers, q: u8, v: u16)
    requires
        q < 4,
    ensures
        stack_pair(set_stack_pair(r, q, v), q) == (if q == 3 {
            word((v as int / 256) as u8, flag_bits(flags_of((v as int % 256) as u8)))
        } else {
            v
        }),
{
}

} // verus!
