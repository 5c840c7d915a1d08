use vstd::prelude::*;

pub use crate::memory::{u16_to_u8s, u8s_to_u16};

use crate::basic_memory::{BasicMemory, Machine};
use crate::cpu_spec::{
    alu_regs, call, cb_shift, condition, daa_regs, exec_cb, exec_ld_r_r, exec_x0_high, exec_x0_low,
    exec_x3_high, exec_x3_low, fetch16, fetch8, indirect_addr, misc_regs, operand, pair16, pop16,
    push16, rd, ret, set_operand, set_pair16, step, wr, CpuError,
};
use crate::memory::{RegisterFlags, Registers};
use crate::operations::{
    add_16, add_16_mixed, add_8, and_8, bit, cp_8, dec_16, dec_8, inc_16, inc_8, or_8, res, rl, rlc,
    rr, rrc, sla, sra, srl, sub_8, swap, xor_8,
};

verus! {

/// `r` and `post` are what `spec` gives: the cycles and the machine, or the error.
pub open spec fn outcome(r: Result<u64, CpuError>, post: Machine, spec: Result<(Machine, u64), CpuError>) -> bool {
    match spec {
        Ok((s, c)) => r == Ok::<u64, CpuError>(c) && post == s,
        Err(e) => r == Err::<u64, CpuError>(e),
    }
}

pub open spec fn outcome_state(r: Result<(), CpuError>, post: Machine, spec: Result<Machine, CpuError>) -> bool {
    match spec {
        Ok(s) => r == Ok::<(), CpuError>(()) && post == s,
        Err(e) => r == Err::<(), CpuError>(e),
    }
}

pub open spec fn outcome_val<T>(r: Result<T, CpuError>, post: Machine, spec: Result<(T, Machine), CpuError>) -> bool {
    match spec {
        Ok((v, s)) => r == Ok::<T, CpuError>(v) && post == s,
        Err(e) => r == Err::<T, CpuError>(e),
    }
}

fn read_checked(mem: &BasicMemory, addr: u16) -> (r: Result<u8, CpuError>)
    requires
        mem.wf(),
    ensures
        r == rd(mem@, addr),
{
    if (0xA000 <= addr && addr < 0xC000) || (0xFEA0 <= addr && addr < 0xFF00) {
        Err(CpuError::BusFault(addr))
    } else {
        Ok(mem.read_8(addr))
    }
}

fn write_checked(mem: &mut BasicMemory, addr: u16, val: u8) -> (r: Result<(), CpuError>)
    requires
        old(mem).wf(),
    ensures
        final(mem).wf(),
        outcome_state(r, final(mem)@, wr(old(mem)@, addr, val)),
{
    if 0xA000 <= addr && addr < 0xC000 {
        Err(CpuError::BusFault(addr))
    } else {
        mem.write_8(addr, val);
        Ok(())
    }
}

fn next16(v: u16) -> (r: u16)
    ensures
        r as int == (v as int + 1) % 0x10000,
{
    if v == 0xFFFF {
        0
    } else {
        v + 1
    }
}

fn prev16(v: u16) -> (r: u16)
    ensures
        r as int == (v as int + 0xFFFF) % 0x10000,
{
    if v == 0 {
        0xFFFF
    } else {
        v - 1
    }
}

fn fetch_8(mem: &mut BasicMemory) -> (r: Result<u8, CpuError>)
    requires
        old(mem).wf(),
    ensures
        final(mem).wf(),
        outcome_val(r, final(mem)@, fetch8(old(mem)@)),
{
    let pc = mem.shared_data.r.pc;
    match read_checked(mem, pc) {
        Err(e) => Err(e),
        Ok(v) => {
            mem.shared_data.r.pc = next16(pc);
            Ok(v)
        },
    }
}

fn fetch_16(mem: &mut BasicMemory) -> (r: Result<u16, CpuError>)
    requires
        old(mem).wf(),
    ensures
        final(mem).wf(),
        outcome_val(r, final(mem)@, fetch16(old(mem)@)),
{
    let lo = match fetch_8(mem) {
        Err(e) => return Err(e),
        Ok(v) => v,
    };
    let hi = match fetch_8(mem) {
        Err(e) => return Err(e),
        Ok(v) => v,
    };
    Ok(u8s_to_u16(hi, lo))
}

/// The operand of register slot `code`: B, C, D, E, H, L, (HL), A.
fn get_register_val(mem: &BasicMemory, code: u8) -> (r: Result<u8, CpuError>)
    requires
        mem.wf(),
    ensures
        r == operand(mem@, code),
{
    let r = &mem.shared_data.r;
    if code == 0 {
        Ok(r.bc.ind.0)
    } else if code == 1 {
        Ok(r.bc.ind.1)
    } else if code == 2 {
        Ok(r.de.ind.0)
    } else if code == 3 {
        Ok(r.de.ind.1)
    } else if code == 4 {
        Ok(r.hl.ind.0)
    } else if code == 5 {
        Ok(r.hl.ind.1)
    } else if code == 6 {
        read_checked(mem, r.hl.r16())
    } else {
        Ok(r.a)
    }
}

/// Stores into register slot `code`; slot 6 is the byte at HL.
fn set_register(mem: &mut BasicMemory, code: u8, v: u8) -> (r: Result<(), CpuError>)
    requires
        old(mem).wf(),
    ensures
        final(mem).wf(),
        outcome_state(r, final(mem)@, set_operand(old(mem)@, code, v)),
{
    if code == 0 {
        mem.shared_data.r.bc.ind.0 = v;
    } else if code == 1 {
        mem.shared_data.r.bc.ind.1 = v;
    } else if code == 2 {
        mem.shared_data.r.de.ind.0 = v;
    } else if code == 3 {
        mem.shared_data.r.de.ind.1 = v;
    } else if code == 4 {
        mem.shared_data.r.hl.ind.0 = v;
    } else if code == 5 {
        mem.shared_data.r.hl.ind.1 = v;
    } else if code == 6 {
        let hl = mem.shared_data.r.hl.r16();
        return write_checked(mem, hl, v);
    } else {
        mem.shared_data.r.a = v;
    }
    Ok(())
}

/// The 16-bit register of slot `code`: BC, DE, HL, SP.
fn get_register_pair_val(r: &Registers, code: u8) -> (v: u16)
    ensures
        v == pair16(*r, code),
{
    if code == 0 {
        r.bc.r16()
    } else if code == 1 {
        r.de.r16()
    } else if code == 2 {
        r.hl.r16()
    } else {
        r.sp
    }
}

fn set_register_pair(r: &mut Registers, code: u8, v: u16)
    ensures
        *final(r) == set_pair16(*old(r), code, v),
{
    if code == 0 {
        r.bc.s16(v);
    } else if code == 1 {
        r.de.s16(v);
    } else if code == 2 {
        r.hl.s16(v);
    } else {
        r.sp = v;
    }
}

/// Whether branch condition `cc` holds: NZ, Z, NC, C.
fn check_jump_condition(cc: u8, f: &RegisterFlags) -> (r: bool)
    ensures
        r == condition(*f, cc),
{
    (cc == 0 && !f.z) || (cc == 1 && f.z) || (cc == 2 && !f.cy) || (cc >= 3 && f.cy)
}

fn push_16(mem: &mut BasicMemory, v: u16) -> (r: Result<(), CpuError>)
    requires
        old(mem).wf(),
    ensures
        final(mem).wf(),
        outcome_state(r, final(mem)@, push16(old(mem)@, v)),
{
    let sp = mem.shared_data.r.sp;
    let a1 = prev16(sp);
    let a2 = prev16(a1);
    assert(a2 as int == (sp as int + 0xFFFE) % 0x10000);
    match write_checked(mem, a1, (v / 256) as u8) {
        Err(e) => return Err(e),
        Ok(()) => {},
    }
    match write_checked(mem, a2, (v % 256) as u8) {
        Err(e) => return Err(e),
        Ok(()) => {},
    }
    mem.shared_data.r.sp = a2;
    Ok(())
}

fn pop_16(mem: &mut BasicMemory) -> (r: Result<u16, CpuError>)
    requires
        old(mem).wf(),
    ensures
        final(mem).wf(),
        outcome_val(r, final(mem)@, pop16(old(mem)@)),
{
    let sp = mem.shared_data.r.sp;
    let lo = match read_checked(mem, sp) {
        Err(e) => return Err(e),
        Ok(v) => v,
    };
    let hi = match read_checked(mem, next16(sp)) {
        Err(e) => return Err(e),
        Ok(v) => v,
    };
    mem.shared_data.r.sp = next16(next16(sp));
    Ok(u8s_to_u16(hi, lo))
}

/// ALU operation `y` of A with `v`: ADD, ADC, SUB, SBC, AND, XOR, OR, CP.
fn alu_op(r: &mut Registers, y: u8, v: u8)
    ensures
        *final(r) == alu_regs(*old(r), y, v),
{
    let a = r.a;
    let c = r.f.cy;
    if y == 0 {
        r.a = add_8(a, v, r, false);
    } else if y == 1 {
        r.a = add_8(a, v, r, c);
    } else if y == 2 {
        r.a = sub_8(a, v, r, false);
    } else if y == 3 {
        r.a = sub_8(a, v, r, c);
    } else if y == 4 {
        r.a = and_8(a, v, r);
    } else if y == 5 {
        r.a = xor_8(a, v, r);
    } else if y == 6 {
        r.a = or_8(a, v, r);
    } else {
        cp_8(a, v, r);
    }
}

/// Rotate or shift `y` of the prefixed table on `v`, setting the flags.
fn cb_shift_op(r: &mut Registers, y: u8, v: u8) -> (nv: u8)
    ensures
        nv == cb_shift(old(r).f, y, v).0,
        *final(r) == crate::memory::with_flags(*old(r), cb_shift(old(r).f, y, v).1),
{
    if y == 0 {
        rlc(v, r, false)
    } else if y == 1 {
        rrc(v, r, false)
    } else if y == 2 {
        rl(v, r, false)
    } else if y == 3 {
        rr(v, r, false)
    } else if y == 4 {
        sla(v, r)
    } else if y == 5 {
        sra(v, r)
    } else if y == 6 {
        swap(v, r)
    } else {
        srl(v, r)
    }
}

/// Decimal adjust of A.
fn daa(r: &mut Registers)
    ensures
        *final(r) == daa_regs(*old(r)),
{
    let a = r.a;
    if !r.f.n {
        let adjust_high = r.f.cy || a > 0x99;
        let a1: u8 = if adjust_high {
            ((a as u16 + 0x60) % 256) as u8
        } else {
            a
        };
        let a2: u8 = if r.f.h || a1 % 16 > 9 {
            ((a1 as u16 + 6) % 256) as u8
        } else {
            a1
        };
        r.a = a2;
        r.f = RegisterFlags { z: a2 == 0, n: r.f.n, h: false, cy: r.f.cy || adjust_high };
    } else {
        let a1: u8 = if r.f.cy {
            ((a as u16 + 256 - 0x60) % 256) as u8
        } else {
            a
        };
        let a2: u8 = if r.f.h {
            ((a1 as u16 + 256 - 6) % 256) as u8
        } else {
            a1
        };
        r.a = a2;
        r.f = RegisterFlags { z: a2 == 0, n: r.f.n, h: false, cy: r.f.cy };
    }
}

/// RLCA, RRCA, RLA, RRA, DAA, CPL, SCF, CCF.
fn misc_op(r: &mut Registers, y: u8)
    ensures
        *final(r) == misc_regs(*old(r), y),
{
    let a = r.a;
    if y == 0 {
        r.a = rlc(a, r, true);
    } else if y == 1 {
        r.a = rrc(a, r, true);
    } else if y == 2 {
        r.a = rl(a, r, true);
    } else if y == 3 {
        r.a = rr(a, r, true);
    } else if y == 4 {
        daa(r);
    } else if y == 5 {
        r.a = 255 - a;
        r.f = RegisterFlags { z: r.f.z, n: true, h: true, cy: r.f.cy };
    } else if y == 6 {
        r.f = RegisterFlags { z: r.f.z, n: false, h: false, cy: true };
    } else {
        r.f = RegisterFlags { z: r.f.z, n: false, h: false, cy: !r.f.cy };
    }
}

/// A relative jump on `taken`; the signed offset is the byte at PC.
fn jump_relative(mem: &mut BasicMemory, taken: bool) -> (r: Result<u64, CpuError>)
    requires
        old(mem).wf(),
    ensures
        final(mem).wf(),
        outcome(r, final(mem)@, crate::cpu_spec::jr(old(mem)@, taken)),
{
    let e = match fetch_8(mem) {
        Err(e) => return Err(e),
        Ok(v) => v,
    };
    if taken {
        let pc = mem.shared_data.r.pc;
        if e < 128 {
            if pc as u32 + e as u32 > 0xFFFF {
                return Err(CpuError::JumpOutOfRange(pc));
            }
            mem.shared_data.r.pc = pc + e as u16;
        } else {
            let back: u16 = 256 - e as u16;
            if pc < back {
                return Err(CpuError::JumpOutOfRange(pc));
            }
            mem.shared_data.r.pc = pc - back;
        }
        Ok(3)
    } else {
        Ok(2)
    }
}

/// Opcodes 00yyyzzz for z in 0..4.
fn run_x0_low(mem: &mut BasicMemory, y: u8, z: u8) -> (r: Result<u64, CpuError>)
    requires
        old(mem).wf(),
        y < 8,
        z < 4,
    ensures
        final(mem).wf(),
        outcome(r, final(mem)@, exec_x0_low(old(mem)@, y, z)),
{
    proof {
        reveal(exec_x0_low);
    }
    let p = y / 2;
    if z == 0 {
        if y == 0 {
            Ok(1)
        } else if y == 1 {
            let sp = mem.shared_data.r.sp;
            let nn = match fetch_16(mem) {
                Err(e) => return Err(e),
                Ok(v) => v,
            };
            match write_checked(mem, nn, (sp % 256) as u8) {
                Err(e) => return Err(e),
                Ok(()) => {},
            }
            match write_checked(mem, next16(nn), (sp / 256) as u8) {
                Err(e) => return Err(e),
                Ok(()) => {},
            }
            Ok(5)
        } else if y == 2 {
            Err(CpuError::Unimplemented(0x10))
        } else if y == 3 {
            jump_relative(mem, true)
        } else {
            let taken = check_jump_condition(y - 4, &mem.shared_data.r.f);
            jump_relative(mem, taken)
        }
    } else if z == 1 {
        if y % 2 == 0 {
            let nn = match fetch_16(mem) {
                Err(e) => return Err(e),
                Ok(v) => v,
            };
            set_register_pair(&mut mem.shared_data.r, p, nn);
            Ok(3)
        } else {
            let hl = mem.shared_data.r.hl.r16();
            let v = get_register_pair_val(&mem.shared_data.r, p);
            let sum = add_16(hl, v, &mut mem.shared_data.r);
            mem.shared_data.r.hl.s16(sum);
            Ok(2)
        }
    } else if z == 2 {
        let addr = if p == 0 {
            mem.shared_data.r.bc.r16()
        } else if p == 1 {
            mem.shared_data.r.de.r16()
        } else {
            mem.shared_data.r.hl.r16()
        };
        assert(addr == indirect_addr(old(mem)@.shared.r, p));
        if y % 2 == 0 {
            let a = mem.shared_data.r.a;
            match write_checked(mem, addr, a) {
                Err(e) => return Err(e),
                Ok(()) => {},
            }
        } else {
            let v = match read_checked(mem, addr) {
                Err(e) => return Err(e),
                Ok(v) => v,
            };
            mem.shared_data.r.a = v;
        }
        if p == 2 {
            mem.shared_data.r.hl.uinc16();
        } else if p == 3 {
            mem.shared_data.r.hl.udec16();
        }
        Ok(2)
    } else {
        let v = get_register_pair_val(&mem.shared_data.r, p);
        if y % 2 == 0 {
            set_register_pair(&mut mem.shared_data.r, p, inc_16(v));
        } else {
            set_register_pair(&mut mem.shared_data.r, p, dec_16(v));
        }
        Ok(2)
    }
}

/// Opcodes 00yyyzzz for z in 4..8.
fn run_x0_high(mem: &mut BasicMemory, y: u8, z: u8) -> (r: Result<u64, CpuError>)
    requires
        old(mem).wf(),
        y < 8,
        4 <= z < 8,
    ensures
        final(mem).wf(),
        outcome(r, final(mem)@, exec_x0_high(old(mem)@, y, z)),
{
    proof {
        reveal(exec_x0_high);
    }
    if z == 4 || z == 5 {
        let v = match get_register_val(mem, y) {
            Err(e) => return Err(e),
            Ok(v) => v,
        };
        let nv = if z == 4 {
            inc_8(v, &mut mem.shared_data.r)
        } else {
            dec_8(v, &mut mem.shared_data.r)
        };
        match set_register(mem, y, nv) {
            Err(e) => return Err(e),
            Ok(()) => {},
        }
        Ok(if y == 6 { 3 } else { 1 })
    } else if z == 6 {
        let n = match fetch_8(mem) {
            Err(e) => return Err(e),
            Ok(v) => v,
        };
        match set_register(mem, y, n) {
            Err(e) => return Err(e),
            Ok(()) => {},
        }
        Ok(if y == 6 { 3 } else { 2 })
    } else {
        misc_op(&mut mem.shared_data.r, y);
        Ok(1)
    }
}

/// LD r, r'.
fn run_ld_r_r(mem: &mut BasicMemory, y: u8, z: u8) -> (r: Result<u64, CpuError>)
    requires
        old(mem).wf(),
    ensures
        final(mem).wf(),
        outcome(r, final(mem)@, exec_ld_r_r(old(mem)@, y, z)),
{
    proof {
        reveal(exec_ld_r_r);
    }
    let v = match get_register_val(mem, z) {
        Err(e) => return Err(e),
        Ok(v) => v,
    };
    match set_register(mem, y, v) {
        Err(e) => return Err(e),
        Ok(()) => {},
    }
    Ok(if y == 6 || z == 6 { 2 } else { 1 })
}

/// The prefixed table.
fn run_cb(mem: &mut BasicMemory) -> (r: Result<u64, CpuError>)
    requires
        old(mem).wf(),
    ensures
        final(mem).wf(),
        outcome(r, final(mem)@, exec_cb(old(mem)@)),
{
    proof {
        reveal(exec_cb);
    }
    let op = match fetch_8(mem) {
        Err(e) => return Err(e),
        Ok(v) => v,
    };
    let x = op / 64;
    let y = (op / 8) % 8;
    let z = op % 8;
    let v = match get_register_val(mem, z) {
        Err(e) => return Err(e),
        Ok(v) => v,
    };
    if x == 1 {
        bit(v, y, &mut mem.shared_data.r);
        Ok(if z == 6 { 3 } else { 2 })
    } else {
        let nv = if x == 0 {
            cb_shift_op(&mut mem.shared_data.r, y, v)
        } else if x == 2 {
            res(v, y)
        } else {
            crate::operations::set(v, y)
        };
        match set_register(mem, z, nv) {
            Err(e) => return Err(e),
            Ok(()) => {},
        }
        Ok(if z == 6 { 4 } else { 2 })
    }
}

fn run_ret(mem: &mut BasicMemory) -> (r: Result<(), CpuError>)
    requires
        old(mem).wf(),
    ensures
        final(mem).wf(),
        outcome_state(r, final(mem)@, ret(old(mem)@)),
{
    let v = match pop_16(mem) {
        Err(e) => return Err(e),
        Ok(v) => v,
    };
    mem.shared_data.r.pc = v;
    Ok(())
}

fn run_call(mem: &mut BasicMemory, target: u16) -> (r: Result<(), CpuError>)
    requires
        old(mem).wf(),
    ensures
        final(mem).wf(),
        outcome_state(r, final(mem)@, call(old(mem)@, target)),
{
    let pc = mem.shared_data.r.pc;
    match push_16(mem, pc) {
        Err(e) => return Err(e),
        Ok(()) => {},
    }
    mem.shared_data.r.pc = target;
    Ok(())
}

/// RET cc, LDH (n),A, ADD SP,e, LDH A,(n), LD HL,SP+e.
fn run_x3_z0(mem: &mut BasicMemory, op: u8, y: u8) -> (r: Result<u64, CpuError>)
    requires
        old(mem).wf(),
        y < 8,
    ensures
        final(mem).wf(),
        outcome(r, final(mem)@, exec_x3_low(old(mem)@, op, y, 0)),
{
    proof {
        reveal(exec_x3_low);
    }
    let p = y / 2;
    if y < 4 {
        if check_jump_condition(y, &mem.shared_data.r.f) {
            match run_ret(mem) {
                Err(e) => return Err(e),
                Ok(()) => {},
            }
            Ok(5)
        } else {
            Ok(2)
        }
    } else {
        let n = match fetch_8(mem) {
            Err(e) => return Err(e),
            Ok(v) => v,
        };
        if y == 4 {
            let a = mem.shared_data.r.a;
            match write_checked(mem, 0xFF00 + n as u16, a) {
                Err(e) => return Err(e),
                Ok(()) => {},
            }
            Ok(3)
        } else if y == 5 {
            crate::operations::add_sp_e(n, &mut mem.shared_data.r);
            Ok(4)
        } else if y == 6 {
            let v = match read_checked(mem, 0xFF00 + n as u16) {
                Err(e) => return Err(e),
                Ok(v) => v,
            };
            mem.shared_data.r.a = v;
            Ok(3)
        } else {
            let sp = mem.shared_data.r.sp;
            let e: i8 = if n < 128 {
                n as i8
            } else {
                (n as i16 - 256) as i8
            };
            let v = add_16_mixed(sp, e, &mut mem.shared_data.r);
            mem.shared_data.r.hl.s16(v);
            Ok(3)
        }
    }
}

/// POP, RET, RETI, JP HL, LD SP,HL.
fn run_x3_z1(mem: &mut BasicMemory, op: u8, y: u8) -> (r: Result<u64, CpuError>)
    requires
        old(mem).wf(),
        y < 8,
    ensures
        final(mem).wf(),
        outcome(r, final(mem)@, exec_x3_low(old(mem)@, op, y, 1)),
{
    proof {
        reveal(exec_x3_low);
    }
    let p = y / 2;
    if y % 2 == 0 {
        let v = match pop_16(mem) {
            Err(e) => return Err(e),
            Ok(v) => v,
        };
        if p == 3 {
            mem.shared_data.r.a = (v / 256) as u8;
            mem.shared_data.r.set_flags_unchecked((v % 256) as u8);
        } else {
            set_register_pair(&mut mem.shared_data.r, p, v);
        }
        Ok(3)
    } else if p == 0 || p == 1 {
        match run_ret(mem) {
            Err(e) => return Err(e),
            Ok(()) => {},
        }
        if p == 1 {
            mem.shared_data.ime = true;
        }
        Ok(4)
    } else if p == 2 {
        mem.shared_data.r.pc = mem.shared_data.r.hl.r16();
        Ok(1)
    } else {
        mem.shared_data.r.sp = mem.shared_data.r.hl.r16();
        Ok(2)
    }
}

/// JP cc,nn and the loads through (C) and (nn).
fn run_x3_z2(mem: &mut BasicMemory, op: u8, y: u8) -> (r: Result<u64, CpuError>)
    requires
        old(mem).wf(),
        y < 8,
    ensures
        final(mem).wf(),
        outcome(r, final(mem)@, exec_x3_low(old(mem)@, op, y, 2)),
{
    proof {
        reveal(exec_x3_low);
    }
    let p = y / 2;
    if y < 4 {
        let taken = check_jump_condition(y, &mem.shared_data.r.f);
        let nn = match fetch_16(mem) {
            Err(e) => return Err(e),
            Ok(v) => v,
        };
        if taken {
            mem.shared_data.r.pc = nn;
            Ok(4)
        } else {
            Ok(3)
        }
    } else if y == 4 {
        let a = mem.shared_data.r.a;
        let c = mem.shared_data.r.bc.ind.1;
        match write_checked(mem, 0xFF00 + c as u16, a) {
            Err(e) => return Err(e),
            Ok(()) => {},
        }
        Ok(2)
    } else if y == 6 {
        let c = mem.shared_data.r.bc.ind.1;
        let v = match read_checked(mem, 0xFF00 + c as u16) {
            Err(e) => return Err(e),
            Ok(v) => v,
        };
        mem.shared_data.r.a = v;
        Ok(2)
    } else {
        let a = mem.shared_data.r.a;
        let nn = match fetch_16(mem) {
            Err(e) => return Err(e),
            Ok(v) => v,
        };
        if y == 5 {
            match write_checked(mem, nn, a) {
                Err(e) => return Err(e),
                Ok(()) => {},
            }
        } else {
            let v = match read_checked(mem, nn) {
                Err(e) => return Err(e),
                Ok(v) => v,
            };
            mem.shared_data.r.a = v;
        }
        Ok(4)
    }
}

/// JP nn, the prefixed table, DI, EI.
fn run_x3_z3(mem: &mut BasicMemory, op: u8, y: u8) -> (r: Result<u64, CpuError>)
    requires
        old(mem).wf(),
        y < 8,
    ensures
        final(mem).wf(),
        outcome(r, final(mem)@, exec_x3_low(old(mem)@, op, y, 3)),
{
    proof {
        reveal(exec_x3_low);
    }
    let p = y / 2;
    if y == 0 {
        let nn = match fetch_16(mem) {
            Err(e) => return Err(e),
            Ok(v) => v,
        };
        mem.shared_data.r.pc = nn;
        Ok(4)
    } else if y == 1 {
        run_cb(mem)
    } else if y == 6 {
        mem.shared_data.ime = false;
        Ok(1)
    } else if y == 7 {
        mem.shared_data.ime = true;
        Ok(1)
    } else {
        Err(CpuError::InvalidInstruction(op))
    }
}

/// Opcodes 11yyyzzz for z in 0..4.
fn run_x3_low(mem: &mut BasicMemory, op: u8, y: u8, z: u8) -> (r: Result<u64, CpuError>)
    requires
        old(mem).wf(),
        y < 8,
        z < 4,
    ensures
        final(mem).wf(),
        outcome(r, final(mem)@, exec_x3_low(old(mem)@, op, y, z)),
{
    proof {
        reveal(exec_x3_low);
    }
    if z == 0 {
        run_x3_z0(mem, op, y)
    } else if z == 1 {
        run_x3_z1(mem, op, y)
    } else if z == 2 {
        run_x3_z2(mem, op, y)
    } else {
        run_x3_z3(mem, op, y)
    }
}

/// Opcodes 11yyyzzz for z in 4..8.
fn run_x3_high(mem: &mut BasicMemory, op: u8, y: u8, z: u8) -> (r: Result<u64, CpuError>)
    requires
        old(mem).wf(),
        y < 8,
        4 <= z < 8,
    ensures
        final(mem).wf(),
        outcome(r, final(mem)@, exec_x3_high(old(mem)@, op, y, z)),
{
    let p = y / 2;
    if z == 4 || (z == 5 && y == 1) {
        if z == 4 && y >= 4 {
            Err(CpuError::InvalidInstruction(op))
        } else {
            let taken = z == 5 || check_jump_condition(y, &mem.shared_data.r.f);
            let nn = match fetch_16(mem) {
                Err(e) => return Err(e),
                Ok(v) => v,
            };
            if taken {
                match run_call(mem, nn) {
                    Err(e) => return Err(e),
                    Ok(()) => {},
                }
                Ok(6)
            } else {
                Ok(3)
            }
        }
    } else if z == 5 {
        if y % 2 == 0 {
            let v = if p == 3 {
                u8s_to_u16(mem.shared_data.r.a, mem.shared_data.r.f.bits())
            } else {
                get_register_pair_val(&mem.shared_data.r, p)
            };
            match push_16(mem, v) {
                Err(e) => return Err(e),
                Ok(()) => {},
            }
            Ok(4)
        } else {
            Err(CpuError::InvalidInstruction(op))
        }
    } else if z == 6 {
        let n = match fetch_8(mem) {
            Err(e) => return Err(e),
            Ok(v) => v,
        };
        alu_op(&mut mem.shared_data.r, y, n);
        Ok(2)
    } else {
        match run_call(mem, y as u16 * 8) {
            Err(e) => return Err(e),
            Ok(()) => {},
        }
        Ok(4)
    }
}

/// Executes one instruction: fetches the opcode at PC, advances PC past the
/// opcode and its operands, carries it out, and returns the machine cycles it
/// took. Faults, HALT, STOP and undefined opcodes come back as errors.
pub fn process_instruction(mem: &mut BasicMemory) -> (r: Result<u64, CpuError>)
    requires
        old(mem).wf(),
    ensures
        final(mem).wf(),
        outcome(r, final(mem)@, step(old(mem)@)),
{
    let op = match fetch_8(mem) {
        Err(e) => return Err(e),
        Ok(v) => v,
    };
    let x = op / 64;
    let y = (op / 8) % 8;
    let z = op % 8;
    if x == 0 {
        if z < 4 {
            run_x0_low(mem, y, z)
        } else {
            run_x0_high(mem, y, z)
        }
    } else if x == 1 {
        if op == 0x76 {
            Err(CpuError::Unimplemented(op))
        } else {
            run_ld_r_r(mem, y, z)
        }
    } else if x == 2 {
        let v = match get_register_val(mem, z) {
            Err(e) => return Err(e),
            Ok(v) => v,
        };
        alu_op(&mut mem.shared_data.r, y, v);
        Ok(if z == 6 { 2 } else { 1 })
    } else if z < 4 {
        run_x3_low(mem, op, y, z)
    } else {
        run_x3_high(mem, op, y, z)
    }
}

} // verus!
