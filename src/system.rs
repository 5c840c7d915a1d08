use vstd::prelude::*;

use crate::basic_memory::{dma_spec, prog_write, readable, sys_write, BasicMemory, Machine};
use crate::constants::{
    ADDRESS_DIV, ADDRESS_ENTRY_POINT, ADDRESS_FIRST_INTERRUPT_HANDLER, ADDRESS_IE, ADDRESS_IF,
    ADDRESS_LCDC, ADDRESS_MBC_TYPE, ADDRESS_STACK_START, ADDRESS_TAC, ADDRESS_TIMA, ADDRESS_TMA,
};
use crate::cpu_spec::{push16, step, with_ime, with_pc, CpuError};
use crate::memory::{flags_of, Inputs};
use crate::opcodes::{outcome, process_instruction};

verus! {

/// Nanoseconds of one machine cycle.
pub const CYCLE_NS: u64 = 954;
/// Nanoseconds of one PPU dot.
pub const DOT_NS: u64 = 238;
/// Nanoseconds between two DIV increments.
pub const DIV_PERIOD_NS: u64 = 61035;
/// Machine cycles that an interrupt dispatch takes.
pub const INTERRUPT_CYCLES: u64 = 5;

/// The lowest of the five interrupt lines set in `p`, as a line number;
/// 5 when none is.
pub open spec fn lowest_line(p: u8) -> u8 {
    if p & 1 != 0 {
        0
    } else if p & 2 != 0 {
        1
    } else if p & 4 != 0 {
        2
    } else if p & 8 != 0 {
        3
    } else if p & 16 != 0 {
        4
    } else {
        5
    }
}

/// The mask with only bit `i` of the five lines set.
pub open spec fn line_mask(i: u8) -> u8 {
    if i == 0 {
        1
    } else if i == 1 {
        2
    } else if i == 2 {
        4
    } else if i == 3 {
        8
    } else {
        16
    }
}

/// Interrupt dispatch: when a line is both requested and enabled, the lowest
/// one has its request cleared, IME is cleared, PC is pushed and PC jumps to
/// the line's vector. `None` when no line is pending.
pub open spec fn dispatch_spec(s: Machine) -> Result<Option<Machine>, CpuError> {
    let iflag = s.mem[ADDRESS_IF as int];
    let i = lowest_line(iflag & s.mem[ADDRESS_IE as int]);
    if i == 5 {
        Ok(None)
    } else {
        let s1 = with_ime(prog_write(s, ADDRESS_IF, iflag & !line_mask(i)), false);
        match push16(s1, s1.shared.r.pc) {
            Err(e) => Err(e),
            Ok(s2) => Ok(Some(with_pc(s2, (0x40 + 8 * i) as u16))),
        }
    }
}

/// Takes the highest-priority pending interrupt, if one is both requested and
/// enabled; whether one was taken.
pub fn dispatch_interrupt(mem: &mut BasicMemory) -> (r: Result<bool, CpuError>)
    requires
        old(mem).wf(),
    ensures
        final(mem).wf(),
        match dispatch_spec(old(mem)@) {
            Ok(None) => r == Ok::<bool, CpuError>(false) && final(mem)@ == old(mem)@,
            Ok(Some(s)) => r == Ok::<bool, CpuError>(true) && final(mem)@ == s,
            Err(e) => r == Err::<bool, CpuError>(e),
        },
{
    let interrupt_requests = mem.read_8(ADDRESS_IF);
    let interrupt_enabled = mem.read_8(ADDRESS_IE);
    let pending = interrupt_requests & interrupt_enabled;
    let i: u8 = if pending & 1 != 0 {
        0
    } else if pending & 2 != 0 {
        1
    } else if pending & 4 != 0 {
        2
    } else if pending & 8 != 0 {
        3
    } else if pending & 16 != 0 {
        4
    } else {
        return Ok(false);
    };
    let mask: u8 = if i == 0 {
        1
    } else if i == 1 {
        2
    } else if i == 2 {
        4
    } else if i == 3 {
        8
    } else {
        16
    };
    mem.write_8(ADDRESS_IF, interrupt_requests & !mask);
    mem.shared_data.ime = false;
    let pc = mem.shared_data.r.pc;
    let sp = mem.shared_data.r.sp;
    let a1: u16 = if sp == 0 { 0xFFFF } else { sp - 1 };
    let a2: u16 = if a1 == 0 { 0xFFFF } else { a1 - 1 };
    if 0xA000 <= a1 && a1 < 0xC000 {
        return Err(CpuError::BusFault(a1));
    }
    mem.write_8(a1, (pc / 256) as u8);
    if 0xA000 <= a2 && a2 < 0xC000 {
        return Err(CpuError::BusFault(a2));
    }
    mem.write_8(a2, (pc % 256) as u8);
    mem.shared_data.r.sp = a2;
    mem.shared_data.r.pc = ADDRESS_FIRST_INTERRUPT_HANDLER + i as u16 * 8;
    Ok(true)
}

/// The EI delay: IME as the CPU acts on it lags the latch that EI sets by
/// one instruction, while DI takes effect at once.
#[derive(Clone, Copy, Debug, PartialEq, Eq, Structural)]
pub struct ImeLatch {
    pub enabled: bool,
    pub enable_next: bool,
}

impl ImeLatch {
    pub fn new() -> (r: ImeLatch)
        ensures
            !r.enabled && !r.enable_next,
    {
        ImeLatch { enabled: false, enable_next: false }
    }

    /// Follows IME after an instruction: cleared IME disables at once; a set
    /// IME enables once one further instruction has run.
    pub fn update(&mut self, ime: bool)
        ensures
            !ime ==> !final(self).enabled && !final(self).enable_next,
            ime && old(self).enabled ==> *final(self) == *old(self),
            ime && !old(self).enabled && old(self).enable_next ==> final(self).enabled
                && !final(self).enable_next,
            ime && !old(self).enabled && !old(self).enable_next ==> !final(self).enabled
                && final(self).enable_next,
    {
        if !ime {
            self.enabled = false;
            self.enable_next = false;
        } else if !self.enabled {
            if self.enable_next {
                self.enabled = true;
                self.enable_next = false;
            } else {
                self.enable_next = true;
            }
        }
    }
}

/// One CPU step of the system loop: an interrupt dispatch when IME is in
/// effect and one is pending; otherwise one DMA byte and one instruction.
pub open spec fn cpu_step_spec(s: Machine, ime_enabled: bool) -> Result<(Machine, u64), CpuError> {
    let d = if ime_enabled {
        dispatch_spec(s)
    } else {
        Ok(None)
    };
    match d {
        Err(e) => Err(e),
        Ok(Some(s1)) => Ok((s1, INTERRUPT_CYCLES)),
        Ok(None) => match dma_spec(s) {
            Err(a) => Err(CpuError::BusFault(a)),
            Ok(s1) => step(s1),
        },
    }
}

/// The latch after a step: RETI enables at once; otherwise IME is followed
/// with the EI delay.
pub open spec fn latch_after(l: ImeLatch, ime: bool, reti: bool) -> ImeLatch {
    if reti && ime {
        ImeLatch { enabled: true, enable_next: false }
    } else if !ime {
        ImeLatch { enabled: false, enable_next: false }
    } else if l.enabled {
        l
    } else if l.enable_next {
        ImeLatch { enabled: true, enable_next: false }
    } else {
        ImeLatch { enabled: false, enable_next: true }
    }
}

/// Runs one CPU step and the EI delay after it; the machine cycles taken.
/// An instruction RETI makes interrupts acceptable from the next step on.
pub fn cpu_step(mem: &mut BasicMemory, latch: &mut ImeLatch) -> (r: Result<u64, CpuError>)
    requires
        old(mem).wf(),
    ensures
        final(mem).wf(),
        outcome(r, final(mem)@, cpu_step_spec(old(mem)@, old(latch).enabled)),
        r is Ok ==> {
            let dispatched = old(latch).enabled && dispatch_spec(old(mem)@) matches Ok(Some(_));
            let s = dma_spec(old(mem)@)->Ok_0;
            let reti = !dispatched && readable(s.shared.r.pc) && s.mem[s.shared.r.pc as int] == 0xD9;
            *final(latch) == latch_after(*old(latch), final(mem)@.shared.ime, reti)
        },
{
    let mut dispatched = false;
    if latch.enabled {
        match dispatch_interrupt(mem) {
            Err(e) => return Err(e),
            Ok(d) => {
                dispatched = d;
            },
        }
    }
    let mut reti = false;
    let cycles = if dispatched {
        INTERRUPT_CYCLES
    } else {
        match mem.dma_step() {
            Err(a) => return Err(CpuError::BusFault(a)),
            Ok(()) => {},
        }
        let pc = mem.shared_data.r.pc;
        reti = BasicMemory::can_read(pc) && mem.read_8(pc) == 0xD9;
        match process_instruction(mem) {
            Err(e) => return Err(e),
            Ok(c) => c,
        }
    };
    if reti && mem.shared_data.ime {
        latch.enabled = true;
        latch.enable_next = false;
    } else {
        latch.update(mem.shared_data.ime);
    }
    Ok(cycles)
}

/// The wait in nanoseconds after an instruction of `cycles` machine cycles.
pub fn wait_cycles(cycles: u64) -> (r: Option<u64>)
    ensures
        cycles as int * CYCLE_NS as int <= u64::MAX ==> r == Some((cycles as int * CYCLE_NS as int) as u64),
        cycles as int * CYCLE_NS as int > u64::MAX ==> r is None,
{
    cycles.checked_mul(CYCLE_NS)
}

/// Advances DIV by one, wrapping.
pub fn div_tick(mem: &mut BasicMemory)
    requires
        old(mem).wf(),
    ensures
        final(mem).wf(),
        final(mem)@ == sys_write(
            old(mem)@,
            ADDRESS_DIV,
            ((old(mem)@.mem[ADDRESS_DIV as int] as int + 1) % 256) as u8,
        ),
{
    let div = mem.read_8_sys(ADDRESS_DIV);
    mem.write_8_sys(ADDRESS_DIV, if div == 255 { 0 } else { div + 1 });
}

/// Nanoseconds between two TIMA increments for the clock select of TAC:
/// 4096, 262144, 65536 and 16384 Hz.
pub open spec fn timer_period_spec(tac: u8) -> u64 {
    if tac % 4 == 0 {
        244141
    } else if tac % 4 == 1 {
        3815
    } else if tac % 4 == 2 {
        15259
    } else {
        61035
    }
}

/// TIMA after one tick of an enabled timer, and whether it overflowed.
pub open spec fn timer_spec(s: Machine) -> Machine {
    let tima = s.mem[ADDRESS_TIMA as int];
    if s.mem[ADDRESS_TAC as int] & 4 == 0 {
        s
    } else if tima == 0xFF {
        sys_write(
            sys_write(s, ADDRESS_IF, s.mem[ADDRESS_IF as int] | 4),
            ADDRESS_TIMA,
            s.mem[ADDRESS_TMA as int],
        )
    } else {
        sys_write(s, ADDRESS_TIMA, (tima + 1) as u8)
    }
}

/// One tick of the programmable timer. When TAC enables it, TIMA counts up;
/// an overflow reloads TMA and requests the timer interrupt. Returns the
/// wait until the next tick, or `None` while the timer is stopped.
pub fn timer_tick(mem: &mut BasicMemory) -> (r: Option<u64>)
    requires
        old(mem).wf(),
    ensures
        final(mem).wf(),
        final(mem)@ == timer_spec(old(mem)@),
        old(mem)@.mem[ADDRESS_TAC as int] & 4 == 0 ==> r is None,
        old(mem)@.mem[ADDRESS_TAC as int] & 4 != 0 ==> r == Some(
            timer_period_spec(old(mem)@.mem[ADDRESS_TAC as int]),
        ),
{
    let tac = mem.read_8_sys(ADDRESS_TAC);
    if tac & 4 == 0 {
        return None;
    }
    let tima = mem.read_8_sys(ADDRESS_TIMA);
    if tima == 0xFF {
        let iflag = mem.read_8_sys(ADDRESS_IF);
        mem.write_8_sys(ADDRESS_IF, iflag | 4);
        let tma = mem.read_8_sys(ADDRESS_TMA);
        mem.write_8_sys(ADDRESS_TIMA, tma);
    } else {
        mem.write_8_sys(ADDRESS_TIMA, tima + 1);
    }
    let period: u64 = if tac % 4 == 0 {
        244141
    } else if tac % 4 == 1 {
        3815
    } else if tac % 4 == 2 {
        15259
    } else {
        61035
    };
    Some(period)
}

/// Why a cartridge image cannot be booted.
#[derive(Clone, Copy, Debug, PartialEq, Eq, Structural)]
pub enum BootError {
    /// The image ends before its header's controller byte.
    MissingHeader,
    /// The header names a memory-bank controller other than none.
    UnsupportedMbc(u8),
}

/// The machine at the point where the boot ROM hands over: SP at 0xFFFE,
/// LCDC 0x83, IME cleared, PC at 0x0100, the image in ROM. Only images
/// without a memory-bank controller (header byte 0x0147 zero) are taken.
pub fn boot(rom: Vec<u8>) -> (r: Result<BasicMemory, BootError>)
    ensures
        rom.len() <= ADDRESS_MBC_TYPE ==> r == Err::<BasicMemory, BootError>(BootError::MissingHeader),
        rom.len() > ADDRESS_MBC_TYPE && rom[ADDRESS_MBC_TYPE as int] != 0 ==> r == Err::<
            BasicMemory,
            BootError,
        >(BootError::UnsupportedMbc(rom[ADDRESS_MBC_TYPE as int])),
        rom.len() > ADDRESS_MBC_TYPE && rom[ADDRESS_MBC_TYPE as int] == 0 ==> (r matches Ok(m) && {
            &&& m.wf()
            &&& m.shared_data.r.sp == ADDRESS_STACK_START
            &&& m.shared_data.r.pc == ADDRESS_ENTRY_POINT
            &&& !m.shared_data.ime
            &&& m@.mem[ADDRESS_LCDC as int] == 0x83
            &&& forall|a: u16| a < 0x8000 && (a as int) < rom.len() ==> #[trigger] m@.mem[a as int] == rom[a as int]
            &&& forall|a: u16| a < 0x8000 && (a as int) >= rom.len() ==> #[trigger] m@.mem[a as int] == 0
            &&& forall|a: u16| a >= 0x8000 && a != ADDRESS_LCDC ==> #[trigger] m@.mem[a as int] == 0
            &&& m.shared_data.r.a == 0 && m.shared_data.r.f == flags_of(0)
            &&& m.shared_data.r.bc.view16() == 0 && m.shared_data.r.de.view16() == 0
            &&& m.shared_data.r.hl.view16() == 0
            &&& m.shared_data.dma_source_address == 0
            &&& m.shared_data.inputs == Inputs::default_spec()
        }),
{
    if rom.len() <= ADDRESS_MBC_TYPE as usize {
        return Err(BootError::MissingHeader);
    }
    let mbc_type = rom[ADDRESS_MBC_TYPE as usize];
    if mbc_type != 0 {
        return Err(BootError::UnsupportedMbc(mbc_type));
    }
    let ghost image = rom@;
    let mut mem = BasicMemory::new(rom);
    let ghost m0 = mem;
    mem.shared_data.r.sp = ADDRESS_STACK_START;
    mem.write_8(ADDRESS_LCDC, 0x83);
    mem.shared_data.ime = false;
    mem.shared_data.r.pc = ADDRESS_ENTRY_POINT;
    assert forall|a: u16| a < 0x8000 && (a as int) < image.len() implies #[trigger] mem@.mem[a as int] == image[a as int] by {
        assert(m0.byte_at(a) == image[a as int]);
    }
    assert forall|a: u16| a < 0x8000 && (a as int) >= image.len() implies #[trigger] mem@.mem[a as int] == 0 by {
        assert(m0.byte_at(a) == 0);
    }
    assert forall|a: u16| a >= 0x8000 && a != ADDRESS_LCDC implies #[trigger] mem@.mem[a as int] == 0 by {
        assert(m0.byte_at(a) == 0);
    }
    Ok(mem)
}

} // verus!
