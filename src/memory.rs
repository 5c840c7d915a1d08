use vstd::prelude::*;

verus! {

/// The 16-bit value whose high byte is `h` and low byte is `l`.
pub open spec fn word(h: u8, l: u8) -> u16 {
    (h as int * 256 + l as int) as u16
}

/// Joins a high and a low byte into a 16-bit value.
pub fn u8s_to_u16(h: u8, l: u8) -> (r: u16)
    ensures
        r == word(h, l),
        r as int == h as int * 256 + l as int,
{
    (h as u16) * 256 + (l as u16)
}

/// Splits a 16-bit value into its high and low bytes.
pub fn u16_to_u8s(d: u16) -> (r: (u8, u8))
    ensures
        r.0 as int == d as int / 256,
        r.1 as int == d as int % 256,
        word(r.0, r.1) == d,
{
    ((d / 256) as u8, (d % 256) as u8)
}

/// The four meaningful bits of the flag register.
#[derive(Clone, Copy, Debug, PartialEq, Eq, Structural)]
pub struct RegisterFlags {
    pub z: bool,
    pub n: bool,
    pub h: bool,
    pub cy: bool,
}

/// The byte a flag set reads as: Z, N, H, CY in bits 7 to 4, low nibble zero.
pub open spec fn flag_bits(f: RegisterFlags) -> u8 {
    ((if f.z { 0x80int } else { 0 }) + (if f.n { 0x40int } else { 0 }) + (if f.h { 0x20int } else { 0 })
        + (if f.cy { 0x10int } else { 0 })) as u8
}

/// The flag set that a byte loads as: bits 7 to 4, the low nibble dropped.
pub open spec fn flags_of(v: u8) -> RegisterFlags {
    RegisterFlags {
        z: v as int / 0x80 % 2 == 1,
        n: v as int / 0x40 % 2 == 1,
        h: v as int / 0x20 % 2 == 1,
        cy: v as int / 0x10 % 2 == 1,
    }
}

impl RegisterFlags {
    pub fn empty() -> (r: RegisterFlags)
        ensures
            !r.z && !r.n && !r.h && !r.cy,
    {
        RegisterFlags { z: false, n: false, h: false, cy: false }
    }

    /// The byte this flag set reads as.
    pub fn bits(&self) -> (r: u8)
        ensures
            r == flag_bits(*self),
            r % 16 == 0,
    {
        let mut v: u8 = 0;
        if self.z {
            v = v + 0x80;
        }
        if self.n {
            v = v + 0x40;
        }
        if self.h {
            v = v + 0x20;
        }
        if self.cy {
            v = v + 0x10;
        }
        v
    }

    /// Loads the upper four bits of `v`; the lower four cannot be held.
    pub fn from_bits_truncate(v: u8) -> (r: RegisterFlags)
        ensures
            r == flags_of(v),
    {
        RegisterFlags {
            z: v / 0x80 % 2 == 1,
            n: v / 0x40 % 2 == 1,
            h: v / 0x20 % 2 == 1,
            cy: v / 0x10 % 2 == 1,
        }
    }
}

/// Reading a flag set back as a byte and loading that byte gives the same flags.
pub proof fn lemma_flags_round_trip(f: RegisterFlags)
    ensures
        flags_of(flag_bits(f)) == f,
{
}

/// Loading a byte into the flag register and reading it back keeps the upper
/// nibble and clears the lower one.
pub proof fn lemma_flag_bits_of(v: u8)
    ensures
        flag_bits(flags_of(v)) as int == v as int - v as int % 16,
{
}

/// Two 8-bit registers used together as one 16-bit register: `ind.0` is the
/// high byte, `ind.1` the low byte.
#[derive(Clone, Copy, Debug)]
pub struct RegisterPair {
    pub ind: (u8, u8),
}

/// The pair holding a 16-bit value.
pub open spec fn pair_of(v: u16) -> RegisterPair {
    RegisterPair { ind: ((v as int / 256) as u8, (v as int % 256) as u8) }
}

impl RegisterPair {
    pub open spec fn view16(&self) -> u16 {
        word(self.ind.0, self.ind.1)
    }

    pub fn default() -> (r: RegisterPair)
        ensures
            r.ind == (0u8, 0u8),
    {
        RegisterPair { ind: (0, 0) }
    }

    /// The pair read as one 16-bit value.
    pub fn r16(&self) -> (r: u16)
        ensures
            r == self.view16(),
    {
        u8s_to_u16(self.ind.0, self.ind.1)
    }

    /// Stores a 16-bit value, high byte first.
    pub fn s16(&mut self, val: u16)
        ensures
            final(self).view16() == val,
            *final(self) == pair_of(val),
            final(self).ind.0 as int == val as int / 256,
            final(self).ind.1 as int == val as int % 256,
    {
        self.ind = u16_to_u8s(val);
    }

    /// Adds one, wrapping from 0xFFFF to 0; a carry out of the low byte
    /// reaches the high byte.
    pub fn uinc16(&mut self)
        ensures
            final(self).view16() as int == (old(self).view16() as int + 1) % 0x10000,
            *final(self) == pair_of(((old(self).view16() as int + 1) % 0x10000) as u16),
    {
        if self.ind.1 == 0xFF {
            self.ind.1 = 0;
            self.ind.0 = if self.ind.0 == 0xFF { 0 } else { self.ind.0 + 1 };
        } else {
            self.ind.1 = self.ind.1 + 1;
        }
    }

    /// Subtracts one, wrapping from 0 to 0xFFFF; a borrow out of the low byte
    /// reaches the high byte.
    pub fn udec16(&mut self)
        ensures
            final(self).view16() as int == (old(self).view16() as int + 0xFFFF) % 0x10000,
            *final(self) == pair_of(((old(self).view16() as int + 0xFFFF) % 0x10000) as u16),
    {
        if self.ind.1 == 0 {
            self.ind.1 = 0xFF;
            self.ind.0 = if self.ind.0 == 0 { 0xFF } else { self.ind.0 - 1 };
        } else {
            self.ind.1 = self.ind.1 - 1;
        }
    }
}

/// The register file.
#[derive(Clone, Copy, Debug)]
pub struct Registers {
    pub a: u8,
    pub f: RegisterFlags,
    pub bc: RegisterPair,
    pub de: RegisterPair,
    pub hl: RegisterPair,
    pub pc: u16,
    pub sp: u16,
}

/// `r` with its flags replaced by `f`.
pub open spec fn with_flags(r: Registers, f: RegisterFlags) -> Registers {
    Registers { f: f, ..r }
}

impl Registers {
    pub fn default() -> (r: Registers)
        ensures
            r.a == 0 && r.pc == 0 && r.sp == 0,
            r.f == flags_of(0),
            r.bc.view16() == 0 && r.de.view16() == 0 && r.hl.view16() == 0,
    {
        Registers {
            a: 0,
            f: RegisterFlags::empty(),
            bc: RegisterPair::default(),
            de: RegisterPair::default(),
            hl: RegisterPair::default(),
            pc: 0,
            sp: 0,
        }
    }

    /// Loads the flag register from a byte popped off the stack; the lower
    /// nibble of the byte is dropped.
    pub fn set_flags_unchecked(&mut self, data: u8)
        ensures
            *final(self) == with_flags(*old(self), flags_of(data)),
    {
        self.f = RegisterFlags::from_bits_truncate(data);
    }
}

/// The nine buttons of the host.
#[derive(Clone, Copy, Debug, PartialEq, Eq, Structural)]
pub struct Inputs {
    pub down: bool,
    pub up: bool,
    pub left: bool,
    pub right: bool,
    pub start: bool,
    pub select: bool,
    pub b: bool,
    pub a: bool,
    pub reset: bool,
}

impl Inputs {
    /// No button held.
    pub open spec fn default_spec() -> Inputs {
        Inputs {
            down: false,
            up: false,
            left: false,
            right: false,
            start: false,
            select: false,
            b: false,
            a: false,
            reset: false,
        }
    }

    pub fn default() -> (r: Inputs)
        ensures
            r == Inputs::default_spec(),
    {
        Inputs {
            down: false,
            up: false,
            left: false,
            right: false,
            start: false,
            select: false,
            b: false,
            a: false,
            reset: false,
        }
    }
}

/// State that the bus holds beside its bytes: the registers, the interrupt
/// master enable, the armed DMA source and the latest host input.
#[derive(Clone, Copy, Debug)]
pub struct MemorySharedData {
    pub r: Registers,
    pub ime: bool,
    pub dma_source_address: u16,
    pub inputs: Inputs,
}

impl MemorySharedData {
    /// All registers zero, interrupts disabled, no DMA armed, no button held.
    pub open spec fn is_initial(&self) -> bool {
        &&& self.r.a == 0 && self.r.pc == 0 && self.r.sp == 0
        &&& self.r.f == flags_of(0)
        &&& self.r.bc.view16() == 0 && self.r.de.view16() == 0 && self.r.hl.view16() == 0
        &&& !self.ime
        &&& self.dma_source_address == 0
        &&& self.inputs == Inputs::default_spec()
    }

    pub fn default() -> (r: MemorySharedData)
        ensures
            r.is_initial(),
    {
        MemorySharedData {
            r: Registers::default(),
            ime: false,
            dma_source_address: 0,
            inputs: Inputs::default(),
        }
    }
}

} // verus!
