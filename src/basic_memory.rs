use vstd::prelude::*;

use crate::constants::{ADDRESS_DIV, ADDRESS_DMA_CONTROL, ADDRESS_IF, ADDRESS_JOYP, ADDRESS_LY, ADDRESS_OAM_START, ADDRESS_STAT};
use crate::memory::{Inputs, MemorySharedData};

verus! {

/// Addresses whose reads are defined: all but cartridge RAM (absent without a
/// memory-bank controller) and the prohibited range.
pub open spec fn readable(addr: u16) -> bool {
    !(0xA000 <= addr < 0xC000) && !(0xFEA0 <= addr < 0xFF00)
}

/// Addresses a write may name: all but the absent cartridge RAM.
pub open spec fn writable(addr: u16) -> bool {
    !(0xA000 <= addr < 0xC000)
}

/// Addresses whose writes are kept: not ROM, cartridge RAM or the prohibited range.
pub open spec fn stores(addr: u16) -> bool {
    addr >= 0x8000 && !(0xA000 <= addr < 0xC000) && !(0xFEA0 <= addr < 0xFF00)
}

/// The address that holds the byte: the echo range names work RAM 0x2000 lower.
pub open spec fn canonical(addr: u16) -> u16 {
    if 0xE000 <= addr < 0xFE00 {
        (addr - 0x2000) as u16
    } else {
        addr
    }
}

/// The bits of the joypad's low nibble that the pressed buttons of the
/// selected rows clear. Bit 4 cleared selects the directions, bit 5 cleared
/// the action buttons.
pub open spec fn pressed_bits(sel: u8, inputs: Inputs) -> u8 {
    let dirs = (if inputs.right { 1u8 } else { 0u8 }) | (if inputs.left { 2u8 } else { 0u8 }) | (
    if inputs.up { 4u8 } else { 0u8 }) | (if inputs.down { 8u8 } else { 0u8 });
    let acts = (if inputs.a { 1u8 } else { 0u8 }) | (if inputs.b { 2u8 } else { 0u8 }) | (
    if inputs.select { 4u8 } else { 0u8 }) | (if inputs.start { 8u8 } else { 0u8 });
    (if sel & 0x10 == 0 { dirs } else { 0u8 }) | (if sel & 0x20 == 0 { acts } else { 0u8 })
}

/// JOYP after the matrix is evaluated for the row selection in `sel`.
pub open spec fn joypad_value(sel: u8, inputs: Inputs) -> u8 {
    (sel | 0x0F) & !pressed_bits(sel, inputs)
}

/// Whether a bit of the low nibble went from set to cleared.
pub open spec fn joypad_irq(before: u8, after: u8) -> bool {
    (before & !after) & 0x0F != 0
}

/// The byte that backing stores hold for `addr`; zero where nothing is stored.
pub open spec fn byte_in(
    rom: Seq<u8>,
    vram: Seq<u8>,
    ram: Seq<u8>,
    oam: Seq<u8>,
    system_mem: Seq<u8>,
    addr: u16,
) -> u8 {
    let c = canonical(addr);
    if c < 0x8000 {
        rom[c as int]
    } else if c < 0xA000 {
        vram[c - 0x8000]
    } else if c < 0xC000 {
        0
    } else if c < 0xE000 {
        ram[c - 0xC000]
    } else if c < 0xFE00 {
        0
    } else if c < 0xFEA0 {
        oam[c - 0xFE00]
    } else if c < 0xFF00 {
        0
    } else {
        system_mem[c - 0xFF00]
    }
}

/// The whole 16-bit address space as a sequence of 0x10000 bytes.
pub open spec fn address_space(
    rom: Seq<u8>,
    vram: Seq<u8>,
    ram: Seq<u8>,
    oam: Seq<u8>,
    system_mem: Seq<u8>,
) -> Seq<u8> {
    Seq::new(0x10000, |i: int| byte_in(rom, vram, ram, oam, system_mem, i as u16))
}

/// The state of the machine as the program and the PPU see it: the shared
/// data and the byte read at each address.
pub struct Machine {
    pub shared: MemorySharedData,
    pub mem: Seq<u8>,
}

/// The bytes after a raw store of `val` at `addr`.
pub open spec fn stored(mem: Seq<u8>, addr: u16, val: u8) -> Seq<u8> {
    Seq::new(
        0x10000,
        |i: int|
            if stores(addr) && canonical(i as u16) == canonical(addr) {
                val
            } else {
                mem[i]
            },
    )
}

/// The machine after a write by the program, with its side effects.
pub open spec fn prog_write(s: Machine, addr: u16, val: u8) -> Machine {
    if addr == ADDRESS_JOYP {
        let sel = (s.mem[ADDRESS_JOYP as int] & 0xCF) | (val & 0x30);
        let new = joypad_value(sel, s.shared.inputs);
        let m1 = s.mem.update(ADDRESS_JOYP as int, new);
        Machine {
            shared: s.shared,
            mem: if joypad_irq(sel, new) {
                m1.update(ADDRESS_IF as int, s.mem[ADDRESS_IF as int] | 0x10)
            } else {
                m1
            },
        }
    } else if addr == ADDRESS_LY {
        s
    } else if addr == ADDRESS_DMA_CONTROL {
        Machine {
            shared: MemorySharedData { dma_source_address: (val as int * 256) as u16, ..s.shared },
            mem: stored(s.mem, addr, val),
        }
    } else {
        Machine {
            shared: s.shared,
            mem: stored(
                s.mem,
                addr,
                if addr == ADDRESS_DIV {
                    0
                } else if addr == ADDRESS_STAT {
                    (val & 0xF8) | (s.mem[ADDRESS_STAT as int] & 7)
                } else {
                    val
                },
            ),
        }
    }
}

/// The machine with its DMA source advanced by one.
pub open spec fn dma_advanced(s: Machine) -> Machine {
    Machine {
        shared: MemorySharedData {
            dma_source_address: (s.shared.dma_source_address + 1) as u16,
            ..s.shared
        },
        mem: s.mem,
    }
}

/// One byte of DMA: from the source into OAM at the source's low byte; a
/// source in the absent cartridge RAM is a fault.
pub open spec fn dma_spec(s: Machine) -> Result<Machine, u16> {
    let src = s.shared.dma_source_address;
    if !(0x8000 <= src < 0xE000 && src % 256 <= 0x9F) {
        Ok(s)
    } else if !readable(src) {
        Err(src)
    } else {
        Ok(sys_write(dma_advanced(s), (0xFE00 + src % 256) as u16, s.mem[src as int]))
    }
}

/// The machine after a raw store, without side effects.
pub open spec fn sys_write(s: Machine, addr: u16, val: u8) -> Machine {
    Machine { shared: s.shared, mem: stored(s.mem, addr, val) }
}

/// The bus of a cartridge without a memory-bank controller.
pub struct BasicMemory {
    pub shared_data: MemorySharedData,
    pub rom: Vec<u8>,
    pub vram: Vec<u8>,
    pub ram: Vec<u8>,
    pub oam: Vec<u8>,
    pub system_mem: Vec<u8>,
}

/// The bytes of `post` are those of `pre` but at the cell that `addr` names,
/// which holds `val` where writes are kept.
pub open spec fn bytes_written(pre: BasicMemory, post: BasicMemory, addr: u16, val: u8) -> bool {
    forall|a: u16| #[trigger]
        post.byte_at(a) == if stores(addr) && canonical(a) == canonical(addr) {
            val
        } else {
            pre.byte_at(a)
        }
}

/// The bytes of `post` are those of `pre`.
pub open spec fn bytes_same(pre: BasicMemory, post: BasicMemory) -> bool {
    forall|a: u16| #[trigger] post.byte_at(a) == pre.byte_at(a)
}

/// What the joypad matrix does to the bus, for the row selection in `sel`.
pub open spec fn joypad_evaluated(pre: BasicMemory, post: BasicMemory, sel: u8) -> bool {
    let new = joypad_value(sel, pre.shared_data.inputs);
    &&& post.wf()
    &&& post.shared_data == pre.shared_data
    &&& forall|a: u16| #[trigger]
        post.byte_at(a) == if a == ADDRESS_JOYP {
            new
        } else if a == ADDRESS_IF && joypad_irq(sel, new) {
            pre.byte_at(ADDRESS_IF) | 0x10
        } else {
            pre.byte_at(a)
        }
}

/// What a write by the program does: the side effects of JOYP, DIV, STAT, LY
/// and DMA, then the store.
pub open spec fn program_written(pre: BasicMemory, post: BasicMemory, addr: u16, val: u8) -> bool {
    if addr == ADDRESS_JOYP {
        joypad_evaluated(pre, post, (pre.byte_at(ADDRESS_JOYP) & 0xCF) | (val & 0x30))
    } else if addr == ADDRESS_LY {
        post.wf() && post.shared_data == pre.shared_data && bytes_same(pre, post)
    } else if addr == ADDRESS_DMA_CONTROL {
        &&& post.wf()
        &&& post.shared_data == (MemorySharedData {
            dma_source_address: (val as int * 256) as u16,
            ..pre.shared_data
        })
        &&& bytes_written(pre, post, addr, val)
    } else {
        &&& post.wf()
        &&& post.shared_data == pre.shared_data
        &&& bytes_written(
            pre,
            post,
            addr,
            if addr == ADDRESS_DIV {
                0
            } else if addr == ADDRESS_STAT {
                (val & 0xF8) | (pre.byte_at(ADDRESS_STAT) & 7)
            } else {
                val
            },
        )
    }
}

impl View for BasicMemory {
    type V = Machine;

    open spec fn view(&self) -> Machine {
        Machine {
            shared: self.shared_data,
            mem: address_space(self.rom@, self.vram@, self.ram@, self.oam@, self.system_mem@),
        }
    }
}

impl BasicMemory {
    /// The sizes of the backing stores.
    pub open spec fn wf(&self) -> bool {
        &&& self.rom.len() == 0x8000
        &&& self.vram.len() == 0x2000
        &&& self.ram.len() == 0x2000
        &&& self.oam.len() == 0xA0
        &&& self.system_mem.len() == 0x100
    }

    /// The byte stored for `addr`; zero where nothing is stored.
    pub open spec fn byte_at(&self, addr: u16) -> u8 {
        byte_in(self.rom@, self.vram@, self.ram@, self.oam@, self.system_mem@, addr)
    }

    /// A bus whose ROM holds the image, zero-padded or cut to 0x8000 bytes,
    /// with every other byte zero.
    pub fn new(rom: Vec<u8>) -> (r: BasicMemory)
        ensures
            r.wf(),
            r.shared_data.is_initial(),
            forall|a: u16| #[trigger]
                r.byte_at(a) == if a < 0x8000 {
                    if (a as int) < rom.len() {
                        rom[a as int]
                    } else {
                        0
                    }
                } else {
                    0u8
                },
    {
        let mut image: Vec<u8> = Vec::new();
        let mut i: usize = 0;
        while i < 0x8000
            invariant
                i <= 0x8000,
                image.len() == i,
                forall|j: int|
                    0 <= j < i ==> #[trigger] image@[j] == if j < rom.len() {
                        rom@[j]
                    } else {
                        0u8
                    },
            decreases 0x8000 - i,
        {
            if i < rom.len() {
                image.push(rom[i]);
            } else {
                image.push(0);
            }
            i = i + 1;
        }
        BasicMemory {
            shared_data: MemorySharedData::default(),
            rom: image,
            vram: vec![0u8; 0x2000],
            ram: vec![0u8; 0x2000],
            oam: vec![0u8; 0xA0],
            system_mem: vec![0u8; 0x100],
        }
    }

    /// A bus with an all-zero ROM.
    pub fn default() -> (r: BasicMemory)
        ensures
            r.wf(),
            r.shared_data.is_initial(),
            forall|a: u16| #[trigger] r.byte_at(a) == 0,
    {
        BasicMemory::new(Vec::new())
    }

    pub fn shared_data(&self) -> (r: &MemorySharedData)
        ensures
            *r == self.shared_data,
    {
        &self.shared_data
    }

    /// Whether a read of `addr` is defined.
    pub fn can_read(addr: u16) -> (r: bool)
        ensures
            r == readable(addr),
    {
        !(0xA000 <= addr && addr < 0xC000) && !(0xFEA0 <= addr && addr < 0xFF00)
    }

    /// The program's read; reads have no side effects.
    pub fn read_8(&self, addr: u16) -> (r: u8)
        requires
            self.wf(),
            readable(addr),
        ensures
            r == self.byte_at(addr),
            r == self@.mem[addr as int],
    {
        self.read_8_sys(addr)
    }

    /// The raw read of the backing store.
    pub fn read_8_sys(&self, addr: u16) -> (r: u8)
        requires
            self.wf(),
            readable(addr),
        ensures
            r == self.byte_at(addr),
            r == self@.mem[addr as int],
    {
        if addr < 0x8000 {
            self.rom[addr as usize]
        } else if addr < 0xA000 {
            self.vram[(addr - 0x8000) as usize]
        } else if addr < 0xE000 {
            self.ram[(addr - 0xC000) as usize]
        } else if addr < 0xFE00 {
            self.ram[(addr - 0xE000) as usize]
        } else if addr < 0xFEA0 {
            self.oam[(addr - 0xFE00) as usize]
        } else {
            self.system_mem[(addr - 0xFF00) as usize]
        }
    }

    /// The raw write of the backing store, without side effects. Writes to
    /// ROM and to the prohibited range are dropped.
    pub fn write_8_sys(&mut self, addr: u16, val: u8)
        requires
            old(self).wf(),
            writable(addr),
        ensures
            final(self).wf(),
            final(self).shared_data == old(self).shared_data,
            bytes_written(*old(self), *final(self), addr, val),
            final(self)@ == sys_write(old(self)@, addr, val),
    {
        let ghost pre = *self;
        if addr < 0x8000 {
        } else if addr < 0xA000 {
            self.vram[(addr - 0x8000) as usize] = val;
        } else if addr < 0xE000 {
            self.ram[(addr - 0xC000) as usize] = val;
        } else if addr < 0xFE00 {
            self.ram[(addr - 0xE000) as usize] = val;
        } else if addr < 0xFEA0 {
            self.oam[(addr - 0xFE00) as usize] = val;
        } else if addr < 0xFF00 {
        } else {
            self.system_mem[(addr - 0xFF00) as usize] = val;
        }
        proof {
            lemma_sys_write_view(pre, *self, addr, val);
        }
    }

    /// The program's write: JOYP keeps bits 4 and 5 of the value and re-runs
    /// the joypad matrix, DIV is zeroed, STAT keeps its three low bits, LY is
    /// left alone, DMA arms a copy from `val * 0x100`.
    pub fn write_8(&mut self, addr: u16, val: u8)
        requires
            old(self).wf(),
            writable(addr),
        ensures
            program_written(*old(self), *final(self), addr, val),
            final(self)@ == prog_write(old(self)@, addr, val),
    {
        let ghost pre = *self;
        if addr == ADDRESS_JOYP {
            let joyp_orig = self.read_8_sys(ADDRESS_JOYP);
            self.write_8_sys(ADDRESS_JOYP, (joyp_orig & 0xCF) | (val & 0x30));
            self.process_input();
        } else if addr == ADDRESS_LY {
        } else if addr == ADDRESS_DIV {
            self.write_8_sys(addr, 0);
        } else if addr == ADDRESS_STAT {
            let stat = self.read_8_sys(ADDRESS_STAT);
            self.write_8_sys(addr, (val & 0xF8) | (stat & 7));
        } else if addr == ADDRESS_DMA_CONTROL {
            self.shared_data.dma_source_address = val as u16 * 256;
            self.write_8_sys(addr, val);
        } else {
            self.write_8_sys(addr, val);
        }
        proof {
            lemma_prog_write_view(pre, *self, addr, val);
        }
    }

    /// Evaluates the joypad matrix for the row selection held in JOYP and the
    /// latest host input; requests the joypad interrupt when a bit of the low
    /// nibble goes from set to cleared.
    pub fn process_input(&mut self)
        requires
            old(self).wf(),
        ensures
            joypad_evaluated(*old(self), *final(self), old(self).byte_at(ADDRESS_JOYP)),
    {
        let joyp_orig = self.read_8_sys(ADDRESS_JOYP);
        let input = self.shared_data.inputs;
        let dirs: u8 = (if input.right { 1u8 } else { 0u8 }) | (if input.left { 2u8 } else { 0u8 }) | (
        if input.up { 4u8 } else { 0u8 }) | (if input.down { 8u8 } else { 0u8 });
        let acts: u8 = (if input.a { 1u8 } else { 0u8 }) | (if input.b { 2u8 } else { 0u8 }) | (
        if input.select { 4u8 } else { 0u8 }) | (if input.start { 8u8 } else { 0u8 });
        let pressed: u8 = (if joyp_orig & 0x10 == 0 { dirs } else { 0u8 }) | (if joyp_orig & 0x20 == 0 {
            acts
        } else {
            0u8
        });
        let joyp_new = (joyp_orig | 0x0F) & !pressed;
        self.write_8_sys(ADDRESS_JOYP, joyp_new);
        if (joyp_orig & !joyp_new) & 0x0F != 0 {
            let interrupt_request = self.read_8_sys(ADDRESS_IF);
            self.write_8_sys(ADDRESS_IF, interrupt_request | 0x10);
        }
    }

    /// Whether a DMA copy is armed and has bytes left.
    pub open spec fn dma_pending(&self) -> bool {
        0x8000 <= self.shared_data.dma_source_address < 0xE000
            && self.shared_data.dma_source_address % 256 <= 0x9F
    }

    /// Copies one byte of an armed DMA transfer from the source address into
    /// OAM at the source's low byte, and advances the source. A source in the
    /// absent cartridge RAM is a fault, returned with its address.
    pub fn dma_step(&mut self) -> (r: Result<(), u16>)
        requires
            old(self).wf(),
        ensures
            final(self).wf(),
            !old(self).dma_pending() ==> r is Ok && *final(self) == *old(self),
            old(self).dma_pending() && !readable(old(self).shared_data.dma_source_address) ==> r
                == Err::<(), u16>(old(self).shared_data.dma_source_address) && *final(self)
                == *old(self),
            old(self).dma_pending() && readable(old(self).shared_data.dma_source_address) ==> {
                let src = old(self).shared_data.dma_source_address;
                &&& r is Ok
                &&& final(self).shared_data == (MemorySharedData {
                    dma_source_address: (src + 1) as u16,
                    ..old(self).shared_data
                })
                &&& bytes_written(
                    *old(self),
                    *final(self),
                    (0xFE00 + src % 256) as u16,
                    old(self).byte_at(src),
                )
            },
            match dma_spec(old(self)@) {
                Ok(s) => r is Ok && final(self)@ == s,
                Err(a) => r == Err::<(), u16>(a),
            },
    {
        let ghost pre = *self;
        let src = self.shared_data.dma_source_address;
        if 0x8000 <= src && src < 0xE000 && src % 256 <= 0x9F {
            if 0xA000 <= src && src < 0xC000 {
                return Err(src);
            }
            let val = self.read_8(src);
            let ghost pre = *self;
            self.shared_data.dma_source_address = src + 1;
            assert(forall|a: u16| #[trigger] self.byte_at(a) == pre.byte_at(a));
            let ghost mid = *self;
            self.write_8_sys(ADDRESS_OAM_START + src % 256, val);
            assert(mid@ == dma_advanced(pre@));
        }
        Ok(())
    }
}

} // verus!

verus! {

/// A write by the program to LY leaves LY as the PPU last set it.
pub proof fn lemma_ly_write_ignored(pre: BasicMemory, post: BasicMemory, v: u8)
    requires
        program_written(pre, post, ADDRESS_LY, v),
    ensures
        post.byte_at(ADDRESS_LY) == pre.byte_at(ADDRESS_LY),
{
}

/// A write by the program to DIV leaves DIV at zero, whatever the value.
pub proof fn lemma_div_write_zeroes(pre: BasicMemory, post: BasicMemory, v: u8)
    requires
        program_written(pre, post, ADDRESS_DIV, v),
    ensures
        post.byte_at(ADDRESS_DIV) == 0,
{
    assert(post.byte_at(ADDRESS_DIV) == 0);
}

/// A write by the program to STAT leaves its three low bits as they were.
pub proof fn lemma_stat_write_keeps_low_bits(pre: BasicMemory, post: BasicMemory, v: u8)
    requires
        program_written(pre, post, ADDRESS_STAT, v),
    ensures
        post.byte_at(ADDRESS_STAT) & 7 == pre.byte_at(ADDRESS_STAT) & 7,
{
    let s = pre.byte_at(ADDRESS_STAT);
    assert(post.byte_at(ADDRESS_STAT) == (v & 0xF8) | (s & 7));
    assert(((v & 0xF8) | (s & 7)) & 7 == s & 7) by (bit_vector);
}

/// Every address of the echo range reads as the work-RAM address 0x2000 lower.
pub proof fn lemma_echo_mirrors(m: BasicMemory, addr: u16)
    requires
        0xE000 <= addr < 0xFE00,
    ensures
        m.byte_at(addr) == m.byte_at((addr - 0x2000) as u16),
{
}

/// A write into the echo range is seen 0x2000 lower, and a write to work RAM
/// below 0xDE00 is seen 0x2000 higher.
pub proof fn lemma_echo_write(pre: BasicMemory, post: BasicMemory, addr: u16, v: u8)
    requires
        program_written(pre, post, addr, v),
        0xC000 <= addr < 0xDE00 || 0xE000 <= addr < 0xFE00,
    ensures
        post.byte_at(addr) == v,
        0xE000 <= addr ==> post.byte_at((addr - 0x2000) as u16) == v,
        addr < 0xDE00 ==> post.byte_at((addr + 0x2000) as u16) == v,
{
    assert(post.byte_at(addr) == v);
    if 0xE000 <= addr {
        assert(post.byte_at((addr - 0x2000) as u16) == v);
    } else {
        assert(post.byte_at((addr + 0x2000) as u16) == v);
    }
}

} // verus!

verus! {

/// A raw store seen through the view.
pub proof fn lemma_sys_write_view(pre: BasicMemory, post: BasicMemory, addr: u16, val: u8)
    requires
        post.shared_data == pre.shared_data,
        bytes_written(pre, post, addr, val),
    ensures
        post@ == sys_write(pre@, addr, val),
{
    assert(post@.mem =~= sys_write(pre@, addr, val).mem) by {
        assert forall|i: int| 0 <= i < 0x10000 implies post@.mem[i] == sys_write(pre@, addr, val).mem[i] by {
            assert(post.byte_at(i as u16) == pre.byte_at(i as u16) || stores(addr));
        }
    }
}

/// A write by the program seen through the view.
pub proof fn lemma_prog_write_view(pre: BasicMemory, post: BasicMemory, addr: u16, val: u8)
    requires
        program_written(pre, post, addr, val),
    ensures
        post@ == prog_write(pre@, addr, val),
{
    let s = prog_write(pre@, addr, val);
    if addr == ADDRESS_JOYP {
        assert(post@.mem =~= s.mem) by {
            assert forall|i: int| 0 <= i < 0x10000 implies post@.mem[i] == s.mem[i] by {
                assert(post.byte_at(i as u16) == pre.byte_at(i as u16) || i == ADDRESS_JOYP || i
                    == ADDRESS_IF);
            }
        }
    } else if addr == ADDRESS_LY {
        assert(post@.mem =~= s.mem) by {
            assert forall|i: int| 0 <= i < 0x10000 implies post@.mem[i] == s.mem[i] by {
                assert(post.byte_at(i as u16) == pre.byte_at(i as u16));
            }
        }
    } else {
        assert(post@.mem =~= s.mem) by {
            assert forall|i: int| 0 <= i < 0x10000 implies post@.mem[i] == s.mem[i] by {
                assert(post.byte_at(i as u16) == pre.byte_at(i as u16) || stores(addr));
            }
        }
    }
}

} // verus!
