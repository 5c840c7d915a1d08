use std::collections::VecDeque;
use vstd::prelude::*;

use crate::basic_memory::{sys_write, BasicMemory, Machine};
use crate::constants::{
    ADDRESS_IF, ADDRESS_LCDC, ADDRESS_LY, ADDRESS_LYC, ADDRESS_OAM_START, ADDRESS_SCX, ADDRESS_SCY,
    ADDRESS_STAT, ADDRESS_TILEDATA_1, ADDRESS_TILEDATA_2, ADDRESS_TILEMAP_1, ADDRESS_TILEMAP_2,
    LCDC_BG_AND_WINDOW_TILEDATA, LCDC_BG_TILEMAP, LCDC_BG_WINDOW_ENABLE, LCDC_OBJ_SIZE,
    PPU_MODE_HORIZ_BLANK, PPU_MODE_OAM_SCAN, PPU_MODE_RENDER_PIXEL,
};
use crate::model_render::{OamScanData, PixelRenderData};

verus! {

pub const SCREEN_WIDTH: u16 = 160;
pub const SCREEN_HEIGHT: u16 = 144;

/// Whether an object whose Y attribute is `obj_y` covers scanline `ly`: its
/// rows are `obj_y - 16` up to but not including `obj_y - 16 + obj_height`.
pub fn obj_on_screen(ly: u8, obj_y: u8, obj_height: u8) -> (r: bool)
    ensures
        r == (obj_y as int - 16 <= ly as int && (ly as int) < obj_y as int - 16 + obj_height as int),
{
    let top_above = obj_y as u16 <= ly as u16 + 16;
    let bottom_below = obj_y as u16 + obj_height as u16 > ly as u16 + 16;
    top_above && bottom_below
}

/// The height of objects that LCDC bit 2 selects.
pub open spec fn obj_height_of(s: Machine) -> int {
    if s.mem[ADDRESS_LCDC as int] & LCDC_OBJ_SIZE != 0 {
        16
    } else {
        8
    }
}

/// Whether OAM entry `i` covers the current scanline.
pub open spec fn entry_on_screen(s: Machine, i: int) -> bool {
    let obj_y = s.mem[0xFE00 + 4 * i] as int;
    let ly = s.mem[ADDRESS_LY as int] as int;
    obj_y - 16 <= ly && ly < obj_y - 16 + obj_height_of(s)
}

/// The OAM addresses that a scan selects from the first `n` entries: each
/// entry that covers LY, in OAM order, until ten are selected.
pub open spec fn selected(s: Machine, n: int) -> Seq<u16>
    decreases n,
{
    if n <= 0 {
        Seq::empty()
    } else {
        let prev = selected(s, n - 1);
        if prev.len() < 10 && entry_on_screen(s, n - 1) {
            prev.push((0xFE00 + 4 * (n - 1)) as u16)
        } else {
            prev
        }
    }
}

/// The selection holds at most ten entries, each an entry that covers LY,
/// in strictly increasing OAM order.
pub proof fn lemma_selected(s: Machine, n: int)
    requires
        0 <= n <= 40,
    ensures
        selected(s, n).len() <= 10,
        forall|k: int|
            0 <= k < selected(s, n).len() ==> exists|i: int|
                0 <= i < n && #[trigger] selected(s, n)[k] == 0xFE00 + 4 * i && entry_on_screen(s, i),
        forall|a: int, b: int|
            0 <= a < b < selected(s, n).len() ==> #[trigger] selected(s, n)[a] < #[trigger] selected(
                s,
                n,
            )[b],
        forall|k: int| 0 <= k < selected(s, n).len() ==> #[trigger] selected(s, n)[k] < 0xFE00 + 4 * n,
    decreases n,
{
    if n > 0 {
        lemma_selected(s, n - 1);
        let prev = selected(s, n - 1);
        if prev.len() < 10 && entry_on_screen(s, n - 1) {
            let cur = selected(s, n);
            assert forall|k: int| 0 <= k < cur.len() implies exists|i: int|
                0 <= i < n && #[trigger] cur[k] == 0xFE00 + 4 * i && entry_on_screen(s, i) by {
                if k < prev.len() {
                    assert(cur[k] == prev[k]);
                } else {
                    assert(cur[k] == 0xFE00 + 4 * (n - 1));
                }
            }
            assert forall|a: int, b: int| 0 <= a < b < cur.len() implies #[trigger] cur[a] < #[trigger] cur[b] by {
                if b < prev.len() {
                    assert(cur[a] == prev[a] && cur[b] == prev[b]);
                } else {
                    assert(cur[a] == prev[a]);
                }
            }
        }
    }
}

/// Pixel `j` (0 leftmost) of a tile row whose bytes are `low` then `high`:
/// the high bit from `high`, the low bit from `low`.
pub open spec fn tile_pixel(high: u8, low: u8, j: int) -> u8 {
    (((high >> ((7 - j) as u8)) & 1) * 2 + ((low >> ((7 - j) as u8)) & 1)) as u8
}

/// The eight pixels of a tile row, leftmost first, each or-ed with `extra`.
pub open spec fn tile_row(high: u8, low: u8, extra: u8) -> Seq<u8> {
    Seq::new(8, |j: int| tile_pixel(high, low, j) | extra)
}

/// The address of the first byte of the background tile row that the fetch
/// for tile column `tile_x` reads: the tilemap cell
/// ((SCX/8 + tile_x/8) mod 32, (SCY/8 + LY/8) mod 32) in the map that LCDC
/// bit 3 selects, its tile found by LCDC bit 4's addressing, row (SCY+LY) mod 8.
pub open spec fn bg_row_address(s: Machine, tile_x: u8) -> u16 {
    let lcdc = s.mem[ADDRESS_LCDC as int];
    let scx = s.mem[ADDRESS_SCX as int] as int;
    let scy = s.mem[ADDRESS_SCY as int] as int;
    let ly = s.mem[ADDRESS_LY as int] as int;
    let map: int = if lcdc & LCDC_BG_TILEMAP != 0 {
        0x9C00
    } else {
        0x9800
    };
    let x = (scx / 8 + tile_x as int / 8) % 32;
    let y = (scy / 8 + ly / 8) % 32;
    let index = s.mem[map + x + y * 32] as int;
    let base: int = if lcdc & LCDC_BG_AND_WINDOW_TILEDATA != 0 {
        0x8000 + index * 16
    } else {
        0x8800 + ((index + 128) % 256) * 16
    };
    (base + ((scy + ly) % 8) * 2) as u16
}

/// The background pixels fetched for tile column `tile_x`.
pub open spec fn bg_row(s: Machine, tile_x: u8) -> Seq<u8> {
    let a = bg_row_address(s, tile_x) as int;
    tile_row(s.mem[a + 1], s.mem[a], 0)
}

/// The address of the first byte of the row of the object at OAM address
/// `a` that covers LY; tall objects use the even tile of their pair.
pub open spec fn obj_row_address(s: Machine, a: u16) -> u16 {
    let tall = s.mem[ADDRESS_LCDC as int] & LCDC_OBJ_SIZE != 0;
    let height: int = if tall {
        16
    } else {
        8
    };
    let obj_y = s.mem[a as int] as int;
    let idx = s.mem[a + 2] as int;
    let ly = s.mem[ADDRESS_LY as int] as int;
    let row = ((ly + 16 + 256 - obj_y) % 256) % height;
    let index = if tall {
        (idx / 2) * 2
    } else {
        idx
    };
    (0x8000 + index * 16 + row * 2) as u16
}

/// The pixels of the object at OAM address `a`, with its behind-background bit.
pub open spec fn obj_row(s: Machine, a: u16) -> Seq<u8> {
    let r = obj_row_address(s, a) as int;
    tile_row(s.mem[r + 1], s.mem[r], if s.mem[a + 3] & 0x80 != 0 { 4u8 } else { 0u8 })
}

/// The framebuffer after drawing `c` at (`x`, `y`), if there is a shade to draw.
pub open spec fn drawn(pixels: Seq<u8>, x: u8, y: u8, c: Option<u8>) -> Seq<u8> {
    match c {
        Some(col) => if x < 160 && y < 144 {
            pixels.update(y as int * 160 + x as int, col)
        } else {
            pixels
        },
        None => pixels,
    }
}

/// `after` is `before` with the composition of background pixel `b` and
/// some object pixel drawn at (`x`, `y`).
pub open spec fn drawn_over_background(before: Seq<u8>, after: Seq<u8>, x: u8, y: u8, b: u8, enabled: bool) -> bool {
    exists|o: Option<u8>| after == drawn(before, x, y, #[trigger] composed(Some(b), o, enabled))
}

/// Relies on morton_encoding::morton_encode on two bytes: bit i of the first
/// byte lands at bit 2i+1 of the result, bit i of the second at bit 2i.
#[verifier::external_body]
fn interleave(high: u8, low: u8) -> (r: u16)
    ensures
        forall|i: u16|
            i < 8 ==> #[trigger] ((r >> (2 * i + 1) as u16) & 1) == ((high >> i as u8) & 1) as u16
                && ((r >> (2 * i) as u16) & 1) == ((low >> i as u8) & 1) as u16,
{
    morton_encoding::morton_encode([high, low])
}

proof fn lemma_pair_bits(r: u16, k: u16)
    requires
        k <= 14,
    ensures
        (r >> k) & 3 == ((r >> (k + 1) as u16) & 1) * 2 + ((r >> k) & 1),
{
    assert((r >> k) & 3 == ((r >> (k + 1) as u16) & 1) * 2 + ((r >> k) & 1)) by (bit_vector)
        requires
            k <= 14,
    ;
}

/// Appends the eight pixels of a tile row, leftmost first, each or-ed with
/// `extra` (the behind-background bit of an object pixel).
pub fn push_tile_row(queue: &mut VecDeque<u8>, high: u8, low: u8, extra: u8)
    requires
        extra == 0 || extra == 4,
    ensures
        final(queue)@.len() == old(queue)@.len() + 8,
        forall|i: int| 0 <= i < old(queue)@.len() ==> #[trigger] final(queue)@[i] == old(queue)@[i],
        forall|j: int|
            0 <= j < 8 ==> #[trigger] final(queue)@[old(queue)@.len() + j] == tile_pixel(high, low, j)
                | extra,
        final(queue)@ == old(queue)@ + tile_row(high, low, extra),
{
    let data = interleave(high, low);
    let ghost start = queue@;
    let mut j: u16 = 0;
    while j < 8
        invariant
            j <= 8,
            extra == 0 || extra == 4,
            queue@.len() == start.len() + j,
            forall|i: int| 0 <= i < start.len() ==> #[trigger] queue@[i] == start[i],
            forall|k: int| 0 <= k < j ==> #[trigger] queue@[start.len() + k] == tile_pixel(high, low, k) | extra,
            forall|i: u16|
                i < 8 ==> #[trigger] ((data >> (2 * i + 1) as u16) & 1) == ((high >> i as u8) & 1) as u16
                    && ((data >> (2 * i) as u16) & 1) == ((low >> i as u8) & 1) as u16,
        decreases 8 - j,
    {
        let k: u16 = 14 - 2 * j;
        let pixel = ((data >> k) & 3) as u8;
        proof {
            lemma_pair_bits(data, k);
            let b = (7 - j) as u16;
            assert(((data >> (2 * b + 1) as u16) & 1) == ((high >> b as u8) & 1) as u16);
            assert(((data >> (2 * b) as u16) & 1) == ((low >> b as u8) & 1) as u16);
            assert(pixel == tile_pixel(high, low, j as int));
        }
        queue.push_back(pixel | extra);
        j = j + 1;
    }
    assert forall|k: int| 0 <= k < queue@.len() implies queue@[k] == (start + tile_row(high, low, extra))[k] by {
        if k >= start.len() {
            let j = k - start.len();
            assert(queue@[start.len() + j] == tile_pixel(high, low, j) | extra);
        }
    }
    assert(queue@ =~= start + tile_row(high, low, extra));
}

/// The object FIFO after merging a new object's pixels: where a pixel is
/// already queued it is replaced only if it is transparent or behind the
/// background; the rest of the new pixels are appended.
pub open spec fn merged(queued: Seq<u8>, incoming: Seq<u8>) -> Seq<u8> {
    Seq::new(
        if queued.len() > incoming.len() {
            queued.len()
        } else {
            incoming.len()
        },
        |i: int|
            if i >= queued.len() {
                incoming[i]
            } else if i >= incoming.len() {
                queued[i]
            } else if queued[i] & 3 == 0 || queued[i] & 4 != 0 {
                incoming[i]
            } else {
                queued[i]
            },
    )
}

/// Merges an object's pixels into the object FIFO.
pub fn merge_object_pixels(queue: &mut VecDeque<u8>, incoming: &VecDeque<u8>)
    ensures
        final(queue)@ == merged(old(queue)@, incoming@),
{
    let mut result: VecDeque<u8> = VecDeque::new();
    let n = if queue.len() > incoming.len() {
        queue.len()
    } else {
        incoming.len()
    };
    let mut i: usize = 0;
    while i < n
        invariant
            i <= n,
            n == merged(queue@, incoming@).len(),
            result@ == merged(queue@, incoming@).subrange(0, i as int),
        decreases n - i,
    {
        let p = if i >= queue.len() {
            incoming[i]
        } else if i >= incoming.len() {
            queue[i]
        } else if queue[i] & 3 == 0 || queue[i] & 4 != 0 {
            incoming[i]
        } else {
            queue[i]
        };
        result.push_back(p);
        i = i + 1;
        assert(result@ =~= merged(queue@, incoming@).subrange(0, i as int));
    }
    assert(result@ =~= merged(queue@, incoming@));
    *queue = result;
}

/// The shade shown for one dot: the object pixel unless it is transparent or
/// behind the background; the background pixel shows as 0 while LCDC bit 0
/// has the background off. `None` when nothing is to be drawn.
pub open spec fn composed(bg: Option<u8>, obj: Option<u8>, bg_enabled: bool) -> Option<u8> {
    let bg_color = match bg {
        Some(b) => Some(if bg_enabled { b } else { 0u8 }),
        None => None,
    };
    match obj {
        Some(o) => if o & 3 == 0 || o & 4 != 0 {
            bg_color
        } else {
            Some(o & 3)
        },
        None => bg_color,
    }
}

pub fn compose_pixel(bg: Option<u8>, obj: Option<u8>, bg_enabled: bool) -> (r: Option<u8>)
    ensures
        r == composed(bg, obj, bg_enabled),
{
    let bg_color = match bg {
        Some(b) => Some(if bg_enabled { b } else { 0u8 }),
        None => None,
    };
    match obj {
        Some(o) => if o & 3 == 0 || o & 4 != 0 {
            bg_color
        } else {
            Some(o & 3)
        },
        None => bg_color,
    }
}

/// The STAT interrupt line: LY==LYC with bit 6, mode 2 with bit 5, mode 1
/// with bit 4, mode 0 with bit 3.
pub open spec fn stat_line_of(stat: u8, ly: u8, lyc: u8) -> bool {
    let mode = stat & 3;
    (ly == lyc && stat & 0x40 != 0) || (mode == 2 && stat & 0x20 != 0) || (mode == 1 && stat
        & 0x10 != 0) || (mode == 0 && stat & 0x08 != 0)
}

pub open spec fn stat_line(s: Machine) -> bool {
    stat_line_of(s.mem[ADDRESS_STAT as int], s.mem[ADDRESS_LY as int], s.mem[ADDRESS_LYC as int])
}

/// Whether the STAT interrupt is requested: a rising edge of the line.
pub open spec fn stat_fires(last: bool, line: bool) -> bool {
    line && !last
}

/// STAT with bit 2 showing whether LY equals LYC.
pub open spec fn stat_with_coincidence(stat: u8, ly: u8, lyc: u8) -> u8 {
    if ly == lyc {
        stat | 4
    } else {
        stat & 0xFB
    }
}

/// The machine after the STAT line is sampled: the stat interrupt requested
/// on a rising edge, then STAT bit 2 made to show LY==LYC.
pub open spec fn stat_update_spec(s: Machine, last: bool) -> Machine {
    let s1 = if stat_fires(last, stat_line(s)) {
        sys_write(s, ADDRESS_IF, s.mem[ADDRESS_IF as int] | 2)
    } else {
        s
    };
    let stat = s1.mem[ADDRESS_STAT as int];
    let ly = s1.mem[ADDRESS_LY as int];
    let lyc = s1.mem[ADDRESS_LYC as int];
    if (ly == lyc) != (stat & 4 != 0) {
        sys_write(s1, ADDRESS_STAT, stat_with_coincidence(stat, ly, lyc))
    } else {
        s1
    }
}

/// Samples the STAT interrupt line, requests the interrupt on its rising
/// edge only, latches the line, and reflects LY==LYC into STAT bit 2.
pub fn stat_interrupt_update(mem: &mut BasicMemory, last: &mut bool)
    requires
        old(mem).wf(),
    ensures
        final(mem).wf(),
        final(mem)@ == stat_update_spec(old(mem)@, *old(last)),
        *final(last) == stat_line(old(mem)@),
{
    let ly = mem.read_8_sys(ADDRESS_LY);
    let lyc = mem.read_8_sys(ADDRESS_LYC);
    let stat = mem.read_8_sys(ADDRESS_STAT);
    let mode = stat & 3;
    let ly_match = ly == lyc;
    let line = (ly_match && stat & 0x40 != 0) || (mode == 2 && stat & 0x20 != 0) || (mode == 1 && stat
        & 0x10 != 0) || (mode == 0 && stat & 0x08 != 0);
    if line {
        if !*last {
            let iflag = mem.read_8_sys(ADDRESS_IF);
            mem.write_8_sys(ADDRESS_IF, iflag | 2);
        }
    }
    *last = line;
    let stat = mem.read_8_sys(ADDRESS_STAT);
    if ly_match != (stat & 4 != 0) {
        if ly_match {
            mem.write_8_sys(ADDRESS_STAT, stat | 4);
        } else {
            mem.write_8_sys(ADDRESS_STAT, stat & 0xFB);
        }
    }
}

/// After the line fires on one dot, it cannot fire on the next: the latch
/// then holds the line as it was, which was high.
pub proof fn lemma_stat_no_consecutive_fires(last: bool, line1: bool, line2: bool)
    ensures
        stat_fires(last, line1) ==> !stat_fires(line1, line2),
{
}

/// The working framebuffer: one 2-bit shade per pixel, row after row.
pub struct FrameBuffer {
    pub pixels: Vec<u8>,
}

impl FrameBuffer {
    pub open spec fn wf(&self) -> bool {
        self.pixels@.len() == SCREEN_WIDTH as int * SCREEN_HEIGHT as int
    }

    /// An all-white frame.
    pub fn new() -> (r: FrameBuffer)
        ensures
            r.wf(),
            forall|i: int| 0 <= i < r.pixels@.len() ==> r.pixels@[i] == 0,
    {
        FrameBuffer { pixels: vec![0u8; 160 * 144] }
    }

    /// Deposits shade `color` at (`x`, `y`); positions off the screen are
    /// ignored.
    pub fn draw_pixel(&mut self, x: u8, y: u8, color: u8)
        requires
            old(self).wf(),
        ensures
            final(self).wf(),
            (x as int) < SCREEN_WIDTH && (y as int) < SCREEN_HEIGHT ==> final(self).pixels@ == old(
                self,
            ).pixels@.update(y as int * 160 + x as int, color),
            !((x as int) < SCREEN_WIDTH && (y as int) < SCREEN_HEIGHT) ==> final(self).pixels@ == old(
                self,
            ).pixels@,
    {
        if (x as u16) < SCREEN_WIDTH && (y as u16) < SCREEN_HEIGHT {
            self.pixels.set(y as usize * 160 + x as usize, color);
        }
    }
}

/// The mode changes of one dot, when the dots of the current mode have run
/// out (`dots_left` is the count after this dot): OAM scan to render, render
/// to hblank, hblank to the next line's OAM scan or, after line 143, to
/// vblank with its interrupt requested; vblank lines up to 153, then line 0.
pub open spec fn ppu_transition(s: Machine, dots_left: u16) -> Machine {
    let stat = s.mem[ADDRESS_STAT as int];
    let ly = s.mem[ADDRESS_LY as int];
    let mode = stat & 3;
    let keep = stat & 0xFC;
    if dots_left != 0 {
        s
    } else if mode == 2 {
        sys_write(s, ADDRESS_STAT, keep | 3)
    } else if mode == 3 {
        sys_write(s, ADDRESS_STAT, keep | 0)
    } else if mode == 0 {
        let next_ly = if ly == 255 {
            0u8
        } else {
            (ly + 1) as u8
        };
        if ly == 143 {
            let s1 = sys_write(s, ADDRESS_STAT, keep | 1);
            sys_write(sys_write(s1, ADDRESS_IF, s1.mem[ADDRESS_IF as int] | 1), ADDRESS_LY, next_ly)
        } else {
            sys_write(sys_write(s, ADDRESS_STAT, keep | 2), ADDRESS_LY, next_ly)
        }
    } else if ly >= 153 {
        sys_write(sys_write(s, ADDRESS_STAT, keep | 2), ADDRESS_LY, 0)
    } else {
        sys_write(s, ADDRESS_LY, (ly + 1) as u8)
    }
}

/// The dots that the mode entered after `ppu_transition` lasts.
pub open spec fn dots_after(s: Machine, dots_left: u16) -> u16 {
    let stat = s.mem[ADDRESS_STAT as int];
    let ly = s.mem[ADDRESS_LY as int];
    let mode = stat & 3;
    if dots_left != 0 {
        dots_left
    } else if mode == 2 {
        160
    } else if mode == 3 {
        216
    } else if mode == 0 {
        if ly == 143 {
            456
        } else {
            80
        }
    } else if ly >= 153 {
        80
    } else {
        456
    }
}

/// One dot of mode 3 from `pre` to `post` on machine `s`: after the reset of
/// a first dot, the background FIFO is refilled from the tile row when it
/// holds fewer than 8 pixels, and its front pixel, composed with the object
/// pixel, is drawn at (X, LY), X advancing, while X is below 160.
pub open spec fn render_step(pre: Ppu, post: Ppu, s: Machine) -> bool {
    let fresh = pre.first_dot_after_switch;
    let x0 = if fresh { 0u8 } else { pre.pixel_render.x };
    let tx = if fresh { 0u8 } else { pre.pixel_render.tile_x };
    let bg0 = if fresh {
        Seq::<u8>::empty()
    } else {
        pre.pixel_render.background_queue@
    };
    let bgq = if bg0.len() < 8 {
        bg0 + bg_row(s, tx)
    } else {
        bg0
    };
    let ly = s.mem[ADDRESS_LY as int];
    let enabled = s.mem[ADDRESS_LCDC as int] & LCDC_BG_WINDOW_ENABLE != 0;
    if x0 < 160 {
        &&& post.pixel_render.x == x0 + 1
        &&& drawn_over_background(
            pre.frame.pixels@,
            post.frame.pixels@,
            x0,
            ly,
            bgq[0],
            enabled,
        )
    } else {
        &&& post.pixel_render.x == x0
        &&& post.frame.pixels@ == pre.frame.pixels@
    }
}

/// What the host is to do after a dot.
#[derive(Clone, Copy, Debug, PartialEq, Eq, Structural)]
pub enum DotEvent {
    Nothing,
    /// Vblank began: show the completed frame.
    ShowFrame,
    /// Vblank ended: a new frame begins.
    StartNewFrame,
}

/// The dot-clock state of the pixel-processing unit.
pub struct Ppu {
    pub dots_left: u16,
    pub oam_scan: OamScanData,
    pub pixel_render: PixelRenderData,
    pub first_dot_after_switch: bool,
    pub last_stat_interrupt_state: bool,
    pub frame: FrameBuffer,
}

impl Ppu {
    pub open spec fn wf(&self) -> bool {
        &&& self.dots_left >= 1
        &&& self.oam_scan.wf()
        &&& self.frame.wf()
    }

    pub fn new() -> (r: Ppu)
        ensures
            r.wf(),
            !r.last_stat_interrupt_state,
    {
        Ppu {
            dots_left: 1,
            oam_scan: OamScanData::new(),
            pixel_render: PixelRenderData::new(),
            first_dot_after_switch: false,
            last_stat_interrupt_state: false,
            frame: FrameBuffer::new(),
        }
    }

    /// One dot of OAM scan: every other dot the next of the 40 entries is
    /// visited and kept if it covers LY, up to ten.
    fn oam_scan_dot(&mut self, mem: &BasicMemory)
        requires
            mem.wf(),
            old(self).oam_scan.wf(),
        ensures
            final(self).oam_scan.wf(),
            final(self).dots_left == old(self).dots_left,
            final(self).frame == old(self).frame,
            ({
                let fresh = old(self).first_dot_after_switch;
                let cur0 = if fresh { 0 } else { old(self).oam_scan.current_object as int };
                let len0 = if fresh { 0 } else { old(self).oam_scan.objects@.len() as int };
                let visit = old(self).dots_left % 2 == 0 && len0 < 10 && cur0 < 40;
                &&& final(self).oam_scan.current_object == cur0 + (if visit { 1int } else { 0 })
                &&& (fresh || old(self).oam_scan.objects@ == selected(mem@, cur0)) ==> final(self).oam_scan.objects@ == selected(mem@, final(self).oam_scan.current_object as int)
            }),
    {
        if self.first_dot_after_switch {
            self.oam_scan.reset();
            assert(self.oam_scan.objects@ =~= selected(mem@, 0));
        }
        if self.dots_left % 2 == 0 && self.oam_scan.objects.len() < 10 && self.oam_scan.current_object < 40 {
            let lcdc = mem.read_8(ADDRESS_LCDC);
            let obj_height: u8 = if lcdc & LCDC_OBJ_SIZE != 0 {
                16
            } else {
                8
            };
            let ly = mem.read_8(ADDRESS_LY);
            let obj_addr = ADDRESS_OAM_START + 4 * self.oam_scan.current_object;
            let obj_y = mem.read_8(obj_addr);
            assert(obj_height as int == obj_height_of(mem@));
            if obj_on_screen(ly, obj_y, obj_height) {
                self.oam_scan.objects.push_back(obj_addr);
            }
            self.oam_scan.current_object = self.oam_scan.current_object + 1;
        }
    }

    /// Fetches the next 8-pixel column of the background into its FIFO.
    fn fetch_background(&mut self, mem: &BasicMemory, lcdc: u8, ly: u8)
        requires
            mem.wf(),
            lcdc == mem@.mem[ADDRESS_LCDC as int],
            ly == mem@.mem[ADDRESS_LY as int],
        ensures
            final(self).pixel_render.background_queue@ == old(self).pixel_render.background_queue@
                + bg_row(mem@, old(self).pixel_render.tile_x),
            final(self).pixel_render.tile_x as int == (old(self).pixel_render.tile_x as int + 8) % 256,
            final(self).pixel_render.obj_queue == old(self).pixel_render.obj_queue,
            final(self).background_len() == old(self).background_len() + 8,
            final(self).pixel_render.x == old(self).pixel_render.x,
            final(self).oam_scan == old(self).oam_scan,
            final(self).dots_left == old(self).dots_left,
            final(self).frame == old(self).frame,
    {
        let scx = mem.read_8(ADDRESS_SCX);
        let scy = mem.read_8(ADDRESS_SCY);
        let tilemap_address = if lcdc & LCDC_BG_TILEMAP != 0 {
            ADDRESS_TILEMAP_2
        } else {
            ADDRESS_TILEMAP_1
        };
        let x = ((scx / 8) as u16 + (self.pixel_render.tile_x / 8) as u16) % 32;
        let y = ((scy / 8) as u16 + (ly / 8) as u16) % 32;
        let tile_data_index = mem.read_8(tilemap_address + x + y * 32);
        let row = ((scy as u16 + ly as u16) % 8) * 2;
        let tile_data_address = if lcdc & LCDC_BG_AND_WINDOW_TILEDATA != 0 {
            ADDRESS_TILEDATA_1 + tile_data_index as u16 * 16
        } else {
            ADDRESS_TILEDATA_2 + ((tile_data_index as u16 + 128) % 256) * 16
        };
        assert(tile_data_address + row == bg_row_address(mem@, self.pixel_render.tile_x));
        let tile_low = mem.read_8(tile_data_address + row);
        let tile_high = mem.read_8(tile_data_address + row + 1);
        push_tile_row(&mut self.pixel_render.background_queue, tile_high, tile_low, 0);
        self.pixel_render.tile_x = if self.pixel_render.tile_x >= 248 {
            self.pixel_render.tile_x - 248
        } else {
            self.pixel_render.tile_x + 8
        };
    }

    pub open spec fn background_len(&self) -> int {
        self.pixel_render.background_queue@.len() as int
    }

    /// When the first selected object starts at the current X, takes it off
    /// the list and merges its row into the object FIFO.
    fn fetch_object(&mut self, mem: &BasicMemory, lcdc: u8, ly: u8)
        requires
            mem.wf(),
            old(self).oam_scan.wf(),
            lcdc == mem@.mem[ADDRESS_LCDC as int],
            ly == mem@.mem[ADDRESS_LY as int],
        ensures
            ({
                let objs = old(self).oam_scan.objects@;
                if objs.len() > 0 && old(self).pixel_render.x as int + 8 == mem@.mem[objs[0] + 1] as int {
                    &&& final(self).oam_scan.objects@ == objs.subrange(1, objs.len() as int)
                    &&& final(self).pixel_render.obj_queue@ == merged(
                        old(self).pixel_render.obj_queue@,
                        obj_row(mem@, objs[0]),
                    )
                } else {
                    &&& final(self).oam_scan.objects@ == objs
                    &&& final(self).pixel_render.obj_queue@ == old(self).pixel_render.obj_queue@
                }
            }),
            final(self).oam_scan.current_object == old(self).oam_scan.current_object,
            final(self).oam_scan.wf(),
            final(self).dots_left == old(self).dots_left,
            final(self).frame == old(self).frame,
            final(self).pixel_render.background_queue == old(self).pixel_render.background_queue,
            final(self).pixel_render.x == old(self).pixel_render.x,
    {
        if self.oam_scan.objects.len() == 0 {
            return;
        }
        let obj_addr = self.oam_scan.objects[0];
        let obj_x = mem.read_8(obj_addr + 1);
        if self.pixel_render.x as u16 + 8 != obj_x as u16 {
            return;
        }
        let ghost before = self.oam_scan.objects@;
        self.oam_scan.objects.pop_front();
        assert forall|i: int, j: int|
            0 <= i < j < self.oam_scan.objects@.len() implies #[trigger] self.oam_scan.objects@[i]
            < #[trigger] self.oam_scan.objects@[j] by {
            assert(before[i + 1] < before[j + 1]);
        }
        assert forall|i: int| 0 <= i < self.oam_scan.objects@.len() implies 0xFE00
            <= #[trigger] self.oam_scan.objects@[i] < 0xFE00 + 4 * self.oam_scan.current_object && (
        self.oam_scan.objects@[i] - 0xFE00) % 4 == 0 by {
            assert(before[i + 1] == self.oam_scan.objects@[i]);
        }
        let tall = lcdc & LCDC_OBJ_SIZE != 0;
        let height: u16 = if tall {
            16
        } else {
            8
        };
        let obj_y = mem.read_8(obj_addr);
        let obj_index = mem.read_8(obj_addr + 2);
        let obj_attrs = mem.read_8(obj_addr + 3);
        let row = ((ly as u16 + 16 + 256 - obj_y as u16) % 256) % height;
        let index: u16 = if tall {
            (obj_index as u16 / 2) * 2
        } else {
            obj_index as u16
        };
        let tile_data_address = ADDRESS_TILEDATA_1 + index * 16 + row * 2;
        assert(tile_data_address == obj_row_address(mem@, obj_addr));
        let tile_low = mem.read_8(tile_data_address);
        let tile_high = mem.read_8(tile_data_address + 1);
        let priority: u8 = if obj_attrs & 0x80 != 0 {
            4
        } else {
            0
        };
        let mut incoming: VecDeque<u8> = VecDeque::new();
        push_tile_row(&mut incoming, tile_high, tile_low, priority);
        merge_object_pixels(&mut self.pixel_render.obj_queue, &incoming);
    }

    /// One dot of mode 3: refill the background FIFO, bring in an object
    /// that starts here, and compose and draw one pixel.
    fn render_dot(&mut self, mem: &BasicMemory)
        requires
            mem.wf(),
            old(self).oam_scan.wf(),
            old(self).frame.wf(),
        ensures
            final(self).oam_scan.wf(),
            final(self).frame.wf(),
            final(self).dots_left == old(self).dots_left,
            render_step(*old(self), *final(self), mem@),
    {
        if self.first_dot_after_switch {
            self.pixel_render.reset();
            assert(self.pixel_render.background_queue@ =~= Seq::<u8>::empty());
        }
        let ghost bg0 = self.pixel_render.background_queue@;
        let ghost tx = self.pixel_render.tile_x;
        let ghost bgq = if bg0.len() < 8 {
            bg0 + bg_row(mem@, tx)
        } else {
            bg0
        };
        if self.pixel_render.x < 160 {
            let lcdc = mem.read_8(ADDRESS_LCDC);
            let ly = mem.read_8(ADDRESS_LY);
            if self.pixel_render.background_queue.len() < 8 {
                self.fetch_background(mem, lcdc, ly);
            }
            assert(self.pixel_render.background_queue@ == bgq);
            self.fetch_object(mem, lcdc, ly);
            let bg = self.pixel_render.background_queue.pop_front();
            let obj = self.pixel_render.obj_queue.pop_front();
            let ghost pixels_before = self.frame.pixels@;
            match compose_pixel(bg, obj, lcdc & LCDC_BG_WINDOW_ENABLE != 0) {
                Some(color) => self.frame.draw_pixel(self.pixel_render.x, ly, color),
                None => {},
            }
            assert(bg == Some(bgq[0]));
            assert(self.frame.pixels@ == drawn(pixels_before, self.pixel_render.x, ly, composed(Some(bgq[0]), obj, lcdc & LCDC_BG_WINDOW_ENABLE != 0)));
            assert(pixels_before == old(self).frame.pixels@);
            let ghost enabled = lcdc & LCDC_BG_WINDOW_ENABLE != 0;
            assert(drawn_over_background(
                old(self).frame.pixels@,
                self.frame.pixels@,
                self.pixel_render.x,
                ly,
                bgq[0],
                enabled,
            ));
            self.pixel_render.x = self.pixel_render.x + 1;
        }
    }

    /// Advances the PPU by one dot: the work of the current mode, the mode
    /// change when its dots run out (OAM scan 80, render 160, hblank to 456
    /// per line; vblank 10 lines from LY 144, raising the vblank interrupt),
    /// then the STAT interrupt line and LY==LYC bit.
    pub fn dot(&mut self, mem: &mut BasicMemory) -> (r: DotEvent)
        requires
            old(self).wf(),
            old(mem).wf(),
        ensures
            final(self).wf(),
            final(mem).wf(),
            ({
                let m = ppu_transition(old(mem)@, (old(self).dots_left - 1) as u16);
                &&& final(mem)@ == stat_update_spec(m, old(self).last_stat_interrupt_state)
                &&& final(self).last_stat_interrupt_state == stat_line(m)
                &&& final(self).dots_left == dots_after(old(mem)@, (old(self).dots_left - 1) as u16)
            }),
            old(mem)@.mem[ADDRESS_STAT as int] & 3 == 1 && old(self).first_dot_after_switch && r
                != DotEvent::StartNewFrame ==> r == DotEvent::ShowFrame,
            r == DotEvent::ShowFrame ==> old(mem)@.mem[ADDRESS_STAT as int] & 3 == 1
                && old(self).first_dot_after_switch,
            old(mem)@.mem[ADDRESS_STAT as int] & 3 == 2 ==> ({
                let fresh = old(self).first_dot_after_switch;
                let cur0 = if fresh { 0 } else { old(self).oam_scan.current_object as int };
                let len0 = if fresh { 0 } else { old(self).oam_scan.objects@.len() as int };
                let visit = (old(self).dots_left - 1) % 2 == 0 && len0 < 10 && cur0 < 40;
                &&& final(self).oam_scan.current_object == cur0 + (if visit { 1int } else { 0 })
                &&& (fresh || old(self).oam_scan.objects@ == selected(old(mem)@, cur0)) ==> final(self).oam_scan.objects@ == selected(old(mem)@, final(self).oam_scan.current_object as int)
            }),
            old(mem)@.mem[ADDRESS_STAT as int] & 3 == 3 ==> render_step(*old(self), *final(self), old(mem)@),
            old(mem)@.mem[ADDRESS_STAT as int] & 3 != 3 ==> final(self).frame == old(self).frame,
            r == DotEvent::StartNewFrame <==> (old(self).dots_left == 1 && old(mem)@.mem[ADDRESS_STAT as int]
                & 3 == 1 && old(mem)@.mem[ADDRESS_LY as int] >= 153),
    {
        let last_before = self.last_stat_interrupt_state;
        self.dots_left = self.dots_left - 1;
        let reset_first_dot_flag = self.first_dot_after_switch;
        let mut event = DotEvent::Nothing;
        let stat = mem.read_8_sys(ADDRESS_STAT);
        let ppu_mode = stat & 3;
        assert(ppu_mode <= 3) by (bit_vector)
            requires
                ppu_mode == stat & 3,
        ;
        if ppu_mode == PPU_MODE_OAM_SCAN {
            self.oam_scan_dot(mem);
            if self.dots_left == 0 {
                self.dots_left = 160;
                mem.write_8_sys(ADDRESS_STAT, (stat & 0xFC) | PPU_MODE_RENDER_PIXEL);
                self.first_dot_after_switch = true;
            }
        } else if ppu_mode == PPU_MODE_RENDER_PIXEL {
            self.render_dot(mem);
            if self.dots_left == 0 {
                self.dots_left = 216;
                mem.write_8_sys(ADDRESS_STAT, (stat & 0xFC) | PPU_MODE_HORIZ_BLANK);
                self.first_dot_after_switch = true;
            }
        } else if ppu_mode == PPU_MODE_HORIZ_BLANK {
            if self.dots_left == 0 {
                let ly = mem.read_8_sys(ADDRESS_LY);
                if ly == 143 {
                    self.dots_left = 456;
                    mem.write_8_sys(ADDRESS_STAT, (stat & 0xFC) | 1);
                    let iflag = mem.read_8_sys(ADDRESS_IF);
                    mem.write_8_sys(ADDRESS_IF, iflag | 1);
                } else {
                    self.dots_left = 80;
                    mem.write_8_sys(ADDRESS_STAT, (stat & 0xFC) | PPU_MODE_OAM_SCAN);
                }
                mem.write_8_sys(ADDRESS_LY, if ly == 255 { 0 } else { ly + 1 });
                self.first_dot_after_switch = true;
            }
        } else {
            if self.first_dot_after_switch {
                event = DotEvent::ShowFrame;
            }
            if self.dots_left == 0 {
                let ly = mem.read_8_sys(ADDRESS_LY);
                if ly >= 153 {
                    self.dots_left = 80;
                    mem.write_8_sys(ADDRESS_STAT, (stat & 0xFC) | PPU_MODE_OAM_SCAN);
                    mem.write_8_sys(ADDRESS_LY, 0);
                    self.first_dot_after_switch = true;
                    event = DotEvent::StartNewFrame;
                } else {
                    self.dots_left = 456;
                    mem.write_8_sys(ADDRESS_LY, ly + 1);
                }
            }
        }
        let ghost m = mem@;
        assert(m == ppu_transition(old(mem)@, (old(self).dots_left - 1) as u16));
        let mut last = last_before;
        stat_interrupt_update(mem, &mut last);
        assert(mem@ == stat_update_spec(m, last_before) && last == stat_line(m));
        self.last_stat_interrupt_state = last;
        if reset_first_dot_flag {
            self.first_dot_after_switch = false;
        }
        event
    }
}

} // verus!
