use std::collections::VecDeque;

use gbcore::basic_memory::BasicMemory;
use gbcore::model_render::OamScanData;
use gbcore::ppu::{compose_pixel, merge_object_pixels, obj_on_screen, push_tile_row, stat_interrupt_update, FrameBuffer, Ppu};

fn check(ly: u8, obj_y: u8, obj_height: u8, expected: bool) {
    assert_eq!(expected, obj_on_screen(ly, obj_y, obj_height));
}

#[test]
fn obj_on_screen_cases() {
    check(0, 0, 8, false);
    check(0, 0, 16, false);
    check(0, 2, 8, false);
    check(0, 2, 16, true);
    check(0, 16, 8, true);
    check(0, 16, 16, true);
    check(143, 144, 8, false);
    check(143, 144, 16, true);
    check(143, 152, 8, true);
    check(143, 152, 16, true);
    check(143, 154, 8, true);
    check(143, 154, 16, true);
    check(143, 160, 8, false);
    check(143, 160, 16, false);
    check(240, 250, 16, true);
}

#[test]
fn tile_row_interleaves_bytes() {
    let mut q: VecDeque<u8> = VecDeque::new();
    // low byte 0b1010_0000, high byte 0b1100_0000
    push_tile_row(&mut q, 0xC0, 0xA0, 0);
    let v: Vec<u8> = q.iter().copied().collect();
    assert_eq!(v, vec![3, 2, 1, 0, 0, 0, 0, 0]);
    let mut p: VecDeque<u8> = VecDeque::new();
    push_tile_row(&mut p, 0x00, 0x01, 4);
    let w: Vec<u8> = p.iter().copied().collect();
    assert_eq!(w, vec![4, 4, 4, 4, 4, 4, 4, 5]);
}

#[test]
fn object_merge_keeps_opaque_front_pixels() {
    let mut q: VecDeque<u8> = VecDeque::from(vec![0, 2, 6]);
    let incoming: VecDeque<u8> = VecDeque::from(vec![1, 1, 1, 3]);
    merge_object_pixels(&mut q, &incoming);
    assert_eq!(q.iter().copied().collect::<Vec<u8>>(), vec![1, 2, 1, 3]);
}

#[test]
fn pixel_composition() {
    assert_eq!(compose_pixel(Some(2), Some(1), true), Some(1));
    assert_eq!(compose_pixel(Some(2), Some(0), true), Some(2));
    assert_eq!(compose_pixel(Some(2), Some(5), true), Some(2));
    assert_eq!(compose_pixel(Some(2), None, false), Some(0));
    assert_eq!(compose_pixel(None, Some(4), true), None);
    assert_eq!(compose_pixel(None, None, true), None);
}

#[test]
fn stat_interrupt_fires_on_rising_edge_only() {
    let mut m = BasicMemory::default();
    // mode 0 with the hblank source enabled
    m.write_8_sys(0xFF41, 0x08);
    m.write_8_sys(0xFF45, 0x10);
    let mut last = false;
    stat_interrupt_update(&mut m, &mut last);
    assert!(last);
    assert_eq!(m.read_8(0xFF0F) & 2, 2);
    m.write_8_sys(0xFF0F, 0);
    stat_interrupt_update(&mut m, &mut last);
    assert_eq!(m.read_8(0xFF0F) & 2, 0);
    // LY == LYC shows in bit 2
    m.write_8_sys(0xFF45, 0x00);
    stat_interrupt_update(&mut m, &mut last);
    assert_eq!(m.read_8(0xFF41) & 4, 4);
}

#[test]
fn frame_cycle_raises_vblank_and_selects_at_most_ten() {
    let mut m = BasicMemory::default();
    // twelve objects on scanline 1 (Y = 16)
    for i in 0..12u16 {
        m.write_8(0xFE00 + 4 * i, 16);
        m.write_8(0xFE00 + 4 * i + 1, 200);
    }
    m.write_8_sys(0xFF40, 0x91);
    let mut ppu = Ppu::new();
    let mut shows = 0;
    let mut max_selected = 0;
    for _ in 0..(456 * 154 + 10) {
        if ppu.dot(&mut m) == gbcore::ppu::DotEvent::ShowFrame {
            shows += 1;
        }
        let n = ppu.oam_scan.objects.len();
        if n > max_selected {
            max_selected = n;
        }
        let v: Vec<u16> = ppu.oam_scan.objects.iter().copied().collect();
        for w in v.windows(2) {
            assert!(w[0] < w[1]);
        }
    }
    assert_eq!(max_selected, 10);
    assert!(shows >= 1);
    assert_eq!(m.read_8(0xFF0F) & 1, 1);
}

#[test]
fn framebuffer_ignores_offscreen() {
    let mut f = FrameBuffer::new();
    f.draw_pixel(3, 2, 3);
    assert_eq!(f.pixels[2 * 160 + 3], 3);
    f.draw_pixel(160, 0, 3);
    assert_eq!(f.pixels.iter().filter(|p| **p != 0).count(), 1);
    let s = OamScanData::new();
    assert_eq!(s.objects.len(), 0);
}

#[test]
fn background_tile_is_drawn() {
    let mut m = BasicMemory::default();
    // tile 0 row 0: every pixel shade 3 (both bytes 0xFF); map all zero
    m.write_8(0x8000, 0xFF);
    m.write_8(0x8001, 0xFF);
    m.write_8_sys(0xFF40, 0x91);
    let mut ppu = Ppu::new();
    // the first line drawn is LY 1 after the initial hblank; run until it is done
    for _ in 0..(1 + 80 + 160) {
        ppu.dot(&mut m);
    }
    assert_eq!(m.read_8(0xFF44), 1);
    // LY 1 reads tile row 1, which is zero
    assert_eq!(ppu.frame.pixels[160 + 5], 0);
    for _ in 0..(456 * 153) {
        ppu.dot(&mut m);
    }
    // after a full frame, line 0 has been drawn from row 0
    assert_eq!(ppu.frame.pixels[5], 3);
    assert_eq!(ppu.frame.pixels[159], 3);
}
