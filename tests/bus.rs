use gbcore::basic_memory::BasicMemory;
use gbcore::memory::Inputs;

#[test]
fn ly_write_is_dropped() {
    let mut m = BasicMemory::default();
    m.write_8_sys(0xFF44, 0x42);
    for v in 0..=255u8 {
        m.write_8(0xFF44, v);
        assert_eq!(m.read_8(0xFF44), 0x42);
    }
}

#[test]
fn div_reset_via_program_write() {
    let mut m = BasicMemory::default();
    m.write_8_sys(0xFF04, 0x99);
    m.write_8(0xFF04, 0x42);
    assert_eq!(m.read_8(0xFF04), 0x00);
}

#[test]
fn stat_low_bits_are_read_only() {
    let mut m = BasicMemory::default();
    m.write_8_sys(0xFF41, 0x05);
    m.write_8(0xFF41, 0xFA);
    assert_eq!(m.read_8(0xFF41), 0xFD);
    assert_eq!(m.read_8(0xFF41) & 7, 0x05);
}

#[test]
fn echo_mirrors_work_ram() {
    let mut m = BasicMemory::default();
    m.write_8(0xE123, 0x5A);
    assert_eq!(m.read_8(0xC123), 0x5A);
    m.write_8(0xC456, 0xA5);
    assert_eq!(m.read_8(0xE456), 0xA5);
}

#[test]
fn rom_writes_are_dropped_and_image_is_loaded() {
    let mut m = BasicMemory::new(vec![1, 2, 3]);
    assert_eq!(m.read_8(0x0001), 2);
    assert_eq!(m.read_8(0x0003), 0);
    m.write_8(0x0001, 9);
    assert_eq!(m.read_8(0x0001), 2);
}

#[test]
fn dma_write_arms_a_copy() {
    let mut m = BasicMemory::default();
    m.write_8(0xC005, 0x77);
    m.write_8(0xFF46, 0xC0);
    assert_eq!(m.shared_data.dma_source_address, 0xC000);
    for _ in 0..6 {
        m.dma_step().unwrap();
    }
    assert_eq!(m.read_8(0xFE05), 0x77);
    assert_eq!(m.shared_data.dma_source_address, 0xC006);
}

#[test]
fn dma_from_cartridge_ram_is_a_fault() {
    let mut m = BasicMemory::default();
    m.write_8(0xFF46, 0xA0);
    assert_eq!(m.dma_step(), Err(0xA000));
}

#[test]
fn joypad_matrix_and_interrupt() {
    let mut m = BasicMemory::default();
    m.shared_data.inputs = Inputs { a: true, right: true, ..Inputs::default() };
    m.write_8_sys(0xFF00, 0x3F);
    m.write_8(0xFF00, 0x20);
    // directions selected: right clears bit 0
    assert_eq!(m.read_8(0xFF00) & 0x0F, 0x0E);
    assert_eq!(m.read_8(0xFF0F) & 0x10, 0x10);
    m.write_8_sys(0xFF0F, 0);
    m.write_8(0xFF00, 0x30);
    assert_eq!(m.read_8(0xFF00) & 0x0F, 0x0F);
    assert_eq!(m.read_8(0xFF0F), 0);
    m.write_8(0xFF00, 0x10);
    // buttons selected: A clears bit 0
    assert_eq!(m.read_8(0xFF00) & 0x0F, 0x0E);
    assert_eq!(m.read_8(0xFF0F) & 0x10, 0x10);
}
