use gbcore::basic_memory::BasicMemory;
use gbcore::system::{boot, cpu_step, dispatch_interrupt, div_tick, timer_tick, wait_cycles, BootError, ImeLatch};

#[test]
fn interrupt_dispatch_takes_lowest_line() {
    let mut m = BasicMemory::default();
    m.shared_data.r.pc = 0x1234;
    m.shared_data.r.sp = 0xD000;
    m.shared_data.ime = true;
    m.write_8(0xFF0F, 0x06);
    m.write_8(0xFFFF, 0x1F);
    assert_eq!(dispatch_interrupt(&mut m), Ok(true));
    assert_eq!(m.shared_data.r.pc, 0x48);
    assert_eq!(m.read_8(0xFF0F), 0x04);
    assert!(!m.shared_data.ime);
    assert_eq!(m.read_8(0xCFFF), 0x12);
    assert_eq!(m.read_8(0xCFFE), 0x34);
    m.write_8(0xFFFF, 0x00);
    assert_eq!(dispatch_interrupt(&mut m), Ok(false));
}

#[test]
fn ei_takes_effect_after_one_instruction() {
    let mut rom = vec![0u8; 0x8000];
    rom[0x100] = 0xFB; // EI
    rom[0x101] = 0x00; // NOP
    rom[0x102] = 0x00; // NOP
    rom[0x147] = 0;
    let mut m = boot(rom).unwrap();
    m.write_8(0xFF0F, 0x01);
    m.write_8(0xFFFF, 0x01);
    let mut latch = ImeLatch::new();
    assert_eq!(cpu_step(&mut m, &mut latch), Ok(1));
    assert_eq!(cpu_step(&mut m, &mut latch), Ok(1));
    assert_eq!(m.shared_data.r.pc, 0x102);
    assert_eq!(cpu_step(&mut m, &mut latch), Ok(5));
    assert_eq!(m.shared_data.r.pc, 0x40);
}

#[test]
fn timers() {
    let mut m = BasicMemory::default();
    m.write_8_sys(0xFF04, 0xFF);
    div_tick(&mut m);
    assert_eq!(m.read_8(0xFF04), 0);
    assert_eq!(timer_tick(&mut m), None);
    m.write_8_sys(0xFF07, 0x05);
    m.write_8_sys(0xFF05, 0xFF);
    m.write_8_sys(0xFF06, 0xAB);
    assert_eq!(timer_tick(&mut m), Some(3815));
    assert_eq!(m.read_8(0xFF05), 0xAB);
    assert_eq!(m.read_8(0xFF0F) & 4, 4);
    assert_eq!(timer_tick(&mut m), Some(3815));
    assert_eq!(m.read_8(0xFF05), 0xAC);
    assert_eq!(wait_cycles(3), Some(2862));
}

#[test]
fn boot_state_and_errors() {
    let mut rom = vec![0u8; 0x200];
    rom[0x147] = 1;
    assert_eq!(boot(rom.clone()).err(), Some(BootError::UnsupportedMbc(1)));
    assert_eq!(boot(vec![0u8; 0x10]).err(), Some(BootError::MissingHeader));
    rom[0x147] = 0;
    rom[0x100] = 0xAA;
    let m = boot(rom).unwrap();
    assert_eq!(m.shared_data.r.sp, 0xFFFE);
    assert_eq!(m.shared_data.r.pc, 0x0100);
    assert_eq!(m.read_8(0xFF40), 0x83);
    assert_eq!(m.read_8(0x0100), 0xAA);
    assert!(!m.shared_data.ime);
}

#[test]
fn reti_enables_interrupts_at_once() {
    let mut rom = vec![0u8; 0x8000];
    rom[0x100] = 0xD9; // RETI
    let mut m = boot(rom).unwrap();
    m.shared_data.r.sp = 0xD000;
    m.write_8(0xD000, 0x00);
    m.write_8(0xD001, 0x02);
    m.write_8(0xFF0F, 0x04);
    m.write_8(0xFFFF, 0x04);
    let mut latch = ImeLatch::new();
    assert_eq!(cpu_step(&mut m, &mut latch), Ok(4));
    assert_eq!(m.shared_data.r.pc, 0x0200);
    assert!(latch.enabled);
    assert_eq!(cpu_step(&mut m, &mut latch), Ok(5));
    assert_eq!(m.shared_data.r.pc, 0x50);
}
