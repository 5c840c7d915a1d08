use gbcore::basic_memory::BasicMemory;
use gbcore::cpu_spec::CpuError;
use gbcore::opcodes::process_instruction;

#[test]
fn push_pop_same_val() {
    let mut m = BasicMemory::default();
    let initial_bc = 0xDEAD;

    m.shared_data.r.bc.s16(initial_bc);
    m.shared_data.r.pc = 0x8000;
    m.shared_data.r.sp = 0x9000;
    // PUSH bc
    m.write_8(0x8000, 0b11000101);
    // POP bc
    m.write_8(0x8001, 0b11000001);
    process_instruction(&mut m).unwrap();
    m.shared_data.r.bc.s16(0);
    process_instruction(&mut m).unwrap();
    assert_eq!(
        m.shared_data.r.bc.r16(),
        initial_bc,
        "PUSHing and then POPing changes the pushed value"
    );
    assert_eq!(m.shared_data.r.sp, 0x9000);
}

#[test]
fn pop_register_order() {
    let mut m = BasicMemory::default();

    m.shared_data.r.sp = 0xFFFC;
    m.write_8(0xFFFC, 0x5F);
    m.write_8(0xFFFD, 0x3C);

    m.shared_data.r.pc = 0x8000;
    m.write_8(0x8000, 0b11_000_001);
    process_instruction(&mut m).unwrap();

    assert_eq!(m.shared_data.r.bc.ind.0, 0x3C);
    assert_eq!(m.shared_data.r.bc.ind.1, 0x5F);
    assert_eq!(m.shared_data.r.sp, 0xFFFE);
}

#[test]
fn ld_16_byte_register_contents() {
    let mut m = BasicMemory::default();
    m.shared_data.r.pc = 0x8000;
    m.write_8(0x8000, 0b00_100_001);
    // little-endian: least significant byte comes first
    m.write_8(0x8001, 0x5B);
    m.write_8(0x8002, 0x3A);
    process_instruction(&mut m).unwrap();
    assert_eq!(m.shared_data.r.hl.r16(), 0x3A5B);
    assert_eq!(m.shared_data.r.hl.ind.0, 0x3A);
    assert_eq!(m.shared_data.r.hl.ind.1, 0x5B);
}

fn machine_at(code: &[u8]) -> BasicMemory {
    let mut m = BasicMemory::default();
    m.shared_data.r.pc = 0xC000;
    m.shared_data.r.sp = 0xD000;
    for (i, b) in code.iter().enumerate() {
        m.write_8(0xC000 + i as u16, *b);
    }
    m
}

#[test]
fn push_pop_af_keeps_flags() {
    let mut m = machine_at(&[0xF5, 0xF1]);
    m.shared_data.r.a = 0x12;
    m.shared_data.r.set_flags_unchecked(0xB0);
    assert_eq!(process_instruction(&mut m), Ok(4));
    assert_eq!(process_instruction(&mut m), Ok(3));
    assert_eq!(m.shared_data.r.a, 0x12);
    assert_eq!(m.shared_data.r.f.bits(), 0xB0);
    assert_eq!(m.shared_data.r.sp, 0xD000);
}

#[test]
fn add_immediate_sets_flags() {
    let mut m = machine_at(&[0xC6, 0x01]);
    m.shared_data.r.a = 0xFF;
    assert_eq!(process_instruction(&mut m), Ok(2));
    assert_eq!(m.shared_data.r.a, 0);
    assert!(m.shared_data.r.f.z && m.shared_data.r.f.h && m.shared_data.r.f.cy && !m.shared_data.r.f.n);
    assert_eq!(m.shared_data.r.pc, 0xC002);
}

#[test]
fn call_and_ret() {
    let mut m = machine_at(&[0xCD, 0x10, 0xC0]);
    m.write_8(0xC010, 0xC9);
    assert_eq!(process_instruction(&mut m), Ok(6));
    assert_eq!(m.shared_data.r.pc, 0xC010);
    assert_eq!(m.shared_data.r.sp, 0xCFFE);
    assert_eq!(m.read_8(0xCFFF), 0xC0);
    assert_eq!(m.read_8(0xCFFE), 0x03);
    assert_eq!(process_instruction(&mut m), Ok(4));
    assert_eq!(m.shared_data.r.pc, 0xC003);
    assert_eq!(m.shared_data.r.sp, 0xD000);
}

#[test]
fn relative_jump_backwards_and_conditions() {
    let mut m = machine_at(&[0x00, 0x18, 0xFD]);
    process_instruction(&mut m).unwrap();
    assert_eq!(process_instruction(&mut m), Ok(3));
    assert_eq!(m.shared_data.r.pc, 0xC000);
    let mut n = machine_at(&[0x20, 0x05]);
    n.shared_data.r.f.z = true;
    assert_eq!(process_instruction(&mut n), Ok(2));
    assert_eq!(n.shared_data.r.pc, 0xC002);
}

#[test]
fn relative_jump_out_of_range_is_an_error() {
    let mut m = BasicMemory::default();
    m.shared_data.r.pc = 0x0000;
    let mut rom = vec![0u8; 0x8000];
    rom[0] = 0x18;
    rom[1] = 0x80;
    let mut m2 = BasicMemory::new(rom);
    assert_eq!(process_instruction(&mut m2), Err(CpuError::JumpOutOfRange(2)));
    assert_eq!(process_instruction(&mut m), Ok(1));
}

#[test]
fn halt_stop_and_undefined_opcodes_are_errors() {
    let mut m = machine_at(&[0x76]);
    assert_eq!(process_instruction(&mut m), Err(CpuError::Unimplemented(0x76)));
    let mut m = machine_at(&[0x10]);
    assert_eq!(process_instruction(&mut m), Err(CpuError::Unimplemented(0x10)));
    let mut m = machine_at(&[0xD3]);
    assert_eq!(process_instruction(&mut m), Err(CpuError::InvalidInstruction(0xD3)));
}

#[test]
fn cartridge_ram_access_is_a_fault() {
    let mut m = machine_at(&[0x7E]);
    m.shared_data.r.hl.s16(0xA123);
    assert_eq!(process_instruction(&mut m), Err(CpuError::BusFault(0xA123)));
}

#[test]
fn cb_prefixed_bit_set_res() {
    let mut m = machine_at(&[0xCB, 0xC7, 0xCB, 0x47, 0xCB, 0x87, 0xCB, 0x47, 0xCB, 0x37]);
    m.shared_data.r.a = 0x10;
    assert_eq!(process_instruction(&mut m), Ok(2));
    assert_eq!(m.shared_data.r.a, 0x11);
    process_instruction(&mut m).unwrap();
    assert!(!m.shared_data.r.f.z && m.shared_data.r.f.h);
    process_instruction(&mut m).unwrap();
    assert_eq!(m.shared_data.r.a, 0x10);
    process_instruction(&mut m).unwrap();
    assert!(m.shared_data.r.f.z);
    process_instruction(&mut m).unwrap();
    assert_eq!(m.shared_data.r.a, 0x01);
}

#[test]
fn daa_after_bcd_addition() {
    let mut m = machine_at(&[0x80, 0x27]);
    m.shared_data.r.a = 0x45;
    m.shared_data.r.bc.ind.0 = 0x38;
    process_instruction(&mut m).unwrap();
    process_instruction(&mut m).unwrap();
    assert_eq!(m.shared_data.r.a, 0x83);
    assert!(!m.shared_data.r.f.cy);
}

#[test]
fn load_through_hl_increments() {
    let mut m = machine_at(&[0x22, 0x2A]);
    m.shared_data.r.a = 0x77;
    m.shared_data.r.hl.s16(0xC100);
    process_instruction(&mut m).unwrap();
    assert_eq!(m.read_8(0xC100), 0x77);
    assert_eq!(m.shared_data.r.hl.r16(), 0xC101);
    m.write_8(0xC101, 0x66);
    process_instruction(&mut m).unwrap();
    assert_eq!(m.shared_data.r.a, 0x66);
    assert_eq!(m.shared_data.r.hl.r16(), 0xC102);
}
