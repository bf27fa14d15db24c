use chip8::error::{ExecError, LoadError};
use chip8::memory::{Memory, MEMORY_SIZE, PROGRAM_START};

#[test]
fn new_memory_is_zero() {
    let m = Memory::new();
    for addr in 0..MEMORY_SIZE {
        assert_eq!(m.read8(addr), Ok(0));
    }
}

#[test]
fn load_places_rom_at_program_start() {
    let rom = [0xDE, 0xAD, 0xBE, 0xEF];
    let m = Memory::load(&rom).unwrap();
    assert_eq!(m.read8(PROGRAM_START - 1), Ok(0));
    assert_eq!(m.read8(PROGRAM_START), Ok(0xDE));
    assert_eq!(m.read8(PROGRAM_START + 1), Ok(0xAD));
    assert_eq!(m.read8(PROGRAM_START + 2), Ok(0xBE));
    assert_eq!(m.read8(PROGRAM_START + 3), Ok(0xEF));
    assert_eq!(m.read8(PROGRAM_START + 4), Ok(0));
    assert_eq!(m.read8(0), Ok(0));
    assert_eq!(m.read8(MEMORY_SIZE - 1), Ok(0));
}

#[test]
fn load_empty_rom() {
    let m = Memory::load(&[]).unwrap();
    for addr in 0..MEMORY_SIZE {
        assert_eq!(m.read8(addr), Ok(0));
    }
}

#[test]
fn load_largest_rom_fits() {
    let rom = vec![0x5A; MEMORY_SIZE - PROGRAM_START];
    let m = Memory::load(&rom).unwrap();
    assert_eq!(m.read8(PROGRAM_START - 1), Ok(0));
    assert_eq!(m.read8(PROGRAM_START), Ok(0x5A));
    assert_eq!(m.read8(MEMORY_SIZE - 1), Ok(0x5A));
}

#[test]
fn load_rejects_rom_one_byte_too_large() {
    let rom = vec![0u8; MEMORY_SIZE - PROGRAM_START + 1];
    assert!(matches!(Memory::load(&rom), Err(LoadError::TooLarge)));
}

#[test]
fn load_rejects_huge_rom() {
    let rom = vec![1u8; 100_000];
    assert!(matches!(Memory::load(&rom), Err(LoadError::TooLarge)));
}

#[test]
fn read8_out_of_bounds() {
    let m = Memory::new();
    assert_eq!(m.read8(4095), Ok(0));
    assert_eq!(m.read8(4096), Err(ExecError::OutOfBounds));
    assert_eq!(m.read8(usize::MAX), Err(ExecError::OutOfBounds));
}

#[test]
fn read16_is_big_endian() {
    let m = Memory::load(&[0x12, 0x34, 0xFF, 0x01]).unwrap();
    assert_eq!(m.read16(512), Ok(0x1234));
    assert_eq!(m.read16(513), Ok(0x34FF));
    assert_eq!(m.read16(514), Ok(0xFF01));
    assert_eq!(m.read16(515), Ok(0x0100));
}

#[test]
fn read16_out_of_bounds() {
    let m = Memory::new();
    assert_eq!(m.read16(4094), Ok(0));
    assert_eq!(m.read16(4095), Err(ExecError::OutOfBounds));
    assert_eq!(m.read16(4096), Err(ExecError::OutOfBounds));
    assert_eq!(m.read16(usize::MAX), Err(ExecError::OutOfBounds));
}

#[test]
fn write8_then_read8() {
    let mut m = Memory::new();
    assert_eq!(m.write8(0, 7), Ok(()));
    assert_eq!(m.write8(4095, 9), Ok(()));
    assert_eq!(m.read8(0), Ok(7));
    assert_eq!(m.read8(1), Ok(0));
    assert_eq!(m.read8(4095), Ok(9));
    assert_eq!(m.read16(4094), Ok(0x0009));
}

#[test]
fn write8_out_of_bounds_changes_nothing() {
    let mut m = Memory::new();
    assert_eq!(m.write8(4096, 1), Err(ExecError::OutOfBounds));
    assert_eq!(m.write8(usize::MAX, 1), Err(ExecError::OutOfBounds));
    for addr in 0..MEMORY_SIZE {
        assert_eq!(m.read8(addr), Ok(0));
    }
}

#[test]
fn read_span_gives_the_bytes() {
    let m = Memory::load(&[1, 2, 3, 4, 5]).unwrap();
    assert_eq!(m.read_span(513, 3), Ok(&[2u8, 3, 4][..]));
    assert_eq!(m.read_span(510, 4), Ok(&[0u8, 0, 1, 2][..]));
    assert_eq!(m.read_span(4095, 1), Ok(&[0u8][..]));
}

#[test]
fn read_span_of_nothing_always_succeeds() {
    let m = Memory::new();
    assert_eq!(m.read_span(0, 0), Ok(&[][..]));
    assert_eq!(m.read_span(4096, 0), Ok(&[][..]));
    assert_eq!(m.read_span(60_000, 0), Ok(&[][..]));
}

#[test]
fn read_span_out_of_bounds() {
    let m = Memory::new();
    assert_eq!(m.read_span(4095, 2), Err(ExecError::OutOfBounds));
    assert_eq!(m.read_span(4096, 1), Err(ExecError::OutOfBounds));
    assert_eq!(m.read_span(0, 4097), Err(ExecError::OutOfBounds));
    assert_eq!(m.read_span(usize::MAX, 2), Err(ExecError::OutOfBounds));
    assert_eq!(m.read_span(2, usize::MAX), Err(ExecError::OutOfBounds));
    assert_eq!(m.read_span(0, 4096).map(|s| s.len()), Ok(4096));
}

#[test]
fn write_span_lays_bytes_over() {
    let mut m = Memory::load(&[1, 2, 3, 4, 5]).unwrap();
    assert_eq!(m.write_span(513, &[9, 8]), Ok(()));
    assert_eq!(m.read_span(512, 5), Ok(&[1u8, 9, 8, 4, 5][..]));
    assert_eq!(m.write_span(4094, &[7, 6]), Ok(()));
    assert_eq!(m.read16(4094), Ok(0x0706));
}

#[test]
fn write_span_out_of_bounds_writes_nothing() {
    let mut m = Memory::new();
    assert_eq!(m.write_span(4095, &[1, 2]), Err(ExecError::OutOfBounds));
    assert_eq!(m.read8(4095), Ok(0));
    assert_eq!(m.write_span(usize::MAX, &[1]), Err(ExecError::OutOfBounds));
    assert_eq!(m.write_span(5000, &[]), Ok(()));
}
