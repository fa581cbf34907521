use oslcap::cap::{Capability, PERM_EXEC, PERM_READ, PERM_WRITE};
use oslcap::cpu::CPU;
use oslcap::loader::{encode_osl_bin, load_osl_bin, LoadError};
use oslcap::mem::Memory;

#[test]
fn write_then_load_round_trip() {
    let words: Vec<u16> = vec![0x1107, 0xC000, 0xBEEF];
    let image = encode_osl_bin(&words, 0x1000, 0x2000);
    assert_eq!(image.len(), 40 + 6);
    assert_eq!(&image[0..8], &0x1000u64.to_le_bytes());
    assert_eq!(&image[16..24], &6u64.to_le_bytes());
    assert_eq!(&image[32..40], &0u64.to_le_bytes());
    let mut cpu = CPU::new();
    let mut mem = Memory::new(0x4000);
    assert_eq!(load_osl_bin(&mut cpu, &mut mem, &image), Ok(()));
    assert_eq!(&mem.bytes[0x1000..0x1006], &[0x07, 0x11, 0x00, 0xC0, 0xEF, 0xBE]);
    assert_eq!(cpu.pc, 0x1000);
    assert_eq!(
        cpu.c[1],
        Capability { base: 0x1000, length: 6, offset: 0, perms: PERM_EXEC, valid: true, sealed: false }
    );
    assert_eq!(
        cpu.c[2],
        Capability { base: 0x2000, length: 0, offset: 0, perms: PERM_READ | PERM_WRITE, valid: true, sealed: false }
    );
}

fn header(entry: u64, tb: u64, ts: u64, db: u64, ds: u64) -> Vec<u8> {
    let mut v = Vec::new();
    for f in [entry, tb, ts, db, ds] {
        v.extend_from_slice(&f.to_le_bytes());
    }
    v
}

#[test]
fn loads_data_section() {
    let mut image = header(0x12, 0x10, 2, 0x40, 3);
    image.extend_from_slice(&[1, 2, 7, 8, 9]);
    let mut cpu = CPU::new();
    let mut mem = Memory::new(0x100);
    assert_eq!(load_osl_bin(&mut cpu, &mut mem, &image), Ok(()));
    assert_eq!(&mem.bytes[0x10..0x12], &[1, 2]);
    assert_eq!(&mem.bytes[0x40..0x43], &[7, 8, 9]);
    assert_eq!(cpu.pc, 0x12);
    assert_eq!(cpu.c[2].length, 3);
}

#[test]
fn loader_errors() {
    let mut cpu = CPU::new();
    let mut mem = Memory::new(0x100);
    assert_eq!(load_osl_bin(&mut cpu, &mut mem, &[0u8; 39]), Err(LoadError::TooSmall));
    assert_eq!(
        load_osl_bin(&mut cpu, &mut mem, &header(0, 0xF0, 0x20, 0, 0)),
        Err(LoadError::TextOutOfBounds { base: 0xF0, size: 0x20 })
    );
    assert_eq!(
        load_osl_bin(&mut cpu, &mut mem, &header(0, u64::MAX, 2, 0, 0)),
        Err(LoadError::TextOutOfBounds { base: u64::MAX, size: 2 })
    );
    assert_eq!(
        load_osl_bin(&mut cpu, &mut mem, &header(0, 0, 0, 0x100, 1)),
        Err(LoadError::DataOutOfBounds { base: 0x100, size: 1 })
    );
    assert_eq!(load_osl_bin(&mut cpu, &mut mem, &header(0, 0, 4, 0, 0)), Err(LoadError::Truncated));
    assert_eq!(cpu.pc, 0);
    assert!(!cpu.c[1].valid);
}

#[test]
fn empty_program_round_trip() {
    let image = encode_osl_bin(&[], 0x10, 0x20);
    assert_eq!(image.len(), 40);
    let mut cpu = CPU::new();
    let mut mem = Memory::new(0x40);
    assert_eq!(load_osl_bin(&mut cpu, &mut mem, &image), Ok(()));
    assert_eq!(cpu.pc, 0x10);
    assert_eq!(cpu.c[1].length, 0);
    assert!(mem.bytes.iter().all(|b| *b == 0));
}
