use oslcap::assembler::emitter::emit;
use oslcap::assembler::lexer::lex;
use oslcap::assembler::parser::parse;
use oslcap::cap::{Capability, PERM_EXEC, PERM_READ, PERM_WRITE};
use oslcap::cpu::CPU;
use oslcap::exec::execute;
use oslcap::host::{handle_syscall, HostAction};
use oslcap::isa::{decode, encode};
use oslcap::loader::{encode_osl_bin, load_osl_bin};
use oslcap::mem::Memory;
use oslcap::trap::{trap_name, Trap};

const MEM_SIZE: usize = 64 * 1024;
const TEXT_BASE: u64 = 0x1000;
const DATA_BASE: u64 = 0x2000;

fn assemble(src: &str) -> Vec<u16> {
    let toks = lex(src).unwrap();
    let items = parse(&toks).unwrap();
    emit(&items).unwrap()
}

fn boot(words: &[u16]) -> (CPU, Memory) {
    let mut cpu = CPU::new();
    let mut mem = Memory::new(MEM_SIZE);
    let image = encode_osl_bin(words, TEXT_BASE, DATA_BASE);
    load_osl_bin(&mut cpu, &mut mem, &image).unwrap();
    (cpu, mem)
}

/// Runs until exit or a fatal trap; returns the lines printed and the fatal trap, if any.
fn run(cpu: &mut CPU, mem: &mut Memory) -> (Vec<String>, Option<Trap>) {
    let mut out = Vec::new();
    for _ in 0..10_000 {
        if let Some(t) = cpu.trap.take() {
            match t {
                Trap::Syscall(n) => match handle_syscall(cpu, mem, n) {
                    HostAction::Exit(code) => {
                        out.push(format!("Program exited with code {}", code));
                        return (out, None);
                    }
                    HostAction::PrintInt(v) => out.push(format!("{}", v)),
                    HostAction::PrintStr { bytes, .. } => {
                        out.push(String::from_utf8_lossy(&bytes).into_owned())
                    }
                    HostAction::Unknown(n) => out.push(format!("Unknown syscall {}", n)),
                },
                other => {
                    out.push(format!("Trap: {}", trap_name(other)));
                    return (out, Some(other));
                }
            }
        }
        if cpu.trap.is_some() {
            continue;
        }
        cpu.step(mem);
    }
    panic!("program did not stop");
}

#[test]
fn constant_exit() {
    let words = assemble("addi r1, r0, 7\nsyscall r0\n");
    let (mut cpu, mut mem) = boot(&words);
    let (out, trap) = run(&mut cpu, &mut mem);
    assert_eq!(out, vec!["Program exited with code 7".to_string()]);
    assert!(trap.is_none());
}

#[test]
fn arithmetic_program() {
    let words = assemble("addi r2, r0, 3\naddi r3, r0, 4\nmul r1, r2, r3\nsyscall r0\n");
    let (mut cpu, mut mem) = boot(&words);
    let (out, _) = run(&mut cpu, &mut mem);
    assert_eq!(out, vec!["Program exited with code 12".to_string()]);
}

#[test]
fn loop_via_brz() {
    let src = "      addi r1, r0, 0
      addi r2, r0, 5
loop: add  r1, r1, r2
      addi r2, r2, -1
      brz  r2, done
      jmp  r0, loop     ; PC-relative back
done: syscall r0
";
    let words = assemble(src);
    assert_eq!(words.len(), 7);
    let (mut cpu, mut mem) = boot(&words);
    let (out, _) = run(&mut cpu, &mut mem);
    assert_eq!(cpu.r[1], 15);
    assert_eq!(out, vec!["Program exited with code 15".to_string()]);
}

#[test]
fn load_through_invalid_capability_traps() {
    let words = assemble("ld r1, r0, 0\nsyscall r0\n");
    let (mut cpu, mut mem) = boot(&words);
    cpu.c[2] = Capability::null();
    let (out, trap) = run(&mut cpu, &mut mem);
    assert_eq!(trap, Some(Trap::CapViolation));
    assert_eq!(out, vec!["Trap: Capability Violation".to_string()]);
}

#[test]
fn unknown_syscall_continues() {
    let words = assemble("addi r1, r0, 7\naddi r1, r1, 7\naddi r2, r0, 7\naddi r2, r2, 7\nsyscall r2\nsyscall r0\n");
    let (mut cpu, mut mem) = boot(&words);
    cpu.r[1] = 99;
    cpu.r[2] = 42;
    cpu.pc = TEXT_BASE + 8;
    let (out, _) = run(&mut cpu, &mut mem);
    assert_eq!(
        out,
        vec!["Unknown syscall 42".to_string(), "Program exited with code 99".to_string()]
    );
}

#[test]
fn print_int_and_string_syscalls() {
    let words = assemble("addi r1, r0, 5\naddi r3, r0, 1\nsyscall r3\nsyscall r0\n");
    let (mut cpu, mut mem) = boot(&words);
    let (out, _) = run(&mut cpu, &mut mem);
    assert_eq!(out, vec!["5".to_string(), "Program exited with code 5".to_string()]);
    let base = DATA_BASE as usize;
    mem.bytes[base..base + 3].copy_from_slice(b"hi\0");
    let mut cpu = CPU::new();
    cpu.c[2] = Capability { base: DATA_BASE, length: 16, offset: 0, perms: PERM_READ, valid: true, sealed: false };
    cpu.r[1] = DATA_BASE;
    match handle_syscall(&mut cpu, &mem, 2) {
        HostAction::PrintStr { bytes, complete } => {
            assert_eq!(bytes, b"hi".to_vec());
            assert!(complete);
        }
        other => panic!("unexpected {:?}", other),
    }
    assert!(cpu.trap.is_none());
    match handle_syscall(&mut cpu, &mem, 0) {
        HostAction::Exit(code) => assert_eq!(code, DATA_BASE),
        other => panic!("unexpected {:?}", other),
    }
}

#[test]
fn string_syscall_fault_raises_trap() {
    let mem = Memory::new(64);
    let mut cpu = CPU::new();
    cpu.r[1] = 0;
    match handle_syscall(&mut cpu, &mem, 2) {
        HostAction::PrintStr { bytes, complete } => {
            assert!(bytes.is_empty());
            assert!(!complete);
        }
        other => panic!("unexpected {:?}", other),
    }
    assert_eq!(cpu.trap, Some(Trap::CapViolation));
}

#[test]
fn decode_encode_round_trip_all_words() {
    for op in 0u8..16 {
        for rd in 0u8..16 {
            for rs1 in 0u8..16 {
                for low in 0u8..16 {
                    let w = encode(op, rd, rs1, low);
                    assert_eq!(w, ((op as u16) << 12) | ((rd as u16) << 8) | ((rs1 as u16) << 4) | low as u16);
                    let i = decode(w);
                    assert_eq!((i.opcode, i.rd, i.rs1, i.rs2), (op, rd, rs1, low));
                    let expect = if low < 8 { low as i8 } else { low as i8 - 16 };
                    assert_eq!(i.imm, expect);
                }
            }
        }
    }
}

#[test]
fn decode_sign_extends_immediate() {
    assert_eq!(decode(0x1F0F).imm, -1);
    assert_eq!(decode(0x1F08).imm, -8);
    assert_eq!(decode(0x1F07).imm, 7);
    assert_eq!(decode(0xA123).opcode, 0xA);
}

fn data_cap() -> Capability {
    Capability { base: 0x100, length: 16, offset: 0, perms: PERM_READ | PERM_WRITE, valid: true, sealed: false }
}

#[test]
fn capability_checks_refuse_bad_access() {
    let mut mem = Memory::new(0x200);
    let good = data_cap();
    assert_eq!(mem.store64(0x100, 0x1122334455667788, &good), Ok(()));
    assert_eq!(mem.load64(0x100, &good), Ok(0x1122334455667788));
    assert_eq!(mem.bytes[0x100], 0x88);
    assert_eq!(mem.load8(0x107, &good), Ok(0x11));
    let invalid = Capability { valid: false, ..good };
    assert_eq!(mem.load64(0x100, &invalid), Err(Trap::CapViolation));
    let sealed = Capability { sealed: true, ..good };
    assert_eq!(mem.store64(0x100, 1, &sealed), Err(Trap::CapViolation));
    let read_only = Capability { perms: PERM_READ, ..good };
    assert_eq!(mem.store64(0x100, 1, &read_only), Err(Trap::CapViolation));
    assert_eq!(mem.fetch16(0x100, &good), Err(Trap::CapViolation));
    assert_eq!(mem.load64(0x109, &good), Err(Trap::OutOfBounds));
    assert_eq!(mem.load64(0x0ff, &good), Err(Trap::OutOfBounds));
    let huge = Capability { base: 0, length: u64::MAX, ..good };
    assert_eq!(mem.load64(0x1fc, &huge), Err(Trap::OutOfBounds));
    let code = Capability { perms: PERM_EXEC, ..good };
    mem.bytes[0x102] = 0x34;
    mem.bytes[0x103] = 0x12;
    assert_eq!(mem.fetch16(0x102, &code), Ok(0x1234));
}

#[test]
fn capability_helpers() {
    let c = Capability { base: u64::MAX, length: 10, offset: 3, perms: 0x85, valid: true, sealed: false };
    assert!(c.can_read());
    assert!(!c.can_write());
    assert!(c.can_exec());
    assert!(c.can_seal());
    assert_eq!(c.get_address(), 2);
    assert!(c.in_bounds(4, 6));
    assert!(!c.in_bounds(5, 6));
    assert!(!c.in_bounds(u64::MAX, 2));
    let n = Capability::null();
    assert_eq!(n, Capability { base: 0, length: 0, offset: 0, perms: 0, valid: false, sealed: false });
}

fn cpu_with(regs: &[(usize, u64)]) -> (CPU, Memory) {
    let mut cpu = CPU::new();
    for &(i, v) in regs {
        cpu.r[i] = v;
    }
    cpu.pc = 0x40;
    (cpu, Memory::new(0x100))
}

#[test]
fn non_branch_advances_pc_by_two() {
    let mut mem = Memory::new(0x100);
    let mut cpu = CPU::new();
    cpu.c[1] = Capability { base: 0, length: 0x100, offset: 0, perms: PERM_EXEC, valid: true, sealed: false };
    let w = encode(0x0, 3, 1, 2);
    mem.bytes[0x10] = (w & 0xff) as u8;
    mem.bytes[0x11] = (w >> 8) as u8;
    cpu.pc = 0x10;
    cpu.r[1] = u64::MAX;
    cpu.r[2] = 2;
    cpu.step(&mut mem);
    assert_eq!(cpu.pc, 0x12);
    assert_eq!(cpu.r[3], 1);
    assert!(cpu.trap.is_none());
}

#[test]
fn step_does_nothing_while_trapped_and_traps_on_bad_fetch() {
    let mut mem = Memory::new(0x100);
    let mut cpu = CPU::new();
    cpu.step(&mut mem);
    assert_eq!(cpu.trap, Some(Trap::CapViolation));
    assert!(cpu.is_trapped());
    cpu.pc = 0x20;
    cpu.step(&mut mem);
    assert_eq!(cpu.pc, 0x20);
    cpu.raise_trap(Trap::DivideByZero);
    assert_eq!(cpu.trap, Some(Trap::DivideByZero));
}

#[test]
fn branch_taken_iff_registers_equal() {
    let (mut cpu, mut mem) = cpu_with(&[(1, 5), (2, 5)]);
    execute(&mut cpu, &mut mem, encode(0x7, 2, 1, 3));
    assert_eq!(cpu.pc, 0x46);
    let (mut cpu, mut mem) = cpu_with(&[(1, 5), (2, 6)]);
    execute(&mut cpu, &mut mem, encode(0x7, 2, 1, 3));
    assert_eq!(cpu.pc, 0x40);
    let (mut cpu, mut mem) = cpu_with(&[(1, 0)]);
    execute(&mut cpu, &mut mem, encode(0x8, 0, 1, 0xE));
    assert_eq!(cpu.pc, 0x3C);
    let (mut cpu, mut mem) = cpu_with(&[(1, 1)]);
    execute(&mut cpu, &mut mem, encode(0x8, 0, 1, 0xE));
    assert_eq!(cpu.pc, 0x40);
}

#[test]
fn divide_by_zero_traps_and_keeps_destination() {
    let (mut cpu, mut mem) = cpu_with(&[(1, 10), (2, 0), (3, 77)]);
    execute(&mut cpu, &mut mem, encode(0x2, 3, 1, 2));
    assert_eq!(cpu.trap, Some(Trap::DivideByZero));
    assert_eq!(cpu.r[3], 77);
    let (mut cpu, mut mem) = cpu_with(&[(1, 10), (2, 3)]);
    execute(&mut cpu, &mut mem, encode(0x2, 3, 1, 2));
    assert_eq!(cpu.r[3], 3);
    assert!(cpu.trap.is_none());
}

#[test]
fn alu_wraps() {
    let (mut cpu, mut mem) = cpu_with(&[(1, 0), (2, 1)]);
    execute(&mut cpu, &mut mem, encode(0x3, 4, 1, 2));
    assert_eq!(cpu.r[4], u64::MAX);
    execute(&mut cpu, &mut mem, encode(0x1, 5, 1, 0x8));
    assert_eq!(cpu.r[5], (-8i64) as u64);
    cpu.r[6] = 1 << 63;
    execute(&mut cpu, &mut mem, encode(0x4, 7, 6, 6));
    assert_eq!(cpu.r[7], 0);
}

#[test]
fn jumps_calls_and_returns() {
    let (mut cpu, mut mem) = cpu_with(&[(3, 0x100)]);
    execute(&mut cpu, &mut mem, encode(0x9, 0, 0, 0xF));
    assert_eq!(cpu.pc, 0x3E);
    execute(&mut cpu, &mut mem, encode(0x9, 0, 3, 0x2));
    assert_eq!(cpu.pc, 0x102);
    execute(&mut cpu, &mut mem, encode(0xA, 0, 0, 0x2));
    assert_eq!(cpu.r[15], 0x102);
    assert_eq!(cpu.pc, 0x106);
    execute(&mut cpu, &mut mem, encode(0xA, 0, 3, 0x0));
    assert_eq!(cpu.r[15], 0x106);
    assert_eq!(cpu.pc, 0x100);
    execute(&mut cpu, &mut mem, encode(0xB, 0, 0, 0));
    assert_eq!(cpu.pc, 0x106);
    execute(&mut cpu, &mut mem, encode(0xC, 0, 3, 0));
    assert_eq!(cpu.trap, Some(Trap::Syscall(0x100)));
}

#[test]
fn store_then_load_through_data_capability() {
    let (mut cpu, mut mem) = cpu_with(&[(1, 0x80), (2, 0xDEADBEEF)]);
    cpu.c[2] = Capability { base: 0x80, length: 0x10, offset: 0, perms: PERM_READ | PERM_WRITE, valid: true, sealed: false };
    execute(&mut cpu, &mut mem, encode(0x6, 2, 1, 1));
    assert!(cpu.trap.is_none());
    assert_eq!(&mem.bytes[0x81..0x89], &0xDEADBEEFu64.to_le_bytes());
    execute(&mut cpu, &mut mem, encode(0x5, 4, 1, 1));
    assert_eq!(cpu.r[4], 0xDEADBEEF);
    execute(&mut cpu, &mut mem, encode(0x5, 4, 1, 0x7 + 2));
    assert_eq!(cpu.trap, Some(Trap::OutOfBounds));
}

#[test]
fn capability_register_operations() {
    let (mut cpu, mut mem) = cpu_with(&[]);
    cpu.c[3] = Capability { base: 0x10, length: 4, offset: 2, perms: PERM_READ, valid: true, sealed: false };
    execute(&mut cpu, &mut mem, encode(0xE, 4, 3, 0));
    assert_eq!(cpu.c[4], cpu.c[3]);
    execute(&mut cpu, &mut mem, encode(0xF, 5, 3, 2));
    assert_eq!(cpu.c[5].offset, 4);
    assert_eq!(cpu.c[5].base, 0x10);
    execute(&mut cpu, &mut mem, encode(0xF, 5, 3, 3));
    assert_eq!(cpu.trap, Some(Trap::OutOfBounds));
    cpu.trap = None;
    execute(&mut cpu, &mut mem, encode(0xF, 5, 3, 0xE));
    assert_eq!(cpu.c[5].offset, 0);
    execute(&mut cpu, &mut mem, encode(0xD, 4, 0, 0));
    assert_eq!(cpu.c[4], Capability::null());
    execute(&mut cpu, &mut mem, encode(0xF, 6, 4, 0));
    assert_eq!(cpu.trap, Some(Trap::CapViolation));
    cpu.trap = None;
    execute(&mut cpu, &mut mem, encode(0xD, 9, 0, 0));
    assert_eq!(cpu.trap, Some(Trap::IllegalInstruction));
}

#[test]
fn trap_names() {
    assert_eq!(trap_name(Trap::IllegalInstruction), "Illegal Instruction");
    assert_eq!(trap_name(Trap::CapViolation), "Capability Violation");
    assert_eq!(trap_name(Trap::OutOfBounds), "Out Of Bounds");
    assert_eq!(trap_name(Trap::DivideByZero), "Divide By Zero");
    assert_eq!(trap_name(Trap::Syscall(3)), "Syscall");
}

#[test]
fn cap_offset_checks_source_before_destination_index() {
    let (mut cpu, mut mem) = cpu_with(&[]);
    execute(&mut cpu, &mut mem, encode(0xF, 9, 3, 1));
    assert_eq!(cpu.trap, Some(Trap::CapViolation));
    cpu.trap = None;
    cpu.c[3] = Capability { base: 0, length: 2, offset: 2, perms: PERM_READ, valid: true, sealed: false };
    execute(&mut cpu, &mut mem, encode(0xF, 9, 3, 1));
    assert_eq!(cpu.trap, Some(Trap::OutOfBounds));
    cpu.trap = None;
    execute(&mut cpu, &mut mem, encode(0xF, 9, 3, 0));
    assert_eq!(cpu.trap, Some(Trap::IllegalInstruction));
    cpu.trap = None;
    execute(&mut cpu, &mut mem, encode(0xF, 4, 9, 0));
    assert_eq!(cpu.trap, Some(Trap::IllegalInstruction));
}
