use vstd::prelude::*;

use crate::cap::{Capability, PERM_READ};
use crate::cpu::{same_state, CPU};
use crate::mem::{access_check, Memory};
use crate::trap::Trap;

verus! {

/// Syscall number: end the program with exit code `r1`.
pub const SYS_EXIT: u64 = 0;

/// Syscall number: print `r1` in decimal.
pub const SYS_PRINT_INT: u64 = 1;

/// Syscall number: print the NUL-terminated string at address `r1`.
pub const SYS_PRINT_STR: u64 = 2;

/// What the host must do for a syscall.
#[derive(Debug)]
pub enum HostAction {
    /// Report the exit code and stop.
    Exit(u64),
    /// Print the number and a newline.
    PrintInt(u64),
    /// Print the bytes; then a newline if the string ended in NUL, else nothing (a trap
    /// was raised on the way).
    PrintStr { bytes: Vec<u8>, complete: bool },
    /// Report an unknown syscall number and carry on.
    Unknown(u64),
}

/// Reading bytes one at a time through `cap` from `p` up to a NUL: the bytes before it, and
/// the trap that stopped the reading early, if one did.
pub open spec fn cstr_read(cap: Capability, m: Seq<u8>, p: u64) -> (Seq<u8>, Option<Trap>)
    decreases u64::MAX - p,
{
    match access_check(cap, p, 1, PERM_READ, m.len()) {
        Err(t) => (Seq::empty(), Some(t)),
        Ok(_) => if m[p as int] == 0 || p == u64::MAX {
            (Seq::empty(), None)
        } else {
            let rest = cstr_read(cap, m, (p + 1) as u64);
            (seq![m[p as int]] + rest.0, rest.1)
        },
    }
}

/// Reads the NUL-terminated string at `addr` through `cap`.
pub fn read_cstr(mem: &Memory, addr: u64, cap: &Capability) -> (r: (Vec<u8>, Option<Trap>))
    ensures
        r.0@ == cstr_read(*cap, mem.bytes@, addr).0,
        r.1 == cstr_read(*cap, mem.bytes@, addr).1,
{
    let mut out: Vec<u8> = Vec::new();
    let mut p = addr;
    loop
        invariant
            out@ + cstr_read(*cap, mem.bytes@, p).0 == cstr_read(*cap, mem.bytes@, addr).0,
            cstr_read(*cap, mem.bytes@, p).1 == cstr_read(*cap, mem.bytes@, addr).1,
        decreases u64::MAX - p,
    {
        let ghost rest = cstr_read(*cap, mem.bytes@, p);
        match mem.load8(p, cap) {
            Err(t) => {
                assert(out@ + Seq::<u8>::empty() =~= out@);
                return (out, Some(t));
            },
            Ok(b) => {
                if b == 0 || p == u64::MAX {
                    assert(out@ + Seq::<u8>::empty() =~= out@);
                    return (out, None);
                }
                let ghost before = out@;
                out.push(b);
                assert(out@ + cstr_read(*cap, mem.bytes@, (p + 1) as u64).0 =~= before + rest.0);
                p = p + 1;
            },
        }
    }
}

/// The host's side of syscall `n`. Only a fault while reading a string changes the CPU: it
/// raises that fault as a trap.
pub fn handle_syscall(cpu: &mut CPU, mem: &Memory, n: u64) -> (r: HostAction)
    ensures
        n == SYS_EXIT ==> r == HostAction::Exit(old(cpu).r@[1]) && *final(cpu) == *old(cpu),
        n == SYS_PRINT_INT ==> r == HostAction::PrintInt(old(cpu).r@[1]) && *final(cpu) == *old(
            cpu,
        ),
        n == SYS_PRINT_STR ==> ({
            let (s, t) = cstr_read(old(cpu).c@[2], mem.bytes@, old(cpu).r@[1]);
            &&& r matches HostAction::PrintStr { bytes, complete } && bytes@ == s && complete == (
            t is None)
            &&& same_state(*old(cpu), *final(cpu))
            &&& final(cpu).trap == if t is Some {
                t
            } else {
                old(cpu).trap
            }
        }),
        n > SYS_PRINT_STR ==> r == HostAction::Unknown(n) && *final(cpu) == *old(cpu),
{
    if n == SYS_EXIT {
        HostAction::Exit(cpu.r[1])
    } else if n == SYS_PRINT_INT {
        HostAction::PrintInt(cpu.r[1])
    } else if n == SYS_PRINT_STR {
        let (bytes, fault) = read_cstr(mem, cpu.r[1], &cpu.c[2]);
        match fault {
            Some(t) => {
                cpu.raise_trap(t);
                HostAction::PrintStr { bytes, complete: false }
            },
            None => HostAction::PrintStr { bytes, complete: true },
        }
    } else {
        HostAction::Unknown(n)
    }
}

} // verus!
