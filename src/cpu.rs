use vstd::prelude::*;

use crate::bytes::le_u16_at;
use crate::cap::{null_cap, Capability, PERM_EXEC};
use crate::exec::{execute, executes};
use crate::mem::{access_check, Memory};
use crate::trap::Trap;

verus! {

/// Architectural state: sixteen general registers, eight capability registers,
/// the program counter and at most one pending trap.
pub struct CPU {
    pub r: [u64; 16],
    pub c: [Capability; 8],
    pub pc: u64,
    pub trap: Option<Trap>,
}

/// `c1` is `c0` with the program counter moved on by one instruction.
pub open spec fn advanced(c0: CPU) -> CPU {
    CPU { pc: c0.pc.wrapping_add(2), ..c0 }
}

/// `c1` has the same registers, capabilities and program counter as `c0`.
pub open spec fn same_state(c0: CPU, c1: CPU) -> bool {
    c1.r@ == c0.r@ && c1.c@ == c0.c@ && c1.pc == c0.pc
}

/// One step from `(c0, m0)` to `(c1, m1)`: nothing while a trap is pending; otherwise fetch
/// through `c1` at the program counter, trap if the fetch fails, else advance the program
/// counter by 2 and execute the fetched word.
pub open spec fn steps(c0: CPU, m0: Seq<u8>, c1: CPU, m1: Seq<u8>) -> bool {
    if c0.trap is Some {
        same_state(c0, c1) && c1.trap == c0.trap && m1 == m0
    } else {
        match access_check(c0.c@[1], c0.pc, 2, PERM_EXEC, m0.len()) {
            Err(t) => same_state(c0, c1) && c1.trap == Some(t) && m1 == m0,
            Ok(_) => executes(advanced(c0), m0, le_u16_at(m0, c0.pc as int), c1, m1),
        }
    }
}

impl CPU {
    pub fn new() -> (r: CPU)
        ensures
            r.r@ == Seq::new(16, |i: int| 0u64),
            r.c@ == Seq::new(8, |i: int| null_cap()),
            r.pc == 0,
            r.trap is None,
    {
        let r = CPU { r: [0u64; 16], c: [Capability::null(); 8], pc: 0, trap: None };
        assert(r.r@ =~= Seq::new(16, |i: int| 0u64));
        assert(r.c@ =~= Seq::new(8, |i: int| null_cap()));
        r
    }

    pub fn raise_trap(&mut self, t: Trap)
        ensures
            same_state(*old(self), *final(self)),
            final(self).trap == Some(t),
    {
        self.trap = Some(t);
    }

    pub fn is_trapped(&self) -> (r: bool)
        ensures
            r == self.trap is Some,
    {
        self.trap.is_some()
    }

    pub fn step(&mut self, mem: &mut Memory)
        ensures
            steps(*old(self), old(mem).bytes@, *final(self), final(mem).bytes@),
    {
        if self.is_trapped() {
            return;
        }
        let word = match mem.fetch16(self.pc, &self.c[1]) {
            Ok(v) => v,
            Err(t) => {
                self.raise_trap(t);
                return;
            },
        };
        self.pc = self.pc.wrapping_add(2);
        execute(self, mem, word);
    }
}

} // verus!
