use vstd::prelude::*;

use crate::bytes::{byte_of, le_u16_at, le_u64_at, u64_le_bytes, write_at};
use crate::cap::{Capability, PERM_EXEC, PERM_READ, PERM_WRITE};
use crate::trap::Trap;

verus! {

/// The outcome of checking an access of `size` bytes at `addr`, needing permission bit `perm`,
/// through `cap`, against a backing store of `mem_len` bytes.
pub open spec fn access_check(cap: Capability, addr: u64, size: u64, perm: u8, mem_len: nat) -> Result<
    (),
    Trap,
> {
    if !cap.usable() {
        Err(Trap::CapViolation)
    } else if cap.perms & perm == 0 {
        Err(Trap::CapViolation)
    } else if !cap.spec_in_bounds(addr.wrapping_sub(cap.base), size) {
        Err(Trap::OutOfBounds)
    } else if addr as int + size as int > mem_len {
        Err(Trap::OutOfBounds)
    } else {
        Ok(())
    }
}

/// The flat byte store behind every capability.
pub struct Memory {
    pub bytes: Vec<u8>,
}

impl Memory {
    pub fn new(size: usize) -> (r: Memory)
        ensures
            r.bytes@ == Seq::new(size as nat, |i: int| 0u8),
    {
        let mut bytes: Vec<u8> = Vec::with_capacity(size);
        let mut i: usize = 0;
        while i < size
            invariant
                i <= size,
                bytes@ == Seq::new(i as nat, |j: int| 0u8),
            decreases size - i,
        {
            bytes.push(0u8);
            assert(bytes@ =~= Seq::new((i + 1) as nat, |j: int| 0u8));
            i = i + 1;
        }
        Memory { bytes }
    }

    pub fn load8(&self, addr: u64, cap: &Capability) -> (r: Result<u8, Trap>)
        ensures
            access_check(*cap, addr, 1, PERM_READ, self.bytes@.len()) is Err ==> r == Err::<
                u8,
                Trap,
            >(access_check(*cap, addr, 1, PERM_READ, self.bytes@.len())->Err_0),
            access_check(*cap, addr, 1, PERM_READ, self.bytes@.len()) is Ok ==> r == Ok::<
                u8,
                Trap,
            >(self.bytes@[addr as int]),
    {
        match self.check_read(addr, 1, cap) {
            Err(t) => Err(t),
            Ok(()) => {
                let n = self.bytes.len();
                assert(addr < n);
                Ok(self.bytes[addr as usize])
            },
        }
    }

    pub fn load64(&self, addr: u64, cap: &Capability) -> (r: Result<u64, Trap>)
        ensures
            access_check(*cap, addr, 8, PERM_READ, self.bytes@.len()) is Err ==> r == Err::<
                u64,
                Trap,
            >(access_check(*cap, addr, 8, PERM_READ, self.bytes@.len())->Err_0),
            access_check(*cap, addr, 8, PERM_READ, self.bytes@.len()) is Ok ==> r == Ok::<
                u64,
                Trap,
            >(le_u64_at(self.bytes@, addr as int)),
    {
        match self.check_read(addr, 8, cap) {
            Err(t) => Err(t),
            Ok(()) => {
                let n = self.bytes.len();
                assert(addr + 8 <= n);
                Ok(crate::bytes::read_u64_le(self.bytes.as_slice(), addr as usize))
            },
        }
    }

    pub fn store64(&mut self, addr: u64, val: u64, cap: &Capability) -> (r: Result<(), Trap>)
        ensures
            r == access_check(*cap, addr, 8, PERM_WRITE, old(self).bytes@.len()),
            r is Err ==> final(self).bytes@ == old(self).bytes@,
            r is Ok ==> final(self).bytes@ == write_at(
                old(self).bytes@,
                addr as int,
                u64_le_bytes(val),
            ),
    {
        match self.check_write(addr, 8, cap) {
            Err(t) => Err(t),
            Ok(()) => {
                let n = self.bytes.len();
                assert(addr + 8 <= n);
                let start = addr as usize;
                let ghost before = self.bytes@;
                let mut i: usize = 0;
                while i < 8
                    invariant
                        i <= 8,
                        start + 8 <= n,
                        n == before.len(),
                        self.bytes@ == write_at(
                            before,
                            start as int,
                            u64_le_bytes(val).subrange(0, i as int),
                        ),
                    decreases 8 - i,
                {
                    let b = #[verifier::truncate] (((val >> (8 * i as u64)) & 0xff) as u8);
                    self.bytes.set(start + i, b);
                    assert(self.bytes@ =~= write_at(
                        before,
                        start as int,
                        u64_le_bytes(val).subrange(0, i + 1),
                    ));
                    i = i + 1;
                }
                assert(u64_le_bytes(val).subrange(0, 8) =~= u64_le_bytes(val));
                Ok(())
            },
        }
    }

    pub fn fetch16(&self, pc: u64, cap: &Capability) -> (r: Result<u16, Trap>)
        ensures
            access_check(*cap, pc, 2, PERM_EXEC, self.bytes@.len()) is Err ==> r == Err::<
                u16,
                Trap,
            >(access_check(*cap, pc, 2, PERM_EXEC, self.bytes@.len())->Err_0),
            access_check(*cap, pc, 2, PERM_EXEC, self.bytes@.len()) is Ok ==> r == Ok::<
                u16,
                Trap,
            >(le_u16_at(self.bytes@, pc as int)),
    {
        match self.check_exec(pc, 2, cap) {
            Err(t) => Err(t),
            Ok(()) => {
                assert(pc + 2 <= self.bytes@.len());
                let n = self.bytes.len();
                assert(pc < n);
                let at = pc as usize;
                Ok((self.bytes[at] as u16) | ((self.bytes[at + 1] as u16) << 8u16))
            },
        }
    }

    fn check_read(&self, addr: u64, size: u64, cap: &Capability) -> (r: Result<(), Trap>)
        ensures
            r == access_check(*cap, addr, size, PERM_READ, self.bytes@.len()),
    {
        if !cap.valid || cap.sealed {
            return Err(Trap::CapViolation);
        }
        if !cap.can_read() {
            return Err(Trap::CapViolation);
        }
        self.check_bounds(addr, size, cap)
    }

    fn check_write(&self, addr: u64, size: u64, cap: &Capability) -> (r: Result<(), Trap>)
        ensures
            r == access_check(*cap, addr, size, PERM_WRITE, self.bytes@.len()),
    {
        if !cap.valid || cap.sealed {
            return Err(Trap::CapViolation);
        }
        if !cap.can_write() {
            return Err(Trap::CapViolation);
        }
        self.check_bounds(addr, size, cap)
    }

    fn check_exec(&self, addr: u64, size: u64, cap: &Capability) -> (r: Result<(), Trap>)
        ensures
            r == access_check(*cap, addr, size, PERM_EXEC, self.bytes@.len()),
    {
        if !cap.valid || cap.sealed {
            return Err(Trap::CapViolation);
        }
        if !cap.can_exec() {
            return Err(Trap::CapViolation);
        }
        self.check_bounds(addr, size, cap)
    }

    /// Checks the capability's window and then the backing store's size.
    fn check_bounds(&self, addr: u64, size: u64, cap: &Capability) -> (r: Result<(), Trap>)
        requires
            cap.usable(),
        ensures
            r == (if !cap.spec_in_bounds(addr.wrapping_sub(cap.base), size) {
                Err(Trap::OutOfBounds)
            } else if addr as int + size as int > self.bytes@.len() {
                Err(Trap::OutOfBounds)
            } else {
                Ok(())
            }),
    {
        let off = addr.wrapping_sub(cap.base);
        if !cap.in_bounds(off, size) {
            return Err(Trap::OutOfBounds);
        }
        match addr.checked_add(size) {
            None => {
                let len = self.bytes.len() as u64;
                assert(len as int == self.bytes@.len());
                Err(Trap::OutOfBounds)
            },
            Some(end) => {
                if end > self.bytes.len() as u64 {
                    Err(Trap::OutOfBounds)
                } else {
                    Ok(())
                }
            },
        }
    }
}

} // verus!

verus! {

/// No access succeeds through a capability that is invalid or sealed, that lacks the
/// permission bit the access needs, or whose window does not hold all `size` bytes.
pub proof fn lemma_capability_safety(cap: Capability, addr: u64, size: u64, perm: u8, mem_len: nat)
    requires
        !cap.valid || cap.sealed || cap.perms & perm == 0 || addr.wrapping_sub(cap.base) as int
            + size as int > cap.length as int,
    ensures
        access_check(cap, addr, size, perm, mem_len) is Err,
{
}

} // verus!
