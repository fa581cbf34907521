use vstd::prelude::*;

verus! {

/// Permission bit: loads through the capability are allowed.
pub const PERM_READ: u8 = 0x01;

/// Permission bit: stores through the capability are allowed.
pub const PERM_WRITE: u8 = 0x02;

/// Permission bit: instruction fetches through the capability are allowed.
pub const PERM_EXEC: u8 = 0x04;

/// Permission bit reserved for sealing; no instruction uses it yet.
pub const PERM_SEAL: u8 = 0x80;

/// A bounded, permissioned window onto memory.
#[derive(Clone, Copy, Debug, PartialEq, Eq, Structural)]
pub struct Capability {
    pub base: u64,
    pub length: u64,
    pub offset: u64,
    pub perms: u8,
    pub valid: bool,
    pub sealed: bool,
}

/// The capability that authorises nothing.
pub open spec fn null_cap() -> Capability {
    Capability { base: 0, length: 0, offset: 0, perms: 0, valid: false, sealed: false }
}

impl Capability {
    /// A capability may be dereferenced or re-offset only when it is valid and unsealed.
    pub open spec fn usable(self) -> bool {
        self.valid && !self.sealed
    }

    /// Whether `[off, off + size)` lies inside `[0, length)`, computed without overflow.
    pub open spec fn spec_in_bounds(self, off: u64, size: u64) -> bool {
        off as int + size as int <= self.length as int
    }

    pub fn null() -> (r: Capability)
        ensures
            r == null_cap(),
    {
        Capability { base: 0, length: 0, offset: 0, perms: 0, valid: false, sealed: false }
    }

    pub fn can_read(&self) -> (r: bool)
        ensures
            r == (self.perms & PERM_READ != 0),
    {
        self.perms & PERM_READ != 0
    }

    pub fn can_write(&self) -> (r: bool)
        ensures
            r == (self.perms & PERM_WRITE != 0),
    {
        self.perms & PERM_WRITE != 0
    }

    pub fn can_exec(&self) -> (r: bool)
        ensures
            r == (self.perms & PERM_EXEC != 0),
    {
        self.perms & PERM_EXEC != 0
    }

    pub fn can_seal(&self) -> (r: bool)
        ensures
            r == (self.perms & PERM_SEAL != 0),
    {
        self.perms & PERM_SEAL != 0
    }

    pub fn in_bounds(&self, off: u64, size: u64) -> (r: bool)
        ensures
            r == self.spec_in_bounds(off, size),
    {
        size <= self.length && off <= self.length - size
    }

    /// The effective address `base + offset`, wrapping at 2^64.
    pub fn get_address(&self) -> (r: u64)
        ensures
            r == self.base.wrapping_add(self.offset),
    {
        self.base.wrapping_add(self.offset)
    }
}

} // verus!
