use vstd::prelude::*;

verus! {

/// A synchronous fault, or a request for a host service.
#[derive(Clone, Copy, Debug, PartialEq, Eq, Structural)]
pub enum Trap {
    IllegalInstruction,
    CapViolation,
    OutOfBounds,
    DivideByZero,
    Syscall(u64),
}

/// The diagnostic name printed when a trap ends a run.
pub open spec fn spec_trap_name(t: Trap) -> Seq<char> {
    match t {
        Trap::IllegalInstruction => "Illegal Instruction"@,
        Trap::CapViolation => "Capability Violation"@,
        Trap::OutOfBounds => "Out Of Bounds"@,
        Trap::DivideByZero => "Divide By Zero"@,
        Trap::Syscall(_) => "Syscall"@,
    }
}

pub fn trap_name(t: Trap) -> (r: &'static str)
    ensures
        r@ == spec_trap_name(t),
{
    match t {
        Trap::IllegalInstruction => "Illegal Instruction",
        Trap::CapViolation => "Capability Violation",
        Trap::OutOfBounds => "Out Of Bounds",
        Trap::DivideByZero => "Divide By Zero",
        Trap::Syscall(_) => "Syscall",
    }
}

} // verus!
