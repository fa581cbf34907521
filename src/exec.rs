use vstd::prelude::*;

use crate::bytes::{le_u64_at, u64_le_bytes, write_at};
use crate::cap::{null_cap, Capability, PERM_READ, PERM_WRITE};
use crate::bytes::le_u16_at;
use crate::cpu::{same_state, steps, CPU};
use crate::isa::{decode, sign_extend4, spec_decode, Inst};
use crate::mem::{access_check, Memory};
use crate::trap::Trap;

verus! {

/// A decoded word: every field a nibble, and `imm` the low nibble sign-extended.
pub open spec fn wf_inst(i: Inst) -> bool {
    &&& i.opcode < 16
    &&& i.rd < 16
    &&& i.rs1 < 16
    &&& i.rs2 < 16
    &&& i.imm == sign_extend4(i.rs2)
}

/// Only general register `rd` changed, to `v`.
pub open spec fn sets_reg(c0: CPU, c1: CPU, rd: int, v: u64) -> bool {
    c1.r@ == c0.r@.update(rd, v) && c1.c@ == c0.c@ && c1.pc == c0.pc && c1.trap == c0.trap
}

/// Only capability register `cd` changed, to `cap`.
pub open spec fn sets_cap(c0: CPU, c1: CPU, cd: int, cap: Capability) -> bool {
    c1.r@ == c0.r@ && c1.c@ == c0.c@.update(cd, cap) && c1.pc == c0.pc && c1.trap == c0.trap
}

/// Only the program counter changed, to `target`.
pub open spec fn jumps_to(c0: CPU, c1: CPU, target: u64) -> bool {
    c1.r@ == c0.r@ && c1.c@ == c0.c@ && c1.pc == target && c1.trap == c0.trap
}

/// Nothing changed.
pub open spec fn unchanged(c0: CPU, c1: CPU) -> bool {
    same_state(c0, c1) && c1.trap == c0.trap
}

/// Only the pending trap changed, to `t`.
pub open spec fn traps_with(c0: CPU, c1: CPU, t: Trap) -> bool {
    same_state(c0, c1) && c1.trap == Some(t)
}

/// The target of a PC-relative transfer: `imm` instructions on from `pc`.
pub open spec fn rel_target(pc: u64, imm: i8) -> u64 {
    pc.wrapping_add_signed((imm as int * 2) as i64)
}

/// The effect of an instruction that touches no memory. The program counter in `c0` has
/// already moved past the instruction.
pub open spec fn reg_effect(c0: CPU, i: Inst, c1: CPU) -> bool {
    let a = c0.r@[i.rs1 as int];
    let b = c0.r@[i.rs2 as int];
    let rd = i.rd as int;
    if i.opcode == 0 {
        sets_reg(c0, c1, rd, a.wrapping_add(b))
    } else if i.opcode == 1 {
        sets_reg(c0, c1, rd, a.wrapping_add_signed(i.imm as i64))
    } else if i.opcode == 2 {
        if b == 0 {
            traps_with(c0, c1, Trap::DivideByZero)
        } else {
            sets_reg(c0, c1, rd, a / b)
        }
    } else if i.opcode == 3 {
        sets_reg(c0, c1, rd, a.wrapping_sub(b))
    } else if i.opcode == 4 {
        sets_reg(c0, c1, rd, a.wrapping_mul(b))
    } else if i.opcode == 7 {
        if a == c0.r@[rd] {
            jumps_to(c0, c1, rel_target(c0.pc, i.imm))
        } else {
            unchanged(c0, c1)
        }
    } else if i.opcode == 8 {
        if a == 0 {
            jumps_to(c0, c1, rel_target(c0.pc, i.imm))
        } else {
            unchanged(c0, c1)
        }
    } else if i.opcode == 9 {
        if i.rs1 == 0 {
            jumps_to(c0, c1, rel_target(c0.pc, i.imm))
        } else {
            jumps_to(c0, c1, a.wrapping_add_signed(i.imm as i64))
        }
    } else if i.opcode == 10 {
        let linked = c0.r@.update(15, c0.pc);
        &&& c1.r@ == linked
        &&& c1.c@ == c0.c@
        &&& c1.trap == c0.trap
        &&& c1.pc == if i.rs1 == 0 {
            rel_target(c0.pc, i.imm)
        } else {
            linked[i.rs1 as int].wrapping_add_signed(i.imm as i64)
        }
    } else if i.opcode == 11 {
        jumps_to(c0, c1, c0.r@[15])
    } else if i.opcode == 12 {
        traps_with(c0, c1, Trap::Syscall(a))
    } else if i.opcode == 13 {
        if i.rd >= 8 {
            traps_with(c0, c1, Trap::IllegalInstruction)
        } else {
            sets_cap(c0, c1, rd, null_cap())
        }
    } else if i.opcode == 14 {
        if i.rd >= 8 || i.rs1 >= 8 {
            traps_with(c0, c1, Trap::IllegalInstruction)
        } else {
            sets_cap(c0, c1, rd, c0.c@[i.rs1 as int])
        }
    } else if i.opcode == 15 {
        if i.rs1 >= 8 {
            traps_with(c0, c1, Trap::IllegalInstruction)
        } else {
            let src = c0.c@[i.rs1 as int];
            let new_offset = src.offset.wrapping_add_signed(i.imm as i64);
            if !src.usable() {
                traps_with(c0, c1, Trap::CapViolation)
            } else if !src.spec_in_bounds(new_offset, 0) {
                traps_with(c0, c1, Trap::OutOfBounds)
            } else if i.rd >= 8 {
                traps_with(c0, c1, Trap::IllegalInstruction)
            } else {
                sets_cap(c0, c1, rd, Capability { offset: new_offset, ..src })
            }
        }
    } else {
        traps_with(c0, c1, Trap::IllegalInstruction)
    }
}

/// The address that `ld` and `st` use: `R[rs1] + imm`.
pub open spec fn mem_addr(c0: CPU, i: Inst) -> u64 {
    c0.r@[i.rs1 as int].wrapping_add_signed(i.imm as i64)
}

/// The effect of instruction `i` on state `c0` and memory `m0`.
pub open spec fn effect(c0: CPU, m0: Seq<u8>, i: Inst, c1: CPU, m1: Seq<u8>) -> bool {
    let addr = mem_addr(c0, i);
    if i.opcode == 5 {
        m1 == m0 && match access_check(c0.c@[2], addr, 8, PERM_READ, m0.len()) {
            Err(t) => traps_with(c0, c1, t),
            Ok(_) => sets_reg(c0, c1, i.rd as int, le_u64_at(m0, addr as int)),
        }
    } else if i.opcode == 6 {
        match access_check(c0.c@[2], addr, 8, PERM_WRITE, m0.len()) {
            Err(t) => traps_with(c0, c1, t) && m1 == m0,
            Ok(_) => unchanged(c0, c1) && m1 == write_at(
                m0,
                addr as int,
                u64_le_bytes(c0.r@[i.rd as int]),
            ),
        }
    } else {
        m1 == m0 && reg_effect(c0, i, c1)
    }
}

/// Executing the word `raw` takes `(c0, m0)` to `(c1, m1)`.
pub open spec fn executes(c0: CPU, m0: Seq<u8>, raw: u16, c1: CPU, m1: Seq<u8>) -> bool {
    effect(c0, m0, spec_decode(raw), c1, m1)
}

/// Decodes `raw` and applies its effect; the program counter has already moved past it.
pub fn execute(cpu: &mut CPU, mem: &mut Memory, raw: u16)
    ensures
        executes(*old(cpu), old(mem).bytes@, raw, *final(cpu), final(mem).bytes@),
{
    let inst = decode(raw);
    match inst.opcode {
        0x0 => op_add(cpu, &inst),
        0x1 => op_addi(cpu, &inst),
        0x2 => op_div(cpu, &inst),
        0x3 => op_sub(cpu, &inst),
        0x4 => op_mul(cpu, &inst),
        0x5 => op_ld(cpu, mem, &inst),
        0x6 => op_st(cpu, mem, &inst),
        0x7 => op_br(cpu, &inst),
        0x8 => op_brz(cpu, &inst),
        0x9 => op_jmp(cpu, &inst),
        0xA => op_call(cpu, &inst),
        0xB => op_ret(cpu, &inst),
        0xC => op_syscall(cpu, &inst),
        0xD => cap_null(cpu, &inst),
        0xE => cap_copy(cpu, &inst),
        0xF => cap_offset(cpu, &inst),
        _ => cpu.raise_trap(Trap::IllegalInstruction),
    }
}

fn op_add(cpu: &mut CPU, i: &Inst)
    requires
        wf_inst(*i),
        i.opcode == 0,
    ensures
        reg_effect(*old(cpu), *i, *final(cpu)),
{
    cpu.r[i.rd as usize] = cpu.r[i.rs1 as usize].wrapping_add(cpu.r[i.rs2 as usize]);
}

fn op_addi(cpu: &mut CPU, i: &Inst)
    requires
        wf_inst(*i),
        i.opcode == 1,
    ensures
        reg_effect(*old(cpu), *i, *final(cpu)),
{
    cpu.r[i.rd as usize] = cpu.r[i.rs1 as usize].wrapping_add_signed(i.imm as i64);
}

fn op_div(cpu: &mut CPU, i: &Inst)
    requires
        wf_inst(*i),
        i.opcode == 2,
    ensures
        reg_effect(*old(cpu), *i, *final(cpu)),
        old(cpu).r@[i.rs2 as int] == 0 ==> final(cpu).trap == Some(Trap::DivideByZero)
            && final(cpu).r@ == old(cpu).r@ && final(cpu).c@ == old(cpu).c@ && final(cpu).pc
            == old(cpu).pc,
{
    let a = cpu.r[i.rs1 as usize];
    let b = cpu.r[i.rs2 as usize];
    if b == 0 {
        cpu.raise_trap(Trap::DivideByZero);
        return;
    }
    cpu.r[i.rd as usize] = a / b;
}

fn op_sub(cpu: &mut CPU, i: &Inst)
    requires
        wf_inst(*i),
        i.opcode == 3,
    ensures
        reg_effect(*old(cpu), *i, *final(cpu)),
{
    cpu.r[i.rd as usize] = cpu.r[i.rs1 as usize].wrapping_sub(cpu.r[i.rs2 as usize]);
}

fn op_mul(cpu: &mut CPU, i: &Inst)
    requires
        wf_inst(*i),
        i.opcode == 4,
    ensures
        reg_effect(*old(cpu), *i, *final(cpu)),
{
    cpu.r[i.rd as usize] = cpu.r[i.rs1 as usize].wrapping_mul(cpu.r[i.rs2 as usize]);
}

/// `ld rd, rs1, imm`: loads eight bytes through the data capability `c2`.
fn op_ld(cpu: &mut CPU, mem: &mut Memory, i: &Inst)
    requires
        wf_inst(*i),
        i.opcode == 5,
    ensures
        effect(*old(cpu), old(mem).bytes@, *i, *final(cpu), final(mem).bytes@),
{
    let addr = cpu.r[i.rs1 as usize].wrapping_add_signed(i.imm as i64);
    match mem.load64(addr, &cpu.c[2]) {
        Ok(v) => cpu.r[i.rd as usize] = v,
        Err(t) => cpu.raise_trap(t),
    }
}

/// `st rv, rs1, imm`: stores the register named in the `rd` field through `c2`; the low
/// nibble is the immediate.
fn op_st(cpu: &mut CPU, mem: &mut Memory, i: &Inst)
    requires
        wf_inst(*i),
        i.opcode == 6,
    ensures
        effect(*old(cpu), old(mem).bytes@, *i, *final(cpu), final(mem).bytes@),
{
    let addr = cpu.r[i.rs1 as usize].wrapping_add_signed(i.imm as i64);
    let val = cpu.r[i.rd as usize];
    if let Err(t) = mem.store64(addr, val, &cpu.c[2]) {
        cpu.raise_trap(t);
    }
}

/// `br rs1, rs2, off`: the second register is carried in the `rd` field, the offset in the
/// low nibble.
fn op_br(cpu: &mut CPU, i: &Inst)
    requires
        wf_inst(*i),
        i.opcode == 7,
    ensures
        reg_effect(*old(cpu), *i, *final(cpu)),
{
    if cpu.r[i.rs1 as usize] == cpu.r[i.rd as usize] {
        cpu.pc = cpu.pc.wrapping_add_signed(i.imm as i64 * 2);
    }
}

fn op_brz(cpu: &mut CPU, i: &Inst)
    requires
        wf_inst(*i),
        i.opcode == 8,
    ensures
        reg_effect(*old(cpu), *i, *final(cpu)),
{
    if cpu.r[i.rs1 as usize] == 0 {
        cpu.pc = cpu.pc.wrapping_add_signed(i.imm as i64 * 2);
    }
}

/// `jmp rs1, off`: PC-relative when `rs1` is 0, else to `R[rs1] + off`.
fn op_jmp(cpu: &mut CPU, i: &Inst)
    requires
        wf_inst(*i),
        i.opcode == 9,
    ensures
        reg_effect(*old(cpu), *i, *final(cpu)),
{
    if i.rs1 == 0 {
        cpu.pc = cpu.pc.wrapping_add_signed(i.imm as i64 * 2);
    } else {
        cpu.pc = cpu.r[i.rs1 as usize].wrapping_add_signed(i.imm as i64);
    }
}

/// `call rs1, off`: links the return address in `r15`, then transfers as `jmp` does.
fn op_call(cpu: &mut CPU, i: &Inst)
    requires
        wf_inst(*i),
        i.opcode == 10,
    ensures
        reg_effect(*old(cpu), *i, *final(cpu)),
{
    cpu.r[15] = cpu.pc;
    if i.rs1 == 0 {
        cpu.pc = cpu.pc.wrapping_add_signed(i.imm as i64 * 2);
    } else {
        cpu.pc = cpu.r[i.rs1 as usize].wrapping_add_signed(i.imm as i64);
    }
}

fn op_ret(cpu: &mut CPU, i: &Inst)
    requires
        wf_inst(*i),
        i.opcode == 11,
    ensures
        reg_effect(*old(cpu), *i, *final(cpu)),
{
    cpu.pc = cpu.r[15];
}

fn op_syscall(cpu: &mut CPU, i: &Inst)
    requires
        wf_inst(*i),
        i.opcode == 12,
    ensures
        reg_effect(*old(cpu), *i, *final(cpu)),
{
    let n = cpu.r[i.rs1 as usize];
    cpu.raise_trap(Trap::Syscall(n));
}

fn cap_null(cpu: &mut CPU, i: &Inst)
    requires
        wf_inst(*i),
        i.opcode == 13,
    ensures
        reg_effect(*old(cpu), *i, *final(cpu)),
{
    if i.rd >= 8 {
        cpu.raise_trap(Trap::IllegalInstruction);
        return;
    }
    cpu.c[i.rd as usize] = Capability::null();
}

fn cap_copy(cpu: &mut CPU, i: &Inst)
    requires
        wf_inst(*i),
        i.opcode == 14,
    ensures
        reg_effect(*old(cpu), *i, *final(cpu)),
{
    if i.rd >= 8 || i.rs1 >= 8 {
        cpu.raise_trap(Trap::IllegalInstruction);
        return;
    }
    cpu.c[i.rd as usize] = cpu.c[i.rs1 as usize];
}

/// `cap.offset rd, rs1, imm`: a copy of `C[rs1]` with its offset moved by `imm`, kept
/// within the capability's length. The source is checked (usable, then in bounds) before
/// the destination index.
fn cap_offset(cpu: &mut CPU, i: &Inst)
    requires
        wf_inst(*i),
        i.opcode == 15,
    ensures
        reg_effect(*old(cpu), *i, *final(cpu)),
{
    if i.rs1 >= 8 {
        cpu.raise_trap(Trap::IllegalInstruction);
        return;
    }
    let src = cpu.c[i.rs1 as usize];
    if !src.valid || src.sealed {
        cpu.raise_trap(Trap::CapViolation);
        return;
    }
    let new_offset = src.offset.wrapping_add_signed(i.imm as i64);
    if !src.in_bounds(new_offset, 0) {
        cpu.raise_trap(Trap::OutOfBounds);
        return;
    }
    if i.rd >= 8 {
        cpu.raise_trap(Trap::IllegalInstruction);
        return;
    }
    cpu.c[i.rd as usize] = Capability { offset: new_offset, ..src };
}

} // verus!

verus! {

/// An instruction that neither branches, jumps, calls nor returns, and that does not trap,
/// leaves the program counter just past itself.
pub proof fn lemma_pc_advances(c0: CPU, m0: Seq<u8>, c1: CPU, m1: Seq<u8>)
    requires
        steps(c0, m0, c1, m1),
        c0.trap is None,
        c1.trap is None,
        !(7 <= spec_decode(le_u16_at(m0, c0.pc as int)).opcode <= 11),
    ensures
        c1.pc == c0.pc.wrapping_add(2),
{
    let raw = le_u16_at(m0, c0.pc as int);
    lemma_decoded_wf(raw);
}

/// `br` is taken exactly when its two registers hold equal values, and `brz` exactly when
/// its register holds zero; a branch not taken leaves the program counter where it was.
pub proof fn lemma_branch_taken(c0: CPU, m0: Seq<u8>, raw: u16, c1: CPU, m1: Seq<u8>)
    requires
        executes(c0, m0, raw, c1, m1),
    ensures
        ({
            let i = spec_decode(raw);
            &&& i.opcode == 7 ==> c1.pc == if c0.r@[i.rs1 as int] == c0.r@[i.rd as int] {
                rel_target(c0.pc, i.imm)
            } else {
                c0.pc
            }
            &&& i.opcode == 8 ==> c1.pc == if c0.r@[i.rs1 as int] == 0 {
                rel_target(c0.pc, i.imm)
            } else {
                c0.pc
            }
        }),
{
}

/// `div` by a zero register traps with `DivideByZero` and leaves every register as it was.
pub proof fn lemma_div_by_zero(c0: CPU, m0: Seq<u8>, raw: u16, c1: CPU, m1: Seq<u8>)
    requires
        executes(c0, m0, raw, c1, m1),
        spec_decode(raw).opcode == 2,
        c0.r@[spec_decode(raw).rs2 as int] == 0,
    ensures
        c1.trap == Some(Trap::DivideByZero),
        c1.r@ == c0.r@,
        m1 == m0,
{
}

/// Every field of a decoded word is a nibble.
pub proof fn lemma_decoded_wf(raw: u16)
    ensures
        wf_inst(spec_decode(raw)),
{
    assert(((raw >> 12u16) & 0xf) < 16 && ((raw >> 8u16) & 0xf) < 16 && ((raw >> 4u16) & 0xf) < 16
        && (raw & 0xf) < 16) by (bit_vector);
}

} // verus!
