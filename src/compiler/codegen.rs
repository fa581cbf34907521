use vstd::prelude::*;

use crate::compiler::ast::CompileError;
use crate::compiler::ir::{IRFunction, IRInst, IRInstV, IRProgram, irs_view};
use crate::compiler::regalloc::{
    allocate_registers, alloc_view, find_reg, lemma_alloc_valid, lemma_lookup_valid, lookup,
    regs_valid, spec_allocate,
};
use crate::isa::{encode, nibble_of, spec_encode};

verus! {

/// The word for `op rd, rs1, rs2` with registers looked up in `m`.
pub open spec fn gen_rrr(
    m: Seq<(Seq<char>, u8)>,
    op: u8,
    d: Seq<char>,
    a: Seq<char>,
    b: Seq<char>,
) -> Result<Seq<u16>, CompileError> {
    match (lookup(m, d), lookup(m, a), lookup(m, b)) {
        (Some(rd), Some(rs1), Some(rs2)) => Ok(seq![spec_encode(op, rd, rs1, rs2)]),
        _ => Err(CompileError::Unallocated),
    }
}

/// The words for one operation, with registers assigned by `m`. A constant becomes
/// `addi rd, r0, v`; a return moves its value to `r1` unless it is there, then makes the
/// exit syscall through `r0`.
pub open spec fn gen_inst(i: IRInstV, m: Seq<(Seq<char>, u8)>) -> Result<Seq<u16>, CompileError> {
    match i {
        IRInstV::LoadImm(d, v) => match lookup(m, d) {
            None => Err(CompileError::Unallocated),
            Some(rd) => if -8 <= v <= 7 {
                Ok(seq![spec_encode(0x1, rd, 0, nibble_of(v as int))])
            } else {
                Err(CompileError::ImmediateOutOfRange)
            },
        },
        IRInstV::Add(d, a, b) => gen_rrr(m, 0x0, d, a, b),
        IRInstV::Sub(d, a, b) => gen_rrr(m, 0x3, d, a, b),
        IRInstV::Mul(d, a, b) => gen_rrr(m, 0x4, d, a, b),
        IRInstV::Div(d, a, b) => gen_rrr(m, 0x2, d, a, b),
        IRInstV::Ret(v) => match lookup(m, v) {
            None => Err(CompileError::Unallocated),
            Some(rs) => if rs != 1 {
                Ok(seq![spec_encode(0x1, 1, rs, 0), spec_encode(0xC, 0, 0, 0)])
            } else {
                Ok(seq![spec_encode(0xC, 0, 0, 0)])
            },
        },
    }
}

/// The words for the operations from `k` on, after the words `acc`.
pub open spec fn gen_from(
    instrs: Seq<IRInstV>,
    k: int,
    m: Seq<(Seq<char>, u8)>,
    acc: Seq<u16>,
) -> Result<Seq<u16>, CompileError>
    decreases instrs.len() - k,
{
    if k < 0 || k >= instrs.len() {
        Ok(acc)
    } else {
        match gen_inst(instrs[k], m) {
            Ok(w) => gen_from(instrs, k + 1, m, acc + w),
            Err(e) => Err(e),
        }
    }
}

/// The words for one function's operations.
pub open spec fn gen_function(instrs: Seq<IRInstV>) -> Result<Seq<u16>, CompileError> {
    match spec_allocate(instrs) {
        None => Err(CompileError::TooManyTemporaries),
        Some(m) => gen_from(instrs, 0, m, Seq::empty()),
    }
}

/// The words for functions `k` on, after the words `acc`.
pub open spec fn gen_functions(fs: Seq<Seq<IRInstV>>, k: int, acc: Seq<u16>) -> Result<
    Seq<u16>,
    CompileError,
>
    decreases fs.len() - k,
{
    if k < 0 || k >= fs.len() {
        Ok(acc)
    } else {
        match gen_function(fs[k]) {
            Ok(w) => gen_functions(fs, k + 1, acc + w),
            Err(e) => Err(e),
        }
    }
}

pub open spec fn program_view(p: IRProgram) -> Seq<Seq<IRInstV>> {
    p.functions@.map_values(|f: IRFunction| irs_view(f.instrs@))
}

fn encode_add(rd: u8, rs1: u8, rs2: u8) -> (r: u16)
    requires
        rd < 16 && rs1 < 16 && rs2 < 16,
    ensures
        r == spec_encode(0x0, rd, rs1, rs2),
{
    encode(0x0, rd, rs1, rs2)
}

fn encode_sub(rd: u8, rs1: u8, rs2: u8) -> (r: u16)
    requires
        rd < 16 && rs1 < 16 && rs2 < 16,
    ensures
        r == spec_encode(0x3, rd, rs1, rs2),
{
    encode(0x3, rd, rs1, rs2)
}

fn encode_mul(rd: u8, rs1: u8, rs2: u8) -> (r: u16)
    requires
        rd < 16 && rs1 < 16 && rs2 < 16,
    ensures
        r == spec_encode(0x4, rd, rs1, rs2),
{
    encode(0x4, rd, rs1, rs2)
}

fn encode_div(rd: u8, rs1: u8, rs2: u8) -> (r: u16)
    requires
        rd < 16 && rs1 < 16 && rs2 < 16,
    ensures
        r == spec_encode(0x2, rd, rs1, rs2),
{
    encode(0x2, rd, rs1, rs2)
}

fn encode_addi(rd: u8, rs1: u8, imm: i8) -> (r: u16)
    requires
        rd < 16 && rs1 < 16,
        -8 <= imm <= 7,
    ensures
        r == spec_encode(0x1, rd, rs1, nibble_of(imm as int)),
{
    let low: u8 = if imm >= 0 {
        imm as u8
    } else {
        (imm + 16) as u8
    };
    encode(0x1, rd, rs1, low)
}

/// `syscall` through register `n`.
fn encode_syscall(n: u8) -> (r: u16)
    requires
        n < 16,
    ensures
        r == spec_encode(0xC, 0, n, 0),
{
    encode(0xC, 0, n, 0)
}

/// Looks up the three registers of a three-address operation.
fn regs3(alloc: &Vec<(String, u8)>, d: &String, a: &String, b: &String) -> (r: Result<
    (u8, u8, u8),
    CompileError,
>)
    requires
        regs_valid(alloc_view(alloc@)),
    ensures
        match (
            lookup(alloc_view(alloc@), d@),
            lookup(alloc_view(alloc@), a@),
            lookup(alloc_view(alloc@), b@),
        ) {
            (Some(x), Some(y), Some(z)) => r == Ok::<(u8, u8, u8), CompileError>((x, y, z)) && x
                < 16 && y < 16 && z < 16,
            _ => r == Err::<(u8, u8, u8), CompileError>(CompileError::Unallocated),
        },
{
    proof {
        lemma_lookup_valid(alloc_view(alloc@), d@);
        lemma_lookup_valid(alloc_view(alloc@), a@);
        lemma_lookup_valid(alloc_view(alloc@), b@);
    }
    match (find_reg(alloc, d), find_reg(alloc, a), find_reg(alloc, b)) {
        (Some(x), Some(y), Some(z)) => Ok((x, y, z)),
        _ => Err(CompileError::Unallocated),
    }
}

/// Appends the words for one operation.
fn gen_one(i: &IRInst, alloc: &Vec<(String, u8)>, code: &mut Vec<u16>) -> (r: Result<
    (),
    CompileError,
>)
    requires
        regs_valid(alloc_view(alloc@)),
    ensures
        match gen_inst(i@, alloc_view(alloc@)) {
            Ok(w) => r is Ok && final(code)@ == old(code)@ + w,
            Err(e) => r == Err::<(), CompileError>(e),
        },
{
    let ghost m = alloc_view(alloc@);
    let ghost before = code@;
    match i {
        IRInst::LoadImm(d, v) => {
            proof {
                lemma_lookup_valid(m, d@);
            }
            let rd = match find_reg(alloc, d) {
                Some(x) => x,
                None => {
                    return Err(CompileError::Unallocated);
                },
            };
            if *v < -8 || *v > 7 {
                return Err(CompileError::ImmediateOutOfRange);
            }
            code.push(encode_addi(rd, 0, *v as i8));
            assert(code@ =~= before + seq![spec_encode(0x1, rd, 0, nibble_of(*v as int))]);
        },
        IRInst::Add(d, a, b) => {
            let (x, y, z) = regs3(alloc, d, a, b)?;
            code.push(encode_add(x, y, z));
            assert(code@ =~= before + seq![spec_encode(0x0, x, y, z)]);
        },
        IRInst::Sub(d, a, b) => {
            let (x, y, z) = regs3(alloc, d, a, b)?;
            code.push(encode_sub(x, y, z));
            assert(code@ =~= before + seq![spec_encode(0x3, x, y, z)]);
        },
        IRInst::Mul(d, a, b) => {
            let (x, y, z) = regs3(alloc, d, a, b)?;
            code.push(encode_mul(x, y, z));
            assert(code@ =~= before + seq![spec_encode(0x4, x, y, z)]);
        },
        IRInst::Div(d, a, b) => {
            let (x, y, z) = regs3(alloc, d, a, b)?;
            code.push(encode_div(x, y, z));
            assert(code@ =~= before + seq![spec_encode(0x2, x, y, z)]);
        },
        IRInst::Ret(v) => {
            proof {
                lemma_lookup_valid(m, v@);
            }
            let rs = match find_reg(alloc, v) {
                Some(x) => x,
                None => {
                    return Err(CompileError::Unallocated);
                },
            };
            if rs != 1 {
                code.push(encode_addi(1, rs, 0));
                code.push(encode_syscall(0));
                assert(code@ =~= before + seq![spec_encode(0x1, 1, rs, 0), spec_encode(0xC, 0, 0, 0)]);
            } else {
                code.push(encode_syscall(0));
                assert(code@ =~= before + seq![spec_encode(0xC, 0, 0, 0)]);
            }
        },
    }
    Ok(())
}

/// Appends the words for one function.
fn gen_body(func: &IRFunction, code: &mut Vec<u16>) -> (r: Result<(), CompileError>)
    ensures
        match gen_function(irs_view(func.instrs@)) {
            Ok(w) => r is Ok && final(code)@ == old(code)@ + w,
            Err(e) => r == Err::<(), CompileError>(e),
        },
{
    let ghost iv = irs_view(func.instrs@);
    let alloc = match allocate_registers(func.instrs.as_slice()) {
        Some(a) => a,
        None => {
            return Err(CompileError::TooManyTemporaries);
        },
    };
    let ghost m = alloc_view(alloc@);
    proof {
        lemma_alloc_valid(iv, 0, Seq::empty());
    }
    let ghost start = code@;
    let ghost mut acc: Seq<u16> = Seq::empty();
    let mut k: usize = 0;
    while k < func.instrs.len()
        invariant
            iv == irs_view(func.instrs@),
            m == alloc_view(alloc@),
            spec_allocate(iv) == Some(m),
            regs_valid(m),
            k <= func.instrs@.len(),
            gen_from(iv, 0, m, Seq::empty()) == gen_from(iv, k as int, m, acc),
            code@ == start + acc,
        decreases func.instrs@.len() - k,
    {
        assert(iv[k as int] == func.instrs@[k as int]@);
        let ghost prev = code@;
        gen_one(&func.instrs[k], &alloc, code)?;
        proof {
            let w = gen_inst(iv[k as int], m)->Ok_0;
            assert(code@ == prev + w);
            assert(start + (acc + w) =~= prev + w);
            acc = acc + w;
        }
        k = k + 1;
    }
    Ok(())
}

/// Translates each function's operations into instruction words, one after the other.
pub fn generate(prog: &IRProgram) -> (r: Result<Vec<u16>, CompileError>)
    ensures
        match gen_functions(program_view(*prog), 0, Seq::empty()) {
            Ok(w) => r matches Ok(v) && v@ == w,
            Err(e) => r == Err::<Vec<u16>, CompileError>(e),
        },
{
    let ghost fs = program_view(*prog);
    let mut code: Vec<u16> = Vec::new();
    let mut f: usize = 0;
    while f < prog.functions.len()
        invariant
            fs == program_view(*prog),
            f <= prog.functions@.len(),
            gen_functions(fs, 0, Seq::empty()) == gen_functions(fs, f as int, code@),
        decreases prog.functions@.len() - f,
    {
        assert(fs[f as int] == irs_view(prog.functions@[f as int].instrs@));
        gen_body(&prog.functions[f], &mut code)?;
        f = f + 1;
    }
    Ok(code)
}

} // verus!
