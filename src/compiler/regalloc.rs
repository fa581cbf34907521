use vstd::prelude::*;

use crate::compiler::ir::{IRInst, IRInstV, irs_view};
use crate::text::str_eq;

verus! {

/// The first register handed out; `r0` reads as zero and `r1` carries the result.
pub const FIRST_REG: u8 = 2;

/// The last register handed out; `r15` is the link register.
pub const LAST_REG: u8 = 14;

/// The temporary that an operation defines, if any.
pub open spec fn dest_of(i: IRInstV) -> Option<Seq<char>> {
    match i {
        IRInstV::LoadImm(d, _) => Some(d),
        IRInstV::Add(d, _, _) => Some(d),
        IRInstV::Sub(d, _, _) => Some(d),
        IRInstV::Mul(d, _, _) => Some(d),
        IRInstV::Div(d, _, _) => Some(d),
        IRInstV::Ret(_) => None,
    }
}

/// The register that `m` assigns to `name`.
pub open spec fn lookup(m: Seq<(Seq<char>, u8)>, name: Seq<char>) -> Option<u8>
    decreases m.len(),
{
    if m.len() == 0 {
        None
    } else if m[0].0 == name {
        Some(m[0].1)
    } else {
        lookup(m.drop_first(), name)
    }
}

/// Assignment from item `k` on, given the assignment `m` so far: each temporary gets the
/// next free register at its first definition. `None` once `r14` is taken and another
/// temporary needs one.
pub open spec fn alloc_from(instrs: Seq<IRInstV>, k: int, m: Seq<(Seq<char>, u8)>) -> Option<
    Seq<(Seq<char>, u8)>,
>
    decreases instrs.len() - k,
{
    if k < 0 || k >= instrs.len() {
        Some(m)
    } else {
        match dest_of(instrs[k]) {
            Some(d) => if lookup(m, d) is None {
                if FIRST_REG + m.len() > LAST_REG {
                    None
                } else {
                    alloc_from(instrs, k + 1, m.push((d, (FIRST_REG + m.len()) as u8)))
                }
            } else {
                alloc_from(instrs, k + 1, m)
            },
            None => alloc_from(instrs, k + 1, m),
        }
    }
}

pub open spec fn spec_allocate(instrs: Seq<IRInstV>) -> Option<Seq<(Seq<char>, u8)>> {
    alloc_from(instrs, 0, Seq::empty())
}

pub open spec fn alloc_view(v: Seq<(String, u8)>) -> Seq<(Seq<char>, u8)> {
    v.map_values(|p: (String, u8)| (p.0@, p.1))
}

/// The register that the assignment `m` gives `name`.
pub fn find_reg(m: &Vec<(String, u8)>, name: &String) -> (r: Option<u8>)
    ensures
        r == lookup(alloc_view(m@), name@),
{
    let ghost mv = alloc_view(m@);
    let mut k: usize = 0;
    assert(mv.subrange(0, mv.len() as int) =~= mv);
    while k < m.len()
        invariant
            k <= m@.len(),
            mv == alloc_view(m@),
            lookup(mv, name@) == lookup(mv.subrange(k as int, mv.len() as int), name@),
        decreases m@.len() - k,
    {
        let ghost rest = mv.subrange(k as int, mv.len() as int);
        assert(rest.drop_first() =~= mv.subrange(k + 1, mv.len() as int));
        assert(rest[0] == (m@[k as int].0@, m@[k as int].1));
        if str_eq(m[k].0.as_str(), name.as_str()) {
            return Some(m[k].1);
        }
        k = k + 1;
    }
    None
}

fn dest(i: &IRInst) -> (r: Option<&String>)
    ensures
        match dest_of(i@) {
            Some(d) => r matches Some(s) && s@ == d,
            None => r is None,
        },
{
    match i {
        IRInst::LoadImm(d, _) => Some(d),
        IRInst::Add(d, _, _) => Some(d),
        IRInst::Sub(d, _, _) => Some(d),
        IRInst::Mul(d, _, _) => Some(d),
        IRInst::Div(d, _, _) => Some(d),
        IRInst::Ret(_) => None,
    }
}

/// Gives each temporary a register of its own, `r2` upwards, in order of first definition.
pub fn allocate_registers(instrs: &[IRInst]) -> (r: Option<Vec<(String, u8)>>)
    ensures
        match spec_allocate(irs_view(instrs@)) {
            Some(m) => r matches Some(v) && alloc_view(v@) == m,
            None => r is None,
        },
{
    let ghost iv = irs_view(instrs@);
    let mut alloc: Vec<(String, u8)> = Vec::new();
    let mut next_reg: u8 = FIRST_REG;
    let mut k: usize = 0;
    assert(alloc_view(alloc@) =~= Seq::<(Seq<char>, u8)>::empty());
    while k < instrs.len()
        invariant
            iv == irs_view(instrs@),
            k <= instrs@.len(),
            next_reg == FIRST_REG + alloc@.len(),
            next_reg <= LAST_REG + 1,
            spec_allocate(iv) == alloc_from(iv, k as int, alloc_view(alloc@)),
        decreases instrs@.len() - k,
    {
        assert(iv[k as int] == instrs@[k as int]@);
        if let Some(d) = dest(&instrs[k]) {
            if find_reg(&alloc, d).is_none() {
                if next_reg > LAST_REG {
                    return None;
                }
                let ghost before = alloc_view(alloc@);
                alloc.push((d.clone(), next_reg));
                assert(alloc_view(alloc@) =~= before.push((d@, next_reg)));
                next_reg = next_reg + 1;
            }
        }
        k = k + 1;
    }
    Some(alloc)
}

} // verus!

verus! {

/// Every register in the assignment is one of `r0`..`r14`.
pub open spec fn regs_valid(m: Seq<(Seq<char>, u8)>) -> bool {
    forall|j: int| 0 <= j < m.len() ==> #[trigger] m[j].1 <= LAST_REG
}

pub proof fn lemma_lookup_valid(m: Seq<(Seq<char>, u8)>, name: Seq<char>)
    requires
        regs_valid(m),
    ensures
        lookup(m, name) matches Some(x) ==> x <= LAST_REG,
    decreases m.len(),
{
    if m.len() > 0 {
        assert(m[0].1 <= LAST_REG);
        let t = m.drop_first();
        assert forall|j: int| 0 <= j < t.len() implies #[trigger] t[j].1 <= LAST_REG by {
            assert(t[j] == m[j + 1]);
        }
        lemma_lookup_valid(t, name);
    }
}

pub proof fn lemma_alloc_valid(instrs: Seq<IRInstV>, k: int, m: Seq<(Seq<char>, u8)>)
    requires
        regs_valid(m),
    ensures
        alloc_from(instrs, k, m) matches Some(r) ==> regs_valid(r),
    decreases instrs.len() - k,
{
    if 0 <= k < instrs.len() {
        match dest_of(instrs[k]) {
            Some(d) => if lookup(m, d) is None {
                if FIRST_REG + m.len() <= LAST_REG {
                    let m2 = m.push((d, (FIRST_REG + m.len()) as u8));
                    assert forall|j: int| 0 <= j < m2.len() implies #[trigger] m2[j].1
                        <= LAST_REG by {
                        if j < m.len() {
                            assert(m2[j] == m[j]);
                        }
                    }
                    lemma_alloc_valid(instrs, k + 1, m2);
                }
            } else {
                lemma_alloc_valid(instrs, k + 1, m);
            },
            None => lemma_alloc_valid(instrs, k + 1, m),
        }
    }
}

} // verus!
