use vstd::prelude::*;

use crate::assembler::opcodes::{
    cap_index, opcode, reg_index, spec_cap_index, spec_opcode, spec_reg_index,
};
use crate::assembler::parser::{Arg, ArgV, AsmError, Inst, InstV, insts_view};
use crate::isa::{encode, nibble_of, spec_encode};
use crate::text::str_eq;

verus! {

/// The instruction slot (byte address / 2) that `table` gives the label `name`.
pub open spec fn table_lookup(table: Seq<(Seq<char>, int)>, name: Seq<char>) -> Option<int>
    decreases table.len(),
{
    if table.len() == 0 {
        None
    } else if table[0].0 == name {
        Some(table[0].1)
    } else {
        table_lookup(table.drop_first(), name)
    }
}

/// Pass 1 from item `k` on, with `slot` operations before it and the labels `table` found so
/// far: each label gets the slot of the operation that follows it; a label defined twice is
/// an error.
pub open spec fn labels_from(insts: Seq<InstV>, k: int, slot: int, table: Seq<(Seq<char>, int)>) -> Result<
    Seq<(Seq<char>, int)>,
    AsmError,
>
    decreases insts.len() - k,
{
    if k < 0 || k >= insts.len() {
        Ok(table)
    } else {
        match insts[k] {
            InstV::Label(s) => if table_lookup(table, s) is Some {
                Err(AsmError::DuplicateLabel { index: k as usize })
            } else {
                labels_from(insts, k + 1, slot, table.push((s, slot)))
            },
            InstV::Op(_, _) => labels_from(insts, k + 1, slot + 1, table),
        }
    }
}

/// A register operand of the operation at item `k`.
pub open spec fn reg_operand(a: ArgV, k: int) -> Result<u8, AsmError> {
    match a {
        ArgV::Reg(r) => match spec_reg_index(r) {
            Some(x) => Ok(x),
            None => Err(AsmError::InvalidRegister { index: k as usize }),
        },
        _ => Err(AsmError::BadOperand { index: k as usize }),
    }
}

/// A register or capability operand in a plain three-operand operation; anything else
/// there is a bad operand.
pub open spec fn field_operand(a: ArgV, k: int) -> Result<u8, AsmError> {
    match a {
        ArgV::Reg(r) => match spec_reg_index(r) {
            Some(x) => Ok(x),
            None => Err(AsmError::InvalidRegister { index: k as usize }),
        },
        ArgV::Cap(c) => match spec_cap_index(c) {
            Some(x) => Ok(x),
            None => Err(AsmError::InvalidRegister { index: k as usize }),
        },
        _ => Err(AsmError::BadOperand { index: k as usize }),
    }
}

/// The low nibble of a plain three-operand operation: a register, a capability, or an
/// immediate in -8..7.
pub open spec fn low_operand(a: ArgV, k: int) -> Result<u8, AsmError> {
    match a {
        ArgV::Imm(v) => if -8 <= v <= 7 {
            Ok(nibble_of(v as int))
        } else {
            Err(AsmError::OutOfRange { index: k as usize })
        },
        _ => field_operand(a, k),
    }
}

/// A control-transfer offset in instructions, counted from the instruction after item `k`
/// (which sits in slot `slot`): an immediate, or a label `L`, whose offset is
/// `(pc(L) - (pc(k) + 2)) / 2`. It must lie in -8..7.
pub open spec fn offset_operand(table: Seq<(Seq<char>, int)>, slot: int, k: int, a: ArgV) -> Result<
    int,
    AsmError,
> {
    match a {
        ArgV::Imm(v) => if -8 <= v <= 7 {
            Ok(v as int)
        } else {
            Err(AsmError::OutOfRange { index: k as usize })
        },
        ArgV::Label(s) => match table_lookup(table, s) {
            None => Err(AsmError::UndefinedLabel { index: k as usize }),
            Some(target) => {
                let d = target - (slot + 1);
                if -8 <= d <= 7 {
                    Ok(d)
                } else {
                    Err(AsmError::OutOfRange { index: k as usize })
                }
            },
        },
        _ => Err(AsmError::BadOperand { index: k as usize }),
    }
}

/// The `(rd, rs1, low)` nibbles of operation `name args` at item `k`. Each form takes a
/// fixed number of operands (`jmp` and `call` one or two, the plain forms up to three);
/// more, or fewer where the form needs them, are a bad operand.
pub open spec fn op_fields(
    table: Seq<(Seq<char>, int)>,
    slot: int,
    k: int,
    name: Seq<char>,
    args: Seq<ArgV>,
) -> Result<
    (u8, u8, u8),
    AsmError,
> {
    let bad = AsmError::BadOperand { index: k as usize };
    if name == "syscall"@ {
        if args.len() != 1 {
            Err(bad)
        } else {
            match reg_operand(args[0], k) {
                Ok(s) => Ok((0u8, s, 0u8)),
                Err(e) => Err(e),
            }
        }
    } else if name == "ret"@ {
        if args.len() != 0 {
            Err(bad)
        } else {
            Ok((0u8, 0u8, 0u8))
        }
    } else if name == "brz"@ {
        if args.len() != 2 {
            Err(bad)
        } else {
            match (reg_operand(args[0], k), offset_operand(table, slot, k, args[1])) {
                (Err(e), _) => Err(e),
                (Ok(_), Err(e)) => Err(e),
                (Ok(s), Ok(d)) => Ok((0u8, s, nibble_of(d))),
            }
        }
    } else if name == "br"@ {
        if args.len() != 3 {
            Err(bad)
        } else {
            match (reg_operand(args[0], k), reg_operand(args[1], k)) {
                (Err(e), _) => Err(e),
                (Ok(_), Err(e)) => Err(e),
                (Ok(s), Ok(t)) => match offset_operand(table, slot, k, args[2]) {
                    Err(e) => Err(e),
                    Ok(d) => Ok((t, s, nibble_of(d))),
                },
            }
        }
    } else if name == "jmp"@ || name == "call"@ {
        if args.len() < 1 || args.len() > 2 {
            Err(bad)
        } else {
            match reg_operand(args[0], k) {
                Err(e) => Err(e),
                Ok(s) => if args.len() < 2 {
                    Ok((0u8, s, 0u8))
                } else {
                    match offset_operand(table, slot, k, args[1]) {
                        Err(e) => Err(e),
                        Ok(d) => Ok((0u8, s, nibble_of(d))),
                    }
                },
            }
        }
    } else if args.len() > 3 {
        Err(bad)
    } else {
        let rd = if args.len() > 0 {
            field_operand(args[0], k)
        } else {
            Ok(0u8)
        };
        let rs1 = if args.len() > 1 {
            field_operand(args[1], k)
        } else {
            Ok(0u8)
        };
        let low = if args.len() > 2 {
            low_operand(args[2], k)
        } else {
            Ok(0u8)
        };
        match (rd, rs1, low) {
            (Err(e), _, _) => Err(e),
            (Ok(_), Err(e), _) => Err(e),
            (Ok(_), Ok(_), Err(e)) => Err(e),
            (Ok(a), Ok(b), Ok(c)) => Ok((a, b, c)),
        }
    }
}

/// The word for operation `name args` at item `k`, in slot `slot`.
pub open spec fn encode_item(
    table: Seq<(Seq<char>, int)>,
    slot: int,
    k: int,
    name: Seq<char>,
    args: Seq<ArgV>,
) -> Result<u16, AsmError> {
    match spec_opcode(name) {
        None => Err(AsmError::UnknownInstruction { index: k as usize }),
        Some(op) => match op_fields(table, slot, k, name, args) {
            Ok((rd, rs1, low)) => Ok(spec_encode(op, rd, rs1, low)),
            Err(e) => Err(e),
        },
    }
}

/// Pass 2 from item `k` on, with `slot` operations before it, after the words `acc`.
pub open spec fn emit_from(
    insts: Seq<InstV>,
    k: int,
    slot: int,
    table: Seq<(Seq<char>, int)>,
    acc: Seq<u16>,
) -> Result<Seq<u16>, AsmError>
    decreases insts.len() - k,
{
    if k < 0 || k >= insts.len() {
        Ok(acc)
    } else {
        match insts[k] {
            InstV::Label(_) => emit_from(insts, k + 1, slot, table, acc),
            InstV::Op(name, args) => match encode_item(table, slot, k, name, args) {
                Ok(w) => emit_from(insts, k + 1, slot + 1, table, acc.push(w)),
                Err(e) => Err(e),
            },
        }
    }
}

/// The program that the items spell: pass 1 maps each label to its slot, pass 2 turns each
/// operation into one word; the first error of either pass ends it.
pub open spec fn spec_emit(insts: Seq<InstV>) -> Result<Seq<u16>, AsmError> {
    match labels_from(insts, 0, 0, Seq::empty()) {
        Err(e) => Err(e),
        Ok(table) => emit_from(insts, 0, 0, table, Seq::empty()),
    }
}

pub open spec fn table_view(t: Seq<(String, usize)>) -> Seq<(Seq<char>, int)> {
    t.map_values(|p: (String, usize)| (p.0@, p.1 as int))
}

/// The slot that the label table gives `name`.
fn lookup_label(table: &Vec<(String, usize)>, name: &String) -> (r: Option<usize>)
    ensures
        match table_lookup(table_view(table@), name@) {
            Some(x) => r == Some(x as usize) && 0 <= x <= usize::MAX,
            None => r is None,
        },
{
    let ghost tv = table_view(table@);
    let mut k: usize = 0;
    assert(tv.subrange(0, tv.len() as int) =~= tv);
    while k < table.len()
        invariant
            k <= table@.len(),
            tv == table_view(table@),
            table_lookup(tv, name@) == table_lookup(tv.subrange(k as int, tv.len() as int), name@),
        decreases table@.len() - k,
    {
        let ghost rest = tv.subrange(k as int, tv.len() as int);
        assert(rest.drop_first() =~= tv.subrange(k + 1, tv.len() as int));
        assert(rest[0] == (table@[k as int].0@, table@[k as int].1 as int));
        if str_eq(table[k].0.as_str(), name.as_str()) {
            return Some(table[k].1);
        }
        k = k + 1;
    }
    None
}

fn reg_arg(a: &Arg, k: usize) -> (r: Result<u8, AsmError>)
    ensures
        r == reg_operand(a@, k as int),
{
    match a {
        Arg::Reg(s) => match reg_index(s.as_str()) {
            Some(x) => Ok(x),
            None => Err(AsmError::InvalidRegister { index: k }),
        },
        _ => Err(AsmError::BadOperand { index: k }),
    }
}

fn field_arg(a: &Arg, k: usize) -> (r: Result<u8, AsmError>)
    ensures
        r == field_operand(a@, k as int),
        r matches Ok(x) ==> x < 16,
{
    match a {
        Arg::Reg(s) => match reg_index(s.as_str()) {
            Some(x) => Ok(x),
            None => Err(AsmError::InvalidRegister { index: k }),
        },
        Arg::Cap(s) => match cap_index(s.as_str()) {
            Some(x) => Ok(x),
            None => Err(AsmError::InvalidRegister { index: k }),
        },
        _ => Err(AsmError::BadOperand { index: k }),
    }
}

/// The nibble for an immediate in -8..7.
fn nibble(v: i64) -> (r: u8)
    requires
        -8 <= v <= 7,
    ensures
        r == nibble_of(v as int),
        r < 16,
{
    if v >= 0 {
        v as u8
    } else {
        (v + 16) as u8
    }
}

fn low_arg(a: &Arg, k: usize) -> (r: Result<u8, AsmError>)
    ensures
        r == low_operand(a@, k as int),
        r matches Ok(x) ==> x < 16,
{
    match a {
        Arg::Imm(v) => if -8 <= *v && *v <= 7 {
            Ok(nibble(*v))
        } else {
            Err(AsmError::OutOfRange { index: k })
        },
        _ => field_arg(a, k),
    }
}

fn offset_arg(table: &Vec<(String, usize)>, slot: usize, k: usize, a: &Arg) -> (r: Result<
    i64,
    AsmError,
>)
    ensures
        match offset_operand(table_view(table@), slot as int, k as int, a@) {
            Ok(d) => r == Ok::<i64, AsmError>(d as i64) && -8 <= d <= 7,
            Err(e) => r == Err::<i64, AsmError>(e),
        },
{
    match a {
        Arg::Imm(v) => if -8 <= *v && *v <= 7 {
            Ok(*v)
        } else {
            Err(AsmError::OutOfRange { index: k })
        },
        Arg::Label(s) => match lookup_label(table, s) {
            None => Err(AsmError::UndefinedLabel { index: k }),
            Some(target) => {
                let d = target as i128 - (slot as i128 + 1);
                if -8 <= d && d <= 7 {
                    Ok(d as i64)
                } else {
                    Err(AsmError::OutOfRange { index: k })
                }
            },
        },
        _ => Err(AsmError::BadOperand { index: k }),
    }
}

/// The `(rd, rs1, low)` nibbles of the operation at item `k`.
fn fields(
    table: &Vec<(String, usize)>,
    slot: usize,
    k: usize,
    name: &String,
    args: &Vec<Arg>,
) -> (r: Result<(u8, u8, u8), AsmError>)
    ensures
        r == op_fields(
            table_view(table@),
            slot as int,
            k as int,
            name@,
            crate::assembler::parser::args_view(args@),
        ),
        r matches Ok((a, b, c)) ==> a < 16 && b < 16 && c < 16,
{
    let ghost av = crate::assembler::parser::args_view(args@);
    assert(forall|m: int| 0 <= m < args@.len() ==> av[m] == args@[m]@);
    let bad = AsmError::BadOperand { index: k };
    let n = args.len();
    if str_eq(name.as_str(), "syscall") {
        if n != 1 {
            return Err(bad);
        }
        let s = reg_arg(&args[0], k)?;
        Ok((0, s, 0))
    } else if str_eq(name.as_str(), "ret") {
        if n != 0 {
            return Err(bad);
        }
        Ok((0, 0, 0))
    } else if str_eq(name.as_str(), "brz") {
        if n != 2 {
            return Err(bad);
        }
        let s = reg_arg(&args[0], k)?;
        let d = offset_arg(table, slot, k, &args[1])?;
        Ok((0, s, nibble(d)))
    } else if str_eq(name.as_str(), "br") {
        if n != 3 {
            return Err(bad);
        }
        let s = reg_arg(&args[0], k)?;
        let t = reg_arg(&args[1], k)?;
        let d = offset_arg(table, slot, k, &args[2])?;
        Ok((t, s, nibble(d)))
    } else if str_eq(name.as_str(), "jmp") || str_eq(name.as_str(), "call") {
        if n < 1 || n > 2 {
            return Err(bad);
        }
        let s = reg_arg(&args[0], k)?;
        if n < 2 {
            return Ok((0, s, 0));
        }
        let d = offset_arg(table, slot, k, &args[1])?;
        Ok((0, s, nibble(d)))
    } else if n > 3 {
        Err(bad)
    } else {
        let rd = if n > 0 {
            field_arg(&args[0], k)?
        } else {
            0
        };
        let rs1 = if n > 1 {
            field_arg(&args[1], k)?
        } else {
            0
        };
        let low = if n > 2 {
            low_arg(&args[2], k)?
        } else {
            0
        };
        Ok((rd, rs1, low))
    }
}

/// Encodes the items into instruction words: labels are resolved in a first pass, and each
/// operation becomes one word in a second.
pub fn emit(insts: &[Inst]) -> (r: Result<Vec<u16>, AsmError>)
    ensures
        match r {
            Ok(v) => spec_emit(insts_view(insts@)) == Ok::<Seq<u16>, AsmError>(v@),
            Err(e) => spec_emit(insts_view(insts@)) == Err::<Seq<u16>, AsmError>(e),
        },
{
    let ghost v = insts_view(insts@);
    let n = insts.len();
    let mut table: Vec<(String, usize)> = Vec::new();
    let mut slot: usize = 0;
    let mut k: usize = 0;
    assert(table_view(table@) =~= Seq::<(Seq<char>, int)>::empty());
    while k < n
        invariant
            n == insts@.len(),
            v == insts_view(insts@),
            k <= n,
            slot <= k,
            labels_from(v, 0, 0, Seq::empty()) == labels_from(
                v,
                k as int,
                slot as int,
                table_view(table@),
            ),
        decreases n - k,
    {
        assert(v[k as int] == insts@[k as int]@);
        match &insts[k] {
            Inst::Label(s) => {
                if lookup_label(&table, s).is_some() {
                    return Err(AsmError::DuplicateLabel { index: k });
                }
                let ghost before = table_view(table@);
                table.push((s.clone(), slot));
                assert(table_view(table@) =~= before.push((s@, slot as int)));
            },
            Inst::Op(_, _) => {
                slot = slot + 1;
            },
        }
        k = k + 1;
    }
    let ghost tv = table_view(table@);
    assert(labels_from(v, 0, 0, Seq::empty()) == Ok::<Seq<(Seq<char>, int)>, AsmError>(tv));
    let mut out: Vec<u16> = Vec::new();
    slot = 0;
    k = 0;
    while k < n
        invariant
            n == insts@.len(),
            v == insts_view(insts@),
            tv == table_view(table@),
            k <= n,
            slot <= k,
            spec_emit(v) == emit_from(v, k as int, slot as int, tv, out@),
        decreases n - k,
    {
        assert(v[k as int] == insts@[k as int]@);
        if let Inst::Op(name, args) = &insts[k] {
            let op = match opcode(name.as_str()) {
                Some(o) => o,
                None => {
                    return Err(AsmError::UnknownInstruction { index: k });
                },
            };
            assert(op < 16);
            let (rd, rs1, low) = fields(&table, slot, k, name, args)?;
            out.push(encode(op, rd, rs1, low));
            slot = slot + 1;
        }
        k = k + 1;
    }
    Ok(out)
}

} // verus!
