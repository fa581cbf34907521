use vstd::prelude::*;

use crate::compiler::ast::{CompileError, Expr, Function, Op, Program, Stmt};
use crate::text::str_eq;

verus! {

#[derive(Clone, Debug)]
pub struct IRProgram {
    pub functions: Vec<IRFunction>,
}

#[derive(Clone, Debug)]
pub struct IRFunction {
    pub name: String,
    pub instrs: Vec<IRInst>,
}

/// A three-address operation over named temporaries.
#[derive(Clone, Debug)]
pub enum IRInst {
    LoadImm(String, i64),
    Add(String, String, String),
    Sub(String, String, String),
    Mul(String, String, String),
    Div(String, String, String),
    Ret(String),
}

pub enum IRInstV {
    LoadImm(Seq<char>, i64),
    Add(Seq<char>, Seq<char>, Seq<char>),
    Sub(Seq<char>, Seq<char>, Seq<char>),
    Mul(Seq<char>, Seq<char>, Seq<char>),
    Div(Seq<char>, Seq<char>, Seq<char>),
    Ret(Seq<char>),
}

impl View for IRInst {
    type V = IRInstV;

    open spec fn view(&self) -> IRInstV {
        match self {
            IRInst::LoadImm(d, v) => IRInstV::LoadImm(d@, *v),
            IRInst::Add(d, a, b) => IRInstV::Add(d@, a@, b@),
            IRInst::Sub(d, a, b) => IRInstV::Sub(d@, a@, b@),
            IRInst::Mul(d, a, b) => IRInstV::Mul(d@, a@, b@),
            IRInst::Div(d, a, b) => IRInstV::Div(d@, a@, b@),
            IRInst::Ret(v) => IRInstV::Ret(v@),
        }
    }
}

pub open spec fn irs_view(s: Seq<IRInst>) -> Seq<IRInstV> {
    s.map_values(|i: IRInst| i@)
}

} // verus!

verus! {

/// The decimal digit `d` (0..9).
pub open spec fn digit_char(d: nat) -> char {
    (('0' as nat) + d) as char
}

/// The decimal numeral for `n`, without leading zeros.
pub open spec fn decimal(n: nat) -> Seq<char>
    decreases n,
{
    if n < 10 {
        seq![digit_char(n)]
    } else {
        decimal(n / 10).push(digit_char(n % 10))
    }
}

/// The name of temporary number `n`: `t` followed by `n` in decimal.
pub open spec fn temp_name(n: nat) -> Seq<char> {
    seq!['t'] + decimal(n)
}

fn digit_str(d: usize) -> (r: &'static str)
    requires
        d < 10,
    ensures
        r@ == seq![digit_char(d as nat)],
{
    proof {
        reveal_strlit("0");
        reveal_strlit("1");
        reveal_strlit("2");
        reveal_strlit("3");
        reveal_strlit("4");
        reveal_strlit("5");
        reveal_strlit("6");
        reveal_strlit("7");
        reveal_strlit("8");
        reveal_strlit("9");
    }
    let r = if d == 0 {
        "0"
    } else if d == 1 {
        "1"
    } else if d == 2 {
        "2"
    } else if d == 3 {
        "3"
    } else if d == 4 {
        "4"
    } else if d == 5 {
        "5"
    } else if d == 6 {
        "6"
    } else if d == 7 {
        "7"
    } else if d == 8 {
        "8"
    } else {
        "9"
    };
    assert(r@ =~= seq![digit_char(d as nat)]);
    r
}

fn push_decimal(s: &mut String, n: usize)
    ensures
        final(s)@ == old(s)@ + decimal(n as nat),
    decreases n,
{
    if n >= 10 {
        push_decimal(s, n / 10);
    }
    let ghost mid = s@;
    s.append(digit_str(n % 10));
    if n >= 10 {
        assert(s@ =~= old(s)@ + decimal(n as nat));
    } else {
        assert(s@ =~= old(s)@ + decimal(n as nat));
    }
}

/// The name of temporary number `n`.
pub fn make_temp(n: usize) -> (r: String)
    ensures
        r@ == temp_name(n as nat),
{
    proof {
        reveal_strlit("t");
    }
    let mut s = String::from_str("t");
    push_decimal(&mut s, n);
    assert(s@ =~= temp_name(n as nat));
    s
}

} // verus!

verus! {

/// The temporary that `vars` binds to `name`; a later binding hides an earlier one.
pub open spec fn lookup_var(vars: Seq<(Seq<char>, Seq<char>)>, name: Seq<char>) -> Option<
    Seq<char>,
>
    decreases vars.len(),
{
    if vars.len() == 0 {
        None
    } else if vars.last().0 == name {
        Some(vars.last().1)
    } else {
        lookup_var(vars.drop_last(), name)
    }
}

pub open spec fn vars_view(v: Seq<(String, String)>) -> Seq<(Seq<char>, Seq<char>)> {
    v.map_values(|p: (String, String)| (p.0@, p.1@))
}

/// The operation `t = a op b`.
pub open spec fn binop_inst(op: Op, t: Seq<char>, a: Seq<char>, b: Seq<char>) -> IRInstV {
    match op {
        Op::Add => IRInstV::Add(t, a, b),
        Op::Sub => IRInstV::Sub(t, a, b),
        Op::Mul => IRInstV::Mul(t, a, b),
        Op::Div => IRInstV::Div(t, a, b),
    }
}

/// Lowering `e` with variables `vars` and the next temporary number `temp`: the operations,
/// the temporary holding the value, and the next temporary number. Operands are lowered left
/// before right; each constant and each operation gets a fresh temporary.
pub open spec fn lower_expr_spec(e: Expr, vars: Seq<(Seq<char>, Seq<char>)>, temp: nat) -> Result<
    (Seq<IRInstV>, Seq<char>, nat),
    CompileError,
>
    decreases e,
{
    match e {
        Expr::Num(n) => if temp >= usize::MAX {
            Err(CompileError::TooManyTemporaries)
        } else {
            Ok((seq![IRInstV::LoadImm(temp_name(temp), n)], temp_name(temp), temp + 1))
        },
        Expr::Var(v) => match lookup_var(vars, v@) {
            Some(t) => Ok((Seq::empty(), t, temp)),
            None => Err(CompileError::UndefinedVariable),
        },
        Expr::BinOp(l, op, r) => match lower_expr_spec(*l, vars, temp) {
            Err(e) => Err(e),
            Ok((il, lt, t1)) => match lower_expr_spec(*r, vars, t1) {
                Err(e) => Err(e),
                Ok((ir, rt, t2)) => if t2 >= usize::MAX {
                    Err(CompileError::TooManyTemporaries)
                } else {
                    Ok(
                        (
                            il + ir + seq![binop_inst(op, temp_name(t2), lt, rt)],
                            temp_name(t2),
                            t2 + 1,
                        ),
                    )
                },
            },
        },
    }
}

/// Lowering statements `k` on of `body`, after the operations `acc`: `let` binds the name to
/// the value's temporary; `return` adds a `Ret` of it.
pub open spec fn lower_body(
    body: Seq<Stmt>,
    k: int,
    vars: Seq<(Seq<char>, Seq<char>)>,
    temp: nat,
    acc: Seq<IRInstV>,
) -> Result<Seq<IRInstV>, CompileError>
    decreases body.len() - k,
{
    if k < 0 || k >= body.len() {
        Ok(acc)
    } else {
        match body[k] {
            Stmt::Let(name, e) => match lower_expr_spec(e, vars, temp) {
                Err(err) => Err(err),
                Ok((is, t, next)) => lower_body(body, k + 1, vars.push((name@, t)), next, acc + is),
            },
            Stmt::Return(e) => match lower_expr_spec(e, vars, temp) {
                Err(err) => Err(err),
                Ok((is, t, next)) => lower_body(
                    body,
                    k + 1,
                    vars,
                    next,
                    acc + is.push(IRInstV::Ret(t)),
                ),
            },
        }
    }
}

/// The operations of one function: temporaries numbered from 0, no variables bound.
pub open spec fn lower_function(f: Function) -> Result<Seq<IRInstV>, CompileError> {
    lower_body(f.body@, 0, Seq::empty(), 0, Seq::empty())
}

fn find_var(vars: &Vec<(String, String)>, name: &String) -> (r: Option<String>)
    ensures
        match lookup_var(vars_view(vars@), name@) {
            Some(t) => r matches Some(s) && s@ == t,
            None => r is None,
        },
{
    let ghost vv = vars_view(vars@);
    let mut k: usize = vars.len();
    assert(vv.subrange(0, vv.len() as int) =~= vv);
    while k > 0
        invariant
            k <= vars@.len(),
            vv == vars_view(vars@),
            lookup_var(vv, name@) == lookup_var(vv.subrange(0, k as int), name@),
        decreases k,
    {
        let ghost pre = vv.subrange(0, k as int);
        assert(pre.drop_last() =~= vv.subrange(0, k - 1));
        assert(pre.last() == (vars@[k - 1].0@, vars@[k - 1].1@));
        if str_eq(vars[k - 1].0.as_str(), name.as_str()) {
            return Some(vars[k - 1].1.clone());
        }
        k = k - 1;
    }
    None
}

fn make_binop(op: Op, t: String, a: String, b: String) -> (r: IRInst)
    ensures
        r@ == binop_inst(op, t@, a@, b@),
{
    match op {
        Op::Add => IRInst::Add(t, a, b),
        Op::Sub => IRInst::Sub(t, a, b),
        Op::Mul => IRInst::Mul(t, a, b),
        Op::Div => IRInst::Div(t, a, b),
    }
}

/// Appends the operations for `expr` and returns the temporary that holds its value.
fn lower_expr(
    expr: &Expr,
    instrs: &mut Vec<IRInst>,
    vars: &Vec<(String, String)>,
    temp: &mut usize,
) -> (r: Result<String, CompileError>)
    ensures
        match lower_expr_spec(*expr, vars_view(vars@), *old(temp) as nat) {
            Ok((is, t, next)) => r matches Ok(s) && s@ == t && irs_view(final(instrs)@) == irs_view(
                old(instrs)@,
            ) + is && *final(temp) == next,
            Err(e) => r == Err::<String, CompileError>(e),
        },
    decreases expr,
{
    match expr {
        Expr::Num(n) => {
            if *temp == usize::MAX {
                return Err(CompileError::TooManyTemporaries);
            }
            let t = make_temp(*temp);
            *temp = *temp + 1;
            let ghost before = irs_view(instrs@);
            instrs.push(IRInst::LoadImm(t.clone(), *n));
            assert(irs_view(instrs@) =~= before + seq![IRInstV::LoadImm(t@, *n)]);
            Ok(t)
        },
        Expr::Var(v) => match find_var(vars, v) {
            Some(t) => {
                assert(irs_view(instrs@) =~= irs_view(old(instrs)@) + Seq::<IRInstV>::empty());
                Ok(t)
            },
            None => Err(CompileError::UndefinedVariable),
        },
        Expr::BinOp(l, op, r) => {
            let lt = lower_expr(l, instrs, vars, temp)?;
            let rt = lower_expr(r, instrs, vars, temp)?;
            if *temp == usize::MAX {
                return Err(CompileError::TooManyTemporaries);
            }
            let t = make_temp(*temp);
            *temp = *temp + 1;
            let ghost before = irs_view(instrs@);
            let inst = make_binop(*op, t.clone(), lt, rt);
            instrs.push(inst);
            assert(irs_view(instrs@) =~= before + seq![inst@]);
            proof {
                let (il, _, _) = lower_expr_spec(**l, vars_view(vars@), *old(temp) as nat)->Ok_0;
                let ir_ = lower_expr_spec(**r, vars_view(vars@), lower_expr_spec(**l, vars_view(vars@), *old(temp) as nat)->Ok_0.2)->Ok_0.0;
                assert(irs_view(instrs@) =~= irs_view(old(instrs)@) + (il + ir_ + seq![inst@]));
            }
            Ok(t)
        },
    }
}

/// Lowers the statements of one function into three-address operations.
fn lower_function_body(func: &Function) -> (r: Result<Vec<IRInst>, CompileError>)
    ensures
        match lower_function(*func) {
            Ok(is) => r matches Ok(v) && irs_view(v@) == is,
            Err(e) => r == Err::<Vec<IRInst>, CompileError>(e),
        },
{
    let mut instrs: Vec<IRInst> = Vec::new();
    let mut vars: Vec<(String, String)> = Vec::new();
    let mut temp: usize = 0;
    let mut k: usize = 0;
    assert(irs_view(instrs@) =~= Seq::<IRInstV>::empty());
    assert(vars_view(vars@) =~= Seq::<(Seq<char>, Seq<char>)>::empty());
    while k < func.body.len()
        invariant
            k <= func.body@.len(),
            lower_function(*func) == lower_body(
                func.body@,
                k as int,
                vars_view(vars@),
                temp as nat,
                irs_view(instrs@),
            ),
        decreases func.body@.len() - k,
    {
        match &func.body[k] {
            Stmt::Let(name, e) => {
                let t = lower_expr(e, &mut instrs, &vars, &mut temp)?;
                let ghost before = vars_view(vars@);
                vars.push((name.clone(), t));
                assert(vars_view(vars@) =~= before.push((name@, t@)));
            },
            Stmt::Return(e) => {
                let t = lower_expr(e, &mut instrs, &vars, &mut temp)?;
                let ghost before = irs_view(instrs@);
                instrs.push(IRInst::Ret(t));
                assert(irs_view(instrs@) =~= before.push(IRInstV::Ret(t@)));
            },
        }
        k = k + 1;
    }
    Ok(instrs)
}

/// Lowers every function of the program, in order.
pub fn lower_ast(prog: &Program) -> (r: Result<IRProgram, CompileError>)
    ensures
        match r {
            Ok(p) => p.functions@.len() == prog.functions@.len() && forall|j: int|
                0 <= j < p.functions@.len() ==> {
                    &&& lower_function(#[trigger] prog.functions@[j]) == Ok::<
                        Seq<IRInstV>,
                        CompileError,
                    >(irs_view(p.functions@[j].instrs@))
                    &&& p.functions@[j].name@ == prog.functions@[j].name@
                },
            Err(e) => exists|j: int|
                0 <= j < prog.functions@.len() && lower_function(#[trigger] prog.functions@[j])
                    == Err::<Seq<IRInstV>, CompileError>(e),
        },
{
    let mut functions: Vec<IRFunction> = Vec::new();
    let mut k: usize = 0;
    while k < prog.functions.len()
        invariant
            k <= prog.functions@.len(),
            functions@.len() == k,
            forall|j: int|
                0 <= j < k ==> {
                    &&& lower_function(#[trigger] prog.functions@[j]) == Ok::<
                        Seq<IRInstV>,
                        CompileError,
                    >(irs_view(functions@[j].instrs@))
                    &&& functions@[j].name@ == prog.functions@[j].name@
                },
        decreases prog.functions@.len() - k,
    {
        let func = &prog.functions[k];
        let instrs = match lower_function_body(func) {
            Ok(v) => v,
            Err(e) => {
                return Err(e);
            },
        };
        functions.push(IRFunction { name: func.name.clone(), instrs });
        k = k + 1;
    }
    Ok(IRProgram { functions })
}

} // verus!
