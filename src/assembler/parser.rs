use vstd::prelude::*;

use crate::assembler::lexer::{Tok, TokV, toks_view};
use crate::assembler::opcodes::{cap_index, reg_index, spec_cap_index, spec_reg_index};

verus! {

/// An item of assembly: a label definition, or an operation with its operands.
#[derive(Clone, Debug)]
pub enum Inst {
    Label(String),
    Op(String, Vec<Arg>),
}

/// An operand as written.
#[derive(Clone, Debug)]
pub enum Arg {
    Reg(String),
    Cap(String),
    Imm(i64),
    Label(String),
}

pub enum ArgV {
    Reg(Seq<char>),
    Cap(Seq<char>),
    Imm(i64),
    Label(Seq<char>),
}

pub enum InstV {
    Label(Seq<char>),
    Op(Seq<char>, Seq<ArgV>),
}

impl View for Arg {
    type V = ArgV;

    open spec fn view(&self) -> ArgV {
        match self {
            Arg::Reg(s) => ArgV::Reg(s@),
            Arg::Cap(s) => ArgV::Cap(s@),
            Arg::Imm(n) => ArgV::Imm(*n),
            Arg::Label(s) => ArgV::Label(s@),
        }
    }
}

pub open spec fn args_view(s: Seq<Arg>) -> Seq<ArgV> {
    s.map_values(|a: Arg| a@)
}

impl View for Inst {
    type V = InstV;

    open spec fn view(&self) -> InstV {
        match self {
            Inst::Label(s) => InstV::Label(s@),
            Inst::Op(s, args) => InstV::Op(s@, args_view(args@)),
        }
    }
}

pub open spec fn insts_view(s: Seq<Inst>) -> Seq<InstV> {
    s.map_values(|i: Inst| i@)
}

/// Why assembly failed.
#[derive(Clone, Copy, Debug, PartialEq, Eq, Structural)]
pub enum AsmError {
    /// The token at this position cannot stand there.
    UnexpectedToken { position: usize },
    /// The operation at this index of the item list has an unknown mnemonic.
    UnknownInstruction { index: usize },
    /// The operation at this index lacks an operand, or has one of the wrong kind.
    BadOperand { index: usize },
    /// The operation at this index names a register or capability that does not exist.
    InvalidRegister { index: usize },
    /// The operation at this index refers to a label that is never defined.
    UndefinedLabel { index: usize },
    /// The operation at this index has an immediate or a branch offset outside -8..7.
    OutOfRange { index: usize },
    /// The label defined at this index was defined before.
    DuplicateLabel { index: usize },
}

/// An identifier operand: a register if it names one, else a capability if it names one,
/// else a label.
pub open spec fn arg_of(w: Seq<char>) -> ArgV {
    if spec_reg_index(w) is Some {
        ArgV::Reg(w)
    } else if spec_cap_index(w) is Some {
        ArgV::Cap(w)
    } else {
        ArgV::Label(w)
    }
}

/// Closes the operation in progress, if any.
pub open spec fn close(acc: Seq<InstV>, cur: Option<(Seq<char>, Seq<ArgV>)>) -> Seq<InstV> {
    match cur {
        Some((name, args)) => acc.push(InstV::Op(name, args)),
        None => acc,
    }
}

/// Parses `t` from position `i`, with the items `acc` read so far and the operation `cur`
/// still collecting operands. An operation runs to the end of its line; `name:` defines a
/// label.
pub open spec fn parse_from(
    t: Seq<TokV>,
    i: int,
    acc: Seq<InstV>,
    cur: Option<(Seq<char>, Seq<ArgV>)>,
) -> Result<Seq<InstV>, AsmError>
    decreases t.len() - i,
{
    if i < 0 || i >= t.len() {
        Ok(close(acc, cur))
    } else {
        match cur {
            Some((name, args)) => match t[i] {
                TokV::Newline => parse_from(t, i + 1, close(acc, cur), None),
                TokV::Ident(w) => parse_from(t, i + 1, acc, Some((name, args.push(arg_of(w))))),
                TokV::Number(n) => parse_from(t, i + 1, acc, Some((name, args.push(ArgV::Imm(n))))),
                TokV::Comma => parse_from(t, i + 1, acc, cur),
                TokV::Colon => Err(AsmError::UnexpectedToken { position: i as usize }),
            },
            None => match t[i] {
                TokV::Ident(s) => if i + 1 < t.len() && t[i + 1] is Colon {
                    parse_from(t, i + 2, acc.push(InstV::Label(s)), None)
                } else {
                    parse_from(t, i + 1, acc, Some((s, Seq::empty())))
                },
                TokV::Newline => parse_from(t, i + 1, acc, None),
                _ => Err(AsmError::UnexpectedToken { position: i as usize }),
            },
        }
    }
}

/// The items that the tokens `t` spell.
pub open spec fn spec_parse(t: Seq<TokV>) -> Result<Seq<InstV>, AsmError> {
    parse_from(t, 0, Seq::empty(), None)
}

fn arg_from_word(w: &String) -> (r: Arg)
    ensures
        r@ == arg_of(w@),
{
    if reg_index(w.as_str()).is_some() {
        Arg::Reg(w.clone())
    } else if cap_index(w.as_str()).is_some() {
        Arg::Cap(w.clone())
    } else {
        Arg::Label(w.clone())
    }
}

/// Groups tokens into label definitions and operations.
pub fn parse(toks: &[Tok]) -> (r: Result<Vec<Inst>, AsmError>)
    ensures
        match r {
            Ok(v) => spec_parse(toks_view(toks@)) == Ok::<Seq<InstV>, AsmError>(insts_view(v@)),
            Err(e) => spec_parse(toks_view(toks@)) == Err::<Seq<InstV>, AsmError>(e),
        },
{
    let ghost t = toks_view(toks@);
    let n = toks.len();
    let mut out: Vec<Inst> = Vec::new();
    let mut in_op = false;
    let mut name = String::new();
    let mut args: Vec<Arg> = Vec::new();
    let mut i: usize = 0;
    assert(insts_view(out@) =~= Seq::<InstV>::empty());
    while i < n
        invariant
            n == toks@.len(),
            t == toks_view(toks@),
            i <= n,
            spec_parse(t) == parse_from(
                t,
                i as int,
                insts_view(out@),
                if in_op {
                    Some((name@, args_view(args@)))
                } else {
                    None
                },
            ),
        decreases n - i,
    {
        assert(t[i as int] == toks@[i as int]@);
        if in_op {
            match &toks[i] {
                Tok::Newline => {
                    let ghost before = insts_view(out@);
                    let ghost op = InstV::Op(name@, args_view(args@));
                    out.push(Inst::Op(name, args));
                    assert(insts_view(out@) =~= before.push(op));
                    in_op = false;
                    name = String::new();
                    args = Vec::new();
                },
                Tok::Ident(w) => {
                    let a = arg_from_word(w);
                    let ghost before = args_view(args@);
                    args.push(a);
                    assert(args_view(args@) =~= before.push(a@));
                },
                Tok::Number(v) => {
                    let ghost before = args_view(args@);
                    args.push(Arg::Imm(*v));
                    assert(args_view(args@) =~= before.push(ArgV::Imm(*v)));
                },
                Tok::Comma => {},
                Tok::Colon => {
                    return Err(AsmError::UnexpectedToken { position: i });
                },
            }
            i = i + 1;
        } else {
            match &toks[i] {
                Tok::Ident(s) => {
                    if i + 1 < n && matches!(toks[i + 1], Tok::Colon) {
                        assert(t[i + 1] == toks@[i + 1]@);
                        let ghost before = insts_view(out@);
                        out.push(Inst::Label(s.clone()));
                        assert(insts_view(out@) =~= before.push(InstV::Label(s@)));
                        i = i + 2;
                    } else {
                        in_op = true;
                        name = s.clone();
                        args = Vec::new();
                        assert(args_view(args@) =~= Seq::<ArgV>::empty());
                        i = i + 1;
                    }
                },
                Tok::Newline => {
                    i = i + 1;
                },
                _ => {
                    return Err(AsmError::UnexpectedToken { position: i });
                },
            }
        }
    }
    if in_op {
        let ghost before = insts_view(out@);
        let ghost op = InstV::Op(name@, args_view(args@));
        out.push(Inst::Op(name, args));
        assert(insts_view(out@) =~= before.push(op));
    }
    Ok(out)
}

} // verus!
