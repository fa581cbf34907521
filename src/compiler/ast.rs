use vstd::prelude::*;

verus! {

#[derive(Clone, Debug)]
pub struct Program {
    pub functions: Vec<Function>,
}

#[derive(Clone, Debug)]
pub struct Function {
    pub name: String,
    pub ret_type: String,
    pub body: Vec<Stmt>,
}

#[derive(Clone, Debug)]
pub enum Stmt {
    Let(String, Expr),
    Return(Expr),
}

#[derive(Debug)]
pub enum Expr {
    Var(String),
    Num(i64),
    BinOp(Box<Expr>, Op, Box<Expr>),
}

impl Clone for Expr {
    fn clone(&self) -> (r: Expr)
        ensures
            r == *self,
        decreases self,
    {
        match self {
            Expr::Var(s) => Expr::Var(s.clone()),
            Expr::Num(n) => Expr::Num(*n),
            Expr::BinOp(l, op, r) => {
                let l2 = (**l).clone();
                let r2 = (**r).clone();
                Expr::BinOp(Box::new(l2), *op, Box::new(r2))
            },
        }
    }
}

#[derive(Clone, Copy, Debug, PartialEq, Eq, Structural)]
pub enum Op {
    Add,
    Sub,
    Mul,
    Div,
}

/// Why compilation failed.
#[derive(Clone, Copy, Debug, PartialEq, Eq, Structural)]
pub enum CompileError {
    /// A character that starts no token, at this character position.
    UnexpectedChar { position: usize },
    /// A number literal that is not a 64-bit decimal integer, at this character position.
    BadNumber { position: usize },
    /// A token that cannot stand here, at this token position (the token count at the end).
    UnexpectedToken { position: usize },
    /// A variable used before any `let` defines it.
    UndefinedVariable,
    /// More temporaries than the registers `r2`..`r14` can hold.
    TooManyTemporaries,
    /// A constant outside the 4-bit immediate range -8..7.
    ImmediateOutOfRange,
    /// An operand with no register assigned.
    Unallocated,
}

} // verus!

verus! {

pub enum ExprV {
    Var(Seq<char>),
    Num(i64),
    BinOp(Box<ExprV>, Op, Box<ExprV>),
}

pub enum StmtV {
    Let(Seq<char>, ExprV),
    Return(ExprV),
}

pub struct FunctionV {
    pub name: Seq<char>,
    pub ret_type: Seq<char>,
    pub body: Seq<StmtV>,
}

pub open spec fn expr_view(e: Expr) -> ExprV
    decreases e,
{
    match e {
        Expr::Var(s) => ExprV::Var(s@),
        Expr::Num(n) => ExprV::Num(n),
        Expr::BinOp(l, op, r) => ExprV::BinOp(Box::new(expr_view(*l)), op, Box::new(expr_view(*r))),
    }
}

pub open spec fn stmt_view(s: Stmt) -> StmtV {
    match s {
        Stmt::Let(name, e) => StmtV::Let(name@, expr_view(e)),
        Stmt::Return(e) => StmtV::Return(expr_view(e)),
    }
}

pub open spec fn function_view(f: Function) -> FunctionV {
    FunctionV {
        name: f.name@,
        ret_type: f.ret_type@,
        body: f.body@.map_values(|s: Stmt| stmt_view(s)),
    }
}

} // verus!
