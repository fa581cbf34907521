use vstd::prelude::*;

use crate::compiler::ast::{
    CompileError, Expr, ExprV, Function, FunctionV, Op, Program, Stmt, StmtV, expr_view,
    function_view, stmt_view,
};
use crate::compiler::lexer::{Token, TokenV, tokens_view};

verus! {

pub open spec fn tok_err(i: int) -> CompileError {
    CompileError::UnexpectedToken { position: i as usize }
}

/// A variable or a number at position `i`.
pub open spec fn spec_primary(t: Seq<TokenV>, i: int) -> Result<(ExprV, int), CompileError> {
    if 0 <= i < t.len() {
        match t[i] {
            TokenV::Ident(s) => Ok((ExprV::Var(s), i + 1)),
            TokenV::Number(n) => Ok((ExprV::Num(n), i + 1)),
            _ => Err(tok_err(i)),
        }
    } else {
        Err(tok_err(i))
    }
}

pub open spec fn op_of(t: TokenV) -> Option<Op> {
    match t {
        TokenV::Plus => Some(Op::Add),
        TokenV::Minus => Some(Op::Sub),
        TokenV::Star => Some(Op::Mul),
        TokenV::Slash => Some(Op::Div),
        _ => None,
    }
}

/// The operators and operands that follow `left` from position `i`, grouped from the left
/// with no precedence.
pub open spec fn spec_expr_rest(t: Seq<TokenV>, i: int, left: ExprV) -> Result<(ExprV, int), CompileError>
    decreases t.len() - i,
{
    if 0 <= i < t.len() && op_of(t[i]) is Some {
        match spec_primary(t, i + 1) {
            Err(e) => Err(e),
            Ok((r, j)) => if j <= i || j > t.len() {
                Err(tok_err(i))
            } else {
                spec_expr_rest(t, j, ExprV::BinOp(Box::new(left), op_of(t[i])->0, Box::new(r)))
            },
        }
    } else {
        Ok((left, i))
    }
}

/// An expression at position `i`, and the position after it.
pub open spec fn spec_expr(t: Seq<TokenV>, i: int) -> Result<(ExprV, int), CompileError> {
    match spec_primary(t, i) {
        Err(e) => Err(e),
        Ok((l, j)) => spec_expr_rest(t, j, l),
    }
}

/// The position after the token `tok` expected at `i`.
pub open spec fn spec_expect(t: Seq<TokenV>, i: int, tok: TokenV) -> Result<int, CompileError> {
    if 0 <= i < t.len() && t[i] == tok {
        Ok(i + 1)
    } else {
        Err(tok_err(i))
    }
}

/// A `let NAME = EXPR` or `return EXPR` statement at position `i`.
pub open spec fn spec_stmt(t: Seq<TokenV>, i: int) -> Result<(StmtV, int), CompileError> {
    if !(0 <= i < t.len()) {
        Err(tok_err(i))
    } else {
        match t[i] {
            TokenV::Let => if i + 1 < t.len() && t[i + 1] is Ident {
                match spec_expect(t, i + 2, TokenV::Equals) {
                    Err(e) => Err(e),
                    Ok(j) => match spec_expr(t, j) {
                        Err(e) => Err(e),
                        Ok((e, k)) => Ok((StmtV::Let(t[i + 1]->Ident_0, e), k)),
                    },
                }
            } else {
                Err(tok_err(i + 1))
            },
            TokenV::Return => match spec_expr(t, i + 1) {
                Err(e) => Err(e),
                Ok((e, k)) => Ok((StmtV::Return(e), k)),
            },
            _ => Err(tok_err(i)),
        }
    }
}

/// Statements from position `i` up to the closing brace, after the statements `acc`.
pub open spec fn spec_body(t: Seq<TokenV>, i: int, acc: Seq<StmtV>) -> Result<(Seq<StmtV>, int), CompileError>
    decreases t.len() - i,
{
    if !(0 <= i < t.len()) {
        Err(tok_err(i))
    } else if t[i] is RBrace {
        Ok((acc, i + 1))
    } else if t[i] is Newline {
        spec_body(t, i + 1, acc)
    } else {
        match spec_stmt(t, i) {
            Err(e) => Err(e),
            Ok((s, j)) => if j <= i || j > t.len() {
                Err(tok_err(i))
            } else {
                spec_body(t, j, acc.push(s))
            },
        }
    }
}

/// `fn NAME ( ) -> TYPE { BODY }` at position `i`, where `t[i]` is `fn`.
pub open spec fn spec_function(t: Seq<TokenV>, i: int) -> Result<(FunctionV, int), CompileError> {
    if !(i + 1 < t.len() && t[i + 1] is Ident) {
        Err(tok_err(i + 1))
    } else if spec_expect(t, i + 2, TokenV::LParen) is Err {
        Err(tok_err(i + 2))
    } else if spec_expect(t, i + 3, TokenV::RParen) is Err {
        Err(tok_err(i + 3))
    } else if spec_expect(t, i + 4, TokenV::Arrow) is Err {
        Err(tok_err(i + 4))
    } else if !(i + 5 < t.len() && t[i + 5] is Ident) {
        Err(tok_err(i + 5))
    } else if spec_expect(t, i + 6, TokenV::LBrace) is Err {
        Err(tok_err(i + 6))
    } else {
        match spec_body(t, i + 7, Seq::empty()) {
            Err(e) => Err(e),
            Ok((body, k)) => Ok(
                (FunctionV { name: t[i + 1]->Ident_0, ret_type: t[i + 5]->Ident_0, body }, k),
            ),
        }
    }
}

/// Functions from position `i` on, after the functions `acc`; blank lines are skipped.
pub open spec fn spec_program(t: Seq<TokenV>, i: int, acc: Seq<FunctionV>) -> Result<
    Seq<FunctionV>,
    CompileError,
>
    decreases t.len() - i,
{
    if !(0 <= i < t.len()) {
        Ok(acc)
    } else if t[i] is Newline {
        spec_program(t, i + 1, acc)
    } else if t[i] is Fn {
        match spec_function(t, i) {
            Err(e) => Err(e),
            Ok((f, j)) => if j <= i || j > t.len() {
                Err(tok_err(i))
            } else {
                spec_program(t, j, acc.push(f))
            },
        }
    } else {
        Err(tok_err(i))
    }
}

pub open spec fn spec_parse(t: Seq<TokenV>) -> Result<Seq<FunctionV>, CompileError> {
    spec_program(t, 0, Seq::empty())
}

fn is_token(tokens: &[Token], i: usize, tok: &Token) -> (r: bool)
    ensures
        r == (i < tokens@.len() && tokens_view(tokens@)[i as int] == tok@),
{
    if i >= tokens.len() {
        return false;
    }
    assert(tokens_view(tokens@)[i as int] == tokens@[i as int]@);
    match (&tokens[i], tok) {
        (Token::Fn, Token::Fn) => true,
        (Token::Let, Token::Let) => true,
        (Token::Return, Token::Return) => true,
        (Token::Arrow, Token::Arrow) => true,
        (Token::LParen, Token::LParen) => true,
        (Token::RParen, Token::RParen) => true,
        (Token::LBrace, Token::LBrace) => true,
        (Token::RBrace, Token::RBrace) => true,
        (Token::Colon, Token::Colon) => true,
        (Token::Equals, Token::Equals) => true,
        (Token::Plus, Token::Plus) => true,
        (Token::Minus, Token::Minus) => true,
        (Token::Star, Token::Star) => true,
        (Token::Slash, Token::Slash) => true,
        (Token::Newline, Token::Newline) => true,
        (Token::Number(a), Token::Number(b)) => *a == *b,
        (Token::Ident(a), Token::Ident(b)) => crate::text::str_eq(a.as_str(), b.as_str()),
        _ => false,
    }
}

/// Steps past the token `tok`, which must come next.
fn expect(tokens: &[Token], i: &mut usize, tok: Token) -> (r: Result<(), CompileError>)
    requires
        *old(i) <= tokens@.len(),
    ensures
        match spec_expect(tokens_view(tokens@), *old(i) as int, tok@) {
            Ok(j) => r is Ok && *final(i) == j,
            Err(e) => r == Err::<(), CompileError>(e),
        },
{
    let n = tokens.len();
    if is_token(tokens, *i, &tok) {
        assert(*i < n);
        *i = *i + 1;
        Ok(())
    } else {
        Err(CompileError::UnexpectedToken { position: *i })
    }
}

/// The identifier at position `i`, if there is one.
fn ident_at(tokens: &[Token], i: usize) -> (r: Option<String>)
    ensures
        match r {
            Some(s) => i < tokens@.len() && tokens_view(tokens@)[i as int] == TokenV::Ident(s@),
            None => !(i < tokens@.len() && tokens_view(tokens@)[i as int] is Ident),
        },
{
    if i >= tokens.len() {
        return None;
    }
    assert(tokens_view(tokens@)[i as int] == tokens@[i as int]@);
    match &tokens[i] {
        Token::Ident(s) => Some(s.clone()),
        _ => None,
    }
}

fn parse_primary(tokens: &[Token], i: &mut usize) -> (r: Result<Expr, CompileError>)
    requires
        *old(i) <= tokens@.len(),
    ensures
        match spec_primary(tokens_view(tokens@), *old(i) as int) {
            Ok((e, j)) => r matches Ok(x) && expr_view(x) == e && *final(i) == j,
            Err(e) => r == Err::<Expr, CompileError>(e),
        },
{
    if *i >= tokens.len() {
        return Err(CompileError::UnexpectedToken { position: *i });
    }
    assert(tokens_view(tokens@)[*i as int] == tokens@[*i as int]@);
    match &tokens[*i] {
        Token::Ident(s) => {
            let name = s.clone();
            *i = *i + 1;
            Ok(Expr::Var(name))
        },
        Token::Number(n) => {
            let val = *n;
            *i = *i + 1;
            Ok(Expr::Num(val))
        },
        _ => Err(CompileError::UnexpectedToken { position: *i }),
    }
}

fn operator_at(tokens: &[Token], i: usize) -> (r: Option<Op>)
    requires
        i < tokens@.len(),
    ensures
        r == op_of(tokens_view(tokens@)[i as int]),
{
    assert(tokens_view(tokens@)[i as int] == tokens@[i as int]@);
    match &tokens[i] {
        Token::Plus => Some(Op::Add),
        Token::Minus => Some(Op::Sub),
        Token::Star => Some(Op::Mul),
        Token::Slash => Some(Op::Div),
        _ => None,
    }
}

fn parse_expr(tokens: &[Token], i: &mut usize) -> (r: Result<Expr, CompileError>)
    requires
        *old(i) <= tokens@.len(),
    ensures
        match spec_expr(tokens_view(tokens@), *old(i) as int) {
            Ok((e, j)) => r matches Ok(x) && expr_view(x) == e && *final(i) == j,
            Err(e) => r == Err::<Expr, CompileError>(e),
        },
{
    let ghost t = tokens_view(tokens@);
    let mut left = parse_primary(tokens, i)?;
    loop
        invariant
            t == tokens_view(tokens@),
            *i <= tokens@.len(),
            spec_expr(t, *old(i) as int) == spec_expr_rest(t, *i as int, expr_view(left)),
        decreases tokens@.len() - *i,
    {
        if *i >= tokens.len() {
            return Ok(left);
        }
        let op = match operator_at(tokens, *i) {
            Some(o) => o,
            None => {
                return Ok(left);
            },
        };
        let ghost at = *i as int;
        let ghost lv = expr_view(left);
        *i = *i + 1;
        let right = parse_primary(tokens, i)?;
        left = Expr::BinOp(Box::new(left), op, Box::new(right));
        assert(expr_view(left) == ExprV::BinOp(Box::new(lv), op, Box::new(expr_view(right))));
    }
}

fn parse_stmt(tokens: &[Token], i: &mut usize) -> (r: Result<Stmt, CompileError>)
    requires
        *old(i) <= tokens@.len(),
    ensures
        match spec_stmt(tokens_view(tokens@), *old(i) as int) {
            Ok((s, j)) => r matches Ok(x) && stmt_view(x) == s && *final(i) == j,
            Err(e) => r == Err::<Stmt, CompileError>(e),
        },
{
    if *i >= tokens.len() {
        return Err(CompileError::UnexpectedToken { position: *i });
    }
    assert(tokens_view(tokens@)[*i as int] == tokens@[*i as int]@);
    match &tokens[*i] {
        Token::Let => {
            let name = match ident_at(tokens, *i + 1) {
                Some(s) => s,
                None => {
                    return Err(CompileError::UnexpectedToken { position: *i + 1 });
                },
            };
            *i = *i + 2;
            expect(tokens, i, Token::Equals)?;
            let expr = parse_expr(tokens, i)?;
            Ok(Stmt::Let(name, expr))
        },
        Token::Return => {
            *i = *i + 1;
            let expr = parse_expr(tokens, i)?;
            Ok(Stmt::Return(expr))
        },
        _ => Err(CompileError::UnexpectedToken { position: *i }),
    }
}

pub open spec fn stmts_view(s: Seq<Stmt>) -> Seq<StmtV> {
    s.map_values(|x: Stmt| stmt_view(x))
}

fn parse_function(tokens: &[Token], i: &mut usize) -> (r: Result<Function, CompileError>)
    requires
        *old(i) < tokens@.len(),
    ensures
        match spec_function(tokens_view(tokens@), *old(i) as int) {
            Ok((f, j)) => r matches Ok(x) && function_view(x) == f && *final(i) == j,
            Err(e) => r == Err::<Function, CompileError>(e),
        },
{
    let ghost t = tokens_view(tokens@);
    let ghost at = *i as int;
    let n = tokens.len();
    *i = *i + 1;
    let name = match ident_at(tokens, *i) {
        Some(s) => s,
        None => {
            return Err(CompileError::UnexpectedToken { position: *i });
        },
    };
    assert(*i < n);
    *i = *i + 1;
    expect(tokens, i, Token::LParen)?;
    expect(tokens, i, Token::RParen)?;
    expect(tokens, i, Token::Arrow)?;
    let ret_type = match ident_at(tokens, *i) {
        Some(s) => s,
        None => {
            return Err(CompileError::UnexpectedToken { position: *i });
        },
    };
    assert(*i < n);
    *i = *i + 1;
    expect(tokens, i, Token::LBrace)?;
    let mut body: Vec<Stmt> = Vec::new();
    assert(stmts_view(body@) =~= Seq::<StmtV>::empty());
    loop
        invariant
            t == tokens_view(tokens@),
            *i <= tokens@.len(),
            spec_body(t, at + 7, Seq::empty()) == spec_body(t, *i as int, stmts_view(body@)),
            at == *old(i) as int,
            spec_function(t, at) == match spec_body(t, at + 7, Seq::empty()) {
                Err(e) => Err(e),
                Ok((b, k)) => Ok::<(FunctionV, int), CompileError>(
                    (FunctionV { name: name@, ret_type: ret_type@, body: b }, k),
                ),
            },
        decreases tokens@.len() - *i,
    {
        if *i >= tokens.len() {
            return Err(CompileError::UnexpectedToken { position: *i });
        }
        if is_token(tokens, *i, &Token::RBrace) {
            *i = *i + 1;
            let f = Function { name, ret_type, body };
            assert(function_view(f).body =~= stmts_view(f.body@));
            return Ok(f);
        }
        if is_token(tokens, *i, &Token::Newline) {
            *i = *i + 1;
            continue;
        }
        let ghost before = *i as int;
        let stmt = parse_stmt(tokens, i)?;
        assert(before < *i <= tokens@.len()) by {
            lemma_stmt_advances(t, before);
        }
        let ghost bv = stmts_view(body@);
        body.push(stmt);
        assert(stmts_view(body@) =~= bv.push(stmt_view(stmt)));
    }
}

/// Groups tokens into functions.
pub fn parse(tokens: &[Token]) -> (r: Result<Program, CompileError>)
    ensures
        match spec_parse(tokens_view(tokens@)) {
            Ok(fs) => r matches Ok(p) && p.functions@.map_values(|f: Function| function_view(f))
                == fs,
            Err(e) => r == Err::<Program, CompileError>(e),
        },
{
    let ghost t = tokens_view(tokens@);
    let mut i: usize = 0;
    let mut functions: Vec<Function> = Vec::new();
    assert(functions@.map_values(|f: Function| function_view(f)) =~= Seq::<FunctionV>::empty());
    while i < tokens.len()
        invariant
            t == tokens_view(tokens@),
            i <= tokens@.len(),
            spec_parse(t) == spec_program(
                t,
                i as int,
                functions@.map_values(|f: Function| function_view(f)),
            ),
        decreases tokens@.len() - i,
    {
        if is_token(tokens, i, &Token::Newline) {
            i = i + 1;
            continue;
        }
        if is_token(tokens, i, &Token::Fn) {
            let ghost before = i as int;
            let func = parse_function(tokens, &mut i)?;
            assert(before < i <= tokens@.len()) by {
                lemma_function_advances(t, before);
            }
            let ghost fv = functions@.map_values(|f: Function| function_view(f));
            functions.push(func);
            assert(functions@.map_values(|f: Function| function_view(f)) =~= fv.push(
                function_view(func),
            ));
        } else {
            return Err(CompileError::UnexpectedToken { position: i });
        }
    }
    Ok(Program { functions })
}

proof fn lemma_expr_rest_advances(t: Seq<TokenV>, i: int, left: ExprV)
    requires
        i <= t.len(),
    ensures
        spec_expr_rest(t, i, left) matches Ok((_, j)) ==> i <= j <= t.len(),
    decreases t.len() - i,
{
    if 0 <= i < t.len() && op_of(t[i]) is Some {
        if let Ok((r, j)) = spec_primary(t, i + 1) {
            if !(j <= i || j > t.len()) {
                lemma_expr_rest_advances(
                    t,
                    j,
                    ExprV::BinOp(Box::new(left), op_of(t[i])->0, Box::new(r)),
                );
            }
        }
    }
}

proof fn lemma_stmt_advances(t: Seq<TokenV>, i: int)
    ensures
        spec_stmt(t, i) matches Ok((_, j)) ==> i < j <= t.len(),
{
    if 0 <= i < t.len() {
        if let Ok((l, j)) = spec_primary(t, i + 1) {
            lemma_expr_rest_advances(t, j, l);
        }
        if let Ok((l, j)) = spec_primary(t, i + 3) {
            lemma_expr_rest_advances(t, j, l);
        }
    }
}

proof fn lemma_body_advances(t: Seq<TokenV>, i: int, acc: Seq<StmtV>)
    ensures
        spec_body(t, i, acc) matches Ok((_, j)) ==> i < j <= t.len(),
    decreases t.len() - i,
{
    if 0 <= i < t.len() && !(t[i] is RBrace) {
        if t[i] is Newline {
            lemma_body_advances(t, i + 1, acc);
        } else if let Ok((s, j)) = spec_stmt(t, i) {
            if !(j <= i || j > t.len()) {
                lemma_body_advances(t, j, acc.push(s));
            }
        }
    }
}

proof fn lemma_function_advances(t: Seq<TokenV>, i: int)
    ensures
        spec_function(t, i) matches Ok((_, j)) ==> i < j <= t.len(),
{
    lemma_body_advances(t, i + 7, Seq::empty());
}

} // verus!
