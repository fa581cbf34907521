use vstd::prelude::*;

use crate::compiler::ast::CompileError;
use crate::text::{parse_i64, spec_parse_i64};

verus! {

/// A token of the source language.
#[derive(Clone, Debug, PartialEq)]
pub enum Token {
    Fn,
    Let,
    Return,
    Arrow,
    Ident(String),
    Number(i64),
    LParen,
    RParen,
    LBrace,
    RBrace,
    Colon,
    Equals,
    Plus,
    Minus,
    Star,
    Slash,
    Newline,
}

pub enum TokenV {
    Fn,
    Let,
    Return,
    Arrow,
    Ident(Seq<char>),
    Number(i64),
    LParen,
    RParen,
    LBrace,
    RBrace,
    Colon,
    Equals,
    Plus,
    Minus,
    Star,
    Slash,
    Newline,
}

impl View for Token {
    type V = TokenV;

    open spec fn view(&self) -> TokenV {
        match self {
            Token::Fn => TokenV::Fn,
            Token::Let => TokenV::Let,
            Token::Return => TokenV::Return,
            Token::Arrow => TokenV::Arrow,
            Token::Ident(s) => TokenV::Ident(s@),
            Token::Number(n) => TokenV::Number(*n),
            Token::LParen => TokenV::LParen,
            Token::RParen => TokenV::RParen,
            Token::LBrace => TokenV::LBrace,
            Token::RBrace => TokenV::RBrace,
            Token::Colon => TokenV::Colon,
            Token::Equals => TokenV::Equals,
            Token::Plus => TokenV::Plus,
            Token::Minus => TokenV::Minus,
            Token::Star => TokenV::Star,
            Token::Slash => TokenV::Slash,
            Token::Newline => TokenV::Newline,
        }
    }
}

pub open spec fn tokens_view(s: Seq<Token>) -> Seq<TokenV> {
    s.map_values(|t: Token| t@)
}

/// Whether Unicode counts `c` as numeric.
pub uninterp spec fn numeric_char(c: char) -> bool;

/// Whether Unicode counts `c` as alphabetic or numeric.
pub uninterp spec fn alphanumeric_char(c: char) -> bool;

/// Relies on `char::is_numeric`: true for characters of Unicode's number categories; among
/// ASCII characters, exactly the digits.
#[verifier::external_body]
fn is_numeric(c: char) -> (r: bool)
    ensures
        r == numeric_char(c),
        (c as u32) < 128 ==> (r == ('0' <= c <= '9')),
{
    c.is_numeric()
}

/// Relies on `char::is_alphanumeric`: true for alphabetic or numeric characters; among ASCII
/// characters, exactly the letters and digits.
#[verifier::external_body]
fn is_alphanumeric(c: char) -> (r: bool)
    ensures
        r == alphanumeric_char(c),
        (c as u32) < 128 ==> (r == (('0' <= c <= '9') || ('a' <= c <= 'z') || ('A' <= c
            <= 'Z'))),
{
    c.is_alphanumeric()
}

/// Whether `c` may continue an identifier.
pub open spec fn word_char(c: char) -> bool {
    alphanumeric_char(c) || c == '_'
}

fn is_word_char(c: char) -> (r: bool)
    ensures
        r == word_char(c),
{
    is_alphanumeric(c) || c == '_'
}

/// The end of the run of numeric characters that starts at `j`.
pub open spec fn numeric_end(s: Seq<char>, j: int) -> int
    decreases s.len() - j,
{
    if 0 <= j < s.len() && numeric_char(s[j]) {
        numeric_end(s, j + 1)
    } else {
        j
    }
}

/// The end of the run of identifier characters that starts at `j`.
pub open spec fn word_end(s: Seq<char>, j: int) -> int
    decreases s.len() - j,
{
    if 0 <= j < s.len() && word_char(s[j]) {
        word_end(s, j + 1)
    } else {
        j
    }
}

/// A word read as a keyword or an identifier.
pub open spec fn keyword_of(w: Seq<char>) -> TokenV {
    if w == "fn"@ {
        TokenV::Fn
    } else if w == "let"@ {
        TokenV::Let
    } else if w == "return"@ {
        TokenV::Return
    } else {
        TokenV::Ident(w)
    }
}

/// The token that a one-character symbol stands for.
pub open spec fn symbol_of(c: char) -> Option<TokenV> {
    if c == '\n' {
        Some(TokenV::Newline)
    } else if c == '(' {
        Some(TokenV::LParen)
    } else if c == ')' {
        Some(TokenV::RParen)
    } else if c == '{' {
        Some(TokenV::LBrace)
    } else if c == '}' {
        Some(TokenV::RBrace)
    } else if c == ':' {
        Some(TokenV::Colon)
    } else if c == '=' {
        Some(TokenV::Equals)
    } else if c == '+' {
        Some(TokenV::Plus)
    } else if c == '*' {
        Some(TokenV::Star)
    } else if c == '/' {
        Some(TokenV::Slash)
    } else {
        None
    }
}

/// The tokens of `s` from position `i` on, after the tokens `acc`.
pub open spec fn lex_from(s: Seq<char>, i: int, acc: Seq<TokenV>) -> Result<Seq<TokenV>, CompileError>
    decreases s.len() - i,
{
    if i < 0 || i >= s.len() {
        Ok(acc)
    } else {
        let c = s[i];
        if c == ' ' || c == '\t' || c == '\r' {
            lex_from(s, i + 1, acc)
        } else if symbol_of(c) is Some {
            lex_from(s, i + 1, acc.push(symbol_of(c)->0))
        } else if c == '-' {
            if i + 1 < s.len() && s[i + 1] == '>' {
                lex_from(s, i + 2, acc.push(TokenV::Arrow))
            } else {
                lex_from(s, i + 1, acc.push(TokenV::Minus))
            }
        } else if '0' <= c <= '9' {
            let j = numeric_end(s, i + 1);
            if j <= i || j > s.len() {
                Ok(acc)
            } else {
                match spec_parse_i64(s.subrange(i, j), 10) {
                    Some(n) => lex_from(s, j, acc.push(TokenV::Number(n))),
                    None => Err(CompileError::BadNumber { position: i as usize }),
                }
            }
        } else if ('a' <= c <= 'z') || ('A' <= c <= 'Z') || c == '_' {
            let j = word_end(s, i + 1);
            if j <= i || j > s.len() {
                Ok(acc)
            } else {
                lex_from(s, j, acc.push(keyword_of(s.subrange(i, j))))
            }
        } else {
            Err(CompileError::UnexpectedChar { position: i as usize })
        }
    }
}

pub open spec fn spec_lex(s: Seq<char>) -> Result<Seq<TokenV>, CompileError> {
    lex_from(s, 0, Seq::empty())
}

proof fn lemma_numeric_end(s: Seq<char>, j: int)
    requires
        0 <= j <= s.len(),
    ensures
        j <= numeric_end(s, j) <= s.len(),
    decreases s.len() - j,
{
    if j < s.len() && numeric_char(s[j]) {
        lemma_numeric_end(s, j + 1);
    }
}

proof fn lemma_word_end(s: Seq<char>, j: int)
    requires
        0 <= j <= s.len(),
    ensures
        j <= word_end(s, j) <= s.len(),
    decreases s.len() - j,
{
    if j < s.len() && word_char(s[j]) {
        lemma_word_end(s, j + 1);
    }
}

fn symbol(c: char) -> (r: Option<Token>)
    ensures
        match symbol_of(c) {
            Some(t) => r matches Some(x) && x@ == t,
            None => r is None,
        },
{
    if c == '\n' {
        Some(Token::Newline)
    } else if c == '(' {
        Some(Token::LParen)
    } else if c == ')' {
        Some(Token::RParen)
    } else if c == '{' {
        Some(Token::LBrace)
    } else if c == '}' {
        Some(Token::RBrace)
    } else if c == ':' {
        Some(Token::Colon)
    } else if c == '=' {
        Some(Token::Equals)
    } else if c == '+' {
        Some(Token::Plus)
    } else if c == '*' {
        Some(Token::Star)
    } else if c == '/' {
        Some(Token::Slash)
    } else {
        None
    }
}

fn keyword(w: &str) -> (r: Token)
    ensures
        r@ == keyword_of(w@),
{
    if crate::text::str_eq(w, "fn") {
        Token::Fn
    } else if crate::text::str_eq(w, "let") {
        Token::Let
    } else if crate::text::str_eq(w, "return") {
        Token::Return
    } else {
        Token::Ident(String::from_str(w))
    }
}

/// Splits source text into tokens.
pub fn lex(src: &str) -> (r: Result<Vec<Token>, CompileError>)
    ensures
        match spec_lex(src@) {
            Ok(t) => r matches Ok(v) && tokens_view(v@) == t,
            Err(e) => r == Err::<Vec<Token>, CompileError>(e),
        },
{
    let ghost s = src@;
    let n = src.unicode_len();
    let mut tokens: Vec<Token> = Vec::new();
    let mut i: usize = 0;
    assert(tokens_view(tokens@) =~= Seq::<TokenV>::empty());
    while i < n
        invariant
            s == src@,
            n == s.len(),
            i <= n,
            spec_lex(s) == lex_from(s, i as int, tokens_view(tokens@)),
        decreases n - i,
    {
        let c = src.get_char(i);
        let ghost before = tokens_view(tokens@);
        if c == ' ' || c == '\t' || c == '\r' {
            i = i + 1;
        } else if let Some(t) = symbol(c) {
            tokens.push(t);
            assert(tokens_view(tokens@) =~= before.push(t@));
            i = i + 1;
        } else if c == '-' {
            if i + 1 < n && src.get_char(i + 1) == '>' {
                tokens.push(Token::Arrow);
                assert(tokens_view(tokens@) =~= before.push(TokenV::Arrow));
                i = i + 2;
            } else {
                tokens.push(Token::Minus);
                assert(tokens_view(tokens@) =~= before.push(TokenV::Minus));
                i = i + 1;
            }
        } else if '0' <= c && c <= '9' {
            let mut j = i + 1;
            proof {
                lemma_numeric_end(s, i + 1);
            }
            while j < n && is_numeric(src.get_char(j))
                invariant
                    s == src@,
                    n == s.len(),
                    i < j <= n,
                    numeric_end(s, i + 1) == numeric_end(s, j as int),
                decreases n - j,
            {
                j = j + 1;
            }
            let run = src.substring_char(i, j);
            assert(run@.subrange(0, run@.len() as int) =~= run@);
            match parse_i64(run, 0, 10) {
                Some(v) => {
                    tokens.push(Token::Number(v));
                    assert(tokens_view(tokens@) =~= before.push(TokenV::Number(v)));
                },
                None => {
                    return Err(CompileError::BadNumber { position: i });
                },
            }
            i = j;
        } else if ('a' <= c && c <= 'z') || ('A' <= c && c <= 'Z') || c == '_' {
            let mut j = i + 1;
            proof {
                lemma_word_end(s, i + 1);
            }
            while j < n && is_word_char(src.get_char(j))
                invariant
                    s == src@,
                    n == s.len(),
                    i < j <= n,
                    word_end(s, i + 1) == word_end(s, j as int),
                decreases n - j,
            {
                j = j + 1;
            }
            let w = src.substring_char(i, j);
            let t = keyword(w);
            tokens.push(t);
            assert(tokens_view(tokens@) =~= before.push(t@));
            i = j;
        } else {
            return Err(CompileError::UnexpectedChar { position: i });
        }
    }
    Ok(tokens)
}

} // verus!
