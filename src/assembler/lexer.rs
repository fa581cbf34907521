use vstd::prelude::*;

use crate::text::{parse_i64, spec_parse_i64};

verus! {

/// A token of assembly source.
#[derive(Clone, Debug)]
pub enum Tok {
    Ident(String),
    Number(i64),
    Colon,
    Comma,
    Newline,
}

/// What a token stands for, with its text as characters.
pub enum TokV {
    Ident(Seq<char>),
    Number(i64),
    Colon,
    Comma,
    Newline,
}

impl View for Tok {
    type V = TokV;

    open spec fn view(&self) -> TokV {
        match self {
            Tok::Ident(s) => TokV::Ident(s@),
            Tok::Number(n) => TokV::Number(*n),
            Tok::Colon => TokV::Colon,
            Tok::Comma => TokV::Comma,
            Tok::Newline => TokV::Newline,
        }
    }
}

/// The views of a token sequence.
pub open spec fn toks_view(s: Seq<Tok>) -> Seq<TokV> {
    s.map_values(|t: Tok| t@)
}

/// A word read as a token: a decimal number, a `0x`/`0X` hexadecimal number, or else an
/// identifier.
pub open spec fn token_of(w: Seq<char>) -> TokV {
    match spec_parse_i64(w, 10) {
        Some(n) => TokV::Number(n),
        None => if w.len() >= 2 && w[0] == '0' && (w[1] == 'x' || w[1] == 'X') {
            match spec_parse_i64(w.subrange(2, w.len() as int), 16) {
                Some(n) => TokV::Number(n),
                None => TokV::Ident(w),
            }
        } else {
            TokV::Ident(w)
        },
    }
}

/// Ends the word in progress, if any.
pub open spec fn flush(toks: Seq<TokV>, word: Seq<char>) -> Seq<TokV> {
    if word.len() == 0 {
        toks
    } else {
        toks.push(token_of(word))
    }
}

/// The lexer's state after one more character: tokens so far, the word in progress, and
/// whether a `;` comment runs to the end of the line.
pub open spec fn lex_step(st: (Seq<TokV>, Seq<char>, bool), ch: char) -> (Seq<TokV>, Seq<char>, bool) {
    let (toks, word, in_comment) = st;
    if in_comment {
        if ch == '\n' {
            (toks.push(TokV::Newline), word, false)
        } else {
            st
        }
    } else if ch == ';' {
        (flush(toks, word), Seq::empty(), true)
    } else if ch == ':' {
        (flush(toks, word).push(TokV::Colon), Seq::empty(), false)
    } else if ch == ',' {
        (flush(toks, word).push(TokV::Comma), Seq::empty(), false)
    } else if ch == '\n' {
        (flush(toks, word).push(TokV::Newline), Seq::empty(), false)
    } else if ch == ' ' || ch == '\t' || ch == '\r' {
        (flush(toks, word), Seq::empty(), false)
    } else {
        (toks, word.push(ch), false)
    }
}

/// The lexer's state after the characters of `s`.
pub open spec fn lex_prefix(s: Seq<char>) -> (Seq<TokV>, Seq<char>, bool)
    decreases s.len(),
{
    if s.len() == 0 {
        (Seq::empty(), Seq::empty(), false)
    } else {
        lex_step(lex_prefix(s.drop_last()), s.last())
    }
}

/// The tokens of `s`.
pub open spec fn spec_lex(s: Seq<char>) -> Seq<TokV> {
    let st = lex_prefix(s);
    flush(st.0, st.1)
}

fn parse_token(s: &str) -> (r: Tok)
    ensures
        r@ == token_of(s@),
{
    assert(s@.subrange(0, s@.len() as int) =~= s@);
    if let Some(n) = parse_i64(s, 0, 10) {
        return Tok::Number(n);
    }
    let n = s.unicode_len();
    if n >= 2 && s.get_char(0) == '0' && (s.get_char(1) == 'x' || s.get_char(1) == 'X') {
        if let Some(v) = parse_i64(s, 2, 16) {
            return Tok::Number(v);
        }
    }
    Tok::Ident(String::from_str(s))
}

/// Pushes the token for `src[start..end]`, if that word is not empty.
fn flush_word(toks: &mut Vec<Tok>, src: &str, start: usize, end: usize)
    requires
        start <= end <= src@.len(),
    ensures
        toks_view(final(toks)@) == flush(
            toks_view(old(toks)@),
            src@.subrange(start as int, end as int),
        ),
{
    if start < end {
        let w = src.substring_char(start, end);
        let t = parse_token(w);
        toks.push(t);
        assert(toks_view(toks@) =~= toks_view(old(toks)@).push(t@));
    }
}

/// Splits assembly source into tokens.
pub fn lex(src: &str) -> (r: Result<Vec<Tok>, String>)
    ensures
        r is Ok,
        r matches Ok(v) && toks_view(v@) == spec_lex(src@),
{
    let n = src.unicode_len();
    let mut toks: Vec<Tok> = Vec::new();
    let mut start: usize = 0;
    let mut in_comment = false;
    let mut i: usize = 0;
    while i < n
        invariant
            n == src@.len(),
            start <= i <= n,
            lex_prefix(src@.subrange(0, i as int)) == (
                toks_view(toks@),
                src@.subrange(start as int, i as int),
                in_comment,
            ),
        decreases n - i,
    {
        let ch = src.get_char(i);
        let ghost before = src@.subrange(0, i as int);
        assert(src@.subrange(0, i + 1).drop_last() =~= before);
        let ghost word = src@.subrange(start as int, i as int);
        if in_comment {
            if ch == '\n' {
                in_comment = false;
                toks.push(Tok::Newline);
                assert(toks_view(toks@) =~= lex_prefix(before).0.push(TokV::Newline));
                start = i + 1;
                assert(src@.subrange(start as int, i + 1) =~= Seq::<char>::empty());
                assert(word =~= Seq::<char>::empty()) by {
                    lemma_comment_word_empty(before);
                }
            } else {
                start = i + 1;
                assert(src@.subrange(start as int, i + 1) =~= Seq::<char>::empty());
                assert(word =~= Seq::<char>::empty()) by {
                    lemma_comment_word_empty(before);
                }
            }
        } else if ch == ';' || ch == ':' || ch == ',' || ch == '\n' || ch == ' ' || ch == '\t'
            || ch == '\r' {
            flush_word(&mut toks, src, start, i);
            if ch == ':' {
                toks.push(Tok::Colon);
            } else if ch == ',' {
                toks.push(Tok::Comma);
            } else if ch == '\n' {
                toks.push(Tok::Newline);
            }
            proof {
                let pre = flush(lex_prefix(before).0, word);
                if ch == ':' {
                    assert(toks_view(toks@) =~= pre.push(TokV::Colon));
                } else if ch == ',' {
                    assert(toks_view(toks@) =~= pre.push(TokV::Comma));
                } else if ch == '\n' {
                    assert(toks_view(toks@) =~= pre.push(TokV::Newline));
                }
            }
            in_comment = ch == ';';
            start = i + 1;
            assert(src@.subrange(start as int, i + 1) =~= Seq::<char>::empty());
        } else {
            assert(src@.subrange(start as int, i + 1) =~= word.push(ch));
        }
        i = i + 1;
    }
    assert(src@.subrange(0, n as int) =~= src@);
    flush_word(&mut toks, src, start, n);
    Ok(toks)
}

/// Inside a comment no word is in progress.
proof fn lemma_comment_word_empty(s: Seq<char>)
    ensures
        lex_prefix(s).2 ==> lex_prefix(s).1.len() == 0,
    decreases s.len(),
{
    if s.len() > 0 {
        lemma_comment_word_empty(s.drop_last());
    }
}

} // verus!
