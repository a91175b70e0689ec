//! Tokenizing the source text.

use vstd::prelude::*;
use vstd::string::*;

verus! {

/// One token of the source language.
///
/// Eight characters are instructions; `;` opens a comment that runs to the
/// end of the line; every other character is ignored.
#[derive(Debug, Clone, Copy, PartialEq, Eq, Structural)]
pub enum Token {
    IncPtr,
    DecPtr,
    IncCell,
    DecCell,
    Output,
    Input,
    LoopStart,
    LoopEnd,
}

/// The token, if any, that a single source character denotes.
pub open spec fn spec_token_of(c: char) -> Option<Token> {
    if c == '>' {
        Some(Token::IncPtr)
    } else if c == '<' {
        Some(Token::DecPtr)
    } else if c == '+' {
        Some(Token::IncCell)
    } else if c == '-' {
        Some(Token::DecCell)
    } else if c == '.' {
        Some(Token::Output)
    } else if c == ',' {
        Some(Token::Input)
    } else if c == '[' {
        Some(Token::LoopStart)
    } else if c == ']' {
        Some(Token::LoopEnd)
    } else {
        None
    }
}

/// The tokens of the character sequence `cs`. `in_comment` says whether the
/// first character still belongs to a comment opened by an earlier `;`.
pub open spec fn spec_lex(cs: Seq<char>, in_comment: bool) -> Seq<Token>
    decreases cs.len(),
{
    if cs.len() == 0 {
        Seq::empty()
    } else {
        let rest = cs.drop_first();
        if in_comment {
            spec_lex(rest, cs[0] != '\n')
        } else if cs[0] == ';' {
            spec_lex(rest, true)
        } else {
            match spec_token_of(cs[0]) {
                Some(t) => seq![t] + spec_lex(rest, false),
                None => spec_lex(rest, false),
            }
        }
    }
}

/// The token denoted by one source character, or `None` for a character
/// that is neither an instruction nor `;`.
fn token_of(c: char) -> (r: Option<Token>)
    ensures
        r == spec_token_of(c),
{
    match c {
        '>' => Some(Token::IncPtr),
        '<' => Some(Token::DecPtr),
        '+' => Some(Token::IncCell),
        '-' => Some(Token::DecCell),
        '.' => Some(Token::Output),
        ',' => Some(Token::Input),
        '[' => Some(Token::LoopStart),
        ']' => Some(Token::LoopEnd),
        _ => None,
    }
}

/// Turns source text into its token sequence, dropping comments (from `;`
/// to the end of the line) and every character that is not an instruction.
pub fn lex(input: &str) -> (tokens: Vec<Token>)
    ensures
        tokens@ == spec_lex(input@, false),
{
    let n = input.unicode_len();
    let mut tokens: Vec<Token> = Vec::new();
    let mut in_comment = false;
    let mut i: usize = 0;
    proof {
        assert(input@.skip(0) =~= input@);
        assert(tokens@ + spec_lex(input@, false) =~= spec_lex(input@, false));
    }
    while i < n
        invariant
            n == input@.len(),
            i <= n,
            spec_lex(input@, false) == tokens@ + spec_lex(input@.skip(i as int), in_comment),
        decreases n - i,
    {
        let c = input.get_char(i);
        proof {
            assert(input@.skip(i as int)[0] == c);
            assert(input@.skip(i as int).drop_first() =~= input@.skip(i + 1));
        }
        if in_comment {
            if c == '\n' {
                in_comment = false;
            }
        } else if c == ';' {
            in_comment = true;
        } else {
            match token_of(c) {
                Some(t) => {
                    let ghost before = tokens@;
                    tokens.push(t);
                    proof {
                        assert(tokens@ + spec_lex(input@.skip(i + 1), false) =~= before + (
                        seq![t] + spec_lex(input@.skip(i + 1), false)));
                    }
                },
                None => {},
            }
        }
        i = i + 1;
    }
    proof {
        assert(input@.skip(n as int) =~= Seq::<char>::empty());
    }
    tokens
}

} // verus!
