//! Splits assembly source into tokens. Blanks and comments (`;` to the end of
//! the line) are dropped; line ends are kept, since they end statements.
use vstd::prelude::*;

use crate::parser::{tokens_in, AssembleError};

verus! {

/// A token of assembly source.
#[derive(Debug, Copy, Clone, PartialEq, Eq, Structural)]
pub enum Token {
    /// A run of letters, digits and underscores: `source[start..end]`.
    Name { start: usize, end: usize },
    /// `:`, which introduces a label.
    Colon,
    /// `,`, between two operands.
    Comma,
    /// `[`
    Open,
    /// `]`
    Close,
    /// `+`
    Plus,
    /// The end of a line.
    Newline,
}

/// A byte that may stand in a name or a number.
pub open spec fn is_name_byte(c: u8) -> bool {
    (0x61u8 <= c <= 0x7au8) || (0x41u8 <= c <= 0x5au8) || (0x30u8 <= c <= 0x39u8) || c == 0x5fu8
}

/// A blank between tokens.
pub open spec fn is_blank(c: u8) -> bool {
    c == 0x20u8 || c == 0x09u8 || c == 0x0du8
}

/// `tokens` followed by the outcome `rest`.
pub open spec fn prepend(tokens: Seq<Token>, rest: Result<Seq<Token>, AssembleError>) -> Result<
    Seq<Token>,
    AssembleError,
> {
    match rest {
        Ok(r) => Ok(tokens + r),
        Err(e) => Err(e),
    }
}

/// The tokens of `src` from position `i` on, or the error at the first byte
/// that cannot start a token.
pub open spec fn lex_from(src: Seq<u8>, i: int) -> Result<Seq<Token>, AssembleError>
    decreases src.len() - i, 0int,
{
    if i < 0 || i >= src.len() {
        Ok(Seq::empty())
    } else {
        let c = src[i];
        if is_blank(c) {
            lex_from(src, i + 1)
        } else if c == 0x3bu8 {
            lex_comment(src, i + 1)
        } else if c == 0x0au8 {
            prepend(seq![Token::Newline], lex_from(src, i + 1))
        } else if c == 0x3au8 {
            prepend(seq![Token::Colon], lex_from(src, i + 1))
        } else if c == 0x2cu8 {
            prepend(seq![Token::Comma], lex_from(src, i + 1))
        } else if c == 0x5bu8 {
            prepend(seq![Token::Open], lex_from(src, i + 1))
        } else if c == 0x5du8 {
            prepend(seq![Token::Close], lex_from(src, i + 1))
        } else if c == 0x2bu8 {
            prepend(seq![Token::Plus], lex_from(src, i + 1))
        } else if is_name_byte(c) {
            lex_name(src, i, i + 1)
        } else {
            Err(AssembleError::UnexpectedCharacter { position: i as usize })
        }
    }
}

/// The tokens after the comment bytes from `i` on: the comment ends at the
/// next line end, which is itself a token.
pub open spec fn lex_comment(src: Seq<u8>, i: int) -> Result<Seq<Token>, AssembleError>
    decreases src.len() - i, 1int,
{
    if i < 0 || i >= src.len() {
        Ok(Seq::empty())
    } else if src[i] == 0x0au8 {
        lex_from(src, i)
    } else {
        lex_comment(src, i + 1)
    }
}

/// The name that started at `start` and runs on at `i`, and the tokens after it.
pub open spec fn lex_name(src: Seq<u8>, start: int, i: int) -> Result<Seq<Token>, AssembleError>
    decreases src.len() - i, 1int,
{
    if 0 <= i < src.len() && is_name_byte(src[i]) {
        lex_name(src, start, i + 1)
    } else {
        prepend(seq![Token::Name { start: start as usize, end: i as usize }], lex_from(src, i))
    }
}

/// The tokens of `src`.
pub open spec fn lex_spec(src: Seq<u8>) -> Result<Seq<Token>, AssembleError> {
    lex_from(src, 0)
}

/// Appending to the tokens so far commutes with the rest of the outcome.
proof fn lemma_prepend_assoc(a: Seq<Token>, b: Seq<Token>, r: Result<Seq<Token>, AssembleError>)
    ensures
        prepend(a, prepend(b, r)) == prepend(a + b, r),
{
    if let Ok(x) = r {
        assert(a + (b + x) =~= (a + b) + x);
    }
}

fn is_name_byte_exec(c: u8) -> (r: bool)
    ensures
        r == is_name_byte(c),
{
    (0x61u8 <= c && c <= 0x7au8) || (0x41u8 <= c && c <= 0x5au8) || (0x30u8 <= c && c <= 0x39u8) || c == 0x5fu8
}

/// Splits `src` into tokens.
pub fn lex(src: &[u8]) -> (r: Result<Vec<Token>, AssembleError>)
    ensures
        match r {
            Ok(tokens) => lex_spec(src@) == Ok::<Seq<Token>, AssembleError>(tokens@) && tokens_in(
                src@,
                tokens@,
            ) && tokens@.len() <= src@.len(),
            Err(e) => lex_spec(src@) == Err::<Seq<Token>, AssembleError>(e),
        },
{
    let mut tokens: Vec<Token> = Vec::new();
    let mut i: usize = 0;
    while i < src.len()
        invariant
            i <= src@.len(),
            lex_spec(src@) == prepend(tokens@, lex_from(src@, i as int)),
            tokens_in(src@, tokens@),
            tokens@.len() <= i,
        decreases src@.len() - i,
    {
        let c = src[i];
        let ghost before = tokens@;
        if c == 0x20u8 || c == 0x09u8 || c == 0x0du8 {
            assert(lex_from(src@, i as int) == lex_from(src@, i + 1));
            i = i + 1;
        } else if c == 0x3bu8 {
            assert(lex_from(src@, i as int) == lex_comment(src@, i + 1));
            let mut j: usize = i + 1;
            while j < src.len() && src[j] != 0x0au8
                invariant
                    i < j <= src@.len(),
                    lex_from(src@, i as int) == lex_comment(src@, j as int),
                decreases src@.len() - j,
            {
                j = j + 1;
            }
            assert(lex_comment(src@, j as int) == lex_from(src@, j as int));
            i = j;
        } else if is_name_byte_exec(c) {
            assert(lex_from(src@, i as int) == lex_name(src@, i as int, i + 1));
            let mut j: usize = i + 1;
            while j < src.len() && is_name_byte_exec(src[j])
                invariant
                    i < j <= src@.len(),
                    lex_from(src@, i as int) == lex_name(src@, i as int, j as int),
                decreases src@.len() - j,
            {
                j = j + 1;
            }
            assert(lex_name(src@, i as int, j as int) == prepend(
                seq![Token::Name { start: i, end: j }],
                lex_from(src@, j as int),
            ));
            tokens.push(Token::Name { start: i, end: j });
            proof {
                assert(tokens@ =~= before + seq![Token::Name { start: i, end: j }]);
                lemma_prepend_assoc(before, seq![Token::Name { start: i, end: j }], lex_from(src@, j as int));
            }
            i = j;
        } else {
            let token = if c == 0x0au8 {
                Token::Newline
            } else if c == 0x3au8 {
                Token::Colon
            } else if c == 0x2cu8 {
                Token::Comma
            } else if c == 0x5bu8 {
                Token::Open
            } else if c == 0x5du8 {
                Token::Close
            } else if c == 0x2bu8 {
                Token::Plus
            } else {
                return Err(AssembleError::UnexpectedCharacter { position: i });
            };
            assert(lex_from(src@, i as int) == prepend(seq![token], lex_from(src@, i + 1)));
            tokens.push(token);
            proof {
                assert(tokens@ =~= before + seq![token]);
                lemma_prepend_assoc(before, seq![token], lex_from(src@, i + 1));
            }
            i = i + 1;
        }
    }
    assert(tokens@ + Seq::<Token>::empty() =~= tokens@);
    Ok(tokens)
}

} // verus!
