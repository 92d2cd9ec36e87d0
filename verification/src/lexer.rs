//! From source text to tokens.
//!
//! Blanks separate tokens and mean nothing else. A comment runs from `~#` to
//! the first `#~` after it and counts as a blank. A number is a run of decimal
//! digits of any length.

use crate::error::ParseError;
use crate::natural::Natural;
use vstd::prelude::*;

verus! {

/// The tokens that are no numbers.
#[derive(Debug, Clone, Copy, PartialEq, Eq, Structural)]
pub enum Symbol {
    /// `{`
    OpenBowl,
    /// `}`
    CloseBowl,
    /// `[`
    OpenNoodle,
    /// `]`
    CloseNoodle,
    /// `;`
    Semicolon,
    /// `(`
    OpenParen,
    /// `)`
    CloseParen,
    /// `@`
    Memory,
    /// `:`
    Colon,
    /// `=`
    Assign,
    /// `^`
    Caret,
    /// `!`
    Bang,
    /// `+`
    Plus,
    /// `-`
    Minus,
    /// `*`
    Star,
    /// `/`
    Slash,
    /// `&`
    Amp,
    /// `|`
    Pipe,
    /// `?=`
    Equal,
    /// `>`
    Greater,
    /// `<`
    Less,
}

/// A token.
#[derive(Debug)]
pub enum Token {
    Symbol(Symbol),
    Number(Natural),
}

/// A token, with the number it stands for.
pub enum TokenView {
    Symbol(Symbol),
    Number(nat),
}

impl View for Token {
    type V = TokenView;

    open spec fn view(&self) -> TokenView {
        match self {
            Token::Symbol(s) => TokenView::Symbol(*s),
            Token::Number(n) => TokenView::Number(n@),
        }
    }
}

/// The tokens of the model that a vector of tokens stands for.
pub open spec fn tokens_view(tokens: Seq<Token>) -> Seq<TokenView> {
    Seq::new(tokens.len(), |i: int| tokens[i]@)
}

/// Space, tab, line feed and carriage return.
pub open spec fn is_blank(b: u8) -> bool {
    b == 32 || b == 9 || b == 10 || b == 13
}

/// The decimal digits `0` to `9`.
pub open spec fn is_digit(b: u8) -> bool {
    48 <= b <= 57
}

/// The symbol that the byte stands for by itself.
pub open spec fn symbol_of(b: u8) -> Option<Symbol> {
    if b == 123 {
        Some(Symbol::OpenBowl)
    } else if b == 125 {
        Some(Symbol::CloseBowl)
    } else if b == 91 {
        Some(Symbol::OpenNoodle)
    } else if b == 93 {
        Some(Symbol::CloseNoodle)
    } else if b == 59 {
        Some(Symbol::Semicolon)
    } else if b == 40 {
        Some(Symbol::OpenParen)
    } else if b == 41 {
        Some(Symbol::CloseParen)
    } else if b == 64 {
        Some(Symbol::Memory)
    } else if b == 58 {
        Some(Symbol::Colon)
    } else if b == 61 {
        Some(Symbol::Assign)
    } else if b == 94 {
        Some(Symbol::Caret)
    } else if b == 33 {
        Some(Symbol::Bang)
    } else if b == 43 {
        Some(Symbol::Plus)
    } else if b == 45 {
        Some(Symbol::Minus)
    } else if b == 42 {
        Some(Symbol::Star)
    } else if b == 47 {
        Some(Symbol::Slash)
    } else if b == 38 {
        Some(Symbol::Amp)
    } else if b == 124 {
        Some(Symbol::Pipe)
    } else if b == 62 {
        Some(Symbol::Greater)
    } else if b == 60 {
        Some(Symbol::Less)
    } else {
        None
    }
}

/// The number that a run of decimal digits stands for.
pub open spec fn decimal_value(digits: Seq<u8>) -> nat
    decreases digits.len(),
{
    if digits.len() == 0 {
        0
    } else {
        10 * decimal_value(digits.drop_last()) + (digits.last() - 48) as nat
    }
}

/// The first position at or after `pos` that holds no digit.
pub open spec fn number_end(bytes: Seq<u8>, pos: int) -> int
    decreases bytes.len() - pos,
{
    if 0 <= pos < bytes.len() && is_digit(bytes[pos]) {
        number_end(bytes, pos + 1)
    } else {
        pos
    }
}

/// The position after the first `#~` that starts at or after `pos`, if there
/// is one.
pub open spec fn comment_end(bytes: Seq<u8>, pos: int) -> Option<int>
    decreases bytes.len() - pos,
{
    if pos < 0 || pos + 1 >= bytes.len() {
        None
    } else if bytes[pos] == 35 && bytes[pos + 1] == 126 {
        Some(pos + 2)
    } else {
        comment_end(bytes, pos + 1)
    }
}

/// A token before the tokens that follow, where those could be read.
pub open spec fn token_then(token: TokenView, rest: Option<Seq<TokenView>>) -> Option<
    Seq<TokenView>,
> {
    match rest {
        Some(tokens) => Some(seq![token] + tokens),
        None => None,
    }
}

/// The tokens of the text from `pos` on, or `None` if a byte there starts no
/// token or a comment has no end.
pub open spec fn lex(bytes: Seq<u8>, pos: int) -> Option<Seq<TokenView>>
    decreases bytes.len() - pos,
{
    if pos < 0 || pos >= bytes.len() {
        Some(Seq::empty())
    } else if is_blank(bytes[pos]) {
        lex(bytes, pos + 1)
    } else if bytes[pos] == 126 {
        if pos + 1 < bytes.len() && bytes[pos + 1] == 35 {
            match comment_end(bytes, pos + 2) {
                Some(end) => if pos < end <= bytes.len() {
                    lex(bytes, end)
                } else {
                    None
                },
                None => None,
            }
        } else {
            None
        }
    } else if is_digit(bytes[pos]) {
        let end = number_end(bytes, pos + 1);
        if pos < end <= bytes.len() {
            token_then(TokenView::Number(decimal_value(bytes.subrange(pos, end))), lex(bytes, end))
        } else {
            None
        }
    } else if bytes[pos] == 63 {
        if pos + 1 < bytes.len() && bytes[pos + 1] == 61 {
            token_then(TokenView::Symbol(Symbol::Equal), lex(bytes, pos + 2))
        } else {
            None
        }
    } else {
        match symbol_of(bytes[pos]) {
            Some(symbol) => token_then(TokenView::Symbol(symbol), lex(bytes, pos + 1)),
            None => None,
        }
    }
}

/// The tokens read so far before the tokens that follow.
pub open spec fn tokens_then(read: Seq<TokenView>, rest: Option<Seq<TokenView>>) -> Option<
    Seq<TokenView>,
> {
    match rest {
        Some(tokens) => Some(read + tokens),
        None => None,
    }
}

/// One more token read moves from the front of what follows to the end of
/// what was read.
proof fn lemma_tokens_then(read: Seq<TokenView>, token: TokenView, rest: Option<Seq<TokenView>>)
    ensures
        tokens_then(read, token_then(token, rest)) == tokens_then(read.push(token), rest),
{
    if let Some(tokens) = rest {
        assert(read + (seq![token] + tokens) =~= read.push(token) + tokens);
    }
}

/// The symbol that the byte stands for by itself.
fn symbol(b: u8) -> (r: Option<Symbol>)
    ensures
        r == symbol_of(b),
{
    if b == 123 {
        Some(Symbol::OpenBowl)
    } else if b == 125 {
        Some(Symbol::CloseBowl)
    } else if b == 91 {
        Some(Symbol::OpenNoodle)
    } else if b == 93 {
        Some(Symbol::CloseNoodle)
    } else if b == 59 {
        Some(Symbol::Semicolon)
    } else if b == 40 {
        Some(Symbol::OpenParen)
    } else if b == 41 {
        Some(Symbol::CloseParen)
    } else if b == 64 {
        Some(Symbol::Memory)
    } else if b == 58 {
        Some(Symbol::Colon)
    } else if b == 61 {
        Some(Symbol::Assign)
    } else if b == 94 {
        Some(Symbol::Caret)
    } else if b == 33 {
        Some(Symbol::Bang)
    } else if b == 43 {
        Some(Symbol::Plus)
    } else if b == 45 {
        Some(Symbol::Minus)
    } else if b == 42 {
        Some(Symbol::Star)
    } else if b == 47 {
        Some(Symbol::Slash)
    } else if b == 38 {
        Some(Symbol::Amp)
    } else if b == 124 {
        Some(Symbol::Pipe)
    } else if b == 62 {
        Some(Symbol::Greater)
    } else if b == 60 {
        Some(Symbol::Less)
    } else {
        None
    }
}

/// Reads the number whose first digit stands at `start`. Returns the number
/// and the position after its last digit.
fn read_number(code: &[u8], start: usize) -> (r: (Natural, usize))
    requires
        start < code@.len(),
        is_digit(code@[start as int]),
    ensures
        r.1 == number_end(code@, start + 1),
        start < r.1 <= code@.len(),
        r.0@ == decimal_value(code@.subrange(start as int, r.1 as int)),
{
    let ten = Natural::from_u64(10);
    let mut value = Natural::zero();
    let mut i: usize = start;
    assert(code@.subrange(start as int, start as int) =~= Seq::<u8>::empty());
    while i < code.len() && code[i] >= 48 && code[i] <= 57
        invariant
            start <= i <= code@.len(),
            is_digit(code@[start as int]),
            ten@ == 10,
            value@ == decimal_value(code@.subrange(start as int, i as int)),
            i == start || number_end(code@, start + 1) == number_end(code@, i as int),
        decreases code@.len() - i,
    {
        let digit = Natural::from_u64((code[i] - 48) as u64);
        proof {
            let longer = code@.subrange(start as int, i + 1);
            assert(longer.drop_last() =~= code@.subrange(start as int, i as int));
            assert(longer.last() == code@[i as int]);
        }
        value = value.mul(&ten).add(&digit);
        i = i + 1;
    }
    (value, i)
}

/// Finds the end of the comment whose text starts at `start`: the position
/// after the first `#~`, if there is one.
fn skip_comment(code: &[u8], start: usize) -> (r: Option<usize>)
    requires
        start <= code@.len(),
    ensures
        match comment_end(code@, start as int) {
            Some(end) => r == Some(end as usize) && start < end <= code@.len(),
            None => r is None,
        },
{
    let mut i: usize = start;
    while i < code.len() && i + 1 < code.len()
        invariant
            start <= i <= code@.len(),
            comment_end(code@, start as int) == comment_end(code@, i as int),
        decreases code@.len() - i,
    {
        if code[i] == 35 && code[i + 1] == 126 {
            return Some(i + 2);
        }
        i = i + 1;
    }
    None
}

/// Reads the tokens of a source text. Fails if a byte starts no token, or if
/// a comment has no end.
pub fn tokenize(code: &[u8]) -> (r: Result<Vec<Token>, ParseError>)
    ensures
        match lex(code@, 0) {
            Some(tokens) => r matches Ok(read) && tokens_view(read@) == tokens,
            None => r is Err,
        },
{
    let mut tokens: Vec<Token> = Vec::new();
    let mut pos: usize = 0;
    assert(tokens_view(tokens@) =~= Seq::<TokenView>::empty());
    assert(lex(code@, 0) == tokens_then(tokens_view(tokens@), lex(code@, 0))) by {
        if let Some(all) = lex(code@, 0) {
            assert(Seq::<TokenView>::empty() + all =~= all);
        }
    }
    while pos < code.len()
        invariant
            pos <= code@.len(),
            lex(code@, 0) == tokens_then(tokens_view(tokens@), lex(code@, pos as int)),
        decreases code@.len() - pos,
    {
        let b = code[pos];
        let ghost read = tokens_view(tokens@);
        if b == 32 || b == 9 || b == 10 || b == 13 {
            pos = pos + 1;
        } else if b == 126 {
            if pos + 1 < code.len() && code[pos + 1] == 35 {
                match skip_comment(code, pos + 2) {
                    Some(end) => {
                        pos = end;
                    },
                    None => {
                        return Err(ParseError);
                    },
                }
            } else {
                return Err(ParseError);
            }
        } else if b >= 48 && b <= 57 {
            let (value, end) = read_number(code, pos);
            proof {
                lemma_tokens_then(read, TokenView::Number(value@), lex(code@, end as int));
            }
            tokens.push(Token::Number(value));
            assert(tokens_view(tokens@) =~= read.push(TokenView::Number(value@)));
            pos = end;
        } else if b == 63 {
            if pos + 1 < code.len() && code[pos + 1] == 61 {
                proof {
                    lemma_tokens_then(read, TokenView::Symbol(Symbol::Equal), lex(code@, pos + 2));
                }
                tokens.push(Token::Symbol(Symbol::Equal));
                assert(tokens_view(tokens@) =~= read.push(TokenView::Symbol(Symbol::Equal)));
                pos = pos + 2;
            } else {
                return Err(ParseError);
            }
        } else {
            match symbol(b) {
                Some(found) => {
                    proof {
                        lemma_tokens_then(read, TokenView::Symbol(found), lex(code@, pos + 1));
                    }
                    tokens.push(Token::Symbol(found));
                    assert(tokens_view(tokens@) =~= read.push(TokenView::Symbol(found)));
                    pos = pos + 1;
                },
                None => {
                    return Err(ParseError);
                },
            }
        }
    }
    proof {
        assert(tokens_view(tokens@) + Seq::<TokenView>::empty() =~= tokens_view(tokens@));
    }
    Ok(tokens)
}

} // verus!
