//! From assembly text to tokens.

use crate::assembly::ast::Position;
use vstd::prelude::*;
use vstd::string::StringSliceAdditionalSpecFns;

verus! {

/// The kinds of tokens.
#[derive(Clone, Copy, Debug, PartialEq, Eq, Structural)]
pub enum TokenKind {
    /// A dot and a word: `.name`.
    Directive,
    /// `@` and a word.
    GlobalIdentifier,
    /// `$` and a word.
    LocalIdentifier,
    /// `%` and a word.
    RegisterIdentifier,
    /// A word.
    Keyword,
    /// A decimal number, or `0x` and a hexadecimal number, with its value.
    LiteralInteger(i128),
    /// Text between double quotes.
    LiteralString,
    Semicolon,
    OpenBracket,
    CloseBracket,
    OpenParenthesis,
    CloseParenthesis,
    Comma,
    Equals,
}

/// A token with the part of the text that it is.
#[derive(Clone, Copy, Debug, PartialEq, Eq, Structural)]
pub struct Token {
    pub kind: TokenKind,
    pub position: Position,
}

/// What the lexer cannot read.
#[derive(Clone, Copy, Debug, PartialEq, Eq, Structural)]
pub enum ErrorKind {
    /// A character that starts no token.
    UnknownCharacter,
    /// A sigil that no word follows.
    MissingWord,
    /// A number greater than every integer that a token holds.
    IntegerTooLarge,
    /// `0x` that no digit follows.
    MissingDigits,
    /// A string literal that the text ends in.
    UnterminatedString,
}

/// An error of the lexer, with the part of the text that it is about.
#[derive(Clone, Copy, Debug, PartialEq, Eq, Structural)]
pub struct Error {
    pub kind: ErrorKind,
    pub position: Position,
}

/// Whether a byte is white space.
pub open spec fn is_space(byte: u8) -> bool {
    byte == 0x20 || byte == 0x09 || byte == 0x0A || byte == 0x0D
}

/// Whether a byte can stand in a word: a letter, a digit, an underscore or
/// a dot.
pub open spec fn is_word(byte: u8) -> bool {
    (0x61 <= byte <= 0x7A) || (0x41 <= byte <= 0x5A) || (0x30 <= byte <= 0x39) || byte == 0x5F
        || byte == 0x2E
}

/// Whether a byte is a decimal digit.
pub open spec fn is_digit(byte: u8) -> bool {
    0x30 <= byte <= 0x39
}

/// The value of a hexadecimal digit, for a byte that is one.
pub open spec fn hex_value(byte: u8) -> Option<u8> {
    if 0x30 <= byte <= 0x39 {
        Some((byte - 0x30) as u8)
    } else if 0x61 <= byte <= 0x66 {
        Some((byte - 0x61 + 10) as u8)
    } else if 0x41 <= byte <= 0x46 {
        Some((byte - 0x41 + 10) as u8)
    } else {
        None
    }
}

/// Whether every byte of a part of the text can stand in a word.
pub open spec fn all_word(input: Seq<u8>, start: int, end: int) -> bool {
    forall|i: int| start <= i < end ==> is_word(#[trigger] input[i])
}

/// The value of the decimal digits of a part of the text.
pub open spec fn decimal_value(input: Seq<u8>, start: int, end: int) -> int
    decreases end - start,
{
    if end <= start {
        0
    } else {
        10 * decimal_value(input, start, end - 1) + (input[end - 1] - 0x30)
    }
}

/// The value of the hexadecimal digits of a part of the text.
pub open spec fn hexadecimal_value(input: Seq<u8>, start: int, end: int) -> int
    decreases end - start,
{
    if end <= start {
        0
    } else {
        16 * hexadecimal_value(input, start, end - 1) + (match hex_value(input[end - 1]) {
            Some(value) => value as int,
            None => 0,
        })
    }
}

/// Whether the word that ends at `end` goes no further: the text ends
/// there, or the next byte cannot stand in a word.
pub open spec fn word_ends(input: Seq<u8>, end: int) -> bool {
    end == input.len() || !is_word(input[end])
}

/// Whether a byte is a token by itself, and of which kind.
pub open spec fn punctuation(byte: u8) -> Option<TokenKind> {
    if byte == 0x3B {
        Some(TokenKind::Semicolon)
    } else if byte == 0x7B {
        Some(TokenKind::OpenBracket)
    } else if byte == 0x7D {
        Some(TokenKind::CloseBracket)
    } else if byte == 0x28 {
        Some(TokenKind::OpenParenthesis)
    } else if byte == 0x29 {
        Some(TokenKind::CloseParenthesis)
    } else if byte == 0x2C {
        Some(TokenKind::Comma)
    } else if byte == 0x3D {
        Some(TokenKind::Equals)
    } else {
        None
    }
}

/// Whether a byte is one of the sigils `.`, `@`, `$` and `%`.
pub open spec fn is_sigil(byte: u8) -> bool {
    byte == 0x2E || byte == 0x40 || byte == 0x24 || byte == 0x25
}

/// The greatest integer that a token holds.
pub open spec fn integer_limit() -> int {
    0x7FFF_FFFF_FFFF_FFFF_FFFF_FFFF_FFFF
}

/// Whether a number that starts at `start` is hexadecimal: it starts with
/// `0x`, whatever follows.
pub open spec fn starts_hexadecimal(input: Seq<u8>, start: int) -> bool {
    start + 1 < input.len() && input[start] == 0x30 && input[start + 1] == 0x78
}

/// Whether a token is what its part of the text says: the part is inside
/// the text and not empty, it has the form of the kind of the token, and
/// it is as long as it can be. A number that starts with `0x` is
/// hexadecimal and has digits behind `0x`; any other number is decimal. No
/// number is greater than the greatest integer that a token holds.
pub open spec fn token_matches(input: Seq<u8>, token: Token) -> bool {
    let start = token.position.start as int;
    let end = token.position.end as int;
    &&& 0 <= start < end <= input.len()
    &&& match token.kind {
        TokenKind::Directive => input[start] == 0x2E && end > start + 1 && all_word(
            input,
            start + 1,
            end,
        ) && word_ends(input, end),
        TokenKind::GlobalIdentifier => input[start] == 0x40 && end > start + 1 && all_word(
            input,
            start + 1,
            end,
        ) && word_ends(input, end),
        TokenKind::LocalIdentifier => input[start] == 0x24 && end > start + 1 && all_word(
            input,
            start + 1,
            end,
        ) && word_ends(input, end),
        TokenKind::RegisterIdentifier => input[start] == 0x25 && end > start + 1 && all_word(
            input,
            start + 1,
            end,
        ) && word_ends(input, end),
        TokenKind::Keyword => all_word(input, start, end) && !is_digit(input[start])
            && input[start] != 0x2E && word_ends(input, end),
        TokenKind::LiteralInteger(value) => if starts_hexadecimal(input, start) {
            &&& end > start + 2
            &&& forall|i: int| start + 2 <= i < end ==> hex_value(#[trigger] input[i]).is_some()
            &&& end == input.len() || hex_value(input[end]).is_none()
            &&& value == hexadecimal_value(input, start + 2, end)
            &&& value <= integer_limit()
        } else {
            &&& forall|i: int| start <= i < end ==> is_digit(#[trigger] input[i])
            &&& end == input.len() || !is_digit(input[end])
            &&& value == decimal_value(input, start, end)
            &&& value <= integer_limit()
        },
        TokenKind::LiteralString => end >= start + 2 && input[start] == 0x22 && input[end - 1]
            == 0x22 && forall|i: int| start < i < end - 1 ==> #[trigger] input[i] != 0x22,
        other => end == start + 1 && punctuation(input[start]) == Some(other),
    }
}

/// Whether an error is what its part of the text says.
pub open spec fn error_matches(input: Seq<u8>, error: Error) -> bool {
    let start = error.position.start as int;
    let end = error.position.end as int;
    &&& 0 <= start < end <= input.len()
    &&& match error.kind {
        ErrorKind::UnknownCharacter => end == start + 1 && !is_space(input[start])
            && punctuation(input[start]).is_none() && !is_sigil(input[start]) && !is_word(
            input[start],
        ) && input[start] != 0x22,
        ErrorKind::MissingWord => end == start + 1 && is_sigil(input[start]) && word_ends(
            input,
            end,
        ),
        ErrorKind::MissingDigits => end == start + 2 && input[start] == 0x30 && input[start + 1]
            == 0x78 && (end == input.len() || hex_value(input[end]).is_none()),
        ErrorKind::IntegerTooLarge => if starts_hexadecimal(input, start) {
            &&& end > start + 2
            &&& forall|i: int| start + 2 <= i < end ==> hex_value(#[trigger] input[i]).is_some()
            &&& end == input.len() || hex_value(input[end]).is_none()
            &&& hexadecimal_value(input, start + 2, end) > integer_limit()
        } else {
            &&& forall|i: int| start <= i < end ==> is_digit(#[trigger] input[i])
            &&& end == input.len() || !is_digit(input[end])
            &&& decimal_value(input, start, end) > integer_limit()
        },
        ErrorKind::UnterminatedString => input[start] == 0x22 && end == input.len()
            && forall|i: int| start < i < end ==> #[trigger] input[i] != 0x22,
    }
}

/// Whether the errors of a list are what their parts of the text say, and
/// stand in the order of the text without overlapping, so that none is
/// listed twice.
pub open spec fn errors_match(input: Seq<u8>, errors: Seq<Error>) -> bool {
    &&& forall|i: int| 0 <= i < errors.len() ==> error_matches(input, #[trigger] errors[i])
    &&& forall|i: int, j: int|
        0 <= i < j < errors.len() ==> (#[trigger] errors[i]).position.end <= (
        #[trigger] errors[j]).position.start
}

/// Whether no token of a list shares a byte of the text with an error of a
/// list.
pub open spec fn apart(tokens: Seq<Token>, errors: Seq<Error>) -> bool {
    forall|t: int, e: int|
        0 <= t < tokens.len() && 0 <= e < errors.len() ==> (#[trigger] tokens[t]).position.end
            <= (#[trigger] errors[e]).position.start || errors[e].position.end
            <= tokens[t].position.start
}

/// Whether tokens and errors are what a text is read as: the tokens and
/// the errors are what their parts of the text say, in the order of the
/// text; no two of them share a byte; and every byte of the text is white
/// space, or part of a token, or part of what an error is about.
pub open spec fn lexed(input: Seq<u8>, tokens: Seq<Token>, errors: Seq<Error>) -> bool {
    &&& tokens_match(input, tokens)
    &&& errors_match(input, errors)
    &&& apart(tokens, errors)
    &&& covered(input, tokens, errors, input.len() as int)
}

/// Whether every byte of the text before `offset` is white space, or part
/// of a token, or part of what an error is about.
pub open spec fn covered(input: Seq<u8>, tokens: Seq<Token>, errors: Seq<Error>, offset: int)
    -> bool {
    forall|i: int|
        0 <= i < offset ==> is_space(#[trigger] input[i]) || (exists|t: int|
            0 <= t < tokens.len() && (#[trigger] tokens[t]).position.start <= i
                < tokens[t].position.end) || (exists|e: int|
            0 <= e < errors.len() && (#[trigger] errors[e]).position.start <= i
                < errors[e].position.end)
}

/// Whether the tokens of a list are what their parts of the text say, and
/// stand in the order of the text without overlapping.
pub open spec fn tokens_match(input: Seq<u8>, tokens: Seq<Token>) -> bool {
    &&& forall|i: int| 0 <= i < tokens.len() ==> token_matches(input, #[trigger] tokens[i])
    &&& forall|i: int, j: int|
        0 <= i < j < tokens.len() ==> (#[trigger] tokens[i]).position.end <= (
        #[trigger] tokens[j]).position.start
}

fn space(byte: u8) -> (yes: bool)
    ensures
        yes == is_space(byte),
{
    byte == 0x20 || byte == 0x09 || byte == 0x0A || byte == 0x0D
}

fn word(byte: u8) -> (yes: bool)
    ensures
        yes == is_word(byte),
{
    (0x61 <= byte && byte <= 0x7A) || (0x41 <= byte && byte <= 0x5A) || (0x30 <= byte && byte
        <= 0x39) || byte == 0x5F || byte == 0x2E
}

fn digit(byte: u8) -> (yes: bool)
    ensures
        yes == is_digit(byte),
{
    0x30 <= byte && byte <= 0x39
}

fn hex(byte: u8) -> (value: Option<u8>)
    ensures
        value == hex_value(byte),
{
    if 0x30 <= byte && byte <= 0x39 {
        Some(byte - 0x30)
    } else if 0x61 <= byte && byte <= 0x66 {
        Some(byte - 0x61 + 10)
    } else if 0x41 <= byte && byte <= 0x46 {
        Some(byte - 0x41 + 10)
    } else {
        None
    }
}

/// The offset behind the bytes from `start` on that can stand in a word.
fn word_end(input: &[u8], start: usize) -> (end: usize)
    requires
        start <= input@.len(),
    ensures
        start <= end <= input@.len(),
        all_word(input@, start as int, end as int),
        end < input@.len() ==> !is_word(input@[end as int]),
{
    let mut end = start;
    while end < input.len() && word(input[end])
        invariant
            start <= end <= input@.len(),
            all_word(input@, start as int, end as int),
        decreases input@.len() - end,
    {
        end += 1;
    }
    end
}

/// Reads a number that starts at `start`, where a digit stands.
fn number(input: &[u8], start: usize) -> (read: (usize, Result<i128, ErrorKind>))
    requires
        start < input@.len(),
        is_digit(input@[start as int]),
    ensures
        start < read.0 <= input@.len(),
        match read.1 {
            Ok(value) => token_matches(
                input@,
                Token {
                    kind: TokenKind::LiteralInteger(value),
                    position: Position { start, end: read.0 },
                },
            ),
            Err(kind) => error_matches(
                input@,
                Error { kind, position: Position { start, end: read.0 } },
            ),
        },
{
    let limit: i128 = 0x7FFF_FFFF_FFFF_FFFF_FFFF_FFFF_FFFF;
    if input[start] == 0x30 && start + 1 < input.len() && input[start + 1] == 0x78 {
        let first = start + 2;
        let mut end = first;
        let mut value: i128 = 0;
        let mut fits = true;
        while end < input.len() && hex(input[end]).is_some()
            invariant
                first <= end <= input@.len(),
                forall|i: int| first <= i < end ==> hex_value(#[trigger] input@[i]).is_some(),
                fits ==> value == hexadecimal_value(input@, first as int, end as int),
                !fits ==> hexadecimal_value(input@, first as int, end as int) > limit,
                hexadecimal_value(input@, first as int, end as int) >= 0,
                0 <= value <= limit,
                limit == integer_limit(),
            decreases input@.len() - end,
        {
            let next = match hex(input[end]) {
                Some(next) => next,
                None => 0,
            };
            if fits && value <= (limit - next as i128) / 16 {
                value = value * 16 + next as i128;
            } else {
                fits = false;
            }
            end += 1;
        }
        if end == first {
            return (end, Err(ErrorKind::MissingDigits));
        }
        if !fits {
            return (end, Err(ErrorKind::IntegerTooLarge));
        }
        (end, Ok(value))
    } else {
        let mut end = start;
        let mut value: i128 = 0;
        let mut fits = true;
        while end < input.len() && digit(input[end])
            invariant
                start <= end <= input@.len(),
                forall|i: int| start <= i < end ==> is_digit(#[trigger] input@[i]),
                fits ==> value == decimal_value(input@, start as int, end as int),
                !fits ==> decimal_value(input@, start as int, end as int) > limit,
                decimal_value(input@, start as int, end as int) >= 0,
                0 <= value <= limit,
                limit == integer_limit(),
            decreases input@.len() - end,
        {
            let next = input[end] - 0x30;
            if fits && value <= (limit - next as i128) / 10 {
                value = value * 10 + next as i128;
            } else {
                fits = false;
            }
            end += 1;
        }
        if !fits {
            return (end, Err(ErrorKind::IntegerTooLarge));
        }
        (end, Ok(value))
    }
}

/// The tokens of a text, and what of the text is no token. Every token is
/// what its part of the text says and as long as it can be; every error is
/// what its part of the text says; tokens and errors stand in the order of
/// the text and share no byte; and every byte of the text is white space,
/// or part of a token, or part of what an error is about.
pub fn tokens_from_bytes(input: &[u8]) -> (read: (Vec<Token>, Vec<Error>))
    ensures
        lexed(input@, read.0@, read.1@),
{
    let mut tokens: Vec<Token> = Vec::new();
    let mut errors: Vec<Error> = Vec::new();
    let mut offset: usize = 0;
    while offset < input.len()
        invariant
            offset <= input@.len(),
            tokens_match(input@, tokens@),
            forall|i: int| 0 <= i < tokens@.len() ==> (#[trigger] tokens@[i]).position.end <= offset,
            errors_match(input@, errors@),
            forall|i: int| 0 <= i < errors@.len() ==> (#[trigger] errors@[i]).position.end <= offset,
            apart(tokens@, errors@),
            covered(input@, tokens@, errors@, offset as int),
        decreases input@.len() - offset,
    {
        let start = offset;
        let byte = input[start];
        let single = single_byte(byte);
        let mut found: Option<Token> = None;
        let mut failed: Option<ErrorKind> = None;
        let end: usize;
        if space(byte) {
            end = start + 1;
        } else if let Some(kind) = single {
            end = start + 1;
            found = Some(Token { kind, position: Position { start, end } });
        } else if byte == 0x2E || byte == 0x40 || byte == 0x24 || byte == 0x25 {
            end = word_end(input, start + 1);
            if end == start + 1 {
                failed = Some(ErrorKind::MissingWord);
            } else {
                let kind = if byte == 0x2E {
                    TokenKind::Directive
                } else if byte == 0x40 {
                    TokenKind::GlobalIdentifier
                } else if byte == 0x24 {
                    TokenKind::LocalIdentifier
                } else {
                    TokenKind::RegisterIdentifier
                };
                found = Some(Token { kind, position: Position { start, end } });
            }
        } else if digit(byte) {
            let (after, value) = number(input, start);
            end = after;
            match value {
                Ok(value) => {
                    found = Some(
                        Token {
                            kind: TokenKind::LiteralInteger(value),
                            position: Position { start, end },
                        },
                    );
                },
                Err(kind) => {
                    failed = Some(kind);
                },
            }
        } else if byte == 0x22 {
            let mut close = start + 1;
            while close < input.len() && input[close] != 0x22
                invariant
                    start < close <= input@.len(),
                    forall|i: int| start < i < close ==> #[trigger] input@[i] != 0x22,
                decreases input@.len() - close,
            {
                close += 1;
            }
            if close < input.len() {
                end = close + 1;
                found = Some(
                    Token { kind: TokenKind::LiteralString, position: Position { start, end } },
                );
            } else {
                end = close;
                failed = Some(ErrorKind::UnterminatedString);
            }
        } else if word(byte) {
            end = word_end(input, start);
            found = Some(Token { kind: TokenKind::Keyword, position: Position { start, end } });
        } else {
            end = start + 1;
            failed = Some(ErrorKind::UnknownCharacter);
        }
        let ghost before_tokens = tokens@;
        let ghost before_errors = errors@;
        match found {
            Some(token) => {
                proof {
                    assert(token_matches(input@, token));
                }
                tokens.push(token);
            },
            None => {},
        }
        match failed {
            Some(kind) => {
                let error = Error { kind, position: Position { start, end } };
                proof {
                    assert(error_matches(input@, error));
                }
                errors.push(error);
            },
            None => {},
        }
        proof {
            assert forall|i: int| 0 <= i < end implies is_space(#[trigger] input@[i]) || (exists|
                t: int,
            |
                0 <= t < tokens@.len() && (#[trigger] tokens@[t]).position.start <= i
                    < tokens@[t].position.end) || (exists|e: int|
                0 <= e < errors@.len() && (#[trigger] errors@[e]).position.start <= i
                    < errors@[e].position.end) by {
                if i < start {
                    if !is_space(input@[i]) {
                        if exists|t: int|
                            0 <= t < before_tokens.len() && (
                            #[trigger] before_tokens[t]).position.start <= i
                                < before_tokens[t].position.end {
                            let t = choose|t: int|
                                0 <= t < before_tokens.len() && (
                                #[trigger] before_tokens[t]).position.start <= i
                                    < before_tokens[t].position.end;
                            assert(tokens@[t] == before_tokens[t]);
                        } else {
                            let e = choose|e: int|
                                0 <= e < before_errors.len() && (
                                #[trigger] before_errors[e]).position.start <= i
                                    < before_errors[e].position.end;
                            assert(errors@[e] == before_errors[e]);
                        }
                    }
                } else {
                    if found.is_some() {
                        let t = tokens@.len() - 1;
                        assert(tokens@[t].position.start <= i < tokens@[t].position.end);
                    } else if failed.is_some() {
                        let e = errors@.len() - 1;
                        assert(errors@[e].position.start <= i < errors@[e].position.end);
                    }
                }
            }
        }
        offset = end;
    }
    (tokens, errors)
}

/// The kind of the token that a byte is by itself.
fn single_byte(byte: u8) -> (kind: Option<TokenKind>)
    ensures
        kind == punctuation(byte),
{
    if byte == 0x3B {
        Some(TokenKind::Semicolon)
    } else if byte == 0x7B {
        Some(TokenKind::OpenBracket)
    } else if byte == 0x7D {
        Some(TokenKind::CloseBracket)
    } else if byte == 0x28 {
        Some(TokenKind::OpenParenthesis)
    } else if byte == 0x29 {
        Some(TokenKind::CloseParenthesis)
    } else if byte == 0x2C {
        Some(TokenKind::Comma)
    } else if byte == 0x3D {
        Some(TokenKind::Equals)
    } else {
        None
    }
}

/// The tokens of a text, and what of the text is no token.
pub fn tokens_from_str(input: &str) -> (read: (Vec<Token>, Vec<Error>))
    ensures
        lexed(input.spec_bytes(), read.0@, read.1@),
{
    tokens_from_bytes(input.as_bytes())
}

} // verus!
