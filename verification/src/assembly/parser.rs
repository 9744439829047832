//! From tokens to the syntax tree.

use crate::assembly::ast::{
    name_view, positioned_views, register_views, statement_views, target_view, target_views,
    BasicArithmeticOperation, CodeDeclaration, CodeDeclarationView, FieldDeclaration,
    FieldDeclarationView, FormatDeclaration, FunctionBodyDeclaration, FunctionDeclaration,
    FunctionDeclarationView, GlobalSymbol, Instruction, LocalSymbol, ModuleDeclaration,
    ModuleDeclarationView, NameView, Position, Positioned, PrimitiveType, RegisterSymbol, Statement,
    StatementView, StructDeclaration, StructDeclarationView, TopLevelDeclaration,
    TopLevelDeclarationView, Type,
};
use crate::assembly::grammar::{self, kinds_agree, Source};
use crate::assembly::lexer;
use crate::assembly::lexer::{token_matches, tokens_match, Token, TokenKind};
use crate::identifier::{same_bytes, Identifier};
use vstd::prelude::*;
use vstd::slice::slice_subrange;
use vstd::string::StringSliceAdditionalSpecFns;

verus! {

/// What the parser expected and did not find.
#[derive(Clone, Copy, Debug, PartialEq, Eq, Structural)]
pub enum ErrorKind {
    ExpectedDeclaration,
    ExpectedSemicolon,
    ExpectedOpenBracket,
    ExpectedCloseBracket,
    ExpectedOpenParenthesis,
    ExpectedCloseParenthesis,
    ExpectedEquals,
    ExpectedGlobalSymbol,
    ExpectedLocalSymbol,
    ExpectedRegisterSymbol,
    ExpectedKeyword,
    ExpectedIntegerLiteral,
    ExpectedStringLiteral,
    ExpectedNonEmptyString,
    ExpectedType,
    ExpectedInstruction,
    ExpectedBody,
    InvalidVersionNumber,
    InvalidName,
}

/// An error of the parser, with the part of the text where it stands.
#[derive(Clone, Copy, Debug, PartialEq, Eq, Structural)]
pub struct Error {
    pub kind: ErrorKind,
    pub position: Position,
}

/// The syntax tree of a text.
pub type Tree = Vec<Positioned<TopLevelDeclaration>>;

/// The tokens of a text, with the token that is read next.
struct Input<'a> {
    text: &'a [u8],
    tokens: &'a [Token],
    index: usize,
}

impl<'a> Input<'a> {
    #[verifier::type_invariant]
    spec fn well_formed(self) -> bool {
        self.index <= self.tokens@.len() && tokens_match(self.text@, self.tokens@)
    }

    /// The text and its tokens.
    closed spec fn source(&self) -> Source {
        Source { text: self.text@, tokens: self.tokens@ }
    }

    /// The number of the token that is read next.
    closed spec fn at(&self) -> int {
        self.index as int
    }

    /// The number of tokens that are still to be read.
    closed spec fn left(&self) -> nat {
        (self.tokens@.len() - self.index) as nat
    }

    /// Whether two inputs read the same tokens of the same text.
    closed spec fn same_source(&self, other: &Input<'a>) -> bool {
        self.text@ == other.text@ && self.tokens@ == other.tokens@
    }

    /// The length of the text.
    closed spec fn length(&self) -> nat {
        self.text@.len()
    }

    /// Whether `after` is this input after some of its tokens were read.
    closed spec fn advanced(&self, after: &Input<'a>) -> bool {
        &&& self.same_source(after)
        &&& after.length() == self.length()
        &&& after.left() <= self.left()
        &&& after.last_end() >= self.last_end()
    }

    fn new(text: &'a [u8], tokens: &'a [Token]) -> (input: Self)
        requires
            tokens_match(text@, tokens@),
        ensures
            input.left() == tokens@.len(),
            input.length() == text@.len(),
            input.text@ == text@,
            input.tokens@ == tokens@,
            input.index == 0,
    {
        Input { text, tokens, index: 0 }
    }

    fn at_end(&self) -> (ended: bool)
        ensures
            ended == (self.left() == 0),
    {
        proof {
            use_type_invariant(self);
        }
        self.index >= self.tokens.len()
    }

    /// The token that is read next.
    fn peek(&self) -> (token: Option<Token>)
        ensures
            token.is_some() == (self.left() > 0),
            token matches Some(next) ==> next.position.start < next.position.end <= self.length()
                && next.position.start == self.next_start() && next.position.end
                == self.next_end(),
            token matches Some(next) ==> next == self.source().tokens[self.at()],
    {
        proof {
            use_type_invariant(self);
        }
        if self.index < self.tokens.len() {
            let token = self.tokens[self.index];
            proof {
                assert(token_matches(self.text@, self.tokens@[self.index as int]));
            }
            Some(token)
        } else {
            None
        }
    }

    /// The offset at which the token that is read next starts, and the end
    /// of the text where there is none.
    closed spec fn next_start(&self) -> nat {
        if self.index < self.tokens@.len() {
            self.tokens@[self.index as int].position.start as nat
        } else {
            self.text@.len()
        }
    }

    /// The offset at which the token that is read next ends.
    closed spec fn next_end(&self) -> nat {
        if self.index < self.tokens@.len() {
            self.tokens@[self.index as int].position.end as nat
        } else {
            self.text@.len()
        }
    }

    /// The offset at which the token that was read last ends, and zero
    /// where none was read.
    closed spec fn last_end(&self) -> nat {
        if self.index > 0 {
            self.tokens@[self.index - 1].position.end as nat
        } else {
            0
        }
    }

    /// The offset at which the token that is read next starts, and the end
    /// of the text where there is none. It is not before the end of the
    /// token that was read last.
    fn start(&self) -> (offset: usize)
        ensures
            offset == self.next_start(),
            self.last_end() <= offset <= self.length(),
            offset == grammar::start_at(self.source(), self.at()),
    {
        proof {
            use_type_invariant(self);
            if 0 < self.index < self.tokens@.len() {
                let last = self.tokens@[self.index - 1];
                let next = self.tokens@[self.index as int];
                assert(last.position.end <= next.position.start);
            }
            if self.index > 0 {
                assert(token_matches(self.text@, self.tokens@[self.index - 1]));
            }
        }
        match self.peek() {
            Some(token) => token.position.start,
            None => self.text.len(),
        }
    }

    /// The offset at which the token that was read last ends, and zero
    /// where none was read.
    fn end(&self) -> (offset: usize)
        ensures
            offset == self.last_end(),
            offset <= self.length(),
            offset == grammar::end_before(self.source(), self.at()),
    {
        proof {
            use_type_invariant(self);
        }
        if self.index > 0 {
            let token = self.tokens[self.index - 1];
            proof {
                assert(token_matches(self.text@, self.tokens@[self.index - 1]));
            }
            token.position.end
        } else {
            0
        }
    }

    /// The bytes of a token, without its first `skip` bytes.
    fn text_of(&self, token: Token, skip: usize) -> (bytes: &'a [u8])
        requires
            token.position.start <= token.position.end <= self.length(),
        ensures
            bytes@ == self.text@.subrange(
                if skip <= token.position.end - token.position.start {
                    token.position.start + skip
                } else {
                    token.position.end as int
                },
                token.position.end as int,
            ),
    {
        let start = if skip <= token.position.end - token.position.start {
            token.position.start + skip
        } else {
            token.position.end
        };
        slice_subrange(self.text, start, token.position.end)
    }

    /// An error at the token that is read next.
    fn error(&self, kind: ErrorKind) -> (error: Error)
        ensures
            error == grammar::expected(self.source(), self.at(), kind),
    {
        let start = self.start();
        let end = match self.peek() {
            Some(token) => token.position.end,
            None => start,
        };
        Error { kind, position: Position { start, end } }
    }

    /// Reads the next token where it is of the given kind.
    fn take(&mut self, kind: TokenKind) -> (token: Option<Token>)
        ensures
            old(self).advanced(final(self)),
            token.is_some() ==> final(self).left() + 1 == old(self).left(),
            token.is_none() ==> final(self).left() == old(self).left(),
            token.is_none() ==> *final(self) == *old(self),
            token matches Some(next) ==> next.position.start < next.position.end <= old(
                self,
            ).length() && next.position.start == old(self).next_start() && next.position.end
                == final(self).last_end() && kinds_agree(next.kind, kind),
            token.is_some() == grammar::kind_at(old(self).source(), old(self).at(), kind),
            token matches Some(next) ==> next == old(self).source().tokens[old(self).at()],
            token.is_some() ==> final(self).at() == old(self).at() + 1,
    {
        proof {
            use_type_invariant(&*self);
        }
        match self.peek() {
            Some(token) => {
                if same_kind(token.kind, kind) && self.index < self.tokens.len() {
                    self.index = self.index + 1;
                    Some(token)
                } else {
                    None
                }
            },
            None => None,
        }
    }

    /// Reads the next token where it is the given word.
    fn take_word(&mut self, kind: TokenKind, skip: usize, word: &str) -> (found: bool)
        ensures
            old(self).advanced(final(self)),
            found ==> final(self).left() + 1 == old(self).left(),
            !found ==> final(self).left() == old(self).left(),
            !found ==> *final(self) == *old(self),
            found ==> old(self).next_start() < final(self).last_end(),
            found == grammar::word_at(
                old(self).source(),
                old(self).at(),
                kind,
                skip as int,
                word,
            ),
            found ==> final(self).at() == old(self).at() + 1,
    {
        proof {
            use_type_invariant(&*self);
        }
        match self.peek() {
            Some(token) => {
                if same_kind(token.kind, kind) && self.index < self.tokens.len() && same_bytes(
                    self.text_of(token, skip),
                    word.as_bytes(),
                ) {
                    self.index = self.index + 1;
                    true
                } else {
                    false
                }
            },
            None => false,
        }
    }
}

/// Whether two kinds of tokens are the same kind, whatever number an
/// integer literal holds.
fn same_kind(left: TokenKind, right: TokenKind) -> (same: bool)
    ensures
        same == kinds_agree(left, right),
{
    match (left, right) {
        (TokenKind::LiteralInteger(_), TokenKind::LiteralInteger(_)) => true,
        _ => left == right,
    }
}

/// Reads a token of the given kind, or records that it is not there.
fn expect(input: &mut Input<'_>, errors: &mut Vec<Error>, kind: TokenKind, missing: ErrorKind) -> (token:
    Option<Token>)
    ensures
        token.is_some() ==> final(errors)@ == old(errors)@,
        token.is_none() ==> final(errors)@ == old(errors)@.push(
            grammar::expected(old(input).source(), old(input).at(), missing),
        ),
        old(input).advanced(final(input)),
        token.is_some() == grammar::kind_at(old(input).source(), old(input).at(), kind),
        token matches Some(next) ==> next == old(input).source().tokens[old(input).at()],
        token.is_some() ==> final(input).at() == old(input).at() + 1,
        token.is_some() ==> final(input).left() + 1 == old(input).left(),
        token.is_none() ==> final(input).left() == old(input).left(),
        token matches Some(next) ==> next.position.start < next.position.end <= old(
            input,
        ).length() && kinds_agree(next.kind, kind),
{
    match input.take(kind) {
        Some(token) => Some(token),
        None => {
            errors.push(input.error(missing));
            None
        },
    }
}

/// Reads a keyword, or records that it is not there.
fn expect_keyword(input: &mut Input<'_>, errors: &mut Vec<Error>, word: &str) -> (found: bool)
    ensures
        found ==> final(errors)@ == old(errors)@,
        !found ==> final(errors)@ == old(errors)@.push(
            grammar::expected(old(input).source(), old(input).at(), ErrorKind::ExpectedKeyword),
        ),
        old(input).advanced(final(input)),
        found == grammar::keyword_at(old(input).source(), old(input).at(), word),
        found ==> final(input).at() == old(input).at() + 1,
        found ==> final(input).left() + 1 == old(input).left(),
        !found ==> final(input).left() == old(input).left(),
{
    if input.take_word(TokenKind::Keyword, 0, word) {
        true
    } else {
        errors.push(input.error(ErrorKind::ExpectedKeyword));
        false
    }
}

/// Reads a name behind a sigil.
fn symbol(
    input: &mut Input<'_>,
    errors: &mut Vec<Error>,
    kind: TokenKind,
    missing: ErrorKind,
) -> (name: Option<Positioned<Identifier>>)
    ensures
        name.is_some() ==> final(errors)@ == old(errors)@,
        old(input).advanced(final(input)),
        match name {
            Some(found) => {
                &&& grammar::name_at(
                    old(input).source(),
                    old(input).at(),
                    kind,
                    missing,
                ) matches Ok(given)
                &&& given == (name_view(found), final(input).at())
            },
            None => {
                &&& grammar::name_at(
                    old(input).source(),
                    old(input).at(),
                    kind,
                    missing,
                ) matches Err(error)
                &&& final(errors)@ == old(errors)@.push(error)
            },
        },
        name.is_some() ==> final(input).left() + 1 == old(input).left(),
{
    let token = expect(input, errors, kind, missing)?;
    match Identifier::from_byte_slice(input.text_of(token, 1)) {
        Ok(identifier) => Some((identifier, token.position)),
        Err(_) => {
            errors.push(Error { kind: ErrorKind::InvalidName, position: token.position });
            None
        },
    }
}

fn global_symbol(input: &mut Input<'_>, errors: &mut Vec<Error>) -> (name: Option<GlobalSymbol>)
    ensures
        name.is_some() ==> final(errors)@ == old(errors)@,
        old(input).advanced(final(input)),
        match name {
            Some(found) => {
                &&& grammar::global_at(old(input).source(), old(input).at()) matches Ok(given)
                &&& given == (found@, final(input).at())
            },
            None => {
                &&& grammar::global_at(old(input).source(), old(input).at()) matches Err(error)
                &&& final(errors)@ == old(errors)@.push(error)
            },
        },
        name.is_some() ==> final(input).left() + 1 == old(input).left(),
{
    match symbol(input, errors, TokenKind::GlobalIdentifier, ErrorKind::ExpectedGlobalSymbol) {
        Some(name) => Some(GlobalSymbol(name)),
        None => None,
    }
}

fn local_symbol(input: &mut Input<'_>, errors: &mut Vec<Error>) -> (name: Option<LocalSymbol>)
    ensures
        name.is_some() ==> final(errors)@ == old(errors)@,
        old(input).advanced(final(input)),
        match name {
            Some(found) => {
                &&& grammar::local_at(old(input).source(), old(input).at()) matches Ok(given)
                &&& given == (found@, final(input).at())
            },
            None => {
                &&& grammar::local_at(old(input).source(), old(input).at()) matches Err(error)
                &&& final(errors)@ == old(errors)@.push(error)
            },
        },
        name.is_some() ==> final(input).left() + 1 == old(input).left(),
{
    match symbol(input, errors, TokenKind::LocalIdentifier, ErrorKind::ExpectedLocalSymbol) {
        Some(name) => Some(LocalSymbol(name)),
        None => None,
    }
}

fn register_symbol(input: &mut Input<'_>, errors: &mut Vec<Error>) -> (name: Option<
    RegisterSymbol,
>)
    ensures
        name.is_some() ==> final(errors)@ == old(errors)@,
        old(input).advanced(final(input)),
        match name {
            Some(found) => {
                &&& grammar::register_at(old(input).source(), old(input).at()) matches Ok(given)
                &&& given == (found@, final(input).at())
            },
            None => {
                &&& grammar::register_at(old(input).source(), old(input).at()) matches Err(error)
                &&& final(errors)@ == old(errors)@.push(error)
            },
        },
        name.is_some() ==> final(input).left() + 1 == old(input).left(),
{
    match symbol(input, errors, TokenKind::RegisterIdentifier, ErrorKind::ExpectedRegisterSymbol)
    {
        Some(name) => Some(RegisterSymbol(name)),
        None => None,
    }
}

/// Reads registers with commas between them: none, where no register is
/// next.
fn many_registers(input: &mut Input<'_>, errors: &mut Vec<Error>) -> (registers: Option<
    Vec<RegisterSymbol>,
>)
    ensures
        registers.is_some() ==> final(errors)@ == old(errors)@,
        old(input).advanced(final(input)),
        match registers {
            Some(found) => {
                &&& grammar::registers(old(input).source(), old(input).at()) matches Ok(given)
                &&& given == (register_views(found@), final(input).at())
            },
            None => {
                &&& grammar::registers(old(input).source(), old(input).at()) matches Err(error)
                &&& final(errors)@ == old(errors)@.push(error)
            },
        },
{
    let mut registers: Vec<RegisterSymbol> = Vec::new();
    let ghost source = input.source();
    let ghost start = input.at();
    let first = match input.peek() {
        Some(token) => same_kind(token.kind, TokenKind::RegisterIdentifier),
        None => false,
    };
    if !first {
        proof {
            assert(register_views(registers@) =~= Seq::<NameView>::empty());
        }
        return Some(registers);
    }
    let register = register_symbol(input, errors)?;
    registers.push(register);
    proof {
        assert(register_views(registers@) =~= seq![register@]);
    }
    loop
        invariant
            old(input).advanced(input),
            errors@ == old(errors)@,
            input.source() == source,
            source == old(input).source(),
            start == old(input).at(),
            grammar::registers(source, start) == grammar::more_registers(
                source,
                input.at(),
                register_views(registers@),
            ),
        decreases input.left(),
    {
        proof {
            use_type_invariant(&*input);
        }
        if input.take(TokenKind::Comma).is_none() {
            return Some(registers);
        }
        let register = register_symbol(input, errors)?;
        let ghost before = registers@;
        registers.push(register);
        proof {
            assert(register_views(registers@) =~= register_views(before).push(register@));
        }
    }
}

/// Reads an integer literal.
fn integer_literal(input: &mut Input<'_>, errors: &mut Vec<Error>) -> (literal: Option<
    Positioned<i128>,
>)
    ensures
        literal.is_some() ==> final(errors)@ == old(errors)@,
        old(input).advanced(final(input)),
        match literal {
            Some(found) => {
                &&& grammar::integer(old(input).source(), old(input).at()) matches Ok(given)
                &&& given == (found, final(input).at())
            },
            None => {
                &&& grammar::integer(old(input).source(), old(input).at()) matches Err(error)
                &&& final(errors)@ == old(errors)@.push(error)
            },
        },
        literal.is_some() ==> final(input).left() + 1 == old(input).left(),
{
    let token = expect(
        input,
        errors,
        TokenKind::LiteralInteger(0),
        ErrorKind::ExpectedIntegerLiteral,
    )?;
    match token.kind {
        TokenKind::LiteralInteger(value) => Some((value, token.position)),
        _ => None,
    }
}

/// Reads a version number: an integer literal that is a `u32`.
fn version_number(input: &mut Input<'_>, errors: &mut Vec<Error>) -> (number: Option<u32>)
    ensures
        number.is_some() ==> final(errors)@ == old(errors)@,
        old(input).advanced(final(input)),
        match number {
            Some(found) => {
                &&& grammar::version_number(old(input).source(), old(input).at()) matches Ok(given)
                &&& given == (found, final(input).at())
            },
            None => {
                &&& grammar::version_number(old(input).source(), old(input).at()) matches Err(error)
                &&& final(errors)@ == old(errors)@.push(error)
            },
        },
        number.is_some() ==> final(input).left() + 1 == old(input).left(),
{
    let (value, position) = integer_literal(input, errors)?;
    if 0 <= value && value <= 0xFFFF_FFFF {
        Some(value as u32)
    } else {
        errors.push(Error { kind: ErrorKind::InvalidVersionNumber, position });
        None
    }
}

/// Reads a string literal that is an identifier.
fn identifier_literal(input: &mut Input<'_>, errors: &mut Vec<Error>) -> (name: Option<
    Positioned<Identifier>,
>)
    ensures
        name.is_some() ==> final(errors)@ == old(errors)@,
        old(input).advanced(final(input)),
        match name {
            Some(found) => {
                &&& grammar::identifier_literal(
                    old(input).source(),
                    old(input).at(),
                ) matches Ok(given)
                &&& given == (name_view(found), final(input).at())
            },
            None => {
                &&& grammar::identifier_literal(
                    old(input).source(),
                    old(input).at(),
                ) matches Err(error)
                &&& final(errors)@ == old(errors)@.push(error)
            },
        },
        name.is_some() ==> final(input).left() + 1 == old(input).left(),
{
    let token = expect(input, errors, TokenKind::LiteralString, ErrorKind::ExpectedStringLiteral)?;
    let quoted = input.text_of(token, 1);
    let content = if quoted.len() > 0 {
        slice_subrange(quoted, 0, quoted.len() - 1)
    } else {
        quoted
    };
    match Identifier::from_byte_slice(content) {
        Ok(identifier) => Some((identifier, token.position)),
        Err(_) => {
            errors.push(
                Error { kind: ErrorKind::ExpectedNonEmptyString, position: token.position },
            );
            None
        },
    }
}

/// Reads the name of a fixed-width integer type.
fn primitive_type(input: &mut Input<'_>, errors: &mut Vec<Error>) -> (read: Option<
    Positioned<PrimitiveType>,
>)
    ensures
        read.is_some() ==> final(errors)@ == old(errors)@,
        old(input).advanced(final(input)),
        match read {
            Some(found) => {
                &&& grammar::primitive_type(old(input).source(), old(input).at()) matches Ok(given)
                &&& given == (found, final(input).at())
            },
            None => {
                &&& grammar::primitive_type(old(input).source(), old(input).at()) matches Err(error)
                &&& final(errors)@ == old(errors)@.push(error)
            },
        },
        read.is_some() ==> final(input).left() + 1 == old(input).left(),
{
    let token = expect(input, errors, TokenKind::Keyword, ErrorKind::ExpectedType)?;
    let word = input.text_of(token, 0);
    let found = if same_bytes(word, "s8".as_bytes()) {
        PrimitiveType::S8
    } else if same_bytes(word, "u8".as_bytes()) {
        PrimitiveType::U8
    } else if same_bytes(word, "s16".as_bytes()) {
        PrimitiveType::S16
    } else if same_bytes(word, "u16".as_bytes()) {
        PrimitiveType::U16
    } else if same_bytes(word, "s32".as_bytes()) {
        PrimitiveType::S32
    } else if same_bytes(word, "u32".as_bytes()) {
        PrimitiveType::U32
    } else if same_bytes(word, "s64".as_bytes()) {
        PrimitiveType::S64
    } else if same_bytes(word, "u64".as_bytes()) {
        PrimitiveType::U64
    } else {
        errors.push(Error { kind: ErrorKind::ExpectedType, position: token.position });
        return None;
    };
    Some((found, token.position))
}

/// Reads types with commas between them, between parentheses.
fn function_types(input: &mut Input<'_>, errors: &mut Vec<Error>) -> (types: Option<
    Vec<Positioned<Type>>,
>)
    ensures
        types.is_some() ==> final(errors)@ == old(errors)@,
        old(input).advanced(final(input)),
        match types {
            Some(found) => {
                &&& grammar::function_types(old(input).source(), old(input).at()) matches Ok(given)
                &&& given == (found@, final(input).at())
            },
            None => {
                &&& grammar::function_types(old(input).source(), old(input).at()) matches Err(error)
                &&& final(errors)@ == old(errors)@.push(error)
            },
        },
        types.is_some() ==> final(input).left() < old(input).left(),
{
    let ghost source = input.source();
    let ghost start = input.at();
    expect(input, errors, TokenKind::OpenParenthesis, ErrorKind::ExpectedOpenParenthesis)?;
    let mut types: Vec<Positioned<Type>> = Vec::new();
    if input.take(TokenKind::CloseParenthesis).is_some() {
        proof {
            assert(types@ =~= Seq::<Positioned<Type>>::empty());
        }
        return Some(types);
    }
    proof {
        assert(types@ =~= Seq::<Positioned<Type>>::empty());
    }
    loop
        invariant
            old(input).advanced(input),
            errors@ == old(errors)@,
            input.left() < old(input).left(),
            input.source() == source,
            source == old(input).source(),
            start == old(input).at(),
            grammar::function_types(source, start) == grammar::more_types(
                source,
                input.at(),
                types@,
            ),
        decreases input.left(),
    {
        proof {
            use_type_invariant(&*input);
        }
        let (found, position) = primitive_type(input, errors)?;
        types.push((Type::Primitive(found), position));
        if input.take(TokenKind::Comma).is_none() {
            expect(
                input,
                errors,
                TokenKind::CloseParenthesis,
                ErrorKind::ExpectedCloseParenthesis,
            )?;
            return Some(types);
        }
    }
}

/// Reads `export`, where it is next.
fn export_attribute(input: &mut Input<'_>) -> (exported: bool)
    ensures
        old(input).advanced(final(input)),
        (exported, final(input).at()) == grammar::flag(
            old(input).source(),
            old(input).at(),
            "export",
        ),
{
    input.take_word(TokenKind::Keyword, 0, "export")
}

/// Reads `ovf.flag`, where it is next.
fn overflow_flag(input: &mut Input<'_>) -> (flagged: bool)
    ensures
        old(input).advanced(final(input)),
        (flagged, final(input).at()) == grammar::flag(
            old(input).source(),
            old(input).at(),
            "ovf.flag",
        ),
{
    input.take_word(TokenKind::Keyword, 0, "ovf.flag")
}

} // verus!

verus! {

/// The part of the text from `start` to the end of the token that was read
/// last.
fn span(input: &Input<'_>, start: usize) -> (position: Position)
    ensures
        position.start == start,
        position.end == input.last_end(),
        position.end == grammar::end_before(input.source(), input.at()),
{
    Position { start, end: input.end() }
}

/// Reads the rest of `add`, `sub` or `mul`: a register, the word between
/// the operands, a register and, if it is there, `ovf.flag`.
fn arithmetic(input: &mut Input<'_>, errors: &mut Vec<Error>, between: &str) -> (operation: Option<
    BasicArithmeticOperation,
>)
    ensures
        operation.is_some() ==> final(errors)@ == old(errors)@,
        old(input).advanced(final(input)),
        match operation {
            Some(found) => {
                &&& grammar::arithmetic(
                    old(input).source(),
                    old(input).at(),
                    between,
                ) matches Ok(given)
                &&& given == (found@, final(input).at())
            },
            None => {
                &&& grammar::arithmetic(
                    old(input).source(),
                    old(input).at(),
                    between,
                ) matches Err(error)
                &&& final(errors)@ == old(errors)@.push(error)
            },
        },
{
    proof {
        reveal(grammar::arithmetic);
    }
    let x = register_symbol(input, errors)?;
    if !expect_keyword(input, errors, between) {
        return None;
    }
    let y = register_symbol(input, errors)?;
    let flag_overflow = overflow_flag(input);
    Some(BasicArithmeticOperation { x, y, flag_overflow })
}

/// Reads the inputs of a branch: `with` and registers, if `with` is next.
fn branch_inputs(input: &mut Input<'_>, errors: &mut Vec<Error>) -> (inputs: Option<
    Vec<RegisterSymbol>,
>)
    ensures
        inputs.is_some() ==> final(errors)@ == old(errors)@,
        old(input).advanced(final(input)),
        match inputs {
            Some(found) => {
                &&& grammar::branch_inputs(old(input).source(), old(input).at()) matches Ok(given)
                &&& given == (register_views(found@), final(input).at())
            },
            None => {
                &&& grammar::branch_inputs(old(input).source(), old(input).at()) matches Err(error)
                &&& final(errors)@ == old(errors)@.push(error)
            },
        },
{
    if !input.take_word(TokenKind::Keyword, 0, "with") {
        return Some(Vec::new());
    }
    let registers = many_registers(input, errors)?;
    if registers.len() == 0 {
        errors.push(input.error(ErrorKind::ExpectedRegisterSymbol));
        return None;
    }
    Some(registers)
}

/// Reads one target of a `switch`: a value and the block for it.
fn switch_target(input: &mut Input<'_>, errors: &mut Vec<Error>) -> (target: Option<
    (Positioned<i128>, LocalSymbol),
>)
    ensures
        target.is_some() ==> final(errors)@ == old(errors)@,
        old(input).advanced(final(input)),
        match target {
            Some(found) => {
                &&& grammar::switch_target(old(input).source(), old(input).at()) matches Ok(given)
                &&& given == (target_view(found), final(input).at())
            },
            None => {
                &&& grammar::switch_target(old(input).source(), old(input).at()) matches Err(error)
                &&& final(errors)@ == old(errors)@.push(error)
            },
        },
        target.is_some() ==> final(input).left() < old(input).left(),
{
    let value = integer_literal(input, errors)?;
    let block = local_symbol(input, errors)?;
    Some((value, block))
}

/// Reads the targets of a `switch`: none, or targets with `or` between
/// them, before which `or` may stand too.
fn switch_targets(input: &mut Input<'_>, errors: &mut Vec<Error>) -> (targets: Option<
    Vec<(Positioned<i128>, LocalSymbol)>,
>)
    ensures
        targets.is_some() ==> final(errors)@ == old(errors)@,
        old(input).advanced(final(input)),
        match targets {
            Some(found) => {
                &&& grammar::switch_targets(old(input).source(), old(input).at()) matches Ok(given)
                &&& given == (target_views(found@), final(input).at())
            },
            None => {
                &&& grammar::switch_targets(old(input).source(), old(input).at()) matches Err(error)
                &&& final(errors)@ == old(errors)@.push(error)
            },
        },
{
    let ghost source = input.source();
    let ghost start = input.at();
    let mut targets: Vec<(Positioned<i128>, LocalSymbol)> = Vec::new();
    let leading = input.take_word(TokenKind::Keyword, 0, "or");
    let first = match input.peek() {
        Some(token) => same_kind(token.kind, TokenKind::LiteralInteger(0)),
        None => false,
    };
    if !leading && !first {
        proof {
            assert(target_views(targets@) =~= Seq::<(Positioned<i128>, NameView)>::empty());
        }
        return Some(targets);
    }
    let target = switch_target(input, errors)?;
    targets.push(target);
    proof {
        assert(target_views(targets@) =~= seq![target_view(target)]);
    }
    loop
        invariant
            old(input).advanced(input),
            errors@ == old(errors)@,
            input.source() == source,
            source == old(input).source(),
            start == old(input).at(),
            grammar::switch_targets(source, start) == grammar::more_targets(
                source,
                input.at(),
                target_views(targets@),
            ),
        decreases input.left(),
    {
        if !input.take_word(TokenKind::Keyword, 0, "or") {
            return Some(targets);
        }
        let target = switch_target(input, errors)?;
        let ghost before = targets@;
        targets.push(target);
        proof {
            assert(target_views(targets@) =~= target_views(before).push(target_view(target)));
        }
    }
}

/// Reads the rest of a `switch`.
fn switch(input: &mut Input<'_>, errors: &mut Vec<Error>) -> (instruction: Option<Instruction>)
    ensures
        instruction.is_some() ==> final(errors)@ == old(errors)@,
        old(input).advanced(final(input)),
        match instruction {
            Some(found) => {
                &&& grammar::switch(old(input).source(), old(input).at()) matches Ok(given)
                &&& given == (found@, final(input).at())
            },
            None => {
                &&& grammar::switch(old(input).source(), old(input).at()) matches Err(error)
                &&& final(errors)@ == old(errors)@.push(error)
            },
        },
{
    proof {
        reveal(grammar::switch);
    }
    let comparison_type = primitive_type(input, errors)?;
    let comparison = register_symbol(input, errors)?;
    if !expect_keyword(input, errors, "default") {
        return None;
    }
    let default_target = local_symbol(input, errors)?;
    let targets = switch_targets(input, errors)?;
    Some(Instruction::Switch { comparison, comparison_type, default_target, targets })
}

/// Reads the rest of `br`: a block and the inputs.
fn branch(input: &mut Input<'_>, errors: &mut Vec<Error>) -> (instruction: Option<Instruction>)
    ensures
        instruction.is_some() ==> final(errors)@ == old(errors)@,
        old(input).advanced(final(input)),
        match instruction {
            Some(found) => {
                &&& grammar::branch(old(input).source(), old(input).at()) matches Ok(given)
                &&& given == (found@, final(input).at())
            },
            None => {
                &&& grammar::branch(old(input).source(), old(input).at()) matches Err(error)
                &&& final(errors)@ == old(errors)@.push(error)
            },
        },
{
    proof {
        reveal(grammar::branch);
    }
    let target = local_symbol(input, errors)?;
    let inputs = branch_inputs(input, errors)?;
    Some(Instruction::Br { target, inputs })
}

/// Reads the rest of `br.if`: a register, `then` and a block, `else` and a
/// block, and the inputs.
fn branch_if(input: &mut Input<'_>, errors: &mut Vec<Error>) -> (instruction: Option<Instruction>)
    ensures
        instruction.is_some() ==> final(errors)@ == old(errors)@,
        old(input).advanced(final(input)),
        match instruction {
            Some(found) => {
                &&& grammar::branch_if(old(input).source(), old(input).at()) matches Ok(given)
                &&& given == (found@, final(input).at())
            },
            None => {
                &&& grammar::branch_if(old(input).source(), old(input).at()) matches Err(error)
                &&& final(errors)@ == old(errors)@.push(error)
            },
        },
{
    proof {
        reveal(grammar::branch_if);
    }
    let condition = register_symbol(input, errors)?;
    if !expect_keyword(input, errors, "then") {
        return None;
    }
    let true_branch = local_symbol(input, errors)?;
    if !expect_keyword(input, errors, "else") {
        return None;
    }
    let false_branch = local_symbol(input, errors)?;
    let inputs = branch_inputs(input, errors)?;
    Some(Instruction::BrIf { condition, true_branch, false_branch, inputs })
}

/// Reads the rest of `call`: a symbol and the arguments.
fn call(input: &mut Input<'_>, errors: &mut Vec<Error>) -> (instruction: Option<Instruction>)
    ensures
        instruction.is_some() ==> final(errors)@ == old(errors)@,
        old(input).advanced(final(input)),
        match instruction {
            Some(found) => {
                &&& grammar::call(old(input).source(), old(input).at()) matches Ok(given)
                &&& given == (found@, final(input).at())
            },
            None => {
                &&& grammar::call(old(input).source(), old(input).at()) matches Err(error)
                &&& final(errors)@ == old(errors)@.push(error)
            },
        },
{
    proof {
        reveal(grammar::call);
    }
    let function = global_symbol(input, errors)?;
    let arguments = many_registers(input, errors)?;
    Some(Instruction::Call { function, arguments })
}

/// Reads the rest of `const.i`: a type and an integer literal.
fn constant(input: &mut Input<'_>, errors: &mut Vec<Error>) -> (instruction: Option<Instruction>)
    ensures
        instruction.is_some() ==> final(errors)@ == old(errors)@,
        old(input).advanced(final(input)),
        match instruction {
            Some(found) => {
                &&& grammar::constant(old(input).source(), old(input).at()) matches Ok(given)
                &&& given == (found@, final(input).at())
            },
            None => {
                &&& grammar::constant(old(input).source(), old(input).at()) matches Err(error)
                &&& final(errors)@ == old(errors)@.push(error)
            },
        },
{
    proof {
        reveal(grammar::constant);
    }
    let integer_type = primitive_type(input, errors)?;
    let value = integer_literal(input, errors)?;
    Some(Instruction::ConstI(integer_type, value))
}

/// Reads the rest of `conv.i`: a register, `to`, a type and, if it is
/// there, `ovf.flag`.
fn conversion(input: &mut Input<'_>, errors: &mut Vec<Error>) -> (instruction: Option<Instruction>)
    ensures
        instruction.is_some() ==> final(errors)@ == old(errors)@,
        old(input).advanced(final(input)),
        match instruction {
            Some(found) => {
                &&& grammar::conversion(old(input).source(), old(input).at()) matches Ok(given)
                &&& given == (found@, final(input).at())
            },
            None => {
                &&& grammar::conversion(old(input).source(), old(input).at()) matches Err(error)
                &&& final(errors)@ == old(errors)@.push(error)
            },
        },
{
    proof {
        reveal(grammar::conversion);
    }
    let operand = register_symbol(input, errors)?;
    if !expect_keyword(input, errors, "to") {
        return None;
    }
    let target_type = primitive_type(input, errors)?;
    let flag_overflow = overflow_flag(input);
    Some(Instruction::ConvI { operand, target_type, flag_overflow })
}

/// Reads an instruction: its name and its operands.
fn instruction(input: &mut Input<'_>, errors: &mut Vec<Error>) -> (read: Option<
    Positioned<Instruction>,
>)
    ensures
        read.is_some() ==> final(errors)@ == old(errors)@,
        old(input).advanced(final(input)),
        match read {
            Some(found) => {
                &&& grammar::instruction(old(input).source(), old(input).at()) matches Ok(given)
                &&& given == ((found.0@, found.1), final(input).at())
            },
            None => {
                &&& grammar::instruction(old(input).source(), old(input).at()) matches Err(error)
                &&& final(errors)@ == old(errors)@.push(error)
            },
        },
        read.is_some() ==> final(input).left() < old(input).left(),
{
    let start = input.start();
    let name = expect(input, errors, TokenKind::Keyword, ErrorKind::ExpectedInstruction)?;
    let word = input.text_of(name, 0);
    let found = if same_bytes(word, "nop".as_bytes()) {
        Instruction::Nop
    } else if same_bytes(word, "ret".as_bytes()) {
        Instruction::Ret(many_registers(input, errors)?)
    } else if same_bytes(word, "switch".as_bytes()) {
        switch(input, errors)?
    } else if same_bytes(word, "br".as_bytes()) {
        branch(input, errors)?
    } else if same_bytes(word, "br.if".as_bytes()) {
        branch_if(input, errors)?
    } else if same_bytes(word, "call".as_bytes()) {
        call(input, errors)?
    } else if same_bytes(word, "add".as_bytes()) {
        Instruction::Add(arithmetic(input, errors, "to")?)
    } else if same_bytes(word, "sub".as_bytes()) {
        Instruction::Sub(arithmetic(input, errors, "from")?)
    } else if same_bytes(word, "mul".as_bytes()) {
        Instruction::Mul(arithmetic(input, errors, "by")?)
    } else if same_bytes(word, "const.i".as_bytes()) {
        constant(input, errors)?
    } else if same_bytes(word, "conv.i".as_bytes()) {
        conversion(input, errors)?
    } else {
        errors.push(Error { kind: ErrorKind::ExpectedInstruction, position: name.position });
        return None;
    };
    Some((found, span(input, start)))
}

/// Reads a statement: the registers of the results and `=`, if there are
/// results; an instruction; and a semicolon. Where there are no results,
/// their part of the text starts where the instruction starts and ends
/// where the token before it ends.
fn statement(input: &mut Input<'_>, errors: &mut Vec<Error>) -> (read: Option<Statement>)
    ensures
        read.is_some() ==> final(errors)@ == old(errors)@,
        old(input).advanced(final(input)),
        match read {
            Some(found) => {
                &&& grammar::statement(old(input).source(), old(input).at()) matches Ok(given)
                &&& given == (found@, final(input).at())
            },
            None => {
                &&& grammar::statement(old(input).source(), old(input).at()) matches Err(error)
                &&& final(errors)@ == old(errors)@.push(error)
            },
        },
        read.is_some() ==> final(input).left() < old(input).left(),
{
    proof {
        reveal(grammar::statement);
    }
    let start = input.start();
    let before = input.end();
    let first = match input.peek() {
        Some(token) => same_kind(token.kind, TokenKind::RegisterIdentifier),
        None => false,
    };
    let results = if first {
        let registers = many_registers(input, errors)?;
        expect(input, errors, TokenKind::Equals, ErrorKind::ExpectedEquals)?;
        (registers, span(input, start))
    } else {
        (Vec::new(), Position { start, end: before })
    };
    proof {
        if !first {
            assert(register_views(results.0@) =~= Seq::<NameView>::empty());
        }
    }
    let instruction = instruction(input, errors)?;
    expect(input, errors, TokenKind::Semicolon, ErrorKind::ExpectedSemicolon)?;
    Some(Statement { results, instruction })
}

/// Reads the arguments of a block, between parentheses.
fn block_arguments(input: &mut Input<'_>, errors: &mut Vec<Error>) -> (arguments: Option<
    Vec<RegisterSymbol>,
>)
    ensures
        arguments.is_some() ==> final(errors)@ == old(errors)@,
        old(input).advanced(final(input)),
        match arguments {
            Some(found) => {
                &&& grammar::block_arguments(old(input).source(), old(input).at()) matches Ok(given)
                &&& given == (register_views(found@), final(input).at())
            },
            None => {
                &&& grammar::block_arguments(
                    old(input).source(),
                    old(input).at(),
                ) matches Err(error)
                &&& final(errors)@ == old(errors)@.push(error)
            },
        },
{
    expect(input, errors, TokenKind::OpenParenthesis, ErrorKind::ExpectedOpenParenthesis)?;
    let arguments = many_registers(input, errors)?;
    expect(input, errors, TokenKind::CloseParenthesis, ErrorKind::ExpectedCloseParenthesis)?;
    Some(arguments)
}

/// Reads the statements of a block, between brackets.
fn statements(input: &mut Input<'_>, errors: &mut Vec<Error>) -> (read: Option<
    Vec<Statement>,
>)
    ensures
        read.is_some() ==> final(errors)@ == old(errors)@,
        old(input).advanced(final(input)),
        match read {
            Some(found) => {
                &&& grammar::statements(old(input).source(), old(input).at()) matches Ok(given)
                &&& given == (statement_views(found@), final(input).at())
            },
            None => {
                &&& grammar::statements(old(input).source(), old(input).at()) matches Err(error)
                &&& final(errors)@ == old(errors)@.push(error)
            },
        },
{
    let ghost source = input.source();
    let ghost start = input.at();
    expect(input, errors, TokenKind::OpenBracket, ErrorKind::ExpectedOpenBracket)?;
    let mut read: Vec<Statement> = Vec::new();
    proof {
        assert(statement_views(read@) =~= Seq::<StatementView>::empty());
    }
    loop
        invariant
            old(input).advanced(input),
            errors@ == old(errors)@,
            input.source() == source,
            source == old(input).source(),
            start == old(input).at(),
            grammar::statements(source, start) == grammar::more_statements(
                source,
                input.at(),
                statement_views(read@),
            ),
        decreases input.left(),
    {
        proof {
            use_type_invariant(&*input);
        }
        if input.take(TokenKind::CloseBracket).is_some() {
            return Some(read);
        }
        let item = statement(input, errors)?;
        let ghost before = read@;
        read.push(item);
        proof {
            use_type_invariant(&*input);
            assert(statement_views(read@) =~= statement_views(before).push(item@));
        }
    }
}

/// Reads a declaration within `.code`: `.entry` or `.block`.
fn code_declaration(input: &mut Input<'_>, errors: &mut Vec<Error>) -> (read: Option<
    Positioned<CodeDeclaration>,
>)
    ensures
        read.is_some() ==> final(errors)@ == old(errors)@,
        old(input).advanced(final(input)),
        match read {
            Some(found) => {
                &&& grammar::code_declaration(
                    old(input).source(),
                    old(input).at(),
                ) matches Ok(given)
                &&& given == ((found.0@, found.1), final(input).at())
            },
            None => {
                &&& grammar::code_declaration(
                    old(input).source(),
                    old(input).at(),
                ) matches Err(error)
                &&& final(errors)@ == old(errors)@.push(error)
            },
        },
        read.is_some() ==> final(input).left() < old(input).left(),
{
    proof {
        reveal(grammar::code_declaration);
    }
    let start = input.start();
    let declaration = if input.take_word(TokenKind::Directive, 1, "entry") {
        CodeDeclaration::Entry(local_symbol(input, errors)?)
    } else if input.take_word(TokenKind::Directive, 1, "block") {
        let name = local_symbol(input, errors)?;
        let arguments = block_arguments(input, errors)?;
        let instructions = statements(input, errors)?;
        CodeDeclaration::Block { name, arguments, instructions }
    } else {
        errors.push(input.error(ErrorKind::ExpectedDeclaration));
        return None;
    };
    expect(input, errors, TokenKind::Semicolon, ErrorKind::ExpectedSemicolon)?;
    Some((declaration, span(input, start)))
}

/// Reads a declaration within `.format`: `.major` or `.minor`.
fn format_declaration(input: &mut Input<'_>, errors: &mut Vec<Error>) -> (read: Option<
    Positioned<FormatDeclaration>,
>)
    ensures
        read.is_some() ==> final(errors)@ == old(errors)@,
        old(input).advanced(final(input)),
        match read {
            Some(found) => {
                &&& grammar::format_declaration(
                    old(input).source(),
                    old(input).at(),
                ) matches Ok(given)
                &&& given == (found, final(input).at())
            },
            None => {
                &&& grammar::format_declaration(
                    old(input).source(),
                    old(input).at(),
                ) matches Err(error)
                &&& final(errors)@ == old(errors)@.push(error)
            },
        },
        read.is_some() ==> final(input).left() < old(input).left(),
{
    proof {
        reveal(grammar::format_declaration);
    }
    let start = input.start();
    let declaration = if input.take_word(TokenKind::Directive, 1, "major") {
        FormatDeclaration::Major(version_number(input, errors)?)
    } else if input.take_word(TokenKind::Directive, 1, "minor") {
        FormatDeclaration::Minor(version_number(input, errors)?)
    } else {
        errors.push(input.error(ErrorKind::ExpectedDeclaration));
        return None;
    };
    expect(input, errors, TokenKind::Semicolon, ErrorKind::ExpectedSemicolon)?;
    Some((declaration, span(input, start)))
}

/// Reads the numbers of a version, as many as there are.
fn version_numbers(input: &mut Input<'_>, errors: &mut Vec<Error>) -> (numbers: Option<Vec<u32>>)
    ensures
        numbers.is_some() ==> final(errors)@ == old(errors)@,
        old(input).advanced(final(input)),
        match numbers {
            Some(found) => {
                &&& grammar::version_numbers(
                    old(input).source(),
                    old(input).at(),
                    Seq::empty(),
                ) matches Ok(given)
                &&& given == (found@, final(input).at())
            },
            None => {
                &&& grammar::version_numbers(
                    old(input).source(),
                    old(input).at(),
                    Seq::empty(),
                ) matches Err(error)
                &&& final(errors)@ == old(errors)@.push(error)
            },
        },
{
    let ghost source = input.source();
    let ghost start = input.at();
    let mut numbers: Vec<u32> = Vec::new();
    proof {
        assert(numbers@ =~= Seq::<u32>::empty());
    }
    loop
        invariant
            old(input).advanced(input),
            errors@ == old(errors)@,
            input.source() == source,
            source == old(input).source(),
            start == old(input).at(),
            grammar::version_numbers(source, start, Seq::empty()) == grammar::version_numbers(
                source,
                input.at(),
                numbers@,
            ),
        decreases input.left(),
    {
        let more = match input.peek() {
            Some(token) => same_kind(token.kind, TokenKind::LiteralInteger(0)),
            None => false,
        };
        if !more {
            return Some(numbers);
        }
        let number = version_number(input, errors)?;
        numbers.push(number);
    }
}

/// Reads a declaration within `.module`: `.name` or `.version`.
fn module_declaration(input: &mut Input<'_>, errors: &mut Vec<Error>) -> (read: Option<
    Positioned<ModuleDeclaration>,
>)
    ensures
        read.is_some() ==> final(errors)@ == old(errors)@,
        old(input).advanced(final(input)),
        match read {
            Some(found) => {
                &&& grammar::module_declaration(
                    old(input).source(),
                    old(input).at(),
                ) matches Ok(given)
                &&& given == ((found.0@, found.1), final(input).at())
            },
            None => {
                &&& grammar::module_declaration(
                    old(input).source(),
                    old(input).at(),
                ) matches Err(error)
                &&& final(errors)@ == old(errors)@.push(error)
            },
        },
        read.is_some() ==> final(input).left() < old(input).left(),
{
    proof {
        reveal(grammar::module_declaration);
    }
    let start = input.start();
    let declaration = if input.take_word(TokenKind::Directive, 1, "name") {
        ModuleDeclaration::Name(identifier_literal(input, errors)?)
    } else if input.take_word(TokenKind::Directive, 1, "version") {
        ModuleDeclaration::Version(version_numbers(input, errors)?)
    } else {
        errors.push(input.error(ErrorKind::ExpectedDeclaration));
        return None;
    };
    expect(input, errors, TokenKind::Semicolon, ErrorKind::ExpectedSemicolon)?;
    Some((declaration, span(input, start)))
}

/// Reads a declaration within `.function`: `.name` or `.body`.
fn function_declaration(input: &mut Input<'_>, errors: &mut Vec<Error>) -> (read: Option<
    Positioned<FunctionDeclaration>,
>)
    ensures
        read.is_some() ==> final(errors)@ == old(errors)@,
        old(input).advanced(final(input)),
        match read {
            Some(found) => {
                &&& grammar::function_declaration(
                    old(input).source(),
                    old(input).at(),
                ) matches Ok(given)
                &&& given == ((found.0@, found.1), final(input).at())
            },
            None => {
                &&& grammar::function_declaration(
                    old(input).source(),
                    old(input).at(),
                ) matches Err(error)
                &&& final(errors)@ == old(errors)@.push(error)
            },
        },
        read.is_some() ==> final(input).left() < old(input).left(),
{
    proof {
        reveal(grammar::function_declaration);
    }
    let start = input.start();
    let declaration = if input.take_word(TokenKind::Directive, 1, "name") {
        FunctionDeclaration::Name(identifier_literal(input, errors)?)
    } else if input.take_word(TokenKind::Directive, 1, "body") {
        if !input.take_word(TokenKind::Keyword, 0, "defined") {
            errors.push(input.error(ErrorKind::ExpectedBody));
            return None;
        }
        FunctionDeclaration::Body(FunctionBodyDeclaration::Defined(global_symbol(input, errors)?))
    } else {
        errors.push(input.error(ErrorKind::ExpectedDeclaration));
        return None;
    };
    expect(input, errors, TokenKind::Semicolon, ErrorKind::ExpectedSemicolon)?;
    Some((declaration, span(input, start)))
}

/// Reads a declaration within `.field`: `.name`.
fn field_declaration(input: &mut Input<'_>, errors: &mut Vec<Error>) -> (read: Option<
    Positioned<FieldDeclaration>,
>)
    ensures
        read.is_some() ==> final(errors)@ == old(errors)@,
        old(input).advanced(final(input)),
        match read {
            Some(found) => {
                &&& grammar::field_declaration(
                    old(input).source(),
                    old(input).at(),
                ) matches Ok(given)
                &&& given == ((found.0@, found.1), final(input).at())
            },
            None => {
                &&& grammar::field_declaration(
                    old(input).source(),
                    old(input).at(),
                ) matches Err(error)
                &&& final(errors)@ == old(errors)@.push(error)
            },
        },
        read.is_some() ==> final(input).left() < old(input).left(),
{
    proof {
        reveal(grammar::field_declaration);
    }
    let start = input.start();
    if !input.take_word(TokenKind::Directive, 1, "name") {
        errors.push(input.error(ErrorKind::ExpectedDeclaration));
        return None;
    }
    let name = identifier_literal(input, errors)?;
    expect(input, errors, TokenKind::Semicolon, ErrorKind::ExpectedSemicolon)?;
    Some((FieldDeclaration::Name(name), span(input, start)))
}

/// Reads the declarations of a field, between brackets.
fn field_declarations(input: &mut Input<'_>, errors: &mut Vec<Error>) -> (read: Option<
    Vec<Positioned<FieldDeclaration>>,
>)
    ensures
        read.is_some() ==> final(errors)@ == old(errors)@,
        old(input).advanced(final(input)),
        match read {
            Some(found) => {
                &&& grammar::field_declarations(
                    old(input).source(),
                    old(input).at(),
                ) matches Ok(given)
                &&& given == (positioned_views(found@), final(input).at())
            },
            None => {
                &&& grammar::field_declarations(
                    old(input).source(),
                    old(input).at(),
                ) matches Err(error)
                &&& final(errors)@ == old(errors)@.push(error)
            },
        },
{
    let ghost source = input.source();
    let ghost start = input.at();
    expect(input, errors, TokenKind::OpenBracket, ErrorKind::ExpectedOpenBracket)?;
    let mut read: Vec<Positioned<FieldDeclaration>> = Vec::new();
    proof {
        assert(positioned_views(read@) =~= Seq::<(FieldDeclarationView, Position)>::empty());
    }
    loop
        invariant
            old(input).advanced(input),
            errors@ == old(errors)@,
            input.source() == source,
            source == old(input).source(),
            start == old(input).at(),
            grammar::field_declarations(source, start) == grammar::more_field_declarations(
                source,
                input.at(),
                positioned_views(read@),
            ),
        decreases input.left(),
    {
        proof {
            use_type_invariant(&*input);
        }
        if input.take(TokenKind::CloseBracket).is_some() {
            return Some(read);
        }
        let item = field_declaration(input, errors)?;
        let ghost before = read@;
        read.push(item);
        proof {
            use_type_invariant(&*input);
            assert(positioned_views(read@) =~= positioned_views(before).push((item.0@, item.1)));
        }
    }
}

/// Reads a declaration within `.struct`: `.name` or `.field`.
fn struct_declaration(input: &mut Input<'_>, errors: &mut Vec<Error>) -> (read: Option<
    Positioned<StructDeclaration>,
>)
    ensures
        read.is_some() ==> final(errors)@ == old(errors)@,
        old(input).advanced(final(input)),
        match read {
            Some(found) => {
                &&& grammar::struct_declaration(
                    old(input).source(),
                    old(input).at(),
                ) matches Ok(given)
                &&& given == ((found.0@, found.1), final(input).at())
            },
            None => {
                &&& grammar::struct_declaration(
                    old(input).source(),
                    old(input).at(),
                ) matches Err(error)
                &&& final(errors)@ == old(errors)@.push(error)
            },
        },
        read.is_some() ==> final(input).left() < old(input).left(),
{
    proof {
        reveal(grammar::struct_declaration);
    }
    let start = input.start();
    let declaration = if input.take_word(TokenKind::Directive, 1, "name") {
        StructDeclaration::Name(identifier_literal(input, errors)?)
    } else if input.take_word(TokenKind::Directive, 1, "field") {
        let symbol = global_symbol(input, errors)?;
        let (found, position) = primitive_type(input, errors)?;
        let is_export = export_attribute(input);
        let declarations = field_declarations(input, errors)?;
        StructDeclaration::Field {
            symbol,
            value_type: (Type::Primitive(found), position),
            is_export,
            declarations,
        }
    } else {
        errors.push(input.error(ErrorKind::ExpectedDeclaration));
        return None;
    };
    expect(input, errors, TokenKind::Semicolon, ErrorKind::ExpectedSemicolon)?;
    Some((declaration, span(input, start)))
}

/// Reads the declarations of `.format`, between brackets.
fn format_declarations(input: &mut Input<'_>, errors: &mut Vec<Error>) -> (read: Option<
    Vec<Positioned<FormatDeclaration>>,
>)
    ensures
        read.is_some() ==> final(errors)@ == old(errors)@,
        old(input).advanced(final(input)),
        match read {
            Some(found) => {
                &&& grammar::format_declarations(
                    old(input).source(),
                    old(input).at(),
                ) matches Ok(given)
                &&& given == (found@, final(input).at())
            },
            None => {
                &&& grammar::format_declarations(
                    old(input).source(),
                    old(input).at(),
                ) matches Err(error)
                &&& final(errors)@ == old(errors)@.push(error)
            },
        },
{
    let ghost source = input.source();
    let ghost start = input.at();
    expect(input, errors, TokenKind::OpenBracket, ErrorKind::ExpectedOpenBracket)?;
    let mut read: Vec<Positioned<FormatDeclaration>> = Vec::new();
    proof {
        assert(read@ =~= Seq::<Positioned<FormatDeclaration>>::empty());
    }
    loop
        invariant
            old(input).advanced(input),
            errors@ == old(errors)@,
            input.source() == source,
            source == old(input).source(),
            start == old(input).at(),
            grammar::format_declarations(source, start) == grammar::more_format_declarations(
                source,
                input.at(),
                read@,
            ),
        decreases input.left(),
    {
        proof {
            use_type_invariant(&*input);
        }
        if input.take(TokenKind::CloseBracket).is_some() {
            return Some(read);
        }
        let item = format_declaration(input, errors)?;
        let ghost before = read@;
        read.push(item);
        proof {
            use_type_invariant(&*input);
            assert(read@ =~= before.push(item));
        }
    }
}

/// Reads the declarations of `.module`, between brackets.
fn module_declarations(input: &mut Input<'_>, errors: &mut Vec<Error>) -> (read: Option<
    Vec<Positioned<ModuleDeclaration>>,
>)
    ensures
        read.is_some() ==> final(errors)@ == old(errors)@,
        old(input).advanced(final(input)),
        match read {
            Some(found) => {
                &&& grammar::module_declarations(
                    old(input).source(),
                    old(input).at(),
                ) matches Ok(given)
                &&& given == (positioned_views(found@), final(input).at())
            },
            None => {
                &&& grammar::module_declarations(
                    old(input).source(),
                    old(input).at(),
                ) matches Err(error)
                &&& final(errors)@ == old(errors)@.push(error)
            },
        },
{
    let ghost source = input.source();
    let ghost start = input.at();
    expect(input, errors, TokenKind::OpenBracket, ErrorKind::ExpectedOpenBracket)?;
    let mut read: Vec<Positioned<ModuleDeclaration>> = Vec::new();
    proof {
        assert(positioned_views(read@) =~= Seq::<(ModuleDeclarationView, Position)>::empty());
    }
    loop
        invariant
            old(input).advanced(input),
            errors@ == old(errors)@,
            input.source() == source,
            source == old(input).source(),
            start == old(input).at(),
            grammar::module_declarations(source, start) == grammar::more_module_declarations(
                source,
                input.at(),
                positioned_views(read@),
            ),
        decreases input.left(),
    {
        proof {
            use_type_invariant(&*input);
        }
        if input.take(TokenKind::CloseBracket).is_some() {
            return Some(read);
        }
        let item = module_declaration(input, errors)?;
        let ghost before = read@;
        read.push(item);
        proof {
            use_type_invariant(&*input);
            assert(positioned_views(read@) =~= positioned_views(before).push((item.0@, item.1)));
        }
    }
}

/// Reads the declarations of `.code`, between brackets.
fn code_declarations(input: &mut Input<'_>, errors: &mut Vec<Error>) -> (read: Option<
    Vec<Positioned<CodeDeclaration>>,
>)
    ensures
        read.is_some() ==> final(errors)@ == old(errors)@,
        old(input).advanced(final(input)),
        match read {
            Some(found) => {
                &&& grammar::code_declarations(
                    old(input).source(),
                    old(input).at(),
                ) matches Ok(given)
                &&& given == (positioned_views(found@), final(input).at())
            },
            None => {
                &&& grammar::code_declarations(
                    old(input).source(),
                    old(input).at(),
                ) matches Err(error)
                &&& final(errors)@ == old(errors)@.push(error)
            },
        },
{
    let ghost source = input.source();
    let ghost start = input.at();
    expect(input, errors, TokenKind::OpenBracket, ErrorKind::ExpectedOpenBracket)?;
    let mut read: Vec<Positioned<CodeDeclaration>> = Vec::new();
    proof {
        assert(positioned_views(read@) =~= Seq::<(CodeDeclarationView, Position)>::empty());
    }
    loop
        invariant
            old(input).advanced(input),
            errors@ == old(errors)@,
            input.source() == source,
            source == old(input).source(),
            start == old(input).at(),
            grammar::code_declarations(source, start) == grammar::more_code_declarations(
                source,
                input.at(),
                positioned_views(read@),
            ),
        decreases input.left(),
    {
        proof {
            use_type_invariant(&*input);
        }
        if input.take(TokenKind::CloseBracket).is_some() {
            return Some(read);
        }
        let item = code_declaration(input, errors)?;
        let ghost before = read@;
        read.push(item);
        proof {
            use_type_invariant(&*input);
            assert(positioned_views(read@) =~= positioned_views(before).push((item.0@, item.1)));
        }
    }
}

/// Reads the declarations of `.function`, between brackets.
fn function_declarations(input: &mut Input<'_>, errors: &mut Vec<Error>) -> (read: Option<
    Vec<Positioned<FunctionDeclaration>>,
>)
    ensures
        read.is_some() ==> final(errors)@ == old(errors)@,
        old(input).advanced(final(input)),
        match read {
            Some(found) => {
                &&& grammar::function_declarations(
                    old(input).source(),
                    old(input).at(),
                ) matches Ok(given)
                &&& given == (positioned_views(found@), final(input).at())
            },
            None => {
                &&& grammar::function_declarations(
                    old(input).source(),
                    old(input).at(),
                ) matches Err(error)
                &&& final(errors)@ == old(errors)@.push(error)
            },
        },
{
    let ghost source = input.source();
    let ghost start = input.at();
    expect(input, errors, TokenKind::OpenBracket, ErrorKind::ExpectedOpenBracket)?;
    let mut read: Vec<Positioned<FunctionDeclaration>> = Vec::new();
    proof {
        assert(positioned_views(read@) =~= Seq::<(FunctionDeclarationView, Position)>::empty());
    }
    loop
        invariant
            old(input).advanced(input),
            errors@ == old(errors)@,
            input.source() == source,
            source == old(input).source(),
            start == old(input).at(),
            grammar::function_declarations(source, start) == grammar::more_function_declarations(
                source,
                input.at(),
                positioned_views(read@),
            ),
        decreases input.left(),
    {
        proof {
            use_type_invariant(&*input);
        }
        if input.take(TokenKind::CloseBracket).is_some() {
            return Some(read);
        }
        let item = function_declaration(input, errors)?;
        let ghost before = read@;
        read.push(item);
        proof {
            use_type_invariant(&*input);
            assert(positioned_views(read@) =~= positioned_views(before).push((item.0@, item.1)));
        }
    }
}

/// Reads the declarations of `.struct`, between brackets.
fn struct_declarations(input: &mut Input<'_>, errors: &mut Vec<Error>) -> (read: Option<
    Vec<Positioned<StructDeclaration>>,
>)
    ensures
        read.is_some() ==> final(errors)@ == old(errors)@,
        old(input).advanced(final(input)),
        match read {
            Some(found) => {
                &&& grammar::struct_declarations(
                    old(input).source(),
                    old(input).at(),
                ) matches Ok(given)
                &&& given == (positioned_views(found@), final(input).at())
            },
            None => {
                &&& grammar::struct_declarations(
                    old(input).source(),
                    old(input).at(),
                ) matches Err(error)
                &&& final(errors)@ == old(errors)@.push(error)
            },
        },
{
    let ghost source = input.source();
    let ghost start = input.at();
    expect(input, errors, TokenKind::OpenBracket, ErrorKind::ExpectedOpenBracket)?;
    let mut read: Vec<Positioned<StructDeclaration>> = Vec::new();
    proof {
        assert(positioned_views(read@) =~= Seq::<(StructDeclarationView, Position)>::empty());
    }
    loop
        invariant
            old(input).advanced(input),
            errors@ == old(errors)@,
            input.source() == source,
            source == old(input).source(),
            start == old(input).at(),
            grammar::struct_declarations(source, start) == grammar::more_struct_declarations(
                source,
                input.at(),
                positioned_views(read@),
            ),
        decreases input.left(),
    {
        proof {
            use_type_invariant(&*input);
        }
        if input.take(TokenKind::CloseBracket).is_some() {
            return Some(read);
        }
        let item = struct_declaration(input, errors)?;
        let ghost before = read@;
        read.push(item);
        proof {
            use_type_invariant(&*input);
            assert(positioned_views(read@) =~= positioned_views(before).push((item.0@, item.1)));
        }
    }
}

/// Reads a declaration at the top of the text. Its part of the text
/// starts where its first token starts and ends where its last token, a
/// semicolon, ends.
fn top_level_declaration(input: &mut Input<'_>, errors: &mut Vec<Error>) -> (read: Option<
    Positioned<TopLevelDeclaration>,
>)
    ensures
        read.is_some() ==> final(errors)@ == old(errors)@,
        old(input).advanced(final(input)),
        match read {
            Some(found) => {
                &&& grammar::top_level_declaration(
                    old(input).source(),
                    old(input).at(),
                ) matches Ok(given)
                &&& given == ((found.0@, found.1), final(input).at())
            },
            None => {
                &&& grammar::top_level_declaration(
                    old(input).source(),
                    old(input).at(),
                ) matches Err(error)
                &&& final(errors)@ == old(errors)@.push(error)
            },
        },
        read matches Some(declaration) ==> {
            &&& final(input).left() < old(input).left()
            &&& declaration.1.start == old(input).next_start()
            &&& declaration.1.end == final(input).last_end()
            &&& declaration.1.start < declaration.1.end
        },
{
    proof {
        reveal(grammar::top_level_body);
    }
    let start = input.start();
    let declaration = if input.take_word(TokenKind::Directive, 1, "format") {
        TopLevelDeclaration::Format(format_declarations(input, errors)?)
    } else if input.take_word(TokenKind::Directive, 1, "module") {
        TopLevelDeclaration::Module(module_declarations(input, errors)?)
    } else if input.take_word(TokenKind::Directive, 1, "entry") {
        TopLevelDeclaration::Entry(global_symbol(input, errors)?)
    } else if input.take_word(TokenKind::Directive, 1, "code") {
        let symbol = global_symbol(input, errors)?;
        let declarations = code_declarations(input, errors)?;
        TopLevelDeclaration::Code { symbol, declarations }
    } else if input.take_word(TokenKind::Directive, 1, "function") {
        let symbol = global_symbol(input, errors)?;
        let parameter_types = function_types(input, errors)?;
        if !expect_keyword(input, errors, "returns") {
            return None;
        }
        let return_types = function_types(input, errors)?;
        let is_export = export_attribute(input);
        let declarations = function_declarations(input, errors)?;
        TopLevelDeclaration::Function {
            symbol,
            is_export,
            parameter_types,
            return_types,
            declarations,
        }
    } else if input.take_word(TokenKind::Directive, 1, "struct") {
        let symbol = global_symbol(input, errors)?;
        let is_export = export_attribute(input);
        let declarations = struct_declarations(input, errors)?;
        TopLevelDeclaration::Struct { symbol, is_export, declarations }
    } else {
        errors.push(input.error(ErrorKind::ExpectedDeclaration));
        return None;
    };
    assert(input.last_end() > start);
    assert(input.left() < old(input).left());
    expect(input, errors, TokenKind::Semicolon, ErrorKind::ExpectedSemicolon)?;
    Some((declaration, span(input, start)))
}

/// Whether the declarations of a tree stand in the order of the text,
/// one behind the other, each in a part of the text that is not empty.
pub open spec fn in_order(tree: Seq<Positioned<TopLevelDeclaration>>, length: nat) -> bool {
    &&& forall|i: int|
        0 <= i < tree.len() ==> (#[trigger] tree[i]).1.start < tree[i].1.end <= length
    &&& forall|i: int, j: int|
        0 <= i < j < tree.len() ==> (#[trigger] tree[i]).1.end <= (#[trigger] tree[j]).1.start
}

/// What the declarations of a tree stand for.
pub open spec fn tree_view(tree: Seq<Positioned<TopLevelDeclaration>>) -> Seq<
    (TopLevelDeclarationView, Position),
> {
    positioned_views(tree)
}

/// Whether every token of a list lies within the part of the text of one
/// of the declarations of a tree.
pub open spec fn all_read(tree: Seq<Positioned<TopLevelDeclaration>>, tokens: Seq<Token>) -> bool {
    forall|t: int| 0 <= t < tokens.len() ==> is_read(tree, #[trigger] tokens[t])
}

/// Whether a token lies within the part of the text of one of the
/// declarations of a tree.
pub open spec fn is_read(tree: Seq<Positioned<TopLevelDeclaration>>, token: Token) -> bool {
    exists|d: int|
        0 <= d < tree.len() && (#[trigger] tree[d]).1.start <= token.position.start
            && token.position.end <= tree[d].1.end
}

/// Whether `tree` holds the declarations that the grammar reads from the
/// tokens of a text, and `errors` the error with which it stops before all
/// tokens are read, where it does.
pub open spec fn is_tree_of(
    text: Seq<u8>,
    tokens: Seq<Token>,
    tree: Seq<Positioned<TopLevelDeclaration>>,
    errors: Seq<Error>,
) -> bool {
    grammar::tree_of(Source { text, tokens }) == (tree_view(tree), stopped_at(errors))
}

/// The error of a list of at most one error, if it holds one.
pub open spec fn stopped_at(errors: Seq<Error>) -> Option<Error> {
    if errors.len() == 0 {
        None
    } else {
        Some(errors[0])
    }
}

/// The syntax tree of the tokens of a text: the declarations that the
/// grammar reads from them, in the order of the text. The parser stops at
/// the first token at which no declaration can be read, and says why in
/// one error; where there is no error, every token is part of a
/// declaration.
pub fn parse(text: &[u8], tokens: &[Token]) -> (read: (Tree, Vec<Error>))
    requires
        tokens_match(text@, tokens@),
    ensures
        in_order(read.0@, text@.len()),
        read.1@.len() <= 1,
        read.1@.len() == 0 ==> all_read(read.0@, tokens@),
        is_tree_of(text@, tokens@, read.0@, read.1@),
{
    let ghost source = Source { text: text@, tokens: tokens@ };
    let mut input = Input::new(text, tokens);
    let mut tree: Tree = Vec::new();
    let mut errors: Vec<Error> = Vec::new();
    let mut failed = false;
    proof {
        assert(tree_view(tree@) =~= Seq::<(TopLevelDeclarationView, Position)>::empty());
    }
    while !failed && !input.at_end()
        invariant
            source == (Source { text: text@, tokens: tokens@ }),
            grammar::tree_of(source) == (if failed {
                (tree_view(tree@), stopped_at(errors@))
            } else {
                grammar::rest_of_tree(source, input.at(), tree_view(tree@))
            }),
            input.length() == text@.len(),
            input.text@ == text@,
            input.tokens@ == tokens@,
            input.index <= tokens@.len(),
            tokens_match(text@, tokens@),
            in_order(tree@, text@.len()),
            forall|i: int| 0 <= i < tree@.len() ==> (#[trigger] tree@[i]).1.end <= input.last_end(),
            !failed ==> all_read(tree@, tokens@.take(input.index as int)),
            !failed ==> errors@.len() == 0,
            failed ==> errors@.len() == 1,
        decreases input.left() + (if failed { 0int } else { 1int }),
    {
        let ghost before = input;
        let ghost done = tree@;
        match top_level_declaration(&mut input, &mut errors) {
            Some(declaration) => {
                tree.push(declaration);
                proof {
                    use_type_invariant(&input);
                    assert(tree_view(tree@) =~= tree_view(done).push(
                        (declaration.0@, declaration.1),
                    ));
                    assert forall|t: int| 0 <= t < input.index implies is_read(
                        tree@,
                        #[trigger] tokens@.take(input.index as int)[t],
                    ) by {
                        if t < before.index {
                            assert(tokens@.take(before.index as int)[t] == tokens@[t]);
                            assert(is_read(done, tokens@.take(before.index as int)[t]));
                            let d = choose|d: int|
                                0 <= d < done.len() && (#[trigger] done[d]).1.start
                                    <= tokens@[t].position.start && tokens@[t].position.end
                                    <= done[d].1.end;
                            assert(tree@[d] == done[d]);
                        } else {
                            let d = done.len() as int;
                            assert(tree@[d] == declaration);
                            let first = tokens@[before.index as int];
                            let last = tokens@[input.index - 1];
                            let token = tokens@[t];
                            if t > before.index {
                                assert(first.position.end <= token.position.start);
                            }
                            if t < input.index - 1 {
                                assert(token.position.end <= last.position.start);
                                assert(token_matches(text@, last));
                            }
                        }
                    }
                }
            },
            None => {
                failed = true;
            },
        }
        proof {
            use_type_invariant(&input);
        }
    }
    proof {
        if !failed {
            use_type_invariant(&input);
            assert(tokens@.take(input.index as int) =~= tokens@);
        }
    }
    (tree, errors)
}

/// Whether a text with the given tokens is read as a tree: the tokens and
/// the errors of the lexer are what the text is read as, and the tree and
/// the errors of the parser are what the grammar reads from the tokens.
pub open spec fn is_read_as(
    text: Seq<u8>,
    tokens: Seq<Token>,
    tree: Seq<Positioned<TopLevelDeclaration>>,
    lexer_errors: Seq<lexer::Error>,
    errors: Seq<Error>,
) -> bool {
    lexer::lexed(text, tokens, lexer_errors) && is_tree_of(text, tokens, tree, errors)
}

/// The syntax tree of a text, with what the lexer could not read and what
/// the parser could not read. The tree holds the declarations that the
/// grammar reads from the tokens of the text.
pub fn tree_from_str(input: &str) -> (read: (Tree, Vec<lexer::Error>, Vec<Error>))
    ensures
        in_order(read.0@, input.spec_bytes().len()),
        read.2@.len() <= 1,
        exists|tokens: Seq<Token>|
            #[trigger] is_read_as(input.spec_bytes(), tokens, read.0@, read.1@, read.2@),
{
    let text = input.as_bytes();
    let (tokens, lexer_errors) = lexer::tokens_from_bytes(text);
    let (tree, errors) = parse(text, tokens.as_slice());
    let read = (tree, lexer_errors, errors);
    proof {
        assert(is_read_as(input.spec_bytes(), tokens@, read.0@, read.1@, read.2@));
    }
    read
}

} // verus!
