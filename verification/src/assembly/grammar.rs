//! The grammar of assembly text: what the tokens of a text are read as.
//!
//! Every function of the grammar takes the tokens of a text and the number
//! of the token that it starts at. It gives what is read there and the
//! number of the token behind it, or the error that says what the grammar
//! asks for and at which token it is not there.

use crate::assembly::ast::{
    ArithmeticView, CodeDeclarationView, FieldDeclarationView, FormatDeclaration,
    FunctionDeclarationView, InstructionView, ModuleDeclarationView, NameView, Position,
    Positioned, PrimitiveType, StatementView, StructDeclarationView, TopLevelDeclarationView, Type,
};
use crate::assembly::lexer::{Token, TokenKind};
use crate::assembly::parser::{Error, ErrorKind};
use crate::identifier::identifier_error;
use vstd::prelude::*;
use vstd::string::StringSliceAdditionalSpecFns;

verus! {

/// A text with its tokens.
pub struct Source {
    pub text: Seq<u8>,
    pub tokens: Seq<Token>,
}

/// What is read at a token: a value and the number of the token behind
/// it, or an error.
pub type Read<V> = Result<(V, int), Error>;

/// Whether two kinds of tokens are the same kind, whatever number an
/// integer literal holds.
pub open spec fn kinds_agree(left: TokenKind, right: TokenKind) -> bool {
    match (left, right) {
        (TokenKind::LiteralInteger(_), TokenKind::LiteralInteger(_)) => true,
        _ => left == right,
    }
}

/// Whether a token of the given kind stands at `at`.
pub open spec fn kind_at(source: Source, at: int, kind: TokenKind) -> bool {
    0 <= at < source.tokens.len() && kinds_agree(source.tokens[at].kind, kind)
}

/// The bytes of the token at `at`, without its first `skip` bytes.
pub open spec fn text_at(source: Source, at: int, skip: int) -> Seq<u8> {
    let position = source.tokens[at].position;
    let start = if skip <= position.end - position.start {
        position.start + skip
    } else {
        position.end as int
    };
    source.text.subrange(start, position.end as int)
}

/// Whether the token at `at` is of the given kind and is the given word
/// behind its first `skip` bytes.
pub open spec fn word_at(source: Source, at: int, kind: TokenKind, skip: int, word: &str) -> bool {
    kind_at(source, at, kind) && text_at(source, at, skip) == word.spec_bytes()
}

/// Whether the directive of the given name stands at `at`.
pub open spec fn directive_at(source: Source, at: int, name: &str) -> bool {
    word_at(source, at, TokenKind::Directive, 1, name)
}

/// Whether the given keyword stands at `at`.
pub open spec fn keyword_at(source: Source, at: int, word: &str) -> bool {
    word_at(source, at, TokenKind::Keyword, 0, word)
}

/// The offset at which the token at `at` starts, and the end of the text
/// where there is none.
pub open spec fn start_at(source: Source, at: int) -> usize {
    if 0 <= at < source.tokens.len() {
        source.tokens[at].position.start
    } else {
        source.text.len() as usize
    }
}

/// The offset at which the token before `at` ends, and zero where there is
/// none.
pub open spec fn end_before(source: Source, at: int) -> usize {
    if 0 < at <= source.tokens.len() {
        source.tokens[at - 1].position.end
    } else {
        0
    }
}

/// The part of the text from the start of the token at `from` to the end
/// of the token before `to`.
pub open spec fn span(source: Source, from: int, to: int) -> Position {
    Position { start: start_at(source, from), end: end_before(source, to) }
}

/// The error that says what the grammar asks for at the token at `at`:
/// it stands at that token, or at the end of the text where there is none.
pub open spec fn expected(source: Source, at: int, kind: ErrorKind) -> Error {
    Error {
        kind,
        position: Position {
            start: start_at(source, at),
            end: if 0 <= at < source.tokens.len() {
                source.tokens[at].position.end
            } else {
                start_at(source, at)
            },
        },
    }
}

/// A name behind a sigil: a token of the given kind, for want of which the
/// error is of the kind `missing`, whose bytes behind the sigil are an
/// identifier.
pub open spec fn name_at(source: Source, at: int, kind: TokenKind, missing: ErrorKind) -> Read<
    NameView,
> {
    if !kind_at(source, at, kind) {
        Err(expected(source, at, missing))
    } else if identifier_error(text_at(source, at, 1)).is_some() {
        Err(expected(source, at, ErrorKind::InvalidName))
    } else {
        Ok(
            (
                NameView { bytes: text_at(source, at, 1), position: source.tokens[at].position },
                at + 1,
            ),
        )
    }
}

/// The symbol of a definition of the module.
pub open spec fn global_at(source: Source, at: int) -> Read<NameView> {
    name_at(source, at, TokenKind::GlobalIdentifier, ErrorKind::ExpectedGlobalSymbol)
}

/// The name of a block.
pub open spec fn local_at(source: Source, at: int) -> Read<NameView> {
    name_at(source, at, TokenKind::LocalIdentifier, ErrorKind::ExpectedLocalSymbol)
}

/// The name of a register.
pub open spec fn register_at(source: Source, at: int) -> Read<NameView> {
    name_at(source, at, TokenKind::RegisterIdentifier, ErrorKind::ExpectedRegisterSymbol)
}

/// A keyword, which has to be the given word.
pub open spec fn keyword(source: Source, at: int, word: &str) -> Read<()> {
    if keyword_at(source, at, word) {
        Ok(((), at + 1))
    } else {
        Err(expected(source, at, ErrorKind::ExpectedKeyword))
    }
}

/// The rest of a list of registers, behind those that were read: a comma
/// and a register, as often as a comma is next.
pub open spec fn more_registers(source: Source, at: int, read: Seq<NameView>) -> Read<
    Seq<NameView>,
>
    decreases source.tokens.len() - at,
{
    if kind_at(source, at, TokenKind::Comma) {
        match register_at(source, at + 1) {
            Ok((register, next)) => more_registers(source, next, read.push(register)),
            Err(error) => Err(error),
        }
    } else {
        Ok((read, at))
    }
}

/// Registers with commas between them: none, where no register is next.
pub open spec fn registers(source: Source, at: int) -> Read<Seq<NameView>> {
    if kind_at(source, at, TokenKind::RegisterIdentifier) {
        match register_at(source, at) {
            Ok((register, next)) => more_registers(source, next, seq![register]),
            Err(error) => Err(error),
        }
    } else {
        Ok((Seq::empty(), at))
    }
}

/// An integer literal.
pub open spec fn integer(source: Source, at: int) -> Read<Positioned<i128>> {
    if kind_at(source, at, TokenKind::LiteralInteger(0)) {
        match source.tokens[at].kind {
            TokenKind::LiteralInteger(value) => Ok(((value, source.tokens[at].position), at + 1)),
            _ => Err(expected(source, at, ErrorKind::ExpectedIntegerLiteral)),
        }
    } else {
        Err(expected(source, at, ErrorKind::ExpectedIntegerLiteral))
    }
}

/// A number of a version: an integer literal that is a `u32`.
pub open spec fn version_number(source: Source, at: int) -> Read<u32> {
    match integer(source, at) {
        Ok((literal, next)) => if 0 <= literal.0 <= u32::MAX {
            Ok((literal.0 as u32, next))
        } else {
            Err(expected(source, at, ErrorKind::InvalidVersionNumber))
        },
        Err(error) => Err(error),
    }
}

/// The numbers of a version behind those that were read: as many as there
/// are integer literals.
pub open spec fn version_numbers(source: Source, at: int, read: Seq<u32>) -> Read<Seq<u32>>
    decreases source.tokens.len() - at,
{
    if kind_at(source, at, TokenKind::LiteralInteger(0)) {
        match version_number(source, at) {
            Ok((number, next)) => version_numbers(source, next, read.push(number)),
            Err(error) => Err(error),
        }
    } else {
        Ok((read, at))
    }
}

/// The bytes between the quotes of the string literal at `at`.
pub open spec fn quoted_at(source: Source, at: int) -> Seq<u8> {
    let quoted = text_at(source, at, 1);
    if quoted.len() > 0 {
        quoted.subrange(0, quoted.len() - 1)
    } else {
        quoted
    }
}

/// A string literal whose bytes between the quotes are an identifier.
pub open spec fn identifier_literal(source: Source, at: int) -> Read<NameView> {
    if !kind_at(source, at, TokenKind::LiteralString) {
        Err(expected(source, at, ErrorKind::ExpectedStringLiteral))
    } else if identifier_error(quoted_at(source, at)).is_some() {
        Err(expected(source, at, ErrorKind::ExpectedNonEmptyString))
    } else {
        Ok(
            (
                NameView { bytes: quoted_at(source, at), position: source.tokens[at].position },
                at + 1,
            ),
        )
    }
}

/// The fixed-width integer type of a name.
pub open spec fn named_type(word: Seq<u8>) -> Option<PrimitiveType> {
    if word == "s8".spec_bytes() {
        Some(PrimitiveType::S8)
    } else if word == "u8".spec_bytes() {
        Some(PrimitiveType::U8)
    } else if word == "s16".spec_bytes() {
        Some(PrimitiveType::S16)
    } else if word == "u16".spec_bytes() {
        Some(PrimitiveType::U16)
    } else if word == "s32".spec_bytes() {
        Some(PrimitiveType::S32)
    } else if word == "u32".spec_bytes() {
        Some(PrimitiveType::U32)
    } else if word == "s64".spec_bytes() {
        Some(PrimitiveType::S64)
    } else if word == "u64".spec_bytes() {
        Some(PrimitiveType::U64)
    } else {
        None
    }
}

/// The name of a fixed-width integer type.
pub open spec fn primitive_type(source: Source, at: int) -> Read<Positioned<PrimitiveType>> {
    if kind_at(source, at, TokenKind::Keyword) {
        match named_type(text_at(source, at, 0)) {
            Some(found) => Ok(((found, source.tokens[at].position), at + 1)),
            None => Err(expected(source, at, ErrorKind::ExpectedType)),
        }
    } else {
        Err(expected(source, at, ErrorKind::ExpectedType))
    }
}

/// The rest of a list of types, behind those that were read: a type, and
/// then a comma and the rest, or the parenthesis that closes the list.
pub open spec fn more_types(source: Source, at: int, read: Seq<Positioned<Type>>) -> Read<
    Seq<Positioned<Type>>,
>
    decreases source.tokens.len() - at,
{
    match primitive_type(source, at) {
        Ok((found, next)) => {
            let types = read.push((Type::Primitive(found.0), found.1));
            if kind_at(source, next, TokenKind::Comma) {
                more_types(source, next + 1, types)
            } else if kind_at(source, next, TokenKind::CloseParenthesis) {
                Ok((types, next + 1))
            } else {
                Err(expected(source, next, ErrorKind::ExpectedCloseParenthesis))
            }
        },
        Err(error) => Err(error),
    }
}

/// Types with commas between them, between parentheses.
pub open spec fn function_types(source: Source, at: int) -> Read<Seq<Positioned<Type>>> {
    if !kind_at(source, at, TokenKind::OpenParenthesis) {
        Err(expected(source, at, ErrorKind::ExpectedOpenParenthesis))
    } else if kind_at(source, at + 1, TokenKind::CloseParenthesis) {
        Ok((Seq::empty(), at + 2))
    } else {
        more_types(source, at + 1, Seq::empty())
    }
}

/// A keyword that may be left out: whether it is there, and the token
/// behind it.
pub open spec fn flag(source: Source, at: int, word: &str) -> (bool, int) {
    if keyword_at(source, at, word) {
        (true, at + 1)
    } else {
        (false, at)
    }
}

/// The rest of `add`, `sub` or `mul`: a register, the word between the
/// operands, a register and, if it is there, `ovf.flag`.
#[verifier::opaque]
pub open spec fn arithmetic(source: Source, at: int, between: &str) -> Read<ArithmeticView> {
    match register_at(source, at) {
        Ok((x, word)) => match keyword(source, word, between) {
            Ok((_, next)) => match register_at(source, next) {
                Ok((y, end)) => Ok(
                    (
                        ArithmeticView { x, y, flag_overflow: flag(source, end, "ovf.flag").0 },
                        flag(source, end, "ovf.flag").1,
                    ),
                ),
                Err(error) => Err(error),
            },
            Err(error) => Err(error),
        },
        Err(error) => Err(error),
    }
}

/// The inputs of a branch: `with` and at least one register, if `with` is
/// next.
pub open spec fn branch_inputs(source: Source, at: int) -> Read<Seq<NameView>> {
    if keyword_at(source, at, "with") {
        match registers(source, at + 1) {
            Ok((inputs, next)) => if inputs.len() > 0 {
                Ok((inputs, next))
            } else {
                Err(expected(source, next, ErrorKind::ExpectedRegisterSymbol))
            },
            Err(error) => Err(error),
        }
    } else {
        Ok((Seq::empty(), at))
    }
}

/// One target of a `switch`: a value and the block for it.
pub open spec fn switch_target(source: Source, at: int) -> Read<(Positioned<i128>, NameView)> {
    match integer(source, at) {
        Ok((value, next)) => match local_at(source, next) {
            Ok((block, end)) => Ok(((value, block), end)),
            Err(error) => Err(error),
        },
        Err(error) => Err(error),
    }
}

/// The rest of the targets of a `switch`, behind those that were read:
/// `or` and a target, as often as `or` is next.
pub open spec fn more_targets(
    source: Source,
    at: int,
    read: Seq<(Positioned<i128>, NameView)>,
) -> Read<Seq<(Positioned<i128>, NameView)>>
    decreases source.tokens.len() - at,
{
    if keyword_at(source, at, "or") {
        match switch_target(source, at + 1) {
            Ok((target, next)) => more_targets(source, next, read.push(target)),
            Err(error) => Err(error),
        }
    } else {
        Ok((read, at))
    }
}

/// The targets of a `switch`: none, or targets with `or` between them,
/// before which `or` may stand too.
pub open spec fn switch_targets(source: Source, at: int) -> Read<
    Seq<(Positioned<i128>, NameView)>,
> {
    let first = flag(source, at, "or").1;
    if flag(source, at, "or").0 || kind_at(source, first, TokenKind::LiteralInteger(0)) {
        match switch_target(source, first) {
            Ok((target, next)) => more_targets(source, next, seq![target]),
            Err(error) => Err(error),
        }
    } else {
        Ok((Seq::empty(), first))
    }
}

/// The rest of a `switch`: the type and the register of what is compared,
/// `default` and the block for it, and the targets.
#[verifier::opaque]
pub open spec fn switch(source: Source, at: int) -> Read<InstructionView> {
    match primitive_type(source, at) {
        Ok((comparison_type, register)) => match register_at(source, register) {
            Ok((comparison, word)) => match keyword(source, word, "default") {
                Ok((_, next)) => match local_at(source, next) {
                    Ok((default_target, rest)) => match switch_targets(source, rest) {
                        Ok((targets, end)) => Ok(
                            (
                                InstructionView::Switch {
                                    comparison,
                                    comparison_type,
                                    default_target,
                                    targets,
                                },
                                end,
                            ),
                        ),
                        Err(error) => Err(error),
                    },
                    Err(error) => Err(error),
                },
                Err(error) => Err(error),
            },
            Err(error) => Err(error),
        },
        Err(error) => Err(error),
    }
}

/// The rest of `br`: a block and the inputs.
#[verifier::opaque]
pub open spec fn branch(source: Source, at: int) -> Read<InstructionView> {
    match local_at(source, at) {
        Ok((target, next)) => match branch_inputs(source, next) {
            Ok((inputs, end)) => Ok((InstructionView::Br { target, inputs }, end)),
            Err(error) => Err(error),
        },
        Err(error) => Err(error),
    }
}

/// The rest of `br.if`: a register, `then` and a block, `else` and a
/// block, and the inputs.
#[verifier::opaque]
pub open spec fn branch_if(source: Source, at: int) -> Read<InstructionView> {
    match register_at(source, at) {
        Ok((condition, first)) => match keyword(source, first, "then") {
            Ok((_, next)) => match local_at(source, next) {
                Ok((true_branch, second)) => match keyword(source, second, "else") {
                    Ok((_, other)) => match local_at(source, other) {
                        Ok((false_branch, rest)) => match branch_inputs(source, rest) {
                            Ok((inputs, end)) => Ok(
                                (
                                    InstructionView::BrIf {
                                        condition,
                                        true_branch,
                                        false_branch,
                                        inputs,
                                    },
                                    end,
                                ),
                            ),
                            Err(error) => Err(error),
                        },
                        Err(error) => Err(error),
                    },
                    Err(error) => Err(error),
                },
                Err(error) => Err(error),
            },
            Err(error) => Err(error),
        },
        Err(error) => Err(error),
    }
}

/// The rest of `call`: a symbol and the arguments.
#[verifier::opaque]
pub open spec fn call(source: Source, at: int) -> Read<InstructionView> {
    match global_at(source, at) {
        Ok((function, next)) => match registers(source, next) {
            Ok((arguments, end)) => Ok((InstructionView::Call { function, arguments }, end)),
            Err(error) => Err(error),
        },
        Err(error) => Err(error),
    }
}

/// The rest of `const.i`: a type and an integer literal.
#[verifier::opaque]
pub open spec fn constant(source: Source, at: int) -> Read<InstructionView> {
    match primitive_type(source, at) {
        Ok((integer_type, next)) => match integer(source, next) {
            Ok((value, end)) => Ok((InstructionView::ConstI(integer_type, value), end)),
            Err(error) => Err(error),
        },
        Err(error) => Err(error),
    }
}

/// The rest of `conv.i`: a register, `to`, a type and, if it is there,
/// `ovf.flag`.
#[verifier::opaque]
pub open spec fn conversion(source: Source, at: int) -> Read<InstructionView> {
    match register_at(source, at) {
        Ok((operand, word)) => match keyword(source, word, "to") {
            Ok((_, next)) => match primitive_type(source, next) {
                Ok((target_type, end)) => Ok(
                    (
                        InstructionView::ConvI {
                            operand,
                            target_type,
                            flag_overflow: flag(source, end, "ovf.flag").0,
                        },
                        flag(source, end, "ovf.flag").1,
                    ),
                ),
                Err(error) => Err(error),
            },
            Err(error) => Err(error),
        },
        Err(error) => Err(error),
    }
}

/// The operands of the instruction whose name stands at `at`.
pub open spec fn operands(source: Source, at: int) -> Read<InstructionView> {
    let name = text_at(source, at, 0);
    if name == "nop".spec_bytes() {
        Ok((InstructionView::Nop, at + 1))
    } else if name == "ret".spec_bytes() {
        match registers(source, at + 1) {
            Ok((values, end)) => Ok((InstructionView::Ret(values), end)),
            Err(error) => Err(error),
        }
    } else if name == "switch".spec_bytes() {
        switch(source, at + 1)
    } else if name == "br".spec_bytes() {
        branch(source, at + 1)
    } else if name == "br.if".spec_bytes() {
        branch_if(source, at + 1)
    } else if name == "call".spec_bytes() {
        call(source, at + 1)
    } else if name == "add".spec_bytes() {
        match arithmetic(source, at + 1, "to") {
            Ok((operation, end)) => Ok((InstructionView::Add(operation), end)),
            Err(error) => Err(error),
        }
    } else if name == "sub".spec_bytes() {
        match arithmetic(source, at + 1, "from") {
            Ok((operation, end)) => Ok((InstructionView::Sub(operation), end)),
            Err(error) => Err(error),
        }
    } else if name == "mul".spec_bytes() {
        match arithmetic(source, at + 1, "by") {
            Ok((operation, end)) => Ok((InstructionView::Mul(operation), end)),
            Err(error) => Err(error),
        }
    } else if name == "const.i".spec_bytes() {
        constant(source, at + 1)
    } else if name == "conv.i".spec_bytes() {
        conversion(source, at + 1)
    } else {
        Err(expected(source, at, ErrorKind::ExpectedInstruction))
    }
}

/// An instruction: its name and its operands.
pub open spec fn instruction(source: Source, at: int) -> Read<(InstructionView, Position)> {
    if kind_at(source, at, TokenKind::Keyword) {
        match operands(source, at) {
            Ok((found, end)) => Ok(((found, span(source, at, end)), end)),
            Err(error) => Err(error),
        }
    } else {
        Err(expected(source, at, ErrorKind::ExpectedInstruction))
    }
}

/// The registers of the results of a statement, with `=` behind them, if
/// a register is next. Where there are no results, their part of the text
/// starts where the instruction starts and ends where the token before it
/// ends.
pub open spec fn results(source: Source, at: int) -> Read<(Seq<NameView>, Position)> {
    if kind_at(source, at, TokenKind::RegisterIdentifier) {
        match registers(source, at) {
            Ok((names, next)) => if kind_at(source, next, TokenKind::Equals) {
                Ok(((names, span(source, at, next + 1)), next + 1))
            } else {
                Err(expected(source, next, ErrorKind::ExpectedEquals))
            },
            Err(error) => Err(error),
        }
    } else {
        Ok(
            (
                (
                    Seq::empty(),
                    Position { start: start_at(source, at), end: end_before(source, at) },
                ),
                at,
            ),
        )
    }
}

/// A statement: the results, if there are any; an instruction; and a
/// semicolon.
#[verifier::opaque]
pub open spec fn statement(source: Source, at: int) -> Read<StatementView> {
    match results(source, at) {
        Ok((results, next)) => match instruction(source, next) {
            Ok((instruction, end)) => if kind_at(source, end, TokenKind::Semicolon) {
                Ok((StatementView { results, instruction }, end + 1))
            } else {
                Err(expected(source, end, ErrorKind::ExpectedSemicolon))
            },
            Err(error) => Err(error),
        },
        Err(error) => Err(error),
    }
}

/// The arguments of a block, between parentheses.
pub open spec fn block_arguments(source: Source, at: int) -> Read<Seq<NameView>> {
    if kind_at(source, at, TokenKind::OpenParenthesis) {
        match registers(source, at + 1) {
            Ok((arguments, next)) => if kind_at(source, next, TokenKind::CloseParenthesis) {
                Ok((arguments, next + 1))
            } else {
                Err(expected(source, next, ErrorKind::ExpectedCloseParenthesis))
            },
            Err(error) => Err(error),
        }
    } else {
        Err(expected(source, at, ErrorKind::ExpectedOpenParenthesis))
    }
}

/// A declaration with the semicolon behind it: its part of the text starts
/// at the token at `at` and ends with the semicolon.
pub open spec fn closed<V>(source: Source, at: int, body: Read<V>) -> Read<(V, Position)> {
    match body {
        Ok((declaration, end)) => if kind_at(source, end, TokenKind::Semicolon) {
            Ok(((declaration, span(source, at, end + 1)), end + 1))
        } else {
            Err(expected(source, end, ErrorKind::ExpectedSemicolon))
        },
        Err(error) => Err(error),
    }
}

/// The rest of the statements of a block, behind those that were read: up to
/// the bracket that closes them.
pub open spec fn more_statements(source: Source, at: int, read: Seq<StatementView>) -> Read<
    Seq<StatementView>,
>
    decreases source.tokens.len() - at,
{
    if kind_at(source, at, TokenKind::CloseBracket) {
        Ok((read, at + 1))
    } else {
        match statement(source, at) {
            Ok((item, next)) => if at < next <= source.tokens.len() {
                more_statements(source, next, read.push(item))
            } else {
                Err(expected(source, at, ErrorKind::ExpectedCloseBracket))
            },
            Err(error) => Err(error),
        }
    }
}

/// The statements of a block, between brackets.
pub open spec fn statements(source: Source, at: int) -> Read<Seq<StatementView>> {
    if kind_at(source, at, TokenKind::OpenBracket) {
        more_statements(source, at + 1, Seq::empty())
    } else {
        Err(expected(source, at, ErrorKind::ExpectedOpenBracket))
    }
}

/// What stands before the semicolon of a declaration within `.code`:
/// `.entry` and a block, or `.block` with its name, arguments and
/// statements.
pub open spec fn code_declaration_body(source: Source, at: int) -> Read<CodeDeclarationView> {
    if directive_at(source, at, "entry") {
        match local_at(source, at + 1) {
            Ok((name, end)) => Ok((CodeDeclarationView::Entry(name), end)),
            Err(error) => Err(error),
        }
    } else if directive_at(source, at, "block") {
        match local_at(source, at + 1) {
            Ok((name, next)) => match block_arguments(source, next) {
                Ok((arguments, rest)) => match statements(source, rest) {
                    Ok((instructions, end)) => Ok(
                        (CodeDeclarationView::Block { name, arguments, instructions }, end),
                    ),
                    Err(error) => Err(error),
                },
                Err(error) => Err(error),
            },
            Err(error) => Err(error),
        }
    } else {
        Err(expected(source, at, ErrorKind::ExpectedDeclaration))
    }
}

/// A declaration within `.code`.
#[verifier::opaque]
pub open spec fn code_declaration(source: Source, at: int) -> Read<
    (CodeDeclarationView, Position),
> {
    closed(source, at, code_declaration_body(source, at))
}

/// What stands before the semicolon of a declaration within `.format`:
/// `.major` or `.minor` and a number.
pub open spec fn format_declaration_body(source: Source, at: int) -> Read<FormatDeclaration> {
    if directive_at(source, at, "major") {
        match version_number(source, at + 1) {
            Ok((number, end)) => Ok((FormatDeclaration::Major(number), end)),
            Err(error) => Err(error),
        }
    } else if directive_at(source, at, "minor") {
        match version_number(source, at + 1) {
            Ok((number, end)) => Ok((FormatDeclaration::Minor(number), end)),
            Err(error) => Err(error),
        }
    } else {
        Err(expected(source, at, ErrorKind::ExpectedDeclaration))
    }
}

/// A declaration within `.format`.
#[verifier::opaque]
pub open spec fn format_declaration(source: Source, at: int) -> Read<
    Positioned<FormatDeclaration>,
> {
    closed(source, at, format_declaration_body(source, at))
}

/// What stands before the semicolon of a declaration within `.module`:
/// `.name` and a string, or `.version` and numbers.
pub open spec fn module_declaration_body(source: Source, at: int) -> Read<ModuleDeclarationView> {
    if directive_at(source, at, "name") {
        match identifier_literal(source, at + 1) {
            Ok((name, end)) => Ok((ModuleDeclarationView::Name(name), end)),
            Err(error) => Err(error),
        }
    } else if directive_at(source, at, "version") {
        match version_numbers(source, at + 1, Seq::empty()) {
            Ok((numbers, end)) => Ok((ModuleDeclarationView::Version(numbers), end)),
            Err(error) => Err(error),
        }
    } else {
        Err(expected(source, at, ErrorKind::ExpectedDeclaration))
    }
}

/// A declaration within `.module`.
#[verifier::opaque]
pub open spec fn module_declaration(source: Source, at: int) -> Read<
    (ModuleDeclarationView, Position),
> {
    closed(source, at, module_declaration_body(source, at))
}

/// What stands before the semicolon of a declaration within `.function`:
/// `.name` and a string, or `.body defined` and the symbol of the code.
pub open spec fn function_declaration_body(source: Source, at: int) -> Read<
    FunctionDeclarationView,
> {
    if directive_at(source, at, "name") {
        match identifier_literal(source, at + 1) {
            Ok((name, end)) => Ok((FunctionDeclarationView::Name(name), end)),
            Err(error) => Err(error),
        }
    } else if directive_at(source, at, "body") {
        if keyword_at(source, at + 1, "defined") {
            match global_at(source, at + 2) {
                Ok((symbol, end)) => Ok((FunctionDeclarationView::Body(symbol), end)),
                Err(error) => Err(error),
            }
        } else {
            Err(expected(source, at + 1, ErrorKind::ExpectedBody))
        }
    } else {
        Err(expected(source, at, ErrorKind::ExpectedDeclaration))
    }
}

/// A declaration within `.function`.
#[verifier::opaque]
pub open spec fn function_declaration(source: Source, at: int) -> Read<
    (FunctionDeclarationView, Position),
> {
    closed(source, at, function_declaration_body(source, at))
}

/// What stands before the semicolon of a declaration within a field:
/// `.name` and a string.
pub open spec fn field_declaration_body(source: Source, at: int) -> Read<FieldDeclarationView> {
    if directive_at(source, at, "name") {
        match identifier_literal(source, at + 1) {
            Ok((name, end)) => Ok((FieldDeclarationView::Name(name), end)),
            Err(error) => Err(error),
        }
    } else {
        Err(expected(source, at, ErrorKind::ExpectedDeclaration))
    }
}

/// A declaration within a field.
#[verifier::opaque]
pub open spec fn field_declaration(source: Source, at: int) -> Read<
    (FieldDeclarationView, Position),
> {
    closed(source, at, field_declaration_body(source, at))
}

/// The rest of the declarations of a field, behind those that were read: up to
/// the bracket that closes them.
pub open spec fn more_field_declarations(
    source: Source,
    at: int,
    read: Seq<(FieldDeclarationView, Position)>,
) -> Read<Seq<(FieldDeclarationView, Position)>>
    decreases source.tokens.len() - at,
{
    if kind_at(source, at, TokenKind::CloseBracket) {
        Ok((read, at + 1))
    } else {
        match field_declaration(source, at) {
            Ok((item, next)) => if at < next <= source.tokens.len() {
                more_field_declarations(source, next, read.push(item))
            } else {
                Err(expected(source, at, ErrorKind::ExpectedCloseBracket))
            },
            Err(error) => Err(error),
        }
    }
}

/// The declarations of a field, between brackets.
pub open spec fn field_declarations(source: Source, at: int) -> Read<
    Seq<(FieldDeclarationView, Position)>,
> {
    if kind_at(source, at, TokenKind::OpenBracket) {
        more_field_declarations(source, at + 1, Seq::empty())
    } else {
        Err(expected(source, at, ErrorKind::ExpectedOpenBracket))
    }
}

/// The rest of `.field`: its symbol, its type, `export` if it is exported,
/// and its declarations.
pub open spec fn field(source: Source, at: int) -> Read<StructDeclarationView> {
    match global_at(source, at) {
        Ok((symbol, next)) => match primitive_type(source, next) {
            Ok((found, rest)) => match field_declarations(
                source,
                flag(source, rest, "export").1,
            ) {
                Ok((declarations, end)) => Ok(
                    (
                        StructDeclarationView::Field {
                            symbol,
                            value_type: (Type::Primitive(found.0), found.1),
                            is_export: flag(source, rest, "export").0,
                            declarations,
                        },
                        end,
                    ),
                ),
                Err(error) => Err(error),
            },
            Err(error) => Err(error),
        },
        Err(error) => Err(error),
    }
}

/// What stands before the semicolon of a declaration within `.struct`:
/// `.name` and a string, or `.field` and what belongs to it.
pub open spec fn struct_declaration_body(source: Source, at: int) -> Read<StructDeclarationView> {
    if directive_at(source, at, "name") {
        match identifier_literal(source, at + 1) {
            Ok((name, end)) => Ok((StructDeclarationView::Name(name), end)),
            Err(error) => Err(error),
        }
    } else if directive_at(source, at, "field") {
        field(source, at + 1)
    } else {
        Err(expected(source, at, ErrorKind::ExpectedDeclaration))
    }
}

/// A declaration within `.struct`.
#[verifier::opaque]
pub open spec fn struct_declaration(source: Source, at: int) -> Read<
    (StructDeclarationView, Position),
> {
    closed(source, at, struct_declaration_body(source, at))
}

/// The rest of the declarations of `.code`, behind those that were read: up to
/// the bracket that closes them.
pub open spec fn more_code_declarations(
    source: Source,
    at: int,
    read: Seq<(CodeDeclarationView, Position)>,
) -> Read<Seq<(CodeDeclarationView, Position)>>
    decreases source.tokens.len() - at,
{
    if kind_at(source, at, TokenKind::CloseBracket) {
        Ok((read, at + 1))
    } else {
        match code_declaration(source, at) {
            Ok((item, next)) => if at < next <= source.tokens.len() {
                more_code_declarations(source, next, read.push(item))
            } else {
                Err(expected(source, at, ErrorKind::ExpectedCloseBracket))
            },
            Err(error) => Err(error),
        }
    }
}

/// The declarations of `.code`, between brackets.
pub open spec fn code_declarations(source: Source, at: int) -> Read<
    Seq<(CodeDeclarationView, Position)>,
> {
    if kind_at(source, at, TokenKind::OpenBracket) {
        more_code_declarations(source, at + 1, Seq::empty())
    } else {
        Err(expected(source, at, ErrorKind::ExpectedOpenBracket))
    }
}

/// The rest of the declarations of `.format`, behind those that were read: up to
/// the bracket that closes them.
pub open spec fn more_format_declarations(
    source: Source,
    at: int,
    read: Seq<Positioned<FormatDeclaration>>,
) -> Read<Seq<Positioned<FormatDeclaration>>>
    decreases source.tokens.len() - at,
{
    if kind_at(source, at, TokenKind::CloseBracket) {
        Ok((read, at + 1))
    } else {
        match format_declaration(source, at) {
            Ok((item, next)) => if at < next <= source.tokens.len() {
                more_format_declarations(source, next, read.push(item))
            } else {
                Err(expected(source, at, ErrorKind::ExpectedCloseBracket))
            },
            Err(error) => Err(error),
        }
    }
}

/// The declarations of `.format`, between brackets.
pub open spec fn format_declarations(source: Source, at: int) -> Read<
    Seq<Positioned<FormatDeclaration>>,
> {
    if kind_at(source, at, TokenKind::OpenBracket) {
        more_format_declarations(source, at + 1, Seq::empty())
    } else {
        Err(expected(source, at, ErrorKind::ExpectedOpenBracket))
    }
}

/// The rest of the declarations of `.module`, behind those that were read: up to
/// the bracket that closes them.
pub open spec fn more_module_declarations(
    source: Source,
    at: int,
    read: Seq<(ModuleDeclarationView, Position)>,
) -> Read<Seq<(ModuleDeclarationView, Position)>>
    decreases source.tokens.len() - at,
{
    if kind_at(source, at, TokenKind::CloseBracket) {
        Ok((read, at + 1))
    } else {
        match module_declaration(source, at) {
            Ok((item, next)) => if at < next <= source.tokens.len() {
                more_module_declarations(source, next, read.push(item))
            } else {
                Err(expected(source, at, ErrorKind::ExpectedCloseBracket))
            },
            Err(error) => Err(error),
        }
    }
}

/// The declarations of `.module`, between brackets.
pub open spec fn module_declarations(source: Source, at: int) -> Read<
    Seq<(ModuleDeclarationView, Position)>,
> {
    if kind_at(source, at, TokenKind::OpenBracket) {
        more_module_declarations(source, at + 1, Seq::empty())
    } else {
        Err(expected(source, at, ErrorKind::ExpectedOpenBracket))
    }
}

/// The rest of the declarations of `.function`, behind those that were read: up to
/// the bracket that closes them.
pub open spec fn more_function_declarations(
    source: Source,
    at: int,
    read: Seq<(FunctionDeclarationView, Position)>,
) -> Read<Seq<(FunctionDeclarationView, Position)>>
    decreases source.tokens.len() - at,
{
    if kind_at(source, at, TokenKind::CloseBracket) {
        Ok((read, at + 1))
    } else {
        match function_declaration(source, at) {
            Ok((item, next)) => if at < next <= source.tokens.len() {
                more_function_declarations(source, next, read.push(item))
            } else {
                Err(expected(source, at, ErrorKind::ExpectedCloseBracket))
            },
            Err(error) => Err(error),
        }
    }
}

/// The declarations of `.function`, between brackets.
pub open spec fn function_declarations(source: Source, at: int) -> Read<
    Seq<(FunctionDeclarationView, Position)>,
> {
    if kind_at(source, at, TokenKind::OpenBracket) {
        more_function_declarations(source, at + 1, Seq::empty())
    } else {
        Err(expected(source, at, ErrorKind::ExpectedOpenBracket))
    }
}

/// The rest of the declarations of `.struct`, behind those that were read: up to
/// the bracket that closes them.
pub open spec fn more_struct_declarations(
    source: Source,
    at: int,
    read: Seq<(StructDeclarationView, Position)>,
) -> Read<Seq<(StructDeclarationView, Position)>>
    decreases source.tokens.len() - at,
{
    if kind_at(source, at, TokenKind::CloseBracket) {
        Ok((read, at + 1))
    } else {
        match struct_declaration(source, at) {
            Ok((item, next)) => if at < next <= source.tokens.len() {
                more_struct_declarations(source, next, read.push(item))
            } else {
                Err(expected(source, at, ErrorKind::ExpectedCloseBracket))
            },
            Err(error) => Err(error),
        }
    }
}

/// The declarations of `.struct`, between brackets.
pub open spec fn struct_declarations(source: Source, at: int) -> Read<
    Seq<(StructDeclarationView, Position)>,
> {
    if kind_at(source, at, TokenKind::OpenBracket) {
        more_struct_declarations(source, at + 1, Seq::empty())
    } else {
        Err(expected(source, at, ErrorKind::ExpectedOpenBracket))
    }
}

/// The rest of `.function`: its symbol, the types of its parameters,
/// `returns` and the types of its results, `export` if it is exported, and
/// its declarations.
pub open spec fn function(source: Source, at: int) -> Read<TopLevelDeclarationView> {
    match global_at(source, at) {
        Ok((symbol, next)) => match function_types(source, next) {
            Ok((parameter_types, word)) => match keyword(source, word, "returns") {
                Ok((_, results)) => match function_types(source, results) {
                    Ok((return_types, rest)) => match function_declarations(
                        source,
                        flag(source, rest, "export").1,
                    ) {
                        Ok((declarations, end)) => Ok(
                            (
                                TopLevelDeclarationView::Function {
                                    symbol,
                                    is_export: flag(source, rest, "export").0,
                                    parameter_types,
                                    return_types,
                                    declarations,
                                },
                                end,
                            ),
                        ),
                        Err(error) => Err(error),
                    },
                    Err(error) => Err(error),
                },
                Err(error) => Err(error),
            },
            Err(error) => Err(error),
        },
        Err(error) => Err(error),
    }
}

/// The rest of `.struct`: its symbol, `export` if it is exported, and its
/// declarations.
pub open spec fn structure(source: Source, at: int) -> Read<TopLevelDeclarationView> {
    match global_at(source, at) {
        Ok((symbol, rest)) => match struct_declarations(source, flag(source, rest, "export").1) {
            Ok((declarations, end)) => Ok(
                (
                    TopLevelDeclarationView::Struct {
                        symbol,
                        is_export: flag(source, rest, "export").0,
                        declarations,
                    },
                    end,
                ),
            ),
            Err(error) => Err(error),
        },
        Err(error) => Err(error),
    }
}

/// The rest of `.code`: its symbol and its declarations.
pub open spec fn code(source: Source, at: int) -> Read<TopLevelDeclarationView> {
    match global_at(source, at) {
        Ok((symbol, rest)) => match code_declarations(source, rest) {
            Ok((declarations, end)) => Ok(
                (TopLevelDeclarationView::Code { symbol, declarations }, end),
            ),
            Err(error) => Err(error),
        },
        Err(error) => Err(error),
    }
}

/// What stands before the semicolon of a declaration at the top of the
/// text: a directive and what belongs to it.
#[verifier::opaque]
pub open spec fn top_level_body(source: Source, at: int) -> Read<TopLevelDeclarationView> {
    if directive_at(source, at, "format") {
        match format_declarations(source, at + 1) {
            Ok((declarations, end)) => Ok((TopLevelDeclarationView::Format(declarations), end)),
            Err(error) => Err(error),
        }
    } else if directive_at(source, at, "module") {
        match module_declarations(source, at + 1) {
            Ok((declarations, end)) => Ok((TopLevelDeclarationView::Module(declarations), end)),
            Err(error) => Err(error),
        }
    } else if directive_at(source, at, "entry") {
        match global_at(source, at + 1) {
            Ok((symbol, end)) => Ok((TopLevelDeclarationView::Entry(symbol), end)),
            Err(error) => Err(error),
        }
    } else if directive_at(source, at, "code") {
        code(source, at + 1)
    } else if directive_at(source, at, "function") {
        function(source, at + 1)
    } else if directive_at(source, at, "struct") {
        structure(source, at + 1)
    } else {
        Err(expected(source, at, ErrorKind::ExpectedDeclaration))
    }
}

/// A declaration at the top of the text. Its part of the text starts where
/// its first token starts and ends where its last token, a semicolon, ends.
pub open spec fn top_level_declaration(source: Source, at: int) -> Read<
    (TopLevelDeclarationView, Position),
> {
    closed(source, at, top_level_body(source, at))
}

/// The declarations that are read from the token at `at` on, behind those
/// that were read before, and the error at the first token at which no
/// declaration can be read, where there is one: reading stops there.
pub open spec fn rest_of_tree(
    source: Source,
    at: int,
    read: Seq<(TopLevelDeclarationView, Position)>,
) -> (Seq<(TopLevelDeclarationView, Position)>, Option<Error>)
    decreases source.tokens.len() - at,
{
    if at >= source.tokens.len() {
        (read, None)
    } else {
        match top_level_declaration(source, at) {
            Ok((declaration, next)) => if at < next <= source.tokens.len() {
                rest_of_tree(source, next, read.push(declaration))
            } else {
                (read, Some(expected(source, at, ErrorKind::ExpectedDeclaration)))
            },
            Err(error) => (read, Some(error)),
        }
    }
}

/// The declarations of a text, and the error with which reading stops
/// before all of its tokens are read, where it does.
pub open spec fn tree_of(source: Source) -> (
    Seq<(TopLevelDeclarationView, Position)>,
    Option<Error>,
) {
    rest_of_tree(source, 0, Seq::empty())
}

} // verus!
