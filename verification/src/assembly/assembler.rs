//! From the syntax tree of assembly text to a module.

use crate::assembly::ast::{
    FormatDeclaration, GlobalSymbol, ModuleDeclaration, Position, Positioned, TopLevelDeclaration,
};
use crate::assembly::declare::Once;
use crate::identifier::Identifier;
use crate::module::{FormatVersion, Module, ModuleIdentifier, ModuleIdentifierView, ModuleView};
use std::sync::Arc;
use vstd::prelude::*;
use vstd::string::StringExecFns;

verus! {

/// The kinds of declarations.
#[derive(Clone, Copy, Debug, PartialEq, Eq, Structural)]
pub enum Declaration {
    Code,
    TypeDefinition,
    MethodDefinition,
    MethodBody,
    Module,
    Format,
    Name,
    Namespace,
    /// The version of a module or of the format.
    Version,
    Entry,
}

/// What is wrong with a name.
#[derive(Clone, Copy, Debug, PartialEq, Eq, Structural)]
pub enum NameError {
    Duplicate,
    Empty,
    Missing,
}

/// What is wrong with assembly text that could be read.
#[derive(Debug, PartialEq, Eq)]
pub enum Error {
    /// A symbol is declared a second time.
    DuplicateNamedDeclaration(GlobalSymbol, Declaration),
    /// Something that is declared once is declared a second time.
    DuplicateDeclaration(Position, Declaration),
    DuplicateModifier(Position, &'static str),
    InvalidNameDeclaration(Position, Declaration, NameError),
    /// Something that has to be declared is not declared.
    MissingDeclaration(Option<Position>, Declaration),
    /// A symbol that is referred to is not declared.
    UndefinedGlobalSymbol(GlobalSymbol, Declaration),
    /// A number of the version of the format is greater than a byte, or
    /// the version is older than the oldest one that is read.
    InvalidFormatVersion(Position),
    /// A declaration of something that modules are not assembled from:
    /// code, a function, a struct or an entry point.
    Unsupported(Position, Declaration),
}

/// What an error stands for.
pub enum ErrorView {
    DuplicateNamedDeclaration(Seq<u8>, Position, Declaration),
    DuplicateDeclaration(Position, Declaration),
    DuplicateModifier(Position, Seq<char>),
    InvalidNameDeclaration(Position, Declaration, NameError),
    MissingDeclaration(Option<Position>, Declaration),
    UndefinedGlobalSymbol(Seq<u8>, Position, Declaration),
    InvalidFormatVersion(Position),
    Unsupported(Position, Declaration),
}

impl View for Error {
    type V = ErrorView;

    open spec fn view(&self) -> ErrorView {
        match self {
            Error::DuplicateNamedDeclaration(symbol, declaration) =>
                ErrorView::DuplicateNamedDeclaration(symbol.0.0@, symbol.0.1, *declaration),
            Error::DuplicateDeclaration(position, declaration) => ErrorView::DuplicateDeclaration(
                *position,
                *declaration,
            ),
            Error::DuplicateModifier(position, name) => ErrorView::DuplicateModifier(
                *position,
                name@,
            ),
            Error::InvalidNameDeclaration(position, declaration, error) =>
                ErrorView::InvalidNameDeclaration(*position, *declaration, *error),
            Error::MissingDeclaration(position, declaration) => ErrorView::MissingDeclaration(
                *position,
                *declaration,
            ),
            Error::UndefinedGlobalSymbol(symbol, declaration) => ErrorView::UndefinedGlobalSymbol(
                symbol.0.0@,
                symbol.0.1,
                *declaration,
            ),
            Error::InvalidFormatVersion(position) => ErrorView::InvalidFormatVersion(*position),
            Error::Unsupported(position, declaration) => ErrorView::Unsupported(
                *position,
                *declaration,
            ),
        }
    }
}

impl ErrorView {
    /// The part of the text that the error is about, where there is one.
    pub open spec fn place(self) -> Option<Position> {
        match self {
            ErrorView::DuplicateNamedDeclaration(_, position, _) => Some(position),
            ErrorView::UndefinedGlobalSymbol(_, position, _) => Some(position),
            ErrorView::DuplicateDeclaration(position, _) => Some(position),
            ErrorView::DuplicateModifier(position, _) => Some(position),
            ErrorView::InvalidNameDeclaration(position, _, _) => Some(position),
            ErrorView::MissingDeclaration(position, _) => position,
            ErrorView::InvalidFormatVersion(position) => Some(position),
            ErrorView::Unsupported(position, _) => Some(position),
        }
    }
}

impl Error {
    /// The part of the text that the error is about, where there is one.
    pub fn position(&self) -> (position: Option<&Position>)
        ensures
            match position {
                Some(found) => self@.place() == Some(*found),
                None => self@.place().is_none(),
            },
    {
        match self {
            Error::DuplicateNamedDeclaration(symbol, _) => Some(symbol.location()),
            Error::UndefinedGlobalSymbol(symbol, _) => Some(symbol.location()),
            Error::DuplicateDeclaration(position, _) => Some(position),
            Error::DuplicateModifier(position, _) => Some(position),
            Error::InvalidNameDeclaration(position, _, _) => Some(position),
            Error::MissingDeclaration(position, _) => position.as_ref(),
            Error::InvalidFormatVersion(position) => Some(position),
            Error::Unsupported(position, _) => Some(position),
        }
    }
}

/// What the errors of a list stand for.
pub open spec fn error_views(errors: Seq<Error>) -> Seq<ErrorView> {
    errors.map_values(|error: Error| error@)
}

/// The name that the declarations of a module header give the module: that
/// of the first declaration of a name.
pub open spec fn declared_name(declarations: Seq<Positioned<ModuleDeclaration>>) -> Option<
    Seq<u8>,
>
    decreases declarations.len(),
{
    if declarations.len() == 0 {
        None
    } else {
        match declared_name(declarations.drop_last()) {
            Some(name) => Some(name),
            None => match declarations.last().0 {
                ModuleDeclaration::Name(name) => Some(name.0@),
                ModuleDeclaration::Version(_) => None,
            },
        }
    }
}

/// The version that the declarations of a module header give the module:
/// that of the first declaration of a version.
pub open spec fn declared_version(declarations: Seq<Positioned<ModuleDeclaration>>) -> Option<
    Seq<u32>,
>
    decreases declarations.len(),
{
    if declarations.len() == 0 {
        None
    } else {
        match declared_version(declarations.drop_last()) {
            Some(version) => Some(version),
            None => match declarations.last().0 {
                ModuleDeclaration::Name(_) => None,
                ModuleDeclaration::Version(version) => Some(version@),
            },
        }
    }
}

/// The errors of the declarations of a module header: one for each
/// declaration of a name behind the first, and one for each declaration of
/// a version behind the first, in the order of the declarations.
pub open spec fn header_errors(declarations: Seq<Positioned<ModuleDeclaration>>) -> Seq<ErrorView>
    decreases declarations.len(),
{
    if declarations.len() == 0 {
        Seq::empty()
    } else {
        let before = header_errors(declarations.drop_last());
        match declarations.last().0 {
            ModuleDeclaration::Name(name) => if declared_name(declarations.drop_last()).is_some() {
                before.push(
                    ErrorView::InvalidNameDeclaration(
                        name.1,
                        Declaration::Module,
                        NameError::Duplicate,
                    ),
                )
            } else {
                before
            },
            ModuleDeclaration::Version(_) => if declared_version(
                declarations.drop_last(),
            ).is_some() {
                before.push(
                    ErrorView::DuplicateDeclaration(declarations.last().1, Declaration::Version),
                )
            } else {
                before
            },
        }
    }
}

/// The errors of a module header: those of its declarations, and one more
/// where none of them declares a name.
pub open spec fn module_errors(declarations: Seq<Positioned<ModuleDeclaration>>) -> Seq<ErrorView> {
    if declared_name(declarations).is_some() {
        header_errors(declarations)
    } else {
        header_errors(declarations).push(ErrorView::MissingDeclaration(None, Declaration::Name))
    }
}

/// The name and the version that a module header with a name declares. The
/// version is empty where none is declared.
pub open spec fn declared_identifier(
    declarations: Seq<Positioned<ModuleDeclaration>>,
) -> ModuleIdentifierView {
    ModuleIdentifierView {
        name: declared_name(declarations).unwrap(),
        version: match declared_version(declarations) {
            Some(version) => version_numbers(version),
            None => Seq::empty(),
        },
    }
}

/// The numbers of a version as lengths.
pub open spec fn version_numbers(version: Seq<u32>) -> Seq<usize> {
    version.map_values(|number: u32| number as usize)
}

/// The numbers of a version as lengths.
fn convert_version(version: &Vec<u32>) -> (numbers: Vec<usize>)
    ensures
        numbers@ == version_numbers(version@),
{
    let mut numbers: Vec<usize> = Vec::new();
    let mut index: usize = 0;
    while index < version.len()
        invariant
            index <= version@.len(),
            numbers@.len() == index,
            forall|i: int| 0 <= i < index ==> numbers@[i] == version@[i] as usize,
        decreases version@.len() - index,
    {
        numbers.push(version[index] as usize);
        index += 1;
    }
    proof {
        assert(numbers@ =~= version_numbers(version@));
    }
    numbers
}

/// The name and the version that a module header declares. The first
/// declaration of a name gives the name and the first declaration of a
/// version the version, which is empty where none is declared. Every other
/// declaration is an error, and so is a header without a name, which
/// declares nothing.
pub fn assemble_module_header(
    errors: &mut Vec<Error>,
    declarations: &[Positioned<ModuleDeclaration>],
) -> (header: Option<ModuleIdentifier>)
    ensures
        error_views(final(errors)@) == error_views(old(errors)@) + module_errors(declarations@),
        match header {
            Some(identifier) => identifier@ == declared_identifier(declarations@)
                && declared_name(declarations@).is_some(),
            None => declared_name(declarations@).is_none(),
        },
{
    let mut module_name: Once<Identifier> = Once::new();
    let mut module_version: Once<Vec<usize>> = Once::new();
    let mut index: usize = 0;
    proof {
        assert(declarations@.take(0) =~= Seq::<Positioned<ModuleDeclaration>>::empty());
        assert(error_views(errors@) =~= error_views(old(errors)@) + header_errors(
            declarations@.take(0),
        ));
    }
    while index < declarations.len()
        invariant
            index <= declarations@.len(),
            match module_name.declared() {
                Some(name) => declared_name(declarations@.take(index as int)) == Some(name@),
                None => declared_name(declarations@.take(index as int)).is_none(),
            },
            match module_version.declared() {
                Some(version) => declared_version(declarations@.take(index as int)) matches Some(
                    declared,
                ) && version@ == version_numbers(declared),
                None => declared_version(declarations@.take(index as int)).is_none(),
            },
            error_views(errors@) == error_views(old(errors)@) + header_errors(
                declarations@.take(index as int),
            ),
        decreases declarations@.len() - index,
    {
        let ghost before = errors@;
        let ghost done = declarations@.take(index as int);
        let ghost next = declarations@.take(index + 1);
        proof {
            assert(next.drop_last() =~= done);
            assert(next.last() == declarations@[index as int]);
        }
        let node = &declarations[index];
        match &node.0 {
            ModuleDeclaration::Name(name) => {
                module_name.declare_and_set(
                    errors,
                    Error::InvalidNameDeclaration(
                        name.1,
                        Declaration::Module,
                        NameError::Duplicate,
                    ),
                    name.0.clone(),
                );
            },
            ModuleDeclaration::Version(version) => {
                module_version.declare_and_set(
                    errors,
                    Error::DuplicateDeclaration(node.1, Declaration::Version),
                    convert_version(version),
                );
            },
        }
        proof {
            if errors@.len() > before.len() {
                assert(error_views(errors@) =~= error_views(before).push(errors@.last()@));
                assert(header_errors(next) == header_errors(done).push(errors@.last()@));
                assert(error_views(errors@) =~= error_views(old(errors)@) + header_errors(next));
            } else {
                assert(errors@ =~= before);
                assert(header_errors(next) == header_errors(done));
            }
        }
        index += 1;
    }
    proof {
        assert(declarations@.take(index as int) =~= declarations@);
    }
    let version = match module_version.value() {
        Some(version) => version,
        None => Vec::new(),
    };
    match module_name.value() {
        Some(name) => Some(ModuleIdentifier::new(name, version)),
        None => {
            let ghost before = errors@;
            errors.push(Error::MissingDeclaration(None, Declaration::Name));
            proof {
                assert(error_views(errors@) =~= error_views(before).push(
                    ErrorView::MissingDeclaration(None, Declaration::Name),
                ));
                assert(error_views(errors@) =~= error_views(old(errors)@) + module_errors(
                    declarations@,
                ));
            }
            None
        },
    }
}

/// The major number that the declarations of `.format` give: that of the
/// first declaration of a major number that is a byte.
pub open spec fn declared_major(declarations: Seq<Positioned<FormatDeclaration>>) -> Option<u8>
    decreases declarations.len(),
{
    if declarations.len() == 0 {
        None
    } else {
        match declared_major(declarations.drop_last()) {
            Some(major) => Some(major),
            None => match declarations.last().0 {
                FormatDeclaration::Major(major) if major <= u8::MAX => Some(major as u8),
                _ => None,
            },
        }
    }
}

/// The minor number that the declarations of `.format` give: that of the
/// first declaration of a minor number that is a byte.
pub open spec fn declared_minor(declarations: Seq<Positioned<FormatDeclaration>>) -> Option<u8>
    decreases declarations.len(),
{
    if declarations.len() == 0 {
        None
    } else {
        match declared_minor(declarations.drop_last()) {
            Some(minor) => Some(minor),
            None => match declarations.last().0 {
                FormatDeclaration::Minor(minor) if minor <= u8::MAX => Some(minor as u8),
                _ => None,
            },
        }
    }
}

/// The error, if any, of declaring a number of the version of the format
/// at `position`, where `declared` is the number declared before it.
pub open spec fn number_error(declared: Option<u8>, number: u32, position: Position) -> Option<
    ErrorView,
> {
    if number > u8::MAX {
        Some(ErrorView::InvalidFormatVersion(position))
    } else if declared.is_some() {
        Some(ErrorView::DuplicateDeclaration(position, Declaration::Version))
    } else {
        None
    }
}

/// The errors of the declarations of `.format`, in the order of the
/// declarations: one for each number that is greater than a byte, and one
/// for each number that is declared already.
pub open spec fn format_errors(declarations: Seq<Positioned<FormatDeclaration>>) -> Seq<ErrorView>
    decreases declarations.len(),
{
    if declarations.len() == 0 {
        Seq::empty()
    } else {
        let before = format_errors(declarations.drop_last());
        let error = match declarations.last().0 {
            FormatDeclaration::Major(major) => number_error(
                declared_major(declarations.drop_last()),
                major,
                declarations.last().1,
            ),
            FormatDeclaration::Minor(minor) => number_error(
                declared_minor(declarations.drop_last()),
                minor,
                declarations.last().1,
            ),
        };
        match error {
            Some(error) => before.push(error),
            None => before,
        }
    }
}

/// The version of the format that the declarations of `.format` give. A
/// number that is not declared is zero.
pub open spec fn declared_format(
    declarations: Seq<Positioned<FormatDeclaration>>,
) -> FormatVersion {
    FormatVersion {
        major: match declared_major(declarations) {
            Some(major) => major,
            None => 0,
        },
        minor: match declared_minor(declarations) {
            Some(minor) => minor,
            None => 0,
        },
    }
}

/// Declares a number of the version of the format.
fn declare_number(errors: &mut Vec<Error>, declared: &mut Once<u8>, number: u32, position: Position)
    ensures
        final(declared).declared() == (match old(declared).declared() {
            Some(first) => Some(first),
            None => if number <= u8::MAX {
                Some(number as u8)
            } else {
                None
            },
        }),
        error_views(final(errors)@) == (match number_error(
            old(declared).declared(),
            number,
            position,
        ) {
            Some(error) => error_views(old(errors)@).push(error),
            None => error_views(old(errors)@),
        }),
{
    let ghost before = errors@;
    if number > 255 {
        errors.push(Error::InvalidFormatVersion(position));
    } else {
        declared.declare_and_set(
            errors,
            Error::DuplicateDeclaration(position, Declaration::Version),
            number as u8,
        );
    }
    proof {
        if errors@.len() > before.len() {
            assert(error_views(errors@) =~= error_views(before).push(errors@.last()@));
        } else {
            assert(errors@ =~= before);
        }
    }
}

/// The version of the format that `.format` declares. The first
/// declaration of each number gives the number, which is zero where none is
/// declared. Every other declaration is an error, and so is a number that
/// is greater than a byte, which declares nothing.
pub fn assemble_module_format(
    errors: &mut Vec<Error>,
    declarations: &[Positioned<FormatDeclaration>],
) -> (version: FormatVersion)
    ensures
        version == declared_format(declarations@),
        error_views(final(errors)@) == error_views(old(errors)@) + format_errors(declarations@),
{
    let mut major_version: Once<u8> = Once::new();
    let mut minor_version: Once<u8> = Once::new();
    let mut index: usize = 0;
    proof {
        assert(declarations@.take(0) =~= Seq::<Positioned<FormatDeclaration>>::empty());
        assert(error_views(errors@) =~= error_views(old(errors)@) + format_errors(
            declarations@.take(0),
        ));
    }
    while index < declarations.len()
        invariant
            index <= declarations@.len(),
            major_version.declared() == declared_major(declarations@.take(index as int)),
            minor_version.declared() == declared_minor(declarations@.take(index as int)),
            error_views(errors@) == error_views(old(errors)@) + format_errors(
                declarations@.take(index as int),
            ),
        decreases declarations@.len() - index,
    {
        let ghost done = declarations@.take(index as int);
        let ghost next = declarations@.take(index + 1);
        proof {
            assert(next.drop_last() =~= done);
            assert(next.last() == declarations@[index as int]);
        }
        let node = &declarations[index];
        match node.0 {
            FormatDeclaration::Major(major) => {
                declare_number(errors, &mut major_version, major, node.1);
            },
            FormatDeclaration::Minor(minor) => {
                declare_number(errors, &mut minor_version, minor, node.1);
            },
        }
        proof {
            assert(error_views(errors@) =~= error_views(old(errors)@) + format_errors(next));
        }
        index += 1;
    }
    proof {
        assert(declarations@.take(index as int) =~= declarations@);
    }
    FormatVersion {
        major: match major_version.value() {
            Some(major) => major,
            None => 0,
        },
        minor: match minor_version.value() {
            Some(minor) => minor,
            None => 0,
        },
    }
}

/// The declarations of the first module header of the text, if it has one.
pub open spec fn first_header(declarations: Seq<Positioned<TopLevelDeclaration>>) -> Option<
    Seq<Positioned<ModuleDeclaration>>,
>
    decreases declarations.len(),
{
    if declarations.len() == 0 {
        None
    } else {
        match first_header(declarations.drop_last()) {
            Some(header) => Some(header),
            None => match declarations.last().0 {
                TopLevelDeclaration::Module(header) => Some(header@),
                _ => None,
            },
        }
    }
}

/// The declarations of the first `.format` of the text, if it has one.
pub open spec fn first_format(declarations: Seq<Positioned<TopLevelDeclaration>>) -> Option<
    Seq<Positioned<FormatDeclaration>>,
>
    decreases declarations.len(),
{
    if declarations.len() == 0 {
        None
    } else {
        match first_format(declarations.drop_last()) {
            Some(format) => Some(format),
            None => match declarations.last().0 {
                TopLevelDeclaration::Format(format) => Some(format@),
                _ => None,
            },
        }
    }
}

/// The errors of the first `.format` of the text, which is at `position`:
/// those of its declarations, and one more where the version that they
/// give is older than the oldest one that is read.
pub open spec fn version_errors(
    declarations: Seq<Positioned<FormatDeclaration>>,
    position: Position,
) -> Seq<ErrorView> {
    if declared_format(declarations).supported() {
        format_errors(declarations)
    } else {
        format_errors(declarations).push(ErrorView::InvalidFormatVersion(position))
    }
}

/// The errors of one declaration at the top of the text, where `header`
/// and `format` say whether a module header and a `.format` stand before
/// it. A second module header and a second `.format` are errors, and so is
/// every declaration of code, of a function, of a struct and of an entry
/// point: modules are assembled from their header and their format alone.
pub open spec fn top_level_errors(
    declaration: Positioned<TopLevelDeclaration>,
    header: bool,
    format: bool,
) -> Seq<ErrorView> {
    match declaration.0 {
        TopLevelDeclaration::Module(nodes) => if header {
            seq![ErrorView::DuplicateDeclaration(declaration.1, Declaration::Module)]
        } else {
            module_errors(nodes@)
        },
        TopLevelDeclaration::Format(nodes) => if format {
            seq![ErrorView::DuplicateDeclaration(declaration.1, Declaration::Format)]
        } else {
            version_errors(nodes@, declaration.1)
        },
        TopLevelDeclaration::Entry(_) => seq![
            ErrorView::Unsupported(declaration.1, Declaration::Entry),
        ],
        TopLevelDeclaration::Code { .. } => seq![
            ErrorView::Unsupported(declaration.1, Declaration::Code),
        ],
        TopLevelDeclaration::Function { .. } => seq![
            ErrorView::Unsupported(declaration.1, Declaration::MethodDefinition),
        ],
        TopLevelDeclaration::Struct { .. } => seq![
            ErrorView::Unsupported(declaration.1, Declaration::TypeDefinition),
        ],
    }
}

/// The errors of the declarations at the top of the text, in the order of
/// the declarations.
pub open spec fn declaration_errors(declarations: Seq<Positioned<TopLevelDeclaration>>) -> Seq<
    ErrorView,
>
    decreases declarations.len(),
{
    if declarations.len() == 0 {
        Seq::empty()
    } else {
        declaration_errors(declarations.drop_last()) + top_level_errors(
            declarations.last(),
            first_header(declarations.drop_last()).is_some(),
            first_format(declarations.drop_last()).is_some(),
        )
    }
}

/// The errors of a text: those of its declarations, and one more where it
/// has no module header.
pub open spec fn assembly_errors(declarations: Seq<Positioned<TopLevelDeclaration>>) -> Seq<
    ErrorView,
> {
    if first_header(declarations).is_some() {
        declaration_errors(declarations)
    } else {
        declaration_errors(declarations).push(
            ErrorView::MissingDeclaration(None, Declaration::Module),
        )
    }
}

/// The module that a text without errors declares: it has the name and the
/// version of the first module header, the version of the format that the
/// first `.format` gives, or else the oldest one that is read, and no
/// definitions.
pub open spec fn assembled(declarations: Seq<Positioned<TopLevelDeclaration>>) -> ModuleView {
    ModuleView {
        format_version: match first_format(declarations) {
            Some(format) => declared_format(format),
            None => FormatVersion::minimum_supported(),
        },
        identifier: declared_identifier(first_header(declarations).unwrap()),
        definitions: Seq::empty(),
    }
}

/// What was assembled so far from the declarations at the top of the text.
struct Assembled {
    /// The first module header, once there is one, and what it declares.
    header: Option<Option<ModuleIdentifier>>,
    /// The version of the format that the first `.format` gives, once
    /// there is one.
    format: Option<FormatVersion>,
    errors: Vec<Error>,
}

impl Assembled {
    /// Whether this is what the declarations come to.
    spec fn of(&self, declarations: Seq<Positioned<TopLevelDeclaration>>) -> bool {
        &&& error_views(self.errors@) == declaration_errors(declarations)
        &&& match self.header {
            Some(Some(identifier)) => first_header(declarations) matches Some(nodes)
                && declared_name(nodes).is_some() && identifier@ == declared_identifier(nodes),
            Some(None) => first_header(declarations).is_some() && self.errors@.len() > 0,
            None => first_header(declarations).is_none(),
        }
        &&& match self.format {
            Some(version) => first_format(declarations) matches Some(nodes) && version
                == declared_format(nodes) && (version.supported() || self.errors@.len() > 0),
            None => first_format(declarations).is_none(),
        }
    }

    /// Takes one more declaration.
    fn declare(
        &mut self,
        node: &Positioned<TopLevelDeclaration>,
        Ghost(before): Ghost<Seq<Positioned<TopLevelDeclaration>>>,
    )
        requires
            old(self).of(before),
        ensures
            final(self).of(before.push(*node)),
    {
        let ghost after = before.push(*node);
        let ghost had = self.errors@;
        proof {
            assert(after.drop_last() =~= before);
            assert(after.last() == *node);
        }
        match &node.0 {
            TopLevelDeclaration::Module(nodes) => {
                if self.header.is_none() {
                    let header = assemble_module_header(&mut self.errors, nodes.as_slice());
                    proof {
                        if header.is_none() {
                            assert(module_errors(nodes@).len() > 0);
                            assert(error_views(self.errors@).len() > 0);
                        }
                    }
                    self.header = Some(header);
                } else {
                    self.errors.push(Error::DuplicateDeclaration(node.1, Declaration::Module));
                    proof {
                        assert(error_views(self.errors@) =~= error_views(had) + seq![
                            ErrorView::DuplicateDeclaration(node.1, Declaration::Module),
                        ]);
                    }
                }
            },
            TopLevelDeclaration::Format(nodes) => {
                if self.format.is_none() {
                    let version = assemble_module_format(&mut self.errors, nodes.as_slice());
                    if !version.is_supported() {
                        let ghost read = self.errors@;
                        self.errors.push(Error::InvalidFormatVersion(node.1));
                        proof {
                            assert(error_views(self.errors@) =~= error_views(read).push(
                                ErrorView::InvalidFormatVersion(node.1),
                            ));
                            assert(error_views(self.errors@) =~= error_views(had) + version_errors(
                                nodes@,
                                node.1,
                            ));
                        }
                    }
                    self.format = Some(version);
                } else {
                    self.errors.push(Error::DuplicateDeclaration(node.1, Declaration::Format));
                    proof {
                        assert(error_views(self.errors@) =~= error_views(had) + seq![
                            ErrorView::DuplicateDeclaration(node.1, Declaration::Format),
                        ]);
                    }
                }
            },
            TopLevelDeclaration::Entry(_) => {
                self.errors.push(Error::Unsupported(node.1, Declaration::Entry));
                proof {
                    assert(error_views(self.errors@) =~= error_views(had) + seq![
                        ErrorView::Unsupported(node.1, Declaration::Entry),
                    ]);
                }
            },
            TopLevelDeclaration::Code { .. } => {
                self.errors.push(Error::Unsupported(node.1, Declaration::Code));
                proof {
                    assert(error_views(self.errors@) =~= error_views(had) + seq![
                        ErrorView::Unsupported(node.1, Declaration::Code),
                    ]);
                }
            },
            TopLevelDeclaration::Function { .. } => {
                self.errors.push(Error::Unsupported(node.1, Declaration::MethodDefinition));
                proof {
                    assert(error_views(self.errors@) =~= error_views(had) + seq![
                        ErrorView::Unsupported(node.1, Declaration::MethodDefinition),
                    ]);
                }
            },
            TopLevelDeclaration::Struct { .. } => {
                self.errors.push(Error::Unsupported(node.1, Declaration::TypeDefinition));
                proof {
                    assert(error_views(self.errors@) =~= error_views(had) + seq![
                        ErrorView::Unsupported(node.1, Declaration::TypeDefinition),
                    ]);
                }
            },
        }
        proof {
            // no error is taken back
            assert(error_views(self.errors@).len() == self.errors@.len());
            assert(error_views(had).len() == had.len());
        }
    }
}

/// Assembles the module that the declarations of a text declare. The text
/// has to have a module header with a name. Its errors are returned in the
/// order of the declarations, and no module is made where there are any.
pub fn assemble_declarations(declarations: &[Positioned<TopLevelDeclaration>]) -> (module: Result<
    Module,
    Vec<Error>,
>)
    ensures
        match module {
            Ok(module) => {
                &&& assembly_errors(declarations@).len() == 0
                &&& module@ == assembled(declarations@)
                &&& module.kept().is_none()
            },
            Err(errors) => {
                &&& errors@.len() > 0
                &&& error_views(errors@) == assembly_errors(declarations@)
            },
        },
{
    let mut state = Assembled { header: None, format: None, errors: Vec::new() };
    let mut index: usize = 0;
    proof {
        assert(declarations@.take(0) =~= Seq::<Positioned<TopLevelDeclaration>>::empty());
        assert(error_views(state.errors@) =~= Seq::<ErrorView>::empty());
    }
    while index < declarations.len()
        invariant
            index <= declarations@.len(),
            state.of(declarations@.take(index as int)),
        decreases declarations@.len() - index,
    {
        state.declare(&declarations[index], Ghost(declarations@.take(index as int)));
        proof {
            assert(declarations@.take(index as int).push(declarations@[index as int])
                =~= declarations@.take(index + 1));
        }
        index += 1;
    }
    proof {
        assert(declarations@.take(index as int) =~= declarations@);
    }
    let Assembled { header, format, mut errors } = state;
    let ghost read = errors@;
    if header.is_none() {
        errors.push(Error::MissingDeclaration(None, Declaration::Module));
        proof {
            assert(error_views(errors@) =~= error_views(read).push(
                ErrorView::MissingDeclaration(None, Declaration::Module),
            ));
        }
    }
    proof {
        assert(error_views(errors@).len() == errors@.len());
    }
    if errors.len() > 0 {
        return Err(errors);
    }
    match header {
        Some(Some(identifier)) => {
            let mut module = Module::from_identifier(Arc::new(identifier));
            match format {
                Some(version) => {
                    module.set_format(version);
                },
                None => {},
            }
            Ok(module)
        },
        _ => Err(errors),
    }
}

impl Declaration {
    /// What the kind of declaration is called.
    pub open spec fn text(self) -> Seq<char> {
        match self {
            Declaration::Name => "name"@,
            Declaration::Namespace => "namespace"@,
            Declaration::TypeDefinition => "type definition"@,
            Declaration::MethodDefinition => "method definition"@,
            Declaration::MethodBody => "method body"@,
            Declaration::Code => "code"@,
            Declaration::Module => "module"@,
            Declaration::Format => "format"@,
            Declaration::Version => "version"@,
            Declaration::Entry => "entry point"@,
        }
    }

    /// What the kind of declaration is called.
    pub fn name(&self) -> (name: &'static str)
        ensures
            name@ == self.text(),
    {
        match self {
            Declaration::Name => "name",
            Declaration::Namespace => "namespace",
            Declaration::TypeDefinition => "type definition",
            Declaration::MethodDefinition => "method definition",
            Declaration::MethodBody => "method body",
            Declaration::Code => "code",
            Declaration::Module => "module",
            Declaration::Format => "format",
            Declaration::Version => "version",
            Declaration::Entry => "entry point",
        }
    }
}

impl NameError {
    /// What the error is called.
    pub open spec fn text(self) -> Seq<char> {
        match self {
            NameError::Duplicate => "duplicate"@,
            NameError::Missing => "missing"@,
            NameError::Empty => "empty"@,
        }
    }

    /// What the error is called.
    pub fn name(&self) -> (name: &'static str)
        ensures
            name@ == self.text(),
    {
        match self {
            NameError::Duplicate => "duplicate",
            NameError::Missing => "missing",
            NameError::Empty => "empty",
        }
    }
}

impl ErrorView {
    /// The line of text that the error is shown as.
    pub open spec fn text(self) -> Seq<char> {
        match self {
            ErrorView::DuplicateNamedDeclaration(symbol, _, declaration) => "a "@
                + declaration.text() + " declaration corresponding to the symbol @"@
                + vstd::utf8::decode_utf8(symbol) + " already exists"@,
            ErrorView::DuplicateDeclaration(_, declaration) => "a "@ + declaration.text()
                + " declaration already exists"@,
            ErrorView::DuplicateModifier(_, name) => "the "@ + name
                + " modifier was already specified"@,
            ErrorView::InvalidNameDeclaration(_, declaration, error) => error.text()
                + " name for "@ + declaration.text() + " declaration"@,
            ErrorView::MissingDeclaration(_, declaration) => "missing "@ + declaration.text()
                + " declaration"@,
            ErrorView::UndefinedGlobalSymbol(symbol, _, declaration) => "a "@ + declaration.text()
                + " corresponding to the symbol @"@ + vstd::utf8::decode_utf8(symbol)
                + " could not be found"@,
            ErrorView::InvalidFormatVersion(_) => "the version of the format is not supported"@,
            ErrorView::Unsupported(_, declaration) => "a "@ + declaration.text()
                + " declaration cannot be assembled"@,
        }
    }
}

impl Error {
    /// The error as one line of text.
    pub fn message(&self) -> (message: String)
        ensures
            message@ == self@.text(),
    {
        match self {
            Error::DuplicateNamedDeclaration(symbol, declaration) => {
                let mut message = String::from_str("a ");
                message.append(declaration.name());
                message.append(" declaration corresponding to the symbol @");
                message.append(symbol.identifier().text().as_str());
                message.append(" already exists");
                message
            },
            Error::DuplicateDeclaration(_, declaration) => {
                let mut message = String::from_str("a ");
                message.append(declaration.name());
                message.append(" declaration already exists");
                message
            },
            Error::DuplicateModifier(_, name) => {
                let mut message = String::from_str("the ");
                message.append(name);
                message.append(" modifier was already specified");
                message
            },
            Error::InvalidNameDeclaration(_, declaration, error) => {
                let mut message = String::from_str(error.name());
                message.append(" name for ");
                message.append(declaration.name());
                message.append(" declaration");
                message
            },
            Error::MissingDeclaration(_, declaration) => {
                let mut message = String::from_str("missing ");
                message.append(declaration.name());
                message.append(" declaration");
                message
            },
            Error::UndefinedGlobalSymbol(symbol, declaration) => {
                let mut message = String::from_str("a ");
                message.append(declaration.name());
                message.append(" corresponding to the symbol @");
                message.append(symbol.identifier().text().as_str());
                message.append(" could not be found");
                message
            },
            Error::InvalidFormatVersion(_) => String::from_str(
                "the version of the format is not supported",
            ),
            Error::Unsupported(_, declaration) => {
                let mut message = String::from_str("a ");
                message.append(declaration.name());
                message.append(" declaration cannot be assembled");
                message
            },
        }
    }
}

} // verus!
