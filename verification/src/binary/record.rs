//! The records that make up a module.

use crate::binary::code::InstructionFormat;
use crate::binary::format::{
    all_fit, lemma_many_round_trip, lemma_section_round_trip, models, parsed_many, parsed_section,
    read_many, read_section, section_fits, write_many, write_section, written_many, written_section,
    Format, IndexFormat,
};
use crate::binary::buffer::Pool;
use crate::binary::signature;
use crate::binary::{
    length_bytes, lemma_length_bytes_len, lemma_length_round_trip, write_length, LengthSize,
};
use crate::identifier::{valid_identifier, Identifier, IdentifierFormat};
use crate::instruction_set::{Instruction, InstructionView};
use crate::module::parser::{agrees, parsed_length, Error, ErrorKind, Parsed, Section, Wrapper};
use crate::module::{ModuleIdentifier, ModuleIdentifierView};
use crate::type_system::Any;
use vstd::prelude::*;

verus! {

/// The kinds of records.
#[derive(Clone, Copy, Debug, PartialEq, Eq, Structural)]
pub enum Type {
    MetadataField,
    Array,
    Identifier,
    TypeSignature,
    FunctionSignature,
    Data,
    CodeBlock,
    FunctionDefinition,
    FunctionInstantiation,
    FunctionImport,
}

/// A byte that names no kind of record.
#[derive(Clone, Copy, Debug, PartialEq, Eq, Structural)]
pub struct InvalidTypeError {
    pub value: u8,
}

impl Type {
    /// The byte that stands for the kind.
    pub open spec fn number(self) -> u8 {
        match self {
            Type::MetadataField => 0u8,
            Type::Array => 1u8,
            Type::Identifier => 2u8,
            Type::TypeSignature => 3u8,
            Type::FunctionSignature => 4u8,
            Type::Data => 5u8,
            Type::CodeBlock => 6u8,
            Type::FunctionDefinition => 7u8,
            Type::FunctionInstantiation => 8u8,
            Type::FunctionImport => 9u8,
        }
    }

    /// The byte that stands for the kind.
    pub fn byte(self) -> (value: u8)
        ensures
            value == self.number(),
    {
        match self {
            Type::MetadataField => 0,
            Type::Array => 1,
            Type::Identifier => 2,
            Type::TypeSignature => 3,
            Type::FunctionSignature => 4,
            Type::Data => 5,
            Type::CodeBlock => 6,
            Type::FunctionDefinition => 7,
            Type::FunctionInstantiation => 8,
            Type::FunctionImport => 9,
        }
    }

    /// The kind that a byte stands for, where it stands for one.
    pub fn try_from_u8(value: u8) -> (kind: Result<Type, InvalidTypeError>)
        ensures
            match kind {
                Ok(found) => found.number() == value,
                Err(error) => value > 9 && error.value == value,
            },
    {
        if value == 0 {
            Ok(Type::MetadataField)
        } else if value == 1 {
            Ok(Type::Array)
        } else if value == 2 {
            Ok(Type::Identifier)
        } else if value == 3 {
            Ok(Type::TypeSignature)
        } else if value == 4 {
            Ok(Type::FunctionSignature)
        } else if value == 5 {
            Ok(Type::Data)
        } else if value == 6 {
            Ok(Type::CodeBlock)
        } else if value == 7 {
            Ok(Type::FunctionDefinition)
        } else if value == 8 {
            Ok(Type::FunctionInstantiation)
        } else if value == 9 {
            Ok(Type::FunctionImport)
        } else {
            Err(InvalidTypeError { value })
        }
    }
}

/// A field of a module's metadata.
#[derive(Clone, Debug, PartialEq, Eq)]
pub enum MetadataField {
    /// The name and the version of the module.
    ModuleIdentifier { name: Identifier, version: Vec<usize> },
    /// The index of the function instantiation at which the program starts.
    EntryPoint(usize),
}

/// An array of bytes of a module's data.
#[derive(Clone, Debug, PartialEq, Eq)]
pub struct DataArray(pub Vec<u8>);

impl DataArray {
    pub fn as_bytes(&self) -> (bytes: &[u8])
        ensures
            bytes@ == self.0@,
    {
        self.0.as_slice()
    }

    pub fn from_bytes(bytes: &[u8]) -> (data: Self)
        ensures
            data.0@ == bytes@,
    {
        DataArray(vstd::slice::slice_to_vec(bytes))
    }
}

/// A code block as a module holds it: the types of its registers, each the
/// index of a type signature, and its instructions.
#[derive(Clone, Debug, PartialEq, Eq, Hash)]
pub struct CodeBlock {
    input_types: Vec<usize>,
    result_types: Vec<usize>,
    temporary_types: Vec<usize>,
    instructions: Vec<Instruction>,
}

/// What a code block of a module stands for.
pub struct CodeBlockView {
    pub input_types: Seq<usize>,
    pub result_types: Seq<usize>,
    pub temporary_types: Seq<usize>,
    pub instructions: Seq<InstructionView>,
}

/// What the instructions of a list stand for.
pub open spec fn instruction_views(instructions: Seq<Instruction>) -> Seq<InstructionView> {
    instructions.map_values(|instruction: Instruction| instruction@)
}

impl View for CodeBlock {
    type V = CodeBlockView;

    closed spec fn view(&self) -> CodeBlockView {
        CodeBlockView {
            input_types: self.input_types@,
            result_types: self.result_types@,
            temporary_types: self.temporary_types@,
            instructions: instruction_views(self.instructions@),
        }
    }
}

impl CodeBlockView {
    /// Whether every type index of the block is below `types`.
    pub open spec fn within(self, types: nat) -> bool {
        &&& forall|i: int| 0 <= i < self.input_types.len() ==> self.input_types[i] < types
        &&& forall|i: int| 0 <= i < self.result_types.len() ==> self.result_types[i] < types
        &&& forall|i: int|
            0 <= i < self.temporary_types.len() ==> self.temporary_types[i] < types
    }
}

impl CodeBlock {
    pub fn new(
        input_types: Vec<usize>,
        result_types: Vec<usize>,
        temporary_types: Vec<usize>,
        instructions: Vec<Instruction>,
    ) -> (block: Self)
        ensures
            block@.input_types == input_types@,
            block@.result_types == result_types@,
            block@.temporary_types == temporary_types@,
            block@.instructions == instruction_views(instructions@),
    {
        CodeBlock { input_types, result_types, temporary_types, instructions }
    }

    /// The types of all registers: of the inputs, then of the results, then
    /// of the temporaries.
    pub fn register_types(&self) -> (types: Vec<usize>)
        ensures
            types@ == self@.input_types + self@.result_types + self@.temporary_types,
    {
        let mut types: Vec<usize> = self.input_types.clone();
        let mut results: Vec<usize> = self.result_types.clone();
        let mut temporaries: Vec<usize> = self.temporary_types.clone();
        types.append(&mut results);
        types.append(&mut temporaries);
        types
    }

    pub fn input_types(&self) -> (types: &[usize])
        ensures
            types@ == self@.input_types,
    {
        self.input_types.as_slice()
    }

    pub fn result_types(&self) -> (types: &[usize])
        ensures
            types@ == self@.result_types,
    {
        self.result_types.as_slice()
    }

    pub fn temporary_types(&self) -> (types: &[usize])
        ensures
            types@ == self@.temporary_types,
    {
        self.temporary_types.as_slice()
    }

    pub fn instructions(&self) -> (instructions: &[Instruction])
        ensures
            instruction_views(instructions@) == self@.instructions,
    {
        self.instructions.as_slice()
    }
}

/// What reading three counts one after the other comes to.
pub open spec fn parsed_counts(size: LengthSize, bytes: Seq<u8>) -> Parsed<(usize, usize, usize)> {
    match parsed_length(size, bytes, ErrorKind::UnexpectedEnd) {
        Parsed::Failed { kind, offset } => Parsed::Failed { kind, offset },
        Parsed::Done { value: first, consumed: a } => {
            let bytes1 = bytes.skip(a as int);
            match parsed_length(size, bytes1, ErrorKind::UnexpectedEnd) {
                Parsed::Failed { kind, offset } => Parsed::Failed { kind, offset: a + offset },
                Parsed::Done { value: second, consumed: b } => {
                    let bytes2 = bytes1.skip(b as int);
                    match parsed_length(size, bytes2, ErrorKind::UnexpectedEnd) {
                        Parsed::Failed { kind, offset } => Parsed::Failed {
                            kind,
                            offset: a + b + offset,
                        },
                        Parsed::Done { value: third, consumed: c } => Parsed::Done {
                            value: (first, second, third),
                            consumed: a + b + c,
                        },
                    }
                },
            }
        },
    }
}

/// What reading three lists of indices of the given lengths comes to.
pub open spec fn parsed_lists(
    size: LengthSize,
    bytes: Seq<u8>,
    counts: (usize, usize, usize),
) -> Parsed<(Seq<usize>, Seq<usize>, Seq<usize>)> {
    match parsed_many::<IndexFormat>(size, bytes, counts.0 as nat, 0) {
        Parsed::Failed { kind, offset } => Parsed::Failed { kind, offset },
        Parsed::Done { value: first, consumed: a } => {
            let bytes1 = bytes.skip(a as int);
            match parsed_many::<IndexFormat>(size, bytes1, counts.1 as nat, 0) {
                Parsed::Failed { kind, offset } => Parsed::Failed { kind, offset: a + offset },
                Parsed::Done { value: second, consumed: b } => {
                    let bytes2 = bytes1.skip(b as int);
                    match parsed_many::<IndexFormat>(size, bytes2, counts.2 as nat, 0) {
                        Parsed::Failed { kind, offset } => Parsed::Failed {
                            kind,
                            offset: a + b + offset,
                        },
                        Parsed::Done { value: third, consumed: c } => Parsed::Done {
                            value: (first, second, third),
                            consumed: a + b + c,
                        },
                    }
                },
            }
        },
    }
}

/// The bytes of the three counts of a code block.
pub open spec fn count_bytes(size: LengthSize, block: CodeBlockView) -> Seq<u8> {
    length_bytes(size, block.input_types.len()) + length_bytes(size, block.result_types.len())
        + length_bytes(size, block.temporary_types.len())
}

/// The bytes of the type indices of a code block.
pub open spec fn list_bytes(size: LengthSize, block: CodeBlockView) -> Seq<u8> {
    written_many::<IndexFormat>(size, block.input_types) + written_many::<IndexFormat>(
        size,
        block.result_types,
    ) + written_many::<IndexFormat>(size, block.temporary_types)
}

proof fn lemma_counts_round_trip(size: LengthSize, block: CodeBlockView, rest: Seq<u8>)
    requires
        size.holds(block.input_types.len()),
        size.holds(block.result_types.len()),
        size.holds(block.temporary_types.len()),
        block.input_types.len() <= usize::MAX,
        block.result_types.len() <= usize::MAX,
        block.temporary_types.len() <= usize::MAX,
    ensures
        parsed_counts(size, count_bytes(size, block) + rest) == (Parsed::Done {
            value: (
                block.input_types.len() as usize,
                block.result_types.len() as usize,
                block.temporary_types.len() as usize,
            ),
            consumed: count_bytes(size, block).len(),
        }),
{
    let a = length_bytes(size, block.input_types.len());
    let b = length_bytes(size, block.result_types.len());
    let c = length_bytes(size, block.temporary_types.len());
    let all = count_bytes(size, block) + rest;
    assert(all =~= a + (b + c + rest));
    lemma_length_round_trip(size, block.input_types.len(), b + c + rest);
    let bytes1 = all.skip(a.len() as int);
    assert(bytes1 =~= b + (c + rest));
    lemma_length_round_trip(size, block.result_types.len(), c + rest);
    let bytes2 = bytes1.skip(b.len() as int);
    assert(bytes2 =~= c + rest);
    lemma_length_round_trip(size, block.temporary_types.len(), rest);
}

proof fn lemma_lists_round_trip(size: LengthSize, block: CodeBlockView, rest: Seq<u8>)
    requires
        all_fit::<IndexFormat>(size, block.input_types),
        all_fit::<IndexFormat>(size, block.result_types),
        all_fit::<IndexFormat>(size, block.temporary_types),
        block.input_types.len() <= usize::MAX,
        block.result_types.len() <= usize::MAX,
        block.temporary_types.len() <= usize::MAX,
    ensures
        parsed_lists(
            size,
            list_bytes(size, block) + rest,
            (
                block.input_types.len() as usize,
                block.result_types.len() as usize,
                block.temporary_types.len() as usize,
            ),
        ) == (Parsed::Done {
            value: (block.input_types, block.result_types, block.temporary_types),
            consumed: list_bytes(size, block).len(),
        }),
{
    let a = written_many::<IndexFormat>(size, block.input_types);
    let b = written_many::<IndexFormat>(size, block.result_types);
    let c = written_many::<IndexFormat>(size, block.temporary_types);
    let all = list_bytes(size, block) + rest;
    assert(all =~= a + (b + c + rest));
    lemma_many_round_trip::<IndexFormat>(size, block.input_types, 0, b + c + rest);
    let bytes1 = all.skip(a.len() as int);
    assert(bytes1 =~= b + (c + rest));
    lemma_many_round_trip::<IndexFormat>(size, block.result_types, 0, c + rest);
    let bytes2 = bytes1.skip(b.len() as int);
    assert(bytes2 =~= c + rest);
    lemma_many_round_trip::<IndexFormat>(size, block.temporary_types, 0, rest);
}

/// The form of a code block: the counts of its inputs, results and
/// temporaries, the type indices of all of them, and the section of its
/// instructions.
pub struct CodeBlockFormat;

impl Format for CodeBlockFormat {
    type T = CodeBlock;

    type V = CodeBlockView;

    open spec fn model(value: CodeBlock) -> CodeBlockView {
        value@
    }

    open spec fn valid(value: CodeBlockView) -> bool {
        &&& value.input_types.len() <= usize::MAX
        &&& value.result_types.len() <= usize::MAX
        &&& value.temporary_types.len() <= usize::MAX
    }

    open spec fn fits(size: LengthSize, value: CodeBlockView) -> bool {
        &&& size.holds(value.input_types.len())
        &&& size.holds(value.result_types.len())
        &&& size.holds(value.temporary_types.len())
        &&& all_fit::<IndexFormat>(size, value.input_types)
        &&& all_fit::<IndexFormat>(size, value.result_types)
        &&& all_fit::<IndexFormat>(size, value.temporary_types)
        &&& section_fits::<InstructionFormat>(size, value.instructions)
    }

    open spec fn written(size: LengthSize, value: CodeBlockView) -> Seq<u8> {
        count_bytes(size, value) + list_bytes(size, value) + written_section::<InstructionFormat>(
            size,
            value.instructions,
        )
    }

    open spec fn parsed(size: LengthSize, bytes: Seq<u8>, index: nat) -> Parsed<CodeBlockView> {
        match parsed_counts(size, bytes) {
            Parsed::Failed { kind, offset } => Parsed::Failed { kind, offset },
            Parsed::Done { value: counts, consumed: a } => {
                let bytes1 = bytes.skip(a as int);
                match parsed_lists(size, bytes1, counts) {
                    Parsed::Failed { kind, offset } => Parsed::Failed { kind, offset: a + offset },
                    Parsed::Done { value: lists, consumed: b } => {
                        let bytes2 = bytes1.skip(b as int);
                        match parsed_section::<InstructionFormat>(
                            size,
                            bytes2,
                            Section::Instructions,
                        ) {
                            Parsed::Failed { kind, offset } => Parsed::Failed {
                                kind,
                                offset: a + b + offset,
                            },
                            Parsed::Done { value: instructions, consumed: c } => Parsed::Done {
                                value: CodeBlockView {
                                    input_types: lists.0,
                                    result_types: lists.1,
                                    temporary_types: lists.2,
                                    instructions,
                                },
                                consumed: a + b + c,
                            },
                        }
                    },
                }
            },
        }
    }

    proof fn round_trip(size: LengthSize, value: CodeBlockView, index: nat, rest: Seq<u8>) {
        let a = count_bytes(size, value);
        let b = list_bytes(size, value);
        let c = written_section::<InstructionFormat>(size, value.instructions);
        let all = Self::written(size, value) + rest;
        assert(all =~= a + (b + c + rest));
        lemma_counts_round_trip(size, value, b + c + rest);
        let bytes1 = all.skip(a.len() as int);
        assert(bytes1 =~= b + (c + rest));
        lemma_lists_round_trip(size, value, c + rest);
        let bytes2 = bytes1.skip(b.len() as int);
        assert(bytes2 =~= c + rest);
        lemma_section_round_trip::<InstructionFormat>(
            size,
            value.instructions,
            Section::Instructions,
            rest,
        );
    }

    proof fn written_some(size: LengthSize, value: CodeBlockView) {
        lemma_length_bytes_len(size, value.input_types.len());
    }

    fn write(value: &CodeBlock, size: LengthSize, out: &mut Vec<u8>) -> (written: bool) {
        let pool = Pool::new();
        let a = write_length(size, value.input_types.len(), out);
        let b = write_length(size, value.result_types.len(), out);
        let c = write_length(size, value.temporary_types.len(), out);
        let ghost counted = out@;
        let d = write_many::<IndexFormat>(&value.input_types, size, out);
        let e = write_many::<IndexFormat>(&value.result_types, size, out);
        let f = write_many::<IndexFormat>(&value.temporary_types, size, out);
        let ghost listed = out@;
        let g = write_section::<InstructionFormat>(&value.instructions, size, out, &pool);
        proof {
            assert(models::<IndexFormat>(value.input_types@) =~= value.input_types@);
            assert(models::<IndexFormat>(value.result_types@) =~= value.result_types@);
            assert(models::<IndexFormat>(value.temporary_types@) =~= value.temporary_types@);
            assert(models::<InstructionFormat>(value.instructions@) =~= value@.instructions);
            if a && b && c {
                assert(counted =~= old(out)@ + count_bytes(size, value@));
                if d && e && f {
                    assert(listed =~= counted + list_bytes(size, value@));
                    if g {
                        assert(out@ =~= old(out)@ + Self::written(size, value@));
                    }
                }
            }
        }
        a && b && c && d && e && f && g
    }

    fn read(source: &mut Wrapper<'_>, index: usize) -> (value: Result<CodeBlock, Error>) {
        let ghost size = source.size();
        let ghost bytes = source.remaining();
        let counts = read_counts(source)?;
        let ghost bytes1 = source.remaining();
        let lists = read_lists(source, counts)?;
        let ghost bytes2 = source.remaining();
        let instructions = read_section::<InstructionFormat>(source, Section::Instructions)?;
        proof {
            assert(models::<InstructionFormat>(instructions@) =~= instruction_views(
                instructions@,
            ));
            let a = (bytes.len() - bytes1.len()) as nat;
            let b = (bytes1.len() - bytes2.len()) as nat;
            let c = (bytes2.len() - source.remaining().len()) as nat;
            assert(bytes.skip(a as int).skip(b as int).skip(c as int) =~= bytes.skip(
                (a + b + c) as int,
            ));
            assert(lists.0@.len() == lists.0.len());
            assert(lists.1@.len() == lists.1.len());
            assert(lists.2@.len() == lists.2.len());
        }
        Ok(
            CodeBlock {
                input_types: lists.0,
                result_types: lists.1,
                temporary_types: lists.2,
                instructions,
            },
        )
    }
}

fn read_counts(source: &mut Wrapper<'_>) -> (counts: Result<(usize, usize, usize), Error>)
    ensures
        agrees(
            counts,
            |read: (usize, usize, usize)| read,
            parsed_counts(old(source).size(), old(source).remaining()),
            *old(source),
            *final(source),
        ),
{
    let ghost size = source.size();
    let ghost bytes = source.remaining();
    let first = source.read_length(ErrorKind::UnexpectedEnd)?;
    let second = source.read_length(ErrorKind::UnexpectedEnd)?;
    let third = source.read_length(ErrorKind::UnexpectedEnd)?;
    proof {
        let width = size.width();
        assert(bytes.skip(width as int).skip(width as int).skip(width as int) =~= bytes.skip(
            (width + width + width) as int,
        ));
    }
    Ok((first, second, third))
}

fn read_lists(source: &mut Wrapper<'_>, counts: (usize, usize, usize)) -> (lists: Result<
    (Vec<usize>, Vec<usize>, Vec<usize>),
    Error,
>)
    ensures
        agrees(
            lists,
            |read: (Vec<usize>, Vec<usize>, Vec<usize>)| (read.0@, read.1@, read.2@),
            parsed_lists(old(source).size(), old(source).remaining(), counts),
            *old(source),
            *final(source),
        ),
{
    let ghost bytes = source.remaining();
    let first = read_many::<IndexFormat>(source, counts.0)?;
    let ghost bytes1 = source.remaining();
    let second = read_many::<IndexFormat>(source, counts.1)?;
    let ghost bytes2 = source.remaining();
    let third = read_many::<IndexFormat>(source, counts.2)?;
    proof {
        assert(models::<IndexFormat>(first@) =~= first@);
        assert(models::<IndexFormat>(second@) =~= second@);
        assert(models::<IndexFormat>(third@) =~= third@);
        let a = (bytes.len() - bytes1.len()) as nat;
        let b = (bytes1.len() - bytes2.len()) as nat;
        let c = (bytes2.len() - source.remaining().len()) as nat;
        assert(bytes.skip(a as int).skip(b as int).skip(c as int) =~= bytes.skip(
            (a + b + c) as int,
        ));
    }
    Ok((first, second, third))
}

} // verus!

verus! {

/// Whether a definition has a symbol, and whether other modules see it.
#[derive(Clone, Debug, PartialEq, Eq)]
pub enum Export {
    /// The definition has a symbol that only its own module sees.
    Private(Identifier),
    /// The definition has a symbol that other modules see.
    Export(Identifier),
    /// The definition has no symbol.
    Hidden,
}

/// What an export stands for.
pub enum ExportView {
    Private(Seq<u8>),
    Export(Seq<u8>),
    Hidden,
}

impl ExportView {
    /// The symbol, where there is one.
    pub open spec fn symbol(self) -> Option<Seq<u8>> {
        match self {
            ExportView::Private(name) => Some(name),
            ExportView::Export(name) => Some(name),
            ExportView::Hidden => None,
        }
    }
}

impl View for Export {
    type V = ExportView;

    open spec fn view(&self) -> ExportView {
        match self {
            Export::Private(name) => ExportView::Private(name@),
            Export::Export(name) => ExportView::Export(name@),
            Export::Hidden => ExportView::Hidden,
        }
    }
}

impl Export {
    /// An export whose symbol other modules see.
    pub fn new_export(symbol: Identifier) -> (export: Self)
        ensures
            export@ == ExportView::Export(symbol@),
    {
        Export::Export(symbol)
    }

    /// An export whose symbol only its own module sees.
    pub fn new_private(symbol: Identifier) -> (export: Self)
        ensures
            export@ == ExportView::Private(symbol@),
    {
        Export::Private(symbol)
    }

    /// The symbol, where there is one.
    pub fn symbol(&self) -> (symbol: Option<&Identifier>)
        ensures
            match symbol {
                Some(name) => self@.symbol() == Some(name@),
                None => self@.symbol().is_none(),
            },
    {
        match self {
            Export::Private(name) => Some(name),
            Export::Export(name) => Some(name),
            Export::Hidden => None,
        }
    }

    /// A copy of the export.
    pub fn duplicate(&self) -> (copy: Self)
        ensures
            copy@ == self@,
    {
        match self {
            Export::Private(name) => Export::Private(name.clone()),
            Export::Export(name) => Export::Export(name.clone()),
            Export::Hidden => Export::Hidden,
        }
    }
}

/// Where the body of a function is.
#[derive(Clone, Debug, PartialEq, Eq)]
pub enum FunctionBody {
    /// The body is the code block of the given index.
    Definition(usize),
    /// The body is in a library, whose name is the identifier of the given
    /// index, under the given name.
    Foreign { library: usize, entry_point: Identifier },
}

/// What the body of a function stands for.
pub enum FunctionBodyView {
    Definition(usize),
    Foreign { library: usize, entry_point: Seq<u8> },
}

impl View for FunctionBody {
    type V = FunctionBodyView;

    open spec fn view(&self) -> FunctionBodyView {
        match self {
            FunctionBody::Definition(index) => FunctionBodyView::Definition(*index),
            FunctionBody::Foreign { library, entry_point } => FunctionBodyView::Foreign {
                library: *library,
                entry_point: entry_point@,
            },
        }
    }
}

/// The definition of a function as a module holds it.
#[derive(Clone, Debug, PartialEq, Eq)]
pub struct FunctionDefinition {
    export: Export,
    signature: usize,
    body: FunctionBody,
}

/// What the definition of a function stands for.
pub struct FunctionDefinitionView {
    pub export: ExportView,
    pub signature: usize,
    pub body: FunctionBodyView,
}

impl View for FunctionDefinition {
    type V = FunctionDefinitionView;

    closed spec fn view(&self) -> FunctionDefinitionView {
        FunctionDefinitionView {
            export: self.export@,
            signature: self.signature,
            body: self.body@,
        }
    }
}

impl FunctionDefinition {
    pub fn new(export: Export, signature: usize, body: FunctionBody) -> (definition: Self)
        ensures
            definition@ == (FunctionDefinitionView {
                export: export@,
                signature,
                body: body@,
            }),
    {
        FunctionDefinition { export, signature, body }
    }

    pub fn export(&self) -> (export: &Export)
        ensures
            export@ == self@.export,
    {
        &self.export
    }

    /// The index of the function signature.
    pub fn signature(&self) -> (signature: usize)
        ensures
            signature == self@.signature,
    {
        self.signature
    }

    pub fn body(&self) -> (body: &FunctionBody)
        ensures
            body@ == self@.body,
    {
        &self.body
    }
}

/// A function instantiation as a module holds it: the index of the function
/// definition that it instantiates.
#[derive(Clone, Copy, Debug, PartialEq, Eq, Structural)]
pub struct FunctionInstantiation {
    pub template: usize,
}

impl FunctionInstantiation {
    pub fn from_template(template: usize) -> (instantiation: Self)
        ensures
            instantiation.template == template,
    {
        FunctionInstantiation { template }
    }

    pub fn template(&self) -> (template: usize)
        ensures
            template == self.template,
    {
        self.template
    }
}

/// A function that a module takes from another module: the module that
/// defines it, the symbol that it is exported under, and the index of its
/// function signature.
#[derive(Clone, Debug, PartialEq, Eq)]
pub struct FunctionImport {
    pub module: ModuleIdentifier,
    pub symbol: Identifier,
    pub signature: usize,
}

/// What a function import stands for.
pub struct FunctionImportView {
    pub module: ModuleIdentifierView,
    pub symbol: Seq<u8>,
    pub signature: usize,
}

impl View for FunctionImport {
    type V = FunctionImportView;

    open spec fn view(&self) -> FunctionImportView {
        FunctionImportView {
            module: self.module@,
            symbol: self.symbol@,
            signature: self.signature,
        }
    }
}

impl FunctionImport {
    pub fn new(module: ModuleIdentifier, symbol: Identifier, signature: usize) -> (import: Self)
        ensures
            import@ == (FunctionImportView { module: module@, symbol: symbol@, signature }),
    {
        FunctionImport { module, symbol, signature }
    }
}

/// One element of a module.
#[derive(Clone, Debug, PartialEq, Eq)]
pub enum Record {
    MetadataField(MetadataField),
    Identifier(Identifier),
    TypeSignature(Any),
    FunctionSignature(signature::Function),
    Data(DataArray),
    CodeBlock(Box<CodeBlock>),
    FunctionDefinition(Box<FunctionDefinition>),
    FunctionInstantiation(FunctionInstantiation),
    FunctionImport(Box<FunctionImport>),
}

impl Record {
    /// The kind of the record.
    pub open spec fn kind(&self) -> Type {
        match self {
            Record::MetadataField(_) => Type::MetadataField,
            Record::Identifier(_) => Type::Identifier,
            Record::TypeSignature(_) => Type::TypeSignature,
            Record::FunctionSignature(_) => Type::FunctionSignature,
            Record::Data(_) => Type::Data,
            Record::CodeBlock(_) => Type::CodeBlock,
            Record::FunctionDefinition(_) => Type::FunctionDefinition,
            Record::FunctionInstantiation(_) => Type::FunctionInstantiation,
            Record::FunctionImport(_) => Type::FunctionImport,
        }
    }

    pub fn record_type(&self) -> (kind: Type)
        ensures
            kind == self.kind(),
    {
        match self {
            Record::MetadataField(_) => Type::MetadataField,
            Record::Identifier(_) => Type::Identifier,
            Record::TypeSignature(_) => Type::TypeSignature,
            Record::FunctionSignature(_) => Type::FunctionSignature,
            Record::Data(_) => Type::Data,
            Record::CodeBlock(_) => Type::CodeBlock,
            Record::FunctionDefinition(_) => Type::FunctionDefinition,
            Record::FunctionInstantiation(_) => Type::FunctionInstantiation,
            Record::FunctionImport(_) => Type::FunctionImport,
        }
    }

    /// The record of an identifier.
    pub fn from_identifier(identifier: Identifier) -> (record: Self)
        ensures
            record == Record::Identifier(identifier),
    {
        Record::Identifier(identifier)
    }

    /// The record of a type signature.
    pub fn from_type_signature(signature: Any) -> (record: Self)
        ensures
            record == Record::TypeSignature(signature),
    {
        Record::TypeSignature(signature)
    }
}

/// The flags byte of a definition: bit 0 is set where the symbol is
/// exported, bit 1 where the body is foreign.
pub open spec fn definition_flags(definition: FunctionDefinitionView) -> u8 {
    let export: u8 = if definition.export is Export {
        1
    } else {
        0
    };
    let foreign: u8 = if definition.body is Foreign {
        2
    } else {
        0
    };
    (export + foreign) as u8
}

/// The bytes of the body of a definition.
pub open spec fn body_bytes(size: LengthSize, body: FunctionBodyView) -> Seq<u8> {
    match body {
        FunctionBodyView::Definition(block) => length_bytes(size, block as nat),
        FunctionBodyView::Foreign { library, entry_point } => length_bytes(size, library as nat)
            + IdentifierFormat::written(size, entry_point),
    }
}

/// What reading the body of a definition comes to, foreign or not.
pub open spec fn parsed_body(size: LengthSize, bytes: Seq<u8>, foreign: bool) -> Parsed<
    FunctionBodyView,
> {
    match parsed_length(size, bytes, ErrorKind::UnexpectedEnd) {
        Parsed::Failed { kind, offset } => Parsed::Failed { kind, offset },
        Parsed::Done { value: index, consumed: a } => if !foreign {
            Parsed::Done { value: FunctionBodyView::Definition(index), consumed: a }
        } else {
            match IdentifierFormat::parsed(size, bytes.skip(a as int), 0) {
                Parsed::Failed { kind, offset } => Parsed::Failed { kind, offset: a + offset },
                Parsed::Done { value: entry_point, consumed: b } => Parsed::Done {
                    value: FunctionBodyView::Foreign { library: index, entry_point },
                    consumed: a + b,
                },
            }
        },
    }
}

/// What reading the symbol of a definition and what follows it comes to:
/// the index of the signature, the symbol, and the body.
pub open spec fn parsed_definition(size: LengthSize, bytes: Seq<u8>, flags: u8) -> Parsed<
    FunctionDefinitionView,
> {
    match parsed_length(size, bytes, ErrorKind::UnexpectedEnd) {
        Parsed::Failed { kind, offset } => Parsed::Failed { kind, offset },
        Parsed::Done { value: signature, consumed: a } => {
            let bytes1 = bytes.skip(a as int);
            match IdentifierFormat::parsed(size, bytes1, 0) {
                Parsed::Failed { kind, offset } => Parsed::Failed { kind, offset: a + offset },
                Parsed::Done { value: symbol, consumed: b } => {
                    let bytes2 = bytes1.skip(b as int);
                    match parsed_body(size, bytes2, flags >= 2) {
                        Parsed::Failed { kind, offset } => Parsed::Failed {
                            kind,
                            offset: a + b + offset,
                        },
                        Parsed::Done { value: body, consumed: c } => Parsed::Done {
                            value: FunctionDefinitionView {
                                export: if flags == 1 || flags == 3 {
                                    ExportView::Export(symbol)
                                } else {
                                    ExportView::Private(symbol)
                                },
                                signature,
                                body,
                            },
                            consumed: a + b + c,
                        },
                    }
                },
            }
        },
    }
}

proof fn lemma_body_round_trip(size: LengthSize, body: FunctionBodyView, rest: Seq<u8>)
    requires
        match body {
            FunctionBodyView::Definition(block) => size.holds(block as nat),
            FunctionBodyView::Foreign { library, entry_point } => size.holds(library as nat)
                && size.holds(entry_point.len()) && valid_identifier(entry_point),
        },
    ensures
        parsed_body(size, body_bytes(size, body) + rest, body is Foreign) == (Parsed::Done {
            value: body,
            consumed: body_bytes(size, body).len(),
        }),
{
    match body {
        FunctionBodyView::Definition(block) => {
            lemma_length_round_trip(size, block as nat, rest);
        },
        FunctionBodyView::Foreign { library, entry_point } => {
            let a = length_bytes(size, library as nat);
            let b = IdentifierFormat::written(size, entry_point);
            let all = body_bytes(size, body) + rest;
            assert(all =~= a + (b + rest));
            lemma_length_round_trip(size, library as nat, b + rest);
            assert(all.skip(a.len() as int) =~= b + rest);
            IdentifierFormat::round_trip(size, entry_point, 0, rest);
        },
    }
}

/// The form of the definition of a function: the flags byte, the index of
/// the signature, the symbol, and the body.
pub struct FunctionDefinitionFormat;

impl Format for FunctionDefinitionFormat {
    type T = FunctionDefinition;

    type V = FunctionDefinitionView;

    open spec fn model(value: FunctionDefinition) -> FunctionDefinitionView {
        value@
    }

    open spec fn valid(value: FunctionDefinitionView) -> bool {
        &&& value.export.symbol() matches Some(symbol) ==> valid_identifier(symbol)
        &&& value.body matches FunctionBodyView::Foreign { entry_point, .. } ==> valid_identifier(
            entry_point,
        )
    }

    open spec fn fits(size: LengthSize, value: FunctionDefinitionView) -> bool {
        &&& value.export.symbol() matches Some(symbol) && size.holds(symbol.len())
        &&& size.holds(value.signature as nat)
        &&& match value.body {
            FunctionBodyView::Definition(block) => size.holds(block as nat),
            FunctionBodyView::Foreign { library, entry_point } => size.holds(library as nat)
                && size.holds(entry_point.len()),
        }
    }

    open spec fn written(size: LengthSize, value: FunctionDefinitionView) -> Seq<u8> {
        seq![definition_flags(value)] + length_bytes(size, value.signature as nat)
            + IdentifierFormat::written(
            size,
            match value.export.symbol() {
                Some(symbol) => symbol,
                None => Seq::empty(),
            },
        ) + body_bytes(size, value.body)
    }

    open spec fn parsed(size: LengthSize, bytes: Seq<u8>, index: nat) -> Parsed<
        FunctionDefinitionView,
    > {
        if bytes.len() == 0 {
            Parsed::Failed { kind: ErrorKind::UnexpectedEnd, offset: 0 }
        } else if bytes[0] > 3 {
            Parsed::Failed { kind: ErrorKind::InvalidDefinitionFlags(bytes[0]), offset: 0 }
        } else {
            parsed_definition(size, bytes.skip(1), bytes[0]).after(1)
        }
    }

    #[verifier::rlimit(50)]
    proof fn round_trip(size: LengthSize, value: FunctionDefinitionView, index: nat, rest: Seq<u8>) {
        let symbol = value.export.symbol().unwrap();
        let a = length_bytes(size, value.signature as nat);
        let b = IdentifierFormat::written(size, symbol);
        let c = body_bytes(size, value.body);
        let all = Self::written(size, value) + rest;
        assert(all[0] == definition_flags(value));
        let bytes0 = all.skip(1);
        assert(bytes0 =~= a + (b + c + rest));
        lemma_length_round_trip(size, value.signature as nat, b + c + rest);
        let bytes1 = bytes0.skip(a.len() as int);
        assert(bytes1 =~= b + (c + rest));
        IdentifierFormat::round_trip(size, symbol, 0, c + rest);
        let bytes2 = bytes1.skip(b.len() as int);
        assert(bytes2 =~= c + rest);
        lemma_body_round_trip(size, value.body, rest);
    }

    proof fn written_some(size: LengthSize, value: FunctionDefinitionView) {
    }

    fn write(value: &FunctionDefinition, size: LengthSize, out: &mut Vec<u8>) -> (written: bool) {
        let foreign: u8 = match &value.body {
            FunctionBody::Definition(_) => 0,
            FunctionBody::Foreign { .. } => 2,
        };
        let (exported, symbol): (u8, Option<&Identifier>) = match &value.export {
            Export::Private(name) => (0, Some(name)),
            Export::Export(name) => (1, Some(name)),
            Export::Hidden => (0, None),
        };
        let a = match &value.body {
            FunctionBody::Definition(_) => true,
            FunctionBody::Foreign { library, entry_point } => {
                let bytes = entry_point.as_bytes();
                size.fits(bytes.len())
            },
        };
        let symbol = match symbol {
            Some(symbol) => symbol,
            None => {
                return false;
            },
        };
        out.push(exported + foreign);
        let b = write_length(size, value.signature, out);
        let c = IdentifierFormat::write(symbol, size, out);
        let ghost named = out@;
        let d = match &value.body {
            FunctionBody::Definition(block) => write_length(size, *block, out),
            FunctionBody::Foreign { library, entry_point } => {
                let first = write_length(size, *library, out);
                let second = IdentifierFormat::write(entry_point, size, out);
                proof {
                    if first && second {
                        assert(out@ =~= named + body_bytes(size, value@.body));
                    }
                }
                first && second
            },
        };
        proof {
            if b && c && d {
                assert(out@ =~= old(out)@ + Self::written(size, value@));
            }
        }
        a && b && c && d
    }

    fn read(source: &mut Wrapper<'_>, index: usize) -> (value: Result<FunctionDefinition, Error>) {
        let ghost bytes = source.remaining();
        let start = source.offset();
        let flags = match source.read_byte() {
            Some(flags) => flags,
            None => {
                return Err(Error::new(start, ErrorKind::UnexpectedEnd));
            },
        };
        if flags > 3 {
            return Err(Error::new(start, ErrorKind::InvalidDefinitionFlags(flags)));
        }
        let ghost bytes0 = source.remaining();
        let definition = read_definition(source, flags)?;
        proof {
            let consumed = (bytes0.len() - source.remaining().len()) as nat;
            assert(bytes.skip(1).skip(consumed as int) =~= bytes.skip((1 + consumed) as int));
        }
        Ok(definition)
    }
}

fn read_definition(source: &mut Wrapper<'_>, flags: u8) -> (definition: Result<
    FunctionDefinition,
    Error,
>)
    requires
        flags <= 3,
    ensures
        agrees(
            definition,
            |read: FunctionDefinition| read@,
            parsed_definition(old(source).size(), old(source).remaining(), flags),
            *old(source),
            *final(source),
        ),
        definition matches Ok(read) ==> FunctionDefinitionFormat::valid(read@),
{
    let ghost bytes0 = source.remaining();
    let signature = source.read_length(ErrorKind::UnexpectedEnd)?;
    let ghost bytes1 = source.remaining();
    let symbol = IdentifierFormat::read(source, 0)?;
    let ghost bytes2 = source.remaining();
    let body = read_body(source, flags >= 2)?;
    proof {
        let a = (bytes0.len() - bytes1.len()) as nat;
        let b = (bytes1.len() - bytes2.len()) as nat;
        let c = (bytes2.len() - source.remaining().len()) as nat;
        assert(bytes0.skip(a as int).skip(b as int).skip(c as int) =~= bytes0.skip(
            (a + b + c) as int,
        ));
    }
    let export = if flags == 1 || flags == 3 {
        Export::Export(symbol)
    } else {
        Export::Private(symbol)
    };
    Ok(FunctionDefinition { export, signature, body })
}

fn read_body(source: &mut Wrapper<'_>, foreign: bool) -> (body: Result<FunctionBody, Error>)
    ensures
        agrees(
            body,
            |read: FunctionBody| read@,
            parsed_body(old(source).size(), old(source).remaining(), foreign),
            *old(source),
            *final(source),
        ),
        body matches Ok(FunctionBody::Foreign { entry_point, .. }) ==> valid_identifier(
            entry_point@,
        ),
{
    let ghost size = source.size();
    let ghost bytes = source.remaining();
    let index = source.read_length(ErrorKind::UnexpectedEnd)?;
    if !foreign {
        return Ok(FunctionBody::Definition(index));
    }
    let ghost bytes1 = source.remaining();
    let entry_point = IdentifierFormat::read(source, 0)?;
    proof {
        let a = size.width();
        let b = (bytes1.len() - source.remaining().len()) as nat;
        assert(bytes.skip(a as int).skip(b as int) =~= bytes.skip((a + b) as int));
    }
    Ok(FunctionBody::Foreign { library: index, entry_point })
}

} // verus!
