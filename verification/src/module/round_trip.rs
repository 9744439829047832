//! Reading undoes writing: the laws that tie the writer to the parser.

use crate::binary::format::{
    lemma_counted_round_trip, lemma_section_round_trip, written_counted, written_section, Format,
    VersionNumberFormat,
};
use crate::binary::record::{CodeBlockFormat, FunctionDefinitionFormat};
use crate::binary::signature::{FunctionFormat, TypeFormat};
use crate::binary::{length_bytes, lemma_length_round_trip, magic, LengthSize};
use crate::identifier::{valid_identifier, IdentifierFormat};
use crate::module::parser::{
    has_magic, last_sections, other_definitions, parsed_body, parsed_code, parsed_definitions,
    parsed_header, parsed_placeholder, parsed_placeholders, parsed_prologue, parsed_sections,
    parsed_signatures, ErrorKind, Parsed, Section, Sections,
};
use crate::module::writer::{
    contents_valid, header_fits, module_fits, smallest_size, written_body, written_code,
    written_definitions, written_header, written_module, written_placeholders, written_signatures,
};
use crate::binary::format::section_fits;
use crate::module::intern::interned;
use crate::module::parser::{magic_place, Error};
use crate::module::resolve::{countable, expanded, lemma_expanded_interned, refusal, resolvable};
use crate::module::{length_size_of, ModuleIdentifierView, ModuleView};
use crate::validation::ModuleContentsView;
use vstd::prelude::*;

verus! {

/// A header that was written is read back, whatever follows it.
pub proof fn lemma_header_round_trip(
    size: LengthSize,
    identifier: ModuleIdentifierView,
    rest: Seq<u8>,
)
    requires
        valid_identifier(identifier.name),
        header_fits(size, identifier),
    ensures
        ({
            let header = written_header(size, identifier);
            let written = length_bytes(size, header.len()) + header;
            parsed_header(size, written + rest) == (Parsed::Done {
                value: identifier,
                consumed: written.len(),
            })
        }),
{
    reveal(parsed_header);
    reveal(written_header);
    reveal(header_fits);
    let name = IdentifierFormat::written(size, identifier.name);
    let version = written_counted::<VersionNumberFormat>(size, identifier.version);
    let header = written_header(size, identifier);
    let prefix = length_bytes(size, header.len());
    let all = prefix + header + rest;
    IdentifierFormat::written_some(size, identifier.name);
    assert(all =~= prefix + (header + rest));
    lemma_length_round_trip(size, header.len(), header + rest);
    let inner = all.skip(prefix.len() as int).take(header.len() as int);
    assert(inner =~= name + version);
    assert(name + version =~= name + (version + Seq::<u8>::empty()));
    IdentifierFormat::round_trip(size, identifier.name, 0, version + Seq::<u8>::empty());
    assert(inner.skip(name.len() as int) =~= version + Seq::<u8>::empty());
    lemma_counted_round_trip::<VersionNumberFormat>(
        size,
        identifier.version,
        ErrorKind::MissingModuleVersionLength,
        Seq::<u8>::empty(),
    );
}

/// The zero of a section that holds nothing is read back as that section.
pub proof fn lemma_placeholder_round_trip(size: LengthSize, section: Section, rest: Seq<u8>)
    ensures
        parsed_placeholder(size, length_bytes(size, 0) + rest, section) == (Parsed::Done {
            value: (),
            consumed: length_bytes(size, 0).len(),
        }),
{
    reveal(parsed_placeholder);
    lemma_length_round_trip(size, 0, rest);
}

/// The zeros of four sections that hold nothing are read back as these
/// sections.
pub proof fn lemma_placeholders_round_trip(
    size: LengthSize,
    sections: (Section, Section, Section, Section),
    rest: Seq<u8>,
)
    ensures
        parsed_placeholders(size, written_placeholders(size, 4) + rest, sections) == (
        Parsed::Done { value: (), consumed: written_placeholders(size, 4).len() }),
{
    reveal(parsed_placeholders);
    reveal_with_fuel(written_placeholders, 5);
    let zero = length_bytes(size, 0);
    let all = written_placeholders(size, 4) + rest;
    assert(all =~= zero + (zero + zero + zero + rest));
    lemma_placeholder_round_trip(size, sections.0, zero + zero + zero + rest);
    let bytes1 = all.skip(zero.len() as int);
    assert(bytes1 =~= zero + (zero + zero + rest));
    lemma_placeholder_round_trip(size, sections.1, zero + zero + rest);
    let bytes2 = bytes1.skip(zero.len() as int);
    assert(bytes2 =~= zero + (zero + rest));
    lemma_placeholder_round_trip(size, sections.2, zero + rest);
    let bytes3 = bytes2.skip(zero.len() as int);
    assert(bytes3 =~= zero + rest);
    lemma_placeholder_round_trip(size, sections.3, rest);
}

/// The sections of identifiers, of type signatures and of function
/// signatures are read back as they were written.
pub proof fn lemma_signatures_round_trip(
    size: LengthSize,
    contents: ModuleContentsView,
    rest: Seq<u8>,
)
    requires
        contents_valid(contents),
        module_fits(size, contents),
    ensures
        parsed_signatures(size, written_signatures(size, contents) + rest) == (Parsed::Done {
            value: (
                contents.identifiers,
                contents.type_signatures,
                contents.function_signatures,
            ),
            consumed: written_signatures(size, contents).len(),
        }),
{
    reveal(parsed_signatures);
    reveal(written_signatures);
    let a = written_section::<IdentifierFormat>(size, contents.identifiers);
    let b = written_section::<TypeFormat>(size, contents.type_signatures);
    let c = written_section::<FunctionFormat>(size, contents.function_signatures);
    let all = written_signatures(size, contents) + rest;
    assert(all =~= a + (b + c + rest));
    lemma_section_round_trip::<IdentifierFormat>(
        size,
        contents.identifiers,
        Section::Identifiers,
        b + c + rest,
    );
    let bytes1 = all.skip(a.len() as int);
    assert(bytes1 =~= b + (c + rest));
    lemma_section_round_trip::<TypeFormat>(
        size,
        contents.type_signatures,
        Section::TypeSignatures,
        c + rest,
    );
    let bytes2 = bytes1.skip(b.len() as int);
    assert(bytes2 =~= c + rest);
    lemma_section_round_trip::<FunctionFormat>(
        size,
        contents.function_signatures,
        Section::FunctionSignatures,
        rest,
    );
}

/// The section of code blocks, between the empty sections of data and of
/// imports, is read back as it was written.
pub proof fn lemma_code_round_trip(size: LengthSize, contents: ModuleContentsView, rest: Seq<u8>)
    requires
        contents_valid(contents),
        module_fits(size, contents),
    ensures
        parsed_code(size, written_code(size, contents) + rest) == (Parsed::Done {
            value: contents.code_blocks,
            consumed: written_code(size, contents).len(),
        }),
{
    reveal(parsed_code);
    reveal(written_code);
    let zero = length_bytes(size, 0);
    let b = written_section::<CodeBlockFormat>(size, contents.code_blocks);
    let all = written_code(size, contents) + rest;
    assert(all =~= zero + (b + zero + rest));
    lemma_placeholder_round_trip(size, Section::Data, b + zero + rest);
    let bytes1 = all.skip(zero.len() as int);
    assert(bytes1 =~= b + (zero + rest));
    lemma_section_round_trip::<CodeBlockFormat>(
        size,
        contents.code_blocks,
        Section::CodeBlocks,
        zero + rest,
    );
    let bytes2 = bytes1.skip(b.len() as int);
    assert(bytes2 =~= zero + rest);
    lemma_placeholder_round_trip(size, Section::Imports, rest);
}

/// The definitions are read back as they were written.
pub proof fn lemma_definitions_round_trip(
    size: LengthSize,
    contents: ModuleContentsView,
    rest: Seq<u8>,
)
    requires
        contents_valid(contents),
        module_fits(size, contents),
    ensures
        parsed_definitions(size, written_definitions(size, contents) + rest) == (Parsed::Done {
            value: contents.function_definitions,
            consumed: written_definitions(size, contents).len(),
        }),
{
    reveal(parsed_definitions);
    reveal(written_definitions);
    let a = written_counted::<FunctionDefinitionFormat>(size, contents.function_definitions);
    let b = written_placeholders(size, 4);
    let all = written_definitions(size, contents) + rest;
    assert(all =~= a + (b + rest));
    lemma_counted_round_trip::<FunctionDefinitionFormat>(
        size,
        contents.function_definitions,
        ErrorKind::MissingCount(Section::FunctionDefinitions),
        b + rest,
    );
    assert(all.skip(a.len() as int) =~= b + rest);
    lemma_placeholders_round_trip(size, other_definitions(), rest);
}

/// The bytes of all sections of a module.
pub open spec fn written_sections(size: LengthSize, contents: ModuleContentsView) -> Seq<u8> {
    written_signatures(size, contents) + written_code(size, contents) + written_definitions(
        size,
        contents,
    ) + written_placeholders(size, 4)
}

/// All sections of a module are read back as they were written.
pub proof fn lemma_sections_round_trip(
    size: LengthSize,
    contents: ModuleContentsView,
    rest: Seq<u8>,
)
    requires
        contents_valid(contents),
        module_fits(size, contents),
    ensures
        parsed_sections(size, written_sections(size, contents) + rest) == (Parsed::Done {
            value: Sections {
                identifiers: contents.identifiers,
                type_signatures: contents.type_signatures,
                function_signatures: contents.function_signatures,
                code_blocks: contents.code_blocks,
                function_definitions: contents.function_definitions,
            },
            consumed: written_sections(size, contents).len(),
        }),
{
    reveal(parsed_sections);
    let a = written_signatures(size, contents);
    let b = written_code(size, contents);
    let c = written_definitions(size, contents);
    let d = written_placeholders(size, 4);
    let all = written_sections(size, contents) + rest;
    assert(all =~= a + (b + c + d + rest));
    lemma_signatures_round_trip(size, contents, b + c + d + rest);
    let bytes1 = all.skip(a.len() as int);
    assert(bytes1 =~= b + (c + d + rest));
    lemma_code_round_trip(size, contents, c + d + rest);
    let bytes2 = bytes1.skip(b.len() as int);
    assert(bytes2 =~= c + (d + rest));
    lemma_definitions_round_trip(size, contents, d + rest);
    let bytes3 = bytes2.skip(c.len() as int);
    assert(bytes3 =~= d + rest);
    lemma_placeholders_round_trip(size, last_sections(), rest);
}

/// The contents of a module are read back from the bytes that they were
/// written as, whatever follows these bytes: the bytes start with the magic
/// number, and reading what follows it gives the size that the module was
/// written with and the contents that were written.
pub proof fn lemma_contents_round_trip(
    size: LengthSize,
    contents: ModuleContentsView,
    rest: Seq<u8>,
)
    requires
        contents_valid(contents),
        module_fits(size, contents),
        contents.format_version.supported(),
    ensures
        has_magic(written_module(size, contents) + rest),
        parsed_body((written_module(size, contents) + rest).skip(6)) == (Parsed::Done {
            value: (size, contents),
            consumed: written_body(size, contents).len(),
        }),
{
    reveal(parsed_body);
    reveal(parsed_prologue);
    let identifier = contents.module_identifier.unwrap();
    let header = written_header(size, identifier);
    let prologue = seq![
        contents.format_version.major,
        contents.format_version.minor,
        size.tag_value(),
    ];
    let headed = length_bytes(size, header.len()) + header;
    let sections = written_sections(size, contents);
    let whole = written_module(size, contents) + rest;
    assert(whole.take(6) =~= magic());
    let all = whole.skip(6);
    assert(all =~= written_body(size, contents) + rest);
    assert(all =~= prologue + (headed + sections + rest));
    assert(all[0] == contents.format_version.major);
    assert(all[1] == contents.format_version.minor);
    assert(all[2] == size.tag_value());
    let bytes1 = all.skip(3);
    assert(bytes1 =~= headed + (sections + rest));
    lemma_header_round_trip(size, identifier, sections + rest);
    let bytes2 = bytes1.skip(headed.len() as int);
    assert(bytes2 =~= sections + rest);
    lemma_sections_round_trip(size, contents, rest);
    assert(written_body(size, contents).len() == 3 + headed.len() + sections.len());
}

/// No size smaller than the smallest size of a module holds every length
/// and index of the module, and the smallest size holds them all.
pub proof fn lemma_smallest_size(contents: ModuleContentsView, size: LengthSize)
    requires
        smallest_size(contents) == Some(size),
    ensures
        module_fits(size, contents),
        forall|smaller: LengthSize|
            smaller.width() < size.width() ==> !module_fits(smaller, contents),
{
}

} // verus!

verus! {

/// The bytes of a module: its contents, written with lengths of the
/// smallest size that holds every length and index of them. A module with
/// a length or an index that no size holds has no bytes.
pub open spec fn written(module: ModuleView) -> Option<Seq<u8>> {
    match smallest_size(interned(module)) {
        Some(size) => Some(written_module(size, interned(module))),
        None => None,
    }
}

/// The module that bytes stand for: the bytes start with the magic number,
/// what follows it is read as the contents of a module, every index of the
/// contents refers to something, and the contents stand for a module.
pub open spec fn parsed(bytes: Seq<u8>) -> Option<ModuleView> {
    if !has_magic(bytes) {
        None
    } else {
        match parsed_body(bytes.skip(6)) {
            Parsed::Failed { .. } => None,
            Parsed::Done { value, .. } => if value.1.indices_valid() && resolvable(value.1) {
                Some(expanded(value.1))
            } else {
                None
            },
        }
    }
}

/// The size of the lengths of the module that bytes stand for.
pub open spec fn parsed_size(bytes: Seq<u8>) -> LengthSize {
    match parsed_body(bytes.skip(6)) {
        Parsed::Failed { .. } => LengthSize::One,
        Parsed::Done { value, .. } => value.0,
    }
}

/// Whether an error says why bytes stand for no module. Where the bytes
/// do not start with the magic number, the error holds what stands in its
/// place, at offset zero. Where what follows cannot be read as the contents
/// of a module, the error is that of reading it. Else the error stands at
/// the end of the last section: it names the first index that refers to
/// nothing or, where there is none, says why the contents stand for no
/// module.
pub open spec fn explains(bytes: Seq<u8>, error: Error) -> bool {
    if !has_magic(bytes) {
        &&& error.spec_offset() == 0
        &&& error.spec_kind() matches ErrorKind::InvalidMagic(invalid)
        &&& invalid.found() == magic_place(bytes)
    } else {
        match parsed_body(bytes.skip(6)) {
            Parsed::Failed { kind, offset } => error.spec_kind() == kind && error.spec_offset()
                == 6 + offset,
            Parsed::Done { value, consumed } => {
                &&& error.spec_offset() == 6 + consumed
                &&& if !value.1.indices_valid() {
                    error.spec_kind() matches ErrorKind::IndexOutOfBounds { section, index }
                        && value.1.violation() == Some(
                        crate::validation::ErrorKind::IndexOutOfBounds { section, index },
                    )
                } else {
                    !resolvable(value.1) && refusal(value.1) == Some(error.spec_kind())
                }
            },
        }
    }
}

/// Whether a module is one that can be held in memory: its version of the
/// format is read, no two of its definitions have the same symbol, and its
/// names are identifiers.
pub open spec fn well_formed(module: ModuleView) -> bool {
    &&& module.format_version.supported()
    &&& module.symbols_distinct()
    &&& contents_valid(interned(module))
}

/// The tables of contents that fit a size have no more items than
/// positions can be written for.
pub proof fn lemma_fitting_countable(size: LengthSize, contents: ModuleContentsView)
    requires
        module_fits(size, contents),
    ensures
        countable(contents),
{
    reveal(section_fits);
}

/// Reading undoes writing: the bytes of a module stand for that module,
/// whatever follows them. The size of the lengths is kept too: the size
/// that the header of the bytes records is the length size of the module,
/// which is the length size of the module that is read back.
pub proof fn lemma_module_round_trip(module: ModuleView, rest: Seq<u8>)
    requires
        well_formed(module),
        written(module).is_some(),
    ensures
        parsed(written(module).unwrap() + rest) == Some(module),
        Some(parsed_size(written(module).unwrap() + rest)) == smallest_size(interned(module)),
        parsed_size(written(module).unwrap() + rest) == length_size_of(module),
        length_size_of(parsed(written(module).unwrap() + rest).unwrap()) == length_size_of(
            module,
        ),
{
    let contents = interned(module);
    let size = smallest_size(contents).unwrap();
    lemma_fitting_countable(size, contents);
    lemma_expanded_interned(module);
    lemma_contents_round_trip(size, contents, rest);
}

/// A module is written with lengths of the smallest size that holds every
/// length and index that is written: the byte of the size in the header is
/// that of the smallest size, and no smaller size holds them all.
pub proof fn lemma_written_size(module: ModuleView)
    requires
        written(module).is_some(),
    ensures
        ({
            let size = smallest_size(interned(module)).unwrap();
            &&& written(module).unwrap()[8] == size.tag_value()
            &&& module_fits(size, interned(module))
            &&& forall|smaller: LengthSize|
                smaller.width() < size.width() ==> !module_fits(smaller, interned(module))
        }),
{
    let contents = interned(module);
    let size = smallest_size(contents).unwrap();
    let bytes = written_module(size, contents);
    let body = written_body(size, contents);
    assert(bytes[8] == body[2]);
}

} // verus!
