//! Reading modules from bytes.

use crate::binary::format::{
    models, parsed_counted, parsed_section, read_counted, read_section, VersionNumberFormat,
};
use crate::binary::record::{
    CodeBlock, CodeBlockFormat, CodeBlockView, FunctionDefinition, FunctionDefinitionFormat,
    FunctionDefinitionView,
};
use crate::binary::signature::{Function, FunctionFormat, FunctionView, TypeFormat};
use crate::binary::{length_value, magic, read_length, InvalidLengthSize, LengthSize, MAGIC};
use crate::identifier;
use crate::identifier::{same_bytes, Identifier, IdentifierFormat};
use crate::instruction_set::InvalidOpcodeError;
use crate::binary::format::Format;
use crate::module::{FormatVersion, ModuleIdentifier, ModuleIdentifierView};
use crate::type_system::Any;
use crate::validation::{ModuleContents, ModuleContentsView};
use vstd::string::StringExecFns;
use crate::diagnostics::{append_decimal, decimal_text};
use vstd::prelude::*;

verus! {

/// The first bytes of the input are not the magic number.
#[derive(Clone, Debug)]
pub struct InvalidMagicError {
    actual: Vec<u8>,
}

impl InvalidMagicError {
    /// The bytes that stood in the magic number's place.
    pub closed spec fn found(&self) -> Seq<u8> {
        self.actual@
    }

    pub(crate) fn new(actual: Vec<u8>) -> (error: Self)
        ensures
            error.found() == actual@,
    {
        InvalidMagicError { actual }
    }

    /// The bytes that stood in the magic number's place.
    pub fn actual(&self) -> (bytes: &[u8])
        ensures
            bytes@ == self.found(),
    {
        self.actual.as_slice()
    }
}

/// The input ended where a number of the module's version was expected.
#[derive(Clone, Copy, Debug, PartialEq, Eq, Structural)]
pub struct MissingModuleVersionNumberError {
    pub index: usize,
}

/// A byte that names no type.
#[derive(Clone, Copy, Debug, PartialEq, Eq, Structural)]
pub struct InvalidTypeCode {
    pub value: u8,
}

/// The parts of a module file that hold a list of items.
#[derive(Clone, Copy, Debug, PartialEq, Eq, Structural)]
pub enum Section {
    Identifiers,
    TypeSignatures,
    FunctionSignatures,
    Data,
    CodeBlocks,
    Instructions,
    Imports,
    FunctionDefinitions,
    StructDefinitions,
    GlobalDefinitions,
    ExceptionClassDefinitions,
    AnnotationClassDefinitions,
    StructInstantiations,
    FunctionInstantiations,
    Namespaces,
    Debugging,
}

/// What can be wrong with the bytes of a module.
#[derive(Clone, Debug)]
pub enum ErrorKind {
    InvalidMagic(InvalidMagicError),
    /// The input ended before the two bytes of the format version.
    MissingFormatVersion,
    /// The format version is older than the oldest one that is read.
    UnsupportedFormatVersion(FormatVersion),
    /// The input ended before the byte that gives the length size.
    MissingLengthSize,
    InvalidLengthSize(InvalidLengthSize),
    /// A length is greater than the greatest `usize`.
    LengthTooLarge(u32),
    /// The input ended before the size of the module header.
    MissingHeaderSize,
    /// The size of the module header is zero.
    MissingModuleHeader,
    InvalidIdentifier(identifier::ParseError),
    /// The header ended before the count of module version numbers.
    MissingModuleVersionLength,
    MissingModuleVersionNumber(MissingModuleVersionNumberError),
    /// The input ended before the byte size of a section.
    MissingSize(Section),
    /// The input ended before the count of items of a section.
    MissingCount(Section),
    /// The type signatures ended before the signature of the given index.
    MissingTypeSignature { index: usize },
    InvalidTypeSignatureTag(InvalidTypeCode),
    /// A section ended in the middle of one of its items, or the input in
    /// the middle of a section.
    UnexpectedEnd,
    InvalidOpcode(InvalidOpcodeError),
    /// A byte that names no way to treat an overflow.
    InvalidOverflowBehavior(u8),
    /// A byte that names no kind of comparison.
    InvalidComparisonKind(u8),
    /// A byte that names no kind of value.
    InvalidValueFlags(u8),
    /// A flags byte of a definition with bits that mean nothing, or with
    /// bits that contradict each other.
    InvalidDefinitionFlags(u8),
    /// A section that is not read yet holds something.
    UnsupportedSection(Section),
    /// An index is not below the number of items of the section it refers to.
    IndexOutOfBounds { section: Section, index: usize },
    /// The definition of the given position has the symbol of a definition
    /// before it.
    DuplicateSymbol { index: usize },
    /// The definition of the given position has no symbol.
    MissingSymbol { index: usize },
}

/// An error found in the bytes of a module, with the offset of the byte at
/// which it was found.
#[derive(Clone, Debug)]
pub struct Error {
    offset: usize,
    kind: ErrorKind,
}

impl Error {
    pub closed spec fn spec_offset(&self) -> usize {
        self.offset
    }

    pub closed spec fn spec_kind(&self) -> ErrorKind {
        self.kind
    }

    pub(crate) fn new(offset: usize, kind: ErrorKind) -> (error: Error)
        ensures
            error.spec_offset() == offset,
            error.spec_kind() == kind,
    {
        Error { offset, kind }
    }

    /// The offset into the input of the byte at which the error was found.
    #[verifier::when_used_as_spec(spec_offset)]
    pub fn offset(&self) -> (offset: usize)
        ensures
            offset == self.spec_offset(),
    {
        self.offset
    }

    /// What is wrong with the input.
    pub fn kind(&self) -> (kind: &ErrorKind)
        ensures
            *kind == self.spec_kind(),
    {
        &self.kind
    }
}

/// What reading a value from the start of a sequence of bytes comes to: the
/// value and the number of bytes that it took, or what is wrong and where.
pub enum Parsed<V> {
    Done { value: V, consumed: nat },
    Failed { kind: ErrorKind, offset: nat },
}

impl<V> Parsed<V> {
    /// The same outcome for input that started `skipped` bytes earlier.
    pub open spec fn after(self, skipped: nat) -> Parsed<V> {
        match self {
            Parsed::Done { value, consumed } => Parsed::Done {
                value,
                consumed: skipped + consumed,
            },
            Parsed::Failed { kind, offset } => Parsed::Failed { kind, offset: skipped + offset },
        }
    }
}

/// A position in a source of bytes, with the end of the part of the source
/// that is being read and the size of the lengths in it.
#[derive(Debug)]
pub struct Wrapper<'a> {
    source: &'a [u8],
    offset: usize,
    end: usize,
    length_size: LengthSize,
}

impl<'a> Wrapper<'a> {
    #[verifier::type_invariant]
    spec fn well_formed(self) -> bool {
        self.offset <= self.end <= self.source@.len()
    }

    /// All the bytes of the source.
    pub closed spec fn source(&self) -> Seq<u8> {
        self.source@
    }

    /// The offset of the next byte to read.
    pub closed spec fn position(&self) -> usize {
        self.offset
    }

    /// The offset at which the part that is being read ends.
    pub closed spec fn limit(&self) -> usize {
        self.end
    }

    /// The size of the lengths that are read.
    pub closed spec fn size(&self) -> LengthSize {
        self.length_size
    }

    /// The bytes that are still to be read.
    pub open spec fn remaining(&self) -> Seq<u8> {
        self.source().subrange(self.position() as int, self.limit() as int)
    }

    /// The same reader, `consumed` bytes further on.
    pub open spec fn advanced(&self, other: &Wrapper<'a>, consumed: nat) -> bool {
        &&& other.source() == self.source()
        &&& other.limit() == self.limit()
        &&& other.size() == self.size()
        &&& other.position() == self.position() + consumed
    }

    /// A reader at the start of a source, which reads lengths of one byte.
    pub fn new(source: &'a [u8]) -> (reader: Self)
        ensures
            reader.source() == source@,
            reader.position() == 0,
            reader.limit() == source@.len(),
            reader.size() == LengthSize::One,
    {
        Wrapper { source, offset: 0, end: source.len(), length_size: LengthSize::One }
    }

    #[verifier::when_used_as_spec(size)]
    pub fn length_size(&self) -> (size: LengthSize)
        ensures
            size == self.size(),
    {
        self.length_size
    }

    /// The offset of the next byte to read.
    pub fn offset(&self) -> (offset: usize)
        ensures
            offset == self.position(),
    {
        self.offset
    }

    /// The number of bytes that are still to be read.
    pub fn available(&self) -> (count: usize)
        ensures
            count == self.remaining().len(),
            self.position() <= self.limit() <= self.source().len(),
    {
        proof {
            use_type_invariant(self);
        }
        self.end - self.offset
    }

    /// An error of the given kind at the offset of the next byte to read.
    pub fn error(&self, kind: ErrorKind) -> (error: Error)
        ensures
            error.spec_kind() == kind,
            error.spec_offset() == self.position(),
    {
        Error::new(self.offset, kind)
    }

    pub fn set_length_size(&mut self, size: LengthSize)
        ensures
            final(self).size() == size,
            final(self).source() == old(self).source(),
            final(self).position() == old(self).position(),
            final(self).limit() == old(self).limit(),
    {
        proof {
            use_type_invariant(&*self);
        }
        self.length_size = size;
    }

    /// Reads up to `count` bytes: as many as are there.
    pub fn read(&mut self, count: usize) -> (bytes: &'a [u8])
        ensures
            bytes@ == old(self).remaining().take(
                if count <= old(self).remaining().len() {
                    count as int
                } else {
                    old(self).remaining().len() as int
                },
            ),
            old(self).advanced(final(self), bytes@.len()),
            final(self).remaining() == old(self).remaining().skip(bytes@.len() as int),
    {
        proof {
            use_type_invariant(&*self);
        }
        let available = self.end - self.offset;
        let taken = if count <= available {
            count
        } else {
            available
        };
        let start = self.offset;
        let source: &'a [u8] = self.source;
        let bytes = vstd::slice::slice_subrange(source, start, start + taken);
        self.offset = start + taken;
        assert(bytes@ =~= old(self).remaining().take(taken as int));
        assert(self.remaining() =~= old(self).remaining().skip(taken as int));
        bytes
    }

    /// Reads exactly `count` bytes, or fails where fewer are there.
    pub fn read_exact(&mut self, count: usize) -> (bytes: Result<&'a [u8], Error>)
        ensures
            match bytes {
                Ok(read) => {
                    &&& count <= old(self).remaining().len()
                    &&& read@ == old(self).remaining().take(count as int)
                    &&& old(self).advanced(final(self), count as nat)
                    &&& final(self).remaining() == old(self).remaining().skip(count as int)
                },
                Err(error) => {
                    &&& count > old(self).remaining().len()
                    &&& error.spec_kind() == ErrorKind::UnexpectedEnd
                    &&& error.spec_offset() == old(self).position()
                    &&& old(self).advanced(final(self), 0)
                },
            },
    {
        if count > self.available() {
            return Err(self.error(ErrorKind::UnexpectedEnd));
        }
        Ok(self.read(count))
    }

    /// Reads one byte, where there is one.
    pub fn read_byte(&mut self) -> (byte: Option<u8>)
        ensures
            match byte {
                Some(read) => {
                    &&& old(self).remaining().len() > 0
                    &&& read == old(self).remaining()[0]
                    &&& old(self).advanced(final(self), 1)
                    &&& final(self).remaining() == old(self).remaining().skip(1)
                },
                None => old(self).remaining().len() == 0 && old(self).advanced(final(self), 0),
            },
    {
        if self.available() == 0 {
            return None;
        }
        let bytes = self.read(1);
        Some(bytes[0])
    }

    /// Takes the next `length` bytes as a part of their own: the reader
    /// that is returned reads them and nothing else, and this reader goes
    /// on behind them. Fails where fewer bytes are there.
    pub fn parse_buffer(&mut self, length: usize) -> (part: Result<Wrapper<'a>, Error>)
        ensures
            match part {
                Ok(inner) => {
                    &&& length <= old(self).remaining().len()
                    &&& inner.source() == old(self).source()
                    &&& inner.position() == old(self).position()
                    &&& inner.size() == old(self).size()
                    &&& inner.remaining() == old(self).remaining().take(length as int)
                    &&& old(self).advanced(final(self), length as nat)
                    &&& final(self).remaining() == old(self).remaining().skip(length as int)
                },
                Err(error) => {
                    &&& length > old(self).remaining().len()
                    &&& error.spec_kind() == ErrorKind::UnexpectedEnd
                    &&& error.spec_offset() == old(self).position()
                },
            },
    {
        if length > self.available() {
            return Err(self.error(ErrorKind::UnexpectedEnd));
        }
        let inner = Wrapper {
            source: self.source,
            offset: self.offset,
            end: self.offset + length,
            length_size: self.length_size,
        };
        self.offset = self.offset + length;
        proof {
            assert(inner.remaining() =~= old(self).remaining().take(length as int));
            assert(self.remaining() =~= old(self).remaining().skip(length as int));
        }
        Ok(inner)
    }

    /// Reads a length in the reader's size. Where the bytes of a length are
    /// not there, the error is of the kind `missing`, at the offset where
    /// the length should start.
    pub fn read_length(&mut self, missing: ErrorKind) -> (length: Result<usize, Error>)
        ensures
            agrees(
                length,
                |n: usize| n,
                parsed_length(old(self).size(), old(self).remaining(), missing),
                *old(self),
                *final(self),
            ),
    {
        let size = self.length_size;
        self.read_sized(size, missing)
    }

    /// Reads a length of the given size, as [`Wrapper::read_length`] reads
    /// one of the reader's size.
    pub fn read_sized(&mut self, size: LengthSize, missing: ErrorKind) -> (length: Result<
        usize,
        Error,
    >)
        ensures
            agrees(
                length,
                |n: usize| n,
                parsed_length(size, old(self).remaining(), missing),
                *old(self),
                *final(self),
            ),
    {
        let width = size.byte_count() as usize;
        if width > self.available() {
            return Err(self.error(missing));
        }
        let bytes = self.read(width);
        match read_length(size, bytes) {
            Some(length) => {
                proof {
                    let all = old(self).remaining();
                    crate::binary::lemma_length_value_prefix(size, all, bytes@);
                }
                Ok(length)
            },
            None => Err(self.error(missing)),
        }
    }
}

/// Whether what an executable reader returned, and the reader after it, are
/// the outcome `parsed` of reading with the reader `before`, for a value
/// whose model is `model`. After a failure nothing is said of the reader.
pub open spec fn agrees<'a, T, V>(
    result: Result<T, Error>,
    model: spec_fn(T) -> V,
    parsed: Parsed<V>,
    before: Wrapper<'a>,
    after: Wrapper<'a>,
) -> bool {
    match parsed {
        Parsed::Done { value, consumed } => {
            &&& result matches Ok(read)
            &&& model(read) == value
            &&& consumed <= before.remaining().len()
            &&& before.advanced(&after, consumed)
            &&& after.remaining() == before.remaining().skip(consumed as int)
        },
        Parsed::Failed { kind, offset } => {
            &&& result matches Err(error)
            &&& error.spec_kind() == kind
            &&& error.spec_offset() == before.position() + offset
        },
    }
}

/// What reading a length comes to: the error is of the kind `missing` where
/// the bytes end before the length does.
pub open spec fn parsed_length(size: LengthSize, bytes: Seq<u8>, missing: ErrorKind) -> Parsed<
    usize,
> {
    if bytes.len() < size.width() {
        Parsed::Failed { kind: missing, offset: 0 }
    } else {
        Parsed::Done { value: length_value(size, bytes) as usize, consumed: size.width() }
    }
}

} // verus!

verus! {

/// What reading the format version and the byte of the length size comes
/// to. A version older than the oldest that is read is refused.
#[verifier::opaque]
pub open spec fn parsed_prologue(bytes: Seq<u8>) -> Parsed<(FormatVersion, LengthSize)> {
    if bytes.len() < 2 {
        Parsed::Failed { kind: ErrorKind::MissingFormatVersion, offset: 0 }
    } else {
        let version = FormatVersion { major: bytes[0], minor: bytes[1] };
        if !version.supported() {
            Parsed::Failed { kind: ErrorKind::UnsupportedFormatVersion(version), offset: 0 }
        } else if bytes.len() < 3 {
            Parsed::Failed { kind: ErrorKind::MissingLengthSize, offset: 2 }
        } else {
            match LengthSize::of_tag(bytes[2]) {
                None => Parsed::Failed {
                    kind: ErrorKind::InvalidLengthSize(InvalidLengthSize { value: bytes[2] }),
                    offset: 2,
                },
                Some(size) => Parsed::Done { value: (version, size), consumed: 3 },
            }
        }
    }
}

/// What reading a module's header comes to: its byte size, which is not
/// zero, and in as many bytes the name and the version of the module.
#[verifier::opaque]
pub open spec fn parsed_header(size: LengthSize, bytes: Seq<u8>) -> Parsed<ModuleIdentifierView> {
    match parsed_length(size, bytes, ErrorKind::MissingHeaderSize) {
        Parsed::Failed { kind, offset } => Parsed::Failed { kind, offset },
        Parsed::Done { value: byte_size, consumed: a } => if byte_size == 0 {
            Parsed::Failed { kind: ErrorKind::MissingModuleHeader, offset: a }
        } else if bytes.len() - a < byte_size {
            Parsed::Failed { kind: ErrorKind::UnexpectedEnd, offset: a }
        } else {
            let inner = bytes.skip(a as int).take(byte_size as int);
            match IdentifierFormat::parsed(size, inner, 0) {
                Parsed::Failed { kind, offset } => Parsed::Failed { kind, offset: a + offset },
                Parsed::Done { value: name, consumed: b } => match parsed_counted::<
                    VersionNumberFormat,
                >(size, inner.skip(b as int), ErrorKind::MissingModuleVersionLength) {
                    Parsed::Failed { kind, offset } => Parsed::Failed {
                        kind,
                        offset: a + b + offset,
                    },
                    Parsed::Done { value: version, .. } => Parsed::Done {
                        value: ModuleIdentifierView { name, version },
                        consumed: (a + byte_size) as nat,
                    },
                },
            }
        },
    }
}

/// What reading a section that holds nothing yet comes to: its length,
/// which is zero.
#[verifier::opaque]
pub open spec fn parsed_placeholder(size: LengthSize, bytes: Seq<u8>, section: Section) -> Parsed<
    (),
> {
    match parsed_length(size, bytes, ErrorKind::MissingSize(section)) {
        Parsed::Failed { kind, offset } => Parsed::Failed { kind, offset },
        Parsed::Done { value, consumed } => if value != 0 {
            Parsed::Failed { kind: ErrorKind::UnsupportedSection(section), offset: 0 }
        } else {
            Parsed::Done { value: (), consumed }
        },
    }
}

/// What reading four sections that hold nothing yet comes to.
#[verifier::opaque]
pub open spec fn parsed_placeholders(
    size: LengthSize,
    bytes: Seq<u8>,
    sections: (Section, Section, Section, Section),
) -> Parsed<()> {
    match parsed_placeholder(size, bytes, sections.0) {
        Parsed::Failed { kind, offset } => Parsed::Failed { kind, offset },
        Parsed::Done { consumed: a, .. } => {
            let bytes1 = bytes.skip(a as int);
            match parsed_placeholder(size, bytes1, sections.1) {
                Parsed::Failed { kind, offset } => Parsed::Failed { kind, offset: a + offset },
                Parsed::Done { consumed: b, .. } => {
                    let bytes2 = bytes1.skip(b as int);
                    match parsed_placeholder(size, bytes2, sections.2) {
                        Parsed::Failed { kind, offset } => Parsed::Failed {
                            kind,
                            offset: a + b + offset,
                        },
                        Parsed::Done { consumed: c, .. } => {
                            let bytes3 = bytes2.skip(c as int);
                            match parsed_placeholder(size, bytes3, sections.3) {
                                Parsed::Failed { kind, offset } => Parsed::Failed {
                                    kind,
                                    offset: a + b + c + offset,
                                },
                                Parsed::Done { consumed: d, .. } => Parsed::Done {
                                    value: (),
                                    consumed: a + b + c + d,
                                },
                            }
                        },
                    }
                },
            }
        },
    }
}

/// The kinds of definitions of which modules hold none yet.
pub open spec fn other_definitions() -> (Section, Section, Section, Section) {
    (
        Section::StructDefinitions,
        Section::GlobalDefinitions,
        Section::ExceptionClassDefinitions,
        Section::AnnotationClassDefinitions,
    )
}

/// The last sections of a module, which hold nothing yet.
pub open spec fn last_sections() -> (Section, Section, Section, Section) {
    (
        Section::StructInstantiations,
        Section::FunctionInstantiations,
        Section::Namespaces,
        Section::Debugging,
    )
}

/// What reading the sections of identifiers, of type signatures and of
/// function signatures comes to.
#[verifier::opaque]
pub open spec fn parsed_signatures(size: LengthSize, bytes: Seq<u8>) -> Parsed<
    (Seq<Seq<u8>>, Seq<Any>, Seq<FunctionView>),
> {
    match parsed_section::<IdentifierFormat>(size, bytes, Section::Identifiers) {
        Parsed::Failed { kind, offset } => Parsed::Failed { kind, offset },
        Parsed::Done { value: identifiers, consumed: a } => {
            let bytes1 = bytes.skip(a as int);
            match parsed_section::<TypeFormat>(size, bytes1, Section::TypeSignatures) {
                Parsed::Failed { kind, offset } => Parsed::Failed { kind, offset: a + offset },
                Parsed::Done { value: types, consumed: b } => {
                    let bytes2 = bytes1.skip(b as int);
                    match parsed_section::<FunctionFormat>(
                        size,
                        bytes2,
                        Section::FunctionSignatures,
                    ) {
                        Parsed::Failed { kind, offset } => Parsed::Failed {
                            kind,
                            offset: a + b + offset,
                        },
                        Parsed::Done { value: signatures, consumed: c } => Parsed::Done {
                            value: (identifiers, types, signatures),
                            consumed: a + b + c,
                        },
                    }
                },
            }
        },
    }
}

/// What reading the empty section of data, the section of code blocks and
/// the empty section of imports comes to.
#[verifier::opaque]
pub open spec fn parsed_code(size: LengthSize, bytes: Seq<u8>) -> Parsed<Seq<CodeBlockView>> {
    match parsed_placeholder(size, bytes, Section::Data) {
        Parsed::Failed { kind, offset } => Parsed::Failed { kind, offset },
        Parsed::Done { consumed: a, .. } => {
            let bytes1 = bytes.skip(a as int);
            match parsed_section::<CodeBlockFormat>(size, bytes1, Section::CodeBlocks) {
                Parsed::Failed { kind, offset } => Parsed::Failed { kind, offset: a + offset },
                Parsed::Done { value: blocks, consumed: b } => {
                    let bytes2 = bytes1.skip(b as int);
                    match parsed_placeholder(size, bytes2, Section::Imports) {
                        Parsed::Failed { kind, offset } => Parsed::Failed {
                            kind,
                            offset: a + b + offset,
                        },
                        Parsed::Done { consumed: c, .. } => Parsed::Done {
                            value: blocks,
                            consumed: a + b + c,
                        },
                    }
                },
            }
        },
    }
}

/// What reading the definitions comes to: the function definitions with
/// their count, and the four kinds of which there are none yet.
#[verifier::opaque]
pub open spec fn parsed_definitions(size: LengthSize, bytes: Seq<u8>) -> Parsed<
    Seq<FunctionDefinitionView>,
> {
    match parsed_counted::<FunctionDefinitionFormat>(
        size,
        bytes,
        ErrorKind::MissingCount(Section::FunctionDefinitions),
    ) {
        Parsed::Failed { kind, offset } => Parsed::Failed { kind, offset },
        Parsed::Done { value: definitions, consumed: a } => match parsed_placeholders(
            size,
            bytes.skip(a as int),
            other_definitions(),
        ) {
            Parsed::Failed { kind, offset } => Parsed::Failed { kind, offset: a + offset },
            Parsed::Done { consumed: b, .. } => Parsed::Done {
                value: definitions,
                consumed: a + b,
            },
        },
    }
}

/// The sections of a module that hold something.
pub struct Sections {
    pub identifiers: Seq<Seq<u8>>,
    pub type_signatures: Seq<Any>,
    pub function_signatures: Seq<FunctionView>,
    pub code_blocks: Seq<CodeBlockView>,
    pub function_definitions: Seq<FunctionDefinitionView>,
}

/// What reading all sections of a module comes to.
#[verifier::opaque]
pub open spec fn parsed_sections(size: LengthSize, bytes: Seq<u8>) -> Parsed<Sections> {
    match parsed_signatures(size, bytes) {
        Parsed::Failed { kind, offset } => Parsed::Failed { kind, offset },
        Parsed::Done { value: signatures, consumed: a } => {
            let bytes1 = bytes.skip(a as int);
            match parsed_code(size, bytes1) {
                Parsed::Failed { kind, offset } => Parsed::Failed { kind, offset: a + offset },
                Parsed::Done { value: code_blocks, consumed: b } => {
                    let bytes2 = bytes1.skip(b as int);
                    match parsed_definitions(size, bytes2) {
                        Parsed::Failed { kind, offset } => Parsed::Failed {
                            kind,
                            offset: a + b + offset,
                        },
                        Parsed::Done { value: function_definitions, consumed: c } => {
                            let bytes3 = bytes2.skip(c as int);
                            match parsed_placeholders(size, bytes3, last_sections()) {
                                Parsed::Failed { kind, offset } => Parsed::Failed {
                                    kind,
                                    offset: a + b + c + offset,
                                },
                                Parsed::Done { consumed: d, .. } => Parsed::Done {
                                    value: Sections {
                                        identifiers: signatures.0,
                                        type_signatures: signatures.1,
                                        function_signatures: signatures.2,
                                        code_blocks,
                                        function_definitions,
                                    },
                                    consumed: a + b + c + d,
                                },
                            }
                        },
                    }
                },
            }
        },
    }
}

/// What reading a module behind its magic number comes to: the size of
/// its lengths and its contents. Bytes behind the last section are not
/// looked at.
#[verifier::opaque]
pub open spec fn parsed_body(bytes: Seq<u8>) -> Parsed<(LengthSize, ModuleContentsView)> {
    match parsed_prologue(bytes) {
        Parsed::Failed { kind, offset } => Parsed::Failed { kind, offset },
        Parsed::Done { value: (format_version, size), consumed: a } => {
            let bytes1 = bytes.skip(a as int);
            match parsed_header(size, bytes1) {
                Parsed::Failed { kind, offset } => Parsed::Failed { kind, offset: a + offset },
                Parsed::Done { value: identifier, consumed: b } => {
                    let bytes2 = bytes1.skip(b as int);
                    match parsed_sections(size, bytes2) {
                        Parsed::Failed { kind, offset } => Parsed::Failed {
                            kind,
                            offset: a + b + offset,
                        },
                        Parsed::Done { value: sections, consumed: c } => Parsed::Done {
                            value: (
                                size,
                                ModuleContentsView {
                                    format_version,
                                    module_identifier: Some(identifier),
                                    identifiers: sections.identifiers,
                                    type_signatures: sections.type_signatures,
                                    function_signatures: sections.function_signatures,
                                    code_blocks: sections.code_blocks,
                                    function_definitions: sections.function_definitions,
                                },
                            ),
                            consumed: a + b + c,
                        },
                    }
                },
            }
        },
    }
}

/// Whether the first bytes of `bytes` are the magic number.
pub open spec fn has_magic(bytes: Seq<u8>) -> bool {
    bytes.len() >= 6 && bytes.take(6) == magic()
}

/// As many of the first six bytes of `bytes` as there are.
pub open spec fn magic_place(bytes: Seq<u8>) -> Seq<u8> {
    if bytes.len() >= 6 {
        bytes.take(6)
    } else {
        bytes
    }
}

fn read_prologue(source: &mut Wrapper<'_>) -> (prologue: Result<(FormatVersion, LengthSize), Error>)
    ensures
        agrees(
            prologue,
            |read: (FormatVersion, LengthSize)| read,
            parsed_prologue(old(source).remaining()),
            *old(source),
            *final(source),
        ),
{
    reveal(parsed_prologue);
    let start = source.offset();
    if source.available() < 2 {
        return Err(Error::new(start, ErrorKind::MissingFormatVersion));
    }
    let bytes = source.read(2);
    let version = FormatVersion { major: bytes[0], minor: bytes[1] };
    if !version.is_supported() {
        return Err(Error::new(start, ErrorKind::UnsupportedFormatVersion(version)));
    }
    let at = source.offset();
    let tag = match source.read_byte() {
        Some(tag) => tag,
        None => {
            return Err(Error::new(at, ErrorKind::MissingLengthSize));
        },
    };
    match LengthSize::from_tag(tag) {
        Ok(size) => {
            proof {
                assert(old(source).remaining().skip(2).skip(1) =~= old(source).remaining().skip(
                    3,
                ));
            }
            Ok((version, size))
        },
        Err(error) => Err(Error::new(at, ErrorKind::InvalidLengthSize(error))),
    }
}

fn read_header(source: &mut Wrapper<'_>) -> (header: Result<ModuleIdentifier, Error>)
    ensures
        agrees(
            header,
            |read: ModuleIdentifier| read@,
            parsed_header(old(source).size(), old(source).remaining()),
            *old(source),
            *final(source),
        ),
{
    reveal(parsed_header);
    let ghost size = source.size();
    let ghost bytes = source.remaining();
    let byte_size = source.read_length(ErrorKind::MissingHeaderSize)?;
    if byte_size == 0 {
        return Err(source.error(ErrorKind::MissingModuleHeader));
    }
    let mut inner = source.parse_buffer(byte_size)?;
    let name = IdentifierFormat::read(&mut inner, 0)?;
    let version = read_counted::<VersionNumberFormat>(
        &mut inner,
        ErrorKind::MissingModuleVersionLength,
    )?;
    proof {
        assert(models::<VersionNumberFormat>(version@) =~= version@);
        let a = size.width();
        assert(bytes.skip(a as int).skip(byte_size as int) =~= bytes.skip((a + byte_size) as int));
    }
    Ok(ModuleIdentifier::new(name, version))
}

fn read_placeholder(source: &mut Wrapper<'_>, section: Section) -> (read: Result<(), Error>)
    ensures
        agrees(
            read,
            |nothing: ()| nothing,
            parsed_placeholder(old(source).size(), old(source).remaining(), section),
            *old(source),
            *final(source),
        ),
{
    reveal(parsed_placeholder);
    let start = source.offset();
    let length = source.read_length(ErrorKind::MissingSize(section))?;
    if length != 0 {
        return Err(Error::new(start, ErrorKind::UnsupportedSection(section)));
    }
    Ok(())
}

fn read_placeholders(source: &mut Wrapper<'_>, sections: (Section, Section, Section, Section)) -> (read:
    Result<(), Error>)
    ensures
        agrees(
            read,
            |nothing: ()| nothing,
            parsed_placeholders(old(source).size(), old(source).remaining(), sections),
            *old(source),
            *final(source),
        ),
{
    reveal(parsed_placeholders);
    let ghost bytes = source.remaining();
    read_placeholder(source, sections.0)?;
    let ghost bytes1 = source.remaining();
    read_placeholder(source, sections.1)?;
    let ghost bytes2 = source.remaining();
    read_placeholder(source, sections.2)?;
    let ghost bytes3 = source.remaining();
    read_placeholder(source, sections.3)?;
    proof {
        let a = (bytes.len() - bytes1.len()) as nat;
        let b = (bytes1.len() - bytes2.len()) as nat;
        let c = (bytes2.len() - bytes3.len()) as nat;
        let d = (bytes3.len() - source.remaining().len()) as nat;
        assert(bytes.skip(a as int).skip(b as int).skip(c as int).skip(d as int) =~= bytes.skip(
            (a + b + c + d) as int,
        ));
    }
    Ok(())
}

fn read_signatures(source: &mut Wrapper<'_>) -> (read: Result<
    (Vec<Identifier>, Vec<Any>, Vec<Function>),
    Error,
>)
    ensures
        agrees(
            read,
            |lists: (Vec<Identifier>, Vec<Any>, Vec<Function>)|
                (
                    models::<IdentifierFormat>(lists.0@),
                    lists.1@,
                    models::<FunctionFormat>(lists.2@),
                ),
            parsed_signatures(old(source).size(), old(source).remaining()),
            *old(source),
            *final(source),
        ),
{
    reveal(parsed_signatures);
    let ghost bytes = source.remaining();
    let identifiers = read_section::<IdentifierFormat>(source, Section::Identifiers)?;
    let ghost bytes1 = source.remaining();
    let types = read_section::<TypeFormat>(source, Section::TypeSignatures)?;
    let ghost bytes2 = source.remaining();
    let signatures = read_section::<FunctionFormat>(source, Section::FunctionSignatures)?;
    proof {
        assert(models::<TypeFormat>(types@) =~= types@);
        let a = (bytes.len() - bytes1.len()) as nat;
        let b = (bytes1.len() - bytes2.len()) as nat;
        let c = (bytes2.len() - source.remaining().len()) as nat;
        assert(bytes.skip(a as int).skip(b as int).skip(c as int) =~= bytes.skip(
            (a + b + c) as int,
        ));
    }
    Ok((identifiers, types, signatures))
}

fn read_code(source: &mut Wrapper<'_>) -> (read: Result<Vec<CodeBlock>, Error>)
    ensures
        agrees(
            read,
            |blocks: Vec<CodeBlock>| models::<CodeBlockFormat>(blocks@),
            parsed_code(old(source).size(), old(source).remaining()),
            *old(source),
            *final(source),
        ),
{
    reveal(parsed_code);
    let ghost bytes = source.remaining();
    read_placeholder(source, Section::Data)?;
    let ghost bytes1 = source.remaining();
    let blocks = read_section::<CodeBlockFormat>(source, Section::CodeBlocks)?;
    let ghost bytes2 = source.remaining();
    read_placeholder(source, Section::Imports)?;
    proof {
        let a = (bytes.len() - bytes1.len()) as nat;
        let b = (bytes1.len() - bytes2.len()) as nat;
        let c = (bytes2.len() - source.remaining().len()) as nat;
        assert(bytes.skip(a as int).skip(b as int).skip(c as int) =~= bytes.skip(
            (a + b + c) as int,
        ));
    }
    Ok(blocks)
}

fn read_definitions(source: &mut Wrapper<'_>) -> (read: Result<Vec<FunctionDefinition>, Error>)
    ensures
        agrees(
            read,
            |definitions: Vec<FunctionDefinition>|
                models::<FunctionDefinitionFormat>(definitions@),
            parsed_definitions(old(source).size(), old(source).remaining()),
            *old(source),
            *final(source),
        ),
{
    reveal(parsed_definitions);
    let ghost bytes = source.remaining();
    let definitions = read_counted::<FunctionDefinitionFormat>(
        source,
        ErrorKind::MissingCount(Section::FunctionDefinitions),
    )?;
    let ghost bytes1 = source.remaining();
    read_placeholders(
        source,
        (
            Section::StructDefinitions,
            Section::GlobalDefinitions,
            Section::ExceptionClassDefinitions,
            Section::AnnotationClassDefinitions,
        ),
    )?;
    proof {
        let a = (bytes.len() - bytes1.len()) as nat;
        let b = (bytes1.len() - source.remaining().len()) as nat;
        assert(bytes.skip(a as int).skip(b as int) =~= bytes.skip((a + b) as int));
    }
    Ok(definitions)
}

/// The lists of the sections of a module that hold something.
struct Lists {
    identifiers: Vec<Identifier>,
    type_signatures: Vec<Any>,
    function_signatures: Vec<Function>,
    code_blocks: Vec<CodeBlock>,
    function_definitions: Vec<FunctionDefinition>,
}

impl View for Lists {
    type V = Sections;

    closed spec fn view(&self) -> Sections {
        Sections {
            identifiers: models::<IdentifierFormat>(self.identifiers@),
            type_signatures: self.type_signatures@,
            function_signatures: models::<FunctionFormat>(self.function_signatures@),
            code_blocks: models::<CodeBlockFormat>(self.code_blocks@),
            function_definitions: models::<FunctionDefinitionFormat>(self.function_definitions@),
        }
    }
}

fn read_sections(source: &mut Wrapper<'_>) -> (read: Result<Lists, Error>)
    ensures
        agrees(
            read,
            |lists: Lists| lists@,
            parsed_sections(old(source).size(), old(source).remaining()),
            *old(source),
            *final(source),
        ),
{
    reveal(parsed_sections);
    let ghost bytes2 = source.remaining();
    let (identifiers, type_signatures, function_signatures) = read_signatures(source)?;
    let ghost bytes3 = source.remaining();
    let code_blocks = read_code(source)?;
    let ghost bytes4 = source.remaining();
    let function_definitions = read_definitions(source)?;
    let ghost bytes5 = source.remaining();
    read_placeholders(
        source,
        (
            Section::StructInstantiations,
            Section::FunctionInstantiations,
            Section::Namespaces,
            Section::Debugging,
        ),
    )?;
    proof {
        let c1 = (bytes2.len() - bytes3.len()) as nat;
        let c2 = (bytes3.len() - bytes4.len()) as nat;
        let c3 = (bytes4.len() - bytes5.len()) as nat;
        let c4 = (bytes5.len() - source.remaining().len()) as nat;
        assert(bytes2.skip(c1 as int).skip(c2 as int).skip(c3 as int).skip(c4 as int)
            =~= bytes2.skip((c1 + c2 + c3 + c4) as int));
    }
    Ok(Lists { identifiers, type_signatures, function_signatures, code_blocks, function_definitions })
}

/// Reads a module behind its magic number.
fn read_body(source: &mut Wrapper<'_>) -> (read: Result<(LengthSize, ModuleContents), Error>)
    ensures
        match parsed_body(old(source).remaining()) {
            Parsed::Done { value, consumed } => {
                &&& read matches Ok(module)
                &&& module.0 == value.0
                &&& module.1@ == value.1
                &&& final(source).position() == old(source).position() + consumed
            },
            Parsed::Failed { kind, offset } => {
                &&& read matches Err(error)
                &&& error.spec_kind() == kind
                &&& error.spec_offset() == old(source).position() + offset
            },
        },
{
    reveal(parsed_body);
    let ghost bytes = source.remaining();
    let (format_version, size) = read_prologue(source)?;
    source.set_length_size(size);
    let ghost bytes1 = source.remaining();
    let identifier = read_header(source)?;
    let ghost bytes2 = source.remaining();
    let lists = read_sections(source)?;
    let contents = ModuleContents {
        format_version,
        module_identifier: Some(identifier),
        identifiers: lists.identifiers,
        type_signatures: lists.type_signatures,
        function_signatures: lists.function_signatures,
        code_blocks: lists.code_blocks,
        function_definitions: lists.function_definitions,
    };
    proof {
        let a = (bytes.len() - bytes1.len()) as nat;
        let b = (bytes1.len() - bytes2.len()) as nat;
        let c = (bytes2.len() - source.remaining().len()) as nat;
        assert(bytes.skip(a as int).skip(b as int).skip(c as int) =~= bytes.skip(
            (a + b + c) as int,
        ));
        assert(contents@.identifiers =~= lists@.identifiers);
        assert(contents@.function_signatures =~= lists@.function_signatures);
        assert(contents@.code_blocks =~= lists@.code_blocks);
        assert(contents@.function_definitions =~= lists@.function_definitions);
    }
    Ok((size, contents))
}

/// Reads the contents of a module from its bytes, and tells where the
/// last section ends. Where the bytes do not start with the magic number,
/// the error holds the bytes that stand in its place; else the outcome is
/// that of reading what follows the magic number, six bytes further on.
pub fn read_contents(bytes: &[u8]) -> (read: Result<(LengthSize, ModuleContents, usize), Error>)
    ensures
        !has_magic(bytes@) ==> {
            &&& read matches Err(error)
            &&& error.spec_offset() == 0
            &&& error.spec_kind() matches ErrorKind::InvalidMagic(invalid)
            &&& invalid.found() == magic_place(bytes@)
        },
        has_magic(bytes@) ==> match parsed_body(bytes@.skip(6)) {
            Parsed::Done { value, consumed } => {
                &&& read matches Ok(module)
                &&& module.0 == value.0
                &&& module.1@ == value.1
                &&& module.2 == 6 + consumed
            },
            Parsed::Failed { kind, offset } => {
                &&& read matches Err(error)
                &&& error.spec_kind() == kind
                &&& error.spec_offset() == 6 + offset
            },
        },
{
    let mut source = Wrapper::new(bytes);
    let start = source.read(6);
    proof {
        assert(source.remaining() =~= bytes@.skip(start@.len() as int));
        assert(bytes@.subrange(0, bytes@.len() as int) =~= bytes@);
    }
    if !same_bytes(start, MAGIC.as_slice()) {
        proof {
            assert(MAGIC@ =~= magic());
            assert(start@ =~= magic_place(bytes@));
        }
        return Err(
            Error::new(
                0,
                ErrorKind::InvalidMagic(InvalidMagicError::new(vstd::slice::slice_to_vec(start))),
            ),
        );
    }
    proof {
        assert(MAGIC@ =~= magic());
        assert(start@ =~= bytes@.take(6));
    }
    let (size, contents) = read_body(&mut source)?;
    Ok((size, contents, source.offset()))
}

impl Section {
    /// The name of the section.
    pub open spec fn text(self) -> Seq<char> {
        match self {
            Section::Identifiers => "identifiers"@,
            Section::TypeSignatures => "type signatures"@,
            Section::FunctionSignatures => "function signatures"@,
            Section::Data => "data"@,
            Section::CodeBlocks => "code blocks"@,
            Section::Instructions => "instructions"@,
            Section::Imports => "imports"@,
            Section::FunctionDefinitions => "function definitions"@,
            Section::StructDefinitions => "struct definitions"@,
            Section::GlobalDefinitions => "global definitions"@,
            Section::ExceptionClassDefinitions => "exception class definitions"@,
            Section::AnnotationClassDefinitions => "annotation class definitions"@,
            Section::StructInstantiations => "struct instantiations"@,
            Section::FunctionInstantiations => "function instantiations"@,
            Section::Namespaces => "namespaces"@,
            Section::Debugging => "debugging information"@,
        }
    }

    /// The name of the section.
    pub fn name(&self) -> (message: String)
        ensures
            message@ == self.text(),
    {
        match self {
            Section::Identifiers => {
                let mut message = String::from_str("identifiers");
                message
            },
            Section::TypeSignatures => {
                let mut message = String::from_str("type signatures");
                message
            },
            Section::FunctionSignatures => {
                let mut message = String::from_str("function signatures");
                message
            },
            Section::Data => {
                let mut message = String::from_str("data");
                message
            },
            Section::CodeBlocks => {
                let mut message = String::from_str("code blocks");
                message
            },
            Section::Instructions => {
                let mut message = String::from_str("instructions");
                message
            },
            Section::Imports => {
                let mut message = String::from_str("imports");
                message
            },
            Section::FunctionDefinitions => {
                let mut message = String::from_str("function definitions");
                message
            },
            Section::StructDefinitions => {
                let mut message = String::from_str("struct definitions");
                message
            },
            Section::GlobalDefinitions => {
                let mut message = String::from_str("global definitions");
                message
            },
            Section::ExceptionClassDefinitions => {
                let mut message = String::from_str("exception class definitions");
                message
            },
            Section::AnnotationClassDefinitions => {
                let mut message = String::from_str("annotation class definitions");
                message
            },
            Section::StructInstantiations => {
                let mut message = String::from_str("struct instantiations");
                message
            },
            Section::FunctionInstantiations => {
                let mut message = String::from_str("function instantiations");
                message
            },
            Section::Namespaces => {
                let mut message = String::from_str("namespaces");
                message
            },
            Section::Debugging => {
                let mut message = String::from_str("debugging information");
                message
            },
        }
    }
}

impl ErrorKind {
    /// The line of text that the error is shown as.
    pub open spec fn text(self) -> Seq<char> {
        match self {
            ErrorKind::InvalidMagic(invalid) => "expected magic 83 65 73 76 65 82, but got"@
                + crate::diagnostics::bytes_text(invalid.found()),
            ErrorKind::MissingFormatVersion => "expected format version but got EOF"@,
            ErrorKind::UnsupportedFormatVersion(version) => "the format version "@
                + decimal_text(version.major as nat)
                + "."@
                + decimal_text(version.minor as nat)
                + " is not supported"@,
            ErrorKind::MissingLengthSize => "expected length size value but got EOF"@,
            ErrorKind::InvalidLengthSize(invalid) => "the length size value "@
                + decimal_text(invalid.value as nat)
                + " is not valid"@,
            ErrorKind::LengthTooLarge(length) => "the length value "@
                + decimal_text(length as nat)
                + " is too large and cannot be used"@,
            ErrorKind::MissingHeaderSize => "expected size of module header but got EOF"@,
            ErrorKind::MissingModuleHeader => "the module header size cannot be empty"@,
            ErrorKind::InvalidIdentifier(error) => "invalid identifier, "@ + error.text(),
            ErrorKind::MissingModuleVersionLength =>
                "expected module version length but reached end"@,
            ErrorKind::MissingModuleVersionNumber(missing) => "expected module version number #"@
                + decimal_text(missing.index as nat)
                + " but got EOF"@,
            ErrorKind::MissingSize(section) => "expected byte size of "@
                + section.text()
                + " but got EOF"@,
            ErrorKind::MissingCount(section) => "expected count of "@
                + section.text()
                + " but got EOF"@,
            ErrorKind::MissingTypeSignature { index } => "expected type signature #"@
                + decimal_text(index as nat)
                + " but reached end"@,
            ErrorKind::InvalidTypeSignatureTag(invalid) => "the type signature tag "@
                + decimal_text(invalid.value as nat)
                + " is not valid"@,
            ErrorKind::UnexpectedEnd => "unexpected end"@,
            ErrorKind::InvalidOpcode(invalid) => "the opcode "@
                + decimal_text(invalid.value as nat)
                + " is not valid"@,
            ErrorKind::InvalidOverflowBehavior(value) => "the overflow behavior "@
                + decimal_text(value as nat)
                + " is not valid"@,
            ErrorKind::InvalidComparisonKind(value) => "the comparison kind "@
                + decimal_text(value as nat)
                + " is not valid"@,
            ErrorKind::InvalidValueFlags(value) => "the value flags "@
                + decimal_text(value as nat)
                + " are not valid"@,
            ErrorKind::InvalidDefinitionFlags(value) => "the definition flags "@
                + decimal_text(value as nat)
                + " are not valid"@,
            ErrorKind::UnsupportedSection(section) => "the section of "@
                + section.text()
                + " is not supported"@,
            ErrorKind::IndexOutOfBounds { section, index } => "the index "@
                + decimal_text(index as nat)
                + " is out of the bounds of the "@
                + section.text(),
            ErrorKind::DuplicateSymbol { index } => "the symbol of the definition #"@
                + decimal_text(index as nat)
                + " already exists"@,
            ErrorKind::MissingSymbol { index } => "the definition #"@
                + decimal_text(index as nat)
                + " has no symbol"@,
        }
    }

    /// The error as one line of text.
    pub fn message(&self) -> (message: String)
        ensures
            message@ == self.text(),
    {
        match self {
            ErrorKind::InvalidMagic(invalid) => {
                let mut message = String::from_str("expected magic 83 65 73 76 65 82, but got");
                message.append(crate::diagnostics::bytes_number_text(invalid.actual()).as_str());
                message
            },
            ErrorKind::MissingFormatVersion => {
                let mut message = String::from_str("expected format version but got EOF");
                message
            },
            ErrorKind::UnsupportedFormatVersion(version) => {
                let mut message = String::from_str("the format version ");
                append_decimal(&mut message, version.major as usize);
                message.append(".");
                append_decimal(&mut message, version.minor as usize);
                message.append(" is not supported");
                message
            },
            ErrorKind::MissingLengthSize => {
                let mut message = String::from_str("expected length size value but got EOF");
                message
            },
            ErrorKind::InvalidLengthSize(invalid) => {
                let mut message = String::from_str("the length size value ");
                append_decimal(&mut message, invalid.value as usize);
                message.append(" is not valid");
                message
            },
            ErrorKind::LengthTooLarge(length) => {
                let mut message = String::from_str("the length value ");
                append_decimal(&mut message, *length as usize);
                message.append(" is too large and cannot be used");
                message
            },
            ErrorKind::MissingHeaderSize => {
                let mut message = String::from_str("expected size of module header but got EOF");
                message
            },
            ErrorKind::MissingModuleHeader => {
                let mut message = String::from_str("the module header size cannot be empty");
                message
            },
            ErrorKind::InvalidIdentifier(error) => {
                let mut message = String::from_str("invalid identifier, ");
                message.append(error.message().as_str());
                message
            },
            ErrorKind::MissingModuleVersionLength => {
                let mut message = String::from_str("expected module version length but reached end");
                message
            },
            ErrorKind::MissingModuleVersionNumber(missing) => {
                let mut message = String::from_str("expected module version number #");
                append_decimal(&mut message, missing.index);
                message.append(" but got EOF");
                message
            },
            ErrorKind::MissingSize(section) => {
                let mut message = String::from_str("expected byte size of ");
                message.append(section.name().as_str());
                message.append(" but got EOF");
                message
            },
            ErrorKind::MissingCount(section) => {
                let mut message = String::from_str("expected count of ");
                message.append(section.name().as_str());
                message.append(" but got EOF");
                message
            },
            ErrorKind::MissingTypeSignature { index } => {
                let mut message = String::from_str("expected type signature #");
                append_decimal(&mut message, *index);
                message.append(" but reached end");
                message
            },
            ErrorKind::InvalidTypeSignatureTag(invalid) => {
                let mut message = String::from_str("the type signature tag ");
                append_decimal(&mut message, invalid.value as usize);
                message.append(" is not valid");
                message
            },
            ErrorKind::UnexpectedEnd => {
                let mut message = String::from_str("unexpected end");
                message
            },
            ErrorKind::InvalidOpcode(invalid) => {
                let mut message = String::from_str("the opcode ");
                append_decimal(&mut message, invalid.value as usize);
                message.append(" is not valid");
                message
            },
            ErrorKind::InvalidOverflowBehavior(value) => {
                let mut message = String::from_str("the overflow behavior ");
                append_decimal(&mut message, *value as usize);
                message.append(" is not valid");
                message
            },
            ErrorKind::InvalidComparisonKind(value) => {
                let mut message = String::from_str("the comparison kind ");
                append_decimal(&mut message, *value as usize);
                message.append(" is not valid");
                message
            },
            ErrorKind::InvalidValueFlags(value) => {
                let mut message = String::from_str("the value flags ");
                append_decimal(&mut message, *value as usize);
                message.append(" are not valid");
                message
            },
            ErrorKind::InvalidDefinitionFlags(value) => {
                let mut message = String::from_str("the definition flags ");
                append_decimal(&mut message, *value as usize);
                message.append(" are not valid");
                message
            },
            ErrorKind::UnsupportedSection(section) => {
                let mut message = String::from_str("the section of ");
                message.append(section.name().as_str());
                message.append(" is not supported");
                message
            },
            ErrorKind::IndexOutOfBounds { section, index } => {
                let mut message = String::from_str("the index ");
                append_decimal(&mut message, *index);
                message.append(" is out of the bounds of the ");
                message.append(section.name().as_str());
                message
            },
            ErrorKind::DuplicateSymbol { index } => {
                let mut message = String::from_str("the symbol of the definition #");
                append_decimal(&mut message, *index);
                message.append(" already exists");
                message
            },
            ErrorKind::MissingSymbol { index } => {
                let mut message = String::from_str("the definition #");
                append_decimal(&mut message, *index);
                message.append(" has no symbol");
                message
            },
        }
    }
}

impl Error {
    /// The line of text that the error is shown as: the offset, then what
    /// is wrong.
    pub open spec fn text(&self) -> Seq<char> {
        "error at offset "@ + decimal_text(self.spec_offset() as nat) + ", "@
            + self.spec_kind().text()
    }

    /// The error as one line of text.
    pub fn message(&self) -> (message: String)
        ensures
            message@ == self.text(),
    {
        let mut message = String::from_str("error at offset ");
        append_decimal(&mut message, self.offset);
        message.append(", ");
        message.append(self.kind.message().as_str());
        message
    }
}

} // verus!
