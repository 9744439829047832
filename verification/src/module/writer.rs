//! Writing modules as bytes.

use crate::binary::buffer::Pool;
use crate::binary::format::{
    all_valid, append_bytes, counted_fit, models, section_fits, write_counted, write_many,
    write_section, written_counted, written_many, written_section, Format, VersionNumberFormat,
};
use crate::binary::record::{CodeBlockFormat, FunctionDefinitionFormat};
use crate::binary::signature::{FunctionFormat, TypeFormat};
use crate::binary::{length_bytes, magic, write_length, LengthSize, MAGIC};
use crate::identifier::{valid_identifier, Id, IdentifierFormat};
use crate::module::{ModuleIdentifier, ModuleIdentifierView};
use crate::validation::{ModuleContents, ModuleContentsView};
use vstd::prelude::*;

verus! {

/// Bytes that are being written, with the size of the lengths among them.
#[derive(Debug)]
pub struct Wrapper {
    destination: Vec<u8>,
    length_size: LengthSize,
}

impl View for Wrapper {
    type V = Seq<u8>;

    closed spec fn view(&self) -> Seq<u8> {
        self.destination@
    }
}

impl Wrapper {
    /// The size of the lengths that are written.
    pub closed spec fn size(&self) -> LengthSize {
        self.length_size
    }

    /// A writer that appends to `destination`.
    pub fn new(destination: Vec<u8>, length_size: LengthSize) -> (writer: Self)
        ensures
            writer@ == destination@,
            writer.size() == length_size,
    {
        Wrapper { destination, length_size }
    }

    /// The bytes written.
    pub fn into_bytes(self) -> (bytes: Vec<u8>)
        ensures
            bytes@ == self@,
    {
        self.destination
    }

    /// Writes a length, unless the size does not hold it.
    pub fn write_length(&mut self, length: usize) -> (written: bool)
        ensures
            final(self).size() == old(self).size(),
            written == old(self).size().holds(length as nat),
            written ==> final(self)@ == old(self)@ + length_bytes(
                old(self).size(),
                length as nat,
            ),
            !written ==> final(self)@ == old(self)@,
    {
        write_length(self.length_size, length, &mut self.destination)
    }

    /// Writes the length of an identifier and its bytes, unless the size
    /// does not hold the length.
    pub fn write_identifier(&mut self, identifier: &Id) -> (written: bool)
        ensures
            final(self).size() == old(self).size(),
            written == old(self).size().holds(identifier@.len()),
            written ==> final(self)@ == old(self)@ + IdentifierFormat::written(
                old(self).size(),
                identifier@,
            ),
    {
        IdentifierFormat::write(identifier, self.length_size, &mut self.destination)
    }

    /// Writes the values of a list one after the other, unless a length
    /// does not fit.
    pub fn write_many<F: Format>(&mut self, values: &Vec<F::T>) -> (written: bool)
        ensures
            final(self).size() == old(self).size(),
            written == crate::binary::format::all_fit::<F>(
                old(self).size(),
                models::<F>(values@),
            ),
            written ==> final(self)@ == old(self)@ + written_many::<F>(
                old(self).size(),
                models::<F>(values@),
            ),
    {
        write_many::<F>(values, self.length_size, &mut self.destination)
    }

    /// Writes the byte size of a buffer, the count of the items in it and
    /// the buffer, or only a zero where the count is zero.
    pub fn write_buffer_and_count(&mut self, count: usize, buffer: &[u8]) -> (written: bool)
        ensures
            final(self).size() == old(self).size(),
            written == (count == 0 || (old(self).size().holds(buffer@.len() as nat) && old(
                self,
            ).size().holds(count as nat))),
            written ==> final(self)@ == old(self)@ + (if count == 0 {
                length_bytes(old(self).size(), 0)
            } else {
                length_bytes(old(self).size(), buffer@.len() as nat) + length_bytes(
                    old(self).size(),
                    count as nat,
                ) + buffer@
            }),
    {
        let size = self.length_size;
        if count == 0 {
            return write_length(size, 0, &mut self.destination);
        }
        if !size.fits(buffer.len()) || !size.fits(count) {
            return false;
        }
        let _ = write_length(size, buffer.len(), &mut self.destination);
        let _ = write_length(size, count, &mut self.destination);
        append_bytes(&mut self.destination, buffer);
        proof {
            assert(self@ =~= old(self)@ + (length_bytes(size, buffer@.len() as nat)
                + length_bytes(size, count as nat) + buffer@));
        }
        true
    }
}

/// The bytes of a module's header: the name of the module, the count of
/// the numbers of its version, and the numbers.
#[verifier::opaque]
pub open spec fn written_header(size: LengthSize, identifier: ModuleIdentifierView) -> Seq<u8> {
    IdentifierFormat::written(size, identifier.name) + written_counted::<VersionNumberFormat>(
        size,
        identifier.version,
    )
}

/// Whether a module's header fits the size: the length of the name, the
/// numbers of the version and their count, and the byte size of it all.
#[verifier::opaque]
pub open spec fn header_fits(size: LengthSize, identifier: ModuleIdentifierView) -> bool {
    &&& size.holds(identifier.name.len())
    &&& counted_fit::<VersionNumberFormat>(size, identifier.version)
    &&& size.holds(written_header(size, identifier).len())
}

/// The bytes of the sections that hold nothing yet: a zero for each.
pub open spec fn written_placeholders(size: LengthSize, count: nat) -> Seq<u8>
    decreases count,
{
    if count == 0 {
        Seq::empty()
    } else {
        length_bytes(size, 0) + written_placeholders(size, (count - 1) as nat)
    }
}

/// The bytes of the sections of identifiers, of type signatures and of
/// function signatures.
#[verifier::opaque]
pub open spec fn written_signatures(size: LengthSize, contents: ModuleContentsView) -> Seq<u8> {
    written_section::<IdentifierFormat>(size, contents.identifiers) + written_section::<
        TypeFormat,
    >(size, contents.type_signatures) + written_section::<FunctionFormat>(
        size,
        contents.function_signatures,
    )
}

/// The bytes of the empty section of data, of the section of code blocks
/// and of the empty section of imports.
#[verifier::opaque]
pub open spec fn written_code(size: LengthSize, contents: ModuleContentsView) -> Seq<u8> {
    length_bytes(size, 0) + written_section::<CodeBlockFormat>(size, contents.code_blocks)
        + length_bytes(size, 0)
}

/// The bytes of the definitions: the function definitions with their
/// count, and four kinds of definitions of which there are none yet.
#[verifier::opaque]
pub open spec fn written_definitions(size: LengthSize, contents: ModuleContentsView) -> Seq<u8> {
    written_counted::<FunctionDefinitionFormat>(size, contents.function_definitions)
        + written_placeholders(size, 4)
}

/// The bytes of a module behind its magic number: the format version, the
/// byte of the length size, the header with its byte size, and the
/// sections in their order.
pub open spec fn written_body(size: LengthSize, contents: ModuleContentsView) -> Seq<u8> {
    let header = written_header(size, contents.module_identifier.unwrap());
    seq![contents.format_version.major, contents.format_version.minor, size.tag_value()]
        + length_bytes(size, header.len()) + header + written_signatures(size, contents)
        + written_code(size, contents) + written_definitions(size, contents)
        + written_placeholders(size, 4)
}

/// The bytes of a module written with lengths of the given size.
pub open spec fn written_module(size: LengthSize, contents: ModuleContentsView) -> Seq<u8> {
    magic() + written_body(size, contents)
}

/// Whether the contents of a module can be written with lengths of the
/// given size: the module has a name, and every length and index fits.
pub open spec fn module_fits(size: LengthSize, contents: ModuleContentsView) -> bool {
    &&& contents.module_identifier matches Some(identifier) && header_fits(size, identifier)
    &&& section_fits::<IdentifierFormat>(size, contents.identifiers)
    &&& section_fits::<TypeFormat>(size, contents.type_signatures)
    &&& section_fits::<FunctionFormat>(size, contents.function_signatures)
    &&& section_fits::<CodeBlockFormat>(size, contents.code_blocks)
    &&& counted_fit::<FunctionDefinitionFormat>(size, contents.function_definitions)
}

/// What holds of the contents of every module that is held in memory: its
/// names are identifiers.
pub open spec fn contents_valid(contents: ModuleContentsView) -> bool {
    &&& contents.module_identifier matches Some(identifier) ==> valid_identifier(identifier.name)
    &&& all_valid::<IdentifierFormat>(contents.identifiers)
    &&& all_valid::<CodeBlockFormat>(contents.code_blocks)
    &&& all_valid::<FunctionDefinitionFormat>(contents.function_definitions)
}

/// The smallest size with which the contents of a module can be written,
/// if there is one.
pub open spec fn smallest_size(contents: ModuleContentsView) -> Option<LengthSize> {
    if module_fits(LengthSize::One, contents) {
        Some(LengthSize::One)
    } else if module_fits(LengthSize::Two, contents) {
        Some(LengthSize::Two)
    } else if module_fits(LengthSize::Four, contents) {
        Some(LengthSize::Four)
    } else {
        None
    }
}

/// Appends as many zero lengths as there are sections that hold nothing.
fn write_placeholders(size: LengthSize, count: usize, out: &mut Vec<u8>)
    ensures
        final(out)@ == old(out)@ + written_placeholders(size, count as nat),
{
    let mut index: usize = 0;
    proof {
        assert(out@ =~= old(out)@ + written_placeholders(size, 0));
    }
    while index < count
        invariant
            index <= count,
            old(out)@ + written_placeholders(size, count as nat) == out@ + written_placeholders(
                size,
                (count - index) as nat,
            ),
        decreases count - index,
    {
        let ghost before = out@;
        let _ = write_length(size, 0, out);
        proof {
            assert(before + written_placeholders(size, (count - index) as nat) =~= out@
                + written_placeholders(size, (count - index - 1) as nat));
        }
        index += 1;
    }
    proof {
        assert(out@ + written_placeholders(size, 0) =~= out@);
    }
}

/// Appends a module's header, with its byte size before it.
fn write_header(identifier: &ModuleIdentifier, size: LengthSize, out: &mut Vec<u8>, pool: &Pool)
    -> (written: bool)
    ensures
        valid_identifier(identifier@.name),
        written == header_fits(size, identifier@),
        written ==> final(out)@ == old(out)@ + length_bytes(
            size,
            written_header(size, identifier@).len(),
        ) + written_header(size, identifier@),
{
    reveal(written_header);
    reveal(header_fits);
    let mut header = pool.rent_with_capacity(32);
    let named = IdentifierFormat::write(identifier.name(), size, header.as_vec_mut());
    let version = vstd::slice::slice_to_vec(identifier.version());
    let versioned = write_counted::<VersionNumberFormat>(&version, size, header.as_vec_mut());
    proof {
        assert(models::<VersionNumberFormat>(version@) =~= identifier@.version);
        if named && versioned {
            assert(header@ =~= written_header(size, identifier@));
        }
    }
    if !named || !versioned {
        return false;
    }
    if !write_length(size, header.as_vec().len(), out) {
        return false;
    }
    append_bytes(out, header.as_vec().as_slice());
    true
}

/// Appends the sections of identifiers, of type signatures and of function
/// signatures.
fn write_signatures(contents: &ModuleContents, size: LengthSize, out: &mut Vec<u8>, pool: &Pool)
    -> (written: bool)
    ensures
        all_valid::<IdentifierFormat>(contents@.identifiers),
        written == (section_fits::<IdentifierFormat>(size, contents@.identifiers)
            && section_fits::<TypeFormat>(size, contents@.type_signatures) && section_fits::<
            FunctionFormat,
        >(size, contents@.function_signatures)),
        written ==> final(out)@ == old(out)@ + written_signatures(size, contents@),
{
    reveal(written_signatures);
    let a = write_section::<IdentifierFormat>(&contents.identifiers, size, out, pool);
    let b = write_section::<TypeFormat>(&contents.type_signatures, size, out, pool);
    let c = write_section::<FunctionFormat>(&contents.function_signatures, size, out, pool);
    proof {
        assert(models::<IdentifierFormat>(contents.identifiers@) =~= contents@.identifiers);
        assert(models::<TypeFormat>(contents.type_signatures@) =~= contents@.type_signatures);
        assert(models::<FunctionFormat>(contents.function_signatures@)
            =~= contents@.function_signatures);
        if a && b && c {
            assert(out@ =~= old(out)@ + written_signatures(size, contents@));
        }
    }
    a && b && c
}

/// Appends the empty section of data, the section of code blocks and the
/// empty section of imports.
fn write_code(contents: &ModuleContents, size: LengthSize, out: &mut Vec<u8>, pool: &Pool) -> (written:
    bool)
    ensures
        all_valid::<CodeBlockFormat>(contents@.code_blocks),
        written == section_fits::<CodeBlockFormat>(size, contents@.code_blocks),
        written ==> final(out)@ == old(out)@ + written_code(size, contents@),
{
    reveal(written_code);
    let _ = write_length(size, 0, out);
    let blocks = write_section::<CodeBlockFormat>(&contents.code_blocks, size, out, pool);
    let _ = write_length(size, 0, out);
    proof {
        assert(models::<CodeBlockFormat>(contents.code_blocks@) =~= contents@.code_blocks);
        if blocks {
            assert(out@ =~= old(out)@ + written_code(size, contents@));
        }
    }
    blocks
}

/// Appends the function definitions with their count, and the zeros of the
/// kinds of definitions of which there are none yet.
fn write_definitions(contents: &ModuleContents, size: LengthSize, out: &mut Vec<u8>) -> (written:
    bool)
    ensures
        all_valid::<FunctionDefinitionFormat>(contents@.function_definitions),
        written == counted_fit::<FunctionDefinitionFormat>(size, contents@.function_definitions),
        written ==> final(out)@ == old(out)@ + written_definitions(size, contents@),
{
    reveal(written_definitions);
    let functions = write_counted::<FunctionDefinitionFormat>(
        &contents.function_definitions,
        size,
        out,
    );
    write_placeholders(size, 4, out);
    proof {
        assert(models::<FunctionDefinitionFormat>(contents.function_definitions@)
            =~= contents@.function_definitions);
        if functions {
            assert(out@ =~= old(out)@ + written_definitions(size, contents@));
        }
    }
    functions
}

/// The bytes of a module written with lengths of the given size, where
/// everything fits that size.
pub fn write_sized(contents: &ModuleContents, size: LengthSize, pool: &Pool) -> (bytes: Option<
    Vec<u8>,
>)
    ensures
        contents_valid(contents@),
        bytes.is_some() == module_fits(size, contents@),
        bytes matches Some(written) ==> written@ == written_module(size, contents@),
{
    let mut out: Vec<u8> = Vec::new();
    append_bytes(&mut out, MAGIC.as_slice());
    out.push(contents.format_version.major);
    out.push(contents.format_version.minor);
    out.push(size.tag());
    let ghost started = out@;
    proof {
        assert(MAGIC@ =~= magic());
        assert(started =~= magic() + seq![
            contents.format_version.major,
            contents.format_version.minor,
            size.tag_value(),
        ]);
    }
    let a = match &contents.module_identifier {
        Some(identifier) => write_header(identifier, size, &mut out, pool),
        None => false,
    };
    let b = write_signatures(contents, size, &mut out, pool);
    let c = write_code(contents, size, &mut out, pool);
    let d = write_definitions(contents, size, &mut out);
    write_placeholders(size, 4, &mut out);
    if a && b && c && d {
        proof {
            assert(out@ =~= written_module(size, contents@));
        }
        Some(out)
    } else {
        None
    }
}

/// The bytes of a module, written with lengths of the smallest size that
/// holds every length and index of the module. Nothing is written for a
/// module without a name, nor for one with a length that no size holds.
pub fn write_contents(contents: &ModuleContents, pool: &Pool) -> (bytes: Option<
    (LengthSize, Vec<u8>),
>)
    ensures
        contents_valid(contents@),
        match bytes {
            Some((size, written)) => smallest_size(contents@) == Some(size) && written@
                == written_module(size, contents@),
            None => smallest_size(contents@).is_none(),
        },
{
    match write_sized(contents, LengthSize::One, pool) {
        Some(bytes) => Some((LengthSize::One, bytes)),
        None => match write_sized(contents, LengthSize::Two, pool) {
            Some(bytes) => Some((LengthSize::Two, bytes)),
            None => match write_sized(contents, LengthSize::Four, pool) {
                Some(bytes) => Some((LengthSize::Four, bytes)),
                None => None,
            },
        },
    }
}

} // verus!
