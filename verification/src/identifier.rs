//! Identifiers: the names of modules, symbols and libraries.

use crate::binary::format::{append_bytes, Format};
use crate::binary::{length_bytes, lemma_length_round_trip, write_length, LengthSize};
use crate::module::parser::{parsed_length, Error, ErrorKind, Parsed, Wrapper};
use vstd::string::StringExecFns;
use vstd::prelude::*;
use vstd::slice::slice_to_vec;
use vstd::string::StringSliceAdditionalSpecFns;
use vstd::utf8::*;

verus! {

broadcast use vstd::utf8::encode_utf8_valid_utf8;

/// What makes a sequence of bytes an identifier: it is not empty, holds no
/// NUL byte, and is well-formed UTF-8.
pub open spec fn valid_identifier(bytes: Seq<u8>) -> bool {
    &&& bytes.len() > 0
    &&& no_nul(bytes)
    &&& valid_utf8(bytes)
}

/// No byte of `bytes` is NUL.
pub open spec fn no_nul(bytes: Seq<u8>) -> bool {
    forall|i: int| 0 <= i < bytes.len() ==> bytes[i] != 0u8
}

/// Why a string is no identifier.
#[derive(Clone, Copy, Debug, PartialEq, Eq, Structural)]
pub enum InvalidError {
    /// It is empty.
    Empty,
    /// It holds a NUL byte.
    ContainsNull,
}

/// Why a sequence of bytes is no identifier.
#[derive(Clone, Copy, Debug, PartialEq, Eq, Structural)]
pub enum ParseError {
    /// The bytes are a string that is no identifier.
    InvalidIdentifier(InvalidError),
    /// The bytes are not well-formed UTF-8.
    InvalidSequence,
}

/// The error, if any, with which a sequence of bytes is refused as an
/// identifier: ill-formed UTF-8 first, then emptiness, then a NUL byte.
pub open spec fn identifier_error(bytes: Seq<u8>) -> Option<ParseError> {
    if !valid_utf8(bytes) {
        Some(ParseError::InvalidSequence)
    } else if bytes.len() == 0 {
        Some(ParseError::InvalidIdentifier(InvalidError::Empty))
    } else if !no_nul(bytes) {
        Some(ParseError::InvalidIdentifier(InvalidError::ContainsNull))
    } else {
        None
    }
}

/// A non-empty UTF-8 string without NUL bytes. Its view is its bytes.
#[derive(Debug, PartialEq, Eq, Hash)]
pub struct Identifier {
    bytes: Vec<u8>,
}

/// A borrowed identifier is an identifier behind a reference.
pub type Id = Identifier;

/// `std::str::from_utf8` accepts a slice of bytes exactly when the bytes are
/// well-formed UTF-8.
#[verifier::external_body]
fn is_utf8(bytes: &[u8]) -> (valid: bool)
    ensures
        valid == valid_utf8(bytes@),
{
    std::str::from_utf8(bytes).is_ok()
}

/// `String::from_utf8_lossy` gives the text that well-formed UTF-8 bytes
/// encode.
#[verifier::external_body]
fn utf8_text(bytes: &[u8]) -> (text: String)
    requires
        valid_utf8(bytes@),
    ensures
        text@ == decode_utf8(bytes@),
{
    String::from_utf8_lossy(bytes).into_owned()
}

/// Whether some byte of the slice is NUL.
fn has_nul(bytes: &[u8]) -> (found: bool)
    ensures
        found == !no_nul(bytes@),
{
    let mut index: usize = 0;
    while index < bytes.len()
        invariant
            index <= bytes@.len(),
            forall|i: int| 0 <= i < index ==> bytes@[i] != 0u8,
        decreases bytes@.len() - index,
    {
        if bytes[index] == 0 {
            return true;
        }
        index += 1;
    }
    false
}

impl View for Identifier {
    type V = Seq<u8>;

    closed spec fn view(&self) -> Seq<u8> {
        self.bytes@
    }
}

impl Identifier {
    #[verifier::type_invariant]
    spec fn well_formed(self) -> bool {
        valid_identifier(self.bytes@)
    }

    /// Makes an identifier of a string, which is refused where it is empty
    /// or holds a NUL character.
    pub fn from_str(text: &str) -> (made: Result<Identifier, InvalidError>)
        ensures
            match made {
                Ok(identifier) => identifier@ == text.spec_bytes() && valid_identifier(
                    identifier@,
                ),
                Err(error) => identifier_error(text.spec_bytes()) == Some(
                    ParseError::InvalidIdentifier(error),
                ),
            },
    {
        let bytes = text.as_bytes();
        if bytes.len() == 0 {
            return Err(InvalidError::Empty);
        }
        if has_nul(bytes) {
            return Err(InvalidError::ContainsNull);
        }
        Ok(Identifier { bytes: slice_to_vec(bytes) })
    }

    /// Makes an identifier of a string, as [`Identifier::from_str`] does.
    pub fn try_from_str(text: &str) -> (made: Result<Identifier, InvalidError>)
        ensures
            match made {
                Ok(identifier) => identifier@ == text.spec_bytes() && valid_identifier(
                    identifier@,
                ),
                Err(error) => identifier_error(text.spec_bytes()) == Some(
                    ParseError::InvalidIdentifier(error),
                ),
            },
    {
        Identifier::from_str(text)
    }

    /// Makes an identifier of a string, as [`Identifier::from_str`] does.
    pub fn try_from(text: &str) -> (made: Result<Identifier, InvalidError>)
        ensures
            match made {
                Ok(identifier) => identifier@ == text.spec_bytes() && valid_identifier(
                    identifier@,
                ),
                Err(error) => identifier_error(text.spec_bytes()) == Some(
                    ParseError::InvalidIdentifier(error),
                ),
            },
    {
        Identifier::from_str(text)
    }

    /// Makes an identifier of bytes, which are refused where
    /// [`identifier_error`] names an error for them.
    pub fn from_byte_slice(bytes: &[u8]) -> (made: Result<Identifier, ParseError>)
        ensures
            match made {
                Ok(identifier) => identifier@ == bytes@ && valid_identifier(bytes@)
                    && identifier_error(bytes@).is_none(),
                Err(error) => identifier_error(bytes@) == Some(error),
            },
    {
        if !is_utf8(bytes) {
            return Err(ParseError::InvalidSequence);
        }
        if bytes.len() == 0 {
            return Err(ParseError::InvalidIdentifier(InvalidError::Empty));
        }
        if has_nul(bytes) {
            return Err(ParseError::InvalidIdentifier(InvalidError::ContainsNull));
        }
        Ok(Identifier { bytes: slice_to_vec(bytes) })
    }

    /// The bytes of the identifier, which always make a valid identifier.
    pub fn as_bytes(&self) -> (bytes: &[u8])
        ensures
            bytes@ == self@,
            valid_identifier(self@),
    {
        proof {
            use_type_invariant(self);
        }
        self.bytes.as_slice()
    }

    /// The length of the identifier in bytes, which is never zero.
    pub fn len(&self) -> (length: usize)
        ensures
            length == self@.len(),
            length > 0,
    {
        proof {
            use_type_invariant(self);
        }
        self.bytes.len()
    }

    /// The identifier as a borrowed identifier.
    pub fn as_id(&self) -> (id: &Id)
        ensures
            id@ == self@,
    {
        self
    }

    /// An owned copy of the identifier.
    pub fn to_identifier(&self) -> (copy: Identifier)
        ensures
            copy@ == self@,
    {
        proof {
            use_type_invariant(self);
        }
        Identifier { bytes: slice_to_vec(self.bytes.as_slice()) }
    }

    /// The text of the identifier.
    pub fn text(&self) -> (text: String)
        ensures
            text@ == decode_utf8(self@),
    {
        proof {
            use_type_invariant(self);
        }
        utf8_text(self.bytes.as_slice())
    }

    /// Whether two identifiers have the same bytes.
    pub fn same(&self, other: &Identifier) -> (equal: bool)
        ensures
            equal == (self@ == other@),
    {
        same_bytes(self.bytes.as_slice(), other.bytes.as_slice())
    }
}

impl Clone for Identifier {
    fn clone(&self) -> (copy: Self)
        ensures
            copy@ == self@,
    {
        self.to_identifier()
    }
}

/// Whether two slices hold the same bytes.
pub fn same_bytes(left: &[u8], right: &[u8]) -> (equal: bool)
    ensures
        equal == (left@ == right@),
{
    if left.len() != right.len() {
        return false;
    }
    let mut index: usize = 0;
    while index < left.len()
        invariant
            index <= left@.len(),
            left@.len() == right@.len(),
            forall|i: int| 0 <= i < index ==> left@[i] == right@[i],
        decreases left@.len() - index,
    {
        if left[index] != right[index] {
            return false;
        }
        index += 1;
    }
    assert(left@ =~= right@);
    true
}

/// Every string without NUL characters that is not empty is an identifier
/// whose bytes are the string's bytes: making one cannot fail on it.
pub proof fn lemma_text_is_identifier(text: &str)
    requires
        text.spec_bytes().len() > 0,
        no_nul(text.spec_bytes()),
    ensures
        valid_identifier(text.spec_bytes()),
        identifier_error(text.spec_bytes()).is_none(),
{
}

} // verus!

verus! {

/// The form of an identifier: its length in bytes, then its bytes.
pub struct IdentifierFormat;

/// The error for the length of an identifier that is not there: no length
/// is no identifier.
pub open spec fn missing_identifier() -> ErrorKind {
    ErrorKind::InvalidIdentifier(ParseError::InvalidIdentifier(InvalidError::Empty))
}

impl Format for IdentifierFormat {
    type T = Identifier;

    type V = Seq<u8>;

    open spec fn model(value: Identifier) -> Seq<u8> {
        value@
    }

    open spec fn valid(value: Seq<u8>) -> bool {
        valid_identifier(value)
    }

    open spec fn fits(size: LengthSize, value: Seq<u8>) -> bool {
        size.holds(value.len())
    }

    open spec fn written(size: LengthSize, value: Seq<u8>) -> Seq<u8> {
        length_bytes(size, value.len()) + value
    }

    open spec fn parsed(size: LengthSize, bytes: Seq<u8>, index: nat) -> Parsed<Seq<u8>> {
        match parsed_length(size, bytes, missing_identifier()) {
            Parsed::Failed { kind, offset } => Parsed::Failed { kind, offset },
            Parsed::Done { value: length, consumed } => {
                let rest = bytes.skip(consumed as int);
                if rest.len() < length {
                    Parsed::Failed { kind: ErrorKind::UnexpectedEnd, offset: consumed }
                } else {
                    match identifier_error(rest.take(length as int)) {
                        Some(error) => Parsed::Failed {
                            kind: ErrorKind::InvalidIdentifier(error),
                            offset: consumed,
                        },
                        None => Parsed::Done {
                            value: rest.take(length as int),
                            consumed: (consumed + length) as nat,
                        },
                    }
                }
            },
        }
    }

    proof fn round_trip(size: LengthSize, value: Seq<u8>, index: nat, rest: Seq<u8>) {
        let all = Self::written(size, value) + rest;
        let prefix = length_bytes(size, value.len());
        assert(all =~= prefix + (value + rest));
        lemma_length_round_trip(size, value.len(), value + rest);
        assert(all.skip(prefix.len() as int) =~= value + rest);
        assert((value + rest).take(value.len() as int) =~= value);
    }

    proof fn written_some(size: LengthSize, value: Seq<u8>) {
        crate::binary::lemma_length_bytes_len(size, value.len());
    }

    fn write(value: &Identifier, size: LengthSize, out: &mut Vec<u8>) -> (written: bool) {
        let bytes = value.as_bytes();
        if !write_length(size, bytes.len(), out) {
            return false;
        }
        append_bytes(out, bytes);
        proof {
            assert(out@ =~= old(out)@ + Self::written(size, value@));
        }
        true
    }

    fn read(source: &mut Wrapper<'_>, index: usize) -> (value: Result<Identifier, Error>) {
        let ghost bytes = source.remaining();
        let ghost width = source.size().width();
        let length = source.read_length(
            ErrorKind::InvalidIdentifier(ParseError::InvalidIdentifier(InvalidError::Empty)),
        )?;
        let start = source.offset();
        let content = source.read_exact(length)?;
        match Identifier::from_byte_slice(content) {
            Ok(identifier) => {
                proof {
                    assert(bytes.skip(width as int).skip(length as int) =~= bytes.skip(
                        (width + length) as int,
                    ));
                }
                Ok(identifier)
            },
            Err(error) => Err(Error::new(start, ErrorKind::InvalidIdentifier(error))),
        }
    }
}

impl InvalidError {
    /// The line of text that the error is shown as.
    pub open spec fn text(self) -> Seq<char> {
        match self {
            InvalidError::Empty => "identifiers cannot be empty"@,
            InvalidError::ContainsNull => "identifiers cannot contain null bytes"@,
        }
    }

    /// The error as one line of text.
    pub fn message(&self) -> (message: String)
        ensures
            message@ == self.text(),
    {
        match self {
            InvalidError::Empty => {
                let mut message = String::from_str("identifiers cannot be empty");
                message
            },
            InvalidError::ContainsNull => {
                let mut message = String::from_str("identifiers cannot contain null bytes");
                message
            },
        }
    }
}

impl ParseError {
    /// The line of text that the error is shown as.
    pub open spec fn text(self) -> Seq<char> {
        match self {
            ParseError::InvalidIdentifier(InvalidError::Empty) => "identifiers cannot be empty"@,
            ParseError::InvalidIdentifier(InvalidError::ContainsNull) =>
                "identifiers cannot contain null bytes"@,
            ParseError::InvalidSequence => "identifiers must be valid UTF-8"@,
        }
    }

    /// The error as one line of text.
    pub fn message(&self) -> (message: String)
        ensures
            message@ == self.text(),
    {
        match self {
            ParseError::InvalidIdentifier(InvalidError::Empty) => {
                let mut message = String::from_str("identifiers cannot be empty");
                message
            },
            ParseError::InvalidIdentifier(InvalidError::ContainsNull) => {
                let mut message = String::from_str("identifiers cannot contain null bytes");
                message
            },
            ParseError::InvalidSequence => {
                let mut message = String::from_str("identifiers must be valid UTF-8");
                message
            },
        }
    }
}

} // verus!
