//! Type signatures and function signatures as modules hold them.

use crate::binary::format::{
    lemma_many_round_trip, read_many, write_many, written_many, Format, IndexFormat,
};
use crate::binary::{length_bytes, lemma_length_round_trip, write_length, LengthSize};
use crate::module::parser::{parsed_length, Error, ErrorKind, InvalidTypeCode, Parsed, Wrapper};
use crate::type_system::Any;
use vstd::prelude::*;

verus! {

/// A type signature is a type.
pub type Type = Any;

/// The bytes that stand for the types.
pub type TypeCode = Any;

/// The byte that stands for a type.
pub open spec fn type_tag(value_type: Any) -> u8 {
    match value_type {
        Any::U8 => 0x01u8,
        Any::U16 => 0x02u8,
        Any::U32 => 0x04u8,
        Any::U64 => 0x08u8,
        Any::UNative => 0x0Au8,
        Any::S8 => 0x11u8,
        Any::S16 => 0x12u8,
        Any::S32 => 0x14u8,
        Any::S64 => 0x18u8,
        Any::SNative => 0x1Au8,
        Any::F32 => 0xF4u8,
        Any::F64 => 0xF8u8,
    }
}

/// The type that a byte stands for.
pub open spec fn type_of_tag(tag: u8) -> Option<Any> {
    if tag == 0x01 {
        Some(Any::U8)
    } else if tag == 0x02 {
        Some(Any::U16)
    } else if tag == 0x04 {
        Some(Any::U32)
    } else if tag == 0x08 {
        Some(Any::U64)
    } else if tag == 0x0A {
        Some(Any::UNative)
    } else if tag == 0x11 {
        Some(Any::S8)
    } else if tag == 0x12 {
        Some(Any::S16)
    } else if tag == 0x14 {
        Some(Any::S32)
    } else if tag == 0x18 {
        Some(Any::S64)
    } else if tag == 0x1A {
        Some(Any::SNative)
    } else if tag == 0xF4 {
        Some(Any::F32)
    } else if tag == 0xF8 {
        Some(Any::F64)
    } else {
        None
    }
}

/// Every type has a byte of its own, and no byte stands for two types.
pub proof fn lemma_type_tags(value_type: Any, tag: u8)
    ensures
        type_of_tag(type_tag(value_type)) == Some(value_type),
        type_of_tag(tag) == Some(value_type) ==> tag == type_tag(value_type),
{
}

/// The byte that stands for a type.
pub fn tag_of(value_type: Any) -> (tag: u8)
    ensures
        tag == type_tag(value_type),
{
    match value_type {
        Any::U8 => 0x01,
        Any::U16 => 0x02,
        Any::U32 => 0x04,
        Any::U64 => 0x08,
        Any::UNative => 0x0A,
        Any::S8 => 0x11,
        Any::S16 => 0x12,
        Any::S32 => 0x14,
        Any::S64 => 0x18,
        Any::SNative => 0x1A,
        Any::F32 => 0xF4,
        Any::F64 => 0xF8,
    }
}

/// The type that a byte stands for, where it stands for one.
pub fn type_from_tag(tag: u8) -> (value_type: Result<Any, InvalidTypeCode>)
    ensures
        match value_type {
            Ok(found) => type_of_tag(tag) == Some(found),
            Err(error) => type_of_tag(tag).is_none() && error.value == tag,
        },
{
    if tag == 0x01 {
        Ok(Any::U8)
    } else if tag == 0x02 {
        Ok(Any::U16)
    } else if tag == 0x04 {
        Ok(Any::U32)
    } else if tag == 0x08 {
        Ok(Any::U64)
    } else if tag == 0x0A {
        Ok(Any::UNative)
    } else if tag == 0x11 {
        Ok(Any::S8)
    } else if tag == 0x12 {
        Ok(Any::S16)
    } else if tag == 0x14 {
        Ok(Any::S32)
    } else if tag == 0x18 {
        Ok(Any::S64)
    } else if tag == 0x1A {
        Ok(Any::SNative)
    } else if tag == 0xF4 {
        Ok(Any::F32)
    } else if tag == 0xF8 {
        Ok(Any::F64)
    } else {
        Err(InvalidTypeCode { value: tag })
    }
}

/// What reading the byte of a type comes to; `missing` is the error where
/// no byte is there.
pub open spec fn parsed_type(bytes: Seq<u8>, missing: ErrorKind) -> Parsed<Any> {
    if bytes.len() == 0 {
        Parsed::Failed { kind: missing, offset: 0 }
    } else {
        match type_of_tag(bytes[0]) {
            Some(value_type) => Parsed::Done { value: value_type, consumed: 1 },
            None => Parsed::Failed {
                kind: ErrorKind::InvalidTypeSignatureTag(InvalidTypeCode { value: bytes[0] }),
                offset: 0,
            },
        }
    }
}

/// Reads the byte of a type.
pub fn read_type(source: &mut Wrapper<'_>, missing: ErrorKind) -> (value_type: Result<Any, Error>)
    ensures
        crate::module::parser::agrees(
            value_type,
            |read: Any| read,
            parsed_type(old(source).remaining(), missing),
            *old(source),
            *final(source),
        ),
{
    let start = source.offset();
    match source.read_byte() {
        None => Err(Error::new(start, missing)),
        Some(tag) => match type_from_tag(tag) {
            Ok(value_type) => Ok(value_type),
            Err(error) => Err(Error::new(start, ErrorKind::InvalidTypeSignatureTag(error))),
        },
    }
}

/// The form of a type signature: the byte of the type.
pub struct TypeFormat;

impl Format for TypeFormat {
    type T = Any;

    type V = Any;

    open spec fn model(value: Any) -> Any {
        value
    }

    open spec fn valid(value: Any) -> bool {
        true
    }

    open spec fn fits(size: LengthSize, value: Any) -> bool {
        true
    }

    open spec fn written(size: LengthSize, value: Any) -> Seq<u8> {
        seq![type_tag(value)]
    }

    open spec fn parsed(size: LengthSize, bytes: Seq<u8>, index: nat) -> Parsed<Any> {
        parsed_type(bytes, ErrorKind::MissingTypeSignature { index: index as usize })
    }

    proof fn round_trip(size: LengthSize, value: Any, index: nat, rest: Seq<u8>) {
        lemma_type_tags(value, 0);
        assert((Self::written(size, value) + rest)[0] == type_tag(value));
    }

    proof fn written_some(size: LengthSize, value: Any) {
    }

    fn write(value: &Any, size: LengthSize, out: &mut Vec<u8>) -> (written: bool) {
        out.push(tag_of(*value));
        proof {
            assert(out@ =~= old(out)@ + Self::written(size, *value));
        }
        true
    }

    fn read(source: &mut Wrapper<'_>, index: usize) -> (value: Result<Any, Error>) {
        read_type(source, ErrorKind::MissingTypeSignature { index })
    }
}

/// A function signature as a module holds it: the indices of the types of
/// the results and of the parameters, each an index of a type signature.
#[derive(Clone, Debug, PartialEq, Eq, Hash)]
pub struct Function {
    pub return_types: Vec<usize>,
    pub parameter_types: Vec<usize>,
}

/// What a function signature of a module stands for.
pub struct FunctionView {
    pub return_types: Seq<usize>,
    pub parameter_types: Seq<usize>,
}

impl View for Function {
    type V = FunctionView;

    open spec fn view(&self) -> FunctionView {
        FunctionView { return_types: self.return_types@, parameter_types: self.parameter_types@ }
    }
}

impl FunctionView {
    /// Whether every index of the signature is below `types`.
    pub open spec fn within(self, types: nat) -> bool {
        &&& forall|i: int| 0 <= i < self.return_types.len() ==> self.return_types[i] < types
        &&& forall|i: int|
            0 <= i < self.parameter_types.len() ==> self.parameter_types[i] < types
    }
}

impl Function {
    pub fn new(return_types: Vec<usize>, parameter_types: Vec<usize>) -> (signature: Self)
        ensures
            signature@.return_types == return_types@,
            signature@.parameter_types == parameter_types@,
    {
        Function { return_types, parameter_types }
    }

    pub fn return_types(&self) -> (types: &[usize])
        ensures
            types@ == self@.return_types,
    {
        self.return_types.as_slice()
    }

    pub fn parameter_types(&self) -> (types: &[usize])
        ensures
            types@ == self@.parameter_types,
    {
        self.parameter_types.as_slice()
    }
}

/// The form of a function signature: the count of results, the count of
/// parameters, the indices of the result types, and those of the parameter
/// types.
pub struct FunctionFormat;

impl Format for FunctionFormat {
    type T = Function;

    type V = FunctionView;

    open spec fn model(value: Function) -> FunctionView {
        value@
    }

    open spec fn valid(value: FunctionView) -> bool {
        true
    }

    open spec fn fits(size: LengthSize, value: FunctionView) -> bool {
        &&& size.holds(value.return_types.len())
        &&& size.holds(value.parameter_types.len())
        &&& crate::binary::format::all_fit::<IndexFormat>(size, value.return_types)
        &&& crate::binary::format::all_fit::<IndexFormat>(size, value.parameter_types)
    }

    open spec fn written(size: LengthSize, value: FunctionView) -> Seq<u8> {
        length_bytes(size, value.return_types.len()) + length_bytes(
            size,
            value.parameter_types.len(),
        ) + written_many::<IndexFormat>(size, value.return_types) + written_many::<IndexFormat>(
            size,
            value.parameter_types,
        )
    }

    open spec fn parsed(size: LengthSize, bytes: Seq<u8>, index: nat) -> Parsed<FunctionView> {
        match parsed_length(size, bytes, ErrorKind::UnexpectedEnd) {
            Parsed::Failed { kind, offset } => Parsed::Failed { kind, offset },
            Parsed::Done { value: results, consumed: first } => {
                let bytes1 = bytes.skip(first as int);
                match parsed_length(size, bytes1, ErrorKind::UnexpectedEnd) {
                    Parsed::Failed { kind, offset } => Parsed::Failed {
                        kind,
                        offset: first + offset,
                    },
                    Parsed::Done { value: parameters, consumed: second } => {
                        let bytes2 = bytes1.skip(second as int);
                        match crate::binary::format::parsed_many::<IndexFormat>(
                            size,
                            bytes2,
                            results as nat,
                            0,
                        ) {
                            Parsed::Failed { kind, offset } => Parsed::Failed {
                                kind,
                                offset: first + second + offset,
                            },
                            Parsed::Done { value: return_types, consumed: third } => {
                                let bytes3 = bytes2.skip(third as int);
                                match crate::binary::format::parsed_many::<IndexFormat>(
                                    size,
                                    bytes3,
                                    parameters as nat,
                                    0,
                                ) {
                                    Parsed::Failed { kind, offset } => Parsed::Failed {
                                        kind,
                                        offset: first + second + third + offset,
                                    },
                                    Parsed::Done { value: parameter_types, consumed: fourth } =>
                                        Parsed::Done {
                                        value: FunctionView { return_types, parameter_types },
                                        consumed: first + second + third + fourth,
                                    },
                                }
                            },
                        }
                    },
                }
            },
        }
    }

    proof fn round_trip(size: LengthSize, value: FunctionView, index: nat, rest: Seq<u8>) {
        let a = length_bytes(size, value.return_types.len());
        let b = length_bytes(size, value.parameter_types.len());
        let c = written_many::<IndexFormat>(size, value.return_types);
        let d = written_many::<IndexFormat>(size, value.parameter_types);
        let all = Self::written(size, value) + rest;
        assert(all =~= a + (b + c + d + rest));
        lemma_length_round_trip(size, value.return_types.len(), b + c + d + rest);
        let bytes1 = all.skip(a.len() as int);
        assert(bytes1 =~= b + (c + d + rest));
        lemma_length_round_trip(size, value.parameter_types.len(), c + d + rest);
        let bytes2 = bytes1.skip(b.len() as int);
        assert(bytes2 =~= c + (d + rest));
        lemma_many_round_trip::<IndexFormat>(size, value.return_types, 0, d + rest);
        let bytes3 = bytes2.skip(c.len() as int);
        assert(bytes3 =~= d + rest);
        lemma_many_round_trip::<IndexFormat>(size, value.parameter_types, 0, rest);
    }

    proof fn written_some(size: LengthSize, value: FunctionView) {
        crate::binary::lemma_length_bytes_len(size, value.return_types.len());
    }

    fn write(value: &Function, size: LengthSize, out: &mut Vec<u8>) -> (written: bool) {
        let first = write_length(size, value.return_types.len(), out);
        let second = write_length(size, value.parameter_types.len(), out);
        let third = write_many::<IndexFormat>(&value.return_types, size, out);
        let fourth = write_many::<IndexFormat>(&value.parameter_types, size, out);
        proof {
            assert(crate::binary::format::models::<IndexFormat>(value.return_types@)
                =~= value.return_types@);
            assert(crate::binary::format::models::<IndexFormat>(value.parameter_types@)
                =~= value.parameter_types@);
            if first && second && third && fourth {
                assert(out@ =~= old(out)@ + Self::written(size, value@));
            }
        }
        first && second && third && fourth
    }

    fn read(source: &mut Wrapper<'_>, index: usize) -> (value: Result<Function, Error>) {
        let ghost bytes = source.remaining();
        let results = source.read_length(ErrorKind::UnexpectedEnd)?;
        let parameters = source.read_length(ErrorKind::UnexpectedEnd)?;
        let ghost bytes2 = source.remaining();
        let return_types = read_many::<IndexFormat>(source, results)?;
        let ghost bytes3 = source.remaining();
        let parameter_types = read_many::<IndexFormat>(source, parameters)?;
        proof {
            assert(crate::binary::format::models::<IndexFormat>(return_types@)
                =~= return_types@);
            assert(crate::binary::format::models::<IndexFormat>(parameter_types@)
                =~= parameter_types@);
            let width = old(source).size().width();
            let third = (bytes2.len() - bytes3.len()) as nat;
            let fourth = (bytes3.len() - source.remaining().len()) as nat;
            assert(source.remaining() =~= bytes.skip((width + width + third + fourth) as int));
        }
        Ok(Function { return_types, parameter_types })
    }
}

} // verus!
