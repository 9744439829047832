use sailar::binary::code::{read_constant, write_constant};
use sailar::binary::format::{Format, IndexFormat};
use sailar::binary::signature::{tag_of, type_from_tag};
use sailar::binary::{read_length, write_length, LengthSize, MAGIC};
use sailar::block::ConstantInteger;
use sailar::identifier::{Identifier, IdentifierFormat, InvalidError, ParseError};
use sailar::instruction_set::{
    IntegerConstant, InvalidOpcodeError, Opcode, OverflowBehavior,
};
use sailar::module::parser::{ErrorKind, InvalidTypeCode, Wrapper};
use sailar::type_system::Any;

#[test]
fn magic_is_the_name_of_the_format() {
    assert_eq!(&MAGIC, b"SAILAR");
}

#[test]
fn lengths_are_written_least_significant_byte_first() {
    let mut out = Vec::new();
    assert!(write_length(LengthSize::One, 0xAB, &mut out));
    assert!(write_length(LengthSize::Two, 0x1234, &mut out));
    assert!(write_length(LengthSize::Four, 0x89ABCDEF, &mut out));
    assert_eq!(out, vec![0xAB, 0x34, 0x12, 0xEF, 0xCD, 0xAB, 0x89]);
}

#[test]
fn lengths_are_read_back_as_written() {
    for (size, values) in [
        (LengthSize::One, vec![0usize, 1, 127, 255]),
        (LengthSize::Two, vec![0, 255, 256, 65535]),
        (LengthSize::Four, vec![0, 65536, 0x7FFF_FFFF, 0xFFFF_FFFF]),
    ] {
        for value in values {
            let mut out = Vec::new();
            assert!(write_length(size, value, &mut out));
            assert_eq!(out.len(), usize::from(size.byte_count()));
            out.push(0x55);
            assert_eq!(read_length(size, &out), Some(value));
        }
    }
}

#[test]
fn a_length_beyond_its_size_is_not_written() {
    let mut out = vec![1u8];
    assert!(!write_length(LengthSize::One, 256, &mut out));
    assert!(!write_length(LengthSize::Two, 65536, &mut out));
    assert_eq!(out, vec![1u8]);
}

#[test]
fn a_length_is_not_read_from_too_few_bytes() {
    assert_eq!(read_length(LengthSize::One, &[]), None);
    assert_eq!(read_length(LengthSize::Two, &[1]), None);
    assert_eq!(read_length(LengthSize::Four, &[1, 2, 3]), None);
}

#[test]
fn zero_length_is_written_as_zeros_of_the_size() {
    let mut out = Vec::new();
    assert!(write_length(LengthSize::One, 0, &mut out));
    assert_eq!(out, vec![0]);
    let mut out = Vec::new();
    assert!(write_length(LengthSize::Two, 0, &mut out));
    assert_eq!(out, vec![0, 0]);
    let mut out = Vec::new();
    assert!(write_length(LengthSize::Four, 0, &mut out));
    assert_eq!(out, vec![0, 0, 0, 0]);
}

#[test]
fn resize_to_fit_only_raises_the_size() {
    let mut size = LengthSize::One;
    size.resize_to_fit(255);
    assert_eq!(size, LengthSize::One);
    size.resize_to_fit(256);
    assert_eq!(size, LengthSize::Two);
    size.resize_to_fit(3);
    assert_eq!(size, LengthSize::Two);
    size.resize_to_fit(65536);
    assert_eq!(size, LengthSize::Four);
    size.resize_to_fit(0);
    assert_eq!(size, LengthSize::Four);
}

#[test]
fn resize_to_fit_two_lengths_fits_both() {
    for (a, b) in [(0usize, 0usize), (300, 2), (2, 300), (70000, 300), (300, 70000)] {
        let mut size = LengthSize::One;
        size.resize_to_fit(a);
        size.resize_to_fit(b);
        assert!(size.byte_count() >= LengthSize::for_length(a).byte_count());
        assert!(size.byte_count() >= LengthSize::for_length(b).byte_count());
        assert!(size.fits(a) && size.fits(b));
    }
}

#[test]
fn resize_to_fit_many_fits_all() {
    let mut size = LengthSize::One;
    size.resize_to_fit_many(&[1, 2, 70000, 3]);
    assert_eq!(size, LengthSize::Four);
    let mut size = LengthSize::Two;
    size.resize_to_fit_many(&[1, 2, 3]);
    assert_eq!(size, LengthSize::Two);
}

#[test]
fn length_size_tags() {
    assert_eq!(LengthSize::One.tag(), 0);
    assert_eq!(LengthSize::Two.tag(), 1);
    assert_eq!(LengthSize::Four.tag(), 2);
    assert_eq!(LengthSize::from_tag(1), Ok(LengthSize::Two));
    assert_eq!(LengthSize::from_tag(3).unwrap_err().value, 3);
    assert_eq!(LengthSize::Four.max(), u32::MAX);
}

#[test]
fn identifier_refuses_empty_and_nul() {
    assert_eq!(Identifier::from_str("").unwrap_err(), InvalidError::Empty);
    assert_eq!(Identifier::from_str("a\0b").unwrap_err(), InvalidError::ContainsNull);
    assert_eq!(
        Identifier::from_byte_slice(&[]).unwrap_err(),
        ParseError::InvalidIdentifier(InvalidError::Empty)
    );
    assert_eq!(
        Identifier::from_byte_slice(&[0x61, 0]).unwrap_err(),
        ParseError::InvalidIdentifier(InvalidError::ContainsNull)
    );
    assert_eq!(Identifier::from_byte_slice(&[0xFF, 0x61]).unwrap_err(), ParseError::InvalidSequence);
    assert_eq!(Identifier::from_byte_slice(&[0xC3]).unwrap_err(), ParseError::InvalidSequence);
}

#[test]
fn identifier_keeps_its_bytes() {
    let identifier = Identifier::from_str("héllo").unwrap();
    assert_eq!(identifier.as_bytes(), "héllo".as_bytes());
    assert_eq!(identifier.len(), 6);
    assert_eq!(identifier.text(), "héllo");
    assert!(identifier.same(&identifier.clone()));
    assert!(!identifier.same(&Identifier::from_str("hello").unwrap()));
}

#[test]
fn identifier_with_a_single_byte_round_trips() {
    let identifier = Identifier::from_str("x").unwrap();
    let mut out = Vec::new();
    assert!(IdentifierFormat::write(&identifier, LengthSize::One, &mut out));
    assert_eq!(out, vec![1, b'x']);
    let mut reader = Wrapper::new(&out);
    let read = IdentifierFormat::read(&mut reader, 0).unwrap();
    assert_eq!(read, identifier);
    assert_eq!(reader.offset(), 2);
}

#[test]
fn identifier_round_trips_in_every_size() {
    let identifier = Identifier::from_str("main").unwrap();
    for size in [LengthSize::One, LengthSize::Two, LengthSize::Four] {
        let mut out = Vec::new();
        assert!(IdentifierFormat::write(&identifier, size, &mut out));
        let mut reader = Wrapper::new(&out);
        reader.set_length_size(size);
        assert_eq!(IdentifierFormat::read(&mut reader, 0).unwrap(), identifier);
    }
}

#[test]
fn reading_an_identifier_reports_what_is_wrong() {
    let mut reader = Wrapper::new(&[]);
    let error = IdentifierFormat::read(&mut reader, 0).unwrap_err();
    assert!(matches!(
        error.kind(),
        ErrorKind::InvalidIdentifier(ParseError::InvalidIdentifier(InvalidError::Empty))
    ));
    assert_eq!(error.offset(), 0);

    let bytes = [3u8, b'a', b'b'];
    let mut reader = Wrapper::new(&bytes);
    let error = IdentifierFormat::read(&mut reader, 0).unwrap_err();
    assert!(matches!(error.kind(), ErrorKind::UnexpectedEnd));
    assert_eq!(error.offset(), 1);

    let bytes = [2u8, b'a', 0];
    let mut reader = Wrapper::new(&bytes);
    let error = IdentifierFormat::read(&mut reader, 0).unwrap_err();
    assert!(matches!(
        error.kind(),
        ErrorKind::InvalidIdentifier(ParseError::InvalidIdentifier(InvalidError::ContainsNull))
    ));
    assert_eq!(error.offset(), 1);
}

#[test]
fn indices_round_trip() {
    let mut out = Vec::new();
    assert!(IndexFormat::write(&513, LengthSize::Two, &mut out));
    let mut reader = Wrapper::new(&out);
    reader.set_length_size(LengthSize::Two);
    assert_eq!(IndexFormat::read(&mut reader, 0).unwrap(), 513);
}

#[test]
fn type_tags_are_one_to_one() {
    let all = [
        (Any::U8, 0x01),
        (Any::U16, 0x02),
        (Any::U32, 0x04),
        (Any::U64, 0x08),
        (Any::S8, 0x11),
        (Any::S16, 0x12),
        (Any::S32, 0x14),
        (Any::S64, 0x18),
        (Any::UNative, 0x0A),
        (Any::SNative, 0x1A),
        (Any::F32, 0xF4),
        (Any::F64, 0xF8),
    ];
    for (value_type, tag) in all {
        assert_eq!(tag_of(value_type), tag);
        assert_eq!(type_from_tag(tag), Ok(value_type));
    }
    assert_eq!(type_from_tag(0), Err(InvalidTypeCode { value: 0 }));
    assert_eq!(type_from_tag(0x13), Err(InvalidTypeCode { value: 0x13 }));
}

#[test]
fn opcodes_have_their_numbers() {
    assert_eq!(Opcode::Nop.code(), 0);
    assert_eq!(Opcode::Ret.code(), 1);
    assert_eq!(Opcode::Call.code(), 7);
    assert_eq!(Opcode::Add.code(), 10);
    assert_eq!(Opcode::ConstI.code(), 25);
    assert_eq!(Opcode::Field.code(), 35);
    assert_eq!(Opcode::Alloca.code(), 253);
    assert_eq!(Opcode::Break.code(), 254);
    assert_eq!(Opcode::Continuation.code(), 255);
    assert_eq!(Opcode::try_from_u32(5), Ok(Opcode::Br));
    assert_eq!(Opcode::try_from_u32(253), Ok(Opcode::Alloca));
    assert_eq!(Opcode::try_from_u32(2), Err(InvalidOpcodeError { value: 2 }));
    assert_eq!(Opcode::try_from_u32(36), Err(InvalidOpcodeError { value: 36 }));
    assert_eq!(Opcode::try_from_u32(255), Err(InvalidOpcodeError { value: 255 }));
    assert_eq!(Opcode::try_from_u32(1000), Err(InvalidOpcodeError { value: 1000 }));
}

#[test]
fn overflow_behaviors_have_their_bytes() {
    assert_eq!(OverflowBehavior::try_from_u8(0), Ok(OverflowBehavior::Ignore));
    assert_eq!(OverflowBehavior::try_from_u8(1), Ok(OverflowBehavior::Flag));
    assert_eq!(OverflowBehavior::try_from_u8(2), Ok(OverflowBehavior::Saturate));
    assert_eq!(OverflowBehavior::try_from_u8(3), Err(3));
    assert_eq!(OverflowBehavior::Flag.flags().bits(), 1);
    assert_eq!(OverflowBehavior::Ignore.flags().bits(), 0);
}

#[test]
fn integer_constants_at_the_bounds_of_their_types() {
    assert_eq!(ConstantInteger::of_type(Any::S8, 127), Some(ConstantInteger::S8(127)));
    assert_eq!(ConstantInteger::of_type(Any::S8, 128), None);
    assert_eq!(ConstantInteger::of_type(Any::S8, -128), Some(ConstantInteger::S8(-128)));
    assert_eq!(ConstantInteger::of_type(Any::S8, -129), None);
    assert_eq!(ConstantInteger::of_type(Any::U8, 255), Some(ConstantInteger::U8(255)));
    assert_eq!(ConstantInteger::of_type(Any::U8, 256), None);
    assert_eq!(ConstantInteger::of_type(Any::U8, -1), None);
    assert_eq!(
        ConstantInteger::of_type(Any::U64, u64::MAX as i128),
        Some(ConstantInteger::U64(u64::MAX))
    );
    assert_eq!(ConstantInteger::of_type(Any::U64, u64::MAX as i128 + 1), None);
    assert_eq!(
        ConstantInteger::of_type(Any::S64, i64::MIN as i128),
        Some(ConstantInteger::S64(i64::MIN))
    );
    assert_eq!(ConstantInteger::of_type(Any::S64, i64::MIN as i128 - 1), None);
    assert_eq!(ConstantInteger::of_type(Any::F32, 0), None);
    assert_eq!(ConstantInteger::of_type(Any::UNative, 0), None);
    assert_eq!(IntegerConstant::of_type(Any::S16, -32768), Some(IntegerConstant::S16(-32768)));
    assert_eq!(IntegerConstant::of_type(Any::S16, 32768), None);
}

#[test]
fn integer_constants_have_values_and_types() {
    assert_eq!(IntegerConstant::S8(-5).value(), -5);
    assert_eq!(IntegerConstant::U64(u64::MAX).value(), u64::MAX as i128);
    assert_eq!(IntegerConstant::S32(7).value_type(), Any::S32);
    assert_eq!(ConstantInteger::U16(7).value_type(), Any::U16);
}

#[test]
fn integer_constants_round_trip() {
    let constants = [
        IntegerConstant::U8(0),
        IntegerConstant::U8(255),
        IntegerConstant::S8(-1),
        IntegerConstant::S8(-128),
        IntegerConstant::S8(127),
        IntegerConstant::U16(0xBEEF),
        IntegerConstant::S16(-2),
        IntegerConstant::U32(0xDEADBEEF),
        IntegerConstant::S32(i32::MIN),
        IntegerConstant::S32(0),
        IntegerConstant::U64(u64::MAX),
        IntegerConstant::U64(0x0102030405060708),
        IntegerConstant::S64(i64::MIN),
        IntegerConstant::S64(-1),
        IntegerConstant::S64(i64::MAX),
    ];
    for constant in constants {
        let mut out = Vec::new();
        write_constant(constant, &mut out);
        out.push(0xAA);
        let mut reader = Wrapper::new(&out);
        assert_eq!(read_constant(&mut reader).unwrap(), constant);
        assert_eq!(reader.offset() + 1, out.len());
    }
}

#[test]
fn integer_constant_bytes() {
    let mut out = Vec::new();
    write_constant(IntegerConstant::S32(0), &mut out);
    assert_eq!(out, vec![0x14, 0, 0, 0, 0]);
    let mut out = Vec::new();
    write_constant(IntegerConstant::S8(-1), &mut out);
    assert_eq!(out, vec![0x11, 0xFF]);
    let mut out = Vec::new();
    write_constant(IntegerConstant::U64(0x0102030405060708), &mut out);
    assert_eq!(out, vec![0x08, 8, 7, 6, 5, 4, 3, 2, 1]);
}

#[test]
fn a_constant_of_a_type_that_is_no_fixed_integer_is_refused() {
    let bytes = [0xF4u8, 0, 0, 0, 0];
    let mut reader = Wrapper::new(&bytes);
    let error = read_constant(&mut reader).unwrap_err();
    assert!(matches!(
        error.kind(),
        ErrorKind::InvalidTypeSignatureTag(InvalidTypeCode { value: 0xF4 })
    ));
    let bytes = [0x14u8, 0, 0];
    let mut reader = Wrapper::new(&bytes);
    let error = read_constant(&mut reader).unwrap_err();
    assert!(matches!(error.kind(), ErrorKind::UnexpectedEnd));
    assert_eq!(error.offset(), 1);
}

#[test]
fn framed_values_give_their_data_and_count() {
    let framed = sailar::binary::structures::ByteLengthEncoded(
        sailar::binary::structures::LengthEncodedVector(vec![1u8, 2, 3]),
    );
    assert_eq!(framed.data().len(), 3);
    assert!(!framed.data().is_empty());
    assert_eq!(framed.data().0, vec![1u8, 2, 3]);
    let empty: sailar::binary::structures::DoubleLengthEncodedVector<u8> = Default::default();
    assert_eq!(empty.data().len(), 0);
    assert!(empty.data().is_empty());
}
