use sailar::binary::record;

#[test]
fn size_of_record_is_acceptable() {
    assert!(std::mem::size_of::<record::Record>() <= 72)
}

#[test]
fn record_types_have_their_bytes() {
    assert_eq!(record::Type::try_from_u8(6), Ok(record::Type::CodeBlock));
    assert_eq!(record::Type::CodeBlock.byte(), 6);
    assert_eq!(record::Type::try_from_u8(9), Ok(record::Type::FunctionImport));
    assert_eq!(record::Type::try_from_u8(10), Err(record::InvalidTypeError { value: 10 }));
}
