use sailar::binary::record::Export;
use sailar::block::{
    Builder, ConstantInteger, ExpectedTypeError, ExpectedTypeErrorKind, ValidationError, Value,
};
use sailar::diagnostics::{bytes_number_text, decimal};
use sailar::function::{Body, Definition, Kind, Signature};
use sailar::identifier::{Identifier, InvalidError, ParseError};
use sailar::loader::error::LoaderError;
use sailar::loader::symbol::{FunctionSymbol, Lookup, Symbol};
use sailar::module::parser::Section;
use sailar::module::{Module, ModuleIdentifier, WriteError};
use sailar::type_system::Any;
use sailar::validation;
use std::sync::Arc;

#[test]
fn numbers_in_decimal() {
    assert_eq!(decimal(0), "0");
    assert_eq!(decimal(7), "7");
    assert_eq!(decimal(10), "10");
    assert_eq!(decimal(1234567890), "1234567890");
    assert_eq!(decimal(usize::MAX), usize::MAX.to_string());
    assert_eq!(bytes_number_text(&[]), "");
    assert_eq!(bytes_number_text(&[0, 255, 16]), " 0 255 16");
}

#[test]
fn validation_errors_as_text() {
    let builder = Builder::new(vec![Any::S32], &[]);
    let error = builder.emit_ret(vec![Value::integer(ConstantInteger::U8(5))]).unwrap_err();
    assert_eq!(error.message(), "expected result at index 0 to be of type s32 but got u8");
    assert_eq!(ValidationError::EmptyBlock.message(), "code blocks must not be empty");
    assert_eq!(
        ValidationError::ResultCountMismatch { expected: 1, actual: 12 }.message(),
        "expected 1 results but got 12"
    );
    assert_eq!(
        ValidationError::ArgumentCountMismatch { expected: 2, actual: 1 }.message(),
        "expected 2 arguments but got 1"
    );
    assert_eq!(
        ValidationError::ArgumentTypeMismatch { expected: Any::F64, actual: Any::UNative, index: 3 }
            .message(),
        "expected argument at index 3 to be of type f64, but got unative"
    );
    assert_eq!(
        ValidationError::ExpectedType(ExpectedTypeError {
            actual: Any::F32,
            kind: ExpectedTypeErrorKind::ExpectedInteger
        })
        .message(),
        "expected integer type but got f32"
    );
    assert_eq!(
        ValidationError::ExpectedType(ExpectedTypeError {
            actual: Any::U16,
            kind: ExpectedTypeErrorKind::Expected(Any::S64)
        })
        .message(),
        "expected s64 but got u16"
    );
}

#[test]
fn parse_errors_as_text() {
    let error = Module::parse(b"SAILAR", None).unwrap_err();
    assert_eq!(error.message(), "error at offset 6, expected format version but got EOF");
    let error = Module::parse(b"SAILOR...", None).unwrap_err();
    assert_eq!(
        error.message(),
        "error at offset 0, expected magic 83 65 73 76 65 82, but got 83 65 73 76 79 82"
    );
    let error = Module::parse(b"SAILAR\x00\x0b\x00", None).unwrap_err();
    assert_eq!(error.message(), "error at offset 6, the format version 0.11 is not supported");
    let error = Module::parse(b"SAILAR\x00\x0c\x07", None).unwrap_err();
    assert_eq!(error.message(), "error at offset 8, the length size value 7 is not valid");
    let error = Module::parse(b"SAILAR\x00\x0c\x00\x03\x01a\x00", None).unwrap_err();
    assert_eq!(
        error.message(),
        "error at offset 13, expected byte size of identifiers but got EOF"
    );
    let error = Module::parse(b"SAILAR\x00\x0c\x00\x03\x01\x00\x00", None).unwrap_err();
    assert_eq!(
        error.message(),
        "error at offset 11, invalid identifier, identifiers cannot contain null bytes"
    );
    assert_eq!(ParseError::InvalidSequence.message(), "identifiers must be valid UTF-8");
    assert_eq!(InvalidError::Empty.message(), "identifiers cannot be empty");
    assert_eq!(Section::Debugging.name(), "debugging information");
}

#[test]
fn other_errors_as_text() {
    assert_eq!(
        WriteError::LengthTooLarge.message(),
        "a length of the module is too large and cannot be written"
    );
    assert_eq!(
        validation::ErrorKind::IndexOutOfBounds { section: Section::CodeBlocks, index: 4 }.message(),
        "the index 4 is out of the bounds of the code blocks"
    );
    assert_eq!(
        LoaderError::IndexOutOfBounds { section: Section::TypeSignatures, index: 9 }.message(),
        "attempted load with index 9, which is out of the bounds of the type signatures"
    );
    let module = ModuleIdentifier::new(Identifier::from_str("Helper").unwrap(), vec![1]);
    assert_eq!(
        LoaderError::ModuleNotFound(module.duplicate()).message(),
        "the module Helper could not be found"
    );
    assert_eq!(
        LoaderError::SymbolNotFound { module, symbol: Identifier::from_str("f").unwrap() }.message(),
        "the module Helper does not export the symbol f"
    );
    assert_eq!(LoaderError::InvalidPointerSize(3).message(), "the pointer size 3 is not valid");
    assert_eq!(LoaderError::ModuleNotLoaded(2).message(), "no module with the number 2 is loaded");
    assert_eq!(
        LoaderError::DuplicateSymbol(Identifier::from_str("main").unwrap()).message(),
        "a definition corresponding to the symbol main already exists"
    );
}

#[test]
fn duplicate_symbols_as_text() {
    let mut module = Module::new(Identifier::from_str("m").unwrap(), vec![]);
    let signature = Arc::new(Signature::new(vec![], vec![]));
    let block = Arc::new(Builder::new(vec![], &[]).emit_ret(vec![]).unwrap());
    let kind = |block: &Arc<sailar::block::Block>| {
        Kind::Defined(Definition::new(Body::Defined(block.clone()), sailar::module::Export::No))
    };
    module
        .add_function(Identifier::from_str("main").unwrap(), signature.clone(), kind(&block))
        .unwrap();
    let error = module
        .add_function(Identifier::from_str("main").unwrap(), signature, kind(&block))
        .unwrap_err();
    assert_eq!(
        error.message(),
        "a definition corresponding to the symbol \"main\" already exists"
    );

    let mut lookup = Lookup::new();
    let symbol = |definition| {
        Symbol::Function(
            FunctionSymbol::new(Export::new_export(Identifier::from_str("é").unwrap()), definition, 0)
                .unwrap(),
        )
    };
    lookup.try_insert(symbol(0)).unwrap();
    assert_eq!(
        lookup.try_insert(symbol(1)).unwrap_err().message(),
        "a definition corresponding to the symbol \"é\" already exists"
    );
}
