use sailar::binary::buffer::Pool;
use sailar::binary::LengthSize;
use sailar::block::{Builder, ConstantInteger, Value};
use sailar::function::{Body, Definition, ForeignBody, Flags, Kind, Signature};
use sailar::identifier::{Identifier, InvalidError, ParseError};
use sailar::instruction_set::Value as Operand;
use sailar::instruction_set::{
    ComparisonKind, Constant, Instruction, IntegerConstant, Opcode, OverflowBehavior,
};
use sailar::module::lookup::IndexMap;
use sailar::module::parser::{ErrorKind, Section};
use sailar::module::{
    Export, FormatVersion, Module, ModuleIdentifier, WriteError, MINIMUM_SUPPORTED_MAJOR,
    MINIMUM_SUPPORTED_MINOR,
};
use sailar::type_system::Any;
use std::sync::Arc;

fn id(text: &str) -> Identifier {
    Identifier::from_str(text).unwrap()
}

fn write(module: &Module) -> Vec<u8> {
    let mut bytes = Vec::new();
    module.write(&mut bytes, None).unwrap();
    bytes
}

fn exit_block(value: i32) -> Arc<sailar::block::Block> {
    let builder = Builder::new(vec![Any::S32], &[]);
    Arc::new(builder.emit_ret(vec![Value::integer(ConstantInteger::S32(value))]).unwrap())
}

fn defined(block: Arc<sailar::block::Block>, export: Export) -> Kind {
    Kind::Defined(Definition::new(Body::Defined(block), export))
}

fn foreign(library: &str, entry_point: &str, export: Export) -> Kind {
    Kind::Defined(Definition::new(
        Body::Foreign(Box::new(ForeignBody::new(Arc::new(id(library)), id(entry_point)))),
        export,
    ))
}

fn same_modules(left: &Module, right: &Module) {
    assert_eq!(left.format_version(), right.format_version());
    assert_eq!(left.identifier(), right.identifier());
    assert_eq!(left.function_definitions(), right.function_definitions());
}

#[test]
fn empty_module_bytes() {
    let module = Module::new(id("Test"), vec![1, 0]);
    let bytes = write(&module);
    let mut expected = b"SAILAR".to_vec();
    expected.extend_from_slice(&[0, 12, 0]);
    expected.extend_from_slice(&[8, 4]);
    expected.extend_from_slice(b"Test");
    expected.extend_from_slice(&[2, 1, 0]);
    // identifiers, type signatures, function signatures, data, code blocks, imports
    expected.extend_from_slice(&[0, 0, 0, 0, 0, 0]);
    // function definitions and four kinds of definitions of which there are none
    expected.extend_from_slice(&[0, 0, 0, 0, 0]);
    // struct and function instantiations, namespaces, debugging
    expected.extend_from_slice(&[0, 0, 0, 0]);
    assert_eq!(bytes, expected);

    let parsed = Module::parse(&bytes, None).unwrap();
    assert_eq!(parsed.identifier().name().as_bytes(), b"Test");
    assert_eq!(parsed.identifier().version(), &[1, 0]);
    assert_eq!(*parsed.format_version(), FormatVersion { major: 0, minor: 12 });
    assert_eq!(parsed.length_size(), LengthSize::One);
    assert!(parsed.function_definitions().is_empty());
    same_modules(&module, &parsed);
}

#[test]
fn raw_contents_of_a_new_module() {
    let mut module = Module::new(id("Testing"), vec![1, 2, 3]);
    let contents = module.raw_contents(None).unwrap().clone();
    assert_eq!(b"SAILAR", &contents[0..6]);
    let format_version = *module.format_version();
    assert_eq!(&[format_version.major, format_version.minor], &contents[6..8]);
    assert_eq!(LengthSize::One.tag(), contents[8]);
    assert_eq!(12, contents[9]);
    assert_eq!(7u8, contents[10]);
    assert_eq!(b"Testing", &contents[11..18]);
    assert_eq!(3u8, contents[18]);
    assert_eq!(&[1, 2, 3], &contents[19..22]);
    // asking again gives the bytes that were kept
    let pool = Pool::new();
    assert_eq!(module.raw_contents(Some(&pool)).unwrap(), &contents);
}

#[test]
fn minimum_supported_version() {
    let version = FormatVersion::new_minimum_supported();
    assert_eq!(version, FormatVersion { major: MINIMUM_SUPPORTED_MAJOR, minor: MINIMUM_SUPPORTED_MINOR });
    assert!(version.is_supported());
    assert!(!FormatVersion { major: 0, minor: 11 }.is_supported());
    assert!(FormatVersion { major: 1, minor: 0 }.is_supported());
}

#[test]
fn format_version_at_the_minimum_parses_and_one_below_is_refused() {
    let mut bytes = write(&Module::new(id("Test"), vec![1, 0]));
    assert!(Module::parse(&bytes, None).is_ok());
    bytes[7] = 11;
    let error = Module::parse(&bytes, None).unwrap_err();
    assert!(matches!(
        error.kind(),
        ErrorKind::UnsupportedFormatVersion(FormatVersion { major: 0, minor: 11 })
    ));
    assert_eq!(error.offset(), 6);
    bytes[6] = 1;
    bytes[7] = 0;
    let parsed = Module::parse(&bytes, None).unwrap();
    assert_eq!(*parsed.format_version(), FormatVersion { major: 1, minor: 0 });
}

#[test]
fn invalid_magic_is_reported_with_what_was_found() {
    let error = Module::parse(b"SAILOR\0\x0c\0", None).unwrap_err();
    assert_eq!(error.offset(), 0);
    match error.kind() {
        ErrorKind::InvalidMagic(invalid) => assert_eq!(invalid.actual(), b"SAILOR"),
        other => panic!("unexpected error {:?}", other),
    }
    let error = Module::parse(b"SAI", None).unwrap_err();
    match error.kind() {
        ErrorKind::InvalidMagic(invalid) => assert_eq!(invalid.actual(), b"SAI"),
        other => panic!("unexpected error {:?}", other),
    }
}

#[test]
fn truncated_input_is_reported_with_its_offset() {
    let bytes = write(&Module::new(id("Test"), vec![1, 0]));
    let cases: Vec<(usize, fn(&ErrorKind) -> bool, usize)> = vec![
        (6, |kind| matches!(kind, ErrorKind::MissingFormatVersion), 6),
        (7, |kind| matches!(kind, ErrorKind::MissingFormatVersion), 6),
        (8, |kind| matches!(kind, ErrorKind::MissingLengthSize), 8),
        (9, |kind| matches!(kind, ErrorKind::MissingHeaderSize), 9),
        (12, |kind| matches!(kind, ErrorKind::UnexpectedEnd), 10),
        (18, |kind| matches!(kind, ErrorKind::MissingSize(Section::Identifiers)), 18),
        (19, |kind| matches!(kind, ErrorKind::MissingSize(Section::TypeSignatures)), 19),
        (24, |kind| matches!(kind, ErrorKind::MissingCount(Section::FunctionDefinitions)), 24),
        (25, |kind| matches!(kind, ErrorKind::MissingSize(Section::StructDefinitions)), 25),
        (32, |kind| matches!(kind, ErrorKind::MissingSize(Section::Debugging)), 32),
    ];
    for (length, expected, offset) in cases {
        let error = Module::parse(&bytes[..length], None).unwrap_err();
        assert!(expected(error.kind()), "length {}: {:?}", length, error);
        assert_eq!(error.offset(), offset, "length {}", length);
    }
    assert!(Module::parse(&bytes[..33], None).is_ok());
}

#[test]
fn header_errors() {
    let mut bytes = write(&Module::new(id("Test"), vec![1, 0]));
    bytes[8] = 3;
    let error = Module::parse(&bytes, None).unwrap_err();
    assert!(matches!(error.kind(), ErrorKind::InvalidLengthSize(invalid) if invalid.value == 3));
    assert_eq!(error.offset(), 8);

    let mut bytes = write(&Module::new(id("Test"), vec![1, 0]));
    bytes[9] = 0;
    let error = Module::parse(&bytes, None).unwrap_err();
    assert!(matches!(error.kind(), ErrorKind::MissingModuleHeader));
    assert_eq!(error.offset(), 10);

    // A header of six bytes ends after the count of version numbers.
    let mut bytes = write(&Module::new(id("Test"), vec![1, 0]));
    bytes[9] = 6;
    let error = Module::parse(&bytes, None).unwrap_err();
    match error.kind() {
        ErrorKind::MissingModuleVersionNumber(missing) => assert_eq!(missing.index, 0),
        other => panic!("unexpected error {:?}", other),
    }
    assert_eq!(error.offset(), 16);

    // A header of five bytes ends before the count of version numbers.
    let mut bytes = write(&Module::new(id("Test"), vec![1, 0]));
    bytes[9] = 5;
    let error = Module::parse(&bytes, None).unwrap_err();
    assert!(matches!(error.kind(), ErrorKind::MissingModuleVersionLength));
    assert_eq!(error.offset(), 15);

    // A name with a NUL byte.
    let mut bytes = write(&Module::new(id("Test"), vec![1, 0]));
    bytes[12] = 0;
    let error = Module::parse(&bytes, None).unwrap_err();
    assert!(matches!(
        error.kind(),
        ErrorKind::InvalidIdentifier(ParseError::InvalidIdentifier(InvalidError::ContainsNull))
    ));
    assert_eq!(error.offset(), 11);
}

#[test]
fn a_section_that_is_not_read_yet_has_to_be_empty() {
    let mut bytes = write(&Module::new(id("Test"), vec![1, 0]));
    // the section of data
    bytes[21] = 1;
    let error = Module::parse(&bytes, None).unwrap_err();
    assert!(matches!(error.kind(), ErrorKind::UnsupportedSection(Section::Data)));
    assert_eq!(error.offset(), 21);
}

#[test]
fn bytes_behind_the_last_section_are_not_looked_at() {
    let mut bytes = write(&Module::new(id("Test"), vec![1, 0]));
    bytes.extend_from_slice(&[1, 2, 3]);
    assert!(Module::parse(&bytes, None).is_ok());
    let module = Module::from_vec(bytes.clone(), None).unwrap();
    let mut module = module;
    assert_eq!(module.raw_contents(None).unwrap(), &bytes);
}

#[test]
fn adding_a_function_twice_is_refused_and_leaves_the_first() {
    let mut module = Module::new(id("Test"), vec![]);
    let signature = Arc::new(Signature::new(vec![Any::S32], vec![]));
    let first = module
        .add_function(id("main"), signature.clone(), defined(exit_block(0), Export::Yes))
        .unwrap();
    assert_eq!(first.symbol().as_bytes(), b"main");
    let other = Arc::new(Signature::new(vec![], vec![Any::U8]));
    let error = module
        .add_function(id("main"), other, defined(exit_block(1), Export::No))
        .unwrap_err();
    assert_eq!(error.symbol().as_bytes(), b"main");
    match &error.0 {
        sailar::module::DefinedSymbol::Function(function) => {
            assert_eq!(function.signature(), &*signature);
        }
    }
    assert_eq!(module.function_definitions().len(), 1);
    let found = module.lookup(&id("main")).unwrap();
    assert_eq!(found.function().signature().result_types(), &[Any::S32]);
    assert_eq!(found.definition().is_export(), Export::Yes);
    assert!(module.lookup(&id("other")).is_none());
}

#[test]
fn definition_flags() {
    assert_eq!(Flags::none().bits(), 0);
    assert_eq!(Flags::export().bits(), 1);
    assert_eq!(Flags::foreign().bits(), 2);
    let definition = Definition::new(Body::Defined(exit_block(0)), Export::Yes);
    assert_eq!(definition.flags().bits(), 1);
    assert_eq!(definition.body().flags().bits(), 0);
    let definition = Definition::new(
        Body::Foreign(Box::new(ForeignBody::new(Arc::new(id("c")), id("exit")))),
        Export::Yes,
    );
    assert_eq!(definition.flags().bits(), 3);
    let definition = Definition::new(
        Body::Foreign(Box::new(ForeignBody::new(Arc::new(id("c")), id("exit")))),
        Export::No,
    );
    assert_eq!(definition.flags().bits(), 2);
}

fn sample_module() -> Module {
    let mut module = Module::new(id("sample"), vec![2, 300, 70000]);
    let unit_to_s32 = Arc::new(Signature::new(vec![Any::S32], vec![]));
    let binary = Arc::new(Signature::new(vec![Any::U8, Any::S64], vec![Any::S32, Any::S32]));
    module
        .add_function(id("main"), unit_to_s32.clone(), defined(exit_block(0), Export::Yes))
        .unwrap();
    module
        .add_function(id("other"), unit_to_s32.clone(), defined(exit_block(0), Export::No))
        .unwrap();
    module
        .add_function(id("five"), unit_to_s32, defined(exit_block(5), Export::No))
        .unwrap();
    module
        .add_function(id("puts"), binary.clone(), foreign("libc", "puts", Export::Yes))
        .unwrap();
    module
        .add_function(id("exit"), binary.clone(), foreign("libc", "exit", Export::No))
        .unwrap();
    module
        .add_function(id("log"), binary.clone(), foreign("libm", "log", Export::No))
        .unwrap();

    let mut builder = Builder::new(vec![Any::U8, Any::S64], &[Any::S32, Any::S32]);
    let inputs = builder.input_registers().to_vec();
    let sum = builder
        .emit_add_flagged(Value::Input(inputs[0]), Value::Input(inputs[1]))
        .unwrap();
    builder.emit_nop();
    let wide = builder.emit_const_i(ConstantInteger::S64(-3));
    let product = builder
        .emit_mul(Value::Temporary(wide), Value::integer(ConstantInteger::S64(i64::MIN)))
        .unwrap();
    builder.emit_break();
    let block = builder
        .emit_ret(vec![Value::Temporary(sum.flag_register()), Value::Temporary(product)])
        .unwrap();
    module
        .add_function(id("compute"), binary, defined(Arc::new(block), Export::Yes))
        .unwrap();
    module
}

#[test]
fn modules_are_read_back_as_written() {
    let module = sample_module();
    let bytes = write(&module);
    assert_eq!(bytes[8], LengthSize::Four.tag());
    let parsed = Module::parse(&bytes, None).unwrap();
    same_modules(&module, &parsed);
    assert_eq!(parsed.length_size(), LengthSize::Four);
    // writing what was read gives the bytes that were read
    assert_eq!(write(&parsed), bytes);
}

#[test]
fn writing_is_deterministic_with_and_without_a_pool() {
    let module = sample_module();
    let pool = Pool::new();
    let mut pooled = Vec::new();
    module.write(&mut pooled, Some(&pool)).unwrap();
    assert_eq!(pooled, write(&module));
    assert_eq!(write(&module), write(&module));
}

#[test]
fn write_appends_to_the_destination() {
    let module = Module::new(id("Test"), vec![1, 0]);
    let mut bytes = vec![9u8, 9];
    assert_eq!(module.write(&mut bytes, None), Ok(LengthSize::One));
    assert_eq!(&bytes[..2], &[9, 9]);
    assert_eq!(&bytes[2..], &write(&module)[..]);
}

#[test]
fn signatures_blocks_and_library_names_are_written_once() {
    let mut module = Module::new(id("m"), vec![]);
    let signature = Arc::new(Signature::new(vec![Any::S32], vec![]));
    module
        .add_function(id("a"), signature.clone(), defined(exit_block(0), Export::No))
        .unwrap();
    module
        .add_function(id("b"), signature.clone(), defined(exit_block(0), Export::No))
        .unwrap();
    let bytes = write(&module);
    // 6 magic, 3 prologue, header: size, 1 "m", 0
    let mut expected = b"SAILAR".to_vec();
    expected.extend_from_slice(&[0, 12, 0, 3, 1, b'm', 0]);
    // identifiers: none
    expected.push(0);
    // type signatures: one byte, one signature, s32
    expected.extend_from_slice(&[1, 1, 0x14]);
    // function signatures: three bytes, one signature: one result, no parameter, type 0
    expected.extend_from_slice(&[3, 1, 1, 0, 0]);
    // data
    expected.push(0);
    // code blocks: one block: no input, one result, no temporary, result type 0,
    // instructions: eight bytes, one instruction: ret, one value, constant, s32, 0
    expected.extend_from_slice(&[14, 1, 0, 1, 0, 0, 8, 1, 1, 1, 1, 0x14, 0, 0, 0, 0]);
    // imports
    expected.push(0);
    // definitions: two; flags, signature 0, symbol, block 0
    expected.extend_from_slice(&[2, 0, 0, 1, b'a', 0, 0, 0, 1, b'b', 0]);
    expected.extend_from_slice(&[0, 0, 0, 0]);
    expected.extend_from_slice(&[0, 0, 0, 0]);
    assert_eq!(bytes, expected);
    same_modules(&module, &Module::parse(&bytes, None).unwrap());
}

#[test]
fn the_smallest_size_that_fits_is_written() {
    let long = "n".repeat(300);
    let module = Module::new(id(&long), vec![]);
    let bytes = write(&module);
    assert_eq!(bytes[8], LengthSize::Two.tag());
    let parsed = Module::parse(&bytes, None).unwrap();
    assert_eq!(parsed.length_size(), LengthSize::Two);
    same_modules(&module, &parsed);

    let module = Module::new(id("n"), vec![255]);
    assert_eq!(write(&module)[8], LengthSize::One.tag());
    let module = Module::new(id("n"), vec![256]);
    assert_eq!(write(&module)[8], LengthSize::Two.tag());
    let module = Module::new(id("n"), vec![65536]);
    assert_eq!(write(&module)[8], LengthSize::Four.tag());
}

#[test]
fn a_length_that_no_size_holds_cannot_be_written() {
    if usize::BITS > 32 {
        let module = Module::new(id("n"), vec![1 << 32]);
        let mut bytes = vec![7u8];
        assert_eq!(module.write(&mut bytes, None), Err(WriteError::LengthTooLarge));
        assert_eq!(bytes, vec![7u8]);
    }
}

#[test]
fn the_length_size_of_a_module_grows_with_what_it_holds() {
    let mut module = Module::new(id("Test"), vec![1, 0]);
    assert_eq!(module.length_size(), LengthSize::One);
    let long = "f".repeat(256);
    module
        .add_function(
            id(&long),
            Arc::new(Signature::new(vec![], vec![])),
            defined(exit_block(0), Export::No),
        )
        .unwrap();
    assert_eq!(module.length_size(), LengthSize::Two);
    module
        .add_function(
            id("short"),
            Arc::new(Signature::new(vec![], vec![])),
            defined(exit_block(0), Export::No),
        )
        .unwrap();
    assert_eq!(module.length_size(), LengthSize::Two);
    assert_eq!(Module::new(id("Test"), vec![70000]).length_size(), LengthSize::Four);
}

#[test]
fn module_identifiers_are_compared_by_name_and_version() {
    let first = ModuleIdentifier::new(id("a"), vec![1, 2]);
    assert!(first.same(&ModuleIdentifier::new(id("a"), vec![1, 2])));
    assert!(!first.same(&ModuleIdentifier::new(id("a"), vec![1])));
    assert!(!first.same(&ModuleIdentifier::new(id("b"), vec![1, 2])));
    assert!(first.same(&first.duplicate()));
}

#[test]
fn an_index_that_refers_to_nothing_is_refused() {
    let mut module = Module::new(id("m"), vec![]);
    let signature = Arc::new(Signature::new(vec![Any::S32], vec![]));
    module
        .add_function(id("a"), signature, defined(exit_block(0), Export::No))
        .unwrap();
    let mut bytes = write(&module);
    // the index of the type of the result of the function signature
    assert_eq!(&bytes[17..22], &[3, 1, 1, 0, 0]);
    bytes[21] = 4;
    let error = Module::parse(&bytes, None).unwrap_err();
    assert!(matches!(
        error.kind(),
        ErrorKind::IndexOutOfBounds { section: Section::TypeSignatures, index: 4 }
    ));
    assert_eq!(error.offset(), bytes.len());

    let mut bytes = write(&module);
    // the index of the code block of the definition
    let block = bytes.len() - 9;
    assert_eq!(bytes[block], 0);
    bytes[block] = 1;
    let error = Module::parse(&bytes, None).unwrap_err();
    assert!(matches!(
        error.kind(),
        ErrorKind::IndexOutOfBounds { section: Section::CodeBlocks, index: 1 }
    ));
}

#[test]
fn two_definitions_with_one_symbol_are_refused() {
    let mut module = Module::new(id("m"), vec![]);
    let signature = Arc::new(Signature::new(vec![Any::S32], vec![]));
    module
        .add_function(id("a"), signature.clone(), defined(exit_block(0), Export::No))
        .unwrap();
    module
        .add_function(id("b"), signature, defined(exit_block(0), Export::No))
        .unwrap();
    let mut bytes = write(&module);
    let symbol = bytes.len() - 10;
    assert_eq!(bytes[symbol], b'b');
    bytes[symbol] = b'a';
    let error = Module::parse(&bytes, None).unwrap_err();
    assert!(matches!(error.kind(), ErrorKind::DuplicateSymbol { index: 1 }));
}

#[test]
fn unknown_opcodes_and_flags_are_refused() {
    let mut module = Module::new(id("m"), vec![]);
    let signature = Arc::new(Signature::new(vec![Any::S32], vec![]));
    module
        .add_function(id("a"), signature, defined(exit_block(0), Export::No))
        .unwrap();
    let bytes = write(&module);
    let opcode = bytes.iter().position(|byte| *byte == 8).unwrap() + 2;
    assert_eq!(bytes[opcode], 1);

    let mut changed = bytes.clone();
    changed[opcode] = 2;
    let error = Module::parse(&changed, None).unwrap_err();
    assert!(matches!(error.kind(), ErrorKind::InvalidOpcode(invalid) if invalid.value == 2));
    assert_eq!(error.offset(), opcode);

    let mut changed = bytes.clone();
    changed[opcode + 2] = 2;
    let error = Module::parse(&changed, None).unwrap_err();
    assert!(matches!(error.kind(), ErrorKind::InvalidValueFlags(2)));
    assert_eq!(error.offset(), opcode + 2);

    let mut changed = bytes.clone();
    let flags = bytes.len() - 13;
    assert_eq!(changed[flags], 0);
    changed[flags] = 4;
    let error = Module::parse(&changed, None).unwrap_err();
    assert!(matches!(error.kind(), ErrorKind::InvalidDefinitionFlags(4)));
    assert_eq!(error.offset(), flags);
}

#[test]
fn interning_is_idempotent() {
    let first = id("first");
    let second = id("second");
    let again = id("first");
    let mut map: IndexMap<'_, Identifier> = IndexMap::new();
    assert_eq!(map.get_or_insert(&first), 0);
    assert_eq!(map.get_or_insert(&first), 0);
    assert_eq!(map.len(), 1);
    assert_eq!(map.get_or_insert(&second), 1);
    assert_eq!(map.get_or_insert(&again), 0);
    assert_eq!(map.get_or_insert(&second), 1);
    assert_eq!(map.len(), 2);
    assert_eq!(map.into_keys(), vec![&first, &second]);
}

#[test]
fn types_are_interned_by_value() {
    let types = [Any::S32, Any::U8, Any::S32, Any::F64, Any::U8];
    let mut map: IndexMap<'_, Any> = IndexMap::new();
    let indices: Vec<usize> = types.iter().map(|value_type| map.get_or_insert(value_type)).collect();
    assert_eq!(indices, vec![0, 1, 0, 2, 1]);
    assert_eq!(map.into_keys(), vec![&Any::S32, &Any::U8, &Any::F64]);
}

#[test]
fn modules_are_the_same_but_for_bodies_and_order() {
    let signature = Arc::new(Signature::new(vec![Any::S32], vec![]));
    let other = Arc::new(Signature::new(vec![Any::S32], vec![Any::U8]));
    let make = |functions: &[(&str, &Arc<Signature>, i32)]| {
        let mut module = Module::new(id("m"), vec![1, 2]);
        for (symbol, signature, value) in functions {
            module
                .add_function(id(symbol), (*signature).clone(), defined(exit_block(*value), Export::No))
                .unwrap();
        }
        module
    };
    let module = make(&[("a", &signature, 0), ("b", &other, 1)]);
    assert!(module.same(&module));
    // the order and the bodies are not compared
    assert!(module.same(&make(&[("b", &other, 7), ("a", &signature, 8)])));
    // the symbols and the signatures are
    assert!(!module.same(&make(&[("a", &signature, 0), ("c", &other, 1)])));
    assert!(!module.same(&make(&[("a", &other, 0), ("b", &other, 1)])));
    assert!(!module.same(&make(&[("a", &signature, 0)])));
    assert!(!make(&[("a", &signature, 0)]).same(&module));
    // and so are the name and the version
    let mut renamed = Module::new(id("n"), vec![1, 2]);
    renamed.add_function(id("a"), signature.clone(), defined(exit_block(0), Export::No)).unwrap();
    assert!(!renamed.same(&make(&[("a", &signature, 0)])));
    assert!(!Module::new(id("m"), vec![1]).same(&Module::new(id("m"), vec![1, 0])));

    // what is read back is the same as what was written
    let read = Module::parse(&write(&module), None).unwrap();
    assert!(read.same(&module));
    assert!(module.same(&read));
}

#[test]
fn signatures_as_text() {
    assert_eq!(Signature::new(vec![], vec![]).message(), "() -> ()");
    assert_eq!(Signature::new(vec![Any::S32], vec![]).message(), "() -> (s32)");
    assert_eq!(
        Signature::new(vec![Any::U8, Any::F64], vec![Any::S32, Any::UNative, Any::S8]).message(),
        "(s32, unative, s8) -> (u8, f64)"
    );
}

#[test]
fn the_length_size_is_read_back_as_it_was_written() {
    // a block with more inputs than a byte counts
    let inputs = vec![Any::U8; 256];
    let builder = Builder::new(vec![Any::S32], &inputs);
    let block = builder.emit_ret(vec![Value::integer(ConstantInteger::S32(0))]).unwrap();
    let mut module = Module::new(id("wide"), vec![]);
    assert_eq!(module.length_size(), LengthSize::One);
    module
        .add_function(
            id("f"),
            Arc::new(Signature::new(vec![Any::S32], inputs.clone())),
            defined(Arc::new(block), Export::No),
        )
        .unwrap();
    assert_eq!(module.length_size(), LengthSize::Two);
    let bytes = write(&module);
    assert_eq!(bytes[8], LengthSize::Two.tag());
    let parsed = Module::parse(&bytes, None).unwrap();
    assert_eq!(parsed.length_size(), module.length_size());
    same_modules(&module, &parsed);
}

#[test]
fn blocks_that_end_in_a_branch_are_read_back_as_written() {
    let register = |index: usize| Operand::IndexedRegister(index);
    let constant = |value: u8| Operand::Constant(Constant::Integer(IntegerConstant::U8(value)));
    let endings = vec![
        Instruction::Br { target: 1, inputs: vec![register(0), constant(3)] },
        Instruction::BrIf {
            condition: register(1),
            true_branch: 2,
            false_branch: 300,
            inputs: vec![constant(9)],
        },
        Instruction::Switch {
            comparison: register(0),
            default_target: 0,
            targets: vec![(IntegerConstant::U8(1), 1), (IntegerConstant::S32(-2), 2)],
        },
        Instruction::Switch { comparison: constant(7), default_target: 4, targets: vec![] },
    ];
    assert_eq!(
        endings.iter().map(|ending| ending.opcode()).collect::<Vec<_>>(),
        vec![Opcode::Br, Opcode::BrIf, Opcode::Switch, Opcode::Switch]
    );
    let mut module = Module::new(id("branches"), vec![]);
    for (index, ending) in endings.iter().enumerate() {
        assert!(ending.is_terminator());
        assert_eq!(ending.return_count(5), 0);
        assert!(ending.same(&ending.duplicate()));
        let block = sailar::block::Block::from_parts(
            vec![Any::U8, Any::U8],
            vec![],
            vec![],
            vec![Instruction::Nop, ending.duplicate()],
        );
        module
            .add_function(
                id(&format!("f{}", index)),
                Arc::new(Signature::new(vec![], vec![Any::U8, Any::U8])),
                defined(Arc::new(block), Export::No),
            )
            .unwrap();
    }
    assert!(!endings[0].same(&endings[1]));
    assert!(!endings[2].same(&endings[3]));

    let bytes = write(&module);
    // the second block of 300 needs two bytes
    assert_eq!(bytes[8], LengthSize::Two.tag());
    let parsed = Module::parse(&bytes, None).unwrap();
    same_modules(&module, &parsed);
    for (index, ending) in endings.iter().enumerate() {
        match parsed.function_definitions()[index].definition().body() {
            Body::Defined(block) => {
                assert_eq!(block.instructions(), &[Instruction::Nop, ending.duplicate()])
            }
            other => panic!("unexpected body {:?}", other),
        }
    }
    assert_eq!(write(&parsed), bytes);

    // the bytes of `br 1 with %0, 3`: opcode, block, count, register, constant
    let mut single = Module::new(id("b"), vec![]);
    single
        .add_function(
            id("f"),
            Arc::new(Signature::new(vec![], vec![])),
            defined(
                Arc::new(sailar::block::Block::from_parts(
                    vec![Any::U8],
                    vec![],
                    vec![],
                    vec![endings[0].duplicate()],
                )),
                Export::No,
            ),
        )
        .unwrap();
    let bytes = write(&single);
    let expected = [5u8, 1, 2, 0, 0, 1, 1, 3];
    assert!(bytes.windows(expected.len()).any(|window| window == expected));
}

#[test]
fn conversions_and_comparisons_are_read_back_as_written() {
    let register = |index: usize| Operand::IndexedRegister(index);
    let conversion = Instruction::ConvI {
        target_type: Any::S64,
        overflow: OverflowBehavior::Flag,
        operand: register(0),
    };
    let plain = Instruction::ConvI {
        target_type: Any::U8,
        overflow: OverflowBehavior::Ignore,
        operand: register(0),
    };
    let comparison = Instruction::Cmp {
        x: register(0),
        kind: ComparisonKind::LessThanOrEqual,
        y: Operand::Constant(Constant::Integer(IntegerConstant::U8(9))),
    };
    assert_eq!(conversion.opcode(), Opcode::ConvI);
    assert_eq!(comparison.opcode(), Opcode::Cmp);
    assert_eq!(conversion.return_count(0), 2);
    assert_eq!(plain.return_count(0), 1);
    assert_eq!(comparison.return_count(0), 1);
    assert!(!conversion.is_terminator() && !comparison.is_terminator());
    assert!(conversion.same(&conversion.duplicate()));
    assert!(!conversion.same(&plain));

    let block = sailar::block::Block::from_parts(
        vec![Any::U8],
        vec![],
        vec![Any::S64, Any::U8, Any::U8, Any::U8],
        vec![
            conversion.duplicate(),
            plain.duplicate(),
            comparison.duplicate(),
            Instruction::Ret(vec![]),
        ],
    );
    let mut module = Module::new(id("c"), vec![]);
    module
        .add_function(
            id("f"),
            Arc::new(Signature::new(vec![], vec![Any::U8])),
            defined(Arc::new(block), Export::No),
        )
        .unwrap();
    let bytes = write(&module);
    // conv.i: opcode 33, the tag of s64, flag, register 0
    let expected = [33u8, 0x18, 1, 0, 0];
    let at = bytes.windows(expected.len()).position(|window| window == expected).unwrap();
    // cmp: opcode 27, the kind, register 0, the constant
    let expected = [27u8, 4, 0, 0, 1, 0x01, 9];
    let compared = bytes.windows(expected.len()).position(|window| window == expected).unwrap();
    let parsed = Module::parse(&bytes, None).unwrap();
    same_modules(&module, &parsed);

    // a byte that names no overflow behavior, and one that names no comparison
    let mut changed = bytes.clone();
    changed[at + 2] = 3;
    let error = Module::parse(&changed, None).unwrap_err();
    assert!(matches!(error.kind(), ErrorKind::InvalidOverflowBehavior(3)));
    assert_eq!(error.offset(), at + 2);
    let mut changed = bytes.clone();
    changed[compared + 1] = 6;
    let error = Module::parse(&changed, None).unwrap_err();
    assert!(matches!(error.kind(), ErrorKind::InvalidComparisonKind(6)));
    assert_eq!(error.offset(), compared + 1);
    assert_eq!(error.kind().message(), "the comparison kind 6 is not valid");
}

#[test]
fn fields_and_allocations_are_read_back_as_written() {
    let field = Instruction::Field { field: 3, object: Operand::IndexedRegister(0) };
    let alloca = Instruction::Alloca {
        amount: Operand::Constant(Constant::Integer(IntegerConstant::U8(4))),
        element_type: 0,
    };
    assert_eq!(field.opcode(), Opcode::Field);
    assert_eq!(alloca.opcode(), Opcode::Alloca);
    assert_eq!(field.return_count(9), 1);
    assert_eq!(alloca.return_count(9), 1);
    assert!(field.same(&field.duplicate()) && !field.same(&alloca));
    let block = sailar::block::Block::from_parts(
        vec![Any::U64],
        vec![],
        vec![Any::U64, Any::U64],
        vec![field.duplicate(), alloca.duplicate(), Instruction::Ret(vec![])],
    );
    let mut module = Module::new(id("m"), vec![]);
    module
        .add_function(
            id("f"),
            Arc::new(Signature::new(vec![], vec![Any::U64])),
            defined(Arc::new(block), Export::No),
        )
        .unwrap();
    let bytes = write(&module);
    // field: opcode 35, the field, register 0; alloca: opcode 253, the type, the constant
    let expected = [35u8, 3, 0, 0, 253, 0, 1, 0x01, 4];
    assert!(bytes.windows(expected.len()).any(|window| window == expected));
    let parsed = Module::parse(&bytes, None).unwrap();
    same_modules(&module, &parsed);
    assert_eq!(write(&parsed), bytes);
}
