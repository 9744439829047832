use sailar::binary::record::{
    CodeBlock, Export, FunctionBody, FunctionDefinition, FunctionImport, FunctionInstantiation,
    MetadataField, Record,
};
use sailar::binary::signature;
use sailar::block::{Builder, ConstantInteger, Value};
use sailar::function::{Body, Definition, Kind, Signature};
use sailar::identifier::Identifier;
use sailar::instruction_set;
use sailar::instruction_set::Instruction;
use sailar::loader::error::LoaderError;
use sailar::loader::function::{Body as LoadedBody, Template};
use sailar::loader::module::Module as LoadedModule;
use sailar::loader::symbol::{is_export_private, FunctionSymbol, Lookup, Symbol};
use sailar::loader::{Loader, NativeIntegerType, Resolver};
use sailar::module::parser::ErrorKind as Refusal;
use sailar::module::parser::Section;
use sailar::module::resolve::resolve;
use sailar::module::{Module, ModuleIdentifier};
use sailar::type_system::Any;
use sailar::validation::{ErrorKind, ModuleContents, ValidModule};
use std::sync::Arc;

fn id(text: &str) -> Identifier {
    Identifier::from_str(text).unwrap()
}

fn name(text: &str, version: Vec<usize>) -> Record {
    Record::MetadataField(MetadataField::ModuleIdentifier { name: id(text), version })
}

fn ret_s32(value: i32) -> Instruction {
    Instruction::Ret(vec![instruction_set::Value::Constant(instruction_set::Constant::Integer(
        instruction_set::IntegerConstant::S32(value),
    ))])
}

fn definition(export: Export, signature: usize, block: usize) -> Record {
    Record::FunctionDefinition(Box::new(FunctionDefinition::new(
        export,
        signature,
        FunctionBody::Definition(block),
    )))
}

/// A program whose one function returns the given exit code.
fn exit_with(program: &str, exit_code: i32) -> Vec<Record> {
    vec![
        name(program, vec![1, 0]),
        Record::TypeSignature(Any::S32),
        Record::FunctionSignature(signature::Function::new(vec![0], vec![])),
        Record::CodeBlock(Box::new(CodeBlock::new(vec![], vec![0], vec![], vec![ret_s32(exit_code)]))),
        definition(Export::new_export(id("main")), 0, 0),
        Record::FunctionInstantiation(FunctionInstantiation::from_template(0)),
        Record::MetadataField(MetadataField::EntryPoint(0)),
    ]
}

struct Library {
    modules: Vec<(ModuleIdentifier, Vec<Record>)>,
    asked: Vec<Vec<u8>>,
}

impl Resolver for Library {
    fn resolve(&mut self, identifier: &ModuleIdentifier) -> Option<Vec<Record>> {
        self.asked.push(identifier.name().as_bytes().to_vec());
        self.modules
            .iter()
            .find(|(known, _)| known == identifier)
            .map(|(_, records)| records.clone())
    }
}

#[test]
fn exit_with_zero_is_written_read_and_loaded() {
    let mut module = Module::new(id("true"), vec![1, 0]);
    let builder = Builder::new(vec![Any::S32], &[]);
    let block = builder.emit_ret(vec![Value::integer(ConstantInteger::S32(0))]).unwrap();
    module
        .add_function(
            id("main"),
            Arc::new(Signature::new(vec![Any::S32], vec![])),
            Kind::Defined(Definition::new(Body::Defined(Arc::new(block)), sailar::module::Export::Yes)),
        )
        .unwrap();
    let mut bytes = Vec::new();
    module.write(&mut bytes, None).unwrap();
    let parsed = Module::parse(&bytes, None).unwrap();

    let mut loader = Loader::initialize((), 8, parsed.records()).unwrap();
    let program = loader.module(0).unwrap();
    assert!(!program.is_anonymous());
    assert_eq!(program.module_identifier().unwrap().name().as_bytes(), b"true");
    let main = match program.symbols().get(&id("main")).unwrap() {
        Symbol::Function(function) => function.definition(),
    };
    let signature = loader.definition_signature(0, main).unwrap();
    assert_eq!(signature.result_types(), &[Any::S32]);
    assert_eq!(signature.parameter_types(), &[] as &[Any]);
    match loader.definition_body(0, main).unwrap() {
        LoadedBody::Defined(code) => {
            assert_eq!(code.result_types(), &[Any::S32]);
            match code.instructions().last().unwrap() {
                Instruction::Ret(values) => {
                    assert_eq!(
                        values,
                        &vec![instruction_set::Value::Constant(instruction_set::Constant::Integer(
                            instruction_set::IntegerConstant::S32(0)
                        ))]
                    );
                }
                other => panic!("unexpected instruction {:?}", other),
            }
        }
        other => panic!("unexpected body {:?}", other),
    }
}

#[test]
fn records_of_a_sample_program_are_loaded() {
    let mut loader = Loader::initialize((), 4, exit_with("exit", 42)).unwrap();
    let module = loader.module(0).unwrap();
    assert_eq!(module.handle(), 0);
    assert_eq!(module.entry_point(), Some(0));
    assert_eq!(module.function_definitions().len(), 1);
    assert_eq!(module.function_instantiations().len(), 1);
    assert_eq!(module.identifiers().len(), 0);
    assert_eq!(
        loader.get_function_template(0, 0).unwrap(),
        Template { module: 0, definition: 0 }
    );
    match loader.definition_body(0, 0).unwrap() {
        LoadedBody::Defined(code) => assert_eq!(code.instructions(), &[ret_s32(42)]),
        other => panic!("unexpected body {:?}", other),
    }
}

#[test]
fn duplicate_symbols_are_refused_and_the_first_stays() {
    let records = vec![
        name("twice", vec![]),
        Record::TypeSignature(Any::S32),
        Record::FunctionSignature(signature::Function::new(vec![0], vec![])),
        Record::FunctionSignature(signature::Function::new(vec![], vec![0])),
        Record::CodeBlock(Box::new(CodeBlock::new(vec![], vec![0], vec![], vec![ret_s32(0)]))),
        definition(Export::new_export(id("main")), 0, 0),
        definition(Export::new_export(id("main")), 1, 0),
    ];
    let error = LoadedModule::from_source(records.clone(), 0).unwrap_err();
    assert_eq!(error.symbol().name().as_bytes(), b"main");
    assert!(!error.symbol().is_private());
    match error.symbol() {
        Symbol::Function(function) => assert_eq!(function.definition(), 0),
    }
    assert!(Loader::initialize((), 8, records).is_err());
}

#[test]
fn private_and_hidden_definitions() {
    let records = vec![
        Record::TypeSignature(Any::S32),
        Record::FunctionSignature(signature::Function::new(vec![0], vec![])),
        Record::CodeBlock(Box::new(CodeBlock::new(vec![], vec![0], vec![], vec![ret_s32(0)]))),
        definition(Export::new_private(id("helper")), 0, 0),
        definition(Export::Hidden, 0, 0),
        definition(Export::Hidden, 0, 0),
        definition(Export::new_export(id("main")), 0, 0),
    ];
    let module = LoadedModule::from_source(records, 3).unwrap();
    assert!(module.is_anonymous());
    let symbols = module.symbols();
    assert_eq!(symbols.iter().len(), 2);
    let helper = symbols.get(&id("helper")).unwrap();
    assert!(helper.is_private());
    assert_eq!(helper.module(), 3);
    assert_eq!(helper.name().as_bytes(), b"helper");
    assert!(is_export_private(helper.export()));
    let main = symbols.get(&id("main")).unwrap();
    assert!(!main.is_private());
    match main {
        Symbol::Function(function) => assert_eq!(function.definition(), 3),
    }
    assert!(symbols.get(&id("other")).is_none());
}

#[test]
fn symbol_insertion_keeps_the_first_of_a_name() {
    let mut lookup = Lookup::new();
    let first = FunctionSymbol::new(Export::new_export(id("main")), 0, 0).unwrap();
    let second = FunctionSymbol::new(Export::new_private(id("main")), 1, 0).unwrap();
    let other = FunctionSymbol::new(Export::new_private(id("other")), 2, 0).unwrap();
    assert!(FunctionSymbol::new(Export::Hidden, 3, 0).is_none());
    assert!(lookup.try_insert(Symbol::Function(first)).is_ok());
    let error = lookup.try_insert(Symbol::Function(second)).unwrap_err();
    assert_eq!(error.symbol().name().as_bytes(), b"main");
    assert!(!error.symbol().is_private());
    assert!(lookup.try_insert(Symbol::Function(other)).is_ok());
    assert_eq!(lookup.iter().len(), 2);
    let found = lookup.get(&id("main")).unwrap();
    assert!(!found.is_private());
    match found {
        Symbol::Function(function) => assert_eq!(function.definition(), 0),
    }
}

#[test]
fn asking_again_gives_the_same_answer() {
    let records = vec![
        Record::TypeSignature(Any::S32),
        Record::FunctionSignature(signature::Function::new(vec![0], vec![0, 0])),
        Record::FunctionSignature(signature::Function::new(vec![0], vec![7])),
        Record::CodeBlock(Box::new(CodeBlock::new(vec![0], vec![0], vec![0, 0], vec![ret_s32(1)]))),
        Record::CodeBlock(Box::new(CodeBlock::new(vec![0], vec![9], vec![8], vec![ret_s32(1)]))),
    ];
    let mut loader = Loader::initialize((), 8, records).unwrap();
    let first = loader.function_signature(0, 0).unwrap();
    let second = loader.function_signature(0, 0).unwrap();
    assert!(Arc::ptr_eq(&first, &second));
    assert_eq!(first.parameter_types(), &[Any::S32, Any::S32]);

    for _ in 0..2 {
        match loader.function_signature(0, 1).unwrap_err() {
            LoaderError::IndexOutOfBounds { section: Section::TypeSignatures, index: 7 } => {}
            other => panic!("unexpected error {:?}", other),
        }
        match loader.function_signature(0, 2).unwrap_err() {
            LoaderError::IndexOutOfBounds { section: Section::FunctionSignatures, index: 2 } => {}
            other => panic!("unexpected error {:?}", other),
        }
        match loader.code_block(0, 1).unwrap_err() {
            LoaderError::IndexOutOfBounds { section: Section::TypeSignatures, index: 9 } => {}
            other => panic!("unexpected error {:?}", other),
        }
        match loader.code_block(1, 0).unwrap_err() {
            LoaderError::ModuleNotLoaded(1) => {}
            other => panic!("unexpected error {:?}", other),
        }
    }
    let first = loader.code_block(0, 0).unwrap();
    let second = loader.code_block(0, 0).unwrap();
    assert!(Arc::ptr_eq(&first, &second));
    assert_eq!(first.temporary_types(), &[Any::S32, Any::S32]);
}

fn helper_library() -> Vec<Record> {
    vec![
        name("B", vec![1]),
        Record::TypeSignature(Any::S32),
        Record::FunctionSignature(signature::Function::new(vec![0], vec![])),
        Record::CodeBlock(Box::new(CodeBlock::new(vec![], vec![0], vec![], vec![ret_s32(7)]))),
        definition(Export::new_private(id("Hidden")), 0, 0),
        definition(Export::new_export(id("Helper")), 0, 0),
    ]
}

fn importer() -> Vec<Record> {
    vec![
        name("A", vec![1]),
        Record::TypeSignature(Any::S32),
        Record::FunctionSignature(signature::Function::new(vec![0], vec![])),
        Record::CodeBlock(Box::new(CodeBlock::new(vec![], vec![0], vec![], vec![ret_s32(0)]))),
        definition(Export::new_export(id("main")), 0, 0),
        Record::FunctionImport(Box::new(FunctionImport::new(
            ModuleIdentifier::new(id("B"), vec![1]),
            id("Helper"),
            0,
        ))),
        Record::FunctionImport(Box::new(FunctionImport::new(
            ModuleIdentifier::new(id("B"), vec![1]),
            id("Hidden"),
            0,
        ))),
        Record::FunctionImport(Box::new(FunctionImport::new(
            ModuleIdentifier::new(id("C"), vec![]),
            id("Helper"),
            0,
        ))),
        Record::FunctionInstantiation(FunctionInstantiation::from_template(0)),
        Record::FunctionInstantiation(FunctionInstantiation::from_template(1)),
        Record::FunctionInstantiation(FunctionInstantiation::from_template(2)),
        Record::FunctionInstantiation(FunctionInstantiation::from_template(3)),
        Record::FunctionInstantiation(FunctionInstantiation::from_template(4)),
    ]
}

#[test]
fn imports_are_resolved_across_modules_and_kept() {
    let library = Library {
        modules: vec![(ModuleIdentifier::new(id("B"), vec![1]), helper_library())],
        asked: Vec::new(),
    };
    let mut loader = Loader::initialize(library, 8, importer()).unwrap();
    assert_eq!(loader.resolver_invocations(), 0);
    assert!(loader.lookup_module(&ModuleIdentifier::new(id("B"), vec![1])).is_none());

    // the first access loads B and finds the definition
    let first = loader.get_function_template(0, 1).unwrap();
    assert_eq!(first, Template { module: 1, definition: 1 });
    assert_eq!(loader.resolver_invocations(), 1);
    assert_eq!(loader.lookup_module(&ModuleIdentifier::new(id("B"), vec![1])), Some(1));
    match loader.definition_body(first.module, first.definition).unwrap() {
        LoadedBody::Defined(code) => assert_eq!(code.instructions(), &[ret_s32(7)]),
        other => panic!("unexpected body {:?}", other),
    }

    // the second access gives the same without asking the resolver
    let second = loader.get_function_template(0, 1).unwrap();
    assert_eq!(second, first);
    assert_eq!(loader.resolver_invocations(), 1);
    assert_eq!(loader.state().len(), 2);

    // a definition of the own module
    assert_eq!(
        loader.get_function_template(0, 0).unwrap(),
        Template { module: 0, definition: 0 }
    );

    // a private symbol is not exported; B is loaded already
    for _ in 0..2 {
        match loader.get_function_template(0, 2).unwrap_err() {
            LoaderError::SymbolNotFound { module, symbol } => {
                assert_eq!(module, ModuleIdentifier::new(id("B"), vec![1]));
                assert_eq!(symbol, id("Hidden"));
            }
            other => panic!("unexpected error {:?}", other),
        }
        assert_eq!(loader.resolver_invocations(), 1);
    }

    // a module that cannot be found: the error is kept, the resolver is asked once
    for _ in 0..2 {
        match loader.get_function_template(0, 3).unwrap_err() {
            LoaderError::ModuleNotFound(module) => {
                assert_eq!(module, ModuleIdentifier::new(id("C"), vec![]));
            }
            other => panic!("unexpected error {:?}", other),
        }
        assert_eq!(loader.resolver_invocations(), 2);
    }

    // an instantiation that refers to nothing
    match loader.get_function_template(0, 4).unwrap_err() {
        LoaderError::IndexOutOfBounds { section: Section::Imports, index: 3 } => {}
        other => panic!("unexpected error {:?}", other),
    }
    match loader.get_function_template(0, 5).unwrap_err() {
        LoaderError::IndexOutOfBounds { section: Section::FunctionInstantiations, index: 5 } => {}
        other => panic!("unexpected error {:?}", other),
    }
    match loader.get_function_template(9, 0).unwrap_err() {
        LoaderError::ModuleNotLoaded(9) => {}
        other => panic!("unexpected error {:?}", other),
    }
}

#[test]
fn load_asks_the_resolver_once_for_each_module() {
    let library = Library {
        modules: vec![
            (ModuleIdentifier::new(id("B"), vec![1]), helper_library()),
            (ModuleIdentifier::new(id("wrong"), vec![]), helper_library()),
        ],
        asked: Vec::new(),
    };
    let mut loader = Loader::new(library, 8);
    let b = ModuleIdentifier::new(id("B"), vec![1]);
    assert_eq!(loader.load(&b).unwrap(), 0);
    assert_eq!(loader.load(&b).unwrap(), 0);
    assert_eq!(loader.resolver_invocations(), 1);
    // what the resolver finds has to be the module that was asked for
    let wrong = ModuleIdentifier::new(id("wrong"), vec![]);
    assert!(matches!(loader.load(&wrong).unwrap_err(), LoaderError::ModuleNotFound(_)));
    assert_eq!(loader.state().len(), 1);
    // forced loading does not ask whether the module is there already
    assert_eq!(loader.force_load(helper_library()).unwrap(), 1);
    assert_eq!(loader.lookup_module(&b), Some(0));
}

#[test]
fn functions_are_looked_up_in_all_modules() {
    let mut loader = Loader::new((), 8);
    loader.force_load(helper_library()).unwrap();
    loader.force_load(exit_with("one", 1)).unwrap();
    loader.force_load(importer()).unwrap();
    assert_eq!(
        loader.lookup_function(&id("main")),
        vec![Template { module: 1, definition: 0 }, Template { module: 2, definition: 0 }]
    );
    assert_eq!(
        loader.lookup_function(&id("Helper")),
        vec![Template { module: 0, definition: 1 }]
    );
    assert!(loader.lookup_function(&id("nothing")).is_empty());
}

#[test]
fn native_integer_types_follow_the_pointer_size() {
    let native = Loader::new((), 4).native_integer_type().unwrap();
    assert_eq!(native.signed(), Any::S32);
    assert_eq!(native.unsigned(), Any::U32);
    assert_eq!(native.convert_integer_type(Any::SNative), Any::S32);
    assert_eq!(native.convert_integer_type(Any::UNative), Any::U32);
    assert_eq!(native.convert_integer_type(Any::U8), Any::U8);
    assert_eq!(NativeIntegerType::for_pointer_size(2).unwrap().signed(), Any::S16);
    assert_eq!(NativeIntegerType::for_pointer_size(8).unwrap().unsigned(), Any::U64);
    let loader = Loader::new((), 3);
    assert_eq!(loader.pointer_size(), 3);
    assert!(matches!(
        loader.native_integer_type().unwrap_err(),
        LoaderError::InvalidPointerSize(3)
    ));
}

#[test]
fn foreign_bodies_name_their_library() {
    let records = vec![
        Record::Identifier(id("libc")),
        Record::TypeSignature(Any::S32),
        Record::FunctionSignature(signature::Function::new(vec![0], vec![])),
        Record::FunctionDefinition(Box::new(FunctionDefinition::new(
            Export::new_export(id("exit")),
            0,
            FunctionBody::Foreign { library: 0, entry_point: id("_exit") },
        ))),
        Record::FunctionDefinition(Box::new(FunctionDefinition::new(
            Export::new_export(id("other")),
            0,
            FunctionBody::Foreign { library: 4, entry_point: id("other") },
        ))),
    ];
    let mut loader = Loader::initialize((), 8, records).unwrap();
    match loader.definition_body(0, 0).unwrap() {
        LoadedBody::Foreign { library, entry_point } => {
            assert_eq!(library, id("libc"));
            assert_eq!(entry_point, id("_exit"));
        }
        other => panic!("unexpected body {:?}", other),
    }
    match loader.definition_body(0, 1).unwrap_err() {
        LoaderError::IndexOutOfBounds { section: Section::Identifiers, index: 4 } => {}
        other => panic!("unexpected error {:?}", other),
    }
    match loader.definition_body(0, 2).unwrap_err() {
        LoaderError::IndexOutOfBounds { section: Section::FunctionDefinitions, index: 2 } => {}
        other => panic!("unexpected error {:?}", other),
    }
}

#[test]
fn contents_are_checked_for_indices_that_refer_to_nothing() {
    assert!(ValidModule::from_records(exit_with("ok", 0)).is_ok());
    let mut records = exit_with("bad", 0);
    records.push(Record::FunctionSignature(signature::Function::new(vec![0, 3], vec![])));
    let error = ValidModule::from_records(records).unwrap_err();
    assert_eq!(
        error.kind(),
        ErrorKind::IndexOutOfBounds { section: Section::TypeSignatures, index: 3 }
    );
    let mut records = exit_with("bad", 0);
    records.push(definition(Export::Hidden, 5, 0));
    let error = ValidModule::from_records(records).unwrap_err();
    assert_eq!(
        error.kind(),
        ErrorKind::IndexOutOfBounds { section: Section::FunctionSignatures, index: 5 }
    );
    let records: Vec<Result<Record, u8>> = vec![Ok(name("x", vec![])), Err(3), Err(4)];
    assert_eq!(ValidModule::from_records_fallible(records).unwrap_err(), 3);
    let records: Vec<Result<Record, u8>> = exit_with("ok", 0).into_iter().map(Ok).collect();
    let valid = ValidModule::from_records_fallible(records).unwrap().unwrap();
    assert_eq!(valid.contents().function_definitions.len(), 1);
    assert_eq!(valid.into_contents().type_signatures, vec![Any::S32]);
}

#[test]
fn contents_and_records() {
    let contents = ModuleContents::from_records(exit_with("program", 3));
    assert_eq!(contents.module_identifier.as_ref().unwrap().name().as_bytes(), b"program");
    assert_eq!(contents.code_blocks.len(), 1);
    let records = contents.into_records();
    assert_eq!(records.len(), 5);
    assert_eq!(records[0], name("program", vec![1, 0]));
    assert_eq!(records[1], Record::TypeSignature(Any::S32));
    assert_eq!(records[4], definition(Export::new_export(id("main")), 0, 0));
}

#[test]
fn the_first_index_that_refers_to_nothing_is_named() {
    // results are looked at before parameters
    let mut records = exit_with("bad", 0);
    records.push(Record::FunctionSignature(signature::Function::new(vec![0, 9], vec![8])));
    let error = ValidModule::from_records(records).unwrap_err();
    assert_eq!(
        error.kind(),
        ErrorKind::IndexOutOfBounds { section: Section::TypeSignatures, index: 9 }
    );
    let mut records = exit_with("bad", 0);
    records.push(Record::FunctionSignature(signature::Function::new(vec![0], vec![8, 9])));
    let error = ValidModule::from_records(records).unwrap_err();
    assert_eq!(
        error.kind(),
        ErrorKind::IndexOutOfBounds { section: Section::TypeSignatures, index: 8 }
    );

    // function signatures before code blocks, code blocks before definitions,
    // whatever the order of the records
    let mut records = vec![definition(Export::Hidden, 5, 6)];
    records.extend(exit_with("bad", 0));
    records.push(Record::CodeBlock(Box::new(CodeBlock::new(
        vec![],
        vec![0],
        vec![4],
        vec![ret_s32(0)],
    ))));
    records.push(Record::FunctionSignature(signature::Function::new(vec![7], vec![])));
    let error = ValidModule::from_records(records.clone()).unwrap_err();
    assert_eq!(
        error.kind(),
        ErrorKind::IndexOutOfBounds { section: Section::TypeSignatures, index: 7 }
    );
    records.pop();
    let error = ValidModule::from_records(records.clone()).unwrap_err();
    assert_eq!(
        error.kind(),
        ErrorKind::IndexOutOfBounds { section: Section::TypeSignatures, index: 4 }
    );
    records.pop();
    let error = ValidModule::from_records(records).unwrap_err();
    assert_eq!(
        error.kind(),
        ErrorKind::IndexOutOfBounds { section: Section::FunctionSignatures, index: 5 }
    );

    // the signature of a definition before its body
    let mut records = exit_with("bad", 0);
    records.push(definition(Export::Hidden, 0, 6));
    let error = ValidModule::from_records(records).unwrap_err();
    assert_eq!(
        error.kind(),
        ErrorKind::IndexOutOfBounds { section: Section::CodeBlocks, index: 6 }
    );
}

#[test]
fn contents_that_stand_for_no_module_are_refused_for_the_first_reason() {
    // no name of a module, and a definition without a symbol
    let mut records = exit_with("unnamed", 0);
    records.remove(0);
    records.push(definition(Export::Hidden, 0, 0));
    let valid = ValidModule::from_records(records).unwrap();
    assert!(matches!(resolve(&valid), Err(Refusal::MissingModuleHeader)));

    // a definition without a symbol before a definition with a symbol that is there already
    let mut records = exit_with("named", 0);
    records.push(definition(Export::Hidden, 0, 0));
    records.push(definition(Export::new_private(id("main")), 0, 0));
    let valid = ValidModule::from_records(records).unwrap();
    assert!(matches!(resolve(&valid), Err(Refusal::MissingSymbol { index: 1 })));

    let mut records = exit_with("named", 0);
    records.push(definition(Export::new_private(id("other")), 0, 0));
    records.push(definition(Export::new_private(id("main")), 0, 0));
    records.push(definition(Export::new_private(id("other")), 0, 0));
    let valid = ValidModule::from_records(records).unwrap();
    assert!(matches!(resolve(&valid), Err(Refusal::DuplicateSymbol { index: 2 })));

    let valid = ValidModule::from_records(exit_with("named", 0)).unwrap();
    let module = resolve(&valid).unwrap();
    assert_eq!(module.function_definitions().len(), 1);
}

#[test]
fn loaded_signatures_know_their_index_and_module() {
    let mut records = exit_with("program", 0);
    records.push(Record::TypeSignature(Any::U8));
    records.push(Record::FunctionSignature(signature::Function::new(vec![1], vec![0, 1])));
    records.push(Record::FunctionSignature(signature::Function::new(vec![2], vec![])));
    let mut module = LoadedModule::from_source(records, 7).unwrap();
    let loaded = module.loaded_signature(1).unwrap();
    assert_eq!(loaded.index(), 1);
    assert_eq!(loaded.module(), 7);
    assert_eq!(loaded.return_types(), &[Any::U8]);
    assert_eq!(loaded.parameter_types(), &[Any::S32, Any::U8]);
    assert_eq!(loaded.types(), vec![Any::U8, Any::S32, Any::U8]);
    let copy = loaded.duplicate();
    assert_eq!(copy.index(), 1);
    assert_eq!(copy.types(), loaded.types());
    assert!(matches!(
        module.loaded_signature(2),
        Err(LoaderError::IndexOutOfBounds { section: Section::TypeSignatures, index: 2 })
    ));
    assert!(matches!(
        module.loaded_signature(3),
        Err(LoaderError::IndexOutOfBounds { section: Section::FunctionSignatures, index: 3 })
    ));
}

#[test]
fn the_first_symbol_that_is_defined_again_is_named() {
    let mut records = exit_with("program", 0);
    records.push(definition(Export::new_private(id("helper")), 0, 0));
    records.push(definition(Export::new_export(id("helper")), 0, 0));
    records.push(definition(Export::new_export(id("main")), 0, 0));
    let error = LoadedModule::from_source(records, 0).unwrap_err();
    assert_eq!(error.symbol().name().as_bytes(), b"helper");
    assert!(error.symbol().is_private());
}

#[test]
fn an_import_from_a_loaded_module_does_not_ask_the_resolver() {
    // the resolver knows no module, but B is loaded by hand
    let library = Library { modules: Vec::new(), asked: Vec::new() };
    let mut loader = Loader::initialize(library, 8, importer()).unwrap();
    assert_eq!(loader.force_load(helper_library()).unwrap(), 1);
    assert_eq!(
        loader.get_function_template(0, 1).unwrap(),
        Template { module: 1, definition: 1 }
    );
    assert!(matches!(
        loader.get_function_template(0, 2),
        Err(LoaderError::SymbolNotFound { .. })
    ));
    assert_eq!(loader.resolver_invocations(), 0);
    assert_eq!(loader.state().len(), 2);
}

#[test]
fn a_symbol_is_imported_from_the_module_of_a_number() {
    let library = Library { modules: Vec::new(), asked: Vec::new() };
    let mut loader = Loader::initialize(library, 8, importer()).unwrap();
    loader.force_load(helper_library()).unwrap();
    let exporter = ModuleIdentifier::new(id("B"), vec![1]);
    let state = loader.state();
    assert_eq!(
        state.import_template(1, &exporter, &id("Helper")).unwrap(),
        Template { module: 1, definition: 1 }
    );
    // a private symbol, a symbol that is not there, and a module that is not there
    for (target, symbol) in [(1, "Hidden"), (1, "Other"), (0, "Helper"), (7, "Helper")] {
        match state.import_template(target, &exporter, &id(symbol)).unwrap_err() {
            LoaderError::SymbolNotFound { module, symbol: missing } => {
                assert_eq!(module, exporter);
                assert_eq!(missing, id(symbol));
            }
            other => panic!("unexpected error {:?}", other),
        }
    }
}

#[test]
fn a_symbol_that_is_defined_twice_comes_before_another_name() {
    // what was found is another module and has a symbol twice
    let mut records = helper_library();
    records.push(definition(Export::new_export(id("Helper")), 0, 0));
    let library = Library {
        modules: vec![(ModuleIdentifier::new(id("C"), vec![]), records.clone())],
        asked: Vec::new(),
    };
    let mut loader = Loader::initialize(library, 8, importer()).unwrap();
    match loader.load(&ModuleIdentifier::new(id("C"), vec![])).unwrap_err() {
        LoaderError::DuplicateSymbol(symbol) => assert_eq!(symbol, id("Helper")),
        other => panic!("unexpected error {:?}", other),
    }
    // another module without a symbol twice is not found
    let library = Library {
        modules: vec![(ModuleIdentifier::new(id("C"), vec![]), helper_library())],
        asked: Vec::new(),
    };
    let mut loader = Loader::initialize(library, 8, importer()).unwrap();
    assert!(matches!(
        loader.load(&ModuleIdentifier::new(id("C"), vec![])),
        Err(LoaderError::ModuleNotFound(_))
    ));
    assert_eq!(loader.state().len(), 1);
}
