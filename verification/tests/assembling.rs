use sailar::assembly::assembler::{self, Declaration, Error, NameError};
use sailar::assembly::ast::{
    FormatDeclaration, GlobalSymbol, Identifier, ModuleDeclaration, Position, TopLevelDeclaration,
};
use sailar::assembly::declare::Once;
use sailar::assembly::parser;
use sailar::module::FormatVersion;

fn at(start: usize, end: usize) -> Position {
    Position { start, end }
}

fn named(name: &str, start: usize, end: usize) -> (ModuleDeclaration, Position) {
    (
        ModuleDeclaration::Name((Identifier::try_from(name).unwrap(), at(start + 1, end - 1))),
        at(start, end),
    )
}

#[test]
fn module_header_test() {
    let (declarations, lexer_errors, parser_errors) =
        parser::tree_from_str(".module { .name \"Test\"; .version 1 2 3; };");
    assert!(lexer_errors.is_empty());
    assert!(parser_errors.is_empty());
    let module = assembler::assemble_declarations(&declarations).unwrap();
    let identifier = module.identifier();

    assert_eq!(Ok(identifier.name().to_identifier()), Identifier::try_from("Test"));
    assert_eq!(identifier.version(), &[1usize, 2, 3]);
}

#[test]
fn assembled_module_has_declared_format_and_no_definitions() {
    let (declarations, _, _) = parser::tree_from_str(
        ".format { .major 1; .minor 3; };\n.module { .name \"Versioned\"; };",
    );
    let module = assembler::assemble_declarations(&declarations).unwrap();
    assert_eq!(*module.format_version(), FormatVersion { major: 1, minor: 3 });
    assert_eq!(module.identifier().name().as_bytes(), b"Versioned");
    assert!(module.identifier().version().is_empty());
    assert!(module.function_definitions().is_empty());
}

#[test]
fn module_without_format_has_oldest_supported_format() {
    let (declarations, _, _) = parser::tree_from_str(".module { .name \"Plain\"; };");
    let module = assembler::assemble_declarations(&declarations).unwrap();
    assert_eq!(*module.format_version(), FormatVersion { major: 0, minor: 12 });
}

#[test]
fn text_without_module_header_is_refused() {
    let errors = assembler::assemble_declarations(&[]).unwrap_err();
    assert_eq!(errors, vec![Error::MissingDeclaration(None, Declaration::Module)]);
    assert_eq!(errors[0].position(), None);
    assert_eq!(errors[0].message(), "missing module declaration");
}

#[test]
fn module_header_without_name_is_refused() {
    let declarations = vec![(
        TopLevelDeclaration::Module(vec![(ModuleDeclaration::Version(vec![1]), at(10, 20))]),
        at(0, 30),
    )];
    let errors = assembler::assemble_declarations(&declarations).unwrap_err();
    assert_eq!(errors, vec![Error::MissingDeclaration(None, Declaration::Name)]);
    assert_eq!(errors[0].message(), "missing name declaration");
}

#[test]
fn repeated_declarations_are_errors_in_their_order() {
    let declarations = vec![
        (
            TopLevelDeclaration::Module(vec![
                named("First", 10, 17),
                (ModuleDeclaration::Version(vec![1, 2]), at(18, 30)),
                named("Second", 31, 39),
                (ModuleDeclaration::Version(vec![3]), at(40, 50)),
            ]),
            at(0, 60),
        ),
        (TopLevelDeclaration::Module(vec![named("Third", 70, 77)]), at(61, 80)),
        (
            TopLevelDeclaration::Format(vec![
                (FormatDeclaration::Minor(12), at(90, 95)),
                (FormatDeclaration::Minor(13), at(96, 100)),
            ]),
            at(81, 110),
        ),
        (TopLevelDeclaration::Format(Vec::new()), at(111, 120)),
    ];
    let errors = assembler::assemble_declarations(&declarations).unwrap_err();
    assert_eq!(
        errors,
        vec![
            Error::InvalidNameDeclaration(at(32, 38), Declaration::Module, NameError::Duplicate),
            Error::DuplicateDeclaration(at(40, 50), Declaration::Version),
            Error::DuplicateDeclaration(at(61, 80), Declaration::Module),
            Error::DuplicateDeclaration(at(96, 100), Declaration::Version),
            Error::DuplicateDeclaration(at(111, 120), Declaration::Format),
        ]
    );
    assert_eq!(errors[0].position(), Some(&at(32, 38)));
    assert_eq!(errors[0].message(), "duplicate name for module declaration");
    assert_eq!(errors[1].message(), "a version declaration already exists");
}

#[test]
fn first_declarations_are_kept() {
    let mut errors = Vec::new();
    let header = assembler::assemble_module_header(
        &mut errors,
        &[
            (ModuleDeclaration::Version(vec![4, 5]), at(0, 5)),
            named("One", 6, 11),
            named("Two", 12, 17),
            (ModuleDeclaration::Version(vec![6]), at(18, 20)),
        ],
    )
    .unwrap();
    assert_eq!(header.name().as_bytes(), b"One");
    assert_eq!(header.version(), &[4usize, 5]);
    assert_eq!(errors.len(), 2);

    let mut errors = Vec::new();
    let version = assembler::assemble_module_format(
        &mut errors,
        &[
            (FormatDeclaration::Minor(20), at(0, 5)),
            (FormatDeclaration::Major(2), at(6, 10)),
            (FormatDeclaration::Major(3), at(11, 15)),
        ],
    );
    assert_eq!(version, FormatVersion { major: 2, minor: 20 });
    assert_eq!(errors, vec![Error::DuplicateDeclaration(at(11, 15), Declaration::Version)]);
}

#[test]
fn format_numbers_are_bytes() {
    let mut errors = Vec::new();
    let version = assembler::assemble_module_format(
        &mut errors,
        &[
            (FormatDeclaration::Major(256), at(0, 5)),
            (FormatDeclaration::Major(255), at(6, 10)),
            (FormatDeclaration::Minor(70000), at(11, 15)),
        ],
    );
    assert_eq!(version, FormatVersion { major: 255, minor: 0 });
    assert_eq!(
        errors,
        vec![Error::InvalidFormatVersion(at(0, 5)), Error::InvalidFormatVersion(at(11, 15))]
    );
    assert_eq!(errors[0].message(), "the version of the format is not supported");
}

#[test]
fn format_older_than_supported_is_refused() {
    let (declarations, _, _) = parser::tree_from_str(
        ".format { .major 0; .minor 11; };\n.module { .name \"Old\"; };",
    );
    let errors = assembler::assemble_declarations(&declarations).unwrap_err();
    assert_eq!(errors, vec![Error::InvalidFormatVersion(at(0, 33))]);
}

#[test]
fn declarations_of_definitions_are_not_assembled() {
    let (declarations, lexer_errors, parser_errors) = parser::tree_from_str(
        ".module { .name \"Code\"; };\n.entry @main;\n.code @body {\n  .entry $E;\n  .block $E () {\n    ret;\n  };\n};\n",
    );
    assert!(lexer_errors.is_empty());
    assert!(parser_errors.is_empty());
    assert_eq!(declarations.len(), 3);
    let errors = assembler::assemble_declarations(&declarations).unwrap_err();
    assert_eq!(
        errors,
        vec![
            Error::Unsupported(declarations[1].1, Declaration::Entry),
            Error::Unsupported(declarations[2].1, Declaration::Code),
        ]
    );
    assert_eq!(errors[0].message(), "a entry point declaration cannot be assembled");
    assert_eq!(errors[1].message(), "a code declaration cannot be assembled");
}

#[test]
fn symbol_errors_name_the_symbol() {
    let symbol = || GlobalSymbol((Identifier::try_from("main").unwrap(), at(3, 8)));
    let duplicate = Error::DuplicateNamedDeclaration(symbol(), Declaration::Code);
    assert_eq!(
        duplicate.message(),
        "a code declaration corresponding to the symbol @main already exists"
    );
    assert_eq!(duplicate.position(), Some(&at(3, 8)));
    let undefined = Error::UndefinedGlobalSymbol(symbol(), Declaration::MethodBody);
    assert_eq!(
        undefined.message(),
        "a method body corresponding to the symbol @main could not be found"
    );
    assert_eq!(
        Error::DuplicateModifier(at(1, 2), "visibility").message(),
        "the visibility modifier was already specified"
    );
    assert_eq!(
        Error::InvalidNameDeclaration(at(1, 2), Declaration::TypeDefinition, NameError::Empty)
            .message(),
        "empty name for type definition declaration"
    );
}

#[test]
fn once_keeps_first_value() {
    let mut errors = Vec::new();
    let mut once: Once<u32> = Once::new();
    assert!(!once.is_set());
    assert!(once.declare(&mut errors, Error::InvalidFormatVersion(at(0, 1))));
    assert!(errors.is_empty());
    once.declare_and_set(&mut errors, Error::InvalidFormatVersion(at(1, 2)), 7);
    assert!(once.is_set());
    assert!(errors.is_empty());
    once.declare_and_set(&mut errors, Error::InvalidFormatVersion(at(2, 3)), 9);
    assert!(!once.declare(&mut errors, Error::InvalidFormatVersion(at(3, 4))));
    assert_eq!(
        errors,
        vec![Error::InvalidFormatVersion(at(2, 3)), Error::InvalidFormatVersion(at(3, 4))]
    );
    assert_eq!(once.value(), Some(7));
}
