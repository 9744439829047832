use sailar::assembly::ast::{
    CodeDeclaration, FormatDeclaration, GlobalSymbol, Identifier, Instruction, LocalSymbol,
    ModuleDeclaration, Position, RegisterSymbol, Statement, TopLevelDeclaration,
};
use sailar::assembly::lexer;
use sailar::assembly::parser;

#[test]
fn format_declaration_test() {
    assert_eq!(
        parser::tree_from_str(".format { .major 0; .minor 0xA; };"),
        (
            vec![(
                TopLevelDeclaration::Format(vec![
                    (FormatDeclaration::Major(0), Position { start: 10, end: 19 }),
                    (FormatDeclaration::Minor(10), Position { start: 20, end: 31 })
                ]),
                Position { start: 0, end: 34 }
            )],
            Vec::new(),
            Vec::new()
        )
    )
}

#[test]
fn module_declaration_test() {
    assert_eq!(
        parser::tree_from_str(".module {\n    .name \"Hey\"; .version 1 0 0;\n};"),
        (
            vec![(
                TopLevelDeclaration::Module(vec![
                    (
                        ModuleDeclaration::Name((
                            Identifier::try_from("Hey").unwrap(),
                            Position { start: 20, end: 25 }
                        )),
                        Position { start: 14, end: 26 }
                    ),
                    (ModuleDeclaration::Version(vec![1, 0, 0]), Position { start: 27, end: 42 })
                ]),
                Position { start: 0, end: 45 }
            )],
            Vec::new(),
            Vec::new()
        )
    )
}

#[test]
fn entry_point_declaration_test() {
    assert_eq!(
        parser::tree_from_str("\n.entry @my_main_function;\n\n"),
        (
            vec![(
                TopLevelDeclaration::Entry(GlobalSymbol((
                    Identifier::try_from("my_main_function").unwrap(),
                    Position { start: 8, end: 25 }
                ))),
                Position { start: 1, end: 26 }
            )],
            Vec::new(),
            Vec::new()
        )
    )
}

#[test]
fn basic_code_declaration_test() {
    assert_eq!(
        parser::tree_from_str(
            ".code @code_test {\n  .entry $ENTRY;\n  .block $ENTRY () {\n    ret %non_existant;\n  };\n};\n"
        ),
        (
            vec![(
                TopLevelDeclaration::Code {
                    symbol: GlobalSymbol((
                        Identifier::try_from("code_test").unwrap(),
                        Position { start: 6, end: 16 }
                    )),
                    declarations: vec![
                        (
                            CodeDeclaration::Entry(LocalSymbol((
                                Identifier::try_from("ENTRY").unwrap(),
                                Position { start: 28, end: 34 }
                            ))),
                            Position { start: 21, end: 35 }
                        ),
                        (
                            CodeDeclaration::Block {
                                name: LocalSymbol((
                                    Identifier::try_from("ENTRY").unwrap(),
                                    Position { start: 45, end: 51 }
                                )),
                                arguments: Vec::new(),
                                instructions: vec![Statement {
                                    results: (Vec::new(), Position { start: 61, end: 56 }),
                                    instruction: (
                                        Instruction::Ret(vec![RegisterSymbol((
                                            Identifier::try_from("non_existant").unwrap(),
                                            Position { start: 65, end: 78 }
                                        ))]),
                                        Position { start: 61, end: 78 }
                                    )
                                }]
                            },
                            Position { start: 38, end: 84 }
                        )
                    ]
                },
                Position { start: 0, end: 87 }
            )],
            Vec::new(),
            Vec::new()
        )
    )
}

#[test]
fn lexer_reads_numbers_and_reports_unknown_characters() {
    let (tokens, errors) = lexer::tokens_from_str("0x1F 42 #");
    assert_eq!(tokens.len(), 2);
    assert_eq!(tokens[0].kind, lexer::TokenKind::LiteralInteger(31));
    assert_eq!(tokens[0].position, Position { start: 0, end: 4 });
    assert_eq!(tokens[1].kind, lexer::TokenKind::LiteralInteger(42));
    assert_eq!(
        errors,
        vec![lexer::Error {
            kind: lexer::ErrorKind::UnknownCharacter,
            position: Position { start: 8, end: 9 }
        }]
    );
}

#[test]
fn parser_stops_at_a_missing_semicolon() {
    let (tree, lexer_errors, errors) = parser::tree_from_str(".entry @main .entry @other;");
    assert!(tree.is_empty());
    assert!(lexer_errors.is_empty());
    assert_eq!(
        errors,
        vec![parser::Error {
            kind: parser::ErrorKind::ExpectedSemicolon,
            position: Position { start: 13, end: 19 }
        }]
    );
}

#[test]
fn function_declaration_is_read() {
    let (tree, lexer_errors, errors) = parser::tree_from_str(
        ".function @main (s32, s32) returns (s32) export { .name \"main\"; .body defined @code; };",
    );
    assert!(lexer_errors.is_empty());
    assert!(errors.is_empty());
    assert_eq!(tree.len(), 1);
    match &tree[0].0 {
        TopLevelDeclaration::Function { is_export, parameter_types, return_types, declarations, .. } => {
            assert!(*is_export);
            assert_eq!(parameter_types.len(), 2);
            assert_eq!(return_types.len(), 1);
            assert_eq!(declarations.len(), 2);
        }
        other => panic!("unexpected declaration {:?}", other),
    }
}

#[test]
fn declarations_before_an_error_are_kept() {
    let (tree, lexer_errors, errors) =
        parser::tree_from_str(".entry @first;\n.entry @second;\n.bogus;\n.entry @third;");
    assert!(lexer_errors.is_empty());
    assert_eq!(tree.len(), 2);
    assert_eq!(
        tree[1],
        (
            TopLevelDeclaration::Entry(GlobalSymbol((
                Identifier::try_from("second").unwrap(),
                Position { start: 22, end: 29 }
            ))),
            Position { start: 15, end: 30 }
        )
    );
    assert_eq!(
        errors,
        vec![parser::Error {
            kind: parser::ErrorKind::ExpectedDeclaration,
            position: Position { start: 31, end: 37 }
        }]
    );
}

#[test]
fn statements_with_results_and_operands_are_read() {
    let (tree, lexer_errors, errors) = parser::tree_from_str(
        ".code @body {\n.block $B (%a, %b) {\n%s, %f = add %a to %b ovf.flag;\n%c = const.i u8 0x10;\n%r = call @helper %s, %c;\nswitch u8 %c default $B or 1 $B or 2 $B;\nbr.if %f then $B else $B with %s;\nret %r;\n};\n};",
    );
    assert!(lexer_errors.is_empty());
    assert_eq!(errors, Vec::new());
    assert_eq!(tree.len(), 1);
    let statements = match &tree[0].0 {
        TopLevelDeclaration::Code { declarations, .. } => match &declarations[0].0 {
            CodeDeclaration::Block { arguments, instructions, .. } => {
                assert_eq!(arguments.len(), 2);
                instructions
            }
            other => panic!("unexpected declaration {:?}", other),
        },
        other => panic!("unexpected declaration {:?}", other),
    };
    assert_eq!(statements.len(), 6);
    assert_eq!(statements[0].results.0.len(), 2);
    match &statements[0].instruction.0 {
        Instruction::Add(operation) => {
            assert_eq!(operation.x.identifier().as_bytes(), b"a");
            assert_eq!(operation.y.identifier().as_bytes(), b"b");
            assert!(operation.flag_overflow);
        }
        other => panic!("unexpected instruction {:?}", other),
    }
    match &statements[1].instruction.0 {
        Instruction::ConstI(integer_type, value) => {
            assert_eq!(integer_type.0, sailar::assembly::ast::PrimitiveType::U8);
            assert_eq!(value.0, 16);
        }
        other => panic!("unexpected instruction {:?}", other),
    }
    match &statements[2].instruction.0 {
        Instruction::Call { function, arguments } => {
            assert_eq!(function.identifier().as_bytes(), b"helper");
            assert_eq!(arguments.len(), 2);
        }
        other => panic!("unexpected instruction {:?}", other),
    }
    match &statements[3].instruction.0 {
        Instruction::Switch { targets, .. } => {
            assert_eq!(targets.len(), 2);
            assert_eq!(targets[1].0 .0, 2);
        }
        other => panic!("unexpected instruction {:?}", other),
    }
    match &statements[4].instruction.0 {
        Instruction::BrIf { inputs, .. } => assert_eq!(inputs.len(), 1),
        other => panic!("unexpected instruction {:?}", other),
    }
    assert_eq!(statements[5].results.0.len(), 0);
}

#[test]
fn unknown_instruction_and_type_are_refused() {
    let (tree, _, errors) =
        parser::tree_from_str(".code @body { .block $B () { jump $B; }; };");
    assert!(tree.is_empty());
    assert_eq!(errors.len(), 1);
    assert_eq!(errors[0].kind, parser::ErrorKind::ExpectedInstruction);

    let (tree, _, errors) =
        parser::tree_from_str(".function @f (f32) returns () { .name \"f\"; };");
    assert!(tree.is_empty());
    assert_eq!(errors.len(), 1);
    assert_eq!(errors[0].kind, parser::ErrorKind::ExpectedType);
}

#[test]
fn struct_declaration_is_read() {
    let (tree, lexer_errors, errors) = parser::tree_from_str(
        ".struct @point export { .name \"Point\"; .field @x s32 export { .name \"x\"; }; };",
    );
    assert!(lexer_errors.is_empty());
    assert_eq!(errors, Vec::new());
    match &tree[0].0 {
        TopLevelDeclaration::Struct { symbol, is_export, declarations } => {
            assert_eq!(symbol.identifier().as_bytes(), b"point");
            assert!(*is_export);
            assert_eq!(declarations.len(), 2);
        }
        other => panic!("unexpected declaration {:?}", other),
    }
}

#[test]
fn a_zero_before_an_x_starts_a_hexadecimal_number() {
    let (tokens, errors) = lexer::tokens_from_str("0xA 0 0x10;");
    assert!(errors.is_empty());
    assert_eq!(
        tokens,
        vec![
            lexer::Token {
                kind: lexer::TokenKind::LiteralInteger(10),
                position: Position { start: 0, end: 3 }
            },
            lexer::Token {
                kind: lexer::TokenKind::LiteralInteger(0),
                position: Position { start: 4, end: 5 }
            },
            lexer::Token {
                kind: lexer::TokenKind::LiteralInteger(16),
                position: Position { start: 6, end: 10 }
            },
            lexer::Token {
                kind: lexer::TokenKind::Semicolon,
                position: Position { start: 10, end: 11 }
            },
        ]
    );

    // without digits behind it, `0x` is an error and no decimal zero
    let (tokens, errors) = lexer::tokens_from_str("0xg");
    assert_eq!(
        errors,
        vec![lexer::Error {
            kind: lexer::ErrorKind::MissingDigits,
            position: Position { start: 0, end: 2 }
        }]
    );
    assert_eq!(
        tokens,
        vec![lexer::Token {
            kind: lexer::TokenKind::Keyword,
            position: Position { start: 2, end: 3 }
        }]
    );
}

#[test]
fn errors_of_the_lexer_stand_in_the_order_of_the_text() {
    let (tokens, errors) = lexer::tokens_from_str(
        "# @ 340282366920938463463374607431768211456 0x \"open",
    );
    assert!(tokens.is_empty());
    assert_eq!(
        errors,
        vec![
            lexer::Error {
                kind: lexer::ErrorKind::UnknownCharacter,
                position: Position { start: 0, end: 1 }
            },
            lexer::Error {
                kind: lexer::ErrorKind::MissingWord,
                position: Position { start: 2, end: 3 }
            },
            lexer::Error {
                kind: lexer::ErrorKind::IntegerTooLarge,
                position: Position { start: 4, end: 43 }
            },
            lexer::Error {
                kind: lexer::ErrorKind::MissingDigits,
                position: Position { start: 44, end: 46 }
            },
            lexer::Error {
                kind: lexer::ErrorKind::UnterminatedString,
                position: Position { start: 47, end: 52 }
            },
        ]
    );
}
