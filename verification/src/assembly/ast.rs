//! The syntax tree of assembly text.

use vstd::prelude::*;

verus! {

/// The names of assembly text are identifiers.
pub type Identifier = crate::identifier::Identifier;

/// A part of the text: the offset of its first byte and the offset behind
/// its last byte.
#[derive(Clone, Copy, Debug, PartialEq, Eq, Structural, Hash)]
pub struct Position {
    pub start: usize,
    pub end: usize,
}

/// Something with the part of the text that it was read from.
pub type Positioned<T> = (T, Position);

/// A symbol of a definition of the module: `@name`.
#[derive(Debug, PartialEq, Eq)]
pub struct GlobalSymbol(pub Positioned<Identifier>);

/// The name of a block within a code declaration: `$name`.
#[derive(Debug, PartialEq, Eq)]
pub struct LocalSymbol(pub Positioned<Identifier>);

/// The name of a register: `%name`.
#[derive(Debug, PartialEq, Eq)]
pub struct RegisterSymbol(pub Positioned<Identifier>);

impl GlobalSymbol {
    pub fn identifier(&self) -> (identifier: &Identifier)
        ensures
            *identifier == self.0.0,
    {
        &self.0.0
    }

    pub fn location(&self) -> (position: &Position)
        ensures
            *position == self.0.1,
    {
        &self.0.1
    }
}

impl LocalSymbol {
    pub fn identifier(&self) -> (identifier: &Identifier)
        ensures
            *identifier == self.0.0,
    {
        &self.0.0
    }

    pub fn location(&self) -> (position: &Position)
        ensures
            *position == self.0.1,
    {
        &self.0.1
    }
}

impl RegisterSymbol {
    pub fn identifier(&self) -> (identifier: &Identifier)
        ensures
            *identifier == self.0.0,
    {
        &self.0.0
    }

    pub fn location(&self) -> (position: &Position)
        ensures
            *position == self.0.1,
    {
        &self.0.1
    }
}

/// A declaration within `.format`.
#[derive(Clone, Copy, Debug, PartialEq, Eq, Structural)]
pub enum FormatDeclaration {
    Major(u32),
    Minor(u32),
}

/// A declaration within `.module`.
#[derive(Debug, PartialEq, Eq)]
pub enum ModuleDeclaration {
    Name(Positioned<Identifier>),
    Version(Vec<u32>),
}

/// A fixed-width integer type.
#[derive(Clone, Copy, Debug, PartialEq, Eq, Structural)]
pub enum PrimitiveType {
    S8,
    U8,
    S16,
    U16,
    S32,
    U32,
    S64,
    U64,
}

/// A type.
#[derive(Clone, Copy, Debug, PartialEq, Eq, Structural)]
pub enum Type {
    Primitive(PrimitiveType),
}

/// The operands of `add`, `sub` and `mul`.
#[derive(Debug, PartialEq, Eq)]
pub struct BasicArithmeticOperation {
    pub x: RegisterSymbol,
    pub y: RegisterSymbol,
    pub flag_overflow: bool,
}

/// An instruction with its operands.
#[derive(Debug, PartialEq, Eq)]
pub enum Instruction {
    Nop,
    Ret(Vec<RegisterSymbol>),
    Switch {
        comparison: RegisterSymbol,
        comparison_type: Positioned<PrimitiveType>,
        default_target: LocalSymbol,
        targets: Vec<(Positioned<i128>, LocalSymbol)>,
    },
    Br { target: LocalSymbol, inputs: Vec<RegisterSymbol> },
    BrIf {
        condition: RegisterSymbol,
        true_branch: LocalSymbol,
        false_branch: LocalSymbol,
        inputs: Vec<RegisterSymbol>,
    },
    Call { function: GlobalSymbol, arguments: Vec<RegisterSymbol> },
    Add(BasicArithmeticOperation),
    Sub(BasicArithmeticOperation),
    Mul(BasicArithmeticOperation),
    ConstI(Positioned<PrimitiveType>, Positioned<i128>),
    ConvI { operand: RegisterSymbol, target_type: Positioned<PrimitiveType>, flag_overflow: bool },
}

/// An instruction with the registers that take its results.
#[derive(Debug, PartialEq, Eq)]
pub struct Statement {
    pub results: Positioned<Vec<RegisterSymbol>>,
    pub instruction: Positioned<Instruction>,
}

/// A declaration within `.code`.
#[derive(Debug, PartialEq, Eq)]
pub enum CodeDeclaration {
    Entry(LocalSymbol),
    Block { name: LocalSymbol, arguments: Vec<RegisterSymbol>, instructions: Vec<Statement> },
}

/// Where the body of a function is.
#[derive(Debug, PartialEq, Eq)]
pub enum FunctionBodyDeclaration {
    Defined(GlobalSymbol),
}

/// A declaration within `.function`.
#[derive(Debug, PartialEq, Eq)]
pub enum FunctionDeclaration {
    Name(Positioned<Identifier>),
    Body(FunctionBodyDeclaration),
}

/// A declaration within `.field`.
#[derive(Debug, PartialEq, Eq)]
pub enum FieldDeclaration {
    Name(Positioned<Identifier>),
}

/// A declaration within `.struct`.
#[derive(Debug, PartialEq, Eq)]
pub enum StructDeclaration {
    Name(Positioned<Identifier>),
    Field {
        symbol: GlobalSymbol,
        value_type: Positioned<Type>,
        is_export: bool,
        declarations: Vec<Positioned<FieldDeclaration>>,
    },
}

/// A declaration at the top of the text.
#[derive(Debug, PartialEq, Eq)]
pub enum TopLevelDeclaration {
    Format(Vec<Positioned<FormatDeclaration>>),
    Module(Vec<Positioned<ModuleDeclaration>>),
    Entry(GlobalSymbol),
    Code { symbol: GlobalSymbol, declarations: Vec<Positioned<CodeDeclaration>> },
    Function {
        symbol: GlobalSymbol,
        is_export: bool,
        parameter_types: Vec<Positioned<Type>>,
        return_types: Vec<Positioned<Type>>,
        declarations: Vec<Positioned<FunctionDeclaration>>,
    },
    Struct {
        symbol: GlobalSymbol,
        is_export: bool,
        declarations: Vec<Positioned<StructDeclaration>>,
    },
}

} // verus!

verus! {

/// What a name stands for: its bytes, and the part of the text that it
/// was read from.
pub struct NameView {
    pub bytes: Seq<u8>,
    pub position: Position,
}

/// What a name with its part of the text stands for.
pub open spec fn name_view(name: Positioned<Identifier>) -> NameView {
    NameView { bytes: name.0@, position: name.1 }
}

impl View for GlobalSymbol {
    type V = NameView;

    open spec fn view(&self) -> NameView {
        name_view(self.0)
    }
}

impl View for LocalSymbol {
    type V = NameView;

    open spec fn view(&self) -> NameView {
        name_view(self.0)
    }
}

impl View for RegisterSymbol {
    type V = NameView;

    open spec fn view(&self) -> NameView {
        name_view(self.0)
    }
}

/// What the registers of a list stand for.
pub open spec fn register_views(registers: Seq<RegisterSymbol>) -> Seq<NameView> {
    registers.map_values(|register: RegisterSymbol| register@)
}

/// What the things of a list stand for, each with its part of the text.
pub open spec fn positioned_views<T: View>(items: Seq<Positioned<T>>) -> Seq<(T::V, Position)> {
    items.map_values(|item: Positioned<T>| (item.0@, item.1))
}

/// What a declaration within `.module` stands for.
pub enum ModuleDeclarationView {
    Name(NameView),
    Version(Seq<u32>),
}

impl View for ModuleDeclaration {
    type V = ModuleDeclarationView;

    open spec fn view(&self) -> ModuleDeclarationView {
        match self {
            ModuleDeclaration::Name(name) => ModuleDeclarationView::Name(name_view(*name)),
            ModuleDeclaration::Version(version) => ModuleDeclarationView::Version(version@),
        }
    }
}

/// What the operands of `add`, `sub` and `mul` stand for.
pub struct ArithmeticView {
    pub x: NameView,
    pub y: NameView,
    pub flag_overflow: bool,
}

impl View for BasicArithmeticOperation {
    type V = ArithmeticView;

    open spec fn view(&self) -> ArithmeticView {
        ArithmeticView { x: self.x@, y: self.y@, flag_overflow: self.flag_overflow }
    }
}

/// What one target of a `switch` stands for.
pub open spec fn target_view(target: (Positioned<i128>, LocalSymbol)) -> (
    Positioned<i128>,
    NameView,
) {
    (target.0, target.1@)
}

/// What the targets of a `switch` stand for.
pub open spec fn target_views(targets: Seq<(Positioned<i128>, LocalSymbol)>) -> Seq<
    (Positioned<i128>, NameView),
> {
    targets.map_values(|target: (Positioned<i128>, LocalSymbol)| target_view(target))
}

/// What an instruction with its operands stands for.
pub enum InstructionView {
    Nop,
    Ret(Seq<NameView>),
    Switch {
        comparison: NameView,
        comparison_type: Positioned<PrimitiveType>,
        default_target: NameView,
        targets: Seq<(Positioned<i128>, NameView)>,
    },
    Br { target: NameView, inputs: Seq<NameView> },
    BrIf {
        condition: NameView,
        true_branch: NameView,
        false_branch: NameView,
        inputs: Seq<NameView>,
    },
    Call { function: NameView, arguments: Seq<NameView> },
    Add(ArithmeticView),
    Sub(ArithmeticView),
    Mul(ArithmeticView),
    ConstI(Positioned<PrimitiveType>, Positioned<i128>),
    ConvI { operand: NameView, target_type: Positioned<PrimitiveType>, flag_overflow: bool },
}

impl View for Instruction {
    type V = InstructionView;

    open spec fn view(&self) -> InstructionView {
        match self {
            Instruction::Nop => InstructionView::Nop,
            Instruction::Ret(registers) => InstructionView::Ret(register_views(registers@)),
            Instruction::Switch { comparison, comparison_type, default_target, targets } =>
                InstructionView::Switch {
                comparison: comparison@,
                comparison_type: *comparison_type,
                default_target: default_target@,
                targets: target_views(targets@),
            },
            Instruction::Br { target, inputs } => InstructionView::Br {
                target: target@,
                inputs: register_views(inputs@),
            },
            Instruction::BrIf { condition, true_branch, false_branch, inputs } =>
                InstructionView::BrIf {
                condition: condition@,
                true_branch: true_branch@,
                false_branch: false_branch@,
                inputs: register_views(inputs@),
            },
            Instruction::Call { function, arguments } => InstructionView::Call {
                function: function@,
                arguments: register_views(arguments@),
            },
            Instruction::Add(operation) => InstructionView::Add(operation@),
            Instruction::Sub(operation) => InstructionView::Sub(operation@),
            Instruction::Mul(operation) => InstructionView::Mul(operation@),
            Instruction::ConstI(integer_type, value) => InstructionView::ConstI(
                *integer_type,
                *value,
            ),
            Instruction::ConvI { operand, target_type, flag_overflow } => InstructionView::ConvI {
                operand: operand@,
                target_type: *target_type,
                flag_overflow: *flag_overflow,
            },
        }
    }
}

/// What a statement stands for.
pub struct StatementView {
    pub results: (Seq<NameView>, Position),
    pub instruction: (InstructionView, Position),
}

impl View for Statement {
    type V = StatementView;

    open spec fn view(&self) -> StatementView {
        StatementView {
            results: (register_views(self.results.0@), self.results.1),
            instruction: (self.instruction.0@, self.instruction.1),
        }
    }
}

/// What the statements of a list stand for.
pub open spec fn statement_views(statements: Seq<Statement>) -> Seq<StatementView> {
    statements.map_values(|statement: Statement| statement@)
}

/// What a declaration within `.code` stands for.
pub enum CodeDeclarationView {
    Entry(NameView),
    Block { name: NameView, arguments: Seq<NameView>, instructions: Seq<StatementView> },
}

impl View for CodeDeclaration {
    type V = CodeDeclarationView;

    open spec fn view(&self) -> CodeDeclarationView {
        match self {
            CodeDeclaration::Entry(name) => CodeDeclarationView::Entry(name@),
            CodeDeclaration::Block { name, arguments, instructions } => CodeDeclarationView::Block {
                name: name@,
                arguments: register_views(arguments@),
                instructions: statement_views(instructions@),
            },
        }
    }
}

/// What a declaration within `.function` stands for.
pub enum FunctionDeclarationView {
    Name(NameView),
    /// The body is defined by the code of the symbol.
    Body(NameView),
}

impl View for FunctionDeclaration {
    type V = FunctionDeclarationView;

    open spec fn view(&self) -> FunctionDeclarationView {
        match self {
            FunctionDeclaration::Name(name) => FunctionDeclarationView::Name(name_view(*name)),
            FunctionDeclaration::Body(FunctionBodyDeclaration::Defined(symbol)) =>
                FunctionDeclarationView::Body(symbol@),
        }
    }
}

/// What a declaration within `.field` stands for.
pub enum FieldDeclarationView {
    Name(NameView),
}

impl View for FieldDeclaration {
    type V = FieldDeclarationView;

    open spec fn view(&self) -> FieldDeclarationView {
        match self {
            FieldDeclaration::Name(name) => FieldDeclarationView::Name(name_view(*name)),
        }
    }
}

/// What a declaration within `.struct` stands for.
pub enum StructDeclarationView {
    Name(NameView),
    Field {
        symbol: NameView,
        value_type: Positioned<Type>,
        is_export: bool,
        declarations: Seq<(FieldDeclarationView, Position)>,
    },
}

impl View for StructDeclaration {
    type V = StructDeclarationView;

    open spec fn view(&self) -> StructDeclarationView {
        match self {
            StructDeclaration::Name(name) => StructDeclarationView::Name(name_view(*name)),
            StructDeclaration::Field { symbol, value_type, is_export, declarations } =>
                StructDeclarationView::Field {
                symbol: symbol@,
                value_type: *value_type,
                is_export: *is_export,
                declarations: positioned_views(declarations@),
            },
        }
    }
}

/// What a declaration at the top of the text stands for.
#[allow(inconsistent_fields)]
pub enum TopLevelDeclarationView {
    Format(Seq<Positioned<FormatDeclaration>>),
    Module(Seq<(ModuleDeclarationView, Position)>),
    Entry(NameView),
    Code { symbol: NameView, declarations: Seq<(CodeDeclarationView, Position)> },
    Function {
        symbol: NameView,
        is_export: bool,
        parameter_types: Seq<Positioned<Type>>,
        return_types: Seq<Positioned<Type>>,
        declarations: Seq<(FunctionDeclarationView, Position)>,
    },
    Struct {
        symbol: NameView,
        is_export: bool,
        declarations: Seq<(StructDeclarationView, Position)>,
    },
}

impl View for TopLevelDeclaration {
    type V = TopLevelDeclarationView;

    open spec fn view(&self) -> TopLevelDeclarationView {
        match self {
            TopLevelDeclaration::Format(declarations) => TopLevelDeclarationView::Format(
                declarations@,
            ),
            TopLevelDeclaration::Module(declarations) => TopLevelDeclarationView::Module(
                positioned_views(declarations@),
            ),
            TopLevelDeclaration::Entry(symbol) => TopLevelDeclarationView::Entry(symbol@),
            TopLevelDeclaration::Code { symbol, declarations } => TopLevelDeclarationView::Code {
                symbol: symbol@,
                declarations: positioned_views(declarations@),
            },
            TopLevelDeclaration::Function {
                symbol,
                is_export,
                parameter_types,
                return_types,
                declarations,
            } => TopLevelDeclarationView::Function {
                symbol: symbol@,
                is_export: *is_export,
                parameter_types: parameter_types@,
                return_types: return_types@,
                declarations: positioned_views(declarations@),
            },
            TopLevelDeclaration::Struct { symbol, is_export, declarations } =>
                TopLevelDeclarationView::Struct {
                symbol: symbol@,
                is_export: *is_export,
                declarations: positioned_views(declarations@),
            },
        }
    }
}

} // verus!
