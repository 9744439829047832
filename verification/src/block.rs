//! Code blocks, and the builder that checks the types of the values of
//! instructions as it emits them.

use crate::binary::{LengthSize, VarIntSize};
use crate::diagnostics::{append_decimal, decimal_text};
use crate::function::Instantiation;
use crate::instruction_set;
use crate::instruction_set::{Instruction, InstructionView};
use crate::type_system::Any;
use vstd::prelude::*;
use vstd::string::StringExecFns;

verus! {

/// A finished code block.
#[derive(Debug, PartialEq, Eq, Hash)]
pub struct Block {
    integer_size: VarIntSize,
    input_types: Vec<Any>,
    result_types: Vec<Any>,
    temporary_types: Vec<Any>,
    instructions: Vec<Instruction>,
}

/// What a code block stands for. Its registers are numbered through: the
/// inputs first, then the temporaries.
pub struct BlockView {
    pub input_types: Seq<Any>,
    pub result_types: Seq<Any>,
    pub temporary_types: Seq<Any>,
    pub instructions: Seq<InstructionView>,
}

impl View for Block {
    type V = BlockView;

    closed spec fn view(&self) -> BlockView {
        BlockView {
            input_types: self.input_types@,
            result_types: self.result_types@,
            temporary_types: self.temporary_types@,
            instructions: self.instructions@.map_values(|instruction: Instruction| instruction@),
        }
    }
}

impl BlockView {
    /// The size that the counts of the inputs, of the results and of the
    /// temporaries of the block need.
    pub open spec fn size(self) -> LengthSize {
        LengthSize::fitting(self.input_types.len()).join(
            LengthSize::fitting(self.result_types.len()),
        ).join(LengthSize::fitting(self.temporary_types.len()))
    }

    /// The number of registers of the block.
    pub open spec fn registers(self) -> nat {
        self.input_types.len() + self.temporary_types.len()
    }

    /// What holds of every block that a builder finished: it has
    /// instructions; the last of them ends the block and no other does; and
    /// every register that an instruction reads is a register of the block.
    pub open spec fn finished(self) -> bool {
        &&& self.instructions.len() > 0
        &&& forall|i: int|
            0 <= i < self.instructions.len() ==> ((#[trigger] self.instructions[i]).terminates()
                <==> i == self.instructions.len() - 1)
        &&& forall|i: int|
            0 <= i < self.instructions.len() ==> (#[trigger] self.instructions[i]).within(
                self.registers(),
            )
    }
}

impl Block {
    #[verifier::type_invariant]
    spec fn well_formed(self) -> bool {
        self.integer_size == self@.size()
    }

    /// A block of the given parts, with the size that its counts need.
    pub fn from_parts(
        input_types: Vec<Any>,
        result_types: Vec<Any>,
        temporary_types: Vec<Any>,
        instructions: Vec<Instruction>,
    ) -> (block: Self)
        ensures
            block@ == (BlockView {
                input_types: input_types@,
                result_types: result_types@,
                temporary_types: temporary_types@,
                instructions: instructions@.map_values(|instruction: Instruction| instruction@),
            }),
    {
        let mut integer_size = LengthSize::One;
        integer_size.resize_to_fit(input_types.len());
        integer_size.resize_to_fit(result_types.len());
        integer_size.resize_to_fit(temporary_types.len());
        Block { integer_size, input_types, result_types, temporary_types, instructions }
    }

    /// The size that the counts of the block need.
    pub fn integer_size(&self) -> (size: VarIntSize)
        ensures
            size == self@.size(),
    {
        proof {
            use_type_invariant(self);
        }
        self.integer_size
    }

    pub fn instructions(&self) -> (instructions: &[Instruction])
        ensures
            instructions@.map_values(|instruction: Instruction| instruction@)
                == self@.instructions,
    {
        self.instructions.as_slice()
    }

    pub fn input_types(&self) -> (types: &[Any])
        ensures
            types@ == self@.input_types,
    {
        self.input_types.as_slice()
    }

    pub fn result_types(&self) -> (types: &[Any])
        ensures
            types@ == self@.result_types,
    {
        self.result_types.as_slice()
    }

    pub fn temporary_types(&self) -> (types: &[Any])
        ensures
            types@ == self@.temporary_types,
    {
        self.temporary_types.as_slice()
    }
}

} // verus!

verus! {

/// A result of a block has another type than the block declares.
#[derive(Clone, Copy, Debug, PartialEq, Eq, Structural)]
pub struct InvalidResultTypeError {
    pub index: usize,
    pub expected: Any,
    pub actual: Any,
}

/// What was expected of a type.
#[derive(Clone, Copy, Debug, PartialEq, Eq, Structural)]
pub enum ExpectedTypeErrorKind {
    /// The given type.
    Expected(Any),
    /// An integer type.
    ExpectedInteger,
}

/// A value has a type that does not meet what was expected.
#[derive(Clone, Copy, Debug, PartialEq, Eq, Structural)]
pub struct ExpectedTypeError {
    pub actual: Any,
    pub kind: ExpectedTypeErrorKind,
}

/// Why an instruction is refused.
#[derive(Clone, Copy, Debug, PartialEq, Eq, Structural)]
pub enum ValidationError {
    /// A block has no instruction.
    EmptyBlock,
    InvalidResultType(InvalidResultTypeError),
    /// A block returns another number of values than it declares.
    ResultCountMismatch { expected: usize, actual: usize },
    ExpectedType(ExpectedTypeError),
    /// A call has another number of arguments than the function has
    /// parameters.
    ArgumentCountMismatch { expected: usize, actual: usize },
    /// An argument of a call has another type than the parameter.
    ArgumentTypeMismatch { expected: Any, actual: Any, index: usize },
}

pub type ValidationResult<T> = Result<T, Box<ValidationError>>;

/// An input register, which holds a value that is handed to the block.
#[derive(Clone, Copy, Debug, PartialEq, Eq, Structural)]
pub struct Input {
    index: usize,
    value_type: Any,
}

impl Input {
    /// The position of the register among the inputs.
    pub closed spec fn position(self) -> usize {
        self.index
    }

    /// The type of the register.
    pub closed spec fn type_of(self) -> Any {
        self.value_type
    }

    pub fn value_type(&self) -> (value_type: &Any)
        ensures
            *value_type == self.type_of(),
    {
        &self.value_type
    }

    /// The position of the register among the inputs.
    pub fn index(&self) -> (index: usize)
        ensures
            index == self.position(),
    {
        self.index
    }
}

/// A temporary register, which holds a result of an instruction.
#[derive(Clone, Copy, Debug, PartialEq, Eq, Structural)]
pub struct Temporary {
    index: usize,
    value_type: Any,
}

impl Temporary {
    /// The position of the register among the temporaries.
    pub closed spec fn position(self) -> usize {
        self.index
    }

    /// The type of the register.
    pub closed spec fn type_of(self) -> Any {
        self.value_type
    }

    pub fn value_type(&self) -> (value_type: &Any)
        ensures
            *value_type == self.type_of(),
    {
        &self.value_type
    }

    /// The position of the register among the temporaries.
    pub fn index(&self) -> (index: usize)
        ensures
            index == self.position(),
    {
        self.index
    }
}

/// An integer constant of a fixed-width integer type.
#[derive(Clone, Copy, Debug, PartialEq, Eq, Structural, Hash)]
pub enum ConstantInteger {
    U8(u8),
    S8(i8),
    U16(u16),
    S16(i16),
    U32(u32),
    S32(i32),
    U64(u64),
    S64(i64),
}

impl ConstantInteger {
    /// The constant as instructions hold it.
    pub open spec fn encoded(self) -> instruction_set::IntegerConstant {
        match self {
            ConstantInteger::U8(value) => instruction_set::IntegerConstant::U8(value),
            ConstantInteger::S8(value) => instruction_set::IntegerConstant::S8(value),
            ConstantInteger::U16(value) => instruction_set::IntegerConstant::U16(value),
            ConstantInteger::S16(value) => instruction_set::IntegerConstant::S16(value),
            ConstantInteger::U32(value) => instruction_set::IntegerConstant::U32(value),
            ConstantInteger::S32(value) => instruction_set::IntegerConstant::S32(value),
            ConstantInteger::U64(value) => instruction_set::IntegerConstant::U64(value),
            ConstantInteger::S64(value) => instruction_set::IntegerConstant::S64(value),
        }
    }

    /// The type of the constant.
    pub open spec fn type_of(self) -> Any {
        self.encoded().type_of()
    }

    pub fn value_type(&self) -> (value_type: Any)
        ensures
            value_type == self.type_of(),
            value_type.integral(),
    {
        match self {
            ConstantInteger::U8(_) => Any::U8,
            ConstantInteger::S8(_) => Any::S8,
            ConstantInteger::U16(_) => Any::U16,
            ConstantInteger::S16(_) => Any::S16,
            ConstantInteger::U32(_) => Any::U32,
            ConstantInteger::S32(_) => Any::S32,
            ConstantInteger::U64(_) => Any::U64,
            ConstantInteger::S64(_) => Any::S64,
        }
    }

    /// The constant as instructions hold it.
    pub fn to_instruction_constant(&self) -> (constant: instruction_set::IntegerConstant)
        ensures
            constant == self.encoded(),
    {
        match self {
            ConstantInteger::U8(value) => instruction_set::IntegerConstant::U8(*value),
            ConstantInteger::S8(value) => instruction_set::IntegerConstant::S8(*value),
            ConstantInteger::U16(value) => instruction_set::IntegerConstant::U16(*value),
            ConstantInteger::S16(value) => instruction_set::IntegerConstant::S16(*value),
            ConstantInteger::U32(value) => instruction_set::IntegerConstant::U32(*value),
            ConstantInteger::S32(value) => instruction_set::IntegerConstant::S32(*value),
            ConstantInteger::U64(value) => instruction_set::IntegerConstant::U64(*value),
            ConstantInteger::S64(value) => instruction_set::IntegerConstant::S64(*value),
        }
    }

    /// The constant of the given type that stands for `value`, which there
    /// is exactly when the type is a fixed-width integer type that holds
    /// `value`.
    pub fn of_type(value_type: Any, value: i128) -> (constant: Option<ConstantInteger>)
        ensures
            constant.is_some() == instruction_set::in_range(value_type, value as int),
            constant matches Some(made) ==> made.type_of() == value_type
                && made.encoded().number() == value,
    {
        match instruction_set::IntegerConstant::of_type(value_type, value) {
            None => None,
            Some(instruction_set::IntegerConstant::U8(value)) => Some(ConstantInteger::U8(value)),
            Some(instruction_set::IntegerConstant::S8(value)) => Some(ConstantInteger::S8(value)),
            Some(instruction_set::IntegerConstant::U16(value)) => Some(
                ConstantInteger::U16(value),
            ),
            Some(instruction_set::IntegerConstant::S16(value)) => Some(
                ConstantInteger::S16(value),
            ),
            Some(instruction_set::IntegerConstant::U32(value)) => Some(
                ConstantInteger::U32(value),
            ),
            Some(instruction_set::IntegerConstant::S32(value)) => Some(
                ConstantInteger::S32(value),
            ),
            Some(instruction_set::IntegerConstant::U64(value)) => Some(
                ConstantInteger::U64(value),
            ),
            Some(instruction_set::IntegerConstant::S64(value)) => Some(
                ConstantInteger::S64(value),
            ),
        }
    }
}

/// A constant of any kind.
#[derive(Clone, Copy, Debug, PartialEq, Eq, Structural)]
pub enum Constant {
    Integer(ConstantInteger),
}

impl Constant {
    /// The type of the constant.
    pub open spec fn type_of(self) -> Any {
        match self {
            Constant::Integer(integer) => integer.type_of(),
        }
    }

    pub fn value_type(&self) -> (value_type: Any)
        ensures
            value_type == self.type_of(),
    {
        match self {
            Constant::Integer(integer) => integer.value_type(),
        }
    }
}

/// A value that an instruction reads: a constant, or the register that a
/// handle stands for.
#[derive(Clone, Copy, Debug, PartialEq, Eq, Structural)]
pub enum Value {
    Constant(Constant),
    Temporary(Temporary),
    Input(Input),
}

impl Value {
    /// The type of the value: constants have their type by themselves, and
    /// handles carry the type of their register.
    pub open spec fn type_of(self) -> Any {
        match self {
            Value::Constant(constant) => constant.type_of(),
            Value::Temporary(temporary) => temporary.type_of(),
            Value::Input(input) => input.type_of(),
        }
    }

    /// The value as instructions of a block with `input_count` inputs hold
    /// it. Registers are numbered through: an input has its own position,
    /// and a temporary the number of inputs plus its position.
    pub open spec fn encoded(self, input_count: nat) -> instruction_set::Value {
        match self {
            Value::Constant(Constant::Integer(integer)) => instruction_set::Value::Constant(
                instruction_set::Constant::Integer(integer.encoded()),
            ),
            Value::Temporary(temporary) => instruction_set::Value::IndexedRegister(
                (temporary.position() + input_count) as usize,
            ),
            Value::Input(input) => instruction_set::Value::IndexedRegister(input.position()),
        }
    }

    /// The value of an integer constant.
    pub fn integer(constant: ConstantInteger) -> (value: Value)
        ensures
            value == Value::Constant(Constant::Integer(constant)),
    {
        Value::Constant(Constant::Integer(constant))
    }

    pub fn value_type(&self) -> (value_type: Any)
        ensures
            value_type == self.type_of(),
    {
        match self {
            Value::Constant(constant) => constant.value_type(),
            Value::Temporary(temporary) => *temporary.value_type(),
            Value::Input(input) => *input.value_type(),
        }
    }

    /// The value as instructions of a block with `input_count` inputs hold
    /// it.
    pub fn to_value(&self, input_count: usize) -> (value: instruction_set::Value)
        requires
            self matches Value::Temporary(temporary) ==> temporary.position() + input_count
                <= usize::MAX,
        ensures
            value == self.encoded(input_count as nat),
    {
        match self {
            Value::Constant(Constant::Integer(integer)) => instruction_set::Value::Constant(
                instruction_set::Constant::Integer(integer.to_instruction_constant()),
            ),
            Value::Temporary(temporary) => instruction_set::Value::IndexedRegister(
                temporary.index + input_count,
            ),
            Value::Input(input) => instruction_set::Value::IndexedRegister(input.index),
        }
    }
}

/// The two registers of an arithmetic instruction that flags its overflow.
#[derive(Clone, Copy, Debug, PartialEq, Eq, Structural)]
pub struct FlaggedOverflow {
    pub result: Temporary,
    pub flag: Temporary,
}

impl FlaggedOverflow {
    pub fn result_register(&self) -> (register: Temporary)
        ensures
            register == self.result,
    {
        self.result
    }

    /// The register that tells whether the result overflowed.
    pub fn flag_register(&self) -> (register: Temporary)
        ensures
            register == self.flag,
    {
        self.flag
    }
}

/// Something that takes the registers of the results of a call.
pub trait FunctionCall {
    /// The registers taken so far, for something that keeps them.
    spec fn results(&self) -> Seq<Temporary>;

    /// Whether the registers are kept.
    spec fn keeps() -> bool;

    fn append_result(&mut self, register: Temporary)
        ensures
            Self::keeps() ==> final(self).results() == old(self).results().push(register),
            !Self::keeps() ==> final(self).results() == old(self).results(),
    ;
}

/// The results of a call that nobody wants.
impl FunctionCall for () {
    open spec fn results(&self) -> Seq<Temporary> {
        Seq::empty()
    }

    open spec fn keeps() -> bool {
        false
    }

    fn append_result(&mut self, register: Temporary) {
    }
}

impl FunctionCall for Vec<Temporary> {
    open spec fn results(&self) -> Seq<Temporary> {
        self@
    }

    open spec fn keeps() -> bool {
        true
    }

    fn append_result(&mut self, register: Temporary) {
        self.push(register);
    }
}

} // verus!

verus! {

/// The types of the values of a list.
pub open spec fn types_of(values: Seq<Value>) -> Seq<Any> {
    values.map_values(|value: Value| value.type_of())
}

/// The values of a list as instructions of a block with `input_count`
/// inputs hold them.
pub open spec fn encoded_values(values: Seq<Value>, input_count: nat) -> Seq<
    instruction_set::Value,
> {
    values.map_values(|value: Value| value.encoded(input_count))
}

/// Whether two lists of types hold the same type at every position that
/// both of them have.
pub open spec fn agree(actual: Seq<Any>, expected: Seq<Any>) -> bool {
    forall|i: int| 0 <= i < actual.len() && i < expected.len() ==> actual[i] == expected[i]
}

/// Whether `index` is the first position at which two lists of types hold
/// different types.
pub open spec fn differ_first_at(actual: Seq<Any>, expected: Seq<Any>, index: int) -> bool {
    &&& 0 <= index < actual.len()
    &&& index < expected.len()
    &&& actual[index] != expected[index]
    &&& forall|i: int| 0 <= i < index ==> actual[i] == expected[i]
}

/// The first position at which the types of `values` differ from the types
/// `expected`, if they differ where both lists have a type.
fn first_difference(values: &Vec<Value>, expected: &[Any]) -> (found: Option<usize>)
    ensures
        match found {
            Some(index) => differ_first_at(types_of(values@), expected@, index as int),
            None => agree(types_of(values@), expected@),
        },
{
    let mut index: usize = 0;
    while index < values.len() && index < expected.len()
        invariant
            forall|i: int| 0 <= i < index ==> types_of(values@)[i] == expected@[i],
            index <= values@.len(),
            index <= expected@.len(),
        decreases values@.len() - index,
    {
        if values[index].value_type() != expected[index] {
            return Some(index);
        }
        index += 1;
    }
    None
}

/// A code block that is being built: the registers defined so far and the
/// instructions emitted so far. Every instruction is checked when it is
/// emitted, and nothing is emitted that is refused.
#[derive(Debug)]
pub struct Builder {
    result_types: Vec<Any>,
    input_registers: Vec<Input>,
    temporary_registers: Vec<Temporary>,
    instructions: Vec<Instruction>,
}

/// What a builder stands for.
pub struct BuilderView {
    pub result_types: Seq<Any>,
    pub input_types: Seq<Any>,
    pub temporary_types: Seq<Any>,
    pub instructions: Seq<InstructionView>,
}

impl BuilderView {
    /// The number of registers defined so far.
    pub open spec fn registers(self) -> nat {
        self.input_types.len() + self.temporary_types.len()
    }

    /// The builder after an instruction that defines no register.
    pub open spec fn emitted(self, instruction: InstructionView) -> BuilderView {
        BuilderView { instructions: self.instructions.push(instruction), ..self }
    }

    /// The builder after an instruction that defines registers of the
    /// given types.
    pub open spec fn defined(self, instruction: InstructionView, types: Seq<Any>) -> BuilderView {
        BuilderView {
            instructions: self.instructions.push(instruction),
            temporary_types: self.temporary_types + types,
            ..self
        }
    }
}

impl View for Builder {
    type V = BuilderView;

    closed spec fn view(&self) -> BuilderView {
        BuilderView {
            result_types: self.result_types@,
            input_types: self.input_registers@.map_values(|input: Input| input.type_of()),
            temporary_types: self.temporary_registers@.map_values(
                |temporary: Temporary| temporary.type_of(),
            ),
            instructions: self.instructions@.map_values(|instruction: Instruction| instruction@),
        }
    }
}

impl Builder {
    #[verifier::type_invariant]
    spec fn well_formed(self) -> bool {
        &&& forall|i: int|
            0 <= i < self.input_registers@.len() ==> (#[trigger] self.input_registers@[i]).index
                == i
        &&& forall|i: int|
            0 <= i < self.temporary_registers@.len() ==> (
            #[trigger] self.temporary_registers@[i]).index == i
        &&& forall|i: int|
            0 <= i < self.instructions@.len() ==> {
                &&& !(#[trigger] self.instructions@[i])@.terminates()
                &&& self.instructions@[i]@.within(
                    self.input_registers@.len() + self.temporary_registers@.len(),
                )
            }
    }

    /// Whether a value can stand in an instruction of this builder: it is a
    /// constant, or the handle of a register that this builder defined,
    /// with the type that the register has.
    pub open spec fn defines(&self, value: Value) -> bool {
        match value {
            Value::Constant(_) => true,
            Value::Temporary(temporary) => temporary.position() < self@.temporary_types.len()
                && self@.temporary_types[temporary.position() as int] == temporary.type_of(),
            Value::Input(input) => input.position() < self@.input_types.len()
                && self@.input_types[input.position() as int] == input.type_of(),
        }
    }

    /// Whether every value of a list can stand in an instruction of this
    /// builder.
    pub open spec fn defines_all(&self, values: Seq<Value>) -> bool {
        forall|i: int| 0 <= i < values.len() ==> self.defines(#[trigger] values[i])
    }

    /// A builder without results, without registers and without
    /// instructions.
    fn empty() -> (builder: Builder)
        ensures
            builder@ == (BuilderView {
                result_types: Seq::empty(),
                input_types: Seq::empty(),
                temporary_types: Seq::empty(),
                instructions: Seq::empty(),
            }),
    {
        let builder = Builder {
            result_types: Vec::new(),
            input_registers: Vec::new(),
            temporary_registers: Vec::new(),
            instructions: Vec::new(),
        };
        proof {
            assert(builder@.input_types =~= Seq::<Any>::empty());
            assert(builder@.temporary_types =~= Seq::<Any>::empty());
            assert(builder@.instructions =~= Seq::<InstructionView>::empty());
        }
        builder
    }

    /// A builder of a block with results and inputs of the given types.
    pub fn new(result_types: Vec<Any>, input_types: &[Any]) -> (builder: Builder)
        ensures
            builder@ == (BuilderView {
                result_types: result_types@,
                input_types: input_types@,
                temporary_types: Seq::empty(),
                instructions: Seq::empty(),
            }),
    {
        let mut input_registers: Vec<Input> = Vec::new();
        let mut index: usize = 0;
        while index < input_types.len()
            invariant
                index <= input_types@.len(),
                input_registers@.len() == index,
                forall|i: int|
                    0 <= i < index ==> (#[trigger] input_registers@[i]).index == i
                        && input_registers@[i].value_type == input_types@[i],
            decreases input_types@.len() - index,
        {
            input_registers.push(Input { index, value_type: input_types[index] });
            index += 1;
        }
        let builder = Builder {
            result_types,
            input_registers,
            temporary_registers: Vec::new(),
            instructions: Vec::new(),
        };
        proof {
            assert(builder@.input_types =~= input_types@);
            assert(builder@.temporary_types =~= Seq::<Any>::empty());
            assert(builder@.instructions =~= Seq::<InstructionView>::empty());
        }
        builder
    }

    /// Whether a value can stand in an instruction of this builder.
    pub fn owns(&self, value: &Value) -> (owned: bool)
        ensures
            owned == self.defines(*value),
    {
        match value {
            Value::Constant(_) => true,
            Value::Temporary(temporary) => temporary.index < self.temporary_registers.len()
                && self.temporary_registers[temporary.index].value_type == temporary.value_type,
            Value::Input(input) => input.index < self.input_registers.len()
                && self.input_registers[input.index].value_type == input.value_type,
        }
    }

    /// The number of registers defined so far, where it is a `usize`.
    pub fn register_count(&self) -> (count: Option<usize>)
        ensures
            match count {
                Some(registers) => registers == self@.registers(),
                None => self@.registers() > usize::MAX,
            },
    {
        self.input_registers.len().checked_add(self.temporary_registers.len())
    }

    pub fn result_types(&self) -> (types: &[Any])
        ensures
            types@ == self@.result_types,
    {
        self.result_types.as_slice()
    }

    /// The handles of the inputs of the block, in their order.
    pub fn input_registers(&self) -> (inputs: &[Input])
        ensures
            inputs@.len() == self@.input_types.len(),
            forall|i: int|
                0 <= i < inputs@.len() ==> (#[trigger] inputs@[i]).position() == i
                    && inputs@[i].type_of() == self@.input_types[i],
            forall|i: int| 0 <= i < inputs@.len() ==> self.defines(Value::Input(inputs@[i])),
    {
        proof {
            use_type_invariant(self);
        }
        self.input_registers.as_slice()
    }

    /// Emits an instruction that defines no register.
    fn emit(&mut self, instruction: Instruction)
        requires
            !instruction@.terminates(),
            instruction@.within(old(self)@.registers()),
        ensures
            final(self)@ == old(self)@.emitted(instruction@),
    {
        proof {
            use_type_invariant(&*self);
        }
        let mut taken = Builder::empty();
        std::mem::swap(self, &mut taken);
        let Builder { result_types, input_registers, temporary_registers, mut instructions } =
            taken;
        instructions.push(instruction);
        *self = Builder { result_types, input_registers, temporary_registers, instructions };
        proof {
            assert(self@.instructions =~= old(self)@.instructions.push(instruction@));
        }
    }

    /// Defines a temporary register of the given type.
    fn define_temporary(&mut self, value_type: Any) -> (temporary: Temporary)
        ensures
            final(self)@ == (BuilderView {
                temporary_types: old(self)@.temporary_types.push(value_type),
                ..old(self)@
            }),
            temporary.position() == old(self)@.temporary_types.len(),
            temporary.type_of() == value_type,
            final(self).defines(Value::Temporary(temporary)),
    {
        proof {
            use_type_invariant(&*self);
        }
        let mut taken = Builder::empty();
        std::mem::swap(self, &mut taken);
        let Builder { result_types, input_registers, mut temporary_registers, instructions } =
            taken;
        let temporary = Temporary { index: temporary_registers.len(), value_type };
        temporary_registers.push(temporary);
        proof {
            assert forall|i: int| 0 <= i < instructions@.len() implies {
                &&& !(#[trigger] instructions@[i])@.terminates()
                &&& instructions@[i]@.within(
                    input_registers@.len() + temporary_registers@.len(),
                )
            } by {
                let instruction = instructions@[i]@;
                assert(instruction.within(
                    old(self).input_registers@.len() + old(self).temporary_registers@.len(),
                ));
            }
        }
        *self = Builder { result_types, input_registers, temporary_registers, instructions };
        proof {
            assert(self@.temporary_types =~= old(self)@.temporary_types.push(value_type));
        }
        temporary
    }

    pub fn emit_nop(&mut self)
        ensures
            final(self)@ == old(self)@.emitted(InstructionView::Nop),
    {
        proof {
            assert(InstructionView::Nop.operands() =~= Seq::<instruction_set::Value>::empty());
        }
        self.emit(Instruction::Nop);
    }

    pub fn emit_break(&mut self)
        ensures
            final(self)@ == old(self)@.emitted(InstructionView::Break),
    {
        proof {
            assert(InstructionView::Break.operands() =~= Seq::<instruction_set::Value>::empty());
        }
        self.emit(Instruction::Break);
    }

    /// Emits an instruction that defines a register with the value of an
    /// integer constant, which has the type of the constant.
    pub fn emit_const_i(&mut self, constant: ConstantInteger) -> (register: Temporary)
        ensures
            final(self)@ == old(self)@.defined(
                InstructionView::ConstI(constant.encoded()),
                seq![constant.type_of()],
            ),
            register.position() == old(self)@.temporary_types.len(),
            register.type_of() == constant.type_of(),
            final(self).defines(Value::Temporary(register)),
    {
        let instruction = Instruction::ConstI(constant.to_instruction_constant());
        proof {
            assert(instruction@.operands() =~= Seq::<instruction_set::Value>::empty());
        }
        self.emit(instruction);
        let register = self.define_temporary(constant.value_type());
        proof {
            assert(old(self)@.temporary_types.push(constant.type_of()) =~= old(
                self,
            )@.temporary_types + seq![constant.type_of()]);
        }
        register
    }
}

} // verus!

verus! {

/// The arithmetic operations on integers.
#[derive(Clone, Copy, Debug, PartialEq, Eq, Structural)]
pub enum Arithmetic {
    Add,
    Sub,
    Mul,
}

/// The instruction of an arithmetic operation.
pub open spec fn arithmetic_instruction(
    operation: Arithmetic,
    operands: instruction_set::IntegerArithmetic,
) -> InstructionView {
    match operation {
        Arithmetic::Add => InstructionView::AddI(operands),
        Arithmetic::Sub => InstructionView::SubI(operands),
        Arithmetic::Mul => InstructionView::MulI(operands),
    }
}

/// The error, if any, with which an arithmetic instruction on `x` and `y`
/// is refused: `x` has to be an integer, and `y` of the type of `x`.
pub open spec fn arithmetic_error(x: Value, y: Value) -> Option<ValidationError> {
    if !x.type_of().integral() {
        Some(
            ValidationError::ExpectedType(
                ExpectedTypeError {
                    actual: x.type_of(),
                    kind: ExpectedTypeErrorKind::ExpectedInteger,
                },
            ),
        )
    } else if x.type_of() != y.type_of() {
        Some(
            ValidationError::ExpectedType(
                ExpectedTypeError {
                    actual: y.type_of(),
                    kind: ExpectedTypeErrorKind::Expected(x.type_of()),
                },
            ),
        )
    } else {
        None
    }
}

/// Whether `error` is the error with which a call with arguments of the
/// types `actual` to a function with parameters of the types `expected` is
/// refused: the first argument whose type is not that of its parameter, or
/// else the number of arguments.
pub open spec fn is_argument_error(
    actual: Seq<Any>,
    expected: Seq<Any>,
    error: ValidationError,
) -> bool {
    match error {
        ValidationError::ArgumentTypeMismatch { expected: parameter, actual: argument, index } => {
            &&& differ_first_at(actual, expected, index as int)
            &&& parameter == expected[index as int]
            &&& argument == actual[index as int]
        },
        ValidationError::ArgumentCountMismatch { expected: parameters, actual: arguments } => {
            &&& agree(actual, expected)
            &&& actual.len() != expected.len()
            &&& parameters == expected.len()
            &&& arguments == actual.len()
        },
        _ => false,
    }
}

/// Whether `error` is the error with which returning values of the types
/// `actual` from a block with results of the types `expected` is refused:
/// the first value whose type is not that of its result, or else the number
/// of values.
pub open spec fn is_result_error(
    actual: Seq<Any>,
    expected: Seq<Any>,
    error: ValidationError,
) -> bool {
    match error {
        ValidationError::InvalidResultType(invalid) => {
            &&& differ_first_at(actual, expected, invalid.index as int)
            &&& invalid.expected == expected[invalid.index as int]
            &&& invalid.actual == actual[invalid.index as int]
        },
        ValidationError::ResultCountMismatch { expected: results, actual: values } => {
            &&& agree(actual, expected)
            &&& actual.len() != expected.len()
            &&& results == expected.len()
            &&& values == actual.len()
        },
        _ => false,
    }
}

/// The handles of the registers that a builder with `count` temporaries
/// defines next, for results of the given types.
pub open spec fn handles_of(registers: Seq<Temporary>, count: nat, types: Seq<Any>) -> bool {
    &&& registers.len() == types.len()
    &&& forall|i: int|
        0 <= i < registers.len() ==> (#[trigger] registers[i]).position() == count + i
            && registers[i].type_of() == types[i]
}

impl Builder {
    /// Whether `after` and `result` are what emitting an arithmetic
    /// instruction that does not flag its overflow comes to: where the
    /// values are refused, the error and the builder as it was; else the
    /// builder with the instruction and with one more register, of the type
    /// of `x`, and the handle of that register.
    pub open spec fn emitted_arithmetic(
        &self,
        after: &Builder,
        operation: Arithmetic,
        overflow_behavior: instruction_set::OverflowBehavior,
        x: Value,
        y: Value,
        result: ValidationResult<Temporary>,
    ) -> bool {
        match result {
            Ok(register) => {
                &&& arithmetic_error(x, y).is_none()
                &&& after@ == self@.defined(
                    arithmetic_instruction(
                        operation,
                        instruction_set::IntegerArithmetic {
                            overflow_behavior,
                            x: x.encoded(self@.input_types.len()),
                            y: y.encoded(self@.input_types.len()),
                        },
                    ),
                    seq![x.type_of()],
                )
                &&& register.position() == self@.temporary_types.len()
                &&& register.type_of() == x.type_of()
                &&& after.defines(Value::Temporary(register))
            },
            Err(error) => arithmetic_error(x, y) == Some(*error) && after@ == self@,
        }
    }

    /// Whether `after` and `result` are what emitting an arithmetic
    /// instruction that flags its overflow comes to: where the values are
    /// refused, the error and the builder as it was; else the builder with
    /// the instruction and with two more registers, one of the type of `x`
    /// for the result and a `u8` for the flag, and their handles.
    pub open spec fn emitted_flagged(
        &self,
        after: &Builder,
        operation: Arithmetic,
        x: Value,
        y: Value,
        result: ValidationResult<FlaggedOverflow>,
    ) -> bool {
        match result {
            Ok(registers) => {
                &&& arithmetic_error(x, y).is_none()
                &&& after@ == self@.defined(
                    arithmetic_instruction(
                        operation,
                        instruction_set::IntegerArithmetic {
                            overflow_behavior: instruction_set::OverflowBehavior::Flag,
                            x: x.encoded(self@.input_types.len()),
                            y: y.encoded(self@.input_types.len()),
                        },
                    ),
                    seq![x.type_of(), Any::U8],
                )
                &&& registers.result.position() == self@.temporary_types.len()
                &&& registers.result.type_of() == x.type_of()
                &&& registers.flag.position() == self@.temporary_types.len() + 1
                &&& registers.flag.type_of() == Any::U8
                &&& after.defines(Value::Temporary(registers.result))
                &&& after.defines(Value::Temporary(registers.flag))
            },
            Err(error) => arithmetic_error(x, y) == Some(*error) && after@ == self@,
        }
    }

    /// The values of a list as the instructions of this builder hold them.
    fn convert_values(&self, values: &Vec<Value>) -> (converted: Vec<instruction_set::Value>)
        requires
            self.defines_all(values@),
            self@.registers() <= usize::MAX,
        ensures
            converted@ == encoded_values(values@, self@.input_types.len()),
            forall|i: int|
                0 <= i < converted@.len() ==> (#[trigger] converted@[i]).within(
                    self@.registers(),
                ),
    {
        let input_count = self.input_registers.len();
        let mut converted: Vec<instruction_set::Value> = Vec::new();
        let mut index: usize = 0;
        while index < values.len()
            invariant
                index <= values@.len(),
                converted@.len() == index,
                self.defines_all(values@),
                self@.registers() <= usize::MAX,
                input_count == self@.input_types.len(),
                forall|i: int|
                    0 <= i < index ==> (#[trigger] converted@[i]) == values@[i].encoded(
                        input_count as nat,
                    ) && converted@[i].within(self@.registers()),
            decreases values@.len() - index,
        {
            assert(self.defines(values@[index as int]));
            converted.push(values[index].to_value(input_count));
            index += 1;
        }
        proof {
            assert(converted@ =~= encoded_values(values@, self@.input_types.len()));
        }
        converted
    }

    /// Emits an arithmetic instruction and defines the register of its
    /// result, which has the type of `x`.
    fn integer_arithmetic_instruction(
        &mut self,
        operation: Arithmetic,
        overflow_behavior: instruction_set::OverflowBehavior,
        x: Value,
        y: Value,
    ) -> (result: ValidationResult<Temporary>)
        requires
            old(self).defines(x),
            old(self).defines(y),
            old(self)@.registers() <= usize::MAX,
        ensures
            old(self).emitted_arithmetic(final(self), operation, overflow_behavior, x, y, result),
    {
        let x_type = x.value_type();
        let y_type = y.value_type();
        if !x_type.is_integer() {
            return Err(
                Box::new(
                    ValidationError::ExpectedType(
                        ExpectedTypeError {
                            actual: x_type,
                            kind: ExpectedTypeErrorKind::ExpectedInteger,
                        },
                    ),
                ),
            );
        }
        if x_type != y_type {
            return Err(
                Box::new(
                    ValidationError::ExpectedType(
                        ExpectedTypeError {
                            actual: y_type,
                            kind: ExpectedTypeErrorKind::Expected(x_type),
                        },
                    ),
                ),
            );
        }
        let input_count = self.input_registers.len();
        let operands = instruction_set::IntegerArithmetic::new(
            overflow_behavior,
            x.to_value(input_count),
            y.to_value(input_count),
        );
        let instruction = match operation {
            Arithmetic::Add => Instruction::AddI(operands),
            Arithmetic::Sub => Instruction::SubI(operands),
            Arithmetic::Mul => Instruction::MulI(operands),
        };
        proof {
            assert(instruction@.operands() =~= seq![operands.x, operands.y]);
        }
        self.emit(instruction);
        let register = self.define_temporary(x_type);
        proof {
            assert(old(self)@.temporary_types.push(x_type) =~= old(self)@.temporary_types
                + seq![x_type]);
        }
        Ok(register)
    }

    /// Emits an arithmetic instruction that flags its overflow, and defines
    /// the register of its result and the register of the flag, which is a
    /// `u8`.
    fn integer_arithmetic_flagged(&mut self, operation: Arithmetic, x: Value, y: Value) -> (result:
        ValidationResult<FlaggedOverflow>)
        requires
            old(self).defines(x),
            old(self).defines(y),
            old(self)@.registers() <= usize::MAX,
        ensures
            old(self).emitted_flagged(final(self), operation, x, y, result),
    {
        let result = self.integer_arithmetic_instruction(
            operation,
            instruction_set::OverflowBehavior::Flag,
            x,
            y,
        )?;
        let flag = self.define_temporary(Any::U8);
        proof {
            assert((old(self)@.temporary_types + seq![x.type_of()]).push(Any::U8) =~= old(
                self,
            )@.temporary_types + seq![x.type_of(), Any::U8]);
        }
        Ok(FlaggedOverflow { result, flag })
    }

    /// Emits an instruction of integer arithmetic on `x` and `y`, which
    /// have to be integers of one type. The register that is defined has
    /// that type. Nothing is emitted where the values are refused.
    pub fn emit_arithmetic(
        &mut self,
        operation: Arithmetic,
        overflow_behavior: instruction_set::OverflowBehavior,
        x: Value,
        y: Value,
    ) -> (result: ValidationResult<Temporary>)
        requires
            old(self).defines(x),
            old(self).defines(y),
            old(self)@.registers() <= usize::MAX,
            !(overflow_behavior is Flag),
        ensures
            old(self).emitted_arithmetic(final(self), operation, overflow_behavior, x, y, result),
    {
        self.integer_arithmetic_instruction(operation, overflow_behavior, x, y)
    }

    /// Emits an instruction of integer arithmetic that flags its overflow.
    /// It defines two registers: that of the result, of the type of `x`,
    /// and that of the flag, a `u8`.
    pub fn emit_arithmetic_flagged(&mut self, operation: Arithmetic, x: Value, y: Value) -> (result:
        ValidationResult<FlaggedOverflow>)
        requires
            old(self).defines(x),
            old(self).defines(y),
            old(self)@.registers() <= usize::MAX,
        ensures
            old(self).emitted_flagged(final(self), operation, x, y, result),
    {
        self.integer_arithmetic_flagged(operation, x, y)
    }
}

} // verus!

verus! {

impl Builder {
    /// Emits an instruction that adds two integers and ignores an overflow.
    pub fn emit_add(&mut self, x: Value, y: Value) -> (result: ValidationResult<Temporary>)
        requires
            old(self).defines(x),
            old(self).defines(y),
            old(self)@.registers() <= usize::MAX,
        ensures
            old(self).emitted_arithmetic(
                final(self),
                Arithmetic::Add,
                instruction_set::OverflowBehavior::Ignore,
                x,
                y,
                result,
            ),
    {
        self.integer_arithmetic_instruction(
            Arithmetic::Add,
            instruction_set::OverflowBehavior::Ignore,
            x,
            y,
        )
    }

    /// Emits an instruction that adds two integers and flags an overflow.
    pub fn emit_add_flagged(&mut self, x: Value, y: Value) -> (result: ValidationResult<
        FlaggedOverflow,
    >)
        requires
            old(self).defines(x),
            old(self).defines(y),
            old(self)@.registers() <= usize::MAX,
        ensures
            old(self).emitted_flagged(final(self), Arithmetic::Add, x, y, result),
    {
        self.integer_arithmetic_flagged(Arithmetic::Add, x, y)
    }

    /// Emits an instruction that adds two integers and saturates on an
    /// overflow.
    pub fn emit_add_saturating(&mut self, x: Value, y: Value) -> (result: ValidationResult<
        Temporary,
    >)
        requires
            old(self).defines(x),
            old(self).defines(y),
            old(self)@.registers() <= usize::MAX,
        ensures
            old(self).emitted_arithmetic(
                final(self),
                Arithmetic::Add,
                instruction_set::OverflowBehavior::Saturate,
                x,
                y,
                result,
            ),
    {
        self.integer_arithmetic_instruction(
            Arithmetic::Add,
            instruction_set::OverflowBehavior::Saturate,
            x,
            y,
        )
    }

    /// Emits an instruction that subtracts `x` from `y` and ignores an
    /// overflow.
    pub fn emit_sub(&mut self, x: Value, y: Value) -> (result: ValidationResult<Temporary>)
        requires
            old(self).defines(x),
            old(self).defines(y),
            old(self)@.registers() <= usize::MAX,
        ensures
            old(self).emitted_arithmetic(
                final(self),
                Arithmetic::Sub,
                instruction_set::OverflowBehavior::Ignore,
                x,
                y,
                result,
            ),
    {
        self.integer_arithmetic_instruction(
            Arithmetic::Sub,
            instruction_set::OverflowBehavior::Ignore,
            x,
            y,
        )
    }

    /// Emits an instruction that multiplies two integers and ignores an
    /// overflow.
    pub fn emit_mul(&mut self, x: Value, y: Value) -> (result: ValidationResult<Temporary>)
        requires
            old(self).defines(x),
            old(self).defines(y),
            old(self)@.registers() <= usize::MAX,
        ensures
            old(self).emitted_arithmetic(
                final(self),
                Arithmetic::Mul,
                instruction_set::OverflowBehavior::Ignore,
                x,
                y,
                result,
            ),
    {
        self.integer_arithmetic_instruction(
            Arithmetic::Mul,
            instruction_set::OverflowBehavior::Ignore,
            x,
            y,
        )
    }

    /// Emits a call of a function. The arguments have to be as many as the
    /// function has parameters, each of the type of its parameter. A
    /// register is defined for each result of the function, of the type of
    /// that result, and its handle is handed to `result`. Nothing is
    /// emitted or handed over where the arguments are refused.
    pub fn emit_call<R: FunctionCall>(
        &mut self,
        callee: &Instantiation,
        arguments: Vec<Value>,
        result: &mut R,
    ) -> (checked: ValidationResult<()>)
        requires
            old(self).defines_all(arguments@),
            old(self)@.registers() + callee.callee().signature.result_types.len() <= usize::MAX,
        ensures
            match checked {
                Ok(()) => {
                    &&& types_of(arguments@) == callee.callee().signature.parameter_types
                    &&& final(self)@ == old(self)@.defined(
                        InstructionView::Call {
                            function: callee.template(),
                            arguments: encoded_values(arguments@, old(self)@.input_types.len()),
                        },
                        callee.callee().signature.result_types,
                    )
                    &&& R::keeps() ==> exists|registers: Seq<Temporary>|
                        {
                            &&& #[trigger] handles_of(
                                registers,
                                old(self)@.temporary_types.len(),
                                callee.callee().signature.result_types,
                            )
                            &&& final(result).results() == old(result).results() + registers
                        }
                    &&& !R::keeps() ==> final(result).results() == old(result).results()
                },
                Err(error) => {
                    &&& is_argument_error(
                        types_of(arguments@),
                        callee.callee().signature.parameter_types,
                        *error,
                    )
                    &&& final(self)@ == old(self)@
                    &&& final(result).results() == old(result).results()
                },
            },
    {
        let signature = callee.signature();
        let parameter_types = signature.parameter_types();
        let result_types = signature.result_types();
        match first_difference(&arguments, parameter_types) {
            Some(index) => {
                return Err(
                    Box::new(
                        ValidationError::ArgumentTypeMismatch {
                            expected: parameter_types[index],
                            actual: arguments[index].value_type(),
                            index,
                        },
                    ),
                );
            },
            None => {},
        }
        if arguments.len() != parameter_types.len() {
            return Err(
                Box::new(
                    ValidationError::ArgumentCountMismatch {
                        expected: parameter_types.len(),
                        actual: arguments.len(),
                    },
                ),
            );
        }
        proof {
            assert(types_of(arguments@) =~= parameter_types@);
        }
        let converted = self.convert_values(&arguments);
        let instruction = Instruction::Call(
            instruction_set::CallInstruction { function: callee.index(), arguments: converted },
        );
        self.emit(instruction);
        let ghost emitted = self@;
        let ghost start = old(self)@.temporary_types.len();
        let ghost mut registers: Seq<Temporary> = Seq::empty();
        let mut index: usize = 0;
        proof {
            assert(emitted.temporary_types + result_types@.take(0) =~= emitted.temporary_types);
        }
        while index < result_types.len()
            invariant
                index <= result_types@.len(),
                result_types@ == callee.callee().signature.result_types,
                start == emitted.temporary_types.len(),
                self@ == (BuilderView {
                    temporary_types: emitted.temporary_types + result_types@.take(index as int),
                    ..emitted
                }),
                handles_of(registers, start, result_types@.take(index as int)),
                R::keeps() ==> result.results() == old(result).results() + registers,
                !R::keeps() ==> result.results() == old(result).results(),
            decreases result_types@.len() - index,
        {
            let register = self.define_temporary(result_types[index]);
            result.append_result(register);
            proof {
                let before = registers;
                registers = registers.push(register);
                assert(result_types@.take(index + 1) =~= result_types@.take(index as int).push(
                    result_types@[index as int],
                ));
                assert((emitted.temporary_types + result_types@.take(index as int)).push(
                    result_types@[index as int],
                ) =~= emitted.temporary_types + result_types@.take(index + 1));
                assert((old(result).results() + before).push(register) =~= old(
                    result,
                ).results() + registers);
            }
            index += 1;
        }
        proof {
            assert(result_types@.take(index as int) =~= result_types@);
        }
        Ok(())
    }

    /// Emits the instruction that returns `values` to the caller, and
    /// finishes the block. The values have to be as many as the block has
    /// results, each of the type of its result; else no block is made.
    pub fn emit_ret(self, values: Vec<Value>) -> (finished: ValidationResult<Block>)
        requires
            self.defines_all(values@),
            self@.registers() <= usize::MAX,
        ensures
            match finished {
                Ok(block) => {
                    &&& types_of(values@) == self@.result_types
                    &&& block@ == (BlockView {
                        input_types: self@.input_types,
                        result_types: self@.result_types,
                        temporary_types: self@.temporary_types,
                        instructions: self@.instructions.push(
                            InstructionView::Ret(
                                encoded_values(values@, self@.input_types.len()),
                            ),
                        ),
                    })
                    &&& block@.finished()
                },
                Err(error) => is_result_error(types_of(values@), self@.result_types, *error),
            },
    {
        proof {
            use_type_invariant(&self);
        }
        match first_difference(&values, self.result_types.as_slice()) {
            Some(index) => {
                return Err(
                    Box::new(
                        ValidationError::InvalidResultType(
                            InvalidResultTypeError {
                                index,
                                expected: self.result_types[index],
                                actual: values[index].value_type(),
                            },
                        ),
                    ),
                );
            },
            None => {},
        }
        if values.len() != self.result_types.len() {
            return Err(
                Box::new(
                    ValidationError::ResultCountMismatch {
                        expected: self.result_types.len(),
                        actual: values.len(),
                    },
                ),
            );
        }
        proof {
            assert(types_of(values@) =~= self.result_types@);
        }
        let converted = self.convert_values(&values);
        let ghost before = self@;
        let ghost registers = self@.registers();
        let Builder { result_types, input_registers, temporary_registers, mut instructions } =
            self;
        let terminator = Instruction::Ret(converted);
        proof {
            assert(terminator@.operands() =~= converted@);
        }
        instructions.push(terminator);
        let input_types = types_of_inputs(&input_registers);
        let temporary_types = types_of_temporaries(&temporary_registers);
        let block = Block::from_parts(input_types, result_types, temporary_types, instructions);
        proof {
            assert(block@.instructions =~= before.instructions.push(terminator@));
            assert(block@.registers() == registers);
        }
        Ok(block)
    }
}

/// The types of the registers of a list of inputs.
fn types_of_inputs(inputs: &Vec<Input>) -> (types: Vec<Any>)
    ensures
        types@ == inputs@.map_values(|input: Input| input.type_of()),
{
    let mut types: Vec<Any> = Vec::new();
    let mut index: usize = 0;
    while index < inputs.len()
        invariant
            index <= inputs@.len(),
            types@ == inputs@.take(index as int).map_values(|input: Input| input.type_of()),
        decreases inputs@.len() - index,
    {
        types.push(inputs[index].value_type);
        index += 1;
        assert(types@ =~= inputs@.take(index as int).map_values(|input: Input| input.type_of()));
    }
    assert(inputs@.take(index as int) =~= inputs@);
    types
}

/// The types of the registers of a list of temporaries.
fn types_of_temporaries(temporaries: &Vec<Temporary>) -> (types: Vec<Any>)
    ensures
        types@ == temporaries@.map_values(|temporary: Temporary| temporary.type_of()),
{
    let mut types: Vec<Any> = Vec::new();
    let mut index: usize = 0;
    while index < temporaries.len()
        invariant
            index <= temporaries@.len(),
            types@ == temporaries@.take(index as int).map_values(
                |temporary: Temporary| temporary.type_of(),
            ),
        decreases temporaries@.len() - index,
    {
        types.push(temporaries[index].value_type);
        index += 1;
        assert(types@ =~= temporaries@.take(index as int).map_values(
            |temporary: Temporary| temporary.type_of(),
        ));
    }
    assert(temporaries@.take(index as int) =~= temporaries@);
    types
}

/// Buffers from which builders are made.
#[derive(Debug)]
pub struct BuilderCache {
    instruction_buffer: Vec<Instruction>,
    input_buffer: Vec<Any>,
}

/// What the buffers of a cache hold: the types of the inputs of the
/// builder that was made last, and the instructions that are held for it.
pub struct BuilderCacheView {
    pub input_types: Seq<Any>,
    pub instructions: Seq<InstructionView>,
}

impl View for BuilderCache {
    type V = BuilderCacheView;

    closed spec fn view(&self) -> BuilderCacheView {
        BuilderCacheView {
            input_types: self.input_buffer@,
            instructions: self.instruction_buffer@.map_values(
                |instruction: Instruction| instruction@,
            ),
        }
    }
}

impl BuilderCache {
    /// A cache whose buffers hold nothing.
    pub fn new() -> (cache: BuilderCache)
        ensures
            cache@ == (BuilderCacheView {
                input_types: Seq::empty(),
                instructions: Seq::empty(),
            }),
    {
        let cache = BuilderCache {
            instruction_buffer: Vec::with_capacity(32),
            input_buffer: Vec::new(),
        };
        proof {
            assert(cache@.instructions =~= Seq::<InstructionView>::empty());
        }
        cache
    }

    /// A builder of a block with results and inputs of the given types,
    /// without temporaries and without instructions. The cache then holds
    /// the types of the inputs, and no instructions.
    #[must_use]
    pub fn builder(&mut self, result_types: Vec<Any>, input_types: Vec<Any>) -> (builder: Builder)
        ensures
            builder@ == (BuilderView {
                result_types: result_types@,
                input_types: input_types@,
                temporary_types: Seq::empty(),
                instructions: Seq::empty(),
            }),
            final(self)@ == (BuilderCacheView {
                input_types: input_types@,
                instructions: Seq::empty(),
            }),
    {
        self.instruction_buffer.clear();
        self.input_buffer = input_types;
        proof {
            assert(self@.instructions =~= Seq::<InstructionView>::empty());
        }
        Builder::new(result_types, self.input_buffer.as_slice())
    }
}

impl Default for BuilderCache {
    fn default() -> (cache: BuilderCache)
        ensures
            cache@ == (BuilderCacheView {
                input_types: Seq::empty(),
                instructions: Seq::empty(),
            }),
    {
        BuilderCache::new()
    }
}

impl Clone for Block {
    fn clone(&self) -> (copy: Block)
        ensures
            copy@ == self@,
    {
        Block::from_parts(
            vstd::slice::slice_to_vec(self.input_types.as_slice()),
            vstd::slice::slice_to_vec(self.result_types.as_slice()),
            vstd::slice::slice_to_vec(self.temporary_types.as_slice()),
            crate::instruction_set::duplicate_instructions(self.instructions.as_slice()),
        )
    }
}

impl Block {
    /// Whether two blocks have registers of the same types and the same
    /// instructions.
    pub fn same(&self, other: &Block) -> (equal: bool)
        ensures
            equal == (self@ == other@),
    {
        let inputs = crate::function::same_types(
            self.input_types.as_slice(),
            other.input_types.as_slice(),
        );
        let results = crate::function::same_types(
            self.result_types.as_slice(),
            other.result_types.as_slice(),
        );
        let temporaries = crate::function::same_types(
            self.temporary_types.as_slice(),
            other.temporary_types.as_slice(),
        );
        let instructions = instruction_set::same_instructions(
            self.instructions.as_slice(),
            other.instructions.as_slice(),
        );
        inputs && results && temporaries && instructions
    }

    /// Refuses a block without instructions.
    pub fn validate(&self) -> (checked: ValidationResult<()>)
        ensures
            match checked {
                Ok(()) => self@.instructions.len() > 0,
                Err(error) => *error == ValidationError::EmptyBlock && self@.instructions.len()
                    == 0,
            },
    {
        if self.instructions.len() == 0 {
            return Err(Box::new(ValidationError::EmptyBlock));
        }
        Ok(())
    }
}

impl ValidationError {
    /// The line of text that the error is shown as.
    pub open spec fn text(self) -> Seq<char> {
        match self {
            ValidationError::EmptyBlock => "code blocks must not be empty"@,
            ValidationError::InvalidResultType(invalid) => "expected result at index "@
                + decimal_text(invalid.index as nat)
                + " to be of type "@
                + invalid.expected.text()
                + " but got "@
                + invalid.actual.text(),
            ValidationError::ResultCountMismatch { expected, actual } => "expected "@
                + decimal_text(expected as nat)
                + " results but got "@
                + decimal_text(actual as nat),
            ValidationError::ExpectedType(ExpectedTypeError { actual, kind: ExpectedTypeErrorKind::Expected(expected) }) =>
                "expected "@
                + expected.text()
                + " but got "@
                + actual.text(),
            ValidationError::ExpectedType(ExpectedTypeError { actual, kind: ExpectedTypeErrorKind::ExpectedInteger }) =>
                "expected integer type but got "@
                + actual.text(),
            ValidationError::ArgumentCountMismatch { expected, actual } => "expected "@
                + decimal_text(expected as nat)
                + " arguments but got "@
                + decimal_text(actual as nat),
            ValidationError::ArgumentTypeMismatch { expected, actual, index } =>
                "expected argument at index "@
                + decimal_text(index as nat)
                + " to be of type "@
                + expected.text()
                + ", but got "@
                + actual.text(),
        }
    }

    /// The error as one line of text.
    pub fn message(&self) -> (message: String)
        ensures
            message@ == self.text(),
    {
        match self {
            ValidationError::EmptyBlock => {
                let mut message = String::from_str("code blocks must not be empty");
                message
            },
            ValidationError::InvalidResultType(invalid) => {
                let mut message = String::from_str("expected result at index ");
                append_decimal(&mut message, invalid.index);
                message.append(" to be of type ");
                message.append(invalid.expected.name());
                message.append(" but got ");
                message.append(invalid.actual.name());
                message
            },
            ValidationError::ResultCountMismatch { expected, actual } => {
                let mut message = String::from_str("expected ");
                append_decimal(&mut message, *expected);
                message.append(" results but got ");
                append_decimal(&mut message, *actual);
                message
            },
            ValidationError::ExpectedType(ExpectedTypeError { actual, kind: ExpectedTypeErrorKind::Expected(expected) }) => {
                let mut message = String::from_str("expected ");
                message.append(expected.name());
                message.append(" but got ");
                message.append(actual.name());
                message
            },
            ValidationError::ExpectedType(ExpectedTypeError { actual, kind: ExpectedTypeErrorKind::ExpectedInteger }) => {
                let mut message = String::from_str("expected integer type but got ");
                message.append(actual.name());
                message
            },
            ValidationError::ArgumentCountMismatch { expected, actual } => {
                let mut message = String::from_str("expected ");
                append_decimal(&mut message, *expected);
                message.append(" arguments but got ");
                append_decimal(&mut message, *actual);
                message
            },
            ValidationError::ArgumentTypeMismatch { expected, actual, index } => {
                let mut message = String::from_str("expected argument at index ");
                append_decimal(&mut message, *index);
                message.append(" to be of type ");
                message.append(expected.name());
                message.append(", but got ");
                message.append(actual.name());
                message
            },
        }
    }
}

} // verus!
