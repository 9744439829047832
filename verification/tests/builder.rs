use sailar::block::{
    Arithmetic, Builder, BuilderCache, ConstantInteger, ExpectedTypeError, ExpectedTypeErrorKind,
    InvalidResultTypeError, Temporary, ValidationError, Value,
};
use sailar::function::{Function, Instantiation, Signature};
use sailar::identifier::Identifier;
use sailar::instruction_set;
use sailar::instruction_set::{Instruction, OverflowBehavior};
use sailar::type_system::Any;
use std::sync::Arc;

fn callee(results: Vec<Any>, parameters: Vec<Any>) -> Instantiation {
    let signature = Arc::new(Signature::new(results, parameters));
    Instantiation::new(3, Function::new(Identifier::from_str("callee").unwrap(), signature))
}

fn s32(value: i32) -> Value {
    Value::integer(ConstantInteger::S32(value))
}

#[test]
fn ret_of_the_declared_type_finishes_the_block() {
    let mut cache = BuilderCache::new();
    let builder = cache.builder(vec![Any::S32], vec![]);
    let block = builder.emit_ret(vec![s32(0)]).unwrap();
    assert_eq!(block.result_types(), &[Any::S32]);
    assert_eq!(block.input_types(), &[] as &[Any]);
    assert_eq!(block.temporary_types(), &[] as &[Any]);
    assert_eq!(
        block.instructions(),
        &[Instruction::Ret(vec![instruction_set::Value::Constant(
            instruction_set::Constant::Integer(instruction_set::IntegerConstant::S32(0))
        )])]
    );
    assert!(block.validate().is_ok());
}

#[test]
fn ret_of_another_type_is_refused() {
    let builder = Builder::new(vec![Any::S32], &[]);
    let error = builder.emit_ret(vec![Value::integer(ConstantInteger::U8(5))]).unwrap_err();
    assert_eq!(
        *error,
        ValidationError::InvalidResultType(InvalidResultTypeError {
            index: 0,
            expected: Any::S32,
            actual: Any::U8
        })
    );
}

#[test]
fn ret_of_another_count_is_refused() {
    let builder = Builder::new(vec![Any::S32, Any::S32], &[]);
    let error = builder.emit_ret(vec![s32(1)]).unwrap_err();
    assert_eq!(*error, ValidationError::ResultCountMismatch { expected: 2, actual: 1 });

    let builder = Builder::new(vec![Any::S32], &[]);
    let error = builder.emit_ret(vec![s32(1), s32(2), s32(3)]).unwrap_err();
    assert_eq!(*error, ValidationError::ResultCountMismatch { expected: 1, actual: 3 });
}

#[test]
fn the_first_wrong_type_comes_before_the_count() {
    let builder = Builder::new(vec![Any::S32, Any::U8], &[]);
    let error = builder
        .emit_ret(vec![s32(1), s32(2), s32(3)])
        .unwrap_err();
    assert_eq!(
        *error,
        ValidationError::InvalidResultType(InvalidResultTypeError {
            index: 1,
            expected: Any::U8,
            actual: Any::S32
        })
    );
}

#[test]
fn call_with_too_few_arguments_is_refused() {
    let mut builder = Builder::new(vec![], &[]);
    let target = callee(vec![Any::S32], vec![Any::S32, Any::S32]);
    let mut results: Vec<Temporary> = Vec::new();
    let error = builder.emit_call(&target, vec![s32(1)], &mut results).unwrap_err();
    assert_eq!(*error, ValidationError::ArgumentCountMismatch { expected: 2, actual: 1 });
    assert!(results.is_empty());
}

#[test]
fn call_with_too_many_arguments_is_refused() {
    let mut builder = Builder::new(vec![], &[]);
    let target = callee(vec![], vec![Any::S32]);
    let error = builder.emit_call(&target, vec![s32(1), s32(2)], &mut ()).unwrap_err();
    assert_eq!(*error, ValidationError::ArgumentCountMismatch { expected: 1, actual: 2 });
}

#[test]
fn call_with_an_argument_of_another_type_is_refused() {
    let mut builder = Builder::new(vec![], &[]);
    let target = callee(vec![], vec![Any::S32, Any::U16]);
    let error = builder.emit_call(&target, vec![s32(1), s32(2)], &mut ()).unwrap_err();
    assert_eq!(
        *error,
        ValidationError::ArgumentTypeMismatch { expected: Any::U16, actual: Any::S32, index: 1 }
    );
}

#[test]
fn accepted_call_defines_a_register_for_each_result() {
    let mut builder = Builder::new(vec![Any::U8, Any::S64], &[Any::S32]);
    let input = builder.input_registers()[0];
    let target = callee(vec![Any::U8, Any::S64], vec![Any::S32, Any::S32]);
    let mut results: Vec<Temporary> = Vec::new();
    builder
        .emit_call(&target, vec![Value::Input(input), s32(7)], &mut results)
        .unwrap();
    assert_eq!(results.len(), 2);
    assert_eq!(results[0].index(), 0);
    assert_eq!(*results[0].value_type(), Any::U8);
    assert_eq!(results[1].index(), 1);
    assert_eq!(*results[1].value_type(), Any::S64);
    let block = builder
        .emit_ret(vec![Value::Temporary(results[0]), Value::Temporary(results[1])])
        .unwrap();
    assert_eq!(block.temporary_types(), &[Any::U8, Any::S64]);
    assert_eq!(block.instructions().len(), 2);
    match &block.instructions()[0] {
        Instruction::Call(call) => {
            assert_eq!(call.function, 3);
            assert_eq!(
                call.arguments,
                vec![
                    instruction_set::Value::IndexedRegister(0),
                    instruction_set::Value::Constant(instruction_set::Constant::Integer(
                        instruction_set::IntegerConstant::S32(7)
                    ))
                ]
            );
        }
        other => panic!("unexpected instruction {:?}", other),
    }
    assert_eq!(
        block.instructions()[1],
        Instruction::Ret(vec![
            instruction_set::Value::IndexedRegister(1),
            instruction_set::Value::IndexedRegister(2)
        ])
    );
}

#[test]
fn results_of_a_call_can_be_ignored() {
    let mut builder = Builder::new(vec![], &[]);
    let target = callee(vec![Any::U8], vec![]);
    builder.emit_call(&target, vec![], &mut ()).unwrap();
    let block = builder.emit_ret(vec![]).unwrap();
    assert_eq!(block.temporary_types(), &[Any::U8]);
}

#[test]
fn add_needs_integers_of_one_type() {
    let mut builder = Builder::new(vec![], &[Any::F32, Any::S32, Any::U8]);
    let inputs = builder.input_registers().to_vec();
    let error = builder.emit_add(Value::Input(inputs[0]), Value::Input(inputs[1])).unwrap_err();
    assert_eq!(
        *error,
        ValidationError::ExpectedType(ExpectedTypeError {
            actual: Any::F32,
            kind: ExpectedTypeErrorKind::ExpectedInteger
        })
    );
    let error = builder.emit_add(Value::Input(inputs[1]), Value::Input(inputs[2])).unwrap_err();
    assert_eq!(
        *error,
        ValidationError::ExpectedType(ExpectedTypeError {
            actual: Any::U8,
            kind: ExpectedTypeErrorKind::Expected(Any::S32)
        })
    );
    assert_eq!(builder.register_count(), Some(3));
}

#[test]
fn add_defines_a_register_of_the_type_of_its_operands() {
    let mut builder = Builder::new(vec![Any::S32], &[Any::S32]);
    let input = builder.input_registers()[0];
    let sum = builder.emit_add(Value::Input(input), s32(2)).unwrap();
    assert_eq!(sum.index(), 0);
    assert_eq!(*sum.value_type(), Any::S32);
    let product = builder.emit_mul(Value::Temporary(sum), Value::Input(input)).unwrap();
    assert_eq!(product.index(), 1);
    let difference = builder
        .emit_sub(Value::Temporary(product), Value::Temporary(sum))
        .unwrap();
    let saturated = builder
        .emit_add_saturating(Value::Temporary(difference), s32(1))
        .unwrap();
    let block = builder.emit_ret(vec![Value::Temporary(saturated)]).unwrap();
    assert_eq!(block.temporary_types(), &[Any::S32, Any::S32, Any::S32, Any::S32]);
    assert_eq!(
        block.instructions()[0],
        Instruction::AddI(instruction_set::IntegerArithmetic {
            overflow_behavior: OverflowBehavior::Ignore,
            x: instruction_set::Value::IndexedRegister(0),
            y: instruction_set::Value::Constant(instruction_set::Constant::Integer(
                instruction_set::IntegerConstant::S32(2)
            )),
        })
    );
    assert_eq!(
        block.instructions()[1],
        Instruction::MulI(instruction_set::IntegerArithmetic {
            overflow_behavior: OverflowBehavior::Ignore,
            x: instruction_set::Value::IndexedRegister(1),
            y: instruction_set::Value::IndexedRegister(0),
        })
    );
    assert_eq!(block.instructions()[2].return_count(0), 1);
    assert!(matches!(
        &block.instructions()[3],
        Instruction::AddI(operation) if operation.overflow_behavior == OverflowBehavior::Saturate
    ));
    assert_eq!(
        block.instructions()[4],
        Instruction::Ret(vec![instruction_set::Value::IndexedRegister(4)])
    );
}

#[test]
fn flagged_add_defines_a_second_register_for_the_flag() {
    let mut builder = Builder::new(vec![Any::U8], &[Any::U16]);
    let input = builder.input_registers()[0];
    let registers = builder
        .emit_add_flagged(Value::Input(input), Value::Input(input))
        .unwrap();
    assert_eq!(registers.result_register().index(), 0);
    assert_eq!(*registers.result_register().value_type(), Any::U16);
    assert_eq!(registers.flag_register().index(), 1);
    assert_eq!(*registers.flag_register().value_type(), Any::U8);
    let block = builder.emit_ret(vec![Value::Temporary(registers.flag_register())]).unwrap();
    assert_eq!(block.temporary_types(), &[Any::U16, Any::U8]);
    assert_eq!(block.instructions()[0].return_count(0), 2);
    assert_eq!(
        block.instructions()[1],
        Instruction::Ret(vec![instruction_set::Value::IndexedRegister(2)])
    );
}

#[test]
fn general_arithmetic_emission() {
    let mut builder = Builder::new(vec![], &[]);
    let difference = builder
        .emit_arithmetic(Arithmetic::Sub, OverflowBehavior::Saturate, s32(5), s32(3))
        .unwrap();
    let flagged = builder
        .emit_arithmetic_flagged(Arithmetic::Mul, Value::Temporary(difference), s32(3))
        .unwrap();
    assert_eq!(flagged.result.index(), 1);
    assert_eq!(flagged.flag.index(), 2);
    let block = builder.emit_ret(vec![]).unwrap();
    assert!(matches!(block.instructions()[0], Instruction::SubI(_)));
    assert!(matches!(block.instructions()[1], Instruction::MulI(_)));
}

#[test]
fn constants_define_registers_of_their_types() {
    let mut builder = Builder::new(vec![Any::U64], &[]);
    builder.emit_nop();
    let register = builder.emit_const_i(ConstantInteger::U64(9));
    builder.emit_break();
    assert_eq!(register.index(), 0);
    assert_eq!(*register.value_type(), Any::U64);
    assert!(builder.owns(&Value::Temporary(register)));
    let block = builder.emit_ret(vec![Value::Temporary(register)]).unwrap();
    assert_eq!(
        block.instructions(),
        &[
            Instruction::Nop,
            Instruction::ConstI(instruction_set::IntegerConstant::U64(9)),
            Instruction::Break,
            Instruction::Ret(vec![instruction_set::Value::IndexedRegister(0)])
        ]
    );
    let last = block.instructions().len() - 1;
    for (index, instruction) in block.instructions().iter().enumerate() {
        assert_eq!(instruction.is_terminator(), index == last);
    }
}

#[test]
fn a_builder_does_not_own_the_handles_of_another() {
    let mut first = Builder::new(vec![], &[]);
    let second = Builder::new(vec![], &[Any::S32]);
    let register = first.emit_const_i(ConstantInteger::S8(1));
    assert!(first.owns(&Value::Temporary(register)));
    assert!(!second.owns(&Value::Temporary(register)));
    assert!(!first.owns(&Value::Input(second.input_registers()[0])));
    assert!(second.owns(&s32(1)));
}

#[test]
fn a_block_without_instructions_is_refused() {
    let block = sailar::block::Block::from_parts(vec![], vec![], vec![], vec![]);
    assert_eq!(*block.validate().unwrap_err(), ValidationError::EmptyBlock);
}
