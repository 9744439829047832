//! The instructions of code blocks.

use crate::type_system::Any;
use vstd::prelude::*;

verus! {

/// The numbers that name the instructions.
#[derive(Clone, Copy, Debug, PartialEq, Eq, Structural)]
pub enum Opcode {
    Nop,
    Ret,
    /// Reserved: blocks take inputs instead.
    Phi,
    Select,
    Switch,
    Br,
    BrIf,
    Call,
    CallIndr,
    CallRet,
    Add,
    Sub,
    Mul,
    Div,
    And,
    Or,
    Not,
    Xor,
    Rem,
    Mod,
    DivRem,
    ShL,
    ShR,
    RotL,
    RotR,
    ConstI,
    ConstF,
    Cmp,
    PopCnt,
    Clz,
    Ctz,
    Reverse,
    Function,
    ConvI,
    ConvF,
    Field,
    Global,
    MemSt,
    MemLd,
    MemCpy,
    Alloca,
    Break,
    /// No instruction: more bytes of the opcode follow.
    Continuation,
}

/// A number that names no instruction.
#[derive(Clone, Copy, Debug, PartialEq, Eq, Structural)]
pub struct InvalidOpcodeError {
    pub value: u32,
}

impl Opcode {
    /// The number of the opcode.
    pub open spec fn number(self) -> u32 {
        match self {
            Opcode::Nop => 0u32,
            Opcode::Ret => 1u32,
            Opcode::Phi => 2u32,
            Opcode::Select => 3u32,
            Opcode::Switch => 4u32,
            Opcode::Br => 5u32,
            Opcode::BrIf => 6u32,
            Opcode::Call => 7u32,
            Opcode::CallIndr => 8u32,
            Opcode::CallRet => 9u32,
            Opcode::Add => 10u32,
            Opcode::Sub => 11u32,
            Opcode::Mul => 12u32,
            Opcode::Div => 13u32,
            Opcode::And => 14u32,
            Opcode::Or => 15u32,
            Opcode::Not => 16u32,
            Opcode::Xor => 17u32,
            Opcode::Rem => 18u32,
            Opcode::Mod => 19u32,
            Opcode::DivRem => 20u32,
            Opcode::ShL => 21u32,
            Opcode::ShR => 22u32,
            Opcode::RotL => 23u32,
            Opcode::RotR => 24u32,
            Opcode::ConstI => 25u32,
            Opcode::ConstF => 26u32,
            Opcode::Cmp => 27u32,
            Opcode::PopCnt => 28u32,
            Opcode::Clz => 29u32,
            Opcode::Ctz => 30u32,
            Opcode::Reverse => 31u32,
            Opcode::Function => 32u32,
            Opcode::ConvI => 33u32,
            Opcode::ConvF => 34u32,
            Opcode::Field => 35u32,
            Opcode::Global => 36u32,
            Opcode::MemSt => 37u32,
            Opcode::MemLd => 38u32,
            Opcode::MemCpy => 39u32,
            Opcode::Alloca => 253u32,
            Opcode::Break => 254u32,
            Opcode::Continuation => 255u32,
        }
    }

    /// The opcode of a number. The reserved `Phi`, the numbers after
    /// `Field` below `Alloca`, and the continuation byte name none.
    pub open spec fn of_number(value: u32) -> Option<Opcode> {
        if value == 0 {
            Some(Opcode::Nop)
        } else if value == 1 {
            Some(Opcode::Ret)
        } else if value == 3 {
            Some(Opcode::Select)
        } else if value == 4 {
            Some(Opcode::Switch)
        } else if value == 5 {
            Some(Opcode::Br)
        } else if value == 6 {
            Some(Opcode::BrIf)
        } else if value == 7 {
            Some(Opcode::Call)
        } else if value == 8 {
            Some(Opcode::CallIndr)
        } else if value == 9 {
            Some(Opcode::CallRet)
        } else if value == 10 {
            Some(Opcode::Add)
        } else if value == 11 {
            Some(Opcode::Sub)
        } else if value == 12 {
            Some(Opcode::Mul)
        } else if value == 13 {
            Some(Opcode::Div)
        } else if value == 14 {
            Some(Opcode::And)
        } else if value == 15 {
            Some(Opcode::Or)
        } else if value == 16 {
            Some(Opcode::Not)
        } else if value == 17 {
            Some(Opcode::Xor)
        } else if value == 18 {
            Some(Opcode::Rem)
        } else if value == 19 {
            Some(Opcode::Mod)
        } else if value == 20 {
            Some(Opcode::DivRem)
        } else if value == 21 {
            Some(Opcode::ShL)
        } else if value == 22 {
            Some(Opcode::ShR)
        } else if value == 23 {
            Some(Opcode::RotL)
        } else if value == 24 {
            Some(Opcode::RotR)
        } else if value == 25 {
            Some(Opcode::ConstI)
        } else if value == 26 {
            Some(Opcode::ConstF)
        } else if value == 27 {
            Some(Opcode::Cmp)
        } else if value == 28 {
            Some(Opcode::PopCnt)
        } else if value == 29 {
            Some(Opcode::Clz)
        } else if value == 30 {
            Some(Opcode::Ctz)
        } else if value == 31 {
            Some(Opcode::Reverse)
        } else if value == 32 {
            Some(Opcode::Function)
        } else if value == 33 {
            Some(Opcode::ConvI)
        } else if value == 34 {
            Some(Opcode::ConvF)
        } else if value == 35 {
            Some(Opcode::Field)
        } else if value == 253 {
            Some(Opcode::Alloca)
        } else if value == 254 {
            Some(Opcode::Break)
        } else {
            None
        }
    }

    /// The number of the opcode.
    pub fn code(self) -> (value: u32)
        ensures
            value == self.number(),
            value <= 255,
    {
        match self {
            Opcode::Nop => 0,
            Opcode::Ret => 1,
            Opcode::Phi => 2,
            Opcode::Select => 3,
            Opcode::Switch => 4,
            Opcode::Br => 5,
            Opcode::BrIf => 6,
            Opcode::Call => 7,
            Opcode::CallIndr => 8,
            Opcode::CallRet => 9,
            Opcode::Add => 10,
            Opcode::Sub => 11,
            Opcode::Mul => 12,
            Opcode::Div => 13,
            Opcode::And => 14,
            Opcode::Or => 15,
            Opcode::Not => 16,
            Opcode::Xor => 17,
            Opcode::Rem => 18,
            Opcode::Mod => 19,
            Opcode::DivRem => 20,
            Opcode::ShL => 21,
            Opcode::ShR => 22,
            Opcode::RotL => 23,
            Opcode::RotR => 24,
            Opcode::ConstI => 25,
            Opcode::ConstF => 26,
            Opcode::Cmp => 27,
            Opcode::PopCnt => 28,
            Opcode::Clz => 29,
            Opcode::Ctz => 30,
            Opcode::Reverse => 31,
            Opcode::Function => 32,
            Opcode::ConvI => 33,
            Opcode::ConvF => 34,
            Opcode::Field => 35,
            Opcode::Global => 36,
            Opcode::MemSt => 37,
            Opcode::MemLd => 38,
            Opcode::MemCpy => 39,
            Opcode::Alloca => 253,
            Opcode::Break => 254,
            Opcode::Continuation => 255,
        }
    }

    /// The byte of the opcode.
    pub fn byte(self) -> (value: u8)
        ensures
            value == self.number(),
    {
        self.code() as u8
    }

    /// The opcode of a number, where the number names one.
    pub fn try_from_u32(value: u32) -> (opcode: Result<Opcode, InvalidOpcodeError>)
        ensures
            match opcode {
                Ok(found) => Opcode::of_number(value) == Some(found) && found.number() == value,
                Err(error) => Opcode::of_number(value).is_none() && error.value == value,
            },
    {
        if value == 0 {
            Ok(Opcode::Nop)
        } else if value == 1 {
            Ok(Opcode::Ret)
        } else if value == 3 {
            Ok(Opcode::Select)
        } else if value == 4 {
            Ok(Opcode::Switch)
        } else if value == 5 {
            Ok(Opcode::Br)
        } else if value == 6 {
            Ok(Opcode::BrIf)
        } else if value == 7 {
            Ok(Opcode::Call)
        } else if value == 8 {
            Ok(Opcode::CallIndr)
        } else if value == 9 {
            Ok(Opcode::CallRet)
        } else if value == 10 {
            Ok(Opcode::Add)
        } else if value == 11 {
            Ok(Opcode::Sub)
        } else if value == 12 {
            Ok(Opcode::Mul)
        } else if value == 13 {
            Ok(Opcode::Div)
        } else if value == 14 {
            Ok(Opcode::And)
        } else if value == 15 {
            Ok(Opcode::Or)
        } else if value == 16 {
            Ok(Opcode::Not)
        } else if value == 17 {
            Ok(Opcode::Xor)
        } else if value == 18 {
            Ok(Opcode::Rem)
        } else if value == 19 {
            Ok(Opcode::Mod)
        } else if value == 20 {
            Ok(Opcode::DivRem)
        } else if value == 21 {
            Ok(Opcode::ShL)
        } else if value == 22 {
            Ok(Opcode::ShR)
        } else if value == 23 {
            Ok(Opcode::RotL)
        } else if value == 24 {
            Ok(Opcode::RotR)
        } else if value == 25 {
            Ok(Opcode::ConstI)
        } else if value == 26 {
            Ok(Opcode::ConstF)
        } else if value == 27 {
            Ok(Opcode::Cmp)
        } else if value == 28 {
            Ok(Opcode::PopCnt)
        } else if value == 29 {
            Ok(Opcode::Clz)
        } else if value == 30 {
            Ok(Opcode::Ctz)
        } else if value == 31 {
            Ok(Opcode::Reverse)
        } else if value == 32 {
            Ok(Opcode::Function)
        } else if value == 33 {
            Ok(Opcode::ConvI)
        } else if value == 34 {
            Ok(Opcode::ConvF)
        } else if value == 35 {
            Ok(Opcode::Field)
        } else if value == 253 {
            Ok(Opcode::Alloca)
        } else if value == 254 {
            Ok(Opcode::Break)
        } else {
            Err(InvalidOpcodeError { value })
        }
    }
}

/// Every number that names an opcode is the number of that opcode, and an
/// opcode that a number names is named by its own number.
pub proof fn lemma_opcode_numbers(opcode: Opcode, value: u32)
    ensures
        Opcode::of_number(value) == Some(opcode) ==> opcode.number() == value,
        Opcode::of_number(opcode.number()).is_some() ==> Opcode::of_number(opcode.number())
            == Some(opcode),
{
}


/// Flags of an arithmetic instruction.
#[derive(Clone, Copy, Debug, PartialEq, Eq, Structural)]
pub struct ArithmeticFlags {
    bits: u8,
}

impl ArithmeticFlags {
    /// No flag.
    pub fn none() -> (flags: ArithmeticFlags)
        ensures
            flags.value() == 0,
    {
        ArithmeticFlags { bits: 0 }
    }

    /// The flag of an instruction that tells whether its result overflowed.
    pub fn flag_on_overflow() -> (flags: ArithmeticFlags)
        ensures
            flags.value() == 1,
    {
        ArithmeticFlags { bits: 1 }
    }

    /// The flag of an instruction whose result saturates.
    pub fn saturate_on_overflow() -> (flags: ArithmeticFlags)
        ensures
            flags.value() == 2,
    {
        ArithmeticFlags { bits: 2 }
    }

    /// The flag of a division that returns a given value when it divides by zero.
    pub fn return_value_on_divide_by_zero() -> (flags: ArithmeticFlags)
        ensures
            flags.value() == 4,
    {
        ArithmeticFlags { bits: 4 }
    }

    pub closed spec fn value(self) -> u8 {
        self.bits
    }

    /// The flags as a byte.
    pub fn bits(self) -> (bits: u8)
        ensures
            bits == self.value(),
    {
        self.bits
    }
}

/// What an arithmetic instruction does when its result does not fit.
#[derive(Clone, Copy, Debug, PartialEq, Eq, Structural, Hash)]
pub enum OverflowBehavior {
    /// The result wraps around.
    Ignore,
    /// A second temporary register tells whether the result overflowed.
    Flag,
    /// The result is the nearest value of the type.
    Saturate,
}

impl OverflowBehavior {
    /// The byte that stands for the behavior.
    pub open spec fn number(self) -> u8 {
        match self {
            OverflowBehavior::Ignore => 0u8,
            OverflowBehavior::Flag => 1u8,
            OverflowBehavior::Saturate => 2u8,
        }
    }

    /// The behavior that a byte stands for.
    pub open spec fn of_number(value: u8) -> Option<OverflowBehavior> {
        if value == 0 {
            Some(OverflowBehavior::Ignore)
        } else if value == 1 {
            Some(OverflowBehavior::Flag)
        } else if value == 2 {
            Some(OverflowBehavior::Saturate)
        } else {
            None
        }
    }

    /// The number of temporary registers that an arithmetic instruction
    /// with this behavior defines: two when the overflow is flagged, else one.
    pub open spec fn registers(self) -> nat {
        if self is Flag {
            2
        } else {
            1
        }
    }

    pub fn flags(self) -> (flags: ArithmeticFlags)
        ensures
            flags.value() == (match self {
                OverflowBehavior::Ignore => 0u8,
                OverflowBehavior::Flag => 1u8,
                OverflowBehavior::Saturate => 2u8,
            }),
    {
        match self {
            OverflowBehavior::Ignore => ArithmeticFlags { bits: 0 },
            OverflowBehavior::Flag => ArithmeticFlags { bits: 1 },
            OverflowBehavior::Saturate => ArithmeticFlags { bits: 2 },
        }
    }

    /// The byte that stands for the behavior.
    pub fn byte(self) -> (value: u8)
        ensures
            value == self.number(),
            OverflowBehavior::of_number(value) == Some(self),
    {
        match self {
            OverflowBehavior::Ignore => 0,
            OverflowBehavior::Flag => 1,
            OverflowBehavior::Saturate => 2,
        }
    }

    /// The behavior that a byte stands for; a byte that stands for none is
    /// handed back.
    pub fn try_from_u8(value: u8) -> (behavior: Result<OverflowBehavior, u8>)
        ensures
            match behavior {
                Ok(found) => OverflowBehavior::of_number(value) == Some(found),
                Err(refused) => OverflowBehavior::of_number(value).is_none() && refused == value,
            },
    {
        if value == 0 {
            Ok(OverflowBehavior::Ignore)
        } else if value == 1 {
            Ok(OverflowBehavior::Flag)
        } else if value == 2 {
            Ok(OverflowBehavior::Saturate)
        } else {
            Err(value)
        }
    }
}

/// The kind of comparison that a `cmp` instruction makes.
#[derive(Clone, Copy, Debug, PartialEq, Eq, Structural, Hash)]
pub enum ComparisonKind {
    Equal,
    NotEqual,
    LessThan,
    GreaterThan,
    LessThanOrEqual,
    GreaterThanOrEqual,
}

impl ComparisonKind {
    /// The byte that stands for the kind.
    pub open spec fn number(self) -> u8 {
        match self {
            ComparisonKind::Equal => 0u8,
            ComparisonKind::NotEqual => 1u8,
            ComparisonKind::LessThan => 2u8,
            ComparisonKind::GreaterThan => 3u8,
            ComparisonKind::LessThanOrEqual => 4u8,
            ComparisonKind::GreaterThanOrEqual => 5u8,
        }
    }

    /// The byte that stands for the kind.
    pub fn byte(self) -> (value: u8)
        ensures
            value == self.number(),
    {
        match self {
            ComparisonKind::Equal => 0,
            ComparisonKind::NotEqual => 1,
            ComparisonKind::LessThan => 2,
            ComparisonKind::GreaterThan => 3,
            ComparisonKind::LessThanOrEqual => 4,
            ComparisonKind::GreaterThanOrEqual => 5,
        }
    }

    /// The kind that a byte stands for.
    pub open spec fn of_number(value: u8) -> Option<ComparisonKind> {
        if value == 0 {
            Some(ComparisonKind::Equal)
        } else if value == 1 {
            Some(ComparisonKind::NotEqual)
        } else if value == 2 {
            Some(ComparisonKind::LessThan)
        } else if value == 3 {
            Some(ComparisonKind::GreaterThan)
        } else if value == 4 {
            Some(ComparisonKind::LessThanOrEqual)
        } else if value == 5 {
            Some(ComparisonKind::GreaterThanOrEqual)
        } else {
            None
        }
    }

    /// The kind that a byte stands for; a byte that stands for none is
    /// handed back.
    pub fn try_from_u8(value: u8) -> (kind: Result<ComparisonKind, u8>)
        ensures
            match kind {
                Ok(found) => ComparisonKind::of_number(value) == Some(found) && found.number()
                    == value,
                Err(refused) => ComparisonKind::of_number(value).is_none() && refused == value
                    && value > 5,
            },
    {
        if value == 0 {
            Ok(ComparisonKind::Equal)
        } else if value == 1 {
            Ok(ComparisonKind::NotEqual)
        } else if value == 2 {
            Ok(ComparisonKind::LessThan)
        } else if value == 3 {
            Ok(ComparisonKind::GreaterThan)
        } else if value == 4 {
            Ok(ComparisonKind::LessThanOrEqual)
        } else if value == 5 {
            Ok(ComparisonKind::GreaterThanOrEqual)
        } else {
            Err(value)
        }
    }
}

/// An integer constant of a fixed-width integer type.
#[derive(Clone, Copy, Debug, PartialEq, Eq, Structural, Hash)]
pub enum IntegerConstant {
    U8(u8),
    S8(i8),
    U16(u16),
    S16(i16),
    U32(u32),
    S32(i32),
    U64(u64),
    S64(i64),
}

impl IntegerConstant {
    /// The integer that the constant stands for.
    pub open spec fn number(self) -> int {
        match self {
            IntegerConstant::U8(value) => value as int,
            IntegerConstant::S8(value) => value as int,
            IntegerConstant::U16(value) => value as int,
            IntegerConstant::S16(value) => value as int,
            IntegerConstant::U32(value) => value as int,
            IntegerConstant::S32(value) => value as int,
            IntegerConstant::U64(value) => value as int,
            IntegerConstant::S64(value) => value as int,
        }
    }

    /// The type of the constant.
    pub open spec fn type_of(self) -> Any {
        match self {
            IntegerConstant::U8(_) => Any::U8,
            IntegerConstant::S8(_) => Any::S8,
            IntegerConstant::U16(_) => Any::U16,
            IntegerConstant::S16(_) => Any::S16,
            IntegerConstant::U32(_) => Any::U32,
            IntegerConstant::S32(_) => Any::S32,
            IntegerConstant::U64(_) => Any::U64,
            IntegerConstant::S64(_) => Any::S64,
        }
    }

    pub fn value_type(self) -> (value_type: Any)
        ensures
            value_type == self.type_of(),
            value_type.integral(),
    {
        match self {
            IntegerConstant::U8(_) => Any::U8,
            IntegerConstant::S8(_) => Any::S8,
            IntegerConstant::U16(_) => Any::U16,
            IntegerConstant::S16(_) => Any::S16,
            IntegerConstant::U32(_) => Any::U32,
            IntegerConstant::S32(_) => Any::S32,
            IntegerConstant::U64(_) => Any::U64,
            IntegerConstant::S64(_) => Any::S64,
        }
    }

    pub fn value(self) -> (value: i128)
        ensures
            value == self.number(),
    {
        match self {
            IntegerConstant::U8(value) => value as i128,
            IntegerConstant::S8(value) => value as i128,
            IntegerConstant::U16(value) => value as i128,
            IntegerConstant::S16(value) => value as i128,
            IntegerConstant::U32(value) => value as i128,
            IntegerConstant::S32(value) => value as i128,
            IntegerConstant::U64(value) => value as i128,
            IntegerConstant::S64(value) => value as i128,
        }
    }
}

/// The least and the greatest integer of a fixed-width integer type.
pub open spec fn integer_range(value_type: Any) -> Option<(int, int)> {
    match value_type {
        Any::U8 => Some((0int, 0xFFint)),
        Any::S8 => Some((-0x80int, 0x7Fint)),
        Any::U16 => Some((0int, 0xFFFFint)),
        Any::S16 => Some((-0x8000int, 0x7FFFint)),
        Any::U32 => Some((0int, 0xFFFF_FFFFint)),
        Any::S32 => Some((-0x8000_0000int, 0x7FFF_FFFFint)),
        Any::U64 => Some((0int, 0xFFFF_FFFF_FFFF_FFFFint)),
        Any::S64 => Some((-0x8000_0000_0000_0000int, 0x7FFF_FFFF_FFFF_FFFFint)),
        _ => None,
    }
}

/// Whether `value` is an integer of the fixed-width integer type
/// `value_type`.
pub open spec fn in_range(value_type: Any, value: int) -> bool {
    match integer_range(value_type) {
        Some((least, greatest)) => least <= value <= greatest,
        None => false,
    }
}

impl IntegerConstant {
    /// The constant of the given type that stands for `value`, which there
    /// is exactly when the type is a fixed-width integer type that holds
    /// `value`.
    pub fn of_type(value_type: Any, value: i128) -> (constant: Option<IntegerConstant>)
        ensures
            constant.is_some() == in_range(value_type, value as int),
            constant matches Some(made) ==> made.type_of() == value_type && made.number()
                == value,
    {
        match value_type {
            Any::U8 => if 0 <= value && value <= 0xFF {
                Some(IntegerConstant::U8(value as u8))
            } else {
                None
            },
            Any::S8 => if -0x80 <= value && value <= 0x7F {
                Some(IntegerConstant::S8(value as i8))
            } else {
                None
            },
            Any::U16 => if 0 <= value && value <= 0xFFFF {
                Some(IntegerConstant::U16(value as u16))
            } else {
                None
            },
            Any::S16 => if -0x8000 <= value && value <= 0x7FFF {
                Some(IntegerConstant::S16(value as i16))
            } else {
                None
            },
            Any::U32 => if 0 <= value && value <= 0xFFFF_FFFF {
                Some(IntegerConstant::U32(value as u32))
            } else {
                None
            },
            Any::S32 => if -0x8000_0000 <= value && value <= 0x7FFF_FFFF {
                Some(IntegerConstant::S32(value as i32))
            } else {
                None
            },
            Any::U64 => if 0 <= value && value <= 0xFFFF_FFFF_FFFF_FFFF {
                Some(IntegerConstant::U64(value as u64))
            } else {
                None
            },
            Any::S64 => if -0x8000_0000_0000_0000 <= value && value <= 0x7FFF_FFFF_FFFF_FFFF {
                Some(IntegerConstant::S64(value as i64))
            } else {
                None
            },
            _ => None,
        }
    }
}

/// A constant of any kind.
#[derive(Clone, Copy, Debug, PartialEq, Eq, Structural, Hash)]
pub enum Constant {
    Integer(IntegerConstant),
}

/// An operand of an instruction: the register of a flat index, or a
/// constant.
#[derive(Clone, Copy, Debug, PartialEq, Eq, Structural, Hash)]
pub enum Value {
    IndexedRegister(usize),
    Constant(Constant),
}

impl Value {
    /// Whether the value is a constant, or a register whose index is below
    /// `registers`.
    pub open spec fn within(self, registers: nat) -> bool {
        match self {
            Value::IndexedRegister(index) => index < registers,
            Value::Constant(_) => true,
        }
    }
}

/// The operands of an instruction of integer arithmetic.
#[derive(Clone, Copy, Debug, PartialEq, Eq, Structural, Hash)]
pub struct IntegerArithmetic {
    pub overflow_behavior: OverflowBehavior,
    pub x: Value,
    pub y: Value,
}

impl IntegerArithmetic {
    pub fn new(overflow_behavior: OverflowBehavior, x: Value, y: Value) -> (operation: Self)
        ensures
            operation == (IntegerArithmetic { overflow_behavior, x, y }),
    {
        IntegerArithmetic { overflow_behavior, x, y }
    }

    pub fn overflow_behavior(&self) -> (behavior: OverflowBehavior)
        ensures
            behavior == self.overflow_behavior,
    {
        self.overflow_behavior
    }

    pub fn x_value(&self) -> (x: &Value)
        ensures
            *x == self.x,
    {
        &self.x
    }

    pub fn y_value(&self) -> (y: &Value)
        ensures
            *y == self.y,
    {
        &self.y
    }
}

/// The operands of a call: the index of the function that is called, and
/// the arguments.
#[derive(Clone, Debug, PartialEq, Eq, Hash)]
pub struct CallInstruction {
    pub function: usize,
    pub arguments: Vec<Value>,
}

/// An instruction: an opcode with its operands.
#[derive(Clone, Debug, PartialEq, Eq, Hash)]
pub enum Instruction {
    /// Does nothing.
    Nop,
    /// A breakpoint, which does nothing where no debugger is attached.
    Break,
    /// Returns the values to the caller. It ends a block.
    Ret(Vec<Value>),
    /// Calls a function. It defines a temporary register for each result of
    /// the function.
    Call(CallInstruction),
    /// The sum of two integers.
    AddI(IntegerArithmetic),
    /// The difference of two integers.
    SubI(IntegerArithmetic),
    /// The product of two integers.
    MulI(IntegerArithmetic),
    /// An integer constant.
    ConstI(IntegerConstant),
    /// Goes on with the code block of an index, which gets the values as
    /// its inputs. It ends a block.
    Br { target: usize, inputs: Vec<Value> },
    /// Goes on with the code block of the first index where the condition
    /// is not zero, and else with that of the second; the block gets the
    /// values as its inputs. It ends a block.
    BrIf { condition: Value, true_branch: usize, false_branch: usize, inputs: Vec<Value> },
    /// Goes on with the code block that stands with the constant that the
    /// value compared is equal to, and with the default block where it is
    /// equal to none. It ends a block.
    Switch { comparison: Value, default_target: usize, targets: Vec<(IntegerConstant, usize)> },
    /// An integer that is converted to an integer type.
    ConvI { target_type: Any, overflow: OverflowBehavior, operand: Value },
    /// Whether a comparison of two values holds.
    Cmp { x: Value, kind: ComparisonKind, y: Value },
    /// The address of the field of an index in an object.
    Field { field: usize, object: Value },
    /// The address of memory on the stack for a number of elements of the
    /// type of an index.
    Alloca { amount: Value, element_type: usize },
}

/// What an instruction stands for.
pub enum InstructionView {
    Nop,
    Break,
    Ret(Seq<Value>),
    Call { function: usize, arguments: Seq<Value> },
    AddI(IntegerArithmetic),
    SubI(IntegerArithmetic),
    MulI(IntegerArithmetic),
    ConstI(IntegerConstant),
    Br { target: usize, inputs: Seq<Value> },
    BrIf { condition: Value, true_branch: usize, false_branch: usize, inputs: Seq<Value> },
    Switch { comparison: Value, default_target: usize, targets: Seq<(IntegerConstant, usize)> },
    ConvI { target_type: Any, overflow: OverflowBehavior, operand: Value },
    Cmp { x: Value, kind: ComparisonKind, y: Value },
    Field { field: usize, object: Value },
    Alloca { amount: Value, element_type: usize },
}

impl InstructionView {
    /// The opcode of the instruction.
    pub open spec fn opcode(self) -> Opcode {
        match self {
            InstructionView::Nop => Opcode::Nop,
            InstructionView::Break => Opcode::Break,
            InstructionView::Ret(_) => Opcode::Ret,
            InstructionView::Call { .. } => Opcode::Call,
            InstructionView::AddI(_) => Opcode::Add,
            InstructionView::SubI(_) => Opcode::Sub,
            InstructionView::MulI(_) => Opcode::Mul,
            InstructionView::ConstI(_) => Opcode::ConstI,
            InstructionView::Br { .. } => Opcode::Br,
            InstructionView::BrIf { .. } => Opcode::BrIf,
            InstructionView::Switch { .. } => Opcode::Switch,
            InstructionView::ConvI { .. } => Opcode::ConvI,
            InstructionView::Cmp { .. } => Opcode::Cmp,
            InstructionView::Field { .. } => Opcode::Field,
            InstructionView::Alloca { .. } => Opcode::Alloca,
        }
    }

    /// Whether the instruction ends a block: it returns, or goes on with
    /// another block.
    pub open spec fn terminates(self) -> bool {
        self is Ret || self is Br || self is BrIf || self is Switch
    }

    /// The number of temporary registers that the instruction defines,
    /// where `results` gives the number of results of each function.
    pub open spec fn defined(self, results: spec_fn(usize) -> nat) -> nat {
        match self {
            InstructionView::Nop
            | InstructionView::Break
            | InstructionView::Ret(_)
            | InstructionView::Br { .. }
            | InstructionView::BrIf { .. }
            | InstructionView::Switch { .. } => 0,
            InstructionView::Call { function, .. } => results(function),
            InstructionView::AddI(operation)
            | InstructionView::SubI(operation)
            | InstructionView::MulI(operation) => operation.overflow_behavior.registers(),
            InstructionView::ConvI { overflow, .. } => overflow.registers(),
            InstructionView::ConstI(_)
            | InstructionView::Cmp { .. }
            | InstructionView::Field { .. }
            | InstructionView::Alloca { .. } => 1,
        }
    }

    /// The operands of the instruction that are values.
    pub open spec fn operands(self) -> Seq<Value> {
        match self {
            InstructionView::Ret(values) => values,
            InstructionView::Call { arguments, .. } => arguments,
            InstructionView::AddI(operation)
            | InstructionView::SubI(operation)
            | InstructionView::MulI(operation) => seq![operation.x, operation.y],
            InstructionView::Br { inputs, .. } => inputs,
            InstructionView::BrIf { condition, inputs, .. } => seq![condition] + inputs,
            InstructionView::Switch { comparison, .. } => seq![comparison],
            InstructionView::ConvI { operand, .. } => seq![operand],
            InstructionView::Cmp { x, y, .. } => seq![x, y],
            InstructionView::Field { object, .. } => seq![object],
            InstructionView::Alloca { amount, .. } => seq![amount],
            _ => Seq::empty(),
        }
    }

    /// Whether every register that the instruction reads has an index below
    /// `registers`.
    pub open spec fn within(self, registers: nat) -> bool {
        forall|i: int|
            0 <= i < self.operands().len() ==> (#[trigger] self.operands()[i]).within(registers)
    }
}

impl View for Instruction {
    type V = InstructionView;

    open spec fn view(&self) -> InstructionView {
        match self {
            Instruction::Nop => InstructionView::Nop,
            Instruction::Break => InstructionView::Break,
            Instruction::Ret(values) => InstructionView::Ret(values@),
            Instruction::Call(call) => InstructionView::Call {
                function: call.function,
                arguments: call.arguments@,
            },
            Instruction::AddI(operation) => InstructionView::AddI(*operation),
            Instruction::SubI(operation) => InstructionView::SubI(*operation),
            Instruction::MulI(operation) => InstructionView::MulI(*operation),
            Instruction::ConstI(constant) => InstructionView::ConstI(*constant),
            Instruction::Br { target, inputs } => InstructionView::Br {
                target: *target,
                inputs: inputs@,
            },
            Instruction::BrIf { condition, true_branch, false_branch, inputs } =>
                InstructionView::BrIf {
                condition: *condition,
                true_branch: *true_branch,
                false_branch: *false_branch,
                inputs: inputs@,
            },
            Instruction::Switch { comparison, default_target, targets } =>
                InstructionView::Switch {
                comparison: *comparison,
                default_target: *default_target,
                targets: targets@,
            },
            Instruction::ConvI { target_type, overflow, operand } => InstructionView::ConvI {
                target_type: *target_type,
                overflow: *overflow,
                operand: *operand,
            },
            Instruction::Cmp { x, kind, y } => InstructionView::Cmp { x: *x, kind: *kind, y: *y },
            Instruction::Field { field, object } => InstructionView::Field {
                field: *field,
                object: *object,
            },
            Instruction::Alloca { amount, element_type } => InstructionView::Alloca {
                amount: *amount,
                element_type: *element_type,
            },
        }
    }
}

impl Instruction {
    pub fn opcode(&self) -> (opcode: Opcode)
        ensures
            opcode == self@.opcode(),
    {
        match self {
            Instruction::Nop => Opcode::Nop,
            Instruction::Break => Opcode::Break,
            Instruction::Ret(_) => Opcode::Ret,
            Instruction::Call(_) => Opcode::Call,
            Instruction::AddI(_) => Opcode::Add,
            Instruction::SubI(_) => Opcode::Sub,
            Instruction::MulI(_) => Opcode::Mul,
            Instruction::ConstI(_) => Opcode::ConstI,
            Instruction::Br { .. } => Opcode::Br,
            Instruction::BrIf { .. } => Opcode::BrIf,
            Instruction::Switch { .. } => Opcode::Switch,
            Instruction::ConvI { .. } => Opcode::ConvI,
            Instruction::Cmp { .. } => Opcode::Cmp,
            Instruction::Field { .. } => Opcode::Field,
            Instruction::Alloca { .. } => Opcode::Alloca,
        }
    }

    /// Whether the instruction ends a block.
    pub fn is_terminator(&self) -> (terminates: bool)
        ensures
            terminates == self@.terminates(),
    {
        match self {
            Instruction::Ret(_)
            | Instruction::Br { .. }
            | Instruction::BrIf { .. }
            | Instruction::Switch { .. } => true,
            _ => false,
        }
    }

    /// The number of temporary registers that the instruction defines:
    /// none for control flow, one for most instructions, two where an
    /// overflow is flagged, and for a call the number of results of the
    /// function called, which is `function_return_count`.
    pub fn return_count(&self, function_return_count: usize) -> (count: usize)
        ensures
            count == self@.defined(|function: usize| function_return_count as nat),
    {
        match self {
            Instruction::Nop
            | Instruction::Break
            | Instruction::Ret(_)
            | Instruction::Br { .. }
            | Instruction::BrIf { .. }
            | Instruction::Switch { .. } => 0,
            Instruction::Call(_) => function_return_count,
            Instruction::AddI(operation)
            | Instruction::SubI(operation)
            | Instruction::MulI(operation) => match operation.overflow_behavior {
                OverflowBehavior::Flag => 2,
                _ => 1,
            },
            Instruction::ConvI { overflow, .. } => match overflow {
                OverflowBehavior::Flag => 2,
                _ => 1,
            },
            Instruction::ConstI(_)
            | Instruction::Cmp { .. }
            | Instruction::Field { .. }
            | Instruction::Alloca { .. } => 1,
        }
    }

    /// A copy of the instruction.
    pub fn duplicate(&self) -> (copy: Instruction)
        ensures
            copy@ == self@,
    {
        match self {
            Instruction::Nop => Instruction::Nop,
            Instruction::Break => Instruction::Break,
            Instruction::Ret(values) => Instruction::Ret(values.clone()),
            Instruction::Call(call) => Instruction::Call(
                CallInstruction { function: call.function, arguments: call.arguments.clone() },
            ),
            Instruction::AddI(operation) => Instruction::AddI(*operation),
            Instruction::SubI(operation) => Instruction::SubI(*operation),
            Instruction::MulI(operation) => Instruction::MulI(*operation),
            Instruction::ConstI(constant) => Instruction::ConstI(*constant),
            Instruction::Br { target, inputs } => Instruction::Br {
                target: *target,
                inputs: inputs.clone(),
            },
            Instruction::BrIf { condition, true_branch, false_branch, inputs } =>
                Instruction::BrIf {
                condition: *condition,
                true_branch: *true_branch,
                false_branch: *false_branch,
                inputs: inputs.clone(),
            },
            Instruction::Switch { comparison, default_target, targets } => Instruction::Switch {
                comparison: *comparison,
                default_target: *default_target,
                targets: vstd::slice::slice_to_vec(targets.as_slice()),
            },
            Instruction::ConvI { target_type, overflow, operand } => Instruction::ConvI {
                target_type: *target_type,
                overflow: *overflow,
                operand: *operand,
            },
            Instruction::Cmp { x, kind, y } => Instruction::Cmp { x: *x, kind: *kind, y: *y },
            Instruction::Field { field, object } => Instruction::Field {
                field: *field,
                object: *object,
            },
            Instruction::Alloca { amount, element_type } => Instruction::Alloca {
                amount: *amount,
                element_type: *element_type,
            },
        }
    }
}

} // verus!

verus! {

/// Whether two lists hold the same values in the same order.
pub fn same_values(left: &[Value], right: &[Value]) -> (equal: bool)
    ensures
        equal == (left@ == right@),
{
    if left.len() != right.len() {
        return false;
    }
    let mut index: usize = 0;
    while index < left.len()
        invariant
            index <= left@.len(),
            left@.len() == right@.len(),
            forall|i: int| 0 <= i < index ==> left@[i] == right@[i],
        decreases left@.len() - index,
    {
        if left[index] != right[index] {
            return false;
        }
        index += 1;
    }
    assert(left@ =~= right@);
    true
}

/// Whether two lists hold the same targets of a `switch` in the same
/// order.
pub fn same_targets(left: &[(IntegerConstant, usize)], right: &[(IntegerConstant, usize)]) -> (equal:
    bool)
    ensures
        equal == (left@ == right@),
{
    if left.len() != right.len() {
        return false;
    }
    let mut index: usize = 0;
    while index < left.len()
        invariant
            index <= left@.len(),
            left@.len() == right@.len(),
            forall|i: int| 0 <= i < index ==> left@[i] == right@[i],
        decreases left@.len() - index,
    {
        if left[index].0 != right[index].0 || left[index].1 != right[index].1 {
            return false;
        }
        index += 1;
    }
    assert(left@ =~= right@);
    true
}

impl Instruction {
    /// Whether two instructions are the same instruction with the same
    /// operands.
    pub fn same(&self, other: &Instruction) -> (equal: bool)
        ensures
            equal == (self@ == other@),
    {
        match (self, other) {
            (Instruction::Nop, Instruction::Nop) => true,
            (Instruction::Break, Instruction::Break) => true,
            (Instruction::Ret(left), Instruction::Ret(right)) => same_values(
                left.as_slice(),
                right.as_slice(),
            ),
            (Instruction::Call(left), Instruction::Call(right)) => left.function == right.function
                && same_values(left.arguments.as_slice(), right.arguments.as_slice()),
            (Instruction::AddI(left), Instruction::AddI(right)) => *left == *right,
            (Instruction::SubI(left), Instruction::SubI(right)) => *left == *right,
            (Instruction::MulI(left), Instruction::MulI(right)) => *left == *right,
            (Instruction::ConstI(left), Instruction::ConstI(right)) => *left == *right,
            (
                Instruction::Br { target, inputs },
                Instruction::Br { target: other_target, inputs: other_inputs },
            ) => *target == *other_target && same_values(
                inputs.as_slice(),
                other_inputs.as_slice(),
            ),
            (
                Instruction::BrIf { condition, true_branch, false_branch, inputs },
                Instruction::BrIf {
                    condition: other_condition,
                    true_branch: other_true,
                    false_branch: other_false,
                    inputs: other_inputs,
                },
            ) => *condition == *other_condition && *true_branch == *other_true && *false_branch
                == *other_false && same_values(inputs.as_slice(), other_inputs.as_slice()),
            (
                Instruction::Switch { comparison, default_target, targets },
                Instruction::Switch {
                    comparison: other_comparison,
                    default_target: other_default,
                    targets: other_targets,
                },
            ) => *comparison == *other_comparison && *default_target == *other_default
                && same_targets(targets.as_slice(), other_targets.as_slice()),
            (
                Instruction::ConvI { target_type, overflow, operand },
                Instruction::ConvI {
                    target_type: other_type,
                    overflow: other_overflow,
                    operand: other_operand,
                },
            ) => *target_type == *other_type && *overflow == *other_overflow && *operand
                == *other_operand,
            (
                Instruction::Cmp { x, kind, y },
                Instruction::Cmp { x: other_x, kind: other_kind, y: other_y },
            ) => *x == *other_x && *kind == *other_kind && *y == *other_y,
            (
                Instruction::Field { field, object },
                Instruction::Field { field: other_field, object: other_object },
            ) => *field == *other_field && *object == *other_object,
            (
                Instruction::Alloca { amount, element_type },
                Instruction::Alloca { amount: other_amount, element_type: other_type },
            ) => *amount == *other_amount && *element_type == *other_type,
            _ => false,
        }
    }
}

/// Whether two lists hold the same instructions in the same order.
pub fn same_instructions(left: &[Instruction], right: &[Instruction]) -> (equal: bool)
    ensures
        equal == (left@.map_values(|instruction: Instruction| instruction@) == right@.map_values(
            |instruction: Instruction| instruction@,
        )),
{
    let ghost left_views = left@.map_values(|instruction: Instruction| instruction@);
    let ghost right_views = right@.map_values(|instruction: Instruction| instruction@);
    if left.len() != right.len() {
        proof {
            assert(left_views.len() != right_views.len());
        }
        return false;
    }
    let mut index: usize = 0;
    while index < left.len()
        invariant
            index <= left@.len(),
            left@.len() == right@.len(),
            left_views == left@.map_values(|instruction: Instruction| instruction@),
            right_views == right@.map_values(|instruction: Instruction| instruction@),
            forall|i: int| 0 <= i < index ==> left_views[i] == right_views[i],
        decreases left@.len() - index,
    {
        if !left[index].same(&right[index]) {
            proof {
                assert(left_views[index as int] != right_views[index as int]);
            }
            return false;
        }
        index += 1;
    }
    assert(left_views =~= right_views);
    true
}

/// A copy of a list of instructions.
pub fn duplicate_instructions(instructions: &[Instruction]) -> (copy: Vec<Instruction>)
    ensures
        copy@.map_values(|instruction: Instruction| instruction@) == instructions@.map_values(
            |instruction: Instruction| instruction@,
        ),
{
    let mut copy: Vec<Instruction> = Vec::new();
    let mut index: usize = 0;
    while index < instructions.len()
        invariant
            index <= instructions@.len(),
            copy@.len() == index,
            forall|i: int| 0 <= i < index ==> (#[trigger] copy@[i])@ == instructions@[i]@,
        decreases instructions@.len() - index,
    {
        copy.push(instructions[index].duplicate());
        index += 1;
    }
    proof {
        assert(copy@.map_values(|instruction: Instruction| instruction@)
            =~= instructions@.map_values(|instruction: Instruction| instruction@));
    }
    copy
}

} // verus!
