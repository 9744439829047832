//! The binary form of values and instructions.

use crate::binary::format::{
    lemma_counted_round_trip, models, read_counted, write_counted, written_counted, counted_fit,
    parsed_counted, Format,
};
use crate::binary::signature::{tag_of, type_from_tag, type_of_tag, type_tag, lemma_type_tags};
use crate::binary::{
    length_bytes, length_value, lemma_length_round_trip, lemma_length_value_bound,
    lemma_length_value_prefix, read_length, write_length, LengthSize,
};
use crate::instruction_set::{
    CallInstruction, ComparisonKind, Constant, Instruction, InstructionView, IntegerArithmetic,
    IntegerConstant, InvalidOpcodeError, OverflowBehavior, Value,
};
use crate::module::parser::{
    agrees, parsed_length, Error, ErrorKind, InvalidTypeCode, Parsed, Wrapper,
};
use crate::type_system::Any;
use vstd::prelude::*;
use vstd::slice::slice_subrange;

verus! {

/// The number of bytes of an integer of a fixed-width integer type, and
/// zero for every other type.
pub open spec fn payload_width(value_type: Any) -> nat {
    match value_type {
        Any::U8 | Any::S8 => 1,
        Any::U16 | Any::S16 => 2,
        Any::U32 | Any::S32 => 4,
        Any::U64 | Any::S64 => 8,
        _ => 0,
    }
}

/// The number that is one more than the greatest unsigned integer of as
/// many bytes as an integer of the type has.
pub open spec fn payload_limit(value_type: Any) -> nat {
    match value_type {
        Any::U8 | Any::S8 => 0x100,
        Any::U16 | Any::S16 => 0x1_0000,
        Any::U32 | Any::S32 => 0x1_0000_0000,
        Any::U64 | Any::S64 => 0x1_0000_0000_0000_0000,
        _ => 0,
    }
}

/// The bits of an integer constant, as an unsigned integer: the value of an
/// unsigned constant, and the two's complement of a signed one.
pub open spec fn payload_of(constant: IntegerConstant) -> nat {
    let value = constant.number();
    if value >= 0 {
        value as nat
    } else {
        (value + payload_limit(constant.type_of())) as nat
    }
}

/// The constant of a fixed-width integer type with the given bits.
pub open spec fn constant_of(value_type: Any, payload: nat) -> IntegerConstant {
    let signed = if 2 * payload >= payload_limit(value_type) {
        payload - payload_limit(value_type)
    } else {
        payload as int
    };
    match value_type {
        Any::U8 => IntegerConstant::U8(payload as u8),
        Any::S8 => IntegerConstant::S8(signed as i8),
        Any::U16 => IntegerConstant::U16(payload as u16),
        Any::S16 => IntegerConstant::S16(signed as i16),
        Any::U32 => IntegerConstant::U32(payload as u32),
        Any::S32 => IntegerConstant::S32(signed as i32),
        Any::U64 => IntegerConstant::U64(payload as u64),
        _ => IntegerConstant::S64(signed as i64),
    }
}

/// The bytes of the bits of an integer, least significant first.
pub open spec fn payload_bytes(value_type: Any, payload: nat) -> Seq<u8> {
    match value_type {
        Any::U8 | Any::S8 => length_bytes(LengthSize::One, payload),
        Any::U16 | Any::S16 => length_bytes(LengthSize::Two, payload),
        Any::U32 | Any::S32 => length_bytes(LengthSize::Four, payload),
        Any::U64 | Any::S64 => length_bytes(LengthSize::Four, payload % 0x1_0000_0000)
            + length_bytes(LengthSize::Four, payload / 0x1_0000_0000),
        _ => Seq::empty(),
    }
}

/// The bits that the first bytes of `bytes` hold for an integer of the type.
pub open spec fn payload_value(value_type: Any, bytes: Seq<u8>) -> nat {
    match value_type {
        Any::U8 | Any::S8 => length_value(LengthSize::One, bytes),
        Any::U16 | Any::S16 => length_value(LengthSize::Two, bytes),
        Any::U32 | Any::S32 => length_value(LengthSize::Four, bytes),
        Any::U64 | Any::S64 => length_value(LengthSize::Four, bytes) + 0x1_0000_0000
            * length_value(LengthSize::Four, bytes.skip(4)),
        _ => 0,
    }
}

/// The bits of a constant are below the limit of its type, and the constant
/// of these bits is the constant itself.
pub proof fn lemma_payload_of_constant(constant: IntegerConstant)
    ensures
        payload_of(constant) < payload_limit(constant.type_of()),
        constant_of(constant.type_of(), payload_of(constant)) == constant,
        payload_width(constant.type_of()) > 0,
{
}

/// The bits of an integer are read back from their bytes, whatever follows.
pub proof fn lemma_payload_round_trip(value_type: Any, payload: nat, rest: Seq<u8>)
    requires
        payload < payload_limit(value_type),
    ensures
        payload_bytes(value_type, payload).len() == payload_width(value_type),
        payload_value(value_type, payload_bytes(value_type, payload) + rest) == payload,
{
    match value_type {
        Any::U8 | Any::S8 => {
            lemma_length_round_trip(LengthSize::One, payload, rest);
        },
        Any::U16 | Any::S16 => {
            lemma_length_round_trip(LengthSize::Two, payload, rest);
        },
        Any::U32 | Any::S32 => {
            lemma_length_round_trip(LengthSize::Four, payload, rest);
        },
        Any::U64 | Any::S64 => {
            let low = payload % 0x1_0000_0000;
            let high = payload / 0x1_0000_0000;
            let first = length_bytes(LengthSize::Four, low);
            let second = length_bytes(LengthSize::Four, high);
            let all = payload_bytes(value_type, payload) + rest;
            assert(all =~= first + (second + rest));
            lemma_length_round_trip(LengthSize::Four, low, second + rest);
            assert(all.skip(4) =~= second + rest);
            lemma_length_round_trip(LengthSize::Four, high, rest);
        },
        _ => {},
    }
}

/// The bytes of an integer constant: the byte of its type, then its bits.
pub open spec fn constant_bytes(constant: IntegerConstant) -> Seq<u8> {
    seq![type_tag(constant.type_of())] + payload_bytes(constant.type_of(), payload_of(constant))
}

/// What reading an integer constant comes to.
pub open spec fn parsed_constant(bytes: Seq<u8>) -> Parsed<IntegerConstant> {
    if bytes.len() == 0 {
        Parsed::Failed { kind: ErrorKind::UnexpectedEnd, offset: 0 }
    } else {
        match type_of_tag(bytes[0]) {
            None => Parsed::Failed {
                kind: ErrorKind::InvalidTypeSignatureTag(InvalidTypeCode { value: bytes[0] }),
                offset: 0,
            },
            Some(value_type) => if payload_width(value_type) == 0 {
                Parsed::Failed {
                    kind: ErrorKind::InvalidTypeSignatureTag(InvalidTypeCode { value: bytes[0] }),
                    offset: 0,
                }
            } else if bytes.len() - 1 < payload_width(value_type) {
                Parsed::Failed { kind: ErrorKind::UnexpectedEnd, offset: 1 }
            } else {
                Parsed::Done {
                    value: constant_of(value_type, payload_value(value_type, bytes.skip(1))),
                    consumed: 1 + payload_width(value_type),
                }
            },
        }
    }
}

/// An integer constant that was written is read back, whatever follows it.
pub proof fn lemma_constant_round_trip(constant: IntegerConstant, rest: Seq<u8>)
    ensures
        parsed_constant(constant_bytes(constant) + rest) == (Parsed::Done {
            value: constant,
            consumed: constant_bytes(constant).len(),
        }),
        constant_bytes(constant).len() == 1 + payload_width(constant.type_of()),
{
    let value_type = constant.type_of();
    let payload = payload_of(constant);
    let all = constant_bytes(constant) + rest;
    lemma_type_tags(value_type, 0);
    lemma_payload_of_constant(constant);
    lemma_payload_round_trip(value_type, payload, rest);
    assert(all[0] == type_tag(value_type));
    assert(all.skip(1) =~= payload_bytes(value_type, payload) + rest);
}

/// The bits of a constant.
fn payload(constant: IntegerConstant) -> (bits: u64)
    ensures
        bits == payload_of(constant),
{
    match constant {
        IntegerConstant::U8(value) => value as u64,
        IntegerConstant::S8(value) => if value >= 0 {
            value as u64
        } else {
            (value as i64 + 0x100) as u64
        },
        IntegerConstant::U16(value) => value as u64,
        IntegerConstant::S16(value) => if value >= 0 {
            value as u64
        } else {
            (value as i64 + 0x1_0000) as u64
        },
        IntegerConstant::U32(value) => value as u64,
        IntegerConstant::S32(value) => if value >= 0 {
            value as u64
        } else {
            (value as i64 + 0x1_0000_0000) as u64
        },
        IntegerConstant::U64(value) => value,
        IntegerConstant::S64(value) => if value >= 0 {
            value as u64
        } else {
            (value as i128 + 0x1_0000_0000_0000_0000) as u64
        },
    }
}

/// The constant of a fixed-width integer type with the given bits.
fn constant_from(value_type: Any, bits: u64) -> (constant: IntegerConstant)
    requires
        payload_width(value_type) > 0,
        bits < payload_limit(value_type),
    ensures
        constant == constant_of(value_type, bits as nat),
{
    match value_type {
        Any::U8 => IntegerConstant::U8(bits as u8),
        Any::S8 => if bits >= 0x80 {
            IntegerConstant::S8((bits as i64 - 0x100) as i8)
        } else {
            IntegerConstant::S8(bits as i8)
        },
        Any::U16 => IntegerConstant::U16(bits as u16),
        Any::S16 => if bits >= 0x8000 {
            IntegerConstant::S16((bits as i64 - 0x1_0000) as i16)
        } else {
            IntegerConstant::S16(bits as i16)
        },
        Any::U32 => IntegerConstant::U32(bits as u32),
        Any::S32 => if bits >= 0x8000_0000 {
            IntegerConstant::S32((bits as i64 - 0x1_0000_0000) as i32)
        } else {
            IntegerConstant::S32(bits as i32)
        },
        Any::U64 => IntegerConstant::U64(bits),
        _ => if bits >= 0x8000_0000_0000_0000 {
            IntegerConstant::S64((bits as i128 - 0x1_0000_0000_0000_0000) as i64)
        } else {
            IntegerConstant::S64(bits as i64)
        },
    }
}

/// The number of bytes of an integer of the type.
fn width_of(value_type: Any) -> (width: usize)
    ensures
        width == payload_width(value_type),
{
    match value_type {
        Any::U8 | Any::S8 => 1,
        Any::U16 | Any::S16 => 2,
        Any::U32 | Any::S32 => 4,
        Any::U64 | Any::S64 => 8,
        _ => 0,
    }
}

/// Appends an integer constant to `out`.
pub fn write_constant(constant: IntegerConstant, out: &mut Vec<u8>)
    ensures
        final(out)@ == old(out)@ + constant_bytes(constant),
{
    let value_type = constant.value_type();
    let bits = payload(constant);
    proof {
        lemma_payload_of_constant(constant);
    }
    out.push(tag_of(value_type));
    let ghost tagged = out@;
    match value_type {
        Any::U8 | Any::S8 => {
            let fit = write_length(LengthSize::One, bits as usize, out);
        },
        Any::U16 | Any::S16 => {
            let fit = write_length(LengthSize::Two, bits as usize, out);
        },
        Any::U32 | Any::S32 => {
            let _ = write_length(LengthSize::Four, bits as usize, out);
        },
        _ => {
            let _ = write_length(LengthSize::Four, (bits % 0x1_0000_0000) as usize, out);
            let _ = write_length(LengthSize::Four, (bits / 0x1_0000_0000) as usize, out);
        },
    }
    proof {
        assert(out@ =~= tagged + payload_bytes(value_type, bits as nat));
        assert(out@ =~= old(out)@ + constant_bytes(constant));
    }
}

/// Reads an integer constant.
pub fn read_constant(source: &mut Wrapper<'_>) -> (constant: Result<IntegerConstant, Error>)
    ensures
        agrees(
            constant,
            |read: IntegerConstant| read,
            parsed_constant(old(source).remaining()),
            *old(source),
            *final(source),
        ),
{
    let ghost bytes = source.remaining();
    let start = source.offset();
    let tag = match source.read_byte() {
        Some(tag) => tag,
        None => {
            return Err(Error::new(start, ErrorKind::UnexpectedEnd));
        },
    };
    let value_type = match type_from_tag(tag) {
        Ok(value_type) => value_type,
        Err(error) => {
            return Err(Error::new(start, ErrorKind::InvalidTypeSignatureTag(error)));
        },
    };
    let width = width_of(value_type);
    if width == 0 {
        return Err(
            Error::new(
                start,
                ErrorKind::InvalidTypeSignatureTag(InvalidTypeCode { value: tag }),
            ),
        );
    }
    let content = source.read_exact(width)?;
    let ghost rest = bytes.skip(1);
    proof {
        assert(content@.is_prefix_of(rest));
        assert(bytes.skip(1).skip(width as int) =~= bytes.skip(1 + width));
    }
    let bits: u64 = match value_type {
        Any::U8 | Any::S8 => {
            proof {
                lemma_length_value_prefix(LengthSize::One, rest, content@);
                lemma_length_value_bound(LengthSize::One, rest);
            }
            match read_length(LengthSize::One, content) {
                Some(bits) => bits as u64,
                None => 0,
            }
        },
        Any::U16 | Any::S16 => {
            proof {
                lemma_length_value_prefix(LengthSize::Two, rest, content@);
                lemma_length_value_bound(LengthSize::Two, rest);
            }
            match read_length(LengthSize::Two, content) {
                Some(bits) => bits as u64,
                None => 0,
            }
        },
        Any::U32 | Any::S32 => {
            proof {
                lemma_length_value_prefix(LengthSize::Four, rest, content@);
                lemma_length_value_bound(LengthSize::Four, rest);
            }
            match read_length(LengthSize::Four, content) {
                Some(bits) => bits as u64,
                None => 0,
            }
        },
        _ => {
            let upper = slice_subrange(content, 4, 8);
            proof {
                lemma_length_value_prefix(LengthSize::Four, rest, content@);
                lemma_length_value_bound(LengthSize::Four, rest);
                assert(upper@.is_prefix_of(rest.skip(4)));
                lemma_length_value_prefix(LengthSize::Four, rest.skip(4), upper@);
                lemma_length_value_bound(LengthSize::Four, rest.skip(4));
            }
            let low: u64 = match read_length(LengthSize::Four, content) {
                Some(bits) => bits as u64,
                None => 0,
            };
            let high: u64 = match read_length(LengthSize::Four, upper) {
                Some(bits) => bits as u64,
                None => 0,
            };
            low + 0x1_0000_0000 * high
        },
    };
    Ok(constant_from(value_type, bits))
}

/// The form of a value: a byte that tells a register from a constant, then
/// the index of the register or the constant.
pub struct ValueFormat;

impl Format for ValueFormat {
    type T = Value;

    type V = Value;

    open spec fn model(value: Value) -> Value {
        value
    }

    open spec fn valid(value: Value) -> bool {
        true
    }

    open spec fn fits(size: LengthSize, value: Value) -> bool {
        match value {
            Value::IndexedRegister(index) => size.holds(index as nat),
            Value::Constant(_) => true,
        }
    }

    open spec fn written(size: LengthSize, value: Value) -> Seq<u8> {
        match value {
            Value::IndexedRegister(index) => seq![0u8] + length_bytes(size, index as nat),
            Value::Constant(Constant::Integer(constant)) => seq![1u8] + constant_bytes(constant),
        }
    }

    open spec fn parsed(size: LengthSize, bytes: Seq<u8>, index: nat) -> Parsed<Value> {
        if bytes.len() == 0 {
            Parsed::Failed { kind: ErrorKind::UnexpectedEnd, offset: 0 }
        } else if bytes[0] == 0 {
            match parsed_length(size, bytes.skip(1), ErrorKind::UnexpectedEnd) {
                Parsed::Failed { kind, offset } => Parsed::Failed { kind, offset: 1 + offset },
                Parsed::Done { value, consumed } => Parsed::Done {
                    value: Value::IndexedRegister(value),
                    consumed: 1 + consumed,
                },
            }
        } else if bytes[0] == 1 {
            match parsed_constant(bytes.skip(1)) {
                Parsed::Failed { kind, offset } => Parsed::Failed { kind, offset: 1 + offset },
                Parsed::Done { value, consumed } => Parsed::Done {
                    value: Value::Constant(Constant::Integer(value)),
                    consumed: 1 + consumed,
                },
            }
        } else {
            Parsed::Failed { kind: ErrorKind::InvalidValueFlags(bytes[0]), offset: 0 }
        }
    }

    proof fn round_trip(size: LengthSize, value: Value, index: nat, rest: Seq<u8>) {
        let all = Self::written(size, value) + rest;
        match value {
            Value::IndexedRegister(register) => {
                assert(all[0] == 0u8);
                assert(all.skip(1) =~= length_bytes(size, register as nat) + rest);
                lemma_length_round_trip(size, register as nat, rest);
            },
            Value::Constant(Constant::Integer(constant)) => {
                assert(all[0] == 1u8);
                assert(all.skip(1) =~= constant_bytes(constant) + rest);
                lemma_constant_round_trip(constant, rest);
            },
        }
    }

    proof fn written_some(size: LengthSize, value: Value) {
    }

    fn write(value: &Value, size: LengthSize, out: &mut Vec<u8>) -> (written: bool) {
        match value {
            Value::IndexedRegister(index) => {
                if !size.fits(*index) {
                    return false;
                }
                out.push(0);
                let _ = write_length(size, *index, out);
                proof {
                    assert(out@ =~= old(out)@ + Self::written(size, *value));
                }
                true
            },
            Value::Constant(Constant::Integer(constant)) => {
                out.push(1);
                write_constant(*constant, out);
                proof {
                    assert(out@ =~= old(out)@ + Self::written(size, *value));
                }
                true
            },
        }
    }

    fn read(source: &mut Wrapper<'_>, index: usize) -> (value: Result<Value, Error>) {
        let ghost bytes = source.remaining();
        let start = source.offset();
        let flags = match source.read_byte() {
            Some(flags) => flags,
            None => {
                return Err(Error::new(start, ErrorKind::UnexpectedEnd));
            },
        };
        if flags == 0 {
            let register = source.read_length(ErrorKind::UnexpectedEnd)?;
            proof {
                let width = old(source).size().width();
                assert(bytes.skip(1).skip(width as int) =~= bytes.skip((1 + width) as int));
            }
            Ok(Value::IndexedRegister(register))
        } else if flags == 1 {
            let constant = read_constant(source)?;
            proof {
                let consumed = (bytes.len() - 1 - source.remaining().len()) as nat;
                assert(bytes.skip(1).skip(consumed as int) =~= bytes.skip((1 + consumed) as int));
            }
            Ok(Value::Constant(Constant::Integer(constant)))
        } else {
            Err(Error::new(start, ErrorKind::InvalidValueFlags(flags)))
        }
    }
}

} // verus!

verus! {

/// The bytes of the operands of an instruction of integer arithmetic: the
/// byte of the overflow behavior, then the two values.
pub open spec fn arithmetic_bytes(size: LengthSize, operation: IntegerArithmetic) -> Seq<u8> {
    seq![operation.overflow_behavior.number()] + ValueFormat::written(size, operation.x)
        + ValueFormat::written(size, operation.y)
}

/// What reading the operands of an instruction of integer arithmetic comes
/// to.
pub open spec fn parsed_arithmetic(size: LengthSize, bytes: Seq<u8>) -> Parsed<IntegerArithmetic> {
    if bytes.len() == 0 {
        Parsed::Failed { kind: ErrorKind::UnexpectedEnd, offset: 0 }
    } else {
        match OverflowBehavior::of_number(bytes[0]) {
            None => Parsed::Failed {
                kind: ErrorKind::InvalidOverflowBehavior(bytes[0]),
                offset: 0,
            },
            Some(overflow_behavior) => {
                let bytes1 = bytes.skip(1);
                match ValueFormat::parsed(size, bytes1, 0) {
                    Parsed::Failed { kind, offset } => Parsed::Failed { kind, offset: 1 + offset },
                    Parsed::Done { value: x, consumed: first } => {
                        let bytes2 = bytes1.skip(first as int);
                        match ValueFormat::parsed(size, bytes2, 1) {
                            Parsed::Failed { kind, offset } => Parsed::Failed {
                                kind,
                                offset: 1 + first + offset,
                            },
                            Parsed::Done { value: y, consumed: second } => Parsed::Done {
                                value: IntegerArithmetic { overflow_behavior, x, y },
                                consumed: 1 + first + second,
                            },
                        }
                    },
                }
            },
        }
    }
}

/// The operands of an instruction of integer arithmetic are read back from
/// their bytes, whatever follows.
pub proof fn lemma_arithmetic_round_trip(
    size: LengthSize,
    operation: IntegerArithmetic,
    rest: Seq<u8>,
)
    requires
        ValueFormat::fits(size, operation.x),
        ValueFormat::fits(size, operation.y),
    ensures
        parsed_arithmetic(size, arithmetic_bytes(size, operation) + rest) == (Parsed::Done {
            value: operation,
            consumed: arithmetic_bytes(size, operation).len(),
        }),
{
    let x = ValueFormat::written(size, operation.x);
    let y = ValueFormat::written(size, operation.y);
    let all = arithmetic_bytes(size, operation) + rest;
    assert(all[0] == operation.overflow_behavior.number());
    let bytes1 = all.skip(1);
    assert(bytes1 =~= x + (y + rest));
    ValueFormat::round_trip(size, operation.x, 0, y + rest);
    let bytes2 = bytes1.skip(x.len() as int);
    assert(bytes2 =~= y + rest);
    ValueFormat::round_trip(size, operation.y, 1, rest);
}

fn write_arithmetic(operation: &IntegerArithmetic, size: LengthSize, out: &mut Vec<u8>) -> (written:
    bool)
    ensures
        written == (ValueFormat::fits(size, operation.x) && ValueFormat::fits(size, operation.y)),
        written ==> final(out)@ == old(out)@ + arithmetic_bytes(size, *operation),
{
    out.push(operation.overflow_behavior.byte());
    let first = ValueFormat::write(&operation.x, size, out);
    let second = ValueFormat::write(&operation.y, size, out);
    proof {
        if first && second {
            assert(out@ =~= old(out)@ + arithmetic_bytes(size, *operation));
        }
    }
    first && second
}

fn read_arithmetic(source: &mut Wrapper<'_>) -> (operation: Result<IntegerArithmetic, Error>)
    ensures
        agrees(
            operation,
            |read: IntegerArithmetic| read,
            parsed_arithmetic(old(source).size(), old(source).remaining()),
            *old(source),
            *final(source),
        ),
{
    let ghost bytes = source.remaining();
    let start = source.offset();
    let byte = match source.read_byte() {
        Some(byte) => byte,
        None => {
            return Err(Error::new(start, ErrorKind::UnexpectedEnd));
        },
    };
    let overflow_behavior = match OverflowBehavior::try_from_u8(byte) {
        Ok(behavior) => behavior,
        Err(refused) => {
            return Err(Error::new(start, ErrorKind::InvalidOverflowBehavior(refused)));
        },
    };
    let ghost bytes1 = source.remaining();
    let x = ValueFormat::read(source, 0)?;
    let ghost bytes2 = source.remaining();
    let y = ValueFormat::read(source, 1)?;
    proof {
        let first = (bytes1.len() - bytes2.len()) as nat;
        let second = (bytes2.len() - source.remaining().len()) as nat;
        assert(bytes.skip(1).skip(first as int).skip(second as int) =~= bytes.skip(
            (1 + first + second) as int,
        ));
    }
    Ok(IntegerArithmetic { overflow_behavior, x, y })
}

/// The form of one target of a `switch`: the constant, then the index of
/// the code block for it.
pub struct TargetFormat;

impl Format for TargetFormat {
    type T = (IntegerConstant, usize);

    type V = (IntegerConstant, usize);

    open spec fn model(value: (IntegerConstant, usize)) -> (IntegerConstant, usize) {
        value
    }

    open spec fn valid(value: (IntegerConstant, usize)) -> bool {
        true
    }

    open spec fn fits(size: LengthSize, value: (IntegerConstant, usize)) -> bool {
        size.holds(value.1 as nat)
    }

    open spec fn written(size: LengthSize, value: (IntegerConstant, usize)) -> Seq<u8> {
        constant_bytes(value.0) + length_bytes(size, value.1 as nat)
    }

    open spec fn parsed(size: LengthSize, bytes: Seq<u8>, index: nat) -> Parsed<
        (IntegerConstant, usize),
    > {
        match parsed_constant(bytes) {
            Parsed::Failed { kind, offset } => Parsed::Failed { kind, offset },
            Parsed::Done { value: constant, consumed: first } => match parsed_length(
                size,
                bytes.skip(first as int),
                ErrorKind::UnexpectedEnd,
            ) {
                Parsed::Failed { kind, offset } => Parsed::Failed { kind, offset: first + offset },
                Parsed::Done { value: target, consumed: second } => Parsed::Done {
                    value: (constant, target),
                    consumed: first + second,
                },
            },
        }
    }

    proof fn round_trip(
        size: LengthSize,
        value: (IntegerConstant, usize),
        index: nat,
        rest: Seq<u8>,
    ) {
        let first = constant_bytes(value.0);
        let second = length_bytes(size, value.1 as nat);
        let all = Self::written(size, value) + rest;
        assert(all =~= first + (second + rest));
        lemma_constant_round_trip(value.0, second + rest);
        assert(all.skip(first.len() as int) =~= second + rest);
        lemma_length_round_trip(size, value.1 as nat, rest);
    }

    proof fn written_some(size: LengthSize, value: (IntegerConstant, usize)) {
        lemma_constant_round_trip(value.0, Seq::empty());
    }

    fn write(value: &(IntegerConstant, usize), size: LengthSize, out: &mut Vec<u8>) -> (written:
        bool) {
        write_constant(value.0, out);
        let fit = write_length(size, value.1, out);
        proof {
            if fit {
                assert(out@ =~= old(out)@ + Self::written(size, *value));
            }
        }
        fit
    }

    fn read(source: &mut Wrapper<'_>, index: usize) -> (value: Result<
        (IntegerConstant, usize),
        Error,
    >) {
        let ghost bytes = source.remaining();
        let constant = read_constant(source)?;
        let ghost bytes1 = source.remaining();
        let target = source.read_length(ErrorKind::UnexpectedEnd)?;
        proof {
            let first = (bytes.len() - bytes1.len()) as nat;
            let second = (bytes1.len() - source.remaining().len()) as nat;
            assert(bytes.skip(first as int).skip(second as int) =~= bytes.skip(
                (first + second) as int,
            ));
        }
        Ok((constant, target))
    }
}

/// The bytes of the operands of `br`: the index of the block, then the
/// inputs with their count.
pub open spec fn branch_bytes(size: LengthSize, target: usize, inputs: Seq<Value>) -> Seq<u8> {
    length_bytes(size, target as nat) + written_counted::<ValueFormat>(size, inputs)
}

/// What reading the operands of `br` comes to: the index of the block and
/// the inputs.
pub open spec fn parsed_branch(size: LengthSize, bytes: Seq<u8>) -> Parsed<(usize, Seq<Value>)> {
    match parsed_length(size, bytes, ErrorKind::UnexpectedEnd) {
        Parsed::Failed { kind, offset } => Parsed::Failed { kind, offset },
        Parsed::Done { value: target, consumed: first } => match parsed_counted::<ValueFormat>(
            size,
            bytes.skip(first as int),
            ErrorKind::UnexpectedEnd,
        ) {
            Parsed::Failed { kind, offset } => Parsed::Failed { kind, offset: first + offset },
            Parsed::Done { value: inputs, consumed: second } => Parsed::Done {
                value: (target, inputs),
                consumed: first + second,
            },
        },
    }
}

/// The operands of `br` are read back from their bytes, whatever follows.
pub proof fn lemma_branch_round_trip(
    size: LengthSize,
    target: usize,
    inputs: Seq<Value>,
    rest: Seq<u8>,
)
    requires
        size.holds(target as nat),
        counted_fit::<ValueFormat>(size, inputs),
    ensures
        parsed_branch(size, branch_bytes(size, target, inputs) + rest) == (Parsed::Done {
            value: (target, inputs),
            consumed: branch_bytes(size, target, inputs).len(),
        }),
{
    let first = length_bytes(size, target as nat);
    let second = written_counted::<ValueFormat>(size, inputs);
    let all = branch_bytes(size, target, inputs) + rest;
    assert(all =~= first + (second + rest));
    lemma_length_round_trip(size, target as nat, second + rest);
    assert(all.skip(first.len() as int) =~= second + rest);
    lemma_counted_round_trip::<ValueFormat>(size, inputs, ErrorKind::UnexpectedEnd, rest);
}

fn write_branch(target: usize, inputs: &Vec<Value>, size: LengthSize, out: &mut Vec<u8>) -> (written:
    bool)
    ensures
        written == (size.holds(target as nat) && counted_fit::<ValueFormat>(size, inputs@)),
        written ==> final(out)@ == old(out)@ + branch_bytes(size, target, inputs@),
{
    let first = write_length(size, target, out);
    let second = write_counted::<ValueFormat>(inputs, size, out);
    proof {
        assert(models::<ValueFormat>(inputs@) =~= inputs@);
        if first && second {
            assert(out@ =~= old(out)@ + branch_bytes(size, target, inputs@));
        }
    }
    first && second
}

fn read_branch(source: &mut Wrapper<'_>) -> (branch: Result<(usize, Vec<Value>), Error>)
    ensures
        agrees(
            branch,
            |read: (usize, Vec<Value>)| (read.0, read.1@),
            parsed_branch(old(source).size(), old(source).remaining()),
            *old(source),
            *final(source),
        ),
{
    let ghost bytes = source.remaining();
    let target = source.read_length(ErrorKind::UnexpectedEnd)?;
    let ghost bytes1 = source.remaining();
    let inputs = read_counted::<ValueFormat>(source, ErrorKind::UnexpectedEnd)?;
    proof {
        assert(models::<ValueFormat>(inputs@) =~= inputs@);
        let first = (bytes.len() - bytes1.len()) as nat;
        let second = (bytes1.len() - source.remaining().len()) as nat;
        assert(bytes.skip(first as int).skip(second as int) =~= bytes.skip(
            (first + second) as int,
        ));
    }
    Ok((target, inputs))
}

/// The bytes of the operands of `br.if`: the condition, then what `br` to
/// the first block has, with the index of the second block before it.
pub open spec fn branch_if_bytes(
    size: LengthSize,
    condition: Value,
    true_branch: usize,
    false_branch: usize,
    inputs: Seq<Value>,
) -> Seq<u8> {
    ValueFormat::written(size, condition) + length_bytes(size, false_branch as nat)
        + branch_bytes(size, true_branch, inputs)
}

/// What reading the operands of `br.if` comes to.
pub open spec fn parsed_branch_if(size: LengthSize, bytes: Seq<u8>) -> Parsed<InstructionView> {
    match ValueFormat::parsed(size, bytes, 0) {
        Parsed::Failed { kind, offset } => Parsed::Failed { kind, offset },
        Parsed::Done { value: condition, consumed: first } => match parsed_length(
            size,
            bytes.skip(first as int),
            ErrorKind::UnexpectedEnd,
        ) {
            Parsed::Failed { kind, offset } => Parsed::Failed { kind, offset: first + offset },
            Parsed::Done { value: false_branch, consumed: second } => match parsed_branch(
                size,
                bytes.skip((first + second) as int),
            ) {
                Parsed::Failed { kind, offset } => Parsed::Failed {
                    kind,
                    offset: first + second + offset,
                },
                Parsed::Done { value, consumed: third } => Parsed::Done {
                    value: InstructionView::BrIf {
                        condition,
                        true_branch: value.0,
                        false_branch,
                        inputs: value.1,
                    },
                    consumed: first + second + third,
                },
            },
        },
    }
}

/// The operands of `br.if` are read back from their bytes, whatever
/// follows.
pub proof fn lemma_branch_if_round_trip(
    size: LengthSize,
    condition: Value,
    true_branch: usize,
    false_branch: usize,
    inputs: Seq<Value>,
    rest: Seq<u8>,
)
    requires
        ValueFormat::fits(size, condition),
        size.holds(true_branch as nat),
        size.holds(false_branch as nat),
        counted_fit::<ValueFormat>(size, inputs),
    ensures
        parsed_branch_if(
            size,
            branch_if_bytes(size, condition, true_branch, false_branch, inputs) + rest,
        ) == (Parsed::Done {
            value: InstructionView::BrIf { condition, true_branch, false_branch, inputs },
            consumed: branch_if_bytes(size, condition, true_branch, false_branch, inputs).len(),
        }),
{
    let first = ValueFormat::written(size, condition);
    let second = length_bytes(size, false_branch as nat);
    let third = branch_bytes(size, true_branch, inputs);
    let all = branch_if_bytes(size, condition, true_branch, false_branch, inputs) + rest;
    assert(all =~= first + (second + (third + rest)));
    ValueFormat::round_trip(size, condition, 0, second + (third + rest));
    assert(all.skip(first.len() as int) =~= second + (third + rest));
    lemma_length_round_trip(size, false_branch as nat, third + rest);
    assert(all.skip((first.len() + second.len()) as int) =~= third + rest);
    lemma_branch_round_trip(size, true_branch, inputs, rest);
}

fn write_branch_if(
    condition: &Value,
    true_branch: usize,
    false_branch: usize,
    inputs: &Vec<Value>,
    size: LengthSize,
    out: &mut Vec<u8>,
) -> (written: bool)
    ensures
        written == (ValueFormat::fits(size, *condition) && size.holds(true_branch as nat)
            && size.holds(false_branch as nat) && counted_fit::<ValueFormat>(size, inputs@)),
        written ==> final(out)@ == old(out)@ + branch_if_bytes(
            size,
            *condition,
            true_branch,
            false_branch,
            inputs@,
        ),
{
    let first = ValueFormat::write(condition, size, out);
    let second = write_length(size, false_branch, out);
    let third = write_branch(true_branch, inputs, size, out);
    proof {
        if first && second && third {
            assert(out@ =~= old(out)@ + branch_if_bytes(
                size,
                *condition,
                true_branch,
                false_branch,
                inputs@,
            ));
        }
    }
    first && second && third
}

fn read_branch_if(source: &mut Wrapper<'_>) -> (instruction: Result<Instruction, Error>)
    ensures
        agrees(
            instruction,
            |read: Instruction| read@,
            parsed_branch_if(old(source).size(), old(source).remaining()),
            *old(source),
            *final(source),
        ),
{
    let ghost bytes = source.remaining();
    let condition = ValueFormat::read(source, 0)?;
    let ghost bytes1 = source.remaining();
    let false_branch = source.read_length(ErrorKind::UnexpectedEnd)?;
    let ghost bytes2 = source.remaining();
    let ghost first = (bytes.len() - bytes1.len()) as nat;
    let ghost second = (bytes1.len() - bytes2.len()) as nat;
    proof {
        assert(bytes.skip(first as int).skip(second as int) =~= bytes.skip(
            (first + second) as int,
        ));
    }
    let (true_branch, inputs) = read_branch(source)?;
    proof {
        let third = (bytes2.len() - source.remaining().len()) as nat;
        assert(bytes.skip((first + second) as int).skip(third as int) =~= bytes.skip(
            (first + second + third) as int,
        ));
    }
    Ok(Instruction::BrIf { condition, true_branch, false_branch, inputs })
}

/// The bytes of the operands of `switch`: the value that is compared, the
/// index of the default block, then the targets with their count.
pub open spec fn switch_bytes(
    size: LengthSize,
    comparison: Value,
    default_target: usize,
    targets: Seq<(IntegerConstant, usize)>,
) -> Seq<u8> {
    ValueFormat::written(size, comparison) + length_bytes(size, default_target as nat)
        + written_counted::<TargetFormat>(size, targets)
}

/// What reading the operands of `switch` comes to.
pub open spec fn parsed_switch(size: LengthSize, bytes: Seq<u8>) -> Parsed<InstructionView> {
    match ValueFormat::parsed(size, bytes, 0) {
        Parsed::Failed { kind, offset } => Parsed::Failed { kind, offset },
        Parsed::Done { value: comparison, consumed: first } => match parsed_length(
            size,
            bytes.skip(first as int),
            ErrorKind::UnexpectedEnd,
        ) {
            Parsed::Failed { kind, offset } => Parsed::Failed { kind, offset: first + offset },
            Parsed::Done { value: default_target, consumed: second } => match parsed_counted::<
                TargetFormat,
            >(size, bytes.skip((first + second) as int), ErrorKind::UnexpectedEnd) {
                Parsed::Failed { kind, offset } => Parsed::Failed {
                    kind,
                    offset: first + second + offset,
                },
                Parsed::Done { value: targets, consumed: third } => Parsed::Done {
                    value: InstructionView::Switch { comparison, default_target, targets },
                    consumed: first + second + third,
                },
            },
        },
    }
}

/// The operands of `switch` are read back from their bytes, whatever
/// follows.
pub proof fn lemma_switch_round_trip(
    size: LengthSize,
    comparison: Value,
    default_target: usize,
    targets: Seq<(IntegerConstant, usize)>,
    rest: Seq<u8>,
)
    requires
        ValueFormat::fits(size, comparison),
        size.holds(default_target as nat),
        counted_fit::<TargetFormat>(size, targets),
    ensures
        parsed_switch(size, switch_bytes(size, comparison, default_target, targets) + rest) == (
        Parsed::Done {
            value: InstructionView::Switch { comparison, default_target, targets },
            consumed: switch_bytes(size, comparison, default_target, targets).len(),
        }),
{
    let first = ValueFormat::written(size, comparison);
    let second = length_bytes(size, default_target as nat);
    let third = written_counted::<TargetFormat>(size, targets);
    let all = switch_bytes(size, comparison, default_target, targets) + rest;
    assert(all =~= first + (second + (third + rest)));
    ValueFormat::round_trip(size, comparison, 0, second + (third + rest));
    assert(all.skip(first.len() as int) =~= second + (third + rest));
    lemma_length_round_trip(size, default_target as nat, third + rest);
    assert(all.skip((first.len() + second.len()) as int) =~= third + rest);
    lemma_counted_round_trip::<TargetFormat>(size, targets, ErrorKind::UnexpectedEnd, rest);
}

fn write_switch(
    comparison: &Value,
    default_target: usize,
    targets: &Vec<(IntegerConstant, usize)>,
    size: LengthSize,
    out: &mut Vec<u8>,
) -> (written: bool)
    ensures
        written == (ValueFormat::fits(size, *comparison) && size.holds(default_target as nat)
            && counted_fit::<TargetFormat>(size, targets@)),
        written ==> final(out)@ == old(out)@ + switch_bytes(
            size,
            *comparison,
            default_target,
            targets@,
        ),
{
    let first = ValueFormat::write(comparison, size, out);
    let second = write_length(size, default_target, out);
    let third = write_counted::<TargetFormat>(targets, size, out);
    proof {
        assert(models::<TargetFormat>(targets@) =~= targets@);
        if first && second && third {
            assert(out@ =~= old(out)@ + switch_bytes(
                size,
                *comparison,
                default_target,
                targets@,
            ));
        }
    }
    first && second && third
}

fn read_switch(source: &mut Wrapper<'_>) -> (instruction: Result<Instruction, Error>)
    ensures
        agrees(
            instruction,
            |read: Instruction| read@,
            parsed_switch(old(source).size(), old(source).remaining()),
            *old(source),
            *final(source),
        ),
{
    let ghost bytes = source.remaining();
    let comparison = ValueFormat::read(source, 0)?;
    let ghost bytes1 = source.remaining();
    let default_target = source.read_length(ErrorKind::UnexpectedEnd)?;
    let ghost bytes2 = source.remaining();
    let ghost first = (bytes.len() - bytes1.len()) as nat;
    let ghost second = (bytes1.len() - bytes2.len()) as nat;
    proof {
        assert(bytes.skip(first as int).skip(second as int) =~= bytes.skip(
            (first + second) as int,
        ));
    }
    let targets = read_counted::<TargetFormat>(source, ErrorKind::UnexpectedEnd)?;
    proof {
        assert(models::<TargetFormat>(targets@) =~= targets@);
        let third = (bytes2.len() - source.remaining().len()) as nat;
        assert(bytes.skip((first + second) as int).skip(third as int) =~= bytes.skip(
            (first + second + third) as int,
        ));
    }
    Ok(Instruction::Switch { comparison, default_target, targets })
}

/// The bytes of the operands of `conv.i`: the tag of the type, the byte of
/// the overflow behavior, then the value.
pub open spec fn conversion_bytes(
    size: LengthSize,
    target_type: Any,
    overflow: OverflowBehavior,
    operand: Value,
) -> Seq<u8> {
    seq![type_tag(target_type), overflow.number()] + ValueFormat::written(size, operand)
}

/// What reading the operands of `conv.i` comes to.
pub open spec fn parsed_conversion(size: LengthSize, bytes: Seq<u8>) -> Parsed<InstructionView> {
    if bytes.len() == 0 {
        Parsed::Failed { kind: ErrorKind::UnexpectedEnd, offset: 0 }
    } else {
        match type_of_tag(bytes[0]) {
            None => Parsed::Failed {
                kind: ErrorKind::InvalidTypeSignatureTag(InvalidTypeCode { value: bytes[0] }),
                offset: 0,
            },
            Some(target_type) => if bytes.len() == 1 {
                Parsed::Failed { kind: ErrorKind::UnexpectedEnd, offset: 1 }
            } else {
                match OverflowBehavior::of_number(bytes[1]) {
                    None => Parsed::Failed {
                        kind: ErrorKind::InvalidOverflowBehavior(bytes[1]),
                        offset: 1,
                    },
                    Some(overflow) => match ValueFormat::parsed(size, bytes.skip(2), 0) {
                        Parsed::Failed { kind, offset } => Parsed::Failed {
                            kind,
                            offset: 2 + offset,
                        },
                        Parsed::Done { value: operand, consumed } => Parsed::Done {
                            value: InstructionView::ConvI { target_type, overflow, operand },
                            consumed: 2 + consumed,
                        },
                    },
                }
            },
        }
    }
}

/// The operands of `conv.i` are read back from their bytes, whatever
/// follows.
pub proof fn lemma_conversion_round_trip(
    size: LengthSize,
    target_type: Any,
    overflow: OverflowBehavior,
    operand: Value,
    rest: Seq<u8>,
)
    requires
        ValueFormat::fits(size, operand),
    ensures
        parsed_conversion(size, conversion_bytes(size, target_type, overflow, operand) + rest)
            == (Parsed::Done {
            value: InstructionView::ConvI { target_type, overflow, operand },
            consumed: conversion_bytes(size, target_type, overflow, operand).len(),
        }),
{
    let value = ValueFormat::written(size, operand);
    let all = conversion_bytes(size, target_type, overflow, operand) + rest;
    lemma_type_tags(target_type, 0);
    assert(all[0] == type_tag(target_type));
    assert(all[1] == overflow.number());
    assert(all.skip(2) =~= value + rest);
    ValueFormat::round_trip(size, operand, 0, rest);
}

fn write_conversion(
    target_type: Any,
    overflow: OverflowBehavior,
    operand: &Value,
    size: LengthSize,
    out: &mut Vec<u8>,
) -> (written: bool)
    ensures
        written == ValueFormat::fits(size, *operand),
        written ==> final(out)@ == old(out)@ + conversion_bytes(
            size,
            target_type,
            overflow,
            *operand,
        ),
{
    out.push(tag_of(target_type));
    out.push(overflow.byte());
    let fit = ValueFormat::write(operand, size, out);
    proof {
        if fit {
            assert(out@ =~= old(out)@ + conversion_bytes(size, target_type, overflow, *operand));
        }
    }
    fit
}

fn read_conversion(source: &mut Wrapper<'_>) -> (instruction: Result<Instruction, Error>)
    ensures
        agrees(
            instruction,
            |read: Instruction| read@,
            parsed_conversion(old(source).size(), old(source).remaining()),
            *old(source),
            *final(source),
        ),
{
    let ghost bytes = source.remaining();
    let start = source.offset();
    let tag = match source.read_byte() {
        Some(tag) => tag,
        None => {
            return Err(Error::new(start, ErrorKind::UnexpectedEnd));
        },
    };
    let target_type = match type_from_tag(tag) {
        Ok(target_type) => target_type,
        Err(error) => {
            return Err(Error::new(start, ErrorKind::InvalidTypeSignatureTag(error)));
        },
    };
    let second = source.offset();
    let byte = match source.read_byte() {
        Some(byte) => byte,
        None => {
            return Err(Error::new(second, ErrorKind::UnexpectedEnd));
        },
    };
    let overflow = match OverflowBehavior::try_from_u8(byte) {
        Ok(overflow) => overflow,
        Err(refused) => {
            return Err(Error::new(second, ErrorKind::InvalidOverflowBehavior(refused)));
        },
    };
    proof {
        assert(bytes.skip(1).skip(1) =~= bytes.skip(2));
        assert(bytes.skip(1)[0] == bytes[1]);
    }
    let ghost bytes2 = source.remaining();
    let operand = ValueFormat::read(source, 0)?;
    proof {
        let consumed = (bytes2.len() - source.remaining().len()) as nat;
        assert(bytes.skip(2).skip(consumed as int) =~= bytes.skip((2 + consumed) as int));
    }
    Ok(Instruction::ConvI { target_type, overflow, operand })
}

/// The bytes of the operands of `cmp`: the byte of the kind of
/// comparison, then the two values.
pub open spec fn comparison_bytes(size: LengthSize, x: Value, kind: ComparisonKind, y: Value) -> Seq<
    u8,
> {
    seq![kind.number()] + ValueFormat::written(size, x) + ValueFormat::written(size, y)
}

/// What reading the operands of `cmp` comes to.
pub open spec fn parsed_comparison(size: LengthSize, bytes: Seq<u8>) -> Parsed<InstructionView> {
    if bytes.len() == 0 {
        Parsed::Failed { kind: ErrorKind::UnexpectedEnd, offset: 0 }
    } else {
        match ComparisonKind::of_number(bytes[0]) {
            None => Parsed::Failed { kind: ErrorKind::InvalidComparisonKind(bytes[0]), offset: 0 },
            Some(kind) => match ValueFormat::parsed(size, bytes.skip(1), 0) {
                Parsed::Failed { kind, offset } => Parsed::Failed { kind, offset: 1 + offset },
                Parsed::Done { value: x, consumed: first } => match ValueFormat::parsed(
                    size,
                    bytes.skip(1).skip(first as int),
                    1,
                ) {
                    Parsed::Failed { kind, offset } => Parsed::Failed {
                        kind,
                        offset: 1 + first + offset,
                    },
                    Parsed::Done { value: y, consumed: second } => Parsed::Done {
                        value: InstructionView::Cmp { x, kind, y },
                        consumed: 1 + first + second,
                    },
                },
            },
        }
    }
}

/// The operands of `cmp` are read back from their bytes, whatever follows.
pub proof fn lemma_comparison_round_trip(
    size: LengthSize,
    x: Value,
    kind: ComparisonKind,
    y: Value,
    rest: Seq<u8>,
)
    requires
        ValueFormat::fits(size, x),
        ValueFormat::fits(size, y),
    ensures
        parsed_comparison(size, comparison_bytes(size, x, kind, y) + rest) == (Parsed::Done {
            value: InstructionView::Cmp { x, kind, y },
            consumed: comparison_bytes(size, x, kind, y).len(),
        }),
{
    let first = ValueFormat::written(size, x);
    let second = ValueFormat::written(size, y);
    let all = comparison_bytes(size, x, kind, y) + rest;
    assert(all[0] == kind.number());
    let bytes1 = all.skip(1);
    assert(bytes1 =~= first + (second + rest));
    ValueFormat::round_trip(size, x, 0, second + rest);
    assert(bytes1.skip(first.len() as int) =~= second + rest);
    ValueFormat::round_trip(size, y, 1, rest);
}

fn write_comparison(
    x: &Value,
    kind: ComparisonKind,
    y: &Value,
    size: LengthSize,
    out: &mut Vec<u8>,
) -> (written: bool)
    ensures
        written == (ValueFormat::fits(size, *x) && ValueFormat::fits(size, *y)),
        written ==> final(out)@ == old(out)@ + comparison_bytes(size, *x, kind, *y),
{
    out.push(kind.byte());
    let first = ValueFormat::write(x, size, out);
    let second = ValueFormat::write(y, size, out);
    proof {
        if first && second {
            assert(out@ =~= old(out)@ + comparison_bytes(size, *x, kind, *y));
        }
    }
    first && second
}

fn read_comparison(source: &mut Wrapper<'_>) -> (instruction: Result<Instruction, Error>)
    ensures
        agrees(
            instruction,
            |read: Instruction| read@,
            parsed_comparison(old(source).size(), old(source).remaining()),
            *old(source),
            *final(source),
        ),
{
    let ghost bytes = source.remaining();
    let start = source.offset();
    let byte = match source.read_byte() {
        Some(byte) => byte,
        None => {
            return Err(Error::new(start, ErrorKind::UnexpectedEnd));
        },
    };
    let kind = match ComparisonKind::try_from_u8(byte) {
        Ok(kind) => kind,
        Err(refused) => {
            return Err(Error::new(start, ErrorKind::InvalidComparisonKind(refused)));
        },
    };
    let ghost bytes1 = source.remaining();
    let x = ValueFormat::read(source, 0)?;
    let ghost bytes2 = source.remaining();
    let y = ValueFormat::read(source, 1)?;
    proof {
        let first = (bytes1.len() - bytes2.len()) as nat;
        let second = (bytes2.len() - source.remaining().len()) as nat;
        assert(bytes.skip(1).skip(first as int).skip(second as int) =~= bytes.skip(
            (1 + first + second) as int,
        ));
    }
    Ok(Instruction::Cmp { x, kind, y })
}

/// The bytes of an index and a value: the operands of `field`, which are
/// the index of the field and the object, and those of `alloca`, which are
/// the index of the type and the number of elements.
pub open spec fn indexed_bytes(size: LengthSize, index: usize, value: Value) -> Seq<u8> {
    length_bytes(size, index as nat) + ValueFormat::written(size, value)
}

/// What reading an index and a value comes to.
pub open spec fn parsed_indexed(size: LengthSize, bytes: Seq<u8>) -> Parsed<(usize, Value)> {
    match parsed_length(size, bytes, ErrorKind::UnexpectedEnd) {
        Parsed::Failed { kind, offset } => Parsed::Failed { kind, offset },
        Parsed::Done { value: index, consumed: first } => match ValueFormat::parsed(
            size,
            bytes.skip(first as int),
            0,
        ) {
            Parsed::Failed { kind, offset } => Parsed::Failed { kind, offset: first + offset },
            Parsed::Done { value, consumed: second } => Parsed::Done {
                value: (index, value),
                consumed: first + second,
            },
        },
    }
}

/// An index and a value are read back from their bytes, whatever follows.
pub proof fn lemma_indexed_round_trip(size: LengthSize, index: usize, value: Value, rest: Seq<u8>)
    requires
        size.holds(index as nat),
        ValueFormat::fits(size, value),
    ensures
        parsed_indexed(size, indexed_bytes(size, index, value) + rest) == (Parsed::Done {
            value: (index, value),
            consumed: indexed_bytes(size, index, value).len(),
        }),
{
    let first = length_bytes(size, index as nat);
    let second = ValueFormat::written(size, value);
    let all = indexed_bytes(size, index, value) + rest;
    assert(all =~= first + (second + rest));
    lemma_length_round_trip(size, index as nat, second + rest);
    assert(all.skip(first.len() as int) =~= second + rest);
    ValueFormat::round_trip(size, value, 0, rest);
}

fn write_indexed(index: usize, value: &Value, size: LengthSize, out: &mut Vec<u8>) -> (written:
    bool)
    ensures
        written == (size.holds(index as nat) && ValueFormat::fits(size, *value)),
        written ==> final(out)@ == old(out)@ + indexed_bytes(size, index, *value),
{
    let first = write_length(size, index, out);
    let second = ValueFormat::write(value, size, out);
    proof {
        if first && second {
            assert(out@ =~= old(out)@ + indexed_bytes(size, index, *value));
        }
    }
    first && second
}

fn read_indexed(source: &mut Wrapper<'_>) -> (read: Result<(usize, Value), Error>)
    ensures
        agrees(
            read,
            |read: (usize, Value)| read,
            parsed_indexed(old(source).size(), old(source).remaining()),
            *old(source),
            *final(source),
        ),
{
    let ghost bytes = source.remaining();
    let index = source.read_length(ErrorKind::UnexpectedEnd)?;
    let ghost bytes1 = source.remaining();
    let value = ValueFormat::read(source, 0)?;
    proof {
        let first = (bytes.len() - bytes1.len()) as nat;
        let second = (bytes1.len() - source.remaining().len()) as nat;
        assert(bytes.skip(first as int).skip(second as int) =~= bytes.skip(
            (first + second) as int,
        ));
    }
    Ok((index, value))
}

/// The form of an instruction: the byte of its opcode, then its operands.
pub struct InstructionFormat;

/// What reading the operands of the instruction of an opcode comes to, the
/// opcode being one whose instructions are read.
pub open spec fn parsed_operands(size: LengthSize, opcode: u8, bytes: Seq<u8>) -> Parsed<
    InstructionView,
> {
    if opcode == 0 {
        Parsed::Done { value: InstructionView::Nop, consumed: 0 }
    } else if opcode == 254 {
        Parsed::Done { value: InstructionView::Break, consumed: 0 }
    } else if opcode == 1 {
        match parsed_counted::<ValueFormat>(size, bytes, ErrorKind::UnexpectedEnd) {
            Parsed::Failed { kind, offset } => Parsed::Failed { kind, offset },
            Parsed::Done { value, consumed } => Parsed::Done {
                value: InstructionView::Ret(value),
                consumed,
            },
        }
    } else if opcode == 7 {
        match parsed_length(size, bytes, ErrorKind::UnexpectedEnd) {
            Parsed::Failed { kind, offset } => Parsed::Failed { kind, offset },
            Parsed::Done { value: function, consumed: first } => match parsed_counted::<
                ValueFormat,
            >(size, bytes.skip(first as int), ErrorKind::UnexpectedEnd) {
                Parsed::Failed { kind, offset } => Parsed::Failed { kind, offset: first + offset },
                Parsed::Done { value: arguments, consumed: second } => Parsed::Done {
                    value: InstructionView::Call { function, arguments },
                    consumed: first + second,
                },
            },
        }
    } else if opcode == 25 {
        match parsed_constant(bytes) {
            Parsed::Failed { kind, offset } => Parsed::Failed { kind, offset },
            Parsed::Done { value, consumed } => Parsed::Done {
                value: InstructionView::ConstI(value),
                consumed,
            },
        }
    } else if opcode == 5 {
        match parsed_branch(size, bytes) {
            Parsed::Failed { kind, offset } => Parsed::Failed { kind, offset },
            Parsed::Done { value, consumed } => Parsed::Done {
                value: InstructionView::Br { target: value.0, inputs: value.1 },
                consumed,
            },
        }
    } else if opcode == 6 {
        parsed_branch_if(size, bytes)
    } else if opcode == 4 {
        parsed_switch(size, bytes)
    } else if opcode == 33 {
        parsed_conversion(size, bytes)
    } else if opcode == 27 {
        parsed_comparison(size, bytes)
    } else if opcode == 35 {
        match parsed_indexed(size, bytes) {
            Parsed::Failed { kind, offset } => Parsed::Failed { kind, offset },
            Parsed::Done { value, consumed } => Parsed::Done {
                value: InstructionView::Field { field: value.0, object: value.1 },
                consumed,
            },
        }
    } else if opcode == 253 {
        match parsed_indexed(size, bytes) {
            Parsed::Failed { kind, offset } => Parsed::Failed { kind, offset },
            Parsed::Done { value, consumed } => Parsed::Done {
                value: InstructionView::Alloca { amount: value.1, element_type: value.0 },
                consumed,
            },
        }
    } else {
        match parsed_arithmetic(size, bytes) {
            Parsed::Failed { kind, offset } => Parsed::Failed { kind, offset },
            Parsed::Done { value, consumed } => Parsed::Done {
                value: if opcode == 10 {
                    InstructionView::AddI(value)
                } else if opcode == 11 {
                    InstructionView::SubI(value)
                } else {
                    InstructionView::MulI(value)
                },
                consumed,
            },
        }
    }
}

/// Whether instructions of the opcode of the given number are read: `nop`,
/// `ret`, `switch`, `br`, `br.if`, `call`, `add`, `sub`, `mul`, `const.i`,
/// `cmp`, `conv.i`, `field`, `alloca` and `break`.
pub open spec fn opcode_read(opcode: u8) -> bool {
    opcode == 0 || opcode == 1 || opcode == 4 || opcode == 5 || opcode == 6 || opcode == 7
        || opcode == 10 || opcode == 11 || opcode == 12 || opcode == 25 || opcode == 27
        || opcode == 33 || opcode == 35 || opcode == 253 || opcode == 254
}

/// The bytes of the operands of an instruction.
pub open spec fn operand_bytes(size: LengthSize, instruction: InstructionView) -> Seq<u8> {
    match instruction {
        InstructionView::Nop | InstructionView::Break => Seq::empty(),
        InstructionView::Ret(values) => written_counted::<ValueFormat>(size, values),
        InstructionView::Call { function, arguments } => length_bytes(size, function as nat)
            + written_counted::<ValueFormat>(size, arguments),
        InstructionView::AddI(operation)
        | InstructionView::SubI(operation)
        | InstructionView::MulI(operation) => arithmetic_bytes(size, operation),
        InstructionView::ConstI(constant) => constant_bytes(constant),
        InstructionView::Br { target, inputs } => branch_bytes(size, target, inputs),
        InstructionView::BrIf { condition, true_branch, false_branch, inputs } => branch_if_bytes(
            size,
            condition,
            true_branch,
            false_branch,
            inputs,
        ),
        InstructionView::Switch { comparison, default_target, targets } => switch_bytes(
            size,
            comparison,
            default_target,
            targets,
        ),
        InstructionView::ConvI { target_type, overflow, operand } => conversion_bytes(
            size,
            target_type,
            overflow,
            operand,
        ),
        InstructionView::Cmp { x, kind, y } => comparison_bytes(size, x, kind, y),
        InstructionView::Field { field, object } => indexed_bytes(size, field, object),
        InstructionView::Alloca { amount, element_type } => indexed_bytes(
            size,
            element_type,
            amount,
        ),
    }
}

impl Format for InstructionFormat {
    type T = Instruction;

    type V = InstructionView;

    open spec fn model(value: Instruction) -> InstructionView {
        value@
    }

    open spec fn valid(value: InstructionView) -> bool {
        true
    }

    open spec fn fits(size: LengthSize, value: InstructionView) -> bool {
        match value {
            InstructionView::Nop | InstructionView::Break | InstructionView::ConstI(_) => true,
            InstructionView::Ret(values) => counted_fit::<ValueFormat>(size, values),
            InstructionView::Call { function, arguments } => size.holds(function as nat)
                && counted_fit::<ValueFormat>(size, arguments),
            InstructionView::AddI(operation)
            | InstructionView::SubI(operation)
            | InstructionView::MulI(operation) => ValueFormat::fits(size, operation.x)
                && ValueFormat::fits(size, operation.y),
            InstructionView::Br { target, inputs } => size.holds(target as nat) && counted_fit::<
                ValueFormat,
            >(size, inputs),
            InstructionView::BrIf { condition, true_branch, false_branch, inputs } =>
                ValueFormat::fits(size, condition) && size.holds(true_branch as nat) && size.holds(
                false_branch as nat,
            ) && counted_fit::<ValueFormat>(size, inputs),
            InstructionView::Switch { comparison, default_target, targets } => ValueFormat::fits(
                size,
                comparison,
            ) && size.holds(default_target as nat) && counted_fit::<TargetFormat>(size, targets),
            InstructionView::ConvI { operand, .. } => ValueFormat::fits(size, operand),
            InstructionView::Cmp { x, y, .. } => ValueFormat::fits(size, x) && ValueFormat::fits(
                size,
                y,
            ),
            InstructionView::Field { field, object } => size.holds(field as nat)
                && ValueFormat::fits(size, object),
            InstructionView::Alloca { amount, element_type } => size.holds(element_type as nat)
                && ValueFormat::fits(size, amount),
        }
    }

    open spec fn written(size: LengthSize, value: InstructionView) -> Seq<u8> {
        seq![value.opcode().number() as u8] + operand_bytes(size, value)
    }

    open spec fn parsed(size: LengthSize, bytes: Seq<u8>, index: nat) -> Parsed<InstructionView> {
        if bytes.len() == 0 {
            Parsed::Failed { kind: ErrorKind::UnexpectedEnd, offset: 0 }
        } else if !opcode_read(bytes[0]) {
            Parsed::Failed {
                kind: ErrorKind::InvalidOpcode(InvalidOpcodeError { value: bytes[0] as u32 }),
                offset: 0,
            }
        } else {
            parsed_operands(size, bytes[0], bytes.skip(1)).after(1)
        }
    }

    proof fn round_trip(size: LengthSize, value: InstructionView, index: nat, rest: Seq<u8>) {
        let all = Self::written(size, value) + rest;
        assert(all[0] == value.opcode().number() as u8);
        assert(all.skip(1) =~= operand_bytes(size, value) + rest);
        match value {
            InstructionView::Nop | InstructionView::Break => {},
            InstructionView::Ret(values) => {
                lemma_counted_round_trip::<ValueFormat>(
                    size,
                    values,
                    ErrorKind::UnexpectedEnd,
                    rest,
                );
            },
            InstructionView::Call { function, arguments } => {
                let first = length_bytes(size, function as nat);
                let second = written_counted::<ValueFormat>(size, arguments);
                assert(all.skip(1) =~= first + (second + rest));
                lemma_length_round_trip(size, function as nat, second + rest);
                assert(all.skip(1).skip(first.len() as int) =~= second + rest);
                lemma_counted_round_trip::<ValueFormat>(
                    size,
                    arguments,
                    ErrorKind::UnexpectedEnd,
                    rest,
                );
            },
            InstructionView::AddI(operation)
            | InstructionView::SubI(operation)
            | InstructionView::MulI(operation) => {
                lemma_arithmetic_round_trip(size, operation, rest);
            },
            InstructionView::ConstI(constant) => {
                lemma_constant_round_trip(constant, rest);
            },
            InstructionView::Br { target, inputs } => {
                lemma_branch_round_trip(size, target, inputs, rest);
            },
            InstructionView::BrIf { condition, true_branch, false_branch, inputs } => {
                lemma_branch_if_round_trip(
                    size,
                    condition,
                    true_branch,
                    false_branch,
                    inputs,
                    rest,
                );
            },
            InstructionView::Switch { comparison, default_target, targets } => {
                lemma_switch_round_trip(size, comparison, default_target, targets, rest);
            },
            InstructionView::ConvI { target_type, overflow, operand } => {
                lemma_conversion_round_trip(size, target_type, overflow, operand, rest);
            },
            InstructionView::Cmp { x, kind, y } => {
                lemma_comparison_round_trip(size, x, kind, y, rest);
            },
            InstructionView::Field { field, object } => {
                lemma_indexed_round_trip(size, field, object, rest);
            },
            InstructionView::Alloca { amount, element_type } => {
                lemma_indexed_round_trip(size, element_type, amount, rest);
            },
        }
    }

    proof fn written_some(size: LengthSize, value: InstructionView) {
    }

    fn write(value: &Instruction, size: LengthSize, out: &mut Vec<u8>) -> (written: bool) {
        out.push(value.opcode().byte());
        let ghost tagged = out@;
        let fit = match value {
            Instruction::Nop | Instruction::Break => true,
            Instruction::Ret(values) => {
                let fit = write_counted::<ValueFormat>(values, size, out);
                proof {
                    assert(models::<ValueFormat>(values@) =~= values@);
                }
                fit
            },
            Instruction::Call(call) => {
                let first = write_length(size, call.function, out);
                let second = write_counted::<ValueFormat>(&call.arguments, size, out);
                proof {
                    assert(models::<ValueFormat>(call.arguments@) =~= call.arguments@);
                    if first && second {
                        assert(out@ =~= tagged + operand_bytes(size, value@));
                    }
                }
                first && second
            },
            Instruction::AddI(operation)
            | Instruction::SubI(operation)
            | Instruction::MulI(operation) => write_arithmetic(operation, size, out),
            Instruction::ConstI(constant) => {
                write_constant(*constant, out);
                true
            },
            Instruction::Br { target, inputs } => write_branch(*target, inputs, size, out),
            Instruction::BrIf { condition, true_branch, false_branch, inputs } => write_branch_if(
                condition,
                *true_branch,
                *false_branch,
                inputs,
                size,
                out,
            ),
            Instruction::Switch { comparison, default_target, targets } => write_switch(
                comparison,
                *default_target,
                targets,
                size,
                out,
            ),
            Instruction::ConvI { target_type, overflow, operand } => write_conversion(
                *target_type,
                *overflow,
                operand,
                size,
                out,
            ),
            Instruction::Cmp { x, kind, y } => write_comparison(x, *kind, y, size, out),
            Instruction::Field { field, object } => write_indexed(*field, object, size, out),
            Instruction::Alloca { amount, element_type } => write_indexed(
                *element_type,
                amount,
                size,
                out,
            ),
        };
        proof {
            if fit {
                assert(out@ =~= tagged + operand_bytes(size, value@));
                assert(out@ =~= old(out)@ + Self::written(size, value@));
            }
        }
        fit
    }

    fn read(source: &mut Wrapper<'_>, index: usize) -> (value: Result<Instruction, Error>) {
        let ghost bytes = source.remaining();
        let ghost size = source.size();
        let start = source.offset();
        let opcode = match source.read_byte() {
            Some(opcode) => opcode,
            None => {
                return Err(Error::new(start, ErrorKind::UnexpectedEnd));
            },
        };
        let ghost bytes1 = source.remaining();
        let instruction = if opcode == 0 {
            Instruction::Nop
        } else if opcode == 254 {
            Instruction::Break
        } else if opcode == 1 {
            let values = read_counted::<ValueFormat>(source, ErrorKind::UnexpectedEnd)?;
            proof {
                assert(models::<ValueFormat>(values@) =~= values@);
            }
            Instruction::Ret(values)
        } else if opcode == 7 {
            let function = source.read_length(ErrorKind::UnexpectedEnd)?;
            let ghost bytes2 = source.remaining();
            let arguments = read_counted::<ValueFormat>(source, ErrorKind::UnexpectedEnd)?;
            proof {
                assert(models::<ValueFormat>(arguments@) =~= arguments@);
                let first = size.width();
                let second = (bytes2.len() - source.remaining().len()) as nat;
                assert(bytes1.skip(first as int).skip(second as int) =~= bytes1.skip(
                    (first + second) as int,
                ));
            }
            Instruction::Call(CallInstruction { function, arguments })
        } else if opcode == 25 {
            Instruction::ConstI(read_constant(source)?)
        } else if opcode == 10 {
            Instruction::AddI(read_arithmetic(source)?)
        } else if opcode == 11 {
            Instruction::SubI(read_arithmetic(source)?)
        } else if opcode == 12 {
            Instruction::MulI(read_arithmetic(source)?)
        } else if opcode == 5 {
            let (target, inputs) = read_branch(source)?;
            Instruction::Br { target, inputs }
        } else if opcode == 6 {
            read_branch_if(source)?
        } else if opcode == 4 {
            read_switch(source)?
        } else if opcode == 33 {
            read_conversion(source)?
        } else if opcode == 27 {
            read_comparison(source)?
        } else if opcode == 35 {
            let (field, object) = read_indexed(source)?;
            Instruction::Field { field, object }
        } else if opcode == 253 {
            let (element_type, amount) = read_indexed(source)?;
            Instruction::Alloca { amount, element_type }
        } else {
            return Err(
                Error::new(
                    start,
                    ErrorKind::InvalidOpcode(InvalidOpcodeError { value: opcode as u32 }),
                ),
            );
        };
        proof {
            let consumed = (bytes1.len() - source.remaining().len()) as nat;
            assert(bytes.skip(1).skip(consumed as int) =~= bytes.skip((1 + consumed) as int));
        }
        Ok(instruction)
    }
}

} // verus!
