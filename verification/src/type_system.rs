//! The types of the values that registers hold.

use vstd::prelude::*;

verus! {

/// The type of a value: a fixed-width integer, an integer of the width of an
/// address, or a floating-point number.
#[derive(Clone, Copy, Debug, PartialEq, Eq, Structural, Hash)]
pub enum Any {
    U8,
    S8,
    U16,
    S16,
    U32,
    S32,
    U64,
    S64,
    UNative,
    SNative,
    F32,
    F64,
}

impl Any {
    /// Whether values of the type are integers.
    pub open spec fn integral(self) -> bool {
        !(self is F32 || self is F64)
    }

    /// Whether values of the type are integers.
    pub fn is_integer(self) -> (integer: bool)
        ensures
            integer == self.integral(),
    {
        match self {
            Any::F32 | Any::F64 => false,
            _ => true,
        }
    }

    /// The name of the type as assembly text writes it.
    pub open spec fn text(self) -> Seq<char> {
        match self {
            Any::U8 => "u8"@,
            Any::S8 => "s8"@,
            Any::U16 => "u16"@,
            Any::S16 => "s16"@,
            Any::U32 => "u32"@,
            Any::S32 => "s32"@,
            Any::U64 => "u64"@,
            Any::S64 => "s64"@,
            Any::UNative => "unative"@,
            Any::SNative => "snative"@,
            Any::F32 => "f32"@,
            Any::F64 => "f64"@,
        }
    }

    /// The name of the type as assembly text writes it.
    pub fn name(self) -> (name: &'static str)
        ensures
            name@ == self.text(),
    {
        match self {
            Any::U8 => "u8",
            Any::S8 => "s8",
            Any::U16 => "u16",
            Any::S16 => "s16",
            Any::U32 => "u32",
            Any::S32 => "s32",
            Any::U64 => "u64",
            Any::S64 => "s64",
            Any::UNative => "unative",
            Any::SNative => "snative",
            Any::F32 => "f32",
            Any::F64 => "f64",
        }
    }
}

} // verus!
