//! The binary form of a module: the magic number, the width of length
//! integers and their little-endian encoding.

use vstd::prelude::*;

pub mod buffer;
pub mod code;
pub mod format;
pub mod record;
pub mod signature;
pub mod structures;

verus! {

/// The bytes that every module file starts with, the ASCII text `SAILAR`.
pub const MAGIC: [u8; 6] = [0x53u8, 0x41u8, 0x49u8, 0x4Cu8, 0x41u8, 0x52u8];

/// The magic number as a sequence of bytes.
pub open spec fn magic() -> Seq<u8> {
    seq![0x53u8, 0x41u8, 0x49u8, 0x4Cu8, 0x41u8, 0x52u8]
}

/// The number of bytes that every length and index of a module is written with.
#[derive(Clone, Copy, Debug, PartialEq, Eq, Structural, Hash)]
pub enum LengthSize {
    One,
    Two,
    Four,
}

/// Sizes of variable-width integers are the sizes of lengths.
pub type VarIntSize = LengthSize;

/// A header byte that names no length size.
#[derive(Clone, Copy, Debug, PartialEq, Eq, Structural)]
pub struct InvalidLengthSize {
    pub value: u8,
}

impl LengthSize {
    /// The number of bytes of one length integer.
    pub open spec fn width(self) -> nat {
        match self {
            LengthSize::One => 1,
            LengthSize::Two => 2,
            LengthSize::Four => 4,
        }
    }

    /// The greatest value that a length integer of this size holds.
    pub open spec fn max_value(self) -> nat {
        match self {
            LengthSize::One => 0xFF,
            LengthSize::Two => 0xFFFF,
            LengthSize::Four => 0xFFFF_FFFF,
        }
    }

    /// Whether `n` can be written in this size.
    pub open spec fn holds(self, n: nat) -> bool {
        n <= self.max_value()
    }

    /// The smallest size that holds `n`, and `Four` where none does.
    pub open spec fn fitting(n: nat) -> LengthSize {
        if n <= 0xFF {
            LengthSize::One
        } else if n <= 0xFFFF {
            LengthSize::Two
        } else {
            LengthSize::Four
        }
    }

    /// The wider of two sizes.
    pub open spec fn join(self, other: LengthSize) -> LengthSize {
        if self.width() >= other.width() {
            self
        } else {
            other
        }
    }

    /// The byte that stands for this size in a module's header.
    pub open spec fn tag_value(self) -> u8 {
        match self {
            LengthSize::One => 0u8,
            LengthSize::Two => 1u8,
            LengthSize::Four => 2u8,
        }
    }

    /// The size that a header byte stands for.
    pub open spec fn of_tag(tag: u8) -> Option<LengthSize> {
        if tag == 0 {
            Some(LengthSize::One)
        } else if tag == 1 {
            Some(LengthSize::Two)
        } else if tag == 2 {
            Some(LengthSize::Four)
        } else {
            None
        }
    }

    pub fn byte_count(self) -> (count: u8)
        ensures
            count == self.width(),
    {
        match self {
            LengthSize::One => 1,
            LengthSize::Two => 2,
            LengthSize::Four => 4,
        }
    }

    /// The greatest length of this size.
    pub fn max(self) -> (greatest: u32)
        ensures
            greatest == self.max_value(),
    {
        match self {
            LengthSize::One => 0xFF,
            LengthSize::Two => 0xFFFF,
            LengthSize::Four => 0xFFFF_FFFF,
        }
    }

    /// Whether a length can be written in this size.
    pub fn fits(self, length: usize) -> (fit: bool)
        ensures
            fit == self.holds(length as nat),
    {
        match self {
            LengthSize::One => length <= 0xFF,
            LengthSize::Two => length <= 0xFFFF,
            LengthSize::Four => length <= 0xFFFF_FFFF,
        }
    }

    /// The smallest size in which a length can be written, `Four` for one
    /// that is beyond every size.
    pub fn for_length(length: usize) -> (size: LengthSize)
        ensures
            size == LengthSize::fitting(length as nat),
    {
        if length <= 0xFF {
            LengthSize::One
        } else if length <= 0xFFFF {
            LengthSize::Two
        } else {
            LengthSize::Four
        }
    }

    /// Raises the size, if it has to be raised, so that `length` fits.
    pub fn resize_to_fit(&mut self, length: usize)
        ensures
            *final(self) == old(self).join(LengthSize::fitting(length as nat)),
    {
        let needed = LengthSize::for_length(length);
        if needed.byte_count() > self.byte_count() {
            *self = needed;
        }
    }

    /// Raises the size so that every one of `lengths` fits.
    pub fn resize_to_fit_many(&mut self, lengths: &[usize])
        ensures
            final(self).width() >= old(self).width(),
            forall|i: int|
                0 <= i < lengths@.len() ==> final(self).width() >= LengthSize::fitting(
                    #[trigger] lengths@[i] as nat,
                ).width(),
            *final(self) == *old(self) || exists|i: int|
                0 <= i < lengths@.len() && *final(self) == LengthSize::fitting(
                    #[trigger] lengths@[i] as nat,
                ),
    {
        let ghost start = *self;
        let mut index: usize = 0;
        while index < lengths.len()
            invariant
                index <= lengths@.len(),
                self.width() >= start.width(),
                forall|i: int|
                    0 <= i < index ==> self.width() >= LengthSize::fitting(
                        #[trigger] lengths@[i] as nat,
                    ).width(),
                *self == start || exists|i: int|
                    0 <= i < lengths@.len() && *self == LengthSize::fitting(
                        #[trigger] lengths@[i] as nat,
                    ),
            decreases lengths@.len() - index,
        {
            self.resize_to_fit(lengths[index]);
            index += 1;
        }
    }

    /// The byte that stands for this size in a module's header.
    pub fn tag(self) -> (tag: u8)
        ensures
            tag == self.tag_value(),
            LengthSize::of_tag(tag) == Some(self),
    {
        match self {
            LengthSize::One => 0,
            LengthSize::Two => 1,
            LengthSize::Four => 2,
        }
    }

    /// Reads a size from its header byte: 0, 1 and 2 stand for one, two and
    /// four bytes, and every other byte is refused.
    pub fn from_tag(tag: u8) -> (size: Result<LengthSize, InvalidLengthSize>)
        ensures
            match size {
                Ok(found) => LengthSize::of_tag(tag) == Some(found),
                Err(error) => LengthSize::of_tag(tag).is_none() && error.value == tag,
            },
    {
        if tag == 0 {
            Ok(LengthSize::One)
        } else if tag == 1 {
            Ok(LengthSize::Two)
        } else if tag == 2 {
            Ok(LengthSize::Four)
        } else {
            Err(InvalidLengthSize { value: tag })
        }
    }
}

/// The bytes of the length `n` in the given size, least significant first.
#[verifier::opaque]
pub open spec fn length_bytes(size: LengthSize, n: nat) -> Seq<u8> {
    match size {
        LengthSize::One => seq![(n % 256) as u8],
        LengthSize::Two => seq![(n % 256) as u8, (n / 256 % 256) as u8],
        LengthSize::Four => seq![
            (n % 256) as u8,
            (n / 256 % 256) as u8,
            (n / 65536 % 256) as u8,
            (n / 16777216 % 256) as u8,
        ],
    }
}

/// The length that the first bytes of `bytes` stand for in the given size.
#[verifier::opaque]
pub open spec fn length_value(size: LengthSize, bytes: Seq<u8>) -> nat
    recommends
        bytes.len() >= size.width(),
{
    match size {
        LengthSize::One => bytes[0] as nat,
        LengthSize::Two => (bytes[0] + 256 * bytes[1]) as nat,
        LengthSize::Four => (bytes[0] + 256 * bytes[1] + 65536 * bytes[2] + 16777216
            * bytes[3]) as nat,
    }
}

/// Appends the length `n` to `out` in the given size. A length that the size
/// does not hold is not written.
pub fn write_length(size: LengthSize, n: usize, out: &mut Vec<u8>) -> (written: bool)
    ensures
        written == size.holds(n as nat),
        written ==> final(out)@ == old(out)@ + length_bytes(size, n as nat),
        !written ==> final(out)@ == old(out)@,
{
    if !size.fits(n) {
        return false;
    }
    reveal(length_bytes);
    let ghost before = out@;
    match size {
        LengthSize::One => {
            out.push(n as u8);
        },
        LengthSize::Two => {
            out.push((n % 256) as u8);
            out.push((n / 256) as u8);
        },
        LengthSize::Four => {
            out.push((n % 256) as u8);
            out.push((n / 256 % 256) as u8);
            out.push((n / 65536 % 256) as u8);
            out.push((n / 16777216) as u8);
        },
    }
    assert(out@ =~= before + length_bytes(size, n as nat));
    true
}

/// Reads a length of the given size from the start of `bytes`, where that
/// many bytes are there.
pub fn read_length(size: LengthSize, bytes: &[u8]) -> (length: Option<usize>)
    ensures
        length.is_some() == (bytes@.len() >= size.width()),
        length matches Some(n) ==> n == length_value(size, bytes@),
{
    reveal(length_value);
    match size {
        LengthSize::One => {
            if bytes.len() < 1 {
                return None;
            }
            Some(bytes[0] as usize)
        },
        LengthSize::Two => {
            if bytes.len() < 2 {
                return None;
            }
            Some(bytes[0] as usize + 256 * (bytes[1] as usize))
        },
        LengthSize::Four => {
            if bytes.len() < 4 {
                return None;
            }
            let low: u32 = bytes[0] as u32 + 256 * (bytes[1] as u32);
            let high: u32 = bytes[2] as u32 + 256 * (bytes[3] as u32);
            Some((low + 65536 * high) as usize)
        },
    }
}

/// A length that fits its size is read back as it was written, whatever
/// follows it.
pub proof fn lemma_length_round_trip(size: LengthSize, n: nat, rest: Seq<u8>)
    requires
        size.holds(n),
    ensures
        length_bytes(size, n).len() == size.width(),
        length_value(size, length_bytes(size, n) + rest) == n,
{
    reveal(length_bytes);
    reveal(length_value);
    let written = length_bytes(size, n);
    let all = written + rest;
    match size {
        LengthSize::One => {
            assert(all[0] == written[0]);
        },
        LengthSize::Two => {
            assert(all[0] == written[0]);
            assert(all[1] == written[1]);
        },
        LengthSize::Four => {
            assert(all[0] == written[0]);
            assert(all[1] == written[1]);
            assert(all[2] == written[2]);
            assert(all[3] == written[3]);
        },
    }
}

/// A length is written with as many bytes as its size says.
pub proof fn lemma_length_bytes_len(size: LengthSize, n: nat)
    ensures
        length_bytes(size, n).len() == size.width(),
        size.width() > 0,
{
    reveal(length_bytes);
}

/// A length that is read fits its size.
pub proof fn lemma_length_value_bound(size: LengthSize, bytes: Seq<u8>)
    ensures
        size.holds(length_value(size, bytes)),
{
    reveal(length_value);
}

/// A length is read from the first bytes alone: as many as its size says.
pub proof fn lemma_length_value_prefix(size: LengthSize, bytes: Seq<u8>, prefix: Seq<u8>)
    requires
        prefix.len() >= size.width(),
        prefix.is_prefix_of(bytes),
    ensures
        length_value(size, prefix) == length_value(size, bytes),
{
    reveal(length_value);
}

/// Raising a size to fit one length and then another leaves a size that is
/// at least the size either length needs, and at least the size it was.
pub proof fn lemma_resize_monotone(size: LengthSize, a: nat, b: nat)
    ensures
        ({
            let raised = size.join(LengthSize::fitting(a)).join(LengthSize::fitting(b));
            &&& raised.width() >= size.width()
            &&& raised.width() >= LengthSize::fitting(a).width()
            &&& raised.width() >= LengthSize::fitting(b).width()
            &&& a <= 0xFFFF_FFFF ==> raised.holds(a)
            &&& b <= 0xFFFF_FFFF ==> raised.holds(b)
        }),
{
}

} // verus!
