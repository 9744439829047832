//! The building blocks of the lines of text that errors are shown as.

use vstd::prelude::*;
use vstd::string::StringExecFns;

verus! {

/// The character of a decimal digit.
pub open spec fn digit_text(digit: nat) -> Seq<char> {
    if digit == 0 {
        "0"@
    } else if digit == 1 {
        "1"@
    } else if digit == 2 {
        "2"@
    } else if digit == 3 {
        "3"@
    } else if digit == 4 {
        "4"@
    } else if digit == 5 {
        "5"@
    } else if digit == 6 {
        "6"@
    } else if digit == 7 {
        "7"@
    } else if digit == 8 {
        "8"@
    } else {
        "9"@
    }
}

/// The decimal digits of a number, without leading zeros.
pub open spec fn decimal_text(value: nat) -> Seq<char>
    decreases value,
{
    if value < 10 {
        digit_text(value)
    } else {
        decimal_text(value / 10) + digit_text(value % 10)
    }
}

/// The text of a decimal digit.
fn digit(value: usize) -> (text: &'static str)
    requires
        value < 10,
    ensures
        text@ == digit_text(value as nat),
{
    if value == 0 {
        "0"
    } else if value == 1 {
        "1"
    } else if value == 2 {
        "2"
    } else if value == 3 {
        "3"
    } else if value == 4 {
        "4"
    } else if value == 5 {
        "5"
    } else if value == 6 {
        "6"
    } else if value == 7 {
        "7"
    } else if value == 8 {
        "8"
    } else {
        "9"
    }
}

/// Appends the decimal digits of a number to a text.
pub fn append_decimal(text: &mut String, value: usize)
    ensures
        final(text)@ == old(text)@ + decimal_text(value as nat),
    decreases value,
{
    if value >= 10 {
        append_decimal(text, value / 10);
    }
    text.append(digit(value % 10));
    proof {
        if value >= 10 {
            assert(text@ =~= old(text)@ + (decimal_text((value / 10) as nat) + digit_text(
                (value % 10) as nat,
            )));
        }
    }
}

/// The decimal digits of a number as a text of its own.
pub fn decimal(value: usize) -> (text: String)
    ensures
        text@ == decimal_text(value as nat),
{
    let mut text = String::new();
    append_decimal(&mut text, value);
    proof {
        assert(Seq::<char>::empty() + decimal_text(value as nat) =~= decimal_text(value as nat));
    }
    text
}

/// The numbers of bytes in decimal, each with a space before it.
pub open spec fn bytes_text(bytes: Seq<u8>) -> Seq<char>
    decreases bytes.len(),
{
    if bytes.len() == 0 {
        Seq::empty()
    } else {
        bytes_text(bytes.drop_last()) + " "@ + decimal_text(bytes.last() as nat)
    }
}

/// Appends the numbers of bytes in decimal to a text, each with a space
/// before it.
pub fn append_bytes_text(text: &mut String, bytes: &[u8])
    ensures
        final(text)@ == old(text)@ + bytes_text(bytes@),
{
    let mut index: usize = 0;
    proof {
        assert(bytes@.take(0) =~= Seq::<u8>::empty());
        assert(text@ =~= old(text)@ + bytes_text(bytes@.take(0)));
    }
    while index < bytes.len()
        invariant
            index <= bytes@.len(),
            text@ == old(text)@ + bytes_text(bytes@.take(index as int)),
        decreases bytes@.len() - index,
    {
        let ghost before = bytes@.take(index as int);
        text.append(" ");
        append_decimal(text, bytes[index] as usize);
        proof {
            let after = bytes@.take(index + 1);
            assert(after.drop_last() =~= before);
            assert(text@ =~= old(text)@ + bytes_text(after));
        }
        index += 1;
    }
    proof {
        assert(bytes@.take(index as int) =~= bytes@);
    }
}

/// The numbers of bytes in decimal as a text of its own.
pub fn bytes_number_text(bytes: &[u8]) -> (text: String)
    ensures
        text@ == bytes_text(bytes@),
{
    let mut text = String::new();
    append_bytes_text(&mut text, bytes);
    proof {
        assert(Seq::<char>::empty() + bytes_text(bytes@) =~= bytes_text(bytes@));
    }
    text
}

} // verus!
