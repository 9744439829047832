//! Byte buffers that are used again instead of being allocated anew.

use std::cell::RefCell;
use vstd::prelude::*;
use vstd::slice::slice_to_vec;

verus! {

#[verifier::external_type_specification]
#[verifier::external_body]
#[verifier::reject_recursive_types(T)]
pub struct ExRefCell<T: ?Sized>(RefCell<T>);

/// A stock of byte buffers. What it holds at a given moment is no part of
/// any contract: a buffer rented from it is empty, wherever it came from.
#[derive(Debug)]
pub struct Pool {
    buffers: RefCell<Vec<Vec<u8>>>,
}

/// A buffer taken from a pool, which gets its storage back when the buffer
/// is dropped. Its view is the bytes it holds.
#[derive(Debug)]
pub struct Rented<'a> {
    pool: &'a Pool,
    buffer: Vec<u8>,
}

/// `RefCell::new` around an empty stock.
#[verifier::external_body]
fn stock_new() -> RefCell<Vec<Vec<u8>>> {
    RefCell::new(Vec::new())
}

/// `RefCell::borrow_mut`, to take some buffer out of the stock with
/// `Vec::pop`: nothing is promised of the buffer, nor that there is one. The
/// cell is borrowed within this function and the next one only, and for no
/// longer than the call, so the borrow cannot fail.
#[verifier::external_body]
fn stock_take(stock: &RefCell<Vec<Vec<u8>>>) -> Option<Vec<u8>> {
    stock.borrow_mut().pop()
}

/// `RefCell::borrow_mut`, to put the storage of a buffer into the stock with
/// `Vec::push`: `std::mem::take` leaves the buffer empty.
#[verifier::external_body]
fn stock_give(stock: &RefCell<Vec<Vec<u8>>>, buffer: &mut Vec<u8>)
    ensures
        final(buffer)@.len() == 0,
    opens_invariants none
    no_unwind
{
    stock.borrow_mut().push(std::mem::take(buffer))
}

impl Pool {
    /// A pool without buffers.
    pub fn new() -> Pool {
        Pool { buffers: stock_new() }
    }

    /// Rents an empty buffer.
    pub fn rent(&self) -> (rented: Rented<'_>)
        ensures
            rented@ == Seq::<u8>::empty(),
    {
        let buffer = match stock_take(&self.buffers) {
            Some(mut buffer) => {
                buffer.clear();
                buffer
            },
            None => Vec::new(),
        };
        Rented { pool: self, buffer }
    }

    /// Rents an empty buffer with room for at least `capacity` bytes.
    pub fn rent_with_capacity(&self, capacity: usize) -> (rented: Rented<'_>)
        ensures
            rented@ == Seq::<u8>::empty(),
    {
        let mut rented = self.rent();
        // The buffer is empty, so this reserves room for `capacity` bytes in all.
        rented.buffer.reserve(capacity);
        rented
    }

    /// Rents a buffer of `length` zero bytes.
    pub fn rent_with_length(&self, length: usize) -> (rented: Rented<'_>)
        ensures
            rented@ == Seq::new(length as nat, |i: int| 0u8),
    {
        let mut rented = self.rent_with_capacity(length);
        let mut count: usize = 0;
        while count < length
            invariant
                count <= length,
                rented@ == Seq::new(count as nat, |i: int| 0u8),
            decreases length - count,
        {
            rented.buffer.push(0);
            count += 1;
            assert(rented@ =~= Seq::new(count as nat, |i: int| 0u8));
        }
        rented
    }
}

impl Default for Pool {
    fn default() -> Pool {
        Pool::new()
    }
}

impl<'a> View for Rented<'a> {
    type V = Seq<u8>;

    closed spec fn view(&self) -> Seq<u8> {
        self.buffer@
    }
}

impl<'a> Rented<'a> {
    /// A copy of the bytes.
    pub fn to_vec(&self) -> (bytes: Vec<u8>)
        ensures
            bytes@ == self@,
    {
        slice_to_vec(self.buffer.as_slice())
    }

    pub fn as_vec(&self) -> (bytes: &Vec<u8>)
        ensures
            bytes@ == self@,
    {
        &self.buffer
    }

    pub fn as_vec_mut(&mut self) -> (bytes: &mut Vec<u8>)
        ensures
            bytes@ == old(self)@,
            final(self)@ == final(bytes)@,
    {
        &mut self.buffer
    }
}

impl<'a> std::ops::Deref for Rented<'a> {
    type Target = Vec<u8>;

    fn deref(&self) -> (bytes: &Vec<u8>)
        ensures
            bytes@ == self@,
    {
        &self.buffer
    }
}

impl<'a> std::ops::DerefMut for Rented<'a> {
    fn deref_mut(&mut self) -> (bytes: &mut Vec<u8>)
        ensures
            bytes@ == old(self)@,
            final(self)@ == final(bytes)@,
    {
        &mut self.buffer
    }
}

impl<'a> Drop for Rented<'a> {
    fn drop(&mut self)
        opens_invariants none
        no_unwind
    {
        stock_give(&self.pool.buffers, &mut self.buffer);
    }
}

/// A buffer that is rented from a pool or owned outright.
#[derive(Debug)]
pub enum RentedOrOwned<'a> {
    Rented(Rented<'a>),
    Owned(Vec<u8>),
}

impl<'a> View for RentedOrOwned<'a> {
    type V = Seq<u8>;

    open spec fn view(&self) -> Seq<u8> {
        match self {
            RentedOrOwned::Rented(rented) => rented@,
            RentedOrOwned::Owned(owned) => owned@,
        }
    }
}

impl<'a> RentedOrOwned<'a> {
    /// An empty buffer with room for `capacity` bytes, rented where there is
    /// a pool and allocated where there is none.
    pub fn with_capacity(capacity: usize, pool: Option<&'a Pool>) -> (buffer: Self)
        ensures
            buffer@ == Seq::<u8>::empty(),
            pool.is_some() == (buffer is Rented),
    {
        match pool {
            None => RentedOrOwned::Owned(Vec::with_capacity(capacity)),
            Some(pool) => RentedOrOwned::Rented(pool.rent_with_capacity(capacity)),
        }
    }

    pub fn as_slice(&self) -> (bytes: &[u8])
        ensures
            bytes@ == self@,
    {
        match self {
            RentedOrOwned::Rented(rented) => rented.as_vec().as_slice(),
            RentedOrOwned::Owned(owned) => owned.as_slice(),
        }
    }

    pub fn as_mut_slice(&mut self) -> (bytes: &mut [u8])
        ensures
            bytes@ == old(self)@,
            final(self)@ == final(bytes)@,
            (*final(self) is Rented) == (*old(self) is Rented),
    {
        match self {
            RentedOrOwned::Rented(rented) => rented.as_vec_mut().as_mut_slice(),
            RentedOrOwned::Owned(owned) => owned.as_mut_slice(),
        }
    }

    pub fn as_vec(&self) -> (bytes: &Vec<u8>)
        ensures
            bytes@ == self@,
    {
        match self {
            RentedOrOwned::Rented(rented) => rented.as_vec(),
            RentedOrOwned::Owned(owned) => owned,
        }
    }

    pub fn as_mut_vec(&mut self) -> (bytes: &mut Vec<u8>)
        ensures
            bytes@ == old(self)@,
            final(self)@ == final(bytes)@,
            (*final(self) is Rented) == (*old(self) is Rented),
    {
        match self {
            RentedOrOwned::Rented(rented) => rented.as_vec_mut(),
            RentedOrOwned::Owned(owned) => owned,
        }
    }

    /// The bytes as a vector of their own; a rented buffer goes back to its
    /// pool.
    pub fn into_vec(self) -> (bytes: Vec<u8>)
        ensures
            bytes@ == self@,
    {
        match self {
            RentedOrOwned::Rented(rented) => rented.to_vec(),
            RentedOrOwned::Owned(owned) => owned,
        }
    }

    /// An owned buffer of the given bytes.
    pub fn from_vec(owned: Vec<u8>) -> (buffer: Self)
        ensures
            buffer == RentedOrOwned::Owned(owned),
    {
        RentedOrOwned::Owned(owned)
    }

    /// A rented buffer as one that is rented or owned.
    pub fn from_rented(rented: Rented<'a>) -> (buffer: Self)
        ensures
            buffer == RentedOrOwned::Rented(rented),
    {
        RentedOrOwned::Rented(rented)
    }
}

/// The upper-case hexadecimal digit of a value below sixteen.
pub open spec fn hex_digit(value: u8) -> u8
    recommends
        value < 16,
{
    if value < 10 {
        (0x30 + value) as u8
    } else {
        (0x41 + value - 10) as u8
    }
}

/// The bytes of the text that shows `bytes` in hexadecimal: each byte as upper-case
/// digits without a leading zero, with one space between bytes.
pub open spec fn hex_text(bytes: Seq<u8>) -> Seq<u8>
    decreases bytes.len(),
{
    if bytes.len() == 0 {
        Seq::empty()
    } else {
        let last = bytes.last();
        let digits = if last < 16 {
            seq![hex_digit(last)]
        } else {
            seq![hex_digit(last / 16), hex_digit(last % 16)]
        };
        let separator = if bytes.len() > 1 {
            seq![0x20u8]
        } else {
            Seq::empty()
        };
        hex_text(bytes.drop_last()) + separator + digits
    }
}

fn hex_digit_of(value: u8) -> (digit: u8)
    requires
        value < 16,
    ensures
        digit == hex_digit(value),
{
    if value < 10 {
        0x30 + value
    } else {
        0x41 + value - 10
    }
}

/// Shows bytes in hexadecimal, as diagnostics do. The result is ASCII text.
pub fn bytes_debug(bytes: &[u8]) -> (text: Vec<u8>)
    ensures
        text@ == hex_text(bytes@),
{
    let mut text: Vec<u8> = Vec::new();
    let mut index: usize = 0;
    while index < bytes.len()
        invariant
            index <= bytes@.len(),
            text@ == hex_text(bytes@.subrange(0, index as int)),
        decreases bytes@.len() - index,
    {
        let ghost before = bytes@.subrange(0, index as int);
        let ghost after = bytes@.subrange(0, index + 1);
        assert(after.drop_last() =~= before);
        if index > 0 {
            text.push(0x20);
        }
        let value = bytes[index];
        if value >= 16 {
            text.push(hex_digit_of(value / 16));
        }
        text.push(hex_digit_of(value % 16));
        assert(text@ =~= hex_text(after));
        index += 1;
    }
    assert(bytes@.subrange(0, index as int) =~= bytes@);
    text
}

} // verus!
