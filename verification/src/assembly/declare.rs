//! Things that can be declared once.

use crate::assembly::assembler::Error;
use vstd::prelude::*;

verus! {

/// Something that is declared at most once: a second declaration is an
/// error and changes nothing.
#[derive(Debug)]
pub struct Once<T> {
    value: Option<T>,
}

impl<T> Once<T> {
    /// What was declared, if anything was.
    pub closed spec fn declared(&self) -> Option<T> {
        self.value
    }

    /// Something that is not declared yet.
    pub fn new() -> (once: Self)
        ensures
            once.declared().is_none(),
    {
        Once { value: None }
    }

    pub fn is_set(&self) -> (set: bool)
        ensures
            set == self.declared().is_some(),
    {
        self.value.is_some()
    }

    pub fn value(self) -> (value: Option<T>)
        ensures
            value == self.declared(),
    {
        self.value
    }

    /// Asks whether a declaration is the first: where it is not, the error
    /// `duplicate` is added to the errors.
    pub fn declare(&self, errors: &mut Vec<Error>, duplicate: Error) -> (first: bool)
        ensures
            first == self.declared().is_none(),
            final(errors)@ == (if first {
                old(errors)@
            } else {
                old(errors)@.push(duplicate)
            }),
    {
        if self.value.is_none() {
            true
        } else {
            errors.push(duplicate);
            false
        }
    }

    /// Declares a value: the first declaration sets the value, and every
    /// other one adds the error `duplicate` to the errors.
    pub fn declare_and_set(&mut self, errors: &mut Vec<Error>, duplicate: Error, value: T)
        ensures
            final(self).declared() == (match old(self).declared() {
                Some(first) => Some(first),
                None => Some(value),
            }),
            final(errors)@ == (if old(self).declared().is_none() {
                old(errors)@
            } else {
                old(errors)@.push(duplicate)
            }),
    {
        if self.value.is_none() {
            self.value = Some(value);
        } else {
            errors.push(duplicate);
        }
    }
}

} // verus!
