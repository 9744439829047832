//! The symbols of a module: a hash table from the bytes of each symbol to
//! the position of the definition that has it.

use rustc_hash::FxHashMap;
use vstd::prelude::*;

verus! {

#[verifier::external_type_specification]
#[verifier::external_body]
pub struct ExFxHasher(rustc_hash::FxHasher);

#[verifier::external_type_specification]
#[verifier::external_body]
#[verifier::reject_recursive_types(H)]
pub struct ExBuildHasherDefault<H>(core::hash::BuildHasherDefault<H>);

/// What a table of symbols holds: for the bytes of each symbol the position
/// that was stored with it.
pub uninterp spec fn symbol_entries(table: &FxHashMap<Vec<u8>, usize>) -> Map<Seq<u8>, usize>;

/// The table that holds nothing.
pub open spec fn no_entries() -> Map<Seq<u8>, usize> {
    Map::empty()
}

/// `FxHashMap::default`: a table that holds nothing.
#[verifier::external_body]
pub(crate) fn table_new() -> (table: FxHashMap<Vec<u8>, usize>)
    ensures
        symbol_entries(&table) == no_entries(),
{
    FxHashMap::default()
}

/// `HashMap::get` on a table keyed by byte vectors, which are equal when
/// their bytes are: the position stored with the symbol, if there is one.
#[verifier::external_body]
pub(crate) fn table_get(table: &FxHashMap<Vec<u8>, usize>, symbol: &[u8]) -> (found: Option<usize>)
    ensures
        found == (if symbol_entries(table).contains_key(symbol@) {
            Some(symbol_entries(table)[symbol@])
        } else {
            None
        }),
{
    table.get(symbol).copied()
}

/// `HashMap::insert`: the table then holds the position with the symbol,
/// in place of what it held with it, and everything else as before.
#[verifier::external_body]
pub(crate) fn table_insert(table: &mut FxHashMap<Vec<u8>, usize>, symbol: Vec<u8>, position: usize)
    ensures
        symbol_entries(final(table)) == symbol_entries(old(table)).insert(symbol@, position),
{
    table.insert(symbol, position);
}

} // verus!
