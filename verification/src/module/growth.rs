//! The length size of a module does not fall when a function is added.

use crate::binary::format::{
    all_fit, counted_fit, lemma_written_many_push, section_fits, written_many, Format,
    IndexFormat,
};
use crate::binary::record::{CodeBlockFormat, FunctionDefinitionFormat};
use crate::binary::signature::{FunctionFormat, TypeFormat};
use crate::binary::{lemma_length_bytes_len, LengthSize};
use crate::identifier::IdentifierFormat;
use crate::module::intern::{
    interned, keys_of, lemma_definition_stable, lemma_keys_step, signature_types, type_keys,
};
use crate::module::lookup::{distinct, lemma_position, position};
use crate::module::resolve::{
    countable, lemma_block_types_hold, lemma_expanded_interned, lemma_keys_hold,
    lemma_signature_types_hold,
};
use crate::module::round_trip::lemma_fitting_countable;
use crate::module::writer::{module_fits, smallest_size};
use crate::module::{length_size_of, DefinedFunctionView, ModuleView};
use crate::type_system::Any;
use vstd::prelude::*;

verus! {

/// The number that tells a type from the others.
pub open spec fn ordinal(value_type: Any) -> int {
    match value_type {
        Any::U8 => 0,
        Any::S8 => 1,
        Any::U16 => 2,
        Any::S16 => 3,
        Any::U32 => 4,
        Any::S32 => 5,
        Any::U64 => 6,
        Any::S64 => 7,
        Any::UNative => 8,
        Any::SNative => 9,
        Any::F32 => 10,
        Any::F64 => 11,
    }
}

/// There are twelve types, so that a table in which no type stands twice
/// holds at most twelve.
pub proof fn lemma_types_bound(types: Seq<Any>)
    requires
        distinct(types),
    ensures
        types.len() <= 12,
{
    let ordinals = types.map_values(|value_type: Any| ordinal(value_type));
    assert(ordinals.no_duplicates()) by {
        assert forall|i: int, j: int|
            0 <= i < ordinals.len() && 0 <= j < ordinals.len() && i != j implies ordinals[i]
            != ordinals[j] by {
            if i < j {
                assert(types[i] != types[j]);
            } else {
                assert(types[j] != types[i]);
            }
        }
    }
    let below = Set::new(|n: int| 0 <= n < 12);
    vstd::set_lib::lemma_int_range(0, 12);
    assert(below =~= vstd::set_lib::set_int_range(0, 12));
    assert(ordinals.to_set().subset_of(below)) by {
        assert forall|n: int| ordinals.to_set().contains(n) implies below.contains(n) by {
            let i = choose|i: int| 0 <= i < ordinals.len() && ordinals[i] == n;
            assert(ordinals[i] == ordinal(types[i]));
        }
    }
    ordinals.unique_seq_to_set();
    vstd::set_lib::lemma_len_subset(ordinals.to_set(), below);
}

/// The bytes of the first values of a list are no more than the bytes of
/// the list.
pub proof fn lemma_written_first<F: Format>(size: LengthSize, values: Seq<F::V>, count: int)
    requires
        0 <= count <= values.len(),
    ensures
        written_many::<F>(size, values.take(count)).len() <= written_many::<F>(size, values).len(),
    decreases values.len() - count,
{
    if count < values.len() {
        lemma_written_many_push::<F>(size, values.take(count), values[count]);
        assert(values.take(count).push(values[count]) =~= values.take(count + 1));
        lemma_written_first::<F>(size, values, count + 1);
    } else {
        assert(values.take(count) =~= values);
    }
}

/// Two lists whose values take as many bytes, one by one, take as many
/// bytes.
pub proof fn lemma_written_alike<F: Format>(size: LengthSize, left: Seq<F::V>, right: Seq<F::V>)
    requires
        left.len() == right.len(),
        forall|i: int|
            0 <= i < left.len() ==> F::written(size, #[trigger] left[i]).len() == F::written(
                size,
                right[i],
            ).len(),
    ensures
        written_many::<F>(size, left).len() == written_many::<F>(size, right).len(),
    decreases left.len(),
{
    if left.len() > 0 {
        assert forall|i: int| 0 <= i < left.drop_first().len() implies F::written(
            size,
            #[trigger] left.drop_first()[i],
        ).len() == F::written(size, right.drop_first()[i]).len() by {
            assert(left.drop_first()[i] == left[i + 1]);
            assert(right.drop_first()[i] == right[i + 1]);
        }
        lemma_written_alike::<F>(size, left.drop_first(), right.drop_first());
        assert(F::written(size, left[0]).len() == F::written(size, right[0]).len());
    }
}

/// A section fits a size that a section with at least as many values and
/// at least as many bytes fits, where its values fit.
pub proof fn lemma_section_shrinks<F: Format>(size: LengthSize, small: Seq<F::V>, big: Seq<F::V>)
    requires
        section_fits::<F>(size, big),
        all_fit::<F>(size, small),
        small.len() <= big.len(),
        written_many::<F>(size, small).len() <= written_many::<F>(size, big).len(),
    ensures
        section_fits::<F>(size, small),
{
    reveal(section_fits);
}

/// The first values of a section that fits a size are a section that fits
/// the size.
pub proof fn lemma_section_first<F: Format>(size: LengthSize, values: Seq<F::V>, count: int)
    requires
        section_fits::<F>(size, values),
        0 <= count <= values.len(),
    ensures
        section_fits::<F>(size, values.take(count)),
{
    reveal(section_fits);
    lemma_written_first::<F>(size, values, count);
    if count > 0 {
        assert forall|i: int| 0 <= i < count implies F::fits(
            size,
            #[trigger] values.take(count)[i],
        ) by {
            assert(values.take(count)[i] == values[i]);
        }
    }
}

/// The first values of a list that fits a size with its count fit the
/// size with their count.
pub proof fn lemma_counted_first<F: Format>(size: LengthSize, values: Seq<F::V>, count: int)
    requires
        counted_fit::<F>(size, values),
        0 <= count <= values.len(),
    ensures
        counted_fit::<F>(size, values.take(count)),
{
    reveal(counted_fit);
    assert forall|i: int| 0 <= i < count implies F::fits(size, #[trigger] values.take(count)[i]) by {
        assert(values.take(count)[i] == values[i]);
    }
}

/// Indices take as many bytes as there are indices, each the width of the
/// size.
pub proof fn lemma_indices_written(size: LengthSize, indices: Seq<usize>)
    ensures
        written_many::<IndexFormat>(size, indices).len() == size.width() * indices.len(),
    decreases indices.len(),
{
    if indices.len() > 0 {
        lemma_indices_written(size, indices.drop_first());
        lemma_length_bytes_len(size, indices[0] as nat);
        assert(size.width() * indices.len() == size.width() + size.width() * (indices.len() - 1))
            by (nonlinear_arith)
            requires
                indices.len() > 0,
        ;
    }
}

/// A table of types in which no type stands twice fits every size as a
/// section.
pub proof fn lemma_types_fit(size: LengthSize, types: Seq<Any>)
    requires
        distinct(types),
    ensures
        section_fits::<TypeFormat>(size, types),
        types.len() <= 12,
{
    reveal(section_fits);
    lemma_types_bound(types);
    lemma_types_written(size, types);
}

/// Types take a byte each.
pub proof fn lemma_types_written(size: LengthSize, types: Seq<Any>)
    ensures
        written_many::<TypeFormat>(size, types).len() == types.len(),
    decreases types.len(),
{
    if types.len() > 0 {
        lemma_types_written(size, types.drop_first());
    }
}

/// A module without its last definition.
pub open spec fn without_last(module: ModuleView) -> ModuleView {
    ModuleView { definitions: module.definitions.drop_last(), ..module }
}

/// A module fits every size that it fits with one more definition: what
/// is written for it is part of what is written for the greater module,
/// but for the indices of types, which fit every size.
pub proof fn lemma_fits_without_last(size: LengthSize, module: ModuleView)
    requires
        module.definitions.len() > 0,
        module_fits(size, interned(module)),
    ensures
        module_fits(size, interned(without_last(module))),
{
    let small = without_last(module);
    let big_keys = keys_of(module.definitions);
    let keys = keys_of(small.definitions);
    let types = type_keys(small);
    let big = interned(module);
    let contents = interned(small);
    lemma_keys_step(module.definitions);
    lemma_keys_hold(small.definitions);
    lemma_signature_types_hold(Seq::empty(), keys.signatures);
    lemma_block_types_hold(signature_types(Seq::empty(), keys.signatures), keys.blocks);
    lemma_types_fit(size, types);
    lemma_fitting_countable(size, big);
    assert(countable(contents));
    lemma_expanded_interned(small);

    // the names of the libraries
    assert(contents.identifiers =~= big.identifiers.take(contents.identifiers.len() as int));
    lemma_section_first::<IdentifierFormat>(size, big.identifiers, contents.identifiers.len() as int);

    // the function signatures
    let signatures = contents.function_signatures;
    let first = big.function_signatures.take(signatures.len() as int);
    reveal(section_fits);
    assert forall|i: int| 0 <= i < signatures.len() implies FunctionFormat::fits(
        size,
        #[trigger] signatures[i],
    ) && FunctionFormat::written(size, signatures[i]).len() == FunctionFormat::written(
        size,
        first[i],
    ).len() by {
        let record = signatures[i];
        let other = big.function_signatures[i];
        assert(first[i] == other);
        assert(keys.signatures[i] == big_keys.signatures[i]);
        assert(record.return_types.len() == other.return_types.len());
        assert(record.parameter_types.len() == other.parameter_types.len());
        assert(FunctionFormat::fits(size, other));
        assert(record.within(types.len()));
        lemma_indices_written(size, record.return_types);
        lemma_indices_written(size, record.parameter_types);
        lemma_indices_written(size, other.return_types);
        lemma_indices_written(size, other.parameter_types);
        lemma_length_bytes_len(size, record.return_types.len());
        lemma_length_bytes_len(size, record.parameter_types.len());
    }
    lemma_written_alike::<FunctionFormat>(size, signatures, first);
    lemma_written_first::<FunctionFormat>(size, big.function_signatures, signatures.len() as int);
    lemma_section_shrinks::<FunctionFormat>(size, signatures, big.function_signatures);

    // the code blocks
    let blocks = contents.code_blocks;
    let others = big.code_blocks.take(blocks.len() as int);
    assert forall|i: int| 0 <= i < blocks.len() implies CodeBlockFormat::fits(
        size,
        #[trigger] blocks[i],
    ) && CodeBlockFormat::written(size, blocks[i]).len() == CodeBlockFormat::written(
        size,
        others[i],
    ).len() by {
        let record = blocks[i];
        let other = big.code_blocks[i];
        assert(others[i] == other);
        assert(keys.blocks[i] == big_keys.blocks[i]);
        assert(record.instructions == other.instructions);
        assert(record.input_types.len() == other.input_types.len());
        assert(record.result_types.len() == other.result_types.len());
        assert(record.temporary_types.len() == other.temporary_types.len());
        assert(CodeBlockFormat::fits(size, other));
        assert(record.within(types.len()));
        lemma_indices_written(size, record.input_types);
        lemma_indices_written(size, record.result_types);
        lemma_indices_written(size, record.temporary_types);
        lemma_indices_written(size, other.input_types);
        lemma_indices_written(size, other.result_types);
        lemma_indices_written(size, other.temporary_types);
        lemma_length_bytes_len(size, record.input_types.len());
        lemma_length_bytes_len(size, record.result_types.len());
        lemma_length_bytes_len(size, record.temporary_types.len());
    }
    lemma_written_alike::<CodeBlockFormat>(size, blocks, others);
    lemma_written_first::<CodeBlockFormat>(size, big.code_blocks, blocks.len() as int);
    lemma_section_shrinks::<CodeBlockFormat>(size, blocks, big.code_blocks);

    // the definitions
    let definitions = contents.function_definitions;
    assert(definitions =~= big.function_definitions.take(definitions.len() as int)) by {
        assert forall|i: int| 0 <= i < definitions.len() implies definitions[i]
            == big.function_definitions[i] by {
            assert(small.definitions[i] == module.definitions[i]);
            lemma_definition_stable(keys, big_keys, small.definitions[i]);
        }
    }
    lemma_counted_first::<FunctionDefinitionFormat>(
        size,
        big.function_definitions,
        definitions.len() as int,
    );
}

/// The length size of a module is at least the length size of the module
/// without its last definition: adding a function to a module does not
/// lower its length size.
pub proof fn lemma_length_size_grows(module: ModuleView, defined: DefinedFunctionView)
    ensures
        length_size_of(module).width() <= length_size_of(
            ModuleView { definitions: module.definitions.push(defined), ..module },
        ).width(),
{
    let greater = ModuleView { definitions: module.definitions.push(defined), ..module };
    assert(greater.definitions.drop_last() =~= module.definitions);
    assert(without_last(greater) == module);
    match smallest_size(interned(greater)) {
        Some(size) => {
            lemma_fits_without_last(size, greater);
        },
        None => {},
    }
}

/// A size that a module fits holds the length of the symbol of its last
/// definition, and the numbers of the results and of the parameters of its
/// function.
pub proof fn lemma_last_fits(size: LengthSize, module: ModuleView)
    requires
        module.definitions.len() > 0,
        module_fits(size, interned(module)),
    ensures
        size.holds(module.definitions.last().function.symbol.len()),
        size.holds(module.definitions.last().function.signature.result_types.len()),
        size.holds(module.definitions.last().function.signature.parameter_types.len()),
{
    let last = module.definitions.last();
    let keys = keys_of(module.definitions);
    let contents = interned(module);
    lemma_keys_step(module.definitions);
    reveal(counted_fit);
    reveal(section_fits);
    let record = contents.function_definitions[module.definitions.len() - 1];
    assert(FunctionDefinitionFormat::fits(size, record));
    lemma_position(keys.signatures, last.function.signature);
    let at = position(keys.signatures, last.function.signature);
    assert(FunctionFormat::fits(size, contents.function_signatures[at]));
}

} // verus!
