//! From the contents of a module back to the module: every position is
//! replaced by what stands at it.

use crate::binary::record::{
    CodeBlock, CodeBlockView, FunctionBody, FunctionBodyView, FunctionDefinitionView,
};
use crate::binary::record::Export as RecordExport;
use crate::binary::signature;
use crate::block::{Block, BlockView};
use crate::function::{
    Body, BodyView, Definition, DefinitionView, ForeignBody, ForeignBodyView, FunctionView, Kind,
    Signature, SignatureView,
};
use crate::module::intern::{
    block_record, block_types, definition_record, interned, keys_of, lemma_block_stable,
    lemma_block_types_step, lemma_definition_stable, lemma_keys_step, lemma_signature_stable,
    lemma_signature_types_step, signature_record, signature_types, type_keys, types_of_block,
    types_of_signature,
};
use crate::module::lookup::{contains_all, distinct, lemma_position, position, positions};
use crate::module::parser::ErrorKind;
use crate::module::{DefinedFunctionView, Export, Module, ModuleView};
use crate::type_system::Any;
use crate::validation::{ModuleContentsView, ValidModule};
use std::sync::Arc;
use vstd::prelude::*;

verus! {

/// The types that stand at the given positions of a table of types.
pub open spec fn types_at(types: Seq<Any>, indices: Seq<usize>) -> Seq<Any> {
    indices.map_values(|index: usize| types[index as int])
}

/// The signature that a signature of a module stands for.
pub open spec fn expanded_signature(types: Seq<Any>, record: signature::FunctionView)
    -> SignatureView {
    SignatureView {
        result_types: types_at(types, record.return_types),
        parameter_types: types_at(types, record.parameter_types),
    }
}

/// The block that a code block of a module stands for.
pub open spec fn expanded_block(types: Seq<Any>, record: CodeBlockView) -> BlockView {
    BlockView {
        input_types: types_at(types, record.input_types),
        result_types: types_at(types, record.result_types),
        temporary_types: types_at(types, record.temporary_types),
        instructions: record.instructions,
    }
}

/// The function with its definition that a definition of a module stands
/// for.
pub open spec fn expanded_definition(contents: ModuleContentsView, record: FunctionDefinitionView)
    -> DefinedFunctionView {
    DefinedFunctionView {
        function: FunctionView {
            symbol: match record.export.symbol() {
                Some(symbol) => symbol,
                None => Seq::empty(),
            },
            signature: expanded_signature(
                contents.type_signatures,
                contents.function_signatures[record.signature as int],
            ),
        },
        definition: DefinitionView {
            export: if record.export is Export {
                Export::Yes
            } else {
                Export::No
            },
            body: match record.body {
                FunctionBodyView::Definition(block) => BodyView::Defined(
                    expanded_block(contents.type_signatures, contents.code_blocks[block as int]),
                ),
                FunctionBodyView::Foreign { library, entry_point } => BodyView::Foreign(
                    ForeignBodyView {
                        library_name: contents.identifiers[library as int],
                        entry_point_name: entry_point,
                    },
                ),
            },
        },
    }
}

/// The definitions that the definitions of a module stand for.
pub open spec fn expanded_definitions(contents: ModuleContentsView) -> Seq<DefinedFunctionView> {
    contents.function_definitions.map_values(
        |record: FunctionDefinitionView| expanded_definition(contents, record),
    )
}

/// The module that the contents of a module stand for.
pub open spec fn expanded(contents: ModuleContentsView) -> ModuleView {
    ModuleView {
        format_version: contents.format_version,
        identifier: contents.module_identifier.unwrap(),
        definitions: expanded_definitions(contents),
    }
}

/// Whether the contents of a module stand for a module: they have the name
/// of a module, each of their definitions has a symbol, and no two of them
/// have the same.
pub open spec fn resolvable(contents: ModuleContentsView) -> bool {
    &&& contents.module_identifier.is_some()
    &&& contents.format_version.supported()
    &&& forall|i: int|
        0 <= i < contents.function_definitions.len() ==> !((
        #[trigger] contents.function_definitions[i]).export is Hidden)
    &&& expanded(contents).symbols_distinct()
}

/// The types at the positions of types that a table holds are these types.
pub proof fn lemma_types_at_positions(types: Seq<Any>, items: Seq<Any>)
    requires
        contains_all(types, items),
        types.len() <= usize::MAX,
    ensures
        types_at(types, positions(types, items)) == items,
        forall|i: int|
            0 <= i < items.len() ==> (#[trigger] positions(types, items)[i]) < types.len(),
{
    assert forall|i: int| 0 <= i < items.len() implies types[position(types, items[i])]
        == items[i] && 0 <= position(types, #[trigger] items[i]) < types.len() by {
        lemma_position(types, items[i]);
    }
    assert(types_at(types, positions(types, items)) =~= items);
}

} // verus!

verus! {

/// The tables of some definitions are distinct and hold everything that
/// each of the definitions refers to.
pub proof fn lemma_keys_hold(definitions: Seq<DefinedFunctionView>)
    ensures
        keys_of(definitions).distinct(),
        forall|i: int|
            0 <= i < definitions.len() ==> keys_of(definitions).hold(#[trigger] definitions[i]),
    decreases definitions.len(),
{
    if definitions.len() > 0 {
        let most = definitions.drop_last();
        lemma_keys_hold(most);
        lemma_keys_step(definitions);
        assert forall|i: int| 0 <= i < definitions.len() implies keys_of(definitions).hold(
            #[trigger] definitions[i],
        ) by {
            if i < most.len() {
                assert(most[i] == definitions[i]);
                lemma_definition_stable(keys_of(most), keys_of(definitions), definitions[i]);
            }
        }
    }
}

/// The table of types after some signatures is distinct, starts with the
/// table as it was, and holds the types of each of the signatures.
pub proof fn lemma_signature_types_hold(keys: Seq<Any>, signatures: Seq<SignatureView>)
    requires
        distinct(keys),
    ensures
        distinct(signature_types(keys, signatures)),
        keys.is_prefix_of(signature_types(keys, signatures)),
        forall|i: int|
            0 <= i < signatures.len() ==> contains_all(
                signature_types(keys, signatures),
                types_of_signature(#[trigger] signatures[i]),
            ),
    decreases signatures.len(),
{
    if signatures.len() > 0 {
        let most = signatures.drop_last();
        lemma_signature_types_hold(keys, most);
        lemma_signature_types_step(keys, signatures);
        assert forall|i: int| 0 <= i < signatures.len() implies contains_all(
            signature_types(keys, signatures),
            types_of_signature(#[trigger] signatures[i]),
        ) by {
            if i < most.len() {
                assert(most[i] == signatures[i]);
                lemma_signature_stable(
                    signature_types(keys, most),
                    signature_types(keys, signatures),
                    signatures[i],
                );
            }
        }
    }
}

/// The table of types after some blocks is distinct, starts with the table
/// as it was, and holds the types of the registers of each of the blocks.
pub proof fn lemma_block_types_hold(keys: Seq<Any>, blocks: Seq<BlockView>)
    requires
        distinct(keys),
    ensures
        distinct(block_types(keys, blocks)),
        keys.is_prefix_of(block_types(keys, blocks)),
        forall|i: int|
            0 <= i < blocks.len() ==> contains_all(
                block_types(keys, blocks),
                types_of_block(#[trigger] blocks[i]),
            ),
    decreases blocks.len(),
{
    if blocks.len() > 0 {
        let most = blocks.drop_last();
        lemma_block_types_hold(keys, most);
        lemma_block_types_step(keys, blocks);
        assert forall|i: int| 0 <= i < blocks.len() implies contains_all(
            block_types(keys, blocks),
            types_of_block(#[trigger] blocks[i]),
        ) by {
            if i < most.len() {
                assert(most[i] == blocks[i]);
                lemma_block_stable(block_types(keys, most), block_types(keys, blocks), blocks[i]);
            }
        }
    }
}

/// A signature is what its record stands for, in a table of types that
/// holds its types; and the record refers to positions of the table.
pub proof fn lemma_expanded_signature(types: Seq<Any>, signature: SignatureView)
    requires
        contains_all(types, types_of_signature(signature)),
        types.len() <= usize::MAX,
    ensures
        expanded_signature(types, signature_record(types, signature)) == signature,
        signature_record(types, signature).within(types.len()),
{
    let all = types_of_signature(signature);
    assert forall|i: int| 0 <= i < signature.result_types.len() implies types.contains(
        #[trigger] signature.result_types[i],
    ) by {
        assert(all[i] == signature.result_types[i]);
    }
    assert forall|i: int| 0 <= i < signature.parameter_types.len() implies types.contains(
        #[trigger] signature.parameter_types[i],
    ) by {
        assert(all[signature.result_types.len() + i] == signature.parameter_types[i]);
    }
    lemma_types_at_positions(types, signature.result_types);
    lemma_types_at_positions(types, signature.parameter_types);
}

/// A block is what its record stands for, in a table of types that holds
/// the types of its registers; and the record refers to positions of the
/// table.
pub proof fn lemma_expanded_block(types: Seq<Any>, block: BlockView)
    requires
        contains_all(types, types_of_block(block)),
        types.len() <= usize::MAX,
    ensures
        expanded_block(types, block_record(types, block)) == block,
        block_record(types, block).within(types.len()),
{
    let all = types_of_block(block);
    assert forall|i: int| 0 <= i < block.input_types.len() implies types.contains(
        #[trigger] block.input_types[i],
    ) by {
        assert(all[i] == block.input_types[i]);
    }
    assert forall|i: int| 0 <= i < block.result_types.len() implies types.contains(
        #[trigger] block.result_types[i],
    ) by {
        assert(all[block.input_types.len() + i] == block.result_types[i]);
    }
    assert forall|i: int| 0 <= i < block.temporary_types.len() implies types.contains(
        #[trigger] block.temporary_types[i],
    ) by {
        assert(all[block.input_types.len() + block.result_types.len() + i]
            == block.temporary_types[i]);
    }
    lemma_types_at_positions(types, block.input_types);
    lemma_types_at_positions(types, block.result_types);
    lemma_types_at_positions(types, block.temporary_types);
}

/// Whether the tables of the contents of a module have no more items than
/// positions can be written for.
pub open spec fn countable(contents: ModuleContentsView) -> bool {
    &&& contents.identifiers.len() <= usize::MAX
    &&& contents.type_signatures.len() <= usize::MAX
    &&& contents.function_signatures.len() <= usize::MAX
    &&& contents.code_blocks.len() <= usize::MAX
}

/// The contents of a module stand for the module, and every index in them
/// refers to something.
pub proof fn lemma_expanded_interned(module: ModuleView)
    requires
        countable(interned(module)),
    ensures
        expanded(interned(module)) == module,
        interned(module).indices_valid(),
        interned(module).module_identifier.is_some(),
        forall|i: int|
            0 <= i < interned(module).function_definitions.len() ==> !((
            #[trigger] interned(module).function_definitions[i]).export is Hidden),
{
    let contents = interned(module);
    let keys = keys_of(module.definitions);
    let types = type_keys(module);
    let middle = signature_types(Seq::empty(), keys.signatures);
    lemma_keys_hold(module.definitions);
    lemma_signature_types_hold(Seq::empty(), keys.signatures);
    lemma_block_types_hold(middle, keys.blocks);
    assert forall|i: int| 0 <= i < keys.signatures.len() implies contains_all(
        types,
        types_of_signature(#[trigger] keys.signatures[i]),
    ) by {
        lemma_signature_stable(middle, types, keys.signatures[i]);
    }
    assert forall|i: int| 0 <= i < contents.function_signatures.len() implies (
    #[trigger] contents.function_signatures[i]).within(types.len()) && expanded_signature(
        types,
        contents.function_signatures[i],
    ) == keys.signatures[i] by {
        lemma_expanded_signature(types, keys.signatures[i]);
    }
    assert forall|i: int| 0 <= i < contents.code_blocks.len() implies (
    #[trigger] contents.code_blocks[i]).within(types.len()) && expanded_block(
        types,
        contents.code_blocks[i],
    ) == keys.blocks[i] by {
        lemma_expanded_block(types, keys.blocks[i]);
    }
    assert forall|i: int| 0 <= i < module.definitions.len() implies contents.definition_valid(
        #[trigger] contents.function_definitions[i],
    ) && expanded_definition(contents, contents.function_definitions[i])
        == module.definitions[i] && !(contents.function_definitions[i].export is Hidden) by {
        let defined = module.definitions[i];
        let record = contents.function_definitions[i];
        assert(record == definition_record(keys, defined));
        assert(keys.hold(defined));
        lemma_position(keys.signatures, defined.function.signature);
        let at = position(keys.signatures, defined.function.signature);
        assert(contents.function_signatures[at] == signature_record(types, keys.signatures[at]));
        match defined.definition.body {
            BodyView::Defined(block) => {
                lemma_position(keys.blocks, block);
                let b = position(keys.blocks, block);
                assert(contents.code_blocks[b] == block_record(types, keys.blocks[b]));
            },
            BodyView::Foreign(foreign) => {
                lemma_position(keys.libraries, foreign.library_name);
            },
        }
    }
    assert(expanded(contents).definitions =~= module.definitions);
}

} // verus!

verus! {

/// The types at the given positions of a table of types.
fn expand_types(types: &Vec<Any>, indices: &[usize]) -> (expanded: Vec<Any>)
    requires
        forall|i: int| 0 <= i < indices@.len() ==> indices@[i] < types@.len(),
    ensures
        expanded@ == types_at(types@, indices@),
{
    let mut expanded: Vec<Any> = Vec::new();
    let mut position: usize = 0;
    while position < indices.len()
        invariant
            position <= indices@.len(),
            expanded@.len() == position,
            forall|i: int| 0 <= i < indices@.len() ==> indices@[i] < types@.len(),
            forall|i: int| 0 <= i < position ==> expanded@[i] == types@[indices@[i] as int],
        decreases indices@.len() - position,
    {
        expanded.push(types[indices[position]]);
        position += 1;
    }
    proof {
        assert(expanded@ =~= types_at(types@, indices@));
    }
    expanded
}

/// The signature that a signature of a module stands for.
pub(crate) fn expand_signature(types: &Vec<Any>, record: &signature::Function) -> (expanded: Signature)
    requires
        record@.within(types@.len()),
    ensures
        expanded@ == expanded_signature(types@, record@),
{
    Signature::new(
        expand_types(types, record.return_types()),
        expand_types(types, record.parameter_types()),
    )
}

/// The block that a code block of a module stands for.
pub(crate) fn expand_block(types: &Vec<Any>, record: &CodeBlock) -> (expanded: Block)
    requires
        record@.within(types@.len()),
    ensures
        expanded@ == expanded_block(types@, record@),
{
    let listed = record.instructions();
    let instructions = crate::instruction_set::duplicate_instructions(listed);
    proof {
        assert(crate::binary::record::instruction_views(listed@) =~= listed@.map_values(
            |instruction: crate::instruction_set::Instruction| instruction@,
        ));
    }
    Block::from_parts(
        expand_types(types, record.input_types()),
        expand_types(types, record.result_types()),
        expand_types(types, record.temporary_types()),
        instructions,
    )
}

/// Whether the symbol of the definition at `index` is the symbol of a
/// definition before it.
pub open spec fn repeats_symbol(contents: ModuleContentsView, index: int) -> bool {
    exists|i: int|
        0 <= i < index && (#[trigger] expanded_definitions(contents)[i]).function.symbol
            == expanded_definitions(contents)[index].function.symbol
}

/// The error with which the definition at `index` is refused, if it is: it
/// has no symbol, or the symbol of a definition before it.
pub open spec fn definition_refusal(contents: ModuleContentsView, index: int) -> Option<
    ErrorKind,
> {
    if contents.function_definitions[index].export is Hidden {
        Some(ErrorKind::MissingSymbol { index: index as usize })
    } else if repeats_symbol(contents, index) {
        Some(ErrorKind::DuplicateSymbol { index: index as usize })
    } else {
        None
    }
}

/// The error of the first of the first `count` definitions that is
/// refused, if one is.
pub open spec fn first_refusal(contents: ModuleContentsView, count: int) -> Option<ErrorKind>
    decreases count,
{
    if count <= 0 {
        None
    } else {
        match first_refusal(contents, count - 1) {
            Some(kind) => Some(kind),
            None => definition_refusal(contents, count - 1),
        }
    }
}

/// The error that says why the contents of a module stand for no module,
/// if they stand for none: they lack the name of a module; or else they
/// are of a version of the format that is not read; or else the error of
/// the first definition that is refused.
pub open spec fn refusal(contents: ModuleContentsView) -> Option<ErrorKind> {
    if contents.module_identifier.is_none() {
        Some(ErrorKind::MissingModuleHeader)
    } else if !contents.format_version.supported() {
        Some(ErrorKind::UnsupportedFormatVersion(contents.format_version))
    } else {
        first_refusal(contents, contents.function_definitions.len() as int)
    }
}

/// The error of the first definition that is refused among some
/// definitions is that of the first that is refused among more.
pub proof fn lemma_first_refusal(contents: ModuleContentsView, count: int, more: int)
    requires
        count <= more,
        first_refusal(contents, count).is_some(),
    ensures
        first_refusal(contents, more) == first_refusal(contents, count),
    decreases more - count,
{
    if count < more {
        lemma_first_refusal(contents, count, more - 1);
    }
}

/// Where none of some definitions is refused, each of them has a symbol
/// and none has the symbol of a definition before it.
pub proof fn lemma_none_refused(contents: ModuleContentsView, count: int)
    requires
        first_refusal(contents, count).is_none(),
    ensures
        forall|i: int|
            0 <= i < count ==> !((#[trigger] contents.function_definitions[i]).export is Hidden)
                && !repeats_symbol(contents, i),
    decreases count,
{
    if count > 0 {
        lemma_none_refused(contents, count - 1);
    }
}

/// Contents stand for a module exactly when no error says why they stand
/// for none.
pub proof fn lemma_refusal(contents: ModuleContentsView)
    ensures
        refusal(contents).is_none() == resolvable(contents),
{
    let count = contents.function_definitions.len() as int;
    let all = expanded_definitions(contents);
    if refusal(contents).is_none() {
        lemma_none_refused(contents, count);
        assert forall|i: int, j: int| 0 <= i < j < all.len() implies (
        #[trigger] all[i]).function.symbol != (#[trigger] all[j]).function.symbol by {
            assert(!repeats_symbol(contents, j));
        }
    } else if contents.module_identifier.is_some() && contents.format_version.supported() {
        lemma_some_refused(contents, count);
        let index = choose|index: int|
            0 <= index < count && definition_refusal(contents, index).is_some();
        if !(contents.function_definitions[index].export is Hidden) {
            let i = choose|i: int|
                0 <= i < index && (#[trigger] all[i]).function.symbol
                    == all[index].function.symbol;
            assert(all[i].function.symbol == all[index].function.symbol);
        }
    }
}

/// Where one of some definitions is refused, there is a definition that is
/// refused.
pub proof fn lemma_some_refused(contents: ModuleContentsView, count: int)
    requires
        first_refusal(contents, count).is_some(),
    ensures
        exists|index: int| 0 <= index < count && definition_refusal(contents, index).is_some(),
    decreases count,
{
    if first_refusal(contents, count - 1).is_some() {
        lemma_some_refused(contents, count - 1);
    } else {
        assert(definition_refusal(contents, count - 1).is_some());
    }
}

/// The module that contents with valid indices stand for, where they stand
/// for one.
pub fn resolve(valid: &ValidModule) -> (resolved: Result<Module, ErrorKind>)
    ensures
        match resolved {
            Ok(module) => resolvable(valid@) && module@ == expanded(valid@)
                && module.kept().is_none(),
            Err(kind) => !resolvable(valid@) && refusal(valid@) == Some(kind),
        },
{
    let contents = valid.contents();
    proof {
        lemma_refusal(contents@);
    }
    let identifier = match &contents.module_identifier {
        Some(identifier) => identifier.duplicate(),
        None => {
            return Err(ErrorKind::MissingModuleHeader);
        },
    };
    if !contents.format_version.is_supported() {
        return Err(ErrorKind::UnsupportedFormatVersion(contents.format_version));
    }
    let mut module = Module::from_identifier(Arc::new(identifier));
    module.set_format(contents.format_version);
    let ghost all = expanded_definitions(contents@);
    let mut index: usize = 0;
    proof {
        assert(all.take(0) =~= Seq::<DefinedFunctionView>::empty());
    }
    while index < contents.function_definitions.len()
        invariant
            index <= contents.function_definitions@.len(),
            contents@ == valid@,
            contents@.indices_valid(),
            all == expanded_definitions(contents@),
            module@.format_version == contents@.format_version,
            Some(module@.identifier) == contents@.module_identifier,
            module@.definitions == all.take(index as int),
            module.kept().is_none(),
            contents@.module_identifier.is_some(),
            contents@.format_version.supported(),
            refusal(contents@).is_none() == resolvable(contents@),
            first_refusal(contents@, index as int).is_none(),
        decreases contents.function_definitions@.len() - index,
    {
        let record = &contents.function_definitions[index];
        proof {
            assert(contents@.function_definitions[index as int] == record@);
            assert(contents@.definition_valid(contents@.function_definitions[index as int]));
            assert(contents@.function_signatures[record@.signature as int]
                == contents.function_signatures@[record@.signature as int]@);
            assert(contents@.function_signatures[record@.signature as int].within(
                contents@.type_signatures.len(),
            ));
        }
        let (symbol, export) = match record.export() {
            RecordExport::Export(symbol) => (symbol.clone(), Export::Yes),
            RecordExport::Private(symbol) => (symbol.clone(), Export::No),
            RecordExport::Hidden => {
                proof {
                    assert(first_refusal(contents@, index + 1) == Some(
                        ErrorKind::MissingSymbol { index },
                    ));
                    lemma_first_refusal(
                        contents@,
                        index + 1,
                        contents@.function_definitions.len() as int,
                    );
                }
                return Err(ErrorKind::MissingSymbol { index });
            },
        };
        let signature = expand_signature(
            &contents.type_signatures,
            &contents.function_signatures[record.signature()],
        );
        let body = match record.body() {
            FunctionBody::Definition(block) => {
                proof {
                    assert(contents@.code_blocks[*block as int] == contents.code_blocks@[
                        *block as int
                    ]@);
                    assert(contents@.code_blocks[*block as int].within(
                        contents@.type_signatures.len(),
                    ));
                }
                Body::Defined(
                    Arc::new(expand_block(&contents.type_signatures, &contents.code_blocks[*block])),
                )
            },
            FunctionBody::Foreign { library, entry_point } => {
                proof {
                    assert(contents@.identifiers[*library as int] == contents.identifiers@[
                        *library as int
                    ]@);
                }
                Body::Foreign(
                    Box::new(
                        ForeignBody::new(
                            Arc::new(contents.identifiers[*library].clone()),
                            entry_point.clone(),
                        ),
                    ),
                )
            },
        };
        let kind = Kind::Defined(Definition::new(body, export));
        let ghost before = module@;
        match module.add_function(symbol, Arc::new(signature), kind) {
            Ok(_) => {
                proof {
                    assert(all[index as int] == expanded_definition(contents@, record@));
                    assert(all.take(index + 1) =~= all.take(index as int).push(
                        all[index as int],
                    ));
                    if repeats_symbol(contents@, index as int) {
                        let i = choose|i: int|
                            0 <= i < index && (#[trigger] all[i]).function.symbol
                                == all[index as int].function.symbol;
                        assert(before.definitions[i] == all[i]);
                    }
                    assert(first_refusal(contents@, index + 1).is_none());
                }
            },
            Err(_) => {
                proof {
                    let i = choose|i: int|
                        0 <= i < before.definitions.len() && (
                        #[trigger] before.definitions[i]).function.symbol
                            == all[index as int].function.symbol;
                    assert(all[i] == before.definitions[i]);
                    assert(repeats_symbol(contents@, index as int));
                    assert(first_refusal(contents@, index + 1) == Some(
                        ErrorKind::DuplicateSymbol { index },
                    ));
                    lemma_first_refusal(
                        contents@,
                        index + 1,
                        contents@.function_definitions.len() as int,
                    );
                }
                return Err(ErrorKind::DuplicateSymbol { index });
            },
        }
        index += 1;
    }
    proof {
        assert(all.take(index as int) =~= all);
    }
    let _ = module.function_definitions();
    Ok(module)
}

} // verus!
