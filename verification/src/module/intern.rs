//! From a module to its contents: every signature, block and library name
//! of the module gets a position in a table, and the definitions refer to
//! them by position.

use crate::binary::record::{
    CodeBlock, CodeBlockView, ExportView, FunctionBody, FunctionBodyView, FunctionDefinition,
    FunctionDefinitionView,
};
use crate::binary::record::Export as RecordExport;
use crate::binary::signature;
use crate::block::{Block, BlockView};
use crate::function::{Body, BodyView, Signature, SignatureView};
use crate::identifier::Identifier;
use crate::instruction_set::duplicate_instructions;
use crate::module::lookup::{
    contains_all, distinct, inserted, inserted_all, lemma_inserted, lemma_inserted_all,
    lemma_inserted_all_concat, lemma_position_stable, lemma_positions_stable, position, positions,
    IndexMap,
};
use crate::module::{DefinedFunction, DefinedFunctionView, Export, Module, ModuleView};
use crate::type_system::Any;
use crate::validation::{ModuleContents, ModuleContentsView};
use vstd::prelude::*;

verus! {

/// The signatures of the definitions, each once, in the order in which the
/// definitions first have them.
pub open spec fn signature_keys(definitions: Seq<DefinedFunctionView>) -> Seq<SignatureView>
    decreases definitions.len(),
{
    if definitions.len() == 0 {
        Seq::empty()
    } else {
        inserted(signature_keys(definitions.drop_last()), definitions.last().function.signature)
    }
}

/// The blocks of the definitions, each once, in the order in which the
/// definitions first have them.
pub open spec fn block_keys(definitions: Seq<DefinedFunctionView>) -> Seq<BlockView>
    decreases definitions.len(),
{
    if definitions.len() == 0 {
        Seq::empty()
    } else {
        let before = block_keys(definitions.drop_last());
        match definitions.last().definition.body {
            BodyView::Defined(block) => inserted(before, block),
            BodyView::Foreign(_) => before,
        }
    }
}

/// The names of the libraries of the definitions, each once, in the order
/// in which the definitions first have them.
pub open spec fn library_keys(definitions: Seq<DefinedFunctionView>) -> Seq<Seq<u8>>
    decreases definitions.len(),
{
    if definitions.len() == 0 {
        Seq::empty()
    } else {
        let before = library_keys(definitions.drop_last());
        match definitions.last().definition.body {
            BodyView::Defined(_) => before,
            BodyView::Foreign(foreign) => inserted(before, foreign.library_name),
        }
    }
}

/// The types of a signature: those of its results, then those of its
/// parameters.
pub open spec fn types_of_signature(signature: SignatureView) -> Seq<Any> {
    signature.result_types + signature.parameter_types
}

/// The types of the registers of a block: those of its inputs, then those
/// of its results, then those of its temporaries.
pub open spec fn types_of_block(block: BlockView) -> Seq<Any> {
    block.input_types + block.result_types + block.temporary_types
}

/// The keys of a table of types after the types of the signatures are
/// inserted, signature by signature.
pub open spec fn signature_types(keys: Seq<Any>, signatures: Seq<SignatureView>) -> Seq<Any>
    decreases signatures.len(),
{
    if signatures.len() == 0 {
        keys
    } else {
        inserted_all(
            signature_types(keys, signatures.drop_last()),
            types_of_signature(signatures.last()),
        )
    }
}

/// The keys of a table of types after the types of the registers of the
/// blocks are inserted, block by block.
pub open spec fn block_types(keys: Seq<Any>, blocks: Seq<BlockView>) -> Seq<Any>
    decreases blocks.len(),
{
    if blocks.len() == 0 {
        keys
    } else {
        inserted_all(block_types(keys, blocks.drop_last()), types_of_block(blocks.last()))
    }
}

/// A signature as a module with the given table of types holds it.
pub open spec fn signature_record(types: Seq<Any>, signature: SignatureView)
    -> signature::FunctionView {
    signature::FunctionView {
        return_types: positions(types, signature.result_types),
        parameter_types: positions(types, signature.parameter_types),
    }
}

/// A block as a module with the given table of types holds it.
pub open spec fn block_record(types: Seq<Any>, block: BlockView) -> CodeBlockView {
    CodeBlockView {
        input_types: positions(types, block.input_types),
        result_types: positions(types, block.result_types),
        temporary_types: positions(types, block.temporary_types),
        instructions: block.instructions,
    }
}

/// The tables of a module that definitions refer to.
pub struct Keys {
    pub signatures: Seq<SignatureView>,
    pub blocks: Seq<BlockView>,
    pub libraries: Seq<Seq<u8>>,
}

impl Keys {
    pub open spec fn distinct(self) -> bool {
        distinct(self.signatures) && distinct(self.blocks) && distinct(self.libraries)
    }

    /// Whether the tables hold everything that a definition refers to.
    pub open spec fn hold(self, defined: DefinedFunctionView) -> bool {
        &&& self.signatures.contains(defined.function.signature)
        &&& match defined.definition.body {
            BodyView::Defined(block) => self.blocks.contains(block),
            BodyView::Foreign(foreign) => self.libraries.contains(foreign.library_name),
        }
    }

    /// Whether the tables start with the tables `before`.
    pub open spec fn extend(self, before: Keys) -> bool {
        &&& before.signatures.is_prefix_of(self.signatures)
        &&& before.blocks.is_prefix_of(self.blocks)
        &&& before.libraries.is_prefix_of(self.libraries)
    }
}

/// The tables of the definitions.
pub open spec fn keys_of(definitions: Seq<DefinedFunctionView>) -> Keys {
    Keys {
        signatures: signature_keys(definitions),
        blocks: block_keys(definitions),
        libraries: library_keys(definitions),
    }
}

/// A definition as a module with the given tables holds it.
pub open spec fn definition_record(keys: Keys, defined: DefinedFunctionView)
    -> FunctionDefinitionView {
    FunctionDefinitionView {
        export: match defined.definition.export {
            Export::Yes => ExportView::Export(defined.function.symbol),
            Export::No => ExportView::Private(defined.function.symbol),
        },
        signature: position(keys.signatures, defined.function.signature) as usize,
        body: match defined.definition.body {
            BodyView::Defined(block) => FunctionBodyView::Definition(
                position(keys.blocks, block) as usize,
            ),
            BodyView::Foreign(foreign) => FunctionBodyView::Foreign {
                library: position(keys.libraries, foreign.library_name) as usize,
                entry_point: foreign.entry_point_name,
            },
        },
    }
}

/// The table of types of a module: the types of its signatures, then the
/// types of the registers of its blocks, each once.
pub open spec fn type_keys(module: ModuleView) -> Seq<Any> {
    block_types(
        signature_types(Seq::empty(), signature_keys(module.definitions)),
        block_keys(module.definitions),
    )
}

/// The contents of a module: its tables, in the order in which the module
/// first mentions what they hold, and its definitions, which refer to what
/// the tables hold by position.
pub open spec fn interned(module: ModuleView) -> ModuleContentsView {
    let keys = keys_of(module.definitions);
    let types = type_keys(module);
    ModuleContentsView {
        format_version: module.format_version,
        module_identifier: Some(module.identifier),
        identifiers: keys.libraries,
        type_signatures: types,
        function_signatures: keys.signatures.map_values(
            |signature: SignatureView| signature_record(types, signature),
        ),
        code_blocks: keys.blocks.map_values(|block: BlockView| block_record(types, block)),
        function_definitions: module.definitions.map_values(
            |defined: DefinedFunctionView| definition_record(keys, defined),
        ),
    }
}

/// The tables of some definitions are distinct, they start with the tables
/// of the definitions without the last, and they hold everything that the
/// last definition refers to.
pub proof fn lemma_keys_step(definitions: Seq<DefinedFunctionView>)
    requires
        definitions.len() > 0,
    ensures
        keys_of(definitions.drop_last()).distinct(),
        keys_of(definitions).distinct(),
        keys_of(definitions).extend(keys_of(definitions.drop_last())),
        keys_of(definitions).hold(definitions.last()),
    decreases definitions.len(),
{
    let most = definitions.drop_last();
    if most.len() > 0 {
        lemma_keys_step(most);
    }
    lemma_inserted(signature_keys(most), definitions.last().function.signature);
    match definitions.last().definition.body {
        BodyView::Defined(block) => {
            lemma_inserted(block_keys(most), block);
        },
        BodyView::Foreign(foreign) => {
            lemma_inserted(library_keys(most), foreign.library_name);
        },
    }
}

/// A definition has the same record in tables that start with tables that
/// hold everything that it refers to.
pub proof fn lemma_definition_stable(before: Keys, after: Keys, defined: DefinedFunctionView)
    requires
        after.distinct(),
        after.extend(before),
        before.hold(defined),
    ensures
        definition_record(after, defined) == definition_record(before, defined),
        after.hold(defined),
{
    lemma_position_stable(before.signatures, after.signatures, defined.function.signature);
    match defined.definition.body {
        BodyView::Defined(block) => {
            lemma_position_stable(before.blocks, after.blocks, block);
        },
        BodyView::Foreign(foreign) => {
            lemma_position_stable(before.libraries, after.libraries, foreign.library_name);
        },
    }
}

/// The tables of types after some signatures are distinct and start with
/// the tables after the signatures without the last, and hold the types of
/// the last signature.
pub proof fn lemma_signature_types_step(keys: Seq<Any>, signatures: Seq<SignatureView>)
    requires
        distinct(keys),
        signatures.len() > 0,
    ensures
        distinct(signature_types(keys, signatures.drop_last())),
        distinct(signature_types(keys, signatures)),
        signature_types(keys, signatures.drop_last()).is_prefix_of(
            signature_types(keys, signatures),
        ),
        keys.is_prefix_of(signature_types(keys, signatures)),
        contains_all(signature_types(keys, signatures), types_of_signature(signatures.last())),
    decreases signatures.len(),
{
    let most = signatures.drop_last();
    if most.len() > 0 {
        lemma_signature_types_step(keys, most);
    }
    lemma_inserted_all(signature_types(keys, most), types_of_signature(signatures.last()));
}

/// The tables of types after some blocks are distinct and start with the
/// tables after the blocks without the last, and hold the types of the
/// registers of the last block.
pub proof fn lemma_block_types_step(keys: Seq<Any>, blocks: Seq<BlockView>)
    requires
        distinct(keys),
        blocks.len() > 0,
    ensures
        distinct(block_types(keys, blocks.drop_last())),
        distinct(block_types(keys, blocks)),
        block_types(keys, blocks.drop_last()).is_prefix_of(block_types(keys, blocks)),
        keys.is_prefix_of(block_types(keys, blocks)),
        contains_all(block_types(keys, blocks), types_of_block(blocks.last())),
    decreases blocks.len(),
{
    let most = blocks.drop_last();
    if most.len() > 0 {
        lemma_block_types_step(keys, most);
    }
    lemma_inserted_all(block_types(keys, most), types_of_block(blocks.last()));
}

/// A signature has the same record in a table of types that starts with a
/// table that holds its types.
pub proof fn lemma_signature_stable(before: Seq<Any>, after: Seq<Any>, signature: SignatureView)
    requires
        distinct(after),
        before.is_prefix_of(after),
        contains_all(before, types_of_signature(signature)),
    ensures
        signature_record(after, signature) == signature_record(before, signature),
        contains_all(after, types_of_signature(signature)),
{
    let all = types_of_signature(signature);
    assert forall|i: int| 0 <= i < signature.result_types.len() implies before.contains(
        #[trigger] signature.result_types[i],
    ) by {
        assert(all[i] == signature.result_types[i]);
    }
    assert forall|i: int| 0 <= i < signature.parameter_types.len() implies before.contains(
        #[trigger] signature.parameter_types[i],
    ) by {
        assert(all[signature.result_types.len() + i] == signature.parameter_types[i]);
    }
    lemma_positions_stable(before, after, signature.result_types);
    lemma_positions_stable(before, after, signature.parameter_types);
    lemma_positions_stable(before, after, all);
}

/// A block has the same record in a table of types that starts with a
/// table that holds the types of its registers.
pub proof fn lemma_block_stable(before: Seq<Any>, after: Seq<Any>, block: BlockView)
    requires
        distinct(after),
        before.is_prefix_of(after),
        contains_all(before, types_of_block(block)),
    ensures
        block_record(after, block) == block_record(before, block),
        contains_all(after, types_of_block(block)),
{
    let all = types_of_block(block);
    assert forall|i: int| 0 <= i < block.input_types.len() implies before.contains(
        #[trigger] block.input_types[i],
    ) by {
        assert(all[i] == block.input_types[i]);
    }
    assert forall|i: int| 0 <= i < block.result_types.len() implies before.contains(
        #[trigger] block.result_types[i],
    ) by {
        assert(all[block.input_types.len() + i] == block.result_types[i]);
    }
    assert forall|i: int| 0 <= i < block.temporary_types.len() implies before.contains(
        #[trigger] block.temporary_types[i],
    ) by {
        assert(all[block.input_types.len() + block.result_types.len() + i]
            == block.temporary_types[i]);
    }
    lemma_positions_stable(before, after, block.input_types);
    lemma_positions_stable(before, after, block.result_types);
    lemma_positions_stable(before, after, block.temporary_types);
    lemma_positions_stable(before, after, all);
}

} // verus!

verus! {

/// Inserts types into a table of types, and gives their positions.
fn intern_types<'a>(map: &mut IndexMap<'a, Any>, types: &'a [Any]) -> (indices: Vec<usize>)
    ensures
        final(map)@ == inserted_all(old(map)@, types@),
        indices@ == positions(final(map)@, types@),
        contains_all(final(map)@, types@),
        distinct(final(map)@),
        distinct(old(map)@),
        old(map)@.is_prefix_of(final(map)@),
{
    let mut indices: Vec<usize> = Vec::new();
    let mut index: usize = 0;
    proof {
        assert(types@.take(0) =~= Seq::<Any>::empty());
        assert(indices@ =~= positions(map@, types@.take(0)));
    }
    let _ = map.len();
    proof {
        lemma_inserted_all(map@, types@.take(0));
    }
    while index < types.len()
        invariant
            index <= types@.len(),
            distinct(old(map)@),
            map@ == inserted_all(old(map)@, types@.take(index as int)),
            indices@ == positions(map@, types@.take(index as int)),
            contains_all(map@, types@.take(index as int)),
            distinct(map@),
            old(map)@.is_prefix_of(map@),
        decreases types@.len() - index,
    {
        let ghost before = map@;
        let ghost done = types@.take(index as int);
        let ghost next = types@.take(index + 1);
        let position = map.get_or_insert(&types[index]);
        proof {
            assert(next.drop_last() =~= done);
            assert(next.last() == types@[index as int]);
            lemma_inserted(before, types@[index as int]);
            lemma_positions_stable(before, map@, done);
            assert forall|i: int| 0 <= i < next.len() implies map@.contains(
                #[trigger] next[i],
            ) by {
                if i < done.len() {
                    assert(next[i] == done[i]);
                }
            }
        }
        indices.push(position);
        proof {
            assert(indices@ =~= positions(map@, next));
        }
        index += 1;
    }
    proof {
        assert(types@.take(index as int) =~= types@);
    }
    indices
}

/// Inserts the types of a signature into a table of types, and gives the
/// signature as a module with that table holds it.
fn intern_signature<'a>(map: &mut IndexMap<'a, Any>, signature: &'a Signature) -> (record:
    signature::Function)
    ensures
        final(map)@ == inserted_all(old(map)@, types_of_signature(signature@)),
        record@ == signature_record(final(map)@, signature@),
        contains_all(final(map)@, types_of_signature(signature@)),
        distinct(final(map)@),
        old(map)@.is_prefix_of(final(map)@),
{
    let ghost start = map@;
    let return_types = intern_types(map, signature.result_types());
    let ghost middle = map@;
    let parameter_types = intern_types(map, signature.parameter_types());
    proof {
        lemma_inserted_all_concat(start, signature@.result_types, signature@.parameter_types);
        lemma_positions_stable(middle, map@, signature@.result_types);
        lemma_inserted_all(start, types_of_signature(signature@));
    }
    signature::Function::new(return_types, parameter_types)
}

/// Inserts the types of the registers of a block into a table of types,
/// and gives the block as a module with that table holds it.
fn intern_block<'a>(map: &mut IndexMap<'a, Any>, block: &'a Block) -> (record: CodeBlock)
    ensures
        final(map)@ == inserted_all(old(map)@, types_of_block(block@)),
        record@ == block_record(final(map)@, block@),
        contains_all(final(map)@, types_of_block(block@)),
        distinct(final(map)@),
        old(map)@.is_prefix_of(final(map)@),
{
    let ghost start = map@;
    let input_types = intern_types(map, block.input_types());
    let ghost first = map@;
    let result_types = intern_types(map, block.result_types());
    let ghost second = map@;
    let temporary_types = intern_types(map, block.temporary_types());
    let instructions = duplicate_instructions(block.instructions());
    proof {
        lemma_inserted_all_concat(start, block@.input_types, block@.result_types);
        lemma_inserted_all_concat(
            start,
            block@.input_types + block@.result_types,
            block@.temporary_types,
        );
        lemma_positions_stable(first, second, block@.input_types);
        lemma_positions_stable(second, map@, block@.input_types);
        lemma_positions_stable(second, map@, block@.result_types);
        lemma_inserted_all(start, types_of_block(block@));
    }
    CodeBlock::new(input_types, result_types, temporary_types, instructions)
}

/// What a list of functions with their definitions stands for.
pub open spec fn definition_views(definitions: Seq<DefinedFunction>) -> Seq<DefinedFunctionView> {
    definitions.map_values(|defined: DefinedFunction| defined@)
}

/// What a list of definitions of a module stands for.
pub open spec fn record_views(records: Seq<FunctionDefinition>) -> Seq<FunctionDefinitionView> {
    records.map_values(|record: FunctionDefinition| record@)
}

/// The tables that definitions refer to, while they are filled.
struct Tables<'a> {
    signatures: IndexMap<'a, Signature>,
    blocks: IndexMap<'a, Block>,
    libraries: IndexMap<'a, Identifier>,
}

impl<'a> View for Tables<'a> {
    type V = Keys;

    closed spec fn view(&self) -> Keys {
        Keys { signatures: self.signatures@, blocks: self.blocks@, libraries: self.libraries@ }
    }
}

/// Inserts what a definition refers to into the tables, and gives the
/// definition as a module with these tables holds it.
fn intern_definition<'a>(tables: &mut Tables<'a>, defined: &'a DefinedFunction) -> (record:
    FunctionDefinition)
    ensures
        final(tables)@.signatures == inserted(old(tables)@.signatures, defined@.function.signature),
        final(tables)@.blocks == (match defined@.definition.body {
            BodyView::Defined(block) => inserted(old(tables)@.blocks, block),
            BodyView::Foreign(_) => old(tables)@.blocks,
        }),
        final(tables)@.libraries == (match defined@.definition.body {
            BodyView::Defined(_) => old(tables)@.libraries,
            BodyView::Foreign(foreign) => inserted(old(tables)@.libraries, foreign.library_name),
        }),
        record@ == definition_record(final(tables)@, defined@),
{
    let function = defined.function();
    let signature = tables.signatures.get_or_insert(function.signature());
    let symbol = function.symbol().clone();
    let export = match defined.definition().is_export() {
        Export::Yes => RecordExport::Export(symbol),
        Export::No => RecordExport::Private(symbol),
    };
    let body = match defined.definition().body() {
        Body::Defined(block) => FunctionBody::Definition(tables.blocks.get_or_insert(block)),
        Body::Foreign(foreign) => FunctionBody::Foreign {
            library: tables.libraries.get_or_insert(foreign.library_name()),
            entry_point: foreign.entry_point_name().clone(),
        },
    };
    FunctionDefinition::new(export, signature, body)
}

/// Fills the tables that the definitions refer to, and gives the
/// definitions as a module with these tables holds them.
fn intern_definitions<'a>(definitions: &'a [DefinedFunction]) -> (interned: (
    Tables<'a>,
    Vec<FunctionDefinition>,
))
    ensures
        interned.0@ == keys_of(definition_views(definitions@)),
        interned.0@.distinct(),
        record_views(interned.1@) == definition_views(definitions@).map_values(
            |defined: DefinedFunctionView| definition_record(interned.0@, defined),
        ),
{
    let ghost views = definition_views(definitions@);
    let mut tables = Tables {
        signatures: IndexMap::new(),
        blocks: IndexMap::new(),
        libraries: IndexMap::new(),
    };
    let mut records: Vec<FunctionDefinition> = Vec::new();
    let mut index: usize = 0;
    proof {
        assert(views.take(0) =~= Seq::<DefinedFunctionView>::empty());
    }
    while index < definitions.len()
        invariant
            index <= definitions@.len(),
            views == definition_views(definitions@),
            tables@ == keys_of(views.take(index as int)),
            tables@.distinct(),
            records@.len() == index,
            forall|i: int|
                0 <= i < index ==> (#[trigger] records@[i])@ == definition_record(
                    tables@,
                    views[i],
                ) && tables@.hold(views[i]),
        decreases definitions@.len() - index,
    {
        let ghost before = tables@;
        let ghost next = views.take(index + 1);
        let record = intern_definition(&mut tables, &definitions[index]);
        proof {
            assert(next.drop_last() =~= views.take(index as int));
            assert(next.last() == views[index as int]);
            assert(views[index as int] == definitions@[index as int]@);
            lemma_keys_step(next);
            assert(tables@ == keys_of(next));
            assert forall|i: int| 0 <= i < index implies definition_record(tables@, views[i])
                == definition_record(before, views[i]) && tables@.hold(views[i]) by {
                assert(records@[i]@ == definition_record(before, views[i]));
                lemma_definition_stable(before, tables@, views[i]);
            }
        }
        records.push(record);
        index += 1;
    }
    proof {
        assert(views.take(index as int) =~= views);
        assert(record_views(records@) =~= views.map_values(
            |defined: DefinedFunctionView| definition_record(tables@, defined),
        ));
    }
    (tables, records)
}

} // verus!

verus! {

/// What the signatures of a list stand for.
pub open spec fn signature_views(signatures: Seq<&Signature>) -> Seq<SignatureView> {
    signatures.map_values(|signature: &Signature| signature@)
}

/// What the blocks of a list stand for.
pub open spec fn block_views(blocks: Seq<&Block>) -> Seq<BlockView> {
    blocks.map_values(|block: &Block| block@)
}

/// Inserts the types of signatures into a table of types, and gives the
/// signatures as a module with that table holds them.
fn intern_signatures<'a>(map: &mut IndexMap<'a, Any>, signatures: &Vec<&'a Signature>) -> (records:
    Vec<signature::Function>)
    ensures
        final(map)@ == signature_types(old(map)@, signature_views(signatures@)),
        distinct(final(map)@),
        old(map)@.is_prefix_of(final(map)@),
        records@.len() == signatures@.len(),
        forall|i: int|
            0 <= i < records@.len() ==> (#[trigger] records@[i])@ == signature_record(
                final(map)@,
                signatures@[i]@,
            ),
        forall|i: int|
            0 <= i < signatures@.len() ==> contains_all(
                final(map)@,
                types_of_signature((#[trigger] signatures@[i])@),
            ),
{
    let ghost views = signature_views(signatures@);
    let ghost start = map@;
    let _ = map.len();
    let mut records: Vec<signature::Function> = Vec::new();
    let mut index: usize = 0;
    proof {
        assert(views.take(0) =~= Seq::<SignatureView>::empty());
    }
    while index < signatures.len()
        invariant
            index <= signatures@.len(),
            views == signature_views(signatures@),
            start == old(map)@,
            distinct(start),
            map@ == signature_types(start, views.take(index as int)),
            distinct(map@),
            start.is_prefix_of(map@),
            records@.len() == index,
            forall|i: int|
                0 <= i < index ==> (#[trigger] records@[i])@ == signature_record(
                    map@,
                    signatures@[i]@,
                ) && contains_all(map@, types_of_signature(signatures@[i]@)),
        decreases signatures@.len() - index,
    {
        let ghost before = map@;
        let ghost next = views.take(index + 1);
        let record = intern_signature(map, signatures[index]);
        proof {
            assert(next.drop_last() =~= views.take(index as int));
            assert(next.last() == signatures@[index as int]@);
            assert forall|i: int| 0 <= i < index implies signature_record(
                map@,
                signatures@[i]@,
            ) == signature_record(before, signatures@[i]@) && contains_all(
                map@,
                types_of_signature(signatures@[i]@),
            ) by {
                assert(records@[i]@ == signature_record(before, signatures@[i]@));
                lemma_signature_stable(before, map@, signatures@[i]@);
            }
        }
        records.push(record);
        index += 1;
    }
    proof {
        assert(views.take(index as int) =~= views);
        assert forall|i: int| 0 <= i < signatures@.len() implies contains_all(
            map@,
            types_of_signature((#[trigger] signatures@[i])@),
        ) by {
            assert(records@[i]@ == signature_record(map@, signatures@[i]@));
        }
    }
    records
}

/// Inserts the types of the registers of blocks into a table of types, and
/// gives the blocks as a module with that table holds them.
fn intern_blocks<'a>(map: &mut IndexMap<'a, Any>, blocks: &Vec<&'a Block>) -> (records: Vec<
    CodeBlock,
>)
    ensures
        final(map)@ == block_types(old(map)@, block_views(blocks@)),
        distinct(final(map)@),
        distinct(old(map)@),
        old(map)@.is_prefix_of(final(map)@),
        records@.len() == blocks@.len(),
        forall|i: int|
            0 <= i < records@.len() ==> (#[trigger] records@[i])@ == block_record(
                final(map)@,
                blocks@[i]@,
            ),
{
    let ghost views = block_views(blocks@);
    let ghost start = map@;
    let _ = map.len();
    let mut records: Vec<CodeBlock> = Vec::new();
    let mut index: usize = 0;
    proof {
        assert(views.take(0) =~= Seq::<BlockView>::empty());
    }
    while index < blocks.len()
        invariant
            index <= blocks@.len(),
            views == block_views(blocks@),
            start == old(map)@,
            distinct(start),
            map@ == block_types(start, views.take(index as int)),
            distinct(map@),
            start.is_prefix_of(map@),
            records@.len() == index,
            forall|i: int|
                0 <= i < index ==> (#[trigger] records@[i])@ == block_record(map@, blocks@[i]@)
                    && contains_all(map@, types_of_block(blocks@[i]@)),
        decreases blocks@.len() - index,
    {
        let ghost before = map@;
        let ghost next = views.take(index + 1);
        let record = intern_block(map, blocks[index]);
        proof {
            assert(next.drop_last() =~= views.take(index as int));
            assert(next.last() == blocks@[index as int]@);
            assert forall|i: int| 0 <= i < index implies block_record(map@, blocks@[i]@)
                == block_record(before, blocks@[i]@) && contains_all(
                map@,
                types_of_block(blocks@[i]@),
            ) by {
                assert(records@[i]@ == block_record(before, blocks@[i]@));
                lemma_block_stable(before, map@, blocks@[i]@);
            }
        }
        records.push(record);
        index += 1;
    }
    proof {
        assert(views.take(index as int) =~= views);
    }
    records
}

/// Copies of the identifiers of a list.
fn copy_identifiers(identifiers: &Vec<&Identifier>) -> (copies: Vec<Identifier>)
    ensures
        copies@.map_values(|identifier: Identifier| identifier@) == identifiers@.map_values(
            |identifier: &Identifier| identifier@,
        ),
{
    let mut copies: Vec<Identifier> = Vec::new();
    let mut index: usize = 0;
    while index < identifiers.len()
        invariant
            index <= identifiers@.len(),
            copies@.len() == index,
            forall|i: int| 0 <= i < index ==> (#[trigger] copies@[i])@ == identifiers@[i]@,
        decreases identifiers@.len() - index,
    {
        copies.push(identifiers[index].clone());
        index += 1;
    }
    proof {
        assert(copies@.map_values(|identifier: Identifier| identifier@)
            =~= identifiers@.map_values(|identifier: &Identifier| identifier@));
    }
    copies
}

/// Copies of the types of a list.
fn copy_types(types: &Vec<&Any>) -> (copies: Vec<Any>)
    ensures
        copies@ == types@.map_values(|value_type: &Any| *value_type),
{
    let mut copies: Vec<Any> = Vec::new();
    let mut index: usize = 0;
    while index < types.len()
        invariant
            index <= types@.len(),
            copies@.len() == index,
            forall|i: int| 0 <= i < index ==> (#[trigger] copies@[i]) == *types@[i],
        decreases types@.len() - index,
    {
        copies.push(*types[index]);
        index += 1;
    }
    proof {
        assert(copies@ =~= types@.map_values(|value_type: &Any| *value_type));
    }
    copies
}

/// The contents of a module: what [`interned`] says.
pub fn intern(module: &Module) -> (contents: ModuleContents)
    ensures
        contents@ == interned(module@),
{
    let definitions = module.function_definitions();
    let (tables, function_definitions) = intern_definitions(definitions);
    let ghost keys = tables@;
    let Tables { signatures, blocks, libraries } = tables;
    let signature_keys = signatures.into_keys();
    let block_keys = blocks.into_keys();
    let library_keys = libraries.into_keys();
    let mut types: IndexMap<'_, Any> = IndexMap::new();
    let function_signatures = intern_signatures(&mut types, &signature_keys);
    let ghost middle = types@;
    let ghost signature_records = function_signatures@;
    let code_blocks = intern_blocks(&mut types, &block_keys);
    let ghost all = types@;
    let identifiers = copy_identifiers(&library_keys);
    let type_keys = types.into_keys();
    let type_signatures = copy_types(&type_keys);
    let contents = ModuleContents {
        format_version: *module.format_version(),
        module_identifier: Some(module.identifier().duplicate()),
        identifiers,
        type_signatures,
        function_signatures,
        code_blocks,
        function_definitions,
    };
    proof {
        let expected = interned(module@);
        assert(signature_views(signature_keys@) =~= keys.signatures);
        assert(block_views(block_keys@) =~= keys.blocks);
        assert(all == crate::module::intern::type_keys(module@));
        assert(contents@.identifiers =~= expected.identifiers);
        assert(contents@.type_signatures =~= expected.type_signatures);
        assert forall|i: int| 0 <= i < signature_keys@.len() implies (
        #[trigger] contents.function_signatures@[i])@ == signature_record(
            all,
            signature_keys@[i]@,
        ) by {
            assert(contents.function_signatures@[i] == signature_records[i]);
            assert(signature_records[i]@ == signature_record(middle, signature_keys@[i]@));
            lemma_signature_stable(middle, all, signature_keys@[i]@);
        }
        assert(contents@.function_signatures =~= expected.function_signatures);
        assert(contents@.code_blocks =~= expected.code_blocks);
        assert(contents@.function_definitions =~= expected.function_definitions);
    }
    contents
}

} // verus!
