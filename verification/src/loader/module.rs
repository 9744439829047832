//! Loaded modules: the records of a module, sorted into tables, with the
//! symbols of its definitions.

use crate::binary::record::{
    CodeBlock, CodeBlockView, DataArray, FunctionDefinition, FunctionDefinitionView, FunctionImport,
    FunctionImportView, FunctionInstantiation, MetadataField, Record,
};
use crate::binary::signature;
use crate::identifier::Identifier;
use crate::loader::symbol::{DuplicateSymbolError, FunctionSymbol, Lookup, Symbol, SymbolView};
use crate::block::Block;
use crate::function::Signature;
use crate::loader::error::LoaderError;
use crate::binary::record::FunctionBody;
use crate::loader::function::{
    block_outcome, body_outcome, find_beyond, lemma_first_beyond_concat, lemma_none_beyond,
    resolved_block, resolved_body, resolved_definition_signature, resolved_signature,
    signature_outcome, Body,
};
use crate::module::parser::Section;
use crate::module::resolve::{expand_block, expand_signature};
use crate::module::{ModuleIdentifier, ModuleIdentifierView};
use crate::type_system::Any;
use std::sync::Arc;
use vstd::prelude::*;

verus! {

/// The tables of a loaded module.
pub struct Tables {
    pub module_identifier: Option<ModuleIdentifierView>,
    pub entry_point: Option<usize>,
    pub identifiers: Seq<Seq<u8>>,
    pub type_signatures: Seq<Any>,
    pub function_signatures: Seq<signature::FunctionView>,
    pub data: Seq<Seq<u8>>,
    pub code_blocks: Seq<CodeBlockView>,
    pub function_definitions: Seq<FunctionDefinitionView>,
    pub function_imports: Seq<FunctionImportView>,
    pub function_instantiations: Seq<usize>,
}

impl Tables {
    /// The tables of a module without records.
    pub open spec fn empty() -> Tables {
        Tables {
            module_identifier: None,
            entry_point: None,
            identifiers: Seq::empty(),
            type_signatures: Seq::empty(),
            function_signatures: Seq::empty(),
            data: Seq::empty(),
            code_blocks: Seq::empty(),
            function_definitions: Seq::empty(),
            function_imports: Seq::empty(),
            function_instantiations: Seq::empty(),
        }
    }

    /// The tables with one more record: the record stands behind the
    /// records of its kind, and a field of the metadata takes the place of
    /// the field of its kind.
    pub open spec fn added(self, record: Record) -> Tables {
        match record {
            Record::MetadataField(MetadataField::ModuleIdentifier { name, version }) => Tables {
                module_identifier: Some(ModuleIdentifierView { name: name@, version: version@ }),
                ..self
            },
            Record::MetadataField(MetadataField::EntryPoint(index)) => Tables {
                entry_point: Some(index),
                ..self
            },
            Record::Identifier(identifier) => Tables {
                identifiers: self.identifiers.push(identifier@),
                ..self
            },
            Record::TypeSignature(value_type) => Tables {
                type_signatures: self.type_signatures.push(value_type),
                ..self
            },
            Record::FunctionSignature(signature) => Tables {
                function_signatures: self.function_signatures.push(signature@),
                ..self
            },
            Record::Data(data) => Tables { data: self.data.push(data.0@), ..self },
            Record::CodeBlock(block) => Tables {
                code_blocks: self.code_blocks.push((*block)@),
                ..self
            },
            Record::FunctionDefinition(definition) => Tables {
                function_definitions: self.function_definitions.push((*definition)@),
                ..self
            },
            Record::FunctionInstantiation(instantiation) => Tables {
                function_instantiations: self.function_instantiations.push(
                    instantiation.template,
                ),
                ..self
            },
            Record::FunctionImport(import) => Tables {
                function_imports: self.function_imports.push((*import)@),
                ..self
            },
        }
    }
}

/// The tables of the records of a module.
pub open spec fn collected(records: Seq<Record>) -> Tables
    decreases records.len(),
{
    if records.len() == 0 {
        Tables::empty()
    } else {
        collected(records.drop_last()).added(records.last())
    }
}

/// The symbols of the definitions of a module: those of the definitions
/// that are not hidden, in the order of the definitions.
pub open spec fn symbols_of(definitions: Seq<FunctionDefinitionView>, module: usize) -> Seq<
    SymbolView,
>
    decreases definitions.len(),
{
    if definitions.len() == 0 {
        Seq::empty()
    } else {
        let before = symbols_of(definitions.drop_last(), module);
        match definitions.last().export.symbol() {
            Some(name) => before.push(
                SymbolView {
                    name,
                    private: definitions.last().export is Private,
                    definition: (definitions.len() - 1) as usize,
                    module,
                },
            ),
            None => before,
        }
    }
}

/// Whether no two symbols of a list have the same name.
pub open spec fn names_distinct(symbols: Seq<SymbolView>) -> bool {
    forall|i: int, j: int|
        0 <= i < j < symbols.len() ==> (#[trigger] symbols[i]).name != (#[trigger] symbols[j]).name
}

/// Whether the record at `count` is the first that defines a symbol a
/// second time, and `first` the symbol that it defines again: the record is
/// a definition whose symbol has the name of `first`, which is the symbol of
/// a definition before it, and no two definitions before it have symbols of
/// the same name.
pub open spec fn repeats_at(
    records: Seq<Record>,
    module: usize,
    first: SymbolView,
    count: int,
) -> bool {
    &&& 0 <= count < records.len()
    &&& records[count] matches Record::FunctionDefinition(definition)
    &&& (*definition)@.export.symbol() == Some(first.name)
    &&& symbols_of(collected(records.take(count)).function_definitions, module).contains(first)
    &&& names_distinct(symbols_of(collected(records.take(count)).function_definitions, module))
}

/// Whether `first` is the first symbol of the module of the records that
/// is defined a second time.
pub open spec fn repeats(records: Seq<Record>, module: usize, first: SymbolView) -> bool {
    exists|count: int| #[trigger] repeats_at(records, module, first, count)
}

/// The definitions of the first records of a module are the first
/// definitions of the module.
pub proof fn lemma_collected_prefix(records: Seq<Record>, count: int)
    requires
        0 <= count <= records.len(),
    ensures
        collected(records.take(count)).function_definitions.is_prefix_of(
            collected(records).function_definitions,
        ),
    decreases records.len(),
{
    if count == records.len() {
        assert(records.take(count) =~= records);
    } else {
        assert(records.drop_last().take(count) =~= records.take(count));
        lemma_collected_prefix(records.drop_last(), count);
    }
}

/// The symbols of the first definitions of a module are the first symbols
/// of the module.
pub proof fn lemma_symbols_prefix(
    definitions: Seq<FunctionDefinitionView>,
    count: int,
    module: usize,
)
    requires
        0 <= count <= definitions.len(),
    ensures
        symbols_of(definitions.take(count), module).is_prefix_of(symbols_of(definitions, module)),
    decreases definitions.len(),
{
    if count == definitions.len() {
        assert(definitions.take(count) =~= definitions);
    } else {
        assert(definitions.drop_last().take(count) =~= definitions.take(count));
        lemma_symbols_prefix(definitions.drop_last(), count, module);
    }
}

/// A module one of whose symbols is defined a second time has two symbols
/// of the same name.
pub proof fn lemma_repeats(records: Seq<Record>, module: usize, first: SymbolView)
    requires
        repeats(records, module, first),
    ensures
        !names_distinct(symbols_of(collected(records).function_definitions, module)),
{
    let count = choose|count: int| #[trigger] repeats_at(records, module, first, count);
    let before = collected(records.take(count)).function_definitions;
    let with = collected(records.take(count + 1)).function_definitions;
    let all = collected(records).function_definitions;
    assert(records.take(count + 1).drop_last() =~= records.take(count));
    assert(records.take(count + 1).last() == records[count]);
    assert(with.drop_last() =~= before);
    lemma_collected_prefix(records, count + 1);
    assert(all.take(with.len() as int) =~= with);
    lemma_symbols_prefix(all, with.len() as int, module);
    let early = symbols_of(before, module);
    let symbols = symbols_of(all, module);
    assert(symbols_of(with, module).len() == early.len() + 1);
    let at = choose|at: int| 0 <= at < early.len() && early[at] == first;
    assert(symbols_of(with, module)[at] == first);
    assert(symbols[at] == first);
    assert(symbols[early.len() as int] == symbols_of(with, module)[early.len() as int]);
    assert(symbols[early.len() as int].name == first.name);
}

/// A loaded module.
#[derive(Debug)]
pub struct Module {
    handle: usize,
    module_identifier: Option<ModuleIdentifier>,
    entry_point: Option<usize>,
    identifiers: Vec<Identifier>,
    type_signatures: Vec<Any>,
    function_signatures: Vec<signature::Function>,
    data: Vec<DataArray>,
    code_blocks: Vec<CodeBlock>,
    function_definitions: Vec<FunctionDefinition>,
    function_imports: Vec<FunctionImport>,
    function_instantiations: Vec<FunctionInstantiation>,
    symbols: Lookup,
    signature_cache: Vec<Option<Result<Arc<Signature>, LoaderError>>>,
    block_cache: Vec<Option<Result<Arc<Block>, LoaderError>>>,
}

impl View for Module {
    type V = Tables;

    closed spec fn view(&self) -> Tables {
        Tables {
            module_identifier: match self.module_identifier {
                Some(identifier) => Some(identifier@),
                None => None,
            },
            entry_point: self.entry_point,
            identifiers: self.identifiers@.map_values(|identifier: Identifier| identifier@),
            type_signatures: self.type_signatures@,
            function_signatures: self.function_signatures@.map_values(
                |signature: signature::Function| signature@,
            ),
            data: self.data@.map_values(|data: DataArray| data.0@),
            code_blocks: self.code_blocks@.map_values(|block: CodeBlock| block@),
            function_definitions: self.function_definitions@.map_values(
                |definition: FunctionDefinition| definition@,
            ),
            function_imports: self.function_imports@.map_values(
                |import: FunctionImport| import@,
            ),
            function_instantiations: self.function_instantiations@.map_values(
                |instantiation: FunctionInstantiation| instantiation.template,
            ),
        }
    }
}

impl Module {
    #[verifier::type_invariant]
    spec fn well_formed(self) -> bool {
        &&& self.symbols@ == symbols_of(
            self.function_definitions@.map_values(|definition: FunctionDefinition| definition@),
            self.handle,
        )
        &&& self.signature_cache@.len() == 0 || self.signature_cache@.len()
            == self.function_signatures@.len()
        &&& self.block_cache@.len() == 0 || self.block_cache@.len() == self.code_blocks@.len()
        &&& forall|i: int|
            0 <= i < self.signature_cache@.len() ==> (
            #[trigger] self.signature_cache@[i] matches Some(result) ==> signature_outcome(result)
                == resolved_signature(self@, i as usize))
        &&& forall|i: int|
            0 <= i < self.block_cache@.len() ==> (
            #[trigger] self.block_cache@[i] matches Some(result) ==> block_outcome(result)
                == resolved_block(self@, i as usize))
    }

    /// Whether nothing was asked of the module yet.
    pub(crate) closed spec fn fresh(&self) -> bool {
        self.signature_cache@.len() == 0 && self.block_cache@.len() == 0
    }

    /// Whether there is room for what will be asked of the module.
    pub closed spec fn prepared(&self) -> bool {
        self.signature_cache@.len() == self.function_signatures@.len() && self.block_cache@.len()
            == self.code_blocks@.len()
    }

    /// Whether the function signature of the index was asked for before.
    pub closed spec fn signature_resolved(&self, index: usize) -> bool {
        index < self.signature_cache@.len() && self.signature_cache@[index as int].is_some()
    }

    /// Whether the code block of the index was asked for before.
    pub closed spec fn block_resolved(&self, index: usize) -> bool {
        index < self.block_cache@.len() && self.block_cache@[index as int].is_some()
    }

    /// The loader's number of the module.
    pub closed spec fn number(&self) -> usize {
        self.handle
    }

    /// The symbols of the module.
    pub open spec fn symbol_views(&self) -> Seq<SymbolView> {
        symbols_of(self@.function_definitions, self.number())
    }

    /// A module without records.
    pub(crate) fn empty(handle: usize) -> (module: Module)
        ensures
            module@ == Tables::empty(),
            module.number() == handle,
            module.fresh(),
            module.prepared(),
    {
        let module = Module {
            handle,
            module_identifier: None,
            entry_point: None,
            identifiers: Vec::new(),
            type_signatures: Vec::new(),
            function_signatures: Vec::new(),
            data: Vec::new(),
            code_blocks: Vec::new(),
            function_definitions: Vec::new(),
            function_imports: Vec::new(),
            function_instantiations: Vec::new(),
            symbols: Lookup::new(),
            signature_cache: Vec::new(),
            block_cache: Vec::new(),
        };
        proof {
            assert(module@.identifiers =~= Seq::<Seq<u8>>::empty());
            assert(module@.function_signatures =~= Seq::<signature::FunctionView>::empty());
            assert(module@.data =~= Seq::<Seq<u8>>::empty());
            assert(module@.code_blocks =~= Seq::<CodeBlockView>::empty());
            assert(module@.function_definitions =~= Seq::<FunctionDefinitionView>::empty());
            assert(module@.function_imports =~= Seq::<FunctionImportView>::empty());
            assert(module@.function_instantiations =~= Seq::<usize>::empty());
        }
        module
    }

    /// Adds a record to the module. The symbol of a definition that is not
    /// hidden is inserted into the symbols of the module; where a symbol of
    /// that name is there already, the record is not added.
    fn add(self, record: Record) -> (added: Result<Module, (Module, DuplicateSymbolError)>)
        requires
            self.fresh(),
        ensures
            match added {
                Ok(module) => module@ == self@.added(record) && module.number() == self.number()
                    && module.fresh(),
                Err((module, error)) => {
                    &&& module@ == self@
                    &&& module.number() == self.number()
                    &&& record matches Record::FunctionDefinition(definition)
                    &&& (*definition)@.export.symbol() == Some(error.first().name)
                    &&& self.symbol_views().contains(error.first())
                },
            },
    {
        proof {
            use_type_invariant(&self);
        }
        let ghost before = self@;
        let Module {
            handle,
            mut module_identifier,
            mut entry_point,
            mut identifiers,
            mut type_signatures,
            mut function_signatures,
            mut data,
            mut code_blocks,
            mut function_definitions,
            mut function_imports,
            mut function_instantiations,
            mut symbols,
            signature_cache,
            block_cache,
        } = self;
        let ghost definitions = function_definitions@.map_values(
            |definition: FunctionDefinition| definition@,
        );
        let mut failed: Option<DuplicateSymbolError> = None;
        match record {
            Record::MetadataField(MetadataField::ModuleIdentifier { name, version }) => {
                module_identifier = Some(ModuleIdentifier::new(name, version));
            },
            Record::MetadataField(MetadataField::EntryPoint(index)) => {
                entry_point = Some(index);
            },
            Record::Identifier(identifier) => {
                identifiers.push(identifier);
                proof {
                    assert(identifiers@.map_values(|identifier: Identifier| identifier@)
                        =~= before.identifiers.push(identifier@));
                }
            },
            Record::TypeSignature(value_type) => {
                type_signatures.push(value_type);
            },
            Record::FunctionSignature(signature) => {
                function_signatures.push(signature);
                proof {
                    assert(function_signatures@.map_values(
                        |signature: signature::Function| signature@,
                    ) =~= before.function_signatures.push(signature@));
                }
            },
            Record::Data(array) => {
                data.push(array);
                proof {
                    assert(data@.map_values(|data: DataArray| data.0@) =~= before.data.push(
                        array.0@,
                    ));
                }
            },
            Record::CodeBlock(block) => {
                code_blocks.push(*block);
                proof {
                    assert(code_blocks@.map_values(|block: CodeBlock| block@)
                        =~= before.code_blocks.push((*block)@));
                }
            },
            Record::FunctionDefinition(definition) => {
                let made = FunctionSymbol::new(
                    definition.export().duplicate(),
                    function_definitions.len(),
                    handle,
                );
                let inserted = match made {
                    Some(symbol) => symbols.try_insert(Symbol::Function(symbol)),
                    None => Ok(()),
                };
                match inserted {
                    Ok(()) => {
                        function_definitions.push(*definition);
                        proof {
                            let after = function_definitions@.map_values(
                                |definition: FunctionDefinition| definition@,
                            );
                            assert(after =~= definitions.push((*definition)@));
                            assert(after.drop_last() =~= definitions);
                        }
                    },
                    Err(error) => {
                        failed = Some(error);
                    },
                }
            },
            Record::FunctionInstantiation(instantiation) => {
                function_instantiations.push(instantiation);
                proof {
                    assert(function_instantiations@.map_values(
                        |instantiation: FunctionInstantiation| instantiation.template,
                    ) =~= before.function_instantiations.push(instantiation.template));
                }
            },
            Record::FunctionImport(import) => {
                function_imports.push(*import);
                proof {
                    assert(function_imports@.map_values(|import: FunctionImport| import@)
                        =~= before.function_imports.push((*import)@));
                }
            },
        }
        let module = Module {
            handle,
            module_identifier,
            entry_point,
            identifiers,
            type_signatures,
            function_signatures,
            data,
            code_blocks,
            function_definitions,
            function_imports,
            function_instantiations,
            symbols,
            signature_cache,
            block_cache,
        };
        match failed {
            Some(error) => Err((module, error)),
            None => Ok(module),
        }
    }

    /// Loads a module from its records, as the module of the given number.
    /// A definition whose symbol has the name of the symbol of a definition
    /// before it is refused: the error holds the symbol that was there
    /// first.
    pub fn from_source(records: Vec<Record>, handle: usize) -> (loaded: Result<
        Module,
        DuplicateSymbolError,
    >)
        ensures
            loaded.is_ok() == names_distinct(
                symbols_of(collected(records@).function_definitions, handle),
            ),
            match loaded {
                Ok(module) => module@ == collected(records@) && module.number() == handle
                    && module.prepared(),
                Err(error) => repeats(records@, handle, error.first()),
            },
    {
        let mut module = Module::empty(handle);
        let ghost all = records@;
        proof {
            assert(all.take(0) =~= Seq::<Record>::empty());
        }
        for record in iter: records
            invariant
                all == records@,
                module@ == collected(all.take(iter.index() as int)),
                module.number() == handle,
                module.fresh(),
        {
            let ghost count = iter.index() as int;
            assert(all.take(count + 1).drop_last() =~= all.take(count));
            assert(all.take(count + 1).last() == record);
            proof {
                use_type_invariant(&module);
            }
            let _ = module.symbols.iter();
            match module.add(record) {
                Ok(added) => {
                    module = added;
                },
                Err((_, error)) => {
                    proof {
                        assert(repeats_at(all, handle, error.first(), count));
                        lemma_repeats(all, handle, error.first());
                    }
                    return Err(error);
                },
            }
        }
        proof {
            assert(all.take(all.len() as int) =~= all);
            use_type_invariant(&module);
        }
        let symbols = module.symbols.iter();
        module.prepare();
        Ok(module)
    }

    /// Makes room for what will be asked of the module.
    fn prepare(&mut self)
        requires
            old(self).fresh(),
        ensures
            final(self)@ == old(self)@,
            final(self).number() == old(self).number(),
            final(self).prepared(),
            forall|index: usize| !final(self).signature_resolved(index),
            forall|index: usize| !final(self).block_resolved(index),
    {
        proof {
            use_type_invariant(&*self);
        }
        let mut signatures: Vec<Option<Result<Arc<Signature>, LoaderError>>> = Vec::new();
        let mut count: usize = 0;
        while count < self.function_signatures.len()
            invariant
                count <= self.function_signatures@.len(),
                signatures@.len() == count,
                forall|i: int| 0 <= i < count ==> (#[trigger] signatures@[i]).is_none(),
            decreases self.function_signatures@.len() - count,
        {
            signatures.push(None);
            count += 1;
        }
        let mut blocks: Vec<Option<Result<Arc<Block>, LoaderError>>> = Vec::new();
        let mut count: usize = 0;
        while count < self.code_blocks.len()
            invariant
                count <= self.code_blocks@.len(),
                blocks@.len() == count,
                forall|i: int| 0 <= i < count ==> (#[trigger] blocks@[i]).is_none(),
            decreases self.code_blocks@.len() - count,
        {
            blocks.push(None);
            count += 1;
        }
        self.signature_cache = signatures;
        self.block_cache = blocks;
    }

    /// Keeps what asking for the function signature of an index came to.
    fn store_signature(&mut self, index: usize, result: Result<Arc<Signature>, LoaderError>)
        requires
            signature_outcome(result) == resolved_signature(old(self)@, index),
        ensures
            final(self)@ == old(self)@,
            final(self).number() == old(self).number(),
            old(self).prepared() ==> final(self).prepared(),
            index < old(self)@.function_signatures.len() && old(self).prepared() ==> final(
                self
            ).signature_resolved(index),
            forall|other: usize|
                old(self).signature_resolved(other) ==> final(self).signature_resolved(other),
            forall|other: usize|
                old(self).block_resolved(other) ==> final(self).block_resolved(other),
    {
        proof {
            use_type_invariant(&*self);
        }
        if index < self.signature_cache.len() {
            let mut taken = Module::empty(self.handle);
            std::mem::swap(self, &mut taken);
            let Module {
                handle,
                module_identifier,
                entry_point,
                identifiers,
                type_signatures,
                function_signatures,
                data,
                code_blocks,
                function_definitions,
                function_imports,
                function_instantiations,
                symbols,
                mut signature_cache,
                block_cache,
            } = taken;
            signature_cache.set(index, Some(result));
            *self = Module {
                handle,
                module_identifier,
                entry_point,
                identifiers,
                type_signatures,
                function_signatures,
                data,
                code_blocks,
                function_definitions,
                function_imports,
                function_instantiations,
                symbols,
                signature_cache,
                block_cache,
            };
        }
    }

    /// Keeps what asking for the code block of an index came to.
    fn store_block(&mut self, index: usize, result: Result<Arc<Block>, LoaderError>)
        requires
            block_outcome(result) == resolved_block(old(self)@, index),
        ensures
            final(self)@ == old(self)@,
            final(self).number() == old(self).number(),
            old(self).prepared() ==> final(self).prepared(),
            index < old(self)@.code_blocks.len() && old(self).prepared() ==> final(
                self
            ).block_resolved(index),
            forall|other: usize|
                old(self).signature_resolved(other) ==> final(self).signature_resolved(other),
            forall|other: usize|
                old(self).block_resolved(other) ==> final(self).block_resolved(other),
    {
        proof {
            use_type_invariant(&*self);
        }
        if index < self.block_cache.len() {
            let mut taken = Module::empty(self.handle);
            std::mem::swap(self, &mut taken);
            let Module {
                handle,
                module_identifier,
                entry_point,
                identifiers,
                type_signatures,
                function_signatures,
                data,
                code_blocks,
                function_definitions,
                function_imports,
                function_instantiations,
                symbols,
                signature_cache,
                mut block_cache,
            } = taken;
            block_cache.set(index, Some(result));
            *self = Module {
                handle,
                module_identifier,
                entry_point,
                identifiers,
                type_signatures,
                function_signatures,
                data,
                code_blocks,
                function_definitions,
                function_imports,
                function_instantiations,
                symbols,
                signature_cache,
                block_cache,
            };
        }
    }
}

} // verus!

verus! {

impl Module {
    /// The loader's number of the module.
    pub fn handle(&self) -> (handle: usize)
        ensures
            handle == self.number(),
    {
        self.handle
    }

    /// Whether the module has no name and version.
    pub fn is_anonymous(&self) -> (anonymous: bool)
        ensures
            anonymous == self@.module_identifier.is_none(),
    {
        self.module_identifier.is_none()
    }

    /// The name and the version of the module, where it has them.
    pub fn module_identifier(&self) -> (identifier: Option<&ModuleIdentifier>)
        ensures
            match identifier {
                Some(found) => self@.module_identifier == Some(found@),
                None => self@.module_identifier.is_none(),
            },
    {
        self.module_identifier.as_ref()
    }

    /// The index of the function instantiation at which the program starts.
    pub fn entry_point(&self) -> (entry_point: Option<usize>)
        ensures
            entry_point == self@.entry_point,
    {
        self.entry_point
    }

    pub fn identifiers(&self) -> (identifiers: &[Identifier])
        ensures
            identifiers@.map_values(|identifier: Identifier| identifier@) == self@.identifiers,
    {
        self.identifiers.as_slice()
    }

    /// The symbols of the definitions of the module that are not hidden.
    pub fn symbols(&self) -> (symbols: &Lookup)
        ensures
            symbols@ == self.symbol_views(),
    {
        proof {
            use_type_invariant(self);
        }
        &self.symbols
    }

    /// The definitions of the module.
    pub fn function_definitions(&self) -> (definitions: &[FunctionDefinition])
        ensures
            definitions@.map_values(|definition: FunctionDefinition| definition@)
                == self@.function_definitions,
    {
        self.function_definitions.as_slice()
    }

    /// The functions that the module takes from other modules.
    pub fn function_imports(&self) -> (imports: &[FunctionImport])
        ensures
            imports@.map_values(|import: FunctionImport| import@) == self@.function_imports,
    {
        self.function_imports.as_slice()
    }

    /// The function instantiations of the module.
    pub fn function_instantiations(&self) -> (instantiations: &[FunctionInstantiation])
        ensures
            instantiations@.map_values(
                |instantiation: FunctionInstantiation| instantiation.template,
            ) == self@.function_instantiations,
    {
        self.function_instantiations.as_slice()
    }

    /// The function signature of an index as a signature of this module:
    /// with its index and the number of the module. Asking again gives the
    /// same signature or the same error.
    pub fn loaded_signature(&mut self, index: usize) -> (result: Result<
        crate::loader::function::Signature,
        LoaderError,
    >)
        ensures
            final(self)@ == old(self)@,
            final(self).number() == old(self).number(),
            match result {
                Ok(loaded) => {
                    &&& resolved_signature(old(self)@, index) matches Ok(signature)
                    &&& loaded@.signature == signature
                    &&& loaded@.index == index
                    &&& loaded@.module == old(self).number()
                },
                Err(error) => {
                    &&& resolved_signature(old(self)@, index) matches Err(refused)
                    &&& error@ == refused
                },
            },
            old(self).prepared() ==> final(self).prepared(),
            forall|other: usize|
                old(self).signature_resolved(other) ==> final(self).signature_resolved(other),
            forall|other: usize|
                old(self).block_resolved(other) ==> final(self).block_resolved(other),
    {
        let signature = self.get_function_signature(index)?;
        Ok(crate::loader::function::Signature::new(index, self.handle, signature))
    }

    /// The function signature of an index, with the types that its type
    /// indices refer to. What asking comes to is kept: asking again gives
    /// the same signature or the same error.
    pub fn get_function_signature(&mut self, index: usize) -> (result: Result<
        Arc<Signature>,
        LoaderError,
    >)
        ensures
            final(self)@ == old(self)@,
            final(self).number() == old(self).number(),
            signature_outcome(result) == resolved_signature(old(self)@, index),
            old(self).prepared() ==> final(self).prepared(),
            index < old(self)@.function_signatures.len() && old(self).prepared() ==> final(
                self
            ).signature_resolved(index),
            forall|other: usize|
                old(self).signature_resolved(other) ==> final(self).signature_resolved(other),
            forall|other: usize|
                old(self).block_resolved(other) ==> final(self).block_resolved(other),
    {
        proof {
            use_type_invariant(&*self);
        }
        if index >= self.function_signatures.len() {
            return Err(
                LoaderError::IndexOutOfBounds { section: Section::FunctionSignatures, index },
            );
        }
        if index < self.signature_cache.len() {
            match &self.signature_cache[index] {
                Some(Ok(signature)) => {
                    return Ok(signature.clone());
                },
                Some(Err(error)) => {
                    return Err(error.duplicate());
                },
                None => {},
            }
        }
        let record = &self.function_signatures[index];
        let types = self.type_signatures.len();
        proof {
            assert(self@.function_signatures[index as int] == record@);
            lemma_first_beyond_concat(
                record@.return_types,
                record@.parameter_types,
                types as nat,
            );
        }
        let beyond = match find_beyond(record.return_types(), types) {
            Some(beyond) => Some(beyond),
            None => find_beyond(record.parameter_types(), types),
        };
        let result = match beyond {
            Some(index) => Err(
                LoaderError::IndexOutOfBounds { section: Section::TypeSignatures, index },
            ),
            None => {
                proof {
                    lemma_none_beyond(
                        record@.return_types + record@.parameter_types,
                        types as nat,
                    );
                    assert forall|i: int| 0 <= i < record@.return_types.len() implies
                        record@.return_types[i] < types by {
                        assert((record@.return_types + record@.parameter_types)[i]
                            == record@.return_types[i]);
                    }
                    assert forall|i: int| 0 <= i < record@.parameter_types.len() implies
                        record@.parameter_types[i] < types by {
                        assert((record@.return_types + record@.parameter_types)[
                            record@.return_types.len() + i
                        ] == record@.parameter_types[i]);
                    }
                }
                Ok(Arc::new(expand_signature(&self.type_signatures, record)))
            },
        };
        let kept = match &result {
            Ok(signature) => Ok(signature.clone()),
            Err(error) => Err(error.duplicate()),
        };
        self.store_signature(index, kept);
        result
    }

    /// The code block of an index, with the types that its type indices
    /// refer to. What asking comes to is kept: asking again gives the same
    /// block or the same error.
    pub fn get_code_block(&mut self, index: usize) -> (result: Result<Arc<Block>, LoaderError>)
        ensures
            final(self)@ == old(self)@,
            final(self).number() == old(self).number(),
            block_outcome(result) == resolved_block(old(self)@, index),
            old(self).prepared() ==> final(self).prepared(),
            index < old(self)@.code_blocks.len() && old(self).prepared() ==> final(
                self
            ).block_resolved(index),
            forall|other: usize|
                old(self).signature_resolved(other) ==> final(self).signature_resolved(other),
            forall|other: usize|
                old(self).block_resolved(other) ==> final(self).block_resolved(other),
    {
        proof {
            use_type_invariant(&*self);
        }
        if index >= self.code_blocks.len() {
            return Err(LoaderError::IndexOutOfBounds { section: Section::CodeBlocks, index });
        }
        if index < self.block_cache.len() {
            match &self.block_cache[index] {
                Some(Ok(block)) => {
                    return Ok(block.clone());
                },
                Some(Err(error)) => {
                    return Err(error.duplicate());
                },
                None => {},
            }
        }
        let record = &self.code_blocks[index];
        let types = self.type_signatures.len();
        let ghost all = record@.input_types + record@.result_types + record@.temporary_types;
        proof {
            assert(self@.code_blocks[index as int] == record@);
            lemma_first_beyond_concat(record@.input_types, record@.result_types, types as nat);
            lemma_first_beyond_concat(
                record@.input_types + record@.result_types,
                record@.temporary_types,
                types as nat,
            );
        }
        let beyond = match find_beyond(record.input_types(), types) {
            Some(beyond) => Some(beyond),
            None => match find_beyond(record.result_types(), types) {
                Some(beyond) => Some(beyond),
                None => find_beyond(record.temporary_types(), types),
            },
        };
        let result = match beyond {
            Some(index) => Err(
                LoaderError::IndexOutOfBounds { section: Section::TypeSignatures, index },
            ),
            None => {
                proof {
                    lemma_none_beyond(all, types as nat);
                    assert forall|i: int| 0 <= i < record@.input_types.len() implies
                        record@.input_types[i] < types by {
                        assert(all[i] == record@.input_types[i]);
                    }
                    assert forall|i: int| 0 <= i < record@.result_types.len() implies
                        record@.result_types[i] < types by {
                        assert(all[record@.input_types.len() + i] == record@.result_types[i]);
                    }
                    assert forall|i: int| 0 <= i < record@.temporary_types.len() implies
                        record@.temporary_types[i] < types by {
                        assert(all[record@.input_types.len() + record@.result_types.len() + i]
                            == record@.temporary_types[i]);
                    }
                }
                Ok(Arc::new(expand_block(&self.type_signatures, record)))
            },
        };
        let kept = match &result {
            Ok(block) => Ok(block.clone()),
            Err(error) => Err(error.duplicate()),
        };
        self.store_block(index, kept);
        result
    }

    /// The signature of the definition of a position.
    pub fn definition_signature(&mut self, definition: usize) -> (result: Result<
        Arc<Signature>,
        LoaderError,
    >)
        ensures
            final(self)@ == old(self)@,
            final(self).number() == old(self).number(),
            signature_outcome(result) == resolved_definition_signature(old(self)@, definition),
            old(self).prepared() ==> final(self).prepared(),
            forall|other: usize|
                old(self).signature_resolved(other) ==> final(self).signature_resolved(other),
            forall|other: usize|
                old(self).block_resolved(other) ==> final(self).block_resolved(other),
    {
        if definition >= self.function_definitions.len() {
            return Err(
                LoaderError::IndexOutOfBounds {
                    section: Section::FunctionDefinitions,
                    index: definition,
                },
            );
        }
        let signature = self.function_definitions[definition].signature();
        proof {
            assert(self@.function_definitions[definition as int]
                == self.function_definitions@[definition as int]@);
        }
        self.get_function_signature(signature)
    }

    /// The body of the definition of a position.
    pub fn definition_body(&mut self, definition: usize) -> (result: Result<Body, LoaderError>)
        ensures
            final(self)@ == old(self)@,
            final(self).number() == old(self).number(),
            body_outcome(result) == resolved_body(old(self)@, definition),
            old(self).prepared() ==> final(self).prepared(),
            forall|other: usize|
                old(self).signature_resolved(other) ==> final(self).signature_resolved(other),
            forall|other: usize|
                old(self).block_resolved(other) ==> final(self).block_resolved(other),
    {
        if definition >= self.function_definitions.len() {
            return Err(
                LoaderError::IndexOutOfBounds {
                    section: Section::FunctionDefinitions,
                    index: definition,
                },
            );
        }
        proof {
            assert(self@.function_definitions[definition as int]
                == self.function_definitions@[definition as int]@);
        }
        let block = match self.function_definitions[definition].body() {
            FunctionBody::Definition(block) => *block,
            FunctionBody::Foreign { library, entry_point } => {
                if *library >= self.identifiers.len() {
                    return Err(
                        LoaderError::IndexOutOfBounds {
                            section: Section::Identifiers,
                            index: *library,
                        },
                    );
                }
                proof {
                    assert(self@.identifiers[*library as int] == self.identifiers@[
                        *library as int
                    ]@);
                }
                return Ok(
                    Body::Foreign {
                        library: self.identifiers[*library].clone(),
                        entry_point: entry_point.clone(),
                    },
                );
            },
        };
        match self.get_code_block(block) {
            Ok(resolved) => Ok(Body::Defined(resolved)),
            Err(error) => Err(error),
        }
    }
}

} // verus!
