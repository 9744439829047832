//! Loading modules: from the records of modules to functions whose
//! signatures and bodies can be asked for.

pub mod error;
pub mod function;
pub mod module;
pub mod symbol;

use crate::binary::record::{ExportView, FunctionImportView, Record};
use crate::block::Block;
use crate::function::Signature;
use crate::identifier::Id;
use crate::loader::error::{LoaderError, LoaderErrorView};
use crate::loader::function::{
    block_outcome, body_outcome, resolved_block, resolved_body, resolved_definition_signature,
    resolved_signature, signature_outcome, Body, Template,
};
use crate::loader::module::{collected, names_distinct, repeats, symbols_of, Module, Tables};
use crate::loader::symbol::{has_name, DuplicateSymbolError, Symbol, SymbolView};
use crate::module::parser::Section;
use crate::module::{ModuleIdentifier, ModuleIdentifierView};
use crate::type_system::Any;
use std::sync::Arc;
use vstd::prelude::*;

verus! {

/// Something that finds the records of the modules that are asked for by
/// name and version.
pub trait Resolver {
    /// The records of the module of the given name and version, if the
    /// module can be found.
    fn resolve(&mut self, identifier: &ModuleIdentifier) -> Option<Vec<Record>>;
}

/// The resolver that finds no module.
impl Resolver for () {
    fn resolve(&mut self, identifier: &ModuleIdentifier) -> Option<Vec<Record>> {
        None
    }
}

/// The integer types that the integers of the width of an address are on a
/// machine.
#[derive(Clone, Copy, Debug, PartialEq, Eq, Structural)]
pub struct NativeIntegerType {
    signed: Any,
    unsigned: Any,
}

/// The integer types of the width of an address whose pointers have the
/// given number of bytes, which is two, four or eight.
pub open spec fn native_types(pointer_size: u8) -> Option<(Any, Any)> {
    if pointer_size == 2 {
        Some((Any::S16, Any::U16))
    } else if pointer_size == 4 {
        Some((Any::S32, Any::U32))
    } else if pointer_size == 8 {
        Some((Any::S64, Any::U64))
    } else {
        None
    }
}

impl NativeIntegerType {
    pub closed spec fn types(self) -> (Any, Any) {
        (self.signed, self.unsigned)
    }

    /// The integer types for pointers of the given number of bytes.
    pub fn for_pointer_size(pointer_size: u8) -> (native: Result<NativeIntegerType, LoaderError>)
        ensures
            match native {
                Ok(found) => native_types(pointer_size) == Some(found.types()),
                Err(error) => native_types(pointer_size).is_none() && error@
                    == LoaderErrorView::InvalidPointerSize(pointer_size),
            },
    {
        if pointer_size == 2 {
            Ok(NativeIntegerType { signed: Any::S16, unsigned: Any::U16 })
        } else if pointer_size == 4 {
            Ok(NativeIntegerType { signed: Any::S32, unsigned: Any::U32 })
        } else if pointer_size == 8 {
            Ok(NativeIntegerType { signed: Any::S64, unsigned: Any::U64 })
        } else {
            Err(LoaderError::InvalidPointerSize(pointer_size))
        }
    }

    pub fn signed(&self) -> (signed: Any)
        ensures
            signed == self.types().0,
    {
        self.signed
    }

    pub fn unsigned(&self) -> (unsigned: Any)
        ensures
            unsigned == self.types().1,
    {
        self.unsigned
    }

    /// The fixed-width type that an integer type is on the machine: the
    /// types of the width of an address are replaced, and every other type
    /// stays.
    pub fn convert_integer_type(&self, integer_type: Any) -> (converted: Any)
        ensures
            converted == (match integer_type {
                Any::SNative => self.types().0,
                Any::UNative => self.types().1,
                other => other,
            }),
    {
        match integer_type {
            Any::SNative => self.signed,
            Any::UNative => self.unsigned,
            other => other,
        }
    }
}

/// What was found for the function of an instantiation.
#[derive(Debug)]
struct TemplateEntry {
    module: usize,
    instantiation: usize,
    result: Result<Template, LoaderError>,
}

/// What a result of asking for the function of an instantiation stands
/// for.
pub open spec fn template_outcome(result: Result<Template, LoaderError>) -> Result<
    Template,
    LoaderErrorView,
> {
    match result {
        Ok(template) => Ok(template),
        Err(error) => Err(error@),
    }
}

/// The number of the first module of a list that has the given name and
/// version.
pub open spec fn first_named(modules: Seq<Tables>, identifier: ModuleIdentifierView) -> Option<
    usize,
>
    decreases modules.len(),
{
    if modules.len() == 0 {
        None
    } else {
        match first_named(modules.drop_last(), identifier) {
            Some(found) => Some(found),
            None => if modules.last().module_identifier == Some(identifier) {
                Some((modules.len() - 1) as usize)
            } else {
                None
            },
        }
    }
}

/// The first module of the given name is a module of the list with that
/// name, and no module before it has the name.
pub proof fn lemma_first_named(modules: Seq<Tables>, identifier: ModuleIdentifierView)
    requires
        modules.len() <= usize::MAX,
    ensures
        match first_named(modules, identifier) {
            Some(found) => found < modules.len() && modules[found as int].module_identifier
                == Some(identifier),
            None => forall|i: int|
                0 <= i < modules.len() ==> (#[trigger] modules[i]).module_identifier != Some(
                    identifier,
                ),
        },
    decreases modules.len(),
{
    if modules.len() > 0 {
        lemma_first_named(modules.drop_last(), identifier);
        match first_named(modules.drop_last(), identifier) {
            Some(found) => {
                assert(modules.drop_last()[found as int] == modules[found as int]);
            },
            None => {
                assert forall|i: int| 0 <= i < modules.len() - 1 implies (
                #[trigger] modules[i]).module_identifier != Some(identifier) by {
                    assert(modules.drop_last()[i] == modules[i]);
                }
            },
        }
    }
}

/// The first module of a name stays the first module of that name when
/// another module is loaded.
pub proof fn lemma_first_named_stable(
    modules: Seq<Tables>,
    added: Tables,
    identifier: ModuleIdentifierView,
)
    requires
        first_named(modules, identifier).is_some(),
    ensures
        first_named(modules.push(added), identifier) == first_named(modules, identifier),
{
    assert(modules.push(added).drop_last() =~= modules);
}

/// The first module of a name among the first modules of a list is the
/// first module of that name of the whole list.
pub proof fn lemma_first_named_among(
    modules: Seq<Tables>,
    count: int,
    identifier: ModuleIdentifierView,
)
    requires
        0 <= count <= modules.len(),
        first_named(modules.take(count), identifier).is_some(),
    ensures
        first_named(modules, identifier) == first_named(modules.take(count), identifier),
    decreases modules.len() - count,
{
    if count < modules.len() {
        lemma_first_named_stable(modules.take(count), modules[count], identifier);
        assert(modules.take(count + 1) =~= modules.take(count).push(modules[count]));
        lemma_first_named_among(modules, count + 1, identifier);
    } else {
        assert(modules.take(count) =~= modules);
    }
}

/// Whether `template` is the function of the instantiation of the given
/// position of the module of the given number: the definition that the
/// instantiation refers to in its own module, or for an import the
/// definition that a loaded module of the name of the import exports under
/// the symbol of the import.
pub open spec fn is_template(
    modules: Seq<Tables>,
    module: usize,
    instantiation: usize,
    template: Template,
) -> bool {
    &&& module < modules.len()
    &&& instantiation < modules[module as int].function_instantiations.len()
    &&& {
        let tables = modules[module as int];
        let index = tables.function_instantiations[instantiation as int];
        if index < tables.function_definitions.len() {
            template == (Template { module, definition: index })
        } else {
            let import = tables.function_imports[index - tables.function_definitions.len()];
            &&& index - tables.function_definitions.len() < tables.function_imports.len()
            &&& template.module < modules.len()
            &&& modules[template.module as int].module_identifier == Some(import.module)
            &&& template.definition < modules[template.module as int].function_definitions.len()
            &&& modules[template.module as int].function_definitions[template.definition as int].export
                == ExportView::Export(import.symbol)
        }
    }
}

/// The position of the first of some definitions that is exported under a
/// symbol, if one is.
pub open spec fn first_exported(
    definitions: Seq<crate::binary::record::FunctionDefinitionView>,
    symbol: Seq<u8>,
) -> Option<usize>
    decreases definitions.len(),
{
    if definitions.len() == 0 {
        None
    } else {
        match first_exported(definitions.drop_last(), symbol) {
            Some(found) => Some(found),
            None => if definitions.last().export == ExportView::Export(symbol) {
                Some((definitions.len() - 1) as usize)
            } else {
                None
            },
        }
    }
}

/// The definition that a module exports under a symbol: the position of
/// the first definition that is exported under it, if one is.
pub open spec fn exported_by(tables: Tables, symbol: Seq<u8>) -> Option<usize> {
    first_exported(tables.function_definitions, symbol)
}

/// The first definition that is exported under a symbol is exported under
/// it, and none before it is; where there is none, no definition is
/// exported under the symbol.
pub proof fn lemma_first_exported(
    definitions: Seq<crate::binary::record::FunctionDefinitionView>,
    symbol: Seq<u8>,
)
    requires
        definitions.len() <= usize::MAX,
    ensures
        match first_exported(definitions, symbol) {
            Some(found) => {
                &&& found < definitions.len()
                &&& definitions[found as int].export == ExportView::Export(symbol)
                &&& forall|i: int|
                    0 <= i < found ==> (#[trigger] definitions[i]).export != ExportView::Export(
                        symbol,
                    )
            },
            None => forall|i: int|
                0 <= i < definitions.len() ==> (#[trigger] definitions[i]).export
                    != ExportView::Export(symbol),
        },
    decreases definitions.len(),
{
    if definitions.len() > 0 {
        let most = definitions.drop_last();
        lemma_first_exported(most, symbol);
        match first_exported(most, symbol) {
            Some(found) => {
                assert(most[found as int] == definitions[found as int]);
                assert forall|i: int| 0 <= i < found implies (#[trigger] definitions[i]).export
                    != ExportView::Export(symbol) by {
                    assert(most[i] == definitions[i]);
                }
            },
            None => {
                assert forall|i: int| 0 <= i < definitions.len() - 1 implies (
                #[trigger] definitions[i]).export != ExportView::Export(symbol) by {
                    assert(most[i] == definitions[i]);
                }
            },
        }
    }
}

/// The definition that a module exports under a symbol, if it exports
/// one: no symbol of the module may have that name and be private.
pub fn exported_definition(module: &Module, symbol: &Id) -> (found: Option<usize>)
    ensures
        found == exported_by(module@, symbol@),
        match found {
            Some(definition) => definition < module@.function_definitions.len()
                && module@.function_definitions[definition as int].export == ExportView::Export(
                symbol@,
            ),
            None => forall|i: int|
                0 <= i < module@.function_definitions.len() ==> (
                #[trigger] module@.function_definitions[i]).export != ExportView::Export(symbol@),
        },
{
    let symbols = module.symbols();
    let count = module.function_definitions().len();
    let _ = symbols.iter();
    proof {
        lemma_symbols_of(module@.function_definitions, module.number());
        lemma_first_exported(module@.function_definitions, symbol@);
    }
    match symbols.get(symbol) {
        Some(found) => {
            proof {
                // no other definition has a symbol of the name
                assert forall|i: int| 0 <= i < count && (
                #[trigger] module@.function_definitions[i]).export == ExportView::Export(
                    symbol@,
                ) implies !found@.private && found@.definition == i by {
                    lemma_symbol_of_definition(module@.function_definitions, module.number(), i);
                    let public = SymbolView {
                        name: symbol@,
                        private: false,
                        definition: i as usize,
                        module: module.number(),
                    };
                    let first = choose|at: int| 0 <= at < symbols@.len() && symbols@[at] == public;
                    let second = choose|at: int|
                        0 <= at < symbols@.len() && symbols@[at] == found@;
                    assert(symbols@[first].name == symbols@[second].name);
                    assert(first == second);
                }
            }
            if found.is_private() {
                None
            } else {
                let definition = match found {
                    Symbol::Function(function) => function.definition(),
                };
                proof {
                    let at = choose|at: int| 0 <= at < symbols@.len() && symbols@[at] == found@;
                    assert(symbols_of(module@.function_definitions, module.number())[at]
                        == found@);
                }
                Some(definition)
            }
        },
        None => {
            proof {
                assert forall|i: int| 0 <= i < module@.function_definitions.len() implies (
                #[trigger] module@.function_definitions[i]).export != ExportView::Export(
                    symbol@,
                ) by {
                    if module@.function_definitions[i].export == ExportView::Export(symbol@) {
                        lemma_symbol_of_definition(
                            module@.function_definitions,
                            module.number(),
                            i,
                        );
                    }
                }
            }
            None
        },
    }
}

/// Every symbol of the symbols of some definitions is the symbol of one of
/// the definitions: it has the name and the privacy of the export of the
/// definition at its position.
pub proof fn lemma_symbols_of(
    definitions: Seq<crate::binary::record::FunctionDefinitionView>,
    module: usize,
)
    requires
        definitions.len() <= usize::MAX,
    ensures
        forall|i: int|
            0 <= i < symbols_of(definitions, module).len() ==> {
                let symbol = #[trigger] symbols_of(definitions, module)[i];
                &&& symbol.definition < definitions.len()
                &&& definitions[symbol.definition as int].export.symbol() == Some(symbol.name)
                &&& (definitions[symbol.definition as int].export is Private) == symbol.private
                &&& symbol.module == module
            },
    decreases definitions.len(),
{
    if definitions.len() > 0 {
        let most = definitions.drop_last();
        lemma_symbols_of(most, module);
        let before = symbols_of(most, module);
        assert forall|i: int| 0 <= i < symbols_of(definitions, module).len() implies {
            let symbol = #[trigger] symbols_of(definitions, module)[i];
            &&& symbol.definition < definitions.len()
            &&& definitions[symbol.definition as int].export.symbol() == Some(symbol.name)
            &&& (definitions[symbol.definition as int].export is Private) == symbol.private
            &&& symbol.module == module
        } by {
            if i < before.len() {
                let symbol = before[i];
                assert(symbols_of(definitions, module)[i] == symbol);
                assert(most[symbol.definition as int] == definitions[symbol.definition as int]);
            }
        }
    }
}

/// The symbol of a definition that is not hidden is among the symbols of
/// the definitions.
pub proof fn lemma_symbol_of_definition(
    definitions: Seq<crate::binary::record::FunctionDefinitionView>,
    module: usize,
    index: int,
)
    requires
        0 <= index < definitions.len(),
        definitions[index].export.symbol().is_some(),
        definitions.len() <= usize::MAX,
    ensures
        symbols_of(definitions, module).contains(
            SymbolView {
                name: definitions[index].export.symbol().unwrap(),
                private: definitions[index].export is Private,
                definition: index as usize,
                module,
            },
        ),
    decreases definitions.len(),
{
    let most = definitions.drop_last();
    let before = symbols_of(most, module);
    let all = symbols_of(definitions, module);
    if index == definitions.len() - 1 {
        assert(all[all.len() - 1] == (SymbolView {
            name: definitions[index].export.symbol().unwrap(),
            private: definitions[index].export is Private,
            definition: index as usize,
            module,
        }));
    } else {
        assert(most[index] == definitions[index]);
        lemma_symbol_of_definition(most, module, index);
        let symbol = SymbolView {
            name: definitions[index].export.symbol().unwrap(),
            private: definitions[index].export is Private,
            definition: index as usize,
            module,
        };
        let at = choose|at: int| 0 <= at < before.len() && before[at] == symbol;
        assert(all[at] == symbol);
    }
}

} // verus!

verus! {

/// What is kept for the function of an instantiation among what was found:
/// what was found first.
spec fn kept_among(entries: Seq<TemplateEntry>, module: usize, instantiation: usize) -> Option<
    Result<Template, LoaderErrorView>,
>
    decreases entries.len(),
{
    if entries.len() == 0 {
        None
    } else {
        match kept_among(entries.drop_last(), module, instantiation) {
            Some(kept) => Some(kept),
            None => if entries.last().module == module && entries.last().instantiation
                == instantiation {
                Some(template_outcome(entries.last().result))
            } else {
                None
            },
        }
    }
}

/// What is kept among the first entries is what is kept among all.
proof fn lemma_kept_among(
    entries: Seq<TemplateEntry>,
    count: int,
    module: usize,
    instantiation: usize,
)
    requires
        0 <= count <= entries.len(),
        kept_among(entries.take(count), module, instantiation).is_some(),
    ensures
        kept_among(entries, module, instantiation) == kept_among(
            entries.take(count),
            module,
            instantiation,
        ),
    decreases entries.len() - count,
{
    if count < entries.len() {
        assert(entries.take(count + 1).drop_last() =~= entries.take(count));
        lemma_kept_among(entries, count + 1, module, instantiation);
    } else {
        assert(entries.take(count) =~= entries);
    }
}

/// What modules stand for.
pub open spec fn module_views(modules: Seq<Module>) -> Seq<Tables> {
    modules.map_values(|module: Module| module@)
}

/// The function of an instantiation stays its function when another module
/// is loaded.
pub proof fn lemma_template_stable(
    modules: Seq<Tables>,
    added: Tables,
    module: usize,
    instantiation: usize,
    template: Template,
)
    requires
        is_template(modules, module, instantiation, template),
    ensures
        is_template(modules.push(added), module, instantiation, template),
{
    let after = modules.push(added);
    assert(after[module as int] == modules[module as int]);
    assert(template.module < modules.len());
    assert(after[template.module as int] == modules[template.module as int]);
}

/// The modules that a loader has loaded, with what was found for the
/// functions of instantiations.
#[derive(Debug)]
pub struct State {
    modules: Vec<Module>,
    templates: Vec<TemplateEntry>,
}

impl View for State {
    type V = Seq<Tables>;

    closed spec fn view(&self) -> Seq<Tables> {
        module_views(self.modules@)
    }
}

impl State {
    #[verifier::type_invariant]
    spec fn well_formed(self) -> bool {
        &&& forall|i: int|
            0 <= i < self.modules@.len() ==> (#[trigger] self.modules@[i]).number() == i
                && self.modules@[i].prepared()
        &&& forall|i: int|
            0 <= i < self.templates@.len() ==> ((
            #[trigger] self.templates@[i]).result matches Ok(template) ==> is_template(
                module_views(self.modules@),
                self.templates@[i].module,
                self.templates@[i].instantiation,
                template,
            ))
    }

    /// What was kept for the function of an instantiation, if it was asked
    /// for before.
    pub closed spec fn template_kept(&self, module: usize, instantiation: usize) -> Option<
        Result<Template, LoaderErrorView>,
    > {
        kept_among(self.templates@, module, instantiation)
    }

    /// A state without modules.
    pub fn new() -> (state: State)
        ensures
            state@ == Seq::<Tables>::empty(),
            forall|module: usize, instantiation: usize|
                state.template_kept(module, instantiation).is_none(),
    {
        let state = State { modules: Vec::new(), templates: Vec::new() };
        proof {
            assert(state@ =~= Seq::<Tables>::empty());
        }
        state
    }

    /// The number of modules that are loaded.
    pub fn len(&self) -> (count: usize)
        ensures
            count == self@.len(),
    {
        self.modules.len()
    }

    /// The module of a number.
    pub fn module(&self, handle: usize) -> (module: Option<&Module>)
        ensures
            match module {
                Some(found) => handle < self@.len() && found@ == self@[handle as int]
                    && found.number() == handle && found.prepared(),
                None => handle >= self@.len(),
            },
    {
        proof {
            use_type_invariant(self);
        }
        if handle < self.modules.len() {
            Some(&self.modules[handle])
        } else {
            None
        }
    }

    /// Loads a module from its records. Its number is the number of
    /// modules that were loaded before it. Nothing is loaded where two
    /// definitions of the module have symbols of the same name.
    pub fn force_load(&mut self, records: Vec<Record>) -> (loaded: Result<
        usize,
        DuplicateSymbolError,
    >)
        ensures
            loaded.is_ok() == names_distinct(
                symbols_of(collected(records@).function_definitions, old(self)@.len() as usize),
            ),
            match loaded {
                Ok(handle) => handle == old(self)@.len() && final(self)@ == old(self)@.push(
                    collected(records@),
                ),
                Err(error) => final(self)@ == old(self)@ && repeats(
                    records@,
                    old(self)@.len() as usize,
                    error.first(),
                ),
            },
            forall|module: usize, instantiation: usize|
                final(self).template_kept(module, instantiation) == old(self).template_kept(
                    module,
                    instantiation,
                ),
    {
        proof {
            use_type_invariant(&*self);
        }
        let handle = self.modules.len();
        let module = Module::from_source(records, handle)?;
        let mut taken = State::new();
        std::mem::swap(self, &mut taken);
        let State { mut modules, templates } = taken;
        let ghost before = module_views(modules@);
        let ghost loaded = modules@;
        modules.push(module);
        proof {
            assert(module_views(modules@) =~= before.push(module@));
            assert forall|i: int| 0 <= i < modules@.len() implies (#[trigger] modules@[i]).number()
                == i && modules@[i].prepared() by {
                if i < loaded.len() {
                    assert(modules@[i] == loaded[i]);
                }
            }
            assert forall|i: int| 0 <= i < templates@.len() implies ((
            #[trigger] templates@[i]).result matches Ok(template) ==> is_template(
                module_views(modules@),
                templates@[i].module,
                templates@[i].instantiation,
                template,
            )) by {
                if let Ok(template) = templates@[i].result {
                    lemma_template_stable(
                        before,
                        module@,
                        templates@[i].module,
                        templates@[i].instantiation,
                        template,
                    );
                }
            }
        }
        *self = State { modules, templates };
        Ok(handle)
    }

    /// The number of the first module that was loaded with the given name
    /// and version.
    pub fn lookup_module(&self, identifier: &ModuleIdentifier) -> (found: Option<usize>)
        ensures
            found == first_named(self@, identifier@),
            found matches Some(handle) ==> handle < self@.len() && self@[handle as int].module_identifier
                == Some(identifier@),
    {
        let mut index: usize = 0;
        proof {
            assert(self@.take(0) =~= Seq::<Tables>::empty());
        }
        while index < self.modules.len()
            invariant
                index <= self.modules@.len(),
                first_named(self@.take(index as int), identifier@).is_none(),
            decreases self.modules@.len() - index,
        {
            let ghost next = self@.take(index + 1);
            proof {
                assert(next.drop_last() =~= self@.take(index as int));
                assert(next.last() == self.modules@[index as int]@);
            }
            let matches = match self.modules[index].module_identifier() {
                Some(other) => other.same(identifier),
                None => false,
            };
            if matches {
                proof {
                    lemma_first_named_among(self@, index + 1, identifier@);
                }
                return Some(index);
            }
            index += 1;
        }
        proof {
            assert(self@.take(index as int) =~= self@);
        }
        None
    }
}

} // verus!

verus! {

/// Takes a module out of a list, and leaves a module without records in
/// its place.
fn take_module(modules: &mut Vec<Module>, handle: usize) -> (module: Module)
    requires
        handle < old(modules)@.len(),
    ensures
        module == old(modules)@[handle as int],
        final(modules)@.len() == old(modules)@.len(),
        forall|i: int|
            0 <= i < old(modules)@.len() && i != handle ==> final(modules)@[i] == old(modules)@[i],
{
    modules.push(Module::empty(handle));
    modules.swap_remove(handle)
}

/// Puts a module into a place of a list.
fn put_module(modules: &mut Vec<Module>, handle: usize, module: Module)
    requires
        handle < old(modules)@.len(),
    ensures
        final(modules)@ == old(modules)@.update(handle as int, module),
{
    modules.push(module);
    let _ = modules.swap_remove(handle);
    proof {
        assert(modules@ =~= old(modules)@.update(handle as int, module));
    }
}

/// What asking a loader for something of the module of a number comes to:
/// what asking the module comes to, or the error that the loader has no
/// module of that number.
pub open spec fn of_module<T>(
    modules: Seq<Tables>,
    module: usize,
    asked: spec_fn(Tables) -> Result<T, LoaderErrorView>,
) -> Result<T, LoaderErrorView> {
    if module >= modules.len() {
        Err(LoaderErrorView::ModuleNotLoaded(module))
    } else {
        asked(modules[module as int])
    }
}

impl State {
    /// Puts back a module that stands for what the module in its place
    /// stood for.
    fn restore(&mut self, modules: Vec<Module>, templates: Vec<TemplateEntry>)
        requires
            forall|i: int|
                0 <= i < modules@.len() ==> (#[trigger] modules@[i]).number() == i
                    && modules@[i].prepared(),
            forall|i: int|
                0 <= i < templates@.len() ==> ((
                #[trigger] templates@[i]).result matches Ok(template) ==> is_template(
                    module_views(modules@),
                    templates@[i].module,
                    templates@[i].instantiation,
                    template,
                )),
        ensures
            final(self).modules == modules,
            final(self).templates == templates,
    {
        *self = State { modules, templates };
    }

    /// The function signature of an index of the module of a number. What
    /// asking comes to is kept with the module: asking again gives the same
    /// signature or the same error.
    pub fn function_signature(&mut self, module: usize, index: usize) -> (result: Result<
        Arc<Signature>,
        LoaderError,
    >)
        ensures
            final(self)@ == old(self)@,
            signature_outcome(result) == of_module(
                old(self)@,
                module,
                |tables: Tables| resolved_signature(tables, index),
            ),
            forall|m: usize, i: usize|
                final(self).template_kept(m, i) == old(self).template_kept(m, i),
    {
        proof {
            use_type_invariant(&*self);
        }
        if module >= self.modules.len() {
            return Err(LoaderError::ModuleNotLoaded(module));
        }
        let mut taken = State::new();
        std::mem::swap(self, &mut taken);
        let State { mut modules, templates } = taken;
        let ghost before = modules@;
        let mut asked = take_module(&mut modules, module);
        let result = asked.get_function_signature(index);
        put_module(&mut modules, module, asked);
        proof {
            assert(module_views(modules@) =~= module_views(before));
        }
        self.restore(modules, templates);
        result
    }

    /// The code block of an index of the module of a number. What asking
    /// comes to is kept with the module: asking again gives the same block
    /// or the same error.
    pub fn code_block(&mut self, module: usize, index: usize) -> (result: Result<
        Arc<Block>,
        LoaderError,
    >)
        ensures
            final(self)@ == old(self)@,
            block_outcome(result) == of_module(
                old(self)@,
                module,
                |tables: Tables| resolved_block(tables, index),
            ),
            forall|m: usize, i: usize|
                final(self).template_kept(m, i) == old(self).template_kept(m, i),
    {
        proof {
            use_type_invariant(&*self);
        }
        if module >= self.modules.len() {
            return Err(LoaderError::ModuleNotLoaded(module));
        }
        let mut taken = State::new();
        std::mem::swap(self, &mut taken);
        let State { mut modules, templates } = taken;
        let ghost before = modules@;
        let mut asked = take_module(&mut modules, module);
        let result = asked.get_code_block(index);
        put_module(&mut modules, module, asked);
        proof {
            assert(module_views(modules@) =~= module_views(before));
        }
        self.restore(modules, templates);
        result
    }

    /// The signature of the definition of a position of the module of a
    /// number.
    pub fn definition_signature(&mut self, module: usize, definition: usize) -> (result: Result<
        Arc<Signature>,
        LoaderError,
    >)
        ensures
            final(self)@ == old(self)@,
            signature_outcome(result) == of_module(
                old(self)@,
                module,
                |tables: Tables| resolved_definition_signature(tables, definition),
            ),
            forall|m: usize, i: usize|
                final(self).template_kept(m, i) == old(self).template_kept(m, i),
    {
        proof {
            use_type_invariant(&*self);
        }
        if module >= self.modules.len() {
            return Err(LoaderError::ModuleNotLoaded(module));
        }
        let mut taken = State::new();
        std::mem::swap(self, &mut taken);
        let State { mut modules, templates } = taken;
        let ghost before = modules@;
        let mut asked = take_module(&mut modules, module);
        let result = asked.definition_signature(definition);
        put_module(&mut modules, module, asked);
        proof {
            assert(module_views(modules@) =~= module_views(before));
        }
        self.restore(modules, templates);
        result
    }

    /// The body of the definition of a position of the module of a number.
    pub fn definition_body(&mut self, module: usize, definition: usize) -> (result: Result<
        Body,
        LoaderError,
    >)
        ensures
            final(self)@ == old(self)@,
            body_outcome(result) == of_module(
                old(self)@,
                module,
                |tables: Tables| resolved_body(tables, definition),
            ),
            forall|m: usize, i: usize|
                final(self).template_kept(m, i) == old(self).template_kept(m, i),
    {
        proof {
            use_type_invariant(&*self);
        }
        if module >= self.modules.len() {
            return Err(LoaderError::ModuleNotLoaded(module));
        }
        let mut taken = State::new();
        std::mem::swap(self, &mut taken);
        let State { mut modules, templates } = taken;
        let ghost before = modules@;
        let mut asked = take_module(&mut modules, module);
        let result = asked.definition_body(definition);
        put_module(&mut modules, module, asked);
        proof {
            assert(module_views(modules@) =~= module_views(before));
        }
        self.restore(modules, templates);
        result
    }
}

} // verus!

verus! {

/// What loading the module of a name and version from what a resolver
/// found comes to, for a loader with `count` modules: the records stand for
/// a module of that name and version, which becomes the module of the
/// number `count`; or nothing was found, or what was found is another
/// module.
pub open spec fn resolved_module(
    identifier: ModuleIdentifierView,
    resolved: Option<Vec<Record>>,
) -> Option<Tables> {
    match resolved {
        Some(records) => if collected(records@).module_identifier == Some(identifier) {
            Some(collected(records@))
        } else {
            None
        },
        None => None,
    }
}

/// Whether what a resolver found can be loaded as the module of the given
/// number: nothing was found, or no two definitions of what was found have
/// symbols of the same name.
pub open spec fn loadable(resolved: Option<Vec<Record>>, number: usize) -> bool {
    match resolved {
        Some(records) => names_distinct(
            symbols_of(collected(records@).function_definitions, number),
        ),
        None => true,
    }
}

/// What importing a symbol from the module of a number comes to: the
/// definition that the module exports under the symbol, or the error that
/// the module of the given name does not export the symbol.
pub open spec fn imported(
    modules: Seq<Tables>,
    target: usize,
    exporter: ModuleIdentifierView,
    symbol: Seq<u8>,
) -> Result<Template, LoaderErrorView> {
    match (if target < modules.len() {
        exported_by(modules[target as int], symbol)
    } else {
        None
    }) {
        Some(definition) => Ok(Template { module: target, definition }),
        None => Err(LoaderErrorView::SymbolNotFound { module: exporter, symbol }),
    }
}

impl State {
    /// The function that is imported under a symbol from the module of the
    /// number `target`, which is the module of the name `exporter`: the
    /// definition that the module exports under the symbol. Where it
    /// exports none, the error names the module and the symbol.
    pub fn import_template(&self, target: usize, exporter: &ModuleIdentifier, symbol: &Id) -> (result:
        Result<Template, LoaderError>)
        ensures
            template_outcome(result) == imported(self@, target, exporter@, symbol@),
            result matches Ok(template) ==> {
                &&& template.module == target
                &&& target < self@.len()
                &&& template.definition < self@[target as int].function_definitions.len()
                &&& self@[target as int].function_definitions[template.definition as int].export
                    == ExportView::Export(symbol@)
            },
    {
        let found = match self.module(target) {
            Some(loaded) => exported_definition(loaded, symbol),
            None => None,
        };
        match found {
            Some(definition) => Ok(Template { module: target, definition }),
            None => Err(
                LoaderError::SymbolNotFound { module: exporter.duplicate(), symbol: symbol.clone() },
            ),
        }
    }

    /// What was kept for the function of an instantiation, if it was asked
    /// for before.
    pub fn find_template(&self, module: usize, instantiation: usize) -> (kept: Option<
        Result<Template, LoaderError>,
    >)
        ensures
            match kept {
                Some(result) => self.template_kept(module, instantiation) == Some(
                    template_outcome(result),
                ),
                None => self.template_kept(module, instantiation).is_none(),
            },
            kept matches Some(Ok(template)) ==> is_template(
                self@,
                module,
                instantiation,
                template,
            ),
    {
        proof {
            use_type_invariant(self);
        }
        let mut index: usize = 0;
        proof {
            assert(self.templates@.take(0) =~= Seq::<TemplateEntry>::empty());
        }
        while index < self.templates.len()
            invariant
                index <= self.templates@.len(),
                kept_among(self.templates@.take(index as int), module, instantiation).is_none(),
            decreases self.templates@.len() - index,
        {
            let entry = &self.templates[index];
            proof {
                assert(self.templates@.take(index + 1).drop_last() =~= self.templates@.take(
                    index as int,
                ));
                assert(self.templates@.take(index + 1).last() == self.templates@[index as int]);
            }
            if entry.module == module && entry.instantiation == instantiation {
                let result = match &entry.result {
                    Ok(template) => Ok(*template),
                    Err(error) => Err(error.duplicate()),
                };
                proof {
                    use_type_invariant(self);
                    lemma_kept_among(self.templates@, index + 1, module, instantiation);
                    assert(self.templates@[index as int].module == module);
                }
                return Some(result);
            }
            index += 1;
        }
        proof {
            assert(self.templates@.take(index as int) =~= self.templates@);
        }
        None
    }

    /// Keeps what was found for the function of an instantiation that was
    /// not asked for before.
    pub(crate) fn keep_template(
        &mut self,
        module: usize,
        instantiation: usize,
        result: Result<Template, LoaderError>,
    )
        requires
            old(self).template_kept(module, instantiation).is_none(),
            result matches Ok(template) ==> is_template(
                old(self)@,
                module,
                instantiation,
                template,
            ),
        ensures
            final(self)@ == old(self)@,
            final(self).template_kept(module, instantiation) == Some(template_outcome(result)),
            forall|m: usize, i: usize|
                (m != module || i != instantiation) ==> final(self).template_kept(m, i) == old(
                    self,
                ).template_kept(m, i),
    {
        proof {
            use_type_invariant(&*self);
        }
        let mut taken = State::new();
        std::mem::swap(self, &mut taken);
        let State { modules, mut templates } = taken;
        let ghost before = templates@;
        templates.push(TemplateEntry { module, instantiation, result });
        self.restore(modules, templates);
        proof {
            assert(self.templates@.drop_last() =~= before);
        }
    }

    /// Loads the module of a name and version from what a resolver found
    /// for it. Where two definitions of what was found have symbols of the
    /// same name, the error names the first symbol that is defined again,
    /// whatever module was found. Or else, where nothing was found, or what
    /// was found is not the module of that name and version, the module is
    /// not found. Else the module is loaded.
    pub fn load_resolved(
        &mut self,
        identifier: &ModuleIdentifier,
        resolved: Option<Vec<Record>>,
    ) -> (loaded: Result<usize, LoaderError>)
        ensures
            forall|m: usize, i: usize|
                final(self).template_kept(m, i) == old(self).template_kept(m, i),
            match loaded {
                Ok(handle) => {
                    &&& resolved_module(identifier@, resolved) matches Some(tables)
                    &&& loadable(resolved, old(self)@.len() as usize)
                    &&& handle == old(self)@.len()
                    &&& final(self)@ == old(self)@.push(tables)
                },
                Err(error) => {
                    &&& final(self)@ == old(self)@
                    &&& match error@ {
                        LoaderErrorView::ModuleNotFound(missing) => missing == identifier@
                            && loadable(resolved, old(self)@.len() as usize) && resolved_module(
                            identifier@,
                            resolved,
                        ).is_none(),
                        LoaderErrorView::DuplicateSymbol(name) => resolved matches Some(records)
                            && !loadable(resolved, old(self)@.len() as usize)
                            && exists|first: SymbolView| #[trigger]
                                repeats(records@, old(self)@.len() as usize, first) && first.name
                                    == name,
                        _ => false,
                    }
                },
            },
    {
        proof {
            use_type_invariant(&*self);
        }
        let records = match resolved {
            Some(records) => records,
            None => {
                return Err(LoaderError::ModuleNotFound(identifier.duplicate()));
            },
        };
        let handle = self.modules.len();
        let module = match Module::from_source(records, handle) {
            Ok(module) => module,
            Err(error) => {
                let name = error.symbol().name().clone();
                proof {
                    assert(handle == old(self)@.len());
                    assert(repeats(records@, old(self)@.len() as usize, error.first()));
                    assert(name@ == error.first().name);
                }
                return Err(LoaderError::DuplicateSymbol(name));
            },
        };
        let named = match module.module_identifier() {
            Some(found) => found.same(identifier),
            None => false,
        };
        if !named {
            return Err(LoaderError::ModuleNotFound(identifier.duplicate()));
        }
        let mut taken = State::new();
        std::mem::swap(self, &mut taken);
        let State { mut modules, templates } = taken;
        let ghost before = module_views(modules@);
        let ghost loaded = modules@;
        modules.push(module);
        proof {
            assert(module_views(modules@) =~= before.push(module@));
            assert forall|i: int| 0 <= i < modules@.len() implies (#[trigger] modules@[i]).number()
                == i && modules@[i].prepared() by {
                if i < loaded.len() {
                    assert(modules@[i] == loaded[i]);
                }
            }
            assert forall|i: int| 0 <= i < templates@.len() implies ((
            #[trigger] templates@[i]).result matches Ok(template) ==> is_template(
                module_views(modules@),
                templates@[i].module,
                templates@[i].instantiation,
                template,
            )) by {
                if let Ok(template) = templates@[i].result {
                    lemma_template_stable(
                        before,
                        module@,
                        templates@[i].module,
                        templates@[i].instantiation,
                        template,
                    );
                }
            }
        }
        self.restore(modules, templates);
        Ok(handle)
    }

    /// The definitions of all loaded modules that have a symbol of the
    /// given name, in the order of the modules. Each module has at most one.
    pub fn lookup_function(&self, symbol: &Id) -> (found: Vec<Template>)
        ensures
            forall|i: int|
                0 <= i < found@.len() ==> {
                    let template = #[trigger] found@[i];
                    &&& template.module < self@.len()
                    &&& template.definition < self@[template.module as int].function_definitions.len()
                    &&& self@[template.module as int].function_definitions[template.definition as int].export.symbol()
                        == Some(symbol@)
                },
            forall|i: int, j: int|
                0 <= i < j < found@.len() ==> (#[trigger] found@[i]).module < (
                #[trigger] found@[j]).module,
            forall|module: int|
                0 <= module < self@.len() && has_name(
                    symbols_of(
                        (#[trigger] self@[module]).function_definitions,
                        module as usize,
                    ),
                    symbol@,
                ) ==> exists|i: int| 0 <= i < found@.len() && (#[trigger] found@[i]).module == module,
    {
        proof {
            use_type_invariant(self);
        }
        let mut found: Vec<Template> = Vec::new();
        let mut index: usize = 0;
        while index < self.modules.len()
            invariant
                index <= self.modules@.len(),
                forall|i: int|
                    0 <= i < self.modules@.len() ==> (#[trigger] self.modules@[i]).number() == i,
                forall|i: int|
                    0 <= i < found@.len() ==> {
                        let template = #[trigger] found@[i];
                        &&& template.module < index
                        &&& template.definition < self@[template.module as int].function_definitions.len()
                        &&& self@[template.module as int].function_definitions[template.definition as int].export.symbol()
                            == Some(symbol@)
                    },
                forall|i: int, j: int|
                    0 <= i < j < found@.len() ==> (#[trigger] found@[i]).module < (
                    #[trigger] found@[j]).module,
                forall|module: int|
                    0 <= module < index && has_name(
                        symbols_of(
                            (#[trigger] self@[module]).function_definitions,
                            module as usize,
                        ),
                        symbol@,
                    ) ==> exists|i: int|
                        0 <= i < found@.len() && (#[trigger] found@[i]).module == module,
            decreases self.modules@.len() - index,
        {
            let module = &self.modules[index];
            let _ = module.function_definitions().len();
            proof {
                assert(self@[index as int] == module@);
                lemma_symbols_of(module@.function_definitions, module.number());
            }
            let ghost before = found@;
            match module.symbols().get(symbol) {
                Some(named) => {
                    let definition = match named {
                        Symbol::Function(function) => function.definition(),
                    };
                    proof {
                        let symbols = symbols_of(module@.function_definitions, module.number());
                        let at = choose|at: int| 0 <= at < symbols.len() && symbols[at] == named@;
                        assert(symbols[at].definition == definition);
                    }
                    found.push(Template { module: index, definition });
                    proof {
                        assert forall|m: int|
                            0 <= m < index + 1 && has_name(
                                symbols_of(
                                    (#[trigger] self@[m]).function_definitions,
                                    m as usize,
                                ),
                                symbol@,
                            ) implies exists|i: int|
                            0 <= i < found@.len() && (#[trigger] found@[i]).module == m by {
                            if m < index {
                                let i = choose|i: int|
                                    0 <= i < before.len() && (#[trigger] before[i]).module == m;
                                assert(found@[i] == before[i]);
                            } else {
                                assert(found@[before.len() as int].module == m);
                            }
                        }
                    }
                },
                None => {},
            }
            index += 1;
        }
        found
    }
}

} // verus!

verus! {

/// The import that the instantiation of a position of the module of a
/// number refers to, where it refers to one: the module is loaded, it has
/// the instantiation, and the instantiation refers to no definition of the
/// module but to one of its imports.
pub open spec fn import_of(modules: Seq<Tables>, module: usize, instantiation: usize) -> Option<
    FunctionImportView,
> {
    if module < modules.len() && instantiation < modules[module as int].function_instantiations.len() {
        let tables = modules[module as int];
        let index = tables.function_instantiations[instantiation as int];
        let position = index - tables.function_definitions.len();
        if 0 <= position < tables.function_imports.len() {
            Some(tables.function_imports[position])
        } else {
            None
        }
    } else {
        None
    }
}

/// Whether the resolver is asked when the function of an instantiation is
/// looked for: the instantiation refers to an import from a module that is
/// not loaded.
pub open spec fn asks_resolver(modules: Seq<Tables>, module: usize, instantiation: usize) -> bool {
    import_of(modules, module, instantiation) matches Some(import) && first_named(
        modules,
        import.module,
    ).is_none()
}

/// Whether `outcome` is what looking for the function of an instantiation
/// comes to, where `before` are the modules that are loaded before and
/// `after` those that are loaded after.
///
/// Without the loader having the module or the module the instantiation,
/// it is the error that says so. An instantiation that refers to a
/// definition of its own module gives that definition. One that refers to
/// neither a definition nor an import gives the error that says so. In all
/// these cases no module is loaded.
///
/// For an import, the module of the import is the first loaded module of
/// its name. Where one is loaded before, no module is loaded; else the
/// resolver is asked, and where the module cannot be loaded from what it
/// found, the error says that the module is not found or names a symbol
/// that is defined twice, and no module is loaded. Where the module is
/// loaded, the outcome is the definition that it exports under the symbol
/// of the import, or the error that it exports none.
pub open spec fn template_answer(
    before: Seq<Tables>,
    after: Seq<Tables>,
    module: usize,
    instantiation: usize,
    outcome: Result<Template, LoaderErrorView>,
) -> bool {
    if module >= before.len() {
        after == before && outcome == Err::<Template, LoaderErrorView>(
            LoaderErrorView::ModuleNotLoaded(module),
        )
    } else {
        let tables = before[module as int];
        if instantiation >= tables.function_instantiations.len() {
            after == before && outcome == Err::<Template, LoaderErrorView>(
                LoaderErrorView::IndexOutOfBounds {
                    section: Section::FunctionInstantiations,
                    index: instantiation,
                },
            )
        } else {
            let index = tables.function_instantiations[instantiation as int];
            let position = index - tables.function_definitions.len();
            if index < tables.function_definitions.len() {
                after == before && outcome == Ok::<Template, LoaderErrorView>(
                    Template { module, definition: index },
                )
            } else if position >= tables.function_imports.len() {
                after == before && outcome == Err::<Template, LoaderErrorView>(
                    LoaderErrorView::IndexOutOfBounds {
                        section: Section::Imports,
                        index: position as usize,
                    },
                )
            } else {
                let import = tables.function_imports[position];
                &&& first_named(before, import.module).is_some() ==> after == before
                &&& match first_named(after, import.module) {
                    Some(target) => outcome == imported(
                        after,
                        target,
                        import.module,
                        import.symbol,
                    ),
                    None => after == before && (outcome == Err::<Template, LoaderErrorView>(
                        LoaderErrorView::ModuleNotFound(import.module),
                    ) || outcome matches Err(LoaderErrorView::DuplicateSymbol(_))),
                }
            }
        }
    }
}

/// The number of times that the resolver was asked after the function of
/// an instantiation was looked for: one more than before where the
/// resolver is asked, as long as there is a greater number.
pub open spec fn asked_after(
    modules: Seq<Tables>,
    module: usize,
    instantiation: usize,
    asked: usize,
) -> usize {
    if asks_resolver(modules, module, instantiation) && asked < usize::MAX {
        (asked + 1) as usize
    } else {
        asked
    }
}

/// A loader: the modules that are loaded, and the resolver that finds the
/// modules that are asked for by name.
#[derive(Debug)]
pub struct Loader<R: Resolver> {
    resolver: R,
    pointer_size: u8,
    invocations: usize,
    state: State,
}

impl<R: Resolver> View for Loader<R> {
    type V = Seq<Tables>;

    closed spec fn view(&self) -> Seq<Tables> {
        self.state@
    }
}

impl<R: Resolver> Loader<R> {
    /// The number of times that the resolver was asked for a module.
    pub closed spec fn asked(&self) -> usize {
        self.invocations
    }

    /// The number of bytes of a pointer.
    pub closed spec fn pointers(&self) -> u8 {
        self.pointer_size
    }

    /// What was kept for the function of an instantiation, if it was asked
    /// for before.
    pub closed spec fn template_kept(&self, module: usize, instantiation: usize) -> Option<
        Result<Template, LoaderErrorView>,
    > {
        self.state.template_kept(module, instantiation)
    }

    /// A loader without modules.
    pub fn new(resolver: R, pointer_size: u8) -> (loader: Self)
        ensures
            loader@ == Seq::<Tables>::empty(),
            loader.asked() == 0,
            loader.pointers() == pointer_size,
            forall|module: usize, instantiation: usize|
                loader.template_kept(module, instantiation).is_none(),
    {
        Loader { resolver, pointer_size, invocations: 0, state: State::new() }
    }

    /// A loader with the module of an application, which is loaded from
    /// its records and has the number zero.
    pub fn initialize(resolver: R, pointer_size: u8, application: Vec<Record>) -> (loaded: Result<
        Self,
        DuplicateSymbolError,
    >)
        ensures
            loaded.is_ok() == names_distinct(
                symbols_of(collected(application@).function_definitions, 0),
            ),
            match loaded {
                Ok(loader) => loader@ == seq![collected(application@)] && loader.asked() == 0
                    && loader.pointers() == pointer_size,
                Err(error) => repeats(application@, 0, error.first()),
            },
    {
        let mut loader = Loader::new(resolver, pointer_size);
        loader.force_load(application)?;
        proof {
            assert(loader@ =~= seq![collected(application@)]);
        }
        Ok(loader)
    }

    /// The number of bytes of a pointer of the machine that the modules
    /// are loaded for.
    pub fn pointer_size(&self) -> (size: u8)
        ensures
            size == self.pointers(),
    {
        self.pointer_size
    }

    /// The integer types of the width of an address.
    pub fn native_integer_type(&self) -> (native: Result<NativeIntegerType, LoaderError>)
        ensures
            match native {
                Ok(found) => native_types(self.pointers()) == Some(found.types()),
                Err(error) => native_types(self.pointers()).is_none() && error@
                    == LoaderErrorView::InvalidPointerSize(self.pointers()),
            },
    {
        NativeIntegerType::for_pointer_size(self.pointer_size)
    }

    /// The number of times that the resolver was asked for a module.
    pub fn resolver_invocations(&self) -> (count: usize)
        ensures
            count == self.asked(),
    {
        self.invocations
    }

    /// The modules that are loaded.
    pub fn state(&self) -> (state: &State)
        ensures
            state@ == self@,
    {
        &self.state
    }

    /// The module of a number.
    pub fn module(&self, handle: usize) -> (module: Option<&Module>)
        ensures
            match module {
                Some(found) => handle < self@.len() && found@ == self@[handle as int]
                    && found.number() == handle,
                None => handle >= self@.len(),
            },
    {
        self.state.module(handle)
    }

    /// Loads a module from its records, whether or not a module of its
    /// name is loaded already.
    pub fn force_load(&mut self, records: Vec<Record>) -> (loaded: Result<
        usize,
        DuplicateSymbolError,
    >)
        ensures
            final(self).asked() == old(self).asked(),
            final(self).pointers() == old(self).pointers(),
            loaded.is_ok() == names_distinct(
                symbols_of(collected(records@).function_definitions, old(self)@.len() as usize),
            ),
            match loaded {
                Ok(handle) => handle == old(self)@.len() && final(self)@ == old(self)@.push(
                    collected(records@),
                ),
                Err(error) => final(self)@ == old(self)@ && repeats(
                    records@,
                    old(self)@.len() as usize,
                    error.first(),
                ),
            },
            forall|module: usize, instantiation: usize|
                final(self).template_kept(module, instantiation) == old(self).template_kept(
                    module,
                    instantiation,
                ),
    {
        self.state.force_load(records)
    }

    /// The number of the first module that was loaded with the given name
    /// and version.
    pub fn lookup_module(&self, identifier: &ModuleIdentifier) -> (found: Option<usize>)
        ensures
            found == first_named(self@, identifier@),
            found matches Some(handle) ==> handle < self@.len() && self@[handle as int].module_identifier
                == Some(identifier@),
    {
        self.state.lookup_module(identifier)
    }

    /// The module of the given name and version: the one that is loaded
    /// already, for which the resolver is not asked; or else the one that
    /// the resolver finds, which is then loaded.
    pub fn load(&mut self, identifier: &ModuleIdentifier) -> (loaded: Result<usize, LoaderError>)
        ensures
            final(self).pointers() == old(self).pointers(),
            forall|m: usize, i: usize|
                final(self).template_kept(m, i) == old(self).template_kept(m, i),
            old(self)@.is_prefix_of(final(self)@),
            loaded matches Ok(handle) ==> handle < final(self)@.len() && final(
                self
            )@[handle as int].module_identifier == Some(identifier@),
            match first_named(old(self)@, identifier@) {
                Some(handle) => {
                    &&& loaded matches Ok(found)
                    &&& found == handle
                    &&& final(self)@ == old(self)@
                    &&& final(self).asked() == old(self).asked()
                },
                None => {
                    &&& final(self).asked() == (if old(self).asked() < usize::MAX {
                        (old(self).asked() + 1) as usize
                    } else {
                        old(self).asked()
                    })
                    &&& match loaded {
                        Ok(handle) => {
                            &&& handle == old(self)@.len()
                            &&& final(self)@.len() == old(self)@.len() + 1
                            &&& final(self)@.drop_last() == old(self)@
                            &&& final(self)@[handle as int].module_identifier == Some(identifier@)
                        },
                        Err(error) => {
                            &&& final(self)@ == old(self)@
                            &&& match error@ {
                                LoaderErrorView::ModuleNotFound(missing) => missing
                                    == identifier@,
                                LoaderErrorView::DuplicateSymbol(_) => true,
                                _ => false,
                            }
                        },
                    }
                },
            },
    {
        match self.state.lookup_module(identifier) {
            Some(handle) => {
                return Ok(handle);
            },
            None => {},
        }
        if self.invocations < usize::MAX {
            self.invocations += 1;
        }
        let resolved = self.resolver.resolve(identifier);
        let ghost before = self@;
        let loaded = self.state.load_resolved(identifier, resolved);
        proof {
            if let Some(tables) = resolved_module(identifier@, resolved) {
                assert(before.push(tables).drop_last() =~= before);
            }
        }
        loaded
    }

    /// The definitions of all loaded modules that have a symbol of the
    /// given name, in the order of the modules.
    pub fn lookup_function(&self, symbol: &Id) -> (found: Vec<Template>)
        ensures
            forall|i: int|
                0 <= i < found@.len() ==> {
                    let template = #[trigger] found@[i];
                    &&& template.module < self@.len()
                    &&& template.definition < self@[template.module as int].function_definitions.len()
                    &&& self@[template.module as int].function_definitions[template.definition as int].export.symbol()
                        == Some(symbol@)
                },
            forall|i: int, j: int|
                0 <= i < j < found@.len() ==> (#[trigger] found@[i]).module < (
                #[trigger] found@[j]).module,
            forall|module: int|
                0 <= module < self@.len() && has_name(
                    symbols_of(
                        (#[trigger] self@[module]).function_definitions,
                        module as usize,
                    ),
                    symbol@,
                ) ==> exists|i: int| 0 <= i < found@.len() && (#[trigger] found@[i]).module == module,
    {
        self.state.lookup_function(symbol)
    }

    /// The function signature of an index of the module of a number.
    /// Asking again gives the same signature or the same error.
    pub fn function_signature(&mut self, module: usize, index: usize) -> (result: Result<
        Arc<Signature>,
        LoaderError,
    >)
        ensures
            final(self)@ == old(self)@,
            final(self).asked() == old(self).asked(),
            signature_outcome(result) == of_module(
                old(self)@,
                module,
                |tables: Tables| resolved_signature(tables, index),
            ),
            forall|m: usize, i: usize|
                final(self).template_kept(m, i) == old(self).template_kept(m, i),
    {
        self.state.function_signature(module, index)
    }

    /// The code block of an index of the module of a number. Asking again
    /// gives the same block or the same error.
    pub fn code_block(&mut self, module: usize, index: usize) -> (result: Result<
        Arc<Block>,
        LoaderError,
    >)
        ensures
            final(self)@ == old(self)@,
            final(self).asked() == old(self).asked(),
            block_outcome(result) == of_module(
                old(self)@,
                module,
                |tables: Tables| resolved_block(tables, index),
            ),
            forall|m: usize, i: usize|
                final(self).template_kept(m, i) == old(self).template_kept(m, i),
    {
        self.state.code_block(module, index)
    }

    /// The signature of the definition of a position of the module of a
    /// number.
    pub fn definition_signature(&mut self, module: usize, definition: usize) -> (result: Result<
        Arc<Signature>,
        LoaderError,
    >)
        ensures
            final(self)@ == old(self)@,
            final(self).asked() == old(self).asked(),
            signature_outcome(result) == of_module(
                old(self)@,
                module,
                |tables: Tables| resolved_definition_signature(tables, definition),
            ),
            forall|m: usize, i: usize|
                final(self).template_kept(m, i) == old(self).template_kept(m, i),
    {
        self.state.definition_signature(module, definition)
    }

    /// The body of the definition of a position of the module of a number.
    pub fn definition_body(&mut self, module: usize, definition: usize) -> (result: Result<
        Body,
        LoaderError,
    >)
        ensures
            final(self)@ == old(self)@,
            final(self).asked() == old(self).asked(),
            body_outcome(result) == of_module(
                old(self)@,
                module,
                |tables: Tables| resolved_body(tables, definition),
            ),
            forall|m: usize, i: usize|
                final(self).template_kept(m, i) == old(self).template_kept(m, i),
    {
        self.state.definition_body(module, definition)
    }

    /// Finds the function of an instantiation that was not asked for
    /// before. For an import the module of the import is loaded where it
    /// is not loaded yet.
    fn resolve_template(&mut self, module: usize, instantiation: usize) -> (result: Result<
        Template,
        LoaderError,
    >)
        ensures
            final(self).pointers() == old(self).pointers(),
            old(self)@.is_prefix_of(final(self)@),
            final(self).asked() == asked_after(
                old(self)@,
                module,
                instantiation,
                old(self).asked(),
            ),
            forall|m: usize, i: usize|
                final(self).template_kept(m, i) == old(self).template_kept(m, i),
            template_answer(
                old(self)@,
                final(self)@,
                module,
                instantiation,
                template_outcome(result),
            ),
            result matches Ok(template) ==> is_template(
                final(self)@,
                module,
                instantiation,
                template,
            ),
    {
        let ghost before = self@;
        let asked = match self.state.module(module) {
            Some(asked) => asked,
            None => {
                return Err(LoaderError::ModuleNotLoaded(module));
            },
        };
        let instantiations = asked.function_instantiations();
        if instantiation >= instantiations.len() {
            return Err(
                LoaderError::IndexOutOfBounds {
                    section: Section::FunctionInstantiations,
                    index: instantiation,
                },
            );
        }
        let index = instantiations[instantiation].template();
        proof {
            assert(asked@.function_instantiations[instantiation as int]
                == instantiations@[instantiation as int].template);
        }
        let definitions = asked.function_definitions().len();
        if index < definitions {
            return Ok(Template { module, definition: index });
        }
        let imports = asked.function_imports();
        let position = index - definitions;
        if position >= imports.len() {
            return Err(
                LoaderError::IndexOutOfBounds { section: Section::Imports, index: position },
            );
        }
        proof {
            assert(asked@.function_imports[position as int] == imports@[position as int]@);
        }
        let exporter = imports[position].module.duplicate();
        let symbol = imports[position].symbol.clone();
        let target = self.load(&exporter)?;
        proof {
            assert(self@[module as int] == before[module as int]);
            // the module that was loaded is the first of its name
            if first_named(before, exporter@).is_none() {
                assert(first_named(self@.drop_last(), exporter@).is_none());
            }
            assert(first_named(self@, exporter@) == Some(target));
        }
        self.state.import_template(target, &exporter, &symbol)
    }

    /// The function of the instantiation of a position of the module of a
    /// number: the definition that the instantiation refers to in its own
    /// module, or for an import the definition that the module of the
    /// import exports under the symbol of the import. What is found is
    /// kept: asking again gives the same function or the same error, and
    /// neither loads a module nor asks the resolver.
    pub fn get_function_template(&mut self, module: usize, instantiation: usize) -> (result:
        Result<Template, LoaderError>)
        ensures
            final(self).pointers() == old(self).pointers(),
            old(self)@.is_prefix_of(final(self)@),
            match old(self).template_kept(module, instantiation) {
                Some(kept) => {
                    &&& template_outcome(result) == kept
                    &&& final(self)@ == old(self)@
                    &&& final(self).asked() == old(self).asked()
                },
                None => {
                    &&& final(self).asked() == asked_after(
                        old(self)@,
                        module,
                        instantiation,
                        old(self).asked(),
                    )
                    &&& template_answer(
                        old(self)@,
                        final(self)@,
                        module,
                        instantiation,
                        template_outcome(result),
                    )
                },
            },
            final(self).template_kept(module, instantiation) == Some(template_outcome(result)),
            forall|m: usize, i: usize|
                (m != module || i != instantiation) ==> final(self).template_kept(m, i) == old(
                    self,
                ).template_kept(m, i),
            result matches Ok(template) ==> is_template(
                final(self)@,
                module,
                instantiation,
                template,
            ),
    {
        match self.state.find_template(module, instantiation) {
            Some(kept) => {
                return kept;
            },
            None => {},
        }
        let result = self.resolve_template(module, instantiation);
        let kept = match &result {
            Ok(template) => Ok(*template),
            Err(error) => Err(error.duplicate()),
        };
        self.state.keep_template(module, instantiation, kept);
        result
    }
}

} // verus!
