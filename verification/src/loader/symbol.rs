//! The symbols of loaded modules.

use crate::binary::record::Export;
use crate::identifier::{valid_identifier, Id};
use crate::module::symbols::{symbol_entries, table_get, table_insert, table_new};
use rustc_hash::FxHashMap;
use vstd::prelude::*;
use vstd::string::StringExecFns;

verus! {

/// Whether an export has a symbol that only its own module sees.
pub fn is_export_private(export: &Export) -> (private: bool)
    requires
        !(export@ is Hidden),
    ensures
        private == (export@ is Private),
{
    match export {
        Export::Private(_) => true,
        _ => false,
    }
}

/// The symbol of a function: the export of its definition, the position
/// of the definition in its module, and the module.
#[derive(Debug)]
pub struct FunctionSymbol {
    export: Export,
    definition: usize,
    module: usize,
}

/// A symbol of a loaded module.
#[derive(Debug)]
pub enum Symbol {
    Function(FunctionSymbol),
}

/// What a symbol stands for.
pub struct SymbolView {
    pub name: Seq<u8>,
    pub private: bool,
    pub definition: usize,
    pub module: usize,
}

impl View for FunctionSymbol {
    type V = SymbolView;

    closed spec fn view(&self) -> SymbolView {
        SymbolView {
            name: match self.export@.symbol() {
                Some(name) => name,
                None => Seq::empty(),
            },
            private: self.export@ is Private,
            definition: self.definition,
            module: self.module,
        }
    }
}

impl View for Symbol {
    type V = SymbolView;

    open spec fn view(&self) -> SymbolView {
        match self {
            Symbol::Function(function) => function@,
        }
    }
}

impl FunctionSymbol {
    #[verifier::type_invariant]
    spec fn well_formed(self) -> bool {
        !(self.export@ is Hidden)
    }

    /// The symbol of the definition of the given position of the given
    /// module, where its export has a symbol.
    pub fn new(export: Export, definition: usize, module: usize) -> (symbol: Option<Self>)
        ensures
            match symbol {
                Some(made) => export@.symbol() == Some(made@.name) && made@.private == (export@
                    is Private) && made@.definition == definition && made@.module == module,
                None => export@ is Hidden,
            },
    {
        match export {
            Export::Hidden => None,
            _ => Some(FunctionSymbol { export, definition, module }),
        }
    }

    pub fn export(&self) -> (export: &Export)
        ensures
            export@.symbol() == Some(self@.name),
            (export@ is Private) == self@.private,
    {
        proof {
            use_type_invariant(self);
        }
        &self.export
    }

    pub fn is_private(&self) -> (private: bool)
        ensures
            private == self@.private,
    {
        proof {
            use_type_invariant(self);
        }
        is_export_private(&self.export)
    }

    /// The position of the definition in its module.
    pub fn definition(&self) -> (definition: usize)
        ensures
            definition == self@.definition,
    {
        self.definition
    }

    /// The loader's number of the module of the definition.
    pub fn module(&self) -> (module: usize)
        ensures
            module == self@.module,
    {
        self.module
    }

    /// A copy of the symbol.
    pub fn duplicate(&self) -> (copy: Self)
        ensures
            copy@ == self@,
    {
        proof {
            use_type_invariant(self);
        }
        FunctionSymbol {
            export: self.export.duplicate(),
            definition: self.definition,
            module: self.module,
        }
    }
}

impl Symbol {
    pub fn export(&self) -> (export: &Export)
        ensures
            export@.symbol() == Some(self@.name),
            (export@ is Private) == self@.private,
    {
        match self {
            Symbol::Function(function) => function.export(),
        }
    }

    pub fn name(&self) -> (name: &Id)
        ensures
            name@ == self@.name,
            valid_identifier(name@),
    {
        match self.export() {
            Export::Private(name) => {
                let checked = name.as_bytes();
                name
            },
            Export::Export(name) => {
                let _ = name.as_bytes();
                name
            },
            Export::Hidden => vstd::pervasive::unreached(),
        }
    }

    /// The loader's number of the module of the symbol.
    pub fn module(&self) -> (module: usize)
        ensures
            module == self@.module,
    {
        match self {
            Symbol::Function(function) => function.module(),
        }
    }

    pub fn is_private(&self) -> (private: bool)
        ensures
            private == self@.private,
    {
        match self {
            Symbol::Function(function) => function.is_private(),
        }
    }

    /// A copy of the symbol.
    pub fn duplicate(&self) -> (copy: Self)
        ensures
            copy@ == self@,
    {
        match self {
            Symbol::Function(function) => Symbol::Function(function.duplicate()),
        }
    }
}

/// A symbol that is to be defined is defined already.
#[derive(Debug)]
pub struct DuplicateSymbolError {
    symbol: Symbol,
}

impl DuplicateSymbolError {
    /// The symbol that was there first.
    pub closed spec fn first(&self) -> SymbolView {
        self.symbol@
    }

    pub(crate) fn new(symbol: Symbol) -> (error: Self)
        ensures
            error.first() == symbol@,
    {
        DuplicateSymbolError { symbol }
    }

    /// The symbol that was there first.
    pub fn symbol(&self) -> (symbol: &Symbol)
        ensures
            symbol@ == self.first(),
    {
        &self.symbol
    }

    /// The line of text that the error is shown as.
    pub open spec fn text(&self) -> Seq<char> {
        "a definition corresponding to the symbol \""@ + vstd::utf8::decode_utf8(
            self.first().name,
        ) + "\" already exists"@
    }

    /// The error as one line of text.
    pub fn message(&self) -> (message: String)
        ensures
            message@ == self.text(),
    {
        let mut message = String::from_str("a definition corresponding to the symbol \"");
        message.append(self.symbol().name().text().as_str());
        message.append("\" already exists");
        message
    }
}

/// The symbols of a module, which can be found by their names. No two of
/// them have the same name. The view is the symbols in the order in which
/// they were inserted.
#[derive(Debug)]
pub struct Lookup {
    lookup: FxHashMap<Vec<u8>, usize>,
    symbols: Vec<Symbol>,
}

/// Whether a symbol of a list has the given name.
pub open spec fn has_name(symbols: Seq<SymbolView>, name: Seq<u8>) -> bool {
    exists|i: int| 0 <= i < symbols.len() && (#[trigger] symbols[i]).name == name
}

impl View for Lookup {
    type V = Seq<SymbolView>;

    closed spec fn view(&self) -> Seq<SymbolView> {
        self.symbols@.map_values(|symbol: Symbol| symbol@)
    }
}

impl Lookup {
    #[verifier::type_invariant]
    spec fn well_formed(self) -> bool {
        &&& forall|i: int|
            0 <= i < self.symbols@.len() ==> {
                let name = (#[trigger] self.symbols@[i])@.name;
                symbol_entries(&self.lookup).contains_key(name) && symbol_entries(
                    &self.lookup,
                )[name] == i
            }
        &&& forall|name: Seq<u8>| #[trigger]
            symbol_entries(&self.lookup).contains_key(name) ==> {
                let index = symbol_entries(&self.lookup)[name];
                index < self.symbols@.len() && self.symbols@[index as int]@.name == name
            }
    }

    /// A lookup without symbols.
    pub fn new() -> (lookup: Self)
        ensures
            lookup@ == Seq::<SymbolView>::empty(),
    {
        let lookup = Lookup { lookup: table_new(), symbols: Vec::new() };
        proof {
            assert(lookup@ =~= Seq::<SymbolView>::empty());
        }
        lookup
    }

    /// The symbol of the given name, if there is one.
    pub fn get(&self, name: &Id) -> (found: Option<&Symbol>)
        ensures
            match found {
                Some(symbol) => symbol@.name == name@ && self@.contains(symbol@),
                None => !has_name(self@, name@),
            },
    {
        proof {
            use_type_invariant(self);
        }
        match table_get(&self.lookup, name.as_bytes()) {
            Some(index) => {
                let symbol = &self.symbols[index];
                proof {
                    assert(self@[index as int] == symbol@);
                }
                Some(symbol)
            },
            None => {
                proof {
                    if has_name(self@, name@) {
                        let i = choose|i: int|
                            0 <= i < self@.len() && (#[trigger] self@[i]).name == name@;
                        assert(self.symbols@[i]@.name == name@);
                    }
                }
                None
            },
        }
    }

    /// The symbols in the order in which they were inserted. No two of
    /// them have the same name.
    pub fn iter(&self) -> (symbols: &[Symbol])
        ensures
            symbols@.map_values(|symbol: Symbol| symbol@) == self@,
            forall|i: int, j: int|
                0 <= i < j < self@.len() ==> (#[trigger] self@[i]).name != (
                #[trigger] self@[j]).name,
    {
        proof {
            use_type_invariant(self);
            assert forall|i: int, j: int| 0 <= i < j < self@.len() implies (
            #[trigger] self@[i]).name != (#[trigger] self@[j]).name by {
                assert(self.symbols@[i]@ == self@[i]);
                assert(self.symbols@[j]@ == self@[j]);
            }
        }
        self.symbols.as_slice()
    }

    /// Inserts a symbol under its name, unless a symbol has that name
    /// already: then the lookup stays as it is, and the error holds the
    /// symbol that was there first.
    pub fn try_insert(&mut self, symbol: Symbol) -> (inserted: Result<(), DuplicateSymbolError>)
        ensures
            match inserted {
                Ok(()) => !has_name(old(self)@, symbol@.name) && final(self)@ == old(self)@.push(
                    symbol@,
                ),
                Err(error) => {
                    &&& final(self)@ == old(self)@
                    &&& error.first().name == symbol@.name
                    &&& old(self)@.contains(error.first())
                },
            },
    {
        proof {
            use_type_invariant(&*self);
        }
        let key = vstd::slice::slice_to_vec(symbol.name().as_bytes());
        match table_get(&self.lookup, key.as_slice()) {
            Some(index) => {
                let first = self.symbols[index].duplicate();
                proof {
                    assert(self@[index as int] == first@);
                }
                return Err(DuplicateSymbolError::new(first));
            },
            None => {},
        }
        proof {
            if has_name(self@, symbol@.name) {
                let i = choose|i: int|
                    0 <= i < self@.len() && (#[trigger] self@[i]).name == symbol@.name;
                assert(self.symbols@[i]@.name == symbol@.name);
            }
        }
        let mut taken = Lookup::new();
        std::mem::swap(self, &mut taken);
        let Lookup { mut lookup, mut symbols } = taken;
        let ghost before = symbols@;
        table_insert(&mut lookup, key, symbols.len());
        symbols.push(symbol);
        proof {
            assert forall|i: int| 0 <= i < symbols@.len() implies {
                let name = (#[trigger] symbols@[i])@.name;
                symbol_entries(&lookup).contains_key(name) && symbol_entries(&lookup)[name] == i
            } by {
                if i < before.len() {
                    assert(symbols@[i] == before[i]);
                }
            }
        }
        *self = Lookup { lookup, symbols };
        proof {
            assert(self@ =~= old(self)@.push(symbol@));
        }
        Ok(())
    }
}

} // verus!
