//! Modules, and their reading and writing.

use crate::binary::buffer::Pool;
use crate::binary::LengthSize;
use crate::validation::ValidModule;
use crate::function::{Body, Definition, DefinitionView, Function, FunctionView, Kind, Signature};
use crate::identifier::{valid_identifier, Id, Identifier};
use crate::module::symbols::{symbol_entries, table_get, table_insert, table_new};
use rustc_hash::FxHashMap;
use std::sync::Arc;
use vstd::string::StringExecFns;
use vstd::prelude::*;

pub mod growth;
pub mod intern;
pub mod lookup;
pub mod parser;
pub mod resolve;
pub mod round_trip;
pub mod symbols;
pub mod writer;

verus! {

/// Whether the symbol of a definition is exported.
#[derive(Clone, Copy, Debug, PartialEq, Eq, Structural, Hash)]
pub enum Export {
    Yes,
    No,
}

/// The version of the module file format.
#[derive(Clone, Copy, Debug, PartialEq, Eq, Structural)]
pub struct FormatVersion {
    /// Raised when the format changes so that older readers cannot read it.
    pub major: u8,
    pub minor: u8,
}

/// The major number of the oldest format version that is read.
pub const MINIMUM_SUPPORTED_MAJOR: u8 = 0;

/// The minor number of the oldest format version that is read.
pub const MINIMUM_SUPPORTED_MINOR: u8 = 12;

impl FormatVersion {
    /// The oldest version of the format that is read.
    pub open spec fn minimum_supported() -> FormatVersion {
        FormatVersion { major: 0, minor: 12 }
    }

    /// Whether a module of this version of the format is read: its version
    /// is the oldest one that is read, or a later one.
    pub open spec fn supported(self) -> bool {
        self.major > 0 || self.minor >= 12
    }

    /// The oldest version of the format that is read.
    pub fn new_minimum_supported() -> (version: FormatVersion)
        ensures
            version == FormatVersion::minimum_supported(),
            version.supported(),
    {
        FormatVersion { major: MINIMUM_SUPPORTED_MAJOR, minor: MINIMUM_SUPPORTED_MINOR }
    }

    /// Whether a module of this version of the format is read.
    pub fn is_supported(&self) -> (supported: bool)
        ensures
            supported == self.supported(),
    {
        self.major > MINIMUM_SUPPORTED_MAJOR || self.minor >= MINIMUM_SUPPORTED_MINOR
    }
}

/// The name and the version of a module, which tell modules apart.
#[derive(Clone, Debug, PartialEq, Eq, Hash)]
pub struct ModuleIdentifier {
    name: Identifier,
    version: Vec<usize>,
}

/// What the identifier of a module stands for.
pub struct ModuleIdentifierView {
    pub name: Seq<u8>,
    pub version: Seq<usize>,
}

impl View for ModuleIdentifier {
    type V = ModuleIdentifierView;

    closed spec fn view(&self) -> ModuleIdentifierView {
        ModuleIdentifierView { name: self.name@, version: self.version@ }
    }
}

impl ModuleIdentifier {
    pub fn new(name: Identifier, version: Vec<usize>) -> (identifier: Self)
        ensures
            identifier@.name == name@,
            identifier@.version == version@,
    {
        ModuleIdentifier { name, version }
    }

    pub fn name(&self) -> (name: &Id)
        ensures
            name@ == self@.name,
            valid_identifier(self@.name),
    {
        let _ = self.name.as_bytes();
        &self.name
    }

    /// The numbers of the version, which tell apart modules of one name.
    pub fn version(&self) -> (version: &[usize])
        ensures
            version@ == self@.version,
    {
        self.version.as_slice()
    }

    /// A copy of the identifier.
    pub fn duplicate(&self) -> (copy: ModuleIdentifier)
        ensures
            copy@ == self@,
    {
        ModuleIdentifier { name: self.name.clone(), version: self.version.clone() }
    }

    /// Whether two identifiers have the same name and the same version.
    pub fn same(&self, other: &ModuleIdentifier) -> (equal: bool)
        ensures
            equal == (self@ == other@),
    {
        if !self.name.same(&other.name) {
            return false;
        }
        if self.version.len() != other.version.len() {
            return false;
        }
        let mut index: usize = 0;
        while index < self.version.len()
            invariant
                index <= self.version@.len(),
                self.version@.len() == other.version@.len(),
                forall|i: int| 0 <= i < index ==> self.version@[i] == other.version@[i],
            decreases self.version@.len() - index,
        {
            if self.version[index] != other.version[index] {
                return false;
            }
            index += 1;
        }
        assert(self.version@ =~= other.version@);
        true
    }
}

/// A definition that has a symbol.
#[derive(Clone, Debug)]
pub enum DefinedSymbol {
    Function(Arc<Function>),
}

impl DefinedSymbol {
    /// The bytes of the symbol.
    pub open spec fn name(&self) -> Seq<u8> {
        match self {
            DefinedSymbol::Function(function) => (**function)@.symbol,
        }
    }

    pub fn as_id(&self) -> (symbol: &Id)
        ensures
            symbol@ == self.name(),
    {
        match self {
            DefinedSymbol::Function(function) => function.symbol(),
        }
    }
}

/// A function with its definition.
#[derive(Debug, PartialEq, Eq)]
pub struct DefinedFunction {
    function: Arc<Function>,
    definition: Definition,
}

/// What a function with its definition stands for.
pub struct DefinedFunctionView {
    pub function: FunctionView,
    pub definition: DefinitionView,
}

impl View for DefinedFunction {
    type V = DefinedFunctionView;

    closed spec fn view(&self) -> DefinedFunctionView {
        DefinedFunctionView { function: (*self.function)@, definition: self.definition@ }
    }
}

impl DefinedFunction {
    pub fn new(function: Arc<Function>, export: Export, body: Body) -> (defined: Self)
        ensures
            defined@.function == (*function)@,
            defined@.definition == (DefinitionView { body: body@, export }),
    {
        DefinedFunction { function, definition: Definition::new(body, export) }
    }

    pub fn function(&self) -> (function: &Arc<Function>)
        ensures
            (**function)@ == self@.function,
    {
        &self.function
    }

    pub fn definition(&self) -> (definition: &Definition)
        ensures
            definition@ == self@.definition,
    {
        &self.definition
    }
}

/// A symbol that is to be defined is defined already.
#[derive(Clone, Debug)]
pub struct DuplicateSymbolError(pub DefinedSymbol);

impl DuplicateSymbolError {
    /// The symbol, as the definition that was there first has it.
    pub fn symbol(&self) -> (symbol: &Id)
        ensures
            symbol@ == self.0.name(),
    {
        self.0.as_id()
    }

    /// The line of text that the error is shown as.
    pub open spec fn text(&self) -> Seq<char> {
        "a definition corresponding to the symbol \""@ + vstd::utf8::decode_utf8(self.0.name())
            + "\" already exists"@
    }

    /// The error as one line of text.
    pub fn message(&self) -> (message: String)
        ensures
            message@ == self.text(),
    {
        let mut message = String::from_str("a definition corresponding to the symbol \"");
        message.append(self.symbol().text().as_str());
        message.append("\" already exists");
        message
    }
}

/// A module: its name and version, and the functions that it defines. No
/// two definitions of a module have the same symbol.
#[derive(Debug)]
pub struct Module {
    contents: Option<Vec<u8>>,
    format_version: FormatVersion,
    identifier: Arc<ModuleIdentifier>,
    symbols: FxHashMap<Vec<u8>, usize>,
    function_definitions: Vec<DefinedFunction>,
}

/// What a module stands for.
pub struct ModuleView {
    pub format_version: FormatVersion,
    pub identifier: ModuleIdentifierView,
    pub definitions: Seq<DefinedFunctionView>,
}

impl ModuleView {
    /// Whether a definition of the module has the symbol.
    pub open spec fn has_symbol(self, symbol: Seq<u8>) -> bool {
        exists|i: int|
            0 <= i < self.definitions.len() && (#[trigger] self.definitions[i]).function.symbol
                == symbol
    }

    /// Whether the module defines a function: one of its definitions has
    /// the symbol and the signature of the function.
    pub open spec fn defines(self, function: FunctionView) -> bool {
        exists|i: int|
            0 <= i < self.definitions.len() && (#[trigger] self.definitions[i]).function
                == function
    }

    /// Whether two modules are the same but for the bodies and the order
    /// of their functions: they are of the same version of the format and
    /// have the same name and version, and as many definitions, and the
    /// other module defines every function that this one defines.
    pub open spec fn equivalent(self, other: ModuleView) -> bool {
        &&& self.format_version == other.format_version
        &&& self.identifier == other.identifier
        &&& self.definitions.len() == other.definitions.len()
        &&& forall|i: int|
            0 <= i < self.definitions.len() ==> other.defines(
                (#[trigger] self.definitions[i]).function,
            )
    }

    /// Whether no two definitions of the module have the same symbol.
    pub open spec fn symbols_distinct(self) -> bool {
        forall|i: int, j: int|
            0 <= i < j < self.definitions.len() ==> (
            #[trigger] self.definitions[i]).function.symbol != (
            #[trigger] self.definitions[j]).function.symbol
    }
}

impl View for Module {
    type V = ModuleView;

    closed spec fn view(&self) -> ModuleView {
        ModuleView {
            format_version: self.format_version,
            identifier: (*self.identifier)@,
            definitions: self.function_definitions@.map_values(
                |defined: DefinedFunction| defined@,
            ),
        }
    }
}

/// The size of the lengths of a module: the smallest size that holds every
/// length and index that is written for the module, which is the size that
/// the module is written with; and the greatest size for a module that has
/// a length that no size holds, and cannot be written.
pub open spec fn length_size_of(module: ModuleView) -> LengthSize {
    match writer::smallest_size(intern::interned(module)) {
        Some(size) => size,
        None => LengthSize::Four,
    }
}

impl Module {
    #[verifier::type_invariant]
    spec fn well_formed(self) -> bool {
        &&& self.format_version.supported()
        &&& forall|i: int|
            0 <= i < self.function_definitions@.len() ==> {
                let symbol = (#[trigger] self.function_definitions@[i])@.function.symbol;
                symbol_entries(&self.symbols).contains_key(symbol) && symbol_entries(
                    &self.symbols,
                )[symbol] == i
            }
        &&& forall|symbol: Seq<u8>| #[trigger]
            symbol_entries(&self.symbols).contains_key(symbol) ==> {
                let index = symbol_entries(&self.symbols)[symbol];
                index < self.function_definitions@.len()
                    && self.function_definitions@[index as int]@.function.symbol == symbol
            }
    }

    /// The size of the lengths of the module: the smallest size that holds
    /// every length and index that is written for it.
    pub open spec fn size(&self) -> LengthSize {
        length_size_of(self@)
    }

    /// The bytes that the module was read from, or that it was last written
    /// as, where they are kept.
    pub closed spec fn kept(&self) -> Option<Seq<u8>> {
        match self.contents {
            Some(bytes) => Some(bytes@),
            None => None,
        }
    }

    /// A module without definitions, in the oldest version of the format
    /// that is read.
    pub fn from_identifier(identifier: Arc<ModuleIdentifier>) -> (module: Module)
        ensures
            module@ == (ModuleView {
                format_version: FormatVersion::minimum_supported(),
                identifier: (*identifier)@,
                definitions: Seq::empty(),
            }),
            module.size() == length_size_of(module@),
            module.kept().is_none(),
    {
        let module = Module {
            contents: None,
            format_version: FormatVersion::new_minimum_supported(),
            identifier,
            symbols: table_new(),
            function_definitions: Vec::new(),
        };
        proof {
            assert(module@.definitions =~= Seq::<DefinedFunctionView>::empty());
        }
        module
    }

    /// Sets the version of the format of the module.
    pub(crate) fn set_format(&mut self, format_version: FormatVersion)
        requires
            format_version.supported(),
        ensures
            final(self)@ == (ModuleView { format_version, ..old(self)@ }),
            final(self).kept() == old(self).kept(),
    {
        proof {
            use_type_invariant(&*self);
        }
        self.format_version = format_version;
    }

    /// Keeps the bytes that the module was read from.
    pub(crate) fn keep(&mut self, bytes: Vec<u8>)
        ensures
            final(self)@ == old(self)@,
            final(self).kept() == Some(bytes@),
    {
        proof {
            use_type_invariant(&*self);
        }
        self.contents = Some(bytes);
    }

    /// A module of the given name and version, without definitions.
    pub fn new(name: Identifier, version: Vec<usize>) -> (module: Module)
        ensures
            module@ == (ModuleView {
                format_version: FormatVersion::minimum_supported(),
                identifier: ModuleIdentifierView { name: name@, version: version@ },
                definitions: Seq::empty(),
            }),
            module.size() == length_size_of(module@),
            module.kept().is_none(),
    {
        Module::from_identifier(Arc::new(ModuleIdentifier::new(name, version)))
    }

    pub fn format_version(&self) -> (version: &FormatVersion)
        ensures
            *version == self@.format_version,
            version.supported(),
    {
        proof {
            use_type_invariant(self);
        }
        &self.format_version
    }

    /// The size of the lengths of the module: the smallest size that holds
    /// every length and index that is written for the module, which is the
    /// size that `write` writes it with and records in the header, and the
    /// size of the module that is read back. It is the greatest size for a
    /// module that cannot be written.
    pub fn length_size(&self) -> (size: LengthSize)
        ensures
            size == self.size(),
            size == length_size_of(self@),
    {
        let contents = intern::intern(self);
        let pool = Pool::new();
        match writer::write_contents(&contents, &pool) {
            Some((size, _)) => size,
            None => LengthSize::Four,
        }
    }

    /// The name and the version of the module.
    pub fn identifier(&self) -> (identifier: &Arc<ModuleIdentifier>)
        ensures
            (**identifier)@ == self@.identifier,
    {
        &self.identifier
    }

    /// The functions that the module defines, in the order in which they
    /// were added. No two of them have the same symbol.
    pub fn function_definitions(&self) -> (definitions: &[DefinedFunction])
        ensures
            definitions@.map_values(|defined: DefinedFunction| defined@) == self@.definitions,
            self@.symbols_distinct(),
    {
        proof {
            use_type_invariant(self);
        }
        self.function_definitions.as_slice()
    }

    /// The definition that has the symbol, if there is one.
    pub fn lookup(&self, symbol: &Id) -> (found: Option<&DefinedFunction>)
        ensures
            match found {
                Some(defined) => defined@.function.symbol == symbol@ && self@.definitions.contains(
                    defined@,
                ),
                None => !self@.has_symbol(symbol@),
            },
    {
        proof {
            use_type_invariant(self);
        }
        match table_get(&self.symbols, symbol.as_bytes()) {
            Some(index) => {
                let defined = &self.function_definitions[index];
                proof {
                    assert(self@.definitions[index as int] == defined@);
                }
                Some(defined)
            },
            None => None,
        }
    }

    /// Whether two modules are the same but for the bodies and the order
    /// of their functions.
    pub fn same(&self, other: &Module) -> (equal: bool)
        ensures
            equal == self@.equivalent(other@),
    {
        if self.format_version != other.format_version {
            return false;
        }
        if !self.identifier.same(&other.identifier) {
            return false;
        }
        let definitions = self.function_definitions();
        let others = other.function_definitions();
        if definitions.len() != others.len() {
            return false;
        }
        let mut index: usize = 0;
        while index < definitions.len()
            invariant
                index <= definitions@.len(),
                definitions@.map_values(|defined: DefinedFunction| defined@) == self@.definitions,
                other@.symbols_distinct(),
                forall|i: int|
                    0 <= i < index ==> other@.defines((#[trigger] self@.definitions[i]).function),
            decreases definitions@.len() - index,
        {
            let function = definitions[index].function();
            proof {
                assert(self@.definitions[index as int] == definitions@[index as int]@);
            }
            let looked = other.lookup(function.symbol());
            let found = match looked {
                Some(defined) => defined.function().signature().same(function.signature()),
                None => false,
            };
            proof {
                let wanted = (**function)@;
                match looked {
                    Some(defined) => {
                        let k = choose|k: int|
                            0 <= k < other@.definitions.len() && other@.definitions[k]
                                == defined@;
                        if found {
                            assert(other@.definitions[k].function == wanted);
                        } else if other@.defines(wanted) {
                            let i = choose|i: int|
                                0 <= i < other@.definitions.len() && (
                                #[trigger] other@.definitions[i]).function == wanted;
                            assert(other@.definitions[k].function.symbol
                                == other@.definitions[i].function.symbol);
                            assert(i == k);
                        }
                    },
                    None => {},
                }
            }
            if !found {
                return false;
            }
            index += 1;
        }
        true
    }

    /// Adds a function to the module under a symbol that no definition of
    /// the module has yet. Where one has it, nothing is added and the error
    /// holds the definition that was there first. The length size of the
    /// module does not fall, and where the module can be written it holds
    /// the length of the symbol and the numbers of the results and of the
    /// parameters of the function.
    pub fn add_function(&mut self, symbol: Identifier, signature: Arc<Signature>, kind: Kind) -> (added:
        Result<Arc<Function>, DuplicateSymbolError>)
        ensures
            final(self)@.format_version == old(self)@.format_version,
            final(self)@.identifier == old(self)@.identifier,
            match added {
                Ok(function) => {
                    &&& !old(self)@.has_symbol(symbol@)
                    &&& (*function)@ == (FunctionView {
                        symbol: symbol@,
                        signature: (*signature)@,
                    })
                    &&& final(self)@.definitions == old(self)@.definitions.push(
                        DefinedFunctionView { function: (*function)@, definition: kind@ },
                    )
                    &&& final(self).kept().is_none()
                    &&& final(self).size().width() >= old(self).size().width()
                    &&& writer::smallest_size(intern::interned(final(self)@)).is_some() ==> {
                        &&& final(self).size().holds(symbol@.len())
                        &&& final(self).size().holds((*signature)@.result_types.len())
                        &&& final(self).size().holds((*signature)@.parameter_types.len())
                    }
                },
                Err(error) => {
                    &&& old(self)@.has_symbol(symbol@)
                    &&& error.0.name() == symbol@
                    &&& error.0 matches DefinedSymbol::Function(first) && exists|i: int|
                        0 <= i < old(self)@.definitions.len() && (#[trigger] old(
                            self,
                        )@.definitions[i]).function == (*first)@
                    &&& final(self)@ == old(self)@
                    &&& final(self).kept() == old(self).kept()
                },
            },
    {
        proof {
            use_type_invariant(&*self);
        }
        match table_get(&self.symbols, symbol.as_bytes()) {
            Some(index) => {
                let first = self.function_definitions[index].function.clone();
                proof {
                    assert(old(self)@.definitions[index as int].function == (*first)@);
                }
                return Err(DuplicateSymbolError(DefinedSymbol::Function(first)));
            },
            None => {},
        }
        let key = vstd::slice::slice_to_vec(symbol.as_bytes());
        let function = Function::new(symbol, signature);
        let Kind::Defined(definition) = kind;
        let mut taken = Module::from_identifier(self.identifier.clone());
        std::mem::swap(self, &mut taken);
        let Module {
            contents,
            format_version,
            identifier,
            mut symbols,
            mut function_definitions,
        } = taken;
        let ghost before = function_definitions@;
        table_insert(&mut symbols, key, function_definitions.len());
        function_definitions.push(DefinedFunction { function: function.clone(), definition });
        proof {
            assert forall|i: int| 0 <= i < function_definitions@.len() implies {
                let symbol = (#[trigger] function_definitions@[i])@.function.symbol;
                symbol_entries(&symbols).contains_key(symbol) && symbol_entries(&symbols)[symbol]
                    == i
            } by {
                if i < before.len() {
                    assert(function_definitions@[i] == before[i]);
                    assert(old(self)@.definitions[i] == before[i]@);
                }
            }
        }
        *self = Module {
            contents: None,
            format_version,
            identifier,
            symbols,
            function_definitions,
        };
        proof {
            let added = DefinedFunctionView { function: (*function)@, definition: definition@ };
            assert(self@.definitions =~= old(self)@.definitions.push(added));
            growth::lemma_length_size_grows(old(self)@, added);
            if let Some(size) = writer::smallest_size(intern::interned(self@)) {
                assert(self@.definitions.last() == added);
                growth::lemma_last_fits(size, self@);
            }
            assert(self@ == (ModuleView {
                definitions: old(self)@.definitions.push(added),
                ..old(self)@
            }));
        }
        Ok(function)
    }
}

/// Why a module cannot be written.
#[derive(Clone, Copy, Debug, PartialEq, Eq, Structural)]
pub enum WriteError {
    /// A length or an index of the module is greater than the greatest
    /// length of four bytes.
    LengthTooLarge,
}

pub type ParseError = parser::Error;

pub type ParseErrorKind = parser::ErrorKind;

impl Module {
    /// Appends the bytes of the module to `destination`. The lengths are
    /// written in the smallest size that holds every length and index of
    /// the module. Nothing is appended for a module that has a length or
    /// an index that no size holds.
    pub fn write(&self, destination: &mut Vec<u8>, buffer_pool: Option<&Pool>) -> (written: Result<
        LengthSize,
        WriteError,
    >)
        ensures
            round_trip::well_formed(self@),
            match written {
                Ok(size) => {
                    &&& round_trip::written(self@) matches Some(bytes)
                    &&& final(destination)@ == old(destination)@ + bytes
                    &&& writer::smallest_size(intern::interned(self@)) == Some(size)
                    &&& size == self.size()
                },
                Err(error) => {
                    &&& round_trip::written(self@).is_none()
                    &&& final(destination)@ == old(destination)@
                },
            },
    {
        proof {
            use_type_invariant(self);
        }
        let contents = intern::intern(self);
        let _ = self.function_definitions();
        let fresh = Pool::new();
        let pool = match buffer_pool {
            Some(pool) => pool,
            None => &fresh,
        };
        match writer::write_contents(&contents, pool) {
            Some((size, bytes)) => {
                crate::binary::format::append_bytes(destination, bytes.as_slice());
                Ok(size)
            },
            None => Err(WriteError::LengthTooLarge),
        }
    }

    /// The records of the module: what its contents are made up of.
    pub fn records(&self) -> (records: Vec<crate::binary::record::Record>)
        ensures
            crate::loader::module::collected(records@) == crate::validation::tables_of(
                intern::interned(self@),
            ),
    {
        intern::intern(self).into_records()
    }

    /// The bytes of the module: those that are kept, and else those that
    /// the module is written as, which are then kept. There are no bytes
    /// for a module that cannot be written.
    pub fn raw_contents(&mut self, buffer_pool: Option<&Pool>) -> (bytes: Option<&Vec<u8>>)
        ensures
            final(self)@ == old(self)@,
            match bytes {
                Some(found) => {
                    &&& final(self).kept() == Some(found@)
                    &&& match old(self).kept() {
                        Some(kept) => found@ == kept,
                        None => round_trip::written(old(self)@) == Some(found@),
                    }
                },
                None => {
                    &&& old(self).kept().is_none()
                    &&& final(self).kept().is_none()
                    &&& round_trip::written(old(self)@).is_none()
                },
            },
    {
        if self.contents.is_none() {
            let mut bytes: Vec<u8> = Vec::with_capacity(512);
            match self.write(&mut bytes, buffer_pool) {
                Ok(size) => {
                    proof {
                        let written = round_trip::written(self@).unwrap();
                        assert(bytes@ =~= written);
                    }
                    self.keep(bytes);
                },
                Err(_) => {
                    return None;
                },
            }
        }
        self.contents.as_ref()
    }

    /// Reads a module from its bytes. The sections are read where they
    /// stand in `bytes`, so that no buffer is rented from the pool. The
    /// length size of the module that is read is the smallest size that
    /// holds its lengths, which is the size in the header of bytes that
    /// `write` gave.
    pub fn parse(bytes: &[u8], buffer_pool: Option<&Pool>) -> (module: Result<Module, ParseError>)
        ensures
            match module {
                Ok(read) => {
                    &&& round_trip::parsed(bytes@) == Some(read@)
                    &&& read.kept().is_none()
                },
                Err(error) => round_trip::parsed(bytes@).is_none() && round_trip::explains(
                    bytes@,
                    error,
                ),
            },
    {
        let (_, contents, end) = parser::read_contents(bytes)?;
        let valid = match ValidModule::from_contents(contents) {
            Ok(valid) => valid,
            Err(error) => {
                return Err(
                    match error.kind() {
                        crate::validation::ErrorKind::IndexOutOfBounds { section, index } =>
                            parser::Error::new(
                            end,
                            parser::ErrorKind::IndexOutOfBounds { section, index },
                        ),
                    },
                );
            },
        };
        match resolve::resolve(&valid) {
            Ok(module) => Ok(module),
            Err(kind) => Err(parser::Error::new(end, kind)),
        }
    }

    /// Reads a module from a slice of bytes.
    pub fn from_slice(bytes: &[u8], buffer_pool: Option<&Pool>) -> (module: Result<
        Module,
        ParseError,
    >)
        ensures
            match module {
                Ok(read) => {
                    &&& round_trip::parsed(bytes@) == Some(read@)
                    &&& read.kept().is_none()
                },
                Err(error) => round_trip::parsed(bytes@).is_none() && round_trip::explains(
                    bytes@,
                    error,
                ),
            },
    {
        Module::parse(bytes, buffer_pool)
    }

    /// Reads a module from a vector of bytes, and keeps the bytes with the
    /// module.
    pub fn from_vec(bytes: Vec<u8>, buffer_pool: Option<&Pool>) -> (module: Result<
        Module,
        ParseError,
    >)
        ensures
            match module {
                Ok(read) => {
                    &&& round_trip::parsed(bytes@) == Some(read@)
                    &&& read.kept() == Some(bytes@)
                },
                Err(error) => round_trip::parsed(bytes@).is_none() && round_trip::explains(
                    bytes@,
                    error,
                ),
            },
    {
        let mut module = Module::parse(bytes.as_slice(), buffer_pool)?;
        module.keep(bytes);
        Ok(module)
    }
}

impl WriteError {
    /// The line of text that the error is shown as.
    pub open spec fn text(self) -> Seq<char> {
        match self {
            WriteError::LengthTooLarge =>
                "a length of the module is too large and cannot be written"@,
        }
    }

    /// The error as one line of text.
    pub fn message(&self) -> (message: String)
        ensures
            message@ == self.text(),
    {
        match self {
            WriteError::LengthTooLarge => {
                let mut message = String::from_str("a length of the module is too large and cannot be written");
                message
            },
        }
    }
}

} // verus!
