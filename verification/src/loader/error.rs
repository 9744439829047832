//! What can go wrong when something is asked of a loaded module.

use crate::identifier::Identifier;
use crate::module::parser::Section;
use crate::module::{ModuleIdentifier, ModuleIdentifierView};
use crate::diagnostics::{append_decimal, decimal_text};
use vstd::prelude::*;
use vstd::string::StringExecFns;
use vstd::utf8::decode_utf8;

verus! {

/// An error of the loader.
#[derive(Debug)]
pub enum LoaderError {
    /// An index is not below the number of items of the section that it
    /// refers to.
    IndexOutOfBounds { section: Section, index: usize },
    /// No module of the given name and version is loaded, and none could be
    /// found.
    ModuleNotFound(ModuleIdentifier),
    /// Pointers have two, four or eight bytes, and no other size.
    InvalidPointerSize(u8),
    /// The module does not export the symbol.
    SymbolNotFound { module: ModuleIdentifier, symbol: Identifier },
    /// A module that was to be loaded has two definitions with the symbol.
    DuplicateSymbol(Identifier),
    /// The loader has no module of the given number.
    ModuleNotLoaded(usize),
}

/// What an error of the loader stands for.
pub enum LoaderErrorView {
    IndexOutOfBounds { section: Section, index: usize },
    ModuleNotFound(ModuleIdentifierView),
    InvalidPointerSize(u8),
    SymbolNotFound { module: ModuleIdentifierView, symbol: Seq<u8> },
    DuplicateSymbol(Seq<u8>),
    ModuleNotLoaded(usize),
}

impl View for LoaderError {
    type V = LoaderErrorView;

    open spec fn view(&self) -> LoaderErrorView {
        match self {
            LoaderError::IndexOutOfBounds { section, index } => LoaderErrorView::IndexOutOfBounds {
                section: *section,
                index: *index,
            },
            LoaderError::ModuleNotFound(module) => LoaderErrorView::ModuleNotFound(module@),
            LoaderError::InvalidPointerSize(size) => LoaderErrorView::InvalidPointerSize(*size),
            LoaderError::SymbolNotFound { module, symbol } => LoaderErrorView::SymbolNotFound {
                module: module@,
                symbol: symbol@,
            },
            LoaderError::DuplicateSymbol(symbol) => LoaderErrorView::DuplicateSymbol(symbol@),
            LoaderError::ModuleNotLoaded(module) => LoaderErrorView::ModuleNotLoaded(*module),
        }
    }
}

impl LoaderError {
    /// A copy of the error.
    pub fn duplicate(&self) -> (copy: LoaderError)
        ensures
            copy@ == self@,
    {
        match self {
            LoaderError::IndexOutOfBounds { section, index } => LoaderError::IndexOutOfBounds {
                section: *section,
                index: *index,
            },
            LoaderError::ModuleNotFound(module) => LoaderError::ModuleNotFound(
                module.duplicate(),
            ),
            LoaderError::InvalidPointerSize(size) => LoaderError::InvalidPointerSize(*size),
            LoaderError::SymbolNotFound { module, symbol } => LoaderError::SymbolNotFound {
                module: module.duplicate(),
                symbol: symbol.clone(),
            },
            LoaderError::DuplicateSymbol(symbol) => LoaderError::DuplicateSymbol(symbol.clone()),
            LoaderError::ModuleNotLoaded(module) => LoaderError::ModuleNotLoaded(*module),
        }
    }
}

impl Clone for LoaderError {
    fn clone(&self) -> (copy: LoaderError)
        ensures
            copy@ == self@,
    {
        self.duplicate()
    }
}

impl LoaderErrorView {
    /// The line of text that the error is shown as.
    pub open spec fn text(self) -> Seq<char> {
        match self {
            LoaderErrorView::IndexOutOfBounds { section, index } => "attempted load with index "@
                + decimal_text(index as nat)
                + ", which is out of the bounds of the "@
                + section.text(),
            LoaderErrorView::ModuleNotFound(module) => "the module "@
                + decode_utf8(module.name)
                + " could not be found"@,
            LoaderErrorView::InvalidPointerSize(size) => "the pointer size "@
                + decimal_text(size as nat)
                + " is not valid"@,
            LoaderErrorView::SymbolNotFound { module, symbol } => "the module "@
                + decode_utf8(module.name)
                + " does not export the symbol "@
                + decode_utf8(symbol),
            LoaderErrorView::DuplicateSymbol(symbol) => "a definition corresponding to the symbol "@
                + decode_utf8(symbol)
                + " already exists"@,
            LoaderErrorView::ModuleNotLoaded(module) => "no module with the number "@
                + decimal_text(module as nat)
                + " is loaded"@,
        }
    }
}

impl LoaderError {
    /// The error as one line of text.
    pub fn message(&self) -> (message: String)
        ensures
            message@ == self@.text(),
    {
        match self {
            LoaderError::IndexOutOfBounds { section, index } => {
                let mut message = String::from_str("attempted load with index ");
                append_decimal(&mut message, *index);
                message.append(", which is out of the bounds of the ");
                message.append(section.name().as_str());
                message
            },
            LoaderError::ModuleNotFound(module) => {
                let mut message = String::from_str("the module ");
                message.append(module.name().text().as_str());
                message.append(" could not be found");
                message
            },
            LoaderError::InvalidPointerSize(size) => {
                let mut message = String::from_str("the pointer size ");
                append_decimal(&mut message, *size as usize);
                message.append(" is not valid");
                message
            },
            LoaderError::SymbolNotFound { module, symbol } => {
                let mut message = String::from_str("the module ");
                message.append(module.name().text().as_str());
                message.append(" does not export the symbol ");
                message.append(symbol.text().as_str());
                message
            },
            LoaderError::DuplicateSymbol(symbol) => {
                let mut message = String::from_str("a definition corresponding to the symbol ");
                message.append(symbol.text().as_str());
                message.append(" already exists");
                message
            },
            LoaderError::ModuleNotLoaded(module) => {
                let mut message = String::from_str("no module with the number ");
                append_decimal(&mut message, *module);
                message.append(" is loaded");
                message
            },
        }
    }
}

} // verus!
