//! Functions: their signatures, their bodies and their definitions.

use crate::block::{Block, BlockView};
use crate::identifier::{valid_identifier, Id, Identifier};
use crate::module::Export;
use crate::type_system::Any;
use std::sync::Arc;
use vstd::prelude::*;
use vstd::string::StringExecFns;

verus! {

/// The signature of a function: the types of its results and the types of
/// its parameters.
#[derive(Clone, Debug, Default, PartialEq, Eq, Hash)]
pub struct Signature {
    result_types: Vec<Any>,
    parameter_types: Vec<Any>,
}

/// What a signature stands for.
pub struct SignatureView {
    pub result_types: Seq<Any>,
    pub parameter_types: Seq<Any>,
}

impl View for Signature {
    type V = SignatureView;

    closed spec fn view(&self) -> SignatureView {
        SignatureView { result_types: self.result_types@, parameter_types: self.parameter_types@ }
    }
}

impl Signature {
    pub fn new(result_types: Vec<Any>, parameter_types: Vec<Any>) -> (signature: Self)
        ensures
            signature@.result_types == result_types@,
            signature@.parameter_types == parameter_types@,
    {
        Signature { result_types, parameter_types }
    }

    pub fn result_types(&self) -> (types: &[Any])
        ensures
            types@ == self@.result_types,
    {
        self.result_types.as_slice()
    }

    pub fn parameter_types(&self) -> (types: &[Any])
        ensures
            types@ == self@.parameter_types,
    {
        self.parameter_types.as_slice()
    }

    /// Whether two signatures have the same result types and the same
    /// parameter types.
    pub fn same(&self, other: &Signature) -> (equal: bool)
        ensures
            equal == (self@ == other@),
    {
        let results = same_types(self.result_types.as_slice(), other.result_types.as_slice());
        let parameters = same_types(
            self.parameter_types.as_slice(),
            other.parameter_types.as_slice(),
        );
        results && parameters
    }
}

/// The names of the types of a list, with a comma and a space between them.
pub open spec fn types_text(types: Seq<Any>) -> Seq<char>
    decreases types.len(),
{
    if types.len() == 0 {
        Seq::empty()
    } else if types.len() == 1 {
        types[0].text()
    } else {
        types_text(types.drop_last()) + ", "@ + types.last().text()
    }
}

/// Appends the names of the types of a list to a text, with a comma and a
/// space between them.
pub fn append_types(text: &mut String, types: &[Any])
    ensures
        final(text)@ == old(text)@ + types_text(types@),
{
    let mut index: usize = 0;
    proof {
        assert(types@.take(0) =~= Seq::<Any>::empty());
        assert(text@ =~= old(text)@ + types_text(types@.take(0)));
    }
    while index < types.len()
        invariant
            index <= types@.len(),
            text@ == old(text)@ + types_text(types@.take(index as int)),
        decreases types@.len() - index,
    {
        let ghost before = text@;
        if index > 0 {
            text.append(", ");
        }
        text.append(types[index].name());
        proof {
            let done = types@.take(index as int);
            let next = types@.take(index + 1);
            assert(next.drop_last() =~= done);
            assert(next.last() == types@[index as int]);
            if index == 0 {
                assert(text@ =~= old(text)@ + types_text(next));
            } else {
                assert(text@ =~= old(text)@ + (types_text(done) + ", "@
                    + types@[index as int].text()));
            }
        }
        index += 1;
    }
    proof {
        assert(types@.take(index as int) =~= types@);
    }
}

impl SignatureView {
    /// The line of text that the signature is shown as: the types of the
    /// parameters and the types of the results.
    pub open spec fn text(self) -> Seq<char> {
        "("@ + types_text(self.parameter_types) + ") -> ("@ + types_text(self.result_types) + ")"@
    }
}

impl Signature {
    /// The signature as one line of text.
    pub fn message(&self) -> (message: String)
        ensures
            message@ == self@.text(),
    {
        let mut message = String::from_str("(");
        append_types(&mut message, self.parameter_types.as_slice());
        message.append(") -> (");
        append_types(&mut message, self.result_types.as_slice());
        message.append(")");
        message
    }
}

/// Whether two lists hold the same types in the same order.
pub fn same_types(left: &[Any], right: &[Any]) -> (equal: bool)
    ensures
        equal == (left@ == right@),
{
    if left.len() != right.len() {
        return false;
    }
    let mut index: usize = 0;
    while index < left.len()
        invariant
            index <= left@.len(),
            left@.len() == right@.len(),
            forall|i: int| 0 <= i < index ==> left@[i] == right@[i],
        decreases left@.len() - index,
    {
        if left[index] != right[index] {
            return false;
        }
        index += 1;
    }
    assert(left@ =~= right@);
    true
}

/// A function: its symbol and its signature.
#[derive(Debug, PartialEq, Eq, Hash)]
pub struct Function {
    symbol: Identifier,
    signature: Arc<Signature>,
}

/// What a function stands for.
pub struct FunctionView {
    pub symbol: Seq<u8>,
    pub signature: SignatureView,
}

impl View for Function {
    type V = FunctionView;

    closed spec fn view(&self) -> FunctionView {
        FunctionView { symbol: self.symbol@, signature: (*self.signature)@ }
    }
}

impl Function {
    pub fn new(symbol: Identifier, signature: Arc<Signature>) -> (function: Arc<Self>)
        ensures
            (*function)@.symbol == symbol@,
            (*function)@.signature == (*signature)@,
    {
        Arc::new(Function { symbol, signature })
    }

    pub fn symbol(&self) -> (symbol: &Id)
        ensures
            symbol@ == self@.symbol,
            valid_identifier(self@.symbol),
    {
        let _ = self.symbol.as_bytes();
        &self.symbol
    }

    pub fn signature(&self) -> (signature: &Signature)
        ensures
            signature@ == self@.signature,
    {
        &self.signature
    }
}

/// A body that is in a library.
#[derive(Clone, Debug, PartialEq, Eq)]
pub struct ForeignBody {
    library_name: Arc<Identifier>,
    entry_point_name: Identifier,
}

/// What a body in a library stands for.
pub struct ForeignBodyView {
    pub library_name: Seq<u8>,
    pub entry_point_name: Seq<u8>,
}

impl View for ForeignBody {
    type V = ForeignBodyView;

    closed spec fn view(&self) -> ForeignBodyView {
        ForeignBodyView {
            library_name: (*self.library_name)@,
            entry_point_name: self.entry_point_name@,
        }
    }
}

impl ForeignBody {
    pub fn new(library_name: Arc<Identifier>, entry_point_name: Identifier) -> (body: Self)
        ensures
            body@.library_name == (*library_name)@,
            body@.entry_point_name == entry_point_name@,
    {
        ForeignBody { library_name, entry_point_name }
    }

    /// The name of the library that the function is defined in.
    pub fn library_name(&self) -> (name: &Arc<Identifier>)
        ensures
            (**name)@ == self@.library_name,
            valid_identifier(self@.library_name),
    {
        let _ = self.library_name.as_bytes();
        &self.library_name
    }

    pub fn entry_point_name(&self) -> (name: &Id)
        ensures
            name@ == self@.entry_point_name,
            valid_identifier(self@.entry_point_name),
    {
        let _ = self.entry_point_name.as_bytes();
        &self.entry_point_name
    }
}

/// The body of a function.
#[derive(Clone, Debug, PartialEq, Eq)]
pub enum Body {
    /// The body is the block at which the function starts.
    Defined(Arc<Block>),
    /// The body is in a library.
    Foreign(Box<ForeignBody>),
}

/// What the body of a function stands for.
pub enum BodyView {
    Defined(BlockView),
    Foreign(ForeignBodyView),
}

impl View for Body {
    type V = BodyView;

    open spec fn view(&self) -> BodyView {
        match self {
            Body::Defined(block) => BodyView::Defined((**block)@),
            Body::Foreign(foreign) => BodyView::Foreign((**foreign)@),
        }
    }
}

/// The flags of a definition: bit 0 is set where the symbol is exported,
/// bit 1 where the body is in a library.
#[derive(Clone, Copy, Debug, PartialEq, Eq, Structural)]
pub struct Flags {
    bits: u8,
}

impl Flags {
    pub closed spec fn value(self) -> u8 {
        self.bits
    }

    /// No flag.
    pub fn none() -> (flags: Flags)
        ensures
            flags.value() == 0,
    {
        Flags { bits: 0 }
    }

    /// The flag of an exported symbol.
    pub fn export() -> (flags: Flags)
        ensures
            flags.value() == 1,
    {
        Flags { bits: 1 }
    }

    /// The flag of a body in a library.
    pub fn foreign() -> (flags: Flags)
        ensures
            flags.value() == 2,
    {
        Flags { bits: 2 }
    }

    /// The flags as a byte.
    pub fn bits(self) -> (bits: u8)
        ensures
            bits == self.value(),
    {
        self.bits
    }
}

impl Body {
    pub fn flags(&self) -> (flags: Flags)
        ensures
            flags.value() == (if self@ is Foreign {
                2u8
            } else {
                0u8
            }),
    {
        match self {
            Body::Defined(_) => Flags::none(),
            Body::Foreign(_) => Flags::foreign(),
        }
    }
}

/// The definition of a function: its body, and whether its symbol is
/// exported.
#[derive(Debug, PartialEq, Eq)]
pub struct Definition {
    body: Body,
    export: Export,
}

/// What the definition of a function stands for.
pub struct DefinitionView {
    pub body: BodyView,
    pub export: Export,
}

impl View for Definition {
    type V = DefinitionView;

    closed spec fn view(&self) -> DefinitionView {
        DefinitionView { body: self.body@, export: self.export }
    }
}

impl Definition {
    pub fn new(body: Body, export: Export) -> (definition: Self)
        ensures
            definition@.body == body@,
            definition@.export == export,
    {
        Definition { body, export }
    }

    pub fn body(&self) -> (body: &Body)
        ensures
            body@ == self@.body,
    {
        &self.body
    }

    pub fn is_export(&self) -> (export: Export)
        ensures
            export == self@.export,
    {
        self.export
    }

    pub fn flags(&self) -> (flags: Flags)
        ensures
            flags.value() == (if self@.export == Export::Yes {
                1u8
            } else {
                0u8
            }) + (if self@.body is Foreign {
                2u8
            } else {
                0u8
            }),
    {
        let body = self.body.flags().bits();
        match self.export {
            Export::Yes => Flags { bits: body + 1 },
            Export::No => Flags { bits: body },
        }
    }
}

/// What is added to a module under a symbol.
#[derive(Debug, PartialEq, Eq)]
pub enum Kind {
    /// A function that the module defines.
    Defined(Definition),
}

impl View for Kind {
    type V = DefinitionView;

    open spec fn view(&self) -> DefinitionView {
        match self {
            Kind::Defined(definition) => definition@,
        }
    }
}

/// A function as a caller names it: the index of its definition among the
/// function definitions of its module, and the function.
#[derive(Clone, Debug)]
pub struct Instantiation {
    index: usize,
    function: Arc<Function>,
}

impl Instantiation {
    /// The index of the definition that is called.
    pub closed spec fn template(&self) -> usize {
        self.index
    }

    /// The function that is called.
    pub closed spec fn callee(&self) -> FunctionView {
        (*self.function)@
    }

    pub fn new(index: usize, function: Arc<Function>) -> (instantiation: Self)
        ensures
            instantiation.template() == index,
            instantiation.callee() == (*function)@,
    {
        Instantiation { index, function }
    }

    /// The index of the definition that is called.
    pub fn index(&self) -> (index: usize)
        ensures
            index == self.template(),
    {
        self.index
    }

    pub fn function(&self) -> (function: &Arc<Function>)
        ensures
            (**function)@ == self.callee(),
    {
        &self.function
    }

    pub fn signature(&self) -> (signature: &Signature)
        ensures
            signature@ == self.callee().signature,
    {
        self.function.signature()
    }
}

} // verus!
