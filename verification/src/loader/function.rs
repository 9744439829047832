//! What is asked of loaded modules: the signatures and the bodies of
//! functions.

use crate::binary::record::FunctionBodyView;
use crate::binary::signature;
use crate::function::Signature as FunctionSignature;
use crate::block::{Block, BlockView};
use crate::function::{ForeignBodyView, SignatureView};
use crate::identifier::Identifier;
use crate::loader::error::{LoaderError, LoaderErrorView};
use crate::loader::module::Tables;
use crate::module::parser::Section;
use crate::module::resolve::{expanded_block, expanded_signature};
use crate::type_system::Any;
use std::sync::Arc;
use vstd::prelude::*;

verus! {

/// The first index of a list that is not below a bound.
pub open spec fn first_beyond(indices: Seq<usize>, bound: nat) -> Option<usize>
    decreases indices.len(),
{
    if indices.len() == 0 {
        None
    } else if indices[0] >= bound {
        Some(indices[0])
    } else {
        first_beyond(indices.drop_first(), bound)
    }
}

/// Where no index of a list is beyond a bound, all indices are below it.
pub proof fn lemma_none_beyond(indices: Seq<usize>, bound: nat)
    requires
        first_beyond(indices, bound).is_none(),
    ensures
        forall|i: int| 0 <= i < indices.len() ==> indices[i] < bound,
    decreases indices.len(),
{
    if indices.len() > 0 {
        lemma_none_beyond(indices.drop_first(), bound);
        assert forall|i: int| 0 <= i < indices.len() implies indices[i] < bound by {
            if i > 0 {
                assert(indices.drop_first()[i - 1] == indices[i]);
            }
        }
    }
}

/// The first index of a list that is not below a bound is an index of the
/// list that is not below the bound.
pub proof fn lemma_some_beyond(indices: Seq<usize>, bound: nat)
    requires
        first_beyond(indices, bound).is_some(),
    ensures
        first_beyond(indices, bound).unwrap() >= bound,
        indices.contains(first_beyond(indices, bound).unwrap()),
    decreases indices.len(),
{
    if indices[0] >= bound {
        assert(indices[0] == first_beyond(indices, bound).unwrap());
    } else {
        lemma_some_beyond(indices.drop_first(), bound);
        let found = first_beyond(indices, bound).unwrap();
        let at = choose|at: int|
            0 <= at < indices.drop_first().len() && indices.drop_first()[at] == found;
        assert(indices[at + 1] == found);
    }
}

/// The first index beyond a bound of two lists put together is that of the
/// first list, and that of the second where the first has none.
pub proof fn lemma_first_beyond_concat(first: Seq<usize>, second: Seq<usize>, bound: nat)
    ensures
        first_beyond(first + second, bound) == (match first_beyond(first, bound) {
            Some(index) => Some(index),
            None => first_beyond(second, bound),
        }),
    decreases first.len(),
{
    if first.len() == 0 {
        assert(first + second =~= second);
    } else {
        assert((first + second).drop_first() =~= first.drop_first() + second);
        lemma_first_beyond_concat(first.drop_first(), second, bound);
    }
}

/// The first index of a list that is not below a bound.
pub fn find_beyond(indices: &[usize], bound: usize) -> (found: Option<usize>)
    ensures
        found == first_beyond(indices@, bound as nat),
{
    let mut position: usize = indices.len();
    let mut found: Option<usize> = None;
    proof {
        assert(indices@.skip(position as int) =~= Seq::<usize>::empty());
    }
    while position > 0
        invariant
            position <= indices@.len(),
            found == first_beyond(indices@.skip(position as int), bound as nat),
        decreases position,
    {
        position -= 1;
        proof {
            assert(indices@.skip(position as int).drop_first() =~= indices@.skip(position + 1));
        }
        if indices[position] >= bound {
            found = Some(indices[position]);
        }
    }
    proof {
        assert(indices@.skip(0) =~= indices@);
    }
    found
}

/// The signature of a function of a loaded module.
#[derive(Debug)]
pub struct Signature {
    index: usize,
    module: usize,
    signature: Arc<FunctionSignature>,
}

/// What the signature of a function of a loaded module stands for.
pub struct LoadedSignatureView {
    pub index: usize,
    pub module: usize,
    pub signature: SignatureView,
}

impl View for Signature {
    type V = LoadedSignatureView;

    closed spec fn view(&self) -> LoadedSignatureView {
        LoadedSignatureView {
            index: self.index,
            module: self.module,
            signature: (*self.signature)@,
        }
    }
}

impl Signature {
    pub(crate) fn new(index: usize, module: usize, signature: Arc<FunctionSignature>) -> (loaded:
        Self)
        ensures
            loaded@ == (LoadedSignatureView { index, module, signature: (*signature)@ }),
    {
        Signature { index, module, signature }
    }

    /// The index of the signature among the function signatures of its
    /// module.
    pub fn index(&self) -> (index: usize)
        ensures
            index == self@.index,
    {
        self.index
    }

    /// The loader's number of the module of the signature.
    pub fn module(&self) -> (module: usize)
        ensures
            module == self@.module,
    {
        self.module
    }

    /// The types of the results and then those of the parameters.
    pub fn types(&self) -> (types: Vec<Any>)
        ensures
            types@ == self@.signature.result_types + self@.signature.parameter_types,
    {
        let mut types = vstd::slice::slice_to_vec(self.signature.result_types());
        let mut parameters = vstd::slice::slice_to_vec(self.signature.parameter_types());
        types.append(&mut parameters);
        types
    }

    pub fn return_types(&self) -> (types: &[Any])
        ensures
            types@ == self@.signature.result_types,
    {
        self.signature.result_types()
    }

    pub fn parameter_types(&self) -> (types: &[Any])
        ensures
            types@ == self@.signature.parameter_types,
    {
        self.signature.parameter_types()
    }

    /// The signature as one line of text: the types of the parameters and
    /// the types of the results.
    pub fn message(&self) -> (message: String)
        ensures
            message@ == self@.signature.text(),
    {
        self.signature.message()
    }

    /// A copy of the signature, which shares the types.
    pub fn duplicate(&self) -> (copy: Self)
        ensures
            copy@ == self@,
    {
        Signature { index: self.index, module: self.module, signature: self.signature.clone() }
    }
}

/// The body of a function of a loaded module.
#[derive(Debug)]
pub enum Body {
    /// The body is a code block of the module.
    Defined(Arc<Block>),
    /// The body is in the library of the given name, under the given name.
    Foreign { library: Identifier, entry_point: Identifier },
}

/// What the body of a function of a loaded module stands for.
pub enum LoadedBodyView {
    Defined(BlockView),
    Foreign(ForeignBodyView),
}

impl View for Body {
    type V = LoadedBodyView;

    open spec fn view(&self) -> LoadedBodyView {
        match self {
            Body::Defined(block) => LoadedBodyView::Defined((**block)@),
            Body::Foreign { library, entry_point } => LoadedBodyView::Foreign(
                ForeignBodyView { library_name: library@, entry_point_name: entry_point@ },
            ),
        }
    }
}

/// What the function of an instantiation is: the definition of the given
/// position of the module of the given number.
#[derive(Clone, Copy, Debug, PartialEq, Eq, Structural)]
pub struct Template {
    pub module: usize,
    pub definition: usize,
}

/// What asking for the function signature of an index of a module comes
/// to: the signature with the types at its type indices, or the first index
/// that refers to nothing.
pub open spec fn resolved_signature(tables: Tables, index: usize) -> Result<
    SignatureView,
    LoaderErrorView,
> {
    if index >= tables.function_signatures.len() {
        Err(LoaderErrorView::IndexOutOfBounds { section: Section::FunctionSignatures, index })
    } else {
        let record = tables.function_signatures[index as int];
        match first_beyond(
            record.return_types + record.parameter_types,
            tables.type_signatures.len(),
        ) {
            Some(beyond) => Err(
                LoaderErrorView::IndexOutOfBounds {
                    section: Section::TypeSignatures,
                    index: beyond,
                },
            ),
            None => Ok(expanded_signature(tables.type_signatures, record)),
        }
    }
}

/// What asking for the code block of an index of a module comes to: the
/// block with the types at its type indices, or the first index that
/// refers to nothing.
pub open spec fn resolved_block(tables: Tables, index: usize) -> Result<BlockView, LoaderErrorView> {
    if index >= tables.code_blocks.len() {
        Err(LoaderErrorView::IndexOutOfBounds { section: Section::CodeBlocks, index })
    } else {
        let record = tables.code_blocks[index as int];
        match first_beyond(
            record.input_types + record.result_types + record.temporary_types,
            tables.type_signatures.len(),
        ) {
            Some(beyond) => Err(
                LoaderErrorView::IndexOutOfBounds {
                    section: Section::TypeSignatures,
                    index: beyond,
                },
            ),
            None => Ok(expanded_block(tables.type_signatures, record)),
        }
    }
}

/// What asking for the signature of the definition of a position comes to.
pub open spec fn resolved_definition_signature(tables: Tables, definition: usize) -> Result<
    SignatureView,
    LoaderErrorView,
> {
    if definition >= tables.function_definitions.len() {
        Err(
            LoaderErrorView::IndexOutOfBounds {
                section: Section::FunctionDefinitions,
                index: definition,
            },
        )
    } else {
        resolved_signature(tables, tables.function_definitions[definition as int].signature)
    }
}

/// What asking for the body of the definition of a position comes to.
pub open spec fn resolved_body(tables: Tables, definition: usize) -> Result<
    LoadedBodyView,
    LoaderErrorView,
> {
    if definition >= tables.function_definitions.len() {
        Err(
            LoaderErrorView::IndexOutOfBounds {
                section: Section::FunctionDefinitions,
                index: definition,
            },
        )
    } else {
        match tables.function_definitions[definition as int].body {
            FunctionBodyView::Definition(block) => match resolved_block(tables, block) {
                Ok(resolved) => Ok(LoadedBodyView::Defined(resolved)),
                Err(error) => Err(error),
            },
            FunctionBodyView::Foreign { library, entry_point } => if library
                >= tables.identifiers.len() {
                Err(
                    LoaderErrorView::IndexOutOfBounds {
                        section: Section::Identifiers,
                        index: library,
                    },
                )
            } else {
                Ok(
                    LoadedBodyView::Foreign(
                        ForeignBodyView {
                            library_name: tables.identifiers[library as int],
                            entry_point_name: entry_point,
                        },
                    ),
                )
            },
        }
    }
}

/// What a result of asking for something of a loaded module stands for.
pub open spec fn signature_outcome(result: Result<Arc<FunctionSignature>, LoaderError>) -> Result<
    SignatureView,
    LoaderErrorView,
> {
    match result {
        Ok(signature) => Ok((*signature)@),
        Err(error) => Err(error@),
    }
}

/// What a result of asking for a code block stands for.
pub open spec fn block_outcome(result: Result<Arc<Block>, LoaderError>) -> Result<
    BlockView,
    LoaderErrorView,
> {
    match result {
        Ok(block) => Ok((*block)@),
        Err(error) => Err(error@),
    }
}

/// What a result of asking for a body stands for.
pub open spec fn body_outcome(result: Result<Body, LoaderError>) -> Result<
    LoadedBodyView,
    LoaderErrorView,
> {
    match result {
        Ok(body) => Ok(body@),
        Err(error) => Err(error@),
    }
}

} // verus!
