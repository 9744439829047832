//! The contents of a module, and the check that every index in them refers
//! to something.

use crate::binary::record::{
    CodeBlock, CodeBlockView, FunctionBody, FunctionBodyView, FunctionDefinition,
    FunctionDefinitionView,
};
use crate::binary::record::{MetadataField, Record};
use crate::loader::function::{
    find_beyond, first_beyond, lemma_first_beyond_concat, lemma_none_beyond, lemma_some_beyond,
};
use crate::loader::module::{collected, Tables};
use crate::module::parser::Section;
use crate::binary::signature;
use crate::identifier::Identifier;
use crate::module::{FormatVersion, ModuleIdentifier, ModuleIdentifierView};
use crate::type_system::Any;
use vstd::string::StringExecFns;
use crate::diagnostics::{append_decimal, decimal_text};
use vstd::prelude::*;

verus! {

/// The contents of a module: its records, sorted by their kind.
#[derive(Debug)]
pub struct ModuleContents {
    pub format_version: FormatVersion,
    pub module_identifier: Option<ModuleIdentifier>,
    pub identifiers: Vec<Identifier>,
    pub type_signatures: Vec<Any>,
    pub function_signatures: Vec<signature::Function>,
    pub code_blocks: Vec<CodeBlock>,
    pub function_definitions: Vec<FunctionDefinition>,
}

/// What the contents of a module stand for.
pub struct ModuleContentsView {
    pub format_version: FormatVersion,
    pub module_identifier: Option<ModuleIdentifierView>,
    pub identifiers: Seq<Seq<u8>>,
    pub type_signatures: Seq<Any>,
    pub function_signatures: Seq<signature::FunctionView>,
    pub code_blocks: Seq<CodeBlockView>,
    pub function_definitions: Seq<FunctionDefinitionView>,
}

impl View for ModuleContents {
    type V = ModuleContentsView;

    open spec fn view(&self) -> ModuleContentsView {
        ModuleContentsView {
            format_version: self.format_version,
            module_identifier: match self.module_identifier {
                Some(identifier) => Some(identifier@),
                None => None,
            },
            identifiers: self.identifiers@.map_values(|identifier: Identifier| identifier@),
            type_signatures: self.type_signatures@,
            function_signatures: self.function_signatures@.map_values(
                |signature: signature::Function| signature@,
            ),
            code_blocks: self.code_blocks@.map_values(|block: CodeBlock| block@),
            function_definitions: self.function_definitions@.map_values(
                |definition: FunctionDefinition| definition@,
            ),
        }
    }
}

impl ModuleContentsView {
    /// Whether every index in the contents is below the number of items
    /// that it is an index of: the type indices of function signatures and
    /// of code blocks, and the indices of signatures, code blocks and
    /// library names of function definitions.
    pub open spec fn indices_valid(self) -> bool {
        &&& forall|i: int|
            0 <= i < self.function_signatures.len() ==> (
            #[trigger] self.function_signatures[i]).within(self.type_signatures.len())
        &&& forall|i: int|
            0 <= i < self.code_blocks.len() ==> (#[trigger] self.code_blocks[i]).within(
                self.type_signatures.len(),
            )
        &&& forall|i: int|
            0 <= i < self.function_definitions.len() ==> self.definition_valid(
                #[trigger] self.function_definitions[i],
            )
    }

    /// Whether the indices of a function definition are below the numbers
    /// of items that they are indices of.
    pub open spec fn definition_valid(self, definition: FunctionDefinitionView) -> bool {
        &&& definition.signature < self.function_signatures.len()
        &&& match definition.body {
            FunctionBodyView::Definition(block) => block < self.code_blocks.len(),
            FunctionBodyView::Foreign { library, .. } => library < self.identifiers.len(),
        }
    }
}

} // verus!

verus! {

/// What can be wrong with the contents of a module.
#[derive(Clone, Copy, Debug, PartialEq, Eq, Structural)]
pub enum ErrorKind {
    /// An index is not below the number of items of the section that it
    /// refers to.
    IndexOutOfBounds { section: Section, index: usize },
}

/// An error found in the contents of a module.
#[derive(Clone, Debug)]
pub struct Error(pub Box<ErrorKind>);

impl Error {
    pub fn from_kind(kind: ErrorKind) -> (error: Self)
        ensures
            *error.0 == kind,
    {
        Error(Box::new(kind))
    }

    /// What is wrong.
    pub fn kind(&self) -> (kind: ErrorKind)
        ensures
            kind == *self.0,
    {
        *self.0
    }
}

pub type ValidationResult<T> = Result<T, Error>;

impl ModuleContentsView {
    /// What is wrong with a function signature, if anything: the first of
    /// its type indices, those of the results before those of the
    /// parameters, that refers to no type.
    pub open spec fn signature_error(self, signature: signature::FunctionView) -> Option<
        ErrorKind,
    > {
        match first_beyond(
            signature.return_types + signature.parameter_types,
            self.type_signatures.len(),
        ) {
            Some(index) => Some(
                ErrorKind::IndexOutOfBounds { section: Section::TypeSignatures, index },
            ),
            None => None,
        }
    }

    /// What is wrong with a code block, if anything: the first of its type
    /// indices, those of the inputs before those of the results before
    /// those of the temporaries, that refers to no type.
    pub open spec fn block_error(self, block: CodeBlockView) -> Option<ErrorKind> {
        match first_beyond(
            block.input_types + block.result_types + block.temporary_types,
            self.type_signatures.len(),
        ) {
            Some(index) => Some(
                ErrorKind::IndexOutOfBounds { section: Section::TypeSignatures, index },
            ),
            None => None,
        }
    }

    /// What is wrong with a function definition, if anything: its
    /// signature refers to no function signature, or else its body to no
    /// code block or its library to no identifier.
    pub open spec fn definition_error(self, definition: FunctionDefinitionView) -> Option<
        ErrorKind,
    > {
        if definition.signature >= self.function_signatures.len() {
            Some(
                ErrorKind::IndexOutOfBounds {
                    section: Section::FunctionSignatures,
                    index: definition.signature,
                },
            )
        } else {
            match definition.body {
                FunctionBodyView::Definition(block) => if block >= self.code_blocks.len() {
                    Some(ErrorKind::IndexOutOfBounds { section: Section::CodeBlocks, index: block })
                } else {
                    None
                },
                FunctionBodyView::Foreign { library, .. } => if library >= self.identifiers.len() {
                    Some(
                        ErrorKind::IndexOutOfBounds {
                            section: Section::Identifiers,
                            index: library,
                        },
                    )
                } else {
                    None
                },
            }
        }
    }

    /// What is wrong with each function signature, each code block and each
    /// function definition, in this order.
    pub open spec fn errors(self) -> Seq<Option<ErrorKind>> {
        self.function_signatures.map_values(
            |signature: signature::FunctionView| self.signature_error(signature),
        ) + self.code_blocks.map_values(|block: CodeBlockView| self.block_error(block))
            + self.function_definitions.map_values(
            |definition: FunctionDefinitionView| self.definition_error(definition),
        )
    }

    /// The error with which the contents are refused, if they are: what is
    /// wrong with the first function signature, code block or function
    /// definition with which something is wrong.
    pub open spec fn violation(self) -> Option<ErrorKind> {
        first_error(self.errors())
    }
}

/// The first error of a list.
pub open spec fn first_error(errors: Seq<Option<ErrorKind>>) -> Option<ErrorKind>
    decreases errors.len(),
{
    if errors.len() == 0 {
        None
    } else {
        match errors[0] {
            Some(error) => Some(error),
            None => first_error(errors.drop_first()),
        }
    }
}

/// The first error of a list is the first error behind a part of the list
/// that holds no error.
pub proof fn lemma_first_error(errors: Seq<Option<ErrorKind>>, count: int)
    requires
        0 <= count <= errors.len(),
        forall|i: int| 0 <= i < count ==> (#[trigger] errors[i]).is_none(),
    ensures
        first_error(errors) == first_error(errors.skip(count)),
    decreases count,
{
    if count == 0 {
        assert(errors.skip(0) =~= errors);
    } else {
        assert(errors[0].is_none());
        let rest = errors.drop_first();
        assert forall|i: int| 0 <= i < count - 1 implies (#[trigger] rest[i]).is_none() by {
            assert(rest[i] == errors[i + 1]);
        }
        lemma_first_error(rest, count - 1);
        assert(rest.skip(count - 1) =~= errors.skip(count));
    }
}

/// Contents are refused exactly when some index of them refers to
/// nothing.
pub proof fn lemma_violation(contents: ModuleContentsView)
    ensures
        contents.violation().is_none() == contents.indices_valid(),
{
    let errors = contents.errors();
    let signatures = contents.function_signatures.len() as int;
    let blocks = contents.code_blocks.len() as int;
    let types = contents.type_signatures.len();
    if contents.indices_valid() {
        assert forall|i: int| 0 <= i < errors.len() implies (#[trigger] errors[i]).is_none() by {
            if i < signatures {
                let signature = contents.function_signatures[i];
                assert(signature.within(types));
                let all = signature.return_types + signature.parameter_types;
                if first_beyond(all, types).is_some() {
                    lemma_some_beyond(all, types);
                }
            } else if i < signatures + blocks {
                let block = contents.code_blocks[i - signatures];
                assert(block.within(types));
                let all = block.input_types + block.result_types + block.temporary_types;
                if first_beyond(all, types).is_some() {
                    lemma_some_beyond(all, types);
                }
            } else {
                let definition = contents.function_definitions[i - signatures - blocks];
                assert(contents.definition_valid(definition));
            }
        }
        lemma_first_error(errors, errors.len() as int);
        assert(errors.skip(errors.len() as int) =~= Seq::<Option<ErrorKind>>::empty());
    } else {
        lemma_first_found(errors);
        if contents.violation().is_none() {
            assert forall|i: int| 0 <= i < signatures implies (
            #[trigger] contents.function_signatures[i]).within(types) by {
                let signature = contents.function_signatures[i];
                assert(errors[i].is_none());
                lemma_none_beyond(signature.return_types + signature.parameter_types, types);
                assert forall|j: int| 0 <= j < signature.return_types.len() implies
                    signature.return_types[j] < types by {
                    assert((signature.return_types + signature.parameter_types)[j]
                        == signature.return_types[j]);
                }
                assert forall|j: int| 0 <= j < signature.parameter_types.len() implies
                    signature.parameter_types[j] < types by {
                    assert((signature.return_types + signature.parameter_types)[
                        signature.return_types.len() + j
                    ] == signature.parameter_types[j]);
                }
            }
            assert forall|i: int| 0 <= i < blocks implies (#[trigger] contents.code_blocks[i]).within(
                types,
            ) by {
                let block = contents.code_blocks[i];
                assert(errors[signatures + i].is_none());
                let all = block.input_types + block.result_types + block.temporary_types;
                lemma_none_beyond(all, types);
                assert forall|j: int| 0 <= j < block.input_types.len() implies
                    block.input_types[j] < types by {
                    assert(all[j] == block.input_types[j]);
                }
                assert forall|j: int| 0 <= j < block.result_types.len() implies
                    block.result_types[j] < types by {
                    assert(all[block.input_types.len() + j] == block.result_types[j]);
                }
                assert forall|j: int| 0 <= j < block.temporary_types.len() implies
                    block.temporary_types[j] < types by {
                    assert(all[block.input_types.len() + block.result_types.len() + j]
                        == block.temporary_types[j]);
                }
            }
            assert forall|i: int| 0 <= i < contents.function_definitions.len() implies
                contents.definition_valid(#[trigger] contents.function_definitions[i]) by {
                assert(errors[signatures + blocks + i].is_none());
            }
        }
    }
}

/// Where a list has no first error, it holds no error.
pub proof fn lemma_first_found(errors: Seq<Option<ErrorKind>>)
    ensures
        first_error(errors).is_none() ==> forall|i: int|
            0 <= i < errors.len() ==> (#[trigger] errors[i]).is_none(),
    decreases errors.len(),
{
    if errors.len() > 0 {
        lemma_first_found(errors.drop_first());
        if first_error(errors).is_none() {
            assert forall|i: int| 0 <= i < errors.len() implies (#[trigger] errors[i]).is_none() by {
                if i > 0 {
                    assert(errors.drop_first()[i - 1] == errors[i]);
                }
            }
        }
    }
}

/// The first index of a function signature that refers to no type.
fn signature_beyond(signature: &signature::Function, bound: usize) -> (found: Option<usize>)
    ensures
        found == first_beyond(
            signature@.return_types + signature@.parameter_types,
            bound as nat,
        ),
{
    proof {
        lemma_first_beyond_concat(
            signature@.return_types,
            signature@.parameter_types,
            bound as nat,
        );
    }
    match find_beyond(signature.return_types(), bound) {
        Some(index) => Some(index),
        None => find_beyond(signature.parameter_types(), bound),
    }
}

/// The first type index of a code block that refers to no type.
fn block_beyond(block: &CodeBlock, bound: usize) -> (found: Option<usize>)
    ensures
        found == first_beyond(
            block@.input_types + block@.result_types + block@.temporary_types,
            bound as nat,
        ),
{
    proof {
        lemma_first_beyond_concat(block@.input_types, block@.result_types, bound as nat);
        lemma_first_beyond_concat(
            block@.input_types + block@.result_types,
            block@.temporary_types,
            bound as nat,
        );
    }
    match find_beyond(block.input_types(), bound) {
        Some(index) => Some(index),
        None => match find_beyond(block.result_types(), bound) {
            Some(index) => Some(index),
            None => find_beyond(block.temporary_types(), bound),
        },
    }
}

/// The error of a function definition, if one of its indices refers to
/// nothing.
fn definition_beyond(contents: &ModuleContents, definition: &FunctionDefinition) -> (found: Option<
    ErrorKind,
>)
    ensures
        found == contents@.definition_error(definition@),
{
    if definition.signature() >= contents.function_signatures.len() {
        return Some(
            ErrorKind::IndexOutOfBounds {
                section: Section::FunctionSignatures,
                index: definition.signature(),
            },
        );
    }
    match definition.body() {
        FunctionBody::Definition(block) => {
            if *block >= contents.code_blocks.len() {
                Some(ErrorKind::IndexOutOfBounds { section: Section::CodeBlocks, index: *block })
            } else {
                None
            }
        },
        FunctionBody::Foreign { library, .. } => {
            if *library >= contents.identifiers.len() {
                Some(ErrorKind::IndexOutOfBounds { section: Section::Identifiers, index: *library })
            } else {
                None
            }
        },
    }
}

/// The contents of a module in which every index refers to something.
#[derive(Debug)]
pub struct ValidModule {
    contents: ModuleContents,
}

impl View for ValidModule {
    type V = ModuleContentsView;

    closed spec fn view(&self) -> ModuleContentsView {
        self.contents@
    }
}

impl ValidModule {
    #[verifier::type_invariant]
    spec fn well_formed(self) -> bool {
        self.contents@.indices_valid()
    }

    /// Checks the indices of the contents of a module. The contents are
    /// accepted exactly when every index refers to something. Else the
    /// error names the first index that refers to nothing, and its section:
    /// function signatures are looked at before code blocks, and code
    /// blocks before function definitions.
    pub fn from_contents(contents: ModuleContents) -> (checked: ValidationResult<ValidModule>)
        ensures
            match checked {
                Ok(valid) => valid@ == contents@ && contents@.indices_valid(),
                Err(error) => !contents@.indices_valid() && contents@.violation() == Some(
                    *error.0,
                ),
            },
    {
        let ghost errors = contents@.errors();
        let ghost signatures = contents@.function_signatures.len() as int;
        let ghost blocks = contents@.code_blocks.len() as int;
        let types = contents.type_signatures.len();
        let mut index: usize = 0;
        while index < contents.function_signatures.len()
            invariant
                index <= contents.function_signatures@.len(),
                types == contents@.type_signatures.len(),
                errors == contents@.errors(),
                forall|i: int| 0 <= i < index ==> (#[trigger] errors[i]).is_none(),
            decreases contents.function_signatures@.len() - index,
        {
            proof {
                assert(contents@.function_signatures[index as int]
                    == contents.function_signatures@[index as int]@);
            }
            match signature_beyond(&contents.function_signatures[index], types) {
                Some(beyond) => {
                    proof {
                        lemma_violation(contents@);
                        lemma_first_error(errors, index as int);
                        assert(errors.skip(index as int)[0] == errors[index as int]);
                    }
                    return Err(
                        Error::from_kind(
                            ErrorKind::IndexOutOfBounds {
                                section: Section::TypeSignatures,
                                index: beyond,
                            },
                        ),
                    );
                },
                None => {},
            }
            index += 1;
        }
        let mut index: usize = 0;
        while index < contents.code_blocks.len()
            invariant
                index <= contents.code_blocks@.len(),
                types == contents@.type_signatures.len(),
                errors == contents@.errors(),
                signatures == contents@.function_signatures.len(),
                forall|i: int| 0 <= i < signatures + index ==> (#[trigger] errors[i]).is_none(),
            decreases contents.code_blocks@.len() - index,
        {
            proof {
                assert(contents@.code_blocks[index as int] == contents.code_blocks@[index as int]@);
            }
            match block_beyond(&contents.code_blocks[index], types) {
                Some(beyond) => {
                    proof {
                        lemma_violation(contents@);
                        lemma_first_error(errors, signatures + index);
                        assert(errors.skip(signatures + index)[0] == errors[signatures + index]);
                    }
                    return Err(
                        Error::from_kind(
                            ErrorKind::IndexOutOfBounds {
                                section: Section::TypeSignatures,
                                index: beyond,
                            },
                        ),
                    );
                },
                None => {},
            }
            index += 1;
        }
        let mut index: usize = 0;
        while index < contents.function_definitions.len()
            invariant
                index <= contents.function_definitions@.len(),
                errors == contents@.errors(),
                signatures == contents@.function_signatures.len(),
                blocks == contents@.code_blocks.len(),
                forall|i: int|
                    0 <= i < signatures + blocks + index ==> (#[trigger] errors[i]).is_none(),
            decreases contents.function_definitions@.len() - index,
        {
            let definition = &contents.function_definitions[index];
            proof {
                assert(contents@.function_definitions[index as int] == definition@);
            }
            match definition_beyond(&contents, definition) {
                Some(error) => {
                    proof {
                        let at = signatures + blocks + index;
                        lemma_violation(contents@);
                        lemma_first_error(errors, at);
                        assert(errors.skip(at)[0] == errors[at]);
                    }
                    return Err(Error::from_kind(error));
                },
                None => {},
            }
            index += 1;
        }
        proof {
            lemma_violation(contents@);
            lemma_first_error(errors, errors.len() as int);
            assert(errors.skip(errors.len() as int) =~= Seq::<Option<ErrorKind>>::empty());
        }
        Ok(ValidModule { contents })
    }

    /// The contents, in which every index refers to something.
    pub fn contents(&self) -> (contents: &ModuleContents)
        ensures
            contents@ == self@,
            self@.indices_valid(),
    {
        proof {
            use_type_invariant(self);
        }
        &self.contents
    }

    /// The contents, in which every index refers to something.
    pub fn into_contents(self) -> (contents: ModuleContents)
        ensures
            contents@ == self@,
            self@.indices_valid(),
    {
        proof {
            use_type_invariant(&self);
        }
        self.contents
    }
}

} // verus!

verus! {

/// The contents that the tables of the records of a module make up, in the
/// given version of the format.
pub open spec fn contents_of(format_version: FormatVersion, tables: Tables) -> ModuleContentsView {
    ModuleContentsView {
        format_version,
        module_identifier: tables.module_identifier,
        identifiers: tables.identifiers,
        type_signatures: tables.type_signatures,
        function_signatures: tables.function_signatures,
        code_blocks: tables.code_blocks,
        function_definitions: tables.function_definitions,
    }
}

/// The records that contents are made up of: the name of the module, then
/// the identifiers, the type signatures, the function signatures, the code
/// blocks and the function definitions, each kind in its order.
pub open spec fn tables_of(contents: ModuleContentsView) -> Tables {
    Tables {
        module_identifier: contents.module_identifier,
        entry_point: None,
        identifiers: contents.identifiers,
        type_signatures: contents.type_signatures,
        function_signatures: contents.function_signatures,
        data: Seq::empty(),
        code_blocks: contents.code_blocks,
        function_definitions: contents.function_definitions,
        function_imports: Seq::empty(),
        function_instantiations: Seq::empty(),
    }
}

impl ModuleContents {
    /// Contents without records, in the oldest version of the format that
    /// is read.
    pub fn new() -> (contents: ModuleContents)
        ensures
            contents@ == contents_of(FormatVersion::minimum_supported(), Tables::empty()),
    {
        let contents = ModuleContents {
            format_version: FormatVersion::new_minimum_supported(),
            module_identifier: None,
            identifiers: Vec::new(),
            type_signatures: Vec::new(),
            function_signatures: Vec::new(),
            code_blocks: Vec::new(),
            function_definitions: Vec::new(),
        };
        proof {
            assert(contents@.identifiers =~= Seq::<Seq<u8>>::empty());
            assert(contents@.function_signatures =~= Seq::<signature::FunctionView>::empty());
            assert(contents@.code_blocks =~= Seq::<CodeBlockView>::empty());
            assert(contents@.function_definitions =~= Seq::<FunctionDefinitionView>::empty());
        }
        contents
    }

    /// The contents with one more record. Records of the kinds that the
    /// contents do not hold are passed over: the entry point, data,
    /// function instantiations and function imports.
    pub fn add_record(&mut self, record: Record)
        ensures
            final(self)@.format_version == old(self)@.format_version,
            forall|tables: Tables|
                old(self)@ == contents_of(old(self)@.format_version, tables) ==> final(self)@
                    == contents_of(old(self)@.format_version, #[trigger] tables.added(record)),
    {
        let ghost before = self@;
        match record {
            Record::MetadataField(MetadataField::ModuleIdentifier { name, version }) => {
                self.module_identifier = Some(ModuleIdentifier::new(name, version));
            },
            Record::MetadataField(MetadataField::EntryPoint(_)) => {},
            Record::Identifier(identifier) => {
                self.identifiers.push(identifier);
                proof {
                    assert(self@.identifiers =~= before.identifiers.push(identifier@));
                }
            },
            Record::TypeSignature(value_type) => {
                self.type_signatures.push(value_type);
            },
            Record::FunctionSignature(signature) => {
                self.function_signatures.push(signature);
                proof {
                    assert(self@.function_signatures =~= before.function_signatures.push(
                        signature@,
                    ));
                }
            },
            Record::Data(_) => {},
            Record::CodeBlock(block) => {
                self.code_blocks.push(*block);
                proof {
                    assert(self@.code_blocks =~= before.code_blocks.push((*block)@));
                }
            },
            Record::FunctionDefinition(definition) => {
                self.function_definitions.push(*definition);
                proof {
                    assert(self@.function_definitions =~= before.function_definitions.push(
                        (*definition)@,
                    ));
                }
            },
            Record::FunctionInstantiation(_) => {},
            Record::FunctionImport(_) => {},
        }
    }

    /// The contents that records make up, in the oldest version of the
    /// format that is read.
    pub fn from_records(records: Vec<Record>) -> (contents: ModuleContents)
        ensures
            contents@ == contents_of(FormatVersion::minimum_supported(), collected(records@)),
    {
        let mut contents = ModuleContents::new();
        let ghost all = records@;
        proof {
            assert(all.take(0) =~= Seq::<Record>::empty());
        }
        for record in iter: records
            invariant
                all == records@,
                contents@ == contents_of(
                    FormatVersion::minimum_supported(),
                    collected(all.take(iter.index() as int)),
                ),
        {
            let ghost count = iter.index() as int;
            assert(all.take(count + 1).drop_last() =~= all.take(count));
            assert(all.take(count + 1).last() == record);
            let ghost tables = collected(all.take(count));
            contents.add_record(record);
            assert(contents@ == contents_of(
                FormatVersion::minimum_supported(),
                tables.added(record),
            ));
        }
        proof {
            assert(all.take(all.len() as int) =~= all);
        }
        contents
    }

    /// The records of the contents: the name of the module, then the
    /// identifiers, the type signatures, the function signatures, the code
    /// blocks and the function definitions.
    pub fn into_records(self) -> (records: Vec<Record>)
        ensures
            collected(records@) == tables_of(self@),
    {
        let ghost all = self@;
        let ModuleContents {
            format_version,
            module_identifier,
            identifiers,
            type_signatures,
            function_signatures,
            code_blocks,
            function_definitions,
        } = self;
        let mut records: Vec<Record> = Vec::new();
        match module_identifier {
            Some(identifier) => {
                let name = identifier.name().clone();
                let version = vstd::slice::slice_to_vec(identifier.version());
                let record = Record::MetadataField(
                    MetadataField::ModuleIdentifier { name, version },
                );
                proof {
                    assert(records@.push(record).drop_last() =~= records@);
                }
                records.push(record);
            },
            None => {},
        }
        proof {
            assert(all.identifiers.take(0) =~= Seq::<Seq<u8>>::empty());
            assert(all.type_signatures.take(0) =~= Seq::<Any>::empty());
            assert(all.function_signatures.take(0) =~= Seq::<signature::FunctionView>::empty());
            assert(all.code_blocks.take(0) =~= Seq::<CodeBlockView>::empty());
            assert(all.function_definitions.take(0) =~= Seq::<FunctionDefinitionView>::empty());
            assert(collected(Seq::<Record>::empty()) == Tables::empty());
            if records@.len() > 0 {
                assert(records@.len() == 1);
                assert(records@.drop_last() =~= Seq::<Record>::empty());
                assert(collected(records@) == collected(records@.drop_last()).added(
                    records@.last(),
                ));
            }
        }
        assert(collected(records@) == part_of(all, 0, 0, 0, 0, 0));
        for identifier in iter: identifiers
            invariant
                iter.seq().map_values(|identifier: Identifier| identifier@) == all.identifiers,
                collected(records@) == part_of(all, iter.index() as int, 0, 0, 0, 0),
        {
            let record = Record::Identifier(identifier);
            proof {
                assert(records@.push(record).drop_last() =~= records@);
                assert(all.identifiers.take(iter.index() + 1) =~= all.identifiers.take(
                    iter.index() as int,
                ).push(identifier@));
            }
            records.push(record);
        }
        let ghost a = all.identifiers.len() as int;
        proof {
            assert(all.type_signatures.take(0) =~= Seq::<Any>::empty());
        }
        for value_type in iter: type_signatures
            invariant
                iter.seq() == all.type_signatures,
                a == all.identifiers.len(),
                collected(records@) == part_of(all, a, iter.index() as int, 0, 0, 0),
        {
            let record = Record::TypeSignature(value_type);
            proof {
                assert(records@.push(record).drop_last() =~= records@);
                assert(all.type_signatures.take(iter.index() + 1) =~= all.type_signatures.take(
                    iter.index() as int,
                ).push(value_type));
            }
            records.push(record);
        }
        let ghost b = all.type_signatures.len() as int;
        proof {
            assert(all.function_signatures.take(0) =~= Seq::<signature::FunctionView>::empty());
        }
        for signature in iter: function_signatures
            invariant
                iter.seq().map_values(|signature: signature::Function| signature@)
                    == all.function_signatures,
                a == all.identifiers.len(),
                b == all.type_signatures.len(),
                collected(records@) == part_of(all, a, b, iter.index() as int, 0, 0),
        {
            let record = Record::FunctionSignature(signature);
            proof {
                assert(records@.push(record).drop_last() =~= records@);
                assert(all.function_signatures.take(iter.index() + 1)
                    =~= all.function_signatures.take(iter.index() as int).push(signature@));
            }
            records.push(record);
        }
        let ghost c = all.function_signatures.len() as int;
        proof {
            assert(all.code_blocks.take(0) =~= Seq::<CodeBlockView>::empty());
        }
        for block in iter: code_blocks
            invariant
                iter.seq().map_values(|block: CodeBlock| block@) == all.code_blocks,
                a == all.identifiers.len(),
                b == all.type_signatures.len(),
                c == all.function_signatures.len(),
                collected(records@) == part_of(all, a, b, c, iter.index() as int, 0),
        {
            let record = Record::CodeBlock(Box::new(block));
            proof {
                assert(records@.push(record).drop_last() =~= records@);
                assert(all.code_blocks.take(iter.index() + 1) =~= all.code_blocks.take(
                    iter.index() as int,
                ).push(block@));
            }
            records.push(record);
        }
        let ghost d = all.code_blocks.len() as int;
        proof {
            assert(all.function_definitions.take(0) =~= Seq::<FunctionDefinitionView>::empty());
        }
        for definition in iter: function_definitions
            invariant
                iter.seq().map_values(|definition: FunctionDefinition| definition@)
                    == all.function_definitions,
                a == all.identifiers.len(),
                b == all.type_signatures.len(),
                c == all.function_signatures.len(),
                d == all.code_blocks.len(),
                collected(records@) == part_of(all, a, b, c, d, iter.index() as int),
        {
            let record = Record::FunctionDefinition(Box::new(definition));
            proof {
                assert(records@.push(record).drop_last() =~= records@);
                assert(all.function_definitions.take(iter.index() + 1)
                    =~= all.function_definitions.take(iter.index() as int).push(definition@));
            }
            records.push(record);
        }
        proof {
            assert(all.identifiers.take(a) =~= all.identifiers);
            assert(all.type_signatures.take(b) =~= all.type_signatures);
            assert(all.function_signatures.take(c) =~= all.function_signatures);
            assert(all.code_blocks.take(d) =~= all.code_blocks);
            assert(all.function_definitions.take(all.function_definitions.len() as int)
                =~= all.function_definitions);
        }
        records
    }
}

/// The tables of the first records of contents: the name of the module and
/// the given numbers of the first items of each kind.
pub open spec fn part_of(
    contents: ModuleContentsView,
    identifiers: int,
    types: int,
    signatures: int,
    blocks: int,
    definitions: int,
) -> Tables {
    Tables {
        module_identifier: contents.module_identifier,
        entry_point: None,
        identifiers: contents.identifiers.take(identifiers),
        type_signatures: contents.type_signatures.take(types),
        function_signatures: contents.function_signatures.take(signatures),
        data: Seq::empty(),
        code_blocks: contents.code_blocks.take(blocks),
        function_definitions: contents.function_definitions.take(definitions),
        function_imports: Seq::empty(),
        function_instantiations: Seq::empty(),
    }
}

} // verus!

verus! {

impl ValidModule {
    /// Checks the contents that records make up.
    pub fn from_records(records: Vec<Record>) -> (checked: ValidationResult<ValidModule>)
        ensures
            ({
                let contents = contents_of(
                    FormatVersion::minimum_supported(),
                    collected(records@),
                );
                match checked {
                    Ok(valid) => valid@ == contents && contents.indices_valid(),
                    Err(error) => !contents.indices_valid() && contents.violation() == Some(*error.0),
                }
            }),
    {
        ValidModule::from_contents(ModuleContents::from_records(records))
    }

    /// Checks the contents that records make up, where every record could
    /// be had; else the first error with which a record could not be had
    /// is handed back.
    pub fn from_records_fallible<E>(records: Vec<Result<Record, E>>) -> (checked: Result<
        ValidationResult<ValidModule>,
        E,
    >)
        ensures
            match checked {
                Ok(checked) => {
                    let contents = contents_of(
                        FormatVersion::minimum_supported(),
                        collected(records_had(records@)),
                    );
                    &&& forall|i: int|
                        0 <= i < records@.len() ==> (#[trigger] records@[i]).is_ok()
                    &&& match checked {
                        Ok(valid) => valid@ == contents && contents.indices_valid(),
                        Err(error) => !contents.indices_valid() && contents.violation() == Some(*error.0),
                    }
                },
                Err(error) => exists|i: int|
                    0 <= i < records@.len() && #[trigger] records@[i] == Err::<Record, E>(error)
                        && forall|j: int| 0 <= j < i ==> (#[trigger] records@[j]).is_ok(),
            },
    {
        let mut had: Vec<Record> = Vec::new();
        let ghost all = records@;
        for record in iter: records
            invariant
                all == records@,
                forall|j: int| 0 <= j < iter.index() ==> (#[trigger] all[j]).is_ok(),
                had@ == records_had(all.take(iter.index() as int)),
        {
            proof {
                assert(all.take(iter.index() + 1).drop_last() =~= all.take(iter.index() as int));
            }
            match record {
                Ok(record) => {
                    had.push(record);
                },
                Err(error) => {
                    assert(all[iter.index() as int] == Err::<Record, E>(error));
                    return Err(error);
                },
            }
            proof {
                assert(had@ =~= records_had(all.take(iter.index() + 1)));
            }
        }
        proof {
            assert(all.take(all.len() as int) =~= all);
        }
        Ok(ValidModule::from_records(had))
    }
}

/// The records of a list in which every record could be had.
pub open spec fn records_had<E>(records: Seq<Result<Record, E>>) -> Seq<Record> {
    records.map_values(|record: Result<Record, E>| record->Ok_0)
}

impl ErrorKind {
    /// The line of text that the error is shown as.
    pub open spec fn text(self) -> Seq<char> {
        match self {
            ErrorKind::IndexOutOfBounds { section, index } => "the index "@
                + decimal_text(index as nat)
                + " is out of the bounds of the "@
                + section.text(),
        }
    }

    /// The error as one line of text.
    pub fn message(&self) -> (message: String)
        ensures
            message@ == self.text(),
    {
        match self {
            ErrorKind::IndexOutOfBounds { section, index } => {
                let mut message = String::from_str("the index ");
                append_decimal(&mut message, *index);
                message.append(" is out of the bounds of the ");
                message.append(section.name().as_str());
                message
            },
        }
    }
}

} // verus!
