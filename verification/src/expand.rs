//! The expansion as a whole: from the text of a declaration and of the
//! function that it is attached to, to the text of the test entries.

use vstd::prelude::*;
use crate::emit::{emit, emitted_text};
use crate::lexer::{tokenize, tokens_of};
use crate::model::{
    views, BaseFunction, BaseFunctionView, ExpansionResult, ExpansionResultView, NameTokenView,
    Specification, SpecificationView,
};
use crate::naming::{
    case_identifier, explicit_name, group_identifier, group_name, resolve_names, resolved_cases,
};
use crate::normalize::{forwarded_arguments, normalize_all, normalized_all};
use crate::parser::{law_empty_declaration, malformed, parse, parsed};
use crate::syntax::{function_signature, read_signature};
use crate::token::{GrammarError, GrammarErrorKind, TokenView};

verus! {

/// Why an expansion gave nothing.
#[derive(Debug, Clone, Copy, PartialEq, Eq, Structural)]
pub enum ExpansionError {
    /// The declaration does not follow the grammar.
    Grammar(GrammarError),
    /// What the declaration is attached to is not a function.
    NotAFunction,
}

/// What a specification expands to on a base function: the group named by
/// its name token, or else after the base function; the base function as it
/// is; and the cases in the order of their declaration, normalized and named.
pub open spec fn expansion(
    specification: SpecificationView,
    base: BaseFunctionView,
) -> ExpansionResultView {
    ExpansionResultView {
        group_identifier: group_identifier(specification.group_name, base.name),
        body: base,
        cases: resolved_cases(
            normalized_all(specification.cases),
            specification.use_args_for_case_name,
        ),
    }
}

/// Expands a specification on a base function.
pub fn expand(specification: &Specification, base: &BaseFunction) -> (result: ExpansionResult)
    ensures
        result@ == expansion(specification@, base@),
{
    let normalized = normalize_all(&specification.cases);
    let cases = resolve_names(&normalized, specification.use_args_for_case_name);
    ExpansionResult {
        group_identifier: group_name(&specification.group_name, base.name.as_str()),
        body: base.clone(),
        cases,
    }
}

/// The specification that the text of a declaration denotes. A text that
/// cannot be split into tokens is a malformed list of cases at place 0.
pub open spec fn specification_of(declaration: Seq<char>) -> Result<
    SpecificationView,
    GrammarError,
> {
    match tokens_of(declaration) {
        Some(tokens) => parsed(tokens),
        None => Err(malformed(0)),
    }
}

/// The specification of a declaration without any token: no case, no name
/// of the group, and the naming option off.
pub open spec fn empty_specification() -> SpecificationView {
    SpecificationView {
        group_name: NameTokenView::Absent,
        use_args_for_case_name: false,
        cases: Seq::empty(),
    }
}

/// Reads a declaration from its text. An empty text is a legal declaration
/// of no case.
pub fn parse_specification(declaration: &str) -> (result: Result<Specification, GrammarError>)
    ensures
        match result {
            Ok(specification) => specification_of(declaration@) == Ok::<
                SpecificationView,
                GrammarError,
            >(specification@),
            Err(error) => specification_of(declaration@) == Err::<SpecificationView, GrammarError>(
                error,
            ),
        },
        declaration@.len() == 0 ==> (result matches Ok(specification) && specification@
            == empty_specification()),
{
    match tokenize(declaration) {
        Some(tokens) => {
            proof {
                if declaration@.len() == 0 {
                    assert(views(tokens@) =~= Seq::<TokenView>::empty());
                    law_empty_declaration();
                }
            }
            parse(&tokens)
        },
        None => Err(GrammarError { kind: GrammarErrorKind::MalformedCaseList, position: 0 }),
    }
}

/// The base function that the text of an item defines, or nothing where the
/// item is not a function. The source of the base function is the text as
/// it stands.
pub open spec fn base_function_of(item: Seq<char>) -> Option<BaseFunctionView> {
    match function_signature(item) {
        Some((name, is_async)) => Some(BaseFunctionView { name, is_async, source: item }),
        None => None,
    }
}

/// Reads the base function from the text of its item.
pub fn base_function(item: &str) -> (base: Option<BaseFunction>)
    ensures
        match base {
            Some(found) => base_function_of(item@) == Some(found@),
            None => base_function_of(item@) is None,
        },
{
    match read_signature(item) {
        Some((name, is_async)) => Some(
            BaseFunction { name, is_async, source: String::from_str(item) },
        ),
        None => None,
    }
}

/// The text that a declaration expands to on an item. The declaration is
/// read first, so that its error comes before that of the item.
pub open spec fn expanded_text(attr: Seq<char>, item: Seq<char>) -> Result<
    Seq<char>,
    ExpansionError,
> {
    match specification_of(attr) {
        Err(error) => Err(ExpansionError::Grammar(error)),
        Ok(specification) => match base_function_of(item) {
            None => Err(ExpansionError::NotAFunction),
            Some(base) => Ok(emitted_text(expansion(specification, base))),
        },
    }
}

/// Expands the declaration `attr` on the function `item`: the result holds
/// the function, unchanged, and after it a module with one test entry for
/// each declared case. An error gives no part of that. An empty declaration
/// is no error.
pub fn p_test(attr: &str, item: &str) -> (result: Result<String, ExpansionError>)
    ensures
        match result {
            Ok(text) => expanded_text(attr@, item@) == Ok::<Seq<char>, ExpansionError>(text@),
            Err(error) => expanded_text(attr@, item@) == Err::<Seq<char>, ExpansionError>(error),
        },
        attr@.len() == 0 ==> specification_of(attr@) == Ok::<SpecificationView, GrammarError>(
            empty_specification(),
        ),
{
    let specification = match parse_specification(attr) {
        Ok(found) => found,
        Err(error) => {
            return Err(ExpansionError::Grammar(error));
        },
    };
    match base_function(item) {
        Some(base) => Ok(emit(&expand(&specification, &base))),
        None => Err(ExpansionError::NotAFunction),
    }
}

/// Expansion is a function of the specification and the base function: two
/// specifications that denote the same, on base functions that denote the
/// same, expand to the same group, the same identifiers in the same order
/// with the same arguments, and the same emitted text.
pub proof fn law_expansion_is_deterministic(
    first: Specification,
    second: Specification,
    first_base: BaseFunction,
    second_base: BaseFunction,
)
    requires
        first@ == second@,
        first_base@ == second_base@,
    ensures
        expansion(first@, first_base@) == expansion(second@, second_base@),
        emitted_text(expansion(first@, first_base@)) == emitted_text(
            expansion(second@, second_base@),
        ),
{
}

/// Expansion keeps what was declared: the base function is handed on as it
/// is, there is one resolved case for each declared case, in the order of
/// declaration, and each forwards the arguments of its declaration.
pub proof fn law_expansion_keeps_declaration(
    specification: SpecificationView,
    base: BaseFunctionView,
    i: int,
)
    requires
        0 <= i < specification.cases.len(),
    ensures
        expansion(specification, base).body == base,
        expansion(specification, base).cases.len() == specification.cases.len(),
        expansion(specification, base).cases[i].arguments == forwarded_arguments(
            specification.cases[i].body,
        ),
        expansion(specification, base).cases[i].identifier == case_identifier(
            specification.cases[i].name,
            forwarded_arguments(specification.cases[i].body),
            specification.use_args_for_case_name,
            (i + 1) as nat,
            specification.cases.len(),
        ),
{
}

/// The group is named by its name token where that names something, and
/// after the base function in every other case.
pub proof fn law_group_is_named(specification: SpecificationView, base: BaseFunctionView)
    ensures
        specification.group_name.is_explicit() ==> expansion(specification, base).group_identifier
            == explicit_name(specification.group_name)->Some_0,
        !specification.group_name.is_explicit() ==> expansion(
            specification,
            base,
        ).group_identifier == base.name,
{
}

impl ExpansionError {
    /// What the error says to the author of the declaration.
    pub open spec fn message_text(self) -> Seq<char> {
        match self {
            ExpansionError::Grammar(error) => error.kind.message_text(),
            ExpansionError::NotAFunction => "Expected a function"@,
        }
    }

    /// Writes what the error says to the author of the declaration.
    pub fn message(&self) -> (text: String)
        ensures
            text@ == self.message_text(),
    {
        match self {
            ExpansionError::Grammar(error) => error.kind.message(),
            ExpansionError::NotAFunction => String::from_str("Expected a function"),
        }
    }
}

} // verus!
