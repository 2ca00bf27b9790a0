//! The data that an expansion works on, each type with its mathematical view.

use vstd::prelude::*;

verus! {

/// The views of the items of a sequence, in order.
pub open spec fn views<T: View>(items: Seq<T>) -> Seq<T::V> {
    items.map_values(|item: T| item@)
}

/// Taking the views commutes with appending an item.
pub proof fn lemma_views_push<T: View>(items: Seq<T>, item: T)
    ensures
        views(items.push(item)) == views(items).push(item@),
{
    assert(views(items.push(item)) =~= views(items).push(item@));
}

/// The name given to a group or to a case: an identifier, a string, or none.
#[derive(Debug, PartialEq, Eq)]
pub enum NameToken {
    Identifier(String),
    StringLiteral(String),
    Absent,
}

/// What a `NameToken` stands for.
pub enum NameTokenView {
    Identifier(Seq<char>),
    StringLiteral(Seq<char>),
    Absent,
}

impl View for NameToken {
    type V = NameTokenView;

    open spec fn view(&self) -> NameTokenView {
        match self {
            NameToken::Identifier(text) => NameTokenView::Identifier(text@),
            NameToken::StringLiteral(text) => NameTokenView::StringLiteral(text@),
            NameToken::Absent => NameTokenView::Absent,
        }
    }
}

impl NameTokenView {
    /// Whether the token names something by itself: an identifier, or a
    /// string that is not empty.
    pub open spec fn is_explicit(self) -> bool {
        match self {
            NameTokenView::Identifier(_) => true,
            NameTokenView::StringLiteral(text) => text.len() > 0,
            NameTokenView::Absent => false,
        }
    }
}

impl Clone for NameToken {
    fn clone(&self) -> (copy: Self)
        ensures
            copy@ == self@,
    {
        match self {
            NameToken::Identifier(text) => NameToken::Identifier(text.clone()),
            NameToken::StringLiteral(text) => NameToken::StringLiteral(text.clone()),
            NameToken::Absent => NameToken::Absent,
        }
    }
}

/// One argument of a case: an opaque unit, known by its canonical text and
/// by whether it is a single parenthesized unit.
#[derive(Debug, PartialEq, Eq)]
pub struct Expression {
    pub text: String,
    pub parenthesized: bool,
}

/// What an `Expression` stands for.
pub struct ExpressionView {
    pub text: Seq<char>,
    pub parenthesized: bool,
}

impl View for Expression {
    type V = ExpressionView;

    open spec fn view(&self) -> ExpressionView {
        ExpressionView { text: self.text@, parenthesized: self.parenthesized }
    }
}

impl Clone for Expression {
    fn clone(&self) -> (copy: Self)
        ensures
            copy@ == self@,
    {
        Expression { text: self.text.clone(), parenthesized: self.parenthesized }
    }
}

/// Copies a list of expressions.
pub fn clone_expressions(items: &Vec<Expression>) -> (copy: Vec<Expression>)
    ensures
        views(copy@) == views(items@),
{
    let mut copy: Vec<Expression> = Vec::new();
    let mut i: usize = 0;
    while i < items.len()
        invariant
            i <= items.len(),
            views(copy@) == views(items@.take(i as int)),
        decreases items.len() - i,
    {
        let ghost before = copy@;
        let item = items[i].clone();
        copy.push(item);
        proof {
            lemma_views_push(before, item);
            lemma_views_push(items@.take(i as int), items@[i as int]);
            assert(items@.take(i + 1) =~= items@.take(i as int).push(items@[i as int]));
        }
        i += 1;
    }
    assert(items@.take(items.len() as int) =~= items@);
    copy
}

/// The arguments of a case as they were declared: a flat list, or one
/// parenthesized unit of arguments with, perhaps, an expected value.
#[derive(Debug, PartialEq, Eq)]
pub enum RawArgumentForm {
    Flat(Vec<Expression>),
    Grouped(Expression, Option<Expression>),
}

/// What a `RawArgumentForm` stands for.
pub enum RawArgumentFormView {
    Flat(Seq<ExpressionView>),
    Grouped(ExpressionView, Option<ExpressionView>),
}

impl View for RawArgumentForm {
    type V = RawArgumentFormView;

    open spec fn view(&self) -> RawArgumentFormView {
        match self {
            RawArgumentForm::Flat(items) => RawArgumentFormView::Flat(views(items@)),
            RawArgumentForm::Grouped(args, expected) => RawArgumentFormView::Grouped(
                args@,
                match expected {
                    Some(value) => Some(value@),
                    None => None,
                },
            ),
        }
    }
}

/// One declared case: its name and its arguments.
#[derive(Debug, PartialEq, Eq)]
pub struct CaseDeclaration {
    pub name: NameToken,
    pub body: RawArgumentForm,
}

/// What a `CaseDeclaration` stands for.
pub struct CaseDeclarationView {
    pub name: NameTokenView,
    pub body: RawArgumentFormView,
}

impl View for CaseDeclaration {
    type V = CaseDeclarationView;

    open spec fn view(&self) -> CaseDeclarationView {
        CaseDeclarationView { name: self.name@, body: self.body@ }
    }
}

/// A whole declaration: the name of the group, the naming option, and the
/// cases in the order in which they were declared.
#[derive(Debug, PartialEq, Eq)]
pub struct Specification {
    pub group_name: NameToken,
    pub use_args_for_case_name: bool,
    pub cases: Vec<CaseDeclaration>,
}

/// What a `Specification` stands for.
pub struct SpecificationView {
    pub group_name: NameTokenView,
    pub use_args_for_case_name: bool,
    pub cases: Seq<CaseDeclarationView>,
}

impl View for Specification {
    type V = SpecificationView;

    open spec fn view(&self) -> SpecificationView {
        SpecificationView {
            group_name: self.group_name@,
            use_args_for_case_name: self.use_args_for_case_name,
            cases: views(self.cases@),
        }
    }
}

/// A case in its one canonical form: a name and the arguments to forward.
#[derive(Debug, PartialEq, Eq)]
pub struct NormalizedCase {
    pub name: NameToken,
    pub arguments: Vec<Expression>,
}

/// What a `NormalizedCase` stands for.
pub struct NormalizedCaseView {
    pub name: NameTokenView,
    pub arguments: Seq<ExpressionView>,
}

impl View for NormalizedCase {
    type V = NormalizedCaseView;

    open spec fn view(&self) -> NormalizedCaseView {
        NormalizedCaseView { name: self.name@, arguments: views(self.arguments@) }
    }
}

/// A case with its final identifier.
#[derive(Debug, PartialEq, Eq)]
pub struct ResolvedCase {
    pub identifier: String,
    pub arguments: Vec<Expression>,
}

/// What a `ResolvedCase` stands for.
pub struct ResolvedCaseView {
    pub identifier: Seq<char>,
    pub arguments: Seq<ExpressionView>,
}

impl View for ResolvedCase {
    type V = ResolvedCaseView;

    open spec fn view(&self) -> ResolvedCaseView {
        ResolvedCaseView { identifier: self.identifier@, arguments: views(self.arguments@) }
    }
}

/// The function that the cases are attached to: its identifier, whether it
/// is asynchronous, and its source, which is never rewritten.
#[derive(Debug, PartialEq, Eq)]
pub struct BaseFunction {
    pub name: String,
    pub is_async: bool,
    pub source: String,
}

/// What a `BaseFunction` stands for.
pub struct BaseFunctionView {
    pub name: Seq<char>,
    pub is_async: bool,
    pub source: Seq<char>,
}

impl View for BaseFunction {
    type V = BaseFunctionView;

    open spec fn view(&self) -> BaseFunctionView {
        BaseFunctionView { name: self.name@, is_async: self.is_async, source: self.source@ }
    }
}

impl Clone for BaseFunction {
    fn clone(&self) -> (copy: Self)
        ensures
            copy@ == self@,
    {
        BaseFunction {
            name: self.name.clone(),
            is_async: self.is_async,
            source: self.source.clone(),
        }
    }
}

/// The outcome of an expansion: the identifier of the group, the base
/// function as it was given, and the cases in the order of their declaration.
#[derive(Debug, PartialEq, Eq)]
pub struct ExpansionResult {
    pub group_identifier: String,
    pub body: BaseFunction,
    pub cases: Vec<ResolvedCase>,
}

/// What an `ExpansionResult` stands for.
pub struct ExpansionResultView {
    pub group_identifier: Seq<char>,
    pub body: BaseFunctionView,
    pub cases: Seq<ResolvedCaseView>,
}

impl View for ExpansionResult {
    type V = ExpansionResultView;

    open spec fn view(&self) -> ExpansionResultView {
        ExpansionResultView {
            group_identifier: self.group_identifier@,
            body: self.body@,
            cases: views(self.cases@),
        }
    }
}

} // verus!
