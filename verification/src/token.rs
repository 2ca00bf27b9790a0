//! The tokens of a declaration, as far as its grammar tells them apart, and
//! the errors of that grammar.

use vstd::prelude::*;
use crate::model::{views, Expression, ExpressionView};

verus! {

/// One token at the top level of a declaration.
#[derive(Debug, PartialEq, Eq)]
pub enum Token {
    /// An identifier, by its text.
    Identifier(String),
    /// A string literal, by the string that it denotes.
    Text(String),
    /// `true` or `false`.
    Boolean(bool),
    /// The sign `=`.
    Equals,
    /// The sign `,`.
    Comma,
    /// A pair of parentheses around expressions separated by commas.
    Arguments(Vec<Expression>),
    /// Anything else.
    Other,
}

/// What a `Token` stands for.
pub enum TokenView {
    Identifier(Seq<char>),
    Text(Seq<char>),
    Boolean(bool),
    Equals,
    Comma,
    Arguments(Seq<ExpressionView>),
    Other,
}

impl View for Token {
    type V = TokenView;

    open spec fn view(&self) -> TokenView {
        match self {
            Token::Identifier(text) => TokenView::Identifier(text@),
            Token::Text(text) => TokenView::Text(text@),
            Token::Boolean(value) => TokenView::Boolean(*value),
            Token::Equals => TokenView::Equals,
            Token::Comma => TokenView::Comma,
            Token::Arguments(items) => TokenView::Arguments(views(items@)),
            Token::Other => TokenView::Other,
        }
    }
}

/// What is wrong with a declaration.
#[derive(Debug, Clone, Copy, PartialEq, Eq, Structural)]
pub enum GrammarErrorKind {
    /// An option is set, but not the one option that there is.
    UnexpectedOptionName,
    /// The list of cases is not one: a comma is missing or stands where none
    /// belongs, the arguments of a case are missing, or the parentheses do
    /// not match.
    MalformedCaseList,
}

/// A declaration that does not follow the grammar: what is wrong, and the
/// place of the offending token, counted from 0 at the top level of the
/// declaration. A declaration that ends too early has the number of its
/// tokens as the place.
#[derive(Debug, Clone, Copy, PartialEq, Eq, Structural)]
pub struct GrammarError {
    pub kind: GrammarErrorKind,
    pub position: usize,
}

impl GrammarErrorKind {
    /// What the error says to the author of the declaration.
    pub open spec fn message_text(self) -> Seq<char> {
        match self {
            GrammarErrorKind::UnexpectedOptionName => "Expected 'use_args_for_case_name' option"@,
            GrammarErrorKind::MalformedCaseList =>
                "Expected a list of cases, each `name, (arguments)` or `(arguments)`, separated by commas"@,
        }
    }

    /// Writes what the error says to the author of the declaration.
    pub fn message(&self) -> (text: String)
        ensures
            text@ == self.message_text(),
    {
        match self {
            GrammarErrorKind::UnexpectedOptionName => String::from_str(
                "Expected 'use_args_for_case_name' option",
            ),
            GrammarErrorKind::MalformedCaseList => String::from_str(
                "Expected a list of cases, each `name, (arguments)` or `(arguments)`, separated by commas",
            ),
        }
    }
}

} // verus!
