//! The syntax of Rust, as far as a declaration needs it, taken from the
//! crates `proc-macro2`, `syn` and `quote`. Every function here is trusted:
//! its contract names what the crate returns, and nothing of it is proved.
//!
//! The crates are built without their `proc-macro` feature, so that they lex
//! and print by their own code wherever they run. They read nested input by
//! recursion: like memory, the stack that a deep nesting takes is a resource
//! of the machine, and no contract here speaks of it.

use vstd::prelude::*;
use crate::model::views;

verus! {

/// The kinds of lexemes that a declaration tells apart.
#[derive(Debug, Clone, Copy, PartialEq, Eq, Structural)]
pub enum LexemeKind {
    /// An identifier or a keyword.
    Identifier,
    /// A literal of any type.
    Literal,
    /// One character of punctuation.
    Punctuation,
    /// A pair of parentheses with what stands between them.
    Parenthesized,
    /// What any other pair of delimiters holds.
    Delimited,
}

/// One lexeme at the top level of a text. The text of a pair of delimiters
/// is what stands between them; that of any other lexeme is the lexeme as it
/// is written.
#[derive(Debug, PartialEq, Eq)]
pub struct Lexeme {
    pub kind: LexemeKind,
    pub text: String,
}

/// What a `Lexeme` stands for.
pub struct LexemeView {
    pub kind: LexemeKind,
    pub text: Seq<char>,
}

impl View for Lexeme {
    type V = LexemeView;

    open spec fn view(&self) -> LexemeView {
        LexemeView { kind: self.kind, text: self.text@ }
    }
}

/// The lexemes at the top level of `text`, or nothing where `text` is not a
/// sequence of Rust tokens with matching delimiters.
pub uninterp spec fn lexed(text: Seq<char>) -> Option<Seq<LexemeView>>;

/// The string that `literal` denotes, or nothing where `literal` is not one
/// string literal.
pub uninterp spec fn string_literal_value(literal: Seq<char>) -> Option<Seq<char>>;

/// The texts of the expressions in `inner`, a list of expressions separated
/// by commas, or nothing where `inner` is not such a list.
pub uninterp spec fn argument_texts(inner: Seq<char>) -> Option<Seq<Seq<char>>>;

/// The identifier of the function that `item` defines and whether that
/// function is asynchronous, or nothing where `item` is not one function.
pub uninterp spec fn function_signature(item: Seq<char>) -> Option<(Seq<char>, bool)>;

/// Whether `text` is one identifier that is not a keyword.
pub uninterp spec fn is_plain_identifier(text: Seq<char>) -> bool;

/// Splits `text` into the lexemes at its top level.
///
/// Trusted: parses `text` with `proc_macro2::TokenStream::from_str` and
/// walks the token trees of the result. An identifier and a literal are
/// handed out as `to_string` prints them, a punctuation by its character, and
/// a group by its delimiter and the printed form of the stream inside it.
/// The contract claims that the outcome is `lexed` of the text, and that an
/// empty text has no lexemes: the lexer finds the end of its input at once
/// and hands out an empty stream.
#[verifier::external_body]
pub(crate) fn lex(text: &str) -> (lexemes: Option<Vec<Lexeme>>)
    ensures
        match lexemes {
            Some(found) => lexed(text@) == Some(views(found@)),
            None => lexed(text@) is None,
        },
        match lexemes {
            Some(found) => text@.len() == 0 ==> found@.len() == 0,
            None => text@.len() > 0,
        },
{
    let stream = <proc_macro2::TokenStream as std::str::FromStr>::from_str(text).ok()?;
    let mut lexemes = Vec::new();
    for tree in stream {
        let (kind, text) = match tree {
            proc_macro2::TokenTree::Ident(ident) => (LexemeKind::Identifier, ident.to_string()),
            proc_macro2::TokenTree::Literal(literal) => (LexemeKind::Literal, literal.to_string()),
            proc_macro2::TokenTree::Punct(punct) => (LexemeKind::Punctuation, punct.to_string()),
            proc_macro2::TokenTree::Group(group) => match group.delimiter() {
                proc_macro2::Delimiter::Parenthesis => (LexemeKind::Parenthesized, group.stream().to_string()),
                _ => (LexemeKind::Delimited, group.stream().to_string()),
            },
        };
        lexemes.push(Lexeme { kind, text });
    }
    Some(lexemes)
}

/// Reads a string literal.
///
/// Trusted: parses `literal` as a `syn::LitStr` with `syn::parse_str` and
/// takes its `value`, the string with its quotes removed and its escapes
/// resolved. The contract claims only that the outcome is
/// `string_literal_value` of the text.
#[verifier::external_body]
pub(crate) fn read_string_literal(literal: &str) -> (value: Option<String>)
    ensures
        match value {
            Some(found) => string_literal_value(literal@) == Some(found@),
            None => string_literal_value(literal@) is None,
        },
{
    match syn::parse_str::<syn::LitStr>(literal) {
        Ok(parsed) => Some(parsed.value()),
        Err(_) => None,
    }
}

/// Splits what stands between the parentheses of a case into expressions.
///
/// Trusted: parses `inner` with `syn::punctuated::Punctuated::parse_terminated`
/// as expressions (`syn::Expr`) separated by commas, a comma after the last
/// allowed, and prints each with `quote::ToTokens::to_token_stream` and
/// `to_string`. The contract claims only that the outcome is
/// `argument_texts` of the text.
#[verifier::external_body]
pub(crate) fn split_arguments(inner: &str) -> (arguments: Option<Vec<String>>)
    ensures
        match arguments {
            Some(found) => argument_texts(inner@) == Some(views(found@)),
            None => argument_texts(inner@) is None,
        },
{
    let parser = syn::punctuated::Punctuated::<syn::Expr, syn::token::Comma>::parse_terminated;
    let parsed = syn::parse::Parser::parse_str(parser, inner).ok()?;
    let mut arguments = Vec::new();
    for expression in parsed {
        arguments.push(quote::ToTokens::to_token_stream(&expression).to_string());
    }
    Some(arguments)
}

/// Reads the signature of a function.
///
/// Trusted: parses `item` as a `syn::ItemFn` with `syn::parse_str` and hands
/// out the identifier in its signature, as `to_string` prints it, and
/// whether the signature holds `async`. The contract claims only that the
/// outcome is `function_signature` of the text.
#[verifier::external_body]
pub(crate) fn read_signature(item: &str) -> (signature: Option<(String, bool)>)
    ensures
        match signature {
            Some((name, is_async)) => function_signature(item@) == Some((name@, is_async)),
            None => function_signature(item@) is None,
        },
{
    match syn::parse_str::<syn::ItemFn>(item) {
        Ok(function) => Some((function.sig.ident.to_string(), function.sig.asyncness.is_some())),
        Err(_) => None,
    }
}

/// Tells whether `text` is one identifier that is not a keyword.
///
/// Trusted: parses `text` as a `syn::Ident` with `syn::parse_str`, which
/// accepts one identifier and refuses the keywords of Rust and `_`. The
/// contract claims only that the outcome is `is_plain_identifier` of the text.
#[verifier::external_body]
pub(crate) fn check_identifier(text: &str) -> (accepted: bool)
    ensures
        accepted == is_plain_identifier(text@),
{
    syn::parse_str::<syn::Ident>(text).is_ok()
}

} // verus!
