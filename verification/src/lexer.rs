//! From the text of a declaration to its tokens.

use vstd::prelude::*;
use crate::model::{lemma_views_push, views, Expression, ExpressionView};
use crate::syntax::{
    argument_texts, check_identifier, is_plain_identifier, lex, lexed, read_string_literal,
    split_arguments, string_literal_value, Lexeme, LexemeKind, LexemeView,
};
use crate::token::{Token, TokenView};

verus! {

/// Whether the lexemes are one pair of parentheses and nothing else.
pub open spec fn is_parenthesized(lexemes: Option<Seq<LexemeView>>) -> bool {
    match lexemes {
        Some(found) => found.len() == 1 && found[0].kind == LexemeKind::Parenthesized,
        None => false,
    }
}

/// The expression with the given text.
pub open spec fn expression_of(text: Seq<char>) -> ExpressionView {
    ExpressionView { text, parenthesized: is_parenthesized(lexed(text)) }
}

/// The expressions with the given texts, in order.
pub open spec fn expressions_of(texts: Seq<Seq<char>>) -> Seq<ExpressionView> {
    texts.map_values(|text: Seq<char>| expression_of(text))
}

/// The boolean that an identifier denotes, if it is `true` or `false`.
pub open spec fn boolean_of(text: Seq<char>) -> Option<bool> {
    if text == "true"@ {
        Some(true)
    } else if text == "false"@ {
        Some(false)
    } else {
        None
    }
}

/// The token of a punctuation: `=` and `,` are told apart from all others.
pub open spec fn punctuation_token(text: Seq<char>) -> TokenView {
    if text == "="@ {
        TokenView::Equals
    } else if text == ","@ {
        TokenView::Comma
    } else {
        TokenView::Other
    }
}

/// The token that a lexeme is to the grammar of declarations: `true` and
/// `false` are booleans, any other identifier that is not a keyword is an
/// identifier, a string literal is the string that it denotes, and a pair of
/// parentheses around a list of expressions holds the arguments of a case.
pub open spec fn token_of(lexeme: LexemeView) -> TokenView {
    match lexeme.kind {
        LexemeKind::Identifier => match boolean_of(lexeme.text) {
            Some(value) => TokenView::Boolean(value),
            None => if is_plain_identifier(lexeme.text) {
                TokenView::Identifier(lexeme.text)
            } else {
                TokenView::Other
            },
        },
        LexemeKind::Literal => match string_literal_value(lexeme.text) {
            Some(value) => TokenView::Text(value),
            None => TokenView::Other,
        },
        LexemeKind::Punctuation => punctuation_token(lexeme.text),
        LexemeKind::Parenthesized => match argument_texts(lexeme.text) {
            Some(texts) => TokenView::Arguments(expressions_of(texts)),
            None => TokenView::Other,
        },
        LexemeKind::Delimited => TokenView::Other,
    }
}

/// The tokens of a declaration, or nothing where its text cannot be split
/// into lexemes.
pub open spec fn tokens_of(declaration: Seq<char>) -> Option<Seq<TokenView>> {
    match lexed(declaration) {
        Some(lexemes) => Some(lexemes.map_values(|lexeme: LexemeView| token_of(lexeme))),
        None => None,
    }
}

/// Tells whether the lexemes are one pair of parentheses and nothing else.
pub fn is_unit(lexemes: &Option<Vec<Lexeme>>) -> (unit: bool)
    ensures
        unit == is_parenthesized(
            match lexemes {
                Some(found) => Some(views(found@)),
                None => None,
            },
        ),
{
    match lexemes {
        Some(found) => found.len() == 1 && match found[0].kind {
            LexemeKind::Parenthesized => true,
            _ => false,
        },
        None => false,
    }
}

/// Makes the expression with the given text.
fn to_expression(text: String) -> (expression: Expression)
    ensures
        expression@ == expression_of(text@),
{
    let parenthesized = is_unit(&lex(text.as_str()));
    Expression { text, parenthesized }
}

/// Makes the expressions with the given texts, in order.
fn to_expressions(texts: Vec<String>) -> (expressions: Vec<Expression>)
    ensures
        views(expressions@) == expressions_of(views(texts@)),
{
    let mut expressions: Vec<Expression> = Vec::new();
    let mut i: usize = 0;
    while i < texts.len()
        invariant
            i <= texts.len(),
            views(expressions@) == expressions_of(views(texts@)).take(i as int),
        decreases texts.len() - i,
    {
        let ghost before = expressions@;
        let expression = to_expression(texts[i].clone());
        expressions.push(expression);
        proof {
            lemma_views_push(before, expression);
            assert(views(expressions@) =~= expressions_of(views(texts@)).take(i + 1));
        }
        i += 1;
    }
    assert(views(expressions@) =~= expressions_of(views(texts@)));
    expressions
}

/// Reads an identifier as a boolean.
pub fn read_boolean(text: &String) -> (value: Option<bool>)
    ensures
        value == boolean_of(text@),
{
    if text.eq(&String::from_str("true")) {
        Some(true)
    } else if text.eq(&String::from_str("false")) {
        Some(false)
    } else {
        None
    }
}

/// Tells the token of a punctuation.
pub fn read_punctuation(text: &String) -> (token: Token)
    ensures
        token@ == punctuation_token(text@),
{
    if text.eq(&String::from_str("=")) {
        Token::Equals
    } else if text.eq(&String::from_str(",")) {
        Token::Comma
    } else {
        Token::Other
    }
}

/// Tells what a lexeme is to the grammar of declarations.
fn to_token(lexeme: &Lexeme) -> (token: Token)
    ensures
        token@ == token_of(lexeme@),
{
    match lexeme.kind {
        LexemeKind::Identifier => match read_boolean(&lexeme.text) {
            Some(value) => Token::Boolean(value),
            None => if check_identifier(lexeme.text.as_str()) {
                Token::Identifier(lexeme.text.clone())
            } else {
                Token::Other
            },
        },
        LexemeKind::Literal => match read_string_literal(lexeme.text.as_str()) {
            Some(value) => Token::Text(value),
            None => Token::Other,
        },
        LexemeKind::Punctuation => read_punctuation(&lexeme.text),
        LexemeKind::Parenthesized => match split_arguments(lexeme.text.as_str()) {
            Some(texts) => Token::Arguments(to_expressions(texts)),
            None => Token::Other,
        },
        LexemeKind::Delimited => Token::Other,
    }
}

/// Splits the text of a declaration into its tokens. The outcome is nothing
/// where the text is no sequence of lexemes, as with a parenthesis that is
/// never closed. An empty text has no tokens.
pub fn tokenize(declaration: &str) -> (tokens: Option<Vec<Token>>)
    ensures
        match tokens {
            Some(found) => tokens_of(declaration@) == Some(views(found@)),
            None => tokens_of(declaration@) is None,
        },
        declaration@.len() == 0 ==> (tokens matches Some(found) && found@.len() == 0),
{
    let lexemes = match lex(declaration) {
        Some(found) => found,
        None => {
            return None;
        },
    };
    let ghost expected = views(lexemes@).map_values(|lexeme: LexemeView| token_of(lexeme));
    let mut tokens: Vec<Token> = Vec::new();
    let mut i: usize = 0;
    while i < lexemes.len()
        invariant
            i <= lexemes.len(),
            expected == views(lexemes@).map_values(|lexeme: LexemeView| token_of(lexeme)),
            views(tokens@) == expected.take(i as int),
        decreases lexemes.len() - i,
    {
        let ghost before = tokens@;
        let token = to_token(&lexemes[i]);
        tokens.push(token);
        proof {
            lemma_views_push(before, token);
            assert(views(tokens@) =~= expected.take(i + 1));
        }
        i += 1;
    }
    assert(views(tokens@) =~= expected);
    Some(tokens)
}

/// Tokens stand where their lexemes stand: a text that can be split has as
/// many tokens as lexemes, and the token at each place is the token of the
/// lexeme at that place, whatever stands around it.
pub proof fn law_tokens_follow_lexemes(declaration: Seq<char>, i: int)
    requires
        lexed(declaration) is Some,
        0 <= i < lexed(declaration)->Some_0.len(),
    ensures
        tokens_of(declaration) is Some,
        tokens_of(declaration)->Some_0.len() == lexed(declaration)->Some_0.len(),
        tokens_of(declaration)->Some_0[i] == token_of(lexed(declaration)->Some_0[i]),
{
}

} // verus!
