//! The parser of declarations: from the tokens of a declaration to its
//! specification, or to the first place where the grammar is broken.
//!
//! A declaration is an optional clause `use_args_for_case_name = <bool>,`,
//! then an optional name of the group followed by a comma, then the cases,
//! separated by commas, with an optional comma after the last. A case is an
//! optional name followed by a comma, and then its arguments in parentheses.

use vstd::prelude::*;
use crate::model::{
    clone_expressions, lemma_views_push, views, CaseDeclaration, CaseDeclarationView, Expression,
    ExpressionView, NameToken, NameTokenView, RawArgumentForm, RawArgumentFormView, Specification,
    SpecificationView,
};
use crate::normalize::forwarded_arguments;
use crate::token::{GrammarError, GrammarErrorKind, Token, TokenView};

verus! {

/// The error of a broken list of cases at `position`.
pub open spec fn malformed(position: int) -> GrammarError {
    GrammarError { kind: GrammarErrorKind::MalformedCaseList, position: position as usize }
}

/// The error of a wrong option name at `position`.
pub open spec fn unexpected_option(position: int) -> GrammarError {
    GrammarError { kind: GrammarErrorKind::UnexpectedOptionName, position: position as usize }
}

/// Whether the token at `position` is a comma.
pub open spec fn comma_at(tokens: Seq<TokenView>, position: int) -> bool {
    0 <= position < tokens.len() && tokens[position] is Comma
}

/// Whether the token at `position` holds the arguments of a case.
pub open spec fn arguments_at(tokens: Seq<TokenView>, position: int) -> bool {
    0 <= position < tokens.len() && tokens[position] is Arguments
}

/// The name that a token gives where a name may stand: an identifier, a
/// string, which names nothing when it is empty, or no name at all for any
/// other token.
pub open spec fn name_of(token: TokenView) -> Option<NameTokenView> {
    match token {
        TokenView::Identifier(text) => Some(NameTokenView::Identifier(text)),
        TokenView::Text(text) => Some(
            if text.len() == 0 {
                NameTokenView::Absent
            } else {
                NameTokenView::StringLiteral(text)
            },
        ),
        _ => None,
    }
}

/// Whether the declaration starts as an option clause does: an identifier,
/// `=`, and a boolean.
pub open spec fn starts_with_option(tokens: Seq<TokenView>) -> bool {
    tokens.len() >= 3 && tokens[0] is Identifier && tokens[1] is Equals && tokens[2] is Boolean
}

/// The value of the naming option and the place behind its clause. Without
/// a clause the option is off. A clause that sets another option, or that no
/// comma follows, is an error.
pub open spec fn parsed_option(tokens: Seq<TokenView>) -> Result<(bool, int), GrammarError> {
    if !starts_with_option(tokens) {
        Ok((false, 0))
    } else {
        match (tokens[0], tokens[2]) {
            (TokenView::Identifier(name), TokenView::Boolean(value)) => {
                if name != "use_args_for_case_name"@ {
                    Err(unexpected_option(0))
                } else if !comma_at(tokens, 3) {
                    Err(malformed(3))
                } else {
                    Ok((value, 4))
                }
            },
            _ => Ok((false, 0)),
        }
    }
}

/// Whether a name of the group stands at `position`: an identifier or a
/// string that is not empty, then a comma, and then anything but the
/// arguments of a case.
pub open spec fn group_name_at(tokens: Seq<TokenView>, position: int) -> bool {
    &&& 0 <= position < tokens.len()
    &&& name_of(tokens[position]) matches Some(name)
    &&& name.is_explicit()
    &&& comma_at(tokens, position + 1)
    &&& !arguments_at(tokens, position + 2)
}

/// The name of the group and the place behind it.
pub open spec fn parsed_group_name(tokens: Seq<TokenView>, position: int) -> (NameTokenView, int) {
    if group_name_at(tokens, position) {
        (name_of(tokens[position])->Some_0, position + 2)
    } else {
        (NameTokenView::Absent, position)
    }
}

/// The shape of the arguments of a case: grouped where there are one or two
/// of them and the first is a parenthesized unit, flat otherwise.
pub open spec fn classified(args: Seq<ExpressionView>) -> RawArgumentFormView {
    if 1 <= args.len() <= 2 && args[0].parenthesized {
        RawArgumentFormView::Grouped(
            args[0],
            if args.len() == 2 {
                Some(args[1])
            } else {
                None
            },
        )
    } else {
        RawArgumentFormView::Flat(args)
    }
}

/// The case that starts at `position`, and the place behind it. Where a
/// name starts the case, a comma must follow it; the arguments must follow
/// in either case.
pub open spec fn parsed_case(tokens: Seq<TokenView>, position: int) -> Result<
    (CaseDeclarationView, int),
    GrammarError,
>
    recommends
        0 <= position < tokens.len(),
{
    let named = name_of(tokens[position]);
    if named is Some && !comma_at(tokens, position + 1) {
        Err(malformed(position + 1))
    } else {
        let name = if named is Some {
            named->Some_0
        } else {
            NameTokenView::Absent
        };
        let start = if named is Some {
            position + 2
        } else {
            position
        };
        if arguments_at(tokens, start) {
            Ok(
                (
                    CaseDeclarationView {
                        name,
                        body: classified(tokens[start]->Arguments_0),
                    },
                    start + 1,
                ),
            )
        } else {
            Err(malformed(start))
        }
    }
}

/// The cases from `position` to the end of the declaration. Nothing is left
/// to parse at the end; after a case the declaration ends, or a comma
/// follows and then the rest of the cases.
pub open spec fn parsed_cases(tokens: Seq<TokenView>, position: int) -> Result<
    Seq<CaseDeclarationView>,
    GrammarError,
>
    decreases tokens.len() - position,
{
    if position < 0 || position >= tokens.len() {
        Ok(Seq::empty())
    } else {
        match parsed_case(tokens, position) {
            Err(error) => Err(error),
            Ok((case, next)) => {
                if next >= tokens.len() {
                    Ok(seq![case])
                } else if !comma_at(tokens, next) {
                    Err(malformed(next))
                } else {
                    match parsed_cases(tokens, next + 1) {
                        Err(error) => Err(error),
                        Ok(rest) => Ok(seq![case] + rest),
                    }
                }
            },
        }
    }
}

/// The specification that the tokens of a declaration denote, or the first
/// error in them.
pub open spec fn parsed(tokens: Seq<TokenView>) -> Result<SpecificationView, GrammarError> {
    match parsed_option(tokens) {
        Err(error) => Err(error),
        Ok((use_args, after_option)) => {
            let (group_name, after_name) = parsed_group_name(tokens, after_option);
            match parsed_cases(tokens, after_name) {
                Err(error) => Err(error),
                Ok(cases) => Ok(
                    SpecificationView { group_name, use_args_for_case_name: use_args, cases },
                ),
            }
        },
    }
}

/// Tells whether the token at `position` is a comma.
fn is_comma(tokens: &Vec<Token>, position: usize) -> (found: bool)
    ensures
        found == comma_at(views(tokens@), position as int),
{
    if position < tokens.len() {
        match &tokens[position] {
            Token::Comma => true,
            _ => false,
        }
    } else {
        false
    }
}

/// Tells whether the token at `position` holds the arguments of a case.
fn is_arguments(tokens: &Vec<Token>, position: usize) -> (found: bool)
    ensures
        found == arguments_at(views(tokens@), position as int),
{
    if position < tokens.len() {
        match &tokens[position] {
            Token::Arguments(_) => true,
            _ => false,
        }
    } else {
        false
    }
}

/// Reads a token as a name.
fn read_name(token: &Token) -> (name: Option<NameToken>)
    ensures
        match name {
            Some(found) => name_of(token@) == Some(found@),
            None => name_of(token@) is None,
        },
{
    match token {
        Token::Identifier(text) => Some(NameToken::Identifier(text.clone())),
        Token::Text(text) => if text.as_str().is_empty() {
            Some(NameToken::Absent)
        } else {
            Some(NameToken::StringLiteral(text.clone()))
        },
        _ => None,
    }
}

/// Tells the shape of the arguments of a case.
pub fn classify(args: Vec<Expression>) -> (body: RawArgumentForm)
    ensures
        body@ == classified(views(args@)),
{
    let mut args = args;
    if args.len() >= 1 && args.len() <= 2 && args[0].parenthesized {
        let expected = if args.len() == 2 {
            args.pop()
        } else {
            None
        };
        match args.pop() {
            Some(first) => RawArgumentForm::Grouped(first, expected),
            None => RawArgumentForm::Flat(args),
        }
    } else {
        RawArgumentForm::Flat(args)
    }
}

/// Reads the option clause, if the declaration starts with one.
fn parse_option(tokens: &Vec<Token>) -> (result: Result<(bool, usize), GrammarError>)
    ensures
        match result {
            Ok((value, next)) => parsed_option(views(tokens@)) == Ok::<(bool, int), GrammarError>(
                (value, next as int),
            ) && next <= tokens.len(),
            Err(error) => parsed_option(views(tokens@)) == Err::<(bool, int), GrammarError>(error),
        },
{
    if tokens.len() < 3 {
        return Ok((false, 0));
    }
    match (&tokens[0], &tokens[1], &tokens[2]) {
        (Token::Identifier(name), Token::Equals, Token::Boolean(value)) => {
            let expected = String::from_str("use_args_for_case_name");
            if !name.eq(&expected) {
                Err(GrammarError { kind: GrammarErrorKind::UnexpectedOptionName, position: 0 })
            } else if !is_comma(tokens, 3) {
                Err(GrammarError { kind: GrammarErrorKind::MalformedCaseList, position: 3 })
            } else {
                Ok((*value, 4))
            }
        },
        _ => Ok((false, 0)),
    }
}

/// Reads the name of the group, if one stands at `position`.
fn parse_group_name(tokens: &Vec<Token>, position: usize) -> (result: (NameToken, usize))
    requires
        position <= tokens.len(),
    ensures
        parsed_group_name(views(tokens@), position as int) == (result.0@, result.1 as int),
        result.1 <= tokens.len(),
{
    if position < tokens.len() {
        match read_name(&tokens[position]) {
            Some(name) => {
                let explicit = match &name {
                    NameToken::Absent => false,
                    _ => true,
                };
                if explicit && is_comma(tokens, position + 1) && !is_arguments(
                    tokens,
                    position + 2,
                ) {
                    return (name, position + 2);
                }
            },
            None => {},
        }
    }
    (NameToken::Absent, position)
}

/// Reads the case that starts at `position`.
fn parse_case(tokens: &Vec<Token>, position: usize) -> (result: Result<
    (CaseDeclaration, usize),
    GrammarError,
>)
    requires
        position < tokens.len(),
    ensures
        match result {
            Ok((case, next)) => parsed_case(views(tokens@), position as int) == Ok::<
                (CaseDeclarationView, int),
                GrammarError,
            >((case@, next as int)) && position < next <= tokens.len(),
            Err(error) => parsed_case(views(tokens@), position as int) == Err::<
                (CaseDeclarationView, int),
                GrammarError,
            >(error),
        },
{
    let (name, start) = match read_name(&tokens[position]) {
        Some(name) => {
            if !is_comma(tokens, position + 1) {
                return Err(
                    GrammarError {
                        kind: GrammarErrorKind::MalformedCaseList,
                        position: position + 1,
                    },
                );
            }
            (name, position + 2)
        },
        None => (NameToken::Absent, position),
    };
    if start < tokens.len() {
        match &tokens[start] {
            Token::Arguments(args) => {
                let body = classify(clone_expressions(args));
                return Ok((CaseDeclaration { name, body }, start + 1));
            },
            _ => {},
        }
    }
    Err(GrammarError { kind: GrammarErrorKind::MalformedCaseList, position: start })
}

/// What the cases read so far and the outcome of the rest give together.
pub open spec fn continued(
    read: Seq<CaseDeclarationView>,
    rest: Result<Seq<CaseDeclarationView>, GrammarError>,
) -> Result<Seq<CaseDeclarationView>, GrammarError> {
    match rest {
        Ok(cases) => Ok(read + cases),
        Err(error) => Err(error),
    }
}

/// Reads the cases from `position` to the end of the declaration.
fn parse_cases(tokens: &Vec<Token>, position: usize) -> (result: Result<
    Vec<CaseDeclaration>,
    GrammarError,
>)
    requires
        position <= tokens.len(),
    ensures
        match result {
            Ok(cases) => parsed_cases(views(tokens@), position as int) == Ok::<
                Seq<CaseDeclarationView>,
                GrammarError,
            >(views(cases@)),
            Err(error) => parsed_cases(views(tokens@), position as int) == Err::<
                Seq<CaseDeclarationView>,
                GrammarError,
            >(error),
        },
{
    let ghost all = parsed_cases(views(tokens@), position as int);
    let mut cases: Vec<CaseDeclaration> = Vec::new();
    let mut at: usize = position;
    assert(views(cases@) + Seq::<CaseDeclarationView>::empty() =~= views(cases@));
    while at < tokens.len()
        invariant
            at <= tokens.len(),
            all == parsed_cases(views(tokens@), position as int),
            all == continued(views(cases@), parsed_cases(views(tokens@), at as int)),
        decreases tokens.len() - at,
    {
        let ghost before = cases@;
        match parse_case(tokens, at) {
            Err(error) => {
                return Err(error);
            },
            Ok((case, next)) => {
                cases.push(case);
                proof {
                    lemma_views_push(before, case);
                }
                if next >= tokens.len() {
                    assert(views(before) + seq![case@] =~= views(cases@));
                    return Ok(cases);
                }
                if !is_comma(tokens, next) {
                    return Err(
                        GrammarError { kind: GrammarErrorKind::MalformedCaseList, position: next },
                    );
                }
                proof {
                    let rest = parsed_cases(views(tokens@), next + 1);
                    if let Ok(more) = rest {
                        assert(views(before) + (seq![case@] + more) =~= views(cases@) + more);
                    }
                }
                at = next + 1;
            },
        }
    }
    assert(views(cases@) + Seq::<CaseDeclarationView>::empty() =~= views(cases@));
    Ok(cases)
}

/// Reads a declaration from its tokens.
pub fn parse(tokens: &Vec<Token>) -> (result: Result<Specification, GrammarError>)
    ensures
        match result {
            Ok(specification) => parsed(views(tokens@)) == Ok::<SpecificationView, GrammarError>(
                specification@,
            ),
            Err(error) => parsed(views(tokens@)) == Err::<SpecificationView, GrammarError>(error),
        },
{
    let (use_args_for_case_name, after_option) = match parse_option(tokens) {
        Ok(found) => found,
        Err(error) => {
            return Err(error);
        },
    };
    let (group_name, after_name) = parse_group_name(tokens, after_option);
    match parse_cases(tokens, after_name) {
        Ok(cases) => Ok(Specification { group_name, use_args_for_case_name, cases }),
        Err(error) => Err(error),
    }
}

/// The shape of the arguments changes nothing of what is forwarded: the
/// arguments that a classified body forwards are the arguments that were
/// classified, in their order. The expected value of a grouped body is
/// forwarded where there is one, and nothing stands for it where there is
/// none.
pub proof fn law_classification_keeps_arguments(args: Seq<ExpressionView>)
    ensures
        forwarded_arguments(classified(args)) == args,
{
    assert(forwarded_arguments(classified(args)) =~= args);
}

/// An empty declaration is legal: it denotes no case, no name of the group,
/// and the naming option off.
pub proof fn law_empty_declaration()
    ensures
        parsed(Seq::<TokenView>::empty()) == Ok::<SpecificationView, GrammarError>(
            SpecificationView {
                group_name: NameTokenView::Absent,
                use_args_for_case_name: false,
                cases: Seq::empty(),
            },
        ),
{
}

/// A case without arguments is legal: a pair of parentheses with nothing
/// between them denotes one unnamed case that forwards nothing.
pub proof fn law_case_without_arguments()
    ensures
        parsed(seq![TokenView::Arguments(Seq::empty())]) == Ok::<SpecificationView, GrammarError>(
            SpecificationView {
                group_name: NameTokenView::Absent,
                use_args_for_case_name: false,
                cases: seq![
                    CaseDeclarationView {
                        name: NameTokenView::Absent,
                        body: RawArgumentFormView::Flat(Seq::empty()),
                    },
                ],
            },
        ),
        forwarded_arguments(RawArgumentFormView::Flat(Seq::empty())) == Seq::<
            ExpressionView,
        >::empty(),
{
    let tokens = seq![TokenView::Arguments(Seq::empty())];
    assert(parsed_case(tokens, 0) == Ok::<(CaseDeclarationView, int), GrammarError>(
        (
            CaseDeclarationView {
                name: NameTokenView::Absent,
                body: RawArgumentFormView::Flat(Seq::empty()),
            },
            1,
        ),
    ));
}

/// The error of a list of cases lies within the declaration: its place is
/// that of a token from `position` on, or the number of tokens where the
/// declaration ends too early, and it is never that of a wrong option name.
pub proof fn law_case_error_is_placed(tokens: Seq<TokenView>, position: int)
    requires
        0 <= position <= tokens.len() <= usize::MAX,
        parsed_cases(tokens, position) is Err,
    ensures
        parsed_cases(tokens, position)->Err_0.kind == GrammarErrorKind::MalformedCaseList,
        position <= parsed_cases(tokens, position)->Err_0.position <= tokens.len(),
    decreases tokens.len() - position,
{
    if position < tokens.len() {
        match parsed_case(tokens, position) {
            Err(error) => {},
            Ok((case, next)) => {
                if next < tokens.len() && comma_at(tokens, next) {
                    law_case_error_is_placed(tokens, next + 1);
                }
            },
        }
    }
}

/// A wrong option name is reported for a declaration that starts as an
/// option clause with another name than `use_args_for_case_name`, for no
/// other declaration, and always at place 0. Every other error is that of a
/// malformed list of cases, at a place within the declaration.
pub proof fn law_errors_are_placed(tokens: Seq<TokenView>)
    requires
        tokens.len() <= usize::MAX,
        parsed(tokens) is Err,
    ensures
        parsed(tokens)->Err_0.kind == GrammarErrorKind::UnexpectedOptionName <==> (
        starts_with_option(tokens) && tokens[0] != TokenView::Identifier(
            "use_args_for_case_name"@,
        )),
        parsed(tokens)->Err_0.kind == GrammarErrorKind::UnexpectedOptionName ==> parsed(
            tokens,
        )->Err_0.position == 0,
        parsed(tokens)->Err_0.position <= tokens.len(),
{
    match parsed_option(tokens) {
        Err(error) => {},
        Ok((use_args, after_option)) => {
            let (group_name, after_name) = parsed_group_name(tokens, after_option);
            law_case_error_is_placed(tokens, after_name);
        },
    }
}

/// Whether a name token is one that a declaration can denote: a string is
/// never empty, for an empty string names nothing.
pub open spec fn name_is_canonical(name: NameTokenView) -> bool {
    name matches NameTokenView::StringLiteral(text) ==> text.len() > 0
}

/// Whether a case is one that a declaration can denote: its name is
/// canonical, and its body has the shape that its arguments give it.
pub open spec fn case_is_canonical(case: CaseDeclarationView) -> bool {
    name_is_canonical(case.name) && case.body == classified(forwarded_arguments(case.body))
}

/// Whether a specification is one that a declaration can denote.
pub open spec fn specification_is_canonical(specification: SpecificationView) -> bool {
    &&& name_is_canonical(specification.group_name)
    &&& forall|i: int|
        0 <= i < specification.cases.len() ==> case_is_canonical(
            #[trigger] specification.cases[i],
        )
}

/// The tokens that write a case. A case without a name is written with the
/// empty string for its name where `named` asks for it, and without a name
/// otherwise.
pub open spec fn written_case(case: CaseDeclarationView, named: bool) -> Seq<TokenView> {
    let arguments = seq![TokenView::Arguments(forwarded_arguments(case.body))];
    match case.name {
        NameTokenView::Identifier(text) => seq![TokenView::Identifier(text), TokenView::Comma]
            + arguments,
        NameTokenView::StringLiteral(text) => seq![TokenView::Text(text), TokenView::Comma]
            + arguments,
        NameTokenView::Absent => if named {
            seq![TokenView::Text(Seq::empty()), TokenView::Comma] + arguments
        } else {
            arguments
        },
    }
}

/// The tokens that write a list of cases, with commas between them. `named`
/// asks for a name in front of the first case.
pub open spec fn written_cases(cases: Seq<CaseDeclarationView>, named: bool) -> Seq<TokenView>
    decreases cases.len(),
{
    if cases.len() == 0 {
        Seq::empty()
    } else if cases.len() == 1 {
        written_case(cases[0], named)
    } else {
        written_case(cases[0], named) + seq![TokenView::Comma] + written_cases(
            cases.drop_first(),
            false,
        )
    }
}

/// The tokens that write the name of a group and the comma after it, or
/// nothing for a group without a name of its own.
pub open spec fn written_group_name(name: NameTokenView) -> Seq<TokenView> {
    match name {
        NameTokenView::Identifier(text) => seq![TokenView::Identifier(text), TokenView::Comma],
        NameTokenView::StringLiteral(text) => seq![TokenView::Text(text), TokenView::Comma],
        NameTokenView::Absent => Seq::empty(),
    }
}

/// The tokens that write the naming option: its clause where it is on, and
/// nothing where it is off.
pub open spec fn written_option(use_args: bool) -> Seq<TokenView> {
    if use_args {
        seq![
            TokenView::Identifier("use_args_for_case_name"@),
            TokenView::Equals,
            TokenView::Boolean(true),
            TokenView::Comma,
        ]
    } else {
        Seq::empty()
    }
}

/// The tokens that write a specification: the option, the name of the
/// group, and the cases. After the name of a group the first case is written
/// with a name, so that the two names are told apart.
pub open spec fn written(specification: SpecificationView) -> Seq<TokenView> {
    written_option(specification.use_args_for_case_name) + written_group_name(
        specification.group_name,
    ) + written_cases(specification.cases, specification.group_name.is_explicit())
}

/// A written case is read back: where the tokens of a case follow `before`,
/// the case is read from there, up to the end of its tokens.
proof fn lemma_case_is_read_back(
    before: Seq<TokenView>,
    case: CaseDeclarationView,
    named: bool,
    after: Seq<TokenView>,
)
    requires
        case_is_canonical(case),
    ensures
        parsed_case(before + written_case(case, named) + after, before.len() as int) == Ok::<
            (CaseDeclarationView, int),
            GrammarError,
        >((case, (before.len() + written_case(case, named).len()) as int)),
{
    let own = written_case(case, named);
    let tokens = before + own + after;
    let start = before.len() as int;
    assert forall|k: int| 0 <= k < own.len() implies tokens[start + k] == own[k] by {}
    if case.name is Absent && !named {
        assert(tokens[start] == own[0]);
    } else {
        assert(tokens[start] == own[0]);
        assert(tokens[start + 1] == own[1]);
        assert(tokens[start + 2] == own[2]);
    }
}

/// Written cases are read back: where the tokens of a list of cases follow
/// `before` and end the declaration, the cases are read from there.
proof fn lemma_cases_are_read_back(
    before: Seq<TokenView>,
    cases: Seq<CaseDeclarationView>,
    named: bool,
)
    requires
        forall|i: int| 0 <= i < cases.len() ==> case_is_canonical(#[trigger] cases[i]),
    ensures
        parsed_cases(before + written_cases(cases, named), before.len() as int) == Ok::<
            Seq<CaseDeclarationView>,
            GrammarError,
        >(cases),
    decreases cases.len(),
{
    let tokens = before + written_cases(cases, named);
    let start = before.len() as int;
    if cases.len() == 0 {
        assert(tokens =~= before);
        assert(cases =~= Seq::empty());
    } else {
        let first = cases[0];
        let own = written_case(first, named);
        let next = start + own.len();
        if cases.len() == 1 {
            assert(tokens =~= before + own + Seq::<TokenView>::empty());
            lemma_case_is_read_back(before, first, named, Seq::empty());
            assert(cases =~= seq![first]);
        } else {
            let rest = cases.drop_first();
            let after = seq![TokenView::Comma] + written_cases(rest, false);
            assert(tokens =~= before + own + after);
            lemma_case_is_read_back(before, first, named, after);
            assert(tokens[next] == after[0]);
            let longer = before + own + seq![TokenView::Comma];
            assert(tokens =~= longer + written_cases(rest, false));
            assert forall|i: int| 0 <= i < rest.len() implies case_is_canonical(
                #[trigger] rest[i],
            ) by {
                assert(rest[i] == cases[i + 1]);
            }
            lemma_cases_are_read_back(longer, rest, false);
            assert(seq![first] + rest =~= cases);
        }
    }
}

/// What is written is read back: every specification that a declaration
/// can denote is denoted by the tokens that write it. So the grammar leaves
/// out no option, no name of a group, no name of a case and no list of
/// arguments, and reads each in one way only.
pub proof fn law_written_is_read_back(specification: SpecificationView)
    requires
        specification_is_canonical(specification),
    ensures
        parsed(written(specification)) == Ok::<SpecificationView, GrammarError>(specification),
{
    let option = written_option(specification.use_args_for_case_name);
    let group = written_group_name(specification.group_name);
    let named = specification.group_name.is_explicit();
    let cases = written_cases(specification.cases, named);
    let tokens = written(specification);
    let after_option = option.len() as int;
    assert forall|k: int| 0 <= k < option.len() implies tokens[k] == option[k] by {}
    assert forall|k: int| 0 <= k < group.len() implies tokens[after_option + k] == group[k] by {}
    assert forall|k: int| 0 <= k < cases.len() implies tokens[after_option + group.len() + k]
        == cases[k] by {}
    if specification.cases.len() > 0 {
        let first = written_case(specification.cases[0], named);
        assert forall|k: int| 0 <= k < first.len() implies cases[k] == first[k] by {}
        assert(first.len() > 0);
        assert(cases[0] == first[0]);
        assert(tokens[after_option + group.len()] == first[0]);
    } else {
        assert(cases.len() == 0);
    }
    if specification.use_args_for_case_name {
        assert(tokens[0] == option[0]);
        assert(tokens[1] == option[1]);
        assert(tokens[2] == option[2]);
        assert(tokens[3] == option[3]);
    } else {
        if tokens.len() >= 2 {
            if named {
                assert(tokens[1] == group[1]);
            } else if specification.cases.len() > 0 {
                let first = written_case(specification.cases[0], named);
                if first.len() >= 2 {
                    assert(tokens[1] == first[1]);
                } else {
                    assert(specification.cases.len() > 1);
                    assert(cases[1] == TokenView::Comma);
                    assert(tokens[1] == cases[1]);
                }
            }
        }
        assert(!starts_with_option(tokens));
    }
    assert(parsed_option(tokens) == Ok::<(bool, int), GrammarError>(
        (specification.use_args_for_case_name, after_option),
    ));
    if named {
        assert(tokens[after_option] == group[0]);
        assert(tokens[after_option + 1] == group[1]);
        assert(group_name_at(tokens, after_option));
    } else {
        assert(group =~= Seq::<TokenView>::empty());
        assert(!group_name_at(tokens, after_option));
    }
    assert(parsed_group_name(tokens, after_option) == (
        specification.group_name,
        after_option + group.len(),
    ));
    assert(tokens =~= (option + group) + cases);
    lemma_cases_are_read_back(option + group, specification.cases, named);
}

/// Cases that are read are canonical.
proof fn lemma_read_cases_are_canonical(tokens: Seq<TokenView>, position: int)
    requires
        0 <= position,
        parsed_cases(tokens, position) is Ok,
    ensures
        forall|i: int|
            0 <= i < parsed_cases(tokens, position)->Ok_0.len() ==> case_is_canonical(
                #[trigger] parsed_cases(tokens, position)->Ok_0[i],
            ),
    decreases tokens.len() - position,
{
    if position < tokens.len() {
        match parsed_case(tokens, position) {
            Err(error) => {},
            Ok((case, next)) => {
                law_classification_keeps_arguments(
                    tokens[next - 1]->Arguments_0,
                );
                assert(case_is_canonical(case));
                if next < tokens.len() && comma_at(tokens, next) {
                    lemma_read_cases_are_canonical(tokens, next + 1);
                }
            },
        }
    }
}

/// What is read is canonical: in a specification that a declaration
/// denotes no name is an empty string, and every body has the shape that
/// its arguments give it.
pub proof fn law_read_is_canonical(tokens: Seq<TokenView>)
    requires
        parsed(tokens) is Ok,
    ensures
        specification_is_canonical(parsed(tokens)->Ok_0),
{
    match parsed_option(tokens) {
        Err(error) => {},
        Ok((use_args, after_option)) => {
            let (group_name, after_name) = parsed_group_name(tokens, after_option);
            lemma_read_cases_are_canonical(tokens, after_name);
        },
    }
}

} // verus!
