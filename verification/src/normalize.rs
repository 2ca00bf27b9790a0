//! The case normalizer: both declared shapes of a case reduced to one list of
//! arguments to forward.

use vstd::prelude::*;
use crate::model::{
    clone_expressions, lemma_views_push, views, CaseDeclaration, CaseDeclarationView, Expression,
    ExpressionView, NormalizedCase, NormalizedCaseView, RawArgumentForm, RawArgumentFormView,
};

verus! {

/// The arguments that a declared body forwards: a flat list as it stands; of
/// a grouped body the unit of arguments, followed by the expected value only
/// where there is one.
pub open spec fn forwarded_arguments(body: RawArgumentFormView) -> Seq<ExpressionView> {
    match body {
        RawArgumentFormView::Flat(items) => items,
        RawArgumentFormView::Grouped(args, None) => seq![args],
        RawArgumentFormView::Grouped(args, Some(expected)) => seq![args, expected],
    }
}

/// The canonical form of a declared case: its name unchanged, and the
/// arguments that its body forwards.
pub open spec fn normalized(case: CaseDeclarationView) -> NormalizedCaseView {
    NormalizedCaseView { name: case.name, arguments: forwarded_arguments(case.body) }
}

/// Brings one declared case into its canonical form.
pub fn normalize(case: &CaseDeclaration) -> (result: NormalizedCase)
    ensures
        result@ == normalized(case@),
{
    let arguments = match &case.body {
        RawArgumentForm::Flat(items) => clone_expressions(items),
        RawArgumentForm::Grouped(args, expected) => {
            let mut arguments: Vec<Expression> = Vec::new();
            let first = args.clone();
            arguments.push(first);
            assert(views(arguments@) =~= seq![args@]);
            match expected {
                Some(value) => {
                    let second = value.clone();
                    arguments.push(second);
                    assert(views(arguments@) =~= seq![args@, value@]);
                },
                None => {},
            }
            arguments
        },
    };
    NormalizedCase { name: case.name.clone(), arguments }
}

/// The canonical forms of the declared cases, in the order of declaration.
pub open spec fn normalized_all(cases: Seq<CaseDeclarationView>) -> Seq<NormalizedCaseView> {
    cases.map_values(|case: CaseDeclarationView| normalized(case))
}

/// Brings every declared case into its canonical form, in order.
pub fn normalize_all(cases: &Vec<CaseDeclaration>) -> (result: Vec<NormalizedCase>)
    ensures
        views(result@) == normalized_all(views(cases@)),
{
    let mut result: Vec<NormalizedCase> = Vec::new();
    let mut i: usize = 0;
    while i < cases.len()
        invariant
            i <= cases.len(),
            views(result@) == normalized_all(views(cases@.take(i as int))),
        decreases cases.len() - i,
    {
        let ghost before = result@;
        let case = normalize(&cases[i]);
        result.push(case);
        proof {
            lemma_views_push(before, case);
            lemma_views_push(cases@.take(i as int), cases@[i as int]);
            assert(cases@.take(i + 1) =~= cases@.take(i as int).push(cases@[i as int]));
            assert(normalized_all(views(cases@.take(i as int)).push(cases@[i as int]@))
                =~= normalized_all(views(cases@.take(i as int))).push(
                normalized(cases@[i as int]@),
            ));
        }
        i += 1;
    }
    assert(cases@.take(cases.len() as int) =~= cases@);
    result
}

} // verus!
