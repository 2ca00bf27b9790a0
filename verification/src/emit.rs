//! The code emitter: the base function as it was given, and after it one
//! module that holds one test entry for each case.

use vstd::prelude::*;
use crate::model::{
    views, BaseFunction, BaseFunctionView, ExpansionResult, ExpansionResultView, Expression,
    ExpressionView, ResolvedCase, ResolvedCaseView,
};
use crate::text::{join, join_texts, texts};

verus! {

/// The call of the base function with the given arguments, in order. The
/// call of an asynchronous function is awaited.
pub open spec fn call_text(base: BaseFunctionView, args: Seq<ExpressionView>) -> Seq<char> {
    base.name + "("@ + join(texts(args), ", "@) + ")"@ + if base.is_async {
        ".await"@
    } else {
        Seq::empty()
    }
}

/// The test entry of one case: a test function named by the identifier of
/// the case, whose body is the call of the base function and nothing else.
/// The entry of an asynchronous base function is asynchronous too.
pub open spec fn entry_text(base: BaseFunctionView, case: ResolvedCaseView) -> Seq<char> {
    "    #[test]\n    "@ + (if base.is_async {
        "async fn "@
    } else {
        "fn "@
    }) + case.identifier + "() {\n        "@ + call_text(base, case.arguments) + ";\n    }\n"@
}

/// The entries of the cases, one after another in the order given.
pub open spec fn entries_text(base: BaseFunctionView, cases: Seq<ResolvedCaseView>) -> Seq<char>
    decreases cases.len(),
{
    if cases.len() == 0 {
        Seq::empty()
    } else {
        entries_text(base, cases.drop_last()) + entry_text(base, cases.last())
    }
}

/// The module of a group: named by the identifier of the group, open to the
/// items around it, and holding the entries of the cases.
pub open spec fn group_text(result: ExpansionResultView) -> Seq<char> {
    "#[cfg(test)]\nmod "@ + result.group_identifier + " {\n    use super::*;\n"@ + entries_text(
        result.body,
        result.cases,
    ) + "}\n"@
}

/// All that an expansion emits: the source of the base function, unchanged,
/// and the module of the group on the lines after it.
pub open spec fn emitted_text(result: ExpansionResultView) -> Seq<char> {
    result.body.source + "\n"@ + group_text(result)
}

/// Writes the call of the base function with the given arguments.
pub fn emit_call(base: &BaseFunction, args: &Vec<Expression>) -> (text: String)
    ensures
        text@ == call_text(base@, views(args@)),
{
    let mut text = base.name.clone();
    text.append("(");
    let joined = join_texts(args, ", ");
    text.append(joined.as_str());
    text.append(")");
    if base.is_async {
        text.append(".await");
    }
    assert(text@ =~= call_text(base@, views(args@)));
    text
}

/// Writes the test entry of one case.
pub fn emit_entry(base: &BaseFunction, case: &ResolvedCase) -> (text: String)
    ensures
        text@ == entry_text(base@, case@),
{
    let mut text = String::from_str("    #[test]\n    ");
    if base.is_async {
        text.append("async fn ");
    } else {
        text.append("fn ");
    }
    text.append(case.identifier.as_str());
    text.append("() {\n        ");
    let call = emit_call(base, &case.arguments);
    text.append(call.as_str());
    text.append(";\n    }\n");
    assert(text@ =~= entry_text(base@, case@));
    text
}

/// Writes the module of a group with the entries of its cases.
pub fn emit_group(result: &ExpansionResult) -> (text: String)
    ensures
        text@ == group_text(result@),
{
    let mut text = String::from_str("#[cfg(test)]\nmod ");
    text.append(result.group_identifier.as_str());
    text.append(" {\n    use super::*;\n");
    let ghost head = text@;
    let mut i: usize = 0;
    while i < result.cases.len()
        invariant
            i <= result.cases.len(),
            text@ == head + entries_text(result.body@, views(result.cases@.take(i as int))),
        decreases result.cases.len() - i,
    {
        let entry = emit_entry(&result.body, &result.cases[i]);
        text.append(entry.as_str());
        proof {
            let before = views(result.cases@.take(i as int));
            let after = views(result.cases@.take(i + 1));
            assert(after.drop_last() =~= before);
            assert(after.last() == result.cases@[i as int]@);
            assert(text@ =~= head + entries_text(result.body@, after));
        }
        i += 1;
    }
    assert(result.cases@.take(result.cases.len() as int) =~= result.cases@);
    text.append("}\n");
    assert(text@ =~= group_text(result@));
    text
}

/// Writes all that an expansion emits.
pub fn emit(result: &ExpansionResult) -> (text: String)
    ensures
        text@ == emitted_text(result@),
{
    let mut text = result.body.source.clone();
    text.append("\n");
    let group = emit_group(result);
    text.append(group.as_str());
    assert(text@ =~= emitted_text(result@));
    text
}

/// A case without arguments calls the base function with nothing between
/// the parentheses.
pub proof fn law_call_without_arguments(base: BaseFunctionView)
    ensures
        !base.is_async ==> call_text(base, Seq::empty()) == base.name + "()"@,
        base.is_async ==> call_text(base, Seq::empty()) == base.name + "().await"@,
{
    reveal_strlit("(");
    reveal_strlit(")");
    reveal_strlit("()");
    reveal_strlit(".await");
    reveal_strlit("().await");
    assert(join(texts(Seq::<ExpressionView>::empty()), ", "@) =~= Seq::<char>::empty());
    if base.is_async {
        assert(call_text(base, Seq::empty()) =~= base.name + "().await"@);
    } else {
        assert(call_text(base, Seq::empty()) =~= base.name + "()"@);
    }
}

/// The base function is emitted as it was given: the emitted text starts
/// with the source of the base function, and the module of the group follows
/// on the next line.
pub proof fn law_base_function_is_unchanged(result: ExpansionResultView)
    ensures
        emitted_text(result).len() == result.body.source.len() + 1 + group_text(result).len(),
        emitted_text(result).subrange(0, result.body.source.len() as int) == result.body.source,
        emitted_text(result)[result.body.source.len() as int] == '\n',
        emitted_text(result).subrange(
            (result.body.source.len() + 1) as int,
            emitted_text(result).len() as int,
        ) == group_text(result),
{
    reveal_strlit("\n");
    let text = emitted_text(result);
    let source = result.body.source;
    assert(text.subrange(0, source.len() as int) =~= source);
    assert(text.subrange((source.len() + 1) as int, text.len() as int) =~= group_text(result));
}

/// Each case is emitted by itself: the entries of a list of cases are the
/// entries of the cases before the last, followed by the entry of the last,
/// which depends on the base function and on that case alone.
pub proof fn law_entries_are_independent(
    base: BaseFunctionView,
    cases: Seq<ResolvedCaseView>,
    case: ResolvedCaseView,
)
    ensures
        entries_text(base, cases.push(case)) == entries_text(base, cases) + entry_text(base, case),
        entries_text(base, Seq::empty()) == Seq::<char>::empty(),
{
    assert(cases.push(case).drop_last() =~= cases);
}

} // verus!
