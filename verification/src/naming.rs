//! The names of the generated entries: an explicit name, a slug, a name made
//! of the arguments, or a zero-padded position, in this order of priority.

use vstd::prelude::*;
use crate::model::{
    clone_expressions, lemma_views_push, views, Expression, ExpressionView, NameToken,
    NameTokenView, NormalizedCase, NormalizedCaseView, ResolvedCase, ResolvedCaseView,
};
use crate::slug::{is_digit, slug, slugify};
use crate::text::{join, join_texts, push_char, texts};

verus! {

/// The character of the decimal digit `d`.
pub open spec fn digit_char(d: nat) -> char
    recommends
        d < 10,
{
    (48 + d) as char
}

/// The decimal notation of `n`, without sign or leading zeros.
pub open spec fn decimal(n: nat) -> Seq<char>
    decreases n,
{
    if n < 10 {
        seq![digit_char(n)]
    } else {
        decimal(n / 10).push(digit_char(n % 10))
    }
}

/// The decimal notation of `n`, with zeros in front up to `width` characters.
pub open spec fn padded(n: nat, width: nat) -> Seq<char> {
    let digits = decimal(n);
    if digits.len() < width {
        Seq::new((width - digits.len()) as nat, |i: int| '0') + digits
    } else {
        digits
    }
}

/// The number of characters that a position takes in a group of `total`
/// cases: as many as `total` has digits, up to three, and no padding from a
/// thousand cases on.
pub open spec fn counter_width(total: nat) -> nat {
    if total < 10 {
        1
    } else if total < 100 {
        2
    } else if total < 1000 {
        3
    } else {
        1
    }
}

/// The name of the case at `position` (counted from 1) among `total` cases
/// when nothing else names it.
pub open spec fn counter_name(position: nat, total: nat) -> Seq<char> {
    "case_"@ + padded(position, counter_width(total))
}

/// The number of decimal digits of `n`.
pub open spec fn digit_count(n: nat) -> nat
    decreases n,
{
    if n < 10 {
        1
    } else {
        digit_count(n / 10) + 1
    }
}

/// The decimal notation of `n` has `digit_count(n)` characters.
pub proof fn lemma_decimal_len(n: nat)
    ensures
        decimal(n).len() == digit_count(n),
    decreases n,
{
    if n >= 10 {
        lemma_decimal_len(n / 10);
    }
}

/// Counts the decimal digits of `n`.
fn count_digits(n: usize) -> (count: usize)
    ensures
        count == digit_count(n as nat),
{
    let mut count: usize = 1;
    let mut rest: usize = n;
    while rest >= 10
        invariant
            1 <= count,
            count + rest <= n + 1,
            count + digit_count(rest as nat) == digit_count(n as nat) + 1,
        decreases rest,
    {
        rest = rest / 10;
        count = count + 1;
    }
    count
}

/// Appends the decimal notation of `n` to `s`.
fn push_decimal(s: &mut String, n: usize)
    ensures
        final(s)@ == old(s)@ + decimal(n as nat),
    decreases n,
{
    if n >= 10 {
        push_decimal(s, n / 10);
    }
    let d: u8 = (n % 10) as u8;
    push_char(s, (48u8 + d) as char);
    assert(final(s)@ =~= old(s)@ + decimal(n as nat));
}

/// Appends the decimal notation of `n` to `s`, with zeros in front up to
/// `width` characters.
fn push_padded(s: &mut String, n: usize, width: usize)
    ensures
        final(s)@ == old(s)@ + padded(n as nat, width as nat),
{
    let count = count_digits(n);
    proof {
        lemma_decimal_len(n as nat);
    }
    let mut written: usize = count;
    while written < width
        invariant
            count <= written,
            count < width ==> written <= width,
            count >= width ==> written == count,
            s@ == old(s)@ + Seq::new((written - count) as nat, |i: int| '0'),
        decreases width - written,
    {
        push_char(s, '0');
        written = written + 1;
        assert(s@ =~= old(s)@ + Seq::new((written - count) as nat, |i: int| '0'));
    }
    let ghost zeros = Seq::new((written - count) as nat, |i: int| '0');
    push_decimal(s, n);
    proof {
        if count < width {
            assert(written == width);
            assert(padded(n as nat, width as nat) == zeros + decimal(n as nat));
        } else {
            assert(zeros =~= Seq::empty());
            assert(padded(n as nat, width as nat) =~= zeros + decimal(n as nat));
        }
        assert(s@ =~= old(s)@ + (zeros + decimal(n as nat)));
    }
}

/// The name that the arguments of a case give it: the slug of their texts
/// joined by `_`.
pub open spec fn args_name(args: Seq<ExpressionView>) -> Seq<char> {
    slug(join(texts(args), "_"@))
}

/// The identifier that a name token gives by itself: an identifier as it is
/// written, the slug of a string that is not empty, and nothing otherwise.
pub open spec fn explicit_name(name: NameTokenView) -> Option<Seq<char>> {
    match name {
        NameTokenView::Identifier(text) => Some(text),
        NameTokenView::StringLiteral(text) => if text.len() > 0 {
            Some(slug(text))
        } else {
            None
        },
        NameTokenView::Absent => None,
    }
}

/// The identifier of a case from its name and its position alone.
pub open spec fn counter_case_name(name: NameTokenView, position: nat, total: nat) -> Seq<char> {
    match explicit_name(name) {
        Some(text) => text,
        None => counter_name(position, total),
    }
}

/// The identifier of the case at `position` (counted from 1) among `total`
/// cases. The first rule that applies decides: an explicit name; with
/// `use_args` set, the name made of the arguments, if there are any; the
/// position.
pub open spec fn case_identifier(
    name: NameTokenView,
    args: Seq<ExpressionView>,
    use_args: bool,
    position: nat,
    total: nat,
) -> Seq<char> {
    match explicit_name(name) {
        Some(text) => text,
        None => if use_args && args.len() > 0 {
            args_name(args)
        } else {
            counter_name(position, total)
        },
    }
}

/// Names a case by its own name, or else by `counter`, its position counted
/// from 1 among `n_all` cases.
pub fn case_name_with_counter(name: &NameToken, counter: usize, n_all: usize) -> (identifier:
    String)
    ensures
        identifier@ == counter_case_name(name@, counter as nat, n_all as nat),
{
    match name {
        NameToken::Identifier(text) => text.clone(),
        NameToken::StringLiteral(text) if !text.as_str().is_empty() => slugify(text.as_str()),
        _ => {
            let width: usize = if n_all < 10 {
                1
            } else if n_all < 100 {
                2
            } else if n_all < 1000 {
                3
            } else {
                1
            };
            let mut identifier = String::from_str("case_");
            push_padded(&mut identifier, counter, width);
            identifier
        },
    }
}

/// Names a case by its arguments.
pub fn case_name_with_args(args: &Vec<Expression>) -> (identifier: String)
    ensures
        identifier@ == args_name(views(args@)),
{
    let joined = join_texts(args, "_");
    slugify(joined.as_str())
}

/// Names a case by the first rule that applies: its own name; with
/// `use_args` set, its arguments, if it has any; `counter`, its position
/// counted from 1 among `n_all` cases.
pub fn case_name(
    name: &NameToken,
    args: &Vec<Expression>,
    use_args: bool,
    counter: usize,
    n_all: usize,
) -> (identifier: String)
    ensures
        identifier@ == case_identifier(
            name@,
            views(args@),
            use_args,
            counter as nat,
            n_all as nat,
        ),
{
    let unnamed = match name {
        NameToken::Identifier(_) => false,
        NameToken::StringLiteral(text) => text.as_str().is_empty(),
        NameToken::Absent => true,
    };
    if unnamed && use_args && args.len() > 0 {
        case_name_with_args(args)
    } else {
        case_name_with_counter(name, counter, n_all)
    }
}

/// The identifier of a group: what its name token gives by itself, and the
/// identifier of the base function where the token gives nothing.
pub open spec fn group_identifier(group: NameTokenView, base_name: Seq<char>) -> Seq<char> {
    match explicit_name(group) {
        Some(text) => text,
        None => base_name,
    }
}

/// Names the group of a base function called `base_name`.
pub fn group_name(group: &NameToken, base_name: &str) -> (identifier: String)
    ensures
        identifier@ == group_identifier(group@, base_name@),
{
    match group {
        NameToken::Identifier(text) => text.clone(),
        NameToken::StringLiteral(text) if !text.as_str().is_empty() => slugify(text.as_str()),
        _ => String::from_str(base_name),
    }
}

/// The case at `position` (counted from 1) among `total` cases with its
/// identifier; its arguments stay as they are.
pub open spec fn resolved_case(
    case: NormalizedCaseView,
    use_args: bool,
    position: nat,
    total: nat,
) -> ResolvedCaseView {
    ResolvedCaseView {
        identifier: case_identifier(case.name, case.arguments, use_args, position, total),
        arguments: case.arguments,
    }
}

/// Every case with its identifier, in the order given. The position of a
/// case counts every case before it, whichever rule names them.
pub open spec fn resolved_cases(cases: Seq<NormalizedCaseView>, use_args: bool) -> Seq<
    ResolvedCaseView,
> {
    Seq::new(
        cases.len(),
        |i: int| resolved_case(cases[i], use_args, (i + 1) as nat, cases.len()),
    )
}

/// Gives every case its identifier, in the order given.
pub fn resolve_names(cases: &Vec<NormalizedCase>, use_args: bool) -> (result: Vec<ResolvedCase>)
    ensures
        views(result@) == resolved_cases(views(cases@), use_args),
{
    let n_all = cases.len();
    let mut result: Vec<ResolvedCase> = Vec::new();
    let mut i: usize = 0;
    while i < n_all
        invariant
            n_all == cases.len(),
            i <= n_all,
            views(result@) == resolved_cases(views(cases@), use_args).take(i as int),
        decreases n_all - i,
    {
        let ghost before = result@;
        let case = &cases[i];
        let identifier = case_name(&case.name, &case.arguments, use_args, i + 1, n_all);
        let resolved = ResolvedCase { identifier, arguments: clone_expressions(&case.arguments) };
        result.push(resolved);
        proof {
            lemma_views_push(before, resolved);
            assert(resolved@ == resolved_case(
                views(cases@)[i as int],
                use_args,
                (i + 1) as nat,
                cases.len() as nat,
            ));
            assert(views(result@) =~= resolved_cases(views(cases@), use_args).take(i + 1));
        }
        i += 1;
    }
    assert(views(result@) =~= resolved_cases(views(cases@), use_args));
    result
}

/// An explicit name always wins: a case named by an identifier, or by a
/// string that is not empty, gets the identifier that this name gives,
/// whatever the naming option says and whatever its arguments and its
/// position are. An identifier is taken as it is written, a string by its
/// slug.
pub proof fn law_explicit_name_wins(
    name: NameTokenView,
    args: Seq<ExpressionView>,
    use_args: bool,
    position: nat,
    total: nat,
)
    requires
        name.is_explicit(),
    ensures
        case_identifier(name, args, use_args, position, total) == explicit_name(name)->Some_0,
        case_identifier(name, args, use_args, position, total) == case_identifier(
            name,
            args,
            !use_args,
            position,
            total,
        ),
        name matches NameTokenView::Identifier(text) ==> case_identifier(
            name,
            args,
            use_args,
            position,
            total,
        ) == text,
        name matches NameTokenView::StringLiteral(text) ==> case_identifier(
            name,
            args,
            use_args,
            position,
            total,
        ) == slug(text),
{
}

/// A case without an explicit name is named by its arguments where the
/// naming option is set and it has arguments, and by its position in every
/// other case: with the option off, and with no argument at all.
pub proof fn law_unnamed_case(
    name: NameTokenView,
    args: Seq<ExpressionView>,
    use_args: bool,
    position: nat,
    total: nat,
)
    requires
        !name.is_explicit(),
    ensures
        use_args && args.len() > 0 ==> case_identifier(name, args, use_args, position, total)
            == args_name(args),
        !use_args || args.len() == 0 ==> case_identifier(name, args, use_args, position, total)
            == counter_name(position, total),
{
}

/// Counter padding: a position within a group is written in one width. In a
/// group of fewer than 10 cases, and in one of 1000 or more, it is the plain
/// decimal notation; in a group of 10 to 99 cases it takes two characters,
/// in one of 100 to 999 three, with zeros in front.
pub proof fn law_counter_padding(position: nat, total: nat)
    requires
        1 <= position <= total,
    ensures
        counter_name(position, total) == "case_"@ + padded(position, counter_width(total)),
        total < 10 || total >= 1000 ==> padded(position, counter_width(total)) == decimal(
            position,
        ),
        10 <= total < 100 ==> padded(position, counter_width(total)).len() == 2,
        10 <= total < 100 && position < 10 ==> padded(position, counter_width(total)) == seq![
            '0',
            digit_char(position),
        ],
        100 <= total < 1000 ==> padded(position, counter_width(total)).len() == 3,
        100 <= total < 1000 && position < 10 ==> padded(position, counter_width(total)) == seq![
            '0',
            '0',
            digit_char(position),
        ],
        padded(position, counter_width(total)).len() >= decimal(position).len(),
        padded(position, counter_width(total)).subrange(
            padded(position, counter_width(total)).len() - decimal(position).len(),
            padded(position, counter_width(total)).len() as int,
        ) == decimal(position),
{
    lemma_decimal_len(position);
    reveal_with_fuel(digit_count, 4);
    reveal_with_fuel(decimal, 4);
    let digits = decimal(position);
    let width = counter_width(total);
    let text = padded(position, width);
    if digits.len() < width {
        let zeros = Seq::new((width - digits.len()) as nat, |i: int| '0');
        assert(text == zeros + digits);
        assert(text.subrange(text.len() - digits.len(), text.len() as int) =~= digits);
        if position < 10 && 10 <= total < 100 {
            assert(text =~= seq!['0', digit_char(position)]);
        }
        if position < 10 && 100 <= total < 1000 {
            assert(text =~= seq!['0', '0', digit_char(position)]);
        }
    } else {
        assert(text.subrange(0, text.len() as int) =~= digits);
    }
}

/// Positions name unnamed cases: a case without an explicit name, in a
/// group whose naming option is off or with no argument of its own, is named
/// by its position among all the cases of the group, counted from 1, and
/// keeps its arguments.
pub proof fn law_unnamed_cases_are_counted(
    cases: Seq<NormalizedCaseView>,
    use_args: bool,
    i: int,
)
    requires
        0 <= i < cases.len(),
        !cases[i].name.is_explicit(),
        !use_args || cases[i].arguments.len() == 0,
    ensures
        resolved_cases(cases, use_args).len() == cases.len(),
        resolved_cases(cases, use_args)[i].identifier == counter_name(
            (i + 1) as nat,
            cases.len(),
        ),
        resolved_cases(cases, use_args)[i].arguments == cases[i].arguments,
{
}

/// The number that a sequence of decimal digits denotes.
pub open spec fn decimal_value(digits: Seq<char>) -> nat
    decreases digits.len(),
{
    if digits.len() == 0 {
        0
    } else {
        (decimal_value(digits.drop_last()) * 10 + (digits.last() as nat - 48)) as nat
    }
}

/// The decimal notation of a number holds digits only, has no zero in front
/// unless the number is below 10, and denotes that number.
pub proof fn law_decimal_denotes(n: nat)
    ensures
        decimal(n).len() >= 1,
        forall|i: int| 0 <= i < decimal(n).len() ==> is_digit(#[trigger] decimal(n)[i]),
        n >= 10 ==> decimal(n)[0] != '0',
        decimal_value(decimal(n)) == n,
    decreases n,
{
    if n < 10 {
        assert(decimal(n).drop_last() =~= Seq::<char>::empty());
        assert(decimal_value(decimal(n).drop_last()) == 0);
    } else {
        law_decimal_denotes(n / 10);
        assert(decimal(n).drop_last() =~= decimal(n / 10));
        assert(decimal(n)[0] == decimal(n / 10)[0]);
        if n / 10 < 10 {
            assert(decimal(n / 10)[0] == digit_char(n / 10));
        }
    }
}

/// Zeros in front change nothing of what the digits denote.
proof fn lemma_zeros_in_front(count: nat, digits: Seq<char>)
    ensures
        decimal_value(Seq::new(count, |i: int| '0') + digits) == decimal_value(digits),
    decreases digits.len(), count,
{
    let zeros = Seq::new(count, |i: int| '0');
    if digits.len() == 0 {
        assert(zeros + digits =~= zeros);
        if count > 0 {
            let fewer = Seq::new((count - 1) as nat, |i: int| '0');
            assert(zeros.drop_last() =~= fewer + digits);
            lemma_zeros_in_front((count - 1) as nat, digits);
        }
    } else {
        assert((zeros + digits).drop_last() =~= zeros + digits.drop_last());
        lemma_zeros_in_front(count, digits.drop_last());
    }
}

/// Padding changes nothing of what a position denotes.
pub proof fn law_padding_keeps_value(n: nat, width: nat)
    ensures
        decimal_value(padded(n, width)) == n,
{
    law_decimal_denotes(n);
    if decimal(n).len() < width {
        lemma_zeros_in_front((width - decimal(n).len()) as nat, decimal(n));
    }
}

/// Positions give distinct names: within one group, two different positions
/// never give the same name.
pub proof fn law_counter_names_are_distinct(first: nat, second: nat, total: nat)
    requires
        first != second,
    ensures
        counter_name(first, total) != counter_name(second, total),
{
    let width = counter_width(total);
    let prefix = "case_"@;
    let one = counter_name(first, total);
    let other = counter_name(second, total);
    law_padding_keeps_value(first, width);
    law_padding_keeps_value(second, width);
    if one == other {
        assert(one.subrange(prefix.len() as int, one.len() as int) =~= padded(first, width));
        assert(other.subrange(prefix.len() as int, other.len() as int) =~= padded(second, width));
    }
}

/// Resolution keeps the cases, their order and their arguments: it yields
/// as many cases as it was given, and the case at each index has the
/// arguments of the case given at that index.
pub proof fn law_resolution_keeps_order(cases: Seq<NormalizedCaseView>, use_args: bool, i: int)
    requires
        0 <= i < cases.len(),
    ensures
        resolved_cases(cases, use_args).len() == cases.len(),
        resolved_cases(cases, use_args)[i].arguments == cases[i].arguments,
        resolved_cases(cases, use_args)[i].identifier == case_identifier(
            cases[i].name,
            cases[i].arguments,
            use_args,
            (i + 1) as nat,
            cases.len(),
        ),
{
}

/// Unnamed cases never collide: two different cases of one group that are
/// both named by their position have different identifiers.
pub proof fn law_counted_cases_are_distinct(
    cases: Seq<NormalizedCaseView>,
    use_args: bool,
    i: int,
    j: int,
)
    requires
        0 <= i < j < cases.len(),
        !cases[i].name.is_explicit(),
        !cases[j].name.is_explicit(),
        !use_args || (cases[i].arguments.len() == 0 && cases[j].arguments.len() == 0),
    ensures
        resolved_cases(cases, use_args)[i].identifier != resolved_cases(
            cases,
            use_args,
        )[j].identifier,
{
    law_counter_names_are_distinct((i + 1) as nat, (j + 1) as nat, cases.len());
}

} // verus!
