//! Small helpers on strings that the standard library offers without a
//! specification.

use vstd::prelude::*;
use crate::model::{views, Expression, ExpressionView};

verus! {

/// Appends one character to `s`.
///
/// Trusted: calls `String::push`, which appends the given character to the
/// end of the string and leaves what was there in place.
#[verifier::external_body]
pub(crate) fn push_char(s: &mut String, c: char)
    ensures
        final(s)@ == old(s)@.push(c),
{
    s.push(c)
}

/// The parts put one after another, with `separator` between each two.
pub open spec fn join(parts: Seq<Seq<char>>, separator: Seq<char>) -> Seq<char>
    decreases parts.len(),
{
    if parts.len() == 0 {
        Seq::empty()
    } else if parts.len() == 1 {
        parts[0]
    } else {
        join(parts.drop_last(), separator) + separator + parts.last()
    }
}

/// The texts of the expressions, in order.
pub open spec fn texts(args: Seq<ExpressionView>) -> Seq<Seq<char>> {
    args.map_values(|arg: ExpressionView| arg.text)
}

/// Writes the texts of the expressions one after another, with `separator`
/// between each two.
pub fn join_texts(args: &Vec<Expression>, separator: &str) -> (joined: String)
    ensures
        joined@ == join(texts(views(args@)), separator@),
{
    let mut joined = String::new();
    let mut i: usize = 0;
    while i < args.len()
        invariant
            i <= args.len(),
            joined@ == join(texts(views(args@.take(i as int))), separator@),
        decreases args.len() - i,
    {
        if i > 0 {
            joined.append(separator);
        }
        joined.append(args[i].text.as_str());
        proof {
            let before = texts(views(args@.take(i as int)));
            let after = texts(views(args@.take(i + 1)));
            assert(after.drop_last() =~= before);
            assert(after.last() == args@[i as int]@.text);
        }
        i += 1;
    }
    assert(args@.take(args.len() as int) =~= args@);
    joined
}

} // verus!
