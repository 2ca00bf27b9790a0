//! Slugs: the lowercase, underscore-normalized form of a human-readable
//! string, safe for use as an identifier.

use vstd::prelude::*;
use crate::text::push_char;

verus! {

/// Whether `c` is one of `0` to `9`.
pub open spec fn is_digit(c: char) -> bool {
    '0' <= c <= '9'
}

/// Whether `c` is an ASCII letter or digit.
pub open spec fn is_ascii_alphanumeric(c: char) -> bool {
    ('a' <= c <= 'z') || ('A' <= c <= 'Z') || is_digit(c)
}

/// The character that stands for `c` in a slug: an ASCII letter in lower
/// case, an ASCII digit as it is, and `_` for every other character.
pub open spec fn slug_char(c: char) -> char {
    if 'A' <= c <= 'Z' {
        ((c as u8) + 32) as char
    } else if is_ascii_alphanumeric(c) {
        c
    } else {
        '_'
    }
}

/// The slug of `text`: each character replaced by its slug character, and
/// `_` put in front where the result would start with a digit.
pub open spec fn slug(text: Seq<char>) -> Seq<char> {
    let mapped = text.map_values(|c: char| slug_char(c));
    if mapped.len() > 0 && is_digit(mapped[0]) {
        seq!['_'] + mapped
    } else {
        mapped
    }
}

/// Computes the slug character of `c`.
pub fn to_slug_char(c: char) -> (r: char)
    ensures
        r == slug_char(c),
{
    if 'A' <= c && c <= 'Z' {
        ((c as u8) + 32) as char
    } else if ('a' <= c && c <= 'z') || ('0' <= c && c <= '9') {
        c
    } else {
        '_'
    }
}

/// Turns `name` into its slug.
pub fn slugify(name: &str) -> (s: String)
    ensures
        s@ == slug(name@),
{
    let mut s = String::new();
    let mut first = true;
    for c in it: name.chars()
        invariant
            it.seq() == name@,
            first == (it.index() == 0),
            it.index() > 0 && is_digit(slug_char(name@[0])) ==> s@ == seq!['_'] + name@.take(
                it.index() as int,
            ).map_values(|c: char| slug_char(c)),
            !(it.index() > 0 && is_digit(slug_char(name@[0]))) ==> s@ == name@.take(
                it.index() as int,
            ).map_values(|c: char| slug_char(c)),
    {
        let m = to_slug_char(c);
        if first && '0' <= m && m <= '9' {
            push_char(&mut s, '_');
        }
        first = false;
        push_char(&mut s, m);
        assert(name@.take(it.index() + 1).map_values(|c: char| slug_char(c)) =~= name@.take(
            it.index() as int,
        ).map_values(|c: char| slug_char(c)).push(m));
    }
    assert(name@.take(name@.len() as int) =~= name@);
    s
}

/// Whether `c` may stand in a slug: a lowercase ASCII letter, an ASCII
/// digit, or `_`.
pub open spec fn is_slug_char(c: char) -> bool {
    ('a' <= c <= 'z') || is_digit(c) || c == '_'
}

/// A slug is safe for use as an identifier: it holds lowercase ASCII
/// letters, ASCII digits and `_` only, and does not start with a digit.
pub proof fn law_slug_is_safe(text: Seq<char>)
    ensures
        forall|i: int| 0 <= i < slug(text).len() ==> is_slug_char(#[trigger] slug(text)[i]),
        slug(text).len() > 0 ==> !is_digit(slug(text)[0]),
{
}

/// A slug follows its text character by character: it is as long as the
/// text and holds the slug character of each character, but for a text that
/// starts with a digit, whose slug has `_` in front of all that.
pub proof fn law_slug_follows_text(text: Seq<char>)
    ensures
        text.len() > 0 && is_digit(text[0]) ==> slug(text) == seq!['_'] + text.map_values(
            |c: char| slug_char(c),
        ),
        !(text.len() > 0 && is_digit(text[0])) ==> slug(text) == text.map_values(
            |c: char| slug_char(c),
        ),
        slug(text).len() == 0 <==> text.len() == 0,
{
}

/// The slug of a slug is that slug.
pub proof fn law_slug_is_idempotent(text: Seq<char>)
    ensures
        slug(slug(text)) == slug(text),
{
    law_slug_is_safe(text);
    let once = slug(text);
    assert(once.map_values(|c: char| slug_char(c)) =~= once);
}

} // verus!
