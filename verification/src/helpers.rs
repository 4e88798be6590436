//! Text helpers shared by the entities.
use vstd::prelude::*;
use crate::options::{option_pairs, pairs_map, parse_pairs, OptionMap};
use crate::text::{chars_of, split, split_vec, vviews};

verus! {

/// What `str::to_lowercase` gives for a text (Unicode lower case mapping).
pub uninterp spec fn spec_to_lowercase(s: Seq<char>) -> Seq<char>;

/// What `char::to_uppercase` gives for a character (Unicode upper case mapping).
pub uninterp spec fn spec_char_to_uppercase(c: char) -> Seq<char>;

/// Whether every character of `s` is ASCII.
pub open spec fn is_ascii_text(s: Seq<char>) -> bool {
    forall|i: int| 0 <= i < s.len() ==> (s[i] as u32) < 128
}

/// The ASCII lower case of a character: `A` to `Z` become `a` to `z`, any
/// other character stays.
pub open spec fn ascii_lower_char(c: char) -> char {
    if 'A' <= c && c <= 'Z' {
        ((c as u32) + 32) as char
    } else {
        c
    }
}

/// The ASCII upper case of a character: `a` to `z` become `A` to `Z`, any
/// other character stays.
pub open spec fn ascii_upper_char(c: char) -> char {
    if 'a' <= c && c <= 'z' {
        ((c as u32) - 32) as char
    } else {
        c
    }
}

/// Calls `str::to_lowercase`; the result is named `spec_to_lowercase` of the
/// input. For ASCII text it is also stated: each letter `A` to `Z` becomes
/// its lower case and every other character stays, as the Unicode mappings
/// that the documentation names give.
#[verifier::external_body]
pub(crate) fn to_lowercase(s: &str) -> (r: String)
    ensures
        r@ == spec_to_lowercase(s@),
        is_ascii_text(s@) ==> r@ == s@.map_values(|c: char| ascii_lower_char(c)),
{
    s.to_lowercase()
}

/// Calls `char::to_uppercase` and collects it; the result is named
/// `spec_char_to_uppercase` of the input, and holds at least one character,
/// as the documentation says the mapping yields one or more. For an ASCII
/// character it is that character's ASCII upper case, the one-to-one mapping
/// of the Unicode data (or the character itself, which has none).
#[verifier::external_body]
fn char_to_uppercase(c: char) -> (r: String)
    ensures
        r@ == spec_char_to_uppercase(c),
        r@.len() >= 1,
        (c as u32) < 128 ==> r@ == seq![ascii_upper_char(c)],
{
    c.to_uppercase().collect()
}

/// The capitalized form of a text: its first character in upper case and the
/// rest in lower case.
pub open spec fn spec_capitalize(text: Seq<char>) -> Seq<char> {
    if text.len() == 0 {
        Seq::empty()
    } else {
        spec_char_to_uppercase(text[0]) + spec_to_lowercase(text.drop_first())
    }
}

/// The capitalized form of an ASCII text: the first letter in upper case,
/// the other letters in lower case, other characters kept.
pub open spec fn ascii_capitalize(text: Seq<char>) -> Seq<char> {
    if text.len() == 0 {
        Seq::empty()
    } else {
        seq![ascii_upper_char(text[0])] + text.drop_first().map_values(|c: char| ascii_lower_char(c))
    }
}

/// Capitalizes `text`.
pub fn capitalize(text: &str) -> (r: String)
    ensures
        r@ == spec_capitalize(text@),
        text@.len() > 0 ==> r@.len() > 0,
        is_ascii_text(text@) ==> r@ == ascii_capitalize(text@),
{
    let n = text.unicode_len();
    if n == 0 {
        return String::new();
    }
    let first = text.get_char(0);
    let rest = text.substring_char(1, n);
    let mut r = char_to_uppercase(first);
    let lower = to_lowercase(rest);
    r.append(lower.as_str());
    assert(rest@ =~= text@.drop_first());
    r
}

/// Splits CSS-like styles (`key: value; key: value`) into a map from property
/// to value; a piece without `:` is skipped, a later property wins.
pub fn split_styles(style: &str) -> (r: OptionMap)
    ensures
        r@ == pairs_map(split(style@, ';'), false),
        r.pairs() == option_pairs(split(style@, ';'), false),
{
    let v = chars_of(style);
    let ps = split_vec(&v, ';');
    let r = parse_pairs(&ps, 0, false);
    assert(vviews(ps@).skip(0) =~= split(style@, ';'));
    r
}

} // verus!
