//! Slugs: the name of a post in addresses and on disk.

use crate::search::replaced;
use crate::split::{join_nonempty, joined, nonempty_parts, split, split_chars};
use crate::text::{char_is_alphanumeric, chars_of, lowercase_of};
use vstd::prelude::*;

verus! {

/// `text` with every character that is no letter and no number replaced by
/// a hyphen.
pub open spec fn dashed(text: Seq<char>) -> Seq<char> {
    text.map_values(
        |c: char|
            if char_is_alphanumeric(c) {
                c
            } else {
                '-'
            },
    )
}

/// The slug of a text: the text in lower case, cut into its runs of letters
/// and numbers, with one hyphen between each two runs.
pub open spec fn slug_of(text: Seq<char>) -> Seq<char> {
    joined(nonempty_parts(split(dashed(lowercase_of(text)), '-')), "-"@)
}

/// Derives the slug of a text.
pub fn slugify(text: String) -> (slug: String)
    ensures
        slug@ == slug_of(text@),
{
    let lower = text.as_str().to_lowercase();
    let v = chars_of(lower.as_str());
    let mut d: Vec<char> = Vec::new();
    let mut i: usize = 0;
    while i < v.len()
        invariant
            i <= v.len(),
            d@ =~= dashed(v@).take(i as int),
        decreases v.len() - i,
    {
        if v[i].is_alphanumeric() {
            d.push(v[i]);
        } else {
            d.push('-');
        }
        i += 1;
    }
    assert(dashed(v@).take(v.len() as int) =~= dashed(v@));
    let parts = split_chars(&d, '-');
    join_nonempty(&parts, "-")
}

/// The title that a slug stands for: the slug with a space for each hyphen.
pub open spec fn title_of_slug(slug: Seq<char>) -> Seq<char> {
    replaced(slug, "-"@, " "@)
}

} // verus!
