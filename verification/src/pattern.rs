//! Regular-expression matching, done by the `regex` crate.
//!
//! Nothing of the matching itself is proved here. The library gives the result
//! of a search a name and proves what it builds on top of that result.

use vstd::prelude::*;

verus! {

/// The capture groups of every match of `pattern` in `haystack`, as the
/// `regex` crate finds them.
///
/// `None` stands for a pattern that does not compile. Otherwise there is one
/// element for each match, in the order of the matches in `haystack`. An
/// element lists the groups of the match by their number: first the whole
/// match, which is group 0, then the groups of the pattern in the order of
/// their opening parentheses. A group is the text it matched, or `None`
/// where it took no part in the match.
pub uninterp spec fn regex_captures(pattern: Seq<char>, haystack: Seq<char>) -> Option<
    Seq<Seq<Option<Seq<char>>>>,
>;

/// Compiles `pattern` with `regex::Regex::new` and walks
/// `regex::Regex::captures_iter` over `haystack`.
///
/// Trusted: the result is a function of the two texts, which is all the
/// contract says. The body copies each group's text out of the haystack and
/// turns a compile error into `None`.
#[verifier::external_body]
pub(crate) fn captures_of(pattern: &str, haystack: &str) -> (found: Option<
    Vec<Vec<Option<String>>>,
>)
    ensures
        found.deep_view() == regex_captures(pattern@, haystack@),
{
    let re = regex::Regex::new(pattern).ok()?;
    let mut found = Vec::new();
    for caps in re.captures_iter(haystack) {
        found.push(caps.iter().map(|g| g.map(|m| m.as_str().to_string())).collect());
    }
    Some(found)
}

/// The parts of `haystack` that no match of `pattern` covers, as the `regex`
/// crate cuts them: what stands before the first match, then what stands
/// behind each match up to the next one or to the end.
///
/// `None` stands for a pattern that does not compile.
pub uninterp spec fn regex_split(pattern: Seq<char>, haystack: Seq<char>) -> Option<
    Seq<Seq<char>>,
>;

/// Compiles `pattern` with `regex::Regex::new` and walks
/// `regex::Regex::split` over `haystack`.
///
/// Trusted: the result is a function of the two texts, which is all the
/// contract says. The body copies each part out of the haystack and turns a
/// compile error into `None`.
#[verifier::external_body]
pub(crate) fn split_by(pattern: &str, haystack: &str) -> (parts: Option<Vec<String>>)
    ensures
        parts.deep_view() == regex_split(pattern@, haystack@),
{
    let re = regex::Regex::new(pattern).ok()?;
    Some(re.split(haystack).map(|part| part.to_string()).collect())
}

/// The text of group `i` of one match, empty where the match has no such
/// group or the group took no part in it.
pub open spec fn group_text(groups: Seq<Option<Seq<char>>>, i: int) -> Seq<char> {
    if 0 <= i < groups.len() && groups[i] is Some {
        groups[i]->0
    } else {
        Seq::empty()
    }
}

/// The text of group `i` of one match: see [`group_text`].
pub fn group(groups: &Vec<Option<String>>, i: usize) -> (text: String)
    ensures
        text@ == group_text(groups.deep_view(), i as int),
{
    if i < groups.len() {
        match &groups[i] {
            Some(s) => s.clone(),
            None => String::new(),
        }
    } else {
        String::new()
    }
}

} // verus!
