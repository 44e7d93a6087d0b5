//! Cutting a text into parts at a separator, and joining parts.

use crate::search::{first_index, lemma_first_index, lemma_first_index_is};
use crate::text::{lemma_chars_view, string_of};
use vstd::prelude::*;
use vstd::string::StringExecFns;

verus! {

/// The parts of `s` that the separator `c` delimits, as `str::split` gives
/// them: one part more than `s` holds separators.
pub open spec fn split(s: Seq<char>, c: char) -> Seq<Seq<char>>
    decreases s.len(),
{
    let k = first_index(s, c);
    if 0 <= k < s.len() {
        seq![s.take(k)] + split(s.skip(k + 1), c)
    } else {
        seq![s]
    }
}

/// How the parts change when a character is added at the end: a separator
/// opens a new, empty part, and any other character joins the last part.
pub proof fn lemma_split_push(s: Seq<char>, c: char, sep: char)
    ensures
        split(s, sep).len() >= 1,
        c == sep ==> split(s.push(c), sep) == split(s, sep).push(Seq::empty()),
        c != sep ==> split(s.push(c), sep) == split(s, sep).drop_last().push(
            split(s, sep).last().push(c),
        ),
    decreases s.len(),
{
    let k = first_index(s, sep);
    let longer = s.push(c);
    lemma_first_index(s, sep);
    if k < s.len() {
        lemma_first_index_is(longer, sep, k);
        assert(longer.take(k) =~= s.take(k));
        assert(longer.skip(k + 1) =~= s.skip(k + 1).push(c));
        lemma_split_push(s.skip(k + 1), c, sep);
        let tail = split(s.skip(k + 1), sep);
        if c == sep {
            assert(split(longer, sep) =~= split(s, sep).push(Seq::empty()));
        } else {
            assert(split(longer, sep) =~= split(s, sep).drop_last().push(
                split(s, sep).last().push(c),
            ));
        }
    } else if c == sep {
        lemma_first_index_is(longer, sep, s.len() as int);
        assert(longer.take(s.len() as int) =~= s);
        assert(longer.skip(s.len() as int + 1) =~= Seq::<char>::empty());
        assert(split(Seq::<char>::empty(), sep) =~= seq![Seq::<char>::empty()]);
        assert(split(longer, sep) =~= split(s, sep).push(Seq::empty()));
    } else {
        lemma_first_index_is(longer, sep, longer.len() as int);
        assert(split(longer, sep) =~= split(s, sep).drop_last().push(split(s, sep).last().push(c)));
    }
}

/// The parts of `v` that the separator `sep` delimits.
pub fn split_chars(v: &Vec<char>, sep: char) -> (parts: Vec<Vec<char>>)
    ensures
        parts.deep_view() == split(v@, sep),
{
    let mut parts: Vec<Vec<char>> = Vec::new();
    let mut current: Vec<char> = Vec::new();
    let mut i: usize = 0;
    assert(v@.take(0) =~= Seq::<char>::empty());
    assert(split(Seq::<char>::empty(), sep) =~= seq![Seq::<char>::empty()]);
    assert(parts.deep_view().push(current@) =~= split(v@.take(0), sep));
    while i < v.len()
        invariant
            i <= v.len(),
            parts.deep_view().push(current@) == split(v@.take(i as int), sep),
        decreases v.len() - i,
    {
        let ghost before = split(v@.take(i as int), sep);
        proof {
            lemma_split_push(v@.take(i as int), v@[i as int], sep);
            assert(v@.take(i + 1) =~= v@.take(i as int).push(v@[i as int]));
            assert(before.last() == current@);
            assert(before.drop_last() =~= parts.deep_view());
        }
        if v[i] == sep {
            let ghost done = parts.deep_view();
            proof {
                lemma_chars_view(current);
            }
            parts.push(current);
            assert(parts.deep_view() =~= done.push(current@));
            current = Vec::new();
        } else {
            current.push(v[i]);
        }
        i += 1;
    }
    assert(v@.take(v.len() as int) =~= v@);
    let ghost done = parts.deep_view();
    proof {
        lemma_chars_view(current);
    }
    parts.push(current);
    assert(parts.deep_view() =~= done.push(current@));
    parts
}

/// The parts that are not empty, in order.
pub open spec fn nonempty_parts(parts: Seq<Seq<char>>) -> Seq<Seq<char>>
    decreases parts.len(),
{
    if parts.len() == 0 {
        Seq::empty()
    } else if parts.last().len() == 0 {
        nonempty_parts(parts.drop_last())
    } else {
        nonempty_parts(parts.drop_last()).push(parts.last())
    }
}

/// The parts laid end to end, with `sep` between each two.
pub open spec fn joined(parts: Seq<Seq<char>>, sep: Seq<char>) -> Seq<char>
    decreases parts.len(),
{
    if parts.len() == 0 {
        Seq::empty()
    } else if parts.len() == 1 {
        parts[0]
    } else {
        joined(parts.drop_last(), sep) + sep + parts.last()
    }
}

/// The parts of `parts` that are not empty, with `sep` between each two.
pub fn join_nonempty(parts: &Vec<Vec<char>>, sep: &str) -> (r: String)
    ensures
        r@ == joined(nonempty_parts(parts.deep_view()), sep@),
{
    let ghost all = parts.deep_view();
    let mut out = String::new();
    let mut started = false;
    let mut i: usize = 0;
    assert(all.take(0) =~= Seq::<Seq<char>>::empty());
    while i < parts.len()
        invariant
            i <= parts.len(),
            all == parts.deep_view(),
            started == (nonempty_parts(all.take(i as int)).len() > 0),
            out@ == joined(nonempty_parts(all.take(i as int)), sep@),
        decreases parts.len() - i,
    {
        proof {
            assert(all.take(i + 1).drop_last() =~= all.take(i as int));
            lemma_chars_view(parts[i as int]);
        }
        if parts[i].len() > 0 {
            let part = string_of(&parts[i]);
            let ghost kept = nonempty_parts(all.take(i as int));
            assert(kept.push(part@).drop_last() =~= kept);
            if started {
                out.append(sep);
                out.append(part.as_str());
            } else {
                out = part;
            }
            started = true;
        }
        i += 1;
    }
    assert(all.take(parts.len() as int) =~= all);
    out
}

/// `s` without any occurrence of `c`.
pub open spec fn without_char(s: Seq<char>, c: char) -> Seq<char>
    decreases s.len(),
{
    if s.len() == 0 {
        Seq::empty()
    } else if s.last() == c {
        without_char(s.drop_last(), c)
    } else {
        without_char(s.drop_last(), c).push(s.last())
    }
}

/// The characters of `v` that differ from `c`, in order.
pub fn remove_char(v: &Vec<char>, c: char) -> (r: Vec<char>)
    ensures
        r@ == without_char(v@, c),
{
    let mut r: Vec<char> = Vec::new();
    let mut i: usize = 0;
    while i < v.len()
        invariant
            i <= v.len(),
            r@ == without_char(v@.take(i as int), c),
        decreases v.len() - i,
    {
        assert(v@.take(i + 1).drop_last() =~= v@.take(i as int));
        if v[i] != c {
            r.push(v[i]);
        }
        i += 1;
    }
    assert(v@.take(v.len() as int) =~= v@);
    r
}

} // verus!
