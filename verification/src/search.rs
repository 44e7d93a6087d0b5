//! Finding a character or a text inside a text, and replacing what was
//! found.

use crate::text::{chars_of, extend_chars, string_of};
use vstd::prelude::*;

verus! {

/// Whether `c` occurs in `s`.
pub open spec fn has_char(s: Seq<char>, c: char) -> bool {
    exists|i: int| 0 <= i < s.len() && s[i] == c
}

/// The index of the first `c` in `s`, or the length of `s` where it holds
/// none.
pub open spec fn first_index(s: Seq<char>, c: char) -> int
    decreases s.len(),
{
    if s.len() == 0 || s[0] == c {
        0
    } else {
        1 + first_index(s.skip(1), c)
    }
}

/// `first_index` is the least index that holds `c`.
pub proof fn lemma_first_index(s: Seq<char>, c: char)
    ensures
        0 <= first_index(s, c) <= s.len(),
        first_index(s, c) < s.len() ==> s[first_index(s, c)] == c,
        forall|i: int| 0 <= i < first_index(s, c) ==> s[i] != c,
    decreases s.len(),
{
    if s.len() > 0 && s[0] != c {
        lemma_first_index(s.skip(1), c);
        assert forall|i: int| 0 <= i < first_index(s, c) implies s[i] != c by {
            if i > 0 {
                assert(s.skip(1)[i - 1] == s[i]);
            }
        }
    }
}

/// An index that holds `c` and has no `c` before it is `first_index`.
pub proof fn lemma_first_index_is(s: Seq<char>, c: char, k: int)
    requires
        0 <= k <= s.len(),
        k < s.len() ==> s[k] == c,
        forall|i: int| 0 <= i < k ==> s[i] != c,
    ensures
        first_index(s, c) == k,
{
    lemma_first_index(s, c);
    let f = first_index(s, c);
    if f < k {
        assert(s[f] != c);
    }
}

/// The index of the first `c` in `v[from..]`, counted from the start of `v`;
/// the length of `v` where there is none.
pub fn find_char(v: &Vec<char>, from: usize, c: char) -> (k: usize)
    requires
        from <= v.len(),
    ensures
        k == from + first_index(v@.skip(from as int), c),
        from <= k <= v.len(),
{
    let mut k: usize = from;
    while k < v.len() && v[k] != c
        invariant
            from <= k <= v.len(),
            forall|i: int| from <= i < k ==> v@[i] != c,
        decreases v.len() - k,
    {
        k += 1;
    }
    proof {
        lemma_first_index_is(v@.skip(from as int), c, k - from);
    }
    k
}

/// Whether `pattern` stands at the start of `s`.
pub open spec fn starts_with(s: Seq<char>, pattern: Seq<char>) -> bool {
    pattern.len() <= s.len() && s.take(pattern.len() as int) == pattern
}

/// Whether `pattern` stands in `v` at index `at`.
pub fn matches_at(v: &Vec<char>, at: usize, pattern: &Vec<char>) -> (b: bool)
    requires
        at <= v.len(),
    ensures
        b == starts_with(v@.skip(at as int), pattern@),
{
    if pattern.len() > v.len() - at {
        return false;
    }
    let mut j: usize = 0;
    while j < pattern.len()
        invariant
            at <= v.len(),
            j <= pattern.len() <= v.len() - at,
            forall|i: int| 0 <= i < j ==> v@[at + i] == pattern@[i],
        decreases pattern.len() - j,
    {
        if v[at + j] != pattern[j] {
            assert(v@.skip(at as int).take(pattern.len() as int)[j as int] != pattern@[j as int]);
            return false;
        }
        j += 1;
    }
    assert(v@.skip(at as int).take(pattern.len() as int) =~= pattern@);
    true
}

/// The index of the first occurrence of `pattern` in `s`, as `str::find`
/// gives it, counted in characters.
pub open spec fn find(s: Seq<char>, pattern: Seq<char>) -> Option<int>
    decreases s.len(),
{
    if starts_with(s, pattern) {
        Some(0)
    } else if s.len() == 0 {
        None
    } else {
        match find(s.skip(1), pattern) {
            Some(k) => Some(k + 1),
            None => None,
        }
    }
}

/// `find` gives the least index at which the pattern stands, and `None`
/// only where it stands nowhere.
pub proof fn lemma_find_is_first(s: Seq<char>, pattern: Seq<char>)
    ensures
        match find(s, pattern) {
            Some(k) => 0 <= k <= s.len() && starts_with(s.skip(k), pattern) && forall|j: int|
                0 <= j < k ==> !starts_with(#[trigger] s.skip(j), pattern),
            None => forall|j: int| 0 <= j <= s.len() ==> !starts_with(#[trigger] s.skip(j), pattern),
        },
    decreases s.len(),
{
    assert(s.skip(0) =~= s);
    if !starts_with(s, pattern) && s.len() > 0 {
        let rest = s.skip(1);
        lemma_find_is_first(rest, pattern);
        assert forall|j: int| 1 <= j <= s.len() implies #[trigger] s.skip(j) == rest.skip(j - 1) by {
            assert(s.skip(j) =~= rest.skip(j - 1));
        }
        match find(rest, pattern) {
            Some(k) => {
                assert forall|j: int| 0 <= j < k + 1 implies !starts_with(
                    #[trigger] s.skip(j),
                    pattern,
                ) by {
                    if j > 0 {
                        assert(s.skip(j) == rest.skip(j - 1));
                    }
                }
            },
            None => {
                assert forall|j: int| 0 <= j <= s.len() implies !starts_with(
                    #[trigger] s.skip(j),
                    pattern,
                ) by {
                    if j > 0 {
                        assert(s.skip(j) == rest.skip(j - 1));
                    }
                }
            },
        }
    }
}

/// The index of the first occurrence of `pattern` in `v[from..]`, counted
/// from the start of `v`.
pub fn find_text(v: &Vec<char>, from: usize, pattern: &Vec<char>) -> (r: Option<usize>)
    requires
        from <= v.len(),
    ensures
        r is Some <==> find(v@.skip(from as int), pattern@) is Some,
        r is Some ==> r->0 == from + find(v@.skip(from as int), pattern@)->0,
        r is Some ==> from <= r->0 && r->0 + pattern.len() <= v.len(),
{
    let ghost whole = v@.skip(from as int);
    let mut i: usize = from;
    loop
        invariant
            from <= i <= v.len(),
            whole == v@.skip(from as int),
            find(whole, pattern@) is Some <==> find(v@.skip(i as int), pattern@) is Some,
            find(whole, pattern@) is Some ==> find(whole, pattern@)->0 == i - from + find(
                v@.skip(i as int),
                pattern@,
            )->0,
        decreases v.len() - i,
    {
        if matches_at(v, i, pattern) {
            return Some(i);
        }
        if i == v.len() {
            return None;
        }
        assert(v@.skip(i as int).skip(1) =~= v@.skip(i + 1));
        i += 1;
    }
}

/// What stands in `s` between the first `opener` and the first `closer`
/// after it; `None` where either is missing.
pub open spec fn between(s: Seq<char>, opener: Seq<char>, closer: Seq<char>) -> Option<Seq<char>> {
    match find(s, opener) {
        Some(a) => {
            let rest = s.skip(a + opener.len());
            match find(rest, closer) {
                Some(b) => Some(rest.take(b)),
                None => None,
            }
        },
        None => None,
    }
}

/// What stands in `v[from..to]` between the first `opener` and the first
/// `closer` after it; `None` where either is missing.
pub fn text_between(v: &Vec<char>, opener: &str, closer: &str) -> (r: Option<Vec<char>>)
    ensures
        r.deep_view() == between(v@, opener@, closer@),
{
    let open = chars_of(opener);
    let close = chars_of(closer);
    assert(v@.skip(0) =~= v@);
    match find_text(v, 0, &open) {
        Some(a) => {
            let from = a + open.len();
            match find_text(v, from, &close) {
                Some(b) => {
                    let mut out: Vec<char> = Vec::new();
                    let mut i: usize = from;
                    while i < b
                        invariant
                            from <= i <= b <= v.len(),
                            out@ =~= v@.subrange(from as int, i as int),
                        decreases b - i,
                    {
                        out.push(v[i]);
                        i += 1;
                    }
                    assert(v@.skip(from as int).take(b - from) =~= v@.subrange(
                        from as int,
                        b as int,
                    ));
                    Some(out)
                },
                None => None,
            }
        },
        None => None,
    }
}

/// What `str::replace` puts where it finds nothing to replace: for an empty
/// pattern, which is found before every character and at the end, `with`;
/// else nothing.
pub open spec fn gap(pattern: Seq<char>, with: Seq<char>) -> Seq<char> {
    if pattern.len() == 0 {
        with
    } else {
        Seq::empty()
    }
}

/// `s` with every occurrence of `pattern` replaced by `with`, as
/// `str::replace` does it: occurrences are found from the left and do not
/// overlap.
pub open spec fn replaced(s: Seq<char>, pattern: Seq<char>, with: Seq<char>) -> Seq<char>
    decreases s.len(),
{
    if s.len() == 0 {
        gap(pattern, with)
    } else if pattern.len() > 0 && starts_with(s, pattern) {
        with + replaced(s.skip(pattern.len() as int), pattern, with)
    } else {
        gap(pattern, with) + seq![s[0]] + replaced(s.skip(1), pattern, with)
    }
}

/// `s` with every occurrence of `pattern` replaced by `with`.
pub fn replace(s: &str, pattern: &str, with: &str) -> (r: String)
    ensures
        r@ == replaced(s@, pattern@, with@),
{
    let v = chars_of(s);
    let p = chars_of(pattern);
    let w = chars_of(with);
    let mut out: Vec<char> = Vec::new();
    let mut i: usize = 0;
    assert(v@.skip(0) =~= v@);
    assert(out@ + replaced(v@, p@, w@) =~= replaced(v@, p@, w@));
    while i < v.len()
        invariant
            i <= v.len(),
            out@ + replaced(v@.skip(i as int), p@, w@) == replaced(v@, p@, w@),
        decreases v.len() - i,
    {
        let ghost rest = v@.skip(i as int);
        let ghost before = out@;
        if p.len() > 0 && matches_at(&v, i, &p) {
            assert(rest.skip(p.len() as int) =~= v@.skip(i + p.len()));
            extend_chars(&mut out, &w);
            assert(out@ + replaced(v@.skip(i + p.len()), p@, w@) =~= before + replaced(
                rest,
                p@,
                w@,
            ));
            i += p.len();
        } else {
            assert(rest.skip(1) =~= v@.skip(i + 1));
            if p.len() == 0 {
                extend_chars(&mut out, &w);
            }
            out.push(v[i]);
            assert(out@ + replaced(v@.skip(i + 1), p@, w@) =~= before + replaced(rest, p@, w@));
            i += 1;
        }
    }
    let ghost before = out@;
    if p.len() == 0 {
        extend_chars(&mut out, &w);
    }
    assert(out@ =~= before + replaced(v@.skip(v.len() as int), p@, w@));
    string_of(&out)
}

/// Two texts that are equal behind the same prefix are equal.
pub proof fn lemma_same_after_prefix(prefix: Seq<char>, a: Seq<char>, b: Seq<char>)
    requires
        prefix + a == prefix + b,
    ensures
        a == b,
{
    assert((prefix + a).len() == prefix.len() + a.len());
    assert((prefix + b).len() == prefix.len() + b.len());
    assert forall|i: int| 0 <= i < a.len() implies a[i] == b[i] by {
        assert((prefix + a)[prefix.len() + i] == a[i]);
        assert((prefix + b)[prefix.len() + i] == b[i]);
    }
    assert(a =~= b);
}

/// Two texts that are equal before the same suffix are equal.
pub proof fn lemma_same_before_suffix(a: Seq<char>, b: Seq<char>, suffix: Seq<char>)
    requires
        a + suffix == b + suffix,
    ensures
        a == b,
{
    assert((a + suffix).len() == a.len() + suffix.len());
    assert((b + suffix).len() == b.len() + suffix.len());
    assert forall|i: int| 0 <= i < a.len() implies a[i] == b[i] by {
        assert((a + suffix)[i] == a[i]);
        assert((b + suffix)[i] == b[i]);
    }
    assert(a =~= b);
}

/// A text is cut in one way only at the first occurrence of a character:
/// where two texts without `c`, each followed by a rest that starts with
/// `c`, make the same whole, the texts are equal and so are the rests.
pub proof fn lemma_cut_at_first(a: Seq<char>, rest_a: Seq<char>, b: Seq<char>, rest_b: Seq<char>, c: char)
    requires
        a + rest_a == b + rest_b,
        rest_a.len() > 0 && rest_a[0] == c,
        rest_b.len() > 0 && rest_b[0] == c,
        !has_char(a, c),
        !has_char(b, c),
    ensures
        a == b,
        rest_a == rest_b,
{
    let whole = a + rest_a;
    assert(whole.len() == a.len() + rest_a.len());
    assert(whole.len() == b.len() + rest_b.len());
    if a.len() < b.len() {
        assert(whole[a.len() as int] == rest_a[0]);
        assert((b + rest_b)[a.len() as int] == b[a.len() as int]);
        assert(b[a.len() as int] == c);
    }
    if b.len() < a.len() {
        assert((b + rest_b)[b.len() as int] == rest_b[0]);
        assert(whole[b.len() as int] == a[b.len() as int]);
        assert(a[b.len() as int] == c);
    }
    assert forall|i: int| 0 <= i < a.len() implies a[i] == b[i] by {
        assert(whole[i] == a[i]);
        assert((b + rest_b)[i] == b[i]);
    }
    assert(a =~= b);
    lemma_same_after_prefix(a, rest_a, rest_b);
}

} // verus!
