//! Character sequences as the library reads them: where a pattern stands in
//! a text, substitution of its first occurrence, dots turned to spaces,
//! trimming, and the extension token at the end of a name.

use crate::boundary::is_white_space;
use vstd::prelude::*;

verus! {

/// Whether `pat` stands in `s` at offset `i`.
pub open spec fn occurs_at(s: Seq<char>, pat: Seq<char>, i: int) -> bool {
    &&& 0 <= i
    &&& i + pat.len() <= s.len()
    &&& s.subrange(i, i + pat.len()) == pat
}

/// Whether `i` is the least offset from `from` on at which `pat` stands in `s`.
pub open spec fn is_first_occurrence(s: Seq<char>, pat: Seq<char>, from: int, i: int) -> bool {
    &&& from <= i
    &&& occurs_at(s, pat, i)
    &&& forall|j: int| from <= j < i ==> !occurs_at(s, pat, j)
}

/// The least offset from `from` on at which `pat` stands in `s`, if there is one.
pub open spec fn first_occurrence_from(s: Seq<char>, pat: Seq<char>, from: int) -> Option<int> {
    if exists|i: int| is_first_occurrence(s, pat, from, i) {
        Some(choose|i: int| is_first_occurrence(s, pat, from, i))
    } else {
        None
    }
}

/// The least offset at which `pat` stands in `s`, if there is one.
pub open spec fn first_occurrence(s: Seq<char>, pat: Seq<char>) -> Option<int> {
    first_occurrence_from(s, pat, 0)
}

/// `s` with the first occurrence of `pat` exchanged for `with`; `s` itself
/// where `pat` does not occur. An empty `pat` occurs at offset 0.
pub open spec fn first_replaced(s: Seq<char>, pat: Seq<char>, with: Seq<char>) -> Seq<char> {
    match first_occurrence(s, pat) {
        Some(i) => s.subrange(0, i) + with + s.subrange(i + pat.len(), s.len() as int),
        None => s,
    }
}

/// `s` with a space in place of every dot.
pub open spec fn dots_spaced(s: Seq<char>) -> Seq<char> {
    Seq::new(s.len(), |i: int| if s[i] == '.' { ' ' } else { s[i] })
}

/// `s` without its leading white space.
pub open spec fn trimmed_start(s: Seq<char>) -> Seq<char>
    decreases s.len(),
{
    if s.len() > 0 && is_white_space(s.first()) {
        trimmed_start(s.drop_first())
    } else {
        s
    }
}

/// `s` without its trailing white space.
pub open spec fn trimmed_end(s: Seq<char>) -> Seq<char>
    decreases s.len(),
{
    if s.len() > 0 && is_white_space(s.last()) {
        trimmed_end(s.drop_last())
    } else {
        s
    }
}

/// `s` without leading and trailing white space.
pub open spec fn trimmed(s: Seq<char>) -> Seq<char> {
    trimmed_end(trimmed_start(s))
}

/// Whether `e` is an extension token: a dot followed by at least one
/// character, none of them a dot.
pub open spec fn is_extension(e: Seq<char>) -> bool {
    &&& e.len() >= 2
    &&& e[0] == '.'
    &&& forall|i: int| 1 <= i < e.len() ==> e[i] != '.'
}

/// The extension of a name: everything from its last dot to its end, where
/// at least one character follows that dot.
pub open spec fn extension_of(s: Seq<char>) -> Option<Seq<char>> {
    match s.index_of_last('.') {
        Some(k) => if k + 1 < s.len() {
            Some(s.subrange(k, s.len() as int))
        } else {
            None
        },
        None => None,
    }
}

/// The one offset that satisfies `is_first_occurrence` is the first occurrence.
pub proof fn lemma_first_occurrence_is(s: Seq<char>, pat: Seq<char>, from: int, i: int)
    requires
        is_first_occurrence(s, pat, from, i),
    ensures
        first_occurrence_from(s, pat, from) == Some(i),
{
    let k = choose|k: int| is_first_occurrence(s, pat, from, k);
    assert(is_first_occurrence(s, pat, from, k));
    if k < i {
        assert(!occurs_at(s, pat, k));
    } else if i < k {
        assert(!occurs_at(s, pat, i));
    }
}

/// Where `pat` stands at some offset from `from` on, it has a first occurrence
/// there, at or before that offset.
pub proof fn lemma_first_occurrence_exists(s: Seq<char>, pat: Seq<char>, from: int, i: int)
    requires
        from <= i,
        occurs_at(s, pat, i),
    ensures
        first_occurrence_from(s, pat, from) matches Some(k) && k <= i && is_first_occurrence(
            s,
            pat,
            from,
            k,
        ),
    decreases i - from,
{
    if exists|j: int| from <= j < i && occurs_at(s, pat, j) {
        let j = choose|j: int| from <= j < i && occurs_at(s, pat, j);
        lemma_first_occurrence_exists(s, pat, from, j);
    } else {
        assert(is_first_occurrence(s, pat, from, i));
        lemma_first_occurrence_is(s, pat, from, i);
    }
}

/// Leading white space is cut exactly up to the first character that is none.
pub proof fn lemma_trimmed_start(s: Seq<char>, a: int)
    requires
        0 <= a <= s.len(),
        forall|i: int| 0 <= i < a ==> is_white_space(s[i]),
        a < s.len() ==> !is_white_space(s[a]),
    ensures
        trimmed_start(s) == s.subrange(a, s.len() as int),
    decreases a,
{
    if a == 0 {
        assert(s.subrange(0, s.len() as int) =~= s);
    } else {
        let rest = s.drop_first();
        assert forall|i: int| 0 <= i < a - 1 implies is_white_space(rest[i]) by {
            assert(rest[i] == s[i + 1]);
        }
        lemma_trimmed_start(rest, a - 1);
        assert(rest.subrange(a - 1, rest.len() as int) =~= s.subrange(a, s.len() as int));
    }
}

/// Trailing white space is cut exactly back to the last character that is none.
pub proof fn lemma_trimmed_end(s: Seq<char>, b: int)
    requires
        0 <= b <= s.len(),
        forall|i: int| b <= i < s.len() ==> is_white_space(s[i]),
        0 < b ==> !is_white_space(s[b - 1]),
    ensures
        trimmed_end(s) == s.subrange(0, b),
    decreases s.len() - b,
{
    if b == s.len() {
        assert(s.subrange(0, b) =~= s);
    } else {
        let rest = s.drop_last();
        lemma_trimmed_end(rest, b);
        assert(rest.subrange(0, b) =~= s.subrange(0, b));
    }
}

/// Trimming cuts a stretch out of the text: what is left is the text
/// between two offsets, with nothing but white space before and behind it
/// and no white space at either end.
pub proof fn lemma_trimmed_is_stretch(s: Seq<char>) -> (bounds: (int, int))
    ensures
        0 <= bounds.0 <= bounds.1 <= s.len(),
        trimmed(s) == s.subrange(bounds.0, bounds.1),
        forall|i: int| 0 <= i < bounds.0 ==> is_white_space(s[i]),
        forall|i: int| bounds.1 <= i < s.len() ==> is_white_space(s[i]),
        bounds.0 < bounds.1 ==> !is_white_space(s[bounds.0]) && !is_white_space(s[bounds.1 - 1]),
    decreases s.len(),
{
    if s.len() > 0 && is_white_space(s.first()) {
        let rest = s.drop_first();
        let inner = lemma_trimmed_is_stretch(rest);
        assert(rest.subrange(inner.0, inner.1) =~= s.subrange(inner.0 + 1, inner.1 + 1));
        assert forall|i: int| 0 <= i < inner.0 + 1 implies is_white_space(s[i]) by {
            if i > 0 {
                assert(s[i] == rest[i - 1]);
            }
        }
        assert forall|i: int| inner.1 + 1 <= i < s.len() implies is_white_space(s[i]) by {
            assert(s[i] == rest[i - 1]);
        }
        if inner.0 < inner.1 {
            assert(s[inner.0 + 1] == rest[inner.0]);
            assert(s[inner.1] == rest[inner.1 - 1]);
        }
        (inner.0 + 1, inner.1 + 1)
    } else if s.len() > 0 && is_white_space(s.last()) {
        let rest = s.drop_last();
        assert(trimmed_start(s) == s);
        assert(trimmed_start(rest) == rest) by {
            if rest.len() > 0 {
                assert(rest.first() == s.first());
            }
        }
        let inner = lemma_trimmed_is_stretch(rest);
        assert(rest.subrange(inner.0, inner.1) =~= s.subrange(inner.0, inner.1));
        assert(rest.len() > 0 ==> !is_white_space(rest[0]));
        assert(inner.0 == 0) by {
            if inner.0 > 0 {
                assert(is_white_space(rest[0]));
            }
        }
        assert forall|i: int| inner.1 <= i < s.len() implies is_white_space(s[i]) by {
            if i < rest.len() {
                assert(s[i] == rest[i]);
            }
        }
        if inner.0 < inner.1 {
            assert(s[inner.1 - 1] == rest[inner.1 - 1]);
        }
        inner
    } else {
        assert(s.subrange(0, s.len() as int) =~= s);
        (0, s.len() as int)
    }
}

/// A name that ends in an extension token has that token as its extension.
pub proof fn lemma_extension_is(s: Seq<char>, e: Seq<char>)
    requires
        e.is_suffix_of(s),
        is_extension(e),
    ensures
        extension_of(s) == Some(e),
{
    let d = s.len() - e.len();
    assert(s[d] == e[0]);
    s.index_of_last_ensures('.');
    let k = s.index_of_last('.')->0;
    if k < d {
        assert(s[d] == '.');
    } else if k > d {
        assert(s[k] == e[k - d]);
    }
}

/// The characters of a string slice.
pub fn chars_of(s: &str) -> (v: Vec<char>)
    ensures
        v@ == s@,
{
    broadcast use vstd::string::group_string_axioms;

    let mut v: Vec<char> = Vec::new();
    for c in it: s.chars()
        invariant
            it.seq() == s@,
            v@ == s@.take(it.index()),
    {
        v.push(c);
    }
    assert(v@ == s@);
    v
}

/// The string made of the given characters.
pub fn string_of(v: &Vec<char>) -> (s: String)
    ensures
        s@ == v@,
{
    let mut s = String::new();
    let mut i: usize = 0;
    while i < v.len()
        invariant
            i <= v.len(),
            s@ == v@.take(i as int),
        decreases v.len() - i,
    {
        s.push(v[i]);
        i = i + 1;
    }
    assert(v@.take(v.len() as int) == v@);
    s
}

/// Appends the characters of `s` from offset `from` up to `to` to `out`.
pub fn push_range(out: &mut Vec<char>, s: &Vec<char>, from: usize, to: usize)
    requires
        from <= to <= s.len(),
    ensures
        final(out)@ == old(out)@ + s@.subrange(from as int, to as int),
{
    let mut i: usize = from;
    while i < to
        invariant
            from <= i <= to <= s.len(),
            out@ == old(out)@ + s@.subrange(from as int, i as int),
        decreases to - i,
    {
        out.push(s[i]);
        i = i + 1;
    }
}

/// Whether `pat` stands in `s` at offset `i`.
pub fn matches_at(s: &Vec<char>, pat: &Vec<char>, i: usize) -> (r: bool)
    ensures
        r == occurs_at(s@, pat@, i as int),
{
    if pat.len() > s.len() || i > s.len() - pat.len() {
        return false;
    }
    let mut k: usize = 0;
    while k < pat.len()
        invariant
            k <= pat.len(),
            i + pat.len() <= s.len(),
            forall|j: int| 0 <= j < k ==> s@[i + j] == pat@[j],
        decreases pat.len() - k,
    {
        if s[i + k] != pat[k] {
            assert(s@.subrange(i as int, i + pat.len())[k as int] != pat@[k as int]);
            return false;
        }
        k = k + 1;
    }
    assert(s@.subrange(i as int, i + pat.len()) =~= pat@);
    true
}

/// The least offset from `from` on at which `pat` stands in `s`.
pub fn find_from(s: &Vec<char>, pat: &Vec<char>, from: usize) -> (r: Option<usize>)
    ensures
        match r {
            Some(i) => first_occurrence_from(s@, pat@, from as int) == Some(i as int),
            None => first_occurrence_from(s@, pat@, from as int) is None,
        },
        r matches Some(i) ==> is_first_occurrence(s@, pat@, from as int, i as int),
        r is None ==> forall|j: int| from <= j ==> !occurs_at(s@, pat@, j),
{
    if pat.len() > s.len() {
        return None;
    }
    let last: usize = s.len() - pat.len();
    let mut i: usize = from;
    while i <= last
        invariant
            from <= i,
            last == s.len() - pat.len(),
            forall|j: int| from <= j < i ==> !occurs_at(s@, pat@, j),
        decreases last + 1 - i,
    {
        if matches_at(s, pat, i) {
            proof {
                lemma_first_occurrence_is(s@, pat@, from as int, i as int);
            }
            return Some(i);
        }
        if i == last {
            return None;
        }
        i = i + 1;
    }
    None
}

/// `s` with the first occurrence of `pat` exchanged for `with`.
pub fn replace_first(s: &Vec<char>, pat: &Vec<char>, with: &Vec<char>) -> (out: Vec<char>)
    ensures
        out@ == first_replaced(s@, pat@, with@),
{
    let mut out: Vec<char> = Vec::new();
    match find_from(s, pat, 0) {
        Some(i) => {
            assert(occurs_at(s@, pat@, i as int));
            push_range(&mut out, s, 0, i);
            push_range(&mut out, with, 0, with.len());
            push_range(&mut out, s, i + pat.len(), s.len());
            assert(with@.subrange(0, with.len() as int) == with@);
        },
        None => {
            push_range(&mut out, s, 0, s.len());
            assert(s@.subrange(0, s.len() as int) == s@);
        },
    }
    out
}

/// `s` with a space in place of every dot.
pub fn space_dots(s: &Vec<char>) -> (out: Vec<char>)
    ensures
        out@ == dots_spaced(s@),
{
    let mut out: Vec<char> = Vec::new();
    let mut i: usize = 0;
    while i < s.len()
        invariant
            i <= s.len(),
            out@ == dots_spaced(s@).take(i as int),
        decreases s.len() - i,
    {
        let c = s[i];
        out.push(if c == '.' { ' ' } else { c });
        i = i + 1;
    }
    assert(dots_spaced(s@).take(s.len() as int) == dots_spaced(s@));
    out
}

/// `s` without leading and trailing white space.
pub fn trim(s: &Vec<char>) -> (out: Vec<char>)
    ensures
        out@ == trimmed(s@),
{
    let mut a: usize = 0;
    while a < s.len() && s[a].is_whitespace()
        invariant
            a <= s.len(),
            forall|i: int| 0 <= i < a ==> is_white_space(s@[i]),
        decreases s.len() - a,
    {
        a = a + 1;
    }
    let mut b: usize = s.len();
    while b > a && s[b - 1].is_whitespace()
        invariant
            a <= b <= s.len(),
            forall|i: int| b <= i < s.len() ==> is_white_space(s@[i]),
        decreases b,
    {
        b = b - 1;
    }
    let mut out: Vec<char> = Vec::new();
    push_range(&mut out, s, a, b);
    proof {
        let inner = s@.subrange(a as int, s.len() as int);
        lemma_trimmed_start(s@, a as int);
        lemma_trimmed_end(inner, b - a);
        assert(inner.subrange(0, b - a) == s@.subrange(a as int, b as int));
    }
    out
}

/// Whether `e` is an extension token.
pub fn check_extension(e: &Vec<char>) -> (r: bool)
    ensures
        r == is_extension(e@),
{
    if e.len() < 2 || e[0] != '.' {
        return false;
    }
    let mut i: usize = 1;
    while i < e.len()
        invariant
            1 <= i <= e.len(),
            forall|j: int| 1 <= j < i ==> e@[j] != '.',
        decreases e.len() - i,
    {
        if e[i] == '.' {
            return false;
        }
        i = i + 1;
    }
    true
}

/// Whether `s` starts with `p`.
pub fn starts_with(s: &Vec<char>, p: &Vec<char>) -> (r: bool)
    ensures
        r == p@.is_prefix_of(s@),
{
    let r = matches_at(s, p, 0);
    r
}

/// Whether `s` ends with `e`.
pub fn ends_with(s: &Vec<char>, e: &Vec<char>) -> (r: bool)
    ensures
        r == e@.is_suffix_of(s@),
{
    if e.len() > s.len() {
        return false;
    }
    let r = matches_at(s, e, s.len() - e.len());
    r
}

} // verus!
