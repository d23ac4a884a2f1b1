//! Deriving the new name from a match: substitute once, turn dots into
//! spaces, trim, and put year and extension back on.

use crate::matcher::{is_year_token, MatchResult, Segments};
use crate::text::{
    chars_of, dots_spaced, extension_of, first_occurrence, first_replaced, is_first_occurrence,
    lemma_extension_is, lemma_first_occurrence_exists, lemma_trimmed_is_stretch, occurs_at,
    push_range, replace_first, space_dots, string_of, trim, trimmed,
};
use vstd::prelude::*;

verus! {

/// A substitution to make in the kept segment: the first occurrence of
/// `find` gives way to `replace`.
#[derive(Clone, Debug, PartialEq, Eq)]
pub struct ReplaceSpec {
    pub find: String,
    pub replace: String,
}

/// A [`ReplaceSpec`] as sequences of characters.
pub struct Replacement {
    pub find: Seq<char>,
    pub replace: Seq<char>,
}

impl View for ReplaceSpec {
    type V = Replacement;

    open spec fn view(&self) -> Replacement {
        Replacement { find: self.find@, replace: self.replace@ }
    }
}

/// An optional substitution as sequences of characters.
pub open spec fn replacement_view(replace: Option<&ReplaceSpec>) -> Option<Replacement> {
    match replace {
        Some(r) => Some(r@),
        None => None,
    }
}

impl ReplaceSpec {
    /// The substitution that two values spell out, the text to find and the
    /// text to put in its place; none for any other number of values.
    pub fn from_values(values: &Vec<String>) -> (r: Option<ReplaceSpec>)
        ensures
            values.len() == 2 ==> (r matches Some(spec) && spec.find@ == values[0]@
                && spec.replace@ == values[1]@),
            values.len() != 2 ==> r is None,
    {
        if values.len() == 2 {
            Some(ReplaceSpec { find: values[0].clone(), replace: values[1].clone() })
        } else {
            None
        }
    }
}

/// The kept segment after the substitution, if one is asked for.
pub open spec fn substituted(kept: Seq<char>, replace: Option<Replacement>) -> Seq<char> {
    match replace {
        Some(r) => first_replaced(kept, r.find, r.replace),
        None => kept,
    }
}

/// The kept segment as it goes into the new name: substituted, dots turned
/// to spaces, trimmed.
pub open spec fn tidied(kept: Seq<char>, replace: Option<Replacement>) -> Seq<char> {
    trimmed(dots_spaced(substituted(kept, replace)))
}

/// What follows the tidied segment in the new name: the extension, and for a
/// movie the year in brackets before it.
pub open spec fn tail(m: Segments) -> Seq<char> {
    match m {
        Segments::Television { extension, .. } => extension,
        Segments::Movie { year, extension, .. } => seq![' ', '('] + year + seq![')'] + extension,
    }
}

/// The new name of a match.
pub open spec fn renamed(m: Segments, replace: Option<Replacement>) -> Seq<char> {
    tidied(m.kept(), replace) + tail(m)
}

/// Derives the new name from a match.
pub fn transform(m: &MatchResult, replace: Option<&ReplaceSpec>) -> (out: String)
    ensures
        out@ == renamed(m@, replacement_view(replace)),
{
    let kept = match m {
        MatchResult::Television { keep, .. } => chars_of(keep.as_str()),
        MatchResult::Movie { title, .. } => chars_of(title.as_str()),
    };
    let swapped = match replace {
        Some(r) => replace_first(&kept, &chars_of(r.find.as_str()), &chars_of(r.replace.as_str())),
        None => kept,
    };
    let mut out = trim(&space_dots(&swapped));
    let ghost stem = out@;
    match m {
        MatchResult::Television { extension, .. } => {
            let ext = chars_of(extension.as_str());
            push_range(&mut out, &ext, 0, ext.len());
            assert(ext@.subrange(0, ext.len() as int) == ext@);
        },
        MatchResult::Movie { year, extension, .. } => {
            let digits = chars_of(year.as_str());
            let ext = chars_of(extension.as_str());
            out.push(' ');
            out.push('(');
            push_range(&mut out, &digits, 0, digits.len());
            out.push(')');
            push_range(&mut out, &ext, 0, ext.len());
            assert(ext@.subrange(0, ext.len() as int) == ext@);
            assert(digits@.subrange(0, digits.len() as int) == digits@);
            assert(out@ == stem + (seq![' ', '('] + digits@ + seq![')'] + ext@));
        },
    }
    string_of(&out)
}

/// The new name ends in the extension of the match and in nothing else: its
/// extension is the one of the name that was matched, character for
/// character, whatever substitution is made.
pub proof fn lemma_extension_preserved(name: Seq<char>, m: Segments, replace: Option<Replacement>)
    requires
        m.cut_from(name),
    ensures
        extension_of(name) == Some(m.extension()),
        extension_of(renamed(m, replace)) == extension_of(name),
{
    let out = renamed(m, replace);
    assert(m.extension().is_suffix_of(out));
    lemma_extension_is(name, m.extension());
    lemma_extension_is(out, m.extension());
}

/// Turning dots into spaces leaves the length alone, puts a space wherever a
/// dot was, keeps every other character, and leaves no dot behind.
pub proof fn lemma_dots_spaced(s: Seq<char>)
    ensures
        dots_spaced(s).len() == s.len(),
        forall|i: int| 0 <= i < s.len() && s[i] == '.' ==> dots_spaced(s)[i] == ' ',
        forall|i: int| 0 <= i < s.len() && s[i] != '.' ==> dots_spaced(s)[i] == s[i],
        !dots_spaced(s).contains('.'),
{
}

/// No dot is left in the new name before its extension: the new name is a
/// dot-free stem followed by the extension of the match.
pub proof fn lemma_stem_has_no_dot(name: Seq<char>, m: Segments, replace: Option<Replacement>)
    requires
        m.cut_from(name),
    ensures
        m.extension().is_suffix_of(renamed(m, replace)),
        forall|i: int|
            0 <= i < renamed(m, replace).len() - m.extension().len() ==> renamed(m, replace)[i]
                != '.',
{
    let out = renamed(m, replace);
    let spaced = dots_spaced(substituted(m.kept(), replace));
    let bounds = lemma_trimmed_is_stretch(spaced);
    let stem = tidied(m.kept(), replace);
    assert(m.extension().is_suffix_of(out));
    assert forall|i: int| 0 <= i < out.len() - m.extension().len() implies out[i] != '.' by {
        if i < stem.len() {
            assert(out[i] == spaced[bounds.0 + i]);
        } else {
            match m {
                Segments::Television { .. } => {},
                Segments::Movie { year, .. } => {
                    let k = i - stem.len();
                    assert(is_year_token(year));
                    assert(out[i] == tail(m)[k]);
                    if 2 <= k < 6 {
                        assert(tail(m)[k] == year[k - 2]);
                    }
                },
            }
        }
    }
}

/// A substitution touches the kept segment alone, and there the first
/// occurrence alone: with it as without it the new name ends in the same
/// year and extension; where the text to find stands in the kept segment,
/// the stretch at its first occurrence gives way and the rest stays; where
/// it does not, the new name is the one without a substitution.
pub proof fn lemma_replace_scope(m: Segments, r: Replacement)
    ensures
        tail(m).is_suffix_of(renamed(m, Some(r))),
        tail(m).is_suffix_of(renamed(m, None)),
        match first_occurrence(m.kept(), r.find) {
            Some(i) => {
                &&& is_first_occurrence(m.kept(), r.find, 0, i)
                &&& substituted(m.kept(), Some(r)) == m.kept().subrange(0, i) + r.replace
                    + m.kept().subrange(i + r.find.len(), m.kept().len() as int)
            },
            None => {
                &&& forall|j: int| !occurs_at(m.kept(), r.find, j)
                &&& renamed(m, Some(r)) == renamed(m, None)
            },
        },
{
    let kept = m.kept();
    assert(tail(m).is_suffix_of(tidied(kept, Some(r)) + tail(m)));
    assert(tail(m).is_suffix_of(tidied(kept, None) + tail(m)));
    if first_occurrence(kept, r.find) is None {
        assert forall|j: int| !occurs_at(kept, r.find, j) by {
            if occurs_at(kept, r.find, j) {
                lemma_first_occurrence_exists(kept, r.find, 0, j);
            }
        }
    }
}

} // verus!
