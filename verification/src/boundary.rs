//! The boundary to code that is not verified here: the regular-expression
//! engine and three functions of std.
//!
//! Nothing in this file is proved. It declares the engine's types, gives
//! names to what the outside functions compute, and says of each function
//! what the rest of the library relies on. A name stands for a result and
//! says nothing of it: all that is claimed is in the `ensures` clauses.

use crate::matcher::DIGIT_PATTERN;
use regex::Regex;
use vstd::prelude::*;

verus! {

/// A compiled expression of the `regex` crate, opaque to the proofs.
#[verifier::external_type_specification]
#[verifier::external_body]
pub struct ExRegex(regex::Regex);

/// The error with which the `regex` crate refuses a pattern, opaque to the
/// proofs.
#[verifier::external_type_specification]
#[verifier::external_body]
pub struct ExRegexError(regex::Error);

/// The name of the pattern text that `Regex::new` compiled an expression
/// from. It is stated of the expressions that `Regex::new` returns and of no
/// others.
pub uninterp spec fn default_pattern(re: Regex) -> Option<Seq<char>>;

/// The name of the verdict of `Regex::new` on a pattern text: whether it
/// compiles the pattern or refuses it.
pub uninterp spec fn pattern_accepted(pattern: Seq<char>) -> bool;

/// The name of what `Regex::captures` answers when an expression that
/// `Regex::new` compiled from `pattern` searches `haystack`, as
/// `search_groups` hands the answer on.
pub uninterp spec fn captured_groups(pattern: Seq<char>, haystack: Seq<char>) -> Option<
    Seq<Option<Seq<char>>>,
>;

/// `Regex::new` of the `regex` crate. It compiles with the engine's default
/// options, so whether it accepts depends on the pattern text alone, and
/// `pattern_accepted` is the name of that verdict. The expression it returns
/// was compiled from that very text.
pub assume_specification[ regex::Regex::new ](re: &str) -> (r: Result<Regex, regex::Error>)
    ensures
        r is Ok <==> pattern_accepted(re@),
        r matches Ok(compiled) ==> default_pattern(compiled) == Some(re@),
;

/// `Regex::captures` of the `regex` crate. The body copies the answer out:
/// no match stays `None`; of a match there is one entry for each group that
/// `Captures::iter` yields, in its order, the text of a group that took part
/// or `None` of one that did not. For an expression that `Regex::new`
/// compiled the search depends on the pattern text and the haystack alone,
/// and `captured_groups` is the name of its answer.
#[verifier::external_body]
pub(crate) fn search_groups(re: &Regex, haystack: &str) -> (groups: Option<Vec<Option<String>>>)
    requires
        default_pattern(*re) is Some,
    ensures
        groups.deep_view() == captured_groups(default_pattern(*re)->0, haystack@),
{
    re.captures(haystack).map(
        |caps| caps.iter().map(|group| group.map(|m| m.as_str().to_string())).collect(),
    )
}

/// The name of what the engine's class `\d` says of a character outside
/// ASCII: whether an expression that `Regex::new` compiled from
/// [`DIGIT_PATTERN`] matches the text made of that one character.
pub uninterp spec fn wide_digit(c: char) -> bool;

/// Whether `c` is a digit as the engine's class `\d` has it. Of the ASCII
/// characters the ten from `0` to `9` are; of the others those of which the
/// engine says so.
pub open spec fn is_digit(c: char) -> bool {
    if (c as u32) < 128 {
        48 <= (c as u32) && (c as u32) <= 57
    } else {
        wide_digit(c)
    }
}

/// `Regex::is_match` of the `regex` crate, on the text made of the one
/// character `c`, for an expression compiled from [`DIGIT_PATTERN`]. That
/// pattern matches a text of one character exactly where the class `\d`
/// holds the character, so the answer depends on the character alone.
/// Within ASCII the class holds `0` to `9` and nothing else; beyond ASCII
/// `wide_digit` is the name of the answer.
#[verifier::external_body]
pub(crate) fn search_digit(re: &Regex, c: char) -> (b: bool)
    requires
        default_pattern(*re) == Some(DIGIT_PATTERN@),
    ensures
        b == is_digit(c),
        (c as u32) < 128 ==> (b <==> (48 <= (c as u32) && (c as u32) <= 57)),
        (c as u32) >= 128 ==> b == wide_digit(c),
{
    re.is_match(c.encode_utf8(&mut [0u8; 4]))
}

/// The name of what `char::is_whitespace` answers for a character outside
/// ASCII.
pub uninterp spec fn wide_white_space(c: char) -> bool;

/// Whether `c` counts as white space. Of the ASCII characters the space and
/// the five from tab to carriage return do; of the others those for which
/// `char::is_whitespace` says so.
pub open spec fn is_white_space(c: char) -> bool {
    if (c as u32) < 128 {
        c == ' ' || (9 <= (c as u32) && (c as u32) <= 13)
    } else {
        wide_white_space(c)
    }
}

/// `char::is_whitespace` of std, the Unicode property `White_Space`. Its
/// answer depends on the character alone. Within ASCII the property holds of
/// the space and of U+0009 to U+000D and of nothing else; beyond ASCII
/// `wide_white_space` is the name of the answer.
pub assume_specification[ char::is_whitespace ](c: char) -> (b: bool)
    ensures
        b == is_white_space(c),
        (c as u32) < 128 ==> (b <==> (c == ' ' || (9 <= (c as u32) && (c as u32) <= 13))),
        (c as u32) >= 128 ==> b == wide_white_space(c),
;

/// The name of what `str::to_lowercase` returns for a text.
pub uninterp spec fn lowercased(s: Seq<char>) -> Seq<char>;

/// `str::to_lowercase` of std. Its result depends on the text alone, and
/// `lowercased` is the name of that result.
pub assume_specification[ str::to_lowercase ](s: &str) -> (lower: String)
    ensures
        lower@ == lowercased(s@),
;

/// `String::push` of std: the character is appended at the end.
pub assume_specification[ String::push ](s: &mut String, c: char)
    ensures
        final(s)@ == old(s)@.push(c),
;

} // verus!
