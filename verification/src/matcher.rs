//! Matching a file name against the television or the movie pattern.
//!
//! The search itself is the engine's. What it captures is accepted as a
//! match only where the captured texts are cut from the name in the way the
//! pattern demands, so that everything stated of a [`MatchResult`] holds
//! whatever the engine answered. What counts as a digit in a marker is asked
//! of the engine too, one character at a time, so that the library and the
//! engine never differ on it.

use crate::boundary::{
    captured_groups, default_pattern, is_digit, pattern_accepted, search_digit, search_groups,
};
use crate::text::{
    check_extension, chars_of, ends_with, extension_of, find_from, is_extension, lemma_extension_is,
    occurs_at, starts_with,
};
use regex::Regex;
use vstd::prelude::*;

verus! {

/// The naming convention that a run works by.
#[derive(Clone, Copy, Debug, PartialEq, Eq, Structural)]
pub enum Mode {
    Television,
    Movie,
}

/// The television pattern: the shortest start of the name that ends in an
/// episode marker, anything after it, and the extension.
pub const TELEVISION_PATTERN: &'static str = r"^(?P<keep>.*?S\d{2}E\d{2}).*(?P<ext>\.[^.]+)$";

/// The movie pattern: the shortest title, white space, a year of the
/// twentieth or twenty-first century, anything after it, and the extension.
pub const MOVIE_PATTERN: &'static str =
    r"^(?P<title>.*?)\s*(?P<year>(?:19|20)\d{2}).*(?P<ext>\.[^.]+)$";

/// The pattern of a text that is one digit, by which the digits of a marker
/// are told.
pub const DIGIT_PATTERN: &'static str = r"^\d$";

/// The pattern text of a mode.
pub open spec fn pattern_of(mode: Mode) -> Seq<char> {
    match mode {
        Mode::Television => TELEVISION_PATTERN@,
        Mode::Movie => MOVIE_PATTERN@,
    }
}

/// The segments of a matched file name.
#[derive(Clone, Debug, PartialEq, Eq)]
pub enum MatchResult {
    /// `keep` runs from the start of the name through the episode marker;
    /// `extension` starts with its dot.
    Television { keep: String, extension: String },
    /// `title` is what stands before the year and the white space in front
    /// of it; `extension` starts with its dot.
    Movie { title: String, year: String, extension: String },
}

/// A [`MatchResult`] as sequences of characters.
pub enum Segments {
    Television { keep: Seq<char>, extension: Seq<char> },
    Movie { title: Seq<char>, year: Seq<char>, extension: Seq<char> },
}

impl View for MatchResult {
    type V = Segments;

    open spec fn view(&self) -> Segments {
        match self {
            MatchResult::Television { keep, extension } => Segments::Television {
                keep: keep@,
                extension: extension@,
            },
            MatchResult::Movie { title, year, extension } => Segments::Movie {
                title: title@,
                year: year@,
                extension: extension@,
            },
        }
    }
}

/// An outcome of matching as sequences of characters.
pub open spec fn outcome_view(found: Option<MatchResult>) -> Option<Segments> {
    match found {
        Some(m) => Some(m@),
        None => None,
    }
}

/// Whether an episode marker stands in `s` at offset `i`: `S`, two digits,
/// `E`, two digits.
pub open spec fn episode_marker_at(s: Seq<char>, i: int) -> bool {
    &&& 0 <= i
    &&& i + 6 <= s.len()
    &&& s[i] == 'S'
    &&& is_digit(s[i + 1])
    &&& is_digit(s[i + 2])
    &&& s[i + 3] == 'E'
    &&& is_digit(s[i + 4])
    &&& is_digit(s[i + 5])
}

/// Whether a year token stands in `s` at offset `i`: `19` or `20` and two
/// digits.
pub open spec fn year_token_at(s: Seq<char>, i: int) -> bool {
    &&& 0 <= i
    &&& i + 4 <= s.len()
    &&& (s[i] == '1' && s[i + 1] == '9') || (s[i] == '2' && s[i + 1] == '0')
    &&& is_digit(s[i + 2])
    &&& is_digit(s[i + 3])
}

/// Whether `keep` ends in an episode marker.
pub open spec fn ends_in_episode_marker(keep: Seq<char>) -> bool {
    episode_marker_at(keep, keep.len() - 6)
}

/// Whether `year` is a year token and nothing more.
pub open spec fn is_year_token(year: Seq<char>) -> bool {
    year.len() == 4 && year_token_at(year, 0)
}

/// Whether `keep` and `ext` are cut from `name` as the television pattern
/// cuts: `keep` is a start of the name and ends in an episode marker, `ext`
/// is the extension token at its end, and the two do not overlap.
pub open spec fn television_split(name: Seq<char>, keep: Seq<char>, ext: Seq<char>) -> bool {
    &&& keep.is_prefix_of(name)
    &&& ext.is_suffix_of(name)
    &&& keep.len() + ext.len() <= name.len()
    &&& is_extension(ext)
    &&& ends_in_episode_marker(keep)
}

/// Whether `title`, `year` and `ext` are cut from `name` as the movie pattern
/// cuts: `title` is a start of the name, `ext` is the extension token at its
/// end, and `year` is a year token that stands between the two.
pub open spec fn movie_split(
    name: Seq<char>,
    title: Seq<char>,
    year: Seq<char>,
    ext: Seq<char>,
) -> bool {
    &&& title.is_prefix_of(name)
    &&& ext.is_suffix_of(name)
    &&& is_extension(ext)
    &&& is_year_token(year)
    &&& exists|i: int|
        title.len() <= i && i + 4 + ext.len() <= name.len() && #[trigger] occurs_at(name, year, i)
}

impl Segments {
    /// The mode that the segments belong to.
    pub open spec fn mode(self) -> Mode {
        match self {
            Segments::Television { .. } => Mode::Television,
            Segments::Movie { .. } => Mode::Movie,
        }
    }

    /// The segment that is kept and tidied: `keep` or `title`.
    pub open spec fn kept(self) -> Seq<char> {
        match self {
            Segments::Television { keep, .. } => keep,
            Segments::Movie { title, .. } => title,
        }
    }

    /// The extension, with its dot.
    pub open spec fn extension(self) -> Seq<char> {
        match self {
            Segments::Television { extension, .. } => extension,
            Segments::Movie { extension, .. } => extension,
        }
    }

    /// Whether the segments are cut from `name` as their pattern cuts.
    pub open spec fn cut_from(self, name: Seq<char>) -> bool {
        match self {
            Segments::Television { keep, extension } => television_split(name, keep, extension),
            Segments::Movie { title, year, extension } => movie_split(
                name,
                title,
                year,
                extension,
            ),
        }
    }
}

/// What is made of the engine's captures for `name`: the match, where the
/// search matched, every group of the pattern took part and the captured
/// texts are cut from `name` as the pattern cuts; no match otherwise.
pub open spec fn accepted(
    mode: Mode,
    name: Seq<char>,
    groups: Option<Seq<Option<Seq<char>>>>,
) -> Option<Segments> {
    match groups {
        Some(g) => match mode {
            Mode::Television => {
                if g.len() == 3 && g[1] is Some && g[2] is Some && television_split(
                    name,
                    g[1]->0,
                    g[2]->0,
                ) {
                    Some(Segments::Television { keep: g[1]->0, extension: g[2]->0 })
                } else {
                    None
                }
            },
            Mode::Movie => {
                if g.len() == 4 && g[1] is Some && g[2] is Some && g[3] is Some && movie_split(
                    name,
                    g[1]->0,
                    g[2]->0,
                    g[3]->0,
                ) {
                    Some(Segments::Movie { title: g[1]->0, year: g[2]->0, extension: g[3]->0 })
                } else {
                    None
                }
            },
        },
        None => None,
    }
}

/// The outcome of matching `name` in `mode`: what is accepted of the
/// engine's search of `name` for the mode's pattern.
pub open spec fn matched(mode: Mode, name: Seq<char>) -> Option<Segments> {
    accepted(mode, name, captured_groups(pattern_of(mode), name))
}

fn check_episode_marker(keep: &Vec<char>, digit: &Regex) -> (r: bool)
    requires
        default_pattern(*digit) == Some(DIGIT_PATTERN@),
    ensures
        r == ends_in_episode_marker(keep@),
{
    let n = keep.len();
    n >= 6 && keep[n - 6] == 'S' && search_digit(digit, keep[n - 5]) && search_digit(
        digit,
        keep[n - 4],
    ) && keep[n - 3] == 'E' && search_digit(digit, keep[n - 2]) && search_digit(digit, keep[n - 1])
}

fn check_year_token(year: &Vec<char>, digit: &Regex) -> (r: bool)
    requires
        default_pattern(*digit) == Some(DIGIT_PATTERN@),
    ensures
        r == is_year_token(year@),
{
    year.len() == 4 && ((year[0] == '1' && year[1] == '9') || (year[0] == '2' && year[1] == '0'))
        && search_digit(digit, year[2]) && search_digit(digit, year[3])
}

fn check_television_split(name: &Vec<char>, keep: &Vec<char>, ext: &Vec<char>, digit: &Regex) -> (r:
    bool)
    requires
        default_pattern(*digit) == Some(DIGIT_PATTERN@),
    ensures
        r == television_split(name@, keep@, ext@),
{
    starts_with(name, keep) && ends_with(name, ext) && keep.len() <= name.len() - ext.len()
        && check_extension(ext) && check_episode_marker(keep, digit)
}

fn check_movie_split(
    name: &Vec<char>,
    title: &Vec<char>,
    year: &Vec<char>,
    ext: &Vec<char>,
    digit: &Regex,
) -> (r: bool)
    requires
        default_pattern(*digit) == Some(DIGIT_PATTERN@),
    ensures
        r == movie_split(name@, title@, year@, ext@),
{
    if !(starts_with(name, title) && ends_with(name, ext) && check_extension(ext)
        && check_year_token(year, digit)) {
        return false;
    }
    match find_from(name, year, title.len()) {
        Some(i) => {
            assert(is_year_token(year@));
            assert(occurs_at(name@, year@, i as int));
            assert(i + 4 <= name.len());
            let fits = i + 4 <= name.len() - ext.len();
            proof {
                if !fits {
                    assert forall|j: int|
                        title@.len() <= j && j + 4 + ext@.len() <= name@.len() implies !(
                    #[trigger] occurs_at(name@, year@, j)) by {
                        if j < i {
                        }
                    }
                }
            }
            fits
        },
        None => false,
    }
}

fn accept_television(filename: &str, groups: &Option<Vec<Option<String>>>, digit: &Regex) -> (found:
    Option<MatchResult>)
    requires
        default_pattern(*digit) == Some(DIGIT_PATTERN@),
    ensures
        outcome_view(found) == accepted(Mode::Television, filename@, groups.deep_view()),
{
    let Some(g) = groups else {
        return None;
    };
    if g.len() != 3 {
        return None;
    }
    match (&g[1], &g[2]) {
        (Some(keep), Some(ext)) => {
            if check_television_split(
                &chars_of(filename),
                &chars_of(keep.as_str()),
                &chars_of(ext.as_str()),
                digit,
            ) {
                Some(MatchResult::Television { keep: keep.clone(), extension: ext.clone() })
            } else {
                None
            }
        },
        _ => None,
    }
}

fn accept_movie(filename: &str, groups: &Option<Vec<Option<String>>>, digit: &Regex) -> (found:
    Option<MatchResult>)
    requires
        default_pattern(*digit) == Some(DIGIT_PATTERN@),
    ensures
        outcome_view(found) == accepted(Mode::Movie, filename@, groups.deep_view()),
{
    let Some(g) = groups else {
        return None;
    };
    if g.len() != 4 {
        return None;
    }
    match (&g[1], &g[2], &g[3]) {
        (Some(title), Some(year), Some(ext)) => {
            if check_movie_split(
                &chars_of(filename),
                &chars_of(title.as_str()),
                &chars_of(year.as_str()),
                &chars_of(ext.as_str()),
                digit,
            ) {
                Some(
                    MatchResult::Movie {
                        title: title.clone(),
                        year: year.clone(),
                        extension: ext.clone(),
                    },
                )
            } else {
                None
            }
        },
        _ => None,
    }
}

/// Why a matcher could not be built: the engine refused the pattern of
/// `mode`, for the reason in `cause`.
#[derive(Debug)]
pub struct PatternError {
    pub mode: Mode,
    pub cause: regex::Error,
}

/// The compiled television pattern, with the compiled digit pattern.
pub struct TelevisionMatcher {
    expression: Regex,
    digit: Regex,
}

/// The compiled movie pattern, with the compiled digit pattern.
pub struct MovieMatcher {
    expression: Regex,
    digit: Regex,
}

/// The matcher of one mode.
pub enum Matcher {
    Television(TelevisionMatcher),
    Movie(MovieMatcher),
}

/// The error of building the matcher of `mode` from what the engine made of
/// the mode's pattern and of the digit pattern: that of the mode's pattern
/// where it was refused, else that of the digit pattern.
pub open spec fn refusal(
    mode: Mode,
    compiled: Result<Regex, regex::Error>,
    digit: Result<Regex, regex::Error>,
) -> Option<PatternError> {
    match compiled {
        Err(cause) => Some(PatternError { mode, cause }),
        Ok(_) => match digit {
            Err(cause) => Some(PatternError { mode, cause }),
            Ok(_) => None,
        },
    }
}

/// The error of a result, if it is one.
pub open spec fn error_of<T>(r: Result<T, PatternError>) -> Option<PatternError> {
    match r {
        Ok(_) => None,
        Err(e) => Some(e),
    }
}

impl TelevisionMatcher {
    #[verifier::type_invariant]
    spec fn holds_its_patterns(self) -> bool {
        &&& default_pattern(self.expression) == Some(TELEVISION_PATTERN@)
        &&& default_pattern(self.digit) == Some(DIGIT_PATTERN@)
    }

    /// Wraps what the engine made of the television pattern and of the digit
    /// pattern. There is a matcher exactly where both were compiled.
    pub fn from_compiled(
        compiled: Result<Regex, regex::Error>,
        digit: Result<Regex, regex::Error>,
    ) -> (r: Result<TelevisionMatcher, PatternError>)
        requires
            compiled matches Ok(expression) ==> default_pattern(expression) == Some(
                TELEVISION_PATTERN@,
            ),
            digit matches Ok(expression) ==> default_pattern(expression) == Some(DIGIT_PATTERN@),
        ensures
            r is Ok <==> compiled is Ok && digit is Ok,
            error_of(r) == refusal(Mode::Television, compiled, digit),
    {
        match compiled {
            Ok(expression) => match digit {
                Ok(digit) => Ok(TelevisionMatcher { expression, digit }),
                Err(cause) => Err(PatternError { mode: Mode::Television, cause }),
            },
            Err(cause) => Err(PatternError { mode: Mode::Television, cause }),
        }
    }

    /// Compiles the television pattern and the digit pattern. There is a
    /// matcher exactly where the engine accepts both.
    pub fn new() -> (r: Result<TelevisionMatcher, PatternError>)
        ensures
            r is Ok <==> pattern_accepted(TELEVISION_PATTERN@) && pattern_accepted(DIGIT_PATTERN@),
            r matches Err(e) ==> e.mode == Mode::Television,
    {
        TelevisionMatcher::from_compiled(Regex::new(TELEVISION_PATTERN), Regex::new(DIGIT_PATTERN))
    }

    /// Accepts what the engine captured in `filename` as a match, or turns
    /// it down.
    pub fn accept(&self, filename: &str, groups: &Option<Vec<Option<String>>>) -> (found: Option<
        MatchResult,
    >)
        ensures
            outcome_view(found) == accepted(Mode::Television, filename@, groups.deep_view()),
    {
        proof {
            use_type_invariant(self);
        }
        accept_television(filename, groups, &self.digit)
    }

    /// Matches `filename` against the television pattern.
    pub fn match_name(&self, filename: &str) -> (found: Option<MatchResult>)
        ensures
            outcome_view(found) == matched(Mode::Television, filename@),
            !carries_marker(Mode::Television, filename@) ==> found is None,
            found matches Some(m) ==> m@.mode() == Mode::Television && m@.cut_from(filename@),
    {
        proof {
            use_type_invariant(self);
            lemma_match_carries_marker(
                Mode::Television,
                filename@,
                captured_groups(TELEVISION_PATTERN@, filename@),
            );
        }
        let groups = search_groups(&self.expression, filename);
        self.accept(filename, &groups)
    }
}

impl MovieMatcher {
    #[verifier::type_invariant]
    spec fn holds_its_patterns(self) -> bool {
        &&& default_pattern(self.expression) == Some(MOVIE_PATTERN@)
        &&& default_pattern(self.digit) == Some(DIGIT_PATTERN@)
    }

    /// Wraps what the engine made of the movie pattern and of the digit
    /// pattern. There is a matcher exactly where both were compiled.
    pub fn from_compiled(
        compiled: Result<Regex, regex::Error>,
        digit: Result<Regex, regex::Error>,
    ) -> (r: Result<MovieMatcher, PatternError>)
        requires
            compiled matches Ok(expression) ==> default_pattern(expression) == Some(MOVIE_PATTERN@),
            digit matches Ok(expression) ==> default_pattern(expression) == Some(DIGIT_PATTERN@),
        ensures
            r is Ok <==> compiled is Ok && digit is Ok,
            error_of(r) == refusal(Mode::Movie, compiled, digit),
    {
        match compiled {
            Ok(expression) => match digit {
                Ok(digit) => Ok(MovieMatcher { expression, digit }),
                Err(cause) => Err(PatternError { mode: Mode::Movie, cause }),
            },
            Err(cause) => Err(PatternError { mode: Mode::Movie, cause }),
        }
    }

    /// Compiles the movie pattern and the digit pattern. There is a matcher
    /// exactly where the engine accepts both.
    pub fn new() -> (r: Result<MovieMatcher, PatternError>)
        ensures
            r is Ok <==> pattern_accepted(MOVIE_PATTERN@) && pattern_accepted(DIGIT_PATTERN@),
            r matches Err(e) ==> e.mode == Mode::Movie,
    {
        MovieMatcher::from_compiled(Regex::new(MOVIE_PATTERN), Regex::new(DIGIT_PATTERN))
    }

    /// Accepts what the engine captured in `filename` as a match, or turns
    /// it down.
    pub fn accept(&self, filename: &str, groups: &Option<Vec<Option<String>>>) -> (found: Option<
        MatchResult,
    >)
        ensures
            outcome_view(found) == accepted(Mode::Movie, filename@, groups.deep_view()),
    {
        proof {
            use_type_invariant(self);
        }
        accept_movie(filename, groups, &self.digit)
    }

    /// Matches `filename` against the movie pattern.
    pub fn match_name(&self, filename: &str) -> (found: Option<MatchResult>)
        ensures
            outcome_view(found) == matched(Mode::Movie, filename@),
            !carries_marker(Mode::Movie, filename@) ==> found is None,
            found matches Some(m) ==> m@.mode() == Mode::Movie && m@.cut_from(filename@),
    {
        proof {
            use_type_invariant(self);
            lemma_match_carries_marker(
                Mode::Movie,
                filename@,
                captured_groups(MOVIE_PATTERN@, filename@),
            );
        }
        let groups = search_groups(&self.expression, filename);
        self.accept(filename, &groups)
    }
}

impl Matcher {
    /// The mode that the matcher works by.
    pub open spec fn spec_mode(&self) -> Mode {
        match self {
            Matcher::Television(_) => Mode::Television,
            Matcher::Movie(_) => Mode::Movie,
        }
    }

    /// The mode that the matcher works by.
    #[verifier::when_used_as_spec(spec_mode)]
    pub fn mode(&self) -> (mode: Mode)
        ensures
            mode == self.spec_mode(),
    {
        match self {
            Matcher::Television(_) => Mode::Television,
            Matcher::Movie(_) => Mode::Movie,
        }
    }

    /// Compiles the pattern of `mode` and the digit pattern. There is a
    /// matcher exactly where the engine accepts both.
    pub fn for_mode(mode: Mode) -> (r: Result<Matcher, PatternError>)
        ensures
            r is Ok <==> pattern_accepted(pattern_of(mode)) && pattern_accepted(DIGIT_PATTERN@),
            r matches Ok(matcher) ==> matcher.mode() == mode,
            r matches Err(e) ==> e.mode == mode,
    {
        match mode {
            Mode::Television => match TelevisionMatcher::new() {
                Ok(matcher) => Ok(Matcher::Television(matcher)),
                Err(e) => Err(e),
            },
            Mode::Movie => match MovieMatcher::new() {
                Ok(matcher) => Ok(Matcher::Movie(matcher)),
                Err(e) => Err(e),
            },
        }
    }

    /// Accepts what the engine captured in `filename` as a match in the
    /// matcher's mode, or turns it down.
    pub fn accept(&self, filename: &str, groups: &Option<Vec<Option<String>>>) -> (found: Option<
        MatchResult,
    >)
        ensures
            outcome_view(found) == accepted(self.mode(), filename@, groups.deep_view()),
    {
        match self {
            Matcher::Television(matcher) => matcher.accept(filename, groups),
            Matcher::Movie(matcher) => matcher.accept(filename, groups),
        }
    }

    /// Matches `filename` against the pattern of the matcher's mode.
    pub fn match_name(&self, filename: &str) -> (found: Option<MatchResult>)
        ensures
            outcome_view(found) == matched(self.mode(), filename@),
            !carries_marker(self.mode(), filename@) ==> found is None,
            found matches Some(m) ==> m@.mode() == self.mode() && m@.cut_from(filename@),
    {
        match self {
            Matcher::Television(matcher) => matcher.match_name(filename),
            Matcher::Movie(matcher) => matcher.match_name(filename),
        }
    }
}

/// Whether the mode's marker stands in `s` at offset `i`: an episode marker
/// for television, a year token for movies.
pub open spec fn marker_at(mode: Mode, s: Seq<char>, i: int) -> bool {
    match mode {
        Mode::Television => episode_marker_at(s, i),
        Mode::Movie => year_token_at(s, i),
    }
}

/// The length of the mode's marker.
pub open spec fn marker_len(mode: Mode) -> int {
    match mode {
        Mode::Television => 6,
        Mode::Movie => 4,
    }
}

/// Whether `name` has an extension and, before it, the mode's marker.
pub open spec fn carries_marker(mode: Mode, name: Seq<char>) -> bool {
    match extension_of(name) {
        Some(ext) => exists|i: int| #[trigger]
            marker_at(mode, name, i) && i + marker_len(mode) + ext.len() <= name.len(),
        None => false,
    }
}

/// Whatever the engine captured, a match is of the mode asked for and its
/// segments are cut from the name.
pub proof fn lemma_match_is_cut(mode: Mode, name: Seq<char>, groups: Option<Seq<Option<Seq<char>>>>)
    ensures
        accepted(mode, name, groups) matches Some(m) ==> m.mode() == mode && m.cut_from(name),
{
}

/// Whatever the engine captured, a name matches only if it carries the
/// mode's marker ahead of an extension: a name without the marker, or
/// without an extension, is no match.
pub proof fn lemma_match_carries_marker(
    mode: Mode,
    name: Seq<char>,
    groups: Option<Seq<Option<Seq<char>>>>,
)
    ensures
        accepted(mode, name, groups) is Some ==> carries_marker(mode, name),
{
    if let Some(m) = accepted(mode, name, groups) {
        lemma_extension_is(name, m.extension());
        match m {
            Segments::Television { keep, extension } => {
                let i = keep.len() - 6;
                assert(name[i] == keep[i]);
                assert(name[i + 1] == keep[i + 1]);
                assert(name[i + 2] == keep[i + 2]);
                assert(name[i + 3] == keep[i + 3]);
                assert(name[i + 4] == keep[i + 4]);
                assert(name[i + 5] == keep[i + 5]);
                assert(marker_at(mode, name, i));
            },
            Segments::Movie { title, year, extension } => {
                let i = choose|i: int|
                    title.len() <= i && i + 4 + extension.len() <= name.len() && #[trigger] occurs_at(
                        name,
                        year,
                        i,
                    );
                assert(name.subrange(i, i + 4)[0] == year[0]);
                assert(name.subrange(i, i + 4)[1] == year[1]);
                assert(name.subrange(i, i + 4)[2] == year[2]);
                assert(name.subrange(i, i + 4)[3] == year[3]);
                assert(marker_at(mode, name, i));
            },
        }
    }
}

/// A name without a dot has no extension, and so matches in neither mode.
pub proof fn lemma_no_dot_no_match(mode: Mode, name: Seq<char>, groups: Option<Seq<Option<Seq<char>>>>)
    requires
        !name.contains('.'),
    ensures
        extension_of(name) is None,
        accepted(mode, name, groups) is None,
{
    name.index_of_last_ensures('.');
    lemma_match_carries_marker(mode, name, groups);
}

} // verus!
