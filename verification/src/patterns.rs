//! Regular expressions, compiled once and matched per request.

use vstd::prelude::*;

verus! {

/// `regex::Regex`, held opaque.
#[verifier::external_type_specification]
#[verifier::external_body]
pub struct ExRegex(regex::Regex);

/// `regex::RegexSet`, held opaque.
#[verifier::external_type_specification]
#[verifier::external_body]
pub struct ExRegexSet(regex::RegexSet);

/// Whether `regex::Regex::new` accepts `pattern`.
pub uninterp spec fn regex_compiles(pattern: Seq<char>) -> bool;

/// Whether `pattern`, compiled by `regex::Regex::new`, matches somewhere in `text` (`Regex::is_match`).
pub uninterp spec fn regex_is_match(pattern: Seq<char>, text: Seq<char>) -> bool;

/// Whether `regex::RegexSet::new` accepts the list of `patterns`.
pub uninterp spec fn regex_set_compiles(patterns: Seq<Seq<char>>) -> bool;

/// How many of `patterns`, compiled as one `regex::RegexSet`, match somewhere
/// in `text` (`RegexSet::matches`, counted).
pub uninterp spec fn regex_set_match_count(patterns: Seq<Seq<char>>, text: Seq<char>) -> nat;

/// Calls `regex::Regex::new`; succeeds exactly when the pattern compiles.
#[verifier::external_body]
fn regex_new(pattern: &str) -> (r: Option<regex::Regex>)
    ensures
        r is Some <==> regex_compiles(pattern@),
{
    regex::Regex::new(pattern).ok()
}

/// Calls `regex::RegexSet::new`; succeeds exactly when the patterns compile.
#[verifier::external_body]
fn regex_set_new(patterns: &Vec<String>) -> (r: Option<regex::RegexSet>)
    ensures
        r is Some <==> regex_set_compiles(patterns@.map_values(|s: String| s@)),
{
    regex::RegexSet::new(patterns).ok()
}

/// A compiled regular expression together with its source.
#[derive(Debug)]
pub struct Pattern {
    source: String,
    re: regex::Regex,
}

/// Calls `regex::Regex::is_match` on the pattern's compiled form; the result is
/// named by the pattern's source, from which the only constructor compiled it.
#[verifier::external_body]
fn pattern_is_match(p: &Pattern, text: &str) -> (r: bool)
    ensures
        r == regex_is_match(p.source@, text@),
{
    p.re.is_match(text)
}

impl Pattern {
    /// The pattern's source text.
    pub closed spec fn source(&self) -> Seq<char> {
        self.source@
    }

    /// Compiles `pattern`; `None` when it is not a valid regular expression.
    pub fn new(pattern: &str) -> (r: Option<Pattern>)
        ensures
            r is Some <==> regex_compiles(pattern@),
            r matches Some(p) ==> p.source() == pattern@,
    {
        match regex_new(pattern) {
            Some(re) => Some(Pattern { source: pattern.to_owned(), re }),
            None => None,
        }
    }

    /// Whether the pattern matches somewhere in `text`.
    pub fn is_match(&self, text: &str) -> (r: bool)
        ensures
            r == regex_is_match(self.source(), text@),
    {
        pattern_is_match(self, text)
    }
}

/// A set of regular expressions compiled together, with their sources.
#[derive(Debug)]
pub struct PatternSet {
    sources: Vec<String>,
    set: regex::RegexSet,
}

/// Calls `RegexSet::matches` on the set's compiled form and counts the matched
/// patterns; the result is named by the sources, from which the only
/// constructor compiled it.  A set reports each of its patterns at most once.
#[verifier::external_body]
fn pattern_set_count(p: &PatternSet, text: &str) -> (r: usize)
    ensures
        r == regex_set_match_count(p.sources@.map_values(|s: String| s@), text@),
        r <= p.sources@.len(),
{
    p.set.matches(text).iter().count()
}

impl PatternSet {
    /// The source texts, in order.
    pub closed spec fn sources(&self) -> Seq<Seq<char>> {
        self.sources@.map_values(|s: String| s@)
    }

    /// Compiles `patterns` as one set; `None` when one of them is invalid.
    pub fn new(patterns: Vec<String>) -> (r: Option<PatternSet>)
        ensures
            r is Some <==> regex_set_compiles(patterns@.map_values(|s: String| s@)),
            r matches Some(p) ==> p.sources() == patterns@.map_values(|s: String| s@),
    {
        match regex_set_new(&patterns) {
            Some(set) => Some(PatternSet { sources: patterns, set }),
            None => None,
        }
    }

    /// The number of patterns.
    pub fn len(&self) -> (r: usize)
        ensures
            r == self.sources().len(),
    {
        self.sources.len()
    }

    /// How many of the patterns match somewhere in `text`.
    pub fn count_matches(&self, text: &str) -> (r: usize)
        ensures
            r == regex_set_match_count(self.sources(), text@),
            r <= self.sources().len(),
    {
        pattern_set_count(self, text)
    }
}

} // verus!
