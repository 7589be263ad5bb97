//! Regular expressions, compiled by the regex crate.
use vstd::prelude::*;
use vstd::string::*;
use regex::Regex;

verus! {

#[verifier::external_type_specification]
#[verifier::external_body]
pub struct ExRegex(Regex);

/// Whether regex accepts `source` as a pattern.
pub uninterp spec fn regex_compiles(source: Seq<char>) -> bool;

/// Whether the regex compiled from `source` matches somewhere in `haystack`.
pub uninterp spec fn regex_matches(source: Seq<char>, haystack: Seq<char>) -> bool;

/// `Regex::new` of regex: the pattern `source` compiled, or `None` where regex
/// refuses it (a syntax error, or a program over the default size limit).
/// Whether it compiles is a function of `source` alone, named `regex_compiles`.
#[verifier::external_body]
fn regex_new(source: &str) -> (r: Option<Regex>)
    ensures
        r is Some <==> regex_compiles(source@),
{
    Regex::new(source).ok()
}

/// A compiled regular expression, seen as the pattern it was compiled from.
pub struct Pattern {
    regex: Regex,
    source: Ghost<Seq<char>>,
}

impl View for Pattern {
    type V = Seq<char>;

    closed spec fn view(&self) -> Seq<char> {
        self.source@
    }
}

/// `Regex::is_match` of regex: whether the pattern matches somewhere in
/// `haystack`, a function of the pattern's source and the haystack, named
/// `regex_matches`. The claim rests on `pattern.regex` having been compiled
/// from `pattern@`, which `Pattern::compile`, the one constructor, ensures.
#[verifier::external_body]
fn regex_is_match(pattern: &Pattern, haystack: &str) -> (b: bool)
    ensures
        b == regex_matches(pattern@, haystack@),
{
    pattern.regex.is_match(haystack)
}

impl Pattern {
    /// The pattern `source` compiled; `None` where regex refuses it.
    pub fn compile(source: &str) -> (r: Option<Pattern>)
        ensures
            r is Some <==> regex_compiles(source@),
            r matches Some(p) ==> p@ == source@,
    {
        match regex_new(source) {
            Some(regex) => Some(Pattern { regex, source: Ghost(source@) }),
            None => None,
        }
    }

    /// Whether the pattern matches somewhere in `haystack`.
    pub fn is_match(&self, haystack: &str) -> (b: bool)
        ensures
            b == regex_matches(self@, haystack@),
    {
        regex_is_match(self, haystack)
    }
}

/// One match of a pattern with two groups: where it lies in the haystack, as
/// byte offsets, and the texts of its two groups (empty for a group that took
/// no part in the match).
#[derive(Clone, Debug, PartialEq, Eq)]
pub struct TwoGroupMatch {
    pub start: usize,
    pub end: usize,
    pub first: String,
    pub second: String,
}

/// What a match holds.
pub open spec fn match_view(m: TwoGroupMatch) -> (int, int, Seq<char>, Seq<char>) {
    (m.start as int, m.end as int, m.first@, m.second@)
}

/// The successive matches of the regex compiled from `source` in `haystack`,
/// as `match_view` sees each.
pub uninterp spec fn regex_captures(source: Seq<char>, haystack: Seq<char>) -> Seq<
    (int, int, Seq<char>, Seq<char>),
>;

/// Each match lies within a haystack of `len` bytes, and each ends before the
/// next begins.
pub open spec fn matches_in_order(ms: Seq<TwoGroupMatch>, len: nat) -> bool {
    &&& forall|i: int| 0 <= i < ms.len() ==> (#[trigger] ms[i]).start <= ms[i].end <= len
    &&& forall|i: int, j: int|
        0 <= i < j < ms.len() ==> (#[trigger] ms[i]).end <= (#[trigger] ms[j]).start
}

/// `Regex::captures_iter` of regex: the successive non-overlapping matches of
/// the pattern in `haystack`, each with the texts of groups 1 and 2. The list
/// is a function of the pattern's source and the haystack, named
/// `regex_captures`; the documentation of `captures_iter` and of `Match` gives
/// that the matches do not overlap, come in order, and lie within the
/// haystack (`start <= end`, offsets into it).
#[verifier::external_body]
fn regex_captures_iter(pattern: &Pattern, haystack: &str) -> (r: Vec<TwoGroupMatch>)
    ensures
        r@.map_values(|m: TwoGroupMatch| match_view(m)) == regex_captures(pattern@, haystack@),
        matches_in_order(r@, haystack.spec_bytes().len()),
{
    pattern.regex.captures_iter(haystack).map(|c| TwoGroupMatch {
        start: c.get_match().start(),
        end: c.get_match().end(),
        first: c.get(1).map_or("", |g| g.as_str()).to_string(),
        second: c.get(2).map_or("", |g| g.as_str()).to_string(),
    }).collect()
}

impl Pattern {
    /// The successive matches of the pattern in `haystack`, with the texts of
    /// its first two groups.
    pub fn two_group_matches(&self, haystack: &str) -> (r: Vec<TwoGroupMatch>)
        ensures
            r@.map_values(|m: TwoGroupMatch| match_view(m)) == regex_captures(self@, haystack@),
            matches_in_order(r@, haystack.spec_bytes().len()),
    {
        regex_captures_iter(self, haystack)
    }
}

} // verus!
