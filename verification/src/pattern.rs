//! Regular-expression matching, delegated to the `regex` crate.
//!
//! Every function here compiles the pattern with `regex::Regex::new` and then
//! performs one search. What a search returns is named by an uninterpreted
//! spec function of the pattern and the haystack (their character views); the
//! contracts add only the facts that the crate documents.
use regex::Regex;
use vstd::prelude::*;
use vstd::utf8::{encode_utf8, is_char_boundary};

verus! {

/// Whether `regex::Regex::new` accepts the pattern (a syntactically valid
/// pattern whose compiled form stays within the default size limit).
pub uninterp spec fn regex_compiles(pattern: Seq<char>) -> bool;

/// The successive non-overlapping leftmost-first matches that
/// `Regex::find_iter` yields: byte offsets of start and end, and the matched
/// text.
pub uninterp spec fn regex_find_all(pattern: Seq<char>, haystack: Seq<char>) -> Seq<
    (usize, usize, Seq<char>),
>;

/// Whether `Regex::is_match` finds a match anywhere in the haystack.
pub uninterp spec fn regex_is_match(pattern: Seq<char>, haystack: Seq<char>) -> bool;

/// The capture groups of the first match (`Regex::captures`), group 0 being
/// the whole match; `None` when there is no match.
pub uninterp spec fn regex_captures(pattern: Seq<char>, haystack: Seq<char>) -> Option<
    Seq<Option<Seq<char>>>,
>;

/// The capture groups of every successive match (`Regex::captures_iter`).
pub uninterp spec fn regex_captures_all(pattern: Seq<char>, haystack: Seq<char>) -> Seq<
    Seq<Option<Seq<char>>>,
>;

/// The haystack with every match replaced by the expanded replacement
/// template (`Regex::replace_all` with a `&str` replacer: `$n` and `${n}`
/// refer to capture groups, `$$` is a literal dollar sign).
pub uninterp spec fn regex_replace_all(
    pattern: Seq<char>,
    haystack: Seq<char>,
    replacement: Seq<char>,
) -> Seq<char>;

/// One match: byte offsets into the haystack and the matched text.
pub struct RegexMatch {
    pub start: usize,
    pub end: usize,
    pub text: String,
}

impl View for RegexMatch {
    type V = (usize, usize, Seq<char>);

    open spec fn view(&self) -> (usize, usize, Seq<char>) {
        (self.start, self.end, self.text@)
    }
}

/// What `regex` documents of one match in a haystack: it lies within the
/// haystack with `start <= end`, both offsets fall on UTF-8 character
/// boundaries, and its text is the haystack's bytes between the two offsets.
pub open spec fn match_within(haystack: Seq<char>, m: (usize, usize, Seq<char>)) -> bool {
    &&& m.0 <= m.1 <= encode_utf8(haystack).len()
    &&& is_char_boundary(encode_utf8(haystack), m.0 as int)
    &&& is_char_boundary(encode_utf8(haystack), m.1 as int)
    &&& encode_utf8(m.2) == encode_utf8(haystack).subrange(m.0 as int, m.1 as int)
}

/// The facts `regex` documents about the matches of one search: each lies
/// within the haystack, and they are successive and non-overlapping.
pub open spec fn well_formed_matches(haystack: Seq<char>, ms: Seq<(usize, usize, Seq<char>)>) -> bool {
    &&& forall|i: int| 0 <= i < ms.len() ==> match_within(haystack, #[trigger] ms[i])
    &&& forall|i: int, j: int|
        #![trigger ms[i], ms[j]]
        0 <= i < j < ms.len() ==> ms[i].1 <= ms[j].0
}

/// Groups of one match, converted to owned strings.
pub open spec fn groups_view(g: Seq<Option<String>>) -> Seq<Option<Seq<char>>> {
    g.map_values(|o: Option<String>| match o {
        Some(s) => Some(s@),
        None => None,
    })
}

/// `Regex::new(pattern)` then `find_iter(haystack)`: `None` exactly when the
/// pattern does not compile, otherwise the matches, as named by
/// `regex_find_all`, with the documented facts about them.
#[verifier::external_body]
pub(crate) fn find_all(pattern: &str, haystack: &str) -> (r: Option<Vec<RegexMatch>>)
    ensures
        r is Some <==> regex_compiles(pattern@),
        r matches Some(ms) ==> ms@.map_values(|m: RegexMatch| m@) == regex_find_all(
            pattern@,
            haystack@,
        ),
        r is Some ==> well_formed_matches(haystack@, regex_find_all(pattern@, haystack@)),
{
    match Regex::new(pattern) {
        Ok(re) => Some(
            re.find_iter(haystack).map(
                |m| RegexMatch { start: m.start(), end: m.end(), text: m.as_str().to_string() },
            ).collect(),
        ),
        Err(_) => None,
    }
}

/// `Regex::new(pattern)` then `is_match(haystack)`: `None` exactly when the
/// pattern does not compile.
#[verifier::external_body]
pub(crate) fn is_match(pattern: &str, haystack: &str) -> (r: Option<bool>)
    ensures
        r is Some <==> regex_compiles(pattern@),
        r matches Some(b) ==> b == regex_is_match(pattern@, haystack@),
{
    match Regex::new(pattern) {
        Ok(re) => Some(re.is_match(haystack)),
        Err(_) => None,
    }
}

/// `Regex::new(pattern)` then `captures(haystack)`, each group converted to an
/// owned string. The outer `None` is a pattern that does not compile; a match
/// exists exactly when `is_match` reports one, and then group 0 (the whole
/// match) is present.
#[verifier::external_body]
pub(crate) fn captures(pattern: &str, haystack: &str) -> (r: Option<Option<Vec<Option<String>>>>)
    ensures
        r is Some <==> regex_compiles(pattern@),
        r matches Some(c) ==> (c is Some <==> regex_is_match(pattern@, haystack@)),
        r matches Some(c) ==> match c {
            Some(g) => regex_captures(pattern@, haystack@) == Some(groups_view(g@)),
            None => regex_captures(pattern@, haystack@) is None,
        },
        r matches Some(Some(g)) ==> g@.len() >= 1 && g@[0] is Some,
{
    match Regex::new(pattern) {
        Ok(re) => Some(
            re.captures(haystack).map(
                |c| c.iter().map(|g| g.map(|m| m.as_str().to_string())).collect(),
            ),
        ),
        Err(_) => None,
    }
}

/// `Regex::new(pattern)` then `captures_iter(haystack)`, each group converted
/// to an owned string; `None` exactly when the pattern does not compile. As
/// documented, `captures_iter` yields the same matches as `find_iter`: one
/// set of groups per match, in order, group 0 being the whole match.
#[verifier::external_body]
pub(crate) fn captures_all(pattern: &str, haystack: &str) -> (r: Option<Vec<Vec<Option<String>>>>)
    ensures
        r is Some <==> regex_compiles(pattern@),
        r matches Some(all) ==> all@.map_values(|g: Vec<Option<String>>| groups_view(g@))
            == regex_captures_all(pattern@, haystack@),
        r is Some ==> regex_captures_all(pattern@, haystack@).len() == regex_find_all(
            pattern@,
            haystack@,
        ).len(),
        r is Some ==> forall|i: int|
            0 <= i < regex_captures_all(pattern@, haystack@).len() ==> (#[trigger] regex_captures_all(
                pattern@,
                haystack@,
            )[i]).len() >= 1 && regex_captures_all(pattern@, haystack@)[i][0] == Some(
                regex_find_all(pattern@, haystack@)[i].2,
            ),
{
    match Regex::new(pattern) {
        Ok(re) => Some(
            re.captures_iter(haystack).map(
                |c| c.iter().map(|g| g.map(|m| m.as_str().to_string())).collect(),
            ).collect(),
        ),
        Err(_) => None,
    }
}

/// `Regex::new(pattern)` then `replace_all(haystack, replacement)`; `None`
/// exactly when the pattern does not compile. As documented, a haystack with
/// no match comes back unchanged.
#[verifier::external_body]
pub(crate) fn replace_all(pattern: &str, haystack: &str, replacement: &str) -> (r: Option<String>)
    ensures
        r is Some <==> regex_compiles(pattern@),
        r matches Some(s) ==> s@ == regex_replace_all(pattern@, haystack@, replacement@),
        r is Some && !regex_is_match(pattern@, haystack@) ==> regex_replace_all(
            pattern@,
            haystack@,
            replacement@,
        ) == haystack@,
{
    match Regex::new(pattern) {
        Ok(re) => Some(re.replace_all(haystack, replacement).to_string()),
        Err(_) => None,
    }
}

} // verus!
