//! Fuzzy matching of a query against a name.
use crate::text::lower_ascii;
use fuzzy_matcher::skim::SkimMatcherV2;
use fuzzy_matcher::FuzzyMatcher;
use vstd::prelude::*;

verus! {

/// The most that a score goes up for one character of the query.
pub const SCORE_PER_CHAR: u128 = 32;

/// How far from zero the matcher's 32-bit scores may get.
pub const SCORE_LIMIT: u128 = 0x7000_0000;

/// The most bytes that the matcher asks for at once, for each character of the name and one more.
pub const BYTES_PER_CHAR: u128 = 128;

/// Whether matching `query` against `name` stays within the matcher's limits: the scores, which go
/// up with each character of the query that is found in the name and down with each one of the
/// name that is passed over, and its working memory.
pub open spec fn matchable(name: Seq<char>, query: Seq<char>) -> bool {
    &&& name.len() <= SCORE_LIMIT
    &&& SCORE_PER_CHAR * name.len() <= SCORE_LIMIT || SCORE_PER_CHAR * query.len() <= SCORE_LIMIT
    &&& BYTES_PER_CHAR * (name.len() + 1) <= isize::MAX
}

/// Whether matching `query` against `name` stays within the matcher's limits.
pub fn can_match(name: &str, query: &str) -> (yes: bool)
    ensures
        yes == matchable(name@, query@),
{
    let name_len: u128 = name.unicode_len() as u128;
    let query_len: u128 = query.unicode_len() as u128;
    name_len <= SCORE_LIMIT && (SCORE_PER_CHAR * name_len <= SCORE_LIMIT || SCORE_PER_CHAR
        * query_len <= SCORE_LIMIT) && BYTES_PER_CHAR * (name_len + 1) <= isize::MAX as u128
}

/// Whether `query` holds an ASCII capital. Such a query is matched with its case.
pub open spec fn minds_case(query: Seq<char>) -> bool {
    exists|i: int| 0 <= i < query.len() && 'A' as u32 <= (#[trigger] query[i]) as u32 <= 'Z' as u32
}

/// Whether a character of a name answers one of the query.
pub open spec fn same_letter(name: char, query: char, with_case: bool) -> bool {
    if with_case {
        name == query
    } else {
        lower_ascii(name) == lower_ascii(query)
    }
}

/// `at` gives, for each character of `query`, the place in `name` of one that answers it; the
/// places ascend.
pub open spec fn spells(name: Seq<char>, query: Seq<char>, at: Seq<int>) -> bool {
    &&& at.len() == query.len()
    &&& forall|i: int|
        0 <= i < at.len() ==> 0 <= #[trigger] at[i] < name.len() && same_letter(
            name[at[i]],
            query[i],
            minds_case(query),
        )
    &&& forall|i: int, j: int| 0 <= i < j < at.len() ==> #[trigger] at[i] < #[trigger] at[j]
}

/// Whether the characters of `query` occur in `name` in their order, with others in between or
/// not.
pub open spec fn fuzzy_matches(name: Seq<char>, query: Seq<char>) -> bool {
    exists|at: Seq<int>| spells(name, query, at)
}

/// A fuzzy matcher.
#[verifier::external_type_specification]
#[verifier::external_body]
pub struct ExSkimMatcherV2(fuzzy_matcher::skim::SkimMatcherV2);

/// The names that a matcher has scored so far, each with its query, in order. Its working memory
/// comes from them. There is one such memory for each thread; this speaks of the one thread that
/// the matcher stays on.
pub uninterp spec fn matched(matcher: SkimMatcherV2) -> Seq<(Seq<char>, Seq<char>)>;

/// The score that a `SkimMatcherV2` with the default settings gives to `query` in `name` after it
/// has scored the names and queries of `past`, or `None` where it finds no match.
pub uninterp spec fn skim_score(
    past: Seq<(Seq<char>, Seq<char>)>,
    name: Seq<char>,
    query: Seq<char>,
) -> Option<i64>;

/// Calls `SkimMatcherV2::default`, which makes a matcher whose working memory is empty.
#[verifier::external_body]
pub(crate) fn new_matcher() -> (matcher: SkimMatcherV2)
    ensures
        matched(matcher) == Seq::<(Seq<char>, Seq<char>)>::empty(),
{
    SkimMatcherV2::default()
}

/// Calls `SkimMatcherV2::fuzzy_match` on a matcher with the default settings.
///
/// The matcher keeps its working memory from match to match and does not clear all of it, so the
/// score is a function of the name, the query and what was matched before. There is one exactly
/// where the characters of the query occur in the name in their order, by case only where the
/// query holds an ASCII capital, and it is zero for the empty query. How the score weighs one
/// match against another is left unsaid.
#[verifier::external_body]
pub(crate) fn fuzzy_score(matcher: &mut SkimMatcherV2, name: &str, query: &str) -> (score: Option<
    i64,
>)
    requires
        matchable(name@, query@),
    ensures
        matched(*final(matcher)) == matched(*old(matcher)).push((name@, query@)),
        score == skim_score(matched(*old(matcher)), name@, query@),
        score is Some <==> fuzzy_matches(name@, query@),
        query@.len() == 0 ==> score == Some(0i64),
{
    matcher.fuzzy_match(name, query)
}

} // verus!
