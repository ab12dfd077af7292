//! Fuzzy matching of a search query against a candidate name: the skim
//! matcher of `fuzzy_matcher` first, and a bag-of-characters fallback.

use fuzzy_matcher::FuzzyMatcher;
use vstd::prelude::*;
use crate::text::{ascii_lowered, lower_ascii_char, lowercase, str_to_lowercase};
use vstd::utf8::is_ascii_chars;

verus! {

/// The characters of `s`, in order.
pub fn chars_of(s: &str) -> (v: Vec<char>)
    ensures
        v@ == s@,
{
    broadcast use vstd::string::group_string_axioms;
    let mut v: Vec<char> = Vec::new();
    for c in it: s.chars()
        invariant
            v@ == it.seq().take(it.index()),
    {
        v.push(c);
    }
    v
}

} // verus!

verus! {

/// The first index of `c` in `v`, as `Iterator::position` finds it.
pub fn position_of(v: &Vec<char>, c: char) -> (r: Option<usize>)
    ensures
        match r {
            Some(p) => p < v.len() && v@[p as int] == c && forall|j: int|
                0 <= j < p ==> v@[j] != c,
            None => forall|j: int| 0 <= j < v.len() ==> v@[j] != c,
        },
{
    let mut i: usize = 0;
    while i < v.len()
        invariant
            i <= v.len(),
            forall|j: int| 0 <= j < i ==> v@[j] != c,
        decreases v.len() - i,
    {
        if v[i] == c {
            return Some(i);
        }
        i = i + 1;
    }
    None
}

/// Every character of `query` occurs in `candidate`, each occurrence in the
/// query using up its own occurrence in the candidate: the query, as a bag of
/// characters, is contained in the candidate.
pub open spec fn chars_available(candidate: Seq<char>, query: Seq<char>) -> bool {
    query.to_multiset().subset_of(candidate.to_multiset())
}

/// Decides `chars_available` by consuming one matching character of the
/// candidate for each character of the query.
pub fn chars_available_in(candidate: &str, query: &str) -> (r: bool)
    ensures
        r == chars_available(candidate@, query@),
{
    broadcast use vstd::multiset::group_multiset_axioms;
    broadcast use vstd::seq_lib::to_multiset_build, vstd::seq_lib::to_multiset_remove,
        vstd::seq_lib::to_multiset_contains;

    let mut available = chars_of(candidate);
    let q = chars_of(query);
    let ghost cm = candidate@.to_multiset();
    let mut i: usize = 0;
    assert(q@.take(0) =~= Seq::<char>::empty());
    while i < q.len()
        invariant
            q@ == query@,
            cm == candidate@.to_multiset(),
            i <= q.len(),
            forall|x: char| #[trigger] available@.to_multiset().count(x) + q@.take(i as int).to_multiset().count(x)
                == cm.count(x),
        decreases q.len() - i,
    {
        let qc = q[i];
        assert(q@.take(i + 1) =~= q@.take(i as int).push(qc));
        match position_of(&available, qc) {
            Some(p) => {
                let ghost before = available@;
                let ghost prefix = q@.take(i as int);
                proof {
                    assert(before[p as int] == qc);
                    vstd::seq_lib::to_multiset_contains(before, qc);
                    vstd::seq_lib::to_multiset_remove(before, p as int);
                    vstd::seq_lib::to_multiset_build(prefix, qc);
                }
                available.remove(p);
                assert(available@ == before.remove(p as int));
                assert forall|x: char| #[trigger] available@.to_multiset().count(x) + q@.take(i + 1).to_multiset().count(x)
                    == cm.count(x) by {
                    assert(before.to_multiset().count(x) + prefix.to_multiset().count(x) == cm.count(x));
                }
            }
            None => {
                let ghost prefix = q@.take(i as int);
                proof {
                    vstd::seq_lib::to_multiset_contains(available@, qc);
                    vstd::seq_lib::to_multiset_build(prefix, qc);
                    vstd::seq_lib::lemma_multiset_commutative(q@.take(i + 1), q@.skip(i + 1));
                    assert(q@.take(i + 1) + q@.skip(i + 1) =~= q@);
                    assert(available@.to_multiset().count(qc) + prefix.to_multiset().count(qc) == cm.count(qc));
                    assert(!available@.contains(qc));
                }
                assert(query@.to_multiset().count(qc) > cm.count(qc));
                return false;
            }
        }
        i = i + 1;
    }
    assert(q@.take(q.len() as int) =~= q@);
    assert forall|x: char| query@.to_multiset().count(x) <= candidate@.to_multiset().count(x) by {
        assert(available@.to_multiset().count(x) + q@.take(i as int).to_multiset().count(x) == cm.count(x));
    }
    true
}

} // verus!

verus! {

#[verifier::external_type_specification]
#[verifier::external_body]
pub struct ExSkimMatcherV2(fuzzy_matcher::skim::SkimMatcherV2);

/// `c` lower-cased in the ASCII range only, as a code point
/// (`char::to_ascii_lowercase`).
pub open spec fn ascii_lower(c: char) -> int {
    if 65 <= (c as u32) <= 90 {
        (c as u32) + 32int
    } else {
        c as int
    }
}

/// `char::eq_ignore_ascii_case`.
pub open spec fn same_ignoring_ascii_case(a: char, b: char) -> bool {
    ascii_lower(a) == ascii_lower(b)
}

/// `pattern` is a subsequence of `choice`, characters compared without
/// regard to ASCII case.
pub open spec fn subsequence_ignoring_case(choice: Seq<char>, pattern: Seq<char>) -> bool
    decreases choice.len(),
{
    if pattern.len() == 0 {
        true
    } else if choice.len() == 0 {
        false
    } else if same_ignoring_ascii_case(choice[0], pattern[0]) {
        subsequence_ignoring_case(choice.drop_first(), pattern.drop_first())
    } else {
        subsequence_ignoring_case(choice.drop_first(), pattern)
    }
}

/// The score that the case-insensitive skim matcher (version 2) gives to
/// `pattern` against `choice` when it matches.
pub uninterp spec fn skim_score(choice: Seq<char>, pattern: Seq<char>) -> i64;

/// What the enhanced matcher answers for `query` against `candidate`: the
/// skim score when the query is a case-insensitive subsequence; otherwise a
/// score of 1 when the non-empty query's lower-cased characters are all
/// found, as a bag, among the candidate's lower-cased characters; otherwise
/// no match.
pub open spec fn enhanced_score(candidate: Seq<char>, query: Seq<char>) -> Option<i64> {
    if subsequence_ignoring_case(candidate, query) {
        Some(skim_score(candidate, query))
    } else if chars_available(lowercase(candidate), lowercase(query)) && query.len() > 0 {
        Some(1)
    } else {
        None
    }
}

/// The bag-of-characters fallback, given the lower-cased candidate and query
/// and the query as typed.
pub open spec fn fallback_score(
    lowered_candidate: Seq<char>,
    lowered_query: Seq<char>,
    query: Seq<char>,
) -> Option<i64> {
    if chars_available(lowered_candidate, lowered_query) && query.len() > 0 {
        Some(1)
    } else {
        None
    }
}

/// Characters that are equal without regard to ASCII case lower to the same
/// character.
pub proof fn lemma_same_case_lowers_equal(a: char, b: char)
    ensures
        same_ignoring_ascii_case(a, b) == (lower_ascii_char(a) == lower_ascii_char(b)),
{
    if 65 <= (a as u32) <= 90 {
        vstd::utf8::char_u32_cast(lower_ascii_char(a), lower_ascii_char(a) as u32);
    }
    if 65 <= (b as u32) <= 90 {
        vstd::utf8::char_u32_cast(lower_ascii_char(b), lower_ascii_char(b) as u32);
    }
}

/// A query that is a subsequence of the candidate without regard to ASCII
/// case also passes the bag-of-characters test on the ASCII-lowered strings.
pub proof fn lemma_subsequence_passes_bag(candidate: Seq<char>, query: Seq<char>)
    requires
        subsequence_ignoring_case(candidate, query),
    ensures
        chars_available(ascii_lowered(candidate), ascii_lowered(query)),
    decreases candidate.len(),
{
    broadcast use vstd::multiset::group_multiset_axioms;
    if query.len() == 0 {
        assert(ascii_lowered(query) =~= Seq::<char>::empty());
        vstd::seq_lib::to_multiset_len(ascii_lowered(query));
        assert forall|x: char| ascii_lowered(query).to_multiset().count(x) <= ascii_lowered(candidate).to_multiset().count(x) by {
            vstd::seq_lib::to_multiset_contains(ascii_lowered(query), x);
        }
    } else {
        let lc = ascii_lowered(candidate);
        let lc_rest = ascii_lowered(candidate.drop_first());
        assert(lc =~= lc_rest.insert(0, lower_ascii_char(candidate[0])));
        vstd::seq_lib::to_multiset_insert(lc_rest, 0, lower_ascii_char(candidate[0]));
        if same_ignoring_ascii_case(candidate[0], query[0]) {
            lemma_same_case_lowers_equal(candidate[0], query[0]);
            lemma_subsequence_passes_bag(candidate.drop_first(), query.drop_first());
            let lq = ascii_lowered(query);
            let lq_rest = ascii_lowered(query.drop_first());
            assert(lq =~= lq_rest.insert(0, lower_ascii_char(query[0])));
            vstd::seq_lib::to_multiset_insert(lq_rest, 0, lower_ascii_char(query[0]));
            assert forall|x: char| lq.to_multiset().count(x) <= lc.to_multiset().count(x) by {
                assert(lq_rest.to_multiset().count(x) <= lc_rest.to_multiset().count(x));
            }
        } else {
            lemma_subsequence_passes_bag(candidate.drop_first(), query);
            assert forall|x: char| ascii_lowered(query).to_multiset().count(x) <= lc.to_multiset().count(x) by {
                assert(ascii_lowered(query).to_multiset().count(x) <= lc_rest.to_multiset().count(x));
            }
        }
    }
}

/// Calls `SkimMatcherV2::default` of `fuzzy_matcher`. Nothing is claimed of
/// the value: it is opaque.
#[verifier::external_body]
fn skim_default() -> fuzzy_matcher::skim::SkimMatcherV2 {
    fuzzy_matcher::skim::SkimMatcherV2::default()
}

/// Calls `SkimMatcherV2::ignore_case` of `fuzzy_matcher`, which sets the
/// matcher to compare characters without regard to ASCII case. Nothing is
/// claimed of the value: it is opaque.
#[verifier::external_body]
fn skim_ignore_case(matcher: fuzzy_matcher::skim::SkimMatcherV2) -> fuzzy_matcher::skim::SkimMatcherV2 {
    matcher.ignore_case()
}

/// The skim fuzzy matcher of `fuzzy_matcher`, configured to ignore case.
pub struct FuzzyScorer {
    matcher: fuzzy_matcher::skim::SkimMatcherV2,
    /// The matcher was built by `skim_ignore_case`.
    case_insensitive: Ghost<bool>,
}

impl FuzzyScorer {
    /// Every scorer holds a matcher that was set to ignore case when it was
    /// built.
    #[verifier::type_invariant]
    spec fn built_ignoring_case(self) -> bool {
        self.case_insensitive@
    }

    /// The scorer's matcher was set to ignore case when it was built.
    pub closed spec fn ignores_case(self) -> bool {
        self.case_insensitive@
    }

    /// A scorer that matches without regard to case.
    pub fn new() -> (r: FuzzyScorer)
        ensures
            r.ignores_case(),
    {
        FuzzyScorer { matcher: skim_ignore_case(skim_default()), case_insensitive: Ghost(true) }
    }

    /// Calls `FuzzyMatcher::fuzzy_match` of the case-ignoring
    /// `SkimMatcherV2` that this scorer holds (the field is private and set
    /// only by `new`, after `skim_ignore_case`). Claims what its source shows: an empty pattern scores
    /// `Some(0)`; otherwise a score comes back exactly when the pattern is a
    /// subsequence of the choice under `eq_ignore_ascii_case` (the
    /// `cheap_matches` pre-check); the score itself is named, not stated.
    #[verifier::external_body]
    fn skim_match(&self, choice: &str, pattern: &str) -> (r: Option<i64>)
        requires
            self.ignores_case(),
        ensures
            r == (if subsequence_ignoring_case(choice@, pattern@) {
                Some(skim_score(choice@, pattern@))
            } else {
                None
            }),
            pattern@.len() == 0 ==> r == Some(0i64),
    {
        self.matcher.fuzzy_match(choice, pattern)
    }

    /// Scores `query` against `candidate`: the skim matcher first; when it
    /// finds no match, the bag-of-characters fallback on the lower-cased
    /// strings, which scores 1.
    pub fn enhanced_fuzzy_match(&self, candidate: &str, query: &str) -> (r: Option<i64>)
        ensures
            r == enhanced_score(candidate@, query@),
            query@.len() == 0 ==> r == Some(0i64),
            is_ascii_chars(candidate@) && is_ascii_chars(query@) && query@.len() > 0 ==> (r is Some
                <==> chars_available(ascii_lowered(candidate@), ascii_lowered(query@))),
    {
        proof {
            use_type_invariant(self);
        }
        let skim = self.skim_match(candidate, query);
        if skim.is_some() {
            proof {
                lemma_subsequence_passes_bag(candidate@, query@);
            }
            return skim;
        }
        let candidate_lower = str_to_lowercase(candidate);
        let query_lower = str_to_lowercase(query);
        fallback_match(candidate_lower.as_str(), query_lower.as_str(), query)
    }
}

/// The bag-of-characters fallback on already lower-cased strings: a score of
/// 1 when the query is non-empty and all its characters are available in the
/// candidate, each used once.
pub fn fallback_match(lowered_candidate: &str, lowered_query: &str, query: &str) -> (r: Option<i64>)
    ensures
        r == fallback_score(lowered_candidate@, lowered_query@, query@),
{
    let all_found = chars_available_in(lowered_candidate, lowered_query);
    if all_found && !query.is_empty() {
        Some(1)
    } else {
        None
    }
}

} // verus!
