//! Moving a selection through a list of which only some entries match, and
//! picking the best-scoring entry.

use vstd::prelude::*;

verus! {

/// The first matching index at or after `from`.
pub open spec fn next_match(ms: Seq<bool>, from: int) -> Option<int>
    decreases ms.len() - from,
{
    if from < 0 || from >= ms.len() {
        None
    } else if ms[from] {
        Some(from)
    } else {
        next_match(ms, from + 1)
    }
}

/// The last matching index before `before`.
pub open spec fn prev_match(ms: Seq<bool>, before: int) -> Option<int>
    decreases before,
{
    if before <= 0 || before > ms.len() {
        None
    } else if ms[before - 1] {
        Some(before - 1)
    } else {
        prev_match(ms, before - 1)
    }
}

/// What `next_match` finds: the least matching index at or after `from`.
pub proof fn lemma_next_match(ms: Seq<bool>, from: int)
    requires
        0 <= from,
    ensures
        next_match(ms, from) matches Some(i) ==> from <= i < ms.len() && ms[i]
            && forall|j: int| from <= j < i ==> !ms[j],
        next_match(ms, from) is None ==> forall|j: int| from <= j < ms.len() ==> !ms[j],
    decreases ms.len() - from,
{
    if from < ms.len() && !ms[from] {
        lemma_next_match(ms, from + 1);
    }
}

/// What `prev_match` finds: the greatest matching index before `before`.
pub proof fn lemma_prev_match(ms: Seq<bool>, before: int)
    requires
        before <= ms.len(),
    ensures
        prev_match(ms, before) matches Some(i) ==> 0 <= i < before && ms[i]
            && forall|j: int| i < j < before ==> !ms[j],
        prev_match(ms, before) is None ==> forall|j: int| 0 <= j < before ==> !ms[j],
    decreases before,
{
    if before > 0 && !ms[before - 1] {
        lemma_prev_match(ms, before - 1);
    }
}

/// `cur` is a matching index.
pub open spec fn on_match(ms: Seq<bool>, cur: int) -> bool {
    0 <= cur < ms.len() && ms[cur]
}

/// Where moving down from `cur` lands: the next match after `cur` when `cur`
/// is itself a match and one follows it; otherwise the first match (wrapping
/// around); `None` when nothing matches.
pub open spec fn down_target(ms: Seq<bool>, cur: int) -> Option<int> {
    if on_match(ms, cur) && next_match(ms, cur + 1) is Some {
        next_match(ms, cur + 1)
    } else {
        next_match(ms, 0)
    }
}

/// Where moving up from `cur` lands: the previous match before `cur` when
/// `cur` is itself a match and one precedes it; otherwise the last match
/// (wrapping around); `None` when nothing matches.
pub open spec fn up_target(ms: Seq<bool>, cur: int) -> Option<int> {
    if on_match(ms, cur) && prev_match(ms, cur) is Some {
        prev_match(ms, cur)
    } else {
        prev_match(ms, ms.len() as int)
    }
}

/// Finds `next_match(ms, from)`.
pub fn find_next_match(ms: &Vec<bool>, from: usize) -> (r: Option<usize>)
    ensures
        r matches Some(i) ==> next_match(ms@, from as int) == Some(i as int),
        r is None ==> next_match(ms@, from as int) is None,
{
    let mut i = from;
    while i < ms.len()
        invariant
            from <= i,
            next_match(ms@, from as int) == next_match(ms@, i as int),
        decreases ms.len() - i,
    {
        if ms[i] {
            return Some(i);
        }
        i = i + 1;
    }
    None
}

/// Finds `prev_match(ms, before)`.
pub fn find_prev_match(ms: &Vec<bool>, before: usize) -> (r: Option<usize>)
    requires
        before <= ms.len(),
    ensures
        r matches Some(i) ==> prev_match(ms@, before as int) == Some(i as int),
        r is None ==> prev_match(ms@, before as int) is None,
{
    let mut i = before;
    while i > 0
        invariant
            i <= before,
            before <= ms.len(),
            prev_match(ms@, before as int) == prev_match(ms@, i as int),
        decreases i,
    {
        if ms[i - 1] {
            return Some(i - 1);
        }
        i = i - 1;
    }
    None
}

/// Finds `down_target(ms, cur)`.
pub fn find_down_target(ms: &Vec<bool>, cur: usize) -> (r: Option<usize>)
    ensures
        r matches Some(i) ==> i < ms.len() && ms@[i as int],
        r matches Some(i) ==> down_target(ms@, cur as int) == Some(i as int),
        r is None ==> down_target(ms@, cur as int) is None,
{
    proof {
        lemma_next_match(ms@, cur + 1);
        lemma_next_match(ms@, 0);
    }
    if cur < ms.len() && ms[cur] {
        if let Some(j) = find_next_match(ms, cur + 1) {
            return Some(j);
        }
    }
    find_next_match(ms, 0)
}

/// Finds `up_target(ms, cur)`.
pub fn find_up_target(ms: &Vec<bool>, cur: usize) -> (r: Option<usize>)
    ensures
        r matches Some(i) ==> i < ms.len() && ms@[i as int],
        r matches Some(i) ==> up_target(ms@, cur as int) == Some(i as int),
        r is None ==> up_target(ms@, cur as int) is None,
{
    proof {
        lemma_prev_match(ms@, ms.len() as int);
    }
    if cur < ms.len() && ms[cur] {
        proof {
            lemma_prev_match(ms@, cur as int);
        }
        if let Some(j) = find_prev_match(ms, cur) {
            return Some(j);
        }
    }
    find_prev_match(ms, ms.len())
}

/// `a` is a score above `bar`.
pub open spec fn beats(a: Option<i64>, bar: int) -> bool {
    a matches Some(s) && s > bar
}

/// Index `i` holds the best positive score, and no earlier index ties it: the
/// entry that a left-to-right scan keeping strictly better scores ends on.
pub open spec fn first_best(scores: Seq<Option<i64>>, i: int) -> bool {
    &&& 0 <= i < scores.len()
    &&& scores[i] matches Some(s) && s > 0 && {
        &&& forall|j: int| 0 <= j < i ==> !beats(#[trigger] scores[j], s - 1)
        &&& forall|j: int| i < j < scores.len() ==> !beats(#[trigger] scores[j], s as int)
    }
}

/// No score is positive.
pub open spec fn no_positive(scores: Seq<Option<i64>>) -> bool {
    forall|j: int| 0 <= j < scores.len() ==> !beats(#[trigger] scores[j], 0)
}

/// The index of the first best positive score, if any.
pub open spec fn best_index(scores: Seq<Option<i64>>) -> Option<int> {
    if no_positive(scores) {
        None
    } else {
        Some(choose|i: int| first_best(scores, i))
    }
}

/// At most one index is the first best.
pub proof fn lemma_first_best_unique(scores: Seq<Option<i64>>, i: int, k: int)
    requires
        first_best(scores, i),
        first_best(scores, k),
    ensures
        i == k,
{
    if i < k {
        assert(!beats(scores[i], scores[k]->0 - 1));
        assert(!beats(scores[k], scores[i]->0 as int));
    } else if k < i {
        assert(!beats(scores[k], scores[i]->0 - 1));
        assert(!beats(scores[i], scores[k]->0 as int));
    }
}

/// Scans the scores left to right, keeping the first strictly better
/// positive score.
pub fn find_best_index(scores: &Vec<Option<i64>>) -> (r: Option<usize>)
    ensures
        r matches Some(i) ==> best_index(scores@) == Some(i as int) && first_best(scores@, i as int),
        r is None ==> best_index(scores@) is None && no_positive(scores@),
{
    let mut best: Option<usize> = None;
    let mut best_score: i64 = 0;
    let mut i: usize = 0;
    while i < scores.len()
        invariant
            i <= scores.len(),
            best is None ==> best_score == 0 && no_positive(scores@.take(i as int)),
            best matches Some(b) ==> b < i && scores@[b as int] == Some(best_score)
                && first_best(scores@.take(i as int), b as int),
        decreases scores.len() - i,
    {
        let ghost prefix = scores@.take(i as int);
        let ghost next = scores@.take(i + 1);
        assert(forall|j: int| 0 <= j < i ==> next[j] == prefix[j]);
        if let Some(s) = scores[i] {
            if s > best_score {
                best = Some(i);
                best_score = s;
            }
        }
        i = i + 1;
    }
    assert(scores@.take(scores.len() as int) =~= scores@);
    if let Some(b) = best {
        proof {
            assert forall|k: int| first_best(scores@, k) implies k == b as int by {
                lemma_first_best_unique(scores@, b as int, k);
            }
            assert(!no_positive(scores@));
        }
    }
    best
}

} // verus!
