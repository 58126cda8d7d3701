//! Fuzzy matching of a query against a candidate's display text.
//!
//! A query matches a text when its characters occur in the text in the same
//! order, capitals and small letters taken as equal. Each way of placing the
//! query in the text is an embedding. An embedding is better the fewer
//! characters of the text it skips between its first and its last position,
//! and, among embeddings that skip equally many, the earlier it starts. The
//! score of a match is that of its best embedding.

use vstd::prelude::*;
use crate::text::{folded, folded_chars};

verus! {

/// How well a query fits a text: the characters skipped inside the best
/// embedding, and the position at which that embedding starts.
#[derive(Clone, Copy, Debug, PartialEq, Eq, Structural)]
pub struct FuzzyScore {
    pub gaps: usize,
    pub start: usize,
}

/// `pos` places each character of `query` on an equal character of `text`,
/// from left to right.
pub open spec fn is_embedding(query: Seq<char>, text: Seq<char>, pos: Seq<int>) -> bool {
    &&& pos.len() == query.len()
    &&& forall|k: int|
        0 <= k < pos.len() ==> 0 <= #[trigger] pos[k] < text.len() && text[pos[k]] == query[k]
    &&& forall|a: int, b: int| 0 <= a < b < pos.len() ==> pos[a] < pos[b]
}

/// The query occurs in the text as a subsequence.
pub open spec fn is_subsequence(query: Seq<char>, text: Seq<char>) -> bool {
    exists|pos: Seq<int>| is_embedding(query, text, pos)
}

/// The characters of the text that an embedding skips between its first and
/// its last position.
pub open spec fn gaps_of(pos: Seq<int>) -> int {
    if pos.len() == 0 {
        0
    } else {
        pos.last() - pos[0] + 1 - pos.len()
    }
}

/// The position at which an embedding starts; 0 for the empty one.
pub open spec fn start_of(pos: Seq<int>) -> int {
    if pos.len() == 0 {
        0
    } else {
        pos[0]
    }
}

/// `a` is a strictly better score than `b`.
pub open spec fn better(a: FuzzyScore, b: FuzzyScore) -> bool {
    a.gaps < b.gaps || (a.gaps == b.gaps && a.start < b.start)
}

/// No embedding with these gaps and this start would beat `score`.
pub open spec fn no_worse_than(score: FuzzyScore, gaps: int, start: int) -> bool {
    score.gaps < gaps || (score.gaps == gaps && score.start <= start)
}

/// `score` is reached by some embedding of `query` in `text` and beaten by
/// none.
pub open spec fn is_best_score(query: Seq<char>, text: Seq<char>, score: FuzzyScore) -> bool {
    &&& exists|pos: Seq<int>|
        is_embedding(query, text, pos) && gaps_of(pos) == score.gaps && start_of(pos)
            == score.start
    &&& forall|pos: Seq<int>| #[trigger]
        is_embedding(query, text, pos) ==> no_worse_than(score, gaps_of(pos), start_of(pos))
}

/// The score of `query` against `text`, both taken as they are: `None` where
/// the query is no subsequence of the text.
pub open spec fn best_score(query: Seq<char>, text: Seq<char>) -> Option<FuzzyScore> {
    if is_subsequence(query, text) {
        Some(choose|score: FuzzyScore| is_best_score(query, text, score))
    } else {
        None
    }
}

/// The score of a query against a display text, capitals and small letters
/// taken as equal.
pub open spec fn fuzzy(query: Seq<char>, text: Seq<char>) -> Option<FuzzyScore> {
    best_score(folded(query), folded(text))
}

/// A text has at most one best score for a query.
pub proof fn lemma_best_score_unique(
    query: Seq<char>,
    text: Seq<char>,
    s1: FuzzyScore,
    s2: FuzzyScore,
)
    requires
        is_best_score(query, text, s1),
        is_best_score(query, text, s2),
    ensures
        s1 == s2,
{
    let one = choose|pos: Seq<int>|
        is_embedding(query, text, pos) && gaps_of(pos) == s1.gaps && start_of(pos) == s1.start;
    let other = choose|pos: Seq<int>|
        is_embedding(query, text, pos) && gaps_of(pos) == s2.gaps && start_of(pos) == s2.start;
    assert(no_worse_than(s1, gaps_of(other), start_of(other)));
    assert(no_worse_than(s2, gaps_of(one), start_of(one)));
}

/// A best score is the score.
pub proof fn lemma_best_score_is(query: Seq<char>, text: Seq<char>, score: FuzzyScore)
    requires
        is_best_score(query, text, score),
    ensures
        best_score(query, text) == Some(score),
{
    let chosen = choose|s: FuzzyScore| is_best_score(query, text, s);
    lemma_best_score_unique(query, text, chosen, score);
}

/// The empty query matches every text, with nothing skipped.
pub proof fn lemma_empty_query(text: Seq<char>)
    ensures
        is_best_score(Seq::<char>::empty(), text, FuzzyScore { gaps: 0, start: 0 }),
{
    let none = Seq::<int>::empty();
    assert(is_embedding(Seq::<char>::empty(), text, none));
    assert(gaps_of(none) == 0 && start_of(none) == 0);
}

/// The best embedding of a query that is not empty lies within the text:
/// its start, the query's length and its gaps together do not pass the
/// text's end.
pub proof fn lemma_score_lies_within_text(query: Seq<char>, text: Seq<char>, score: FuzzyScore)
    requires
        query.len() > 0,
        is_best_score(query, text, score),
    ensures
        score.start + query.len() + score.gaps <= text.len(),
{
    let pos = choose|pos: Seq<int>|
        is_embedding(query, text, pos) && gaps_of(pos) == score.gaps && start_of(pos)
            == score.start;
    assert(pos[pos.len() - 1] < text.len());
}

/// A text that begins with the query has the best score there is: nothing
/// skipped, from the first character on.
pub proof fn lemma_prefix_scores_best(query: Seq<char>, text: Seq<char>)
    requires
        query.len() <= text.len(),
        text.take(query.len() as int) == query,
    ensures
        best_score(query, text) == Some(FuzzyScore { gaps: 0, start: 0 }),
{
    let pos = Seq::new(query.len(), |k: int| k);
    assert forall|k: int| 0 <= k < pos.len() implies 0 <= #[trigger] pos[k] < text.len() && text[pos[k]]
        == query[k] by {
        assert(text.take(query.len() as int)[k] == text[k]);
    }
    assert(is_embedding(query, text, pos));
    assert(gaps_of(pos) == 0 && start_of(pos) == 0);
    assert(is_best_score(query, text, FuzzyScore { gaps: 0, start: 0 })) by {
        assert forall|other: Seq<int>| #[trigger] is_embedding(query, text, other) implies no_worse_than(
            FuzzyScore { gaps: 0, start: 0 },
            gaps_of(other),
            start_of(other),
        ) by {
            lemma_gaps_are_not_negative(query, text, other);
        }
    }
    lemma_best_score_is(query, text, FuzzyScore { gaps: 0, start: 0 });
}

/// An embedding skips no fewer than zero characters: its positions are at
/// least as far apart as they are many.
proof fn lemma_gaps_are_not_negative(query: Seq<char>, text: Seq<char>, pos: Seq<int>)
    requires
        is_embedding(query, text, pos),
    ensures
        gaps_of(pos) >= 0,
        start_of(pos) >= 0,
{
    if pos.len() > 0 {
        lemma_positions_spread(pos, pos.len() - 1);
    }
}

/// Positions that rise from place to place rise by at least one each time.
proof fn lemma_positions_spread(pos: Seq<int>, k: int)
    requires
        0 <= k < pos.len(),
        forall|a: int, b: int| 0 <= a < b < pos.len() ==> pos[a] < pos[b],
    ensures
        pos[k] >= pos[0] + k,
    decreases k,
{
    if k > 0 {
        lemma_positions_spread(pos, k - 1);
    }
}

/// Follows the query through the text from `start`, where the query's first
/// character stands, taking each next character at the first place it
/// occurs. Returns the position of the query's last character, which no
/// embedding from `start` can have earlier; `None` where no embedding starts
/// at `start`.
fn greedy_last(query: &Vec<char>, text: &Vec<char>, start: usize) -> (r: Option<usize>)
    requires
        query.len() >= 1,
        start < text.len(),
        text[start as int] == query[0],
    ensures
        match r {
            Some(last) => {
                &&& start + query.len() <= last + 1
                &&& last < text.len()
                &&& exists|pos: Seq<int>|
                    is_embedding(query@, text@, pos) && pos[0] == start && pos.last() == last
                &&& forall|pos: Seq<int>| #[trigger]
                    is_embedding(query@, text@, pos) && pos[0] == start ==> pos.last() >= last
            },
            None => forall|pos: Seq<int>| #[trigger]
                is_embedding(query@, text@, pos) ==> pos[0] != start,
        },
{
    let m = query.len();
    let n = text.len();
    let mut k: usize = 1;
    let mut i: usize = start + 1;
    let mut last: usize = start;
    let ghost mut chosen: Seq<int> = seq![start as int];
    while k < m && i < n
        invariant
            m == query.len(),
            n == text.len(),
            1 <= k <= m,
            start <= last < i <= n,
            start + k <= last + 1,
            chosen.len() == k,
            chosen[0] == start,
            chosen[k - 1] == last,
            forall|j: int|
                0 <= j < k ==> 0 <= #[trigger] chosen[j] <= last && text[chosen[j]] == query[j],
            forall|a: int, b: int| 0 <= a < b < k ==> chosen[a] < chosen[b],
            forall|pos: Seq<int>| #[trigger]
                is_embedding(query@, text@, pos) && pos[0] == start ==> pos[k - 1] >= last && (k
                    < m ==> pos[k as int] >= i),
        decreases n - i,
    {
        if text[i] == query[k] {
            proof {
                assert forall|pos: Seq<int>| #[trigger]
                    is_embedding(query@, text@, pos) && pos[0] == start implies pos[k as int] >= i
                    && (k + 1 < m ==> pos[k + 1] >= i + 1) by {
                    if k + 1 < m {
                        assert(pos[k as int] < pos[k + 1]);
                    }
                }
                chosen = chosen.push(i as int);
            }
            last = i;
            k = k + 1;
        } else {
            proof {
                assert forall|pos: Seq<int>| #[trigger]
                    is_embedding(query@, text@, pos) && pos[0] == start implies pos[k as int] >= i
                    + 1 by {
                    assert(text[pos[k as int]] == query[k as int]);
                }
            }
        }
        i = i + 1;
    }
    if k == m {
        proof {
            assert(is_embedding(query@, text@, chosen));
            assert(chosen.last() == last);
        }
        Some(last)
    } else {
        proof {
            assert forall|pos: Seq<int>| #[trigger]
                is_embedding(query@, text@, pos) implies pos[0] != start by {
                if pos[0] == start {
                    assert(pos[k as int] >= n);
                }
            }
        }
        None
    }
}

/// Scores `query` against `text`, both taken as they are.
pub fn score_chars(query: &Vec<char>, text: &Vec<char>) -> (r: Option<FuzzyScore>)
    ensures
        r == best_score(query@, text@),
        r is Some <==> is_subsequence(query@, text@),
        r matches Some(score) ==> is_best_score(query@, text@, score),
{
    let m = query.len();
    let n = text.len();
    if m == 0 {
        proof {
            assert(query@ =~= Seq::<char>::empty());
            lemma_empty_query(text@);
            lemma_best_score_is(query@, text@, FuzzyScore { gaps: 0, start: 0 });
        }
        return Some(FuzzyScore { gaps: 0, start: 0 });
    }
    let mut best: Option<FuzzyScore> = None;
    let mut s: usize = 0;
    while s < n
        invariant
            m == query.len(),
            n == text.len(),
            m >= 1,
            s <= n,
            match best {
                Some(b) => {
                    &&& b.start < s
                    &&& exists|pos: Seq<int>|
                        is_embedding(query@, text@, pos) && gaps_of(pos) == b.gaps && start_of(pos)
                            == b.start
                    &&& forall|pos: Seq<int>| #[trigger]
                        is_embedding(query@, text@, pos) && pos[0] < s ==> no_worse_than(
                            b,
                            gaps_of(pos),
                            start_of(pos),
                        )
                },
                None => forall|pos: Seq<int>| #[trigger]
                    is_embedding(query@, text@, pos) ==> pos[0] >= s,
            },
        decreases n - s,
    {
        let ghost before = best;
        if text[s] == query[0] {
            match greedy_last(query, text, s) {
                Some(last) => {
                    let gaps = last + 1 - s - m;
                    let found = FuzzyScore { gaps, start: s };
                    let ghost witness = choose|pos: Seq<int>|
                        is_embedding(query@, text@, pos) && pos[0] == s && pos.last() == last;
                    assert(gaps_of(witness) == gaps && start_of(witness) == s);
                    let replace = match best {
                        Some(b) => gaps < b.gaps,
                        None => true,
                    };
                    if replace {
                        best = Some(found);
                    }
                    assert forall|pos: Seq<int>| #[trigger]
                        is_embedding(query@, text@, pos) && pos[0] < s + 1 implies no_worse_than(
                        best->0,
                        gaps_of(pos),
                        start_of(pos),
                    ) by {
                        if pos[0] == s {
                            assert(pos.last() >= last);
                        } else if before is Some {
                            assert(no_worse_than(before->0, gaps_of(pos), start_of(pos)));
                        }
                    }
                },
                None => {
                    assert forall|pos: Seq<int>| #[trigger]
                        is_embedding(query@, text@, pos) implies pos[0] != s by {}
                },
            }
        } else {
            assert forall|pos: Seq<int>| #[trigger]
                is_embedding(query@, text@, pos) implies pos[0] != s by {
                assert(text[pos[0]] == query[0]);
            }
        }
        s = s + 1;
    }
    proof {
        match best {
            Some(b) => {
                assert forall|pos: Seq<int>| #[trigger]
                    is_embedding(query@, text@, pos) implies no_worse_than(
                    b,
                    gaps_of(pos),
                    start_of(pos),
                ) by {
                    assert(pos[0] < n);
                }
                assert(is_best_score(query@, text@, b));
                lemma_best_score_is(query@, text@, b);
            },
            None => {
                assert forall|pos: Seq<int>| !is_embedding(query@, text@, pos) by {
                    if is_embedding(query@, text@, pos) {
                        assert(pos[0] >= n);
                        assert(pos[0] < n);
                    }
                }
            },
        }
    }
    best
}

/// Scores a query against a display text, capitals and small letters taken
/// as equal: `None` where the query's characters do not occur in the text in
/// their order, else the gaps and the start of the best embedding.
pub fn fuzzy_score(query: &str, text: &str) -> (r: Option<FuzzyScore>)
    ensures
        r == fuzzy(query@, text@),
        r is Some <==> is_subsequence(folded(query@), folded(text@)),
        r matches Some(score) ==> is_best_score(folded(query@), folded(text@), score),
{
    let q = folded_chars(query);
    let t = folded_chars(text);
    score_chars(&q, &t)
}

} // verus!
