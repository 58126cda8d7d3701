//! Ordering candidates by fuzzy score, usage weight and arrival.
//!
//! A pool is ranked through one key per entry, in arrival order: `None` for
//! an entry that is left out of the view, else its score and its weight. A
//! better score comes first; among equal scores the higher weight comes
//! first; among equal scores and weights the entry that arrived first comes
//! first. Since no two entries arrived at the same place, this leaves exactly
//! one order.

use vstd::prelude::*;
use crate::fuzzy::{better, FuzzyScore};

verus! {

/// What the ranking knows of an entry that takes part.
#[derive(Clone, Copy, Debug, PartialEq, Eq, Structural)]
pub struct Candidate {
    pub score: FuzzyScore,
    pub weight: u8,
}

/// A candidate with key `a`, arrived as number `i`, comes before one with key
/// `b`, arrived as number `j`.
pub open spec fn key_before(a: Candidate, i: int, b: Candidate, j: int) -> bool {
    ||| better(a.score, b.score)
    ||| a.score == b.score && a.weight > b.weight
    ||| a.score == b.score && a.weight == b.weight && i < j
}

/// Entry `i` comes before entry `j`; both take part.
pub open spec fn ranks_before(keys: Seq<Option<Candidate>>, i: int, j: int) -> bool {
    key_before(keys[i]->0, i, keys[j]->0, j)
}

/// `order` lists the entries that take part, each once, the best first.
pub open spec fn is_ranking(keys: Seq<Option<Candidate>>, order: Seq<usize>) -> bool {
    &&& forall|k: int|
        0 <= k < order.len() ==> #[trigger] order[k] < keys.len() && keys[order[k] as int] is Some
    &&& forall|i: int|
        0 <= i < keys.len() && #[trigger] keys[i] is Some ==> order.contains(i as usize)
    &&& forall|a: int, b: int|
        0 <= a < b < order.len() ==> ranks_before(keys, order[a] as int, order[b] as int)
}

/// The ranking of a pool with these keys.
pub open spec fn ranking(keys: Seq<Option<Candidate>>) -> Seq<usize> {
    choose|order: Seq<usize>| is_ranking(keys, order)
}

/// The entries of `pool` that `order` names, in that order.
pub open spec fn pick<T>(pool: Seq<T>, order: Seq<usize>) -> Seq<T> {
    Seq::new(order.len(), |k: int| pool[order[k] as int])
}

/// Two lists in ranking order that hold the same entries are the same list.
proof fn lemma_same_members_same_order(
    keys: Seq<Option<Candidate>>,
    r1: Seq<usize>,
    r2: Seq<usize>,
)
    requires
        forall|a: int, b: int|
            0 <= a < b < r1.len() ==> ranks_before(keys, r1[a] as int, r1[b] as int),
        forall|a: int, b: int|
            0 <= a < b < r2.len() ==> ranks_before(keys, r2[a] as int, r2[b] as int),
        forall|x: usize| r1.contains(x) <==> r2.contains(x),
    ensures
        r1 == r2,
    decreases r1.len(),
{
    if r1.len() == 0 {
        if r2.len() > 0 {
            assert(r2.contains(r2[0]));
        }
        assert(r1 =~= r2);
    } else {
        assert(r1.contains(r1[0]));
        assert(r2.contains(r1[0]));
        assert(r2.contains(r2[0]));
        assert(r1.contains(r2[0]));
        let i2 = choose|i: int| 0 <= i < r2.len() && r2[i] == r1[0];
        let i1 = choose|i: int| 0 <= i < r1.len() && r1[i] == r2[0];
        if i2 != 0 {
            assert(ranks_before(keys, r2[0] as int, r2[i2] as int));
            if i1 != 0 {
                assert(ranks_before(keys, r1[0] as int, r1[i1] as int));
            }
        }
        assert(r1[0] == r2[0]);
        let t1 = r1.drop_first();
        let t2 = r2.drop_first();
        assert forall|x: usize| t1.contains(x) <==> t2.contains(x) by {
            if t1.contains(x) {
                let k = choose|k: int| 0 <= k < t1.len() && t1[k] == x;
                assert(r1[k + 1] == x);
                assert(ranks_before(keys, r1[0] as int, r1[k + 1] as int));
                assert(r1.contains(x));
                let j = choose|j: int| 0 <= j < r2.len() && r2[j] == x;
                assert(j != 0);
                assert(t2[j - 1] == x);
            }
            if t2.contains(x) {
                let k = choose|k: int| 0 <= k < t2.len() && t2[k] == x;
                assert(r2[k + 1] == x);
                assert(ranks_before(keys, r2[0] as int, r2[k + 1] as int));
                assert(r2.contains(x));
                let j = choose|j: int| 0 <= j < r1.len() && r1[j] == x;
                assert(j != 0);
                assert(t1[j - 1] == x);
            }
        }
        assert forall|a: int, b: int| 0 <= a < b < t1.len() implies ranks_before(
            keys,
            t1[a] as int,
            t1[b] as int,
        ) by {
            assert(ranks_before(keys, r1[a + 1] as int, r1[b + 1] as int));
        }
        assert forall|a: int, b: int| 0 <= a < b < t2.len() implies ranks_before(
            keys,
            t2[a] as int,
            t2[b] as int,
        ) by {
            assert(ranks_before(keys, r2[a + 1] as int, r2[b + 1] as int));
        }
        lemma_same_members_same_order(keys, t1, t2);
        assert(r1 =~= seq![r1[0]] + t1);
        assert(r2 =~= seq![r2[0]] + t2);
    }
}

/// A pool has one ranking: whatever lists the entries that take part, each
/// once and the best first, is the same list.
pub proof fn lemma_ranking_unique(keys: Seq<Option<Candidate>>, r1: Seq<usize>, r2: Seq<usize>)
    requires
        is_ranking(keys, r1),
        is_ranking(keys, r2),
    ensures
        r1 == r2,
{
    assert forall|x: usize| r1.contains(x) <==> r2.contains(x) by {
        if r1.contains(x) {
            let k = choose|k: int| 0 <= k < r1.len() && r1[k] == x;
            assert(keys[r1[k] as int] is Some);
        }
        if r2.contains(x) {
            let k = choose|k: int| 0 <= k < r2.len() && r2[k] == x;
            assert(keys[r2[k] as int] is Some);
        }
    }
    lemma_same_members_same_order(keys, r1, r2);
}

/// Where entry `x` belongs in the list `order`, which is in ranking order
/// and does not hold `x`: behind every entry that comes before it.
proof fn lemma_place(keys: Seq<Option<Candidate>>, order: Seq<usize>, x: int, from: int) -> (p: int)
    requires
        0 <= from <= order.len(),
        forall|k: int| 0 <= k < order.len() ==> #[trigger] order[k] != x,
        forall|q: int| 0 <= q < from ==> ranks_before(keys, order[q] as int, x),
    ensures
        from <= p <= order.len(),
        forall|q: int| 0 <= q < p ==> ranks_before(keys, order[q] as int, x),
        p < order.len() ==> ranks_before(keys, x, order[p] as int),
    decreases order.len() - from,
{
    if from == order.len() {
        from
    } else if ranks_before(keys, x, order[from] as int) {
        from
    } else {
        assert(order[from] != x);
        lemma_place(keys, order, x, from + 1)
    }
}

/// Every pool has a ranking, and `ranking` names it.
pub proof fn lemma_ranking_exists(keys: Seq<Option<Candidate>>)
    requires
        keys.len() <= usize::MAX,
    ensures
        is_ranking(keys, ranking(keys)),
    decreases keys.len(),
{
    if keys.len() == 0 {
        assert(is_ranking(keys, Seq::<usize>::empty()));
    } else {
        let shorter = keys.drop_last();
        lemma_ranking_exists(shorter);
        let order = ranking(shorter);
        let x = keys.len() - 1;
        assert forall|a: int, b: int| 0 <= a < b < order.len() implies ranks_before(
            keys,
            order[a] as int,
            order[b] as int,
        ) by {
            assert(ranks_before(shorter, order[a] as int, order[b] as int));
            assert(shorter[order[a] as int] == keys[order[a] as int]);
            assert(shorter[order[b] as int] == keys[order[b] as int]);
        }
        assert forall|k: int| 0 <= k < order.len() implies #[trigger] order[k] < x && keys[order[k] as int]
            is Some by {
            assert(shorter[order[k] as int] == keys[order[k] as int]);
        }
        if keys[x] is Some {
            let p = lemma_place(keys, order, x, 0);
            let longer = order.insert(p, x as usize);
            assert forall|i: int| 0 <= i < keys.len() && #[trigger] keys[i] is Some implies longer.contains(
                i as usize,
            ) by {
                if i == x {
                    assert(longer[p] == x as usize);
                } else {
                    assert(shorter[i] is Some);
                    let k = choose|k: int| 0 <= k < order.len() && order[k] == i as usize;
                    if k < p {
                        assert(longer[k] == i as usize);
                    } else {
                        assert(longer[k + 1] == i as usize);
                    }
                }
            }
            assert forall|a: int, b: int| 0 <= a < b < longer.len() implies ranks_before(
                keys,
                longer[a] as int,
                longer[b] as int,
            ) by {
                if b < p {
                    assert(ranks_before(keys, order[a] as int, order[b] as int));
                } else if b == p {
                    assert(ranks_before(keys, order[a] as int, x));
                } else if a < p {
                    assert(ranks_before(keys, order[a] as int, order[b - 1] as int));
                } else if a == p {
                    if b - 1 > p {
                        assert(ranks_before(keys, order[p] as int, order[b - 1] as int));
                    }
                } else {
                    assert(ranks_before(keys, order[a - 1] as int, order[b - 1] as int));
                }
            }
            assert(is_ranking(keys, longer));
        } else {
            assert forall|i: int| 0 <= i < keys.len() && #[trigger] keys[i] is Some implies order.contains(
                i as usize,
            ) by {
                assert(shorter[i] is Some);
            }
            assert(is_ranking(keys, order));
        }
    }
}

/// Of two entries in a ranking with equal score and equal weight, the one
/// that arrived first stands first.
pub proof fn lemma_tie_goes_to_first_arrival(
    keys: Seq<Option<Candidate>>,
    order: Seq<usize>,
    a: int,
    b: int,
)
    requires
        is_ranking(keys, order),
        0 <= a < order.len(),
        0 <= b < order.len(),
        keys[order[a] as int] == keys[order[b] as int],
        order[a] < order[b],
    ensures
        a < b,
{
    if b < a {
        assert(ranks_before(keys, order[b] as int, order[a] as int));
    }
}

/// Of two entries in a ranking with equal score, the one with the higher
/// weight stands first; and whatever the weights, the one with the better
/// score stands first.
pub proof fn lemma_score_then_weight(
    keys: Seq<Option<Candidate>>,
    order: Seq<usize>,
    a: int,
    b: int,
)
    requires
        is_ranking(keys, order),
        0 <= a < order.len(),
        0 <= b < order.len(),
        ({
            let x = keys[order[a] as int]->0;
            let y = keys[order[b] as int]->0;
            better(x.score, y.score) || (x.score == y.score && x.weight > y.weight)
        }),
    ensures
        a < b,
{
    if b < a {
        assert(ranks_before(keys, order[b] as int, order[a] as int));
    }
}

/// Whether a candidate with key `a`, arrived as number `i`, comes before one
/// with key `b`, arrived as number `j`.
pub fn precedes(a: &Candidate, i: usize, b: &Candidate, j: usize) -> (r: bool)
    ensures
        r == key_before(*a, i as int, *b, j as int),
{
    if a.score.gaps != b.score.gaps {
        a.score.gaps < b.score.gaps
    } else if a.score.start != b.score.start {
        a.score.start < b.score.start
    } else if a.weight != b.weight {
        a.weight > b.weight
    } else {
        i < j
    }
}

/// Ranks a pool by its keys: the positions of the entries that take part,
/// the best first.
pub fn rank(keys: &Vec<Option<Candidate>>) -> (order: Vec<usize>)
    ensures
        is_ranking(keys@, order@),
        order@ == ranking(keys@),
{
    let n = keys.len();
    let mut order: Vec<usize> = Vec::new();
    let mut i: usize = 0;
    while i < n
        invariant
            n == keys.len(),
            i <= n,
            forall|k: int|
                0 <= k < order.len() ==> #[trigger] order[k] < i && keys[order[k] as int] is Some,
            forall|j: int| 0 <= j < i && #[trigger] keys[j] is Some ==> order@.contains(j as usize),
            forall|a: int, b: int|
                0 <= a < b < order.len() ==> ranks_before(keys@, order[a] as int, order[b] as int),
        decreases n - i,
    {
        if let Some(c) = keys[i] {
            let mut p: usize = 0;
            let mut searching = true;
            while searching && p < order.len()
                invariant
                    n == keys.len(),
                    i < n,
                    keys[i as int] == Some(c),
                    p <= order.len(),
                    forall|k: int|
                        0 <= k < order.len() ==> #[trigger] order[k] < i && keys[order[k] as int]
                            is Some,
                    forall|q: int| 0 <= q < p ==> ranks_before(keys@, order[q] as int, i as int),
                    !searching ==> p < order.len() && ranks_before(
                        keys@,
                        i as int,
                        order[p as int] as int,
                    ),
                decreases order.len() - p + (if searching { 1int } else { 0int }),
            {
                let j = order[p];
                if let Some(other) = keys[j] {
                    if precedes(&c, i, &other, j) {
                        searching = false;
                    } else {
                        p = p + 1;
                    }
                }
            }
            let ghost before = order@;
            order.insert(p, i);
            proof {
                assert(order@ == before.insert(p as int, i));
                assert forall|j: int| 0 <= j < i + 1 && #[trigger] keys@[j] is Some implies order@.contains(
                    j as usize,
                ) by {
                    if j == i {
                        assert(order@[p as int] == i);
                    } else {
                        assert(before.contains(j as usize));
                        let k = choose|k: int| 0 <= k < before.len() && before[k] == j as usize;
                        if k < p {
                            assert(order@[k] == j as usize);
                        } else {
                            assert(order@[k + 1] == j as usize);
                        }
                    }
                }
                assert forall|a: int, b: int| 0 <= a < b < order.len() implies ranks_before(
                    keys@,
                    order[a] as int,
                    order[b] as int,
                ) by {
                    if b < p {
                        assert(ranks_before(keys@, before[a] as int, before[b] as int));
                    } else if b == p {
                        assert(ranks_before(keys@, before[a] as int, i as int));
                    } else if a < p {
                        assert(ranks_before(keys@, before[a] as int, before[b - 1] as int));
                    } else if a == p {
                        if b - 1 > p {
                            assert(ranks_before(keys@, before[p as int] as int, before[b - 1] as int));
                        }
                    } else {
                        assert(ranks_before(keys@, before[a - 1] as int, before[b - 1] as int));
                    }
                }
            }
        }
        i = i + 1;
    }
    proof {
        assert(is_ranking(keys@, order@));
        lemma_ranking_unique(keys@, order@, ranking(keys@));
    }
    order
}

} // verus!
