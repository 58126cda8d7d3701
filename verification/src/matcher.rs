//! Matching a query against a pool of display texts and ranking what
//! matches.
//!
//! Of several entries with the same text only the one that arrived first
//! takes part, so a view never shows a text twice.

use vstd::prelude::*;
use crate::fuzzy::{fuzzy, score_chars};
use crate::rank::{
    is_ranking,
    lemma_ranking_exists,
    lemma_tie_goes_to_first_arrival,
    rank,
    ranking,
    ranks_before,
    Candidate,
};
use crate::text::{folded_chars, same_text, texts};

verus! {

/// No earlier entry of the pool has the text of entry `i`.
pub open spec fn first_of_its_text(pool: Seq<Seq<char>>, i: int) -> bool {
    forall|j: int| 0 <= j < i ==> pool[j] != pool[i]
}

/// The weight of entry `i`: 0 where the list of weights does not reach.
pub open spec fn weight_at(weights: Seq<u8>, i: int) -> u8 {
    if 0 <= i < weights.len() {
        weights[i]
    } else {
        0
    }
}

/// The key of entry `i`: `None` where its text does not match the query or
/// stands earlier in the pool already.
pub open spec fn key_at(pool: Seq<Seq<char>>, weights: Seq<u8>, query: Seq<char>, i: int) -> Option<
    Candidate,
> {
    if first_of_its_text(pool, i) {
        match fuzzy(query, pool[i]) {
            Some(score) => Some(Candidate { score, weight: weight_at(weights, i) }),
            None => None,
        }
    } else {
        None
    }
}

/// The keys of a pool for a query, in arrival order.
pub open spec fn keys_of(pool: Seq<Seq<char>>, weights: Seq<u8>, query: Seq<char>) -> Seq<
    Option<Candidate>,
> {
    Seq::new(pool.len(), |i: int| key_at(pool, weights, query, i))
}

/// The positions of the entries that match the query, the best first.
pub open spec fn matches_of(pool: Seq<Seq<char>>, weights: Seq<u8>, query: Seq<char>) -> Seq<
    usize,
> {
    ranking(keys_of(pool, weights, query))
}

/// The positions that `matches_of` names are a ranking of the pool: the
/// entries that take part, each once, the best first.
pub proof fn lemma_matches_are_ranked(pool: Seq<Seq<char>>, weights: Seq<u8>, query: Seq<char>)
    requires
        pool.len() <= usize::MAX,
    ensures
        is_ranking(keys_of(pool, weights, query), matches_of(pool, weights, query)),
{
    lemma_ranking_exists(keys_of(pool, weights, query));
}

/// A view shows no text twice.
pub proof fn lemma_each_text_once(
    pool: Seq<Seq<char>>,
    weights: Seq<u8>,
    query: Seq<char>,
    a: int,
    b: int,
)
    requires
        pool.len() <= usize::MAX,
        0 <= a < b < matches_of(pool, weights, query).len(),
    ensures
        pool[matches_of(pool, weights, query)[a] as int] != pool[matches_of(
            pool,
            weights,
            query,
        )[b] as int],
{
    lemma_matches_are_ranked(pool, weights, query);
    let keys = keys_of(pool, weights, query);
    let order = matches_of(pool, weights, query);
    let i = order[a] as int;
    let j = order[b] as int;
    assert(ranks_before(keys, i, j));
    assert(keys[i] is Some && keys[j] is Some);
    assert(first_of_its_text(pool, i) && first_of_its_text(pool, j));
}

/// The first place at which the text of entry `i` stands in the pool.
proof fn lemma_first_place(pool: Seq<Seq<char>>, i: int) -> (j: int)
    requires
        0 <= i < pool.len(),
    ensures
        0 <= j <= i,
        pool[j] == pool[i],
        first_of_its_text(pool, j),
    decreases i,
{
    if first_of_its_text(pool, i) {
        i
    } else {
        let earlier = choose|k: int| 0 <= k < i && pool[k] == pool[i];
        lemma_first_place(pool, earlier)
    }
}

/// A view shows the text of an entry exactly if the query matches it.
pub proof fn lemma_shown_iff_matching(
    pool: Seq<Seq<char>>,
    weights: Seq<u8>,
    query: Seq<char>,
    i: int,
)
    requires
        pool.len() <= usize::MAX,
        0 <= i < pool.len(),
    ensures
        fuzzy(query, pool[i]) is Some <==> exists|k: int|
            0 <= k < matches_of(pool, weights, query).len() && pool[#[trigger] matches_of(
                pool,
                weights,
                query,
            )[k] as int] == pool[i],
{
    lemma_matches_are_ranked(pool, weights, query);
    let keys = keys_of(pool, weights, query);
    let order = matches_of(pool, weights, query);
    if fuzzy(query, pool[i]) is Some {
        let j = lemma_first_place(pool, i);
        assert(keys[j] is Some);
        assert(order.contains(j as usize));
        let k = choose|k: int| 0 <= k < order.len() && order[k] == j as usize;
        assert(pool[order[k] as int] == pool[i]);
    }
    if exists|k: int| 0 <= k < order.len() && pool[#[trigger] order[k] as int] == pool[i] {
        let k = choose|k: int| 0 <= k < order.len() && pool[#[trigger] order[k] as int] == pool[i];
        assert(keys[order[k] as int] is Some);
    }
}

/// Of two entries of a view that match the query equally well and weigh
/// the same, the one that arrived first stands first.
pub proof fn lemma_ties_keep_arrival_order(
    pool: Seq<Seq<char>>,
    weights: Seq<u8>,
    query: Seq<char>,
    a: int,
    b: int,
)
    requires
        pool.len() <= usize::MAX,
        0 <= a < matches_of(pool, weights, query).len(),
        0 <= b < matches_of(pool, weights, query).len(),
        ({
            let i = matches_of(pool, weights, query)[a] as int;
            let j = matches_of(pool, weights, query)[b] as int;
            &&& fuzzy(query, pool[i]) == fuzzy(query, pool[j])
            &&& weight_at(weights, i) == weight_at(weights, j)
            &&& i < j
        }),
    ensures
        a < b,
{
    lemma_matches_are_ranked(pool, weights, query);
    let keys = keys_of(pool, weights, query);
    let order = matches_of(pool, weights, query);
    assert(keys[order[a] as int] is Some && keys[order[b] as int] is Some);
    lemma_tie_goes_to_first_arrival(keys, order, a, b);
}

/// Whether no earlier entry of the pool has the text of entry `i`.
fn is_first_of_its_text(pool: &Vec<String>, i: usize) -> (r: bool)
    requires
        i < pool.len(),
    ensures
        r == first_of_its_text(texts(pool@), i as int),
{
    let mut j: usize = 0;
    while j < i
        invariant
            j <= i < pool.len(),
            forall|k: int| 0 <= k < j ==> texts(pool@)[k] != texts(pool@)[i as int],
        decreases i - j,
    {
        if same_text(pool[j].as_str(), pool[i].as_str()) {
            assert(texts(pool@)[j as int] == texts(pool@)[i as int]);
            return false;
        }
        j = j + 1;
    }
    true
}

/// Matches `query` against each text of `pool` and ranks what matches: by
/// fuzzy score, then by weight, then by arrival. Returns the positions of
/// the matching entries, the best first.
pub fn rank_texts(pool: &Vec<String>, weights: &Vec<u8>, query: &str) -> (order: Vec<usize>)
    ensures
        order@ == matches_of(texts(pool@), weights@, query@),
        is_ranking(keys_of(texts(pool@), weights@, query@), order@),
{
    let q = folded_chars(query);
    let n = pool.len();
    let mut keys: Vec<Option<Candidate>> = Vec::new();
    let mut i: usize = 0;
    while i < n
        invariant
            n == pool.len(),
            i <= n,
            q@ == crate::text::folded(query@),
            keys.len() == i,
            forall|k: int|
                0 <= k < i ==> #[trigger] keys[k] == key_at(texts(pool@), weights@, query@, k),
        decreases n - i,
    {
        let mut key: Option<Candidate> = None;
        if is_first_of_its_text(pool, i) {
            let t = folded_chars(pool[i].as_str());
            if let Some(score) = score_chars(&q, &t) {
                let weight = if i < weights.len() {
                    weights[i]
                } else {
                    0
                };
                key = Some(Candidate { score, weight });
            }
        }
        keys.push(key);
        i = i + 1;
    }
    assert(keys@ =~= keys_of(texts(pool@), weights@, query@));
    rank(&keys)
}

} // verus!
