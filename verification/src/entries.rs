//! The catalog of known entries, and the views that a query selects from it.
//!
//! The catalog only grows: entries are appended as they are discovered and
//! keep their arrival order. Desktop entries form one pool; each custom mode
//! has a pool of its own, and a view of one mode is made from that mode's
//! pool alone.

use vstd::prelude::*;
use vstd::utf8::encode_utf8;
use crate::db::entity::DesktopEntryEntity;
use crate::db::{weight_in, Database};
use crate::freedesktop::DesktopEntry;
use crate::matcher::{keys_of, lemma_matches_are_ranked, matches_of, rank_texts};
use crate::mode::Mode;
use crate::pools::{texts_of, Pools};
use crate::rank::{is_ranking, lemma_ranking_unique, pick};
use crate::text::texts;

verus! {

/// The most entries that an empty query shows, and that a custom mode
/// shows for any query.
pub const VIEW_LIMIT: usize = 50;

/// The names of a pool of desktop entries, in the pool's order.
pub open spec fn names_of(pool: Seq<DesktopEntry>) -> Seq<Seq<char>> {
    Seq::new(pool.len(), |i: int| pool[i].name@)
}

/// The weight that the store holds for each name, in the names' order.
pub open spec fn weights_of(names: Seq<Seq<char>>, store: Map<Seq<u8>, DesktopEntryEntity>) -> Seq<
    u8,
> {
    Seq::new(names.len(), |i: int| weight_in(store, encode_utf8(names[i])))
}

/// The first entries of a pool, up to the view limit.
pub open spec fn first_entries<T>(pool: Seq<T>) -> Seq<T> {
    if pool.len() <= VIEW_LIMIT {
        pool
    } else {
        pool.take(VIEW_LIMIT as int)
    }
}

/// The view of the desktop pool for a query: one entry for each name that
/// matches, ranked by fuzzy score, then by stored weight, then by arrival.
pub open spec fn desktop_matches(
    pool: Seq<DesktopEntry>,
    store: Map<Seq<u8>, DesktopEntryEntity>,
    query: Seq<char>,
) -> Seq<DesktopEntry> {
    pick(pool, matches_of(names_of(pool), weights_of(names_of(pool), store), query))
}

/// The view of one custom pool for a query: each text that matches, once,
/// ranked by fuzzy score and then by arrival, up to the view limit.
pub open spec fn custom_matches(pool: Seq<Seq<char>>, query: Seq<char>) -> Seq<Seq<char>> {
    first_entries(pick(pool, matches_of(pool, Seq::<u8>::empty(), query)))
}

/// The view of mode `mode` among `pools`: empty for a mode without a pool.
pub open spec fn mode_matches(
    pools: Map<Seq<char>, Seq<Seq<char>>>,
    mode: Seq<char>,
    query: Seq<char>,
) -> Seq<Seq<char>> {
    if pools.contains_key(mode) {
        custom_matches(pools[mode], query)
    } else {
        Seq::empty()
    }
}

/// The view of mode `mode` among `pools` for an empty query: the first
/// lines of the mode's pool, and nothing for a mode without a pool.
pub open spec fn mode_first_entries(pools: Map<Seq<char>, Seq<Seq<char>>>, mode: Seq<char>) -> Seq<
    Seq<char>,
> {
    first_entries(texts_of(pools, mode))
}

/// The pools that a fresh catalog holds for `modes`: an empty one for each
/// custom mode among them.
pub open spec fn fresh_pools(modes: Seq<Mode>) -> Map<Seq<char>, Seq<Seq<char>>> {
    Map::new(
        |k: Seq<char>|
            exists|i: int|
                0 <= i < modes.len() && (#[trigger] modes[i]) is Custom && modes[i]->Custom_0@ == k,
        |k: Seq<char>| Seq::<Seq<char>>::empty(),
    )
}

/// A view of a pool is the same view however often it is computed: whatever
/// lists the matching entries, each once and the best first, is the list
/// that `matches_of` names.
pub proof fn lemma_view_is_determined(
    pool: Seq<Seq<char>>,
    weights: Seq<u8>,
    query: Seq<char>,
    order: Seq<usize>,
)
    requires
        is_ranking(keys_of(pool, weights, query), order),
    ensures
        order == matches_of(pool, weights, query),
{
    lemma_ranking_unique(keys_of(pool, weights, query), order, matches_of(pool, weights, query));
}

/// The pools after `added` went behind the pool of mode `mode`: a mode
/// that had no pool has one from then on.
pub open spec fn extended(
    pools: Map<Seq<char>, Seq<Seq<char>>>,
    mode: Seq<char>,
    added: Seq<Seq<char>>,
) -> Map<Seq<char>, Seq<Seq<char>>> {
    pools.insert(mode, texts_of(pools, mode) + added)
}

/// What is appended to the pool of one mode never shows in the view of
/// another mode: that view is what it was, for every query.
pub proof fn lemma_modes_are_isolated(
    pools: Map<Seq<char>, Seq<Seq<char>>>,
    a: Seq<char>,
    b: Seq<char>,
    added: Seq<Seq<char>>,
    query: Seq<char>,
)
    requires
        a != b,
    ensures
        mode_matches(extended(pools, a, added), b, query) == mode_matches(pools, b, query),
        extended(pools, a, added).contains_key(b) == pools.contains_key(b),
        pools.contains_key(b) ==> extended(pools, a, added)[b] == pools[b],
{
}

/// Every text in the view of a mode stands in that mode's pool.
pub proof fn lemma_view_comes_from_pool(pool: Seq<Seq<char>>, query: Seq<char>, k: int)
    requires
        pool.len() <= usize::MAX,
        0 <= k < custom_matches(pool, query).len(),
    ensures
        pool.contains(custom_matches(pool, query)[k]),
{
    lemma_matches_are_ranked(pool, Seq::<u8>::empty(), query);
    let order = matches_of(pool, Seq::<u8>::empty(), query);
    let all = pick(pool, order);
    assert(custom_matches(pool, query)[k] == all[k]);
    assert(order[k] < pool.len());
    assert(pool[order[k] as int] == all[k]);
}

/// The view for an empty query holds the entries of the pool in arrival
/// order: all of them where the pool holds no more than the view limit, else
/// exactly as many as the limit allows.
pub proof fn lemma_first_entries_keep_arrival_order<T>(pool: Seq<T>)
    ensures
        first_entries(pool).len() == if pool.len() <= VIEW_LIMIT {
            pool.len()
        } else {
            VIEW_LIMIT as nat
        },
        forall|k: int| 0 <= k < first_entries(pool).len() ==> first_entries(pool)[k] == pool[k],
{
}

/// Every entry that is known, by mode, in arrival order.
pub struct Entries {
    pub desktop_entries: Vec<DesktopEntry>,
    pub custom_entries: Pools,
}

/// What the current query selects, by mode.
pub struct MatchedEntries {
    pub desktop_entries: Vec<DesktopEntry>,
    pub custom_entries: Pools,
}

/// The first strings of `pool`, up to the view limit.
fn first_lines(pool: &Vec<String>) -> (out: Vec<String>)
    ensures
        texts(out@) == first_entries(texts(pool@)),
{
    let n = if pool.len() <= VIEW_LIMIT {
        pool.len()
    } else {
        VIEW_LIMIT
    };
    let mut out: Vec<String> = Vec::new();
    let mut i: usize = 0;
    while i < n
        invariant
            i <= n <= pool.len(),
            out.len() == i,
            forall|k: int| 0 <= k < i ==> out[k]@ == pool[k]@,
        decreases n - i,
    {
        out.push(pool[i].clone());
        i = i + 1;
    }
    assert(texts(out@) =~= first_entries(texts(pool@)));
    out
}

impl Entries {
    /// A catalog without entries, with an empty pool for each custom mode
    /// among `modes`.
    pub fn new(modes: &[Mode]) -> (entries: Self)
        ensures
            entries.desktop_entries@ == Seq::<DesktopEntry>::empty(),
            entries.custom_entries@ == fresh_pools(modes@),
    {
        let mut custom_entries = Pools::new();
        let mut i: usize = 0;
        while i < modes.len()
            invariant
                i <= modes.len(),
                custom_entries@ == fresh_pools(modes@.take(i as int)),
            decreases modes.len() - i,
        {
            let ghost before = custom_entries@;
            if let Mode::Custom(name) = &modes[i] {
                custom_entries.insert(name.clone(), Vec::new());
            }
            proof {
                let shorter = modes@.take(i as int);
                let longer = modes@.take(i + 1);
                assert(longer[i as int] == modes@[i as int]);
                assert forall|k: Seq<char>| #[trigger]
                    fresh_pools(longer).contains_key(k) <==> custom_entries@.contains_key(k) by {
                    if fresh_pools(longer).contains_key(k) {
                        let j = choose|j: int|
                            0 <= j < longer.len() && (#[trigger] longer[j]) is Custom
                                && longer[j]->Custom_0@ == k;
                        if j < i {
                            assert(shorter[j] == longer[j]);
                        }
                    }
                    if before.contains_key(k) {
                        let j = choose|j: int|
                            0 <= j < shorter.len() && (#[trigger] shorter[j]) is Custom
                                && shorter[j]->Custom_0@ == k;
                        assert(longer[j] == shorter[j]);
                    }
                }
                assert(texts(Seq::<String>::empty()) =~= Seq::<Seq<char>>::empty());
                assert(custom_entries@ =~= fresh_pools(longer));
            }
            i = i + 1;
        }
        assert(modes@.take(modes.len() as int) =~= modes@);
        Entries { desktop_entries: Vec::new(), custom_entries }
    }

    /// Takes in a desktop entry that the scan found: it goes behind those
    /// that are known. The custom pools stay.
    pub fn push_desktop_entry(&mut self, entry: DesktopEntry)
        ensures
            final(self).desktop_entries@ == old(self).desktop_entries@.push(entry),
            final(self).custom_entries@ == old(self).custom_entries@,
    {
        self.desktop_entries.push(entry);
    }

    /// Takes in lines that the source of mode `mode` gave: they go behind
    /// the lines of that mode, in their order. A mode from which nothing
    /// came before gets its pool now. No other pool changes, nor the
    /// desktop pool.
    pub fn extend_custom_entries(&mut self, mode: &str, lines: Vec<String>)
        ensures
            final(self).desktop_entries@ == old(self).desktop_entries@,
            final(self).custom_entries@ == extended(
                old(self).custom_entries@,
                mode@,
                texts(lines@),
            ),
    {
        self.custom_entries.extend(mode, lines);
    }

    /// The view for an empty query in desktop mode: the first entries of
    /// the pool in arrival order, up to the view limit.
    pub fn take_50_desktop_entries(&self) -> (out: Vec<DesktopEntry>)
        ensures
            out@ == first_entries(self.desktop_entries@),
    {
        let pool = &self.desktop_entries;
        let n = if pool.len() <= VIEW_LIMIT {
            pool.len()
        } else {
            VIEW_LIMIT
        };
        let mut out: Vec<DesktopEntry> = Vec::new();
        let mut i: usize = 0;
        while i < n
            invariant
                i <= n <= pool.len(),
                out.len() == i,
                forall|k: int| 0 <= k < i ==> out[k] == pool[k],
            decreases n - i,
        {
            out.push(pool[i].clone());
            i = i + 1;
        }
        assert(out@ =~= first_entries(pool@));
        out
    }

    /// The view for an empty query in mode `mode`: the first lines of the
    /// mode's pool in arrival order, up to the view limit; nothing for a
    /// mode without a pool.
    pub fn take_50_custom_entries(&self, mode: &str) -> (out: Vec<String>)
        ensures
            texts(out@) == mode_first_entries(self.custom_entries@, mode@),
    {
        match self.custom_entries.get(mode) {
            Some(pool) => first_lines(pool),
            None => {
                let out: Vec<String> = Vec::new();
                assert(texts(out@) =~= Seq::<Seq<char>>::empty());
                out
            },
        }
    }

    /// The view of the desktop pool for `query`: one entry for each name
    /// that matches, ranked by fuzzy score, then by the weight that `db`
    /// holds for the name, then by arrival.
    pub fn get_matches(&self, query: &str, db: &Database<DesktopEntryEntity>) -> (out: Vec<
        DesktopEntry,
    >)
        ensures
            out@ == desktop_matches(self.desktop_entries@, db@, query@),
    {
        let pool = &self.desktop_entries;
        let mut names: Vec<String> = Vec::new();
        let mut weights: Vec<u8> = Vec::new();
        let mut i: usize = 0;
        while i < pool.len()
            invariant
                i <= pool.len(),
                names.len() == i,
                weights.len() == i,
                forall|k: int| 0 <= k < i ==> names[k]@ == pool[k].name@,
                forall|k: int|
                    0 <= k < i ==> weights[k] == weight_in(db@, encode_utf8(pool[k].name@)),
            decreases pool.len() - i,
        {
            names.push(pool[i].name.clone());
            weights.push(db.weight_of(pool[i].name.as_str()));
            i = i + 1;
        }
        assert(texts(names@) =~= names_of(pool@));
        assert(weights@ =~= weights_of(names_of(pool@), db@));
        let order = rank_texts(&names, &weights, query);
        let mut out: Vec<DesktopEntry> = Vec::new();
        let mut k: usize = 0;
        while k < order.len()
            invariant
                k <= order.len(),
                out.len() == k,
                is_ranking(keys_of(names_of(pool@), weights@, query@), order@),
                forall|j: int| 0 <= j < k ==> out[j] == pool[order[j] as int],
            decreases order.len() - k,
        {
            assert(order[k as int] < pool.len());
            out.push(pool[order[k]].clone());
            k = k + 1;
        }
        assert(out@ =~= pick(pool@, order@));
        out
    }

    /// The view of mode `mode` for `query`: each line of the mode's pool
    /// that matches, once, ranked by fuzzy score and then by arrival, up to
    /// the view limit. A mode without a pool has an empty view.
    pub fn get_matches_custom_mode(&self, mode: &str, query: &str) -> (out: Vec<String>)
        ensures
            texts(out@) == mode_matches(self.custom_entries@, mode@, query@),
    {
        match self.custom_entries.get(mode) {
            Some(pool) => {
                let weights: Vec<u8> = Vec::new();
                let order = rank_texts(pool, &weights, query);
                let n = if order.len() <= VIEW_LIMIT {
                    order.len()
                } else {
                    VIEW_LIMIT
                };
                let mut out: Vec<String> = Vec::new();
                let mut k: usize = 0;
                while k < n
                    invariant
                        k <= n <= order.len(),
                        out.len() == k,
                        is_ranking(keys_of(texts(pool@), weights@, query@), order@),
                        forall|j: int| 0 <= j < k ==> out[j]@ == pool[order[j] as int]@,
                    decreases n - k,
                {
                    assert(order[k as int] < pool.len());
                    out.push(pool[order[k]].clone());
                    k = k + 1;
                }
                assert(weights@ =~= Seq::<u8>::empty());
                assert(texts(out@) =~= first_entries(pick(texts(pool@), order@)));
                out
            },
            None => {
                let out: Vec<String> = Vec::new();
                assert(texts(out@) =~= Seq::<Seq<char>>::empty());
                out
            },
        }
    }
}

} // verus!
