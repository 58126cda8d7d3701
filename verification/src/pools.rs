//! Lists of candidate texts, one per mode name.

use vstd::prelude::*;
use crate::text::{same_text, texts};

verus! {

/// The texts of one mode, in the order in which they came.
pub struct Pool {
    pub name: String,
    pub lines: Vec<String>,
}

/// No two pools carry the same name.
pub open spec fn distinct_names(pools: Seq<Pool>) -> bool {
    forall|i: int, j: int| 0 <= i < j < pools.len() ==> pools[i].name@ != pools[j].name@
}

/// The pools as a map from mode name to the mode's texts.
pub open spec fn by_name(pools: Seq<Pool>) -> Map<Seq<char>, Seq<Seq<char>>> {
    Map::new(
        |k: Seq<char>| exists|i: int| 0 <= i < pools.len() && #[trigger] pools[i].name@ == k,
        |k: Seq<char>|
            texts(pools[choose|i: int| 0 <= i < pools.len() && #[trigger] pools[i].name@ == k].lines@),
    )
}

/// Among pools with distinct names each is found under its own name.
proof fn lemma_by_name_at(pools: Seq<Pool>, i: int)
    requires
        distinct_names(pools),
        0 <= i < pools.len(),
    ensures
        by_name(pools).contains_key(pools[i].name@),
        by_name(pools)[pools[i].name@] == texts(pools[i].lines@),
{
    let k = pools[i].name@;
    let j = choose|j: int| 0 <= j < pools.len() && #[trigger] pools[j].name@ == k;
    assert(j == i);
}

/// Putting `pool` where a pool of its name stood, or behind the others
/// where none did, gives the map with that one name set anew.
proof fn lemma_by_name_put(pools: Seq<Pool>, after: Seq<Pool>, p: int, pool: Pool)
    requires
        distinct_names(pools),
        0 <= p <= pools.len(),
        p < pools.len() ==> pools[p].name@ == pool.name@ && after == pools.update(p, pool),
        p == pools.len() ==> after == pools.push(pool) && forall|i: int|
            0 <= i < pools.len() ==> pools[i].name@ != pool.name@,
    ensures
        distinct_names(after),
        by_name(after) == by_name(pools).insert(pool.name@, texts(pool.lines@)),
{
    assert(distinct_names(after)) by {
        assert forall|i: int, j: int| 0 <= i < j < after.len() implies after[i].name@
            != after[j].name@ by {
            if j < pools.len() {
                assert(pools[i].name@ != pools[j].name@);
            }
        }
    }
    let goal = by_name(pools).insert(pool.name@, texts(pool.lines@));
    assert forall|k: Seq<char>| #[trigger] by_name(after).contains_key(k) <==> goal.contains_key(
        k,
    ) by {
        if by_name(after).contains_key(k) {
            let i = choose|i: int| 0 <= i < after.len() && #[trigger] after[i].name@ == k;
            if i != p {
                assert(pools[i].name@ == k);
            }
        }
        if by_name(pools).contains_key(k) {
            let i = choose|i: int| 0 <= i < pools.len() && #[trigger] pools[i].name@ == k;
            assert(after[i].name@ == k);
        }
        if k == pool.name@ {
            assert(after[p].name@ == k);
        }
    }
    assert forall|k: Seq<char>| #[trigger] by_name(after).contains_key(k) implies by_name(
        after,
    )[k] == goal[k] by {
        let i = choose|i: int| 0 <= i < after.len() && #[trigger] after[i].name@ == k;
        lemma_by_name_at(after, i);
        if i != p {
            assert(pools[i].name@ == k);
            lemma_by_name_at(pools, i);
        }
    }
    assert(by_name(after) =~= goal);
}

/// The texts that `pools` hold for mode `name`: none for a mode without a
/// pool.
pub open spec fn texts_of(pools: Map<Seq<char>, Seq<Seq<char>>>, name: Seq<char>) -> Seq<
    Seq<char>,
> {
    if pools.contains_key(name) {
        pools[name]
    } else {
        Seq::empty()
    }
}

/// For each mode name at most one list of texts. A name is found by its
/// characters.
pub struct Pools {
    pools: Vec<Pool>,
}

impl View for Pools {
    type V = Map<Seq<char>, Seq<Seq<char>>>;

    closed spec fn view(&self) -> Map<Seq<char>, Seq<Seq<char>>> {
        by_name(self.pools@)
    }
}

impl Pools {
    #[verifier::type_invariant]
    spec fn well_formed(&self) -> bool {
        distinct_names(self.pools@)
    }

    /// No mode at all.
    pub fn new() -> (pools: Self)
        ensures
            pools@ == Map::<Seq<char>, Seq<Seq<char>>>::empty(),
    {
        let pools = Pools { pools: Vec::new() };
        assert(pools@ =~= Map::<Seq<char>, Seq<Seq<char>>>::empty());
        pools
    }

    /// Where the pool of `name` stands, if there is one.
    fn position(&self, name: &str) -> (r: Option<usize>)
        ensures
            match r {
                Some(p) => p < self.pools.len() && self.pools[p as int].name@ == name@,
                None => forall|i: int| 0 <= i < self.pools.len() ==> self.pools[i].name@ != name@,
            },
    {
        let mut i: usize = 0;
        while i < self.pools.len()
            invariant
                i <= self.pools.len(),
                forall|j: int| 0 <= j < i ==> self.pools[j].name@ != name@,
            decreases self.pools.len() - i,
        {
            if same_text(self.pools[i].name.as_str(), name) {
                return Some(i);
            }
            i = i + 1;
        }
        None
    }

    /// The texts of mode `name`; `None` for a mode without a pool.
    pub fn get(&self, name: &str) -> (r: Option<&Vec<String>>)
        ensures
            match r {
                Some(lines) => self@.contains_key(name@) && texts(lines@) == self@[name@],
                None => !self@.contains_key(name@),
            },
    {
        proof {
            use_type_invariant(self);
        }
        match self.position(name) {
            Some(p) => {
                proof {
                    lemma_by_name_at(self.pools@, p as int);
                }
                Some(&self.pools[p].lines)
            },
            None => None,
        }
    }

    /// Sets the texts of mode `name` to `lines`, whether or not the mode
    /// had a pool. No other mode changes.
    pub fn insert(&mut self, name: String, lines: Vec<String>)
        ensures
            final(self)@ == old(self)@.insert(name@, texts(lines@)),
    {
        proof {
            use_type_invariant(&*self);
        }
        let found = self.position(name.as_str());
        // The pools are taken out, changed and put back as a whole.
        let mut taken = Pools { pools: Vec::new() };
        core::mem::swap(self, &mut taken);
        let Pools { pools } = taken;
        let mut pools = pools;
        let ghost before = pools@;
        let pool = Pool { name, lines };
        match found {
            Some(p) => {
                pools.set(p, pool);
                proof {
                    lemma_by_name_put(before, pools@, p as int, pool);
                }
            },
            None => {
                pools.push(pool);
                proof {
                    lemma_by_name_put(before, pools@, before.len() as int, pool);
                }
            },
        }
        *self = Pools { pools };
    }

    /// Appends `lines` to the texts of mode `name`, in their order. A mode
    /// without a pool gets one that holds these lines. No other mode
    /// changes.
    pub fn extend(&mut self, name: &str, lines: Vec<String>)
        ensures
            final(self)@ == old(self)@.insert(name@, texts_of(old(self)@, name@) + texts(lines@)),
    {
        proof {
            use_type_invariant(&*self);
        }
        let found = self.position(name);
        match found {
            Some(p) => {
                let mut taken = Pools { pools: Vec::new() };
                core::mem::swap(self, &mut taken);
                let Pools { pools } = taken;
                let mut pools = pools;
                let ghost before = pools@;
                proof {
                    lemma_by_name_at(before, p as int);
                }
                let Pool { name: own_name, lines: own_lines } = pools.remove(p);
                let mut joined = own_lines;
                let mut lines = lines;
                let ghost added = lines@;
                joined.append(&mut lines);
                let pool = Pool { name: own_name, lines: joined };
                pools.insert(p, pool);
                proof {
                    assert(pools@ =~= before.update(p as int, pool));
                    assert(texts(pool.lines@) =~= texts(before[p as int].lines@) + texts(added));
                    lemma_by_name_put(before, pools@, p as int, pool);
                }
                *self = Pools { pools };
            },
            None => {
                assert(Seq::<Seq<char>>::empty() + texts(lines@) =~= texts(lines@));
                self.insert(name.to_string(), lines);
            },
        }
    }
}

} // verus!
