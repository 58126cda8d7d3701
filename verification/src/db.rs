//! The usage store as the launcher holds it in memory: one collection of
//! records, each found again under its key.

use vstd::prelude::*;
use vstd::utf8::encode_utf8;
use crate::db::entity::Entity;
use crate::text::same_bytes;

pub mod entity;

verus! {

/// No two records share a key.
pub open spec fn distinct_keys<E: Entity>(records: Seq<E>) -> bool {
    forall|i: int, j: int|
        0 <= i < j < records.len() ==> records[i].spec_key() != records[j].spec_key()
}

/// The records as a map from key to record.
pub open spec fn by_key<E: Entity>(records: Seq<E>) -> Map<Seq<u8>, E> {
    Map::new(
        |k: Seq<u8>| exists|i: int| 0 <= i < records.len() && #[trigger] records[i].spec_key() == k,
        |k: Seq<u8>|
            records[choose|i: int| 0 <= i < records.len() && #[trigger] records[i].spec_key() == k],
    )
}

/// The weight that a store holds for a key: 0 for a key it does not hold.
pub open spec fn weight_in<E: Entity>(store: Map<Seq<u8>, E>, key: Seq<u8>) -> u8 {
    if store.contains_key(key) {
        store[key].spec_weight()
    } else {
        0
    }
}

/// Among records with distinct keys each is found under its own key.
proof fn lemma_by_key_at<E: Entity>(records: Seq<E>, i: int)
    requires
        distinct_keys(records),
        0 <= i < records.len(),
    ensures
        by_key(records).contains_key(records[i].spec_key()),
        by_key(records)[records[i].spec_key()] == records[i],
{
    let k = records[i].spec_key();
    let j = choose|j: int| 0 <= j < records.len() && #[trigger] records[j].spec_key() == k;
    assert(j == i);
}

/// Putting a record where one of its key stood sets that key anew and
/// leaves the others.
proof fn lemma_by_key_replace<E: Entity>(records: Seq<E>, p: int, entity: E)
    requires
        distinct_keys(records),
        0 <= p < records.len(),
        records[p].spec_key() == entity.spec_key(),
    ensures
        distinct_keys(records.update(p, entity)),
        by_key(records.update(p, entity)) == by_key(records).insert(entity.spec_key(), entity),
{
    let after = records.update(p, entity);
    assert(distinct_keys(after)) by {
        assert forall|i: int, j: int| 0 <= i < j < after.len() implies after[i].spec_key()
            != after[j].spec_key() by {
            assert(records[i].spec_key() != records[j].spec_key());
        }
    }
    assert forall|k: Seq<u8>| #[trigger]
        by_key(after).contains_key(k) <==> by_key(records).insert(
            entity.spec_key(),
            entity,
        ).contains_key(k) by {
        if by_key(after).contains_key(k) {
            let i = choose|i: int| 0 <= i < after.len() && #[trigger] after[i].spec_key() == k;
            assert(records[i].spec_key() == k);
        }
        if by_key(records).contains_key(k) {
            let i = choose|i: int| 0 <= i < records.len() && #[trigger] records[i].spec_key() == k;
            assert(after[i].spec_key() == k);
        }
        if k == entity.spec_key() {
            assert(after[p].spec_key() == k);
        }
    }
    assert forall|k: Seq<u8>| #[trigger] by_key(after).contains_key(k) implies by_key(after)[k]
        == by_key(records).insert(entity.spec_key(), entity)[k] by {
        let i = choose|i: int| 0 <= i < after.len() && #[trigger] after[i].spec_key() == k;
        lemma_by_key_at(after, i);
        if i != p {
            assert(records[i].spec_key() == k);
            lemma_by_key_at(records, i);
        }
    }
    assert(by_key(after) =~= by_key(records).insert(entity.spec_key(), entity));
}

/// Putting a record of a new key behind the others adds that key and
/// leaves the others.
proof fn lemma_by_key_append<E: Entity>(records: Seq<E>, entity: E)
    requires
        distinct_keys(records),
        forall|i: int| 0 <= i < records.len() ==> records[i].spec_key() != entity.spec_key(),
    ensures
        distinct_keys(records.push(entity)),
        by_key(records.push(entity)) == by_key(records).insert(entity.spec_key(), entity),
{
    let after = records.push(entity);
    let p = records.len() as int;
    assert(distinct_keys(after));
    assert forall|k: Seq<u8>| #[trigger]
        by_key(after).contains_key(k) <==> by_key(records).insert(
            entity.spec_key(),
            entity,
        ).contains_key(k) by {
        if by_key(after).contains_key(k) {
            let i = choose|i: int| 0 <= i < after.len() && #[trigger] after[i].spec_key() == k;
            if i != p {
                assert(records[i].spec_key() == k);
            }
        }
        if by_key(records).contains_key(k) {
            let i = choose|i: int| 0 <= i < records.len() && #[trigger] records[i].spec_key() == k;
            assert(after[i].spec_key() == k);
        }
        if k == entity.spec_key() {
            assert(after[p].spec_key() == k);
        }
    }
    assert forall|k: Seq<u8>| #[trigger] by_key(after).contains_key(k) implies by_key(after)[k]
        == by_key(records).insert(entity.spec_key(), entity)[k] by {
        let i = choose|i: int| 0 <= i < after.len() && #[trigger] after[i].spec_key() == k;
        lemma_by_key_at(after, i);
        if i != p {
            assert(records[i].spec_key() == k);
            lemma_by_key_at(records, i);
        }
    }
    assert(by_key(after) =~= by_key(records).insert(entity.spec_key(), entity));
}

/// One collection of the usage store: at most one record under each key.
pub struct Database<E: Entity> {
    records: Vec<E>,
}

impl<E: Entity> View for Database<E> {
    type V = Map<Seq<u8>, E>;

    closed spec fn view(&self) -> Map<Seq<u8>, E> {
        by_key(self.records@)
    }
}

impl<E: Entity> Database<E> {
    #[verifier::type_invariant]
    spec fn well_formed(&self) -> bool {
        distinct_keys(self.records@)
    }

    /// A store that holds nothing.
    pub fn new() -> (db: Self)
        ensures
            db@ == Map::<Seq<u8>, E>::empty(),
    {
        let db = Database { records: Vec::new() };
        assert(db@ =~= Map::<Seq<u8>, E>::empty());
        db
    }

    /// Where the record under `key` stands, if there is one.
    fn position(&self, key: &[u8]) -> (r: Option<usize>)
        ensures
            match r {
                Some(p) => p < self.records.len() && self.records[p as int].spec_key() == key@,
                None => forall|i: int|
                    0 <= i < self.records.len() ==> self.records[i].spec_key() != key@,
            },
    {
        let mut i: usize = 0;
        while i < self.records.len()
            invariant
                i <= self.records.len(),
                forall|j: int| 0 <= j < i ==> self.records[j].spec_key() != key@,
            decreases self.records.len() - i,
        {
            let k = self.records[i].get_key();
            if same_bytes(k.as_slice(), key) {
                return Some(i);
            }
            i = i + 1;
        }
        None
    }

    /// The record stored under the bytes of `key`; `None` where there is
    /// none, which is no error.
    pub fn get_by_key(&self, key: &str) -> (r: Option<&E>)
        ensures
            match r {
                Some(e) => self@.contains_key(encode_utf8(key@)) && *e == self@[encode_utf8(key@)],
                None => !self@.contains_key(encode_utf8(key@)),
            },
    {
        proof {
            use_type_invariant(self);
        }
        match self.position(key.as_bytes()) {
            Some(p) => {
                proof {
                    lemma_by_key_at(self.records@, p as int);
                }
                Some(&self.records[p])
            },
            None => None,
        }
    }

    /// The weight stored under the bytes of `key`: 0 where nothing is.
    pub fn weight_of(&self, key: &str) -> (w: u8)
        ensures
            w == weight_in(self@, encode_utf8(key@)),
    {
        match self.get_by_key(key) {
            Some(e) => e.get_weight(),
            None => 0,
        }
    }

    /// Stores `entity` under its key, in place of the record that stood
    /// there, if any. Every other record stays.
    pub fn insert(&mut self, entity: E)
        ensures
            final(self)@ == old(self)@.insert(entity.spec_key(), entity),
    {
        proof {
            use_type_invariant(&*self);
        }
        let key = entity.get_key();
        let found = self.position(key.as_slice());
        // The records are taken out, changed and put back as a whole.
        let mut taken = Database { records: Vec::new() };
        core::mem::swap(self, &mut taken);
        let Database { records } = taken;
        let mut records = records;
        match found {
            Some(p) => {
                proof {
                    lemma_by_key_replace(records@, p as int, entity);
                }
                records.set(p, entity);
            },
            None => {
                proof {
                    lemma_by_key_append(records@, entity);
                }
                records.push(entity);
            },
        }
        *self = Database { records };
    }

    /// Every record of the store, each once.
    pub fn records(&self) -> (all: &Vec<E>)
        ensures
            distinct_keys(all@),
            self@ == by_key(all@),
    {
        proof {
            use_type_invariant(self);
        }
        &self.records
    }
}

} // verus!
