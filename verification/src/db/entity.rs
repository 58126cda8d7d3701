//! What the usage store keeps of a desktop entry.

use vstd::prelude::*;
use vstd::string::StrSliceExecFns;
use vstd::string::StringExecFns;
use vstd::utf8::encode_utf8;
use crate::db::{weight_in, Database};
use crate::freedesktop::{DesktopEntry, IconPath};

verus! {

/// A kind of record that the usage store can hold.
pub trait Entity {
    /// The bytes under which the record is found again.
    spec fn spec_key(&self) -> Seq<u8>;

    /// How often the record's entry was chosen, as far as the store counts.
    spec fn spec_weight(&self) -> u8;

    fn get_key(&self) -> (key: Vec<u8>)
        ensures
            key@ == self.spec_key(),
    ;

    fn get_weight(&self) -> (weight: u8)
        ensures
            weight == self.spec_weight(),
    ;

    /// The name of the collection that holds the records of this kind.
    const COLLECTION: &'static str;
}

/// The stored record of a desktop entry: the entry's name, icon and place,
/// and its usage weight.
#[derive(Debug, PartialEq, Eq)]
pub struct DesktopEntryEntity {
    pub name: String,
    pub icon: Option<IconPath>,
    pub path: String,
    pub weight: u8,
}

impl Clone for DesktopEntryEntity {
    fn clone(&self) -> (r: Self)
        ensures
            r == *self,
    {
        DesktopEntryEntity {
            name: self.name.clone(),
            icon: self.icon.clone(),
            path: self.path.clone(),
            weight: self.weight,
        }
    }
}

/// The weight that a record gets when its entry is stored once more: 0 for
/// an entry that the store did not hold, else one more than before, and
/// never more than the counter can hold.
pub open spec fn next_weight(prior: Option<u8>) -> u8 {
    match prior {
        Some(w) => if w < u8::MAX {
            (w + 1) as u8
        } else {
            u8::MAX
        },
        None => 0,
    }
}

/// The weight of an entry after it was stored `runs` more times.
pub open spec fn weight_after(prior: Option<u8>, runs: nat) -> Option<u8>
    decreases runs,
{
    if runs == 0 {
        prior
    } else {
        Some(next_weight(weight_after(prior, (runs - 1) as nat)))
    }
}

/// A weight as a number: 0 where there is none yet.
pub open spec fn weight_or_zero(w: Option<u8>) -> int {
    match w {
        Some(w) => w as int,
        None => 0,
    }
}

/// Storing an entry again and again never lowers its weight, raises it by
/// one each time while it is below the counter's maximum, and leaves it at
/// the maximum once it is there.
pub proof fn lemma_weight_monotone(prior: Option<u8>, fewer: nat, more: nat)
    requires
        fewer <= more,
    ensures
        weight_or_zero(weight_after(prior, fewer)) <= weight_or_zero(weight_after(prior, more)),
        weight_or_zero(weight_after(prior, more)) <= u8::MAX,
        weight_after(prior, fewer) == Some(u8::MAX) ==> weight_after(prior, more) == Some(
            u8::MAX,
        ),
    decreases more,
{
    if fewer < more {
        lemma_weight_monotone(prior, fewer, (more - 1) as nat);
    }
}

impl DesktopEntryEntity {
    /// Records one more use of `entry`, found at `path`: stores its record
    /// with the weight that follows the one the store held, and returns what
    /// was stored. No other record changes.
    pub fn persist(entry: &DesktopEntry, path: &str, db: &mut Database<DesktopEntryEntity>) -> (entity:
        DesktopEntryEntity)
        ensures
            entity.name == entry.name,
            entity.icon == entry.icon,
            entity.path@ == path@,
            entity.weight == next_weight(
                if old(db)@.contains_key(encode_utf8(entry.name@)) {
                    Some(old(db)@[encode_utf8(entry.name@)].weight)
                } else {
                    None
                },
            ),
            final(db)@ == old(db)@.insert(encode_utf8(entry.name@), entity),
            weight_in(final(db)@, encode_utf8(entry.name@)) >= weight_in(
                old(db)@,
                encode_utf8(entry.name@),
            ),
    {
        let weight = match db.get_by_key(entry.name.as_str()) {
            Some(stored) => stored.weight.saturating_add(1),
            None => 0,
        };
        let entity = DesktopEntryEntity {
            name: entry.name.clone(),
            icon: entry.icon.clone(),
            path: String::from_str(path),
            weight,
        };
        db.insert(entity.clone());
        entity
    }
}

impl Entity for DesktopEntryEntity {
    open spec fn spec_key(&self) -> Seq<u8> {
        encode_utf8(self.name@)
    }

    open spec fn spec_weight(&self) -> u8 {
        self.weight
    }

    fn get_key(&self) -> (key: Vec<u8>) {
        self.name.as_str().as_bytes_vec()
    }

    fn get_weight(&self) -> (weight: u8) {
        self.weight
    }

    const COLLECTION: &'static str = "desktop_entry";
}

} // verus!
