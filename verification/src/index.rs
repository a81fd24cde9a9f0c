//! An index from a key to the identifiers of the positions filed under it.

use crate::primitives::PositionId;
use std::collections::HashMap;
use std::hash::Hash;
use vstd::prelude::*;
use vstd::std_specs::hash::obeys_key_model;

verus! {

broadcast use vstd::std_specs::hash::group_hash_axioms;

/// The identifiers filed under `key`; none where the key is unknown.
pub open spec fn ids_in<K>(index: Map<K, Seq<PositionId>>, key: K) -> Seq<PositionId> {
    if index.contains_key(key) {
        index[key]
    } else {
        Seq::empty()
    }
}

/// `ids` without `id`, where `id` occurs in it.
pub open spec fn without(ids: Seq<PositionId>, id: PositionId) -> Seq<PositionId> {
    if ids.contains(id) {
        ids.remove(ids.index_of(id))
    } else {
        ids
    }
}

/// In a list without duplicates, removing the only occurrence of `id`
/// leaves a list without duplicates in which `id` no longer occurs, and
/// every other identifier stays.
pub proof fn lemma_without(ids: Seq<PositionId>, id: PositionId, at: int)
    requires
        ids.no_duplicates(),
        0 <= at < ids.len(),
        ids[at] == id,
    ensures
        without(ids, id) == ids.remove(at),
        without(ids, id).no_duplicates(),
        !without(ids, id).contains(id),
        forall|other: PositionId|
            other != id ==> (#[trigger] without(ids, id).contains(other) <==> ids.contains(other)),
{
    assert(ids.contains(id));
    let j = ids.index_of(id);
    assert(j == at);
    let rest = ids.remove(at);
    assert forall|a: int, b: int| 0 <= a < rest.len() && 0 <= b < rest.len() && a != b implies rest[a]
        != rest[b] by {
        let a0 = if a < at {
            a
        } else {
            a + 1
        };
        let b0 = if b < at {
            b
        } else {
            b + 1
        };
        assert(rest[a] == ids[a0]);
        assert(rest[b] == ids[b0]);
    }
    assert forall|other: PositionId| other != id implies (#[trigger] rest.contains(other)
        <==> ids.contains(other)) by {
        if rest.contains(other) {
            let a = choose|a: int| 0 <= a < rest.len() && rest[a] == other;
            let a0 = if a < at {
                a
            } else {
                a + 1
            };
            assert(ids[a0] == other);
        }
        if ids.contains(other) {
            let a0 = choose|a0: int| 0 <= a0 < ids.len() && ids[a0] == other;
            let a = if a0 < at {
                a0
            } else {
                a0 - 1
            };
            assert(rest[a] == other);
        }
    }
    if rest.contains(id) {
        let a = choose|a: int| 0 <= a < rest.len() && rest[a] == id;
        let a0 = if a < at {
            a
        } else {
            a + 1
        };
        assert(ids[a0] == id);
    }
}

/// Where `id` first occurs in `ids`, if it does.
pub fn position_of(ids: &Vec<PositionId>, id: PositionId) -> (r: Option<usize>)
    ensures
        match r {
            Some(at) => at < ids.len() && ids[at as int] == id && forall|j: int|
                0 <= j < at ==> ids[j] != id,
            None => !ids@.contains(id),
        },
{
    let mut i: usize = 0;
    while i < ids.len()
        invariant
            0 <= i <= ids.len(),
            forall|j: int| 0 <= j < i ==> ids[j] != id,
        decreases ids.len() - i,
    {
        if ids[i] == id {
            return Some(i);
        }
        i = i + 1;
    }
    None
}

/// Lists of position identifiers, one list per key.
pub struct IdIndex<K> {
    buckets: HashMap<K, Vec<PositionId>>,
}

impl<K> View for IdIndex<K> {
    type V = Map<K, Seq<PositionId>>;

    closed spec fn view(&self) -> Map<K, Seq<PositionId>> {
        self.buckets@.map_values(|v: Vec<PositionId>| v@)
    }
}

impl<K: Hash + Eq + Copy> IdIndex<K> {
    /// An index without keys.
    pub fn new() -> (r: Self)
        ensures
            r@ == Map::<K, Seq<PositionId>>::empty(),
    {
        let r = IdIndex { buckets: HashMap::new() };
        assert(r@ =~= Map::<K, Seq<PositionId>>::empty());
        r
    }

    /// The list filed under `key`, if the key is known.
    pub fn get(&self, key: K) -> (r: Option<&Vec<PositionId>>)
        requires
            obeys_key_model::<K>(),
        ensures
            match r {
                Some(ids) => self@.contains_key(key) && ids@ == self@[key],
                None => !self@.contains_key(key),
            },
    {
        self.buckets.get(&key)
    }

    /// Appends `id` to the list filed under `key`.
    pub fn insert(&mut self, key: K, id: PositionId)
        requires
            obeys_key_model::<K>(),
        ensures
            final(self)@ == old(self)@.insert(key, ids_in(old(self)@, key).push(id)),
    {
        let mut ids = match self.buckets.remove(&key) {
            Some(ids) => ids,
            None => Vec::new(),
        };
        ids.push(id);
        self.buckets.insert(key, ids);
        assert(self@ =~= old(self)@.insert(key, ids_in(old(self)@, key).push(id)));
    }

    /// Takes `id` out of the list filed under `key`; nothing changes
    /// where it is not in that list.
    pub fn remove(&mut self, key: K, id: PositionId)
        requires
            obeys_key_model::<K>(),
            ids_in(old(self)@, key).no_duplicates(),
        ensures
            final(self)@ == if ids_in(old(self)@, key).contains(id) {
                old(self)@.insert(key, without(ids_in(old(self)@, key), id))
            } else {
                old(self)@
            },
    {
        let mut ids = match self.buckets.remove(&key) {
            Some(ids) => ids,
            None => {
                assert(self@ =~= old(self)@);
                return ;
            },
        };
        let ghost before = ids@;
        assert(before == ids_in(old(self)@, key));
        match position_of(&ids, id) {
            Some(at) => {
                proof {
                    lemma_without(before, id, at as int);
                }
                ids.remove(at);
                self.buckets.insert(key, ids);
                assert(self@ =~= old(self)@.insert(key, without(before, id)));
            },
            None => {
                self.buckets.insert(key, ids);
                assert(self@ =~= old(self)@);
            },
        }
    }

    /// A copy that holds the same lists.
    pub fn snapshot(&self) -> (r: Self)
        ensures
            r@ == self@,
    {
        let r = IdIndex { buckets: self.buckets.clone() };
        assert(r@ =~= self@);
        r
    }
}

} // verus!
