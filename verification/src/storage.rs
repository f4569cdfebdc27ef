//! The reference in-memory backends for the three persistence interfaces
//! the pipeline consumes: the object store, the effects store, and the
//! checkpoint store. Each is an association list read as a map. The
//! abstract store interfaces are represented here by their one reference
//! implementation each, under the interfaces' method names and contracts;
//! a swappable second backend would sit behind the same contracts.

use vstd::prelude::*;
use vstd::string::StringExecFns;

use crate::kvmap::{
    kv_map, kv_unique, lemma_kv_absent, lemma_kv_contains, lemma_kv_index, lemma_kv_push,
    lemma_kv_remove, lemma_kv_remove_unique, lemma_kv_update,
};
use crate::object::{ObjectView, OwnerView, Owner, SuiObject};
use crate::strutil::str_eq;
use crate::transaction::TransactionDigest;

verus! {

// ---------------------------------------------------------------------------
// Object store
// ---------------------------------------------------------------------------

/// Objects keyed by their identity; `put` overwrites, last writer wins.
pub struct InMemoryObjectStore {
    entries: Vec<SuiObject>,
}

/// Whether an object passes an optional owner filter: no filter admits
/// everything, an address filter admits objects owned by that address.
pub open spec fn owner_matches(o: ObjectView, filter: Option<Seq<char>>) -> bool {
    match filter {
        Option::None => true,
        Option::Some(a) => o.owner == OwnerView::Address(a),
    }
}

/// The objects of `s` that pass the filter, in order.
pub open spec fn filter_owner(s: Seq<ObjectView>, filter: Option<Seq<char>>) -> Seq<ObjectView>
    decreases s.len(),
{
    if s.len() == 0 {
        Seq::empty()
    } else {
        filter_owner(s.drop_last(), filter) + (if owner_matches(s.last(), filter) {
            seq![s.last()]
        } else {
            Seq::empty()
        })
    }
}

impl InMemoryObjectStore {
    spec fn pairs(&self) -> Seq<(Seq<char>, ObjectView)> {
        self.entries@.map_values(|o: SuiObject| (o.id@, o@))
    }

    /// The stored objects in insertion order.
    pub closed spec fn objects_seq(&self) -> Seq<ObjectView> {
        self.entries@.map_values(|o: SuiObject| o@)
    }

    /// The store as a map from object identity to object.
    pub closed spec fn objects(&self) -> Map<Seq<char>, ObjectView> {
        kv_map(self.pairs())
    }

    pub closed spec fn wf(&self) -> bool {
        kv_unique(self.pairs())
    }

    /// Every stored object sits under its own identity.
    pub proof fn lemma_keys_are_ids(&self)
        requires
            self.wf(),
        ensures
            forall|k: Seq<char>|
                self.objects().contains_key(k) ==> (#[trigger] self.objects()[k]).id == k,
    {
        assert forall|k: Seq<char>| self.objects().contains_key(k) implies (
        #[trigger] self.objects()[k]).id == k by {
            lemma_kv_contains(self.pairs(), k);
            let i = choose|i: int| 0 <= i < self.pairs().len() && (#[trigger] self.pairs()[i]).0
                == k;
            lemma_kv_index(self.pairs(), i);
        }
    }

    pub fn new() -> (r: Self)
        ensures
            r.wf(),
            r.objects() == Map::<Seq<char>, ObjectView>::empty(),
            r.objects_seq() == Seq::<ObjectView>::empty(),
    {
        let r = InMemoryObjectStore { entries: Vec::new() };
        proof {
            assert(r.pairs() =~= Seq::<(Seq<char>, ObjectView)>::empty());
            assert(r.objects_seq() =~= Seq::<ObjectView>::empty());
        }
        r
    }

    fn find(&self, id: &str) -> (r: Option<usize>)
        ensures
            match r {
                Some(i) => i < self.entries@.len() && self.pairs()[i as int].0 == id@,
                None => forall|i: int|
                    0 <= i < self.pairs().len() ==> (#[trigger] self.pairs()[i]).0 != id@,
            },
    {
        let mut i: usize = 0;
        while i < self.entries.len()
            invariant
                0 <= i <= self.entries@.len(),
                forall|j: int| 0 <= j < i ==> (#[trigger] self.pairs()[j]).0 != id@,
            decreases self.entries@.len() - i,
        {
            if str_eq(self.entries[i].id.0.as_str(), id) {
                return Some(i);
            }
            i = i + 1;
        }
        None
    }

    /// A copy of the object stored under `id`, if any.
    pub fn get_object(&self, id: &str) -> (r: Option<SuiObject>)
        requires
            self.wf(),
        ensures
            match r {
                Some(o) => self.objects().contains_key(id@) && o@ == self.objects()[id@],
                None => !self.objects().contains_key(id@),
            },
    {
        match self.find(id) {
            Some(i) => {
                proof {
                    lemma_kv_index(self.pairs(), i as int);
                }
                Some(self.entries[i].clone())
            },
            None => {
                proof {
                    lemma_kv_absent(self.pairs(), id@);
                }
                None
            },
        }
    }

    /// Stores `object` under its identity, overwriting any previous version
    /// unconditionally.
    pub fn put_object(&mut self, object: SuiObject)
        requires
            old(self).wf(),
        ensures
            final(self).wf(),
            final(self).objects() == old(self).objects().insert(object.id@, object@),
    {
        let ghost before = self.pairs();
        let ghost k = object.id@;
        let ghost v = object@;
        match self.find(object.id.0.as_str()) {
            Some(i) => {
                proof {
                    lemma_kv_update(before, i as int, v);
                }
                self.entries[i] = object;
                proof {
                    assert(self.pairs() =~= before.update(i as int, (k, v)));
                }
            },
            None => {
                proof {
                    lemma_kv_push(before, k, v);
                }
                self.entries.push(object);
                proof {
                    assert(self.pairs() =~= before.push((k, v)));
                }
            },
        }
    }

    /// Removes the object stored under `id`, if any.
    pub fn delete_object(&mut self, id: &str)
        requires
            old(self).wf(),
        ensures
            final(self).wf(),
            final(self).objects() == old(self).objects().remove(id@),
    {
        let ghost before = self.pairs();
        match self.find(id) {
            Some(i) => {
                proof {
                    lemma_kv_remove(before, i as int);
                    lemma_kv_remove_unique(before, i as int);
                }
                self.entries.remove(i);
                proof {
                    assert(self.pairs() =~= before.remove(i as int));
                }
            },
            None => {
                proof {
                    lemma_kv_absent(before, id@);
                    assert(old(self).objects().remove(id@) =~= old(self).objects());
                }
            },
        }
    }

    /// Copies of the stored objects, optionally only those owned by the
    /// given address, in insertion order.
    pub fn list_objects(&self, owner: Option<&str>) -> (r: Vec<SuiObject>)
        ensures
            r.deep_view() == filter_owner(
                self.objects_seq(),
                match owner {
                    Option::Some(a) => Option::Some(a@),
                    Option::None => Option::None,
                },
            ),
    {
        let ghost f: Option<Seq<char>> = match owner {
            Option::Some(a) => Option::Some(a@),
            Option::None => Option::None,
        };
        let mut r: Vec<SuiObject> = Vec::new();
        let mut i: usize = 0;
        while i < self.entries.len()
            invariant
                0 <= i <= self.entries@.len(),
                f == match owner {
                    Option::<&str>::Some(a) => Option::<Seq<char>>::Some(a@),
                    Option::<&str>::None => Option::<Seq<char>>::None,
                },
                r.deep_view() == filter_owner(self.objects_seq().subrange(0, i as int), f),
            decreases self.entries@.len() - i,
        {
            proof {
                assert(self.objects_seq()[i as int] == self.entries@[i as int]@);
            }
            let keep = match owner {
                Option::None => true,
                Option::Some(addr) => match &self.entries[i].owner {
                    Owner::Address(a) => {
                        let e = str_eq(a.as_str(), addr);
                        proof {
                            assert(self.entries@[i as int]@.owner == OwnerView::Address(a@));
                            assert(e == owner_matches(self.objects_seq()[i as int], f));
                        }
                        e
                    },
                    _ => {
                        proof {
                            assert(!owner_matches(self.objects_seq()[i as int], f));
                        }
                        false
                    },
                },
            };
            let ghost prev = r.deep_view();
            if keep {
                r.push(self.entries[i].clone());
                proof {
                    assert(r.deep_view() =~= prev.push(self.objects_seq()[i as int]));
                }
            }
            proof {
                let sub = self.objects_seq().subrange(0, i as int + 1);
                assert(sub.drop_last() =~= self.objects_seq().subrange(0, i as int));
                assert(sub.last() == self.objects_seq()[i as int]);
                assert(owner_matches(self.objects_seq()[i as int], f) == keep);
                if keep {
                    assert(r.deep_view() =~= filter_owner(sub, f));
                } else {
                    assert(r.deep_view() =~= filter_owner(sub, f));
                }
            }
            i = i + 1;
        }
        proof {
            assert(self.objects_seq().subrange(0, self.entries@.len() as int)
                =~= self.objects_seq());
        }
        r
    }
}

// ---------------------------------------------------------------------------
// Effects store
// ---------------------------------------------------------------------------

/// Serialized effects keyed by transaction digest.
pub struct InMemoryEffectsStore {
    entries: Vec<(String, String)>,
}

impl InMemoryEffectsStore {
    spec fn pairs(&self) -> Seq<(Seq<char>, Seq<char>)> {
        self.entries@.map_values(|p: (String, String)| (p.0@, p.1@))
    }

    /// The store as a map from digest to serialized effects.
    pub closed spec fn effects(&self) -> Map<Seq<char>, Seq<char>> {
        kv_map(self.pairs())
    }

    pub closed spec fn wf(&self) -> bool {
        kv_unique(self.pairs())
    }

    pub fn new() -> (r: Self)
        ensures
            r.wf(),
            r.effects() == Map::<Seq<char>, Seq<char>>::empty(),
    {
        let r = InMemoryEffectsStore { entries: Vec::new() };
        proof {
            assert(r.pairs() =~= Seq::<(Seq<char>, Seq<char>)>::empty());
        }
        r
    }

    fn find(&self, digest: &str) -> (r: Option<usize>)
        ensures
            match r {
                Some(i) => i < self.entries@.len() && self.pairs()[i as int].0 == digest@,
                None => forall|i: int|
                    0 <= i < self.pairs().len() ==> (#[trigger] self.pairs()[i]).0 != digest@,
            },
    {
        let mut i: usize = 0;
        while i < self.entries.len()
            invariant
                0 <= i <= self.entries@.len(),
                forall|j: int| 0 <= j < i ==> (#[trigger] self.pairs()[j]).0 != digest@,
            decreases self.entries@.len() - i,
        {
            if str_eq(self.entries[i].0.as_str(), digest) {
                return Some(i);
            }
            i = i + 1;
        }
        None
    }

    /// Saves the serialized effects under the digest, overwriting a previous
    /// record for the same digest.
    pub fn save_effects(&mut self, digest: &TransactionDigest, effects_text: &str)
        requires
            old(self).wf(),
        ensures
            final(self).wf(),
            final(self).effects() == old(self).effects().insert(digest@, effects_text@),
    {
        let ghost before = self.pairs();
        match self.find(digest.0.as_str()) {
            Some(i) => {
                proof {
                    lemma_kv_update(before, i as int, effects_text@);
                }
                self.entries[i] = (digest.0.clone(), effects_text.to_owned());
                proof {
                    assert(self.pairs() =~= before.update(i as int, (digest@, effects_text@)));
                }
            },
            None => {
                proof {
                    lemma_kv_push(before, digest@, effects_text@);
                }
                self.entries.push((digest.0.clone(), effects_text.to_owned()));
                proof {
                    assert(self.pairs() =~= before.push((digest@, effects_text@)));
                }
            },
        }
    }

    /// The serialized effects stored under the digest, if any.
    pub fn get_effects(&self, digest: &TransactionDigest) -> (r: Option<String>)
        requires
            self.wf(),
        ensures
            match r {
                Some(text) => self.effects().contains_key(digest@) && text@ == self.effects()[
                    digest@],
                None => !self.effects().contains_key(digest@),
            },
    {
        match self.find(digest.0.as_str()) {
            Some(i) => {
                proof {
                    lemma_kv_index(self.pairs(), i as int);
                }
                Some(self.entries[i].1.clone())
            },
            None => {
                proof {
                    lemma_kv_absent(self.pairs(), digest@);
                }
                None
            },
        }
    }
}

// ---------------------------------------------------------------------------
// Checkpoint store
// ---------------------------------------------------------------------------

/// Serialized checkpoint summaries keyed by sequence number, with an O(1)
/// latest-sequence marker.
pub struct InMemoryCheckpointStore {
    entries: Vec<(u64, String)>,
    latest: Option<u64>,
}

impl InMemoryCheckpointStore {
    spec fn pairs(&self) -> Seq<(u64, Seq<char>)> {
        self.entries@.map_values(|p: (u64, String)| (p.0, p.1@))
    }

    /// The store as a map from sequence number to serialized summary.
    pub closed spec fn checkpoints(&self) -> Map<u64, Seq<char>> {
        kv_map(self.pairs())
    }

    /// The sequence number most recently saved.
    pub closed spec fn latest_seq(&self) -> Option<u64> {
        self.latest
    }

    pub closed spec fn wf(&self) -> bool {
        kv_unique(self.pairs())
    }

    pub fn new() -> (r: Self)
        ensures
            r.wf(),
            r.checkpoints() == Map::<u64, Seq<char>>::empty(),
            r.latest_seq() is None,
    {
        let r = InMemoryCheckpointStore { entries: Vec::new(), latest: None };
        proof {
            assert(r.pairs() =~= Seq::<(u64, Seq<char>)>::empty());
        }
        r
    }

    fn find(&self, sequence: u64) -> (r: Option<usize>)
        ensures
            match r {
                Some(i) => i < self.entries@.len() && self.pairs()[i as int].0 == sequence,
                None => forall|i: int|
                    0 <= i < self.pairs().len() ==> (#[trigger] self.pairs()[i]).0 != sequence,
            },
    {
        let mut i: usize = 0;
        while i < self.entries.len()
            invariant
                0 <= i <= self.entries@.len(),
                forall|j: int| 0 <= j < i ==> (#[trigger] self.pairs()[j]).0 != sequence,
            decreases self.entries@.len() - i,
        {
            if self.entries[i].0 == sequence {
                return Some(i);
            }
            i = i + 1;
        }
        None
    }

    /// Saves the serialized summary under its sequence number and moves the
    /// latest-sequence marker to it.
    pub fn save_checkpoint(&mut self, sequence: u64, checkpoint_text: &str)
        requires
            old(self).wf(),
        ensures
            final(self).wf(),
            final(self).checkpoints() == old(self).checkpoints().insert(
                sequence,
                checkpoint_text@,
            ),
            final(self).latest_seq() == Some(sequence),
    {
        let ghost before = self.pairs();
        match self.find(sequence) {
            Some(i) => {
                proof {
                    lemma_kv_update(before, i as int, checkpoint_text@);
                }
                self.entries[i] = (sequence, checkpoint_text.to_owned());
                proof {
                    assert(self.pairs() =~= before.update(i as int, (sequence, checkpoint_text@)));
                }
            },
            None => {
                proof {
                    lemma_kv_push(before, sequence, checkpoint_text@);
                }
                self.entries.push((sequence, checkpoint_text.to_owned()));
                proof {
                    assert(self.pairs() =~= before.push((sequence, checkpoint_text@)));
                }
            },
        }
        self.latest = Some(sequence);
    }

    /// The serialized summary stored under the sequence number, if any.
    pub fn get_checkpoint(&self, sequence: u64) -> (r: Option<String>)
        requires
            self.wf(),
        ensures
            match r {
                Some(text) => self.checkpoints().contains_key(sequence) && text@
                    == self.checkpoints()[sequence],
                None => !self.checkpoints().contains_key(sequence),
            },
    {
        match self.find(sequence) {
            Some(i) => {
                proof {
                    lemma_kv_index(self.pairs(), i as int);
                }
                Some(self.entries[i].1.clone())
            },
            None => {
                proof {
                    lemma_kv_absent(self.pairs(), sequence);
                }
                None
            },
        }
    }

    pub fn get_latest_sequence(&self) -> (r: Option<u64>)
        ensures
            r == self.latest_seq(),
    {
        self.latest
    }
}

} // verus!
