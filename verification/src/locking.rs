//! The per-object lock table: shared/exclusive entries keyed by an object's
//! lock key, with non-blocking acquisition. An entry never holds shared
//! readers and an exclusive writer at once, and an entry with no holders is
//! removed at once.

use vstd::prelude::*;

use crate::kvmap::{
    kv_map, kv_unique, lemma_kv_absent, lemma_kv_index, lemma_kv_push, lemma_kv_remove,
    lemma_kv_remove_unique, lemma_kv_update,
};
use crate::object::{lock_key_of, SuiObject};

verus! {

#[derive(Debug, Clone, Copy, PartialEq, Eq, Structural)]
pub enum LockMode {
    Shared,
    Exclusive,
}

/// The holders of one lock key.
pub struct LockStateView {
    pub shared_count: usize,
    pub exclusive: bool,
}

struct LockEntry {
    key: String,
    shared_count: usize,
    exclusive: bool,
}

/// The lock table. Its mathematical content is the map `locks()`; every
/// operation states exactly how it changes that map.
pub struct LockManager {
    entries: Vec<LockEntry>,
}

impl LockManager {
    spec fn pairs(&self) -> Seq<(Seq<char>, LockStateView)> {
        self.entries@.map_values(
            |e: LockEntry|
                (e.key@, LockStateView { shared_count: e.shared_count, exclusive: e.exclusive }),
        )
    }

    /// The table as a map from lock key to its holders.
    pub closed spec fn locks(&self) -> Map<Seq<char>, LockStateView> {
        kv_map(self.pairs())
    }

    /// Keys are distinct; no entry is both shared and exclusive; no entry is
    /// empty.
    pub closed spec fn wf(&self) -> bool {
        &&& kv_unique(self.pairs())
        &&& forall|i: int|
            0 <= i < self.entries@.len() ==> !((#[trigger] self.entries@[i]).exclusive
                && self.entries@[i].shared_count > 0)
        &&& forall|i: int|
            0 <= i < self.entries@.len() ==> ((#[trigger] self.entries@[i]).exclusive
                || self.entries@[i].shared_count > 0)
    }

    /// Every key a well-formed table holds has at least one holder, and
    /// never both kinds at once.
    pub proof fn lemma_wf_states(&self, k: Seq<char>)
        requires
            self.wf(),
            self.locks().contains_key(k),
        ensures
            self.locks()[k].exclusive || self.locks()[k].shared_count > 0,
            !(self.locks()[k].exclusive && self.locks()[k].shared_count > 0),
    {
        crate::kvmap::lemma_kv_contains(self.pairs(), k);
        let i = choose|i: int| 0 <= i < self.pairs().len() && (#[trigger] self.pairs()[i]).0 == k;
        lemma_kv_index(self.pairs(), i);
    }

    pub fn new() -> (r: Self)
        ensures
            r.wf(),
            r.locks() == Map::<Seq<char>, LockStateView>::empty(),
    {
        let r = LockManager { entries: Vec::new() };
        proof {
            assert(r.pairs() =~= Seq::<(Seq<char>, LockStateView)>::empty());
        }
        r
    }

    /// The index of `key`'s entry, if the table holds one.
    fn find(&self, key: &String) -> (r: Option<usize>)
        ensures
            match r {
                Some(i) => i < self.entries@.len() && self.pairs()[i as int].0 == key@,
                None => forall|i: int|
                    0 <= i < self.pairs().len() ==> (#[trigger] self.pairs()[i]).0 != key@,
            },
    {
        let mut i: usize = 0;
        while i < self.entries.len()
            invariant
                0 <= i <= self.entries@.len(),
                forall|j: int| 0 <= j < i ==> (#[trigger] self.pairs()[j]).0 != key@,
            decreases self.entries@.len() - i,
        {
            if self.entries[i].key == *key {
                return Some(i);
            }
            i = i + 1;
        }
        None
    }

    /// Tries to take the lock on `object`'s current lock key, without
    /// blocking. A shared request succeeds exactly when no exclusive holder
    /// exists; an exclusive request succeeds exactly when the key has no
    /// holder at all. On failure the table is unchanged.
    pub fn acquire(&mut self, object: &SuiObject, mode: LockMode) -> (r: bool)
        requires
            old(self).wf(),
            mode is Shared && old(self).locks().contains_key(
                lock_key_of(object.id@, object.version),
            ) ==> old(self).locks()[lock_key_of(object.id@, object.version)].shared_count
                < usize::MAX,
        ensures
            final(self).wf(),
            ({
                let k = lock_key_of(object.id@, object.version);
                match mode {
                    LockMode::Shared => {
                        &&& r == (!old(self).locks().contains_key(k) || !old(self).locks()[
                            k].exclusive)
                        &&& r ==> final(self).locks() == old(self).locks().insert(
                            k,
                            LockStateView {
                                shared_count: (if old(self).locks().contains_key(k) {
                                    old(self).locks()[k].shared_count + 1
                                } else {
                                    1
                                }) as usize,
                                exclusive: false,
                            },
                        )
                        &&& !r ==> final(self).locks() == old(self).locks()
                    },
                    LockMode::Exclusive => {
                        &&& r == !old(self).locks().contains_key(k)
                        &&& r ==> final(self).locks() == old(self).locks().insert(
                            k,
                            LockStateView { shared_count: 0, exclusive: true },
                        )
                        &&& !r ==> final(self).locks() == old(self).locks()
                    },
                }
            }),
    {
        let key = object.lock_key();
        let ghost k = key@;
        proof {
            crate::kvmap::lemma_kv_contains(self.pairs(), k);
        }
        match self.find(&key) {
            None => {
                proof {
                    lemma_kv_absent(self.pairs(), k);
                }
                let entry = match mode {
                    LockMode::Shared => LockEntry { key, shared_count: 1, exclusive: false },
                    LockMode::Exclusive => LockEntry { key, shared_count: 0, exclusive: true },
                };
                proof {
                    lemma_kv_push(
                        self.pairs(),
                        k,
                        LockStateView {
                            shared_count: entry.shared_count,
                            exclusive: entry.exclusive,
                        },
                    );
                }
                let ghost before = self.pairs();
                self.entries.push(entry);
                proof {
                    assert(self.pairs() =~= before.push(
                        (
                            k,
                            LockStateView {
                                shared_count: final(self).entries@.last().shared_count,
                                exclusive: final(self).entries@.last().exclusive,
                            },
                        ),
                    ));
                }
                true
            },
            Some(i) => {
                proof {
                    lemma_kv_index(self.pairs(), i as int);
                }
                match mode {
                    LockMode::Shared => {
                        if self.entries[i].exclusive {
                            false
                        } else {
                            let ghost before = self.pairs();
                            let new_count = self.entries[i].shared_count + 1;
                            self.entries[i] = LockEntry {
                                key,
                                shared_count: new_count,
                                exclusive: false,
                            };
                            proof {
                                assert(self.pairs() =~= before.update(
                                    i as int,
                                    (k, LockStateView { shared_count: new_count, exclusive: false }),
                                ));
                                lemma_kv_update(
                                    before,
                                    i as int,
                                    LockStateView { shared_count: new_count, exclusive: false },
                                );
                            }
                            true
                        }
                    },
                    LockMode::Exclusive => {
                        // a well-formed entry always has a holder
                        false
                    },
                }
            },
        }
    }

    /// Releases one holder of `object`'s lock key: a shared release
    /// decrements the count, an exclusive release clears the flag, and an
    /// entry left with no holders disappears. A key the table does not hold
    /// is left alone.
    pub fn release(&mut self, object: &SuiObject, mode: LockMode)
        requires
            old(self).wf(),
        ensures
            final(self).wf(),
            ({
                let k = lock_key_of(object.id@, object.version);
                if !old(self).locks().contains_key(k) {
                    final(self).locks() == old(self).locks()
                } else {
                    let st = old(self).locks()[k];
                    let new_shared = match mode {
                        LockMode::Shared => if st.shared_count > 0 {
                            (st.shared_count - 1) as usize
                        } else {
                            0usize
                        },
                        LockMode::Exclusive => st.shared_count,
                    };
                    let new_exclusive = match mode {
                        LockMode::Shared => st.exclusive,
                        LockMode::Exclusive => false,
                    };
                    if new_shared == 0 && !new_exclusive {
                        final(self).locks() == old(self).locks().remove(k)
                    } else {
                        final(self).locks() == old(self).locks().insert(
                            k,
                            LockStateView { shared_count: new_shared, exclusive: new_exclusive },
                        )
                    }
                }
            }),
    {
        let key = object.lock_key();
        let ghost k = key@;
        proof {
            crate::kvmap::lemma_kv_contains(self.pairs(), k);
        }
        match self.find(&key) {
            None => {
                proof {
                    lemma_kv_absent(self.pairs(), k);
                }
            },
            Some(i) => {
                proof {
                    lemma_kv_index(self.pairs(), i as int);
                }
                let old_count = self.entries[i].shared_count;
                let old_exclusive = self.entries[i].exclusive;
                let new_shared = match mode {
                    LockMode::Shared => if old_count > 0 {
                        old_count - 1
                    } else {
                        0
                    },
                    LockMode::Exclusive => old_count,
                };
                let new_exclusive = match mode {
                    LockMode::Shared => old_exclusive,
                    LockMode::Exclusive => false,
                };
                let ghost before = self.pairs();
                if new_shared == 0 && !new_exclusive {
                    proof {
                        lemma_kv_remove(before, i as int);
                        lemma_kv_remove_unique(before, i as int);
                    }
                    self.entries.remove(i);
                    proof {
                        assert(self.pairs() =~= before.remove(i as int));
                    }
                } else {
                    self.entries[i] = LockEntry {
                        key,
                        shared_count: new_shared,
                        exclusive: new_exclusive,
                    };
                    proof {
                        assert(self.pairs() =~= before.update(
                            i as int,
                            (
                                k,
                                LockStateView {
                                    shared_count: new_shared,
                                    exclusive: new_exclusive,
                                },
                            ),
                        ));
                        lemma_kv_update(
                            before,
                            i as int,
                            LockStateView { shared_count: new_shared, exclusive: new_exclusive },
                        );
                    }
                }
            },
        }
    }
}

/// Mutual exclusion of exclusive locks: of two contenders for one lock key,
/// the first to arrive succeeds, the second fails while the first still
/// holds the key, and succeeds again once the holder releases.
pub proof fn lemma_exclusive_mutual_exclusion(
    before: LockManager,
    after_first: LockManager,
    k: Seq<char>,
)
    requires
        before.wf(),
        !before.locks().contains_key(k),
        after_first.wf(),
        after_first.locks() == before.locks().insert(
            k,
            LockStateView { shared_count: 0, exclusive: true },
        ),
    ensures
        // the first contender's acquisition succeeded
        !before.locks().contains_key(k),
        // a second exclusive acquisition on the held key must fail
        after_first.locks().contains_key(k),
        // once the holder releases, the key is free again
        after_first.locks().remove(k) == before.locks(),
{
    assert(after_first.locks().remove(k) =~= before.locks());
}

} // verus!
