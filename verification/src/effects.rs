//! Transaction effects: the immutable record of what executing one request
//! created, mutated and logged, and the builder that assembles it.

use vstd::prelude::*;

use crate::object::{ObjectView, SuiObject};
use crate::transaction::TransactionDigest;

verus! {

/// The record of one executed transaction, keyed by its digest.
#[derive(Debug, PartialEq)]
pub struct TransactionEffects {
    pub digest: TransactionDigest,
    pub created: Vec<SuiObject>,
    pub mutated: Vec<SuiObject>,
    pub events: Vec<String>,
}

/// The mathematical value of a `TransactionEffects`.
pub struct EffectsView {
    pub digest: Seq<char>,
    pub created: Seq<ObjectView>,
    pub mutated: Seq<ObjectView>,
    pub events: Seq<Seq<char>>,
}

impl View for TransactionEffects {
    type V = EffectsView;

    open spec fn view(&self) -> EffectsView {
        EffectsView {
            digest: self.digest@,
            created: self.created.deep_view(),
            mutated: self.mutated.deep_view(),
            events: self.events.deep_view(),
        }
    }
}

impl TransactionEffects {
    /// An empty record for the digest.
    pub fn new(digest: TransactionDigest) -> (r: Self)
        ensures
            r@ == (EffectsView {
                digest: digest@,
                created: Seq::<ObjectView>::empty(),
                mutated: Seq::<ObjectView>::empty(),
                events: Seq::<Seq<char>>::empty(),
            }),
    {
        let r = TransactionEffects {
            digest,
            created: Vec::new(),
            mutated: Vec::new(),
            events: Vec::new(),
        };
        proof {
            assert(r.created.deep_view() =~= Seq::<ObjectView>::empty());
            assert(r.mutated.deep_view() =~= Seq::<ObjectView>::empty());
            assert(r.events.deep_view() =~= Seq::<Seq<char>>::empty());
        }
        r
    }
}

/// Linear accumulator for one transaction's effects.
pub struct EffectsBuilder {
    effects: TransactionEffects,
}

impl View for EffectsBuilder {
    type V = EffectsView;

    closed spec fn view(&self) -> EffectsView {
        self.effects@
    }
}

impl EffectsBuilder {
    pub fn new(digest: TransactionDigest) -> (r: Self)
        ensures
            r@ == (EffectsView {
                digest: digest@,
                created: Seq::<ObjectView>::empty(),
                mutated: Seq::<ObjectView>::empty(),
                events: Seq::<Seq<char>>::empty(),
            }),
    {
        EffectsBuilder { effects: TransactionEffects::new(digest) }
    }

    /// Appends one created object.
    pub fn record_created(self, object: SuiObject) -> (r: Self)
        ensures
            r@.digest == self@.digest,
            r@.created == self@.created.push(object@),
            r@.mutated == self@.mutated,
            r@.events == self@.events,
    {
        let ghost prev = self@.created;
        let ghost v = object@;
        let mut effects = self.effects;
        effects.created.push(object);
        proof {
            assert(effects.created.deep_view() =~= prev.push(v));
        }
        EffectsBuilder { effects }
    }

    /// Appends one mutated object.
    pub fn record_mutated(self, object: SuiObject) -> (r: Self)
        ensures
            r@.digest == self@.digest,
            r@.created == self@.created,
            r@.mutated == self@.mutated.push(object@),
            r@.events == self@.events,
    {
        let ghost prev = self@.mutated;
        let ghost v = object@;
        let mut effects = self.effects;
        effects.mutated.push(object);
        proof {
            assert(effects.mutated.deep_view() =~= prev.push(v));
        }
        EffectsBuilder { effects }
    }

    /// Appends one emitted log line.
    pub fn record_event(self, event: String) -> (r: Self)
        ensures
            r@.digest == self@.digest,
            r@.created == self@.created,
            r@.mutated == self@.mutated,
            r@.events == self@.events.push(event@),
    {
        let ghost prev = self@.events;
        let ghost v = event@;
        let mut effects = self.effects;
        effects.events.push(event);
        proof {
            assert(effects.events.deep_view() =~= prev.push(v));
        }
        EffectsBuilder { effects }
    }

    /// The assembled record.
    pub fn build(self) -> (r: TransactionEffects)
        ensures
            r@ == self@,
    {
        self.effects
    }
}

} // verus!
