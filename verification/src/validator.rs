//! The validator orchestrator: the state machine that runs each request
//! through pre-check, locking, execution, effects persistence and
//! checkpoint sequencing, and owns all of that state.

use vstd::prelude::*;

use crate::checkpoint::CheckpointAggregator;
use crate::codec::{enc_checkpoint, enc_effects, encode_checkpoint, encode_effects};
use crate::effects::{EffectsBuilder, EffectsView, TransactionEffects};
use crate::locking::{LockManager, LockMode, LockStateView};
use crate::messages::{CheckpointSummary, CheckpointSummaryView, ExecutionRequest, ExecutionRequestView};
use crate::object::{lock_key_of, ObjectData, ObjectID, ObjectView, Owner, SuiObject};
use crate::precheck::{precheck_result, PreCheckError, PreCheckPipeline};
use crate::storage::{InMemoryCheckpointStore, InMemoryEffectsStore, InMemoryObjectStore};
use crate::transaction::TransactionKindView;
use crate::vm::{
    call_args_log, call_header_log, init_step, interp, parsed_call, touched_all_match,
    transfer_spec, MoveVMExecutor,
};
use crate::strutil::join_semi;

verus! {

/// Why the pipeline rejected a request before execution.
#[derive(Debug, Clone, Copy, PartialEq, Eq, Structural)]
pub enum ValidatorError {
    /// Structural validation failed; no side effects were performed.
    PreCheck(PreCheckError),
    /// The designated shared-object lock was already held; no partial state
    /// was written.
    LockContention,
}

pub open spec fn validator_error_message(e: ValidatorError) -> Seq<char> {
    match e {
        ValidatorError::PreCheck(pe) => "pre-check failed: "@ + crate::precheck::precheck_message(
            pe,
        ),
        ValidatorError::LockContention => "unable to acquire lock for shared object"@,
    }
}

impl ValidatorError {
    /// The human-readable description of the rejection.
    pub fn message(&self) -> (r: String)
        ensures
            r@ == validator_error_message(*self),
    {
        match self {
            ValidatorError::PreCheck(pe) => {
                let mut m = String::new();
                m.append("pre-check failed: ");
                let tail = pe.message();
                m.append(tail.as_str());
                proof {
                    assert(m@ =~= validator_error_message(*self));
                }
                m
            },
            ValidatorError::LockContention => "unable to acquire lock for shared object".to_owned(),
        }
    }
}

/// The lock key of the designated shared object every call conservatively
/// locks.
pub open spec fn lock_target_key() -> Seq<char> {
    lock_key_of("object-to-lock"@, 1)
}

/// The checkpoint summary the pipeline writes for one transaction.
pub open spec fn new_summary(seq: u64, digest: Seq<char>) -> CheckpointSummaryView {
    CheckpointSummaryView { sequence_number: seq, transaction_count: 1, root_digest: digest }
}

/// The store after writing each of `objs` under its identity, in order.
pub open spec fn insert_all(m: Map<Seq<char>, ObjectView>, objs: Seq<ObjectView>) -> Map<
    Seq<char>,
    ObjectView,
>
    decreases objs.len(),
{
    if objs.len() == 0 {
        m
    } else {
        insert_all(m.insert(objs[0].id, objs[0]), objs.subrange(1, objs.len() as int))
    }
}

/// The single-node validator: it owns the lock table, the VM and its object
/// store, the sequence counter, the checkpoint log and the two persistence
/// backends.
pub struct ValidatorNode {
    name: String,
    precheck: PreCheckPipeline,
    lock_manager: LockManager,
    vm: MoveVMExecutor,
    checkpoints: CheckpointAggregator,
    sequence: u64,
    effects_store: InMemoryEffectsStore,
    checkpoint_store: InMemoryCheckpointStore,
}

impl ValidatorNode {
    pub closed spec fn objects(&self) -> Map<Seq<char>, ObjectView> {
        self.vm.store_model()->Some_0
    }

    pub closed spec fn locks(&self) -> Map<Seq<char>, LockStateView> {
        self.lock_manager.locks()
    }

    pub closed spec fn summaries(&self) -> Seq<CheckpointSummaryView> {
        self.checkpoints.summaries()
    }

    pub closed spec fn seq_no(&self) -> u64 {
        self.sequence
    }

    pub closed spec fn effects_map(&self) -> Map<Seq<char>, Seq<char>> {
        self.effects_store.effects()
    }

    pub closed spec fn checkpoint_map(&self) -> Map<u64, Seq<char>> {
        self.checkpoint_store.checkpoints()
    }

    pub closed spec fn latest_stored(&self) -> Option<u64> {
        self.checkpoint_store.latest_seq()
    }

    pub closed spec fn name_view(&self) -> Seq<char> {
        self.name@
    }

    /// The orchestrator's invariant: every component is well formed, the VM
    /// has a store, and the checkpoint log holds exactly the sequence
    /// numbers 1 through `seq_no`, in order, one transaction each.
    pub closed spec fn wf(&self) -> bool {
        &&& self.vm.wf()
        &&& self.vm.store_model() is Some
        &&& self.lock_manager.wf()
        &&& self.effects_store.wf()
        &&& self.checkpoint_store.wf()
        &&& self.summaries().len() == self.seq_no()
        &&& forall|i: int|
            0 <= i < self.summaries().len() ==> (#[trigger] self.summaries()[i]).sequence_number
                == i + 1
    }

    /// The invariant as a caller sees it.
    pub proof fn lemma_wf_sequence(&self)
        requires
            self.wf(),
        ensures
            self.summaries().len() == self.seq_no(),
            forall|i: int|
                0 <= i < self.summaries().len() ==> (#[trigger] self.summaries()[
                    i]).sequence_number == i + 1,
    {
    }

    /// A validator over the given backends, starting at sequence 0 with an
    /// empty checkpoint log and an empty lock table.
    pub fn new(
        name: String,
        object_store: InMemoryObjectStore,
        effects_store: InMemoryEffectsStore,
        checkpoint_store: InMemoryCheckpointStore,
    ) -> (r: Self)
        requires
            object_store.wf(),
            effects_store.wf(),
            checkpoint_store.wf(),
        ensures
            r.wf(),
            r.objects() == object_store.objects(),
            r.locks() == Map::<Seq<char>, LockStateView>::empty(),
            r.summaries() == Seq::<CheckpointSummaryView>::empty(),
            r.seq_no() == 0,
            r.effects_map() == effects_store.effects(),
            r.checkpoint_map() == checkpoint_store.checkpoints(),
            r.latest_stored() == checkpoint_store.latest_seq(),
            r.name_view() == name@,
    {
        ValidatorNode {
            name,
            precheck: PreCheckPipeline,
            lock_manager: LockManager::new(),
            vm: MoveVMExecutor::with_object_store(object_store),
            checkpoints: CheckpointAggregator::new(),
            sequence: 0,
            effects_store,
            checkpoint_store,
        }
    }

    /// The validator's name.
    pub fn name(&self) -> (r: &str)
        ensures
            r@ == self.name_view(),
    {
        self.name.as_str()
    }

    /// A copy of the object stored under `id`, if any.
    pub fn get_object(&self, id: &str) -> (r: Option<SuiObject>)
        requires
            self.wf(),
        ensures
            match r {
                Some(o) => self.objects().contains_key(id@) && o@ == self.objects()[id@],
                None => !self.objects().contains_key(id@),
            },
    {
        self.vm.get_object(id)
    }

    /// The serialized effects persisted under the digest, if any.
    pub fn get_effects(&self, digest: &crate::transaction::TransactionDigest) -> (r: Option<
        String,
    >)
        requires
            self.wf(),
        ensures
            match r {
                Some(text) => self.effects_map().contains_key(digest@) && text@
                    == self.effects_map()[digest@],
                None => !self.effects_map().contains_key(digest@),
            },
    {
        self.effects_store.get_effects(digest)
    }

    /// The serialized checkpoint persisted under the sequence number, if
    /// any.
    pub fn get_checkpoint(&self, sequence: u64) -> (r: Option<String>)
        requires
            self.wf(),
        ensures
            match r {
                Some(text) => self.checkpoint_map().contains_key(sequence) && text@
                    == self.checkpoint_map()[sequence],
                None => !self.checkpoint_map().contains_key(sequence),
            },
    {
        self.checkpoint_store.get_checkpoint(sequence)
    }

    /// The most recent checkpoint summary, if any transaction has been
    /// sequenced.
    pub fn latest_checkpoint(&self) -> (r: Option<CheckpointSummary>)
        ensures
            match r {
                Some(s) => self.summaries().len() > 0 && s@ == self.summaries().last(),
                None => self.summaries().len() == 0,
            },
    {
        match self.checkpoints.latest() {
            Some(s) => Some(s.clone()),
            None => None,
        }
    }
}

/// All observable validator state is the same; the error paths of the
/// pipeline promise this.
pub open spec fn unchanged(o: ValidatorNode, n: ValidatorNode) -> bool {
    &&& n.objects() == o.objects()
    &&& n.locks() == o.locks()
    &&& n.summaries() == o.summaries()
    &&& n.seq_no() == o.seq_no()
    &&& n.effects_map() == o.effects_map()
    &&& n.checkpoint_map() == o.checkpoint_map()
    &&& n.latest_stored() == o.latest_stored()
    &&& n.name_view() == o.name_view()
}

/// The successful pipeline outcome: effects built from execution, persisted
/// under the digest; the sequence advanced by one; the new checkpoint
/// recorded and persisted; the lock table as before.
pub open spec fn pipeline_success(
    o: ValidatorNode,
    n: ValidatorNode,
    req: ExecutionRequestView,
    e: EffectsView,
) -> bool {
    let s = (o.seq_no() + 1) as u64;
    &&& e.digest == req.digest
    &&& e.mutated == Seq::<ObjectView>::empty()
    &&& n.seq_no() == s
    &&& n.summaries() == o.summaries().push(new_summary(s, req.digest))
    &&& n.checkpoint_map() == o.checkpoint_map().insert(
        s,
        enc_checkpoint(new_summary(s, req.digest)),
    )
    &&& n.latest_stored() == Some(s)
    &&& n.effects_map() == o.effects_map().insert(req.digest, enc_effects(e))
    &&& n.locks() == o.locks()
    &&& n.name_view() == o.name_view()
    &&& match req.tx.payload.kind {
        TransactionKindView::Transfer { object, recipient } => {
            let outcome = transfer_spec(Some(o.objects()), object, recipient);
            &&& e.created == outcome.1.touched_objects
            &&& e.events == outcome.1.logs
            &&& n.objects() == insert_all(outcome.0->Some_0, e.created)
        },
        TransactionKindView::Call { module, function, arguments, .. } => {
            let st = interp(parsed_call(module, function, arguments), init_step(Some(o.objects())));
            &&& touched_all_match(st.touched, e.created)
            &&& e.events == seq![
                call_header_log(module, function),
                call_args_log(arguments),
                join_semi(st.logs),
            ]
            &&& n.objects() == insert_all(st.store->Some_0, e.created)
        },
    }
}

impl ValidatorNode {
    /// Runs one request through the whole pipeline. A request the pre-check
    /// rejects, or whose shared-object lock is held, is rejected with no
    /// state change; any other request executes, has its effects persisted
    /// under its digest, and is assigned the next checkpoint sequence
    /// number.
    #[verifier::rlimit(100)]
    pub fn handle_transaction(&mut self, request: ExecutionRequest) -> (r: Result<
        TransactionEffects,
        ValidatorError,
    >)
        requires
            old(self).wf(),
            old(self).seq_no() < u64::MAX,
        ensures
            final(self).wf(),
            match precheck_result(request@.tx.payload) {
                Result::Err(pe) => r == Result::<TransactionEffects, ValidatorError>::Err(
                    ValidatorError::PreCheck(pe),
                ) && unchanged(*old(self), *final(self)),
                Result::Ok(report) => {
                    if report.requires_shared_lock && old(self).locks().contains_key(
                        lock_target_key(),
                    ) {
                        r == Result::<TransactionEffects, ValidatorError>::Err(
                            ValidatorError::LockContention,
                        ) && unchanged(*old(self), *final(self))
                    } else {
                        match r {
                            Result::Ok(e) => pipeline_success(
                                *old(self),
                                *final(self),
                                request@,
                                e@,
                            ),
                            Result::Err(_) => false,
                        }
                    }
                },
            },
    {
        let report = match self.precheck.run(&request) {
            Ok(rep) => rep,
            Err(e) => {
                return Err(ValidatorError::PreCheck(e));
            },
        };

        let simulated_object = SuiObject::new(
            ObjectID::new("object-to-lock".to_owned()),
            Owner::Shared,
            ObjectData::Coin { balance: 0 },
        );
        proof {
            assert(lock_key_of(simulated_object.id@, simulated_object.version)
                == lock_target_key());
        }

        if report.requires_shared_lock {
            if !self.lock_manager.acquire(&simulated_object, LockMode::Exclusive) {
                return Err(ValidatorError::LockContention);
            }
        }

        let exec_result = self.vm.execute(&request);
        let ghost touched_model = exec_result.touched_objects.deep_view();
        proof {
            match request@.tx.payload.kind {
                TransactionKindView::Call { module, function, arguments, .. } => {
                    crate::vm::lemma_interp_store_some(
                        parsed_call(module, function, arguments),
                        init_step(old(self).vm.store_model()),
                    );
                },
                _ => {},
            }
            assert(self.vm.store_model() is Some);
            assert(touched_model.subrange(0, touched_model.len() as int) =~= touched_model);
        }
        let ghost store_after_exec = self.vm.store_model()->Some_0;
        let ghost pre_put = *self;

        let mut idx: usize = 0;
        while idx < exec_result.touched_objects.len()
            invariant
                0 <= idx <= exec_result.touched_objects@.len(),
                touched_model == exec_result.touched_objects.deep_view(),
                touched_model.len() == exec_result.touched_objects@.len(),
                self.vm.wf(),
                self.vm.store_model() is Some,
                self.name == pre_put.name,
                self.lock_manager == pre_put.lock_manager,
                self.checkpoints == pre_put.checkpoints,
                self.sequence == pre_put.sequence,
                self.effects_store == pre_put.effects_store,
                self.checkpoint_store == pre_put.checkpoint_store,
                insert_all(store_after_exec, touched_model) == insert_all(
                    self.vm.store_model()->Some_0,
                    touched_model.subrange(idx as int, touched_model.len() as int),
                ),
            decreases exec_result.touched_objects@.len() - idx,
        {
            let ghost rest = touched_model.subrange(idx as int, touched_model.len() as int);
            proof {
                assert(rest[0] == touched_model[idx as int]);
                assert(rest.subrange(1, rest.len() as int) =~= touched_model.subrange(
                    idx as int + 1,
                    touched_model.len() as int,
                ));
            }
            self.vm.put_object(exec_result.touched_objects[idx].clone());
            idx = idx + 1;
        }
        proof {
            assert(touched_model.subrange(
                touched_model.len() as int,
                touched_model.len() as int,
            ).len() == 0);
        }

        let mut builder = EffectsBuilder::new(request.digest.clone());
        let mut i: usize = 0;
        while i < exec_result.touched_objects.len()
            invariant
                0 <= i <= exec_result.touched_objects@.len(),
                touched_model == exec_result.touched_objects.deep_view(),
                touched_model.len() == exec_result.touched_objects@.len(),
                builder@.digest == request@.digest,
                builder@.created =~= touched_model.subrange(0, i as int),
                builder@.mutated == Seq::<ObjectView>::empty(),
                builder@.events == Seq::<Seq<char>>::empty(),
            decreases exec_result.touched_objects@.len() - i,
        {
            builder = builder.record_created(exec_result.touched_objects[i].clone());
            proof {
                assert(builder@.created =~= touched_model.subrange(0, i as int + 1));
            }
            i = i + 1;
        }
        let ghost logs_model = exec_result.logs.deep_view();
        let mut i: usize = 0;
        while i < exec_result.logs.len()
            invariant
                0 <= i <= exec_result.logs@.len(),
                touched_model == exec_result.touched_objects.deep_view(),
                logs_model == exec_result.logs.deep_view(),
                logs_model.len() == exec_result.logs@.len(),
                builder@.digest == request@.digest,
                builder@.created =~= touched_model,
                builder@.mutated == Seq::<ObjectView>::empty(),
                builder@.events =~= logs_model.subrange(0, i as int),
            decreases exec_result.logs@.len() - i,
        {
            builder = builder.record_event(exec_result.logs[i].clone());
            proof {
                assert(builder@.events =~= logs_model.subrange(0, i as int + 1));
            }
            i = i + 1;
        }
        proof {
            assert(touched_model.subrange(0, touched_model.len() as int) =~= touched_model);
            assert(logs_model.subrange(0, logs_model.len() as int) =~= logs_model);
        }
        let effects = builder.build();

        let effects_text = encode_effects(&effects);
        self.effects_store.save_effects(&request.digest, effects_text.as_str());

        self.sequence = self.sequence + 1;
        let current_seq = self.sequence;

        let checkpoint = CheckpointSummary {
            sequence_number: current_seq,
            transaction_count: 1,
            root_digest: request.digest.0.clone(),
        };
        self.checkpoints.record(checkpoint.clone());

        let checkpoint_text = encode_checkpoint(&checkpoint);
        self.checkpoint_store.save_checkpoint(current_seq, checkpoint_text.as_str());

        if report.requires_shared_lock {
            self.lock_manager.release(&simulated_object, LockMode::Exclusive);
            proof {
                assert(self.lock_manager.locks() =~= old(self).lock_manager.locks());
            }
        }

        proof {
            assert(effects@.events =~= logs_model);
        }
        Ok(effects)
    }
}

/// The sequence numbers recorded across the pipeline's successful
/// transactions are exactly 1 through N: in particular they have no
/// duplicates and no gaps, however the submissions were interleaved.
pub proof fn lemma_checkpoint_numbers_complete(v: ValidatorNode)
    requires
        v.wf(),
    ensures
        forall|i: int, j: int|
            0 <= i < j < v.summaries().len() ==> (#[trigger] v.summaries()[i]).sequence_number != (
            #[trigger] v.summaries()[j]).sequence_number,
        forall|i: int|
            0 <= i < v.summaries().len() ==> 1 <= (#[trigger] v.summaries()[i]).sequence_number
                <= v.summaries().len(),
{
    v.lemma_wf_sequence();
}

/// No gaps: every number from 1 through N is recorded, at position k - 1.
pub proof fn lemma_checkpoint_number_present(v: ValidatorNode, k: int)
    requires
        v.wf(),
        1 <= k <= v.summaries().len(),
    ensures
        v.summaries()[k - 1].sequence_number == k,
{
    v.lemma_wf_sequence();
}

} // verus!
