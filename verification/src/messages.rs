//! Messages exchanged around the pipeline: an execution request pairing a
//! transaction with its digest, consensus envelopes, and checkpoint
//! summaries.

use vstd::prelude::*;

use crate::transaction::{SignedTransaction, SignedTransactionView, TransactionDigest};

verus! {

/// A transaction paired with the digest that keys its effects.
#[derive(Debug)]
pub struct ExecutionRequest {
    pub tx: SignedTransaction,
    pub digest: TransactionDigest,
}

pub struct ExecutionRequestView {
    pub tx: SignedTransactionView,
    pub digest: Seq<char>,
}

impl View for ExecutionRequest {
    type V = ExecutionRequestView;

    open spec fn view(&self) -> ExecutionRequestView {
        ExecutionRequestView { tx: self.tx@, digest: self.digest@ }
    }
}

impl Clone for ExecutionRequest {
    fn clone(&self) -> (r: Self)
        ensures
            r@ == self@,
    {
        ExecutionRequest { tx: self.tx.clone(), digest: self.digest.clone() }
    }
}

/// Envelopes a consensus layer would carry; this single-node design only
/// ever submits.
#[derive(Debug)]
pub enum ConsensusMessage {
    SubmitTransaction(ExecutionRequest),
    Vote { digest: TransactionDigest, validator: String },
    Certified { digest: TransactionDigest },
}

/// A sequence-numbered summary covering executed transactions.
#[derive(Debug, PartialEq)]
pub struct CheckpointSummary {
    pub sequence_number: u64,
    pub transaction_count: usize,
    pub root_digest: String,
}

pub struct CheckpointSummaryView {
    pub sequence_number: u64,
    pub transaction_count: usize,
    pub root_digest: Seq<char>,
}

impl View for CheckpointSummary {
    type V = CheckpointSummaryView;

    open spec fn view(&self) -> CheckpointSummaryView {
        CheckpointSummaryView {
            sequence_number: self.sequence_number,
            transaction_count: self.transaction_count,
            root_digest: self.root_digest@,
        }
    }
}

impl Clone for CheckpointSummary {
    fn clone(&self) -> (r: Self)
        ensures
            r@ == self@,
    {
        CheckpointSummary {
            sequence_number: self.sequence_number,
            transaction_count: self.transaction_count,
            root_digest: self.root_digest.clone(),
        }
    }
}

} // verus!
