//! Stateless structural validation of an incoming request, run before any
//! lock is taken so that invalid requests never contend for locks.

use vstd::prelude::*;
use vstd::string::StringExecFns;

use crate::messages::ExecutionRequest;
use crate::strutil::{all_space, str_all_space};
use crate::transaction::{TransactionKind, TransactionPayloadView, TransactionKindView};

verus! {

/// Why a request was rejected before execution.
#[derive(Debug, Clone, Copy, PartialEq, Eq, Structural)]
pub enum PreCheckError {
    /// The gas budget is not strictly positive.
    InvalidGasBudget,
    /// A transfer names an empty or whitespace-only recipient.
    MissingRecipient,
    /// A call is missing its target module or function name.
    InvalidCall,
}

/// The description `message` returns for each error.
pub open spec fn precheck_message(e: PreCheckError) -> Seq<char> {
    match e {
        PreCheckError::InvalidGasBudget => "gas budget must be positive"@,
        PreCheckError::MissingRecipient => "transfer recipient missing"@,
        PreCheckError::InvalidCall => "move call is missing target module or function"@,
    }
}

impl PreCheckError {
    /// The human-readable description of the error.
    pub fn message(&self) -> (r: String)
        ensures
            r@ == precheck_message(*self),
    {
        match self {
            PreCheckError::InvalidGasBudget => "gas budget must be positive".to_owned(),
            PreCheckError::MissingRecipient => "transfer recipient missing".to_owned(),
            PreCheckError::InvalidCall => "move call is missing target module or function".to_owned(),
        }
    }
}

/// What the pre-check concluded about a structurally valid request.
#[derive(Debug, Clone, Copy, PartialEq, Eq, Structural)]
pub struct PreCheckReport {
    pub is_move_call: bool,
    pub requires_shared_lock: bool,
}

#[derive(Debug, Clone, Copy)]
pub struct PreCheckPipeline;

impl Default for PreCheckPipeline {
    fn default() -> (r: Self)
        ensures
            r is PreCheckPipeline,
    {
        PreCheckPipeline
    }
}

/// The full pre-check rule: a positive gas budget, then per-kind structure.
/// Transfers need a recipient that is not whitespace-only; calls need both a
/// module and a function name, and conservatively require a shared-object
/// lock.
pub open spec fn precheck_result(payload: TransactionPayloadView) -> Result<
    PreCheckReport,
    PreCheckError,
> {
    if payload.gas_budget == 0 {
        Err(PreCheckError::InvalidGasBudget)
    } else {
        match payload.kind {
            TransactionKindView::Transfer { recipient, .. } => {
                if all_space(recipient) {
                    Err(PreCheckError::MissingRecipient)
                } else {
                    Ok(PreCheckReport { is_move_call: false, requires_shared_lock: false })
                }
            },
            TransactionKindView::Call { module, function, .. } => {
                if module.len() == 0 || function.len() == 0 {
                    Err(PreCheckError::InvalidCall)
                } else {
                    Ok(PreCheckReport { is_move_call: true, requires_shared_lock: true })
                }
            },
        }
    }
}

impl PreCheckPipeline {
    /// Classifies the request or rejects it, exactly as `precheck_result`
    /// says; reads nothing but the payload and writes nothing.
    pub fn run(&self, request: &ExecutionRequest) -> (r: Result<PreCheckReport, PreCheckError>)
        ensures
            r == precheck_result(request@.tx.payload),
    {
        let payload = &request.tx.payload;

        if payload.gas_budget == 0 {
            return Err(PreCheckError::InvalidGasBudget);
        }

        match &payload.kind {
            TransactionKind::Transfer { recipient, .. } => {
                if str_all_space(recipient.as_str()) {
                    Err(PreCheckError::MissingRecipient)
                } else {
                    Ok(PreCheckReport { is_move_call: false, requires_shared_lock: false })
                }
            },
            TransactionKind::Call { module, function, .. } => {
                if module.as_str().is_empty() || function.as_str().is_empty() {
                    Err(PreCheckError::InvalidCall)
                } else {
                    Ok(PreCheckReport { is_move_call: true, requires_shared_lock: true })
                }
            },
        }
    }
}

} // verus!
