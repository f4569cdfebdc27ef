use sui_validator::messages::ExecutionRequest;
use sui_validator::object::ObjectID;
use sui_validator::precheck::{PreCheckError, PreCheckPipeline};
use sui_validator::transaction::{
    SignedTransaction, TransactionDigest, TransactionKind, TransactionPayload,
};

fn request_with(kind: TransactionKind, gas_budget: u64) -> ExecutionRequest {
    let payload = TransactionPayload { kind, gas_budget };
    let tx = SignedTransaction::new("alice".to_owned(), payload);
    ExecutionRequest { tx, digest: TransactionDigest("tx-1".to_owned()) }
}

fn transfer(recipient: &str) -> TransactionKind {
    TransactionKind::Transfer {
        object: ObjectID::new("coin-1".to_owned()),
        recipient: recipient.to_owned(),
    }
}

fn call(module: &str, function: &str) -> TransactionKind {
    TransactionKind::Call {
        package: ObjectID::new("pkg".to_owned()),
        module: module.to_owned(),
        function: function.to_owned(),
        arguments: Vec::new(),
    }
}

#[test]
fn zero_gas_budget_is_rejected() {
    let pipeline = PreCheckPipeline;
    let r = pipeline.run(&request_with(transfer("bob"), 0));
    assert!(matches!(r, Err(PreCheckError::InvalidGasBudget)));
    let r = pipeline.run(&request_with(call("coin", "mint"), 0));
    assert!(matches!(r, Err(PreCheckError::InvalidGasBudget)));
}

#[test]
fn empty_recipient_is_rejected() {
    let pipeline = PreCheckPipeline;
    let r = pipeline.run(&request_with(transfer(""), 1000));
    assert!(matches!(r, Err(PreCheckError::MissingRecipient)));
}

#[test]
fn whitespace_recipient_is_rejected() {
    let pipeline = PreCheckPipeline;
    let r = pipeline.run(&request_with(transfer(" \t\n\u{a0} "), 1000));
    assert!(matches!(r, Err(PreCheckError::MissingRecipient)));
}

#[test]
fn valid_transfer_needs_no_lock() {
    let pipeline = PreCheckPipeline;
    let report = pipeline.run(&request_with(transfer("bob"), 1000)).unwrap();
    assert!(!report.is_move_call);
    assert!(!report.requires_shared_lock);
}

#[test]
fn empty_module_or_function_is_rejected() {
    let pipeline = PreCheckPipeline;
    let r = pipeline.run(&request_with(call("", "mint"), 1000));
    assert!(matches!(r, Err(PreCheckError::InvalidCall)));
    let r = pipeline.run(&request_with(call("coin", ""), 1000));
    assert!(matches!(r, Err(PreCheckError::InvalidCall)));
}

#[test]
fn valid_call_requires_shared_lock() {
    let pipeline = PreCheckPipeline;
    let report = pipeline.run(&request_with(call("coin", "mint"), 1000)).unwrap();
    assert!(report.is_move_call);
    assert!(report.requires_shared_lock);
}

#[test]
fn precheck_error_messages() {
    assert_eq!(
        PreCheckError::InvalidGasBudget.message().as_str(),
        "gas budget must be positive"
    );
    assert_eq!(PreCheckError::MissingRecipient.message().as_str(), "transfer recipient missing");
    assert_eq!(
        PreCheckError::InvalidCall.message().as_str(),
        "move call is missing target module or function"
    );
}
