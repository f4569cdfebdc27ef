use sui_validator::codec::decode_effects;
use sui_validator::messages::ExecutionRequest;
use sui_validator::network::{get_object_response, submit_response};
use sui_validator::object::{ObjectData, ObjectID, Owner, SuiObject};
use sui_validator::precheck::PreCheckError;
use sui_validator::storage::{InMemoryCheckpointStore, InMemoryEffectsStore, InMemoryObjectStore};
use sui_validator::transaction::{
    mock_signed_transfer, SignedTransaction, TransactionDigest, TransactionKind,
    TransactionPayload,
};
use sui_validator::validator::{ValidatorError, ValidatorNode};

fn fresh_node() -> ValidatorNode {
    ValidatorNode::new(
        "validator-1".to_owned(),
        InMemoryObjectStore::new(),
        InMemoryEffectsStore::new(),
        InMemoryCheckpointStore::new(),
    )
}

fn seeded_node() -> ValidatorNode {
    let mut objects = InMemoryObjectStore::new();
    objects.put_object(SuiObject::new(
        ObjectID::new("coin-alice-1".to_owned()),
        Owner::Address("alice".to_owned()),
        ObjectData::Coin { balance: 1000 },
    ));
    ValidatorNode::new(
        "validator-1".to_owned(),
        objects,
        InMemoryEffectsStore::new(),
        InMemoryCheckpointStore::new(),
    )
}

fn request(kind: TransactionKind, gas_budget: u64, digest: &str) -> ExecutionRequest {
    let payload = TransactionPayload { kind, gas_budget };
    let tx = SignedTransaction::new("alice".to_owned(), payload);
    ExecutionRequest { tx, digest: TransactionDigest(digest.to_owned()) }
}

fn transfer(object: &str, recipient: &str, gas: u64, digest: &str) -> ExecutionRequest {
    request(
        TransactionKind::Transfer {
            object: ObjectID::new(object.to_owned()),
            recipient: recipient.to_owned(),
        },
        gas,
        digest,
    )
}

fn call(module: &str, function: &str, gas: u64, digest: &str) -> ExecutionRequest {
    request(
        TransactionKind::Call {
            package: ObjectID::new("pkg".to_owned()),
            module: module.to_owned(),
            function: function.to_owned(),
            arguments: Vec::new(),
        },
        gas,
        digest,
    )
}

#[test]
fn transfer_scenario_produces_one_object_and_checkpoint_one() {
    let mut node = seeded_node();
    let effects = node
        .handle_transaction(transfer("coin-alice-1", "bob", 1000, "tx-1"))
        .expect("the transfer must be accepted");
    assert_eq!(effects.created.len(), 1);
    let touched = &effects.created[0];
    assert_eq!(touched.version, 2);
    assert!(matches!(&touched.owner, Owner::Address(a) if a == "bob"));
    let checkpoint = node.latest_checkpoint().unwrap();
    assert_eq!(checkpoint.sequence_number, 1);
    assert_eq!(checkpoint.transaction_count, 1);
    assert_eq!(checkpoint.root_digest.as_str(), "tx-1");
    // the object store saw the new version
    let stored = node.get_object("coin-alice-1").unwrap();
    assert_eq!(stored.version, 2);
    assert!(matches!(&stored.owner, Owner::Address(a) if a == "bob"));
}

#[test]
fn mint_scenario_creates_a_coin_and_logs_the_call() {
    let mut node = fresh_node();
    let effects = node
        .handle_transaction(call("coin", "mint", 5000, "tx-mint"))
        .expect("the call must be accepted");
    assert_eq!(effects.created.len(), 1);
    let coin = &effects.created[0];
    assert!(matches!(&coin.owner, Owner::Address(a) if a == "mint-address"));
    assert!(matches!(coin.data, ObjectData::Coin { balance: 1000 }));
    assert!(effects.events.iter().any(|e| e.as_str() == "Move call: coin::mint"));
}

#[test]
fn unrecognized_call_succeeds_with_a_generic_log() {
    let mut node = fresh_node();
    let effects = node
        .handle_transaction(call("unknown", "thing", 5000, "tx-u"))
        .expect("execution never fails outright");
    assert_eq!(effects.created.len(), 0);
    assert!(effects
        .events
        .iter()
        .any(|e| e.as_str().contains("Executed unknown::thing")));
}

#[test]
fn zero_gas_is_rejected_without_writes() {
    let mut node = seeded_node();
    let r = node.handle_transaction(transfer("coin-alice-1", "bob", 0, "tx-bad"));
    assert!(matches!(r, Err(ValidatorError::PreCheck(PreCheckError::InvalidGasBudget))));
    // no store writes happened
    assert_eq!(node.get_object("coin-alice-1").unwrap().version, 1);
    assert!(node.latest_checkpoint().is_none());
    assert!(node.get_effects(&TransactionDigest("tx-bad".to_owned())).is_none());
}

#[test]
fn whitespace_recipient_is_rejected_without_writes() {
    let mut node = seeded_node();
    let r = node.handle_transaction(transfer("coin-alice-1", "   ", 1000, "tx-bad"));
    assert!(matches!(r, Err(ValidatorError::PreCheck(PreCheckError::MissingRecipient))));
    assert_eq!(node.get_object("coin-alice-1").unwrap().version, 1);
    assert!(node.latest_checkpoint().is_none());
}

#[test]
fn invalid_call_is_rejected() {
    let mut node = fresh_node();
    let r = node.handle_transaction(call("", "mint", 1000, "tx-bad"));
    assert!(matches!(r, Err(ValidatorError::PreCheck(PreCheckError::InvalidCall))));
}

#[test]
fn sequence_numbers_have_no_gaps_or_duplicates() {
    let mut node = seeded_node();
    node.handle_transaction(transfer("coin-alice-1", "bob", 1000, "tx-1")).unwrap();
    node.handle_transaction(call("coin", "mint", 5000, "tx-2")).unwrap();
    node.handle_transaction(call("foo", "bar", 5000, "tx-3")).unwrap();
    let latest = node.latest_checkpoint().unwrap();
    assert_eq!(latest.sequence_number, 3);
    for seq in 1..=3u64 {
        assert!(node.get_checkpoint(seq).is_some());
    }
    assert!(node.get_checkpoint(4).is_none());
}

#[test]
fn persisted_effects_decode_to_the_built_value() {
    let mut node = seeded_node();
    let effects = node
        .handle_transaction(transfer("coin-alice-1", "bob", 1000, "tx-rt"))
        .unwrap();
    let text = node.get_effects(&TransactionDigest("tx-rt".to_owned())).unwrap();
    let decoded = decode_effects(text.as_str()).expect("persisted effects must decode");
    assert_eq!(decoded, effects);
}

#[test]
fn mock_transfer_helper_builds_a_transfer() {
    let tx = mock_signed_transfer("alice", "bob", "coin-1");
    assert_eq!(tx.signer.as_str(), "alice");
    assert_eq!(tx.payload.gas_budget, 1000);
    assert!(matches!(
        &tx.payload.kind,
        TransactionKind::Transfer { object, recipient }
            if object.0 == "coin-1" && recipient == "bob"
    ));
}

#[test]
fn responses_report_the_outcome() {
    let mut node = fresh_node();
    let ok = node.handle_transaction(call("coin", "mint", 5000, "tx-ok"));
    let response = submit_response(&ok);
    assert!(response.accepted);
    assert_eq!(response.message.as_str(), "Transaction processed successfully");

    let err = node.handle_transaction(call("", "", 5000, "tx-no"));
    let response = submit_response(&err);
    assert!(!response.accepted);
    assert_eq!(
        response.message.as_str(),
        "Transaction failed: pre-check failed: move call is missing target module or function"
    );

    let obj = SuiObject::new(
        ObjectID::new("o".to_owned()),
        Owner::Shared,
        ObjectData::Coin { balance: 1 },
    );
    let found = get_object_response(Some(&obj));
    assert!(found.found);
    assert!(found.object.is_some());
    let missing = get_object_response(None);
    assert!(!missing.found);
    assert!(missing.object.is_none());
}

#[test]
fn validator_reports_its_name() {
    let node = fresh_node();
    assert_eq!(node.name(), "validator-1");
}
