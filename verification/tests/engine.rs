use sui_validator::messages::ExecutionRequest;
use sui_validator::object::{ObjectData, ObjectID, Owner, SuiObject};
use sui_validator::storage::InMemoryObjectStore;
use sui_validator::transaction::{
    SignedTransaction, TransactionDigest, TransactionKind, TransactionPayload,
};
use sui_validator::vm::MoveVMExecutor;

fn request_with(kind: TransactionKind, gas_budget: u64) -> ExecutionRequest {
    let payload = TransactionPayload { kind, gas_budget };
    let tx = SignedTransaction::new("alice".to_owned(), payload);
    ExecutionRequest { tx, digest: TransactionDigest("tx-1".to_owned()) }
}

fn transfer_request(object: &str, recipient: &str) -> ExecutionRequest {
    request_with(
        TransactionKind::Transfer {
            object: ObjectID::new(object.to_owned()),
            recipient: recipient.to_owned(),
        },
        1000,
    )
}

fn call_request(module: &str, function: &str, arguments: Vec<String>) -> ExecutionRequest {
    request_with(
        TransactionKind::Call {
            package: ObjectID::new("pkg".to_owned()),
            module: module.to_owned(),
            function: function.to_owned(),
            arguments,
        },
        5000,
    )
}

#[test]
fn transfer_against_store_bumps_version_and_reassigns() {
    let mut store = InMemoryObjectStore::new();
    store.put_object(SuiObject::new(
        ObjectID::new("coin-alice-1".to_owned()),
        Owner::Address("alice".to_owned()),
        ObjectData::Coin { balance: 1000 },
    ));
    let mut vm = MoveVMExecutor::with_object_store(store);
    let result = vm.execute(&transfer_request("coin-alice-1", "bob"));
    assert_eq!(result.gas_used, 500);
    assert_eq!(result.touched_objects.len(), 1);
    let touched = &result.touched_objects[0];
    assert_eq!(touched.version, 2);
    assert!(matches!(&touched.owner, Owner::Address(a) if a == "bob"));
    assert_eq!(result.logs.len(), 1);
    assert_eq!(result.logs[0].as_str(), "Transfer executed: coin-alice-1 -> bob");
    // the store saw the write
    let stored = vm.get_object("coin-alice-1").unwrap();
    assert_eq!(stored.version, 2);
}

#[test]
fn transfer_of_missing_object_synthesizes_a_stand_in() {
    let store = InMemoryObjectStore::new();
    let mut vm = MoveVMExecutor::with_object_store(store);
    let result = vm.execute(&transfer_request("nowhere", "bob"));
    assert_eq!(result.gas_used, 500);
    assert_eq!(result.touched_objects.len(), 1);
    let synth = &result.touched_objects[0];
    assert_eq!(synth.id.0.as_str(), "nowhere-transferred");
    assert_eq!(synth.version, 1);
    assert!(matches!(&synth.owner, Owner::Address(a) if a == "bob"));
    assert!(matches!(synth.data, ObjectData::Coin { balance: 1 }));
    assert_eq!(result.logs[0].as_str(), "Transfer executed: nowhere -> bob");
}

#[test]
fn storeless_transfer_synthesizes_a_stand_in() {
    let mut vm = MoveVMExecutor::new();
    let result = vm.execute(&transfer_request("ghost", "carol"));
    assert_eq!(result.gas_used, 500);
    assert_eq!(result.touched_objects.len(), 1);
    let synth = &result.touched_objects[0];
    assert_eq!(synth.id.0.as_str(), "ghost-transferred");
    assert_eq!(synth.version, 1);
    assert!(matches!(&synth.owner, Owner::Address(a) if a == "carol"));
    assert!(matches!(synth.data, ObjectData::Coin { balance: 1 }));
}

#[test]
fn mint_creates_a_coin_for_the_mint_address() {
    let mut vm = MoveVMExecutor::with_object_store(InMemoryObjectStore::new());
    let result = vm.execute(&call_request("coin", "mint", Vec::new()));
    // 50 (call) + 200 (handler) + 50 (return) + 200 (surcharge)
    assert_eq!(result.gas_used, 500);
    assert_eq!(result.touched_objects.len(), 1);
    let coin = &result.touched_objects[0];
    assert_eq!(coin.version, 1);
    assert!(matches!(&coin.owner, Owner::Address(a) if a == "mint-address"));
    assert!(matches!(coin.data, ObjectData::Coin { balance: 1000 }));
    assert_eq!(result.logs[0].as_str(), "Move call: coin::mint");
    assert_eq!(result.logs[1].as_str(), "Arguments: []");
    assert_eq!(result.logs[2].as_str(), "Coin minted; Function returned");
}

#[test]
fn coin_transfer_builtin_has_fixed_cost() {
    let mut vm = MoveVMExecutor::with_object_store(InMemoryObjectStore::new());
    let result = vm.execute(&call_request("coin", "transfer", vec!["42".to_owned()]));
    // 50 (load) + 50 (call) + 300 (handler) + 50 (return) + 200 (surcharge)
    assert_eq!(result.gas_used, 650);
    assert!(result.touched_objects.is_empty());
    assert_eq!(result.logs[1].as_str(), "Arguments: [42]");
    assert_eq!(
        result.logs[2].as_str(),
        "Loaded constant: 42; Coin transfer executed; Function returned"
    );
}

#[test]
fn unrecognized_call_logs_and_touches_nothing() {
    let mut vm = MoveVMExecutor::with_object_store(InMemoryObjectStore::new());
    let result = vm.execute(&call_request("foo", "bar", Vec::new()));
    // 50 (call) + 150 (default handler) + 50 (return) + 200 (surcharge)
    assert_eq!(result.gas_used, 450);
    assert!(result.touched_objects.is_empty());
    assert_eq!(result.logs[0].as_str(), "Move call: foo::bar");
    assert_eq!(result.logs[2].as_str(), "Executed foo::bar; Function returned");
}
