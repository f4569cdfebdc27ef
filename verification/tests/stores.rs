use sui_validator::object::{ObjectData, ObjectID, Owner, SuiObject};
use sui_validator::storage::{InMemoryCheckpointStore, InMemoryEffectsStore, InMemoryObjectStore};
use sui_validator::transaction::TransactionDigest;

fn coin(id: &str, owner: &str, balance: u64) -> SuiObject {
    SuiObject::new(
        ObjectID::new(id.to_owned()),
        Owner::Address(owner.to_owned()),
        ObjectData::Coin { balance },
    )
}

#[test]
fn object_store_put_get_delete() {
    let mut store = InMemoryObjectStore::new();
    assert!(store.get_object("coin-1").is_none());
    store.put_object(coin("coin-1", "alice", 5));
    let got = store.get_object("coin-1").unwrap();
    assert_eq!(got.id.0.as_str(), "coin-1");
    assert!(matches!(got.data, ObjectData::Coin { balance: 5 }));
    // last writer wins
    store.put_object(coin("coin-1", "bob", 9));
    let got = store.get_object("coin-1").unwrap();
    assert!(matches!(&got.owner, Owner::Address(a) if a == "bob"));
    store.delete_object("coin-1");
    assert!(store.get_object("coin-1").is_none());
}

#[test]
fn object_store_lists_by_owner() {
    let mut store = InMemoryObjectStore::new();
    store.put_object(coin("c1", "alice", 1));
    store.put_object(coin("c2", "bob", 2));
    store.put_object(coin("c3", "alice", 3));
    let all = store.list_objects(None);
    assert_eq!(all.len(), 3);
    let alices = store.list_objects(Some("alice"));
    assert_eq!(alices.len(), 2);
    assert!(alices.iter().all(|o| matches!(&o.owner, Owner::Address(a) if a == "alice")));
}

#[test]
fn effects_store_overwrites_per_digest() {
    let mut store = InMemoryEffectsStore::new();
    let digest = TransactionDigest("tx-1".to_owned());
    assert!(store.get_effects(&digest).is_none());
    store.save_effects(&digest, "first");
    assert_eq!(store.get_effects(&digest).unwrap().as_str(), "first");
    store.save_effects(&digest, "second");
    assert_eq!(store.get_effects(&digest).unwrap().as_str(), "second");
}

#[test]
fn checkpoint_store_tracks_latest() {
    let mut store = InMemoryCheckpointStore::new();
    assert_eq!(store.get_latest_sequence(), None);
    store.save_checkpoint(1, "one");
    store.save_checkpoint(2, "two");
    assert_eq!(store.get_latest_sequence(), Some(2));
    assert_eq!(store.get_checkpoint(1).unwrap().as_str(), "one");
    assert_eq!(store.get_checkpoint(2).unwrap().as_str(), "two");
    assert!(store.get_checkpoint(3).is_none());
}
