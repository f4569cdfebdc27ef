use sui_validator::locking::{LockManager, LockMode};
use sui_validator::object::{ObjectData, ObjectID, Owner, SuiObject};

fn shared_object(id: &str) -> SuiObject {
    SuiObject::new(
        ObjectID::new(id.to_owned()),
        Owner::Shared,
        ObjectData::Coin { balance: 0 },
    )
}

#[test]
fn exclusive_lock_is_mutually_exclusive() {
    let mut locks = LockManager::new();
    let obj = shared_object("hot-object");
    // the first contender wins
    assert!(locks.acquire(&obj, LockMode::Exclusive));
    // the second contender observes failure while the lock is held
    assert!(!locks.acquire(&obj, LockMode::Exclusive));
    // once the holder releases, a subsequent acquire succeeds
    locks.release(&obj, LockMode::Exclusive);
    assert!(locks.acquire(&obj, LockMode::Exclusive));
}

#[test]
fn shared_locks_coexist_but_exclude_writers() {
    let mut locks = LockManager::new();
    let obj = shared_object("read-mostly");
    assert!(locks.acquire(&obj, LockMode::Shared));
    assert!(locks.acquire(&obj, LockMode::Shared));
    assert!(!locks.acquire(&obj, LockMode::Exclusive));
    locks.release(&obj, LockMode::Shared);
    assert!(!locks.acquire(&obj, LockMode::Exclusive));
    locks.release(&obj, LockMode::Shared);
    assert!(locks.acquire(&obj, LockMode::Exclusive));
}

#[test]
fn exclusive_holder_blocks_readers() {
    let mut locks = LockManager::new();
    let obj = shared_object("writer-held");
    assert!(locks.acquire(&obj, LockMode::Exclusive));
    assert!(!locks.acquire(&obj, LockMode::Shared));
    locks.release(&obj, LockMode::Exclusive);
    assert!(locks.acquire(&obj, LockMode::Shared));
}

#[test]
fn locks_are_keyed_by_identity_and_version() {
    let mut locks = LockManager::new();
    let v1 = shared_object("obj");
    let mut v2 = shared_object("obj");
    v2.version = 2;
    assert!(locks.acquire(&v1, LockMode::Exclusive));
    // a different version is a different lock key
    assert!(locks.acquire(&v2, LockMode::Exclusive));
}

#[test]
fn releasing_an_unheld_key_is_harmless() {
    let mut locks = LockManager::new();
    let obj = shared_object("never-held");
    locks.release(&obj, LockMode::Exclusive);
    assert!(locks.acquire(&obj, LockMode::Exclusive));
}

#[test]
fn lock_key_format() {
    let obj = shared_object("coin-alice-1");
    assert_eq!(obj.lock_key().as_str(), "coin-alice-1::v1");
    let mut later = shared_object("coin-alice-1");
    later.version = 42;
    assert_eq!(later.lock_key().as_str(), "coin-alice-1::v42");
}
