use sui_validator::codec::{decode_checkpoint, decode_effects, encode_checkpoint, encode_effects, encode_object};
use sui_validator::effects::{EffectsBuilder, TransactionEffects};
use sui_validator::messages::CheckpointSummary;
use sui_validator::object::{ObjectData, ObjectID, Owner, SuiObject};
use sui_validator::transaction::TransactionDigest;

fn sample_effects() -> TransactionEffects {
    let coin = SuiObject::new(
        ObjectID::new("coin-1".to_owned()),
        Owner::Address("alice".to_owned()),
        ObjectData::Coin { balance: 1000 },
    );
    let pkg = SuiObject::new(
        ObjectID::new("pkg-1".to_owned()),
        Owner::Immutable,
        ObjectData::Package { modules: vec!["coin".to_owned(), "staking".to_owned()] },
    );
    let rec = SuiObject::new(
        ObjectID::new("rec-1".to_owned()),
        Owner::Shared,
        ObjectData::MoveStruct {
            type_tag: "0x2::kiosk::Kiosk".to_owned(),
            fields: "{\"items\": 3}".to_owned(),
        },
    );
    EffectsBuilder::new(TransactionDigest("tx-42".to_owned()))
        .record_created(coin)
        .record_created(pkg)
        .record_mutated(rec)
        .record_event("first: event".to_owned())
        .record_event("second; with a separator and unicode ✓".to_owned())
        .build()
}

#[test]
fn effects_round_trip() {
    let effects = sample_effects();
    let text = encode_effects(&effects);
    let decoded = decode_effects(text.as_str()).expect("the encoding must decode");
    assert_eq!(decoded, effects);
}

#[test]
fn empty_effects_round_trip() {
    let effects = TransactionEffects::new(TransactionDigest(String::new()));
    let text = encode_effects(&effects);
    let decoded = decode_effects(text.as_str()).expect("the encoding must decode");
    assert_eq!(decoded, effects);
}

#[test]
fn effects_decoding_rejects_garbage() {
    assert!(decode_effects("").is_none());
    assert!(decode_effects("not an encoding").is_none());
    assert!(decode_effects("5:tx-42").is_none());
    // trailing bytes after a complete record are refused
    let text = encode_effects(&sample_effects());
    let mut with_tail = String::from(text.as_str());
    with_tail.push('x');
    assert!(decode_effects(with_tail.as_str()).is_none());
}

#[test]
fn checkpoint_round_trip() {
    let summary = CheckpointSummary {
        sequence_number: 7,
        transaction_count: 1,
        root_digest: "tx-7".to_owned(),
    };
    let text = encode_checkpoint(&summary);
    let decoded = decode_checkpoint(text.as_str()).expect("the encoding must decode");
    assert_eq!(decoded, summary);
}

#[test]
fn checkpoint_decoding_rejects_garbage() {
    assert!(decode_checkpoint("").is_none());
    assert!(decode_checkpoint("1:2:").is_none());
    assert!(decode_checkpoint("1:2:4:tx-1x").is_none());
}

#[test]
fn object_encoding_depends_on_content() {
    let a = SuiObject::new(
        ObjectID::new("a".to_owned()),
        Owner::Shared,
        ObjectData::Coin { balance: 1 },
    );
    let b = SuiObject::new(
        ObjectID::new("a".to_owned()),
        Owner::Shared,
        ObjectData::Coin { balance: 2 },
    );
    assert_ne!(encode_object(&a).as_str(), encode_object(&b).as_str());
}
