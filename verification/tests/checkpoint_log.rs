use sui_validator::checkpoint::CheckpointAggregator;
use sui_validator::messages::CheckpointSummary;
use sui_validator::object::ObjectID;
use sui_validator::transaction::TransactionDigest;

fn summary(sequence_number: u64, transaction_count: usize) -> CheckpointSummary {
    CheckpointSummary {
        sequence_number,
        transaction_count,
        root_digest: format!("tx-{}", sequence_number),
    }
}

#[test]
fn aggregator_appends_and_reports_latest() {
    let mut log = CheckpointAggregator::new();
    assert!(log.latest().is_none());
    log.record(summary(1, 1));
    log.record(summary(2, 3));
    let latest = log.latest().unwrap();
    assert_eq!(latest.sequence_number, 2);
    assert_eq!(latest.root_digest.as_str(), "tx-2");
}

#[test]
fn aggregator_sums_transaction_counts() {
    let mut log = CheckpointAggregator::new();
    assert_eq!(log.total_transactions(), 0);
    log.record(summary(1, 1));
    log.record(summary(2, 3));
    log.record(summary(3, 2));
    assert_eq!(log.total_transactions(), 6);
}

#[test]
fn random_identifiers_carry_their_prefixes() {
    let id = ObjectID::random();
    assert!(id.0.starts_with("obj-"));
    let digest = TransactionDigest::random();
    assert!(digest.0.starts_with("tx-"));
}
