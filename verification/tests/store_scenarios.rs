use sui_indexer::errors::{IndexerError, WriteContext, WriteFailure};
use sui_indexer::partition::PartitionRegistry;
use sui_indexer::rows::{
    Address, Checkpoint, DeletedObject, Event, NewMoveCall, NewRecipient, NewTransaction, Object,
    ObjectStatus, Package, TemporaryCheckpointStore, Transaction, TransactionObjectChanges,
};
use sui_indexer::store::{CheckpointId, PgIndexerStore};

fn checkpoint(sequence_number: i64, digest: &str) -> Checkpoint {
    Checkpoint {
        sequence_number,
        checkpoint_digest: digest.to_string(),
        epoch: 0,
        timestamp_ms: 1_000 + sequence_number,
    }
}

fn transaction(digest: &str, sender: &str, mutated: &[&str], sequence_number: i64) -> NewTransaction {
    NewTransaction {
        transaction_digest: digest.to_string(),
        sender: sender.to_string(),
        mutated: mutated.iter().map(|id| id.to_string()).collect(),
        checkpoint_sequence_number: sequence_number,
    }
}

fn object(id: &str, version: i64, digest: &str, owner: &str, tx: &str) -> Object {
    Object {
        epoch: 0,
        checkpoint: 0,
        object_id: id.to_string(),
        version,
        object_digest: digest.to_string(),
        owner_address: owner.to_string(),
        previous_transaction: tx.to_string(),
        object_status: ObjectStatus::Mutated,
    }
}

fn deleted(id: &str, version: i64, tx: &str) -> DeletedObject {
    DeletedObject {
        epoch: 3,
        checkpoint: 7,
        object_id: id.to_string(),
        version,
        previous_transaction: tx.to_string(),
        object_status: ObjectStatus::Deleted,
    }
}

fn address(account: &str, tx: &str) -> Address {
    Address {
        account_address: account.to_string(),
        first_appearance_tx: tx.to_string(),
        first_appearance_time: 5,
    }
}

fn package(id: &str, version: i64, author: &str) -> Package {
    Package { package_id: id.to_string(), version, author: author.to_string() }
}

fn recipient(digest: &str, to: &str) -> NewRecipient {
    NewRecipient { transaction_digest: digest.to_string(), recipient: to.to_string() }
}

fn call(digest: &str, package: &str, module: &str, function: &str) -> NewMoveCall {
    NewMoveCall {
        transaction_digest: digest.to_string(),
        move_package: package.to_string(),
        move_module: module.to_string(),
        move_function: function.to_string(),
    }
}

fn empty_bundle(sequence_number: i64, digest: &str) -> TemporaryCheckpointStore {
    TemporaryCheckpointStore {
        checkpoint: checkpoint(sequence_number, digest),
        transactions: vec![],
        events: vec![],
        objects_changes: vec![],
        addresses: vec![],
        packages: vec![],
        move_calls: vec![],
        recipients: vec![],
    }
}

fn one_transaction_bundle(sequence_number: i64, digest: &str) -> TemporaryCheckpointStore {
    let mut bundle = empty_bundle(sequence_number, &format!("cp-{}", sequence_number));
    bundle.transactions.push(transaction(digest, "0xa", &["0x0b1"], sequence_number));
    bundle
}

fn new_store() -> PgIndexerStore {
    PgIndexerStore::new(PartitionRegistry::new())
}

fn first_bundle() -> TemporaryCheckpointStore {
    let mut bundle = empty_bundle(0, "cp-0");
    bundle.transactions.push(transaction("T1", "A", &["O"], 0));
    bundle.events.push(Event {
        transaction_digest: "T1".to_string(),
        event_sequence: 0,
        event_type: "transfer".to_string(),
        event_content: "{}".to_string(),
    });
    bundle.objects_changes.push(TransactionObjectChanges {
        mutated_objects: vec![object("O", 1, "d1", "A", "T1")],
        deleted_objects: vec![],
    });
    bundle.addresses.push(address("A", "T1"));
    bundle.addresses.push(address("B", "T1"));
    bundle.packages.push(package("P", 1, "A"));
    bundle.move_calls.push(call("T1", "P", "coin", "send"));
    bundle.recipients.push(recipient("T1", "B"));
    bundle
}

#[test]
fn empty_store_reports_no_checkpoint() {
    let store = new_store();
    assert_eq!(store.get_latest_checkpoint_sequence_number(), -1);
    assert_eq!(store.get_total_transaction_number(), 0);
    assert_eq!(store.get_all_transaction_digest_page(None, 10, false), Vec::<String>::new());
    assert_eq!(store.read_transactions(-1, 10), Vec::<Transaction>::new());
}

#[test]
fn first_checkpoint_is_visible_through_every_query() {
    let mut store = new_store();
    let written = store.persist_checkpoint(&first_bundle());
    assert_eq!(written, Ok(1));
    assert_eq!(store.get_latest_checkpoint_sequence_number(), 0);
    let found = store.get_transaction_by_digest("T1").unwrap();
    assert_eq!(
        found,
        Transaction {
            id: 0,
            transaction_digest: "T1".to_string(),
            sender: "A".to_string(),
            mutated: vec!["O".to_string()],
            checkpoint_sequence_number: 0,
        }
    );
    assert_eq!(
        store.get_transaction_digest_page_by_sender_address("A".to_string(), None, 10, false),
        vec!["T1".to_string()]
    );
    assert_eq!(
        store.get_transaction_digest_page_by_mutated_object("O".to_string(), None, 10, false),
        vec!["T1".to_string()]
    );
    assert_eq!(
        store.get_transaction_digest_page_by_recipient_address("B".to_string(), None, 10, false),
        vec!["T1".to_string()]
    );
    assert_eq!(
        store.get_transaction_digest_page_by_move_call(
            "P".to_string(),
            Some("coin".to_string()),
            Some("send".to_string()),
            None,
            10,
            false
        ),
        vec!["T1".to_string()]
    );
    assert_eq!(store.get_all_transaction_digest_page(None, 10, true), vec!["T1".to_string()]);
    assert_eq!(store.get_total_transaction_number(), 1);
}

#[test]
fn queries_for_other_values_find_nothing() {
    let mut store = new_store();
    store.persist_checkpoint(&first_bundle()).unwrap();
    assert_eq!(
        store.get_transaction_digest_page_by_sender_address("B".to_string(), None, 10, false),
        Vec::<String>::new()
    );
    assert_eq!(
        store.get_transaction_digest_page_by_mutated_object("X".to_string(), None, 10, false),
        Vec::<String>::new()
    );
    assert_eq!(
        store.get_transaction_digest_page_by_recipient_address("A".to_string(), None, 10, true),
        Vec::<String>::new()
    );
    assert_eq!(
        store.get_transaction_digest_page_by_move_call(
            "P".to_string(),
            Some("other".to_string()),
            None,
            None,
            10,
            false
        ),
        Vec::<String>::new()
    );
    assert_eq!(store.get_transaction_by_digest("T2"), Err(IndexerError::NotFound));
}

#[test]
fn raw_scan_is_strictly_after_the_given_row() {
    let mut store = new_store();
    store.persist_checkpoint(&one_transaction_bundle(0, "T-first")).unwrap();
    store.persist_checkpoint(&one_transaction_bundle(1, "T-second")).unwrap();
    let rows = store.read_transactions(0, 10);
    assert_eq!(
        rows,
        vec![Transaction {
            id: 1,
            transaction_digest: "T-second".to_string(),
            sender: "0xa".to_string(),
            mutated: vec!["0x0b1".to_string()],
            checkpoint_sequence_number: 1,
        }]
    );
    assert_eq!(store.read_transactions(-1, 10).len(), 2);
    assert_eq!(store.read_transactions(-1, 1)[0].transaction_digest, "T-first");
    assert_eq!(store.read_transactions(1, 10), Vec::<Transaction>::new());
    assert_eq!(store.read_transactions(-1, 0), Vec::<Transaction>::new());
}

#[test]
fn latest_sequence_number_is_the_highest_not_the_last() {
    let mut store = new_store();
    store.persist_checkpoint(&empty_bundle(5, "cp-5")).unwrap();
    assert_eq!(store.get_latest_checkpoint_sequence_number(), 5);
    store.persist_checkpoint(&empty_bundle(2, "cp-2")).unwrap();
    assert_eq!(store.get_latest_checkpoint_sequence_number(), 5);
    store.persist_checkpoint(&empty_bundle(0, "cp-0")).unwrap();
    assert_eq!(store.get_latest_checkpoint_sequence_number(), 5);
}

#[test]
fn checkpoint_zero_differs_from_no_checkpoint() {
    let mut store = new_store();
    assert_eq!(store.get_latest_checkpoint_sequence_number(), -1);
    store.persist_checkpoint(&empty_bundle(0, "cp-0")).unwrap();
    assert_eq!(store.get_latest_checkpoint_sequence_number(), 0);
}

#[test]
fn checkpoint_lookup_by_sequence_number() {
    let mut store = new_store();
    store.persist_checkpoint(&empty_bundle(0, "cp-0")).unwrap();
    store.persist_checkpoint(&empty_bundle(1, "cp-1")).unwrap();
    assert_eq!(store.get_checkpoint(CheckpointId::SequenceNumber(1)), Ok(checkpoint(1, "cp-1")));
    assert_eq!(store.get_checkpoint_by_sequence_number(0), Ok(checkpoint(0, "cp-0")));
    assert_eq!(store.get_checkpoint(CheckpointId::SequenceNumber(2)), Err(IndexerError::NotFound));
    assert_eq!(
        store.get_checkpoint(CheckpointId::SequenceNumber(u64::MAX)),
        Err(IndexerError::NotFound)
    );
}

#[test]
fn checkpoint_lookup_by_digest_text() {
    let mut store = new_store();
    store.persist_checkpoint(&empty_bundle(0, "cp-0")).unwrap();
    store.persist_checkpoint(&empty_bundle(1, "cp-1")).unwrap();
    assert_eq!(store.get_checkpoint_by_digest(&"cp-1".to_string()), Ok(checkpoint(1, "cp-1")));
    assert_eq!(
        store.get_checkpoint_by_digest(&"cp-9".to_string()),
        Err(IndexerError::NotFound)
    );
}

#[test]
fn checkpoint_lookup_by_digest_bytes_uses_base58() {
    let mut store = new_store();
    let zeros = "1".repeat(32);
    let mut one = "1".repeat(31);
    one.push('2');
    store.persist_checkpoint(&empty_bundle(0, &zeros)).unwrap();
    store.persist_checkpoint(&empty_bundle(1, &one)).unwrap();
    let mut bytes = [0u8; 32];
    assert_eq!(store.get_checkpoint(CheckpointId::Digest(bytes)), Ok(checkpoint(0, &zeros)));
    bytes[31] = 1;
    assert_eq!(store.get_checkpoint(CheckpointId::Digest(bytes)), Ok(checkpoint(1, &one)));
    bytes[0] = 9;
    assert_eq!(store.get_checkpoint(CheckpointId::Digest(bytes)), Err(IndexerError::NotFound));
}

#[test]
fn duplicate_checkpoint_is_refused_and_leaves_nothing() {
    let mut store = new_store();
    store.persist_checkpoint(&first_bundle()).unwrap();
    let before = store.table_sizes();
    let mut again = empty_bundle(0, "cp-0-again");
    again.transactions.push(transaction("T9", "Z", &["O9"], 0));
    again.addresses.push(address("Z", "T9"));
    again.recipients.push(recipient("T9", "Z"));
    let result = store.persist_checkpoint(&again);
    assert_eq!(
        result,
        Err(IndexerError::WriteError {
            failure: WriteFailure::DuplicateCheckpoint,
            context: WriteContext::Checkpoint { transaction_digests: vec!["T9".to_string()] },
        })
    );
    assert_eq!(store.table_sizes(), before);
    assert_eq!(store.get_transaction_by_digest("T9"), Err(IndexerError::NotFound));
    assert_eq!(
        store.get_transaction_digest_page_by_recipient_address("Z".to_string(), None, 10, false),
        Vec::<String>::new()
    );
}

#[test]
fn negative_sequence_number_is_refused() {
    let mut store = new_store();
    let result = store.persist_checkpoint(&empty_bundle(-1, "cp"));
    assert_eq!(
        result,
        Err(IndexerError::WriteError {
            failure: WriteFailure::InvalidSequenceNumber,
            context: WriteContext::Checkpoint { transaction_digests: vec![] },
        })
    );
    assert_eq!(store.get_latest_checkpoint_sequence_number(), -1);
}

#[test]
fn failure_in_a_late_step_rolls_back_the_early_steps() {
    let mut store = new_store();
    store.persist_checkpoint(&first_bundle()).unwrap();
    let snapshot = store.table_sizes();
    let mut bundle = empty_bundle(1, "cp-1");
    bundle.transactions.push(transaction("T2", "A", &["O"], 1));
    bundle.events.push(Event {
        transaction_digest: "T2".to_string(),
        event_sequence: 0,
        event_type: "e".to_string(),
        event_content: "c".to_string(),
    });
    bundle.objects_changes.push(TransactionObjectChanges {
        mutated_objects: vec![object("Q", 1, "d", "A", "T2"), object("Q", 2, "d2", "A", "T2")],
        deleted_objects: vec![],
    });
    let result = store.persist_checkpoint(&bundle);
    assert_eq!(
        result,
        Err(IndexerError::WriteError {
            failure: WriteFailure::ObjectAffectedTwice,
            context: WriteContext::Checkpoint { transaction_digests: vec!["T2".to_string()] },
        })
    );
    assert_eq!(store.table_sizes(), snapshot);
    assert_eq!(store.get_latest_checkpoint_sequence_number(), 0);
    assert_eq!(store.get_checkpoint_by_sequence_number(1), Err(IndexerError::NotFound));
    assert_eq!(store.get_transaction_by_digest("T2"), Err(IndexerError::NotFound));
    assert_eq!(store.get_object(&"Q".to_string()), None);
}

#[test]
fn duplicate_transaction_digest_is_refused() {
    let mut store = new_store();
    store.persist_checkpoint(&first_bundle()).unwrap();
    let mut bundle = empty_bundle(1, "cp-1");
    bundle.transactions.push(transaction("T1", "C", &[], 1));
    assert_eq!(
        store.persist_checkpoint(&bundle),
        Err(IndexerError::WriteError {
            failure: WriteFailure::DuplicateTransaction,
            context: WriteContext::Checkpoint { transaction_digests: vec!["T1".to_string()] },
        })
    );
    let mut twice = empty_bundle(1, "cp-1");
    twice.transactions.push(transaction("T5", "C", &[], 1));
    twice.transactions.push(transaction("T5", "D", &[], 1));
    assert_eq!(
        store.persist_checkpoint(&twice),
        Err(IndexerError::WriteError {
            failure: WriteFailure::DuplicateTransaction,
            context: WriteContext::Checkpoint {
                transaction_digests: vec!["T5".to_string(), "T5".to_string()],
            },
        })
    );
    assert_eq!(store.get_total_transaction_number(), 1);
}

#[test]
fn same_object_in_two_groups_keeps_the_last_change() {
    let mut store = new_store();
    let mut bundle = empty_bundle(0, "cp-0");
    bundle.transactions.push(transaction("T1", "A", &["O"], 0));
    bundle.transactions.push(transaction("T2", "A", &["O"], 0));
    bundle.objects_changes.push(TransactionObjectChanges {
        mutated_objects: vec![object("O", 1, "d1", "A", "T1")],
        deleted_objects: vec![],
    });
    bundle.objects_changes.push(TransactionObjectChanges {
        mutated_objects: vec![object("O", 2, "d2", "B", "T2")],
        deleted_objects: vec![],
    });
    assert_eq!(store.persist_checkpoint(&bundle), Ok(0));
    assert_eq!(store.table_sizes().objects, 1);
    assert_eq!(store.get_object(&"O".to_string()), Some(object("O", 2, "d2", "B", "T2")));
}

#[test]
fn deletion_overwrites_but_keeps_digest_and_owner() {
    let mut store = new_store();
    let mut bundle = empty_bundle(0, "cp-0");
    bundle.objects_changes.push(TransactionObjectChanges {
        mutated_objects: vec![object("O", 1, "d1", "A", "T1")],
        deleted_objects: vec![],
    });
    bundle.objects_changes.push(TransactionObjectChanges {
        mutated_objects: vec![],
        deleted_objects: vec![deleted("O", 2, "T2")],
    });
    store.persist_checkpoint(&bundle).unwrap();
    assert_eq!(
        store.get_object(&"O".to_string()),
        Some(Object {
            epoch: 3,
            checkpoint: 7,
            object_id: "O".to_string(),
            version: 2,
            object_digest: "d1".to_string(),
            owner_address: "A".to_string(),
            previous_transaction: "T2".to_string(),
            object_status: ObjectStatus::Deleted,
        })
    );
}

#[test]
fn deletion_of_an_unknown_object_inserts_a_row() {
    let mut store = new_store();
    let mut bundle = empty_bundle(0, "cp-0");
    bundle.objects_changes.push(TransactionObjectChanges {
        mutated_objects: vec![],
        deleted_objects: vec![deleted("O", 4, "T1")],
    });
    store.persist_checkpoint(&bundle).unwrap();
    assert_eq!(
        store.get_object(&"O".to_string()),
        Some(Object {
            epoch: 3,
            checkpoint: 7,
            object_id: "O".to_string(),
            version: 4,
            object_digest: String::new(),
            owner_address: String::new(),
            previous_transaction: "T1".to_string(),
            object_status: ObjectStatus::Deleted,
        })
    );
}

#[test]
fn mutation_and_deletion_in_one_group_apply_in_that_order() {
    let mut store = new_store();
    let mut bundle = empty_bundle(0, "cp-0");
    bundle.objects_changes.push(TransactionObjectChanges {
        mutated_objects: vec![object("O", 1, "d1", "A", "T1")],
        deleted_objects: vec![deleted("O", 2, "T1")],
    });
    store.persist_checkpoint(&bundle).unwrap();
    let row = store.get_object(&"O".to_string()).unwrap();
    assert_eq!(row.version, 2);
    assert_eq!(row.object_status, ObjectStatus::Deleted);
    assert_eq!(row.object_digest, "d1");
}

#[test]
fn same_object_twice_in_one_deleted_batch_is_refused() {
    let mut store = new_store();
    let mut bundle = empty_bundle(0, "cp-0");
    bundle.objects_changes.push(TransactionObjectChanges {
        mutated_objects: vec![],
        deleted_objects: vec![deleted("O", 2, "T1"), deleted("O", 3, "T1")],
    });
    let result = store.persist_checkpoint(&bundle);
    assert!(matches!(
        result,
        Err(IndexerError::WriteError { failure: WriteFailure::ObjectAffectedTwice, .. })
    ));
    assert_eq!(store.table_sizes().checkpoints, 0);
}

#[test]
fn known_addresses_and_packages_are_skipped_silently() {
    let mut store = new_store();
    store.persist_checkpoint(&first_bundle()).unwrap();
    let before = store.table_sizes();
    assert_eq!(before.addresses, 2);
    assert_eq!(before.packages, 1);
    let mut bundle = empty_bundle(1, "cp-1");
    bundle.addresses.push(address("A", "T-later"));
    bundle.addresses.push(address("B", "T-later"));
    bundle.packages.push(package("P", 1, "someone else"));
    assert_eq!(store.persist_checkpoint(&bundle), Ok(0));
    let after = store.table_sizes();
    assert_eq!(after.addresses, 2);
    assert_eq!(after.packages, 1);
    assert_eq!(after.checkpoints, before.checkpoints + 1);
}

#[test]
fn new_package_version_coexists_with_the_old_one() {
    let mut store = new_store();
    store.persist_checkpoint(&first_bundle()).unwrap();
    let mut bundle = empty_bundle(1, "cp-1");
    bundle.packages.push(package("P", 2, "A"));
    bundle.packages.push(package("P", 2, "A"));
    bundle.addresses.push(address("C", "T3"));
    bundle.addresses.push(address("C", "T4"));
    store.persist_checkpoint(&bundle).unwrap();
    assert_eq!(store.table_sizes().packages, 2);
    assert_eq!(store.table_sizes().addresses, 3);
}

#[test]
fn persist_returns_the_number_of_recipient_rows() {
    let mut store = new_store();
    let mut bundle = empty_bundle(0, "cp-0");
    bundle.transactions.push(transaction("T1", "A", &[], 0));
    bundle.recipients.push(recipient("T1", "B"));
    bundle.recipients.push(recipient("T1", "C"));
    bundle.recipients.push(recipient("T1", "B"));
    assert_eq!(store.persist_checkpoint(&bundle), Ok(3));
    assert_eq!(store.table_sizes().recipients, 3);
}

#[test]
fn row_ids_count_up_from_zero_across_checkpoints() {
    let mut store = new_store();
    let mut first = empty_bundle(0, "cp-0");
    first.transactions.push(transaction("T1", "A", &[], 0));
    first.transactions.push(transaction("T2", "A", &[], 0));
    store.persist_checkpoint(&first).unwrap();
    let mut second = empty_bundle(1, "cp-1");
    second.transactions.push(transaction("T3", "A", &[], 1));
    store.persist_checkpoint(&second).unwrap();
    assert_eq!(store.get_transaction_by_digest("T1").unwrap().id, 0);
    assert_eq!(store.get_transaction_by_digest("T2").unwrap().id, 1);
    assert_eq!(store.get_transaction_by_digest("T3").unwrap().id, 2);
    assert_eq!(store.get_transaction_sequence_by_digest(Some("T3".to_string()), false), Some(2));
    assert_eq!(store.get_transaction_sequence_by_digest(Some("T3".to_string()), true), Some(2));
    assert_eq!(store.get_transaction_sequence_by_digest(Some("T4".to_string()), true), None);
    assert_eq!(store.get_transaction_sequence_by_digest(None, true), None);
}

#[test]
fn row_id_by_digest_starts_from_the_end_the_direction_names() {
    let mut store = new_store();
    let mut bundle = empty_bundle(0, "cp-0");
    bundle.transactions.push(transaction("T1", "A", &[], 0));
    bundle.transactions.push(transaction("T2", "A", &[], 0));
    bundle.move_calls.push(call("T1", "P", "m", "f"));
    bundle.move_calls.push(call("T2", "P", "m", "f"));
    bundle.move_calls.push(call("T1", "P", "m", "g"));
    bundle.recipients.push(recipient("T2", "B"));
    bundle.recipients.push(recipient("T1", "B"));
    bundle.recipients.push(recipient("T2", "C"));
    store.persist_checkpoint(&bundle).unwrap();
    assert_eq!(store.get_move_call_sequence_by_digest(Some("T1".to_string()), false), Some(0));
    assert_eq!(store.get_move_call_sequence_by_digest(Some("T1".to_string()), true), Some(2));
    assert_eq!(store.get_move_call_sequence_by_digest(Some("T3".to_string()), true), None);
    assert_eq!(store.get_move_call_sequence_by_digest(None, false), None);
    assert_eq!(store.get_recipient_sequence_by_digest(Some("T2".to_string()), false), Some(0));
    assert_eq!(store.get_recipient_sequence_by_digest(Some("T2".to_string()), true), Some(2));
    assert_eq!(store.get_recipient_sequence_by_digest(Some("T9".to_string()), false), None);
    assert_eq!(store.get_recipient_sequence_by_digest(None, true), None);
}

#[test]
fn logging_errors_appends_rows_and_touches_nothing_else() {
    let mut store = new_store();
    store.persist_checkpoint(&first_bundle()).unwrap();
    let before = store.table_sizes();
    store.log_errors(vec![]);
    assert_eq!(store.table_sizes(), before);
    store.log_errors(vec![
        IndexerError::ReadError("node unreachable".to_string()),
        IndexerError::NotFound,
        IndexerError::WriteError {
            failure: WriteFailure::DuplicateCheckpoint,
            context: WriteContext::Epoch { epoch: 1 },
        },
    ]);
    let after = store.table_sizes();
    assert_eq!(after.error_logs, 3);
    assert_eq!(after.transactions, before.transactions);
    assert_eq!(after.checkpoints, before.checkpoints);
    let logs = store.get_error_logs();
    assert_eq!(logs[0].error_type, "ReadError");
    assert_eq!(logs[0].error, "node unreachable");
    assert_eq!(logs[1].error_type, "NotFound");
    assert_eq!(logs[1].error, "no matching row");
    assert_eq!(logs[2].error_type, "WriteError");
    assert_eq!(logs[2].error, "checkpoint sequence number already stored");
}

#[test]
fn error_names_and_messages() {
    let write = IndexerError::checkpoint_write(WriteFailure::RowIdsExhausted, vec!["T".to_string()]);
    assert!(write.is_write_error());
    assert_eq!(write.name(), "WriteError");
    assert_eq!(write.message(), "row ids exhausted");
    assert!(!IndexerError::NotFound.is_write_error());
    assert_eq!(
        IndexerError::epoch_write(WriteFailure::EpochOutOfRange, 4),
        IndexerError::WriteError {
            failure: WriteFailure::EpochOutOfRange,
            context: WriteContext::Epoch { epoch: 4 },
        }
    );
    assert_eq!(WriteFailure::InvalidSequenceNumber.describe(), "checkpoint sequence number below zero");
    assert_eq!(WriteFailure::DuplicateTransaction.describe(), "transaction digest already stored");
    assert_eq!(WriteFailure::ObjectAffectedTwice.describe(), "object changed twice in one batch");
    assert_eq!(WriteFailure::PartitionExists.describe(), "partition already exists");
    assert_eq!(WriteFailure::EpochOutOfRange.describe(), "epoch has no successor");
}
