use sui_indexer::queries::{
    collect_move_calls, collect_recipients, collect_transactions, find_latest_sequence_number,
    move_call_passes, recipient_passes, scan_transactions, transaction_passes, MoveCallFilter,
    RecipientFilter, TransactionFilter,
};
use sui_indexer::paging::PageEntry;
use sui_indexer::rows::{
    Address, Checkpoint, DeletedObject, MoveCall, NewTransaction, Object, ObjectStatus, Package,
    Recipient, Transaction, TransactionObjectChanges,
};
use sui_indexer::tables::{
    can_number, contains_address, contains_checkpoint, contains_package, contains_transaction,
    find_affected_twice, find_duplicate_transaction, insert_transactions, names_deleted_twice,
    names_mutated_twice, write_addresses, write_changes, write_deleted, write_mutated,
    write_packages,
};
use sui_indexer::views::{clone_texts, contains_text};

fn stored(id: i64, digest: &str, sender: &str, mutated: &[&str]) -> Transaction {
    Transaction {
        id,
        transaction_digest: digest.to_string(),
        sender: sender.to_string(),
        mutated: mutated.iter().map(|s| s.to_string()).collect(),
        checkpoint_sequence_number: 0,
    }
}

fn fresh(digest: &str) -> NewTransaction {
    NewTransaction {
        transaction_digest: digest.to_string(),
        sender: "A".to_string(),
        mutated: vec![],
        checkpoint_sequence_number: 0,
    }
}

fn object(id: &str, version: i64) -> Object {
    Object {
        epoch: 1,
        checkpoint: 2,
        object_id: id.to_string(),
        version,
        object_digest: format!("digest-{}", version),
        owner_address: "owner".to_string(),
        previous_transaction: "T".to_string(),
        object_status: ObjectStatus::Created,
    }
}

fn deleted(id: &str, version: i64) -> DeletedObject {
    DeletedObject {
        epoch: 8,
        checkpoint: 9,
        object_id: id.to_string(),
        version,
        previous_transaction: "D".to_string(),
        object_status: ObjectStatus::Wrapped,
    }
}

fn entry(id: i64, digest: &str) -> PageEntry {
    PageEntry { id, digest: digest.to_string() }
}

#[test]
fn row_ids_fit_up_to_the_largest_signed_number() {
    assert!(can_number(0, 0));
    assert!(can_number(10, 20));
    assert!(can_number(i64::MAX as usize, 0));
    assert!(can_number(i64::MAX as usize - 1, 1));
    assert!(!can_number(i64::MAX as usize, 1));
    assert!(!can_number(usize::MAX, usize::MAX));
}

#[test]
fn duplicate_digests_are_found_in_the_table_and_in_the_batch() {
    let table = vec![stored(0, "T0", "A", &[]), stored(1, "T1", "A", &[])];
    assert!(contains_transaction(&table, &"T1".to_string()));
    assert!(!contains_transaction(&table, &"T2".to_string()));
    assert!(!find_duplicate_transaction(&table, &vec![]));
    assert!(!find_duplicate_transaction(&table, &vec![fresh("T2"), fresh("T3")]));
    assert!(find_duplicate_transaction(&table, &vec![fresh("T2"), fresh("T0")]));
    assert!(find_duplicate_transaction(&table, &vec![fresh("T2"), fresh("T3"), fresh("T2")]));
}

#[test]
fn inserted_transactions_are_numbered_after_the_stored_ones() {
    let mut table = vec![stored(0, "T0", "A", &[])];
    insert_transactions(&mut table, &vec![fresh("T1"), fresh("T2")]);
    assert_eq!(
        table,
        vec![stored(0, "T0", "A", &[]), stored(1, "T1", "A", &[]), stored(2, "T2", "A", &[])]
    );
}

#[test]
fn batches_that_name_an_object_twice_are_found() {
    assert!(!names_mutated_twice(&vec![]));
    assert!(!names_mutated_twice(&vec![object("a", 1), object("b", 1)]));
    assert!(names_mutated_twice(&vec![object("a", 1), object("b", 1), object("a", 2)]));
    assert!(!names_deleted_twice(&vec![deleted("a", 1), deleted("b", 1)]));
    assert!(names_deleted_twice(&vec![deleted("b", 1), deleted("b", 1)]));
    let fine = TransactionObjectChanges {
        mutated_objects: vec![object("a", 1)],
        deleted_objects: vec![deleted("a", 2)],
    };
    let twice = TransactionObjectChanges {
        mutated_objects: vec![],
        deleted_objects: vec![deleted("a", 2), deleted("a", 3)],
    };
    assert!(!find_affected_twice(&vec![fine.clone(), fine.clone()]));
    assert!(find_affected_twice(&vec![fine, twice]));
}

#[test]
fn writing_objects_overwrites_in_place() {
    let mut table = vec![object("a", 1), object("b", 1)];
    write_mutated(&mut table, &object("a", 2));
    assert_eq!(table, vec![object("a", 2), object("b", 1)]);
    write_mutated(&mut table, &object("c", 1));
    assert_eq!(table, vec![object("a", 2), object("b", 1), object("c", 1)]);
    write_deleted(&mut table, &deleted("b", 5));
    assert_eq!(
        table[1],
        Object {
            epoch: 8,
            checkpoint: 9,
            object_id: "b".to_string(),
            version: 5,
            object_digest: "digest-1".to_string(),
            owner_address: "owner".to_string(),
            previous_transaction: "D".to_string(),
            object_status: ObjectStatus::Wrapped,
        }
    );
    assert_eq!(table[0], object("a", 2));
    assert_eq!(table[2], object("c", 1));
}

#[test]
fn groups_of_changes_apply_in_order() {
    let mut table = vec![];
    write_changes(
        &mut table,
        &vec![
            TransactionObjectChanges {
                mutated_objects: vec![object("a", 1), object("b", 1)],
                deleted_objects: vec![],
            },
            TransactionObjectChanges {
                mutated_objects: vec![object("a", 2)],
                deleted_objects: vec![deleted("b", 2)],
            },
            TransactionObjectChanges {
                mutated_objects: vec![object("a", 3)],
                deleted_objects: vec![],
            },
        ],
    );
    assert_eq!(table.len(), 2);
    assert_eq!(table[0], object("a", 3));
    assert_eq!(table[1].version, 2);
    assert_eq!(table[1].object_status, ObjectStatus::Wrapped);
    assert_eq!(table[1].object_digest, "digest-1");
}

#[test]
fn addresses_and_packages_are_inserted_once() {
    let address = |a: &str, tx: &str| Address {
        account_address: a.to_string(),
        first_appearance_tx: tx.to_string(),
        first_appearance_time: 0,
    };
    let mut addresses = vec![address("x", "T0")];
    write_addresses(&mut addresses, &vec![address("y", "T1"), address("x", "T1"), address("y", "T2")]);
    assert_eq!(addresses, vec![address("x", "T0"), address("y", "T1")]);
    assert!(contains_address(&addresses, &"y".to_string()));
    assert!(!contains_address(&addresses, &"z".to_string()));

    let package = |id: &str, version: i64, author: &str| Package {
        package_id: id.to_string(),
        version,
        author: author.to_string(),
    };
    let mut packages = vec![package("p", 1, "a")];
    write_packages(
        &mut packages,
        &vec![package("p", 1, "b"), package("p", 2, "b"), package("q", 1, "b"), package("p", 2, "c")],
    );
    assert_eq!(packages, vec![package("p", 1, "a"), package("p", 2, "b"), package("q", 1, "b")]);
    assert!(contains_package(&packages, &"p".to_string(), 2));
    assert!(!contains_package(&packages, &"q".to_string(), 2));
}

#[test]
fn checkpoints_are_found_by_sequence_number() {
    let checkpoint = |n: i64| Checkpoint {
        sequence_number: n,
        checkpoint_digest: format!("cp-{}", n),
        epoch: 0,
        timestamp_ms: 0,
    };
    let table = vec![checkpoint(3), checkpoint(1)];
    assert!(contains_checkpoint(&table, 1));
    assert!(!contains_checkpoint(&table, 2));
    assert_eq!(find_latest_sequence_number(&table), 3);
    assert_eq!(find_latest_sequence_number(&vec![]), -1);
}

#[test]
fn filters_decide_row_by_row() {
    let row = stored(4, "T4", "A", &["x", "y"]);
    assert!(transaction_passes(&TransactionFilter::All, &row));
    assert!(transaction_passes(&TransactionFilter::Sender("A".to_string()), &row));
    assert!(!transaction_passes(&TransactionFilter::Sender("B".to_string()), &row));
    assert!(transaction_passes(&TransactionFilter::MutatedObject("y".to_string()), &row));
    assert!(!transaction_passes(&TransactionFilter::MutatedObject("z".to_string()), &row));
    assert!(transaction_passes(&TransactionFilter::Digest("T4".to_string()), &row));
    assert!(!transaction_passes(&TransactionFilter::Digest("T5".to_string()), &row));

    let call = MoveCall {
        id: 0,
        transaction_digest: "T".to_string(),
        move_package: "p".to_string(),
        move_module: "m".to_string(),
        move_function: "f".to_string(),
    };
    let filter = |package: &str, module: Option<&str>, function: Option<&str>| MoveCallFilter::Call {
        package: package.to_string(),
        module: module.map(|s| s.to_string()),
        function: function.map(|s| s.to_string()),
    };
    assert!(move_call_passes(&filter("p", None, None), &call));
    assert!(move_call_passes(&filter("p", Some("m"), Some("f")), &call));
    assert!(!move_call_passes(&filter("q", Some("m"), Some("f")), &call));
    assert!(!move_call_passes(&filter("p", Some("n"), None), &call));
    assert!(!move_call_passes(&filter("p", None, Some("g")), &call));
    assert!(move_call_passes(&MoveCallFilter::Digest("T".to_string()), &call));

    let paid = Recipient { id: 0, transaction_digest: "T".to_string(), recipient: "r".to_string() };
    assert!(recipient_passes(&RecipientFilter::Recipient("r".to_string()), &paid));
    assert!(!recipient_passes(&RecipientFilter::Recipient("s".to_string()), &paid));
    assert!(recipient_passes(&RecipientFilter::Digest("T".to_string()), &paid));
    assert!(!recipient_passes(&RecipientFilter::Digest("U".to_string()), &paid));
}

#[test]
fn candidates_keep_the_order_of_the_table() {
    let table = vec![
        stored(0, "T0", "A", &["x"]),
        stored(1, "T1", "B", &[]),
        stored(2, "T2", "A", &[]),
    ];
    assert_eq!(
        collect_transactions(&table, &TransactionFilter::Sender("A".to_string())),
        vec![entry(0, "T0"), entry(2, "T2")]
    );
    assert_eq!(collect_transactions(&table, &TransactionFilter::All).len(), 3);
    assert_eq!(collect_move_calls(&vec![], &MoveCallFilter::Digest("T".to_string())), vec![]);
    assert_eq!(collect_recipients(&vec![], &RecipientFilter::Digest("T".to_string())), vec![]);
    assert_eq!(scan_transactions(&table, 0, 1), vec![stored(1, "T1", "B", &[])]);
    assert_eq!(scan_transactions(&table, 0, 5).len(), 2);
}

#[test]
fn texts_are_copied_and_searched() {
    let texts = vec!["a".to_string(), "bc".to_string()];
    assert_eq!(clone_texts(&texts), texts);
    assert!(contains_text(&texts, &"bc".to_string()));
    assert!(!contains_text(&texts, &"b".to_string()));
}
