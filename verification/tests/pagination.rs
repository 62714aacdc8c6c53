use sui_indexer::paging::{admits, bound, cut, keep_latest, latest_at, page_of, PageEntry};
use sui_indexer::partition::PartitionRegistry;
use sui_indexer::rows::{
    Checkpoint, NewMoveCall, NewRecipient, NewTransaction, TemporaryCheckpointStore,
};
use sui_indexer::store::PgIndexerStore;

fn texts(items: &[&str]) -> Vec<String> {
    items.iter().map(|s| s.to_string()).collect()
}

fn entry(id: i64, digest: &str) -> PageEntry {
    PageEntry { id, digest: digest.to_string() }
}

fn transaction(digest: &str, sender: &str, mutated: &[&str]) -> NewTransaction {
    NewTransaction {
        transaction_digest: digest.to_string(),
        sender: sender.to_string(),
        mutated: texts(mutated),
        checkpoint_sequence_number: 0,
    }
}

fn call(digest: &str, package: &str, module: &str, function: &str) -> NewMoveCall {
    NewMoveCall {
        transaction_digest: digest.to_string(),
        move_package: package.to_string(),
        move_module: module.to_string(),
        move_function: function.to_string(),
    }
}

fn recipient(digest: &str, to: &str) -> NewRecipient {
    NewRecipient { transaction_digest: digest.to_string(), recipient: to.to_string() }
}

/// Transactions T0..T5 with row ids 0..5; senders A, B, A, A, B, A; objects
/// X in T0, T2, T5 and Y in T1, T2.
fn populated_store() -> PgIndexerStore {
    let mut store = PgIndexerStore::new(PartitionRegistry::new());
    let bundle = TemporaryCheckpointStore {
        checkpoint: Checkpoint {
            sequence_number: 0,
            checkpoint_digest: "cp".to_string(),
            epoch: 0,
            timestamp_ms: 0,
        },
        transactions: vec![
            transaction("T0", "A", &["X"]),
            transaction("T1", "B", &["Y"]),
            transaction("T2", "A", &["X", "Y"]),
            transaction("T3", "A", &[]),
            transaction("T4", "B", &["Z"]),
            transaction("T5", "A", &["X"]),
        ],
        events: vec![],
        objects_changes: vec![],
        addresses: vec![],
        packages: vec![],
        move_calls: vec![
            call("T0", "P", "m1", "f"),
            call("T1", "P", "m1", "g"),
            call("T0", "P", "m2", "f"),
            call("T2", "Q", "m1", "f"),
            call("T1", "P", "m1", "f"),
            call("T3", "P", "m2", "g"),
        ],
        recipients: vec![
            recipient("T0", "R"),
            recipient("T1", "R"),
            recipient("T0", "S"),
            recipient("T0", "R"),
            recipient("T2", "R"),
            recipient("T1", "S"),
        ],
    };
    store.persist_checkpoint(&bundle).unwrap();
    store
}

#[test]
fn all_transactions_in_both_directions() {
    let store = populated_store();
    let up = store.get_all_transaction_digest_page(None, 100, false);
    let down = store.get_all_transaction_digest_page(None, 100, true);
    assert_eq!(up, texts(&["T0", "T1", "T2", "T3", "T4", "T5"]));
    assert_eq!(down, texts(&["T5", "T4", "T3", "T2", "T1", "T0"]));
}

#[test]
fn every_listing_reverses_exactly_when_the_direction_flips() {
    let store = populated_store();
    let reversed = |mut v: Vec<String>| {
        v.reverse();
        v
    };
    assert_eq!(
        store.get_transaction_digest_page_by_sender_address("A".to_string(), None, 6, true),
        reversed(store.get_transaction_digest_page_by_sender_address("A".to_string(), None, 6, false))
    );
    assert_eq!(
        store.get_transaction_digest_page_by_mutated_object("X".to_string(), None, 6, true),
        reversed(store.get_transaction_digest_page_by_mutated_object("X".to_string(), None, 6, false))
    );
    assert_eq!(
        store.get_transaction_digest_page_by_recipient_address("R".to_string(), None, 6, true),
        reversed(store.get_transaction_digest_page_by_recipient_address(
            "R".to_string(),
            None,
            6,
            false
        ))
    );
    assert_eq!(
        store.get_transaction_digest_page_by_move_call("P".to_string(), None, None, None, 6, true),
        reversed(store.get_transaction_digest_page_by_move_call(
            "P".to_string(),
            None,
            None,
            None,
            6,
            false
        ))
    );
}

#[test]
fn listing_by_sender() {
    let store = populated_store();
    assert_eq!(
        store.get_transaction_digest_page_by_sender_address("A".to_string(), None, 10, false),
        texts(&["T0", "T2", "T3", "T5"])
    );
    assert_eq!(
        store.get_transaction_digest_page_by_sender_address("B".to_string(), None, 10, true),
        texts(&["T4", "T1"])
    );
}

#[test]
fn listing_by_mutated_object() {
    let store = populated_store();
    assert_eq!(
        store.get_transaction_digest_page_by_mutated_object("X".to_string(), None, 10, false),
        texts(&["T0", "T2", "T5"])
    );
    assert_eq!(
        store.get_transaction_digest_page_by_mutated_object("Y".to_string(), None, 10, true),
        texts(&["T2", "T1"])
    );
}

#[test]
fn limit_is_a_hard_upper_bound() {
    let store = populated_store();
    assert_eq!(store.get_all_transaction_digest_page(None, 2, false), texts(&["T0", "T1"]));
    assert_eq!(store.get_all_transaction_digest_page(None, 2, true), texts(&["T5", "T4"]));
    assert_eq!(store.get_all_transaction_digest_page(None, 6, false).len(), 6);
    assert_eq!(store.get_all_transaction_digest_page(None, 7, false).len(), 6);
    assert_eq!(store.get_all_transaction_digest_page(None, 0, false), Vec::<String>::new());
    assert_eq!(
        store.get_transaction_digest_page_by_sender_address("A".to_string(), None, 3, true),
        texts(&["T5", "T3", "T2"])
    );
}

#[test]
fn cursor_is_inclusive_in_both_directions() {
    let store = populated_store();
    assert_eq!(
        store.get_all_transaction_digest_page(Some(2), 10, false),
        texts(&["T2", "T3", "T4", "T5"])
    );
    assert_eq!(store.get_all_transaction_digest_page(Some(2), 10, true), texts(&["T2", "T1", "T0"]));
    assert_eq!(
        store.get_transaction_digest_page_by_sender_address("A".to_string(), Some(3), 10, false),
        texts(&["T3", "T5"])
    );
    assert_eq!(
        store.get_transaction_digest_page_by_sender_address("A".to_string(), Some(4), 10, true),
        texts(&["T3", "T2", "T0"])
    );
    assert_eq!(
        store.get_transaction_digest_page_by_mutated_object("X".to_string(), Some(1), 10, false),
        texts(&["T2", "T5"])
    );
}

#[test]
fn continuing_from_the_last_row_repeats_it_first() {
    let store = populated_store();
    let first = store.get_all_transaction_digest_page(None, 3, false);
    assert_eq!(first, texts(&["T0", "T1", "T2"]));
    let last = first.last().unwrap().clone();
    let cursor = store.get_transaction_sequence_by_digest(Some(last.clone()), false);
    assert_eq!(cursor, Some(2));
    let next = store.get_all_transaction_digest_page(cursor, 3, false);
    assert_eq!(next, texts(&["T2", "T3", "T4"]));
    assert_eq!(next[0], last);

    let down = store.get_transaction_digest_page_by_sender_address("A".to_string(), None, 2, true);
    assert_eq!(down, texts(&["T5", "T3"]));
    let cursor = store.get_transaction_sequence_by_digest(Some("T3".to_string()), true);
    let next = store.get_transaction_digest_page_by_sender_address("A".to_string(), cursor, 2, true);
    assert_eq!(next, texts(&["T3", "T2"]));
}

#[test]
fn continuing_a_recipient_listing_repeats_the_last_digest() {
    let store = populated_store();
    // Rows of R: 0 (T0), 1 (T1), 3 (T0), 4 (T2); highest per digest: T1@1, T0@3, T2@4.
    let first = store.get_transaction_digest_page_by_recipient_address("R".to_string(), None, 2, false);
    assert_eq!(first, texts(&["T1", "T0"]));
    let next = store.get_transaction_digest_page_by_recipient_address(
        "R".to_string(),
        Some(3),
        2,
        false,
    );
    assert_eq!(next, texts(&["T0", "T2"]));
    let down = store.get_transaction_digest_page_by_recipient_address("R".to_string(), None, 2, true);
    assert_eq!(down, texts(&["T2", "T0"]));
    let next = store.get_transaction_digest_page_by_recipient_address("R".to_string(), Some(3), 2, true);
    assert_eq!(next, texts(&["T0", "T1"]));
}

#[test]
fn cursor_outside_the_rows() {
    let store = populated_store();
    assert_eq!(store.get_all_transaction_digest_page(Some(6), 10, false), Vec::<String>::new());
    assert_eq!(store.get_all_transaction_digest_page(Some(-1), 10, true), Vec::<String>::new());
    assert_eq!(store.get_all_transaction_digest_page(Some(-5), 10, false).len(), 6);
    assert_eq!(store.get_all_transaction_digest_page(Some(i64::MAX), 10, true).len(), 6);
    assert_eq!(store.get_all_transaction_digest_page(Some(i64::MIN), 10, true), Vec::<String>::new());
}

#[test]
fn recipient_listing_has_one_row_per_digest() {
    let store = populated_store();
    assert_eq!(
        store.get_transaction_digest_page_by_recipient_address("R".to_string(), None, 10, false),
        texts(&["T1", "T0", "T2"])
    );
    assert_eq!(
        store.get_transaction_digest_page_by_recipient_address("S".to_string(), None, 10, true),
        texts(&["T1", "T0"])
    );
    // Going down from row 2 only rows 0 and 1 of R are within the cursor.
    assert_eq!(
        store.get_transaction_digest_page_by_recipient_address("R".to_string(), Some(2), 10, true),
        texts(&["T1", "T0"])
    );
}

#[test]
fn move_call_listing_filters_by_package_module_and_function() {
    let store = populated_store();
    // Calls into P: 0 (T0), 1 (T1), 2 (T0), 4 (T1), 5 (T3).
    assert_eq!(
        store.get_transaction_digest_page_by_move_call("P".to_string(), None, None, None, 10, false),
        texts(&["T0", "T1", "T3"])
    );
    assert_eq!(
        store.get_transaction_digest_page_by_move_call(
            "P".to_string(),
            Some("m1".to_string()),
            None,
            None,
            10,
            false
        ),
        texts(&["T0", "T1"])
    );
    assert_eq!(
        store.get_transaction_digest_page_by_move_call(
            "P".to_string(),
            None,
            Some("f".to_string()),
            None,
            10,
            true
        ),
        texts(&["T1", "T0"])
    );
    assert_eq!(
        store.get_transaction_digest_page_by_move_call(
            "P".to_string(),
            Some("m2".to_string()),
            Some("g".to_string()),
            None,
            10,
            false
        ),
        texts(&["T3"])
    );
    assert_eq!(
        store.get_transaction_digest_page_by_move_call("Q".to_string(), None, None, Some(4), 10, false),
        Vec::<String>::new()
    );
    assert_eq!(
        store.get_transaction_digest_page_by_move_call("P".to_string(), None, None, Some(2), 1, false),
        texts(&["T0"])
    );
}

#[test]
fn cursor_admits_ids_on_its_side() {
    assert!(admits(None, false, -7));
    assert!(admits(None, true, 7));
    assert!(admits(Some(5), false, 5));
    assert!(admits(Some(5), false, 6));
    assert!(!admits(Some(5), false, 4));
    assert!(admits(Some(5), true, 5));
    assert!(admits(Some(5), true, 4));
    assert!(!admits(Some(5), true, 6));
}

#[test]
fn paging_steps_on_plain_entries() {
    let entries = vec![entry(1, "a"), entry(2, "b"), entry(4, "a"), entry(7, "c"), entry(9, "b")];
    assert_eq!(bound(&entries, None, false), entries);
    assert_eq!(bound(&entries, Some(4), false), vec![entry(4, "a"), entry(7, "c"), entry(9, "b")]);
    assert_eq!(bound(&entries, Some(4), true), vec![entry(1, "a"), entry(2, "b"), entry(4, "a")]);
    assert_eq!(bound(&entries, Some(3), true), vec![entry(1, "a"), entry(2, "b")]);
    assert_eq!(keep_latest(&entries), vec![entry(4, "a"), entry(7, "c"), entry(9, "b")]);
    assert!(!latest_at(&entries, 0));
    assert!(latest_at(&entries, 2));
    assert!(latest_at(&entries, 3));
    assert_eq!(cut(&entries, 2, false), texts(&["a", "b"]));
    assert_eq!(cut(&entries, 2, true), texts(&["b", "c"]));
    assert_eq!(cut(&entries, 9, true), texts(&["b", "c", "a", "b", "a"]));
    assert_eq!(page_of(&entries, true, Some(7), 5, true), texts(&["c", "a", "b"]));
    assert_eq!(page_of(&entries, true, Some(2), 5, false), texts(&["a", "c", "b"]));
    assert_eq!(page_of(&entries, false, Some(2), 2, false), texts(&["b", "a"]));
    assert_eq!(page_of(&Vec::new(), true, None, 5, false), Vec::<String>::new());
}
