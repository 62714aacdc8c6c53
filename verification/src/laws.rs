//! Laws of the store, stated over its mathematical value.

use crate::errors::WriteFailure;
use crate::filters::{lemma_filter_keeps_order, lemma_filter_members};
use crate::paging::{
    arranged, ascending, descending_ids, lemma_arranged_in_order, lemma_cursor_resumes,
    lemma_directions_mirror, page_entries,
};
use crate::queries::{
    lemma_move_call_candidates_ascending, lemma_recipient_candidates_ascending,
    lemma_transaction_candidates_ascending, move_call_candidates, recipient_candidates,
    transaction_candidates, transaction_entry, transaction_matches, MoveCallFilterView,
    RecipientFilterView, TransactionFilterView,
};
use crate::rows::{TemporaryCheckpointStoreView, TransactionView};
use crate::store::{first_row_id, StoreView};
use crate::tables::{
    apply_changes, deleted_names, deleted_twice, group_names, has_address, has_checkpoint,
    has_package, lemma_groups_never_collide, lemma_known_addresses_are_skipped,
    lemma_known_packages_are_skipped, lemma_last_deletion_decides, lemma_last_mutation_decides,
    mutated_twice, reflects_deletion,
};
use vstd::prelude::*;

verus! {

/// A bundle that was written is refused when it is handed in again, so that
/// nothing of it is ever stored twice.
pub proof fn lemma_written_bundle_is_refused_again(
    store: StoreView,
    delta: TemporaryCheckpointStoreView,
)
    requires
        store.persist_failure(delta) is None,
    ensures
        store.persisted(delta).persist_failure(delta) == Some(WriteFailure::DuplicateCheckpoint),
{
    let after = store.persisted(delta);
    assert(after.checkpoints[store.checkpoints.len() as int] == delta.checkpoint);
    assert(has_checkpoint(after.checkpoints, delta.checkpoint.sequence_number));
}

/// A bundle that is refused stays refused for the same reason as long as the
/// store does not change: trying again is safe and brings nothing new.
pub proof fn lemma_refusal_repeats(store: StoreView, delta: TemporaryCheckpointStoreView)
    ensures
        store.persist_failure(delta) is Some ==> store.persist_outcome(delta) == store,
        store.persist_outcome(delta).persist_failure(delta) is Some,
{
    if store.persist_failure(delta) is None {
        lemma_written_bundle_is_refused_again(store, delta);
    }
}

/// A bundle whose batches each name no object twice is never refused for
/// changing a row twice, even where several of its groups change the same
/// object; and where group `g` is the last to name an object and mutates it,
/// the object's stored row is the one that group handed in.
pub proof fn lemma_persist_keeps_last_mutation(
    store: StoreView,
    delta: TemporaryCheckpointStoreView,
    g: int,
    k: int,
)
    requires
        forall|h: int|
            0 <= h < delta.objects_changes.len() ==> !mutated_twice(
                (#[trigger] delta.objects_changes[h]).mutated_objects,
            ) && !deleted_twice(delta.objects_changes[h].deleted_objects),
        0 <= g < delta.objects_changes.len(),
        0 <= k < delta.objects_changes[g].mutated_objects.len(),
        !deleted_names(
            delta.objects_changes[g].deleted_objects,
            delta.objects_changes[g].mutated_objects[k].object_id,
        ),
        forall|h: int|
            g < h < delta.objects_changes.len() ==> !group_names(
                #[trigger] delta.objects_changes[h],
                delta.objects_changes[g].mutated_objects[k].object_id,
            ),
    ensures
        store.persist_failure(delta) != Some(WriteFailure::ObjectAffectedTwice),
        store.persisted(delta).objects.contains(delta.objects_changes[g].mutated_objects[k]),
{
    lemma_groups_never_collide(delta.objects_changes);
    lemma_last_mutation_decides(store.objects, delta.objects_changes, g, k);
}

/// Where group `g` of a bundle is the last to name an object and deletes it,
/// the object's stored row shows that deletion.
pub proof fn lemma_persist_keeps_last_deletion(
    store: StoreView,
    delta: TemporaryCheckpointStoreView,
    g: int,
    k: int,
)
    requires
        forall|h: int|
            0 <= h < delta.objects_changes.len() ==> !mutated_twice(
                (#[trigger] delta.objects_changes[h]).mutated_objects,
            ) && !deleted_twice(delta.objects_changes[h].deleted_objects),
        0 <= g < delta.objects_changes.len(),
        0 <= k < delta.objects_changes[g].deleted_objects.len(),
        forall|h: int|
            g < h < delta.objects_changes.len() ==> !group_names(
                #[trigger] delta.objects_changes[h],
                delta.objects_changes[g].deleted_objects[k].object_id,
            ),
    ensures
        store.persist_failure(delta) != Some(WriteFailure::ObjectAffectedTwice),
        exists|i: int|
            0 <= i < store.persisted(delta).objects.len() && reflects_deletion(
                #[trigger] store.persisted(delta).objects[i],
                delta.objects_changes[g].deleted_objects[k],
            ),
{
    lemma_groups_never_collide(delta.objects_changes);
    lemma_last_deletion_decides(store.objects, delta.objects_changes, g, k);
    let after = apply_changes(store.objects, delta.objects_changes);
    let i = choose|i: int|
        0 <= i < after.len() && reflects_deletion(
            #[trigger] after[i],
            delta.objects_changes[g].deleted_objects[k],
        );
    assert(store.persisted(delta).objects[i] == after[i]);
}

/// A bundle whose addresses are all known leaves the address table as it
/// was, and none of its addresses can make the write fail.
pub proof fn lemma_persist_skips_known_addresses(
    store: StoreView,
    delta: TemporaryCheckpointStoreView,
)
    requires
        forall|k: int|
            0 <= k < delta.addresses.len() ==> has_address(
                store.addresses,
                (#[trigger] delta.addresses[k]).account_address,
            ),
    ensures
        store.persisted(delta).addresses == store.addresses,
{
    lemma_known_addresses_are_skipped(store.addresses, delta.addresses);
}

/// A bundle whose package versions are all known leaves the package table as
/// it was.
pub proof fn lemma_persist_skips_known_packages(
    store: StoreView,
    delta: TemporaryCheckpointStoreView,
)
    requires
        forall|k: int|
            0 <= k < delta.packages.len() ==> has_package(
                store.packages,
                (#[trigger] delta.packages[k]).package_id,
                delta.packages[k].version,
            ),
    ensures
        store.persisted(delta).packages == store.packages,
{
    lemma_known_packages_are_skipped(store.packages, delta.packages);
}

/// Whether a write fails depends on neither the addresses nor the packages
/// of the bundle: handing in known ones raises no error.
pub proof fn lemma_addresses_and_packages_never_fail(
    store: StoreView,
    delta: TemporaryCheckpointStoreView,
    other: TemporaryCheckpointStoreView,
)
    requires
        other == (TemporaryCheckpointStoreView {
            addresses: other.addresses,
            packages: other.packages,
            ..delta
        }),
    ensures
        store.persist_failure(other) == store.persist_failure(delta),
{
}

/// Listing transactions upwards and downwards from no cursor, with a limit
/// that covers every match, gives the same digests in opposite orders.
pub proof fn lemma_transaction_pages_mirror(
    store: StoreView,
    filter: TransactionFilterView,
    limit: nat,
)
    requires
        limit >= arranged(transaction_candidates(store.transactions, filter), false, None, false).len(),
    ensures
        store.transaction_page(filter, None, limit, true) == store.transaction_page(
            filter,
            None,
            limit,
            false,
        ).reverse(),
{
    lemma_directions_mirror(transaction_candidates(store.transactions, filter), false, limit);
}

/// Listing by function call upwards and downwards from no cursor, with a
/// limit that covers every match, gives the same digests in opposite orders.
pub proof fn lemma_move_call_pages_mirror(store: StoreView, filter: MoveCallFilterView, limit: nat)
    requires
        limit >= arranged(move_call_candidates(store.move_calls, filter), true, None, false).len(),
    ensures
        store.move_call_page(filter, None, limit, true) == store.move_call_page(
            filter,
            None,
            limit,
            false,
        ).reverse(),
{
    lemma_directions_mirror(move_call_candidates(store.move_calls, filter), true, limit);
}

/// Listing by recipient upwards and downwards from no cursor, with a limit
/// that covers every match, gives the same digests in opposite orders.
pub proof fn lemma_recipient_pages_mirror(store: StoreView, filter: RecipientFilterView, limit: nat)
    requires
        limit >= arranged(recipient_candidates(store.recipients, filter), true, None, false).len(),
    ensures
        store.recipient_page(filter, None, limit, true) == store.recipient_page(
            filter,
            None,
            limit,
            false,
        ).reverse(),
{
    lemma_directions_mirror(recipient_candidates(store.recipients, filter), true, limit);
}

/// A listing of transactions that starts at the row id behind a digest it
/// returned before, in the same direction, returns that digest first.
pub proof fn lemma_transaction_cursor_resumes(
    store: StoreView,
    filter: TransactionFilterView,
    cursor: Option<i64>,
    limit: nat,
    descending: bool,
    k: int,
    next_limit: nat,
)
    requires
        store.wf(),
        0 <= k < store.transaction_page(filter, cursor, limit, descending).len(),
        next_limit > 0,
    ensures
        ({
            let candidates = transaction_candidates(store.transactions, filter);
            let returned = page_entries(candidates, false, cursor, limit, descending)[k];
            let next = store.transaction_page(filter, Some(returned.id), next_limit, descending);
            &&& store.transaction_page(filter, cursor, limit, descending)[k] == returned.digest
            &&& next.len() > 0
            &&& next[0] == returned.digest
        }),
{
    let candidates = transaction_candidates(store.transactions, filter);
    lemma_transaction_candidates_ascending(store.transactions, filter);
    lemma_cursor_resumes(candidates, false, cursor, limit, descending, k, next_limit);
}

/// A listing by function call that starts at the row id behind a digest it
/// returned before, in the same direction, returns that digest first.
pub proof fn lemma_move_call_cursor_resumes(
    store: StoreView,
    filter: MoveCallFilterView,
    cursor: Option<i64>,
    limit: nat,
    descending: bool,
    k: int,
    next_limit: nat,
)
    requires
        store.wf(),
        0 <= k < store.move_call_page(filter, cursor, limit, descending).len(),
        next_limit > 0,
    ensures
        ({
            let candidates = move_call_candidates(store.move_calls, filter);
            let returned = page_entries(candidates, true, cursor, limit, descending)[k];
            let next = store.move_call_page(filter, Some(returned.id), next_limit, descending);
            &&& store.move_call_page(filter, cursor, limit, descending)[k] == returned.digest
            &&& next.len() > 0
            &&& next[0] == returned.digest
        }),
{
    let candidates = move_call_candidates(store.move_calls, filter);
    lemma_move_call_candidates_ascending(store.move_calls, filter);
    lemma_cursor_resumes(candidates, true, cursor, limit, descending, k, next_limit);
}

/// A listing by recipient that starts at the row id behind a digest it
/// returned before, in the same direction, returns that digest first.
pub proof fn lemma_recipient_cursor_resumes(
    store: StoreView,
    filter: RecipientFilterView,
    cursor: Option<i64>,
    limit: nat,
    descending: bool,
    k: int,
    next_limit: nat,
)
    requires
        store.wf(),
        0 <= k < store.recipient_page(filter, cursor, limit, descending).len(),
        next_limit > 0,
    ensures
        ({
            let candidates = recipient_candidates(store.recipients, filter);
            let returned = page_entries(candidates, true, cursor, limit, descending)[k];
            let next = store.recipient_page(filter, Some(returned.id), next_limit, descending);
            &&& store.recipient_page(filter, cursor, limit, descending)[k] == returned.digest
            &&& next.len() > 0
            &&& next[0] == returned.digest
        }),
{
    let candidates = recipient_candidates(store.recipients, filter);
    lemma_recipient_candidates_ascending(store.recipients, filter);
    lemma_cursor_resumes(candidates, true, cursor, limit, descending, k, next_limit);
}

/// The entries behind a page of transactions come in the order of their row
/// ids: rising when listing upwards, falling when listing downwards.
pub proof fn lemma_transaction_pages_in_order(
    store: StoreView,
    filter: TransactionFilterView,
    cursor: Option<i64>,
    descending: bool,
)
    requires
        store.wf(),
    ensures
        descending ==> descending_ids(
            arranged(transaction_candidates(store.transactions, filter), false, cursor, descending),
        ),
        !descending ==> ascending(
            arranged(transaction_candidates(store.transactions, filter), false, cursor, descending),
        ),
{
    lemma_transaction_candidates_ascending(store.transactions, filter);
    lemma_arranged_in_order(
        transaction_candidates(store.transactions, filter),
        false,
        cursor,
        descending,
    );
}

/// The digest of a listed transaction names its row: looking the digest up
/// gives the row id behind the listed entry, from either end.
pub proof fn lemma_transaction_digest_names_its_row(
    store: StoreView,
    filter: TransactionFilterView,
    k: int,
    descending: bool,
)
    requires
        store.wf(),
        0 <= k < transaction_candidates(store.transactions, filter).len(),
    ensures
        first_row_id(
            transaction_candidates(
                store.transactions,
                TransactionFilterView::Digest(
                    transaction_candidates(store.transactions, filter)[k].digest,
                ),
            ),
            descending,
        ) == Some(transaction_candidates(store.transactions, filter)[k].id),
{
    let table = store.transactions;
    let listed = |row: TransactionView| transaction_matches(filter, row);
    let entry = transaction_candidates(table, filter)[k];
    let row = table.filter(listed)[k];
    assert(transaction_entry(row) == entry);
    lemma_filter_members(table, listed);
    assert(table.filter(listed).contains(row));
    assert(table.contains(row));
    let at = choose|i: int| 0 <= i < table.len() && table[i] == row;

    let by_digest = TransactionFilterView::Digest(entry.digest);
    let named = |other: TransactionView| transaction_matches(by_digest, other);
    let found = table.filter(named);
    lemma_filter_members(table, named);
    assert(found.contains(row));
    assert forall|i: int| 0 <= i < found.len() implies #[trigger] found[i] == row by {
        assert(found.contains(found[i]));
        assert(table.contains(found[i]));
        let j = choose|j: int| 0 <= j < table.len() && table[j] == found[i];
        if j < at {
            assert(table[j].transaction_digest != table[at].transaction_digest);
        } else if at < j {
            assert(table[at].transaction_digest != table[j].transaction_digest);
        }
    }
    let key = |other: TransactionView| other.id as int;
    assert forall|i: int, j: int| 0 <= i < j < table.len() implies key(#[trigger] table[i]) < key(
        #[trigger] table[j],
    ) by {
        assert(table[i].id == i && table[j].id == j);
    }
    lemma_filter_keeps_order(table, named, key);
    if found.len() > 1 {
        assert(key(found[0]) < key(found[1]));
    }
    assert(found.len() == 1);
    let candidates = transaction_candidates(table, by_digest);
    assert(candidates.len() == 1);
    assert(candidates[0] == entry);
}

} // verus!
