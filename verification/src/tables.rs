//! What each table of the store does with new rows: plain appends, appends
//! that number the rows, inserts that skip known keys, and inserts that
//! overwrite the row of a known key.

use crate::rows::{
    Address, AddressView, Checkpoint, CheckpointView, DeletedObject, DeletedObjectView, Event,
    MoveCall, MoveCallView, NewMoveCall, NewMoveCallView, NewRecipient,
    NewRecipientView, NewTransaction, NewTransactionView, Object, ObjectView, Package,
    PackageView, Recipient, RecipientView, Transaction, TransactionObjectChanges,
    TransactionObjectChangesView, TransactionView,
};
use crate::views::{clone_texts, lemma_take_all, lemma_take_step, lemma_views_push, views, Text};
use vstd::prelude::*;

verus! {

// ---------------------------------------------------------------------------
// Checkpoints
// ---------------------------------------------------------------------------

/// Whether a checkpoint with this sequence number is stored.
pub open spec fn has_checkpoint(table: Seq<CheckpointView>, sequence_number: i64) -> bool {
    exists|i: int| 0 <= i < table.len() && (#[trigger] table[i]).sequence_number == sequence_number
}

/// Sequence numbers are at least zero and no two rows share one.
pub open spec fn checkpoints_wf(table: Seq<CheckpointView>) -> bool {
    &&& forall|i: int| 0 <= i < table.len() ==> (#[trigger] table[i]).sequence_number >= 0
    &&& forall|i: int, j: int|
        0 <= i < j < table.len() ==> (#[trigger] table[i]).sequence_number != (
        #[trigger] table[j]).sequence_number
}

/// Whether a checkpoint with this sequence number is stored.
pub fn contains_checkpoint(table: &Vec<Checkpoint>, sequence_number: i64) -> (found: bool)
    ensures
        found == has_checkpoint(views(table@), sequence_number),
{
    let mut i: usize = 0;
    while i < table.len()
        invariant
            i <= table.len(),
            forall|k: int| 0 <= k < i ==> (#[trigger] views(table@)[k]).sequence_number
                != sequence_number,
        decreases table.len() - i,
    {
        if table[i].sequence_number == sequence_number {
            assert(views(table@)[i as int].sequence_number == sequence_number);
            return true;
        }
        i = i + 1;
    }
    false
}

// ---------------------------------------------------------------------------
// Transactions
// ---------------------------------------------------------------------------

/// Whether a transaction with this digest is stored.
pub open spec fn has_transaction(table: Seq<TransactionView>, digest: Text) -> bool {
    exists|i: int| 0 <= i < table.len() && (#[trigger] table[i]).transaction_digest == digest
}

/// Whether one of the first `k` new transactions has this digest.
pub open spec fn digest_among_first(new: Seq<NewTransactionView>, k: int, digest: Text) -> bool {
    exists|j: int| 0 <= j < k && j < new.len() && (#[trigger] new[j]).transaction_digest == digest
}

/// Whether adding `new` to `table` would store some digest twice.
pub open spec fn duplicate_transaction(
    table: Seq<TransactionView>,
    new: Seq<NewTransactionView>,
) -> bool {
    exists|k: int|
        0 <= k < new.len() && (has_transaction(table, (#[trigger] new[k]).transaction_digest)
            || digest_among_first(new, k, new[k].transaction_digest))
}

/// The stored form of a new transaction.
pub open spec fn numbered_transaction(row: NewTransactionView, id: i64) -> TransactionView {
    TransactionView {
        id,
        transaction_digest: row.transaction_digest,
        sender: row.sender,
        mutated: row.mutated,
        checkpoint_sequence_number: row.checkpoint_sequence_number,
    }
}

/// `table` followed by `new`, each new row numbered with its position.
pub open spec fn append_transactions(
    table: Seq<TransactionView>,
    new: Seq<NewTransactionView>,
) -> Seq<TransactionView> {
    table + Seq::new(new.len(), |k: int| numbered_transaction(new[k], (table.len() + k) as i64))
}

/// Each row's id is its position, and no two rows share a digest.
pub open spec fn transactions_wf(table: Seq<TransactionView>) -> bool {
    &&& table.len() <= i64::MAX
    &&& forall|i: int| 0 <= i < table.len() ==> (#[trigger] table[i]).id == i
    &&& forall|i: int, j: int|
        0 <= i < j < table.len() ==> (#[trigger] table[i]).transaction_digest != (
        #[trigger] table[j]).transaction_digest
}

/// Appending transactions with fresh digests keeps the table well formed.
pub proof fn lemma_append_transactions_wf(
    table: Seq<TransactionView>,
    new: Seq<NewTransactionView>,
)
    requires
        transactions_wf(table),
        table.len() + new.len() <= i64::MAX,
        !duplicate_transaction(table, new),
    ensures
        transactions_wf(append_transactions(table, new)),
{
    let all = append_transactions(table, new);
    assert forall|i: int, j: int| 0 <= i < j < all.len() implies (#[trigger] all[i]).transaction_digest
        != (#[trigger] all[j]).transaction_digest by {
        if j >= table.len() {
            let k = j - table.len();
            assert(all[j].transaction_digest == new[k].transaction_digest);
            if i < table.len() {
                assert(all[i] == table[i]);
                if all[i].transaction_digest == all[j].transaction_digest {
                    assert(has_transaction(table, new[k].transaction_digest));
                }
            } else {
                let h = i - table.len();
                assert(all[i].transaction_digest == new[h].transaction_digest);
                if all[i].transaction_digest == all[j].transaction_digest {
                    assert(digest_among_first(new, k, new[k].transaction_digest));
                }
            }
        }
    }
}

/// Whether a transaction with this digest is stored.
pub fn contains_transaction(table: &Vec<Transaction>, digest: &String) -> (found: bool)
    ensures
        found == has_transaction(views(table@), digest@),
{
    let mut i: usize = 0;
    while i < table.len()
        invariant
            i <= table.len(),
            forall|k: int| 0 <= k < i ==> (#[trigger] views(table@)[k]).transaction_digest
                != digest@,
        decreases table.len() - i,
    {
        if table[i].transaction_digest == *digest {
            assert(views(table@)[i as int].transaction_digest == digest@);
            return true;
        }
        i = i + 1;
    }
    false
}

/// Whether adding `new` to `table` would store some digest twice.
pub fn find_duplicate_transaction(table: &Vec<Transaction>, new: &Vec<NewTransaction>) -> (found:
    bool)
    ensures
        found == duplicate_transaction(views(table@), views(new@)),
{
    let mut k: usize = 0;
    while k < new.len()
        invariant
            k <= new.len(),
            forall|h: int|
                0 <= h < k ==> !has_transaction(
                    views(table@),
                    (#[trigger] views(new@)[h]).transaction_digest,
                ) && !digest_among_first(views(new@), h, views(new@)[h].transaction_digest),
        decreases new.len() - k,
    {
        if contains_transaction(table, &new[k].transaction_digest) {
            assert(has_transaction(views(table@), views(new@)[k as int].transaction_digest));
            return true;
        }
        let mut j: usize = 0;
        while j < k
            invariant
                j <= k,
                k < new.len(),
                forall|h: int|
                    0 <= h < j ==> (#[trigger] views(new@)[h]).transaction_digest != views(
                        new@,
                    )[k as int].transaction_digest,
            decreases k - j,
        {
            if new[j].transaction_digest == new[k].transaction_digest {
                assert(views(new@)[j as int].transaction_digest == views(
                    new@,
                )[k as int].transaction_digest);
                assert(digest_among_first(
                    views(new@),
                    k as int,
                    views(new@)[k as int].transaction_digest,
                ));
                return true;
            }
            j = j + 1;
        }
        k = k + 1;
    }
    false
}

/// Appends `new` to `table`, numbering each row with its position.
pub fn insert_transactions(table: &mut Vec<Transaction>, new: &Vec<NewTransaction>)
    requires
        old(table).len() + new.len() <= i64::MAX,
    ensures
        views(final(table)@) == append_transactions(views(old(table)@), views(new@)),
{
    let ghost before = views(table@);
    let base: usize = table.len();
    let mut k: usize = 0;
    while k < new.len()
        invariant
            k <= new.len(),
            base == before.len(),
            base + new.len() <= i64::MAX,
            table.len() == base + k,
            views(table@) == append_transactions(before, views(new@).take(k as int)),
        decreases new.len() - k,
    {
        let ghost earlier = table@;
        let row = Transaction {
            id: (base + k) as i64,
            transaction_digest: new[k].transaction_digest.clone(),
            sender: new[k].sender.clone(),
            mutated: clone_texts(&new[k].mutated),
            checkpoint_sequence_number: new[k].checkpoint_sequence_number,
        };
        table.push(row);
        proof {
            lemma_views_push(earlier, row);
            assert(row@ == numbered_transaction(views(new@)[k as int], (base + k) as i64));
            assert(views(table@) =~= append_transactions(before, views(new@).take(k + 1)));
        }
        k = k + 1;
    }
    proof {
        lemma_take_all(views(new@));
    }
}

// ---------------------------------------------------------------------------
// Events
// ---------------------------------------------------------------------------

/// Appends `new` to `table`.
pub fn insert_events(table: &mut Vec<Event>, new: &Vec<Event>)
    ensures
        views(final(table)@) == views(old(table)@) + views(new@),
{
    let ghost before = views(table@);
    let mut k: usize = 0;
    while k < new.len()
        invariant
            k <= new.len(),
            views(table@) == before + views(new@).take(k as int),
        decreases new.len() - k,
    {
        let ghost earlier = table@;
        let row = new[k].clone();
        table.push(row);
        proof {
            lemma_views_push(earlier, row);
            assert(views(table@) =~= before + views(new@).take(k + 1));
        }
        k = k + 1;
    }
    proof {
        lemma_take_all(views(new@));
    }
}

// ---------------------------------------------------------------------------
// Objects
// ---------------------------------------------------------------------------

/// Whether the table holds a row for this object.
pub open spec fn has_object(table: Seq<ObjectView>, object_id: Text) -> bool {
    exists|i: int| 0 <= i < table.len() && (#[trigger] table[i]).object_id == object_id
}

/// No two rows are about the same object.
pub open spec fn objects_wf(table: Seq<ObjectView>) -> bool {
    forall|i: int, j: int|
        0 <= i < j < table.len() ==> (#[trigger] table[i]).object_id != (
        #[trigger] table[j]).object_id
}

/// The row that a deletion leaves where one was stored: epoch, checkpoint,
/// version, previous transaction and status are the deletion's, digest and
/// owner stay.
pub open spec fn overwritten_by_deletion(stored: ObjectView, row: DeletedObjectView) -> ObjectView {
    ObjectView {
        epoch: row.epoch,
        checkpoint: row.checkpoint,
        object_id: stored.object_id,
        version: row.version,
        object_digest: stored.object_digest,
        owner_address: stored.owner_address,
        previous_transaction: row.previous_transaction,
        object_status: row.object_status,
    }
}

/// The row that a deletion leaves where none was stored: digest and owner are
/// empty.
pub open spec fn inserted_by_deletion(row: DeletedObjectView) -> ObjectView {
    ObjectView {
        epoch: row.epoch,
        checkpoint: row.checkpoint,
        object_id: row.object_id,
        version: row.version,
        object_digest: Seq::empty(),
        owner_address: Seq::empty(),
        previous_transaction: row.previous_transaction,
        object_status: row.object_status,
    }
}

/// The table after one mutated object is written: its row replaces the one
/// stored for the object, or is appended where none is stored.
pub open spec fn upsert_mutated(table: Seq<ObjectView>, row: ObjectView) -> Seq<ObjectView> {
    if has_object(table, row.object_id) {
        table.map_values(
            |stored: ObjectView|
                if stored.object_id == row.object_id {
                    row
                } else {
                    stored
                },
        )
    } else {
        table.push(row)
    }
}

/// The table after one deleted object is written.
pub open spec fn upsert_deleted(table: Seq<ObjectView>, row: DeletedObjectView) -> Seq<
    ObjectView,
> {
    if has_object(table, row.object_id) {
        table.map_values(
            |stored: ObjectView|
                if stored.object_id == row.object_id {
                    overwritten_by_deletion(stored, row)
                } else {
                    stored
                },
        )
    } else {
        table.push(inserted_by_deletion(row))
    }
}

/// The table after a batch of mutated objects is written, row by row.
pub open spec fn upsert_mutated_batch(table: Seq<ObjectView>, rows: Seq<ObjectView>) -> Seq<
    ObjectView,
>
    decreases rows.len(),
{
    if rows.len() == 0 {
        table
    } else {
        upsert_mutated(upsert_mutated_batch(table, rows.drop_last()), rows.last())
    }
}

/// The table after a batch of deleted objects is written, row by row.
pub open spec fn upsert_deleted_batch(table: Seq<ObjectView>, rows: Seq<DeletedObjectView>) -> Seq<
    ObjectView,
>
    decreases rows.len(),
{
    if rows.len() == 0 {
        table
    } else {
        upsert_deleted(upsert_deleted_batch(table, rows.drop_last()), rows.last())
    }
}

/// The table after the changes of one originating transaction are written:
/// first its mutated objects, then its deleted ones.
pub open spec fn apply_group(table: Seq<ObjectView>, group: TransactionObjectChangesView) -> Seq<
    ObjectView,
> {
    upsert_deleted_batch(upsert_mutated_batch(table, group.mutated_objects), group.deleted_objects)
}

/// The table after the groups are written one after the other.
pub open spec fn apply_changes(
    table: Seq<ObjectView>,
    groups: Seq<TransactionObjectChangesView>,
) -> Seq<ObjectView>
    decreases groups.len(),
{
    if groups.len() == 0 {
        table
    } else {
        apply_group(apply_changes(table, groups.drop_last()), groups.last())
    }
}

/// Whether a batch of mutated objects names some object twice.
pub open spec fn mutated_twice(rows: Seq<ObjectView>) -> bool {
    exists|i: int, j: int|
        0 <= i < j < rows.len() && (#[trigger] rows[i]).object_id == (#[trigger] rows[j]).object_id
}

/// Whether a batch of deleted objects names some object twice.
pub open spec fn deleted_twice(rows: Seq<DeletedObjectView>) -> bool {
    exists|i: int, j: int|
        0 <= i < j < rows.len() && (#[trigger] rows[i]).object_id == (#[trigger] rows[j]).object_id
}

/// Whether one of the groups holds a batch that names some object twice.
pub open spec fn affected_twice(groups: Seq<TransactionObjectChangesView>) -> bool {
    exists|g: int|
        0 <= g < groups.len() && (mutated_twice((#[trigger] groups[g]).mutated_objects)
            || deleted_twice(groups[g].deleted_objects))
}

/// Writing a mutated object keeps the table well formed.
pub proof fn lemma_upsert_mutated_wf(table: Seq<ObjectView>, row: ObjectView)
    requires
        objects_wf(table),
    ensures
        objects_wf(upsert_mutated(table, row)),
{
    let after = upsert_mutated(table, row);
    if has_object(table, row.object_id) {
        assert forall|i: int, j: int| 0 <= i < j < after.len() implies (#[trigger] after[i]).object_id
            != (#[trigger] after[j]).object_id by {
            assert(after[i].object_id == table[i].object_id);
            assert(after[j].object_id == table[j].object_id);
        }
    } else {
        assert forall|i: int, j: int| 0 <= i < j < after.len() implies (#[trigger] after[i]).object_id
            != (#[trigger] after[j]).object_id by {
            if j == table.len() {
                assert(after[i] == table[i]);
            } else {
                assert(after[i] == table[i] && after[j] == table[j]);
            }
        }
    }
}

/// Writing a deleted object keeps the table well formed.
pub proof fn lemma_upsert_deleted_wf(table: Seq<ObjectView>, row: DeletedObjectView)
    requires
        objects_wf(table),
    ensures
        objects_wf(upsert_deleted(table, row)),
{
    let after = upsert_deleted(table, row);
    if has_object(table, row.object_id) {
        assert forall|i: int, j: int| 0 <= i < j < after.len() implies (#[trigger] after[i]).object_id
            != (#[trigger] after[j]).object_id by {
            assert(after[i].object_id == table[i].object_id);
            assert(after[j].object_id == table[j].object_id);
        }
    } else {
        assert forall|i: int, j: int| 0 <= i < j < after.len() implies (#[trigger] after[i]).object_id
            != (#[trigger] after[j]).object_id by {
            if j == table.len() {
                assert(after[i] == table[i]);
            } else {
                assert(after[i] == table[i] && after[j] == table[j]);
            }
        }
    }
}

/// Writing a batch of mutated objects keeps the table well formed.
pub proof fn lemma_upsert_mutated_batch_wf(table: Seq<ObjectView>, rows: Seq<ObjectView>)
    requires
        objects_wf(table),
    ensures
        objects_wf(upsert_mutated_batch(table, rows)),
    decreases rows.len(),
{
    if rows.len() > 0 {
        lemma_upsert_mutated_batch_wf(table, rows.drop_last());
        lemma_upsert_mutated_wf(upsert_mutated_batch(table, rows.drop_last()), rows.last());
    }
}

/// Writing a batch of deleted objects keeps the table well formed.
pub proof fn lemma_upsert_deleted_batch_wf(table: Seq<ObjectView>, rows: Seq<DeletedObjectView>)
    requires
        objects_wf(table),
    ensures
        objects_wf(upsert_deleted_batch(table, rows)),
    decreases rows.len(),
{
    if rows.len() > 0 {
        lemma_upsert_deleted_batch_wf(table, rows.drop_last());
        lemma_upsert_deleted_wf(upsert_deleted_batch(table, rows.drop_last()), rows.last());
    }
}

/// Writing groups of changes keeps the table well formed.
pub proof fn lemma_apply_changes_wf(
    table: Seq<ObjectView>,
    groups: Seq<TransactionObjectChangesView>,
)
    requires
        objects_wf(table),
    ensures
        objects_wf(apply_changes(table, groups)),
    decreases groups.len(),
{
    if groups.len() > 0 {
        lemma_apply_changes_wf(table, groups.drop_last());
        let earlier = apply_changes(table, groups.drop_last());
        lemma_upsert_mutated_batch_wf(earlier, groups.last().mutated_objects);
        lemma_upsert_deleted_batch_wf(
            upsert_mutated_batch(earlier, groups.last().mutated_objects),
            groups.last().deleted_objects,
        );
    }
}

/// Whether a batch of mutated objects names some object twice.
pub fn names_mutated_twice(rows: &Vec<Object>) -> (found: bool)
    ensures
        found == mutated_twice(views(rows@)),
{
    let mut j: usize = 0;
    while j < rows.len()
        invariant
            j <= rows.len(),
            forall|a: int, b: int|
                0 <= a < b < j ==> (#[trigger] views(rows@)[a]).object_id != (#[trigger] views(
                    rows@,
                )[b]).object_id,
        decreases rows.len() - j,
    {
        let mut i: usize = 0;
        while i < j
            invariant
                i <= j,
                j < rows.len(),
                forall|a: int|
                    0 <= a < i ==> (#[trigger] views(rows@)[a]).object_id != views(
                        rows@,
                    )[j as int].object_id,
            decreases j - i,
        {
            if rows[i].object_id == rows[j].object_id {
                assert(views(rows@)[i as int].object_id == views(rows@)[j as int].object_id);
                return true;
            }
            i = i + 1;
        }
        j = j + 1;
    }
    false
}

/// Whether a batch of deleted objects names some object twice.
pub fn names_deleted_twice(rows: &Vec<DeletedObject>) -> (found: bool)
    ensures
        found == deleted_twice(views(rows@)),
{
    let mut j: usize = 0;
    while j < rows.len()
        invariant
            j <= rows.len(),
            forall|a: int, b: int|
                0 <= a < b < j ==> (#[trigger] views(rows@)[a]).object_id != (#[trigger] views(
                    rows@,
                )[b]).object_id,
        decreases rows.len() - j,
    {
        let mut i: usize = 0;
        while i < j
            invariant
                i <= j,
                j < rows.len(),
                forall|a: int|
                    0 <= a < i ==> (#[trigger] views(rows@)[a]).object_id != views(
                        rows@,
                    )[j as int].object_id,
            decreases j - i,
        {
            if rows[i].object_id == rows[j].object_id {
                assert(views(rows@)[i as int].object_id == views(rows@)[j as int].object_id);
                return true;
            }
            i = i + 1;
        }
        j = j + 1;
    }
    false
}

/// Whether one of the groups holds a batch that names some object twice.
pub fn find_affected_twice(groups: &Vec<TransactionObjectChanges>) -> (found: bool)
    ensures
        found == affected_twice(views(groups@)),
{
    let mut g: usize = 0;
    while g < groups.len()
        invariant
            g <= groups.len(),
            forall|h: int|
                0 <= h < g ==> !mutated_twice((#[trigger] views(groups@)[h]).mutated_objects)
                    && !deleted_twice(views(groups@)[h].deleted_objects),
        decreases groups.len() - g,
    {
        if names_mutated_twice(&groups[g].mutated_objects) {
            assert(mutated_twice(views(groups@)[g as int].mutated_objects));
            return true;
        }
        if names_deleted_twice(&groups[g].deleted_objects) {
            assert(deleted_twice(views(groups@)[g as int].deleted_objects));
            return true;
        }
        g = g + 1;
    }
    false
}

/// Writes one mutated object.
pub fn write_mutated(table: &mut Vec<Object>, row: &Object)
    ensures
        views(final(table)@) == upsert_mutated(views(old(table)@), row@),
{
    let ghost before = views(table@);
    let mut found = false;
    let mut i: usize = 0;
    while i < table.len()
        invariant
            i <= table.len(),
            table.len() == before.len(),
            found == exists|k: int| 0 <= k < i && (#[trigger] before[k]).object_id == row@.object_id,
            forall|k: int|
                0 <= k < i ==> views(table@)[k] == if (#[trigger] before[k]).object_id
                    == row@.object_id {
                    row@
                } else {
                    before[k]
                },
            forall|k: int| i <= k < table.len() ==> views(table@)[k] == #[trigger] before[k],
        decreases table.len() - i,
    {
        assert(views(table@)[i as int] == before[i as int]);
        if table[i].object_id == row.object_id {
            table.set(i, row.clone());
            found = true;
        }
        i = i + 1;
    }
    if found {
        assert(has_object(before, row@.object_id));
        assert(views(table@) =~= upsert_mutated(before, row@));
    } else {
        let ghost earlier = table@;
        assert(views(earlier) =~= before);
        let copy = row.clone();
        table.push(copy);
        proof {
            lemma_views_push(earlier, copy);
        }
    }
}

/// Writes one deleted object.
pub fn write_deleted(table: &mut Vec<Object>, row: &DeletedObject)
    ensures
        views(final(table)@) == upsert_deleted(views(old(table)@), row@),
{
    let ghost before = views(table@);
    let mut found = false;
    let mut i: usize = 0;
    while i < table.len()
        invariant
            i <= table.len(),
            table.len() == before.len(),
            found == exists|k: int| 0 <= k < i && (#[trigger] before[k]).object_id == row@.object_id,
            forall|k: int|
                0 <= k < i ==> views(table@)[k] == if (#[trigger] before[k]).object_id
                    == row@.object_id {
                    overwritten_by_deletion(before[k], row@)
                } else {
                    before[k]
                },
            forall|k: int| i <= k < table.len() ==> views(table@)[k] == #[trigger] before[k],
        decreases table.len() - i,
    {
        assert(views(table@)[i as int] == before[i as int]);
        if table[i].object_id == row.object_id {
            let replacement = Object {
                epoch: row.epoch,
                checkpoint: row.checkpoint,
                object_id: table[i].object_id.clone(),
                version: row.version,
                object_digest: table[i].object_digest.clone(),
                owner_address: table[i].owner_address.clone(),
                previous_transaction: row.previous_transaction.clone(),
                object_status: row.object_status,
            };
            table.set(i, replacement);
            found = true;
        }
        i = i + 1;
    }
    if found {
        assert(has_object(before, row@.object_id));
        assert(views(table@) =~= upsert_deleted(before, row@));
    } else {
        let ghost earlier = table@;
        assert(views(earlier) =~= before);
        let fresh = Object {
            epoch: row.epoch,
            checkpoint: row.checkpoint,
            object_id: row.object_id.clone(),
            version: row.version,
            object_digest: String::new(),
            owner_address: String::new(),
            previous_transaction: row.previous_transaction.clone(),
            object_status: row.object_status,
        };
        table.push(fresh);
        proof {
            lemma_views_push(earlier, fresh);
        }
    }
}

/// Writes the groups of object changes one after the other, each group's
/// mutated objects before its deleted ones.
pub fn write_changes(table: &mut Vec<Object>, groups: &Vec<TransactionObjectChanges>)
    ensures
        views(final(table)@) == apply_changes(views(old(table)@), views(groups@)),
{
    let ghost before = views(table@);
    let mut g: usize = 0;
    while g < groups.len()
        invariant
            g <= groups.len(),
            views(table@) == apply_changes(before, views(groups@).take(g as int)),
        decreases groups.len() - g,
    {
        let ghost start = views(table@);
        let group = &groups[g];
        let mut m: usize = 0;
        while m < group.mutated_objects.len()
            invariant
                m <= group.mutated_objects.len(),
                views(table@) == upsert_mutated_batch(
                    start,
                    views(group.mutated_objects@).take(m as int),
                ),
            decreases group.mutated_objects.len() - m,
        {
            write_mutated(table, &group.mutated_objects[m]);
            proof {
                lemma_take_step(views(group.mutated_objects@), m as int);
            }
            m = m + 1;
        }
        proof {
            lemma_take_all(views(group.mutated_objects@));
        }
        let ghost middle = views(table@);
        let mut d: usize = 0;
        while d < group.deleted_objects.len()
            invariant
                d <= group.deleted_objects.len(),
                views(table@) == upsert_deleted_batch(
                    middle,
                    views(group.deleted_objects@).take(d as int),
                ),
            decreases group.deleted_objects.len() - d,
        {
            write_deleted(table, &group.deleted_objects[d]);
            proof {
                lemma_take_step(views(group.deleted_objects@), d as int);
            }
            d = d + 1;
        }
        proof {
            lemma_take_all(views(group.deleted_objects@));
            lemma_take_step(views(groups@), g as int);
            assert(views(table@) == apply_group(start, views(groups@)[g as int]));
        }
        g = g + 1;
    }
    proof {
        lemma_take_all(views(groups@));
    }
}

// ---------------------------------------------------------------------------
// Addresses
// ---------------------------------------------------------------------------

/// Whether the address is known.
pub open spec fn has_address(table: Seq<AddressView>, account_address: Text) -> bool {
    exists|i: int| 0 <= i < table.len() && (#[trigger] table[i]).account_address == account_address
}

/// No two rows are about the same address.
pub open spec fn addresses_wf(table: Seq<AddressView>) -> bool {
    forall|i: int, j: int|
        0 <= i < j < table.len() ==> (#[trigger] table[i]).account_address != (
        #[trigger] table[j]).account_address
}

/// The table after one address is handed in: a known address changes nothing.
pub open spec fn insert_address(table: Seq<AddressView>, row: AddressView) -> Seq<AddressView> {
    if has_address(table, row.account_address) {
        table
    } else {
        table.push(row)
    }
}

/// The table after the addresses are handed in, one after the other.
pub open spec fn insert_addresses(table: Seq<AddressView>, rows: Seq<AddressView>) -> Seq<
    AddressView,
>
    decreases rows.len(),
{
    if rows.len() == 0 {
        table
    } else {
        insert_address(insert_addresses(table, rows.drop_last()), rows.last())
    }
}

/// Handing in addresses keeps the table well formed.
pub proof fn lemma_insert_addresses_wf(table: Seq<AddressView>, rows: Seq<AddressView>)
    requires
        addresses_wf(table),
    ensures
        addresses_wf(insert_addresses(table, rows)),
    decreases rows.len(),
{
    if rows.len() > 0 {
        lemma_insert_addresses_wf(table, rows.drop_last());
        let earlier = insert_addresses(table, rows.drop_last());
        let after = insert_address(earlier, rows.last());
        if !has_address(earlier, rows.last().account_address) {
            assert forall|i: int, j: int| 0 <= i < j < after.len() implies (
            #[trigger] after[i]).account_address != (#[trigger] after[j]).account_address by {
                if j == earlier.len() {
                    assert(after[i] == earlier[i]);
                } else {
                    assert(after[i] == earlier[i] && after[j] == earlier[j]);
                }
            }
        }
    }
}

/// Whether the address is known.
pub fn contains_address(table: &Vec<Address>, account_address: &String) -> (found: bool)
    ensures
        found == has_address(views(table@), account_address@),
{
    let mut i: usize = 0;
    while i < table.len()
        invariant
            i <= table.len(),
            forall|k: int| 0 <= k < i ==> (#[trigger] views(table@)[k]).account_address
                != account_address@,
        decreases table.len() - i,
    {
        if table[i].account_address == *account_address {
            assert(views(table@)[i as int].account_address == account_address@);
            return true;
        }
        i = i + 1;
    }
    false
}

/// Hands in addresses; those already known are skipped.
pub fn write_addresses(table: &mut Vec<Address>, rows: &Vec<Address>)
    ensures
        views(final(table)@) == insert_addresses(views(old(table)@), views(rows@)),
{
    let ghost before = views(table@);
    let mut k: usize = 0;
    while k < rows.len()
        invariant
            k <= rows.len(),
            views(table@) == insert_addresses(before, views(rows@).take(k as int)),
        decreases rows.len() - k,
    {
        if !contains_address(table, &rows[k].account_address) {
            let ghost earlier = table@;
            let copy = rows[k].clone();
            table.push(copy);
            proof {
                lemma_views_push(earlier, copy);
            }
        }
        proof {
            lemma_take_step(views(rows@), k as int);
        }
        k = k + 1;
    }
    proof {
        lemma_take_all(views(rows@));
    }
}

// ---------------------------------------------------------------------------
// Packages
// ---------------------------------------------------------------------------

/// Whether this version of the package is known.
pub open spec fn has_package(table: Seq<PackageView>, package_id: Text, version: i64) -> bool {
    exists|i: int|
        0 <= i < table.len() && (#[trigger] table[i]).package_id == package_id && table[i].version
            == version
}

/// No two rows are about the same version of the same package.
pub open spec fn packages_wf(table: Seq<PackageView>) -> bool {
    forall|i: int, j: int|
        0 <= i < j < table.len() ==> !((#[trigger] table[i]).package_id == (
        #[trigger] table[j]).package_id && table[i].version == table[j].version)
}

/// The table after one package version is handed in: a known one changes
/// nothing.
pub open spec fn insert_package(table: Seq<PackageView>, row: PackageView) -> Seq<PackageView> {
    if has_package(table, row.package_id, row.version) {
        table
    } else {
        table.push(row)
    }
}

/// The table after the package versions are handed in, one after the other.
pub open spec fn insert_packages(table: Seq<PackageView>, rows: Seq<PackageView>) -> Seq<
    PackageView,
>
    decreases rows.len(),
{
    if rows.len() == 0 {
        table
    } else {
        insert_package(insert_packages(table, rows.drop_last()), rows.last())
    }
}

/// Handing in package versions keeps the table well formed.
pub proof fn lemma_insert_packages_wf(table: Seq<PackageView>, rows: Seq<PackageView>)
    requires
        packages_wf(table),
    ensures
        packages_wf(insert_packages(table, rows)),
    decreases rows.len(),
{
    if rows.len() > 0 {
        lemma_insert_packages_wf(table, rows.drop_last());
        let earlier = insert_packages(table, rows.drop_last());
        let after = insert_package(earlier, rows.last());
        if !has_package(earlier, rows.last().package_id, rows.last().version) {
            assert forall|i: int, j: int| 0 <= i < j < after.len() implies !((
            #[trigger] after[i]).package_id == (#[trigger] after[j]).package_id
                && after[i].version == after[j].version) by {
                if j == earlier.len() {
                    assert(after[i] == earlier[i]);
                } else {
                    assert(after[i] == earlier[i] && after[j] == earlier[j]);
                }
            }
        }
    }
}

/// Whether this version of the package is known.
pub fn contains_package(table: &Vec<Package>, package_id: &String, version: i64) -> (found: bool)
    ensures
        found == has_package(views(table@), package_id@, version),
{
    let mut i: usize = 0;
    while i < table.len()
        invariant
            i <= table.len(),
            forall|k: int|
                0 <= k < i ==> !((#[trigger] views(table@)[k]).package_id == package_id@ && views(
                    table@,
                )[k].version == version),
        decreases table.len() - i,
    {
        if table[i].version == version && table[i].package_id == *package_id {
            assert(views(table@)[i as int].package_id == package_id@);
            return true;
        }
        i = i + 1;
    }
    false
}

/// Hands in package versions; those already known are skipped.
pub fn write_packages(table: &mut Vec<Package>, rows: &Vec<Package>)
    ensures
        views(final(table)@) == insert_packages(views(old(table)@), views(rows@)),
{
    let ghost before = views(table@);
    let mut k: usize = 0;
    while k < rows.len()
        invariant
            k <= rows.len(),
            views(table@) == insert_packages(before, views(rows@).take(k as int)),
        decreases rows.len() - k,
    {
        if !contains_package(table, &rows[k].package_id, rows[k].version) {
            let ghost earlier = table@;
            let copy = rows[k].clone();
            table.push(copy);
            proof {
                lemma_views_push(earlier, copy);
            }
        }
        proof {
            lemma_take_step(views(rows@), k as int);
        }
        k = k + 1;
    }
    proof {
        lemma_take_all(views(rows@));
    }
}

// ---------------------------------------------------------------------------
// Function calls
// ---------------------------------------------------------------------------

/// The stored form of a new function call.
pub open spec fn numbered_move_call(row: NewMoveCallView, id: i64) -> MoveCallView {
    MoveCallView {
        id,
        transaction_digest: row.transaction_digest,
        move_package: row.move_package,
        move_module: row.move_module,
        move_function: row.move_function,
    }
}

/// `table` followed by `new`, each new row numbered with its position.
pub open spec fn append_move_calls(table: Seq<MoveCallView>, new: Seq<NewMoveCallView>) -> Seq<
    MoveCallView,
> {
    table + Seq::new(new.len(), |k: int| numbered_move_call(new[k], (table.len() + k) as i64))
}

/// Each row's id is its position.
pub open spec fn move_calls_wf(table: Seq<MoveCallView>) -> bool {
    &&& table.len() <= i64::MAX
    &&& forall|i: int| 0 <= i < table.len() ==> (#[trigger] table[i]).id == i
}

/// Appends `new` to `table`, numbering each row with its position.
pub fn insert_move_calls(table: &mut Vec<MoveCall>, new: &Vec<NewMoveCall>)
    requires
        old(table).len() + new.len() <= i64::MAX,
    ensures
        views(final(table)@) == append_move_calls(views(old(table)@), views(new@)),
{
    let ghost before = views(table@);
    let base: usize = table.len();
    let mut k: usize = 0;
    while k < new.len()
        invariant
            k <= new.len(),
            base == before.len(),
            base + new.len() <= i64::MAX,
            table.len() == base + k,
            views(table@) == append_move_calls(before, views(new@).take(k as int)),
        decreases new.len() - k,
    {
        let ghost earlier = table@;
        let row = MoveCall {
            id: (base + k) as i64,
            transaction_digest: new[k].transaction_digest.clone(),
            move_package: new[k].move_package.clone(),
            move_module: new[k].move_module.clone(),
            move_function: new[k].move_function.clone(),
        };
        table.push(row);
        proof {
            lemma_views_push(earlier, row);
            assert(row@ == numbered_move_call(views(new@)[k as int], (base + k) as i64));
            assert(views(table@) =~= append_move_calls(before, views(new@).take(k + 1)));
        }
        k = k + 1;
    }
    proof {
        lemma_take_all(views(new@));
    }
}

// ---------------------------------------------------------------------------
// Recipients
// ---------------------------------------------------------------------------

/// The stored form of a new recipient.
pub open spec fn numbered_recipient(row: NewRecipientView, id: i64) -> RecipientView {
    RecipientView { id, transaction_digest: row.transaction_digest, recipient: row.recipient }
}

/// `table` followed by `new`, each new row numbered with its position.
pub open spec fn append_recipients(table: Seq<RecipientView>, new: Seq<NewRecipientView>) -> Seq<
    RecipientView,
> {
    table + Seq::new(new.len(), |k: int| numbered_recipient(new[k], (table.len() + k) as i64))
}

/// Each row's id is its position.
pub open spec fn recipients_wf(table: Seq<RecipientView>) -> bool {
    &&& table.len() <= i64::MAX
    &&& forall|i: int| 0 <= i < table.len() ==> (#[trigger] table[i]).id == i
}

/// Appends `new` to `table`, numbering each row with its position.
pub fn insert_recipients(table: &mut Vec<Recipient>, new: &Vec<NewRecipient>)
    requires
        old(table).len() + new.len() <= i64::MAX,
    ensures
        views(final(table)@) == append_recipients(views(old(table)@), views(new@)),
{
    let ghost before = views(table@);
    let base: usize = table.len();
    let mut k: usize = 0;
    while k < new.len()
        invariant
            k <= new.len(),
            base == before.len(),
            base + new.len() <= i64::MAX,
            table.len() == base + k,
            views(table@) == append_recipients(before, views(new@).take(k as int)),
        decreases new.len() - k,
    {
        let ghost earlier = table@;
        let row = Recipient {
            id: (base + k) as i64,
            transaction_digest: new[k].transaction_digest.clone(),
            recipient: new[k].recipient.clone(),
        };
        table.push(row);
        proof {
            lemma_views_push(earlier, row);
            assert(row@ == numbered_recipient(views(new@)[k as int], (base + k) as i64));
            assert(views(table@) =~= append_recipients(before, views(new@).take(k + 1)));
        }
        k = k + 1;
    }
    proof {
        lemma_take_all(views(new@));
    }
}

/// Whether a table of `stored` rows can number `added` more.
pub fn can_number(stored: usize, added: usize) -> (fits: bool)
    ensures
        fits == (stored + added <= i64::MAX),
{
    let total: u128 = stored as u128 + added as u128;
    total <= 0x7fff_ffff_ffff_ffffu128
}

// ---------------------------------------------------------------------------
// Laws of the inserts that skip known keys
// ---------------------------------------------------------------------------

/// Handing in addresses forgets none, and every address handed in is known
/// afterwards.
pub proof fn lemma_insert_addresses_known(table: Seq<AddressView>, rows: Seq<AddressView>)
    ensures
        forall|address: Text|
            has_address(table, address) ==> has_address(insert_addresses(table, rows), address),
        forall|k: int|
            0 <= k < rows.len() ==> has_address(
                insert_addresses(table, rows),
                (#[trigger] rows[k]).account_address,
            ),
        insert_addresses(table, rows).len() >= table.len(),
    decreases rows.len(),
{
    if rows.len() > 0 {
        let rest = rows.drop_last();
        lemma_insert_addresses_known(table, rest);
        let earlier = insert_addresses(table, rest);
        let after = insert_addresses(table, rows);
        assert forall|address: Text| has_address(earlier, address) implies has_address(
            after,
            address,
        ) by {
            let i = choose|i: int|
                0 <= i < earlier.len() && (#[trigger] earlier[i]).account_address == address;
            assert(after[i] == earlier[i]);
        }
        assert(has_address(after, rows.last().account_address)) by {
            if !has_address(earlier, rows.last().account_address) {
                assert(after[earlier.len() as int] == rows.last());
            }
        }
        assert forall|k: int| 0 <= k < rows.len() implies has_address(
            after,
            (#[trigger] rows[k]).account_address,
        ) by {
            if k < rest.len() {
                assert(rest[k] == rows[k]);
            } else {
                assert(rows[k] == rows.last());
            }
        }
    }
}

/// Handing in addresses that are all known changes nothing: no row is added
/// and none is altered.
pub proof fn lemma_known_addresses_are_skipped(table: Seq<AddressView>, rows: Seq<AddressView>)
    requires
        forall|k: int| 0 <= k < rows.len() ==> has_address(table, (#[trigger] rows[k]).account_address),
    ensures
        insert_addresses(table, rows) == table,
    decreases rows.len(),
{
    if rows.len() > 0 {
        let rest = rows.drop_last();
        assert forall|k: int| 0 <= k < rest.len() implies has_address(
            table,
            (#[trigger] rest[k]).account_address,
        ) by {
            assert(rest[k] == rows[k]);
        }
        lemma_known_addresses_are_skipped(table, rest);
        assert(rows[rows.len() - 1] == rows.last());
    }
}

/// Handing in the same addresses a second time changes nothing.
pub proof fn lemma_insert_addresses_twice(table: Seq<AddressView>, rows: Seq<AddressView>)
    ensures
        insert_addresses(insert_addresses(table, rows), rows) == insert_addresses(table, rows),
{
    lemma_insert_addresses_known(table, rows);
    lemma_known_addresses_are_skipped(insert_addresses(table, rows), rows);
}

/// Handing in package versions forgets none, and every version handed in is
/// known afterwards.
pub proof fn lemma_insert_packages_known(table: Seq<PackageView>, rows: Seq<PackageView>)
    ensures
        forall|package_id: Text, version: i64|
            has_package(table, package_id, version) ==> has_package(
                insert_packages(table, rows),
                package_id,
                version,
            ),
        forall|k: int|
            0 <= k < rows.len() ==> has_package(
                insert_packages(table, rows),
                (#[trigger] rows[k]).package_id,
                rows[k].version,
            ),
        insert_packages(table, rows).len() >= table.len(),
    decreases rows.len(),
{
    if rows.len() > 0 {
        let rest = rows.drop_last();
        lemma_insert_packages_known(table, rest);
        let earlier = insert_packages(table, rest);
        let after = insert_packages(table, rows);
        assert forall|package_id: Text, version: i64|
            has_package(earlier, package_id, version) implies has_package(
            after,
            package_id,
            version,
        ) by {
            let i = choose|i: int|
                0 <= i < earlier.len() && (#[trigger] earlier[i]).package_id == package_id
                    && earlier[i].version == version;
            assert(after[i] == earlier[i]);
        }
        assert(has_package(after, rows.last().package_id, rows.last().version)) by {
            if !has_package(earlier, rows.last().package_id, rows.last().version) {
                assert(after[earlier.len() as int] == rows.last());
            }
        }
        assert forall|k: int| 0 <= k < rows.len() implies has_package(
            after,
            (#[trigger] rows[k]).package_id,
            rows[k].version,
        ) by {
            if k < rest.len() {
                assert(rest[k] == rows[k]);
            } else {
                assert(rows[k] == rows.last());
            }
        }
    }
}

/// Handing in package versions that are all known changes nothing: no row is
/// added and none is altered.
pub proof fn lemma_known_packages_are_skipped(table: Seq<PackageView>, rows: Seq<PackageView>)
    requires
        forall|k: int|
            0 <= k < rows.len() ==> has_package(
                table,
                (#[trigger] rows[k]).package_id,
                rows[k].version,
            ),
    ensures
        insert_packages(table, rows) == table,
    decreases rows.len(),
{
    if rows.len() > 0 {
        let rest = rows.drop_last();
        assert forall|k: int| 0 <= k < rest.len() implies has_package(
            table,
            (#[trigger] rest[k]).package_id,
            rest[k].version,
        ) by {
            assert(rest[k] == rows[k]);
        }
        lemma_known_packages_are_skipped(table, rest);
        assert(rows[rows.len() - 1] == rows.last());
    }
}

/// Handing in the same package versions a second time changes nothing.
pub proof fn lemma_insert_packages_twice(table: Seq<PackageView>, rows: Seq<PackageView>)
    ensures
        insert_packages(insert_packages(table, rows), rows) == insert_packages(table, rows),
{
    lemma_insert_packages_known(table, rows);
    lemma_known_packages_are_skipped(insert_packages(table, rows), rows);
}

// ---------------------------------------------------------------------------
// Laws of the object changes
// ---------------------------------------------------------------------------

/// Whether a batch of mutated objects names the object.
pub open spec fn mutated_names(rows: Seq<ObjectView>, object_id: Text) -> bool {
    exists|k: int| 0 <= k < rows.len() && (#[trigger] rows[k]).object_id == object_id
}

/// Whether a batch of deleted objects names the object.
pub open spec fn deleted_names(rows: Seq<DeletedObjectView>, object_id: Text) -> bool {
    exists|k: int| 0 <= k < rows.len() && (#[trigger] rows[k]).object_id == object_id
}

/// Whether a group of changes names the object.
pub open spec fn group_names(group: TransactionObjectChangesView, object_id: Text) -> bool {
    mutated_names(group.mutated_objects, object_id) || deleted_names(
        group.deleted_objects,
        object_id,
    )
}

/// Whether a stored row shows a deletion: it is about the deleted object and
/// its epoch, checkpoint, version, previous transaction and status are the
/// deletion's.
pub open spec fn reflects_deletion(stored: ObjectView, row: DeletedObjectView) -> bool {
    &&& stored.object_id == row.object_id
    &&& stored.epoch == row.epoch
    &&& stored.checkpoint == row.checkpoint
    &&& stored.version == row.version
    &&& stored.previous_transaction == row.previous_transaction
    &&& stored.object_status == row.object_status
}

/// Whether two tables hold the same rows about the object.
pub open spec fn same_rows_about(a: Seq<ObjectView>, b: Seq<ObjectView>, object_id: Text) -> bool {
    forall|x: ObjectView| x.object_id == object_id ==> (#[trigger] a.contains(x) <==> b.contains(x))
}

/// Writing a mutated object stores its row and leaves the rows of other
/// objects alone.
pub proof fn lemma_upsert_mutated_rows(table: Seq<ObjectView>, row: ObjectView)
    ensures
        upsert_mutated(table, row).contains(row),
        forall|object_id: Text|
            object_id != row.object_id ==> same_rows_about(
                upsert_mutated(table, row),
                table,
                object_id,
            ),
{
    let after = upsert_mutated(table, row);
    if has_object(table, row.object_id) {
        let i = choose|i: int| 0 <= i < table.len() && (#[trigger] table[i]).object_id == row.object_id;
        assert(after[i] == row);
    } else {
        assert(after[table.len() as int] == row);
    }
    assert forall|object_id: Text| object_id != row.object_id implies same_rows_about(
        after,
        table,
        object_id,
    ) by {
        assert forall|x: ObjectView| x.object_id == object_id implies (#[trigger] after.contains(x)
            <==> table.contains(x)) by {
            if after.contains(x) {
                let i = choose|i: int| 0 <= i < after.len() && after[i] == x;
                if i < table.len() {
                    assert(table[i] == x);
                }
            }
            if table.contains(x) {
                let i = choose|i: int| 0 <= i < table.len() && table[i] == x;
                assert(after[i] == x);
            }
        }
    }
}

/// Writing a deleted object leaves a row that shows the deletion and leaves
/// the rows of other objects alone.
pub proof fn lemma_upsert_deleted_rows(table: Seq<ObjectView>, row: DeletedObjectView)
    ensures
        exists|i: int|
            0 <= i < upsert_deleted(table, row).len() && reflects_deletion(
                #[trigger] upsert_deleted(table, row)[i],
                row,
            ),
        forall|object_id: Text|
            object_id != row.object_id ==> same_rows_about(
                upsert_deleted(table, row),
                table,
                object_id,
            ),
{
    let after = upsert_deleted(table, row);
    if has_object(table, row.object_id) {
        let i = choose|i: int| 0 <= i < table.len() && (#[trigger] table[i]).object_id == row.object_id;
        assert(reflects_deletion(after[i], row));
    } else {
        assert(reflects_deletion(after[table.len() as int], row));
    }
    assert forall|object_id: Text| object_id != row.object_id implies same_rows_about(
        after,
        table,
        object_id,
    ) by {
        assert forall|x: ObjectView| x.object_id == object_id implies (#[trigger] after.contains(x)
            <==> table.contains(x)) by {
            if after.contains(x) {
                let i = choose|i: int| 0 <= i < after.len() && after[i] == x;
                if i < table.len() {
                    assert(table[i] == x);
                }
            }
            if table.contains(x) {
                let i = choose|i: int| 0 <= i < table.len() && table[i] == x;
                assert(after[i] == x);
            }
        }
    }
}

/// A batch of mutated objects that does not name an object leaves its rows
/// alone.
pub proof fn lemma_mutated_batch_elsewhere(
    table: Seq<ObjectView>,
    rows: Seq<ObjectView>,
    object_id: Text,
)
    requires
        !mutated_names(rows, object_id),
    ensures
        same_rows_about(upsert_mutated_batch(table, rows), table, object_id),
    decreases rows.len(),
{
    if rows.len() > 0 {
        let rest = rows.drop_last();
        assert(!mutated_names(rest, object_id)) by {
            if mutated_names(rest, object_id) {
                let k = choose|k: int| 0 <= k < rest.len() && (#[trigger] rest[k]).object_id == object_id;
                assert(rows[k].object_id == object_id);
            }
        }
        lemma_mutated_batch_elsewhere(table, rest, object_id);
        assert(rows[rows.len() - 1] == rows.last());
        let earlier = upsert_mutated_batch(table, rest);
        lemma_upsert_mutated_rows(earlier, rows.last());
        assert(same_rows_about(upsert_mutated(earlier, rows.last()), earlier, object_id));
    }
}

/// A batch of deleted objects that does not name an object leaves its rows
/// alone.
pub proof fn lemma_deleted_batch_elsewhere(
    table: Seq<ObjectView>,
    rows: Seq<DeletedObjectView>,
    object_id: Text,
)
    requires
        !deleted_names(rows, object_id),
    ensures
        same_rows_about(upsert_deleted_batch(table, rows), table, object_id),
    decreases rows.len(),
{
    if rows.len() > 0 {
        let rest = rows.drop_last();
        assert(!deleted_names(rest, object_id)) by {
            if deleted_names(rest, object_id) {
                let k = choose|k: int| 0 <= k < rest.len() && (#[trigger] rest[k]).object_id == object_id;
                assert(rows[k].object_id == object_id);
            }
        }
        lemma_deleted_batch_elsewhere(table, rest, object_id);
        assert(rows[rows.len() - 1] == rows.last());
        let earlier = upsert_deleted_batch(table, rest);
        lemma_upsert_deleted_rows(earlier, rows.last());
        assert(same_rows_about(upsert_deleted(earlier, rows.last()), earlier, object_id));
    }
}

/// Groups of changes that do not name an object leave its rows alone.
pub proof fn lemma_changes_elsewhere(
    table: Seq<ObjectView>,
    groups: Seq<TransactionObjectChangesView>,
    object_id: Text,
)
    requires
        forall|g: int| 0 <= g < groups.len() ==> !group_names(#[trigger] groups[g], object_id),
    ensures
        same_rows_about(apply_changes(table, groups), table, object_id),
    decreases groups.len(),
{
    if groups.len() > 0 {
        let rest = groups.drop_last();
        assert forall|g: int| 0 <= g < rest.len() implies !group_names(
            #[trigger] rest[g],
            object_id,
        ) by {
            assert(rest[g] == groups[g]);
        }
        lemma_changes_elsewhere(table, rest, object_id);
        let earlier = apply_changes(table, rest);
        let last = groups.last();
        assert(groups[groups.len() - 1] == last);
        lemma_mutated_batch_elsewhere(earlier, last.mutated_objects, object_id);
        lemma_deleted_batch_elsewhere(
            upsert_mutated_batch(earlier, last.mutated_objects),
            last.deleted_objects,
            object_id,
        );
    }
}

/// After a batch of mutated objects that names no object twice is written,
/// each of its rows is stored.
pub proof fn lemma_mutated_batch_stores(table: Seq<ObjectView>, rows: Seq<ObjectView>, k: int)
    requires
        !mutated_twice(rows),
        0 <= k < rows.len(),
    ensures
        upsert_mutated_batch(table, rows).contains(rows[k]),
    decreases rows.len(),
{
    let rest = rows.drop_last();
    let n = rows.len() - 1;
    assert(rows[n] == rows.last());
    lemma_upsert_mutated_rows(upsert_mutated_batch(table, rest), rows.last());
    if k < n {
        assert(!mutated_twice(rest)) by {
            if mutated_twice(rest) {
                let (i, j) = choose|i: int, j: int|
                    0 <= i < j < rest.len() && (#[trigger] rest[i]).object_id == (
                    #[trigger] rest[j]).object_id;
                assert(rows[i].object_id == rows[j].object_id);
            }
        }
        assert(rest[k] == rows[k]);
        lemma_mutated_batch_stores(table, rest, k);
        assert(rows[k].object_id != rows[n].object_id);
        let earlier = upsert_mutated_batch(table, rest);
        assert(same_rows_about(upsert_mutated(earlier, rows.last()), earlier, rows[k].object_id));
        assert(earlier.contains(rows[k]));
    }
}

/// After a batch of deleted objects that names no object twice is written,
/// each of its deletions shows in a stored row.
pub proof fn lemma_deleted_batch_stores(table: Seq<ObjectView>, rows: Seq<DeletedObjectView>, k: int)
    requires
        !deleted_twice(rows),
        0 <= k < rows.len(),
    ensures
        exists|i: int|
            0 <= i < upsert_deleted_batch(table, rows).len() && reflects_deletion(
                #[trigger] upsert_deleted_batch(table, rows)[i],
                rows[k],
            ),
    decreases rows.len(),
{
    let rest = rows.drop_last();
    let n = rows.len() - 1;
    assert(rows[n] == rows.last());
    let earlier = upsert_deleted_batch(table, rest);
    let after = upsert_deleted_batch(table, rows);
    lemma_upsert_deleted_rows(earlier, rows.last());
    if k < n {
        assert(!deleted_twice(rest)) by {
            if deleted_twice(rest) {
                let (i, j) = choose|i: int, j: int|
                    0 <= i < j < rest.len() && (#[trigger] rest[i]).object_id == (
                    #[trigger] rest[j]).object_id;
                assert(rows[i].object_id == rows[j].object_id);
            }
        }
        assert(rest[k] == rows[k]);
        lemma_deleted_batch_stores(table, rest, k);
        assert(rows[k].object_id != rows[n].object_id);
        let i = choose|i: int|
            0 <= i < earlier.len() && reflects_deletion(#[trigger] earlier[i], rows[k]);
        let shown = earlier[i];
        assert(earlier.contains(shown));
        assert(same_rows_about(upsert_deleted(earlier, rows.last()), earlier, rows[k].object_id));
        assert(after.contains(shown));
        let j = choose|j: int| 0 <= j < after.len() && after[j] == shown;
        assert(reflects_deletion(after[j], rows[k]));
    }
}

/// Groups whose batches each name no object twice are never refused for
/// changing a row twice, however often an object recurs from one group to
/// another.
pub proof fn lemma_groups_never_collide(groups: Seq<TransactionObjectChangesView>)
    requires
        forall|g: int|
            0 <= g < groups.len() ==> !mutated_twice((#[trigger] groups[g]).mutated_objects)
                && !deleted_twice(groups[g].deleted_objects),
    ensures
        !affected_twice(groups),
{
}

/// The last mutation of an object decides its row: where group `g` mutates
/// an object, does not delete it, and no later group names it, the stored
/// row is the one that group `g` handed in.
pub proof fn lemma_last_mutation_decides(
    table: Seq<ObjectView>,
    groups: Seq<TransactionObjectChangesView>,
    g: int,
    k: int,
)
    requires
        0 <= g < groups.len(),
        0 <= k < groups[g].mutated_objects.len(),
        !mutated_twice(groups[g].mutated_objects),
        !deleted_names(groups[g].deleted_objects, groups[g].mutated_objects[k].object_id),
        forall|h: int|
            g < h < groups.len() ==> !group_names(
                #[trigger] groups[h],
                groups[g].mutated_objects[k].object_id,
            ),
    ensures
        apply_changes(table, groups).contains(groups[g].mutated_objects[k]),
    decreases groups.len(),
{
    let row = groups[g].mutated_objects[k];
    let rest = groups.drop_last();
    let n = groups.len() - 1;
    assert(groups[n] == groups.last());
    let earlier = apply_changes(table, rest);
    if g == n {
        lemma_mutated_batch_stores(earlier, groups[g].mutated_objects, k);
        lemma_deleted_batch_elsewhere(
            upsert_mutated_batch(earlier, groups[g].mutated_objects),
            groups[g].deleted_objects,
            row.object_id,
        );
    } else {
        assert(rest[g] == groups[g]);
        assert forall|h: int| g < h < rest.len() implies !group_names(
            #[trigger] rest[h],
            row.object_id,
        ) by {
            assert(rest[h] == groups[h]);
        }
        lemma_last_mutation_decides(table, rest, g, k);
        lemma_mutated_batch_elsewhere(earlier, groups[n].mutated_objects, row.object_id);
        lemma_deleted_batch_elsewhere(
            upsert_mutated_batch(earlier, groups[n].mutated_objects),
            groups[n].deleted_objects,
            row.object_id,
        );
    }
}

/// The last deletion of an object decides its row: where group `g` deletes
/// an object and no later group names it, the stored row shows that
/// deletion.
pub proof fn lemma_last_deletion_decides(
    table: Seq<ObjectView>,
    groups: Seq<TransactionObjectChangesView>,
    g: int,
    k: int,
)
    requires
        0 <= g < groups.len(),
        0 <= k < groups[g].deleted_objects.len(),
        !deleted_twice(groups[g].deleted_objects),
        forall|h: int|
            g < h < groups.len() ==> !group_names(
                #[trigger] groups[h],
                groups[g].deleted_objects[k].object_id,
            ),
    ensures
        exists|i: int|
            0 <= i < apply_changes(table, groups).len() && reflects_deletion(
                #[trigger] apply_changes(table, groups)[i],
                groups[g].deleted_objects[k],
            ),
    decreases groups.len(),
{
    let row = groups[g].deleted_objects[k];
    let rest = groups.drop_last();
    let n = groups.len() - 1;
    assert(groups[n] == groups.last());
    let earlier = apply_changes(table, rest);
    let after = apply_changes(table, groups);
    if g == n {
        lemma_deleted_batch_stores(
            upsert_mutated_batch(earlier, groups[g].mutated_objects),
            groups[g].deleted_objects,
            k,
        );
    } else {
        assert(rest[g] == groups[g]);
        assert forall|h: int| g < h < rest.len() implies !group_names(
            #[trigger] rest[h],
            row.object_id,
        ) by {
            assert(rest[h] == groups[h]);
        }
        lemma_last_deletion_decides(table, rest, g, k);
        let middle = upsert_mutated_batch(earlier, groups[n].mutated_objects);
        lemma_mutated_batch_elsewhere(earlier, groups[n].mutated_objects, row.object_id);
        lemma_deleted_batch_elsewhere(middle, groups[n].deleted_objects, row.object_id);
        let i = choose|i: int| 0 <= i < earlier.len() && reflects_deletion(#[trigger] earlier[i], row);
        let shown = earlier[i];
        assert(earlier.contains(shown));
        assert(middle.contains(shown));
        assert(after.contains(shown));
        let j = choose|j: int| 0 <= j < after.len() && after[j] == shown;
        assert(reflects_deletion(after[j], row));
    }
}

} // verus!
