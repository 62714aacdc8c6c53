//! The rows of the store's tables and the bundle that one checkpoint adds to
//! them, each with its mathematical view.

use crate::views::{clone_texts, lemma_take_all, lemma_take_step, lemma_views_push, views, Text};
use vstd::prelude::*;

verus! {

/// What a change did to an object.
#[derive(Clone, Copy, Debug, PartialEq, Eq, Structural)]
pub enum ObjectStatus {
    Created,
    Mutated,
    Deleted,
    Wrapped,
    Unwrapped,
    UnwrappedThenDeleted,
}

impl ObjectStatus {
    /// The status as the table writes it.
    pub open spec fn text(self) -> Text {
        match self {
            ObjectStatus::Created => "created"@,
            ObjectStatus::Mutated => "mutated"@,
            ObjectStatus::Deleted => "deleted"@,
            ObjectStatus::Wrapped => "wrapped"@,
            ObjectStatus::Unwrapped => "unwrapped"@,
            ObjectStatus::UnwrappedThenDeleted => "unwrapped_then_deleted"@,
        }
    }

    /// The status as the table writes it.
    pub fn name(&self) -> (name: &'static str)
        ensures
            name@ == self.text(),
    {
        match self {
            ObjectStatus::Created => "created",
            ObjectStatus::Mutated => "mutated",
            ObjectStatus::Deleted => "deleted",
            ObjectStatus::Wrapped => "wrapped",
            ObjectStatus::Unwrapped => "unwrapped",
            ObjectStatus::UnwrappedThenDeleted => "unwrapped_then_deleted",
        }
    }
}

/// One stored checkpoint. It is written once and never changed.
#[derive(Debug, PartialEq, Eq)]
pub struct Checkpoint {
    /// Position of the checkpoint in the ledger; never below zero in the store.
    pub sequence_number: i64,
    /// Digest of the checkpoint, as text.
    pub checkpoint_digest: String,
    /// Epoch the checkpoint belongs to.
    pub epoch: i64,
    /// Time at which the checkpoint was formed.
    pub timestamp_ms: i64,
}

/// The mathematical value of a [`Checkpoint`].
pub struct CheckpointView {
    pub sequence_number: i64,
    pub checkpoint_digest: Text,
    pub epoch: i64,
    pub timestamp_ms: i64,
}

impl View for Checkpoint {
    type V = CheckpointView;

    open spec fn view(&self) -> CheckpointView {
        CheckpointView {
            sequence_number: self.sequence_number,
            checkpoint_digest: self.checkpoint_digest@,
            epoch: self.epoch,
            timestamp_ms: self.timestamp_ms,
        }
    }
}

impl Clone for Checkpoint {
    fn clone(&self) -> (copy: Self)
        ensures
            copy@ == self@,
    {
        Checkpoint {
            sequence_number: self.sequence_number,
            checkpoint_digest: self.checkpoint_digest.clone(),
            epoch: self.epoch,
            timestamp_ms: self.timestamp_ms,
        }
    }
}

/// A transaction as it is handed in, before the store has numbered it.
#[derive(Debug, PartialEq, Eq)]
pub struct NewTransaction {
    /// Digest of the transaction; unique in the store.
    pub transaction_digest: String,
    /// Address that sent the transaction.
    pub sender: String,
    /// Ids of the objects the transaction mutated.
    pub mutated: Vec<String>,
    /// Checkpoint the transaction was included in.
    pub checkpoint_sequence_number: i64,
}

/// The mathematical value of a [`NewTransaction`].
pub struct NewTransactionView {
    pub transaction_digest: Text,
    pub sender: Text,
    pub mutated: Seq<Text>,
    pub checkpoint_sequence_number: i64,
}

impl View for NewTransaction {
    type V = NewTransactionView;

    open spec fn view(&self) -> NewTransactionView {
        NewTransactionView {
            transaction_digest: self.transaction_digest@,
            sender: self.sender@,
            mutated: views(self.mutated@),
            checkpoint_sequence_number: self.checkpoint_sequence_number,
        }
    }
}

impl Clone for NewTransaction {
    fn clone(&self) -> (copy: Self)
        ensures
            copy@ == self@,
    {
        NewTransaction {
            transaction_digest: self.transaction_digest.clone(),
            sender: self.sender.clone(),
            mutated: clone_texts(&self.mutated),
            checkpoint_sequence_number: self.checkpoint_sequence_number,
        }
    }
}

/// A stored transaction.
#[derive(Debug, PartialEq, Eq)]
pub struct Transaction {
    /// Row id, given by the store in the order of arrival.
    pub id: i64,
    /// Digest of the transaction; unique in the store.
    pub transaction_digest: String,
    /// Address that sent the transaction.
    pub sender: String,
    /// Ids of the objects the transaction mutated.
    pub mutated: Vec<String>,
    /// Checkpoint the transaction was included in.
    pub checkpoint_sequence_number: i64,
}

/// The mathematical value of a [`Transaction`].
pub struct TransactionView {
    pub id: i64,
    pub transaction_digest: Text,
    pub sender: Text,
    pub mutated: Seq<Text>,
    pub checkpoint_sequence_number: i64,
}

impl View for Transaction {
    type V = TransactionView;

    open spec fn view(&self) -> TransactionView {
        TransactionView {
            id: self.id,
            transaction_digest: self.transaction_digest@,
            sender: self.sender@,
            mutated: views(self.mutated@),
            checkpoint_sequence_number: self.checkpoint_sequence_number,
        }
    }
}

impl Clone for Transaction {
    fn clone(&self) -> (copy: Self)
        ensures
            copy@ == self@,
    {
        Transaction {
            id: self.id,
            transaction_digest: self.transaction_digest.clone(),
            sender: self.sender.clone(),
            mutated: clone_texts(&self.mutated),
            checkpoint_sequence_number: self.checkpoint_sequence_number,
        }
    }
}

/// An event emitted by one transaction.
#[derive(Debug, PartialEq, Eq)]
pub struct Event {
    /// Digest of the emitting transaction.
    pub transaction_digest: String,
    /// Position of the event among those of its transaction.
    pub event_sequence: i64,
    /// Kind of the event.
    pub event_type: String,
    /// Payload of the event.
    pub event_content: String,
}

/// The mathematical value of a [`Event`].
pub struct EventView {
    pub transaction_digest: Text,
    pub event_sequence: i64,
    pub event_type: Text,
    pub event_content: Text,
}

impl View for Event {
    type V = EventView;

    open spec fn view(&self) -> EventView {
        EventView {
            transaction_digest: self.transaction_digest@,
            event_sequence: self.event_sequence,
            event_type: self.event_type@,
            event_content: self.event_content@,
        }
    }
}

impl Clone for Event {
    fn clone(&self) -> (copy: Self)
        ensures
            copy@ == self@,
    {
        Event {
            transaction_digest: self.transaction_digest.clone(),
            event_sequence: self.event_sequence,
            event_type: self.event_type.clone(),
            event_content: self.event_content.clone(),
        }
    }
}

/// The latest known state of one object, as left by a mutation.
#[derive(Debug, PartialEq, Eq)]
pub struct Object {
    /// Epoch of the change.
    pub epoch: i64,
    /// Checkpoint of the change.
    pub checkpoint: i64,
    /// Id of the object; unique in the store.
    pub object_id: String,
    /// Version the change produced.
    pub version: i64,
    /// Digest of the object's contents.
    pub object_digest: String,
    /// Owner of the object.
    pub owner_address: String,
    /// Digest of the transaction that made the change.
    pub previous_transaction: String,
    /// What the change did to the object.
    pub object_status: ObjectStatus,
}

/// The mathematical value of a [`Object`].
pub struct ObjectView {
    pub epoch: i64,
    pub checkpoint: i64,
    pub object_id: Text,
    pub version: i64,
    pub object_digest: Text,
    pub owner_address: Text,
    pub previous_transaction: Text,
    pub object_status: ObjectStatus,
}

impl View for Object {
    type V = ObjectView;

    open spec fn view(&self) -> ObjectView {
        ObjectView {
            epoch: self.epoch,
            checkpoint: self.checkpoint,
            object_id: self.object_id@,
            version: self.version,
            object_digest: self.object_digest@,
            owner_address: self.owner_address@,
            previous_transaction: self.previous_transaction@,
            object_status: self.object_status,
        }
    }
}

impl Clone for Object {
    fn clone(&self) -> (copy: Self)
        ensures
            copy@ == self@,
    {
        Object {
            epoch: self.epoch,
            checkpoint: self.checkpoint,
            object_id: self.object_id.clone(),
            version: self.version,
            object_digest: self.object_digest.clone(),
            owner_address: self.owner_address.clone(),
            previous_transaction: self.previous_transaction.clone(),
            object_status: self.object_status,
        }
    }
}

/// The record of an object's deletion.
#[derive(Debug, PartialEq, Eq)]
pub struct DeletedObject {
    /// Epoch of the deletion.
    pub epoch: i64,
    /// Checkpoint of the deletion.
    pub checkpoint: i64,
    /// Id of the object.
    pub object_id: String,
    /// Version the deletion produced.
    pub version: i64,
    /// Digest of the transaction that deleted the object.
    pub previous_transaction: String,
    /// How the object left the live set.
    pub object_status: ObjectStatus,
}

/// The mathematical value of a [`DeletedObject`].
pub struct DeletedObjectView {
    pub epoch: i64,
    pub checkpoint: i64,
    pub object_id: Text,
    pub version: i64,
    pub previous_transaction: Text,
    pub object_status: ObjectStatus,
}

impl View for DeletedObject {
    type V = DeletedObjectView;

    open spec fn view(&self) -> DeletedObjectView {
        DeletedObjectView {
            epoch: self.epoch,
            checkpoint: self.checkpoint,
            object_id: self.object_id@,
            version: self.version,
            previous_transaction: self.previous_transaction@,
            object_status: self.object_status,
        }
    }
}

impl Clone for DeletedObject {
    fn clone(&self) -> (copy: Self)
        ensures
            copy@ == self@,
    {
        DeletedObject {
            epoch: self.epoch,
            checkpoint: self.checkpoint,
            object_id: self.object_id.clone(),
            version: self.version,
            previous_transaction: self.previous_transaction.clone(),
            object_status: self.object_status,
        }
    }
}

/// An account address, recorded when it is first seen.
#[derive(Debug, PartialEq, Eq)]
pub struct Address {
    /// The address; unique in the store.
    pub account_address: String,
    /// Digest of the transaction in which it first appeared.
    pub first_appearance_tx: String,
    /// Time of that transaction.
    pub first_appearance_time: i64,
}

/// The mathematical value of a [`Address`].
pub struct AddressView {
    pub account_address: Text,
    pub first_appearance_tx: Text,
    pub first_appearance_time: i64,
}

impl View for Address {
    type V = AddressView;

    open spec fn view(&self) -> AddressView {
        AddressView {
            account_address: self.account_address@,
            first_appearance_tx: self.first_appearance_tx@,
            first_appearance_time: self.first_appearance_time,
        }
    }
}

impl Clone for Address {
    fn clone(&self) -> (copy: Self)
        ensures
            copy@ == self@,
    {
        Address {
            account_address: self.account_address.clone(),
            first_appearance_tx: self.first_appearance_tx.clone(),
            first_appearance_time: self.first_appearance_time,
        }
    }
}

/// One version of a published package.
#[derive(Debug, PartialEq, Eq)]
pub struct Package {
    /// Id of the package.
    pub package_id: String,
    /// Version of the package; unique together with the id.
    pub version: i64,
    /// Address that published this version.
    pub author: String,
}

/// The mathematical value of a [`Package`].
pub struct PackageView {
    pub package_id: Text,
    pub version: i64,
    pub author: Text,
}

impl View for Package {
    type V = PackageView;

    open spec fn view(&self) -> PackageView {
        PackageView {
            package_id: self.package_id@,
            version: self.version,
            author: self.author@,
        }
    }
}

impl Clone for Package {
    fn clone(&self) -> (copy: Self)
        ensures
            copy@ == self@,
    {
        Package {
            package_id: self.package_id.clone(),
            version: self.version,
            author: self.author.clone(),
        }
    }
}

/// A function call as it is handed in, before the store has numbered it.
#[derive(Debug, PartialEq, Eq)]
pub struct NewMoveCall {
    /// Digest of the calling transaction.
    pub transaction_digest: String,
    /// Package of the called function.
    pub move_package: String,
    /// Module of the called function.
    pub move_module: String,
    /// Name of the called function.
    pub move_function: String,
}

/// The mathematical value of a [`NewMoveCall`].
pub struct NewMoveCallView {
    pub transaction_digest: Text,
    pub move_package: Text,
    pub move_module: Text,
    pub move_function: Text,
}

impl View for NewMoveCall {
    type V = NewMoveCallView;

    open spec fn view(&self) -> NewMoveCallView {
        NewMoveCallView {
            transaction_digest: self.transaction_digest@,
            move_package: self.move_package@,
            move_module: self.move_module@,
            move_function: self.move_function@,
        }
    }
}

impl Clone for NewMoveCall {
    fn clone(&self) -> (copy: Self)
        ensures
            copy@ == self@,
    {
        NewMoveCall {
            transaction_digest: self.transaction_digest.clone(),
            move_package: self.move_package.clone(),
            move_module: self.move_module.clone(),
            move_function: self.move_function.clone(),
        }
    }
}

/// A stored function call.
#[derive(Debug, PartialEq, Eq)]
pub struct MoveCall {
    /// Row id, given by the store in the order of arrival.
    pub id: i64,
    /// Digest of the calling transaction.
    pub transaction_digest: String,
    /// Package of the called function.
    pub move_package: String,
    /// Module of the called function.
    pub move_module: String,
    /// Name of the called function.
    pub move_function: String,
}

/// The mathematical value of a [`MoveCall`].
pub struct MoveCallView {
    pub id: i64,
    pub transaction_digest: Text,
    pub move_package: Text,
    pub move_module: Text,
    pub move_function: Text,
}

impl View for MoveCall {
    type V = MoveCallView;

    open spec fn view(&self) -> MoveCallView {
        MoveCallView {
            id: self.id,
            transaction_digest: self.transaction_digest@,
            move_package: self.move_package@,
            move_module: self.move_module@,
            move_function: self.move_function@,
        }
    }
}

impl Clone for MoveCall {
    fn clone(&self) -> (copy: Self)
        ensures
            copy@ == self@,
    {
        MoveCall {
            id: self.id,
            transaction_digest: self.transaction_digest.clone(),
            move_package: self.move_package.clone(),
            move_module: self.move_module.clone(),
            move_function: self.move_function.clone(),
        }
    }
}

/// A payment recipient as it is handed in, before the store has numbered it.
#[derive(Debug, PartialEq, Eq)]
pub struct NewRecipient {
    /// Digest of the paying transaction.
    pub transaction_digest: String,
    /// Address that received the payment.
    pub recipient: String,
}

/// The mathematical value of a [`NewRecipient`].
pub struct NewRecipientView {
    pub transaction_digest: Text,
    pub recipient: Text,
}

impl View for NewRecipient {
    type V = NewRecipientView;

    open spec fn view(&self) -> NewRecipientView {
        NewRecipientView {
            transaction_digest: self.transaction_digest@,
            recipient: self.recipient@,
        }
    }
}

impl Clone for NewRecipient {
    fn clone(&self) -> (copy: Self)
        ensures
            copy@ == self@,
    {
        NewRecipient {
            transaction_digest: self.transaction_digest.clone(),
            recipient: self.recipient.clone(),
        }
    }
}

/// A stored payment recipient.
#[derive(Debug, PartialEq, Eq)]
pub struct Recipient {
    /// Row id, given by the store in the order of arrival.
    pub id: i64,
    /// Digest of the paying transaction.
    pub transaction_digest: String,
    /// Address that received the payment.
    pub recipient: String,
}

/// The mathematical value of a [`Recipient`].
pub struct RecipientView {
    pub id: i64,
    pub transaction_digest: Text,
    pub recipient: Text,
}

impl View for Recipient {
    type V = RecipientView;

    open spec fn view(&self) -> RecipientView {
        RecipientView {
            id: self.id,
            transaction_digest: self.transaction_digest@,
            recipient: self.recipient@,
        }
    }
}

impl Clone for Recipient {
    fn clone(&self) -> (copy: Self)
        ensures
            copy@ == self@,
    {
        Recipient {
            id: self.id,
            transaction_digest: self.transaction_digest.clone(),
            recipient: self.recipient.clone(),
        }
    }
}

/// One logged ingestion error.
#[derive(Debug, PartialEq, Eq)]
pub struct ErrorLog {
    /// Kind of the error.
    pub error_type: String,
    /// What went wrong.
    pub error: String,
}

/// The mathematical value of a [`ErrorLog`].
pub struct ErrorLogView {
    pub error_type: Text,
    pub error: Text,
}

impl View for ErrorLog {
    type V = ErrorLogView;

    open spec fn view(&self) -> ErrorLogView {
        ErrorLogView {
            error_type: self.error_type@,
            error: self.error@,
        }
    }
}

impl Clone for ErrorLog {
    fn clone(&self) -> (copy: Self)
        ensures
            copy@ == self@,
    {
        ErrorLog {
            error_type: self.error_type.clone(),
            error: self.error.clone(),
        }
    }
}

/// The object changes of one originating transaction.
#[derive(Debug, PartialEq, Eq)]
pub struct TransactionObjectChanges {
    /// Objects the transaction created or mutated.
    pub mutated_objects: Vec<Object>,
    /// Objects the transaction deleted.
    pub deleted_objects: Vec<DeletedObject>,
}

/// The mathematical value of a [`TransactionObjectChanges`].
pub struct TransactionObjectChangesView {
    pub mutated_objects: Seq<ObjectView>,
    pub deleted_objects: Seq<DeletedObjectView>,
}

impl View for TransactionObjectChanges {
    type V = TransactionObjectChangesView;

    open spec fn view(&self) -> TransactionObjectChangesView {
        TransactionObjectChangesView {
            mutated_objects: views(self.mutated_objects@),
            deleted_objects: views(self.deleted_objects@),
        }
    }
}

impl Clone for TransactionObjectChanges {
    fn clone(&self) -> (copy: Self)
        ensures
            copy@ == self@,
    {
        TransactionObjectChanges {
            mutated_objects: clone_rows(&self.mutated_objects),
            deleted_objects: clone_rows(&self.deleted_objects),
        }
    }
}

/// Everything one checkpoint adds to the store.
#[derive(Debug, PartialEq, Eq)]
pub struct TemporaryCheckpointStore {
    /// The checkpoint itself.
    pub checkpoint: Checkpoint,
    /// Its transactions, in order.
    pub transactions: Vec<NewTransaction>,
    /// The events its transactions emitted.
    pub events: Vec<Event>,
    /// Its object changes, one group per originating transaction, in order.
    pub objects_changes: Vec<TransactionObjectChanges>,
    /// The addresses seen in it.
    pub addresses: Vec<Address>,
    /// The packages published in it.
    pub packages: Vec<Package>,
    /// The function calls its transactions made.
    pub move_calls: Vec<NewMoveCall>,
    /// The recipients its transactions paid.
    pub recipients: Vec<NewRecipient>,
}

/// The mathematical value of a [`TemporaryCheckpointStore`].
pub struct TemporaryCheckpointStoreView {
    pub checkpoint: CheckpointView,
    pub transactions: Seq<NewTransactionView>,
    pub events: Seq<EventView>,
    pub objects_changes: Seq<TransactionObjectChangesView>,
    pub addresses: Seq<AddressView>,
    pub packages: Seq<PackageView>,
    pub move_calls: Seq<NewMoveCallView>,
    pub recipients: Seq<NewRecipientView>,
}

impl View for TemporaryCheckpointStore {
    type V = TemporaryCheckpointStoreView;

    open spec fn view(&self) -> TemporaryCheckpointStoreView {
        TemporaryCheckpointStoreView {
            checkpoint: self.checkpoint@,
            transactions: views(self.transactions@),
            events: views(self.events@),
            objects_changes: views(self.objects_changes@),
            addresses: views(self.addresses@),
            packages: views(self.packages@),
            move_calls: views(self.move_calls@),
            recipients: views(self.recipients@),
        }
    }
}

impl Clone for TemporaryCheckpointStore {
    fn clone(&self) -> (copy: Self)
        ensures
            copy@ == self@,
    {
        TemporaryCheckpointStore {
            checkpoint: self.checkpoint.clone(),
            transactions: clone_rows(&self.transactions),
            events: clone_rows(&self.events),
            objects_changes: clone_rows(&self.objects_changes),
            addresses: clone_rows(&self.addresses),
            packages: clone_rows(&self.packages),
            move_calls: clone_rows(&self.move_calls),
            recipients: clone_rows(&self.recipients),
        }
    }
}

/// A copy of a list of rows, row by row.
pub fn clone_rows<T: View + Clone>(rows: &Vec<T>) -> (copy: Vec<T>)
    requires
        forall|a: T, b: T| call_ensures(T::clone, (&a,), b) ==> b@ == a@,
    ensures
        views(copy@) == views(rows@),
{
    let mut out: Vec<T> = Vec::new();
    let mut i: usize = 0;
    while i < rows.len()
        invariant
            i <= rows.len(),
            out.len() == i,
            views(out@) == views(rows@.take(i as int)),
            forall|a: T, b: T| call_ensures(T::clone, (&a,), b) ==> b@ == a@,
        decreases rows.len() - i,
    {
        let ghost before = out@;
        let row = rows[i].clone();
        out.push(row);
        proof {
            lemma_views_push(before, row);
            lemma_take_step(rows@, i as int);
            lemma_views_push(rows@.take(i as int), rows@[i as int]);
        }
        i = i + 1;
    }
    proof {
        lemma_take_all(rows@);
    }
    out
}

} // verus!
