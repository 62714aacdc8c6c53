//! The store: its tables, the atomic write of one checkpoint, the epoch
//! partitions, the read operations and the error log.

use crate::encoding::{base58_encode, base58_text};
use crate::errors::{IndexerError, IndexerErrorView, WriteContextView, WriteFailure};
use crate::paging::{limited, ordered, page, page_of, PageEntry, PageEntryView};
use crate::partition::{
    has_partition, table_names, PartitionManager, PartitionManagerView, PartitionRegistry,
};
use crate::queries::{
    checkpoint_numbered, checkpoint_with_digest, collect_move_calls, collect_recipients,
    collect_transactions, find_checkpoint_numbered, find_checkpoint_with_digest,
    find_latest_sequence_number, find_transaction_with_digest, latest_sequence_number,
    lemma_first_match, lemma_latest_sequence_number, move_call_candidates, optional_text,
    recipient_candidates, scan_transactions, transaction_candidates, transaction_with_digest,
    transactions_after, MoveCallFilter, MoveCallFilterView, RecipientFilter,
    RecipientFilterView, TransactionFilter, TransactionFilterView,
};
use crate::rows::{
    clone_rows, Address, AddressView, Checkpoint, CheckpointView, ErrorLog, ErrorLogView, Event,
    EventView, MoveCall, MoveCallView, Object, ObjectView, Package, PackageView, Recipient,
    RecipientView, TemporaryCheckpointStore, TemporaryCheckpointStoreView, Transaction,
    TransactionView,
};
use crate::tables::{
    addresses_wf, affected_twice, append_move_calls, append_recipients, append_transactions,
    apply_changes, can_number, checkpoints_wf, contains_checkpoint, duplicate_transaction,
    find_affected_twice, find_duplicate_transaction, has_checkpoint, has_object, insert_addresses,
    insert_events, insert_move_calls, insert_packages, insert_recipients, insert_transactions,
    lemma_append_transactions_wf, lemma_apply_changes_wf, lemma_insert_addresses_wf,
    lemma_insert_packages_wf, move_calls_wf, objects_wf, packages_wf, recipients_wf,
    transactions_wf, write_addresses, write_changes, write_packages,
};
use crate::views::{lemma_take_all, lemma_views_push, views, Text};
use vstd::prelude::*;

verus! {

/// The mathematical value of the store: its tables, each a sequence of rows
/// in the order of their arrival, and its partitions.
pub struct StoreView {
    pub checkpoints: Seq<CheckpointView>,
    pub transactions: Seq<TransactionView>,
    pub events: Seq<EventView>,
    pub objects: Seq<ObjectView>,
    pub addresses: Seq<AddressView>,
    pub packages: Seq<PackageView>,
    pub move_calls: Seq<MoveCallView>,
    pub recipients: Seq<RecipientView>,
    pub error_logs: Seq<ErrorLogView>,
    pub partitions: PartitionManagerView,
}

/// The digests of the new transactions, in their order.
pub open spec fn transaction_digests(delta: TemporaryCheckpointStoreView) -> Seq<Text> {
    Seq::new(delta.transactions.len(), |k: int| delta.transactions[k].transaction_digest)
}

/// The log row of an error.
pub open spec fn error_log_of(error: IndexerErrorView) -> ErrorLogView {
    ErrorLogView { error_type: error.name(), error: error.message() }
}

impl StoreView {
    /// The uniqueness rules of the tables hold, row ids are positions, and
    /// the partitions are well formed.
    pub open spec fn wf(self) -> bool {
        &&& checkpoints_wf(self.checkpoints)
        &&& transactions_wf(self.transactions)
        &&& objects_wf(self.objects)
        &&& addresses_wf(self.addresses)
        &&& packages_wf(self.packages)
        &&& move_calls_wf(self.move_calls)
        &&& recipients_wf(self.recipients)
        &&& self.partitions.wf()
    }

    /// Why the bundle of a checkpoint cannot be written, if it cannot. The
    /// steps of the write are looked at in their order, and the first that
    /// fails decides.
    pub open spec fn persist_failure(self, delta: TemporaryCheckpointStoreView) -> Option<
        WriteFailure,
    > {
        if delta.checkpoint.sequence_number < 0 {
            Some(WriteFailure::InvalidSequenceNumber)
        } else if has_checkpoint(self.checkpoints, delta.checkpoint.sequence_number) {
            Some(WriteFailure::DuplicateCheckpoint)
        } else if duplicate_transaction(self.transactions, delta.transactions) {
            Some(WriteFailure::DuplicateTransaction)
        } else if affected_twice(delta.objects_changes) {
            Some(WriteFailure::ObjectAffectedTwice)
        } else if self.transactions.len() + delta.transactions.len() > i64::MAX
            || self.move_calls.len() + delta.move_calls.len() > i64::MAX || self.recipients.len()
            + delta.recipients.len() > i64::MAX {
            Some(WriteFailure::RowIdsExhausted)
        } else {
            None
        }
    }

    /// The store after the bundle of a checkpoint is written.
    pub open spec fn persisted(self, delta: TemporaryCheckpointStoreView) -> StoreView {
        StoreView {
            checkpoints: self.checkpoints.push(delta.checkpoint),
            transactions: append_transactions(self.transactions, delta.transactions),
            events: self.events + delta.events,
            objects: apply_changes(self.objects, delta.objects_changes),
            addresses: insert_addresses(self.addresses, delta.addresses),
            packages: insert_packages(self.packages, delta.packages),
            move_calls: append_move_calls(self.move_calls, delta.move_calls),
            recipients: append_recipients(self.recipients, delta.recipients),
            error_logs: self.error_logs,
            partitions: self.partitions,
        }
    }

    /// The store after the bundle of a checkpoint is handed in: with the
    /// whole bundle written, or as it was.
    pub open spec fn persist_outcome(self, delta: TemporaryCheckpointStoreView) -> StoreView {
        if self.persist_failure(delta) is None {
            self.persisted(delta)
        } else {
            self
        }
    }

    /// The store after the partitions of an epoch are created.
    pub open spec fn advanced(self, epoch: u64) -> StoreView {
        StoreView { partitions: self.partitions.advanced(epoch), ..self }
    }

    /// The store after errors are logged.
    pub open spec fn logged(self, errors: Seq<IndexerErrorView>) -> StoreView {
        StoreView {
            error_logs: self.error_logs + errors.map_values(
                |error: IndexerErrorView| error_log_of(error),
            ),
            ..self
        }
    }

    /// The digests of one page of a listing of transactions.
    pub open spec fn transaction_page(
        self,
        filter: TransactionFilterView,
        cursor: Option<i64>,
        limit: nat,
        descending: bool,
    ) -> Seq<Text> {
        page(transaction_candidates(self.transactions, filter), false, cursor, limit, descending)
    }

    /// The digests of one page of a listing by function call: one per
    /// transaction.
    pub open spec fn move_call_page(
        self,
        filter: MoveCallFilterView,
        cursor: Option<i64>,
        limit: nat,
        descending: bool,
    ) -> Seq<Text> {
        page(move_call_candidates(self.move_calls, filter), true, cursor, limit, descending)
    }

    /// The digests of one page of a listing by recipient: one per
    /// transaction.
    pub open spec fn recipient_page(
        self,
        filter: RecipientFilterView,
        cursor: Option<i64>,
        limit: nat,
        descending: bool,
    ) -> Seq<Text> {
        page(recipient_candidates(self.recipients, filter), true, cursor, limit, descending)
    }
}

/// The row id that comes first among the candidates in the direction asked
/// for.
pub open spec fn first_row_id(candidates: Seq<PageEntryView>, descending: bool) -> Option<i64> {
    if candidates.len() == 0 {
        None
    } else {
        Some(ordered(candidates, descending)[0].id)
    }
}

/// Writing a bundle that can be written keeps the store well formed.
pub proof fn lemma_persisted_wf(store: StoreView, delta: TemporaryCheckpointStoreView)
    requires
        store.wf(),
        store.persist_failure(delta) is None,
    ensures
        store.persisted(delta).wf(),
{
    let after = store.persisted(delta);
    assert(checkpoints_wf(after.checkpoints)) by {
        let table = after.checkpoints;
        assert forall|i: int| 0 <= i < table.len() implies (#[trigger] table[i]).sequence_number
            >= 0 by {
            if i < store.checkpoints.len() {
                assert(table[i] == store.checkpoints[i]);
            }
        }
        assert forall|i: int, j: int| 0 <= i < j < table.len() implies (
        #[trigger] table[i]).sequence_number != (#[trigger] table[j]).sequence_number by {
            assert(table[i] == store.checkpoints[i]);
            if j < store.checkpoints.len() {
                assert(table[j] == store.checkpoints[j]);
            }
        }
    }
    lemma_append_transactions_wf(store.transactions, delta.transactions);
    lemma_apply_changes_wf(store.objects, delta.objects_changes);
    lemma_insert_addresses_wf(store.addresses, delta.addresses);
    lemma_insert_packages_wf(store.packages, delta.packages);
}

/// The first row id among some candidates.
fn first_id(candidates: &Vec<PageEntry>, descending: bool) -> (id: Option<i64>)
    ensures
        id == first_row_id(views(candidates@), descending),
{
    if candidates.len() == 0 {
        None
    } else if descending {
        Some(candidates[candidates.len() - 1].id)
    } else {
        Some(candidates[0].id)
    }
}

/// How a checkpoint is named in a lookup.
#[derive(Debug, PartialEq, Eq)]
pub enum CheckpointId {
    /// By its sequence number.
    SequenceNumber(u64),
    /// By the bytes of its digest.
    Digest([u8; 32]),
}

/// The store.
#[derive(Debug, PartialEq, Eq)]
pub struct PgIndexerStore {
    checkpoints: Vec<Checkpoint>,
    transactions: Vec<Transaction>,
    events: Vec<Event>,
    objects: Vec<Object>,
    addresses: Vec<Address>,
    packages: Vec<Package>,
    move_calls: Vec<MoveCall>,
    recipients: Vec<Recipient>,
    error_logs: Vec<ErrorLog>,
    partition_manager: PartitionManager,
}

impl View for PgIndexerStore {
    type V = StoreView;

    closed spec fn view(&self) -> StoreView {
        StoreView {
            checkpoints: views(self.checkpoints@),
            transactions: views(self.transactions@),
            events: views(self.events@),
            objects: views(self.objects@),
            addresses: views(self.addresses@),
            packages: views(self.packages@),
            move_calls: views(self.move_calls@),
            recipients: views(self.recipients@),
            error_logs: views(self.error_logs@),
            partitions: self.partition_manager@,
        }
    }
}

impl PgIndexerStore {
    /// The store's tables obey their rules.
    pub open spec fn wf(&self) -> bool {
        self@.wf()
    }

    /// A store with empty tables over the partitions that exist. It manages
    /// the partitions of the tables that have any.
    pub fn new(partitions: PartitionRegistry) -> (store: Self)
        requires
            partitions.wf(),
        ensures
            store.wf(),
            store@.checkpoints.len() == 0,
            store@.transactions.len() == 0,
            store@.events.len() == 0,
            store@.objects.len() == 0,
            store@.addresses.len() == 0,
            store@.packages.len() == 0,
            store@.move_calls.len() == 0,
            store@.recipients.len() == 0,
            store@.error_logs.len() == 0,
            store@.partitions.registry == partitions@,
            store@.partitions.tables == table_names(partitions@),
    {
        PgIndexerStore {
            checkpoints: Vec::new(),
            transactions: Vec::new(),
            events: Vec::new(),
            objects: Vec::new(),
            addresses: Vec::new(),
            packages: Vec::new(),
            move_calls: Vec::new(),
            recipients: Vec::new(),
            error_logs: Vec::new(),
            partition_manager: PartitionManager::new(partitions),
        }
    }

    /// Why the bundle cannot be written, if it cannot.
    fn refusal(&self, data: &TemporaryCheckpointStore) -> (failure: Option<WriteFailure>)
        ensures
            failure == self@.persist_failure(data@),
    {
        if data.checkpoint.sequence_number < 0 {
            return Some(WriteFailure::InvalidSequenceNumber);
        }
        if contains_checkpoint(&self.checkpoints, data.checkpoint.sequence_number) {
            return Some(WriteFailure::DuplicateCheckpoint);
        }
        if find_duplicate_transaction(&self.transactions, &data.transactions) {
            return Some(WriteFailure::DuplicateTransaction);
        }
        if find_affected_twice(&data.objects_changes) {
            return Some(WriteFailure::ObjectAffectedTwice);
        }
        if !can_number(self.transactions.len(), data.transactions.len()) || !can_number(
            self.move_calls.len(),
            data.move_calls.len(),
        ) || !can_number(self.recipients.len(), data.recipients.len()) {
            return Some(WriteFailure::RowIdsExhausted);
        }
        None
    }

    /// Writes everything one checkpoint adds, or nothing.
    ///
    /// The steps are taken in this order: the checkpoint row, the
    /// transactions, the events, the object changes group by group (in each
    /// group the mutated objects, then the deleted ones, a stored object's
    /// row being overwritten), the addresses and the packages (known ones
    /// are skipped), the function calls and the recipients. The result is
    /// the number of recipient rows written. Where a step cannot be taken
    /// the store is left as it was, and the error names the failure and the
    /// digests of the bundle's transactions.
    pub fn persist_checkpoint(&mut self, data: &TemporaryCheckpointStore) -> (res: Result<
        usize,
        IndexerError,
    >)
        requires
            old(self).wf(),
        ensures
            final(self).wf(),
            final(self)@ == old(self)@.persist_outcome(data@),
            match old(self)@.persist_failure(data@) {
                Some(failure) => {
                    &&& final(self)@ == old(self)@
                    &&& res matches Err(error)
                    &&& error@ == (IndexerErrorView::WriteError {
                        failure,
                        context: WriteContextView::Checkpoint {
                            transaction_digests: transaction_digests(data@),
                        },
                    })
                },
                None => {
                    &&& final(self)@ == old(self)@.persisted(data@)
                    &&& res matches Ok(count)
                    &&& count == data@.recipients.len()
                },
            },
    {
        match self.refusal(data) {
            Some(failure) => {
                let digests = digests_of_bundle(data);
                Err(IndexerError::checkpoint_write(failure, digests))
            },
            None => {
                let ghost before = self@;
                proof {
                    lemma_persisted_wf(before, data@);
                }
                let ghost stored = self.checkpoints@;
                let row = data.checkpoint.clone();
                self.checkpoints.push(row);
                proof {
                    lemma_views_push(stored, row);
                }
                insert_transactions(&mut self.transactions, &data.transactions);
                insert_events(&mut self.events, &data.events);
                write_changes(&mut self.objects, &data.objects_changes);
                write_addresses(&mut self.addresses, &data.addresses);
                write_packages(&mut self.packages, &data.packages);
                insert_move_calls(&mut self.move_calls, &data.move_calls);
                insert_recipients(&mut self.recipients, &data.recipients);
                Ok(data.recipients.len())
            },
        }
    }

    /// Creates the partitions of a new epoch: one for each managed table.
    /// Returns how many tables that were. Where the epoch has no successor
    /// or one of the tables has the partition already, nothing is created.
    pub fn persist_epoch(&mut self, next_epoch_id: u64) -> (res: Result<usize, IndexerError>)
        requires
            old(self).wf(),
        ensures
            final(self).wf(),
            match old(self)@.partitions.advance_failure(next_epoch_id) {
                Some(failure) => {
                    &&& final(self)@ == old(self)@
                    &&& res matches Err(error)
                    &&& error@ == (IndexerErrorView::WriteError {
                        failure,
                        context: WriteContextView::Epoch { epoch: next_epoch_id },
                    })
                },
                None => {
                    &&& final(self)@ == old(self)@.advanced(next_epoch_id)
                    &&& res matches Ok(count)
                    &&& count == old(self)@.partitions.tables.len()
                },
            },
    {
        self.partition_manager.advance_epoch(next_epoch_id)
    }

    /// Appends one log row per error. Logging never fails and never touches
    /// another table.
    pub fn log_errors(&mut self, errors: Vec<IndexerError>)
        requires
            old(self).wf(),
        ensures
            final(self).wf(),
            final(self)@ == old(self)@.logged(views(errors@)),
            errors.len() == 0 ==> final(self)@ == old(self)@,
    {
        let ghost before = self@;
        proof {
            if errors.len() == 0 {
                assert(before.logged(views(errors@)).error_logs =~= before.error_logs);
            }
        }
        let ghost rows = |error: IndexerErrorView| error_log_of(error);
        let mut i: usize = 0;
        while i < errors.len()
            invariant
                i <= errors.len(),
                rows == |error: IndexerErrorView| error_log_of(error),
                self@ == (StoreView {
                    error_logs: before.error_logs + views(errors@).take(i as int).map_values(rows),
                    ..before
                }),
            decreases errors.len() - i,
        {
            let ghost earlier = self.error_logs@;
            let row = errors[i].to_log();
            self.error_logs.push(row);
            proof {
                lemma_views_push(earlier, row);
                assert(views(self.error_logs@) =~= before.error_logs + views(errors@).take(
                    i + 1,
                ).map_values(rows));
            }
            i = i + 1;
        }
        proof {
            lemma_take_all(views(errors@));
        }
    }

    /// The highest sequence number among the stored checkpoints, and -1
    /// while none is stored.
    pub fn get_latest_checkpoint_sequence_number(&self) -> (latest: i64)
        ensures
            latest == latest_sequence_number(self@.checkpoints),
            self@.checkpoints.len() == 0 ==> latest == -1,
            forall|i: int|
                0 <= i < self@.checkpoints.len() ==> (#[trigger] self@.checkpoints[i]).sequence_number
                    <= latest,
            latest == -1 || exists|i: int|
                0 <= i < self@.checkpoints.len() && (
                #[trigger] self@.checkpoints[i]).sequence_number == latest,
            self.wf() ==> (latest == -1 <==> self@.checkpoints.len() == 0),
    {
        proof {
            lemma_latest_sequence_number(self@.checkpoints);
        }
        find_latest_sequence_number(&self.checkpoints)
    }

    /// The checkpoint with this sequence number.
    pub fn get_checkpoint_by_sequence_number(&self, sequence_number: u64) -> (res: Result<
        Checkpoint,
        IndexerError,
    >)
        ensures
            match checkpoint_numbered(self@.checkpoints, sequence_number as int) {
                Some(row) => res matches Ok(found) && found@ == row,
                None => res matches Err(error) && error@ == IndexerErrorView::NotFound,
            },
    {
        if sequence_number > 0x7fff_ffff_ffff_ffffu64 {
            proof {
                lemma_first_match(
                    self@.checkpoints,
                    |row: CheckpointView| row.sequence_number == sequence_number as int,
                );
            }
            return Err(IndexerError::NotFound);
        }
        match find_checkpoint_numbered(&self.checkpoints, sequence_number as i64) {
            Some(row) => Ok(row),
            None => Err(IndexerError::NotFound),
        }
    }

    /// The first checkpoint whose digest is this text.
    pub fn get_checkpoint_by_digest(&self, digest: &String) -> (res: Result<
        Checkpoint,
        IndexerError,
    >)
        ensures
            match checkpoint_with_digest(self@.checkpoints, digest@) {
                Some(row) => res matches Ok(found) && found@ == row,
                None => res matches Err(error) && error@ == IndexerErrorView::NotFound,
            },
    {
        match find_checkpoint_with_digest(&self.checkpoints, digest) {
            Some(row) => Ok(row),
            None => Err(IndexerError::NotFound),
        }
    }

    /// The checkpoint named by `id`: by its sequence number, or by the
    /// Base58 text of its digest.
    pub fn get_checkpoint(&self, id: CheckpointId) -> (res: Result<Checkpoint, IndexerError>)
        ensures
            match id {
                CheckpointId::SequenceNumber(sequence_number) => match checkpoint_numbered(
                    self@.checkpoints,
                    sequence_number as int,
                ) {
                    Some(row) => res matches Ok(found) && found@ == row,
                    None => res matches Err(error) && error@ == IndexerErrorView::NotFound,
                },
                CheckpointId::Digest(bytes) => match checkpoint_with_digest(
                    self@.checkpoints,
                    base58_text(bytes@),
                ) {
                    Some(row) => res matches Ok(found) && found@ == row,
                    None => res matches Err(error) && error@ == IndexerErrorView::NotFound,
                },
            },
    {
        match id {
            CheckpointId::SequenceNumber(sequence_number) => {
                self.get_checkpoint_by_sequence_number(sequence_number)
            },
            CheckpointId::Digest(bytes) => {
                let text = base58_encode(&bytes);
                self.get_checkpoint_by_digest(&text)
            },
        }
    }

    /// The number of stored transactions.
    pub fn get_total_transaction_number(&self) -> (count: i64)
        requires
            self.wf(),
        ensures
            count == self@.transactions.len(),
    {
        self.transactions.len() as i64
    }

    /// The transaction with this digest.
    pub fn get_transaction_by_digest(&self, txn_digest: &str) -> (res: Result<
        Transaction,
        IndexerError,
    >)
        ensures
            match transaction_with_digest(self@.transactions, txn_digest@) {
                Some(row) => res matches Ok(found) && found@ == row,
                None => res matches Err(error) && error@ == IndexerErrorView::NotFound,
            },
    {
        let digest = txn_digest.to_owned();
        match find_transaction_with_digest(&self.transactions, &digest) {
            Some(row) => Ok(row),
            None => Err(IndexerError::NotFound),
        }
    }

    /// The row id of the transaction with this digest; the direction tells
    /// which end to start from. `None` without a digest or a row.
    pub fn get_transaction_sequence_by_digest(
        &self,
        txn_digest: Option<String>,
        is_descending: bool,
    ) -> (id: Option<i64>)
        ensures
            id == match txn_digest {
                Some(digest) => first_row_id(
                    transaction_candidates(
                        self@.transactions,
                        TransactionFilterView::Digest(digest@),
                    ),
                    is_descending,
                ),
                None => None,
            },
    {
        match txn_digest {
            Some(digest) => {
                let filter = TransactionFilter::Digest(digest);
                let candidates = collect_transactions(&self.transactions, &filter);
                first_id(&candidates, is_descending)
            },
            None => None,
        }
    }

    /// The row id of the first function call of the transaction with this
    /// digest, counted from the end the direction names.
    pub fn get_move_call_sequence_by_digest(
        &self,
        txn_digest: Option<String>,
        is_descending: bool,
    ) -> (id: Option<i64>)
        ensures
            id == match txn_digest {
                Some(digest) => first_row_id(
                    move_call_candidates(self@.move_calls, MoveCallFilterView::Digest(digest@)),
                    is_descending,
                ),
                None => None,
            },
    {
        match txn_digest {
            Some(digest) => {
                let filter = MoveCallFilter::Digest(digest);
                let candidates = collect_move_calls(&self.move_calls, &filter);
                first_id(&candidates, is_descending)
            },
            None => None,
        }
    }

    /// The row id of the first recipient row of the transaction with this
    /// digest, counted from the end the direction names.
    pub fn get_recipient_sequence_by_digest(
        &self,
        txn_digest: Option<String>,
        is_descending: bool,
    ) -> (id: Option<i64>)
        ensures
            id == match txn_digest {
                Some(digest) => first_row_id(
                    recipient_candidates(self@.recipients, RecipientFilterView::Digest(digest@)),
                    is_descending,
                ),
                None => None,
            },
    {
        match txn_digest {
            Some(digest) => {
                let filter = RecipientFilter::Digest(digest);
                let candidates = collect_recipients(&self.recipients, &filter);
                first_id(&candidates, is_descending)
            },
            None => None,
        }
    }

    /// Up to `limit` digests of all transactions, by row id.
    pub fn get_all_transaction_digest_page(
        &self,
        start_sequence: Option<i64>,
        limit: usize,
        is_descending: bool,
    ) -> (digests: Vec<String>)
        ensures
            views(digests@) == self@.transaction_page(
                TransactionFilterView::All,
                start_sequence,
                limit as nat,
                is_descending,
            ),
            digests.len() <= limit,
    {
        let filter = TransactionFilter::All;
        let candidates = collect_transactions(&self.transactions, &filter);
        page_of(&candidates, false, start_sequence, limit, is_descending)
    }

    /// Up to `limit` digests of the transactions that called into the
    /// package and, where given, the module and the function: one per
    /// transaction, placed by its highest matching call.
    pub fn get_transaction_digest_page_by_move_call(
        &self,
        package_name: String,
        module_name: Option<String>,
        function_name: Option<String>,
        start_sequence: Option<i64>,
        limit: usize,
        is_descending: bool,
    ) -> (digests: Vec<String>)
        ensures
            views(digests@) == self@.move_call_page(
                MoveCallFilterView::Call {
                    package: package_name@,
                    module: optional_text(module_name),
                    function: optional_text(function_name),
                },
                start_sequence,
                limit as nat,
                is_descending,
            ),
            digests.len() <= limit,
    {
        let filter = MoveCallFilter::Call {
            package: package_name,
            module: module_name,
            function: function_name,
        };
        let candidates = collect_move_calls(&self.move_calls, &filter);
        page_of(&candidates, true, start_sequence, limit, is_descending)
    }

    /// Up to `limit` digests of the transactions that mutated the object.
    pub fn get_transaction_digest_page_by_mutated_object(
        &self,
        object_id: String,
        start_sequence: Option<i64>,
        limit: usize,
        is_descending: bool,
    ) -> (digests: Vec<String>)
        ensures
            views(digests@) == self@.transaction_page(
                TransactionFilterView::MutatedObject(object_id@),
                start_sequence,
                limit as nat,
                is_descending,
            ),
            digests.len() <= limit,
    {
        let filter = TransactionFilter::MutatedObject(object_id);
        let candidates = collect_transactions(&self.transactions, &filter);
        page_of(&candidates, false, start_sequence, limit, is_descending)
    }

    /// Up to `limit` digests of the transactions sent by the address.
    pub fn get_transaction_digest_page_by_sender_address(
        &self,
        sender_address: String,
        start_sequence: Option<i64>,
        limit: usize,
        is_descending: bool,
    ) -> (digests: Vec<String>)
        ensures
            views(digests@) == self@.transaction_page(
                TransactionFilterView::Sender(sender_address@),
                start_sequence,
                limit as nat,
                is_descending,
            ),
            digests.len() <= limit,
    {
        let filter = TransactionFilter::Sender(sender_address);
        let candidates = collect_transactions(&self.transactions, &filter);
        page_of(&candidates, false, start_sequence, limit, is_descending)
    }

    /// Up to `limit` digests of the transactions that paid the address: one
    /// per transaction, placed by its highest matching recipient row.
    pub fn get_transaction_digest_page_by_recipient_address(
        &self,
        recipient_address: String,
        start_sequence: Option<i64>,
        limit: usize,
        is_descending: bool,
    ) -> (digests: Vec<String>)
        ensures
            views(digests@) == self@.recipient_page(
                RecipientFilterView::Recipient(recipient_address@),
                start_sequence,
                limit as nat,
                is_descending,
            ),
            digests.len() <= limit,
    {
        let filter = RecipientFilter::Recipient(recipient_address);
        let candidates = collect_recipients(&self.recipients, &filter);
        page_of(&candidates, true, start_sequence, limit, is_descending)
    }

    /// The first `limit` transactions whose row id lies above
    /// `last_processed_id`, by row id.
    pub fn read_transactions(&self, last_processed_id: i64, limit: usize) -> (rows: Vec<
        Transaction,
    >)
        ensures
            views(rows@) == limited(
                transactions_after(self@.transactions, last_processed_id),
                limit as nat,
            ),
    {
        scan_transactions(&self.transactions, last_processed_id, limit)
    }

    /// The stored row of the object, if one is stored.
    pub fn get_object(&self, object_id: &String) -> (found: Option<Object>)
        ensures
            found is Some == has_object(self@.objects, object_id@),
            found matches Some(row) ==> self@.objects.contains(row@) && row@.object_id
                == object_id@,
    {
        let mut i: usize = 0;
        while i < self.objects.len()
            invariant
                i <= self.objects.len(),
                forall|k: int| 0 <= k < i ==> (#[trigger] self@.objects[k]).object_id != object_id@,
            decreases self.objects.len() - i,
        {
            if self.objects[i].object_id == *object_id {
                let row = self.objects[i].clone();
                assert(self@.objects[i as int] == row@);
                return Some(row);
            }
            i = i + 1;
        }
        None
    }

    /// The logged errors, oldest first.
    pub fn get_error_logs(&self) -> (rows: Vec<ErrorLog>)
        ensures
            views(rows@) == self@.error_logs,
    {
        clone_rows(&self.error_logs)
    }

    /// The number of rows in each table: checkpoints, transactions, events,
    /// objects, addresses, packages, function calls, recipients and logged
    /// errors.
    pub fn table_sizes(&self) -> (sizes: TableSizes)
        ensures
            sizes.checkpoints == self@.checkpoints.len(),
            sizes.transactions == self@.transactions.len(),
            sizes.events == self@.events.len(),
            sizes.objects == self@.objects.len(),
            sizes.addresses == self@.addresses.len(),
            sizes.packages == self@.packages.len(),
            sizes.move_calls == self@.move_calls.len(),
            sizes.recipients == self@.recipients.len(),
            sizes.error_logs == self@.error_logs.len(),
    {
        TableSizes {
            checkpoints: self.checkpoints.len(),
            transactions: self.transactions.len(),
            events: self.events.len(),
            objects: self.objects.len(),
            addresses: self.addresses.len(),
            packages: self.packages.len(),
            move_calls: self.move_calls.len(),
            recipients: self.recipients.len(),
            error_logs: self.error_logs.len(),
        }
    }

    /// The names of the tables whose partitions the store manages.
    pub fn partitioned_tables(&self) -> (names: Vec<String>)
        ensures
            views(names@) == self@.partitions.tables,
    {
        self.partition_manager.tables()
    }

    /// Whether the table has a partition for the epoch.
    pub fn has_partition(&self, table: &String, epoch: u64) -> (found: bool)
        ensures
            found == has_partition(self@.partitions.registry, table@, epoch),
    {
        self.partition_manager.has_partition(table, epoch)
    }
}

/// The number of rows in each table of the store.
#[derive(Clone, Copy, Debug, PartialEq, Eq, Structural)]
pub struct TableSizes {
    pub checkpoints: usize,
    pub transactions: usize,
    pub events: usize,
    pub objects: usize,
    pub addresses: usize,
    pub packages: usize,
    pub move_calls: usize,
    pub recipients: usize,
    pub error_logs: usize,
}

/// The digests of the bundle's transactions, in their order.
fn digests_of_bundle(data: &TemporaryCheckpointStore) -> (digests: Vec<String>)
    ensures
        views(digests@) == transaction_digests(data@),
{
    let mut digests: Vec<String> = Vec::new();
    let mut k: usize = 0;
    while k < data.transactions.len()
        invariant
            k <= data.transactions.len(),
            digests.len() == k,
            forall|h: int|
                0 <= h < k ==> #[trigger] views(digests@)[h] == views(
                    data.transactions@,
                )[h].transaction_digest,
        decreases data.transactions.len() - k,
    {
        let ghost earlier = digests@;
        let digest = data.transactions[k].transaction_digest.clone();
        digests.push(digest);
        proof {
            lemma_views_push(earlier, digest);
            assert forall|h: int| 0 <= h < k + 1 implies #[trigger] views(digests@)[h] == views(
                data.transactions@,
            )[h].transaction_digest by {
                if h < k {
                    assert(views(earlier)[h] == views(data.transactions@)[h].transaction_digest);
                }
            }
        }
        k = k + 1;
    }
    assert(views(digests@) =~= transaction_digests(data@));
    digests
}

} // verus!
