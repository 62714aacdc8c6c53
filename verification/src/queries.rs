//! What the read operations look for in the tables: single rows, counts, and
//! the candidates of the digest listings.

use crate::filters::{lemma_filter_keeps_order, lemma_filter_step};
use crate::paging::{ascending, limited, PageEntry, PageEntryView};
use crate::tables::{move_calls_wf, recipients_wf, transactions_wf};
use crate::rows::{
    Checkpoint, CheckpointView, MoveCall, MoveCallView, Recipient, RecipientView, Transaction,
    TransactionView,
};
use crate::views::{contains_text, lemma_take_all, lemma_take_step, lemma_views_push, views, Text};
use vstd::prelude::*;

verus! {

// ---------------------------------------------------------------------------
// Single rows
// ---------------------------------------------------------------------------

/// The first element, in the order of the sequence, that satisfies the
/// predicate.
pub open spec fn first_match<T>(s: Seq<T>, pred: spec_fn(T) -> bool) -> Option<T>
    decreases s.len(),
{
    if s.len() == 0 {
        None
    } else if pred(s.first()) {
        Some(s.first())
    } else {
        first_match(s.drop_first(), pred)
    }
}

/// A first match satisfies the predicate and is an element; without one, no
/// element satisfies the predicate.
pub proof fn lemma_first_match<T>(s: Seq<T>, pred: spec_fn(T) -> bool)
    ensures
        match first_match(s, pred) {
            Some(x) => pred(x) && s.contains(x),
            None => forall|i: int| 0 <= i < s.len() ==> !pred(#[trigger] s[i]),
        },
    decreases s.len(),
{
    if s.len() > 0 {
        if pred(s.first()) {
            assert(s[0] == s.first());
        } else {
            let rest = s.drop_first();
            lemma_first_match(rest, pred);
            match first_match(rest, pred) {
                Some(x) => {
                    let i = choose|i: int| 0 <= i < rest.len() && rest[i] == x;
                    assert(s[i + 1] == x);
                },
                None => {
                    assert forall|i: int| 0 <= i < s.len() implies !pred(#[trigger] s[i]) by {
                        if i > 0 {
                            assert(rest[i - 1] == s[i]);
                        }
                    }
                },
            }
        }
    }
}

/// Looking from position `n` on finds what looking from `n + 1` on finds,
/// unless the element at `n` is a match itself.
pub proof fn lemma_first_match_skip<T>(s: Seq<T>, pred: spec_fn(T) -> bool, n: int)
    requires
        0 <= n < s.len(),
    ensures
        first_match(s.skip(n), pred) == if pred(s[n]) {
            Some(s[n])
        } else {
            first_match(s.skip(n + 1), pred)
        },
{
    assert(s.skip(n).first() == s[n]);
    assert(s.skip(n).drop_first() =~= s.skip(n + 1));
}

/// The checkpoint with this sequence number.
pub open spec fn checkpoint_numbered(table: Seq<CheckpointView>, sequence_number: int) -> Option<
    CheckpointView,
> {
    first_match(table, |row: CheckpointView| row.sequence_number == sequence_number)
}

/// The first checkpoint with this digest.
pub open spec fn checkpoint_with_digest(table: Seq<CheckpointView>, digest: Text) -> Option<
    CheckpointView,
> {
    first_match(table, |row: CheckpointView| row.checkpoint_digest == digest)
}

/// The transaction with this digest.
pub open spec fn transaction_with_digest(table: Seq<TransactionView>, digest: Text) -> Option<
    TransactionView,
> {
    first_match(table, |row: TransactionView| row.transaction_digest == digest)
}

/// The highest sequence number of the checkpoints, and -1 where there is
/// none.
pub open spec fn latest_sequence_number(table: Seq<CheckpointView>) -> i64
    decreases table.len(),
{
    if table.len() == 0 {
        -1i64
    } else if table.last().sequence_number >= latest_sequence_number(table.drop_last()) {
        table.last().sequence_number
    } else {
        latest_sequence_number(table.drop_last())
    }
}

/// The latest sequence number is -1 for an empty table; no stored sequence
/// number exceeds it; and it is -1 or the sequence number of a stored
/// checkpoint. Where no sequence number lies below zero, it is -1 only for an
/// empty table.
pub proof fn lemma_latest_sequence_number(table: Seq<CheckpointView>)
    ensures
        table.len() == 0 ==> latest_sequence_number(table) == -1,
        forall|i: int|
            0 <= i < table.len() ==> (#[trigger] table[i]).sequence_number
                <= latest_sequence_number(table),
        latest_sequence_number(table) == -1 || exists|i: int|
            0 <= i < table.len() && (#[trigger] table[i]).sequence_number == latest_sequence_number(
                table,
            ),
        (forall|i: int| 0 <= i < table.len() ==> (#[trigger] table[i]).sequence_number >= 0) ==> (
        latest_sequence_number(table) == -1 <==> table.len() == 0),
    decreases table.len(),
{
    if table.len() > 0 {
        let rest = table.drop_last();
        let n = table.len() - 1;
        assert(table[n] == table.last());
        lemma_latest_sequence_number(rest);
        assert forall|i: int| 0 <= i < table.len() implies (#[trigger] table[i]).sequence_number
            <= latest_sequence_number(table) by {
            if i < n {
                assert(rest[i] == table[i]);
            }
        }
        if table.last().sequence_number >= latest_sequence_number(rest) {
            assert(table[n].sequence_number == latest_sequence_number(table));
        } else if latest_sequence_number(rest) != -1 {
            let i = choose|i: int|
                0 <= i < rest.len() && (#[trigger] rest[i]).sequence_number
                    == latest_sequence_number(rest);
            assert(table[i] == rest[i]);
            assert(table[i].sequence_number == latest_sequence_number(table));
        }
    }
}

/// The highest sequence number of the checkpoints, and -1 where there is
/// none.
pub fn find_latest_sequence_number(table: &Vec<Checkpoint>) -> (latest: i64)
    ensures
        latest == latest_sequence_number(views(table@)),
{
    let ghost all = views(table@);
    let mut latest: i64 = -1;
    let mut i: usize = 0;
    while i < table.len()
        invariant
            i <= table.len(),
            all == views(table@),
            latest == latest_sequence_number(all.take(i as int)),
        decreases table.len() - i,
    {
        proof {
            lemma_take_step(all, i as int);
        }
        if table[i].sequence_number >= latest {
            latest = table[i].sequence_number;
        }
        i = i + 1;
    }
    proof {
        lemma_take_all(all);
    }
    latest
}

/// The checkpoint with this sequence number.
pub fn find_checkpoint_numbered(table: &Vec<Checkpoint>, sequence_number: i64) -> (found: Option<
    Checkpoint,
>)
    ensures
        found is Some == checkpoint_numbered(views(table@), sequence_number as int) is Some,
        found matches Some(row) ==> Some(row@) == checkpoint_numbered(
            views(table@),
            sequence_number as int,
        ),
{
    let ghost all = views(table@);
    let ghost pred = |row: CheckpointView| row.sequence_number == sequence_number as int;
    let mut i: usize = 0;
    proof {
        assert(all.skip(0) =~= all);
    }
    while i < table.len()
        invariant
            i <= table.len(),
            all == views(table@),
            pred == |row: CheckpointView| row.sequence_number == sequence_number as int,
            first_match(all, pred) == first_match(all.skip(i as int), pred),
        decreases table.len() - i,
    {
        proof {
            lemma_first_match_skip(all, pred, i as int);
        }
        if table[i].sequence_number == sequence_number {
            return Some(table[i].clone());
        }
        i = i + 1;
    }
    None
}

/// The first checkpoint with this digest.
pub fn find_checkpoint_with_digest(table: &Vec<Checkpoint>, digest: &String) -> (found: Option<
    Checkpoint,
>)
    ensures
        found is Some == checkpoint_with_digest(views(table@), digest@) is Some,
        found matches Some(row) ==> Some(row@) == checkpoint_with_digest(views(table@), digest@),
{
    let ghost all = views(table@);
    let ghost pred = |row: CheckpointView| row.checkpoint_digest == digest@;
    let mut i: usize = 0;
    proof {
        assert(all.skip(0) =~= all);
    }
    while i < table.len()
        invariant
            i <= table.len(),
            all == views(table@),
            pred == |row: CheckpointView| row.checkpoint_digest == digest@,
            first_match(all, pred) == first_match(all.skip(i as int), pred),
        decreases table.len() - i,
    {
        proof {
            lemma_first_match_skip(all, pred, i as int);
        }
        if table[i].checkpoint_digest == *digest {
            return Some(table[i].clone());
        }
        i = i + 1;
    }
    None
}

/// The transaction with this digest.
pub fn find_transaction_with_digest(table: &Vec<Transaction>, digest: &String) -> (found: Option<
    Transaction,
>)
    ensures
        found is Some == transaction_with_digest(views(table@), digest@) is Some,
        found matches Some(row) ==> Some(row@) == transaction_with_digest(views(table@), digest@),
{
    let ghost all = views(table@);
    let ghost pred = |row: TransactionView| row.transaction_digest == digest@;
    let mut i: usize = 0;
    proof {
        assert(all.skip(0) =~= all);
    }
    while i < table.len()
        invariant
            i <= table.len(),
            all == views(table@),
            pred == |row: TransactionView| row.transaction_digest == digest@,
            first_match(all, pred) == first_match(all.skip(i as int), pred),
        decreases table.len() - i,
    {
        proof {
            lemma_first_match_skip(all, pred, i as int);
        }
        if table[i].transaction_digest == *digest {
            return Some(table[i].clone());
        }
        i = i + 1;
    }
    None
}

// ---------------------------------------------------------------------------
// Candidates of the listings
// ---------------------------------------------------------------------------

/// Which transactions a listing is about.
#[derive(Debug, PartialEq, Eq)]
pub enum TransactionFilter {
    /// All of them.
    All,
    /// Those sent by this address.
    Sender(String),
    /// Those that mutated this object.
    MutatedObject(String),
    /// The one with this digest.
    Digest(String),
}

/// The mathematical value of a [`TransactionFilter`].
pub enum TransactionFilterView {
    All,
    Sender(Text),
    MutatedObject(Text),
    Digest(Text),
}

impl View for TransactionFilter {
    type V = TransactionFilterView;

    open spec fn view(&self) -> TransactionFilterView {
        match self {
            TransactionFilter::All => TransactionFilterView::All,
            TransactionFilter::Sender(address) => TransactionFilterView::Sender(address@),
            TransactionFilter::MutatedObject(object_id) => TransactionFilterView::MutatedObject(
                object_id@,
            ),
            TransactionFilter::Digest(digest) => TransactionFilterView::Digest(digest@),
        }
    }
}

/// Whether the listing is about this transaction.
pub open spec fn transaction_matches(filter: TransactionFilterView, row: TransactionView) -> bool {
    match filter {
        TransactionFilterView::All => true,
        TransactionFilterView::Sender(address) => row.sender == address,
        TransactionFilterView::MutatedObject(object_id) => row.mutated.contains(object_id),
        TransactionFilterView::Digest(digest) => row.transaction_digest == digest,
    }
}

/// The row id and digest of a transaction.
pub open spec fn transaction_entry(row: TransactionView) -> PageEntryView {
    PageEntryView { id: row.id, digest: row.transaction_digest }
}

/// The candidates of a listing of transactions, in the order of the table.
pub open spec fn transaction_candidates(
    table: Seq<TransactionView>,
    filter: TransactionFilterView,
) -> Seq<PageEntryView> {
    table.filter(|row: TransactionView| transaction_matches(filter, row)).map_values(
        |row: TransactionView| transaction_entry(row),
    )
}

/// Which function calls a listing is about.
#[derive(Debug, PartialEq, Eq)]
pub enum MoveCallFilter {
    /// Calls into this package, and, where given, into this module and of
    /// this function.
    Call { package: String, module: Option<String>, function: Option<String> },
    /// Calls made by the transaction with this digest.
    Digest(String),
}

/// The mathematical value of a [`MoveCallFilter`].
pub enum MoveCallFilterView {
    Call { package: Text, module: Option<Text>, function: Option<Text> },
    Digest(Text),
}

/// The mathematical value of a text that may be absent.
pub open spec fn optional_text(text: Option<String>) -> Option<Text> {
    match text {
        Some(t) => Some(t@),
        None => None,
    }
}

impl View for MoveCallFilter {
    type V = MoveCallFilterView;

    open spec fn view(&self) -> MoveCallFilterView {
        match self {
            MoveCallFilter::Call { package, module, function } => MoveCallFilterView::Call {
                package: package@,
                module: optional_text(*module),
                function: optional_text(*function),
            },
            MoveCallFilter::Digest(digest) => MoveCallFilterView::Digest(digest@),
        }
    }
}

/// Whether the listing is about this call.
pub open spec fn move_call_matches(filter: MoveCallFilterView, row: MoveCallView) -> bool {
    match filter {
        MoveCallFilterView::Call { package, module, function } => {
            &&& row.move_package == package
            &&& module matches Some(m) ==> row.move_module == m
            &&& function matches Some(f) ==> row.move_function == f
        },
        MoveCallFilterView::Digest(digest) => row.transaction_digest == digest,
    }
}

/// The row id of a call and the digest of its transaction.
pub open spec fn move_call_entry(row: MoveCallView) -> PageEntryView {
    PageEntryView { id: row.id, digest: row.transaction_digest }
}

/// The candidates of a listing by function call, in the order of the table.
pub open spec fn move_call_candidates(table: Seq<MoveCallView>, filter: MoveCallFilterView) -> Seq<
    PageEntryView,
> {
    table.filter(|row: MoveCallView| move_call_matches(filter, row)).map_values(
        |row: MoveCallView| move_call_entry(row),
    )
}

/// Which recipient rows a listing is about.
#[derive(Debug, PartialEq, Eq)]
pub enum RecipientFilter {
    /// Payments to this address.
    Recipient(String),
    /// Payments made by the transaction with this digest.
    Digest(String),
}

/// The mathematical value of a [`RecipientFilter`].
pub enum RecipientFilterView {
    Recipient(Text),
    Digest(Text),
}

impl View for RecipientFilter {
    type V = RecipientFilterView;

    open spec fn view(&self) -> RecipientFilterView {
        match self {
            RecipientFilter::Recipient(address) => RecipientFilterView::Recipient(address@),
            RecipientFilter::Digest(digest) => RecipientFilterView::Digest(digest@),
        }
    }
}

/// Whether the listing is about this recipient row.
pub open spec fn recipient_matches(filter: RecipientFilterView, row: RecipientView) -> bool {
    match filter {
        RecipientFilterView::Recipient(address) => row.recipient == address,
        RecipientFilterView::Digest(digest) => row.transaction_digest == digest,
    }
}

/// The row id of a recipient row and the digest of its transaction.
pub open spec fn recipient_entry(row: RecipientView) -> PageEntryView {
    PageEntryView { id: row.id, digest: row.transaction_digest }
}

/// The candidates of a listing by recipient, in the order of the table.
pub open spec fn recipient_candidates(table: Seq<RecipientView>, filter: RecipientFilterView) -> Seq<
    PageEntryView,
> {
    table.filter(|row: RecipientView| recipient_matches(filter, row)).map_values(
        |row: RecipientView| recipient_entry(row),
    )
}

/// The candidates of a listing of transactions come in the order of their
/// row ids.
pub proof fn lemma_transaction_candidates_ascending(
    table: Seq<TransactionView>,
    filter: TransactionFilterView,
)
    requires
        transactions_wf(table),
    ensures
        ascending(transaction_candidates(table, filter)),
{
    let pred = |row: TransactionView| transaction_matches(filter, row);
    let key = |row: TransactionView| row.id as int;
    assert forall|i: int, j: int| 0 <= i < j < table.len() implies key(#[trigger] table[i]) < key(
        #[trigger] table[j],
    ) by {
        assert(table[i].id == i && table[j].id == j);
    }
    lemma_filter_keeps_order(table, pred, key);
    let kept = table.filter(pred);
    let out = transaction_candidates(table, filter);
    assert forall|i: int, j: int| 0 <= i < j < out.len() implies (#[trigger] out[i]).id < (
    #[trigger] out[j]).id by {
        assert(key(kept[i]) < key(kept[j]));
    }
}

/// The candidates of a listing by function call come in the order of their
/// row ids.
pub proof fn lemma_move_call_candidates_ascending(
    table: Seq<MoveCallView>,
    filter: MoveCallFilterView,
)
    requires
        move_calls_wf(table),
    ensures
        ascending(move_call_candidates(table, filter)),
{
    let pred = |row: MoveCallView| move_call_matches(filter, row);
    let key = |row: MoveCallView| row.id as int;
    assert forall|i: int, j: int| 0 <= i < j < table.len() implies key(#[trigger] table[i]) < key(
        #[trigger] table[j],
    ) by {
        assert(table[i].id == i && table[j].id == j);
    }
    lemma_filter_keeps_order(table, pred, key);
    let kept = table.filter(pred);
    let out = move_call_candidates(table, filter);
    assert forall|i: int, j: int| 0 <= i < j < out.len() implies (#[trigger] out[i]).id < (
    #[trigger] out[j]).id by {
        assert(key(kept[i]) < key(kept[j]));
    }
}

/// The candidates of a listing by recipient come in the order of their row
/// ids.
pub proof fn lemma_recipient_candidates_ascending(
    table: Seq<RecipientView>,
    filter: RecipientFilterView,
)
    requires
        recipients_wf(table),
    ensures
        ascending(recipient_candidates(table, filter)),
{
    let pred = |row: RecipientView| recipient_matches(filter, row);
    let key = |row: RecipientView| row.id as int;
    assert forall|i: int, j: int| 0 <= i < j < table.len() implies key(#[trigger] table[i]) < key(
        #[trigger] table[j],
    ) by {
        assert(table[i].id == i && table[j].id == j);
    }
    lemma_filter_keeps_order(table, pred, key);
    let kept = table.filter(pred);
    let out = recipient_candidates(table, filter);
    assert forall|i: int, j: int| 0 <= i < j < out.len() implies (#[trigger] out[i]).id < (
    #[trigger] out[j]).id by {
        assert(key(kept[i]) < key(kept[j]));
    }
}

/// Whether the listing is about this transaction.
pub fn transaction_passes(filter: &TransactionFilter, row: &Transaction) -> (passes: bool)
    ensures
        passes == transaction_matches(filter@, row@),
{
    match filter {
        TransactionFilter::All => true,
        TransactionFilter::Sender(address) => row.sender == *address,
        TransactionFilter::MutatedObject(object_id) => contains_text(&row.mutated, object_id),
        TransactionFilter::Digest(digest) => row.transaction_digest == *digest,
    }
}

/// Whether the listing is about this call.
pub fn move_call_passes(filter: &MoveCallFilter, row: &MoveCall) -> (passes: bool)
    ensures
        passes == move_call_matches(filter@, row@),
{
    match filter {
        MoveCallFilter::Call { package, module, function } => {
            if !(row.move_package == *package) {
                return false;
            }
            let module_passes = match module {
                Some(m) => row.move_module == *m,
                None => true,
            };
            let function_passes = match function {
                Some(f) => row.move_function == *f,
                None => true,
            };
            module_passes && function_passes
        },
        MoveCallFilter::Digest(digest) => row.transaction_digest == *digest,
    }
}

/// Whether the listing is about this recipient row.
pub fn recipient_passes(filter: &RecipientFilter, row: &Recipient) -> (passes: bool)
    ensures
        passes == recipient_matches(filter@, row@),
{
    match filter {
        RecipientFilter::Recipient(address) => row.recipient == *address,
        RecipientFilter::Digest(digest) => row.transaction_digest == *digest,
    }
}

/// The candidates of a listing of transactions.
pub fn collect_transactions(table: &Vec<Transaction>, filter: &TransactionFilter) -> (out: Vec<
    PageEntry,
>)
    ensures
        views(out@) == transaction_candidates(views(table@), filter@),
{
    let ghost all = views(table@);
    let ghost pred = |row: TransactionView| transaction_matches(filter@, row);
    let ghost entry = |row: TransactionView| transaction_entry(row);
    let mut out: Vec<PageEntry> = Vec::new();
    let mut i: usize = 0;
    proof {
        reveal(Seq::filter);
        assert(views(out@) =~= all.take(0).filter(pred).map_values(entry));
    }
    while i < table.len()
        invariant
            i <= table.len(),
            all == views(table@),
            pred == |row: TransactionView| transaction_matches(filter@, row),
            entry == |row: TransactionView| transaction_entry(row),
            views(out@) == all.take(i as int).filter(pred).map_values(entry),
        decreases table.len() - i,
    {
        let ghost earlier = out@;
        proof {
            lemma_filter_step(all, pred, i as int);
        }
        if transaction_passes(filter, &table[i]) {
            let found = PageEntry { id: table[i].id, digest: table[i].transaction_digest.clone() };
            out.push(found);
            proof {
                lemma_views_push(earlier, found);
                assert(views(out@) =~= all.take(i + 1).filter(pred).map_values(entry));
            }
        }
        i = i + 1;
    }
    proof {
        lemma_take_all(all);
    }
    out
}

/// The candidates of a listing by function call.
pub fn collect_move_calls(table: &Vec<MoveCall>, filter: &MoveCallFilter) -> (out: Vec<PageEntry>)
    ensures
        views(out@) == move_call_candidates(views(table@), filter@),
{
    let ghost all = views(table@);
    let ghost pred = |row: MoveCallView| move_call_matches(filter@, row);
    let ghost entry = |row: MoveCallView| move_call_entry(row);
    let mut out: Vec<PageEntry> = Vec::new();
    let mut i: usize = 0;
    proof {
        reveal(Seq::filter);
        assert(views(out@) =~= all.take(0).filter(pred).map_values(entry));
    }
    while i < table.len()
        invariant
            i <= table.len(),
            all == views(table@),
            pred == |row: MoveCallView| move_call_matches(filter@, row),
            entry == |row: MoveCallView| move_call_entry(row),
            views(out@) == all.take(i as int).filter(pred).map_values(entry),
        decreases table.len() - i,
    {
        let ghost earlier = out@;
        proof {
            lemma_filter_step(all, pred, i as int);
        }
        if move_call_passes(filter, &table[i]) {
            let found = PageEntry { id: table[i].id, digest: table[i].transaction_digest.clone() };
            out.push(found);
            proof {
                lemma_views_push(earlier, found);
                assert(views(out@) =~= all.take(i + 1).filter(pred).map_values(entry));
            }
        }
        i = i + 1;
    }
    proof {
        lemma_take_all(all);
    }
    out
}

/// The candidates of a listing by recipient.
pub fn collect_recipients(table: &Vec<Recipient>, filter: &RecipientFilter) -> (out: Vec<PageEntry>)
    ensures
        views(out@) == recipient_candidates(views(table@), filter@),
{
    let ghost all = views(table@);
    let ghost pred = |row: RecipientView| recipient_matches(filter@, row);
    let ghost entry = |row: RecipientView| recipient_entry(row);
    let mut out: Vec<PageEntry> = Vec::new();
    let mut i: usize = 0;
    proof {
        reveal(Seq::filter);
        assert(views(out@) =~= all.take(0).filter(pred).map_values(entry));
    }
    while i < table.len()
        invariant
            i <= table.len(),
            all == views(table@),
            pred == |row: RecipientView| recipient_matches(filter@, row),
            entry == |row: RecipientView| recipient_entry(row),
            views(out@) == all.take(i as int).filter(pred).map_values(entry),
        decreases table.len() - i,
    {
        let ghost earlier = out@;
        proof {
            lemma_filter_step(all, pred, i as int);
        }
        if recipient_passes(filter, &table[i]) {
            let found = PageEntry { id: table[i].id, digest: table[i].transaction_digest.clone() };
            out.push(found);
            proof {
                lemma_views_push(earlier, found);
                assert(views(out@) =~= all.take(i + 1).filter(pred).map_values(entry));
            }
        }
        i = i + 1;
    }
    proof {
        lemma_take_all(all);
    }
    out
}

// ---------------------------------------------------------------------------
// Scanning the transactions
// ---------------------------------------------------------------------------

/// The transactions whose row id lies above `last_id`, in the order of the
/// table.
pub open spec fn transactions_after(table: Seq<TransactionView>, last_id: i64) -> Seq<
    TransactionView,
> {
    table.filter(|row: TransactionView| row.id > last_id)
}

/// The first `limit` transactions whose row id lies above `last_id`.
pub fn scan_transactions(table: &Vec<Transaction>, last_id: i64, limit: usize) -> (out: Vec<
    Transaction,
>)
    ensures
        views(out@) == limited(transactions_after(views(table@), last_id), limit as nat),
{
    let ghost all = views(table@);
    let ghost pred = |row: TransactionView| row.id > last_id;
    let mut out: Vec<Transaction> = Vec::new();
    let mut i: usize = 0;
    proof {
        reveal(Seq::filter);
        assert(views(out@) =~= all.take(0).filter(pred));
    }
    while i < table.len() && out.len() < limit
        invariant
            i <= table.len(),
            all == views(table@),
            pred == |row: TransactionView| row.id > last_id,
            out.len() <= limit,
            views(out@) == all.take(i as int).filter(pred),
        decreases table.len() - i,
    {
        let ghost earlier = out@;
        proof {
            lemma_filter_step(all, pred, i as int);
        }
        if table[i].id > last_id {
            let found = table[i].clone();
            out.push(found);
            proof {
                lemma_views_push(earlier, found);
            }
        }
        i = i + 1;
    }
    proof {
        let head = all.take(i as int);
        let rest = all.skip(i as int);
        assert(all =~= head + rest);
        Seq::filter_distributes_over_add(head, rest, pred);
        if i == table.len() {
            lemma_take_all(all);
        } else {
            assert(views(out@) =~= (head.filter(pred) + rest.filter(pred)).take(limit as int));
        }
    }
    out
}

} // verus!
