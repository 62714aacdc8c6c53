//! The statements that carry the store's operations out on a relational
//! backing store. Values are bound to the numbered parameters `$1`, `$2`
//! and so on; none is ever written into the text of a statement.

use crate::decimal::{decimal, decimal_text};
use crate::paging::{cursor_admits, CursorBound};
use crate::views::Text;
use vstd::prelude::*;

verus! {

/// Finds the tables that have partitions, each with the suffix of its last
/// partition.
pub const GET_PARTITION_SQL: &'static str = "SELECT parent.relname AS table_name, MAX(SUBSTRING(child.relname FROM '\\d$')) AS last_partition FROM pg_inherits JOIN pg_class parent ON pg_inherits.inhparent = parent.oid JOIN pg_class child ON pg_inherits.inhrelid = child.oid JOIN pg_namespace nmsp_parent ON nmsp_parent.oid = parent.relnamespace JOIN pg_namespace nmsp_child ON nmsp_child.oid = child.relnamespace WHERE parent.relkind = 'p' GROUP BY table_name;";

pub const LATEST_CHECKPOINT: &'static str = "SELECT MAX(sequence_number) AS value FROM checkpoints";

pub const CHECKPOINT_BY_SEQUENCE_NUMBER: &'static str = "SELECT sequence_number, checkpoint_digest, epoch, timestamp_ms FROM checkpoints WHERE sequence_number = $1 LIMIT 1";

pub const CHECKPOINT_BY_DIGEST: &'static str = "SELECT sequence_number, checkpoint_digest, epoch, timestamp_ms FROM checkpoints WHERE checkpoint_digest = $1 LIMIT 1";

pub const TRANSACTION_COUNT: &'static str = "SELECT COUNT(id) AS value FROM transactions";

pub const TRANSACTION_BY_DIGEST: &'static str = "SELECT id, transaction_digest, sender, mutated, checkpoint_sequence_number FROM transactions WHERE transaction_digest = $1 LIMIT 1";

pub const TRANSACTIONS_AFTER: &'static str = "SELECT id, transaction_digest, sender, mutated, checkpoint_sequence_number FROM transactions WHERE id > $1 ORDER BY id ASC LIMIT $2";

pub const INSERT_CHECKPOINT: &'static str = "INSERT INTO checkpoints (sequence_number, checkpoint_digest, epoch, timestamp_ms) VALUES ($1, $2, $3, $4)";

pub const INSERT_TRANSACTION: &'static str = "INSERT INTO transactions (transaction_digest, sender, mutated, checkpoint_sequence_number) VALUES ($1, $2, $3, $4)";

pub const INSERT_EVENT: &'static str = "INSERT INTO events (transaction_digest, event_sequence, event_type, event_content) VALUES ($1, $2, $3, $4)";

/// Writes a mutated object; a stored row of the object is overwritten in
/// epoch, checkpoint, version, digest, owner, previous transaction and status.
pub const UPSERT_MUTATED_OBJECT: &'static str = "INSERT INTO objects (epoch, checkpoint, object_id, version, object_digest, owner_address, previous_transaction, object_status) VALUES ($1, $2, $3, $4, $5, $6, $7, $8) ON CONFLICT (object_id) DO UPDATE SET epoch = EXCLUDED.epoch, checkpoint = EXCLUDED.checkpoint, version = EXCLUDED.version, object_digest = EXCLUDED.object_digest, owner_address = EXCLUDED.owner_address, previous_transaction = EXCLUDED.previous_transaction, object_status = EXCLUDED.object_status";

/// Writes a deleted object; a stored row of the object is overwritten in
/// epoch, checkpoint, version, previous transaction and status, and keeps its
/// digest and owner.
pub const UPSERT_DELETED_OBJECT: &'static str = "INSERT INTO objects (epoch, checkpoint, object_id, version, object_digest, owner_address, previous_transaction, object_status) VALUES ($1, $2, $3, $4, '', '', $5, $6) ON CONFLICT (object_id) DO UPDATE SET epoch = EXCLUDED.epoch, checkpoint = EXCLUDED.checkpoint, version = EXCLUDED.version, previous_transaction = EXCLUDED.previous_transaction, object_status = EXCLUDED.object_status";

/// Writes an address; a known address is skipped.
pub const INSERT_ADDRESS: &'static str = "INSERT INTO addresses (account_address, first_appearance_tx, first_appearance_time) VALUES ($1, $2, $3) ON CONFLICT (account_address) DO NOTHING";

/// Writes a package version; a known one is skipped.
pub const INSERT_PACKAGE: &'static str = "INSERT INTO packages (package_id, version, author) VALUES ($1, $2, $3) ON CONFLICT DO NOTHING";

pub const INSERT_MOVE_CALL: &'static str = "INSERT INTO move_calls (transaction_digest, move_package, move_module, move_function) VALUES ($1, $2, $3, $4)";

pub const INSERT_RECIPIENT: &'static str = "INSERT INTO recipients (transaction_digest, recipient) VALUES ($1, $2)";

pub const INSERT_ERROR_LOG: &'static str = "INSERT INTO error_logs (error_type, error) VALUES ($1, $2)";

/// The condition on a transaction that it was sent by the address in `$1`.
pub const SENT_BY: &'static str = "sender = $1";

/// The condition on a transaction that it mutated the object in `$1`.
pub const MUTATED: &'static str = "$1 = ANY(mutated)";

/// The condition on a recipient row that it pays the address in `$1`.
pub const PAID_TO: &'static str = "recipient = $1";

/// The condition on a function call that it goes into the package in `$1`
/// and, where `$2` and `$3` are given, into that module and to that function.
pub const CALLS_INTO: &'static str = "move_package = $1 AND ($2 IS NULL OR move_module = $2) AND ($3 IS NULL OR move_function = $3)";

/// The condition that holds of every row.
pub const ANY_ROW: &'static str = "TRUE";

/// The word for the direction of a listing.
pub open spec fn direction_text(descending: bool) -> Text {
    if descending {
        "DESC"@
    } else {
        "ASC"@
    }
}

/// The word for the direction of a listing.
pub fn direction(descending: bool) -> (word: &'static str)
    ensures
        word@ == direction_text(descending),
{
    if descending {
        "DESC"
    } else {
        "ASC"
    }
}

/// The comparison of `id` that a bound stands for, up to its value.
pub open spec fn comparison_text(bound: CursorBound) -> Text {
    match bound {
        CursorBound::AtMost(_) => "id <= "@,
        _ => "id >= "@,
    }
}

/// The value that a bound compares `id` with; the lowest row id for no
/// bound.
pub open spec fn comparison_value(bound: CursorBound) -> i64 {
    match bound {
        CursorBound::Unbounded => i64::MIN,
        CursorBound::AtMost(top) => top,
        CursorBound::AtLeast(bottom) => bottom,
    }
}

/// The comparison that a bound puts on `id`, and the value to bind to its
/// parameter. The comparison lets through exactly the row ids within the
/// bound.
pub fn bound_comparison(bound: CursorBound) -> (out: (&'static str, i64))
    ensures
        out.0@ == comparison_text(bound),
        out.1 == comparison_value(bound),
        forall|id: i64|
            bound.holds(id) == if bound is AtMost {
                id <= out.1
            } else {
                id >= out.1
            },
{
    match bound {
        CursorBound::Unbounded => ("id >= ", i64::MIN),
        CursorBound::AtMost(top) => ("id <= ", top),
        CursorBound::AtLeast(bottom) => ("id >= ", bottom),
    }
}

/// The limit of a listing as the value to bind: the limit itself, or the
/// highest row count there can be where the limit lies above it.
pub fn limit_value(limit: usize) -> (value: i64)
    ensures
        value == if limit <= i64::MAX {
            limit as int
        } else {
            i64::MAX as int
        },
{
    if limit as u64 <= 0x7fff_ffff_ffff_ffffu64 {
        limit as i64
    } else {
        i64::MAX
    }
}

/// A listing of digests from `table` by row id. `filter` is the condition on
/// the rows over the parameters `$1` to `$filters`; the cursor and the limit
/// are the two parameters after them.
pub open spec fn digest_page_text(
    table: Text,
    filter: Text,
    filters: nat,
    comparison: Text,
    descending: bool,
) -> Text {
    "SELECT transaction_digest AS digest FROM "@ + table + " WHERE "@ + filter + " AND "@
        + comparison + "$"@ + decimal(filters + 1) + " ORDER BY id "@ + direction_text(descending)
        + " LIMIT $"@ + decimal(filters + 2)
}

/// A listing of digests from `table` by row id.
pub fn digest_page(table: &str, filter: &str, filters: u8, comparison: &str, descending: bool) -> (
    statement: String)
    ensures
        statement@ == digest_page_text(table@, filter@, filters as nat, comparison@, descending),
{
    let mut statement = "SELECT transaction_digest AS digest FROM ".to_owned();
    statement.append(table);
    statement.append(" WHERE ");
    statement.append(filter);
    statement.append(" AND ");
    statement.append(comparison);
    statement.append("$");
    statement.append(decimal_text(filters as u64 + 1).as_str());
    statement.append(" ORDER BY id ");
    statement.append(direction(descending));
    statement.append(" LIMIT $");
    statement.append(decimal_text(filters as u64 + 2).as_str());
    statement
}

/// A listing of digests from `table` with one row per digest, placed by the
/// highest row id that the digest has among the rows within the filter and
/// the cursor.
pub open spec fn digest_page_per_digest_text(
    table: Text,
    filter: Text,
    filters: nat,
    comparison: Text,
    descending: bool,
) -> Text {
    "SELECT digest FROM (SELECT transaction_digest AS digest, MAX(id) AS max_id FROM "@ + table
        + " WHERE "@ + filter + " AND "@ + comparison + "$"@ + decimal(filters + 1)
        + " GROUP BY transaction_digest) AS t ORDER BY max_id "@ + direction_text(descending)
        + " LIMIT $"@ + decimal(filters + 2)
}

/// A listing of digests from `table` with one row per digest.
pub fn digest_page_per_digest(
    table: &str,
    filter: &str,
    filters: u8,
    comparison: &str,
    descending: bool,
) -> (statement: String)
    ensures
        statement@ == digest_page_per_digest_text(
            table@,
            filter@,
            filters as nat,
            comparison@,
            descending,
        ),
{
    let mut statement =
        "SELECT digest FROM (SELECT transaction_digest AS digest, MAX(id) AS max_id FROM ".to_owned();
    statement.append(table);
    statement.append(" WHERE ");
    statement.append(filter);
    statement.append(" AND ");
    statement.append(comparison);
    statement.append("$");
    statement.append(decimal_text(filters as u64 + 1).as_str());
    statement.append(" GROUP BY transaction_digest) AS t ORDER BY max_id ");
    statement.append(direction(descending));
    statement.append(" LIMIT $");
    statement.append(decimal_text(filters as u64 + 2).as_str());
    statement
}

/// The row id of the first row of `table` with the digest in `$1`, from the
/// end the direction names.
pub open spec fn row_id_by_digest_text(table: Text, descending: bool) -> Text {
    "SELECT id AS value FROM "@ + table + " WHERE transaction_digest = $1 ORDER BY id "@
        + direction_text(descending) + " LIMIT 1"@
}

/// The row id of the first row of `table` with the digest in `$1`.
pub fn row_id_by_digest(table: &str, descending: bool) -> (statement: String)
    ensures
        statement@ == row_id_by_digest_text(table@, descending),
{
    let mut statement = "SELECT id AS value FROM ".to_owned();
    statement.append(table);
    statement.append(" WHERE transaction_digest = $1 ORDER BY id ");
    statement.append(direction(descending));
    statement.append(" LIMIT 1");
    statement
}

} // verus!
