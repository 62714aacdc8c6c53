use sui_indexer::paging::{cursor_bound, CursorBound};
use sui_indexer::rows::ObjectStatus;
use sui_indexer::statements::{
    bound_comparison, digest_page, digest_page_per_digest, direction, limit_value,
    row_id_by_digest, ANY_ROW, CALLS_INTO, PAID_TO, SENT_BY,
};

#[test]
fn direction_words() {
    assert_eq!(direction(false), "ASC");
    assert_eq!(direction(true), "DESC");
}

#[test]
fn bounds_become_comparisons() {
    assert_eq!(bound_comparison(CursorBound::Unbounded), ("id >= ", i64::MIN));
    assert_eq!(bound_comparison(CursorBound::AtMost(7)), ("id <= ", 7));
    assert_eq!(bound_comparison(CursorBound::AtLeast(-3)), ("id >= ", -3));
    assert_eq!(bound_comparison(cursor_bound(Some(5), true)), ("id <= ", 5));
    assert_eq!(bound_comparison(cursor_bound(Some(5), false)), ("id >= ", 5));
}

#[test]
fn listing_statement_numbers_cursor_and_limit_after_the_filters() {
    assert_eq!(
        digest_page("transactions", ANY_ROW, 0, "id >= ", false),
        "SELECT transaction_digest AS digest FROM transactions WHERE TRUE AND id >= $1 \
         ORDER BY id ASC LIMIT $2"
    );
    assert_eq!(
        digest_page("transactions", SENT_BY, 1, "id <= ", true),
        "SELECT transaction_digest AS digest FROM transactions WHERE sender = $1 AND id <= $2 \
         ORDER BY id DESC LIMIT $3"
    );
}

#[test]
fn listing_statement_with_one_row_per_digest() {
    assert_eq!(
        digest_page_per_digest("recipients", PAID_TO, 1, "id >= ", false),
        "SELECT digest FROM (SELECT transaction_digest AS digest, MAX(id) AS max_id FROM \
         recipients WHERE recipient = $1 AND id >= $2 GROUP BY transaction_digest) AS t \
         ORDER BY max_id ASC LIMIT $3"
    );
    assert_eq!(
        digest_page_per_digest("move_calls", CALLS_INTO, 3, "id <= ", true),
        "SELECT digest FROM (SELECT transaction_digest AS digest, MAX(id) AS max_id FROM \
         move_calls WHERE move_package = $1 AND ($2 IS NULL OR move_module = $2) AND \
         ($3 IS NULL OR move_function = $3) AND id <= $4 GROUP BY transaction_digest) AS t \
         ORDER BY max_id DESC LIMIT $5"
    );
}

#[test]
fn row_id_lookup_statement() {
    assert_eq!(
        row_id_by_digest("move_calls", true),
        "SELECT id AS value FROM move_calls WHERE transaction_digest = $1 ORDER BY id DESC LIMIT 1"
    );
    assert_eq!(
        row_id_by_digest("transactions", false),
        "SELECT id AS value FROM transactions WHERE transaction_digest = $1 ORDER BY id ASC LIMIT 1"
    );
}

#[test]
fn limit_is_bound_as_a_signed_number() {
    assert_eq!(limit_value(0), 0);
    assert_eq!(limit_value(50), 50);
    assert_eq!(limit_value(usize::MAX), i64::MAX);
}

#[test]
fn object_status_names() {
    assert_eq!(ObjectStatus::Created.name(), "created");
    assert_eq!(ObjectStatus::Mutated.name(), "mutated");
    assert_eq!(ObjectStatus::Deleted.name(), "deleted");
    assert_eq!(ObjectStatus::Wrapped.name(), "wrapped");
    assert_eq!(ObjectStatus::Unwrapped.name(), "unwrapped");
    assert_eq!(ObjectStatus::UnwrappedThenDeleted.name(), "unwrapped_then_deleted");
}
