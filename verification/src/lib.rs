//! A checkpoint indexing and query store: it records the effects of a ledger's
//! execution checkpoint by checkpoint and answers historical queries over them.
//!
//! The store keeps its tables in memory. [`store::PgIndexerStore`] writes one
//! checkpoint at a time, all of it or nothing, creates the partitions of new
//! epochs and answers the read operations; [`paging`] holds the cursor rules
//! that all digest listings share; [`laws`] states what holds of the store as
//! a whole. [`plan`] gives the same write as a list of steps for a backing
//! store that takes them one at a time.

pub mod base_types;
pub mod collection_types;
pub mod committee_store;
pub mod decimal;
pub mod encoding;
pub mod errors;
pub mod filters;
pub mod laws;
pub mod messages;
pub mod paging;
pub mod partition;
pub mod plan;
pub mod queries;
pub mod rows;
pub mod statements;
pub mod store;
pub mod sui_transaction;
pub mod tables;
pub mod views;
