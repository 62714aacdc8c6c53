//! Errors reported by the store.

use crate::rows::{ErrorLog, ErrorLogView};
use crate::views::{clone_texts, views, Text};
use vstd::prelude::*;

verus! {

/// Why the backing tables refused a write.
#[derive(Clone, Copy, Debug, PartialEq, Eq, Structural)]
pub enum WriteFailure {
    /// The checkpoint's sequence number is below zero.
    InvalidSequenceNumber,
    /// A checkpoint with the same sequence number is already stored.
    DuplicateCheckpoint,
    /// A transaction digest is already stored, or occurs twice in the bundle.
    DuplicateTransaction,
    /// One batch of object changes names the same object twice.
    ObjectAffectedTwice,
    /// A table cannot number the new rows.
    RowIdsExhausted,
    /// A partition for the epoch exists already.
    PartitionExists,
    /// The epoch has no successor, so its range cannot be written.
    EpochOutOfRange,
    /// The backing store failed for a reason of its own.
    StoreFailure,
}

impl WriteFailure {
    /// A short description of the failure.
    pub open spec fn description(self) -> Text {
        match self {
            WriteFailure::InvalidSequenceNumber => "checkpoint sequence number below zero"@,
            WriteFailure::DuplicateCheckpoint => "checkpoint sequence number already stored"@,
            WriteFailure::DuplicateTransaction => "transaction digest already stored"@,
            WriteFailure::ObjectAffectedTwice => "object changed twice in one batch"@,
            WriteFailure::RowIdsExhausted => "row ids exhausted"@,
            WriteFailure::PartitionExists => "partition already exists"@,
            WriteFailure::EpochOutOfRange => "epoch has no successor"@,
            WriteFailure::StoreFailure => "backing store failed"@,
        }
    }

    /// The description as text.
    pub fn describe(&self) -> (text: String)
        ensures
            text@ == self.description(),
    {
        match self {
            WriteFailure::InvalidSequenceNumber => "checkpoint sequence number below zero".to_owned(),
            WriteFailure::DuplicateCheckpoint => "checkpoint sequence number already stored".to_owned(),
            WriteFailure::DuplicateTransaction => "transaction digest already stored".to_owned(),
            WriteFailure::ObjectAffectedTwice => "object changed twice in one batch".to_owned(),
            WriteFailure::RowIdsExhausted => "row ids exhausted".to_owned(),
            WriteFailure::PartitionExists => "partition already exists".to_owned(),
            WriteFailure::EpochOutOfRange => "epoch has no successor".to_owned(),
            WriteFailure::StoreFailure => "backing store failed".to_owned(),
        }
    }
}

/// What was being written when a write failed.
#[derive(Debug, PartialEq, Eq)]
pub enum WriteContext {
    /// A checkpoint bundle with these transaction digests.
    Checkpoint { transaction_digests: Vec<String> },
    /// The partitions of this epoch.
    Epoch { epoch: u64 },
}

/// The mathematical value of a [`WriteContext`].
pub enum WriteContextView {
    Checkpoint { transaction_digests: Seq<Text> },
    Epoch { epoch: u64 },
}

impl View for WriteContext {
    type V = WriteContextView;

    open spec fn view(&self) -> WriteContextView {
        match self {
            WriteContext::Checkpoint { transaction_digests } => WriteContextView::Checkpoint {
                transaction_digests: views(transaction_digests@),
            },
            WriteContext::Epoch { epoch } => WriteContextView::Epoch { epoch: *epoch },
        }
    }
}

impl Clone for WriteContext {
    fn clone(&self) -> (copy: Self)
        ensures
            copy@ == self@,
    {
        match self {
            WriteContext::Checkpoint { transaction_digests } => WriteContext::Checkpoint {
                transaction_digests: clone_texts(transaction_digests),
            },
            WriteContext::Epoch { epoch } => WriteContext::Epoch { epoch: *epoch },
        }
    }
}

/// An error of the store.
#[derive(Debug, PartialEq, Eq)]
pub enum IndexerError {
    /// A query against the backing store failed; the text says which.
    ReadError(String),
    /// A write was refused and nothing of it was kept.
    WriteError { failure: WriteFailure, context: WriteContext },
    /// A lookup found no matching row.
    NotFound,
}

/// The mathematical value of an [`IndexerError`].
pub enum IndexerErrorView {
    ReadError(Text),
    WriteError { failure: WriteFailure, context: WriteContextView },
    NotFound,
}

impl View for IndexerError {
    type V = IndexerErrorView;

    open spec fn view(&self) -> IndexerErrorView {
        match self {
            IndexerError::ReadError(text) => IndexerErrorView::ReadError(text@),
            IndexerError::WriteError { failure, context } => IndexerErrorView::WriteError {
                failure: *failure,
                context: context@,
            },
            IndexerError::NotFound => IndexerErrorView::NotFound,
        }
    }
}

impl Clone for IndexerError {
    fn clone(&self) -> (copy: Self)
        ensures
            copy@ == self@,
    {
        match self {
            IndexerError::ReadError(text) => IndexerError::ReadError(text.clone()),
            IndexerError::WriteError { failure, context } => IndexerError::WriteError {
                failure: *failure,
                context: context.clone(),
            },
            IndexerError::NotFound => IndexerError::NotFound,
        }
    }
}

impl IndexerErrorView {
    /// The name of the error's kind.
    pub open spec fn name(self) -> Text {
        match self {
            IndexerErrorView::ReadError(_) => "ReadError"@,
            IndexerErrorView::WriteError { .. } => "WriteError"@,
            IndexerErrorView::NotFound => "NotFound"@,
        }
    }

    /// What the error says went wrong.
    pub open spec fn message(self) -> Text {
        match self {
            IndexerErrorView::ReadError(text) => text,
            IndexerErrorView::WriteError { failure, .. } => failure.description(),
            IndexerErrorView::NotFound => "no matching row"@,
        }
    }
}

impl IndexerError {
    /// The error of a checkpoint bundle that was refused.
    pub fn checkpoint_write(failure: WriteFailure, transaction_digests: Vec<String>) -> (error: Self)
        ensures
            error@ == (IndexerErrorView::WriteError {
                failure,
                context: WriteContextView::Checkpoint {
                    transaction_digests: views(transaction_digests@),
                },
            }),
    {
        IndexerError::WriteError {
            failure,
            context: WriteContext::Checkpoint { transaction_digests },
        }
    }

    /// The error of an epoch whose partitions were refused.
    pub fn epoch_write(failure: WriteFailure, epoch: u64) -> (error: Self)
        ensures
            error@ == (IndexerErrorView::WriteError {
                failure,
                context: WriteContextView::Epoch { epoch },
            }),
    {
        IndexerError::WriteError { failure, context: WriteContext::Epoch { epoch } }
    }

    /// The log row of the error.
    pub fn to_log(&self) -> (row: ErrorLog)
        ensures
            row@ == (ErrorLogView { error_type: self@.name(), error: self@.message() }),
    {
        ErrorLog { error_type: self.name(), error: self.message() }
    }

    /// Whether this is a write error.
    pub fn is_write_error(&self) -> (b: bool)
        ensures
            b == (self@ is WriteError),
    {
        match self {
            IndexerError::WriteError { .. } => true,
            _ => false,
        }
    }

    /// The name of the error's kind.
    pub fn name(&self) -> (text: String)
        ensures
            text@ == self@.name(),
    {
        match self {
            IndexerError::ReadError(_) => "ReadError".to_owned(),
            IndexerError::WriteError { .. } => "WriteError".to_owned(),
            IndexerError::NotFound => "NotFound".to_owned(),
        }
    }

    /// What the error says went wrong.
    pub fn message(&self) -> (text: String)
        ensures
            text@ == self@.message(),
    {
        match self {
            IndexerError::ReadError(text) => text.clone(),
            IndexerError::WriteError { failure, .. } => failure.describe(),
            IndexerError::NotFound => "no matching row".to_owned(),
        }
    }
}

} // verus!
