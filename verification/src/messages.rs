//! The ledger's own forms of the values that the wire types show.

use crate::base_types::{
    EpochId, ObjectID, ObjectRef, Owner, SequenceNumber, SuiAddress, TransactionDigest,
    TransactionEventsDigest,
};
use vstd::prelude::*;

verus! {

/// What a transaction cost.
#[derive(Clone, Copy, Debug, PartialEq, Eq, Structural)]
pub struct GasCostSummary {
    pub computation_cost: u64,
    pub storage_cost: u64,
    pub storage_rebate: u64,
}

/// Pays recipients from a set of coins.
#[derive(Debug, PartialEq, Eq)]
pub struct Pay {
    pub coins: Vec<ObjectRef>,
    pub recipients: Vec<SuiAddress>,
    pub amounts: Vec<u64>,
}

/// Pays recipients from a set of coins that also pay for the gas.
#[derive(Debug, PartialEq, Eq)]
pub struct PaySui {
    pub coins: Vec<ObjectRef>,
    pub recipients: Vec<SuiAddress>,
    pub amounts: Vec<u64>,
}

/// Sends all of a set of coins to one recipient.
#[derive(Debug, PartialEq, Eq)]
pub struct PayAllSui {
    pub coins: Vec<ObjectRef>,
    pub recipient: SuiAddress,
}

/// An argument of a command of a programmable transaction.
#[derive(Clone, Copy, Debug, PartialEq, Eq, Structural)]
pub enum Argument {
    GasCoin,
    Input(u16),
    Result(u16),
    NestedResult(u16, u16),
}

/// An object that a transaction takes as input.
#[derive(Clone, Copy, Debug, PartialEq, Eq)]
pub enum InputObjectKind {
    MovePackage(ObjectID),
    ImmOrOwnedMoveObject(ObjectRef),
    SharedMoveObject { id: ObjectID, initial_shared_version: SequenceNumber, mutable: bool },
}

/// How the execution of a transaction ended. A failure carries the text of
/// its error and, where known, the command that failed.
#[derive(Debug, PartialEq, Eq)]
pub enum ExecutionStatus {
    Success,
    Failure { error: String, command: Option<usize> },
}

/// The effects of a transaction as the ledger records them, with the version
/// of their form.
#[derive(Debug, PartialEq, Eq)]
pub struct TransactionEffects {
    pub message_version: u64,
    pub status: ExecutionStatus,
    pub executed_epoch: EpochId,
    pub gas_used: GasCostSummary,
    pub shared_objects: Vec<ObjectRef>,
    pub transaction_digest: TransactionDigest,
    pub created: Vec<(ObjectRef, Owner)>,
    pub mutated: Vec<(ObjectRef, Owner)>,
    pub unwrapped: Vec<(ObjectRef, Owner)>,
    pub deleted: Vec<ObjectRef>,
    pub unwrapped_then_deleted: Vec<ObjectRef>,
    pub wrapped: Vec<ObjectRef>,
    pub gas_object: (ObjectRef, Owner),
    pub events_digest: Option<TransactionEventsDigest>,
    pub dependencies: Vec<TransactionDigest>,
}

} // verus!
