//! The wire forms of transactions and of their effects.

use crate::base_types::{
    EpochId, ObjectID, ObjectRef, Owner, SequenceNumber, SuiAddress, SuiObjectRef,
    TransactionDigest, TransactionEventsDigest,
};
use crate::decimal::{decimal, decimal_text};
use crate::messages::{
    Argument, ExecutionStatus, GasCostSummary, InputObjectKind, Pay, PayAllSui, PaySui,
    TransactionEffects,
};
use crate::filters::lemma_filter_step;
use crate::views::{lemma_take_all, views, Text};
use vstd::prelude::*;

verus! {

/// A number that is written as text on the wire.
#[derive(Clone, Copy, Debug, PartialEq, Eq, Structural)]
pub struct BigInt(pub u64);

impl BigInt {
    /// The number.
    pub fn value(&self) -> (v: u64)
        ensures
            v == self.0,
    {
        self.0
    }
}

impl From<u64> for BigInt {
    fn from(v: u64) -> (x: BigInt)
        ensures
            x.0 == v,
    {
        BigInt(v)
    }
}

impl vstd::std_specs::convert::FromSpecImpl<u64> for BigInt {
    open spec fn obeys_from_spec() -> bool {
        true
    }

    open spec fn from_spec(v: u64) -> BigInt {
        BigInt(v)
    }
}

impl From<BigInt> for u64 {
    fn from(x: BigInt) -> (v: u64)
        ensures
            v == x.0,
    {
        x.0
    }
}

impl vstd::std_specs::convert::FromSpecImpl<BigInt> for u64 {
    open spec fn obeys_from_spec() -> bool {
        true
    }

    open spec fn from_spec(x: BigInt) -> u64 {
        x.0
    }
}

/// Which parts of a transaction a response shall show.
#[derive(Clone, Copy, Debug, PartialEq, Eq, Structural)]
pub struct SuiTransactionResponseOptions {
    /// Whether to show the transaction's input data.
    pub show_input: bool,
    /// Whether to show the transaction's effects.
    pub show_effects: bool,
    /// Whether to show the transaction's events.
    pub show_events: bool,
}

impl Default for SuiTransactionResponseOptions {
    /// Options that show nothing.
    fn default() -> (options: Self)
        ensures
            options == (SuiTransactionResponseOptions {
                show_input: false,
                show_effects: false,
                show_events: false,
            }),
    {
        SuiTransactionResponseOptions { show_input: false, show_effects: false, show_events: false }
    }
}

impl SuiTransactionResponseOptions {
    /// Options that show nothing.
    pub fn new() -> (options: Self)
        ensures
            options == (SuiTransactionResponseOptions {
                show_input: false,
                show_effects: false,
                show_events: false,
            }),
    {
        SuiTransactionResponseOptions { show_input: false, show_effects: false, show_events: false }
    }

    /// Options that show everything.
    pub fn full_content() -> (options: Self)
        ensures
            options == (SuiTransactionResponseOptions {
                show_input: true,
                show_effects: true,
                show_events: true,
            }),
    {
        SuiTransactionResponseOptions { show_effects: true, show_input: true, show_events: true }
    }

    /// The same options, showing the input as well.
    pub fn with_input(self) -> (options: Self)
        ensures
            options == (SuiTransactionResponseOptions { show_input: true, ..self }),
    {
        SuiTransactionResponseOptions { show_input: true, show_effects: self.show_effects, show_events: self.show_events }
    }

    /// The same options, showing the effects as well.
    pub fn with_effects(self) -> (options: Self)
        ensures
            options == (SuiTransactionResponseOptions { show_effects: true, ..self }),
    {
        SuiTransactionResponseOptions { show_input: self.show_input, show_effects: true, show_events: self.show_events }
    }

    /// The same options, showing the events as well.
    pub fn with_events(self) -> (options: Self)
        ensures
            options == (SuiTransactionResponseOptions { show_events: true, ..self }),
    {
        SuiTransactionResponseOptions { show_input: self.show_input, show_effects: self.show_effects, show_events: true }
    }
}

/// The change to a new epoch.
#[derive(Clone, Copy, Debug, PartialEq, Eq, Structural)]
pub struct SuiChangeEpoch {
    pub epoch: EpochId,
    pub storage_charge: u64,
    pub computation_charge: u64,
    pub storage_rebate: u64,
    pub epoch_start_timestamp_ms: u64,
}

/// The start of the transactions of a consensus commit.
#[derive(Clone, Copy, Debug, PartialEq, Eq, Structural)]
pub struct SuiConsensusCommitPrologue {
    pub epoch: u64,
    pub round: u64,
    pub commit_timestamp_ms: u64,
}

/// The objects that the first transaction of the ledger created.
#[derive(Debug, Clone, PartialEq, Eq)]
pub struct SuiGenesisTransaction {
    pub objects: Vec<ObjectID>,
}

/// The transfer of an object to a recipient.
#[derive(Clone, Copy, Debug, PartialEq, Eq)]
pub struct SuiTransferObject {
    pub recipient: SuiAddress,
    pub object_ref: SuiObjectRef,
}

/// The transfer of coins to a recipient: an amount, or the whole balance.
#[derive(Clone, Copy, Debug, PartialEq, Eq)]
pub struct SuiTransferSui {
    pub recipient: SuiAddress,
    pub amount: Option<u64>,
}

/// The recipient and the object of a transfer that is asked for.
#[derive(Clone, Copy, Debug, PartialEq, Eq)]
pub struct TransferObjectParams {
    pub recipient: SuiAddress,
    pub object_id: ObjectID,
}

/// Whether a transaction is built to be committed or only to be inspected.
#[derive(Clone, Copy, Debug, PartialEq, Eq, Structural)]
pub enum SuiTransactionBuilderMode {
    /// A regular transaction that is committed on the ledger.
    Commit,
    /// A simulated transaction that may call any function with any values.
    DevInspect,
}

/// How the execution of a transaction ended.
#[derive(Debug, PartialEq, Eq)]
pub enum SuiExecutionStatus {
    Success,
    Failure { error: String },
}

impl Clone for SuiExecutionStatus {
    fn clone(&self) -> (copy: Self)
        ensures
            copy.is_ok_spec() == self.is_ok_spec(),
            copy.error_text() == self.error_text(),
    {
        match self {
            SuiExecutionStatus::Success => SuiExecutionStatus::Success,
            SuiExecutionStatus::Failure { error } => SuiExecutionStatus::Failure {
                error: error.clone(),
            },
        }
    }
}

impl SuiExecutionStatus {
    /// Whether the execution succeeded.
    pub open spec fn is_ok_spec(&self) -> bool {
        self is Success
    }

    /// The text of the error, empty for a success.
    pub open spec fn error_text(&self) -> Text {
        match self {
            SuiExecutionStatus::Success => Seq::empty(),
            SuiExecutionStatus::Failure { error } => error@,
        }
    }

    /// The text of the error of a failed execution: the error itself and,
    /// where the failing command is known, its position.
    pub open spec fn failure_text(error: Text, command: Option<usize>) -> Text {
        match command {
            None => error,
            Some(position) => error + " in command "@ + decimal(position as nat),
        }
    }

    /// The wire form of the end of an execution.
    pub fn from_status(status: ExecutionStatus) -> (out: Self)
        ensures
            match status {
                ExecutionStatus::Success => out is Success,
                ExecutionStatus::Failure { error, command } => out is Failure && out.error_text()
                    == SuiExecutionStatus::failure_text(error@, command),
            },
    {
        match status {
            ExecutionStatus::Success => SuiExecutionStatus::Success,
            ExecutionStatus::Failure { error, command: None } => SuiExecutionStatus::Failure {
                error,
            },
            ExecutionStatus::Failure { error, command: Some(position) } => {
                let mut text = error;
                text.append(" in command ");
                text.append(decimal_text(position as u64).as_str());
                SuiExecutionStatus::Failure { error: text }
            },
        }
    }

    /// Whether the execution succeeded.
    pub fn is_ok(&self) -> (ok: bool)
        ensures
            ok == (self is Success),
    {
        match self {
            SuiExecutionStatus::Success => true,
            SuiExecutionStatus::Failure { .. } => false,
        }
    }

    /// Whether the execution failed.
    pub fn is_err(&self) -> (failed: bool)
        ensures
            failed == (self is Failure),
    {
        match self {
            SuiExecutionStatus::Success => false,
            SuiExecutionStatus::Failure { .. } => true,
        }
    }
}

/// What a transaction cost.
#[derive(Clone, Copy, Debug, PartialEq, Eq, Structural)]
pub struct SuiGasCostSummary {
    pub computation_cost: u64,
    pub storage_cost: u64,
    pub storage_rebate: u64,
}

impl From<GasCostSummary> for SuiGasCostSummary {
    /// The wire form of a cost summary.
    fn from(s: GasCostSummary) -> (summary: Self)
        ensures
            summary.computation_cost == s.computation_cost,
            summary.storage_cost == s.storage_cost,
            summary.storage_rebate == s.storage_rebate,
    {
        SuiGasCostSummary {
            computation_cost: s.computation_cost,
            storage_cost: s.storage_cost,
            storage_rebate: s.storage_rebate,
        }
    }
}

impl vstd::std_specs::convert::FromSpecImpl<GasCostSummary> for SuiGasCostSummary {
    open spec fn obeys_from_spec() -> bool {
        true
    }

    open spec fn from_spec(s: GasCostSummary) -> SuiGasCostSummary {
        SuiGasCostSummary {
            computation_cost: s.computation_cost,
            storage_cost: s.storage_cost,
            storage_rebate: s.storage_rebate,
        }
    }
}

/// The objects that pay for the gas, their owner, and the price and budget.
#[derive(Debug, Clone, PartialEq, Eq)]
pub struct SuiGasData {
    pub payment: Vec<SuiObjectRef>,
    pub owner: SuiAddress,
    pub price: u64,
    pub budget: u64,
}

/// An object together with its owner.
#[derive(Clone, Copy, Debug, PartialEq, Eq)]
pub struct OwnedObjectRef {
    pub owner: Owner,
    pub reference: SuiObjectRef,
}

impl OwnedObjectRef {
    /// Whether both name the same object with the same owner.
    pub fn equals(&self, other: &OwnedObjectRef) -> (same: bool)
        ensures
            same == (*self == *other),
    {
        self.owner.equals(&other.owner) && self.reference.equals(&other.reference)
    }
}

/// The wire forms of object references, in their order.
pub fn to_sui_object_ref(refs: Vec<ObjectRef>) -> (out: Vec<SuiObjectRef>)
    ensures
        out@ == refs@.map_values(|oref: ObjectRef| SuiObjectRef::from_ref_spec(oref)),
{
    let mut out: Vec<SuiObjectRef> = Vec::new();
    let mut i: usize = 0;
    while i < refs.len()
        invariant
            i <= refs.len(),
            out.len() == i,
            forall|k: int| 0 <= k < i ==> #[trigger] out@[k] == SuiObjectRef::from_ref_spec(refs@[k]),
        decreases refs.len() - i,
    {
        out.push(SuiObjectRef::from_ref(refs[i]));
        i = i + 1;
    }
    assert(out@ =~= refs@.map_values(|oref: ObjectRef| SuiObjectRef::from_ref_spec(oref)));
    out
}

/// The wire form of an object reference with its owner.
pub open spec fn owned_ref_of(pair: (ObjectRef, Owner)) -> OwnedObjectRef {
    OwnedObjectRef { owner: pair.1, reference: SuiObjectRef::from_ref_spec(pair.0) }
}

/// The wire forms of object references with their owners, in their order.
pub fn to_owned_ref(owned_refs: Vec<(ObjectRef, Owner)>) -> (out: Vec<OwnedObjectRef>)
    ensures
        out@ == owned_refs@.map_values(|pair: (ObjectRef, Owner)| owned_ref_of(pair)),
{
    let mut out: Vec<OwnedObjectRef> = Vec::new();
    let mut i: usize = 0;
    while i < owned_refs.len()
        invariant
            i <= owned_refs.len(),
            out.len() == i,
            forall|k: int| 0 <= k < i ==> #[trigger] out@[k] == owned_ref_of(owned_refs@[k]),
        decreases owned_refs.len() - i,
    {
        let pair = owned_refs[i];
        out.push(OwnedObjectRef { owner: pair.1, reference: SuiObjectRef::from_ref(pair.0) });
        i = i + 1;
    }
    assert(out@ =~= owned_refs@.map_values(|pair: (ObjectRef, Owner)| owned_ref_of(pair)));
    out
}

/// The amounts as numbers of the wire, in their order.
pub fn to_big_ints(amounts: &Vec<u64>) -> (out: Vec<BigInt>)
    ensures
        out@ == amounts@.map_values(|amount: u64| BigInt(amount)),
{
    let mut out: Vec<BigInt> = Vec::new();
    let mut i: usize = 0;
    while i < amounts.len()
        invariant
            i <= amounts.len(),
            out.len() == i,
            forall|k: int| 0 <= k < i ==> #[trigger] out@[k] == BigInt(amounts@[k]),
        decreases amounts.len() - i,
    {
        out.push(BigInt(amounts[i]));
        i = i + 1;
    }
    assert(out@ =~= amounts@.map_values(|amount: u64| BigInt(amount)));
    out
}

/// Pays recipients from a set of coins.
#[derive(Debug, Clone, PartialEq, Eq)]
pub struct SuiPay {
    /// The coins to be used for payment.
    pub coins: Vec<SuiObjectRef>,
    /// The addresses that will receive payment.
    pub recipients: Vec<SuiAddress>,
    /// The amount each recipient will receive.
    pub amounts: Vec<BigInt>,
}

impl SuiPay {
    /// The wire form of a payment.
    pub fn from_pay(p: Pay) -> (pay: Self)
        ensures
            pay.coins@ == p.coins@.map_values(|oref: ObjectRef| SuiObjectRef::from_ref_spec(oref)),
            pay.recipients@ == p.recipients@,
            pay.amounts@ == p.amounts@.map_values(|amount: u64| BigInt(amount)),
    {
        let amounts = to_big_ints(&p.amounts);
        SuiPay { coins: to_sui_object_ref(p.coins), recipients: p.recipients, amounts }
    }
}

/// Pays recipients from a set of coins that also pay for the gas.
#[derive(Debug, Clone, PartialEq, Eq)]
pub struct SuiPaySui {
    /// The coins to be used for payment.
    pub coins: Vec<SuiObjectRef>,
    /// The addresses that will receive payment.
    pub recipients: Vec<SuiAddress>,
    /// The amount each recipient will receive.
    pub amounts: Vec<BigInt>,
}

impl SuiPaySui {
    /// The wire form of a payment.
    pub fn from_pay_sui(p: PaySui) -> (pay: Self)
        ensures
            pay.coins@ == p.coins@.map_values(|oref: ObjectRef| SuiObjectRef::from_ref_spec(oref)),
            pay.recipients@ == p.recipients@,
            pay.amounts@ == p.amounts@.map_values(|amount: u64| BigInt(amount)),
    {
        let amounts = to_big_ints(&p.amounts);
        SuiPaySui { coins: to_sui_object_ref(p.coins), recipients: p.recipients, amounts }
    }
}

/// Sends all of a set of coins to one recipient.
#[derive(Debug, Clone, PartialEq, Eq)]
pub struct SuiPayAllSui {
    /// The coins to be used for payment.
    pub coins: Vec<SuiObjectRef>,
    /// The address that will receive payment.
    pub recipient: SuiAddress,
}

impl SuiPayAllSui {
    /// The wire form of a payment.
    pub fn from_pay_all_sui(p: PayAllSui) -> (pay: Self)
        ensures
            pay.coins@ == p.coins@.map_values(|oref: ObjectRef| SuiObjectRef::from_ref_spec(oref)),
            pay.recipient == p.recipient,
    {
        SuiPayAllSui { coins: to_sui_object_ref(p.coins), recipient: p.recipient }
    }
}

/// Whether a shared object is taken mutably where nothing says so.
pub fn default_shared_object_mutability() -> (mutable: bool)
    ensures
        mutable,
{
    true
}

/// An object that a transaction takes as input.
#[derive(Clone, Copy, Debug, PartialEq, Eq)]
pub enum SuiInputObjectKind {
    /// A package; it cannot change.
    MovePackage(ObjectID),
    /// An object that cannot change or that is owned.
    ImmOrOwnedMoveObject(SuiObjectRef),
    /// An object that is shared.
    SharedMoveObject { id: ObjectID, initial_shared_version: SequenceNumber, mutable: bool },
}

impl SuiInputObjectKind {
    /// The wire form of an input object.
    pub open spec fn from_kind_spec(input: InputObjectKind) -> SuiInputObjectKind {
        match input {
            InputObjectKind::MovePackage(id) => SuiInputObjectKind::MovePackage(id),
            InputObjectKind::ImmOrOwnedMoveObject(oref) => SuiInputObjectKind::ImmOrOwnedMoveObject(
                SuiObjectRef::from_ref_spec(oref),
            ),
            InputObjectKind::SharedMoveObject { id, initial_shared_version, mutable } => {
                SuiInputObjectKind::SharedMoveObject { id, initial_shared_version, mutable }
            },
        }
    }
}

impl From<InputObjectKind> for SuiInputObjectKind {
    /// The wire form of an input object.
    fn from(input: InputObjectKind) -> (kind: Self)
        ensures
            kind == SuiInputObjectKind::from_kind_spec(input),
    {
        match input {
            InputObjectKind::MovePackage(id) => SuiInputObjectKind::MovePackage(id),
            InputObjectKind::ImmOrOwnedMoveObject(oref) => SuiInputObjectKind::ImmOrOwnedMoveObject(
                SuiObjectRef::from_ref(oref),
            ),
            InputObjectKind::SharedMoveObject { id, initial_shared_version, mutable } => {
                SuiInputObjectKind::SharedMoveObject { id, initial_shared_version, mutable }
            },
        }
    }
}

impl vstd::std_specs::convert::FromSpecImpl<InputObjectKind> for SuiInputObjectKind {
    open spec fn obeys_from_spec() -> bool {
        true
    }

    open spec fn from_spec(input: InputObjectKind) -> SuiInputObjectKind {
        SuiInputObjectKind::from_kind_spec(input)
    }
}

/// An argument of a command of a programmable transaction.
#[derive(Clone, Copy, Debug, PartialEq, Eq, Structural)]
pub enum SuiArgument {
    /// The gas coin.
    GasCoin,
    /// One of the inputs of the transaction.
    Input(u16),
    /// The result of another command.
    Result(u16),
    /// One of the results of another command.
    NestedResult(u16, u16),
}

impl SuiArgument {
    /// The argument written out: its kind, followed in brackets by its
    /// positions where it has any.
    pub open spec fn text(self) -> Text {
        match self {
            SuiArgument::GasCoin => "GasCoin"@,
            SuiArgument::Input(i) => "Input("@ + decimal(i as nat) + ")"@,
            SuiArgument::Result(i) => "Result("@ + decimal(i as nat) + ")"@,
            SuiArgument::NestedResult(i, j) => "NestedResult("@ + decimal(i as nat) + ","@
                + decimal(j as nat) + ")"@,
        }
    }

    /// The argument written out.
    pub fn to_text(&self) -> (text: String)
        ensures
            text@ == self.text(),
    {
        match self {
            SuiArgument::GasCoin => "GasCoin".to_owned(),
            SuiArgument::Input(i) => {
                let mut text = "Input(".to_owned();
                text.append(decimal_text(*i as u64).as_str());
                text.append(")");
                text
            },
            SuiArgument::Result(i) => {
                let mut text = "Result(".to_owned();
                text.append(decimal_text(*i as u64).as_str());
                text.append(")");
                text
            },
            SuiArgument::NestedResult(i, j) => {
                let mut text = "NestedResult(".to_owned();
                text.append(decimal_text(*i as u64).as_str());
                text.append(",");
                text.append(decimal_text(*j as u64).as_str());
                text.append(")");
                text
            },
        }
    }

    /// The wire form of an argument.
    pub open spec fn from_argument_spec(value: Argument) -> SuiArgument {
        match value {
            Argument::GasCoin => SuiArgument::GasCoin,
            Argument::Input(i) => SuiArgument::Input(i),
            Argument::Result(i) => SuiArgument::Result(i),
            Argument::NestedResult(i, j) => SuiArgument::NestedResult(i, j),
        }
    }
}

impl From<Argument> for SuiArgument {
    /// The wire form of an argument.
    fn from(value: Argument) -> (argument: Self)
        ensures
            argument == SuiArgument::from_argument_spec(value),
    {
        match value {
            Argument::GasCoin => SuiArgument::GasCoin,
            Argument::Input(i) => SuiArgument::Input(i),
            Argument::Result(i) => SuiArgument::Result(i),
            Argument::NestedResult(i, j) => SuiArgument::NestedResult(i, j),
        }
    }
}

impl vstd::std_specs::convert::FromSpecImpl<Argument> for SuiArgument {
    open spec fn obeys_from_spec() -> bool {
        true
    }

    open spec fn from_spec(value: Argument) -> SuiArgument {
        SuiArgument::from_argument_spec(value)
    }
}

/// A call of a function in a programmable transaction.
#[derive(Debug, PartialEq, Eq)]
pub struct SuiProgrammableMoveCall {
    /// The package containing the module and function.
    pub package: ObjectID,
    /// The module in the package containing the function.
    pub module: String,
    /// The function to be called.
    pub function: String,
    /// The type arguments to the function.
    pub type_arguments: Vec<String>,
    /// The arguments to the function.
    pub arguments: Vec<SuiArgument>,
}

/// A type, written as text.
#[derive(Debug, PartialEq, Eq)]
pub struct SuiTypeTag(pub String);

/// What the execution of one command returned.
#[derive(Debug, PartialEq, Eq)]
pub struct SuiExecutionResult {
    /// The values of the arguments that were borrowed mutably, each with the
    /// index of its local.
    pub mutable_reference_outputs: Vec<(u8, Vec<u8>, SuiTypeTag)>,
    /// The values that the function returned.
    pub return_values: Vec<(Vec<u8>, SuiTypeTag)>,
}

/// The items with the separator written before each of them but the last.
pub open spec fn separated(items: Seq<Text>, sep: Text) -> Text {
    separated_first(items, sep, items.len() as int)
}

/// What [`separated`] has written after the first `count` items.
pub open spec fn separated_first(items: Seq<Text>, sep: Text, count: int) -> Text
    decreases count,
{
    if count <= 0 {
        Seq::empty()
    } else if count < items.len() {
        separated_first(items, sep, count - 1) + sep + items[count - 1]
    } else {
        separated_first(items, sep, count - 1) + items[count - 1]
    }
}

/// Writes the items one after the other, and the separator before each item
/// that has another one after it.
pub fn write_sep(items: &Vec<String>, sep: &str) -> (text: String)
    ensures
        text@ == separated(views(items@), sep@),
{
    let mut text = String::new();
    let mut i: usize = 0;
    while i < items.len()
        invariant
            i <= items.len(),
            text@ == separated_first(views(items@), sep@, i as int),
        decreases items.len() - i,
    {
        if i + 1 < items.len() {
            text.append(sep);
        }
        text.append(items[i].as_str());
        i = i + 1;
    }
    text
}

/// The effects of a transaction.
#[derive(Debug, PartialEq, Eq)]
pub struct SuiTransactionEffectsV1 {
    /// How the execution ended.
    pub status: SuiExecutionStatus,
    /// The epoch in which the transaction was executed.
    pub executed_epoch: EpochId,
    /// What the transaction cost.
    pub gas_used: SuiGasCostSummary,
    /// The shared objects that the transaction used.
    pub shared_objects: Vec<SuiObjectRef>,
    /// The digest of the transaction.
    pub transaction_digest: TransactionDigest,
    /// The objects that were created, with their owners.
    pub created: Vec<OwnedObjectRef>,
    /// The objects that were mutated, the gas object among them.
    pub mutated: Vec<OwnedObjectRef>,
    /// The objects that were unwrapped.
    pub unwrapped: Vec<OwnedObjectRef>,
    /// The objects that were deleted.
    pub deleted: Vec<SuiObjectRef>,
    /// The objects that were unwrapped and then deleted.
    pub unwrapped_then_deleted: Vec<SuiObjectRef>,
    /// The objects that were wrapped into other objects.
    pub wrapped: Vec<SuiObjectRef>,
    /// The gas object after the transaction; it is among the mutated ones.
    pub gas_object: OwnedObjectRef,
    /// The digest of the events, where any were emitted.
    pub events_digest: Option<TransactionEventsDigest>,
    /// The digests of the transactions that this one depends on.
    pub dependencies: Vec<TransactionDigest>,
}

/// The effects of a transaction, by the version of their form.
#[derive(Debug, PartialEq, Eq)]
pub enum SuiTransactionEffects {
    V1(SuiTransactionEffectsV1),
}

/// The parts of the effects of a transaction.
pub trait SuiTransactionEffectsAPI {
    fn status(&self) -> &SuiExecutionStatus;

    fn into_status(self) -> SuiExecutionStatus;

    fn shared_objects(&self) -> &[SuiObjectRef];

    fn created(&self) -> &[OwnedObjectRef];

    fn mutated(&self) -> &[OwnedObjectRef];

    fn unwrapped(&self) -> &[OwnedObjectRef];

    fn deleted(&self) -> &[SuiObjectRef];

    fn unwrapped_then_deleted(&self) -> &[SuiObjectRef];

    fn wrapped(&self) -> &[SuiObjectRef];

    fn gas_object(&self) -> &OwnedObjectRef;

    fn events_digest(&self) -> Option<&TransactionEventsDigest>;

    fn dependencies(&self) -> &[TransactionDigest];

    fn executed_epoch(&self) -> EpochId;

    fn transaction_digest(&self) -> &TransactionDigest;

    fn gas_used(&self) -> &SuiGasCostSummary;

    /// The mutated objects without the gas object.
    fn mutated_excluding_gas(&self) -> Vec<OwnedObjectRef>;
}

/// Whether an object is another one than the gas object.
pub open spec fn is_not(gas_object: OwnedObjectRef) -> spec_fn(OwnedObjectRef) -> bool {
    |o: OwnedObjectRef| o != gas_object
}

/// The objects among `mutated` that are not the gas object, in their order.
pub open spec fn without_gas(mutated: Seq<OwnedObjectRef>, gas_object: OwnedObjectRef) -> Seq<
    OwnedObjectRef,
> {
    mutated.filter(is_not(gas_object))
}

impl SuiTransactionEffectsAPI for SuiTransactionEffectsV1 {
    fn status(&self) -> (status: &SuiExecutionStatus)
        ensures
            status == &self.status,
    {
        &self.status
    }

    fn into_status(self) -> (status: SuiExecutionStatus)
        ensures
            status == self.status,
    {
        self.status
    }

    fn shared_objects(&self) -> (objects: &[SuiObjectRef])
        ensures
            objects@ == self.shared_objects@,
    {
        self.shared_objects.as_slice()
    }

    fn created(&self) -> (objects: &[OwnedObjectRef])
        ensures
            objects@ == self.created@,
    {
        self.created.as_slice()
    }

    fn mutated(&self) -> (objects: &[OwnedObjectRef])
        ensures
            objects@ == self.mutated@,
    {
        self.mutated.as_slice()
    }

    fn unwrapped(&self) -> (objects: &[OwnedObjectRef])
        ensures
            objects@ == self.unwrapped@,
    {
        self.unwrapped.as_slice()
    }

    fn deleted(&self) -> (objects: &[SuiObjectRef])
        ensures
            objects@ == self.deleted@,
    {
        self.deleted.as_slice()
    }

    fn unwrapped_then_deleted(&self) -> (objects: &[SuiObjectRef])
        ensures
            objects@ == self.unwrapped_then_deleted@,
    {
        self.unwrapped_then_deleted.as_slice()
    }

    fn wrapped(&self) -> (objects: &[SuiObjectRef])
        ensures
            objects@ == self.wrapped@,
    {
        self.wrapped.as_slice()
    }

    fn gas_object(&self) -> (object: &OwnedObjectRef)
        ensures
            object == &self.gas_object,
    {
        &self.gas_object
    }

    fn events_digest(&self) -> (digest: Option<&TransactionEventsDigest>)
        ensures
            digest is Some == self.events_digest is Some,
            digest matches Some(d) ==> Some(*d) == self.events_digest,
    {
        self.events_digest.as_ref()
    }

    fn dependencies(&self) -> (digests: &[TransactionDigest])
        ensures
            digests@ == self.dependencies@,
    {
        self.dependencies.as_slice()
    }

    fn executed_epoch(&self) -> (epoch: EpochId)
        ensures
            epoch == self.executed_epoch,
    {
        self.executed_epoch
    }

    fn transaction_digest(&self) -> (digest: &TransactionDigest)
        ensures
            digest == &self.transaction_digest,
    {
        &self.transaction_digest
    }

    fn gas_used(&self) -> (summary: &SuiGasCostSummary)
        ensures
            summary == &self.gas_used,
    {
        &self.gas_used
    }

    fn mutated_excluding_gas(&self) -> (objects: Vec<OwnedObjectRef>)
        ensures
            objects@ == without_gas(self.mutated@, self.gas_object),
    {
        let ghost pred = is_not(self.gas_object);
        let mut objects: Vec<OwnedObjectRef> = Vec::new();
        let mut i: usize = 0;
        proof {
            reveal(Seq::filter);
            assert(self.mutated@.take(0).filter(pred) =~= Seq::<OwnedObjectRef>::empty());
        }
        while i < self.mutated.len()
            invariant
                i <= self.mutated.len(),
                pred == is_not(self.gas_object),
                objects@ == self.mutated@.take(i as int).filter(pred),
            decreases self.mutated.len() - i,
        {
            proof {
                lemma_filter_step(self.mutated@, pred, i as int);
            }
            if !self.mutated[i].equals(&self.gas_object) {
                objects.push(self.mutated[i]);
            }
            i = i + 1;
        }
        proof {
            lemma_take_all(self.mutated@);
        }
        objects
    }
}

/// The version of a form that is not supported.
#[derive(Clone, Copy, Debug, PartialEq, Eq, Structural)]
pub struct UnsupportedVersion(pub u64);

impl SuiTransactionEffects {
    /// The effects in their first form.
    pub open spec fn v1(&self) -> SuiTransactionEffectsV1 {
        match self {
            SuiTransactionEffects::V1(effects) => *effects,
        }
    }

    /// The wire form of the effects of a transaction. Only the first version
    /// of the form is supported; any other is handed back in the error.
    pub fn try_from(effect: TransactionEffects) -> (res: Result<Self, UnsupportedVersion>)
        ensures
            effect.message_version != 1 ==> res == Err::<Self, UnsupportedVersion>(
                UnsupportedVersion(effect.message_version),
            ),
            effect.message_version == 1 ==> res is Ok && ({
                let out = res->Ok_0.v1();
                &&& match effect.status {
                    ExecutionStatus::Success => out.status is Success,
                    ExecutionStatus::Failure { error, command } => out.status is Failure
                        && out.status.error_text() == SuiExecutionStatus::failure_text(
                        error@,
                        command,
                    ),
                }
                &&& out.executed_epoch == effect.executed_epoch
                &&& out.gas_used.computation_cost == effect.gas_used.computation_cost
                &&& out.gas_used.storage_cost == effect.gas_used.storage_cost
                &&& out.gas_used.storage_rebate == effect.gas_used.storage_rebate
                &&& out.shared_objects@ == effect.shared_objects@.map_values(
                    |oref: ObjectRef| SuiObjectRef::from_ref_spec(oref),
                )
                &&& out.transaction_digest == effect.transaction_digest
                &&& out.created@ == effect.created@.map_values(
                    |pair: (ObjectRef, Owner)| owned_ref_of(pair),
                )
                &&& out.mutated@ == effect.mutated@.map_values(
                    |pair: (ObjectRef, Owner)| owned_ref_of(pair),
                )
                &&& out.unwrapped@ == effect.unwrapped@.map_values(
                    |pair: (ObjectRef, Owner)| owned_ref_of(pair),
                )
                &&& out.deleted@ == effect.deleted@.map_values(
                    |oref: ObjectRef| SuiObjectRef::from_ref_spec(oref),
                )
                &&& out.unwrapped_then_deleted@ == effect.unwrapped_then_deleted@.map_values(
                    |oref: ObjectRef| SuiObjectRef::from_ref_spec(oref),
                )
                &&& out.wrapped@ == effect.wrapped@.map_values(
                    |oref: ObjectRef| SuiObjectRef::from_ref_spec(oref),
                )
                &&& out.gas_object == owned_ref_of(effect.gas_object)
                &&& out.events_digest == effect.events_digest
                &&& out.dependencies@ == effect.dependencies@
            }),
    {
        if effect.message_version != 1 {
            return Err(UnsupportedVersion(effect.message_version));
        }
        Ok(
            SuiTransactionEffects::V1(
                SuiTransactionEffectsV1 {
                    status: SuiExecutionStatus::from_status(effect.status),
                    executed_epoch: effect.executed_epoch,
                    gas_used: SuiGasCostSummary::from(effect.gas_used),
                    shared_objects: to_sui_object_ref(effect.shared_objects),
                    transaction_digest: effect.transaction_digest,
                    created: to_owned_ref(effect.created),
                    mutated: to_owned_ref(effect.mutated),
                    unwrapped: to_owned_ref(effect.unwrapped),
                    deleted: to_sui_object_ref(effect.deleted),
                    unwrapped_then_deleted: to_sui_object_ref(effect.unwrapped_then_deleted),
                    wrapped: to_sui_object_ref(effect.wrapped),
                    gas_object: OwnedObjectRef {
                        owner: effect.gas_object.1,
                        reference: SuiObjectRef::from_ref(effect.gas_object.0),
                    },
                    events_digest: effect.events_digest,
                    dependencies: effect.dependencies,
                },
            ),
        )
    }
}

impl SuiTransactionEffectsAPI for SuiTransactionEffects {
    fn status(&self) -> (status: &SuiExecutionStatus)
        ensures
            status == &self.v1().status,
    {
        match self {
            SuiTransactionEffects::V1(effects) => effects.status(),
        }
    }

    fn into_status(self) -> (status: SuiExecutionStatus)
        ensures
            status == self.v1().status,
    {
        match self {
            SuiTransactionEffects::V1(effects) => effects.into_status(),
        }
    }

    fn shared_objects(&self) -> (objects: &[SuiObjectRef])
        ensures
            objects@ == self.v1().shared_objects@,
    {
        match self {
            SuiTransactionEffects::V1(effects) => effects.shared_objects(),
        }
    }

    fn created(&self) -> (objects: &[OwnedObjectRef])
        ensures
            objects@ == self.v1().created@,
    {
        match self {
            SuiTransactionEffects::V1(effects) => effects.created(),
        }
    }

    fn mutated(&self) -> (objects: &[OwnedObjectRef])
        ensures
            objects@ == self.v1().mutated@,
    {
        match self {
            SuiTransactionEffects::V1(effects) => effects.mutated(),
        }
    }

    fn unwrapped(&self) -> (objects: &[OwnedObjectRef])
        ensures
            objects@ == self.v1().unwrapped@,
    {
        match self {
            SuiTransactionEffects::V1(effects) => effects.unwrapped(),
        }
    }

    fn deleted(&self) -> (objects: &[SuiObjectRef])
        ensures
            objects@ == self.v1().deleted@,
    {
        match self {
            SuiTransactionEffects::V1(effects) => effects.deleted(),
        }
    }

    fn unwrapped_then_deleted(&self) -> (objects: &[SuiObjectRef])
        ensures
            objects@ == self.v1().unwrapped_then_deleted@,
    {
        match self {
            SuiTransactionEffects::V1(effects) => effects.unwrapped_then_deleted(),
        }
    }

    fn wrapped(&self) -> (objects: &[SuiObjectRef])
        ensures
            objects@ == self.v1().wrapped@,
    {
        match self {
            SuiTransactionEffects::V1(effects) => effects.wrapped(),
        }
    }

    fn gas_object(&self) -> (object: &OwnedObjectRef)
        ensures
            object == &self.v1().gas_object,
    {
        match self {
            SuiTransactionEffects::V1(effects) => effects.gas_object(),
        }
    }

    fn events_digest(&self) -> (digest: Option<&TransactionEventsDigest>)
        ensures
            digest is Some == self.v1().events_digest is Some,
            digest matches Some(d) ==> Some(*d) == self.v1().events_digest,
    {
        match self {
            SuiTransactionEffects::V1(effects) => effects.events_digest(),
        }
    }

    fn dependencies(&self) -> (digests: &[TransactionDigest])
        ensures
            digests@ == self.v1().dependencies@,
    {
        match self {
            SuiTransactionEffects::V1(effects) => effects.dependencies(),
        }
    }

    fn executed_epoch(&self) -> (epoch: EpochId)
        ensures
            epoch == self.v1().executed_epoch,
    {
        match self {
            SuiTransactionEffects::V1(effects) => effects.executed_epoch(),
        }
    }

    fn transaction_digest(&self) -> (digest: &TransactionDigest)
        ensures
            digest == &self.v1().transaction_digest,
    {
        match self {
            SuiTransactionEffects::V1(effects) => effects.transaction_digest(),
        }
    }

    fn gas_used(&self) -> (summary: &SuiGasCostSummary)
        ensures
            summary == &self.v1().gas_used,
    {
        match self {
            SuiTransactionEffects::V1(effects) => effects.gas_used(),
        }
    }

    fn mutated_excluding_gas(&self) -> (objects: Vec<OwnedObjectRef>)
        ensures
            objects@ == without_gas(self.v1().mutated@, self.v1().gas_object),
    {
        match self {
            SuiTransactionEffects::V1(effects) => effects.mutated_excluding_gas(),
        }
    }
}

} // verus!
