//! Epoch partitions: the registry of the partitions that exist for each
//! partitioned table, and the manager that adds one partition per managed
//! table when an epoch begins.

use crate::decimal::{decimal, decimal_text};
use crate::errors::{IndexerError, IndexerErrorView, WriteContextView, WriteFailure};
use crate::views::{clone_texts, lemma_take_all, lemma_take_step, lemma_views_push, views, Text};
use vstd::prelude::*;

verus! {

/// The partitions of one partitioned table. A partition is named by the epoch
/// whose rows it holds: the range from that epoch up to, not including, the
/// next.
#[derive(Debug, PartialEq, Eq)]
pub struct TablePartitions {
    pub table_name: String,
    pub epochs: Vec<u64>,
}

/// The mathematical value of a [`TablePartitions`].
pub struct TablePartitionsView {
    pub table_name: Text,
    pub epochs: Seq<u64>,
}

impl View for TablePartitions {
    type V = TablePartitionsView;

    open spec fn view(&self) -> TablePartitionsView {
        TablePartitionsView { table_name: self.table_name@, epochs: self.epochs@ }
    }
}

/// A copy of a list of epochs.
pub fn clone_epochs(epochs: &Vec<u64>) -> (copy: Vec<u64>)
    ensures
        copy@ == epochs@,
{
    let mut out: Vec<u64> = Vec::new();
    let mut i: usize = 0;
    while i < epochs.len()
        invariant
            i <= epochs.len(),
            out@ == epochs@.take(i as int),
        decreases epochs.len() - i,
    {
        out.push(epochs[i]);
        proof {
            lemma_take_step(epochs@, i as int);
        }
        i = i + 1;
    }
    proof {
        lemma_take_all(epochs@);
    }
    out
}

impl Clone for TablePartitions {
    fn clone(&self) -> (copy: Self)
        ensures
            copy@ == self@,
    {
        TablePartitions { table_name: self.table_name.clone(), epochs: clone_epochs(&self.epochs) }
    }
}

/// Whether the registry has an entry for the table.
pub open spec fn has_table(registry: Seq<TablePartitionsView>, table: Text) -> bool {
    exists|i: int| 0 <= i < registry.len() && (#[trigger] registry[i]).table_name == table
}

/// Whether the table has a partition for the epoch.
pub open spec fn has_partition(registry: Seq<TablePartitionsView>, table: Text, epoch: u64) -> bool {
    exists|i: int|
        0 <= i < registry.len() && (#[trigger] registry[i]).table_name == table
            && registry[i].epochs.contains(epoch)
}

/// Each table has one entry, and each entry holds at least one epoch and no
/// epoch twice.
pub open spec fn registry_wf(registry: Seq<TablePartitionsView>) -> bool {
    &&& forall|i: int, j: int|
        0 <= i < j < registry.len() ==> (#[trigger] registry[i]).table_name != (
        #[trigger] registry[j]).table_name
    &&& forall|i: int| 0 <= i < registry.len() ==> (#[trigger] registry[i]).epochs.len() > 0
    &&& forall|i: int| 0 <= i < registry.len() ==> (#[trigger] registry[i]).epochs.no_duplicates()
}

/// The entry of a table after a partition for `epoch` is added to it.
pub open spec fn with_epoch(entry: TablePartitionsView, epoch: u64) -> TablePartitionsView {
    TablePartitionsView { table_name: entry.table_name, epochs: entry.epochs.push(epoch) }
}

/// The registry after a partition for `epoch` is created for `table`: the
/// table's entry gains the epoch, and a table without an entry gets one.
pub open spec fn create_partition(
    registry: Seq<TablePartitionsView>,
    table: Text,
    epoch: u64,
) -> Seq<TablePartitionsView> {
    if has_table(registry, table) {
        registry.map_values(
            |entry: TablePartitionsView|
                if entry.table_name == table {
                    with_epoch(entry, epoch)
                } else {
                    entry
                },
        )
    } else {
        registry.push(TablePartitionsView { table_name: table, epochs: seq![epoch] })
    }
}

/// The registry after a partition for `epoch` is created for each of the
/// tables, one after the other.
pub open spec fn create_partitions(
    registry: Seq<TablePartitionsView>,
    tables: Seq<Text>,
    epoch: u64,
) -> Seq<TablePartitionsView>
    decreases tables.len(),
{
    if tables.len() == 0 {
        registry
    } else {
        create_partition(create_partitions(registry, tables.drop_last(), epoch), tables.last(), epoch)
    }
}

/// The highest of the epochs, zero where there is none.
pub open spec fn highest(epochs: Seq<u64>) -> u64
    decreases epochs.len(),
{
    if epochs.len() == 0 {
        0
    } else if epochs.last() >= highest(epochs.drop_last()) {
        epochs.last()
    } else {
        highest(epochs.drop_last())
    }
}

/// The highest epoch is one of the epochs and none lies above it.
pub proof fn lemma_highest(epochs: Seq<u64>)
    requires
        epochs.len() > 0,
    ensures
        epochs.contains(highest(epochs)),
        forall|i: int| 0 <= i < epochs.len() ==> epochs[i] <= highest(epochs),
    decreases epochs.len(),
{
    let rest = epochs.drop_last();
    let n = epochs.len() - 1;
    assert(epochs[n] == epochs.last());
    if rest.len() > 0 {
        lemma_highest(rest);
        let i = choose|i: int| 0 <= i < rest.len() && rest[i] == highest(rest);
        assert(epochs[i] == highest(rest));
        assert forall|i: int| 0 <= i < epochs.len() implies epochs[i] <= highest(epochs) by {
            if i < rest.len() {
                assert(rest[i] == epochs[i]);
            }
        }
        if epochs.last() >= highest(rest) {
            assert(epochs[n] == highest(epochs));
        } else {
            assert(epochs[i] == highest(epochs));
        }
    } else {
        assert(highest(rest) == 0);
        assert(epochs[n] == highest(epochs));
    }
}

/// The most recent partition of each table that has one, in the registry's
/// order.
pub open spec fn last_partitions(registry: Seq<TablePartitionsView>) -> Seq<(Text, u64)> {
    registry.map_values(|entry: TablePartitionsView| (entry.table_name, highest(entry.epochs)))
}

/// The names of the tables of the registry, in its order.
pub open spec fn table_names(registry: Seq<TablePartitionsView>) -> Seq<Text> {
    registry.map_values(|entry: TablePartitionsView| entry.table_name)
}

/// What creating a partition changes: the table has the partition afterwards,
/// and every other pair of table and epoch is as before.
pub proof fn lemma_create_partition(
    registry: Seq<TablePartitionsView>,
    table: Text,
    epoch: u64,
    other: Text,
    other_epoch: u64,
)
    ensures
        has_partition(create_partition(registry, table, epoch), other, other_epoch) <==> (
        has_partition(registry, other, other_epoch) || (other == table && other_epoch == epoch)),
        has_table(create_partition(registry, table, epoch), other) <==> (has_table(registry, other)
            || other == table),
{
    let after = create_partition(registry, table, epoch);
    if has_table(registry, table) {
        let t = choose|i: int| 0 <= i < registry.len() && (#[trigger] registry[i]).table_name == table;
        assert(after[t].table_name == table);
        assert(after[t].epochs.last() == epoch);
        assert(after[t].epochs.contains(epoch));
        if has_partition(registry, other, other_epoch) {
            let i = choose|i: int|
                0 <= i < registry.len() && (#[trigger] registry[i]).table_name == other
                    && registry[i].epochs.contains(other_epoch);
            let p = choose|p: int|
                0 <= p < registry[i].epochs.len() && registry[i].epochs[p] == other_epoch;
            assert(after[i].table_name == other);
            assert(after[i].epochs[p] == other_epoch);
        }
        if has_partition(after, other, other_epoch) {
            let i = choose|i: int|
                0 <= i < after.len() && (#[trigger] after[i]).table_name == other
                    && after[i].epochs.contains(other_epoch);
            assert(registry[i].table_name == other);
            let p = choose|p: int| 0 <= p < after[i].epochs.len() && after[i].epochs[p] == other_epoch;
            if other == table && p == registry[i].epochs.len() {
            } else {
                assert(registry[i].epochs[p] == other_epoch);
            }
        }
        if has_table(registry, other) {
            let i = choose|i: int| 0 <= i < registry.len() && (#[trigger] registry[i]).table_name == other;
            assert(after[i].table_name == other);
        }
        if has_table(after, other) {
            let i = choose|i: int| 0 <= i < after.len() && (#[trigger] after[i]).table_name == other;
            assert(registry[i].table_name == other);
        }
    } else {
        let n = registry.len() as int;
        assert(after[n].table_name == table);
        assert(after[n].epochs[0] == epoch);
        assert(after[n].epochs.contains(epoch));
        if has_partition(registry, other, other_epoch) {
            let i = choose|i: int|
                0 <= i < registry.len() && (#[trigger] registry[i]).table_name == other
                    && registry[i].epochs.contains(other_epoch);
            assert(after[i] == registry[i]);
        }
        if has_partition(after, other, other_epoch) {
            let i = choose|i: int|
                0 <= i < after.len() && (#[trigger] after[i]).table_name == other
                    && after[i].epochs.contains(other_epoch);
            if i < n {
                assert(after[i] == registry[i]);
            } else {
                let p = choose|p: int| 0 <= p < after[i].epochs.len() && after[i].epochs[p] == other_epoch;
                assert(p == 0);
            }
        }
        if has_table(registry, other) {
            let i = choose|i: int| 0 <= i < registry.len() && (#[trigger] registry[i]).table_name == other;
            assert(after[i] == registry[i]);
        }
        if has_table(after, other) {
            let i = choose|i: int| 0 <= i < after.len() && (#[trigger] after[i]).table_name == other;
            if i < n {
                assert(after[i] == registry[i]);
            }
        }
    }
}

/// Creating a partition that the table lacks keeps the registry well formed.
pub proof fn lemma_create_partition_wf(registry: Seq<TablePartitionsView>, table: Text, epoch: u64)
    requires
        registry_wf(registry),
        !has_partition(registry, table, epoch),
    ensures
        registry_wf(create_partition(registry, table, epoch)),
{
    let after = create_partition(registry, table, epoch);
    if has_table(registry, table) {
        assert forall|i: int, j: int| 0 <= i < j < after.len() implies (#[trigger] after[i]).table_name
            != (#[trigger] after[j]).table_name by {
            assert(after[i].table_name == registry[i].table_name);
            assert(after[j].table_name == registry[j].table_name);
        }
        assert forall|i: int| 0 <= i < after.len() implies (#[trigger] after[i]).epochs.len() > 0
            && after[i].epochs.no_duplicates() by {
            let before = registry[i];
            if before.table_name == table {
                assert(!before.epochs.contains(epoch));
                assert forall|a: int, b: int|
                    0 <= a < after[i].epochs.len() && 0 <= b < after[i].epochs.len() && a
                        != b implies after[i].epochs[a] != after[i].epochs[b] by {
                    if a == before.epochs.len() {
                        assert(before.epochs[b] == after[i].epochs[b]);
                    } else if b == before.epochs.len() {
                        assert(before.epochs[a] == after[i].epochs[a]);
                    } else {
                        assert(before.epochs[a] == after[i].epochs[a]);
                        assert(before.epochs[b] == after[i].epochs[b]);
                    }
                }
            }
        }
    } else {
        assert forall|i: int, j: int| 0 <= i < j < after.len() implies (#[trigger] after[i]).table_name
            != (#[trigger] after[j]).table_name by {
            assert(after[i] == registry[i]);
            if j < registry.len() {
                assert(after[j] == registry[j]);
            }
        }
        assert forall|i: int| 0 <= i < after.len() implies (#[trigger] after[i]).epochs.len() > 0
            && after[i].epochs.no_duplicates() by {
            if i < registry.len() {
                assert(after[i] == registry[i]);
            }
        }
    }
}

/// What creating a partition for each of several tables changes.
pub proof fn lemma_create_partitions(
    registry: Seq<TablePartitionsView>,
    tables: Seq<Text>,
    epoch: u64,
    other: Text,
    other_epoch: u64,
)
    ensures
        has_partition(create_partitions(registry, tables, epoch), other, other_epoch) <==> (
        has_partition(registry, other, other_epoch) || (tables.contains(other) && other_epoch
            == epoch)),
        has_table(create_partitions(registry, tables, epoch), other) <==> (has_table(
            registry,
            other,
        ) || tables.contains(other)),
    decreases tables.len(),
{
    if tables.len() > 0 {
        let rest = tables.drop_last();
        lemma_create_partitions(registry, rest, epoch, other, other_epoch);
        lemma_create_partition(
            create_partitions(registry, rest, epoch),
            tables.last(),
            epoch,
            other,
            other_epoch,
        );
        if rest.contains(other) {
            let i = choose|i: int| 0 <= i < rest.len() && rest[i] == other;
            assert(tables[i] == other);
        }
        if tables.contains(other) {
            let i = choose|i: int| 0 <= i < tables.len() && tables[i] == other;
            if i < rest.len() {
                assert(rest[i] == other);
            }
        }
        assert(tables[tables.len() - 1] == tables.last());
    }
}

/// Creating a partition for each of several distinct tables, none of which has
/// it, keeps the registry well formed.
pub proof fn lemma_create_partitions_wf(
    registry: Seq<TablePartitionsView>,
    tables: Seq<Text>,
    epoch: u64,
)
    requires
        registry_wf(registry),
        tables.no_duplicates(),
        forall|i: int| 0 <= i < tables.len() ==> !has_partition(registry, #[trigger] tables[i], epoch),
    ensures
        registry_wf(create_partitions(registry, tables, epoch)),
    decreases tables.len(),
{
    if tables.len() > 0 {
        let rest = tables.drop_last();
        assert forall|i: int| 0 <= i < rest.len() implies !has_partition(
            registry,
            #[trigger] rest[i],
            epoch,
        ) by {
            assert(rest[i] == tables[i]);
        }
        lemma_create_partitions_wf(registry, rest, epoch);
        lemma_create_partitions(registry, rest, epoch, tables.last(), epoch);
        assert(!rest.contains(tables.last())) by {
            if rest.contains(tables.last()) {
                let i = choose|i: int| 0 <= i < rest.len() && rest[i] == tables.last();
                assert(tables[i] == tables[tables.len() - 1]);
            }
        }
        assert(!has_partition(registry, tables[tables.len() - 1], epoch));
        lemma_create_partition_wf(create_partitions(registry, rest, epoch), tables.last(), epoch);
    }
}

// ---------------------------------------------------------------------------
// The registry
// ---------------------------------------------------------------------------

/// The partitions that exist, table by table. An entry appears with a table's
/// first partition and is never removed.
#[derive(Debug, PartialEq, Eq)]
pub struct PartitionRegistry {
    tables: Vec<TablePartitions>,
}

impl View for PartitionRegistry {
    type V = Seq<TablePartitionsView>;

    closed spec fn view(&self) -> Seq<TablePartitionsView> {
        views(self.tables@)
    }
}

/// Whether the table has a partition for the epoch.
fn contains_partition(tables: &Vec<TablePartitions>, table: &String, epoch: u64) -> (found: bool)
    ensures
        found == has_partition(views(tables@), table@, epoch),
{
    let mut i: usize = 0;
    while i < tables.len()
        invariant
            i <= tables.len(),
            forall|k: int|
                0 <= k < i ==> !((#[trigger] views(tables@)[k]).table_name == table@ && views(
                    tables@,
                )[k].epochs.contains(epoch)),
        decreases tables.len() - i,
    {
        if tables[i].table_name == *table {
            let epochs = &tables[i].epochs;
            let mut p: usize = 0;
            while p < epochs.len()
                invariant
                    p <= epochs.len(),
                    i < tables.len(),
                    views(tables@)[i as int].table_name == table@,
                    epochs@ == views(tables@)[i as int].epochs,
                    forall|q: int| 0 <= q < p ==> epochs@[q] != epoch,
                decreases epochs.len() - p,
            {
                if epochs[p] == epoch {
                    assert(views(tables@)[i as int].epochs[p as int] == epoch);
                    return true;
                }
                p = p + 1;
            }
        }
        i = i + 1;
    }
    false
}

/// Creates the partition for `epoch` of `table`.
fn write_partition(tables: &mut Vec<TablePartitions>, table: &String, epoch: u64)
    ensures
        views(final(tables)@) == create_partition(views(old(tables)@), table@, epoch),
{
    let ghost before = views(tables@);
    let mut found = false;
    let mut i: usize = 0;
    while i < tables.len()
        invariant
            i <= tables.len(),
            tables.len() == before.len(),
            found == exists|k: int| 0 <= k < i && (#[trigger] before[k]).table_name == table@,
            forall|k: int|
                0 <= k < i ==> views(tables@)[k] == if (#[trigger] before[k]).table_name == table@ {
                    with_epoch(before[k], epoch)
                } else {
                    before[k]
                },
            forall|k: int| i <= k < tables.len() ==> views(tables@)[k] == #[trigger] before[k],
        decreases tables.len() - i,
    {
        assert(views(tables@)[i as int] == before[i as int]);
        if tables[i].table_name == *table {
            let mut epochs = clone_epochs(&tables[i].epochs);
            epochs.push(epoch);
            let entry = TablePartitions { table_name: tables[i].table_name.clone(), epochs };
            tables.set(i, entry);
            found = true;
        }
        i = i + 1;
    }
    if found {
        assert(has_table(before, table@));
        assert(views(tables@) =~= create_partition(before, table@, epoch));
    } else {
        let ghost earlier = tables@;
        assert(views(earlier) =~= before);
        let mut epochs: Vec<u64> = Vec::new();
        epochs.push(epoch);
        let entry = TablePartitions { table_name: table.clone(), epochs };
        assert(entry@.epochs =~= seq![epoch]);
        tables.push(entry);
        proof {
            lemma_views_push(earlier, entry);
        }
    }
}

impl PartitionRegistry {
    /// Each table has one entry, and each entry holds at least one epoch and
    /// no epoch twice.
    pub open spec fn wf(&self) -> bool {
        registry_wf(self@)
    }

    /// A registry without partitions.
    pub fn new() -> (registry: Self)
        ensures
            registry@ == Seq::<TablePartitionsView>::empty(),
            registry.wf(),
    {
        let registry = PartitionRegistry { tables: Vec::new() };
        assert(registry@ =~= Seq::<TablePartitionsView>::empty());
        registry
    }

    /// Whether the table has a partition for the epoch.
    pub fn has_partition(&self, table: &String, epoch: u64) -> (found: bool)
        ensures
            found == has_partition(self@, table@, epoch),
    {
        contains_partition(&self.tables, table, epoch)
    }

    /// Creates the partition for `epoch` of `table`. An epoch without a
    /// successor and a partition that exists are refused, and the registry
    /// is then unchanged.
    pub fn add_partition(&mut self, table: &String, epoch: u64) -> (res: Result<(), WriteFailure>)
        requires
            old(self).wf(),
        ensures
            final(self).wf(),
            epoch == u64::MAX ==> res == Err::<(), WriteFailure>(WriteFailure::EpochOutOfRange)
                && final(self)@ == old(self)@,
            epoch < u64::MAX && has_partition(old(self)@, table@, epoch) ==> res == Err::<
                (),
                WriteFailure,
            >(WriteFailure::PartitionExists) && final(self)@ == old(self)@,
            epoch < u64::MAX && !has_partition(old(self)@, table@, epoch) ==> res is Ok
                && final(self)@ == create_partition(old(self)@, table@, epoch),
    {
        if epoch == u64::MAX {
            return Err(WriteFailure::EpochOutOfRange);
        }
        if contains_partition(&self.tables, table, epoch) {
            return Err(WriteFailure::PartitionExists);
        }
        proof {
            lemma_create_partition_wf(self@, table@, epoch);
        }
        write_partition(&mut self.tables, table, epoch);
        Ok(())
    }

    /// The most recent partition of the table: the highest epoch for which it
    /// has one. `None` for a table without partitions.
    pub fn last_partition(&self, table: &String) -> (last: Option<u64>)
        requires
            self.wf(),
        ensures
            last is None <==> !has_table(self@, table@),
            last matches Some(epoch) ==> has_partition(self@, table@, epoch) && forall|other: u64|
                has_partition(self@, table@, other) ==> other <= epoch,
    {
        let mut i: usize = 0;
        while i < self.tables.len()
            invariant
                self.wf(),
                i <= self.tables.len(),
                forall|k: int| 0 <= k < i ==> (#[trigger] self@[k]).table_name != table@,
            decreases self.tables.len() - i,
        {
            if self.tables[i].table_name == *table {
                let epoch = highest_of(&self.tables[i].epochs);
                proof {
                    let entry = self@[i as int];
                    assert(entry.table_name == table@);
                    lemma_highest(entry.epochs);
                    assert forall|other: u64| has_partition(self@, table@, other) implies other
                        <= epoch by {
                        let k = choose|k: int|
                            0 <= k < self@.len() && (#[trigger] self@[k]).table_name == table@
                                && self@[k].epochs.contains(other);
                        if k < i {
                            assert(self@[k].table_name != self@[i as int].table_name);
                        } else if k > i {
                            assert(self@[i as int].table_name != self@[k].table_name);
                        }
                        let p = choose|p: int|
                            0 <= p < entry.epochs.len() && entry.epochs[p] == other;
                    }
                }
                return Some(epoch);
            }
            i = i + 1;
        }
        None
    }
}

/// The highest of the epochs, zero where there is none.
pub fn highest_of(epochs: &Vec<u64>) -> (top: u64)
    ensures
        top == highest(epochs@),
{
    let mut top: u64 = 0;
    let mut i: usize = 0;
    while i < epochs.len()
        invariant
            i <= epochs.len(),
            top == highest(epochs@.take(i as int)),
        decreases epochs.len() - i,
    {
        proof {
            lemma_take_step(epochs@, i as int);
        }
        if epochs[i] >= top {
            top = epochs[i];
        }
        i = i + 1;
    }
    proof {
        lemma_take_all(epochs@);
    }
    top
}

// ---------------------------------------------------------------------------
// The manager
// ---------------------------------------------------------------------------

/// Creates the partitions of new epochs. The tables it manages are those that
/// had partitions when it was made.
#[derive(Debug, PartialEq, Eq)]
pub struct PartitionManager {
    tables: Vec<String>,
    registry: PartitionRegistry,
}

/// The mathematical value of a [`PartitionManager`].
pub struct PartitionManagerView {
    pub tables: Seq<Text>,
    pub registry: Seq<TablePartitionsView>,
}

impl View for PartitionManager {
    type V = PartitionManagerView;

    closed spec fn view(&self) -> PartitionManagerView {
        PartitionManagerView { tables: views(self.tables@), registry: self.registry@ }
    }
}

impl PartitionManagerView {
    /// The registry is well formed, no table is managed twice, and every
    /// managed table has partitions.
    pub open spec fn wf(self) -> bool {
        &&& registry_wf(self.registry)
        &&& self.tables.no_duplicates()
        &&& forall|i: int| 0 <= i < self.tables.len() ==> has_table(self.registry, #[trigger] self.tables[i])
    }

    /// Whether one of the managed tables has a partition for the epoch.
    pub open spec fn partition_exists(self, epoch: u64) -> bool {
        exists|i: int|
            0 <= i < self.tables.len() && has_partition(self.registry, #[trigger] self.tables[i], epoch)
    }

    /// Why the partitions of `epoch` cannot be created, if they cannot.
    pub open spec fn advance_failure(self, epoch: u64) -> Option<WriteFailure> {
        if epoch == u64::MAX {
            Some(WriteFailure::EpochOutOfRange)
        } else if self.partition_exists(epoch) {
            Some(WriteFailure::PartitionExists)
        } else {
            None
        }
    }

    /// The manager after the partitions of `epoch` are created: one for each
    /// managed table.
    pub open spec fn advanced(self, epoch: u64) -> PartitionManagerView {
        PartitionManagerView {
            tables: self.tables,
            registry: create_partitions(self.registry, self.tables, epoch),
        }
    }
}

/// Creating the partitions of an epoch that can be created keeps the manager
/// well formed and gives every managed table its partition.
pub proof fn lemma_advanced(manager: PartitionManagerView, epoch: u64)
    requires
        manager.wf(),
        manager.advance_failure(epoch) is None,
    ensures
        manager.advanced(epoch).wf(),
        forall|i: int|
            0 <= i < manager.tables.len() ==> has_partition(
                manager.advanced(epoch).registry,
                #[trigger] manager.tables[i],
                epoch,
            ),
{
    lemma_create_partitions_wf(manager.registry, manager.tables, epoch);
    assert forall|i: int| 0 <= i < manager.tables.len() implies has_partition(
        manager.advanced(epoch).registry,
        #[trigger] manager.tables[i],
        epoch,
    ) && has_table(manager.advanced(epoch).registry, manager.tables[i]) by {
        lemma_create_partitions(manager.registry, manager.tables, epoch, manager.tables[i], epoch);
        assert(manager.tables.contains(manager.tables[i]));
    }
}

/// Creating the partitions of the same epoch a second time fails: after the
/// first time every managed table has its partition, so that, where any
/// table is managed, the second attempt is refused because the partition
/// exists.
pub proof fn lemma_advance_twice_fails(manager: PartitionManagerView, epoch: u64)
    requires
        manager.wf(),
        manager.tables.len() > 0,
        manager.advance_failure(epoch) is None,
    ensures
        manager.advanced(epoch).advance_failure(epoch) == Some(WriteFailure::PartitionExists),
{
    lemma_advanced(manager, epoch);
    assert(has_partition(manager.advanced(epoch).registry, manager.tables[0], epoch));
}

impl PartitionManager {
    /// The registry is well formed, no table is managed twice, and every
    /// managed table has partitions.
    pub open spec fn wf(&self) -> bool {
        self@.wf()
    }

    /// A manager of the tables that have partitions in the registry.
    pub fn new(registry: PartitionRegistry) -> (manager: Self)
        requires
            registry.wf(),
        ensures
            manager.wf(),
            manager@.registry == registry@,
            manager@.tables == table_names(registry@),
    {
        let mut tables: Vec<String> = Vec::new();
        let mut i: usize = 0;
        while i < registry.tables.len()
            invariant
                i <= registry.tables.len(),
                views(tables@) == table_names(registry@.take(i as int)),
            decreases registry.tables.len() - i,
        {
            let ghost earlier = tables@;
            let name = registry.tables[i].table_name.clone();
            tables.push(name);
            proof {
                lemma_views_push(earlier, name);
                lemma_take_step(registry@, i as int);
                assert(views(tables@) =~= table_names(registry@.take(i + 1)));
            }
            i = i + 1;
        }
        proof {
            lemma_take_all(registry@);
            let names = table_names(registry@);
            assert forall|a: int, b: int| 0 <= a < names.len() && 0 <= b < names.len() && a
                != b implies names[a] != names[b] by {
                if a < b {
                    assert(registry@[a].table_name != registry@[b].table_name);
                } else {
                    assert(registry@[b].table_name != registry@[a].table_name);
                }
            }
            assert forall|a: int| 0 <= a < names.len() implies has_table(
                registry@,
                #[trigger] names[a],
            ) by {
                assert(registry@[a].table_name == names[a]);
            }
        }
        PartitionManager { tables, registry }
    }

    /// The most recent partition of each table that has partitions.
    pub fn get_table_partitions(&self) -> (found: Vec<(String, u64)>)
        ensures
            found@.map_values(|pair: (String, u64)| (pair.0@, pair.1)) == last_partitions(
                self@.registry,
            ),
    {
        let ghost target = last_partitions(self@.registry);
        let mut found: Vec<(String, u64)> = Vec::new();
        let mut i: usize = 0;
        while i < self.registry.tables.len()
            invariant
                i <= self.registry.tables.len(),
                target == last_partitions(self@.registry),
                found.len() == i,
                forall|k: int|
                    0 <= k < i ==> ((#[trigger] found@[k]).0@, found@[k].1) == target[k],
            decreases self.registry.tables.len() - i,
        {
            let name = self.registry.tables[i].table_name.clone();
            let last = highest_of(&self.registry.tables[i].epochs);
            assert((name@, last) == target[i as int]);
            found.push((name, last));
            i = i + 1;
        }
        assert(found@.map_values(|pair: (String, u64)| (pair.0@, pair.1)) =~= target);
        found
    }

    /// Whether one of the managed tables has a partition for the epoch.
    fn partition_exists(&self, epoch: u64) -> (found: bool)
        ensures
            found == self@.partition_exists(epoch),
    {
        let mut i: usize = 0;
        while i < self.tables.len()
            invariant
                i <= self.tables.len(),
                forall|k: int|
                    0 <= k < i ==> !has_partition(self@.registry, #[trigger] self@.tables[k], epoch),
            decreases self.tables.len() - i,
        {
            if contains_partition(&self.registry.tables, &self.tables[i], epoch) {
                assert(has_partition(self@.registry, self@.tables[i as int], epoch));
                return true;
            }
            i = i + 1;
        }
        false
    }

    /// Creates the partition of `next_epoch_id` for every managed table and
    /// returns how many tables that were. Where the epoch has no successor,
    /// or one of the tables has the partition already, nothing is created
    /// and the error says which of the two it was.
    pub fn advance_epoch(&mut self, next_epoch_id: u64) -> (res: Result<usize, IndexerError>)
        requires
            old(self).wf(),
        ensures
            final(self).wf(),
            match old(self)@.advance_failure(next_epoch_id) {
                Some(failure) => {
                    &&& final(self)@ == old(self)@
                    &&& res matches Err(error)
                    &&& error@ == (IndexerErrorView::WriteError {
                        failure,
                        context: WriteContextView::Epoch { epoch: next_epoch_id },
                    })
                },
                None => {
                    &&& final(self)@ == old(self)@.advanced(next_epoch_id)
                    &&& res matches Ok(count)
                    &&& count == old(self)@.tables.len()
                },
            },
    {
        if next_epoch_id == u64::MAX {
            return Err(IndexerError::epoch_write(WriteFailure::EpochOutOfRange, next_epoch_id));
        }
        if self.partition_exists(next_epoch_id) {
            return Err(IndexerError::epoch_write(WriteFailure::PartitionExists, next_epoch_id));
        }
        let ghost before = self@;
        proof {
            lemma_advanced(before, next_epoch_id);
        }
        let mut i: usize = 0;
        while i < self.tables.len()
            invariant
                i <= self.tables.len(),
                self@.tables == before.tables,
                self@.registry == create_partitions(
                    before.registry,
                    before.tables.take(i as int),
                    next_epoch_id,
                ),
            decreases self.tables.len() - i,
        {
            write_partition(&mut self.registry.tables, &self.tables[i], next_epoch_id);
            proof {
                lemma_take_step(before.tables, i as int);
            }
            i = i + 1;
        }
        proof {
            lemma_take_all(before.tables);
        }
        Ok(self.tables.len())
    }

    /// The names of the managed tables.
    pub fn tables(&self) -> (names: Vec<String>)
        ensures
            views(names@) == self@.tables,
    {
        clone_texts(&self.tables)
    }

    /// Whether the table has a partition for the epoch.
    pub fn has_partition(&self, table: &String, epoch: u64) -> (found: bool)
        ensures
            found == has_partition(self@.registry, table@, epoch),
    {
        contains_partition(&self.registry.tables, table, epoch)
    }
}

// ---------------------------------------------------------------------------
// The statement behind a partition
// ---------------------------------------------------------------------------

/// The statement that creates the partition of `table` for `epoch`: a table
/// named after both that takes the rows from the epoch up to, not including,
/// the next.
pub open spec fn partition_statement_text(table: Text, epoch: u64) -> Text {
    "CREATE TABLE "@ + table + "_partition_"@ + decimal(epoch as nat) + " PARTITION OF "@ + table
        + " FOR VALUES FROM ("@ + decimal(epoch as nat) + ") TO ("@ + decimal((epoch + 1) as nat)
        + ");"@
}

/// The statement that creates the partition of `table` for `epoch`.
pub fn partition_statement(table: &String, epoch: u64) -> (statement: String)
    requires
        epoch < u64::MAX,
    ensures
        statement@ == partition_statement_text(table@, epoch),
{
    let mut statement = "CREATE TABLE ".to_owned();
    statement.append(table.as_str());
    statement.append("_partition_");
    statement.append(decimal_text(epoch).as_str());
    statement.append(" PARTITION OF ");
    statement.append(table.as_str());
    statement.append(" FOR VALUES FROM (");
    statement.append(decimal_text(epoch).as_str());
    statement.append(") TO (");
    statement.append(decimal_text(epoch + 1).as_str());
    statement.append(");");
    statement
}

/// The statements that create the partitions of `epoch` for the tables, in
/// the order of the tables; none for an epoch without a successor.
pub fn partition_statements(tables: &Vec<String>, epoch: u64) -> (statements: Vec<String>)
    ensures
        epoch == u64::MAX ==> statements.len() == 0,
        epoch < u64::MAX ==> views(statements@) == views(tables@).map_values(
            |table: Text| partition_statement_text(table, epoch),
        ),
{
    let mut statements: Vec<String> = Vec::new();
    if epoch == u64::MAX {
        return statements;
    }
    let mut i: usize = 0;
    while i < tables.len()
        invariant
            i <= tables.len(),
            epoch < u64::MAX,
            statements.len() == i,
            forall|k: int|
                0 <= k < i ==> #[trigger] views(statements@)[k] == partition_statement_text(
                    views(tables@)[k],
                    epoch,
                ),
        decreases tables.len() - i,
    {
        let ghost earlier = statements@;
        let statement = partition_statement(&tables[i], epoch);
        statements.push(statement);
        proof {
            lemma_views_push(earlier, statement);
            assert forall|k: int| 0 <= k < i + 1 implies #[trigger] views(statements@)[k]
                == partition_statement_text(views(tables@)[k], epoch) by {
                if k < i {
                    assert(views(earlier)[k] == partition_statement_text(views(tables@)[k], epoch));
                }
            }
        }
        i = i + 1;
    }
    assert(views(statements@) =~= views(tables@).map_values(
        |table: Text| partition_statement_text(table, epoch),
    ));
    statements
}

} // verus!
