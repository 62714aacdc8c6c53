//! The steps of writing one checkpoint, in their order, for whoever carries
//! them out against a backing store inside one transaction.

use crate::rows::{TemporaryCheckpointStore, TemporaryCheckpointStoreView};
use crate::store::StoreView;
use crate::tables::{
    append_move_calls, append_recipients, append_transactions, apply_changes, apply_group,
    insert_addresses, insert_packages, upsert_deleted_batch, upsert_mutated_batch,
};
use vstd::prelude::*;

verus! {

/// What a table does with a row whose key is stored already.
#[derive(Clone, Copy, Debug, PartialEq, Eq, Structural)]
pub enum ConflictPolicy {
    /// The write fails.
    Fail,
    /// The stored row is overwritten.
    Overwrite,
    /// The new row is dropped.
    Ignore,
}

/// One step of writing a checkpoint.
#[derive(Clone, Copy, Debug, PartialEq, Eq, Structural)]
pub enum WriteStep {
    InsertCheckpoint,
    InsertTransactions,
    InsertEvents,
    /// The mutated objects of the group at this position.
    UpsertMutatedObjects { group: usize },
    /// The deleted objects of the group at this position.
    UpsertDeletedObjects { group: usize },
    InsertAddresses,
    InsertPackages,
    InsertMoveCalls,
    InsertRecipients,
}

impl WriteStep {
    /// What the step does with a row whose key is stored already.
    pub open spec fn policy(self) -> ConflictPolicy {
        match self {
            WriteStep::UpsertMutatedObjects { .. } | WriteStep::UpsertDeletedObjects { .. } => {
                ConflictPolicy::Overwrite
            },
            WriteStep::InsertAddresses | WriteStep::InsertPackages => ConflictPolicy::Ignore,
            _ => ConflictPolicy::Fail,
        }
    }

    /// What the step does with a row whose key is stored already.
    pub fn conflict_policy(&self) -> (policy: ConflictPolicy)
        ensures
            policy == self.policy(),
    {
        match self {
            WriteStep::UpsertMutatedObjects { .. } => ConflictPolicy::Overwrite,
            WriteStep::UpsertDeletedObjects { .. } => ConflictPolicy::Overwrite,
            WriteStep::InsertAddresses => ConflictPolicy::Ignore,
            WriteStep::InsertPackages => ConflictPolicy::Ignore,
            _ => ConflictPolicy::Fail,
        }
    }

    /// The name of the table that the step writes to.
    pub fn table(&self) -> (name: String)
        ensures
            name@ == match self {
                WriteStep::InsertCheckpoint => "checkpoints"@,
                WriteStep::InsertTransactions => "transactions"@,
                WriteStep::InsertEvents => "events"@,
                WriteStep::UpsertMutatedObjects { .. } => "objects"@,
                WriteStep::UpsertDeletedObjects { .. } => "objects"@,
                WriteStep::InsertAddresses => "addresses"@,
                WriteStep::InsertPackages => "packages"@,
                WriteStep::InsertMoveCalls => "move_calls"@,
                WriteStep::InsertRecipients => "recipients"@,
            },
    {
        match self {
            WriteStep::InsertCheckpoint => "checkpoints".to_owned(),
            WriteStep::InsertTransactions => "transactions".to_owned(),
            WriteStep::InsertEvents => "events".to_owned(),
            WriteStep::UpsertMutatedObjects { .. } => "objects".to_owned(),
            WriteStep::UpsertDeletedObjects { .. } => "objects".to_owned(),
            WriteStep::InsertAddresses => "addresses".to_owned(),
            WriteStep::InsertPackages => "packages".to_owned(),
            WriteStep::InsertMoveCalls => "move_calls".to_owned(),
            WriteStep::InsertRecipients => "recipients".to_owned(),
        }
    }
}

/// The steps for the first `count` groups of object changes: for each group
/// its mutated objects, then its deleted ones.
pub open spec fn group_steps(count: nat) -> Seq<WriteStep>
    decreases count,
{
    if count == 0 {
        Seq::empty()
    } else {
        group_steps((count - 1) as nat) + seq![
            WriteStep::UpsertMutatedObjects { group: (count - 1) as usize },
            WriteStep::UpsertDeletedObjects { group: (count - 1) as usize },
        ]
    }
}

/// The steps of writing a checkpoint with `groups` groups of object changes.
pub open spec fn write_steps(groups: nat) -> Seq<WriteStep> {
    seq![WriteStep::InsertCheckpoint, WriteStep::InsertTransactions, WriteStep::InsertEvents]
        + group_steps(groups) + seq![
        WriteStep::InsertAddresses,
        WriteStep::InsertPackages,
        WriteStep::InsertMoveCalls,
        WriteStep::InsertRecipients,
    ]
}

/// The store after one step of writing `delta` is taken.
pub open spec fn apply_step(
    store: StoreView,
    delta: TemporaryCheckpointStoreView,
    step: WriteStep,
) -> StoreView {
    match step {
        WriteStep::InsertCheckpoint => StoreView {
            checkpoints: store.checkpoints.push(delta.checkpoint),
            ..store
        },
        WriteStep::InsertTransactions => StoreView {
            transactions: append_transactions(store.transactions, delta.transactions),
            ..store
        },
        WriteStep::InsertEvents => StoreView { events: store.events + delta.events, ..store },
        WriteStep::UpsertMutatedObjects { group } => StoreView {
            objects: upsert_mutated_batch(
                store.objects,
                delta.objects_changes[group as int].mutated_objects,
            ),
            ..store
        },
        WriteStep::UpsertDeletedObjects { group } => StoreView {
            objects: upsert_deleted_batch(
                store.objects,
                delta.objects_changes[group as int].deleted_objects,
            ),
            ..store
        },
        WriteStep::InsertAddresses => StoreView {
            addresses: insert_addresses(store.addresses, delta.addresses),
            ..store
        },
        WriteStep::InsertPackages => StoreView {
            packages: insert_packages(store.packages, delta.packages),
            ..store
        },
        WriteStep::InsertMoveCalls => StoreView {
            move_calls: append_move_calls(store.move_calls, delta.move_calls),
            ..store
        },
        WriteStep::InsertRecipients => StoreView {
            recipients: append_recipients(store.recipients, delta.recipients),
            ..store
        },
    }
}

/// The store after the steps are taken one after the other.
pub open spec fn apply_steps(
    store: StoreView,
    delta: TemporaryCheckpointStoreView,
    steps: Seq<WriteStep>,
) -> StoreView
    decreases steps.len(),
{
    if steps.len() == 0 {
        store
    } else {
        apply_step(apply_steps(store, delta, steps.drop_last()), delta, steps.last())
    }
}

/// Taking two runs of steps one after the other is taking their
/// concatenation.
pub proof fn lemma_apply_steps_add(
    store: StoreView,
    delta: TemporaryCheckpointStoreView,
    first: Seq<WriteStep>,
    second: Seq<WriteStep>,
)
    ensures
        apply_steps(store, delta, first + second) == apply_steps(
            apply_steps(store, delta, first),
            delta,
            second,
        ),
    decreases second.len(),
{
    if second.len() == 0 {
        assert(first + second =~= first);
    } else {
        lemma_apply_steps_add(store, delta, first, second.drop_last());
        assert((first + second).drop_last() =~= first + second.drop_last());
        assert((first + second).last() == second.last());
    }
}

/// Taking the steps of the first `count` groups writes the changes of those
/// groups to the objects and touches nothing else.
pub proof fn lemma_group_steps(store: StoreView, delta: TemporaryCheckpointStoreView, count: nat)
    requires
        count <= delta.objects_changes.len(),
        delta.objects_changes.len() <= usize::MAX,
    ensures
        apply_steps(store, delta, group_steps(count)) == (StoreView {
            objects: apply_changes(store.objects, delta.objects_changes.take(count as int)),
            ..store
        }),
    decreases count,
{
    if count == 0 {
        assert(delta.objects_changes.take(0) =~= Seq::empty());
    } else {
        let before = (count - 1) as nat;
        lemma_group_steps(store, delta, before);
        let pair = seq![
            WriteStep::UpsertMutatedObjects { group: before as usize },
            WriteStep::UpsertDeletedObjects { group: before as usize },
        ];
        lemma_apply_steps_add(store, delta, group_steps(before), pair);
        let earlier = apply_steps(store, delta, group_steps(before));
        assert(pair.drop_last() =~= seq![WriteStep::UpsertMutatedObjects { group: before as usize }]);
        assert(pair.drop_last().drop_last() =~= Seq::<WriteStep>::empty());
        assert(apply_steps(earlier, delta, pair.drop_last().drop_last()) == earlier);
        assert(apply_steps(earlier, delta, pair.drop_last()) == apply_step(
            earlier,
            delta,
            WriteStep::UpsertMutatedObjects { group: before as usize },
        ));
        let groups = delta.objects_changes.take(count as int);
        assert(groups.drop_last() =~= delta.objects_changes.take(before as int));
        assert(groups.last() == delta.objects_changes[before as int]);
        assert(apply_changes(store.objects, groups) == apply_group(
            apply_changes(store.objects, groups.drop_last()),
            groups.last(),
        ));
    }
}

/// Taking the steps of a checkpoint in their order leaves the store exactly
/// as writing the checkpoint at once does.
pub proof fn lemma_steps_persist(store: StoreView, delta: TemporaryCheckpointStoreView)
    requires
        delta.objects_changes.len() <= usize::MAX,
    ensures
        apply_steps(store, delta, write_steps(delta.objects_changes.len())) == store.persisted(delta),
{
    let head = seq![
        WriteStep::InsertCheckpoint,
        WriteStep::InsertTransactions,
        WriteStep::InsertEvents,
    ];
    let middle = group_steps(delta.objects_changes.len());
    let tail = seq![
        WriteStep::InsertAddresses,
        WriteStep::InsertPackages,
        WriteStep::InsertMoveCalls,
        WriteStep::InsertRecipients,
    ];
    lemma_apply_steps_add(store, delta, head + middle, tail);
    lemma_apply_steps_add(store, delta, head, middle);
    let after_head = apply_steps(store, delta, head);
    assert(after_head == (StoreView {
        checkpoints: store.checkpoints.push(delta.checkpoint),
        transactions: append_transactions(store.transactions, delta.transactions),
        events: store.events + delta.events,
        ..store
    })) by {
        let two = head.drop_last();
        let one = two.drop_last();
        assert(two =~= seq![WriteStep::InsertCheckpoint, WriteStep::InsertTransactions]);
        assert(one =~= seq![WriteStep::InsertCheckpoint]);
        assert(one.drop_last() =~= Seq::<WriteStep>::empty());
        assert(apply_steps(store, delta, one.drop_last()) == store);
        assert(apply_steps(store, delta, one) == apply_step(
            store,
            delta,
            WriteStep::InsertCheckpoint,
        ));
        assert(apply_steps(store, delta, two) == apply_step(
            apply_steps(store, delta, one),
            delta,
            WriteStep::InsertTransactions,
        ));
    }
    lemma_group_steps(after_head, delta, delta.objects_changes.len());
    assert(delta.objects_changes.take(delta.objects_changes.len() as int) =~= delta.objects_changes);
    let after_middle = apply_steps(after_head, delta, middle);
    assert(apply_steps(after_middle, delta, tail) == store.persisted(delta)) by {
        let three = tail.drop_last();
        let two = three.drop_last();
        let one = two.drop_last();
        assert(three =~= seq![
            WriteStep::InsertAddresses,
            WriteStep::InsertPackages,
            WriteStep::InsertMoveCalls,
        ]);
        assert(two =~= seq![WriteStep::InsertAddresses, WriteStep::InsertPackages]);
        assert(one =~= seq![WriteStep::InsertAddresses]);
        assert(one.drop_last() =~= Seq::<WriteStep>::empty());
        assert(apply_steps(after_middle, delta, one.drop_last()) == after_middle);
        assert(apply_steps(after_middle, delta, one) == apply_step(
            after_middle,
            delta,
            WriteStep::InsertAddresses,
        ));
        assert(apply_steps(after_middle, delta, two) == apply_step(
            apply_steps(after_middle, delta, one),
            delta,
            WriteStep::InsertPackages,
        ));
        assert(apply_steps(after_middle, delta, three) == apply_step(
            apply_steps(after_middle, delta, two),
            delta,
            WriteStep::InsertMoveCalls,
        ));
    }
    assert(write_steps(delta.objects_changes.len()) =~= (head + middle) + tail);
}

/// The steps of writing the bundle, in their order.
pub fn plan_checkpoint_write(data: &TemporaryCheckpointStore) -> (steps: Vec<WriteStep>)
    ensures
        steps@ == write_steps(data@.objects_changes.len()),
{
    let mut steps: Vec<WriteStep> = Vec::new();
    steps.push(WriteStep::InsertCheckpoint);
    steps.push(WriteStep::InsertTransactions);
    steps.push(WriteStep::InsertEvents);
    let ghost head = steps@;
    let mut g: usize = 0;
    proof {
        assert(steps@ =~= head + group_steps(0));
    }
    while g < data.objects_changes.len()
        invariant
            g <= data.objects_changes.len(),
            head == seq![
                WriteStep::InsertCheckpoint,
                WriteStep::InsertTransactions,
                WriteStep::InsertEvents,
            ],
            steps@ == head + group_steps(g as nat),
        decreases data.objects_changes.len() - g,
    {
        steps.push(WriteStep::UpsertMutatedObjects { group: g });
        steps.push(WriteStep::UpsertDeletedObjects { group: g });
        proof {
            assert(steps@ =~= head + group_steps((g + 1) as nat));
        }
        g = g + 1;
    }
    steps.push(WriteStep::InsertAddresses);
    steps.push(WriteStep::InsertPackages);
    steps.push(WriteStep::InsertMoveCalls);
    steps.push(WriteStep::InsertRecipients);
    proof {
        assert(steps@ =~= write_steps(data@.objects_changes.len()));
    }
    steps
}

} // verus!
