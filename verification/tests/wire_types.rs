use sui_indexer::base_types::{
    ObjectDigest, ObjectID, Owner, SequenceNumber, SuiAddress, SuiObjectRef, TransactionDigest,
};
use sui_indexer::collection_types::{LinkedTable, Table, TableVec};
use sui_indexer::messages::{Argument, GasCostSummary, InputObjectKind, Pay, PayAllSui, PaySui};
use sui_indexer::sui_transaction::{
    default_shared_object_mutability, to_owned_ref, to_sui_object_ref, write_sep, BigInt,
    OwnedObjectRef, SuiArgument, SuiExecutionStatus, SuiGasCostSummary, SuiInputObjectKind,
    SuiPay, SuiPayAllSui, SuiPaySui, SuiTransactionEffects, SuiTransactionEffectsAPI,
    SuiTransactionEffectsV1, SuiTransactionResponseOptions,
};

fn id(n: u8) -> ObjectID {
    ObjectID([n; 32])
}

fn oref(n: u8, version: u64) -> (ObjectID, SequenceNumber, ObjectDigest) {
    (id(n), SequenceNumber(version), ObjectDigest([n.wrapping_add(100); 32]))
}

fn sui_ref(n: u8, version: u64) -> SuiObjectRef {
    SuiObjectRef {
        object_id: id(n),
        version: SequenceNumber(version),
        digest: ObjectDigest([n.wrapping_add(100); 32]),
    }
}

fn owned(n: u8, version: u64, owner: Owner) -> OwnedObjectRef {
    OwnedObjectRef { owner, reference: sui_ref(n, version) }
}

fn effects() -> SuiTransactionEffectsV1 {
    let gas = owned(9, 3, Owner::AddressOwner(SuiAddress([1; 32])));
    SuiTransactionEffectsV1 {
        status: SuiExecutionStatus::Success,
        executed_epoch: 4,
        gas_used: SuiGasCostSummary { computation_cost: 1, storage_cost: 2, storage_rebate: 3 },
        shared_objects: vec![sui_ref(1, 1)],
        transaction_digest: TransactionDigest([7; 32]),
        created: vec![owned(2, 1, Owner::Immutable)],
        mutated: vec![
            owned(3, 2, Owner::AddressOwner(SuiAddress([1; 32]))),
            gas,
            owned(4, 5, Owner::Shared { initial_shared_version: SequenceNumber(1) }),
            owned(9, 3, Owner::ObjectOwner(SuiAddress([1; 32]))),
        ],
        unwrapped: vec![],
        deleted: vec![sui_ref(5, 6)],
        unwrapped_then_deleted: vec![],
        wrapped: vec![sui_ref(6, 1)],
        gas_object: gas,
        events_digest: None,
        dependencies: vec![TransactionDigest([8; 32])],
    }
}

#[test]
fn response_options_builders() {
    let none = SuiTransactionResponseOptions::new();
    assert_eq!(
        none,
        SuiTransactionResponseOptions { show_input: false, show_effects: false, show_events: false }
    );
    assert_eq!(none, SuiTransactionResponseOptions::default());
    assert_eq!(
        SuiTransactionResponseOptions::full_content(),
        SuiTransactionResponseOptions { show_input: true, show_effects: true, show_events: true }
    );
    assert_eq!(
        none.with_input(),
        SuiTransactionResponseOptions { show_input: true, show_effects: false, show_events: false }
    );
    assert_eq!(
        none.with_effects(),
        SuiTransactionResponseOptions { show_input: false, show_effects: true, show_events: false }
    );
    assert_eq!(
        none.with_events(),
        SuiTransactionResponseOptions { show_input: false, show_effects: false, show_events: true }
    );
    assert_eq!(
        none.with_input().with_effects().with_events(),
        SuiTransactionResponseOptions::full_content()
    );
}

#[test]
fn execution_status_predicates() {
    assert!(SuiExecutionStatus::Success.is_ok());
    assert!(!SuiExecutionStatus::Success.is_err());
    let failure = SuiExecutionStatus::Failure { error: "out of gas".to_string() };
    assert!(failure.is_err());
    assert!(!failure.is_ok());
    assert_eq!(failure.clone(), failure);
}

#[test]
fn big_int_converts_both_ways() {
    let x = BigInt::from(42u64);
    assert_eq!(x, BigInt(42));
    assert_eq!(x.value(), 42);
    assert_eq!(u64::from(BigInt(u64::MAX)), u64::MAX);
}

#[test]
fn object_references_convert_in_order() {
    assert_eq!(to_sui_object_ref(vec![]), Vec::<SuiObjectRef>::new());
    assert_eq!(
        to_sui_object_ref(vec![oref(1, 10), oref(2, 20)]),
        vec![sui_ref(1, 10), sui_ref(2, 20)]
    );
    assert_eq!(SuiObjectRef::from_ref(oref(3, 1)).to_object_ref(), oref(3, 1));
    assert_eq!(
        to_owned_ref(vec![(oref(1, 10), Owner::Immutable), (oref(2, 20), Owner::ObjectOwner(SuiAddress([5; 32])))]),
        vec![owned(1, 10, Owner::Immutable), owned(2, 20, Owner::ObjectOwner(SuiAddress([5; 32])))]
    );
}

#[test]
fn equality_of_references_looks_at_every_part() {
    assert!(sui_ref(1, 1).equals(&sui_ref(1, 1)));
    assert!(!sui_ref(1, 1).equals(&sui_ref(1, 2)));
    assert!(!sui_ref(1, 1).equals(&sui_ref(2, 1)));
    let mut other = sui_ref(1, 1);
    other.digest.0[31] = 0;
    assert!(!sui_ref(1, 1).equals(&other));
    assert!(Owner::Immutable.equals(&Owner::Immutable));
    assert!(!Owner::Immutable.equals(&Owner::AddressOwner(SuiAddress([0; 32]))));
    assert!(!Owner::AddressOwner(SuiAddress([0; 32])).equals(&Owner::ObjectOwner(SuiAddress([0; 32]))));
    assert!(Owner::Shared { initial_shared_version: SequenceNumber(2) }
        .equals(&Owner::Shared { initial_shared_version: SequenceNumber(2) }));
    assert!(!Owner::Shared { initial_shared_version: SequenceNumber(2) }
        .equals(&Owner::Shared { initial_shared_version: SequenceNumber(3) }));
    assert!(id(4).equals(&id(4)));
    assert!(!id(4).equals(&id(5)));
}

#[test]
fn payments_convert_field_by_field() {
    let pay = SuiPay::from_pay(Pay {
        coins: vec![oref(1, 1), oref(2, 2)],
        recipients: vec![SuiAddress([3; 32])],
        amounts: vec![5, 6],
    });
    assert_eq!(
        pay,
        SuiPay {
            coins: vec![sui_ref(1, 1), sui_ref(2, 2)],
            recipients: vec![SuiAddress([3; 32])],
            amounts: vec![BigInt(5), BigInt(6)],
        }
    );
    let pay_sui = SuiPaySui::from_pay_sui(PaySui {
        coins: vec![oref(1, 1)],
        recipients: vec![SuiAddress([3; 32]), SuiAddress([4; 32])],
        amounts: vec![7],
    });
    assert_eq!(
        pay_sui,
        SuiPaySui {
            coins: vec![sui_ref(1, 1)],
            recipients: vec![SuiAddress([3; 32]), SuiAddress([4; 32])],
            amounts: vec![BigInt(7)],
        }
    );
    let all = SuiPayAllSui::from_pay_all_sui(PayAllSui {
        coins: vec![oref(8, 1)],
        recipient: SuiAddress([9; 32]),
    });
    assert_eq!(all, SuiPayAllSui { coins: vec![sui_ref(8, 1)], recipient: SuiAddress([9; 32]) });
}

#[test]
fn gas_summary_arguments_and_inputs_convert() {
    assert_eq!(
        SuiGasCostSummary::from(GasCostSummary {
            computation_cost: 1,
            storage_cost: 2,
            storage_rebate: 3
        }),
        SuiGasCostSummary { computation_cost: 1, storage_cost: 2, storage_rebate: 3 }
    );
    assert_eq!(SuiArgument::from(Argument::GasCoin), SuiArgument::GasCoin);
    assert_eq!(SuiArgument::from(Argument::Input(3)), SuiArgument::Input(3));
    assert_eq!(SuiArgument::from(Argument::Result(4)), SuiArgument::Result(4));
    assert_eq!(
        SuiArgument::from(Argument::NestedResult(5, 6)),
        SuiArgument::NestedResult(5, 6)
    );
    assert_eq!(
        SuiInputObjectKind::from(InputObjectKind::MovePackage(id(1))),
        SuiInputObjectKind::MovePackage(id(1))
    );
    assert_eq!(
        SuiInputObjectKind::from(InputObjectKind::ImmOrOwnedMoveObject(oref(2, 3))),
        SuiInputObjectKind::ImmOrOwnedMoveObject(sui_ref(2, 3))
    );
    assert_eq!(
        SuiInputObjectKind::from(InputObjectKind::SharedMoveObject {
            id: id(3),
            initial_shared_version: SequenceNumber(4),
            mutable: false,
        }),
        SuiInputObjectKind::SharedMoveObject {
            id: id(3),
            initial_shared_version: SequenceNumber(4),
            mutable: false,
        }
    );
    assert!(default_shared_object_mutability());
}

#[test]
fn separator_goes_before_every_item_but_the_last() {
    let items = |v: &[&str]| v.iter().map(|s| s.to_string()).collect::<Vec<String>>();
    assert_eq!(write_sep(&items(&[]), ","), "");
    assert_eq!(write_sep(&items(&["a"]), ","), "a");
    assert_eq!(write_sep(&items(&["a", "b"]), ","), ",ab");
    assert_eq!(write_sep(&items(&["a", "b", "c"]), ", "), ", a, bc");
    assert_eq!(write_sep(&items(&["a", "b", "c"]), ""), "abc");
}

#[test]
fn effects_accessors_return_their_fields() {
    let e = effects();
    assert_eq!(e.status(), &SuiExecutionStatus::Success);
    assert_eq!(e.shared_objects(), &[sui_ref(1, 1)][..]);
    assert_eq!(e.created(), &[owned(2, 1, Owner::Immutable)][..]);
    assert_eq!(e.mutated().len(), 4);
    assert_eq!(e.unwrapped(), &[][..]);
    assert_eq!(e.deleted(), &[sui_ref(5, 6)][..]);
    assert_eq!(e.unwrapped_then_deleted(), &[][..]);
    assert_eq!(e.wrapped(), &[sui_ref(6, 1)][..]);
    assert_eq!(e.gas_object(), &owned(9, 3, Owner::AddressOwner(SuiAddress([1; 32]))));
    assert_eq!(e.events_digest(), None);
    assert_eq!(e.dependencies(), &[TransactionDigest([8; 32])][..]);
    assert_eq!(e.executed_epoch(), 4);
    assert_eq!(e.transaction_digest(), &TransactionDigest([7; 32]));
    assert_eq!(
        e.gas_used(),
        &SuiGasCostSummary { computation_cost: 1, storage_cost: 2, storage_rebate: 3 }
    );
    assert_eq!(e.into_status(), SuiExecutionStatus::Success);
}

#[test]
fn mutated_excluding_gas_drops_only_the_gas_object() {
    let e = effects();
    let expected = vec![
        owned(3, 2, Owner::AddressOwner(SuiAddress([1; 32]))),
        owned(4, 5, Owner::Shared { initial_shared_version: SequenceNumber(1) }),
        owned(9, 3, Owner::ObjectOwner(SuiAddress([1; 32]))),
    ];
    assert_eq!(e.mutated_excluding_gas(), expected);
    let wrapped = SuiTransactionEffects::V1(effects());
    assert_eq!(wrapped.mutated_excluding_gas(), expected);
    assert_eq!(wrapped.executed_epoch(), 4);
    assert_eq!(wrapped.gas_object(), &owned(9, 3, Owner::AddressOwner(SuiAddress([1; 32]))));
}

#[test]
fn default_tables_are_empty_with_the_zero_id() {
    let table = Table::default();
    assert_eq!(table, Table { id: ObjectID([0; 32]), size: 0 });
    assert_eq!(TableVec::default().contents, table);
    let linked: LinkedTable<u64> = LinkedTable::default();
    assert_eq!(linked, LinkedTable { id: ObjectID([0; 32]), size: 0, head: None, tail: None });
    assert_eq!(ObjectID::from_address(SuiAddress([6; 32])), ObjectID([6; 32]));
    assert_eq!(SuiAddress::zero(), SuiAddress([0; 32]));
    assert_eq!(ObjectID::zero(), ObjectID([0; 32]));
}
