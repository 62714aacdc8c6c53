use sui_indexer::committee_store::{
    AuthorityName, Committee, CommitteeStore, MissingCommitteeAtEpoch,
};

fn committee(epoch: u64, members: &[(u8, u64)]) -> Committee {
    Committee {
        epoch,
        voting_rights: members
            .iter()
            .map(|(name, stake)| (AuthorityName(vec![*name; 4]), *stake))
            .collect(),
    }
}

#[test]
fn new_store_holds_the_genesis_committee() {
    let genesis = committee(0, &[(1, 10), (2, 20)]);
    let mut store = CommitteeStore::new(&genesis);
    assert!(!store.database_is_empty());
    assert_eq!(store.get_committee(&0), Some(committee(0, &[(1, 10), (2, 20)])));
    assert_eq!(store.get_committee(&1), None);
    assert_eq!(store.get_latest_committee(), genesis);
    let mut other = CommitteeStore::new_for_testing(&genesis);
    assert_eq!(other.get_committee(&0), Some(committee(0, &[(1, 10), (2, 20)])));
}

#[test]
fn inserted_committees_are_found_and_the_latest_is_the_highest_epoch() {
    let mut store = CommitteeStore::new(&committee(0, &[(1, 1)]));
    store.insert_new_committee(&committee(5, &[(5, 5)]));
    store.insert_new_committee(&committee(2, &[(2, 2)]));
    assert_eq!(store.get_committee(&5), Some(committee(5, &[(5, 5)])));
    assert_eq!(store.get_committee(&2), Some(committee(2, &[(2, 2)])));
    assert_eq!(store.get_committee(&3), None);
    assert_eq!(store.get_latest_committee(), committee(5, &[(5, 5)]));
}

#[test]
fn inserting_the_same_committee_again_changes_nothing() {
    let mut store = CommitteeStore::new(&committee(0, &[(1, 1)]));
    store.insert_new_committee(&committee(1, &[(7, 7)]));
    store.insert_new_committee(&committee(1, &[(7, 7)]));
    assert_eq!(store.get_committee(&1), Some(committee(1, &[(7, 7)])));
    assert_eq!(store.get_latest_committee(), committee(1, &[(7, 7)]));
}

#[test]
fn genesis_committee_can_be_set_again() {
    let mut store = CommitteeStore::new(&committee(0, &[(1, 1)]));
    store.insert_new_committee(&committee(1, &[(7, 7)]));
    store.init_genesis_committee(committee(0, &[(9, 9)]));
    assert_eq!(store.get_committee(&0), Some(committee(0, &[(9, 9)])));
    assert_eq!(store.get_latest_committee(), committee(1, &[(7, 7)]));
}

#[test]
fn committee_of_an_epoch_or_the_latest() {
    let mut store = CommitteeStore::new(&committee(0, &[(1, 1)]));
    store.insert_new_committee(&committee(4, &[(4, 4)]));
    assert_eq!(store.get_or_latest_committee(Some(0)), Ok(committee(0, &[(1, 1)])));
    assert_eq!(store.get_or_latest_committee(None), Ok(committee(4, &[(4, 4)])));
    assert_eq!(store.get_or_latest_committee(Some(3)), Err(MissingCommitteeAtEpoch(3)));
}
