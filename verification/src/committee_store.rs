//! The committees of the epochs: a table of them with a cache in front.

use crate::base_types::EpochId;
use crate::views::{lemma_take_all, lemma_take_step};
use std::collections::HashMap;
use vstd::prelude::*;
use vstd::std_specs::hash::*;

verus! {

/// The name of an authority: the bytes of its public key.
#[derive(Debug, PartialEq, Eq)]
pub struct AuthorityName(pub Vec<u8>);

/// A weight in votes.
pub type StakeUnit = u64;

/// The authorities of one epoch with their voting rights.
#[derive(Debug, PartialEq, Eq)]
pub struct Committee {
    pub epoch: EpochId,
    pub voting_rights: Vec<(AuthorityName, StakeUnit)>,
}

/// The mathematical value of a [`Committee`].
pub struct CommitteeView {
    pub epoch: EpochId,
    pub voting_rights: Seq<(Seq<u8>, StakeUnit)>,
}

/// The name and the stake of one member.
pub open spec fn member_view(member: (AuthorityName, StakeUnit)) -> (Seq<u8>, StakeUnit) {
    (member.0.0@, member.1)
}

impl View for Committee {
    type V = CommitteeView;

    open spec fn view(&self) -> CommitteeView {
        CommitteeView {
            epoch: self.epoch,
            voting_rights: self.voting_rights@.map_values(
                |member: (AuthorityName, StakeUnit)| member_view(member),
            ),
        }
    }
}

/// A copy of some bytes.
fn clone_bytes(bytes: &Vec<u8>) -> (copy: Vec<u8>)
    ensures
        copy@ == bytes@,
{
    let mut copy: Vec<u8> = Vec::new();
    let mut i: usize = 0;
    while i < bytes.len()
        invariant
            i <= bytes.len(),
            copy@ == bytes@.take(i as int),
        decreases bytes.len() - i,
    {
        copy.push(bytes[i]);
        proof {
            lemma_take_step(bytes@, i as int);
        }
        i = i + 1;
    }
    proof {
        lemma_take_all(bytes@);
    }
    copy
}

impl Clone for Committee {
    fn clone(&self) -> (copy: Self)
        ensures
            copy@ == self@,
    {
        let mut voting_rights: Vec<(AuthorityName, StakeUnit)> = Vec::new();
        let mut i: usize = 0;
        while i < self.voting_rights.len()
            invariant
                i <= self.voting_rights.len(),
                voting_rights.len() == i,
                forall|k: int|
                    0 <= k < i ==> member_view(#[trigger] voting_rights@[k]) == member_view(
                        self.voting_rights@[k],
                    ),
            decreases self.voting_rights.len() - i,
        {
            let name = AuthorityName(clone_bytes(&self.voting_rights[i].0.0));
            voting_rights.push((name, self.voting_rights[i].1));
            i = i + 1;
        }
        let copy = Committee { epoch: self.epoch, voting_rights };
        assert(copy@.voting_rights =~= self@.voting_rights);
        copy
    }
}

/// The mathematical value of the store: the committees by epoch, and those
/// of them that the cache holds.
pub struct CommitteeStoreView {
    pub committees: Map<EpochId, CommitteeView>,
    pub cache: Map<EpochId, CommitteeView>,
    pub latest: EpochId,
}

impl CommitteeStoreView {
    /// Every committee is stored under its own epoch, the latest epoch has
    /// a committee and no epoch with one lies above it, and the cache holds
    /// nothing but stored committees.
    pub open spec fn wf(self) -> bool {
        &&& forall|epoch: EpochId| #[trigger]
            self.committees.contains_key(epoch) ==> self.committees[epoch].epoch == epoch
        &&& self.committees.contains_key(self.latest)
        &&& forall|epoch: EpochId| #[trigger]
            self.committees.contains_key(epoch) ==> epoch <= self.latest
        &&& forall|epoch: EpochId| #[trigger]
            self.cache.contains_key(epoch) ==> self.committees.contains_key(epoch)
                && self.cache[epoch] == self.committees[epoch]
    }

    /// The committee of the epoch, if one is stored.
    pub open spec fn committee(self, epoch: EpochId) -> Option<CommitteeView> {
        if self.committees.contains_key(epoch) {
            Some(self.committees[epoch])
        } else {
            None
        }
    }

    /// The committee of the latest epoch.
    pub open spec fn latest_committee(self) -> CommitteeView {
        self.committees[self.latest]
    }
}

/// No committee is stored for the epoch that was asked for.
#[derive(Clone, Copy, Debug, PartialEq, Eq, Structural)]
pub struct MissingCommitteeAtEpoch(pub EpochId);

/// The table of the committees.
pub struct CommitteeStoreTables {
    /// Map from each epoch to the committee of the epoch.
    committee_map: HashMap<EpochId, Committee>,
}

/// The committees of the epochs. Reads go through a cache that is filled on
/// the way.
pub struct CommitteeStore {
    tables: CommitteeStoreTables,
    cache: HashMap<EpochId, Committee>,
    latest: EpochId,
}

/// The values of the committees of a table.
pub open spec fn committee_views(table: Map<EpochId, Committee>) -> Map<EpochId, CommitteeView> {
    table.map_values(|committee: Committee| committee@)
}

impl View for CommitteeStore {
    type V = CommitteeStoreView;

    closed spec fn view(&self) -> CommitteeStoreView {
        CommitteeStoreView {
            committees: committee_views(self.tables.committee_map@),
            cache: committee_views(self.cache@),
            latest: self.latest,
        }
    }
}

impl CommitteeStore {
    /// The store obeys its rules.
    pub open spec fn wf(&self) -> bool {
        self@.wf()
    }

    /// A store that holds the committee of the first epoch.
    pub fn new(genesis_committee: &Committee) -> (store: Self)
        requires
            genesis_committee.epoch == 0,
        ensures
            store.wf(),
            store@.committees == Map::<EpochId, CommitteeView>::empty().insert(
                0,
                genesis_committee@,
            ),
            store@.cache == store@.committees,
            store@.latest == 0,
    {
        broadcast use group_hash_axioms;

        let mut store = CommitteeStore {
            tables: CommitteeStoreTables { committee_map: HashMap::new() },
            cache: HashMap::new(),
            latest: 0,
        };
        let stored = genesis_committee.clone();
        let cached = genesis_committee.clone();
        store.tables.committee_map.insert(0, stored);
        store.cache.insert(0, cached);
        assert(store@.committees =~= Map::<EpochId, CommitteeView>::empty().insert(
            0,
            genesis_committee@,
        ));
        assert(store@.cache =~= store@.committees);
        store
    }

    /// A store for tests; it holds the committee of the first epoch.
    pub fn new_for_testing(genesis_committee: &Committee) -> (store: Self)
        requires
            genesis_committee.epoch == 0,
        ensures
            store.wf(),
            store@.committees == Map::<EpochId, CommitteeView>::empty().insert(
                0,
                genesis_committee@,
            ),
            store@.cache == store@.committees,
            store@.latest == 0,
    {
        CommitteeStore::new(genesis_committee)
    }

    /// Stores the committee of the first epoch, in place of the one stored
    /// for it.
    pub fn init_genesis_committee(&mut self, genesis_committee: Committee)
        requires
            old(self).wf(),
            genesis_committee.epoch == 0,
        ensures
            final(self).wf(),
            final(self)@.committees == old(self)@.committees.insert(0, genesis_committee@),
            final(self)@.cache == old(self)@.cache.insert(0, genesis_committee@),
            final(self)@.latest == old(self)@.latest,
    {
        broadcast use group_hash_axioms;

        let ghost before = self@;
        let cached = genesis_committee.clone();
        self.tables.committee_map.insert(0, genesis_committee);
        self.cache.insert(0, cached);
        assert(self@.committees =~= before.committees.insert(0, genesis_committee@));
        assert(self@.cache =~= before.cache.insert(0, genesis_committee@));
    }

    /// Stores the committee of an epoch. Where the epoch has a committee
    /// already it must be this one, and nothing is written.
    pub fn insert_new_committee(&mut self, new_committee: &Committee)
        requires
            old(self).wf(),
            old(self)@.committees.contains_key(new_committee.epoch) ==> old(
                self,
            )@.committees[new_committee.epoch] == new_committee@,
        ensures
            final(self).wf(),
            final(self)@.committees == old(self)@.committees.insert(
                new_committee.epoch,
                new_committee@,
            ),
            final(self)@.cache == old(self)@.cache.insert(new_committee.epoch, new_committee@),
            final(self)@.latest == if new_committee.epoch > old(self)@.latest {
                new_committee.epoch
            } else {
                old(self)@.latest
            },
    {
        broadcast use group_hash_axioms;

        let ghost before = self@;
        let epoch = new_committee.epoch;
        match self.get_committee(&epoch) {
            Some(_) => {
                assert(self@.committees =~= before.committees.insert(epoch, new_committee@));
            },
            None => {
                let stored = new_committee.clone();
                let cached = new_committee.clone();
                self.tables.committee_map.insert(epoch, stored);
                self.cache.insert(epoch, cached);
                if epoch > self.latest {
                    self.latest = epoch;
                }
                assert(self@.committees =~= before.committees.insert(epoch, new_committee@));
                assert(self@.cache =~= before.cache.insert(epoch, new_committee@));
            },
        }
    }

    /// The committee of the epoch, if one is stored. A committee that is
    /// found is in the cache afterwards.
    pub fn get_committee(&mut self, epoch_id: &EpochId) -> (found: Option<Committee>)
        requires
            old(self).wf(),
        ensures
            final(self).wf(),
            final(self)@.committees == old(self)@.committees,
            final(self)@.latest == old(self)@.latest,
            match old(self)@.committee(*epoch_id) {
                Some(committee) => {
                    &&& found matches Some(c)
                    &&& c@ == committee
                    &&& final(self)@.cache == old(self)@.cache.insert(*epoch_id, committee)
                },
                None => found is None && final(self)@.cache == old(self)@.cache,
            },
    {
        broadcast use group_hash_axioms;

        let ghost before = self@;
        match self.cache.get(epoch_id) {
            Some(committee) => {
                let found = committee.clone();
                assert(before.cache.contains_key(*epoch_id));
                assert(self@.cache =~= before.cache.insert(*epoch_id, found@));
                return Some(found);
            },
            None => {},
        }
        assert(!before.cache.contains_key(*epoch_id));
        match self.tables.committee_map.get(epoch_id) {
            Some(committee) => {
                let found = committee.clone();
                let cached = committee.clone();
                assert(before.committees.contains_key(*epoch_id));
                self.cache.insert(*epoch_id, cached);
                assert(self@.cache =~= before.cache.insert(*epoch_id, found@));
                Some(found)
            },
            None => {
                assert(!before.committees.contains_key(*epoch_id));
                None
            },
        }
    }

    /// The committee of the latest epoch.
    pub fn get_latest_committee(&self) -> (latest: Committee)
        requires
            self.wf(),
        ensures
            latest@ == self@.latest_committee(),
            forall|epoch: EpochId| #[trigger]
                self@.committees.contains_key(epoch) ==> epoch <= latest.epoch,
    {
        broadcast use group_hash_axioms;

        let latest = self.latest;
        assert(self@.committees.contains_key(latest));
        match self.tables.committee_map.get(&latest) {
            Some(committee) => committee.clone(),
            None => {
                proof {
                    assert(false);
                }
                Committee { epoch: latest, voting_rights: Vec::new() }
            },
        }
    }

    /// The committee of the epoch, or the latest committee where no epoch
    /// is given. An epoch without a committee is an error.
    pub fn get_or_latest_committee(&mut self, epoch: Option<EpochId>) -> (res: Result<
        Committee,
        MissingCommitteeAtEpoch,
    >)
        requires
            old(self).wf(),
        ensures
            final(self).wf(),
            final(self)@.committees == old(self)@.committees,
            final(self)@.latest == old(self)@.latest,
            match epoch {
                Some(e) => match old(self)@.committee(e) {
                    Some(committee) => res matches Ok(c) && c@ == committee,
                    None => res == Err::<Committee, MissingCommitteeAtEpoch>(
                        MissingCommitteeAtEpoch(e),
                    ),
                },
                None => res matches Ok(c) && c@ == old(self)@.latest_committee(),
            },
    {
        match epoch {
            Some(e) => match self.get_committee(&e) {
                Some(committee) => Ok(committee),
                None => Err(MissingCommitteeAtEpoch(e)),
            },
            None => Ok(self.get_latest_committee()),
        }
    }

    /// Whether no committee is stored.
    pub fn database_is_empty(&self) -> (empty: bool)
        ensures
            empty == (self@.committees.dom().len() == 0),
            self.wf() ==> !empty,
    {
        broadcast use group_hash_axioms;

        let empty = self.tables.committee_map.is_empty();
        proof {
            let table = self.tables.committee_map@;
            assert(self@.committees.dom() =~= table.dom());
            if self.wf() {
                assert(self@.committees.contains_key(self.latest));
                assert(table.dom().contains(self.latest));
                if table.dom().len() == 0 {
                    assert(table.dom().finite());
                    table.dom().lemma_len0_is_empty();
                }
            }
        }
        empty
    }
}

} // verus!
