//! Identifiers and references that the wire types are made of.

use vstd::prelude::*;

verus! {

/// Number of bytes in an id, an address or a digest.
pub const ID_LENGTH: usize = 32;

/// Whether two blocks of bytes hold the same bytes.
pub fn same_bytes(a: &[u8; 32], b: &[u8; 32]) -> (same: bool)
    ensures
        same == (*a == *b),
{
    let mut i: usize = 0;
    while i < 32
        invariant
            i <= 32,
            forall|k: int| 0 <= k < i ==> a[k] == b[k],
        decreases 32 - i,
    {
        if a[i] != b[i] {
            return false;
        }
        i = i + 1;
    }
    assert(*a =~= *b);
    true
}

/// An epoch of the ledger.
pub type EpochId = u64;

/// The version of an object.
#[derive(Clone, Copy, Debug, PartialEq, Eq, Structural)]
pub struct SequenceNumber(pub u64);

/// The id of an object.
#[derive(Clone, Copy, Debug, PartialEq, Eq)]
pub struct ObjectID(pub [u8; 32]);

impl ObjectID {
    /// Whether both hold the same bytes.
    pub fn equals(&self, other: &ObjectID) -> (same: bool)
        ensures
            same == (*self == *other),
    {
        same_bytes(&self.0, &other.0)
    }
}

/// The address of an account.
#[derive(Clone, Copy, Debug, PartialEq, Eq)]
pub struct SuiAddress(pub [u8; 32]);

impl SuiAddress {
    /// Whether both hold the same bytes.
    pub fn equals(&self, other: &SuiAddress) -> (same: bool)
        ensures
            same == (*self == *other),
    {
        same_bytes(&self.0, &other.0)
    }
}

/// The digest of a transaction.
#[derive(Clone, Copy, Debug, PartialEq, Eq)]
pub struct TransactionDigest(pub [u8; 32]);

impl TransactionDigest {
    /// Whether both hold the same bytes.
    pub fn equals(&self, other: &TransactionDigest) -> (same: bool)
        ensures
            same == (*self == *other),
    {
        same_bytes(&self.0, &other.0)
    }
}

/// The digest of an object's contents.
#[derive(Clone, Copy, Debug, PartialEq, Eq)]
pub struct ObjectDigest(pub [u8; 32]);

impl ObjectDigest {
    /// Whether both hold the same bytes.
    pub fn equals(&self, other: &ObjectDigest) -> (same: bool)
        ensures
            same == (*self == *other),
    {
        same_bytes(&self.0, &other.0)
    }
}

/// The digest of the events of a transaction.
#[derive(Clone, Copy, Debug, PartialEq, Eq)]
pub struct TransactionEventsDigest(pub [u8; 32]);

impl TransactionEventsDigest {
    /// Whether both hold the same bytes.
    pub fn equals(&self, other: &TransactionEventsDigest) -> (same: bool)
        ensures
            same == (*self == *other),
    {
        same_bytes(&self.0, &other.0)
    }
}

/// Whether all the bytes are zero.
pub open spec fn all_zero(bytes: [u8; 32]) -> bool {
    forall|i: int| 0 <= i < 32 ==> bytes[i] == 0
}

impl SuiAddress {
    /// The address whose bytes are all zero.
    pub fn zero() -> (address: SuiAddress)
        ensures
            all_zero(address.0),
    {
        SuiAddress([0u8; 32])
    }
}

impl ObjectID {
    /// The id with the bytes of an address.
    pub fn from_address(address: SuiAddress) -> (id: ObjectID)
        ensures
            id.0 == address.0,
    {
        ObjectID(address.0)
    }

    /// The id whose bytes are all zero.
    pub fn zero() -> (id: ObjectID)
        ensures
            all_zero(id.0),
    {
        ObjectID::from_address(SuiAddress::zero())
    }
}

/// An object at one version: its id, the version and the digest of its
/// contents.
pub type ObjectRef = (ObjectID, SequenceNumber, ObjectDigest);

/// Who owns an object.
#[derive(Clone, Copy, Debug, PartialEq, Eq)]
pub enum Owner {
    /// An account.
    AddressOwner(SuiAddress),
    /// Another object.
    ObjectOwner(SuiAddress),
    /// Nobody: the object is shared.
    Shared { initial_shared_version: SequenceNumber },
    /// Nobody: the object can no longer change.
    Immutable,
}

impl Owner {
    /// Whether both name the same owner.
    pub fn equals(&self, other: &Owner) -> (same: bool)
        ensures
            same == (*self == *other),
    {
        match (self, other) {
            (Owner::AddressOwner(a), Owner::AddressOwner(b)) => a.equals(b),
            (Owner::ObjectOwner(a), Owner::ObjectOwner(b)) => a.equals(b),
            (
                Owner::Shared { initial_shared_version: a },
                Owner::Shared { initial_shared_version: b },
            ) => a.0 == b.0,
            (Owner::Immutable, Owner::Immutable) => true,
            _ => false,
        }
    }
}

/// An object at one version, as the wire types name it.
#[derive(Clone, Copy, Debug, PartialEq, Eq)]
pub struct SuiObjectRef {
    /// Id of the object.
    pub object_id: ObjectID,
    /// Version of the object.
    pub version: SequenceNumber,
    /// Digest of the object's contents at that version.
    pub digest: ObjectDigest,
}

impl SuiObjectRef {
    /// The reference with the parts of `oref`.
    pub open spec fn from_ref_spec(oref: ObjectRef) -> SuiObjectRef {
        SuiObjectRef { object_id: oref.0, version: oref.1, digest: oref.2 }
    }

    /// The reference with the parts of `oref`.
    pub fn from_ref(oref: ObjectRef) -> (reference: SuiObjectRef)
        ensures
            reference == SuiObjectRef::from_ref_spec(oref),
    {
        SuiObjectRef { object_id: oref.0, version: oref.1, digest: oref.2 }
    }

    /// The parts of the reference.
    pub fn to_object_ref(&self) -> (oref: ObjectRef)
        ensures
            oref == (self.object_id, self.version, self.digest),
    {
        (self.object_id, self.version, self.digest)
    }

    /// Whether both name the same object at the same version with the same
    /// contents.
    pub fn equals(&self, other: &SuiObjectRef) -> (same: bool)
        ensures
            same == (*self == *other),
    {
        self.object_id.equals(&other.object_id) && self.version.0 == other.version.0
            && self.digest.equals(&other.digest)
    }
}

} // verus!
