//! Collections as the ledger's own framework lays them out.

use crate::base_types::{all_zero, ObjectID};
use vstd::prelude::*;

verus! {

/// A map kept as a list of entries.
#[derive(Debug, Clone, Eq, PartialEq)]
pub struct VecMap<K, V> {
    pub contents: Vec<Entry<K, V>>,
}

/// One entry of a [`VecMap`].
#[derive(Debug, Clone, Eq, PartialEq)]
pub struct Entry<K, V> {
    pub key: K,
    pub value: V,
}

/// A set kept as a list of its elements.
#[derive(Debug, Clone, Eq, PartialEq)]
pub struct VecSet<T> {
    pub contents: Vec<T>,
}

/// A vector kept in a table.
#[derive(Debug, Clone, Eq, PartialEq)]
pub struct TableVec {
    pub contents: Table,
}

impl Default for TableVec {
    /// An empty vector in the table with the zero id.
    fn default() -> (table: Self)
        ensures
            all_zero(table.contents.id.0),
            table.contents.size == 0,
    {
        TableVec { contents: Table { id: ObjectID::zero(), size: 0 } }
    }
}

/// A table: its id and the number of its entries.
#[derive(Debug, Clone, Eq, PartialEq)]
pub struct Table {
    pub id: ObjectID,
    pub size: u64,
}

impl Default for Table {
    /// The empty table with the zero id.
    fn default() -> (table: Self)
        ensures
            all_zero(table.id.0),
            table.size == 0,
    {
        Table { id: ObjectID::zero(), size: 0 }
    }
}

/// A table whose entries are linked from head to tail.
#[derive(Debug, Clone, Eq, PartialEq)]
pub struct LinkedTable<K> {
    pub id: ObjectID,
    pub size: u64,
    pub head: Option<K>,
    pub tail: Option<K>,
}

impl<K> Default for LinkedTable<K> {
    /// The empty linked table with the zero id.
    fn default() -> (table: Self)
        ensures
            all_zero(table.id.0),
            table.size == 0,
            table.head is None,
            table.tail is None,
    {
        LinkedTable { id: ObjectID::zero(), size: 0, head: None, tail: None }
    }
}

} // verus!
