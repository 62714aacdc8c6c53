use sui_indexer::errors::{IndexerError, WriteContext, WriteFailure};
use sui_indexer::partition::{PartitionManager, PartitionRegistry};
use sui_indexer::store::PgIndexerStore;

fn registry_with(tables: &[&str]) -> PartitionRegistry {
    let mut registry = PartitionRegistry::new();
    for table in tables {
        registry.add_partition(&table.to_string(), 0).unwrap();
    }
    registry
}

#[test]
fn advancing_the_same_epoch_twice_fails_the_second_time() {
    let mut store = PgIndexerStore::new(registry_with(&["objects", "transactions"]));
    assert_eq!(store.persist_epoch(1), Ok(2));
    let second = store.persist_epoch(1);
    assert_eq!(
        second,
        Err(IndexerError::WriteError {
            failure: WriteFailure::PartitionExists,
            context: WriteContext::Epoch { epoch: 1 },
        })
    );
    assert!(second.unwrap_err().is_write_error());
    for table in ["objects", "transactions"] {
        assert!(store.has_partition(&table.to_string(), 1));
        assert!(store.has_partition(&table.to_string(), 0));
        assert!(!store.has_partition(&table.to_string(), 2));
    }
    assert_eq!(
        store.partitioned_tables(),
        vec!["objects".to_string(), "transactions".to_string()]
    );
}

#[test]
fn manager_advances_every_table_it_discovered() {
    let mut manager = PartitionManager::new(registry_with(&["a", "b", "c"]));
    assert_eq!(manager.tables(), vec!["a".to_string(), "b".to_string(), "c".to_string()]);
    assert_eq!(manager.advance_epoch(7), Ok(3));
    assert!(manager.has_partition(&"a".to_string(), 7));
    assert!(manager.has_partition(&"b".to_string(), 7));
    assert!(manager.has_partition(&"c".to_string(), 7));
    assert!(!manager.has_partition(&"d".to_string(), 7));
    assert_eq!(
        manager.get_table_partitions(),
        vec![("a".to_string(), 7), ("b".to_string(), 7), ("c".to_string(), 7)]
    );
}

#[test]
fn advance_creates_nothing_when_one_table_has_the_partition() {
    let mut registry = registry_with(&["a", "b"]);
    registry.add_partition(&"b".to_string(), 4).unwrap();
    let mut manager = PartitionManager::new(registry);
    let result = manager.advance_epoch(4);
    assert_eq!(
        result,
        Err(IndexerError::WriteError {
            failure: WriteFailure::PartitionExists,
            context: WriteContext::Epoch { epoch: 4 },
        })
    );
    assert!(!manager.has_partition(&"a".to_string(), 4));
    assert!(manager.has_partition(&"b".to_string(), 4));
}

#[test]
fn epochs_may_be_created_out_of_order() {
    let mut manager = PartitionManager::new(registry_with(&["a"]));
    assert_eq!(manager.advance_epoch(5), Ok(1));
    assert_eq!(manager.advance_epoch(3), Ok(1));
    assert!(manager.advance_epoch(5).is_err());
    assert!(manager.advance_epoch(3).is_err());
    assert!(manager.advance_epoch(0).is_err());
    assert_eq!(manager.get_table_partitions(), vec![("a".to_string(), 5)]);
}

#[test]
fn epoch_without_successor_is_refused() {
    let mut manager = PartitionManager::new(registry_with(&["a"]));
    assert_eq!(
        manager.advance_epoch(u64::MAX),
        Err(IndexerError::WriteError {
            failure: WriteFailure::EpochOutOfRange,
            context: WriteContext::Epoch { epoch: u64::MAX },
        })
    );
    assert!(!manager.has_partition(&"a".to_string(), u64::MAX));
    assert_eq!(manager.advance_epoch(u64::MAX - 1), Ok(1));
}

#[test]
fn without_partitioned_tables_advancing_does_nothing() {
    let mut manager = PartitionManager::new(PartitionRegistry::new());
    assert_eq!(manager.tables(), Vec::<String>::new());
    assert_eq!(manager.advance_epoch(1), Ok(0));
    assert_eq!(manager.advance_epoch(1), Ok(0));
    assert_eq!(manager.get_table_partitions(), Vec::<(String, u64)>::new());
}

#[test]
fn registry_tracks_partitions_per_table() {
    let mut registry = PartitionRegistry::new();
    let objects = "objects".to_string();
    assert_eq!(registry.last_partition(&objects), None);
    assert!(!registry.has_partition(&objects, 0));
    assert_eq!(registry.add_partition(&objects, 2), Ok(()));
    assert_eq!(registry.add_partition(&objects, 9), Ok(()));
    assert_eq!(registry.add_partition(&objects, 4), Ok(()));
    assert_eq!(registry.add_partition(&objects, 9), Err(WriteFailure::PartitionExists));
    assert_eq!(registry.add_partition(&objects, u64::MAX), Err(WriteFailure::EpochOutOfRange));
    assert_eq!(registry.last_partition(&objects), Some(9));
    assert!(registry.has_partition(&objects, 4));
    assert!(!registry.has_partition(&objects, 3));
    assert!(!registry.has_partition(&"events".to_string(), 4));
    assert_eq!(registry.last_partition(&"events".to_string()), None);
}

#[test]
fn partitions_are_independent_of_checkpoint_writes() {
    let mut store = PgIndexerStore::new(registry_with(&["objects"]));
    assert_eq!(store.persist_epoch(1), Ok(1));
    assert_eq!(store.get_latest_checkpoint_sequence_number(), -1);
    assert_eq!(store.table_sizes().checkpoints, 0);
}
