use geonft::status::{StatusMap, StatusRegression, SyncStatus};

fn key(name: &str) -> String {
    name.to_string()
}

#[test]
fn stages_are_ordered() {
    assert!(SyncStatus::Unsynced < SyncStatus::BlobSynced);
    assert!(SyncStatus::BlobSynced < SyncStatus::PlantSynced);
    assert!(SyncStatus::PlantSynced < SyncStatus::ClaimSynced);
    assert_eq!(SyncStatus::Unsynced.rank(), 0);
    assert_eq!(SyncStatus::BlobSynced.rank(), 1);
    assert_eq!(SyncStatus::PlantSynced.rank(), 2);
    assert_eq!(SyncStatus::ClaimSynced.rank(), 3);
    assert!(SyncStatus::BlobSynced.precedes(SyncStatus::ClaimSynced));
    assert!(!SyncStatus::BlobSynced.precedes(SyncStatus::BlobSynced));
    assert!(!SyncStatus::PlantSynced.precedes(SyncStatus::BlobSynced));
}

#[test]
fn unknown_key_is_unsynced() {
    let statuses = StatusMap::new();
    assert_eq!(statuses.get(&key("gtp1a")), SyncStatus::Unsynced);
    assert_eq!(statuses.len(), 0);
}

#[test]
fn recorded_status_is_read_back() {
    let mut statuses = StatusMap::new();
    assert_eq!(statuses.record_status(&key("gtp1a"), SyncStatus::BlobSynced), Ok(()));
    assert_eq!(statuses.record_status(&key("gtp1b"), SyncStatus::ClaimSynced), Ok(()));
    assert_eq!(statuses.get(&key("gtp1a")), SyncStatus::BlobSynced);
    assert_eq!(statuses.get(&key("gtp1b")), SyncStatus::ClaimSynced);
    assert_eq!(statuses.get(&key("gtp1c")), SyncStatus::Unsynced);
    assert_eq!(statuses.len(), 2);
}

#[test]
fn forward_write_replaces_the_stage() {
    let mut statuses = StatusMap::new();
    assert_eq!(statuses.record_status(&key("gtp1a"), SyncStatus::BlobSynced), Ok(()));
    assert_eq!(statuses.record_status(&key("gtp1a"), SyncStatus::PlantSynced), Ok(()));
    assert_eq!(statuses.get(&key("gtp1a")), SyncStatus::PlantSynced);
    assert_eq!(statuses.len(), 1);
}

#[test]
fn backward_write_is_refused() {
    let mut statuses = StatusMap::new();
    assert_eq!(statuses.record_status(&key("gtp1a"), SyncStatus::PlantSynced), Ok(()));
    assert_eq!(
        statuses.record_status(&key("gtp1a"), SyncStatus::BlobSynced),
        Err(StatusRegression {
            current: SyncStatus::PlantSynced,
            requested: SyncStatus::BlobSynced
        })
    );
    assert_eq!(statuses.get(&key("gtp1a")), SyncStatus::PlantSynced);
}

#[test]
fn repeated_write_is_refused() {
    let mut statuses = StatusMap::new();
    assert_eq!(statuses.record_status(&key("gtp1a"), SyncStatus::ClaimSynced), Ok(()));
    assert_eq!(
        statuses.record_status(&key("gtp1a"), SyncStatus::ClaimSynced),
        Err(StatusRegression {
            current: SyncStatus::ClaimSynced,
            requested: SyncStatus::ClaimSynced
        })
    );
    assert_eq!(statuses.len(), 1);
}

#[test]
fn unsynced_is_never_written() {
    let mut statuses = StatusMap::new();
    assert_eq!(
        statuses.record_status(&key("gtp1a"), SyncStatus::Unsynced),
        Err(StatusRegression { current: SyncStatus::Unsynced, requested: SyncStatus::Unsynced })
    );
    assert_eq!(statuses.len(), 0);
}
