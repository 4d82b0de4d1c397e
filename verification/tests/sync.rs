use context_store::error::StoreError;
use context_store::hashing::compute_db_hash;
use context_store::replica::SyncWorld;
use context_store::sync::{SyncState, SyncMeta};

const NOW: i64 = 1704067200;

fn world_with_local(db: &[u8]) -> SyncWorld {
    let mut w = SyncWorld::new();
    w.local_db = Some(db.to_vec());
    w
}

#[test]
fn push_creates_remote_and_meta() {
    let mut w = world_with_local(b"hello-world");

    let result = w.push(false, NOW, "alpha-machine").unwrap();
    assert_eq!(result.generation, 1);

    assert!(w.remote_db.is_some());
    assert!(w.remote_meta.is_some());

    let local_meta = w.local_meta.as_ref().unwrap();
    let remote_meta = w.remote_meta.as_ref().unwrap();
    assert_eq!(local_meta.generation, 1);
    assert_eq!(remote_meta.generation, 1);
    assert_eq!(local_meta.db_hash, remote_meta.db_hash);
    assert_eq!(
        local_meta.db_hash,
        "afa27b44d43b02a9fea41d13cedc2e4016cfcf87c5dbf990e593669aa8ce286d"
    );
    assert_eq!(local_meta.db_bytes, 11);
    assert_eq!(local_meta.schema_version, 1);
    assert_eq!(local_meta.machine, "alpha-machine");
}

#[test]
fn push_without_local_database_fails() {
    let mut w = SyncWorld::new();
    assert_eq!(w.push(false, NOW, "m").unwrap_err(), StoreError::NotFound);
    assert!(w.remote_db.is_none());
    assert!(w.local_meta.is_none());
}

#[test]
fn push_then_status_is_in_sync_and_second_push_increments_generation() {
    let mut w = world_with_local(b"alpha");

    w.push(false, NOW, "m").unwrap();
    assert_eq!(w.status().state, SyncState::InSync);
    let first_hash = w.local_meta.as_ref().unwrap().db_hash.clone();

    // Nothing changed locally: the second push needs no force, raises the
    // generation, and reproduces the identical hash.
    let second = w.push(false, NOW + 60, "m").unwrap();
    assert_eq!(second.generation, 2);
    assert_eq!(second.db_hash, first_hash);
    assert_eq!(w.status().state, SyncState::InSync);
}

#[test]
fn pull_requires_force_when_diverged() {
    let mut w = world_with_local(b"alpha");
    w.push(false, NOW, "m").unwrap();

    // Both sides mutate independently to the same generation with
    // different hashes: the diverged state.
    w.local_db = Some(b"local-change".to_vec());
    let mut local = w.local_meta.take().unwrap();
    local.generation = 2;
    local.db_hash = "local-hash".to_string();
    w.local_meta = Some(local);

    w.remote_db = Some(b"remote-change".to_vec());
    let mut remote = w.remote_meta.take().unwrap();
    remote.generation = 2;
    remote.db_hash = "remote-hash".to_string();
    w.remote_meta = Some(remote);

    let err = w.pull(false).expect_err("expected divergence");
    assert_eq!(err, StoreError::Divergence);
    assert!(err.message().contains("diverg"));
    assert!(err.message().contains("force"));
    assert_eq!(w.local_db.as_ref().unwrap().as_slice(), b"local-change");

    let result = w.pull(true).unwrap();
    assert_eq!(result.generation, 2);
    assert_eq!(w.local_db.as_ref().unwrap().as_slice(), b"remote-change");
    assert_eq!(w.local_meta.as_ref().unwrap().db_hash, "remote-hash");
    // The overwritten local store file was kept as the pre-pull copy.
    assert_eq!(w.local_pre_pull.as_ref().unwrap().as_slice(), b"local-change");
}

#[test]
fn push_requires_force_when_diverged() {
    let mut w = world_with_local(b"alpha");
    w.push(false, NOW, "m").unwrap();

    // The diverged state: equal generations, different hashes.
    let mut local = w.local_meta.take().unwrap();
    local.generation = 2;
    local.db_hash = "local-hash".to_string();
    w.local_meta = Some(local);
    let mut remote = w.remote_meta.take().unwrap();
    remote.generation = 2;
    remote.db_hash = "remote-hash".to_string();
    w.remote_meta = Some(remote);

    let err = w.push(false, NOW, "m").expect_err("expected divergence");
    assert_eq!(err, StoreError::Divergence);
    assert!(err.message().contains("force"));

    let result = w.push(true, NOW, "m").unwrap();
    // The forced push builds on the local generation.
    assert_eq!(result.generation, 3);
    assert_eq!(w.status().state, SyncState::InSync);
}

#[test]
fn clean_generation_ordering_needs_no_force() {
    // The remote is cleanly ahead (a later generation, another hash): a
    // pull proceeds without force.
    let mut w = world_with_local(b"alpha");
    w.push(false, NOW, "m").unwrap();
    w.remote_db = Some(b"remote-change".to_vec());
    let mut remote = w.remote_meta.take().unwrap();
    remote.generation = 2;
    remote.db_hash = "remote-hash".to_string();
    w.remote_meta = Some(remote);
    assert_eq!(w.status().state, SyncState::Behind);
    let result = w.pull(false).unwrap();
    assert_eq!(result.generation, 2);
    assert_eq!(w.local_db.as_ref().unwrap().as_slice(), b"remote-change");

    // The local side is cleanly ahead: a push proceeds without force.
    let mut w = world_with_local(b"alpha");
    w.push(false, NOW, "m").unwrap();
    let mut local = w.local_meta.take().unwrap();
    local.generation = 3;
    local.db_hash = "local-new".to_string();
    w.local_meta = Some(local);
    assert_eq!(w.status().state, SyncState::Ahead);
    let result = w.push(false, NOW, "m").unwrap();
    assert_eq!(result.generation, 4);
    assert_eq!(w.status().state, SyncState::InSync);
}

#[test]
fn status_reports_ahead_and_behind() {
    let mut w = world_with_local(b"alpha");
    w.push(false, NOW, "m").unwrap();

    // The remote moves ahead: a later generation with another hash.
    w.remote_db = Some(b"beta".to_vec());
    let mut remote = w.remote_meta.take().unwrap();
    remote.generation = 2;
    remote.db_hash = "remote-new".to_string();
    w.remote_meta = Some(remote);

    assert_eq!(w.status().state, SyncState::Behind);

    // Now the local side overtakes it.
    let mut local = w.local_meta.take().unwrap();
    local.generation = 3;
    local.db_hash = "local-new".to_string();
    w.local_meta = Some(local);

    assert_eq!(w.status().state, SyncState::Ahead);
}

#[test]
fn status_without_metadata_is_unknown() {
    let w = SyncWorld::new();
    assert_eq!(w.status().state, SyncState::Unknown);

    let mut w = world_with_local(b"alpha");
    w.push(false, NOW, "m").unwrap();
    w.remote_meta = None;
    assert_eq!(w.status().state, SyncState::Unknown);
}

#[test]
fn equal_generation_different_hash_reports_diverged() {
    let mut w = world_with_local(b"alpha");
    w.push(false, NOW, "m").unwrap();
    let mut local = w.local_meta.take().unwrap();
    local.db_hash = "local-hash".to_string();
    w.local_meta = Some(local);
    assert_eq!(w.status().state, SyncState::Diverged);
}

#[test]
fn lock_contention_fails_second_attempt() {
    let mut w = world_with_local(b"alpha");
    // Another sync operation against the same local store holds the lock.
    w.lock_held = true;

    let err = w.push(false, NOW, "m").expect_err("expected contention");
    assert_eq!(err, StoreError::LockContention);
    assert!(err.message().contains("lock"));
    assert!(w.remote_db.is_none(), "failed push must not copy anything");

    let err = w.pull(false).expect_err("expected contention");
    assert_eq!(err, StoreError::LockContention);

    // Once the holder finishes, the next attempt goes through, and no lock
    // stays behind afterwards.
    w.lock_held = false;
    w.push(false, NOW, "m").unwrap();
    assert!(!w.lock_held);
}

#[test]
fn pull_from_never_pushed_remote_fails() {
    let mut w = world_with_local(b"alpha");
    assert_eq!(w.pull(false).unwrap_err(), StoreError::NotFound);

    // A remote store file without a sidecar is not a valid pull source
    // either.
    w.remote_db = Some(b"beta".to_vec());
    assert_eq!(w.pull(false).unwrap_err(), StoreError::NotFound);
}

#[test]
fn push_keeps_backup_of_local_store() {
    let mut w = world_with_local(b"alpha");
    w.push(false, NOW, "m").unwrap();
    assert_eq!(w.local_backup.as_ref().unwrap().as_slice(), b"alpha");
    assert_eq!(w.remote_db.as_ref().unwrap().as_slice(), b"alpha");
}

#[test]
fn compute_db_hash_is_sha256_hex() {
    assert_eq!(
        compute_db_hash(&b"hello-world".to_vec()),
        "afa27b44d43b02a9fea41d13cedc2e4016cfcf87c5dbf990e593669aa8ce286d"
    );
    assert_eq!(
        compute_db_hash(&Vec::new()),
        "e3b0c44298fc1c149afbf4c8996fb92427ae41e4649b934ca495991b7852b855"
    );
    assert_eq!(compute_db_hash(&vec![0x01, 0x02, 0x03, 0x0f, 0x10]).len(), 64);
}

#[test]
fn build_meta_fields_are_exact() {
    let meta = context_store::sync::build_meta(
        &None,
        "h".repeat(64),
        42,
        NOW,
        "machine-a".to_string(),
    );
    assert_eq!(meta.generation, 1);
    assert_eq!(meta.db_bytes, 42);
    assert_eq!(meta.last_synced_at, NOW);
    assert_eq!(meta.machine, "machine-a");
    assert_eq!(meta.schema_version, 1);
    assert!(meta.project.is_none());

    let next = context_store::sync::build_meta(
        &Some(meta),
        "i".repeat(64),
        43,
        NOW + 1,
        "machine-b".to_string(),
    );
    assert_eq!(next.generation, 2);
}

#[test]
fn sync_meta_clone_is_equal() {
    let meta = SyncMeta {
        generation: 7,
        db_hash: "abc".to_string(),
        db_bytes: 3,
        last_synced_at: NOW,
        machine: "m".to_string(),
        schema_version: 1,
        project: Some("p".to_string()),
    };
    let copy = meta.clone();
    assert_eq!(copy.generation, meta.generation);
    assert_eq!(copy.db_hash, meta.db_hash);
    assert_eq!(copy.project, meta.project);
}
