//! Sync metadata and the pure decisions of the synchronization protocol:
//! how two replicas' metadata compare, when a push or pull is allowed
//! through without `force`, and what the next metadata looks like.

use vstd::prelude::*;

use crate::doc::{opt_view, str_eq};

verus! {

/// Where one sync setup lives: the local store file, its metadata
/// sidecar, and the remote directory. Paths are plain strings; the
/// surrounding process resolves them against its filesystem.
#[derive(Clone, Debug)]
pub struct SyncConfig {
    pub local_db: String,
    pub local_meta: String,
    pub remote: String,
}

/// The metadata sidecar describing one replica of the store: a generation
/// counter, the content hash and size of the store file, and provenance.
#[derive(Debug)]
pub struct SyncMeta {
    pub generation: u64,
    pub db_hash: String,
    pub db_bytes: u64,
    pub last_synced_at: i64,
    pub machine: String,
    pub schema_version: u32,
    pub project: Option<String>,
}

/// The mathematical value of a metadata sidecar.
#[verifier::ext_equal]
pub ghost struct SyncMetaV {
    pub generation: int,
    pub db_hash: Seq<char>,
    pub db_bytes: int,
    pub last_synced_at: int,
    pub machine: Seq<char>,
    pub schema_version: int,
    pub project: Option<Seq<char>>,
}

impl View for SyncMeta {
    type V = SyncMetaV;

    open spec fn view(&self) -> SyncMetaV {
        SyncMetaV {
            generation: self.generation as int,
            db_hash: self.db_hash@,
            db_bytes: self.db_bytes as int,
            last_synced_at: self.last_synced_at as int,
            machine: self.machine@,
            schema_version: self.schema_version as int,
            project: opt_view(self.project),
        }
    }
}

impl Clone for SyncMeta {
    /// A clone carries the same mathematical value.
    fn clone(&self) -> (r: Self)
        ensures
            r@ == self@,
    {
        SyncMeta {
            generation: self.generation,
            db_hash: self.db_hash.clone(),
            db_bytes: self.db_bytes,
            last_synced_at: self.last_synced_at,
            machine: self.machine.clone(),
            schema_version: self.schema_version,
            project: match &self.project {
                Some(p) => Some(p.clone()),
                None => None,
            },
        }
    }
}

/// The view of an optional metadata sidecar.
pub open spec fn opt_meta_view(m: Option<SyncMeta>) -> Option<SyncMetaV> {
    match m {
        Some(m) => Some(m@),
        None => None,
    }
}

/// How the local replica stands relative to the remote one.
#[derive(Clone, Copy, Debug, PartialEq, Eq, Structural)]
pub enum SyncState {
    InSync,
    Ahead,
    Behind,
    Diverged,
    Unknown,
}

/// A status report: the derived state and both metadata sidecars.
#[derive(Debug)]
pub struct SyncStatus {
    pub state: SyncState,
    pub local: Option<SyncMeta>,
    pub remote: Option<SyncMeta>,
}

/// What a successful push or pull reports: the new generation, and the
/// hash and size of the store file it left in place.
#[derive(Debug)]
pub struct SyncResult {
    pub generation: u64,
    pub db_hash: String,
    pub db_bytes: u64,
}

/// The comparison rule: equal hashes are in sync; otherwise the higher
/// generation is ahead; equal generations with different hashes have
/// diverged; a missing sidecar on either side is unknown.
pub open spec fn status_of(local: Option<SyncMetaV>, remote: Option<SyncMetaV>) -> SyncState {
    match (local, remote) {
        (Some(l), Some(r)) => if l.db_hash == r.db_hash {
            SyncState::InSync
        } else if l.generation > r.generation {
            SyncState::Ahead
        } else if l.generation < r.generation {
            SyncState::Behind
        } else {
            SyncState::Diverged
        },
        _ => SyncState::Unknown,
    }
}

/// Two sidecars have diverged when their generations are equal but their
/// hashes differ: each side was mutated independently, and neither is a
/// clean ancestor of the other. Equal hashes are in sync, and a clean
/// generation ordering (one side strictly ahead) needs no force.
pub open spec fn diverged(l: SyncMetaV, r: SyncMetaV) -> bool {
    l.generation == r.generation && l.db_hash != r.db_hash
}

/// Derives the sync state from the two sidecars.
pub fn compute_status(local: &Option<SyncMeta>, remote: &Option<SyncMeta>) -> (r: SyncState)
    ensures
        r == status_of(opt_meta_view(*local), opt_meta_view(*remote)),
{
    match (local, remote) {
        (Some(l), Some(rm)) => {
            if str_eq(l.db_hash.as_str(), rm.db_hash.as_str()) {
                SyncState::InSync
            } else if l.generation > rm.generation {
                SyncState::Ahead
            } else if l.generation < rm.generation {
                SyncState::Behind
            } else {
                SyncState::Diverged
            }
        },
        _ => SyncState::Unknown,
    }
}

/// Whether the two sidecars have diverged: equal generations, different
/// hashes.
pub fn check_diverged(l: &SyncMeta, r: &SyncMeta) -> (res: bool)
    ensures
        res == diverged(l@, r@),
{
    l.generation == r.generation && !str_eq(l.db_hash.as_str(), r.db_hash.as_str())
}

/// The generation a new push writes: one past the previous sidecar's, or 1
/// for the first push ever.
pub open spec fn next_generation(existing: Option<SyncMetaV>) -> int {
    match existing {
        Some(m) => m.generation + 1,
        None => 1,
    }
}

/// The sidecar a push at `now` writes to both sides.
pub open spec fn built_meta(
    existing: Option<SyncMetaV>,
    db_hash: Seq<char>,
    db_bytes: int,
    now: int,
    machine: Seq<char>,
) -> SyncMetaV {
    SyncMetaV {
        generation: next_generation(existing),
        db_hash: db_hash,
        db_bytes: db_bytes,
        last_synced_at: now,
        machine: machine,
        schema_version: 1,
        project: None,
    }
}

/// Builds the metadata a push persists: the next generation, the given
/// hash and size, the current time and origin machine, schema version 1.
pub fn build_meta(
    existing: &Option<SyncMeta>,
    db_hash: String,
    db_bytes: u64,
    now: i64,
    machine: String,
) -> (r: SyncMeta)
    requires
        existing matches Some(m) ==> m.generation < u64::MAX,
    ensures
        r@ == built_meta(opt_meta_view(*existing), db_hash@, db_bytes as int, now as int, machine@),
{
    let generation: u64 = match existing {
        Some(m) => m.generation + 1,
        None => 1,
    };
    SyncMeta {
        generation,
        db_hash,
        db_bytes,
        last_synced_at: now,
        machine,
        schema_version: 1,
        project: None,
    }
}

} // verus!
