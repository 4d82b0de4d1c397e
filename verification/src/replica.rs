//! The synchronization engine over a pair of replicas: the local store
//! file with its metadata sidecar and safety copies, the remote store file
//! with its sidecar, and the advisory lock that serializes push and pull
//! against one local store.
//!
//! Every decision of the protocol — the lock gate, the existence checks,
//! the divergence gate, and the state each operation leaves behind — is a
//! function of this state. The surrounding process performs the same steps
//! against the filesystem.

use vstd::prelude::*;

use crate::error::StoreError;
use crate::hashing::{compute_db_hash, hex_of, sha256_of};
use crate::sync::{
    built_meta, check_diverged, compute_status, diverged, next_generation, opt_meta_view,
    status_of, SyncMeta, SyncMetaV, SyncResult, SyncState, SyncStatus,
};

verus! {

/// The synchronization world: both replicas, the safety copies a push or
/// pull leaves behind, and the advisory lock on the local store.
#[derive(Debug)]
pub struct SyncWorld {
    /// The local store file, when it exists.
    pub local_db: Option<Vec<u8>>,
    /// The local metadata sidecar, when it exists.
    pub local_meta: Option<SyncMeta>,
    /// The safety copy a push writes beside the local store file.
    pub local_backup: Option<Vec<u8>>,
    /// The safety copy a pull writes before overwriting the local store.
    pub local_pre_pull: Option<Vec<u8>>,
    /// The remote store file, when it exists.
    pub remote_db: Option<Vec<u8>>,
    /// The remote metadata sidecar, when it exists.
    pub remote_meta: Option<SyncMeta>,
    /// Whether some sync operation currently holds the local lock.
    pub lock_held: bool,
}

/// The mathematical value of the synchronization world.
#[verifier::ext_equal]
pub ghost struct SyncWorldV {
    pub local_db: Option<Seq<u8>>,
    pub local_meta: Option<SyncMetaV>,
    pub local_backup: Option<Seq<u8>>,
    pub local_pre_pull: Option<Seq<u8>>,
    pub remote_db: Option<Seq<u8>>,
    pub remote_meta: Option<SyncMetaV>,
    pub lock_held: bool,
}

pub open spec fn opt_bytes_view(b: Option<Vec<u8>>) -> Option<Seq<u8>> {
    match b {
        Some(v) => Some(v@),
        None => None,
    }
}

impl View for SyncWorld {
    type V = SyncWorldV;

    open spec fn view(&self) -> SyncWorldV {
        SyncWorldV {
            local_db: opt_bytes_view(self.local_db),
            local_meta: opt_meta_view(self.local_meta),
            local_backup: opt_bytes_view(self.local_backup),
            local_pre_pull: opt_bytes_view(self.local_pre_pull),
            remote_db: opt_bytes_view(self.remote_db),
            remote_meta: opt_meta_view(self.remote_meta),
            lock_held: self.lock_held,
        }
    }
}

impl SyncWorldV {
    /// The derived sync state of the two sidecars.
    pub open spec fn status(self) -> SyncState {
        status_of(self.local_meta, self.remote_meta)
    }

    /// Why a push is refused, when it is: the lock is taken, the local
    /// store file is missing, or both sidecars exist with equal
    /// generations but different hashes — the replicas have diverged — and
    /// `force` was not given. A clean generation ordering needs no force.
    pub open spec fn push_refusal(self, force: bool) -> Option<StoreError> {
        if self.lock_held {
            Some(StoreError::LockContention)
        } else if self.local_db is None {
            Some(StoreError::NotFound)
        } else if !force && (self.local_meta matches Some(l) && self.remote_meta matches Some(r)
            && diverged(l, r)) {
            Some(StoreError::Divergence)
        } else {
            None
        }
    }

    /// The sidecar a push at `now` from `machine` writes to both sides.
    pub open spec fn push_meta(self, now: int, machine: Seq<char>) -> SyncMetaV {
        built_meta(
            self.local_meta,
            hex_of(sha256_of(self.local_db->0)),
            self.local_db->0.len() as int,
            now,
            machine,
        )
    }

    /// The world a successful push leaves: the local store file copied to
    /// the backup and to the remote side, the freshly built sidecar
    /// written to both sides, and the lock released.
    pub open spec fn push_state(self, now: int, machine: Seq<char>) -> SyncWorldV {
        SyncWorldV {
            local_backup: Some(self.local_db->0),
            remote_db: Some(self.local_db->0),
            local_meta: Some(self.push_meta(now, machine)),
            remote_meta: Some(self.push_meta(now, machine)),
            lock_held: false,
            ..self
        }
    }

    /// Why a pull is refused, when it is: the lock is taken, the remote
    /// store file or its sidecar is missing, or the local sidecar exists
    /// with the remote's generation but a different hash — the replicas
    /// have diverged — and `force` was not given. A clean generation
    /// ordering needs no force.
    pub open spec fn pull_refusal(self, force: bool) -> Option<StoreError> {
        if self.lock_held {
            Some(StoreError::LockContention)
        } else if self.remote_db is None {
            Some(StoreError::NotFound)
        } else if self.remote_meta is None {
            Some(StoreError::NotFound)
        } else if !force && (self.local_meta matches Some(l) && diverged(
            l,
            self.remote_meta->0,
        )) {
            Some(StoreError::Divergence)
        } else {
            None
        }
    }

    /// The world a successful pull leaves: the previous local store file
    /// kept as the pre-pull copy, the remote store file and sidecar
    /// adopted verbatim, and the lock released.
    pub open spec fn pull_state(self) -> SyncWorldV {
        SyncWorldV {
            local_pre_pull: if self.local_db is Some {
                Some(self.local_db->0)
            } else {
                self.local_pre_pull
            },
            local_db: Some(self.remote_db->0),
            local_meta: Some(self.remote_meta->0),
            lock_held: false,
            ..self
        }
    }
}

fn clone_bytes(b: &Vec<u8>) -> (r: Vec<u8>)
    ensures
        r@ == b@,
{
    let r = b.clone();
    proof {
        assert forall|i: int| 0 <= i < b@.len() implies r@[i] == b@[i] by {
            assert(cloned::<u8>(b@[i], r@[i]));
        }
        assert(r@ =~= b@);
    }
    r
}

fn clone_opt_meta(m: &Option<SyncMeta>) -> (r: Option<SyncMeta>)
    ensures
        opt_meta_view(r) == opt_meta_view(*m),
{
    match m {
        Some(m) => Some(m.clone()),
        None => None,
    }
}

impl SyncWorld {
    /// A fresh pair of replicas: no store files, no sidecars, no lock.
    pub fn new() -> (r: SyncWorld)
        ensures
            r@.local_db is None,
            r@.local_meta is None,
            r@.local_backup is None,
            r@.local_pre_pull is None,
            r@.remote_db is None,
            r@.remote_meta is None,
            !r@.lock_held,
    {
        SyncWorld {
            local_db: None,
            local_meta: None,
            local_backup: None,
            local_pre_pull: None,
            remote_db: None,
            remote_meta: None,
            lock_held: false,
        }
    }

    /// Reports how local and remote stand to each other. Reads both
    /// sidecars, takes no lock, and changes nothing.
    pub fn status(&self) -> (r: SyncStatus)
        ensures
            r.state == self@.status(),
            opt_meta_view(r.local) == self@.local_meta,
            opt_meta_view(r.remote) == self@.remote_meta,
    {
        let state = compute_status(&self.local_meta, &self.remote_meta);
        SyncStatus {
            state,
            local: clone_opt_meta(&self.local_meta),
            remote: clone_opt_meta(&self.remote_meta),
        }
    }

    /// Pushes the local store file to the remote side.
    ///
    /// Refuses immediately when the lock is contended, when the local
    /// store file is missing, or — without `force` — when both sidecars
    /// exist with equal generations but differing hashes; a refused push
    /// changes nothing but never clears a lock another operation holds.
    /// Otherwise it copies the local store file to its backup and to the
    /// remote side, writes one freshly built sidecar to both sides, and
    /// releases the lock.
    pub fn push(&mut self, force: bool, now: i64, machine: &str) -> (r: Result<
        SyncResult,
        StoreError,
    >)
        requires
            old(self)@.push_refusal(force) is None ==> (old(self)@.local_meta matches Some(m)
                ==> m.generation < u64::MAX),
        ensures
            match old(self)@.push_refusal(force) {
                Some(e) => r == Err::<SyncResult, StoreError>(e) && final(self)@ == old(self)@,
                None => {
                    &&& final(self)@ == old(self)@.push_state(now as int, machine@)
                    &&& r matches Ok(res) && res.generation == next_generation(old(self)@.local_meta)
                        && res.db_hash@ == hex_of(sha256_of(old(self)@.local_db->0))
                        && res.db_bytes == old(self)@.local_db->0.len()
                },
            },
    {
        let ghost pre = self@;
        if self.lock_held {
            return Err(StoreError::LockContention);
        }
        self.lock_held = true;
        let db = match &self.local_db {
            Some(db) => db,
            None => {
                self.lock_held = false;
                proof {
                    assert(self@ =~= pre);
                }
                return Err(StoreError::NotFound);
            },
        };
        if !force {
            if let (Some(l), Some(rm)) = (&self.local_meta, &self.remote_meta) {
                if check_diverged(l, rm) {
                    self.lock_held = false;
                    proof {
                        assert(self@ =~= pre);
                    }
                    return Err(StoreError::Divergence);
                }
            }
        }
        proof {
            assert(pre.push_refusal(force) is None);
        }
        let backup = clone_bytes(db);
        let remote_copy = clone_bytes(db);
        let hash = compute_db_hash(db);
        let db_bytes = db.len() as u64;
        let meta = crate::sync::build_meta(
            &self.local_meta,
            hash,
            db_bytes,
            now,
            machine.to_owned(),
        );
        let result = SyncResult {
            generation: meta.generation,
            db_hash: meta.db_hash.clone(),
            db_bytes: meta.db_bytes,
        };
        let meta_remote = meta.clone();
        self.local_backup = Some(backup);
        self.remote_db = Some(remote_copy);
        self.local_meta = Some(meta);
        self.remote_meta = Some(meta_remote);
        self.lock_held = false;
        proof {
            assert(self@.local_meta->0 =~= pre.push_meta(now as int, machine@));
            assert(self@.remote_meta->0 =~= pre.push_meta(now as int, machine@));
            assert(self@ =~= pre.push_state(now as int, machine@));
        }
        Ok(result)
    }

    /// Pulls the remote store file into the local side.
    ///
    /// Refuses immediately when the lock is contended, when the remote
    /// store file is missing, when the remote has never been pushed (no
    /// sidecar), or — without `force` — when the local sidecar exists
    /// with the remote's generation but a different hash; a
    /// refused pull changes nothing but never clears a lock another
    /// operation holds. Otherwise it keeps the previous local store file
    /// as the pre-pull copy, adopts the remote store file and its sidecar
    /// verbatim, and releases the lock.
    pub fn pull(&mut self, force: bool) -> (r: Result<SyncResult, StoreError>)
        ensures
            match old(self)@.pull_refusal(force) {
                Some(e) => r == Err::<SyncResult, StoreError>(e) && final(self)@ == old(self)@,
                None => {
                    &&& final(self)@ == old(self)@.pull_state()
                    &&& r matches Ok(res) && res.generation == old(self)@.remote_meta->0.generation
                        && res.db_hash@ == old(self)@.remote_meta->0.db_hash && res.db_bytes
                        == old(self)@.remote_meta->0.db_bytes
                },
            },
    {
        let ghost pre = self@;
        if self.lock_held {
            return Err(StoreError::LockContention);
        }
        self.lock_held = true;
        let remote_db = match &self.remote_db {
            Some(db) => db,
            None => {
                self.lock_held = false;
                proof {
                    assert(self@ =~= pre);
                }
                return Err(StoreError::NotFound);
            },
        };
        let remote_meta = match &self.remote_meta {
            Some(m) => m,
            None => {
                self.lock_held = false;
                proof {
                    assert(self@ =~= pre);
                }
                return Err(StoreError::NotFound);
            },
        };
        if !force {
            if let Some(l) = &self.local_meta {
                if check_diverged(l, remote_meta) {
                    self.lock_held = false;
                    proof {
                        assert(self@ =~= pre);
                    }
                    return Err(StoreError::Divergence);
                }
            }
        }
        let adopted_db = clone_bytes(remote_db);
        let adopted_meta = remote_meta.clone();
        let result = SyncResult {
            generation: adopted_meta.generation,
            db_hash: adopted_meta.db_hash.clone(),
            db_bytes: adopted_meta.db_bytes,
        };
        match &self.local_db {
            Some(db) => {
                self.local_pre_pull = Some(clone_bytes(db));
            },
            None => {},
        }
        self.local_db = Some(adopted_db);
        self.local_meta = Some(adopted_meta);
        self.lock_held = false;
        proof {
            assert(self@.local_meta =~= Some(pre.remote_meta->0));
            assert(self@ =~= pre.pull_state());
        }
        Ok(result)
    }
}

/// Sync idempotence, first half: a successful push leaves the two
/// replicas in sync — both sides hold the same freshly written sidecar.
pub proof fn lemma_push_reaches_in_sync(w: SyncWorldV, force: bool, now: int, machine: Seq<char>)
    requires
        w.push_refusal(force) is None,
    ensures
        w.push_state(now, machine).status() == SyncState::InSync,
{
}

/// Sync idempotence, second half: a second push with an unchanged local
/// store file needs no force, raises the generation by exactly one, writes
/// the identical hash again, and the replicas report in sync throughout.
pub proof fn lemma_push_idempotent(
    w: SyncWorldV,
    force: bool,
    now1: int,
    now2: int,
    machine1: Seq<char>,
    machine2: Seq<char>,
)
    requires
        w.push_refusal(force) is None,
    ensures
        w.push_state(now1, machine1).push_refusal(false) is None,
        w.push_state(now1, machine1).push_meta(now2, machine2).generation == w.push_meta(
            now1,
            machine1,
        ).generation + 1,
        w.push_state(now1, machine1).push_meta(now2, machine2).db_hash == w.push_meta(
            now1,
            machine1,
        ).db_hash,
        w.push_state(now1, machine1).push_state(now2, machine2).status() == SyncState::InSync,
{
    let w2 = w.push_state(now1, machine1);
    assert(w2.local_db == w.local_db);
    assert(w2.local_meta == w2.remote_meta);
    assert(!diverged(w2.local_meta->0, w2.remote_meta->0));
}


/// A successful pull, like a successful push, converges the pair: the
/// adopted sidecar equals the remote one, so the replicas report in sync.
pub proof fn lemma_pull_reaches_in_sync(w: SyncWorldV, force: bool)
    requires
        w.pull_refusal(force) is None,
    ensures
        w.pull_state().status() == SyncState::InSync,
{
}

/// Divergence gate: replicas whose sidecars carry equal generations but
/// different hashes were mutated independently. The status reports
/// exactly that; a pull without force fails with the divergence error —
/// whose message names the force remedy — and changes nothing; the same
/// pull with force succeeds, adopts the remote store file and sidecar,
/// and lands the pair in sync, the local hash now equal to the remote's.
pub proof fn lemma_pull_divergence_gate(w: SyncWorldV)
    requires
        !w.lock_held,
        w.remote_db is Some,
        w.remote_meta is Some,
        w.local_meta is Some,
        w.local_meta->0.generation == w.remote_meta->0.generation,
        w.local_meta->0.db_hash != w.remote_meta->0.db_hash,
    ensures
        w.status() == SyncState::Diverged,
        w.pull_refusal(false) == Some(StoreError::Divergence),
        w.pull_refusal(true) is None,
        w.pull_state().local_db == Some(w.remote_db->0),
        w.pull_state().local_meta == Some(w.remote_meta->0),
        hex_of(sha256_of(w.pull_state().local_db->0)) == hex_of(sha256_of(w.remote_db->0)),
        w.pull_state().status() == SyncState::InSync,
{
}

/// The same gate guards a push: equal generations with differing hashes
/// refuse a push without force, while force pushes through.
pub proof fn lemma_push_divergence_gate(w: SyncWorldV)
    requires
        !w.lock_held,
        w.local_db is Some,
        w.local_meta is Some,
        w.remote_meta is Some,
        w.local_meta->0.generation == w.remote_meta->0.generation,
        w.local_meta->0.db_hash != w.remote_meta->0.db_hash,
    ensures
        w.push_refusal(false) == Some(StoreError::Divergence),
        w.push_refusal(true) is None,
{
}

/// A clean generation ordering — one side strictly ahead of the other —
/// proceeds without force, whatever the hashes: only the diverged state
/// requires it.
pub proof fn lemma_clean_ordering_needs_no_force(w: SyncWorldV)
    requires
        !w.lock_held,
        w.local_db is Some,
        w.remote_db is Some,
        w.local_meta is Some,
        w.remote_meta is Some,
        w.local_meta->0.generation != w.remote_meta->0.generation,
    ensures
        w.push_refusal(false) is None,
        w.pull_refusal(false) is None,
{
}

/// Lock exclusion: of two interleaved sync attempts against one local
/// store, the one that finds the lock taken fails with the contention
/// error — whose message names the lock — and changes nothing at all; and
/// no completed operation, successful or not, leaves its own lock behind.
pub proof fn lemma_lock_exclusion(w: SyncWorldV, force: bool, now: int, machine: Seq<char>)
    ensures
        w.lock_held ==> w.push_refusal(force) == Some(StoreError::LockContention)
            && w.pull_refusal(force) == Some(StoreError::LockContention),
        w.push_refusal(force) is None ==> !w.push_state(now, machine).lock_held,
        w.pull_refusal(force) is None ==> !w.pull_state().lock_held,
{
}

} // verus!
