//! The registry index backends, reached through a small trusted surface over
//! the `tame_index` crate: a git clone of the index, a read-only local sparse
//! cache, or a remote sparse index queried over HTTP.

use vstd::prelude::*;

use crate::cache::{CacheEntry, EntrySpec, VersionYankMap, entry_spec, pairs_map};
use crate::package::name_views;
use crate::error::{IndexError, ErrorKind};

verus! {

#[verifier::external_type_specification]
#[verifier::external_body]
pub struct ExGitIndex(tame_index::index::GitIndex);

#[verifier::external_type_specification]
#[verifier::external_body]
pub struct ExSparseIndex(tame_index::index::SparseIndex);

#[verifier::external_type_specification]
#[verifier::external_body]
pub struct ExRemoteGitIndex(tame_index::index::RemoteGitIndex);

#[verifier::external_type_specification]
#[verifier::external_body]
pub struct ExAsyncRemoteSparseIndex(tame_index::index::AsyncRemoteSparseIndex);

#[verifier::external_type_specification]
#[verifier::external_body]
pub struct ExComboIndexCache(tame_index::index::ComboIndexCache);

#[verifier::external_type_specification]
#[verifier::external_body]
pub struct ExIndexKrate(tame_index::IndexKrate);

#[verifier::external_type_specification]
#[verifier::external_body]
pub struct ExTameError(tame_index::Error);

#[verifier::external_type_specification]
#[verifier::external_body]
pub struct ExFileLock(tame_index::index::FileLock);

#[verifier::external_type_specification]
#[verifier::external_body]
pub struct ExLockOptions<'pb>(tame_index::utils::flock::LockOptions<'pb>);

#[verifier::external_type_specification]
#[verifier::external_body]
pub struct ExClientBuilder(tame_index::external::reqwest::ClientBuilder);

#[verifier::external_type_specification]
#[verifier::external_body]
pub struct ExClient(tame_index::external::reqwest::Client);

/// The version/yank mapping a crate's index metadata holds: each version's
/// string form paired with its yanked flag, a later duplicate winning. A
/// function of the metadata value alone.
pub uninterp spec fn krate_yanked(ik: tame_index::IndexKrate) -> Map<Seq<char>, bool>;

/// Relies on `IndexKrate::versions`: the crate's versions in index order,
/// each with its `version` string and `is_yanked` flag.
#[verifier::external_body]
pub(crate) fn krate_versions(ik: tame_index::IndexKrate) -> (r: Vec<(String, bool)>)
    ensures
        pairs_map(r@) == krate_yanked(ik),
{
    ik.versions.into_iter().map(|v| (v.version.to_string(), v.is_yanked())).collect()
}

/// Relies on `tame_index::Error`: its `Lock` variant with a timed-out or
/// contested source means the filesystem lock could not be acquired; every
/// other variant is a registry/transport/repository failure. The message is
/// the error's display form.
#[verifier::external_body]
pub(crate) fn error_from_tame(e: tame_index::Error) -> (r: IndexError)
    ensures
        r@.kind == ErrorKind::LockTimeout || r@.kind == ErrorKind::Registry,
{
    let kind = match &e {
        tame_index::Error::Lock(fle) => match &fle.source {
            tame_index::utils::flock::LockError::TimedOut
            | tame_index::utils::flock::LockError::Contested => ErrorKind::LockTimeout,
            _ => ErrorKind::Registry,
        },
        _ => ErrorKind::Registry,
    };
    IndexError::new(kind, format!("{e}"))
}

/// Relies on `LockOptions::cargo_package_lock`: lock options for cargo's
/// global package lock, rooted at the default cargo home.
#[verifier::external_body]
pub(crate) fn package_lock_options() -> (r: Result<
    tame_index::utils::flock::LockOptions<'static>,
    tame_index::Error,
>) {
    tame_index::utils::flock::LockOptions::cargo_package_lock(None)
}

/// Relies on `LockOptions::try_lock`: attempts the lock once and fails
/// immediately, without blocking, when it is already held elsewhere.
#[verifier::external_body]
pub(crate) fn lock_immediately(opts: &tame_index::utils::flock::LockOptions<'_>) -> (r: Result<
    tame_index::index::FileLock,
    tame_index::Error,
>) {
    opts.try_lock()
}

/// Relies on `LockOptions::lock`: waits for the lock, giving up once the
/// wait it is told exceeds the given number of milliseconds.
#[verifier::external_body]
pub(crate) fn lock_with_wait(opts: &tame_index::utils::flock::LockOptions<'_>, timeout_ms: u64) -> (r: Result<
    tame_index::index::FileLock,
    tame_index::Error,
>) {
    opts.lock(|_path| Some(std::time::Duration::from_millis(timeout_ms)))
}

/// Relies on `ComboIndexCache::new` with the crates.io index location
/// discovered from the local environment.
#[verifier::external_body]
pub(crate) fn open_combo_index() -> (r: Result<tame_index::index::ComboIndexCache, tame_index::Error>) {
    tame_index::index::ComboIndexCache::new(tame_index::IndexLocation::new(
        tame_index::IndexUrl::crates_io(None, None, None)?,
    ))
}

/// The discovered kind of the local index cache.
pub enum ComboKind {
    /// A git clone of the registry index.
    Git(tame_index::index::GitIndex),
    /// A sparse HTTP index with a local cache.
    Sparse(tame_index::index::SparseIndex),
    /// Any other (unsupported) kind of registry location.
    Other,
}

/// Relies on the `ComboIndexCache` enum: tells its variants apart, moving
/// the git and sparse indices out and folding anything else into `Other`.
#[verifier::external_body]
pub(crate) fn classify_combo(c: tame_index::index::ComboIndexCache) -> (r: ComboKind) {
    match c {
        tame_index::index::ComboIndexCache::Git(gi) => ComboKind::Git(gi),
        tame_index::index::ComboIndexCache::Sparse(si) => ComboKind::Sparse(si),
        _ => ComboKind::Other,
    }
}

/// Relies on `RemoteGitIndex::new`: opens (or clones) the git index under
/// the held package lock.
#[verifier::external_body]
pub(crate) fn remote_git_open(gi: tame_index::index::GitIndex, lock: &tame_index::index::FileLock) -> (r:
    Result<tame_index::index::RemoteGitIndex, tame_index::Error>) {
    tame_index::index::RemoteGitIndex::new(gi, lock)
}

/// Relies on `RemoteGitIndex::fetch`: refreshes the git clone from the
/// remote index over the network.
#[verifier::external_body]
pub(crate) fn remote_git_fetch(rgi: &mut tame_index::index::RemoteGitIndex, lock: &tame_index::index::FileLock)
    -> (r: Result<(), tame_index::Error>) {
    rgi.fetch(lock)
}

/// Relies on `RemoteGitIndex::krate`: reads one crate's metadata from the
/// git clone, after validating the name as the registry requires.
#[verifier::external_body]
pub(crate) fn git_krate(
    rgi: &tame_index::index::RemoteGitIndex,
    name: &String,
    lock: &tame_index::index::FileLock,
) -> (r: Result<Option<tame_index::IndexKrate>, tame_index::Error>) {
    let kname = match TryFrom::try_from(name.as_str()) {
        Ok(k) => k,
        Err(e) => return Err(e),
    };
    rgi.krate(kname, true, lock)
}

/// Relies on `SparseIndex::cached_krate`: reads one crate's metadata from
/// the local sparse cache only, after validating the name.
#[verifier::external_body]
pub(crate) fn sparse_cached_krate(
    si: &tame_index::index::SparseIndex,
    name: &String,
    lock: &tame_index::index::FileLock,
) -> (r: Result<Option<tame_index::IndexKrate>, tame_index::Error>) {
    let kname = match TryFrom::try_from(name.as_str()) {
        Ok(k) => k,
        Err(e) => return Err(e),
    };
    si.cached_krate(kname, lock)
}

/// Relies on `AsyncRemoteSparseIndex::cached_krate`: reads one crate's
/// metadata from the remote sparse index's local cache, without network I/O.
#[verifier::external_body]
pub(crate) fn remote_sparse_cached_krate(
    rsi: &tame_index::index::AsyncRemoteSparseIndex,
    name: &String,
    lock: &tame_index::index::FileLock,
) -> (r: Result<Option<tame_index::IndexKrate>, tame_index::Error>) {
    let kname = match TryFrom::try_from(name.as_str()) {
        Ok(k) => k,
        Err(e) => return Err(e),
    };
    rsi.cached_krate(kname, lock)
}

/// Relies on `reqwest::ClientBuilder::new` as the default client
/// configuration.
#[verifier::external_body]
pub(crate) fn default_client_builder() -> (r: tame_index::external::reqwest::ClientBuilder) {
    tame_index::external::reqwest::ClientBuilder::new()
}

/// Relies on `reqwest::ClientBuilder::http2_prior_knowledge` and `build`:
/// builds a client speaking HTTP/2 only, as the sparse registry batch path
/// expects.
#[verifier::external_body]
pub(crate) fn build_http2_client(cb: tame_index::external::reqwest::ClientBuilder) -> (r: Result<
    tame_index::external::reqwest::Client,
    tame_index::Error,
>) {
    match cb.http2_prior_knowledge().build() {
        Ok(c) => Ok(c),
        Err(e) => Err(tame_index::Error::from(e)),
    }
}

/// Relies on `AsyncRemoteSparseIndex::new`: pairs a sparse index with a
/// client for remote fetches.
#[verifier::external_body]
pub(crate) fn new_remote_sparse(
    si: tame_index::index::SparseIndex,
    client: tame_index::external::reqwest::Client,
) -> (r: tame_index::index::AsyncRemoteSparseIndex) {
    tame_index::index::AsyncRemoteSparseIndex::new(si, client)
}

/// Relies on `AsyncRemoteSparseIndex::krates_blocking` run inside a fresh
/// tokio runtime: fetches the named crates concurrently, each request
/// retried until its ten-second budget elapses, and yields one outcome per
/// crate it reports, every reported name being one that was asked for. Fails
/// as a whole only when no runtime could be entered.
#[verifier::external_body]
pub(crate) fn krates_batch(
    rsi: &tame_index::index::AsyncRemoteSparseIndex,
    names: Vec<String>,
    lock: &tame_index::index::FileLock,
) -> (r: Result<Vec<(String, Result<Option<tame_index::IndexKrate>, tame_index::Error>)>, IndexError>)
    ensures
        r matches Ok(v) ==> forall|i: int|
            0 <= i < v@.len() ==> name_views(names@).contains((#[trigger] v@[i]).0@),
        r matches Err(e) ==> e@.kind == ErrorKind::Registry,
{
    let rt = match tame_index::external::tokio::runtime::Runtime::new() {
        Ok(rt) => rt,
        Err(e) => return Err(
            IndexError::new(ErrorKind::Registry, format!("unable to start a tokio runtime: {e}")),
        ),
    };
    let _enter = rt.enter();
    let timeout = Some(std::time::Duration::from_secs(10));
    match rsi.krates_blocking(names.into_iter().collect(), true, timeout, lock) {
        Ok(m) => Ok(m.into_iter().collect()),
        Err(e) => Err(
            IndexError::new(ErrorKind::Registry, format!("unable to acquire tokio runtime: {e}")),
        ),
    }
}

/// How the filesystem lock is to be taken for a configured wait.
#[derive(Clone, Copy, Debug, PartialEq, Eq, Structural)]
pub enum LockStrategy {
    /// Fail at once if the lock is held elsewhere.
    Immediate,
    /// Wait up to this many milliseconds, then give up.
    WaitWithTimeout(u64),
}

/// A zero wait means failing immediately when the lock is held; any positive
/// wait means waiting up to that long.
pub fn lock_strategy_for(timeout_ms: u64) -> (s: LockStrategy)
    ensures
        s == if timeout_ms == 0 {
            LockStrategy::Immediate
        } else {
            LockStrategy::WaitWithTimeout(timeout_ms)
        },
{
    if timeout_ms == 0 {
        LockStrategy::Immediate
    } else {
        LockStrategy::WaitWithTimeout(timeout_ms)
    }
}

/// Acquires the package lock under the configured wait: failing immediately
/// on a zero timeout, otherwise waiting up to the timeout with the backend's
/// backoff.
pub fn acquire_package_lock(timeout_ms: u64) -> (r: Result<tame_index::index::FileLock, IndexError>)
    ensures
        r matches Err(e) ==> (e@.kind == ErrorKind::LockTimeout || e@.kind == ErrorKind::Registry),
{
    let opts = match package_lock_options() {
        Ok(o) => o,
        Err(e) => return Err(error_from_tame(e)),
    };
    let raw = match lock_strategy_for(timeout_ms) {
        LockStrategy::Immediate => lock_immediately(&opts),
        LockStrategy::WaitWithTimeout(ms) => lock_with_wait(&opts, ms),
    };
    match raw {
        Ok(l) => Ok(l),
        Err(e) => Err(error_from_tame(e)),
    }
}

/// The three interchangeable backends, each offering "fetch one crate's
/// metadata".
pub enum IndexBackend {
    /// A git clone of the registry index, read (and optionally fetched)
    /// under the filesystem lock.
    Git(tame_index::index::RemoteGitIndex),
    /// A read-only, locally cached sparse index.
    SparseCached(tame_index::index::SparseIndex),
    /// A remote sparse index fetched over HTTP with its own on-disk cache.
    SparseRemote(tame_index::index::AsyncRemoteSparseIndex),
}

/// The image of a raw backend answer as a cache entry.
pub open spec fn krate_entry_spec(res: Result<Option<tame_index::IndexKrate>, IndexError>) -> EntrySpec {
    match res {
        Ok(Some(ik)) => Ok(Some(krate_yanked(ik))),
        Ok(None) => Ok(None),
        Err(e) => Err(e@),
    }
}

/// Turns a raw backend answer into the cache entry it denotes.
pub fn entry_from_krate(res: Result<Option<tame_index::IndexKrate>, IndexError>) -> (e: CacheEntry)
    ensures
        entry_spec(e) == krate_entry_spec(res),
{
    match res {
        Ok(Some(ik)) => Ok(Some(VersionYankMap::from_pairs(krate_versions(ik)))),
        Ok(None) => Ok(None),
        Err(er) => Err(er),
    }
}

impl IndexBackend {
    /// Fetches one crate's metadata synchronously: from the git clone, or
    /// from the local sparse cache, depending on the backend.
    pub fn krate(&self, name: &String, lock: &tame_index::index::FileLock) -> (r: Result<
        Option<tame_index::IndexKrate>,
        IndexError,
    >)
        ensures
            r matches Err(e) ==> (e@.kind == ErrorKind::LockTimeout || e@.kind
                == ErrorKind::Registry),
    {
        let raw = match self {
            IndexBackend::Git(rgi) => git_krate(rgi, name, lock),
            IndexBackend::SparseCached(si) => sparse_cached_krate(si, name, lock),
            IndexBackend::SparseRemote(rsi) => remote_sparse_cached_krate(rsi, name, lock),
        };
        match raw {
            Ok(o) => Ok(o),
            Err(e) => Err(error_from_tame(e)),
        }
    }
}

} // verus!
