//! The cached index: opens a registry backend, batch-populates the yank
//! cache, and reports which of a list of packages are yanked, with
//! per-package error isolation.

use vstd::prelude::*;
use vstd::string::StringExecFns;

use crate::backend::{
    ComboKind, IndexBackend, acquire_package_lock, build_http2_client, classify_combo,
    default_client_builder, entry_from_krate, error_from_tame, krates_batch, new_remote_sparse,
    open_combo_index, remote_git_fetch, remote_git_open,
};
use crate::cache::{EntrySpec, YankCache, resolve_package, resolve_spec, result_view};
use crate::error::{IndexError, ErrorKind, ErrorSpec};
use crate::package::{Package, PackageSpec, dedup_packages, dedup_spec, name_views, views_of};
use vstd::pervasive::unreached;
use crate::report::{report_item, report_seq, results_view, lemma_report_seq_monotone};

verus! {

/// An opened registry index together with the in-memory yank cache.
///
/// Each crate is looked up in the index at most once per process run; the
/// per-name outcome is kept in the cache and reused for every version of
/// that crate.
pub struct CachedIndex {
    /// The opened backend.
    pub index: IndexBackend,
    /// The filesystem lock guarding the local index, held for this value's
    /// lifetime and released when it is dropped.
    pub lock: tame_index::index::FileLock,
    /// The per-name fetch outcomes seen so far.
    pub cache: YankCache,
}

impl CachedIndex {
    /// Opens the local crates.io index for reading, without fetching.
    ///
    /// Waits up to `lock_timeout_ms` milliseconds for the filesystem lock on
    /// the repository; a zero timeout fails immediately rather than wait.
    /// A registry location of an unrecognized form is a fatal
    /// misconfiguration, reported as `RegistryUnsupported`.
    pub fn open(lock_timeout_ms: u64) -> (r: Result<CachedIndex, IndexError>)
        ensures
            r matches Ok(ci) ==> ci.cache@ == Map::<Seq<char>, EntrySpec>::empty(),
            r matches Err(e) ==> (e@.kind == ErrorKind::LockTimeout || e@.kind
                == ErrorKind::Registry || e@.kind == ErrorKind::RegistryUnsupported),
    {
        let lock = match acquire_package_lock(lock_timeout_ms) {
            Ok(l) => l,
            Err(e) => return Err(e),
        };
        let combo = match open_combo_index() {
            Ok(c) => c,
            Err(e) => return Err(error_from_tame(e)),
        };
        let index = match classify_combo(combo) {
            ComboKind::Git(gi) => match remote_git_open(gi, &lock) {
                Ok(rgi) => IndexBackend::Git(rgi),
                Err(e) => return Err(error_from_tame(e)),
            },
            ComboKind::Sparse(si) => IndexBackend::SparseCached(si),
            ComboKind::Other => {
                return Err(
                    IndexError::new(
                        ErrorKind::RegistryUnsupported,
                        "Unsupported crates.io index type".to_owned(),
                    ),
                );
            },
        };
        Ok(CachedIndex { index, lock, cache: YankCache::new() })
    }

    /// Opens the crates.io index for network use: a git index is fetched at
    /// once, a sparse index is downloaded later on demand.
    ///
    /// Waits up to `lock_timeout_ms` milliseconds for the filesystem lock on
    /// the repository; a zero timeout fails immediately rather than wait.
    pub fn fetch(
        client: Option<tame_index::external::reqwest::ClientBuilder>,
        lock_timeout_ms: u64,
    ) -> (r: Result<CachedIndex, IndexError>)
        ensures
            r matches Ok(ci) ==> ci.cache@ == Map::<Seq<char>, EntrySpec>::empty(),
            r matches Err(e) ==> (e@.kind == ErrorKind::LockTimeout || e@.kind
                == ErrorKind::Registry || e@.kind == ErrorKind::RegistryUnsupported),
    {
        let lock = match acquire_package_lock(lock_timeout_ms) {
            Ok(l) => l,
            Err(e) => return Err(e),
        };
        let combo = match open_combo_index() {
            Ok(c) => c,
            Err(e) => return Err(error_from_tame(e)),
        };
        let index = match classify_combo(combo) {
            ComboKind::Git(gi) => {
                let mut rgi = match remote_git_open(gi, &lock) {
                    Ok(rgi) => rgi,
                    Err(e) => return Err(error_from_tame(e)),
                };
                match remote_git_fetch(&mut rgi, &lock) {
                    Ok(_) => IndexBackend::Git(rgi),
                    Err(e) => return Err(error_from_tame(e)),
                }
            },
            ComboKind::Sparse(si) => {
                let builder = match client {
                    Some(cb) => cb,
                    None => default_client_builder(),
                };
                let cl = match build_http2_client(builder) {
                    Ok(c) => c,
                    Err(e) => return Err(error_from_tame(e)),
                };
                IndexBackend::SparseRemote(new_remote_sparse(si, cl))
            },
            ComboKind::Other => {
                return Err(
                    IndexError::new(
                        ErrorKind::RegistryUnsupported,
                        "Unsupported crates.io index type".to_owned(),
                    ),
                );
            },
        };
        Ok(CachedIndex { index, lock, cache: YankCache::new() })
    }

    /// Fills the cache for every given name that it does not hold yet: one
    /// query per name on the synchronous backends, one concurrent batch
    /// request on the remote sparse backend. One name's failure is stored as
    /// that name's entry and never blocks the rest; only a transport that
    /// cannot be used at all fails the whole batch.
    fn populate_cache(&mut self, names: &Vec<String>) -> (r: Result<(), IndexError>)
        ensures
            final(self).index == old(self).index,
            final(self).lock == old(self).lock,
            forall|k: Seq<char>|
                #[trigger] old(self).cache@.contains_key(k) ==> final(self).cache@.contains_key(k)
                    && final(self).cache@[k] == old(self).cache@[k],
            forall|k: Seq<char>|
                #[trigger] final(self).cache@.contains_key(k) && !old(self).cache@.contains_key(k)
                    ==> name_views(names@).contains(k),
            (old(self).index is Git || old(self).index is SparseCached) ==> (r is Ok && forall|
                j: int,
            |
                0 <= j < names@.len() ==> final(self).cache@.contains_key(
                    (#[trigger] names@[j])@,
                )),
            (forall|j: int|
                0 <= j < names@.len() ==> old(self).cache@.contains_key((#[trigger] names@[j])@))
                ==> (r is Ok && final(self).cache@ == old(self).cache@),
            r matches Err(e) ==> e@.kind == ErrorKind::Registry,
    {
        let ghost c0 = self.cache@;
        match &self.index {
            IndexBackend::Git(_) | IndexBackend::SparseCached(_) => {
                let mut i: usize = 0;
                while i < names.len()
                    invariant
                        i <= names@.len(),
                        self.index == old(self).index,
                        self.lock == old(self).lock,
                        c0 == old(self).cache@,
                        self.index is Git || self.index is SparseCached,
                        forall|k: Seq<char>|
                            #[trigger] c0.contains_key(k) ==> self.cache@.contains_key(k)
                                && self.cache@[k] == c0[k],
                        forall|k: Seq<char>|
                            #[trigger] self.cache@.contains_key(k) && !c0.contains_key(k)
                                ==> name_views(names@).contains(k),
                        forall|j: int|
                            0 <= j < i ==> self.cache@.contains_key((#[trigger] names@[j])@),
                        (forall|j: int|
                            0 <= j < names@.len() ==> c0.contains_key((#[trigger] names@[j])@))
                            ==> self.cache@ == c0,
                    decreases names@.len() - i,
                {
                    let name = &names[i];
                    if !self.cache.contains(name) {
                        let res = self.index.krate(name, &self.lock);
                        let entry = entry_from_krate(res);
                        self.cache.insert(name.clone(), entry);
                        proof {
                            assert(name_views(names@)[i as int] == names@[i as int]@);
                            assert(name_views(names@).contains(names@[i as int]@));
                        }
                    }
                    i = i + 1;
                }
                Ok(())
            },
            IndexBackend::SparseRemote(_) => {
                let mut missing: Vec<String> = Vec::new();
                let mut i: usize = 0;
                while i < names.len()
                    invariant
                        i <= names@.len(),
                        forall|j: int|
                            0 <= j < missing@.len() ==> name_views(names@).contains(
                                (#[trigger] missing@[j])@,
                            ) && !self.cache@.contains_key(missing@[j]@),
                        (forall|j: int|
                            0 <= j < names@.len() ==> self.cache@.contains_key(
                                (#[trigger] names@[j])@,
                            )) ==> missing@.len() == 0,
                    decreases names@.len() - i,
                {
                    let name = &names[i];
                    if !self.cache.contains(name) {
                        missing.push(name.clone());
                        proof {
                            assert(name_views(names@)[i as int] == names@[i as int]@);
                            assert(name_views(names@).contains(names@[i as int]@));
                        }
                    }
                    i = i + 1;
                }
                if missing.len() == 0 {
                    return Ok(());
                }
                let ghost missing_v = missing@;
                let batch = match &self.index {
                    IndexBackend::SparseRemote(rsi) => krates_batch(rsi, missing, &self.lock),
                    _ => unreached(),
                };
                match batch {
                    Ok(mut results) => {
                        while results.len() > 0
                            invariant
                                self.index == old(self).index,
                                self.lock == old(self).lock,
                                c0 == old(self).cache@,
                                forall|j: int|
                                    0 <= j < results@.len() ==> name_views(missing_v).contains(
                                        (#[trigger] results@[j]).0@,
                                    ),
                                forall|j: int|
                                    0 <= j < missing_v.len() ==> name_views(names@).contains(
                                        (#[trigger] missing_v[j])@,
                                    ) && !c0.contains_key(missing_v[j]@),
                                forall|k: Seq<char>|
                                    #[trigger] c0.contains_key(k) ==> self.cache@.contains_key(k)
                                        && self.cache@[k] == c0[k],
                                forall|k: Seq<char>|
                                    #[trigger] self.cache@.contains_key(k) && !c0.contains_key(k)
                                        ==> name_views(names@).contains(k),
                            decreases results@.len(),
                        {
                            let pair = match results.pop() {
                                Some(p) => p,
                                None => unreached(),
                            };
                            let (kname, kres) = pair;
                            let ghost knv = kname@;
                            let entry = match kres {
                                Ok(o) => entry_from_krate(Ok(o)),
                                Err(te) => Err(error_from_tame(te)),
                            };
                            proof {
                                assert(name_views(missing_v).contains(knv));
                                let w = choose|w: int|
                                    0 <= w < name_views(missing_v).len() && name_views(missing_v)[w]
                                        == knv;
                                assert(name_views(missing_v)[w] == missing_v[w]@);
                                assert(name_views(names@).contains(missing_v[w]@));
                                assert(!c0.contains_key(knv));
                            }
                            self.cache.insert(kname, entry);
                        }
                        Ok(())
                    },
                    Err(e) => Err(e),
                }
            },
        }
    }

    /// Answers whether the given package is yanked, from the cache when its
    /// crate has been seen, and through one synchronous backend query that
    /// then fills the cache otherwise.
    fn is_yanked(&mut self, package: &Package) -> (r: Result<bool, IndexError>)
        ensures
            final(self).index == old(self).index,
            final(self).lock == old(self).lock,
            forall|k: Seq<char>|
                #[trigger] old(self).cache@.contains_key(k) ==> final(self).cache@.contains_key(k)
                    && final(self).cache@[k] == old(self).cache@[k],
            forall|k: Seq<char>|
                #[trigger] final(self).cache@.contains_key(k) && !old(self).cache@.contains_key(k)
                    ==> k == package@.name,
            final(self).cache@.contains_key(package@.name),
            result_view(r) == resolve_spec(final(self).cache@[package@.name], package@),
            old(self).cache@.contains_key(package@.name) ==> final(self).cache@ == old(
                self,
            ).cache@,
    {
        if !self.cache.contains(&package.name) {
            let res = self.index.krate(&package.name, &self.lock);
            let entry = entry_from_krate(res);
            self.cache.insert(package.name.clone(), entry);
        }
        match self.cache.lookup(&package.name) {
            Some(entry) => resolve_package(entry, package),
            None => unreached(),
        }
    }

    /// Reports, for the given packages, every yanked release and every
    /// per-package failure, with non-yanked packages omitted.
    ///
    /// The packages are first deduplicated by full (name, version) identity;
    /// the cache is then populated in one pass (one batch download on the
    /// remote sparse backend), and each package is resolved against it. A
    /// whole-batch download failure contributes one leading `Registry` error
    /// while every package is still resolved as well as the cache allows.
    /// Names already cached are not fetched again, and a repeated call with
    /// an unchanged cache returns the same report.
    pub fn find_yanked(&mut self, packages: &Vec<Package>) -> (r: Vec<Result<Package, IndexError>>)
        ensures
            final(self).index == old(self).index,
            forall|k: Seq<char>|
                #[trigger] old(self).cache@.contains_key(k) ==> final(self).cache@.contains_key(k)
                    && final(self).cache@[k] == old(self).cache@[k],
            ({
                let d = dedup_spec(views_of(packages@));
                let body = report_seq(final(self).cache@, d);
                let rv = results_view(r@);
                &&& (forall|j: int|
                    0 <= j < d.len() ==> final(self).cache@.contains_key((#[trigger] d[j]).name))
                &&& (rv == body || (rv.len() == body.len() + 1 && rv.subrange(1, rv.len() as int)
                    == body && (rv[0] matches Err(e) && e.kind == ErrorKind::Registry)))
            }),
            ({
                let d = dedup_spec(views_of(packages@));
                (forall|j: int|
                    0 <= j < d.len() ==> old(self).cache@.contains_key((#[trigger] d[j]).name))
                    ==> (final(self).cache@ == old(self).cache@ && results_view(r@) == report_seq(
                    old(self).cache@,
                    d,
                ))
            }),
    {
        let dedup = dedup_packages(packages);
        let ghost d = views_of(dedup@);
        let mut names: Vec<String> = Vec::new();
        let mut k: usize = 0;
        while k < dedup.len()
            invariant
                k <= dedup@.len(),
                d == views_of(dedup@),
                names@.len() == k,
                forall|j: int| 0 <= j < k ==> (#[trigger] names@[j])@ == d[j].name,
            decreases dedup@.len() - k,
        {
            proof {
                assert(d[k as int] == dedup@[k as int]@);
            }
            names.push(dedup[k].name.clone());
            k = k + 1;
        }
        let mut out: Vec<Result<Package, IndexError>> = Vec::new();
        let pop_res = self.populate_cache(&names);
        proof {
            assert forall|j: int|
                0 <= j < names@.len() implies (#[trigger] name_views(names@)[j]) == d[j].name by {
                assert(names@[j]@ == d[j].name);
            }
        }
        match pop_res {
            Ok(_) => {},
            Err(e) => {
                let mut m: String = "Failed to download crates.io index: ".to_owned();
                m.append(e.message().as_str());
                m.append(
                    "\nData may be missing or stale when checking for yanked packages.",
                );
                out.push(Err(IndexError::new(ErrorKind::Registry, m)));
            },
        }
        let ghost cpost = self.cache@;
        let ghost head = results_view(out@);
        proof {
            assert(head.len() <= 1);
            if head.len() == 1 {
                assert(head[0] matches Err(ev) && ev.kind == ErrorKind::Registry);
            }
        }
        proof {
            assert(d.take(0) =~= Seq::<PackageSpec>::empty());
            assert(results_view(out@) =~= head + report_seq(self.cache@, d.take(0)));
        }
        let mut idx: usize = 0;
        while idx < dedup.len()
            invariant
                idx <= dedup@.len(),
                d == views_of(dedup@),
                d == dedup_spec(views_of(packages@)),
                self.index == old(self).index,
                self.lock == old(self).lock,
                head.len() <= 1,
                head.len() == 1 ==> (head[0] matches Err(ev) && ev.kind == ErrorKind::Registry),
                forall|k: Seq<char>|
                    #[trigger] cpost.contains_key(k) ==> self.cache@.contains_key(k)
                        && self.cache@[k] == cpost[k],
                forall|k: Seq<char>|
                    #[trigger] old(self).cache@.contains_key(k) ==> self.cache@.contains_key(k)
                        && self.cache@[k] == old(self).cache@[k],
                forall|j: int| 0 <= j < idx ==> self.cache@.contains_key((#[trigger] d[j]).name),
                results_view(out@) == head + report_seq(self.cache@, d.take(idx as int)),
                (forall|j: int|
                    0 <= j < d.len() ==> old(self).cache@.contains_key((#[trigger] d[j]).name))
                    ==> (self.cache@ == old(self).cache@ && head.len() == 0),
            decreases dedup@.len() - idx,
        {
            let p = &dedup[idx];
            proof {
                assert(d[idx as int] == dedup@[idx as int]@);
            }
            let ghost cpre = self.cache@;
            let res = self.is_yanked(p);
            proof {
                assert forall|j: int|
                    0 <= j < d.take(idx as int).len() implies cpre.contains_key(
                    (#[trigger] d.take(idx as int)[j]).name,
                ) by {
                    assert(d.take(idx as int)[j] == d[j]);
                }
                lemma_report_seq_monotone(cpre, self.cache@, d.take(idx as int));
                assert(d.take((idx + 1) as int).drop_last() =~= d.take(idx as int));
                assert(d.take((idx + 1) as int).last() == d[idx as int]);
            }
            let ghost outpre = out@;
            match res {
                Ok(yanked) => {
                    if yanked {
                        out.push(Ok(p.clone()));
                        proof {
                            assert(report_item(self.cache@, d[idx as int]) == Some(
                                Ok::<PackageSpec, ErrorSpec>(d[idx as int]),
                            ));
                            assert(results_view(out@) =~= results_view(outpre).push(
                                Ok(d[idx as int]),
                            ));
                            assert(results_view(out@) =~= head + report_seq(
                                self.cache@,
                                d.take((idx + 1) as int),
                            ));
                        }
                    } else {
                        proof {
                            assert(report_item(self.cache@, d[idx as int])
                                is None);
                            assert(report_seq(self.cache@, d.take((idx + 1) as int))
                                =~= report_seq(self.cache@, d.take(idx as int)));
                        }
                    }
                },
                Err(e) => {
                    let ghost ev = e@;
                    out.push(Err(e));
                    proof {
                        assert(report_item(self.cache@, d[idx as int]) == Some(
                            Err::<PackageSpec, ErrorSpec>(ev),
                        ));
                        assert(results_view(out@) =~= results_view(outpre).push(
                            Err(ev),
                        ));
                        assert(results_view(out@) =~= head + report_seq(
                            self.cache@,
                            d.take((idx + 1) as int),
                        ));
                    }
                },
            }
            idx = idx + 1;
        }
        proof {
            assert(d.take(d.len() as int) =~= d);
            let body = report_seq(self.cache@, d);
            let rv = results_view(out@);
            if head.len() == 0 {
                assert(rv =~= body);
            } else {
                assert(rv.len() == body.len() + 1);
                assert(rv.subrange(1, rv.len() as int) =~= body);
                assert(rv[0] == head[0]);
            }
        }
        out
    }
}

} // verus!
