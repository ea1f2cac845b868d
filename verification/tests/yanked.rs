//! End-to-end scenarios for the cached index: yank reporting, deduplication,
//! isolation, and the not-found outcomes.

use cached_index::backend::{IndexBackend, LockStrategy, entry_from_krate, lock_strategy_for};
use cached_index::cache::{VersionYankMap, YankCache, resolve_package};
use cached_index::error::{ErrorKind, IndexError};
use cached_index::index::CachedIndex;
use cached_index::package::Package;

fn sparse_cached_backend() -> IndexBackend {
    let loc = tame_index::IndexLocation {
        url: tame_index::IndexUrl::NonCratesIo("sparse+https://registry.invalid/index/".into()),
        root: tame_index::index::IndexPath::UserSpecified(tame_index::PathBuf::from(
            "/tmp/cached_index_test_registry",
        )),
        cargo_version: Some(tame_index::Version::new(1, 85, 0)),
    };
    let si = tame_index::index::SparseIndex::new(loc).expect("sparse index location");
    IndexBackend::SparseCached(si)
}

fn fresh_index() -> CachedIndex {
    CachedIndex {
        index: sparse_cached_backend(),
        lock: tame_index::index::FileLock::unlocked(),
        cache: YankCache::new(),
    }
}

fn pkg(name: &str, version: &str) -> Package {
    Package::new(name.to_string(), version.to_string())
}

fn yank_map(pairs: &[(&str, bool)]) -> VersionYankMap {
    let mut owned: Vec<(String, bool)> = Vec::new();
    for (v, y) in pairs {
        owned.push((v.to_string(), *y));
    }
    VersionYankMap::from_pairs(owned)
}

#[test]
fn yanked_version_is_reported() {
    let mut ci = fresh_index();
    ci.cache.insert("foo".to_string(), Ok(Some(yank_map(&[("1.0.0", true)]))));
    let out = ci.find_yanked(&vec![pkg("foo", "1.0.0")]);
    assert_eq!(out.len(), 1);
    match &out[0] {
        Ok(p) => {
            assert_eq!(p.name, "foo");
            assert_eq!(p.version, "1.0.0");
        }
        Err(e) => panic!("unexpected error: {}", e.message()),
    }
}

#[test]
fn duplicate_packages_yield_one_entry() {
    let mut ci = fresh_index();
    ci.cache.insert("foo".to_string(), Ok(Some(yank_map(&[("1.0.0", true)]))));
    let out = ci.find_yanked(&vec![pkg("foo", "1.0.0"), pkg("foo", "1.0.0")]);
    assert_eq!(out.len(), 1);
    assert!(out[0].is_ok());
}

#[test]
fn missing_crate_yields_not_found() {
    let mut ci = fresh_index();
    let out = ci.find_yanked(&vec![pkg("bar", "2.0.0")]);
    assert_eq!(out.len(), 1);
    match &out[0] {
        Err(e) => {
            assert_eq!(e.kind(), ErrorKind::NotFound);
            assert_eq!(e.message(), "No such crate in crates.io index: bar");
        }
        Ok(_) => panic!("expected a not-found error"),
    }
}

#[test]
fn missing_version_yields_not_found() {
    let mut ci = fresh_index();
    ci.cache.insert("foo".to_string(), Ok(Some(yank_map(&[("1.0.0", true)]))));
    let out = ci.find_yanked(&vec![pkg("foo", "9.9.9")]);
    assert_eq!(out.len(), 1);
    match &out[0] {
        Err(e) => {
            assert_eq!(e.kind(), ErrorKind::NotFound);
            assert_eq!(e.message(), "No such version in crates.io index: foo 9.9.9");
        }
        Ok(_) => panic!("expected a not-found error"),
    }
}

#[test]
fn not_yanked_versions_are_omitted() {
    let mut ci = fresh_index();
    ci.cache.insert(
        "foo".to_string(),
        Ok(Some(yank_map(&[("1.0.0", false), ("2.0.0", true)]))),
    );
    let out = ci.find_yanked(&vec![pkg("foo", "1.0.0")]);
    assert_eq!(out.len(), 0);
}

#[test]
fn one_failure_does_not_suppress_another_result() {
    let mut ci = fresh_index();
    ci.cache.insert(
        "bad".to_string(),
        Err(IndexError::new(ErrorKind::Registry, "boom".to_string())),
    );
    ci.cache.insert("good".to_string(), Ok(Some(yank_map(&[("1.0.0", true)]))));
    let out = ci.find_yanked(&vec![pkg("bad", "1.0.0"), pkg("good", "1.0.0")]);
    assert_eq!(out.len(), 2);
    match &out[0] {
        Err(e) => {
            assert_eq!(e.kind(), ErrorKind::Registry);
            assert_eq!(
                e.message(),
                "Failed to retrieve bad from crates.io index: boom"
            );
        }
        Ok(_) => panic!("expected the failing crate's error first"),
    }
    match &out[1] {
        Ok(p) => {
            assert_eq!(p.name, "good");
            assert_eq!(p.version, "1.0.0");
        }
        Err(e) => panic!("unexpected error: {}", e.message()),
    }
}

#[test]
fn cached_error_is_not_retried() {
    let mut ci = fresh_index();
    ci.cache.insert(
        "bad".to_string(),
        Err(IndexError::new(ErrorKind::Registry, "boom".to_string())),
    );
    let out = ci.find_yanked(&vec![pkg("bad", "1.0.0")]);
    assert_eq!(out.len(), 1);
    assert!(out[0].is_err());
    // The stored error stays as is: no second entry is added for the name.
    assert_eq!(ci.cache.entries.len(), 1);
}

#[test]
fn repeated_calls_return_identical_results_without_refetching() {
    let mut ci = fresh_index();
    ci.cache.insert("foo".to_string(), Ok(Some(yank_map(&[("1.0.0", true)]))));
    let input = vec![pkg("foo", "1.0.0"), pkg("foo", "1.0.0")];
    let first = ci.find_yanked(&input);
    let entries_after_first = ci.cache.entries.len();
    let second = ci.find_yanked(&input);
    assert_eq!(ci.cache.entries.len(), entries_after_first);
    assert_eq!(first.len(), second.len());
    for (a, b) in first.iter().zip(second.iter()) {
        match (a, b) {
            (Ok(p), Ok(q)) => {
                assert_eq!(p.name, q.name);
                assert_eq!(p.version, q.version);
            }
            (Err(e), Err(f)) => {
                assert_eq!(e.kind(), f.kind());
                assert_eq!(e.message(), f.message());
            }
            _ => panic!("reports differ between calls"),
        }
    }
}

#[test]
fn empty_input_yields_empty_report() {
    let mut ci = fresh_index();
    let out = ci.find_yanked(&Vec::new());
    assert_eq!(out.len(), 0);
}

#[test]
fn zero_timeout_fails_immediately_policy() {
    assert_eq!(lock_strategy_for(0), LockStrategy::Immediate);
    assert_eq!(lock_strategy_for(5000), LockStrategy::WaitWithTimeout(5000));
    assert_eq!(lock_strategy_for(1), LockStrategy::WaitWithTimeout(1));
}

#[test]
fn krate_metadata_becomes_version_map() {
    let mut yanked = tame_index::IndexVersion::fake("demo", "0.2.0");
    yanked.yanked = true;
    let live = tame_index::IndexVersion::fake("demo", "0.3.0");
    let ik = tame_index::IndexKrate {
        versions: vec![yanked, live],
    };
    let entry = entry_from_krate(Ok(Some(ik)));
    match entry {
        Ok(Some(m)) => {
            assert_eq!(m.get(&"0.2.0".to_string()), Some(true));
            assert_eq!(m.get(&"0.3.0".to_string()), Some(false));
            assert_eq!(m.get(&"9.9.9".to_string()), None);
        }
        _ => panic!("expected a version map"),
    }
}

#[test]
fn resolve_package_covers_all_outcomes() {
    let entry_found: Result<Option<VersionYankMap>, IndexError> =
        Ok(Some(yank_map(&[("1.0.0", true), ("2.0.0", false)])));
    assert!(matches!(resolve_package(&entry_found, &pkg("x", "1.0.0")), Ok(true)));
    assert!(matches!(resolve_package(&entry_found, &pkg("x", "2.0.0")), Ok(false)));
    match resolve_package(&entry_found, &pkg("x", "3.0.0")) {
        Err(e) => {
            assert_eq!(e.kind(), ErrorKind::NotFound);
            assert_eq!(e.message(), "No such version in crates.io index: x 3.0.0");
        }
        Ok(_) => panic!("expected a missing-version error"),
    }
    let entry_absent: Result<Option<VersionYankMap>, IndexError> = Ok(None);
    match resolve_package(&entry_absent, &pkg("x", "1.0.0")) {
        Err(e) => {
            assert_eq!(e.kind(), ErrorKind::NotFound);
            assert_eq!(e.message(), "No such crate in crates.io index: x");
        }
        Ok(_) => panic!("expected a missing-crate error"),
    }
    let entry_failed: Result<Option<VersionYankMap>, IndexError> =
        Err(IndexError::new(ErrorKind::LockTimeout, "held".to_string()));
    match resolve_package(&entry_failed, &pkg("x", "1.0.0")) {
        Err(e) => {
            assert_eq!(e.kind(), ErrorKind::Registry);
            assert_eq!(e.message(), "Failed to retrieve x from crates.io index: held");
        }
        Ok(_) => panic!("expected a propagated registry error"),
    }
}

#[test]
fn open_reports_only_documented_error_kinds() {
    match CachedIndex::open(0) {
        Ok(_) => {}
        Err(e) => {
            let k = e.kind();
            assert!(
                k == ErrorKind::LockTimeout
                    || k == ErrorKind::Registry
                    || k == ErrorKind::RegistryUnsupported
            );
        }
    }
}
