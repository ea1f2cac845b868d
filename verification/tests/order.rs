//! Unit checks of the package order, string comparison, deduplication, and
//! the cache containers.

use cached_index::cache::{VersionYankMap, YankCache};
use cached_index::error::{ErrorKind, IndexError};
use cached_index::package::{Package, Rank, dedup_packages, pkg_rank, str_rank};

fn pkg(name: &str, version: &str) -> Package {
    Package::new(name.to_string(), version.to_string())
}

#[test]
fn string_order_is_lexicographic() {
    assert_eq!(str_rank("a", "b"), Rank::Less);
    assert_eq!(str_rank("b", "a"), Rank::Greater);
    assert_eq!(str_rank("abc", "abc"), Rank::Equal);
    assert_eq!(str_rank("ab", "b"), Rank::Less);
    assert_eq!(str_rank("ab", "abc"), Rank::Less);
    assert_eq!(str_rank("", "a"), Rank::Less);
    assert_eq!(str_rank("", ""), Rank::Equal);
    assert_eq!(str_rank("1.0.0", "1.0.10"), Rank::Less);
}

#[test]
fn package_order_is_name_then_version() {
    assert_eq!(pkg_rank(&pkg("a", "2.0.0"), &pkg("b", "1.0.0")), Rank::Less);
    assert_eq!(pkg_rank(&pkg("a", "1.0.0"), &pkg("a", "2.0.0")), Rank::Less);
    assert_eq!(pkg_rank(&pkg("a", "1.0.0"), &pkg("a", "1.0.0")), Rank::Equal);
    assert_eq!(pkg_rank(&pkg("b", "1.0.0"), &pkg("a", "9.9.9")), Rank::Greater);
}

#[test]
fn dedup_sorts_and_removes_duplicates() {
    let input = vec![
        pkg("b", "1.0.0"),
        pkg("a", "2.0.0"),
        pkg("a", "1.0.0"),
        pkg("b", "1.0.0"),
        pkg("a", "2.0.0"),
    ];
    let out = dedup_packages(&input);
    let flat: Vec<(String, String)> = out
        .iter()
        .map(|p| (p.name.clone(), p.version.clone()))
        .collect();
    assert_eq!(
        flat,
        vec![
            ("a".to_string(), "1.0.0".to_string()),
            ("a".to_string(), "2.0.0".to_string()),
            ("b".to_string(), "1.0.0".to_string()),
        ]
    );
}

#[test]
fn dedup_of_empty_input_is_empty() {
    let out = dedup_packages(&Vec::new());
    assert_eq!(out.len(), 0);
}

#[test]
fn version_map_last_insert_wins() {
    let mut m = VersionYankMap::new();
    m.insert("1.0.0".to_string(), false);
    m.insert("1.0.0".to_string(), true);
    assert_eq!(m.get(&"1.0.0".to_string()), Some(true));
    assert_eq!(m.get(&"2.0.0".to_string()), None);
}

#[test]
fn yank_cache_overwrites_and_looks_up() {
    let mut c = YankCache::new();
    assert!(!c.contains(&"foo".to_string()));
    c.insert("foo".to_string(), Ok(None));
    assert!(c.contains(&"foo".to_string()));
    c.insert(
        "foo".to_string(),
        Err(IndexError::new(ErrorKind::Registry, "down".to_string())),
    );
    match c.lookup(&"foo".to_string()) {
        Some(Err(e)) => {
            assert_eq!(e.kind(), ErrorKind::Registry);
            assert_eq!(e.message(), "down");
        }
        _ => panic!("expected the overwriting error entry"),
    }
}

#[test]
fn error_carries_kind_and_message() {
    let e = IndexError::new(ErrorKind::LockTimeout, "lock held".to_string());
    assert_eq!(e.kind(), ErrorKind::LockTimeout);
    assert_eq!(e.message(), "lock held");
    let c = e.clone();
    assert_eq!(c.kind(), ErrorKind::LockTimeout);
    assert_eq!(c.message(), "lock held");
}
