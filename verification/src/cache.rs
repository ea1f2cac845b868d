//! The in-memory yank cache: per-crate version/yank maps keyed by package
//! name, and the resolution of one package against a cache entry.

use vstd::prelude::*;
use vstd::string::StringExecFns;

use crate::error::{IndexError, ErrorKind, ErrorSpec};
use crate::package::{Package, PackageSpec};

verus! {

/// One cache entry for a crate name: the crate's version/yank map, `None`
/// when the index has no such crate, or the error its fetch produced.
pub type CacheEntry = Result<Option<VersionYankMap>, IndexError>;

/// Mathematical image of a [`CacheEntry`].
pub type EntrySpec = Result<Option<Map<Seq<char>, bool>>, ErrorSpec>;

/// The mapping that a sequence of (version, yanked) pairs denotes; a later
/// pair for the same version wins.
pub open spec fn pairs_map(s: Seq<(String, bool)>) -> Map<Seq<char>, bool>
    decreases s.len(),
{
    if s.len() == 0 {
        Map::empty()
    } else {
        pairs_map(s.drop_last()).insert(s.last().0@, s.last().1)
    }
}

/// A mapping from version string to "is yanked", for one crate.
///
/// Versions are opaque keys compared only for exact equality; they are never
/// parsed as semver, since real registries contain invalid semver strings.
#[derive(Debug)]
pub struct VersionYankMap {
    pub entries: Vec<(String, bool)>,
}

impl View for VersionYankMap {
    type V = Map<Seq<char>, bool>;

    open spec fn view(&self) -> Map<Seq<char>, bool> {
        pairs_map(self.entries@)
    }
}

/// A pair sequence with no match for `k` after position `j` maps `k` to the
/// value paired with it at `j`.
proof fn lemma_pairs_map_last_match(s: Seq<(String, bool)>, k: Seq<char>, j: int)
    requires
        0 <= j < s.len(),
        s[j].0@ == k,
        forall|m: int| j < m < s.len() ==> (#[trigger] s[m]).0@ != k,
    ensures
        pairs_map(s).contains_key(k),
        pairs_map(s)[k] == s[j].1,
    decreases s.len(),
{
    if j == s.len() - 1 {
    } else {
        assert(s.drop_last()[j] == s[j]);
        lemma_pairs_map_last_match(s.drop_last(), k, j);
        assert(s.last().0@ != k);
    }
}

/// A pair sequence with no pair for `k` does not map `k`.
proof fn lemma_pairs_map_absent(s: Seq<(String, bool)>, k: Seq<char>)
    requires
        forall|m: int| 0 <= m < s.len() ==> (#[trigger] s[m]).0@ != k,
    ensures
        !pairs_map(s).contains_key(k),
    decreases s.len(),
{
    if s.len() > 0 {
        lemma_pairs_map_absent(s.drop_last(), k);
    }
}

impl VersionYankMap {
    /// An empty map.
    pub fn new() -> (m: VersionYankMap)
        ensures
            m@ == Map::<Seq<char>, bool>::empty(),
    {
        VersionYankMap { entries: Vec::new() }
    }

    /// Takes ownership of raw (version, yanked) pairs as a map; a later pair
    /// for the same version wins.
    pub fn from_pairs(entries: Vec<(String, bool)>) -> (m: VersionYankMap)
        ensures
            m@ == pairs_map(entries@),
    {
        VersionYankMap { entries }
    }

    /// Records whether `version` is yanked, overwriting any prior record.
    pub fn insert(&mut self, version: String, yanked: bool)
        ensures
            final(self)@ == old(self)@.insert(version@, yanked),
    {
        let ghost s0 = self.entries@;
        self.entries.push((version, yanked));
        proof {
            assert(self.entries@.drop_last() =~= s0);
        }
    }

    /// Looks the exact version string up.
    pub fn get(&self, version: &String) -> (r: Option<bool>)
        ensures
            r == (if self@.contains_key(version@) {
                Some(self@[version@])
            } else {
                None::<bool>
            }),
    {
        let mut j = self.entries.len();
        while j > 0
            invariant
                j <= self.entries@.len(),
                forall|m: int|
                    j <= m < self.entries@.len() ==> (#[trigger] self.entries@[m]).0@
                        != version@,
            decreases j,
        {
            j = j - 1;
            if <String as PartialEq>::eq(&self.entries[j].0, version) {
                proof {
                    lemma_pairs_map_last_match(self.entries@, version@, j as int);
                }
                return Some(self.entries[j].1);
            }
        }
        proof {
            lemma_pairs_map_absent(self.entries@, version@);
        }
        None
    }
}

/// Mathematical image of a cache entry value.
pub open spec fn entry_spec(e: CacheEntry) -> EntrySpec {
    match e {
        Ok(Some(m)) => Ok(Some(m@)),
        Ok(None) => Ok(None),
        Err(er) => Err(er@),
    }
}

/// The mapping that a sequence of (name, entry) pairs denotes; a later pair
/// for the same name wins.
pub open spec fn cache_map(s: Seq<(String, CacheEntry)>) -> Map<Seq<char>, EntrySpec>
    decreases s.len(),
{
    if s.len() == 0 {
        Map::empty()
    } else {
        cache_map(s.drop_last()).insert(s.last().0@, entry_spec(s.last().1))
    }
}

proof fn lemma_cache_map_last_match(s: Seq<(String, CacheEntry)>, k: Seq<char>, j: int)
    requires
        0 <= j < s.len(),
        s[j].0@ == k,
        forall|m: int| j < m < s.len() ==> (#[trigger] s[m]).0@ != k,
    ensures
        cache_map(s).contains_key(k),
        cache_map(s)[k] == entry_spec(s[j].1),
    decreases s.len(),
{
    if j == s.len() - 1 {
    } else {
        assert(s.drop_last()[j] == s[j]);
        lemma_cache_map_last_match(s.drop_last(), k, j);
        assert(s.last().0@ != k);
    }
}

proof fn lemma_cache_map_absent(s: Seq<(String, CacheEntry)>, k: Seq<char>)
    requires
        forall|m: int| 0 <= m < s.len() ==> (#[trigger] s[m]).0@ != k,
    ensures
        !cache_map(s).contains_key(k),
    decreases s.len(),
{
    if s.len() > 0 {
        lemma_cache_map_absent(s.drop_last(), k);
    }
}

/// The in-memory cache: package name to the outcome of fetching that crate's
/// metadata. It grows monotonically within a process run and is never
/// evicted; a stored error is not retried by the cache layer.
#[derive(Debug)]
pub struct YankCache {
    pub entries: Vec<(String, CacheEntry)>,
}

impl View for YankCache {
    type V = Map<Seq<char>, EntrySpec>;

    open spec fn view(&self) -> Map<Seq<char>, EntrySpec> {
        cache_map(self.entries@)
    }
}

impl YankCache {
    /// An empty cache.
    pub fn new() -> (c: YankCache)
        ensures
            c@ == Map::<Seq<char>, EntrySpec>::empty(),
    {
        YankCache { entries: Vec::new() }
    }

    /// Stores the fetch outcome for one crate name, overwriting any prior
    /// entry for that name.
    pub fn insert(&mut self, name: String, entry: CacheEntry)
        ensures
            final(self)@ == old(self)@.insert(name@, entry_spec(entry)),
    {
        let ghost s0 = self.entries@;
        self.entries.push((name, entry));
        proof {
            assert(self.entries@.drop_last() =~= s0);
        }
    }

    /// Whether the cache holds an entry for `name`.
    pub fn contains(&self, name: &String) -> (r: bool)
        ensures
            r == self@.contains_key(name@),
    {
        match self.lookup(name) {
            Some(_) => true,
            None => false,
        }
    }

    /// The entry stored for `name`, if any.
    pub fn lookup(&self, name: &String) -> (r: Option<&CacheEntry>)
        ensures
            match r {
                Some(e) => self@.contains_key(name@) && entry_spec(*e) == self@[name@],
                None => !self@.contains_key(name@),
            },
    {
        let mut j = self.entries.len();
        while j > 0
            invariant
                j <= self.entries@.len(),
                forall|m: int|
                    j <= m < self.entries@.len() ==> (#[trigger] self.entries@[m]).0@ != name@,
            decreases j,
        {
            j = j - 1;
            if <String as PartialEq>::eq(&self.entries[j].0, name) {
                proof {
                    lemma_cache_map_last_match(self.entries@, name@, j as int);
                }
                return Some(&self.entries[j].1);
            }
        }
        proof {
            lemma_cache_map_absent(self.entries@, name@);
        }
        None
    }
}

/// Message reported when a crate is present but lacks the queried version.
pub open spec fn msg_no_version(p: PackageSpec) -> Seq<char> {
    "No such version in crates.io index: "@ + p.name + " "@ + p.version
}

/// Message reported when the index has no crate of the queried name.
pub open spec fn msg_no_crate(name: Seq<char>) -> Seq<char> {
    "No such crate in crates.io index: "@ + name
}

/// Message reported when the fetch for a crate failed with `cause`.
pub open spec fn msg_fetch_failed(name: Seq<char>, cause: Seq<char>) -> Seq<char> {
    "Failed to retrieve "@ + name + " from crates.io index: "@ + cause
}

/// What querying one package against one cache entry yields: yanked or not
/// on success, and otherwise exactly one of the not-found or propagated
/// error outcomes.
pub open spec fn resolve_spec(e: EntrySpec, p: PackageSpec) -> Result<bool, ErrorSpec> {
    match e {
        Ok(Some(m)) => if m.contains_key(p.version) {
            Ok(m[p.version])
        } else {
            Err(ErrorSpec { kind: ErrorKind::NotFound, message: msg_no_version(p) })
        },
        Ok(None) => Err(ErrorSpec { kind: ErrorKind::NotFound, message: msg_no_crate(p.name) }),
        Err(er) => Err(
            ErrorSpec {
                kind: ErrorKind::Registry,
                message: msg_fetch_failed(p.name, er.message),
            },
        ),
    }
}

/// Mathematical image of a per-package query result.
pub open spec fn result_view(r: Result<bool, IndexError>) -> Result<bool, ErrorSpec> {
    match r {
        Ok(b) => Ok(b),
        Err(e) => Err(e@),
    }
}

fn build_msg_no_version(p: &Package) -> (m: String)
    ensures
        m@ == msg_no_version(p@),
{
    let mut m: String = "No such version in crates.io index: ".to_owned();
    m.append(p.name.as_str());
    m.append(" ");
    m.append(p.version.as_str());
    m
}

fn build_msg_no_crate(name: &String) -> (m: String)
    ensures
        m@ == msg_no_crate(name@),
{
    let mut m: String = "No such crate in crates.io index: ".to_owned();
    m.append(name.as_str());
    m
}

fn build_msg_fetch_failed(name: &String, cause: &String) -> (m: String)
    ensures
        m@ == msg_fetch_failed(name@, cause@),
{
    let mut m: String = "Failed to retrieve ".to_owned();
    m.append(name.as_str());
    m.append(" from crates.io index: ");
    m.append(cause.as_str());
    m
}

/// Resolves one package against the cache entry stored for its name,
/// yielding exactly the outcome [`resolve_spec`] describes.
pub fn resolve_package(entry: &CacheEntry, package: &Package) -> (r: Result<bool, IndexError>)
    ensures
        result_view(r) == resolve_spec(entry_spec(*entry), package@),
{
    match entry {
        Ok(Some(m)) => match m.get(&package.version) {
            Some(yanked) => Ok(yanked),
            None => Err(IndexError::new(ErrorKind::NotFound, build_msg_no_version(package))),
        },
        Ok(None) => Err(IndexError::new(ErrorKind::NotFound, build_msg_no_crate(&package.name))),
        Err(e) => Err(
            IndexError::new(ErrorKind::Registry, build_msg_fetch_failed(&package.name, e.message())),
        ),
    }
}

} // verus!
