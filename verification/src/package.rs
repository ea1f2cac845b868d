//! Package identities: an opaque name plus an opaque version string, with the
//! total order (name, then version) that deduplication relies on.

use vstd::prelude::*;
use vstd::string::StrSliceExecFns;

verus! {

/// Mathematical image of a [`Package`]: the two strings as character
/// sequences.
#[verifier::ext_equal]
pub struct PackageSpec {
    pub name: Seq<char>,
    pub version: Seq<char>,
}

/// An immutable (name, version) pair naming one package release.
///
/// Both strings are opaque keys: names follow whatever format the registry
/// enforces, and versions are never parsed as structured semver, since real
/// registries contain version strings that are not valid semver.
#[derive(Debug)]
pub struct Package {
    /// The package's name.
    pub name: String,
    /// The package's version, compared only for exact equality.
    pub version: String,
}

impl View for Package {
    type V = PackageSpec;

    open spec fn view(&self) -> PackageSpec {
        PackageSpec { name: self.name@, version: self.version@ }
    }
}

impl Clone for Package {
    fn clone(&self) -> (r: Self)
        ensures
            r@ == self@,
    {
        Package { name: self.name.clone(), version: self.version.clone() }
    }
}

impl Package {
    /// Builds the identity of one package release.
    pub fn new(name: String, version: String) -> (p: Package)
        ensures
            p@ == (PackageSpec { name: name@, version: version@ }),
    {
        Package { name, version }
    }
}

/// Lexicographic order on character sequences, by code point.
pub open spec fn seq_char_lt(a: Seq<char>, b: Seq<char>) -> bool
    decreases a.len(),
{
    if b.len() == 0 {
        false
    } else if a.len() == 0 {
        true
    } else if a[0] != b[0] {
        (a[0] as u32) < (b[0] as u32)
    } else {
        seq_char_lt(a.subrange(1, a.len() as int), b.subrange(1, b.len() as int))
    }
}

/// The total order on package identities: by name, then by version.
pub open spec fn pkg_lt(a: PackageSpec, b: PackageSpec) -> bool {
    seq_char_lt(a.name, b.name) || (a.name == b.name && seq_char_lt(a.version, b.version))
}

/// Comparing two sequences that agree on their first `i` characters is the
/// same as comparing what remains after those characters.
proof fn lemma_lt_at(a: Seq<char>, b: Seq<char>, i: int)
    requires
        0 <= i <= a.len(),
        i <= b.len(),
        a.subrange(0, i) == b.subrange(0, i),
    ensures
        seq_char_lt(a, b) == seq_char_lt(
            a.subrange(i, a.len() as int),
            b.subrange(i, b.len() as int),
        ),
    decreases i,
{
    if i == 0 {
        assert(a.subrange(0, a.len() as int) =~= a);
        assert(b.subrange(0, b.len() as int) =~= b);
    } else {
        assert(a.subrange(0, i)[0] == a[0]);
        assert(b.subrange(0, i)[0] == b[0]);
        let a1 = a.subrange(1, a.len() as int);
        let b1 = b.subrange(1, b.len() as int);
        assert(a1.subrange(0, i - 1) =~= b1.subrange(0, i - 1)) by {
            assert forall|k: int| 0 <= k < i - 1 implies a1[k] == b1[k] by {
                assert(a.subrange(0, i)[k + 1] == b.subrange(0, i)[k + 1]);
                assert(a.subrange(0, i)[k + 1] == a[k + 1]);
                assert(b.subrange(0, i)[k + 1] == b[k + 1]);
                assert(a1[k] == a[k + 1]);
                assert(b1[k] == b[k + 1]);
            }
        }
        lemma_lt_at(a1, b1, i - 1);
        assert(a1.subrange(i - 1, a1.len() as int) =~= a.subrange(i, a.len() as int));
        assert(b1.subrange(i - 1, b1.len() as int) =~= b.subrange(i, b.len() as int));
    }
}

/// The lexicographic order is transitive.
pub proof fn lemma_seq_char_lt_trans(a: Seq<char>, b: Seq<char>, c: Seq<char>)
    requires
        seq_char_lt(a, b),
        seq_char_lt(b, c),
    ensures
        seq_char_lt(a, c),
    decreases b.len(),
{
    if a.len() == 0 {
    } else {
        if a[0] != b[0] {
            if b[0] != c[0] {
                assert((a[0] as u32) < (c[0] as u32));
            }
        } else {
            if b[0] != c[0] {
            } else {
                lemma_seq_char_lt_trans(
                    a.subrange(1, a.len() as int),
                    b.subrange(1, b.len() as int),
                    c.subrange(1, c.len() as int),
                );
            }
        }
    }
}

/// The package order is transitive.
pub proof fn lemma_pkg_lt_trans(a: PackageSpec, b: PackageSpec, c: PackageSpec)
    requires
        pkg_lt(a, b),
        pkg_lt(b, c),
    ensures
        pkg_lt(a, c),
{
    if seq_char_lt(a.name, b.name) && seq_char_lt(b.name, c.name) {
        lemma_seq_char_lt_trans(a.name, b.name, c.name);
    } else if a.name == b.name && b.name == c.name {
        if seq_char_lt(a.version, b.version) && seq_char_lt(b.version, c.version) {
            lemma_seq_char_lt_trans(a.version, b.version, c.version);
        }
    }
}

/// Result of comparing two values under a total order.
#[derive(Clone, Copy, Debug, PartialEq, Eq, Structural)]
pub enum Rank {
    Less,
    Equal,
    Greater,
}

/// Compares two strings lexicographically by code point, and decides equality
/// exactly.
pub fn str_rank(a: &str, b: &str) -> (r: Rank)
    ensures
        (r == Rank::Less) <==> seq_char_lt(a@, b@),
        (r == Rank::Equal) <==> (a@ == b@),
        (r == Rank::Greater) <==> seq_char_lt(b@, a@),
{
    let alen = a.unicode_len();
    let blen = b.unicode_len();
    let mut i: usize = 0;
    while i < alen && i < blen
        invariant
            i <= alen,
            i <= blen,
            alen == a@.len(),
            blen == b@.len(),
            a@.subrange(0, i as int) == b@.subrange(0, i as int),
        decreases alen - i,
    {
        let ca = a.get_char(i);
        let cb = b.get_char(i);
        if ca != cb {
            proof {
                lemma_lt_at(a@, b@, i as int);
                lemma_lt_at(b@, a@, i as int);
                assert(a@.subrange(i as int, alen as int)[0] == a@[i as int]);
                assert(b@.subrange(i as int, blen as int)[0] == b@[i as int]);
                assert(a@ != b@) by {
                    assert(a@[i as int] != b@[i as int]);
                }
            }
            if (ca as u32) < (cb as u32) {
                return Rank::Less;
            } else {
                return Rank::Greater;
            }
        }
        proof {
            assert(a@.subrange(0, (i + 1) as int) =~= b@.subrange(0, (i + 1) as int)) by {
                assert forall|k: int| 0 <= k < i + 1 implies #[trigger] a@.subrange(
                    0,
                    (i + 1) as int,
                )[k] == b@.subrange(0, (i + 1) as int)[k] by {
                    if k < i {
                        assert(a@.subrange(0, i as int)[k] == b@.subrange(0, i as int)[k]);
                    } else {
                        assert(a@[i as int] == b@[i as int]);
                    }
                }
            }
        }
        i += 1;
    }
    proof {
        lemma_lt_at(a@, b@, i as int);
        lemma_lt_at(b@, a@, i as int);
    }
    if alen == blen {
        proof {
            assert(a@ =~= b@) by {
                assert forall|k: int| 0 <= k < a@.len() implies a@[k] == b@[k] by {
                    assert(a@.subrange(0, i as int)[k] == b@.subrange(0, i as int)[k]);
                }
            }
        }
        Rank::Equal
    } else if alen < blen {
        proof {
            assert(a@.len() != b@.len());
        }
        Rank::Less
    } else {
        proof {
            assert(a@.len() != b@.len());
        }
        Rank::Greater
    }
}

/// The identities of a sequence of packages.
pub open spec fn views_of(s: Seq<Package>) -> Seq<PackageSpec> {
    s.map_values(|p: Package| p@)
}

/// The character sequences a sequence of name strings denotes.
pub open spec fn name_views(s: Seq<String>) -> Seq<Seq<char>> {
    s.map_values(|n: String| n@)
}

/// Insertion of one identity into a sorted duplicate-free sequence: before
/// the first strictly greater element, and dropped when already present.
pub open spec fn sorted_insert(s: Seq<PackageSpec>, p: PackageSpec) -> Seq<PackageSpec>
    decreases s.len(),
{
    if s.len() == 0 {
        seq![p]
    } else if pkg_lt(p, s[0]) {
        seq![p] + s
    } else if p == s[0] {
        s
    } else {
        seq![s[0]] + sorted_insert(s.subrange(1, s.len() as int), p)
    }
}

/// The deduplicated, sorted sequence of identities that a package list
/// denotes under the total order.
pub open spec fn dedup_spec(s: Seq<PackageSpec>) -> Seq<PackageSpec>
    decreases s.len(),
{
    if s.len() == 0 {
        Seq::empty()
    } else {
        sorted_insert(dedup_spec(s.drop_last()), s.last())
    }
}

/// Inserting into a sequence whose first `j` elements are all unequal to `p`
/// and not above it leaves those elements in place.
proof fn lemma_sorted_insert_skip(s: Seq<PackageSpec>, p: PackageSpec, j: int)
    requires
        0 <= j <= s.len(),
        forall|k: int| 0 <= k < j ==> !pkg_lt(p, #[trigger] s[k]) && p != s[k],
    ensures
        sorted_insert(s, p) == s.subrange(0, j) + sorted_insert(s.subrange(j, s.len() as int), p),
    decreases j,
{
    if j == 0 {
        assert(s.subrange(0, s.len() as int) =~= s);
        assert(s.subrange(0, 0) + sorted_insert(s.subrange(0, s.len() as int), p)
            =~= sorted_insert(s, p));
    } else {
        let s1 = s.subrange(1, s.len() as int);
        assert(!pkg_lt(p, s[0]) && p != s[0]);
        assert(sorted_insert(s, p) == seq![s[0]] + sorted_insert(s1, p));
        assert forall|k: int| 0 <= k < j - 1 implies !pkg_lt(p, #[trigger] s1[k]) && p != s1[k] by {
            assert(s1[k] == s[k + 1]);
        }
        lemma_sorted_insert_skip(s1, p, j - 1);
        assert(s1.subrange(j - 1, s1.len() as int) =~= s.subrange(j, s.len() as int));
        assert(seq![s[0]] + (s1.subrange(0, j - 1) + sorted_insert(
            s.subrange(j, s.len() as int),
            p,
        )) =~= s.subrange(0, j) + sorted_insert(s.subrange(j, s.len() as int), p));
    }
}

/// Deduplicates a package list by full (name, version) identity, returning
/// the identities in ascending order under the total order.
pub fn dedup_packages(packages: &Vec<Package>) -> (r: Vec<Package>)
    ensures
        views_of(r@) == dedup_spec(views_of(packages@)),
{
    let ghost pv = views_of(packages@);
    let mut out: Vec<Package> = Vec::new();
    let mut idx: usize = 0;
    while idx < packages.len()
        invariant
            idx <= packages@.len(),
            pv == views_of(packages@),
            views_of(out@) == dedup_spec(pv.take(idx as int)),
        decreases packages@.len() - idx,
    {
        let p = &packages[idx];
        let ghost sv = views_of(out@);
        let mut j: usize = 0;
        while j < out.len() && pkg_rank(&out[j], p) == Rank::Less
            invariant
                j <= out@.len(),
                sv == views_of(out@),
                forall|k: int| 0 <= k < j ==> !pkg_lt(p@, #[trigger] sv[k]) && p@ != sv[k],
            decreases out@.len() - j,
        {
            proof {
                assert(sv[j as int] == out@[j as int]@);
            }
            j = j + 1;
        }
        proof {
            lemma_sorted_insert_skip(sv, p@, j as int);
        }
        if j == out.len() {
            out.push(p.clone());
            proof {
                assert(sv.subrange(j as int, sv.len() as int) =~= Seq::<PackageSpec>::empty());
                assert(views_of(out@) =~= sv.subrange(0, j as int) + sorted_insert(
                    sv.subrange(j as int, sv.len() as int),
                    p@,
                ));
            }
        } else {
            let rank = pkg_rank(&out[j], p);
            proof {
                assert(sv[j as int] == out@[j as int]@);
                assert(sv.subrange(j as int, sv.len() as int)[0] == sv[j as int]);
            }
            if rank == Rank::Equal {
                proof {
                    assert(sorted_insert(sv.subrange(j as int, sv.len() as int), p@)
                        == sv.subrange(j as int, sv.len() as int));
                    assert(views_of(out@) =~= sv.subrange(0, j as int) + sv.subrange(
                        j as int,
                        sv.len() as int,
                    ));
                }
            } else {
                proof {
                    assert(pkg_lt(p@, sv.subrange(j as int, sv.len() as int)[0]));
                    assert(sorted_insert(sv.subrange(j as int, sv.len() as int), p@) == seq![p@]
                        + sv.subrange(j as int, sv.len() as int));
                }
                let ghost outpre = out@;
                out.insert(j, p.clone());
                proof {
                    let rhs = sv.subrange(0, j as int) + (seq![p@] + sv.subrange(
                        j as int,
                        sv.len() as int,
                    ));
                    outpre.insert_ensures(j as int, out@[j as int]);
                    assert(views_of(out@) =~= rhs) by {
                        assert forall|k: int| 0 <= k < out@.len() implies #[trigger] views_of(
                            out@,
                        )[k] == rhs[k] by {
                            if k < j {
                                assert(out@[k] == outpre[k]);
                                assert(sv[k] == outpre[k]@);
                            } else if k == j {
                                assert(out@[k]@ == p@);
                            } else {
                                assert(out@[k] == outpre[k - 1]);
                                assert(sv[k - 1] == outpre[k - 1]@);
                            }
                        }
                    }
                }
            }
        }
        proof {
            assert(pv.take((idx + 1) as int).drop_last() =~= pv.take(idx as int));
            assert(pv.take((idx + 1) as int).last() == p@);
        }
        idx = idx + 1;
    }
    proof {
        assert(pv.take(pv.len() as int) =~= pv);
    }
    out
}

/// Compares two package identities under the total order (name, then
/// version), deciding equality exactly.
pub fn pkg_rank(a: &Package, b: &Package) -> (r: Rank)
    ensures
        (r == Rank::Less) <==> pkg_lt(a@, b@),
        (r == Rank::Equal) <==> (a@ == b@),
        (r == Rank::Greater) <==> pkg_lt(b@, a@),
{
    match str_rank(a.name.as_str(), b.name.as_str()) {
        Rank::Less => Rank::Less,
        Rank::Greater => Rank::Greater,
        Rank::Equal => {
            let r = str_rank(a.version.as_str(), b.version.as_str());
            proof {
                if r == Rank::Equal {
                    assert(a@ =~= b@);
                }
            }
            r
        },
    }
}

} // verus!
