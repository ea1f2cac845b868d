//! Laws of the report: deduplication, isolation, omission and
//! missing-version guarantees, proved over the same spec functions the
//! executable contracts use.

use vstd::prelude::*;

use crate::cache::{EntrySpec, msg_fetch_failed, msg_no_version, resolve_spec};
use crate::error::{ErrorKind, ErrorSpec};
use crate::package::{
    PackageSpec, dedup_spec, pkg_lt, seq_char_lt, sorted_insert, lemma_pkg_lt_trans,
};
use crate::report::{report_item, report_seq};

verus! {

/// A sequence of identities in strictly ascending order (hence free of
/// duplicates).
pub open spec fn strictly_sorted(d: Seq<PackageSpec>) -> bool {
    forall|i: int, j: int| 0 <= i < j < d.len() ==> pkg_lt(#[trigger] d[i], #[trigger] d[j])
}

/// An element is in a concatenation exactly when it is in one of the parts.
proof fn lemma_concat_contains<A>(x: Seq<A>, y: Seq<A>, v: A)
    ensures
        (x + y).contains(v) <==> (x.contains(v) || y.contains(v)),
{
    if (x + y).contains(v) {
        let i = choose|i: int| 0 <= i < (x + y).len() && (x + y)[i] == v;
        if i < x.len() {
            assert(x[i] == v);
        } else {
            assert(y[i - x.len()] == v);
        }
    }
    if x.contains(v) {
        let i = choose|i: int| 0 <= i < x.len() && x[i] == v;
        assert((x + y)[i] == v);
    }
    if y.contains(v) {
        let i = choose|i: int| 0 <= i < y.len() && y[i] == v;
        assert((x + y)[x.len() + i] == v);
    }
}

/// The lexicographic order is irreflexive.
proof fn lemma_seq_char_lt_irrefl(a: Seq<char>)
    ensures
        !seq_char_lt(a, a),
    decreases a.len(),
{
    if a.len() > 0 {
        lemma_seq_char_lt_irrefl(a.subrange(1, a.len() as int));
    }
}

/// The package order is irreflexive.
proof fn lemma_pkg_lt_irrefl(p: PackageSpec)
    ensures
        !pkg_lt(p, p),
{
    lemma_seq_char_lt_irrefl(p.name);
    lemma_seq_char_lt_irrefl(p.version);
}

/// Any two character sequences are ordered or equal.
proof fn lemma_seq_char_lt_total(a: Seq<char>, b: Seq<char>)
    ensures
        seq_char_lt(a, b) || seq_char_lt(b, a) || a == b,
    decreases a.len(),
{
    if a.len() == 0 {
        if b.len() == 0 {
            assert(a =~= b);
        }
    } else if b.len() == 0 {
    } else if a[0] != b[0] {
        assert((a[0] as u32) != (b[0] as u32)) by {
            vstd::utf8::char_u32_cast(a[0], a[0] as u32);
            vstd::utf8::char_u32_cast(b[0], b[0] as u32);
        }
    } else {
        let a1 = a.subrange(1, a.len() as int);
        let b1 = b.subrange(1, b.len() as int);
        lemma_seq_char_lt_total(a1, b1);
        assert(seq_char_lt(a, b) == seq_char_lt(a1, b1));
        assert(seq_char_lt(b, a) == seq_char_lt(b1, a1));
        if !seq_char_lt(a, b) && !seq_char_lt(b, a) {
            assert(a1 == b1);
            assert(a =~= b) by {
                assert forall|k: int| 0 <= k < a.len() implies a[k] == b[k] by {
                    if k > 0 {
                        assert(a1[k - 1] == b1[k - 1]);
                    }
                }
            }
        }
    }
}

/// Any two package identities are ordered or equal.
proof fn lemma_pkg_lt_total(a: PackageSpec, b: PackageSpec)
    ensures
        pkg_lt(a, b) || pkg_lt(b, a) || a == b,
{
    lemma_seq_char_lt_total(a.name, b.name);
    lemma_seq_char_lt_total(a.version, b.version);
    if !pkg_lt(a, b) && !pkg_lt(b, a) {
        assert(a.name == b.name && a.version == b.version);
        assert(a =~= b);
    }
}

/// Insertion adds exactly the inserted identity to the elements.
proof fn lemma_sorted_insert_contains(s: Seq<PackageSpec>, p: PackageSpec, x: PackageSpec)
    ensures
        sorted_insert(s, p).contains(x) <==> (s.contains(x) || x == p),
    decreases s.len(),
{
    if s.len() == 0 {
        assert(sorted_insert(s, p) =~= seq![p]);
        assert(seq![p][0] == p);
        if sorted_insert(s, p).contains(x) {
            let i = choose|i: int| 0 <= i < seq![p].len() && seq![p][i] == x;
            assert(x == p);
        }
    } else if pkg_lt(p, s[0]) {
        lemma_concat_contains(seq![p], s, x);
        if x == p {
            assert(seq![p][0] == p);
        }
        if seq![p].contains(x) {
            let i = choose|i: int| 0 <= i < seq![p].len() && seq![p][i] == x;
            assert(x == p);
        }
    } else if p == s[0] {
        if x == p {
            assert(s[0] == x);
        }
    } else {
        let s1 = s.subrange(1, s.len() as int);
        lemma_sorted_insert_contains(s1, p, x);
        lemma_concat_contains(seq![s[0]], sorted_insert(s1, p), x);
        if seq![s[0]].contains(x) {
            let i = choose|i: int| 0 <= i < seq![s[0]].len() && seq![s[0]][i] == x;
            assert(x == s[0]);
        }
        if x == s[0] {
            assert(seq![s[0]][0] == x);
        }
        if s.contains(x) {
            let i = choose|i: int| 0 <= i < s.len() && s[i] == x;
            if i == 0 {
                assert(seq![s[0]][0] == x);
            } else {
                assert(s1[i - 1] == x);
            }
        }
        if s1.contains(x) {
            let i = choose|i: int| 0 <= i < s1.len() && s1[i] == x;
            assert(s[i + 1] == x);
        }
    }
}

/// Insertion keeps a strictly sorted sequence strictly sorted.
proof fn lemma_sorted_insert_sorted(s: Seq<PackageSpec>, p: PackageSpec)
    requires
        strictly_sorted(s),
    ensures
        strictly_sorted(sorted_insert(s, p)),
    decreases s.len(),
{
    if s.len() == 0 {
    } else if pkg_lt(p, s[0]) {
        let r = seq![p] + s;
        assert forall|i: int, j: int| 0 <= i < j < r.len() implies pkg_lt(r[i], r[j]) by {
            if i == 0 {
                if j == 1 {
                    assert(r[j] == s[0]);
                } else {
                    assert(r[j] == s[j - 1]);
                    lemma_pkg_lt_trans(p, s[0], s[j - 1]);
                }
            } else {
                assert(r[i] == s[i - 1] && r[j] == s[j - 1]);
            }
        }
    } else if p == s[0] {
    } else {
        let s1 = s.subrange(1, s.len() as int);
        assert(strictly_sorted(s1)) by {
            assert forall|i: int, j: int| 0 <= i < j < s1.len() implies pkg_lt(s1[i], s1[j]) by {
                assert(s1[i] == s[i + 1] && s1[j] == s[j + 1]);
            }
        }
        lemma_sorted_insert_sorted(s1, p);
        lemma_pkg_lt_total(p, s[0]);
        let t = sorted_insert(s1, p);
        let r = seq![s[0]] + t;
        assert forall|i: int, j: int| 0 <= i < j < r.len() implies pkg_lt(r[i], r[j]) by {
            if i == 0 {
                assert(r[j] == t[j - 1]);
                assert(t.contains(t[j - 1]));
                lemma_sorted_insert_contains(s1, p, t[j - 1]);
                if s1.contains(t[j - 1]) {
                    let w = choose|w: int| 0 <= w < s1.len() && s1[w] == t[j - 1];
                    assert(s1[w] == s[w + 1]);
                    assert(pkg_lt(s[0], s[w + 1]));
                } else {
                    assert(t[j - 1] == p);
                }
            } else {
                assert(r[i] == t[i - 1] && r[j] == t[j - 1]);
            }
        }
    }
}

/// Deduplication yields a strictly ascending (hence duplicate-free)
/// sequence of identities.
pub proof fn lemma_dedup_sorted(s: Seq<PackageSpec>)
    ensures
        strictly_sorted(dedup_spec(s)),
    decreases s.len(),
{
    if s.len() > 0 {
        lemma_dedup_sorted(s.drop_last());
        lemma_sorted_insert_sorted(dedup_spec(s.drop_last()), s.last());
    }
}

/// Deduplication keeps exactly the identities of the input: nothing is
/// added and nothing is lost.
pub proof fn lemma_dedup_contains(s: Seq<PackageSpec>, x: PackageSpec)
    ensures
        dedup_spec(s).contains(x) <==> s.contains(x),
    decreases s.len(),
{
    if s.len() > 0 {
        lemma_dedup_contains(s.drop_last(), x);
        lemma_sorted_insert_contains(dedup_spec(s.drop_last()), s.last(), x);
        if s.contains(x) {
            let i = choose|i: int| 0 <= i < s.len() && s[i] == x;
            if i < s.len() - 1 {
                assert(s.drop_last()[i] == x);
            }
        }
        if s.drop_last().contains(x) {
            let i = choose|i: int| 0 <= i < s.drop_last().len() && s.drop_last()[i] == x;
            assert(s[i] == x);
        }
        if x == s.last() {
            assert(s[s.len() - 1] == x);
        }
    }
}

/// Whatever one package contributes to the report appears in the report:
/// one package's outcome is never suppressed by another's.
pub proof fn lemma_report_contains(
    c: Map<Seq<char>, EntrySpec>,
    d: Seq<PackageSpec>,
    j: int,
    x: Result<PackageSpec, ErrorSpec>,
)
    requires
        0 <= j < d.len(),
        report_item(c, d[j]) == Some(x),
    ensures
        report_seq(c, d).contains(x),
    decreases d.len(),
{
    let tail = match report_item(c, d.last()) {
        Some(y) => seq![y],
        None => Seq::<Result<PackageSpec, ErrorSpec>>::empty(),
    };
    if j == d.len() - 1 {
        assert(tail[0] == x);
        lemma_concat_contains(report_seq(c, d.drop_last()), tail, x);
    } else {
        assert(d.drop_last()[j] == d[j]);
        lemma_report_contains(c, d.drop_last(), j, x);
        lemma_concat_contains(report_seq(c, d.drop_last()), tail, x);
    }
}

/// Every success in a report is a package of the queried sequence whose
/// cache entry resolves to yanked; packages that resolve to not-yanked
/// never appear.
pub proof fn lemma_report_ok_only_yanked(
    c: Map<Seq<char>, EntrySpec>,
    d: Seq<PackageSpec>,
    q: PackageSpec,
)
    requires
        report_seq(c, d).contains(Ok(q)),
    ensures
        d.contains(q),
        c.contains_key(q.name),
        resolve_spec(c[q.name], q) == Ok::<bool, ErrorSpec>(true),
    decreases d.len(),
{
    let tail = match report_item(c, d.last()) {
        Some(y) => seq![y],
        None => Seq::<Result<PackageSpec, ErrorSpec>>::empty(),
    };
    assert(d.len() > 0) by {
        if d.len() == 0 {
            let i = choose|i: int|
                0 <= i < report_seq(c, d).len() && report_seq(c, d)[i] == Ok::<
                    PackageSpec,
                    ErrorSpec,
                >(q);
        }
    }
    lemma_concat_contains(report_seq(c, d.drop_last()), tail, Ok(q));
    if report_seq(c, d.drop_last()).contains(Ok(q)) {
        lemma_report_ok_only_yanked(c, d.drop_last(), q);
        let i = choose|i: int| 0 <= i < d.drop_last().len() && d.drop_last()[i] == q;
        assert(d[i] == q);
    } else {
        let i = choose|i: int| 0 <= i < tail.len() && tail[i] == Ok::<PackageSpec, ErrorSpec>(q);
        assert(report_item(c, d.last()) == Some(Ok::<PackageSpec, ErrorSpec>(q)));
        assert(q == d.last());
        assert(d[d.len() - 1] == q);
    }
}

/// Omission law: a package whose cache entry resolves to not-yanked
/// contributes no entry to the report.
pub proof fn lemma_omission(c: Map<Seq<char>, EntrySpec>, d: Seq<PackageSpec>, p: PackageSpec)
    requires
        c.contains_key(p.name),
        resolve_spec(c[p.name], p) == Ok::<bool, ErrorSpec>(false),
    ensures
        !report_seq(c, d).contains(Ok(p)),
{
    if report_seq(c, d).contains(Ok(p)) {
        lemma_report_ok_only_yanked(c, d, p);
    }
}

/// Deduplication law: over a deduplicated input, each package identity is
/// reported as yanked at most once.
pub proof fn lemma_report_unique(
    c: Map<Seq<char>, EntrySpec>,
    d: Seq<PackageSpec>,
    q: PackageSpec,
    i: int,
    j: int,
)
    requires
        strictly_sorted(d),
        0 <= i < report_seq(c, d).len(),
        0 <= j < report_seq(c, d).len(),
        report_seq(c, d)[i] == Ok::<PackageSpec, ErrorSpec>(q),
        report_seq(c, d)[j] == Ok::<PackageSpec, ErrorSpec>(q),
    ensures
        i == j,
    decreases d.len(),
{
    if d.len() == 0 {
    } else {
        let head = report_seq(c, d.drop_last());
        let tail = match report_item(c, d.last()) {
            Some(y) => seq![y],
            None => Seq::<Result<PackageSpec, ErrorSpec>>::empty(),
        };
        assert(report_seq(c, d) == head + tail);
        assert(strictly_sorted(d.drop_last())) by {
            assert forall|u: int, v: int|
                0 <= u < v < d.drop_last().len() implies pkg_lt(
                d.drop_last()[u],
                d.drop_last()[v],
            ) by {
                assert(d.drop_last()[u] == d[u] && d.drop_last()[v] == d[v]);
            }
        }
        if i < head.len() && j < head.len() {
            assert(head[i] == (head + tail)[i]);
            assert(head[j] == (head + tail)[j]);
            lemma_report_unique(c, d.drop_last(), q, i, j);
        } else if i >= head.len() && j >= head.len() {
            assert(i == head.len() && j == head.len());
        } else {
            let lo = if i < j {
                i
            } else {
                j
            };
            let hi = if i < j {
                j
            } else {
                i
            };
            assert(head[lo] == (head + tail)[lo]);
            assert(head.contains(Ok(q)));
            lemma_report_ok_only_yanked(c, d.drop_last(), q);
            let w = choose|w: int| 0 <= w < d.drop_last().len() && d.drop_last()[w] == q;
            assert((head + tail)[hi] == tail[hi - head.len()]);
            assert(report_item(c, d.last()) == Some(Ok::<PackageSpec, ErrorSpec>(q)));
            assert(q == d.last());
            assert(d[w] == q && d[d.len() - 1] == q);
            assert(pkg_lt(q, q));
            lemma_pkg_lt_irrefl(q);
        }
    }
}

/// A report never holds more entries than the deduplicated query: each
/// queried identity contributes at most one entry.
pub proof fn lemma_report_len(c: Map<Seq<char>, EntrySpec>, d: Seq<PackageSpec>)
    ensures
        report_seq(c, d).len() <= d.len(),
    decreases d.len(),
{
    if d.len() > 0 {
        lemma_report_len(c, d.drop_last());
    }
}

/// Isolation law: one crate failing and another succeeding in the same
/// population still yields the success alongside the failure — the error of
/// the one and the yanked result of the other both stand in the report.
pub proof fn lemma_isolation(
    c: Map<Seq<char>, EntrySpec>,
    d: Seq<PackageSpec>,
    ia: int,
    ib: int,
    cause: ErrorSpec,
)
    requires
        0 <= ia < d.len(),
        0 <= ib < d.len(),
        c.contains_key(d[ia].name),
        c[d[ia].name] == Err::<Option<Map<Seq<char>, bool>>, ErrorSpec>(cause),
        c.contains_key(d[ib].name),
        resolve_spec(c[d[ib].name], d[ib]) == Ok::<bool, ErrorSpec>(true),
    ensures
        report_seq(c, d).contains(
            Err(
                ErrorSpec {
                    kind: ErrorKind::Registry,
                    message: msg_fetch_failed(d[ia].name, cause.message),
                },
            ),
        ),
        report_seq(c, d).contains(Ok(d[ib])),
{
    lemma_report_contains(
        c,
        d,
        ia,
        Err(
            ErrorSpec {
                kind: ErrorKind::Registry,
                message: msg_fetch_failed(d[ia].name, cause.message),
            },
        ),
    );
    lemma_report_contains(c, d, ib, Ok(d[ib]));
}

/// Missing-version law: a crate known to the index but lacking the queried
/// version contributes exactly a not-found error to the report, never a
/// silent drop.
pub proof fn lemma_missing_version(
    c: Map<Seq<char>, EntrySpec>,
    d: Seq<PackageSpec>,
    j: int,
    m: Map<Seq<char>, bool>,
)
    requires
        0 <= j < d.len(),
        c.contains_key(d[j].name),
        c[d[j].name] == Ok::<Option<Map<Seq<char>, bool>>, ErrorSpec>(Some(m)),
        !m.contains_key(d[j].version),
    ensures
        report_seq(c, d).contains(
            Err(ErrorSpec { kind: ErrorKind::NotFound, message: msg_no_version(d[j]) }),
        ),
{
    lemma_report_contains(
        c,
        d,
        j,
        Err(ErrorSpec { kind: ErrorKind::NotFound, message: msg_no_version(d[j]) }),
    );
}

} // verus!
