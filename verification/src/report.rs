//! The shape of a yanked-package report: which entry each package
//! contributes, and the sequence a deduplicated package list produces.

use vstd::prelude::*;

use crate::cache::{EntrySpec, resolve_spec};
use crate::error::ErrorSpec;
use crate::package::{Package, PackageSpec};

verus! {

/// Mathematical image of a sequence of per-package outcomes.
pub open spec fn results_view(s: Seq<Result<Package, crate::error::IndexError>>) -> Seq<
    Result<PackageSpec, ErrorSpec>,
> {
    s.map_values(
        |r: Result<Package, crate::error::IndexError>|
            match r {
                Ok(p) => Ok(p@),
                Err(e) => Err(e@),
            },
    )
}

/// What one package contributes to the report, given the cache: nothing when
/// it is not yanked, its identity when it is, and its error otherwise.
pub open spec fn report_item(c: Map<Seq<char>, EntrySpec>, p: PackageSpec) -> Option<
    Result<PackageSpec, ErrorSpec>,
> {
    if c.contains_key(p.name) {
        match resolve_spec(c[p.name], p) {
            Ok(yanked) => if yanked {
                Some(Ok(p))
            } else {
                None
            },
            Err(e) => Some(Err(e)),
        }
    } else {
        None
    }
}

/// The report a deduplicated package sequence produces against a cache, in
/// order, with non-yanked packages omitted.
pub open spec fn report_seq(c: Map<Seq<char>, EntrySpec>, d: Seq<PackageSpec>) -> Seq<
    Result<PackageSpec, ErrorSpec>,
>
    decreases d.len(),
{
    if d.len() == 0 {
        Seq::empty()
    } else {
        report_seq(c, d.drop_last()) + (match report_item(c, d.last()) {
            Some(x) => seq![x],
            None => Seq::empty(),
        })
    }
}

/// Growing the cache with entries for other names leaves a report unchanged,
/// as long as every reported name was already present.
pub proof fn lemma_report_seq_monotone(
    c1: Map<Seq<char>, EntrySpec>,
    c2: Map<Seq<char>, EntrySpec>,
    d: Seq<PackageSpec>,
)
    requires
        forall|k: Seq<char>| #[trigger] c1.contains_key(k) ==> c2.contains_key(k) && c2[k] == c1[k],
        forall|j: int| 0 <= j < d.len() ==> c1.contains_key((#[trigger] d[j]).name),
    ensures
        report_seq(c1, d) == report_seq(c2, d),
    decreases d.len(),
{
    if d.len() > 0 {
        assert forall|j: int| 0 <= j < d.drop_last().len() implies c1.contains_key(
            (#[trigger] d.drop_last()[j]).name,
        ) by {
            assert(d.drop_last()[j] == d[j]);
        }
        lemma_report_seq_monotone(c1, c2, d.drop_last());
        assert(c1.contains_key(d.last().name));
        assert(report_item(c1, d.last()) == report_item(c2, d.last()));
    }
}

} // verus!
