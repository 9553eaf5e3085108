//! General laws of the churn engine, stated and proved over its
//! mathematical model.

use vstd::prelude::*;

use crate::catalog::{churn_pred, churn_views, churned, has_current, CatalogV};
use crate::model::{AppV, ColumnV, SdkV};

verus! {

/// Every entry of a filtered sequence occurs in the sequence it was
/// filtered from.
pub proof fn lemma_filter_subset(s: Seq<AppV>, pred: spec_fn(AppV) -> bool)
    ensures
        forall|i: int| 0 <= i < s.filter(pred).len() ==> s.contains(#[trigger] s.filter(pred)[i]),
    decreases s.len(),
{
    reveal_with_fuel(Seq::filter, 2);
    if s.len() == 0 {
    } else {
        let s0 = s.drop_last();
        lemma_filter_subset(s0, pred);
        assert forall|i: int| 0 <= i < s.filter(pred).len() implies s.contains(
            #[trigger] s.filter(pred)[i],
        ) by {
            if i < s0.filter(pred).len() {
                assert(s.filter(pred)[i] == s0.filter(pred)[i]);
                let idx = choose|idx: int|
                    0 <= idx < s0.len() && s0[idx] == s0.filter(pred)[i];
                assert(s[idx] == s.filter(pred)[i]);
            } else {
                assert(s.filter(pred)[i] == s.last());
                assert(s[s.len() - 1] == s.last());
            }
        }
    }
}

/// Filtering keeps app identifiers distinct: if no two entries of `s`
/// share an identifier, no two entries of the filtered sequence do either.
pub proof fn lemma_filter_distinct_ids(s: Seq<AppV>, pred: spec_fn(AppV) -> bool)
    requires
        forall|i: int, j: int| 0 <= i < j < s.len() ==> #[trigger] s[i].id != #[trigger] s[j].id,
    ensures
        forall|i: int, j: int|
            0 <= i < j < s.filter(pred).len() ==> #[trigger] s.filter(pred)[i].id
                != #[trigger] s.filter(pred)[j].id,
    decreases s.len(),
{
    reveal_with_fuel(Seq::filter, 2);
    if s.len() == 0 {
    } else {
        let s0 = s.drop_last();
        assert forall|i: int, j: int| 0 <= i < j < s0.len() implies #[trigger] s0[i].id
            != #[trigger] s0[j].id by {
            assert(s[i].id != s[j].id);
        }
        lemma_filter_distinct_ids(s0, pred);
        lemma_filter_subset(s0, pred);
        let f0 = s0.filter(pred);
        assert forall|i: int, j: int| 0 <= i < j < s.filter(pred).len() implies #[trigger] s.filter(
            pred,
        )[i].id != #[trigger] s.filter(pred)[j].id by {
            if j < f0.len() {
                assert(s.filter(pred)[i] == f0[i] && s.filter(pred)[j] == f0[j]);
            } else {
                assert(s.filter(pred)[j] == s.last());
                assert(s.filter(pred)[i] == f0[i]);
                assert(s0.contains(f0[i]));
                let idx = choose|idx: int| 0 <= idx < s0.len() && s0[idx] == f0[i];
                assert(s[idx] == f0[i]);
                assert(s[idx].id != s[s.len() - 1].id);
            }
        }
    }
}

/// Diagonal identity: the churn result for a pair of equal selectors is
/// exactly the catalog's apps having at least one current usage row
/// matching the selector — and, over a well-formed catalog, no app occurs
/// twice in it, however many of its current rows match.
pub proof fn lemma_diagonal_identity(cat: CatalogV, c: ColumnV)
    ensures
        churn_views(cat, c, c) == cat.apps.filter(
            (|a: AppV| has_current(cat.usages, a.id, c)),
        ),
        cat.wf() ==> forall|i: int, j: int|
            0 <= i < j < churn_views(cat, c, c).len() ==> #[trigger] churn_views(cat, c, c)[i].id
                != #[trigger] churn_views(cat, c, c)[j].id,
{
    assert(churn_pred(cat.usages, c, c) =~= (|a: AppV| has_current(cat.usages, a.id, c)));
    if cat.wf() {
        lemma_filter_distinct_ids(cat.apps, churn_pred(cat.usages, c, c));
    }
}

/// Wildcard superset: for two distinct concrete SDK selectors, every app
/// churned from the one to the other also counts as churned when either
/// end is widened to the wildcard.
pub proof fn lemma_wildcard_superset(cat: CatalogV, s1: SdkV, s2: SdkV)
    requires
        s1 != s2,
    ensures
        forall|a: AppV|
            churn_views(cat, ColumnV::Sdk(s1), ColumnV::Sdk(s2)).contains(a)
                ==> #[trigger] churn_views(cat, ColumnV::All, ColumnV::Sdk(s2)).contains(a),
        forall|a: AppV|
            churn_views(cat, ColumnV::Sdk(s1), ColumnV::Sdk(s2)).contains(a)
                ==> #[trigger] churn_views(cat, ColumnV::Sdk(s1), ColumnV::All).contains(a),
{
    broadcast use vstd::seq_lib::group_filter_ensures;

    let narrow = churn_pred(cat.usages, ColumnV::Sdk(s1), ColumnV::Sdk(s2));
    lemma_filter_subset(cat.apps, narrow);
    assert forall|a: AppV|
        churn_views(cat, ColumnV::Sdk(s1), ColumnV::Sdk(s2)).contains(a) implies #[trigger] churn_views(
        cat,
        ColumnV::All,
        ColumnV::Sdk(s2),
    ).contains(a) && #[trigger] churn_views(cat, ColumnV::Sdk(s1), ColumnV::All).contains(a) by {
        let f = churn_views(cat, ColumnV::Sdk(s1), ColumnV::Sdk(s2));
        let i = choose|i: int| 0 <= i < f.len() && f[i] == a;
        assert(narrow(f[i]));
        assert(cat.apps.contains(f[i]));
        let idx = choose|idx: int| 0 <= idx < cat.apps.len() && cat.apps[idx] == a;
        assert(churned(cat.usages, a.id, ColumnV::All, ColumnV::Sdk(s2)));
        assert(churned(cat.usages, a.id, ColumnV::Sdk(s1), ColumnV::All));
        assert(churn_pred(cat.usages, ColumnV::All, ColumnV::Sdk(s2))(cat.apps[idx]));
        assert(churn_pred(cat.usages, ColumnV::Sdk(s1), ColumnV::All)(cat.apps[idx]));
    }
}

} // verus!
