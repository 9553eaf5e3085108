//! The catalog snapshot and the churn query engine.
//!
//! A [`Catalog`] is an immutable in-memory snapshot of the backing store:
//! the app entries, the SDK entries, and the usage facts linking them.  The
//! churn query [`Catalog::churn`] decides, for a pair of column selectors,
//! which apps count as having churned from the one to the other.

use vstd::prelude::*;

use crate::model::{App, AppV, Column, ColumnV, Sdk, SdkV, StoreError};

verus! {

/// One usage fact: the app with identifier `app_id` either currently embeds
/// (`installed == true`) or once embedded and has since dropped
/// (`installed == false`) the SDK with identifier `sdk_id`.
#[derive(Clone, Copy, Debug, PartialEq, Eq, Structural)]
pub struct Usage {
    pub app_id: i32,
    pub sdk_id: i32,
    pub installed: bool,
}

/// The mathematical value of a [`Catalog`].
#[verifier::ext_equal]
pub struct CatalogV {
    pub apps: Seq<AppV>,
    pub sdks: Seq<SdkV>,
    pub usages: Seq<Usage>,
}

impl CatalogV {
    /// Well-formedness: app identifiers are unique, and so are SDK
    /// identifiers.
    pub open spec fn wf(self) -> bool {
        (forall|i: int, j: int|
            0 <= i < j < self.apps.len() ==> #[trigger] self.apps[i].id != #[trigger] self.apps[j].id)
            && (forall|i: int, j: int|
            0 <= i < j < self.sdks.len() ==> #[trigger] self.sdks[i].id != #[trigger] self.sdks[j].id)
    }
}

/// Whether a usage row for the SDK with identifier `sdk_id` matches the
/// selector `c`: the wildcard matches every row, a concrete selector
/// matches by SDK identifier.
pub open spec fn col_matches(c: ColumnV, sdk_id: int) -> bool {
    match c {
        ColumnV::All => true,
        ColumnV::Sdk(s) => s.id == sdk_id,
    }
}

/// Whether the app with identifier `app_id` has at least one current
/// (`installed`) usage row matching `c`.
pub open spec fn has_current(usages: Seq<Usage>, app_id: int, c: ColumnV) -> bool {
    exists|k: int|
        0 <= k < usages.len() && (#[trigger] usages[k]).app_id == app_id && usages[k].installed
            && col_matches(c, usages[k].sdk_id as int)
}

/// Whether the app with identifier `app_id` has at least one past
/// (no longer installed) usage row matching `c`.
pub open spec fn has_past(usages: Seq<Usage>, app_id: int, c: ColumnV) -> bool {
    exists|k: int|
        0 <= k < usages.len() && (#[trigger] usages[k]).app_id == app_id && !usages[k].installed
            && col_matches(c, usages[k].sdk_id as int)
}

/// The churn predicate for one app.  On the diagonal (`from == to`) it asks
/// only for a current row matching the selector; off the diagonal it asks
/// for a current row matching `to` and, independently, a past row matching
/// `from`.  The two rows need not concern the same SDK.
pub open spec fn churned(usages: Seq<Usage>, app_id: int, from: ColumnV, to: ColumnV) -> bool {
    if from == to {
        has_current(usages, app_id, from)
    } else {
        has_current(usages, app_id, to) && has_past(usages, app_id, from)
    }
}

/// The churn predicate as a function of the app entry, for filtering the
/// catalog's app sequence.
pub open spec fn churn_pred(usages: Seq<Usage>, from: ColumnV, to: ColumnV) -> spec_fn(AppV) -> bool {
    |a: AppV| churned(usages, a.id, from, to)
}

/// What the churn query returns: the catalog's app entries, in stored
/// order, restricted to those satisfying the churn predicate.
pub open spec fn churn_views(cat: CatalogV, from: ColumnV, to: ColumnV) -> Seq<AppV> {
    cat.apps.filter(churn_pred(cat.usages, from, to))
}

/// An immutable snapshot of the backing store for the duration of one
/// request: app entries, SDK entries, and the usage facts linking them.
#[derive(Debug)]
pub struct Catalog {
    apps: Vec<App>,
    sdks: Vec<Sdk>,
    usages: Vec<Usage>,
}

impl View for Catalog {
    type V = CatalogV;

    closed spec fn view(&self) -> CatalogV {
        CatalogV { apps: self.apps.deep_view(), sdks: self.sdks.deep_view(), usages: self.usages@ }
    }
}

impl Catalog {
    /// Well-formedness of the snapshot: unique app and SDK identifiers.
    pub open spec fn wf(&self) -> bool {
        self@.wf()
    }

    /// Assembles a snapshot from fetched rows.  Rows violating the
    /// uniqueness constraint on app or SDK identifiers are a malformed
    /// response from the store, reported as an error rather than silently
    /// reconciled; otherwise the snapshot holds exactly the given rows.
    pub fn from_rows(apps: Vec<App>, sdks: Vec<Sdk>, usages: Vec<Usage>) -> (r: Result<
        Catalog,
        StoreError,
    >)
        ensures
            r is Ok <==> ((forall|i: int, j: int|
                0 <= i < j < apps.deep_view().len() ==> #[trigger] apps.deep_view()[i].id
                    != #[trigger] apps.deep_view()[j].id) && (forall|i: int, j: int|
                0 <= i < j < sdks.deep_view().len() ==> #[trigger] sdks.deep_view()[i].id
                    != #[trigger] sdks.deep_view()[j].id)),
            (r matches Ok(c) ==> c@.apps == apps.deep_view() && c@.sdks == sdks.deep_view()
                && c@.usages == usages@ && c.wf()),
            (r matches Err(e) ==> e == StoreError::MalformedRow),
    {
        if app_ids_distinct(&apps) && sdk_ids_distinct(&sdks) {
            let cat = Catalog { apps, sdks, usages };
            Ok(cat)
        } else {
            Err(StoreError::MalformedRow)
        }
    }

    /// How many apps the catalog holds in total.
    pub fn total_apps(&self) -> (n: usize)
        ensures
            n == self@.apps.len(),
    {
        self.apps.len()
    }

    /// The SDK entries, in stored order.
    pub fn list_sdks(&self) -> (r: Vec<Sdk>)
        ensures
            r.deep_view() == self@.sdks,
    {
        let mut out: Vec<Sdk> = Vec::new();
        let n = self.sdks.len();
        for i in 0..n
            invariant
                n == self.sdks.len(),
                out.deep_view() =~= self@.sdks.subrange(0, i as int),
        {
            let ghost prev = out.deep_view();
            out.push(self.sdks[i].clone());
            proof {
                assert(out.deep_view() =~= prev.push(self@.sdks[i as int]));
                assert(prev.push(self@.sdks[i as int]) =~= self@.sdks.subrange(0, i as int + 1));
            }
        }
        proof {
            assert(self@.sdks.subrange(0, n as int) =~= self@.sdks);
        }
        out
    }

    /// Whether some current usage row of the app matches the selector.
    fn has_current_exec(&self, app_id: i32, c: &Column) -> (r: bool)
        ensures
            r == has_current(self@.usages, app_id as int, c@),
    {
        let n = self.usages.len();
        for k in 0..n
            invariant
                n == self.usages.len(),
                forall|m: int|
                    0 <= m < k ==> !((#[trigger] self@.usages[m]).app_id == app_id
                        && self@.usages[m].installed && col_matches(
                        c@,
                        self@.usages[m].sdk_id as int,
                    )),
        {
            let u = self.usages[k];
            if u.app_id == app_id && u.installed && col_matches_exec(c, u.sdk_id) {
                return true;
            }
        }
        false
    }

    /// Whether some past usage row of the app matches the selector.
    fn has_past_exec(&self, app_id: i32, c: &Column) -> (r: bool)
        ensures
            r == has_past(self@.usages, app_id as int, c@),
    {
        let n = self.usages.len();
        for k in 0..n
            invariant
                n == self.usages.len(),
                forall|m: int|
                    0 <= m < k ==> !((#[trigger] self@.usages[m]).app_id == app_id
                        && !self@.usages[m].installed && col_matches(
                        c@,
                        self@.usages[m].sdk_id as int,
                    )),
        {
            let u = self.usages[k];
            if u.app_id == app_id && !u.installed && col_matches_exec(c, u.sdk_id) {
                return true;
            }
        }
        false
    }

    /// Whether the app with this identifier counts as churned from `from`
    /// to `to`.
    fn churned_exec(&self, app_id: i32, from: &Column, to: &Column) -> (r: bool)
        ensures
            r == churned(self@.usages, app_id as int, from@, to@),
    {
        if from == to {
            self.has_current_exec(app_id, from)
        } else {
            self.has_current_exec(app_id, to) && self.has_past_exec(app_id, from)
        }
    }

    /// The churn query: every app entry satisfying the churn predicate for
    /// `(from, to)`, in stored order.  On the diagonal this is exactly the
    /// set of apps with a current usage row matching the selector; off the
    /// diagonal, the apps with a current row matching `to` and a past row
    /// matching `from`.  An empty result is valid, not an error.
    pub fn churn(&self, from: &Column, to: &Column) -> (r: Vec<App>)
        ensures
            r.deep_view() == churn_views(self@, from@, to@),
    {
        let mut out: Vec<App> = Vec::new();
        let n = self.apps.len();
        for i in 0..n
            invariant
                n == self.apps.len(),
                out.deep_view() =~= self@.apps.subrange(0, i as int).filter(
                    churn_pred(self@.usages, from@, to@),
                ),
        {
            let keep = {
                let a = &self.apps[i];
                self.churned_exec(a.id, from, to)
            };
            proof {
                let pred = churn_pred(self@.usages, from@, to@);
                let prefix = self@.apps.subrange(0, i as int + 1);
                assert(prefix.drop_last() =~= self@.apps.subrange(0, i as int));
                assert(prefix.last() == self@.apps[i as int]);
                reveal_with_fuel(Seq::filter, 2);
                assert(prefix.filter(pred) == if pred(self@.apps[i as int]) {
                    self@.apps.subrange(0, i as int).filter(pred).push(self@.apps[i as int])
                } else {
                    self@.apps.subrange(0, i as int).filter(pred)
                });
            }
            if keep {
                let ghost prev = out.deep_view();
                let a = self.apps[i].clone();
                out.push(a);
                proof {
                    assert(out.deep_view() =~= prev.push(self@.apps[i as int]));
                }
            }
        }
        proof {
            assert(self@.apps.subrange(0, n as int) =~= self@.apps);
        }
        out
    }
}

/// Whether a usage row for this SDK identifier matches the selector.
fn col_matches_exec(c: &Column, sdk_id: i32) -> (r: bool)
    ensures
        r == col_matches(c@, sdk_id as int),
{
    match c {
        Column::All => true,
        Column::Sdk(s) => s.id == sdk_id,
    }
}

/// Whether the app identifiers are pairwise distinct.
fn app_ids_distinct(apps: &Vec<App>) -> (r: bool)
    ensures
        r == (forall|i: int, j: int|
            0 <= i < j < apps.deep_view().len() ==> #[trigger] apps.deep_view()[i].id
                != #[trigger] apps.deep_view()[j].id),
{
    let n = apps.len();
    for i in 0..n
        invariant
            n == apps@.len(),
            forall|a: int, b: int|
                0 <= a < b < n && a < i ==> #[trigger] apps.deep_view()[a].id
                    != #[trigger] apps.deep_view()[b].id,
    {
        for j in (i + 1)..n
            invariant
                n == apps@.len(),
                i < n,
                forall|a: int, b: int|
                    0 <= a < b < n && a < i ==> #[trigger] apps.deep_view()[a].id
                        != #[trigger] apps.deep_view()[b].id,
                forall|b: int|
                    i < b < j ==> apps.deep_view()[i as int].id != #[trigger] apps.deep_view()[b].id,
        {
            if apps[i].id == apps[j].id {
                proof {
                    assert(apps.deep_view()[i as int].id == apps.deep_view()[j as int].id);
                }
                return false;
            }
        }
    }
    true
}

/// Whether the SDK identifiers are pairwise distinct.
fn sdk_ids_distinct(sdks: &Vec<Sdk>) -> (r: bool)
    ensures
        r == (forall|i: int, j: int|
            0 <= i < j < sdks.deep_view().len() ==> #[trigger] sdks.deep_view()[i].id
                != #[trigger] sdks.deep_view()[j].id),
{
    let n = sdks.len();
    for i in 0..n
        invariant
            n == sdks@.len(),
            forall|a: int, b: int|
                0 <= a < b < n && a < i ==> #[trigger] sdks.deep_view()[a].id
                    != #[trigger] sdks.deep_view()[b].id,
    {
        for j in (i + 1)..n
            invariant
                n == sdks@.len(),
                i < n,
                forall|a: int, b: int|
                    0 <= a < b < n && a < i ==> #[trigger] sdks.deep_view()[a].id
                        != #[trigger] sdks.deep_view()[b].id,
                forall|b: int|
                    i < b < j ==> sdks.deep_view()[i as int].id != #[trigger] sdks.deep_view()[b].id,
        {
            if sdks[i].id == sdks[j].id {
                proof {
                    assert(sdks.deep_view()[i as int].id == sdks.deep_view()[j as int].id);
                }
                return false;
            }
        }
    }
    true
}

} // verus!
