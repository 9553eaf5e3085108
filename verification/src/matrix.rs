//! The matrix builder.
//!
//! Given an ordered list of column selectors, the builder evaluates the
//! churn query for every ordered pair drawn from the de-duplicated list and
//! assembles a lookup keyed by `(from, to)`.  [`build_matrix`] consumes one
//! store reply per pair and aborts the whole build on the first failure —
//! one error, never a partial matrix; [`churn_matrix`] runs the engine over
//! an in-memory snapshot, where every fetch succeeds.

use vstd::prelude::*;

use vstd::arithmetic::div_mod::{
    lemma_div_pos_is_pos, lemma_fundamental_div_mod, lemma_fundamental_div_mod_converse,
    lemma_mod_pos_bound,
};

use crate::catalog::{churn_views, Catalog};
use crate::model::{App, AppV, Column, ColumnV, StoreError};

verus! {

/// The column list with repeated selectors dropped, keeping the first
/// occurrence of each value: repeated selectors would only produce
/// redundant identical keys.
pub open spec fn dedup_views(s: Seq<ColumnV>) -> Seq<ColumnV>
    decreases s.len(),
{
    if s.len() == 0 {
        Seq::empty()
    } else {
        let rest = dedup_views(s.drop_last());
        if rest.contains(s.last()) {
            rest
        } else {
            rest.push(s.last())
        }
    }
}

/// De-duplication leaves no two equal column values behind.
pub proof fn lemma_dedup_views_distinct(s: Seq<ColumnV>)
    ensures
        forall|i: int, j: int|
            0 <= i < j < dedup_views(s).len() ==> #[trigger] dedup_views(s)[i]
                != #[trigger] dedup_views(s)[j],
    decreases s.len(),
{
    if s.len() == 0 {
    } else {
        lemma_dedup_views_distinct(s.drop_last());
        let rest = dedup_views(s.drop_last());
        if !rest.contains(s.last()) {
            assert forall|i: int, j: int|
                0 <= i < j < dedup_views(s).len() implies #[trigger] dedup_views(s)[i]
                != #[trigger] dedup_views(s)[j] by {
                if j == rest.len() {
                    assert(dedup_views(s)[i] == rest[i]);
                    assert(!rest.contains(s.last()));
                }
            }
        }
    }
}

/// One cell of the matrix: the result of the churn query for the ordered
/// pair `(from, to)`.
#[derive(Debug)]
pub struct MatrixCell {
    pub from: Column,
    pub to: Column,
    pub apps: Vec<App>,
}

/// The mathematical value of a [`MatrixCell`].
#[verifier::ext_equal]
pub struct MatrixCellV {
    pub from: ColumnV,
    pub to: ColumnV,
    pub apps: Seq<AppV>,
}

impl View for MatrixCell {
    type V = MatrixCellV;

    open spec fn view(&self) -> MatrixCellV {
        MatrixCellV { from: self.from@, to: self.to@, apps: self.apps.deep_view() }
    }
}

impl DeepView for MatrixCell {
    type V = MatrixCellV;

    open spec fn deep_view(&self) -> MatrixCellV {
        self.view()
    }
}

/// The complete churn result for every ordered pair of selected columns: a
/// lookup keyed by `(from, to)`.
#[derive(Debug)]
pub struct Matrix {
    cells: Vec<MatrixCell>,
}

impl View for Matrix {
    type V = Seq<MatrixCellV>;

    closed spec fn view(&self) -> Seq<MatrixCellV> {
        self.cells.deep_view()
    }
}

impl Matrix {
    /// Well-formedness: no two cells share a key.
    pub open spec fn wf(&self) -> bool {
        forall|p: int, q: int|
            0 <= p < q < self@.len() ==> !((#[trigger] self@[p]).from == (#[trigger] self@[q]).from
                && self@[p].to == self@[q].to)
    }

    /// Whether some cell is keyed by `(f, t)`.
    pub open spec fn contains_key(&self, f: ColumnV, t: ColumnV) -> bool {
        exists|p: int| 0 <= p < self@.len() && (#[trigger] self@[p]).from == f && self@[p].to == t
    }

    /// How many cells the matrix holds.
    pub fn len(&self) -> (n: usize)
        ensures
            n == self@.len(),
    {
        self.cells.len()
    }

    /// Looks up the cell keyed by `(from, to)`.
    pub fn get(&self, from: &Column, to: &Column) -> (r: Option<&Vec<App>>)
        ensures
            r is Some <==> self.contains_key(from@, to@),
            (r matches Some(v) ==> exists|p: int|
                0 <= p < self@.len() && (#[trigger] self@[p]).from == from@ && self@[p].to == to@
                    && v.deep_view() == self@[p].apps),
    {
        let n = self.cells.len();
        for p in 0..n
            invariant
                n == self@.len(),
                forall|m: int|
                    0 <= m < p ==> !((#[trigger] self@[m]).from == from@ && self@[m].to == to@),
        {
            if self.cells[p].from == *from && self.cells[p].to == *to {
                proof {
                    assert((self@[p as int]).from == from@ && self@[p as int].to == to@);
                }
                return Some(&self.cells[p].apps);
            }
        }
        None
    }
}

/// Whether the store served, with rows, each of the first `n2` per-pair
/// fetches of one build.
pub open spec fn replies_serve(rs: Seq<Result<Vec<App>, StoreError>>, n2: int) -> bool {
    forall|k: int| 0 <= k < n2 ==> k < rs.len() && (#[trigger] rs[k]) is Ok
}

/// Whether `k` is the first of the `n2` per-pair fetches that the store
/// failed — either an explicit failure reply, or the end of a reply list
/// too short to cover every pair (a malformed response) — and `e` the error
/// reported for it.
pub open spec fn first_failure_is(
    rs: Seq<Result<Vec<App>, StoreError>>,
    n2: int,
    k: int,
    e: StoreError,
) -> bool {
    &&& 0 <= k < n2
    &&& forall|j: int| 0 <= j < k ==> j < rs.len() && (#[trigger] rs[j]) is Ok
    &&& if k < rs.len() {
        rs[k] is Err && e == rs[k]->Err_0
    } else {
        e == StoreError::MalformedRow
    }
}

/// Whether cell `p` of a row-major matrix over the de-duplicated columns
/// `d` (side length `n`) is keyed by the pair it stands for and holds the
/// rows of the store's reply to that pair's fetch.
pub open spec fn cell_ok(
    cs: Seq<MatrixCellV>,
    d: Seq<ColumnV>,
    n: int,
    rs: Seq<Result<Vec<App>, StoreError>>,
    p: int,
) -> bool {
    &&& cs[p].from == d[p / n]
    &&& cs[p].to == d[p % n]
    &&& p < rs.len()
    &&& rs[p] is Ok
    &&& cs[p].apps == rs[p]->Ok_0.deep_view()
}

/// A valid grid index decomposes into a row and a column below the side
/// length.
proof fn lemma_grid_index(n: int, p: int)
    requires
        0 < n,
        0 <= p < n * n,
    ensures
        0 <= p / n < n,
        0 <= p % n < n,
        p == (p / n) * n + (p % n),
{
    lemma_fundamental_div_mod(p, n);
    lemma_mod_pos_bound(p, n);
    lemma_div_pos_is_pos(p, n);
    assert(n * (p / n) == (p / n) * n) by (nonlinear_arith);
    assert(p / n < n) by (nonlinear_arith)
        requires
            p == n * (p / n) + (p % n),
            0 <= p % n,
            p < n * n,
            0 <= p / n,
            0 < n,
    ;
}

/// A row and a column below the side length make a valid grid index, and
/// the decomposition recovers them.
proof fn lemma_grid_index_of(n: int, i: int, j: int)
    requires
        0 < n,
        0 <= i < n,
        0 <= j < n,
    ensures
        0 <= i * n + j < n * n,
        (i * n + j) / n == i,
        (i * n + j) % n == j,
{
    assert(0 <= i * n + j < n * n) by (nonlinear_arith)
        requires
            0 <= i < n,
            0 <= j < n,
    ;
    lemma_fundamental_div_mod_converse(i * n + j, n, i, j);
}

/// Whether the column list already holds this selector's value.
fn contains_column(cols: &Vec<Column>, c: &Column) -> (r: bool)
    ensures
        r == cols.deep_view().contains(c@),
{
    let n = cols.len();
    for i in 0..n
        invariant
            n == cols@.len(),
            forall|m: int| 0 <= m < i ==> #[trigger] cols.deep_view()[m] != c@,
    {
        if cols[i] == *c {
            proof {
                assert(cols.deep_view()[i as int] == c@);
            }
            return true;
        }
    }
    false
}

/// Drops repeated selectors from the column list, keeping first
/// occurrences in order.
fn dedup_columns(cols: &Vec<Column>) -> (r: Vec<Column>)
    ensures
        r.deep_view() == dedup_views(cols.deep_view()),
{
    let mut out: Vec<Column> = Vec::new();
    let n = cols.len();
    for i in 0..n
        invariant
            n == cols@.len(),
            out.deep_view() =~= dedup_views(cols.deep_view().subrange(0, i as int)),
    {
        proof {
            let full = cols.deep_view();
            let prefix1 = full.subrange(0, i as int + 1);
            assert(prefix1.drop_last() =~= full.subrange(0, i as int));
            assert(prefix1.last() == full[i as int]);
            assert(dedup_views(prefix1) == if dedup_views(prefix1.drop_last()).contains(
                prefix1.last(),
            ) {
                dedup_views(prefix1.drop_last())
            } else {
                dedup_views(prefix1.drop_last()).push(prefix1.last())
            });
        }
        if !contains_column(&out, &cols[i]) {
            let ghost prev = out.deep_view();
            out.push(cols[i].clone());
            proof {
                assert(out.deep_view() =~= prev.push(cols.deep_view()[i as int]));
            }
        }
    }
    proof {
        assert(cols.deep_view().subrange(0, n as int) =~= cols.deep_view());
    }
    out
}

/// Copies the app entries of one store reply.
fn clone_apps(apps: &Vec<App>) -> (r: Vec<App>)
    ensures
        r.deep_view() == apps.deep_view(),
{
    let mut out: Vec<App> = Vec::new();
    let n = apps.len();
    for i in 0..n
        invariant
            n == apps@.len(),
            out.deep_view() =~= apps.deep_view().subrange(0, i as int),
    {
        let ghost prev = out.deep_view();
        out.push(apps[i].clone());
        proof {
            assert(out.deep_view() =~= prev.push(apps.deep_view()[i as int]));
            assert(prev.push(apps.deep_view()[i as int]) =~= apps.deep_view().subrange(
                0,
                i as int + 1,
            ));
        }
    }
    proof {
        assert(apps.deep_view().subrange(0, n as int) =~= apps.deep_view());
    }
    out
}

/// Builds the churn matrix for `columns` from one store reply per ordered
/// pair of the de-duplicated columns, taken in row-major order.
///
/// Either the store serves every pair and the build returns the complete
/// matrix — exactly one cell per ordered pair — or the first failure aborts
/// the whole build and is surfaced as the single error, with no partial
/// matrix returned.  A reply list too short to cover every pair is a
/// malformed store response.  An empty column list yields the empty matrix,
/// not an error.
pub fn build_matrix(columns: &Vec<Column>, replies: &Vec<Result<Vec<App>, StoreError>>) -> (r:
    Result<Matrix, StoreError>)
    ensures
        ({
            let d = dedup_views(columns.deep_view());
            let n = d.len() as int;
            &&& (r is Ok <==> replies_serve(replies@, n * n))
            &&& (r matches Ok(m) ==> m.wf() && m@.len() == n * n && forall|p: int|
                0 <= p < n * n ==> #[trigger] cell_ok(m@, d, n, replies@, p))
            &&& (r matches Ok(m) ==> forall|i: int, j: int|
                0 <= i < n && 0 <= j < n ==> #[trigger] m.contains_key(d[i], d[j]))
            &&& (r matches Err(e) ==> exists|k: int|
                #[trigger] first_failure_is(replies@, n * n, k, e))
        }),
{
    let d = dedup_columns(columns);
    let n = d.len();
    let ghost dv = dedup_views(columns.deep_view());
    let ghost nn = n as int;
    let mut cells: Vec<MatrixCell> = Vec::new();
    proof {
        assert(0 * nn == 0) by (nonlinear_arith);
    }
    for i in 0..n
        invariant
            n == d@.len(),
            d.deep_view() == dv,
            dv == dedup_views(columns.deep_view()),
            nn == n as int,
            cells.deep_view().len() == (i as int) * nn,
            forall|p: int|
                0 <= p < cells.deep_view().len() ==> #[trigger] cell_ok(
                    cells.deep_view(),
                    dv,
                    nn,
                    replies@,
                    p,
                ),
    {
        for j in 0..n
            invariant
                n == d@.len(),
                d.deep_view() == dv,
                dv == dedup_views(columns.deep_view()),
                nn == n as int,
                i < n,
                cells.deep_view().len() == (i as int) * nn + (j as int),
                forall|p: int|
                    0 <= p < cells.deep_view().len() ==> #[trigger] cell_ok(
                        cells.deep_view(),
                        dv,
                        nn,
                        replies@,
                        p,
                    ),
        {
            let k = cells.len();
            proof {
                lemma_grid_index_of(nn, i as int, j as int);
                assert(k as int == (i as int) * nn + (j as int));
            }
            if k >= replies.len() {
                proof {
                    assert forall|j2: int| 0 <= j2 < k as int implies j2 < replies@.len() && (
                    #[trigger] replies@[j2]) is Ok by {
                        assert(cell_ok(cells.deep_view(), dv, nn, replies@, j2));
                    }
                    assert(first_failure_is(
                        replies@,
                        nn * nn,
                        k as int,
                        StoreError::MalformedRow,
                    ));
                    assert(!replies_serve(replies@, nn * nn)) by {
                        if replies_serve(replies@, nn * nn) {
                            let ghost x = replies@[k as int];
                            assert((k as int) < replies@.len());
                        }
                    }
                }
                return Err(StoreError::MalformedRow);
            }
            match &replies[k] {
                Ok(apps) => {
                    let cell = MatrixCell {
                        from: d[i].clone(),
                        to: d[j].clone(),
                        apps: clone_apps(apps),
                    };
                    let ghost cellv = cell@;
                    let ghost prev = cells.deep_view();
                    cells.push(cell);
                    proof {
                        assert(cells.deep_view() =~= prev.push(cellv));
                        assert forall|p: int| 0 <= p < cells.deep_view().len() implies #[trigger] cell_ok(
                            cells.deep_view(),
                            dv,
                            nn,
                            replies@,
                            p,
                        ) by {
                            if p < prev.len() {
                                assert(cell_ok(prev, dv, nn, replies@, p));
                                assert(cells.deep_view()[p] == prev[p]);
                            } else {
                                assert(cells.deep_view()[p] == cellv);
                                assert(p == k as int);
                            }
                        }
                    }
                },
                Err(e) => {
                    proof {
                        assert forall|j2: int| 0 <= j2 < k as int implies j2 < replies@.len() && (
                        #[trigger] replies@[j2]) is Ok by {
                            assert(cell_ok(cells.deep_view(), dv, nn, replies@, j2));
                        }
                        assert(first_failure_is(replies@, nn * nn, k as int, *e));
                        assert(!replies_serve(replies@, nn * nn)) by {
                            if replies_serve(replies@, nn * nn) {
                                let ghost x = replies@[k as int];
                                assert(x is Ok);
                            }
                        }
                    }
                    return Err(*e);
                },
            }
        }
        proof {
            assert(((i as int) + 1) * nn == (i as int) * nn + nn) by (nonlinear_arith);
        }
    }
    let m = Matrix { cells };
    proof {
        assert((n as int) * nn == nn * nn);
        assert(m@.len() == nn * nn);
        assert forall|k2: int| 0 <= k2 < nn * nn implies k2 < replies@.len() && (
        #[trigger] replies@[k2]) is Ok by {
            assert(cell_ok(m@, dv, nn, replies@, k2));
        }
        lemma_dedup_views_distinct(columns.deep_view());
        if nn > 0 {
            assert forall|p: int, q: int| 0 <= p < q < m@.len() implies !((#[trigger] m@[p]).from
                == (#[trigger] m@[q]).from && m@[p].to == m@[q].to) by {
                lemma_grid_index(nn, p);
                lemma_grid_index(nn, q);
                assert(cell_ok(m@, dv, nn, replies@, p));
                assert(cell_ok(m@, dv, nn, replies@, q));
                if m@[p].from == m@[q].from && m@[p].to == m@[q].to {
                    assert(dv[p / nn] == dv[q / nn]);
                    assert(dv[p % nn] == dv[q % nn]);
                    assert(p / nn == q / nn);
                    assert(p % nn == q % nn);
                    assert(false);
                }
            }
        }
        assert(replies_serve(replies@, nn * nn));
        assert forall|i2: int, j2: int| 0 <= i2 < nn && 0 <= j2 < nn implies #[trigger] m.contains_key(
            dv[i2],
            dv[j2],
        ) by {
            lemma_grid_index_of(nn, i2, j2);
            let p = i2 * nn + j2;
            assert(cell_ok(m@, dv, nn, replies@, p));
            assert(0 <= p < m@.len() && m@[p].from == dv[i2] && m@[p].to == dv[j2]);
        }
    }
    Ok(m)
}

/// The single entry point over a snapshot: evaluates the churn query for
/// every ordered pair drawn from the de-duplicated columns and assembles
/// the keyed result.
///
/// The matrix holds exactly one cell per ordered pair — `n * n` cells for
/// `n` distinct column values, none for an empty column list — and the cell
/// keyed `(from, to)` holds exactly the churn query's answer for that pair.
pub fn churn_matrix(cat: &Catalog, columns: &Vec<Column>) -> (m: Matrix)
    ensures
        ({
            let d = dedup_views(columns.deep_view());
            let n = d.len() as int;
            &&& m.wf()
            &&& m@.len() == n * n
            &&& forall|p: int|
                0 <= p < n * n ==> ((#[trigger] m@[p]).from == d[p / n] && m@[p].to == d[p % n]
                    && m@[p].apps == churn_views(cat@, d[p / n], d[p % n]))
            &&& forall|i: int, j: int|
                0 <= i < n && 0 <= j < n ==> #[trigger] m.contains_key(d[i], d[j])
        }),
{
    let d = dedup_columns(columns);
    let n = d.len();
    let ghost dv = dedup_views(columns.deep_view());
    let ghost nn = n as int;
    let mut replies: Vec<Result<Vec<App>, StoreError>> = Vec::new();
    proof {
        assert(0 * nn == 0) by (nonlinear_arith);
    }
    for i in 0..n
        invariant
            n == d@.len(),
            d.deep_view() == dv,
            dv == dedup_views(columns.deep_view()),
            nn == n as int,
            replies@.len() == (i as int) * nn,
            forall|p: int|
                0 <= p < replies@.len() ==> (#[trigger] replies@[p]) is Ok
                    && replies@[p]->Ok_0.deep_view() == churn_views(cat@, dv[p / nn], dv[p % nn]),
    {
        for j in 0..n
            invariant
                n == d@.len(),
                d.deep_view() == dv,
                dv == dedup_views(columns.deep_view()),
                nn == n as int,
                i < n,
                replies@.len() == (i as int) * nn + (j as int),
                forall|p: int|
                    0 <= p < replies@.len() ==> (#[trigger] replies@[p]) is Ok
                        && replies@[p]->Ok_0.deep_view() == churn_views(
                        cat@,
                        dv[p / nn],
                        dv[p % nn],
                    ),
        {
            let ghost k = replies@.len();
            proof {
                lemma_grid_index_of(nn, i as int, j as int);
                assert(k == (i as int) * nn + (j as int));
            }
            let rows = cat.churn(&d[i], &d[j]);
            let ghost prev = replies@;
            replies.push(Ok(rows));
            proof {
                assert(replies@ =~= prev.push(replies@[k as int]));
                assert forall|p: int| 0 <= p < replies@.len() implies (#[trigger] replies@[p]) is Ok
                    && replies@[p]->Ok_0.deep_view() == churn_views(
                    cat@,
                    dv[p / nn],
                    dv[p % nn],
                ) by {
                    if p < prev.len() {
                        assert(replies@[p] == prev[p]);
                        assert((prev[p]) is Ok && prev[p]->Ok_0.deep_view() == churn_views(
                            cat@,
                            dv[p / nn],
                            dv[p % nn],
                        ));
                    } else {
                        assert(p == k);
                    }
                }
            }
        }
        proof {
            assert(((i as int) + 1) * nn == (i as int) * nn + nn) by (nonlinear_arith);
        }
    }
    match build_matrix(columns, &replies) {
        Ok(m) => {
            proof {
                assert forall|p: int| 0 <= p < nn * nn implies ((#[trigger] m@[p]).from == dv[p
                    / nn] && m@[p].to == dv[p % nn] && m@[p].apps == churn_views(
                    cat@,
                    dv[p / nn],
                    dv[p % nn],
                )) by {
                    assert(cell_ok(m@, dv, nn, replies@, p));
                }
            }
            m
        },
        Err(_) => {
            proof {
                assert(replies_serve(replies@, nn * nn));
            }
            vstd::pervasive::unreached()
        },
    }
}

} // verus!
