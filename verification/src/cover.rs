//! Exact covers of incidence matrices: the sets of rows that hold each
//! column exactly once. Samples of answer sets that represent a program
//! are searched as exact covers of a matrix whose rows are answer sets (or
//! the consequences of facets) and whose columns are atoms.
use vstd::prelude::*;

use crate::symbol::{Symbol, SymbolView};
use crate::utils::{symbols_contain, views};

verus! {

/// Which consequences of each facet make up the rows of an incidence
/// matrix.
#[derive(Debug, Clone, Copy, PartialEq, Eq, Structural)]
pub enum Incidences {
    /// Row `f`, column `a`: `a` is a brave consequence under `f`.
    Brave,
    /// Row `f`, column `a`: `a` is a cautious consequence under `f`.
    Cautious,
    /// Row `f`, column `a`: `a` is a facet under `f`.
    Facet,
}

/// An incidence matrix: a number of columns and rows of that many flags.
pub struct Matrix {
    /// Number of columns.
    pub n_cols: usize,
    /// The rows, in the order they were added.
    pub rows: Vec<Vec<bool>>,
}

/// The rows of a matrix.
pub open spec fn rows_view(rows: Seq<Vec<bool>>) -> Seq<Seq<bool>> {
    rows.map_values(|r: Vec<bool>| r@)
}

/// How many of the rows at the positions `sel` have column `c`.
pub open spec fn hits(rows: Seq<Seq<bool>>, sel: Seq<usize>, c: int) -> nat
    decreases sel.len(),
{
    if sel.len() == 0 {
        0
    } else {
        hits(rows, sel.drop_last(), c) + if rows[sel.last() as int][c] {
            1nat
        } else {
            0nat
        }
    }
}

/// Whether the positions `sel` increase strictly.
pub open spec fn increasing(sel: Seq<usize>) -> bool {
    forall|a: int, b: int| 0 <= a < b < sel.len() ==> sel[a] < sel[b]
}

/// Whether the rows at the positions `sel` (increasing, each a row) hold
/// each of the `n` columns exactly once.
pub open spec fn is_exact_cover(rows: Seq<Seq<bool>>, n: nat, sel: Seq<usize>) -> bool {
    &&& increasing(sel)
    &&& forall|k: int| 0 <= k < sel.len() ==> #[trigger] sel[k] < rows.len()
    &&& forall|c: int| 0 <= c < n ==> #[trigger] hits(rows, sel, c) == 1
}

impl Matrix {
    /// Whether each row has one flag per column.
    pub open spec fn wf(&self) -> bool {
        forall|i: int| 0 <= i < self.rows@.len() ==> #[trigger] self.rows@[i]@.len() == self.n_cols
    }

    /// A matrix with `n_cols` columns and no row.
    pub fn new(n_cols: usize) -> (r: Matrix)
        ensures
            r.wf(),
            r.n_cols == n_cols,
            r.rows@.len() == 0,
    {
        Matrix { n_cols, rows: Vec::new() }
    }

    /// Adds a row, with one flag per column.
    pub fn add_row(&mut self, row: &[bool])
        requires
            old(self).wf(),
            row@.len() == old(self).n_cols,
        ensures
            final(self).wf(),
            final(self).n_cols == old(self).n_cols,
            rows_view(final(self).rows@) == rows_view(old(self).rows@).push(row@),
    {
        let mut v: Vec<bool> = Vec::new();
        let mut i: usize = 0;
        while i < row.len()
            invariant
                i <= row@.len(),
                v@ == row@.subrange(0, i as int),
            decreases row@.len() - i,
        {
            v.push(row[i]);
            i = i + 1;
        }
        assert(row@.subrange(0, row@.len() as int) =~= row@);
        self.rows.push(v);
        assert(rows_view(self.rows@) =~= rows_view(old(self).rows@).push(row@));
    }
}

/// Whether `sel` continues the positions `chosen` with positions from `i`
/// on.
pub open spec fn extends(sel: Seq<usize>, chosen: Seq<usize>, i: int) -> bool {
    &&& chosen.len() <= sel.len()
    &&& sel.take(chosen.len() as int) == chosen
    &&& forall|k: int| chosen.len() <= k < sel.len() ==> i <= #[trigger] sel[k]
}

proof fn lemma_hits_push(rows: Seq<Seq<bool>>, s: Seq<usize>, x: usize, c: int)
    ensures
        hits(rows, s.push(x), c) == hits(rows, s, c) + if rows[x as int][c] {
            1nat
        } else {
            0nat
        },
{
    assert(s.push(x).drop_last() =~= s);
}

proof fn lemma_hits_prefix(rows: Seq<Seq<bool>>, s: Seq<usize>, k: int, c: int)
    requires
        0 <= k <= s.len(),
    ensures
        hits(rows, s.take(k), c) <= hits(rows, s, c),
    decreases s.len() - k,
{
    if k < s.len() {
        lemma_hits_prefix(rows, s, k + 1, c);
        assert(s.take(k + 1).drop_last() =~= s.take(k));
    } else {
        assert(s.take(k) =~= s);
    }
}

/// The columns that the rows at `chosen` hold, one flag per column, when
/// they hold none twice.
pub open spec fn marks(rows: Seq<Seq<bool>>, n: nat, chosen: Seq<usize>, used: Seq<bool>) -> bool {
    &&& used.len() == n
    &&& forall|c: int|
        0 <= c < n ==> (#[trigger] used[c] == (hits(rows, chosen, c) > 0)) && hits(rows, chosen, c)
            <= 1
}

/// Appends to `out` every exact cover that continues `chosen` (the rows so
/// far, which hold the columns marked in `used`) with rows from `i` on, each
/// once.
fn search(
    rows: &Vec<Vec<bool>>,
    n: usize,
    i: usize,
    chosen: Vec<usize>,
    used: Vec<bool>,
    out: &mut Vec<Vec<usize>>,
)
    requires
        forall|r: int| 0 <= r < rows@.len() ==> #[trigger] rows@[r]@.len() == n,
        i <= rows@.len(),
        increasing(chosen@),
        forall|k: int| 0 <= k < chosen@.len() ==> #[trigger] chosen@[k] < i,
        marks(rows_view(rows@), n as nat, chosen@, used@),
    ensures
        final(out)@.len() >= old(out)@.len(),
        final(out)@.subrange(0, old(out)@.len() as int) == old(out)@,
        forall|k: int|
            old(out)@.len() <= k < final(out)@.len() ==> is_exact_cover(
                rows_view(rows@),
                n as nat,
                #[trigger] final(out)@[k]@,
            ) && extends(final(out)@[k]@, chosen@, i as int),
        forall|sel: Seq<usize>|
            is_exact_cover(rows_view(rows@), n as nat, sel) && extends(sel, chosen@, i as int)
                ==> exists|k: int| old(out)@.len() <= k < final(out)@.len() && #[trigger] final(out)@[k]@
                == sel,
        forall|a: int, b: int|
            old(out)@.len() <= a < b < final(out)@.len() ==> #[trigger] final(out)@[a]@
                != #[trigger] final(out)@[b]@,
    decreases rows@.len() - i,
{
    let ghost rv = rows_view(rows@);
    let ghost out0 = out@;
    assert(forall|r: int| 0 <= r < rv.len() ==> #[trigger] rv[r] == rows@[r]@);
    if i == rows.len() {
        let mut all = true;
        let mut c: usize = 0;
        while c < n
            invariant
                c <= n,
                used@.len() == n,
                all == forall|d: int| 0 <= d < c ==> #[trigger] used@[d],
            decreases n - c,
        {
            if !used[c] {
                all = false;
            }
            c = c + 1;
        }
        let ghost ch = chosen@;
        proof {
            assert(ch.take(ch.len() as int) =~= ch);
            assert forall|sel: Seq<usize>|
                is_exact_cover(rv, n as nat, sel) && extends(sel, ch, i as int) implies sel == ch by {
                if sel.len() > ch.len() {
                    assert(sel[ch.len() as int] < rv.len());
                }
                assert(sel =~= sel.take(ch.len() as int));
            }
            if all {
                assert forall|d: int| 0 <= d < n implies #[trigger] hits(rv, ch, d) == 1 by {
                    assert(used@[d]);
                }
            } else {
                let d = choose|d: int| 0 <= d < n && !#[trigger] used@[d];
                assert(hits(rv, ch, d) == 0);
                assert(!is_exact_cover(rv, n as nat, ch));
            }
        }
        if all {
            out.push(chosen);
            proof {
                assert(out@[out0.len() as int]@ == ch);
                assert forall|sel: Seq<usize>|
                    is_exact_cover(rv, n as nat, sel) && extends(sel, ch, i as int) implies exists|k: int|
                    out0.len() <= k < out@.len() && #[trigger] out@[k]@ == sel by {
                    assert(out@[out0.len() as int]@ == sel);
                }
                assert(out@.subrange(0, out0.len() as int) =~= out0);
            }
        }
        return;
    }
    let ghost ch = chosen@;
    let mut fits = true;
    let mut c: usize = 0;
    while c < n
        invariant
            c <= n,
            i < rows@.len(),
            rows@[i as int]@.len() == n,
            used@.len() == n,
            fits == forall|d: int| 0 <= d < c ==> !(rows@[i as int]@[d] && #[trigger] used@[d]),
        decreases n - c,
    {
        if rows[i][c] && used[c] {
            fits = false;
        }
        c = c + 1;
    }
    if fits {
        let mut chosen2: Vec<usize> = Vec::new();
        let mut k: usize = 0;
        while k < chosen.len()
            invariant
                k <= chosen@.len(),
                chosen2@ == chosen@.subrange(0, k as int),
            decreases chosen@.len() - k,
        {
            chosen2.push(chosen[k]);
            k = k + 1;
        }
        assert(chosen@.subrange(0, chosen@.len() as int) =~= chosen@);
        chosen2.push(i);
        let mut used2: Vec<bool> = Vec::new();
        let mut d: usize = 0;
        while d < n
            invariant
                d <= n,
                i < rows@.len(),
                rows@[i as int]@.len() == n,
                used@.len() == n,
                used2@.len() == d,
                forall|e: int| 0 <= e < d ==> #[trigger] used2@[e] == (used@[e] || rows@[i as int]@[e]),
            decreases n - d,
        {
            used2.push(used[d] || rows[i][d]);
            d = d + 1;
        }
        proof {
            assert(chosen2@ =~= ch.push(i));
            assert forall|e: int| 0 <= e < n implies (#[trigger] used2@[e] == (hits(
                rv,
                chosen2@,
                e,
            ) > 0)) && hits(rv, chosen2@, e) <= 1 by {
                lemma_hits_push(rv, ch, i, e);
                assert(!(rows@[i as int]@[e] && used@[e]));
                assert(rv[i as int] == rows@[i as int]@);
                assert(used2@[e] == (used@[e] || rows@[i as int]@[e]));
                assert(used@[e] == (hits(rv, ch, e) > 0));
                assert(hits(rv, ch, e) <= 1);
            }
            assert(marks(rv, n as nat, chosen2@, used2@));
        }
        search(rows, n, i + 1, chosen2, used2, out);
    }
    let ghost out1 = out@;
    search(rows, n, i + 1, chosen, used, out);
    proof {
        let take = ch.push(i);
        // every appended cover continues `chosen`
        assert forall|k: int| out0.len() <= k < out@.len() implies is_exact_cover(
            rv,
            n as nat,
            #[trigger] out@[k]@,
        ) && extends(out@[k]@, ch, i as int) by {
            if k < out1.len() {
                assert(out@[k] == out1[k]);
                let s = out@[k]@;
                assert(fits);
                assert(extends(s, take, i + 1));
                assert(s.take(take.len() as int).take(ch.len() as int) =~= s.take(ch.len() as int));
                assert(take.take(ch.len() as int) =~= ch);
                assert(s[ch.len() as int] == take[ch.len() as int]);
            }
        }
        // every cover that continues `chosen` is appended
        assert forall|sel: Seq<usize>|
            is_exact_cover(rv, n as nat, sel) && extends(sel, ch, i as int) implies exists|k: int|
            out0.len() <= k < out@.len() && #[trigger] out@[k]@ == sel by {
            if sel.len() > ch.len() && sel[ch.len() as int] == i {
                assert(sel.take(ch.len() as int + 1) =~= take);
                assert(extends(sel, take, i + 1)) by {
                    assert forall|k: int| take.len() <= k < sel.len() implies i + 1 <= #[trigger] sel[k] by {
                        assert(sel[ch.len() as int] < sel[k]);
                    }
                }
                assert(fits) by {
                    if !fits {
                        let d = choose|d: int| 0 <= d < n && (rows@[i as int]@[d] && #[trigger] used@[d]);
                        lemma_hits_push(rv, ch, i, d);
                        lemma_hits_prefix(rv, sel, ch.len() as int + 1, d);
                        assert(hits(rv, sel, d) == 1);
                    }
                }
                let k = choose|k: int| out0.len() <= k < out1.len() && #[trigger] out1[k]@ == sel;
                assert(out@[k] == out1[k]);
            } else {
                assert(extends(sel, ch, i + 1)) by {
                    assert forall|k: int| ch.len() <= k < sel.len() implies i + 1 <= #[trigger] sel[k] by {
                        if k > ch.len() {
                            assert(sel[ch.len() as int] < sel[k]);
                        }
                    }
                }
            }
        }
        // nothing is appended twice
        assert forall|a: int, b: int| out0.len() <= a < b < out@.len() implies #[trigger] out@[a]@
            != #[trigger] out@[b]@ by {
            if b >= out1.len() && a < out1.len() {
                assert(out@[a] == out1[a]);
                let s = out@[a]@;
                let t = out@[b]@;
                assert(extends(s, take, i + 1));
                assert(s.take(take.len() as int)[ch.len() as int] == s[ch.len() as int]);
                if s == t {
                    assert(t[ch.len() as int] == i);
                }
            } else if b < out1.len() {
                assert(out@[a] == out1[a]);
                assert(out@[b] == out1[b]);
            }
        }
        assert(out@.subrange(0, out0.len() as int) =~= out0) by {
            assert(out1.subrange(0, out0.len() as int) =~= out0);
            assert forall|k: int| 0 <= k < out0.len() implies out@[k] == out0[k] by {
                assert(out@[k] == out1[k]);
            }
        }
    }
}

/// Every exact cover of the matrix, once each: the positions of its rows,
/// increasing.
pub fn solve_all(m: Matrix) -> (r: Vec<Vec<usize>>)
    requires
        m.wf(),
    ensures
        forall|k: int|
            0 <= k < r@.len() ==> is_exact_cover(rows_view(m.rows@), m.n_cols as nat, #[trigger] r@[k]@),
        forall|sel: Seq<usize>|
            is_exact_cover(rows_view(m.rows@), m.n_cols as nat, sel) ==> exists|k: int|
                0 <= k < r@.len() && #[trigger] r@[k]@ == sel,
        forall|a: int, b: int| 0 <= a < b < r@.len() ==> #[trigger] r@[a]@ != #[trigger] r@[b]@,
{
    let mut used: Vec<bool> = Vec::new();
    let mut c: usize = 0;
    while c < m.n_cols
        invariant
            c <= m.n_cols,
            used@.len() == c,
            forall|d: int| 0 <= d < c ==> !#[trigger] used@[d],
        decreases m.n_cols - c,
    {
        used.push(false);
        c = c + 1;
    }
    let mut out: Vec<Vec<usize>> = Vec::new();
    let chosen: Vec<usize> = Vec::new();
    let ghost empty = chosen@;
    proof {
        assert forall|d: int| 0 <= d < m.n_cols implies (#[trigger] used@[d] == (hits(
            rows_view(m.rows@),
            chosen@,
            d,
        ) > 0)) && hits(rows_view(m.rows@), chosen@, d) <= 1 by {}
    }
    search(&m.rows, m.n_cols, 0, chosen, used, &mut out);
    proof {
        assert forall|sel: Seq<usize>| is_exact_cover(rows_view(m.rows@), m.n_cols as nat, sel) implies exists|k: int|
            0 <= k < out@.len() && #[trigger] out@[k]@ == sel by {
            assert(sel.take(0) =~= empty);
            assert(extends(sel, empty, 0));
        }
    }
    out
}

/// The incidences of consequences with facets: for each facet in order,
/// whether it is among the consequences `cons`.
pub open spec fn incidence_row(facets: Seq<SymbolView>, cons: Seq<SymbolView>) -> Seq<bool> {
    Seq::new(facets.len(), |j: int| cons.contains(facets[j]))
}

/// The rows of the incidence table: for the `i`-th facet, the incidences of
/// the consequences under it (row `2i`) and under its exclusive form (row
/// `2i + 1`).
pub open spec fn table_rows(
    facets: Seq<SymbolView>,
    under: Seq<Seq<SymbolView>>,
    under_exclusive: Seq<Seq<SymbolView>>,
) -> Seq<Seq<bool>> {
    Seq::new(
        2 * facets.len(),
        |k: int|
            if k % 2 == 0 {
                incidence_row(facets, under[k / 2])
            } else {
                incidence_row(facets, under_exclusive[k / 2])
            },
    )
}

/// The values of a sequence of vectors of symbols.
pub open spec fn symbol_sets(s: Seq<Vec<Symbol>>) -> Seq<Seq<SymbolView>> {
    s.map_values(|v: Vec<Symbol>| views(v@))
}

/// An incidence table of the initial facets: one column per facet, and for
/// each facet a row under the facet and a row under its exclusive form.
pub struct Table {
    /// The incidences.
    pub incidences: Matrix,
    /// The facets of the columns, in order.
    pub initial_facets: Vec<Symbol>,
}

/// The incidences of the consequences `cons` with the facets.
fn incidences_of(facets: &Vec<Symbol>, cons: &Vec<Symbol>) -> (r: Vec<bool>)
    ensures
        r@ == incidence_row(views(facets@), views(cons@)),
{
    let mut r: Vec<bool> = Vec::new();
    let mut j: usize = 0;
    while j < facets.len()
        invariant
            j <= facets@.len(),
            r@.len() == j,
            forall|q: int| 0 <= q < j ==> #[trigger] r@[q] == views(cons@).contains(facets@[q]@),
        decreases facets@.len() - j,
    {
        let b = symbols_contain(cons.as_slice(), &facets[j]);
        r.push(b);
        j = j + 1;
    }
    assert(r@ =~= incidence_row(views(facets@), views(cons@)));
    r
}

/// The incidence rows of answer sets against a template of atoms: for each
/// answer set, whether it holds each atom of the template.
pub open spec fn sample_rows(template: Seq<SymbolView>, collection: Seq<Seq<SymbolView>>) -> Seq<Seq<bool>> {
    collection.map_values(|m: Seq<SymbolView>| incidence_row(template, m))
}

/// An exact cover of the template by answer sets of the collection (a
/// sample in which each atom of the template occurs exactly once): the
/// positions of its answer sets, if there is one.
pub fn sample_cover(collection: &Vec<Vec<Symbol>>, template: &Vec<Symbol>) -> (r: Option<Vec<usize>>)
    ensures
        r matches Some(sel) ==> is_exact_cover(
            sample_rows(views(template@), symbol_sets(collection@)),
            template@.len() as nat,
            sel@,
        ),
        r is None ==> forall|sel: Seq<usize>|
            !is_exact_cover(
                sample_rows(views(template@), symbol_sets(collection@)),
                template@.len() as nat,
                sel,
            ),
{
    let ghost target = sample_rows(views(template@), symbol_sets(collection@));
    let mut m = Matrix::new(template.len());
    let mut i: usize = 0;
    while i < collection.len()
        invariant
            i <= collection@.len(),
            m.wf(),
            m.n_cols == template@.len(),
            target == sample_rows(views(template@), symbol_sets(collection@)),
            rows_view(m.rows@) == target.take(i as int),
        decreases collection@.len() - i,
    {
        let row = incidences_of(template, &collection[i]);
        proof {
            assert(symbol_sets(collection@)[i as int] == views(collection@[i as int]@));
            assert(target[i as int] == row@);
        }
        m.add_row(row.as_slice());
        assert(target.take(i + 1) =~= target.take(i as int).push(row@));
        i = i + 1;
    }
    assert(target.take(i as int) =~= target);
    let covers = solve_all(m);
    if covers.len() > 0 {
        let mut first: Vec<usize> = Vec::new();
        let mut k: usize = 0;
        while k < covers[0].len()
            invariant
                covers@.len() > 0,
                k <= covers@[0]@.len(),
                first@ == covers@[0]@.take(k as int),
            decreases covers@[0]@.len() - k,
        {
            first.push(covers[0][k]);
            assert(covers@[0]@.take(k + 1) =~= covers@[0]@.take(k as int).push(covers@[0]@[k as int]));
            k = k + 1;
        }
        assert(covers@[0]@.take(k as int) =~= covers@[0]@);
        Some(first)
    } else {
        proof {
            assert forall|sel: Seq<usize>| !is_exact_cover(target, template@.len() as nat, sel) by {
                if is_exact_cover(target, template@.len() as nat, sel) {
                    let k = choose|k: int| 0 <= k < covers@.len() && #[trigger] covers@[k]@ == sel;
                }
            }
        }
        None
    }
}

impl Table {
    /// The table of the facets `initial_facets`, from the consequences under
    /// each facet (`under`) and under its exclusive form (`under_exclusive`),
    /// in the order of the facets.
    pub fn new(initial_facets: Vec<Symbol>, under: Vec<Vec<Symbol>>, under_exclusive: Vec<Vec<Symbol>>) -> (r: Table)
        requires
            under@.len() == initial_facets@.len(),
            under_exclusive@.len() == initial_facets@.len(),
        ensures
            r.incidences.wf(),
            r.incidences.n_cols == initial_facets@.len(),
            rows_view(r.incidences.rows@) == table_rows(
                views(initial_facets@),
                symbol_sets(under@),
                symbol_sets(under_exclusive@),
            ),
            views(r.initial_facets@) == views(initial_facets@),
    {
        let ghost target = table_rows(
            views(initial_facets@),
            symbol_sets(under@),
            symbol_sets(under_exclusive@),
        );
        let mut incidences = Matrix::new(initial_facets.len());
        let mut i: usize = 0;
        while i < initial_facets.len()
            invariant
                i <= initial_facets@.len(),
                under@.len() == initial_facets@.len(),
                under_exclusive@.len() == initial_facets@.len(),
                incidences.wf(),
                incidences.n_cols == initial_facets@.len(),
                target == table_rows(
                    views(initial_facets@),
                    symbol_sets(under@),
                    symbol_sets(under_exclusive@),
                ),
                incidences.rows@.len() == 2 * i,
                forall|k: int| 0 <= k < 2 * i ==> #[trigger] rows_view(incidences.rows@)[k] == target[k],
            decreases initial_facets@.len() - i,
        {
            let a = incidences_of(&initial_facets, &under[i]);
            let b = incidences_of(&initial_facets, &under_exclusive[i]);
            let ghost before = rows_view(incidences.rows@);
            incidences.add_row(a.as_slice());
            incidences.add_row(b.as_slice());
            proof {
                assert(incidences.rows@.len() == rows_view(incidences.rows@).len());
                assert(symbol_sets(under@)[i as int] == views(under@[i as int]@));
                assert(symbol_sets(under_exclusive@)[i as int] == views(under_exclusive@[i as int]@));
                assert forall|k: int| 0 <= k < 2 * (i + 1) implies #[trigger] rows_view(
                    incidences.rows@,
                )[k] == target[k] by {
                    if k < 2 * i {
                        assert(rows_view(incidences.rows@)[k] == before[k]);
                    } else if k == 2 * i {
                        assert(k / 2 == i && k % 2 == 0);
                    } else {
                        assert(k / 2 == i && k % 2 == 1);
                    }
                }
            }
            i = i + 1;
        }
        assert(rows_view(incidences.rows@) =~= target);
        Table { incidences, initial_facets }
    }

    /// Every exact cover of the table, once each: the positions of its rows,
    /// increasing.
    pub fn max_exact_cover(&self) -> (r: Vec<Vec<usize>>)
        requires
            self.incidences.wf(),
        ensures
            forall|k: int|
                0 <= k < r@.len() ==> is_exact_cover(
                    rows_view(self.incidences.rows@),
                    self.incidences.n_cols as nat,
                    #[trigger] r@[k]@,
                ),
            forall|sel: Seq<usize>|
                is_exact_cover(rows_view(self.incidences.rows@), self.incidences.n_cols as nat, sel)
                    ==> exists|k: int| 0 <= k < r@.len() && #[trigger] r@[k]@ == sel,
            forall|a: int, b: int| 0 <= a < b < r@.len() ==> #[trigger] r@[a]@ != #[trigger] r@[b]@,
    {
        let mut m = Matrix::new(self.incidences.n_cols);
        let mut i: usize = 0;
        while i < self.incidences.rows.len()
            invariant
                i <= self.incidences.rows@.len(),
                self.incidences.wf(),
                m.wf(),
                m.n_cols == self.incidences.n_cols,
                rows_view(m.rows@) == rows_view(self.incidences.rows@).take(i as int),
            decreases self.incidences.rows@.len() - i,
        {
            proof {
                assert(rows_view(self.incidences.rows@)[i as int] == self.incidences.rows@[i as int]@);
            }
            m.add_row(self.incidences.rows[i].as_slice());
            assert(rows_view(self.incidences.rows@).take(i + 1) =~= rows_view(self.incidences.rows@).take(i as int).push(self.incidences.rows@[i as int]@));
            i = i + 1;
        }
        assert(rows_view(self.incidences.rows@).take(i as int) =~= rows_view(self.incidences.rows@));
        solve_all(m)
    }
}

} // verus!
