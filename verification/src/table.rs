use vstd::prelude::*;

use crate::create::{cols_v, cols_wf, ColumnV, CreateQuery};
use crate::error::{ErrorV, SqlError};

verus! {

/// One table: its name, its column descriptors in declaration order, and
/// its rows. Every cell is stored as the literal text of the inserted
/// value; a row is positionally aligned to the column order, and a column
/// the inserting statement did not name holds the empty string.
#[derive(Debug, Clone)]
pub struct Table {
    pub name: String,
    pub columns: Vec<crate::create::ParsedColumn>,
    pub rows: Vec<Vec<String>>,
}

/// Mathematical image of `Table`.
#[verifier::ext_equal]
pub struct TableV {
    pub name: Seq<char>,
    pub columns: Seq<ColumnV>,
    pub rows: Seq<Seq<Seq<char>>>,
}

impl View for Table {
    type V = TableV;

    open spec fn view(&self) -> TableV {
        TableV { name: self.name@, columns: cols_v(self.columns@), rows: self.rows.deep_view() }
    }
}

impl TableV {
    /// Well-formedness: the column list keeps the schema invariants and
    /// every row is aligned to the column order.
    pub open spec fn wf(self) -> bool {
        &&& cols_wf(self.columns)
        &&& forall|r: int|
            0 <= r < self.rows.len() ==> (#[trigger] self.rows[r]).len() == self.columns.len()
    }
}

impl Table {
    pub open spec fn wf(self) -> bool {
        self@.wf()
    }
}

/// The names of a column descriptor sequence, in order.
pub open spec fn names_of(cols: Seq<ColumnV>) -> Seq<Seq<char>> {
    cols.map_values(|c: ColumnV| c.name)
}

/// The first position of `name` in `names`, or `names.len()` if absent.
pub open spec fn find_first(names: Seq<Seq<char>>, name: Seq<char>) -> int
    decreases names.len(),
{
    if names.len() == 0 {
        0
    } else if names[0] == name {
        0
    } else {
        1 + find_first(names.drop_first(), name)
    }
}

pub proof fn lemma_find_first(names: Seq<Seq<char>>, name: Seq<char>)
    ensures
        0 <= find_first(names, name) <= names.len(),
        find_first(names, name) < names.len() ==> names[find_first(names, name)] == name,
        forall|k: int| 0 <= k < find_first(names, name) ==> names[k] != name,
    decreases names.len(),
{
    if names.len() != 0 && names[0] != name {
        lemma_find_first(names.drop_first(), name);
        assert forall|k: int| 0 <= k < find_first(names, name) implies names[k] != name by {
            if k > 0 {
                assert(names.drop_first()[k - 1] == names[k]);
                assert(names.drop_first()[k - 1] != name);
            }
        }
    }
}

/// The position a scan that stopped at `i` certifies: every earlier name
/// differs, and either `i` matches or the scan ran out.
pub proof fn lemma_find_first_at(names: Seq<Seq<char>>, name: Seq<char>, i: int)
    requires
        0 <= i <= names.len(),
        forall|k: int| 0 <= k < i ==> names[k] != name,
        i < names.len() ==> names[i] == name,
    ensures
        find_first(names, name) == i,
    decreases i,
{
    if i == 0 {
        if names.len() != 0 && names[0] != name {
            lemma_find_first(names.drop_first(), name);
        }
    } else {
        assert(names[0] != name);
        assert(forall|k: int| 0 <= k < i - 1 ==> names.drop_first()[k] == names[k + 1]);
        lemma_find_first_at(names.drop_first(), name, i - 1);
    }
}

/// The row that inserting `vals` under the named `cols` appends to a table
/// with columns `tcols`: position `i` takes the value named for column `i`,
/// or the empty string when the statement did not name that column.
pub open spec fn row_for(
    tcols: Seq<ColumnV>,
    cols: Seq<Seq<char>>,
    vals: Seq<Seq<char>>,
) -> Seq<Seq<char>> {
    Seq::new(
        tcols.len(),
        |i: int|
            {
                let j = find_first(cols, tcols[i].name);
                if j < cols.len() {
                    vals[j]
                } else {
                    Seq::<char>::empty()
                }
            },
    )
}

/// Whether inserting value `val` under column name `name` would duplicate
/// an existing value of a unique or primary-key column of `t`.
pub open spec fn pair_violates(t: TableV, name: Seq<char>, val: Seq<char>) -> bool {
    let ci = find_first(names_of(t.columns), name);
    &&& ci < t.columns.len()
    &&& (t.columns[ci].is_unique || t.columns[ci].is_pk)
    &&& exists|r: int| 0 <= r < t.rows.len() && (#[trigger] t.rows[r])[ci] == val
}

/// Whether some (column, value) pair of one candidate tuple violates
/// uniqueness against the existing rows of `t`.
pub open spec fn has_violation(t: TableV, cols: Seq<Seq<char>>, vals: Seq<Seq<char>>) -> bool {
    exists|k: int|
        0 <= k < cols.len() && k < vals.len() && pair_violates(t, #[trigger] cols[k], vals[k])
}

/// The name of the first offending column, in statement order.
pub open spec fn first_violation(t: TableV, cols: Seq<Seq<char>>, vals: Seq<Seq<char>>) -> Seq<
    char,
>
    decreases cols.len(),
{
    if cols.len() == 0 || vals.len() == 0 {
        Seq::empty()
    } else if pair_violates(t, cols[0], vals[0]) {
        cols[0]
    } else {
        first_violation(t, cols.drop_first(), vals.drop_first())
    }
}

pub proof fn lemma_first_violation_at(
    t: TableV,
    cols: Seq<Seq<char>>,
    vals: Seq<Seq<char>>,
    k: int,
)
    requires
        cols.len() == vals.len(),
        0 <= k < cols.len(),
        forall|kk: int| 0 <= kk < k ==> !pair_violates(t, #[trigger] cols[kk], vals[kk]),
        pair_violates(t, cols[k], vals[k]),
    ensures
        first_violation(t, cols, vals) == cols[k],
    decreases k,
{
    if k > 0 {
        assert(forall|kk: int|
            0 <= kk < k - 1 ==> cols.drop_first()[kk] == cols[kk + 1] && vals.drop_first()[kk]
                == vals[kk + 1]);
        lemma_first_violation_at(t, cols.drop_first(), vals.drop_first(), k - 1);
    }
}

/// `t` with one row appended.
pub open spec fn append_row(t: TableV, row: Seq<Seq<char>>) -> TableV {
    TableV { rows: t.rows.push(row), ..t }
}

/// The insert pipeline over one statement's value tuples, in order. Each
/// tuple is checked for arity, then for uniqueness against the rows
/// already present (earlier tuples of the same statement included); the
/// first failing tuple stops the pipeline, keeping every row appended
/// before it.
pub open spec fn insert_all(t: TableV, cols: Seq<Seq<char>>, rows: Seq<Seq<Seq<char>>>) -> (
    TableV,
    Result<(), ErrorV>,
)
    decreases rows.len(),
{
    if rows.len() == 0 {
        (t, Ok(()))
    } else {
        let v = rows[0];
        if v.len() != cols.len() {
            (t, Err(ErrorV::ArityError { supplied: v.len() as int, expected: cols.len() as int }))
        } else if has_violation(t, cols, v) {
            (t, Err(ErrorV::ConstraintViolation(first_violation(t, cols, v))))
        } else {
            insert_all(append_row(t, row_for(t.columns, cols, v)), cols, rows.drop_first())
        }
    }
}

/// The insert pipeline only appends rows: the table's name and columns
/// come through unchanged.
pub proof fn lemma_insert_all_shape(t: TableV, cols: Seq<Seq<char>>, rows: Seq<Seq<Seq<char>>>)
    ensures
        ({
            let (t2, res) = insert_all(t, cols, rows);
            t2.name == t.name && t2.columns == t.columns
        }),
    decreases rows.len(),
{
    if rows.len() != 0 {
        let v = rows[0];
        if v.len() == cols.len() && !has_violation(t, cols, v) {
            lemma_insert_all_shape(append_row(t, row_for(t.columns, cols, v)), cols,
                rows.drop_first());
        }
    }
}

/// A tuple that violates uniqueness appends nothing: the table comes back
/// unchanged and the first offending column, in statement order, is
/// named in the error.
pub proof fn lemma_single_violation_rejected(t: TableV, cols: Seq<Seq<char>>, v: Seq<Seq<char>>)
    requires
        v.len() == cols.len(),
        has_violation(t, cols, v),
    ensures
        ({
            let (t2, res) = insert_all(t, cols, seq![v]);
            t2 == t && res == Err::<(), ErrorV>(
                ErrorV::ConstraintViolation(first_violation(t, cols, v)),
            )
        }),
{
    assert(seq![v][0] == v);
}

/// A tuple whose length differs from the named column count appends
/// nothing, and the error carries both counts.
pub proof fn lemma_arity_mismatch_rejected(t: TableV, cols: Seq<Seq<char>>, v: Seq<Seq<char>>)
    requires
        v.len() != cols.len(),
    ensures
        ({
            let (t2, res) = insert_all(t, cols, seq![v]);
            t2 == t && res == Err::<(), ErrorV>(
                ErrorV::ArityError { supplied: v.len() as int, expected: cols.len() as int },
            )
        }),
{
    assert(seq![v][0] == v);
}

/// A fully accepted statement appends exactly one row per value tuple.
pub proof fn lemma_insert_all_ok_appends(t: TableV, cols: Seq<Seq<char>>, rows: Seq<Seq<Seq<char>>>)
    ensures
        ({
            let (t2, res) = insert_all(t, cols, rows);
            res is Ok ==> t2.rows.len() == t.rows.len() + rows.len()
        }),
    decreases rows.len(),
{
    if rows.len() != 0 {
        let v = rows[0];
        if v.len() == cols.len() && !has_violation(t, cols, v) {
            lemma_insert_all_ok_appends(append_row(t, row_for(t.columns, cols, v)), cols,
                rows.drop_first());
        }
    }
}

proof fn lemma_insert_all_split(t: TableV, cols: Seq<Seq<char>>, rows: Seq<Seq<Seq<char>>>, k: int)
    requires
        0 <= k <= rows.len(),
        insert_all(t, cols, rows.take(k)).1 is Ok,
    ensures
        insert_all(t, cols, rows) == insert_all(insert_all(t, cols, rows.take(k)).0, cols,
            rows.skip(k)),
    decreases k,
{
    if k == 0 {
        assert(rows.take(0) =~= Seq::<Seq<Seq<char>>>::empty());
        assert(rows.skip(0) =~= rows);
    } else {
        let v = rows[0];
        assert(rows.take(k)[0] == v);
        assert(v.len() == cols.len() && !has_violation(t, cols, v));
        let t1 = append_row(t, row_for(t.columns, cols, v));
        assert(rows.take(k).drop_first() =~= rows.drop_first().take(k - 1));
        assert(rows.drop_first().skip(k - 1) =~= rows.skip(k));
        lemma_insert_all_split(t1, cols, rows.drop_first(), k - 1);
    }
}

/// When every tuple before position `k` is accepted and the tuple at `k`
/// fails its arity or uniqueness check against the table as it then
/// stands, the pipeline stops exactly there: the rows of the first `k`
/// tuples are appended, never more, and the statement reports the failure.
pub proof fn lemma_insert_stops_at_first_failure(
    t: TableV,
    cols: Seq<Seq<char>>,
    rows: Seq<Seq<Seq<char>>>,
    k: int,
)
    requires
        0 <= k < rows.len(),
        insert_all(t, cols, rows.take(k)).1 is Ok,
        ({
            let tk = insert_all(t, cols, rows.take(k)).0;
            rows[k].len() != cols.len() || has_violation(tk, cols, rows[k])
        }),
    ensures
        ({
            let tk = insert_all(t, cols, rows.take(k)).0;
            insert_all(t, cols, rows).0 == tk && insert_all(t, cols, rows).1 is Err
                && tk.rows.len() == t.rows.len() + k
        }),
{
    lemma_insert_all_split(t, cols, rows, k);
    assert(rows.skip(k)[0] == rows[k]);
    assert(rows.skip(k).len() > 0);
    lemma_insert_all_ok_appends(t, cols, rows.take(k));
    assert(rows.take(k).len() == k);
}

/// Whether every name of `cols` is a column of `tcols`.
pub open spec fn all_cols_exist(tcols: Seq<ColumnV>, cols: Seq<Seq<char>>) -> bool {
    forall|k: int| 0 <= k < cols.len() ==> crate::create::col_named(tcols, #[trigger] cols[k])
}

fn find_in_names(cols: &Vec<String>, name: &String) -> (r: usize)
    ensures
        r as int == find_first(cols.deep_view(), name@),
        r <= cols@.len(),
{
    let n = cols.len();
    let mut i: usize = 0;
    while i < n
        invariant
            0 <= i <= n == cols@.len(),
            forall|k: int| 0 <= k < i ==> cols.deep_view()[k] != name@,
        decreases n - i,
    {
        if cols[i] == *name {
            proof {
                assert(cols.deep_view()[i as int] == name@);
                lemma_find_first_at(cols.deep_view(), name@, i as int);
            }
            return i;
        }
        i += 1;
    }
    proof {
        lemma_find_first_at(cols.deep_view(), name@, n as int);
    }
    n
}

impl Table {
    /// Installs a table descriptor as a fresh table with no rows.
    pub fn new(descriptor: CreateQuery) -> (t: Table)
        ensures
            t@.name == descriptor.table_name@,
            t@.columns == descriptor@.columns,
            t@.rows =~= Seq::<Seq<Seq<char>>>::empty(),
    {
        let rows: Vec<Vec<String>> = Vec::new();
        proof {
            assert(rows.deep_view() =~= Seq::<Seq<Seq<char>>>::empty());
        }
        Table { name: descriptor.table_name, columns: descriptor.columns, rows }
    }

    /// Exact-name membership test over the table's columns.
    pub fn contains_column(&self, column: String) -> (r: bool)
        ensures
            r == crate::create::col_named(self@.columns, column@),
    {
        crate::create::column_named_exec(&self.columns, &column)
    }

    /// Whether every name of `cols` is a column of this table.
    pub fn contains_all_columns(&self, cols: &Vec<String>) -> (r: bool)
        ensures
            r == all_cols_exist(self@.columns, cols.deep_view()),
    {
        let n = cols.len();
        let mut i: usize = 0;
        while i < n
            invariant
                0 <= i <= n == cols@.len(),
                forall|k: int|
                    0 <= k < i ==> crate::create::col_named(self@.columns, cols.deep_view()[k]),
            decreases n - i,
        {
            if !crate::create::column_named_exec(&self.columns, &cols[i]) {
                assert(!crate::create::col_named(self@.columns, cols.deep_view()[i as int]));
                return false;
            }
            i += 1;
        }
        true
    }

    /// The constraint validator: scans every (column, value) pair of one
    /// candidate tuple against the existing rows, and reports the first
    /// unique or primary-key column whose value the tuple would duplicate.
    #[verifier::loop_isolation(false)]
    pub fn validate_unique_constraint(&self, cols: &Vec<String>, vals: &Vec<String>) -> (r: Result<
        (),
        SqlError,
    >)
        requires
            self.wf(),
            cols@.len() == vals@.len(),
        ensures
            match r {
                Ok(_) => !has_violation(self@, cols.deep_view(), vals.deep_view()),
                Err(e) => has_violation(self@, cols.deep_view(), vals.deep_view()) && e@
                    == ErrorV::ConstraintViolation(
                    first_violation(self@, cols.deep_view(), vals.deep_view()),
                ),
            },
    {
        let n = cols.len();
        let mut k: usize = 0;
        while k < n
            invariant
                0 <= k <= n,
                forall|kk: int|
                    0 <= kk < k ==> !pair_violates(
                        self@,
                        #[trigger] cols.deep_view()[kk],
                        vals.deep_view()[kk],
                    ),
            decreases n - k,
        {
            let ci = find_in_names_of_columns(&self.columns, &cols[k]);
            if ci < self.columns.len() {
                let flagged = self.columns[ci].is_unique || self.columns[ci].is_pk;
                if flagged {
                    let nrows = self.rows.len();
                    let mut r: usize = 0;
                    while r < nrows
                        invariant
                            0 <= r <= nrows,
                            forall|rr: int|
                                0 <= rr < r ==> (#[trigger] self@.rows[rr])[ci as int]
                                    != vals.deep_view()[k as int],
                        decreases nrows - r,
                    {
                        proof {
                            assert(self@.rows[r as int].len() == self@.columns.len());
                            assert(self@.rows[r as int] == self.rows@[r as int].deep_view());
                        }
                        if self.rows[r][ci] == vals[k] {
                            proof {
                                assert(self@.rows[r as int][ci as int] == vals.deep_view()[
                                k as int]);
                                assert(pair_violates(
                                    self@,
                                    cols.deep_view()[k as int],
                                    vals.deep_view()[k as int],
                                ));
                                lemma_first_violation_at(
                                    self@,
                                    cols.deep_view(),
                                    vals.deep_view(),
                                    k as int,
                                );
                            }
                            return Err(SqlError::ConstraintViolation(cols[k].clone()));
                        }
                        r += 1;
                    }
                    assert(!pair_violates(
                        self@,
                        cols.deep_view()[k as int],
                        vals.deep_view()[k as int],
                    ));
                } else {
                    assert(!pair_violates(
                        self@,
                        cols.deep_view()[k as int],
                        vals.deep_view()[k as int],
                    ));
                }
            } else {
                assert(!pair_violates(
                    self@,
                    cols.deep_view()[k as int],
                    vals.deep_view()[k as int],
                ));
            }
            k += 1;
        }
        Ok(())
    }

    /// Appends the row that `cols`/`vals` describe, positionally mapped
    /// onto this table's full column order; columns the statement does not
    /// name are filled with the empty string.
    #[verifier::loop_isolation(false)]
    pub fn insert_row(&mut self, cols: &Vec<String>, vals: &Vec<String>)
        requires
            cols@.len() == vals@.len(),
        ensures
            final(self)@ =~= append_row(
                old(self)@,
                row_for(old(self)@.columns, cols.deep_view(), vals.deep_view()),
            ),
    {
        let ghost target: Seq<Seq<char>> = row_for(
            self@.columns,
            cols.deep_view(),
            vals.deep_view(),
        );
        let ncols = self.columns.len();
        let mut row: Vec<String> = Vec::new();
        let mut i: usize = 0;
        while i < ncols
            invariant
                0 <= i <= ncols,
                row@.len() == i,
                forall|k: int| 0 <= k < i ==> row.deep_view()[k] == target[k],
            decreases ncols - i,
        {
            let ci = find_in_names(cols, &self.columns[i].name);
            if ci < cols.len() {
                row.push(vals[ci].clone());
            } else {
                row.push(String::new());
            }
            proof {
                assert(self@.columns[i as int].name == self.columns@[i as int].name@);
                assert(row.deep_view()[i as int] == target[i as int]);
            }
            i += 1;
        }
        proof {
            assert(row.deep_view() =~= target);
        }
        self.rows.push(row);
        proof {
            assert(final(self)@.rows =~= old(self)@.rows.push(target));
            assert(final(self)@ =~= append_row(old(self)@, target));
        }
    }

    /// Drives the insert pipeline over every value tuple of one statement,
    /// exactly as `insert_all` states: arity, then uniqueness, then append,
    /// stopping at the first failure and keeping the rows appended before
    /// it.
    #[verifier::loop_isolation(false)]
    pub fn insert_rows(&mut self, cols: &Vec<String>, rows: &Vec<Vec<String>>) -> (r: Result<
        (),
        SqlError,
    >)
        requires
            old(self).wf(),
        ensures
            final(self).wf(),
            ({
                let (tv, res) = insert_all(old(self)@, cols.deep_view(), rows.deep_view());
                final(self)@ == tv && (match r {
                    Ok(_) => res is Ok,
                    Err(e) => res matches Err(ev) && e@ == ev,
                })
            }),
    {
        let ghost t0 = self@;
        let ghost colsdv = cols.deep_view();
        let ghost rowsdv = rows.deep_view();
        let n = rows.len();
        let mut k: usize = 0;
        proof {
            assert(rowsdv.skip(0) =~= rowsdv);
        }
        while k < n
            invariant
                0 <= k <= n == rows@.len(),
                self.wf(),
                insert_all(t0, colsdv, rowsdv) == insert_all(self@, colsdv, rowsdv.skip(k as int)),
            decreases n - k,
        {
            let ghost rest = rowsdv.skip(k as int);
            proof {
                assert(rest[0] == rowsdv[k as int]);
                assert(rest.drop_first() =~= rowsdv.skip(k as int + 1));
            }
            let tuple = &rows[k];
            if tuple.len() != cols.len() {
                return Err(SqlError::ArityError { supplied: tuple.len(), expected: cols.len() });
            }
            match self.validate_unique_constraint(cols, tuple) {
                Err(e) => {
                    return Err(e);
                },
                Ok(_) => {
                    self.insert_row(cols, tuple);
                },
            }
            k += 1;
        }
        proof {
            assert(rowsdv.skip(n as int) =~= Seq::<Seq<Seq<char>>>::empty());
        }
        Ok(())
    }
}

fn find_in_names_of_columns(cols: &Vec<crate::create::ParsedColumn>, name: &String) -> (r: usize)
    ensures
        r as int == find_first(names_of(cols_v(cols@)), name@),
        r <= cols@.len(),
{
    let n = cols.len();
    let mut i: usize = 0;
    while i < n
        invariant
            0 <= i <= n == cols@.len(),
            forall|k: int| 0 <= k < i ==> names_of(cols_v(cols@))[k] != name@,
        decreases n - i,
    {
        if cols[i].name == *name {
            proof {
                assert(names_of(cols_v(cols@))[i as int] == name@);
                lemma_find_first_at(names_of(cols_v(cols@)), name@, i as int);
            }
            return i;
        }
        i += 1;
    }
    proof {
        lemma_find_first_at(names_of(cols_v(cols@)), name@, n as int);
    }
    n
}

} // verus!
