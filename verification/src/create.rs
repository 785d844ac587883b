use vstd::prelude::*;

use crate::error::{ErrorV, SchemaIssue, SchemaIssueV, SqlError};
use crate::statement::{ColumnOptionDecl, DataTypeDecl, SqlStatement, StatementV};

verus! {

/// The advisory logical type of a column. Values are stored as text
/// whatever the logical type says; the type decides only whether the
/// column may carry a key or uniqueness option.
#[derive(Debug, Clone, Copy, PartialEq, Eq, Structural)]
pub enum LogicalType {
    Integer,
    Real,
    Text,
    Bool,
    Invalid,
}

/// One typed, constrained column descriptor, as the schema builder
/// produces it from a column declaration.
#[derive(Debug, Clone)]
pub struct ParsedColumn {
    pub name: String,
    pub datatype: LogicalType,
    pub is_pk: bool,
    pub not_null: bool,
    pub is_unique: bool,
}

/// Mathematical image of `ParsedColumn`.
pub struct ColumnV {
    pub name: Seq<char>,
    pub datatype: LogicalType,
    pub is_pk: bool,
    pub not_null: bool,
    pub is_unique: bool,
}

impl View for ParsedColumn {
    type V = ColumnV;

    open spec fn view(&self) -> ColumnV {
        ColumnV {
            name: self.name@,
            datatype: self.datatype,
            is_pk: self.is_pk,
            not_null: self.not_null,
            is_unique: self.is_unique,
        }
    }
}

/// A table descriptor: the table name and the column list produced by the
/// schema builder, before installation into the registry.
#[derive(Debug, Clone)]
pub struct CreateQuery {
    pub table_name: String,
    pub columns: Vec<ParsedColumn>,
}

/// Mathematical image of `CreateQuery`.
pub struct CreateQueryV {
    pub table_name: Seq<char>,
    pub columns: Seq<ColumnV>,
}

impl View for CreateQuery {
    type V = CreateQueryV;

    open spec fn view(&self) -> CreateQueryV {
        CreateQueryV { table_name: self.table_name@, columns: cols_v(self.columns@) }
    }
}

/// Image of a column descriptor sequence.
pub open spec fn cols_v(cols: Seq<ParsedColumn>) -> Seq<ColumnV> {
    cols.map_values(|c: ParsedColumn| c@)
}

/// The fixed mapping from declared types to logical types.
pub open spec fn map_type(d: DataTypeDecl) -> LogicalType {
    match d {
        DataTypeDecl::SmallInt | DataTypeDecl::Int | DataTypeDecl::BigInt => LogicalType::Integer,
        DataTypeDecl::Boolean => LogicalType::Bool,
        DataTypeDecl::Text | DataTypeDecl::Varchar => LogicalType::Text,
        DataTypeDecl::Real | DataTypeDecl::Float | DataTypeDecl::Double | DataTypeDecl::Decimal
            => LogicalType::Real,
        DataTypeDecl::Other => LogicalType::Invalid,
    }
}

/// Only integer and text columns can be keyed (indexed); a `PRIMARY KEY`
/// or `UNIQUE` option on any other type is silently ignored.
pub open spec fn keyable(t: LogicalType) -> bool {
    t == LogicalType::Integer || t == LogicalType::Text
}

/// The three constraint flags a column declaration resolves to.
#[derive(Debug, Clone, Copy, PartialEq, Eq, Structural)]
pub struct Flags {
    pub is_pk: bool,
    pub not_null: bool,
    pub is_unique: bool,
}

pub open spec fn no_flags() -> Flags {
    Flags { is_pk: false, not_null: false, is_unique: false }
}

/// How one column option changes the flags. `prev_pk` says whether an
/// earlier column of the same statement already resolved to a primary key;
/// a second `PRIMARY KEY` on a keyable column is the one failure
/// (`Err(())`) of option resolution.
pub open spec fn apply_option(
    ty: LogicalType,
    f: Flags,
    opt: ColumnOptionDecl,
    prev_pk: bool,
) -> Result<Flags, ()> {
    match opt {
        ColumnOptionDecl::Unique { is_primary } => if keyable(ty) {
            if is_primary && prev_pk {
                Err(())
            } else {
                Ok(Flags {
                    is_pk: is_primary,
                    not_null: if is_primary { true } else { f.not_null },
                    is_unique: true,
                })
            }
        } else {
            Ok(f)
        },
        ColumnOptionDecl::NotNull => Ok(Flags { not_null: true, ..f }),
        ColumnOptionDecl::Other => Ok(f),
    }
}

/// Folds `apply_option` over the options of one column, in declaration
/// order, starting from flags `f`.
pub open spec fn resolve_options(
    ty: LogicalType,
    opts: Seq<ColumnOptionDecl>,
    prev_pk: bool,
    f: Flags,
) -> Result<Flags, ()>
    decreases opts.len(),
{
    if opts.len() == 0 {
        Ok(f)
    } else {
        match apply_option(ty, f, opts[0], prev_pk) {
            Ok(f2) => resolve_options(ty, opts.drop_first(), prev_pk, f2),
            Err(e) => Err(e),
        }
    }
}

/// Whether some column of `cols` carries `name`.
pub open spec fn col_named(cols: Seq<ColumnV>, name: Seq<char>) -> bool {
    exists|i: int| 0 <= i < cols.len() && cols[i].name == name
}

/// Whether some column of `cols` is the primary key.
pub open spec fn cols_have_pk(cols: Seq<ColumnV>) -> bool {
    exists|i: int| 0 <= i < cols.len() && cols[i].is_pk
}

/// The schema builder: drives option resolution across every declared
/// column in order, accumulating descriptors in `acc`, and fails fast on
/// the first duplicate column name or second primary key. `table` is the
/// table name, carried into the error for a second primary key.
pub open spec fn build_columns(
    table: Seq<char>,
    decls: Seq<crate::statement::ColumnDeclV>,
    acc: Seq<ColumnV>,
) -> Result<Seq<ColumnV>, ErrorV>
    decreases decls.len(),
{
    if decls.len() == 0 {
        Ok(acc)
    } else {
        let d = decls[0];
        if col_named(acc, d.name) {
            Err(ErrorV::SchemaError(SchemaIssueV::DuplicateColumn(d.name)))
        } else {
            let ty = map_type(d.data_type);
            match resolve_options(ty, d.options, cols_have_pk(acc), no_flags()) {
                Ok(f) => build_columns(
                    table,
                    decls.drop_first(),
                    acc.push(ColumnV {
                        name: d.name,
                        datatype: ty,
                        is_pk: f.is_pk,
                        not_null: f.not_null,
                        is_unique: f.is_unique,
                    }),
                ),
                Err(_) => Err(ErrorV::SchemaError(SchemaIssueV::MultiplePrimaryKeys(table))),
            }
        }
    }
}

/// The internal invariant of a single built column: a primary key is
/// not-null and unique, and only keyable types carry key or uniqueness.
pub open spec fn col_wf(c: ColumnV) -> bool {
    &&& c.is_pk ==> c.not_null && c.is_unique
    &&& (c.is_pk || c.is_unique) ==> keyable(c.datatype)
}

/// The internal invariant of a built column list: every column is
/// well-formed, names are unique, and at most one column is primary key.
pub open spec fn cols_wf(cols: Seq<ColumnV>) -> bool {
    &&& forall|i: int| 0 <= i < cols.len() ==> col_wf(#[trigger] cols[i])
    &&& forall|i: int, j: int|
        0 <= i < cols.len() && 0 <= j < cols.len() && i != j
            ==> (#[trigger] cols[i]).name != (#[trigger] cols[j]).name
    &&& forall|i: int, j: int|
        0 <= i < cols.len() && 0 <= j < cols.len()
            && (#[trigger] cols[i]).is_pk && (#[trigger] cols[j]).is_pk ==> i == j
}

/// Option resolution keeps the column invariants: the resolved flags obey
/// `col_wf`, and when an earlier column already holds the primary key the
/// resolved column never does (it would have failed instead).
pub proof fn lemma_resolve_flags(
    ty: LogicalType,
    opts: Seq<ColumnOptionDecl>,
    prev_pk: bool,
    f: Flags,
)
    requires
        f.is_pk ==> f.not_null && f.is_unique,
        (f.is_pk || f.is_unique) ==> keyable(ty),
        prev_pk ==> !f.is_pk,
    ensures
        match resolve_options(ty, opts, prev_pk, f) {
            Ok(g) => {
                &&& g.is_pk ==> g.not_null && g.is_unique
                &&& (g.is_pk || g.is_unique) ==> keyable(ty)
                &&& prev_pk ==> !g.is_pk
            },
            Err(_) => true,
        },
    decreases opts.len(),
{
    if opts.len() != 0 {
        match apply_option(ty, f, opts[0], prev_pk) {
            Ok(f2) => lemma_resolve_flags(ty, opts.drop_first(), prev_pk, f2),
            Err(_) => {},
        }
    }
}

/// A successful schema build keeps the column-list invariants: every
/// column is well-formed, names are unique, and at most one column is the
/// primary key.
pub proof fn lemma_build_columns_wf(
    table: Seq<char>,
    decls: Seq<crate::statement::ColumnDeclV>,
    acc: Seq<ColumnV>,
)
    requires
        cols_wf(acc),
    ensures
        build_columns(table, decls, acc) matches Ok(cols) ==> cols_wf(cols),
    decreases decls.len(),
{
    if decls.len() != 0 {
        let d = decls[0];
        if !col_named(acc, d.name) {
            let ty = map_type(d.data_type);
            match resolve_options(ty, d.options, cols_have_pk(acc), no_flags()) {
                Ok(f) => {
                    lemma_resolve_flags(ty, d.options, cols_have_pk(acc), no_flags());
                    let c = ColumnV {
                        name: d.name,
                        datatype: ty,
                        is_pk: f.is_pk,
                        not_null: f.not_null,
                        is_unique: f.is_unique,
                    };
                    let acc2 = acc.push(c);
                    assert forall|i: int, j: int|
                        0 <= i < acc2.len() && 0 <= j < acc2.len() && i != j implies (
                    #[trigger] acc2[i]).name != (#[trigger] acc2[j]).name by {
                        if i < acc.len() && j < acc.len() {
                            assert(acc2[i] == acc[i] && acc2[j] == acc[j]);
                        } else if i == acc.len() {
                            assert(acc2[j] == acc[j]);
                            assert(!col_named(acc, d.name));
                        } else {
                            assert(acc2[i] == acc[i]);
                            assert(!col_named(acc, d.name));
                        }
                    }
                    assert forall|i: int, j: int|
                        0 <= i < acc2.len() && 0 <= j < acc2.len() && (#[trigger] acc2[i]).is_pk
                            && (#[trigger] acc2[j]).is_pk implies i == j by {
                        if i < acc.len() && j < acc.len() {
                            assert(acc2[i] == acc[i] && acc2[j] == acc[j]);
                        } else if i == acc.len() && j < acc.len() {
                            assert(acc2[j] == acc[j]);
                            assert(cols_have_pk(acc));
                        } else if j == acc.len() && i < acc.len() {
                            assert(acc2[i] == acc[i]);
                            assert(cols_have_pk(acc));
                        }
                    }
                    assert(forall|i: int|
                        0 <= i < acc.len() ==> #[trigger] acc2[i] == acc[i]);
                    assert(cols_wf(acc2));
                    lemma_build_columns_wf(table, decls.drop_first(), acc2);
                },
                Err(_) => {},
            }
        }
    }
}

/// Whether a declaration carries a `PRIMARY KEY` option that a keyable
/// type lets stick.
pub open spec fn declares_pk(d: crate::statement::ColumnDeclV) -> bool {
    keyable(map_type(d.data_type)) && exists|k: int|
        0 <= k < d.options.len() && d.options[k] == (ColumnOptionDecl::Unique {
            is_primary: true,
        })
}

/// Whether a declaration, built while no earlier column holds the primary
/// key, resolves to the primary-key column.
pub open spec fn resolves_to_pk(d: crate::statement::ColumnDeclV) -> bool {
    resolve_options(map_type(d.data_type), d.options, false, no_flags()) matches Ok(g) && g.is_pk
}

proof fn lemma_resolve_ok_if(ty: LogicalType, opts: Seq<ColumnOptionDecl>, prev_pk: bool, f: Flags)
    requires
        !prev_pk || !keyable(ty) || (forall|k: int|
            0 <= k < opts.len() ==> #[trigger] opts[k] != (ColumnOptionDecl::Unique {
                is_primary: true,
            })),
    ensures
        resolve_options(ty, opts, prev_pk, f) is Ok,
    decreases opts.len(),
{
    if opts.len() != 0 {
        match apply_option(ty, f, opts[0], prev_pk) {
            Ok(f2) => {
                assert(forall|k: int|
                    0 <= k < opts.len() - 1 ==> #[trigger] opts.drop_first()[k] == opts[k + 1]);
                lemma_resolve_ok_if(ty, opts.drop_first(), prev_pk, f2);
            },
            Err(_) => {
                assert(opts[0] == (ColumnOptionDecl::Unique { is_primary: true }));
            },
        }
    }
}

proof fn lemma_resolve_err_on_second_pk(
    ty: LogicalType,
    opts: Seq<ColumnOptionDecl>,
    f: Flags,
    k: int,
)
    requires
        keyable(ty),
        0 <= k < opts.len(),
        opts[k] == (ColumnOptionDecl::Unique { is_primary: true }),
    ensures
        resolve_options(ty, opts, true, f) is Err,
    decreases k,
{
    if k > 0 {
        match apply_option(ty, f, opts[0], true) {
            Ok(f2) => {
                assert(opts.drop_first()[k - 1] == opts[k]);
                lemma_resolve_err_on_second_pk(ty, opts.drop_first(), f2, k - 1);
            },
            Err(_) => {},
        }
    }
}

proof fn lemma_resolve_pk_declares(ty: LogicalType, opts: Seq<ColumnOptionDecl>, prev_pk: bool, f: Flags)
    requires
        !f.is_pk,
        resolve_options(ty, opts, prev_pk, f) matches Ok(g) && g.is_pk,
    ensures
        keyable(ty) && exists|k: int|
            0 <= k < opts.len() && opts[k] == (ColumnOptionDecl::Unique { is_primary: true }),
    decreases opts.len(),
{
    if opts.len() != 0 {
        match apply_option(ty, f, opts[0], prev_pk) {
            Ok(f2) => {
                if f2.is_pk {
                    assert(opts[0] == (ColumnOptionDecl::Unique { is_primary: true }));
                    assert(keyable(ty));
                } else {
                    lemma_resolve_pk_declares(ty, opts.drop_first(), prev_pk, f2);
                    let kk = choose|kk: int|
                        0 <= kk < opts.drop_first().len() && opts.drop_first()[kk]
                            == (ColumnOptionDecl::Unique { is_primary: true });
                    assert(opts[kk + 1] == (ColumnOptionDecl::Unique { is_primary: true }));
                }
            },
            Err(_) => {},
        }
    }
}

/// Every failure of the schema builder is a schema error.
pub proof fn lemma_build_err_is_schema(
    table: Seq<char>,
    decls: Seq<crate::statement::ColumnDeclV>,
    acc: Seq<ColumnV>,
)
    ensures
        build_columns(table, decls, acc) matches Err(e) ==> e matches ErrorV::SchemaError(_),
    decreases decls.len(),
{
    if decls.len() != 0 {
        let d = decls[0];
        if !col_named(acc, d.name) {
            let ty = map_type(d.data_type);
            match resolve_options(ty, d.options, cols_have_pk(acc), no_flags()) {
                Ok(f) => {
                    lemma_build_err_is_schema(table, decls.drop_first(), acc.push(ColumnV {
                        name: d.name,
                        datatype: ty,
                        is_pk: f.is_pk,
                        not_null: f.not_null,
                        is_unique: f.is_unique,
                    }));
                },
                Err(_) => {},
            }
        }
    }
}

proof fn lemma_unkeyable_resolve(ty: LogicalType, opts: Seq<ColumnOptionDecl>, prev_pk: bool, f: Flags)
    requires
        !keyable(ty),
        !f.is_pk,
        !f.is_unique,
    ensures
        resolve_options(ty, opts, prev_pk, f) matches Ok(g) && !g.is_pk && !g.is_unique,
    decreases opts.len(),
{
    if opts.len() != 0 {
        match apply_option(ty, f, opts[0], prev_pk) {
            Ok(f2) => lemma_unkeyable_resolve(ty, opts.drop_first(), prev_pk, f2),
            Err(_) => {},
        }
    }
}

/// A `PRIMARY KEY` or `UNIQUE` option on a `Real` or `Bool` column is
/// accepted but ignored: the column such a declaration resolves to is
/// neither primary key nor unique.
pub proof fn lemma_unkeyable_options_ignored(d: crate::statement::ColumnDeclV, prev_pk: bool)
    requires
        map_type(d.data_type) == LogicalType::Real || map_type(d.data_type) == LogicalType::Bool,
    ensures
        resolve_options(map_type(d.data_type), d.options, prev_pk, no_flags()) matches Ok(g)
            && !g.is_pk && !g.is_unique,
{
    lemma_unkeyable_resolve(map_type(d.data_type), d.options, prev_pk, no_flags());
}

proof fn lemma_build_ok(
    table: Seq<char>,
    decls: Seq<crate::statement::ColumnDeclV>,
    acc: Seq<ColumnV>,
)
    requires
        forall|i: int, j: int|
            #![trigger decls[i], decls[j]]
            0 <= i < j < decls.len() ==> decls[i].name != decls[j].name,
        forall|i: int| 0 <= i < decls.len() ==> !col_named(acc, (#[trigger] decls[i]).name),
        forall|i: int, j: int|
            #![trigger decls[i], decls[j]]
            0 <= i < j < decls.len() ==> !(declares_pk(decls[i]) && declares_pk(decls[j])),
        cols_have_pk(acc) ==> forall|i: int|
            0 <= i < decls.len() ==> !declares_pk(#[trigger] decls[i]),
    ensures
        build_columns(table, decls, acc) matches Ok(cols) && cols.len() == acc.len()
            + decls.len() && (forall|i: int| 0 <= i < acc.len() ==> #[trigger] cols[i] == acc[i])
            && (forall|i: int|
            0 <= i < decls.len() ==> (#[trigger] cols[acc.len() + i]).name == decls[i].name),
    decreases decls.len(),
{
    if decls.len() != 0 {
        let d = decls[0];
        assert(!col_named(acc, d.name));
        let ty = map_type(d.data_type);
        let prev = cols_have_pk(acc);
        if prev {
            assert(!declares_pk(d));
        }
        if !prev || !keyable(ty) {
            lemma_resolve_ok_if(ty, d.options, prev, no_flags());
        } else {
            assert(forall|k: int|
                0 <= k < d.options.len() ==> #[trigger] d.options[k]
                    != (ColumnOptionDecl::Unique { is_primary: true }));
            lemma_resolve_ok_if(ty, d.options, prev, no_flags());
        }
        let f = resolve_options(ty, d.options, prev, no_flags())->Ok_0;
        let c = ColumnV {
            name: d.name,
            datatype: ty,
            is_pk: f.is_pk,
            not_null: f.not_null,
            is_unique: f.is_unique,
        };
        let acc2 = acc.push(c);
        let rest = decls.drop_first();
        assert(forall|k: int| 0 <= k < rest.len() ==> #[trigger] rest[k] == decls[k + 1]);
        assert forall|i: int| 0 <= i < rest.len() implies !col_named(
            acc2,
            (#[trigger] rest[i]).name,
        ) by {
            if col_named(acc2, rest[i].name) {
                let w = choose|w: int| 0 <= w < acc2.len() && acc2[w].name == rest[i].name;
                if w < acc.len() {
                    assert(acc2[w] == acc[w]);
                    assert(col_named(acc, decls[i + 1].name));
                } else {
                    assert(acc2[w] == c);
                    assert(decls[0].name != decls[i + 1].name);
                }
            }
        }
        if cols_have_pk(acc2) {
            if !prev {
                let w = choose|w: int| 0 <= w < acc2.len() && acc2[w].is_pk;
                if w < acc.len() {
                    assert(acc2[w] == acc[w]);
                    assert(cols_have_pk(acc));
                } else {
                    assert(acc2[w] == c);
                }
                assert(c.is_pk);
                lemma_resolve_pk_declares(ty, d.options, false, no_flags());
                assert(declares_pk(d));
                assert forall|i: int| 0 <= i < rest.len() implies !declares_pk(
                    #[trigger] rest[i],
                ) by {
                    assert(rest[i] == decls[i + 1]);
                    assert(!(declares_pk(decls[0]) && declares_pk(decls[i + 1])));
                }
            } else {
                assert forall|i: int| 0 <= i < rest.len() implies !declares_pk(
                    #[trigger] rest[i],
                ) by {
                    assert(rest[i] == decls[i + 1]);
                }
            }
        }
        lemma_build_ok(table, rest, acc2);
        let cols = build_columns(table, decls, acc)->Ok_0;
        assert forall|i: int| 0 <= i < acc.len() implies #[trigger] cols[i] == acc[i] by {
            assert(cols[i] == acc2[i]);
        }
        assert forall|i: int| 0 <= i < decls.len() implies (#[trigger] cols[acc.len() + i]).name
            == decls[i].name by {
            if i == 0 {
                assert(cols[acc.len() as int] == acc2[acc.len() as int]);
                assert(acc2[acc.len() as int] == c);
            } else {
                assert(cols[acc2.len() + (i - 1)].name == rest[i - 1].name);
                assert(rest[i - 1] == decls[i]);
            }
        }
    }
}

/// For every `CREATE TABLE` whose column declarations carry pairwise
/// distinct names and at most one sticking `PRIMARY KEY` option, the
/// schema builder succeeds, producing one descriptor per declaration, in
/// declaration order and under the declared names.
pub proof fn lemma_valid_create_accepted(table: Seq<char>, decls: Seq<crate::statement::ColumnDeclV>)
    requires
        forall|i: int, j: int|
            #![trigger decls[i], decls[j]]
            0 <= i < j < decls.len() ==> decls[i].name != decls[j].name,
        forall|i: int, j: int|
            #![trigger decls[i], decls[j]]
            0 <= i < j < decls.len() ==> !(declares_pk(decls[i]) && declares_pk(decls[j])),
    ensures
        build_columns(table, decls, Seq::empty()) matches Ok(cols) && cols.len() == decls.len()
            && (forall|i: int|
            0 <= i < decls.len() ==> (#[trigger] cols[i]).name == decls[i].name),
{
    lemma_build_ok(table, decls, Seq::empty());
    let cols = build_columns(table, decls, Seq::empty())->Ok_0;
    assert forall|i: int| 0 <= i < decls.len() implies (#[trigger] cols[i]).name
        == decls[i].name by {
        assert(cols[Seq::<ColumnV>::empty().len() + i].name == decls[i].name);
    }
}

proof fn lemma_pk_after_pk_rejected(
    table: Seq<char>,
    decls: Seq<crate::statement::ColumnDeclV>,
    acc: Seq<ColumnV>,
    j: int,
)
    requires
        cols_have_pk(acc),
        0 <= j < decls.len(),
        declares_pk(decls[j]),
    ensures
        build_columns(table, decls, acc) is Err,
    decreases j,
{
    let d = decls[0];
    if !col_named(acc, d.name) {
        let ty = map_type(d.data_type);
        match resolve_options(ty, d.options, true, no_flags()) {
            Ok(f) => {
                if j == 0 {
                    let k = choose|k: int|
                        0 <= k < d.options.len() && d.options[k] == (ColumnOptionDecl::Unique {
                            is_primary: true,
                        });
                    lemma_resolve_err_on_second_pk(ty, d.options, no_flags(), k);
                } else {
                    let c = ColumnV {
                        name: d.name,
                        datatype: ty,
                        is_pk: f.is_pk,
                        not_null: f.not_null,
                        is_unique: f.is_unique,
                    };
                    let acc2 = acc.push(c);
                    let w = choose|w: int| 0 <= w < acc.len() && acc[w].is_pk;
                    assert(acc2[w] == acc[w]);
                    assert(cols_have_pk(acc2));
                    assert(decls.drop_first()[j - 1] == decls[j]);
                    lemma_pk_after_pk_rejected(table, decls.drop_first(), acc2, j - 1);
                }
            },
            Err(_) => {},
        }
    }
}

proof fn lemma_pk_pair_rejected(
    table: Seq<char>,
    decls: Seq<crate::statement::ColumnDeclV>,
    acc: Seq<ColumnV>,
    i: int,
    j: int,
)
    requires
        0 <= i < j < decls.len(),
        resolves_to_pk(decls[i]),
        declares_pk(decls[j]),
    ensures
        build_columns(table, decls, acc) is Err,
    decreases i,
{
    if cols_have_pk(acc) {
        lemma_pk_after_pk_rejected(table, decls, acc, j);
    } else {
        let d = decls[0];
        if !col_named(acc, d.name) {
            let ty = map_type(d.data_type);
            match resolve_options(ty, d.options, false, no_flags()) {
                Ok(f) => {
                    let c = ColumnV {
                        name: d.name,
                        datatype: ty,
                        is_pk: f.is_pk,
                        not_null: f.not_null,
                        is_unique: f.is_unique,
                    };
                    let acc2 = acc.push(c);
                    if i == 0 {
                        assert(f.is_pk);
                        assert(acc2[acc.len() as int] == c);
                        assert(cols_have_pk(acc2));
                        assert(decls.drop_first()[j - 1] == decls[j]);
                        lemma_pk_after_pk_rejected(table, decls.drop_first(), acc2, j - 1);
                    } else if f.is_pk {
                        assert(acc2[acc.len() as int] == c);
                        assert(cols_have_pk(acc2));
                        assert(decls.drop_first()[j - 1] == decls[j]);
                        lemma_pk_after_pk_rejected(table, decls.drop_first(), acc2, j - 1);
                    } else {
                        assert(!cols_have_pk(acc2)) by {
                            if cols_have_pk(acc2) {
                                let w = choose|w: int| 0 <= w < acc2.len() && acc2[w].is_pk;
                                if w < acc.len() {
                                    assert(acc2[w] == acc[w]);
                                }
                            }
                        }
                        assert(decls.drop_first()[i - 1] == decls[i]);
                        assert(decls.drop_first()[j - 1] == decls[j]);
                        lemma_pk_pair_rejected(table, decls.drop_first(), acc2, i - 1, j - 1);
                    }
                },
                Err(_) => {},
            }
        }
    }
}

/// A `CREATE TABLE` declaring two primary-key columns — an earlier one
/// that resolves to the primary key and a later one carrying a sticking
/// `PRIMARY KEY` option — is rejected, and every rejection of the schema
/// builder is a schema error, so nothing is installed.
pub proof fn lemma_second_primary_key_rejected(
    table: Seq<char>,
    decls: Seq<crate::statement::ColumnDeclV>,
    i: int,
    j: int,
)
    requires
        0 <= i < j < decls.len(),
        resolves_to_pk(decls[i]),
        declares_pk(decls[j]),
    ensures
        build_columns(table, decls, Seq::empty()) matches Err(e) && e matches ErrorV::SchemaError(
            _,
        ),
{
    lemma_pk_pair_rejected(table, decls, Seq::empty(), i, j);
    lemma_build_err_is_schema(table, decls, Seq::empty());
}

fn data_type_to_logical(d: DataTypeDecl) -> (t: LogicalType)
    ensures
        t == map_type(d),
{
    match d {
        DataTypeDecl::SmallInt | DataTypeDecl::Int | DataTypeDecl::BigInt => LogicalType::Integer,
        DataTypeDecl::Boolean => LogicalType::Bool,
        DataTypeDecl::Text | DataTypeDecl::Varchar => LogicalType::Text,
        DataTypeDecl::Real | DataTypeDecl::Float | DataTypeDecl::Double | DataTypeDecl::Decimal
            => LogicalType::Real,
        DataTypeDecl::Other => LogicalType::Invalid,
    }
}

pub(crate) fn column_named_exec(cols: &Vec<ParsedColumn>, name: &String) -> (r: bool)
    ensures
        r == col_named(cols_v(cols@), name@),
{
    let n = cols.len();
    let mut i: usize = 0;
    while i < n
        invariant
            0 <= i <= n == cols@.len(),
            forall|k: int| 0 <= k < i ==> cols_v(cols@)[k].name != name@,
        decreases n - i,
    {
        if cols[i].name == *name {
            assert(cols_v(cols@)[i as int].name == name@);
            return true;
        }
        i += 1;
    }
    false
}

fn has_primary_exec(cols: &Vec<ParsedColumn>) -> (r: bool)
    ensures
        r == cols_have_pk(cols_v(cols@)),
{
    let n = cols.len();
    let mut i: usize = 0;
    while i < n
        invariant
            0 <= i <= n == cols@.len(),
            forall|k: int| 0 <= k < i ==> !cols_v(cols@)[k].is_pk,
        decreases n - i,
    {
        if cols[i].is_pk {
            assert(cols_v(cols@)[i as int].is_pk);
            return true;
        }
        i += 1;
    }
    false
}

impl CreateQuery {
    /// Builds a table descriptor from a `CREATE TABLE` statement tree,
    /// exactly as `build_columns` states: descriptors in declaration
    /// order, failing on a duplicate column name or a second primary key.
    /// Any other statement shape is rejected.
    #[verifier::loop_isolation(false)]
    pub fn new(statement: &SqlStatement) -> (r: Result<CreateQuery, SqlError>)
        ensures
            match statement@ {
                StatementV::CreateTable { name, columns } => match build_columns(
                    name,
                    columns,
                    Seq::empty(),
                ) {
                    Ok(cols) => r matches Ok(cq) && cq@.table_name == name && cq@.columns == cols,
                    Err(e) => r matches Err(err) && err@ == e,
                },
                _ => r matches Err(err) && err@ == ErrorV::ParseError,
            },
    {
        match statement {
            SqlStatement::CreateTable { name, columns } => {
                let ghost table_v: Seq<char> = name@;
                let ghost decls: Seq<crate::statement::ColumnDeclV> =
                    crate::statement::decls_v(columns@);
                let mut parsed: Vec<ParsedColumn> = Vec::new();
                let n = columns.len();
                let mut idx: usize = 0;
                proof {
                    assert(decls.skip(0) =~= decls);
                    assert(cols_v(parsed@) =~= Seq::<ColumnV>::empty());
                }
                while idx < n
                    invariant
                        0 <= idx <= n == columns@.len(),
                        decls == crate::statement::decls_v(columns@),
                        table_v == name@,
                        build_columns(table_v, decls, Seq::empty()) == build_columns(
                            table_v,
                            decls.skip(idx as int),
                            cols_v(parsed@),
                        ),
                    decreases n - idx,
                {
                    let ghost rest = decls.skip(idx as int);
                    proof {
                        assert(rest[0] == decls[idx as int]);
                        assert(rest.drop_first() =~= decls.skip(idx as int + 1));
                    }
                    let decl = &columns[idx];
                    if column_named_exec(&parsed, &decl.name) {
                        return Err(SqlError::SchemaError(SchemaIssue::DuplicateColumn(
                            decl.name.clone(),
                        )));
                    }
                    let ty = data_type_to_logical(decl.data_type);
                    let prev_pk = has_primary_exec(&parsed);
                    let mut flags = Flags { is_pk: false, not_null: false, is_unique: false };
                    let m = decl.options.len();
                    let mut j: usize = 0;
                    proof {
                        assert(decl@.options.skip(0) =~= decl@.options);
                    }
                    while j < m
                        invariant
                            0 <= j <= m == decl@.options.len(),
                            ty == map_type(decl@.data_type),
                            resolve_options(ty, decl@.options, prev_pk, no_flags())
                                == resolve_options(
                                ty,
                                decl@.options.skip(j as int),
                                prev_pk,
                                flags,
                            ),
                        decreases m - j,
                    {
                        let ghost opts_rest = decl@.options.skip(j as int);
                        proof {
                            assert(opts_rest[0] == decl@.options[j as int]);
                            assert(opts_rest.drop_first() =~= decl@.options.skip(j as int + 1));
                        }
                        let opt = decl.options[j];
                        match opt {
                            ColumnOptionDecl::Unique { is_primary } => {
                                if ty == LogicalType::Integer || ty == LogicalType::Text {
                                    if is_primary {
                                        if prev_pk {
                                            proof {
                                                assert(resolve_options(
                                                    ty,
                                                    decl@.options,
                                                    prev_pk,
                                                    no_flags(),
                                                ) is Err);
                                            }
                                            return Err(SqlError::SchemaError(
                                                SchemaIssue::MultiplePrimaryKeys(name.clone()),
                                            ));
                                        }
                                        flags.not_null = true;
                                    }
                                    flags.is_pk = is_primary;
                                    flags.is_unique = true;
                                }
                            },
                            ColumnOptionDecl::NotNull => {
                                flags.not_null = true;
                            },
                            ColumnOptionDecl::Other => {},
                        }
                        j += 1;
                    }
                    let built = ParsedColumn {
                        name: decl.name.clone(),
                        datatype: ty,
                        is_pk: flags.is_pk,
                        not_null: flags.not_null,
                        is_unique: flags.is_unique,
                    };
                    proof {
                        assert(cols_v(parsed@.push(built)) =~= cols_v(parsed@).push(built@));
                    }
                    parsed.push(built);
                    idx += 1;
                }
                proof {
                    assert(decls.skip(n as int) =~= Seq::<crate::statement::ColumnDeclV>::empty());
                }
                Ok(CreateQuery { table_name: name.clone(), columns: parsed })
            },
            _ => Err(SqlError::ParseError),
        }
    }
}

} // verus!
