use vstd::prelude::*;

use crate::create::{build_columns, lemma_build_columns_wf, CreateQuery};
use crate::database::{tables_v, tbl_pos, Database, DatabaseV};
use crate::error::{ErrorV, SchemaIssue, SchemaIssueV, SqlError};
use crate::statement::{SqlStatement, StatementV};
use crate::table::{all_cols_exist, insert_all, TableV};
use crate::text::{head_segment, head_segment_of};

verus! {

/// One raw SQL input line, classified by the token before the first
/// space. Every variant keeps the whole line.
#[derive(Debug, PartialEq)]
pub enum SQLCommand {
    Insert(String),
    Delete(String),
    Update(String),
    CreateTable(String),
    Select(String),
    Unknown(String),
}

impl SQLCommand {
    /// Classifies one input line by its leading token.
    pub fn new(command: String) -> (r: SQLCommand)
        ensures
            ({
                let h = head_segment(command@);
                match r {
                    SQLCommand::Insert(c) => h == "insert"@ && c@ == command@,
                    SQLCommand::Update(c) => h == "update"@ && c@ == command@,
                    SQLCommand::Delete(c) => h == "delete"@ && c@ == command@,
                    SQLCommand::CreateTable(c) => h == "create"@ && c@ == command@,
                    SQLCommand::Select(c) => h == "select"@ && c@ == command@,
                    SQLCommand::Unknown(c) => h != "insert"@ && h != "update"@ && h != "delete"@
                        && h != "create"@ && h != "select"@ && c@ == command@,
                }
            }),
    {
        let h = head_segment_of(command.as_str());
        if h == "insert".to_owned() {
            SQLCommand::Insert(command)
        } else if h == "update".to_owned() {
            SQLCommand::Update(command)
        } else if h == "delete".to_owned() {
            SQLCommand::Delete(command)
        } else if h == "create".to_owned() {
            SQLCommand::CreateTable(command)
        } else if h == "select".to_owned() {
            SQLCommand::Select(command)
        } else {
            SQLCommand::Unknown(command)
        }
    }
}

/// What processing one statement does to the database, and what it
/// returns: the whole dispatcher, schema builder and insert pipeline in
/// one mathematical function.
pub open spec fn process_spec(db: DatabaseV, stmt: StatementV) -> (DatabaseV, Result<
    Seq<char>,
    ErrorV,
>) {
    match stmt {
        StatementV::CreateTable { name, columns } => match build_columns(
            name,
            columns,
            Seq::empty(),
        ) {
            Ok(cols) => if db.has_table(name) {
                (db, Err(ErrorV::Conflict(name)))
            } else {
                (
                    DatabaseV {
                        tables: db.tables.push(
                            TableV { name, columns: cols, rows: Seq::empty() },
                        ),
                        ..db
                    },
                    Ok("CREATE TABLE Statement executed."@),
                )
            },
            Err(e) => (db, Err(e)),
        },
        StatementV::Insert { table_name, columns, rows } => if !db.has_table(table_name) {
            (db, Err(ErrorV::NotFound(table_name)))
        } else {
            let p = tbl_pos(db.tables, table_name);
            let t = db.tables[p];
            if !all_cols_exist(t.columns, columns) {
                (db, Err(ErrorV::SchemaError(SchemaIssueV::UnknownColumns)))
            } else {
                let (t2, res) = insert_all(t, columns, rows);
                (
                    DatabaseV { tables: db.tables.update(p, t2), ..db },
                    match res {
                        Ok(_) => Ok("INSERT Statement executed."@),
                        Err(e) => Err(e),
                    },
                )
            }
        },
        StatementV::Query => (db, Ok("SELECT Statement executed."@)),
        StatementV::Delete => (db, Ok("DELETE Statement executed."@)),
        StatementV::Other => (db, Err(ErrorV::NotImplemented)),
    }
}

/// A second `CREATE TABLE` under a name already present always fails with
/// a conflict and leaves every table — columns and rows — unchanged. (A
/// statement whose own column list does not build is rejected as a schema
/// error before the name is ever looked up.)
pub proof fn lemma_create_conflict(
    db: DatabaseV,
    name: Seq<char>,
    columns: Seq<crate::statement::ColumnDeclV>,
)
    requires
        db.has_table(name),
        build_columns(name, columns, Seq::empty()) is Ok,
    ensures
        process_spec(db, StatementV::CreateTable { name, columns }) == (
            db,
            Err::<Seq<char>, ErrorV>(ErrorV::Conflict(name)),
        ),
{
}

/// A rejected `CREATE TABLE` installs nothing: on any failure of the
/// schema builder — duplicate column or second primary key — the database
/// comes back unchanged, with the builder's own error.
pub proof fn lemma_rejected_create_installs_nothing(
    db: DatabaseV,
    name: Seq<char>,
    columns: Seq<crate::statement::ColumnDeclV>,
)
    requires
        build_columns(name, columns, Seq::empty()) is Err,
    ensures
        process_spec(db, StatementV::CreateTable { name, columns }) == (
            db,
            Err::<Seq<char>, ErrorV>(build_columns(name, columns, Seq::empty())->Err_0),
        ),
{
}

/// Processes one already-parsed statement against the database: installs a
/// schema, drives the insert pipeline, accepts queries and deletes as
/// no-ops, and rejects everything else — exactly as `process_spec` states.
pub fn process_command(statement: &SqlStatement, db: &mut Database) -> (r: Result<
    String,
    SqlError,
>)
    requires
        old(db).wf(),
    ensures
        final(db).wf(),
        ({
            let (db2, res) = process_spec(old(db)@, statement@);
            final(db)@ == db2 && (match r {
                Ok(m) => res matches Ok(mv) && m@ == mv,
                Err(e) => res matches Err(ev) && e@ == ev,
            })
        }),
{
    match statement {
        SqlStatement::CreateTable { .. } => {
            let cq = match CreateQuery::new(statement) {
                Ok(cq) => cq,
                Err(e) => {
                    return Err(e);
                },
            };
            proof {
                if let StatementV::CreateTable { name, columns } = statement@ {
                    lemma_build_columns_wf(name, columns, Seq::empty());
                }
            }
            match db.create_table(cq) {
                Ok(_) => Ok("CREATE TABLE Statement executed.".to_owned()),
                Err(e) => Err(e),
            }
        },
        SqlStatement::Insert { table_name, columns, rows } => {
            let ghost db0 = db@;
            let ghost p = tbl_pos(db@.tables, table_name@);
            let t = match db.get_table_mut(table_name.clone()) {
                Ok(t) => t,
                Err(e) => {
                    return Err(e);
                },
            };
            proof {
                crate::database::lemma_tbl_pos(db0.tables, table_name@);
                assert(0 <= p < old(db).tables@.len());
                assert(db0.tables[p] == old(db).tables@[p]@);
            }
            if !t.contains_all_columns(columns) {
                proof {
                    assert(tables_v(old(db).tables@.update(p, *t)) =~= db0.tables);
                }
                return Err(SqlError::SchemaError(SchemaIssue::UnknownColumns));
            }
            let res = t.insert_rows(columns, rows);
            proof {
                assert(tables_v(old(db).tables@.update(p, *t)) =~= db0.tables.update(p, (*t)@));
                crate::table::lemma_insert_all_shape(
                    db0.tables[p],
                    columns.deep_view(),
                    rows.deep_view(),
                );
                let nt = db0.tables.update(p, (*t)@);
                assert((*t)@.name == db0.tables[p].name);
                assert forall|i: int, j: int|
                    0 <= i < nt.len() && 0 <= j < nt.len() && i != j implies (
                #[trigger] nt[i]).name != (#[trigger] nt[j]).name by {
                    assert(db0.tables[i].name != db0.tables[j].name);
                    assert(nt[i].name == db0.tables[i].name || i == p);
                    assert(nt[j].name == db0.tables[j].name || j == p);
                }
                assert forall|i: int| 0 <= i < nt.len() implies (#[trigger] nt[i]).wf() by {
                    if i != p {
                        assert(nt[i] == db0.tables[i]);
                    }
                }
            }
            match res {
                Ok(_) => Ok("INSERT Statement executed.".to_owned()),
                Err(e) => Err(e),
            }
        },
        SqlStatement::Query => Ok("SELECT Statement executed.".to_owned()),
        SqlStatement::Delete => Ok("DELETE Statement executed.".to_owned()),
        SqlStatement::Other => Err(SqlError::NotImplemented),
    }
}

} // verus!
