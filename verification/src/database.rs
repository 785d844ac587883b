use vstd::prelude::*;

use crate::create::{cols_wf, CreateQuery};
use crate::error::{ErrorV, SqlError};
use crate::table::{find_first, lemma_find_first, Table, TableV};

verus! {

/// The database registry: a name and the set of named tables it owns.
/// Tables are installed only through `create_table` and reached only
/// through the lookup functions, which keeps names unique.
#[derive(Debug)]
pub struct Database {
    /// Name of this database (schema name, not a file name).
    pub db_name: String,
    /// The tables of this database, each name unique.
    pub tables: Vec<Table>,
}

/// Mathematical image of `Database`.
#[verifier::ext_equal]
pub struct DatabaseV {
    pub db_name: Seq<char>,
    pub tables: Seq<TableV>,
}

/// Image of a table sequence.
pub open spec fn tables_v(tables: Seq<Table>) -> Seq<TableV> {
    tables.map_values(|t: Table| t@)
}

impl View for Database {
    type V = DatabaseV;

    open spec fn view(&self) -> DatabaseV {
        DatabaseV { db_name: self.db_name@, tables: tables_v(self.tables@) }
    }
}

/// The names of a table sequence, in order.
pub open spec fn table_names(tables: Seq<TableV>) -> Seq<Seq<char>> {
    tables.map_values(|t: TableV| t.name)
}

/// The first position of the table carrying `name`, or `tables.len()`.
pub open spec fn tbl_pos(tables: Seq<TableV>, name: Seq<char>) -> int {
    find_first(table_names(tables), name)
}

impl DatabaseV {
    /// Well-formedness: every table is well-formed and table names are
    /// unique.
    pub open spec fn wf(self) -> bool {
        &&& forall|i: int| 0 <= i < self.tables.len() ==> (#[trigger] self.tables[i]).wf()
        &&& forall|i: int, j: int|
            0 <= i < self.tables.len() && 0 <= j < self.tables.len() && i != j
                ==> (#[trigger] self.tables[i]).name != (#[trigger] self.tables[j]).name
    }

    pub open spec fn has_table(self, name: Seq<char>) -> bool {
        exists|i: int| 0 <= i < self.tables.len() && (#[trigger] self.tables[i]).name == name
    }

    pub open spec fn table_at(self, name: Seq<char>) -> TableV {
        self.tables[tbl_pos(self.tables, name)]
    }
}

/// What the first-position scan certifies of a table sequence: the found
/// table carries the name, earlier tables do not, and the position falls
/// short of the length exactly when some table carries the name.
pub proof fn lemma_tbl_pos(tables: Seq<TableV>, name: Seq<char>)
    ensures
        0 <= tbl_pos(tables, name) <= tables.len(),
        tbl_pos(tables, name) < tables.len() ==> tables[tbl_pos(tables, name)].name == name,
        forall|k: int| 0 <= k < tbl_pos(tables, name) ==> (#[trigger] tables[k]).name != name,
        (tbl_pos(tables, name) < tables.len()) == (exists|i: int|
            0 <= i < tables.len() && (#[trigger] tables[i]).name == name),
{
    lemma_find_first(table_names(tables), name);
    let p = tbl_pos(tables, name);
    assert(forall|k: int|
        0 <= k < tables.len() ==> table_names(tables)[k] == (#[trigger] tables[k]).name);
    if p < tables.len() {
        assert(tables[p].name == name);
    } else {
        assert forall|i: int| 0 <= i < tables.len() implies (#[trigger] tables[i]).name != name by {
            assert(table_names(tables)[i] != name);
        }
    }
}

impl Database {
    pub open spec fn wf(self) -> bool {
        self@.wf()
    }

    /// Creates an empty database under the given schema name.
    pub fn new(db_name: String) -> (db: Database)
        ensures
            db@.db_name == db_name@,
            db@.tables =~= Seq::<TableV>::empty(),
            db.wf(),
    {
        let tables: Vec<Table> = Vec::new();
        proof {
            assert(tables_v(tables@) =~= Seq::<TableV>::empty());
        }
        Database { db_name, tables }
    }

    fn find_table(&self, name: &String) -> (r: usize)
        ensures
            r as int == tbl_pos(self@.tables, name@),
            r <= self@.tables.len(),
    {
        let n = self.tables.len();
        let mut i: usize = 0;
        while i < n
            invariant
                0 <= i <= n == self@.tables.len(),
                forall|k: int| 0 <= k < i ==> table_names(self@.tables)[k] != name@,
            decreases n - i,
        {
            if self.tables[i].name == *name {
                proof {
                    assert(table_names(self@.tables)[i as int] == name@);
                    crate::table::lemma_find_first_at(table_names(self@.tables), name@, i as int);
                }
                return i;
            }
            i += 1;
        }
        proof {
            crate::table::lemma_find_first_at(table_names(self@.tables), name@, n as int);
        }
        n
    }

    /// Case-sensitive exact-name membership test.
    pub fn contains_table(&self, table_name: String) -> (r: bool)
        ensures
            r == self@.has_table(table_name@),
    {
        let i = self.find_table(&table_name);
        proof {
            lemma_tbl_pos(self@.tables, table_name@);
        }
        i < self.tables.len()
    }

    /// Looks a table up by name; `NotFound` carries the name when absent.
    pub fn get_table(&self, table_name: String) -> (r: Result<&Table, SqlError>)
        ensures
            match r {
                Ok(t) => self@.has_table(table_name@) && t@ == self@.table_at(table_name@),
                Err(e) => !self@.has_table(table_name@) && e@ == ErrorV::NotFound(table_name@),
            },
    {
        let i = self.find_table(&table_name);
        proof {
            lemma_tbl_pos(self@.tables, table_name@);
        }
        if i < self.tables.len() {
            Ok(&self.tables[i])
        } else {
            Err(SqlError::NotFound(table_name))
        }
    }

    /// Looks a table up by name for mutation; the sole path by which the
    /// insert pipeline reaches a table's row storage.
    pub fn get_table_mut(&mut self, table_name: String) -> (r: Result<&mut Table, SqlError>)
        ensures
            match r {
                Ok(t) => old(self)@.has_table(table_name@) && *t == old(self).tables@[tbl_pos(
                    old(self)@.tables,
                    table_name@,
                )] && final(self).tables@ == old(self).tables@.update(
                    tbl_pos(old(self)@.tables, table_name@),
                    *final(t),
                ) && final(self).db_name == old(self).db_name,
                Err(e) => !old(self)@.has_table(table_name@) && *final(self) == *old(self) && e@
                    == ErrorV::NotFound(table_name@),
            },
    {
        let i = self.find_table(&table_name);
        proof {
            lemma_tbl_pos(self@.tables, table_name@);
        }
        if i < self.tables.len() {
            Ok(vstd::std_specs::vec::vec_index_mut(&mut self.tables, i))
        } else {
            Err(SqlError::NotFound(table_name))
        }
    }

    /// Installs a table descriptor as a fresh, empty table, unless a table
    /// of that name already exists (`Conflict`, carrying the name). The
    /// membership check comes strictly first, so a collision never touches
    /// existing data.
    pub fn create_table(&mut self, descriptor: CreateQuery) -> (r: Result<(), SqlError>)
        requires
            old(self).wf(),
            cols_wf(descriptor@.columns),
        ensures
            final(self).wf(),
            match r {
                Ok(_) => !old(self)@.has_table(descriptor.table_name@) && final(self)@.db_name
                    == old(self)@.db_name && final(self)@.tables =~= old(self)@.tables.push(
                    TableV {
                        name: descriptor.table_name@,
                        columns: descriptor@.columns,
                        rows: Seq::empty(),
                    },
                ),
                Err(e) => old(self)@.has_table(descriptor.table_name@) && *final(self) == *old(
                    self,
                ) && e@ == ErrorV::Conflict(descriptor.table_name@),
            },
    {
        if self.contains_table(descriptor.table_name.clone()) {
            return Err(SqlError::Conflict(descriptor.table_name));
        }
        let ghost old_tables = self@.tables;
        let ghost name_v = descriptor.table_name@;
        let ghost cols0 = descriptor@.columns;
        let table = Table::new(descriptor);
        self.tables.push(table);
        proof {
            let fresh = TableV { name: name_v, columns: cols0, rows: Seq::empty() };
            let nt = self@.tables;
            assert(nt =~= old_tables.push(fresh));
            assert forall|i: int| 0 <= i < nt.len() implies (#[trigger] nt[i]).wf() by {
                if i < nt.len() - 1 {
                    assert(nt[i] == old_tables[i]);
                    assert(old_tables[i].wf());
                } else {
                    assert(nt[i] =~= fresh);
                }
            }
            assert forall|i: int, j: int|
                0 <= i < nt.len() && 0 <= j < nt.len() && i != j implies (#[trigger] nt[i]).name
                != (#[trigger] nt[j]).name by {
                if i == nt.len() - 1 {
                    assert(nt[j] == old_tables[j]);
                } else if j == nt.len() - 1 {
                    assert(nt[i] == old_tables[i]);
                }
            }
        }
        Ok(())
    }
}

} // verus!
