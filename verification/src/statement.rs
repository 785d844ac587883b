use vstd::prelude::*;

verus! {

/// The declared type of one column, as the external parser reports it.
/// Only the variants below are recognized; everything else arrives as
/// `Other` and maps to the `Invalid` logical type.
#[derive(Debug, Clone, Copy, PartialEq, Eq, Structural)]
pub enum DataTypeDecl {
    SmallInt,
    Int,
    BigInt,
    Boolean,
    Text,
    Varchar,
    Real,
    Float,
    Double,
    Decimal,
    Other,
}

/// One option attached to a column declaration. `Unique { is_primary: true }`
/// stands for `PRIMARY KEY`, `Unique { is_primary: false }` for `UNIQUE`.
/// Options the builder does not interpret arrive as `Other`.
#[derive(Debug, Clone, Copy, PartialEq, Eq, Structural)]
pub enum ColumnOptionDecl {
    Unique { is_primary: bool },
    NotNull,
    Other,
}

/// One column declaration of a `CREATE TABLE` statement.
#[derive(Debug, Clone)]
pub struct ColumnDecl {
    pub name: String,
    pub data_type: DataTypeDecl,
    pub options: Vec<ColumnOptionDecl>,
}

/// Mathematical image of `ColumnDecl`.
pub struct ColumnDeclV {
    pub name: Seq<char>,
    pub data_type: DataTypeDecl,
    pub options: Seq<ColumnOptionDecl>,
}

impl View for ColumnDecl {
    type V = ColumnDeclV;

    open spec fn view(&self) -> ColumnDeclV {
        ColumnDeclV { name: self.name@, data_type: self.data_type, options: self.options@ }
    }
}

/// Image of a column declaration sequence.
pub open spec fn decls_v(decls: Seq<ColumnDecl>) -> Seq<ColumnDeclV> {
    decls.map_values(|c: ColumnDecl| c@)
}

/// One already-parsed SQL statement, as the external parsing collaborator
/// hands it to the dispatcher. `Query` and `Delete` are accepted as no-ops
/// at this layer; `Other` covers every unsupported statement kind.
#[derive(Debug, Clone)]
pub enum SqlStatement {
    CreateTable { name: String, columns: Vec<ColumnDecl> },
    Insert { table_name: String, columns: Vec<String>, rows: Vec<Vec<String>> },
    Query,
    Delete,
    Other,
}

/// Mathematical image of `SqlStatement`.
pub enum StatementV {
    CreateTable { name: Seq<char>, columns: Seq<ColumnDeclV> },
    Insert { table_name: Seq<char>, columns: Seq<Seq<char>>, rows: Seq<Seq<Seq<char>>> },
    Query,
    Delete,
    Other,
}

impl View for SqlStatement {
    type V = StatementV;

    open spec fn view(&self) -> StatementV {
        match self {
            SqlStatement::CreateTable { name, columns } => StatementV::CreateTable {
                name: name@,
                columns: decls_v(columns@),
            },
            SqlStatement::Insert { table_name, columns, rows } => StatementV::Insert {
                table_name: table_name@,
                columns: columns.deep_view(),
                rows: rows.deep_view(),
            },
            SqlStatement::Query => StatementV::Query,
            SqlStatement::Delete => StatementV::Delete,
            SqlStatement::Other => StatementV::Other,
        }
    }
}

} // verus!
