use vstd::prelude::*;

verus! {

/// Why a `CREATE TABLE` statement was rejected by the schema builder,
/// or why an `INSERT` named columns the table does not have.
#[derive(Debug, Clone, PartialEq, Eq)]
pub enum SchemaIssue {
    /// A column declaration repeats the name of an earlier column
    /// of the same statement; the name is carried here.
    DuplicateColumn(String),
    /// A second column of the table would become its primary key;
    /// the table name is carried here.
    MultiplePrimaryKeys(String),
    /// An `INSERT` statement names at least one column that does not
    /// exist on the target table.
    UnknownColumns,
}

/// Every failure the statement pipeline can report. A failure aborts only
/// the current statement; the database is left exactly as the contracts of
/// the processing functions state.
#[derive(Debug, Clone, PartialEq, Eq)]
pub enum SqlError {
    /// Malformed or conflicting table and column definitions.
    SchemaError(SchemaIssue),
    /// A table of the carried name already exists in the registry.
    Conflict(String),
    /// No table of the carried name exists in the registry.
    NotFound(String),
    /// A value tuple's length differs from the number of named columns.
    ArityError { supplied: usize, expected: usize },
    /// Inserting would duplicate an existing value in the carried
    /// unique column.
    ConstraintViolation(String),
    /// The statement kind is not supported by this store.
    NotImplemented,
    /// The statement tree has a shape the invoked builder does not accept.
    ParseError,
}

/// Mathematical image of `SchemaIssue`, used in contracts.
pub enum SchemaIssueV {
    DuplicateColumn(Seq<char>),
    MultiplePrimaryKeys(Seq<char>),
    UnknownColumns,
}

/// Mathematical image of `SqlError`, used in contracts.
pub enum ErrorV {
    SchemaError(SchemaIssueV),
    Conflict(Seq<char>),
    NotFound(Seq<char>),
    ArityError { supplied: int, expected: int },
    ConstraintViolation(Seq<char>),
    NotImplemented,
    ParseError,
}

impl View for SchemaIssue {
    type V = SchemaIssueV;

    open spec fn view(&self) -> SchemaIssueV {
        match self {
            SchemaIssue::DuplicateColumn(name) => SchemaIssueV::DuplicateColumn(name@),
            SchemaIssue::MultiplePrimaryKeys(table) => SchemaIssueV::MultiplePrimaryKeys(table@),
            SchemaIssue::UnknownColumns => SchemaIssueV::UnknownColumns,
        }
    }
}

impl View for SqlError {
    type V = ErrorV;

    open spec fn view(&self) -> ErrorV {
        match self {
            SqlError::SchemaError(issue) => ErrorV::SchemaError(issue@),
            SqlError::Conflict(name) => ErrorV::Conflict(name@),
            SqlError::NotFound(name) => ErrorV::NotFound(name@),
            SqlError::ArityError { supplied, expected } => ErrorV::ArityError {
                supplied: *supplied as int,
                expected: *expected as int,
            },
            SqlError::ConstraintViolation(column) => ErrorV::ConstraintViolation(column@),
            SqlError::NotImplemented => ErrorV::NotImplemented,
            SqlError::ParseError => ErrorV::ParseError,
        }
    }
}

} // verus!
