use sqlrite::create::LogicalType;
use sqlrite::database::Database;
use sqlrite::error::{SchemaIssue, SqlError};
use sqlrite::sql::process_command;
use sqlrite::statement::{ColumnDecl, ColumnOptionDecl, DataTypeDecl, SqlStatement};

fn col(name: &str, data_type: DataTypeDecl, options: Vec<ColumnOptionDecl>) -> ColumnDecl {
    ColumnDecl { name: name.to_string(), data_type, options }
}

fn pk() -> ColumnOptionDecl {
    ColumnOptionDecl::Unique { is_primary: true }
}

fn unique() -> ColumnOptionDecl {
    ColumnOptionDecl::Unique { is_primary: false }
}

fn create(name: &str, columns: Vec<ColumnDecl>) -> SqlStatement {
    SqlStatement::CreateTable { name: name.to_string(), columns }
}

fn insert(table: &str, columns: &[&str], rows: &[&[&str]]) -> SqlStatement {
    SqlStatement::Insert {
        table_name: table.to_string(),
        columns: columns.iter().map(|c| c.to_string()).collect(),
        rows: rows
            .iter()
            .map(|r| r.iter().map(|v| v.to_string()).collect())
            .collect(),
    }
}

#[test]
fn database_new_is_empty() {
    let db = Database::new("mydb".to_string());
    assert_eq!(db.db_name, "mydb".to_string());
    assert!(!db.contains_table("users".to_string()));
    assert!(db.get_table("users".to_string()).is_err());
}

#[test]
fn create_table_columns_in_declaration_order() {
    let mut db = Database::new("mydb".to_string());
    let stmt = create(
        "users",
        vec![
            col("id", DataTypeDecl::Int, vec![pk()]),
            col("name", DataTypeDecl::Text, vec![]),
            col("age", DataTypeDecl::Int, vec![ColumnOptionDecl::NotNull]),
        ],
    );
    let msg = process_command(&stmt, &mut db).unwrap();
    assert_eq!(msg, "CREATE TABLE Statement executed.".to_string());
    let t = db.get_table("users".to_string()).unwrap();
    let names: Vec<String> = t.columns.iter().map(|c| c.name.clone()).collect();
    assert_eq!(names, vec!["id".to_string(), "name".to_string(), "age".to_string()]);
    assert_eq!(t.columns[0].datatype, LogicalType::Integer);
    assert!(t.columns[0].is_pk && t.columns[0].is_unique && t.columns[0].not_null);
    assert_eq!(t.columns[1].datatype, LogicalType::Text);
    assert!(!t.columns[1].is_pk && !t.columns[1].is_unique && !t.columns[1].not_null);
    assert!(!t.columns[2].is_pk && !t.columns[2].is_unique && t.columns[2].not_null);
    assert!(t.rows.is_empty());
}

#[test]
fn create_table_duplicate_column_rejected() {
    let mut db = Database::new("mydb".to_string());
    let stmt = create(
        "t",
        vec![col("x", DataTypeDecl::Int, vec![]), col("x", DataTypeDecl::Text, vec![])],
    );
    let err = process_command(&stmt, &mut db).unwrap_err();
    assert_eq!(err, SqlError::SchemaError(SchemaIssue::DuplicateColumn("x".to_string())));
    assert!(!db.contains_table("t".to_string()));
}

#[test]
fn create_table_two_primary_keys_rejected() {
    let mut db = Database::new("mydb".to_string());
    let stmt = create(
        "t",
        vec![col("a", DataTypeDecl::Int, vec![pk()]), col("b", DataTypeDecl::Text, vec![pk()])],
    );
    let err = process_command(&stmt, &mut db).unwrap_err();
    assert_eq!(err, SqlError::SchemaError(SchemaIssue::MultiplePrimaryKeys("t".to_string())));
    assert!(!db.contains_table("t".to_string()));
}

#[test]
fn key_options_on_real_and_bool_are_ignored() {
    let mut db = Database::new("mydb".to_string());
    let stmt = create(
        "t",
        vec![
            col("r", DataTypeDecl::Real, vec![pk()]),
            col("b", DataTypeDecl::Boolean, vec![unique()]),
        ],
    );
    process_command(&stmt, &mut db).unwrap();
    let t = db.get_table("t".to_string()).unwrap();
    assert_eq!(t.columns[0].datatype, LogicalType::Real);
    assert!(!t.columns[0].is_pk && !t.columns[0].is_unique);
    assert_eq!(t.columns[1].datatype, LogicalType::Bool);
    assert!(!t.columns[1].is_pk && !t.columns[1].is_unique);
}

#[test]
fn type_mapping_covers_all_declared_types() {
    let mut db = Database::new("mydb".to_string());
    let stmt = create(
        "t",
        vec![
            col("a", DataTypeDecl::SmallInt, vec![]),
            col("b", DataTypeDecl::BigInt, vec![]),
            col("c", DataTypeDecl::Varchar, vec![]),
            col("d", DataTypeDecl::Float, vec![]),
            col("e", DataTypeDecl::Double, vec![]),
            col("f", DataTypeDecl::Decimal, vec![]),
            col("g", DataTypeDecl::Other, vec![]),
        ],
    );
    process_command(&stmt, &mut db).unwrap();
    let t = db.get_table("t".to_string()).unwrap();
    let types: Vec<LogicalType> = t.columns.iter().map(|c| c.datatype).collect();
    assert_eq!(
        types,
        vec![
            LogicalType::Integer,
            LogicalType::Integer,
            LogicalType::Text,
            LogicalType::Real,
            LogicalType::Real,
            LogicalType::Real,
            LogicalType::Invalid,
        ]
    );
}

#[test]
fn unique_violation_leaves_rows_unchanged() {
    let mut db = Database::new("mydb".to_string());
    process_command(&create("t", vec![col("id", DataTypeDecl::Int, vec![pk()])]), &mut db)
        .unwrap();
    process_command(&insert("t", &["id"], &[&["1"]]), &mut db).unwrap();
    let err = process_command(&insert("t", &["id"], &[&["1"]]), &mut db).unwrap_err();
    assert_eq!(err, SqlError::ConstraintViolation("id".to_string()));
    let t = db.get_table("t".to_string()).unwrap();
    assert_eq!(t.rows.len(), 1);
}

#[test]
fn failing_tuple_keeps_earlier_tuples_only() {
    let mut db = Database::new("mydb".to_string());
    process_command(&create("t", vec![col("id", DataTypeDecl::Int, vec![pk()])]), &mut db)
        .unwrap();
    let err = process_command(&insert("t", &["id"], &[&["1"], &["1"], &["2"]]), &mut db)
        .unwrap_err();
    assert_eq!(err, SqlError::ConstraintViolation("id".to_string()));
    let t = db.get_table("t".to_string()).unwrap();
    assert_eq!(t.rows.len(), 1);
    assert_eq!(t.rows[0], vec!["1".to_string()]);
}

#[test]
fn unique_text_column_without_primary_key_is_enforced() {
    let mut db = Database::new("mydb".to_string());
    process_command(
        &create(
            "t",
            vec![
                col("id", DataTypeDecl::Int, vec![]),
                col("email", DataTypeDecl::Text, vec![unique()]),
            ],
        ),
        &mut db,
    )
    .unwrap();
    process_command(&insert("t", &["id", "email"], &[&["1", "a@b"]]), &mut db).unwrap();
    let err = process_command(&insert("t", &["id", "email"], &[&["2", "a@b"]]), &mut db)
        .unwrap_err();
    assert_eq!(err, SqlError::ConstraintViolation("email".to_string()));
    // the plain integer column is not unique, so a duplicate there passes
    process_command(&insert("t", &["id", "email"], &[&["1", "c@d"]]), &mut db).unwrap();
    let t = db.get_table("t".to_string()).unwrap();
    assert_eq!(t.rows.len(), 2);
}

#[test]
fn arity_mismatch_appends_no_row() {
    let mut db = Database::new("mydb".to_string());
    process_command(
        &create("t", vec![col("a", DataTypeDecl::Int, vec![]), col("b", DataTypeDecl::Int, vec![])]),
        &mut db,
    )
    .unwrap();
    let err = process_command(&insert("t", &["a", "b"], &[&["1", "2", "3"]]), &mut db)
        .unwrap_err();
    assert_eq!(err, SqlError::ArityError { supplied: 3, expected: 2 });
    let t = db.get_table("t".to_string()).unwrap();
    assert_eq!(t.rows.len(), 0);
}

#[test]
fn end_to_end_primary_key_round() {
    let mut db = Database::new("mydb".to_string());
    process_command(
        &create(
            "users",
            vec![col("id", DataTypeDecl::Int, vec![pk()]), col("name", DataTypeDecl::Text, vec![])],
        ),
        &mut db,
    )
    .unwrap();
    let msg = process_command(&insert("users", &["id", "name"], &[&["1", "a"]]), &mut db)
        .unwrap();
    assert_eq!(msg, "INSERT Statement executed.".to_string());
    let err = process_command(&insert("users", &["id", "name"], &[&["1", "b"]]), &mut db)
        .unwrap_err();
    assert_eq!(err, SqlError::ConstraintViolation("id".to_string()));
    let t = db.get_table("users".to_string()).unwrap();
    assert_eq!(t.rows.len(), 1);
    assert_eq!(t.rows[0], vec!["1".to_string(), "a".to_string()]);
}

#[test]
fn second_create_of_same_name_conflicts() {
    let mut db = Database::new("mydb".to_string());
    let stmt = create("t", vec![col("x", DataTypeDecl::Int, vec![])]);
    process_command(&stmt, &mut db).unwrap();
    process_command(&insert("t", &["x"], &[&["7"]]), &mut db).unwrap();
    let stmt2 = create("t", vec![col("x", DataTypeDecl::Int, vec![])]);
    let err = process_command(&stmt2, &mut db).unwrap_err();
    assert_eq!(err, SqlError::Conflict("t".to_string()));
    let t = db.get_table("t".to_string()).unwrap();
    assert_eq!(t.columns.len(), 1);
    assert_eq!(t.columns[0].name, "x".to_string());
    assert_eq!(t.rows.len(), 1);
}

#[test]
fn insert_into_missing_table_not_found() {
    let mut db = Database::new("mydb".to_string());
    let err = process_command(&insert("missing", &["a"], &[&["1"]]), &mut db).unwrap_err();
    assert_eq!(err, SqlError::NotFound("missing".to_string()));
}

#[test]
fn insert_naming_unknown_column_rejected() {
    let mut db = Database::new("mydb".to_string());
    process_command(&create("t", vec![col("a", DataTypeDecl::Int, vec![])]), &mut db).unwrap();
    let err = process_command(&insert("t", &["a", "zz"], &[&["1", "2"]]), &mut db).unwrap_err();
    assert_eq!(err, SqlError::SchemaError(SchemaIssue::UnknownColumns));
    let t = db.get_table("t".to_string()).unwrap();
    assert_eq!(t.rows.len(), 0);
}

#[test]
fn unnamed_columns_get_empty_placeholder() {
    let mut db = Database::new("mydb".to_string());
    process_command(
        &create(
            "t",
            vec![col("a", DataTypeDecl::Int, vec![]), col("b", DataTypeDecl::Text, vec![])],
        ),
        &mut db,
    )
    .unwrap();
    process_command(&insert("t", &["b"], &[&["x"]]), &mut db).unwrap();
    let t = db.get_table("t".to_string()).unwrap();
    assert_eq!(t.rows[0], vec!["".to_string(), "x".to_string()]);
}

#[test]
fn query_and_delete_are_noops() {
    let mut db = Database::new("mydb".to_string());
    assert_eq!(
        process_command(&SqlStatement::Query, &mut db).unwrap(),
        "SELECT Statement executed.".to_string()
    );
    assert_eq!(
        process_command(&SqlStatement::Delete, &mut db).unwrap(),
        "DELETE Statement executed.".to_string()
    );
}

#[test]
fn unsupported_statement_not_implemented() {
    let mut db = Database::new("mydb".to_string());
    let err = process_command(&SqlStatement::Other, &mut db).unwrap_err();
    assert_eq!(err, SqlError::NotImplemented);
}

#[test]
fn create_query_rejects_other_statement_shapes() {
    let err = sqlrite::create::CreateQuery::new(&SqlStatement::Query).unwrap_err();
    assert_eq!(err, SqlError::ParseError);
    let cq = sqlrite::create::CreateQuery::new(&create(
        "t",
        vec![col("x", DataTypeDecl::Int, vec![])],
    ))
    .unwrap();
    assert_eq!(cq.table_name, "t".to_string());
    assert_eq!(cq.columns.len(), 1);
}

#[test]
fn get_table_mut_reaches_row_storage() {
    let mut db = Database::new("mydb".to_string());
    process_command(&create("t", vec![col("a", DataTypeDecl::Int, vec![])]), &mut db).unwrap();
    assert!(db.get_table_mut("missing".to_string()).is_err());
    let t = db.get_table_mut("t".to_string()).unwrap();
    t.rows.push(vec!["9".to_string()]);
    let t2 = db.get_table("t".to_string()).unwrap();
    assert_eq!(t2.rows.len(), 1);
}
