use sqlrite::meta_command::MetaCommand;
use sqlrite::sql::SQLCommand;

#[test]
fn meta_command_exit() {
    assert_eq!(MetaCommand::new(".exit".to_string()), MetaCommand::Exit);
    assert_eq!(MetaCommand::new("  .exit".to_string()), MetaCommand::Exit);
    assert_eq!(MetaCommand::new(".exit now".to_string()), MetaCommand::Exit);
}

#[test]
fn meta_command_help() {
    assert_eq!(MetaCommand::new(".help".to_string()), MetaCommand::Help);
}

#[test]
fn meta_command_open_keeps_line() {
    assert_eq!(
        MetaCommand::new(".open mine.db".to_string()),
        MetaCommand::Open(".open mine.db".to_string())
    );
}

#[test]
fn meta_command_unknown() {
    assert_eq!(MetaCommand::new(".quit".to_string()), MetaCommand::Unknown);
    assert_eq!(MetaCommand::new(".exits".to_string()), MetaCommand::Unknown);
    assert_eq!(MetaCommand::new("   ".to_string()), MetaCommand::Unknown);
}

#[test]
fn sql_command_classification() {
    assert_eq!(
        SQLCommand::new("insert into t values (1)".to_string()),
        SQLCommand::Insert("insert into t values (1)".to_string())
    );
    assert_eq!(
        SQLCommand::new("update t set x = 1".to_string()),
        SQLCommand::Update("update t set x = 1".to_string())
    );
    assert_eq!(
        SQLCommand::new("delete from t".to_string()),
        SQLCommand::Delete("delete from t".to_string())
    );
    assert_eq!(
        SQLCommand::new("create table t (x int)".to_string()),
        SQLCommand::CreateTable("create table t (x int)".to_string())
    );
    assert_eq!(
        SQLCommand::new("select * from t".to_string()),
        SQLCommand::Select("select * from t".to_string())
    );
}

#[test]
fn sql_command_unknown_on_other_input() {
    assert_eq!(SQLCommand::new("drop table t".to_string()), SQLCommand::Unknown("drop table t".to_string()));
    // a leading space makes the first segment empty, as the classifier
    // splits on single spaces
    assert_eq!(
        SQLCommand::new(" insert into t".to_string()),
        SQLCommand::Unknown(" insert into t".to_string())
    );
    assert_eq!(SQLCommand::new("".to_string()), SQLCommand::Unknown("".to_string()));
}
