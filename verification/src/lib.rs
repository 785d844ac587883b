pub mod error;
pub mod statement;
pub mod create;
pub mod table;
pub mod database;
pub mod text;
pub mod meta_command;
pub mod sql;
