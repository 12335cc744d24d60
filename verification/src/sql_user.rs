//! The statements behind the accounts.

use crate::config::SqlMode;
use crate::statement::{Param, Rendered, SqlValue, Statement};
use vstd::prelude::*;

verus! {

/// The statement that creates the table of accounts, if it is not there.
pub fn create_user_table() -> (statement: Statement)
    ensures
        statement@ == Rendered::empty()
            .text("CREATE TABLE IF NOT EXISTS user (id INTEGER PRIMARY KEY AUTOINCREMENT, email TEXT NOT NULL UNIQUE, password TEXT NOT NULL);"@),
{
    Statement::new()
        .text("CREATE TABLE IF NOT EXISTS user (id INTEGER PRIMARY KEY AUTOINCREMENT, email TEXT NOT NULL UNIQUE, password TEXT NOT NULL);")
}

/// The statement that adds an account.
pub fn register_user(mode: SqlMode, email: &str, password: &str) -> (statement: Statement)
    ensures
        statement@ == Rendered::empty()
            .text("INSERT INTO user (email, password) VALUES ("@)
            .bind(mode, Param::Text(email@))
            .text(", "@)
            .bind(mode, Param::Text(password@))
            .text(");"@),
{
    Statement::new()
        .text("INSERT INTO user (email, password) VALUES (")
        .bind(mode, SqlValue::Text(email.to_owned()))
        .text(", ")
        .bind(mode, SqlValue::Text(password.to_owned()))
        .text(");")
}

/// The statement that reads the id of the account with this address and this
/// password.
pub fn login_user(mode: SqlMode, email: &str, password: &str) -> (statement: Statement)
    ensures
        statement@ == Rendered::empty()
            .text("SELECT id FROM user WHERE email = "@)
            .bind(mode, Param::Text(email@))
            .text(" AND password = "@)
            .bind(mode, Param::Text(password@))
            .text(";"@),
{
    Statement::new()
        .text("SELECT id FROM user WHERE email = ")
        .bind(mode, SqlValue::Text(email.to_owned()))
        .text(" AND password = ")
        .bind(mode, SqlValue::Text(password.to_owned()))
        .text(";")
}

/// The statement that gives an account another password.
pub fn change_password(mode: SqlMode, email: &str, password: &str) -> (statement: Statement)
    ensures
        statement@ == Rendered::empty()
            .text("UPDATE user SET password = "@)
            .bind(mode, Param::Text(password@))
            .text(" WHERE email = "@)
            .bind(mode, Param::Text(email@))
            .text(";"@),
{
    Statement::new()
        .text("UPDATE user SET password = ")
        .bind(mode, SqlValue::Text(password.to_owned()))
        .text(" WHERE email = ")
        .bind(mode, SqlValue::Text(email.to_owned()))
        .text(";")
}

/// The statement that reads every account.
pub fn get_all_user() -> (statement: Statement)
    ensures
        statement@ == Rendered::empty()
            .text("SELECT email, password FROM user;"@),
{
    Statement::new()
        .text("SELECT email, password FROM user;")
}

/// The statement that reads the id of the account with this address.
pub fn get_user_id(mode: SqlMode, email: &str) -> (statement: Statement)
    ensures
        statement@ == Rendered::empty()
            .text("SELECT id FROM user WHERE email = "@)
            .bind(mode, Param::Text(email@))
            .text(";"@),
{
    Statement::new()
        .text("SELECT id FROM user WHERE email = ")
        .bind(mode, SqlValue::Text(email.to_owned()))
        .text(";")
}

/// The statement that removes the account with this address.
pub fn delete_user(mode: SqlMode, email: &str) -> (statement: Statement)
    ensures
        statement@ == Rendered::empty()
            .text("DELETE FROM user WHERE email = "@)
            .bind(mode, Param::Text(email@))
            .text(";"@),
{
    Statement::new()
        .text("DELETE FROM user WHERE email = ")
        .bind(mode, SqlValue::Text(email.to_owned()))
        .text(";")
}

} // verus!
