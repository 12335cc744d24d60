//! The statements behind the bound game accounts.

use crate::config::SqlMode;
use crate::statement::{Param, Rendered, SqlValue, Statement};
use vstd::prelude::*;

verus! {

/// The statement that creates the table of bound game accounts, if it is not
/// there.
pub fn create_player_table() -> (statement: Statement)
    ensures
        statement@ == Rendered::empty()
            .text("CREATE TABLE IF NOT EXISTS java_player (id INTEGER PRIMARY KEY AUTOINCREMENT, uid INTEGER NOT NULL, name TEXT NOT NULL UNIQUE, password TEXT NOT NULL UNIQUE, player_id TEXT NOT NULL);"@),
{
    Statement::new()
        .text("CREATE TABLE IF NOT EXISTS java_player (id INTEGER PRIMARY KEY AUTOINCREMENT, uid INTEGER NOT NULL, name TEXT NOT NULL UNIQUE, password TEXT NOT NULL UNIQUE, player_id TEXT NOT NULL);")
}

/// The statement that binds a game account to the user `uid`.
pub fn sql_add_player(
    mode: SqlMode,
    uid: i64,
    name: &str,
    password: &str,
    player_id: &str,
) -> (statement: Statement)
    ensures
        statement@ == Rendered::empty()
            .text("INSERT INTO java_player (uid, name, password, player_id) VALUES ("@)
            .bind(mode, Param::Integer(uid))
            .text(", "@)
            .bind(mode, Param::Text(name@))
            .text(", "@)
            .bind(mode, Param::Text(password@))
            .text(", "@)
            .bind(mode, Param::Text(player_id@))
            .text(");"@),
{
    Statement::new()
        .text("INSERT INTO java_player (uid, name, password, player_id) VALUES (")
        .bind(mode, SqlValue::Integer(uid))
        .text(", ")
        .bind(mode, SqlValue::Text(name.to_owned()))
        .text(", ")
        .bind(mode, SqlValue::Text(password.to_owned()))
        .text(", ")
        .bind(mode, SqlValue::Text(player_id.to_owned()))
        .text(");")
}

/// The statement that reads the id of the game account with this quick
/// password.
pub fn sql_get_player(mode: SqlMode, password: &str) -> (statement: Statement)
    ensures
        statement@ == Rendered::empty()
            .text("SELECT player_id FROM java_player WHERE password = "@)
            .bind(mode, Param::Text(password@))
            .text(";"@),
{
    Statement::new()
        .text("SELECT player_id FROM java_player WHERE password = ")
        .bind(mode, SqlValue::Text(password.to_owned()))
        .text(";")
}

/// The statement that reads the id of the game account with this name.
pub fn sql_get_player_is_official(mode: SqlMode, name: &str) -> (statement: Statement)
    ensures
        statement@ == Rendered::empty()
            .text("SELECT player_id FROM java_player WHERE name = "@)
            .bind(mode, Param::Text(name@))
            .text(";"@),
{
    Statement::new()
        .text("SELECT player_id FROM java_player WHERE name = ")
        .bind(mode, SqlValue::Text(name.to_owned()))
        .text(";")
}

/// The statement that reads the game accounts bound to the user `uid`.
pub fn query_user(mode: SqlMode, uid: i64) -> (statement: Statement)
    ensures
        statement@ == Rendered::empty()
            .text("SELECT name, password FROM java_player WHERE uid = "@)
            .bind(mode, Param::Integer(uid))
            .text(";"@),
{
    Statement::new()
        .text("SELECT name, password FROM java_player WHERE uid = ")
        .bind(mode, SqlValue::Integer(uid))
        .text(";")
}

/// The statement that gives a game account of the user `uid` another quick
/// password.
pub fn sql_update_player_password(
    mode: SqlMode,
    name: &str,
    password: &str,
    uid: i64,
) -> (statement: Statement)
    ensures
        statement@ == Rendered::empty()
            .text("UPDATE java_player SET password = "@)
            .bind(mode, Param::Text(password@))
            .text(" WHERE name = "@)
            .bind(mode, Param::Text(name@))
            .text(" and uid = "@)
            .bind(mode, Param::Integer(uid))
            .text(";"@),
{
    Statement::new()
        .text("UPDATE java_player SET password = ")
        .bind(mode, SqlValue::Text(password.to_owned()))
        .text(" WHERE name = ")
        .bind(mode, SqlValue::Text(name.to_owned()))
        .text(" and uid = ")
        .bind(mode, SqlValue::Integer(uid))
        .text(";")
}

/// The statement that takes a game account from the user `uid`.
pub fn sql_delete_player(mode: SqlMode, name: &str, uid: i64) -> (statement: Statement)
    ensures
        statement@ == Rendered::empty()
            .text("DELETE FROM java_player WHERE name = "@)
            .bind(mode, Param::Text(name@))
            .text(" and uid = "@)
            .bind(mode, Param::Integer(uid))
            .text(";"@),
{
    Statement::new()
        .text("DELETE FROM java_player WHERE name = ")
        .bind(mode, SqlValue::Text(name.to_owned()))
        .text(" and uid = ")
        .bind(mode, SqlValue::Integer(uid))
        .text(";")
}

/// The statement that reads every bound game account.
pub fn sql_get_all_player() -> (statement: Statement)
    ensures
        statement@ == Rendered::empty()
            .text("SELECT name, password FROM java_player;"@),
{
    Statement::new()
        .text("SELECT name, password FROM java_player;")
}

} // verus!
