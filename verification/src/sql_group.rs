//! The statements behind the groups of permissions.

use crate::config::SqlMode;
use crate::statement::{Param, Rendered, SqlValue, Statement};
use vstd::prelude::*;

verus! {

/// The three statements that create the tables of groups, of their
/// permissions and of their members, if they are not there.
pub fn create_group_table() -> (statements: Vec<Statement>)
    ensures
        statements@.len() == 3,
        statements@[0]@ == Rendered::empty().text(GROUPS_TABLE@),
        statements@[1]@ == Rendered::empty().text(PERM_TABLE@),
        statements@[2]@ == Rendered::empty().text(USER_PERM_TABLE@),
{
    let mut statements: Vec<Statement> = Vec::new();
    statements.push(Statement::new().text(GROUPS_TABLE));
    statements.push(Statement::new().text(PERM_TABLE));
    statements.push(Statement::new().text(USER_PERM_TABLE));
    statements
}

/// How the table of groups is created.
pub const GROUPS_TABLE: &'static str =
    "CREATE TABLE IF NOT EXISTS `groups` (`id` INTEGER PRIMARY KEY AUTOINCREMENT, `group_name` TEXT NOT NULL UNIQUE);";

/// How the table of permissions is created.
pub const PERM_TABLE: &'static str =
    "CREATE TABLE IF NOT EXISTS `perm` (`group_name` TEXT NOT NULL, `perm` TEXT NOT NULL);";

/// How the table of members is created.
pub const USER_PERM_TABLE: &'static str =
    "CREATE TABLE IF NOT EXISTS `user_perm` (`uid` INTEGER NOT NULL, `group_name` TEXT NOT NULL);";

/// The statement that adds a group.
pub fn add_group(mode: SqlMode, group_name: &str) -> (statement: Statement)
    ensures
        statement@ == Rendered::empty()
            .text("INSERT INTO `groups` (group_name) VALUES ("@)
            .bind(mode, Param::Text(group_name@))
            .text(");"@),
{
    Statement::new()
        .text("INSERT INTO `groups` (group_name) VALUES (")
        .bind(mode, SqlValue::Text(group_name.to_owned()))
        .text(");")
}

/// The statement that removes a group.
pub fn del_group(mode: SqlMode, group_name: &str) -> (statement: Statement)
    ensures
        statement@ == Rendered::empty()
            .text("DELETE FROM `groups` WHERE group_name = "@)
            .bind(mode, Param::Text(group_name@))
            .text(";"@),
{
    Statement::new()
        .text("DELETE FROM `groups` WHERE group_name = ")
        .bind(mode, SqlValue::Text(group_name.to_owned()))
        .text(";")
}

/// The statement that gives a group a permission.
pub fn add_perm(mode: SqlMode, group_name: &str, perm: &str) -> (statement: Statement)
    ensures
        statement@ == Rendered::empty()
            .text("INSERT INTO perm (group_name, perm) VALUES ("@)
            .bind(mode, Param::Text(group_name@))
            .text(", "@)
            .bind(mode, Param::Text(perm@))
            .text(");"@),
{
    Statement::new()
        .text("INSERT INTO perm (group_name, perm) VALUES (")
        .bind(mode, SqlValue::Text(group_name.to_owned()))
        .text(", ")
        .bind(mode, SqlValue::Text(perm.to_owned()))
        .text(");")
}

/// The statement that takes a permission from every group.
pub fn del_perm(mode: SqlMode, perm: &str) -> (statement: Statement)
    ensures
        statement@ == Rendered::empty()
            .text("DELETE FROM perm WHERE perm = "@)
            .bind(mode, Param::Text(perm@))
            .text(";"@),
{
    Statement::new()
        .text("DELETE FROM perm WHERE perm = ")
        .bind(mode, SqlValue::Text(perm.to_owned()))
        .text(";")
}

/// The statement that gives a group a permission.
pub fn add_perm_to_group(mode: SqlMode, group_name: &str, perm: &str) -> (statement: Statement)
    ensures
        statement@ == Rendered::empty()
            .text("INSERT INTO perm (group_name, perm) VALUES ("@)
            .bind(mode, Param::Text(group_name@))
            .text(", "@)
            .bind(mode, Param::Text(perm@))
            .text(");"@),
{
    Statement::new()
        .text("INSERT INTO perm (group_name, perm) VALUES (")
        .bind(mode, SqlValue::Text(group_name.to_owned()))
        .text(", ")
        .bind(mode, SqlValue::Text(perm.to_owned()))
        .text(");")
}

/// The statement that takes a permission from a group.
pub fn del_perm_from_group(mode: SqlMode, group_name: &str, perm: &str) -> (statement: Statement)
    ensures
        statement@ == Rendered::empty()
            .text("DELETE FROM perm WHERE group_name = "@)
            .bind(mode, Param::Text(group_name@))
            .text(" AND perm = "@)
            .bind(mode, Param::Text(perm@))
            .text(";"@),
{
    Statement::new()
        .text("DELETE FROM perm WHERE group_name = ")
        .bind(mode, SqlValue::Text(group_name.to_owned()))
        .text(" AND perm = ")
        .bind(mode, SqlValue::Text(perm.to_owned()))
        .text(";")
}

/// The statement that reads the name of every group.
pub fn query_all_group() -> (statement: Statement)
    ensures
        statement@ == Rendered::empty()
            .text("SELECT group_name FROM `groups`;"@),
{
    Statement::new()
        .text("SELECT group_name FROM `groups`;")
}

/// The statement that reads the permissions of a group.
pub fn query_group_perm(mode: SqlMode, group_name: &str) -> (statement: Statement)
    ensures
        statement@ == Rendered::empty()
            .text("SELECT perm FROM perm WHERE group_name = "@)
            .bind(mode, Param::Text(group_name@))
            .text(";"@),
{
    Statement::new()
        .text("SELECT perm FROM perm WHERE group_name = ")
        .bind(mode, SqlValue::Text(group_name.to_owned()))
        .text(";")
}

/// The statement that puts the user `uid` into a group.
pub fn add_group_to_user(mode: SqlMode, uid: i64, group_name: &str) -> (statement: Statement)
    ensures
        statement@ == Rendered::empty()
            .text("INSERT INTO user_perm (uid, group_name) VALUES ("@)
            .bind(mode, Param::Integer(uid))
            .text(", "@)
            .bind(mode, Param::Text(group_name@))
            .text(");"@),
{
    Statement::new()
        .text("INSERT INTO user_perm (uid, group_name) VALUES (")
        .bind(mode, SqlValue::Integer(uid))
        .text(", ")
        .bind(mode, SqlValue::Text(group_name.to_owned()))
        .text(");")
}

/// The statement that takes the user `uid` out of a group.
pub fn del_group_from_user(mode: SqlMode, uid: i64, group_name: &str) -> (statement: Statement)
    ensures
        statement@ == Rendered::empty()
            .text("DELETE FROM user_perm WHERE uid = "@)
            .bind(mode, Param::Integer(uid))
            .text(" AND group_name = "@)
            .bind(mode, Param::Text(group_name@))
            .text(";"@),
{
    Statement::new()
        .text("DELETE FROM user_perm WHERE uid = ")
        .bind(mode, SqlValue::Integer(uid))
        .text(" AND group_name = ")
        .bind(mode, SqlValue::Text(group_name.to_owned()))
        .text(";")
}

} // verus!
