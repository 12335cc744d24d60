//! The statements behind the catalog and the grant store, written once and
//! lowered to the placeholder convention of each engine.

use crate::config::SqlMode;
use crate::operation::Operation;
use crate::text::texts;
use vstd::prelude::*;

verus! {

/// A value bound to a placeholder.
#[derive(Debug, Clone)]
pub enum SqlValue {
    Integer(i64),
    Text(String),
}

/// A bound value as plain data.
pub enum Param {
    Integer(i64),
    Text(Seq<char>),
}

impl View for SqlValue {
    type V = Param;

    open spec fn view(&self) -> Param {
        match self {
            SqlValue::Integer(n) => Param::Integer(*n),
            SqlValue::Text(t) => Param::Text(t@),
        }
    }
}

/// The bound values of a list as plain data.
pub open spec fn params_of(values: Seq<SqlValue>) -> Seq<Param> {
    Seq::new(values.len(), |i: int| values[i]@)
}

/// A number in decimal digits, without leading zeros.
pub open spec fn decimal(number: nat) -> Seq<char>
    decreases number,
{
    if number < 10 {
        seq!["0123456789"@[number as int]]
    } else {
        decimal(number / 10).push("0123456789"@[(number % 10) as int])
    }
}

/// The placeholder for the value at `index`, counted from one: a question
/// mark for SQLite and MySQL, a dollar sign and the index for PostgreSQL.
pub open spec fn placeholder(mode: SqlMode, index: nat) -> Seq<char> {
    match mode {
        SqlMode::postgres => seq!['$'] + decimal(index),
        _ => seq!['?'],
    }
}

/// Writes a number in decimal digits at the end of a text.
pub fn append_decimal(text: &mut String, number: u128)
    ensures
        final(text)@ == old(text)@ + decimal(number as nat),
    decreases number,
{
    let digits = "0123456789";
    proof {
        reveal_strlit("0123456789");
    }
    if number >= 10 {
        append_decimal(text, number / 10);
    }
    let at: usize = (number % 10) as usize;
    text.append(digits.substring_ascii(at, at + 1));
    proof {
        assert(digits@.subrange(at as int, at + 1) =~= seq![digits@[at as int]]);
        assert(text@ =~= old(text)@ + decimal(number as nat));
    }
}

/// A statement as plain data: its text and the values bound to it, in the
/// order of their placeholders.
pub struct Rendered {
    pub sql: Seq<char>,
    pub params: Seq<Param>,
}

impl Rendered {
    /// Nothing written yet.
    pub open spec fn empty() -> Rendered {
        Rendered { sql: Seq::empty(), params: Seq::empty() }
    }

    /// The statement with `text` written after it.
    pub open spec fn text(self, text: Seq<char>) -> Rendered {
        Rendered { sql: self.sql + text, params: self.params }
    }

    /// The statement with `param` bound after it: the next placeholder in
    /// the text, the value at the end of the list.
    pub open spec fn bind(self, mode: SqlMode, param: Param) -> Rendered {
        Rendered {
            sql: self.sql + placeholder(mode, self.params.len() + 1),
            params: self.params.push(param),
        }
    }
}

/// A statement for one engine: its text and the values to bind.
#[derive(Debug, Clone)]
pub struct Statement {
    pub sql: String,
    pub params: Vec<SqlValue>,
}

impl View for Statement {
    type V = Rendered;

    open spec fn view(&self) -> Rendered {
        Rendered { sql: self.sql@, params: params_of(self.params@) }
    }
}

impl Statement {
    /// A statement with nothing written.
    pub fn new() -> (statement: Statement)
        ensures
            statement@ == Rendered::empty(),
    {
        let statement = Statement { sql: String::new(), params: Vec::new() };
        assert(statement@.params =~= Seq::empty());
        statement
    }

    /// Writes `text` at the end.
    pub fn text(self, text: &str) -> (statement: Statement)
        ensures
            statement@ == self@.text(text@),
    {
        let mut statement = self;
        statement.sql.append(text);
        statement
    }

    /// Binds `value` at the end.
    pub fn bind(self, mode: SqlMode, value: SqlValue) -> (statement: Statement)
        ensures
            statement@ == self@.bind(mode, value@),
    {
        let mut statement = self;
        let ghost before = statement.params@;
        match mode {
            SqlMode::postgres => {
                let index: u128 = statement.params.len() as u128 + 1;
                statement.sql.append("$");
                append_decimal(&mut statement.sql, index);
                proof {
                    reveal_strlit("$");
                    assert("$"@ =~= seq!['$']);
                    assert(statement.sql@ =~= self.sql@ + placeholder(mode, index as nat));
                }
            },
            _ => {
                statement.sql.append("?");
                proof {
                    reveal_strlit("?");
                    assert("?"@ =~= seq!['?']);
                }
            },
        }
        statement.params.push(value);
        proof {
            assert(params_of(statement.params@) =~= params_of(before).push(value@));
        }
        statement
    }
}

/// The statement that adds a resource called `name`.
pub fn insert_resource(mode: SqlMode, name: &str) -> (statement: Statement)
    ensures
        statement@ == Rendered::empty().text("INSERT INTO resource (name) VALUES ("@).bind(
            mode,
            Param::Text(name@),
        ).text(")"@),
{
    Statement::new().text("INSERT INTO resource (name) VALUES (").bind(
        mode,
        SqlValue::Text(name.to_owned()),
    ).text(")")
}

/// The statement that removes the resource called `name`.
pub fn delete_resource(mode: SqlMode, name: &str) -> (statement: Statement)
    ensures
        statement@ == Rendered::empty().text("DELETE FROM resource WHERE name = "@).bind(
            mode,
            Param::Text(name@),
        ),
{
    Statement::new().text("DELETE FROM resource WHERE name = ").bind(
        mode,
        SqlValue::Text(name.to_owned()),
    )
}

/// The statement that reads the id of the resource called `name`.
pub fn select_resource_id(mode: SqlMode, name: &str) -> (statement: Statement)
    ensures
        statement@ == Rendered::empty().text("SELECT id FROM resource WHERE name = "@).bind(
            mode,
            Param::Text(name@),
        ),
{
    Statement::new().text("SELECT id FROM resource WHERE name = ").bind(
        mode,
        SqlValue::Text(name.to_owned()),
    )
}

/// The statement that reads every resource.
pub fn select_all_resource() -> (statement: Statement)
    ensures
        statement@ == Rendered::empty().text("SELECT id, name FROM resource"@),
{
    Statement::new().text("SELECT id, name FROM resource")
}

/// The statement that grants `uid` the operation on the resource
/// `resource_id`. The operation is stored under its name.
pub fn insert_acl(mode: SqlMode, uid: i64, resource_id: i64, operation: &Operation) -> (statement:
    Statement)
    ensures
        statement@ == Rendered::empty().text(
            "INSERT INTO acl (uid, resource_id, operation) VALUES ("@,
        ).bind(mode, Param::Integer(uid)).text(", "@).bind(mode, Param::Integer(resource_id)).text(
            ", "@,
        ).bind(mode, Param::Text(operation.name())).text(")"@),
{
    Statement::new().text("INSERT INTO acl (uid, resource_id, operation) VALUES (").bind(
        mode,
        SqlValue::Integer(uid),
    ).text(", ").bind(mode, SqlValue::Integer(resource_id)).text(", ").bind(
        mode,
        SqlValue::Text(operation.to_string()),
    ).text(")")
}

/// The statement that takes back the rows of `uid` on `resource_id` whose
/// operation is stored under the text `operation`.
pub fn delete_acl(mode: SqlMode, uid: i64, resource_id: i64, operation: &str) -> (statement:
    Statement)
    ensures
        statement@ == Rendered::empty().text("DELETE FROM acl WHERE uid = "@).bind(
            mode,
            Param::Integer(uid),
        ).text(" AND resource_id = "@).bind(mode, Param::Integer(resource_id)).text(
            " AND operation = "@,
        ).bind(mode, Param::Text(operation@)),
{
    Statement::new().text("DELETE FROM acl WHERE uid = ").bind(mode, SqlValue::Integer(uid)).text(
        " AND resource_id = ",
    ).bind(mode, SqlValue::Integer(resource_id)).text(" AND operation = ").bind(
        mode,
        SqlValue::Text(operation.to_owned()),
    )
}

/// The statement that takes back every grant on the resource `resource_id`.
pub fn delete_acl_by_resource_id(mode: SqlMode, resource_id: i64) -> (statement: Statement)
    ensures
        statement@ == Rendered::empty().text("DELETE FROM acl WHERE resource_id = "@).bind(
            mode,
            Param::Integer(resource_id),
        ),
{
    Statement::new().text("DELETE FROM acl WHERE resource_id = ").bind(
        mode,
        SqlValue::Integer(resource_id),
    )
}

/// The statement that reads the operations granted to `uid` on the resource
/// `resource_id`.
pub fn select_acl(mode: SqlMode, uid: i64, resource_id: i64) -> (statement: Statement)
    ensures
        statement@ == Rendered::empty().text("SELECT operation FROM acl WHERE uid = "@).bind(
            mode,
            Param::Integer(uid),
        ).text(" AND resource_id = "@).bind(mode, Param::Integer(resource_id)),
{
    Statement::new().text("SELECT operation FROM acl WHERE uid = ").bind(
        mode,
        SqlValue::Integer(uid),
    ).text(" AND resource_id = ").bind(mode, SqlValue::Integer(resource_id))
}

/// The join of grants and resources, up to the user's id.
pub const USER_ACL_JOIN: &'static str =
    "SELECT resource.name AS resource_name, acl.operation AS operation FROM acl JOIN resource ON resource.id = acl.resource_id WHERE acl.uid = ";

/// The statement that reads, for each grant of `uid` on a resource that is
/// there, the resource's name and the operation.
pub fn select_user_acl(mode: SqlMode, uid: i64) -> (statement: Statement)
    ensures
        statement@ == Rendered::empty().text(USER_ACL_JOIN@).bind(mode, Param::Integer(uid)),
{
    Statement::new().text(USER_ACL_JOIN).bind(mode, SqlValue::Integer(uid))
}

/// How SQLite creates the grant table.
pub const ACL_TABLE_SQLITE: &'static str =
    "CREATE TABLE IF NOT EXISTS acl (id INTEGER PRIMARY KEY AUTOINCREMENT, uid INTEGER NOT NULL, resource_id INTEGER NOT NULL, operation TEXT NOT NULL, UNIQUE(uid, resource_id, operation))";

/// How MySQL creates the grant table.
pub const ACL_TABLE_MYSQL: &'static str =
    "CREATE TABLE IF NOT EXISTS acl (id BIGINT PRIMARY KEY AUTO_INCREMENT, uid BIGINT NOT NULL, resource_id BIGINT NOT NULL, operation VARCHAR(32) NOT NULL, UNIQUE(uid, resource_id, operation))";

/// How PostgreSQL creates the grant table.
pub const ACL_TABLE_POSTGRES: &'static str =
    "CREATE TABLE IF NOT EXISTS acl (id BIGSERIAL PRIMARY KEY, uid BIGINT NOT NULL, resource_id BIGINT NOT NULL, operation TEXT NOT NULL, UNIQUE(uid, resource_id, operation))";

/// How SQLite creates the resource table.
pub const RESOURCE_TABLE_SQLITE: &'static str =
    "CREATE TABLE IF NOT EXISTS resource (id INTEGER PRIMARY KEY AUTOINCREMENT, name TEXT NOT NULL UNIQUE)";

/// How MySQL creates the resource table.
pub const RESOURCE_TABLE_MYSQL: &'static str =
    "CREATE TABLE IF NOT EXISTS resource (id BIGINT PRIMARY KEY AUTO_INCREMENT, name VARCHAR(255) NOT NULL UNIQUE)";

/// How PostgreSQL creates the resource table.
pub const RESOURCE_TABLE_POSTGRES: &'static str =
    "CREATE TABLE IF NOT EXISTS resource (id BIGSERIAL PRIMARY KEY, name TEXT NOT NULL UNIQUE)";

/// The text that creates the grant table for an engine, if it is not there.
pub open spec fn acl_table_text(mode: SqlMode) -> Seq<char> {
    match mode {
        SqlMode::sqlite => ACL_TABLE_SQLITE@,
        SqlMode::mysql => ACL_TABLE_MYSQL@,
        SqlMode::postgres => ACL_TABLE_POSTGRES@,
    }
}

/// The text that creates the resource table for an engine, if it is not
/// there.
pub open spec fn resource_table_text(mode: SqlMode) -> Seq<char> {
    match mode {
        SqlMode::sqlite => RESOURCE_TABLE_SQLITE@,
        SqlMode::mysql => RESOURCE_TABLE_MYSQL@,
        SqlMode::postgres => RESOURCE_TABLE_POSTGRES@,
    }
}

/// The two statements that create the tables: first the grants, then the
/// resources.
pub fn create_acl_table(mode: SqlMode) -> (statements: Vec<Statement>)
    ensures
        statements@.len() == 2,
        statements@[0]@ == Rendered::empty().text(acl_table_text(mode)),
        statements@[1]@ == Rendered::empty().text(resource_table_text(mode)),
{
    let acl = match mode {
        SqlMode::sqlite => ACL_TABLE_SQLITE,
        SqlMode::mysql => ACL_TABLE_MYSQL,
        SqlMode::postgres => ACL_TABLE_POSTGRES,
    };
    let resource = match mode {
        SqlMode::sqlite => RESOURCE_TABLE_SQLITE,
        SqlMode::mysql => RESOURCE_TABLE_MYSQL,
        SqlMode::postgres => RESOURCE_TABLE_POSTGRES,
    };
    let mut statements: Vec<Statement> = Vec::new();
    statements.push(Statement::new().text(acl));
    statements.push(Statement::new().text(resource));
    statements
}

/// The operations that the rows of a grant query stand for: each text read
/// as an operation, in the order of the rows.
pub open spec fn operations_of_rows(rows: Seq<Seq<char>>) -> Seq<Operation> {
    Seq::new(rows.len(), |i: int| Operation::parse(rows[i]))
}

/// Reads the rows of a grant query as operations.
pub fn acl_from_rows(rows: &Vec<String>) -> (operations: Vec<Operation>)
    ensures
        operations@ == operations_of_rows(texts(rows@)),
{
    let mut operations: Vec<Operation> = Vec::new();
    let mut i: usize = 0;
    while i < rows.len()
        invariant
            i <= rows.len(),
            operations@.len() == i,
            forall|k: int| 0 <= k < i ==> operations@[k] == Operation::parse(rows@[k]@),
        decreases rows.len() - i,
    {
        operations.push(Operation::from_string(rows[i].as_str()));
        i += 1;
    }
    proof {
        assert(operations@ =~= operations_of_rows(texts(rows@)));
    }
    operations
}

/// Every placeholder of SQLite and MySQL is a question mark, whatever its
/// index; a placeholder of PostgreSQL is a dollar sign before the digits of
/// its index.
pub proof fn lemma_placeholders(mode: SqlMode, index: nat)
    ensures
        mode != SqlMode::postgres ==> placeholder(mode, index) == seq!['?'],
        mode == SqlMode::postgres ==> placeholder(mode, index).first() == '$' && placeholder(
            mode,
            index,
        ).skip(1) == decimal(index),
{
    if mode == SqlMode::postgres {
        assert(placeholder(mode, index).skip(1) =~= decimal(index));
    }
}

/// The digits of the numbers from one to twelve.
pub proof fn lemma_small_decimals()
    ensures
        decimal(1) == "1"@,
        decimal(2) == "2"@,
        decimal(3) == "3"@,
        decimal(9) == "9"@,
        decimal(10) == "10"@,
        decimal(12) == "12"@,
{
    reveal_strlit("0123456789");
    reveal_strlit("1");
    reveal_strlit("2");
    reveal_strlit("3");
    reveal_strlit("9");
    reveal_strlit("10");
    reveal_strlit("12");
    assert(decimal(1) =~= "1"@);
    assert(decimal(2) =~= "2"@);
    assert(decimal(3) =~= "3"@);
    assert(decimal(9) =~= "9"@);
    assert(decimal(10) =~= "10"@) by {
        assert(decimal(10) == decimal(1).push("0123456789"@[0]));
    }
    assert(decimal(12) =~= "12"@) by {
        assert(decimal(12) == decimal(1).push("0123456789"@[2]));
    }
}

/// Binding a value adds one placeholder's text and one value, and leaves
/// what was written and bound before in place.
pub proof fn lemma_bind_extends(before: Rendered, mode: SqlMode, param: Param)
    ensures
        before.bind(mode, param).params.len() == before.params.len() + 1,
        before.bind(mode, param).params.last() == param,
        before.bind(mode, param).params.drop_last() == before.params,
        before.sql.is_prefix_of(before.bind(mode, param).sql),
{
    assert(before.params.push(param).drop_last() =~= before.params);
}

} // verus!
