use acl_engine::acl::AclError;
use acl_engine::config::{
    password_from, random_password, shown_password, EmailConfig, HttpServerConfig,
    ResponseMessage, SqlMode,
};
use acl_engine::operation::Operation;
use acl_engine::sql_group::{add_group_to_user, create_group_table, del_perm_from_group, query_all_group};
use acl_engine::sql_player::{sql_add_player, sql_update_player_password};
use acl_engine::sql_user::{change_password, create_user_table, get_all_user, register_user};
use acl_engine::statement::{
    acl_from_rows, append_decimal, create_acl_table, delete_acl, delete_acl_by_resource_id, delete_resource,
    insert_acl, insert_resource, select_acl, select_all_resource, select_resource_id,
    select_user_acl, SqlValue, Statement,
};

fn shown(values: &[SqlValue]) -> Vec<String> {
    values
        .iter()
        .map(|v| match v {
            SqlValue::Integer(n) => format!("i:{}", n),
            SqlValue::Text(t) => format!("t:{}", t),
        })
        .collect()
}

#[test]
fn placeholders_follow_the_engine() {
    for mode in [SqlMode::sqlite, SqlMode::mysql] {
        let statement = insert_acl(mode, 7, 3, &Operation::Check);
        assert_eq!(statement.sql, "INSERT INTO acl (uid, resource_id, operation) VALUES (?, ?, ?)");
        assert_eq!(shown(&statement.params), vec!["i:7", "i:3", "t:Check"]);
    }
    let statement = insert_acl(SqlMode::postgres, 7, 3, &Operation::Check);
    assert_eq!(statement.sql, "INSERT INTO acl (uid, resource_id, operation) VALUES ($1, $2, $3)");
    assert_eq!(shown(&statement.params), vec!["i:7", "i:3", "t:Check"]);
}

#[test]
fn resource_statements() {
    let s = insert_resource(SqlMode::sqlite, "alpha");
    assert_eq!(s.sql, "INSERT INTO resource (name) VALUES (?)");
    assert_eq!(shown(&s.params), vec!["t:alpha"]);
    let s = insert_resource(SqlMode::postgres, "alpha");
    assert_eq!(s.sql, "INSERT INTO resource (name) VALUES ($1)");
    let s = delete_resource(SqlMode::postgres, "alpha");
    assert_eq!(s.sql, "DELETE FROM resource WHERE name = $1");
    assert_eq!(shown(&s.params), vec!["t:alpha"]);
    let s = select_resource_id(SqlMode::mysql, "alpha");
    assert_eq!(s.sql, "SELECT id FROM resource WHERE name = ?");
    assert_eq!(shown(&s.params), vec!["t:alpha"]);
    let s = select_all_resource();
    assert_eq!(s.sql, "SELECT id, name FROM resource");
    assert!(s.params.is_empty());
}

#[test]
fn grant_statements() {
    let s = delete_acl(SqlMode::postgres, 1, 2, "Add");
    assert_eq!(s.sql, "DELETE FROM acl WHERE uid = $1 AND resource_id = $2 AND operation = $3");
    assert_eq!(shown(&s.params), vec!["i:1", "i:2", "t:Add"]);
    let s = delete_acl(SqlMode::sqlite, 1, 2, "Add");
    assert_eq!(s.sql, "DELETE FROM acl WHERE uid = ? AND resource_id = ? AND operation = ?");
    let s = delete_acl_by_resource_id(SqlMode::postgres, 9);
    assert_eq!(s.sql, "DELETE FROM acl WHERE resource_id = $1");
    assert_eq!(shown(&s.params), vec!["i:9"]);
    let s = select_acl(SqlMode::postgres, 1, 2);
    assert_eq!(s.sql, "SELECT operation FROM acl WHERE uid = $1 AND resource_id = $2");
    assert_eq!(shown(&s.params), vec!["i:1", "i:2"]);
    let s = select_user_acl(SqlMode::mysql, 5);
    assert_eq!(
        s.sql,
        "SELECT resource.name AS resource_name, acl.operation AS operation FROM acl JOIN resource ON resource.id = acl.resource_id WHERE acl.uid = ?"
    );
    assert_eq!(shown(&s.params), vec!["i:5"]);
    let s = insert_acl(SqlMode::sqlite, 1, 2, &Operation::Unknown);
    assert_eq!(shown(&s.params), vec!["i:1", "i:2", "t:Null"]);
}

#[test]
fn builder_numbers_its_placeholders() {
    let mut statement = Statement::new();
    for n in 1..=12 {
        statement = statement.bind(SqlMode::postgres, SqlValue::Integer(n)).text(" ");
    }
    assert_eq!(statement.sql, "$1 $2 $3 $4 $5 $6 $7 $8 $9 $10 $11 $12 ");
    assert_eq!(statement.params.len(), 12);
    let mut plain = Statement::new();
    for n in 1..=11 {
        plain = plain.bind(SqlMode::mysql, SqlValue::Integer(n));
    }
    assert_eq!(plain.sql, "???????????");
}

#[test]
fn numbers_in_decimal() {
    for (number, digits) in [(0u128, "0"), (7, "7"), (10, "10"), (905, "905"), (u128::MAX, "340282366920938463463374607431768211455")] {
        let mut text = String::from("n=");
        append_decimal(&mut text, number);
        assert_eq!(text, format!("n={}", digits));
    }
}

#[test]
fn tables_are_created_for_each_engine() {
    let sqlite = create_acl_table(SqlMode::sqlite);
    assert_eq!(sqlite.len(), 2);
    assert_eq!(
        sqlite[0].sql,
        "CREATE TABLE IF NOT EXISTS acl (id INTEGER PRIMARY KEY AUTOINCREMENT, uid INTEGER NOT NULL, resource_id INTEGER NOT NULL, operation TEXT NOT NULL, UNIQUE(uid, resource_id, operation))"
    );
    assert_eq!(
        sqlite[1].sql,
        "CREATE TABLE IF NOT EXISTS resource (id INTEGER PRIMARY KEY AUTOINCREMENT, name TEXT NOT NULL UNIQUE)"
    );
    let mysql = create_acl_table(SqlMode::mysql);
    assert!(mysql[0].sql.contains("AUTO_INCREMENT"));
    assert!(mysql[1].sql.contains("VARCHAR(255) NOT NULL UNIQUE"));
    let postgres = create_acl_table(SqlMode::postgres);
    assert!(postgres[0].sql.contains("BIGSERIAL PRIMARY KEY"));
    assert!(postgres[0].sql.contains("UNIQUE(uid, resource_id, operation)"));
    assert!(postgres[1].params.is_empty());
}

#[test]
fn rows_are_read_as_operations() {
    let rows = vec!["Add".to_string(), "Null".to_string(), "check".to_string(), "Check".to_string()];
    assert_eq!(
        acl_from_rows(&rows),
        vec![Operation::Add, Operation::Unknown, Operation::Unknown, Operation::Check]
    );
    assert!(acl_from_rows(&Vec::new()).is_empty());
}

#[test]
fn status_codes_of_the_reasons() {
    assert_eq!(AclError::NotFound.code(), 404);
    assert_eq!(AclError::InvalidPermission.code(), 403);
    assert_eq!(AclError::ExpiredVerification.code(), 401);
}

#[test]
fn password_from_known_draws() {
    assert_eq!(password_from(&vec![0, 1, 25, 26, 27, 255, 51, 52]), "abzabvza");
    assert_eq!(password_from(&Vec::new()), "");
}

#[test]
fn random_password_has_eight_lowercase_letters() {
    for _ in 0..20 {
        let password = random_password();
        assert_eq!(password.len(), 8);
        assert!(password.chars().all(|c| c.is_ascii_lowercase()));
    }
}

#[test]
fn initial_configuration() {
    let config = HttpServerConfig::with_password("secret".to_string());
    assert_eq!(config.name, "联合公社");
    assert_eq!(config.v4port, 2024);
    assert_eq!(config.v6port, 2024);
    assert_eq!(config.sql_mode, SqlMode::sqlite);
    assert_eq!(config.sql_url, "sqlite://sqlite.db");
    assert_eq!(config.register_user.email, "admin");
    assert_eq!(config.register_user.password, "secret");
    assert_eq!(config.email_config.mine_email, "");
    let drawn = HttpServerConfig::initial();
    assert_eq!(drawn.register_user.password.len(), 8);
    assert_eq!(drawn.register_user.email, "admin");
    let email = EmailConfig::default();
    assert_eq!(email.smtp_server, "");
    assert_eq!(email.email_password, "");
    let message = ResponseMessage { code: 200, message: "Success" };
    assert_eq!((message.code, message.message), (200, "Success"));
}

#[test]
fn passwords_are_masked_for_one_engine() {
    assert_eq!(shown_password(SqlMode::sqlite, "secret".to_string()), "********");
    assert_eq!(shown_password(SqlMode::mysql, "secret".to_string()), "secret");
    assert_eq!(shown_password(SqlMode::postgres, "secret".to_string()), "secret");
}

#[test]
fn account_statements() {
    let s = register_user(SqlMode::sqlite, "a@x", "pw");
    assert_eq!(s.sql, "INSERT INTO user (email, password) VALUES (?, ?);");
    assert_eq!(shown(&s.params), vec!["t:a@x", "t:pw"]);
    let s = register_user(SqlMode::postgres, "a@x", "pw");
    assert_eq!(s.sql, "INSERT INTO user (email, password) VALUES ($1, $2);");
    let s = change_password(SqlMode::postgres, "a@x", "pw");
    assert_eq!(s.sql, "UPDATE user SET password = $1 WHERE email = $2;");
    assert_eq!(shown(&s.params), vec!["t:pw", "t:a@x"]);
    assert_eq!(get_all_user().sql, "SELECT email, password FROM user;");
    assert!(create_user_table().sql.starts_with("CREATE TABLE IF NOT EXISTS user ("));
}

#[test]
fn game_account_statements() {
    let s = sql_add_player(SqlMode::postgres, 7, "Notch", "pw", "069a79f4");
    assert_eq!(
        s.sql,
        "INSERT INTO java_player (uid, name, password, player_id) VALUES ($1, $2, $3, $4);"
    );
    assert_eq!(shown(&s.params), vec!["i:7", "t:Notch", "t:pw", "t:069a79f4"]);
    let s = sql_update_player_password(SqlMode::mysql, "Notch", "pw", 7);
    assert_eq!(s.sql, "UPDATE java_player SET password = ? WHERE name = ? and uid = ?;");
    assert_eq!(shown(&s.params), vec!["t:pw", "t:Notch", "i:7"]);
}

#[test]
fn group_statements() {
    let s = add_group_to_user(SqlMode::postgres, 7, "staff");
    assert_eq!(s.sql, "INSERT INTO user_perm (uid, group_name) VALUES ($1, $2);");
    assert_eq!(shown(&s.params), vec!["i:7", "t:staff"]);
    let s = del_perm_from_group(SqlMode::sqlite, "staff", "kick");
    assert_eq!(s.sql, "DELETE FROM perm WHERE group_name = ? AND perm = ?;");
    assert_eq!(shown(&s.params), vec!["t:staff", "t:kick"]);
    assert_eq!(query_all_group().sql, "SELECT group_name FROM `groups`;");
    let tables = create_group_table();
    assert_eq!(tables.len(), 3);
    assert!(tables[0].sql.contains("`groups`"));
    assert!(tables[1].sql.contains("`perm`"));
    assert!(tables[2].sql.contains("`user_perm`"));
}
