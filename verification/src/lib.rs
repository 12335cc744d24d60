//! An authorization engine: named resources, per-user grants of operations on
//! them, bearer credentials that establish who is asking, and the decision
//! that puts the three together.

pub mod acl;
pub mod config;
pub mod email_code;
pub mod filtered;
pub mod key;
pub mod laws;
pub mod onlineplayer;
pub mod operation;
pub mod player;
pub mod sql_acl;
pub mod sql_group;
pub mod sql_player;
pub mod sql_user;
pub mod statement;
pub mod text;
pub mod user_acl;
