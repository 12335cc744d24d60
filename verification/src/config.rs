//! What a deployment is configured with, and the values it starts from.

use crate::text::same_text;
use vstd::prelude::*;

verus! {

/// A status code with a message, as every answer of the service carries them.
#[derive(Debug, Clone, Copy)]
pub struct ResponseMessage<'a> {
    pub code: u16,
    pub message: &'a str,
}

/// An account: the address it is known by and its password.
#[derive(Debug, Clone)]
pub struct RegisterUser {
    pub email: String,
    pub password: String,
}

/// How mail is sent: from which address, through which server, with which
/// authorization code.
#[derive(Debug, Clone)]
pub struct EmailConfig {
    pub mine_email: String,
    pub smtp_server: String,
    pub email_password: String,
}

/// The relational engine behind the storage.
#[allow(non_camel_case_types)]
#[derive(Debug, Clone, Copy, PartialEq, Eq, Structural)]
pub enum SqlMode {
    sqlite,
    mysql,
    postgres,
}

/// The configuration of a deployment.
#[derive(Debug, Clone)]
pub struct HttpServerConfig {
    pub name: String,
    pub v4port: u16,
    pub v6port: u16,
    pub sql_mode: SqlMode,
    pub sql_url: String,
    pub email_config: EmailConfig,
    pub register_user: RegisterUser,
}

/// The letters that a generated password is drawn from.
pub open spec fn lowercase_letters() -> Seq<char> {
    "abcdefghijklmnopqrstuvwxyz"@
}

/// The password that eight draws give: for each draw the letter at the
/// draw's remainder by twenty-six.
pub open spec fn password_of(draws: Seq<u8>) -> Seq<char> {
    Seq::new(draws.len(), |i: int| lowercase_letters()[(draws[i] % 26) as int])
}

/// Calls `rand::random::<u8>`. Nothing is claimed of the byte.
#[verifier::external_body]
fn random_byte() -> u8 {
    rand::random::<u8>()
}

/// The password for a list of draws.
pub fn password_from(draws: &Vec<u8>) -> (password: String)
    ensures
        password@ == password_of(draws@),
{
    let letters = "abcdefghijklmnopqrstuvwxyz";
    proof {
        reveal_strlit("abcdefghijklmnopqrstuvwxyz");
    }
    let mut password = String::new();
    let mut i: usize = 0;
    while i < draws.len()
        invariant
            i <= draws.len(),
            letters@ == lowercase_letters(),
            letters@.len() == 26,
            letters.is_ascii(),
            password@ == password_of(draws@.take(i as int)),
        decreases draws.len() - i,
    {
        let at: usize = (draws[i] % 26) as usize;
        password.append(letters.substring_ascii(at, at + 1));
        proof {
            assert(letters@.subrange(at as int, at + 1) == seq![letters@[at as int]]);
            assert(password@ =~= password_of(draws@.take(i + 1)));
        }
        i += 1;
    }
    proof {
        assert(draws@.take(i as int) =~= draws@);
    }
    password
}

/// A password of eight lower-case letters, drawn at random.
pub fn random_password() -> (password: String)
    ensures
        password@.len() == 8,
        forall|i: int| 0 <= i < 8 ==> lowercase_letters().contains(#[trigger] password@[i]),
{
    let mut draws: Vec<u8> = Vec::new();
    let mut i: usize = 0;
    while i < 8
        invariant
            i <= 8,
            draws@.len() == i,
        decreases 8 - i,
    {
        draws.push(random_byte());
        i += 1;
    }
    let password = password_from(&draws);
    proof {
        reveal_strlit("abcdefghijklmnopqrstuvwxyz");
        assert forall|k: int| 0 <= k < 8 implies lowercase_letters().contains(
            #[trigger] password@[k],
        ) by {
            assert(lowercase_letters()[(draws@[k] % 26) as int] == password@[k]);
        }
    }
    password
}

/// Whether an account is the administrator's, which nobody may delete or
/// give another password.
pub fn is_admin_account(email: &str) -> (admin: bool)
    ensures
        admin == (email@ == "admin"@),
{
    same_text(email, "admin")
}

/// What stands for a password in a list of accounts.
pub open spec fn masked_password() -> Seq<char> {
    "********"@
}

/// The password as a list of accounts shows it: masked where the engine is
/// SQLite, as stored otherwise.
pub fn shown_password(mode: SqlMode, stored: String) -> (shown: String)
    ensures
        shown@ == if mode == SqlMode::sqlite {
            masked_password()
        } else {
            stored@
        },
{
    match mode {
        SqlMode::sqlite => "********".to_owned(),
        _ => stored,
    }
}

impl Default for EmailConfig {
    fn default() -> (config: EmailConfig)
        ensures
            config.mine_email@ == Seq::<char>::empty(),
            config.smtp_server@ == Seq::<char>::empty(),
            config.email_password@ == Seq::<char>::empty(),
    {
        EmailConfig {
            mine_email: String::new(),
            smtp_server: String::new(),
            email_password: String::new(),
        }
    }
}

impl HttpServerConfig {
    /// Whether a configuration holds the values that a deployment starts
    /// from, whatever the administrator's password.
    pub open spec fn is_initial(self) -> bool {
        &&& self.name@ == "联合公社"@
        &&& self.v4port == 2024
        &&& self.v6port == 2024
        &&& self.sql_mode == SqlMode::sqlite
        &&& self.sql_url@ == "sqlite://sqlite.db"@
        &&& self.email_config.mine_email@ == Seq::<char>::empty()
        &&& self.email_config.smtp_server@ == Seq::<char>::empty()
        &&& self.email_config.email_password@ == Seq::<char>::empty()
        &&& self.register_user.email@ == "admin"@
    }

    /// The configuration that a deployment starts from, with `password` for
    /// its administrator.
    pub fn with_password(password: String) -> (config: HttpServerConfig)
        ensures
            config.is_initial(),
            config.register_user.password@ == password@,
    {
        HttpServerConfig {
            name: "联合公社".to_owned(),
            v4port: 2024,
            v6port: 2024,
            sql_mode: SqlMode::sqlite,
            sql_url: "sqlite://sqlite.db".to_owned(),
            email_config: EmailConfig::default(),
            register_user: RegisterUser { email: "admin".to_owned(), password },
        }
    }

    /// The configuration that a deployment starts from, with a password
    /// drawn at random for its administrator.
    pub fn initial() -> (config: HttpServerConfig)
        ensures
            config.is_initial(),
            config.register_user.password@.len() == 8,
            forall|i: int|
                0 <= i < 8 ==> lowercase_letters().contains(
                    #[trigger] config.register_user.password@[i],
                ),
    {
        HttpServerConfig::with_password(random_password())
    }
}

} // verus!
