//! Codes that prove that an address can be read: six digits, good for five
//! minutes, to be used once. And the body of the mail that carries one.

use crate::key::unix_millis;
use crate::text::same_text;
use build_html::{Container, ContainerType, Html, HtmlContainer, HtmlPage};
use vstd::prelude::*;

verus! {

/// How long a code is good for, in milliseconds: five minutes.
pub const CODE_WINDOW_MS: i64 = 300_000;

/// A request for a code for `email`.
#[derive(Debug)]
pub struct GenerateCode {
    pub email: String,
}

/// A request to check `code` for `email`.
#[derive(Debug)]
pub struct VerifyCode {
    pub email: String,
    pub code: String,
}

/// A code that was issued: for which address, which digits, and when, in
/// milliseconds since the epoch.
#[derive(Debug)]
pub struct IssuedCode {
    pub email: String,
    pub code: String,
    pub issued: i64,
}

impl IssuedCode {
    /// The entry as plain data.
    pub open spec fn entry(self) -> (Seq<char>, Seq<char>, i64) {
        (self.email@, self.code@, self.issued)
    }
}

/// The entries of a list of codes as plain data.
pub open spec fn code_entries(list: Seq<IssuedCode>) -> Seq<(Seq<char>, Seq<char>, i64)> {
    Seq::new(list.len(), |i: int| list[i].entry())
}

/// Where the code for `email` stands among the entries, if there is one.
pub open spec fn code_position(
    entries: Seq<(Seq<char>, Seq<char>, i64)>,
    email: Seq<char>,
) -> Option<int> decreases entries.len(), {
    if entries.len() == 0 {
        None
    } else if entries.last().0 == email {
        Some(entries.len() - 1)
    } else {
        code_position(entries.drop_last(), email)
    }
}

/// The six decimal digits of a number below a million, with leading zeros.
pub open spec fn six_digits(number: int) -> Seq<char> {
    seq![
        "0123456789"@[number / 100000 % 10],
        "0123456789"@[number / 10000 % 10],
        "0123456789"@[number / 1000 % 10],
        "0123456789"@[number / 100 % 10],
        "0123456789"@[number / 10 % 10],
        "0123456789"@[number % 10],
    ]
}

/// The code that a draw gives: the six digits of its remainder by a million.
pub open spec fn code_of(draw: u32) -> Seq<char> {
    six_digits(draw as int % 1000000)
}

/// The entries after a code for `email` was issued at `now`: it takes the
/// place of an older code for the address, or stands at the end.
pub open spec fn issued(
    entries: Seq<(Seq<char>, Seq<char>, i64)>,
    email: Seq<char>,
    code: Seq<char>,
    now: i64,
) -> Seq<(Seq<char>, Seq<char>, i64)> {
    match code_position(entries, email) {
        Some(at) => entries.update(at, (email, code, now)),
        None => entries.push((email, code, now)),
    }
}

/// Whether `code` is the one issued for `email` and still good at `now`: it
/// was not issued after `now`, and less than the window has passed since.
pub open spec fn code_valid(
    entries: Seq<(Seq<char>, Seq<char>, i64)>,
    email: Seq<char>,
    code: Seq<char>,
    now: i64,
) -> bool {
    code_position(entries, email) matches Some(at) && entries[at].1 == code && entries[at].2 <= now
        && now - entries[at].2 < CODE_WINDOW_MS
}

/// The entries after a check of `code` for `email` at `now`: a code that was
/// good is used up, anything else changes nothing.
pub open spec fn checked(
    entries: Seq<(Seq<char>, Seq<char>, i64)>,
    email: Seq<char>,
    code: Seq<char>,
    now: i64,
) -> Seq<(Seq<char>, Seq<char>, i64)> {
    if code_valid(entries, email, code, now) {
        entries.remove(code_position(entries, email)->Some_0)
    } else {
        entries
    }
}

/// A position that is found is the place of an entry for that address.
pub proof fn lemma_code_position(entries: Seq<(Seq<char>, Seq<char>, i64)>, email: Seq<char>)
    ensures
        match code_position(entries, email) {
            Some(at) => 0 <= at < entries.len() && entries[at].0 == email,
            None => forall|i: int| 0 <= i < entries.len() ==> (#[trigger] entries[i]).0 != email,
        },
    decreases entries.len(),
{
    if entries.len() > 0 && entries.last().0 != email {
        lemma_code_position(entries.drop_last(), email);
        if code_position(entries, email) is None {
            assert forall|i: int| 0 <= i < entries.len() implies (#[trigger] entries[i]).0
                != email by {
                if i < entries.len() - 1 {
                    assert(entries[i] == entries.drop_last()[i]);
                }
            }
        }
    }
}

/// Calls `rand::random::<u32>`. Nothing is claimed of the number.
#[verifier::external_body]
fn random_number() -> u32 {
    rand::random::<u32>()
}

/// Writes the code that a draw gives.
pub fn format_code(draw: u32) -> (code: String)
    ensures
        code@ == code_of(draw),
{
    let number: u32 = draw % 1000000;
    let digits = "0123456789";
    proof {
        reveal_strlit("0123456789");
    }
    let mut code = String::new();
    let d0: usize = (number / 100000 % 10) as usize;
    let d1: usize = (number / 10000 % 10) as usize;
    let d2: usize = (number / 1000 % 10) as usize;
    let d3: usize = (number / 100 % 10) as usize;
    let d4: usize = (number / 10 % 10) as usize;
    let d5: usize = (number % 10) as usize;
    code.append(digits.substring_ascii(d0, d0 + 1));
    code.append(digits.substring_ascii(d1, d1 + 1));
    code.append(digits.substring_ascii(d2, d2 + 1));
    code.append(digits.substring_ascii(d3, d3 + 1));
    code.append(digits.substring_ascii(d4, d4 + 1));
    code.append(digits.substring_ascii(d5, d5 + 1));
    proof {
        assert(digits@.subrange(d0 as int, d0 + 1) =~= seq![digits@[d0 as int]]);
        assert(digits@.subrange(d1 as int, d1 + 1) =~= seq![digits@[d1 as int]]);
        assert(digits@.subrange(d2 as int, d2 + 1) =~= seq![digits@[d2 as int]]);
        assert(digits@.subrange(d3 as int, d3 + 1) =~= seq![digits@[d3 as int]]);
        assert(digits@.subrange(d4 as int, d4 + 1) =~= seq![digits@[d4 as int]]);
        assert(digits@.subrange(d5 as int, d5 + 1) =~= seq![digits@[d5 as int]]);
        assert(code@ =~= six_digits(number as int));
    }
    code
}

/// The codes that are out, one for an address at most.
pub struct EmaiCodeManager {
    codelist: Vec<IssuedCode>,
}

impl View for EmaiCodeManager {
    type V = Seq<(Seq<char>, Seq<char>, i64)>;

    closed spec fn view(&self) -> Seq<(Seq<char>, Seq<char>, i64)> {
        code_entries(self.codelist@)
    }
}

impl EmaiCodeManager {
    pub fn new() -> (manager: EmaiCodeManager)
        ensures
            manager@ == Seq::<(Seq<char>, Seq<char>, i64)>::empty(),
    {
        let manager = EmaiCodeManager { codelist: Vec::new() };
        assert(manager@ =~= Seq::empty());
        manager
    }

    fn find(&self, email: &str) -> (at: Option<usize>)
        ensures
            match at {
                Some(i) => code_position(self@, email@) == Some(i as int) && i
                    < self.codelist@.len(),
                None => code_position(self@, email@) is None,
            },
    {
        let mut i: usize = self.codelist.len();
        proof {
            assert(self@.take(i as int) =~= self@);
        }
        while i > 0
            invariant
                i <= self.codelist.len(),
                code_position(self@, email@) == code_position(self@.take(i as int), email@),
            decreases i,
        {
            let ghost upto = self@.take(i as int);
            i -= 1;
            proof {
                assert(upto.drop_last() =~= self@.take(i as int));
                assert(upto.last() == self.codelist@[i as int].entry());
            }
            if same_text(self.codelist[i].email.as_str(), email) {
                return Some(i);
            }
        }
        None
    }

    /// Issues the code that `draw` gives for `email` at `now`.
    pub fn generate_code_with(&mut self, email: String, draw: u32, now: i64) -> (code: String)
        ensures
            code@ == code_of(draw),
            final(self)@ == issued(old(self)@, email@, code_of(draw), now),
    {
        let ghost before = self@;
        let code = format_code(draw);
        let entry = IssuedCode { email, code: code.clone(), issued: now };
        match self.find(entry.email.as_str()) {
            Some(at) => {
                let _ = self.codelist.remove(at);
                self.codelist.insert(at, entry);
                proof {
                    assert(self@ =~= before.update(at as int, (email@, code@, now)));
                }
            },
            None => {
                self.codelist.push(entry);
                proof {
                    assert(self@ =~= before.push((email@, code@, now)));
                }
            },
        }
        code
    }

    /// Issues a code for `email`, drawn at random, at the present moment.
    /// Whatever the draw and the clock, the code has six digits and is the
    /// one noted for the address.
    pub fn generate_code(&mut self, email: String) -> (code: String)
        ensures
            exists|draw: u32, now: i64|
                code@ == code_of(draw) && final(self)@ == #[trigger] issued(
                    old(self)@,
                    email@,
                    code_of(draw),
                    now,
                ),
    {
        let draw = random_number();
        let now = unix_millis();
        let code = self.generate_code_with(email, draw, now);
        proof {
            assert(self@ == issued(old(self)@, email@, code_of(draw), now));
        }
        code
    }

    /// Checks `code` for `email` at `now`. A code that is good is used up.
    pub fn verify_code_at(&mut self, email: String, code: String, now: i64) -> (good: bool)
        ensures
            good == code_valid(old(self)@, email@, code@, now),
            final(self)@ == checked(old(self)@, email@, code@, now),
    {
        let ghost before = self@;
        match self.find(email.as_str()) {
            Some(at) => {
                let issued = self.codelist[at].issued;
                if same_text(self.codelist[at].code.as_str(), code.as_str()) && issued <= now && (
                now as i128) - (issued as i128) < CODE_WINDOW_MS as i128 {
                    let _ = self.codelist.remove(at);
                    proof {
                        assert(self@ =~= before.remove(at as int));
                    }
                    true
                } else {
                    false
                }
            },
            None => false,
        }
    }

    /// Checks `code` for `email` at the present moment. Whatever the clock
    /// says, the answer and the change are those of some moment.
    pub fn verify_code(&mut self, email: String, code: String) -> (good: bool)
        ensures
            exists|now: i64|
                good == #[trigger] code_valid(old(self)@, email@, code@, now) && final(self)@
                    == checked(old(self)@, email@, code@, now),
    {
        let now = unix_millis();
        let good = self.verify_code_at(email, code, now);
        proof {
            assert(good == code_valid(old(self)@, email@, code@, now));
        }
        good
    }
}

/// Whether mail can be sent with these settings: none of them is empty.
pub fn mail_settings_complete(
    server_name: &str,
    smtp_ip: &str,
    username: &str,
    password: &str,
) -> (complete: bool)
    ensures
        complete == (server_name@.len() > 0 && smtp_ip@.len() > 0 && username@.len() > 0
            && password@.len() > 0),
{
    !(server_name.is_empty() || smtp_ip.is_empty() || username.is_empty() || password.is_empty())
}

/// The subject of the mail that carries a code.
pub fn code_mail_subject(server_name: &str) -> (subject: String)
    ensures
        subject@ == server_name@ + "邮箱验证码"@,
{
    let mut subject = server_name.to_owned();
    subject.append("邮箱验证码");
    subject
}

/// The HTML page with a style sheet and one `div` of the class `class` around
/// a body.
pub uninterp spec fn html_page(
    style: Seq<char>,
    class: Seq<char>,
    body: Seq<char>,
) -> Seq<char>;

/// Calls `HtmlPage::new`, `with_style`, `with_container` and `to_html_string`
/// of build_html, with one `Container` of type `Div`, `class` as its class
/// attribute and the body as raw content. Claimed: the page depends on
/// style, class and body alone.
#[verifier::external_body]
fn render_page(style: &str, class: &str, body: &str) -> (page: String)
    ensures
        page@ == html_page(style@, class@, body@),
{
    let outer = Container::new(ContainerType::Div).with_attributes([("class", class)]);
    HtmlPage::new().with_style(style).with_container(outer.with_raw(body)).to_html_string()
}

/// The class of the frame around the body of the mail.
pub const MAIL_FRAME_CLASS: &'static str = "outer-div";

/// The body of the mail, before the name of the service.
pub const MAIL_HEAD: &'static str = "<table width=\"500\" border=\"0\" align=\"center\" cellpadding=\"0\" cellspacing=\"0\">\n    <div class=\"inner-div\">\n        <table width=\"100%\" border=\"0\" cellspacing=\"0\" cellpadding=\"0\">\n            <td class=\"dynamic-machine-td\" valign=\"middle\">\n            ";

/// The body of the mail, between the name of the service and the code.
pub const MAIL_MIDDLE: &'static str = "\n            </td>\n            <body>\n                <tr class=\"spacer-tr\">\n                    <td class=\"email-verification-code-td\">\n                        邮箱验证码\n                    </td>\n                </tr>\n                <tr>\n                    <td class=\"user-greeting-td\">\n\n                    <br>\n                        亲爱的玩家你好！\n</br>\n                        你的验证码是：";

/// The body of the mail, after the code.
pub const MAIL_TAIL: &'static str = ",请在 5 分钟内进行验证。如果该验证码不为您本人申请，请无视。\n                    </td>\n                </tr>\n                <tr class=\"spacer-tr\"></tr>\n            </body>\n        </table>\n    </div>\n</table>";

/// The style sheet of the mail.
pub const MAIL_STYLE: &'static str = ".outer-div {\n        background: #eee;\n    }\n    .inner-div {\n        background: #fff;\n    }\n    .dynamic-machine-td {\n        padding-left: 30px;\n        background-color: #415a94;\n        color: #fff;\n        padding: 20px 40px;\n        font-size: 21px;\n    }\n    .email-verification-code-td {\n        font-size: 24px;\n        line-height: 1.5;\n        color: #000;\n        margin-top: 40px;\n    }\n    .user-greeting-td {\n        font-size: 14px;\n        color: #333;\n        padding: 24px 40px 0 40px;\n    }\n    .spacer-tr {\n        padding: 40px;\n        display: table-cell;\n    }";

/// The body of the mail that carries `code` for the service `server_name`.
pub open spec fn code_mail_body(server_name: Seq<char>, code: Seq<char>) -> Seq<char> {
    MAIL_HEAD@ + server_name + MAIL_MIDDLE@ + code + MAIL_TAIL@
}

/// Writes the body of the mail that carries `code`.
pub fn write_code_mail_body(server_name: &str, code: &str) -> (body: String)
    ensures
        body@ == code_mail_body(server_name@, code@),
{
    let mut body = MAIL_HEAD.to_owned();
    body.append(server_name);
    body.append(MAIL_MIDDLE);
    body.append(code);
    body.append(MAIL_TAIL);
    body
}

/// The page of the mail that carries `code` for the service `server_name`:
/// the body in its frame, with the style sheet.
pub fn generate_code_html(server_name: &str, code: &str) -> (page: String)
    ensures
        page@ == html_page(MAIL_STYLE@, MAIL_FRAME_CLASS@, code_mail_body(server_name@, code@)),
{
    let body = write_code_mail_body(server_name, code);
    render_page(MAIL_STYLE, MAIL_FRAME_CLASS, body.as_str())
}

} // verus!
