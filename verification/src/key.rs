//! Bearer credentials: a signed claims token with an absolute expiry, and an
//! older sealed token that carries its time of issue and is good for a fixed
//! window after it.

use aes::cipher::block_padding::Pkcs7;
use aes::cipher::{BlockDecryptMut, BlockEncryptMut, KeyIvInit};
use base64::engine::general_purpose::STANDARD;
use base64::Engine;
use md5::Digest;
use vstd::arithmetic::div_mod::lemma_mod_multiples_vanish;
use vstd::prelude::*;

verus! {

/// The one failure that sealing or opening a token reports.
#[derive(Debug, Clone, Copy, PartialEq, Eq, Structural)]
pub struct DecryptionError;

impl DecryptionError {
    pub fn to_string(&self) -> (text: String)
        ensures
            text@ == "Decryption error"@,
    {
        "Decryption error".to_owned()
    }
}

/// The one failure that checking a signed token reports: a bad signature, a
/// malformed token and a passed expiry are not told apart.
#[derive(Debug, Clone, Copy, PartialEq, Eq, Structural)]
pub struct InvalidCredential;

/// The key and the initialisation vector under which sealed tokens are made.
/// Both are fixed for a deployment.
#[derive(Debug, Clone, Copy)]
pub struct Key {
    pub key: [u8; 16],
    pub iv: [u8; 16],
}

/// What a sealed token carries: who it was issued to, and when, in
/// milliseconds since the epoch.
#[derive(Debug, Clone, Copy, PartialEq, Eq, Structural)]
pub struct UserTimeTokenStruct {
    pub user: u64,
    pub time: u64,
}

/// The claims of a signed token: the subject and the second at which the
/// token stops being good.
#[derive(Debug, Clone, Copy, PartialEq, Eq, Structural)]
pub struct TokenUser {
    pub uid: u64,
    pub exp: u64,
}

/// The shared secret under which claims are signed.
pub const TOKEN_KEY_STR: &'static str = "1234567890abcdef";

/// How long a sealed token is good for after its issue, in milliseconds:
/// twelve hours.
pub const TOKEN_WINDOW_MS: u64 = 43_200_000;

/// The MD5 digest of a text's UTF-8 bytes.
pub uninterp spec fn md5_digest(text: Seq<char>) -> Seq<u8>;

/// The AES-128 ciphertext of `plain` in CBC mode with PKCS#7 padding.
pub uninterp spec fn aes_cbc_sealed(key: Seq<u8>, iv: Seq<u8>, plain: Seq<u8>) -> Seq<u8>;

/// The plaintext that AES-128 in CBC mode with PKCS#7 padding recovers from
/// `cipher`, if the length and the padding are in order.
pub uninterp spec fn aes_cbc_opened(key: Seq<u8>, iv: Seq<u8>, cipher: Seq<u8>) -> Option<
    Seq<u8>,
>;

/// The standard, padded base64 text of some bytes.
pub uninterp spec fn base64_text(bytes: Seq<u8>) -> Seq<char>;

/// The bytes that a standard, padded base64 text stands for, if it is one.
pub uninterp spec fn base64_bytes(text: Seq<char>) -> Option<Seq<u8>>;

/// The JSON object with two members, `first` with the value `a` and then
/// `second` with the value `b`, as bytes.
pub uninterp spec fn json_object(
    first: Seq<char>,
    a: u64,
    second: Seq<char>,
    b: u64,
) -> Seq<u8>;

/// The members `first` and `second` of a JSON object given as bytes, if both
/// are there and are unsigned integers of 64 bits.
pub uninterp spec fn json_members(bytes: Seq<u8>, first: Seq<char>, second: Seq<char>) -> Option<
    (u64, u64),
>;

/// The HS256 token under `secret` whose claims are `first` with the value `a`
/// and then `second` with the value `b`.
pub uninterp spec fn hs256_token(
    secret: Seq<char>,
    first: Seq<char>,
    a: u64,
    second: Seq<char>,
    b: u64,
) -> Seq<char>;

/// The claims `first` and `second` of a token whose HS256 signature under
/// `secret` is in order, if both are there and are unsigned integers of 64
/// bits, whatever the time.
pub uninterp spec fn hs256_claims(
    secret: Seq<char>,
    token: Seq<char>,
    first: Seq<char>,
    second: Seq<char>,
) -> Option<(u64, u64)>;

/// The name of the claim that holds the subject of a signed token.
pub const CLAIM_SUBJECT: &'static str = "uid";

/// The name of the claim that holds the expiry of a signed token.
pub const CLAIM_EXPIRY: &'static str = "exp";

/// The name of the member that holds the user of a sealed token.
pub const PAYLOAD_USER: &'static str = "user";

/// The name of the member that holds the moment of issue of a sealed token.
pub const PAYLOAD_TIME: &'static str = "time";

/// The JSON of a sealed token's payload, as bytes.
pub open spec fn payload_bytes(user: u64, time: u64) -> Seq<u8> {
    json_object(PAYLOAD_USER@, user, PAYLOAD_TIME@, time)
}

/// The user and the moment of issue in the JSON of a payload.
pub open spec fn payload_fields(bytes: Seq<u8>) -> Option<(u64, u64)> {
    json_members(bytes, PAYLOAD_USER@, PAYLOAD_TIME@)
}

/// The signed token that carries the subject `uid` and the expiry `exp`
/// under the shared secret.
pub open spec fn signed_token(uid: u64, exp: u64) -> Seq<char> {
    hs256_token(TOKEN_KEY_STR@, CLAIM_SUBJECT@, uid, CLAIM_EXPIRY@, exp)
}

/// The subject and the expiry of a token whose signature under the shared
/// secret is in order, whatever the time.
pub open spec fn signed_claims(token: Seq<char>) -> Option<(u64, u64)> {
    hs256_claims(TOKEN_KEY_STR@, token, CLAIM_SUBJECT@, CLAIM_EXPIRY@)
}

/// Calls `Digest::digest` of `md5::Md5`. The contract gives the sixteen bytes
/// that come back a name and claims only that they depend on the text alone.
#[verifier::external_body]
pub fn generate_md5_key(text: &str) -> (digest: [u8; 16])
    ensures
        digest@ == md5_digest(text@),
{
    md5::Md5::digest(text).into()
}

/// Calls `encrypt_padded_b2b_mut` of `cbc::Encryptor<aes::Aes128>` with PKCS#7
/// padding and an output buffer of `room` bytes. Claimed: the call succeeds
/// when the buffer has room for the message and a full block; the ciphertext
/// is the message rounded up to the next whole block, depends on key, vector
/// and message alone, and decrypts to the message again.
#[verifier::external_body]
fn cbc_seal(key: &[u8; 16], iv: &[u8; 16], plain: &[u8], room: usize) -> (sealed: Option<Vec<u8>>)
    ensures
        room >= plain@.len() + 16 ==> sealed is Some,
        sealed matches Some(c) ==> {
            &&& c@ == aes_cbc_sealed(key@, iv@, plain@)
            &&& c@.len() == (plain@.len() / 16 + 1) * 16
            &&& aes_cbc_opened(key@, iv@, c@) == Some(plain@)
        },
{
    let mut out = vec![0u8; room];
    let cipher = cbc::Encryptor::<aes::Aes128>::new(key.into(), iv.into());
    cipher.encrypt_padded_b2b_mut::<Pkcs7>(plain, &mut out).ok().map(|c| c.to_vec())
}

/// Calls `decrypt_padded_b2b_mut` of `cbc::Decryptor<aes::Aes128>` with PKCS#7
/// padding and an output buffer as long as the input. Claimed: whether the
/// call succeeds and what it recovers depend on key, vector and ciphertext
/// alone.
#[verifier::external_body]
fn cbc_open(key: &[u8; 16], iv: &[u8; 16], cipher: &[u8]) -> (opened: Option<Vec<u8>>)
    ensures
        match opened {
            Some(p) => aes_cbc_opened(key@, iv@, cipher@) == Some(p@),
            None => aes_cbc_opened(key@, iv@, cipher@) is None,
        },
{
    let mut out = vec![0u8; cipher.len()];
    let engine = cbc::Decryptor::<aes::Aes128>::new(key.into(), iv.into());
    engine.decrypt_padded_b2b_mut::<Pkcs7>(cipher, &mut out).ok().map(|p| p.to_vec())
}

/// Calls `Engine::encode` of base64's `STANDARD` engine, which panics when the
/// encoded length does not fit in `usize`; the bound leaves those inputs out.
/// Claimed: the text depends on the bytes alone and decodes to them again.
#[verifier::external_body]
fn base64_encode(bytes: &[u8]) -> (text: String)
    requires
        bytes@.len() <= usize::MAX / 2,
    ensures
        text@ == base64_text(bytes@),
        base64_bytes(text@) == Some(bytes@),
{
    STANDARD.encode(bytes)
}

/// Calls `Engine::decode` of base64's `STANDARD` engine. Claimed: whether the
/// text decodes, and to which bytes, depends on the text alone.
#[verifier::external_body]
fn base64_decode(text: &str) -> (bytes: Option<Vec<u8>>)
    ensures
        match bytes {
            Some(b) => base64_bytes(text@) == Some(b@),
            None => base64_bytes(text@) is None,
        },
{
    STANDARD.decode(text).ok()
}

/// Calls `serde_json::to_vec` on a `serde_json::Map` into which `first` and
/// then `second` were inserted. Claimed: writing such a map does not fail,
/// the bytes depend on the names and the numbers alone, and, where the names
/// differ, reading them gives the numbers back.
#[verifier::external_body]
fn json_write(first: &str, a: u64, second: &str, b: u64) -> (bytes: Option<Vec<u8>>)
    ensures
        bytes is Some,
        bytes matches Some(out) ==> out@ == json_object(first@, a, second@, b),
        bytes matches Some(out) ==> first@ != second@ ==> json_members(out@, first@, second@)
            == Some((a, b)),
{
    let mut fields = serde_json::Map::new();
    fields.insert(first.to_string(), serde_json::Value::from(a));
    fields.insert(second.to_string(), serde_json::Value::from(b));
    serde_json::to_vec(&fields).ok()
}

/// Calls `serde_json::from_slice` for a `Value`, then `Value::get` and
/// `Value::as_u64` for the two members. Claimed: the outcome depends on the
/// bytes and the names alone.
#[verifier::external_body]
fn json_read(bytes: &[u8], first: &str, second: &str) -> (fields: Option<(u64, u64)>)
    ensures
        fields == json_members(bytes@, first@, second@),
{
    let value = serde_json::from_slice::<serde_json::Value>(bytes).ok()?;
    Some((value.get(first)?.as_u64()?, value.get(second)?.as_u64()?))
}

/// Calls `jsonwebtoken::encode` with the default header (HS256), a
/// `serde_json::Map` into which `first` and then `second` were inserted, and
/// `secret` as the key. Claimed: with a secret key and HS256 the call does
/// not fail, the token depends on the secret, the names and the numbers
/// alone, and, where the names differ, its signature and claims read back as
/// they were written.
#[verifier::external_body]
fn jwt_sign(secret: &str, first: &str, a: u64, second: &str, b: u64) -> (token: Option<String>)
    ensures
        token is Some,
        token matches Some(t) ==> t@ == hs256_token(secret@, first@, a, second@, b),
        token matches Some(t) ==> first@ != second@ ==> hs256_claims(
            secret@,
            t@,
            first@,
            second@,
        ) == Some((a, b)),
{
    let mut claims = serde_json::Map::new();
    claims.insert(first.to_string(), serde_json::Value::from(a));
    claims.insert(second.to_string(), serde_json::Value::from(b));
    let key = jsonwebtoken::EncodingKey::from_secret(secret.as_bytes());
    jsonwebtoken::encode(&jsonwebtoken::Header::default(), &claims, &key).ok()
}

/// Calls `jsonwebtoken::decode` for a `serde_json::Value` with HS256,
/// `secret` as the key, no required claim and the expiry check switched off,
/// then `Value::get` and `Value::as_u64` for the two claims. Claimed: with
/// that check off the outcome depends on the secret, the token and the names
/// alone.
#[verifier::external_body]
fn jwt_open(secret: &str, token: &str, first: &str, second: &str) -> (claims: Option<(u64, u64)>)
    ensures
        claims == hs256_claims(secret@, token@, first@, second@),
{
    let mut validation = jsonwebtoken::Validation::new(jsonwebtoken::Algorithm::HS256);
    validation.validate_exp = false;
    validation.required_spec_claims.clear();
    let key = jsonwebtoken::DecodingKey::from_secret(secret.as_bytes());
    let data = jsonwebtoken::decode::<serde_json::Value>(token, &key, &validation).ok()?;
    Some((data.claims.get(first)?.as_u64()?, data.claims.get(second)?.as_u64()?))
}

/// Calls `chrono::Utc::now` and `DateTime::timestamp`: the seconds since the
/// epoch. Nothing is claimed of the reading.
#[verifier::external_body]
fn unix_seconds() -> i64 {
    chrono::Utc::now().timestamp()
}

/// Calls `chrono::Utc::now` and `DateTime::timestamp_millis`: the
/// milliseconds since the epoch. Nothing is claimed of the reading.
#[verifier::external_body]
pub(crate) fn unix_millis() -> i64 {
    chrono::Utc::now().timestamp_millis()
}

/// The sixteen digits of lower-case hexadecimal.
pub open spec fn hex_digits() -> Seq<char> {
    "0123456789abcdef"@
}

/// Bytes written as lower-case hexadecimal, two digits a byte, the high half
/// first.
pub open spec fn lower_hex(bytes: Seq<u8>) -> Seq<char>
    decreases bytes.len(),
{
    if bytes.len() == 0 {
        Seq::empty()
    } else {
        lower_hex(bytes.drop_last()).push(hex_digits()[(bytes.last() / 16) as int]).push(
            hex_digits()[(bytes.last() % 16) as int],
        )
    }
}

/// The MD5 digest of a text, as thirty-two digits of lower-case hexadecimal.
pub fn generate_md5_key_tostr(text: &str) -> (hex: String)
    ensures
        hex@ == lower_hex(md5_digest(text@)),
{
    let digest = generate_md5_key(text);
    let digits = "0123456789abcdef";
    proof {
        reveal_strlit("0123456789abcdef");
    }
    let mut hex = String::new();
    let mut i: usize = 0;
    while i < 16
        invariant
            i <= 16,
            digest@.len() == 16,
            digits@ == hex_digits(),
            digits@.len() == 16,
            digits.is_ascii(),
            hex@ == lower_hex(digest@.take(i as int)),
        decreases 16 - i,
    {
        let byte = digest[i];
        let high: usize = (byte / 16) as usize;
        let low: usize = (byte % 16) as usize;
        hex.append(digits.substring_ascii(high, high + 1));
        hex.append(digits.substring_ascii(low, low + 1));
        proof {
            let next = digest@.take(i + 1);
            assert(next.drop_last() == digest@.take(i as int));
            assert(next.last() == byte);
            assert(digits@.subrange(high as int, high + 1) == seq![digits@[high as int]]);
            assert(digits@.subrange(low as int, low + 1) == seq![digits@[low as int]]);
            assert(hex@ == lower_hex(next));
        }
        i += 1;
    }
    proof {
        assert(digest@.take(16) == digest@);
    }
    hex
}

impl Key {
    /// The key of a deployment: the digests of its name and of the address of
    /// its database.
    pub fn new(name: &str, sql_url: &str) -> (made: Key)
        ensures
            made.key@ == md5_digest(name@),
            made.iv@ == md5_digest(sql_url@),
    {
        Key { key: generate_md5_key(name), iv: generate_md5_key(sql_url) }
    }
}

/// Seals `plain` under `key`. It fails only for a message so long that the
/// padded ciphertext could not be addressed.
pub fn encrypt(key: &Key, plain: &[u8]) -> (sealed: Result<Vec<u8>, DecryptionError>)
    ensures
        sealed is Ok <==> plain@.len() + 16 <= usize::MAX,
        sealed matches Ok(c) ==> {
            &&& c@ == aes_cbc_sealed(key.key@, key.iv@, plain@)
            &&& c@.len() == (plain@.len() / 16 + 1) * 16
            &&& aes_cbc_opened(key.key@, key.iv@, c@) == Some(plain@)
        },
{
    match plain.len().checked_add(16) {
        Some(room) => match cbc_seal(&key.key, &key.iv, plain, room) {
            Some(cipher) => Ok(cipher),
            None => Err(DecryptionError),
        },
        None => Err(DecryptionError),
    }
}

/// Opens `cipher` under `key`. It fails when the length is no whole number of
/// blocks or the padding is out of order.
pub fn decrypt(key: &Key, cipher: &[u8]) -> (opened: Result<Vec<u8>, DecryptionError>)
    ensures
        match opened {
            Ok(p) => aes_cbc_opened(key.key@, key.iv@, cipher@) == Some(p@),
            Err(_) => aes_cbc_opened(key.key@, key.iv@, cipher@) is None,
        },
{
    match cbc_open(&key.key, &key.iv, cipher) {
        Some(plain) => Ok(plain),
        None => Err(DecryptionError),
    }
}

/// What a sealed token carries, if it is base64 of a ciphertext that opens
/// under `key` to a payload with both members.
pub open spec fn token_payload(key: Key, token: Seq<char>) -> Option<UserTimeTokenStruct> {
    match base64_bytes(token) {
        Some(cipher) => match aes_cbc_opened(key.key@, key.iv@, cipher) {
            Some(plain) => match payload_fields(plain) {
                Some((user, time)) => Some(UserTimeTokenStruct { user, time }),
                None => None,
            },
            None => None,
        },
        None => None,
    }
}

/// The sealed token for a payload: base64 of the ciphertext of its JSON.
pub open spec fn sealed_token(key: Key, payload: UserTimeTokenStruct) -> Seq<char> {
    base64_text(aes_cbc_sealed(key.key@, key.iv@, payload_bytes(payload.user, payload.time)))
}

/// Whether a plaintext of `len` bytes can be sealed into a token: its padded
/// ciphertext must be short enough to be written in base64.
pub open spec fn sealable(len: nat) -> bool {
    (len / 16 + 1) * 16 <= usize::MAX / 2
}

/// Whether a payload issued at `issued` is still good at `now`, both in
/// milliseconds: it was not issued after `now`, and no more than the window
/// has passed since.
pub open spec fn within_window(issued: u64, now: u64) -> bool {
    issued <= now && now - issued <= TOKEN_WINDOW_MS
}

/// The outcome of checking a sealed token at `now`: the user it was issued
/// to, if it opens and is within its window.
pub open spec fn legacy_outcome(key: Key, token: Seq<char>, now: u64) -> Result<
    u64,
    DecryptionError,
> {
    match token_payload(key, token) {
        Some(payload) => if within_window(payload.time, now) {
            Ok(payload.user)
        } else {
            Err(DecryptionError)
        },
        None => Err(DecryptionError),
    }
}

/// The two members of a payload have different names, and so have the two
/// claims of a signed token.
pub proof fn lemma_member_names_differ()
    ensures
        PAYLOAD_USER@ != PAYLOAD_TIME@,
        CLAIM_SUBJECT@ != CLAIM_EXPIRY@,
{
    reveal_strlit("user");
    reveal_strlit("time");
    reveal_strlit("uid");
    reveal_strlit("exp");
    assert("user"@[0] != "time"@[0]);
    assert("uid"@[0] != "exp"@[0]);
}

/// Seals a payload into a token. The token opens to the payload again.
pub fn seal_token(key: &Key, payload: UserTimeTokenStruct) -> (token: Result<
    String,
    DecryptionError,
>)
    ensures
        token is Ok <==> sealable(payload_bytes(payload.user, payload.time).len()),
        token matches Ok(t) ==> t@ == sealed_token(*key, payload) && token_payload(*key, t@)
            == Some(payload),
{
    proof {
        lemma_member_names_differ();
    }
    let plain = match json_write(PAYLOAD_USER, payload.user, PAYLOAD_TIME, payload.time) {
        Some(bytes) => bytes,
        None => { return Err(DecryptionError); },
    };
    let cipher = match encrypt(key, plain.as_slice()) {
        Ok(cipher) => cipher,
        Err(e) => { return Err(e); },
    };
    if cipher.len() > usize::MAX / 2 {
        return Err(DecryptionError);
    }
    Ok(base64_encode(cipher.as_slice()))
}

/// Opens a token to its payload, without looking at the time.
pub fn open_token(key: &Key, token: &str) -> (payload: Result<UserTimeTokenStruct, DecryptionError>)
    ensures
        match token_payload(*key, token@) {
            Some(p) => payload == Ok::<UserTimeTokenStruct, DecryptionError>(p),
            None => payload is Err,
        },
{
    let cipher = match base64_decode(token) {
        Some(bytes) => bytes,
        None => { return Err(DecryptionError); },
    };
    let plain = match decrypt(key, cipher.as_slice()) {
        Ok(plain) => plain,
        Err(e) => { return Err(e); },
    };
    match json_read(plain.as_slice(), PAYLOAD_USER, PAYLOAD_TIME) {
        Some((user, time)) => Ok(UserTimeTokenStruct { user, time }),
        None => Err(DecryptionError),
    }
}

/// Issues a sealed token for `user` with `time` as its moment of issue.
pub fn generate_token_at(
    key: &Key,
    user: u64,
    time: u64,
) -> (token: Result<String, DecryptionError>)
    ensures
        token is Ok <==> sealable(payload_bytes(user, time).len()),
        token matches Ok(t) ==> {
            &&& t@ == sealed_token(*key, UserTimeTokenStruct { user, time })
            &&& token_payload(*key, t@) == Some(UserTimeTokenStruct { user, time })
            &&& forall|now: u64|
                within_window(time, now) ==> #[trigger] legacy_outcome(*key, t@, now) == Ok::<
                    u64,
                    DecryptionError,
                >(user)
        },
{
    seal_token(key, UserTimeTokenStruct { user, time })
}

/// Checks a sealed token at `now`, in milliseconds since the epoch.
pub fn gettoken_to_user_at(key: &Key, user_token_text: &str, now: u64) -> (user: Result<
    u64,
    DecryptionError,
>)
    ensures
        user == legacy_outcome(*key, user_token_text@, now),
{
    match open_token(key, user_token_text) {
        Ok(payload) => {
            if payload.time <= now && now - payload.time <= TOKEN_WINDOW_MS {
                Ok(payload.user)
            } else {
                Err(DecryptionError)
            }
        },
        Err(e) => Err(e),
    }
}

/// What issuing a sealed token for `user` gives when the clock reads
/// `reading` milliseconds since the epoch: the sealed token of the user and
/// that moment, and nothing for a reading before the epoch or a payload that
/// cannot be sealed.
pub open spec fn issued_token(key: Key, user: u64, reading: i64) -> Option<Seq<char>> {
    if reading >= 0 && sealable(payload_bytes(user, reading as u64).len()) {
        Some(sealed_token(key, UserTimeTokenStruct { user, time: reading as u64 }))
    } else {
        None
    }
}

/// Whether `token` is what issuing for `user` gives at the clock reading
/// `reading`: the text of the sealed token, or a failure where there is none.
pub open spec fn issued_as(
    token: Result<String, DecryptionError>,
    key: Key,
    user: u64,
    reading: i64,
) -> bool {
    match token {
        Ok(t) => issued_token(key, user, reading) == Some(t@),
        Err(_) => issued_token(key, user, reading) is None,
    }
}

/// The outcome of checking a sealed token when the clock reads `reading`
/// milliseconds since the epoch: a refusal for a reading before the epoch,
/// and the outcome at that moment otherwise.
pub open spec fn legacy_outcome_reading(key: Key, token: Seq<char>, reading: i64) -> Result<
    u64,
    DecryptionError,
> {
    if reading < 0 {
        Err(DecryptionError)
    } else {
        legacy_outcome(key, token, reading as u64)
    }
}

/// Issues a sealed token for `user` when the clock reads `reading`
/// milliseconds since the epoch, with that moment as the moment of issue.
pub fn generate_token_reading(key: &Key, user: u64, reading: i64) -> (token: Result<
    String,
    DecryptionError,
>)
    ensures
        issued_as(token, *key, user, reading),
        token matches Ok(t) ==> token_payload(*key, t@) == Some(
            UserTimeTokenStruct { user, time: reading as u64 },
        ),
{
    if reading < 0 {
        return Err(DecryptionError);
    }
    generate_token_at(key, user, reading as u64)
}

/// Checks a sealed token when the clock reads `reading` milliseconds since
/// the epoch.
pub fn gettoken_to_user_reading(key: &Key, user_token_text: &str, reading: i64) -> (user: Result<
    u64,
    DecryptionError,
>)
    ensures
        user == legacy_outcome_reading(*key, user_token_text@, reading),
{
    if reading < 0 {
        return Err(DecryptionError);
    }
    gettoken_to_user_at(key, user_token_text, reading as u64)
}

/// Issues a sealed token for `user` at the present moment. Whatever the clock
/// reads, what comes back is what issuing gives at that reading: the sealed
/// token of `user` and that moment, which opens to them again, or a failure
/// for a reading before the epoch.
pub fn generate_token(key: &Key, user: u64) -> (token: Result<String, DecryptionError>)
    ensures
        exists|reading: i64| #[trigger] issued_as(token, *key, user, reading),
        token matches Ok(t) ==> exists|time: u64| #[trigger]
            token_payload(*key, t@) == Some(UserTimeTokenStruct { user, time }),
{
    let reading = unix_millis();
    let token = generate_token_reading(key, user, reading);
    proof {
        assert(issued_as(token, *key, user, reading));
        if token is Ok {
            assert(token_payload(*key, token->Ok_0@) == Some(
                UserTimeTokenStruct { user, time: reading as u64 },
            ));
        }
    }
    token
}

/// Checks a sealed token at the present moment. Whatever the clock reads,
/// the outcome is the one that belongs to that reading: the user of a token
/// that opens and is within its window, and a refusal otherwise. A token
/// that does not open is refused at every reading.
pub fn gettoken_to_user(key: &Key, user_token_text: String) -> (user: Result<u64, DecryptionError>)
    ensures
        exists|reading: i64|
            user == #[trigger] legacy_outcome_reading(*key, user_token_text@, reading),
        token_payload(*key, user_token_text@) is None ==> user is Err,
        user matches Ok(subject) ==> token_payload(*key, user_token_text@) matches Some(payload)
            && payload.user == subject,
{
    let reading = unix_millis();
    let user = gettoken_to_user_reading(key, user_token_text.as_str(), reading);
    proof {
        assert(user == legacy_outcome_reading(*key, user_token_text@, reading));
    }
    user
}

/// The lifetime that a caller's number stands for, in units of time: its low
/// sixty-four bits read as a signed number, so that the largest numbers stand
/// for lifetimes that are already over.
pub open spec fn lifetime_of(time: u128) -> int {
    let low = time as int % 0x1_0000_0000_0000_0000;
    if low < 0x8000_0000_0000_0000 {
        low
    } else {
        low - 0x1_0000_0000_0000_0000
    }
}

/// The second at which a token issued at `now` for `lifetime` units of `unit`
/// seconds stops being good, wrapped into sixty-four bits.
pub open spec fn expiry_at(now: i64, lifetime: int, unit: int) -> int {
    (now + lifetime * unit) % 0x1_0000_0000_0000_0000
}

/// Whether a token that expires at `exp` is still good at the second `now`.
pub open spec fn unexpired(exp: u64, now: i64) -> bool {
    exp >= now
}

/// The outcome of checking a signed token at the second `now`: its claims, if
/// the signature is in order and the expiry has not passed.
pub open spec fn signed_outcome(
    token: Seq<char>,
    now: i64,
) -> Result<TokenUser, InvalidCredential> {
    match signed_claims(token) {
        Some((uid, exp)) => if unexpired(exp, now) {
            Ok(TokenUser { uid, exp })
        } else {
            Err(InvalidCredential)
        },
        None => Err(InvalidCredential),
    }
}

/// The lifetime that `time` stands for.
pub fn token_lifetime(time: u128) -> (lifetime: i64)
    ensures
        lifetime == lifetime_of(time),
{
    let low: u128 = time % 0x1_0000_0000_0000_0000u128;
    if low < 0x8000_0000_0000_0000u128 {
        low as i64
    } else {
        let below: u128 = 0x1_0000_0000_0000_0000u128 - low;
        let magnitude: i128 = below as i128;
        (0i128 - magnitude) as i64
    }
}

/// The expiry of a token issued at `now` for `lifetime` units of `unit`
/// seconds.
pub fn token_expiry(now: i64, lifetime: i64, unit: u32) -> (exp: u64)
    ensures
        exp == expiry_at(now, lifetime as int, unit as int),
{
    let span: i128 = lifetime as i128;
    let scale: i128 = unit as i128;
    assert(-0x8000_0000_0000_0000 * 0x1_0000_0000 <= span * scale <= 0x8000_0000_0000_0000
        * 0x1_0000_0000) by (nonlinear_arith)
        requires
            -0x8000_0000_0000_0000 <= span < 0x8000_0000_0000_0000,
            0 <= scale < 0x1_0000_0000,
    ;
    let total: i128 = now as i128 + span * scale;
    let lifted: i128 = total + 0x1_0000_0000_0000_0000_0000_0000i128;
    let wrapped: u128 = (lifted as u128) % 0x1_0000_0000_0000_0000u128;
    proof {
        lemma_mod_multiples_vanish(0x1_0000_0000, total as int, 0x1_0000_0000_0000_0000);
        assert(0x1_0000_0000_0000_0000 * 0x1_0000_0000 == 0x1_0000_0000_0000_0000_0000_0000int)
            by (nonlinear_arith);
    }
    wrapped as u64
}

/// Signs the claims `user` and `exp`. The token's claims read back as they
/// were written.
pub fn create_token_until(user: u64, exp: u64) -> (token: String)
    ensures
        token@ == signed_token(user, exp),
        signed_claims(token@) == Some((user, exp)),
        forall|now: i64| unexpired(exp, now) ==> #[trigger] signed_outcome(token@, now) == Ok::<
            TokenUser,
            InvalidCredential,
        >(TokenUser { uid: user, exp }),
        forall|now: i64| !unexpired(exp, now) ==> #[trigger] signed_outcome(token@, now) is Err,
{
    proof {
        lemma_member_names_differ();
    }
    jwt_sign(TOKEN_KEY_STR, CLAIM_SUBJECT, user, CLAIM_EXPIRY, exp).unwrap()
}

/// Issues a token for `user` at the second `now`, good for `time` units of
/// `unit` seconds.
pub fn create_token_at(user: u64, time: u128, unit: u32, now: i64) -> (token: String)
    ensures
        token@ == signed_token(user, expiry_at(now, lifetime_of(time), unit as int) as u64),
        signed_claims(token@) == Some(
            (user, expiry_at(now, lifetime_of(time), unit as int) as u64),
        ),
{
    create_token_until(user, token_expiry(now, token_lifetime(time), unit))
}

/// Issues a token for `user`, good for `time` seconds from the present
/// moment. Whatever the clock says, the token carries `user` and the expiry
/// that belongs to some moment of issue.
pub fn create_token_time_s(user: u64, time: u128) -> (token: String)
    ensures
        exists|now: i64| #[trigger]
            signed_claims(token@) == Some((user, expiry_at(now, lifetime_of(time), 1) as u64)),
{
    let now = unix_seconds();
    let token = create_token_at(user, time, 1, now);
    proof {
        assert(signed_claims(token@) == Some((user, expiry_at(now, lifetime_of(time), 1) as u64)));
    }
    token
}

/// As `create_token_time_s`, with `time` in minutes.
pub fn create_token_time_min(user: u64, time: u128) -> (token: String)
    ensures
        exists|now: i64| #[trigger]
            signed_claims(token@) == Some((user, expiry_at(now, lifetime_of(time), 60) as u64)),
{
    let now = unix_seconds();
    let token = create_token_at(user, time, 60, now);
    proof {
        assert(signed_claims(token@) == Some((user, expiry_at(now, lifetime_of(time), 60) as u64)));
    }
    token
}

/// As `create_token_time_s`, with `time` in hours.
pub fn create_token_time_h(user: u64, time: u128) -> (token: String)
    ensures
        exists|now: i64| #[trigger]
            signed_claims(token@) == Some((user, expiry_at(now, lifetime_of(time), 3600) as u64)),
{
    let now = unix_seconds();
    let token = create_token_at(user, time, 3600, now);
    proof {
        assert(signed_claims(token@) == Some(
            (user, expiry_at(now, lifetime_of(time), 3600) as u64),
        ));
    }
    token
}

/// As `create_token_time_s`, with `time` in days.
pub fn create_token_time_day(user: u64, time: u128) -> (token: String)
    ensures
        exists|now: i64| #[trigger]
            signed_claims(token@) == Some((user, expiry_at(now, lifetime_of(time), 86400) as u64)),
{
    let now = unix_seconds();
    let token = create_token_at(user, time, 86400, now);
    proof {
        assert(signed_claims(token@) == Some(
            (user, expiry_at(now, lifetime_of(time), 86400) as u64),
        ));
    }
    token
}

/// Checks a signed token at the second `now`.
pub fn signed_token_to_user_at(
    token: &str,
    now: i64,
) -> (user: Result<TokenUser, InvalidCredential>)
    ensures
        user == signed_outcome(token@, now),
{
    match jwt_open(TOKEN_KEY_STR, token, CLAIM_SUBJECT, CLAIM_EXPIRY) {
        Some((uid, exp)) => {
            if now < 0 || exp >= now as u64 {
                Ok(TokenUser { uid, exp })
            } else {
                Err(InvalidCredential)
            }
        },
        None => Err(InvalidCredential),
    }
}

/// Checks a signed token at the present moment. Whatever the clock says, the
/// outcome is the one that belongs to some moment.
pub fn gettoken_to_user_no_time(token: &str) -> (user: Result<TokenUser, InvalidCredential>)
    ensures
        exists|now: i64| user == #[trigger] signed_outcome(token@, now),
{
    let now = unix_seconds();
    let user = signed_token_to_user_at(token, now);
    proof {
        assert(user == signed_outcome(token@, now));
    }
    user
}

/// A sealed token that opens to a payload is good at every moment within the
/// window after its issue, and gives the user it was issued to.
pub proof fn lemma_sealed_token_within_window(
    key: Key,
    token: Seq<char>,
    user: u64,
    time: u64,
    now: u64,
)
    requires
        token_payload(key, token) == Some(UserTimeTokenStruct { user, time }),
        within_window(time, now),
    ensures
        legacy_outcome(key, token, now) == Ok::<u64, DecryptionError>(user),
{
}

/// A sealed token is refused as soon as more than the window has passed since
/// its issue, and while its issue still lies ahead.
pub proof fn lemma_sealed_token_outside_window(key: Key, token: Seq<char>, now: u64)
    requires
        token_payload(key, token) matches Some(payload) && (now - payload.time > TOKEN_WINDOW_MS
            || payload.time > now),
    ensures
        legacy_outcome(key, token, now) is Err,
{
}

/// A token issued at `now` for a lifetime that is not negative is good at the
/// moment of issue, as long as the expiry can be written in sixty-four bits.
pub proof fn lemma_fresh_token_unexpired(time: u128, unit: int, now: i64)
    requires
        0 <= lifetime_of(time),
        1 <= unit,
        0 <= now,
        now + lifetime_of(time) * unit < 0x1_0000_0000_0000_0000,
    ensures
        unexpired(expiry_at(now, lifetime_of(time), unit) as u64, now),
{
    let total = now + lifetime_of(time) * unit;
    assert(0 <= lifetime_of(time) * unit) by (nonlinear_arith)
        requires
            0 <= lifetime_of(time),
            1 <= unit,
    ;
    vstd::arithmetic::div_mod::lemma_small_mod(total as nat, 0x1_0000_0000_0000_0000);
}

/// A token issued for a negative lifetime has expired at the moment of issue
/// and at every later moment.
pub proof fn lemma_stale_token_expired(time: u128, unit: int, now: i64, later: i64)
    requires
        lifetime_of(time) < 0,
        1 <= unit,
        0 <= now + lifetime_of(time) * unit,
        now <= later,
    ensures
        !unexpired(expiry_at(now, lifetime_of(time), unit) as u64, later),
{
    let total = now + lifetime_of(time) * unit;
    assert(lifetime_of(time) * unit < 0) by (nonlinear_arith)
        requires
            lifetime_of(time) < 0,
            1 <= unit,
    ;
    vstd::arithmetic::div_mod::lemma_small_mod(total as nat, 0x1_0000_0000_0000_0000);
}

/// A bearer credential of either kind. Checks of access take the signed
/// kind; the sealed kind is for callers that still hold such a token.
#[derive(Debug, Clone)]
pub enum Credential {
    Signed(String),
    Legacy(String),
}

/// The subject of a checked signed token.
pub open spec fn subject_of(outcome: Result<TokenUser, InvalidCredential>) -> Result<
    u64,
    InvalidCredential,
> {
    match outcome {
        Ok(user) => Ok(user.uid),
        Err(_) => Err(InvalidCredential),
    }
}

/// Who a credential of either kind stands for at `now`, in milliseconds
/// since the epoch: a signed token is checked at the second that `now` lies
/// in, a sealed one at `now` itself.
pub open spec fn credential_subject(key: Key, credential: Credential, now: u64) -> Result<
    u64,
    InvalidCredential,
> {
    match credential {
        Credential::Signed(token) => subject_of(signed_outcome(token@, (now / 1000) as i64)),
        Credential::Legacy(token) => match legacy_outcome(key, token@, now) {
            Ok(user) => Ok(user),
            Err(_) => Err(InvalidCredential),
        },
    }
}

/// Resolves a credential of either kind to its subject at `now`, in
/// milliseconds since the epoch.
pub fn verify_credential_at(key: &Key, credential: &Credential, now: u64) -> (subject: Result<
    u64,
    InvalidCredential,
>)
    ensures
        subject == credential_subject(*key, *credential, now),
{
    match credential {
        Credential::Signed(token) => {
            match signed_token_to_user_at(token.as_str(), (now / 1000) as i64) {
                Ok(user) => Ok(user.uid),
                Err(e) => Err(e),
            }
        },
        Credential::Legacy(token) => match gettoken_to_user_at(key, token.as_str(), now) {
            Ok(user) => Ok(user),
            Err(_) => Err(InvalidCredential),
        },
    }
}

/// Who a credential of either kind stands for when the clock reads
/// `reading` milliseconds since the epoch: nobody for a reading before the
/// epoch, and the subject at that moment otherwise.
pub open spec fn credential_subject_reading(
    key: Key,
    credential: Credential,
    reading: i64,
) -> Result<u64, InvalidCredential> {
    if reading < 0 {
        Err(InvalidCredential)
    } else {
        credential_subject(key, credential, reading as u64)
    }
}

/// Resolves a credential of either kind to its subject when the clock reads
/// `reading` milliseconds since the epoch.
pub fn verify_credential_reading(key: &Key, credential: &Credential, reading: i64) -> (subject:
    Result<u64, InvalidCredential>)
    ensures
        subject == credential_subject_reading(*key, *credential, reading),
{
    if reading < 0 {
        return Err(InvalidCredential);
    }
    verify_credential_at(key, credential, reading as u64)
}

/// Resolves a credential of either kind to its subject at the present
/// moment. Whatever the clock reads, the outcome is the one that belongs to
/// that reading: the subject of a signed token that is in order and not
/// expired, or of a sealed token that opens and is within its window, and a
/// refusal otherwise.
pub fn verify_credential(key: &Key, credential: &Credential) -> (subject: Result<
    u64,
    InvalidCredential,
>)
    ensures
        exists|reading: i64|
            subject == #[trigger] credential_subject_reading(*key, *credential, reading),
{
    let reading = unix_millis();
    let subject = verify_credential_reading(key, credential, reading);
    proof {
        assert(subject == credential_subject_reading(*key, *credential, reading));
    }
    subject
}

} // verus!
