use vstd::prelude::*;
use rand::Rng;
use crate::db::Database;
use crate::error::Error;
use crate::routes::hash_format::checkable;
use crate::routes::hash_format::find_word;
use crate::routes::hash_format::has_word_at;
use crate::routes::hash_format::is_checkable;
use crate::routes::hash_format::lemma_default_header;
use crate::types::account::Account;
use crate::types::account::AccountId;
use crate::types::account::Session;
use crate::types::pagination::bytes_of;

verus! {

/// The number of bytes in the salt of a credential hash.
pub const SALT_LEN: usize = 32;

/// The longest password, in bytes, that can be hashed.
pub const MAX_PASSWORD_LEN: usize = 0xFFFF_FFFF;

/// The encoded Argon2 hash of `password` under `salt`, with the default cost
/// parameters of the `argon2` crate: what `argon2::hash_encoded` returns for
/// them.
pub uninterp spec fn argon2_encoded(password: Seq<u8>, salt: Seq<u8>) -> Seq<char>;

/// What `argon2::verify_encoded` finds for an encoded hash and a password:
/// whether the password matches, or `None` where the hash cannot be used.
pub uninterp spec fn argon2_verified(encoded: Seq<char>, password: Seq<u8>) -> Option<bool>;

/// The bytes with which every hash of this service begins: they name the
/// algorithm, its version and its cost parameters.
pub open spec fn hash_header() -> Seq<u8> {
    bytes_of("$argon2i$v=19$m=4096,t=3,p=1$"@)
}

/// Whether a hash begins as every hash that this service makes: with the
/// algorithm, the version and the cost parameters of the service.
pub open spec fn known_parameters(hash: Seq<u8>) -> bool {
    has_word_at(hash, 0, hash_header())
}

/// Whether a hash begins as every hash that this service makes.
pub fn has_known_parameters(hash: &str) -> (yes: bool)
    ensures
        yes == known_parameters(bytes_of(hash@)),
{
    find_word(hash.as_bytes(), 0, "$argon2i$v=19$m=4096,t=3,p=1$".as_bytes()).is_some()
}

/// Calls `argon2::verify_encoded`, which decodes the hash, hashes the
/// password again with the parameters and the salt found in it, and compares
/// the two digests. It depends on its two arguments alone, so its result has
/// a name: whether the digests agree, or `None` where the crate reports that
/// the hash cannot be decoded or that its parameters are refused. The crate
/// takes as much memory, as many threads and as many passes as the hash asks
/// for, so `requires` admits only a hash whose header names costs within the
/// limits of this service. The crate reads the costs from the same place:
/// it splits the hash at each `$` and reads them from the part that follows
/// the variant, or that follows the version where there is one. Where it
/// counts the parts otherwise than the header was read, it finds no costs in
/// the part it looks at and reports an error.
#[verifier::external_body]
fn argon2_verify(encoded: &str, password: &[u8]) -> (r: Option<bool>)
    requires
        checkable(bytes_of(encoded@)),
    ensures
        r == argon2_verified(encoded@, password@),
{
    argon2::verify_encoded(encoded, password).ok()
}

/// Calls `rand::thread_rng` for 32 random bytes. Nothing is known of them but
/// their number.
#[verifier::external_body]
fn fresh_salt() -> (salt: Vec<u8>)
    ensures
        salt@.len() == SALT_LEN,
{
    rand::thread_rng().gen::<[u8; 32]>().to_vec()
}

/// Calls `argon2::hash_encoded` with the default configuration. With that
/// configuration it refuses only a password or a salt above 2^32 - 1 bytes
/// and a salt below 8 bytes, which `requires` leaves out. The result is
/// named. It begins with the algorithm and the parameters of the default
/// configuration, and it is a hash that `argon2::verify_encoded` accepts for
/// the same password, as the documentation of the two functions shows. For
/// any other password of up to 2^32 - 1 bytes `argon2::verify_encoded`
/// decodes it all the same and answers whether that password matches: it
/// refuses a decoded hash only for a password that is too long. The
/// encoding holds the salt as base64 text between two `$`, so the encoding
/// of the same password under any other salt is another text.
#[verifier::external_body]
fn argon2_hash(password: &[u8], salt: &[u8]) -> (encoded: String)
    requires
        password@.len() <= MAX_PASSWORD_LEN,
        8 <= salt@.len() <= 0xFFFF_FFFF,
    ensures
        encoded@ == argon2_encoded(password@, salt@),
        known_parameters(bytes_of(encoded@)),
        argon2_verified(encoded@, password@) == Some(true),
        forall|other: Seq<u8>|
            other.len() <= MAX_PASSWORD_LEN ==> (#[trigger] argon2_verified(encoded@, other))
                is Some,
        forall|other: Seq<u8>|
            8 <= other.len() <= 0xFFFF_FFFF && other != salt@ ==> #[trigger] argon2_encoded(
                password@,
                other,
            ) != encoded@,
{
    argon2::hash_encoded(password, salt, &argon2::Config::default()).unwrap()
}

/// What checking `password` against the stored hash `hash` gives. The check
/// goes by the variant, the version, the costs and the salt that the hash
/// names: it tells whether the password matches. It gives `HashFormatError`
/// where the header of the hash cannot be read, where it names a cost above
/// the limits of this service, and where the rest of the hash cannot be
/// decoded.
pub open spec fn password_check(hash: Seq<char>, password: Seq<u8>) -> Result<bool, Error> {
    if !checkable(bytes_of(hash)) {
        Err(Error::HashFormatError)
    } else {
        match argon2_verified(hash, password) {
            Some(matches) => Ok(matches),
            None => Err(Error::HashFormatError),
        }
    }
}

/// Whether `hash` is the Argon2 encoding of `password` under `salt`, a salt
/// of 32 bytes. The encoding holds its salt: under no other salt is the
/// encoding of the password the same text.
pub open spec fn salted_with(hash: Seq<char>, password: Seq<u8>, salt: Seq<u8>) -> bool {
    &&& salt.len() == SALT_LEN
    &&& hash == argon2_encoded(password, salt)
    &&& forall|other: Seq<u8>|
        8 <= other.len() <= 0xFFFF_FFFF && other != salt ==> #[trigger] argon2_encoded(
            password,
            other,
        ) != hash
}

/// Two hashes of one password under different salts are different texts.
pub proof fn lemma_salts_tell_hashes_apart(
    password: Seq<u8>,
    first: Seq<char>,
    first_salt: Seq<u8>,
    second: Seq<char>,
    second_salt: Seq<u8>,
)
    requires
        salted_with(first, password, first_salt),
        salted_with(second, password, second_salt),
        first_salt != second_salt,
    ensures
        first != second,
{
    assert(argon2_encoded(password, first_salt) != second);
}

/// Whether `hash` is a hash that this service makes of `password`: the
/// Argon2 encoding of the password under some salt of 32 bytes, which names
/// the parameters of this service, which the check accepts for this
/// password, and on which the check of any other password that can be hashed
/// gives an answer and no format error.
pub open spec fn is_fresh_hash(hash: Seq<char>, password: Seq<u8>) -> bool {
    &&& exists|salt: Seq<u8>| #[trigger] salted_with(hash, password, salt)
    &&& known_parameters(bytes_of(hash))
    &&& password_check(hash, password) == Ok::<bool, Error>(true)
    &&& forall|other: Seq<u8>|
        other.len() <= MAX_PASSWORD_LEN ==> (#[trigger] password_check(hash, other)) is Ok
}

/// Hashes a password under a fresh random salt of 32 bytes. The result
/// encodes the algorithm, its parameters, the salt and the digest.
/// `verify_password` accepts it for this password, and answers for any other
/// password whether it matches.
pub fn hash_password(password: &[u8]) -> (hash: String)
    requires
        password@.len() <= MAX_PASSWORD_LEN,
    ensures
        is_fresh_hash(hash@, password@),
{
    let salt = fresh_salt();
    let hash = argon2_hash(password, salt.as_slice());
    proof {
        lemma_default_header(bytes_of(hash@));
        assert(salted_with(hash@, password@, salt@));
        assert forall|other: Seq<u8>| other.len() <= MAX_PASSWORD_LEN implies (
        #[trigger] password_check(hash@, other)) is Ok by {
            assert(argon2_verified(hash@, other) is Some);
        }
    }
    hash
}

/// Checks a password against a stored hash, with the parameters that the
/// hash names: whether it matches, or `HashFormatError` where the hash is
/// not one that can be checked.
pub fn verify_password(hash: &str, password: &[u8]) -> (r: Result<bool, Error>)
    ensures
        r == password_check(hash@, password@),
{
    if !is_checkable(hash) {
        return Err(Error::HashFormatError);
    }
    match argon2_verify(hash, password) {
        Some(matches) => Ok(matches),
        None => Err(Error::HashFormatError),
    }
}

/// The number of seconds for which a session is valid.
pub const SESSION_SECS: i64 = 86_400;

/// The last second, counted from the epoch, that a session may name: the end
/// of the year 9999.
pub const MAX_TIMESTAMP: i64 = 253_402_300_799;

/// The number of bytes in the secret key.
pub const KEY_LEN: usize = 32;

/// The number of bytes in the header of a token.
pub const HEADER_LEN: usize = 9;

/// The least number of bytes in a token: its header and a sealed part of 32
/// bytes.
pub const MIN_TOKEN_LEN: usize = 41;

/// The secret with which tokens are sealed and opened: 32 bytes, fixed once
/// the key is made.
pub struct SecretKey {
    bytes: Vec<u8>,
}

impl View for SecretKey {
    type V = Seq<u8>;

    closed spec fn view(&self) -> Seq<u8> {
        self.bytes@
    }
}

impl SecretKey {
    #[verifier::type_invariant]
    spec fn well_formed(self) -> bool {
        self.bytes@.len() == KEY_LEN
    }

    /// Makes a key of `bytes`, if there are 32 of them.
    pub fn new(bytes: Vec<u8>) -> (key: Option<SecretKey>)
        ensures
            key is Some <==> bytes@.len() == KEY_LEN,
            key is Some ==> key.unwrap()@ == bytes@,
    {
        if bytes.len() == KEY_LEN {
            Some(SecretKey { bytes })
        } else {
            None
        }
    }

    /// The 32 bytes of the key.
    pub fn as_bytes(&self) -> (bytes: &[u8])
        ensures
            bytes@ == self@,
            bytes@.len() == KEY_LEN,
    {
        proof {
            use_type_invariant(self);
        }
        self.bytes.as_slice()
    }
}

/// What a token that was opened claims, as far as each claim could be read:
/// the key of the account, and the seconds since the epoch from which and
/// before which the session is valid.
#[derive(Debug, Clone, Copy, PartialEq, Eq, Structural)]
pub struct Claims {
    pub account_id: Option<i64>,
    pub not_before: Option<i64>,
    pub expiry: Option<i64>,
}

/// The header of a token: the bytes of `v2.local.`.
pub open spec fn token_header() -> Seq<u8> {
    seq![118u8, 50u8, 46u8, 108u8, 111u8, 99u8, 97u8, 108u8, 46u8]
}

/// Whether a byte ends the sealed part of a token: a dot, or the `=` that
/// pads base64 text.
pub open spec fn ends_sealed_part(b: u8) -> bool {
    b == 46 || b == 61
}

/// Whether `token` has the frame of a token: the header, and after it at
/// least 32 bytes of a sealed part, which stand for the 24 bytes of a nonce.
pub open spec fn framed(token: Seq<u8>) -> bool {
    &&& token.len() >= MIN_TOKEN_LEN
    &&& token.subrange(0, HEADER_LEN as int) == token_header()
    &&& forall|i: int| HEADER_LEN <= i < MIN_TOKEN_LEN ==> !ends_sealed_part(#[trigger] token[i])
}

/// Whether `token` has the frame of a token.
pub fn is_framed(token: &str) -> (yes: bool)
    ensures
        yes == framed(bytes_of(token@)),
{
    let bytes = token.as_bytes();
    if bytes.len() < MIN_TOKEN_LEN {
        return false;
    }
    let header: bool = bytes[0] == 118 && bytes[1] == 50 && bytes[2] == 46 && bytes[3] == 108
        && bytes[4] == 111 && bytes[5] == 99 && bytes[6] == 97 && bytes[7] == 108 && bytes[8]
        == 46;
    if !header {
        proof {
            let head = bytes@.subrange(0, HEADER_LEN as int);
            if head == token_header() {
                assert(head[0] == 118 && head[1] == 50 && head[2] == 46 && head[3] == 108);
                assert(head[4] == 111 && head[5] == 99 && head[6] == 97 && head[7] == 108);
                assert(head[8] == 46);
            }
        }
        return false;
    }
    assert(bytes@.subrange(0, HEADER_LEN as int) =~= token_header());
    let mut i: usize = HEADER_LEN;
    while i < MIN_TOKEN_LEN
        invariant
            HEADER_LEN <= i <= MIN_TOKEN_LEN <= bytes@.len(),
            bytes@ == bytes_of(token@),
            bytes@.subrange(0, HEADER_LEN as int) == token_header(),
            forall|k: int| HEADER_LEN <= k < i ==> !ends_sealed_part(#[trigger] bytes@[k]),
        decreases MIN_TOKEN_LEN - i,
    {
        if bytes[i] == 46 || bytes[i] == 61 {
            return false;
        }
        i = i + 1;
    }
    true
}

/// The claims that a token for `session` carries.
pub open spec fn claims_of(session: Session) -> Claims {
    Claims {
        account_id: Some(session.account_id.0 as i64),
        not_before: Some(session.nbf),
        expiry: Some(session.expiry),
    }
}

/// The message that `paseto::v2::decrypt_paseto` finds in `token` under
/// `key`, or `None` where the token does not open with this key.
pub uninterp spec fn opened_message(token: Seq<char>, key: Seq<u8>) -> Option<Seq<char>>;

/// The number that `serde_json` reads in a message under the key `name`:
/// `None` where the message is no JSON text, holds nothing under that key,
/// or holds there something other than a whole number of 64 bits.
pub uninterp spec fn json_number(message: Seq<char>, name: Seq<char>) -> Option<i64>;

/// The text that `serde_json` reads in a message under the key `name`:
/// `None` where the message is no JSON text, holds nothing under that key,
/// or holds there something other than a text.
pub uninterp spec fn json_text(message: Seq<char>, name: Seq<char>) -> Option<Seq<char>>;

/// The seconds since the epoch of the moment that `text` writes in the form
/// of RFC 3339, as chrono's parser of `DateTime<Utc>` reads it, or `None`
/// where it reads no moment.
pub uninterp spec fn rfc3339_seconds(text: Seq<char>) -> Option<i64>;

/// The seconds that an optional text writes.
pub open spec fn seconds_in(text: Option<Seq<char>>) -> Option<i64> {
    match text {
        Some(t) => rfc3339_seconds(t),
        None => None,
    }
}

/// The claims that a message holds: the number under `account_id`, and the
/// texts under `nbf` and `exp` read as seconds. A claim that the message
/// does not hold in that form is left out.
pub open spec fn message_claims(message: Seq<char>) -> Claims {
    Claims {
        account_id: json_number(message, "account_id"@),
        not_before: seconds_in(json_text(message, "nbf"@)),
        expiry: seconds_in(json_text(message, "exp"@)),
    }
}

/// What opening `token` with `key` gives: the claims of the message found in
/// it, or `None` where the token does not open with this key.
pub open spec fn sealed_claims(token: Seq<char>, key: Seq<u8>) -> Option<Claims> {
    match opened_message(token, key) {
        Some(message) => Some(message_claims(message)),
        None => None,
    }
}

/// Calls `chrono::Utc::now` for the seconds since the epoch. Nothing is known
/// of them.
#[verifier::external_body]
fn clock_seconds() -> (now: i64) {
    chrono::Utc::now().timestamp()
}

/// Calls `paseto::tokens::PasetoBuilder` for a token, sealed with `key`, that
/// claims the account and the two times. The crate draws a random nonce, so
/// the token itself has no name; there is none where the crate refuses the
/// key or finds no randomness. A token that was made has the frame of one:
/// its header and base64 text without padding of 40 bytes or more. And it
/// opens again with the same key: the crate writes the claims as JSON, the
/// account as a number under `account_id`, the times under `nbf` and `exp`
/// in the form of RFC 3339, and seals that message.
/// `paseto::v2::decrypt_paseto` gives the message back, `serde_json` reads
/// the same number and the same texts under these three keys, and chrono
/// reads the same seconds from the texts: that is what the clause on
/// `sealed_claims` says.
#[verifier::external_body]
fn seal_claims(key: &[u8], account_id: i32, not_before: i64, expiry: i64) -> (token: Option<
    String,
>)
    requires
        0 <= not_before <= MAX_TIMESTAMP,
        0 <= expiry <= MAX_TIMESTAMP,
    ensures
        token is Some ==> framed(bytes_of(token.unwrap()@)),
        token is Some ==> sealed_claims(token.unwrap()@, key@) == Some(
            Claims {
                account_id: Some(account_id as i64),
                not_before: Some(not_before),
                expiry: Some(expiry),
            },
        ),
{
    let nbf = chrono::DateTime::<chrono::Utc>::from_timestamp(not_before, 0)?;
    let exp = chrono::DateTime::<chrono::Utc>::from_timestamp(expiry, 0)?;
    paseto::tokens::PasetoBuilder::new()
        .set_encryption_key(key)
        .set_expiration(&exp)
        .set_not_before(&nbf)
        .set_claim("account_id", serde_json::Value::from(account_id))
        .build()
        .ok()
}

/// Calls `paseto::v2::decrypt_paseto`, which opens the token with `key` and
/// gives the message in it. It depends on its two arguments alone, so its
/// result has a name. The crate decodes the sealed part from base64, padded
/// or not, and splits it after 24 bytes without looking at its length, so
/// `requires` asks for a framed token.
#[verifier::external_body]
fn open_token(token: &str, key: &[u8]) -> (message: Option<String>)
    requires
        framed(bytes_of(token@)),
    ensures
        match message {
            Some(text) => opened_message(token@, key@) == Some(text@),
            None => opened_message(token@, key@) is None,
        },
{
    paseto::v2::decrypt_paseto(token, None, key).ok()
}

/// Calls `serde_json::from_str` on a message and reads the whole number
/// that the value holds under the key `name`. It depends on its two
/// arguments alone, so its result has a name.
#[verifier::external_body]
fn number_claim(message: &str, name: &str) -> (number: Option<i64>)
    ensures
        number == json_number(message@, name@),
{
    serde_json::from_str::<serde_json::Value>(message).ok()?.get(name)?.as_i64()
}

/// Calls `serde_json::from_str` on a message and reads the text that the
/// value holds under the key `name`. It depends on its two arguments alone,
/// so its result has a name.
#[verifier::external_body]
fn text_claim(message: &str, name: &str) -> (text: Option<String>)
    ensures
        match text {
            Some(found) => json_text(message@, name@) == Some(found@),
            None => json_text(message@, name@) is None,
        },
{
    let value = serde_json::from_str::<serde_json::Value>(message).ok()?;
    Some(value.get(name)?.as_str()?.to_string())
}

/// Calls chrono's parser of `DateTime<Utc>`, which reads a moment written in
/// the form of RFC 3339, and gives its seconds since the epoch. It depends
/// on the text alone, so its result has a name.
#[verifier::external_body]
fn read_seconds(text: &str) -> (seconds: Option<i64>)
    ensures
        seconds == rfc3339_seconds(text@),
{
    Some(text.parse::<chrono::DateTime<chrono::Utc>>().ok()?.timestamp())
}

/// Reads the seconds that the text under the key `name` writes.
fn seconds_claim(message: &str, name: &str) -> (seconds: Option<i64>)
    ensures
        seconds == seconds_in(json_text(message@, name@)),
{
    match text_claim(message, name) {
        Some(text) => read_seconds(text.as_str()),
        None => None,
    }
}

/// Reads the claims that a message holds.
pub fn claims_from_message(message: &str) -> (claims: Claims)
    ensures
        claims == message_claims(message@),
{
    Claims {
        account_id: number_claim(message, "account_id"),
        not_before: seconds_claim(message, "nbf"),
        expiry: seconds_claim(message, "exp"),
    }
}

/// Opens a framed token with `key` and reads the claims of its message.
fn open_claims(token: &str, key: &[u8]) -> (claims: Option<Claims>)
    requires
        framed(bytes_of(token@)),
    ensures
        claims == sealed_claims(token@, key@),
{
    match open_token(token, key) {
        Some(message) => Some(claims_from_message(message.as_str())),
        None => None,
    }
}

/// The session of `account_id` that starts at `now`: valid from then on and
/// for a day. There is none where its times would leave the years 1970 to
/// 9999.
pub open spec fn session_at(account_id: AccountId, now: int) -> Option<Session> {
    if 0 <= now && now + SESSION_SECS <= MAX_TIMESTAMP {
        Some(Session { expiry: (now + SESSION_SECS) as i64, account_id, nbf: now as i64 })
    } else {
        None
    }
}

/// The session of `account_id` that starts at `now`.
pub fn session_starting_at(account_id: AccountId, now: i64) -> (session: Option<Session>)
    ensures
        session == session_at(account_id, now as int),
{
    if 0 <= now && now <= MAX_TIMESTAMP - SESSION_SECS {
        Some(Session { expiry: now + SESSION_SECS, account_id, nbf: now })
    } else {
        None
    }
}

/// The session that `claims` stand for at the moment `now`: all three claims
/// must be there, the account's key must fit its type, and `now` must be in
/// the window, neither before its start nor at or after its end. Otherwise
/// the token fails, and the failure does not say why.
pub open spec fn claimed_session(claims: Claims, now: i64) -> Result<Session, Error> {
    if claims.account_id is Some && claims.not_before is Some && claims.expiry is Some
        && i32::MIN <= claims.account_id.unwrap() <= i32::MAX && claims.not_before.unwrap() <= now
        < claims.expiry.unwrap() {
        Ok(
            Session {
                expiry: claims.expiry.unwrap(),
                account_id: AccountId(claims.account_id.unwrap() as i32),
                nbf: claims.not_before.unwrap(),
            },
        )
    } else {
        Err(Error::FailTokenDecryption)
    }
}

/// The session that `claims` stand for at the moment `now`.
pub fn session_from_claims(claims: &Claims, now: i64) -> (r: Result<Session, Error>)
    ensures
        r == claimed_session(*claims, now),
{
    match (claims.account_id, claims.not_before, claims.expiry) {
        (Some(id), Some(not_before), Some(expiry)) => {
            if id < -0x8000_0000 || id > 0x7FFF_FFFF || now < not_before || now >= expiry {
                Err(Error::FailTokenDecryption)
            } else {
                Ok(Session { expiry, account_id: AccountId(id as i32), nbf: not_before })
            }
        },
        _ => Err(Error::FailTokenDecryption),
    }
}

/// What validating `token` with `key` at the moment `now` gives: the session
/// that its claims stand for at that moment. A token without the frame of
/// one, one that does not open with `key`, and one whose window does not
/// hold `now` all fail alike.
pub open spec fn token_session(token: Seq<char>, key: Seq<u8>, now: i64) -> Result<Session, Error> {
    if !framed(bytes_of(token)) {
        Err(Error::FailTokenDecryption)
    } else {
        match sealed_claims(token, key) {
            Some(claims) => claimed_session(claims, now),
            None => Err(Error::FailTokenDecryption),
        }
    }
}

/// Whether `token` is one that was issued under `key` for the session of
/// `account_id` that starts at `now`.
pub open spec fn issued_for(token: Seq<char>, key: Seq<u8>, account_id: AccountId, now: i64) -> bool {
    &&& session_at(account_id, now as int) is Some
    &&& framed(bytes_of(token))
    &&& sealed_claims(token, key) == Some(claims_of(session_at(account_id, now as int).unwrap()))
}

/// Issues a token for the session of `account_id` that starts at `now`. There
/// is none where there is no such session, or where sealing fails.
pub fn gen_token_at(account_id: AccountId, key: &SecretKey, now: i64) -> (token: Option<String>)
    ensures
        token is Some ==> issued_for(token.unwrap()@, key@, account_id, now),
{
    match session_starting_at(account_id, now) {
        Some(session) => seal_claims(
            key.as_bytes(),
            session.account_id.0,
            session.nbf,
            session.expiry,
        ),
        None => None,
    }
}

/// Issues a token for the session of `account_id` that starts now.
pub fn gen_token(account_id: AccountId, key: &SecretKey) -> (token: Option<String>)
    ensures
        token is Some ==> exists|now: i64|
            #[trigger] issued_for(token.unwrap()@, key@, account_id, now),
{
    let now: i64 = clock_seconds();
    gen_token_at(account_id, key, now)
}

/// Validates a token at the moment `now` and gives the session that it
/// carries.
pub fn verify_token_at(token: &str, key: &SecretKey, now: i64) -> (r: Result<Session, Error>)
    ensures
        r == token_session(token@, key@, now),
{
    if !is_framed(token) {
        return Err(Error::FailTokenDecryption);
    }
    match open_claims(token, key.as_bytes()) {
        Some(claims) => session_from_claims(&claims, now),
        None => Err(Error::FailTokenDecryption),
    }
}

/// Validates a token now and gives the session that it carries.
pub fn verify_token(token: &str, key: &SecretKey) -> (r: Result<Session, Error>)
    ensures
        exists|now: i64| r == token_session(token@, key@, now),
{
    let now: i64 = clock_seconds();
    let r = verify_token_at(token, key, now);
    assert(r == token_session(token@, key@, now));
    r
}

/// A token that was issued for an account validates, under the key that
/// sealed it, at every moment from its start on and before a day has passed,
/// and gives the session of that account. At every other moment it fails.
pub proof fn lemma_issued_token_validates(
    token: Seq<char>,
    key: Seq<u8>,
    account_id: AccountId,
    now: i64,
    at: i64,
)
    requires
        issued_for(token, key, account_id, now),
    ensures
        token_session(token, key, at) == if now <= at < now + SESSION_SECS {
            Ok::<Session, Error>(
                Session {
                    expiry: (now + SESSION_SECS) as i64,
                    account_id,
                    nbf: now,
                },
            )
        } else {
            Err(Error::FailTokenDecryption)
        },
{
}

/// No token validates at or after the moment at which it expires, nor before
/// the moment from which it is valid.
pub proof fn lemma_valid_only_in_window(token: Seq<char>, key: Seq<u8>, at: i64)
    requires
        token_session(token, key, at) is Ok,
    ensures
        token_session(token, key, at).unwrap().nbf <= at < token_session(
            token,
            key,
            at,
        ).unwrap().expiry,
{
}

/// Registers an account: hashes its password under a fresh salt of 32 bytes
/// and stores the account with that hash in place of the password. The `id`
/// that `account` carries is not used: the store gives the next key.
pub fn register(account_db: &mut Database, account: Account) -> (r: Result<bool, Error>)
    requires
        old(account_db).wf(),
        bytes_of(account.password@).len() <= MAX_PASSWORD_LEN,
    ensures
        final(account_db).wf(),
        r == if old(account_db)@.email_taken(account.email@) {
            Err::<bool, Error>(Error::DuplicateAccount)
        } else if old(account_db)@.last_account == i32::MAX {
            Err(Error::QueryError)
        } else {
            Ok(true)
        },
        r is Err ==> final(account_db)@ == old(account_db)@,
        r is Ok ==> exists|hash: Seq<char>|
            final(account_db)@ == #[trigger] old(account_db)@.with_account(account.email@, hash)
                && is_fresh_hash(hash, bytes_of(account.password@)),
{
    let password_hash = hash_password(account.password.as_str().as_bytes());
    let ghost hash = password_hash@;
    let account = Account { id: account.id, email: account.email, password: password_hash };
    let r = account_db.add_account(account);
    proof {
        if r is Ok {
            assert(account_db@ == old(account_db)@.with_account(account.email@, hash));
        }
    }
    r
}

/// What a login with the password `password` owes to the account `stored`,
/// before any token is made: the key of the account where the password
/// matches its hash, `WrongPassword` where it does not, `HashFormatError`
/// where the hash cannot be checked.
pub open spec fn login_check(stored_id: Option<int>, stored_hash: Seq<char>, password: Seq<u8>) -> Result<int, Error> {
    match password_check(stored_hash, password) {
        Err(e) => Err(e),
        Ok(false) => Err(Error::WrongPassword),
        Ok(true) => match stored_id {
            Some(id) => Ok(id),
            None => Err(Error::QueryError),
        },
    }
}

/// Checks the password of a login against the account that the store holds.
pub fn check_login(stored: &Account, password: &[u8]) -> (r: Result<AccountId, Error>)
    ensures
        match login_check(stored@.id, stored@.password, password@) {
            Ok(id) => r == Ok::<AccountId, Error>(AccountId(id as i32)),
            Err(e) => r == Err::<AccountId, Error>(e),
        },
{
    match verify_password(stored.password.as_str(), password) {
        Ok(true) => match stored.id {
            Some(id) => Ok(id),
            None => Err(Error::QueryError),
        },
        Ok(false) => Err(Error::WrongPassword),
        Err(e) => Err(e),
    }
}

/// What a login gives once the password is checked and the token is made,
/// if one could be made: the token, or `FailTokenDecryption` where there is
/// none.
pub fn token_or_failure(token: Option<String>) -> (r: Result<String, Error>)
    ensures
        r == match token {
            Some(text) => Ok::<String, Error>(text),
            None => Err(Error::FailTokenDecryption),
        },
{
    match token {
        Some(text) => Ok(text),
        None => Err(Error::FailTokenDecryption),
    }
}

/// What a login owes, given the account that the store holds, the password
/// of the attempt and what came of it: a failure of the check is the failure
/// of the login; where the password matches, the login gives a token issued
/// under `key` for the key of the stored account, at some moment, or
/// `FailTokenDecryption` where no token could be made.
pub open spec fn login_outcome(
    stored_id: Option<int>,
    stored_hash: Seq<char>,
    password: Seq<u8>,
    key: Seq<u8>,
    r: Result<String, Error>,
) -> bool {
    match login_check(stored_id, stored_hash, password) {
        Err(e) => r == Err::<String, Error>(e),
        Ok(id) => {
            let account_id = AccountId(id as i32);
            match r {
                Ok(token) => exists|now: i64| #[trigger] issued_for(token@, key, account_id, now),
                Err(e) => e == Error::FailTokenDecryption,
            }
        },
    }
}

/// A login under an email that is registered never fails with `NotFound`,
/// and where the check finds that the password does not match the stored
/// hash, it fails with `WrongPassword` and gives no token.
pub proof fn lemma_known_email_is_never_not_found(
    stored_id: Option<int>,
    stored_hash: Seq<char>,
    password: Seq<u8>,
    key: Seq<u8>,
    r: Result<String, Error>,
)
    requires
        login_outcome(stored_id, stored_hash, password, key, r),
    ensures
        r != Err::<String, Error>(Error::NotFound),
        password_check(stored_hash, password) == Ok::<bool, Error>(false) ==> r == Err::<
            String,
            Error,
        >(Error::WrongPassword),
        r is Ok ==> password_check(stored_hash, password) == Ok::<bool, Error>(true),
{
}

/// Finishes a login, given what the store answered when asked for the
/// account: checks the password and issues a token for a session of the
/// stored account that starts now. A failure of the store is handed on.
/// Where the store holds no such account, the login fails with `NotFound`;
/// where the password does not match, with `WrongPassword`: the two are told
/// apart here and shown alike to the client. Where the password matches and
/// no token can be made, the login fails with `FailTokenDecryption`.
pub fn login_with(lookup: Result<Option<Account>, Error>, password: &[u8], key: &SecretKey) -> (r:
    Result<String, Error>)
    ensures
        match lookup {
            Ok(Some(stored)) => login_outcome(
                stored@.id,
                stored@.password,
                password@,
                key@,
                r,
            ),
            Ok(None) => r == Err::<String, Error>(Error::NotFound),
            Err(e) => r == Err::<String, Error>(e),
        },
{
    let stored = match lookup {
        Ok(Some(stored)) => stored,
        Ok(None) => {
            return Err(Error::NotFound);
        },
        Err(e) => {
            return Err(e);
        },
    };
    match check_login(&stored, password) {
        Ok(id) => {
            let token = gen_token(id, key);
            let r = token_or_failure(token);
            proof {
                if r is Ok {
                    let now = choose|now: i64| issued_for(token.unwrap()@, key@, id, now);
                    assert(issued_for(r->Ok_0@, key@, id, now));
                }
                assert(login_outcome(stored@.id, stored@.password, password@, key@, r));
            }
            r
        },
        Err(e) => Err(e),
    }
}

/// Logs an account in: looks it up by its email, checks the password and
/// issues a token for a session of the stored account that starts now. The
/// `id` that `attempt` carries is not used. An email that is not registered
/// fails with `NotFound`, a password that does not match with
/// `WrongPassword`.
pub fn login(account_db: &Database, attempt: Account, key: &SecretKey) -> (r: Result<String, Error>)
    requires
        account_db.wf(),
    ensures
        !account_db@.email_taken(attempt.email@) ==> r == Err::<String, Error>(Error::NotFound),
        account_db@.email_taken(attempt.email@) ==> login_outcome(
            account_db@.account_by_email(attempt.email@).id,
            account_db@.account_by_email(attempt.email@).password,
            bytes_of(attempt.password@),
            key@,
            r,
        ),
{
    let lookup = match account_db.get_account(attempt.email) {
        Ok(stored) => Ok(Some(stored)),
        Err(_) => Ok(None),
    };
    login_with(lookup, attempt.password.as_str().as_bytes(), key)
}

} // verus!
