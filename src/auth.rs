//! Credentials and session tokens.
//!
//! The credential store maps each username to its password; a username is
//! registered once and never changes. A login checks the credentials, then
//! hands out the token cached for the user, or signs a new one and caches it.
//! A cached token is handed out again even after the expiry written in it has
//! passed.
use crate::table::StringTable;
use vstd::prelude::*;

verus! {

/// Errors of registration and login.
#[derive(Clone, Copy, Debug, PartialEq, Eq, Structural)]
pub enum AuthError {
    /// The username is already registered.
    AlreadyExists,
    /// The username is unknown or the password differs.
    InvalidCredentials,
    /// The token's expiry does not fit the range of timestamps.
    ExpiryOutOfRange,
}

/// A username with its password.
#[derive(Clone, Debug)]
pub struct User {
    pub username: String,
    pub password: String,
}

/// Registered credentials.
pub struct UsersDb {
    credentials: StringTable,
}

impl View for UsersDb {
    type V = Map<Seq<char>, Seq<char>>;

    /// Passwords by username.
    closed spec fn view(&self) -> Map<Seq<char>, Seq<char>> {
        self.credentials@
    }
}

/// The last token handed out to each user.
pub struct TokenCache {
    tokens: StringTable,
}

impl View for TokenCache {
    type V = Map<Seq<char>, Seq<char>>;

    /// Tokens by username.
    closed spec fn view(&self) -> Map<Seq<char>, Seq<char>> {
        self.tokens@
    }
}

/// How long a newly signed token stays valid, in days.
pub const TOKEN_LIFETIME_DAYS: i64 = 1;

/// Whether `password` is the password registered for `username`.
pub open spec fn credentials_match(
    users: Map<Seq<char>, Seq<char>>,
    username: Seq<char>,
    password: Seq<char>,
) -> bool {
    users.contains_key(username) && users[username] == password
}

/// The Unix time `days` days after `now`, where it is a `u64`.
pub open spec fn expiration_after(now: int, days: int) -> Option<u64> {
    let t = now + days * 86400;
    if 0 <= t <= u64::MAX {
        Some(t as u64)
    } else {
        None
    }
}

/// The token that signs the claims `{ sub: subject, exp: expiry }` with
/// HMAC-SHA256 under `secret`.
pub uninterp spec fn hs256_token(subject: Seq<char>, expiry: u64, secret: Seq<char>) -> Seq<char>;

#[verifier::external_type_specification]
#[verifier::external_body]
pub struct ExJwtError(jsonwebtoken::errors::Error);

/// Relies on `jsonwebtoken::encode` with `Header::new(Algorithm::HS256)` and
/// `EncodingKey::from_secret`: the token depends on the claims and the key alone.
/// The claims are handed over as a `serde_json` object. Encoding succeeds: the
/// key's family matches the header's algorithm, a header and a string-keyed
/// object always serialize, and HMAC signing cannot fail. Decoding the token
/// with the same key, as `decode_claims` does, gives the claims back.
#[verifier::external_body]
fn sign_claims(subject: &str, expiry: u64, secret: &str) -> (r: Result<
    String,
    jsonwebtoken::errors::Error,
>)
    ensures
        r is Ok,
        r matches Ok(t) ==> t@ == hs256_token(subject@, expiry, secret@),
        r matches Ok(t) ==> hs256_claims(t@, secret@) == Some((subject@, expiry)),
{
    let mut claims = serde_json::Map::new();
    claims.insert("sub".to_owned(), serde_json::Value::from(subject));
    claims.insert("exp".to_owned(), serde_json::Value::from(expiry));
    let header = jsonwebtoken::Header::new(jsonwebtoken::Algorithm::HS256);
    let key = jsonwebtoken::EncodingKey::from_secret(secret.as_bytes());
    jsonwebtoken::encode(&header, &serde_json::Value::Object(claims), &key)
}

/// An empty credential store.
pub fn init_users_db() -> (r: UsersDb)
    ensures
        r@ == Map::<Seq<char>, Seq<char>>::empty(),
{
    UsersDb { credentials: StringTable::new() }
}

/// An empty token cache.
pub fn init_token_cache() -> (r: TokenCache)
    ensures
        r@ == Map::<Seq<char>, Seq<char>>::empty(),
{
    TokenCache { tokens: StringTable::new() }
}

/// The record of `username` with `password`.
pub fn create_user(username: &str, password: &str) -> (r: User)
    ensures
        r.username@ == username@,
        r.password@ == password@,
{
    User { username: username.to_owned(), password: password.to_owned() }
}

/// Registers `username` with `password`, unless the username is taken.
pub fn register_user(users_db: &mut UsersDb, username: &str, password: &str) -> (r: Result<
    (),
    AuthError,
>)
    ensures
        old(users_db)@.contains_key(username@) ==> r == Err::<(), _>(AuthError::AlreadyExists)
            && final(users_db)@ == old(users_db)@,
        !old(users_db)@.contains_key(username@) ==> r is Ok && final(users_db)@ == old(
            users_db,
        )@.insert(username@, password@),
{
    if users_db.credentials.lookup(username).is_some() {
        return Err(AuthError::AlreadyExists);
    }
    let user = create_user(username, password);
    users_db.credentials.insert(user.username.as_str(), user.password.as_str());
    Ok(())
}

/// The record of `username`, if `password` is its password.
pub fn authenticate_user(users_db: &UsersDb, username: &str, password: &str) -> (r: Result<
    User,
    AuthError,
>)
    ensures
        credentials_match(users_db@, username@, password@) ==> (r matches Ok(u) && u.username@
            == username@ && u.password@ == password@),
        !credentials_match(users_db@, username@, password@) ==> r == Err::<User, _>(
            AuthError::InvalidCredentials,
        ),
{
    match users_db.credentials.lookup(username) {
        Some(stored) => {
            if stored == password.to_owned() {
                Ok(create_user(username, password))
            } else {
                Err(AuthError::InvalidCredentials)
            }
        },
        None => Err(AuthError::InvalidCredentials),
    }
}

/// The Unix time `days` days after `now`, or `None` where it is negative or
/// beyond `u64`.
pub fn calculate_expiration(now: i64, days: i64) -> (r: Option<u64>)
    ensures
        r == expiration_after(now as int, days as int),
{
    let t: i128 = now as i128 + days as i128 * 86400;
    if 0 <= t && t <= u64::MAX as i128 {
        Some(t as u64)
    } else {
        None
    }
}

/// The expiry written into a token signed at `now`.
pub open spec fn token_expiry(now: int) -> Option<u64> {
    expiration_after(now, TOKEN_LIFETIME_DAYS as int)
}

/// A new token for `user`, valid for `TOKEN_LIFETIME_DAYS` after `now`: it
/// carries the username as subject and the expiry, signed with `secret`.
pub fn create_token_for_user(user: &User, secret: &str, now: i64) -> (r: Result<String, AuthError>)
    ensures
        token_expiry(now as int) is None ==> r == Err::<String, _>(AuthError::ExpiryOutOfRange),
        token_expiry(now as int) matches Some(expiry) ==> (r matches Ok(t) && t@ == hs256_token(
            user.username@,
            expiry,
            secret@,
        ) && hs256_claims(t@, secret@) == Some((user.username@, expiry))),
{
    let expiry = match calculate_expiration(now, TOKEN_LIFETIME_DAYS) {
        Some(t) => t,
        None => return Err(AuthError::ExpiryOutOfRange),
    };
    let token = sign_claims(user.username.as_str(), expiry, secret).unwrap();
    Ok(token)
}

/// A login's result with the token read as characters.
pub open spec fn login_view(r: Result<String, AuthError>) -> Result<Seq<char>, AuthError> {
    match r {
        Ok(t) => Ok(t@),
        Err(e) => Err(e),
    }
}

/// What a login of `username` with `password` at Unix time `now` does: `r` is
/// its result and the token cache goes from `before` to `after`.
pub open spec fn login_outcome(
    users: Map<Seq<char>, Seq<char>>,
    before: Map<Seq<char>, Seq<char>>,
    after: Map<Seq<char>, Seq<char>>,
    username: Seq<char>,
    password: Seq<char>,
    secret: Seq<char>,
    now: int,
    r: Result<Seq<char>, AuthError>,
) -> bool {
    if !credentials_match(users, username, password) {
        r == Err::<Seq<char>, _>(AuthError::InvalidCredentials) && after == before
    } else if before.contains_key(username) {
        r == Ok::<_, AuthError>(before[username]) && after == before
    } else {
        match token_expiry(now) {
            None => r == Err::<Seq<char>, _>(AuthError::ExpiryOutOfRange) && after == before,
            Some(expiry) => r == Ok::<_, AuthError>(hs256_token(username, expiry, secret))
                && after == before.insert(username, hs256_token(username, expiry, secret)),
        }
    }
}

/// Logs `username` in at Unix time `now`: the cached token if there is one,
/// else a new token signed with `secret`, which is then cached.
pub fn login_user_at(
    users_db: &UsersDb,
    token_cache: &mut TokenCache,
    secret: &str,
    username: &str,
    password: &str,
    now: i64,
) -> (r: Result<String, AuthError>)
    ensures
        login_outcome(
            users_db@,
            old(token_cache)@,
            final(token_cache)@,
            username@,
            password@,
            secret@,
            now as int,
            login_view(r),
        ),
{
    let user = match authenticate_user(users_db, username, password) {
        Ok(u) => u,
        Err(e) => return Err(e),
    };
    if let Some(token) = token_cache.tokens.lookup(username) {
        return Ok(token);
    }
    let token = match create_token_for_user(&user, secret, now) {
        Ok(t) => t,
        Err(e) => return Err(e),
    };
    token_cache.tokens.insert(username, token.as_str());
    Ok(token)
}

/// Relies on chrono's `Utc::now` and `DateTime::timestamp`: the current Unix
/// time in seconds, whatever the clock says.
#[verifier::external_body]
fn unix_now() -> (r: i64) {
    chrono::Utc::now().timestamp()
}

/// Logs `username` in at the present moment, as `login_user_at` does.
pub fn login_user(
    users_db: &UsersDb,
    token_cache: &mut TokenCache,
    secret: &str,
    username: &str,
    password: &str,
) -> (r: Result<String, AuthError>)
    ensures
        exists|now: i64|
            #[trigger] login_outcome(
                users_db@,
                old(token_cache)@,
                final(token_cache)@,
                username@,
                password@,
                secret@,
                now as int,
                login_view(r),
            ),
{
    let now = unix_now();
    login_user_at(users_db, token_cache, secret, username, password, now)
}

/// The subject and expiry claims of `token`, where its header names HS256, its
/// signature under `secret` is valid, `sub` is a string, `exp` an unsigned
/// integer, and it carries no `aud` claim; `None` for any other token.
pub uninterp spec fn hs256_claims(token: Seq<char>, secret: Seq<char>) -> Option<(Seq<char>, u64)>;

/// Relies on `jsonwebtoken::decode` with `DecodingKey::from_secret` and an HS256
/// `Validation` whose expiry check is off, so that the outcome depends on the
/// token and the key alone; the `sub` and `exp` claims are read back from the
/// decoded `serde_json` object.
#[verifier::external_body]
fn decode_claims(token: &str, secret: &str) -> (r: Option<(String, u64)>)
    ensures
        r matches Some((subject, expiry)) ==> hs256_claims(token@, secret@) == Some(
            (subject@, expiry),
        ),
        r is None ==> hs256_claims(token@, secret@) is None,
{
    let mut validation = jsonwebtoken::Validation::new(jsonwebtoken::Algorithm::HS256);
    validation.validate_exp = false;
    let key = jsonwebtoken::DecodingKey::from_secret(secret.as_bytes());
    let data = jsonwebtoken::decode::<serde_json::Value>(token, &key, &validation).ok()?;
    let subject = data.claims.get("sub")?.as_str()?.to_owned();
    let expiry = data.claims.get("exp")?.as_u64()?;
    Some((subject, expiry))
}

/// Whether decoded claims are still valid at Unix time `now`: they exist and
/// their expiry lies after `now`.
pub open spec fn claims_valid_at(claims: Option<(Seq<char>, u64)>, now: int) -> bool {
    match claims {
        Some((_, expiry)) => now < expiry,
        None => false,
    }
}

/// Whether `claims`, as decoded from a token, are still valid at `now`.
pub fn claims_accepted(claims: &Option<(String, u64)>, now: i64) -> (r: bool)
    ensures
        r == claims_valid_at(
            match claims {
                Some((subject, expiry)) => Some((subject@, *expiry)),
                None => None,
            },
            now as int,
        ),
{
    match claims {
        Some((_, expiry)) => now < 0 || (now as u64) < *expiry,
        None => false,
    }
}

/// Whether `token` is signed with `secret` and has not expired at Unix time
/// `now`.
pub fn verify_token_at(token: &str, secret: &str, now: i64) -> (r: bool)
    ensures
        r == claims_valid_at(hs256_claims(token@, secret@), now as int),
{
    let claims = decode_claims(token, secret);
    claims_accepted(&claims, now)
}

/// Whether `token` is signed with `secret` and has not expired at the present
/// moment.
pub fn verify_token(token: &str, secret: &str) -> (r: bool)
    ensures
        exists|now: i64| r == #[trigger] claims_valid_at(hs256_claims(token@, secret@), now as int),
{
    let now = unix_now();
    verify_token_at(token, secret, now)
}

/// A second login with the same credentials, right after one that succeeded,
/// hands out the same token and leaves the cache as it was.
pub proof fn lemma_login_twice_same_token(
    users: Map<Seq<char>, Seq<char>>,
    cache0: Map<Seq<char>, Seq<char>>,
    cache1: Map<Seq<char>, Seq<char>>,
    cache2: Map<Seq<char>, Seq<char>>,
    username: Seq<char>,
    password: Seq<char>,
    secret: Seq<char>,
    now1: int,
    now2: int,
    token: Seq<char>,
    second: Result<Seq<char>, AuthError>,
)
    requires
        login_outcome(users, cache0, cache1, username, password, secret, now1, Ok(token)),
        login_outcome(users, cache1, cache2, username, password, secret, now2, second),
    ensures
        second == Ok::<_, AuthError>(token),
        cache2 == cache1,
{
}

} // verus!
