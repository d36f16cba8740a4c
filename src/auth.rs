use vstd::prelude::*;
use crate::error::ApiError;
use crate::model::{CreateUserPayload, UserResponse};
use crate::store::{email_in_use, emails_unique, is_new_user, user_creation_error, Store, StoreView};
use crate::text::lower_of;

verus! {

/// The scheme prefix of an `Authorization` header that carries a bearer token.
pub const BEARER_PREFIX: &'static str = "Bearer ";

/// Lifetime of a token issued at login: one hour.
pub const TOKEN_LIFETIME_SECS: u64 = 3600;

/// Minimum number of characters of a password.
pub const MIN_PASSWORD_CHARS: usize = 8;

/// The two endpoints that bypass the guard.
pub const REGISTER_PATH: &'static str = "/register";

pub const LOGIN_PATH: &'static str = "/login";

/// The signed claims of a token: the user it was issued to and its expiry, in seconds
/// since the Unix epoch.
#[derive(Debug, Clone, Copy, PartialEq, Eq, Structural)]
pub struct Claims {
    pub sub: u128,
    pub exp: u64,
}

#[derive(Debug, Clone, Copy, PartialEq, Eq, Structural)]
pub enum HttpMethod {
    Get,
    Post,
    Patch,
    Delete,
    Other,
}

// ---- outside functions ----

/// What `jsonwebtoken::decode` yields for `token` under HS256 with the key `secret`,
/// expiry left unchecked: the `sub` claim as text and the `exp` claim.
pub uninterp spec fn hs256_claims(token: Seq<char>, secret: Seq<char>) -> Option<(Seq<char>, u64)>;

/// What `jsonwebtoken::encode` yields for the claims `{"sub": sub, "exp": exp}` under the
/// default HS256 header and the key `secret`.
pub uninterp spec fn hs256_token(sub: Seq<char>, exp: u64, secret: Seq<char>) -> Option<Seq<char>>;

/// What `uuid::Uuid::parse_str` yields for `s`, as the id's 128-bit value.
pub uninterp spec fn uuid_parse(s: Seq<char>) -> Option<u128>;

/// What `bcrypt::verify` says of `password` against `hash`; a malformed hash is a mismatch.
pub uninterp spec fn bcrypt_accepts(password: Seq<char>, hash: Seq<char>) -> bool;

pub open spec fn hex_digit(d: int) -> char {
    seq!['0', '1', '2', '3', '4', '5', '6', '7', '8', '9', 'a', 'b', 'c', 'd', 'e', 'f'][d]
}

/// The `k`-th hexadecimal digit of `x`, most significant first (`0 <= k < 32`).
pub open spec fn nibble(x: u128, k: int) -> int {
    (x as int / vstd::arithmetic::power::pow(16, (31 - k) as nat)) % 16
}

/// The digits that come before position `i` of the hyphenated form.
pub open spec fn digit_index(i: int) -> int {
    if i > 23 {
        i - 4
    } else if i > 18 {
        i - 3
    } else if i > 13 {
        i - 2
    } else if i > 8 {
        i - 1
    } else {
        i
    }
}

/// The hyphenated lower-case text of an id: 8-4-4-4-12 hexadecimal digits.
pub open spec fn uuid_text(x: u128) -> Seq<char> {
    Seq::new(
        36,
        |i: int|
            if i == 8 || i == 13 || i == 18 || i == 23 {
                '-'
            } else {
                hex_digit(nibble(x, digit_index(i)))
            },
    )
}

/// Relies on `jsonwebtoken::decode` (HS256, key `secret`, expiry check turned off so
/// that the caller decides it): a token whose signature, header and claims check out
/// yields its `sub` claim, read as text, and its `exp` claim.
#[verifier::external_body]
fn decode_claims(token: &str, secret: &str) -> (r: Option<(String, u64)>)
    ensures
        match r {
            Some((sub, exp)) => hs256_claims(token@, secret@) == Some((sub@, exp)),
            None => hs256_claims(token@, secret@) is None,
        },
{
    let mut validation = jsonwebtoken::Validation::new(jsonwebtoken::Algorithm::HS256);
    validation.validate_exp = false;
    let key = jsonwebtoken::DecodingKey::from_secret(secret.as_bytes());
    let data = jsonwebtoken::decode::<serde_json::Value>(token, &key, &validation).ok()?;
    let sub = data.claims.get("sub")?.as_str()?.to_string();
    let exp = data.claims.get("exp")?.as_u64()?;
    Some((sub, exp))
}

/// Relies on `jsonwebtoken::encode` with the default header (HS256) and key `secret`,
/// of the claims `sub` and `exp`. Such a token decodes under the same key back to those
/// claims: its algorithm is HS256, `exp` is present, and there is no audience.
#[verifier::external_body]
fn sign_token(sub: &str, exp: u64, secret: &str) -> (r: Option<String>)
    ensures
        match r {
            Some(t) => hs256_token(sub@, exp, secret@) == Some(t@),
            None => hs256_token(sub@, exp, secret@) is None,
        },
        r matches Some(t) ==> hs256_claims(t@, secret@) == Some((sub@, exp)),
{
    let mut claims = serde_json::Map::new();
    claims.insert("sub".to_string(), serde_json::Value::from(sub));
    claims.insert("exp".to_string(), serde_json::Value::from(exp));
    let key = jsonwebtoken::EncodingKey::from_secret(secret.as_bytes());
    jsonwebtoken::encode(&jsonwebtoken::Header::default(), &claims, &key).ok()
}

/// Relies on `uuid::Uuid::parse_str`, which accepts among others the hyphenated form
/// that `Uuid` displays.
#[verifier::external_body]
fn parse_uuid(s: &str) -> (r: Option<u128>)
    ensures
        r == uuid_parse(s@),
        forall|x: u128| #[trigger] uuid_text(x) == s@ ==> r == Some(x),
{
    match uuid::Uuid::parse_str(s) {
        Ok(u) => Some(u.as_u128()),
        Err(_) => None,
    }
}

/// Relies on `uuid::Uuid`'s `Display` (`LowerHex` of the hyphenated form) of the id whose
/// big-endian value is `x`; `Uuid::parse_str` reads that text back to `x`.
#[verifier::external_body]
fn uuid_to_text(x: u128) -> (r: String)
    ensures
        r@ == uuid_text(x),
        uuid_parse(r@) == Some(x),
{
    uuid::Uuid::from_u128(x).to_string()
}

/// Relies on `bcrypt::verify`; an error (a malformed hash) counts as a mismatch.
#[verifier::external_body]
fn password_matches(password: &str, hash: &str) -> (r: bool)
    ensures
        r == bcrypt_accepts(password@, hash@),
{
    bcrypt::verify(password, hash).unwrap_or(false)
}

/// Relies on `bcrypt::hash` with `bcrypt::DEFAULT_COST`. The salt is random, so the text
/// is not determined; a hash that it returns verifies against `password`.
#[verifier::external_body]
fn hash_password(password: &str) -> (r: Option<String>)
    ensures
        r matches Some(h) ==> bcrypt_accepts(password@, h@),
{
    bcrypt::hash(password, bcrypt::DEFAULT_COST).ok()
}

// ---- the guard ----

/// The token that a header value carries after the bearer prefix, if it has the prefix.
pub open spec fn bearer_of(h: Seq<char>) -> Option<Seq<char>> {
    let p = BEARER_PREFIX@;
    if p.len() <= h.len() && h.subrange(0, p.len() as int) == p {
        Some(h.subrange(p.len() as int, h.len() as int))
    } else {
        None
    }
}

/// A token's expiry has passed at time `now`.
pub open spec fn is_expired(exp: u64, now: u64) -> bool {
    exp < now
}

/// The claims that a token carries under `secret`: a valid signature, and a subject that
/// is an id.
pub open spec fn claims_of(token: Seq<char>, secret: Seq<char>) -> Option<Claims> {
    match hs256_claims(token, secret) {
        Some((sub, exp)) => match uuid_parse(sub) {
            Some(id) => Some(Claims { sub: id, exp }),
            None => None,
        },
        None => None,
    }
}

/// `token` verifies under `secret` and carries the subject `sub` and the expiry `exp`.
pub open spec fn carries(token: Seq<char>, secret: Seq<char>, sub: u128, exp: u64) -> bool {
    claims_of(token, secret) matches Some(c) && c.sub == sub && c.exp == exp
}

/// The guard's verdict on verified claims at time `now`.
pub open spec fn admitted(claims: Option<Claims>, now: u64) -> Result<u128, ApiError> {
    match claims {
        Some(c) => if is_expired(c.exp, now) {
            Err(ApiError::Unauthenticated)
        } else {
            Ok(c.sub)
        },
        None => Err(ApiError::Unauthenticated),
    }
}

/// The guard's verdict on an `Authorization` header value at time `now`.
pub open spec fn verdict(header: Option<Seq<char>>, secret: Seq<char>, now: u64) -> Result<u128, ApiError> {
    match header {
        None => Err(ApiError::Unauthenticated),
        Some(h) => match bearer_of(h) {
            None => Err(ApiError::Unauthenticated),
            Some(t) => admitted(claims_of(t, secret), now),
        },
    }
}

pub open spec fn header_view(header: Option<&str>) -> Option<Seq<char>> {
    match header {
        Some(h) => Some(h@),
        None => None,
    }
}

fn same_text(a: &str, b: &str) -> (r: bool)
    ensures
        r == (a@ == b@),
{
    a.to_string() == b.to_string()
}

/// The token after the bearer prefix, or `Unauthenticated` when the header is missing
/// or does not start with the prefix.
pub fn bearer_token(header: Option<&str>) -> (r: Result<&str, ApiError>)
    ensures
        match bearer_of_header(header_view(header)) {
            Some(t) => r matches Ok(s) && s@ == t,
            None => r == Err::<&str, ApiError>(ApiError::Unauthenticated),
        },
{
    let h = match header {
        None => return Err(ApiError::Unauthenticated),
        Some(h) => h,
    };
    let n = h.unicode_len();
    let p = BEARER_PREFIX.unicode_len();
    if n < p {
        return Err(ApiError::Unauthenticated);
    }
    let head = h.substring_char(0, p);
    if !same_text(head, BEARER_PREFIX) {
        return Err(ApiError::Unauthenticated);
    }
    Ok(h.substring_char(p, n))
}

pub open spec fn bearer_of_header(header: Option<Seq<char>>) -> Option<Seq<char>> {
    match header {
        Some(h) => bearer_of(h),
        None => None,
    }
}

/// Whether claims of expiry `exp` are expired at time `now`.
pub fn expired(exp: u64, now: u64) -> (r: bool)
    ensures
        r == is_expired(exp, now),
{
    exp < now
}

/// The guard's verdict on claims that verified: the subject, unless the token expired.
/// Every failure is the same `Unauthenticated`, whatever its cause.
pub fn check_claims(claims: Option<Claims>, now: u64) -> (r: Result<u128, ApiError>)
    ensures
        r == admitted(claims, now),
{
    match claims {
        None => Err(ApiError::Unauthenticated),
        Some(c) => if expired(c.exp, now) {
            Err(ApiError::Unauthenticated)
        } else {
            Ok(c.sub)
        },
    }
}

/// The claims of `token` under `secret`, if its signature verifies and its subject is an id.
pub fn decode_token(token: &str, secret: &str) -> (r: Option<Claims>)
    ensures
        r == claims_of(token@, secret@),
{
    match decode_claims(token, secret) {
        None => None,
        Some((sub, exp)) => match parse_uuid(sub.as_str()) {
            None => None,
            Some(id) => Some(Claims { sub: id, exp }),
        },
    }
}

/// Checks the `Authorization` header value of a request at time `now` (seconds since the
/// Unix epoch) and yields the authenticated user id. No store lookup is made: a token
/// stays valid for its whole lifetime.
pub fn authenticate(header: Option<&str>, secret: &str, now: u64) -> (r: Result<u128, ApiError>)
    ensures
        r == verdict(header_view(header), secret@, now),
{
    let token = match bearer_token(header) {
        Err(e) => return Err(e),
        Ok(t) => t,
    };
    check_claims(decode_token(token, secret), now)
}

// ---- routes ----

/// Registration and login are public; every other endpoint is protected.
pub open spec fn is_public_route(method: HttpMethod, path: Seq<char>) -> bool {
    method == HttpMethod::Post && (path == REGISTER_PATH@ || path == LOGIN_PATH@)
}

/// The outcome of the guard for a request: `None` for a public endpoint, the user id for
/// a protected one.
pub open spec fn access(
    method: HttpMethod,
    path: Seq<char>,
    header: Option<Seq<char>>,
    secret: Seq<char>,
    now: u64,
) -> Result<Option<u128>, ApiError> {
    if is_public_route(method, path) {
        Ok(None)
    } else {
        match verdict(header, secret, now) {
            Ok(id) => Ok(Some(id)),
            Err(e) => Err(e),
        }
    }
}

pub fn is_public(method: HttpMethod, path: &str) -> (r: bool)
    ensures
        r == is_public_route(method, path@),
{
    method == HttpMethod::Post && (same_text(path, REGISTER_PATH) || same_text(path, LOGIN_PATH))
}

/// Classifies the request and, for a protected endpoint, applies the guard.
pub fn authorize(method: HttpMethod, path: &str, header: Option<&str>, secret: &str, now: u64) -> (r:
    Result<Option<u128>, ApiError>)
    ensures
        r == access(method, path@, header_view(header), secret@, now),
{
    if is_public(method, path) {
        return Ok(None);
    }
    match authenticate(header, secret, now) {
        Ok(id) => Ok(Some(id)),
        Err(e) => Err(e),
    }
}

// ---- credentials ----

/// The outcome of a login with `email` and `password` at time `now`: a token for the
/// user whose email equals `email` up to case, signed with `secret` and expiring
/// `TOKEN_LIFETIME_SECS` later. An unknown email and a wrong password give the same
/// `Unauthenticated`.
pub open spec fn login_result(
    v: StoreView,
    email: Seq<char>,
    password: Seq<char>,
    secret: Seq<char>,
    now: u64,
) -> Result<Seq<char>, ApiError> {
    match v.user_by_email(email) {
        None => Err(ApiError::Unauthenticated),
        Some(u) => if !bcrypt_accepts(password, u.password_hash@) {
            Err(ApiError::Unauthenticated)
        } else if now + TOKEN_LIFETIME_SECS > u64::MAX {
            Err(ApiError::Internal)
        } else {
            match hs256_token(uuid_text(u.id), (now + TOKEN_LIFETIME_SECS) as u64, secret) {
                Some(t) => Ok(t),
                None => Err(ApiError::Internal),
            }
        },
    }
}

impl Store {
    /// Checks `email` and `password` and issues a signed token for that user at time
    /// `now` (seconds since the Unix epoch).
    pub fn login(&self, email: &str, password: &str, secret: &str, now: u64) -> (r: Result<String, ApiError>)
        requires
            self.wf(),
        ensures
            match r {
                Ok(t) => login_result(self@, email@, password@, secret@, now) == Ok::<Seq<char>, ApiError>(t@),
                Err(e) => login_result(self@, email@, password@, secret@, now) == Err::<Seq<char>, ApiError>(e),
            },
            r matches Ok(t) ==> self@.user_by_email(email@) matches Some(u) && carries(
                t@,
                secret@,
                u.id,
                (now + TOKEN_LIFETIME_SECS) as u64,
            ),
    {
        let user = match self.user_with_email(email) {
            None => return Err(ApiError::Unauthenticated),
            Some(u) => u,
        };
        if !password_matches(password, user.password_hash.as_str()) {
            return Err(ApiError::Unauthenticated);
        }
        let exp = match now.checked_add(TOKEN_LIFETIME_SECS) {
            None => return Err(ApiError::Internal),
            Some(t) => t,
        };
        let sub = uuid_to_text(user.id);
        match sign_token(sub.as_str(), exp, secret) {
            Some(t) => Ok(t),
            None => Err(ApiError::Internal),
        }
    }

    /// Registers a user: the password must have at least `MIN_PASSWORD_CHARS` characters
    /// and the firm must exist; the password is hashed, and the user is stored and returned
    /// with its firm. `Validation` for a short password, `Internal` for a missing firm or
    /// when hashing fails, `Conflict` when the id or the email (up to case) is taken. On
    /// every error the store is unchanged.
    pub fn register(&mut self, p: CreateUserPayload, id: u128, now: i64) -> (r: Result<UserResponse, ApiError>)
        requires
            old(self).wf(),
        ensures
            final(self).wf(),
            p.password@.len() < MIN_PASSWORD_CHARS ==> r == Err::<UserResponse, ApiError>(ApiError::Validation),
            p.password@.len() >= MIN_PASSWORD_CHARS && !old(self)@.firms.by_id.contains_key(p.firm_id)
                ==> r == Err::<UserResponse, ApiError>(ApiError::Internal),
            p.password@.len() >= MIN_PASSWORD_CHARS && old(self)@.firms.by_id.contains_key(p.firm_id)
                && user_creation_error(old(self)@, p, id) is Some ==> (r == Err::<UserResponse, ApiError>(
                ApiError::Conflict,
            ) || r == Err::<UserResponse, ApiError>(ApiError::Internal)),
            p.password@.len() >= MIN_PASSWORD_CHARS && old(self)@.firms.by_id.contains_key(p.firm_id)
                && user_creation_error(old(self)@, p, id) is None ==> (r is Ok || r == Err::<
                UserResponse,
                ApiError,
            >(ApiError::Internal)),
            match r {
                Ok(resp) => registered(old(self)@, final(self)@, p, id, now) && final(self)@.user_response(
                    final(self)@.users.by_id[id],
                ) == Some(resp),
                Err(_) => final(self)@ == old(self)@,
            },
    {
        if p.password.as_str().unicode_len() < MIN_PASSWORD_CHARS {
            return Err(ApiError::Validation);
        }
        if self.get_firm(p.firm_id).is_err() {
            return Err(ApiError::Internal);
        }
        let hash = match hash_password(p.password.as_str()) {
            None => return Err(ApiError::Internal),
            Some(h) => h,
        };
        let user = match self.create_user(p, hash, id, now) {
            Err(e) => return Err(e),
            Ok(u) => u,
        };
        self.assemble_user(user)
    }
}

/// `after` is `before` with one more user, under `id`, registered from `p` at time `now`,
/// whose stored hash verifies against the password.
pub open spec fn registered(before: StoreView, after: StoreView, p: CreateUserPayload, id: u128, now: i64) -> bool {
    after.users.by_id.contains_key(id) && is_new_user(after.users.by_id[id], p, after.users.by_id[id].password_hash, id, now)
        && bcrypt_accepts(p.password@, after.users.by_id[id].password_hash@)
        && after == before.with_users(before.users.added(after.users.by_id[id]))
}

/// Every protected endpoint answers `Unauthenticated` to a request without an
/// `Authorization` header, without the bearer prefix, or whose token does not verify
/// (forged, garbled, subject not an id) or has expired; a request whose token verifies
/// and has not expired gets through as the token's subject. Public endpoints let every
/// request through.
pub proof fn lemma_protected_endpoints_need_a_valid_token(
    method: HttpMethod,
    path: Seq<char>,
    header: Option<Seq<char>>,
    secret: Seq<char>,
    now: u64,
)
    ensures
        is_public_route(method, path) ==> access(method, path, header, secret, now) == Ok::<
            Option<u128>,
            ApiError,
        >(None),
        !is_public_route(method, path) ==> match header {
            None => access(method, path, header, secret, now) == Err::<Option<u128>, ApiError>(
                ApiError::Unauthenticated,
            ),
            Some(h) => match bearer_of(h) {
                None => access(method, path, header, secret, now) == Err::<Option<u128>, ApiError>(
                    ApiError::Unauthenticated,
                ),
                Some(t) => match claims_of(t, secret) {
                    None => access(method, path, header, secret, now) == Err::<
                        Option<u128>,
                        ApiError,
                    >(ApiError::Unauthenticated),
                    Some(c) => if is_expired(c.exp, now) {
                        access(method, path, header, secret, now) == Err::<Option<u128>, ApiError>(
                            ApiError::Unauthenticated,
                        )
                    } else {
                        access(method, path, header, secret, now) == Ok::<Option<u128>, ApiError>(
                            Some(c.sub),
                        )
                    },
                },
            },
        },
{
}

/// Register, then log in: with the email (in any case) and the password of a
/// registration, login yields the token signed for the new user's id, expiring
/// `TOKEN_LIFETIME_SECS` after `now`.
pub proof fn lemma_login_after_registration(
    before: StoreView,
    after: StoreView,
    p: CreateUserPayload,
    id: u128,
    at: i64,
    email: Seq<char>,
    secret: Seq<char>,
    now: u64,
)
    requires
        registered(before, after, p, id, at),
        emails_unique(after.users.by_id),
        lower_of(email) == lower_of(p.email@),
        now + TOKEN_LIFETIME_SECS <= u64::MAX,
    ensures
        login_result(after, email, p.password@, secret, now) == match hs256_token(
            uuid_text(id),
            (now + TOKEN_LIFETIME_SECS) as u64,
            secret,
        ) {
            Some(t) => Ok::<Seq<char>, ApiError>(t),
            None => Err(ApiError::Internal),
        },
{
    let users = after.users.by_id;
    assert(users.contains_key(id) && lower_of(users[id].email@) == lower_of(email));
    assert(email_in_use(users, email, None));
    let k = choose|k: u128|
        #[trigger] users.contains_key(k) && Some(k) != None::<u128> && lower_of(users[k].email@)
            == lower_of(email);
    if k != id {
        assert(lower_of(users[k].email@) != lower_of(users[id].email@));
    }
    assert(users[id].id == id);
}

/// A token that carries `sub` and has not expired is let through every endpoint when
/// sent as `Bearer <token>`: a protected one as `sub`.
pub proof fn lemma_issued_token_is_accepted(
    method: HttpMethod,
    path: Seq<char>,
    token: Seq<char>,
    secret: Seq<char>,
    sub: u128,
    exp: u64,
    now: u64,
)
    requires
        carries(token, secret, sub, exp),
        now <= exp,
    ensures
        access(method, path, Some(BEARER_PREFIX@ + token), secret, now) == if is_public_route(
            method,
            path,
        ) {
            Ok::<Option<u128>, ApiError>(None)
        } else {
            Ok::<Option<u128>, ApiError>(Some(sub))
        },
{
    let p = BEARER_PREFIX@;
    let h = p + token;
    assert(h.subrange(0, p.len() as int) =~= p);
    assert(h.subrange(p.len() as int, h.len() as int) =~= token);
}

} // verus!
