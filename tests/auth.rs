use trombone::auth::{
    authenticate, authorize, bearer_token, check_claims, decode_token, expired, is_public, Claims,
    HttpMethod, TOKEN_LIFETIME_SECS,
};
use trombone::error::{ApiError, AppError};
use trombone::model::{CreateFirmPayload, CreateUserPayload};
use trombone::store::Store;

const SECRET: &str = "test-signing-secret";
const FIRM: u128 = 0xa6a7572a_5553_4653_a733_35a0b602790f;
const NOW: u64 = 1_700_000_000;

fn sign(claims: &serde_json::Map<String, serde_json::Value>, secret: &str) -> String {
    jsonwebtoken::encode(
        &jsonwebtoken::Header::default(),
        claims,
        &jsonwebtoken::EncodingKey::from_secret(secret.as_bytes()),
    )
    .unwrap()
}

fn claims(sub: &str, exp: u64) -> serde_json::Map<String, serde_json::Value> {
    let mut m = serde_json::Map::new();
    m.insert("sub".to_string(), serde_json::Value::from(sub));
    m.insert("exp".to_string(), serde_json::Value::from(exp));
    m
}

fn payload(email: &str, password: &str) -> CreateUserPayload {
    CreateUserPayload {
        firm_id: FIRM,
        email: email.to_string(),
        password: password.to_string(),
        first_name: "Test".to_string(),
        last_name: "User".to_string(),
    }
}

fn store_with_firm() -> Store {
    let mut s = Store::new();
    s.create_firm(CreateFirmPayload { name: "F".to_string() }, FIRM, 0).unwrap();
    s
}

#[test]
fn register_login_and_list_users() {
    let mut s = store_with_firm();
    let created = s.register(payload("a@x.com", "password123"), 7, 10).unwrap();
    assert_eq!(created.email, "a@x.com");
    assert_eq!(created.firm.id, FIRM);
    let token = s.login("a@x.com", "password123", SECRET, NOW).unwrap();
    let header = format!("Bearer {}", token);
    assert_eq!(authenticate(Some(&header), SECRET, NOW), Ok(7));
    assert_eq!(authorize(HttpMethod::Get, "/users", Some(&header), SECRET, NOW), Ok(Some(7)));
    let users = s.list_user_responses().unwrap();
    assert!(users.iter().any(|u| u.id == 7 && u.email == "a@x.com"));
    assert!(!format!("{:?}", users).contains("password_hash"));
    assert!(s.get_user(7).unwrap().password_hash.starts_with("$2"));
}

#[test]
fn test_create_user() {
    let mut s = store_with_firm();
    let email = format!("test.user+{}@example.com", uuid::Uuid::new_v4());
    let u = s.register(payload(&email, "password123"), 1, 0).unwrap();
    assert!(u.email.starts_with("test.user+") && u.email.ends_with("@example.com"));
    assert_eq!(u.first_name, "Test");
    assert_eq!(u.last_name, "User");
    assert_eq!(u.id, 1);
}

#[test]
fn login_failures_are_indistinguishable() {
    let mut s = store_with_firm();
    s.register(payload("B@X.com", "password123"), 8, 0).unwrap();
    assert_eq!(s.login("b@x.com", "wrong-password", SECRET, NOW), Err(ApiError::Unauthenticated));
    assert_eq!(s.login("nobody@x.com", "password123", SECRET, NOW), Err(ApiError::Unauthenticated));
    assert!(s.login("b@X.COM", "password123", SECRET, NOW).is_ok());
}

#[test]
fn short_password_is_a_validation_error() {
    let mut s = store_with_firm();
    assert_eq!(s.register(payload("c@x.com", "short77"), 9, 0).unwrap_err(), ApiError::Validation);
    assert!(s.list_users().is_empty());
    assert_eq!(s.register(payload("c@x.com", "ééééééé"), 9, 0).unwrap_err(), ApiError::Validation);
}

#[test]
fn second_registration_with_same_email_is_a_conflict() {
    let mut s = store_with_firm();
    s.register(payload("dup@x.com", "password123"), 1, 0).unwrap();
    let second = s.register(payload("DUP@x.com", "password456"), 2, 0);
    assert_eq!(second.unwrap_err(), ApiError::Conflict);
    assert_eq!(ApiError::Conflict.status_code(), 409);
}

#[test]
fn registration_under_a_missing_firm_is_internal_and_stores_nothing() {
    let mut s = Store::new();
    let r = s.register(payload("e@x.com", "password123"), 3, 0);
    assert_eq!(r.unwrap_err(), ApiError::Internal);
    assert_eq!(s.get_user(3).unwrap_err(), ApiError::NotFound);
}

#[test]
fn registration_keeps_the_email_as_given() {
    let mut s = store_with_firm();
    let u = s.register(payload("Mixed@Case.com", "password123"), 4, 0).unwrap();
    assert_eq!(u.email, "Mixed@Case.com");
    assert!(s.login("mixed@case.com", "password123", SECRET, NOW).is_ok());
}

#[test]
fn protected_endpoint_without_header_is_rejected() {
    assert_eq!(authorize(HttpMethod::Get, "/clients", None, SECRET, NOW), Err(ApiError::Unauthenticated));
    assert_eq!(authorize(HttpMethod::Delete, "/users/1", None, SECRET, NOW), Err(ApiError::Unauthenticated));
    assert_eq!(authorize(HttpMethod::Post, "/register", None, SECRET, NOW), Ok(None));
    assert_eq!(authorize(HttpMethod::Post, "/login", None, SECRET, NOW), Ok(None));
    assert_eq!(authorize(HttpMethod::Get, "/login", None, SECRET, NOW), Err(ApiError::Unauthenticated));
}

#[test]
fn public_routes() {
    assert!(is_public(HttpMethod::Post, "/register"));
    assert!(is_public(HttpMethod::Post, "/login"));
    assert!(!is_public(HttpMethod::Post, "/users"));
    assert!(!is_public(HttpMethod::Patch, "/register"));
    assert!(!is_public(HttpMethod::Post, "/login/"));
}

#[test]
fn expired_token_is_rejected() {
    let sub = "a6a7572a-5553-4653-a733-35a0b602790f";
    let token = sign(&claims(sub, NOW - 30), SECRET);
    let header = format!("Bearer {}", token);
    assert_eq!(authenticate(Some(&header), SECRET, NOW), Err(ApiError::Unauthenticated));
    let just_expired = sign(&claims(sub, NOW - 1), SECRET);
    assert_eq!(authenticate(Some(&format!("Bearer {}", just_expired)), SECRET, NOW), Err(ApiError::Unauthenticated));
    let expiring_now = sign(&claims(sub, NOW), SECRET);
    assert_eq!(authenticate(Some(&format!("Bearer {}", expiring_now)), SECRET, NOW), Ok(FIRM));
}

#[test]
fn forged_token_is_rejected() {
    let token = sign(&claims("a6a7572a-5553-4653-a733-35a0b602790f", NOW + 100), "another-secret");
    assert_eq!(authenticate(Some(&format!("Bearer {}", token)), SECRET, NOW), Err(ApiError::Unauthenticated));
}

#[test]
fn garbled_tokens_are_rejected() {
    assert_eq!(authenticate(Some("Bearer not.a.token"), SECRET, NOW), Err(ApiError::Unauthenticated));
    assert_eq!(authenticate(Some("Bearer "), SECRET, NOW), Err(ApiError::Unauthenticated));
    let bad_sub = sign(&claims("user-42", NOW + 100), SECRET);
    assert_eq!(authenticate(Some(&format!("Bearer {}", bad_sub)), SECRET, NOW), Err(ApiError::Unauthenticated));
    let good = sign(&claims("a6a7572a-5553-4653-a733-35a0b602790f", NOW + 100), SECRET);
    assert_eq!(authenticate(Some(&format!("Token {}", good)), SECRET, NOW), Err(ApiError::Unauthenticated));
    assert_eq!(authenticate(Some(&format!("bearer {}", good)), SECRET, NOW), Err(ApiError::Unauthenticated));
    assert_eq!(authenticate(Some(&good), SECRET, NOW), Err(ApiError::Unauthenticated));
}

#[test]
fn token_without_expiry_is_rejected() {
    let mut m = serde_json::Map::new();
    m.insert("sub".to_string(), serde_json::Value::from("a6a7572a-5553-4653-a733-35a0b602790f"));
    let token = sign(&m, SECRET);
    assert_eq!(decode_token(&token, SECRET), None);
}

#[test]
fn decode_reads_subject_and_expiry() {
    let token = sign(&claims("A6A7572A-5553-4653-A733-35A0B602790F", 5), SECRET);
    assert_eq!(decode_token(&token, SECRET), Some(Claims { sub: FIRM, exp: 5 }));
}

#[test]
fn issued_token_expires_an_hour_later() {
    let mut s = store_with_firm();
    s.register(payload("t@x.com", "password123"), 0x1234, 0).unwrap();
    let token = s.login("t@x.com", "password123", SECRET, NOW).unwrap();
    let c = decode_token(&token, SECRET).unwrap();
    assert_eq!(c, Claims { sub: 0x1234, exp: NOW + TOKEN_LIFETIME_SECS });
    let header = format!("Bearer {}", token);
    let last = NOW + TOKEN_LIFETIME_SECS;
    assert_eq!(authenticate(Some(&header), SECRET, last), Ok(0x1234));
    assert_eq!(authenticate(Some(&header), SECRET, last + 1), Err(ApiError::Unauthenticated));
}

#[test]
fn bearer_prefix_is_stripped_once() {
    assert_eq!(bearer_token(Some("Bearer abc")), Ok("abc"));
    assert_eq!(bearer_token(Some("Bearer Bearer abc")), Ok("Bearer abc"));
    assert_eq!(bearer_token(Some("Bearer")), Err(ApiError::Unauthenticated));
    assert_eq!(bearer_token(None), Err(ApiError::Unauthenticated));
}

#[test]
fn expiry_rule_and_claims_check() {
    assert!(!expired(100, 100));
    assert!(expired(100, 101));
    assert!(!expired(u64::MAX, u64::MAX));
    assert_eq!(check_claims(Some(Claims { sub: 3, exp: 100 }), 100), Ok(3));
    assert_eq!(check_claims(Some(Claims { sub: 3, exp: 100 }), 101), Err(ApiError::Unauthenticated));
    assert_eq!(check_claims(None, 0), Err(ApiError::Unauthenticated));
}

#[test]
fn status_codes() {
    assert_eq!(ApiError::Unauthenticated.status_code(), 401);
    assert_eq!(ApiError::Validation.status_code(), 400);
    assert_eq!(ApiError::NotFound.status_code(), 404);
    assert_eq!(ApiError::Conflict.status_code(), 409);
    assert_eq!(ApiError::Internal.status_code(), 500);
    let e = AppError::new(404, "Firm not found");
    assert_eq!((e.code, e.message.as_str()), (404, "Firm not found"));
}
