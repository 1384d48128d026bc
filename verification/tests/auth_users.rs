use palmera::auth::{login, AuthConfig, AuthError, AuthUser, LoginPayload, BAD_REQUEST};
use palmera::jwt::JWTClaims;
use palmera::value::TypedParam;

fn config() -> AuthConfig {
    AuthConfig {
        issuer: "test-issuer".to_string(),
        audience: "test-audience".to_string(),
        key: "test-secret-key".to_string(),
    }
}

#[test]
fn test_new_user_and_verify_password_success() {
    let email = "test@example.com";
    let password = "securepassword";
    let user = AuthUser::new(email, password).unwrap();
    assert_eq!(user.email, email);
    assert!(user.verify_password(password).is_ok());
}

#[test]
fn test_verify_password_failure() {
    let user = AuthUser::new("user@example.com", "correct_password").unwrap();
    let result = user.verify_password("wrong_password");
    assert!(result.is_err());
    assert!(result.unwrap_err().body().contains("Password not match"));
}

#[test]
fn test_password_is_hashed() {
    let password = "mysecret";
    let user = AuthUser::new("user@example.com", password).unwrap();
    assert_ne!(user.password, password);
    assert!(user.password.starts_with("$argon2"));
}

#[test]
fn new_user_has_fresh_identifier_and_times() {
    let a = AuthUser::new("a@example.com", "pw").unwrap();
    let b = AuthUser::new("a@example.com", "pw").unwrap();
    assert_eq!(a.id.len(), 36);
    assert_ne!(a.id, b.id);
    assert_ne!(a.password, b.password);
    assert_eq!(a.created, a.updated);
    assert!(a.created > 1_600_000_000);
}

#[test]
fn hash_that_is_no_phc_string_matches_nothing() {
    let user = AuthUser::with_hash("id".to_string(), "a@example.com".to_string(), "plain".to_string(), 5);
    assert_eq!(user.created, 5);
    assert_eq!(user.updated, 5);
    let err = user.verify_password("plain").unwrap_err();
    assert!(matches!(&err, AuthError::InvalidCredentials(reason) if reason == "Password not match"));
    assert_eq!(err.status_code(), 403);
}

#[test]
fn error_statuses_and_bodies() {
    assert_eq!(AuthError::InvalidCredentials("no".to_string()).status_code(), 403);
    assert_eq!(AuthError::InvalidCredentials("no".to_string()).body(), "no");
    assert_eq!(AuthError::Store.status_code(), 500);
    assert_eq!(AuthError::Store.body(), "Internal server error");
    assert_eq!(AuthError::Token.status_code(), 500);
    assert_eq!(AuthError::Token.body(), "Internal server error");
}

#[test]
fn insert_statement_binds_the_user() {
    let user = AuthUser::with_hash("the-id".to_string(), "a@example.com".to_string(), "$hash".to_string(), 1_700_000_000);
    let stmt = user.insert();
    assert_eq!(
        stmt.sql,
        "INSERT INTO \"auth\".\"users\" (\"id\", \"email\", \"password\", \"created\", \"updated\") VALUES ($1, $2, $3, $4, $5) RETURNING *"
    );
    assert_eq!(stmt.params.len(), 5);
    assert!(matches!(&stmt.params[0], TypedParam::String(s) if s == "the-id"));
    assert!(matches!(&stmt.params[1], TypedParam::String(s) if s == "a@example.com"));
    assert!(matches!(&stmt.params[2], TypedParam::String(s) if s == "$hash"));
    assert!(matches!(&stmt.params[3], TypedParam::BigInt(1_700_000_000)));
    assert!(matches!(&stmt.params[4], TypedParam::BigInt(1_700_000_000)));
    assert_eq!(stmt.check, None);
}

#[test]
fn find_statements_bind_their_argument() {
    let by_id = AuthUser::find_by_id("00000000-0000-0000-0000-000000000000");
    assert_eq!(by_id.sql, "SELECT * FROM \"auth\".\"users\" WHERE \"id\" = $1");
    assert!(matches!(&by_id.params[0], TypedParam::String(s) if s == "00000000-0000-0000-0000-000000000000"));
    let by_email = AuthUser::find_by_email("x' OR '1'='1");
    assert_eq!(by_email.sql, "SELECT * FROM \"auth\".\"users\" WHERE \"email\" = $1");
    assert_eq!(by_email.params.len(), 1);
    assert!(matches!(&by_email.params[0], TypedParam::String(s) if s == "x' OR '1'='1"));
}

#[test]
fn login_form_must_carry_an_address() {
    let good = LoginPayload { email: "loginuser@example.com".to_string(), password: "p".to_string() };
    let bad = LoginPayload { email: "not an address".to_string(), password: "p".to_string() };
    let empty = LoginPayload { email: String::new(), password: "p".to_string() };
    assert!(good.validate());
    assert!(!bad.validate());
    assert!(!empty.validate());
}

#[test]
fn login_with_the_right_password_returns_a_token() {
    let user = AuthUser::new("loginuser@example.com", "testpassword").unwrap();
    let form = LoginPayload { email: "loginuser@example.com".to_string(), password: "testpassword".to_string() };
    let token = login(&form, Some(&user), &config()).unwrap();
    assert_eq!(token.split('.').count(), 3);
    let claims = JWTClaims::verify(&token, "test-secret-key", "test-issuer", "test-audience").unwrap();
    assert_eq!(claims.subject, user.id);
    assert_eq!(claims.expiration - claims.issued_at, 3600);
    assert!(claims.expiration > chrono::Utc::now().timestamp());
}

#[test]
fn login_with_the_wrong_password_is_refused() {
    let user = AuthUser::new("wrongpass@example.com", "rightpass").unwrap();
    let form = LoginPayload { email: "wrongpass@example.com".to_string(), password: "wrongpass".to_string() };
    assert_eq!(login(&form, Some(&user), &config()), Err(BAD_REQUEST));
}

#[test]
fn login_for_an_unknown_address_is_refused() {
    let form = LoginPayload { email: "doesnotexist@example.com".to_string(), password: "irrelevant".to_string() };
    assert_eq!(login(&form, None, &config()), Err(400));
}

#[test]
fn login_with_a_form_without_address_is_refused() {
    let user = AuthUser::new("a@example.com", "pw").unwrap();
    let form = LoginPayload { email: "nope".to_string(), password: "pw".to_string() };
    assert_eq!(login(&form, Some(&user), &config()), Err(BAD_REQUEST));
}

#[test]
fn user_comes_of_what_the_hasher_returned() {
    let none = AuthUser::from_hasher("id".to_string(), "a@example.com".to_string(), None, 7);
    assert!(none.is_none());
    let user = AuthUser::from_hasher(
        "id".to_string(),
        "a@example.com".to_string(),
        Some("$hash".to_string()),
        7,
    )
    .unwrap();
    assert_eq!(user.id, "id");
    assert_eq!(user.email, "a@example.com");
    assert_eq!(user.password, "$hash");
    assert_eq!(user.created, 7);
    assert_eq!(user.updated, 7);
}

#[test]
fn new_user_accepts_only_its_own_password() {
    for password in ["", "pässwörd", "a much longer password with spaces in it"] {
        let user = AuthUser::new("a@example.com", password).unwrap();
        assert!(user.verify_password(password).is_ok(), "{:?}", password);
        assert!(user.verify_password("another").is_err());
    }
}
