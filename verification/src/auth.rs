//! Users, their passwords, and the decision to let one in.
//!
//! A password is kept as an Argon2 hash in the PHC string format. The store
//! of users is someone else's: this module builds the statements that read
//! and write it, and decides on a login from what the store returned.

use vstd::prelude::*;
use argon2::{Argon2, PasswordHash, PasswordHasher, PasswordVerifier};
use password_hash::{rand_core::OsRng, SaltString};
use validator::ValidateEmail;
use crate::fresh::{generate_id, now_seconds, ID_LENGTH};
use crate::jwt::{
    header_bytes, in_order, issued, opened, payload_bytes, text_bytes, token_text, JWTClaims,
};
use crate::query::{
    insert_sql_text, render_insert, render_select_by, select_by_sql_text, ParameterizedStatement,
    StatementModel,
};
use crate::text::texts;
use crate::value::{ParamModel, TypedParam};

verus! {

/// What the tokens of this service say of themselves, and the key that signs
/// them.
#[derive(Clone, Debug)]
pub struct AuthConfig {
    pub issuer: String,
    pub audience: String,
    pub key: String,
}

/// What a login form carries.
#[derive(Debug)]
pub struct LoginPayload {
    pub email: String,
    pub password: String,
}

/// A user of the store.
#[derive(Debug)]
pub struct AuthUser {
    /// The identifier of the user.
    pub id: String,
    /// The address of the user.
    pub email: String,
    /// The Argon2 hash of the password, as a PHC string.
    pub password: String,
    /// When the user was created, in seconds since the start of 1970.
    pub created: i64,
    /// When the user was last changed.
    pub updated: i64,
}

/// Why a request was turned down.
#[derive(Debug)]
pub enum AuthError {
    /// The credentials are not those of a user.
    InvalidCredentials(String),
    /// The store failed.
    Store,
    /// A token could not be written or read.
    Token,
}

/// The status that answers a request that is refused.
pub const FORBIDDEN: u16 = 403;

/// The status that answers a request that cannot be read.
pub const BAD_REQUEST: u16 = 400;

/// The status that answers a failure of the service itself.
pub const INTERNAL_SERVER_ERROR: u16 = 500;

/// The seconds for which a login holds.
pub const LOGIN_TTL: i64 = 3600;

/// The most bytes of a password that Argon2 hashes.
pub const MAX_PASSWORD_LENGTH: u64 = 0xFFFF_FFFF;

impl AuthError {
    /// The status that the error is answered with.
    pub fn status_code(&self) -> (code: u16)
        ensures
            code == match self {
                AuthError::InvalidCredentials(_) => FORBIDDEN,
                AuthError::Store => INTERNAL_SERVER_ERROR,
                AuthError::Token => INTERNAL_SERVER_ERROR,
            },
    {
        match self {
            AuthError::InvalidCredentials(_) => FORBIDDEN,
            AuthError::Store => INTERNAL_SERVER_ERROR,
            AuthError::Token => INTERNAL_SERVER_ERROR,
        }
    }

    /// The text that the error is answered with: the reason for refused
    /// credentials, and nothing of the kind for a failure of the service.
    pub fn body(&self) -> (text: String)
        ensures
            text@ == match self {
                AuthError::InvalidCredentials(reason) => reason@,
                AuthError::Store => "Internal server error"@,
                AuthError::Token => "Internal server error"@,
            },
    {
        match self {
            AuthError::InvalidCredentials(reason) => reason.clone(),
            AuthError::Store => "Internal server error".to_owned(),
            AuthError::Token => "Internal server error".to_owned(),
        }
    }
}

// ---------------------------------------------------------------------
// The outside primitives
// ---------------------------------------------------------------------

/// What `validator` says of an address: whether it is one by the rules of
/// the HTML5 specification.
pub uninterp spec fn email_is_valid(address: Seq<char>) -> bool;

/// What Argon2 with its default parameters says of a password and a hash:
/// none where the hash is no PHC string, else whether the password is the
/// one that was hashed.
pub uninterp spec fn argon2_verifies(hash: Seq<char>, password: Seq<u8>) -> Option<bool>;

/// Calls `validator::ValidateEmail::validate_email` on the address.
#[verifier::external_body]
fn validate_email(address: &str) -> (valid: bool)
    ensures
        valid == email_is_valid(address@),
{
    address.validate_email()
}

/// Calls `SaltString::generate` with the operating system's generator and
/// `Argon2::default().hash_password` with the password and that salt, and
/// writes the hash as a PHC string. The salt is random, so the string has no
/// name. The contract claims two things of the crate. With default
/// parameters and a salt of the recommended length the only input that is
/// refused is a password of more than `MAX_PASSWORD_LENGTH` bytes. And every
/// hash that is written, read back and verified with default parameters,
/// accepts the password it was written for.
#[verifier::external_body]
fn hash_password(password: &[u8]) -> (hash: Option<String>)
    ensures
        password@.len() <= MAX_PASSWORD_LENGTH ==> hash is Some,
        hash matches Some(h) ==> argon2_verifies(h@, password@) == Some(true),
{
    let salt = SaltString::generate(&mut OsRng);
    Argon2::default().hash_password(password, &salt).ok().map(|h| h.to_string())
}

/// Calls `PasswordHash::new` on the hash and `Argon2::default().verify_password`
/// with the password and what was parsed.
#[verifier::external_body]
fn verify_hash(hash: &str, password: &[u8]) -> (verdict: Option<bool>)
    ensures
        verdict == argon2_verifies(hash@, password@),
{
    PasswordHash::new(hash).ok().map(|parsed| Argon2::default().verify_password(password, &parsed).is_ok())
}

// ---------------------------------------------------------------------
// Users
// ---------------------------------------------------------------------

impl LoginPayload {
    /// Tells whether the form carries an address.
    pub fn validate(&self) -> (valid: bool)
        ensures
            valid == email_is_valid(self.email@),
    {
        validate_email(self.email.as_str())
    }
}

impl AuthUser {
    /// The user with these values, created at `now`.
    pub fn with_hash(id: String, email: String, hash: String, now: i64) -> (user: AuthUser)
        ensures
            user.id == id,
            user.email == email,
            user.password == hash,
            user.created == now,
            user.updated == now,
    {
        AuthUser { id, email, password: hash, created: now, updated: now }
    }

    /// A new user under a fresh identifier, with the hash of the password
    /// under a fresh salt; none where the password could not be hashed.
    ///
    /// A password of up to `MAX_PASSWORD_LENGTH` bytes is hashed. A user that
    /// is returned bears the address, was created and last changed at one
    /// moment, and accepts the password it was made with.
    pub fn new(email: &str, password: &str) -> (r: Option<AuthUser>)
        ensures
            text_bytes(password@).len() <= MAX_PASSWORD_LENGTH ==> r is Some,
            r matches Some(user) ==> {
                &&& user.email@ == email@
                &&& user.id@.len() == ID_LENGTH
                &&& user.created == user.updated
                &&& user.created >= 0
                &&& user.accepts(password@)
            },
    {
        let now = now_seconds();
        let hashed = hash_password(password.as_bytes());
        AuthUser::from_hasher(generate_id(), email.to_owned(), hashed, now)
    }

    /// The user that comes of what the hasher returned: the user with that
    /// hash, created at `now`, where it returned one, and none where it
    /// returned none.
    pub fn from_hasher(id: String, email: String, hashed: Option<String>, now: i64) -> (r: Option<
        AuthUser,
    >)
        ensures
            r is Some <==> hashed is Some,
            r matches Some(user) ==> {
                &&& user.id == id
                &&& user.email == email
                &&& user.password == hashed->0
                &&& user.created == now
                &&& user.updated == now
            },
    {
        match hashed {
            Some(hash) => Some(AuthUser::with_hash(id, email, hash, now)),
            None => None,
        }
    }

    /// The password is the user's.
    pub open spec fn accepts(&self, password: Seq<char>) -> bool {
        argon2_verifies(self.password@, text_bytes(password)) == Some(true)
    }

    /// Checks a password against the user's hash. A hash that is no PHC
    /// string matches no password.
    pub fn verify_password(&self, password: &str) -> (r: Result<(), AuthError>)
        ensures
            r is Ok <==> self.accepts(password@),
            r matches Err(e) ==> e matches AuthError::InvalidCredentials(reason) && reason@
                == "Password not match"@,
    {
        match verify_hash(self.password.as_str(), password.as_bytes()) {
            Some(true) => Ok(()),
            _ => Err(AuthError::InvalidCredentials("Password not match".to_owned())),
        }
    }

    /// The columns of the table of users, in the order of the statement that
    /// inserts one.
    pub open spec fn columns() -> Seq<Seq<char>> {
        seq!["id"@, "email"@, "password"@, "created"@, "updated"@]
    }

    /// The values of the user, in the order of `columns`.
    pub open spec fn values(&self) -> Seq<ParamModel> {
        seq![
            ParamModel::Text(self.id@),
            ParamModel::Text(self.email@),
            ParamModel::Text(self.password@),
            ParamModel::BigInt(self.created),
            ParamModel::BigInt(self.updated),
        ]
    }

    /// The statement that inserts the user and returns the row as the store
    /// holds it.
    pub fn insert(&self) -> (statement: ParameterizedStatement)
        ensures
            statement@ == (StatementModel {
                sql: insert_sql_text("auth"@, "users"@, Self::columns(), "*"@),
                params: self.values(),
                check: None,
            }),
    {
        let mut columns: Vec<String> = Vec::new();
        columns.push("id".to_owned());
        columns.push("email".to_owned());
        columns.push("password".to_owned());
        columns.push("created".to_owned());
        columns.push("updated".to_owned());
        assert(texts(columns@) =~= Self::columns());
        let mut params: Vec<TypedParam> = Vec::new();
        params.push(TypedParam::String(self.id.clone()));
        params.push(TypedParam::String(self.email.clone()));
        params.push(TypedParam::String(self.password.clone()));
        params.push(TypedParam::BigInt(self.created));
        params.push(TypedParam::BigInt(self.updated));
        let statement = ParameterizedStatement {
            sql: render_insert("auth", "users", &columns, "*"),
            params,
            check: None,
        };
        assert(statement@.params =~= self.values());
        statement
    }

    /// The statement that finds the user of an identifier.
    pub fn find_by_id(id: &str) -> (statement: ParameterizedStatement)
        ensures
            statement@ == (StatementModel {
                sql: select_by_sql_text("auth"@, "users"@, "id"@),
                params: seq![ParamModel::Text(id@)],
                check: None,
            }),
    {
        let mut params: Vec<TypedParam> = Vec::new();
        params.push(TypedParam::String(id.to_owned()));
        let statement = ParameterizedStatement {
            sql: render_select_by("auth", "users", "id"),
            params,
            check: None,
        };
        assert(statement@.params =~= seq![ParamModel::Text(id@)]);
        statement
    }

    /// The statement that finds the user of an address.
    pub fn find_by_email(email: &str) -> (statement: ParameterizedStatement)
        ensures
            statement@ == (StatementModel {
                sql: select_by_sql_text("auth"@, "users"@, "email"@),
                params: seq![ParamModel::Text(email@)],
                check: None,
            }),
    {
        let mut params: Vec<TypedParam> = Vec::new();
        params.push(TypedParam::String(email.to_owned()));
        let statement = ParameterizedStatement {
            sql: render_select_by("auth", "users", "email"),
            params,
            check: None,
        };
        assert(statement@.params =~= seq![ParamModel::Text(email@)]);
        statement
    }
}

// ---------------------------------------------------------------------
// Login
// ---------------------------------------------------------------------

/// A login is granted to a form with an address, for which the store holds a
/// user, whose password the form carries.
pub open spec fn login_granted(form: LoginPayload, db_user: Option<AuthUser>) -> bool {
    &&& email_is_valid(form.email@)
    &&& db_user matches Some(user) && user.accepts(form.password@)
}

/// The token is that of the claims issued at `now` to the user for
/// `LOGIN_TTL` seconds under `token_id`, signed with the key of the service,
/// and that key opens it to those claims.
pub open spec fn login_token(
    token: Seq<char>,
    user_id: Seq<char>,
    issuer: Seq<char>,
    audience: Seq<char>,
    key: Seq<char>,
    now: i64,
    token_id: Seq<char>,
) -> bool {
    let claims = issued(user_id, LOGIN_TTL, issuer, audience, now, token_id);
    &&& token == token_text(header_bytes(), payload_bytes(claims), text_bytes(key))
    &&& opened(token, text_bytes(key)) == Some(claims)
    &&& in_order(claims)
}

/// Decides on a login from the form and from the user that the store holds
/// under the form's address, if it holds one.
///
/// A granted login returns the token of claims issued now to the user for
/// `LOGIN_TTL` seconds, signed with the key of the service. Every refusal is
/// the same `BAD_REQUEST`: the answer does not tell an unknown address from
/// a wrong password.
pub fn login(form: &LoginPayload, db_user: Option<&AuthUser>, config: &AuthConfig) -> (r: Result<
    String,
    u16,
>)
    ensures
        r is Ok <==> login_granted(
            *form,
            match db_user {
                Some(u) => Some(*u),
                None => None,
            },
        ),
        r matches Err(code) ==> code == BAD_REQUEST,
        r is Ok ==> exists|now: i64, token_id: Seq<char>|
            0 <= now < i64::MAX && token_id.len() == ID_LENGTH && #[trigger] login_token(
                r->Ok_0@,
                db_user->0.id@,
                config.issuer@,
                config.audience@,
                config.key@,
                now,
                token_id,
            ),
{
    if !form.validate() {
        return Err(BAD_REQUEST);
    }
    let user = match db_user {
        Some(user) => user,
        None => { return Err(BAD_REQUEST); },
    };
    if user.verify_password(form.password.as_str()).is_err() {
        return Err(BAD_REQUEST);
    }
    let claims = JWTClaims::new(
        user.id.clone(),
        LOGIN_TTL,
        config.issuer.clone(),
        config.audience.clone(),
    );
    let ghost model = claims@;
    let token = claims.sign(config.key.as_str());
    let ghost text = token@;
    proof {
        let (now, token_id) = choose|now: i64, token_id: Seq<char>|
            0 <= now < i64::MAX && token_id.len() == ID_LENGTH && model == #[trigger] issued(
                user.id@,
                LOGIN_TTL,
                config.issuer@,
                config.audience@,
                now,
                token_id,
            );
        assert(login_token(
            text,
            db_user->0.id@,
            config.issuer@,
            config.audience@,
            config.key@,
            now,
            token_id,
        ));
    }
    let r: Result<String, u16> = Ok(token);
    assert(r->Ok_0@ == text);
    r
}

} // verus!
