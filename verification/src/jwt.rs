//! Claims: who is asking, for how long, and the signed token that says so.
//!
//! A token is three segments joined by dots: a header, a payload and a
//! signature, each in URL-safe base 64 without padding. The header and the
//! payload are JSON objects; the signature is the HMAC-SHA256 tag of the
//! first two segments and the dot between them. Times are whole seconds
//! since the start of 1970 in UTC.

use vstd::prelude::*;
use vstd::utf8::encode_utf8;
use hmac::{Hmac, KeyInit, Mac};
use sha2::Sha256;
use crate::base64url::{
    decode, decoded, encode, encoded, law_decode_inverts_encode, law_encode_inverts_decode,
    lemma_encoded_in_alphabet,
};
use crate::fresh::{generate_id, now_seconds, ID_LENGTH};
use crate::text::{
    lemma_pieces_joined, lemma_pieces_single, pieces, same_text, split_text, texts,
};

verus! {

/// The seconds by which `not_before` precedes `issued_at`, so that a verifier
/// whose clock runs a little behind the issuer's accepts a fresh token.
pub const SKEW_ALLOWANCE: i64 = 1;

/// The identity that a token carries and the window in which it holds.
#[derive(Debug)]
pub struct JWTClaims {
    /// Whom the token speaks of.
    pub subject: String,
    /// The last second at which the token holds.
    pub expiration: i64,
    /// When the token was issued.
    pub issued_at: i64,
    /// Who issued the token.
    pub issuer: String,
    /// Whom the token is meant for.
    pub audience: String,
    /// The first second at which the token holds.
    pub not_before_time: i64,
    /// The identifier of this issuance.
    pub jwt_token_id: String,
}

/// The model of [`JWTClaims`].
pub struct ClaimsModel {
    pub subject: Seq<char>,
    pub expiration: i64,
    pub issued_at: i64,
    pub issuer: Seq<char>,
    pub audience: Seq<char>,
    pub not_before: i64,
    pub token_id: Seq<char>,
}

impl View for JWTClaims {
    type V = ClaimsModel;

    open spec fn view(&self) -> ClaimsModel {
        ClaimsModel {
            subject: self.subject@,
            expiration: self.expiration,
            issued_at: self.issued_at,
            issuer: self.issuer@,
            audience: self.audience@,
            not_before: self.not_before_time,
            token_id: self.jwt_token_id@,
        }
    }
}

/// Why a token was not accepted.
#[derive(Clone, Copy, Debug, PartialEq, Eq, Structural)]
pub enum ClaimsError {
    /// The token is not one that the key signed.
    SignatureInvalid,
    /// The token's last second has passed.
    Expired,
    /// The token's first second has not come.
    NotYetValid,
    /// The token is meant for someone else.
    AudienceMismatch,
    /// The token was issued by someone else.
    IssuerMismatch,
}

impl ClaimsError {
    /// The text of the error.
    pub fn message(&self) -> (text: String)
        ensures
            text@ == match self {
                ClaimsError::SignatureInvalid => "Token signature mismatch"@,
                ClaimsError::Expired => "Token expired"@,
                ClaimsError::NotYetValid => "Token not yet valid"@,
                ClaimsError::AudienceMismatch => "Token audience mismatch"@,
                ClaimsError::IssuerMismatch => "Token issuer mismatch"@,
            },
    {
        match self {
            ClaimsError::SignatureInvalid => "Token signature mismatch".to_owned(),
            ClaimsError::Expired => "Token expired".to_owned(),
            ClaimsError::NotYetValid => "Token not yet valid".to_owned(),
            ClaimsError::AudienceMismatch => "Token audience mismatch".to_owned(),
            ClaimsError::IssuerMismatch => "Token issuer mismatch".to_owned(),
        }
    }
}

// ---------------------------------------------------------------------
// The outside primitives
// ---------------------------------------------------------------------

/// The HMAC-SHA256 tag of `message` under `key`, as the crates `hmac` and
/// `sha2` compute it.
pub uninterp spec fn hmac_sha256_tag(key: Seq<u8>, message: Seq<u8>) -> Seq<u8>;

/// The bytes that `serde_json::to_vec` writes for the object whose members
/// are the texts under `text_names` and the integers under `integer_names`.
pub uninterp spec fn json_object_bytes(
    text_names: Seq<Seq<char>>,
    text_values: Seq<Seq<char>>,
    integer_names: Seq<Seq<char>>,
    integer_values: Seq<i64>,
) -> Seq<u8>;

/// The string that `serde_json` finds under `name` in the document
/// `document`: none where the bytes are no JSON document, the document has
/// no such member, or the member is no string.
pub uninterp spec fn json_text_member(document: Seq<u8>, name: Seq<char>) -> Option<Seq<char>>;

/// The integer that `serde_json` finds under `name` in the document
/// `document`: none where the bytes are no JSON document, the document has
/// no such member, or the member is no number that 64 signed bits hold.
pub uninterp spec fn json_integer_member(document: Seq<u8>, name: Seq<char>) -> Option<i64>;

/// Calls `Hmac::<Sha256>::new_from_slice` with the key, `Mac::chain_update`
/// with the message and `Mac::finalize`, and hands out the bytes of the tag.
/// `new_from_slice` accepts a key of any length.
#[verifier::external_body]
fn hmac_sha256(key: &[u8], message: &[u8]) -> (tag: Vec<u8>)
    ensures
        tag@ == hmac_sha256_tag(key@, message@),
{
    Hmac::<Sha256>::new_from_slice(key)
        .map(|mac| mac.chain_update(message).finalize().into_bytes().to_vec())
        .unwrap_or_default()
}

/// Calls `Mac::verify_slice` on the HMAC-SHA256 of the message under the key:
/// it compares the whole tag with `tag` in constant time, and refuses one of
/// another length.
#[verifier::external_body]
fn hmac_sha256_matches(key: &[u8], message: &[u8], tag: &[u8]) -> (same: bool)
    ensures
        same == (hmac_sha256_tag(key@, message@) == tag@),
{
    Hmac::<Sha256>::new_from_slice(key)
        .map(|mac| mac.chain_update(message).verify_slice(tag).is_ok())
        .unwrap_or_default()
}

/// Every name has one value, and no name occurs twice.
pub open spec fn one_value_each(
    text_names: Seq<Seq<char>>,
    text_values: Seq<Seq<char>>,
    integer_names: Seq<Seq<char>>,
    integer_values: Seq<i64>,
) -> bool {
    &&& text_names.len() == text_values.len()
    &&& integer_names.len() == integer_values.len()
    &&& (text_names + integer_names).no_duplicates()
}

/// Each text and each integer is found in the document under its name.
pub open spec fn members_read_back(
    document: Seq<u8>,
    text_names: Seq<Seq<char>>,
    text_values: Seq<Seq<char>>,
    integer_names: Seq<Seq<char>>,
    integer_values: Seq<i64>,
) -> bool {
    &&& forall|i: int|
        0 <= i < text_names.len() ==> json_text_member(document, #[trigger] text_names[i]) == Some(
            text_values[i],
        )
    &&& forall|i: int|
        0 <= i < integer_names.len() ==> json_integer_member(document, #[trigger] integer_names[i])
            == Some(integer_values[i])
}

/// Fills a `serde_json::Map` with the texts and then the integers, each under
/// its name, and calls `serde_json::to_vec` on it. The contract gives the
/// bytes their name, and claims of them what a writer and a reader of one
/// format owe each other: where no name occurs twice, the reader finds every
/// string and every integer that was written, under its name and as it was.
#[verifier::external_body]
fn object_bytes(
    text_names: &Vec<String>,
    text_values: &Vec<String>,
    integer_names: &Vec<String>,
    integer_values: &Vec<i64>,
) -> (out: Vec<u8>)
    ensures
        out@ == json_object_bytes(
            texts(text_names@),
            texts(text_values@),
            texts(integer_names@),
            integer_values@,
        ),
        one_value_each(
            texts(text_names@),
            texts(text_values@),
            texts(integer_names@),
            integer_values@,
        ) ==> members_read_back(
            out@,
            texts(text_names@),
            texts(text_values@),
            texts(integer_names@),
            integer_values@,
        ),
{
    let mut doc = serde_json::Map::new();
    doc.extend(
        text_names.iter().cloned().zip(text_values.iter().cloned().map(serde_json::Value::String)),
    );
    doc.extend(
        integer_names.iter().cloned().zip(integer_values.iter().map(|i| serde_json::Value::from(*i))),
    );
    serde_json::to_vec(&doc).unwrap_or_default()
}

/// Calls `serde_json::from_slice` for a `Value`, `Value::get` with the name
/// and `Value::as_str` on what is found.
#[verifier::external_body]
fn text_member(document: &[u8], name: &str) -> (found: Option<String>)
    ensures
        crate::text::opt_text(found) == json_text_member(document@, name@),
{
    serde_json::from_slice::<serde_json::Value>(document).ok().and_then(
        |doc| doc.get(name).and_then(|member| member.as_str()).map(|s| s.to_owned()),
    )
}

/// Calls `serde_json::from_slice` for a `Value`, `Value::get` with the name
/// and `Value::as_i64` on what is found.
#[verifier::external_body]
fn integer_member(document: &[u8], name: &str) -> (found: Option<i64>)
    ensures
        found == json_integer_member(document@, name@),
{
    serde_json::from_slice::<serde_json::Value>(document).ok().and_then(
        |doc| doc.get(name).and_then(|member| member.as_i64()),
    )
}

// ---------------------------------------------------------------------
// Issuing
// ---------------------------------------------------------------------

/// `a + b`, held to what 64 signed bits hold.
pub open spec fn clamped_sum(a: int, b: int) -> i64 {
    if a + b > i64::MAX {
        i64::MAX
    } else if a + b < i64::MIN {
        i64::MIN
    } else {
        (a + b) as i64
    }
}

/// The claims issued at `now` for `ttl` seconds.
pub open spec fn issued(
    subject: Seq<char>,
    ttl: i64,
    issuer: Seq<char>,
    audience: Seq<char>,
    now: i64,
    token_id: Seq<char>,
) -> ClaimsModel {
    ClaimsModel {
        subject,
        expiration: clamped_sum(now as int, ttl as int),
        issued_at: now,
        issuer,
        audience,
        not_before: clamped_sum(now as int, -SKEW_ALLOWANCE),
        token_id,
    }
}

/// The window of a claims set is in order.
pub open spec fn in_order(c: ClaimsModel) -> bool {
    c.not_before <= c.issued_at && c.issued_at < c.expiration
}

fn saturating_sum(a: i64, b: i64) -> (r: i64)
    ensures
        r == clamped_sum(a as int, b as int),
{
    if b > 0 && a > i64::MAX - b {
        i64::MAX
    } else if b < 0 && a < i64::MIN - b {
        i64::MIN
    } else {
        a + b
    }
}

impl JWTClaims {
    /// Issues claims at a given moment under a given identifier.
    pub fn issue_at(
        subject: String,
        ttl: i64,
        issuer: String,
        audience: String,
        now: i64,
        token_id: String,
    ) -> (claims: JWTClaims)
        ensures
            claims@ == issued(subject@, ttl, issuer@, audience@, now, token_id@),
            ttl > 0 && now < i64::MAX ==> in_order(claims@),
    {
        JWTClaims {
            subject,
            expiration: saturating_sum(now, ttl),
            issued_at: now,
            issuer,
            audience,
            not_before_time: saturating_sum(now, -SKEW_ALLOWANCE),
            jwt_token_id: token_id,
        }
    }

    /// Issues claims now, for `exp_duration` seconds, under a fresh
    /// identifier.
    pub fn new(subject: String, exp_duration: i64, issuer: String, audience: String) -> (claims:
        JWTClaims)
        ensures
            exists|now: i64, token_id: Seq<char>|
                0 <= now < i64::MAX && token_id.len() == ID_LENGTH && claims@ == #[trigger] issued(
                    subject@,
                    exp_duration,
                    issuer@,
                    audience@,
                    now,
                    token_id,
                ),
            exp_duration > 0 ==> in_order(claims@),
    {
        let now = now_seconds();
        let token_id = generate_id();
        let ghost id = token_id@;
        let claims = JWTClaims::issue_at(subject, exp_duration, issuer, audience, now, token_id);
        assert(claims@ == issued(subject@, exp_duration, issuer@, audience@, now, id));
        claims
    }
}

// ---------------------------------------------------------------------
// Signing
// ---------------------------------------------------------------------

/// The bytes of a text in UTF-8.
pub open spec fn text_bytes(s: Seq<char>) -> Seq<u8> {
    encode_utf8(s)
}

/// The header of every token: the algorithm and the type.
pub open spec fn header_bytes() -> Seq<u8> {
    json_object_bytes(
        seq!["alg"@, "typ"@],
        seq!["HS256"@, "JWT"@],
        Seq::<Seq<char>>::empty(),
        Seq::<i64>::empty(),
    )
}

/// The payload of a token: the claims under their registered names.
pub open spec fn payload_bytes(c: ClaimsModel) -> Seq<u8> {
    json_object_bytes(
        seq!["sub"@, "iss"@, "aud"@, "jti"@],
        seq![c.subject, c.issuer, c.audience, c.token_id],
        seq!["exp"@, "iat"@, "nbf"@],
        seq![c.expiration, c.issued_at, c.not_before],
    )
}

/// What the signature is the tag of: the first two segments and the dot
/// between them.
pub open spec fn signing_input(header: Seq<u8>, payload: Seq<u8>) -> Seq<char> {
    encoded(header) + seq!['.'] + encoded(payload)
}

/// The token for a header and a payload under a key.
pub open spec fn token_text(header: Seq<u8>, payload: Seq<u8>, key: Seq<u8>) -> Seq<char> {
    signing_input(header, payload) + seq!['.'] + encoded(
        hmac_sha256_tag(key, text_bytes(signing_input(header, payload))),
    )
}

fn names2(a: &str, b: &str) -> (v: Vec<String>)
    ensures
        texts(v@) == seq![a@, b@],
{
    let mut v: Vec<String> = Vec::new();
    v.push(a.to_owned());
    v.push(b.to_owned());
    assert(texts(v@) =~= seq![a@, b@]);
    v
}

fn names3(a: &str, b: &str, c: &str) -> (v: Vec<String>)
    ensures
        texts(v@) == seq![a@, b@, c@],
{
    let mut v: Vec<String> = Vec::new();
    v.push(a.to_owned());
    v.push(b.to_owned());
    v.push(c.to_owned());
    assert(texts(v@) =~= seq![a@, b@, c@]);
    v
}

fn names4(a: &str, b: &str, c: &str, d: &str) -> (v: Vec<String>)
    ensures
        texts(v@) == seq![a@, b@, c@, d@],
{
    let mut v: Vec<String> = Vec::new();
    v.push(a.to_owned());
    v.push(b.to_owned());
    v.push(c.to_owned());
    v.push(d.to_owned());
    assert(texts(v@) =~= seq![a@, b@, c@, d@]);
    v
}

/// Writes the token for a header and a payload under a key.
pub fn sign_payload(header: &[u8], payload: &[u8], key: &[u8]) -> (token: String)
    ensures
        token@ == token_text(header@, payload@, key@),
{
    let mut token = encode(header);
    crate::text::push_char(&mut token, '.');
    let body = encode(payload);
    token.append(body.as_str());
    assert(token@ =~= signing_input(header@, payload@));
    let tag = hmac_sha256(key, token.as_str().as_bytes());
    let signature = encode(tag.as_slice());
    crate::text::push_char(&mut token, '.');
    token.append(signature.as_str());
    assert(token@ =~= token_text(header@, payload@, key@));
    token
}

/// The names of the claims differ from one another, and so do the names of
/// the header.
pub proof fn lemma_names_differ()
    ensures
        (seq!["sub"@, "iss"@, "aud"@, "jti"@] + seq!["exp"@, "iat"@, "nbf"@]).no_duplicates(),
        (seq!["alg"@, "typ"@] + Seq::<Seq<char>>::empty()).no_duplicates(),
{
    reveal_strlit("sub");
    reveal_strlit("iss");
    reveal_strlit("aud");
    reveal_strlit("jti");
    reveal_strlit("exp");
    reveal_strlit("iat");
    reveal_strlit("nbf");
    reveal_strlit("alg");
    reveal_strlit("typ");
    let claims = seq!["sub"@, "iss"@, "aud"@, "jti"@] + seq!["exp"@, "iat"@, "nbf"@];
    assert(claims[0] == "sub"@ && claims[1] == "iss"@ && claims[2] == "aud"@ && claims[3] == "jti"@
        && claims[4] == "exp"@ && claims[5] == "iat"@ && claims[6] == "nbf"@);
    assert forall|i: int, j: int|
        0 <= i < claims.len() && 0 <= j < claims.len() && i != j implies claims[i] != claims[j] by {
        if claims[i] == claims[j] {
            assert(claims[i][0] == claims[j][0]);
            assert(claims[i][1] == claims[j][1]);
        }
    }
    let header = seq!["alg"@, "typ"@] + Seq::<Seq<char>>::empty();
    assert(header[0] == "alg"@ && header[1] == "typ"@);
    assert forall|i: int, j: int|
        0 <= i < header.len() && 0 <= j < header.len() && i != j implies header[i] != header[j] by {
        if header[i] == header[j] {
            assert(header[i][0] == header[j][0]);
        }
    }
}

impl JWTClaims {
    /// Writes the payload of the claims. The claims are read back from it as
    /// they are.
    pub fn payload(&self) -> (bytes: Vec<u8>)
        ensures
            bytes@ == payload_bytes(self@),
            claims_of(bytes@) == Some(self@),
    {
        let text_names = names4("sub", "iss", "aud", "jti");
        let text_values = names4(
            self.subject.as_str(),
            self.issuer.as_str(),
            self.audience.as_str(),
            self.jwt_token_id.as_str(),
        );
        let integer_names = names3("exp", "iat", "nbf");
        let mut integer_values: Vec<i64> = Vec::new();
        integer_values.push(self.expiration);
        integer_values.push(self.issued_at);
        integer_values.push(self.not_before_time);
        assert(integer_values@ =~= seq![self.expiration, self.issued_at, self.not_before_time]);
        let bytes = object_bytes(&text_names, &text_values, &integer_names, &integer_values);
        proof {
            lemma_names_differ();
            let names = texts(text_names@);
            let numbers = texts(integer_names@);
            assert(names[0] == "sub"@ && names[1] == "iss"@ && names[2] == "aud"@ && names[3]
                == "jti"@);
            assert(numbers[0] == "exp"@ && numbers[1] == "iat"@ && numbers[2] == "nbf"@);
            assert(json_text_member(bytes@, names[0]) == Some(self.subject@));
            assert(json_text_member(bytes@, names[1]) == Some(self.issuer@));
            assert(json_text_member(bytes@, names[2]) == Some(self.audience@));
            assert(json_text_member(bytes@, names[3]) == Some(self.jwt_token_id@));
            assert(json_integer_member(bytes@, numbers[0]) == Some(self.expiration));
            assert(json_integer_member(bytes@, numbers[1]) == Some(self.issued_at));
            assert(json_integer_member(bytes@, numbers[2]) == Some(self.not_before_time));
        }
        bytes
    }

    /// Signs the claims with the key and returns the token. The token is
    /// opened by the same key, and to the claims that were signed.
    pub fn sign(self, key: &str) -> (token: String)
        ensures
            token@ == token_text(header_bytes(), payload_bytes(self@), text_bytes(key@)),
            opened(token@, text_bytes(key@)) == Some(self@),
    {
        let names = names2("alg", "typ");
        let values = names2("HS256", "JWT");
        let header = object_bytes(&names, &values, &Vec::new(), &Vec::new());
        proof {
            lemma_names_differ();
            assert(texts(Seq::<String>::empty()) =~= Seq::<Seq<char>>::empty());
            assert(texts(names@)[0] == "alg"@);
            assert(json_text_member(header@, texts(names@)[0]) == Some("HS256"@));
        }
        let payload = self.payload();
        proof {
            law_signed_token_opens(header@, payload@, text_bytes(key@));
        }
        sign_payload(header.as_slice(), payload.as_slice(), key.as_bytes())
    }
}

// ---------------------------------------------------------------------
// Verifying
// ---------------------------------------------------------------------

/// The claims that a payload holds, if it holds all of them.
pub open spec fn claims_of(payload: Seq<u8>) -> Option<ClaimsModel> {
    match (
        json_text_member(payload, "sub"@),
        json_integer_member(payload, "exp"@),
        json_integer_member(payload, "iat"@),
        json_text_member(payload, "iss"@),
        json_text_member(payload, "aud"@),
        json_integer_member(payload, "nbf"@),
        json_text_member(payload, "jti"@),
    ) {
        (Some(subject), Some(expiration), Some(issued_at), Some(issuer), Some(audience), Some(
            not_before,
        ), Some(token_id)) => Some(
            ClaimsModel { subject, expiration, issued_at, issuer, audience, not_before, token_id },
        ),
        _ => None,
    }
}

/// The header names the one algorithm that this crate signs with.
pub open spec fn header_accepted(header: Seq<char>) -> bool {
    decoded(header) matches Some(bytes) && json_text_member(bytes, "alg"@) == Some("HS256"@)
}

/// The third segment is the tag of the first two under the key.
pub open spec fn signature_accepted(
    header: Seq<char>,
    payload: Seq<char>,
    signature: Seq<char>,
    key: Seq<u8>,
) -> bool {
    decoded(signature) == Some(
        hmac_sha256_tag(key, text_bytes(header + seq!['.'] + payload)),
    )
}

/// The claims of a token that the key signed: none where the token is not
/// three segments, its header names another algorithm, its signature is not
/// the tag of its first two segments, or its payload does not hold all
/// claims.
pub open spec fn opened(token: Seq<char>, key: Seq<u8>) -> Option<ClaimsModel> {
    let parts = pieces(token, '.');
    if parts.len() == 3 && header_accepted(parts[0]) && signature_accepted(
        parts[0],
        parts[1],
        parts[2],
        key,
    ) {
        match decoded(parts[1]) {
            Some(payload) => claims_of(payload),
            None => None,
        }
    } else {
        None
    }
}

/// The checks on claims at a moment, in their fixed order: the end of the
/// window, its start, the audience, the issuer.
pub open spec fn checked(
    c: ClaimsModel,
    expected_issuer: Seq<char>,
    expected_audience: Seq<char>,
    now: i64,
) -> Result<(), ClaimsError> {
    if now > c.expiration {
        Err(ClaimsError::Expired)
    } else if now < c.not_before {
        Err(ClaimsError::NotYetValid)
    } else if c.audience != expected_audience {
        Err(ClaimsError::AudienceMismatch)
    } else if c.issuer != expected_issuer {
        Err(ClaimsError::IssuerMismatch)
    } else {
        Ok(())
    }
}

/// What verification returns at a moment: the first check that fails, the
/// signature first, or the claims where none fails.
pub open spec fn verified_at(
    token: Seq<char>,
    key: Seq<u8>,
    expected_issuer: Seq<char>,
    expected_audience: Seq<char>,
    now: i64,
) -> Result<ClaimsModel, ClaimsError> {
    match opened(token, key) {
        None => Err(ClaimsError::SignatureInvalid),
        Some(c) => match checked(c, expected_issuer, expected_audience, now) {
            Ok(_) => Ok(c),
            Err(e) => Err(e),
        },
    }
}

/// The model of a result of verification.
pub open spec fn verdict_model(r: Result<JWTClaims, ClaimsError>) -> Result<
    ClaimsModel,
    ClaimsError,
> {
    match r {
        Ok(c) => Ok(c@),
        Err(e) => Err(e),
    }
}

/// Reads the claims out of a payload.
pub fn read_claims(payload: &[u8]) -> (r: Option<JWTClaims>)
    ensures
        r is Some <==> claims_of(payload@) is Some,
        r matches Some(c) ==> c@ == claims_of(payload@)->0,
{
    let subject = match text_member(payload, "sub") {
        Some(v) => v,
        None => { return None; },
    };
    let expiration = match integer_member(payload, "exp") {
        Some(v) => v,
        None => { return None; },
    };
    let issued_at = match integer_member(payload, "iat") {
        Some(v) => v,
        None => { return None; },
    };
    let issuer = match text_member(payload, "iss") {
        Some(v) => v,
        None => { return None; },
    };
    let audience = match text_member(payload, "aud") {
        Some(v) => v,
        None => { return None; },
    };
    let not_before_time = match integer_member(payload, "nbf") {
        Some(v) => v,
        None => { return None; },
    };
    let jwt_token_id = match text_member(payload, "jti") {
        Some(v) => v,
        None => { return None; },
    };
    Some(
        JWTClaims {
            subject,
            expiration,
            issued_at,
            issuer,
            audience,
            not_before_time,
            jwt_token_id,
        },
    )
}

/// Opens a token: checks its shape, its header and its signature, and reads
/// its claims.
pub fn open_token(token: &str, key: &[u8]) -> (r: Option<JWTClaims>)
    ensures
        r is Some <==> opened(token@, key@) is Some,
        r matches Some(c) ==> c@ == opened(token@, key@)->0,
{
    let parts = split_text(token, '.');
    if parts.len() != 3 {
        return None;
    }
    let ghost shown = pieces(token@, '.');
    assert(shown[0] == parts@[0]@ && shown[1] == parts@[1]@ && shown[2] == parts@[2]@);
    let header = match decode(parts[0].as_str()) {
        Some(bytes) => bytes,
        None => { return None; },
    };
    let named = match text_member(header.as_slice(), "alg") {
        Some(name) => name,
        None => { return None; },
    };
    if !same_text(named.as_str(), "HS256") {
        return None;
    }
    let signature = match decode(parts[2].as_str()) {
        Some(bytes) => bytes,
        None => { return None; },
    };
    let mut input = parts[0].clone();
    crate::text::push_char(&mut input, '.');
    input.append(parts[1].as_str());
    assert(input@ =~= shown[0] + seq!['.'] + shown[1]);
    if !hmac_sha256_matches(key, input.as_str().as_bytes(), signature.as_slice()) {
        return None;
    }
    let payload = match decode(parts[1].as_str()) {
        Some(bytes) => bytes,
        None => { return None; },
    };
    read_claims(payload.as_slice())
}

impl JWTClaims {
    /// Checks the claims at a moment.
    pub fn check_at(&self, expected_issuer: &str, expected_audience: &str, now: i64) -> (r: Result<
        (),
        ClaimsError,
    >)
        ensures
            r == checked(self@, expected_issuer@, expected_audience@, now),
    {
        if now > self.expiration {
            Err(ClaimsError::Expired)
        } else if now < self.not_before_time {
            Err(ClaimsError::NotYetValid)
        } else if !same_text(self.audience.as_str(), expected_audience) {
            Err(ClaimsError::AudienceMismatch)
        } else if !same_text(self.issuer.as_str(), expected_issuer) {
            Err(ClaimsError::IssuerMismatch)
        } else {
            Ok(())
        }
    }

    /// Verifies a token at a given moment.
    pub fn verify_at(
        token: &str,
        key: &str,
        expected_issuer: &str,
        expected_audience: &str,
        now: i64,
    ) -> (r: Result<JWTClaims, ClaimsError>)
        ensures
            verdict_model(r) == verified_at(
                token@,
                text_bytes(key@),
                expected_issuer@,
                expected_audience@,
                now,
            ),
    {
        let claims = match open_token(token, key.as_bytes()) {
            Some(c) => c,
            None => { return Err(ClaimsError::SignatureInvalid); },
        };
        match claims.check_at(expected_issuer, expected_audience, now) {
            Ok(_) => Ok(claims),
            Err(e) => Err(e),
        }
    }

    /// Verifies a token now.
    pub fn verify(token: &str, key: &str, expected_issuer: &str, expected_audience: &str) -> (r:
        Result<JWTClaims, ClaimsError>)
        ensures
            exists|now: i64|
                now >= 0 && verdict_model(r) == #[trigger] verified_at(
                    token@,
                    text_bytes(key@),
                    expected_issuer@,
                    expected_audience@,
                    now,
                ),
    {
        let now = now_seconds();
        let r = JWTClaims::verify_at(token, key, expected_issuer, expected_audience, now);
        assert(verdict_model(r) == verified_at(
            token@,
            text_bytes(key@),
            expected_issuer@,
            expected_audience@,
            now,
        ));
        r
    }
}

/// Where a token stands at a moment. A token is issued, holds from its first
/// second to its last, and is expired after that; nothing takes a token back
/// before its time.
#[derive(Clone, Copy, Debug, PartialEq, Eq, Structural)]
pub enum ClaimsState {
    /// Issued, and its first second has not come.
    NotYetValid,
    /// Inside its window.
    Valid,
    /// Its last second has passed.
    Expired,
}

/// The state of claims at a moment.
pub open spec fn state_of(c: ClaimsModel, now: i64) -> ClaimsState {
    if now > c.expiration {
        ClaimsState::Expired
    } else if now < c.not_before {
        ClaimsState::NotYetValid
    } else {
        ClaimsState::Valid
    }
}

impl JWTClaims {
    /// The state of the claims at a moment.
    pub fn state_at(&self, now: i64) -> (state: ClaimsState)
        ensures
            state == state_of(self@, now),
    {
        if now > self.expiration {
            ClaimsState::Expired
        } else if now < self.not_before_time {
            ClaimsState::NotYetValid
        } else {
            ClaimsState::Valid
        }
    }
}

/// Time only moves a token forward: once expired it stays expired, and once
/// valid it never becomes not yet valid again. The checks on the window
/// report exactly the state.
pub proof fn law_states_follow_time(c: ClaimsModel, earlier: i64, later: i64)
    requires
        earlier <= later,
    ensures
        state_of(c, earlier) == ClaimsState::Expired ==> state_of(c, later) == ClaimsState::Expired,
        state_of(c, earlier) == ClaimsState::Valid ==> state_of(c, later)
            != ClaimsState::NotYetValid,
        state_of(c, earlier) == ClaimsState::Expired <==> checked(c, c.issuer, c.audience, earlier)
            == Err::<(), ClaimsError>(ClaimsError::Expired),
        state_of(c, earlier) == ClaimsState::NotYetValid <==> checked(
            c,
            c.issuer,
            c.audience,
            earlier,
        ) == Err::<(), ClaimsError>(ClaimsError::NotYetValid),
        state_of(c, earlier) == ClaimsState::Valid <==> checked(c, c.issuer, c.audience, earlier)
            == Ok::<(), ClaimsError>(()),
{
}

/// A token is opened by the key that signed it: what `sign_payload` writes
/// under a header that names the algorithm opens to the claims of its
/// payload.
pub proof fn law_signed_token_opens(header: Seq<u8>, payload: Seq<u8>, key: Seq<u8>)
    ensures
        json_text_member(header, "alg"@) == Some("HS256"@) ==> opened(
            token_text(header, payload, key),
            key,
        ) == claims_of(payload),
{
    let tag = hmac_sha256_tag(key, text_bytes(signing_input(header, payload)));
    lemma_encoded_in_alphabet(tag);
    lemma_token_pieces(header, payload, encoded(tag));
    law_decode_inverts_encode(header);
    law_decode_inverts_encode(payload);
    law_decode_inverts_encode(tag);
}

/// A token whose signature segment is not the one that the key writes for
/// its first two segments is not opened, whatever the segment holds.
pub proof fn law_other_signature_refused(
    header: Seq<u8>,
    payload: Seq<u8>,
    key: Seq<u8>,
    signature: Seq<char>,
)
    ensures
        signature != encoded(hmac_sha256_tag(key, text_bytes(signing_input(header, payload))))
            ==> opened(signing_input(header, payload) + seq!['.'] + signature, key) is None,
{
    let input = signing_input(header, payload);
    let token = input + seq!['.'] + signature;
    lemma_pieces_joined(input, signature, '.');
    lemma_pieces_joined(encoded(header), encoded(payload), '.');
    lemma_encoded_in_alphabet(header);
    lemma_encoded_in_alphabet(payload);
    lemma_pieces_single(encoded(header), '.');
    lemma_pieces_single(encoded(payload), '.');
    lemma_pieces_single(signature, '.');
    crate::text::lemma_pieces_nonempty(signature, '.');
    let parts = pieces(token, '.');
    assert(pieces(input, '.') =~= seq![encoded(header), encoded(payload)]);
    assert(parts =~= seq![encoded(header), encoded(payload)] + pieces(signature, '.'));
    if parts.len() == 3 {
        assert(pieces(signature, '.').len() == 1);
        assert(parts[2] == signature);
        assert(parts[0] == encoded(header) && parts[1] == encoded(payload));
        assert(parts[0] + seq!['.'] + parts[1] == input);
        if decoded(signature) is Some {
            law_encode_inverts_decode(signature);
        }
    }
}

/// The pieces of a token are its three segments.
pub proof fn lemma_token_pieces(header: Seq<u8>, payload: Seq<u8>, signature: Seq<char>)
    requires
        forall|i: int| 0 <= i < signature.len() ==> signature[i] != '.',
    ensures
        pieces(signing_input(header, payload) + seq!['.'] + signature, '.') == seq![
            encoded(header),
            encoded(payload),
            signature,
        ],
{
    let input = signing_input(header, payload);
    lemma_pieces_joined(input, signature, '.');
    lemma_pieces_joined(encoded(header), encoded(payload), '.');
    lemma_encoded_in_alphabet(header);
    lemma_encoded_in_alphabet(payload);
    lemma_pieces_single(encoded(header), '.');
    lemma_pieces_single(encoded(payload), '.');
    lemma_pieces_single(signature, '.');
    assert(pieces(input, '.') =~= seq![encoded(header), encoded(payload)]);
    assert(seq![encoded(header), encoded(payload)] + seq![signature] =~= seq![
        encoded(header),
        encoded(payload),
        signature,
    ]);
}

/// Verification reports the first check that fails: a token that the key
/// did not sign is refused for that, whatever its claims say; then a passed
/// window, then one not yet begun, then the audience, then the issuer.
pub proof fn law_first_failing_check(
    token: Seq<char>,
    key: Seq<u8>,
    expected_issuer: Seq<char>,
    expected_audience: Seq<char>,
    now: i64,
)
    ensures
        opened(token, key) is None ==> verified_at(
            token,
            key,
            expected_issuer,
            expected_audience,
            now,
        ) == Err::<ClaimsModel, ClaimsError>(ClaimsError::SignatureInvalid),
        opened(token, key) matches Some(c) ==> {
            let r = verified_at(token, key, expected_issuer, expected_audience, now);
            &&& now > c.expiration ==> r == Err::<ClaimsModel, ClaimsError>(ClaimsError::Expired)
            &&& now <= c.expiration && now < c.not_before ==> r == Err::<ClaimsModel, ClaimsError>(
                ClaimsError::NotYetValid,
            )
            &&& c.not_before <= now <= c.expiration && c.audience != expected_audience ==> r
                == Err::<ClaimsModel, ClaimsError>(ClaimsError::AudienceMismatch)
            &&& c.not_before <= now <= c.expiration && c.audience == expected_audience && c.issuer
                != expected_issuer ==> r == Err::<ClaimsModel, ClaimsError>(
                ClaimsError::IssuerMismatch,
            )
            &&& c.not_before <= now <= c.expiration && c.audience == expected_audience && c.issuer
                == expected_issuer ==> r == Ok::<ClaimsModel, ClaimsError>(c)
        },
{
}

/// Claims issued for a positive time are in order, and pass the checks of
/// their own issuer and audience from the moment of issue to their last
/// second.
pub proof fn law_fresh_claims_pass(
    subject: Seq<char>,
    ttl: i64,
    issuer: Seq<char>,
    audience: Seq<char>,
    now: i64,
    token_id: Seq<char>,
    at: i64,
)
    requires
        ttl > 0,
        now < i64::MAX,
        now <= at <= clamped_sum(now as int, ttl as int),
    ensures
        in_order(issued(subject, ttl, issuer, audience, now, token_id)),
        checked(issued(subject, ttl, issuer, audience, now, token_id), issuer, audience, at) == Ok::<
            (),
            ClaimsError,
        >(()),
{
}

} // verus!
