//! The registration and login flows.
//!
//! Each flow is split where it waits for the backend: the first step gives
//! the request to send, the caller sends it, and the second step takes what
//! the directory made of the reply and gives the response.

use crate::context::Context;
use crate::directory::{CreateUserMutation, CredentialRecord, DirectoryError, GetUserQuery, Identity};
use crate::hasher::{check_password, hash_password, is_fresh_hash_text, password_check, HashingError};
use crate::token::{
    issue, lemma_issued_token_lifetime, lemma_tampered_token_refused, token_check, token_of,
    TokenError, TOKEN_VALIDITY_SECS,
};
use crate::encoding::hex_of;
use crate::token::{claims_of, hmac_of, SEPARATOR};
use vstd::prelude::*;
use vstd::utf8::encode_utf8;

verus! {

/// A well-formed stored representation at the usual cost. Where the account
/// is unknown the password is checked against it and the result dropped, so
/// that the case takes as long as a wrong password.
pub const UNKNOWN_ACCOUNT_HASH: &'static str = "$2y$12$L6Bc/AlTQHyd9liGgGEZyOFLPHNgyxeEPfgYfBCVxJ7JIlwxyVU3u";

/// A registration request.
#[derive(Clone, Debug)]
pub struct RegisterRequest {
    pub username: String,
    pub password: String,
    pub email: String,
}

/// The answer to a successful registration: no password or hash in it.
#[derive(Clone, Debug)]
pub struct RegisterResponse {
    pub username: String,
    pub email: String,
}

/// A login request.
#[derive(Clone, Debug)]
pub struct LoginRequest {
    pub username: String,
    pub password: String,
}

/// The answer to a successful login: the session token, as ASCII bytes.
#[derive(Clone, Debug)]
pub struct LoginResponse {
    pub token: Vec<u8>,
}

/// What a client is told when a request fails.
#[derive(Clone, Copy, Debug, PartialEq, Eq, Structural)]
pub enum GatewayError {
    /// The account to register already exists.
    DuplicateAccount,
    /// Unknown username or wrong password: the two are not told apart.
    InvalidCredentials,
    /// Something failed inside the service or its backend.
    Internal,
}

impl GatewayError {
    /// The HTTP status that carries this error.
    pub fn status_code(&self) -> (r: u16)
        ensures
            *self == GatewayError::DuplicateAccount ==> r == 409,
            *self == GatewayError::InvalidCredentials ==> r == 401,
            *self == GatewayError::Internal ==> r == 500,
    {
        match self {
            GatewayError::DuplicateAccount => 409,
            GatewayError::InvalidCredentials => 401,
            GatewayError::Internal => 500,
        }
    }
}

/// The response to a registration, from what the directory made of the
/// create request.
pub open spec fn register_result(outcome: Result<Identity, DirectoryError>) -> Result<
    RegisterResponse,
    GatewayError,
> {
    match outcome {
        Ok(id) => Ok(RegisterResponse { username: id.username, email: id.email }),
        Err(DirectoryError::Conflict) => Err(GatewayError::DuplicateAccount),
        Err(_) => Err(GatewayError::Internal),
    }
}

/// The token (or the error) a login gives, from the signing secret `key`,
/// the password presented, what the directory found for the username, and
/// the time.
pub open spec fn login_result(
    key: Seq<u8>,
    password: Seq<char>,
    fetched: Result<Option<CredentialRecord>, DirectoryError>,
    now: u64,
) -> Result<Seq<u8>, GatewayError> {
    match fetched {
        Err(_) => Err(GatewayError::Internal),
        Ok(None) => Err(GatewayError::InvalidCredentials),
        Ok(Some(rec)) => match password_check(password, rec.password_hash@) {
            Err(_) => Err(GatewayError::Internal),
            Ok(false) => Err(GatewayError::InvalidCredentials),
            Ok(true) => Ok(token_of(key, encode_utf8(rec.username@), now)),
        },
    }
}

/// First step of registration: hashes the password and gives the create
/// request. The request carries the username and email as given and a
/// representation that the password checks against.
pub fn register_begin(req: &RegisterRequest) -> (r: Result<CreateUserMutation, GatewayError>)
    ensures
        r matches Ok(m) ==> m.username@ == req.username@ && m.email@ == req.email@
            && password_check(req.password@, m.password_hash@) == Ok::<bool, HashingError>(true)
            && is_fresh_hash_text(m.password_hash@),
        r matches Err(e) ==> e == GatewayError::Internal,
{
    match hash_password(req.password.as_str()) {
        Ok(h) => Ok(CreateUserMutation::new(req.username.clone(), req.email.clone(), h)),
        Err(_) => Err(GatewayError::Internal),
    }
}

/// Second step of registration: the response, from what the directory made
/// of the create request.
pub fn register_finish(outcome: Result<Identity, DirectoryError>) -> (r: Result<
    RegisterResponse,
    GatewayError,
>)
    ensures
        r == register_result(outcome),
{
    match outcome {
        Ok(id) => Ok(RegisterResponse { username: id.username, email: id.email }),
        Err(DirectoryError::Conflict) => Err(GatewayError::DuplicateAccount),
        Err(_) => Err(GatewayError::Internal),
    }
}

/// First step of login: the request for the claimed account.
pub fn login_begin(req: &LoginRequest) -> (r: GetUserQuery)
    ensures
        r.username@ == req.username@,
{
    GetUserQuery::new(req.username.clone())
}

/// Second step of login: checks the password against what the directory
/// found and, where it matches, issues a token for the account at `now`.
pub fn login_finish(
    ctx: &Context,
    req: &LoginRequest,
    fetched: Result<Option<CredentialRecord>, DirectoryError>,
    now: u64,
) -> (r: Result<LoginResponse, GatewayError>)
    requires
        now + TOKEN_VALIDITY_SECS <= u64::MAX,
    ensures
        r matches Ok(resp) ==> login_result(encode_utf8(ctx.jwt_secret@), req.password@, fetched, now)
            == Ok::<Seq<u8>, GatewayError>(resp.token@),
        r matches Err(e) ==> login_result(encode_utf8(ctx.jwt_secret@), req.password@, fetched, now)
            == Err::<Seq<u8>, GatewayError>(e),
{
    match fetched {
        Err(_) => Err(GatewayError::Internal),
        Ok(None) => {
            let _ = check_password(req.password.as_str(), UNKNOWN_ACCOUNT_HASH);
            Err(GatewayError::InvalidCredentials)
        },
        Ok(Some(rec)) => match check_password(req.password.as_str(), rec.password_hash.as_str()) {
            Err(_) => Err(GatewayError::Internal),
            Ok(false) => Err(GatewayError::InvalidCredentials),
            Ok(true) => {
                let token = issue(
                    ctx.jwt_secret.as_str().as_bytes(),
                    rec.username.as_str().as_bytes(),
                    now,
                );
                Ok(LoginResponse { token })
            },
        },
    }
}

/// A login for an unknown username and one with a wrong password for a known
/// account end in the same error.
pub proof fn lemma_login_failures_alike(
    key: Seq<u8>,
    password: Seq<char>,
    rec: CredentialRecord,
    now: u64,
)
    requires
        password_check(password, rec.password_hash@) == Ok::<bool, HashingError>(false),
    ensures
        login_result(key, password, Ok(None), now) == login_result(
            key,
            password,
            Ok(Some(rec)),
            now,
        ),
        login_result(key, password, Ok(None), now) == Err::<Seq<u8>, GatewayError>(
            GatewayError::InvalidCredentials,
        ),
{
}

/// A password that checks against the account's stored representation logs
/// in, with the token for the account's username issued at `now`.
pub proof fn lemma_matching_password_logs_in(
    key: Seq<u8>,
    password: Seq<char>,
    rec: CredentialRecord,
    now: u64,
)
    requires
        password_check(password, rec.password_hash@) == Ok::<bool, HashingError>(true),
    ensures
        login_result(key, password, Ok(Some(rec)), now) == Ok::<Seq<u8>, GatewayError>(
            token_of(key, encode_utf8(rec.username@), now),
        ),
{
}

/// The token a login gives at `now` is accepted, with the account's username,
/// at every time before `now + TOKEN_VALIDITY_SECS`, and refused as expired
/// from then on.
pub proof fn lemma_login_token_lifetime(
    key: Seq<u8>,
    password: Seq<char>,
    rec: CredentialRecord,
    now: u64,
    elapsed: u64,
)
    requires
        login_result(key, password, Ok(Some(rec)), now) is Ok,
        now + TOKEN_VALIDITY_SECS <= u64::MAX,
        now + elapsed <= u64::MAX,
    ensures
        ({
            let t = login_result(key, password, Ok(Some(rec)), now)->Ok_0;
            &&& elapsed < TOKEN_VALIDITY_SECS ==> token_check(key, t, (now + elapsed) as u64)
                == Ok::<Seq<u8>, TokenError>(encode_utf8(rec.username@))
            &&& elapsed >= TOKEN_VALIDITY_SECS ==> token_check(key, t, (now + elapsed) as u64)
                == Err::<Seq<u8>, TokenError>(TokenError::Expired)
        }),
{
    lemma_issued_token_lifetime(key, encode_utf8(rec.username@), now, elapsed);
}

/// Changing one byte of the token a login gives makes it fail with
/// `BadSignature` at any time, unless the change falls in the claims part
/// and the altered claims carry the same HMAC tag as the original ones.
pub proof fn lemma_login_token_tamper(
    key: Seq<u8>,
    password: Seq<char>,
    rec: CredentialRecord,
    now: u64,
    later: u64,
    at: int,
    b: u8,
)
    requires
        login_result(key, password, Ok(Some(rec)), now) is Ok,
        ({
            let t = login_result(key, password, Ok(Some(rec)), now)->Ok_0;
            let p = hex_of(claims_of(encode_utf8(rec.username@), now));
            &&& 0 <= at < t.len()
            &&& b != t[at]
            &&& at < p.len() && b != SEPARATOR ==> hmac_of(key, p.update(at, b)) != hmac_of(key, p)
        }),
    ensures
        token_check(key, login_result(key, password, Ok(Some(rec)), now)->Ok_0.update(at, b), later)
            == Err::<Seq<u8>, TokenError>(TokenError::BadSignature),
{
    lemma_tampered_token_refused(key, encode_utf8(rec.username@), now, later, at, b);
}

} // verus!
