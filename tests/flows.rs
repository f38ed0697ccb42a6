use auth_gateway::context::{ConfigError, Context};
use auth_gateway::directory::{
    create_user_outcome, get_user_outcome, BackendError, CreateUserReply, CredentialRecord,
    DirectoryError, GetUserQuery, GetUserReply, Identity, CONSTRAINT_VIOLATION,
};
use auth_gateway::gateway::{
    login_begin, login_finish, register_begin, register_finish, GatewayError, LoginRequest,
    RegisterRequest,
};
use auth_gateway::hasher::{check_password, hash_password, HashingError};
use auth_gateway::token::verify;

fn ctx() -> Context {
    Context::from_settings(
        Some("admin".to_string()),
        Some("https://backend.example/v1/graphql".to_string()),
        Some("signing".to_string()),
    )
    .unwrap()
}

fn s(x: &str) -> String {
    x.to_string()
}

#[test]
fn password_checks_against_its_hash() {
    let h = hash_password("correctPW").unwrap();
    assert_eq!(h.len(), 60);
    assert!(h.starts_with("$2b$12$"));
    assert_eq!(check_password("correctPW", &h), Ok(true));
    assert_eq!(check_password("wrongPW", &h), Ok(false));
}

#[test]
fn hashing_twice_gives_different_salts() {
    let a = hash_password("samePW").unwrap();
    let b = hash_password("samePW").unwrap();
    assert_ne!(a, b);
}

#[test]
fn malformed_record_is_hashing_error() {
    assert_eq!(check_password("pw", "not a hash"), Err(HashingError));
    assert_eq!(check_password("pw", ""), Err(HashingError));
}

fn backend_error(code: Option<&str>, message: &str) -> BackendError {
    BackendError { code: code.map(|c| c.to_string()), message: s(message) }
}

#[test]
fn create_outcomes() {
    assert_eq!(create_user_outcome(None).unwrap_err(), DirectoryError::Unavailable);
    let dup = CreateUserReply {
        data: None,
        errors: Some(vec![
            backend_error(None, "first"),
            backend_error(Some(CONSTRAINT_VIOLATION), "Uniqueness violation"),
        ]),
    };
    assert_eq!(create_user_outcome(Some(dup)).unwrap_err(), DirectoryError::Conflict);
    let denied = CreateUserReply {
        data: None,
        errors: Some(vec![backend_error(Some("access-denied"), "not allowed")]),
    };
    assert_eq!(create_user_outcome(Some(denied)).unwrap_err(), DirectoryError::Inconsistent);
    let uncoded = CreateUserReply { data: None, errors: Some(vec![backend_error(None, "x")]) };
    assert_eq!(create_user_outcome(Some(uncoded)).unwrap_err(), DirectoryError::Inconsistent);
    let empty_list = CreateUserReply {
        data: Some(Identity { username: s("alice"), email: s("a@x.com") }),
        errors: Some(vec![]),
    };
    assert_eq!(create_user_outcome(Some(empty_list)).unwrap_err(), DirectoryError::Inconsistent);
    let empty = CreateUserReply { data: None, errors: None };
    assert_eq!(create_user_outcome(Some(empty)).unwrap_err(), DirectoryError::Inconsistent);
    let other = CreateUserReply {
        data: Some(Identity { username: s("bob"), email: s("b@x.com") }),
        errors: None,
    };
    let id = create_user_outcome(Some(other)).unwrap();
    assert_eq!(id.username, "bob");
    assert_eq!(id.email, "b@x.com");
    let ok = CreateUserReply {
        data: Some(Identity { username: s("alice"), email: s("a@x.com") }),
        errors: None,
    };
    let id = create_user_outcome(Some(ok)).unwrap();
    assert_eq!(id.username, "alice");
    assert_eq!(id.email, "a@x.com");
}

fn row(name: &str) -> CredentialRecord {
    CredentialRecord { username: s(name), email: s("e@x.com"), password_hash: s("h") }
}

#[test]
fn get_outcomes() {
    let q = GetUserQuery::new(s("alice"));
    assert_eq!(get_user_outcome(&q, None).unwrap_err(), DirectoryError::Unavailable);
    let errs = GetUserReply { data: Some(vec![]), errors: Some(vec![backend_error(None, "boom")]) };
    assert_eq!(get_user_outcome(&q, Some(errs)).unwrap_err(), DirectoryError::Inconsistent);
    let nodata = GetUserReply { data: None, errors: None };
    assert_eq!(get_user_outcome(&q, Some(nodata)).unwrap_err(), DirectoryError::Inconsistent);
    let none = GetUserReply { data: Some(vec![]), errors: None };
    assert!(get_user_outcome(&q, Some(none)).unwrap().is_none());
    let two = GetUserReply { data: Some(vec![row("alice"), row("alice")]), errors: None };
    assert_eq!(get_user_outcome(&q, Some(two)).unwrap_err(), DirectoryError::Inconsistent);
    let wrong = GetUserReply { data: Some(vec![row("bob")]), errors: None };
    assert_eq!(get_user_outcome(&q, Some(wrong)).unwrap_err(), DirectoryError::Inconsistent);
    let one = GetUserReply { data: Some(vec![row("alice")]), errors: None };
    let rec = get_user_outcome(&q, Some(one)).unwrap().unwrap();
    assert_eq!(rec.username, "alice");
    assert_eq!(rec.email, "e@x.com");
}

#[test]
fn register_then_login_issues_token() {
    let req = RegisterRequest { username: s("alice"), password: s("correctPW"), email: s("a@x.com") };
    let m = register_begin(&req).unwrap();
    assert_eq!(m.username, "alice");
    assert_eq!(m.email, "a@x.com");
    assert_ne!(m.password_hash, "correctPW");
    assert_eq!(m.password_hash.len(), 60);
    assert!(m.password_hash.starts_with("$2b$12$"));
    let reply = CreateUserReply {
        data: Some(Identity { username: s("alice"), email: s("a@x.com") }),
        errors: None,
    };
    let resp = register_finish(create_user_outcome(Some(reply))).unwrap();
    assert_eq!(resp.username, "alice");
    assert_eq!(resp.email, "a@x.com");

    let login = LoginRequest { username: s("alice"), password: s("correctPW") };
    let q = login_begin(&login);
    assert_eq!(q.username, "alice");
    let stored = CredentialRecord {
        username: m.username.clone(),
        email: m.email.clone(),
        password_hash: m.password_hash.clone(),
    };
    let fetched = get_user_outcome(&q, Some(GetUserReply { data: Some(vec![stored]), errors: None }));
    let out = login_finish(&ctx(), &login, fetched, 5000).unwrap();
    assert_eq!(verify(b"signing", &out.token, 5001), Ok(b"alice".to_vec()));
}

#[test]
fn login_with_wrong_password_is_refused() {
    let h = hash_password("correctPW").unwrap();
    let rec = CredentialRecord { username: s("alice"), email: s("a@x.com"), password_hash: h };
    let login = LoginRequest { username: s("alice"), password: s("wrongPW") };
    let r = login_finish(&ctx(), &login, Ok(Some(rec)), 5000);
    assert_eq!(r.unwrap_err(), GatewayError::InvalidCredentials);
}

#[test]
fn unknown_user_and_wrong_password_look_alike() {
    let login = LoginRequest { username: s("nobody"), password: s("wrongPW") };
    let unknown = login_finish(&ctx(), &login, Ok(None), 5000).unwrap_err();
    let h = hash_password("correctPW").unwrap();
    let rec = CredentialRecord { username: s("nobody"), email: s("n@x.com"), password_hash: h };
    let wrong = login_finish(&ctx(), &login, Ok(Some(rec)), 5000).unwrap_err();
    assert_eq!(unknown, wrong);
    assert_eq!(unknown.status_code(), 401);
}

#[test]
fn login_backend_failure_is_internal() {
    let login = LoginRequest { username: s("alice"), password: s("pw") };
    let r = login_finish(&ctx(), &login, Err(DirectoryError::Unavailable), 0);
    assert_eq!(r.unwrap_err(), GatewayError::Internal);
    let r = login_finish(&ctx(), &login, Err(DirectoryError::Inconsistent), 0);
    assert_eq!(r.unwrap_err(), GatewayError::Internal);
    let bad = CredentialRecord { username: s("alice"), email: s("a"), password_hash: s("junk") };
    let r = login_finish(&ctx(), &login, Ok(Some(bad)), 0);
    assert_eq!(r.unwrap_err(), GatewayError::Internal);
}

#[test]
fn register_existing_account_is_conflict() {
    let reply = CreateUserReply {
        data: None,
        errors: Some(vec![backend_error(Some("constraint-violation"), "duplicate key value")]),
    };
    let r = register_finish(create_user_outcome(Some(reply)));
    let e = r.unwrap_err();
    assert_eq!(e, GatewayError::DuplicateAccount);
    assert_eq!(e.status_code(), 409);
}

#[test]
fn register_backend_failures_are_internal() {
    assert_eq!(register_finish(Err(DirectoryError::Unavailable)).unwrap_err(), GatewayError::Internal);
    assert_eq!(register_finish(Err(DirectoryError::Inconsistent)).unwrap_err(), GatewayError::Internal);
    assert_eq!(GatewayError::Internal.status_code(), 500);
}

#[test]
fn context_requires_every_setting() {
    assert_eq!(
        Context::from_settings(None, Some(s("u")), Some(s("j"))).unwrap_err(),
        ConfigError::MissingBackendSecret
    );
    assert_eq!(
        Context::from_settings(Some(s("a")), None, Some(s("j"))).unwrap_err(),
        ConfigError::MissingBackendUrl
    );
    assert_eq!(
        Context::from_settings(Some(s("a")), Some(s("u")), None).unwrap_err(),
        ConfigError::MissingSigningSecret
    );
    let c = ctx();
    assert_eq!(c.hasura_secret, "admin");
    assert_eq!(c.jwt_secret, "signing");
}
