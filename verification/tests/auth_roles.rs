use prest_host::auth::{
    admit_user, authenticate_with_password, authenticated_user, google_login_step, login_step,
    password_login_result, saved_signup, session_login_failure, GoogleAction, GoogleEvent, oauth_callback_credentials,
    redirect_after_login, resolve_google_user, signup_account, AuthError, AuthForm, Credentials,
    LoginStep, Rejection, User, UserGroup,
};
use prest_host::roles::{Role, User as RoleUser};

fn user(group: UserGroup) -> User {
    User {
        id: 0x0102,
        permissions: vec!["read".into(), "write".into(), "read".into()],
        group,
        username: Some("ann".into()),
        email: None,
        password_hash: None,
    }
}

#[test]
fn new_accounts() {
    let u = User::from_email("a@b.c".into());
    assert_eq!(u.email.as_deref(), Some("a@b.c"));
    assert!(u.username.is_none() && u.password_hash.is_none() && u.permissions.is_empty());
    assert!(u.group == UserGroup::Default);
    let v = User::from_email("a@b.c".into());
    assert_ne!(u.id, v.id);
}

#[test]
fn signup_then_login_with_password() {
    let u = User::from_username_password("ann".into(), "secret".into());
    let hash = u.password_hash.clone().unwrap();
    assert_ne!(hash, "secret");
    assert!(authenticate_with_password(Some(u.clone()), "secret").is_some());
    assert!(authenticate_with_password(Some(u), "wrong").is_none());
    let e = User::from_email_password("a@b.c".into(), "pw".into());
    assert_eq!(e.email.as_deref(), Some("a@b.c"));
    assert!(authenticate_with_password(Some(e), "pw").is_some());
    assert!(authenticate_with_password(None, "pw").is_none());
    assert!(authenticate_with_password(Some(user(UserGroup::Default)), "pw").is_none());
}

#[test]
fn admin_group() {
    assert!(user(UserGroup::Admin).is_admin());
    assert!(!user(UserGroup::Default).is_admin());
    assert!(!user(UserGroup::Custom("Admin".into())).is_admin());
    assert!(UserGroup::Custom("x".into()) == UserGroup::Custom("x".into()));
    assert!(UserGroup::Custom("x".into()) != UserGroup::Custom("y".into()));
    assert!(UserGroup::Admin != UserGroup::Default);
}

#[test]
fn session_hash_prefers_password_then_email_then_username_then_id() {
    let mut u = user(UserGroup::Default);
    u.password_hash = Some("h".into());
    u.email = Some("e".into());
    assert_eq!(u.session_auth_hash(), b"h".to_vec());
    u.password_hash = None;
    assert_eq!(u.session_auth_hash(), b"e".to_vec());
    u.email = None;
    assert_eq!(u.session_auth_hash(), b"ann".to_vec());
    u.username = None;
    assert_eq!(u.session_auth_hash(), 0x0102u128.to_be_bytes().to_vec());
    assert_eq!(u.id(), 0x0102);
}

#[test]
fn permissions() {
    let u = user(UserGroup::Default);
    assert!(u.has_perm("write"));
    assert!(!u.has_perm("admin"));
    let all = u.get_all_permissions();
    assert_eq!(all, vec!["read".to_string(), "write".to_string()]);
}

#[test]
fn auth_error_messages() {
    assert_eq!(AuthError::UserNotFound("x".into()).message(), "User not found: x");
    assert_eq!(AuthError::DbError("y".into()).message(), "Failed to load: y");
}

fn form(username: Option<&str>, email: Option<&str>, signup: bool) -> AuthForm {
    AuthForm {
        username: username.map(Into::into),
        email: email.map(Into::into),
        password: "pw".into(),
        signup,
        next: None,
    }
}

#[test]
fn login_form_steps() {
    assert!(matches!(login_step(form(None, None, true)), LoginStep::BadRequest));
    assert!(matches!(login_step(form(Some("u"), Some("e"), true)), LoginStep::SignupWithUsername { .. }));
    assert!(matches!(login_step(form(None, Some("e"), true)), LoginStep::SignupWithEmail { .. }));
    assert!(matches!(login_step(form(Some("u"), None, false)), LoginStep::Authenticate(Credentials::UsernamePassword { .. })));
    assert!(matches!(login_step(form(None, Some("e"), false)), LoginStep::Authenticate(Credentials::EmailPassword { .. })));
}

#[test]
fn signup_conflicts_and_creates() {
    let step = login_step(form(Some("u"), None, true));
    assert!(matches!(signup_account(step.clone(), true), Err(409)));
    let u = signup_account(step, false).ok().unwrap();
    assert_eq!(u.username.as_deref(), Some("u"));
    assert!(authenticate_with_password(Some(u), "pw").is_some());
    assert!(matches!(signup_account(LoginStep::BadRequest, false), Err(400)));
    assert_eq!(redirect_after_login(None), "/");
    assert_eq!(redirect_after_login(Some("/x".into())), "/x");
}

#[test]
fn google_users() {
    let existing = user(UserGroup::Admin);
    let (u, save) = resolve_google_user(Some(existing.clone()), "a@b.c".into());
    assert!(!save);
    assert_eq!(u.id, existing.id);
    let (u, save) = resolve_google_user(None, "a@b.c".into());
    assert!(save);
    assert_eq!(u.email.as_deref(), Some("a@b.c"));
}

#[test]
fn oauth_callback_checks_csrf() {
    let c = oauth_callback_credentials(Some("s".into()), Some("n".into()), "s", "code".into());
    assert!(matches!(c, Some(Credentials::GoogleOpenID { ref code, ref nonce }) if code == "code" && nonce == "n"));
    assert!(oauth_callback_credentials(Some("s".into()), Some("n".into()), "t", "c".into()).is_none());
    assert!(oauth_callback_credentials(None, Some("n".into()), "s", "c".into()).is_none());
    assert!(oauth_callback_credentials(Some("s".into()), None, "s", "c".into()).is_none());
}

#[test]
fn request_admission() {
    assert!(matches!(admit_user(false, Some(user(UserGroup::Admin)), "/"), Err(Rejection::MissingAuthSession)));
    assert!(matches!(admit_user(true, None, "/"), Err(Rejection::Unauthorized)));
    assert!(matches!(admit_user(true, Some(user(UserGroup::Default)), "/admin/db"), Err(Rejection::Unauthorized)));
    assert!(admit_user(true, Some(user(UserGroup::Default)), "/admin").is_ok());
    assert!(admit_user(true, Some(user(UserGroup::Admin)), "/admin/db").is_ok());
}

#[test]
fn roles_round_trip() {
    assert_eq!(Role::from("admin".to_string()), Role::Admin);
    assert_eq!(Role::from("Admin".to_string()), Role::Admin);
    assert_eq!(Role::from("ADMIN".to_string()), Role::Default);
    assert_eq!(Role::default(), Role::Default);
    for r in [Role::Admin, Role::Default] {
        assert_eq!(Role::from(r.name()), r);
    }
    assert!(Role::Default < Role::Admin);
    let u = RoleUser { id: 3, email: "e".into(), password_hash: "h".into(), role: Role::Admin };
    assert_eq!(u.get_id(), 3);
    assert_eq!(u.get_password_hash(), b"h".to_vec());
    assert_eq!(u.get_role(), Some(Role::Admin));
}

#[test]
fn password_login_reports_load_errors() {
    match password_login_result(Err("disk".to_string()), "pw") {
        Err(AuthError::DbError(m)) => assert_eq!(m, "User load error: disk"),
        _ => panic!("expected a load error"),
    }
    assert!(matches!(password_login_result(Ok(None), "pw"), Ok(None)));
    let u = User::from_username_password("ann".into(), "secret".into());
    assert!(matches!(password_login_result(Ok(Some(u.clone())), "secret"), Ok(Some(_))));
    assert!(matches!(password_login_result(Ok(Some(u)), "wrong"), Ok(None)));
}

#[test]
fn google_login_steps() {
    assert!(matches!(google_login_step(GoogleEvent::Start { enabled: false }), GoogleAction::Finish(Ok(None))));
    assert!(matches!(google_login_step(GoogleEvent::Start { enabled: true }), GoogleAction::FetchEmail));
    assert!(matches!(google_login_step(GoogleEvent::EmailFetched(None)), GoogleAction::Finish(Ok(None))));
    match google_login_step(GoogleEvent::EmailFetched(Some("a@b.c".into()))) {
        GoogleAction::LoadUser(e) => assert_eq!(e, "a@b.c"),
        _ => panic!("expected a lookup"),
    }
    match google_login_step(GoogleEvent::UserLoaded { email: "a@b.c".into(), loaded: Err("x".into()) }) {
        GoogleAction::Finish(Err(AuthError::DbError(m))) => assert_eq!(m, "User load error: x"),
        _ => panic!("expected a load error"),
    }
    match google_login_step(GoogleEvent::UserLoaded { email: "a@b.c".into(), loaded: Ok(None) }) {
        GoogleAction::SaveUser(u) => {
            assert_eq!(u.email.as_deref(), Some("a@b.c"));
            assert!(u.password_hash.is_none());
        }
        _ => panic!("expected a save"),
    }
    let stored = user(UserGroup::Admin);
    match google_login_step(GoogleEvent::UserLoaded { email: "a@b.c".into(), loaded: Ok(Some(stored)) }) {
        GoogleAction::Finish(Ok(Some(u))) => assert!(u.is_admin()),
        _ => panic!("expected the stored user"),
    }
    let fresh = User::from_email("n@b.c".into());
    match google_login_step(GoogleEvent::UserSaved { user: fresh.clone(), saved: Err("full".into()) }) {
        GoogleAction::Finish(Err(AuthError::UserNotFound(m))) => assert_eq!(m, "full"),
        _ => panic!("expected a save error"),
    }
    assert!(matches!(google_login_step(GoogleEvent::UserSaved { user: fresh, saved: Ok(()) }), GoogleAction::Finish(Ok(Some(_)))));
}

#[test]
fn login_statuses() {
    assert!(matches!(authenticated_user(Ok(None)), Err(401)));
    assert!(matches!(authenticated_user(Err(AuthError::DbError("x".into()))), Err(401)));
    assert!(matches!(authenticated_user(Ok(Some(user(UserGroup::Default)))), Ok(_)));
    assert!(matches!(saved_signup(user(UserGroup::Default), false), Err(500)));
    assert!(matches!(saved_signup(user(UserGroup::Default), true), Ok(_)));
    assert_eq!(session_login_failure(true), 500);
    assert_eq!(session_login_failure(false), 401);
}

#[test]
fn taken_signup_is_a_conflict_before_hashing() {
    let step = LoginStep::SignupWithEmail { email: "a@b.c".into(), password: "pw".into() };
    assert!(matches!(signup_account(step, true), Err(409)));
}
