use fckn_gay::server::auth::{
    confirm_sign_up, login, logout, request_password_reset, reset_email_sent, reset_password_finish,
    reset_password_start, sign_up_start, sign_up_step, HandlePasswordReset, Login, ResetRequestAction, Signup,
    SignupAction, SignupEvent, SignupState,
};
use fckn_gay::server::auth_cache::{
    add_authorization, add_authorization_or_unauthorized, redirect_if_unauthorized, AuthenticationCache,
    PasswordResetCache,
};
use fckn_gay::server::config::ServerAddress;
use fckn_gay::user_database::{PasswordHash, UserEntry, UserState};

fn form(username: &str, password: &str) -> Login {
    Login { username: username.to_string(), password: password.to_string() }
}

fn signup(username: &str, password: &str, token: Option<&str>) -> Signup {
    Signup {
        username: username.to_string(),
        password: password.to_string(),
        email: "new@example.com".to_string(),
        cf_turnstile_response: token.map(|t| t.to_string()),
    }
}

fn entry(id: u128, name: &str, state: UserState) -> UserEntry {
    UserEntry {
        id,
        username: name.to_string(),
        password_hash: PasswordHash::from_raw("h".to_string()),
        email: format!("{name}@example.com"),
        state,
        created_at: 0,
        last_login: None,
    }
}

#[test]
fn login_creates_a_session_until_it_expires() {
    let mut cache = AuthenticationCache::new();
    let token = login(&mut cache, form("alice", "pw"), Some(7), 1000).unwrap();
    let who = add_authorization(&mut cache, Some(&token), 1000).unwrap();
    assert_eq!(who.user_id(), 7);
    assert_eq!(who.username(), "alice");
    assert!(add_authorization(&mut cache, Some(&token), 1000 + 14400 - 1).is_some());
    assert!(add_authorization(&mut cache, Some(&token), 1000 + 14400 + 1).is_none());
}

#[test]
fn login_with_wrong_credentials_is_unauthorized() {
    let mut cache = AuthenticationCache::new();
    let e = login(&mut cache, form("alice", "bad"), None, 0).unwrap_err();
    assert_eq!(e.status, 401);
    assert_eq!(e.message, "invalid username or password");
}

#[test]
fn logout_ends_the_session() {
    let mut cache = AuthenticationCache::new();
    let token = login(&mut cache, form("alice", "pw"), Some(7), 0).unwrap();
    assert_eq!(logout(&mut cache, Some(&token)), "/");
    assert!(add_authorization(&mut cache, Some(&token), 0).is_none());
    assert_eq!(logout(&mut cache, None), "/");
}

#[test]
fn unauthenticated_requests_are_refused_or_redirected() {
    let mut cache = AuthenticationCache::new();
    let e = add_authorization_or_unauthorized(&mut cache, None, 0).unwrap_err();
    assert_eq!(e.status, 401);
    assert_eq!(e.message, "not authenticated");
    assert_eq!(redirect_if_unauthorized(&mut cache, Some("bogus"), 0).err(), Some("/"));
}

#[test]
fn signup_without_captcha_token_is_forbidden() {
    let (state, action) = sign_up_start(true, None, signup("newbie", "Passw0rd!long", None));
    assert!(matches!(state, SignupState::Done));
    match action {
        SignupAction::Reply(Err(e)) => {
            assert_eq!(e.status, 403);
            assert_eq!(e.message, "captcha token missing — are you a bot? 🤖");
        }
        _ => panic!("expected a refusal"),
    }
}

#[test]
fn signup_flow_sends_activation_mail() {
    let address = ServerAddress("localhost:3000".to_string());
    let (state, action) = sign_up_start(true, Some("1.2.3.4".to_string()), signup("newbie", "Passw0rd!long", Some("tok")));
    match &action {
        SignupAction::VerifyCaptcha { token, client_ip } => {
            assert_eq!(token, "tok");
            assert_eq!(client_ip.as_deref(), Some("1.2.3.4"));
        }
        _ => panic!("expected a captcha check"),
    }
    let (state, action) = sign_up_step(state, SignupEvent::CaptchaChecked(Ok(true)), &address);
    assert!(matches!(action, SignupAction::CheckAvailable { ref username } if username == "newbie"));
    let (state, action) = sign_up_step(state, SignupEvent::Availability(true), &address);
    assert!(matches!(action, SignupAction::AddUser { .. }));
    let (state, action) = sign_up_step(state, SignupEvent::UserAdded(Ok(1)), &address);
    match &action {
        SignupAction::SendEmail { from, to, subject, body } => {
            assert_eq!(from, "im@fckn.gay");
            assert_eq!(to, "new@example.com");
            assert_eq!(subject, "Sign up for your new account");
            assert!(body.starts_with("Hello newbie,\n"));
            assert!(body.contains("http://localhost:3000/confirm-signup?token=00000000-0000-0000-0000-000000000001\n"));
        }
        _ => panic!("expected an email"),
    }
    let (state, action) = sign_up_step(state, SignupEvent::EmailSent(Ok(())), &address);
    assert!(matches!(state, SignupState::Done));
    assert!(matches!(action, SignupAction::Reply(Ok(201))));
}

#[test]
fn signup_refusals() {
    let address = ServerAddress("x".to_string());
    let (state, _) = sign_up_start(false, None, signup("taken", "Passw0rd!long", None));
    let (_, action) = sign_up_step(state, SignupEvent::Availability(false), &address);
    assert!(matches!(action, SignupAction::Reply(Err(ref e)) if e.status == 409 && e.message == "username already taken"));
    let (state, _) = sign_up_start(false, None, signup("-ab", "Passw0rd!long", None));
    let (_, action) = sign_up_step(state, SignupEvent::Availability(true), &address);
    assert!(matches!(action, SignupAction::Reply(Err(ref e)) if e.status == 422 && e.message == "Username validation failed: Username cannot start with a dash"));
    let (state, _) = sign_up_start(false, None, signup("newbie", "short", None));
    let (_, action) = sign_up_step(state, SignupEvent::Availability(true), &address);
    assert!(matches!(action, SignupAction::Reply(Err(ref e)) if e.status == 422 && e.message.starts_with("Password validation failed: ")));
    let (state, _) = sign_up_start(true, None, signup("newbie", "Passw0rd!long", Some("t")));
    let (_, action) = sign_up_step(state, SignupEvent::CaptchaChecked(Ok(false)), &address);
    assert!(matches!(action, SignupAction::Reply(Err(ref e)) if e.status == 403));
    let (state, _) = sign_up_start(true, None, signup("newbie", "Passw0rd!long", Some("t")));
    let (_, action) = sign_up_step(state, SignupEvent::CaptchaChecked(Err("timeout".to_string())), &address);
    assert!(matches!(action, SignupAction::Reply(Err(ref e)) if e.status == 503 && e.internal.as_deref() == Some("timeout")));
}

#[test]
fn confirmation_redirects_home() {
    assert_eq!(confirm_sign_up(Ok(())).unwrap(), "/");
    let e = confirm_sign_up(Err("db".to_string())).unwrap_err();
    assert_eq!(e.status, 500);
    assert_eq!(e.message, "something went wrong 💀");
}

#[test]
fn password_reset_round_trip() {
    let address = ServerAddress("fckn.gay".to_string());
    let mut resets = PasswordResetCache(AuthenticationCache::new());
    let mut sessions = AuthenticationCache::new();
    let session = login(&mut sessions, form("alice", "old"), Some(3), 0).unwrap();
    let action = request_password_reset(&mut resets, Ok(Some(entry(3, "alice", UserState::Active))), &address, 0);
    let token = match action {
        ResetRequestAction::SendEmail { to, subject, body, .. } => {
            assert_eq!(to, "alice@example.com");
            assert_eq!(subject, "Reset your password");
            let start = body.find("?token=").unwrap() + "?token=".len();
            body[start..].trim_end().to_string()
        }
        _ => panic!("expected a reset email"),
    };
    assert_eq!(reset_email_sent(Ok(())).ok(), Some(200));
    let (pending, hash) = reset_password_start(
        &mut resets,
        HandlePasswordReset { new_password: "N3w-password!".to_string(), token: token.clone() },
        10,
    )
    .ok()
    .unwrap();
    assert_eq!(pending.username, "alice");
    assert_eq!(pending.user_id, 3);
    assert!(hash.validate("N3w-password!"));
    assert_eq!(reset_password_finish(&mut sessions, pending, Ok(())).ok(), Some("alice".to_string()));
    assert!(add_authorization(&mut sessions, Some(&session), 10).is_none());
    let again = reset_password_start(
        &mut resets,
        HandlePasswordReset { new_password: "N3w-password!".to_string(), token },
        10,
    );
    assert!(matches!(again, Err(ref e) if e.status == 401));
}

#[test]
fn password_reset_for_unknown_or_inactive_users() {
    let address = ServerAddress("fckn.gay".to_string());
    let mut resets = PasswordResetCache(AuthenticationCache::new());
    let action = request_password_reset(&mut resets, Ok(None), &address, 0);
    assert!(matches!(action, ResetRequestAction::Reply { result: Ok(200), log_warning: None }));
    let action = request_password_reset(&mut resets, Ok(Some(entry(4, "bob", UserState::Banned))), &address, 0);
    match action {
        ResetRequestAction::Reply { result: Ok(200), log_warning: Some(w) } => {
            assert_eq!(w, "Password reset requested for non-active user 'bob' (state: Banned)")
        }
        _ => panic!("expected a silent answer"),
    }
}

#[test]
fn password_reset_rejects_weak_password() {
    let mut resets = PasswordResetCache(AuthenticationCache::new());
    let r = reset_password_start(&mut resets, HandlePasswordReset { new_password: "x".to_string(), token: "t".to_string() }, 0);
    match r {
        Err(e) => {
            assert_eq!(e.status, 400);
            assert_eq!(e.message, "failed to parse form body");
            assert_eq!(e.internal.as_deref(), Some("Invalid password"));
        }
        Ok(_) => panic!("expected a refusal"),
    }
}
