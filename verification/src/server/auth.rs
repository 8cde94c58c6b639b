//! Sign-up, login, logout and password reset. The flows that wait on the
//! database, the captcha service or the mail server are step functions:
//! each takes what the last outside call returned and says what to do next.

use vstd::prelude::*;
use crate::random::{uuid_text, uuid_text_spec};
use crate::server::auth_cache::{
    valid_user, without_user, AuthenticationCache, PasswordResetCache, TokenView,
};
use crate::server::config::ServerAddress;
use crate::server::error::{generic_message, AppError};
use crate::text::{concat, join_seq, join_strs};
use crate::user_database::{password_matches_hash, PasswordHash, UserEntry, UserState, UserView};
use crate::validation::{
    password_errors, password_rules_hold, username_errors, validate_password, validate_username,
};

verus! {

/// Session length: four hours.
pub const SESSION_SECONDS: u64 = 14400;

/// Password reset links are valid for fifteen minutes.
pub const RESET_SECONDS: u64 = 900;

/// The sender of every email.
pub open spec fn sender() -> Seq<char> {
    "im@fckn.gay"@
}

pub open spec fn opt_text(o: Option<String>) -> Option<Seq<char>> {
    match o {
        Some(s) => Some(s@),
        None => None,
    }
}

pub open spec fn is_error(e: &AppError, status: u16, message: Seq<char>) -> bool {
    e.status == status && e.message@ == message
}

// ---------------------------------------------------------------- login

/// Login form.
pub struct Login {
    pub username: String,
    pub password: String,
}

/// A login whose credentials the database checked: `user_id` is the id it
/// found for them, if any. On success a session token good for four hours
/// is stored and returned, to be set as the `login-token` cookie.
pub fn login(cache: &mut AuthenticationCache, form: Login, user_id: Option<u128>, now: u64) -> (r: Result<
    String,
    AppError,
>)
    requires
        old(cache).wf(),
        now + SESSION_SECONDS <= u64::MAX,
    ensures
        final(cache).wf(),
        user_id is None ==> (r matches Err(e) && is_error(&e, 401, "invalid username or password"@))
            && final(cache)@ == old(cache)@,
        user_id matches Some(id) ==> match r {
            Ok(t) => final(cache)@ == old(cache)@.insert(
                t@,
                TokenView { expires_at: (now + SESSION_SECONDS) as u64, username: form.username@, user_id: id },
            ),
            Err(e) => is_error(&e, 500, "failed to create session 💀"@) && final(cache)@ == old(cache)@,
        },
{
    match user_id {
        Some(id) => match cache.new_token_for(form.username, id, now + SESSION_SECONDS) {
            Some(token) => Ok(token),
            None => Err(AppError::message(500, "failed to create session 💀")),
        },
        None => Err(AppError::message(401, "invalid username or password")),
    }
}

/// Logging out drops the session token of the cookie, if any; the browser
/// is then sent to `/`.
pub fn logout(cache: &mut AuthenticationCache, login_token: Option<&str>) -> (r: &'static str)
    requires
        old(cache).wf(),
    ensures
        final(cache).wf(),
        r@ == "/"@,
        match login_token {
            Some(t) => final(cache)@ == old(cache)@.remove(t@),
            None => final(cache)@ == old(cache)@,
        },
{
    match login_token {
        Some(t) => {
            cache.remove_token(t);
        },
        None => {},
    }
    "/"
}

// -------------------------------------------------------------- sign-up

/// Sign-up form; the captcha token is there when the page shows a captcha.
pub struct Signup {
    pub username: String,
    pub password: String,
    pub email: String,
    pub cf_turnstile_response: Option<String>,
}

/// The confirmation email of a new account.
pub open spec fn signup_body(username: Seq<char>, address: Seq<char>, id: u128) -> Seq<char> {
    "Hello "@ + username + ",\nThank you for signing up for an account at fckn.gay.\nPlease click the following link to activate your account:\nhttp://"@
        + address + "/confirm-signup?token="@ + uuid_text_spec(id)
        + "\n\nif you did not sign up for an account, please ignore this email."@
}

pub open spec fn signup_subject() -> Seq<char> {
    "Sign up for your new account"@
}

/// Where a sign-up stands.
pub enum SignupState {
    AwaitingCaptcha { form: Signup },
    AwaitingAvailability { form: Signup },
    AwaitingUser { username: String, email: String },
    AwaitingEmail,
    Done,
}

/// What the sign-up flow asks to be done next.
pub enum SignupAction {
    VerifyCaptcha { token: String, client_ip: Option<String> },
    CheckAvailable { username: String },
    AddUser { username: String, password: String, email: String },
    SendEmail { from: String, to: String, subject: String, body: String },
    /// Answer: `Ok(201)` or an error.
    Reply(Result<u16, AppError>),
}

/// What came back from the last outside call.
pub enum SignupEvent {
    CaptchaChecked(Result<bool, String>),
    Availability(bool),
    UserAdded(Result<u128, String>),
    EmailSent(Result<(), String>),
}

pub open spec fn signup_event_fits(s: SignupState, e: SignupEvent) -> bool {
    match s {
        SignupState::AwaitingCaptcha { .. } => e is CaptchaChecked,
        SignupState::AwaitingAvailability { .. } => e is Availability,
        SignupState::AwaitingUser { .. } => e is UserAdded,
        SignupState::AwaitingEmail => e is EmailSent,
        SignupState::Done => false,
    }
}

pub open spec fn signup_refused(a: SignupAction, status: u16, message: Seq<char>) -> bool {
    match a {
        SignupAction::Reply(Err(e)) => is_error(&e, status, message),
        _ => false,
    }
}

pub open spec fn same_form(a: Signup, b: Signup) -> bool {
    a.username@ == b.username@ && a.password@ == b.password@ && a.email@ == b.email@
}

fn copy_form(f: &Signup) -> (r: Signup)
    ensures
        same_form(r, *f),
{
    Signup {
        username: f.username.clone(),
        password: f.password.clone(),
        email: f.email.clone(),
        cf_turnstile_response: None,
    }
}

/// Starts a sign-up. With the captcha enabled, a form without a captcha
/// token is refused (403) and one with a token has it verified first;
/// without the captcha, the username's availability is checked first.
pub fn sign_up_start(captcha_enabled: bool, client_ip: Option<String>, form: Signup) -> (r: (
    SignupState,
    SignupAction,
))
    ensures
        captcha_enabled && form.cf_turnstile_response is None ==> r.0 is Done && signup_refused(
            r.1,
            403,
            "captcha token missing — are you a bot? 🤖"@,
        ),
        captcha_enabled && form.cf_turnstile_response is Some ==> ({
            &&& r.0 matches SignupState::AwaitingCaptcha { form: f } && same_form(f, form)
            &&& r.1 matches SignupAction::VerifyCaptcha { token, client_ip: ip } && Some(token@)
                == opt_text(form.cf_turnstile_response) && opt_text(ip) == opt_text(client_ip)
        }),
        !captcha_enabled ==> ({
            &&& r.0 matches SignupState::AwaitingAvailability { form: f } && same_form(f, form)
            &&& r.1 matches SignupAction::CheckAvailable { username } && username@ == form.username@
        }),
{
    if captcha_enabled {
        match &form.cf_turnstile_response {
            None => (
                SignupState::Done,
                SignupAction::Reply(Err(AppError::message(403, "captcha token missing — are you a bot? 🤖"))),
            ),
            Some(token) => {
                let t = token.clone();
                (SignupState::AwaitingCaptcha { form: copy_form(&form) }, SignupAction::VerifyCaptcha { token: t, client_ip })
            },
        }
    } else {
        let username = form.username.clone();
        (SignupState::AwaitingAvailability { form }, SignupAction::CheckAvailable { username })
    }
}

/// The next step of a sign-up.
pub fn sign_up_step(state: SignupState, event: SignupEvent, address: &ServerAddress) -> (r: (
    SignupState,
    SignupAction,
))
    requires
        signup_event_fits(state, event),
    ensures
        match (state, event) {
            (SignupState::AwaitingCaptcha { form }, SignupEvent::CaptchaChecked(res)) => match res {
                Err(e) => r.0 is Done && (r.1 matches SignupAction::Reply(Err(err)) && is_error(
                    &err,
                    503,
                    "captcha verification service is having a moment 💀 try again later"@,
                ) && opt_text(err.internal) == Some(e@)),
                Ok(false) => r.0 is Done && signup_refused(r.1, 403, "captcha verification failed — try again maybe? 🤔"@),
                Ok(true) => {
                    &&& r.0 matches SignupState::AwaitingAvailability { form: f } && same_form(f, form)
                    &&& r.1 matches SignupAction::CheckAvailable { username } && username@ == form.username@
                },
            },
            (SignupState::AwaitingAvailability { form }, SignupEvent::Availability(available)) => if !available {
                r.0 is Done && signup_refused(r.1, 409, "username already taken"@)
            } else if username_errors(form.username@).len() != 0 {
                r.0 is Done && signup_refused(
                    r.1,
                    422,
                    "Username validation failed: "@ + join_seq(username_errors(form.username@), ", "@),
                )
            } else if password_errors(form.password@).len() != 0 {
                r.0 is Done && signup_refused(
                    r.1,
                    422,
                    "Password validation failed: "@ + join_seq(password_errors(form.password@), ", "@),
                )
            } else {
                &&& password_rules_hold(form.password@)
                &&& r.0 matches SignupState::AwaitingUser { username, email } && username@ == form.username@
                    && email@ == form.email@
                &&& r.1 matches SignupAction::AddUser { username, password, email } && username@ == form.username@
                    && password@ == form.password@ && email@ == form.email@
            },
            (SignupState::AwaitingUser { username, email }, SignupEvent::UserAdded(res)) => match res {
                Err(e) => r.0 is Done && (r.1 matches SignupAction::Reply(Err(err)) && is_error(
                    &err,
                    500,
                    "failed to create user 💀"@,
                ) && opt_text(err.internal) == Some(e@)),
                Ok(id) => {
                    &&& r.0 is AwaitingEmail
                    &&& r.1 matches SignupAction::SendEmail { from, to, subject, body } && from@ == sender()
                        && to@ == email@ && subject@ == signup_subject() && body@ == signup_body(
                        username@,
                        address.0@,
                        id,
                    )
                },
            },
            (SignupState::AwaitingEmail, SignupEvent::EmailSent(res)) => match res {
                Err(e) => r.0 is Done && (r.1 matches SignupAction::Reply(Err(err)) && is_error(
                    &err,
                    500,
                    generic_message(),
                ) && opt_text(err.internal) == Some(e@)),
                Ok(()) => r.0 is Done && (r.1 matches SignupAction::Reply(Ok(s)) && s == 201),
            },
            _ => false,
        },
{
    match (state, event) {
        (SignupState::AwaitingCaptcha { form }, SignupEvent::CaptchaChecked(res)) => match res {
            Err(e) => {
                let err = AppError::message(
                    503,
                    "captcha verification service is having a moment 💀 try again later",
                ).with_internal(e);
                (SignupState::Done, SignupAction::Reply(Err(err)))
            },
            Ok(false) => (
                SignupState::Done,
                SignupAction::Reply(Err(AppError::message(403, "captcha verification failed — try again maybe? 🤔"))),
            ),
            Ok(true) => {
                let username = form.username.clone();
                (SignupState::AwaitingAvailability { form }, SignupAction::CheckAvailable { username })
            },
        },
        (SignupState::AwaitingAvailability { form }, SignupEvent::Availability(available)) => {
            if !available {
                return (SignupState::Done, SignupAction::Reply(Err(AppError::message(409, "username already taken"))));
            }
            let username_result = validate_username(form.username.as_str());
            if !username_result.is_valid() {
                let joined = join_strs(username_result.errors(), ", ");
                let m = concat("Username validation failed: ", joined.as_str());
                return (SignupState::Done, SignupAction::Reply(Err(AppError::with_message(422, m))));
            }
            let password_result = validate_password(form.password.as_str());
            if !password_result.is_valid() {
                let joined = join_strs(password_result.errors(), ", ");
                let m = concat("Password validation failed: ", joined.as_str());
                return (SignupState::Done, SignupAction::Reply(Err(AppError::with_message(422, m))));
            }
            let Signup { username, password, email, .. } = form;
            let state = SignupState::AwaitingUser { username: username.clone(), email: email.clone() };
            (state, SignupAction::AddUser { username, password, email })
        },
        (SignupState::AwaitingUser { username, email }, SignupEvent::UserAdded(res)) => match res {
            Err(e) => {
                let err = AppError::message(500, "failed to create user 💀").with_internal(e);
                (SignupState::Done, SignupAction::Reply(Err(err)))
            },
            Ok(id) => {
                let mut body = concat("Hello ", username.as_str());
                body.append(",\nThank you for signing up for an account at fckn.gay.\nPlease click the following link to activate your account:\nhttp://");
                body.append(address.as_str());
                body.append("/confirm-signup?token=");
                body.append(uuid_text(id).as_str());
                body.append("\n\nif you did not sign up for an account, please ignore this email.");
                (
                    SignupState::AwaitingEmail,
                    SignupAction::SendEmail {
                        from: String::from_str("im@fckn.gay"),
                        to: email,
                        subject: String::from_str("Sign up for your new account"),
                        body,
                    },
                )
            },
        },
        (SignupState::AwaitingEmail, SignupEvent::EmailSent(res)) => match res {
            Err(e) => (SignupState::Done, SignupAction::Reply(Err(AppError::internal_error(e)))),
            Ok(()) => (SignupState::Done, SignupAction::Reply(Ok(201))),
        },
        _ => {
            proof {
                assert(false);
            }
            (SignupState::Done, SignupAction::Reply(Err(AppError::internal_error(String::new()))))
        },
    }
}

/// Confirming a sign-up: once the database activated the account the
/// browser is sent to `/`; a database error is an internal error.
pub fn confirm_sign_up(activated: Result<(), String>) -> (r: Result<&'static str, AppError>)
    ensures
        match activated {
            Ok(()) => r matches Ok(p) && p@ == "/"@,
            Err(e) => r matches Err(err) && is_error(&err, 500, generic_message()) && opt_text(err.internal)
                == Some(e@),
        },
{
    match activated {
        Ok(()) => Ok("/"),
        Err(e) => Err(AppError::internal_error(e)),
    }
}

// ------------------------------------------------------- password reset

/// Form asking for a password reset link.
pub struct PasswordReset {
    pub username_or_email: String,
}

/// Form setting a new password with a reset token.
pub struct HandlePasswordReset {
    pub new_password: String,
    pub token: String,
}

/// The email with a password reset link.
pub open spec fn reset_body(username: Seq<char>, address: Seq<char>, token: Seq<char>) -> Seq<char> {
    "Hello "@ + username
        + ",\nSomeone (hopefully you) has requested a password reset for your account at fckn.gay.\nPlease click the following link to reset your password:\n(if you did not request a password reset, please ignore this email)\nhttp://"@
        + address + "/reset-password/?token="@ + token + "\n"@
}

pub open spec fn reset_subject() -> Seq<char> {
    "Reset your password"@
}

pub open spec fn state_name(s: UserState) -> Seq<char> {
    match s {
        UserState::Pending => "Pending"@,
        UserState::Active => "Active"@,
        UserState::Inactive => "Inactive"@,
        UserState::Banned => "Banned"@,
    }
}

fn state_name_exec(s: UserState) -> (r: &'static str)
    ensures
        r@ == state_name(s),
{
    match s {
        UserState::Pending => "Pending",
        UserState::Active => "Active",
        UserState::Inactive => "Inactive",
        UserState::Banned => "Banned",
    }
}

/// The warning logged when a user that cannot log in asks for a reset.
pub open spec fn inactive_warning(u: UserView) -> Seq<char> {
    "Password reset requested for non-active user '"@ + u.username + "' (state: "@ + state_name(u.state)
        + ")"@
}

/// What a reset request asks to be done after the user lookup.
pub enum ResetRequestAction {
    SendEmail { from: String, to: String, subject: String, body: String },
    /// Answer: `Ok(200)` or an error, with a warning to log.
    Reply { result: Result<u16, AppError>, log_warning: Option<String> },
}

/// A reset request once the database looked the name or address up. The
/// answer is 200 whether or not an active user was found, so the form does
/// not tell who has an account; for an active user a token good for fifteen
/// minutes is stored and the link mailed.
pub fn request_password_reset(
    cache: &mut PasswordResetCache,
    lookup: Result<Option<UserEntry>, String>,
    address: &ServerAddress,
    now: u64,
) -> (r: ResetRequestAction)
    requires
        old(cache).0.wf(),
        now + RESET_SECONDS <= u64::MAX,
    ensures
        final(cache).0.wf(),
        match lookup {
            Err(e) => final(cache).0@ == old(cache).0@ && (r matches ResetRequestAction::Reply {
                result: Err(err),
                log_warning: None,
            } && is_error(&err, 500, generic_message()) && opt_text(err.internal) == Some(e@)),
            Ok(None) => final(cache).0@ == old(cache).0@ && (r matches ResetRequestAction::Reply {
                result: Ok(s),
                log_warning: None,
            } && s == 200),
            Ok(Some(u)) => if u@.state != UserState::Active {
                final(cache).0@ == old(cache).0@ && (r matches ResetRequestAction::Reply {
                    result: Ok(s),
                    log_warning: Some(w),
                } && s == 200 && w@ == inactive_warning(u@))
            } else {
                match r {
                    ResetRequestAction::SendEmail { from, to, subject, body } => {
                        &&& from@ == sender()
                        &&& to@ == u@.email
                        &&& subject@ == reset_subject()
                        &&& exists|t: Seq<char>| #[trigger] reset_body(u@.username, address.0@, t) == body@
                            && final(cache).0@ == old(cache).0@.insert(
                            t,
                            TokenView { expires_at: (now + RESET_SECONDS) as u64, username: u@.username, user_id: u@.id },
                        )
                    },
                    ResetRequestAction::Reply { result: Err(err), log_warning: None } => is_error(
                        &err,
                        500,
                        "failed to generate password reset token 💀"@,
                    ) && final(cache).0@ == old(cache).0@,
                    _ => false,
                }
            },
        },
{
    match lookup {
        Err(e) => ResetRequestAction::Reply { result: Err(AppError::internal_error(e)), log_warning: None },
        Ok(None) => ResetRequestAction::Reply { result: Ok(200), log_warning: None },
        Ok(Some(user)) => {
            if !user.is_active() {
                let mut w = concat("Password reset requested for non-active user '", user.username.as_str());
                w.append("' (state: ");
                w.append(state_name_exec(user.state));
                w.append(")");
                return ResetRequestAction::Reply { result: Ok(200), log_warning: Some(w) };
            }
            let name = user.username.clone();
            match cache.0.new_token_for(name, user.id, now + RESET_SECONDS) {
                None => ResetRequestAction::Reply {
                    result: Err(AppError::message(500, "failed to generate password reset token 💀")),
                    log_warning: None,
                },
                Some(token) => {
                    let mut body = concat("Hello ", user.username.as_str());
                    body.append(
                        ",\nSomeone (hopefully you) has requested a password reset for your account at fckn.gay.\nPlease click the following link to reset your password:\n(if you did not request a password reset, please ignore this email)\nhttp://",
                    );
                    body.append(address.as_str());
                    body.append("/reset-password/?token=");
                    body.append(token.as_str());
                    body.append("\n");
                    assert(reset_body(user@.username, address.0@, token@) == body@);
                    ResetRequestAction::SendEmail {
                        from: String::from_str("im@fckn.gay"),
                        to: user.email,
                        subject: String::from_str("Reset your password"),
                        body,
                    }
                },
            }
        },
    }
}

/// The answer once the reset email went out, or did not.
pub fn reset_email_sent(sent: Result<(), String>) -> (r: Result<u16, AppError>)
    ensures
        match sent {
            Ok(()) => r == Ok::<u16, AppError>(200),
            Err(e) => r matches Err(err) && is_error(&err, 500, generic_message()) && opt_text(err.internal)
                == Some(e@),
        },
{
    match sent {
        Ok(()) => Ok(200),
        Err(e) => Err(AppError::internal_error(e)),
    }
}

/// A password change waiting for the database.
pub struct PendingReset {
    pub username: String,
    pub user_id: u128,
}

/// Setting a new password with a reset token. A password that breaks the
/// rules is refused like a malformed form (400), before the token is
/// looked at. The token is removed in the same step as it is checked, so
/// it works once; an unknown or expired token is refused with 401.
/// Otherwise the new password's hash is to be stored for the token's user;
/// when no hash can be made (no randomness), an internal error (500).
pub fn reset_password_start(cache: &mut PasswordResetCache, form: HandlePasswordReset, now: u64) -> (r: Result<
    (PendingReset, PasswordHash),
    AppError,
>)
    requires
        old(cache).0.wf(),
    ensures
        final(cache).0.wf(),
        !password_rules_hold(form.new_password@) ==> (r matches Err(e) && is_error(
            &e,
            400,
            "failed to parse form body"@,
        ) && opt_text(e.internal) == Some("Invalid password"@)) && final(cache).0@ == old(cache).0@,
        password_rules_hold(form.new_password@) ==> final(cache).0@ == old(cache).0@.remove(form.token@)
            && match valid_user(old(cache).0@, form.token@, now) {
            None => r matches Err(e) && is_error(&e, 401, "invalid or expired password reset token"@),
            Some((name, id)) => (r matches Ok((p, h)) && p.username@ == name && p.user_id == id
                && password_matches_hash(form.new_password@, h@)) || (r matches Err(e) && is_error(
                &e,
                500,
                generic_message(),
            ) && opt_text(e.internal) == Some("failed to hash the password"@)),
        },
{
    let check = validate_password(form.new_password.as_str());
    if !check.is_valid() {
        return Err(AppError::message(400, "failed to parse form body").with_internal(String::from_str("Invalid password")));
    }
    match cache.0.take_valid_token(form.token.as_str(), now) {
        None => Err(AppError::message(401, "invalid or expired password reset token")),
        Some((username, user_id)) => {
            match PasswordHash::new(form.new_password.as_str()) {
                Some(hash) => Ok((PendingReset { username, user_id }, hash)),
                None => Err(AppError::internal_error(String::from_str("failed to hash the password"))),
            }
        },
    }
}

/// Once the database stored the new password, every session of the user is
/// ended and the username returned; a database error is an internal error
/// and ends no session.
pub fn reset_password_finish(
    sessions: &mut AuthenticationCache,
    pending: PendingReset,
    stored: Result<(), String>,
) -> (r: Result<String, AppError>)
    requires
        old(sessions).wf(),
    ensures
        final(sessions).wf(),
        match stored {
            Ok(()) => r matches Ok(u) && u@ == pending.username@ && final(sessions)@ == without_user(
                old(sessions)@,
                pending.user_id,
            ),
            Err(e) => r matches Err(err) && is_error(&err, 500, generic_message()) && opt_text(err.internal)
                == Some(e@) && final(sessions)@ == old(sessions)@,
        },
{
    match stored {
        Ok(()) => {
            sessions.invalidate_all_tokens_for_user(pending.user_id);
            Ok(pending.username)
        },
        Err(e) => Err(AppError::internal_error(e)),
    }
}

} // verus!
