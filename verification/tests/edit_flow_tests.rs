use fckn_gay::server::edit_flow::{edit_user_start, edit_user_step, i64_to_decimal, EditUserAction, EditUserEvent, EditUserState};
use fckn_gay::server::edit_user::EditUserOpts;
use fckn_gay::user_database::{PasswordHash, UserEntry, UserState};

fn alice() -> UserEntry {
    UserEntry {
        id: 0x0123456789abcdef0123456789abcdef,
        username: "alice".to_string(),
        password_hash: PasswordHash::from_raw("hash".to_string()),
        email: "alice@example.com".to_string(),
        state: UserState::Active,
        created_at: 1700000000,
        last_login: None,
    }
}

fn opts(email: Option<&str>, state: Option<UserState>, reset: bool, rename: Option<&str>, dry: bool) -> EditUserOpts {
    EditUserOpts {
        email: email.map(|e| e.to_string()),
        state,
        reset_password: reset,
        rename: rename.map(|r| r.to_string()),
        dry_run: dry,
    }
}

fn lines(a: &EditUserAction) -> Vec<String> {
    match a {
        EditUserAction::Print(v) => v.clone(),
        _ => panic!("expected lines"),
    }
}

#[test]
fn without_changes_the_user_is_shown() {
    let (s, a) = edit_user_start("alice".to_string(), opts(None, None, false, None, false));
    assert!(matches!(a, EditUserAction::LookUp(ref n) if n == "alice"));
    let (s, a) = edit_user_step(s, EditUserEvent::User(Ok(Some(alice()))));
    assert_eq!(
        lines(&a),
        vec![
            "📋 user info for 'alice':",
            "  id:         01234567-89ab-cdef-0123-456789abcdef",
            "  username:   alice",
            "  email:      alice@example.com",
            "  state:      Active",
            "  created_at: 1700000000",
            "  last_login: never",
        ]
    );
    let (s, a) = edit_user_step(s, EditUserEvent::Printed);
    assert!(matches!(s, EditUserState::Done));
    assert!(matches!(a, EditUserAction::Finish(Ok(()))));
}

#[test]
fn unknown_user_is_an_error() {
    let (s, _) = edit_user_start("bob".to_string(), opts(None, None, false, None, false));
    let (_, a) = edit_user_step(s, EditUserEvent::User(Ok(None)));
    assert!(matches!(a, EditUserAction::Finish(Err(ref m)) if m == "user 'bob' not found 💀"));
}

#[test]
fn dry_run_only_says_what_it_would_do() {
    let (s, _) = edit_user_start("alice".to_string(), opts(Some("new@example.com"), Some(UserState::Banned), true, Some("alicia"), true));
    let (s, a) = edit_user_step(s, EditUserEvent::User(Ok(Some(alice()))));
    assert_eq!(lines(&a), vec!["🧪 DRY RUN -- no changes will be made"]);
    let (s, a) = edit_user_step(s, EditUserEvent::Printed);
    assert_eq!(lines(&a), vec!["📧 would update email: alice@example.com -> new@example.com"]);
    let (s, a) = edit_user_step(s, EditUserEvent::Printed);
    assert_eq!(lines(&a), vec!["🔄 would update state: Active -> Banned"]);
    let (s, a) = edit_user_step(s, EditUserEvent::Printed);
    assert_eq!(lines(&a), vec!["🔑 would reset password (new password not generated in dry run)"]);
    let (s, a) = edit_user_step(s, EditUserEvent::Printed);
    assert!(matches!(a, EditUserAction::Rename { dry_run: true, ref new_username, .. } if new_username == "alicia"));
    let (s, a) = edit_user_step(s, EditUserEvent::Updated(Ok(())));
    assert_eq!(lines(&a), vec!["\n(dry run -- nothing was actually changed)"]);
    let (_, a) = edit_user_step(s, EditUserEvent::Printed);
    assert!(matches!(a, EditUserAction::Finish(Ok(()))));
}

#[test]
fn changes_come_in_order_and_stop_at_a_failure() {
    let (s, _) = edit_user_start("alice".to_string(), opts(Some("new@example.com"), Some(UserState::Banned), true, None, false));
    let (s, a) = edit_user_step(s, EditUserEvent::User(Ok(Some(alice()))));
    assert!(matches!(a, EditUserAction::UpdateEmail { ref email, .. } if email == "new@example.com"));
    let (s, a) = edit_user_step(s, EditUserEvent::Updated(Ok(())));
    assert_eq!(lines(&a), vec!["📧 updated email: alice@example.com -> new@example.com"]);
    let (s, a) = edit_user_step(s, EditUserEvent::Printed);
    assert!(matches!(a, EditUserAction::UpdateState { state: UserState::Banned, .. }));
    let (s, a) = edit_user_step(s, EditUserEvent::Updated(Ok(())));
    assert_eq!(lines(&a), vec!["🔄 updated state: Active -> Banned"]);
    let (s, a) = edit_user_step(s, EditUserEvent::Printed);
    assert!(matches!(a, EditUserAction::UpdatePassword { .. }));
    let (_, a) = edit_user_step(s, EditUserEvent::Updated(Err("db down".to_string())));
    assert!(matches!(a, EditUserAction::Finish(Err(ref m)) if m == "failed to reset password: db down"));
}

#[test]
fn signed_decimals() {
    assert_eq!(i64_to_decimal(0), "0");
    assert_eq!(i64_to_decimal(-42), "-42");
    assert_eq!(i64_to_decimal(i64::MIN), "-9223372036854775808");
}
