//! Showing or changing a user from the command line, as step functions:
//! the user is looked up; without changes it is shown; otherwise the email,
//! the state, the password and the name are changed in that order, each only
//! if asked for, and a dry run only says what it would do.

use vstd::prelude::*;
use crate::random::{generate_random_password, uuid_text, uuid_text_spec};
use crate::server::edit_user::EditUserOpts;
use crate::text::{concat, dec_seq, u64_to_decimal};
use crate::user_database::{PasswordHash, UserEntry, UserState};

verus! {

/// How a user state is shown.
pub open spec fn user_state_name(s: UserState) -> Seq<char> {
    match s {
        UserState::Pending => "Pending"@,
        UserState::Active => "Active"@,
        UserState::Inactive => "Inactive"@,
        UserState::Banned => "Banned"@,
    }
}

pub fn user_state_text(s: UserState) -> (r: &'static str)
    ensures
        r@ == user_state_name(s),
{
    match s {
        UserState::Pending => "Pending",
        UserState::Active => "Active",
        UserState::Inactive => "Inactive",
        UserState::Banned => "Banned",
    }
}

/// Decimal text of a signed number.
pub open spec fn signed_dec(n: i64) -> Seq<char> {
    if n >= 0 {
        dec_seq(n as nat)
    } else {
        "-"@ + dec_seq((0 - n) as nat)
    }
}

pub fn i64_to_decimal(n: i64) -> (r: String)
    ensures
        r@ == signed_dec(n),
{
    if n >= 0 {
        u64_to_decimal(n as u64)
    } else {
        let m: u64 = (0i128 - (n as i128)) as u64;
        let d = u64_to_decimal(m);
        concat("-", d.as_str())
    }
}

/// The lines that show a user.
pub open spec fn info_lines(username: Seq<char>, u: UserEntry) -> Seq<Seq<char>> {
    seq![
        "📋 user info for '"@ + username + "':"@,
        "  id:         "@ + uuid_text_spec(u.id),
        "  username:   "@ + u.username@,
        "  email:      "@ + u.email@,
        "  state:      "@ + user_state_name(u.state),
        "  created_at: "@ + signed_dec(u.created_at),
        "  last_login: "@ + match u.last_login {
            Some(t) => signed_dec(t),
            None => "never"@,
        },
    ]
}

pub open spec fn strs(v: Seq<String>) -> Seq<Seq<char>> {
    v.map_values(|s: String| s@)
}

/// What is to be done next, in order.
#[derive(Clone, Copy, PartialEq, Eq, Structural)]
pub enum EditStage {
    Email,
    EmailSent,
    State,
    StateSent,
    Password,
    PasswordSent,
    Rename,
    RenameSent,
    Wrapup,
    Closing,
}

pub open spec fn stage_rank(s: EditStage) -> int {
    match s {
        EditStage::Email => 0,
        EditStage::EmailSent => 1,
        EditStage::State => 2,
        EditStage::StateSent => 3,
        EditStage::Password => 4,
        EditStage::PasswordSent => 5,
        EditStage::Rename => 6,
        EditStage::RenameSent => 7,
        EditStage::Wrapup => 8,
        EditStage::Closing => 9,
    }
}

/// Where showing or editing a user stands.
pub enum EditUserState {
    LookingUp { username: String, opts: EditUserOpts },
    /// The user was shown; nothing else is done.
    Shown,
    Editing { opts: EditUserOpts, user: UserEntry, stage: EditStage, new_password: String },
    Done,
}

/// What is asked to be done next.
pub enum EditUserAction {
    LookUp(String),
    /// Print these lines, then answer `Printed`.
    Print(Vec<String>),
    UpdateEmail { user_id: u128, email: String },
    UpdateState { user_id: u128, state: UserState },
    UpdatePassword { user_id: u128, hash: PasswordHash },
    /// Run the rename of a user (a dry run only plans it).
    Rename { user_id: u128, old_username: String, new_username: String, dry_run: bool },
    Finish(Result<(), String>),
}

/// What came back.
pub enum EditUserEvent {
    User(Result<Option<UserEntry>, String>),
    Printed,
    Updated(Result<(), String>),
}

/// An update in flight is one that was asked for.
pub open spec fn edit_stage_ok(o: EditUserOpts, s: EditStage) -> bool {
    &&& s == EditStage::EmailSent ==> o.email is Some
    &&& s == EditStage::StateSent ==> o.state is Some
}

pub open spec fn edit_wf(s: EditUserState) -> bool {
    match s {
        EditUserState::Editing { opts, stage, .. } => edit_stage_ok(opts, stage),
        _ => true,
    }
}

pub open spec fn has_changes(o: EditUserOpts) -> bool {
    o.email is Some || o.state is Some || o.reset_password || o.rename is Some
}

/// Whether an action changes anything.
pub open spec fn changes(a: EditUserAction) -> bool {
    ||| a is UpdateEmail
    ||| a is UpdateState
    ||| a is UpdatePassword
    ||| (a matches EditUserAction::Rename { dry_run, .. } && !dry_run)
}

/// Starts with looking the user up.
pub fn edit_user_start(username: String, opts: EditUserOpts) -> (r: (EditUserState, EditUserAction))
    ensures
        edit_wf(r.0),
        r.0 matches EditUserState::LookingUp { username: u, opts: o } && u@ == username@ && o.dry_run
            == opts.dry_run,
        r.1 matches EditUserAction::LookUp(n) && n@ == username@,
{
    let n = username.clone();
    (EditUserState::LookingUp { username, opts }, EditUserAction::LookUp(n))
}

fn print_one(line: String) -> (r: EditUserAction)
    ensures
        r matches EditUserAction::Print(v) && strs(v@) == seq![line@],
{
    let mut v: Vec<String> = Vec::new();
    v.push(line);
    proof {
        assert(strs(v@) =~= seq![line@]);
    }
    EditUserAction::Print(v)
}

/// The first thing to do from `stage` on: the next change that is asked
/// for (only said in a dry run), or the closing line.
fn advance(opts: EditUserOpts, user: UserEntry, stage: EditStage) -> (r: (EditUserState, EditUserAction))
    requires
        stage == EditStage::Email || stage == EditStage::State || stage == EditStage::Password || stage
            == EditStage::Rename || stage == EditStage::Wrapup,
    ensures
        advances(opts, user, stage, r),
    decreases 10 - stage_rank(stage),
{
    let dry = opts.dry_run;
    match stage {
        EditStage::Email => {
            match &opts.email {
                Some(e) => {
                    if dry {
                        let mut l = concat("📧 would update email: ", user.email.as_str());
                        l.append(" -> ");
                        l.append(e.as_str());
                        let a = print_one(l);
                        return (EditUserState::Editing { opts, user, stage: EditStage::State, new_password: String::new() }, a);
                    } else {
                        let a = EditUserAction::UpdateEmail { user_id: user.id, email: e.clone() };
                        return (EditUserState::Editing { opts, user, stage: EditStage::EmailSent, new_password: String::new() }, a);
                    }
                },
                None => {},
            }
            advance(opts, user, EditStage::State)
        },
        EditStage::State => {
            match opts.state {
                Some(s) => {
                    if dry {
                        let mut l = concat("🔄 would update state: ", user_state_text(user.state));
                        l.append(" -> ");
                        l.append(user_state_text(s));
                        let a = print_one(l);
                        return (EditUserState::Editing { opts, user, stage: EditStage::Password, new_password: String::new() }, a);
                    } else {
                        let a = EditUserAction::UpdateState { user_id: user.id, state: s };
                        return (EditUserState::Editing { opts, user, stage: EditStage::StateSent, new_password: String::new() }, a);
                    }
                },
                None => {},
            }
            advance(opts, user, EditStage::Password)
        },
        EditStage::Password => {
            if opts.reset_password {
                if dry {
                    let a = print_one(String::from_str("🔑 would reset password (new password not generated in dry run)"));
                    return (EditUserState::Editing { opts, user, stage: EditStage::Rename, new_password: String::new() }, a);
                } else {
                    let pw = match generate_random_password() {
                        Some(p) => p,
                        None => return (EditUserState::Done, EditUserAction::Finish(Err(String::from_str("failed to generate a password")))),
                    };
                    let hash = match PasswordHash::new(pw.as_str()) {
                        Some(h) => h,
                        None => return (EditUserState::Done, EditUserAction::Finish(Err(String::from_str("failed to hash the new password")))),
                    };
                    let a = EditUserAction::UpdatePassword { user_id: user.id, hash };
                    return (EditUserState::Editing { opts, user, stage: EditStage::PasswordSent, new_password: pw }, a);
                }
            }
            advance(opts, user, EditStage::Rename)
        },
        EditStage::Rename => {
            match &opts.rename {
                Some(n) => {
                    let a = EditUserAction::Rename {
                        user_id: user.id,
                        old_username: user.username.clone(),
                        new_username: n.clone(),
                        dry_run: dry,
                    };
                    return (EditUserState::Editing { opts, user, stage: EditStage::RenameSent, new_password: String::new() }, a);
                },
                None => {},
            }
            advance(opts, user, EditStage::Wrapup)
        },
        _ => {
            let l = if dry {
                String::from_str("\n(dry run -- nothing was actually changed)")
            } else {
                String::from_str("\n✨ done!")
            };
            let a = print_one(l);
            (EditUserState::Editing { opts, user, stage: EditStage::Closing, new_password: String::new() }, a)
        },
    }
}

/// What `advance` does from `stage`: the first asked-for change at or after
/// it (a line in a dry run, the change otherwise; a rename is asked for in
/// both), or the closing line; the user and options are kept.
pub open spec fn advances(
    opts: EditUserOpts,
    user: UserEntry,
    stage: EditStage,
    r: (EditUserState, EditUserAction),
) -> bool {
    &&& !(opts.dry_run && changes(r.1))
    &&& r.1 is UpdateEmail ==> opts.email is Some && stage_rank(stage) <= 0
        && (r.1 matches EditUserAction::UpdateEmail { user_id, email } && user_id == user.id && email@
        == opts.email.unwrap()@)
    &&& r.1 is UpdateState ==> opts.state is Some && stage_rank(stage) <= 2
        && (r.1 matches EditUserAction::UpdateState { user_id, state } && user_id == user.id && state
        == opts.state.unwrap())
    &&& r.1 is UpdatePassword ==> opts.reset_password && stage_rank(stage) <= 4
        && (r.1 matches EditUserAction::UpdatePassword { user_id, .. } && user_id == user.id)
    &&& r.1 is Rename ==> opts.rename is Some && stage_rank(stage) <= 6
        && (r.1 matches EditUserAction::Rename { user_id, old_username, new_username, dry_run }
        && user_id == user.id && old_username@ == user.username@ && new_username@
        == opts.rename.unwrap()@ && dry_run == opts.dry_run)
    &&& r.1 is Finish ==> opts.reset_password && !opts.dry_run && r.0 is Done && stage_rank(stage) <= 4
    &&& !(r.1 is Finish) ==> (r.0 matches EditUserState::Editing { opts: o, user: u, stage: s, .. }
        && o == opts && u == user && stage_rank(s) > stage_rank(stage))
    &&& r.1 is LookUp ==> false
    &&& edit_wf(r.0)
    &&& (r.1 is Print && (r.0 matches EditUserState::Editing { stage: s, .. } && s == EditStage::State)) ==> (
    r.1 matches EditUserAction::Print(v) && strs(v@) == seq![
        "📧 would update email: "@ + user.email@ + " -> "@ + opts.email.unwrap()@,
    ])
    &&& (r.1 is Print && (r.0 matches EditUserState::Editing { stage: s, .. } && s == EditStage::Password))
        ==> (r.1 matches EditUserAction::Print(v) && strs(v@) == seq![
        "🔄 would update state: "@ + user_state_name(user.state) + " -> "@ + user_state_name(
            opts.state.unwrap(),
        ),
    ])
    &&& (r.1 is Print && (r.0 matches EditUserState::Editing { stage: s, .. } && s == EditStage::Rename)) ==> (
    r.1 matches EditUserAction::Print(v) && strs(v@) == seq![
        "🔑 would reset password (new password not generated in dry run)"@,
    ])
    &&& (r.0 matches EditUserState::Editing { stage: s, .. } && s == EditStage::Closing) ==> (
    r.1 matches EditUserAction::Print(v) && strs(v@) == seq![
        if opts.dry_run {
            "\n(dry run -- nothing was actually changed)"@
        } else {
            "\n✨ done!"@
        },
    ])
}

/// What one step of showing or editing a user does with the event.
pub open spec fn edit_step_spec(state: EditUserState, event: EditUserEvent, r: (EditUserState, EditUserAction)) -> bool {
    match (state, event) {
        (EditUserState::LookingUp { username, opts }, EditUserEvent::User(found)) => match found {
            Err(e) => r.0 is Done && (r.1 matches EditUserAction::Finish(Err(m)) && m@
                == "failed to look up user '"@ + username@ + "': "@ + e@),
            Ok(None) => r.0 is Done && (r.1 matches EditUserAction::Finish(Err(m)) && m@ == "user '"@
                + username@ + "' not found 💀"@),
            Ok(Some(u)) => if !has_changes(opts) {
                r.0 is Shown && (r.1 matches EditUserAction::Print(v) && strs(v@) == info_lines(
                    username@,
                    u,
                ))
            } else if opts.dry_run {
                (r.0 matches EditUserState::Editing { opts: o, user: w, stage, .. } && o == opts && w == u
                    && stage == EditStage::Email) && (r.1 matches EditUserAction::Print(v) && strs(v@)
                    == seq!["🧪 DRY RUN -- no changes will be made"@])
            } else {
                advances(opts, u, EditStage::Email, r)
            },
        },
        (EditUserState::Shown, EditUserEvent::Printed) => r.0 is Done && r.1 == EditUserAction::Finish(
            Ok(()),
        ),
        (EditUserState::Editing { opts, user, stage, new_password }, EditUserEvent::Printed) => match stage {
            EditStage::Closing => r.0 is Done && r.1 == EditUserAction::Finish(Ok(())),
            EditStage::Email | EditStage::State | EditStage::Password | EditStage::Rename
            | EditStage::Wrapup => advances(opts, user, stage, r),
            _ => r.0 is Done && (r.1 matches EditUserAction::Finish(Err(_))),
        },
        (EditUserState::Editing { opts, user, stage, new_password }, EditUserEvent::Updated(res)) => match stage {
            EditStage::EmailSent => match res {
                Err(e) => r.0 is Done && (r.1 matches EditUserAction::Finish(Err(m)) && m@
                    == "failed to update email: "@ + e@),
                Ok(()) => (r.0 matches EditUserState::Editing { opts: o, user: u, stage: s, .. } && o
                    == opts && u == user && s == EditStage::State) && (r.1 matches EditUserAction::Print(v)
                    && strs(v@) == seq![
                    "📧 updated email: "@ + user.email@ + " -> "@ + opts.email.unwrap()@,
                ]),
            },
            EditStage::StateSent => match res {
                Err(e) => r.0 is Done && (r.1 matches EditUserAction::Finish(Err(m)) && m@
                    == "failed to update state: "@ + e@),
                Ok(()) => (r.0 matches EditUserState::Editing { opts: o, user: u, stage: s, .. } && o
                    == opts && u == user && s == EditStage::Password) && (r.1 matches EditUserAction::Print(
                    v,
                ) && strs(v@) == seq![
                    "🔄 updated state: "@ + user_state_name(user.state) + " -> "@ + user_state_name(
                        opts.state.unwrap(),
                    ),
                ]),
            },
            EditStage::PasswordSent => match res {
                Err(e) => r.0 is Done && (r.1 matches EditUserAction::Finish(Err(m)) && m@
                    == "failed to reset password: "@ + e@),
                Ok(()) => (r.0 matches EditUserState::Editing { opts: o, user: u, stage: s, .. } && o
                    == opts && u == user && s == EditStage::Rename) && (r.1 matches EditUserAction::Print(v)
                    && strs(v@) == seq!["🔑 password reset! new password: "@ + new_password@]),
            },
            EditStage::RenameSent => match res {
                Err(e) => r.0 is Done && (r.1 matches EditUserAction::Finish(Err(m)) && m@ == e@),
                Ok(()) => advances(opts, user, EditStage::Wrapup, r),
            },
            _ => r.0 is Done && (r.1 matches EditUserAction::Finish(Err(_))),
        },
        _ => r.0 is Done && (r.1 matches EditUserAction::Finish(Err(_))),
    }
}

/// Whether the edit under way is a dry run.
pub open spec fn is_dry(s: EditUserState) -> bool {
    match s {
        EditUserState::LookingUp { opts, .. } => opts.dry_run,
        EditUserState::Editing { opts, .. } => opts.dry_run,
        _ => false,
    }
}

/// A dry run never asks for a change: no update of the email, state or
/// password, and a rename only as a dry run.
pub proof fn lemma_dry_run_edits_nothing(state: EditUserState, event: EditUserEvent, r: (EditUserState, EditUserAction))
    requires
        edit_wf(state),
        edit_step_spec(state, event, r),
        is_dry(state),
    ensures
        !changes(r.1),
{
}

/// The next step of showing or editing a user.
pub fn edit_user_step(state: EditUserState, event: EditUserEvent) -> (r: (EditUserState, EditUserAction))
    requires
        edit_wf(state),
    ensures
        edit_wf(r.0),
        edit_step_spec(state, event, r),
{
    match (state, event) {
        (EditUserState::LookingUp { username, opts }, EditUserEvent::User(found)) => match found {
            Err(e) => {
                let mut m = concat("failed to look up user '", username.as_str());
                m.append("': ");
                m.append(e.as_str());
                (EditUserState::Done, EditUserAction::Finish(Err(m)))
            },
            Ok(None) => {
                let mut m = concat("user '", username.as_str());
                m.append("' not found 💀");
                (EditUserState::Done, EditUserAction::Finish(Err(m)))
            },
            Ok(Some(u)) => {
                if !opts.has_changes() {
                    let mut v: Vec<String> = Vec::new();
                    let mut l0 = concat("📋 user info for '", username.as_str());
                    l0.append("':");
                    v.push(l0);
                    v.push(concat("  id:         ", uuid_text(u.id).as_str()));
                    v.push(concat("  username:   ", u.username.as_str()));
                    v.push(concat("  email:      ", u.email.as_str()));
                    v.push(concat("  state:      ", user_state_text(u.state)));
                    v.push(concat("  created_at: ", i64_to_decimal(u.created_at).as_str()));
                    let last = match u.last_login {
                        Some(t) => i64_to_decimal(t),
                        None => String::from_str("never"),
                    };
                    v.push(concat("  last_login: ", last.as_str()));
                    proof {
                        assert(strs(v@) =~= info_lines(username@, u));
                    }
                    (EditUserState::Shown, EditUserAction::Print(v))
                } else if opts.dry_run {
                    let a = print_one(String::from_str("🧪 DRY RUN -- no changes will be made"));
                    (EditUserState::Editing { opts, user: u, stage: EditStage::Email, new_password: String::new() }, a)
                } else {
                    advance(opts, u, EditStage::Email)
                }
            },
        },
        (EditUserState::Shown, EditUserEvent::Printed) => (EditUserState::Done, EditUserAction::Finish(Ok(()))),
        (EditUserState::Editing { opts, user, stage, new_password }, EditUserEvent::Printed) => match stage {
            EditStage::Closing => (EditUserState::Done, EditUserAction::Finish(Ok(()))),
            EditStage::Email | EditStage::State | EditStage::Password | EditStage::Rename | EditStage::Wrapup => {
                advance(opts, user, stage)
            },
            _ => (EditUserState::Done, EditUserAction::Finish(Err(String::from_str("unexpected event")))),
        },
        (EditUserState::Editing { opts, user, stage, new_password }, EditUserEvent::Updated(res)) => match stage {
            EditStage::EmailSent => match res {
                Err(e) => (EditUserState::Done, EditUserAction::Finish(Err(concat("failed to update email: ", e.as_str())))),
                Ok(()) => {
                    let new_email = match &opts.email {
                        Some(e) => e.clone(),
                        None => String::new(),
                    };
                    let mut l = concat("📧 updated email: ", user.email.as_str());
                    l.append(" -> ");
                    l.append(new_email.as_str());
                    let a = print_one(l);
                    (EditUserState::Editing { opts, user, stage: EditStage::State, new_password }, a)
                },
            },
            EditStage::StateSent => match res {
                Err(e) => (EditUserState::Done, EditUserAction::Finish(Err(concat("failed to update state: ", e.as_str())))),
                Ok(()) => {
                    let new_state = match opts.state {
                        Some(s) => s,
                        None => user.state,
                    };
                    let mut l = concat("🔄 updated state: ", user_state_text(user.state));
                    l.append(" -> ");
                    l.append(user_state_text(new_state));
                    let a = print_one(l);
                    (EditUserState::Editing { opts, user, stage: EditStage::Password, new_password }, a)
                },
            },
            EditStage::PasswordSent => match res {
                Err(e) => (EditUserState::Done, EditUserAction::Finish(Err(concat("failed to reset password: ", e.as_str())))),
                Ok(()) => {
                    let a = print_one(concat("🔑 password reset! new password: ", new_password.as_str()));
                    (EditUserState::Editing { opts, user, stage: EditStage::Rename, new_password }, a)
                },
            },
            EditStage::RenameSent => match res {
                Err(e) => (EditUserState::Done, EditUserAction::Finish(Err(e))),
                Ok(()) => advance(opts, user, EditStage::Wrapup),
            },
            _ => (EditUserState::Done, EditUserAction::Finish(Err(String::from_str("unexpected event")))),
        },
        _ => (EditUserState::Done, EditUserAction::Finish(Err(String::from_str("unexpected event")))),
    }
}

} // verus!
