//! The DNS record API as step functions: each takes what the last outside
//! call returned and says what to do next. Adding and updating go to the DNS
//! provider first and then to the database; deleting goes the other way.
//! A provider record whose database entry could not be stored is removed
//! again.

use vstd::prelude::*;
use crate::dns::record::{Record, RecordView};
use crate::dns::{key_text, parse_key, Key, KeyView};
use crate::server::error::AppError;
use crate::server::names::{
    invalid_name_message, not_owned_message, owns_name, user_root, validate_record_for_user,
    PublicSuffix,
};
use crate::text::concat;
use crate::user_database::DnsRecordId;
use crate::validation::dns_name_errors;

verus! {

/// Whether a record name may be used by a user: well formed and under the
/// user's own name.
pub open spec fn record_name_accepted(name: Seq<char>, username: Seq<char>, suffix: Seq<char>) -> bool {
    dns_name_errors(name).len() == 0 && owns_name(name, username, suffix)
}

/// The refusal of a record name that is not accepted.
pub open spec fn record_name_refusal(name: Seq<char>, username: Seq<char>, suffix: Seq<char>) -> Seq<char> {
    if dns_name_errors(name).len() != 0 {
        invalid_name_message(name)
    } else {
        not_owned_message(user_root(username, suffix))
    }
}

pub open spec fn is_error(r: &AppError, status: u16, message: Seq<char>) -> bool {
    r.status == status && r.message@ == message
}


pub open spec fn opt_text(o: Option<String>) -> Option<Seq<char>> {
    match o {
        Some(s) => Some(s@),
        None => None,
    }
}

/// An answer with an error of this status and message, logged as given.
pub open spec fn add_refused(a: AddAction, status: u16, message: Seq<char>, log: Option<Seq<char>>) -> bool {
    match a {
        AddAction::Reply { result: Err(e), log_error } => is_error(&e, status, message) && opt_text(log_error) == log,
        _ => false,
    }
}

pub open spec fn delete_refused(a: DeleteAction, status: u16, message: Seq<char>, log: Option<Seq<char>>) -> bool {
    match a {
        DeleteAction::Reply { result: Err(e), log_error } => is_error(&e, status, message) && opt_text(log_error) == log,
        _ => false,
    }
}

pub open spec fn update_refused(a: UpdateAction, status: u16, message: Seq<char>, log: Option<Seq<char>>) -> bool {
    match a {
        UpdateAction::Reply { result: Err(e), log_error } => is_error(&e, status, message) && opt_text(log_error) == log,
        _ => false,
    }
}

// ---------------------------------------------------------------- adding

/// Where an add request stands.
pub enum AddState {
    /// Waiting for the provider to create the record.
    AwaitingDns { user_id: u128, record: Record },
    /// Waiting for the database to store the record under the provider key.
    AwaitingDatabase { key: Key },
    /// Waiting for the provider record to be removed again.
    AwaitingRollback { error: String },
    Done,
}

/// What the add flow asks to be done next.
pub enum AddAction {
    AddToDns(Record),
    AddToDatabase { user_id: u128, record: Record, provider_key: String },
    RemoveFromDns(Key),
    /// The answer: the status (201 Created) and the new record's id, or an
    /// error.
    Reply { result: Result<(u16, DnsRecordId), AppError>, log_error: Option<String> },
}

/// What came back from the last outside call.
pub enum AddEvent {
    DnsAdded(Key),
    DnsFailed(String),
    DatabaseAdded(DnsRecordId),
    DatabaseFailed(String),
    RollbackDone,
    RollbackFailed(String),
}

pub open spec fn add_event_fits(s: AddState, e: AddEvent) -> bool {
    match s {
        AddState::AwaitingDns { .. } => e is DnsAdded || e is DnsFailed,
        AddState::AwaitingDatabase { .. } => e is DatabaseAdded || e is DatabaseFailed,
        AddState::AwaitingRollback { .. } => e is RollbackDone || e is RollbackFailed,
        AddState::Done => false,
    }
}

/// Starts adding a record for a user: a refused name is answered at once,
/// else the record goes to the provider.
pub fn add_record_start(username: &str, user_id: u128, suffix: &PublicSuffix, record: Record) -> (r: (
    AddState,
    AddAction,
))
    ensures
        record_name_accepted(record.name@, username@, suffix@) ==> ({
            &&& r.1 matches AddAction::AddToDns(x) && x@ == record@
            &&& r.0 matches AddState::AwaitingDns { user_id: u, record: y } && u == user_id && y@ == record@
        }),
        !record_name_accepted(record.name@, username@, suffix@) ==> r.0 is Done && add_refused(
            r.1,
            400,
            record_name_refusal(record.name@, username@, suffix@),
            None,
        ),
{
    match validate_record_for_user(record.name.as_str(), username, suffix) {
        Err(e) => (AddState::Done, AddAction::Reply { result: Err(e), log_error: None }),
        Ok(()) => {
            let copy = record.clone();
            (AddState::AwaitingDns { user_id, record }, AddAction::AddToDns(copy))
        },
    }
}

/// The next step of an add request.
pub fn add_record_step(state: AddState, event: AddEvent) -> (r: (AddState, AddAction))
    requires
        add_event_fits(state, event),
    ensures
        match (state, event) {
            (AddState::AwaitingDns { user_id, record }, AddEvent::DnsAdded(key)) => {
                &&& r.0 matches AddState::AwaitingDatabase { key: k } && k@ == key@
                &&& r.1 matches AddAction::AddToDatabase { user_id: u, record: x, provider_key: p } && u == user_id
                    && x@ == record@ && p@ == key_text(key@)
            },
            (AddState::AwaitingDns { .. }, AddEvent::DnsFailed(e)) => r.0 is Done && add_refused(
                r.1,
                502,
                "Failed to add record to DNS provider: "@ + e@,
                None,
            ),
            (AddState::AwaitingDatabase { .. }, AddEvent::DatabaseAdded(id)) => {
                &&& r.0 is Done
                &&& r.1 matches AddAction::Reply { result: Ok((st, i)), log_error: None } && st == 201 && i == id
            },
            (AddState::AwaitingDatabase { key }, AddEvent::DatabaseFailed(e)) => {
                &&& r.0 matches AddState::AwaitingRollback { error: x } && x@ == e@
                &&& r.1 matches AddAction::RemoveFromDns(k) && k@ == key@
            },
            (AddState::AwaitingRollback { error }, AddEvent::RollbackDone) => r.0 is Done && add_refused(
                r.1,
                500,
                "Failed to add record to database: "@ + error@,
                None,
            ),
            (AddState::AwaitingRollback { error }, AddEvent::RollbackFailed(e)) => r.0 is Done && add_refused(
                r.1,
                500,
                "Failed to add record to database: "@ + error@,
                Some("Failed to rollback DNS record: "@ + e@),
            ),
            _ => false,
        },
{
    match (state, event) {
        (AddState::AwaitingDns { user_id, record }, AddEvent::DnsAdded(key)) => {
            let provider_key = key.to_text();
            (AddState::AwaitingDatabase { key }, AddAction::AddToDatabase { user_id, record, provider_key })
        },
        (AddState::AwaitingDns { .. }, AddEvent::DnsFailed(e)) => {
            let m = concat("Failed to add record to DNS provider: ", e.as_str());
            (AddState::Done, AddAction::Reply { result: Err(AppError::with_message(502, m)), log_error: None })
        },
        (AddState::AwaitingDatabase { .. }, AddEvent::DatabaseAdded(id)) => {
            (AddState::Done, AddAction::Reply { result: Ok((201, id)), log_error: None })
        },
        (AddState::AwaitingDatabase { key }, AddEvent::DatabaseFailed(e)) => {
            (AddState::AwaitingRollback { error: e }, AddAction::RemoveFromDns(key))
        },
        (AddState::AwaitingRollback { error }, AddEvent::RollbackDone) => {
            let m = concat("Failed to add record to database: ", error.as_str());
            (AddState::Done, AddAction::Reply { result: Err(AppError::with_message(500, m)), log_error: None })
        },
        (AddState::AwaitingRollback { error }, AddEvent::RollbackFailed(e)) => {
            let m = concat("Failed to add record to database: ", error.as_str());
            let l = concat("Failed to rollback DNS record: ", e.as_str());
            (AddState::Done, AddAction::Reply { result: Err(AppError::with_message(500, m)), log_error: Some(l) })
        },
        _ => {
            proof {
                assert(false);
            }
            (AddState::Done, AddAction::Reply { result: Err(AppError::internal_error(String::new())), log_error: None })
        },
    }
}

// -------------------------------------------------------------- deleting

/// Where a delete request stands.
pub enum DeleteState {
    AwaitingKey { user_id: u128, record_id: DnsRecordId },
    AwaitingDatabase { key: Key },
    AwaitingDns,
    Done,
}

/// What the delete flow asks to be done next.
pub enum DeleteAction {
    GetProviderKey { user_id: u128, record_id: DnsRecordId },
    DeleteFromDatabase { user_id: u128, record_id: DnsRecordId },
    DeleteFromDns(Key),
    /// Answer: `Ok(204)` or an error.
    Reply { result: Result<u16, AppError>, log_error: Option<String> },
}

pub enum DeleteEvent {
    ProviderKey(String),
    KeyNotFound(String),
    DatabaseDeleted,
    DatabaseFailed(String),
    DnsDeleted,
    DnsFailed(String),
}

pub open spec fn delete_event_fits(s: DeleteState, e: DeleteEvent) -> bool {
    match s {
        DeleteState::AwaitingKey { .. } => e is ProviderKey || e is KeyNotFound,
        DeleteState::AwaitingDatabase { .. } => e is DatabaseDeleted || e is DatabaseFailed,
        DeleteState::AwaitingDns => e is DnsDeleted || e is DnsFailed,
        DeleteState::Done => false,
    }
}

/// Starts deleting a record of a user: its provider key is looked up first.
pub fn delete_record_start(user_id: u128, record_id: DnsRecordId) -> (r: (DeleteState, DeleteAction))
    ensures
        r.0 == (DeleteState::AwaitingKey { user_id, record_id }),
        r.1 == (DeleteAction::GetProviderKey { user_id, record_id }),
{
    (DeleteState::AwaitingKey { user_id, record_id }, DeleteAction::GetProviderKey { user_id, record_id })
}

/// The next step of a delete request.
pub fn delete_record_step(state: DeleteState, event: DeleteEvent) -> (r: (DeleteState, DeleteAction))
    requires
        delete_event_fits(state, event),
    ensures
        match (state, event) {
            (DeleteState::AwaitingKey { user_id, record_id }, DeleteEvent::ProviderKey(text)) => match parse_key(text@) {
                Ok(k) => {
                    &&& r.0 matches DeleteState::AwaitingDatabase { key } && key@ == k
                    &&& r.1 == (DeleteAction::DeleteFromDatabase { user_id, record_id })
                },
                Err(m) => r.0 is Done && delete_refused(r.1, 500, "Failed to parse provider key: "@ + m, None),
            },
            (DeleteState::AwaitingKey { .. }, DeleteEvent::KeyNotFound(e)) => r.0 is Done && delete_refused(
                r.1,
                404,
                "Record not found: "@ + e@,
                None,
            ),
            (DeleteState::AwaitingDatabase { key }, DeleteEvent::DatabaseDeleted) => {
                &&& r.0 is AwaitingDns
                &&& r.1 matches DeleteAction::DeleteFromDns(k) && k@ == key@
            },
            (DeleteState::AwaitingDatabase { .. }, DeleteEvent::DatabaseFailed(e)) => r.0 is Done && delete_refused(
                r.1,
                500,
                "Failed to delete record from database: "@ + e@,
                None,
            ),
            (DeleteState::AwaitingDns, DeleteEvent::DnsDeleted) => {
                &&& r.0 is Done
                &&& r.1 matches DeleteAction::Reply { result: Ok(s), log_error: None } && s == 204
            },
            (DeleteState::AwaitingDns, DeleteEvent::DnsFailed(e)) => r.0 is Done && delete_refused(
                r.1,
                502,
                "Failed to delete record from DNS provider: "@ + e@,
                Some("Failed to delete from DNS provider: "@ + e@),
            ),
            _ => false,
        },
{
    match (state, event) {
        (DeleteState::AwaitingKey { user_id, record_id }, DeleteEvent::ProviderKey(text)) => {
            match Key::parse(text.as_str()) {
                Ok(key) => (DeleteState::AwaitingDatabase { key }, DeleteAction::DeleteFromDatabase { user_id, record_id }),
                Err(m) => {
                    let msg = concat("Failed to parse provider key: ", m.as_str());
                    (DeleteState::Done, DeleteAction::Reply { result: Err(AppError::with_message(500, msg)), log_error: None })
                },
            }
        },
        (DeleteState::AwaitingKey { .. }, DeleteEvent::KeyNotFound(e)) => {
            let msg = concat("Record not found: ", e.as_str());
            (DeleteState::Done, DeleteAction::Reply { result: Err(AppError::with_message(404, msg)), log_error: None })
        },
        (DeleteState::AwaitingDatabase { key }, DeleteEvent::DatabaseDeleted) => {
            (DeleteState::AwaitingDns, DeleteAction::DeleteFromDns(key))
        },
        (DeleteState::AwaitingDatabase { .. }, DeleteEvent::DatabaseFailed(e)) => {
            let msg = concat("Failed to delete record from database: ", e.as_str());
            (DeleteState::Done, DeleteAction::Reply { result: Err(AppError::with_message(500, msg)), log_error: None })
        },
        (DeleteState::AwaitingDns, DeleteEvent::DnsDeleted) => {
            (DeleteState::Done, DeleteAction::Reply { result: Ok(204), log_error: None })
        },
        (DeleteState::AwaitingDns, DeleteEvent::DnsFailed(e)) => {
            let msg = concat("Failed to delete record from DNS provider: ", e.as_str());
            let l = concat("Failed to delete from DNS provider: ", e.as_str());
            (DeleteState::Done, DeleteAction::Reply { result: Err(AppError::with_message(502, msg)), log_error: Some(l) })
        },
        _ => {
            proof {
                assert(false);
            }
            (DeleteState::Done, DeleteAction::Reply { result: Err(AppError::internal_error(String::new())), log_error: None })
        },
    }
}

// -------------------------------------------------------------- updating

/// Where an update request stands.
pub enum UpdateState {
    AwaitingKey { user_id: u128, record_id: DnsRecordId, content: Record },
    AwaitingDns { user_id: u128, record_id: DnsRecordId, content: Record },
    AwaitingDatabase,
    Done,
}

/// What the update flow asks to be done next.
pub enum UpdateAction {
    GetProviderKey { user_id: u128, record_id: DnsRecordId },
    UpdateAtDns { key: Key, content: Record },
    UpdateInDatabase { user_id: u128, record_id: DnsRecordId, content: Record },
    /// Answer: `Ok(204)` or an error.
    Reply { result: Result<u16, AppError>, log_error: Option<String> },
}

pub enum UpdateEvent {
    ProviderKey(String),
    KeyNotFound(String),
    DnsUpdated,
    DnsFailed(String),
    DatabaseUpdated,
    DatabaseFailed(String),
}

pub open spec fn update_event_fits(s: UpdateState, e: UpdateEvent) -> bool {
    match s {
        UpdateState::AwaitingKey { .. } => e is ProviderKey || e is KeyNotFound,
        UpdateState::AwaitingDns { .. } => e is DnsUpdated || e is DnsFailed,
        UpdateState::AwaitingDatabase => e is DatabaseUpdated || e is DatabaseFailed,
        UpdateState::Done => false,
    }
}

/// Starts updating a record of a user: a refused name is answered at once,
/// else the record's provider key is looked up.
pub fn update_record_start(
    username: &str,
    user_id: u128,
    suffix: &PublicSuffix,
    record_id: DnsRecordId,
    content: Record,
) -> (r: (UpdateState, UpdateAction))
    ensures
        record_name_accepted(content.name@, username@, suffix@) ==> ({
            &&& r.0 matches UpdateState::AwaitingKey { user_id: u, record_id: i, content: c } && u == user_id
                && i == record_id && c@ == content@
            &&& r.1 == (UpdateAction::GetProviderKey { user_id, record_id })
        }),
        !record_name_accepted(content.name@, username@, suffix@) ==> r.0 is Done && update_refused(
            r.1,
            400,
            record_name_refusal(content.name@, username@, suffix@),
            None,
        ),
{
    match validate_record_for_user(content.name.as_str(), username, suffix) {
        Err(e) => (UpdateState::Done, UpdateAction::Reply { result: Err(e), log_error: None }),
        Ok(()) => (
            UpdateState::AwaitingKey { user_id, record_id, content },
            UpdateAction::GetProviderKey { user_id, record_id },
        ),
    }
}

/// The next step of an update request.
pub fn update_record_step(state: UpdateState, event: UpdateEvent) -> (r: (UpdateState, UpdateAction))
    requires
        update_event_fits(state, event),
    ensures
        match (state, event) {
            (UpdateState::AwaitingKey { user_id, record_id, content }, UpdateEvent::ProviderKey(text)) => match parse_key(text@) {
                Ok(k) => {
                    &&& r.0 matches UpdateState::AwaitingDns { user_id: u, record_id: i, content: c } && u == user_id
                        && i == record_id && c@ == content@
                    &&& r.1 matches UpdateAction::UpdateAtDns { key, content: x } && key@ == k && x@ == content@
                },
                Err(m) => r.0 is Done && update_refused(r.1, 500, "Failed to parse provider key: "@ + m, None),
            },
            (UpdateState::AwaitingKey { .. }, UpdateEvent::KeyNotFound(e)) => r.0 is Done && update_refused(
                r.1,
                404,
                "Record not found: "@ + e@,
                None,
            ),
            (UpdateState::AwaitingDns { user_id, record_id, content }, UpdateEvent::DnsUpdated) => {
                &&& r.0 is AwaitingDatabase
                &&& r.1 matches UpdateAction::UpdateInDatabase { user_id: u, record_id: i, content: c } && u == user_id
                    && i == record_id && c@ == content@
            },
            (UpdateState::AwaitingDns { .. }, UpdateEvent::DnsFailed(e)) => r.0 is Done && update_refused(
                r.1,
                502,
                "Failed to update record in DNS provider: "@ + e@,
                None,
            ),
            (UpdateState::AwaitingDatabase, UpdateEvent::DatabaseUpdated) => {
                &&& r.0 is Done
                &&& r.1 matches UpdateAction::Reply { result: Ok(s), log_error: None } && s == 204
            },
            (UpdateState::AwaitingDatabase, UpdateEvent::DatabaseFailed(e)) => r.0 is Done && update_refused(
                r.1,
                500,
                "Failed to update record in database: "@ + e@,
                Some("Failed to update record in database: "@ + e@),
            ),
            _ => false,
        },
{
    match (state, event) {
        (UpdateState::AwaitingKey { user_id, record_id, content }, UpdateEvent::ProviderKey(text)) => {
            match Key::parse(text.as_str()) {
                Ok(key) => {
                    let copy = content.clone();
                    (UpdateState::AwaitingDns { user_id, record_id, content }, UpdateAction::UpdateAtDns { key, content: copy })
                },
                Err(m) => {
                    let msg = concat("Failed to parse provider key: ", m.as_str());
                    (UpdateState::Done, UpdateAction::Reply { result: Err(AppError::with_message(500, msg)), log_error: None })
                },
            }
        },
        (UpdateState::AwaitingKey { .. }, UpdateEvent::KeyNotFound(e)) => {
            let msg = concat("Record not found: ", e.as_str());
            (UpdateState::Done, UpdateAction::Reply { result: Err(AppError::with_message(404, msg)), log_error: None })
        },
        (UpdateState::AwaitingDns { user_id, record_id, content }, UpdateEvent::DnsUpdated) => {
            (UpdateState::AwaitingDatabase, UpdateAction::UpdateInDatabase { user_id, record_id, content })
        },
        (UpdateState::AwaitingDns { .. }, UpdateEvent::DnsFailed(e)) => {
            let msg = concat("Failed to update record in DNS provider: ", e.as_str());
            (UpdateState::Done, UpdateAction::Reply { result: Err(AppError::with_message(502, msg)), log_error: None })
        },
        (UpdateState::AwaitingDatabase, UpdateEvent::DatabaseUpdated) => {
            (UpdateState::Done, UpdateAction::Reply { result: Ok(204), log_error: None })
        },
        (UpdateState::AwaitingDatabase, UpdateEvent::DatabaseFailed(e)) => {
            let msg = concat("Failed to update record in database: ", e.as_str());
            let l = concat("Failed to update record in database: ", e.as_str());
            (UpdateState::Done, UpdateAction::Reply { result: Err(AppError::with_message(500, msg)), log_error: Some(l) })
        },
        _ => {
            proof {
                assert(false);
            }
            (UpdateState::Done, UpdateAction::Reply { result: Err(AppError::internal_error(String::new())), log_error: None })
        },
    }
}

} // verus!
