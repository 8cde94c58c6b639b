//! Renaming a user, as step functions: the username is changed in the
//! database, then each DNS record is moved to the new name (the provider
//! cannot rename, so a new record is added and the old one deleted). Each
//! outside call that fails is retried after 1, 2 and 4 seconds.

use vstd::prelude::*;
use crate::dns::record::{Record, RecordView};
use crate::dns::{key_text, parse_key, Key, KeyView};
use crate::server::names::{rename_record_name, renamed_name, PublicSuffix};
use crate::text::{concat, join_seq, join_strs};
use crate::user_database::{DatabaseDnsRecord, DatabaseDnsRecordView, DnsRecordId, UserState};
use crate::validation::{username_errors, validate_username};

verus! {

/// What to change of a user; without any change the user is shown.
pub struct EditUserOpts {
    pub email: Option<String>,
    pub state: Option<UserState>,
    pub reset_password: bool,
    pub rename: Option<String>,
    pub dry_run: bool,
}

impl EditUserOpts {
    pub fn has_changes(&self) -> (r: bool)
        ensures
            r == (self.email is Some || self.state is Some || self.reset_password || self.rename is Some),
    {
        self.email.is_some() || self.state.is_some() || self.reset_password || self.rename.is_some()
    }
}

pub open spec fn strs(v: Seq<String>) -> Seq<Seq<char>> {
    v.map_values(|s: String| s@)
}

/// How many times a failed call is retried.
pub const MAX_RETRIES: usize = 3;

/// The wait in seconds before retry `i` (0-based): exponential backoff,
/// 1, 2 and 4 seconds.
pub open spec fn backoff(i: int) -> u64 {
    if i == 0 {
        1
    } else if i == 1 {
        2
    } else {
        4
    }
}

pub fn backoff_secs(i: usize) -> (r: u64)
    requires
        i < MAX_RETRIES,
    ensures
        r == backoff(i as int),
{
    if i == 0 {
        1
    } else if i == 1 {
        2
    } else {
        4
    }
}

/// A record moved to the new username.
pub open spec fn renamed_record(r: RecordView, old: Seq<char>, new: Seq<char>, suffix: Seq<char>) -> RecordView {
    RecordView { name: renamed_name(r.name, old, new, suffix), ..r }
}

/// A rename under way: the records to move and what became of those done.
pub struct RenameJob {
    pub user_id: u128,
    pub old_username: String,
    pub new_username: String,
    pub suffix: PublicSuffix,
    pub records: Vec<DatabaseDnsRecord>,
    /// The record being moved.
    pub index: usize,
    /// Records moved (possibly leaving the old one behind).
    pub succeeded: u32,
    /// Records that could not be moved.
    pub failed: u32,
    /// Old or new records left at the provider without bookkeeping.
    pub dangling_old: u32,
    /// The new names of the records that could not be moved.
    pub failed_names: Vec<String>,
}

impl RenameJob {
    pub open spec fn wf_core(&self) -> bool {
        &&& self.index <= self.records@.len() <= u32::MAX
        &&& self.succeeded + self.failed == self.index
        &&& self.failed_names@.len() == self.failed
    }

    pub open spec fn wf(&self) -> bool {
        self.wf_core() && self.dangling_old <= self.index
    }

    /// The record being moved, under its new name.
    pub open spec fn target(&self) -> RecordView {
        renamed_record(self.records@[self.index as int].record@, self.old_username@, self.new_username@, self.suffix@)
    }

    /// The counts, unchanged but for what is given.
    pub open spec fn same_but(&self, other: RenameJob) -> bool {
        &&& other.user_id == self.user_id
        &&& other.old_username@ == self.old_username@
        &&& other.new_username@ == self.new_username@
        &&& other.suffix@ == self.suffix@
        &&& other.records@ == self.records@
    }
}

/// Where a rename stands.
pub enum RenameState {
    AwaitingAvailability { job: RenameJob, dry_run: bool },
    AwaitingRecords { job: RenameJob, dry_run: bool },
    AwaitingUsername { job: RenameJob },
    /// Adding the record under its new name at the provider.
    Adding { job: RenameJob, new_record: Record, attempt: usize },
    /// Storing the new record in the database.
    Tracking { job: RenameJob, new_record: Record, key: Key, attempt: usize },
    /// Removing the new provider record the database could not store.
    RollingBack { job: RenameJob, new_record: Record },
    /// Deleting the old record at the provider.
    DeletingOld { job: RenameJob, new_record: Record, old_key: Key, attempt: usize },
    /// Deleting the old record from the database.
    CleaningUp { job: RenameJob, new_record: Record, attempt: usize },
    Done,
}

/// What a finished rename reports.
pub struct RenameReport {
    /// For a dry run: each record's name and the name it would get.
    pub planned: Vec<(String, String)>,
    pub succeeded: u32,
    pub failed: u32,
    pub dangling_old: u32,
    pub failed_names: Vec<String>,
}

/// What the rename asks to be done next. `wait_secs` is a pause before the
/// call (0 on a first attempt).
pub enum RenameAction {
    CheckAvailable(String),
    FetchRecords(u128),
    UpdateUsername { user_id: u128, new_username: String },
    AddUpstream { record: Record, wait_secs: u64 },
    AddToDatabase { user_id: u128, record: Record, provider_key: String, wait_secs: u64 },
    RollbackUpstream(Key),
    DeleteOldUpstream { key: Key, wait_secs: u64 },
    DeleteOldFromDatabase { user_id: u128, record_id: DnsRecordId, wait_secs: u64 },
    Finish(Result<RenameReport, String>),
}

/// What came back from the last outside call.
pub enum RenameEvent {
    Availability(bool),
    Records(Result<Vec<DatabaseDnsRecord>, String>),
    UsernameUpdated(Result<(), String>),
    Upstreamed(Result<Key, String>),
    Stored(Result<DnsRecordId, String>),
    RolledBack(Result<(), String>),
    OldUpstreamDeleted(Result<(), String>),
    OldDatabaseDeleted(Result<(), String>),
}

/// The states of a rename keep its bookkeeping consistent; while moving a
/// record, the record is one of the job's and `new_record` is it renamed.
pub open spec fn rename_wf(s: RenameState) -> bool {
    match s {
        RenameState::AwaitingAvailability { job, .. } => job.index == 0 && job.succeeded == 0 && job.failed == 0
            && job.dangling_old == 0 && job.failed_names@.len() == 0,
        RenameState::AwaitingRecords { job, .. } => job.index == 0 && job.succeeded == 0 && job.failed == 0
            && job.dangling_old == 0 && job.failed_names@.len() == 0,
        RenameState::AwaitingUsername { job } => job.wf() && job.index == 0,
        RenameState::Adding { job, new_record, attempt } => job.wf() && job.index < job.records@.len()
            && new_record@ == job.target() && attempt <= MAX_RETRIES,
        RenameState::Tracking { job, new_record, attempt, .. } => job.wf() && job.index < job.records@.len()
            && new_record@ == job.target() && attempt <= MAX_RETRIES,
        RenameState::RollingBack { job, new_record } => job.wf() && job.index < job.records@.len()
            && new_record@ == job.target(),
        RenameState::DeletingOld { job, new_record, attempt, .. } => job.wf() && job.index < job.records@.len()
            && new_record@ == job.target() && attempt <= MAX_RETRIES && job.dangling_old <= job.index,
        RenameState::CleaningUp { job, new_record, attempt } => job.wf_core() && job.index < job.records@.len()
            && new_record@ == job.target() && attempt <= MAX_RETRIES && job.dangling_old <= job.index + 1,
        RenameState::Done => true,
    }
}

pub open spec fn rename_event_fits(s: RenameState, e: RenameEvent) -> bool {
    match s {
        RenameState::AwaitingAvailability { .. } => e is Availability,
        RenameState::AwaitingRecords { .. } => match e {
            RenameEvent::Records(Ok(v)) => v@.len() <= u32::MAX,
            RenameEvent::Records(Err(_)) => true,
            _ => false,
        },
        RenameState::AwaitingUsername { .. } => e is UsernameUpdated,
        RenameState::Adding { .. } => e is Upstreamed,
        RenameState::Tracking { .. } => e is Stored,
        RenameState::RollingBack { .. } => e is RolledBack,
        RenameState::DeletingOld { .. } => e is OldUpstreamDeleted,
        RenameState::CleaningUp { .. } => e is OldDatabaseDeleted,
        RenameState::Done => false,
    }
}

/// The message of an invalid new username.
pub open spec fn invalid_username_message(new: Seq<char>) -> Seq<char> {
    "username '"@ + new + "' is invalid: "@ + join_seq(username_errors(new), ", "@)
}

/// Starts renaming a user: an invalid new name is refused at once, else its
/// availability is checked.
pub fn rename_start(
    user_id: u128,
    old_username: String,
    new_username: String,
    suffix: PublicSuffix,
    dry_run: bool,
) -> (r: (RenameState, RenameAction))
    ensures
        rename_wf(r.0),
        username_errors(new_username@).len() != 0 ==> r.0 is Done && (r.1 matches RenameAction::Finish(Err(m))
            && m@ == invalid_username_message(new_username@)),
        username_errors(new_username@).len() == 0 ==> ({
            &&& r.0 matches RenameState::AwaitingAvailability { job, dry_run: d } && d == dry_run
                && job.user_id == user_id && job.old_username@ == old_username@ && job.new_username@
                == new_username@ && job.suffix@ == suffix@
            &&& r.1 matches RenameAction::CheckAvailable(n) && n@ == new_username@
        }),
{
    let validation = validate_username(new_username.as_str());
    if !validation.is_valid() {
        let mut m = concat("username '", new_username.as_str());
        m.append("' is invalid: ");
        m.append(join_strs(validation.errors(), ", ").as_str());
        return (RenameState::Done, RenameAction::Finish(Err(m)));
    }
    let n = new_username.clone();
    let job = RenameJob {
        user_id,
        old_username,
        new_username,
        suffix,
        records: Vec::new(),
        index: 0,
        succeeded: 0,
        failed: 0,
        dangling_old: 0,
        failed_names: Vec::new(),
    };
    (RenameState::AwaitingAvailability { job, dry_run }, RenameAction::CheckAvailable(n))
}

fn renamed_copy(job: &RenameJob) -> (r: Record)
    requires
        job.index < job.records@.len(),
    ensures
        r@ == job.target(),
{
    let rec = &job.records[job.index].record;
    let mut r = rec.clone();
    r.name = rename_record_name(rec.name.as_str(), job.old_username.as_str(), job.new_username.as_str(), &job.suffix);
    r
}

fn report_of(job: RenameJob) -> (r: RenameReport)
    ensures
        r.planned@.len() == 0,
        r.succeeded == job.succeeded,
        r.failed == job.failed,
        r.dangling_old == job.dangling_old,
        r.failed_names@ == job.failed_names@,
{
    RenameReport {
        planned: Vec::new(),
        succeeded: job.succeeded,
        failed: job.failed,
        dangling_old: job.dangling_old,
        failed_names: job.failed_names,
    }
}

/// Moves on to the next record, or finishes after the last.
fn next_record(job: RenameJob) -> (r: (RenameState, RenameAction))
    requires
        job.wf(),
    ensures
        rename_wf(r.0),
        job.index < job.records@.len() ==> ({
            &&& r.0 matches RenameState::Adding { job: j, new_record, attempt } && attempt == 0 && job.same_but(j)
                && j.index == job.index && j.succeeded == job.succeeded && j.failed == job.failed
                && j.dangling_old == job.dangling_old && j.failed_names@ == job.failed_names@
            &&& r.1 matches RenameAction::AddUpstream { record, wait_secs } && wait_secs == 0 && record@ == job.target()
        }),
        job.index == job.records@.len() ==> r.0 is Done && (r.1 matches RenameAction::Finish(Ok(rep))
            && rep.succeeded == job.succeeded && rep.failed == job.failed && rep.dangling_old == job.dangling_old
            && rep.failed_names@ == job.failed_names@ && rep.planned@.len() == 0),
{
    if job.index < job.records.len() {
        let new_record = renamed_copy(&job);
        let copy = new_record.clone();
        (RenameState::Adding { job, new_record, attempt: 0 }, RenameAction::AddUpstream { record: copy, wait_secs: 0 })
    } else {
        (RenameState::Done, RenameAction::Finish(Ok(report_of(job))))
    }
}

/// What follows a record: the next record (first attempt of adding it at
/// the provider), or the report after the last one, with the given counts.
pub open spec fn continues(
    job: RenameJob,
    succeeded: int,
    failed: int,
    dangling: int,
    names: Seq<Seq<char>>,
    r: (RenameState, RenameAction),
) -> bool {
    let i = job.index + 1;
    if i < job.records@.len() {
        (r.0 matches RenameState::Adding { job: k, attempt, .. } && attempt == 0 && k.index == i && k.succeeded
            == succeeded && k.failed == failed && k.dangling_old == dangling && strs(k.failed_names@) == names
            && job.same_but(k)) && (r.1 matches RenameAction::AddUpstream { record, wait_secs } && wait_secs == 0
            && record@ == renamed_record(job.records@[i].record@, job.old_username@, job.new_username@, job.suffix@))
    } else {
        r.0 is Done && (r.1 matches RenameAction::Finish(Ok(rep)) && rep.succeeded == succeeded && rep.failed
            == failed && rep.dangling_old == dangling && strs(rep.failed_names@) == names && rep.planned@.len() == 0)
    }
}

/// The record could not be moved: counted, its new name kept, and on to
/// the next record.
fn give_up(job: RenameJob, new_record: Record, dangling: bool) -> (r: (RenameState, RenameAction))
    requires
        job.wf(),
        job.index < job.records@.len(),
    ensures
        rename_wf(r.0),
        continues(
            job,
            job.succeeded as int,
            job.failed + 1,
            job.dangling_old + if dangling { 1int } else { 0int },
            strs(job.failed_names@).push(new_record.name@),
            r,
        ),
{
    let ghost j0 = job;
    let mut job = job;
    job.failed = job.failed + 1;
    if dangling {
        job.dangling_old = job.dangling_old + 1;
    }
    let ghost before = job.failed_names@;
    let ghost name = new_record.name@;
    job.failed_names.push(new_record.name);
    proof {
        assert(strs(job.failed_names@) =~= strs(before).push(name));
    }
    job.index = job.index + 1;
    let r = next_record(job);
    proof {
        assert(job.same_but(j0) && j0.same_but(job));
    }
    r
}

/// The record was moved: counted, and on to the next record.
fn moved(job: RenameJob, dangling: bool) -> (r: (RenameState, RenameAction))
    requires
        job.wf_core(),
        job.index < job.records@.len(),
        job.dangling_old <= job.index + if dangling { 0int } else { 1int },
    ensures
        rename_wf(r.0),
        continues(
            job,
            job.succeeded + 1,
            job.failed as int,
            job.dangling_old + if dangling { 1int } else { 0int },
            strs(job.failed_names@),
            r,
        ),
{
    let ghost j0 = job;
    let mut job = job;
    job.succeeded = job.succeeded + 1;
    if dangling {
        job.dangling_old = job.dangling_old + 1;
    }
    job.index = job.index + 1;
    let r = next_record(job);
    proof {
        assert(job.same_but(j0) && j0.same_but(job));
    }
    r
}

pub open spec fn pairs_view(v: Seq<(String, String)>) -> Seq<(Seq<char>, Seq<char>)> {
    v.map_values(|p: (String, String)| (p.0@, p.1@))
}

/// For a dry run: each record's name and the name it would get.
pub open spec fn planned_names(
    records: Seq<DatabaseDnsRecord>,
    old: Seq<char>,
    new: Seq<char>,
    suffix: Seq<char>,
) -> Seq<(Seq<char>, Seq<char>)> {
    records.map_values(|r: DatabaseDnsRecord| (r.record.name@, renamed_name(r.record.name@, old, new, suffix)))
}

fn plan_of(job: &RenameJob) -> (r: Vec<(String, String)>)
    ensures
        pairs_view(r@) == planned_names(job.records@, job.old_username@, job.new_username@, job.suffix@),
{
    let ghost target = planned_names(job.records@, job.old_username@, job.new_username@, job.suffix@);
    let mut out: Vec<(String, String)> = Vec::new();
    let mut i: usize = 0;
    while i < job.records.len()
        invariant
            target == planned_names(job.records@, job.old_username@, job.new_username@, job.suffix@),
            i <= job.records@.len(),
            pairs_view(out@) == target.take(i as int),
        decreases job.records@.len() - i,
    {
        let name = &job.records[i].record.name;
        let renamed = rename_record_name(name.as_str(), job.old_username.as_str(), job.new_username.as_str(), &job.suffix);
        let ghost before = pairs_view(out@);
        out.push((name.clone(), renamed));
        proof {
            assert(pairs_view(out@) =~= before.push(target[i as int]));
            assert(target.take(i + 1) =~= target.take(i as int).push(target[i as int]));
        }
        i = i + 1;
    }
    proof {
        assert(target.take(job.records@.len() as int) =~= target);
    }
    out
}

pub open spec fn finished_with_error(r: (RenameState, RenameAction), message: Seq<char>) -> bool {
    r.0 is Done && (r.1 matches RenameAction::Finish(Err(m)) && m@ == message)
}

/// What one step of a rename does with the event that came back.
pub open spec fn rename_step_spec(state: RenameState, event: RenameEvent, r: (RenameState, RenameAction)) -> bool {
    match (state, event) {
        (RenameState::AwaitingAvailability { job, dry_run }, RenameEvent::Availability(available)) => if available {
            (r.0 matches RenameState::AwaitingRecords { job: j, dry_run: d } && d == dry_run && job.same_but(j))
                && r.1 == RenameAction::FetchRecords(job.user_id)
        } else {
            finished_with_error(r, "username '"@ + job.new_username@ + "' is already taken, can't rename"@)
        },
        (RenameState::AwaitingRecords { job, dry_run }, RenameEvent::Records(res)) => match res {
            Err(e) => finished_with_error(r, "failed to fetch DNS records: "@ + e@),
            Ok(v) => if dry_run {
                r.0 is Done && (r.1 matches RenameAction::Finish(Ok(rep)) && pairs_view(rep.planned@)
                    == planned_names(v@, job.old_username@, job.new_username@, job.suffix@) && rep.succeeded == 0
                    && rep.failed == 0 && rep.dangling_old == 0 && rep.failed_names@.len() == 0)
            } else {
                (r.0 matches RenameState::AwaitingUsername { job: j } && j.records@ == v@ && j.index == 0
                    && j.user_id == job.user_id && j.new_username@ == job.new_username@ && j.old_username@
                    == job.old_username@ && j.suffix@ == job.suffix@) && (r.1 matches RenameAction::UpdateUsername {
                    user_id,
                    new_username,
                } && user_id == job.user_id && new_username@ == job.new_username@)
            },
        },
        (RenameState::AwaitingUsername { job }, RenameEvent::UsernameUpdated(res)) => match res {
            Err(e) => finished_with_error(r, "failed to update username in DB: "@ + e@),
            Ok(()) => if job.records@.len() == 0 {
                r.0 is Done && (r.1 matches RenameAction::Finish(Ok(rep)) && rep.succeeded == 0 && rep.failed == 0
                    && rep.dangling_old == 0 && rep.planned@.len() == 0)
            } else {
                (r.0 matches RenameState::Adding { job: j, attempt, .. } && attempt == 0 && job.same_but(j)
                    && j.index == 0) && (r.1 matches RenameAction::AddUpstream { record, wait_secs } && wait_secs
                    == 0 && record@ == job.target())
            },
        },
        (RenameState::Adding { job, new_record, attempt }, RenameEvent::Upstreamed(res)) => match res {
            Ok(key) => (r.0 matches RenameState::Tracking { job: j, key: k, attempt: a, .. } && a == 0 && k@
                == key@ && job.same_but(j) && j.index == job.index) && (r.1 matches RenameAction::AddToDatabase {
                user_id,
                record,
                provider_key,
                wait_secs,
            } && user_id == job.user_id && record@ == job.target() && provider_key@ == key_text(key@)
                && wait_secs == 0),
            Err(_) => if attempt < MAX_RETRIES {
                (r.0 matches RenameState::Adding { job: j, attempt: a, .. } && a == attempt + 1 && job.same_but(j)
                    && j.index == job.index) && (r.1 matches RenameAction::AddUpstream { record, wait_secs }
                    && record@ == job.target() && wait_secs == backoff(attempt as int))
            } else {
                continues(
                    job,
                    job.succeeded as int,
                    job.failed + 1,
                    job.dangling_old as int,
                    strs(job.failed_names@).push(job.target().name),
                    r,
                )
            },
        },
        (RenameState::Tracking { job, new_record, key, attempt }, RenameEvent::Stored(res)) => match res {
            Ok(_) => match parse_key(job.records@[job.index as int].provider_key@) {
                Ok(old) => (r.0 matches RenameState::DeletingOld { job: j, old_key, attempt: a, .. } && a == 0
                    && old_key@ == old && job.same_but(j) && j.index == job.index) && (r.1 matches RenameAction::DeleteOldUpstream {
                    key: k,
                    wait_secs,
                } && k@ == old && wait_secs == 0),
                Err(_) => continues(
                    job,
                    job.succeeded + 1,
                    job.failed as int,
                    job.dangling_old + 1,
                    strs(job.failed_names@),
                    r,
                ),
            },
            Err(_) => if attempt < MAX_RETRIES {
                (r.0 matches RenameState::Tracking { job: j, key: k, attempt: a, .. } && a == attempt + 1 && k@
                    == key@ && job.same_but(j) && j.index == job.index) && (r.1 matches RenameAction::AddToDatabase {
                    user_id,
                    record,
                    provider_key,
                    wait_secs,
                } && user_id == job.user_id && record@ == job.target() && provider_key@ == key_text(key@)
                    && wait_secs == backoff(attempt as int))
            } else {
                (r.0 matches RenameState::RollingBack { job: j, .. } && job.same_but(j) && j.index == job.index)
                    && (r.1 matches RenameAction::RollbackUpstream(k) && k@ == key@)
            },
        },
        (RenameState::RollingBack { job, new_record }, RenameEvent::RolledBack(res)) => continues(
            job,
            job.succeeded as int,
            job.failed + 1,
            job.dangling_old + if res is Err { 1int } else { 0int },
            strs(job.failed_names@).push(job.target().name),
            r,
        ),
        (RenameState::DeletingOld { job, new_record, old_key, attempt }, RenameEvent::OldUpstreamDeleted(res)) => if res is Err
            && attempt < MAX_RETRIES {
            (r.0 matches RenameState::DeletingOld { job: j, old_key: k, attempt: a, .. } && a == attempt + 1 && k@
                == old_key@ && job.same_but(j) && j.index == job.index) && (r.1 matches RenameAction::DeleteOldUpstream {
                key,
                wait_secs,
            } && key@ == old_key@ && wait_secs == backoff(attempt as int))
        } else {
            (r.0 matches RenameState::CleaningUp { job: j, attempt: a, .. } && a == 0 && job.same_but(j) && j.index
                == job.index && j.succeeded == job.succeeded && j.failed == job.failed && j.failed_names@
                == job.failed_names@ && j.dangling_old == job.dangling_old + if res is Err { 1int } else { 0int })
                && (r.1 matches RenameAction::DeleteOldFromDatabase { user_id, record_id, wait_secs } && user_id
                == job.user_id && record_id == job.records@[job.index as int].id && wait_secs == 0)
        },
        (RenameState::CleaningUp { job, new_record, attempt }, RenameEvent::OldDatabaseDeleted(res)) => if res is Err
            && attempt < MAX_RETRIES {
            (r.0 matches RenameState::CleaningUp { job: j, attempt: a, .. } && a == attempt + 1 && job.same_but(j)
                && j.index == job.index && j.succeeded == job.succeeded && j.failed == job.failed
                && j.dangling_old == job.dangling_old) && (r.1 matches RenameAction::DeleteOldFromDatabase {
                user_id,
                record_id,
                wait_secs,
            } && user_id == job.user_id && record_id == job.records@[job.index as int].id && wait_secs
                == backoff(attempt as int))
        } else {
            continues(job, job.succeeded + 1, job.failed as int, job.dangling_old as int, strs(job.failed_names@), r)
        },
        _ => false,
    }
}

/// The next step of a rename.
pub fn rename_step(state: RenameState, event: RenameEvent) -> (r: (RenameState, RenameAction))
    requires
        rename_wf(state),
        rename_event_fits(state, event),
    ensures
        rename_wf(r.0),
        rename_step_spec(state, event, r),
{
    match (state, event) {
        (RenameState::AwaitingAvailability { job, dry_run }, RenameEvent::Availability(available)) => {
            if available {
                let id = job.user_id;
                (RenameState::AwaitingRecords { job, dry_run }, RenameAction::FetchRecords(id))
            } else {
                let mut m = concat("username '", job.new_username.as_str());
                m.append("' is already taken, can't rename");
                (RenameState::Done, RenameAction::Finish(Err(m)))
            }
        },
        (RenameState::AwaitingRecords { job, dry_run }, RenameEvent::Records(res)) => match res {
            Err(e) => {
                let m = concat("failed to fetch DNS records: ", e.as_str());
                (RenameState::Done, RenameAction::Finish(Err(m)))
            },
            Ok(v) => {
                let mut job = job;
                job.records = v;
                if dry_run {
                    let planned = plan_of(&job);
                    let rep = RenameReport { planned, succeeded: 0, failed: 0, dangling_old: 0, failed_names: Vec::new() };
                    (RenameState::Done, RenameAction::Finish(Ok(rep)))
                } else {
                    let id = job.user_id;
                    let n = job.new_username.clone();
                    (RenameState::AwaitingUsername { job }, RenameAction::UpdateUsername { user_id: id, new_username: n })
                }
            },
        },
        (RenameState::AwaitingUsername { job }, RenameEvent::UsernameUpdated(res)) => match res {
            Err(e) => {
                let m = concat("failed to update username in DB: ", e.as_str());
                (RenameState::Done, RenameAction::Finish(Err(m)))
            },
            Ok(()) => next_record(job),
        },
        (RenameState::Adding { job, new_record, attempt }, RenameEvent::Upstreamed(res)) => match res {
            Ok(key) => {
                let provider_key = key.to_text();
                let record = new_record.clone();
                let id = job.user_id;
                (
                    RenameState::Tracking { job, new_record, key, attempt: 0 },
                    RenameAction::AddToDatabase { user_id: id, record, provider_key, wait_secs: 0 },
                )
            },
            Err(_) => {
                if attempt < MAX_RETRIES {
                    let wait = backoff_secs(attempt);
                    let record = new_record.clone();
                    (RenameState::Adding { job, new_record, attempt: attempt + 1 }, RenameAction::AddUpstream { record, wait_secs: wait })
                } else {
                    give_up(job, new_record, false)
                }
            },
        },
        (RenameState::Tracking { job, new_record, key, attempt }, RenameEvent::Stored(res)) => match res {
            Ok(_) => {
                match Key::parse(job.records[job.index].provider_key.as_str()) {
                    Ok(old_key) => {
                        let k = old_key.clone();
                        (
                            RenameState::DeletingOld { job, new_record, old_key, attempt: 0 },
                            RenameAction::DeleteOldUpstream { key: k, wait_secs: 0 },
                        )
                    },
                    Err(_) => moved(job, true),
                }
            },
            Err(_) => {
                if attempt < MAX_RETRIES {
                    let wait = backoff_secs(attempt);
                    let record = new_record.clone();
                    let provider_key = key.to_text();
                    let id = job.user_id;
                    (
                        RenameState::Tracking { job, new_record, key, attempt: attempt + 1 },
                        RenameAction::AddToDatabase { user_id: id, record, provider_key, wait_secs: wait },
                    )
                } else {
                    (RenameState::RollingBack { job, new_record }, RenameAction::RollbackUpstream(key))
                }
            },
        },
        (RenameState::RollingBack { job, new_record }, RenameEvent::RolledBack(res)) => {
            let dangling = res.is_err();
            give_up(job, new_record, dangling)
        },
        (RenameState::DeletingOld { job, new_record, old_key, attempt }, RenameEvent::OldUpstreamDeleted(res)) => {
            if res.is_err() && attempt < MAX_RETRIES {
                let wait = backoff_secs(attempt);
                let k = old_key.clone();
                (
                    RenameState::DeletingOld { job, new_record, old_key, attempt: attempt + 1 },
                    RenameAction::DeleteOldUpstream { key: k, wait_secs: wait },
                )
            } else {
                let mut job = job;
                if res.is_err() {
                    job.dangling_old = job.dangling_old + 1;
                }
                let id = job.user_id;
                let rid = job.records[job.index].id;
                (
                    RenameState::CleaningUp { job, new_record, attempt: 0 },
                    RenameAction::DeleteOldFromDatabase { user_id: id, record_id: rid, wait_secs: 0 },
                )
            }
        },
        (RenameState::CleaningUp { job, new_record, attempt }, RenameEvent::OldDatabaseDeleted(res)) => {
            if res.is_err() && attempt < MAX_RETRIES {
                let wait = backoff_secs(attempt);
                let id = job.user_id;
                let rid = job.records[job.index].id;
                (
                    RenameState::CleaningUp { job, new_record, attempt: attempt + 1 },
                    RenameAction::DeleteOldFromDatabase { user_id: id, record_id: rid, wait_secs: wait },
                )
            } else {
                moved(job, false)
            }
        },
        _ => {
            proof {
                assert(false);
            }
            (RenameState::Done, RenameAction::Finish(Err(String::new())))
        },
    }
}

/// The job of a rename that is moving records, or about to.
pub open spec fn moving_job(s: RenameState) -> Option<RenameJob> {
    match s {
        RenameState::AwaitingUsername { job } => Some(job),
        RenameState::Adding { job, .. } => Some(job),
        RenameState::Tracking { job, .. } => Some(job),
        RenameState::RollingBack { job, .. } => Some(job),
        RenameState::DeletingOld { job, .. } => Some(job),
        RenameState::CleaningUp { job, .. } => Some(job),
        _ => None,
    }
}

/// A rename that finishes after moving records reports each of its records
/// exactly once: as moved or as failed.
pub proof fn lemma_rename_report_counts_every_record(
    state: RenameState,
    event: RenameEvent,
    r: (RenameState, RenameAction),
)
    requires
        rename_wf(state),
        rename_event_fits(state, event),
        rename_step_spec(state, event, r),
        moving_job(state) is Some,
        r.1 matches RenameAction::Finish(Ok(_)),
    ensures
        r.1 matches RenameAction::Finish(Ok(rep)) && rep.succeeded + rep.failed == moving_job(
            state,
        ).unwrap().records@.len(),
{
}

} // verus!
