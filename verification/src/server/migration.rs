//! The migration from a DNS provider's records to the user database, as
//! step functions: the caller performs each action (a provider or database
//! call, a prompt, a report) and hands back what came of it.
//!
//! Records are grouped by user; for each user the account is found or
//! created (with prompts for password and email), the user's records are
//! brought in line with upstream (missing ones imported, stale ones
//! deleted), and at the end users without any upstream record are offered
//! for deletion. A dry run changes nothing and only counts.

use vstd::prelude::*;
use crate::dns::record::{record_type_name, Record, RecordView};
use crate::random::generate_random_password;
use crate::server::migrate::{
    db_keys, dbs_view, entries_view, gone_upstream, group_by_user, group_names, grouping_line, grouping_summary,
    missing_in_db, names_view, new_user_email, orphaned_users, orphans, owner, present_in_db, records_of,
    skipped_count, sync_plan, upstream_keys, users_view, Grouping, MigrationStats, SyncPlan,
};
use crate::server::migrate::confirms;
use crate::server::names::PublicSuffix;
use crate::text::{concat, lower_seq, trim_seq};
use crate::user_database::{DatabaseDnsRecord, DatabaseDnsRecordView, DnsRecordId, UserEntry, UserView};

verus! {

// ------------------------------------------------------------- counting

/// A user's upstream records are among all upstream records.
pub proof fn lemma_records_of_len(es: Seq<(Seq<char>, RecordView)>, suffix: Seq<char>, name: Seq<char>)
    ensures
        records_of(es, suffix, name).len() <= es.len(),
    decreases es.len(),
{
    if es.len() > 0 {
        lemma_records_of_len(es.drop_last(), suffix, name);
    }
}

/// The records skipped are among all upstream records.
pub proof fn lemma_skipped_len(es: Seq<(Seq<char>, RecordView)>, suffix: Seq<char>)
    ensures
        skipped_count(es, suffix) <= es.len(),
    decreases es.len(),
{
    if es.len() > 0 {
        lemma_skipped_len(es.drop_last(), suffix);
    }
}

/// Every upstream record of a user is either imported or already synced.
pub proof fn lemma_sync_split(es: Seq<(Seq<char>, RecordView)>, keys: Set<Seq<char>>)
    ensures
        missing_in_db(es, keys).len() + present_in_db(es, keys) == es.len(),
    decreases es.len(),
{
    if es.len() > 0 {
        lemma_sync_split(es.drop_last(), keys);
    }
}

/// The stale records are among the database records.
pub proof fn lemma_gone_len(rs: Seq<DatabaseDnsRecordView>, keys: Set<Seq<char>>)
    ensures
        gone_upstream(rs, keys).len() <= rs.len(),
    decreases rs.len(),
{
    if rs.len() > 0 {
        lemma_gone_len(rs.drop_last(), keys);
    }
}

// ---------------------------------------------------------------- state

/// The migration as it goes: the grouped upstream records, the user being
/// worked on, and the counts so far.
pub struct MigrationJob {
    pub suffix: String,
    pub dry_run: bool,
    pub groups: Vec<(String, Vec<(String, Record)>)>,
    pub user: usize,
    pub stats: MigrationStats,
}

impl MigrationJob {
    pub open spec fn wf(&self) -> bool {
        forall|g: int| 0 <= g < self.groups@.len() ==> (#[trigger] self.groups@[g]).1@.len() <= u32::MAX
    }

    /// The name of the user being worked on.
    pub open spec fn name(&self) -> Seq<char> {
        self.groups@[self.user as int].0@
    }

    /// The upstream records of the user being worked on.
    pub open spec fn upstream(&self) -> Seq<(String, Record)> {
        self.groups@[self.user as int].1@
    }

    /// Same migration, whatever the user and the counts.
    pub open spec fn same_run(&self, other: MigrationJob) -> bool {
        &&& other.suffix@ == self.suffix@
        &&& other.dry_run == self.dry_run
        &&& other.groups@ == self.groups@
    }
}

/// What the caller is asked to print.
pub enum MigrationNote {
    /// How the upstream records were grouped.
    Grouping(String),
    /// A dry run's plan for a user: records to import and stale records.
    Plan { username: String, new_user: bool, import: Vec<(String, Record)>, delete: Vec<DatabaseDnsRecord> },
    /// A dry run would delete this user without upstream records.
    WouldDeleteUser { username: String, records: usize },
    /// The user without upstream records was kept.
    SkippedUser(String),
}

pub enum MigrationState {
    AwaitingUpstream { suffix: String, dry_run: bool },
    ReportingGrouping { job: MigrationJob },
    AwaitingAvailability { job: MigrationJob },
    AwaitingPassword { job: MigrationJob },
    AwaitingEmail { job: MigrationJob, password: String },
    AwaitingNewUser { job: MigrationJob },
    AwaitingActivation { job: MigrationJob, user_id: u128 },
    AwaitingLookup { job: MigrationJob },
    AwaitingDbRecords { job: MigrationJob, user_id: u128 },
    ReportingPlan { job: MigrationJob },
    Importing { job: MigrationJob, user_id: u128, plan: SyncPlan, index: usize },
    Deleting { job: MigrationJob, user_id: u128, plan: SyncPlan, index: usize },
    AwaitingUsers { job: MigrationJob },
    CountingOrphan { job: MigrationJob, orphans: Vec<UserEntry>, index: usize },
    ReportingOrphan { job: MigrationJob, orphans: Vec<UserEntry>, index: usize },
    AwaitingAnswer { job: MigrationJob, orphans: Vec<UserEntry>, index: usize },
    AwaitingOrphanRecords { job: MigrationJob, orphans: Vec<UserEntry>, index: usize },
    DeletingOrphanRecords {
        job: MigrationJob,
        orphans: Vec<UserEntry>,
        index: usize,
        records: Vec<DatabaseDnsRecord>,
        k: usize,
    },
    DeletingOrphan { job: MigrationJob, orphans: Vec<UserEntry>, index: usize, count: usize },
    Done,
}

pub enum MigrationAction {
    FetchUpstream,
    Report(MigrationNote),
    CheckAvailable { username: String, upstream_records: usize },
    PromptPassword,
    PromptEmail,
    AddUser { username: String, password: String, email: String },
    ActivateUser(u128),
    LookupUser(String),
    FetchDbRecords(u128),
    AddRecord { user_id: u128, record: Record, provider_key: String },
    DeleteRecord { user_id: u128, record_id: DnsRecordId },
    ListUsers,
    CountOrphanRecords(u128),
    AskDelete { username: String, records: usize },
    FetchOrphanRecords(u128),
    DeleteUser(String),
    /// The end: the counts (none when nothing matched the suffix), or why
    /// the migration stopped.
    Finish(Result<Option<MigrationStats>, String>),
}

pub enum MigrationEvent {
    Upstream(Result<Vec<(String, Record)>, String>),
    Reported,
    Availability(bool),
    PasswordEntered(Option<String>),
    EmailEntered(Option<String>),
    UserAdded(Result<u128, String>),
    UserActivated(Result<(), String>),
    UserFound(Result<Option<UserEntry>, String>),
    DbRecords(Result<Vec<DatabaseDnsRecord>, String>),
    RecordAdded(Result<DnsRecordId, String>),
    RecordDeleted(Result<(), String>),
    Users(Result<Vec<UserEntry>, String>),
    OrphanRecords(Result<Vec<DatabaseDnsRecord>, String>),
    Answer(String),
    UserDeleted(Result<(), String>),
}

pub open spec fn migration_wf(s: MigrationState) -> bool {
    match s {
        MigrationState::AwaitingUpstream { .. } => true,
        MigrationState::ReportingGrouping { job } => job.wf() && job.user == 0,
        MigrationState::AwaitingAvailability { job } => job.wf() && job.user < job.groups@.len(),
        MigrationState::AwaitingPassword { job } => job.wf() && job.user < job.groups@.len(),
        MigrationState::AwaitingEmail { job, .. } => job.wf() && job.user < job.groups@.len(),
        MigrationState::AwaitingNewUser { job } => job.wf() && job.user < job.groups@.len(),
        MigrationState::AwaitingActivation { job, .. } => job.wf() && job.user < job.groups@.len(),
        MigrationState::AwaitingLookup { job } => job.wf() && job.user < job.groups@.len(),
        MigrationState::AwaitingDbRecords { job, .. } => job.wf() && job.user < job.groups@.len(),
        MigrationState::ReportingPlan { job } => job.wf() && job.user < job.groups@.len(),
        MigrationState::Importing { job, plan, index, .. } => job.wf() && job.user < job.groups@.len() && index
            < plan.import@.len(),
        MigrationState::Deleting { job, plan, index, .. } => job.wf() && job.user < job.groups@.len() && index
            < plan.delete@.len(),
        MigrationState::AwaitingUsers { job } => job.wf(),
        MigrationState::CountingOrphan { job, orphans, index } => job.wf() && index < orphans@.len(),
        MigrationState::ReportingOrphan { job, orphans, index } => job.wf() && index < orphans@.len(),
        MigrationState::AwaitingAnswer { job, orphans, index } => job.wf() && index < orphans@.len(),
        MigrationState::AwaitingOrphanRecords { job, orphans, index } => job.wf() && index < orphans@.len(),
        MigrationState::DeletingOrphanRecords { job, orphans, index, records, k } => job.wf() && index
            < orphans@.len() && k < records@.len(),
        MigrationState::DeletingOrphan { job, orphans, index, .. } => job.wf() && index < orphans@.len(),
        MigrationState::Done => true,
    }
}

pub open spec fn records_len(r: Result<Vec<DatabaseDnsRecord>, String>) -> nat {
    match r {
        Ok(v) => v@.len(),
        Err(_) => 0,
    }
}

/// Which events answer the action of a state; those that would push a
/// count past `u32::MAX` are left out.
pub open spec fn migration_event_fits(s: MigrationState, e: MigrationEvent) -> bool {
    match s {
        MigrationState::AwaitingUpstream { .. } => match e {
            MigrationEvent::Upstream(Ok(v)) => v@.len() <= u32::MAX,
            MigrationEvent::Upstream(Err(_)) => true,
            _ => false,
        },
        MigrationState::ReportingGrouping { .. } => e is Reported,
        MigrationState::AwaitingAvailability { job } => match e {
            MigrationEvent::Availability(b) => b && job.dry_run ==> job.user < job.groups@.len()
                && job.stats.users_created < u32::MAX && job.stats.records_imported + job.upstream().len() <= u32::MAX,
            _ => false,
        },
        MigrationState::AwaitingPassword { .. } => e is PasswordEntered,
        MigrationState::AwaitingEmail { .. } => e is EmailEntered,
        MigrationState::AwaitingNewUser { .. } => e is UserAdded,
        MigrationState::AwaitingActivation { job, .. } => match e {
            MigrationEvent::UserActivated(r) => r is Ok ==> job.stats.users_created < u32::MAX,
            _ => false,
        },
        MigrationState::AwaitingLookup { .. } => e is UserFound,
        MigrationState::AwaitingDbRecords { job, .. } => match e {
            MigrationEvent::DbRecords(Ok(v)) => job.user < job.groups@.len() && job.stats.records_already_synced
                + job.stats.records_imported + job.upstream().len() <= u32::MAX && job.stats.records_deleted + v@.len()
                <= u32::MAX,
            MigrationEvent::DbRecords(Err(_)) => true,
            _ => false,
        },
        MigrationState::ReportingPlan { .. } => e is Reported,
        MigrationState::Importing { job, .. } => match e {
            MigrationEvent::RecordAdded(r) => r is Ok ==> job.stats.records_imported < u32::MAX,
            _ => false,
        },
        MigrationState::Deleting { job, .. } => match e {
            MigrationEvent::RecordDeleted(r) => r is Ok ==> job.stats.records_deleted < u32::MAX,
            _ => false,
        },
        MigrationState::AwaitingUsers { .. } => e is Users,
        MigrationState::CountingOrphan { job, .. } => match e {
            MigrationEvent::OrphanRecords(r) => job.dry_run ==> job.stats.users_deleted < u32::MAX
                && job.stats.records_deleted + records_len(r) <= u32::MAX,
            _ => false,
        },
        MigrationState::ReportingOrphan { .. } => e is Reported,
        MigrationState::AwaitingAnswer { .. } => e is Answer,
        MigrationState::AwaitingOrphanRecords { .. } => e is OrphanRecords,
        MigrationState::DeletingOrphanRecords { .. } => e is RecordDeleted,
        MigrationState::DeletingOrphan { job, count, .. } => match e {
            MigrationEvent::UserDeleted(r) => r is Ok ==> job.stats.users_deleted < u32::MAX
                && job.stats.records_deleted + count <= u32::MAX,
            _ => false,
        },
        MigrationState::Done => false,
    }
}

// ------------------------------------------------------------ transitions

/// The migration goes on with user `u` (asking whether the account is
/// still free), or with the users without upstream records after the last.
pub open spec fn goes_to_user(job: MigrationJob, u: int, stats: MigrationStats, r: (MigrationState, MigrationAction)) -> bool {
    if u < job.groups@.len() {
        (r.0 matches MigrationState::AwaitingAvailability { job: j } && job.same_run(j) && j.user == u && j.stats
            == stats) && (r.1 matches MigrationAction::CheckAvailable { username, upstream_records } && username@
            == job.groups@[u].0@ && upstream_records == job.groups@[u].1@.len())
    } else {
        (r.0 matches MigrationState::AwaitingUsers { job: j } && job.same_run(j) && j.stats == stats)
            && r.1 is ListUsers
    }
}

/// The migration goes on with orphan `i` (counting its records), or ends
/// with the counts after the last.
pub open spec fn goes_to_orphan(
    job: MigrationJob,
    orphans: Seq<UserView>,
    i: int,
    stats: MigrationStats,
    r: (MigrationState, MigrationAction),
) -> bool {
    if i < orphans.len() {
        (r.0 matches MigrationState::CountingOrphan { job: j, orphans: o, index } && job.same_run(j) && j.stats
            == stats && users_view(o@) == orphans && index == i) && r.1 == MigrationAction::CountOrphanRecords(
            orphans[i].id,
        )
    } else {
        r.0 is Done && r.1 == MigrationAction::Finish(Ok(Some(stats)))
    }
}

pub open spec fn stops_with(r: (MigrationState, MigrationAction), message: Seq<char>) -> bool {
    r.0 is Done && (r.1 matches MigrationAction::Finish(Err(m)) && m@ == message)
}

fn next_user(job: MigrationJob) -> (r: (MigrationState, MigrationAction))
    requires
        job.wf(),
        job.user < job.groups@.len(),
    ensures
        migration_wf(r.0),
        goes_to_user(job, job.user + 1, job.stats, r),
{
    let mut job = job;
    let n_groups = job.groups.len();
    job.user = job.user + 1;
    if job.user < n_groups {
        let username = job.groups[job.user].0.clone();
        let n = job.groups[job.user].1.len();
        (MigrationState::AwaitingAvailability { job }, MigrationAction::CheckAvailable { username, upstream_records: n })
    } else {
        (MigrationState::AwaitingUsers { job }, MigrationAction::ListUsers)
    }
}

fn next_orphan(job: MigrationJob, orphans: Vec<UserEntry>, i: usize) -> (r: (MigrationState, MigrationAction))
    requires
        job.wf(),
        i <= orphans@.len(),
    ensures
        migration_wf(r.0),
        goes_to_orphan(job, users_view(orphans@), i as int, job.stats, r),
{
    if i < orphans.len() {
        let id = orphans[i].id;
        (MigrationState::CountingOrphan { job, orphans, index: i }, MigrationAction::CountOrphanRecords(id))
    } else {
        let stats = job.stats;
        (MigrationState::Done, MigrationAction::Finish(Ok(Some(stats))))
    }
}

fn group_name_list(groups: &Vec<(String, Vec<(String, Record)>)>) -> (r: Vec<String>)
    ensures
        names_view(r@) == group_names(groups@),
{
    let mut out: Vec<String> = Vec::new();
    let mut i: usize = 0;
    while i < groups.len()
        invariant
            i <= groups@.len(),
            names_view(out@) == group_names(groups@).take(i as int),
        decreases groups@.len() - i,
    {
        let ghost before = names_view(out@);
        out.push(groups[i].0.clone());
        proof {
            assert(names_view(out@) =~= before.push(groups@[i as int].0@));
            assert(group_names(groups@).take(i + 1) =~= group_names(groups@).take(i as int).push(
                groups@[i as int].0@,
            ));
        }
        i = i + 1;
    }
    proof {
        assert(group_names(groups@).take(groups@.len() as int) =~= group_names(groups@));
    }
    out
}


pub open spec fn zero_stats() -> MigrationStats {
    MigrationStats { users_created: 0, users_deleted: 0, records_imported: 0, records_already_synced: 0, records_deleted: 0 }
}

/// The groups of a grouping of the upstream records, as `group_by_user`
/// makes them: users in name order, each with its records in upstream order.
pub open spec fn grouped(
    groups: Seq<(String, Vec<(String, Record)>)>,
    upstream: Seq<(String, Record)>,
    suffix: Seq<char>,
) -> bool {
    &&& crate::server::migrate::sorted_names(group_names(groups))
    &&& group_names(groups).to_set() == crate::server::migrate::owner_set(entries_view(upstream), suffix)
    &&& forall|g: int| 0 <= g < groups.len() ==> entries_view((#[trigger] groups[g]).1@) == records_of(
        entries_view(upstream),
        suffix,
        groups[g].0@,
    )
}

/// Same migration, same user, same counts.
pub open spec fn same_place(job: MigrationJob, j: MigrationJob) -> bool {
    job.same_run(j) && j.user == job.user && j.stats == job.stats
}

pub open spec fn upstream_step(
    suffix: Seq<char>,
    dry_run: bool,
    res: Result<Vec<(String, Record)>, String>,
    r: (MigrationState, MigrationAction),
) -> bool {
    match res {
        Err(e) => stops_with(r, "failed to list records from DNS provider: "@ + e@),
        Ok(v) => (r.0 matches MigrationState::ReportingGrouping { job } && job.suffix@ == suffix && job.dry_run
            == dry_run && job.user == 0 && job.stats == zero_stats() && grouped(job.groups@, v@, suffix) && (r.1 matches MigrationAction::Report(
            MigrationNote::Grouping(line),
        ) && line@ == grouping_line(
            job.groups@.len() as nat,
            (v@.len() - skipped_count(entries_view(v@), suffix)) as nat,
            suffix,
            skipped_count(entries_view(v@), suffix),
        ))),
    }
}

pub open spec fn grouping_reported(job: MigrationJob, r: (MigrationState, MigrationAction)) -> bool {
    if job.groups@.len() == 0 {
        r.0 is Done && r.1 == MigrationAction::Finish(Ok(None))
    } else {
        goes_to_user(job, 0, job.stats, r)
    }
}

pub open spec fn availability_step(job: MigrationJob, free: bool, r: (MigrationState, MigrationAction)) -> bool {
    if free && job.dry_run {
        (r.0 matches MigrationState::ReportingPlan { job: j } && job.same_run(j) && j.user == job.user && j.stats
            == MigrationStats {
            users_created: (job.stats.users_created + 1) as u32,
            records_imported: (job.stats.records_imported + job.upstream().len()) as u32,
            ..job.stats
        }) && (r.1 matches MigrationAction::Report(MigrationNote::Plan { username, new_user, import, delete })
            && username@ == job.name() && new_user && entries_view(import@) == entries_view(job.upstream())
            && delete@.len() == 0)
    } else if free {
        (r.0 matches MigrationState::AwaitingPassword { job: j } && same_place(job, j)) && r.1 is PromptPassword
    } else {
        (r.0 matches MigrationState::AwaitingLookup { job: j } && same_place(job, j)) && (r.1 matches MigrationAction::LookupUser(
            n,
        ) && n@ == job.name())
    }
}

pub open spec fn password_step(job: MigrationJob, entered: Option<String>, r: (MigrationState, MigrationAction)) -> bool {
    match entered {
        Some(p) => (r.0 matches MigrationState::AwaitingEmail { job: j, password } && same_place(job, j)
            && password@ == p@) && r.1 is PromptEmail,
        None => ((r.0 matches MigrationState::AwaitingEmail { job: j, password } && same_place(job, j)
            && password@.len() == 32 && forall|i: int|
            0 <= i < 32 ==> crate::random::password_charset().contains(#[trigger] password@[i])) && r.1 is PromptEmail)
            || stops_with(r, "failed to generate a password"@),
    }
}

pub open spec fn email_step(
    job: MigrationJob,
    password: Seq<char>,
    entered: Option<String>,
    r: (MigrationState, MigrationAction),
) -> bool {
    (r.0 matches MigrationState::AwaitingNewUser { job: j } && same_place(job, j)) && (r.1 matches MigrationAction::AddUser {
        username,
        password: p,
        email,
    } && username@ == job.name() && p@ == password && email@ == match entered {
        Some(x) => x@,
        None => crate::server::migrate::default_email(),
    })
}

pub open spec fn user_added_step(job: MigrationJob, res: Result<u128, String>, r: (MigrationState, MigrationAction)) -> bool {
    match res {
        Err(e) => stops_with(r, "failed to create user '"@ + job.name() + "': "@ + e@),
        Ok(id) => (r.0 matches MigrationState::AwaitingActivation { job: j, user_id } && same_place(job, j) && user_id
            == id) && r.1 == MigrationAction::ActivateUser(id),
    }
}

pub open spec fn activated_step(
    job: MigrationJob,
    user_id: u128,
    res: Result<(), String>,
    r: (MigrationState, MigrationAction),
) -> bool {
    match res {
        Err(e) => stops_with(r, "failed to activate user '"@ + job.name() + "': "@ + e@),
        Ok(()) => (r.0 matches MigrationState::AwaitingDbRecords { job: j, user_id: u } && job.same_run(j) && j.user
            == job.user && j.stats == MigrationStats {
            users_created: (job.stats.users_created + 1) as u32,
            ..job.stats
        } && u == user_id) && r.1 == MigrationAction::FetchDbRecords(user_id),
    }
}

pub open spec fn lookup_step(job: MigrationJob, res: Result<Option<UserEntry>, String>, r: (MigrationState, MigrationAction)) -> bool {
    match res {
        Err(e) => stops_with(r, "failed to look up user '"@ + job.name() + "': "@ + e@),
        Ok(None) => stops_with(r, "user '"@ + job.name() + "' is marked as unavailable but we can't find them 💀"@),
        Ok(Some(u)) => (r.0 matches MigrationState::AwaitingDbRecords { job: j, user_id } && same_place(job, j)
            && user_id == u.id) && r.1 == MigrationAction::FetchDbRecords(u.id),
    }
}

/// Stale record `i` and those after it are deleted next, then the next user.
pub open spec fn deleting_at(
    job: MigrationJob,
    user_id: u128,
    imp: Seq<(Seq<char>, RecordView)>,
    del: Seq<DatabaseDnsRecordView>,
    i: int,
    stats: MigrationStats,
    r: (MigrationState, MigrationAction),
) -> bool {
    if i < del.len() {
        (r.0 matches MigrationState::Deleting { job: j, user_id: u, plan, index } && job.same_run(j) && j.user
            == job.user && j.stats == stats && u == user_id && index == i && entries_view(plan.import@) == imp
            && dbs_view(plan.delete@) == del) && r.1 == MigrationAction::DeleteRecord {
            user_id,
            record_id: del[i].id,
        }
    } else {
        goes_to_user(job, job.user + 1, stats, r)
    }
}

/// Missing record `i` and those after it are imported next, then the stale
/// records are deleted.
pub open spec fn importing_at(
    job: MigrationJob,
    user_id: u128,
    imp: Seq<(Seq<char>, RecordView)>,
    del: Seq<DatabaseDnsRecordView>,
    i: int,
    stats: MigrationStats,
    r: (MigrationState, MigrationAction),
) -> bool {
    if i < imp.len() {
        (r.0 matches MigrationState::Importing { job: j, user_id: u, plan, index } && job.same_run(j) && j.user
            == job.user && j.stats == stats && u == user_id && index == i && entries_view(plan.import@) == imp
            && dbs_view(plan.delete@) == del) && (r.1 matches MigrationAction::AddRecord {
            user_id: u2,
            record,
            provider_key,
        } && u2 == user_id && provider_key@ == imp[i].0 && record@ == imp[i].1)
    } else {
        deleting_at(job, user_id, imp, del, 0, stats, r)
    }
}

pub open spec fn db_records_step(
    job: MigrationJob,
    user_id: u128,
    res: Result<Vec<DatabaseDnsRecord>, String>,
    r: (MigrationState, MigrationAction),
) -> bool {
    match res {
        Err(e) => stops_with(r, "failed to fetch DB records for '"@ + job.name() + "': "@ + e@),
        Ok(v) => {
            let es = entries_view(job.upstream());
            let keys = db_keys(dbs_view(v@));
            let imp = missing_in_db(es, keys);
            let synced = present_in_db(es, keys);
            let del = gone_upstream(dbs_view(v@), upstream_keys(es));
            if job.dry_run {
                (r.0 matches MigrationState::ReportingPlan { job: j } && job.same_run(j) && j.user == job.user
                    && j.stats == MigrationStats {
                    records_already_synced: (job.stats.records_already_synced + synced) as u32,
                    records_imported: (job.stats.records_imported + imp.len()) as u32,
                    records_deleted: (job.stats.records_deleted + del.len()) as u32,
                    ..job.stats
                }) && (r.1 matches MigrationAction::Report(
                    MigrationNote::Plan { username, new_user, import, delete },
                ) && username@ == job.name() && !new_user && entries_view(import@) == imp && dbs_view(delete@)
                    == del)
            } else {
                importing_at(
                    job,
                    user_id,
                    imp,
                    del,
                    0,
                    MigrationStats {
                        records_already_synced: (job.stats.records_already_synced + synced) as u32,
                        ..job.stats
                    },
                    r,
                )
            }
        },
    }
}

pub open spec fn record_added_step(
    job: MigrationJob,
    user_id: u128,
    plan: SyncPlan,
    index: int,
    res: Result<DnsRecordId, String>,
    r: (MigrationState, MigrationAction),
) -> bool {
    let rec = plan.import@[index].1@;
    match res {
        Err(e) => stops_with(
            r,
            "failed to import record '"@ + rec.name + "' ("@ + record_type_name(rec.record_type) + ") for '"@
                + job.name() + "': "@ + e@,
        ),
        Ok(_) => importing_at(
            job,
            user_id,
            entries_view(plan.import@),
            dbs_view(plan.delete@),
            index + 1,
            MigrationStats { records_imported: (job.stats.records_imported + 1) as u32, ..job.stats },
            r,
        ),
    }
}

pub open spec fn record_deleted_step(
    job: MigrationJob,
    user_id: u128,
    plan: SyncPlan,
    index: int,
    res: Result<(), String>,
    r: (MigrationState, MigrationAction),
) -> bool {
    let d = plan.delete@[index]@;
    match res {
        Err(e) => stops_with(
            r,
            "failed to delete stale record '"@ + d.record.name + "' ("@ + record_type_name(d.record.record_type)
                + ") for '"@ + job.name() + "': "@ + e@,
        ),
        Ok(()) => deleting_at(
            job,
            user_id,
            entries_view(plan.import@),
            dbs_view(plan.delete@),
            index + 1,
            MigrationStats { records_deleted: (job.stats.records_deleted + 1) as u32, ..job.stats },
            r,
        ),
    }
}


pub open spec fn users_step(job: MigrationJob, res: Result<Vec<UserEntry>, String>, r: (MigrationState, MigrationAction)) -> bool {
    match res {
        Err(e) => stops_with(r, "failed to list all users: "@ + e@),
        Ok(all) => goes_to_orphan(job, orphans(users_view(all@), group_names(job.groups@).to_set()), 0, job.stats, r),
    }
}

/// Same migration, same counts, same orphans, same orphan.
pub open spec fn same_orphan(job: MigrationJob, orphans: Vec<UserEntry>, index: usize, j: MigrationJob, o: Vec<UserEntry>, i: usize) -> bool {
    job.same_run(j) && j.stats == job.stats && users_view(o@) == users_view(orphans@) && i == index
}

pub open spec fn orphan_count_step(
    job: MigrationJob,
    orphans: Vec<UserEntry>,
    index: usize,
    res: Result<Vec<DatabaseDnsRecord>, String>,
    r: (MigrationState, MigrationAction),
) -> bool {
    let u = orphans@[index as int]@;
    let n = records_len(res);
    if job.dry_run {
        (r.0 matches MigrationState::ReportingOrphan { job: j, orphans: o, index: i } && job.same_run(j) && j.stats
            == MigrationStats {
            users_deleted: (job.stats.users_deleted + 1) as u32,
            records_deleted: (job.stats.records_deleted + n) as u32,
            ..job.stats
        } && users_view(o@) == users_view(orphans@) && i == index) && (r.1 matches MigrationAction::Report(
            MigrationNote::WouldDeleteUser { username, records },
        ) && username@ == u.username && records == n)
    } else {
        (r.0 matches MigrationState::AwaitingAnswer { job: j, orphans: o, index: i } && same_orphan(job, orphans, index, j, o, i))
            && (r.1 matches MigrationAction::AskDelete { username, records } && username@ == u.username && records == n)
    }
}

pub open spec fn answer_step(
    job: MigrationJob,
    orphans: Vec<UserEntry>,
    index: usize,
    answer: Seq<char>,
    r: (MigrationState, MigrationAction),
) -> bool {
    let u = orphans@[index as int]@;
    if lower_seq(trim_seq(answer)) == "y"@ {
        (r.0 matches MigrationState::AwaitingOrphanRecords { job: j, orphans: o, index: i } && same_orphan(
            job,
            orphans,
            index,
            j,
            o,
            i,
        )) && r.1 == MigrationAction::FetchOrphanRecords(u.id)
    } else {
        (r.0 matches MigrationState::ReportingOrphan { job: j, orphans: o, index: i } && same_orphan(job, orphans, index, j, o, i))
            && (r.1 matches MigrationAction::Report(MigrationNote::SkippedUser(n)) && n@ == u.username)
    }
}

pub open spec fn orphan_records_step(
    job: MigrationJob,
    orphans: Vec<UserEntry>,
    index: usize,
    res: Result<Vec<DatabaseDnsRecord>, String>,
    r: (MigrationState, MigrationAction),
) -> bool {
    let u = orphans@[index as int]@;
    match res {
        Err(e) => stops_with(r, "failed to fetch records for orphaned user '"@ + u.username + "': "@ + e@),
        Ok(v) => if v@.len() > 0 {
            (r.0 matches MigrationState::DeletingOrphanRecords { job: j, orphans: o, index: i, records, k }
                && same_orphan(job, orphans, index, j, o, i) && records@ == v@ && k == 0)
                && r.1 == MigrationAction::DeleteRecord { user_id: u.id, record_id: v@[0].id }
        } else {
            (r.0 matches MigrationState::DeletingOrphan { job: j, orphans: o, index: i, count } && same_orphan(
                job,
                orphans,
                index,
                j,
                o,
                i,
            ) && count == 0) && (r.1 matches MigrationAction::DeleteUser(n) && n@ == u.username)
        },
    }
}

pub open spec fn orphan_record_deleted_step(
    job: MigrationJob,
    orphans: Vec<UserEntry>,
    index: usize,
    records: Seq<DatabaseDnsRecord>,
    k: int,
    res: Result<(), String>,
    r: (MigrationState, MigrationAction),
) -> bool {
    let u = orphans@[index as int]@;
    match res {
        Err(e) => stops_with(r, "failed to delete record for '"@ + u.username + "': "@ + e@),
        Ok(()) => if k + 1 < records.len() {
            (r.0 matches MigrationState::DeletingOrphanRecords { job: j, orphans: o, index: i, records: rs, k: k2 }
                && same_orphan(job, orphans, index, j, o, i) && rs@ == records && k2 == k + 1)
                && r.1 == MigrationAction::DeleteRecord { user_id: u.id, record_id: records[k + 1].id }
        } else {
            (r.0 matches MigrationState::DeletingOrphan { job: j, orphans: o, index: i, count } && same_orphan(
                job,
                orphans,
                index,
                j,
                o,
                i,
            ) && count == records.len()) && (r.1 matches MigrationAction::DeleteUser(n) && n@ == u.username)
        },
    }
}

pub open spec fn user_deleted_step(
    job: MigrationJob,
    orphans: Vec<UserEntry>,
    index: usize,
    count: usize,
    res: Result<(), String>,
    r: (MigrationState, MigrationAction),
) -> bool {
    let u = orphans@[index as int]@;
    match res {
        Err(e) => stops_with(r, "failed to delete user '"@ + u.username + "': "@ + e@),
        Ok(()) => goes_to_orphan(
            job,
            users_view(orphans@),
            index + 1,
            MigrationStats {
                users_deleted: (job.stats.users_deleted + 1) as u32,
                records_deleted: (job.stats.records_deleted + count) as u32,
                ..job.stats
            },
            r,
        ),
    }
}

/// What one step of the migration does, for each state and the event that
/// answers its action.
pub open spec fn migration_step_spec(s: MigrationState, e: MigrationEvent, r: (MigrationState, MigrationAction)) -> bool {
    match (s, e) {
        (MigrationState::AwaitingUpstream { suffix, dry_run }, MigrationEvent::Upstream(res)) => upstream_step(
            suffix@,
            dry_run,
            res,
            r,
        ),
        (MigrationState::ReportingGrouping { job }, MigrationEvent::Reported) => grouping_reported(job, r),
        (MigrationState::AwaitingAvailability { job }, MigrationEvent::Availability(free)) => availability_step(job, free, r),
        (MigrationState::AwaitingPassword { job }, MigrationEvent::PasswordEntered(p)) => password_step(job, p, r),
        (MigrationState::AwaitingEmail { job, password }, MigrationEvent::EmailEntered(m)) => email_step(
            job,
            password@,
            m,
            r,
        ),
        (MigrationState::AwaitingNewUser { job }, MigrationEvent::UserAdded(res)) => user_added_step(job, res, r),
        (MigrationState::AwaitingActivation { job, user_id }, MigrationEvent::UserActivated(res)) => activated_step(
            job,
            user_id,
            res,
            r,
        ),
        (MigrationState::AwaitingLookup { job }, MigrationEvent::UserFound(res)) => lookup_step(job, res, r),
        (MigrationState::AwaitingDbRecords { job, user_id }, MigrationEvent::DbRecords(res)) => db_records_step(
            job,
            user_id,
            res,
            r,
        ),
        (MigrationState::ReportingPlan { job }, MigrationEvent::Reported) => goes_to_user(job, job.user + 1, job.stats, r),
        (MigrationState::Importing { job, user_id, plan, index }, MigrationEvent::RecordAdded(res)) => record_added_step(
            job,
            user_id,
            plan,
            index as int,
            res,
            r,
        ),
        (MigrationState::Deleting { job, user_id, plan, index }, MigrationEvent::RecordDeleted(res)) => record_deleted_step(
            job,
            user_id,
            plan,
            index as int,
            res,
            r,
        ),
        (MigrationState::AwaitingUsers { job }, MigrationEvent::Users(res)) => users_step(job, res, r),
        (MigrationState::CountingOrphan { job, orphans, index }, MigrationEvent::OrphanRecords(res)) => orphan_count_step(
            job,
            orphans,
            index,
            res,
            r,
        ),
        (MigrationState::ReportingOrphan { job, orphans, index }, MigrationEvent::Reported) => goes_to_orphan(
            job,
            users_view(orphans@),
            index + 1,
            job.stats,
            r,
        ),
        (MigrationState::AwaitingAnswer { job, orphans, index }, MigrationEvent::Answer(a)) => answer_step(
            job,
            orphans,
            index,
            a@,
            r,
        ),
        (MigrationState::AwaitingOrphanRecords { job, orphans, index }, MigrationEvent::OrphanRecords(res)) => orphan_records_step(
            job,
            orphans,
            index,
            res,
            r,
        ),
        (
            MigrationState::DeletingOrphanRecords { job, orphans, index, records, k },
            MigrationEvent::RecordDeleted(res),
        ) => orphan_record_deleted_step(job, orphans, index, records@, k as int, res, r),
        (MigrationState::DeletingOrphan { job, orphans, index, count }, MigrationEvent::UserDeleted(res)) => user_deleted_step(
            job,
            orphans,
            index,
            count,
            res,
            r,
        ),
        _ => false,
    }
}


// ------------------------------------------------------------ exec steps

/// `prefix`, the name, `': ` and the error.
fn quoted_error(prefix: &str, name: &str, e: &str) -> (r: String)
    ensures
        r@ == prefix@ + name@ + "': "@ + e@,
{
    let mut m = concat(prefix, name);
    m.append("': ");
    m.append(e);
    m
}

/// The error for a record that could not be changed: `prefix`, its name,
/// its type, the user and the error.
fn record_error(prefix: &str, record: &Record, username: &str, e: &str) -> (r: String)
    ensures
        r@ == prefix@ + record.name@ + "' ("@ + record_type_name(record.record_type) + ") for '"@ + username@ + "': "@
            + e@,
{
    let mut m = concat(prefix, record.name.as_str());
    m.append("' (");
    m.append(record.record_type.as_str());
    m.append(") for '");
    m.append(username);
    m.append("': ");
    m.append(e);
    m
}

fn copy_entries(v: &Vec<(String, Record)>) -> (r: Vec<(String, Record)>)
    ensures
        entries_view(r@) == entries_view(v@),
{
    let mut out: Vec<(String, Record)> = Vec::new();
    let mut i: usize = 0;
    while i < v.len()
        invariant
            i <= v@.len(),
            entries_view(out@) == entries_view(v@).take(i as int),
        decreases v@.len() - i,
    {
        let ghost before = entries_view(out@);
        out.push((v[i].0.clone(), v[i].1.clone()));
        proof {
            assert(entries_view(out@) =~= before.push(entries_view(v@)[i as int]));
            assert(entries_view(v@).take(i + 1) =~= entries_view(v@).take(i as int).push(entries_view(v@)[i as int]));
        }
        i = i + 1;
    }
    proof {
        assert(entries_view(v@).take(v@.len() as int) =~= entries_view(v@));
    }
    out
}

/// Starts a migration: the upstream records are fetched first.
pub fn migration_start(suffix: &PublicSuffix, dry_run: bool) -> (r: (MigrationState, MigrationAction))
    ensures
        migration_wf(r.0),
        r.0 matches MigrationState::AwaitingUpstream { suffix: s, dry_run: d } && s@ == suffix@ && d == dry_run,
        r.1 is FetchUpstream,
{
    let s = String::from_str(suffix.as_str());
    (MigrationState::AwaitingUpstream { suffix: s, dry_run }, MigrationAction::FetchUpstream)
}

fn on_upstream(suffix: String, dry_run: bool, res: Result<Vec<(String, Record)>, String>) -> (r: (
    MigrationState,
    MigrationAction,
))
    requires
        res matches Ok(v) ==> v@.len() <= u32::MAX,
    ensures
        migration_wf(r.0),
        upstream_step(suffix@, dry_run, res, r),
{
    match res {
        Err(e) => {
            let m = concat("failed to list records from DNS provider: ", e.as_str());
            (MigrationState::Done, MigrationAction::Finish(Err(m)))
        },
        Ok(v) => {
            let g = group_by_user(&v, suffix.as_str());
            proof {
                crate::server::migration::lemma_skipped_len(entries_view(v@), suffix@);
                assert forall|k: int| 0 <= k < g.groups@.len() implies (#[trigger] g.groups@[k]).1@.len() <= u32::MAX by {
                    lemma_records_of_len(entries_view(v@), suffix@, g.groups@[k].0@);
                    assert(entries_view(g.groups@[k].1@).len() == g.groups@[k].1@.len());
                }
            }
            let line = grouping_summary(&g, v.len(), suffix.as_str());
            let Grouping { groups, skipped } = g;
            let job = MigrationJob { suffix, dry_run, groups, user: 0, stats: MigrationStats::new() };
            (MigrationState::ReportingGrouping { job }, MigrationAction::Report(MigrationNote::Grouping(line)))
        },
    }
}

fn on_grouping_reported(job: MigrationJob) -> (r: (MigrationState, MigrationAction))
    requires
        job.wf(),
        job.user == 0,
    ensures
        migration_wf(r.0),
        grouping_reported(job, r),
{
    if job.groups.len() == 0 {
        (MigrationState::Done, MigrationAction::Finish(Ok(None)))
    } else {
        let username = job.groups[0].0.clone();
        let n = job.groups[0].1.len();
        (MigrationState::AwaitingAvailability { job }, MigrationAction::CheckAvailable { username, upstream_records: n })
    }
}

fn on_availability(job: MigrationJob, free: bool) -> (r: (MigrationState, MigrationAction))
    requires
        job.wf(),
        job.user < job.groups@.len(),
        free && job.dry_run ==> job.stats.users_created < u32::MAX && job.stats.records_imported
            + job.upstream().len() <= u32::MAX,
    ensures
        migration_wf(r.0),
        availability_step(job, free, r),
{
    let username = job.groups[job.user].0.clone();
    if free && job.dry_run {
        let import = copy_entries(&job.groups[job.user].1);
        let n = job.groups[job.user].1.len();
        let mut job = job;
        job.stats.users_created = job.stats.users_created + 1;
        job.stats.records_imported = job.stats.records_imported + n as u32;
        (
            MigrationState::ReportingPlan { job },
            MigrationAction::Report(MigrationNote::Plan { username, new_user: true, import, delete: Vec::new() }),
        )
    } else if free {
        (MigrationState::AwaitingPassword { job }, MigrationAction::PromptPassword)
    } else {
        (MigrationState::AwaitingLookup { job }, MigrationAction::LookupUser(username))
    }
}

fn on_password(job: MigrationJob, entered: Option<String>) -> (r: (MigrationState, MigrationAction))
    requires
        job.wf(),
        job.user < job.groups@.len(),
    ensures
        migration_wf(r.0),
        password_step(job, entered, r),
{
    match entered {
        Some(p) => (MigrationState::AwaitingEmail { job, password: p }, MigrationAction::PromptEmail),
        None => match generate_random_password() {
            Some(p) => (MigrationState::AwaitingEmail { job, password: p }, MigrationAction::PromptEmail),
            None => (MigrationState::Done, MigrationAction::Finish(Err(String::from_str("failed to generate a password")))),
        },
    }
}

fn on_email(job: MigrationJob, password: String, entered: Option<String>) -> (r: (MigrationState, MigrationAction))
    requires
        job.wf(),
        job.user < job.groups@.len(),
    ensures
        migration_wf(r.0),
        email_step(job, password@, entered, r),
{
    let email = new_user_email(entered);
    let username = job.groups[job.user].0.clone();
    (MigrationState::AwaitingNewUser { job }, MigrationAction::AddUser { username, password, email })
}

fn on_user_added(job: MigrationJob, res: Result<u128, String>) -> (r: (MigrationState, MigrationAction))
    requires
        job.wf(),
        job.user < job.groups@.len(),
    ensures
        migration_wf(r.0),
        user_added_step(job, res, r),
{
    match res {
        Err(e) => {
            let m = quoted_error("failed to create user '", job.groups[job.user].0.as_str(), e.as_str());
            (MigrationState::Done, MigrationAction::Finish(Err(m)))
        },
        Ok(id) => (MigrationState::AwaitingActivation { job, user_id: id }, MigrationAction::ActivateUser(id)),
    }
}

fn on_activated(job: MigrationJob, user_id: u128, res: Result<(), String>) -> (r: (MigrationState, MigrationAction))
    requires
        job.wf(),
        job.user < job.groups@.len(),
        res is Ok ==> job.stats.users_created < u32::MAX,
    ensures
        migration_wf(r.0),
        activated_step(job, user_id, res, r),
{
    match res {
        Err(e) => {
            let m = quoted_error("failed to activate user '", job.groups[job.user].0.as_str(), e.as_str());
            (MigrationState::Done, MigrationAction::Finish(Err(m)))
        },
        Ok(()) => {
            let mut job = job;
            job.stats.users_created = job.stats.users_created + 1;
            (MigrationState::AwaitingDbRecords { job, user_id }, MigrationAction::FetchDbRecords(user_id))
        },
    }
}

fn on_lookup(job: MigrationJob, res: Result<Option<UserEntry>, String>) -> (r: (MigrationState, MigrationAction))
    requires
        job.wf(),
        job.user < job.groups@.len(),
    ensures
        migration_wf(r.0),
        lookup_step(job, res, r),
{
    match res {
        Err(e) => {
            let m = quoted_error("failed to look up user '", job.groups[job.user].0.as_str(), e.as_str());
            (MigrationState::Done, MigrationAction::Finish(Err(m)))
        },
        Ok(None) => {
            let mut m = concat("user '", job.groups[job.user].0.as_str());
            m.append("' is marked as unavailable but we can't find them 💀");
            (MigrationState::Done, MigrationAction::Finish(Err(m)))
        },
        Ok(Some(u)) => {
            let id = u.id;
            (MigrationState::AwaitingDbRecords { job, user_id: id }, MigrationAction::FetchDbRecords(id))
        },
    }
}

fn delete_from(job: MigrationJob, user_id: u128, plan: SyncPlan, i: usize) -> (r: (MigrationState, MigrationAction))
    requires
        job.wf(),
        job.user < job.groups@.len(),
        i <= plan.delete@.len(),
    ensures
        migration_wf(r.0),
        deleting_at(job, user_id, entries_view(plan.import@), dbs_view(plan.delete@), i as int, job.stats, r),
{
    if i < plan.delete.len() {
        let rid = plan.delete[i].id;
        proof {
            assert(dbs_view(plan.delete@)[i as int] == plan.delete@[i as int]@);
        }
        (MigrationState::Deleting { job, user_id, plan, index: i }, MigrationAction::DeleteRecord { user_id, record_id: rid })
    } else {
        next_user(job)
    }
}

fn import_from(job: MigrationJob, user_id: u128, plan: SyncPlan, i: usize) -> (r: (MigrationState, MigrationAction))
    requires
        job.wf(),
        job.user < job.groups@.len(),
        i <= plan.import@.len(),
    ensures
        migration_wf(r.0),
        importing_at(job, user_id, entries_view(plan.import@), dbs_view(plan.delete@), i as int, job.stats, r),
{
    if i < plan.import.len() {
        let record = plan.import[i].1.clone();
        let provider_key = plan.import[i].0.clone();
        proof {
            assert(entries_view(plan.import@)[i as int] == (plan.import@[i as int].0@, plan.import@[i as int].1@));
        }
        (MigrationState::Importing { job, user_id, plan, index: i }, MigrationAction::AddRecord { user_id, record, provider_key })
    } else {
        delete_from(job, user_id, plan, 0)
    }
}

fn on_db_records(job: MigrationJob, user_id: u128, res: Result<Vec<DatabaseDnsRecord>, String>) -> (r: (
    MigrationState,
    MigrationAction,
))
    requires
        job.wf(),
        job.user < job.groups@.len(),
        res matches Ok(v) ==> job.stats.records_already_synced + job.stats.records_imported + job.upstream().len()
            <= u32::MAX && job.stats.records_deleted + v@.len() <= u32::MAX,
    ensures
        migration_wf(r.0),
        db_records_step(job, user_id, res, r),
{
    match res {
        Err(e) => {
            let m = quoted_error("failed to fetch DB records for '", job.groups[job.user].0.as_str(), e.as_str());
            (MigrationState::Done, MigrationAction::Finish(Err(m)))
        },
        Ok(v) => {
            let ghost es = entries_view(job.upstream());
            let ghost keys = db_keys(dbs_view(v@));
            let plan = sync_plan(&job.groups[job.user].1, &v);
            proof {
                lemma_sync_split(es, keys);
                lemma_gone_len(dbs_view(v@), upstream_keys(es));
                assert(entries_view(plan.import@).len() == plan.import@.len());
                assert(dbs_view(plan.delete@).len() == plan.delete@.len());
            }
            let mut job = job;
            job.stats.records_already_synced = job.stats.records_already_synced + plan.already_synced;
            if job.dry_run {
                job.stats.records_imported = job.stats.records_imported + plan.import.len() as u32;
                job.stats.records_deleted = job.stats.records_deleted + plan.delete.len() as u32;
                let username = job.groups[job.user].0.clone();
                let SyncPlan { import, already_synced, delete } = plan;
                (
                    MigrationState::ReportingPlan { job },
                    MigrationAction::Report(MigrationNote::Plan { username, new_user: false, import, delete }),
                )
            } else {
                import_from(job, user_id, plan, 0)
            }
        },
    }
}

fn on_record_added(job: MigrationJob, user_id: u128, plan: SyncPlan, index: usize, res: Result<DnsRecordId, String>) -> (r: (
    MigrationState,
    MigrationAction,
))
    requires
        job.wf(),
        job.user < job.groups@.len(),
        index < plan.import@.len(),
        res is Ok ==> job.stats.records_imported < u32::MAX,
    ensures
        migration_wf(r.0),
        record_added_step(job, user_id, plan, index as int, res, r),
{
    match res {
        Err(e) => {
            let m = record_error(
                "failed to import record '",
                &plan.import[index].1,
                job.groups[job.user].0.as_str(),
                e.as_str(),
            );
            (MigrationState::Done, MigrationAction::Finish(Err(m)))
        },
        Ok(_) => {
            let mut job = job;
            job.stats.records_imported = job.stats.records_imported + 1;
            let n = plan.import.len();
            assert(index < n);
            import_from(job, user_id, plan, index + 1)
        },
    }
}

fn on_record_deleted(job: MigrationJob, user_id: u128, plan: SyncPlan, index: usize, res: Result<(), String>) -> (r: (
    MigrationState,
    MigrationAction,
))
    requires
        job.wf(),
        job.user < job.groups@.len(),
        index < plan.delete@.len(),
        res is Ok ==> job.stats.records_deleted < u32::MAX,
    ensures
        migration_wf(r.0),
        record_deleted_step(job, user_id, plan, index as int, res, r),
{
    match res {
        Err(e) => {
            let m = record_error(
                "failed to delete stale record '",
                &plan.delete[index].record,
                job.groups[job.user].0.as_str(),
                e.as_str(),
            );
            (MigrationState::Done, MigrationAction::Finish(Err(m)))
        },
        Ok(()) => {
            let mut job = job;
            job.stats.records_deleted = job.stats.records_deleted + 1;
            let n = plan.delete.len();
            assert(index < n);
            delete_from(job, user_id, plan, index + 1)
        },
    }
}


fn on_users(job: MigrationJob, res: Result<Vec<UserEntry>, String>) -> (r: (MigrationState, MigrationAction))
    requires
        job.wf(),
    ensures
        migration_wf(r.0),
        users_step(job, res, r),
{
    match res {
        Err(e) => {
            let m = concat("failed to list all users: ", e.as_str());
            (MigrationState::Done, MigrationAction::Finish(Err(m)))
        },
        Ok(all) => {
            let names = group_name_list(&job.groups);
            let found = orphaned_users(&all, &names);
            next_orphan(job, found, 0)
        },
    }
}

fn on_orphan_count(job: MigrationJob, orphans: Vec<UserEntry>, index: usize, res: Result<Vec<DatabaseDnsRecord>, String>) -> (r: (
    MigrationState,
    MigrationAction,
))
    requires
        job.wf(),
        index < orphans@.len(),
        job.dry_run ==> job.stats.users_deleted < u32::MAX && job.stats.records_deleted + records_len(res) <= u32::MAX,
    ensures
        migration_wf(r.0),
        orphan_count_step(job, orphans, index, res, r),
{
    let n: usize = match &res {
        Ok(v) => v.len(),
        Err(_) => 0,
    };
    let username = orphans[index].username.clone();
    if job.dry_run {
        let mut job = job;
        job.stats.users_deleted = job.stats.users_deleted + 1;
        job.stats.records_deleted = job.stats.records_deleted + n as u32;
        (
            MigrationState::ReportingOrphan { job, orphans, index },
            MigrationAction::Report(MigrationNote::WouldDeleteUser { username, records: n }),
        )
    } else {
        (MigrationState::AwaitingAnswer { job, orphans, index }, MigrationAction::AskDelete { username, records: n })
    }
}

fn on_answer(job: MigrationJob, orphans: Vec<UserEntry>, index: usize, answer: String) -> (r: (MigrationState, MigrationAction))
    requires
        job.wf(),
        index < orphans@.len(),
    ensures
        migration_wf(r.0),
        answer_step(job, orphans, index, answer@, r),
{
    if confirms(answer.as_str()) {
        let id = orphans[index].id;
        (MigrationState::AwaitingOrphanRecords { job, orphans, index }, MigrationAction::FetchOrphanRecords(id))
    } else {
        let username = orphans[index].username.clone();
        (MigrationState::ReportingOrphan { job, orphans, index }, MigrationAction::Report(MigrationNote::SkippedUser(username)))
    }
}

fn on_orphan_records(job: MigrationJob, orphans: Vec<UserEntry>, index: usize, res: Result<Vec<DatabaseDnsRecord>, String>) -> (r: (
    MigrationState,
    MigrationAction,
))
    requires
        job.wf(),
        index < orphans@.len(),
    ensures
        migration_wf(r.0),
        orphan_records_step(job, orphans, index, res, r),
{
    match res {
        Err(e) => {
            let m = quoted_error("failed to fetch records for orphaned user '", orphans[index].username.as_str(), e.as_str());
            (MigrationState::Done, MigrationAction::Finish(Err(m)))
        },
        Ok(v) => {
            if v.len() > 0 {
                let rid = v[0].id;
                let uid = orphans[index].id;
                (
                    MigrationState::DeletingOrphanRecords { job, orphans, index, records: v, k: 0 },
                    MigrationAction::DeleteRecord { user_id: uid, record_id: rid },
                )
            } else {
                let username = orphans[index].username.clone();
                (MigrationState::DeletingOrphan { job, orphans, index, count: 0 }, MigrationAction::DeleteUser(username))
            }
        },
    }
}

fn on_orphan_record_deleted(
    job: MigrationJob,
    orphans: Vec<UserEntry>,
    index: usize,
    records: Vec<DatabaseDnsRecord>,
    k: usize,
    res: Result<(), String>,
) -> (r: (MigrationState, MigrationAction))
    requires
        job.wf(),
        index < orphans@.len(),
        k < records@.len(),
    ensures
        migration_wf(r.0),
        orphan_record_deleted_step(job, orphans, index, records@, k as int, res, r),
{
    match res {
        Err(e) => {
            let m = quoted_error("failed to delete record for '", orphans[index].username.as_str(), e.as_str());
            (MigrationState::Done, MigrationAction::Finish(Err(m)))
        },
        Ok(()) => {
            let n = records.len();
            if k + 1 < n {
                let rid = records[k + 1].id;
                let uid = orphans[index].id;
                (
                    MigrationState::DeletingOrphanRecords { job, orphans, index, records, k: k + 1 },
                    MigrationAction::DeleteRecord { user_id: uid, record_id: rid },
                )
            } else {
                let username = orphans[index].username.clone();
                (MigrationState::DeletingOrphan { job, orphans, index, count: n }, MigrationAction::DeleteUser(username))
            }
        },
    }
}

fn on_user_deleted(job: MigrationJob, orphans: Vec<UserEntry>, index: usize, count: usize, res: Result<(), String>) -> (r: (
    MigrationState,
    MigrationAction,
))
    requires
        job.wf(),
        index < orphans@.len(),
        res is Ok ==> job.stats.users_deleted < u32::MAX && job.stats.records_deleted + count <= u32::MAX,
    ensures
        migration_wf(r.0),
        user_deleted_step(job, orphans, index, count, res, r),
{
    match res {
        Err(e) => {
            let m = quoted_error("failed to delete user '", orphans[index].username.as_str(), e.as_str());
            (MigrationState::Done, MigrationAction::Finish(Err(m)))
        },
        Ok(()) => {
            let mut job = job;
            job.stats.users_deleted = job.stats.users_deleted + 1;
            job.stats.records_deleted = job.stats.records_deleted + count as u32;
            let n = orphans.len();
            assert(index < n);
            next_orphan(job, orphans, index + 1)
        },
    }
}

/// The next step of a migration.
pub fn migration_step(state: MigrationState, event: MigrationEvent) -> (r: (MigrationState, MigrationAction))
    requires
        migration_wf(state),
        migration_event_fits(state, event),
    ensures
        migration_wf(r.0),
        migration_step_spec(state, event, r),
{
    match (state, event) {
        (MigrationState::AwaitingUpstream { suffix, dry_run }, MigrationEvent::Upstream(res)) => on_upstream(
            suffix,
            dry_run,
            res,
        ),
        (MigrationState::ReportingGrouping { job }, MigrationEvent::Reported) => on_grouping_reported(job),
        (MigrationState::AwaitingAvailability { job }, MigrationEvent::Availability(free)) => on_availability(job, free),
        (MigrationState::AwaitingPassword { job }, MigrationEvent::PasswordEntered(p)) => on_password(job, p),
        (MigrationState::AwaitingEmail { job, password }, MigrationEvent::EmailEntered(m)) => on_email(job, password, m),
        (MigrationState::AwaitingNewUser { job }, MigrationEvent::UserAdded(res)) => on_user_added(job, res),
        (MigrationState::AwaitingActivation { job, user_id }, MigrationEvent::UserActivated(res)) => on_activated(
            job,
            user_id,
            res,
        ),
        (MigrationState::AwaitingLookup { job }, MigrationEvent::UserFound(res)) => on_lookup(job, res),
        (MigrationState::AwaitingDbRecords { job, user_id }, MigrationEvent::DbRecords(res)) => on_db_records(
            job,
            user_id,
            res,
        ),
        (MigrationState::ReportingPlan { job }, MigrationEvent::Reported) => next_user(job),
        (MigrationState::Importing { job, user_id, plan, index }, MigrationEvent::RecordAdded(res)) => on_record_added(
            job,
            user_id,
            plan,
            index,
            res,
        ),
        (MigrationState::Deleting { job, user_id, plan, index }, MigrationEvent::RecordDeleted(res)) => on_record_deleted(
            job,
            user_id,
            plan,
            index,
            res,
        ),
        (MigrationState::AwaitingUsers { job }, MigrationEvent::Users(res)) => on_users(job, res),
        (MigrationState::CountingOrphan { job, orphans, index }, MigrationEvent::OrphanRecords(res)) => on_orphan_count(
            job,
            orphans,
            index,
            res,
        ),
        (MigrationState::ReportingOrphan { job, orphans, index }, MigrationEvent::Reported) => {
            let n = orphans.len();
            assert(index < n);
            next_orphan(job, orphans, index + 1)
        },
        (MigrationState::AwaitingAnswer { job, orphans, index }, MigrationEvent::Answer(a)) => on_answer(
            job,
            orphans,
            index,
            a,
        ),
        (MigrationState::AwaitingOrphanRecords { job, orphans, index }, MigrationEvent::OrphanRecords(res)) => on_orphan_records(
            job,
            orphans,
            index,
            res,
        ),
        (
            MigrationState::DeletingOrphanRecords { job, orphans, index, records, k },
            MigrationEvent::RecordDeleted(res),
        ) => on_orphan_record_deleted(job, orphans, index, records, k, res),
        (MigrationState::DeletingOrphan { job, orphans, index, count }, MigrationEvent::UserDeleted(res)) => on_user_deleted(
            job,
            orphans,
            index,
            count,
            res,
        ),
        _ => {
            proof {
                assert(false);
            }
            (MigrationState::Done, MigrationAction::Finish(Err(String::new())))
        },
    }
}

/// Whether an event may be handed to `migration_step` in a state: it
/// answers the state's action and pushes no count past `u32::MAX`.
pub fn migration_event_fits_exec(state: &MigrationState, event: &MigrationEvent) -> (r: bool)
    ensures
        r == migration_event_fits(*state, *event),
{
    match state {
        MigrationState::AwaitingUpstream { .. } => match event {
            MigrationEvent::Upstream(Ok(v)) => v.len() <= 0xffff_ffff,
            MigrationEvent::Upstream(Err(_)) => true,
            _ => false,
        },
        MigrationState::ReportingGrouping { .. } => matches!(event, MigrationEvent::Reported),
        MigrationState::AwaitingAvailability { job } => match event {
            MigrationEvent::Availability(b) => {
                if *b && job.dry_run {
                    if job.user < job.groups.len() {
                        let a = job.groups[job.user].1.len();
                        job.stats.users_created < 0xffff_ffff && a <= 0xffff_ffff && (job.stats.records_imported as u64)
                            + (a as u64) <= 0xffff_ffff
                    } else {
                        false
                    }
                } else {
                    true
                }
            },
            _ => false,
        },
        MigrationState::AwaitingPassword { .. } => matches!(event, MigrationEvent::PasswordEntered(_)),
        MigrationState::AwaitingEmail { .. } => matches!(event, MigrationEvent::EmailEntered(_)),
        MigrationState::AwaitingNewUser { .. } => matches!(event, MigrationEvent::UserAdded(_)),
        MigrationState::AwaitingActivation { job, .. } => match event {
            MigrationEvent::UserActivated(r) => r.is_err() || job.stats.users_created < 0xffff_ffff,
            _ => false,
        },
        MigrationState::AwaitingLookup { .. } => matches!(event, MigrationEvent::UserFound(_)),
        MigrationState::AwaitingDbRecords { job, .. } => match event {
            MigrationEvent::DbRecords(Ok(v)) => {
                if job.user < job.groups.len() {
                    let a = job.groups[job.user].1.len();
                    let b = v.len();
                    a <= 0xffff_ffff && b <= 0xffff_ffff && (job.stats.records_already_synced as u64)
                        + (job.stats.records_imported as u64) + (a as u64) <= 0xffff_ffff
                        && (job.stats.records_deleted as u64) + (b as u64) <= 0xffff_ffff
                } else {
                    false
                }
            },
            MigrationEvent::DbRecords(Err(_)) => true,
            _ => false,
        },
        MigrationState::ReportingPlan { .. } => matches!(event, MigrationEvent::Reported),
        MigrationState::Importing { job, .. } => match event {
            MigrationEvent::RecordAdded(r) => r.is_err() || job.stats.records_imported < 0xffff_ffff,
            _ => false,
        },
        MigrationState::Deleting { job, .. } => match event {
            MigrationEvent::RecordDeleted(r) => r.is_err() || job.stats.records_deleted < 0xffff_ffff,
            _ => false,
        },
        MigrationState::AwaitingUsers { .. } => matches!(event, MigrationEvent::Users(_)),
        MigrationState::CountingOrphan { job, .. } => match event {
            MigrationEvent::OrphanRecords(r) => {
                let n: usize = match r {
                    Ok(v) => v.len(),
                    Err(_) => 0,
                };
                !job.dry_run || (job.stats.users_deleted < 0xffff_ffff && n <= 0xffff_ffff
                    && (job.stats.records_deleted as u64) + (n as u64) <= 0xffff_ffff)
            },
            _ => false,
        },
        MigrationState::ReportingOrphan { .. } => matches!(event, MigrationEvent::Reported),
        MigrationState::AwaitingAnswer { .. } => matches!(event, MigrationEvent::Answer(_)),
        MigrationState::AwaitingOrphanRecords { .. } => matches!(event, MigrationEvent::OrphanRecords(_)),
        MigrationState::DeletingOrphanRecords { .. } => matches!(event, MigrationEvent::RecordDeleted(_)),
        MigrationState::DeletingOrphan { job, count, .. } => match event {
            MigrationEvent::UserDeleted(r) => r.is_err() || (job.stats.users_deleted < 0xffff_ffff && *count
                <= 0xffff_ffff && (job.stats.records_deleted as u64) + (*count as u64) <= 0xffff_ffff),
            _ => false,
        },
        MigrationState::Done => false,
    }
}


// ------------------------------------------------------------------ laws

/// The states a dry run passes through.
pub open spec fn dry_state(s: MigrationState) -> bool {
    match s {
        MigrationState::AwaitingUpstream { dry_run, .. } => dry_run,
        MigrationState::ReportingGrouping { job } => job.dry_run,
        MigrationState::AwaitingAvailability { job } => job.dry_run,
        MigrationState::AwaitingLookup { job } => job.dry_run,
        MigrationState::AwaitingDbRecords { job, .. } => job.dry_run,
        MigrationState::ReportingPlan { job } => job.dry_run,
        MigrationState::AwaitingUsers { job } => job.dry_run,
        MigrationState::CountingOrphan { job, .. } => job.dry_run,
        MigrationState::ReportingOrphan { job, .. } => job.dry_run,
        MigrationState::Done => true,
        _ => false,
    }
}

/// Actions that change the user database.
pub open spec fn changes_database(a: MigrationAction) -> bool {
    a is AddUser || a is ActivateUser || a is AddRecord || a is DeleteRecord || a is DeleteUser
}

/// A dry run changes nothing: from a state of a dry run, every step leads
/// to a state of a dry run and asks for no change to the user database.
pub proof fn lemma_dry_run_changes_nothing(s: MigrationState, e: MigrationEvent, r: (MigrationState, MigrationAction))
    requires
        migration_wf(s),
        migration_event_fits(s, e),
        dry_state(s),
        migration_step_spec(s, e, r),
    ensures
        dry_state(r.0),
        !changes_database(r.1),
{
    match s {
        MigrationState::ReportingPlan { job } => {
            if job.user + 1 < job.groups@.len() {
            }
        },
        MigrationState::AwaitingDbRecords { job, user_id } => {
        },
        _ => {},
    }
}

} // verus!
