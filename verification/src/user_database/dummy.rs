//! The in-memory user database: accounts from configuration plus any that
//! sign up, and the DNS records of each user. Nothing is persisted.

use vstd::prelude::*;
use crate::dns::record::{Record, RecordView};
use crate::entries::{
    keys_unique, lemma_to_map_lookup, lemma_to_map_push, lemma_to_map_remove, lemma_to_map_update,
    to_map,
};
use crate::text::{concat, str_eq};
use crate::user_database::{
    password_matches_hash, user_accepts, DatabaseDnsRecord, DatabaseDnsRecordView, DnsRecordId,
    PasswordHash, UserEntry, UserState, UserView,
};

verus! {

/// Configuration: usernames with their passwords.
pub struct Config(pub Vec<(String, String)>);

#[derive(Clone, Copy, PartialEq, Eq, Debug, Structural)]
pub enum Error {
    UserExists,
    UserNotFound,
    RecordNotFound,
    /// The operating system's random source or clock could not be read, or
    /// a password could not be hashed.
    Unavailable,
}

pub open spec fn error_message(e: Error) -> Seq<char> {
    match e {
        Error::UserExists => "user already exists"@,
        Error::UserNotFound => "user not found"@,
        Error::RecordNotFound => "record not found"@,
        Error::Unavailable => "randomness or clock unavailable"@,
    }
}

impl Error {
    pub fn message(&self) -> (r: &'static str)
        ensures
            r@ == error_message(*self),
    {
        match self {
            Error::UserExists => "user already exists",
            Error::UserNotFound => "user not found",
            Error::RecordNotFound => "record not found",
            Error::Unavailable => "randomness or clock unavailable",
        }
    }
}

/// A stored record: owner, record id, provider key and record.
struct RecordSlot {
    user_id: u128,
    id: DnsRecordId,
    provider_key: String,
    record: Record,
}

pub type RecordKey = (u128, DnsRecordId);

pub type RecordValue = (Seq<char>, RecordView);

spec fn slot_entry(s: RecordSlot) -> (RecordKey, RecordValue) {
    ((s.user_id, s.id), (s.provider_key@, s.record@))
}

/// The in-memory user database.
pub struct Database {
    users: Vec<UserEntry>,
    records: Vec<RecordSlot>,
}

/// The placeholder email of a configured user: `"name"@example.com`.
pub open spec fn placeholder_email(username: Seq<char>) -> Seq<char> {
    "\""@ + username + "\"@example.com"@
}

impl Database {
    /// The accounts, in the order they were added.
    pub closed spec fn users(&self) -> Seq<UserView> {
        self.users@.map_values(|u: UserEntry| u@)
    }

    spec fn record_entries(&self) -> Seq<(RecordKey, RecordValue)> {
        self.records@.map_values(|s: RecordSlot| slot_entry(s))
    }

    /// The stored records, by owner and record id.
    pub closed spec fn records(&self) -> Map<RecordKey, RecordValue> {
        to_map(self.record_entries())
    }

    pub closed spec fn wf(&self) -> bool {
        keys_unique(self.record_entries())
    }
}

/// The first user for which `f` holds.
pub open spec fn first_user(users: Seq<UserView>, f: spec_fn(UserView) -> bool, i: int) -> Option<int>
    decreases users.len() - i,
{
    if i < 0 || i >= users.len() {
        None
    } else if f(users[i]) {
        Some(i)
    } else {
        first_user(users, f, i + 1)
    }
}

pub proof fn lemma_first_user(users: Seq<UserView>, f: spec_fn(UserView) -> bool, i: int)
    requires
        0 <= i,
    ensures
        first_user(users, f, i) matches Some(k) ==> i <= k < users.len() && f(users[k]) && forall|j: int|
            i <= j < k ==> !f(#[trigger] users[j]),
        first_user(users, f, i) is None ==> forall|j: int| i <= j < users.len() ==> !f(#[trigger] users[j]),
    decreases users.len() - i,
{
    if i < users.len() && !f(users[i]) {
        lemma_first_user(users, f, i + 1);
    }
}

pub open spec fn accepts(username: Seq<char>, password: Seq<char>) -> spec_fn(UserView) -> bool {
    |u: UserView| user_accepts(u, username, password)
}

pub open spec fn named(username: Seq<char>) -> spec_fn(UserView) -> bool {
    |u: UserView| u.username == username
}

pub open spec fn with_id(id: u128) -> spec_fn(UserView) -> bool {
    |u: UserView| u.id == id
}

pub open spec fn named_or_mailed(s: Seq<char>) -> spec_fn(UserView) -> bool {
    |u: UserView| u.username == s || u.email == s
}

impl Database {
    fn find_by_name(&self, name: &str, mail: bool) -> (r: Option<usize>)
        ensures
            match first_user(self.users(), if mail { named_or_mailed(name@) } else { named(name@) }, 0) {
                Some(k) => r matches Some(i) && i == k,
                None => r is None,
            },
            r matches Some(i) ==> i < self.users@.len(),
    {
        let ghost f = if mail { named_or_mailed(name@) } else { named(name@) };
        let mut i: usize = 0;
        while i < self.users.len()
            invariant
                i <= self.users.len(),
                f == if mail { named_or_mailed(name@) } else { named(name@) },
                first_user(self.users(), f, 0) == first_user(self.users(), f, i as int),
            decreases self.users.len() - i,
        {
            let u = &self.users[i];
            let hit = str_eq(u.username.as_str(), name) || (mail && str_eq(u.email.as_str(), name));
            assert(hit == f(self.users()[i as int]));
            if hit {
                assert(f(self.users()[i as int]));
                return Some(i);
            }
            i = i + 1;
        }
        None
    }

    fn find_by_id(&self, id: u128) -> (r: Option<usize>)
        ensures
            match first_user(self.users(), with_id(id), 0) {
                Some(k) => r matches Some(i) && i == k,
                None => r is None,
            },
            r matches Some(i) ==> i < self.users@.len(),
    {
        let mut i: usize = 0;
        while i < self.users.len()
            invariant
                i <= self.users.len(),
                first_user(self.users(), with_id(id), 0) == first_user(
                    self.users(),
                    with_id(id),
                    i as int,
                ),
            decreases self.users.len() - i,
        {
            if self.users[i].id == id {
                return Some(i);
            }
            i = i + 1;
        }
        None
    }

    fn find_accepting(&self, username: &str, password: &str) -> (r: Option<usize>)
        ensures
            match first_user(self.users(), accepts(username@, password@), 0) {
                Some(k) => r matches Some(i) && i == k,
                None => r is None,
            },
            r matches Some(i) ==> i < self.users@.len() && user_accepts(self.users()[i as int], username@, password@),
    {
        let mut i: usize = 0;
        while i < self.users.len()
            invariant
                i <= self.users.len(),
                first_user(self.users(), accepts(username@, password@), 0) == first_user(
                    self.users(),
                    accepts(username@, password@),
                    i as int,
                ),
            decreases self.users.len() - i,
        {
            if self.users[i].is_valid(username, password) {
                return Some(i);
            }
            i = i + 1;
        }
        None
    }

    fn find_record(&self, user_id: u128, id: DnsRecordId) -> (r: Option<usize>)
        ensures
            match r {
                Some(i) => i < self.record_entries().len() && self.record_entries()[i as int].0 == (
                user_id, id),
                None => forall|i: int| 0 <= i < self.record_entries().len() ==> #[trigger] self.record_entries()[i].0 != (user_id, id),
            },
    {
        let mut i: usize = 0;
        while i < self.records.len()
            invariant
                i <= self.records.len(),
                forall|j: int| 0 <= j < i ==> #[trigger] self.record_entries()[j].0 != (user_id, id),
            decreases self.records.len() - i,
        {
            if self.records[i].user_id == user_id && self.records[i].id == id {
                return Some(i);
            }
            i = i + 1;
        }
        None
    }
}

/// A configured user: active, with the configured name, a placeholder
/// email and a hash of the configured password.
pub open spec fn configured_user(c: (Seq<char>, Seq<char>), u: UserView) -> bool {
    &&& u.username == c.0
    &&& u.email == placeholder_email(c.0)
    &&& u.state == UserState::Active
    &&& password_matches_hash(c.1, u.password_hash)
    &&& u.last_login is None
}

/// The configured users, in configuration order.
pub open spec fn configured_users(config: Seq<(Seq<char>, Seq<char>)>, users: Seq<UserView>) -> bool {
    &&& users.len() == config.len()
    &&& forall|i: int| 0 <= i < users.len() ==> configured_user(config[i], #[trigger] users[i])
}

/// The stored record of a user as listed for that user.
pub open spec fn listed(r: DatabaseDnsRecordView, user_id: u128, m: Map<RecordKey, RecordValue>) -> bool {
    m.dom().contains((user_id, r.id)) && m[(user_id, r.id)] == (r.provider_key, r.record)
}

/// The entry under which a listed record is stored.
spec fn entry_of(user_id: u128, r: DatabaseDnsRecordView) -> (RecordKey, RecordValue) {
    ((user_id, r.id), (r.provider_key, r.record))
}

/// The record is stored among the first `n` entries.
spec fn entry_before(e: Seq<(RecordKey, RecordValue)>, n: int, user_id: u128, r: DatabaseDnsRecordView) -> bool {
    exists|j: int| 0 <= j < n && e[j] == entry_of(user_id, r)
}

spec fn has_id(v: Seq<DatabaseDnsRecord>, id: DnsRecordId) -> bool {
    exists|k: int| 0 <= k < v.len() && v[k].id == id
}

proof fn lemma_entry_before_grows(e: Seq<(RecordKey, RecordValue)>, n: int, user_id: u128, r: DatabaseDnsRecordView)
    requires
        entry_before(e, n, user_id, r),
    ensures
        entry_before(e, n + 1, user_id, r),
{
    let j = choose|j: int| 0 <= j < n && e[j] == entry_of(user_id, r);
    assert(0 <= j < n + 1 && e[j] == entry_of(user_id, r));
}

/// With unique keys, a record stored before `n` is not the one at `n`.
proof fn lemma_entry_before_not_at(e: Seq<(RecordKey, RecordValue)>, n: int, user_id: u128, r: DatabaseDnsRecordView)
    requires
        keys_unique(e),
        0 <= n < e.len(),
        entry_before(e, n, user_id, r),
    ensures
        e[n].0 != (user_id, r.id),
{
    let j = choose|j: int| 0 <= j < n && e[j] == entry_of(user_id, r);
    assert(e[j].0 == (user_id, r.id));
}

impl Database {
    /// Builds the database from configuration. Fails with `Unavailable`
    /// when an id, a password hash or the creation time cannot be made.
    pub fn new(config: Config) -> (r: Result<Database, Error>)
        ensures
            r matches Ok(db) ==> db.wf() && configured_users(
                config.0@.map_values(|p: (String, String)| (p.0@, p.1@)),
                db.users(),
            ) && db.records() == Map::<RecordKey, RecordValue>::empty(),
            r is Err ==> r == Err::<Database, Error>(Error::Unavailable),
    {
        let pairs = config.0;
        let ghost cfg = pairs@.map_values(|p: (String, String)| (p.0@, p.1@));
        let mut users: Vec<UserEntry> = Vec::new();
        let mut i: usize = 0;
        while i < pairs.len()
            invariant
                i <= pairs.len(),
                cfg == pairs@.map_values(|p: (String, String)| (p.0@, p.1@)),
                configured_users(
                    cfg.take(i as int),
                    users@.map_values(|u: UserEntry| u@),
                ),
            decreases pairs.len() - i,
        {
            let username = pairs[i].0.clone();
            let password_hash = match PasswordHash::new(pairs[i].1.as_str()) {
                Some(h) => h,
                None => return Err(Error::Unavailable),
            };
            let id = match crate::random::new_uuid_v4() {
                Some(id) => id,
                None => return Err(Error::Unavailable),
            };
            let created_at = match crate::clock::unix_timestamp() {
                Some(t) => t,
                None => return Err(Error::Unavailable),
            };
            let mut email = concat("\"", username.as_str());
            email.append("\"@example.com");
            let ghost before = users@.map_values(|u: UserEntry| u@);
            users.push(
                UserEntry {
                    id,
                    username,
                    password_hash,
                    email,
                    state: UserState::Active,
                    created_at,
                    last_login: None,
                },
            );
            proof {
                let now = users@.map_values(|u: UserEntry| u@);
                assert(now =~= before.push(now[i as int]));
                assert(cfg.take(i + 1) =~= cfg.take(i as int).push(cfg[i as int]));
                assert forall|k: int| 0 <= k < now.len() implies configured_user(
                    cfg.take(i + 1)[k],
                    #[trigger] now[k],
                ) by {
                    if k < i {
                        assert(now[k] == before[k]);
                        assert(cfg.take(i + 1)[k] == cfg.take(i as int)[k]);
                    } else {
                        assert(cfg.take(i + 1)[k] == cfg[i as int]);
                        assert(cfg[i as int] == (pairs@[i as int].0@, pairs@[i as int].1@));
                        assert(now[k] == users@[i as int]@);
                    }
                }
            }
            i = i + 1;
        }
        let db = Database { users, records: Vec::new() };
        proof {
            assert(cfg.take(pairs@.len() as int) =~= cfg);
            assert(db.record_entries() =~= Seq::<(RecordKey, RecordValue)>::empty());
            assert(db.records() =~= Map::<RecordKey, RecordValue>::empty());
        }
        Ok(db)
    }

    /// Whether some user accepts these credentials.
    pub fn is_valid(&self, username: &str, password: &str) -> (r: bool)
        ensures
            r == exists|i: int| 0 <= i < self.users().len() && user_accepts(
                #[trigger] self.users()[i],
                username@,
                password@,
            ),
    {
        proof {
            lemma_first_user(self.users(), accepts(username@, password@), 0);
        }
        match self.find_accepting(username, password) {
            Some(i) => {
                assert(user_accepts(self.users()[i as int], username@, password@));
                true
            },
            None => false,
        }
    }

    /// The id of the first user that accepts these credentials.
    pub fn validate_and_get_user_id(&self, username: &str, password: &str) -> (r: Option<u128>)
        ensures
            match first_user(self.users(), accepts(username@, password@), 0) {
                Some(k) => r == Some(self.users()[k].id),
                None => r is None,
            },
    {
        match self.find_accepting(username, password) {
            Some(i) => {
                assert(self.users()[i as int] == self.users@[i as int]@);
                Some(self.users[i].id)
            },
            None => None,
        }
    }

    /// Whether no user has this username.
    pub fn is_available(&self, username: &str) -> (r: bool)
        ensures
            r == forall|i: int| 0 <= i < self.users().len() ==> #[trigger] self.users()[i].username != username@,
    {
        proof {
            lemma_first_user(self.users(), named(username@), 0);
        }
        match self.find_by_name(username, false) {
            Some(i) => {
                assert(self.users()[i as int].username == username@);
                false
            },
            None => true,
        }
    }

    /// Signs up a new user, pending until activated. Fails if the username
    /// is taken, and with `Unavailable` when an id, the password hash or the
    /// creation time cannot be made.
    pub fn add_user(&mut self, username: &str, password: &str, email: &str) -> (r: Result<u128, Error>)
        requires
            old(self).wf(),
        ensures
            final(self).wf(),
            final(self).records() == old(self).records(),
            (exists|i: int| 0 <= i < old(self).users().len() && #[trigger] old(self).users()[i].username == username@)
                ==> r == Err::<u128, Error>(Error::UserExists) && final(self).users() == old(self).users(),
            !(exists|i: int| 0 <= i < old(self).users().len() && #[trigger] old(self).users()[i].username == username@)
                && r is Err ==> r == Err::<u128, Error>(Error::Unavailable) && final(self).users() == old(self).users(),
            !(exists|i: int| 0 <= i < old(self).users().len() && #[trigger] old(self).users()[i].username == username@)
                && r is Ok ==> (r matches Ok(id) && final(self).users().len() == old(self).users().len() + 1
                && final(self).users().drop_last() == old(self).users() && {
                let u = final(self).users().last();
                &&& u.id == id
                &&& crate::random::is_uuid_v4(id)
                &&& u.username == username@
                &&& u.email == email@
                &&& u.state == UserState::Pending
                &&& password_matches_hash(password@, u.password_hash)
                &&& u.last_login is None
            }),
    {
        proof {
            lemma_first_user(self.users(), named(username@), 0);
        }
        if let Some(i) = self.find_by_name(username, false) {
            assert(self.users()[i as int].username == username@);
            return Err(Error::UserExists);
        }
        let user_id = match crate::random::new_uuid_v4() {
            Some(id) => id,
            None => return Err(Error::Unavailable),
        };
        let password_hash = match PasswordHash::new(password) {
            Some(h) => h,
            None => return Err(Error::Unavailable),
        };
        let created_at = match crate::clock::unix_timestamp() {
            Some(t) => t,
            None => return Err(Error::Unavailable),
        };
        let ghost before = self.users();
        self.users.push(
            UserEntry {
                id: user_id,
                username: String::from_str(username),
                password_hash,
                email: String::from_str(email),
                state: UserState::Pending,
                created_at,
                last_login: None,
            },
        );
        proof {
            assert(self.users().drop_last() =~= before);
            assert(self.record_entries() == old(self).record_entries());
        }
        Ok(user_id)
    }

    /// Activates the first user with this id if that user is pending.
    pub fn activate_user(&mut self, uuid: u128) -> (r: Result<(), Error>)
        requires
            old(self).wf(),
        ensures
            final(self).wf(),
            final(self).records() == old(self).records(),
            match first_user(old(self).users(), with_id(uuid), 0) {
                Some(k) => if old(self).users()[k].state == UserState::Pending {
                    r is Ok && final(self).users() == old(self).users().update(
                        k,
                        UserView { state: UserState::Active, ..old(self).users()[k] },
                    )
                } else {
                    r == Err::<(), Error>(Error::UserNotFound) && final(self).users() == old(self).users()
                },
                None => r == Err::<(), Error>(Error::UserNotFound) && final(self).users() == old(self).users(),
            },
    {
        match self.find_by_id(uuid) {
            Some(i) => {
                if self.users[i].state == UserState::Pending {
                    let mut u = self.users[i].clone();
                    u.state = UserState::Active;
                    self.users.set(i, u);
                    proof {
                        assert(self.users() =~= old(self).users().update(
                            i as int,
                            UserView { state: UserState::Active, ..old(self).users()[i as int] },
                        ));
                        assert(self.record_entries() == old(self).record_entries());
                    }
                    Ok(())
                } else {
                    Err(Error::UserNotFound)
                }
            },
            None => Err(Error::UserNotFound),
        }
    }

    /// Replaces the password hash of the first user with this id.
    pub fn update_user_password(&mut self, user_id: u128, password: PasswordHash) -> (r: Result<(), Error>)
        requires
            old(self).wf(),
        ensures
            final(self).wf(),
            final(self).records() == old(self).records(),
            match first_user(old(self).users(), with_id(user_id), 0) {
                Some(k) => r is Ok && final(self).users() == old(self).users().update(
                    k,
                    UserView { password_hash: password@, ..old(self).users()[k] },
                ),
                None => r == Err::<(), Error>(Error::UserNotFound) && final(self).users() == old(self).users(),
            },
    {
        match self.find_by_id(user_id) {
            Some(i) => {
                let mut u = self.users[i].clone();
                u.password_hash = password;
                self.users.set(i, u);
                proof {
                    assert(self.users() =~= old(self).users().update(
                        i as int,
                        UserView { password_hash: password@, ..old(self).users()[i as int] },
                    ));
                    assert(self.record_entries() == old(self).record_entries());
                }
                Ok(())
            },
            None => Err(Error::UserNotFound),
        }
    }

    /// The first user whose username or email is the given text.
    pub fn get_user_by_username_or_email(&self, username_or_email: &str) -> (r: Result<Option<UserEntry>, Error>)
        ensures
            match first_user(self.users(), named_or_mailed(username_or_email@), 0) {
                Some(k) => r matches Ok(Some(u)) && u@ == self.users()[k],
                None => r matches Ok(None),
            },
    {
        match self.find_by_name(username_or_email, true) {
            Some(i) => Ok(Some(self.users[i].clone())),
            None => Ok(None),
        }
    }

    /// All records of a user, each once.
    pub fn get_user_dns_records(&self, user_id: u128) -> (r: Result<Vec<DatabaseDnsRecord>, Error>)
        requires
            self.wf(),
        ensures
            r matches Ok(v) && {
                &&& forall|i: int| 0 <= i < v@.len() ==> listed((#[trigger] v@[i])@, user_id, self.records())
                &&& forall|i: int, j: int| 0 <= i < v@.len() && 0 <= j < v@.len() && i != j ==> (#[trigger] v@[i]).id != (#[trigger] v@[j]).id
                &&& forall|id: DnsRecordId| #[trigger] self.records().dom().contains((user_id, id)) ==> exists|i: int| 0 <= i < v@.len() && v@[i].id == id
            },
    {
        let ghost e = self.record_entries();
        let mut out: Vec<DatabaseDnsRecord> = Vec::new();
        let mut i: usize = 0;
        while i < self.records.len()
            invariant
                e == self.record_entries(),
                keys_unique(e),
                i <= self.records.len(),
                forall|k: int| 0 <= k < out@.len() ==> entry_before(e, i as int, user_id, (#[trigger] out@[k])@),
                forall|a: int, b: int| 0 <= a < out@.len() && 0 <= b < out@.len() && a != b ==> (#[trigger] out@[a]).id != (#[trigger] out@[b]).id,
                forall|j: int| 0 <= j < i && (#[trigger] e[j]).0.0 == user_id ==> has_id(out@, e[j].0.1),
            decreases self.records.len() - i,
        {
            let slot = &self.records[i];
            let ghost before = out@;
            proof {
                assert(e[i as int] == slot_entry(self.records@[i as int]));
            }
            if slot.user_id == user_id {
                let rec = DatabaseDnsRecord {
                    id: slot.id,
                    provider_key: slot.provider_key.clone(),
                    record: slot.record.clone(),
                };
                out.push(rec);
                proof {
                    assert(out@[before.len() as int]@ == DatabaseDnsRecordView { id: slot.id, provider_key: slot.provider_key@, record: slot.record@ });
                    assert(entry_before(e, i + 1, user_id, out@[before.len() as int]@));
                    assert forall|k: int| 0 <= k < before.len() implies entry_before(e, i + 1, user_id, (#[trigger] out@[k])@) by {
                        assert(out@[k] == before[k]);
                        lemma_entry_before_grows(e, i as int, user_id, before[k]@);
                    }
                    assert forall|a: int, b: int| 0 <= a < out@.len() && 0 <= b < out@.len() && a != b implies (#[trigger] out@[a]).id != (#[trigger] out@[b]).id by {
                        if a < before.len() && b < before.len() {
                            assert(out@[a] == before[a]);
                            assert(out@[b] == before[b]);
                        } else if a < before.len() {
                            assert(out@[a] == before[a]);
                            lemma_entry_before_not_at(e, i as int, user_id, before[a]@);
                        } else if b < before.len() {
                            assert(out@[b] == before[b]);
                            lemma_entry_before_not_at(e, i as int, user_id, before[b]@);
                        }
                    }
                    assert forall|j: int| 0 <= j < i + 1 && (#[trigger] e[j]).0.0 == user_id implies has_id(out@, e[j].0.1) by {
                        if j < i {
                            let k = choose|k: int| 0 <= k < before.len() && before[k].id == e[j].0.1;
                            assert(out@[k] == before[k]);
                        } else {
                            assert(out@[before.len() as int].id == e[j].0.1);
                        }
                    }
                }
            } else {
                proof {
                    assert forall|k: int| 0 <= k < out@.len() implies entry_before(e, i + 1, user_id, (#[trigger] out@[k])@) by {
                        lemma_entry_before_grows(e, i as int, user_id, out@[k]@);
                    }
                }
            }
            i = i + 1;
        }
        proof {
            assert forall|k: int| 0 <= k < out@.len() implies listed((#[trigger] out@[k])@, user_id, self.records()) by {
                let j = choose|j: int| 0 <= j < e.len() && e[j] == entry_of(user_id, out@[k]@);
                lemma_to_map_lookup(e, (user_id, out@[k].id));
            }
            assert forall|id: DnsRecordId| #[trigger] self.records().dom().contains((user_id, id)) implies exists|k: int| 0 <= k < out@.len() && out@[k].id == id by {
                lemma_to_map_lookup(e, (user_id, id));
                let j = choose|j: int| 0 <= j < e.len() && #[trigger] e[j].0 == (user_id, id);
                assert(e[j].0.0 == user_id);
            }
        }
        Ok(out)
    }

    /// Stores a record for a user under a fresh random id; `Unavailable`
    /// when no id can be drawn.
    pub fn add_dns_record(&mut self, user_id: u128, record: Record, provider_key: String) -> (r: Result<DnsRecordId, Error>)
        requires
            old(self).wf(),
        ensures
            final(self).wf(),
            final(self).users() == old(self).users(),
            r matches Ok(id) ==> final(self).records() == old(self).records().insert(
                (user_id, id),
                (provider_key@, record@),
            ),
            r is Err ==> r == Err::<DnsRecordId, Error>(Error::Unavailable) && final(self).records()
                == old(self).records(),
    {
        let record_id = match DnsRecordId::new() {
            Some(id) => id,
            None => return Err(Error::Unavailable),
        };
        let ghost e = self.record_entries();
        let ghost v = (provider_key@, record@);
        let slot = RecordSlot { user_id, id: record_id, provider_key, record };
        match self.find_record(user_id, record_id) {
            Some(i) => {
                self.records.set(i, slot);
                proof {
                    assert(self.record_entries() =~= e.update(i as int, (e[i as int].0, v)));
                    lemma_to_map_update(e, i as int, v);
                }
            },
            None => {
                self.records.push(slot);
                proof {
                    assert(self.record_entries() =~= e.push(((user_id, record_id), v)));
                    lemma_to_map_push(e, (user_id, record_id), v);
                }
            },
        }
        Ok(record_id)
    }

    /// Replaces the record data of a stored record, keeping its provider key.
    pub fn update_dns_record(&mut self, user_id: u128, record_id: DnsRecordId, record: Record) -> (r: Result<(), Error>)
        requires
            old(self).wf(),
        ensures
            final(self).wf(),
            final(self).users() == old(self).users(),
            old(self).records().dom().contains((user_id, record_id)) ==> r is Ok
                && final(self).records() == old(self).records().insert(
                (user_id, record_id),
                (old(self).records()[(user_id, record_id)].0, record@),
            ),
            !old(self).records().dom().contains((user_id, record_id)) ==> r == Err::<(), Error>(
                Error::RecordNotFound,
            ) && final(self).records() == old(self).records(),
    {
        let ghost e = self.record_entries();
        proof {
            lemma_to_map_lookup(e, (user_id, record_id));
        }
        match self.find_record(user_id, record_id) {
            Some(i) => {
                let pk = self.records[i].provider_key.clone();
                let ghost v = (pk@, record@);
                self.records.set(i, RecordSlot { user_id, id: record_id, provider_key: pk, record });
                proof {
                    assert(self.record_entries() =~= e.update(i as int, (e[i as int].0, v)));
                    lemma_to_map_update(e, i as int, v);
                }
                Ok(())
            },
            None => Err(Error::RecordNotFound),
        }
    }

    /// Removes a stored record.
    pub fn delete_dns_record(&mut self, user_id: u128, record_id: DnsRecordId) -> (r: Result<(), Error>)
        requires
            old(self).wf(),
        ensures
            final(self).wf(),
            final(self).users() == old(self).users(),
            old(self).records().dom().contains((user_id, record_id)) ==> r is Ok
                && final(self).records() == old(self).records().remove((user_id, record_id)),
            !old(self).records().dom().contains((user_id, record_id)) ==> r == Err::<(), Error>(
                Error::RecordNotFound,
            ) && final(self).records() == old(self).records(),
    {
        let ghost e = self.record_entries();
        proof {
            lemma_to_map_lookup(e, (user_id, record_id));
        }
        match self.find_record(user_id, record_id) {
            Some(i) => {
                self.records.remove(i);
                proof {
                    assert(self.record_entries() =~= e.remove(i as int));
                    lemma_to_map_remove(e, i as int);
                }
                Ok(())
            },
            None => Err(Error::RecordNotFound),
        }
    }

    /// The provider key of a stored record, as it was stored.
    pub fn get_dns_record_provider_key(&self, user_id: u128, record_id: DnsRecordId) -> (r: Result<String, Error>)
        requires
            self.wf(),
        ensures
            self.records().dom().contains((user_id, record_id)) ==> (r matches Ok(k) && k@
                == self.records()[(user_id, record_id)].0),
            !self.records().dom().contains((user_id, record_id)) ==> r == Err::<String, Error>(
                Error::RecordNotFound,
            ),
    {
        let ghost e = self.record_entries();
        proof {
            lemma_to_map_lookup(e, (user_id, record_id));
        }
        match self.find_record(user_id, record_id) {
            Some(i) => Ok(self.records[i].provider_key.clone()),
            None => Err(Error::RecordNotFound),
        }
    }
}

/// Signing up, then activating with the id that sign-up returned, lets the
/// user log in with the password they chose, and login gives that id. This
/// holds when the fresh id is not already taken (ids are random UUIDs); the
/// username is free because sign-up refuses a taken one.
pub proof fn lemma_signup_activate_login(us: Seq<UserView>, u: UserView, password: Seq<char>)
    requires
        u.state == UserState::Pending,
        password_matches_hash(password, u.password_hash),
        forall|i: int| 0 <= i < us.len() ==> (#[trigger] us[i]).id != u.id && us[i].username != u.username,
    ensures
        first_user(us.push(u), with_id(u.id), 0) == Some(us.len() as int),
        first_user(
            us.push(u).update(us.len() as int, UserView { state: UserState::Active, ..u }),
            accepts(u.username, password),
            0,
        ) == Some(us.len() as int),
{
    let us2 = us.push(u);
    lemma_first_user(us2, with_id(u.id), 0);
    match first_user(us2, with_id(u.id), 0) {
        Some(k) => {
            if k < us.len() {
                assert(us2[k] == us[k]);
            }
        },
        None => {
            assert(us2[us.len() as int] == u);
        },
    }
    let us3 = us2.update(us.len() as int, UserView { state: UserState::Active, ..u });
    lemma_first_user(us3, accepts(u.username, password), 0);
    match first_user(us3, accepts(u.username, password), 0) {
        Some(k) => {
            if k < us.len() {
                assert(us3[k] == us[k]);
            }
        },
        None => {
            assert(user_accepts(us3[us.len() as int], u.username, password));
        },
    }
}

} // verus!
