//! User storage: accounts, their states and password hashes, and the DNS
//! records each user owns; provider selection from configuration.

pub mod dummy;
pub mod csv;
pub mod rows;

use vstd::prelude::*;
use crate::dns::record::{Record, RecordView};
use crate::text::concat;

verus! {

/// What `password_auth::verify_password` decides for a password and a hash.
pub uninterp spec fn password_matches_hash(password: Seq<char>, hash: Seq<char>) -> bool;

/// `password_auth::verify_password`: whether the password matches the hash.
/// The answer depends only on the two texts.
#[verifier::external_body]
fn verify_password(password: &str, hash: &str) -> (r: bool)
    ensures
        r == password_matches_hash(password@, hash@),
{
    password_auth::verify_password(password.as_bytes(), hash).is_ok()
}

#[verifier::external_type_specification]
#[verifier::external_body]
pub struct ExSaltString(argon2::password_hash::SaltString);

/// `argon2::password_hash::SaltString::encode_b64`: the salt text of the
/// given bytes, or `None` when they do not fit a salt. Nothing is stated of
/// the text.
#[verifier::external_body]
fn salt_string(bytes: &Vec<u8>) -> (r: Option<argon2::password_hash::SaltString>) {
    argon2::password_hash::SaltString::encode_b64(bytes.as_slice()).ok()
}

/// `argon2::Argon2::default().hash_password` with the given salt, as a PHC
/// string: `None` when Argon2 refuses the input (a password longer than
/// `u32::MAX` bytes). A hash that comes back verifies against the password
/// under `password_auth::verify_password`, which checks Argon2 hashes with
/// the parameters the hash records.
#[verifier::external_body]
fn argon2_hash(password: &str, salt: &argon2::password_hash::SaltString) -> (r: Option<String>)
    ensures
        r matches Some(h) ==> password_matches_hash(password@, h@),
{
    argon2::PasswordHasher::hash_password(&argon2::Argon2::default(), password.as_bytes(), salt)
        .ok()
        .map(|h| h.to_string())
}

/// A password hash in PHC string format.
pub struct PasswordHash(String);

impl View for PasswordHash {
    type V = Seq<char>;

    closed spec fn view(&self) -> Seq<char> {
        self.0@
    }
}

impl Clone for PasswordHash {
    fn clone(&self) -> (r: Self)
        ensures
            r@ == self@,
    {
        PasswordHash(self.0.clone())
    }
}

impl PasswordHash {
    /// Hashes a password with Argon2 and a fresh random 16-byte salt;
    /// `None` when the operating system's random source fails or Argon2
    /// refuses the password.
    pub fn new(password: &str) -> (r: Option<PasswordHash>)
        ensures
            r matches Some(h) ==> password_matches_hash(password@, h@),
    {
        let bytes = match crate::random::random_bytes(16) {
            Some(b) => b,
            None => return None,
        };
        let salt = match salt_string(&bytes) {
            Some(s) => s,
            None => return None,
        };
        match argon2_hash(password, &salt) {
            Some(h) => Some(PasswordHash(h)),
            None => None,
        }
    }

    /// The hash in PHC string format.
    pub fn into_string(self) -> (r: String)
        ensures
            r@ == self@,
    {
        self.0
    }

    /// Whether the password matches this hash.
    pub fn validate(&self, password: &str) -> (r: bool)
        ensures
            r == password_matches_hash(password@, self@),
    {
        verify_password(password, self.0.as_str())
    }

    /// A hash read back from storage.
    pub fn from_raw(raw: String) -> (r: PasswordHash)
        ensures
            r@ == raw@,
    {
        PasswordHash(raw)
    }
}

/// Account states: signed up (email not confirmed), active, deactivated,
/// banned. Only active users can log in.
#[derive(Clone, Copy, PartialEq, Eq, Debug, Structural)]
pub enum UserState {
    Pending,
    Active,
    Inactive,
    Banned,
}

pub open spec fn user_state_code(s: UserState) -> i32 {
    match s {
        UserState::Pending => 0,
        UserState::Active => 1,
        UserState::Inactive => 2,
        UserState::Banned => 3,
    }
}

impl UserState {
    /// The state stored as a number (0 pending, 1 active, 2 inactive,
    /// 3 banned), or `None` for any other number.
    pub fn from_code(code: i32) -> (r: Option<UserState>)
        ensures
            0 <= code <= 3 ==> (r matches Some(s) && user_state_code(s) == code),
            !(0 <= code <= 3) ==> r is None,
    {
        match code {
            0 => Some(UserState::Pending),
            1 => Some(UserState::Active),
            2 => Some(UserState::Inactive),
            3 => Some(UserState::Banned),
            _ => None,
        }
    }

    /// The stored number of this state.
    pub fn code(self) -> (r: i32)
        ensures
            r == user_state_code(self),
    {
        match self {
            UserState::Pending => 0,
            UserState::Active => 1,
            UserState::Inactive => 2,
            UserState::Banned => 3,
        }
    }
}

/// A user account. The id is also the key that activates the account.
pub struct UserEntry {
    pub id: u128,
    pub username: String,
    pub password_hash: PasswordHash,
    pub email: String,
    pub state: UserState,
    /// Seconds since the Unix epoch.
    pub created_at: i64,
    pub last_login: Option<i64>,
}

pub struct UserView {
    pub id: u128,
    pub username: Seq<char>,
    pub password_hash: Seq<char>,
    pub email: Seq<char>,
    pub state: UserState,
    pub created_at: i64,
    pub last_login: Option<i64>,
}

impl View for UserEntry {
    type V = UserView;

    open spec fn view(&self) -> UserView {
        UserView {
            id: self.id,
            username: self.username@,
            password_hash: self.password_hash@,
            email: self.email@,
            state: self.state,
            created_at: self.created_at,
            last_login: self.last_login,
        }
    }
}

impl Clone for UserEntry {
    fn clone(&self) -> (r: Self)
        ensures
            r@ == self@,
    {
        UserEntry {
            id: self.id,
            username: self.username.clone(),
            password_hash: self.password_hash.clone(),
            email: self.email.clone(),
            state: self.state,
            created_at: self.created_at,
            last_login: self.last_login,
        }
    }
}

/// A user can log in with a username and password when the account is
/// active, the username is theirs and the password matches the hash.
pub open spec fn user_accepts(u: UserView, username: Seq<char>, password: Seq<char>) -> bool {
    u.state == UserState::Active && u.username == username && password_matches_hash(
        password,
        u.password_hash,
    )
}

impl UserEntry {
    pub fn is_active(&self) -> (r: bool)
        ensures
            r == (self.state == UserState::Active),
    {
        self.state == UserState::Active
    }

    /// Checks the credentials; state and username are checked before the
    /// (expensive) password hash.
    pub fn is_valid(&self, username: &str, password: &str) -> (r: bool)
        ensures
            r == user_accepts(self@, username@, password@),
    {
        self.is_active() && crate::text::str_eq(self.username.as_str(), username)
            && self.password_hash.validate(password)
    }
}

/// The id of a DNS record in the user database.
#[derive(Clone, Copy, PartialEq, Eq, Debug, Structural)]
pub struct DnsRecordId(pub u128);

impl DnsRecordId {
    /// A fresh random id (UUID v4), or `None` when the operating system's
    /// random source fails.
    pub fn new() -> (r: Option<DnsRecordId>)
        ensures
            r matches Some(id) ==> crate::random::is_uuid_v4(id.0),
    {
        match crate::random::new_uuid_v4() {
            Some(id) => Some(DnsRecordId(id)),
            None => None,
        }
    }
}

impl From<u128> for DnsRecordId {
    fn from(uuid: u128) -> (r: Self) {
        DnsRecordId(uuid)
    }
}

impl vstd::std_specs::convert::FromSpecImpl<u128> for DnsRecordId {
    open spec fn obeys_from_spec() -> bool {
        true
    }

    open spec fn from_spec(v: u128) -> DnsRecordId {
        DnsRecordId(v)
    }
}

/// A DNS record as stored for a user, with the key of its copy at the provider.
pub struct DatabaseDnsRecord {
    pub id: DnsRecordId,
    pub provider_key: String,
    pub record: Record,
}

pub struct DatabaseDnsRecordView {
    pub id: DnsRecordId,
    pub provider_key: Seq<char>,
    pub record: RecordView,
}

impl View for DatabaseDnsRecord {
    type V = DatabaseDnsRecordView;

    open spec fn view(&self) -> DatabaseDnsRecordView {
        DatabaseDnsRecordView { id: self.id, provider_key: self.provider_key@, record: self.record@ }
    }
}

impl Clone for DatabaseDnsRecord {
    fn clone(&self) -> (r: Self)
        ensures
            r@ == self@,
    {
        DatabaseDnsRecord {
            id: self.id,
            provider_key: self.provider_key.clone(),
            record: self.record.clone(),
        }
    }
}

/// Logic errors shared by user databases, around an implementation's own error.
pub enum Error<E> {
    UserExists,
    UserNotFound,
    RecordNotFound,
    ImplementorError(E),
}

/// A section read for a provider that this build does not include: its
/// contents are accepted and ignored.
pub struct Disabled;

/// Available user database providers.
#[derive(Clone, Copy, PartialEq, Eq, Debug, Structural)]
pub enum Providers {
    Dummy,
    Csv,
    Diesel,
}

pub open spec fn provider_name(p: Providers) -> Seq<char> {
    match p {
        Providers::Dummy => "dummy"@,
        Providers::Csv => "csv"@,
        Providers::Diesel => "diesel"@,
    }
}

impl Providers {
    /// The provider's lowercase name, as written in configuration files.
    pub fn name(&self) -> (r: &'static str)
        ensures
            r@ == provider_name(*self),
    {
        match self {
            Providers::Dummy => "dummy",
            Providers::Csv => "csv",
            Providers::Diesel => "diesel",
        }
    }
}

/// Configuration of the SQLite database.
pub struct DieselConfig {
    pub database_url: String,
}

/// User database configuration: an optional explicit provider choice and
/// one optional section per provider.
pub struct Config {
    pub provider: Option<Providers>,
    pub dummy: Option<dummy::Config>,
    pub csv: Option<csv::Config>,
    pub diesel: Option<DieselConfig>,
}

/// Which providers this build can run.
#[derive(Clone, Copy, PartialEq, Eq, Debug, Structural)]
pub struct Compiled {
    pub dummy: bool,
    pub csv: bool,
    pub diesel: bool,
}

pub open spec fn is_compiled(c: Compiled, p: Providers) -> bool {
    match p {
        Providers::Dummy => c.dummy,
        Providers::Csv => c.csv,
        Providers::Diesel => c.diesel,
    }
}

/// Errors of provider selection.
pub enum ConfigError {
    MissingConfig(&'static str),
    CantChoseProvider,
    /// The selected provider was not compiled into this binary.
    ProviderNotCompiled(String),
}

impl ConfigError {
    /// The message shown for this error.
    pub fn message(&self) -> (r: String)
        ensures
            r@ == match self {
                ConfigError::MissingConfig(m) => "Missing configuration for selected provider: "@ + m@,
                ConfigError::CantChoseProvider =>
                    "Multiple providers specified, please choose one with `provider` field or set only one in the config"@,
                ConfigError::ProviderNotCompiled(p) => "Provider '"@ + p@
                    + "' was selected but is not compiled into this binary. Recompile with the '"@
                    + p@ + "' feature enabled."@,
            },
    {
        match self {
            ConfigError::MissingConfig(m) => concat("Missing configuration for selected provider: ", m),
            ConfigError::CantChoseProvider => String::from_str(
                "Multiple providers specified, please choose one with `provider` field or set only one in the config",
            ),
            ConfigError::ProviderNotCompiled(p) => {
                let mut s = concat("Provider '", p.as_str());
                s.append("' was selected but is not compiled into this binary. Recompile with the '");
                s.append(p.as_str());
                s.append("' feature enabled.");
                s
            },
        }
    }
}

pub open spec fn present_count(c: &Config) -> nat {
    (if c.dummy is Some { 1nat } else { 0nat }) + (if c.csv is Some { 1nat } else { 0nat })
        + (if c.diesel is Some { 1nat } else { 0nat })
}

/// The active provider: the explicit choice if given, else the only
/// configured section; none or several sections are errors.
pub open spec fn active_spec(c: &Config) -> Result<Providers, ()> {
    match c.provider {
        Some(p) => Ok(p),
        None => if present_count(c) == 1 {
            if c.dummy is Some {
                Ok(Providers::Dummy)
            } else if c.csv is Some {
                Ok(Providers::Csv)
            } else {
                Ok(Providers::Diesel)
            }
        } else {
            Err(())
        },
    }
}

pub open spec fn section_present(c: &Config, p: Providers) -> bool {
    match p {
        Providers::Dummy => c.dummy is Some,
        Providers::Csv => c.csv is Some,
        Providers::Diesel => c.diesel is Some,
    }
}

pub open spec fn missing_config_name(p: Providers) -> Seq<char> {
    match p {
        Providers::Dummy => "Dummy"@,
        Providers::Csv => "Csv"@,
        Providers::Diesel => "Diesel"@,
    }
}

impl Config {
    /// Returns which provider is active, looking at every section whether
    /// or not its provider is compiled in.
    pub fn active(&self) -> (r: Result<Providers, ConfigError>)
        ensures
            match active_spec(self) {
                Ok(p) => r == Ok::<Providers, ConfigError>(p),
                Err(_) => if present_count(self) == 0 {
                    r matches Err(ConfigError::MissingConfig(m)) && m@ == "No provider specified"@
                } else {
                    r matches Err(ConfigError::CantChoseProvider)
                },
            },
    {
        if let Some(provider) = self.provider {
            return Ok(provider);
        }
        let mut found: Option<Providers> = None;
        let mut count: u32 = 0;
        if self.dummy.is_some() {
            found = Some(Providers::Dummy);
            count += 1;
        }
        if self.csv.is_some() {
            found = Some(Providers::Csv);
            count += 1;
        }
        if self.diesel.is_some() {
            found = Some(Providers::Diesel);
            count += 1;
        }
        match (found, count) {
            (Some(p), 1) => Ok(p),
            (None, 0) => Err(ConfigError::MissingConfig("No provider specified")),
            _ => Err(ConfigError::CantChoseProvider),
        }
    }

    /// The provider that a database built from this configuration runs:
    /// the active one, provided it is compiled in and its section is present.
    pub fn select(&self, compiled: Compiled) -> (r: Result<Providers, ConfigError>)
        ensures
            match active_spec(self) {
                Ok(p) => if !is_compiled(compiled, p) {
                    r matches Err(ConfigError::ProviderNotCompiled(n)) && n@ == provider_name(p)
                } else if !section_present(self, p) {
                    r matches Err(ConfigError::MissingConfig(n)) && n@ == missing_config_name(p)
                } else {
                    r == Ok::<Providers, ConfigError>(p)
                },
                Err(_) => if present_count(self) == 0 {
                    r matches Err(ConfigError::MissingConfig(m)) && m@ == "No provider specified"@
                } else {
                    r matches Err(ConfigError::CantChoseProvider)
                },
            },
    {
        let selected = match self.active() {
            Ok(p) => p,
            Err(e) => return Err(e),
        };
        let compiled_in = match selected {
            Providers::Dummy => compiled.dummy,
            Providers::Csv => compiled.csv,
            Providers::Diesel => compiled.diesel,
        };
        if !compiled_in {
            return Err(ConfigError::ProviderNotCompiled(String::from_str(selected.name())));
        }
        match selected {
            Providers::Dummy => if self.dummy.is_none() {
                return Err(ConfigError::MissingConfig("Dummy"));
            },
            Providers::Csv => if self.csv.is_none() {
                return Err(ConfigError::MissingConfig("Csv"));
            },
            Providers::Diesel => if self.diesel.is_none() {
                return Err(ConfigError::MissingConfig("Diesel"));
            },
        }
        Ok(selected)
    }

    /// Sections present for providers that are not compiled in: their
    /// contents are not checked, which the caller reports as a warning.
    pub fn uncompiled_sections(&self, compiled: Compiled) -> (r: Vec<Providers>)
        ensures
            r@ == (if self.dummy is Some && !compiled.dummy {
                seq![Providers::Dummy]
            } else {
                Seq::empty()
            }) + (if self.csv is Some && !compiled.csv {
                seq![Providers::Csv]
            } else {
                Seq::empty()
            }) + (if self.diesel is Some && !compiled.diesel {
                seq![Providers::Diesel]
            } else {
                Seq::empty()
            }),
    {
        let mut r: Vec<Providers> = Vec::new();
        if self.dummy.is_some() && !compiled.dummy {
            r.push(Providers::Dummy);
        }
        if self.csv.is_some() && !compiled.csv {
            r.push(Providers::Csv);
        }
        if self.diesel.is_some() && !compiled.diesel {
            r.push(Providers::Diesel);
        }
        proof {
            assert(r@ =~= (if self.dummy is Some && !compiled.dummy {
                seq![Providers::Dummy]
            } else {
                Seq::empty()
            }) + (if self.csv is Some && !compiled.csv {
                seq![Providers::Csv]
            } else {
                Seq::empty()
            }) + (if self.diesel is Some && !compiled.diesel {
                seq![Providers::Diesel]
            } else {
                Seq::empty()
            }));
        }
        r
    }
}

} // verus!
