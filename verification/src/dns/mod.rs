//! DNS providers: the record model, provider selection from configuration,
//! the provider-independent record key, and the in-memory provider.

pub mod record;
pub mod dummy;
pub mod porkbun;
pub mod hickory;

use vstd::prelude::*;
use crate::text::{
    chars_of, concat, dec_seq, eq_chars, int_error_message, int_error_str, parse_unsigned,
    parse_unsigned_exec, split_once, split_once_exec, string_from_chars, u64_to_decimal,
};

verus! {

/// A section read for a provider that this build does not include: its
/// contents are accepted and ignored.
pub struct Disabled;

/// Available DNS providers.
#[derive(Clone, Copy, PartialEq, Eq, Debug, Structural)]
pub enum Providers {
    Porkbun,
    Dummy,
    Hickory,
}

pub open spec fn provider_name(p: Providers) -> Seq<char> {
    match p {
        Providers::Porkbun => "porkbun"@,
        Providers::Dummy => "dummy"@,
        Providers::Hickory => "hickory"@,
    }
}

impl Providers {
    /// The provider's lowercase name, as written in configuration files.
    pub fn name(&self) -> (r: &'static str)
        ensures
            r@ == provider_name(*self),
    {
        match self {
            Providers::Porkbun => "porkbun",
            Providers::Dummy => "dummy",
            Providers::Hickory => "hickory",
        }
    }
}

/// DNS configuration: an optional explicit provider choice and one optional
/// section per provider.
pub struct Config {
    pub provider: Option<Providers>,
    pub porkbun: Option<porkbun::Config>,
    pub dummy: Option<dummy::Config>,
    pub hickory: Option<hickory::Config>,
}

/// Which providers this build can run.
#[derive(Clone, Copy, PartialEq, Eq, Debug, Structural)]
pub struct Compiled {
    pub porkbun: bool,
    pub dummy: bool,
    pub hickory: bool,
}

pub open spec fn is_compiled(c: Compiled, p: Providers) -> bool {
    match p {
        Providers::Porkbun => c.porkbun,
        Providers::Dummy => c.dummy,
        Providers::Hickory => c.hickory,
    }
}

/// Errors of the DNS layer.
pub enum Error {
    Dummy(dummy::Error),
    MissingConfig(&'static str),
    CantChoseProvider,
    NoConfig,
    /// The selected provider was not compiled into this binary.
    ProviderNotCompiled(String),
}

impl Error {
    /// The message shown for this error.
    pub fn message(&self) -> (r: String)
        ensures
            r@ == match self {
                Error::Dummy(e) => dummy::error_message(*e),
                Error::MissingConfig(m) => "Missing configuration for selected provider: "@ + m@,
                Error::CantChoseProvider =>
                    "Multiple providers specified, please choose one with `provider` field or set only one in the config"@,
                Error::NoConfig => "No configuration provided"@,
                Error::ProviderNotCompiled(p) => "Provider '"@ + p@
                    + "' was selected but is not compiled into this binary. Recompile with the '"@
                    + p@ + "' feature enabled."@,
            },
    {
        match self {
            Error::Dummy(e) => e.message(),
            Error::MissingConfig(m) => concat("Missing configuration for selected provider: ", m),
            Error::CantChoseProvider => String::from_str(
                "Multiple providers specified, please choose one with `provider` field or set only one in the config",
            ),
            Error::NoConfig => String::from_str("No configuration provided"),
            Error::ProviderNotCompiled(p) => {
                let mut s = concat("Provider '", p.as_str());
                s.append("' was selected but is not compiled into this binary. Recompile with the '");
                s.append(p.as_str());
                s.append("' feature enabled.");
                s
            },
        }
    }
}

/// Which sections of a configuration are present, in declaration order.
pub open spec fn present_count(c: &Config) -> nat {
    (if c.porkbun is Some { 1nat } else { 0nat }) + (if c.dummy is Some { 1nat } else { 0nat })
        + (if c.hickory is Some { 1nat } else { 0nat })
}

/// The active provider: the explicit choice if given, else the only
/// configured section; none or several sections are errors.
pub open spec fn active_spec(c: &Config) -> Result<Providers, ()> {
    match c.provider {
        Some(p) => Ok(p),
        None => if present_count(c) == 1 {
            if c.porkbun is Some {
                Ok(Providers::Porkbun)
            } else if c.dummy is Some {
                Ok(Providers::Dummy)
            } else {
                Ok(Providers::Hickory)
            }
        } else {
            Err(())
        },
    }
}

pub open spec fn section_present(c: &Config, p: Providers) -> bool {
    match p {
        Providers::Porkbun => c.porkbun is Some,
        Providers::Dummy => c.dummy is Some,
        Providers::Hickory => c.hickory is Some,
    }
}

pub open spec fn missing_config_name(p: Providers) -> Seq<char> {
    match p {
        Providers::Porkbun => "Porkbun"@,
        Providers::Dummy => "Dummy"@,
        Providers::Hickory => "Hickory"@,
    }
}

/// The active provider is the explicit choice when one is given; without
/// one, a configuration with exactly one section present runs the provider
/// of that section, and one with no section or several has none.
pub proof fn lemma_active_is_chosen_or_only_section(c: &Config)
    ensures
        c.provider matches Some(p) ==> active_spec(c) == Ok::<Providers, ()>(p),
        c.provider is None && present_count(c) == 1 ==> (active_spec(c) matches Ok(p) && section_present(c, p)),
        c.provider is None && present_count(c) != 1 ==> active_spec(c) is Err,
{
}

impl Config {
    /// Returns which provider is active, looking at every section whether
    /// or not its provider is compiled in.
    pub fn active(&self) -> (r: Result<Providers, Error>)
        ensures
            match active_spec(self) {
                Ok(p) => r == Ok::<Providers, Error>(p),
                Err(_) => if present_count(self) == 0 {
                    r matches Err(Error::NoConfig)
                } else {
                    r matches Err(Error::CantChoseProvider)
                },
            },
    {
        if let Some(provider) = self.provider {
            return Ok(provider);
        }
        let mut found: Option<Providers> = None;
        let mut count: u32 = 0;
        if self.porkbun.is_some() {
            found = Some(Providers::Porkbun);
            count += 1;
        }
        if self.dummy.is_some() {
            found = Some(Providers::Dummy);
            count += 1;
        }
        if self.hickory.is_some() {
            found = Some(Providers::Hickory);
            count += 1;
        }
        match (found, count) {
            (Some(p), 1) => Ok(p),
            (None, 0) => Err(Error::NoConfig),
            _ => Err(Error::CantChoseProvider),
        }
    }

    /// The provider that a DNS layer built from this configuration runs:
    /// the active one, provided it is compiled in and its section is present.
    pub fn select(&self, compiled: Compiled) -> (r: Result<Providers, Error>)
        ensures
            match active_spec(self) {
                Ok(p) => if !is_compiled(compiled, p) {
                    r matches Err(Error::ProviderNotCompiled(n)) && n@ == provider_name(p)
                } else if !section_present(self, p) {
                    r matches Err(Error::MissingConfig(n)) && n@ == missing_config_name(p)
                } else {
                    r == Ok::<Providers, Error>(p)
                },
                Err(_) => if present_count(self) == 0 {
                    r matches Err(Error::NoConfig)
                } else {
                    r matches Err(Error::CantChoseProvider)
                },
            },
    {
        let selected = match self.active() {
            Ok(p) => p,
            Err(e) => return Err(e),
        };
        let compiled_in = match selected {
            Providers::Porkbun => compiled.porkbun,
            Providers::Dummy => compiled.dummy,
            Providers::Hickory => compiled.hickory,
        };
        if !compiled_in {
            return Err(Error::ProviderNotCompiled(String::from_str(selected.name())));
        }
        match selected {
            Providers::Porkbun => if self.porkbun.is_none() {
                return Err(Error::MissingConfig("Porkbun"));
            },
            Providers::Dummy => if self.dummy.is_none() {
                return Err(Error::MissingConfig("Dummy"));
            },
            Providers::Hickory => if self.hickory.is_none() {
                return Err(Error::MissingConfig("Hickory"));
            },
        }
        Ok(selected)
    }

    /// Sections present for providers that are not compiled in: their
    /// contents are not checked, which the caller reports as a warning.
    pub fn uncompiled_sections(&self, compiled: Compiled) -> (r: Vec<Providers>)
        ensures
            r@ == (if self.porkbun is Some && !compiled.porkbun {
                seq![Providers::Porkbun]
            } else {
                Seq::empty()
            }) + (if self.dummy is Some && !compiled.dummy {
                seq![Providers::Dummy]
            } else {
                Seq::empty()
            }) + (if self.hickory is Some && !compiled.hickory {
                seq![Providers::Hickory]
            } else {
                Seq::empty()
            }),
    {
        let mut r: Vec<Providers> = Vec::new();
        if self.porkbun.is_some() && !compiled.porkbun {
            r.push(Providers::Porkbun);
        }
        if self.dummy.is_some() && !compiled.dummy {
            r.push(Providers::Dummy);
        }
        if self.hickory.is_some() && !compiled.hickory {
            r.push(Providers::Hickory);
        }
        proof {
            assert(r@ =~= (if self.porkbun is Some && !compiled.porkbun {
                seq![Providers::Porkbun]
            } else {
                Seq::empty()
            }) + (if self.dummy is Some && !compiled.dummy {
                seq![Providers::Dummy]
            } else {
                Seq::empty()
            }) + (if self.hickory is Some && !compiled.hickory {
                seq![Providers::Hickory]
            } else {
                Seq::empty()
            }));
        }
        r
    }
}

/// The key of a record at its provider, tagged with the provider.
pub enum Key {
    Porkbun(String),
    Dummy(usize),
    Hickory(u64),
}

/// The value of a key, with the provider's own key as a plain value.
pub enum KeyView {
    Porkbun(Seq<char>),
    Dummy(nat),
    Hickory(nat),
}

impl View for Key {
    type V = KeyView;

    open spec fn view(&self) -> KeyView {
        match self {
            Key::Porkbun(s) => KeyView::Porkbun(s@),
            Key::Dummy(n) => KeyView::Dummy(*n as nat),
            Key::Hickory(n) => KeyView::Hickory(*n as nat),
        }
    }
}

/// Text form of a key: `Porkbun:<id>`, `Dummy:<index>` or `Hickory:<id>`.
pub open spec fn key_text(k: KeyView) -> Seq<char> {
    match k {
        KeyView::Porkbun(s) => "Porkbun:"@ + s,
        KeyView::Dummy(n) => "Dummy:"@ + dec_seq(n),
        KeyView::Hickory(n) => "Hickory:"@ + dec_seq(n),
    }
}

pub open spec fn invalid_key_message(key: Seq<char>, e: crate::text::IntErrorKind) -> Seq<char> {
    "Invalid key "@ + key + ": "@ + int_error_message(e)
}

/// Parsing the text form of a key.
pub open spec fn parse_key(s: Seq<char>) -> Result<KeyView, Seq<char>> {
    match split_once(s, ':') {
        None => Err("Invalid key format"@),
        Some((provider, key)) => if provider == "Porkbun"@ {
            Ok(KeyView::Porkbun(key))
        } else if provider == "Dummy"@ {
            match parse_unsigned(key, usize::MAX as nat) {
                Ok(n) => Ok(KeyView::Dummy(n)),
                Err(e) => Err(invalid_key_message(key, e)),
            }
        } else if provider == "Hickory"@ {
            match parse_unsigned(key, u64::MAX as nat) {
                Ok(n) => Ok(KeyView::Hickory(n)),
                Err(e) => Err(invalid_key_message(key, e)),
            }
        } else {
            Err("Invalid provider"@)
        },
    }
}

fn invalid_key(key: &str, e: crate::text::IntErrorKind) -> (r: String)
    ensures
        r@ == invalid_key_message(key@, e),
{
    let mut s = concat("Invalid key ", key);
    s.append(": ");
    s.append(int_error_str(e));
    s
}


proof fn lemma_tagged_split(tag: Seq<char>, rest: Seq<char>)
    requires
        forall|j: int| 0 <= j < tag.len() ==> tag[j] != ':',
    ensures
        split_once(tag + seq![':'] + rest, ':') == Some((tag, rest)),
{
    crate::text::lemma_first_index_after(tag, ':', rest, 0);
    let t = tag + seq![':'] + rest;
    assert(t.take(tag.len() as int) =~= tag);
    assert(t.skip(tag.len() + 1int) =~= rest);
}

/// A key written as text, as stored in the user database, parses back to
/// the same key.
pub proof fn lemma_key_text_roundtrip(k: KeyView)
    requires
        k matches KeyView::Dummy(n) ==> n <= usize::MAX,
        k matches KeyView::Hickory(n) ==> n <= u64::MAX,
    ensures
        parse_key(key_text(k)) == Ok::<KeyView, Seq<char>>(k),
{
    reveal_strlit("Porkbun:");
    reveal_strlit("Porkbun");
    reveal_strlit("Dummy:");
    reveal_strlit("Dummy");
    reveal_strlit("Hickory:");
    reveal_strlit("Hickory");
    match k {
        KeyView::Porkbun(s) => {
            assert("Porkbun:"@ + s =~= "Porkbun"@ + seq![':'] + s);
            lemma_tagged_split("Porkbun"@, s);
        },
        KeyView::Dummy(n) => {
            assert("Dummy:"@ + dec_seq(n) =~= "Dummy"@ + seq![':'] + dec_seq(n));
            lemma_tagged_split("Dummy"@, dec_seq(n));
            crate::text::lemma_parse_dec(n, usize::MAX as nat);
            assert("Dummy"@ != "Porkbun"@);
        },
        KeyView::Hickory(n) => {
            assert("Hickory:"@ + dec_seq(n) =~= "Hickory"@ + seq![':'] + dec_seq(n));
            lemma_tagged_split("Hickory"@, dec_seq(n));
            crate::text::lemma_parse_dec(n, u64::MAX as nat);
            assert("Hickory"@ != "Porkbun"@);
            assert("Hickory"@ != "Dummy"@);
        },
    }
}

impl Clone for Key {
    fn clone(&self) -> (r: Self)
        ensures
            r@ == self@,
    {
        match self {
            Key::Porkbun(s) => Key::Porkbun(s.clone()),
            Key::Dummy(n) => Key::Dummy(*n),
            Key::Hickory(n) => Key::Hickory(*n),
        }
    }
}

/// The provider a key belongs to.
pub open spec fn key_provider(k: KeyView) -> Providers {
    match k {
        KeyView::Porkbun(_) => Providers::Porkbun,
        KeyView::Dummy(_) => Providers::Dummy,
        KeyView::Hickory(_) => Providers::Hickory,
    }
}

impl Key {
    /// The provider this key belongs to; the active provider only handles
    /// its own keys.
    pub fn provider(&self) -> (r: Providers)
        ensures
            r == key_provider(self@),
    {
        match self {
            Key::Porkbun(_) => Providers::Porkbun,
            Key::Dummy(_) => Providers::Dummy,
            Key::Hickory(_) => Providers::Hickory,
        }
    }

    /// The text form of this key, as stored in databases.
    pub fn to_text(&self) -> (r: String)
        ensures
            r@ == key_text(self@),
    {
        match self {
            Key::Porkbun(s) => concat("Porkbun:", s.as_str()),
            Key::Dummy(n) => {
                let d = u64_to_decimal(*n as u64);
                concat("Dummy:", d.as_str())
            },
            Key::Hickory(n) => {
                let d = u64_to_decimal(*n);
                concat("Hickory:", d.as_str())
            },
        }
    }

    /// Whether two keys name the same record at the same provider.
    pub fn same_as(&self, other: &Key) -> (r: bool)
        ensures
            r == (self@ == other@),
    {
        match (self, other) {
            (Key::Porkbun(a), Key::Porkbun(b)) => crate::text::str_eq(a.as_str(), b.as_str()),
            (Key::Dummy(a), Key::Dummy(b)) => *a == *b,
            (Key::Hickory(a), Key::Hickory(b)) => *a == *b,
            _ => false,
        }
    }

    /// Parses the text form of a key.
    pub fn parse(s: &str) -> (r: Result<Key, String>)
        ensures
            match parse_key(s@) {
                Ok(k) => r matches Ok(key) && key@ == k,
                Err(m) => r matches Err(e) && e@ == m,
            },
    {
        let chars = chars_of(s);
        let (provider, key) = match split_once_exec(&chars, ':') {
            Some(p) => p,
            None => return Err(String::from_str("Invalid key format")),
        };
        let key_string = string_from_chars(&key);
        if eq_chars(&provider, &chars_of("Porkbun")) {
            Ok(Key::Porkbun(key_string))
        } else if eq_chars(&provider, &chars_of("Dummy")) {
            match parse_unsigned_exec(key_string.as_str(), usize::MAX as u64) {
                Ok(n) => Ok(Key::Dummy(n as usize)),
                Err(e) => Err(invalid_key(key_string.as_str(), e)),
            }
        } else if eq_chars(&provider, &chars_of("Hickory")) {
            match parse_unsigned_exec(key_string.as_str(), u64::MAX) {
                Ok(n) => Ok(Key::Hickory(n)),
                Err(e) => Err(invalid_key(key_string.as_str(), e)),
            }
        } else {
            Err(String::from_str("Invalid provider"))
        }
    }
}

impl std::str::FromStr for Key {
    type Err = String;

    fn from_str(s: &str) -> (r: Result<Self, Self::Err>)
        ensures
            match parse_key(s@) {
                Ok(k) => r matches Ok(key) && key@ == k,
                Err(m) => r matches Err(e) && e@ == m,
            },
    {
        Key::parse(s)
    }
}

} // verus!
pub mod ordered;
