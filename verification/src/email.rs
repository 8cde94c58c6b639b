//! Email providers: configuration sections, the choice of provider, and the
//! text that the stdout provider prints in place of sending.

use vstd::prelude::*;
use crate::secret::Secret;
use crate::text::concat;

verus! {

/// A section read for a provider that this build does not include: its
/// contents are accepted and ignored.
pub struct Disabled;

/// Available email providers.
#[derive(Clone, Copy, PartialEq, Eq, Debug, Structural)]
pub enum Providers {
    Lettre,
    Dummy,
}

pub open spec fn provider_name(p: Providers) -> Seq<char> {
    match p {
        Providers::Lettre => "lettre"@,
        Providers::Dummy => "dummy"@,
    }
}

impl Providers {
    /// The provider's lowercase name, as written in configuration files.
    pub fn name(&self) -> (r: &'static str)
        ensures
            r@ == provider_name(*self),
    {
        match self {
            Providers::Lettre => "lettre",
            Providers::Dummy => "dummy",
        }
    }
}

/// SMTP settings of the lettre provider.
pub struct LettreConfig {
    pub smtp_server: String,
    pub smtp_port: u16,
    pub username: Secret,
    pub password: Secret,
}

/// The stdout provider takes no settings.
pub struct DummyConfig;

/// Email configuration: an optional explicit provider choice and one
/// optional section per provider.
pub struct Config {
    pub provider: Option<Providers>,
    pub lettre: Option<LettreConfig>,
    pub dummy: Option<DummyConfig>,
}

/// Which providers this build can run.
#[derive(Clone, Copy, PartialEq, Eq, Debug, Structural)]
pub struct Compiled {
    pub lettre: bool,
    pub dummy: bool,
}

pub open spec fn is_compiled(c: Compiled, p: Providers) -> bool {
    match p {
        Providers::Lettre => c.lettre,
        Providers::Dummy => c.dummy,
    }
}

/// Errors of provider selection.
pub enum Error {
    MissingConfig(&'static str),
    NoConfig,
    CantChoseProvider,
    /// The selected provider was not compiled into this binary.
    ProviderNotCompiled(String),
}

impl Error {
    /// The message shown for this error.
    pub fn message(&self) -> (r: String)
        ensures
            r@ == match self {
                Error::MissingConfig(m) => "Missing configuration for selected provider: "@ + m@,
                Error::NoConfig => "No email provider configured"@,
                Error::CantChoseProvider =>
                    "Multiple providers specified, please choose one with `provider` field or set only one in the config"@,
                Error::ProviderNotCompiled(p) => "Provider '"@ + p@
                    + "' was selected but is not compiled into this binary. Recompile with the '"@
                    + p@ + "' feature enabled."@,
            },
    {
        match self {
            Error::MissingConfig(m) => concat("Missing configuration for selected provider: ", m),
            Error::NoConfig => String::from_str("No email provider configured"),
            Error::CantChoseProvider => String::from_str(
                "Multiple providers specified, please choose one with `provider` field or set only one in the config",
            ),
            Error::ProviderNotCompiled(p) => {
                let mut s = concat("Provider '", p.as_str());
                s.append("' was selected but is not compiled into this binary. Recompile with the '");
                s.append(p.as_str());
                s.append("' feature enabled.");
                s
            },
        }
    }
}

pub open spec fn present_count(c: &Config) -> nat {
    (if c.lettre is Some { 1nat } else { 0nat }) + (if c.dummy is Some { 1nat } else { 0nat })
}

/// The active provider: the explicit choice if given, else the only
/// configured section; none or both sections are errors.
pub open spec fn active_spec(c: &Config) -> Result<Providers, ()> {
    match c.provider {
        Some(p) => Ok(p),
        None => if present_count(c) == 1 {
            if c.lettre is Some {
                Ok(Providers::Lettre)
            } else {
                Ok(Providers::Dummy)
            }
        } else {
            Err(())
        },
    }
}

impl Config {
    /// Returns which provider is active, looking at every section whether
    /// or not its provider is compiled in.
    pub fn active(&self) -> (r: Result<Providers, Error>)
        ensures
            match active_spec(self) {
                Ok(p) => r == Ok::<Providers, Error>(p),
                Err(_) => if present_count(self) == 0 {
                    r matches Err(Error::NoConfig)
                } else {
                    r matches Err(Error::CantChoseProvider)
                },
            },
    {
        if let Some(provider) = self.provider {
            return Ok(provider);
        }
        let mut found: Option<Providers> = None;
        let mut count: u32 = 0;
        if self.lettre.is_some() {
            found = Some(Providers::Lettre);
            count += 1;
        }
        if self.dummy.is_some() {
            found = Some(Providers::Dummy);
            count += 1;
        }
        match (found, count) {
            (Some(p), 1) => Ok(p),
            (None, 0) => Err(Error::NoConfig),
            _ => Err(Error::CantChoseProvider),
        }
    }

    /// The provider that an email layer built from this configuration runs:
    /// the active one, provided it is compiled in; lettre also needs its
    /// section, while the stdout provider runs without one.
    pub fn select(&self, compiled: Compiled) -> (r: Result<Providers, Error>)
        ensures
            match active_spec(self) {
                Ok(p) => if !is_compiled(compiled, p) {
                    r matches Err(Error::ProviderNotCompiled(n)) && n@ == provider_name(p)
                } else if p == Providers::Lettre && self.lettre is None {
                    r matches Err(Error::MissingConfig(n)) && n@ == "Lettre"@
                } else {
                    r == Ok::<Providers, Error>(p)
                },
                Err(_) => if present_count(self) == 0 {
                    r matches Err(Error::NoConfig)
                } else {
                    r matches Err(Error::CantChoseProvider)
                },
            },
    {
        let selected = match self.active() {
            Ok(p) => p,
            Err(e) => return Err(e),
        };
        let compiled_in = match selected {
            Providers::Lettre => compiled.lettre,
            Providers::Dummy => compiled.dummy,
        };
        if !compiled_in {
            return Err(Error::ProviderNotCompiled(String::from_str(selected.name())));
        }
        if selected == Providers::Lettre && self.lettre.is_none() {
            return Err(Error::MissingConfig("Lettre"));
        }
        Ok(selected)
    }

    /// Sections present for providers that are not compiled in: their
    /// contents are not checked, which the caller reports as a warning.
    pub fn uncompiled_sections(&self, compiled: Compiled) -> (r: Vec<Providers>)
        ensures
            r@ == (if self.lettre is Some && !compiled.lettre {
                seq![Providers::Lettre]
            } else {
                Seq::empty()
            }) + (if self.dummy is Some && !compiled.dummy {
                seq![Providers::Dummy]
            } else {
                Seq::empty()
            }),
    {
        let mut r: Vec<Providers> = Vec::new();
        if self.lettre.is_some() && !compiled.lettre {
            r.push(Providers::Lettre);
        }
        if self.dummy.is_some() && !compiled.dummy {
            r.push(Providers::Dummy);
        }
        proof {
            assert(r@ =~= (if self.lettre is Some && !compiled.lettre {
                seq![Providers::Lettre]
            } else {
                Seq::empty()
            }) + (if self.dummy is Some && !compiled.dummy {
                seq![Providers::Dummy]
            } else {
                Seq::empty()
            }));
        }
        r
    }
}

/// What the stdout provider prints for an email.
pub open spec fn printed_email(from: Seq<char>, to: Seq<char>, subject: Seq<char>, body: Seq<char>) -> Seq<char> {
    "Sending email:\nFrom: <"@ + from + ">\nTo: <"@ + to + ">\nSubject: \""@ + subject + "\"\n----\n"@
        + body + "\n----"@
}

/// The text the stdout provider prints in place of sending an email.
pub fn printed_email_text(from: &str, to: &str, subject: &str, body: &str) -> (r: String)
    ensures
        r@ == printed_email(from@, to@, subject@, body@),
{
    let mut s = concat("Sending email:\nFrom: <", from);
    s.append(">\nTo: <");
    s.append(to);
    s.append(">\nSubject: \"");
    s.append(subject);
    s.append("\"\n----\n");
    s.append(body);
    s.append("\n----");
    s
}

} // verus!
