//! Server settings and their defaults: rate limits, tracing, the OTLP
//! exporter, and the checks made on a configuration before starting.

use vstd::prelude::*;
use crate::secret::Secret;
use crate::server::trace::TracingBackend;
use crate::text::{ascii_lowercase, concat, lower_seq, parse_unsigned, parse_unsigned_exec, str_eq, u64_to_decimal, dec_seq};

verus! {

/// The address the server binds to, used in links sent by email.
pub struct ServerAddress(pub String);

impl ServerAddress {
    pub fn as_str(&self) -> (r: &str)
        ensures
            r@ == self.0@,
    {
        self.0.as_str()
    }
}

/// Rate limits: a burst size and the seconds it takes to regain one
/// request, for the login routes (per client address) and for the API
/// (per user).
#[derive(Clone, Copy, PartialEq, Eq, Debug, Structural)]
pub struct RateLimitConfig {
    pub auth_burst_size: u32,
    pub auth_per_seconds: u64,
    pub api_burst_size: u32,
    pub api_per_seconds: u64,
}

impl RateLimitConfig {
    pub fn default_auth_burst_size() -> (r: u32)
        ensures
            r == 10,
    {
        10
    }

    pub fn default_auth_per_seconds() -> (r: u64)
        ensures
            r == 60,
    {
        60
    }

    pub fn default_api_burst_size() -> (r: u32)
        ensures
            r == 30,
    {
        30
    }

    pub fn default_api_per_seconds() -> (r: u64)
        ensures
            r == 60,
    {
        60
    }

    /// The line logged at start-up.
    pub fn summary(&self) -> (r: String)
        ensures
            r@ == "Rate limiting configured: auth="@ + dec_seq(self.auth_burst_size as nat) + "/"@ + dec_seq(
                self.auth_per_seconds as nat,
            ) + " burst/sec, api="@ + dec_seq(self.api_burst_size as nat) + "/"@ + dec_seq(
                self.api_per_seconds as nat,
            ) + " burst/sec"@,
    {
        let mut s = String::from_str("Rate limiting configured: auth=");
        s.append(u64_to_decimal(self.auth_burst_size as u64).as_str());
        s.append("/");
        s.append(u64_to_decimal(self.auth_per_seconds).as_str());
        s.append(" burst/sec, api=");
        s.append(u64_to_decimal(self.api_burst_size as u64).as_str());
        s.append("/");
        s.append(u64_to_decimal(self.api_per_seconds).as_str());
        s.append(" burst/sec");
        s
    }
}

impl Default for RateLimitConfig {
    fn default() -> (r: Self)
        ensures
            r == (RateLimitConfig {
                auth_burst_size: 10,
                auth_per_seconds: 60,
                api_burst_size: 30,
                api_per_seconds: 60,
            }),
    {
        RateLimitConfig {
            auth_burst_size: Self::default_auth_burst_size(),
            auth_per_seconds: Self::default_auth_per_seconds(),
            api_burst_size: Self::default_api_burst_size(),
            api_per_seconds: Self::default_api_per_seconds(),
        }
    }
}

/// The most verbose level gathered by the tracing exporter.
#[derive(Clone, Copy, PartialEq, Eq, Debug, Structural)]
pub enum LevelFilter {
    Off,
    Error,
    Warn,
    Info,
    Debug,
    Trace,
}

/// A level name or number as `tracing`'s `LevelFilter` reads it: a number
/// 0 (off) to 5 (trace), a name in any case, or the empty text for errors.
pub open spec fn level_filter_of(s: Seq<char>) -> Option<LevelFilter> {
    match parse_unsigned(s, usize::MAX as nat) {
        Ok(n) => if n == 0 {
            Some(LevelFilter::Off)
        } else if n == 1 {
            Some(LevelFilter::Error)
        } else if n == 2 {
            Some(LevelFilter::Warn)
        } else if n == 3 {
            Some(LevelFilter::Info)
        } else if n == 4 {
            Some(LevelFilter::Debug)
        } else if n == 5 {
            Some(LevelFilter::Trace)
        } else {
            None
        },
        Err(_) => level_filter_named(s),
    }
}

pub open spec fn level_filter_named(s: Seq<char>) -> Option<LevelFilter> {
    let l = lower_seq(s);
    if s.len() == 0 {
        Some(LevelFilter::Error)
    } else if l == "error"@ {
        Some(LevelFilter::Error)
    } else if l == "warn"@ {
        Some(LevelFilter::Warn)
    } else if l == "info"@ {
        Some(LevelFilter::Info)
    } else if l == "debug"@ {
        Some(LevelFilter::Debug)
    } else if l == "trace"@ {
        Some(LevelFilter::Trace)
    } else if l == "off"@ {
        Some(LevelFilter::Off)
    } else {
        None
    }
}

/// The level filter of the tracing exporter; `info` unless configured.
#[derive(Clone, Copy, PartialEq, Eq, Debug, Structural)]
pub struct TracingLevel(pub LevelFilter);

impl Default for TracingLevel {
    fn default() -> (r: Self)
        ensures
            r == TracingLevel(LevelFilter::Info),
    {
        TracingLevel(LevelFilter::Info)
    }
}

impl TracingLevel {
    /// Reads a configured level; `None` for text that names no level.
    pub fn parse(s: &str) -> (r: Option<TracingLevel>)
        ensures
            match level_filter_of(s@) {
                Some(l) => r == Some(TracingLevel(l)),
                None => r is None,
            },
    {
        match parse_unsigned_exec(s, usize::MAX as u64) {
            Ok(n) => {
                if n == 0 {
                    Some(TracingLevel(LevelFilter::Off))
                } else if n == 1 {
                    Some(TracingLevel(LevelFilter::Error))
                } else if n == 2 {
                    Some(TracingLevel(LevelFilter::Warn))
                } else if n == 3 {
                    Some(TracingLevel(LevelFilter::Info))
                } else if n == 4 {
                    Some(TracingLevel(LevelFilter::Debug))
                } else if n == 5 {
                    Some(TracingLevel(LevelFilter::Trace))
                } else {
                    None
                }
            },
            Err(_) => {
                let l = ascii_lowercase(s);
                let ls = l.as_str();
                proof {
                    reveal_strlit("");
                }
                if s.unicode_len() == 0 {
                    Some(TracingLevel(LevelFilter::Error))
                } else if str_eq(ls, "error") {
                    Some(TracingLevel(LevelFilter::Error))
                } else if str_eq(ls, "warn") {
                    Some(TracingLevel(LevelFilter::Warn))
                } else if str_eq(ls, "info") {
                    Some(TracingLevel(LevelFilter::Info))
                } else if str_eq(ls, "debug") {
                    Some(TracingLevel(LevelFilter::Debug))
                } else if str_eq(ls, "trace") {
                    Some(TracingLevel(LevelFilter::Trace))
                } else if str_eq(ls, "off") {
                    Some(TracingLevel(LevelFilter::Off))
                } else {
                    None
                }
            },
        }
    }
}

/// Settings of the OTLP exporter.
pub struct OtlpConfig {
    pub endpoint: String,
    pub service_name: String,
    /// Headers sent to the collector, e.g. for authentication.
    pub headers: Vec<(String, Secret)>,
}

impl OtlpConfig {
    pub fn default_endpoint() -> (r: String)
        ensures
            r@ == "http://localhost:4317"@,
    {
        String::from_str("http://localhost:4317")
    }

    pub fn default_service_name() -> (r: String)
        ensures
            r@ == "fckn-gay-server"@,
    {
        String::from_str("fckn-gay-server")
    }
}

impl Default for OtlpConfig {
    fn default() -> (r: Self)
        ensures
            r.endpoint@ == "http://localhost:4317"@,
            r.service_name@ == "fckn-gay-server"@,
            r.headers@.len() == 0,
    {
        OtlpConfig {
            endpoint: Self::default_endpoint(),
            service_name: Self::default_service_name(),
            headers: Vec::new(),
        }
    }
}

/// Tracing settings.
pub struct TracingConfig {
    pub provider: TracingBackend,
    /// Whether trace ids of incoming requests are taken over; only for a
    /// server behind a trusted proxy.
    pub trust_incoming_spans: bool,
    /// How many hex digits of a trace id are shown in logs; at least 1.
    pub trace_id_chars: usize,
    pub level: TracingLevel,
    pub otlp: OtlpConfig,
}

impl TracingConfig {
    pub fn default_trace_id_chars() -> (r: usize)
        ensures
            r == 8,
    {
        8
    }

    /// A configured number of trace id digits: 0 is refused.
    pub fn check_trace_id_chars(n: usize) -> (r: Result<usize, &'static str>)
        ensures
            n == 0 ==> (r matches Err(m) && m@ == "trace_id_chars must be at least 1"@),
            n != 0 ==> r == Ok::<usize, &'static str>(n),
    {
        if n == 0 {
            Err("trace_id_chars must be at least 1")
        } else {
            Ok(n)
        }
    }
}

impl Default for TracingConfig {
    fn default() -> (r: Self)
        ensures
            r.provider == TracingBackend::Disabled,
            !r.trust_incoming_spans,
            r.trace_id_chars == 8,
            r.level == TracingLevel(LevelFilter::Info),
            r.otlp.endpoint@ == "http://localhost:4317"@,
            r.otlp.service_name@ == "fckn-gay-server"@,
            r.otlp.headers@.len() == 0,
    {
        TracingConfig {
            provider: TracingBackend::default(),
            trust_incoming_spans: false,
            trace_id_chars: Self::default_trace_id_chars(),
            level: TracingLevel::default(),
            otlp: OtlpConfig::default(),
        }
    }
}

/// An in-memory user database beside a real DNS provider (neither the
/// in-memory one nor the local hickory server) loses track of records on
/// every restart while the provider keeps them.
pub open spec fn is_dangerous(db: crate::user_database::Providers, dns: crate::dns::Providers) -> bool {
    db == crate::user_database::Providers::Dummy && dns != crate::dns::Providers::Dummy && dns
        != crate::dns::Providers::Hickory
}

/// Whether the providers form the combination warned about at start-up.
pub fn dangerous_config(db: crate::user_database::Providers, dns: crate::dns::Providers) -> (r: bool)
    ensures
        r == is_dangerous(db, dns),
{
    db == crate::user_database::Providers::Dummy && dns != crate::dns::Providers::Dummy && dns
        != crate::dns::Providers::Hickory
}

} // verus!
