//! Distributed tracing with OpenTelemetry: what the exporter is set up with,
//! which OTLP headers are sent, the messages logged once logging runs, and
//! how trace ids read.

use vstd::prelude::*;
use crate::logging::Level;
use crate::random::{hex_digit, hex_u64_digits, is_lower_hex};
use crate::server::config::TracingConfig;
use crate::server::trace::{generate_random_trace_id, TracingBackend};
use crate::text::{chars_of, concat, is_ascii_alnum, lower_seq, seq_ends_with, slice_chars, string_from_chars};

verus! {

/// A character `http` accepts in a header name: an ASCII letter or digit,
/// or one of ``!#$%&'*+-.^_`|~``.
pub open spec fn header_name_char(c: char) -> bool {
    is_ascii_alnum(c) || "!#$%&'*+-.^_`|~"@.contains(c)
}

/// Whether `tonic` takes the text as the name of an ASCII metadata entry:
/// a header name of 1 to 65535 accepted characters (letters are taken in
/// lowercase) that, in lowercase, does not end in `-bin`.
pub open spec fn ascii_metadata_key_ok(key: Seq<char>) -> bool {
    &&& 1 <= key.len() <= 65535
    &&& forall|i: int| 0 <= i < key.len() ==> header_name_char(#[trigger] key[i])
    &&& !seq_ends_with(lower_seq(key), "-bin"@)
}

/// `str::parse::<tonic::metadata::MetadataKey<tonic::metadata::Ascii>>`
/// succeeds: `http::HeaderName::from_bytes` accepts the name (its table of
/// header characters maps every other byte, non-ASCII ones included, to an
/// error, and names longer than 65535 bytes are refused), and tonic refuses
/// an ASCII key ending in `-bin`.
#[verifier::external_body]
fn metadata_key_parses(key: &str) -> (r: bool)
    ensures
        r == ascii_metadata_key_ok(key@),
{
    key.parse::<tonic::metadata::MetadataKey<tonic::metadata::Ascii>>().is_ok()
}

/// A character allowed in an ASCII metadata value: `http` accepts each
/// UTF-8 byte that is a tab, or at least 32 and not 127, so a character is
/// allowed when it is a tab or at least 32 and not DEL (every byte of a
/// non-ASCII character is at least 128).
pub open spec fn metadata_value_char_ok(c: char) -> bool {
    c == '\t' || (32 <= (c as u32) && (c as u32) != 127)
}

pub open spec fn ascii_metadata_value_ok(value: Seq<char>) -> bool {
    forall|i: int| 0 <= i < value.len() ==> metadata_value_char_ok(#[trigger] value[i])
}

/// `str::parse::<tonic::metadata::MetadataValue<tonic::metadata::Ascii>>`
/// succeeds, which it does exactly when every character is allowed.
#[verifier::external_body]
fn metadata_value_parses(value: &str) -> (r: bool)
    ensures
        r == ascii_metadata_value_ok(value@),
{
    value.parse::<tonic::metadata::MetadataValue<tonic::metadata::Ascii>>().is_ok()
}

/// The warning for an OTLP header that cannot be sent, if any.
pub open spec fn header_problem(key: Seq<char>, value: Seq<char>) -> Option<Seq<char>> {
    if !ascii_metadata_key_ok(key) {
        Some("invalid OTLP header name: "@ + key)
    } else if !ascii_metadata_value_ok(value) {
        Some("invalid OTLP header value for "@ + key)
    } else {
        None
    }
}

/// The warnings for the configured OTLP headers, in order.
pub open spec fn header_warnings(headers: Seq<(Seq<char>, Seq<char>)>) -> Seq<(Level, Seq<char>)>
    decreases headers.len(),
{
    if headers.len() == 0 {
        Seq::empty()
    } else {
        let rest = header_warnings(headers.drop_last());
        match header_problem(headers.last().0, headers.last().1) {
            Some(m) => rest.push((Level::Warn, m)),
            None => rest,
        }
    }
}

/// The configured OTLP headers that are sent, in order.
pub open spec fn accepted_headers(headers: Seq<(Seq<char>, Seq<char>)>) -> Seq<(Seq<char>, Seq<char>)>
    decreases headers.len(),
{
    if headers.len() == 0 {
        Seq::empty()
    } else {
        let rest = accepted_headers(headers.drop_last());
        match header_problem(headers.last().0, headers.last().1) {
            Some(_) => rest,
            None => rest.push(headers.last()),
        }
    }
}

pub open spec fn propagation_message() -> Seq<char> {
    "W3C trace context propagation enabled (trust_incoming_spans = true)"@
}

pub open spec fn stdout_message() -> Seq<char> {
    "OTel tracing enabled (stdout — for debugging only!)"@
}

/// The messages of the tracing setup, in the order they are logged.
pub open spec fn provider_messages(
    backend: TracingBackend,
    trust_incoming_spans: bool,
    endpoint: Seq<char>,
    headers: Seq<(Seq<char>, Seq<char>)>,
) -> Seq<(Level, Seq<char>)> {
    let propagation = if trust_incoming_spans {
        seq![(Level::Info, propagation_message())]
    } else {
        Seq::empty()
    };
    match backend {
        TracingBackend::Disabled => seq![(Level::Info, "distributed tracing disabled"@)],
        TracingBackend::Stdout => propagation + seq![(Level::Info, stdout_message())],
        TracingBackend::Otlp => propagation + header_warnings(headers) + seq![
            (Level::Info, "OTel tracing enabled (endpoint: "@ + endpoint + ")"@),
        ],
    }
}

/// The configured OTLP headers, as text.
pub open spec fn headers_view(config: &TracingConfig) -> Seq<(Seq<char>, Seq<char>)> {
    config.otlp.headers@.map_values(|h: (String, crate::secret::Secret)| (h.0@, h.1@))
}

pub open spec fn pairs_view(v: Seq<(String, String)>) -> Seq<(Seq<char>, Seq<char>)> {
    v.map_values(|p: (String, String)| (p.0@, p.1@))
}

pub open spec fn messages_view(v: Seq<(Level, String)>) -> Seq<(Level, Seq<char>)> {
    v.map_values(|m: (Level, String)| (m.0, m.1@))
}

/// How tracing is to be set up.
pub struct ProviderPlan {
    /// The exporter to build; none for `Disabled`.
    pub backend: TracingBackend,
    /// Whether W3C trace context propagation is installed.
    pub install_propagator: bool,
    /// The metadata sent with OTLP exports, in order.
    pub metadata: Vec<(String, String)>,
    /// The messages to log once logging is set up, in order.
    pub messages: Vec<(Level, String)>,
}

/// Decides the tracing setup of a configuration: the exporter, whether
/// incoming trace context is propagated, the OTLP headers that can be sent
/// (a header whose name or value `tonic` refuses is left out with a
/// warning) and the messages to log.
pub fn provider_plan(config: &TracingConfig) -> (r: ProviderPlan)
    ensures
        r.backend == config.provider,
        r.install_propagator == (config.trust_incoming_spans && config.provider
            != TracingBackend::Disabled),
        pairs_view(r.metadata@) == (if config.provider == TracingBackend::Otlp {
            accepted_headers(headers_view(config))
        } else {
            Seq::empty()
        }),
        messages_view(r.messages@) == provider_messages(
            config.provider,
            config.trust_incoming_spans,
            config.otlp.endpoint@,
            headers_view(config),
        ),
{
    let ghost hv = headers_view(config);
    let mut messages: Vec<(Level, String)> = Vec::new();
    let mut metadata: Vec<(String, String)> = Vec::new();
    if config.provider == TracingBackend::Disabled {
        messages.push((Level::Info, String::from_str("distributed tracing disabled")));
        proof {
            assert(messages_view(messages@) =~= seq![(Level::Info, "distributed tracing disabled"@)]);
        }
        return ProviderPlan {
            backend: config.provider,
            install_propagator: false,
            metadata,
            messages,
        };
    }
    if config.trust_incoming_spans {
        messages.push(
            (
                Level::Info,
                String::from_str("W3C trace context propagation enabled (trust_incoming_spans = true)"),
            ),
        );
    }
    let ghost start = messages_view(messages@);
    proof {
        assert(start =~= (if config.trust_incoming_spans {
            seq![(Level::Info, propagation_message())]
        } else {
            Seq::<(Level, Seq<char>)>::empty()
        }));
    }
    if config.provider == TracingBackend::Stdout {
        messages.push((Level::Info, String::from_str("OTel tracing enabled (stdout — for debugging only!)")));
        proof {
            assert(messages_view(messages@) =~= start + seq![(Level::Info, stdout_message())]);
            assert(pairs_view(metadata@) =~= Seq::<(Seq<char>, Seq<char>)>::empty());
        }
        return ProviderPlan {
            backend: config.provider,
            install_propagator: config.trust_incoming_spans,
            metadata,
            messages,
        };
    }
    let headers = &config.otlp.headers;
    let n = headers.len();
    let mut i: usize = 0;
    proof {
        assert(hv.take(0) =~= Seq::<(Seq<char>, Seq<char>)>::empty());
        assert(start + header_warnings(hv.take(0)) =~= start);
        assert(pairs_view(metadata@) =~= Seq::<(Seq<char>, Seq<char>)>::empty());
    }
    while i < n
        invariant
            n == headers@.len(),
            hv == headers_view(config),
            headers@ == config.otlp.headers@,
            hv.len() == n,
            i <= n,
            messages_view(messages@) == start + header_warnings(hv.take(i as int)),
            pairs_view(metadata@) == accepted_headers(hv.take(i as int)),
        decreases n - i,
    {
        let key = headers[i].0.as_str();
        let value = headers[i].1.expose();
        proof {
            assert(hv[i as int] == (key@, value@));
            assert(hv.take(i + 1).drop_last() =~= hv.take(i as int));
            assert(hv.take(i + 1).last() == hv[i as int]);
        }
        let ghost before_m = messages@;
        let ghost before_h = metadata@;
        if !metadata_key_parses(key) {
            let m = concat("invalid OTLP header name: ", key);
            messages.push((Level::Warn, m));
            proof {
                assert(messages_view(messages@) =~= messages_view(before_m).push((Level::Warn, m@)));
            }
        } else if !metadata_value_parses(value) {
            let m = concat("invalid OTLP header value for ", key);
            messages.push((Level::Warn, m));
            proof {
                assert(messages_view(messages@) =~= messages_view(before_m).push((Level::Warn, m@)));
            }
        } else {
            metadata.push((String::from_str(key), String::from_str(value)));
            proof {
                assert(pairs_view(metadata@) =~= pairs_view(before_h).push((key@, value@)));
            }
        }
        proof {
            assert(start + header_warnings(hv.take(i + 1)) =~= messages_view(messages@));
        }
        i = i + 1;
    }
    proof {
        assert(hv.take(n as int) =~= hv);
    }
    let m = concat("OTel tracing enabled (endpoint: ", config.otlp.endpoint.as_str());
    let m = concat(m.as_str(), ")");
    let ghost before_m = messages@;
    messages.push((Level::Info, m));
    proof {
        assert(messages_view(messages@) =~= messages_view(before_m).push((Level::Info, m@)));
        assert(messages_view(messages@) =~= start + header_warnings(hv) + seq![
            (Level::Info, "OTel tracing enabled (endpoint: "@ + config.otlp.endpoint@ + ")"@),
        ]);
    }
    ProviderPlan {
        backend: config.provider,
        install_propagator: config.trust_incoming_spans,
        metadata,
        messages,
    }
}

/// `format!("{}", opentelemetry::trace::TraceId::from(id))`: the id as 32
/// lowercase hex digits, most significant first (`{:032x}`).
#[verifier::external_body]
fn trace_id_text(id: u128) -> (r: String)
    ensures
        r@ == hex_u64_digits(id as nat, 32),
{
    format!("{}", opentelemetry::trace::TraceId::from(id))
}

proof fn lemma_hex_digits(v: nat, n: nat)
    ensures
        hex_u64_digits(v, n).len() == n,
        forall|i: int| 0 <= i < n ==> is_lower_hex(#[trigger] hex_u64_digits(v, n)[i]),
    decreases n,
{
    if n > 0 {
        lemma_hex_digits(v / 16, (n - 1) as nat);
        let d = v % 16;
        assert(is_lower_hex(hex_digit(d)));
    }
}

/// The text of an OpenTelemetry trace id: `None` for the invalid (all-zero)
/// id, otherwise its 32 lowercase hex digits.
pub fn valid_trace_id_text(id: u128) -> (r: Option<String>)
    ensures
        id == 0 ==> r is None,
        id != 0 ==> (r matches Some(s) && s@ == hex_u64_digits(id as nat, 32)),
{
    if id == 0 {
        None
    } else {
        Some(trace_id_text(id))
    }
}

/// Gives request spans the trace id of their OpenTelemetry span context.
pub struct OtelMakeSpan {
    pub trust_incoming_spans: bool,
    pub trace_id_chars: usize,
}

impl OtelMakeSpan {
    /// The trace id shown for a span whose context holds the trace id `id`:
    /// the first `min(trace_id_chars, 32)` of its hex digits, or a random id
    /// of that length when the id is invalid (no exporter is active).
    pub fn trace_id(&self, id: u128) -> (r: String)
        ensures
            id != 0 ==> r@ == hex_u64_digits(id as nat, 32).take(
                if self.trace_id_chars < 32 { self.trace_id_chars as int } else { 32 },
            ),
            r@.len() == (if self.trace_id_chars < 32 { self.trace_id_chars } else { 32 }),
            forall|i: int| 0 <= i < r@.len() ==> is_lower_hex(#[trigger] r@[i]),
    {
        if id != 0 {
            let text = trace_id_text(id);
            let v = chars_of(text.as_str());
            proof {
                lemma_hex_digits(id as nat, 32);
            }
            let n: usize = if self.trace_id_chars < 32 { self.trace_id_chars } else { 32 };
            let kept = slice_chars(&v, 0, n);
            proof {
                assert(kept@ =~= hex_u64_digits(id as nat, 32).take(n as int));
            }
            string_from_chars(&kept)
        } else {
            generate_random_trace_id(self.trace_id_chars)
        }
    }
}

} // verus!
