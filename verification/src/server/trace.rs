//! Trace ids for request logging: reading W3C `traceparent` headers and
//! making random ids.

use vstd::prelude::*;
use vstd::utf8::encode_utf8;
use crate::random::{hex_lower, hex_seq, is_lower_hex, random_bytes};
use crate::text::{char_from_ascii, chars_of, slice_chars, string_from_chars};

verus! {

/// Which distributed-tracing exporter is configured.
#[derive(Clone, Copy, PartialEq, Eq, Debug, Structural)]
pub enum TracingBackend {
    Disabled,
    Stdout,
    Otlp,
}

impl Default for TracingBackend {
    fn default() -> (r: Self)
        ensures
            r == TracingBackend::Disabled,
    {
        TracingBackend::Disabled
    }
}

pub open spec fn is_hex_byte(b: u8) -> bool {
    (48 <= b <= 57) || (97 <= b <= 102) || (65 <= b <= 70)
}

/// The bytes of a W3C `traceparent` value
/// (`VV-TTTTTTTTTTTTTTTTTTTTTTTTTTTTTTTT-PPPPPPPPPPPPPPPP-FF`) hold a usable
/// trace id: dashes in place, version not `ff`, 32 hex digits that are not
/// all zero.
pub open spec fn traceparent_ok(b: Seq<u8>) -> bool {
    &&& b.len() >= 55
    &&& b[2] == 45 && b[35] == 45 && b[52] == 45
    &&& !(b[0] == 102 && b[1] == 102)
    &&& forall|i: int| 3 <= i < 35 ==> is_hex_byte(#[trigger] b[i])
    &&& exists|i: int| 3 <= i < 35 && #[trigger] b[i] != 48
}

/// The trace id of a `traceparent` value, if it is usable.
pub open spec fn traceparent_trace_id(value: Seq<char>) -> Option<Seq<char>> {
    let b = encode_utf8(value);
    if traceparent_ok(b) {
        Some(b.subrange(3, 35).map_values(|x: u8| (x as u32) as char))
    } else {
        None
    }
}

fn hex_byte(b: u8) -> (r: bool)
    ensures
        r == is_hex_byte(b),
{
    (48 <= b && b <= 57) || (97 <= b && b <= 102) || (65 <= b && b <= 70)
}

/// Parses a W3C `traceparent` header and returns its 32-hex-digit trace id.
pub fn parse_traceparent_trace_id(value: &str) -> (r: Option<String>)
    ensures
        match traceparent_trace_id(value@) {
            Some(t) => r matches Some(s) && s@ == t,
            None => r is None,
        },
{
    let bytes = value.as_bytes();
    let ghost b = encode_utf8(value@);
    if bytes.len() < 55 {
        return None;
    }
    if bytes[2] != 45 || bytes[35] != 45 || bytes[52] != 45 {
        return None;
    }
    if bytes[0] == 102 && bytes[1] == 102 {
        return None;
    }
    let mut i: usize = 3;
    let mut nonzero = false;
    let mut out: Vec<char> = Vec::new();
    while i < 35
        invariant
            bytes@ == b,
            b == encode_utf8(value@),
            b.len() >= 55,
            3 <= i <= 35,
            forall|j: int| 3 <= j < i ==> is_hex_byte(#[trigger] b[j]),
            nonzero == exists|j: int| 3 <= j < i && #[trigger] b[j] != 48,
            out@ == b.subrange(3, i as int).map_values(|x: u8| (x as u32) as char),
        decreases 35 - i,
    {
        let c = bytes[i];
        if !hex_byte(c) {
            assert(!is_hex_byte(b[i as int]));
            return None;
        }
        if c != 48 {
            nonzero = true;
        }
        out.push(char_from_ascii(c));
        proof {
            assert(b.subrange(3, i + 1).map_values(|x: u8| (x as u32) as char) =~= b.subrange(
                3,
                i as int,
            ).map_values(|x: u8| (x as u32) as char).push((c as u32) as char));
        }
        i = i + 1;
    }
    if !nonzero {
        return None;
    }
    Some(string_from_chars(&out))
}

/// How many hex digits a trace id has: `min(chars, 32)`.
pub open spec fn trace_len(chars: usize) -> int {
    if chars < 32 {
        chars as int
    } else {
        32
    }
}

/// How many random bytes a trace id is made from.
pub open spec fn trace_bytes_len(chars: usize) -> int {
    (trace_len(chars) + 1) / 2
}

/// The trace id made from random bytes: their lowercase hex digits, cut to
/// `min(chars, 32)`.
pub open spec fn random_trace_text(bytes: Seq<u8>, chars: usize) -> Seq<char> {
    hex_seq(bytes).take(trace_len(chars))
}

/// The trace id of a request with the `traceparent` header `header` (when
/// present and readable as text): the header's trace id cut to
/// `min(chars, 32)` digits when incoming spans are trusted and the header is
/// usable, otherwise the id made from the random bytes.
pub open spec fn request_trace_text(
    trust_incoming_spans: bool,
    header: Option<Seq<char>>,
    chars: usize,
    random: Seq<u8>,
) -> Seq<char> {
    if trust_incoming_spans && header is Some && traceparent_trace_id(header.unwrap()) is Some {
        traceparent_trace_id(header.unwrap()).unwrap().take(trace_len(chars))
    } else {
        random_trace_text(random, chars)
    }
}

pub open spec fn header_view(h: Option<&str>) -> Option<Seq<char>> {
    match h {
        Some(t) => Some(t@),
        None => None,
    }
}

/// With incoming spans not trusted, a request's trace id does not depend on
/// its headers.
pub proof fn lemma_untrusted_trace_id_ignores_header(
    h1: Option<Seq<char>>,
    h2: Option<Seq<char>>,
    chars: usize,
    random: Seq<u8>,
)
    ensures
        request_trace_text(false, h1, chars, random) == request_trace_text(false, h2, chars, random),
{
}

/// The trace id made from random bytes.
pub fn trace_id_from_bytes(bytes: &Vec<u8>, chars: usize) -> (r: String)
    requires
        bytes@.len() == trace_bytes_len(chars),
    ensures
        r@ == random_trace_text(bytes@, chars),
        r@.len() == trace_len(chars),
        forall|i: int| 0 <= i < r@.len() ==> is_lower_hex(#[trigger] r@[i]),
{
    let n: usize = if chars < 32 { chars } else { 32 };
    let hex = hex_lower(bytes);
    let all = chars_of(hex.as_str());
    proof {
        crate::random::lemma_hex_seq(bytes@);
    }
    let kept = slice_chars(&all, 0, n);
    proof {
        assert(kept@ =~= random_trace_text(bytes@, chars));
    }
    string_from_chars(&kept)
}

/// Random bytes for a trace id (all zeros when the operating system's
/// random source fails).
fn draw_trace_bytes(chars: usize) -> (r: Vec<u8>)
    ensures
        r@.len() == trace_bytes_len(chars),
{
    let n: usize = if chars < 32 { chars } else { 32 };
    let bytes_needed: usize = (n + 1) / 2;
    match random_bytes(bytes_needed) {
        Some(b) => b,
        None => {
            let mut z: Vec<u8> = Vec::new();
            let mut k: usize = 0;
            while k < bytes_needed
                invariant
                    k <= bytes_needed,
                    z@.len() == k,
                decreases bytes_needed - k,
            {
                z.push(0);
                k = k + 1;
            }
            z
        },
    }
}

/// A random trace id: `min(chars, 32)` lowercase hex digits made from
/// random bytes (all zeros when the operating system's random source fails).
pub fn generate_random_trace_id(chars: usize) -> (r: String)
    ensures
        exists|b: Seq<u8>| b.len() == trace_bytes_len(chars) && r@ == #[trigger] random_trace_text(b, chars),
        r@.len() == if chars < 32 { chars } else { 32 },
        forall|i: int| 0 <= i < r@.len() ==> is_lower_hex(#[trigger] r@[i]),
{
    let bytes = draw_trace_bytes(chars);
    trace_id_from_bytes(&bytes, chars)
}

/// The trace id of a request, given the random bytes to fall back on.
pub fn trace_id_for(trust_incoming_spans: bool, traceparent: Option<&str>, chars: usize, random: &Vec<u8>) -> (r:
    String)
    requires
        random@.len() == trace_bytes_len(chars),
    ensures
        r@ == request_trace_text(trust_incoming_spans, header_view(traceparent), chars, random@),
{
    if trust_incoming_spans {
        if let Some(header) = traceparent {
            if let Some(tid) = parse_traceparent_trace_id(header) {
                let n: usize = if chars < 32 { chars } else { 32 };
                let v = chars_of(tid.as_str());
                proof {
                    assert(v@.len() == 32);
                }
                let kept = slice_chars(&v, 0, n);
                return string_from_chars(&kept);
            }
        }
    }
    trace_id_from_bytes(random, chars)
}

/// The trace id of a request: taken from its `traceparent` header (cut to
/// `min(chars, 32)` digits) when incoming spans are trusted and the header
/// is usable, otherwise made from freshly drawn random bytes.
pub fn request_trace_id(trust_incoming_spans: bool, traceparent: Option<&str>, chars: usize) -> (r:
    String)
    ensures
        exists|b: Seq<u8>| b.len() == trace_bytes_len(chars) && r@ == #[trigger] request_trace_text(
            trust_incoming_spans,
            header_view(traceparent),
            chars,
            b,
        ),
        trust_incoming_spans && traceparent.is_some() && traceparent_trace_id(
            traceparent.unwrap()@,
        ).is_some() ==> r@ == traceparent_trace_id(traceparent.unwrap()@).unwrap().take(
            if chars < 32 { chars as int } else { 32 },
        ),
        !(trust_incoming_spans && traceparent.is_some() && traceparent_trace_id(
            traceparent.unwrap()@,
        ).is_some()) ==> r@.len() == (if chars < 32 { chars } else { 32 }) && forall|i: int|
            0 <= i < r@.len() ==> is_lower_hex(#[trigger] r@[i]),
{
    let bytes = draw_trace_bytes(chars);
    let r = trace_id_for(trust_incoming_spans, traceparent, chars, &bytes);
    proof {
        crate::random::lemma_hex_seq(bytes@);
        assert(request_trace_text(trust_incoming_spans, header_view(traceparent), chars, bytes@) == r@);
    }
    r
}

/// Gives each request span its trace id.
pub struct MakeRequestSpan {
    pub trust_incoming_spans: bool,
    pub trace_id_chars: usize,
}

impl MakeRequestSpan {
    /// The trace id of a request with this `traceparent` header (when
    /// present and readable as text).
    pub fn trace_id(&self, traceparent: Option<&str>) -> (r: String)
        ensures
            exists|b: Seq<u8>| b.len() == trace_bytes_len(self.trace_id_chars) && r@
                == #[trigger] request_trace_text(
                self.trust_incoming_spans,
                header_view(traceparent),
                self.trace_id_chars,
                b,
            ),
            self.trust_incoming_spans && traceparent.is_some() && traceparent_trace_id(
                traceparent.unwrap()@,
            ).is_some() ==> r@ == traceparent_trace_id(traceparent.unwrap()@).unwrap().take(
                if self.trace_id_chars < 32 { self.trace_id_chars as int } else { 32 },
            ),
            !(self.trust_incoming_spans && traceparent.is_some() && traceparent_trace_id(
                traceparent.unwrap()@,
            ).is_some()) ==> r@.len() == (if self.trace_id_chars < 32 { self.trace_id_chars } else { 32 })
                && forall|i: int| 0 <= i < r@.len() ==> is_lower_hex(#[trigger] r@[i]),
    {
        request_trace_id(self.trust_incoming_spans, traceparent, self.trace_id_chars)
    }
}

/// Records the status of each response on its request span.
pub struct RecordStatusOnResponse;

impl RecordStatusOnResponse {
    /// The values recorded for a response: `http.status_code`, and `ok`,
    /// which holds below 400.
    pub fn status_fields(&self, status: u16) -> (r: (u16, bool))
        ensures
            r.0 == status,
            r.1 == (status < 400),
    {
        (status, status < 400)
    }
}

} // verus!
