//! The Porkbun provider: configuration and the name and record handling
//! around its API calls.

use vstd::prelude::*;
use crate::dns::record::{Record, RecordType, RecordView};
use crate::text::{chars_of, concat, seq_ends_with, strip_suffix_chars, strip_suffix_seq, string_from_chars};

verus! {

/// Configuration of the Porkbun provider.
pub struct Config {
    /// The domain managed through the Porkbun API.
    pub domain: String,
    pub api_key: String,
    pub secret_key: String,
}

pub open spec fn is_ascii_seq(s: Seq<char>) -> bool {
    forall|i: int| 0 <= i < s.len() ==> (#[trigger] s[i] as int) < 128
}

/// The subdomain part of a record name: the name without the managed
/// domain and the dot before it.
pub open spec fn subdomain_of(name: Seq<char>, domain: Seq<char>) -> Result<Seq<char>, Seq<char>> {
    match strip_suffix_seq(name, domain) {
        None => Err("The subdomain "@ + name + " does not end with the domain "@ + domain),
        Some(sub) => {
            let sub2 = match strip_suffix_seq(sub, "."@) {
                Some(t) => t,
                None => sub,
            };
            if !is_ascii_seq(sub2) {
                Err("The domain "@ + name + " contains non-ascii characters"@)
            } else {
                Ok(sub2)
            }
        },
    }
}

/// The subdomain to create a record under, or why it cannot be.
pub fn porkbun_subdomain(name: &str, domain: &str) -> (r: Result<String, String>)
    ensures
        match subdomain_of(name@, domain@) {
            Ok(s) => r matches Ok(x) && x@ == s,
            Err(m) => r matches Err(x) && x@ == m,
        },
{
    let n = chars_of(name);
    let d = chars_of(domain);
    let sub = match strip_suffix_chars(&n, &d) {
        Some(s) => s,
        None => {
            let mut m = concat("The subdomain ", name);
            m.append(" does not end with the domain ");
            m.append(domain);
            return Err(m);
        },
    };
    let dot = chars_of(".");
    proof {
        reveal_strlit(".");
    }
    let sub2 = match strip_suffix_chars(&sub, &dot) {
        Some(t) => t,
        None => sub,
    };
    assert(subdomain_of(name@, domain@) == if is_ascii_seq(sub2@) {
        Ok::<Seq<char>, Seq<char>>(sub2@)
    } else {
        Err::<Seq<char>, Seq<char>>("The domain "@ + name@ + " contains non-ascii characters"@)
    });
    let mut i: usize = 0;
    while i < sub2.len()
        invariant
            subdomain_of(name@, domain@) == if is_ascii_seq(sub2@) {
                Ok::<Seq<char>, Seq<char>>(sub2@)
            } else {
                Err::<Seq<char>, Seq<char>>("The domain "@ + name@ + " contains non-ascii characters"@)
            },
            i <= sub2@.len(),
            forall|j: int| 0 <= j < i ==> (#[trigger] sub2@[j] as int) < 128,
        decreases sub2@.len() - i,
    {
        if sub2[i] >= '\u{80}' {
            assert(!((sub2@[i as int] as int) < 128));
            assert(!is_ascii_seq(sub2@));
            let mut m = concat("The domain ", name);
            m.append(" contains non-ascii characters");
            return Err(m);
        }
        i = i + 1;
    }
    Ok(string_from_chars(&sub2))
}

/// A record as the Porkbun API lists it: time to live and priority come as
/// 64-bit numbers and are cut to the record's widths; a priority is always
/// present.
pub open spec fn listed_record(name: Seq<char>, t: RecordType, content: Seq<char>, ttl: u64, prio: u64) -> RecordView {
    RecordView {
        name,
        record_type: t,
        content,
        ttl_seconds: (ttl % 0x1_0000_0000) as u32,
        priority: Some((prio % 0x1_0000) as u16),
    }
}

/// The record of an entry listed by the Porkbun API.
pub fn record_from_listing(name: String, record_type: RecordType, content: String, ttl: u64, prio: u64) -> (r: Record)
    ensures
        r@ == listed_record(name@, record_type, content@, ttl, prio),
{
    let t: u32 = (ttl % 0x1_0000_0000) as u32;
    let p: u16 = (prio % 0x1_0000) as u16;
    Record { name, record_type, content, ttl_seconds: t, priority: Some(p) }
}

/// The priority sent when creating a record: 0 when none is given.
pub fn creation_priority(priority: Option<u16>) -> (r: u64)
    ensures
        r == match priority {
            Some(p) => p as u64,
            None => 0u64,
        },
{
    match priority {
        Some(p) => p as u64,
        None => 0,
    }
}

} // verus!
