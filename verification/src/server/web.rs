//! Small request-level decisions of the web server: the client's address,
//! the captcha configuration shown to the page, the captcha check request,
//! the key of per-user rate limits and the answer to a crashed handler.

use vstd::prelude::*;
use crate::random::{uuid_text, uuid_text_spec};
use crate::server::auth_cache::AuthenticatedFor;
use crate::text::{chars_of, concat, first_index_of, find_char, slice_chars, string_from_chars, trim, trim_seq};

verus! {

/// The address a request came from, if it can be told.
pub struct ClientIp(pub Option<String>);

/// The first entry of an `x-forwarded-for` list: the text before the first
/// comma, trimmed.
pub open spec fn first_forwarded(v: Seq<char>) -> Seq<char> {
    match first_index_of(v, ',', 0) {
        Some(i) => trim_seq(v.take(i)),
        None => trim_seq(v),
    }
}

pub open spec fn opt_str(o: Option<&str>) -> Option<Seq<char>> {
    match o {
        Some(s) => Some(s@),
        None => None,
    }
}

/// Where a request came from: the first `x-forwarded-for` entry if not
/// blank, else a non-blank `x-real-ip`, else the peer's address.
pub open spec fn client_ip_spec(forwarded: Option<Seq<char>>, real_ip: Option<Seq<char>>, peer: Option<Seq<char>>) -> Option<Seq<char>> {
    if forwarded is Some && first_forwarded(forwarded->0).len() > 0 {
        Some(first_forwarded(forwarded->0))
    } else if real_ip is Some && trim_seq(real_ip->0).len() > 0 {
        Some(trim_seq(real_ip->0))
    } else {
        peer
    }
}

impl ClientIp {
    /// The client address from the proxy headers (given when present and
    /// readable as text) and the peer address of the connection.
    pub fn from_headers(forwarded: Option<&str>, real_ip: Option<&str>, peer: Option<String>) -> (r: ClientIp)
        ensures
            match r.0 {
                Some(s) => client_ip_spec(opt_str(forwarded), opt_str(real_ip), match peer {
                    Some(p) => Some(p@),
                    None => None,
                }) == Some(s@),
                None => client_ip_spec(opt_str(forwarded), opt_str(real_ip), match peer {
                    Some(p) => Some(p@),
                    None => None,
                }) is None,
            },
    {
        if let Some(f) = forwarded {
            let v = chars_of(f);
            proof {
                crate::text::lemma_first_index_bounds(v@, ',', 0);
            }
            let first = match find_char(&v, ',') {
                Some(i) => slice_chars(&v, 0, i),
                None => v,
            };
            proof {
                match first_index_of(f@, ',', 0) {
                    Some(i) => {
                        assert(first@ =~= f@.take(i));
                    },
                    None => {},
                }
            }
            let t = trim(string_from_chars(&first).as_str());
            if t.as_str().unicode_len() > 0 {
                return ClientIp(Some(t));
            }
        }
        if let Some(ri) = real_ip {
            let t = trim(ri);
            if t.as_str().unicode_len() > 0 {
                return ClientIp(Some(t));
            }
        }
        ClientIp(peer)
    }
}

/// What the page is told about the captcha: whether it is on, and the site
/// key for its widget.
pub struct CaptchaConfigResponse {
    pub enabled: bool,
    pub site_key: Option<String>,
}

/// The captcha configuration for the page, given the site key of the
/// configured captcha, if any.
pub fn captcha_config(site_key: Option<&str>) -> (r: CaptchaConfigResponse)
    ensures
        r.enabled == site_key is Some,
        match site_key {
            Some(k) => r.site_key matches Some(s) && s@ == k@,
            None => r.site_key is None,
        },
{
    match site_key {
        Some(k) => CaptchaConfigResponse { enabled: true, site_key: Some(String::from_str(k)) },
        None => CaptchaConfigResponse { enabled: false, site_key: None },
    }
}

/// The address captcha tokens are checked at.
pub open spec fn siteverify_url() -> Seq<char> {
    "https://challenges.cloudflare.com/turnstile/v0/siteverify"@
}

pub fn siteverify_url_str() -> (r: &'static str)
    ensures
        r@ == siteverify_url(),
{
    "https://challenges.cloudflare.com/turnstile/v0/siteverify"
}

pub open spec fn pairs_view(v: Seq<(&'static str, String)>) -> Seq<(Seq<char>, Seq<char>)> {
    v.map_values(|p: (&'static str, String)| (p.0@, p.1@))
}

/// The form posted to check a captcha token: the secret, the token, and the
/// client's address when known.
pub fn siteverify_form(secret: &str, token: &str, remote_ip: Option<&str>) -> (r: Vec<(&'static str, String)>)
    ensures
        pairs_view(r@) == seq![("secret"@, secret@), ("response"@, token@)] + match remote_ip {
            Some(ip) => seq![("remoteip"@, ip@)],
            None => Seq::empty(),
        },
{
    let mut v: Vec<(&'static str, String)> = Vec::new();
    v.push(("secret", String::from_str(secret)));
    v.push(("response", String::from_str(token)));
    if let Some(ip) = remote_ip {
        v.push(("remoteip", String::from_str(ip)));
    }
    proof {
        assert(pairs_view(v@) =~= seq![("secret"@, secret@), ("response"@, token@)] + match remote_ip {
            Some(ip) => seq![("remoteip"@, ip@)],
            None => Seq::empty(),
        });
    }
    v
}

/// Rate limits of the API are kept per user.
pub struct UserKeyExtractor;

impl UserKeyExtractor {
    /// The key of a request: its user's id as text; a request that was not
    /// authorized has none.
    pub fn extract(&self, auth: Option<&AuthenticatedFor>) -> (r: Option<String>)
        ensures
            match auth {
                Some(a) => r matches Some(k) && k@ == uuid_text_spec(a.user().1),
                None => r is None,
            },
    {
        match auth {
            Some(a) => Some(uuid_text(a.user_id())),
            None => None,
        }
    }
}

/// The text answered, with status 500, when a handler panicked.
pub open spec fn panic_body(message: Seq<char>) -> Seq<char> {
    "server ded RIP 💀\n\nThe server had a little oopsie: "@ + message
        + "\n\nDon't worry, it's not your fault! The server is still running though, so you can try again."@
}

pub fn panic_response_body(message: &str) -> (r: String)
    ensures
        r@ == panic_body(message@),
{
    let mut s = concat("server ded RIP 💀\n\nThe server had a little oopsie: ", message);
    s.append("\n\nDon't worry, it's not your fault! The server is still running though, so you can try again.");
    s
}

} // verus!
