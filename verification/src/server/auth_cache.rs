//! In-memory cache of session (and password-reset) tokens.
//!
//! Time is a `u64` instant supplied by the caller; a token is valid while
//! its expiry lies after the current instant.

use vstd::prelude::*;
use crate::random::{hex_u64, push_hex_u64, random_u64};
use crate::text::{str_eq, string_from_chars};
use crate::server::error::AppError;
use crate::entries::{keys_unique, lemma_to_map_lookup, lemma_to_map_remove, lemma_to_map_update, to_map};

verus! {

/// A session token's data.
pub struct LoginToken {
    expires_at: u64,
    username: String,
    user_id: u128,
}

/// The value of a token's data.
pub struct TokenView {
    pub expires_at: u64,
    pub username: Seq<char>,
    pub user_id: u128,
}

impl View for LoginToken {
    type V = TokenView;

    closed spec fn view(&self) -> TokenView {
        TokenView { expires_at: self.expires_at, username: self.username@, user_id: self.user_id }
    }
}

impl LoginToken {
    fn new(expires_at: u64, username: String, user_id: u128) -> (r: Self)
        ensures
            r@ == (TokenView { expires_at, username: username@, user_id }),
    {
        LoginToken { expires_at, username, user_id }
    }

    fn is_valid(&self, now: u64) -> (b: bool)
        ensures
            b == (self@.expires_at > now),
    {
        self.expires_at > now
    }

    pub fn username(&self) -> (r: &str)
        ensures
            r@ == self@.username,
    {
        self.username.as_str()
    }

    pub fn user_id(&self) -> (r: u128)
        ensures
            r == self@.user_id,
    {
        self.user_id
    }

    pub fn expires_at(&self) -> (r: u64)
        ensures
            r == self@.expires_at,
    {
        self.expires_at
    }
}

/// The entries whose token belongs to another user than `id`, in order.
pub open spec fn others_entries(s: Seq<(Seq<char>, TokenView)>, id: u128) -> Seq<(Seq<char>, TokenView)>
    decreases s.len(),
{
    if s.len() == 0 {
        Seq::empty()
    } else {
        let p = others_entries(s.drop_last(), id);
        if s.last().1.user_id != id {
            p.push(s.last())
        } else {
            p
        }
    }
}

/// The tokens of users other than `id`.
pub open spec fn without_user(m: Map<Seq<char>, TokenView>, id: u128) -> Map<Seq<char>, TokenView> {
    m.restrict(m.dom().filter(|k: Seq<char>| m[k].user_id != id))
}

proof fn lemma_others_entries(s: Seq<(Seq<char>, TokenView)>, id: u128)
    requires
        keys_unique(s),
    ensures
        to_map(others_entries(s, id)) == without_user(to_map(s), id),
        keys_unique(others_entries(s, id)),
        forall|j: int| 0 <= j < others_entries(s, id).len() ==> exists|i: int| 0 <= i < s.len()
            && #[trigger] others_entries(s, id)[j] == s[i],
    decreases s.len(),
{
    if s.len() > 0 {
        let p = s.drop_last();
        assert(keys_unique(p));
        lemma_others_entries(p, id);
        let q = others_entries(p, id);
        let k = s.last().0;
        lemma_to_map_lookup(p, k);
        assert forall|a: int| 0 <= a < p.len() implies #[trigger] p[a].0 != k by {
            assert(p[a] == s[a]);
        }
        assert forall|j: int| 0 <= j < q.len() implies #[trigger] q[j].0 != k by {
            let i = choose|i: int| 0 <= i < p.len() && q[j] == p[i];
            assert(p[i].0 != k);
        }
        let m = to_map(s);
        if s.last().1.user_id != id {
            let r = q.push(s.last());
            assert(keys_unique(r)) by {
                assert forall|a: int, b: int| 0 <= a < r.len() && 0 <= b < r.len() && a != b implies #[trigger] r[a].0 != #[trigger] r[b].0 by {
                    if a < q.len() && b < q.len() {
                        assert(r[a] == q[a]);
                        assert(r[b] == q[b]);
                    } else if a < q.len() {
                        assert(r[a] == q[a]);
                    } else if b < q.len() {
                        assert(r[b] == q[b]);
                    }
                }
            }
            assert forall|j: int| 0 <= j < r.len() implies exists|i: int| 0 <= i < s.len() && #[trigger] r[j] == s[i] by {
                if j < q.len() {
                    let i = choose|i: int| 0 <= i < p.len() && q[j] == p[i];
                    assert(r[j] == s[i]);
                } else {
                    assert(r[j] == s[s.len() - 1]);
                }
            }
            assert(!to_map(p).dom().contains(k));
            assert(r.drop_last() =~= q);
            assert(to_map(r) == to_map(q).insert(k, s.last().1));
            assert(m == to_map(p).insert(k, s.last().1));
            assert(to_map(r) =~= without_user(m, id));
        } else {
            assert forall|j: int| 0 <= j < q.len() implies exists|i: int| 0 <= i < s.len() && #[trigger] q[j] == s[i] by {
                let i = choose|i: int| 0 <= i < p.len() && q[j] == p[i];
                assert(q[j] == s[i]);
            }
            assert(!to_map(p).dom().contains(k));
            assert(m == to_map(p).insert(k, s.last().1));
            assert(to_map(q) =~= without_user(m, id));
        }
    }
}

/// A cache of tokens, each mapped to the user it was issued for.
pub struct AuthenticationCache {
    db: Vec<(String, LoginToken)>,
}

pub open spec fn entry_view(e: (String, LoginToken)) -> (Seq<char>, TokenView) {
    (e.0@, e.1@)
}

impl AuthenticationCache {
    pub closed spec fn entries(&self) -> Seq<(Seq<char>, TokenView)> {
        self.db@.map_values(|e: (String, LoginToken)| entry_view(e))
    }

    /// Tokens are never listed twice.
    pub closed spec fn wf(&self) -> bool {
        keys_unique(self.entries())
    }
}

impl View for AuthenticationCache {
    type V = Map<Seq<char>, TokenView>;

    closed spec fn view(&self) -> Map<Seq<char>, TokenView> {
        to_map(self.entries())
    }
}

/// What a lookup of `token` at instant `now` gives: the user of a present
/// token that has not expired.
pub open spec fn valid_user(m: Map<Seq<char>, TokenView>, token: Seq<char>, now: u64) -> Option<(Seq<char>, u128)> {
    if m.dom().contains(token) && m[token].expires_at > now {
        Some((m[token].username, m[token].user_id))
    } else {
        None
    }
}

pub open spec fn user_view(r: Option<(String, u128)>) -> Option<(Seq<char>, u128)> {
    match r {
        Some((u, id)) => Some((u@, id)),
        None => None,
    }
}

/// Lowercase hex text of two 64-bit values, 32 digits in all.
pub open spec fn token_text(hi: u64, lo: u64) -> Seq<char> {
    hex_u64(hi) + hex_u64(lo)
}

impl AuthenticationCache {
    /// An empty cache.
    pub fn new() -> (r: Self)
        ensures
            r.wf(),
            r@ == Map::<Seq<char>, TokenView>::empty(),
    {
        AuthenticationCache { db: Vec::new() }
    }

    fn find(&self, token: &str) -> (r: Option<usize>)
        ensures
            match r {
                Some(i) => i < self.entries().len() && self.entries()[i as int].0 == token@,
                None => forall|i: int| 0 <= i < self.entries().len() ==> #[trigger] self.entries()[i].0 != token@,
            },
    {
        let mut i: usize = 0;
        while i < self.db.len()
            invariant
                i <= self.db.len(),
                forall|j: int| 0 <= j < i ==> #[trigger] self.entries()[j].0 != token@,
            decreases self.db.len() - i,
        {
            if str_eq(self.db[i].0.as_str(), token) {
                return Some(i);
            }
            i = i + 1;
        }
        None
    }

    /// Stores a token for a user until `expires_at` (replacing any token
    /// with the same text).
    pub fn add_token(&mut self, token: String, username: String, user_id: u128, expires_at: u64)
        requires
            old(self).wf(),
        ensures
            final(self).wf(),
            final(self)@ == old(self)@.insert(
                token@,
                TokenView { expires_at, username: username@, user_id },
            ),
    {
        let ghost s = self.entries();
        let t = LoginToken::new(expires_at, username, user_id);
        let ghost tv = t@;
        let ghost k = token@;
        match self.find(token.as_str()) {
            Some(i) => {
                self.db.set(i, (token, t));
                proof {
                    assert(self.entries() =~= s.update(i as int, (s[i as int].0, tv)));
                    lemma_to_map_update(s, i as int, tv);
                }
            },
            None => {
                self.db.push((token, t));
                proof {
                    assert(self.entries() =~= s.push((k, tv)));
                    assert(keys_unique(self.entries())) by {
                        let e = self.entries();
                        assert forall|a: int, b: int| 0 <= a < e.len() && 0 <= b < e.len() && a != b implies #[trigger] e[a].0 != #[trigger] e[b].0 by {
                            if a < s.len() {
                                assert(e[a] == s[a]);
                            }
                            if b < s.len() {
                                assert(e[b] == s[b]);
                            }
                        }
                    }
                    assert(self.entries().drop_last() =~= s);
                    assert(to_map(self.entries()) =~= to_map(s).insert(k, tv));
                }
            },
        }
    }

    /// Removes a token and returns its data.
    pub fn remove_token(&mut self, token: &str) -> (r: Option<LoginToken>)
        requires
            old(self).wf(),
        ensures
            final(self).wf(),
            final(self)@ == old(self)@.remove(token@),
            match r {
                Some(t) => old(self)@.dom().contains(token@) && t@ == old(self)@[token@],
                None => !old(self)@.dom().contains(token@),
            },
    {
        let ghost s = self.entries();
        proof {
            lemma_to_map_lookup(s, token@);
        }
        match self.find(token) {
            Some(i) => {
                let (_, t) = self.db.remove(i);
                proof {
                    assert(self.entries() =~= s.remove(i as int));
                    lemma_to_map_remove(s, i as int);
                }
                Some(t)
            },
            None => {
                proof {
                    assert(to_map(s).remove(token@) =~= to_map(s));
                }
                None
            },
        }
    }

    /// Issues a fresh random 128-bit token (32 hex digits) for a user.
    /// `None` when the operating system's random source fails.
    pub fn new_token_for(&mut self, username: String, user_id: u128, expires_at: u64) -> (r: Option<String>)
        requires
            old(self).wf(),
        ensures
            final(self).wf(),
            match r {
                Some(t) => t@.len() == 32 && (exists|hi: u64, lo: u64| t@ == token_text(hi, lo))
                    && final(self)@ == old(self)@.insert(
                    t@,
                    TokenView { expires_at, username: username@, user_id },
                ),
                None => final(self)@ == old(self)@,
            },
    {
        let hi = match random_u64() {
            Some(v) => v,
            None => return None,
        };
        let lo = match random_u64() {
            Some(v) => v,
            None => return None,
        };
        let mut chars: Vec<char> = Vec::new();
        push_hex_u64(&mut chars, hi);
        push_hex_u64(&mut chars, lo);
        let token = string_from_chars(&chars);
        proof {
            assert(token@ =~= token_text(hi, lo));
            crate::random::lemma_hex_u64_len(hi);
            crate::random::lemma_hex_u64_len(lo);
        }
        let copy = token.clone();
        self.add_token(token, username, user_id, expires_at);
        Some(copy)
    }

    /// Removes a token and returns its user if it had not expired: a token
    /// can be used this way only once.
    pub fn take_valid_token(&mut self, token: &str, now: u64) -> (r: Option<(String, u128)>)
        requires
            old(self).wf(),
        ensures
            final(self).wf(),
            final(self)@ == old(self)@.remove(token@),
            user_view(r) == valid_user(old(self)@, token@, now),
    {
        match self.remove_token(token) {
            Some(t) => {
                if t.is_valid(now) {
                    let name = String::from_str(t.username());
                    Some((name, t.user_id()))
                } else {
                    None
                }
            },
            None => None,
        }
    }

    /// The user of a token that has not expired; an expired token is
    /// dropped from the cache.
    pub fn get_user_from_token(&mut self, token: &str, now: u64) -> (r: Option<(String, u128)>)
        requires
            old(self).wf(),
        ensures
            final(self).wf(),
            user_view(r) == valid_user(old(self)@, token@, now),
            final(self)@ == if old(self)@.dom().contains(token@) && old(self)@[token@].expires_at
                <= now {
                old(self)@.remove(token@)
            } else {
                old(self)@
            },
    {
        let ghost s = self.entries();
        proof {
            lemma_to_map_lookup(s, token@);
        }
        match self.find(token) {
            Some(i) => {
                if self.db[i].1.is_valid(now) {
                    let name = String::from_str(self.db[i].1.username());
                    return Some((name, self.db[i].1.user_id()));
                }
            },
            None => {
                return None;
            },
        }
        self.remove_token(token);
        None
    }

    /// Drops every token of a user.
    pub fn invalidate_all_tokens_for_user(&mut self, user_id: u128)
        requires
            old(self).wf(),
        ensures
            final(self).wf(),
            final(self)@ == without_user(old(self)@, user_id),
    {
        let ghost s = self.entries();
        let mut kept: Vec<(String, LoginToken)> = Vec::new();
        let mut rest: Vec<(String, LoginToken)> = Vec::new();
        std::mem::swap(&mut rest, &mut self.db);
        let ghost all = rest@;
        proof {
            assert(all.map_values(|e: (String, LoginToken)| entry_view(e)) == s);
        }
        let mut i: usize = 0;
        let n = rest.len();
        while i < n
            invariant
                n == all.len(),
                i <= n,
                rest@ == all.skip(i as int),
                s == all.map_values(|e: (String, LoginToken)| entry_view(e)),
                kept@.map_values(|e: (String, LoginToken)| entry_view(e)) == others_entries(
                    s.take(i as int),
                    user_id,
                ),
            decreases n - i,
        {
            let e = rest.remove(0);
            proof {
                assert(e == all[i as int]);
                assert(rest@ =~= all.skip(i + 1));
                assert(s.take(i + 1).drop_last() =~= s.take(i as int));
                assert(s.take(i + 1).last() == entry_view(e));
            }
            if e.1.user_id() != user_id {
                let ghost before = kept@;
                kept.push(e);
                proof {
                    assert(kept@.map_values(|e: (String, LoginToken)| entry_view(e)) =~= before.map_values(
                        |e: (String, LoginToken)| entry_view(e),
                    ).push(entry_view(e)));
                }
            }
            i = i + 1;
        }
        self.db = kept;
        proof {
            assert(s.take(n as int) =~= s);
            lemma_others_entries(s, user_id);
        }
    }
}

/// The user a request was authorized for.
#[derive(Debug)]
pub struct AuthenticatedFor {
    user_id: u128,
    username: String,
}

impl AuthenticatedFor {
    pub fn new(user_id: u128, username: String) -> (r: Self)
        ensures
            r.user() == (username@, user_id),
    {
        AuthenticatedFor { user_id, username }
    }

    /// The username and id.
    pub closed spec fn user(&self) -> (Seq<char>, u128) {
        (self.username@, self.user_id)
    }

    pub fn user_id(&self) -> (r: u128)
        ensures
            r == self.user().1,
    {
        self.user_id
    }

    pub fn username(&self) -> (r: &str)
        ensures
            r@ == self.user().0,
    {
        self.username.as_str()
    }
}

impl Clone for AuthenticatedFor {
    fn clone(&self) -> (r: Self)
        ensures
            r.user() == self.user(),
    {
        AuthenticatedFor { user_id: self.user_id, username: self.username.clone() }
    }
}

/// The cache of password-reset tokens, kept apart from the session cache.
pub struct PasswordResetCache(pub AuthenticationCache);

pub open spec fn auth_view(r: Option<AuthenticatedFor>) -> Option<(Seq<char>, u128)> {
    match r {
        Some(a) => Some(a.user()),
        None => None,
    }
}

/// What a lookup of an optional session cookie does to the cache: an
/// expired token is dropped.
pub open spec fn after_lookup(m: Map<Seq<char>, TokenView>, token: Option<Seq<char>>, now: u64) -> Map<Seq<char>, TokenView> {
    match token {
        Some(t) => if m.dom().contains(t) && m[t].expires_at <= now {
            m.remove(t)
        } else {
            m
        },
        None => m,
    }
}

pub open spec fn lookup_user(m: Map<Seq<char>, TokenView>, token: Option<Seq<char>>, now: u64) -> Option<(Seq<char>, u128)> {
    match token {
        Some(t) => valid_user(m, t, now),
        None => None,
    }
}

pub open spec fn opt_str(o: Option<&str>) -> Option<Seq<char>> {
    match o {
        Some(s) => Some(s@),
        None => None,
    }
}

/// The user a request is authorized for by its `login-token` cookie, if the
/// cookie holds a token that has not expired.
pub fn add_authorization(cache: &mut AuthenticationCache, login_token: Option<&str>, now: u64) -> (r: Option<
    AuthenticatedFor,
>)
    requires
        old(cache).wf(),
    ensures
        final(cache).wf(),
        auth_view(r) == lookup_user(old(cache)@, opt_str(login_token), now),
        final(cache)@ == after_lookup(old(cache)@, opt_str(login_token), now),
{
    match login_token {
        Some(token) => match cache.get_user_from_token(token, now) {
            Some((username, user_id)) => Some(AuthenticatedFor::new(user_id, username)),
            None => None,
        },
        None => None,
    }
}

/// Authorization for the API: without a valid session the request is
/// refused with 401.
pub fn add_authorization_or_unauthorized(cache: &mut AuthenticationCache, login_token: Option<&str>, now: u64) -> (r:
    Result<AuthenticatedFor, AppError>)
    requires
        old(cache).wf(),
    ensures
        final(cache).wf(),
        final(cache)@ == after_lookup(old(cache)@, opt_str(login_token), now),
        match lookup_user(old(cache)@, opt_str(login_token), now) {
            Some(u) => r matches Ok(a) && a.user() == u,
            None => r matches Err(e) && e.status == 401 && e.message@ == "not authenticated"@,
        },
{
    match add_authorization(cache, login_token, now) {
        Some(a) => Ok(a),
        None => Err(AppError::message(401, "not authenticated")),
    }
}

/// Authorization for pages: without a valid session the browser is sent to
/// the given path, `/`.
pub fn redirect_if_unauthorized(cache: &mut AuthenticationCache, login_token: Option<&str>, now: u64) -> (r: Result<
    AuthenticatedFor,
    &'static str,
>)
    requires
        old(cache).wf(),
    ensures
        final(cache).wf(),
        final(cache)@ == after_lookup(old(cache)@, opt_str(login_token), now),
        match lookup_user(old(cache)@, opt_str(login_token), now) {
            Some(u) => r matches Ok(a) && a.user() == u,
            None => r matches Err(p) && p@ == "/"@,
        },
{
    match add_authorization(cache, login_token, now) {
        Some(a) => Ok(a),
        None => Err("/"),
    }
}

/// A token just stored for a user yields that user until it expires.
pub proof fn lemma_added_token_authenticates(
    m: Map<Seq<char>, TokenView>,
    token: Seq<char>,
    username: Seq<char>,
    user_id: u128,
    expires_at: u64,
    now: u64,
)
    requires
        now < expires_at,
    ensures
        valid_user(m.insert(token, TokenView { expires_at, username, user_id }), token, now) == Some(
            (username, user_id),
        ),
{
}

/// A token is refused once it has expired.
pub proof fn lemma_expired_token_refused(m: Map<Seq<char>, TokenView>, token: Seq<char>, now: u64)
    requires
        m.dom().contains(token),
        m[token].expires_at <= now,
    ensures
        valid_user(m, token, now) is None,
{
}

/// A token taken once cannot be taken again.
pub proof fn lemma_taken_token_single_use(m: Map<Seq<char>, TokenView>, token: Seq<char>, now: u64)
    ensures
        valid_user(m.remove(token), token, now) is None,
{
}

/// After all of a user's tokens are dropped, no token yields that user.
pub proof fn lemma_invalidated_user_refused(
    m: Map<Seq<char>, TokenView>,
    user_id: u128,
    token: Seq<char>,
    now: u64,
)
    ensures
        !(valid_user(without_user(m, user_id), token, now) matches Some((_, id)) && id == user_id),
{
}

} // verus!
