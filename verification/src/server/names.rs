//! Record names under the public suffix: who owns which name.

use vstd::prelude::*;
use crate::text::{
    ascii_lowercase, chars_of, concat, ends_with, find_sub, find_sub_exec, join_seq, join_strs,
    last_index_of, lower_seq, rfind_char, seq_ends_with, seq_starts_with, slice_chars, starts_with,
    string_from_chars, extend_chars, eq_chars,
};
use crate::validation::{dns_name_errors, validate_dns_record_name};
use crate::server::error::AppError;

verus! {

/// The public suffix under which users get names, always starting with a dot
/// (e.g. `.is.fckn.gay`).
pub struct PublicSuffix(String);

pub open spec fn dotted(s: Seq<char>) -> Seq<char> {
    if s.len() > 0 && s[0] == '.' {
        s
    } else {
        "."@ + s
    }
}

impl View for PublicSuffix {
    type V = Seq<char>;

    closed spec fn view(&self) -> Seq<char> {
        self.0@
    }
}

impl Clone for PublicSuffix {
    fn clone(&self) -> (r: Self)
        ensures
            r@ == self@,
    {
        PublicSuffix(self.0.clone())
    }
}

impl PublicSuffix {
    /// A suffix from configuration; a leading dot is added if missing.
    pub fn new(suffix: String) -> (r: PublicSuffix)
        ensures
            r@ == dotted(suffix@),
    {
        let v = chars_of(suffix.as_str());
        if v.len() > 0 && v[0] == '.' {
            PublicSuffix(suffix)
        } else {
            PublicSuffix(concat(".", suffix.as_str()))
        }
    }

    /// The suffix, with its leading dot.
    pub fn as_str(&self) -> (r: &str)
        ensures
            r@ == self@,
    {
        self.0.as_str()
    }
}

/// The user's own name: the username followed by the suffix.
pub open spec fn user_root(username: Seq<char>, suffix: Seq<char>) -> Seq<char> {
    username + suffix
}

/// A record name belongs to a user when, ignoring ASCII case, it is the
/// user's root name or ends with `.` followed by it.
pub open spec fn owns_name(record_name: Seq<char>, username: Seq<char>, suffix: Seq<char>) -> bool {
    let name = lower_seq(record_name);
    let root = lower_seq(user_root(username, suffix));
    name == root || seq_ends_with(name, "."@ + root)
}

/// Checks if a record name belongs to the user's subdomain. DNS names are
/// case-insensitive, so the comparison is on lowercase.
pub fn is_valid_subdomain_for_user(
    record_name: &str,
    username: &str,
    public_suffix: &PublicSuffix,
) -> (r: bool)
    ensures
        r == owns_name(record_name@, username@, public_suffix@),
{
    let name = chars_of(ascii_lowercase(record_name).as_str());
    let root_text = concat(username, public_suffix.as_str());
    let root = chars_of(ascii_lowercase(root_text.as_str()).as_str());
    let mut dot_root = chars_of(".");
    extend_chars(&mut dot_root, &root);
    eq_chars(&name, &root) || ends_with(&name, &dot_root)
}

/// The message for a record name that breaks the naming rules.
pub open spec fn invalid_name_message(record_name: Seq<char>) -> Seq<char> {
    "invalid record name: "@ + join_seq(dns_name_errors(record_name), ", "@)
}

/// The message for a record name outside the user's subdomain.
pub open spec fn not_owned_message(root: Seq<char>) -> Seq<char> {
    "record name must end with '."@ + root + "' (or be exactly '"@ + root + "')"@
}

/// Checks a record name's format and ownership: 400 with the broken rules,
/// 400 if the name is not under the user's subdomain, else accepted.
pub fn validate_record_for_user(
    record_name: &str,
    username: &str,
    public_suffix: &PublicSuffix,
) -> (r: Result<(), AppError>)
    ensures
        dns_name_errors(record_name@).len() != 0 ==> (r matches Err(e) && e.status == 400
            && e.message@ == invalid_name_message(record_name@)),
        dns_name_errors(record_name@).len() == 0 && !owns_name(
            record_name@,
            username@,
            public_suffix@,
        ) ==> (r matches Err(e) && e.status == 400 && e.message@ == not_owned_message(
            user_root(username@, public_suffix@),
        )),
        dns_name_errors(record_name@).len() == 0 && owns_name(
            record_name@,
            username@,
            public_suffix@,
        ) ==> r is Ok,
{
    let validation = validate_dns_record_name(record_name);
    if !validation.is_valid() {
        let joined = join_strs(validation.errors(), ", ");
        return Err(AppError::with_message(400, concat("invalid record name: ", joined.as_str())));
    }
    if !is_valid_subdomain_for_user(record_name, username, public_suffix) {
        let root = concat(username, public_suffix.as_str());
        let mut message = concat("record name must end with '.", root.as_str());
        message.append("' (or be exactly '");
        message.append(root.as_str());
        message.append("')");
        return Err(AppError::with_message(400, message));
    }
    Ok(())
}

/// The label right after the last dot (the whole text if there is none).
pub open spec fn last_label(s: Seq<char>) -> Seq<char> {
    match last_index_of(s, '.', s.len() as int) {
        Some(i) => s.skip(i + 1),
        None => s,
    }
}

/// The username a record name belongs to: the label just before the suffix,
/// ignoring ASCII case. Wildcards, empty labels and other suffixes give none.
pub open spec fn username_of_name(record_name: Seq<char>, suffix: Seq<char>) -> Option<Seq<char>> {
    let name = lower_seq(record_name);
    let suf = lower_seq(suffix);
    if !seq_ends_with(name, suf) {
        None
    } else {
        let u = last_label(name.take(name.len() - suf.len()));
        if u.len() == 0 || u == "*"@ {
            None
        } else {
            Some(u)
        }
    }
}

/// Given a record name like `admin.is.fckn.gay` and a suffix like
/// `.is.fckn.gay`, extracts the username label (`admin`); for
/// `sub.alice.is.fckn.gay` it is `alice`.
pub fn extract_username(record_name: &str, suffix: &str) -> (r: Option<String>)
    ensures
        match username_of_name(record_name@, suffix@) {
            Some(u) => r matches Some(s) && s@ == u,
            None => r is None,
        },
{
    let name = chars_of(ascii_lowercase(record_name).as_str());
    let suf = chars_of(ascii_lowercase(suffix).as_str());
    if !ends_with(&name, &suf) {
        return None;
    }
    let without = slice_chars(&name, 0, name.len() - suf.len());
    proof {
        crate::text::lemma_last_index_bounds(without@, '.', without@.len() as int);
    }
    let username = match rfind_char(&without, '.') {
        Some(i) => slice_chars(&without, i + 1, without.len()),
        None => without,
    };
    let star = chars_of("*");
    if username.len() == 0 || eq_chars(&username, &star) {
        return None;
    }
    proof {
        assert(name@.take(name@.len() - suf@.len()) =~= without@);
    }
    Some(string_from_chars(&username))
}

/// The record name after renaming its owner from `old` to `new`: the
/// `old` + suffix ending is replaced; failing that the first `.old.` label;
/// failing that a leading `old.`; otherwise the name is unchanged.
pub open spec fn renamed_name(
    record_name: Seq<char>,
    old: Seq<char>,
    new: Seq<char>,
    suffix: Seq<char>,
) -> Seq<char> {
    let old_label = old + suffix;
    if seq_ends_with(record_name, old_label) {
        record_name.take(record_name.len() - old_label.len()) + new + suffix
    } else {
        let dot_old = "."@ + old + "."@;
        match find_sub(record_name, dot_old, 0) {
            Some(pos) => record_name.take(pos) + "."@ + new + "."@ + record_name.skip(
                pos + dot_old.len(),
            ),
            None => if seq_starts_with(record_name, old + "."@) {
                new + "."@ + record_name.skip(old.len() + 1int)
            } else {
                record_name
            },
        }
    }
}

/// Replaces the old username in a DNS record name with the new one, e.g.
/// `sub.alice.is.fckn.gay` with `alice` -> `bob` gives `sub.bob.is.fckn.gay`.
pub fn rename_record_name(
    record_name: &str,
    old_username: &str,
    new_username: &str,
    suffix: &PublicSuffix,
) -> (r: String)
    ensures
        r@ == renamed_name(record_name@, old_username@, new_username@, suffix@),
{
    proof {
        reveal_strlit(".");
    }
    let name = chars_of(record_name);
    let old = chars_of(old_username);
    let new = chars_of(new_username);
    let suf = chars_of(suffix.as_str());
    let mut old_label = old.clone();
    extend_chars(&mut old_label, &suf);
    if ends_with(&name, &old_label) {
        let mut out = slice_chars(&name, 0, name.len() - old_label.len());
        extend_chars(&mut out, &new);
        extend_chars(&mut out, &suf);
        proof {
            assert(old_label@ == old@ + suf@);
            assert(out@ =~= renamed_name(record_name@, old_username@, new_username@, suffix@));
        }
        return string_from_chars(&out);
    }
    let mut dot_old = chars_of(".");
    extend_chars(&mut dot_old, &old);
    extend_chars(&mut dot_old, &chars_of("."));
    proof {
        crate::text::lemma_find_sub_bounds(name@, dot_old@, 0);
    }
    match find_sub_exec(&name, &dot_old) {
        Some(pos) => {
            let mut out = slice_chars(&name, 0, pos);
            extend_chars(&mut out, &chars_of("."));
            extend_chars(&mut out, &new);
            extend_chars(&mut out, &chars_of("."));
            let rest = slice_chars(&name, pos + dot_old.len(), name.len());
            extend_chars(&mut out, &rest);
            proof {
                assert(old_label@ == old@ + suf@);
                assert(dot_old@ =~= "."@ + old@ + "."@);
                assert(out@ =~= renamed_name(record_name@, old_username@, new_username@, suffix@));
            }
            string_from_chars(&out)
        },
        None => {
            let mut old_dot = old.clone();
            extend_chars(&mut old_dot, &chars_of("."));
            if starts_with(&name, &old_dot) {
                let mut out = new.clone();
                extend_chars(&mut out, &chars_of("."));
                let rest = slice_chars(&name, old_dot.len(), name.len());
                extend_chars(&mut out, &rest);
                proof {
                    assert(old_label@ == old@ + suf@);
                    assert(dot_old@ =~= "."@ + old@ + "."@);
                    assert(old_dot@ =~= old@ + "."@);
                    assert(rest@ =~= record_name@.skip(old@.len() + 1int));
                    assert(out@ =~= renamed_name(record_name@, old_username@, new_username@, suffix@));
                }
                string_from_chars(&out)
            } else {
                proof {
                    assert(old_label@ == old@ + suf@);
                    assert(dot_old@ =~= "."@ + old@ + "."@);
                    assert(old_dot@ =~= old@ + "."@);
                }
                string_from_chars(&name)
            }
        },
    }
}

/// The user a record name is grouped under owns that name: when
/// `extract_username` finds `u` in a name, `is_valid_subdomain_for_user`
/// accepts the name for `u`.
pub proof fn lemma_extracted_user_owns_name(record_name: Seq<char>, suffix: Seq<char>)
    requires
        username_of_name(record_name, suffix) is Some,
    ensures
        owns_name(record_name, username_of_name(record_name, suffix).unwrap(), suffix),
{
    let name = lower_seq(record_name);
    let suf = lower_seq(suffix);
    let prefix = name.take(name.len() - suf.len());
    let u = username_of_name(record_name, suffix).unwrap();
    assert(name =~= prefix + suf);
    crate::text::lemma_last_index_bounds(prefix, '.', prefix.len() as int);
    // every character of `name` is already lowercase
    assert forall|i: int| 0 <= i < u.len() implies crate::text::lower_char(#[trigger] u[i]) == u[i] by {
        match last_index_of(prefix, '.', prefix.len() as int) {
            Some(j) => {
                assert(u[i] == prefix[j + 1 + i]);
                assert(prefix[j + 1 + i] == name[j + 1 + i]);
            },
            None => {
                assert(u[i] == name[i]);
            },
        }
    }
    assert forall|i: int| 0 <= i < suf.len() implies crate::text::lower_char(#[trigger] suf[i]) == suf[i] by {}
    let root = lower_seq(user_root(u, suffix));
    assert(root =~= u + suf);
    match last_index_of(prefix, '.', prefix.len() as int) {
        Some(j) => {
            reveal_strlit(".");
            assert(u =~= prefix.skip(j + 1));
            assert(("."@ + root).len() == 1 + u.len() + suf.len());
            assert(prefix[j] == '.');
            assert(name.subrange(name.len() - ("."@ + root).len(), name.len() as int) =~= "."@ + root);
            assert(seq_ends_with(name, "."@ + root));
        },
        None => {
            assert(u =~= prefix);
            assert(name =~= root);
        },
    }
}

} // verus!
