//! Validation of usernames, DNS record names and passwords.
//!
//! The same rules run on the server and in the browser; each validator
//! returns every rule that the input breaks, in a fixed order.

use vstd::prelude::*;
use crate::text::{
    ascii_alnum, ascii_digit, ascii_lower, ascii_punct, ascii_upper, chars_of, is_ascii_alnum,
    is_ascii_digit, is_ascii_lower, is_ascii_punct, is_ascii_upper, string_from_chars,
};

verus! {

/// The outcome of a validation: the list of broken rules, empty when valid.
pub struct ValidationResult {
    errors: Vec<&'static str>,
}

impl View for ValidationResult {
    type V = Seq<Seq<char>>;

    closed spec fn view(&self) -> Seq<Seq<char>> {
        self.errors@.map_values(|e: &'static str| e@)
    }
}

pub open spec fn views_of(v: Seq<&'static str>) -> Seq<Seq<char>> {
    v.map_values(|e: &'static str| e@)
}

impl ValidationResult {
    fn new() -> (r: Self)
        ensures
            r@ == Seq::<Seq<char>>::empty(),
    {
        ValidationResult { errors: Vec::new() }
    }

    fn with_errors(self, errors: Vec<&'static str>) -> (r: Self)
        ensures
            r@ == self@ + views_of(errors@),
    {
        let mut all = self.errors;
        let ghost start = all@;
        let mut i: usize = 0;
        while i < errors.len()
            invariant
                i <= errors.len(),
                all@ == start + errors@.subrange(0, i as int),
            decreases errors.len() - i,
        {
            all.push(errors[i]);
            i = i + 1;
        }
        proof {
            assert(errors@.subrange(0, errors@.len() as int) =~= errors@);
            assert(views_of(start + errors@) =~= views_of(start) + views_of(errors@));
        }
        ValidationResult { errors: all }
    }

    /// True when no rule was broken.
    pub fn is_valid(&self) -> (b: bool)
        ensures
            b == (self@.len() == 0),
    {
        self.errors.len() == 0
    }

    /// The messages of the broken rules, in order.
    pub fn errors(&self) -> (r: &[&'static str])
        ensures
            views_of(r@) == self@,
    {
        self.errors.as_slice()
    }
}

// ---------------------------------------------------------------------------
// Usernames
// ---------------------------------------------------------------------------

pub open spec fn username_char_ok(c: char) -> bool {
    is_ascii_lower(c) || is_ascii_digit(c) || c == '-'
}

pub open spec fn opt_msg(cond: bool, msg: Seq<char>) -> Seq<Seq<char>> {
    if cond {
        seq![msg]
    } else {
        Seq::empty()
    }
}

/// The rules a username breaks, in the order they are reported.
pub open spec fn username_errors(u: Seq<char>) -> Seq<Seq<char>> {
    opt_msg(u.len() == 0, "Username cannot be empty"@)
        + opt_msg(u.len() > 63, "Username must be 63 characters or less"@)
        + opt_msg(u.len() > 0 && u[0] == '-', "Username cannot start with a dash"@)
        + opt_msg(u.len() > 0 && u.last() == '-', "Username cannot end with a dash"@)
        + opt_msg(
        exists|i: int| 0 <= i < u.len() && !username_char_ok(#[trigger] u[i]),
        "Username can only contain lowercase letters, numbers, and dashes"@,
    )
}

/// A username is a DNS label of 1 to 63 lowercase letters, digits and
/// dashes that neither starts nor ends with a dash.
pub open spec fn username_rules_hold(u: Seq<char>) -> bool {
    &&& 1 <= u.len() <= 63
    &&& forall|i: int| 0 <= i < u.len() ==> username_char_ok(#[trigger] u[i])
    &&& u[0] != '-'
    &&& u.last() != '-'
}

/// Validates a username according to DNS label rules.
pub fn validate_username(username: &str) -> (r: ValidationResult)
    ensures
        r@ == username_errors(username@),
        r@.len() == 0 <==> username_rules_hold(username@),
{
    let result = ValidationResult::new();
    let mut errors: Vec<&'static str> = Vec::new();
    let ghost u = username@;
    let chars = chars_of(username);

    let len = chars.len();
    if len == 0 {
        errors.push("Username cannot be empty");
    } else if len > 63 {
        errors.push("Username must be 63 characters or less");
    }
    proof {
        assert(views_of(errors@) =~= opt_msg(u.len() == 0, "Username cannot be empty"@)
            + opt_msg(u.len() > 63, "Username must be 63 characters or less"@));
    }
    let ghost e1 = views_of(errors@);

    if chars.len() > 0 && chars[0] == '-' {
        errors.push("Username cannot start with a dash");
    }
    proof {
        assert(views_of(errors@) =~= e1 + opt_msg(
            u.len() > 0 && u[0] == '-',
            "Username cannot start with a dash"@,
        ));
    }
    let ghost e2 = views_of(errors@);
    if chars.len() > 0 && chars[chars.len() - 1] == '-' {
        errors.push("Username cannot end with a dash");
    }
    proof {
        assert(views_of(errors@) =~= e2 + opt_msg(
            u.len() > 0 && u.last() == '-',
            "Username cannot end with a dash"@,
        ));
    }
    let ghost e3 = views_of(errors@);

    let mut bad = false;
    let mut i: usize = 0;
    while i < chars.len() && !bad
        invariant
            chars@ == u,
            i <= chars.len(),
            !bad ==> forall|j: int| 0 <= j < i ==> username_char_ok(#[trigger] u[j]),
            bad ==> exists|j: int| 0 <= j < u.len() && !username_char_ok(#[trigger] u[j]),
        decreases chars.len() - i,
    {
        let c = chars[i];
        if !(ascii_lower(c) || ascii_digit(c) || c == '-') {
            bad = true;
            assert(!username_char_ok(u[i as int]));
        }
        i = i + 1;
    }
    if bad {
        errors.push("Username can only contain lowercase letters, numbers, and dashes");
    }
    proof {
        let any_bad = exists|j: int| 0 <= j < u.len() && !username_char_ok(#[trigger] u[j]);
        assert(bad == any_bad);
        assert(views_of(errors@) =~= e3 + opt_msg(
            any_bad,
            "Username can only contain lowercase letters, numbers, and dashes"@,
        ));
    }
    result.with_errors(errors)
}

// ---------------------------------------------------------------------------
// DNS record names
// ---------------------------------------------------------------------------

/// Splits `s` at every `.` (like `str::split('.')`): `n` dots give `n + 1` labels.
pub open spec fn split_dots(s: Seq<char>) -> Seq<Seq<char>>
    decreases s.len(),
{
    if s.len() == 0 {
        seq![Seq::<char>::empty()]
    } else {
        let p = split_dots(s.drop_last());
        if s.last() == '.' {
            p.push(Seq::<char>::empty())
        } else {
            p.update(p.len() - 1, p.last().push(s.last()))
        }
    }
}

pub proof fn lemma_split_dots_nonempty(s: Seq<char>)
    ensures
        split_dots(s).len() >= 1,
    decreases s.len(),
{
    if s.len() > 0 {
        lemma_split_dots_nonempty(s.drop_last());
    }
}

/// The first character problem of a label, scanning from index `i`:
/// an underscore anywhere but at the start, or a character other than
/// an ASCII letter, digit or dash.
pub open spec fn label_char_error(l: Seq<char>, i: int) -> Option<Seq<char>>
    decreases l.len() - i,
{
    if i < 0 || i >= l.len() {
        None
    } else if l[i] == '_' {
        if i != 0 {
            Some(
                "Underscore only allowed at the start of a label (for service records like _dmarc)"@,
            )
        } else {
            label_char_error(l, i + 1)
        }
    } else if !(is_ascii_alnum(l[i]) || l[i] == '-') {
        Some("Label can only contain letters, numbers, and dashes"@)
    } else {
        label_char_error(l, i + 1)
    }
}

pub open spec fn opt_seq(o: Option<Seq<char>>) -> Seq<Seq<char>> {
    match o {
        Some(m) => seq![m],
        None => Seq::empty(),
    }
}

/// The rules a single DNS label breaks.
pub open spec fn label_errors(l: Seq<char>) -> Seq<Seq<char>> {
    if l.len() == 0 {
        seq!["Label cannot be empty"@]
    } else {
        opt_msg(l.len() > 63, "Label must be 63 characters or less"@) + opt_msg(
            l[0] == '-',
            "Label cannot start with a dash"@,
        ) + opt_msg(l.last() == '-', "Label cannot end with a dash"@) + opt_seq(
            label_char_error(l, 0),
        )
    }
}

pub open spec fn all_label_errors(ls: Seq<Seq<char>>) -> Seq<Seq<char>>
    decreases ls.len(),
{
    if ls.len() == 0 {
        Seq::empty()
    } else {
        all_label_errors(ls.drop_last()) + label_errors(ls.last())
    }
}

pub open spec fn has_double_dot(s: Seq<char>) -> bool {
    exists|i: int| 0 <= i && i + 1 < s.len() && #[trigger] s[i] == '.' && s[i + 1] == '.'
}

/// The rules a DNS record name breaks, in the order they are reported.
pub open spec fn dns_name_errors(n: Seq<char>) -> Seq<Seq<char>> {
    if n.len() == 0 {
        seq!["Record name cannot be empty"@]
    } else {
        opt_msg(n.len() > 253, "Record name must be 253 characters or less"@) + opt_msg(
            has_double_dot(n),
            "Record name cannot contain consecutive dots"@,
        ) + all_label_errors(split_dots(n))
    }
}

/// A valid label: 1 to 63 bytes of ASCII letters, digits and dashes, not
/// starting or ending with a dash; an underscore may only come first.
pub open spec fn label_rules_hold(l: Seq<char>) -> bool {
    &&& l.len() >= 1
    &&& l.len() <= 63
    &&& l[0] != '-'
    &&& l.last() != '-'
    &&& label_char_error(l, 0) is None
}

/// A valid record name: at most 253 bytes, no empty label, every label valid.
pub open spec fn dns_name_rules_hold(n: Seq<char>) -> bool {
    &&& n.len() >= 1
    &&& n.len() <= 253
    &&& !has_double_dot(n)
    &&& forall|k: int| 0 <= k < split_dots(n).len() ==> label_rules_hold(#[trigger] split_dots(n)[k])
}

proof fn lemma_label_errors_empty(l: Seq<char>)
    ensures
        label_errors(l).len() == 0 <==> label_rules_hold(l),
{
}

proof fn lemma_all_label_errors_empty(ls: Seq<Seq<char>>)
    ensures
        all_label_errors(ls).len() == 0 <==> forall|k: int|
            0 <= k < ls.len() ==> label_rules_hold(#[trigger] ls[k]),
    decreases ls.len(),
{
    if ls.len() > 0 {
        lemma_all_label_errors_empty(ls.drop_last());
        lemma_label_errors_empty(ls.last());
        if all_label_errors(ls).len() == 0 {
            assert forall|k: int| 0 <= k < ls.len() implies label_rules_hold(#[trigger] ls[k]) by {
                if k < ls.len() - 1 {
                    assert(ls.drop_last()[k] == ls[k]);
                }
            }
        } else {
            if all_label_errors(ls.drop_last()).len() != 0 {
                let k = choose|k: int|
                    0 <= k < ls.drop_last().len() && !label_rules_hold(#[trigger] ls.drop_last()[k]);
                assert(ls[k] == ls.drop_last()[k]);
            } else {
                assert(!label_rules_hold(ls[ls.len() - 1]));
            }
        }
    }
}

/// Splits a name into its dot-separated labels.
fn split_labels(name: &Vec<char>) -> (r: Vec<Vec<char>>)
    ensures
        r@.len() == split_dots(name@).len(),
        forall|k: int| 0 <= k < r@.len() ==> (#[trigger] r@[k])@ == split_dots(name@)[k],
{
    let mut done: Vec<Vec<char>> = Vec::new();
    let mut cur: Vec<char> = Vec::new();
    let mut i: usize = 0;
    while i < name.len()
        invariant
            i <= name.len(),
            done@.len() + 1 == split_dots(name@.subrange(0, i as int)).len(),
            forall|k: int|
                0 <= k < done@.len() ==> (#[trigger] done@[k])@ == split_dots(
                    name@.subrange(0, i as int),
                )[k],
            cur@ == split_dots(name@.subrange(0, i as int)).last(),
        decreases name.len() - i,
    {
        let ghost pre = name@.subrange(0, i as int);
        let ghost nxt = name@.subrange(0, i + 1);
        proof {
            assert(nxt.drop_last() =~= pre);
            lemma_split_dots_nonempty(pre);
        }
        let c = name[i];
        if c == '.' {
            let finished = cur;
            done.push(finished);
            cur = Vec::new();
            proof {
                assert(cur@ =~= split_dots(nxt).last());
            }
        } else {
            cur.push(c);
        }
        i = i + 1;
    }
    proof {
        assert(name@.subrange(0, name@.len() as int) =~= name@);
    }
    let ghost pre_done = done@;
    done.push(cur);
    proof {
        let sp = split_dots(name@);
        assert forall|k: int| 0 <= k < done@.len() implies (#[trigger] done@[k])@ == sp[k] by {
            if k < pre_done.len() {
                assert(done@[k] == pre_done[k]);
            }
        }
    }
    done
}

fn label_errors_exec(label: &Vec<char>) -> (r: Vec<&'static str>)
    ensures
        views_of(r@) == label_errors(label@),
{
    let ghost l = label@;
    let mut errors: Vec<&'static str> = Vec::new();
    if label.len() == 0 {
        errors.push("Label cannot be empty");
        proof {
            assert(views_of(errors@) =~= label_errors(l));
        }
        return errors;
    }
    let text = string_from_chars(label);
    if label.len() > 63 {
        errors.push("Label must be 63 characters or less");
    }
    if label[0] == '-' {
        errors.push("Label cannot start with a dash");
    }
    if label[label.len() - 1] == '-' {
        errors.push("Label cannot end with a dash");
    }
    let ghost before = views_of(errors@);
    proof {
        assert(before =~= opt_msg(l.len() > 63, "Label must be 63 characters or less"@)
            + opt_msg(l[0] == '-', "Label cannot start with a dash"@) + opt_msg(
            l.last() == '-',
            "Label cannot end with a dash"@,
        ));
    }
    let mut i: usize = 0;
    while i < label.len()
        invariant
            label@ == l,
            l.len() > 0,
            i <= label.len(),
            views_of(errors@) == before,
            label_errors(l) == before + opt_seq(label_char_error(l, 0)),
            label_char_error(l, 0) == label_char_error(l, i as int),
        decreases label.len() - i,
    {
        let c = label[i];
        if c == '_' {
            if i != 0 {
                errors.push(
                    "Underscore only allowed at the start of a label (for service records like _dmarc)",
                );
                proof {
                    assert(views_of(errors@) =~= before + opt_seq(label_char_error(l, 0)));
                }
                return errors;
            }
        } else if !(ascii_alnum(c) || c == '-') {
            errors.push("Label can only contain letters, numbers, and dashes");
            proof {
                assert(views_of(errors@) =~= before + opt_seq(label_char_error(l, 0)));
            }
            return errors;
        }
        i = i + 1;
    }
    proof {
        assert(label_char_error(l, i as int) is None);
        assert(views_of(errors@) =~= before + opt_seq(label_char_error(l, 0)));
    }
    errors
}

/// Validates a DNS record name such as `subdomain.example.com`.
pub fn validate_dns_record_name(name: &str) -> (r: ValidationResult)
    ensures
        r@ == dns_name_errors(name@),
        r@.len() == 0 <==> dns_name_rules_hold(name@),
{
    let result = ValidationResult::new();
    let mut errors: Vec<&'static str> = Vec::new();
    let ghost n = name@;

    if name.is_empty() {
        errors.push("Record name cannot be empty");
        let r = result.with_errors(errors);
        proof {
            assert(r@ =~= dns_name_errors(n));
        }
        return r;
    }
    let chars = chars_of(name);
    if chars.len() > 253 {
        errors.push("Record name must be 253 characters or less");
    }

    let mut double = false;
    let mut i: usize = 0;
    while i + 1 < chars.len() && !double
        invariant
            chars@ == n,
            i < chars.len(),
            !double ==> forall|j: int| 0 <= j < i && j + 1 < n.len() ==> !(#[trigger] n[j] == '.' && n[j + 1] == '.'),
            double ==> has_double_dot(n),
        decreases chars.len() - i,
    {
        if chars[i] == '.' && chars[i + 1] == '.' {
            double = true;
        }
        i = i + 1;
    }
    if double {
        errors.push("Record name cannot contain consecutive dots");
    }
    let ghost head = views_of(errors@);
    proof {
        assert(double == has_double_dot(n));
        assert(head =~= opt_msg(n.len() > 253, "Record name must be 253 characters or less"@)
            + opt_msg(has_double_dot(n), "Record name cannot contain consecutive dots"@));
    }

    let labels = split_labels(&chars);
    let ghost ls = split_dots(n);
    let mut k: usize = 0;
    while k < labels.len()
        invariant
            labels@.len() == ls.len(),
            forall|j: int| 0 <= j < labels@.len() ==> (#[trigger] labels@[j])@ == ls[j],
            k <= labels.len(),
            views_of(errors@) == head + all_label_errors(ls.subrange(0, k as int)),
        decreases labels.len() - k,
    {
        let le = label_errors_exec(&labels[k]);
        let ghost prev = errors@;
        let mut t: usize = 0;
        while t < le.len()
            invariant
                t <= le.len(),
                errors@ == prev + le@.subrange(0, t as int),
            decreases le.len() - t,
        {
            errors.push(le[t]);
            t = t + 1;
        }
        proof {
            assert(le@.subrange(0, le@.len() as int) =~= le@);
            assert(views_of(prev + le@) =~= views_of(prev) + views_of(le@));
            assert(ls.subrange(0, k + 1).drop_last() =~= ls.subrange(0, k as int));
            assert(ls.subrange(0, k + 1).last() == ls[k as int]);
        }
        k = k + 1;
    }
    proof {
        assert(ls.subrange(0, ls.len() as int) =~= ls);
        lemma_all_label_errors_empty(ls);
        if views_of(errors@).len() == 0 {
            assert(n.len() <= 253);
        }
    }
    result.with_errors(errors)
}

// ---------------------------------------------------------------------------
// Passwords
// ---------------------------------------------------------------------------

pub open spec fn has_char_where(p: Seq<char>, f: spec_fn(char) -> bool) -> bool {
    exists|i: int| 0 <= i < p.len() && f(#[trigger] p[i])
}

/// The rules a password breaks, in the order they are reported.
pub open spec fn password_errors(p: Seq<char>) -> Seq<Seq<char>> {
    opt_msg(p.len() < 12, "Password must be at least 12 characters long"@) + opt_msg(
        p.len() > 128,
        "Password must be 128 characters or less"@,
    ) + opt_msg(
        !has_char_where(p, |c: char| is_ascii_upper(c)),
        "Password must contain at least one uppercase letter"@,
    ) + opt_msg(
        !has_char_where(p, |c: char| is_ascii_lower(c)),
        "Password must contain at least one lowercase letter"@,
    ) + opt_msg(
        !has_char_where(p, |c: char| is_ascii_digit(c)),
        "Password must contain at least one number"@,
    ) + opt_msg(
        !has_char_where(p, |c: char| is_ascii_punct(c)),
        "Password must contain at least one punctuation character"@,
    )
}

/// A valid password has 12 to 128 bytes and at least one ASCII uppercase
/// letter, lowercase letter, digit and punctuation character.
pub open spec fn password_rules_hold(p: Seq<char>) -> bool {
    &&& 12 <= p.len() <= 128
    &&& has_char_where(p, |c: char| is_ascii_upper(c))
    &&& has_char_where(p, |c: char| is_ascii_lower(c))
    &&& has_char_where(p, |c: char| is_ascii_digit(c))
    &&& has_char_where(p, |c: char| is_ascii_punct(c))
}

/// Validates a password according to the security requirements.
pub fn validate_password(password: &str) -> (r: ValidationResult)
    ensures
        r@ == password_errors(password@),
        r@.len() == 0 <==> password_rules_hold(password@),
{
    let result = ValidationResult::new();
    let mut errors: Vec<&'static str> = Vec::new();
    let ghost p = password@;

    let len = password.unicode_len();
    if len < 12 {
        errors.push("Password must be at least 12 characters long");
    }
    if len > 128 {
        errors.push("Password must be 128 characters or less");
    }

    let chars = chars_of(password);
    let mut has_upper = false;
    let mut has_lower = false;
    let mut has_digit = false;
    let mut has_punct = false;
    let mut i: usize = 0;
    while i < chars.len()
        invariant
            chars@ == p,
            i <= chars.len(),
            has_upper == exists|j: int| 0 <= j < i && is_ascii_upper(#[trigger] p[j]),
            has_lower == exists|j: int| 0 <= j < i && is_ascii_lower(#[trigger] p[j]),
            has_digit == exists|j: int| 0 <= j < i && is_ascii_digit(#[trigger] p[j]),
            has_punct == exists|j: int| 0 <= j < i && is_ascii_punct(#[trigger] p[j]),
        decreases chars.len() - i,
    {
        let c = chars[i];
        if ascii_upper(c) {
            has_upper = true;
        } else if ascii_lower(c) {
            has_lower = true;
        } else if ascii_digit(c) {
            has_digit = true;
        } else if ascii_punct(c) {
            has_punct = true;
        }
        i = i + 1;
    }
    if !has_upper {
        errors.push("Password must contain at least one uppercase letter");
    }
    if !has_lower {
        errors.push("Password must contain at least one lowercase letter");
    }
    if !has_digit {
        errors.push("Password must contain at least one number");
    }
    if !has_punct {
        errors.push("Password must contain at least one punctuation character");
    }
    proof {
        assert(has_upper == has_char_where(p, |c: char| is_ascii_upper(c)));
        assert(has_lower == has_char_where(p, |c: char| is_ascii_lower(c)));
        assert(has_digit == has_char_where(p, |c: char| is_ascii_digit(c)));
        assert(has_punct == has_char_where(p, |c: char| is_ascii_punct(c)));
        assert(views_of(errors@) =~= password_errors(p));
    }
    result.with_errors(errors)
}

} // verus!
