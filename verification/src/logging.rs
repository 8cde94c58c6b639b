//! Log formatting: one line per event with every span field flattened into
//! a single `{key=val, ...}` block, and error chains split into a headline
//! and `CAUSE` lines with redundant wrapper text removed.

use vstd::prelude::*;
use crate::text::{
    chars_of, concat, seq_starts_with, starts_with, strip_suffix_chars, strip_suffix_seq,
    string_from_chars, str_eq, trim_end_char, trim_end_char_seq, trim_end_chars, trim_end_seq,
};

verus! {

/// Severity of a log event.
#[derive(Clone, Copy, PartialEq, Eq, Debug, Structural)]
pub enum Level {
    Error,
    Warn,
    Info,
    Debug,
    Trace,
}

pub open spec fn reset() -> Seq<char> {
    "\x1b[0m"@
}

pub open spec fn bold() -> Seq<char> {
    "\x1b[1m"@
}

pub open spec fn dim() -> Seq<char> {
    "\x1b[2m"@
}

/// The ANSI color of a level: red, yellow, green, blue, magenta.
pub open spec fn level_color_spec(level: Level) -> Seq<char> {
    match level {
        Level::Error => "\x1b[31m"@,
        Level::Warn => "\x1b[33m"@,
        Level::Info => "\x1b[32m"@,
        Level::Debug => "\x1b[34m"@,
        Level::Trace => "\x1b[35m"@,
    }
}

/// The ANSI color escape of a level.
pub fn level_color(level: Level) -> (r: &'static str)
    ensures
        r@ == level_color_spec(level),
{
    match level {
        Level::Error => "\x1b[31m",
        Level::Warn => "\x1b[33m",
        Level::Info => "\x1b[32m",
        Level::Debug => "\x1b[34m",
        Level::Trace => "\x1b[35m",
    }
}

/// The level's name right-aligned in five columns.
pub open spec fn level_label_spec(level: Level) -> Seq<char> {
    match level {
        Level::Error => "ERROR"@,
        Level::Warn => " WARN"@,
        Level::Info => " INFO"@,
        Level::Debug => "DEBUG"@,
        Level::Trace => "TRACE"@,
    }
}

pub fn level_label(level: Level) -> (r: &'static str)
    ensures
        r@ == level_label_spec(level),
{
    match level {
        Level::Error => "ERROR",
        Level::Warn => " WARN",
        Level::Info => " INFO",
        Level::Debug => "DEBUG",
        Level::Trace => "TRACE",
    }
}

/// Fields added by the bridge from the `log` crate start with `log.`; the
/// target they carry is shown otherwise, so they are left out.
pub fn is_log_bridge_field(name: &str) -> (r: bool)
    ensures
        r == seq_starts_with(name@, "log."@),
{
    let v = chars_of(name);
    let p = chars_of("log.");
    starts_with(&v, &p)
}

/// A field as recorded: its name and formatted value.
pub open spec fn field_view(f: (&'static str, String)) -> (Seq<char>, Seq<char>) {
    (f.0@, f.1@)
}

pub open spec fn fields_view(v: Seq<(&'static str, String)>) -> Seq<(Seq<char>, Seq<char>)> {
    v.map_values(|f: (&'static str, String)| field_view(f))
}

/// Collects the fields of a span as name and formatted value, in order.
pub struct StringVisitor(Vec<(&'static str, String)>);

impl View for StringVisitor {
    type V = Seq<(Seq<char>, Seq<char>)>;

    closed spec fn view(&self) -> Seq<(Seq<char>, Seq<char>)> {
        fields_view(self.0@)
    }
}

impl StringVisitor {
    pub fn new() -> (r: Self)
        ensures
            r@ == Seq::<(Seq<char>, Seq<char>)>::empty(),
    {
        proof {
            assert(fields_view(Seq::<(&'static str, String)>::empty()) =~= Seq::empty());
        }
        StringVisitor(Vec::new())
    }

    /// Records one field.
    pub fn record(&mut self, name: &'static str, value: String)
        ensures
            final(self)@ == old(self)@.push((name@, value@)),
    {
        self.0.push((name, value));
        proof {
            assert(fields_view(self.0@) =~= fields_view(old(self).0@).push((name@, value@)));
        }
    }

    pub fn into_inner(self) -> (r: Vec<(&'static str, String)>)
        ensures
            fields_view(r@) == self@,
    {
        self.0
    }
}

/// The first position at or after `i` of a field named `name`.
pub open spec fn first_named(s: Seq<(Seq<char>, Seq<char>)>, name: Seq<char>, i: int) -> Option<int>
    decreases s.len() - i,
{
    if i < 0 || i >= s.len() {
        None
    } else if s[i].0 == name {
        Some(i)
    } else {
        first_named(s, name, i + 1)
    }
}

pub proof fn lemma_first_named(s: Seq<(Seq<char>, Seq<char>)>, name: Seq<char>, i: int)
    requires
        0 <= i,
    ensures
        first_named(s, name, i) matches Some(k) ==> i <= k < s.len() && s[k].0 == name && forall|j: int|
            i <= j < k ==> (#[trigger] s[j]).0 != name,
        first_named(s, name, i) is None ==> forall|j: int| i <= j < s.len() ==> (#[trigger] s[j]).0 != name,
    decreases s.len() - i,
{
    if i < s.len() && s[i].0 != name {
        lemma_first_named(s, name, i + 1);
    }
}

/// The value stored for a field name: that of its first occurrence.
pub open spec fn field_value(s: Seq<(Seq<char>, Seq<char>)>, name: Seq<char>) -> Option<Seq<char>> {
    match first_named(s, name, 0) {
        Some(i) => Some(s[i].1),
        None => None,
    }
}

/// Records a field into stored fields: a field of the same name takes the
/// new value, else the field is appended.
pub open spec fn set_field(s: Seq<(Seq<char>, Seq<char>)>, f: (Seq<char>, Seq<char>)) -> Seq<(Seq<char>, Seq<char>)> {
    match first_named(s, f.0, 0) {
        Some(i) => s.update(i, f),
        None => s.push(f),
    }
}

/// Records new values into stored fields, one after the other.
pub open spec fn merge_fields(s: Seq<(Seq<char>, Seq<char>)>, values: Seq<(Seq<char>, Seq<char>)>) -> Seq<(Seq<char>, Seq<char>)>
    decreases values.len(),
{
    if values.len() == 0 {
        s
    } else {
        set_field(merge_fields(s, values.drop_last()), values.last())
    }
}

/// The last value given for a name among new values.
pub open spec fn last_value(values: Seq<(Seq<char>, Seq<char>)>, name: Seq<char>) -> Option<Seq<char>>
    decreases values.len(),
{
    if values.len() == 0 {
        None
    } else if values.last().0 == name {
        Some(values.last().1)
    } else {
        last_value(values.drop_last(), name)
    }
}

proof fn lemma_set_field_lookup(s: Seq<(Seq<char>, Seq<char>)>, f: (Seq<char>, Seq<char>), name: Seq<char>)
    ensures
        field_value(set_field(s, f), name) == if name == f.0 {
            Some(f.1)
        } else {
            field_value(s, name)
        },
{
    let t = set_field(s, f);
    lemma_first_named(s, f.0, 0);
    lemma_first_named(s, name, 0);
    lemma_first_named(t, name, 0);
    match first_named(s, f.0, 0) {
        Some(i) => {
            assert(t == s.update(i, f));
            match first_named(t, name, 0) {
                Some(k) => {
                    if name == f.0 {
                        if k < i {
                            assert(t[k] == s[k]);
                        } else if k > i {
                            assert(t[i].0 == name);
                        }
                    } else {
                        if k != i {
                            assert(t[k] == s[k]);
                            match first_named(s, name, 0) {
                                Some(m) => {
                                    if m < k {
                                        assert(t[m] == s[m] || m == i);
                                    } else if m > k {
                                        assert(s[k].0 == name);
                                    }
                                },
                                None => {
                                    assert(s[k].0 == name);
                                },
                            }
                        }
                    }
                },
                None => {
                    if name == f.0 {
                        assert(t[i].0 == name);
                    } else {
                        match first_named(s, name, 0) {
                            Some(m) => {
                                assert(t[m] == s[m]);
                            },
                            None => {},
                        }
                    }
                },
            }
        },
        None => {
            assert(t == s.push(f));
            match first_named(t, name, 0) {
                Some(k) => {
                    if k < s.len() {
                        assert(t[k] == s[k]);
                        match first_named(s, name, 0) {
                            Some(m) => {
                                if m < k {
                                    assert(t[m] == s[m]);
                                } else if m > k {
                                    assert(s[k].0 == name);
                                }
                            },
                            None => {
                                assert(s[k].0 == name);
                            },
                        }
                    } else {
                        if name != f.0 {
                            assert(t[k] == f);
                        }
                    }
                },
                None => {
                    if name == f.0 {
                        assert(t[s.len() as int].0 == name);
                    } else {
                        match first_named(s, name, 0) {
                            Some(m) => {
                                assert(t[m] == s[m]);
                            },
                            None => {},
                        }
                    }
                },
            }
        },
    }
}

/// Recording values into a span's fields and reading a field back gives the
/// last value recorded for that name, or the value stored before if none was.
pub proof fn lemma_merge_fields_lookup(
    s: Seq<(Seq<char>, Seq<char>)>,
    values: Seq<(Seq<char>, Seq<char>)>,
    name: Seq<char>,
)
    ensures
        field_value(merge_fields(s, values), name) == match last_value(values, name) {
            Some(v) => Some(v),
            None => field_value(s, name),
        },
    decreases values.len(),
{
    if values.len() > 0 {
        lemma_merge_fields_lookup(s, values.drop_last(), name);
        lemma_set_field_lookup(merge_fields(s, values.drop_last()), values.last(), name);
    }
}

/// The fields stored for a span.
pub struct SpanFieldStorage(Vec<(&'static str, String)>);

impl View for SpanFieldStorage {
    type V = Seq<(Seq<char>, Seq<char>)>;

    closed spec fn view(&self) -> Seq<(Seq<char>, Seq<char>)> {
        fields_view(self.0@)
    }
}

impl SpanFieldStorage {
    /// The fields a span was created with.
    pub fn from_fields(fields: Vec<(&'static str, String)>) -> (r: Self)
        ensures
            r@ == fields_view(fields@),
    {
        SpanFieldStorage(fields)
    }

    /// The stored fields.
    pub fn fields(&self) -> (r: &Vec<(&'static str, String)>)
        ensures
            fields_view(r@) == self@,
    {
        &self.0
    }

    fn position(&self, name: &str) -> (r: Option<usize>)
        ensures
            match first_named(self@, name@, 0) {
                Some(k) => r matches Some(i) && i == k && i < self.0@.len(),
                None => r is None,
            },
    {
        let mut i: usize = 0;
        while i < self.0.len()
            invariant
                i <= self.0.len(),
                first_named(self@, name@, 0) == first_named(self@, name@, i as int),
            decreases self.0.len() - i,
        {
            assert(self@[i as int] == field_view(self.0@[i as int]));
            if str_eq(self.0[i].0, name) {
                return Some(i);
            }
            i = i + 1;
        }
        None
    }

    /// Records values recorded on a span after its creation: each value
    /// replaces the one stored under its name, or is appended.
    pub fn merge(&mut self, values: Vec<(&'static str, String)>)
        ensures
            final(self)@ == merge_fields(old(self)@, fields_view(values@)),
    {
        let mut k: usize = 0;
        while k < values.len()
            invariant
                k <= values.len(),
                self@ == merge_fields(old(self)@, fields_view(values@).take(k as int)),
            decreases values.len() - k,
        {
            let name = values[k].0;
            let value = values[k].1.clone();
            let ghost before = self@;
            let ghost f = (name@, value@);
            proof {
                assert(fields_view(values@).take(k + 1).drop_last() =~= fields_view(values@).take(k as int));
                assert(fields_view(values@)[k as int] == f);
            }
            match self.position(name) {
                Some(i) => {
                    self.0.set(i, (name, value));
                    proof {
                        assert(self@ =~= before.update(i as int, f));
                    }
                },
                None => {
                    self.0.push((name, value));
                    proof {
                        assert(self@ =~= before.push(f));
                    }
                },
            }
            k = k + 1;
        }
        proof {
            assert(fields_view(values@).take(values@.len() as int) =~= fields_view(values@));
        }
    }
}

/// The longest error chain walked: the error and up to 31 sources.
pub const MAX_ERROR_CHAIN: usize = 32;

/// What one level of an error chain adds: its text without the text of the
/// next level at its end (after `: ` or directly), then without trailing
/// whitespace and colons.
pub open spec fn stripped_level(raw: Seq<char>, next: Seq<char>) -> Seq<char> {
    let cut = match strip_suffix_seq(raw, ": "@ + next) {
        Some(t) => t,
        None => match strip_suffix_seq(raw, next) {
            Some(t) => t,
            None => raw,
        },
    };
    trim_end_seq(trim_end_char_seq(trim_end_seq(cut), ':'))
}

/// The text kept for level `i` of a chain of displayed errors.
pub open spec fn level_text(d: Seq<Seq<char>>, i: int) -> Seq<char> {
    if i + 1 < d.len() {
        stripped_level(d[i], d[i + 1])
    } else {
        d[i]
    }
}

/// The kept texts of the first `k` levels: empty texts and repeats of the
/// previous kept text are dropped.
pub open spec fn chain_parts(d: Seq<Seq<char>>, k: nat) -> Seq<Seq<char>>
    decreases k,
{
    if k == 0 {
        Seq::empty()
    } else {
        let p = chain_parts(d, (k - 1) as nat);
        let t = level_text(d, k - 1);
        if t.len() == 0 || (p.len() > 0 && p.last() == t) {
            p
        } else {
            p.push(t)
        }
    }
}

/// The headline of an error chain: the first kept text, or the error's own
/// text if nothing was kept.
pub open spec fn chain_root(d: Seq<Seq<char>>) -> Seq<char> {
    let p = chain_parts(d, d.len());
    if p.len() == 0 {
        d[0]
    } else {
        p[0]
    }
}

/// The causes of an error chain: the kept texts after the first.
pub open spec fn chain_causes(d: Seq<Seq<char>>) -> Seq<Seq<char>> {
    let p = chain_parts(d, d.len());
    if p.len() == 0 {
        Seq::empty()
    } else {
        p.drop_first()
    }
}

pub open spec fn strings_view(v: Seq<String>) -> Seq<Seq<char>> {
    v.map_values(|s: String| s@)
}

fn level_text_exec(displays: &Vec<String>, i: usize) -> (r: String)
    requires
        i < displays@.len(),
    ensures
        r@ == level_text(strings_view(displays@), i as int),
{
    let ghost d = strings_view(displays@);
    assert(d[i as int] == displays@[i as int]@);
    if i < displays.len() - 1 {
        assert(d[i + 1] == displays@[i + 1]@);
        let raw = chars_of(displays[i].as_str());
        let next = chars_of(displays[i + 1].as_str());
        let with_sep = chars_of(concat(": ", displays[i + 1].as_str()).as_str());
        let cut = match strip_suffix_chars(&raw, &with_sep) {
            Some(t) => t,
            None => match strip_suffix_chars(&raw, &next) {
                Some(t) => t,
                None => raw,
            },
        };
        let a = trim_end_chars(&cut);
        let b = trim_end_char(&a, ':');
        let c = trim_end_chars(&b);
        string_from_chars(&c)
    } else {
        displays[i].clone()
    }
}

/// The levels of a chain that are read: the error and at most 31 sources.
pub open spec fn capped_chain(d: Seq<Seq<char>>) -> Seq<Seq<char>> {
    if d.len() > MAX_ERROR_CHAIN {
        d.take(MAX_ERROR_CHAIN as int)
    } else {
        d
    }
}

proof fn lemma_chain_parts_len(d: Seq<Seq<char>>, k: nat)
    ensures
        chain_parts(d, k).len() <= k,
    decreases k,
{
    if k > 0 {
        lemma_chain_parts_len(d, (k - 1) as nat);
    }
}

/// Splits a chain of displayed errors (the error first, then each source)
/// into a headline and the causes below it, each text given once: wrapper
/// text that repeats its source is cut away. At most `MAX_ERROR_CHAIN`
/// levels are read, so there are at most 31 causes.
pub fn build_error_chain(displays: &Vec<String>) -> (r: (String, Vec<String>))
    requires
        displays@.len() >= 1,
    ensures
        r.0@ == chain_root(capped_chain(strings_view(displays@))),
        strings_view(r.1@) == chain_causes(capped_chain(strings_view(displays@))),
        r.1@.len() < MAX_ERROR_CHAIN,
{
    if displays.len() > MAX_ERROR_CHAIN {
        let mut kept: Vec<String> = Vec::new();
        let mut k: usize = 0;
        while k < MAX_ERROR_CHAIN
            invariant
                k <= MAX_ERROR_CHAIN < displays@.len(),
                kept@ == displays@.take(k as int),
            decreases MAX_ERROR_CHAIN - k,
        {
            kept.push(displays[k].clone());
            proof {
                assert(displays@.take(k + 1) =~= displays@.take(k as int).push(displays@[k as int]));
            }
            k = k + 1;
        }
        proof {
            assert(strings_view(kept@) =~= strings_view(displays@).take(MAX_ERROR_CHAIN as int));
        }
        chain_of(&kept)
    } else {
        chain_of(displays)
    }
}

fn chain_of(displays: &Vec<String>) -> (r: (String, Vec<String>))
    requires
        1 <= displays@.len() <= MAX_ERROR_CHAIN,
    ensures
        r.0@ == chain_root(strings_view(displays@)),
        strings_view(r.1@) == chain_causes(strings_view(displays@)),
        r.1@.len() < MAX_ERROR_CHAIN,
{
    let ghost d = strings_view(displays@);
    proof {
        lemma_chain_parts_len(d, d.len());
    }
    let mut parts: Vec<String> = Vec::new();
    let mut i: usize = 0;
    while i < displays.len()
        invariant
            d == strings_view(displays@),
            i <= displays@.len(),
            strings_view(parts@) == chain_parts(d, i as nat),
        decreases displays@.len() - i,
    {
        let t = level_text_exec(displays, i);
        let ghost before = parts@;
        let n = parts.len();
        let skip = t.as_str().unicode_len() == 0 || (n > 0 && str_eq(parts[n - 1].as_str(), t.as_str()));
        proof {
            if n > 0 {
                assert(strings_view(before).last() == before[n - 1]@);
            }
        }
        if !skip {
            parts.push(t);
            proof {
                assert(strings_view(parts@) =~= strings_view(before).push(t@));
            }
        }
        i = i + 1;
    }
    if parts.len() == 0 {
        assert(d[0] == displays@[0]@);
        (displays[0].clone(), Vec::new())
    } else {
        let ghost all = parts@;
        let root = parts.remove(0);
        proof {
            assert(strings_view(all)[0] == root@);
            assert(strings_view(parts@) =~= strings_view(all).drop_first());
        }
        (root, parts)
    }
}

/// What an event carries once its fields were visited.
pub struct EventView {
    pub message: Option<Seq<char>>,
    pub error_root: Option<Seq<char>>,
    pub error_causes: Seq<Seq<char>>,
    pub fields: Seq<(Seq<char>, Seq<char>)>,
}

/// Collects an event's message, error chain and other fields.
pub struct EventVisitor {
    message: Option<String>,
    error_root: Option<String>,
    error_causes: Vec<String>,
    fields: Vec<(&'static str, String)>,
}

pub open spec fn opt_view(o: Option<String>) -> Option<Seq<char>> {
    match o {
        Some(s) => Some(s@),
        None => None,
    }
}

impl View for EventVisitor {
    type V = EventView;

    closed spec fn view(&self) -> EventView {
        EventView {
            message: opt_view(self.message),
            error_root: opt_view(self.error_root),
            error_causes: strings_view(self.error_causes@),
            fields: fields_view(self.fields@),
        }
    }
}

/// The parts an event is printed from: the headline, the causes (if any)
/// and the fields.
pub open spec fn event_parts(e: EventView) -> (Seq<char>, Option<Seq<Seq<char>>>, Seq<(Seq<char>, Seq<char>)>) {
    match (e.message, e.error_root) {
        (None, Some(root)) => (root, if e.error_causes.len() == 0 {
            None
        } else {
            Some(e.error_causes)
        }, e.fields),
        (Some(m), Some(root)) => (m, Some(seq![root] + e.error_causes), e.fields),
        (Some(m), None) => (m, None, e.fields),
        (None, None) => (Seq::empty(), None, e.fields),
    }
}

impl EventVisitor {
    pub fn new() -> (r: Self)
        ensures
            r@ == (EventView {
                message: None,
                error_root: None,
                error_causes: Seq::empty(),
                fields: Seq::empty(),
            }),
    {
        let r = EventVisitor { message: None, error_root: None, error_causes: Vec::new(), fields: Vec::new() };
        proof {
            assert(strings_view(r.error_causes@) =~= Seq::empty());
            assert(fields_view(r.fields@) =~= Seq::empty());
        }
        r
    }

    fn push_field(&mut self, name: &'static str, value: String)
        ensures
            final(self)@ == (EventView { fields: old(self)@.fields.push((name@, value@)), ..old(self)@ }),
    {
        self.fields.push((name, value));
        proof {
            assert(fields_view(self.fields@) =~= fields_view(old(self).fields@).push((name@, value@)));
        }
    }

    /// A text field (or a debug-formatted one): `message` is the headline,
    /// bridge fields are dropped, the rest are kept.
    pub fn record_text(&mut self, name: &'static str, value: String)
        ensures
            name@ == "message"@ ==> final(self)@ == (EventView { message: Some(value@), ..old(self)@ }),
            name@ != "message"@ && seq_starts_with(name@, "log."@) ==> final(self)@ == old(self)@,
            name@ != "message"@ && !seq_starts_with(name@, "log."@) ==> final(self)@ == (EventView {
                fields: old(self)@.fields.push((name@, value@)),
                ..old(self)@
            }),
    {
        if str_eq(name, "message") {
            self.message = Some(value);
        } else if !is_log_bridge_field(name) {
            self.push_field(name, value);
        }
    }

    /// A number or boolean field: kept unless it is a bridge field.
    pub fn record_value(&mut self, name: &'static str, value: String)
        ensures
            seq_starts_with(name@, "log."@) ==> final(self)@ == old(self)@,
            !seq_starts_with(name@, "log."@) ==> final(self)@ == (EventView {
                fields: old(self)@.fields.push((name@, value@)),
                ..old(self)@
            }),
    {
        if !is_log_bridge_field(name) {
            self.push_field(name, value);
        }
    }

    /// An error field, given as the displayed texts of the error and its
    /// sources: the `error` field becomes the event's error chain, any other
    /// is kept as a field with the error's own text.
    pub fn record_error(&mut self, name: &'static str, displays: Vec<String>)
        requires
            displays@.len() >= 1,
        ensures
            name@ == "error"@ ==> final(self)@ == (EventView {
                error_root: Some(chain_root(capped_chain(strings_view(displays@)))),
                error_causes: chain_causes(capped_chain(strings_view(displays@))),
                ..old(self)@
            }),
            name@ != "error"@ ==> final(self)@ == (EventView {
                fields: old(self)@.fields.push((name@, displays@[0]@)),
                ..old(self)@
            }),
    {
        if str_eq(name, "error") {
            let (root, causes) = build_error_chain(&displays);
            self.error_root = Some(root);
            self.error_causes = causes;
        } else {
            let first = displays[0].clone();
            self.push_field(name, first);
        }
    }

    /// The headline, causes and fields to print. With both a message and an
    /// error, the message is the headline and the whole chain the causes.
    pub fn into_parts(self) -> (r: (String, Option<Vec<String>>, Vec<(&'static str, String)>))
        ensures
            ({
                let p = event_parts(self@);
                &&& r.0@ == p.0
                &&& match p.1 {
                    Some(c) => r.1 matches Some(v) && strings_view(v@) == c,
                    None => r.1 is None,
                }
                &&& fields_view(r.2@) == p.2
            }),
    {
        let EventVisitor { message, error_root, error_causes, fields } = self;
        match (message, error_root) {
            (None, Some(root)) => {
                let causes = if error_causes.len() == 0 {
                    None
                } else {
                    Some(error_causes)
                };
                (root, causes, fields)
            },
            (Some(msg), Some(root)) => {
                let mut all: Vec<String> = Vec::new();
                let ghost rv = root@;
                all.push(root);
                let mut rest = error_causes;
                let ghost restv = strings_view(rest@);
                all.append(&mut rest);
                proof {
                    assert(strings_view(all@) =~= seq![rv] + restv);
                }
                (msg, Some(all), fields)
            },
            (Some(msg), None) => (msg, None, fields),
            (None, None) => (String::new(), None, fields),
        }
    }
}

/// The fields of one span, as stored, with the span's name.
pub struct SpanFields {
    pub name: &'static str,
    pub fields: Vec<(&'static str, String)>,
}

pub open spec fn span_view(s: SpanFields) -> (Seq<char>, Seq<(Seq<char>, Seq<char>)>) {
    (s.name@, fields_view(s.fields@))
}

pub open spec fn spans_view(v: Seq<SpanFields>) -> Seq<(Seq<char>, Seq<(Seq<char>, Seq<char>)>)> {
    v.map_values(|s: SpanFields| span_view(s))
}

/// An entry of the field block: span name (empty for the event's own
/// fields), field name, value.
pub open spec fn triple_view(t: (String, String, String)) -> (Seq<char>, Seq<char>, Seq<char>) {
    (t.0@, t.1@, t.2@)
}

pub open spec fn triples_view(v: Seq<(String, String, String)>) -> Seq<(Seq<char>, Seq<char>, Seq<char>)> {
    v.map_values(|t: (String, String, String)| triple_view(t))
}

/// The fields of a span with a non-empty value, tagged with the span name.
pub open spec fn nonempty_entries(span: Seq<char>, fields: Seq<(Seq<char>, Seq<char>)>) -> Seq<(Seq<char>, Seq<char>, Seq<char>)>
    decreases fields.len(),
{
    if fields.len() == 0 {
        Seq::empty()
    } else {
        let prev = nonempty_entries(span, fields.drop_last());
        let f = fields.last();
        if f.1.len() == 0 {
            prev
        } else {
            prev.push((span, f.0, f.1))
        }
    }
}

/// The entries of all spans, from the root span inwards.
pub open spec fn span_entries(spans: Seq<(Seq<char>, Seq<(Seq<char>, Seq<char>)>)>) -> Seq<(Seq<char>, Seq<char>, Seq<char>)>
    decreases spans.len(),
{
    if spans.len() == 0 {
        Seq::empty()
    } else {
        span_entries(spans.drop_last()) + nonempty_entries(spans.last().0, spans.last().1)
    }
}

/// The entries of the field block: those of the spans, then the event's own.
pub open spec fn event_entries(
    spans: Seq<(Seq<char>, Seq<(Seq<char>, Seq<char>)>)>,
    ev_fields: Seq<(Seq<char>, Seq<char>)>,
) -> Seq<(Seq<char>, Seq<char>, Seq<char>)> {
    span_entries(spans) + nonempty_entries(Seq::empty(), ev_fields)
}

fn push_nonempty(out: &mut Vec<(String, String, String)>, span: &str, fields: &Vec<(&'static str, String)>)
    ensures
        triples_view(final(out)@) == triples_view(old(out)@) + nonempty_entries(span@, fields_view(fields@)),
{
    let ghost fv = fields_view(fields@);
    let mut j: usize = 0;
    while j < fields.len()
        invariant
            fv == fields_view(fields@),
            j <= fields@.len(),
            triples_view(out@) == triples_view(old(out)@) + nonempty_entries(span@, fv.take(j as int)),
        decreases fields@.len() - j,
    {
        let ghost before = triples_view(out@);
        proof {
            assert(fv.take(j + 1).drop_last() =~= fv.take(j as int));
            assert(fv.take(j + 1).last() == fv[j as int]);
            assert(fv[j as int] == field_view(fields@[j as int]));
        }
        if fields[j].1.as_str().unicode_len() > 0 {
            out.push((String::from_str(span), String::from_str(fields[j].0), fields[j].1.clone()));
            proof {
                assert(triples_view(out@) =~= before.push((span@, fv[j as int].0, fv[j as int].1)));
            }
        }
        j = j + 1;
    }
    proof {
        assert(fv.take(fields@.len() as int) =~= fv);
    }
}

/// The entries of the field block of an event, in the order printed.
pub fn collect_fields(spans: &Vec<SpanFields>, ev_fields: &Vec<(&'static str, String)>) -> (r: Vec<(String, String, String)>)
    ensures
        triples_view(r@) == event_entries(spans_view(spans@), fields_view(ev_fields@)),
{
    let ghost sv = spans_view(spans@);
    let mut out: Vec<(String, String, String)> = Vec::new();
    let mut i: usize = 0;
    proof {
        assert(triples_view(out@) =~= Seq::empty());
        assert(sv.take(0) =~= Seq::empty());
    }
    while i < spans.len()
        invariant
            sv == spans_view(spans@),
            i <= spans@.len(),
            triples_view(out@) == span_entries(sv.take(i as int)),
        decreases spans@.len() - i,
    {
        proof {
            assert(sv.take(i + 1).drop_last() =~= sv.take(i as int));
            assert(sv.take(i + 1).last() == sv[i as int]);
            assert(sv[i as int] == span_view(spans@[i as int]));
        }
        push_nonempty(&mut out, spans[i].name, &spans[i].fields);
        i = i + 1;
    }
    proof {
        assert(sv.take(spans@.len() as int) =~= sv);
    }
    push_nonempty(&mut out, "", ev_fields);
    proof {
        reveal_strlit("");
        assert(""@ =~= Seq::<char>::empty());
    }
    out
}

/// Entry `i` repeats the name and value of an earlier entry.
pub open spec fn dup_earlier(f: Seq<(Seq<char>, Seq<char>, Seq<char>)>, i: int) -> bool {
    exists|j: int| 0 <= j < i && #[trigger] f[j].1 == f[i].1 && f[j].2 == f[i].2
}

/// Another entry has the same name as entry `i` with another value.
pub open spec fn needs_prefix(f: Seq<(Seq<char>, Seq<char>, Seq<char>)>, i: int) -> bool {
    exists|j: int| 0 <= j < f.len() && j != i && #[trigger] f[j].1 == f[i].1 && f[j].2 != f[i].2
}

/// How entry `i` is printed: `span.name=value` where the name alone is
/// ambiguous and the entry comes from a span, else `name=value`.
pub open spec fn entry_text(ansi: bool, f: Seq<(Seq<char>, Seq<char>, Seq<char>)>, i: int) -> Seq<char> {
    let (span, name, value) = f[i];
    if needs_prefix(f, i) && span.len() > 0 {
        if ansi {
            dim() + span + "."@ + reset() + name + dim() + "="@ + reset() + value
        } else {
            span + "."@ + name + "="@ + value
        }
    } else if ansi {
        name + dim() + "="@ + reset() + value
    } else {
        name + "="@ + value
    }
}

pub open spec fn separator(ansi: bool) -> Seq<char> {
    if ansi {
        dim() + ","@ + reset() + " "@
    } else {
        ", "@
    }
}

/// The printed entries among the first `k`: repeats are skipped, and every
/// printed entry but the first (entry 0, never a repeat) follows a separator.
pub open spec fn block_body(ansi: bool, f: Seq<(Seq<char>, Seq<char>, Seq<char>)>, k: nat) -> Seq<char>
    decreases k,
{
    if k == 0 {
        Seq::empty()
    } else {
        let prev = block_body(ansi, f, (k - 1) as nat);
        if dup_earlier(f, k - 1) {
            prev
        } else {
            prev + (if k - 1 > 0 {
                separator(ansi)
            } else {
                Seq::empty()
            }) + entry_text(ansi, f, k - 1)
        }
    }
}

/// The field block: ` {entries}`, or nothing without entries.
pub open spec fn field_block(ansi: bool, f: Seq<(Seq<char>, Seq<char>, Seq<char>)>) -> Seq<char> {
    if f.len() == 0 {
        Seq::empty()
    } else if ansi {
        " "@ + dim() + "{"@ + reset() + block_body(ansi, f, f.len()) + dim() + "}"@ + reset()
    } else {
        " {"@ + block_body(ansi, f, f.len()) + "}"@
    }
}

fn is_dup_earlier(f: &Vec<(String, String, String)>, i: usize) -> (r: bool)
    requires
        i < f@.len(),
    ensures
        r == dup_earlier(triples_view(f@), i as int),
{
    let ghost tv = triples_view(f@);
    assert(tv[i as int] == triple_view(f@[i as int]));
    let mut j: usize = 0;
    while j < i
        invariant
            tv == triples_view(f@),
            i < f@.len(),
            j <= i,
            tv[i as int] == triple_view(f@[i as int]),
            forall|k: int| 0 <= k < j ==> !(#[trigger] tv[k].1 == tv[i as int].1 && tv[k].2 == tv[i as int].2),
        decreases i - j,
    {
        assert(tv[j as int] == triple_view(f@[j as int]));
        if str_eq(f[j].1.as_str(), f[i].1.as_str()) && str_eq(f[j].2.as_str(), f[i].2.as_str()) {
            assert(tv[j as int].1 == tv[i as int].1 && tv[j as int].2 == tv[i as int].2);
            return true;
        }
        j = j + 1;
    }
    false
}

fn is_prefix_needed(f: &Vec<(String, String, String)>, i: usize) -> (r: bool)
    requires
        i < f@.len(),
    ensures
        r == needs_prefix(triples_view(f@), i as int),
{
    let ghost tv = triples_view(f@);
    assert(tv[i as int] == triple_view(f@[i as int]));
    let mut j: usize = 0;
    while j < f.len()
        invariant
            tv == triples_view(f@),
            i < f@.len(),
            j <= f@.len(),
            tv[i as int] == triple_view(f@[i as int]),
            forall|k: int| 0 <= k < j && k != i ==> !(#[trigger] tv[k].1 == tv[i as int].1 && tv[k].2 != tv[i as int].2),
        decreases f@.len() - j,
    {
        assert(tv[j as int] == triple_view(f@[j as int]));
        if j != i && str_eq(f[j].1.as_str(), f[i].1.as_str()) && !str_eq(f[j].2.as_str(), f[i].2.as_str()) {
            assert(tv[j as int].1 == tv[i as int].1 && tv[j as int].2 != tv[i as int].2);
            return true;
        }
        j = j + 1;
    }
    false
}

fn entry_text_exec(ansi: bool, f: &Vec<(String, String, String)>, i: usize) -> (r: String)
    requires
        i < f@.len(),
    ensures
        r@ == entry_text(ansi, triples_view(f@), i as int),
{
    let ghost tv = triples_view(f@);
    assert(tv[i as int] == triple_view(f@[i as int]));
    let span = f[i].0.as_str();
    let name = f[i].1.as_str();
    let value = f[i].2.as_str();
    let mut s = String::new();
    if is_prefix_needed(f, i) && span.unicode_len() > 0 {
        if ansi {
            s.append("\x1b[2m");
            s.append(span);
            s.append(".");
            s.append("\x1b[0m");
            s.append(name);
            s.append("\x1b[2m");
            s.append("=");
            s.append("\x1b[0m");
            s.append(value);
        } else {
            s.append(span);
            s.append(".");
            s.append(name);
            s.append("=");
            s.append(value);
        }
    } else if ansi {
        s.append(name);
        s.append("\x1b[2m");
        s.append("=");
        s.append("\x1b[0m");
        s.append(value);
    } else {
        s.append(name);
        s.append("=");
        s.append(value);
    }
    proof {
        reveal_strlit("");
        reveal_strlit("\x1b[2m");
        reveal_strlit("\x1b[0m");
        reveal_strlit(".");
        reveal_strlit("=");
    }
    s
}

/// The field block of an event's entries.
pub fn field_block_exec(ansi: bool, f: &Vec<(String, String, String)>) -> (r: String)
    ensures
        r@ == field_block(ansi, triples_view(f@)),
{
    let ghost tv = triples_view(f@);
    if f.len() == 0 {
        return String::new();
    }
    let mut body = String::new();
    let mut i: usize = 0;
    while i < f.len()
        invariant
            tv == triples_view(f@),
            i <= f@.len(),
            body@ == block_body(ansi, tv, i as nat),
        decreases f@.len() - i,
    {
        if !is_dup_earlier(f, i) {
            if i > 0 {
                if ansi {
                    body.append("\x1b[2m,\x1b[0m ");
                } else {
                    body.append(", ");
                }
                proof {
                    reveal_strlit("\x1b[2m,\x1b[0m ");
                    reveal_strlit("\x1b[2m");
                    reveal_strlit(",");
                    reveal_strlit("\x1b[0m");
                    reveal_strlit(" ");
                    assert("\x1b[2m,\x1b[0m "@ =~= separator(true));
                }
            }
            let e = entry_text_exec(ansi, f, i);
            body.append(e.as_str());
        }
        i = i + 1;
    }
    let mut s = String::new();
    if ansi {
        s.append(" \x1b[2m{\x1b[0m");
        s.append(body.as_str());
        s.append("\x1b[2m}\x1b[0m");
        proof {
            reveal_strlit(" \x1b[2m{\x1b[0m");
            reveal_strlit("\x1b[2m}\x1b[0m");
            reveal_strlit("\x1b[2m");
            reveal_strlit("\x1b[0m");
            reveal_strlit("{");
            reveal_strlit("}");
            reveal_strlit(" ");
        }
    } else {
        s.append(" {");
        s.append(body.as_str());
        s.append("}");
    }
    s
}

/// Timestamp and level: `YYYY-MM-DD HH:MM:SS LEVEL `.
pub open spec fn header(ansi: bool, ts: Seq<char>, level: Level) -> Seq<char> {
    (if ansi {
        dim() + ts + reset()
    } else {
        ts
    }) + (if ansi {
        " "@ + bold() + level_color_spec(level) + level_label_spec(level) + reset() + " "@
    } else {
        " "@ + level_label_spec(level) + " "@
    })
}

/// The crate of a target: the part before the first `::`.
pub open spec fn crate_of(target: Seq<char>) -> Seq<char> {
    match crate::text::find_sub(target, "::"@, 0) {
        Some(i) => target.take(i),
        None => target,
    }
}

/// `[crate] ` for events from other crates than the one the prefix names.
pub open spec fn target_part(ansi: bool, target: Seq<char>, prefix: Seq<char>) -> Seq<char> {
    if seq_starts_with(target, prefix) {
        Seq::empty()
    } else if ansi {
        dim() + "["@ + crate_of(target) + "]"@ + reset() + " "@
    } else {
        "["@ + crate_of(target) + "] "@
    }
}

pub open spec fn message_part(ansi: bool, message: Seq<char>) -> Seq<char> {
    if message.len() == 0 {
        Seq::empty()
    } else if ansi {
        bold() + message + reset()
    } else {
        message
    }
}

/// Twenty spaces: `CAUSE` lines up under the level column.
pub open spec fn cause_indent() -> Seq<char> {
    "                    "@
}

pub open spec fn cause_line(ansi: bool, level: Level, cause: Seq<char>) -> Seq<char> {
    "\n"@ + cause_indent() + if ansi {
        bold() + level_color_spec(level) + "CAUSE"@ + reset() + " "@ + bold() + cause + reset()
    } else {
        "CAUSE "@ + cause
    }
}

pub open spec fn cause_lines(ansi: bool, level: Level, causes: Seq<Seq<char>>) -> Seq<char>
    decreases causes.len(),
{
    if causes.len() == 0 {
        Seq::empty()
    } else {
        cause_lines(ansi, level, causes.drop_last()) + cause_line(ansi, level, causes.last())
    }
}

pub open spec fn opt_cause_lines(ansi: bool, level: Level, causes: Option<Seq<Seq<char>>>) -> Seq<char> {
    match causes {
        Some(c) => cause_lines(ansi, level, c),
        None => Seq::empty(),
    }
}

/// The printed line of an event, ending in a newline.
pub open spec fn event_line(
    ansi: bool,
    ts: Seq<char>,
    level: Level,
    target: Seq<char>,
    prefix: Seq<char>,
    message: Seq<char>,
    causes: Option<Seq<Seq<char>>>,
    entries: Seq<(Seq<char>, Seq<char>, Seq<char>)>,
) -> Seq<char> {
    header(ansi, ts, level) + target_part(ansi, target, prefix) + message_part(ansi, message)
        + field_block(ansi, entries) + opt_cause_lines(ansi, level, causes) + "\n"@
}

fn header_exec(ansi: bool, ts: &str, level: Level) -> (r: String)
    ensures
        r@ == header(ansi, ts@, level),
{
    let mut s = String::new();
    if ansi {
        s.append("\x1b[2m");
        s.append(ts);
        s.append("\x1b[0m");
        s.append(" ");
        s.append("\x1b[1m");
        s.append(level_color(level));
        s.append(level_label(level));
        s.append("\x1b[0m");
        s.append(" ");
    } else {
        s.append(ts);
        s.append(" ");
        s.append(level_label(level));
        s.append(" ");
    }
    proof {
        reveal_strlit("");
        reveal_strlit("\x1b[2m");
        reveal_strlit("\x1b[0m");
        reveal_strlit("\x1b[1m");
        reveal_strlit(" ");
    }
    s
}

fn target_part_exec(ansi: bool, target: &str, prefix: &str) -> (r: String)
    ensures
        r@ == target_part(ansi, target@, prefix@),
{
    let t = chars_of(target);
    let p = chars_of(prefix);
    if starts_with(&t, &p) {
        return String::new();
    }
    let sep = chars_of("::");
    proof {
        reveal_strlit("::");
        crate::text::lemma_find_sub_bounds(t@, sep@, 0);
    }
    let krate = match crate::text::find_sub_exec(&t, &sep) {
        Some(i) => crate::text::slice_chars(&t, 0, i),
        None => t,
    };
    proof {
        match crate::text::find_sub(target@, "::"@, 0) {
            Some(i) => {
                assert(krate@ =~= target@.take(i));
            },
            None => {},
        }
    }
    let name = string_from_chars(&krate);
    let mut s = String::new();
    if ansi {
        s.append("\x1b[2m");
        s.append("[");
        s.append(name.as_str());
        s.append("]");
        s.append("\x1b[0m");
        s.append(" ");
    } else {
        s.append("[");
        s.append(name.as_str());
        s.append("] ");
    }
    proof {
        reveal_strlit("");
        reveal_strlit("\x1b[2m");
        reveal_strlit("\x1b[0m");
        reveal_strlit("[");
        reveal_strlit("]");
        reveal_strlit("] ");
        reveal_strlit(" ");
    }
    s
}

fn message_part_exec(ansi: bool, message: &str) -> (r: String)
    ensures
        r@ == message_part(ansi, message@),
{
    let mut s = String::new();
    if message.unicode_len() > 0 {
        if ansi {
            s.append("\x1b[1m");
            s.append(message);
            s.append("\x1b[0m");
        } else {
            s.append(message);
        }
    }
    proof {
        reveal_strlit("");
        reveal_strlit("\x1b[1m");
        reveal_strlit("\x1b[0m");
    }
    s
}

fn cause_lines_exec(ansi: bool, level: Level, causes: &Vec<String>) -> (r: String)
    ensures
        r@ == cause_lines(ansi, level, strings_view(causes@)),
{
    let ghost cv = strings_view(causes@);
    let mut s = String::new();
    let mut i: usize = 0;
    proof {
        reveal_strlit("");
        assert(cv.take(0) =~= Seq::<Seq<char>>::empty());
    }
    while i < causes.len()
        invariant
            cv == strings_view(causes@),
            i <= causes@.len(),
            s@ == cause_lines(ansi, level, cv.take(i as int)),
        decreases causes@.len() - i,
    {
        proof {
            assert(cv.take(i + 1).drop_last() =~= cv.take(i as int));
            assert(cv.take(i + 1).last() == causes@[i as int]@);
        }
        s.append("\n");
        s.append("                    ");
        if ansi {
            s.append("\x1b[1m");
            s.append(level_color(level));
            s.append("CAUSE");
            s.append("\x1b[0m");
            s.append(" ");
            s.append("\x1b[1m");
            s.append(causes[i].as_str());
            s.append("\x1b[0m");
        } else {
            s.append("CAUSE ");
            s.append(causes[i].as_str());
        }
        proof {
            reveal_strlit("\n");
            reveal_strlit("                    ");
            reveal_strlit("\x1b[1m");
            reveal_strlit("\x1b[0m");
            reveal_strlit("CAUSE");
            reveal_strlit("CAUSE ");
            reveal_strlit(" ");
        }
        i = i + 1;
    }
    proof {
        assert(cv.take(causes@.len() as int) =~= cv);
    }
    s
}

/// The printed line of an event.
pub fn render_event(
    ansi: bool,
    ts: &str,
    level: Level,
    target: &str,
    prefix: &str,
    message: &str,
    causes: &Option<Vec<String>>,
    spans: &Vec<SpanFields>,
    ev_fields: &Vec<(&'static str, String)>,
) -> (r: String)
    ensures
        r@ == event_line(
            ansi,
            ts@,
            level,
            target@,
            prefix@,
            message@,
            match causes {
                Some(c) => Some(strings_view(c@)),
                None => None,
            },
            event_entries(spans_view(spans@), fields_view(ev_fields@)),
        ),
{
    let mut s = header_exec(ansi, ts, level);
    let t = target_part_exec(ansi, target, prefix);
    s.append(t.as_str());
    let m = message_part_exec(ansi, message);
    s.append(m.as_str());
    let entries = collect_fields(spans, ev_fields);
    let b = field_block_exec(ansi, &entries);
    s.append(b.as_str());
    match causes {
        Some(c) => {
            let lines = cause_lines_exec(ansi, level, c);
            s.append(lines.as_str());
        },
        None => {},
    }
    s.append("\n");
    proof {
        reveal_strlit("\n");
    }
    s
}

/// The pattern of the timestamp at the start of a log line: UTC time to
/// the second.
pub open spec fn timestamp_pattern() -> Seq<char> {
    "%Y-%m-%d %H:%M:%S"@
}

/// The timestamp a log line shows for a time of `secs` seconds since the
/// Unix epoch: its UTC text under `timestamp_pattern`; nothing when the
/// time is unknown or `chrono` cannot write it.
pub open spec fn timestamp_of(secs: Option<i64>) -> Seq<char> {
    match secs {
        Some(s) => match crate::clock::utc_text(s, timestamp_pattern()) {
            Some(t) => t,
            None => Seq::empty(),
        },
        None => Seq::empty(),
    }
}

/// The timestamp text of a time given in seconds since the Unix epoch.
pub fn timestamp_text(secs: Option<i64>) -> (r: String)
    ensures
        r@ == timestamp_of(secs),
{
    match secs {
        Some(s) => match crate::clock::format_utc(s, "%Y-%m-%d %H:%M:%S") {
            Some(t) => t,
            None => String::new(),
        },
        None => String::new(),
    }
}

/// Formats events on one line each, with all span fields flattened into one
/// block after the message; a repeated field is printed once, and a name
/// with several values is qualified by its span's name.
pub struct FlattenedFormatter {
    /// Events whose target starts with this prefix are not tagged with
    /// their crate.
    pub target_prefix: &'static str,
}

impl Default for FlattenedFormatter {
    fn default() -> (r: Self)
        ensures
            r.target_prefix@ == "fckn_gay"@,
    {
        FlattenedFormatter { target_prefix: "fckn_gay" }
    }
}

impl FlattenedFormatter {
    /// The line of an event stamped with the current time: its fields were
    /// visited into `visitor`, and `spans` holds the fields of the spans it
    /// is in, from the root.
    pub fn format_event(
        &self,
        ansi: bool,
        level: Level,
        target: &str,
        visitor: EventVisitor,
        spans: &Vec<SpanFields>,
    ) -> (r: String)
        ensures
            exists|secs: Option<i64>| r@ == #[trigger] event_line(
                ansi,
                timestamp_of(secs),
                level,
                target@,
                self.target_prefix@,
                event_parts(visitor@).0,
                event_parts(visitor@).1,
                event_entries(spans_view(spans@), event_parts(visitor@).2),
            ),
    {
        let secs = crate::clock::unix_timestamp();
        self.format_event_at(secs, ansi, level, target, visitor, spans)
    }

    /// The line of an event stamped with the time `secs` (seconds since the
    /// Unix epoch; `None` when unknown).
    pub fn format_event_at(
        &self,
        secs: Option<i64>,
        ansi: bool,
        level: Level,
        target: &str,
        visitor: EventVisitor,
        spans: &Vec<SpanFields>,
    ) -> (r: String)
        ensures
            r@ == event_line(
                ansi,
                timestamp_of(secs),
                level,
                target@,
                self.target_prefix@,
                event_parts(visitor@).0,
                event_parts(visitor@).1,
                event_entries(spans_view(spans@), event_parts(visitor@).2),
            ),
    {
        let ts = timestamp_text(secs);
        let ghost p = event_parts(visitor@);
        let (message, causes, fields) = visitor.into_parts();
        let r = render_event(ansi, ts.as_str(), level, target, self.target_prefix, message.as_str(), &causes, spans, &fields);
        proof {
            let c = match causes {
                Some(c) => Some(strings_view(c@)),
                None => None,
            };
            assert(c == p.1);
        }
        r
    }
}

/// Keeps the fields of each span so that events can print them.
pub struct SpanFieldLayer;

impl SpanFieldLayer {
    /// The storage of a new span: the fields it was created with.
    pub fn on_new_span(&self, fields: StringVisitor) -> (r: SpanFieldStorage)
        ensures
            r@ == fields@,
    {
        SpanFieldStorage::from_fields(fields.into_inner())
    }

    /// Values recorded on a span later: merged into its storage, or stored
    /// as they are where the span had none.
    pub fn on_record(&self, storage: Option<SpanFieldStorage>, values: StringVisitor) -> (r: SpanFieldStorage)
        ensures
            match storage {
                Some(s) => r@ == merge_fields(s@, values@),
                None => r@ == values@,
            },
    {
        match storage {
            Some(mut s) => {
                s.merge(values.into_inner());
                s
            },
            None => SpanFieldStorage::from_fields(values.into_inner()),
        }
    }
}

/// Writes no fields: the formatter prints them itself.
pub struct NullFields;

impl NullFields {
    /// What is written for an event's fields: nothing.
    pub fn format_fields(&self) -> (r: String)
        ensures
            r@ == Seq::<char>::empty(),
    {
        String::new()
    }
}

} // verus!
