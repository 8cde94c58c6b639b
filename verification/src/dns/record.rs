//! DNS records: the record types, their numeric codes and the one-line text
//! form `name TYPE ttl content [priority]`.

use vstd::prelude::*;
use crate::text::{
    ascii_uppercase, upper_seq, chars_of, concat, dec_seq, eq_chars, int_error_message, int_error_str, parse_unsigned,
    parse_unsigned_exec, rsplit_once, last_index_of, rsplit_once_exec, split_once, split_once_exec,
    string_from_chars, u64_to_decimal, IntErrorKind,
};

verus! {

/// What `str::to_uppercase` returns (full Unicode case mapping).
pub uninterp spec fn unicode_uppercase(s: Seq<char>) -> Seq<char>;

/// `str::to_uppercase`. Its result is a function of the characters alone;
/// the Unicode case table behind it is left unstated.
#[verifier::external_body]
fn to_uppercase(s: &str) -> (r: String)
    ensures
        r@ == unicode_uppercase(s@),
{
    s.to_uppercase()
}

/// Type of a DNS record.
#[derive(Clone, Copy, PartialEq, Eq, Debug, Structural)]
pub enum RecordType {
    A,
    MX,
    CNAME,
    ALIAS,
    TXT,
    NS,
    AAAA,
    SRV,
    TLSA,
    CAA,
    HTTPS,
    SVCB,
}

/// The name of a record type as written in zone files.
pub open spec fn record_type_name(t: RecordType) -> Seq<char> {
    match t {
        RecordType::A => "A"@,
        RecordType::AAAA => "AAAA"@,
        RecordType::CNAME => "CNAME"@,
        RecordType::MX => "MX"@,
        RecordType::NS => "NS"@,
        RecordType::SRV => "SRV"@,
        RecordType::TXT => "TXT"@,
        RecordType::ALIAS => "ALIAS"@,
        RecordType::CAA => "CAA"@,
        RecordType::HTTPS => "HTTPS"@,
        RecordType::SVCB => "SVCB"@,
        RecordType::TLSA => "TLSA"@,
    }
}

/// The record type an uppercased name denotes, tried in a fixed order.
pub open spec fn record_type_from_upper(u: Seq<char>) -> Option<RecordType> {
    if u == "A"@ {
        Some(RecordType::A)
    } else if u == "AAAA"@ {
        Some(RecordType::AAAA)
    } else if u == "CNAME"@ {
        Some(RecordType::CNAME)
    } else if u == "MX"@ {
        Some(RecordType::MX)
    } else if u == "NS"@ {
        Some(RecordType::NS)
    } else if u == "SRV"@ {
        Some(RecordType::SRV)
    } else if u == "TXT"@ {
        Some(RecordType::TXT)
    } else if u == "ALIAS"@ {
        Some(RecordType::ALIAS)
    } else if u == "CAA"@ {
        Some(RecordType::CAA)
    } else if u == "HTTPS"@ {
        Some(RecordType::HTTPS)
    } else if u == "SVCB"@ {
        Some(RecordType::SVCB)
    } else if u == "TLSA"@ {
        Some(RecordType::TLSA)
    } else {
        None
    }
}

/// Parsing a record type: case-insensitive. A name whose ASCII letters,
/// uppercased, spell a type is that type; other texts are uppercased by
/// `str::to_uppercase` (which agrees with ASCII uppercasing on ASCII text).
pub open spec fn parse_record_type(s: Seq<char>) -> Result<RecordType, Seq<char>> {
    match record_type_from_upper(upper_seq(s)) {
        Some(t) => Ok(t),
        None => match record_type_from_upper(unicode_uppercase(s)) {
            Some(t) => Ok(t),
            None => Err("Unknown record type: "@ + s),
        },
    }
}

/// Numeric code of a record type (as stored in databases).
pub open spec fn record_type_code(t: RecordType) -> i32 {
    match t {
        RecordType::A => 0,
        RecordType::MX => 1,
        RecordType::CNAME => 2,
        RecordType::ALIAS => 3,
        RecordType::TXT => 4,
        RecordType::NS => 5,
        RecordType::AAAA => 6,
        RecordType::SRV => 7,
        RecordType::TLSA => 8,
        RecordType::CAA => 9,
        RecordType::HTTPS => 10,
        RecordType::SVCB => 11,
    }
}

/// The record type with a numeric code; an unknown code is handed back.
pub open spec fn record_type_of_code(v: i32) -> Result<RecordType, i32> {
    if v == 0 {
        Ok(RecordType::A)
    } else if v == 1 {
        Ok(RecordType::MX)
    } else if v == 2 {
        Ok(RecordType::CNAME)
    } else if v == 3 {
        Ok(RecordType::ALIAS)
    } else if v == 4 {
        Ok(RecordType::TXT)
    } else if v == 5 {
        Ok(RecordType::NS)
    } else if v == 6 {
        Ok(RecordType::AAAA)
    } else if v == 7 {
        Ok(RecordType::SRV)
    } else if v == 8 {
        Ok(RecordType::TLSA)
    } else if v == 9 {
        Ok(RecordType::CAA)
    } else if v == 10 {
        Ok(RecordType::HTTPS)
    } else if v == 11 {
        Ok(RecordType::SVCB)
    } else {
        Err(v)
    }
}

/// The record type an uppercased name denotes.
fn type_of_upper(u: &Vec<char>) -> (r: Option<RecordType>)
    ensures
        r == record_type_from_upper(u@),
{
    if eq_chars(u, &chars_of("A")) {
        Some(RecordType::A)
    } else if eq_chars(u, &chars_of("AAAA")) {
        Some(RecordType::AAAA)
    } else if eq_chars(u, &chars_of("CNAME")) {
        Some(RecordType::CNAME)
    } else if eq_chars(u, &chars_of("MX")) {
        Some(RecordType::MX)
    } else if eq_chars(u, &chars_of("NS")) {
        Some(RecordType::NS)
    } else if eq_chars(u, &chars_of("SRV")) {
        Some(RecordType::SRV)
    } else if eq_chars(u, &chars_of("TXT")) {
        Some(RecordType::TXT)
    } else if eq_chars(u, &chars_of("ALIAS")) {
        Some(RecordType::ALIAS)
    } else if eq_chars(u, &chars_of("CAA")) {
        Some(RecordType::CAA)
    } else if eq_chars(u, &chars_of("HTTPS")) {
        Some(RecordType::HTTPS)
    } else if eq_chars(u, &chars_of("SVCB")) {
        Some(RecordType::SVCB)
    } else if eq_chars(u, &chars_of("TLSA")) {
        Some(RecordType::TLSA)
    } else {
        None
    }
}

impl RecordType {
    /// The type's name, e.g. `"AAAA"`.
    pub fn as_str(&self) -> (r: &'static str)
        ensures
            r@ == record_type_name(*self),
    {
        match self {
            RecordType::A => "A",
            RecordType::AAAA => "AAAA",
            RecordType::CNAME => "CNAME",
            RecordType::MX => "MX",
            RecordType::NS => "NS",
            RecordType::SRV => "SRV",
            RecordType::TXT => "TXT",
            RecordType::ALIAS => "ALIAS",
            RecordType::CAA => "CAA",
            RecordType::HTTPS => "HTTPS",
            RecordType::SVCB => "SVCB",
            RecordType::TLSA => "TLSA",
        }
    }

    /// Parses a record type name, ignoring case.
    pub fn parse(s: &str) -> (r: Result<RecordType, String>)
        ensures
            match parse_record_type(s@) {
                Ok(t) => r == Ok::<RecordType, String>(t),
                Err(m) => r is Err && r->Err_0@ == m,
            },
    {
        let ascii = ascii_uppercase(s);
        match type_of_upper(&ascii) {
            Some(t) => Ok(t),
            None => {
                let up = to_uppercase(s);
                match type_of_upper(&chars_of(up.as_str())) {
                    Some(t) => Ok(t),
                    None => Err(concat("Unknown record type: ", s)),
                }
            },
        }
    }

    /// The numeric code of this type.
    pub fn code(self) -> (r: i32)
        ensures
            r == record_type_code(self),
    {
        match self {
            RecordType::A => 0,
            RecordType::MX => 1,
            RecordType::CNAME => 2,
            RecordType::ALIAS => 3,
            RecordType::TXT => 4,
            RecordType::NS => 5,
            RecordType::AAAA => 6,
            RecordType::SRV => 7,
            RecordType::TLSA => 8,
            RecordType::CAA => 9,
            RecordType::HTTPS => 10,
            RecordType::SVCB => 11,
        }
    }

    /// The type with the given numeric code, or the code back if unknown.
    pub fn from_code(value: i32) -> (r: Result<RecordType, i32>)
        ensures
            r == record_type_of_code(value),
    {
        match value {
            0 => Ok(RecordType::A),
            1 => Ok(RecordType::MX),
            2 => Ok(RecordType::CNAME),
            3 => Ok(RecordType::ALIAS),
            4 => Ok(RecordType::TXT),
            5 => Ok(RecordType::NS),
            6 => Ok(RecordType::AAAA),
            7 => Ok(RecordType::SRV),
            8 => Ok(RecordType::TLSA),
            9 => Ok(RecordType::CAA),
            10 => Ok(RecordType::HTTPS),
            11 => Ok(RecordType::SVCB),
            _ => Err(value),
        }
    }
}

impl From<RecordType> for i32 {
    fn from(record_type: RecordType) -> (r: i32) {
        record_type.code()
    }
}

impl vstd::std_specs::convert::FromSpecImpl<RecordType> for i32 {
    open spec fn obeys_from_spec() -> bool {
        true
    }

    open spec fn from_spec(v: RecordType) -> i32 {
        record_type_code(v)
    }
}

impl TryFrom<i32> for RecordType {
    type Error = i32;

    fn try_from(value: i32) -> (r: Result<Self, Self::Error>) {
        RecordType::from_code(value)
    }
}

impl vstd::std_specs::convert::TryFromSpecImpl<i32> for RecordType {
    open spec fn obeys_try_from_spec() -> bool {
        true
    }

    open spec fn try_from_spec(v: i32) -> Result<Self, i32> {
        record_type_of_code(v)
    }
}

impl std::str::FromStr for RecordType {
    type Err = String;

    fn from_str(s: &str) -> (r: Result<Self, Self::Err>)
        ensures
            match parse_record_type(s@) {
                Ok(t) => r == Ok::<RecordType, String>(t),
                Err(m) => r is Err && r->Err_0@ == m,
            },
    {
        RecordType::parse(s)
    }
}

/// Every record type's code converts back to that type.
pub proof fn lemma_record_type_code_roundtrip(t: RecordType)
    ensures
        record_type_of_code(record_type_code(t)) == Ok::<RecordType, i32>(t),
{
}

/// A code converts to a record type exactly when it is one of the twelve
/// codes `0..=11`, and then back to itself; any other code is returned as
/// the error.
pub proof fn lemma_record_type_code_range(v: i32)
    ensures
        (0 <= v <= 11) ==> (record_type_of_code(v) matches Ok(t) && record_type_code(t) == v),
        !(0 <= v <= 11) ==> record_type_of_code(v) == Err::<RecordType, i32>(v),
{
}


/// The smallest TTL accepted, in seconds.
pub const MIN_TTL_SECONDS: u32 = 300;

/// TTL of a record read from input: a missing value, or one below the
/// minimum, becomes the minimum.
pub open spec fn ttl_or_minimum_spec(ttl: Option<u32>) -> u32 {
    match ttl {
        Some(t) => if t >= 300 { t } else { 300 },
        None => 300,
    }
}

/// TTL of a record read from input (a missing value or one below the
/// minimum becomes `MIN_TTL_SECONDS`).
pub fn ttl_or_minimum(ttl: Option<u32>) -> (r: u32)
    ensures
        r == ttl_or_minimum_spec(ttl),
        r >= MIN_TTL_SECONDS,
{
    match ttl {
        Some(t) => if t >= MIN_TTL_SECONDS { t } else { MIN_TTL_SECONDS },
        None => MIN_TTL_SECONDS,
    }
}

/// A DNS record.
pub struct Record {
    pub name: String,
    pub record_type: RecordType,
    pub content: String,
    /// Time to live in seconds.
    pub ttl_seconds: u32,
    pub priority: Option<u16>,
}

/// The value of a record, with its text fields as character sequences.
pub struct RecordView {
    pub name: Seq<char>,
    pub record_type: RecordType,
    pub content: Seq<char>,
    pub ttl_seconds: u32,
    pub priority: Option<u16>,
}

impl View for Record {
    type V = RecordView;

    open spec fn view(&self) -> RecordView {
        RecordView {
            name: self.name@,
            record_type: self.record_type,
            content: self.content@,
            ttl_seconds: self.ttl_seconds,
            priority: self.priority,
        }
    }
}

impl Clone for Record {
    fn clone(&self) -> (r: Self)
        ensures
            r@ == self@,
    {
        Record {
            name: self.name.clone(),
            record_type: self.record_type,
            content: self.content.clone(),
            ttl_seconds: self.ttl_seconds,
            priority: self.priority,
        }
    }
}

/// The one-line text form: `name TYPE ttl content`, then ` priority` if any.
pub open spec fn record_text(r: RecordView) -> Seq<char> {
    r.name + " "@ + record_type_name(r.record_type) + " "@ + dec_seq(r.ttl_seconds as nat) + " "@
        + r.content + match r.priority {
        Some(p) => " "@ + dec_seq(p as nat),
        None => Seq::empty(),
    }
}

pub open spec fn invalid_record_message(s: Seq<char>) -> Seq<char> {
    "invalid record string: "@ + s
}

/// Parsing the one-line text form. MX records carry their priority as the
/// last space-separated word; other records take the rest of the line as
/// content.
pub open spec fn parse_record_text(s: Seq<char>) -> Result<RecordView, Seq<char>> {
    match split_once(s, ' ') {
        None => Err(invalid_record_message(s)),
        Some((name, rest)) => match split_once(rest, ' ') {
            None => Err(invalid_record_message(s)),
            Some((type_text, rest2)) => match parse_record_type(type_text) {
                Err(m) => Err(m),
                Ok(t) => match split_once(rest2, ' ') {
                    None => Err(invalid_record_message(s)),
                    Some((ttl_text, rest3)) => match parse_unsigned(ttl_text, u32::MAX as nat) {
                        Err(k) => Err("Invalid TTL seconds: "@ + int_error_message(k)),
                        Ok(ttl) => if t == RecordType::MX {
                            match rsplit_once(rest3, ' ') {
                                None => Err("Invalid MX record, missing priority: "@ + s),
                                Some((content, prio_text)) => match parse_unsigned(
                                    prio_text,
                                    u16::MAX as nat,
                                ) {
                                    Err(k) => Err("Invalid priority: "@ + int_error_message(k)),
                                    Ok(p) => Ok(
                                        RecordView {
                                            name,
                                            record_type: t,
                                            content,
                                            ttl_seconds: ttl as u32,
                                            priority: Some(p as u16),
                                        },
                                    ),
                                },
                            }
                        } else {
                            Ok(
                                RecordView {
                                    name,
                                    record_type: t,
                                    content: rest3,
                                    ttl_seconds: ttl as u32,
                                    priority: None,
                                },
                            )
                        },
                    },
                },
            },
        },
    }
}

fn invalid_record(s: &str) -> (r: String)
    ensures
        r@ == invalid_record_message(s@),
{
    concat("invalid record string: ", s)
}

impl Record {
    /// The one-line text form of this record.
    pub fn to_text(&self) -> (r: String)
        ensures
            r@ == record_text(self@),
    {
        let mut out = self.name.clone();
        out.append(" ");
        out.append(self.record_type.as_str());
        out.append(" ");
        let ttl = u64_to_decimal(self.ttl_seconds as u64);
        out.append(ttl.as_str());
        out.append(" ");
        out.append(self.content.as_str());
        match self.priority {
            Some(p) => {
                out.append(" ");
                let ps = u64_to_decimal(p as u64);
                out.append(ps.as_str());
            },
            None => {},
        }
        proof {
            assert(out@ =~= record_text(self@));
        }
        out
    }

    /// Parses the one-line text form.
    pub fn parse(s: &str) -> (r: Result<Record, String>)
        ensures
            match parse_record_text(s@) {
                Ok(v) => r matches Ok(rec) && rec@ == v,
                Err(m) => r matches Err(e) && e@ == m,
            },
    {
        let chars = chars_of(s);
        let (name, rest) = match split_once_exec(&chars, ' ') {
            Some(p) => p,
            None => return Err(invalid_record(s)),
        };
        let (type_text, rest2) = match split_once_exec(&rest, ' ') {
            Some(p) => p,
            None => return Err(invalid_record(s)),
        };
        let type_string = string_from_chars(&type_text);
        let record_type = match RecordType::parse(type_string.as_str()) {
            Ok(t) => t,
            Err(e) => return Err(e),
        };
        let (ttl_text, rest3) = match split_once_exec(&rest2, ' ') {
            Some(p) => p,
            None => return Err(invalid_record(s)),
        };
        let ttl_string = string_from_chars(&ttl_text);
        let ttl = match parse_unsigned_exec(ttl_string.as_str(), 0xffff_ffffu64) {
            Ok(v) => v,
            Err(k) => return Err(concat("Invalid TTL seconds: ", int_error_str(k))),
        };
        let ttl_seconds = ttl as u32;
        if record_type == RecordType::MX {
            let (content, prio_text) = match rsplit_once_exec(&rest3, ' ') {
                Some(p) => p,
                None => return Err(concat("Invalid MX record, missing priority: ", s)),
            };
            let prio_string = string_from_chars(&prio_text);
            let prio = match parse_unsigned_exec(prio_string.as_str(), 0xffffu64) {
                Ok(v) => v,
                Err(k) => return Err(concat("Invalid priority: ", int_error_str(k))),
            };
            Ok(
                Record {
                    name: string_from_chars(&name),
                    record_type,
                    content: string_from_chars(&content),
                    ttl_seconds,
                    priority: Some(prio as u16),
                },
            )
        } else {
            Ok(
                Record {
                    name: string_from_chars(&name),
                    record_type,
                    content: string_from_chars(&rest3),
                    ttl_seconds,
                    priority: None,
                },
            )
        }
    }
}

impl std::str::FromStr for Record {
    type Err = String;

    fn from_str(s: &str) -> (r: Result<Self, Self::Err>)
        ensures
            match parse_record_text(s@) {
                Ok(v) => r matches Ok(rec) && rec@ == v,
                Err(m) => r matches Err(e) && e@ == m,
            },
    {
        Record::parse(s)
    }
}

proof fn lemma_last_index_before(p: Seq<char>, c: char, s: Seq<char>, end: int)
    requires
        p.len() + 1 <= end <= p.len() + 1 + s.len(),
        forall|j: int| 0 <= j < s.len() ==> s[j] != c,
    ensures
        last_index_of(p + seq![c] + s, c, end) == Some(p.len() as int),
    decreases end,
{
    let t = p + seq![c] + s;
    if end == p.len() + 1 {
        assert(t[end - 1] == c);
    } else {
        assert(t[end - 1] == s[end - 1 - p.len() - 1]);
        lemma_last_index_before(p, c, s, end - 1);
    }
}

/// A type's name is already uppercase, holds no space, and names the type.
proof fn lemma_type_name(t: RecordType)
    ensures
        upper_seq(record_type_name(t)) == record_type_name(t),
        record_type_from_upper(record_type_name(t)) == Some(t),
        forall|j: int| 0 <= j < record_type_name(t).len() ==> #[trigger] record_type_name(t)[j] != ' ',
{
    reveal_strlit("A");
    reveal_strlit("AAAA");
    reveal_strlit("CNAME");
    reveal_strlit("MX");
    reveal_strlit("NS");
    reveal_strlit("SRV");
    reveal_strlit("TXT");
    reveal_strlit("ALIAS");
    reveal_strlit("CAA");
    reveal_strlit("HTTPS");
    reveal_strlit("SVCB");
    reveal_strlit("TLSA");
    let n = record_type_name(t);
    assert(upper_seq(n) =~= n);
    match t {
        RecordType::A => {
            assert(record_type_from_upper(n) == Some(RecordType::A));
        },
        RecordType::AAAA => {
            assert(record_type_from_upper(n) == Some(RecordType::AAAA));
        },
        RecordType::CNAME => {
            assert(record_type_from_upper(n) == Some(RecordType::CNAME));
        },
        RecordType::MX => {
            assert(record_type_from_upper(n) == Some(RecordType::MX));
        },
        RecordType::NS => {
            assert(n[0] != "MX"@[0]);
            assert(record_type_from_upper(n) == Some(RecordType::NS));
        },
        RecordType::SRV => {
            assert(record_type_from_upper(n) == Some(RecordType::SRV));
        },
        RecordType::TXT => {
            assert(n[0] != "SRV"@[0]);
            assert(record_type_from_upper(n) == Some(RecordType::TXT));
        },
        RecordType::ALIAS => {
            assert(n[0] != "CNAME"@[0]);
            assert(record_type_from_upper(n) == Some(RecordType::ALIAS));
        },
        RecordType::CAA => {
            assert(n[0] != "SRV"@[0]);
            assert(n[0] != "TXT"@[0]);
            assert(record_type_from_upper(n) == Some(RecordType::CAA));
        },
        RecordType::HTTPS => {
            assert(n[0] != "CNAME"@[0]);
            assert(n[0] != "ALIAS"@[0]);
            assert(record_type_from_upper(n) == Some(RecordType::HTTPS));
        },
        RecordType::SVCB => {
            assert(n[0] != "AAAA"@[0]);
            assert(record_type_from_upper(n) == Some(RecordType::SVCB));
        },
        RecordType::TLSA => {
            assert(n[0] != "AAAA"@[0]);
            assert(n[0] != "SVCB"@[0]);
            assert(record_type_from_upper(n) == Some(RecordType::TLSA));
        },
    }
}

proof fn lemma_space()
    ensures
        " "@ == seq![' '],
{
    reveal_strlit(" ");
    assert(" "@ =~= seq![' ']);
}

proof fn lemma_split_at_space(a: Seq<char>, b: Seq<char>)
    requires
        forall|j: int| 0 <= j < a.len() ==> a[j] != ' ',
    ensures
        split_once(a + seq![' '] + b, ' ') == Some((a, b)),
{
    let s = a + seq![' '] + b;
    crate::text::lemma_first_index_after(a, ' ', b, 0);
    assert(s.take(a.len() as int) =~= a);
    assert(s.skip(a.len() as int + 1) =~= b);
}

proof fn lemma_rsplit_at_space(a: Seq<char>, b: Seq<char>)
    requires
        forall|j: int| 0 <= j < b.len() ==> b[j] != ' ',
    ensures
        rsplit_once(a + seq![' '] + b, ' ') == Some((a, b)),
{
    let s = a + seq![' '] + b;
    lemma_last_index_before(a, ' ', b, s.len() as int);
    assert(s.take(a.len() as int) =~= a);
    assert(s.skip(a.len() as int + 1) =~= b);
}

proof fn lemma_dec_no_space(n: nat)
    ensures
        forall|j: int| 0 <= j < dec_seq(n).len() ==> #[trigger] dec_seq(n)[j] != ' ',
{
    crate::text::lemma_dec_no_colon(n);
    assert forall|j: int| 0 <= j < dec_seq(n).len() implies #[trigger] dec_seq(n)[j] != ' ' by {
        assert(crate::text::is_ascii_digit(dec_seq(n)[j]));
    }
}

/// A record whose name holds no space, and which has a priority exactly
/// when it is an MX record, reads back from its text form unchanged.
pub proof fn lemma_record_text_roundtrip(r: RecordView)
    requires
        forall|i: int| 0 <= i < r.name.len() ==> r.name[i] != ' ',
        (r.record_type == RecordType::MX) == (r.priority is Some),
    ensures
        parse_record_text(record_text(r)) == Ok::<RecordView, Seq<char>>(r),
{
    lemma_space();
    let tn = record_type_name(r.record_type);
    lemma_type_name(r.record_type);
    let ttl = dec_seq(r.ttl_seconds as nat);
    lemma_dec_no_space(r.ttl_seconds as nat);
    let tail: Seq<char> = match r.priority {
        Some(p) => seq![' '] + dec_seq(p as nat),
        None => Seq::empty(),
    };
    let s = record_text(r);
    let rest3 = r.content + tail;
    let rest2 = ttl + seq![' '] + rest3;
    let rest = tn + seq![' '] + rest2;
    assert(s =~= r.name + seq![' '] + rest);
    lemma_split_at_space(r.name, rest);
    lemma_split_at_space(tn, rest2);
    lemma_split_at_space(ttl, rest3);
    assert(upper_seq(tn) == tn);
    assert(parse_record_type(tn) == Ok::<RecordType, Seq<char>>(r.record_type));
    crate::text::lemma_parse_dec(r.ttl_seconds as nat, u32::MAX as nat);
    match r.priority {
        Some(p) => {
            let pd = dec_seq(p as nat);
            lemma_dec_no_space(p as nat);
            assert(rest3 =~= r.content + seq![' '] + pd);
            lemma_rsplit_at_space(r.content, pd);
            crate::text::lemma_parse_dec(p as nat, u16::MAX as nat);
        },
        None => {
            assert(rest3 =~= r.content);
        },
    }
}

} // verus!
