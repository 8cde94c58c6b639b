//! The self-hosted provider: its configuration, the record store it serves
//! and saves to a file, and how it answers DNS queries from that store.

use vstd::prelude::*;
use std::collections::BTreeMap;
use crate::dns::ordered::{lemma_listing_of, lemma_lists_unique, lemma_u64_keys_ordered, listing_of, u64_keys_ordered, lists, ordered_entries};
use crate::dns::record::{Record, RecordType, RecordView};
use crate::text::{chars_of, concat, eq_chars, lower_seq, string_from_chars, trim_end_char, trim_end_char_seq, ascii_lowercase};

verus! {

broadcast use vstd::std_specs::btree::group_btree_axioms;

/// Configuration of the self-hosted DNS server.
pub struct Config {
    pub file_path: String,
    pub tcp_addr: Option<String>,
    pub udp_addr: Option<String>,
}

/// Record types the server can hold.
pub open spec fn storable(t: RecordType) -> bool {
    t == RecordType::A || t == RecordType::AAAA || t == RecordType::CNAME || t == RecordType::ALIAS
        || t == RecordType::MX || t == RecordType::NS || t == RecordType::TXT
}

/// A record as the server keeps it: the name without trailing dots, an
/// alias served as a CNAME, and a priority only for MX records (0 if none
/// was given).
pub open spec fn stored_form(r: RecordView) -> RecordView {
    RecordView {
        name: trim_end_char_seq(r.name, '.'),
        record_type: if r.record_type == RecordType::ALIAS {
            RecordType::CNAME
        } else {
            r.record_type
        },
        priority: if r.record_type == RecordType::MX {
            Some(
                match r.priority {
                    Some(p) => p,
                    None => 0u16,
                },
            )
        } else {
            None
        },
        ..r
    }
}

pub fn is_storable(t: RecordType) -> (r: bool)
    ensures
        r == storable(t),
{
    match t {
        RecordType::A | RecordType::AAAA | RecordType::CNAME | RecordType::ALIAS | RecordType::MX
        | RecordType::NS | RecordType::TXT => true,
        _ => false,
    }
}

/// The form in which the server keeps a record.
pub fn to_stored_form(r: Record) -> (s: Record)
    ensures
        s@ == stored_form(r@),
{
    let name = string_from_chars(&trim_end_char(&chars_of(r.name.as_str()), '.'));
    let record_type = match r.record_type {
        RecordType::ALIAS => RecordType::CNAME,
        t => t,
    };
    let priority = match r.record_type {
        RecordType::MX => Some(
            match r.priority {
                Some(p) => p,
                None => 0u16,
            },
        ),
        _ => None,
    };
    Record { name, record_type, content: r.content, ttl_seconds: r.ttl_seconds, priority }
}

pub open spec fn entry_view(e: (u64, Record)) -> (u64, RecordView) {
    (e.0, e.1@)
}

pub open spec fn store_view(v: Seq<(u64, Record)>) -> Seq<(u64, RecordView)> {
    v.map_values(|e: (u64, Record)| entry_view(e))
}

/// Ids are positive and strictly increasing.
pub open spec fn ids_sorted(s: Seq<(u64, RecordView)>) -> bool {
    &&& forall|i: int| 0 <= i < s.len() ==> (#[trigger] s[i]).0 > 0
    &&& forall|i: int, j: int| 0 <= i < j < s.len() ==> (#[trigger] s[i]).0 < (#[trigger] s[j]).0
}

/// The records of the server by id.
pub struct HickoryStore {
    records: BTreeMap<u64, Record>,
}

impl View for HickoryStore {
    type V = Seq<(u64, RecordView)>;

    /// The records with their ids, in id order.
    closed spec fn view(&self) -> Seq<(u64, RecordView)> {
        listing_of(self.records@)
    }
}

/// The position of an id in the store.
pub open spec fn position_of(s: Seq<(u64, RecordView)>, id: u64) -> Option<int> {
    if exists|i: int| 0 <= i < s.len() && #[trigger] s[i].0 == id {
        Some(choose|i: int| 0 <= i < s.len() && #[trigger] s[i].0 == id)
    } else {
        None
    }
}

/// The next id: one more than the largest, 1 for an empty store.
pub open spec fn next_id(s: Seq<(u64, RecordView)>) -> int {
    if s.len() == 0 {
        1
    } else {
        s.last().0 + 1
    }
}

impl HickoryStore {
    pub closed spec fn wf(&self) -> bool {
        &&& lists(self@, self.records@)
        &&& ids_sorted(self@)
    }

    pub fn new() -> (r: Self)
        ensures
            r.wf(),
            r@ == Seq::<(u64, RecordView)>::empty(),
    {
        let r = HickoryStore { records: BTreeMap::new() };
        proof {
            lemma_listing_of(Seq::<(u64, RecordView)>::empty(), r.records@);
        }
        r
    }

    /// A store holding saved records, if their ids are positive and
    /// strictly increasing (as saved); `None` otherwise.
    pub fn from_entries(entries: Vec<(u64, Record)>) -> (r: Option<Self>)
        ensures
            match r {
                Some(st) => st.wf() && st@ == store_view(entries@),
                None => !ids_sorted(store_view(entries@)),
            },
    {
        let ghost sv = store_view(entries@);
        let mut i: usize = 0;
        while i < entries.len()
            invariant
                sv == store_view(entries@),
                i <= entries@.len(),
                forall|k: int| 0 <= k < i ==> (#[trigger] sv[k]).0 > 0,
                forall|a: int, b: int| 0 <= a < b < i ==> (#[trigger] sv[a]).0 < (#[trigger] sv[b]).0,
            decreases entries@.len() - i,
        {
            assert(sv[i as int] == entry_view(entries@[i as int]));
            if entries[i].0 == 0 {
                return None;
            }
            if i > 0 {
                assert(sv[i - 1] == entry_view(entries@[i - 1]));
                if entries[i - 1].0 >= entries[i].0 {
                    return None;
                }
                assert forall|a: int, b: int| 0 <= a < b < i + 1 implies (#[trigger] sv[a]).0 < (#[trigger] sv[b]).0 by {
                    if b == i && a < i - 1 {
                        assert(sv[a].0 < sv[i - 1].0);
                    }
                }
            }
            i = i + 1;
        }
        proof {
            lemma_u64_keys_ordered();
        }
        let mut map: BTreeMap<u64, Record> = BTreeMap::new();
        let mut j: usize = 0;
        while j < entries.len()
            invariant
                sv == store_view(entries@),
                ids_sorted(sv),
                j <= entries@.len(),
                lists(sv.take(j as int), map@),
                u64_keys_ordered(),
            decreases entries@.len() - j,
        {
            let k = entries[j].0;
            let rec = entries[j].1.clone();
            let ghost before = map@;
            let ghost t = sv.take(j as int);
            proof {
                assert(sv[j as int] == entry_view(entries@[j as int]));
            }
            map.insert(k, rec);
            proof {
                let t2 = sv.take(j + 1);
                assert(t2 =~= t.push(sv[j as int]));
                assert forall|a: int| 0 <= a < t2.len() implies map@.contains_key((#[trigger] t2[a]).0)
                    && map@[t2[a].0]@ == t2[a].1 by {
                    if a < j {
                        assert(t2[a] == t[a]);
                        assert(sv[a].0 < sv[j as int].0);
                    }
                }
                assert forall|kk: u64| #[trigger] map@.contains_key(kk) implies exists|a: int| 0 <= a < t2.len()
                    && (#[trigger] t2[a]).0 == kk by {
                    if kk == k {
                        assert(t2[j as int].0 == kk);
                    } else {
                        assert(before.contains_key(kk));
                        let a = choose|a: int| 0 <= a < t.len() && (#[trigger] t[a]).0 == kk;
                        assert(t2[a] == t[a]);
                    }
                }
            }
            j = j + 1;
        }
        proof {
            assert(sv.take(entries@.len() as int) =~= sv);
            lemma_listing_of(sv, map@);
        }
        Some(HickoryStore { records: map })
    }

    /// The records with their ids, in id order.
    fn entries(&self) -> (r: Vec<(u64, Record)>)
        ensures
            store_view(r@) == self@,
    {
        let r = ordered_entries(&self.records);
        proof {
            lemma_lists_unique(store_view(r@), self@, self.records@);
        }
        r
    }

    /// Whether another record can be added: the largest id is below the
    /// largest 64-bit value.
    pub fn can_add(&self) -> (r: bool)
        ensures
            r == (next_id(self@) <= u64::MAX),
    {
        let v = self.entries();
        if v.len() == 0 {
            true
        } else {
            assert(self@.last() == entry_view(v@[v@.len() - 1]));
            v[v.len() - 1].0 < u64::MAX
        }
    }

    /// Stores a record under the next id, in the form the server keeps it.
    pub fn add_record(&mut self, record: Record) -> (r: u64)
        requires
            old(self).wf(),
            next_id(old(self)@) <= u64::MAX,
        ensures
            final(self).wf(),
            r == next_id(old(self)@),
            final(self)@ == old(self)@.push((r, stored_form(record@))),
    {
        let v = self.entries();
        let id: u64 = if v.len() == 0 {
            1
        } else {
            assert(self@.last() == entry_view(v@[v@.len() - 1]));
            v[v.len() - 1].0 + 1
        };
        let stored = to_stored_form(record);
        let ghost before = self@;
        let ghost m0 = self.records@;
        let ghost sr = stored@;
        proof {
            lemma_u64_keys_ordered();
        }
        self.records.insert(id, stored);
        proof {
            let t = before.push((id, sr));
            let m = self.records@;
            assert forall|i: int, j: int| 0 <= i < j < t.len() implies (#[trigger] t[i]).0 < (#[trigger] t[j]).0 by {
                if j == before.len() && i < before.len() - 1 {
                    assert(before[i].0 < before[before.len() - 1].0);
                }
            }
            assert forall|a: int| 0 <= a < t.len() implies m.contains_key((#[trigger] t[a]).0) && m[t[a].0]@ == t[a].1 by {
                if a < before.len() {
                    assert(t[a] == before[a]);
                    if a < before.len() - 1 {
                        assert(before[a].0 < before[before.len() - 1].0);
                    }
                }
            }
            assert forall|kk: u64| #[trigger] m.contains_key(kk) implies exists|a: int| 0 <= a < t.len() && (#[trigger] t[a]).0 == kk by {
                if kk == id {
                    assert(t[before.len() as int].0 == kk);
                } else {
                    assert(m0.contains_key(kk));
                    let a = choose|a: int| 0 <= a < before.len() && (#[trigger] before[a]).0 == kk;
                    assert(t[a] == before[a]);
                }
            }
            lemma_listing_of(t, m);
        }
        id
    }

    /// Removes the record of an id; the record removed, if there was one.
    pub fn delete_record(&mut self, id: u64) -> (r: Option<Record>)
        requires
            old(self).wf(),
            id != 0,
        ensures
            final(self).wf(),
            match position_of(old(self)@, id) {
                Some(i) => r matches Some(x) && x@ == old(self)@[i].1 && final(self)@ == old(self)@.remove(i),
                None => r is None && final(self)@ == old(self)@,
            },
    {
        let ghost before = self@;
        let ghost m0 = self.records@;
        proof {
            lemma_u64_keys_ordered();
            lemma_position(before, m0, id);
        }
        let removed = self.records.remove(&id);
        proof {
            let m = self.records@;
            match position_of(before, id) {
                Some(i) => {
                    let t = before.remove(i);
                    assert forall|a: int, b: int| 0 <= a < b < t.len() implies (#[trigger] t[a]).0 < (#[trigger] t[b]).0 by {
                        let a2 = if a < i { a } else { a + 1 };
                        let b2 = if b < i { b } else { b + 1 };
                        assert(t[a] == before[a2] && t[b] == before[b2]);
                    }
                    assert forall|a: int| 0 <= a < t.len() implies m.contains_key((#[trigger] t[a]).0) && m[t[a].0]@ == t[a].1 by {
                        let a2 = if a < i { a } else { a + 1 };
                        assert(t[a] == before[a2]);
                        if a2 < i {
                            assert(before[a2].0 < before[i].0);
                        } else {
                            assert(before[i].0 < before[a2].0);
                        }
                    }
                    assert forall|kk: u64| #[trigger] m.contains_key(kk) implies exists|a: int| 0 <= a < t.len() && (#[trigger] t[a]).0 == kk by {
                        assert(m0.contains_key(kk));
                        let a = choose|a: int| 0 <= a < before.len() && (#[trigger] before[a]).0 == kk;
                        assert(a != i);
                        if a < i {
                            assert(t[a] == before[a]);
                        } else {
                            assert(t[a - 1] == before[a]);
                        }
                    }
                    assert forall|a: int| 0 <= a < t.len() implies (#[trigger] t[a]).0 > 0 by {
                        let a2 = if a < i { a } else { a + 1 };
                        assert(t[a] == before[a2]);
                    }
                    lemma_listing_of(t, m);
                },
                None => {
                    assert(m =~= m0);
                },
            }
        }
        removed
    }

    /// Replaces the record of an id, if there is one (id 0 never is).
    pub fn update_record(&mut self, id: u64, record: Record) -> (r: bool)
        requires
            old(self).wf(),
        ensures
            final(self).wf(),
            r == position_of(old(self)@, id) is Some,
            match position_of(old(self)@, id) {
                Some(i) => final(self)@ == old(self)@.update(i, (id, stored_form(record@))),
                None => final(self)@ == old(self)@,
            },
    {
        let ghost before = self@;
        let ghost m0 = self.records@;
        proof {
            lemma_u64_keys_ordered();
            lemma_position(before, m0, id);
        }
        if self.records.contains_key(&id) {
            let stored = to_stored_form(record);
            let ghost sr = stored@;
            self.records.insert(id, stored);
            proof {
                let i = position_of(before, id).unwrap();
                let t = before.update(i, (id, sr));
                let m = self.records@;
                assert forall|a: int, b: int| 0 <= a < b < t.len() implies (#[trigger] t[a]).0 < (#[trigger] t[b]).0 by {
                    assert(before[a].0 < before[b].0);
                }
                assert forall|a: int| 0 <= a < t.len() implies m.contains_key((#[trigger] t[a]).0) && m[t[a].0]@ == t[a].1 by {
                    if a != i {
                        if a < i {
                            assert(before[a].0 < before[i].0);
                        } else {
                            assert(before[i].0 < before[a].0);
                        }
                    }
                }
                assert forall|kk: u64| #[trigger] m.contains_key(kk) implies exists|a: int| 0 <= a < t.len() && (#[trigger] t[a]).0 == kk by {
                    if kk == id {
                        assert(t[i].0 == kk);
                    } else {
                        assert(m0.contains_key(kk));
                        let a = choose|a: int| 0 <= a < before.len() && (#[trigger] before[a]).0 == kk;
                        assert(t[a].0 == kk);
                    }
                }
                assert forall|a: int| 0 <= a < t.len() implies (#[trigger] t[a]).0 > 0 by {
                    assert(before[a].0 > 0);
                }
                lemma_listing_of(t, m);
            }
            true
        } else {
            false
        }
    }

    /// All records with their ids, in id order.
    pub fn list_records(&self) -> (r: Vec<(u64, Record)>)
        ensures
            store_view(r@) == self@,
    {
        self.entries()
    }
}

/// In a listing, an id is stored exactly when it has a position, and the
/// position holds it.
proof fn lemma_position(s: Seq<(u64, RecordView)>, m: Map<u64, Record>, id: u64)
    requires
        lists(s, m),
    ensures
        m.contains_key(id) <==> position_of(s, id) is Some,
        position_of(s, id) matches Some(i) ==> 0 <= i < s.len() && s[i].0 == id && m[id]@ == s[i].1,
{
    if m.contains_key(id) {
        let a = choose|a: int| 0 <= a < s.len() && (#[trigger] s[a]).0 == id;
        assert(s[a].0 == id);
    }
}

/// What a query asks for.
#[derive(Clone, Copy, PartialEq, Eq, Debug, Structural)]
pub enum QueryType {
    Type(RecordType),
    Any,
    /// A type the server never holds.
    Other,
}

/// One question of a DNS request.
pub struct Query {
    /// The queried name as text.
    pub name: String,
    pub query_type: QueryType,
    /// Whether the class is IN; other classes are not answered.
    pub class_in: bool,
}

pub open spec fn query_view(q: Query) -> (Seq<char>, QueryType, bool) {
    (q.name@, q.query_type, q.class_in)
}

/// Whether `hickory` reads the two texts as the same name: both parse by
/// `Name::from_utf8` and the names are equal.
pub uninterp spec fn hickory_same_name(a: Seq<char>, b: Seq<char>) -> bool;

/// `hickory_server::proto::rr::Name::from_utf8` on both texts, then `==`
/// on the names (same fully-qualified-ness, labels equal ignoring ASCII
/// case, after IDNA conversion to punycode); false when either text is not
/// a name. The answer depends on the two texts alone, so it is named.
#[verifier::external_body]
fn hickory_names_equal(a: &str, b: &str) -> (r: bool)
    ensures
        r == hickory_same_name(a@, b@),
{
    match (hickory_server::proto::rr::Name::from_utf8(a), hickory_server::proto::rr::Name::from_utf8(b)) {
        (Ok(x), Ok(y)) => x == y,
        _ => false,
    }
}

/// A stored record answers a queried name when `hickory` reads the record's
/// name, made fully qualified, as the same name as the query's.
pub open spec fn same_name(record_name: Seq<char>, query_name: Seq<char>) -> bool {
    hickory_same_name(record_name + "."@, query_name)
}

pub open spec fn type_matches(t: RecordType, q: QueryType) -> bool {
    q == QueryType::Any || q == QueryType::Type(t)
}

/// The records answering one question, in id order.
pub open spec fn answers_for(s: Seq<(u64, RecordView)>, q: (Seq<char>, QueryType, bool)) -> Seq<u64>
    decreases s.len(),
{
    if s.len() == 0 || !q.2 {
        Seq::empty()
    } else {
        let p = answers_for(s.drop_last(), q);
        if same_name(s.last().1.name, q.0) && type_matches(s.last().1.record_type, q.1) {
            p.push(s.last().0)
        } else {
            p
        }
    }
}

/// The records answering all questions, question by question.
pub open spec fn all_answers(s: Seq<(u64, RecordView)>, qs: Seq<(Seq<char>, QueryType, bool)>) -> Seq<u64>
    decreases qs.len(),
{
    if qs.len() == 0 {
        Seq::empty()
    } else {
        all_answers(s, qs.drop_last()) + answers_for(s, qs.last())
    }
}

/// How the server answers a request.
pub enum Response {
    /// Only queries are served.
    NotImplemented,
    /// No record answers.
    NxDomain,
    /// The ids of the answering records.
    Answers(Vec<u64>),
}

fn name_matches(record_name: &str, query_name: &str) -> (r: bool)
    ensures
        r == same_name(record_name@, query_name@),
{
    let fqdn = concat(record_name, ".");
    hickory_names_equal(fqdn.as_str(), query_name)
}

impl HickoryStore {
    fn answers_for_exec(&self, recs: &Vec<(u64, Record)>, q: &Query, out: &mut Vec<u64>)
        requires
            store_view(recs@) == self@,
        ensures
            final(out)@ == old(out)@ + answers_for(self@, query_view(*q)),
    {
        if !q.class_in {
            proof {
                assert(answers_for(self@, query_view(*q)) =~= Seq::<u64>::empty());
                assert(old(out)@ + Seq::<u64>::empty() =~= old(out)@);
            }
            return;
        }
        let ghost s = self@;
        let mut i: usize = 0;
        proof {
            assert(s.take(0) =~= Seq::<(u64, RecordView)>::empty());
            assert(old(out)@ + Seq::<u64>::empty() =~= old(out)@);
        }
        while i < recs.len()
            invariant
                s == self@,
                s == store_view(recs@),
                q.class_in,
                i <= recs@.len(),
                out@ == old(out)@ + answers_for(s.take(i as int), query_view(*q)),
            decreases recs@.len() - i,
        {
            proof {
                assert(s.take(i + 1).drop_last() =~= s.take(i as int));
                assert(s.take(i + 1).last() == s[i as int]);
                assert(s[i as int] == entry_view(recs@[i as int]));
            }
            let rec = &recs[i].1;
            let type_ok = match q.query_type {
                QueryType::Any => true,
                QueryType::Type(t) => t == rec.record_type,
                QueryType::Other => false,
            };
            if type_ok && name_matches(rec.name.as_str(), q.name.as_str()) {
                let ghost before = out@;
                out.push(recs[i].0);
                proof {
                    assert(out@ =~= old(out)@ + answers_for(s.take(i as int), query_view(*q)).push(s[i as int].0));
                }
            }
            i = i + 1;
        }
        proof {
            assert(s.take(recs@.len() as int) =~= s);
        }
    }

    /// The answer to a request: only queries are served; the records whose
    /// name (as `hickory` compares names) and type (or any type) match a
    /// question of class IN answer it; no answer at all is NXDOMAIN.
    pub fn handle_request(&self, is_query: bool, queries: &Vec<Query>) -> (r: Response)
        ensures
            !is_query ==> r is NotImplemented,
            is_query && all_answers(self@, queries@.map_values(|q: Query| query_view(q))).len() == 0
                ==> r is NxDomain,
            is_query && all_answers(self@, queries@.map_values(|q: Query| query_view(q))).len() > 0
                ==> (r matches Response::Answers(v) && v@ == all_answers(
                self@,
                queries@.map_values(|q: Query| query_view(q)),
            )),
    {
        if !is_query {
            return Response::NotImplemented;
        }
        let ghost qs = queries@.map_values(|q: Query| query_view(q));
        let recs = self.entries();
        let mut out: Vec<u64> = Vec::new();
        let mut k: usize = 0;
        proof {
            assert(qs.take(0) =~= Seq::<(Seq<char>, QueryType, bool)>::empty());
        }
        while k < queries.len()
            invariant
                qs == queries@.map_values(|q: Query| query_view(q)),
                store_view(recs@) == self@,
                k <= queries@.len(),
                out@ == all_answers(self@, qs.take(k as int)),
            decreases queries@.len() - k,
        {
            proof {
                assert(qs.take(k + 1).drop_last() =~= qs.take(k as int));
                assert(qs.take(k + 1).last() == qs[k as int]);
                assert(qs[k as int] == query_view(queries@[k as int]));
            }
            self.answers_for_exec(&recs, &queries[k], &mut out);
            k = k + 1;
        }
        proof {
            assert(qs.take(queries@.len() as int) =~= qs);
        }
        if out.len() == 0 {
            Response::NxDomain
        } else {
            Response::Answers(out)
        }
    }
}

/// What `hickory`'s `Name::from_utf8` reads a text as, written back by
/// `Name::to_utf8`; `None` when the text is not a name.
pub uninterp spec fn hickory_name_text(text: Seq<char>) -> Option<Seq<char>>;

/// `hickory_server::proto::rr::Name::from_utf8`, then `to_utf8`. The result
/// depends on the text alone (its IDNA rules are not written out here), so
/// it is named.
#[verifier::external_body]
fn reparse_name(text: &str) -> (r: Option<String>)
    ensures
        match r {
            Some(t) => hickory_name_text(text@) == Some(t@),
            None => hickory_name_text(text@) is None,
        },
{
    hickory_server::proto::rr::Name::from_utf8(text).ok().map(|n| n.to_utf8())
}

/// `String::from_utf8`: the text the bytes encode, or `None` when they are
/// not valid UTF-8.
#[verifier::external_body]
fn utf8_string(bytes: Vec<u8>) -> (r: Option<String>)
    ensures
        r is Some == vstd::utf8::valid_utf8(bytes@),
        r matches Some(t) ==> t@ == vstd::utf8::decode_utf8(bytes@),
{
    String::from_utf8(bytes).ok()
}

/// The labels of a query name, each followed by a dot.
pub open spec fn dotted_labels(labels: Seq<Seq<u8>>) -> Seq<u8>
    decreases labels.len(),
{
    if labels.len() == 0 {
        Seq::empty()
    } else {
        dotted_labels(labels.drop_last()) + labels.last() + seq![46u8]
    }
}

/// Whether some label holds a byte outside ASCII.
pub open spec fn has_non_ascii(labels: Seq<Seq<u8>>) -> bool {
    exists|i: int, j: int| 0 <= i < labels.len() && 0 <= j < labels[i].len() && #[trigger] labels[i][j] >= 128
}

/// The name a query is answered for. Clients may send labels that are not
/// ASCII; such a name is read again as UTF-8 text (its labels joined by
/// dots) through `hickory`, which gives punycoded or unescaped names their
/// proper form. Otherwise, or when that fails, the name's plain text.
pub open spec fn query_name_text(labels: Seq<Seq<u8>>, plain: Seq<char>) -> Seq<char> {
    let bytes = dotted_labels(labels);
    if has_non_ascii(labels) && vstd::utf8::valid_utf8(bytes) && hickory_name_text(
        vstd::utf8::decode_utf8(bytes),
    ) is Some {
        hickory_name_text(vstd::utf8::decode_utf8(bytes)).unwrap()
    } else {
        plain
    }
}

pub open spec fn labels_view(labels: Seq<Vec<u8>>) -> Seq<Seq<u8>> {
    labels.map_values(|l: Vec<u8>| l@)
}

/// The name a query with these labels (and this plain text) is answered
/// for.
pub fn query_name(labels: &Vec<Vec<u8>>, plain: &str) -> (r: String)
    ensures
        r@ == query_name_text(labels_view(labels@), plain@),
{
    let ghost lv = labels_view(labels@);
    let mut bytes: Vec<u8> = Vec::new();
    let mut non_ascii = false;
    let mut i: usize = 0;
    while i < labels.len()
        invariant
            lv == labels_view(labels@),
            i <= labels@.len(),
            bytes@ == dotted_labels(lv.take(i as int)),
            non_ascii == has_non_ascii(lv.take(i as int)),
        decreases labels@.len() - i,
    {
        let label = &labels[i];
        let ghost before = bytes@;
        let mut j: usize = 0;
        let mut found = false;
        while j < label.len()
            invariant
                i < labels@.len(),
                label@ == lv[i as int],
                j <= label@.len(),
                bytes@ == before + label@.take(j as int),
                found == exists|k: int| 0 <= k < j && #[trigger] label@[k] >= 128,
            decreases label@.len() - j,
        {
            if label[j] >= 128 {
                found = true;
            }
            bytes.push(label[j]);
            proof {
                assert(label@.take(j + 1) =~= label@.take(j as int).push(label@[j as int]));
            }
            j = j + 1;
        }
        bytes.push(46);
        proof {
            let t = lv.take(i + 1);
            assert(t.drop_last() =~= lv.take(i as int));
            assert(label@.take(j as int) =~= label@);
            assert(bytes@ =~= dotted_labels(t));
            assert(has_non_ascii(t) == (has_non_ascii(lv.take(i as int)) || found)) by {
                if found {
                    let k = choose|k: int| 0 <= k < j && #[trigger] label@[k] >= 128;
                    assert(t[i as int][k] >= 128);
                }
                if has_non_ascii(lv.take(i as int)) {
                    let (a, b) = choose|a: int, b: int| 0 <= a < lv.take(i as int).len() && 0 <= b < lv.take(i as int)[a].len() && #[trigger] lv.take(i as int)[a][b] >= 128;
                    assert(t[a][b] >= 128);
                }
                if has_non_ascii(t) {
                    let (a, b) = choose|a: int, b: int| 0 <= a < t.len() && 0 <= b < t[a].len() && #[trigger] t[a][b] >= 128;
                    if a < i {
                        assert(lv.take(i as int)[a][b] >= 128);
                    } else {
                        assert(label@[b] >= 128);
                    }
                }
            }
        }
        non_ascii = non_ascii || found;
        i = i + 1;
    }
    proof {
        assert(lv.take(labels@.len() as int) =~= lv);
    }
    if non_ascii {
        if let Some(text) = utf8_string(bytes) {
            if let Some(name) = reparse_name(text.as_str()) {
                return name;
            }
        }
    }
    String::from_str(plain)
}

/// Keeping a record changes only its form: content and TTL stay as given,
/// an alias is kept as a CNAME and every other type as itself, an MX record keeps the priority it was given (0 only when none was), and
/// any other record keeps no priority.
pub proof fn lemma_stored_form_keeps_priority(r: RecordView)
    ensures
        stored_form(r).content == r.content,
        stored_form(r).ttl_seconds == r.ttl_seconds,
        r.record_type == RecordType::ALIAS ==> stored_form(r).record_type == RecordType::CNAME,
        r.record_type != RecordType::ALIAS ==> stored_form(r).record_type == r.record_type,
        r.record_type == RecordType::MX && r.priority is Some ==> stored_form(r).priority == r.priority,
        r.record_type == RecordType::MX && r.priority is None ==> stored_form(r).priority == Some(0u16),
        r.record_type != RecordType::MX ==> stored_form(r).priority is None,
{
}

/// A record answers a question exactly when the question is of class IN,
/// the record's name is the queried name, and the question asks for the
/// record's own type or for any type. So an id answers a question for type
/// `t` only if its record has type `t`, and a question for a type the
/// server never holds gets no answer.
pub proof fn lemma_answers_match_question(s: Seq<(u64, RecordView)>, q: (Seq<char>, QueryType, bool), id: u64)
    ensures
        answers_for(s, q).contains(id) <==> exists|i: int|
            0 <= i < s.len() && (#[trigger] s[i]).0 == id && q.2 && same_name(s[i].1.name, q.0) && (q.1
                == QueryType::Any || q.1 == QueryType::Type(s[i].1.record_type)),
    decreases s.len(),
{
    if s.len() == 0 || !q.2 {
        assert(answers_for(s, q) =~= Seq::<u64>::empty());
    } else {
        let p = s.drop_last();
        let n = p.len() as int;
        lemma_answers_match_question(p, q, id);
        let last_ok = s[n].0 == id && same_name(s[n].1.name, q.0) && (q.1 == QueryType::Any || q.1
            == QueryType::Type(s[n].1.record_type));
        let ex_p = exists|i: int|
            0 <= i < p.len() && (#[trigger] p[i]).0 == id && q.2 && same_name(p[i].1.name, q.0) && (q.1
                == QueryType::Any || q.1 == QueryType::Type(p[i].1.record_type));
        let ex_s = exists|i: int|
            0 <= i < s.len() && (#[trigger] s[i]).0 == id && q.2 && same_name(s[i].1.name, q.0) && (q.1
                == QueryType::Any || q.1 == QueryType::Type(s[i].1.record_type));
        assert(ex_s <==> (ex_p || last_ok)) by {
            if ex_s {
                let i = choose|i: int|
                    0 <= i < s.len() && (#[trigger] s[i]).0 == id && q.2 && same_name(s[i].1.name, q.0)
                        && (q.1 == QueryType::Any || q.1 == QueryType::Type(s[i].1.record_type));
                if i < n {
                    assert(p[i] == s[i]);
                }
            }
            if ex_p {
                let i = choose|i: int|
                    0 <= i < p.len() && (#[trigger] p[i]).0 == id && q.2 && same_name(p[i].1.name, q.0)
                        && (q.1 == QueryType::Any || q.1 == QueryType::Type(p[i].1.record_type));
                assert(s[i] == p[i]);
            }
            if last_ok {
                assert(s[n].0 == id);
            }
        }
        let ap = answers_for(p, q);
        assert(s.last() == s[n]);
        if same_name(s[n].1.name, q.0) && type_matches(s[n].1.record_type, q.1) {
            assert(answers_for(s, q) == ap.push(s[n].0));
            assert(ap.push(s[n].0).contains(id) <==> (ap.contains(id) || s[n].0 == id)) by {
                if ap.push(s[n].0).contains(id) {
                    let k = choose|k: int| 0 <= k < ap.len() + 1 && ap.push(s[n].0)[k] == id;
                    if k < ap.len() {
                        assert(ap[k] == id);
                    }
                }
                if ap.contains(id) {
                    let k = choose|k: int| 0 <= k < ap.len() && ap[k] == id;
                    assert(ap.push(s[n].0)[k] == id);
                }
                if s[n].0 == id {
                    assert(ap.push(s[n].0)[ap.len() as int] == id);
                }
            }
        } else {
            assert(answers_for(s, q) == ap);
        }
    }
}

} // verus!
