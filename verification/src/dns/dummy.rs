//! The in-memory provider.

use vstd::prelude::*;
use crate::dns::record::{Record, RecordView};
use crate::text::{concat, dec_seq, u64_to_decimal};

verus! {

/// Configuration of the in-memory provider: its initial records.
pub struct Config {
    pub entries: Vec<Record>,
}

#[derive(Clone, Copy, PartialEq, Eq, Debug, Structural)]
pub enum Error {
    RecordNotFound(usize),
}

pub open spec fn error_message(e: Error) -> Seq<char> {
    match e {
        Error::RecordNotFound(k) => "Record id not found: "@ + dec_seq(k as nat),
    }
}

impl Error {
    pub fn message(&self) -> (r: String)
        ensures
            r@ == error_message(*self),
    {
        match self {
            Error::RecordNotFound(k) => {
                let d = u64_to_decimal(*k as u64);
                concat("Record id not found: ", d.as_str())
            },
        }
    }
}


pub open spec fn slot_view(e: Option<Record>) -> Option<RecordView> {
    match e {
        Some(r) => Some(r@),
        None => None,
    }
}

pub open spec fn slots_view(v: Seq<Option<Record>>) -> Seq<Option<RecordView>> {
    v.map_values(|e: Option<Record>| slot_view(e))
}

/// The slots of a provider created with the records `v`.
pub open spec fn initial_slots(v: Seq<Record>) -> Seq<Option<RecordView>> {
    v.map_values(|e: Record| Some(e@))
}

/// A slot that holds a record with the same name and type as `r`.
pub open spec fn same_slot(e: Option<RecordView>, r: RecordView) -> bool {
    e matches Some(x) && x.name == r.name && x.record_type == r.record_type
}

/// First slot at or after `i` holding a record with `r`'s name and type.
pub open spec fn first_same(s: Seq<Option<RecordView>>, r: RecordView, i: int) -> Option<int>
    decreases s.len() - i,
{
    if i < 0 || i >= s.len() {
        None
    } else if same_slot(s[i], r) {
        Some(i)
    } else {
        first_same(s, r, i + 1)
    }
}

/// First empty slot at or after `i`.
pub open spec fn first_empty(s: Seq<Option<RecordView>>, i: int) -> Option<int>
    decreases s.len() - i,
{
    if i < 0 || i >= s.len() {
        None
    } else if s[i] is None {
        Some(i)
    } else {
        first_empty(s, i + 1)
    }
}

/// The occupied slots with their indices, in order.
pub open spec fn listing(s: Seq<Option<RecordView>>) -> Seq<(nat, RecordView)>
    decreases s.len(),
{
    if s.len() == 0 {
        Seq::empty()
    } else {
        let rest = listing(s.drop_last());
        match s.last() {
            Some(r) => rest.push(((s.len() - 1) as nat, r)),
            None => rest,
        }
    }
}

/// Slots and key after adding `r`: a record with the same name and type is
/// overwritten in place, otherwise the first empty slot is filled, otherwise
/// a slot is appended; the key is the slot's index.
pub open spec fn add_outcome(s: Seq<Option<RecordView>>, r: RecordView) -> (Seq<Option<RecordView>>, nat) {
    match first_same(s, r, 0) {
        Some(j) => (s.update(j, Some(r)), j as nat),
        None => match first_empty(s, 0) {
            Some(j) => (s.update(j, Some(r)), j as nat),
            None => (s.push(Some(r)), s.len()),
        },
    }
}

/// A DNS provider that keeps its records in memory; keys are slot indices.
pub struct DummyDns {
    entries: Vec<Option<Record>>,
}

impl View for DummyDns {
    type V = Seq<Option<RecordView>>;

    closed spec fn view(&self) -> Seq<Option<RecordView>> {
        self.entries@.map_values(|e: Option<Record>| slot_view(e))
    }
}

proof fn lemma_first_same_bounds(s: Seq<Option<RecordView>>, r: RecordView, i: int)
    ensures
        first_same(s, r, i) matches Some(k) ==> i <= k < s.len() && same_slot(s[k], r),
    decreases s.len() - i,
{
    if 0 <= i < s.len() && !same_slot(s[i], r) {
        lemma_first_same_bounds(s, r, i + 1);
    }
}

proof fn lemma_first_empty_bounds(s: Seq<Option<RecordView>>, i: int)
    ensures
        first_empty(s, i) matches Some(k) ==> i <= k < s.len() && s[k] is None,
    decreases s.len() - i,
{
    if 0 <= i < s.len() && s[i] is Some {
        lemma_first_empty_bounds(s, i + 1);
    }
}

fn same_name_and_type(e: &Option<Record>, r: &Record) -> (b: bool)
    ensures
        b == same_slot(slot_view(*e), r@),
{
    match e {
        Some(x) => x.name == r.name && x.record_type == r.record_type,
        None => false,
    }
}

impl DummyDns {
    /// Creates the provider with the configured records.
    pub fn new(config: Config) -> (r: Result<DummyDns, Error>)
        ensures
            r matches Ok(d) && d@ == initial_slots(config.entries@),
    {
        let entries = config.entries;
        let mut slots: Vec<Option<Record>> = Vec::new();
        let mut i: usize = 0;
        while i < entries.len()
            invariant
                i <= entries.len(),
                slots_view(slots@) == initial_slots(entries@.subrange(0, i as int)),
            decreases entries.len() - i,
        {
            let e = entries[i].clone();
            let ghost before = slots@;
            slots.push(Some(e));
            proof {
                assert(entries@.subrange(0, i + 1) =~= entries@.subrange(0, i as int).push(
                    entries@[i as int],
                ));
                assert(slots@ =~= before.push(Some(e)));
                assert(e@ == entries@[i as int]@);
                assert(slots_view(slots@) =~= slots_view(before).push(Some(e@)));
                assert(initial_slots(entries@.subrange(0, i + 1)) =~= initial_slots(
                    entries@.subrange(0, i as int),
                ).push(Some(entries@[i as int]@)));
                assert(slots_view(slots@) =~= initial_slots(entries@.subrange(0, i + 1)));
            }
            i = i + 1;
        }
        proof {
            assert(entries@.subrange(0, entries@.len() as int) =~= entries@);
        }
        let d = DummyDns { entries: slots };
        proof {
            assert(d@ =~= slots_view(slots@));
        }
        Ok(d)
    }

    /// Adds a record; a record with the same name and type is overwritten.
    pub fn add_record(&mut self, record: Record) -> (r: Result<usize, Error>)
        ensures
            final(self)@ == add_outcome(old(self)@, record@).0,
            r == Ok::<usize, Error>(add_outcome(old(self)@, record@).1 as usize),
    {
        let ghost s = self@;
        let ghost rv = record@;
        proof {
            lemma_first_same_bounds(s, rv, 0);
            lemma_first_empty_bounds(s, 0);
        }
        let mut i: usize = 0;
        while i < self.entries.len()
            invariant
                self@ == s,
                s == old(self)@,
                record@ == rv,
                i <= self.entries.len(),
                first_same(s, rv, 0) == first_same(s, rv, i as int),
            decreases self.entries.len() - i,
        {
            let is_same = same_name_and_type(&self.entries[i], &record);
            if is_same {
                self.entries.set(i, Some(record));
                proof {
                    assert(self@ =~= s.update(i as int, Some(rv)));
                }
                return Ok(i);
            }
            i = i + 1;
        }
        let mut j: usize = 0;
        while j < self.entries.len()
            invariant
                self@ == s,
                s == old(self)@,
                record@ == rv,
                j <= self.entries.len(),
                first_same(s, rv, 0) is None,
                first_empty(s, 0) == first_empty(s, j as int),
            decreases self.entries.len() - j,
        {
            if self.entries[j].is_none() {
                self.entries.set(j, Some(record));
                proof {
                    assert(self@ =~= s.update(j as int, Some(rv)));
                }
                return Ok(j);
            }
            j = j + 1;
        }
        self.entries.push(Some(record));
        proof {
            assert(self@ =~= s.push(Some(rv)));
        }
        Ok(self.entries.len() - 1)
    }

    /// Empties the slot of a key.
    pub fn delete_record(&mut self, key: usize) -> (r: Result<(), Error>)
        ensures
            key < old(self)@.len() ==> r is Ok && final(self)@ == old(self)@.update(key as int, None),
            key >= old(self)@.len() ==> r == Err::<(), Error>(Error::RecordNotFound(key))
                && final(self)@ == old(self)@,
    {
        if key < self.entries.len() {
            self.entries.set(key, None);
            proof {
                assert(self@ =~= old(self)@.update(key as int, None));
            }
            Ok(())
        } else {
            Err(Error::RecordNotFound(key))
        }
    }

    /// All records with their keys, in key order.
    pub fn list_records(&self) -> (r: Result<Vec<(usize, Record)>, Error>)
        ensures
            r matches Ok(v) && v@.map_values(|p: (usize, Record)| (p.0 as nat, p.1@)) == listing(self@),
    {
        let mut out: Vec<(usize, Record)> = Vec::new();
        let mut i: usize = 0;
        while i < self.entries.len()
            invariant
                i <= self.entries.len(),
                out@.map_values(|p: (usize, Record)| (p.0 as nat, p.1@)) =~= listing(
                    self@.take(i as int),
                ),
            decreases self.entries.len() - i,
        {
            proof {
                assert(self@.take(i + 1).drop_last() =~= self@.take(i as int));
            }
            match &self.entries[i] {
                Some(r) => {
                    out.push((i, r.clone()));
                },
                None => {},
            }
            i = i + 1;
        }
        proof {
            assert(self@.take(self@.len() as int) =~= self@);
        }
        Ok(out)
    }

    /// Replaces the record in the slot of a key.
    pub fn update_record(&mut self, key: usize, record: Record) -> (r: Result<(), Error>)
        ensures
            key < old(self)@.len() ==> r is Ok && final(self)@ == old(self)@.update(
                key as int,
                Some(record@),
            ),
            key >= old(self)@.len() ==> r == Err::<(), Error>(Error::RecordNotFound(key))
                && final(self)@ == old(self)@,
    {
        if key < self.entries.len() {
            self.entries.set(key, Some(record));
            proof {
                assert(self@ =~= old(self)@.update(key as int, Some(record@)));
            }
            Ok(())
        } else {
            Err(Error::RecordNotFound(key))
        }
    }
}

/// Listing a provider gives each occupied slot with its index, and nothing
/// else.
pub proof fn lemma_listing_member(s: Seq<Option<RecordView>>, i: nat, r: RecordView)
    ensures
        listing(s).contains((i, r)) <==> (i < s.len() && s[i as int] == Some(r)),
    decreases s.len(),
{
    if s.len() > 0 {
        let p = s.drop_last();
        lemma_listing_member(p, i, r);
        let rest = listing(p);
        if i < p.len() {
            assert(p[i as int] == s[i as int]);
        }
        match s.last() {
            Some(x) => {
                let l = rest.push(((s.len() - 1) as nat, x));
                assert(listing(s) == l);
                if l.contains((i, r)) {
                    let k = choose|k: int| 0 <= k < l.len() && l[k] == (i, r);
                    if k < rest.len() {
                        assert(rest[k] == l[k]);
                    }
                }
                if rest.contains((i, r)) {
                    let k = choose|k: int| 0 <= k < rest.len() && rest[k] == (i, r);
                    assert(l[k] == rest[k]);
                }
                if i == s.len() - 1 && s[i as int] == Some(r) {
                    assert(l[rest.len() as int] == (i, r));
                }
            },
            None => {},
        }
    }
}

/// After a record is added, it is listed under the key that adding it
/// returned.
pub proof fn lemma_added_record_listed(s: Seq<Option<RecordView>>, r: RecordView)
    ensures
        listing(add_outcome(s, r).0).contains((add_outcome(s, r).1, r)),
{
    lemma_first_same_bounds(s, r, 0);
    lemma_first_empty_bounds(s, 0);
    let (t, k) = add_outcome(s, r);
    lemma_listing_member(t, k, r);
}

/// After a key's record is deleted, nothing is listed under that key.
pub proof fn lemma_deleted_record_unlisted(s: Seq<Option<RecordView>>, key: nat, r: RecordView)
    requires
        key < s.len(),
    ensures
        !listing(s.update(key as int, None)).contains((key, r)),
{
    lemma_listing_member(s.update(key as int, None), key, r);
}

/// After a key's record is updated, the new record is listed under that key.
pub proof fn lemma_updated_record_listed(s: Seq<Option<RecordView>>, key: nat, r: RecordView)
    requires
        key < s.len(),
    ensures
        listing(s.update(key as int, Some(r))).contains((key, r)),
{
    lemma_listing_member(s.update(key as int, Some(r)), key, r);
}

} // verus!
