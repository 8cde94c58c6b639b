//! Which DNS records each user owns, by provider key, so that the API can
//! check ownership without scanning all records.

use vstd::prelude::*;
use crate::dns::record::{Record, RecordView};
use crate::dns::{Key, KeyView};
use crate::entries::{keys_unique, lemma_to_map_lookup, lemma_to_map_push, lemma_to_map_update, to_map};
use crate::text::str_eq;

verus! {

/// Keys other than `key`.
pub open spec fn other_than(key: KeyView) -> spec_fn(KeyView) -> bool {
    |k: KeyView| k != key
}

pub open spec fn keys_view(v: Seq<Key>) -> Seq<KeyView> {
    v.map_values(|k: Key| k@)
}

pub open spec fn owner_entry(e: (String, Vec<Key>)) -> (Seq<char>, Seq<KeyView>) {
    (e.0@, keys_view(e.1@))
}

/// The keys of a user in an ownership map (none if the user has no entry).
pub open spec fn keys_in(m: Map<Seq<char>, Seq<KeyView>>, user: Seq<char>) -> Seq<KeyView> {
    if m.dom().contains(user) {
        m[user]
    } else {
        Seq::empty()
    }
}

/// A key just recorded for a user is owned by that user, and what other
/// users own is unchanged.
pub proof fn lemma_added_key_owned(m: Map<Seq<char>, Seq<KeyView>>, user: Seq<char>, key: KeyView, other: Seq<char>)
    ensures
        keys_in(m.insert(user, keys_in(m, user).push(key)), user).contains(key),
        other != user ==> keys_in(m.insert(user, keys_in(m, user).push(key)), other) == keys_in(m, other),
{
    let k = keys_in(m, user).push(key);
    assert(k[k.len() - 1] == key);
}

/// A key removed from a user is no longer owned by that user.
pub proof fn lemma_removed_key_not_owned(m: Map<Seq<char>, Seq<KeyView>>, user: Seq<char>, key: KeyView)
    ensures
        !keys_in(m.insert(user, keys_in(m, user).filter(other_than(key))), user).contains(key),
{
    let f = keys_in(m, user).filter(other_than(key));
    broadcast use vstd::seq_lib::group_filter_ensures;
    if f.contains(key) {
        let i = choose|i: int| 0 <= i < f.len() && f[i] == key;
        assert(other_than(key)(f[i]));
    }
}

/// The keys each user owns.
pub struct DnsService {
    user_records: Vec<(String, Vec<Key>)>,
}

impl DnsService {
    spec fn entries(&self) -> Seq<(Seq<char>, Seq<KeyView>)> {
        self.user_records@.map_values(|e: (String, Vec<Key>)| owner_entry(e))
    }

    /// Each user's keys, in the order they were added.
    pub closed spec fn owned(&self) -> Map<Seq<char>, Seq<KeyView>> {
        to_map(self.entries())
    }

    pub closed spec fn wf(&self) -> bool {
        keys_unique(self.entries())
    }

    /// The keys of a user (none if the user has no entry).
    pub open spec fn keys_of(&self, user: Seq<char>) -> Seq<KeyView> {
        keys_in(self.owned(), user)
    }

    pub fn new() -> (r: Self)
        ensures
            r.wf(),
            r.owned() == Map::<Seq<char>, Seq<KeyView>>::empty(),
    {
        let r = DnsService { user_records: Vec::new() };
        proof {
            assert(r.entries() =~= Seq::<(Seq<char>, Seq<KeyView>)>::empty());
            assert(r.owned() =~= Map::<Seq<char>, Seq<KeyView>>::empty());
        }
        r
    }

    fn find_user(&self, user_id: &str) -> (r: Option<usize>)
        ensures
            match r {
                Some(i) => i < self.entries().len() && self.entries()[i as int].0 == user_id@,
                None => forall|i: int| 0 <= i < self.entries().len() ==> #[trigger] self.entries()[i].0 != user_id@,
            },
    {
        let mut i: usize = 0;
        while i < self.user_records.len()
            invariant
                i <= self.user_records@.len(),
                forall|j: int| 0 <= j < i ==> #[trigger] self.entries()[j].0 != user_id@,
            decreases self.user_records@.len() - i,
        {
            if str_eq(self.user_records[i].0.as_str(), user_id) {
                return Some(i);
            }
            i = i + 1;
        }
        None
    }

    fn has_key(keys: &Vec<Key>, key: &Key) -> (r: bool)
        ensures
            r == keys_view(keys@).contains(key@),
    {
        let mut i: usize = 0;
        while i < keys.len()
            invariant
                i <= keys@.len(),
                forall|j: int| 0 <= j < i ==> keys_view(keys@)[j] != key@,
            decreases keys@.len() - i,
        {
            if keys[i].same_as(key) {
                assert(keys_view(keys@)[i as int] == key@);
                return true;
            }
            i = i + 1;
        }
        false
    }

    /// Whether a user owns a key.
    pub fn user_owns_key(&self, user_id: &str, key: &Key) -> (r: bool)
        requires
            self.wf(),
        ensures
            r == self.keys_of(user_id@).contains(key@),
    {
        proof {
            lemma_to_map_lookup(self.entries(), user_id@);
        }
        match self.find_user(user_id) {
            Some(i) => {
                assert(self.entries()[i as int] == owner_entry(self.user_records@[i as int]));
                Self::has_key(&self.user_records[i].1, key)
            },
            None => false,
        }
    }

    /// Records that a user now owns a key (appended to the user's keys).
    pub fn add_user_key(&mut self, user_id: &str, key: Key)
        requires
            old(self).wf(),
        ensures
            final(self).wf(),
            final(self).owned() == old(self).owned().insert(user_id@, old(self).keys_of(user_id@).push(key@)),
    {
        let ghost e = self.entries();
        proof {
            lemma_to_map_lookup(e, user_id@);
        }
        match self.find_user(user_id) {
            Some(i) => {
                let mut entry = self.user_records.remove(i);
                let ghost kv = keys_view(entry.1@);
                let ghost k = key@;
                entry.1.push(key);
                self.user_records.insert(i, entry);
                proof {
                    assert(e[i as int] == owner_entry(old(self).user_records@[i as int]));
                    assert(keys_view(entry.1@) =~= kv.push(k));
                    assert(self.entries() =~= e.update(i as int, (e[i as int].0, kv.push(k))));
                    lemma_to_map_update(e, i as int, kv.push(k));
                }
            },
            None => {
                let ghost k = key@;
                let mut keys: Vec<Key> = Vec::new();
                keys.push(key);
                self.user_records.push((String::from_str(user_id), keys));
                proof {
                    assert(keys_view(keys@) =~= seq![k]);
                    assert(Seq::<KeyView>::empty().push(k) =~= seq![k]);
                    assert(self.entries() =~= e.push((user_id@, seq![k])));
                    lemma_to_map_push(e, user_id@, seq![k]);
                }
            },
        }
    }

    /// Stops tracking a key of a user: every copy of it goes. `false` (and no
    /// change) when the user does not own the key.
    pub fn remove_user_key(&mut self, user_id: &str, key: &Key) -> (r: bool)
        requires
            old(self).wf(),
        ensures
            final(self).wf(),
            r == old(self).keys_of(user_id@).contains(key@),
            r ==> final(self).owned() == old(self).owned().insert(
                user_id@,
                old(self).keys_of(user_id@).filter(other_than(key@)),
            ),
            !r ==> final(self).owned() == old(self).owned(),
    {
        let ghost e = self.entries();
        proof {
            lemma_to_map_lookup(e, user_id@);
        }
        match self.find_user(user_id) {
            Some(i) => {
                proof {
                    assert(e[i as int] == owner_entry(self.user_records@[i as int]));
                }
                if !Self::has_key(&self.user_records[i].1, key) {
                    return false;
                }
                let mut entry = self.user_records.remove(i);
                let ghost kv = keys_view(entry.1@);
                let kept = Self::without_key(&entry.1, key);
                entry.1 = kept;
                self.user_records.insert(i, entry);
                proof {
                    let f = kv.filter(other_than(key@));
                    assert(keys_view(entry.1@) == f);
                    assert(self.entries() =~= e.update(i as int, (e[i as int].0, f)));
                    lemma_to_map_update(e, i as int, f);
                }
                true
            },
            None => false,
        }
    }

    fn without_key(keys: &Vec<Key>, key: &Key) -> (r: Vec<Key>)
        ensures
            keys_view(r@) == keys_view(keys@).filter(other_than(key@)),
    {
        let ghost kv = keys_view(keys@);
        let mut out: Vec<Key> = Vec::new();
        let mut i: usize = 0;
        proof {
            reveal(Seq::filter);
            assert(kv.take(0).filter(other_than(key@)) =~= Seq::<KeyView>::empty());
            assert(keys_view(out@) =~= Seq::<KeyView>::empty());
        }
        while i < keys.len()
            invariant
                kv == keys_view(keys@),
                i <= keys@.len(),
                keys_view(out@) == kv.take(i as int).filter(other_than(key@)),
            decreases keys@.len() - i,
        {
            proof {
                assert(kv.take(i + 1).drop_last() =~= kv.take(i as int));
                assert(kv.take(i + 1).last() == kv[i as int]);
            }
            let ghost before = keys_view(out@);
            if !keys[i].same_as(key) {
                out.push(keys[i].clone());
                proof {
                    assert(keys_view(out@) =~= before.push(kv[i as int]));
                }
            }
            proof {
                reveal(Seq::filter);
                assert(kv.take(i + 1).filter(other_than(key@)) == if kv[i as int] != key@ {
                    kv.take(i as int).filter(other_than(key@)).push(kv[i as int])
                } else {
                    kv.take(i as int).filter(other_than(key@))
                });
            }
            i = i + 1;
        }
        proof {
            assert(kv.take(keys@.len() as int) =~= kv);
        }
        out
    }
}


pub open spec fn pair_view(p: (Key, Record)) -> (KeyView, RecordView) {
    (p.0@, p.1@)
}

pub open spec fn pairs_view(v: Seq<(Key, Record)>) -> Seq<(KeyView, RecordView)> {
    v.map_values(|p: (Key, Record)| pair_view(p))
}

/// The listed records whose key is among `keys`, in listing order.
pub open spec fn owned_records(all: Seq<(KeyView, RecordView)>, keys: Seq<KeyView>) -> Seq<(KeyView, RecordView)>
    decreases all.len(),
{
    if all.len() == 0 {
        Seq::empty()
    } else {
        let p = owned_records(all.drop_last(), keys);
        if keys.contains(all.last().0) {
            p.push(all.last())
        } else {
            p
        }
    }
}

/// A listed record with one of `keys` that equals `record` in every field.
pub open spec fn owned_match(p: (KeyView, RecordView), keys: Seq<KeyView>, record: RecordView) -> bool {
    keys.contains(p.0) && p.1 == record
}

/// Whether two records are equal in every field.
pub fn same_record(a: &Record, b: &Record) -> (r: bool)
    ensures
        r == (a@ == b@),
{
    let p = match (a.priority, b.priority) {
        (Some(x), Some(y)) => x == y,
        (None, None) => true,
        _ => false,
    };
    str_eq(a.name.as_str(), b.name.as_str()) && a.record_type == b.record_type && str_eq(
        a.content.as_str(),
        b.content.as_str(),
    ) && a.ttl_seconds == b.ttl_seconds && p
}

impl DnsService {
    /// The listed records that the user owns, in listing order.
    pub fn user_records(&self, user_id: &str, all: &Vec<(Key, Record)>) -> (r: Vec<(Key, Record)>)
        requires
            self.wf(),
        ensures
            pairs_view(r@) == owned_records(pairs_view(all@), self.keys_of(user_id@)),
    {
        let ghost av = pairs_view(all@);
        let ghost keys = self.keys_of(user_id@);
        let mut out: Vec<(Key, Record)> = Vec::new();
        let mut i: usize = 0;
        proof {
            assert(av.take(0) =~= Seq::<(KeyView, RecordView)>::empty());
            assert(pairs_view(out@) =~= Seq::<(KeyView, RecordView)>::empty());
        }
        while i < all.len()
            invariant
                self.wf(),
                av == pairs_view(all@),
                keys == self.keys_of(user_id@),
                i <= all@.len(),
                pairs_view(out@) == owned_records(av.take(i as int), keys),
            decreases all@.len() - i,
        {
            proof {
                assert(av.take(i + 1).drop_last() =~= av.take(i as int));
                assert(av.take(i + 1).last() == av[i as int]);
                assert(av[i as int] == (all@[i as int].0@, all@[i as int].1@));
            }
            if self.user_owns_key(user_id, &all[i].0) {
                let ghost before = pairs_view(out@);
                out.push((all[i].0.clone(), all[i].1.clone()));
                proof {
                    assert(pairs_view(out@) =~= before.push(av[i as int]));
                }
            }
            i = i + 1;
        }
        proof {
            assert(av.take(all@.len() as int) =~= av);
        }
        out
    }

    /// The key of the first listed record that the user owns and that equals
    /// `record` in every field.
    pub fn matching_owned_key(&self, user_id: &str, all: &Vec<(Key, Record)>, record: &Record) -> (r: Option<Key>)
        requires
            self.wf(),
        ensures
            match r {
                Some(k) => exists|i: int|
                    0 <= i < all@.len() && owned_match(pairs_view(all@)[i], self.keys_of(user_id@), record@) && k@
                        == all@[i].0@ && forall|j: int|
                        0 <= j < i ==> !owned_match(#[trigger] pairs_view(all@)[j], self.keys_of(user_id@), record@),
                None => forall|i: int|
                    0 <= i < all@.len() ==> !owned_match(#[trigger] pairs_view(all@)[i], self.keys_of(user_id@), record@),
            },
    {
        let ghost av = pairs_view(all@);
        let ghost keys = self.keys_of(user_id@);
        let mut i: usize = 0;
        while i < all.len()
            invariant
                self.wf(),
                av == pairs_view(all@),
                keys == self.keys_of(user_id@),
                i <= all@.len(),
                forall|j: int| 0 <= j < i ==> !owned_match(#[trigger] av[j], keys, record@),
            decreases all@.len() - i,
        {
            proof {
                assert(av[i as int] == (all@[i as int].0@, all@[i as int].1@));
            }
            if same_record(&all[i].1, record) && self.user_owns_key(user_id, &all[i].0) {
                return Some(all[i].0.clone());
            }
            i = i + 1;
        }
        None
    }
}

} // verus!
