//! Records kept in a `BTreeMap` by id, and their listing in id order.

use vstd::prelude::*;
use std::collections::BTreeMap;
use vstd::std_specs::iter::IteratorSpec;
use crate::dns::record::{Record, RecordView};

verus! {

broadcast use vstd::std_specs::btree::group_btree_axioms, vstd::laws_cmp::group_laws_cmp;

/// `s` lists the records of `m` in id order: ids strictly increase, each
/// entry is `m`'s record under that id, and every id of `m` is listed.
pub open spec fn lists(s: Seq<(u64, RecordView)>, m: Map<u64, Record>) -> bool {
    &&& forall|i: int, j: int| 0 <= i < j < s.len() ==> (#[trigger] s[i]).0 < (#[trigger] s[j]).0
    &&& forall|i: int| 0 <= i < s.len() ==> m.contains_key((#[trigger] s[i]).0) && m[s[i].0]@ == s[i].1
    &&& forall|k: u64| #[trigger] m.contains_key(k) ==> exists|i: int| 0 <= i < s.len() && (#[trigger] s[i]).0 == k
}

/// The map's records in id order (the listing is unique, see
/// `lemma_lists_unique`).
pub open spec fn listing_of(m: Map<u64, Record>) -> Seq<(u64, RecordView)> {
    choose|s: Seq<(u64, RecordView)>| lists(s, m)
}

/// A map has at most one listing.
pub proof fn lemma_lists_unique(s1: Seq<(u64, RecordView)>, s2: Seq<(u64, RecordView)>, m: Map<u64, Record>)
    requires
        lists(s1, m),
        lists(s2, m),
    ensures
        s1 == s2,
    decreases s1.len(),
{
    if s1.len() == 0 {
        if s2.len() > 0 {
            let k = s2[0].0;
            assert(m.contains_key(k));
            let i = choose|i: int| 0 <= i < s1.len() && (#[trigger] s1[i]).0 == k;
        }
        assert(s1 =~= s2);
    } else {
        let k1 = s1[0].0;
        assert(m.contains_key(k1));
        let j = choose|j: int| 0 <= j < s2.len() && (#[trigger] s2[j]).0 == k1;
        let k2 = s2[0].0;
        assert(m.contains_key(k2));
        let i = choose|i: int| 0 <= i < s1.len() && (#[trigger] s1[i]).0 == k2;
        if j > 0 {
            assert(s2[0].0 < s2[j].0);
        }
        if i > 0 {
            assert(s1[0].0 < s1[i].0);
        }
        assert(k1 == k2);
        let m2 = m.remove(k1);
        let t1 = s1.drop_first();
        let t2 = s2.drop_first();
        assert forall|k: u64| #[trigger] m2.contains_key(k) implies exists|i: int| 0 <= i < t1.len() && (#[trigger] t1[i]).0 == k by {
            let a = choose|a: int| 0 <= a < s1.len() && (#[trigger] s1[a]).0 == k;
            assert(a != 0);
            assert(t1[a - 1].0 == k);
        }
        assert forall|k: u64| #[trigger] m2.contains_key(k) implies exists|i: int| 0 <= i < t2.len() && (#[trigger] t2[i]).0 == k by {
            let a = choose|a: int| 0 <= a < s2.len() && (#[trigger] s2[a]).0 == k;
            assert(a != 0);
            assert(t2[a - 1].0 == k);
        }
        assert forall|a: int| 0 <= a < t1.len() implies m2.contains_key((#[trigger] t1[a]).0) && m2[t1[a].0]@ == t1[a].1 by {
            assert(t1[a] == s1[a + 1]);
            assert(s1[0].0 < s1[a + 1].0);
        }
        assert forall|a: int| 0 <= a < t2.len() implies m2.contains_key((#[trigger] t2[a]).0) && m2[t2[a].0]@ == t2[a].1 by {
            assert(t2[a] == s2[a + 1]);
            assert(s2[0].0 < s2[a + 1].0);
        }
        assert forall|a: int, b: int| 0 <= a < b < t1.len() implies (#[trigger] t1[a]).0 < (#[trigger] t1[b]).0 by {
            assert(t1[a] == s1[a + 1] && t1[b] == s1[b + 1]);
        }
        assert forall|a: int, b: int| 0 <= a < b < t2.len() implies (#[trigger] t2[a]).0 < (#[trigger] t2[b]).0 by {
            assert(t2[a] == s2[a + 1] && t2[b] == s2[b + 1]);
        }
        lemma_lists_unique(t1, t2, m2);
        assert(s1[0] == s2[0]);
        assert(s1 =~= seq![s1[0]] + t1);
        assert(s2 =~= seq![s2[0]] + t2);
    }
}

/// A listing of a map is the map's listing.
pub proof fn lemma_listing_of(s: Seq<(u64, RecordView)>, m: Map<u64, Record>)
    requires
        lists(s, m),
    ensures
        listing_of(m) == s,
{
    lemma_lists_unique(listing_of(m), s, m);
}

/// `u64` keys are ordered as numbers, as `BTreeMap` needs.
pub open spec fn u64_keys_ordered() -> bool {
    vstd::laws_cmp::obeys_cmp::<u64>()
}

pub proof fn lemma_u64_keys_ordered()
    ensures
        u64_keys_ordered(),
{
}

proof fn lemma_increasing_u64(ks: Seq<u64>)
    requires
        vstd::std_specs::btree::increasing_seq(ks),
    ensures
        forall|i: int, j: int| 0 <= i < j < ks.len() ==> ks[i] < ks[j],
{
    assert(vstd::laws_cmp::obeys_cmp::<u64>());
    assert forall|i: int, j: int| 0 <= i < j < ks.len() implies ks[i] < ks[j] by {
        assert(vstd::std_specs::cmp::OrdSpec::cmp_spec(&ks[i], &ks[j]) is Less);
    }
}

/// The records of a map with their ids, in id order.
pub fn ordered_entries(m: &BTreeMap<u64, Record>) -> (r: Vec<(u64, Record)>)
    ensures
        lists(crate::dns::hickory::store_view(r@), m@),
{
    let mut out: Vec<(u64, Record)> = Vec::new();
    let iter = m.iter();
    let ghost rem = iter.remaining();
    proof {
        lemma_increasing_u64(rem.map_values(|kv: (&u64, &Record)| *kv.0));
    }
    for kv in it: iter
        invariant
            it.seq() == rem,
            forall|i: int| 0 <= i < rem.len() ==> m@.contains_key(*(#[trigger] rem[i]).0) && m@[*rem[i].0]
                == *rem[i].1,
            out@.len() == it.index(),
            forall|i: int| 0 <= i < out@.len() ==> (#[trigger] out@[i]).0 == *rem[i].0 && out@[i].1@
                == (*rem[i].1)@,
    {
        let (k, v) = kv;
        out.push((*k, v.clone()));
    }
    proof {
        let ks = rem.map_values(|kv: (&u64, &Record)| *kv.0);
        let e = crate::dns::hickory::store_view(out@);
        assert forall|i: int, j: int| 0 <= i < j < e.len() implies (#[trigger] e[i]).0 < (#[trigger] e[j]).0 by {
            assert(ks[i] == e[i].0 && ks[j] == e[j].0);
        }
        assert forall|i: int| 0 <= i < e.len() implies m@.contains_key((#[trigger] e[i]).0) && m@[e[i].0]@ == e[i].1 by {
            assert(e[i] == (out@[i].0, out@[i].1@));
        }
        assert forall|k: u64| #[trigger] m@.contains_key(k) implies exists|i: int| 0 <= i < e.len() && (#[trigger] e[i]).0 == k by {
            assert(rem.contains((&k, &m@[k])));
            let i = choose|i: int| 0 <= i < rem.len() && rem[i] == (&k, &m@[k]);
            assert(e[i].0 == k);
        }
    }
    out
}

} // verus!
