//! Planning of the migration from a DNS provider's records to the user
//! database: records grouped by the user they belong to (users in name
//! order), which records to import or delete for a user, which users have
//! no records left, and the summary printed at the end.

use vstd::prelude::*;
use crate::dns::record::{Record, RecordView};
use crate::server::names::{extract_username, username_of_name};
use crate::text::{chars_of, str_eq, dec_seq, u64_to_decimal, parse_unsigned, IntErrorKind, lemma_parse_dec};
use crate::user_database::{DatabaseDnsRecord, DatabaseDnsRecordView, UserEntry, UserView};

verus! {

/// The email given to users created by the migration unless one is entered.
pub open spec fn default_email() -> Seq<char> {
    "im@fckn.gay"@
}

// ------------------------------------------------------------ text order

/// The order of `String`: lexicographic by characters, a proper prefix first.
pub open spec fn lex_lt(a: Seq<char>, b: Seq<char>) -> bool
    decreases a.len(),
{
    if a.len() == 0 {
        b.len() > 0
    } else if b.len() == 0 {
        false
    } else if a[0] != b[0] {
        (a[0] as int) < (b[0] as int)
    } else {
        lex_lt(a.drop_first(), b.drop_first())
    }
}

pub proof fn lemma_lex_irreflexive(a: Seq<char>)
    ensures
        !lex_lt(a, a),
    decreases a.len(),
{
    if a.len() > 0 {
        lemma_lex_irreflexive(a.drop_first());
    }
}

pub proof fn lemma_lex_transitive(a: Seq<char>, b: Seq<char>, c: Seq<char>)
    requires
        lex_lt(a, b),
        lex_lt(b, c),
    ensures
        lex_lt(a, c),
    decreases a.len(),
{
    if a.len() > 0 && b.len() > 0 && c.len() > 0 && a[0] == b[0] && b[0] == c[0] {
        lemma_lex_transitive(a.drop_first(), b.drop_first(), c.drop_first());
    }
}

pub proof fn lemma_lex_total(a: Seq<char>, b: Seq<char>)
    ensures
        a == b || lex_lt(a, b) || lex_lt(b, a),
    decreases a.len(),
{
    if a.len() > 0 && b.len() > 0 && a[0] == b[0] {
        lemma_lex_total(a.drop_first(), b.drop_first());
        if a.drop_first() == b.drop_first() {
            assert(a =~= seq![a[0]] + a.drop_first());
            assert(b =~= seq![b[0]] + b.drop_first());
        }
    }
    if a.len() == 0 && b.len() == 0 {
        assert(a =~= b);
    }
    if a.len() > 0 && b.len() > 0 && a[0] != b[0] {
        assert((a[0] as int) != (b[0] as int));
    }
}

pub proof fn lemma_lex_asymmetric(a: Seq<char>, b: Seq<char>)
    requires
        lex_lt(a, b),
    ensures
        !lex_lt(b, a),
{
    if lex_lt(b, a) {
        lemma_lex_transitive(a, b, a);
        lemma_lex_irreflexive(a);
    }
}

/// Whether `a` sorts before `b`.
pub fn str_less(a: &str, b: &str) -> (r: bool)
    ensures
        r == lex_lt(a@, b@),
{
    let x = chars_of(a);
    let y = chars_of(b);
    let mut i: usize = 0;
    proof {
        assert(a@.skip(0) =~= a@);
        assert(b@.skip(0) =~= b@);
    }
    while i < x.len() && i < y.len() && x[i] == y[i]
        invariant
            i <= x@.len(),
            i <= y@.len(),
            x@ == a@,
            y@ == b@,
            forall|j: int| 0 <= j < i ==> x@[j] == y@[j],
            lex_lt(a@, b@) == lex_lt(a@.skip(i as int), b@.skip(i as int)),
        decreases x@.len() - i,
    {
        proof {
            let s = a@.skip(i as int);
            let t = b@.skip(i as int);
            assert(s.drop_first() =~= a@.skip(i + 1));
            assert(t.drop_first() =~= b@.skip(i + 1));
        }
        i = i + 1;
    }
    let ghost s = a@.skip(i as int);
    if i == x.len() {
        proof {
            assert(a@.skip(i as int).len() == 0);
        }
        i < y.len()
    } else if i == y.len() {
        false
    } else {
        x[i] < y[i]
    }
}

pub open spec fn sorted_names(v: Seq<Seq<char>>) -> bool {
    forall|a: int, b: int| 0 <= a < b < v.len() ==> lex_lt(#[trigger] v[a], #[trigger] v[b])
}

// ---------------------------------------------------------- grouping

pub open spec fn entry_view(e: (String, Record)) -> (Seq<char>, RecordView) {
    (e.0@, e.1@)
}

pub open spec fn entries_view(v: Seq<(String, Record)>) -> Seq<(Seq<char>, RecordView)> {
    v.map_values(|e: (String, Record)| entry_view(e))
}

/// The user an upstream record belongs to.
pub open spec fn owner(e: (Seq<char>, RecordView), suffix: Seq<char>) -> Option<Seq<char>> {
    username_of_name(e.1.name, suffix)
}

/// The upstream records of a user, in upstream order.
pub open spec fn records_of(es: Seq<(Seq<char>, RecordView)>, suffix: Seq<char>, name: Seq<char>) -> Seq<(Seq<char>, RecordView)>
    decreases es.len(),
{
    if es.len() == 0 {
        Seq::empty()
    } else {
        let p = records_of(es.drop_last(), suffix, name);
        if owner(es.last(), suffix) == Some(name) {
            p.push(es.last())
        } else {
            p
        }
    }
}

/// How many upstream records belong to no user.
pub open spec fn skipped_count(es: Seq<(Seq<char>, RecordView)>, suffix: Seq<char>) -> nat
    decreases es.len(),
{
    if es.len() == 0 {
        0
    } else {
        skipped_count(es.drop_last(), suffix) + if owner(es.last(), suffix) is None {
            1nat
        } else {
            0nat
        }
    }
}

pub open spec fn names_view(v: Seq<String>) -> Seq<Seq<char>> {
    v.map_values(|s: String| s@)
}

/// Upstream records grouped by user, users in name order, and the number of
/// records that belong to no user.
pub struct Grouping {
    pub groups: Vec<(String, Vec<(String, Record)>)>,
    pub skipped: u32,
}

pub open spec fn group_names(g: Seq<(String, Vec<(String, Record)>)>) -> Seq<Seq<char>> {
    g.map_values(|x: (String, Vec<(String, Record)>)| x.0@)
}

/// The owner of each upstream record.
fn owners_of(upstream: &Vec<(String, Record)>, suffix: &str) -> (r: Vec<Option<String>>)
    ensures
        r@.len() == upstream@.len(),
        forall|k: int| 0 <= k < r@.len() ==> match owner(entry_view(upstream@[k]), suffix@) {
            Some(u) => #[trigger] r@[k] matches Some(s) && s@ == u,
            None => r@[k] is None,
        },
{
    let mut r: Vec<Option<String>> = Vec::new();
    let mut i: usize = 0;
    while i < upstream.len()
        invariant
            i <= upstream@.len(),
            r@.len() == i,
            forall|k: int| 0 <= k < i ==> match owner(entry_view(upstream@[k]), suffix@) {
                Some(u) => #[trigger] r@[k] matches Some(s) && s@ == u,
                None => r@[k] is None,
            },
        decreases upstream@.len() - i,
    {
        r.push(extract_username(upstream[i].1.name.as_str(), suffix));
        i = i + 1;
    }
    r
}

/// Inserts a name into a sorted list of distinct names, unless present.
fn insert_name(names: &mut Vec<String>, name: String)
    requires
        sorted_names(names_view(old(names)@)),
    ensures
        sorted_names(names_view(final(names)@)),
        names_view(final(names)@).to_set() == names_view(old(names)@).to_set().insert(name@),
{
    let ghost before = names_view(names@);
    let mut p: usize = 0;
    while p < names.len() && str_less(names[p].as_str(), name.as_str())
        invariant
            p <= names@.len(),
            before == names_view(names@),
            forall|j: int| 0 <= j < p ==> lex_lt(#[trigger] before[j], name@),
        decreases names@.len() - p,
    {
        proof {
            assert(before[p as int] == names@[p as int]@);
        }
        p = p + 1;
    }
    if p < names.len() && str_eq(names[p].as_str(), name.as_str()) {
        proof {
            assert(before[p as int] == name@);
            assert(before.to_set().insert(name@) =~= before.to_set());
        }
        return;
    }
    proof {
        if p < names@.len() {
            assert(before[p as int] == names@[p as int]@);
            lemma_lex_total(before[p as int], name@);
        }
    }
    let ghost nv = name@;
    names.insert(p, name);
    proof {
        let after = names_view(names@);
        assert(after =~= before.insert(p as int, nv));
        assert forall|a: int, b: int| 0 <= a < b < after.len() implies lex_lt(#[trigger] after[a], #[trigger] after[b]) by {
            if b < p {
                assert(after[a] == before[a] && after[b] == before[b]);
            } else if b == p {
                assert(after[a] == before[a]);
            } else if a == p {
                assert(after[b] == before[b - 1]);
                if b - 1 > p {
                    assert(lex_lt(before[p as int], before[b - 1]));
                    lemma_lex_transitive(nv, before[p as int], before[b - 1]);
                }
            } else if a < p {
                assert(after[a] == before[a] && after[b] == before[b - 1]);
                if b - 1 != a {
                }
            } else {
                assert(after[a] == before[a - 1] && after[b] == before[b - 1]);
            }
        }
        assert(after.to_set() =~= before.to_set().insert(nv)) by {
            assert forall|x: Seq<char>| after.to_set().contains(x) <==> before.to_set().insert(nv).contains(x) by {
                if after.to_set().contains(x) {
                    let k = choose|k: int| 0 <= k < after.len() && after[k] == x;
                    if k < p {
                        assert(before[k] == x);
                    } else if k > p {
                        assert(before[k - 1] == x);
                    }
                }
                if before.to_set().contains(x) {
                    let k = choose|k: int| 0 <= k < before.len() && before[k] == x;
                    if k < p {
                        assert(after[k] == x);
                    } else {
                        assert(after[k + 1] == x);
                    }
                }
                if x == nv {
                    assert(after[p as int] == x);
                }
            }
        }
    }
}

/// The users that own at least one of the records.
pub open spec fn owner_set(es: Seq<(Seq<char>, RecordView)>, suffix: Seq<char>) -> Set<Seq<char>> {
    Set::new(|n: Seq<char>| exists|k: int| 0 <= k < es.len() && #[trigger] owner(es[k], suffix) == Some(n))
}

proof fn lemma_owner_set_step(es: Seq<(Seq<char>, RecordView)>, suffix: Seq<char>, i: int)
    requires
        0 <= i < es.len(),
    ensures
        owner_set(es.take(i + 1), suffix) == match owner(es[i], suffix) {
            Some(n) => owner_set(es.take(i), suffix).insert(n),
            None => owner_set(es.take(i), suffix),
        },
{
    let a = es.take(i + 1);
    let b = es.take(i);
    let target = match owner(es[i], suffix) {
        Some(n) => owner_set(b, suffix).insert(n),
        None => owner_set(b, suffix),
    };
    assert forall|n: Seq<char>| owner_set(a, suffix).contains(n) <==> target.contains(n) by {
        if owner_set(a, suffix).contains(n) {
            let k = choose|k: int| 0 <= k < a.len() && #[trigger] owner(a[k], suffix) == Some(n);
            if k < i {
                assert(b[k] == a[k]);
            }
        }
        if owner_set(b, suffix).contains(n) {
            let k = choose|k: int| 0 <= k < b.len() && #[trigger] owner(b[k], suffix) == Some(n);
            assert(a[k] == b[k]);
        }
        if owner(es[i], suffix) == Some(n) {
            assert(a[i] == es[i]);
        }
    }
    assert(owner_set(a, suffix) =~= target);
}

fn copy_entry(e: &(String, Record)) -> (r: (String, Record))
    ensures
        entry_view(r) == entry_view(*e),
{
    (e.0.clone(), e.1.clone())
}

/// The upstream records whose owner is `name`, in order.
fn collect_user(upstream: &Vec<(String, Record)>, owners: &Vec<Option<String>>, suffix: &str, name: &str) -> (r: Vec<
    (String, Record),
>)
    requires
        owners@.len() == upstream@.len(),
        forall|k: int| 0 <= k < owners@.len() ==> match owner(entry_view(upstream@[k]), suffix@) {
            Some(u) => #[trigger] owners@[k] matches Some(s) && s@ == u,
            None => owners@[k] is None,
        },
    ensures
        entries_view(r@) == records_of(entries_view(upstream@), suffix@, name@),
{
    let ghost es = entries_view(upstream@);
    let mut out: Vec<(String, Record)> = Vec::new();
    let mut k: usize = 0;
    proof {
        assert(es.take(0) =~= Seq::<(Seq<char>, RecordView)>::empty());
        assert(entries_view(out@) =~= Seq::<(Seq<char>, RecordView)>::empty());
    }
    while k < upstream.len()
        invariant
            es == entries_view(upstream@),
            owners@.len() == upstream@.len(),
            forall|j: int| 0 <= j < owners@.len() ==> match owner(entry_view(upstream@[j]), suffix@) {
                Some(u) => #[trigger] owners@[j] matches Some(s) && s@ == u,
                None => owners@[j] is None,
            },
            k <= upstream@.len(),
            entries_view(out@) == records_of(es.take(k as int), suffix@, name@),
        decreases upstream@.len() - k,
    {
        proof {
            assert(es.take(k + 1).drop_last() =~= es.take(k as int));
            assert(es.take(k + 1).last() == es[k as int]);
            assert(es[k as int] == entry_view(upstream@[k as int]));
        }
        let hit = match &owners[k] {
            Some(s) => str_eq(s.as_str(), name),
            None => false,
        };
        if hit {
            let ghost before = entries_view(out@);
            out.push(copy_entry(&upstream[k]));
            proof {
                assert(entries_view(out@) =~= before.push(es[k as int]));
            }
        }
        k = k + 1;
    }
    proof {
        assert(es.take(upstream@.len() as int) =~= es);
    }
    out
}

/// Groups upstream records by the user they belong to, users in name order;
/// records of no user are counted.
pub fn group_by_user(upstream: &Vec<(String, Record)>, suffix: &str) -> (r: Grouping)
    requires
        upstream@.len() <= u32::MAX,
    ensures
        sorted_names(group_names(r.groups@)),
        group_names(r.groups@).to_set() == owner_set(entries_view(upstream@), suffix@),
        forall|g: int| 0 <= g < r.groups@.len() ==> entries_view((#[trigger] r.groups@[g]).1@) == records_of(
            entries_view(upstream@),
            suffix@,
            r.groups@[g].0@,
        ),
        r.skipped == skipped_count(entries_view(upstream@), suffix@),
{
    let ghost es = entries_view(upstream@);
    let owners = owners_of(upstream, suffix);
    let mut names: Vec<String> = Vec::new();
    let mut skipped: u32 = 0;
    let mut i: usize = 0;
    proof {
        assert(es.take(0) =~= Seq::<(Seq<char>, RecordView)>::empty());
        assert(owner_set(es.take(0), suffix@) =~= Set::<Seq<char>>::empty());
        assert(names_view(names@).to_set() =~= Set::<Seq<char>>::empty());
    }
    while i < upstream.len()
        invariant
            es == entries_view(upstream@),
            upstream@.len() <= u32::MAX,
            owners@.len() == upstream@.len(),
            forall|k: int| 0 <= k < owners@.len() ==> match owner(entry_view(upstream@[k]), suffix@) {
                Some(u) => #[trigger] owners@[k] matches Some(s) && s@ == u,
                None => owners@[k] is None,
            },
            i <= upstream@.len(),
            sorted_names(names_view(names@)),
            names_view(names@).to_set() == owner_set(es.take(i as int), suffix@),
            skipped as nat == skipped_count(es.take(i as int), suffix@),
            skipped <= i,
        decreases upstream@.len() - i,
    {
        proof {
            assert(es.take(i + 1).drop_last() =~= es.take(i as int));
            assert(es.take(i + 1).last() == es[i as int]);
            assert(es[i as int] == entry_view(upstream@[i as int]));
            lemma_owner_set_step(es, suffix@, i as int);
        }
        match &owners[i] {
            Some(n) => {
                insert_name(&mut names, n.clone());
            },
            None => {
                skipped = skipped + 1;
            },
        }
        i = i + 1;
    }
    proof {
        assert(es.take(upstream@.len() as int) =~= es);
    }
    let mut groups: Vec<(String, Vec<(String, Record)>)> = Vec::new();
    let mut g: usize = 0;
    while g < names.len()
        invariant
            es == entries_view(upstream@),
            owners@.len() == upstream@.len(),
            forall|k: int| 0 <= k < owners@.len() ==> match owner(entry_view(upstream@[k]), suffix@) {
                Some(u) => #[trigger] owners@[k] matches Some(s) && s@ == u,
                None => owners@[k] is None,
            },
            g <= names@.len(),
            groups@.len() == g,
            group_names(groups@) == names_view(names@).take(g as int),
            forall|h: int| 0 <= h < groups@.len() ==> entries_view((#[trigger] groups@[h]).1@) == records_of(
                es,
                suffix@,
                groups@[h].0@,
            ),
        decreases names@.len() - g,
    {
        let recs = collect_user(upstream, &owners, suffix, names[g].as_str());
        let ghost before = groups@;
        let name_copy = names[g].clone();
        assert(name_copy@ == names@[g as int]@);
        assert(before.len() == g);
        groups.push((name_copy, recs));
        proof {
            assert(groups@[g as int].0@ == names@[g as int]@);
            assert(names_view(names@)[g as int] == names@[g as int]@);
            assert(group_names(groups@) =~= group_names(before).push(names@[g as int]@));
            assert(names_view(names@).take(g + 1) =~= names_view(names@).take(g as int).push(names@[g as int]@));
            assert(group_names(groups@) =~= names_view(names@).take(g + 1));
            assert forall|h: int| 0 <= h < groups@.len() implies entries_view((#[trigger] groups@[h]).1@) == records_of(
                es,
                suffix@,
                groups@[h].0@,
            ) by {
                if h < before.len() {
                    assert(groups@[h] == before[h]);
                }
            }
        }
        g = g + 1;
    }
    proof {
        assert(names_view(names@).take(names@.len() as int) =~= names_view(names@));
    }
    Grouping { groups, skipped }
}

// ------------------------------------------------------------- syncing

pub open spec fn dbs_view(v: Seq<DatabaseDnsRecord>) -> Seq<DatabaseDnsRecordView> {
    v.map_values(|r: DatabaseDnsRecord| r@)
}

/// The provider keys the database holds.
pub open spec fn db_keys(rs: Seq<DatabaseDnsRecordView>) -> Set<Seq<char>> {
    Set::new(|k: Seq<char>| exists|i: int| 0 <= i < rs.len() && #[trigger] rs[i].provider_key == k)
}

/// The provider keys upstream.
pub open spec fn upstream_keys(es: Seq<(Seq<char>, RecordView)>) -> Set<Seq<char>> {
    Set::new(|k: Seq<char>| exists|i: int| 0 <= i < es.len() && #[trigger] es[i].0 == k)
}

/// Upstream records whose key the database lacks, in order.
pub open spec fn missing_in_db(es: Seq<(Seq<char>, RecordView)>, keys: Set<Seq<char>>) -> Seq<(Seq<char>, RecordView)>
    decreases es.len(),
{
    if es.len() == 0 {
        Seq::empty()
    } else {
        let p = missing_in_db(es.drop_last(), keys);
        if keys.contains(es.last().0) {
            p
        } else {
            p.push(es.last())
        }
    }
}

/// How many upstream records the database already has.
pub open spec fn present_in_db(es: Seq<(Seq<char>, RecordView)>, keys: Set<Seq<char>>) -> nat
    decreases es.len(),
{
    if es.len() == 0 {
        0
    } else {
        present_in_db(es.drop_last(), keys) + if keys.contains(es.last().0) {
            1nat
        } else {
            0nat
        }
    }
}

/// Database records whose key is gone upstream, in order.
pub open spec fn gone_upstream(rs: Seq<DatabaseDnsRecordView>, keys: Set<Seq<char>>) -> Seq<DatabaseDnsRecordView>
    decreases rs.len(),
{
    if rs.len() == 0 {
        Seq::empty()
    } else {
        let p = gone_upstream(rs.drop_last(), keys);
        if keys.contains(rs.last().provider_key) {
            p
        } else {
            p.push(rs.last())
        }
    }
}

/// What to do for one user: records to import, how many are already in
/// the database, and database records to delete.
pub struct SyncPlan {
    pub import: Vec<(String, Record)>,
    pub already_synced: u32,
    pub delete: Vec<DatabaseDnsRecord>,
}

fn db_has_key(db: &Vec<DatabaseDnsRecord>, key: &str) -> (r: bool)
    ensures
        r == db_keys(dbs_view(db@)).contains(key@),
{
    let ghost rs = dbs_view(db@);
    let mut i: usize = 0;
    while i < db.len()
        invariant
            rs == dbs_view(db@),
            i <= db@.len(),
            forall|j: int| 0 <= j < i ==> (#[trigger] rs[j]).provider_key != key@,
        decreases db@.len() - i,
    {
        assert(rs[i as int] == db@[i as int]@);
        if str_eq(db[i].provider_key.as_str(), key) {
            assert(rs[i as int].provider_key == key@);
            return true;
        }
        i = i + 1;
    }
    false
}

fn upstream_has_key(upstream: &Vec<(String, Record)>, key: &str) -> (r: bool)
    ensures
        r == upstream_keys(entries_view(upstream@)).contains(key@),
{
    let ghost es = entries_view(upstream@);
    let mut i: usize = 0;
    while i < upstream.len()
        invariant
            es == entries_view(upstream@),
            i <= upstream@.len(),
            forall|j: int| 0 <= j < i ==> (#[trigger] es[j]).0 != key@,
        decreases upstream@.len() - i,
    {
        assert(es[i as int] == entry_view(upstream@[i as int]));
        if str_eq(upstream[i].0.as_str(), key) {
            assert(es[i as int].0 == key@);
            return true;
        }
        i = i + 1;
    }
    false
}

/// Compares a user's upstream records with the database's: upstream records
/// whose key the database lacks are to be imported, the others counted as
/// synced, and database records whose key is gone upstream are to be
/// deleted.
pub fn sync_plan(upstream: &Vec<(String, Record)>, db_records: &Vec<DatabaseDnsRecord>) -> (r: SyncPlan)
    requires
        upstream@.len() <= u32::MAX,
    ensures
        entries_view(r.import@) == missing_in_db(entries_view(upstream@), db_keys(dbs_view(db_records@))),
        r.already_synced as nat == present_in_db(entries_view(upstream@), db_keys(dbs_view(db_records@))),
        dbs_view(r.delete@) == gone_upstream(dbs_view(db_records@), upstream_keys(entries_view(upstream@))),
{
    let ghost es = entries_view(upstream@);
    let ghost keys = db_keys(dbs_view(db_records@));
    let mut import: Vec<(String, Record)> = Vec::new();
    let mut synced: u32 = 0;
    let mut i: usize = 0;
    proof {
        assert(es.take(0) =~= Seq::<(Seq<char>, RecordView)>::empty());
        assert(entries_view(import@) =~= Seq::<(Seq<char>, RecordView)>::empty());
    }
    while i < upstream.len()
        invariant
            es == entries_view(upstream@),
            keys == db_keys(dbs_view(db_records@)),
            upstream@.len() <= u32::MAX,
            i <= upstream@.len(),
            entries_view(import@) == missing_in_db(es.take(i as int), keys),
            synced as nat == present_in_db(es.take(i as int), keys),
            synced <= i,
        decreases upstream@.len() - i,
    {
        proof {
            assert(es.take(i + 1).drop_last() =~= es.take(i as int));
            assert(es.take(i + 1).last() == es[i as int]);
            assert(es[i as int] == entry_view(upstream@[i as int]));
        }
        if db_has_key(db_records, upstream[i].0.as_str()) {
            synced = synced + 1;
        } else {
            let ghost before = entries_view(import@);
            import.push(copy_entry(&upstream[i]));
            proof {
                assert(entries_view(import@) =~= before.push(es[i as int]));
            }
        }
        i = i + 1;
    }
    proof {
        assert(es.take(upstream@.len() as int) =~= es);
    }
    let ghost rs = dbs_view(db_records@);
    let ghost ukeys = upstream_keys(es);
    let mut delete: Vec<DatabaseDnsRecord> = Vec::new();
    let mut j: usize = 0;
    proof {
        assert(rs.take(0) =~= Seq::<DatabaseDnsRecordView>::empty());
        assert(dbs_view(delete@) =~= Seq::<DatabaseDnsRecordView>::empty());
    }
    while j < db_records.len()
        invariant
            es == entries_view(upstream@),
            rs == dbs_view(db_records@),
            ukeys == upstream_keys(es),
            j <= db_records@.len(),
            dbs_view(delete@) == gone_upstream(rs.take(j as int), ukeys),
        decreases db_records@.len() - j,
    {
        proof {
            assert(rs.take(j + 1).drop_last() =~= rs.take(j as int));
            assert(rs.take(j + 1).last() == rs[j as int]);
            assert(rs[j as int] == db_records@[j as int]@);
        }
        if !upstream_has_key(upstream, db_records[j].provider_key.as_str()) {
            let ghost before = dbs_view(delete@);
            delete.push(db_records[j].clone());
            proof {
                assert(dbs_view(delete@) =~= before.push(rs[j as int]));
            }
        }
        j = j + 1;
    }
    proof {
        assert(rs.take(db_records@.len() as int) =~= rs);
    }
    SyncPlan { import, already_synced: synced, delete }
}

// ------------------------------------------------------------- orphans

pub open spec fn users_view(v: Seq<UserEntry>) -> Seq<UserView> {
    v.map_values(|u: UserEntry| u@)
}

/// Users whose name owns no upstream record, in order.
pub open spec fn orphans(us: Seq<UserView>, names: Set<Seq<char>>) -> Seq<UserView>
    decreases us.len(),
{
    if us.len() == 0 {
        Seq::empty()
    } else {
        let p = orphans(us.drop_last(), names);
        if names.contains(us.last().username) {
            p
        } else {
            p.push(us.last())
        }
    }
}

fn name_listed(names: &Vec<String>, name: &str) -> (r: bool)
    ensures
        r == names_view(names@).to_set().contains(name@),
{
    let ghost nv = names_view(names@);
    let mut i: usize = 0;
    while i < names.len()
        invariant
            nv == names_view(names@),
            i <= names@.len(),
            forall|j: int| 0 <= j < i ==> #[trigger] nv[j] != name@,
        decreases names@.len() - i,
    {
        assert(nv[i as int] == names@[i as int]@);
        if str_eq(names[i].as_str(), name) {
            assert(nv.to_set().contains(nv[i as int]));
            return true;
        }
        i = i + 1;
    }
    false
}

/// The users of the database that own no upstream record.
pub fn orphaned_users(all_users: &Vec<UserEntry>, upstream_names: &Vec<String>) -> (r: Vec<UserEntry>)
    ensures
        users_view(r@) == orphans(users_view(all_users@), names_view(upstream_names@).to_set()),
{
    let ghost us = users_view(all_users@);
    let ghost names = names_view(upstream_names@).to_set();
    let mut out: Vec<UserEntry> = Vec::new();
    let mut i: usize = 0;
    proof {
        assert(us.take(0) =~= Seq::<UserView>::empty());
        assert(users_view(out@) =~= Seq::<UserView>::empty());
    }
    while i < all_users.len()
        invariant
            us == users_view(all_users@),
            names == names_view(upstream_names@).to_set(),
            i <= all_users@.len(),
            users_view(out@) == orphans(us.take(i as int), names),
        decreases all_users@.len() - i,
    {
        proof {
            assert(us.take(i + 1).drop_last() =~= us.take(i as int));
            assert(us.take(i + 1).last() == us[i as int]);
            assert(us[i as int] == all_users@[i as int]@);
        }
        if !name_listed(upstream_names, all_users[i].username.as_str()) {
            let ghost before = users_view(out@);
            out.push(all_users[i].clone());
            proof {
                assert(users_view(out@) =~= before.push(us[i as int]));
            }
        }
        i = i + 1;
    }
    proof {
        assert(us.take(all_users@.len() as int) =~= us);
    }
    out
}

/// A y/N answer: yes only for `y` or `Y`, whitespace around it ignored.
pub fn confirms(answer: &str) -> (r: bool)
    ensures
        r == (crate::text::lower_seq(crate::text::trim_seq(answer@)) == "y"@),
{
    let t = crate::text::trim(answer);
    let l = crate::text::ascii_lowercase(t.as_str());
    str_eq(l.as_str(), "y")
}

/// A prompted line: trimmed, and `None` when blank.
pub fn prompt_answer(line: &str) -> (r: Option<String>)
    ensures
        crate::text::trim_seq(line@).len() == 0 ==> r is None,
        crate::text::trim_seq(line@).len() != 0 ==> (r matches Some(s) && s@ == crate::text::trim_seq(line@)),
{
    let t = crate::text::trim(line);
    if t.as_str().unicode_len() == 0 {
        None
    } else {
        Some(t)
    }
}

/// The email of a user created by the migration: the one entered, or the
/// default.
pub fn new_user_email(entered: Option<String>) -> (r: String)
    ensures
        match entered {
            Some(e) => r@ == e@,
            None => r@ == default_email(),
        },
{
    match entered {
        Some(e) => e,
        None => String::from_str("im@fckn.gay"),
    }
}

// ------------------------------------------------------------- summary

/// Counts of what the migration did, or would do.
#[derive(Clone, Copy, PartialEq, Eq, Debug, Structural)]
pub struct MigrationStats {
    pub users_created: u32,
    pub users_deleted: u32,
    pub records_imported: u32,
    pub records_already_synced: u32,
    pub records_deleted: u32,
}

pub open spec fn count_line(label: Seq<char>, n: u32) -> Seq<char> {
    label + dec_seq(n as nat)
}

/// The closing summary, one entry per line.
pub open spec fn summary_spec(s: MigrationStats, dry_run: bool) -> Seq<Seq<char>> {
    seq![
        "\n========== "@ + (if dry_run { "dry run"@ } else { "migration"@ }) + " summary =========="@,
        if dry_run { count_line("  users to create:         "@, s.users_created) } else { count_line("  users created:           "@, s.users_created) },
        if dry_run { count_line("  users to delete:         "@, s.users_deleted) } else { count_line("  users deleted:           "@, s.users_deleted) },
        if dry_run { count_line("  records to import:       "@, s.records_imported) } else { count_line("  records imported:        "@, s.records_imported) },
        if dry_run { count_line("  records to delete:       "@, s.records_deleted) } else { count_line("  records deleted:         "@, s.records_deleted) },
        count_line("  records already synced:  "@, s.records_already_synced),
        "========================================"@,
    ]
}

fn count_line_exec(label: &str, n: u32) -> (r: String)
    ensures
        r@ == count_line(label@, n),
{
    concat_str(label, u64_to_decimal(n as u64).as_str())
}

fn concat_str(a: &str, b: &str) -> (r: String)
    ensures
        r@ == a@ + b@,
{
    crate::text::concat(a, b)
}

impl MigrationStats {
    pub fn new() -> (r: Self)
        ensures
            r == (MigrationStats {
                users_created: 0,
                users_deleted: 0,
                records_imported: 0,
                records_already_synced: 0,
                records_deleted: 0,
            }),
    {
        MigrationStats { users_created: 0, users_deleted: 0, records_imported: 0, records_already_synced: 0, records_deleted: 0 }
    }

    /// The lines of the closing summary.
    pub fn summary(&self, dry_run: bool) -> (r: Vec<String>)
        ensures
            names_view(r@) == summary_spec(*self, dry_run),
    {
        let mut v: Vec<String> = Vec::new();
        let mut head = String::from_str("\n========== ");
        head.append(if dry_run { "dry run" } else { "migration" });
        head.append(" summary ==========");
        v.push(head);
        if dry_run {
            v.push(count_line_exec("  users to create:         ", self.users_created));
            v.push(count_line_exec("  users to delete:         ", self.users_deleted));
            v.push(count_line_exec("  records to import:       ", self.records_imported));
            v.push(count_line_exec("  records to delete:       ", self.records_deleted));
        } else {
            v.push(count_line_exec("  users created:           ", self.users_created));
            v.push(count_line_exec("  users deleted:           ", self.users_deleted));
            v.push(count_line_exec("  records imported:        ", self.records_imported));
            v.push(count_line_exec("  records deleted:         ", self.records_deleted));
        }
        v.push(count_line_exec("  records already synced:  ", self.records_already_synced));
        v.push(String::from_str("========================================"));
        proof {
            assert(names_view(v@) =~= summary_spec(*self, dry_run));
        }
        v
    }
}

/// Whether some line of `lines` is `label` followed by a number that reads
/// back (as a `u32`) as `n`.
pub open spec fn reports_count(lines: Seq<Seq<char>>, label: Seq<char>, n: nat) -> bool {
    exists|i: int|
        0 <= i < lines.len() && (#[trigger] lines[i]).len() >= label.len() && lines[i].take(
            label.len() as int,
        ) == label && parse_unsigned(lines[i].skip(label.len() as int), u32::MAX as nat) == Ok::<
            nat,
            IntErrorKind,
        >(n)
}

proof fn lemma_labelled_number(label: Seq<char>, n: u32)
    ensures
        (label + dec_seq(n as nat)).len() >= label.len(),
        (label + dec_seq(n as nat)).take(label.len() as int) == label,
        parse_unsigned((label + dec_seq(n as nat)).skip(label.len() as int), u32::MAX as nat) == Ok::<
            nat,
            IntErrorKind,
        >(n as nat),
{
    assert((label + dec_seq(n as nat)).take(label.len() as int) =~= label);
    assert((label + dec_seq(n as nat)).skip(label.len() as int) =~= dec_seq(n as nat));
    lemma_parse_dec(n as nat, u32::MAX as nat);
}

/// Each counter of the summary is reported under its own label: the number
/// after "users created", "users deleted", "records imported", "records
/// deleted" (or, in a dry run, "users to create", "users to delete",
/// "records to import", "records to delete") and "records already synced"
/// reads back as that very counter.
pub proof fn lemma_summary_reports_each_counter(s: MigrationStats, dry_run: bool)
    ensures
        reports_count(
            summary_spec(s, dry_run),
            if dry_run { "  users to create:         "@ } else { "  users created:           "@ },
            s.users_created as nat,
        ),
        reports_count(
            summary_spec(s, dry_run),
            if dry_run { "  users to delete:         "@ } else { "  users deleted:           "@ },
            s.users_deleted as nat,
        ),
        reports_count(
            summary_spec(s, dry_run),
            if dry_run { "  records to import:       "@ } else { "  records imported:        "@ },
            s.records_imported as nat,
        ),
        reports_count(
            summary_spec(s, dry_run),
            if dry_run { "  records to delete:       "@ } else { "  records deleted:         "@ },
            s.records_deleted as nat,
        ),
        reports_count(summary_spec(s, dry_run), "  records already synced:  "@, s.records_already_synced as nat),
{
    let lines = summary_spec(s, dry_run);
    let l1 = if dry_run { "  users to create:         "@ } else { "  users created:           "@ };
    let l2 = if dry_run { "  users to delete:         "@ } else { "  users deleted:           "@ };
    let l3 = if dry_run { "  records to import:       "@ } else { "  records imported:        "@ };
    let l4 = if dry_run { "  records to delete:       "@ } else { "  records deleted:         "@ };
    let l5 = "  records already synced:  "@;
    lemma_labelled_number(l1, s.users_created);
    lemma_labelled_number(l2, s.users_deleted);
    lemma_labelled_number(l3, s.records_imported);
    lemma_labelled_number(l4, s.records_deleted);
    lemma_labelled_number(l5, s.records_already_synced);
    assert(lines[1] == l1 + dec_seq(s.users_created as nat));
    assert(lines[2] == l2 + dec_seq(s.users_deleted as nat));
    assert(lines[3] == l3 + dec_seq(s.records_imported as nat));
    assert(lines[4] == l4 + dec_seq(s.records_deleted as nat));
    assert(lines[5] == l5 + dec_seq(s.records_already_synced as nat));
}

/// The line reporting how the upstream records were grouped.
pub open spec fn grouping_line(n_users: nat, n_records: nat, suffix: Seq<char>, skipped: nat) -> Seq<char> {
    "   "@ + dec_seq(n_users) + " users with "@ + dec_seq(n_records) + " records match suffix '"@ + suffix
        + "' ("@ + dec_seq(skipped) + " records skipped)"@
}

/// The grouping report; every record not skipped is in exactly one group,
/// so the records that match are the upstream count less the skipped ones.
pub fn grouping_summary(grouping: &Grouping, n_upstream: usize, suffix: &str) -> (r: String)
    requires
        grouping.skipped <= n_upstream,
    ensures
        r@ == grouping_line(
            grouping.groups@.len() as nat,
            (n_upstream - grouping.skipped) as nat,
            suffix@,
            grouping.skipped as nat,
        ),
{
    let mut s = concat_str("   ", u64_to_decimal(grouping.groups.len() as u64).as_str());
    s.append(" users with ");
    s.append(u64_to_decimal((n_upstream - grouping.skipped as usize) as u64).as_str());
    s.append(" records match suffix '");
    s.append(suffix);
    s.append("' (");
    s.append(u64_to_decimal(grouping.skipped as u64).as_str());
    s.append(" records skipped)");
    s
}

} // verus!
