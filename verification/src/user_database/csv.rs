//! A user database read from a CSV file of usernames and passwords. It
//! keeps no ids and no records: ids are made up per login and record
//! operations succeed without storing anything.

use vstd::prelude::*;
use crate::dns::record::Record;
use crate::text::{concat, str_eq};
use crate::user_database::{DatabaseDnsRecord, DnsRecordId};
use crate::random::{uuid_text, uuid_text_spec};

verus! {

/// Configuration: the path of the CSV file.
pub struct Config {
    pub file: String,
}

/// A row of the CSV file (`Username`, `Password` columns).
pub struct User {
    pub username: String,
    pub password: String,
}

/// The users of the file, each (username, password) pair once.
pub struct Database {
    users: Vec<(String, String)>,
}

pub open spec fn pair_view(p: (String, String)) -> (Seq<char>, Seq<char>) {
    (p.0@, p.1@)
}

impl Database {
    /// The set of (username, password) pairs.
    pub closed spec fn users(&self) -> Set<(Seq<char>, Seq<char>)> {
        self.users@.map_values(|p: (String, String)| pair_view(p)).to_set()
    }

    fn contains(&self, username: &str, password: &str) -> (r: bool)
        ensures
            r == self.users().contains((username@, password@)),
    {
        let mut i: usize = 0;
        while i < self.users.len()
            invariant
                i <= self.users.len(),
                forall|j: int| 0 <= j < i ==> pair_view(#[trigger] self.users@[j]) != (username@, password@),
            decreases self.users.len() - i,
        {
            if str_eq(self.users[i].0.as_str(), username) && str_eq(self.users[i].1.as_str(), password) {
                proof {
                    let s = self.users@.map_values(|p: (String, String)| pair_view(p));
                    assert(s[i as int] == (username@, password@));
                }
                return true;
            }
            i = i + 1;
        }
        proof {
            let s = self.users@.map_values(|p: (String, String)| pair_view(p));
            assert forall|j: int| 0 <= j < s.len() implies s[j] != (username@, password@) by {
                assert(s[j] == pair_view(self.users@[j]));
            }
        }
        false
    }

    /// The database of the rows of a CSV file.
    pub fn from_rows(rows: Vec<User>) -> (r: Database)
        ensures
            r.users() == rows@.map_values(|u: User| (u.username@, u.password@)).to_set(),
    {
        let mut users: Vec<(String, String)> = Vec::new();
        let mut i: usize = 0;
        let ghost src = rows@.map_values(|u: User| (u.username@, u.password@));
        while i < rows.len()
            invariant
                i <= rows.len(),
                src == rows@.map_values(|u: User| (u.username@, u.password@)),
                users@.map_values(|p: (String, String)| pair_view(p)).to_set() == src.take(i as int).to_set(),
            decreases rows.len() - i,
        {
            let ghost before = users@.map_values(|p: (String, String)| pair_view(p));
            let pair = (rows[i].username.clone(), rows[i].password.clone());
            users.push(pair);
            proof {
                let now = users@.map_values(|p: (String, String)| pair_view(p));
                assert(now =~= before.push(src[i as int]));
                assert(src.take(i + 1) =~= src.take(i as int).push(src[i as int]));
                before.lemma_push_to_set_commute(src[i as int]);
                src.take(i as int).lemma_push_to_set_commute(src[i as int]);
            }
            i = i + 1;
        }
        proof {
            assert(src.take(rows@.len() as int) =~= src);
        }
        Database { users }
    }

    /// Whether the file has this username with this password.
    pub fn is_valid(&self, username: &str, password: &str) -> (r: bool)
        ensures
            r == self.users().contains((username@, password@)),
    {
        self.contains(username, password)
    }

    /// A fresh random id if the credentials are in the file: the file has no
    /// ids, so each call makes one up.
    pub fn validate_and_get_user_id(&self, username: &str, password: &str) -> (r: Option<u128>)
        ensures
            r is Some ==> self.users().contains((username@, password@)),
            !self.users().contains((username@, password@)) ==> r is None,
            r matches Some(id) ==> crate::random::is_uuid_v4(id),
    {
        if self.contains(username, password) {
            crate::random::new_uuid_v4()
        } else {
            None
        }
    }

    /// Whether no row has this username.
    pub fn is_available(&self, username: &str) -> (r: bool)
        ensures
            r == !exists|p: (Seq<char>, Seq<char>)| #[trigger] self.users().contains(p) && p.0 == username@,
    {
        let ghost s = self.users@.map_values(|p: (String, String)| pair_view(p));
        let mut i: usize = 0;
        while i < self.users.len()
            invariant
                i <= self.users.len(),
                s == self.users@.map_values(|p: (String, String)| pair_view(p)),
                forall|j: int| 0 <= j < i ==> (#[trigger] s[j]).0 != username@,
            decreases self.users.len() - i,
        {
            if str_eq(self.users[i].0.as_str(), username) {
                proof {
                    assert(s[i as int] == pair_view(self.users@[i as int]));
                    assert(self.users().contains(s[i as int]));
                }
                return false;
            }
            i = i + 1;
        }
        proof {
            assert forall|p: (Seq<char>, Seq<char>)| #[trigger] self.users().contains(p) implies p.0 != username@ by {
                let j = choose|j: int| 0 <= j < s.len() && s[j] == p;
            }
        }
        true
    }

    /// Records are not stored: a fresh id is returned, or `None` when the
    /// operating system's random source fails.
    pub fn add_dns_record(&self, user_id: u128, record: Record, provider_key: String) -> (r: Option<DnsRecordId>)
        ensures
            r matches Some(id) ==> crate::random::is_uuid_v4(id.0),
    {
        DnsRecordId::new()
    }

    /// Records are not stored: the list is empty.
    pub fn get_user_dns_records(&self, user_id: u128) -> (r: Vec<DatabaseDnsRecord>)
        ensures
            r@.len() == 0,
    {
        Vec::new()
    }

    /// The provider key reported for a record: `csv_key_` and its id.
    pub fn get_dns_record_provider_key(&self, user_id: u128, record_id: DnsRecordId) -> (r: String)
        ensures
            r@ == "csv_key_"@ + uuid_text_spec(record_id.0),
    {
        let t = uuid_text(record_id.0);
        concat("csv_key_", t.as_str())
    }
}

} // verus!
