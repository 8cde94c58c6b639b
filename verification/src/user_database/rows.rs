//! Rows of the SQLite user database: ids stored as 16 bytes in the UUID's
//! little-endian layout, states and record types stored as numbers.

use vstd::prelude::*;
use crate::dns::record::{record_type_code, record_type_of_code, Record, RecordType, RecordView};
use crate::user_database::{user_state_code, DnsRecordId, PasswordHash, UserEntry, UserState, UserView};

verus! {

/// Byte `i` of a 128-bit value in big-endian order.
pub open spec fn be_byte(v: u128, i: int) -> u8 {
    ((v >> ((8 * (15 - i)) as u128)) & 0xff) as u8
}

/// Where byte `i` of the little-endian layout comes from in the big-endian
/// bytes: the first three groups (4, 2 and 2 bytes) are reversed.
pub open spec fn le_source(i: int) -> int {
    if i < 4 {
        3 - i
    } else if i < 6 {
        9 - i
    } else if i < 8 {
        13 - i
    } else {
        i
    }
}

/// The little-endian layout of a UUID.
pub open spec fn uuid_le(v: u128) -> Seq<u8> {
    Seq::new(16, |i: int| be_byte(v, le_source(i)))
}

/// `uuid::Uuid::from_u128(id).to_bytes_le()`: the big-endian bytes of the
/// id with the first three groups reversed.
#[verifier::external_body]
fn uuid_bytes_le(id: u128) -> (r: [u8; 16])
    ensures
        r@ == uuid_le(id),
{
    uuid::Uuid::from_u128(id).to_bytes_le()
}

/// `uuid::Uuid::from_slice_le(bytes)`, which needs 16 bytes, as a number:
/// the id whose little-endian layout the bytes are.
#[verifier::external_body]
fn uuid_from_bytes_le(bytes: &Vec<u8>) -> (r: u128)
    requires
        bytes@.len() == 16,
    ensures
        uuid_le(r) == bytes@,
{
    uuid::Uuid::from_slice_le(bytes.as_slice()).unwrap().as_u128()
}

/// A user row as inserted.
pub struct NewUser<'a> {
    pub id: [u8; 16],
    pub username: &'a str,
    pub password_hash: &'a str,
    pub email: &'a str,
}

impl<'a> NewUser<'a> {
    /// The row of a new user.
    pub fn new(id: u128, username: &'a str, password_hash: &'a str, email: &'a str) -> (r: NewUser<'a>)
        ensures
            r.id@ == uuid_le(id),
            r.username == username,
            r.password_hash == password_hash,
            r.email == email,
    {
        NewUser { id: uuid_bytes_le(id), username, password_hash, email }
    }
}

/// A DNS record row as inserted.
pub struct NewDnsRecord<'a> {
    pub id: [u8; 16],
    pub user_id: [u8; 16],
    pub provider_key: &'a str,
    pub name: &'a str,
    pub record_type: i32,
    pub content: &'a str,
    pub ttl_seconds: i32,
    pub priority: Option<i32>,
}

impl<'a> NewDnsRecord<'a> {
    /// The row of a record: numbers for the type, the time to live (as the
    /// database's signed integer) and the priority.
    pub fn from_interface(record_id: DnsRecordId, user_id: u128, record: &'a Record, provider_key: &'a str) -> (r:
        NewDnsRecord<'a>)
        ensures
            r.id@ == uuid_le(record_id.0),
            r.user_id@ == uuid_le(user_id),
            r.provider_key == provider_key,
            r.name@ == record.name@,
            r.record_type == record_type_code(record.record_type),
            r.content@ == record.content@,
            r.ttl_seconds == record.ttl_seconds as i32,
            r.priority == match record.priority {
                Some(p) => Some(p as i32),
                None => None::<i32>,
            },
    {
        NewDnsRecord {
            id: uuid_bytes_le(record_id.0),
            user_id: uuid_bytes_le(user_id),
            provider_key,
            name: record.name.as_str(),
            record_type: record.record_type.code(),
            content: record.content.as_str(),
            ttl_seconds: record.ttl_seconds as i32,
            priority: match record.priority {
                Some(p) => Some(p as i32),
                None => None,
            },
        }
    }
}

/// The state stored as a number: 0 pending, 1 active, 2 inactive, 3 banned.
pub open spec fn state_of_code(code: i32) -> UserState
    recommends
        0 <= code <= 3,
{
    if code == 0 {
        UserState::Pending
    } else if code == 1 {
        UserState::Active
    } else if code == 2 {
        UserState::Inactive
    } else {
        UserState::Banned
    }
}

/// A stored user: the id from its 16 bytes, the state from its number
/// (which must be 0 to 3).
pub fn user_from_row(
    id: &Vec<u8>,
    username: String,
    password_hash: String,
    email: String,
    state: i32,
    created_at: i64,
    last_login: Option<i64>,
) -> (r: UserEntry)
    requires
        id@.len() == 16,
        0 <= state <= 3,
    ensures
        uuid_le(r.id) == id@,
        r.username@ == username@,
        r@.password_hash == password_hash@,
        r.email@ == email@,
        r.state == state_of_code(state),
        r.created_at == created_at,
        r.last_login == last_login,
{
    let s = if state == 0 {
        UserState::Pending
    } else if state == 1 {
        UserState::Active
    } else if state == 2 {
        UserState::Inactive
    } else {
        UserState::Banned
    };
    UserEntry {
        id: uuid_from_bytes_le(id),
        username,
        password_hash: PasswordHash::from_raw(password_hash),
        email,
        state: s,
        created_at,
        last_login,
    }
}

/// A stored record: the type from its number (which must be a known one),
/// the time to live and priority cut to their widths.
pub fn record_from_row(name: String, record_type: i32, content: String, ttl_seconds: i32, priority: Option<i32>) -> (r:
    Record)
    requires
        record_type_of_code(record_type) is Ok,
    ensures
        r.name@ == name@,
        r.record_type == record_type_of_code(record_type)->Ok_0,
        r.content@ == content@,
        r.ttl_seconds == ttl_seconds as u32,
        r.priority == match priority {
            Some(p) => Some(p as u16),
            None => None::<u16>,
        },
{
    let t = match RecordType::from_code(record_type) {
        Ok(t) => t,
        Err(_) => {
            proof {
                assert(false);
            }
            RecordType::A
        },
    };
    Record {
        name,
        record_type: t,
        content,
        ttl_seconds: ttl_seconds as u32,
        priority: match priority {
            Some(p) => Some(p as u16),
            None => None,
        },
    }
}

/// The id of a stored record, from its 16 bytes.
pub fn record_id_from_row(id: &Vec<u8>) -> (r: DnsRecordId)
    requires
        id@.len() == 16,
    ensures
        uuid_le(r.0) == id@,
{
    DnsRecordId(uuid_from_bytes_le(id))
}

/// Reading a stored state back gives the state that was stored: a row
/// written with `UserState::code` comes back with the same state, and every
/// valid stored number (0 to 3) is the code of the state read from it.
pub proof fn lemma_state_code_roundtrip(st: UserState, code: i32)
    ensures
        state_of_code(user_state_code(st)) == st,
        0 <= code <= 3 ==> user_state_code(state_of_code(code)) == code,
{
}

} // verus!
