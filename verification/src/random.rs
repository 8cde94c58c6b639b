//! Randomness from the operating system, and what the library builds from it.

use vstd::prelude::*;
use crate::text::{char_from_ascii, string_from_chars};

verus! {

/// `getrandom::u64`: a random number, or `None` when the operating system's
/// source fails. Nothing is stated of the value.
#[verifier::external_body]
pub(crate) fn random_u64() -> (r: Option<u64>) {
    match getrandom::u64() {
        Ok(v) => Some(v),
        Err(_) => None,
    }
}

/// `getrandom::fill` on a buffer of `n` bytes: the filled buffer, or `None`
/// when the operating system's source fails. Nothing is stated of the bytes.
#[verifier::external_body]
pub(crate) fn random_bytes(n: usize) -> (r: Option<Vec<u8>>)
    ensures
        r matches Some(v) ==> v@.len() == n,
{
    let mut buf = vec![0u8; n];
    match getrandom::fill(&mut buf) {
        Ok(()) => Some(buf),
        Err(_) => None,
    }
}

/// Whether a 128-bit UUID value carries version 4 (random) and the RFC 4122
/// variant: bits 76 to 79 hold 4, bits 62 and 63 hold `0b10`.
pub open spec fn is_uuid_v4(id: u128) -> bool {
    &&& (id >> 76u128) & 0xfu128 == 4u128
    &&& (id >> 62u128) & 3u128 == 2u128
}

/// The number that bytes spell most significant first.
pub open spec fn be_value(b: Seq<u8>) -> nat
    decreases b.len(),
{
    if b.len() == 0 {
        0
    } else {
        be_value(b.drop_last()) * 256 + (b.last() as nat)
    }
}

/// Random bytes with the version 4 and RFC 4122 variant bits set: byte 6
/// keeps its low nibble under the version 4, byte 8 keeps its low six bits
/// under `0b10`.
pub open spec fn v4_bytes(b: Seq<u8>) -> Seq<u8> {
    b.update(6, (b[6] & 0x0fu8) | 0x40u8).update(8, (b[8] & 0x3fu8) | 0x80u8)
}

/// `uuid::Builder::from_random_bytes(..).into_uuid().as_u128()`: the UUID
/// whose bytes are `v4_bytes` of the given 16 bytes, read big-endian (which
/// puts 4 in bits 76 to 79 and `0b10` in bits 62 and 63).
#[verifier::external_body]
fn uuid_from_random_bytes(bytes: &Vec<u8>) -> (r: u128)
    requires
        bytes@.len() == 16,
    ensures
        r as nat == be_value(v4_bytes(bytes@)),
        is_uuid_v4(r),
{
    let mut b = [0u8; 16];
    b.copy_from_slice(bytes.as_slice());
    uuid::Builder::from_random_bytes(b).into_uuid().as_u128()
}

/// A fresh random version 4 UUID, or `None` when the operating system's
/// random source fails.
pub(crate) fn new_uuid_v4() -> (r: Option<u128>)
    ensures
        r matches Some(id) ==> is_uuid_v4(id),
{
    match random_bytes(16) {
        Some(b) => Some(uuid_from_random_bytes(&b)),
        None => None,
    }
}

/// `uuid::Uuid::hyphenated`: the 36-character text form of a UUID,
/// lowercase hex digits grouped 8-4-4-4-12 and joined by hyphens.
#[verifier::external_body]
pub(crate) fn uuid_text(id: u128) -> (r: String)
    ensures
        r@ == uuid_text_spec(id),
{
    uuid::Uuid::from_u128(id).hyphenated().to_string()
}

/// The hex digits of a UUID, most significant first.
pub open spec fn uuid_hex(id: u128) -> Seq<char> {
    crate::random::hex_u64_digits((id as nat) / 0x1_0000_0000_0000_0000, 16)
        + crate::random::hex_u64_digits((id as nat) % 0x1_0000_0000_0000_0000, 16)
}

pub open spec fn uuid_text_spec(id: u128) -> Seq<char> {
    let h = uuid_hex(id);
    h.subrange(0, 8) + "-"@ + h.subrange(8, 12) + "-"@ + h.subrange(12, 16) + "-"@
        + h.subrange(16, 20) + "-"@ + h.subrange(20, 32)
}

/// The characters random passwords are drawn from.
pub open spec fn password_charset() -> Seq<char> {
    "abcdefghijklmnopqrstuvwxyzABCDEFGHIJKLMNOPQRSTUVWXYZ0123456789!@#$%&*"@
}

/// A password from random bytes: each byte picks `charset[b % 69]`.
pub open spec fn password_from_bytes_spec(bytes: Seq<u8>) -> Seq<char> {
    bytes.map_values(|b: u8| password_charset()[(b % 69) as int])
}

/// Maps random bytes to password characters (slightly biased, as 256 is not
/// a multiple of the charset size).
pub fn password_from_bytes(bytes: &Vec<u8>) -> (r: String)
    ensures
        r@ == password_from_bytes_spec(bytes@),
{
    let charset = "abcdefghijklmnopqrstuvwxyzABCDEFGHIJKLMNOPQRSTUVWXYZ0123456789!@#$%&*";
    proof {
        reveal_strlit("abcdefghijklmnopqrstuvwxyzABCDEFGHIJKLMNOPQRSTUVWXYZ0123456789!@#$%&*");
    }
    let cs = crate::text::chars_of(charset);
    let mut out: Vec<char> = Vec::new();
    let mut i: usize = 0;
    while i < bytes.len()
        invariant
            cs@ == password_charset(),
            cs@.len() == 69,
            i <= bytes.len(),
            out@ == password_from_bytes_spec(bytes@.subrange(0, i as int)),
        decreases bytes.len() - i,
    {
        let idx = (bytes[i] % 69) as usize;
        out.push(cs[idx]);
        proof {
            assert(password_from_bytes_spec(bytes@.subrange(0, i + 1)) =~= password_from_bytes_spec(
                bytes@.subrange(0, i as int),
            ).push(password_charset()[(bytes@[i as int] % 69) as int]));
        }
        i = i + 1;
    }
    proof {
        assert(bytes@.subrange(0, bytes@.len() as int) =~= bytes@);
    }
    string_from_chars(&out)
}

/// A random 32-character password over the password charset, or `None` when
/// the operating system's random source fails.
pub fn generate_random_password() -> (r: Option<String>)
    ensures
        r matches Some(p) ==> p@.len() == 32 && forall|i: int|
            0 <= i < 32 ==> password_charset().contains(#[trigger] p@[i]),
        r matches Some(p) ==> exists|b: Seq<u8>| b.len() == 32 && p@ == #[trigger] password_from_bytes_spec(b),
{
    match random_bytes(32) {
        Some(bytes) => {
            let p = password_from_bytes(&bytes);
            proof {
                assert forall|i: int| 0 <= i < 32 implies password_charset().contains(
                    #[trigger] p@[i],
                ) by {
                    reveal_strlit("abcdefghijklmnopqrstuvwxyzABCDEFGHIJKLMNOPQRSTUVWXYZ0123456789!@#$%&*");
                    let k = (bytes@[i] % 69) as int;
                    assert(0 <= k < password_charset().len());
                    assert(p@[i] == password_charset()[k]);
                }
            }
            Some(p)
        },
        None => None,
    }
}

/// Lowercase hexadecimal digit for `d < 16`.
pub open spec fn hex_digit(d: nat) -> char {
    if d < 10 {
        ((d + 48) as u32) as char
    } else {
        ((d + 87) as u32) as char
    }
}

/// Two lowercase hex digits per byte (`{b:02x}`).
pub open spec fn hex_seq(bytes: Seq<u8>) -> Seq<char>
    decreases bytes.len(),
{
    if bytes.len() == 0 {
        Seq::empty()
    } else {
        hex_seq(bytes.drop_last()) + seq![
            hex_digit((bytes.last() / 16) as nat),
            hex_digit((bytes.last() % 16) as nat),
        ]
    }
}

pub open spec fn is_lower_hex(c: char) -> bool {
    '0' <= c <= '9' || 'a' <= c <= 'f'
}

pub proof fn lemma_hex_seq(bytes: Seq<u8>)
    ensures
        hex_seq(bytes).len() == 2 * bytes.len(),
        forall|i: int| 0 <= i < hex_seq(bytes).len() ==> is_lower_hex(#[trigger] hex_seq(bytes)[i]),
    decreases bytes.len(),
{
    if bytes.len() > 0 {
        lemma_hex_seq(bytes.drop_last());
        let prev = hex_seq(bytes.drop_last());
        assert forall|i: int| 0 <= i < hex_seq(bytes).len() implies is_lower_hex(
            #[trigger] hex_seq(bytes)[i],
        ) by {
            if i < prev.len() {
                assert(hex_seq(bytes)[i] == prev[i]);
            }
        }
    }
}

fn hex_char(d: u8) -> (c: char)
    requires
        d < 16,
    ensures
        c == hex_digit(d as nat),
{
    if d < 10 {
        char_from_ascii(d + 48)
    } else {
        char_from_ascii(d + 87)
    }
}

/// Lowercase hexadecimal text of the bytes.
pub fn hex_lower(bytes: &Vec<u8>) -> (r: String)
    ensures
        r@ == hex_seq(bytes@),
        r@.len() == 2 * bytes@.len(),
{
    let mut out: Vec<char> = Vec::new();
    let mut i: usize = 0;
    while i < bytes.len()
        invariant
            i <= bytes.len(),
            out@ == hex_seq(bytes@.subrange(0, i as int)),
        decreases bytes.len() - i,
    {
        let b = bytes[i];
        out.push(hex_char(b / 16));
        out.push(hex_char(b % 16));
        proof {
            assert(bytes@.subrange(0, i + 1).drop_last() =~= bytes@.subrange(0, i as int));
            assert(out@ =~= hex_seq(bytes@.subrange(0, i + 1)));
        }
        i = i + 1;
    }
    proof {
        assert(bytes@.subrange(0, bytes@.len() as int) =~= bytes@);
        lemma_hex_seq(bytes@);
    }
    string_from_chars(&out)
}

/// Lowercase hex of a 64-bit value, zero-padded to 16 digits (`{v:016x}`).
pub open spec fn hex_u64(v: u64) -> Seq<char>
    decreases 16nat,
{
    hex_u64_digits(v as nat, 16)
}

pub open spec fn hex_u64_digits(v: nat, n: nat) -> Seq<char>
    decreases n,
{
    if n == 0 {
        Seq::empty()
    } else {
        hex_u64_digits(v / 16, (n - 1) as nat).push(hex_digit(v % 16))
    }
}

fn push_hex_digits(out: &mut Vec<char>, v: u64, n: u32)
    ensures
        final(out)@ == old(out)@ + hex_u64_digits(v as nat, n as nat),
    decreases n,
{
    if n > 0 {
        push_hex_digits(out, v / 16, n - 1);
        out.push(hex_char((v % 16) as u8));
        proof {
            assert(old(out)@ + hex_u64_digits(v as nat, n as nat) =~= old(out)@ + hex_u64_digits(
                (v / 16) as nat,
                (n - 1) as nat,
            ) + seq![hex_digit((v % 16) as nat)]);
        }
    } else {
        assert(old(out)@ + hex_u64_digits(v as nat, 0) =~= old(out)@);
    }
}

/// Appends `{v:016x}` to `out`.
pub fn push_hex_u64(out: &mut Vec<char>, v: u64)
    ensures
        final(out)@ == old(out)@ + hex_u64(v),
{
    push_hex_digits(out, v, 16);
}


proof fn lemma_hex_digits_len(v: nat, n: nat)
    ensures
        hex_u64_digits(v, n).len() == n,
    decreases n,
{
    if n > 0 {
        lemma_hex_digits_len(v / 16, (n - 1) as nat);
    }
}

pub proof fn lemma_hex_u64_len(v: u64)
    ensures
        hex_u64(v).len() == 16,
{
    lemma_hex_digits_len(v as nat, 16);
}

} // verus!
