//! Character and string helpers shared by the rest of the library.

use vstd::prelude::*;

verus! {

/// `String::push` appends one character.
pub assume_specification[ String::push ](s: &mut String, ch: char)
    ensures
        final(s)@ == old(s)@.push(ch),
;

/// The characters of a string slice, collected into a vector.
pub fn chars_of(s: &str) -> (v: Vec<char>)
    ensures
        v@ == s@,
{
    let n = s.unicode_len();
    let mut v: Vec<char> = Vec::new();
    let mut i: usize = 0;
    while i < n
        invariant
            n == s@.len(),
            i <= n,
            v@ == s@.subrange(0, i as int),
        decreases n - i,
    {
        v.push(s.get_char(i));
        i = i + 1;
    }
    v
}

/// Builds a string from a sequence of characters.
pub fn string_from_chars(v: &Vec<char>) -> (s: String)
    ensures
        s@ == v@,
{
    let mut s = String::new();
    let mut i: usize = 0;
    while i < v.len()
        invariant
            i <= v.len(),
            s@ == v@.subrange(0, i as int),
        decreases v.len() - i,
    {
        s.push(v[i]);
        i = i + 1;
    }
    s
}


pub open spec fn is_ascii_upper(c: char) -> bool {
    'A' <= c <= 'Z'
}

pub open spec fn is_ascii_lower(c: char) -> bool {
    'a' <= c <= 'z'
}

pub open spec fn is_ascii_digit(c: char) -> bool {
    '0' <= c <= '9'
}

pub open spec fn is_ascii_alnum(c: char) -> bool {
    is_ascii_upper(c) || is_ascii_lower(c) || is_ascii_digit(c)
}

/// ASCII punctuation: `!"#$%&'()*+,-./:;<=>?@[\]^_`{|}~`.
pub open spec fn is_ascii_punct(c: char) -> bool {
    ||| '!' <= c <= '/'
    ||| ':' <= c <= '@'
    ||| '[' <= c <= '`'
    ||| '{' <= c <= '~'
}

pub open spec fn is_ascii_hex(c: char) -> bool {
    is_ascii_digit(c) || 'a' <= c <= 'f' || 'A' <= c <= 'F'
}

pub fn ascii_upper(c: char) -> (b: bool)
    ensures
        b == is_ascii_upper(c),
{
    'A' <= c && c <= 'Z'
}

pub fn ascii_lower(c: char) -> (b: bool)
    ensures
        b == is_ascii_lower(c),
{
    'a' <= c && c <= 'z'
}

pub fn ascii_digit(c: char) -> (b: bool)
    ensures
        b == is_ascii_digit(c),
{
    '0' <= c && c <= '9'
}

pub fn ascii_alnum(c: char) -> (b: bool)
    ensures
        b == is_ascii_alnum(c),
{
    ascii_upper(c) || ascii_lower(c) || ascii_digit(c)
}

pub fn ascii_punct(c: char) -> (b: bool)
    ensures
        b == is_ascii_punct(c),
{
    ('!' <= c && c <= '/') || (':' <= c && c <= '@') || ('[' <= c && c <= '`') || ('{' <= c
        && c <= '~')
}

pub fn ascii_hex(c: char) -> (b: bool)
    ensures
        b == is_ascii_hex(c),
{
    ascii_digit(c) || ('a' <= c && c <= 'f') || ('A' <= c && c <= 'F')
}

/// ASCII lowercase mapping of one character; other characters are unchanged.
pub open spec fn lower_char(c: char) -> char {
    if is_ascii_upper(c) {
        ((c as u32) + 32) as char
    } else {
        c
    }
}

pub open spec fn lower_seq(s: Seq<char>) -> Seq<char> {
    s.map_values(|c: char| lower_char(c))
}

pub fn to_lower_char(c: char) -> (r: char)
    ensures
        r == lower_char(c),
{
    if ascii_upper(c) {
        let code: u32 = c as u32;
        assert(65 <= code <= 90);
        char_from_ascii((code + 32) as u8)
    } else {
        c
    }
}

/// ASCII uppercase mapping of one character; other characters are unchanged.
pub open spec fn upper_char(c: char) -> char {
    if is_ascii_lower(c) {
        ((c as u32) - 32) as char
    } else {
        c
    }
}

pub open spec fn upper_seq(s: Seq<char>) -> Seq<char> {
    s.map_values(|c: char| upper_char(c))
}

pub fn to_upper_char(c: char) -> (r: char)
    ensures
        r == upper_char(c),
{
    if ascii_lower(c) {
        let code: u32 = c as u32;
        assert(97 <= code <= 122);
        char_from_ascii((code - 32) as u8)
    } else {
        c
    }
}

/// `str::to_ascii_uppercase`, written as a loop.
pub fn ascii_uppercase(s: &str) -> (r: Vec<char>)
    ensures
        r@ == upper_seq(s@),
{
    let v = chars_of(s);
    let mut out: Vec<char> = Vec::new();
    let mut i: usize = 0;
    while i < v.len()
        invariant
            v@ == s@,
            i <= v.len(),
            out@ == upper_seq(s@).subrange(0, i as int),
        decreases v.len() - i,
    {
        let c = to_upper_char(v[i]);
        out.push(c);
        proof {
            assert(upper_seq(s@).subrange(0, i + 1) =~= upper_seq(s@).subrange(0, i as int).push(c));
        }
        i = i + 1;
    }
    proof {
        assert(upper_seq(s@).subrange(0, v@.len() as int) =~= upper_seq(s@));
    }
    out
}

/// The character of an ASCII code.
pub fn char_from_ascii(b: u8) -> (c: char)
    requires
        b < 128,
    ensures
        c == (b as u32) as char,
        c as u32 == b as u32,
{
    b as char
}

/// `str::to_ascii_lowercase`, written as a loop.
pub fn ascii_lowercase(s: &str) -> (r: String)
    ensures
        r@ == lower_seq(s@),
{
    let v = chars_of(s);
    let mut out = String::new();
    let mut i: usize = 0;
    while i < v.len()
        invariant
            v@ == s@,
            i <= v.len(),
            out@ == lower_seq(s@).subrange(0, i as int),
        decreases v.len() - i,
    {
        let c = to_lower_char(v[i]);
        out.push(c);
        proof {
            assert(lower_seq(s@).subrange(0, i + 1) =~= lower_seq(s@).subrange(0, i as int).push(c));
        }
        i = i + 1;
    }
    proof {
        assert(lower_seq(s@).subrange(0, v@.len() as int) =~= lower_seq(s@));
    }
    out
}

pub open spec fn seq_starts_with(s: Seq<char>, p: Seq<char>) -> bool {
    p.len() <= s.len() && s.subrange(0, p.len() as int) == p
}

pub open spec fn seq_ends_with(s: Seq<char>, p: Seq<char>) -> bool {
    p.len() <= s.len() && s.subrange(s.len() - p.len(), s.len() as int) == p
}

/// Whether `s` ends with `p`.
pub fn ends_with(s: &Vec<char>, p: &Vec<char>) -> (b: bool)
    ensures
        b == seq_ends_with(s@, p@),
{
    if p.len() > s.len() {
        return false;
    }
    let off = s.len() - p.len();
    let mut i: usize = 0;
    while i < p.len()
        invariant
            off + p.len() == s.len(),
            i <= p.len(),
            forall|j: int| 0 <= j < i ==> s@[off + j] == p@[j],
        decreases p.len() - i,
    {
        if s[off + i] != p[i] {
            proof {
                assert(s@.subrange(off as int, s@.len() as int)[i as int] != p@[i as int]);
            }
            return false;
        }
        i = i + 1;
    }
    proof {
        assert(s@.subrange(off as int, s@.len() as int) =~= p@);
    }
    true
}

/// Whether `s` starts with `p`.
pub fn starts_with(s: &Vec<char>, p: &Vec<char>) -> (b: bool)
    ensures
        b == seq_starts_with(s@, p@),
{
    if p.len() > s.len() {
        return false;
    }
    let mut i: usize = 0;
    while i < p.len()
        invariant
            p.len() <= s.len(),
            i <= p.len(),
            forall|j: int| 0 <= j < i ==> s@[j] == p@[j],
        decreases p.len() - i,
    {
        if s[i] != p[i] {
            proof {
                assert(s@.subrange(0, p@.len() as int)[i as int] != p@[i as int]);
            }
            return false;
        }
        i = i + 1;
    }
    proof {
        assert(s@.subrange(0, p@.len() as int) =~= p@);
    }
    true
}

/// The characters `v[from..to]`.
pub fn slice_chars(v: &Vec<char>, from: usize, to: usize) -> (r: Vec<char>)
    requires
        from <= to <= v.len(),
    ensures
        r@ == v@.subrange(from as int, to as int),
{
    let mut r: Vec<char> = Vec::new();
    let mut i: usize = from;
    while i < to
        invariant
            from <= i <= to <= v.len(),
            r@ == v@.subrange(from as int, i as int),
        decreases to - i,
    {
        r.push(v[i]);
        i = i + 1;
    }
    r
}

/// Appends all characters of `b` to `a`.
pub fn extend_chars(a: &mut Vec<char>, b: &Vec<char>)
    ensures
        final(a)@ == old(a)@ + b@,
{
    let mut i: usize = 0;
    while i < b.len()
        invariant
            i <= b.len(),
            a@ == old(a)@ + b@.subrange(0, i as int),
        decreases b.len() - i,
    {
        a.push(b[i]);
        i = i + 1;
    }
    proof {
        assert(b@.subrange(0, b@.len() as int) =~= b@);
    }
}


/// Whether the characters in `a` spell out `b`.
pub fn eq_chars(a: &Vec<char>, b: &Vec<char>) -> (r: bool)
    ensures
        r == (a@ == b@),
{
    if a.len() != b.len() {
        return false;
    }
    let mut i: usize = 0;
    while i < a.len()
        invariant
            a.len() == b.len(),
            i <= a.len(),
            forall|j: int| 0 <= j < i ==> a@[j] == b@[j],
        decreases a.len() - i,
    {
        if a[i] != b[i] {
            return false;
        }
        i = i + 1;
    }
    proof {
        assert(a@ =~= b@);
    }
    true
}

/// Whether two string slices hold the same characters.
pub fn str_eq(a: &str, b: &str) -> (r: bool)
    ensures
        r == (a@ == b@),
{
    eq_chars(&chars_of(a), &chars_of(b))
}

/// `a` followed by `b`, as a new string.
pub fn concat(a: &str, b: &str) -> (r: String)
    ensures
        r@ == a@ + b@,
{
    let mut r = String::from_str(a);
    r.append(b);
    r
}

/// The decimal digit character for `d < 10`.
pub open spec fn digit_char(d: nat) -> char {
    ((d + 48) as u32) as char
}

/// Decimal representation of `n`, without sign or leading zeros.
pub open spec fn dec_seq(n: nat) -> Seq<char>
    decreases n,
{
    if n < 10 {
        seq![digit_char(n)]
    } else {
        dec_seq(n / 10).push(digit_char(n % 10))
    }
}

fn push_decimal(out: &mut Vec<char>, n: u64)
    ensures
        final(out)@ == old(out)@ + dec_seq(n as nat),
    decreases n,
{
    if n >= 10 {
        push_decimal(out, n / 10);
    }
    let d: u8 = (n % 10) as u8;
    let c = char_from_ascii(d + 48);
    out.push(c);
    proof {
        if n >= 10 {
            assert(old(out)@ + dec_seq(n as nat) =~= old(out)@ + dec_seq((n / 10) as nat) + seq![c]);
        } else {
            assert(dec_seq(n as nat) =~= seq![c]);
        }
    }
}

/// Decimal representation of `n`.
pub fn u64_to_decimal(n: u64) -> (r: String)
    ensures
        r@ == dec_seq(n as nat),
{
    let mut v: Vec<char> = Vec::new();
    push_decimal(&mut v, n);
    proof {
        assert(v@ =~= dec_seq(n as nat));
    }
    string_from_chars(&v)
}

/// How `str::parse` into an unsigned integer fails.
#[derive(Clone, Copy, PartialEq, Eq, Debug)]
pub enum IntErrorKind {
    Empty,
    InvalidDigit,
    PosOverflow,
}

/// The message `ParseIntError` displays for each kind.
pub open spec fn int_error_message(k: IntErrorKind) -> Seq<char> {
    match k {
        IntErrorKind::Empty => "cannot parse integer from empty string"@,
        IntErrorKind::InvalidDigit => "invalid digit found in string"@,
        IntErrorKind::PosOverflow => "number too large to fit in target type"@,
    }
}

pub fn int_error_str(k: IntErrorKind) -> (r: &'static str)
    ensures
        r@ == int_error_message(k),
{
    match k {
        IntErrorKind::Empty => "cannot parse integer from empty string",
        IntErrorKind::InvalidDigit => "invalid digit found in string",
        IntErrorKind::PosOverflow => "number too large to fit in target type",
    }
}

/// Scanning digits left to right from value `acc` at index `i`: the first
/// non-digit is an invalid digit, a running value above `max` an overflow.
pub open spec fn scan_digits(d: Seq<char>, i: int, acc: nat, max: nat) -> Result<nat, IntErrorKind>
    decreases d.len() - i,
{
    if i < 0 || i >= d.len() {
        Ok(acc)
    } else if !is_ascii_digit(d[i]) {
        Err(IntErrorKind::InvalidDigit)
    } else {
        let next = acc * 10 + ((d[i] as u32) - 48) as nat;
        if next > max {
            Err(IntErrorKind::PosOverflow)
        } else {
            scan_digits(d, i + 1, next, max)
        }
    }
}

/// `str::parse` for an unsigned integer type whose largest value is `max`:
/// an optional `+` followed by decimal digits, nothing else.
pub open spec fn parse_unsigned(s: Seq<char>, max: nat) -> Result<nat, IntErrorKind> {
    if s.len() == 0 {
        Err(IntErrorKind::Empty)
    } else {
        let d = if s[0] == '+' { s.drop_first() } else { s };
        if d.len() == 0 {
            Err(IntErrorKind::InvalidDigit)
        } else {
            scan_digits(d, 0, 0, max)
        }
    }
}

proof fn lemma_scan_bounded(d: Seq<char>, i: int, acc: nat, max: nat)
    requires
        acc <= max,
    ensures
        scan_digits(d, i, acc, max) matches Ok(v) ==> v <= max,
    decreases d.len() - i,
{
    if 0 <= i < d.len() && is_ascii_digit(d[i]) {
        let next = acc * 10 + ((d[i] as u32) - 48) as nat;
        if next <= max {
            lemma_scan_bounded(d, i + 1, next, max);
        }
    }
}

proof fn lemma_scan_push(d: Seq<char>, c: char, i: int, acc: nat, max: nat)
    requires
        0 <= i <= d.len(),
    ensures
        scan_digits(d.push(c), i, acc, max) == match scan_digits(d, i, acc, max) {
            Ok(v) => if !is_ascii_digit(c) {
                Err(IntErrorKind::InvalidDigit)
            } else if v * 10 + ((c as u32) - 48) as nat > max {
                Err(IntErrorKind::PosOverflow)
            } else {
                Ok(v * 10 + ((c as u32) - 48) as nat)
            },
            Err(e) => Err(e),
        },
    decreases d.len() - i,
{
    let e = d.push(c);
    if i < d.len() {
        assert(e[i] == d[i]);
        if is_ascii_digit(d[i]) {
            let next = acc * 10 + ((d[i] as u32) - 48) as nat;
            if next <= max {
                lemma_scan_push(d, c, i + 1, next, max);
            }
        }
    } else {
        assert(e[i] == c);
        if is_ascii_digit(c) {
            let next = acc * 10 + ((c as u32) - 48) as nat;
            assert(scan_digits(e, i + 1, next, max) == Ok::<nat, IntErrorKind>(next));
        }
    }
}

proof fn lemma_digit_char(d: nat)
    requires
        d < 10,
    ensures
        is_ascii_digit(digit_char(d)),
        ((digit_char(d) as u32) - 48) as nat == d,
{
}

proof fn lemma_scan_dec(n: nat, max: nat)
    requires
        n <= max,
    ensures
        scan_digits(dec_seq(n), 0, 0, max) == Ok::<nat, IntErrorKind>(n),
    decreases n,
{
    if n < 10 {
        lemma_digit_char(n);
        let s = dec_seq(n);
        assert(s[0] == digit_char(n));
        assert(scan_digits(s, 1, n, max) == Ok::<nat, IntErrorKind>(n));
    } else {
        let q = n / 10;
        let r = n % 10;
        assert(q * 10 + r == n) by (nonlinear_arith)
            requires
                q == n / 10,
                r == n % 10,
        ;
        lemma_scan_dec(q, max);
        lemma_digit_char(r);
        lemma_scan_push(dec_seq(q), digit_char(r), 0, 0, max);
    }
}

proof fn lemma_dec_first(n: nat)
    ensures
        dec_seq(n).len() > 0,
        is_ascii_digit(dec_seq(n)[0]),
    decreases n,
{
    if n < 10 {
        lemma_digit_char(n);
    } else {
        lemma_dec_first(n / 10);
    }
}

/// Parsing the decimal text of a number gives the number back.
pub proof fn lemma_parse_dec(n: nat, max: nat)
    requires
        n <= max,
    ensures
        parse_unsigned(dec_seq(n), max) == Ok::<nat, IntErrorKind>(n),
{
    lemma_dec_first(n);
    lemma_scan_dec(n, max);
}

/// Decimal text holds no colon.
pub proof fn lemma_dec_no_colon(n: nat)
    ensures
        forall|i: int| 0 <= i < dec_seq(n).len() ==> is_ascii_digit(#[trigger] dec_seq(n)[i]),
    decreases n,
{
    if n < 10 {
        lemma_digit_char(n);
    } else {
        lemma_dec_no_colon(n / 10);
        lemma_digit_char(n % 10);
        let p = dec_seq(n / 10);
        assert forall|i: int| 0 <= i < dec_seq(n).len() implies is_ascii_digit(#[trigger] dec_seq(n)[i]) by {
            if i < p.len() {
                assert(dec_seq(n)[i] == p[i]);
            }
        }
    }
}

/// The first `c` of `p + [c] + s` is right after `p` when `p` holds none.
pub proof fn lemma_first_index_after(p: Seq<char>, c: char, s: Seq<char>, i: int)
    requires
        0 <= i <= p.len(),
        forall|j: int| 0 <= j < p.len() ==> p[j] != c,
    ensures
        first_index_of(p + seq![c] + s, c, i) == Some(p.len() as int),
    decreases p.len() - i,
{
    let t = p + seq![c] + s;
    if i < p.len() {
        assert(t[i] == p[i]);
        lemma_first_index_after(p, c, s, i + 1);
    } else {
        assert(t[i] == c);
    }
}

/// Parses an unsigned decimal number no larger than `max` (`str::parse::<u32>`
/// with `max == u32::MAX`, and likewise for the other unsigned types).
pub fn parse_unsigned_exec(s: &str, max: u64) -> (r: Result<u64, IntErrorKind>)
    ensures
        match parse_unsigned(s@, max as nat) {
            Ok(v) => r == Ok::<u64, IntErrorKind>(v as u64) && v <= max,
            Err(k) => r == Err::<u64, IntErrorKind>(k),
        },
{
    let chars = chars_of(s);
    if chars.len() == 0 {
        return Err(IntErrorKind::Empty);
    }
    let start: usize = if chars[0] == '+' { 1 } else { 0 };
    let ghost d = if s@[0] == '+' { s@.drop_first() } else { s@ };
    if start == chars.len() {
        return Err(IntErrorKind::InvalidDigit);
    }
    let mut acc: u64 = 0;
    let mut i: usize = start;
    while i < chars.len()
        invariant
            chars@ == s@,
            start <= i <= chars.len(),
            d == s@.subrange(start as int, s@.len() as int),
            acc <= max,
            parse_unsigned(s@, max as nat) == scan_digits(d, 0, 0, max as nat),
            scan_digits(d, 0, 0, max as nat) == scan_digits(d, i - start, acc as nat, max as nat),
        decreases chars.len() - i,
    {
        let c = chars[i];
        assert(d[i - start] == c);
        if !ascii_digit(c) {
            return Err(IntErrorKind::InvalidDigit);
        }
        let dv: u64 = ((c as u32) - 48) as u64;
        let next: u128 = (acc as u128) * 10 + (dv as u128);
        if next > max as u128 {
            return Err(IntErrorKind::PosOverflow);
        }
        acc = next as u64;
        i = i + 1;
    }
    proof {
        assert(scan_digits(d, i - start, acc as nat, max as nat) == Ok::<nat, IntErrorKind>(acc as nat));
    }
    Ok(acc)
}


/// Index of the first `c` at or after `i`.
pub open spec fn first_index_of(s: Seq<char>, c: char, i: int) -> Option<int>
    decreases s.len() - i,
{
    if i < 0 || i >= s.len() {
        None
    } else if s[i] == c {
        Some(i)
    } else {
        first_index_of(s, c, i + 1)
    }
}

/// Index of the last `c` before `end`.
pub open spec fn last_index_of(s: Seq<char>, c: char, end: int) -> Option<int>
    decreases end,
{
    if end <= 0 || end > s.len() {
        None
    } else if s[end - 1] == c {
        Some(end - 1)
    } else {
        last_index_of(s, c, end - 1)
    }
}

/// `str::split_once`: the parts before and after the first `c`.
pub open spec fn split_once(s: Seq<char>, c: char) -> Option<(Seq<char>, Seq<char>)> {
    match first_index_of(s, c, 0) {
        Some(i) => Some((s.take(i), s.skip(i + 1))),
        None => None,
    }
}

/// `str::rsplit_once`: the parts before and after the last `c`.
pub open spec fn rsplit_once(s: Seq<char>, c: char) -> Option<(Seq<char>, Seq<char>)> {
    match last_index_of(s, c, s.len() as int) {
        Some(i) => Some((s.take(i), s.skip(i + 1))),
        None => None,
    }
}

pub proof fn lemma_first_index_bounds(s: Seq<char>, c: char, i: int)
    ensures
        first_index_of(s, c, i) matches Some(k) ==> i <= k < s.len() && s[k] == c,
    decreases s.len() - i,
{
    if 0 <= i < s.len() && s[i] != c {
        lemma_first_index_bounds(s, c, i + 1);
    }
}

pub proof fn lemma_last_index_bounds(s: Seq<char>, c: char, end: int)
    ensures
        last_index_of(s, c, end) matches Some(k) ==> 0 <= k < end && s[k] == c,
    decreases end,
{
    if 0 < end <= s.len() && s[end - 1] != c {
        lemma_last_index_bounds(s, c, end - 1);
    }
}

/// Position of the first `c` in `v`.
pub fn find_char(v: &Vec<char>, c: char) -> (r: Option<usize>)
    ensures
        match first_index_of(v@, c, 0) {
            Some(k) => r == Some(k as usize),
            None => r is None,
        },
{
    let mut i: usize = 0;
    while i < v.len()
        invariant
            i <= v.len(),
            first_index_of(v@, c, 0) == first_index_of(v@, c, i as int),
        decreases v.len() - i,
    {
        if v[i] == c {
            return Some(i);
        }
        i = i + 1;
    }
    None
}

/// Position of the last `c` in `v`.
pub fn rfind_char(v: &Vec<char>, c: char) -> (r: Option<usize>)
    ensures
        match last_index_of(v@, c, v@.len() as int) {
            Some(k) => r == Some(k as usize),
            None => r is None,
        },
{
    let mut i: usize = v.len();
    while i > 0
        invariant
            i <= v.len(),
            last_index_of(v@, c, v@.len() as int) == last_index_of(v@, c, i as int),
        decreases i,
    {
        if v[i - 1] == c {
            return Some(i - 1);
        }
        i = i - 1;
    }
    None
}

/// `split_once` on a character vector.
pub fn split_once_exec(v: &Vec<char>, c: char) -> (r: Option<(Vec<char>, Vec<char>)>)
    ensures
        match split_once(v@, c) {
            Some((a, b)) => r matches Some((x, y)) && x@ == a && y@ == b,
            None => r is None,
        },
{
    proof {
        lemma_first_index_bounds(v@, c, 0);
    }
    match find_char(v, c) {
        Some(i) => Some((slice_chars(v, 0, i), slice_chars(v, i + 1, v.len()))),
        None => None,
    }
}

/// `rsplit_once` on a character vector.
pub fn rsplit_once_exec(v: &Vec<char>, c: char) -> (r: Option<(Vec<char>, Vec<char>)>)
    ensures
        match rsplit_once(v@, c) {
            Some((a, b)) => r matches Some((x, y)) && x@ == a && y@ == b,
            None => r is None,
        },
{
    proof {
        lemma_last_index_bounds(v@, c, v@.len() as int);
    }
    match rfind_char(v, c) {
        Some(i) => Some((slice_chars(v, 0, i), slice_chars(v, i + 1, v.len()))),
        None => None,
    }
}


/// Unicode `White_Space` (what `char::is_whitespace` and `str::trim` use).
pub open spec fn is_unicode_whitespace(c: char) -> bool {
    let v = c as u32;
    ||| 0x09 <= v <= 0x0d
    ||| v == 0x20
    ||| v == 0x85
    ||| v == 0xa0
    ||| v == 0x1680
    ||| 0x2000 <= v <= 0x200a
    ||| v == 0x2028
    ||| v == 0x2029
    ||| v == 0x202f
    ||| v == 0x205f
    ||| v == 0x3000
}

pub fn unicode_whitespace(c: char) -> (b: bool)
    ensures
        b == is_unicode_whitespace(c),
{
    let v = c as u32;
    (0x09 <= v && v <= 0x0d) || v == 0x20 || v == 0x85 || v == 0xa0 || v == 0x1680 || (0x2000
        <= v && v <= 0x200a) || v == 0x2028 || v == 0x2029 || v == 0x202f || v == 0x205f || v
        == 0x3000
}

/// Number of leading whitespace characters of `s`.
pub open spec fn leading_ws(s: Seq<char>) -> nat
    decreases s.len(),
{
    if s.len() > 0 && is_unicode_whitespace(s[0]) {
        1 + leading_ws(s.drop_first())
    } else {
        0
    }
}

/// Number of trailing whitespace characters of `s`.
pub open spec fn trailing_ws(s: Seq<char>) -> nat
    decreases s.len(),
{
    if s.len() > 0 && is_unicode_whitespace(s.last()) {
        1 + trailing_ws(s.drop_last())
    } else {
        0
    }
}

/// `str::trim`: `s` without leading and trailing whitespace.
pub open spec fn trim_seq(s: Seq<char>) -> Seq<char> {
    let t = s.skip(leading_ws(s) as int);
    t.take(t.len() - trailing_ws(t))
}

proof fn lemma_leading_ws(s: Seq<char>, i: int)
    requires
        0 <= i <= s.len(),
        forall|j: int| 0 <= j < i ==> is_unicode_whitespace(#[trigger] s[j]),
    ensures
        leading_ws(s) == i + leading_ws(s.skip(i)),
    decreases i,
{
    if i > 0 {
        assert(s.drop_first().skip(i - 1) =~= s.skip(i));
        assert(is_unicode_whitespace(s[0]));
        assert forall|j: int| 0 <= j < i - 1 implies is_unicode_whitespace(#[trigger] s.drop_first()[j]) by {
            assert(s.drop_first()[j] == s[j + 1]);
        }
        lemma_leading_ws(s.drop_first(), i - 1);
    } else {
        assert(s.skip(0) =~= s);
    }
}

pub proof fn lemma_trailing_ws(s: Seq<char>, i: int)
    requires
        0 <= i <= s.len(),
        forall|j: int| s.len() - i <= j < s.len() ==> is_unicode_whitespace(#[trigger] s[j]),
    ensures
        trailing_ws(s) == i + trailing_ws(s.take(s.len() - i)),
    decreases i,
{
    if i > 0 {
        assert(s.drop_last().take(s.drop_last().len() - (i - 1)) =~= s.take(s.len() - i));
        assert(is_unicode_whitespace(s[s.len() - 1]));
        assert forall|j: int| s.drop_last().len() - (i - 1) <= j < s.drop_last().len() implies is_unicode_whitespace(#[trigger] s.drop_last()[j]) by {
            assert(s.drop_last()[j] == s[j]);
        }
        lemma_trailing_ws(s.drop_last(), i - 1);
    } else {
        assert(s.take(s.len() as int) =~= s);
    }
}

/// `str::trim`.
pub fn trim(s: &str) -> (r: String)
    ensures
        r@ == trim_seq(s@),
{
    let v = chars_of(s);
    let mut start: usize = 0;
    while start < v.len() && unicode_whitespace(v[start])
        invariant
            v@ == s@,
            start <= v.len(),
            forall|j: int| 0 <= j < start ==> is_unicode_whitespace(#[trigger] v@[j]),
        decreases v.len() - start,
    {
        start = start + 1;
    }
    proof {
        lemma_leading_ws(s@, start as int);
        if start < v.len() {
            assert(leading_ws(s@.skip(start as int)) == 0);
        } else {
            assert(s@.skip(start as int).len() == 0);
        }
    }
    let t = slice_chars(&v, start, v.len());
    let mut end: usize = t.len();
    while end > 0 && unicode_whitespace(t[end - 1])
        invariant
            end <= t.len(),
            forall|j: int| end <= j < t.len() ==> is_unicode_whitespace(#[trigger] t@[j]),
        decreases end,
    {
        end = end - 1;
    }
    proof {
        let k = (t.len() - end) as int;
        lemma_trailing_ws(t@, k);
        assert(t@.take(t@.len() - k) =~= t@.take(end as int));
        if end > 0 {
            assert(trailing_ws(t@.take(end as int)) == 0);
        }
    }
    let r = slice_chars(&t, 0, end);
    proof {
        assert(t@ =~= s@.skip(start as int));
        assert(r@ =~= t@.take(end as int));
    }
    string_from_chars(&r)
}


/// `str::trim_end`: `s` without trailing whitespace.
pub open spec fn trim_end_seq(s: Seq<char>) -> Seq<char> {
    s.take(s.len() - trailing_ws(s))
}

/// `str::trim_end` on characters.
pub fn trim_end_chars(v: &Vec<char>) -> (r: Vec<char>)
    ensures
        r@ == trim_end_seq(v@),
{
    let mut end: usize = v.len();
    while end > 0 && unicode_whitespace(v[end - 1])
        invariant
            end <= v.len(),
            forall|j: int| end <= j < v.len() ==> is_unicode_whitespace(#[trigger] v@[j]),
        decreases end,
    {
        end = end - 1;
    }
    proof {
        let k = (v.len() - end) as int;
        lemma_trailing_ws(v@, k);
        assert(v@.take(v@.len() - k) =~= v@.take(end as int));
        if end > 0 {
            assert(trailing_ws(v@.take(end as int)) == 0);
        }
    }
    slice_chars(v, 0, end)
}

/// Number of trailing copies of `c` at the end of `s`.
pub open spec fn trailing_char(s: Seq<char>, c: char) -> nat
    decreases s.len(),
{
    if s.len() > 0 && s.last() == c {
        1 + trailing_char(s.drop_last(), c)
    } else {
        0
    }
}

/// `str::trim_end_matches(c)`: `s` without trailing copies of `c`.
pub open spec fn trim_end_char_seq(s: Seq<char>, c: char) -> Seq<char> {
    s.take(s.len() - trailing_char(s, c))
}

proof fn lemma_trailing_char(s: Seq<char>, c: char, i: int)
    requires
        0 <= i <= s.len(),
        forall|j: int| s.len() - i <= j < s.len() ==> #[trigger] s[j] == c,
    ensures
        trailing_char(s, c) == i + trailing_char(s.take(s.len() - i), c),
    decreases i,
{
    if i > 0 {
        assert(s.drop_last().take(s.drop_last().len() - (i - 1)) =~= s.take(s.len() - i));
        assert(s[s.len() - 1] == c);
        assert forall|j: int| s.drop_last().len() - (i - 1) <= j < s.drop_last().len() implies #[trigger] s.drop_last()[j] == c by {
            assert(s.drop_last()[j] == s[j]);
        }
        lemma_trailing_char(s.drop_last(), c, i - 1);
    } else {
        assert(s.take(s.len() as int) =~= s);
    }
}

/// `str::trim_end_matches(c)` on characters.
pub fn trim_end_char(v: &Vec<char>, c: char) -> (r: Vec<char>)
    ensures
        r@ == trim_end_char_seq(v@, c),
{
    let mut end: usize = v.len();
    while end > 0 && v[end - 1] == c
        invariant
            end <= v.len(),
            forall|j: int| end <= j < v.len() ==> #[trigger] v@[j] == c,
        decreases end,
    {
        end = end - 1;
    }
    proof {
        let k = (v.len() - end) as int;
        lemma_trailing_char(v@, c, k);
        assert(v@.take(v@.len() - k) =~= v@.take(end as int));
        if end > 0 {
            assert(trailing_char(v@.take(end as int), c) == 0);
        }
    }
    slice_chars(v, 0, end)
}

/// `str::strip_suffix`: `s` without the suffix `p`, if it ends with `p`.
pub open spec fn strip_suffix_seq(s: Seq<char>, p: Seq<char>) -> Option<Seq<char>> {
    if seq_ends_with(s, p) {
        Some(s.take(s.len() - p.len()))
    } else {
        None
    }
}

/// `str::strip_suffix` on characters.
pub fn strip_suffix_chars(v: &Vec<char>, p: &Vec<char>) -> (r: Option<Vec<char>>)
    ensures
        match strip_suffix_seq(v@, p@) {
            Some(t) => r matches Some(x) && x@ == t,
            None => r is None,
        },
{
    if ends_with(v, p) {
        let r = slice_chars(v, 0, v.len() - p.len());
        proof {
            assert(r@ =~= v@.take(v@.len() - p@.len()));
        }
        Some(r)
    } else {
        None
    }
}

/// First position at or after `i` where `p` occurs in `s`.
pub open spec fn find_sub(s: Seq<char>, p: Seq<char>, i: int) -> Option<int>
    decreases s.len() + 1 - i,
{
    if i < 0 || i + p.len() > s.len() {
        None
    } else if s.subrange(i, i + p.len()) == p {
        Some(i)
    } else {
        find_sub(s, p, i + 1)
    }
}

pub proof fn lemma_find_sub_bounds(s: Seq<char>, p: Seq<char>, i: int)
    ensures
        find_sub(s, p, i) matches Some(k) ==> i <= k && k + p.len() <= s.len() && s.subrange(
            k,
            k + p.len(),
        ) == p,
    decreases s.len() + 1 - i,
{
    if 0 <= i && i + p.len() <= s.len() && s.subrange(i, i + p.len()) != p {
        lemma_find_sub_bounds(s, p, i + 1);
    }
}

/// Whether `p` occurs in `s` at position `k`.
fn occurs_at(s: &Vec<char>, p: &Vec<char>, k: usize) -> (b: bool)
    requires
        k + p.len() <= s.len(),
    ensures
        b == (s@.subrange(k as int, k + p.len()) == p@),
{
    let mut i: usize = 0;
    while i < p.len()
        invariant
            k + p.len() <= s.len(),
            i <= p.len(),
            forall|j: int| 0 <= j < i ==> s@[k + j] == p@[j],
        decreases p.len() - i,
    {
        if s[k + i] != p[i] {
            proof {
                assert(s@.subrange(k as int, k + p.len())[i as int] != p@[i as int]);
            }
            return false;
        }
        i = i + 1;
    }
    proof {
        assert(s@.subrange(k as int, k + p.len()) =~= p@);
    }
    true
}

/// `str::find` with a string pattern.
pub fn find_sub_exec(s: &Vec<char>, p: &Vec<char>) -> (r: Option<usize>)
    ensures
        match find_sub(s@, p@, 0) {
            Some(k) => r == Some(k as usize),
            None => r is None,
        },
{
    proof {
        lemma_find_sub_bounds(s@, p@, 0);
    }
    if p.len() > s.len() {
        return None;
    }
    if p.len() == 0 {
        proof {
            assert(s@.subrange(0, 0) =~= p@);
        }
        return Some(0);
    }
    let mut k: usize = 0;
    while k <= s.len() - p.len()
        invariant
            0 < p.len() <= s.len(),
            k <= s.len() - p.len() + 1,
            find_sub(s@, p@, 0) == find_sub(s@, p@, k as int),
        decreases s.len() - p.len() + 1 - k,
    {
        if occurs_at(s, p, k) {
            return Some(k);
        }
        k = k + 1;
    }
    None
}

/// The pieces of `parts` joined with `sep` in between.
pub open spec fn join_seq(parts: Seq<Seq<char>>, sep: Seq<char>) -> Seq<char>
    decreases parts.len(),
{
    if parts.len() == 0 {
        Seq::empty()
    } else if parts.len() == 1 {
        parts[0]
    } else {
        join_seq(parts.drop_last(), sep) + sep + parts.last()
    }
}

/// `[&str]::join`.
pub fn join_strs(parts: &[&'static str], sep: &str) -> (r: String)
    ensures
        r@ == join_seq(parts@.map_values(|p: &'static str| p@), sep@),
{
    let ghost views = parts@.map_values(|p: &'static str| p@);
    let mut out = String::new();
    let mut i: usize = 0;
    while i < parts.len()
        invariant
            views == parts@.map_values(|p: &'static str| p@),
            i <= parts.len(),
            out@ == join_seq(views.take(i as int), sep@),
        decreases parts.len() - i,
    {
        proof {
            assert(views.take(i + 1).drop_last() =~= views.take(i as int));
        }
        if i != 0 {
            out.append(sep);
        } else {
            assert(views.take(0) =~= Seq::<Seq<char>>::empty());
        }
        out.append(parts[i]);
        proof {
            if i == 0 {
                assert(views.take(1)[0] == parts@[0]@);
                assert(out@ =~= join_seq(views.take(1), sep@));
            }
        }
        i = i + 1;
    }
    proof {
        assert(views.take(parts@.len() as int) =~= views);
    }
    out
}

} // verus!
