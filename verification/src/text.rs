//! Verified text formatting: decimal and hexadecimal rendering of integers
//! and the clock-face rendering of timestamps.

use vstd::prelude::*;

verus! {

/// The character for one decimal digit.
pub open spec fn dec_digit(d: int) -> char {
    if d == 0 { '0' }
    else if d == 1 { '1' }
    else if d == 2 { '2' }
    else if d == 3 { '3' }
    else if d == 4 { '4' }
    else if d == 5 { '5' }
    else if d == 6 { '6' }
    else if d == 7 { '7' }
    else if d == 8 { '8' }
    else { '9' }
}

/// The decimal rendering of a natural number: no leading zeros, a single
/// `'0'` for zero.
pub open spec fn dec_chars(n: nat) -> Seq<char>
    decreases n,
{
    if n < 10 {
        seq![dec_digit(n as int)]
    } else {
        dec_chars(n / 10).push(dec_digit((n % 10) as int))
    }
}

/// The character for one hexadecimal digit.
pub open spec fn hex_digit(d: int) -> char {
    if d < 10 { dec_digit(d) }
    else if d == 10 { 'a' }
    else if d == 11 { 'b' }
    else if d == 12 { 'c' }
    else if d == 13 { 'd' }
    else if d == 14 { 'e' }
    else { 'f' }
}

/// Two lowercase hex characters for one byte.
pub open spec fn hex_byte_chars(b: u8) -> Seq<char> {
    seq![hex_digit(b as int / 16), hex_digit(b as int % 16)]
}

/// The lowercase hex rendering of a byte string, two characters per byte.
pub open spec fn hex_chars(bytes: Seq<u8>) -> Seq<char>
    decreases bytes.len(),
{
    if bytes.len() == 0 {
        Seq::empty()
    } else {
        hex_chars(bytes.drop_last()) + hex_byte_chars(bytes.last())
    }
}

/// Equality of two strings, decided on their UTF-8 bytes; UTF-8 encoding
/// is injective, so byte equality is character equality.
pub fn str_eq(a: &str, b: &str) -> (r: bool)
    ensures
        r == (a@ == b@),
{
    let r = crate::bytes_util::bytes_eq(a.as_bytes(), b.as_bytes());
    proof {
        vstd::utf8::encode_utf8_decode_utf8(a@);
        vstd::utf8::encode_utf8_decode_utf8(b@);
    }
    r
}

/// Bounds on the UTF-8 byte length of a character sequence: at least one
/// and at most four bytes per character.
pub proof fn lemma_encode_utf8_len(chars: Seq<char>)
    ensures
        chars.len() <= vstd::utf8::encode_utf8(chars).len() <= 4 * chars.len(),
    decreases chars.len(),
{
    if chars.len() > 0 {
        lemma_encode_utf8_len(chars.drop_first());
    }
}

/// The one-character string for a decimal digit.
fn digit_str(d: u64) -> (r: &'static str)
    requires
        d < 10,
    ensures
        r@ =~= seq![dec_digit(d as int)],
{
    proof {
        reveal_strlit("0");
        reveal_strlit("1");
        reveal_strlit("2");
        reveal_strlit("3");
        reveal_strlit("4");
        reveal_strlit("5");
        reveal_strlit("6");
        reveal_strlit("7");
        reveal_strlit("8");
        reveal_strlit("9");
    }
    if d == 0 { "0" }
    else if d == 1 { "1" }
    else if d == 2 { "2" }
    else if d == 3 { "3" }
    else if d == 4 { "4" }
    else if d == 5 { "5" }
    else if d == 6 { "6" }
    else if d == 7 { "7" }
    else if d == 8 { "8" }
    else { "9" }
}

/// The one-character string for a hexadecimal digit.
fn hex_digit_str(d: u64) -> (r: &'static str)
    requires
        d < 16,
    ensures
        r@ =~= seq![hex_digit(d as int)],
{
    proof {
        reveal_strlit("a");
        reveal_strlit("b");
        reveal_strlit("c");
        reveal_strlit("d");
        reveal_strlit("e");
        reveal_strlit("f");
    }
    if d < 10 { digit_str(d) }
    else if d == 10 { "a" }
    else if d == 11 { "b" }
    else if d == 12 { "c" }
    else if d == 13 { "d" }
    else if d == 14 { "e" }
    else { "f" }
}

/// Renders an integer in decimal, exactly as `dec_chars` states.
pub fn u64_to_dec_string(n: u64) -> (r: String)
    ensures
        r@ == dec_chars(n as nat),
    decreases n,
{
    if n < 10 {
        let r = String::from_str(digit_str(n));
        proof {
            assert(r@ =~= dec_chars(n as nat));
        }
        r
    } else {
        let mut s = u64_to_dec_string(n / 10);
        s.append(digit_str(n % 10));
        proof {
            assert(s@ =~= dec_chars(n as nat));
        }
        s
    }
}

/// Renders a byte string in lowercase hex, exactly as `hex_chars` states.
pub fn bytes_to_hex_string(bytes: &[u8]) -> (r: String)
    ensures
        r@ == hex_chars(bytes@),
{
    let mut s = String::new();
    let mut i: usize = 0;
    while i < bytes.len()
        invariant
            i <= bytes@.len(),
            s@ == hex_chars(bytes@.subrange(0, i as int)),
        decreases bytes@.len() - i,
    {
        let b = bytes[i];
        s.append(hex_digit_str((b / 16) as u64));
        s.append(hex_digit_str((b % 16) as u64));
        proof {
            let pre = bytes@.subrange(0, i as int);
            let post = bytes@.subrange(0, i + 1 as int);
            assert(post.drop_last() =~= pre);
            assert(post.last() == b);
            assert(s@ =~= hex_chars(post));
        }
        i = i + 1;
    }
    proof {
        assert(bytes@.subrange(0, bytes@.len() as int) =~= bytes@);
    }
    s
}

/// Two decimal characters with a leading zero, for values below 100.
pub open spec fn two_dec_chars(n: int) -> Seq<char> {
    seq![dec_digit(n / 10), dec_digit(n % 10)]
}

/// The `HH:MM` clock face for a nonnegative Unix timestamp.
pub open spec fn clock_chars(timestamp: i64) -> Seq<char> {
    two_dec_chars((timestamp as int / 3600) % 24) + seq![':'] + two_dec_chars(
        (timestamp as int / 60) % 60,
    )
}

/// Renders the hour and minute of a Unix timestamp as `HH:MM`.
pub fn format_timestamp(timestamp: i64) -> (r: String)
    requires
        timestamp >= 0,
    ensures
        r@ == clock_chars(timestamp),
{
    proof {
        reveal_strlit(":");
    }
    let hours = (timestamp / 3600) % 24;
    let minutes = (timestamp / 60) % 60;
    let mut s = String::from_str(digit_str((hours / 10) as u64));
    s.append(digit_str((hours % 10) as u64));
    s.append(":");
    s.append(digit_str((minutes / 10) as u64));
    s.append(digit_str((minutes % 10) as u64));
    proof {
        assert(s@ =~= clock_chars(timestamp));
    }
    s
}

/// A date-time carrying only the Unix timestamp it was built from.
pub struct NaiveDateTime {
    pub timestamp: i64,
}

impl NaiveDateTime {
    /// Accepts any timestamp; the nanosecond argument is ignored.
    pub fn from_timestamp_opt(timestamp: i64, _nsecs: u32) -> (r: Option<NaiveDateTime>)
        ensures
            r matches Some(d) && d.timestamp == timestamp,
    {
        Some(NaiveDateTime { timestamp })
    }

    /// The format string is ignored: rendering is always `HH:MM`.
    pub fn format(&self, _fmt: &str) -> (r: FormattedTime)
        ensures
            r.timestamp == self.timestamp,
    {
        FormattedTime { timestamp: self.timestamp }
    }
}

/// A timestamp ready to be rendered as `HH:MM`.
pub struct FormattedTime {
    pub timestamp: i64,
}

impl FormattedTime {
    /// The `HH:MM` rendering of the carried timestamp.
    pub fn render(&self) -> (r: String)
        requires
            self.timestamp >= 0,
        ensures
            r@ == clock_chars(self.timestamp),
    {
        format_timestamp(self.timestamp)
    }
}

} // verus!
