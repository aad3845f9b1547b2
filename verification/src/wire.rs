//! Byte-level building blocks of the NSQ wire format: big-endian integers and
//! UTF-8 text.
use vstd::prelude::*;
use vstd::string::StringExecFns;
use vstd::utf8::*;

verus! {

/// The unsigned integer that four bytes encode, most significant byte first.
pub open spec fn be_u32(b: Seq<u8>) -> int {
    b[0] * 0x100_0000 + b[1] * 0x1_0000 + b[2] * 0x100 + b[3]
}

/// The unsigned integer that eight bytes encode, most significant byte first.
pub open spec fn be_u64(b: Seq<u8>) -> int {
    be_u32(b.subrange(0, 4)) * 0x1_0000_0000 + be_u32(b.subrange(4, 8))
}

/// The four bytes that encode `x`, most significant byte first.
pub open spec fn be_u32_bytes(x: u32) -> Seq<u8> {
    seq![
        (x / 0x100_0000) as u8,
        ((x / 0x1_0000) % 0x100) as u8,
        ((x / 0x100) % 0x100) as u8,
        (x % 0x100) as u8,
    ]
}

/// The UTF-8 bytes of a string.
pub open spec fn utf8_bytes(s: Seq<char>) -> Seq<u8> {
    encode_utf8(s)
}

/// The character of a decimal digit.
pub open spec fn digit_char(d: int) -> char {
    (48 + d) as char
}

/// The decimal digits of a natural number, most significant first, with no
/// leading zeros.
pub open spec fn nat_digits(n: nat) -> Seq<char>
    decreases n,
{
    if n < 10 {
        seq![digit_char(n as int)]
    } else {
        nat_digits(n / 10) + seq![digit_char((n % 10) as int)]
    }
}

/// The decimal representation of an integer, with a leading `-` when it is
/// negative.
pub open spec fn decimal_chars(x: int) -> Seq<char> {
    if x < 0 {
        seq!['-'] + nat_digits((-x) as nat)
    } else {
        nat_digits(x as nat)
    }
}

/// Calls `ToString::to_string` on an `i64`; the standard library documents
/// the `Display` of an integer as its decimal representation, with a `-`
/// in front of a negative value.
#[verifier::external_body]
pub fn decimal_string(x: i64) -> (s: String)
    ensures
        s@ == decimal_chars(x as int),
{
    x.to_string()
}

/// Reading back the four bytes written for `x` gives `x`.
pub proof fn lemma_be_u32_roundtrip(x: u32)
    ensures
        be_u32_bytes(x).len() == 4,
        be_u32(be_u32_bytes(x)) == x,
{
    let b = be_u32_bytes(x);
    assert(b[0] == x / 0x100_0000);
    assert(b[1] == (x / 0x1_0000) % 0x100);
    assert(b[2] == (x / 0x100) % 0x100);
    assert(b[3] == x % 0x100);
}

/// Reads the big-endian `u32` that starts at `at`.
pub fn read_u32_be(s: &[u8], at: usize) -> (v: u32)
    requires
        at + 4 <= s@.len(),
    ensures
        v == be_u32(s@.subrange(at as int, at + 4)),
{
    let b0 = s[at] as u32;
    let b1 = s[at + 1] as u32;
    let b2 = s[at + 2] as u32;
    let b3 = s[at + 3] as u32;
    b0 * 0x100_0000 + b1 * 0x1_0000 + b2 * 0x100 + b3
}

/// Reads the big-endian `u64` that starts at `at`.
pub fn read_u64_be(s: &[u8], at: usize) -> (v: u64)
    requires
        at + 8 <= s@.len(),
    ensures
        v == be_u64(s@.subrange(at as int, at + 8)),
{
    let n = s.len();
    assert(at + 8 <= n);
    let hi = read_u32_be(s, at) as u64;
    let lo = read_u32_be(s, at + 4) as u64;
    assert(s@.subrange(at as int, at + 8).subrange(0, 4) =~= s@.subrange(at as int, at + 4));
    assert(s@.subrange(at as int, at + 8).subrange(4, 8) =~= s@.subrange(at + 4, at + 8));
    hi * 0x1_0000_0000 + lo
}

/// The four bytes that encode `x`, most significant byte first.
pub fn u32_be_bytes(x: u32) -> (v: Vec<u8>)
    ensures
        v@ == be_u32_bytes(x),
{
    let v = vec![
        (x / 0x100_0000) as u8,
        ((x / 0x1_0000) % 0x100) as u8,
        ((x / 0x100) % 0x100) as u8,
        (x % 0x100) as u8,
    ];
    assert(v@ =~= be_u32_bytes(x));
    v
}

/// Calls `std::str::from_utf8`, which the standard library documents to
/// succeed exactly when the bytes are valid UTF-8, handing back a string
/// slice over those same bytes.
#[verifier::external_body]
fn str_from_utf8(bytes: &[u8]) -> (r: Option<&str>)
    ensures
        r is Some <==> valid_utf8(bytes@),
        r matches Some(s) ==> utf8_bytes(s@) == bytes@,
{
    std::str::from_utf8(bytes).ok()
}

/// The text that the bytes encode, if they are valid UTF-8.
pub fn utf8_string(bytes: &[u8]) -> (r: Option<String>)
    ensures
        r is Some <==> valid_utf8(bytes@),
        r matches Some(s) ==> s@ == decode_utf8(bytes@) && utf8_bytes(s@) == bytes@,
{
    match str_from_utf8(bytes) {
        Some(s) => {
            proof {
                encode_utf8_decode_utf8(s@);
            }
            Some(String::from_str(s))
        },
        None => None,
    }
}

/// The bytes of a string slice.
pub fn str_bytes(s: &str) -> (b: &[u8])
    ensures
        b@ == utf8_bytes(s@),
{
    s.as_bytes()
}

} // verus!
