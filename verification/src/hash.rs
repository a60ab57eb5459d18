//! Digests.

use vstd::prelude::*;

verus! {

/// The SHA-256 digest of some bytes.
pub uninterp spec fn sha256(bytes: Seq<u8>) -> Seq<u8>;

/// Calls `sha2::Sha256::digest`. The digest is named; that it has 32 bytes is
/// stated.
#[verifier::external_body]
pub(crate) fn sha256_of(bytes: &[u8]) -> (r: Vec<u8>)
    ensures
        r@ == sha256(bytes@),
        r@.len() == 32,
{
    <sha2::Sha256 as sha2::Digest>::digest(bytes).to_vec()
}

/// The first `n` bytes as one number, most significant byte first.
pub open spec fn big_endian(bytes: Seq<u8>, n: int) -> int
    decreases n,
{
    if n <= 0 {
        0
    } else {
        big_endian(bytes, n - 1) * 256 + bytes[n - 1]
    }
}

/// The first 8 bytes as one number, most significant byte first.
pub fn leading_u64(bytes: &Vec<u8>) -> (r: u64)
    requires
        bytes@.len() >= 8,
    ensures
        r == big_endian(bytes@, 8),
{
    let mut n: u64 = 0;
    let mut i: usize = 0;
    let ghost mut bound: int = 1;
    while i < 8
        invariant
            i <= 8 <= bytes@.len(),
            n == big_endian(bytes@, i as int),
            n < bound,
            i == 0 ==> bound == 1,
            i == 1 ==> bound == 0x100,
            i == 2 ==> bound == 0x1_0000,
            i == 3 ==> bound == 0x100_0000,
            i == 4 ==> bound == 0x1_0000_0000,
            i == 5 ==> bound == 0x100_0000_0000,
            i == 6 ==> bound == 0x1_0000_0000_0000,
            i == 7 ==> bound == 0x100_0000_0000_0000,
            i == 8 ==> bound == 0x1_0000_0000_0000_0000,
        decreases 8 - i,
    {
        proof {
            bound = bound * 256;
        }
        n = n * 256 + bytes[i] as u64;
        i = i + 1;
    }
    n
}

/// One hexadecimal digit as a character.
pub open spec fn hex_digit(d: int) -> char {
    if d < 10 {
        (48 + d) as char
    } else {
        (87 + d) as char
    }
}

/// The last `width` hexadecimal digits of a number.
pub open spec fn hex(n: int, width: int) -> Seq<char>
    decreases width,
{
    if width <= 0 {
        Seq::empty()
    } else {
        hex(n / 16, width - 1).push(hex_digit(n % 16))
    }
}

fn hex_char(d: u64) -> (c: char)
    requires
        d < 16,
    ensures
        c == hex_digit(d as int),
{
    let b: u8 = if d < 10 {
        48 + d as u8
    } else {
        87 + d as u8
    };
    b as char
}

fn push_hex(s: &mut String, n: u64, width: u32)
    ensures
        final(s)@ == old(s)@ + hex(n as int, width as int),
    decreases width,
{
    if width > 0 {
        push_hex(s, n / 16, width - 1);
        s.push(hex_char(n % 16));
    }
    assert(s@ =~= old(s)@ + hex(n as int, width as int));
}

/// A number as 16 hexadecimal digits.
pub fn hex16(n: u64) -> (r: String)
    ensures
        r@ == hex(n as int, 16),
{
    let mut s: String = String::new();
    push_hex(&mut s, n, 16);
    assert(s@ =~= hex(n as int, 16));
    s
}

} // verus!
