//! Big-endian integer fields and decimal rendering for the wire protocol.
//!
//! The broker's binary frames carry big-endian integers; its text commands
//! carry decimal counts. The spec functions here say what those byte
//! sequences mean, and the executable functions read and write them.

use vstd::prelude::*;

use byteorder::BigEndian;
use byteorder::ByteOrder;

verus! {

/// The unsigned big-endian value of a 2-byte sequence.
pub open spec fn be_u16_int(s: Seq<u8>) -> int
    recommends
        s.len() == 2,
{
    s[0] * 0x100 + s[1]
}

/// The unsigned big-endian value of a 4-byte sequence.
pub open spec fn be_u32_int(s: Seq<u8>) -> int
    recommends
        s.len() == 4,
{
    s[0] * 0x1000000 + s[1] * 0x10000 + s[2] * 0x100 + s[3]
}

/// The unsigned big-endian value of an 8-byte sequence.
pub open spec fn be_u64_int(s: Seq<u8>) -> int
    recommends
        s.len() == 8,
{
    be_u32_int(s.take(4)) * 0x100000000 + be_u32_int(s.skip(4))
}

/// The two's-complement value of a 4-byte big-endian sequence.
pub open spec fn be_i32_int(s: Seq<u8>) -> int
    recommends
        s.len() == 4,
{
    if be_u32_int(s) >= 0x80000000 {
        be_u32_int(s) - 0x100000000
    } else {
        be_u32_int(s)
    }
}

/// The two's-complement value of an 8-byte big-endian sequence.
pub open spec fn be_i64_int(s: Seq<u8>) -> int
    recommends
        s.len() == 8,
{
    if be_u64_int(s) >= 0x8000000000000000 {
        be_u64_int(s) - 0x10000000000000000
    } else {
        be_u64_int(s)
    }
}

/// Relies on `byteorder::BigEndian::read_u16`, which reads the first two
/// bytes of the slice as an unsigned big-endian integer and panics on a
/// shorter slice.
#[verifier::external_body]
pub fn be_read_u16(s: &[u8]) -> (r: u16)
    requires
        s@.len() >= 2,
    ensures
        r as int == be_u16_int(s@.take(2)),
{
    BigEndian::read_u16(s)
}

/// Relies on `byteorder::BigEndian::read_i32`, which reads the first four
/// bytes of the slice as a big-endian two's-complement integer and panics on
/// a shorter slice.
#[verifier::external_body]
pub fn be_read_i32(s: &[u8]) -> (r: i32)
    requires
        s@.len() >= 4,
    ensures
        r as int == be_i32_int(s@.take(4)),
{
    BigEndian::read_i32(s)
}

/// Relies on `byteorder::BigEndian::read_i64`, which reads the first eight
/// bytes of the slice as a big-endian two's-complement integer and panics on
/// a shorter slice.
#[verifier::external_body]
pub fn be_read_i64(s: &[u8]) -> (r: i64)
    requires
        s@.len() >= 8,
    ensures
        r as int == be_i64_int(s@.take(8)),
{
    BigEndian::read_i64(s)
}

/// Read the 4-byte big-endian length prefix at `at`.
pub fn read_be_u32(s: &[u8], at: usize) -> (r: u32)
    requires
        at + 4 <= s@.len(),
    ensures
        r as int == be_u32_int(s@.subrange(at as int, at as int + 4)),
{
    let n = s.len();
    assert(at + 4 <= n);
    let b0 = *vstd::slice::slice_index_get(s, at);
    let b1 = *vstd::slice::slice_index_get(s, at + 1);
    let b2 = *vstd::slice::slice_index_get(s, at + 2);
    let b3 = *vstd::slice::slice_index_get(s, at + 3);
    let r = (b0 as u32) * 0x1000000 + (b1 as u32) * 0x10000 + (b2 as u32) * 0x100 + (b3 as u32);
    proof {
        let sub = s@.subrange(at as int, at as int + 4);
        assert(sub[0] == b0 && sub[1] == b1 && sub[2] == b2 && sub[3] == b3);
    }
    r
}

/// The decimal digits of `n`, most significant first.
pub open spec fn dec_digits(n: int) -> Seq<u8>
    recommends
        n >= 0,
    decreases n,
{
    if n < 10 {
        seq![(48 + if n >= 0 { n } else { 0 }) as u8]
    } else {
        dec_digits(n / 10) + seq![(48 + n % 10) as u8]
    }
}

/// Render `n` in decimal, most significant digit first.
pub fn write_decimal(n: u64) -> (v: Vec<u8>)
    ensures
        v@ == dec_digits(n as int),
    decreases n,
{
    if n < 10 {
        let mut v: Vec<u8> = Vec::new();
        v.push(48 + n as u8);
        assert(v@ =~= dec_digits(n as int));
        v
    } else {
        let mut v = write_decimal(n / 10);
        v.push(48 + (n % 10) as u8);
        assert(v@ =~= dec_digits(n as int));
        v
    }
}

/// Ten to the `k`.
pub open spec fn pow10(k: nat) -> int
    decreases k,
{
    if k == 0 {
        1
    } else {
        10 * pow10((k - 1) as nat)
    }
}

proof fn lemma_dec_digits_len_rec(n: int, k: nat)
    requires
        0 <= n,
        k >= 1,
        n < pow10(k),
    ensures
        dec_digits(n).len() <= k,
    decreases k,
{
    if n >= 10 {
        assert(pow10(k) == 10 * pow10((k - 1) as nat));
        lemma_dec_digits_len_rec(n / 10, (k - 1) as nat);
    }
}

/// A 64-bit count has at most 20 decimal digits.
pub proof fn lemma_dec_digits_len(n: int)
    requires
        0 <= n < 0x10000000000000000,
    ensures
        dec_digits(n).len() <= 20,
{
    reveal_with_fuel(pow10, 21);
    assert(pow10(20) == 100000000000000000000);
    lemma_dec_digits_len_rec(n, 20);
}

} // verus!
