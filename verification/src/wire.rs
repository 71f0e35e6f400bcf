//! The low-level writers of the wire format: fixed-width little-endian integers,
//! length-prefixed strings, null-terminated strings and binary blobs.

use vstd::prelude::*;
use vstd::string::StringSliceAdditionalSpecFns;
use vstd::string::StringExecFns;
use crate::error::{Error, ErrorView};

verus! {

/// The four bytes that hold the low 32 bits of `n`, least significant byte first. For a
/// negative `n` these are the bytes of its two's complement.
pub open spec fn le_bytes32(n: int) -> Seq<u8> {
    seq![
        (n % 256) as u8,
        ((n / 0x100) % 256) as u8,
        ((n / 0x1_0000) % 256) as u8,
        ((n / 0x100_0000) % 256) as u8,
    ]
}

/// The eight bytes that hold the low 64 bits of `n`, least significant byte first.
pub open spec fn le_bytes64(n: int) -> Seq<u8> {
    seq![
        (n % 256) as u8,
        ((n / 0x100) % 256) as u8,
        ((n / 0x1_0000) % 256) as u8,
        ((n / 0x100_0000) % 256) as u8,
        ((n / 0x1_0000_0000) % 256) as u8,
        ((n / 0x100_0000_0000) % 256) as u8,
        ((n / 0x1_0000_0000_0000) % 256) as u8,
        ((n / 0x100_0000_0000_0000) % 256) as u8,
    ]
}

/// The signed 32-bit integer that the four bytes from `at` on spell, least significant
/// byte first.
pub open spec fn read_i32(bytes: Seq<u8>, at: int) -> int
    recommends
        0 <= at,
        at + 4 <= bytes.len(),
{
    let u = bytes[at] as int + 0x100 * (bytes[at + 1] as int) + 0x1_0000 * (bytes[at + 2] as int)
        + 0x100_0000 * (bytes[at + 3] as int);
    if u >= 0x8000_0000 {
        u - 0x1_0000_0000
    } else {
        u
    }
}

/// Reading back what `le_bytes32` wrote gives the number, as long as it is a signed
/// 32-bit integer.
pub proof fn lemma_read_i32_of_le_bytes32(n: int)
    requires
        -0x8000_0000 <= n < 0x8000_0000,
    ensures
        read_i32(le_bytes32(n), 0) == n,
{
    let q1 = n / 0x100;
    let q2 = n / 0x1_0000;
    let q3 = n / 0x100_0000;
    let q4 = n / 0x1_0000_0000;
    assert(q2 == q1 / 0x100);
    assert(q3 == q2 / 0x100);
    assert(q4 == q3 / 0x100);
    let b0 = n % 256;
    let b1 = q1 % 256;
    let b2 = q2 % 256;
    let b3 = q3 % 256;
    assert(n == b0 + 0x100 * b1 + 0x1_0000 * b2 + 0x100_0000 * b3 + 0x1_0000_0000 * q4);
    assert(q4 == 0 || q4 == -1);
    let bytes = le_bytes32(n);
    assert(bytes[0] as int == b0);
    assert(bytes[1] as int == b1);
    assert(bytes[2] as int == b2);
    assert(bytes[3] as int == b3);
}

/// `head` is the beginning of `bytes`: nothing that was written has been taken back
/// or changed.
pub open spec fn begins_with(bytes: Seq<u8>, head: Seq<u8>) -> bool {
    head.len() <= bytes.len() && bytes.subrange(0, head.len() as int) == head
}

/// A buffer begins with itself, and with each of its beginnings.
pub proof fn lemma_begins_with_front(head: Seq<u8>, more: Seq<u8>)
    ensures
        begins_with(head, head),
        begins_with(head + more, head),
{
    assert(head.subrange(0, head.len() as int) =~= head);
    assert((head + more).subrange(0, head.len() as int) =~= head);
}

/// The beginning of a beginning is a beginning.
pub proof fn lemma_begins_with_chain(bytes: Seq<u8>, middle: Seq<u8>, head: Seq<u8>)
    requires
        begins_with(bytes, middle),
        begins_with(middle, head),
    ensures
        begins_with(bytes, head),
{
    assert(bytes.subrange(0, head.len() as int) =~= middle.subrange(0, head.len() as int));
}

/// The byte that stands for a boolean: 1 for true, 0 for false.
pub open spec fn bool_byte(v: bool) -> u8 {
    if v {
        1
    } else {
        0
    }
}

/// The wire form of a string value: the byte length plus one as a 32-bit integer, the
/// UTF-8 bytes, and a terminating zero. No limit is put on the length: of one that
/// does not fit, the low 32 bits are written.
pub open spec fn string_bytes(utf8: Seq<u8>) -> Seq<u8> {
    le_bytes32(utf8.len() as int + 1) + utf8 + seq![0u8]
}

/// The wire form of a null-terminated string: the UTF-8 bytes and a terminating zero.
pub open spec fn cstring_bytes(utf8: Seq<u8>) -> Seq<u8> {
    utf8 + seq![0u8]
}

/// The wire form of a binary value: the length as a 32-bit integer, the subtype byte,
/// and the data. Of a length that does not fit, the low 32 bits are written.
pub open spec fn binary_bytes(data: Seq<u8>, subtype: u8) -> Seq<u8> {
    le_bytes32(data.len() as int) + seq![subtype] + data
}

/// Adding a multiple of `256 * d` to `n` leaves the byte of `n` at weight `d` as it was.
proof fn lemma_byte_ignores_high_part(n: int, d: int, c: int)
    requires
        d > 0,
    ensures
        ((n + c * 256 * d) / d) % 256 == (n / d) % 256,
{
    vstd::arithmetic::div_mod::lemma_hoist_over_denominator(n, c * 256, d as nat);
    vstd::arithmetic::div_mod::lemma_mod_multiples_vanish(c, n / d, 256);
    assert(n + (c * 256) * d == n + c * 256 * d) by (nonlinear_arith);
    assert(256 * c + n / d == n / d + c * 256);
}

/// The low 32 bits of a number do not change when a multiple of 2^32 is added.
pub proof fn lemma_le_bytes32_wraps(n: int, c: int)
    ensures
        le_bytes32(n + c * 0x1_0000_0000) == le_bytes32(n),
{
    lemma_byte_ignores_high_part(n, 1, c * 0x100_0000);
    lemma_byte_ignores_high_part(n, 0x100, c * 0x1_0000);
    lemma_byte_ignores_high_part(n, 0x1_0000, c * 0x100);
    lemma_byte_ignores_high_part(n, 0x100_0000, c);
    assert(le_bytes32(n + c * 0x1_0000_0000) =~= le_bytes32(n));
}

/// The low 64 bits of a number do not change when a multiple of 2^64 is added.
pub proof fn lemma_le_bytes64_wraps(n: int, c: int)
    ensures
        le_bytes64(n + c * 0x1_0000_0000_0000_0000) == le_bytes64(n),
{
    lemma_byte_ignores_high_part(n, 1, c * 0x100_0000_0000_0000);
    lemma_byte_ignores_high_part(n, 0x100, c * 0x1_0000_0000_0000);
    lemma_byte_ignores_high_part(n, 0x1_0000, c * 0x100_0000_0000);
    lemma_byte_ignores_high_part(n, 0x100_0000, c * 0x1_0000_0000);
    lemma_byte_ignores_high_part(n, 0x1_0000_0000, c * 0x100_0000);
    lemma_byte_ignores_high_part(n, 0x100_0000_0000, c * 0x1_0000);
    lemma_byte_ignores_high_part(n, 0x1_0000_0000_0000, c * 0x100);
    lemma_byte_ignores_high_part(n, 0x100_0000_0000_0000, c);
    assert(le_bytes64(n + c * 0x1_0000_0000_0000_0000) =~= le_bytes64(n));
}

/// Appends the low 32 bits of `n`, least significant byte first.
fn push_le32(bytes: &mut Vec<u8>, n: u128)
    ensures
        final(bytes)@ == old(bytes)@ + le_bytes32(n as int),
{
    bytes.push((n % 256) as u8);
    bytes.push(((n / 0x100) % 256) as u8);
    bytes.push(((n / 0x1_0000) % 256) as u8);
    bytes.push(((n / 0x100_0000) % 256) as u8);
    assert(bytes@ =~= old(bytes)@ + le_bytes32(n as int));
}

/// Appends the low 64 bits of `n`, least significant byte first.
fn push_le64(bytes: &mut Vec<u8>, n: u128)
    ensures
        final(bytes)@ == old(bytes)@ + le_bytes64(n as int),
{
    bytes.push((n % 256) as u8);
    bytes.push(((n / 0x100) % 256) as u8);
    bytes.push(((n / 0x1_0000) % 256) as u8);
    bytes.push(((n / 0x100_0000) % 256) as u8);
    bytes.push(((n / 0x1_0000_0000) % 256) as u8);
    bytes.push(((n / 0x100_0000_0000) % 256) as u8);
    bytes.push(((n / 0x1_0000_0000_0000) % 256) as u8);
    bytes.push(((n / 0x100_0000_0000_0000) % 256) as u8);
    assert(bytes@ =~= old(bytes)@ + le_bytes64(n as int));
}

/// Appends a signed 32-bit integer in little-endian order.
pub fn write_i32(bytes: &mut Vec<u8>, val: i32)
    ensures
        final(bytes)@ == old(bytes)@ + le_bytes32(val as int),
{
    let wide: i64 = val as i64;
    let n: u128 = if wide < 0 {
        (wide + 0x1_0000_0000) as u128
    } else {
        wide as u128
    };
    proof {
        if wide < 0 {
            lemma_le_bytes32_wraps(val as int, 1);
        }
    }
    push_le32(bytes, n);
}

/// Appends a signed 64-bit integer in little-endian order.
pub fn write_i64(bytes: &mut Vec<u8>, val: i64)
    ensures
        final(bytes)@ == old(bytes)@ + le_bytes64(val as int),
{
    let wide: i128 = val as i128;
    let n: u128 = if wide < 0 {
        (wide + 0x1_0000_0000_0000_0000) as u128
    } else {
        wide as u128
    };
    proof {
        if wide < 0 {
            lemma_le_bytes64_wraps(val as int, 1);
        }
    }
    push_le64(bytes, n);
}

/// Appends an unsigned 64-bit pattern in little-endian order. A double travels as its
/// IEEE 754 bit pattern.
pub fn write_u64(bytes: &mut Vec<u8>, val: u64)
    ensures
        final(bytes)@ == old(bytes)@ + le_bytes64(val as int),
{
    push_le64(bytes, val as u128);
}

/// Appends a length as a 32-bit integer in little-endian order. Only the low 32 bits of
/// a longer length are kept.
pub fn write_length(bytes: &mut Vec<u8>, len: usize)
    ensures
        final(bytes)@ == old(bytes)@ + le_bytes32(len as int),
{
    push_le32(bytes, len as u128);
}

/// The 32-bit integer that holds the low 32 bits of a length: the length itself where
/// it fits.
pub fn length_i32(len: usize) -> (val: i32)
    ensures
        le_bytes32(val as int) == le_bytes32(len as int),
        len <= i32::MAX ==> val == len,
{
    let low: u64 = (len as u64) % 0x1_0000_0000;
    let val: i32 = if low >= 0x8000_0000 {
        (low as i64 - 0x1_0000_0000) as i32
    } else {
        low as i32
    };
    proof {
        let c = (len as int) / 0x1_0000_0000;
        assert(len as int == low as int + c * 0x1_0000_0000);
        lemma_le_bytes32_wraps(low as int, c);
        if low >= 0x8000_0000 {
            lemma_le_bytes32_wraps(val as int, 1);
        }
    }
    val
}

/// Appends a string value.
pub fn write_string(bytes: &mut Vec<u8>, s: &str)
    ensures
        final(bytes)@ == old(bytes)@ + string_bytes(s.spec_bytes()),
{
    let utf8 = s.as_bytes();
    push_le32(bytes, utf8.len() as u128 + 1);
    bytes.extend_from_slice(utf8);
    bytes.push(0);
    assert(bytes@ =~= old(bytes)@ + string_bytes(s.spec_bytes()));
}

/// Tells whether a zero byte occurs in `utf8`.
fn has_zero_byte(utf8: &[u8]) -> (found: bool)
    ensures
        found == utf8@.contains(0u8),
{
    let mut i: usize = 0;
    while i < utf8.len()
        invariant
            0 <= i <= utf8@.len(),
            forall|j: int| 0 <= j < i ==> utf8@[j] != 0u8,
        decreases utf8@.len() - i,
    {
        if utf8[i] == 0 {
            return true;
        }
        i += 1;
    }
    false
}

/// Appends a null-terminated string, or refuses one that holds a zero byte and leaves
/// the buffer as it was.
pub fn write_cstring(bytes: &mut Vec<u8>, s: &str) -> (res: Result<(), Error>)
    ensures
        s.spec_bytes().contains(0u8) ==> res is Err && res->Err_0@ == ErrorView::InvalidCString(s@)
            && final(bytes)@ == old(bytes)@,
        !s.spec_bytes().contains(0u8) ==> res is Ok && final(bytes)@ == old(bytes)@ + cstring_bytes(
            s.spec_bytes(),
        ),
{
    let utf8 = s.as_bytes();
    if has_zero_byte(utf8) {
        return Err(Error::InvalidCString(String::from_str(s)));
    }
    bytes.extend_from_slice(utf8);
    bytes.push(0);
    assert(bytes@ =~= old(bytes)@ + cstring_bytes(s.spec_bytes()));
    Ok(())
}

/// Appends a binary value with the given subtype byte.
pub fn write_binary(bytes: &mut Vec<u8>, data: &[u8], subtype: u8)
    ensures
        final(bytes)@ == old(bytes)@ + binary_bytes(data@, subtype),
{
    push_le32(bytes, data.len() as u128);
    bytes.push(subtype);
    bytes.extend_from_slice(data);
    assert(bytes@ =~= old(bytes)@ + binary_bytes(data@, subtype));
}

} // verus!
