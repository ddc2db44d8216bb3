//! Fixed-width integers on the wire: four bytes, least significant first,
//! negative numbers in two's complement.

use vstd::prelude::*;

verus! {

/// The integer that four wire bytes stand for.
pub open spec fn int_of_le(bytes: Seq<u8>) -> int
    recommends
        bytes.len() == 4,
{
    let u = bytes[0] as int + 256 * (bytes[1] as int) + 65536 * (bytes[2] as int) + 16777216 * (
    bytes[3] as int);
    if u >= 2147483648 {
        u - 4294967296
    } else {
        u
    }
}

/// The four wire bytes of an integer in the 32-bit signed range.
pub open spec fn le_of_int(value: int) -> Seq<u8>
    recommends
        i32::MIN <= value <= i32::MAX,
{
    let u = if value < 0 {
        value + 4294967296
    } else {
        value
    };
    seq![
        (u % 256) as u8,
        ((u / 256) % 256) as u8,
        ((u / 65536) % 256) as u8,
        (u / 16777216) as u8,
    ]
}

/// Decoding what was encoded gives the integer back.
pub proof fn lemma_int_round_trip(value: int)
    requires
        i32::MIN <= value <= i32::MAX,
    ensures
        le_of_int(value).len() == 4,
        int_of_le(le_of_int(value)) == value,
{
}

/// Encoding what was decoded gives the bytes back: no two byte strings
/// stand for the same integer.
pub proof fn lemma_bytes_round_trip(bytes: Seq<u8>)
    requires
        bytes.len() == 4,
    ensures
        i32::MIN <= int_of_le(bytes) <= i32::MAX,
        le_of_int(int_of_le(bytes)) == bytes,
{
    let b0 = bytes[0] as int;
    let b1 = bytes[1] as int;
    let b2 = bytes[2] as int;
    let b3 = bytes[3] as int;
    let u = b0 + 256 * b1 + 65536 * b2 + 16777216 * b3;
    assert(u / 16777216 == b3 && u / 65536 == b2 + 256 * b3 && u / 256 == b1 + 256 * b2 + 65536
        * b3);
    assert(u % 256 == b0 && (u / 256) % 256 == b1 && (u / 65536) % 256 == b2);
    let back = le_of_int(int_of_le(bytes));
    assert(back.len() == 4);
    assert(back[0] == bytes[0] && back[1] == bytes[1] && back[2] == bytes[2] && back[3]
        == bytes[3]);
    assert(back =~= bytes);
}

/// Reads the integer that starts at `at`.
pub fn read_i32(bytes: &[u8], at: usize) -> (value: i32)
    requires
        at + 4 <= bytes@.len(),
    ensures
        value == int_of_le(bytes@.subrange(at as int, at + 4)),
{
    let b0: i64 = bytes[at] as i64;
    let b1: i64 = bytes[at + 1] as i64;
    let b2: i64 = bytes[at + 2] as i64;
    let b3: i64 = bytes[at + 3] as i64;
    let u: i64 = b0 + 256 * b1 + 65536 * b2 + 16777216 * b3;
    if u >= 2147483648 {
        (u - 4294967296) as i32
    } else {
        u as i32
    }
}

/// Appends the four wire bytes of `value`.
pub fn write_i32(out: &mut Vec<u8>, value: i32)
    ensures
        final(out)@ == old(out)@ + le_of_int(value as int),
{
    let u: i64 = if value < 0 {
        value as i64 + 4294967296
    } else {
        value as i64
    };
    out.push((u % 256) as u8);
    out.push(((u / 256) % 256) as u8);
    out.push(((u / 65536) % 256) as u8);
    out.push((u / 16777216) as u8);
    assert(out@ =~= old(out)@ + le_of_int(value as int));
}

} // verus!
