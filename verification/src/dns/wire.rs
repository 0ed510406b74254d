//! Big-endian integers and byte copies in packet buffers.

use vstd::prelude::*;

verus! {

/// The number that two bytes stand for, the most significant byte first.
pub open spec fn be16(high: u8, low: u8) -> int {
    high * 0x100 + low
}

/// The number at `at` in `bytes`, two bytes long.
pub open spec fn u16_at(bytes: Seq<u8>, at: int) -> int {
    be16(bytes[at], bytes[at + 1])
}

/// The number at `at` in `bytes`, four bytes long.
pub open spec fn u32_at(bytes: Seq<u8>, at: int) -> int {
    u16_at(bytes, at) * 0x10000 + u16_at(bytes, at + 2)
}

/// The two bytes that stand for `value`.
pub open spec fn u16_bytes(value: u16) -> Seq<u8> {
    seq![(value / 0x100) as u8, (value % 0x100) as u8]
}

/// The four bytes that stand for `value`.
pub open spec fn u32_bytes(value: u32) -> Seq<u8> {
    u16_bytes((value / 0x10000) as u16) + u16_bytes((value % 0x10000) as u16)
}

/// `buffer` with `bytes` written over it from `at` on.
pub open spec fn overwritten(buffer: Seq<u8>, at: int, bytes: Seq<u8>) -> Seq<u8> {
    buffer.take(at) + bytes + buffer.skip(at + bytes.len())
}

/// Reading a number back gives the number that was written, wherever in a
/// packet its bytes stand.
pub proof fn lemma_u16_read_back(value: u16, bytes: Seq<u8>, at: int)
    requires
        0 <= at,
        at + 2 <= bytes.len(),
        bytes.subrange(at, at + 2) == u16_bytes(value),
    ensures
        u16_at(bytes, at) == value,
{
    let two = bytes.subrange(at, at + 2);
    assert(bytes[at] == two[0]);
    assert(bytes[at + 1] == two[1]);
}

/// Reading a number back gives the number that was written, wherever in a
/// packet its bytes stand.
pub proof fn lemma_u32_read_back(value: u32, bytes: Seq<u8>, at: int)
    requires
        0 <= at,
        at + 4 <= bytes.len(),
        bytes.subrange(at, at + 4) == u32_bytes(value),
    ensures
        u32_at(bytes, at) == value,
{
    let four = bytes.subrange(at, at + 4);
    assert(bytes[at] == four[0]);
    assert(bytes[at + 1] == four[1]);
    assert(bytes[at + 2] == four[2]);
    assert(bytes[at + 3] == four[3]);
}

/// Bytes written behind bytes written before are written together.
pub proof fn lemma_overwritten_twice(buffer: Seq<u8>, first: Seq<u8>, second: Seq<u8>)
    requires
        first.len() + second.len() <= buffer.len(),
    ensures
        overwritten(overwritten(buffer, 0, first), first.len() as int, second) == overwritten(
            buffer,
            0,
            first + second,
        ),
{
    assert(overwritten(overwritten(buffer, 0, first), first.len() as int, second) =~= overwritten(
        buffer,
        0,
        first + second,
    ));
}

/// Reads the two-byte number at `at`.
pub fn read_u16(bytes: &[u8], at: usize) -> (value: u16)
    requires
        at + 2 <= bytes.len(),
    ensures
        value == u16_at(bytes@, at as int),
{
    (bytes[at] as u16) * 0x100 + bytes[at + 1] as u16
}

/// Reads the four-byte number at `at`.
pub fn read_u32(bytes: &[u8], at: usize) -> (value: u32)
    requires
        at + 4 <= bytes.len(),
    ensures
        value == u32_at(bytes@, at as int),
{
    (read_u16(bytes, at) as u32) * 0x10000 + read_u16(bytes, at + 2) as u32
}

/// Writes a two-byte number at `at`.
pub fn put_u16(buffer: &mut [u8], at: usize, value: u16)
    requires
        at + 2 <= old(buffer).len(),
    ensures
        final(buffer)@ == overwritten(old(buffer)@, at as int, u16_bytes(value)),
{
    buffer[at] = (value / 0x100) as u8;
    buffer[at + 1] = (value % 0x100) as u8;
}

/// Copies `length` bytes of `source`, from `start` on, into `buffer` at `at`.
pub fn put_bytes(buffer: &mut [u8], at: usize, source: &[u8], start: usize, length: usize)
    requires
        at + length <= old(buffer).len(),
        start + length <= source.len(),
    ensures
        final(buffer)@ == overwritten(
            old(buffer)@,
            at as int,
            source@.subrange(start as int, start + length),
        ),
{
    let mut i: usize = 0;
    while i < length
        invariant
            i <= length,
            at + length <= old(buffer).len(),
            start + length <= source.len(),
            buffer@ == overwritten(
                old(buffer)@,
                at as int,
                source@.subrange(start as int, start + i),
            ),
        decreases length - i,
    {
        buffer[at + i] = source[start + i];
        i = i + 1;
    }
}

} // verus!
