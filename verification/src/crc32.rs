//! The CRC-32 checksum at the core of the identifier: the CKSUM variant
//! (most-significant-bit-first, zero initial state, inverted final state),
//! applied to every byte sequence hashed by this crate.
//!
//! The checksum is defined bit by bit as a fold over the input
//! (`crc_process`), and the executable functions are proved against that
//! definition.  The fold is linear over exclusive-or, which is what lets two
//! finished checksums be combined into the checksum of the concatenated
//! input without the input itself (`lemma_crc32_concat`).

use vstd::prelude::*;

verus! {

/// Generator polynomial of the CRC-32 CKSUM variant.
pub const CRC32_POLY: u32 = 0x04C1_1DB7;

/// Final-state inversion mask of the checksum.
pub const CRC32_XOR_OUT: u32 = 0xFFFF_FFFF;

/// One shift of the CRC state: multiply the state polynomial by x and
/// reduce modulo the generator polynomial.
pub open spec fn crc_step(s: u32) -> u32 {
    if s >= 0x8000_0000 {
        (s << 1) ^ CRC32_POLY
    } else {
        s << 1
    }
}

/// Eight state shifts: one input byte's worth of polynomial division.
pub open spec fn crc_step8(s: u32) -> u32 {
    crc_step(crc_step(crc_step(crc_step(crc_step(crc_step(crc_step(crc_step(s))))))))
}

/// Feed one input byte into the CRC state, most significant bit first.
pub open spec fn crc_feed(s: u32, b: u8) -> u32 {
    crc_step8(s ^ ((b as u32) << 24))
}

/// The CRC state after feeding every byte of `bytes` in order, starting
/// from state `s`.
pub open spec fn crc_process(s: u32, bytes: Seq<u8>) -> u32
    decreases bytes.len(),
{
    if bytes.len() == 0 {
        s
    } else {
        crc_feed(crc_process(s, bytes.drop_last()), bytes.last())
    }
}

/// The CRC-32 CKSUM checksum of a byte sequence.
pub open spec fn crc32_cksum(bytes: Seq<u8>) -> u32 {
    crc_process(0, bytes) ^ CRC32_XOR_OUT
}

/// The CRC state after feeding `n` zero bytes, starting from state `s`.
/// This is the correction term of the concatenation formula.
pub open spec fn crc_zeros(s: u32, n: nat) -> u32
    decreases n,
{
    if n == 0 {
        s
    } else {
        crc_feed(crc_zeros(s, (n - 1) as nat), 0)
    }
}

/// One executable state shift.
fn crc_step_exec(s: u32) -> (r: u32)
    ensures
        r == crc_step(s),
{
    if s >= 0x8000_0000 {
        (s << 1u32) ^ CRC32_POLY
    } else {
        s << 1u32
    }
}

/// Feed one byte into the state: executable form of `crc_feed`.
fn crc_feed_exec(s: u32, b: u8) -> (r: u32)
    ensures
        r == crc_feed(s, b),
{
    let x0 = s ^ ((b as u32) << 24u32);
    let x1 = crc_step_exec(x0);
    let x2 = crc_step_exec(x1);
    let x3 = crc_step_exec(x2);
    let x4 = crc_step_exec(x3);
    let x5 = crc_step_exec(x4);
    let x6 = crc_step_exec(x5);
    let x7 = crc_step_exec(x6);
    crc_step_exec(x7)
}

/// The CRC-32 CKSUM checksum of a byte slice.
pub fn crc32_exec(bytes: &[u8]) -> (r: u32)
    ensures
        r == crc32_cksum(bytes@),
{
    let n = bytes.len();
    let mut st: u32 = 0;
    let mut i: usize = 0;
    while i < n
        invariant
            i <= n,
            n == bytes@.len(),
            st == crc_process(0, bytes@.take(i as int)),
        decreases n - i,
    {
        st = crc_feed_exec(st, bytes[i]);
        proof {
            assert(bytes@.take(i + 1 as int).drop_last() =~= bytes@.take(i as int));
            assert(bytes@.take(i + 1 as int).last() == bytes@[i as int]);
        }
        i = i + 1;
    }
    proof {
        assert(bytes@.take(n as int) =~= bytes@);
    }
    st ^ CRC32_XOR_OUT
}

/// Feed `n` zero bytes into the state: executable form of `crc_zeros`.
pub fn crc_zeros_exec(s: u32, n: u8) -> (r: u32)
    ensures
        r == crc_zeros(s, n as nat),
{
    let mut st = s;
    let mut i: u8 = 0;
    while i < n
        invariant
            i <= n,
            st == crc_zeros(s, i as nat),
        decreases n - i,
    {
        st = crc_feed_exec(st, 0);
        i = i + 1;
    }
    st
}

/// One state shift distributes over exclusive-or.
proof fn lemma_step_linear(x: u32, y: u32)
    by (bit_vector)
    ensures
        crc_step(x ^ y) == crc_step(x) ^ crc_step(y),
{
}

/// Eight state shifts distribute over exclusive-or.
proof fn lemma_step8_linear(x: u32, y: u32)
    ensures
        crc_step8(x ^ y) == crc_step8(x) ^ crc_step8(y),
{
    lemma_step_linear(x, y);
    lemma_step_linear(crc_step(x), crc_step(y));
    lemma_step_linear(crc_step(crc_step(x)), crc_step(crc_step(y)));
    lemma_step_linear(crc_step(crc_step(crc_step(x))), crc_step(crc_step(crc_step(y))));
    lemma_step_linear(
        crc_step(crc_step(crc_step(crc_step(x)))),
        crc_step(crc_step(crc_step(crc_step(y)))),
    );
    lemma_step_linear(
        crc_step(crc_step(crc_step(crc_step(crc_step(x))))),
        crc_step(crc_step(crc_step(crc_step(crc_step(y))))),
    );
    lemma_step_linear(
        crc_step(crc_step(crc_step(crc_step(crc_step(crc_step(x)))))),
        crc_step(crc_step(crc_step(crc_step(crc_step(crc_step(y)))))),
    );
    lemma_step_linear(
        crc_step(crc_step(crc_step(crc_step(crc_step(crc_step(crc_step(x))))))),
        crc_step(crc_step(crc_step(crc_step(crc_step(crc_step(crc_step(y))))))),
    );
}

/// Feeding a byte into an exclusive-or of two states equals feeding the
/// byte into the one and a zero byte into the other, combined by
/// exclusive-or.
proof fn lemma_feed_linear(x: u32, y: u32, b: u8)
    ensures
        crc_feed(x ^ y, b) == crc_feed(x, b) ^ crc_feed(y, 0),
{
    assert((x ^ y) ^ ((b as u32) << 24) == (x ^ ((b as u32) << 24)) ^ (y ^ ((0u8 as u32) << 24)))
        by (bit_vector);
    lemma_step8_linear(x ^ ((b as u32) << 24), y ^ ((0u8 as u32) << 24));
}

/// Processing a byte sequence from an exclusive-or of two states equals
/// processing it from the one and as many zero bytes from the other,
/// combined by exclusive-or.
proof fn lemma_process_linear(x: u32, y: u32, bytes: Seq<u8>)
    ensures
        crc_process(x ^ y, bytes) == crc_process(x, bytes) ^ crc_zeros(y, bytes.len()),
    decreases bytes.len(),
{
    if bytes.len() == 0 {
    } else {
        lemma_process_linear(x, y, bytes.drop_last());
        lemma_feed_linear(
            crc_process(x, bytes.drop_last()),
            crc_zeros(y, (bytes.len() - 1) as nat),
            bytes.last(),
        );
    }
}

/// Processing a concatenation is processing the parts in turn.
proof fn lemma_process_append(s: u32, a: Seq<u8>, b: Seq<u8>)
    ensures
        crc_process(s, a + b) == crc_process(crc_process(s, a), b),
    decreases b.len(),
{
    if b.len() == 0 {
        assert(a + b =~= a);
    } else {
        assert((a + b).drop_last() =~= a + b.drop_last());
        lemma_process_append(s, a, b.drop_last());
    }
}

/// The concatenation formula: the checksum of `a + b` is computed from the
/// two finished checksums and the length of `b` alone, by shifting the
/// first state past `b.len()` zero bytes.
pub proof fn lemma_crc32_concat(a: Seq<u8>, b: Seq<u8>)
    ensures
        crc32_cksum(a + b) == crc_zeros(crc32_cksum(a) ^ CRC32_XOR_OUT, b.len()) ^ crc32_cksum(b),
{
    let sa = crc_process(0, a);
    let sb = crc_process(0, b);
    lemma_process_append(0, a, b);
    assert(0u32 ^ sa == sa) by (bit_vector);
    lemma_process_linear(0, sa, b);
    // crc_process(sa, b) == sb ^ crc_zeros(sa, b.len())
    let z = crc_zeros(sa, b.len());
    assert((sa ^ 0xFFFF_FFFFu32) ^ 0xFFFF_FFFFu32 == sa) by (bit_vector);
    assert((sb ^ z) ^ 0xFFFF_FFFFu32 == z ^ (sb ^ 0xFFFF_FFFFu32)) by (bit_vector);
}

} // verus!
