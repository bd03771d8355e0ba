//! Reading a byte string as a sum of big-endian 64-bit chunks.
use vstd::arithmetic::div_mod::{lemma_add_mod_noop, lemma_mod_sub_multiples_vanish, lemma_small_mod};
use vstd::prelude::*;

verus! {

/// Number of bytes in one chunk: the width of a `u64`.
pub const CHUNK_BYTES: usize = 8;

/// The modulus of `u64` arithmetic.
pub open spec fn word_modulus() -> nat {
    0x1_0000_0000_0000_0000
}

/// `256` to the power `n`.
pub open spec fn pow256(n: nat) -> nat
    decreases n,
{
    if n == 0 {
        1
    } else {
        (256 * pow256((n - 1) as nat)) as nat
    }
}

/// The value of `s` read as an unsigned big-endian number, first byte most
/// significant. The empty string reads as 0.
pub open spec fn be_value(s: Seq<u8>) -> nat
    decreases s.len(),
{
    if s.len() == 0 {
        0
    } else {
        (be_value(s.drop_last()) * 256 + s.last()) as nat
    }
}

/// The sum of the big-endian values of the chunks of `s`: as many full
/// 8-byte chunks as precede the last 1 to 8 bytes, and those last bytes.
/// The empty string sums to 0.
pub open spec fn chunk_sum(s: Seq<u8>) -> nat
    decreases s.len(),
{
    if s.len() <= CHUNK_BYTES {
        be_value(s)
    } else {
        (be_value(s.take(CHUNK_BYTES as int)) + chunk_sum(s.skip(CHUNK_BYTES as int))) as nat
    }
}

/// `acc + n` in `u64` arithmetic: the sum taken modulo 2^64.
pub open spec fn wrap_add(acc: u64, n: nat) -> u64 {
    ((acc as nat + n) % word_modulus()) as u64
}

/// The value of a string of `k` bytes is below `256^k`.
pub proof fn lemma_be_value_bound(s: Seq<u8>)
    ensures
        be_value(s) < pow256(s.len()),
    decreases s.len(),
{
    if s.len() > 0 {
        lemma_be_value_bound(s.drop_last());
    }
}

/// Zero bytes in front of a string leave its big-endian value unchanged, so a
/// short tail read on its own contributes what it contributes right-aligned
/// in a zero-filled 8-byte word.
pub proof fn lemma_be_value_zero_prefix(k: nat, t: Seq<u8>)
    ensures
        be_value(Seq::new(k, |i: int| 0u8) + t) == be_value(t),
    decreases k + t.len(),
{
    let z = Seq::new(k, |i: int| 0u8);
    if t.len() == 0 {
        assert(z + t =~= z);
        if k > 0 {
            assert(z.drop_last() =~= Seq::new((k - 1) as nat, |i: int| 0u8) + t);
            lemma_be_value_zero_prefix((k - 1) as nat, t);
        }
    } else {
        assert((z + t).drop_last() =~= z + t.drop_last());
        lemma_be_value_zero_prefix(k, t.drop_last());
    }
}

/// `u64::wrapping_add` is addition modulo 2^64.
pub(crate) proof fn lemma_wrapping_add_mod(a: u64, b: u64)
    ensures
        a.wrapping_add(b) == (a as nat + b as nat) % word_modulus(),
{
    if a + b > u64::MAX {
        lemma_small_mod((a + b - word_modulus()) as nat, word_modulus());
        lemma_mod_sub_multiples_vanish((a + b) as int, word_modulus() as int);
    } else {
        lemma_small_mod((a + b) as nat, word_modulus());
    }
}

/// Reads `bytes[start..end]`, at most 8 bytes, as a big-endian number.
fn read_be(bytes: &[u8], start: usize, end: usize) -> (r: u64)
    requires
        start <= end <= bytes@.len(),
        end - start <= CHUNK_BYTES,
    ensures
        r == be_value(bytes@.subrange(start as int, end as int)),
{
    let mut acc: u64 = 0;
    let mut i: usize = start;
    while i < end
        invariant
            start <= i <= end <= bytes@.len(),
            end - start <= CHUNK_BYTES,
            acc == be_value(bytes@.subrange(start as int, i as int)),
        decreases end - i,
    {
        let ghost prev = bytes@.subrange(start as int, i as int);
        proof {
            lemma_be_value_bound(prev);
            reveal_with_fuel(pow256, 9);
            assert(pow256(prev.len()) <= pow256(7)) by {
                assert(prev.len() <= 7);
            }
            assert(bytes@.subrange(start as int, i + 1).drop_last() =~= prev);
        }
        acc = acc * 256 + bytes[i] as u64;
        i = i + 1;
    }
    acc
}

/// The chunk sum of `bytes` in `u64` arithmetic. Strings of 1, 2, 4 or 8
/// bytes are one chunk and 16 bytes are two; any other length is walked
/// chunk by chunk, the last 0 to 7 bytes read as one right-aligned word.
pub fn sum_chunks(bytes: &[u8]) -> (r: u64)
    ensures
        r == chunk_sum(bytes@) % word_modulus(),
{
    let n: usize = bytes.len();
    if n == 1 || n == 2 || n == 4 || n == 8 {
        let r = read_be(bytes, 0, n);
        proof {
            assert(bytes@.subrange(0, n as int) =~= bytes@);
            lemma_small_mod(r as nat, word_modulus());
        }
        r
    } else if n == 16 {
        let hi = read_be(bytes, 0, 8);
        let lo = read_be(bytes, 8, 16);
        proof {
            assert(bytes@.take(8) =~= bytes@.subrange(0, 8));
            assert(bytes@.skip(8) =~= bytes@.subrange(8, 16));
            assert(chunk_sum(bytes@.skip(8)) == lo);
            assert(chunk_sum(bytes@) == hi + lo);
            lemma_small_mod(hi as nat, word_modulus());
            lemma_small_mod(lo as nat, word_modulus());
            lemma_add_mod_noop(hi as int, lo as int, word_modulus() as int);
            lemma_wrapping_add_mod(hi, lo);
        }
        hi.wrapping_add(lo)
    } else {
        let mut sum: u64 = 0;
        let mut i: usize = 0;
        let ghost mut done: nat = 0;
        assert(bytes@.subrange(0, n as int) =~= bytes@);
        while n - i > CHUNK_BYTES
            invariant
                n == bytes@.len(),
                i <= n,
                done + chunk_sum(bytes@.subrange(i as int, n as int)) == chunk_sum(bytes@),
                sum == done % word_modulus(),
            decreases n - i,
        {
            let c = read_be(bytes, i, i + CHUNK_BYTES);
            proof {
                let rest = bytes@.subrange(i as int, n as int);
                assert(rest.take(8) =~= bytes@.subrange(i as int, i + 8));
                assert(rest.skip(8) =~= bytes@.subrange(i + 8, n as int));
                lemma_small_mod(c as nat, word_modulus());
                lemma_add_mod_noop(done as int, c as int, word_modulus() as int);
                lemma_wrapping_add_mod(sum, c);
                done = (done + c) as nat;
            }
            sum = sum.wrapping_add(c);
            i = i + CHUNK_BYTES;
        }
        let tail = read_be(bytes, i, n);
        proof {
            assert(chunk_sum(bytes@.subrange(i as int, n as int)) == tail);
            lemma_small_mod(tail as nat, word_modulus());
            lemma_add_mod_noop(done as int, tail as int, word_modulus() as int);
            lemma_wrapping_add_mod(sum, tail);
        }
        sum.wrapping_add(tail)
    }
}

/// `acc` plus the chunk sum of `bytes`, in `u64` arithmetic.
pub fn add_chunk_sum(acc: u64, bytes: &[u8]) -> (r: u64)
    ensures
        r == wrap_add(acc, chunk_sum(bytes@)),
{
    let s = sum_chunks(bytes);
    proof {
        lemma_add_mod_noop(acc as int, chunk_sum(bytes@) as int, word_modulus() as int);
        lemma_wrapping_add_mod(acc, s);
        lemma_small_mod(acc as nat, word_modulus());
    }
    acc.wrapping_add(s)
}

} // verus!
