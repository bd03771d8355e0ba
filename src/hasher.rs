//! Deterministic streaming hashers over the chunk sum of their input: a
//! summing hasher whose digest is the running sum itself, and a Fibonacci
//! hasher that scrambles the sum multiplicatively into `N` bits.
use crate::chunks::{add_chunk_sum, chunk_sum, lemma_wrapping_add_mod, wrap_add, word_modulus};
use vstd::prelude::*;

verus! {

/// The odd integer nearest to 2^64 divided by the golden ratio.
pub const FIB_MULTIPLIER: u64 = 11400714819323198485;

/// The digest of a Fibonacci hasher of output width `width` whose running
/// sum is `acc`: the product `acc * FIB_MULTIPLIER` modulo 2^64, keeping its
/// top `width` bits.
pub open spec fn fib_digest(acc: u64, width: nat) -> u64 {
    ((acc as nat * FIB_MULTIPLIER as nat) % word_modulus()) as u64 >> ((64 - width) as u64)
}

/// A hasher that adds up what it is given, in `u64` arithmetic, and reports
/// the sum unchanged: byte strings count as the sum of their big-endian
/// 8-byte chunks, integers as their value.
pub struct SummingHasher {
    acc: u64,
}

/// The identity hasher: a summing hasher, whose digest is its running sum.
pub type IdentityHasher = SummingHasher;

impl View for SummingHasher {
    type V = u64;

    /// The running sum.
    closed spec fn view(&self) -> u64 {
        self.acc
    }
}

impl SummingHasher {
    /// A hasher with a running sum of 0.
    pub fn new() -> (r: SummingHasher)
        ensures
            r@ == 0,
    {
        SummingHasher { acc: 0 }
    }

    /// Adds the chunk sum of `bytes`.
    pub fn write(&mut self, bytes: &[u8])
        ensures
            final(self)@ == wrap_add(old(self)@, chunk_sum(bytes@)),
    {
        self.acc = add_chunk_sum(self.acc, bytes);
    }

    /// Adds `i`.
    pub fn write_u8(&mut self, i: u8)
        ensures
            final(self)@ == wrap_add(old(self)@, i as nat),
    {
        proof { lemma_wrapping_add_mod(self.acc, i as u64); }
        self.acc = self.acc.wrapping_add(i as u64);
    }

    /// Adds `i`.
    pub fn write_u16(&mut self, i: u16)
        ensures
            final(self)@ == wrap_add(old(self)@, i as nat),
    {
        proof { lemma_wrapping_add_mod(self.acc, i as u64); }
        self.acc = self.acc.wrapping_add(i as u64);
    }

    /// Adds `i`.
    pub fn write_u32(&mut self, i: u32)
        ensures
            final(self)@ == wrap_add(old(self)@, i as nat),
    {
        proof { lemma_wrapping_add_mod(self.acc, i as u64); }
        self.acc = self.acc.wrapping_add(i as u64);
    }

    /// Adds `i`.
    pub fn write_u64(&mut self, i: u64)
        ensures
            final(self)@ == wrap_add(old(self)@, i as nat),
    {
        proof { lemma_wrapping_add_mod(self.acc, i); }
        self.acc = self.acc.wrapping_add(i);
    }

    /// The running sum.
    pub fn finish(&self) -> (r: u64)
        ensures
            r == self@,
    {
        self.acc
    }
}

impl Default for SummingHasher {
    fn default() -> (r: SummingHasher)
        ensures
            r@ == 0,
    {
        SummingHasher::new()
    }
}

impl std::hash::Hasher for SummingHasher {
    fn finish(&self) -> u64 {
        SummingHasher::finish(self)
    }

    fn write(&mut self, bytes: &[u8]) {
        SummingHasher::write(self, bytes);
    }

    fn write_u8(&mut self, i: u8) {
        SummingHasher::write_u8(self, i);
    }

    fn write_u16(&mut self, i: u16) {
        SummingHasher::write_u16(self, i);
    }

    fn write_u32(&mut self, i: u32) {
        SummingHasher::write_u32(self, i);
    }

    fn write_u64(&mut self, i: u64) {
        SummingHasher::write_u64(self, i);
    }
}

/// `v >> s` fits in the `64 - s` low bits.
proof fn lemma_shift_bound(v: u64, s: u64)
    requires
        1 <= s <= 63,
    ensures
        v >> s < (1u64 << ((64 - s) as u64)),
{
    assert(v >> s < (1u64 << ((64 - s) as u64))) by (bit_vector)
        requires
            1 <= s <= 63,
    ;
}

/// Fibonacci hashing into `N` bits: the running sum is kept as in
/// [`SummingHasher`], and the digest is the top `N` bits of its product with
/// [`FIB_MULTIPLIER`], an index into a table of `2^N` slots. A hasher exists
/// only for a width from 1 to 63.
pub struct FibHasher<const N: u8> {
    hash: u64,
}

impl<const N: u8> View for FibHasher<N> {
    type V = u64;

    /// The running sum.
    closed spec fn view(&self) -> u64 {
        self.hash
    }
}

impl<const N: u8> FibHasher<N> {
    /// The output width leaves a shift of 1 to 63 bits.
    #[verifier::type_invariant]
    spec fn width_in_range(&self) -> bool {
        1 <= N <= 63
    }

    /// A hasher with a running sum of 0, or `None` where the width `N` is not
    /// between 1 and 63, for which no shift of a 64-bit product gives `N` bits.
    pub fn try_new() -> (r: Option<Self>)
        ensures
            r is Some <==> 1 <= N <= 63,
            r matches Some(h) ==> h@ == 0,
    {
        if 1 <= N && N <= 63 {
            Some(FibHasher { hash: 0 })
        } else {
            None
        }
    }

    /// Adds the chunk sum of `bytes`.
    pub fn write(&mut self, bytes: &[u8])
        ensures
            final(self)@ == wrap_add(old(self)@, chunk_sum(bytes@)),
    {
        proof {
            use_type_invariant(&*self);
        }
        self.hash = add_chunk_sum(self.hash, bytes);
    }

    /// Adds `i`.
    pub fn write_u8(&mut self, i: u8)
        ensures
            final(self)@ == wrap_add(old(self)@, i as nat),
    {
        proof {
            use_type_invariant(&*self);
            lemma_wrapping_add_mod(self.hash, i as u64);
        }
        self.hash = self.hash.wrapping_add(i as u64);
    }

    /// Adds `i`.
    pub fn write_u16(&mut self, i: u16)
        ensures
            final(self)@ == wrap_add(old(self)@, i as nat),
    {
        proof {
            use_type_invariant(&*self);
            lemma_wrapping_add_mod(self.hash, i as u64);
        }
        self.hash = self.hash.wrapping_add(i as u64);
    }

    /// Adds `i`.
    pub fn write_u32(&mut self, i: u32)
        ensures
            final(self)@ == wrap_add(old(self)@, i as nat),
    {
        proof {
            use_type_invariant(&*self);
            lemma_wrapping_add_mod(self.hash, i as u64);
        }
        self.hash = self.hash.wrapping_add(i as u64);
    }

    /// Adds `i`.
    pub fn write_u64(&mut self, i: u64)
        ensures
            final(self)@ == wrap_add(old(self)@, i as nat),
    {
        proof {
            use_type_invariant(&*self);
            lemma_wrapping_add_mod(self.hash, i);
        }
        self.hash = self.hash.wrapping_add(i);
    }

    /// The top `N` bits of the running sum times [`FIB_MULTIPLIER`], modulo
    /// 2^64: a value below `2^N`.
    pub fn finish(&self) -> (r: u64)
        ensures
            1 <= N <= 63,
            r == fib_digest(self@, N as nat),
            r < (1u64 << (N as u64)),
    {
        proof {
            use_type_invariant(self);
        }
        let shift: u32 = 64 - N as u32;
        let product = self.hash.wrapping_mul(FIB_MULTIPLIER);
        proof {
            lemma_shift_bound(product, shift as u64);
        }
        product >> shift
    }
}

impl<const N: u8> std::hash::Hasher for FibHasher<N> {
    fn finish(&self) -> u64 {
        FibHasher::<N>::finish(self)
    }

    fn write(&mut self, bytes: &[u8]) {
        FibHasher::<N>::write(self, bytes);
    }

    fn write_u8(&mut self, i: u8) {
        FibHasher::<N>::write_u8(self, i);
    }

    fn write_u16(&mut self, i: u16) {
        FibHasher::<N>::write_u16(self, i);
    }

    fn write_u32(&mut self, i: u32) {
        FibHasher::<N>::write_u32(self, i);
    }

    fn write_u64(&mut self, i: u64) {
        FibHasher::<N>::write_u64(self, i);
    }
}

/// Makes fresh [`FibHasher`]s of width `N`, so that they can back a hash
/// map. Like the hasher, it exists only for a width from 1 to 63.
pub struct FibBuildHasher<const N: u8> {
    width: u8,
}

impl<const N: u8> FibBuildHasher<N> {
    /// The width is the type's `N`, and lies between 1 and 63.
    #[verifier::type_invariant]
    spec fn width_in_range(&self) -> bool {
        &&& self.width == N
        &&& 1 <= N <= 63
    }

    /// A builder of width `N`, or `None` where `N` is not between 1 and 63.
    pub fn try_new() -> (r: Option<Self>)
        ensures
            r is Some <==> 1 <= N <= 63,
    {
        if 1 <= N && N <= 63 {
            Some(FibBuildHasher { width: N })
        } else {
            None
        }
    }

    /// A fresh hasher, with a running sum of 0.
    pub fn fresh(&self) -> (r: FibHasher<N>)
        ensures
            r@ == 0,
    {
        proof {
            use_type_invariant(self);
        }
        FibHasher { hash: 0 }
    }
}

impl<const N: u8> std::hash::BuildHasher for FibBuildHasher<N> {
    type Hasher = FibHasher<N>;

    fn build_hasher(&self) -> FibHasher<N> {
        self.fresh()
    }
}

/// Hashing is deterministic: two fresh hashers of one kind, given the same
/// bytes, reach the same running sum and so report the same digest, which
/// depends on the bytes alone.
pub proof fn lemma_fresh_hashers_agree<const N: u8>(
    s1: SummingHasher,
    s2: SummingHasher,
    f1: FibHasher<N>,
    f2: FibHasher<N>,
    bytes: Seq<u8>,
)
    requires
        s1@ == 0,
        s2@ == 0,
        f1@ == 0,
        f2@ == 0,
    ensures
        wrap_add(s1@, chunk_sum(bytes)) == wrap_add(s2@, chunk_sum(bytes)),
        wrap_add(s1@, chunk_sum(bytes)) == chunk_sum(bytes) % word_modulus(),
        fib_digest(wrap_add(f1@, chunk_sum(bytes)), N as nat) == fib_digest(
            wrap_add(f2@, chunk_sum(bytes)),
            N as nat,
        ),
        fib_digest(wrap_add(f1@, chunk_sum(bytes)), N as nat) == fib_digest(
            (chunk_sum(bytes) % word_modulus()) as u64,
            N as nat,
        ),
{
}

} // verus!
