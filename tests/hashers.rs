use std::collections::HashMap;
use std::hash::{BuildHasherDefault, Hasher};

use hash_funsies::chunks::sum_chunks;
use hash_funsies::hasher::FIB_MULTIPLIER;
use hash_funsies::{FibBuildHasher, FibHasher, IdentityHasher, SummingHasher, VoxelChunkIndex};

/// The sum of the big-endian 8-byte chunks of `bytes`, the last short chunk
/// right-aligned in a zero-filled word.
fn expected_sum(bytes: &[u8]) -> u64 {
    let mut sum = 0u64;
    let mut chunks = bytes.chunks_exact(8);
    for c in chunks.by_ref() {
        let mut w = [0u8; 8];
        w.copy_from_slice(c);
        sum = sum.wrapping_add(u64::from_be_bytes(w));
    }
    let tail = chunks.remainder();
    let mut w = [0u8; 8];
    w[8 - tail.len()..].copy_from_slice(tail);
    sum.wrapping_add(u64::from_be_bytes(w))
}

fn counting(len: usize) -> Vec<u8> {
    (1..=len).map(|i| i as u8).collect()
}

fn summing_digest(bytes: &[u8]) -> u64 {
    let mut h = SummingHasher::new();
    h.write(bytes);
    h.finish()
}

#[test]
fn two_u32_writes_sum() {
    let mut h = SummingHasher::new();
    h.write_u32(0x00000001);
    h.write_u32(0x00000002);
    assert_eq!(h.finish(), 3);
}

#[test]
fn every_length_sums_its_chunks() {
    for &len in [0usize, 1, 2, 3, 4, 5, 7, 8, 9, 15, 16, 17, 24, 64].iter() {
        let bytes = counting(len);
        assert_eq!(summing_digest(&bytes), expected_sum(&bytes), "length {}", len);
        assert_eq!(sum_chunks(&bytes), expected_sum(&bytes), "length {}", len);
    }
}

#[test]
fn short_strings_read_big_endian() {
    assert_eq!(summing_digest(&[]), 0);
    assert_eq!(summing_digest(&[0xab]), 0xab);
    assert_eq!(summing_digest(&[0x01, 0x02]), 0x0102);
    assert_eq!(summing_digest(&[0x01, 0x02, 0x03]), 0x010203);
    assert_eq!(summing_digest(&[0x01, 0x02, 0x03, 0x04]), 0x01020304);
    assert_eq!(summing_digest(&[1, 2, 3, 4, 5, 6, 7]), 0x01020304050607);
    assert_eq!(summing_digest(&[1, 2, 3, 4, 5, 6, 7, 8]), 0x0102030405060708);
}

#[test]
fn long_strings_add_their_chunks() {
    assert_eq!(summing_digest(&counting(9)), 0x0102030405060708 + 9);
    assert_eq!(
        summing_digest(&counting(16)),
        0x0102030405060708 + 0x090a0b0c0d0e0f10
    );
    assert_eq!(
        summing_digest(&counting(17)),
        0x0102030405060708 + 0x090a0b0c0d0e0f10 + 0x11
    );
}

#[test]
fn chunk_sums_wrap() {
    let bytes = [0xffu8; 16];
    assert_eq!(summing_digest(&bytes), u64::MAX.wrapping_add(u64::MAX));
    assert_eq!(summing_digest(&bytes), u64::MAX - 1);
}

#[test]
fn integer_writes_wrap() {
    let mut h = SummingHasher::new();
    h.write_u64(u64::MAX);
    h.write_u8(2);
    assert_eq!(h.finish(), 1);
    h.write_u16(0xffff);
    assert_eq!(h.finish(), 0x10000);
}

#[test]
fn fresh_hashers_agree() {
    let bytes = counting(23);
    assert_eq!(summing_digest(&bytes), summing_digest(&bytes));
    let mut a = FibHasher::<20>::try_new().unwrap();
    let mut b = FibHasher::<20>::try_new().unwrap();
    a.write(&bytes);
    b.write(&bytes);
    assert_eq!(a.finish(), b.finish());
}

#[test]
fn fib_of_one_keeps_top_four_bits() {
    let mut h = FibHasher::<4>::try_new().unwrap();
    h.write_u64(1);
    let d = h.finish();
    assert_eq!(d, 1u64.wrapping_mul(11400714819323198485) >> 60);
    assert_eq!(d, 9);
    assert!(d <= 15);
}

#[test]
fn fib_digest_formula() {
    let mut h = FibHasher::<20>::try_new().unwrap();
    h.write(&[0x01, 0x02, 0x03]);
    assert_eq!(h.finish(), 0x010203u64.wrapping_mul(FIB_MULTIPLIER) >> 44);
    let mut one = FibHasher::<63>::try_new().unwrap();
    one.write_u32(7);
    assert_eq!(one.finish(), 7u64.wrapping_mul(FIB_MULTIPLIER) >> 1);
    let mut narrow = FibHasher::<1>::try_new().unwrap();
    narrow.write_u16(3);
    assert!(narrow.finish() <= 1);
}

#[test]
fn fib_accumulates_like_summing() {
    let bytes = counting(17);
    let mut f = FibHasher::<10>::try_new().unwrap();
    f.write(&bytes);
    f.write_u8(4);
    let acc = expected_sum(&bytes) + 4;
    assert_eq!(f.finish(), acc.wrapping_mul(FIB_MULTIPLIER) >> 54);
}

#[test]
fn fib_width_out_of_range_is_refused() {
    assert!(FibHasher::<0>::try_new().is_none());
    assert!(FibHasher::<64>::try_new().is_none());
    assert!(FibHasher::<65>::try_new().is_none());
    assert!(FibHasher::<255>::try_new().is_none());
    assert!(FibBuildHasher::<64>::try_new().is_none());
    assert!(FibBuildHasher::<0>::try_new().is_none());
    assert!(FibHasher::<1>::try_new().is_some());
    assert!(FibHasher::<63>::try_new().is_some());
}

#[test]
fn hashers_back_a_map() {
    let mut ids: HashMap<VoxelChunkIndex, u32, BuildHasherDefault<IdentityHasher>> =
        HashMap::default();
    let mut fib: HashMap<VoxelChunkIndex, u32, FibBuildHasher<20>> =
        HashMap::with_hasher(FibBuildHasher::<20>::try_new().unwrap());
    let mut n = 0u32;
    for x in -5..5 {
        for y in -5..5 {
            for z in -2..2 {
                let k = VoxelChunkIndex::from_coords(x, y, z);
                ids.insert(k, n);
                fib.insert(k, n);
                n += 1;
            }
        }
    }
    assert_eq!(ids.len(), 400);
    assert_eq!(fib.len(), 400);
    let k = VoxelChunkIndex::from_coords(-5, -5, -2);
    assert_eq!(ids.get(&k), Some(&0));
    assert_eq!(fib.get(&k), Some(&0));
}

#[test]
fn trait_writes_match_inherent_ones() {
    let mut a = SummingHasher::default();
    Hasher::write_u32(&mut a, 5);
    Hasher::write(&mut a, &[1, 0]);
    assert_eq!(Hasher::finish(&a), 5 + 256);
}
