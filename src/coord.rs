//! Packing of a bounded coordinate triple into a single 32-bit key.
use vstd::prelude::*;

verus! {

/// Width in bits of the x field.
pub const X_BITS: u32 = 13;
/// Width in bits of the y field.
pub const Y_BITS: u32 = 13;
/// Width in bits of the z field.
pub const Z_BITS: u32 = 6;

/// Added to x before packing so that the field is never negative.
pub const X_BIAS: i32 = 4096;
/// Added to y before packing so that the field is never negative.
pub const Y_BIAS: i32 = 4096;
/// Added to z before packing so that the field is never negative.
pub const Z_BIAS: i32 = 32;

/// Bit position of the x field.
pub const X_SHIFT: u32 = 0;
/// Bit position of the y field.
pub const Y_SHIFT: u32 = 13;
/// Bit position of the z field.
pub const Z_SHIFT: u32 = 26;

/// The coordinates that a key can hold: x and y in [-4096, 4095], z in [-32, 31].
pub open spec fn coords_in_range(x: int, y: int, z: int) -> bool {
    &&& -X_BIAS <= x < X_BIAS
    &&& -Y_BIAS <= y < Y_BIAS
    &&& -Z_BIAS <= z < Z_BIAS
}

/// The packed value of a triple: each biased coordinate is a digit of a
/// mixed-radix number, x lowest, then y, then z.
pub open spec fn packed(x: int, y: int, z: int) -> int {
    (x + X_BIAS) + (y + Y_BIAS) * 0x2000 + (z + Z_BIAS) * 0x400_0000
}

/// The x coordinate read back from a key: its low 13 bits, unbiased.
pub open spec fn key_x(k: u32) -> int {
    (k & 0x1fff) as int - X_BIAS
}

/// The y coordinate read back from a key: bits 13 to 25, unbiased.
pub open spec fn key_y(k: u32) -> int {
    ((k >> 13u32) & 0x1fff) as int - Y_BIAS
}

/// The z coordinate read back from a key: its top 6 bits, unbiased.
pub open spec fn key_z(k: u32) -> int {
    (k >> 26u32) as int - Z_BIAS
}

/// The key of one chunk of a voxel world: x, y and z packed into 32 bits.
#[derive(Clone, Copy, PartialEq, Eq, Hash, Structural)]
pub struct VoxelChunkIndex(pub u32);

impl VoxelChunkIndex {
    /// Packs `(x, y, z)`: each coordinate is biased by half its field's range
    /// and shifted to its field, x at bit 0, y at bit 13, z at bit 26. The
    /// coordinates must lie in the range that the fields can hold.
    pub fn from_coords(x: i32, y: i32, z: i32) -> (r: VoxelChunkIndex)
        requires
            coords_in_range(x as int, y as int, z as int),
        ensures
            r.0 as int == packed(x as int, y as int, z as int),
    {
        let bx: u32 = (x + X_BIAS) as u32;
        let by: u32 = (y + Y_BIAS) as u32;
        let bz: u32 = (z + Z_BIAS) as u32;
        let fx: u32 = bx << X_SHIFT;
        let fy: u32 = by << Y_SHIFT;
        let fz: u32 = bz << Z_SHIFT;
        assert((bz << 26u32) | (by << 13u32) | (bx << 0u32) == bx + by * 0x2000 + bz * 0x400_0000)
            by (bit_vector)
            requires
                bx < 0x2000,
                by < 0x2000,
                bz < 0x40,
        ;
        VoxelChunkIndex(fz | fy | fx)
    }
}

/// Reading the three fields of a key back and removing the bias gives the
/// coordinates that it was packed from.
pub proof fn lemma_fields_recover_coords(x: int, y: int, z: int)
    requires
        coords_in_range(x, y, z),
    ensures
        0 <= packed(x, y, z) <= u32::MAX,
        key_x(packed(x, y, z) as u32) == x,
        key_y(packed(x, y, z) as u32) == y,
        key_z(packed(x, y, z) as u32) == z,
{
    let bx = (x + X_BIAS) as u32;
    let by = (y + Y_BIAS) as u32;
    let bz = (z + Z_BIAS) as u32;
    assert(bx + by * 0x2000 + bz * 0x400_0000 <= u32::MAX) by (nonlinear_arith)
        requires
            bx < 0x2000,
            by < 0x2000,
            bz < 0x40,
    ;
    let k: u32 = (bx + by * 0x2000 + bz * 0x400_0000) as u32;
    assert(k & 0x1fff == bx && (k >> 13u32) & 0x1fff == by && k >> 26u32 == bz) by (bit_vector)
        requires
            bx < 0x2000,
            by < 0x2000,
            bz < 0x40,
            k == bx + by * 0x2000 + bz * 0x400_0000,
    ;
}

/// Two in-range triples that differ in any coordinate have different keys.
pub proof fn lemma_packing_injective(x1: int, y1: int, z1: int, x2: int, y2: int, z2: int)
    requires
        coords_in_range(x1, y1, z1),
        coords_in_range(x2, y2, z2),
        (x1, y1, z1) != (x2, y2, z2),
    ensures
        packed(x1, y1, z1) != packed(x2, y2, z2),
{
    lemma_fields_recover_coords(x1, y1, z1);
    lemma_fields_recover_coords(x2, y2, z2);
}

} // verus!
