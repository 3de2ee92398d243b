//! Small integer vector types used for chunk coordinates and voxel
//! positions, plus the packing of a 2D chunk coordinate into a single
//! `u64` table key.

use vstd::prelude::*;

verus! {

/// A 2D integer vector, used as a chunk coordinate on the horizontal plane.
#[derive(Clone, Copy, Debug, PartialEq, Eq, Structural)]
pub struct Vec2i {
    pub x: i32,
    pub y: i32,
}

/// A 3D integer vector, used as a voxel position.
#[derive(Clone, Copy, Debug, PartialEq, Eq, Structural)]
pub struct Vec3i {
    pub x: i32,
    pub y: i32,
    pub z: i32,
}

/// A 3D unsigned extent, used for per-level node volumes in the LOD store.
#[derive(Clone, Copy, Debug, PartialEq, Eq, Structural)]
pub struct Vec3u {
    pub x: u32,
    pub y: u32,
    pub z: u32,
}

impl Vec2i {
    pub fn new(x: i32, y: i32) -> (v: Vec2i)
        ensures
            v.x == x,
            v.y == y,
    {
        Vec2i { x, y }
    }

    /// The `u64` key that identifies this coordinate in the manager's tables.
    pub open spec fn key(self) -> u64 {
        pack_key(self.x as u32, self.y as u32)
    }
}

impl Vec3i {
    pub fn new(x: i32, y: i32, z: i32) -> (v: Vec3i)
        ensures
            v.x == x,
            v.y == y,
            v.z == z,
    {
        Vec3i { x, y, z }
    }
}

/// An axis-aligned box of voxel positions, `min` inclusive, `max`
/// exclusive.
#[derive(Clone, Copy, Debug, PartialEq, Eq, Structural)]
pub struct Aabb {
    pub min: Vec3i,
    pub max: Vec3i,
}

/// Componentwise sum of two 3D vectors, truncated into `i32`; exact
/// whenever the true sum fits.
pub open spec fn spec_vadd3(a: Vec3i, b: Vec3i) -> Vec3i {
    Vec3i { x: (a.x + b.x) as i32, y: (a.y + b.y) as i32, z: (a.z + b.z) as i32 }
}

/// Componentwise sum of two 3D vectors whose true sum fits in `i32`.
pub fn vadd3(a: Vec3i, b: Vec3i) -> (r: Vec3i)
    requires
        i32::MIN <= a.x + b.x <= i32::MAX,
        i32::MIN <= a.y + b.y <= i32::MAX,
        i32::MIN <= a.z + b.z <= i32::MAX,
    ensures
        r == spec_vadd3(a, b),
        r.x == a.x + b.x,
        r.y == a.y + b.y,
        r.z == a.z + b.z,
{
    Vec3i { x: a.x + b.x, y: a.y + b.y, z: a.z + b.z }
}

/// Two 32-bit halves packed into one 64-bit word, x in the high half.
pub open spec fn pack_key(xu: u32, yu: u32) -> u64 {
    ((xu as u64) << 32u64) | (yu as u64)
}

/// Packing two 32-bit halves into a word loses nothing: equal words have
/// equal halves.
proof fn lemma_pack_key_injective(x1: u32, y1: u32, x2: u32, y2: u32)
    ensures
        pack_key(x1, y1) == pack_key(x2, y2) ==> x1 == x2 && y1 == y2,
{
    assert(((x1 as u64) << 32u64) | (y1 as u64) == ((x2 as u64) << 32u64) | (y2 as u64) ==> x1
        == x2 && y1 == y2) by (bit_vector);
}

/// A signed 32-bit value survives the round trip through its unsigned bit
/// pattern.
proof fn lemma_i32_u32_roundtrip(x: i32)
    ensures
        (x as u32) as i32 == x,
{
    assert((x as u32) as i32 == x) by (bit_vector);
}

/// Coordinates with equal keys are equal.
pub proof fn lemma_key_injective(a: Vec2i, b: Vec2i)
    ensures
        a.key() == b.key() ==> a == b,
{
    lemma_pack_key_injective(a.x as u32, a.y as u32, b.x as u32, b.y as u32);
    lemma_i32_u32_roundtrip(a.x);
    lemma_i32_u32_roundtrip(a.y);
    lemma_i32_u32_roundtrip(b.x);
    lemma_i32_u32_roundtrip(b.y);
}

/// Executable key packing, equal to the coordinate's `key()`.
pub fn key_of(pos: Vec2i) -> (k: u64)
    ensures
        k == pos.key(),
{
    ((pos.x as u32 as u64) << 32u64) | (pos.y as u32 as u64)
}

} // verus!
