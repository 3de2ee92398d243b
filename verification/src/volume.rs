//! A read-only, axis-aligned sample of the voxel world: the region handed
//! to a meshing worker, covering the target chunk plus exactly one voxel of
//! border on every side.

use crate::math::Vec3i;
use vstd::pervasive::VecAdditionalExecFns;
use vstd::prelude::*;

verus! {

/// Largest voxel coordinate magnitude the sample model admits; keeps all
/// coordinate arithmetic inside `i32`.
pub const MAX_VOXEL_COORD: i32 = 0x4000_0000;

/// An 8-bit RGB colour.
#[derive(Clone, Copy, Debug, PartialEq, Eq, Structural)]
pub struct Rgb8 {
    pub r: u8,
    pub g: u8,
    pub b: u8,
}

/// One cell of the voxel lattice: an emptiness flag and a colour. The
/// colour of an empty cell carries no meaning.
#[derive(Clone, Copy, Debug, PartialEq, Eq, Structural)]
pub struct Voxel {
    pub empty: bool,
    pub col: Rgb8,
}

impl Voxel {
    pub fn air() -> (v: Voxel)
        ensures
            v.empty == true,
    {
        Voxel { empty: true, col: Rgb8 { r: 0, g: 0, b: 0 } }
    }

    pub fn solid(col: Rgb8) -> (v: Voxel)
        ensures
            v == (Voxel { empty: false, col }),
    {
        Voxel { empty: false, col }
    }
}

/// A dense, read-only sample of the voxel world over the axis-aligned box
/// `[min, min + size)`, in row-major x, y, z order.
pub struct VolSample {
    min: Vec3i,
    sx: usize,
    sy: usize,
    sz: usize,
    voxels: Vec<Voxel>,
}

impl VolSample {
    pub closed spec fn min_pos(self) -> Vec3i {
        self.min
    }

    pub closed spec fn size_x(self) -> int {
        self.sx as int
    }

    pub closed spec fn size_y(self) -> int {
        self.sy as int
    }

    pub closed spec fn size_z(self) -> int {
        self.sz as int
    }

    /// Well-formedness: the flat table covers the box exactly and all
    /// coordinates of the box stay well inside `i32`.
    pub closed spec fn wf(self) -> bool {
        &&& self.voxels@.len() == self.size_x() * self.size_y() * self.size_z()
        &&& -MAX_VOXEL_COORD < self.min.x && self.min.x + self.size_x() < MAX_VOXEL_COORD
        &&& -MAX_VOXEL_COORD < self.min.y && self.min.y + self.size_y() < MAX_VOXEL_COORD
        &&& -MAX_VOXEL_COORD < self.min.z && self.min.z + self.size_z() < MAX_VOXEL_COORD
    }

    /// Whether the sample covers the given position.
    pub closed spec fn contains(self, p: Vec3i) -> bool {
        &&& self.min.x <= p.x < self.min.x + self.size_x()
        &&& self.min.y <= p.y < self.min.y + self.size_y()
        &&& self.min.z <= p.z < self.min.z + self.size_z()
    }

    /// Flat index of a covered position.
    pub closed spec fn flat_index(self, p: Vec3i) -> int {
        ((p.x - self.min.x) * self.size_y() + (p.y - self.min.y)) * self.size_z() + (p.z
            - self.min.z)
    }

    /// The voxel recorded at a covered position.
    pub closed spec fn vox_at(self, p: Vec3i) -> Voxel {
        self.voxels@[self.flat_index(p)]
    }

    /// Whether the sample has a solid (non-empty) voxel at the position;
    /// positions outside the sample are not solid.
    pub open spec fn solid_at(self, p: Vec3i) -> bool {
        self.contains(p) && !self.vox_at(p).empty
    }

    proof fn lemma_flat_index_in_range(self, p: Vec3i)
        requires
            self.wf(),
            self.contains(p),
        ensures
            0 <= self.flat_index(p) < self.voxels@.len(),
    {
        let xi = p.x - self.min.x;
        let yi = p.y - self.min.y;
        let zi = p.z - self.min.z;
        assert(0 <= (xi * self.size_y() + yi) * self.size_z() + zi < self.size_x() * self.size_y()
            * self.size_z()) by (nonlinear_arith)
            requires
                0 <= xi < self.size_x(),
                0 <= yi < self.size_y(),
                0 <= zi < self.size_z(),
        ;
    }

    /// A sample of the given box with every cell set to `fill`.
    pub fn filled(min: Vec3i, sx: usize, sy: usize, sz: usize, fill: Voxel) -> (r: VolSample)
        requires
            -MAX_VOXEL_COORD < min.x && min.x + sx < MAX_VOXEL_COORD,
            -MAX_VOXEL_COORD < min.y && min.y + sy < MAX_VOXEL_COORD,
            -MAX_VOXEL_COORD < min.z && min.z + sz < MAX_VOXEL_COORD,
            sx * sy * sz <= usize::MAX,
        ensures
            r.wf(),
            r.min_pos() == min,
            r.size_x() == sx,
            r.size_y() == sy,
            r.size_z() == sz,
            forall|p: Vec3i| r.contains(p) ==> r.vox_at(p) == fill,
    {
        let count: usize = if sx == 0 || sy == 0 || sz == 0 {
            proof {
                assert(sx == 0 || sy == 0 || sz == 0 ==> sx * sy * sz == 0) by (nonlinear_arith);
            }
            0
        } else {
            proof {
                assert(sx * sy <= sx * sy * sz) by (nonlinear_arith)
                    requires
                        sz >= 1,
                        sx >= 0,
                        sy >= 0,
                ;
            }
            (sx * sy) * sz
        };
        let mut voxels: Vec<Voxel> = Vec::new();
        let mut i: usize = 0;
        while i < count
            invariant
                voxels@.len() == i,
                i <= count,
                forall|j: int| 0 <= j < i ==> voxels@[j] == fill,
            decreases count - i,
        {
            voxels.push(fill);
            i = i + 1;
        }
        let r = VolSample { min, sx, sy, sz, voxels };
        proof {
            assert(count == r.size_x() * r.size_y() * r.size_z()) by (nonlinear_arith)
                requires
                    count == if sx == 0 || sy == 0 || sz == 0 {
                        0
                    } else {
                        (sx * sy) * sz
                    },
                    r.size_x() == sx,
                    r.size_y() == sy,
                    r.size_z() == sz,
            ;
            assert forall|p: Vec3i| r.contains(p) implies r.vox_at(p) == fill by {
                r.lemma_flat_index_in_range(p);
            }
        }
        r
    }

    /// Executable flat index of a covered position.
    fn flat_idx(&self, p: Vec3i) -> (i: usize)
        requires
            self.wf(),
            self.contains(p),
        ensures
            i == self.flat_index(p),
            i < self.voxels@.len(),
    {
        proof {
            self.lemma_flat_index_in_range(p);
        }
        let n = self.voxels.len();
        let xi = (p.x as i64 - self.min.x as i64) as usize;
        let yi = (p.y as i64 - self.min.y as i64) as usize;
        let zi = (p.z as i64 - self.min.z as i64) as usize;
        proof {
            assert(xi * self.sy + yi < self.sx * self.sy) by (nonlinear_arith)
                requires
                    0 <= xi < self.sx,
                    0 <= yi < self.sy,
            ;
            assert(self.sx * self.sy <= self.sx * self.sy * self.sz) by (nonlinear_arith)
                requires
                    self.sz >= 1,
                    self.sx >= 0,
                    self.sy >= 0,
            ;
            assert((xi * self.sy + yi) * self.sz + zi < self.sx * self.sy * self.sz)
                by (nonlinear_arith)
                requires
                    0 <= xi < self.sx,
                    0 <= yi < self.sy,
                    0 <= zi < self.sz,
            ;
        }
        (xi * self.sy + yi) * self.sz + zi
    }

    /// Overwrite the cell at a covered position.
    pub fn set(&mut self, p: Vec3i, vox: Voxel)
        requires
            old(self).wf(),
            old(self).contains(p),
        ensures
            final(self).wf(),
            final(self).min_pos() == old(self).min_pos(),
            final(self).size_x() == old(self).size_x(),
            final(self).size_y() == old(self).size_y(),
            final(self).size_z() == old(self).size_z(),
            final(self).vox_at(p) == vox,
            forall|q: Vec3i| final(self).contains(q) == old(self).contains(q),
            forall|q: Vec3i|
                final(self).contains(q) && q != p ==> final(self).vox_at(q) == old(self).vox_at(q),
    {
        let idx = self.flat_idx(p);
        self.voxels.set(idx, vox);
        proof {
            assert forall|q: Vec3i| self.contains(q) && q != p implies self.vox_at(q) == old(
                self,
            ).vox_at(q) by {
                old(self).lemma_flat_index_in_range(q);
                lemma_flat_index_injective(*old(self), p, q);
            }
        }
    }

    /// Read the cell at a position, `None` where the sample does not cover
    /// it.
    pub fn get(&self, p: Vec3i) -> (r: Option<Voxel>)
        requires
            self.wf(),
        ensures
            self.contains(p) ==> r == Some(self.vox_at(p)),
            !self.contains(p) ==> r is None,
    {
        let dx = p.x as i64 - self.min.x as i64;
        let dy = p.y as i64 - self.min.y as i64;
        let dz = p.z as i64 - self.min.z as i64;
        if dx >= 0 && dy >= 0 && dz >= 0 && dx < self.sx as i64 && dy < self.sy as i64 && dz
            < self.sz as i64 {
            let idx = self.flat_idx(p);
            Some(self.voxels[idx])
        } else {
            None
        }
    }
}

/// Distinct covered positions have distinct flat indices.
proof fn lemma_flat_index_injective(v: VolSample, p: Vec3i, q: Vec3i)
    requires
        v.wf(),
        v.contains(p),
        v.contains(q),
        p != q,
    ensures
        v.flat_index(p) != v.flat_index(q),
{
    let px = p.x - v.min_pos().x;
    let py = p.y - v.min_pos().y;
    let pz = p.z - v.min_pos().z;
    let qx = q.x - v.min_pos().x;
    let qy = q.y - v.min_pos().y;
    let qz = q.z - v.min_pos().z;
    assert((px * v.size_y() + py) * v.size_z() + pz != (qx * v.size_y() + qy) * v.size_z() + qz)
        by (nonlinear_arith)
        requires
            0 <= px < v.size_x(),
            0 <= py < v.size_y(),
            0 <= pz < v.size_z(),
            0 <= qx < v.size_x(),
            0 <= qy < v.size_y(),
            0 <= qz < v.size_z(),
            !(px == qx && py == qy && pz == qz),
    ;
}

impl VolSample {
    /// Whether any plane of the sample at height `z` holds a solid voxel.
    pub open spec fn solid_in_plane(self, z: i32) -> bool {
        exists|p: Vec3i| self.solid_at(p) && p.z == z
    }

    fn plane_has_solid(&self, z: i32) -> (r: bool)
        requires
            self.wf(),
        ensures
            r == self.solid_in_plane(z),
    {
        let hix = self.min.x + self.sx as i32;
        let hiy = self.min.y + self.sy as i32;
        let mut x = self.min.x;
        while x < hix
            invariant
                self.wf(),
                hix == self.min_pos().x + self.size_x(),
                hiy == self.min_pos().y + self.size_y(),
                self.min_pos().x <= x <= hix,
                forall|p: Vec3i| self.solid_at(p) && p.z == z && p.x < x ==> false,
            decreases hix - x,
        {
            let mut y = self.min.y;
            while y < hiy
                invariant
                    self.wf(),
                    hix == self.min_pos().x + self.size_x(),
                    hiy == self.min_pos().y + self.size_y(),
                    self.min_pos().x <= x < hix,
                    self.min_pos().y <= y <= hiy,
                    forall|p: Vec3i| self.solid_at(p) && p.z == z && p.x < x ==> false,
                    forall|p: Vec3i| self.solid_at(p) && p.z == z && p.x == x && p.y < y ==> false,
                decreases hiy - y,
            {
                let p = Vec3i { x, y, z };
                match self.get(p) {
                    Some(v) => {
                        if !v.empty {
                            assert(self.solid_at(p) && p.z == z);
                            return true;
                        }
                    },
                    None => {},
                }
                y = y + 1;
            }
            x = x + 1;
        }
        false
    }

    /// The lowest plane holding a solid voxel, if any.
    fn lowest_solid_plane(&self) -> (r: Option<i32>)
        requires
            self.wf(),
        ensures
            r matches Some(z) ==> self.solid_in_plane(z) && (forall|p: Vec3i|
                self.solid_at(p) ==> p.z >= z),
            r is None ==> forall|p: Vec3i| !self.solid_at(p),
    {
        let hiz = self.min.z + self.sz as i32;
        let mut z = self.min.z;
        while z < hiz
            invariant
                self.wf(),
                hiz == self.min_pos().z + self.size_z(),
                self.min_pos().z <= z <= hiz,
                forall|p: Vec3i| self.solid_at(p) && p.z < z ==> false,
            decreases hiz - z,
        {
            if self.plane_has_solid(z) {
                return Some(z);
            }
            z = z + 1;
        }
        None
    }

    /// The highest plane holding a solid voxel, if any.
    fn highest_solid_plane(&self) -> (r: Option<i32>)
        requires
            self.wf(),
        ensures
            r matches Some(z) ==> self.solid_in_plane(z) && (forall|p: Vec3i|
                self.solid_at(p) ==> p.z <= z),
            r is None ==> forall|p: Vec3i| !self.solid_at(p),
    {
        let mut z = self.min.z + self.sz as i32;
        while z > self.min.z
            invariant
                self.wf(),
                self.min_pos().z <= z <= self.min_pos().z + self.size_z(),
                forall|p: Vec3i| self.solid_at(p) && p.z >= z ==> false,
            decreases z - self.min_pos().z,
        {
            z = z - 1;
            if self.plane_has_solid(z) {
                return Some(z);
            }
        }
        None
    }

    /// The vertical occupancy bounds of the sample: the lowest and highest
    /// z holding a solid voxel, or `None` for an all-empty sample.
    pub fn solid_z_bounds(&self) -> (r: Option<(i32, i32)>)
        requires
            self.wf(),
        ensures
            r matches Some(b) ==> {
                &&& b.0 <= b.1
                &&& self.solid_in_plane(b.0)
                &&& self.solid_in_plane(b.1)
                &&& forall|p: Vec3i| self.solid_at(p) ==> b.0 <= p.z <= b.1
            },
            r is None ==> forall|p: Vec3i| !self.solid_at(p),
    {
        match self.lowest_solid_plane() {
            None => None,
            Some(lo) => {
                match self.highest_solid_plane() {
                    None => {
                        proof {
                            let p = choose|p: Vec3i| self.solid_at(p) && p.z == lo;
                            assert(self.solid_at(p));
                        }
                        None
                    },
                    Some(hi) => {
                        proof {
                            let p = choose|p: Vec3i| self.solid_at(p) && p.z == lo;
                            assert(self.solid_at(p));
                        }
                        Some((lo, hi))
                    },
                }
            },
        }
    }
}

} // verus!
