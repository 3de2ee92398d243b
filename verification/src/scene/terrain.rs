//! Terrain streaming manager.
//!
//! Owns the live set of resident chunk meshes, decides which chunks need
//! (re)meshing, reconciles completed meshing jobs against current world
//! state, and recomputes per-entry visibility every tick.
//!
//! Per chunk coordinate the states are: untracked, queued (a descriptor
//! without an active worker), meshing (descriptor with an active worker)
//! and resident (an uploaded entry). A coordinate is queued only when the
//! world holds data for its whole 3×3 neighbourhood; a re-queue supersedes
//! the old descriptor with a newer tick, and a worker result is accepted
//! only while its tick still matches the live descriptor, so a superseded
//! worker's result is dropped on arrival.
//!
//! The control flow around this state — sampling the world, running the
//! worker pool, uploading to the GPU — is the host program's; everything
//! it decides goes through the functions here.

use crate::math::{key_of, Aabb, Vec2i};
use crate::mesh::vol::{range_ok, spec_generate_quads};
use crate::mesh::Mesh;
use crate::volume::VolSample;
use std::collections::HashMap;
use vstd::prelude::*;

verus! {

broadcast use vstd::std_specs::hash::group_hash_axioms;

/// Voxels per chunk side.
pub const CHUNK_SIZE: i64 = 32;

/// Largest chunk coordinate magnitude the manager admits; keeps all chunk
/// arithmetic inside the machine integers.
pub const MAX_CHUNK_COORD: i32 = 0x0100_0000;

/// Whether the chunk coordinate lies within the manager's coordinate
/// range, widened by `slack` on each side.
pub open spec fn coord2_in(p: Vec2i, slack: int) -> bool {
    &&& -(MAX_CHUNK_COORD as int) - slack <= p.x <= MAX_CHUNK_COORD as int + slack
    &&& -(MAX_CHUNK_COORD as int) - slack <= p.y <= MAX_CHUNK_COORD as int + slack
}

/// The chunk coordinate offset by (`dx`, `dy`).
pub open spec fn neighbor(p: Vec2i, dx: int, dy: int) -> Vec2i {
    Vec2i { x: (p.x + dx) as i32, y: (p.y + dy) as i32 }
}

/// Whether `q` lies in the 3×3 neighbourhood of `p` (Chebyshev distance
/// at most 1).
pub open spec fn cheb_adjacent(p: Vec2i, q: Vec2i) -> bool {
    &&& -1 <= q.x - p.x <= 1
    &&& -1 <= q.y - p.y <= 1
}

/// Whether the world holds data for all 9 coordinates of `p`'s
/// neighbourhood.
pub open spec fn neighborhood_complete(keys: Set<u64>, p: Vec2i) -> bool {
    forall|dx: int, dy: int|
        -1 <= dx <= 1 && -1 <= dy <= 1 ==> keys.contains(#[trigger] neighbor(p, dx, dy).key())
}

/// The keys of all coordinates of a list.
pub open spec fn key_set(s: Seq<Vec2i>) -> Set<u64> {
    Set::new(|k: u64| exists|i: int| 0 <= i < s.len() && s[i].key() == k)
}

/// Whether the list holds the coordinate itself.
pub open spec fn list_has(s: Seq<Vec2i>, p: Vec2i) -> bool {
    exists|i: int| 0 <= i < s.len() && s[i] == p
}

/// Whether the coordinate is adjacent to some coordinate of either list:
/// the 3×3 expansion of the world's new/changed set.
pub open spec fn in_expansion(l1: Seq<Vec2i>, l2: Seq<Vec2i>, q: Vec2i) -> bool {
    ||| exists|i: int| 0 <= i < l1.len() && cheb_adjacent(#[trigger] l1[i], q)
    ||| exists|i: int| 0 <= i < l2.len() && cheb_adjacent(#[trigger] l2[i], q)
}

/// Whether some of the first `n` coordinates of the list is adjacent to
/// `q`.
pub open spec fn expansion_prefix(l: Seq<Vec2i>, n: int, q: Vec2i) -> bool {
    exists|j: int| 0 <= j < n && cheb_adjacent(#[trigger] l[j], q)
}

/// Whether the first `n` coordinates of the list include `q` itself.
pub open spec fn list_prefix_has(l: Seq<Vec2i>, n: int, q: Vec2i) -> bool {
    exists|j: int| 0 <= j < n && #[trigger] l[j] == q
}

/// Fixed-point scale of frustum plane coefficients: plane normals are
/// unit-length, carried multiplied by this scale.
pub const PLANE_SCALE: i64 = 65536;

/// Bound on focus coordinates and the load radius.
pub const MAX_FOCUS: i64 = 0x100_0000_0000;

/// Bound on the normal components of a frustum plane (the scale with some
/// slack for rounding).
pub const MAX_PLANE_NORMAL: i64 = 0x10_0000;

/// Bound on a frustum plane's offset coefficient.
pub const MAX_PLANE_OFFSET: i64 = 0x1000_0000_0000_0000;

/// One frustum plane `a·x + b·y + c·z + d >= 0`, with the unit normal
/// `(a, b, c)` and the offset `d` carried at `PLANE_SCALE`.
#[derive(Clone, Copy, Debug, PartialEq, Eq, Structural)]
pub struct Plane {
    pub a: i64,
    pub b: i64,
    pub c: i64,
    pub d: i64,
}

/// Whether the plane's coefficients lie within the model's bounds.
pub open spec fn plane_ok(pl: Plane) -> bool {
    &&& -MAX_PLANE_NORMAL <= pl.a <= MAX_PLANE_NORMAL
    &&& -MAX_PLANE_NORMAL <= pl.b <= MAX_PLANE_NORMAL
    &&& -MAX_PLANE_NORMAL <= pl.c <= MAX_PLANE_NORMAL
    &&& -MAX_PLANE_OFFSET <= pl.d <= MAX_PLANE_OFFSET
}

/// `v` clamped into `[lo, hi]`.
pub open spec fn clamp(v: int, lo: int, hi: int) -> int {
    if v < lo {
        lo
    } else if v > hi {
        hi
    } else {
        v
    }
}

/// Distance culling: whether the point of the chunk's footprint nearest
/// to the focus lies strictly within the load radius.
pub open spec fn spec_in_range(focus_x: int, focus_y: int, loaded_distance: int, p: Vec2i) -> bool {
    let cx = p.x * CHUNK_SIZE as int;
    let cy = p.y * CHUNK_SIZE as int;
    let nx = clamp(focus_x, cx, cx + CHUNK_SIZE as int);
    let ny = clamp(focus_y, cy, cy + CHUNK_SIZE as int);
    (focus_x - nx) * (focus_x - nx) + (focus_y - ny) * (focus_y - ny) < loaded_distance
        * loaded_distance
}

/// Whether the entry's bounding sphere reaches past the plane: the sphere
/// sits at the chunk's midpoint, with radius √2 times the larger of the
/// vertical span and half the chunk side. `t2` is twice the scaled signed
/// distance of the centre, so the sphere survives the plane when `t2 >= 0`
/// or `t2² <= 8·m²·scale²` (that is, `|t| <= m·√2·scale`).
pub open spec fn spec_plane_pass(pl: Plane, c: TerrainChunk) -> bool {
    let mx = c.pos.x * CHUNK_SIZE as int + 16;
    let my = c.pos.y * CHUNK_SIZE as int + 16;
    let mz2 = c.z_min + c.z_max;
    let m = if c.z_max - c.z_min > 16 {
        c.z_max - c.z_min
    } else {
        16int
    };
    let t2 = 2 * (pl.a * mx + pl.b * my + pl.d) + pl.c * mz2;
    t2 >= 0 || t2 * t2 <= 8 * m * m * (PLANE_SCALE as int) * (PLANE_SCALE as int)
}

/// Frustum culling: the bounding sphere survives every plane.
pub open spec fn spec_in_frustum(planes: Seq<Plane>, c: TerrainChunk) -> bool {
    forall|i: int| 0 <= i < planes.len() ==> spec_plane_pass(#[trigger] planes[i], c)
}

/// The visibility a maintenance pass assigns to a resident entry: within
/// the load radius of the focus and inside the view frustum.
pub open spec fn spec_visible(
    focus_x: int,
    focus_y: int,
    loaded_distance: int,
    planes: Seq<Plane>,
    c: TerrainChunk,
) -> bool {
    spec_in_range(focus_x, focus_y, loaded_distance, c.pos) && spec_in_frustum(planes, c)
}

/// The product of values within bounds stays within the bound product.
proof fn lemma_mul_bound(x: int, y: int, bx: int, by: int)
    requires
        -bx <= x <= bx,
        -by <= y <= by,
        0 <= bx,
        0 <= by,
    ensures
        -(bx * by) <= x * y <= bx * by,
{
    assert(-(bx * by) <= x * y <= bx * by) by (nonlinear_arith)
        requires
            -bx <= x <= bx,
            -by <= y <= by,
            0 <= bx,
            0 <= by,
    ;
}

/// One resident chunk mesh: its coordinate, the opaque GPU handles of its
/// model and per-chunk constants, the per-frame visibility flag and the
/// cached vertical occupancy bounds.
#[derive(Clone, Copy, Debug, PartialEq, Eq, Structural)]
pub struct TerrainChunk {
    pub pos: Vec2i,
    pub model: u64,
    pub locals: u64,
    pub visible: bool,
    pub z_min: i32,
    pub z_max: i32,
}

/// One outstanding or pending meshing request: the coordinate, the tick
/// the descriptor was (re-)fixed at, and whether a worker currently runs
/// for it.
#[derive(Clone, Copy, Debug, PartialEq, Eq, Structural)]
pub struct ChunkMeshState {
    pub pos: Vec2i,
    pub started_tick: u64,
    pub active_worker: bool,
}

/// What a meshing worker sends back: the coordinate, the recomputed
/// vertical bounds, the mesh, and the tick its job was dispatched at.
pub struct MeshWorkerResponse {
    pub pos: Vec2i,
    pub z_min: i32,
    pub z_max: i32,
    pub mesh: Mesh,
    pub started_tick: u64,
}

/// The work a meshing worker does: mesh the sampled region (the chunk
/// plus its one-voxel border) and package the result with the job's
/// coordinate, vertical bounds and dispatch tick.
pub fn mesh_worker(
    pos: Vec2i,
    z_min: i32,
    z_max: i32,
    started_tick: u64,
    volume: VolSample,
    range: Aabb,
) -> (r: MeshWorkerResponse)
    requires
        volume.wf(),
        range_ok(range),
    ensures
        r.pos == pos,
        r.z_min == z_min,
        r.z_max == z_max,
        r.started_tick == started_tick,
        r.mesh.quads@ == spec_generate_quads(volume, range, false),
{
    MeshWorkerResponse {
        pos,
        z_min,
        z_max,
        mesh: crate::mesh::vol::generate_mesh(&volume, range, false),
        started_tick,
    }
}

/// The terrain streaming manager's state: the resident entries, the job
/// descriptors, and its mirror of which chunk coordinates the world
/// currently holds data for.
///
/// Nothing bounds the number of queued-but-undispatched descriptors: if
/// world churn outpaces meshing throughput the descriptor table grows
/// without limit. That tension is inherited from the design and left
/// visible rather than silently capped.
pub struct Terrain {
    chunks: Vec<TerrainChunk>,
    mesh_todo: Vec<ChunkMeshState>,
    world_keys: HashMap<u64, ()>,
}

/// One resident entry per coordinate, all coordinates in range.
pub open spec fn chunk_table_wf(s: Seq<TerrainChunk>) -> bool {
    &&& forall|i: int, j: int|
        0 <= i < j < s.len() ==> #[trigger] s[i].pos != #[trigger] s[j].pos
    &&& forall|i: int| 0 <= i < s.len() ==> coord2_in(#[trigger] s[i].pos, 1)
}

/// One job descriptor per coordinate, all coordinates in range.
pub open spec fn todo_table_wf(s: Seq<ChunkMeshState>) -> bool {
    &&& forall|i: int, j: int|
        0 <= i < j < s.len() ==> #[trigger] s[i].pos != #[trigger] s[j].pos
    &&& forall|i: int| 0 <= i < s.len() ==> coord2_in(#[trigger] s[i].pos, 1)
}

impl Terrain {
    pub closed spec fn chunks_seq(self) -> Seq<TerrainChunk> {
        self.chunks@
    }

    pub closed spec fn todo_seq(self) -> Seq<ChunkMeshState> {
        self.mesh_todo@
    }

    /// The coordinates the world currently holds data for, as keys.
    pub closed spec fn keys(self) -> Set<u64> {
        self.world_keys@.dom()
    }

    /// Whether an entry for the coordinate is resident.
    pub open spec fn resident(self, p: Vec2i) -> bool {
        exists|i: int| 0 <= i < self.chunks_seq().len() && self.chunks_seq()[i].pos == p
    }

    pub open spec fn chunk_index(self, p: Vec2i) -> int {
        choose|i: int| 0 <= i < self.chunks_seq().len() && self.chunks_seq()[i].pos == p
    }

    /// The resident entry of the coordinate.
    pub open spec fn chunk_at(self, p: Vec2i) -> TerrainChunk {
        self.chunks_seq()[self.chunk_index(p)]
    }

    /// Whether a job descriptor for the coordinate exists.
    pub open spec fn todo_has(self, p: Vec2i) -> bool {
        exists|i: int| 0 <= i < self.todo_seq().len() && self.todo_seq()[i].pos == p
    }

    pub open spec fn todo_index(self, p: Vec2i) -> int {
        choose|i: int| 0 <= i < self.todo_seq().len() && self.todo_seq()[i].pos == p
    }

    /// The job descriptor of the coordinate.
    pub open spec fn todo_at(self, p: Vec2i) -> ChunkMeshState {
        self.todo_seq()[self.todo_index(p)]
    }

    /// Well-formedness: each table holds at most one row per coordinate,
    /// and every stored coordinate lies in the manager's range. The
    /// uniqueness half is the at-most-one-descriptor (and so at-most-one-
    /// active-worker) guarantee per coordinate.
    pub open spec fn wf(self) -> bool {
        &&& chunk_table_wf(self.chunks_seq())
        &&& todo_table_wf(self.todo_seq())
    }

    /// At most one descriptor — and so at most one active worker — exists
    /// per coordinate: any two descriptor rows for the same coordinate
    /// are the same row.
    pub proof fn lemma_at_most_one_descriptor(self, i: int, j: int)
        requires
            self.wf(),
            0 <= i < self.todo_seq().len(),
            0 <= j < self.todo_seq().len(),
            self.todo_seq()[i].pos == self.todo_seq()[j].pos,
        ensures
            i == j,
    {
    }

    proof fn lemma_todo_index_is(self, p: Vec2i, i: int)
        requires
            self.wf(),
            0 <= i < self.todo_seq().len(),
            self.todo_seq()[i].pos == p,
        ensures
            self.todo_has(p),
            self.todo_index(p) == i,
            self.todo_at(p) == self.todo_seq()[i],
    {
        assert(self.todo_has(p));
        let j = self.todo_index(p);
        self.lemma_at_most_one_descriptor(i, j);
    }

    proof fn lemma_chunk_index_is(self, p: Vec2i, i: int)
        requires
            self.wf(),
            0 <= i < self.chunks_seq().len(),
            self.chunks_seq()[i].pos == p,
        ensures
            self.resident(p),
            self.chunk_index(p) == i,
            self.chunk_at(p) == self.chunks_seq()[i],
    {
        assert(self.resident(p));
    }

    /// A fresh manager: no resident entries, no descriptors, no world
    /// keys.
    pub fn new() -> (r: Terrain)
        ensures
            r.wf(),
            r.chunks_seq().len() == 0,
            r.todo_seq().len() == 0,
            r.keys() == Set::<u64>::empty(),
    {
        let r = Terrain { chunks: Vec::new(), mesh_todo: Vec::new(), world_keys: HashMap::new() };
        proof {
            assert(r.keys() =~= Set::<u64>::empty());
        }
        r
    }

    /// Index of the resident entry for the coordinate, if any.
    fn find_chunk_idx(&self, p: Vec2i) -> (r: Option<usize>)
        ensures
            r matches Some(i) ==> i < self.chunks_seq().len() && self.chunks_seq()[i as int].pos
                == p,
            r is None ==> !self.resident(p),
    {
        let n = self.chunks.len();
        let mut i: usize = 0;
        while i < n
            invariant
                n == self.chunks_seq().len(),
                i <= n,
                forall|j: int| 0 <= j < i ==> self.chunks_seq()[j].pos != p,
            decreases n - i,
        {
            if self.chunks[i].pos.x == p.x && self.chunks[i].pos.y == p.y {
                return Some(i);
            }
            i = i + 1;
        }
        None
    }

    /// Index of the job descriptor for the coordinate, if any.
    fn find_todo_idx(&self, p: Vec2i) -> (r: Option<usize>)
        ensures
            r matches Some(i) ==> i < self.todo_seq().len() && self.todo_seq()[i as int].pos == p,
            r is None ==> !self.todo_has(p),
    {
        let n = self.mesh_todo.len();
        let mut i: usize = 0;
        while i < n
            invariant
                n == self.todo_seq().len(),
                i <= n,
                forall|j: int| 0 <= j < i ==> self.todo_seq()[j].pos != p,
            decreases n - i,
        {
            if self.mesh_todo[i].pos.x == p.x && self.mesh_todo[i].pos.y == p.y {
                return Some(i);
            }
            i = i + 1;
        }
        None
    }

    /// Whether the world holds data for the coordinate.
    fn has_key(&self, p: Vec2i) -> (r: bool)
        ensures
            r == self.keys().contains(p.key()),
    {
        self.world_keys.contains_key(&key_of(p))
    }

    /// Whether the world holds data for all 9 coordinates of `p`'s 3×3
    /// neighbourhood.
    fn neighborhood_present(&self, p: Vec2i) -> (r: bool)
        requires
            coord2_in(p, 1),
        ensures
            r == neighborhood_complete(self.keys(), p),
    {
        let r = self.has_key(Vec2i::new(p.x - 1, p.y - 1)) && self.has_key(
            Vec2i::new(p.x - 1, p.y),
        ) && self.has_key(Vec2i::new(p.x - 1, p.y + 1)) && self.has_key(Vec2i::new(p.x, p.y - 1))
            && self.has_key(Vec2i::new(p.x, p.y)) && self.has_key(Vec2i::new(p.x, p.y + 1))
            && self.has_key(Vec2i::new(p.x + 1, p.y - 1)) && self.has_key(Vec2i::new(p.x + 1, p.y))
            && self.has_key(Vec2i::new(p.x + 1, p.y + 1));
        proof {
            if r {
                assert forall|dx: int, dy: int| -1 <= dx <= 1 && -1 <= dy <= 1 implies self.keys()
                    .contains(#[trigger] neighbor(p, dx, dy).key()) by {
                    assert(neighbor(p, dx, dy) == (Vec2i {
                        x: (p.x + dx) as i32,
                        y: (p.y + dy) as i32,
                    }));
                }
            } else {
                assert(!neighborhood_complete(self.keys(), p)) by {
                    if neighborhood_complete(self.keys(), p) {
                        assert(self.keys().contains(neighbor(p, -1, -1).key()));
                        assert(self.keys().contains(neighbor(p, -1, 0).key()));
                        assert(self.keys().contains(neighbor(p, -1, 1).key()));
                        assert(self.keys().contains(neighbor(p, 0, -1).key()));
                        assert(self.keys().contains(neighbor(p, 0, 0).key()));
                        assert(self.keys().contains(neighbor(p, 0, 1).key()));
                        assert(self.keys().contains(neighbor(p, 1, -1).key()));
                        assert(self.keys().contains(neighbor(p, 1, 0).key()));
                        assert(self.keys().contains(neighbor(p, 1, 1).key()));
                    }
                }
            }
        }
        r
    }

    /// Whether the coordinate would be promoted to queued right now: not
    /// resident, with its whole neighbourhood present in the world.
    pub open spec fn eligible(self, q: Vec2i) -> bool {
        !self.resident(q) && neighborhood_complete(self.keys(), q)
    }

    proof fn lemma_wf_after_todo_update(pre: Terrain, post: Terrain, i: int, row: ChunkMeshState)
        requires
            pre.wf(),
            0 <= i < pre.todo_seq().len(),
            row.pos == pre.todo_seq()[i].pos,
            coord2_in(row.pos, 1),
            post.todo_seq() == pre.todo_seq().update(i, row),
            post.chunks_seq() == pre.chunks_seq(),
        ensures
            post.wf(),
    {
        let sq = post.todo_seq();
        assert forall|a: int, b: int|
            0 <= a < b < sq.len() implies #[trigger] sq[a].pos != #[trigger] sq[b].pos by {
            assert(pre.todo_seq()[a].pos != pre.todo_seq()[b].pos);
        }
        assert forall|a: int| 0 <= a < sq.len() implies coord2_in(#[trigger] sq[a].pos, 1) by {
            assert(coord2_in(pre.todo_seq()[a].pos, 1));
        }
    }

    proof fn lemma_wf_after_todo_push(pre: Terrain, post: Terrain, row: ChunkMeshState)
        requires
            pre.wf(),
            !pre.todo_has(row.pos),
            coord2_in(row.pos, 1),
            post.todo_seq() == pre.todo_seq().push(row),
            post.chunks_seq() == pre.chunks_seq(),
        ensures
            post.wf(),
    {
        let sq = post.todo_seq();
        assert forall|a: int, b: int|
            0 <= a < b < sq.len() implies #[trigger] sq[a].pos != #[trigger] sq[b].pos by {
            if b < pre.todo_seq().len() {
                assert(pre.todo_seq()[a].pos != pre.todo_seq()[b].pos);
            } else {
                assert(sq[b] == row);
                assert(pre.todo_seq()[a].pos == sq[a].pos);
            }
        }
        assert forall|a: int| 0 <= a < sq.len() implies coord2_in(#[trigger] sq[a].pos, 1) by {
            if a < pre.todo_seq().len() {
                assert(coord2_in(pre.todo_seq()[a].pos, 1));
            }
        }
    }

    /// Queue the coordinate for (re)meshing if it is eligible: an
    /// existing descriptor is superseded (new tick, no active worker), a
    /// missing one created.
    fn maybe_queue(&mut self, q: Vec2i, current_tick: u64)
        requires
            old(self).wf(),
            coord2_in(q, 1),
        ensures
            final(self).wf(),
            final(self).keys() == old(self).keys(),
            final(self).chunks_seq() == old(self).chunks_seq(),
            old(self).eligible(q) ==> final(self).todo_has(q) && final(self).todo_at(q)
                == (ChunkMeshState { pos: q, started_tick: current_tick, active_worker: false }),
            !old(self).eligible(q) ==> final(self).todo_seq() == old(self).todo_seq(),
            forall|r: Vec2i|
                r != q ==> final(self).todo_has(r) == old(self).todo_has(r) && (old(self).todo_has(
                    r,
                ) ==> final(self).todo_at(r) == old(self).todo_at(r)),
    {
        let resident = self.find_chunk_idx(q).is_some();
        if !resident {
            if self.neighborhood_present(q) {
                let fresh = ChunkMeshState {
                    pos: q,
                    started_tick: current_tick,
                    active_worker: false,
                };
                match self.find_todo_idx(q) {
                    Some(i) => {
                        self.mesh_todo.set(i, fresh);
                        proof {
                            Self::lemma_wf_after_todo_update(*old(self), *self, i as int, fresh);
                            self.lemma_todo_index_is(q, i as int);
                            assert forall|r: Vec2i| r != q implies final(self).todo_has(r) == old(
                                self,
                            ).todo_has(r) && (old(self).todo_has(r) ==> final(self).todo_at(r)
                                == old(self).todo_at(r)) by {
                                if old(self).todo_has(r) {
                                    let j = old(self).todo_index(r);
                                    assert(self.todo_seq()[j].pos == r);
                                    self.lemma_todo_index_is(r, j);
                                }
                                if self.todo_has(r) {
                                    let j = self.todo_index(r);
                                    assert(old(self).todo_seq()[j].pos == r);
                                }
                            }
                        }
                    },
                    None => {
                        let ghost n = self.mesh_todo@.len();
                        self.mesh_todo.push(fresh);
                        proof {
                            Self::lemma_wf_after_todo_push(*old(self), *self, fresh);
                            self.lemma_todo_index_is(q, n as int);
                            assert forall|r: Vec2i| r != q implies final(self).todo_has(r) == old(
                                self,
                            ).todo_has(r) && (old(self).todo_has(r) ==> final(self).todo_at(r)
                                == old(self).todo_at(r)) by {
                                if old(self).todo_has(r) {
                                    let j = old(self).todo_index(r);
                                    assert(self.todo_seq()[j].pos == r);
                                    self.lemma_todo_index_is(r, j);
                                }
                                if self.todo_has(r) {
                                    let j = self.todo_index(r);
                                    assert(0 <= j < n);
                                    assert(old(self).todo_seq()[j].pos == r);
                                }
                            }
                        }
                    },
                }
            }
        }
    }

    /// Eligibility depends only on the resident set and the world keys.
    proof fn lemma_eligible_same(a: Terrain, b: Terrain, q: Vec2i)
        requires
            a.chunks_seq() == b.chunks_seq(),
            a.keys() == b.keys(),
        ensures
            a.eligible(q) == b.eligible(q),
    {
        if a.resident(q) {
            let i = choose|i: int| 0 <= i < a.chunks_seq().len() && a.chunks_seq()[i].pos == q;
            assert(b.chunks_seq()[i].pos == q);
            assert(b.resident(q));
        }
        if b.resident(q) {
            let i = choose|i: int| 0 <= i < b.chunks_seq().len() && b.chunks_seq()[i].pos == q;
            assert(a.chunks_seq()[i].pos == q);
            assert(a.resident(q));
        }
    }

    /// The `t`-th coordinate of the 3×3 neighbourhood of `p`, row by row.
    pub open spec fn nb(p: Vec2i, t: int) -> Vec2i {
        neighbor(p, t / 3 - 1, t % 3 - 1)
    }

    /// Queue every coordinate of the 3×3 neighbourhood of `p` that is
    /// eligible: each gets a fresh descriptor at the current tick,
    /// superseding any older one.
    fn queue_around(&mut self, p: Vec2i, current_tick: u64)
        requires
            old(self).wf(),
            coord2_in(p, 0),
        ensures
            final(self).wf(),
            final(self).keys() == old(self).keys(),
            final(self).chunks_seq() == old(self).chunks_seq(),
            forall|q: Vec2i| #![trigger final(self).todo_has(q)]
                cheb_adjacent(p, q) && old(self).eligible(q) ==> final(self).todo_has(q)
                    && final(self).todo_at(q) == (ChunkMeshState {
                    pos: q,
                    started_tick: current_tick,
                    active_worker: false,
                }),
            forall|q: Vec2i| #![trigger final(self).todo_has(q)]
                !(cheb_adjacent(p, q) && old(self).eligible(q)) ==> final(self).todo_has(q)
                    == old(self).todo_has(q) && (old(self).todo_has(q) ==> final(self).todo_at(q)
                    == old(self).todo_at(q)),
    {
        let ghost s0 = *old(self);
        let mut t: usize = 0;
        while t < 9
            invariant
                self.wf(),
                coord2_in(p, 0),
                t <= 9,
                self.keys() == s0.keys(),
                self.chunks_seq() == s0.chunks_seq(),
                forall|q: Vec2i|
                    (exists|u: int| 0 <= u < t && q == Self::nb(p, u)) && s0.eligible(q)
                        ==> self.todo_has(q) && self.todo_at(q) == (ChunkMeshState {
                        pos: q,
                        started_tick: current_tick,
                        active_worker: false,
                    }),
                forall|q: Vec2i|
                    !((exists|u: int| 0 <= u < t && q == Self::nb(p, u)) && s0.eligible(q))
                        ==> self.todo_has(q) == s0.todo_has(q) && (s0.todo_has(q)
                        ==> self.todo_at(q) == s0.todo_at(q)),
            decreases 9 - t,
        {
            let ghost pre = *self;
            let dx = (t as i32) / 3 - 1;
            let dy = (t as i32) % 3 - 1;
            let q = Vec2i::new(p.x + dx, p.y + dy);
            proof {
                assert(q == Self::nb(p, t as int));
                Self::lemma_eligible_same(pre, s0, q);
            }
            self.maybe_queue(q, current_tick);
            proof {
                assert forall|r: Vec2i|
                    (exists|u: int| 0 <= u < t + 1 && r == Self::nb(p, u)) && s0.eligible(r)
                        implies self.todo_has(r) && self.todo_at(r) == (ChunkMeshState {
                        pos: r,
                        started_tick: current_tick,
                        active_worker: false,
                    }) by {
                    let u = choose|u: int| 0 <= u < t + 1 && r == Self::nb(p, u);
                    if r == q {
                    } else {
                        assert(u < t) by {
                            if u == t {
                                assert(r == Self::nb(p, t as int));
                            }
                        }
                        assert(pre.todo_has(r) && pre.todo_at(r) == (ChunkMeshState {
                            pos: r,
                            started_tick: current_tick,
                            active_worker: false,
                        }));
                    }
                }
                assert forall|r: Vec2i|
                    !((exists|u: int| 0 <= u < t + 1 && r == Self::nb(p, u)) && s0.eligible(r))
                        implies self.todo_has(r) == s0.todo_has(r) && (s0.todo_has(r)
                        ==> self.todo_at(r) == s0.todo_at(r)) by {
                    if r == q {
                        assert(r == Self::nb(p, t as int));
                        assert(!s0.eligible(r));
                        assert(!pre.eligible(r));
                    } else {
                        assert(!((exists|u: int| 0 <= u < t && r == Self::nb(p, u))
                            && s0.eligible(r)));
                    }
                }
            }
            t = t + 1;
        }
        proof {
            assert forall|q: Vec2i| cheb_adjacent(p, q) implies (exists|u: int|
                0 <= u < 9 && q == Self::nb(p, u)) by {
                let dx = q.x - p.x;
                let dy = q.y - p.y;
                let u = (dx + 1) * 3 + (dy + 1);
                assert(u / 3 - 1 == dx && u % 3 - 1 == dy);
                assert(q == Self::nb(p, u));
            }
        }
    }

    /// Record that the world now holds data for every coordinate of the
    /// list.
    fn add_world_keys(&mut self, list: &Vec<Vec2i>)
        requires
            old(self).wf(),
        ensures
            final(self).wf(),
            final(self).chunks_seq() == old(self).chunks_seq(),
            final(self).todo_seq() == old(self).todo_seq(),
            final(self).keys() == old(self).keys().union(key_set(list@)),
    {
        let ghost s0 = *old(self);
        let n = list.len();
        let mut i: usize = 0;
        while i < n
            invariant
                self.wf(),
                n == list@.len(),
                i <= n,
                self.chunks_seq() == s0.chunks_seq(),
                self.todo_seq() == s0.todo_seq(),
                self.keys() == s0.keys().union(key_set(list@.take(i as int))),
            decreases n - i,
        {
            let k = key_of(list[i]);
            self.world_keys.insert(k, ());
            proof {
                assert(key_set(list@.take(i + 1)) =~= key_set(list@.take(i as int)).insert(
                    list@[i as int].key(),
                )) by {
                    assert forall|kk: u64| key_set(list@.take(i + 1)).contains(kk) implies key_set(
                        list@.take(i as int),
                    ).insert(list@[i as int].key()).contains(kk) by {
                        let j = choose|j: int|
                            0 <= j < list@.take(i + 1).len() && #[trigger] list@.take(i + 1)[j].key()
                                == kk;
                        if j < i {
                            assert(list@.take(i as int)[j].key() == kk);
                        }
                    }
                    assert forall|kk: u64|
                        key_set(list@.take(i as int)).insert(list@[i as int].key()).contains(
                        kk,
                    ) implies key_set(list@.take(i + 1)).contains(kk) by {
                        if key_set(list@.take(i as int)).contains(kk) {
                            let j = choose|j: int|
                                0 <= j < list@.take(i as int).len() && list@.take(i as int)[j].key()
                                    == kk;
                            assert(list@.take(i + 1)[j].key() == kk);
                        } else {
                            assert(list@.take(i + 1)[i as int].key() == kk);
                        }
                    }
                }
                assert(self.keys() =~= s0.keys().union(key_set(list@.take(i + 1))));
            }
            i = i + 1;
        }
        proof {
            assert(list@.take(n as int) =~= list@);
        }
    }

    /// Record that the world no longer holds data for any coordinate of
    /// the list.
    fn remove_world_keys(&mut self, list: &Vec<Vec2i>)
        requires
            old(self).wf(),
        ensures
            final(self).wf(),
            final(self).chunks_seq() == old(self).chunks_seq(),
            final(self).todo_seq() == old(self).todo_seq(),
            final(self).keys() == old(self).keys().difference(key_set(list@)),
    {
        let ghost s0 = *old(self);
        let n = list.len();
        let mut i: usize = 0;
        while i < n
            invariant
                self.wf(),
                n == list@.len(),
                i <= n,
                self.chunks_seq() == s0.chunks_seq(),
                self.todo_seq() == s0.todo_seq(),
                self.keys() == s0.keys().difference(key_set(list@.take(i as int))),
            decreases n - i,
        {
            let k = key_of(list[i]);
            self.world_keys.remove(&k);
            proof {
                assert forall|kk: u64| self.keys().contains(kk) implies s0.keys().difference(
                    key_set(list@.take(i + 1)),
                ).contains(kk) by {
                    if key_set(list@.take(i + 1)).contains(kk) {
                        let j = choose|j: int|
                            0 <= j < list@.take(i + 1).len() && #[trigger] list@.take(i + 1)[j].key()
                                == kk;
                        if j < i {
                            assert(list@.take(i as int)[j].key() == kk);
                        }
                    }
                }
                assert forall|kk: u64|
                    s0.keys().difference(key_set(list@.take(i + 1))).contains(
                    kk,
                ) implies self.keys().contains(kk) by {
                    if key_set(list@.take(i as int)).contains(kk) {
                        let j = choose|j: int|
                            0 <= j < list@.take(i as int).len() && #[trigger] list@.take(
                                i as int,
                            )[j].key() == kk;
                        assert(list@.take(i + 1)[j].key() == kk);
                    }
                    assert(kk != list@[i as int].key()) by {
                        if kk == list@[i as int].key() {
                            assert(list@.take(i + 1)[i as int].key() == kk);
                        }
                    }
                }
                assert(self.keys() =~= s0.keys().difference(key_set(list@.take(i + 1))));
            }
            i = i + 1;
        }
        proof {
            assert(list@.take(n as int) =~= list@);
        }
    }

    /// Drop the resident entry of the coordinate, if any.
    fn remove_chunk_entry(&mut self, p: Vec2i)
        requires
            old(self).wf(),
        ensures
            final(self).wf(),
            final(self).keys() == old(self).keys(),
            final(self).todo_seq() == old(self).todo_seq(),
            !final(self).resident(p),
            forall|q: Vec2i|
                q != p ==> final(self).resident(q) == old(self).resident(q) && (old(self).resident(
                    q,
                ) ==> final(self).chunk_at(q) == old(self).chunk_at(q)),
    {
        match self.find_chunk_idx(p) {
            Some(i) => {
                self.chunks.remove(i);
                proof {
                    let pre = old(self).chunks_seq();
                    let post = self.chunks_seq();
                    assert(post == pre.remove(i as int));
                    assert forall|a: int, b: int|
                        0 <= a < b < post.len() implies #[trigger] post[a].pos
                        != #[trigger] post[b].pos by {
                        let a0: int = if a < i {
                            a
                        } else {
                            a + 1
                        };
                        let b0: int = if b < i {
                            b
                        } else {
                            b + 1
                        };
                        assert(pre[a0].pos != pre[b0].pos);
                    }
                    assert forall|a: int| 0 <= a < post.len() implies coord2_in(
                        #[trigger] post[a].pos,
                        1,
                    ) by {
                        let a0: int = if a < i {
                            a
                        } else {
                            a + 1
                        };
                        assert(coord2_in(pre[a0].pos, 1));
                    }
                    assert(!self.resident(p)) by {
                        if self.resident(p) {
                            let j = choose|j: int| 0 <= j < post.len() && post[j].pos == p;
                            let j0: int = if j < i {
                                j
                            } else {
                                j + 1
                            };
                            assert(pre[j0].pos == p);
                            assert(pre[i as int].pos == p);
                            assert(j0 == i);
                        }
                    }
                    assert forall|q: Vec2i| q != p implies self.resident(q) == old(self).resident(
                        q,
                    ) && (old(self).resident(q) ==> self.chunk_at(q) == old(self).chunk_at(q)) by {
                        if old(self).resident(q) {
                            let j = old(self).chunk_index(q);
                            assert(pre[j].pos == q);
                            assert(j != i);
                            let jn: int = if j < i {
                                j
                            } else {
                                j - 1
                            };
                            assert(post[jn].pos == q);
                            self.lemma_chunk_index_is(q, jn);
                            old(self).lemma_chunk_index_is(q, j);
                        } else {
                            if self.resident(q) {
                                let j = choose|j: int| 0 <= j < post.len() && post[j].pos == q;
                                let j0: int = if j < i {
                                    j
                                } else {
                                    j + 1
                                };
                                assert(pre[j0].pos == q);
                            }
                        }
                    }
                }
            },
            None => {
                proof {
                    assert forall|q: Vec2i| q != p implies self.resident(q) == old(self).resident(
                        q,
                    ) && (old(self).resident(q) ==> self.chunk_at(q) == old(self).chunk_at(q)) by {
                    }
                }
            },
        }
    }

    /// Drop the job descriptor of the coordinate, if any.
    fn remove_todo_entry(&mut self, p: Vec2i)
        requires
            old(self).wf(),
        ensures
            final(self).wf(),
            final(self).keys() == old(self).keys(),
            final(self).chunks_seq() == old(self).chunks_seq(),
            !final(self).todo_has(p),
            forall|q: Vec2i|
                q != p ==> final(self).todo_has(q) == old(self).todo_has(q) && (old(self).todo_has(
                    q,
                ) ==> final(self).todo_at(q) == old(self).todo_at(q)),
    {
        match self.find_todo_idx(p) {
            Some(i) => {
                self.mesh_todo.remove(i);
                proof {
                    let pre = old(self).todo_seq();
                    let post = self.todo_seq();
                    assert(post == pre.remove(i as int));
                    assert forall|a: int, b: int|
                        0 <= a < b < post.len() implies #[trigger] post[a].pos
                        != #[trigger] post[b].pos by {
                        let a0: int = if a < i {
                            a
                        } else {
                            a + 1
                        };
                        let b0: int = if b < i {
                            b
                        } else {
                            b + 1
                        };
                        assert(pre[a0].pos != pre[b0].pos);
                    }
                    assert forall|a: int| 0 <= a < post.len() implies coord2_in(
                        #[trigger] post[a].pos,
                        1,
                    ) by {
                        let a0: int = if a < i {
                            a
                        } else {
                            a + 1
                        };
                        assert(coord2_in(pre[a0].pos, 1));
                    }
                    assert(!self.todo_has(p)) by {
                        if self.todo_has(p) {
                            let j = choose|j: int| 0 <= j < post.len() && post[j].pos == p;
                            let j0: int = if j < i {
                                j
                            } else {
                                j + 1
                            };
                            assert(pre[j0].pos == p);
                            assert(pre[i as int].pos == p);
                            assert(j0 == i);
                        }
                    }
                    assert forall|q: Vec2i| q != p implies self.todo_has(q) == old(self).todo_has(
                        q,
                    ) && (old(self).todo_has(q) ==> self.todo_at(q) == old(self).todo_at(q)) by {
                        if old(self).todo_has(q) {
                            let j = old(self).todo_index(q);
                            assert(pre[j].pos == q);
                            assert(j != i);
                            let jn: int = if j < i {
                                j
                            } else {
                                j - 1
                            };
                            assert(post[jn].pos == q);
                            self.lemma_todo_index_is(q, jn);
                            old(self).lemma_todo_index_is(q, j);
                        } else {
                            if self.todo_has(q) {
                                let j = choose|j: int| 0 <= j < post.len() && post[j].pos == q;
                                let j0: int = if j < i {
                                    j
                                } else {
                                    j + 1
                                };
                                assert(pre[j0].pos == q);
                            }
                        }
                    }
                }
            },
            None => {
                proof {
                    assert forall|q: Vec2i| q != p implies self.todo_has(q) == old(self).todo_has(
                        q,
                    ) && (old(self).todo_has(q) ==> self.todo_at(q) == old(self).todo_at(q)) by {
                    }
                }
            },
        }
    }

    proof fn lemma_resident_same(a: Terrain, b: Terrain, q: Vec2i)
        requires
            a.wf(),
            b.wf(),
            a.chunks_seq() == b.chunks_seq(),
        ensures
            a.resident(q) == b.resident(q),
            a.resident(q) ==> a.chunk_at(q) == b.chunk_at(q),
    {
        if a.resident(q) {
            let i = a.chunk_index(q);
            a.lemma_chunk_index_is(q, i);
            assert(b.chunks_seq()[i].pos == q);
            b.lemma_chunk_index_is(q, i);
        }
        if b.resident(q) {
            let i = b.chunk_index(q);
            b.lemma_chunk_index_is(q, i);
            assert(a.chunks_seq()[i].pos == q);
            a.lemma_chunk_index_is(q, i);
        }
    }

    proof fn lemma_todo_same(a: Terrain, b: Terrain, q: Vec2i)
        requires
            a.wf(),
            b.wf(),
            a.todo_seq() == b.todo_seq(),
        ensures
            a.todo_has(q) == b.todo_has(q),
            a.todo_has(q) ==> a.todo_at(q) == b.todo_at(q),
    {
        if a.todo_has(q) {
            let i = a.todo_index(q);
            a.lemma_todo_index_is(q, i);
            assert(b.todo_seq()[i].pos == q);
            b.lemma_todo_index_is(q, i);
        }
        if b.todo_has(q) {
            let i = b.todo_index(q);
            b.lemma_todo_index_is(q, i);
            assert(a.todo_seq()[i].pos == q);
            a.lemma_todo_index_is(q, i);
        }
    }

    /// Ingest one tick of world-state deltas, in order: record the new
    /// and dropped world keys; expand every new or changed coordinate
    /// into its 3×3 neighbourhood and promote each expanded coordinate
    /// that is not yet resident and whose own neighbourhood is fully
    /// present — a promoted coordinate gets a fresh descriptor fixed at
    /// the current tick, superseding any older descriptor, so a still-
    /// running worker's result will be dropped on arrival; finally drop
    /// the entries and descriptors of all removed coordinates.
    pub fn ingest(
        &mut self,
        new_chunks: &Vec<Vec2i>,
        changed_chunks: &Vec<Vec2i>,
        removed_chunks: &Vec<Vec2i>,
        current_tick: u64,
    )
        requires
            old(self).wf(),
            forall|i: int| 0 <= i < new_chunks@.len() ==> coord2_in(#[trigger] new_chunks@[i], 0),
            forall|i: int|
                0 <= i < changed_chunks@.len() ==> coord2_in(#[trigger] changed_chunks@[i], 0),
            forall|i: int|
                0 <= i < removed_chunks@.len() ==> coord2_in(#[trigger] removed_chunks@[i], 0),
        ensures
            final(self).wf(),
            final(self).keys() == old(self).keys().union(key_set(new_chunks@)).difference(
                key_set(removed_chunks@),
            ),
            forall|p: Vec2i|
                list_has(removed_chunks@, p) ==> !final(self).resident(p) && !final(self).todo_has(
                    p,
                ),
            forall|p: Vec2i|
                !list_has(removed_chunks@, p) ==> final(self).resident(p) == old(self).resident(p)
                    && (old(self).resident(p) ==> final(self).chunk_at(p) == old(self).chunk_at(p)),
            forall|p: Vec2i|
                !list_has(removed_chunks@, p) && Self::promoted(
                    *old(self),
                    final(self).keys(),
                    new_chunks@,
                    changed_chunks@,
                    p,
                ) ==> final(self).todo_has(p) && final(self).todo_at(p) == (ChunkMeshState {
                    pos: p,
                    started_tick: current_tick,
                    active_worker: false,
                }),
            forall|p: Vec2i|
                !list_has(removed_chunks@, p) && !Self::promoted(
                    *old(self),
                    final(self).keys(),
                    new_chunks@,
                    changed_chunks@,
                    p,
                ) ==> final(self).todo_has(p) == old(self).todo_has(p) && (old(self).todo_has(p)
                    ==> final(self).todo_at(p) == old(self).todo_at(p)),
            forall|p: Vec2i|
                final(self).todo_has(p) && !old(self).todo_has(p) ==> neighborhood_complete(
                    final(self).keys(),
                    p,
                ),
    {
        let ghost s0 = *old(self);
        self.add_world_keys(new_chunks);
        self.remove_world_keys(removed_chunks);
        let ghost sk = *self;
        let n1 = new_chunks.len();
        let mut i: usize = 0;
        while i < n1
            invariant
                self.wf(),
                sk.wf(),
                n1 == new_chunks@.len(),
                i <= n1,
                forall|j: int| 0 <= j < new_chunks@.len() ==> coord2_in(#[trigger] new_chunks@[j], 0),
                self.keys() == sk.keys(),
                self.chunks_seq() == sk.chunks_seq(),
                forall|q: Vec2i|
                    expansion_prefix(new_chunks@, i as int, q) && sk.eligible(q)
                        ==> self.todo_has(q) && self.todo_at(q) == (ChunkMeshState {
                        pos: q,
                        started_tick: current_tick,
                        active_worker: false,
                    }),
                forall|q: Vec2i|
                    !(expansion_prefix(new_chunks@, i as int, q) && sk.eligible(q))
                        ==> self.todo_has(q) == sk.todo_has(q) && (sk.todo_has(q)
                        ==> self.todo_at(q) == sk.todo_at(q)),
            decreases n1 - i,
        {
            let ghost pre = *self;
            let p = new_chunks[i];
            self.queue_around(p, current_tick);
            proof {
                assert forall|q: Vec2i|
                    expansion_prefix(new_chunks@, i + 1, q) && sk.eligible(q)
                        implies self.todo_has(q) && self.todo_at(q) == (ChunkMeshState {
                        pos: q,
                        started_tick: current_tick,
                        active_worker: false,
                    }) by {
                    Self::lemma_eligible_same(pre, sk, q);
                    if cheb_adjacent(new_chunks@[i as int], q) {
                    } else {
                        let j = choose|j: int|
                            0 <= j < i + 1 && cheb_adjacent(#[trigger] new_chunks@[j], q);
                        assert(expansion_prefix(new_chunks@, i as int, q));
                    }
                }
                assert forall|q: Vec2i|
                    !(expansion_prefix(new_chunks@, i + 1, q) && sk.eligible(q))
                        implies self.todo_has(q) == sk.todo_has(q) && (sk.todo_has(q)
                        ==> self.todo_at(q) == sk.todo_at(q)) by {
                    Self::lemma_eligible_same(pre, sk, q);
                    assert(!(expansion_prefix(new_chunks@, i as int, q) && sk.eligible(q))) by {
                        if expansion_prefix(new_chunks@, i as int, q) {
                            let j = choose|j: int|
                                0 <= j < i && cheb_adjacent(#[trigger] new_chunks@[j], q);
                            assert(expansion_prefix(new_chunks@, i + 1, q));
                        }
                    }
                    assert(!(cheb_adjacent(new_chunks@[i as int], q) && sk.eligible(q))) by {
                        if cheb_adjacent(new_chunks@[i as int], q) {
                            assert(expansion_prefix(new_chunks@, i + 1, q));
                        }
                    }
                    assert(!(cheb_adjacent(p, q) && pre.eligible(q)));
                    assert(self.todo_has(q) == pre.todo_has(q) && (pre.todo_has(q)
                        ==> self.todo_at(q) == pre.todo_at(q)));
                    assert(pre.todo_has(q) == sk.todo_has(q) && (sk.todo_has(q) ==> pre.todo_at(q)
                        == sk.todo_at(q)));
                }
            }
            i = i + 1;
        }
        let ghost covered_new = new_chunks@.len() as int;
        let n2 = changed_chunks.len();
        let mut i2: usize = 0;
        while i2 < n2
            invariant
                self.wf(),
                sk.wf(),
                n2 == changed_chunks@.len(),
                i2 <= n2,
                forall|j: int|
                    0 <= j < changed_chunks@.len() ==> coord2_in(#[trigger] changed_chunks@[j], 0),
                self.keys() == sk.keys(),
                self.chunks_seq() == sk.chunks_seq(),
                forall|q: Vec2i|
                    (expansion_prefix(new_chunks@, new_chunks@.len() as int, q) || expansion_prefix(
                        changed_chunks@,
                        i2 as int,
                        q,
                    )) && sk.eligible(q) ==> self.todo_has(q) && self.todo_at(q)
                        == (ChunkMeshState {
                        pos: q,
                        started_tick: current_tick,
                        active_worker: false,
                    }),
                forall|q: Vec2i|
                    !((expansion_prefix(new_chunks@, new_chunks@.len() as int, q)
                        || expansion_prefix(changed_chunks@, i2 as int, q)) && sk.eligible(q))
                        ==> self.todo_has(q) == sk.todo_has(q) && (sk.todo_has(q)
                        ==> self.todo_at(q) == sk.todo_at(q)),
            decreases n2 - i2,
        {
            let ghost pre = *self;
            let p = changed_chunks[i2];
            self.queue_around(p, current_tick);
            proof {
                assert forall|q: Vec2i|
                    (expansion_prefix(new_chunks@, new_chunks@.len() as int, q) || expansion_prefix(
                        changed_chunks@,
                        i2 + 1,
                        q,
                    )) && sk.eligible(q) implies self.todo_has(q) && self.todo_at(q)
                        == (ChunkMeshState {
                        pos: q,
                        started_tick: current_tick,
                        active_worker: false,
                    }) by {
                    Self::lemma_eligible_same(pre, sk, q);
                    if cheb_adjacent(changed_chunks@[i2 as int], q) {
                    } else {
                        if expansion_prefix(changed_chunks@, i2 + 1, q) {
                            let j = choose|j: int|
                                0 <= j < i2 + 1 && cheb_adjacent(#[trigger] changed_chunks@[j], q);
                            assert(expansion_prefix(changed_chunks@, i2 as int, q));
                        }
                    }
                }
                assert forall|q: Vec2i|
                    !((expansion_prefix(new_chunks@, new_chunks@.len() as int, q)
                        || expansion_prefix(changed_chunks@, i2 + 1, q)) && sk.eligible(q))
                        implies self.todo_has(q) == sk.todo_has(q) && (sk.todo_has(q)
                        ==> self.todo_at(q) == sk.todo_at(q)) by {
                    Self::lemma_eligible_same(pre, sk, q);
                    assert(!(expansion_prefix(changed_chunks@, i2 as int, q) && sk.eligible(q)))
                        by {
                        if expansion_prefix(changed_chunks@, i2 as int, q) {
                            let j = choose|j: int|
                                0 <= j < i2 && cheb_adjacent(#[trigger] changed_chunks@[j], q);
                            assert(expansion_prefix(changed_chunks@, i2 + 1, q));
                        }
                    }
                    assert(!(cheb_adjacent(changed_chunks@[i2 as int], q) && sk.eligible(q))) by {
                        if cheb_adjacent(changed_chunks@[i2 as int], q) {
                            assert(expansion_prefix(changed_chunks@, i2 + 1, q));
                        }
                    }
                    assert(!(cheb_adjacent(p, q) && pre.eligible(q)));
                    assert(self.todo_has(q) == pre.todo_has(q) && (pre.todo_has(q)
                        ==> self.todo_at(q) == pre.todo_at(q)));
                    assert(pre.todo_has(q) == sk.todo_has(q) && (sk.todo_has(q) ==> pre.todo_at(q)
                        == sk.todo_at(q)));
                }
            }
            i2 = i2 + 1;
        }
        let ghost sq = *self;
        let n3 = removed_chunks.len();
        let mut i3: usize = 0;
        while i3 < n3
            invariant
                self.wf(),
                sq.wf(),
                n3 == removed_chunks@.len(),
                i3 <= n3,
                self.keys() == sq.keys(),
                forall|q: Vec2i|
                    list_prefix_has(removed_chunks@, i3 as int, q) ==> !self.resident(q)
                        && !self.todo_has(q),
                forall|q: Vec2i|
                    !list_prefix_has(removed_chunks@, i3 as int, q) ==> self.resident(q)
                        == sq.resident(q) && (sq.resident(q) ==> self.chunk_at(q) == sq.chunk_at(
                        q,
                    )) && self.todo_has(q) == sq.todo_has(q) && (sq.todo_has(q) ==> self.todo_at(q)
                        == sq.todo_at(q)),
            decreases n3 - i3,
        {
            let ghost pre3 = *self;
            let p = removed_chunks[i3];
            self.remove_chunk_entry(p);
            let ghost mid3 = *self;
            self.remove_todo_entry(p);
            proof {
                assert forall|q: Vec2i|
                    list_prefix_has(removed_chunks@, i3 + 1, q) implies !self.resident(q)
                        && !self.todo_has(q) by {
                    Self::lemma_resident_same(*self, mid3, q);
                    if q != p {
                        let j = choose|j: int|
                            0 <= j < i3 + 1 && #[trigger] removed_chunks@[j] == q;
                        assert(list_prefix_has(removed_chunks@, i3 as int, q));
                        assert(!pre3.resident(q) && !pre3.todo_has(q));
                        Self::lemma_todo_same(mid3, pre3, q);
                    }
                }
                assert forall|q: Vec2i|
                    !list_prefix_has(removed_chunks@, i3 + 1, q) implies self.resident(q)
                        == sq.resident(q) && (sq.resident(q) ==> self.chunk_at(q) == sq.chunk_at(
                        q,
                    )) && self.todo_has(q) == sq.todo_has(q) && (sq.todo_has(q) ==> self.todo_at(q)
                        == sq.todo_at(q)) by {
                    assert(q != p) by {
                        if q == p {
                            assert(removed_chunks@[i3 as int] == q);
                            assert(list_prefix_has(removed_chunks@, i3 + 1, q));
                        }
                    }
                    assert(!list_prefix_has(removed_chunks@, i3 as int, q)) by {
                        if list_prefix_has(removed_chunks@, i3 as int, q) {
                            let j = choose|j: int|
                                0 <= j < i3 && #[trigger] removed_chunks@[j] == q;
                            assert(list_prefix_has(removed_chunks@, i3 + 1, q));
                        }
                    }
                    Self::lemma_resident_same(*self, mid3, q);
                    Self::lemma_todo_same(mid3, pre3, q);
                    assert(mid3.resident(q) == pre3.resident(q) && (pre3.resident(q)
                        ==> mid3.chunk_at(q) == pre3.chunk_at(q)));
                    assert(self.todo_has(q) == mid3.todo_has(q) && (mid3.todo_has(q)
                        ==> self.todo_at(q) == mid3.todo_at(q)));
                    assert(pre3.resident(q) == sq.resident(q) && (sq.resident(q)
                        ==> pre3.chunk_at(q) == sq.chunk_at(q)));
                    assert(pre3.todo_has(q) == sq.todo_has(q) && (sq.todo_has(q)
                        ==> pre3.todo_at(q) == sq.todo_at(q)));
                }
            }
            i3 = i3 + 1;
        }
        proof {
            let keys_final = self.keys();
            assert forall|p: Vec2i| list_has(removed_chunks@, p) implies !self.resident(p)
                && !self.todo_has(p) by {
                assert(list_prefix_has(removed_chunks@, n3 as int, p));
            }
            assert forall|p: Vec2i| !list_has(removed_chunks@, p) implies self.resident(p)
                == s0.resident(p) && (s0.resident(p) ==> self.chunk_at(p) == s0.chunk_at(p)) by {
                assert(!list_prefix_has(removed_chunks@, n3 as int, p)) by {
                    if list_prefix_has(removed_chunks@, n3 as int, p) {
                        let j = choose|j: int|
                            0 <= j < n3 && #[trigger] removed_chunks@[j] == p;
                        assert(list_has(removed_chunks@, p));
                    }
                }
                Self::lemma_resident_same(sq, sk, p);
                Self::lemma_resident_same(sk, s0, p);
            }
            assert forall|p: Vec2i|
                !list_has(removed_chunks@, p) && Self::promoted(
                    s0,
                    keys_final,
                    new_chunks@,
                    changed_chunks@,
                    p,
                ) implies self.todo_has(p) && self.todo_at(p) == (ChunkMeshState {
                    pos: p,
                    started_tick: current_tick,
                    active_worker: false,
                }) by {
                assert(!list_prefix_has(removed_chunks@, n3 as int, p)) by {
                    if list_prefix_has(removed_chunks@, n3 as int, p) {
                        let j = choose|j: int|
                            0 <= j < n3 && #[trigger] removed_chunks@[j] == p;
                        assert(list_has(removed_chunks@, p));
                    }
                }
                Self::lemma_resident_same(sk, s0, p);
                assert(sk.eligible(p));
                assert(expansion_prefix(new_chunks@, new_chunks@.len() as int, p)
                    || expansion_prefix(changed_chunks@, n2 as int, p)) by {
                    if exists|j: int|
                        0 <= j < new_chunks@.len() && cheb_adjacent(#[trigger] new_chunks@[j], p) {
                        assert(expansion_prefix(new_chunks@, new_chunks@.len() as int, p));
                    } else {
                        assert(exists|j: int|
                            0 <= j < changed_chunks@.len() && cheb_adjacent(
                                #[trigger] changed_chunks@[j],
                                p,
                            ));
                        assert(expansion_prefix(changed_chunks@, n2 as int, p));
                    }
                }
            }
            assert forall|p: Vec2i|
                !list_has(removed_chunks@, p) && !Self::promoted(
                    s0,
                    keys_final,
                    new_chunks@,
                    changed_chunks@,
                    p,
                ) implies self.todo_has(p) == s0.todo_has(p) && (s0.todo_has(p) ==> self.todo_at(p)
                    == s0.todo_at(p)) by {
                assert(!list_prefix_has(removed_chunks@, n3 as int, p)) by {
                    if list_prefix_has(removed_chunks@, n3 as int, p) {
                        let j = choose|j: int|
                            0 <= j < n3 && #[trigger] removed_chunks@[j] == p;
                        assert(list_has(removed_chunks@, p));
                    }
                }
                Self::lemma_resident_same(sk, s0, p);
                assert(!((expansion_prefix(new_chunks@, new_chunks@.len() as int, p)
                    || expansion_prefix(changed_chunks@, n2 as int, p)) && sk.eligible(p))) by {
                    if expansion_prefix(new_chunks@, new_chunks@.len() as int, p) {
                        let j = choose|j: int|
                            0 <= j < new_chunks@.len() && cheb_adjacent(#[trigger] new_chunks@[j], p);
                        assert(in_expansion(new_chunks@, changed_chunks@, p));
                    }
                    if expansion_prefix(changed_chunks@, n2 as int, p) {
                        let j = choose|j: int|
                            0 <= j < n2 && cheb_adjacent(#[trigger] changed_chunks@[j], p);
                        assert(in_expansion(new_chunks@, changed_chunks@, p));
                    }
                }
                Self::lemma_todo_same(sk, s0, p);
            }
            assert forall|p: Vec2i| self.todo_has(p) && !s0.todo_has(p) implies
                neighborhood_complete(keys_final, p) by {
                if !list_has(removed_chunks@, p) {
                    if !Self::promoted(s0, keys_final, new_chunks@, changed_chunks@, p) {
                        assert(self.todo_has(p) == s0.todo_has(p));
                    }
                } else {
                    assert(!self.todo_has(p));
                }
            }
        }
    }

    /// Whether one ingest pass promotes the coordinate to queued: it lies
    /// in the 3×3 expansion of the new/changed set, is not resident, and
    /// its whole neighbourhood is present among the world keys left after
    /// the pass.
    pub open spec fn promoted(
        pre: Terrain,
        keys_after: Set<u64>,
        new_list: Seq<Vec2i>,
        changed_list: Seq<Vec2i>,
        p: Vec2i,
    ) -> bool {
        &&& in_expansion(new_list, changed_list, p)
        &&& !pre.resident(p)
        &&& neighborhood_complete(keys_after, p)
    }

    proof fn lemma_wf_after_chunk_update(pre: Terrain, post: Terrain, i: int, row: TerrainChunk)
        requires
            pre.wf(),
            0 <= i < pre.chunks_seq().len(),
            row.pos == pre.chunks_seq()[i].pos,
            coord2_in(row.pos, 1),
            post.chunks_seq() == pre.chunks_seq().update(i, row),
            post.todo_seq() == pre.todo_seq(),
        ensures
            post.wf(),
    {
        let sq = post.chunks_seq();
        assert forall|a: int, b: int|
            0 <= a < b < sq.len() implies #[trigger] sq[a].pos != #[trigger] sq[b].pos by {
            assert(pre.chunks_seq()[a].pos != pre.chunks_seq()[b].pos);
        }
        assert forall|a: int| 0 <= a < sq.len() implies coord2_in(#[trigger] sq[a].pos, 1) by {
            assert(coord2_in(pre.chunks_seq()[a].pos, 1));
        }
    }

    proof fn lemma_wf_after_chunk_push(pre: Terrain, post: Terrain, row: TerrainChunk)
        requires
            pre.wf(),
            !pre.resident(row.pos),
            coord2_in(row.pos, 1),
            post.chunks_seq() == pre.chunks_seq().push(row),
            post.todo_seq() == pre.todo_seq(),
        ensures
            post.wf(),
    {
        let sq = post.chunks_seq();
        assert forall|a: int, b: int|
            0 <= a < b < sq.len() implies #[trigger] sq[a].pos != #[trigger] sq[b].pos by {
            if b < pre.chunks_seq().len() {
                assert(pre.chunks_seq()[a].pos != pre.chunks_seq()[b].pos);
            } else {
                assert(sq[b] == row);
                assert(pre.chunks_seq()[a].pos == sq[a].pos);
            }
        }
        assert forall|a: int| 0 <= a < sq.len() implies coord2_in(#[trigger] sq[a].pos, 1) by {
            if a < pre.chunks_seq().len() {
                assert(coord2_in(pre.chunks_seq()[a].pos, 1));
            }
        }
    }

    /// The coordinates of all descriptors without an active worker, in
    /// table order: the jobs the host should sample and dispatch next.
    pub open spec fn pending_of(s: Seq<ChunkMeshState>) -> Seq<Vec2i>
        decreases s.len(),
    {
        if s.len() == 0 {
            Seq::empty()
        } else {
            Self::pending_of(s.drop_last()) + (if !s.last().active_worker {
                seq![s.last().pos]
            } else {
                Seq::empty()
            })
        }
    }

    /// The voxel-space footprint to sample for meshing one chunk: the
    /// chunk's own columns plus one voxel of border on every side, so the
    /// mesher can see into each neighbour for face culling and ambient
    /// occlusion. Returns the inclusive minimum and exclusive maximum
    /// corner.
    pub fn chunk_sample_area(pos: Vec2i) -> (r: (Vec2i, Vec2i))
        requires
            coord2_in(pos, 1),
        ensures
            r.0.x == pos.x * CHUNK_SIZE - 1,
            r.0.y == pos.y * CHUNK_SIZE - 1,
            r.1.x == (pos.x + 1) * CHUNK_SIZE + 1,
            r.1.y == (pos.y + 1) * CHUNK_SIZE + 1,
    {
        (
            Vec2i::new(pos.x * 32 - 1, pos.y * 32 - 1),
            Vec2i::new((pos.x + 1) * 32 + 1, (pos.y + 1) * 32 + 1),
        )
    }

    /// The dispatch list holds exactly the coordinates of descriptors
    /// without an active worker.
    pub proof fn lemma_pending_members(s: Seq<ChunkMeshState>, p: Vec2i)
        ensures
            Self::pending_of(s).contains(p) <==> exists|i: int|
                0 <= i < s.len() && s[i].pos == p && !s[i].active_worker,
        decreases s.len(),
    {
        if s.len() > 0 {
            Self::lemma_pending_members(s.drop_last(), p);
            if Self::pending_of(s).contains(p) {
                let k = choose|k: int|
                    0 <= k < Self::pending_of(s).len() && Self::pending_of(s)[k] == p;
                if k < Self::pending_of(s.drop_last()).len() {
                    assert(Self::pending_of(s.drop_last()).contains(p));
                    let i = choose|i: int|
                        0 <= i < s.drop_last().len() && s.drop_last()[i].pos == p && !s.drop_last(
                        )[i].active_worker;
                    assert(s[i].pos == p && !s[i].active_worker);
                } else {
                    assert(!s.last().active_worker && s.last().pos == p);
                    assert(s[s.len() - 1].pos == p && !s[s.len() - 1].active_worker);
                }
            }
            if exists|i: int| 0 <= i < s.len() && s[i].pos == p && !s[i].active_worker {
                let i = choose|i: int| 0 <= i < s.len() && s[i].pos == p && !s[i].active_worker;
                if i < s.len() - 1 {
                    assert(s.drop_last()[i].pos == p && !s.drop_last()[i].active_worker);
                    assert(Self::pending_of(s.drop_last()).contains(p));
                    let k = choose|k: int|
                        0 <= k < Self::pending_of(s.drop_last()).len() && Self::pending_of(
                            s.drop_last(),
                        )[k] == p;
                    assert(Self::pending_of(s)[k] == p);
                } else {
                    assert(!s.last().active_worker);
                    assert(Self::pending_of(s).last() == p);
                }
            }
        }
    }

    /// List every queued coordinate that no worker is running for yet.
    pub fn jobs_to_dispatch(&self) -> (r: Vec<Vec2i>)
        ensures
            r@ == Self::pending_of(self.todo_seq()),
    {
        let mut r: Vec<Vec2i> = Vec::new();
        let n = self.mesh_todo.len();
        let mut i: usize = 0;
        while i < n
            invariant
                n == self.todo_seq().len(),
                i <= n,
                r@ == Self::pending_of(self.todo_seq().take(i as int)),
            decreases n - i,
        {
            let ghost prefix = self.todo_seq().take(i as int);
            if !self.mesh_todo[i].active_worker {
                r.push(self.mesh_todo[i].pos);
            }
            proof {
                let next = self.todo_seq().take(i + 1);
                assert(next.drop_last() =~= prefix);
                assert(next.last() == self.todo_seq()[i as int]);
                if !self.todo_seq()[i as int].active_worker {
                    assert(r@ =~= Self::pending_of(prefix) + seq![self.todo_seq()[i as int].pos]);
                }
            }
            i = i + 1;
        }
        proof {
            assert(self.todo_seq().take(n as int) =~= self.todo_seq());
        }
        r
    }

    /// Mark the descriptor of the coordinate as dispatched: its tick is
    /// fixed at the dispatch tick and a worker is now active for it.
    /// Returns false — and changes nothing — if no descriptor exists or a
    /// worker is already active.
    pub fn mark_dispatched(&mut self, pos: Vec2i, current_tick: u64) -> (r: bool)
        requires
            old(self).wf(),
        ensures
            final(self).wf(),
            final(self).keys() == old(self).keys(),
            final(self).chunks_seq() == old(self).chunks_seq(),
            r == (old(self).todo_has(pos) && !old(self).todo_at(pos).active_worker),
            !r ==> final(self).todo_seq() == old(self).todo_seq(),
            r ==> final(self).todo_has(pos) && final(self).todo_at(pos) == (ChunkMeshState {
                pos,
                started_tick: current_tick,
                active_worker: true,
            }),
            forall|q: Vec2i|
                q != pos ==> final(self).todo_has(q) == old(self).todo_has(q) && (old(
                    self,
                ).todo_has(q) ==> final(self).todo_at(q) == old(self).todo_at(q)),
    {
        match self.find_todo_idx(pos) {
            Some(i) => {
                proof {
                    old(self).lemma_todo_index_is(pos, i as int);
                }
                if !self.mesh_todo[i].active_worker {
                    let row = ChunkMeshState { pos, started_tick: current_tick, active_worker: true };
                    self.mesh_todo.set(i, row);
                    proof {
                        Self::lemma_wf_after_todo_update(*old(self), *self, i as int, row);
                        self.lemma_todo_index_is(pos, i as int);
                        assert forall|q: Vec2i| q != pos implies self.todo_has(q) == old(
                            self,
                        ).todo_has(q) && (old(self).todo_has(q) ==> self.todo_at(q) == old(
                            self,
                        ).todo_at(q)) by {
                            if old(self).todo_has(q) {
                                let j = old(self).todo_index(q);
                                old(self).lemma_todo_index_is(q, j);
                                assert(self.todo_seq()[j].pos == q);
                                self.lemma_todo_index_is(q, j);
                            }
                            if self.todo_has(q) {
                                let j = self.todo_index(q);
                                assert(old(self).todo_seq()[j].pos == q);
                            }
                        }
                    }
                    true
                } else {
                    false
                }
            },
            None => false,
        }
    }

    /// Whether a result dispatched at `started_tick` for the coordinate
    /// would be accepted right now: the live descriptor's tick still
    /// matches.
    pub fn result_is_current(&self, pos: Vec2i, started_tick: u64) -> (r: bool)
        requires
            self.wf(),
        ensures
            r == (self.todo_has(pos) && self.todo_at(pos).started_tick == started_tick),
    {
        match self.find_todo_idx(pos) {
            Some(i) => {
                proof {
                    self.lemma_todo_index_is(pos, i as int);
                }
                self.mesh_todo[i].started_tick == started_tick
            },
            None => false,
        }
    }

    /// Commit an uploaded worker result: if — and only if — the result's
    /// tick still matches the live descriptor of its coordinate, a
    /// resident entry with the given GPU handles and vertical bounds is
    /// created or replaced, not yet visible. A stale result (superseded
    /// descriptor, or none at all) changes nothing: the resident table is
    /// untouched.
    pub fn commit_result(
        &mut self,
        pos: Vec2i,
        started_tick: u64,
        z_min: i32,
        z_max: i32,
        model: u64,
        locals: u64,
    ) -> (accepted: bool)
        requires
            old(self).wf(),
        ensures
            final(self).wf(),
            final(self).keys() == old(self).keys(),
            final(self).todo_seq() == old(self).todo_seq(),
            accepted == (old(self).todo_has(pos) && old(self).todo_at(pos).started_tick
                == started_tick),
            !accepted ==> final(self).chunks_seq() == old(self).chunks_seq(),
            accepted ==> final(self).resident(pos) && final(self).chunk_at(pos) == (TerrainChunk {
                pos,
                model,
                locals,
                visible: false,
                z_min,
                z_max,
            }),
            forall|q: Vec2i|
                q != pos ==> final(self).resident(q) == old(self).resident(q) && (old(
                    self,
                ).resident(q) ==> final(self).chunk_at(q) == old(self).chunk_at(q)),
    {
        let current = self.result_is_current(pos, started_tick);
        if !current {
            return false;
        }
        proof {
            let i = old(self).todo_index(pos);
            old(self).lemma_todo_index_is(pos, i);
            assert(coord2_in(pos, 1));
        }
        let row = TerrainChunk { pos, model, locals, visible: false, z_min, z_max };
        match self.find_chunk_idx(pos) {
            Some(i) => {
                proof {
                    old(self).lemma_chunk_index_is(pos, i as int);
                }
                self.chunks.set(i, row);
                proof {
                    Self::lemma_wf_after_chunk_update(*old(self), *self, i as int, row);
                    self.lemma_chunk_index_is(pos, i as int);
                    assert forall|q: Vec2i| q != pos implies self.resident(q) == old(self).resident(
                        q,
                    ) && (old(self).resident(q) ==> self.chunk_at(q) == old(self).chunk_at(q)) by {
                        if old(self).resident(q) {
                            let j = old(self).chunk_index(q);
                            old(self).lemma_chunk_index_is(q, j);
                            assert(self.chunks_seq()[j].pos == q);
                            self.lemma_chunk_index_is(q, j);
                        }
                        if self.resident(q) {
                            let j = self.chunk_index(q);
                            assert(old(self).chunks_seq()[j].pos == q);
                        }
                    }
                }
            },
            None => {
                let ghost n = self.chunks@.len();
                self.chunks.push(row);
                proof {
                    Self::lemma_wf_after_chunk_push(*old(self), *self, row);
                    self.lemma_chunk_index_is(pos, n as int);
                    assert forall|q: Vec2i| q != pos implies self.resident(q) == old(self).resident(
                        q,
                    ) && (old(self).resident(q) ==> self.chunk_at(q) == old(self).chunk_at(q)) by {
                        if old(self).resident(q) {
                            let j = old(self).chunk_index(q);
                            old(self).lemma_chunk_index_is(q, j);
                            assert(self.chunks_seq()[j].pos == q);
                            self.lemma_chunk_index_is(q, j);
                        }
                        if self.resident(q) {
                            let j = self.chunk_index(q);
                            assert(0 <= j < n);
                            assert(old(self).chunks_seq()[j].pos == q);
                        }
                    }
                }
            },
        }
        true
    }

    /// Distance culling for one chunk footprint.
    fn in_range_exec(focus_x: i64, focus_y: i64, loaded_distance: i64, p: Vec2i) -> (r: bool)
        requires
            coord2_in(p, 1),
            -MAX_FOCUS <= focus_x <= MAX_FOCUS,
            -MAX_FOCUS <= focus_y <= MAX_FOCUS,
            0 <= loaded_distance <= MAX_FOCUS,
        ensures
            r == spec_in_range(focus_x as int, focus_y as int, loaded_distance as int, p),
    {
        let cx = (p.x as i64) * 32;
        let cy = (p.y as i64) * 32;
        let nx = if focus_x < cx {
            cx
        } else if focus_x > cx + 32 {
            cx + 32
        } else {
            focus_x
        };
        let ny = if focus_y < cy {
            cy
        } else if focus_y > cy + 32 {
            cy + 32
        } else {
            focus_y
        };
        let dx = (focus_x - nx) as i128;
        let dy = (focus_y - ny) as i128;
        let ld = loaded_distance as i128;
        proof {
            lemma_mul_bound(dx as int, dx as int, 0x200_0000_0000, 0x200_0000_0000);
            lemma_mul_bound(dy as int, dy as int, 0x200_0000_0000, 0x200_0000_0000);
            lemma_mul_bound(ld as int, ld as int, 0x100_0000_0000, 0x100_0000_0000);
        }
        dx * dx + dy * dy < ld * ld
    }

    /// Sphere-against-plane test for one resident entry.
    fn plane_pass_exec(pl: &Plane, c: &TerrainChunk) -> (r: bool)
        requires
            plane_ok(*pl),
            coord2_in(c.pos, 1),
        ensures
            r == spec_plane_pass(*pl, *c),
    {
        let mx = ((c.pos.x as i64) * 32 + 16) as i128;
        let my = ((c.pos.y as i64) * 32 + 16) as i128;
        let mz2 = (c.z_min as i64 + c.z_max as i64) as i128;
        let span = c.z_max as i64 - c.z_min as i64;
        let m: i128 = if span > 16 {
            span as i128
        } else {
            16
        };
        proof {
            lemma_mul_bound(pl.a as int, mx as int, MAX_PLANE_NORMAL as int, 0x8000_0000);
            lemma_mul_bound(pl.b as int, my as int, MAX_PLANE_NORMAL as int, 0x8000_0000);
            lemma_mul_bound(pl.c as int, mz2 as int, MAX_PLANE_NORMAL as int, 0x2_0000_0000);
        }
        let t2 = 2 * ((pl.a as i128) * mx + (pl.b as i128) * my + (pl.d as i128)) + (pl.c as i128)
            * mz2;
        if t2 >= 0 {
            true
        } else {
            proof {
                assert(-0x8000_0000_0000_0000 <= t2 <= 0x8000_0000_0000_0000);
                lemma_mul_bound(t2 as int, t2 as int, 0x8000_0000_0000_0000, 0x8000_0000_0000_0000);
                lemma_mul_bound(m as int, m as int, 0x2_0000_0000, 0x2_0000_0000);
            }
            let msq = m * m;
            let ssq = (PLANE_SCALE as i128) * (PLANE_SCALE as i128);
            proof {
                lemma_mul_bound(8 * (msq as int), ssq as int, 0x200_0000_0000_0000_000, 0x1_0000_0000);
            }
            let rhs = (8 * msq) * ssq;
            proof {
                assert((8 * (msq as int)) * (ssq as int) == 8 * (m as int) * (m as int) * (
                PLANE_SCALE as int) * (PLANE_SCALE as int)) by (nonlinear_arith)
                    requires
                        msq == (m as int) * (m as int),
                        ssq == (PLANE_SCALE as int) * (PLANE_SCALE as int),
                ;
            }
            t2 * t2 <= rhs
        }
    }

    /// Frustum culling for one resident entry.
    fn in_frustum_exec(planes: &Vec<Plane>, c: &TerrainChunk) -> (r: bool)
        requires
            coord2_in(c.pos, 1),
            forall|i: int| 0 <= i < planes@.len() ==> plane_ok(#[trigger] planes@[i]),
        ensures
            r == spec_in_frustum(planes@, *c),
    {
        let n = planes.len();
        let mut i: usize = 0;
        while i < n
            invariant
                n == planes@.len(),
                i <= n,
                coord2_in(c.pos, 1),
                forall|j: int| 0 <= j < planes@.len() ==> plane_ok(#[trigger] planes@[j]),
                forall|j: int| 0 <= j < i ==> spec_plane_pass(#[trigger] planes@[j], *c),
            decreases n - i,
        {
            if !Self::plane_pass_exec(&planes[i], c) {
                return false;
            }
            i = i + 1;
        }
        true
    }

    /// Recompute the visibility of every resident entry from the focus
    /// position, the load radius and the view frustum planes: an entry is
    /// visible exactly when its footprint lies within the load radius of
    /// the focus and its bounding sphere intersects the frustum. Nothing
    /// else of any entry changes.
    pub fn update_visibility(
        &mut self,
        focus_x: i64,
        focus_y: i64,
        loaded_distance: i64,
        planes: &Vec<Plane>,
    )
        requires
            old(self).wf(),
            -MAX_FOCUS <= focus_x <= MAX_FOCUS,
            -MAX_FOCUS <= focus_y <= MAX_FOCUS,
            0 <= loaded_distance <= MAX_FOCUS,
            forall|i: int| 0 <= i < planes@.len() ==> plane_ok(#[trigger] planes@[i]),
        ensures
            final(self).wf(),
            final(self).keys() == old(self).keys(),
            final(self).todo_seq() == old(self).todo_seq(),
            final(self).chunks_seq().len() == old(self).chunks_seq().len(),
            forall|i: int|
                0 <= i < old(self).chunks_seq().len() ==> #[trigger] final(self).chunks_seq()[i]
                    == (TerrainChunk {
                    visible: spec_visible(
                        focus_x as int,
                        focus_y as int,
                        loaded_distance as int,
                        planes@,
                        old(self).chunks_seq()[i],
                    ),
                    ..old(self).chunks_seq()[i]
                }),
            forall|i: int|
                0 <= i < final(self).chunks_seq().len() && #[trigger] final(self).chunks_seq()[i].visible
                    ==> spec_in_range(
                    focus_x as int,
                    focus_y as int,
                    loaded_distance as int,
                    final(self).chunks_seq()[i].pos,
                ) && spec_in_frustum(planes@, final(self).chunks_seq()[i]),
    {
        let n = self.chunks.len();
        let mut i: usize = 0;
        while i < n
            invariant
                self.wf(),
                n == self.chunks_seq().len(),
                i <= n,
                -MAX_FOCUS <= focus_x <= MAX_FOCUS,
                -MAX_FOCUS <= focus_y <= MAX_FOCUS,
                0 <= loaded_distance <= MAX_FOCUS,
                forall|j: int| 0 <= j < planes@.len() ==> plane_ok(#[trigger] planes@[j]),
                self.keys() == old(self).keys(),
                self.todo_seq() == old(self).todo_seq(),
                self.chunks_seq().len() == old(self).chunks_seq().len(),
                forall|j: int|
                    i <= j < n ==> #[trigger] self.chunks_seq()[j] == old(self).chunks_seq()[j],
                forall|j: int|
                    0 <= j < i ==> #[trigger] self.chunks_seq()[j] == (TerrainChunk {
                        visible: spec_visible(
                            focus_x as int,
                            focus_y as int,
                            loaded_distance as int,
                            planes@,
                            old(self).chunks_seq()[j],
                        ),
                        ..old(self).chunks_seq()[j]
                    }),
            decreases n - i,
        {
            let entry = self.chunks[i];
            let in_range = Self::in_range_exec(focus_x, focus_y, loaded_distance, entry.pos);
            let in_frustum = Self::in_frustum_exec(planes, &entry);
            let updated = TerrainChunk { visible: in_range && in_frustum, ..entry };
            let ghost pre = *self;
            self.chunks.set(i, updated);
            proof {
                Self::lemma_wf_after_chunk_update(pre, *self, i as int, updated);
            }
            i = i + 1;
        }
    }

    /// The draw calls of one render pass: the model and constants handles
    /// of every visible resident entry, in table order.
    pub open spec fn draw_calls(s: Seq<TerrainChunk>) -> Seq<(u64, u64)>
        decreases s.len(),
    {
        if s.len() == 0 {
            Seq::empty()
        } else {
            Self::draw_calls(s.drop_last()) + (if s.last().visible {
                seq![(s.last().model, s.last().locals)]
            } else {
                Seq::empty()
            })
        }
    }

    /// List the GPU handles to draw this frame: one draw per visible
    /// resident entry.
    pub fn draw_list(&self) -> (r: Vec<(u64, u64)>)
        ensures
            r@ == Self::draw_calls(self.chunks_seq()),
    {
        let mut r: Vec<(u64, u64)> = Vec::new();
        let n = self.chunks.len();
        let mut i: usize = 0;
        while i < n
            invariant
                n == self.chunks_seq().len(),
                i <= n,
                r@ == Self::draw_calls(self.chunks_seq().take(i as int)),
            decreases n - i,
        {
            let ghost prefix = self.chunks_seq().take(i as int);
            if self.chunks[i].visible {
                r.push((self.chunks[i].model, self.chunks[i].locals));
            }
            proof {
                let next = self.chunks_seq().take(i + 1);
                assert(next.drop_last() =~= prefix);
                assert(next.last() == self.chunks_seq()[i as int]);
                if self.chunks_seq()[i as int].visible {
                    assert(r@ =~= Self::draw_calls(prefix) + seq![
                        (self.chunks_seq()[i as int].model, self.chunks_seq()[i as int].locals),
                    ]);
                }
            }
            i = i + 1;
        }
        proof {
            assert(self.chunks_seq().take(n as int) =~= self.chunks_seq());
        }
        r
    }
}

} // verus!
