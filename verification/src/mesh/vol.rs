//! Chunk mesh generation: a pure, deterministic transform from a bordered
//! voxel sample to a renderable surface mesh, with per-face culling and
//! per-vertex ambient occlusion.
//!
//! For every solid voxel of the target region and each of the 6 axis
//! directions, a quad is emitted if and only if the neighbouring cell in
//! that direction is empty — or missing from the sample, under the
//! configurable "treat missing as face" policy. Each emitted quad's four
//! corners get an occlusion level from the two edge-adjacent neighbour
//! cells and the diagonal corner cell, and the voxel colour is blended
//! towards an ambient-darkened base by a perceptually corrected weight.
//!
//! Occlusion levels are 0 (both edge neighbours solid, darkest), 1 (one
//! edge neighbour or only the diagonal solid) and 2 (all three empty, full
//! brightness), standing for the weights 0, 1/2 and 1. The blend weight is
//! the occlusion weight raised to the power 3/2, carried in thousand-
//! twenty-fourths: 0, 362 (≈ (1/2)^(3/2) · 1024) and 1024.

use crate::math::{spec_vadd3, vadd3, Aabb, Vec3i};
use crate::mesh::{Mesh, Quad, Vertex};
use crate::volume::{Rgb8, VolSample, MAX_VOXEL_COORD};
use vstd::prelude::*;

verus! {

/// Ambient-occlusion level of one quad corner from its three sampled
/// cells: the two edge-adjacent neighbours and the diagonal corner.
pub open spec fn ao_level(s1: bool, s2: bool, corner: bool) -> u8 {
    if s1 && s2 {
        0
    } else if s1 || s2 || corner {
        1
    } else {
        2
    }
}

/// Blend weight of an occlusion level, in 1024ths: the level's weight
/// (0, 1/2, 1) raised to the power 3/2.
pub open spec fn ao_weight_1024(level: u8) -> int {
    if level == 0 {
        0
    } else if level == 1 {
        362
    } else {
        1024
    }
}

/// One colour channel blended between its ambient-darkened base (5% of the
/// channel) and its full value, by the occlusion blend weight.
pub open spec fn spec_blend_channel(c: u8, level: u8) -> u8 {
    let dark = c as int / 20;
    (dark + (c as int - dark) * ao_weight_1024(level) / 1024) as u8
}

/// A colour blended channelwise by the occlusion blend weight.
pub open spec fn spec_blend(col: Rgb8, level: u8) -> Rgb8 {
    Rgb8 {
        r: spec_blend_channel(col.r, level),
        g: spec_blend_channel(col.g, level),
        b: spec_blend_channel(col.b, level),
    }
}

/// The ambient-occlusion values of one quad's four corners, in fan order.
#[derive(Clone, Copy, Debug, PartialEq, Eq, Structural)]
pub struct AoQuad {
    pub c0: u8,
    pub c1: u8,
    pub c2: u8,
    pub c3: u8,
}

/// Occlusion of the corner between the two given unit offsets from `pos`.
pub open spec fn spec_ao_corner(vol: VolSample, pos: Vec3i, o1: Vec3i, o2: Vec3i) -> u8 {
    ao_level(
        vol.solid_at(spec_vadd3(pos, o1)),
        vol.solid_at(spec_vadd3(pos, o2)),
        vol.solid_at(spec_vadd3(spec_vadd3(pos, o1), o2)),
    )
}

/// Occlusion of a quad's four corners: a sliding window of size 2 over the
/// five compass offsets yields each corner's adjacent cell pair.
pub open spec fn spec_ao_quad(
    vol: VolSample,
    pos: Vec3i,
    d0: Vec3i,
    d1: Vec3i,
    d2: Vec3i,
    d3: Vec3i,
    d4: Vec3i,
) -> AoQuad {
    AoQuad {
        c0: spec_ao_corner(vol, pos, d0, d1),
        c1: spec_ao_corner(vol, pos, d1, d2),
        c2: spec_ao_corner(vol, pos, d2, d3),
        c3: spec_ao_corner(vol, pos, d3, d4),
    }
}

/// Occlusion can only deepen as sampled neighbour cells turn solid: with
/// no solid neighbour the corner keeps full brightness (level 2, weight 1),
/// and with both edge neighbours solid it is darkest (level 0, weight 0).
pub proof fn lemma_ao_monotone(
    s1a: bool,
    s2a: bool,
    ca: bool,
    s1b: bool,
    s2b: bool,
    cb: bool,
)
    requires
        s1a ==> s1b,
        s2a ==> s2b,
        ca ==> cb,
    ensures
        ao_level(s1b, s2b, cb) <= ao_level(s1a, s2a, ca),
        ao_level(false, false, false) == 2,
        s1b && s2b ==> ao_level(s1b, s2b, cb) == 0,
{
}

/// The blend weight is monotone in the occlusion level.
pub proof fn lemma_ao_weight_monotone(la: u8, lb: u8)
    requires
        la <= lb,
    ensures
        ao_weight_1024(la) <= ao_weight_1024(lb),
{
}

/// Whether the given coordinate lies within the model's coordinate range,
/// widened by `slack` on each side.
pub open spec fn coord_in(p: Vec3i, slack: int) -> bool {
    &&& -(MAX_VOXEL_COORD as int) - slack <= p.x <= MAX_VOXEL_COORD as int + slack
    &&& -(MAX_VOXEL_COORD as int) - slack <= p.y <= MAX_VOXEL_COORD as int + slack
    &&& -(MAX_VOXEL_COORD as int) - slack <= p.z <= MAX_VOXEL_COORD as int + slack
}

/// Whether every component of the offset is -1, 0 or 1.
pub open spec fn unit_box(o: Vec3i) -> bool {
    &&& -1 <= o.x <= 1
    &&& -1 <= o.y <= 1
    &&& -1 <= o.z <= 1
}

/// Whether the sample at the position is solid; positions outside the
/// sample are not.
fn solid(vol: &VolSample, p: Vec3i) -> (r: bool)
    requires
        vol.wf(),
    ensures
        r == vol.solid_at(p),
{
    match vol.get(p) {
        Some(v) => !v.empty,
        None => false,
    }
}

fn ao_corner(vol: &VolSample, pos: Vec3i, o1: Vec3i, o2: Vec3i) -> (r: u8)
    requires
        vol.wf(),
        coord_in(pos, 1),
        unit_box(o1),
        unit_box(o2),
    ensures
        r == spec_ao_corner(*vol, pos, o1, o2),
{
    let s1 = solid(vol, vadd3(pos, o1));
    let s2 = solid(vol, vadd3(pos, o2));
    if s1 && s2 {
        0
    } else {
        let corner = solid(vol, vadd3(vadd3(pos, o1), o2));
        if s1 || s2 || corner {
            1
        } else {
            2
        }
    }
}

/// Given the sample, a face's neighbour cell position and the five compass
/// offsets whose sliding window of size 2 yields each corner's adjacent
/// cell pair, compute the quad's four ambient-occlusion levels.
pub fn get_ao_quad(vol: &VolSample, pos: Vec3i, dirs: &[Vec3i; 5]) -> (ao: AoQuad)
    requires
        vol.wf(),
        coord_in(pos, 1),
        forall|i: int| 0 <= i < 5 ==> unit_box(dirs@[i]),
    ensures
        ao == spec_ao_quad(*vol, pos, dirs@[0], dirs@[1], dirs@[2], dirs@[3], dirs@[4]),
{
    let c0 = ao_corner(vol, pos, dirs[0], dirs[1]);
    let c1 = ao_corner(vol, pos, dirs[1], dirs[2]);
    let c2 = ao_corner(vol, pos, dirs[2], dirs[3]);
    let c3 = ao_corner(vol, pos, dirs[3], dirs[4]);
    AoQuad { c0, c1, c2, c3 }
}

fn blend_channel(c: u8, level: u8) -> (r: u8)
    ensures
        r == spec_blend_channel(c, level),
{
    let c32 = c as u32;
    let dark = c32 / 20;
    let w: u32 = if level == 0 {
        0
    } else if level == 1 {
        362
    } else {
        1024
    };
    let scaled = (c32 - dark) * w;
    proof {
        assert((c32 - dark) * w / 1024 <= (c32 - dark)) by (nonlinear_arith)
            requires
                0 <= w <= 1024,
                c32 - dark >= 0,
        ;
    }
    (dark + scaled / 1024) as u8
}

fn blend(col: Rgb8, level: u8) -> (r: Rgb8)
    ensures
        r == spec_blend(col, level),
{
    Rgb8 {
        r: blend_channel(col.r, level),
        g: blend_channel(col.g, level),
        b: blend_channel(col.b, level),
    }
}

/// The smaller of two occlusion levels.
pub open spec fn min2(a: u8, b: u8) -> u8 {
    if a < b {
        a
    } else {
        b
    }
}

/// The quad spanned by `origin`, `unit_x` and `unit_y`, facing `norm`,
/// with each corner's colour blended by its occlusion level. The quad is
/// split along whichever diagonal connects the two corners with the lower
/// combined occlusion, so its vertex fan starts at corner 3 when corners 0
/// and 2 are the more occluded pair.
pub open spec fn spec_create_quad(
    origin: Vec3i,
    unit_x: Vec3i,
    unit_y: Vec3i,
    norm: Vec3i,
    col: Rgb8,
    ao: AoQuad,
) -> Quad {
    let v0 = Vertex { pos: origin, norm, col: spec_blend(col, ao.c0) };
    let v1 = Vertex { pos: spec_vadd3(origin, unit_x), norm, col: spec_blend(col, ao.c1) };
    let v2 = Vertex {
        pos: spec_vadd3(spec_vadd3(origin, unit_x), unit_y),
        norm,
        col: spec_blend(col, ao.c2),
    };
    let v3 = Vertex { pos: spec_vadd3(origin, unit_y), norm, col: spec_blend(col, ao.c3) };
    if min2(ao.c0, ao.c2) < min2(ao.c1, ao.c3) {
        Quad { a: v3, b: v0, c: v1, d: v2 }
    } else {
        Quad { a: v0, b: v1, c: v2, d: v3 }
    }
}

/// Build one face quad from its frame, colour and corner occlusion.
pub fn create_quad(
    origin: Vec3i,
    unit_x: Vec3i,
    unit_y: Vec3i,
    norm: Vec3i,
    col: Rgb8,
    ao: AoQuad,
) -> (q: Quad)
    requires
        coord_in(origin, 1),
        unit_box(unit_x),
        unit_box(unit_y),
    ensures
        q == spec_create_quad(origin, unit_x, unit_y, norm, col, ao),
{
    let v0 = Vertex { pos: origin, norm, col: blend(col, ao.c0) };
    let v1 = Vertex { pos: vadd3(origin, unit_x), norm, col: blend(col, ao.c1) };
    let v2 = Vertex { pos: vadd3(vadd3(origin, unit_x), unit_y), norm, col: blend(col, ao.c2) };
    let v3 = Vertex { pos: vadd3(origin, unit_y), norm, col: blend(col, ao.c3) };
    let m02 = if ao.c0 < ao.c2 {
        ao.c0
    } else {
        ao.c2
    };
    let m13 = if ao.c1 < ao.c3 {
        ao.c1
    } else {
        ao.c3
    };
    if m02 < m13 {
        Quad::new(v3, v0, v1, v2)
    } else {
        Quad::new(v0, v1, v2, v3)
    }
}

/// Whether a face pointing into the given neighbour cell is emitted: the
/// cell is empty, or missing from the sample under the "treat missing as
/// face" policy.
pub open spec fn spec_face_visible(vol: VolSample, npos: Vec3i, error_makes_face: bool) -> bool {
    if vol.contains(npos) {
        vol.vox_at(npos).empty
    } else {
        error_makes_face
    }
}

fn face_visible(vol: &VolSample, npos: Vec3i, error_makes_face: bool) -> (r: bool)
    requires
        vol.wf(),
    ensures
        r == spec_face_visible(*vol, npos, error_makes_face),
{
    match vol.get(npos) {
        Some(v) => v.empty,
        None => error_makes_face,
    }
}

pub open spec fn unit_x() -> Vec3i {
    Vec3i { x: 1, y: 0, z: 0 }
}

pub open spec fn unit_y() -> Vec3i {
    Vec3i { x: 0, y: 1, z: 0 }
}

pub open spec fn unit_z() -> Vec3i {
    Vec3i { x: 0, y: 0, z: 1 }
}

pub open spec fn neg_x() -> Vec3i {
    Vec3i { x: -1i32, y: 0, z: 0 }
}

pub open spec fn neg_y() -> Vec3i {
    Vec3i { x: 0, y: -1i32, z: 0 }
}

pub open spec fn neg_z() -> Vec3i {
    Vec3i { x: 0, y: 0, z: -1i32 }
}

/// Outward normal of face direction `d`; directions are numbered
/// -x, +x, -y, +y, -z, +z.
pub open spec fn dir_norm(d: int) -> Vec3i {
    if d == 0 {
        neg_x()
    } else if d == 1 {
        unit_x()
    } else if d == 2 {
        neg_y()
    } else if d == 3 {
        unit_y()
    } else if d == 4 {
        neg_z()
    } else {
        unit_z()
    }
}

/// Quad origin corner for face direction `d`.
pub open spec fn dir_origin(offs: Vec3i, d: int) -> Vec3i {
    if d == 1 {
        spec_vadd3(offs, unit_x())
    } else if d == 3 {
        spec_vadd3(offs, unit_y())
    } else if d == 5 {
        spec_vadd3(offs, unit_z())
    } else {
        offs
    }
}

/// First quad edge for face direction `d`.
pub open spec fn dir_unit_x(d: int) -> Vec3i {
    if d == 0 {
        unit_z()
    } else if d == 1 {
        unit_y()
    } else if d == 2 {
        unit_x()
    } else if d == 3 {
        unit_z()
    } else if d == 4 {
        unit_y()
    } else {
        unit_x()
    }
}

/// Second quad edge for face direction `d`.
pub open spec fn dir_unit_y(d: int) -> Vec3i {
    if d == 0 {
        unit_y()
    } else if d == 1 {
        unit_z()
    } else if d == 2 {
        unit_z()
    } else if d == 3 {
        unit_x()
    } else if d == 4 {
        unit_x()
    } else {
        unit_y()
    }
}

/// The five compass offsets whose size-2 sliding window yields each quad
/// corner's adjacent cell pair, for face direction `d`.
pub open spec fn dir_ao_dirs(d: int) -> (Vec3i, Vec3i, Vec3i, Vec3i, Vec3i) {
    if d == 0 {
        (neg_z(), neg_y(), unit_z(), unit_y(), neg_z())
    } else if d == 1 {
        (neg_y(), neg_z(), unit_y(), unit_z(), neg_y())
    } else if d == 2 {
        (neg_x(), neg_z(), unit_x(), unit_z(), neg_x())
    } else if d == 3 {
        (neg_z(), neg_x(), unit_z(), unit_x(), neg_z())
    } else if d == 4 {
        (neg_y(), neg_x(), unit_y(), unit_x(), neg_y())
    } else {
        (neg_x(), neg_y(), unit_x(), unit_y(), neg_x())
    }
}

/// The quad emitted for the voxel at `pos` in face direction `d`, placed
/// relative to `offs`.
pub open spec fn spec_dir_quad(
    vol: VolSample,
    pos: Vec3i,
    offs: Vec3i,
    col: Rgb8,
    d: int,
) -> Quad {
    let npos = spec_vadd3(pos, dir_norm(d));
    let ds = dir_ao_dirs(d);
    spec_create_quad(
        dir_origin(offs, d),
        dir_unit_x(d),
        dir_unit_y(d),
        dir_norm(d),
        col,
        spec_ao_quad(vol, npos, ds.0, ds.1, ds.2, ds.3, ds.4),
    )
}

/// The quads the voxel at `pos` contributes in face direction `d`: exactly
/// one if the face is visible, none otherwise.
pub open spec fn spec_dir_quads(
    vol: VolSample,
    pos: Vec3i,
    offs: Vec3i,
    col: Rgb8,
    error_makes_face: bool,
    d: int,
) -> Seq<Quad> {
    if spec_face_visible(vol, spec_vadd3(pos, dir_norm(d)), error_makes_face) {
        seq![spec_dir_quad(vol, pos, offs, col, d)]
    } else {
        Seq::empty()
    }
}

/// The quads the voxel at `pos` contributes for the first `n` face
/// directions, in direction order.
pub open spec fn spec_face_quads_upto(
    vol: VolSample,
    pos: Vec3i,
    offs: Vec3i,
    col: Rgb8,
    error_makes_face: bool,
    n: int,
) -> Seq<Quad>
    decreases n,
{
    if n <= 0 {
        Seq::empty()
    } else {
        spec_face_quads_upto(vol, pos, offs, col, error_makes_face, n - 1) + spec_dir_quads(
            vol,
            pos,
            offs,
            col,
            error_makes_face,
            n - 1,
        )
    }
}

/// All quads the voxel at `pos` contributes, over the six face directions.
pub open spec fn spec_face_quads(
    vol: VolSample,
    pos: Vec3i,
    offs: Vec3i,
    col: Rgb8,
    error_makes_face: bool,
) -> Seq<Quad> {
    spec_face_quads_upto(vol, pos, offs, col, error_makes_face, 6)
}

/// Append the -x face quad of the voxel at `pos` if that face is visible.
fn face_neg_x(mesh: &mut Mesh, vol: &VolSample, pos: Vec3i, offs: Vec3i, col: Rgb8, emf: bool)
    requires
        vol.wf(),
        coord_in(pos, 0),
        coord_in(offs, 0),
    ensures
        final(mesh).quads@ == old(mesh).quads@ + spec_dir_quads(*vol, pos, offs, col, emf, 0),
{
    let yv = Vec3i::new(0, 1, 0);
    let zv = Vec3i::new(0, 0, 1);
    let mxv = Vec3i::new(-1, 0, 0);
    let myv = Vec3i::new(0, -1, 0);
    let mzv = Vec3i::new(0, 0, -1);
    let npos = vadd3(pos, mxv);
    if face_visible(vol, npos, emf) {
        let ao = get_ao_quad(vol, npos, &[mzv, myv, zv, yv, mzv]);
        mesh.push_quad(create_quad(offs, zv, yv, mxv, col, ao));
        assert(mesh.quads@ =~= old(mesh).quads@ + spec_dir_quads(*vol, pos, offs, col, emf, 0));
    } else {
        assert(mesh.quads@ =~= old(mesh).quads@ + spec_dir_quads(*vol, pos, offs, col, emf, 0));
    }
}

/// Append the +x face quad of the voxel at `pos` if that face is visible.
fn face_pos_x(mesh: &mut Mesh, vol: &VolSample, pos: Vec3i, offs: Vec3i, col: Rgb8, emf: bool)
    requires
        vol.wf(),
        coord_in(pos, 0),
        coord_in(offs, 0),
    ensures
        final(mesh).quads@ == old(mesh).quads@ + spec_dir_quads(*vol, pos, offs, col, emf, 1),
{
    let xv = Vec3i::new(1, 0, 0);
    let yv = Vec3i::new(0, 1, 0);
    let zv = Vec3i::new(0, 0, 1);
    let myv = Vec3i::new(0, -1, 0);
    let mzv = Vec3i::new(0, 0, -1);
    let npos = vadd3(pos, xv);
    if face_visible(vol, npos, emf) {
        let ao = get_ao_quad(vol, npos, &[myv, mzv, yv, zv, myv]);
        mesh.push_quad(create_quad(vadd3(offs, xv), yv, zv, xv, col, ao));
        assert(mesh.quads@ =~= old(mesh).quads@ + spec_dir_quads(*vol, pos, offs, col, emf, 1));
    } else {
        assert(mesh.quads@ =~= old(mesh).quads@ + spec_dir_quads(*vol, pos, offs, col, emf, 1));
    }
}

/// Append the -y face quad of the voxel at `pos` if that face is visible.
fn face_neg_y(mesh: &mut Mesh, vol: &VolSample, pos: Vec3i, offs: Vec3i, col: Rgb8, emf: bool)
    requires
        vol.wf(),
        coord_in(pos, 0),
        coord_in(offs, 0),
    ensures
        final(mesh).quads@ == old(mesh).quads@ + spec_dir_quads(*vol, pos, offs, col, emf, 2),
{
    let xv = Vec3i::new(1, 0, 0);
    let zv = Vec3i::new(0, 0, 1);
    let mxv = Vec3i::new(-1, 0, 0);
    let myv = Vec3i::new(0, -1, 0);
    let mzv = Vec3i::new(0, 0, -1);
    let npos = vadd3(pos, myv);
    if face_visible(vol, npos, emf) {
        let ao = get_ao_quad(vol, npos, &[mxv, mzv, xv, zv, mxv]);
        mesh.push_quad(create_quad(offs, xv, zv, myv, col, ao));
        assert(mesh.quads@ =~= old(mesh).quads@ + spec_dir_quads(*vol, pos, offs, col, emf, 2));
    } else {
        assert(mesh.quads@ =~= old(mesh).quads@ + spec_dir_quads(*vol, pos, offs, col, emf, 2));
    }
}

/// Append the +y face quad of the voxel at `pos` if that face is visible.
fn face_pos_y(mesh: &mut Mesh, vol: &VolSample, pos: Vec3i, offs: Vec3i, col: Rgb8, emf: bool)
    requires
        vol.wf(),
        coord_in(pos, 0),
        coord_in(offs, 0),
    ensures
        final(mesh).quads@ == old(mesh).quads@ + spec_dir_quads(*vol, pos, offs, col, emf, 3),
{
    let xv = Vec3i::new(1, 0, 0);
    let yv = Vec3i::new(0, 1, 0);
    let zv = Vec3i::new(0, 0, 1);
    let mxv = Vec3i::new(-1, 0, 0);
    let mzv = Vec3i::new(0, 0, -1);
    let npos = vadd3(pos, yv);
    if face_visible(vol, npos, emf) {
        let ao = get_ao_quad(vol, npos, &[mzv, mxv, zv, xv, mzv]);
        mesh.push_quad(create_quad(vadd3(offs, yv), zv, xv, yv, col, ao));
        assert(mesh.quads@ =~= old(mesh).quads@ + spec_dir_quads(*vol, pos, offs, col, emf, 3));
    } else {
        assert(mesh.quads@ =~= old(mesh).quads@ + spec_dir_quads(*vol, pos, offs, col, emf, 3));
    }
}

/// Append the -z face quad of the voxel at `pos` if that face is visible.
fn face_neg_z(mesh: &mut Mesh, vol: &VolSample, pos: Vec3i, offs: Vec3i, col: Rgb8, emf: bool)
    requires
        vol.wf(),
        coord_in(pos, 0),
        coord_in(offs, 0),
    ensures
        final(mesh).quads@ == old(mesh).quads@ + spec_dir_quads(*vol, pos, offs, col, emf, 4),
{
    let xv = Vec3i::new(1, 0, 0);
    let yv = Vec3i::new(0, 1, 0);
    let mxv = Vec3i::new(-1, 0, 0);
    let myv = Vec3i::new(0, -1, 0);
    let mzv = Vec3i::new(0, 0, -1);
    let npos = vadd3(pos, mzv);
    if face_visible(vol, npos, emf) {
        let ao = get_ao_quad(vol, npos, &[myv, mxv, yv, xv, myv]);
        mesh.push_quad(create_quad(offs, yv, xv, mzv, col, ao));
        assert(mesh.quads@ =~= old(mesh).quads@ + spec_dir_quads(*vol, pos, offs, col, emf, 4));
    } else {
        assert(mesh.quads@ =~= old(mesh).quads@ + spec_dir_quads(*vol, pos, offs, col, emf, 4));
    }
}

/// Append the +z face quad of the voxel at `pos` if that face is visible.
fn face_pos_z(mesh: &mut Mesh, vol: &VolSample, pos: Vec3i, offs: Vec3i, col: Rgb8, emf: bool)
    requires
        vol.wf(),
        coord_in(pos, 0),
        coord_in(offs, 0),
    ensures
        final(mesh).quads@ == old(mesh).quads@ + spec_dir_quads(*vol, pos, offs, col, emf, 5),
{
    let xv = Vec3i::new(1, 0, 0);
    let yv = Vec3i::new(0, 1, 0);
    let zv = Vec3i::new(0, 0, 1);
    let mxv = Vec3i::new(-1, 0, 0);
    let myv = Vec3i::new(0, -1, 0);
    let npos = vadd3(pos, zv);
    if face_visible(vol, npos, emf) {
        let ao = get_ao_quad(vol, npos, &[mxv, myv, xv, yv, mxv]);
        mesh.push_quad(create_quad(vadd3(offs, zv), xv, yv, zv, col, ao));
        assert(mesh.quads@ =~= old(mesh).quads@ + spec_dir_quads(*vol, pos, offs, col, emf, 5));
    } else {
        assert(mesh.quads@ =~= old(mesh).quads@ + spec_dir_quads(*vol, pos, offs, col, emf, 5));
    }
}

proof fn lemma_add_assoc<T>(a: Seq<T>, b: Seq<T>, c: Seq<T>)
    ensures
        (a + b) + c == a + (b + c),
{
    assert((a + b) + c =~= a + (b + c));
}

proof fn lemma_add_empty_left<T>(a: Seq<T>)
    ensures
        Seq::<T>::empty() + a == a,
{
    assert(Seq::<T>::empty() + a =~= a);
}

/// Append the face quads of the solid voxel at `pos` to the mesh: for each
/// of the six axis directions, a quad facing that way if and only if the
/// neighbouring cell is empty, or missing under the "treat missing as
/// face" policy. Quad positions are placed relative to `offs`, the voxel's
/// position in mesh space.
pub fn push_vox_verts(
    mesh: &mut Mesh,
    vol: &VolSample,
    pos: Vec3i,
    offs: Vec3i,
    col: Rgb8,
    error_makes_face: bool,
)
    requires
        vol.wf(),
        coord_in(pos, 0),
        coord_in(offs, 0),
    ensures
        final(mesh).quads@ == old(mesh).quads@ + spec_face_quads(
            *vol,
            pos,
            offs,
            col,
            error_makes_face,
        ),
{
    let ghost o = old(mesh).quads@;
    let ghost d0 = spec_dir_quads(*vol, pos, offs, col, error_makes_face, 0);
    let ghost d1 = spec_dir_quads(*vol, pos, offs, col, error_makes_face, 1);
    let ghost d2 = spec_dir_quads(*vol, pos, offs, col, error_makes_face, 2);
    let ghost d3 = spec_dir_quads(*vol, pos, offs, col, error_makes_face, 3);
    let ghost d4 = spec_dir_quads(*vol, pos, offs, col, error_makes_face, 4);
    let ghost d5 = spec_dir_quads(*vol, pos, offs, col, error_makes_face, 5);
    let ghost u1 = spec_face_quads_upto(*vol, pos, offs, col, error_makes_face, 1);
    let ghost u2 = spec_face_quads_upto(*vol, pos, offs, col, error_makes_face, 2);
    let ghost u3 = spec_face_quads_upto(*vol, pos, offs, col, error_makes_face, 3);
    let ghost u4 = spec_face_quads_upto(*vol, pos, offs, col, error_makes_face, 4);
    let ghost u5 = spec_face_quads_upto(*vol, pos, offs, col, error_makes_face, 5);
    let ghost u6 = spec_face_quads_upto(*vol, pos, offs, col, error_makes_face, 6);

    face_neg_x(mesh, vol, pos, offs, col, error_makes_face);
    proof {
        lemma_add_empty_left(d0);
        assert(spec_face_quads_upto(*vol, pos, offs, col, error_makes_face, 0) == Seq::<
            Quad,
        >::empty());
        assert(u1 == d0);
        assert(mesh.quads@ == o + u1);
    }
    face_pos_x(mesh, vol, pos, offs, col, error_makes_face);
    proof {
        lemma_add_assoc(o, u1, d1);
        assert(u2 == u1 + d1);
        assert(mesh.quads@ == o + u2);
    }
    face_neg_y(mesh, vol, pos, offs, col, error_makes_face);
    proof {
        lemma_add_assoc(o, u2, d2);
        assert(u3 == u2 + d2);
        assert(mesh.quads@ == o + u3);
    }
    face_pos_y(mesh, vol, pos, offs, col, error_makes_face);
    proof {
        lemma_add_assoc(o, u3, d3);
        assert(u4 == u3 + d3);
        assert(mesh.quads@ == o + u4);
    }
    face_neg_z(mesh, vol, pos, offs, col, error_makes_face);
    proof {
        lemma_add_assoc(o, u4, d4);
        assert(u5 == u4 + d4);
        assert(mesh.quads@ == o + u5);
    }
    face_pos_z(mesh, vol, pos, offs, col, error_makes_face);
    proof {
        lemma_add_assoc(o, u5, d5);
        assert(u6 == u5 + d5);
        assert(mesh.quads@ == o + u6);
    }
}

/// Mesh-space position of a voxel: its offset from the first interior cell
/// of the meshing region.
pub open spec fn cell_offs(range: Aabb, p: Vec3i) -> Vec3i {
    Vec3i {
        x: (p.x - range.min.x - 1) as i32,
        y: (p.y - range.min.y - 1) as i32,
        z: (p.z - range.min.z - 1) as i32,
    }
}

/// The quads one cell of the meshing region contributes: the face quads of
/// its voxel if it is solid, none otherwise.
pub open spec fn cell_quads(
    vol: VolSample,
    range: Aabb,
    error_makes_face: bool,
    p: Vec3i,
) -> Seq<Quad> {
    if vol.solid_at(p) {
        spec_face_quads(vol, p, cell_offs(range, p), vol.vox_at(p).col, error_makes_face)
    } else {
        Seq::empty()
    }
}

/// Number of interior cells along one axis of the meshing region: the
/// region less its one-cell border on each side.
pub open spec fn interior_span(lo: int, hi: int) -> int {
    if hi - lo - 2 > 0 {
        hi - lo - 2
    } else {
        0
    }
}

/// Quads of the first `k` interior cells of the column at (`x`, `y`), in
/// ascending z order.
pub open spec fn col_quads_upto(
    vol: VolSample,
    range: Aabb,
    error_makes_face: bool,
    x: i32,
    y: i32,
    k: int,
) -> Seq<Quad>
    decreases k,
{
    if k <= 0 {
        Seq::empty()
    } else {
        col_quads_upto(vol, range, error_makes_face, x, y, k - 1) + cell_quads(
            vol,
            range,
            error_makes_face,
            Vec3i { x, y, z: (range.min.z + k) as i32 },
        )
    }
}

/// Quads of the first `j` interior columns of the plane at `x`, in
/// ascending y order.
pub open spec fn plane_quads_upto(
    vol: VolSample,
    range: Aabb,
    error_makes_face: bool,
    x: i32,
    j: int,
) -> Seq<Quad>
    decreases j,
{
    if j <= 0 {
        Seq::empty()
    } else {
        plane_quads_upto(vol, range, error_makes_face, x, j - 1) + col_quads_upto(
            vol,
            range,
            error_makes_face,
            x,
            (range.min.y + j) as i32,
            interior_span(range.min.z as int, range.max.z as int),
        )
    }
}

/// Quads of the first `i` interior planes of the region, in ascending x
/// order.
pub open spec fn region_quads_upto(
    vol: VolSample,
    range: Aabb,
    error_makes_face: bool,
    i: int,
) -> Seq<Quad>
    decreases i,
{
    if i <= 0 {
        Seq::empty()
    } else {
        region_quads_upto(vol, range, error_makes_face, i - 1) + plane_quads_upto(
            vol,
            range,
            error_makes_face,
            (range.min.x + i) as i32,
            interior_span(range.min.y as int, range.max.y as int),
        )
    }
}

/// Everything the mesh generator emits for the region: the face quads of
/// every solid interior voxel, in ascending x, y, z order.
pub open spec fn spec_generate_quads(
    vol: VolSample,
    range: Aabb,
    error_makes_face: bool,
) -> Seq<Quad> {
    region_quads_upto(
        vol,
        range,
        error_makes_face,
        interior_span(range.min.x as int, range.max.x as int),
    )
}

/// Whether the meshing region lies within the coordinate range and spans
/// at most the model's coordinate bound along each axis.
pub open spec fn range_ok(range: Aabb) -> bool {
    &&& coord_in(range.min, 0)
    &&& coord_in(range.max, 0)
    &&& range.max.x - range.min.x <= MAX_VOXEL_COORD as int
    &&& range.max.y - range.min.y <= MAX_VOXEL_COORD as int
    &&& range.max.z - range.min.z <= MAX_VOXEL_COORD as int
}

/// Append the contribution of the cell at `p` to the mesh.
fn mesh_cell(mesh: &mut Mesh, vol: &VolSample, range: Aabb, error_makes_face: bool, p: Vec3i)
    requires
        vol.wf(),
        range_ok(range),
        range.min.x < p.x < range.max.x,
        range.min.y < p.y < range.max.y,
        range.min.z < p.z < range.max.z,
    ensures
        final(mesh).quads@ == old(mesh).quads@ + cell_quads(*vol, range, error_makes_face, p),
{
    match vol.get(p) {
        Some(v) => {
            if !v.empty {
                let offs = Vec3i::new(
                    p.x - (range.min.x + 1),
                    p.y - (range.min.y + 1),
                    p.z - (range.min.z + 1),
                );
                push_vox_verts(mesh, vol, p, offs, v.col, error_makes_face);
            } else {
                assert(mesh.quads@ =~= old(mesh).quads@ + cell_quads(
                    *vol,
                    range,
                    error_makes_face,
                    p,
                ));
            }
        },
        None => {
            assert(mesh.quads@ =~= old(mesh).quads@ + cell_quads(
                *vol,
                range,
                error_makes_face,
                p,
            ));
        },
    }
}

/// Generate the renderable mesh of the region: the region covers the
/// target chunk plus a one-cell border on every side, and only the
/// interior (the chunk itself) is meshed, so that face culling and ambient
/// occlusion always see one cell into each neighbour.
pub fn generate_mesh(vol: &VolSample, range: Aabb, error_makes_face: bool) -> (mesh: Mesh)
    requires
        vol.wf(),
        range_ok(range),
    ensures
        mesh.quads@ == spec_generate_quads(*vol, range, error_makes_face),
{
    let ghost zspan = interior_span(range.min.z as int, range.max.z as int);
    let ghost yspan = interior_span(range.min.y as int, range.max.y as int);
    let ghost xspan = interior_span(range.min.x as int, range.max.x as int);
    let mut mesh = Mesh::new();
    let lox = range.min.x + 1;
    let hix = range.max.x - 1;
    let loy = range.min.y + 1;
    let hiy = range.max.y - 1;
    let loz = range.min.z + 1;
    let hiz = range.max.z - 1;
    let mut x = lox;
    while x < hix
        invariant
            vol.wf(),
            range_ok(range),
            lox == range.min.x + 1 && hix == range.max.x - 1,
            loy == range.min.y + 1 && hiy == range.max.y - 1,
            loz == range.min.z + 1 && hiz == range.max.z - 1,
            zspan == interior_span(range.min.z as int, range.max.z as int),
            yspan == interior_span(range.min.y as int, range.max.y as int),
            xspan == interior_span(range.min.x as int, range.max.x as int),
            lox <= x,
            hix > lox ==> x <= hix,
            hix <= lox ==> x == lox,
            mesh.quads@ == region_quads_upto(*vol, range, error_makes_face, x - lox),
        decreases hix - x,
    {
        let mut y = loy;
        while y < hiy
            invariant
                vol.wf(),
                range_ok(range),
                lox == range.min.x + 1 && hix == range.max.x - 1,
                loy == range.min.y + 1 && hiy == range.max.y - 1,
                loz == range.min.z + 1 && hiz == range.max.z - 1,
                zspan == interior_span(range.min.z as int, range.max.z as int),
                yspan == interior_span(range.min.y as int, range.max.y as int),
                lox <= x < hix,
                loy <= y,
                hiy > loy ==> y <= hiy,
                hiy <= loy ==> y == loy,
                mesh.quads@ == region_quads_upto(*vol, range, error_makes_face, x - lox)
                    + plane_quads_upto(*vol, range, error_makes_face, x, y - loy),
            decreases hiy - y,
        {
            let mut z = loz;
            while z < hiz
                invariant
                    vol.wf(),
                    range_ok(range),
                    lox == range.min.x + 1 && hix == range.max.x - 1,
                    loy == range.min.y + 1 && hiy == range.max.y - 1,
                    loz == range.min.z + 1 && hiz == range.max.z - 1,
                    zspan == interior_span(range.min.z as int, range.max.z as int),
                    lox <= x < hix,
                    loy <= y < hiy,
                    loz <= z,
                    hiz > loz ==> z <= hiz,
                    hiz <= loz ==> z == loz,
                    mesh.quads@ == region_quads_upto(*vol, range, error_makes_face, x - lox)
                        + plane_quads_upto(*vol, range, error_makes_face, x, y - loy)
                        + col_quads_upto(*vol, range, error_makes_face, x, y, z - loz),
                decreases hiz - z,
            {
                mesh_cell(&mut mesh, vol, range, error_makes_face, Vec3i::new(x, y, z));
                proof {
                    let k = z - loz + 1;
                    let rp = region_quads_upto(*vol, range, error_makes_face, x - lox)
                        + plane_quads_upto(*vol, range, error_makes_face, x, y - loy);
                    let cq = cell_quads(*vol, range, error_makes_face, Vec3i { x, y, z });
                    lemma_add_assoc(rp, col_quads_upto(*vol, range, error_makes_face, x, y, k - 1), cq);
                    assert(Vec3i { x, y, z: (range.min.z + k) as i32 } == (Vec3i { x, y, z }));
                    assert(col_quads_upto(*vol, range, error_makes_face, x, y, k) == col_quads_upto(
                        *vol,
                        range,
                        error_makes_face,
                        x,
                        y,
                        k - 1,
                    ) + cq);
                    assert(mesh.quads@ == rp + col_quads_upto(*vol, range, error_makes_face, x, y, k));
                }
                z = z + 1;
            }
            proof {
                let j = y - loy + 1;
                assert(z - loz == zspan);
                let rq = region_quads_upto(*vol, range, error_makes_face, x - lox);
                let cf = col_quads_upto(*vol, range, error_makes_face, x, y, zspan);
                lemma_add_assoc(rq, plane_quads_upto(*vol, range, error_makes_face, x, j - 1), cf);
                assert(plane_quads_upto(*vol, range, error_makes_face, x, j) == plane_quads_upto(
                    *vol,
                    range,
                    error_makes_face,
                    x,
                    j - 1,
                ) + col_quads_upto(
                    *vol,
                    range,
                    error_makes_face,
                    x,
                    (range.min.y + j) as i32,
                    zspan,
                ));
                assert((range.min.y + j) as i32 == y);
                assert(mesh.quads@ == rq + plane_quads_upto(*vol, range, error_makes_face, x, j));
            }
            y = y + 1;
        }
        proof {
            let i = x - lox + 1;
            assert(y - loy == yspan);
            assert(region_quads_upto(*vol, range, error_makes_face, i) == region_quads_upto(
                *vol,
                range,
                error_makes_face,
                i - 1,
            ) + plane_quads_upto(*vol, range, error_makes_face, (range.min.x + i) as i32, yspan));
            assert((range.min.x + i) as i32 == x);
            assert(mesh.quads@ == region_quads_upto(*vol, range, error_makes_face, i));
        }
        x = x + 1;
    }
    proof {
        assert(x - lox == xspan);
    }
    mesh
}


/// How many quads of the sequence face the direction with normal `n`.
pub open spec fn norm_count(s: Seq<Quad>, n: Vec3i) -> int
    decreases s.len(),
{
    if s.len() == 0 {
        0
    } else {
        norm_count(s.drop_last(), n) + if s.last().a.norm == n {
            1int
        } else {
            0int
        }
    }
}

proof fn lemma_norm_count_add(s: Seq<Quad>, t: Seq<Quad>, n: Vec3i)
    ensures
        norm_count(s + t, n) == norm_count(s, n) + norm_count(t, n),
    decreases t.len(),
{
    reveal_with_fuel(norm_count, 2);
    if t.len() == 0 {
        assert(s + t =~= s);
    } else {
        lemma_norm_count_add(s, t.drop_last(), n);
        assert((s + t).drop_last() =~= s + t.drop_last());
        assert((s + t).last() == t.last());
    }
}

proof fn lemma_norm_count_singleton(q: Quad, n: Vec3i)
    ensures
        norm_count(seq![q], n) == if q.a.norm == n {
            1int
        } else {
            0int
        },
{
    reveal_with_fuel(norm_count, 2);
    assert(seq![q].drop_last() =~= Seq::empty());
}

/// Face-culling correctness. For a voxel with a solid neighbour in
/// direction `d`, no quad of its contribution faces `d`; for a voxel whose
/// neighbour in direction `d` is empty — or missing, under the "treat
/// missing as face" policy — exactly one quad faces `d`.
pub proof fn lemma_face_culling(
    vol: VolSample,
    pos: Vec3i,
    offs: Vec3i,
    col: Rgb8,
    error_makes_face: bool,
    d: int,
)
    requires
        0 <= d < 6,
    ensures
        vol.solid_at(spec_vadd3(pos, dir_norm(d))) ==> !spec_face_visible(
            vol,
            spec_vadd3(pos, dir_norm(d)),
            error_makes_face,
        ),
        !spec_face_visible(vol, spec_vadd3(pos, dir_norm(d)), error_makes_face) ==> norm_count(
            spec_face_quads(vol, pos, offs, col, error_makes_face),
            dir_norm(d),
        ) == 0,
        spec_face_visible(vol, spec_vadd3(pos, dir_norm(d)), error_makes_face) ==> norm_count(
            spec_face_quads(vol, pos, offs, col, error_makes_face),
            dir_norm(d),
        ) == 1,
{
    let n = dir_norm(d);
    assert forall|k: int| 0 <= k < 6 implies norm_count(
        spec_dir_quads(vol, pos, offs, col, error_makes_face, k),
        n,
    ) == (if k == d && spec_face_visible(vol, spec_vadd3(pos, dir_norm(d)), error_makes_face) {
        1int
    } else {
        0int
    }) by {
        if spec_face_visible(vol, spec_vadd3(pos, dir_norm(k)), error_makes_face) {
            lemma_norm_count_singleton(spec_dir_quad(vol, pos, offs, col, k), n);
            assert(spec_dir_quad(vol, pos, offs, col, k).a.norm == dir_norm(k));
        }
    }
    let e = Seq::<Quad>::empty();
    assert(norm_count(e, n) == 0);
    lemma_norm_count_add(
        spec_face_quads_upto(vol, pos, offs, col, error_makes_face, 0),
        spec_dir_quads(vol, pos, offs, col, error_makes_face, 0),
        n,
    );
    lemma_norm_count_add(
        spec_face_quads_upto(vol, pos, offs, col, error_makes_face, 1),
        spec_dir_quads(vol, pos, offs, col, error_makes_face, 1),
        n,
    );
    lemma_norm_count_add(
        spec_face_quads_upto(vol, pos, offs, col, error_makes_face, 2),
        spec_dir_quads(vol, pos, offs, col, error_makes_face, 2),
        n,
    );
    lemma_norm_count_add(
        spec_face_quads_upto(vol, pos, offs, col, error_makes_face, 3),
        spec_dir_quads(vol, pos, offs, col, error_makes_face, 3),
        n,
    );
    lemma_norm_count_add(
        spec_face_quads_upto(vol, pos, offs, col, error_makes_face, 4),
        spec_dir_quads(vol, pos, offs, col, error_makes_face, 4),
        n,
    );
    lemma_norm_count_add(
        spec_face_quads_upto(vol, pos, offs, col, error_makes_face, 5),
        spec_dir_quads(vol, pos, offs, col, error_makes_face, 5),
        n,
    );
}


} // verus!
