use voxygen::math::{Aabb, Vec3i};
use voxygen::mesh::vol::{create_quad, generate_mesh, get_ao_quad, push_vox_verts, AoQuad};
use voxygen::mesh::Mesh;
use voxygen::volume::{Rgb8, VolSample, Voxel};

fn col(r: u8, g: u8, b: u8) -> Rgb8 {
    Rgb8 { r, g, b }
}

/// A 2x2x2 chunk sampled without any border, one solid voxel in its corner,
/// all in-sample neighbours empty: exactly the 3 faces that look into empty
/// in-sample cells are emitted, each at full brightness, so every vertex
/// keeps the voxel's exact colour.
#[test]
fn corner_voxel_three_full_bright_quads() {
    let mut vol = VolSample::filled(Vec3i::new(0, 0, 0), 2, 2, 2, Voxel::air());
    let c = col(100, 150, 200);
    vol.set(Vec3i::new(0, 0, 0), Voxel::solid(c));

    let range = Aabb { min: Vec3i::new(-1, -1, -1), max: Vec3i::new(3, 3, 3) };
    let mesh = generate_mesh(&vol, range, false);

    assert_eq!(mesh.quads.len(), 3);
    assert_eq!(mesh.quads[0].a.norm, Vec3i::new(1, 0, 0));
    assert_eq!(mesh.quads[1].a.norm, Vec3i::new(0, 1, 0));
    assert_eq!(mesh.quads[2].a.norm, Vec3i::new(0, 0, 1));
    for q in [&mesh.quads[0], &mesh.quads[1], &mesh.quads[2]] {
        for v in [&q.a, &q.b, &q.c, &q.d] {
            assert_eq!(v.col, c);
        }
    }
}

/// With the full one-voxel border present and empty, all six faces of a
/// lone solid voxel are emitted.
#[test]
fn lone_voxel_six_quads_with_border() {
    let mut vol = VolSample::filled(Vec3i::new(-1, -1, -1), 3, 3, 3, Voxel::air());
    vol.set(Vec3i::new(0, 0, 0), Voxel::solid(col(10, 20, 30)));

    let range = Aabb { min: Vec3i::new(-1, -1, -1), max: Vec3i::new(2, 2, 2) };
    let mesh = generate_mesh(&vol, range, false);
    assert_eq!(mesh.quads.len(), 6);
}

/// A solid neighbour in one direction culls exactly that face.
#[test]
fn solid_neighbour_culls_face() {
    let mut vol = VolSample::filled(Vec3i::new(-1, -1, -1), 4, 3, 3, Voxel::air());
    vol.set(Vec3i::new(0, 0, 0), Voxel::solid(col(1, 2, 3)));
    vol.set(Vec3i::new(1, 0, 0), Voxel::solid(col(4, 5, 6)));

    let mut mesh = Mesh::new();
    push_vox_verts(
        &mut mesh,
        &vol,
        Vec3i::new(0, 0, 0),
        Vec3i::new(0, 0, 0),
        col(1, 2, 3),
        false,
    );
    // 6 directions, +x culled by the solid neighbour.
    assert_eq!(mesh.quads.len(), 5);
    for q in &mesh.quads {
        assert_ne!(q.a.norm, Vec3i::new(1, 0, 0));
    }
}

/// Under the "treat missing as face" policy a face against a cell outside
/// the sample is still emitted.
#[test]
fn missing_neighbour_policy_emits_face() {
    let mut vol = VolSample::filled(Vec3i::new(0, 0, 0), 1, 1, 1, Voxel::air());
    vol.set(Vec3i::new(0, 0, 0), Voxel::solid(col(9, 9, 9)));

    let mut culled = Mesh::new();
    push_vox_verts(&mut culled, &vol, Vec3i::new(0, 0, 0), Vec3i::new(0, 0, 0), col(9, 9, 9), false);
    assert_eq!(culled.quads.len(), 0);

    let mut emitted = Mesh::new();
    push_vox_verts(&mut emitted, &vol, Vec3i::new(0, 0, 0), Vec3i::new(0, 0, 0), col(9, 9, 9), true);
    assert_eq!(emitted.quads.len(), 6);
}

/// Occlusion levels fall as sampled neighbour cells turn solid: 2 with all
/// three empty, 1 with one edge neighbour or only the diagonal solid, 0
/// with both edge neighbours solid.
#[test]
fn ao_levels_follow_neighbours() {
    // Face cell at (0,0,1), looking along +z; corners sample the y/x ring.
    let dirs = [
        Vec3i::new(-1, 0, 0),
        Vec3i::new(0, -1, 0),
        Vec3i::new(1, 0, 0),
        Vec3i::new(0, 1, 0),
        Vec3i::new(-1, 0, 0),
    ];

    let empty = VolSample::filled(Vec3i::new(-2, -2, -2), 5, 5, 5, Voxel::air());
    let ao = get_ao_quad(&empty, Vec3i::new(0, 0, 1), &dirs);
    assert_eq!(ao, AoQuad { c0: 2, c1: 2, c2: 2, c3: 2 });

    // One edge neighbour solid: the two corners sharing it drop to 1.
    let mut one = VolSample::filled(Vec3i::new(-2, -2, -2), 5, 5, 5, Voxel::air());
    one.set(Vec3i::new(-1, 0, 1), Voxel::solid(col(1, 1, 1)));
    let ao = get_ao_quad(&one, Vec3i::new(0, 0, 1), &dirs);
    assert_eq!(ao, AoQuad { c0: 1, c1: 2, c2: 2, c3: 1 });

    // Both edge neighbours of the first corner solid: that corner is 0.
    let mut two = VolSample::filled(Vec3i::new(-2, -2, -2), 5, 5, 5, Voxel::air());
    two.set(Vec3i::new(-1, 0, 1), Voxel::solid(col(1, 1, 1)));
    two.set(Vec3i::new(0, -1, 1), Voxel::solid(col(1, 1, 1)));
    let ao = get_ao_quad(&two, Vec3i::new(0, 0, 1), &dirs);
    assert_eq!(ao, AoQuad { c0: 0, c1: 1, c2: 2, c3: 1 });

    // Only the diagonal solid: 1, not 0.
    let mut diag = VolSample::filled(Vec3i::new(-2, -2, -2), 5, 5, 5, Voxel::air());
    diag.set(Vec3i::new(-1, -1, 1), Voxel::solid(col(1, 1, 1)));
    let ao = get_ao_quad(&diag, Vec3i::new(0, 0, 1), &dirs);
    assert_eq!(ao, AoQuad { c0: 1, c1: 2, c2: 2, c3: 2 });
}

/// The exact colour blend: at level 1 the channel moves 362/1024 of the
/// way from its 5% ambient base back to its full value.
#[test]
fn blend_exact_values() {
    let q = create_quad(
        Vec3i::new(0, 0, 0),
        Vec3i::new(1, 0, 0),
        Vec3i::new(0, 1, 0),
        Vec3i::new(0, 0, 1),
        col(200, 0, 255),
        AoQuad { c0: 1, c1: 1, c2: 1, c3: 1 },
    );
    // r: dark = 200/20 = 10; 10 + (190*362)/1024 = 10 + 67 = 77.
    // b: dark = 255/20 = 12; 12 + (243*362)/1024 = 12 + 85 = 97.
    for v in [&q.a, &q.b, &q.c, &q.d] {
        assert_eq!(v.col, col(77, 0, 97));
    }
    // Level 0 leaves only the ambient base; level 2 keeps the colour.
    let q0 = create_quad(
        Vec3i::new(0, 0, 0),
        Vec3i::new(1, 0, 0),
        Vec3i::new(0, 1, 0),
        Vec3i::new(0, 0, 1),
        col(200, 0, 255),
        AoQuad { c0: 0, c1: 0, c2: 0, c3: 0 },
    );
    assert_eq!(q0.a.col, col(10, 0, 12));
    let q2 = create_quad(
        Vec3i::new(0, 0, 0),
        Vec3i::new(1, 0, 0),
        Vec3i::new(0, 1, 0),
        Vec3i::new(0, 0, 1),
        col(200, 0, 255),
        AoQuad { c0: 2, c1: 2, c2: 2, c3: 2 },
    );
    assert_eq!(q2.a.col, col(200, 0, 255));
}

/// The quad is split along the less-occluded diagonal: when corners 0 and
/// 2 carry the deeper occlusion the vertex fan is rotated to start at
/// corner 3.
#[test]
fn diagonal_tie_break() {
    let origin = Vec3i::new(5, 5, 5);
    let ux = Vec3i::new(1, 0, 0);
    let uy = Vec3i::new(0, 1, 0);
    let n = Vec3i::new(0, 0, 1);
    let flipped = create_quad(origin, ux, uy, n, col(50, 50, 50), AoQuad { c0: 0, c1: 1, c2: 0, c3: 1 });
    assert_eq!(flipped.a.pos, Vec3i::new(5, 6, 5));
    assert_eq!(flipped.b.pos, origin);
    let straight = create_quad(origin, ux, uy, n, col(50, 50, 50), AoQuad { c0: 1, c1: 0, c2: 1, c3: 0 });
    assert_eq!(straight.a.pos, origin);
    assert_eq!(straight.b.pos, Vec3i::new(6, 5, 5));
}

/// Vertical occupancy bounds of a sample: lowest and highest solid z.
#[test]
fn z_bounds_of_sample() {
    let mut vol = VolSample::filled(Vec3i::new(0, 0, -4), 3, 3, 10, Voxel::air());
    assert_eq!(vol.solid_z_bounds(), None);
    vol.set(Vec3i::new(1, 1, -2), Voxel::solid(col(1, 1, 1)));
    assert_eq!(vol.solid_z_bounds(), Some((-2, -2)));
    vol.set(Vec3i::new(2, 0, 3), Voxel::solid(col(1, 1, 1)));
    assert_eq!(vol.solid_z_bounds(), Some((-2, 3)));
}
