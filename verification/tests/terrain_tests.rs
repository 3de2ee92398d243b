use voxygen::math::{Aabb, Vec2i, Vec3i};
use voxygen::scene::terrain::{mesh_worker, Plane, Terrain, PLANE_SCALE};
use voxygen::volume::{Rgb8, VolSample, Voxel};

fn v2(x: i32, y: i32) -> Vec2i {
    Vec2i::new(x, y)
}

/// The 3x3 block of coordinates around (0, 0).
fn block_around_origin() -> Vec<Vec2i> {
    let mut v = Vec::new();
    for x in -1..2 {
        for y in -1..2 {
            v.push(v2(x, y));
        }
    }
    v
}

/// A coordinate is queued only once the world holds data for its whole
/// 3x3 neighbourhood.
#[test]
fn queue_needs_complete_neighbourhood() {
    let mut t = Terrain::new();
    t.ingest(&vec![v2(0, 0)], &vec![], &vec![], 1);
    assert_eq!(t.jobs_to_dispatch().len(), 0);

    let mut t = Terrain::new();
    t.ingest(&block_around_origin(), &vec![], &vec![], 1);
    let jobs = t.jobs_to_dispatch();
    assert_eq!(jobs.len(), 1);
    assert_eq!(jobs[0], v2(0, 0));
}

/// A result whose tick no longer matches the live descriptor is rejected
/// and leaves the resident table untouched; the re-queued job's own
/// result is accepted.
#[test]
fn stale_result_is_rejected() {
    let mut t = Terrain::new();
    // Enqueue (0,0) at tick 5 with all 9 neighbours present.
    t.ingest(&block_around_origin(), &vec![], &vec![], 5);
    assert!(t.mark_dispatched(v2(0, 0), 5));
    // The same coordinate changes again at tick 6 before the worker is done.
    t.ingest(&vec![], &vec![v2(0, 0)], &vec![], 6);
    // The tick-5 result arrives afterwards: dropped, no entry.
    assert!(!t.result_is_current(v2(0, 0), 5));
    assert!(!t.commit_result(v2(0, 0), 5, 0, 10, 101, 201));
    t.update_visibility(16, 16, 1000, &vec![]);
    assert_eq!(t.draw_list().len(), 0);
    // The superseded job is dispatched anew at tick 6; its result lands.
    assert!(t.mark_dispatched(v2(0, 0), 6));
    assert!(t.result_is_current(v2(0, 0), 6));
    assert!(t.commit_result(v2(0, 0), 6, 0, 10, 101, 201));
    t.update_visibility(16, 16, 1000, &vec![]);
    assert_eq!(t.draw_list(), vec![(101, 201)]);
}

/// A descriptor with an active worker is not offered for dispatch again,
/// and cannot be dispatched twice.
#[test]
fn at_most_one_active_worker() {
    let mut t = Terrain::new();
    t.ingest(&block_around_origin(), &vec![], &vec![], 3);
    assert_eq!(t.jobs_to_dispatch().len(), 1);
    assert!(t.mark_dispatched(v2(0, 0), 3));
    assert_eq!(t.jobs_to_dispatch().len(), 0);
    assert!(!t.mark_dispatched(v2(0, 0), 3));
}

/// Removing a chunk drops its resident entry and its descriptor at once.
#[test]
fn removed_chunk_is_dropped() {
    let mut t = Terrain::new();
    t.ingest(&block_around_origin(), &vec![], &vec![], 1);
    assert!(t.mark_dispatched(v2(0, 0), 1));
    assert!(t.commit_result(v2(0, 0), 1, 0, 8, 7, 8));
    t.update_visibility(16, 16, 1000, &vec![]);
    assert_eq!(t.draw_list().len(), 1);

    t.ingest(&vec![], &vec![], &vec![v2(0, 0)], 2);
    t.update_visibility(16, 16, 1000, &vec![]);
    assert_eq!(t.draw_list().len(), 0);
    assert!(!t.result_is_current(v2(0, 0), 1));
}

/// An entry is visible only while it lies within the load radius of the
/// focus; leaving the radius hides it on the next maintenance pass.
#[test]
fn visibility_honours_load_radius() {
    let mut t = Terrain::new();
    t.ingest(&block_around_origin(), &vec![], &vec![], 1);
    assert!(t.mark_dispatched(v2(0, 0), 1));
    assert!(t.commit_result(v2(0, 0), 1, 0, 8, 1, 2));

    // Focus inside the chunk footprint, generous radius: drawn.
    t.update_visibility(10, 10, 50, &vec![]);
    assert_eq!(t.draw_list().len(), 1);
    // Focus 1000 units away, radius 100: hidden.
    t.update_visibility(1032, 10, 100, &vec![]);
    assert_eq!(t.draw_list().len(), 0);
}

/// An entry is visible only while its bounding sphere intersects every
/// frustum plane.
#[test]
fn visibility_honours_frustum() {
    let mut t = Terrain::new();
    t.ingest(&block_around_origin(), &vec![], &vec![], 1);
    assert!(t.mark_dispatched(v2(0, 0), 1));
    assert!(t.commit_result(v2(0, 0), 1, 0, 10, 1, 2));

    // A half-space that easily contains the chunk (x >= -1000).
    let keep = Plane { a: PLANE_SCALE, b: 0, c: 0, d: 1000 * PLANE_SCALE };
    t.update_visibility(16, 16, 1000, &vec![keep]);
    assert_eq!(t.draw_list().len(), 1);

    // A half-space far beyond the chunk (x >= 10000): culled.
    let cull = Plane { a: PLANE_SCALE, b: 0, c: 0, d: -10000 * PLANE_SCALE };
    t.update_visibility(16, 16, 1000, &vec![cull]);
    assert_eq!(t.draw_list().len(), 0);
}

/// A worker response carries its job's coordinate, bounds and tick, and
/// the mesh of the sampled region.
#[test]
fn mesh_worker_packages_job() {
    let mut vol = VolSample::filled(Vec3i::new(-1, -1, -1), 3, 3, 3, Voxel::air());
    vol.set(Vec3i::new(0, 0, 0), Voxel::solid(Rgb8 { r: 1, g: 2, b: 3 }));
    let range = Aabb { min: Vec3i::new(-1, -1, -1), max: Vec3i::new(2, 2, 2) };
    let r = mesh_worker(v2(4, -7), 0, 1, 99, vol, range);
    assert_eq!(r.pos, v2(4, -7));
    assert_eq!(r.z_min, 0);
    assert_eq!(r.z_max, 1);
    assert_eq!(r.started_tick, 99);
    assert_eq!(r.mesh.quads.len(), 6);
}

/// A changed chunk re-queues its whole 3x3 neighbourhood, so neighbours
/// whose occlusion inputs may have shifted are remeshed too — but only
/// those whose own neighbourhood is complete and that are not resident.
#[test]
fn changed_chunk_requeues_neighbourhood() {
    let mut t = Terrain::new();
    // A 5x5 block of world data around the origin.
    let mut block = Vec::new();
    for x in -2..3 {
        for y in -2..3 {
            block.push(v2(x, y));
        }
    }
    t.ingest(&block, &vec![], &vec![], 1);
    // The 3x3 inner coordinates all have complete neighbourhoods.
    assert_eq!(t.jobs_to_dispatch().len(), 9);
}

/// A resident coordinate is not re-queued when it is reported changed:
/// re-meshing of a resident chunk happens only after it is removed and
/// re-added by the world.
#[test]
fn resident_chunk_not_requeued() {
    let mut t = Terrain::new();
    t.ingest(&block_around_origin(), &vec![], &vec![], 1);
    assert!(t.mark_dispatched(v2(0, 0), 1));
    assert!(t.commit_result(v2(0, 0), 1, 0, 8, 1, 2));
    t.ingest(&vec![], &vec![v2(0, 0)], &vec![], 2);
    assert_eq!(t.jobs_to_dispatch().len(), 0);
}
