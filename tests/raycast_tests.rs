use voxel_level::chunk::Voxel;
use voxel_level::coords::{ChunkPos, GridPos, WorldPos};
use voxel_level::level::VoxelLevel;
use voxel_level::raycast::{raycast_world, Ray, RayWalk, Vec3i, SUBVOXEL};

fn ray(o: (i64, i64, i64), d: (i64, i64, i64), radius: i64) -> Ray {
    Ray {
        origin: Vec3i { x: o.0, y: o.1, z: o.2 },
        direction: Vec3i { x: d.0, y: d.1, z: d.2 },
        radius,
        direction_den: 1,
    }
}

fn distance(r: &Ray, hit: &voxel_level::raycast::RayHit) -> f64 {
    let d = r.direction;
    let len = ((d.x * d.x + d.y * d.y + d.z * d.z) as f64).sqrt();
    hit.distance_num as f64 / (SUBVOXEL as f64 * hit.distance_den as f64) * len
}

fn level_with(solid: &[(i32, i32, i32)]) -> VoxelLevel {
    let mut level = VoxelLevel::new(GridPos { x: 1, y: 1, z: 1 });
    for &(x, y, z) in solid {
        level.set_voxel(WorldPos { x, y, z }, Voxel { id: 1 });
    }
    level
}

#[test]
fn hit_along_x_axis() {
    let level = level_with(&[(2, 0, 0)]);
    let hit = level.raycast(&ray((512, 512, 512), (1, 0, 0), 5 * SUBVOXEL)).unwrap();
    assert_eq!(hit.voxel, WorldPos { x: 2, y: 0, z: 0 });
    assert_eq!(hit.chunk, ChunkPos { x: 0, y: 0, z: 0 });
    assert_eq!(hit.relative, GridPos { x: 2, y: 0, z: 0 });
    assert_eq!(hit.face, Vec3i { x: -1, y: 0, z: 0 });
    let distance = hit.distance_num as f64 / (SUBVOXEL as f64 * hit.distance_den as f64);
    assert_eq!(distance, 1.5);
}

#[test]
fn zero_direction_never_hits() {
    let level = level_with(&[(0, 0, 0), (1, 0, 0)]);
    assert!(level.raycast(&ray((512, 512, 512), (0, 0, 0), 5 * SUBVOXEL)).is_none());
    assert!(RayWalk::start(&ray((0, 0, 0), (0, 0, 0), 0)).is_none());
}

#[test]
fn origin_voxel_hit_has_zero_face() {
    let level = level_with(&[(0, 0, 0)]);
    let hit = level.raycast(&ray((512, 512, 512), (0, 1, 0), SUBVOXEL)).unwrap();
    assert_eq!(hit.voxel, WorldPos { x: 0, y: 0, z: 0 });
    assert_eq!(hit.face, Vec3i { x: 0, y: 0, z: 0 });
    assert_eq!(hit.distance_num, 0);
}

#[test]
fn voxel_beyond_radius_is_missed() {
    let level = level_with(&[(6, 0, 0)]);
    assert!(level.raycast(&ray((512, 512, 512), (1, 0, 0), 5 * SUBVOXEL)).is_none());
}

#[test]
fn crossing_exactly_at_radius_is_hit() {
    let level = level_with(&[(5, 0, 0)]);
    let radius = 4 * SUBVOXEL + SUBVOXEL / 2;
    let hit = level.raycast(&ray((512, 512, 512), (1, 0, 0), radius)).unwrap();
    assert_eq!(hit.voxel, WorldPos { x: 5, y: 0, z: 0 });
    assert_eq!(hit.distance_num, radius);
    assert!(level.raycast(&ray((512, 512, 512), (1, 0, 0), radius - 1)).is_none());
}

#[test]
fn negative_direction_hits_with_positive_face() {
    let level = level_with(&[(1, 3, 0)]);
    let hit = level.raycast(&ray((1536, 5632, 512), (0, -1, 0), 8 * SUBVOXEL)).unwrap();
    assert_eq!(hit.voxel, WorldPos { x: 1, y: 3, z: 0 });
    assert_eq!(hit.face, Vec3i { x: 0, y: 1, z: 0 });
    assert_eq!(hit.distance_num, 1536);
    assert_eq!(hit.distance_den, 1);
}

#[test]
fn diagonal_tie_prefers_x() {
    // from the centre of voxel (0,0,0) along (1,1,0) both boundaries come at once: x goes first
    let level = level_with(&[(1, 0, 0), (0, 1, 0)]);
    let hit = level.raycast(&ray((512, 512, 512), (1, 1, 0), 4 * SUBVOXEL)).unwrap();
    assert_eq!(hit.voxel, WorldPos { x: 1, y: 0, z: 0 });
    assert_eq!(hit.face, Vec3i { x: -1, y: 0, z: 0 });
}

#[test]
fn tie_between_y_and_z_prefers_y() {
    let level = level_with(&[(0, 1, 0), (0, 0, 1)]);
    let hit = level.raycast(&ray((512, 512, 512), (0, 1, 1), 4 * SUBVOXEL)).unwrap();
    assert_eq!(hit.voxel, WorldPos { x: 0, y: 1, z: 0 });
}

#[test]
fn step_cap_scales_with_direction_length() {
    // |direction| = 10 and radius 5: at most two steps are taken
    let level = level_with(&[(2, 0, 0)]);
    assert!(level.raycast(&ray((512, 512, 512), (10, 0, 0), 5 * SUBVOXEL)).is_some());
    let level = level_with(&[(3, 0, 0)]);
    assert!(level.raycast(&ray((512, 512, 512), (10, 0, 0), 5 * SUBVOXEL)).is_none());
}

#[test]
fn ray_leaving_the_level_misses() {
    let level = level_with(&[]);
    assert!(level.raycast(&ray((512, 512, 512), (-1, 0, 0), 40 * SUBVOXEL)).is_none());
}

#[test]
fn callback_raycast_matches_level_raycast() {
    let target = WorldPos { x: -3, y: 1, z: 0 };
    let r = ray((512, 512, 512), (-3, 1, 0), 10 * SUBVOXEL);
    let hit = raycast_world(&r, |w| w == target).unwrap();
    assert_eq!(hit.voxel, target);
    assert_eq!(hit.chunk, ChunkPos { x: -1, y: 0, z: 0 });
    assert_eq!(hit.relative, GridPos { x: 29, y: 1, z: 0 });
    assert!(raycast_world(&r, |_| false).is_none());
    assert!(raycast_world(&ray((0, 0, 0), (0, 0, 0), SUBVOXEL), |_| true).is_none());
}

#[test]
fn walk_steps_one_boundary_at_a_time() {
    let walk = RayWalk::start(&ray((512, 512, 512), (1, 0, 0), 5 * SUBVOXEL)).unwrap();
    assert_eq!(walk.voxel(), WorldPos { x: 0, y: 0, z: 0 });
    assert!(!walk.is_capped());
    let next = walk.advance().unwrap();
    assert_eq!(next.voxel(), WorldPos { x: 1, y: 0, z: 0 });
    assert_eq!(next.hit().face, Vec3i { x: -1, y: 0, z: 0 });
    assert_eq!(next.counter, 1);
}

#[test]
fn callback_hit_at_two_voxels() {
    let r = ray((512, 512, 512), (1, 0, 0), 5 * SUBVOXEL);
    let hit = raycast_world(&r, |p| p == WorldPos { x: 2, y: 0, z: 0 }).unwrap();
    assert_eq!(hit.chunk, ChunkPos { x: 0, y: 0, z: 0 });
    assert_eq!(hit.relative, GridPos { x: 2, y: 0, z: 0 });
    assert_eq!(hit.face, Vec3i { x: -1, y: 0, z: 0 });
    assert_eq!(distance(&r, &hit), 1.5);
}

#[test]
fn callback_radius_boundary() {
    let target = |p: WorldPos| p == WorldPos { x: 3, y: 0, z: 0 };
    // 2.4 voxels: the boundary into (3,0,0) lies at 2.5
    assert!(raycast_world(&ray((512, 512, 512), (1, 0, 0), 2458), target).is_none());
    let r = ray((512, 512, 512), (1, 0, 0), 2560);
    let hit = raycast_world(&r, target).unwrap();
    assert_eq!(hit.relative, GridPos { x: 3, y: 0, z: 0 });
    assert_eq!(distance(&r, &hit), 2.5);
}

#[test]
fn callback_diagonal_tie_goes_to_x() {
    let r = ray((512, 512, 512), (1, 1, 0), 5 * SUBVOXEL);
    let hit = raycast_world(&r, |p| p == WorldPos { x: 1, y: 0, z: 0 }).unwrap();
    assert_eq!(hit.face, Vec3i { x: -1, y: 0, z: 0 });
    assert!((distance(&r, &hit) - 0.5 * 2f64.sqrt()).abs() < 1e-12);
}

#[test]
fn callback_negative_direction() {
    let r = ray((2560, 512, 512), (-1, 0, 0), 5 * SUBVOXEL);
    let hit = raycast_world(&r, |p| p == WorldPos { x: 0, y: 0, z: 0 }).unwrap();
    assert_eq!(hit.relative, GridPos { x: 0, y: 0, z: 0 });
    assert_eq!(hit.face, Vec3i { x: 1, y: 0, z: 0 });
    assert_eq!(distance(&r, &hit), 1.5);
}

#[test]
fn callback_solid_origin_below_zero() {
    let r = ray((-512, 512, 512), (1, 0, 0), 5 * SUBVOXEL);
    let hit = raycast_world(&r, |_| true).unwrap();
    assert_eq!(hit.chunk, ChunkPos { x: -1, y: 0, z: 0 });
    assert_eq!(hit.relative, GridPos { x: 31, y: 0, z: 0 });
    assert_eq!(hit.face, Vec3i { x: 0, y: 0, z: 0 });
    assert_eq!(distance(&r, &hit), 0.0);
}

#[test]
fn scaled_direction_gives_same_hit() {
    let target = |p: WorldPos| p == WorldPos { x: 2, y: 0, z: 0 };
    let r = ray((512, 512, 512), (2, 0, 0), 5 * SUBVOXEL);
    let hit = raycast_world(&r, target).unwrap();
    assert_eq!(hit.relative, GridPos { x: 2, y: 0, z: 0 });
    assert_eq!(distance(&r, &hit), 1.5);
    // the same world direction (2,0,0) written as 2048/1024
    let r2 = Ray { direction: Vec3i { x: 2048, y: 0, z: 0 }, direction_den: 1024, ..r };
    let hit2 = raycast_world(&r2, target).unwrap();
    assert_eq!(hit2.voxel, hit.voxel);
    assert_eq!(distance(&r2, &hit2), 1.5);
}

#[test]
fn fractional_direction_keeps_step_cap() {
    // direction 0.5 voxels per unit, radius 1: the cap allows eight steps
    let level = level_with(&[(8, 0, 0)]);
    let r = Ray { direction: Vec3i { x: 512, y: 0, z: 0 }, direction_den: 1024, ..ray((512, 512, 512), (1, 0, 0), 8 * SUBVOXEL + 512) };
    assert!(level.raycast(&r).is_some());
    let coarse = Ray { direction: Vec3i { x: 512, y: 0, z: 0 }, direction_den: 1, ..r };
    assert!(level.raycast(&coarse).is_none());
}

#[test]
fn negative_radius_tests_only_the_origin() {
    let level = level_with(&[(0, 0, 0), (1, 0, 0)]);
    let hit = level.raycast(&ray((512, 512, 512), (1, 0, 0), -SUBVOXEL)).unwrap();
    assert_eq!(hit.voxel, WorldPos { x: 0, y: 0, z: 0 });
    let level = level_with(&[(1, 0, 0)]);
    assert!(level.raycast(&ray((512, 512, 512), (1, 0, 0), -SUBVOXEL)).is_none());
}
