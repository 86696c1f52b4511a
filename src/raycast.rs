use vstd::prelude::*;

use crate::chunk::Voxel;
use crate::coords::{to_chunk, to_relative, ChunkPos, GridPos, WorldPos};
use crate::level::VoxelLevel;

verus! {

/// Sub-voxel resolution of ray origins and radii: one voxel spans this many units.
pub const SUBVOXEL: i64 = 1024;

/// Largest magnitude of an origin component, in sub-voxel units.
pub const ORIGIN_LIMIT: i64 = 0x100_0000_0000;

/// Largest magnitude of a direction component.
pub const DIRECTION_LIMIT: i64 = 0x10_0000;

/// Largest radius, in sub-voxel units.
pub const RADIUS_LIMIT: i64 = 0x1_0000_0000;

/// An integer triple.
#[derive(Clone, Copy, Debug, PartialEq, Eq, Structural)]
pub struct Vec3i {
    pub x: i64,
    pub y: i64,
    pub z: i64,
}

/// A ray in fixed point: `origin` and `radius` in sub-voxel units; the direction, in voxels
/// per unit of the ray parameter, is `direction / direction_den`. A negative radius lets
/// only the voxel holding the origin be tested.
#[derive(Clone, Copy, Debug, PartialEq, Eq, Structural)]
pub struct Ray {
    pub origin: Vec3i,
    pub direction: Vec3i,
    pub radius: i64,
    pub direction_den: i64,
}

/// The first solid voxel along a ray.
///
/// The distance from the origin to the boundary crossed last, in voxels, is
/// `distance_num / (SUBVOXEL * distance_den) * |direction|`, whatever `direction_den` is.
#[derive(Clone, Copy, Debug, PartialEq, Eq, Structural)]
pub struct RayHit {
    pub chunk: ChunkPos,
    pub relative: GridPos,
    pub voxel: WorldPos,
    /// Outward normal of the boundary crossed just before the hit; zero when the origin's
    /// own voxel is solid.
    pub face: Vec3i,
    pub distance_num: i64,
    pub distance_den: i64,
}

/// Traversal state along one axis.
#[derive(Clone, Copy, Debug, PartialEq, Eq, Structural)]
pub struct AxisWalk {
    /// Direction component on this axis.
    pub d: i64,
    /// Ray parameter of the next boundary crossing on this axis, times `|d|`, in sub-voxel
    /// units.
    pub n: i64,
    /// Current voxel coordinate on this axis.
    pub voxel: i64,
}

/// The state of a traversal between two occupancy tests.
#[derive(Clone, Copy, Debug, PartialEq, Eq, Structural)]
pub struct RayWalk {
    pub x: AxisWalk,
    pub y: AxisWalk,
    pub z: AxisWalk,
    /// The ray being followed.
    pub ray: Ray,
    /// Squared length of the direction.
    pub norm2: i128,
    pub face: Vec3i,
    pub last_n: i64,
    pub last_d: i64,
    /// Number of steps taken.
    pub counter: i64,
}

pub open spec fn abs(v: int) -> int {
    if v < 0 {
        -v
    } else {
        v
    }
}

pub open spec fn sign(v: int) -> int {
    if v < 0 {
        -1
    } else if v > 0 {
        1
    } else {
        0
    }
}

/// `|radius| * direction_den`: four times this, over `SUBVOXEL`, caps the number of steps.
pub open spec fn reach(r: Ray) -> int {
    abs(r.radius as int) * r.direction_den
}

/// The ray is within the limits of the fixed-point representation.
pub open spec fn ray_ok(r: Ray) -> bool {
    &&& abs(r.origin.x as int) <= ORIGIN_LIMIT
    &&& abs(r.origin.y as int) <= ORIGIN_LIMIT
    &&& abs(r.origin.z as int) <= ORIGIN_LIMIT
    &&& abs(r.direction.x as int) <= DIRECTION_LIMIT
    &&& abs(r.direction.y as int) <= DIRECTION_LIMIT
    &&& abs(r.direction.z as int) <= DIRECTION_LIMIT
    &&& abs(r.radius as int) <= RADIUS_LIMIT
    &&& 1 <= r.direction_den <= SUBVOXEL
    &&& reach(r) <= RADIUS_LIMIT
}

/// Start of the traversal on one axis: the voxel holding the origin, and the distance to the
/// first boundary in the direction of travel, `1 - frac(s)` of the origin reflected when the
/// direction is negative.
pub open spec fn axis_start(o: int, d: int) -> AxisWalk {
    AxisWalk {
        d: d as i64,
        n: (if d < 0 {
            SUBVOXEL - (-o) % (SUBVOXEL as int)
        } else {
            SUBVOXEL - o % (SUBVOXEL as int)
        }) as i64,
        voxel: (o / (SUBVOXEL as int)) as i64,
    }
}

/// The boundary crossed last before `h` lies within the radius of `r`:
/// `distance_num / distance_den <= radius / |direction|`.
pub open spec fn hit_within_radius(r: Ray, h: RayHit) -> bool {
    let (dx, dy, dz) = (r.direction.x as int, r.direction.y as int, r.direction.z as int);
    h.distance_num * h.distance_num * (dx * dx + dy * dy + dz * dz) <= r.radius * r.radius * (
    h.distance_den * h.distance_den)
}

/// The traversal state before the first occupancy test, for a non-zero direction.
pub open spec fn walk_start(r: Ray) -> RayWalk {
    let (dx, dy, dz) = (r.direction.x as int, r.direction.y as int, r.direction.z as int);
    RayWalk {
        x: axis_start(r.origin.x as int, dx),
        y: axis_start(r.origin.y as int, dy),
        z: axis_start(r.origin.z as int, dz),
        norm2: (dx * dx + dy * dy + dz * dz) as i128,
        ray: r,
        face: Vec3i { x: 0, y: 0, z: 0 },
        last_n: 0,
        last_d: 1,
        counter: 0,
    }
}

/// The next crossing on axis `a` comes no later than the next one on axis `b`; an axis that
/// the ray does not travel along never crosses.
pub open spec fn not_later(a: AxisWalk, b: AxisWalk) -> bool {
    a.d != 0 && (b.d == 0 || a.n * abs(b.d as int) <= b.n * abs(a.d as int))
}

/// Axis of the next step (0, 1 or 2 for x, y, z): the earliest crossing, x winning ties with
/// y or z, and y winning ties with z.
pub open spec fn next_axis(s: RayWalk) -> int {
    if not_later(s.x, s.y) && not_later(s.x, s.z) {
        0
    } else if not_later(s.y, s.z) {
        1
    } else {
        2
    }
}

pub open spec fn axis_of(s: RayWalk, a: int) -> AxisWalk {
    if a == 0 {
        s.x
    } else if a == 1 {
        s.y
    } else {
        s.z
    }
}

/// The crossing on axis `a` lies beyond the radius: `n / |d| > radius / |direction|`.
pub open spec fn beyond_radius(s: RayWalk, a: AxisWalk) -> bool {
    s.ray.radius < 0 || a.n * a.n * s.norm2 > s.ray.radius * s.ray.radius * (a.d * a.d)
}

/// The step counter exceeds four times the radius measured in direction lengths, that is
/// `counter > 4 * radius * direction_den / (SUBVOXEL * |direction|)`.
pub open spec fn capped(s: RayWalk) -> bool {
    s.counter * s.counter * (SUBVOXEL * SUBVOXEL) * s.norm2 > 16 * (s.ray.radius * s.ray.radius) * (
    s.ray.direction_den * s.ray.direction_den)
}

pub open spec fn step_axis(a: AxisWalk) -> AxisWalk {
    AxisWalk { d: a.d, n: (a.n + SUBVOXEL) as i64, voxel: (a.voxel + sign(a.d as int)) as i64 }
}

/// The state after stepping across the next boundary, or `None` when that boundary lies
/// beyond the radius.
pub open spec fn advance_spec(s: RayWalk) -> Option<RayWalk> {
    let k = next_axis(s);
    let a = axis_of(s, k);
    if beyond_radius(s, a) {
        None
    } else {
        let f = (-sign(a.d as int)) as i64;
        Some(
            RayWalk {
                x: if k == 0 {
                    step_axis(s.x)
                } else {
                    s.x
                },
                y: if k == 1 {
                    step_axis(s.y)
                } else {
                    s.y
                },
                z: if k == 2 {
                    step_axis(s.z)
                } else {
                    s.z
                },
                face: Vec3i {
                    x: if k == 0 {
                        f
                    } else {
                        0
                    },
                    y: if k == 1 {
                        f
                    } else {
                        0
                    },
                    z: if k == 2 {
                        f
                    } else {
                        0
                    },
                },
                last_n: a.n,
                last_d: abs(a.d as int) as i64,
                counter: (s.counter + 1) as i64,
                ..s
            },
        )
    }
}

pub open spec fn walk_voxel(s: RayWalk) -> WorldPos {
    WorldPos { x: s.x.voxel as i32, y: s.y.voxel as i32, z: s.z.voxel as i32 }
}

/// What a traversal reports when it stops on a solid voxel.
pub open spec fn hit_of(s: RayWalk) -> RayHit {
    let w = walk_voxel(s);
    RayHit {
        chunk: ChunkPos {
            x: crate::coords::floor_chunk(w.x as int) as i32,
            y: crate::coords::floor_chunk(w.y as int) as i32,
            z: crate::coords::floor_chunk(w.z as int) as i32,
        },
        relative: crate::level::relative_pos(w),
        voxel: w,
        face: s.face,
        distance_num: s.last_n,
        distance_den: s.last_d,
    }
}

/// A voxel of the level that stops a ray: present and not air.
pub open spec fn solid(level: VoxelLevel, w: WorldPos) -> bool {
    match level.voxel_at(w) {
        Some(v) => v.id != 0,
        None => false,
    }
}

/// The result of a traversal from state `s` with `fuel` occupancy tests left, where `occ`
/// tells which voxels stop the ray.
pub open spec fn walk_result_by(occ: spec_fn(WorldPos) -> bool, s: RayWalk, fuel: nat) -> Option<
    RayHit,
>
    decreases fuel,
{
    if fuel == 0 || capped(s) {
        None
    } else if occ(walk_voxel(s)) {
        Some(hit_of(s))
    } else {
        match advance_spec(s) {
            None => None,
            Some(t) => walk_result_by(occ, t, (fuel - 1) as nat),
        }
    }
}

/// Enough occupancy tests for every traversal of the ray to end by its own rules.
pub open spec fn walk_fuel(r: Ray) -> nat {
    (4 * reach(r) / (SUBVOXEL as int) + 2) as nat
}

/// First voxel along `r` that `occ` accepts: the voxel holding the origin is tested first,
/// then each voxel entered across the nearest boundary, until a boundary lies beyond the
/// radius or more steps than four radii (in direction lengths) were taken. A zero direction
/// tests nothing.
pub open spec fn raycast_by(occ: spec_fn(WorldPos) -> bool, r: Ray) -> Option<RayHit> {
    if r.direction.x == 0 && r.direction.y == 0 && r.direction.z == 0 {
        None
    } else {
        walk_result_by(occ, walk_start(r), walk_fuel(r))
    }
}

/// First solid voxel of `level` along `r`.
pub open spec fn raycast_spec(level: VoxelLevel, r: Ray) -> Option<RayHit> {
    raycast_by(|w: WorldPos| solid(level, w), r)
}

/// `occ` says what `f` answers for every voxel.
pub open spec fn decides<F: Fn(WorldPos) -> bool>(f: F, occ: spec_fn(WorldPos) -> bool) -> bool {
    forall|w: WorldPos, b: bool| #[trigger] f.ensures((w,), b) ==> b == occ(w)
}

/// `s` is a traversal state of ray `r`, within the bounds that keep its arithmetic exact.
pub open spec fn walk_ok(s: RayWalk) -> bool {
    let r = s.ray;
    let lim = abs(r.radius as int) + SUBVOXEL;
    &&& ray_ok(r)
    &&& !(r.direction.x == 0 && r.direction.y == 0 && r.direction.z == 0)
    &&& s.x.d == r.direction.x && s.y.d == r.direction.y && s.z.d == r.direction.z
    &&& s.norm2 == r.direction.x * r.direction.x + r.direction.y * r.direction.y
        + r.direction.z * r.direction.z
    &&& 0 < s.x.n <= lim && 0 < s.y.n <= lim && 0 < s.z.n <= lim
    &&& 0 <= s.counter <= 4 * reach(r) / (SUBVOXEL as int) + 1
    &&& abs(s.x.voxel - (r.origin.x as int) / (SUBVOXEL as int)) <= s.counter
    &&& abs(s.y.voxel - (r.origin.y as int) / (SUBVOXEL as int)) <= s.counter
    &&& abs(s.z.voxel - (r.origin.z as int) / (SUBVOXEL as int)) <= s.counter
    &&& 0 <= s.last_n <= lim
    &&& 1 <= s.last_d <= DIRECTION_LIMIT
    &&& s.last_n * s.last_n * s.norm2 <= s.ray.radius * s.ray.radius * (s.last_d * s.last_d)
    &&& abs(s.face.x as int) <= 1 && abs(s.face.y as int) <= 1 && abs(s.face.z as int) <= 1
}

proof fn lemma_mul_le(a: int, b: int, ca: int, cb: int)
    requires
        0 <= a <= ca,
        0 <= b <= cb,
    ensures
        0 <= a * b <= ca * cb,
{
    assert(0 <= a * b <= ca * cb) by (nonlinear_arith)
        requires 0 <= a <= ca, 0 <= b <= cb;
}

/// While the step counter is not capped, it stays below four radii in sub-voxel units.
proof fn lemma_uncapped_bound(s: RayWalk)
    requires
        s.norm2 >= 1,
        s.counter >= 0,
        s.ray.direction_den >= 1,
        !capped(s),
    ensures
        s.counter * SUBVOXEL <= 4 * reach(s.ray),
        s.counter <= 4 * reach(s.ray) / (SUBVOXEL as int),
{
    let (c, n, r, e) = (s.counter as int, s.norm2 as int, s.ray.radius as int, s.ray.direction_den as int);
    let q = reach(s.ray);
    assert(q >= 0) by (nonlinear_arith)
        requires q == abs(r) * e, e >= 1;
    assert(c * c * (1024 * 1024) <= c * c * (1024 * 1024) * n) by (nonlinear_arith)
        requires n >= 1, c >= 0;
    assert((c * 1024) * (c * 1024) == c * c * (1024 * 1024)) by (nonlinear_arith);
    assert((4 * q) * (4 * q) == 16 * (r * r) * (e * e)) by (nonlinear_arith)
        requires q == abs(r) * e;
    assert(c * 1024 <= 4 * q) by (nonlinear_arith)
        requires (c * 1024) * (c * 1024) <= (4 * q) * (4 * q), c >= 0, q >= 0;
    assert(c <= 4 * q / 1024) by (nonlinear_arith)
        requires c * 1024 <= 4 * q, c >= 0, q >= 0;
}

/// A boundary within the radius lies at most one radius away.
proof fn lemma_within_radius(s: RayWalk, a: AxisWalk)
    requires
        a.d * a.d <= s.norm2,
        a.d != 0,
        a.n > 0,
        !beyond_radius(s, a),
    ensures
        a.n <= s.ray.radius,
{
    let (n, m, r, d) = (a.n as int, s.norm2 as int, s.ray.radius as int, a.d as int);
    assert(n * n * m <= r * r * (d * d));
    assert(d * d >= 1) by (nonlinear_arith)
        requires d != 0;
    assert(r * r * (d * d) <= r * r * m) by (nonlinear_arith)
        requires d * d <= m, r >= 0;
    assert(n * n <= r * r) by (nonlinear_arith)
        requires n * n * m <= r * r * m, m >= 1;
    assert(n <= r) by (nonlinear_arith)
        requires n * n <= r * r, n > 0, r >= 0;
}

/// The axis chosen for the next step is one the ray travels along.
proof fn lemma_next_axis_moves(s: RayWalk)
    requires
        !(s.x.d == 0 && s.y.d == 0 && s.z.d == 0),
    ensures
        0 <= next_axis(s) <= 2,
        axis_of(s, next_axis(s)).d != 0,
{
}

fn abs_exec(v: i64) -> (r: i64)
    requires
        v > i64::MIN,
    ensures
        r == abs(v as int),
{
    if v < 0 {
        -v
    } else {
        v
    }
}

fn not_later_exec(a: AxisWalk, b: AxisWalk, lim: i64) -> (r: bool)
    requires
        0 < a.n <= lim,
        0 < b.n <= lim,
        lim <= RADIUS_LIMIT + SUBVOXEL,
        abs(a.d as int) <= DIRECTION_LIMIT,
        abs(b.d as int) <= DIRECTION_LIMIT,
    ensures
        r == not_later(a, b),
{
    if a.d == 0 {
        return false;
    }
    if b.d == 0 {
        return true;
    }
    let da = abs_exec(a.d) as i128;
    let db = abs_exec(b.d) as i128;
    proof {
        lemma_mul_le(a.n as int, db as int, RADIUS_LIMIT + SUBVOXEL, DIRECTION_LIMIT as int);
        lemma_mul_le(b.n as int, da as int, RADIUS_LIMIT + SUBVOXEL, DIRECTION_LIMIT as int);
    }
    (a.n as i128) * db <= (b.n as i128) * da
}

fn axis_start_exec(o: i64, d: i64) -> (r: AxisWalk)
    requires
        abs(o as int) <= ORIGIN_LIMIT,
        abs(d as int) <= DIRECTION_LIMIT,
    ensures
        r == axis_start(o as int, d as int),
        0 < r.n <= SUBVOXEL,
{
    let shifted: u64 = (o + ORIGIN_LIMIT) as u64;
    let voxel: i64 = (shifted / 1024) as i64 - ORIGIN_LIMIT / 1024;
    let n: i64 = if d < 0 {
        let neg: u64 = (ORIGIN_LIMIT - o) as u64;
        proof {
            assert((ORIGIN_LIMIT - o) % 1024 == (-o) % 1024) by (nonlinear_arith);
        }
        1024 - (neg % 1024) as i64
    } else {
        1024 - (shifted % 1024) as i64
    };
    proof {
        assert((o + ORIGIN_LIMIT) / 1024 == o / 1024 + ORIGIN_LIMIT / 1024) by (nonlinear_arith);
        assert((o + ORIGIN_LIMIT) % 1024 == o % 1024) by (nonlinear_arith);
    }
    AxisWalk { d, n, voxel }
}

impl RayWalk {
    /// The traversal state before the first occupancy test; `None` for a zero direction.
    pub fn start(ray: &Ray) -> (r: Option<RayWalk>)
        requires
            ray_ok(*ray),
        ensures
            r.is_none() <==> (ray.direction.x == 0 && ray.direction.y == 0 && ray.direction.z
                == 0),
            r.is_some() ==> r.unwrap() == walk_start(*ray) && walk_ok(r.unwrap()),
    {
        let d = ray.direction;
        if d.x == 0 && d.y == 0 && d.z == 0 {
            return None;
        }
        let x = axis_start_exec(ray.origin.x, d.x);
        let y = axis_start_exec(ray.origin.y, d.y);
        let z = axis_start_exec(ray.origin.z, d.z);
        proof {
            lemma_mul_le(abs(d.x as int), abs(d.x as int), DIRECTION_LIMIT as int, DIRECTION_LIMIT as int);
            lemma_mul_le(abs(d.y as int), abs(d.y as int), DIRECTION_LIMIT as int, DIRECTION_LIMIT as int);
            lemma_mul_le(abs(d.z as int), abs(d.z as int), DIRECTION_LIMIT as int, DIRECTION_LIMIT as int);
            assert(abs(d.x as int) * abs(d.x as int) == d.x * d.x) by (nonlinear_arith);
            assert(abs(d.y as int) * abs(d.y as int) == d.y * d.y) by (nonlinear_arith);
            assert(abs(d.z as int) * abs(d.z as int) == d.z * d.z) by (nonlinear_arith);
            lemma_reach_bounds(*ray);
        }
        let dx = d.x as i128;
        let dy = d.y as i128;
        let dz = d.z as i128;
        let norm2 = dx * dx + dy * dy + dz * dz;
        proof {
            let rad = ray.radius as int;
            assert(0 * 0 * (norm2 as int) <= rad * rad * (1 * 1)) by (nonlinear_arith);
        }
        Some(
            RayWalk {
                x,
                y,
                z,
                norm2,
                ray: *ray,
                face: Vec3i { x: 0, y: 0, z: 0 },
                last_n: 0,
                last_d: 1,
                counter: 0,
            },
        )
    }

    /// Whether the step counter has passed its cap.
    pub fn is_capped(&self) -> (r: bool)
        requires
            walk_ok(*self),
        ensures
            r == capped(*self),
    {
        let c = self.counter as i128;
        let rad = self.ray.radius as i128;
        let den = self.ray.direction_den as i128;
        proof {
            lemma_reach_bounds(self.ray);
            let ra = abs(rad as int);
            lemma_mul_le(ra, ra, RADIUS_LIMIT as int, RADIUS_LIMIT as int);
            assert(ra * ra == rad * rad) by (nonlinear_arith) requires ra == abs(rad as int);
            lemma_mul_le(den as int, den as int, 1024, 1024);
            lemma_mul_le(rad * rad, den * den, RADIUS_LIMIT * RADIUS_LIMIT, 1048576int);
            assert(16 * (rad * rad) * (den * den) == 16 * ((rad * rad) * (den * den))) by (nonlinear_arith);
            let (dx, dy, dz) = (self.x.d as int, self.y.d as int, self.z.d as int);
            let lim = DIRECTION_LIMIT as int;
            lemma_mul_le(abs(dx), abs(dx), lim, lim);
            lemma_mul_le(abs(dy), abs(dy), lim, lim);
            lemma_mul_le(abs(dz), abs(dz), lim, lim);
            assert(abs(dx) * abs(dx) == dx * dx) by (nonlinear_arith);
            assert(abs(dy) * abs(dy) == dy * dy) by (nonlinear_arith);
            assert(abs(dz) * abs(dz) == dz * dz) by (nonlinear_arith);
            let big: int = 0x100_0001;
            let ci = c as int;
            lemma_mul_le(ci, ci, big, big);
            lemma_mul_le(ci * ci, 1048576int, big * big, 1048576int);
            lemma_mul_le(
                ci * ci * (1024 * 1024),
                self.norm2 as int,
                big * big * (1024 * 1024),
                3 * (lim * lim),
            );
        }
        c * c * (1024 * 1024) * self.norm2 > 16 * (rad * rad) * (den * den)
    }

    /// The voxel to be tested next.
    pub fn voxel(&self) -> (r: WorldPos)
        requires
            walk_ok(*self),
        ensures
            r == walk_voxel(*self),
    {
        proof {
            lemma_voxel_fits(*self);
        }
        WorldPos { x: self.x.voxel as i32, y: self.y.voxel as i32, z: self.z.voxel as i32 }
    }

    /// What the traversal reports when the voxel to be tested next is solid.
    pub fn hit(&self) -> (r: RayHit)
        requires
            walk_ok(*self),
        ensures
            r == hit_of(*self),
    {
        let w = self.voxel();
        RayHit {
            chunk: to_chunk(w),
            relative: to_relative(w),
            voxel: w,
            face: self.face,
            distance_num: self.last_n,
            distance_den: self.last_d,
        }
    }

    /// Steps across the nearest boundary; `None` when that boundary lies beyond the radius.
    pub fn advance(&self) -> (r: Option<RayWalk>)
        requires
            walk_ok(*self),
            !capped(*self),
        ensures
            r == advance_spec(*self),
            r.is_some() ==> walk_ok(r.unwrap()),
    {
        let lim = abs_exec(self.ray.radius) + SUBVOXEL;
        proof {
            lemma_next_axis_moves(*self);
            assert(self.norm2 >= 1) by (nonlinear_arith)
                requires
                    self.norm2 == self.x.d * self.x.d + self.y.d * self.y.d + self.z.d * self.z.d,
                    !(self.x.d == 0 && self.y.d == 0 && self.z.d == 0);
            lemma_uncapped_bound(*self);
        }
        let k: u8 = if not_later_exec(self.x, self.y, lim) && not_later_exec(self.x, self.z, lim) {
            0
        } else if not_later_exec(self.y, self.z, lim) {
            1
        } else {
            2
        };
        let a = if k == 0 {
            self.x
        } else if k == 1 {
            self.y
        } else {
            self.z
        };
        assert(a == axis_of(*self, next_axis(*self)));
        if self.beyond(a) {
            return None;
        }
        proof {
            let (dx, dy, dz) = (self.x.d as int, self.y.d as int, self.z.d as int);
            assert(a.d * a.d <= self.norm2) by (nonlinear_arith)
                requires
                    self.norm2 == dx * dx + dy * dy + dz * dz,
                    a.d == dx || a.d == dy || a.d == dz;
            lemma_within_radius(*self, a);
            assert(abs(a.d as int) * abs(a.d as int) == a.d * a.d) by (nonlinear_arith);
        }
        let sg: i64 = if a.d < 0 {
            -1
        } else {
            1
        };
        let stepped = AxisWalk { d: a.d, n: a.n + SUBVOXEL, voxel: a.voxel + sg };
        let f = -sg;
        let next = RayWalk {
            x: if k == 0 {
                stepped
            } else {
                self.x
            },
            y: if k == 1 {
                stepped
            } else {
                self.y
            },
            z: if k == 2 {
                stepped
            } else {
                self.z
            },
            ray: self.ray,
            norm2: self.norm2,
            face: Vec3i {
                x: if k == 0 {
                    f
                } else {
                    0
                },
                y: if k == 1 {
                    f
                } else {
                    0
                },
                z: if k == 2 {
                    f
                } else {
                    0
                },
            },
            last_n: a.n,
            last_d: abs_exec(a.d),
            counter: self.counter + 1,
        };
        Some(next)
    }

    fn beyond(&self, a: AxisWalk) -> (r: bool)
        requires
            walk_ok(*self),
            a == self.x || a == self.y || a == self.z,
        ensures
            r == beyond_radius(*self, a),
    {
        let n = a.n as i128;
        let d = a.d as i128;
        let rad = self.ray.radius as i128;
        if rad < 0 {
            return true;
        }
        proof {
            let (dx, dy, dz) = (self.x.d as int, self.y.d as int, self.z.d as int);
            let lim = DIRECTION_LIMIT as int;
            let nl = RADIUS_LIMIT + SUBVOXEL;
            lemma_mul_le(abs(dx), abs(dx), lim, lim);
            lemma_mul_le(abs(dy), abs(dy), lim, lim);
            lemma_mul_le(abs(dz), abs(dz), lim, lim);
            assert(abs(dx) * abs(dx) == dx * dx) by (nonlinear_arith);
            assert(abs(dy) * abs(dy) == dy * dy) by (nonlinear_arith);
            assert(abs(dz) * abs(dz) == dz * dz) by (nonlinear_arith);
            assert(abs(d as int) * abs(d as int) == d * d) by (nonlinear_arith);
            lemma_mul_le(abs(d as int), abs(d as int), lim, lim);
            assert(0 < a.n <= nl);
            lemma_mul_le(n as int, n as int, nl, nl);
            assert(n * n <= 0x1_0000_0400 * 0x1_0000_0400);
            assert(0 <= n * n * self.norm2 <= 0x1_0000_0400 * 0x1_0000_0400 * 0x300_0000_0000) by (nonlinear_arith)
                requires 0 <= n * n <= 0x1_0000_0400 * 0x1_0000_0400, 0 <= self.norm2 <= 0x300_0000_0000;
            lemma_mul_le(n * n, self.norm2 as int, nl * nl, 3 * (lim * lim));
            lemma_mul_le(rad as int, rad as int, RADIUS_LIMIT as int, RADIUS_LIMIT as int);
            lemma_mul_le(rad * rad, d * d, RADIUS_LIMIT * RADIUS_LIMIT, lim * lim);
        }
        n * n * self.norm2 > rad * rad * (d * d)
    }
}

/// The voxel coordinates of a traversal state fit in a world position.
proof fn lemma_voxel_fits(s: RayWalk)
    requires
        walk_ok(s),
    ensures
        i32::MIN <= s.x.voxel <= i32::MAX,
        i32::MIN <= s.y.voxel <= i32::MAX,
        i32::MIN <= s.z.voxel <= i32::MAX,
{
    lemma_reach_bounds(s.ray);
    assert(forall|o: int| -ORIGIN_LIMIT <= o <= ORIGIN_LIMIT ==> -0x4000_0000 <= #[trigger] (o / 1024) <= 0x4000_0000) by {
        assert forall|o: int| -ORIGIN_LIMIT <= o <= ORIGIN_LIMIT implies -0x4000_0000 <= #[trigger] (o / 1024) <= 0x4000_0000 by {
            assert(-0x4000_0000 <= o / 1024 <= 0x4000_0000) by (nonlinear_arith)
                requires -0x100_0000_0000 <= o <= 0x100_0000_0000;
        }
    }
}

proof fn lemma_reach_bounds(r: Ray)
    requires
        ray_ok(r),
    ensures
        0 <= reach(r) <= RADIUS_LIMIT,
        0 <= 4 * reach(r) / 1024 <= 0x100_0000,
{
    let q = reach(r);
    assert(q >= 0) by (nonlinear_arith)
        requires q == abs(r.radius as int) * r.direction_den, r.direction_den >= 1;
    assert(0 <= 4 * q / 1024 <= 0x100_0000) by (nonlinear_arith)
        requires 0 <= q <= 0x1_0000_0000;
}

/// The direction of a well-formed traversal is non-zero.
proof fn lemma_norm_positive(s: RayWalk)
    requires
        walk_ok(s),
    ensures
        s.norm2 >= 1,
{
    assert(s.norm2 >= 1) by (nonlinear_arith)
        requires
            s.norm2 == s.x.d * s.x.d + s.y.d * s.y.d + s.z.d * s.z.d,
            !(s.x.d == 0 && s.y.d == 0 && s.z.d == 0);
}

impl VoxelLevel {
    /// Whether the voxel at `w` stops a ray.
    pub fn is_solid(&self, w: WorldPos) -> (r: bool)
        requires
            self.wf(),
        ensures
            r == solid(*self, w),
    {
        match self.get_voxel(w) {
            Some(v) => !v.is_empty(),
            None => false,
        }
    }

    /// The first solid voxel along `ray`, or `None` when there is none within its reach.
    pub fn raycast(&self, ray: &Ray) -> (r: Option<RayHit>)
        requires
            self.wf(),
            ray_ok(*ray),
        ensures
            r == raycast_spec(*self, *ray),
            (ray.direction.x == 0 && ray.direction.y == 0 && ray.direction.z == 0) ==> r.is_none(),
            r.is_some() ==> solid(*self, r.unwrap().voxel),
            r.is_some() ==> hit_within_radius(*ray, r.unwrap()),
    {
        let occupied = |w: WorldPos| -> (b: bool)
            requires
                self.wf(),
            ensures
                b == solid(*self, w),
            { self.is_solid(w) };
        let r = raycast_world(ray, occupied);
        proof {
            let occ = |w: WorldPos| solid(*self, w);
            assert(decides(occupied, occ));
        }
        r
    }
}

/// The first voxel along `ray` for which `block_callback` answers `true`, traversed as
/// `raycast_by` describes; `None` for a zero direction or when the traversal ends first.
pub fn raycast_world<F: Fn(WorldPos) -> bool>(ray: &Ray, block_callback: F) -> (r: Option<RayHit>)
    requires
        ray_ok(*ray),
        forall|w: WorldPos| block_callback.requires((w,)),
    ensures
        forall|occ: spec_fn(WorldPos) -> bool|
            #[trigger] decides(block_callback, occ) ==> r == raycast_by(occ, *ray),
        (ray.direction.x == 0 && ray.direction.y == 0 && ray.direction.z == 0) ==> r.is_none(),
        r.is_some() ==> block_callback.ensures((r.unwrap().voxel,), true),
        r.is_some() ==> hit_within_radius(*ray, r.unwrap()),
{
    let mut walk = match RayWalk::start(ray) {
        None => return None,
        Some(w) => w,
    };
    let ghost fuel0: int = walk_fuel(*ray) as int;
    loop
        invariant
            walk_ok(walk),
            walk.ray == *ray,
            !(ray.direction.x == 0 && ray.direction.y == 0 && ray.direction.z == 0),
            fuel0 == walk_fuel(*ray),
            walk.counter <= fuel0,
            forall|w: WorldPos| block_callback.requires((w,)),
            forall|occ: spec_fn(WorldPos) -> bool|
                #[trigger] decides(block_callback, occ) ==> walk_result_by(
                    occ,
                    walk,
                    (fuel0 - walk.counter) as nat,
                ) == raycast_by(occ, *ray),
        decreases fuel0 - walk.counter,
    {
        proof {
            lemma_norm_positive(walk);
            lemma_reach_bounds(*ray);
        }
        if walk.is_capped() {
            return None;
        }
        proof {
            lemma_uncapped_bound(walk);
        }
        let w = walk.voxel();
        if block_callback(w) {
            let hit = walk.hit();
            return Some(hit);
        }
        match walk.advance() {
            None => return None,
            Some(t) => {
                walk = t;
            },
        }
    }
}

} // verus!
