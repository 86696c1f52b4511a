use vstd::prelude::*;

verus! {

/// Edge length of a chunk, in voxels.
pub const CHUNK_SIZE: u32 = 32;

/// A voxel position in world space; components may be negative.
#[derive(Clone, Copy, Debug, PartialEq, Eq, Structural)]
pub struct WorldPos {
    pub x: i32,
    pub y: i32,
    pub z: i32,
}

/// A chunk position in chunk space: world position divided by the chunk size, rounded down.
#[derive(Clone, Copy, Debug, PartialEq, Eq, Structural)]
pub struct ChunkPos {
    pub x: i32,
    pub y: i32,
    pub z: i32,
}

/// An unsigned triple: a level extent, a stored chunk coordinate, or a voxel position
/// relative to its chunk.
#[derive(Clone, Copy, Debug, PartialEq, Eq, Structural)]
pub struct GridPos {
    pub x: u32,
    pub y: u32,
    pub z: u32,
}

/// Floor division by the chunk size.
pub open spec fn floor_chunk(v: int) -> int {
    v / (CHUNK_SIZE as int)
}

/// Euclidean remainder by the chunk size.
pub open spec fn mod_chunk(v: int) -> int {
    v % (CHUNK_SIZE as int)
}

/// Splits one world component into its chunk component and in-chunk offset.
fn split_component(v: i32) -> (r: (i32, u32))
    ensures
        r.0 == floor_chunk(v as int),
        r.1 == mod_chunk(v as int),
{
    // Shift by a multiple of the chunk size so that unsigned division rounds down.
    let u: u64 = (v as i64 + 2147483648i64) as u64;
    let q: u64 = u / 32;
    let m: u64 = u % 32;
    proof {
        assert((v as int + 2147483648) / 32 == v as int / 32 + 67108864) by (nonlinear_arith);
        assert((v as int + 2147483648) % 32 == v as int % 32) by (nonlinear_arith);
    }
    ((q as i64 - 67108864i64) as i32, m as u32)
}

/// The chunk that holds a world voxel: componentwise floor division by the chunk size.
pub fn to_chunk(pos: WorldPos) -> (r: ChunkPos)
    ensures
        r.x == floor_chunk(pos.x as int),
        r.y == floor_chunk(pos.y as int),
        r.z == floor_chunk(pos.z as int),
{
    ChunkPos { x: split_component(pos.x).0, y: split_component(pos.y).0, z: split_component(pos.z).0 }
}

/// The position of a world voxel inside its chunk: componentwise Euclidean remainder.
pub fn to_relative(pos: WorldPos) -> (r: GridPos)
    ensures
        r.x == mod_chunk(pos.x as int),
        r.y == mod_chunk(pos.y as int),
        r.z == mod_chunk(pos.z as int),
{
    GridPos { x: split_component(pos.x).1, y: split_component(pos.y).1, z: split_component(pos.z).1 }
}


/// Row-major flat index of `pos` in a grid of extent `size`: x varies fastest, then y, then z.
pub open spec fn linear_index(size: GridPos, pos: GridPos) -> int {
    pos.x + size.x * (pos.y + size.y * pos.z)
}

/// Number of cells in a grid of extent `size`.
pub open spec fn volume(size: GridPos) -> int {
    size.x * size.y * size.z
}

/// The grid position whose flat index is `i`.
pub open spec fn grid_pos_of(size: GridPos, i: int) -> GridPos {
    GridPos {
        x: (i % (size.x as int)) as u32,
        y: ((i / (size.x as int)) % (size.y as int)) as u32,
        z: (i / (size.x * size.y)) as u32,
    }
}

/// `pos` lies inside a grid of extent `size` on every axis.
pub open spec fn in_grid(size: GridPos, pos: GridPos) -> bool {
    pos.x < size.x && pos.y < size.y && pos.z < size.z
}

/// Flattens a grid position; positions outside the extent still get an index.
pub fn linearize(level_size: GridPos, pos: GridPos) -> (r: u128)
    ensures
        r == linear_index(level_size, pos),
{
    let sx = level_size.x as u128;
    let sy = level_size.y as u128;
    proof {
        let (px, py, pz, a, b) = (pos.x as int, pos.y as int, pos.z as int, sx as int, sy as int);
        assert(0 <= b * pz <= 0xffff_ffff * 0xffff_ffff) by (nonlinear_arith)
            requires 0 <= b <= 0xffff_ffff, 0 <= pz <= 0xffff_ffff;
        assert(0 <= a * (py + b * pz) <= 0xffff_ffff * (0xffff_ffff + 0xffff_ffff * 0xffff_ffff))
            by (nonlinear_arith)
            requires 0 <= a <= 0xffff_ffff, 0 <= py + b * pz <= 0xffff_ffff + 0xffff_ffff * 0xffff_ffff;
    }
    pos.x as u128 + sx * (pos.y as u128 + sy * pos.z as u128)
}

/// Inverse of `linearize` on indices below the grid's volume.
pub fn delinearize(level_size: GridPos, idx: u128) -> (r: GridPos)
    requires
        level_size.x > 0,
        level_size.y > 0,
        level_size.z > 0,
        idx < volume(level_size),
    ensures
        r == grid_pos_of(level_size, idx as int),
        in_grid(level_size, r),
{
    let sx = level_size.x as u128;
    let sy = level_size.y as u128;
    proof {
        lemma_grid_pos_in_grid(level_size, idx as int);
        assert(0 < sx * sy <= 0xffff_ffff * 0xffff_ffff) by (nonlinear_arith)
            requires 0 < sx <= 0xffff_ffff, 0 < sy <= 0xffff_ffff;
    }
    GridPos { x: (idx % sx) as u32, y: ((idx / sx) % sy) as u32, z: (idx / (sx * sy)) as u32 }
}

proof fn lemma_grid_pos_in_grid(size: GridPos, i: int)
    requires
        size.x > 0,
        size.y > 0,
        size.z > 0,
        0 <= i < volume(size),
    ensures
        0 <= i % (size.x as int) < size.x,
        0 <= (i / (size.x as int)) % (size.y as int) < size.y,
        0 <= i / (size.x * size.y) < size.z,
        i == linear_index(size, grid_pos_of(size, i)),
{
    let (a, b, c) = (size.x as int, size.y as int, size.z as int);
    assert(0 <= i / (a * b) < c) by (nonlinear_arith)
        requires a > 0, b > 0, c > 0, 0 <= i < a * b * c;
    assert(i == i % a + a * ((i / a) % b + b * (i / (a * b)))) by (nonlinear_arith)
        requires a > 0, b > 0, 0 <= i;
    assert(0 <= i % a < a) by (nonlinear_arith) requires a > 0;
    assert(0 <= (i / a) % b < b) by (nonlinear_arith) requires a > 0, b > 0, i >= 0;
}

/// Flattening then restoring gives back every flat index of the grid.
pub proof fn lemma_linearize_delinearize(size: GridPos, i: int)
    requires
        size.x > 0,
        size.y > 0,
        size.z > 0,
        0 <= i < volume(size),
    ensures
        in_grid(size, grid_pos_of(size, i)),
        linear_index(size, grid_pos_of(size, i)) == i,
{
    lemma_grid_pos_in_grid(size, i);
}

/// Every position inside the grid has a flat index below the volume, and restoring it gives
/// the position back.
pub proof fn lemma_delinearize_linearize(size: GridPos, pos: GridPos)
    requires
        in_grid(size, pos),
    ensures
        0 <= linear_index(size, pos) < volume(size),
        grid_pos_of(size, linear_index(size, pos)) == pos,
{
    let (a, b, c) = (size.x as int, size.y as int, size.z as int);
    let (x, y, z) = (pos.x as int, pos.y as int, pos.z as int);
    let i = x + a * (y + b * z);
    assert(0 <= y + b * z < b * c) by (nonlinear_arith)
        requires 0 <= y < b, 0 <= z < c;
    assert(0 <= i < a * (b * c)) by (nonlinear_arith)
        requires 0 <= x < a, 0 <= y + b * z < b * c, i == x + a * (y + b * z);
    assert(a * (b * c) == a * b * c) by (nonlinear_arith);
    assert(i % a == x && i / a == y + b * z) by (nonlinear_arith)
        requires 0 <= x < a, 0 <= y < b, 0 <= z, i == x + a * (y + b * z);
    assert((y + b * z) % b == y && (y + b * z) / b == z) by (nonlinear_arith)
        requires 0 <= y < b, 0 <= z;
    assert(i / (a * b) == z) by (nonlinear_arith)
        requires 0 <= x < a, 0 <= y < b, 0 <= z, i == x + a * (y + b * z);
}

/// A world voxel is its chunk's origin plus its offset inside the chunk, and the offset lies
/// in `[0, CHUNK_SIZE)` on every axis, negative components included.
pub proof fn lemma_chunk_relative_decomposition(w: WorldPos)
    ensures
        0 <= mod_chunk(w.x as int) < CHUNK_SIZE,
        0 <= mod_chunk(w.y as int) < CHUNK_SIZE,
        0 <= mod_chunk(w.z as int) < CHUNK_SIZE,
        floor_chunk(w.x as int) * CHUNK_SIZE + mod_chunk(w.x as int) == w.x,
        floor_chunk(w.y as int) * CHUNK_SIZE + mod_chunk(w.y as int) == w.y,
        floor_chunk(w.z as int) * CHUNK_SIZE + mod_chunk(w.z as int) == w.z,
{
}

} // verus!
