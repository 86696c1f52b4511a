use vstd::prelude::*;

use crate::chunk::{air_chunk, chunk_extent, voxel_index, ChunkData, Voxel, CHUNK_VOLUME};
use crate::textures::{AssetRegistry, FaceRects};
use crate::coords::{
    delinearize, floor_chunk, grid_pos_of, in_grid, lemma_delinearize_linearize,
    lemma_linearize_delinearize, linear_index, linearize, mod_chunk, to_chunk, to_relative,
    volume, ChunkPos, GridPos, WorldPos, CHUNK_SIZE,
};

verus! {

/// The stored chunk coordinate of a world voxel (meaningful when the voxel is in the extent).
pub open spec fn chunk_grid_pos(w: WorldPos) -> GridPos {
    GridPos {
        x: floor_chunk(w.x as int) as u32,
        y: floor_chunk(w.y as int) as u32,
        z: floor_chunk(w.z as int) as u32,
    }
}

/// The position of a world voxel inside its chunk.
pub open spec fn relative_pos(w: WorldPos) -> GridPos {
    GridPos {
        x: mod_chunk(w.x as int) as u32,
        y: mod_chunk(w.y as int) as u32,
        z: mod_chunk(w.z as int) as u32,
    }
}

/// The chunk of world voxel `w` exists in a level of extent `size` (counted in chunks).
pub open spec fn in_extent(size: GridPos, w: WorldPos) -> bool {
    &&& 0 <= floor_chunk(w.x as int) < size.x
    &&& 0 <= floor_chunk(w.y as int) < size.y
    &&& 0 <= floor_chunk(w.z as int) < size.z
}

/// A bounded grid of chunks; the chunk at stored coordinate `c` sits at
/// `linear_index(level_size, c)` of `loaded_chunks`.
pub struct VoxelLevel {
    /// Level size in chunks.
    pub level_size: GridPos,
    pub loaded_chunks: Vec<ChunkData>,
    /// Face rectangles of each block's textures in the atlas.
    pub asset_registry: AssetRegistry,
    /// Pixel bytes of the texture atlas, once built.
    pub texture_atlas: Option<Vec<u8>>,
}

impl VoxelLevel {
    /// One well-formed chunk per cell of the extent, and a registry without repeated names.
    pub open spec fn wf(&self) -> bool {
        &&& self.asset_registry.wf()
        &&& self.loaded_chunks@.len() == volume(self.level_size)
        &&& forall|i: int|
            0 <= i < self.loaded_chunks@.len() ==> (#[trigger] self.loaded_chunks@[i]).wf()
    }

    /// The voxel stored for world position `w`, or `None` outside the extent.
    pub open spec fn voxel_at(&self, w: WorldPos) -> Option<Voxel> {
        if in_extent(self.level_size, w) {
            Some(
                self.loaded_chunks@[linear_index(
                    self.level_size,
                    chunk_grid_pos(w),
                )]@[voxel_index(relative_pos(w))],
            )
        } else {
            None
        }
    }

    /// The chunk stored at chunk coordinate `c`, or `None` outside the extent.
    pub open spec fn chunk_at(&self, c: GridPos) -> Option<ChunkData> {
        if in_grid(self.level_size, c) {
            Some(self.loaded_chunks@[linear_index(self.level_size, c)])
        } else {
            None
        }
    }

    /// `after` is `self` with voxel `v` written at `pos`, when `pos` is in the extent.
    pub open spec fn sets_voxel(&self, after: VoxelLevel, pos: WorldPos, v: Voxel) -> bool {
        &&& after.level_size == self.level_size
        &&& after.wf()
        &&& after.asset_registry == self.asset_registry
        &&& after.texture_atlas == self.texture_atlas
        &&& forall|w: WorldPos|
            #[trigger] after.voxel_at(w) == if w == pos && in_extent(self.level_size, pos) {
                Some(v)
            } else {
                self.voxel_at(w)
            }
    }

    /// A level of the given extent with every chunk filled with air.
    pub fn new(level_size: GridPos) -> (r: VoxelLevel)
        requires
            volume(level_size) <= usize::MAX,
        ensures
            r.wf(),
            r.level_size == level_size,
            r.texture_atlas.is_none(),
            r.asset_registry.texture_map() == Map::<Seq<char>, FaceRects>::empty(),
            forall|w: WorldPos|
                in_extent(level_size, w) ==> #[trigger] r.voxel_at(w) == Some(Voxel { id: 0 }),
    {
        proof {
            let (a, b, c) = (level_size.x as int, level_size.y as int, level_size.z as int);
            assert(0 <= a * b <= 0xffff_ffff * 0xffff_ffff) by (nonlinear_arith)
                requires 0 <= a <= 0xffff_ffff, 0 <= b <= 0xffff_ffff;
            assert(0 <= a * b * c <= 0xffff_ffff * 0xffff_ffff * 0xffff_ffff) by (nonlinear_arith)
                requires 0 <= a * b <= 0xffff_ffff * 0xffff_ffff, 0 <= c <= 0xffff_ffff;
        }
        let n128 = level_size.x as u128 * level_size.y as u128 * level_size.z as u128;
        let n = n128 as usize;
        let mut loaded_chunks: Vec<ChunkData> = Vec::new();
        while loaded_chunks.len() < n
            invariant
                n == volume(level_size),
                loaded_chunks@.len() <= n,
                forall|i: int|
                    0 <= i < loaded_chunks@.len() ==> (#[trigger] loaded_chunks@[i])@
                        == air_chunk(),
            decreases n - loaded_chunks@.len(),
        {
            loaded_chunks.push(ChunkData::new());
        }
        let r = VoxelLevel {
            level_size,
            loaded_chunks,
            asset_registry: AssetRegistry::new(),
            texture_atlas: None,
        };
        assert forall|w: WorldPos| in_extent(level_size, w) implies #[trigger] r.voxel_at(w) == Some(
            Voxel { id: 0 },
        ) by {
            lemma_world_slot(level_size, w);
        }
        r
    }

    /// Whether the level is well formed: one complete chunk per cell of the extent and no
    /// block name repeated in the registry.
    pub fn is_well_formed(&self) -> (r: bool)
        ensures
            r == self.wf(),
    {
        let size = self.level_size;
        proof {
            let (a, b, c) = (size.x as int, size.y as int, size.z as int);
            assert(0 <= a * b <= 0xffff_ffff * 0xffff_ffff) by (nonlinear_arith)
                requires 0 <= a <= 0xffff_ffff, 0 <= b <= 0xffff_ffff;
            assert(0 <= a * b * c <= 0xffff_ffff * 0xffff_ffff * 0xffff_ffff) by (nonlinear_arith)
                requires 0 <= a * b <= 0xffff_ffff * 0xffff_ffff, 0 <= c <= 0xffff_ffff;
        }
        let expected = size.x as u128 * size.y as u128 * size.z as u128;
        if self.loaded_chunks.len() as u128 != expected {
            return false;
        }
        if !self.asset_registry.names_are_unique() {
            return false;
        }
        let mut i: usize = 0;
        while i < self.loaded_chunks.len()
            invariant
                i <= self.loaded_chunks@.len(),
                forall|j: int| 0 <= j < i ==> (#[trigger] self.loaded_chunks@[j]).wf(),
            decreases self.loaded_chunks@.len() - i,
        {
            if !self.loaded_chunks[i].is_complete() {
                return false;
            }
            i += 1;
        }
        true
    }

    /// Row-major index of a chunk coordinate in this level.
    pub fn linearize(&self, pos: GridPos) -> (r: u128)
        ensures
            r == linear_index(self.level_size, pos),
    {
        linearize(self.level_size, pos)
    }

    /// The chunk coordinate stored at flat index `idx`.
    pub fn delinearize(&self, idx: usize) -> (r: GridPos)
        requires
            self.wf(),
            idx < self.loaded_chunks@.len(),
        ensures
            r == grid_pos_of(self.level_size, idx as int),
            in_grid(self.level_size, r),
            linear_index(self.level_size, r) == idx,
    {
        proof {
            lemma_volume_positive(self.level_size, idx as int);
            lemma_linearize_delinearize(self.level_size, idx as int);
        }
        delinearize(self.level_size, idx as u128)
    }

    /// Bounds-checked slot of a stored chunk coordinate.
    fn chunk_slot(&self, c: GridPos) -> (r: Option<usize>)
        requires
            self.wf(),
        ensures
            r.is_some() <==> in_grid(self.level_size, c),
            r.is_some() ==> r.unwrap() == linear_index(self.level_size, c) && r.unwrap()
                < self.loaded_chunks@.len(),
    {
        if c.x < self.level_size.x && c.y < self.level_size.y && c.z < self.level_size.z {
            let n = self.loaded_chunks.len();
            proof {
                lemma_delinearize_linearize(self.level_size, c);
            }
            let i = linearize(self.level_size, c);
            assert(i < n);
            Some(i as usize)
        } else {
            None
        }
    }

    /// Stored chunk coordinate and in-chunk position of a world voxel; `None` when the voxel
    /// has a negative chunk coordinate.
    fn locate(pos: WorldPos) -> (r: Option<(GridPos, GridPos)>)
        ensures
            r.is_some() <==> (floor_chunk(pos.x as int) >= 0 && floor_chunk(pos.y as int) >= 0
                && floor_chunk(pos.z as int) >= 0),
            r.is_some() ==> r.unwrap().0 == chunk_grid_pos(pos) && r.unwrap().1 == relative_pos(
                pos,
            ),
            r.is_some() ==> in_grid(chunk_extent(), r.unwrap().1),
    {
        proof {
            crate::coords::lemma_chunk_relative_decomposition(pos);
        }
        let c = to_chunk(pos);
        let rel = to_relative(pos);
        if c.x < 0 || c.y < 0 || c.z < 0 {
            None
        } else {
            Some((GridPos { x: c.x as u32, y: c.y as u32, z: c.z as u32 }, rel))
        }
    }

    /// The voxel at a world position, or `None` outside the level's extent.
    pub fn get_voxel(&self, voxel_pos: WorldPos) -> (r: Option<Voxel>)
        requires
            self.wf(),
        ensures
            r == self.voxel_at(voxel_pos),
    {
        match Self::locate(voxel_pos) {
            None => None,
            Some((c, rel)) => match self.chunk_slot(c) {
                None => None,
                Some(i) => Some(self.loaded_chunks[i].get(rel)),
            },
        }
    }

    /// Writes a voxel at a world position; a position outside the extent is ignored.
    pub fn set_voxel(&mut self, voxel_pos: WorldPos, voxel: Voxel)
        requires
            old(self).wf(),
        ensures
            old(self).sets_voxel(*final(self), voxel_pos, voxel),
    {
        let ghost before = *self;
        match Self::locate(voxel_pos) {
            None => {},
            Some((c, rel)) => match self.chunk_slot(c) {
                None => {},
                Some(i) => {
                    self.loaded_chunks[i].set(rel, voxel);
                },
            },
        }
        assert forall|w: WorldPos| #[trigger] self.voxel_at(w) == if w == voxel_pos && in_extent(
            before.level_size,
            voxel_pos,
        ) {
            Some(voxel)
        } else {
            before.voxel_at(w)
        } by {
            if in_extent(before.level_size, w) {
                lemma_world_slot(before.level_size, w);
            }
            if in_extent(before.level_size, voxel_pos) {
                lemma_world_slot(before.level_size, voxel_pos);
                if in_extent(before.level_size, w) && w != voxel_pos {
                    lemma_world_slot_unique(before.level_size, w, voxel_pos);
                }
            }
        }
    }

    /// The chunk at a chunk coordinate, or `None` outside the extent.
    pub fn get_chunk(&self, chunk_pos: GridPos) -> (r: Option<&ChunkData>)
        requires
            self.wf(),
        ensures
            r.is_some() == self.chunk_at(chunk_pos).is_some(),
            r.is_some() ==> *r.unwrap() == self.chunk_at(chunk_pos).unwrap(),
    {
        match self.chunk_slot(chunk_pos) {
            None => None,
            Some(i) => Some(&self.loaded_chunks[i]),
        }
    }
}

impl VoxelLevel {
    /// One of the 26 neighbours of `c`, with its sign check and its bounds check.
    fn neighbor_at(&self, c: GridPos, j: usize) -> (r: Option<GridPos>)
        requires
            self.wf(),
            j < 26,
        ensures
            r == neighbor_pos(self.level_size, c, j as int),
    {
        let k: usize = if j < 13 {
            j
        } else {
            j + 1
        };
        let x: i64 = c.x as i64 + (k % 3) as i64 - 1;
        let y: i64 = c.y as i64 + ((k / 3) % 3) as i64 - 1;
        let z: i64 = c.z as i64 + (k / 9) as i64 - 1;
        if x < 0 || y < 0 || z < 0 {
            return None;
        }
        if x > u32::MAX as i64 || y > u32::MAX as i64 || z > u32::MAX as i64 {
            return None;
        }
        let g = GridPos { x: x as u32, y: y as u32, z: z as u32 };
        match self.chunk_slot(g) {
            Some(_) => Some(g),
            None => None,
        }
    }

    /// The coordinates of the 26 neighbouring chunks of `chunk_pos`, `None` where a neighbour
    /// lies outside the level.
    pub fn get_chunk_neighbors_pos(&self, chunk_pos: GridPos) -> (r: Vec<Option<GridPos>>)
        requires
            self.wf(),
        ensures
            r@.len() == 26,
            forall|j: int| 0 <= j < 26 ==> #[trigger] r@[j] == neighbor_pos(self.level_size, chunk_pos, j),
    {
        let mut out: Vec<Option<GridPos>> = Vec::with_capacity(26);
        let mut j: usize = 0;
        while j < 26
            invariant
                self.wf(),
                j <= 26,
                out@.len() == j,
                forall|i: int| 0 <= i < j ==> #[trigger] out@[i] == neighbor_pos(self.level_size, chunk_pos, i),
            decreases 26 - j,
        {
            out.push(self.neighbor_at(chunk_pos, j));
            j += 1;
        }
        out
    }

    /// Copies of the 26 neighbouring chunks of `chunk_pos`, an air chunk where a neighbour
    /// lies outside the level.
    pub fn get_chunk_neighbors_cloned(&self, chunk_pos: GridPos) -> (r: Vec<ChunkData>)
        requires
            self.wf(),
        ensures
            r@.len() == 26,
            forall|j: int|
                0 <= j < 26 ==> (#[trigger] r@[j])@ == match neighbor_pos(self.level_size, chunk_pos, j) {
                    Some(g) => self.chunk_at(g).unwrap()@,
                    None => air_chunk(),
                },
    {
        let mut out: Vec<ChunkData> = Vec::with_capacity(26);
        let mut j: usize = 0;
        while j < 26
            invariant
                self.wf(),
                j <= 26,
                out@.len() == j,
                forall|i: int|
                    0 <= i < j ==> (#[trigger] out@[i])@ == match neighbor_pos(self.level_size, chunk_pos, i) {
                        Some(g) => self.chunk_at(g).unwrap()@,
                        None => air_chunk(),
                    },
            decreases 26 - j,
        {
            let chunk = match self.neighbor_at(chunk_pos, j) {
                Some(g) => match self.get_chunk(g) {
                    Some(c) => c.copy(),
                    None => ChunkData::new(),
                },
                None => ChunkData::new(),
            };
            out.push(chunk);
            j += 1;
        }
        out
    }
}

proof fn lemma_volume_positive(size: GridPos, i: int)
    requires
        0 <= i < volume(size),
    ensures
        size.x > 0 && size.y > 0 && size.z > 0,
{
    let (a, b, c) = (size.x as int, size.y as int, size.z as int);
    assert(a > 0 && b > 0 && c > 0) by (nonlinear_arith)
        requires 0 <= a, 0 <= b, 0 <= c, 0 <= i < a * b * c;
}

/// Two distinct in-extent world voxels never share both their chunk slot and voxel slot.
proof fn lemma_world_slot_unique(size: GridPos, w1: WorldPos, w2: WorldPos)
    requires
        in_extent(size, w1),
        in_extent(size, w2),
        w1 != w2,
    ensures
        linear_index(size, chunk_grid_pos(w1)) != linear_index(size, chunk_grid_pos(w2))
            || voxel_index(relative_pos(w1)) != voxel_index(relative_pos(w2)),
{
    crate::coords::lemma_chunk_relative_decomposition(w1);
    crate::coords::lemma_chunk_relative_decomposition(w2);
    lemma_delinearize_linearize(size, chunk_grid_pos(w1));
    lemma_delinearize_linearize(size, chunk_grid_pos(w2));
    lemma_delinearize_linearize(chunk_extent(), relative_pos(w1));
    lemma_delinearize_linearize(chunk_extent(), relative_pos(w2));
}

/// Offset of the `j`-th of the 26 neighbours: z varies slowest, then y, then x, and the
/// centre `(0, 0, 0)` is skipped.
pub open spec fn neighbor_offset(j: int) -> (int, int, int) {
    let k = if j < 13 {
        j
    } else {
        j + 1
    };
    (k % 3 - 1, (k / 3) % 3 - 1, k / 9 - 1)
}

/// The `j`-th neighbour of chunk `c` when it exists in a level of extent `size`.
pub open spec fn neighbor_pos(size: GridPos, c: GridPos, j: int) -> Option<GridPos> {
    let (dx, dy, dz) = neighbor_offset(j);
    let (x, y, z) = (c.x + dx, c.y + dy, c.z + dz);
    if 0 <= x < size.x && 0 <= y < size.y && 0 <= z < size.z {
        Some(GridPos { x: x as u32, y: y as u32, z: z as u32 })
    } else {
        None
    }
}

/// Writing a voxel inside the extent and reading it back gives the written voxel; reading
/// outside the extent gives nothing, whatever was written there.
pub proof fn lemma_set_then_get(before: VoxelLevel, after: VoxelLevel, pos: WorldPos, v: Voxel)
    requires
        before.wf(),
        before.sets_voxel(after, pos, v),
    ensures
        in_extent(before.level_size, pos) ==> after.voxel_at(pos) == Some(v),
        forall|w: WorldPos| !in_extent(before.level_size, w) ==> #[trigger] after.voxel_at(w).is_none(),
{
    assert(after.voxel_at(pos) == if in_extent(before.level_size, pos) {
        Some(v)
    } else {
        before.voxel_at(pos)
    });
}

/// The world position of the voxel at `rel` inside stored chunk `c`.
pub open spec fn world_of(c: GridPos, rel: GridPos) -> WorldPos {
    WorldPos {
        x: (c.x * CHUNK_SIZE + rel.x) as i32,
        y: (c.y * CHUNK_SIZE + rel.y) as i32,
        z: (c.z * CHUNK_SIZE + rel.z) as i32,
    }
}

/// The chunk stored at `c` holds, at each in-chunk position, the level's voxel at the
/// matching world position.
pub proof fn lemma_chunk_at_voxels(level: VoxelLevel, c: GridPos, rel: GridPos)
    requires
        level.wf(),
        in_grid(level.level_size, c),
        in_grid(chunk_extent(), rel),
        c.x * CHUNK_SIZE + rel.x <= i32::MAX,
        c.y * CHUNK_SIZE + rel.y <= i32::MAX,
        c.z * CHUNK_SIZE + rel.z <= i32::MAX,
    ensures
        in_extent(level.level_size, world_of(c, rel)),
        level.voxel_at(world_of(c, rel)) == Some(level.chunk_at(c).unwrap()@[voxel_index(rel)]),
{
    let w = world_of(c, rel);
    let (cx, cy, cz) = (c.x as int, c.y as int, c.z as int);
    let (rx, ry, rz) = (rel.x as int, rel.y as int, rel.z as int);
    assert((cx * 32 + rx) / 32 == cx && (cx * 32 + rx) % 32 == rx) by (nonlinear_arith)
        requires 0 <= rx < 32, cx >= 0;
    assert((cy * 32 + ry) / 32 == cy && (cy * 32 + ry) % 32 == ry) by (nonlinear_arith)
        requires 0 <= ry < 32, cy >= 0;
    assert((cz * 32 + rz) / 32 == cz && (cz * 32 + rz) % 32 == rz) by (nonlinear_arith)
        requires 0 <= rz < 32, cz >= 0;
    assert(chunk_grid_pos(w) == c);
    assert(relative_pos(w) == rel);
}

/// An in-extent world voxel maps to a valid chunk slot and a valid voxel slot.
pub proof fn lemma_world_slot(size: GridPos, w: WorldPos)
    requires
        in_extent(size, w),
    ensures
        in_grid(size, chunk_grid_pos(w)),
        0 <= linear_index(size, chunk_grid_pos(w)) < volume(size),
        in_grid(chunk_extent(), relative_pos(w)),
        0 <= voxel_index(relative_pos(w)) < CHUNK_VOLUME,
{
    lemma_delinearize_linearize(size, chunk_grid_pos(w));
    lemma_delinearize_linearize(chunk_extent(), relative_pos(w));
}

} // verus!
