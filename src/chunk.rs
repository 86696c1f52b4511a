use vstd::prelude::*;

use crate::copying::copy_all;
use crate::coords::{in_grid, linear_index, GridPos, CHUNK_SIZE};

verus! {

/// Number of voxels in one chunk.
pub const CHUNK_VOLUME: usize = 32768;

/// The extent of a chunk, in voxels.
pub open spec fn chunk_extent() -> GridPos {
    GridPos { x: CHUNK_SIZE, y: CHUNK_SIZE, z: CHUNK_SIZE }
}

/// Slot of a chunk-relative position in a chunk's voxel sequence.
pub open spec fn voxel_index(rel: GridPos) -> int {
    linear_index(chunk_extent(), rel)
}

/// The voxels of a chunk filled with air.
pub open spec fn air_chunk() -> Seq<Voxel> {
    Seq::new(CHUNK_VOLUME as nat, |i: int| Voxel { id: 0 })
}

/// A single cell of the world, holding a block id; id 0 is air.
#[derive(Clone, Copy, Debug, PartialEq, Eq, Structural)]
pub struct Voxel {
    pub id: u16,
}

impl Voxel {
    /// The empty voxel.
    pub fn air() -> (r: Voxel)
        ensures
            r.id == 0,
    {
        Voxel { id: 0 }
    }

    /// A voxel is empty when it holds air.
    pub fn is_empty(&self) -> (r: bool)
        ensures
            r == (self.id == 0),
    {
        self.id == 0
    }
}

/// A dense cube of `CHUNK_SIZE`³ voxels, stored x fastest, then y, then z.
#[derive(Debug)]
pub struct ChunkData {
    voxels: Vec<Voxel>,
}

impl View for ChunkData {
    type V = Seq<Voxel>;

    closed spec fn view(&self) -> Seq<Voxel> {
        self.voxels@
    }
}

proof fn lemma_voxel_index_in_range(rel: GridPos)
    requires
        in_grid(chunk_extent(), rel),
    ensures
        0 <= voxel_index(rel) < CHUNK_VOLUME,
{
    let (x, y, z) = (rel.x as int, rel.y as int, rel.z as int);
    assert(0 <= x + 32 * (y + 32 * z) < 32768) by (nonlinear_arith)
        requires 0 <= x < 32, 0 <= y < 32, 0 <= z < 32;
}

impl ChunkData {
    /// The chunk holds exactly one voxel per cell.
    pub open spec fn wf(&self) -> bool {
        self@.len() == CHUNK_VOLUME
    }

    /// A chunk filled with air.
    pub fn new() -> (r: ChunkData)
        ensures
            r.wf(),
            r@ == air_chunk(),
    {
        let mut voxels: Vec<Voxel> = Vec::new();
        while voxels.len() < CHUNK_VOLUME
            invariant
                voxels@.len() <= CHUNK_VOLUME,
                forall|i: int| 0 <= i < voxels@.len() ==> #[trigger] voxels@[i] == (Voxel { id: 0 }),
            decreases CHUNK_VOLUME - voxels@.len(),
        {
            voxels.push(Voxel::air());
        }
        assert(voxels@ =~= air_chunk());
        ChunkData { voxels }
    }

    /// Rebuilds a chunk from its raw voxel sequence; `None` when the length is wrong.
    pub fn from_raw(raw: Vec<Voxel>) -> (r: Option<ChunkData>)
        ensures
            r.is_some() <==> raw@.len() == CHUNK_VOLUME,
            r.is_some() ==> r.unwrap()@ == raw@,
    {
        if raw.len() == CHUNK_VOLUME {
            Some(ChunkData { voxels: raw })
        } else {
            None
        }
    }

    /// A chunk holding a copy of `raw`; `None` when the length is wrong.
    pub fn from_voxels(raw: &Vec<Voxel>) -> (r: Option<ChunkData>)
        ensures
            r.is_some() <==> raw@.len() == CHUNK_VOLUME,
            r.is_some() ==> r.unwrap()@ == raw@,
    {
        if raw.len() != CHUNK_VOLUME {
            return None;
        }
        let out = copy_all(raw);
        Some(ChunkData { voxels: out })
    }

    /// The raw voxel sequence of the chunk.
    pub fn to_raw(&self) -> (r: Vec<Voxel>)
        ensures
            r@ == self@,
    {
        copy_all(&self.voxels)
    }

    /// Whether the chunk holds exactly one voxel per cell.
    pub fn is_complete(&self) -> (r: bool)
        ensures
            r == self.wf(),
    {
        self.voxels.len() == CHUNK_VOLUME
    }

    /// A copy of the chunk with the same voxels.
    pub fn copy(&self) -> (r: ChunkData)
        ensures
            r@ == self@,
    {
        ChunkData { voxels: self.to_raw() }
    }

    /// The voxel at a chunk-relative position.
    pub fn get(&self, rel: GridPos) -> (r: Voxel)
        requires
            self.wf(),
            in_grid(chunk_extent(), rel),
        ensures
            r == self@[voxel_index(rel)],
    {
        proof {
            lemma_voxel_index_in_range(rel);
        }
        let i = rel.x as usize + 32 * (rel.y as usize + 32 * rel.z as usize);
        self.voxels[i]
    }

    /// Overwrites the voxel at a chunk-relative position.
    pub fn set(&mut self, rel: GridPos, voxel: Voxel)
        requires
            old(self).wf(),
            in_grid(chunk_extent(), rel),
        ensures
            final(self)@ == old(self)@.update(voxel_index(rel), voxel),
            final(self).wf(),
    {
        proof {
            lemma_voxel_index_in_range(rel);
        }
        let i = rel.x as usize + 32 * (rel.y as usize + 32 * rel.z as usize);
        self.voxels.set(i, voxel);
    }
}

} // verus!
