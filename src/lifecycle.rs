use vstd::prelude::*;

use crate::chunk::{ChunkData, Voxel, CHUNK_VOLUME};
use crate::copying::copy_all;
use crate::coords::{volume, GridPos, WorldPos};
use crate::level::VoxelLevel;
use crate::textures::{add_textures_spec, packed_view, same_entries, AssetRegistry, PixelRect};

verus! {

/// The serialisable form of a level: its extent, each chunk's voxels in flat-index order,
/// and the atlas pixel bytes.
pub struct RawLevel {
    pub level_size: GridPos,
    pub stored_chunks: Vec<Vec<Voxel>>,
    pub asset_registry: AssetRegistry,
    pub texture_atlas: Option<Vec<u8>>,
}

/// Why a raw level cannot be turned back into a live one.
#[derive(Clone, Copy, Debug, PartialEq, Eq, Structural)]
pub enum LoadError {
    /// The number of stored chunks differs from the extent's volume.
    ChunkCount,
    /// The asset registry names a block twice.
    DuplicateTexture,
    /// The stored chunk at this flat index does not hold one voxel per cell.
    ChunkLength(usize),
}

pub open spec fn atlas_view(a: Option<Vec<u8>>) -> Option<Seq<u8>> {
    match a {
        Some(v) => Some(v@),
        None => None,
    }
}

/// `raw` holds exactly the extent, chunks and atlas of `level`.
pub open spec fn raw_matches(level: VoxelLevel, raw: RawLevel) -> bool {
    &&& raw.level_size == level.level_size
    &&& raw.stored_chunks@.len() == level.loaded_chunks@.len()
    &&& forall|i: int|
        0 <= i < raw.stored_chunks@.len() ==> (#[trigger] raw.stored_chunks@[i])@
            == level.loaded_chunks@[i]@
    &&& atlas_view(raw.texture_atlas) == atlas_view(level.texture_atlas)
    &&& same_entries(raw.asset_registry.texture_uvs@, level.asset_registry.texture_uvs@)
    &&& raw.asset_registry.texture_width == level.asset_registry.texture_width
    &&& raw.asset_registry.texture_height == level.asset_registry.texture_height
}

/// Index of the first stored chunk whose length is wrong, if any.
pub open spec fn first_bad_chunk(raw: RawLevel, i: int) -> bool {
    &&& 0 <= i < raw.stored_chunks@.len()
    &&& raw.stored_chunks@[i]@.len() != CHUNK_VOLUME
    &&& forall|j: int| 0 <= j < i ==> (#[trigger] raw.stored_chunks@[j])@.len() == CHUNK_VOLUME
}

/// Every stored chunk holds one voxel per cell.
pub open spec fn chunks_complete(raw: RawLevel) -> bool {
    forall|j: int|
        0 <= j < raw.stored_chunks@.len() ==> (#[trigger] raw.stored_chunks@[j])@.len()
            == CHUNK_VOLUME
}

fn copy_atlas(a: &Option<Vec<u8>>) -> (r: Option<Vec<u8>>)
    ensures
        atlas_view(r) == atlas_view(*a),
{
    match a {
        Some(b) => Some(copy_all(b)),
        None => None,
    }
}

impl VoxelLevel {
    /// Stores the atlas pixel bytes.
    pub fn build_atlas(&mut self, atlas: Vec<u8>)
        requires
            old(self).wf(),
        ensures
            final(self).wf(),
            final(self).level_size == old(self).level_size,
            final(self).loaded_chunks@ == old(self).loaded_chunks@,
            final(self).asset_registry == old(self).asset_registry,
            atlas_view(final(self).texture_atlas) == Some(atlas@),
    {
        self.texture_atlas = Some(atlas);
    }

    /// Records packed textures, named `<block>` or `<block>_<selector>`, with the size and
    /// pixel bytes of the atlas they were packed into.
    pub fn load_textures(
        &mut self,
        packed: &Vec<(Vec<char>, PixelRect)>,
        width: u32,
        height: u32,
        atlas: Vec<u8>,
    )
        requires
            old(self).wf(),
        ensures
            final(self).wf(),
            final(self).level_size == old(self).level_size,
            final(self).loaded_chunks@ == old(self).loaded_chunks@,
            final(self).asset_registry.texture_map() == add_textures_spec(
                old(self).asset_registry.texture_map(),
                packed_view(packed@),
            ),
            final(self).asset_registry.texture_width == width,
            final(self).asset_registry.texture_height == height,
            atlas_view(final(self).texture_atlas) == Some(atlas@),
    {
        self.asset_registry.add_textures(packed, width, height);
        self.texture_atlas = Some(atlas);
    }

    /// The serialisable form of the level.
    pub fn to_raw(&self) -> (r: RawLevel)
        requires
            self.wf(),
        ensures
            raw_matches(*self, r),
    {
        let mut stored: Vec<Vec<Voxel>> = Vec::with_capacity(self.loaded_chunks.len());
        let mut i: usize = 0;
        while i < self.loaded_chunks.len()
            invariant
                i <= self.loaded_chunks@.len(),
                stored@.len() == i,
                forall|j: int| 0 <= j < i ==> (#[trigger] stored@[j])@ == self.loaded_chunks@[j]@,
            decreases self.loaded_chunks@.len() - i,
        {
            stored.push(self.loaded_chunks[i].to_raw());
            i += 1;
        }
        RawLevel {
            level_size: self.level_size,
            stored_chunks: stored,
            asset_registry: self.asset_registry.copy(),
            texture_atlas: copy_atlas(&self.texture_atlas),
        }
    }

    /// Rebuilds a live level from its serialisable form.
    pub fn from_raw(raw: RawLevel) -> (r: Result<VoxelLevel, LoadError>)
        ensures
            r.is_ok() <==> (raw.stored_chunks@.len() == volume(raw.level_size) && chunks_complete(raw)
                && raw.asset_registry.wf()),
            r.is_ok() ==> r.unwrap().wf() && raw_matches(r.unwrap(), raw),
            r == Err::<VoxelLevel, LoadError>(LoadError::ChunkCount) <==> raw.stored_chunks@.len()
                != volume(raw.level_size),
            r == Err::<VoxelLevel, LoadError>(LoadError::DuplicateTexture) <==> (raw.stored_chunks@.len()
                == volume(raw.level_size) && !raw.asset_registry.wf()),
            (match r {
                Err(LoadError::ChunkLength(i)) => raw.stored_chunks@.len() == volume(raw.level_size)
                    && raw.asset_registry.wf() && first_bad_chunk(raw, i as int),
                _ => true,
            }),
    {
        let n = raw.stored_chunks.len();
        let size = raw.level_size;
        proof {
            let (a, b, c) = (size.x as int, size.y as int, size.z as int);
            assert(0 <= a * b <= 0xffff_ffff * 0xffff_ffff) by (nonlinear_arith)
                requires 0 <= a <= 0xffff_ffff, 0 <= b <= 0xffff_ffff;
            assert(0 <= a * b * c <= 0xffff_ffff * 0xffff_ffff * 0xffff_ffff) by (nonlinear_arith)
                requires 0 <= a * b <= 0xffff_ffff * 0xffff_ffff, 0 <= c <= 0xffff_ffff;
        }
        let expected = size.x as u128 * size.y as u128 * size.z as u128;
        if n as u128 != expected {
            return Err(LoadError::ChunkCount);
        }
        if !raw.asset_registry.names_are_unique() {
            return Err(LoadError::DuplicateTexture);
        }
        let mut chunks: Vec<ChunkData> = Vec::with_capacity(n);
        let mut i: usize = 0;
        while i < n
            invariant
                n == raw.stored_chunks@.len(),
                n == volume(size),
                size == raw.level_size,
                raw.asset_registry.wf(),
                i <= n,
                chunks@.len() == i,
                forall|j: int| 0 <= j < i ==> (#[trigger] chunks@[j])@ == raw.stored_chunks@[j]@,
                forall|j: int| 0 <= j < i ==> (#[trigger] chunks@[j]).wf(),
                forall|j: int| 0 <= j < i ==> (#[trigger] raw.stored_chunks@[j])@.len() == CHUNK_VOLUME,
            decreases n - i,
        {
            match ChunkData::from_voxels(&raw.stored_chunks[i]) {
                Some(c) => chunks.push(c),
                None => {
                    assert(first_bad_chunk(raw, i as int));
                    return Err(LoadError::ChunkLength(i));
                },
            }
            i += 1;
        }
        let r = VoxelLevel {
            level_size: size,
            loaded_chunks: chunks,
            asset_registry: raw.asset_registry,
            texture_atlas: raw.texture_atlas,
        };
        proof {
            crate::textures::lemma_same_entries_map(r.asset_registry.texture_uvs@, raw.asset_registry.texture_uvs@);
        }
        Ok(r)
    }
}

/// Saving a well-formed level and loading what was saved succeeds, and the loaded level has
/// the same extent, the same voxel at every world position and the same atlas bytes.
pub proof fn lemma_save_load_round_trip(level: VoxelLevel, raw: RawLevel, loaded: VoxelLevel)
    requires
        level.wf(),
        raw_matches(level, raw),
        raw_matches(loaded, raw),
    ensures
        raw.stored_chunks@.len() == volume(raw.level_size),
        chunks_complete(raw),
        raw.asset_registry.wf(),
        loaded.level_size == level.level_size,
        forall|w: WorldPos| #[trigger] loaded.voxel_at(w) == level.voxel_at(w),
        atlas_view(loaded.texture_atlas) == atlas_view(level.texture_atlas),
        loaded.asset_registry.texture_map() == level.asset_registry.texture_map(),
        loaded.asset_registry.texture_width == level.asset_registry.texture_width,
        loaded.asset_registry.texture_height == level.asset_registry.texture_height,
{
    crate::textures::lemma_same_entries_map(raw.asset_registry.texture_uvs@, level.asset_registry.texture_uvs@);
    crate::textures::lemma_same_entries_map(raw.asset_registry.texture_uvs@, loaded.asset_registry.texture_uvs@);
    assert forall|w: WorldPos| #[trigger] loaded.voxel_at(w) == level.voxel_at(w) by {
        if crate::level::in_extent(level.level_size, w) {
            crate::level::lemma_world_slot(level.level_size, w);
            let i = crate::coords::linear_index(level.level_size, crate::level::chunk_grid_pos(w));
            assert(raw.stored_chunks@[i]@ == level.loaded_chunks@[i]@);
            assert(raw.stored_chunks@[i]@ == loaded.loaded_chunks@[i]@);
        }
    }
}

} // verus!
