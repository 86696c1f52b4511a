use voxel_level::chunk::{ChunkData, Voxel, CHUNK_VOLUME};
use voxel_level::coords::{delinearize, linearize, to_chunk, to_relative, ChunkPos, GridPos, WorldPos};
use voxel_level::level::VoxelLevel;
use voxel_level::lifecycle::{LoadError, RawLevel};
use voxel_level::textures::{AssetRegistry, PixelRect, TextureEntry};

fn g(x: u32, y: u32, z: u32) -> GridPos {
    GridPos { x, y, z }
}

fn w(x: i32, y: i32, z: i32) -> WorldPos {
    WorldPos { x, y, z }
}

fn slot(dx: i32, dy: i32, dz: i32) -> usize {
    let k = ((dx + 1) + 3 * (dy + 1) + 9 * (dz + 1)) as usize;
    if k < 13 {
        k
    } else {
        k - 1
    }
}

#[test]
fn linearize_delinearize_round_trip() {
    let size = g(3, 4, 5);
    for i in 0..60u128 {
        let p = delinearize(size, i);
        assert!(p.x < 3 && p.y < 4 && p.z < 5);
        assert_eq!(linearize(size, p), i);
    }
    assert_eq!(linearize(size, g(1, 2, 3)), 1 + 3 * (2 + 4 * 3));
}

#[test]
fn level_linearize_matches_mapper() {
    let level = VoxelLevel::new(g(2, 3, 4));
    assert_eq!(level.linearize(g(1, 2, 3)), 1 + 2 * (2 + 3 * 3));
    assert_eq!(level.delinearize(23), g(1, 2, 3));
}

#[test]
fn chunk_and_relative_of_negative_positions() {
    let p = w(-1, 33, -33);
    assert_eq!(to_chunk(p), ChunkPos { x: -1, y: 1, z: -2 });
    assert_eq!(to_relative(p), g(31, 1, 31));
    let q = w(i32::MIN, i32::MAX, 0);
    let c = to_chunk(q);
    let r = to_relative(q);
    assert_eq!(c.x as i64 * 32 + r.x as i64, i32::MIN as i64);
    assert_eq!(c.y as i64 * 32 + r.y as i64, i32::MAX as i64);
    assert_eq!(r, g(0, 31, 0));
}

#[test]
fn set_then_get_in_extent() {
    let mut level = VoxelLevel::new(g(2, 2, 2));
    assert_eq!(level.get_voxel(w(5, 40, 63)), Some(Voxel { id: 0 }));
    level.set_voxel(w(5, 40, 63), Voxel { id: 7 });
    assert_eq!(level.get_voxel(w(5, 40, 63)), Some(Voxel { id: 7 }));
    assert_eq!(level.get_voxel(w(5, 40, 62)), Some(Voxel { id: 0 }));
}

#[test]
fn out_of_extent_is_always_absent() {
    let mut level = VoxelLevel::new(g(2, 2, 2));
    for p in [w(64, 0, 0), w(-1, 0, 0), w(0, 64, 0), w(0, 0, -40), w(100, 100, 100)] {
        level.set_voxel(p, Voxel { id: 3 });
        assert_eq!(level.get_voxel(p), None);
    }
    // chunk (2, 0, 0) would alias chunk (0, 1, 0) by flat index alone
    assert_eq!(level.get_voxel(w(0, 32, 0)), Some(Voxel { id: 0 }));
}

#[test]
fn get_chunk_bounds() {
    let mut level = VoxelLevel::new(g(2, 1, 1));
    level.set_voxel(w(33, 0, 0), Voxel { id: 9 });
    let c = level.get_chunk(g(1, 0, 0)).unwrap();
    assert_eq!(c.get(g(1, 0, 0)), Voxel { id: 9 });
    assert!(level.get_chunk(g(2, 0, 0)).is_none());
    assert!(level.get_chunk(g(0, 1, 0)).is_none());
}

#[test]
fn neighbors_at_origin_corner() {
    let level = VoxelLevel::new(g(2, 2, 2));
    let n = level.get_chunk_neighbors_pos(g(0, 0, 0));
    assert_eq!(n.len(), 26);
    let mut present = 0;
    for dz in -1..=1 {
        for dy in -1..=1 {
            for dx in -1..=1 {
                if dx == 0 && dy == 0 && dz == 0 {
                    continue;
                }
                let got = n[slot(dx, dy, dz)];
                if dx >= 0 && dy >= 0 && dz >= 0 {
                    assert_eq!(got, Some(g(dx as u32, dy as u32, dz as u32)));
                    present += 1;
                } else {
                    assert_eq!(got, None);
                }
            }
        }
    }
    assert_eq!(present, 7);
}

#[test]
fn neighbors_at_far_corner() {
    let level = VoxelLevel::new(g(2, 2, 2));
    let n = level.get_chunk_neighbors_pos(g(1, 1, 1));
    let mut present = 0;
    for dz in -1..=1 {
        for dy in -1..=1 {
            for dx in -1..=1 {
                if dx == 0 && dy == 0 && dz == 0 {
                    continue;
                }
                let got = n[slot(dx, dy, dz)];
                if dx <= 0 && dy <= 0 && dz <= 0 {
                    assert_eq!(got, Some(g((1 + dx) as u32, (1 + dy) as u32, (1 + dz) as u32)));
                    present += 1;
                } else {
                    assert_eq!(got, None);
                }
            }
        }
    }
    assert_eq!(present, 7);
}

#[test]
fn neighbors_cloned_default_where_absent() {
    let mut level = VoxelLevel::new(g(2, 1, 1));
    level.set_voxel(w(32, 0, 0), Voxel { id: 4 });
    let n = level.get_chunk_neighbors_cloned(g(0, 0, 0));
    assert_eq!(n.len(), 26);
    assert_eq!(n[slot(1, 0, 0)].get(g(0, 0, 0)), Voxel { id: 4 });
    assert_eq!(n[slot(-1, 0, 0)].get(g(0, 0, 0)), Voxel { id: 0 });
    assert_eq!(n[slot(0, 1, 0)].get(g(0, 0, 0)), Voxel { id: 0 });
}

#[test]
fn chunk_raw_round_trip() {
    let mut c = ChunkData::new();
    c.set(g(31, 31, 31), Voxel { id: 2 });
    let raw = c.to_raw();
    assert_eq!(raw.len(), CHUNK_VOLUME);
    assert_eq!(raw[CHUNK_VOLUME - 1], Voxel { id: 2 });
    let back = ChunkData::from_raw(raw).unwrap();
    assert_eq!(back.get(g(31, 31, 31)), Voxel { id: 2 });
    assert!(ChunkData::from_raw(vec![Voxel { id: 0 }; 3]).is_none());
    assert!(ChunkData::from_voxels(&vec![Voxel { id: 0 }; 3]).is_none());
    assert_eq!(c.copy().get(g(31, 31, 31)), Voxel { id: 2 });
}

#[test]
fn voxel_emptiness() {
    assert!(Voxel::air().is_empty());
    assert!(!Voxel { id: 1 }.is_empty());
}

#[test]
fn save_then_load_reproduces_level() {
    let mut level = VoxelLevel::new(g(2, 1, 2));
    level.set_voxel(w(1, 2, 3), Voxel { id: 5 });
    level.set_voxel(w(40, 31, 40), Voxel { id: 6 });
    level.load_textures(&vec![("dirt".chars().collect(), PixelRect { x: 2, y: 2, w: 16, h: 16 })], 64, 32, vec![9]);
    level.build_atlas(vec![1, 2, 3, 250]);
    let raw = level.to_raw();
    let loaded = VoxelLevel::from_raw(raw).unwrap();
    assert_eq!(loaded.level_size, level.level_size);
    for p in [w(1, 2, 3), w(40, 31, 40), w(0, 0, 0), w(63, 31, 63), w(64, 0, 0)] {
        assert_eq!(loaded.get_voxel(p), level.get_voxel(p));
    }
    assert_eq!(loaded.texture_atlas, Some(vec![1, 2, 3, 250]));
    assert_eq!(loaded.asset_registry.texture_uvs.len(), 1);
    assert_eq!(loaded.asset_registry.texture_uvs[0].name, "dirt".chars().collect::<Vec<char>>());
    assert_eq!(loaded.asset_registry.texture_uvs[0].faces, level.asset_registry.texture_uvs[0].faces);
    assert_eq!((loaded.asset_registry.texture_width, loaded.asset_registry.texture_height), (64, 32));
}

#[test]
fn load_rejects_wrong_chunk_count() {
    let raw = RawLevel { level_size: g(2, 1, 1), stored_chunks: vec![vec![Voxel { id: 0 }; CHUNK_VOLUME]], asset_registry: AssetRegistry::new(), texture_atlas: None };
    assert_eq!(VoxelLevel::from_raw(raw).err(), Some(LoadError::ChunkCount));
}

#[test]
fn load_rejects_short_chunk() {
    let raw = RawLevel {
        level_size: g(3, 1, 1),
        stored_chunks: vec![vec![Voxel { id: 0 }; CHUNK_VOLUME], vec![Voxel { id: 0 }; 5], vec![]],
        asset_registry: AssetRegistry::new(),
        texture_atlas: None,
    };
    assert_eq!(VoxelLevel::from_raw(raw).err(), Some(LoadError::ChunkLength(1)));
}

#[test]
fn load_rejects_duplicate_texture_names() {
    let r = PixelRect { x: 0, y: 0, w: 1, h: 1 };
    let mut reg = AssetRegistry::new();
    reg.add_texture(&"a".chars().collect(), r);
    let faces = reg.texture_uvs[0].faces;
    reg.texture_uvs.push(TextureEntry { name: "a".chars().collect(), faces });
    assert!(!reg.names_are_unique());
    let raw = RawLevel {
        level_size: g(1, 1, 1),
        stored_chunks: vec![vec![Voxel { id: 0 }; 3]],
        asset_registry: reg,
        texture_atlas: None,
    };
    assert_eq!(VoxelLevel::from_raw(raw).err(), Some(LoadError::DuplicateTexture));
}

#[test]
fn well_formedness_is_checked() {
    let mut level = VoxelLevel::new(g(1, 1, 2));
    assert!(level.is_well_formed());
    assert!(level.loaded_chunks[0].is_complete());
    level.loaded_chunks.pop();
    assert!(!level.is_well_formed());
}
