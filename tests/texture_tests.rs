use voxel_level::textures::{apply_face_suffix, split_texture_name, AssetRegistry, FaceRects, PixelRect};

fn chars(s: &str) -> Vec<char> {
    s.chars().collect()
}

fn rect(n: u32) -> PixelRect {
    PixelRect { x: n, y: n + 1, w: 16, h: 16 }
}

fn faces_of(reg: &AssetRegistry, name: &str) -> Option<FaceRects> {
    reg.texture_uvs.iter().find(|e| e.name == chars(name)).map(|e| e.faces)
}

#[test]
fn split_on_last_underscore() {
    let (b, s) = split_texture_name(&chars("grass_side"));
    assert_eq!((b, s), (chars("grass"), chars("side")));
    let (b, s) = split_texture_name(&chars("oak_log_up"));
    assert_eq!((b, s), (chars("oak_log"), chars("up")));
    let (b, s) = split_texture_name(&chars("stone"));
    assert_eq!((b, s), (chars("stone"), chars("stone")));
    let (b, s) = split_texture_name(&chars("trail_"));
    assert_eq!((b, s), (chars("trail"), chars("")));
}

#[test]
fn suffix_selects_faces() {
    let base = FaceRects { west: rect(0), east: rect(0), down: rect(0), up: rect(0), south: rect(0), north: rect(0) };
    let side = apply_face_suffix(base, &chars("side"), rect(1));
    assert_eq!(side, FaceRects { west: rect(1), east: rect(1), down: rect(0), up: rect(0), south: rect(1), north: rect(1) });
    assert_eq!(apply_face_suffix(base, &chars("west"), rect(2)).west, rect(2));
    assert_eq!(apply_face_suffix(base, &chars("east"), rect(2)).east, rect(2));
    assert_eq!(apply_face_suffix(base, &chars("down"), rect(2)).down, rect(2));
    assert_eq!(apply_face_suffix(base, &chars("up"), rect(2)).up, rect(2));
    assert_eq!(apply_face_suffix(base, &chars("south"), rect(2)).south, rect(2));
    assert_eq!(apply_face_suffix(base, &chars("north"), rect(2)).north, rect(2));
    assert_eq!(apply_face_suffix(base, &chars("top"), rect(2)), base);
}

#[test]
fn registry_builds_block_faces() {
    let mut reg = AssetRegistry::new();
    reg.add_textures(
        &vec![
            (chars("stone"), rect(1)),
            (chars("grass_side"), rect(2)),
            (chars("grass_up"), rect(3)),
            (chars("grass_down"), rect(4)),
            (chars("log_top"), rect(5)),
        ],
        128,
        64,
    );
    assert_eq!(reg.texture_uvs.len(), 3);
    let all = |r| FaceRects { west: r, east: r, down: r, up: r, south: r, north: r };
    assert_eq!(faces_of(&reg, "stone"), Some(all(rect(1))));
    assert_eq!(
        faces_of(&reg, "grass"),
        Some(FaceRects { west: rect(2), east: rect(2), down: rect(4), up: rect(3), south: rect(2), north: rect(2) })
    );
    assert_eq!(faces_of(&reg, "log"), Some(all(rect(5))));
    assert_eq!((reg.texture_width, reg.texture_height), (128, 64));
    assert!(reg.names_are_unique());
    reg.add_texture(&chars("log_top"), rect(6));
    assert_eq!(faces_of(&reg, "log"), Some(all(rect(5))));
    assert_eq!(reg.copy().texture_uvs.len(), 3);
}
