use vstd::prelude::*;

use crate::copying::copy_range;

verus! {

/// A rectangle of the texture atlas, in pixels.
#[derive(Clone, Copy, Debug, PartialEq, Eq, Structural)]
pub struct PixelRect {
    pub x: u32,
    pub y: u32,
    pub w: u32,
    pub h: u32,
}

/// The atlas rectangles of a block's six faces.
#[derive(Clone, Copy, Debug, PartialEq, Eq, Structural)]
pub struct FaceRects {
    pub west: PixelRect,
    pub east: PixelRect,
    pub down: PixelRect,
    pub up: PixelRect,
    pub south: PixelRect,
    pub north: PixelRect,
}

/// One block's entry in the registry.
pub struct TextureEntry {
    pub name: Vec<char>,
    pub faces: FaceRects,
}

/// The face rectangles of every block with a texture, and the atlas size in pixels.
pub struct AssetRegistry {
    pub texture_uvs: Vec<TextureEntry>,
    pub texture_width: u32,
    pub texture_height: u32,
}

/// Index of the last `_` among the first `n` characters of `name`, or -1.
pub open spec fn last_sep_before(name: Seq<char>, n: int) -> int
    decreases n,
{
    if n <= 0 {
        -1
    } else if name[n - 1] == '_' {
        n - 1
    } else {
        last_sep_before(name, n - 1)
    }
}

/// Index of the last `_` in `name`, or -1.
pub open spec fn last_sep(name: Seq<char>) -> int {
    last_sep_before(name, name.len() as int)
}

/// The block name of a texture name: everything before its last `_`, or the whole name.
pub open spec fn base_name(name: Seq<char>) -> Seq<char> {
    if last_sep(name) < 0 {
        name
    } else {
        name.subrange(0, last_sep(name))
    }
}

/// The face selector of a texture name: everything after its last `_`, or the whole name.
pub open spec fn texture_suffix(name: Seq<char>) -> Seq<char> {
    if last_sep(name) < 0 {
        name
    } else {
        name.subrange(last_sep(name) + 1, name.len() as int)
    }
}

/// All six faces showing one rectangle.
pub open spec fn all_faces(r: PixelRect) -> FaceRects {
    FaceRects { west: r, east: r, down: r, up: r, south: r, north: r }
}

/// The faces after a texture with selector `suffix` is applied: `side` covers west, east,
/// south and north; `west`, `east`, `south`, `north`, `up` and `down` cover their own face;
/// any other selector changes nothing.
pub open spec fn apply_suffix(f: FaceRects, suffix: Seq<char>, r: PixelRect) -> FaceRects {
    if suffix == seq!['s', 'i', 'd', 'e'] {
        FaceRects { west: r, east: r, south: r, north: r, ..f }
    } else if suffix == seq!['w', 'e', 's', 't'] {
        FaceRects { west: r, ..f }
    } else if suffix == seq!['e', 'a', 's', 't'] {
        FaceRects { east: r, ..f }
    } else if suffix == seq!['s', 'o', 'u', 't', 'h'] {
        FaceRects { south: r, ..f }
    } else if suffix == seq!['n', 'o', 'r', 't', 'h'] {
        FaceRects { north: r, ..f }
    } else if suffix == seq!['u', 'p'] {
        FaceRects { up: r, ..f }
    } else if suffix == seq!['d', 'o', 'w', 'n'] {
        FaceRects { down: r, ..f }
    } else {
        f
    }
}

/// The registry after one packed texture is added: the block named by the texture starts
/// from its current faces, or from all six faces showing the texture, and then takes the
/// texture on the faces its selector names.
pub open spec fn add_texture_spec(
    m: Map<Seq<char>, FaceRects>,
    name: Seq<char>,
    r: PixelRect,
) -> Map<Seq<char>, FaceRects> {
    let b = base_name(name);
    let start = if m.contains_key(b) {
        m[b]
    } else {
        all_faces(r)
    };
    m.insert(b, apply_suffix(start, texture_suffix(name), r))
}

/// The block-name map of a list of entries, later entries overriding earlier ones.
pub open spec fn entries_map(s: Seq<TextureEntry>) -> Map<Seq<char>, FaceRects>
    decreases s.len(),
{
    if s.len() == 0 {
        Map::empty()
    } else {
        entries_map(s.drop_last()).insert(s.last().name@, s.last().faces)
    }
}

/// No two entries share a block name.
pub open spec fn names_unique(s: Seq<TextureEntry>) -> bool {
    forall|i: int, j: int| 0 <= i < j < s.len() ==> s[i].name@ != s[j].name@
}

/// Block names and rectangles of a list of packed textures.
pub open spec fn packed_view(s: Seq<(Vec<char>, PixelRect)>) -> Seq<(Seq<char>, PixelRect)> {
    s.map_values(|p: (Vec<char>, PixelRect)| (p.0@, p.1))
}

/// The registry after a list of packed textures is added in order.
pub open spec fn add_textures_spec(
    m: Map<Seq<char>, FaceRects>,
    packed: Seq<(Seq<char>, PixelRect)>,
) -> Map<Seq<char>, FaceRects>
    decreases packed.len(),
{
    if packed.len() == 0 {
        m
    } else {
        add_texture_spec(add_textures_spec(m, packed.drop_last()), packed.last().0, packed.last().1)
    }
}

proof fn lemma_absent(s: Seq<TextureEntry>, n: Seq<char>)
    requires
        forall|i: int| 0 <= i < s.len() ==> (#[trigger] s[i]).name@ != n,
    ensures
        !entries_map(s).contains_key(n),
    decreases s.len(),
{
    if s.len() > 0 {
        assert(s.last() == s[s.len() - 1]);
        lemma_absent(s.drop_last(), n);
    }
}

proof fn lemma_present(s: Seq<TextureEntry>, i: int)
    requires
        names_unique(s),
        0 <= i < s.len(),
    ensures
        entries_map(s).contains_key(s[i].name@),
        entries_map(s)[s[i].name@] == s[i].faces,
    decreases s.len(),
{
    if i < s.len() - 1 {
        lemma_present(s.drop_last(), i);
    }
}

proof fn lemma_update(s: Seq<TextureEntry>, i: int, e: TextureEntry)
    requires
        names_unique(s),
        0 <= i < s.len(),
        e.name@ == s[i].name@,
    ensures
        entries_map(s.update(i, e)) == entries_map(s).insert(e.name@, e.faces),
        names_unique(s.update(i, e)),
    decreases s.len(),
{
    let t = s.update(i, e);
    if i == s.len() - 1 {
        assert(t.drop_last() =~= s.drop_last());
        assert(entries_map(t) =~= entries_map(s).insert(e.name@, e.faces));
    } else {
        assert(t.drop_last() =~= s.drop_last().update(i, e));
        lemma_update(s.drop_last(), i, e);
        assert(entries_map(t) =~= entries_map(s).insert(e.name@, e.faces));
    }
}

fn same_chars(a: &Vec<char>, b: &Vec<char>) -> (r: bool)
    ensures
        r == (a@ == b@),
{
    if a.len() != b.len() {
        return false;
    }
    let mut i: usize = 0;
    while i < a.len()
        invariant
            a@.len() == b@.len(),
            i <= a@.len(),
            forall|j: int| 0 <= j < i ==> a@[j] == b@[j],
        decreases a@.len() - i,
    {
        if a[i] != b[i] {
            return false;
        }
        i += 1;
    }
    assert(a@ =~= b@);
    true
}

/// Splits a texture name into its block name and its face selector.
pub fn split_texture_name(name: &Vec<char>) -> (r: (Vec<char>, Vec<char>))
    ensures
        r.0@ == base_name(name@),
        r.1@ == texture_suffix(name@),
{
    let mut i: usize = name.len();
    while i > 0 && name[i - 1] != '_'
        invariant
            i <= name@.len(),
            last_sep(name@) == last_sep_before(name@, i as int),
        decreases i,
    {
        i -= 1;
    }
    if i == 0 {
        (copy_range(name, 0, name.len()), copy_range(name, 0, name.len()))
    } else {
        (copy_range(name, 0, i - 1), copy_range(name, i, name.len()))
    }
}

/// The faces after a texture with the given selector is applied.
pub fn apply_face_suffix(faces: FaceRects, suffix: &Vec<char>, rect: PixelRect) -> (r: FaceRects)
    ensures
        r == apply_suffix(faces, suffix@, rect),
{
    let side = vec!['s', 'i', 'd', 'e'];
    let west = vec!['w', 'e', 's', 't'];
    let east = vec!['e', 'a', 's', 't'];
    let south = vec!['s', 'o', 'u', 't', 'h'];
    let north = vec!['n', 'o', 'r', 't', 'h'];
    let up = vec!['u', 'p'];
    let down = vec!['d', 'o', 'w', 'n'];
    assert(side@ =~= seq!['s', 'i', 'd', 'e']);
    assert(west@ =~= seq!['w', 'e', 's', 't']);
    assert(east@ =~= seq!['e', 'a', 's', 't']);
    assert(south@ =~= seq!['s', 'o', 'u', 't', 'h']);
    assert(north@ =~= seq!['n', 'o', 'r', 't', 'h']);
    assert(up@ =~= seq!['u', 'p']);
    assert(down@ =~= seq!['d', 'o', 'w', 'n']);
    if same_chars(suffix, &side) {
        FaceRects { west: rect, east: rect, south: rect, north: rect, ..faces }
    } else if same_chars(suffix, &west) {
        FaceRects { west: rect, ..faces }
    } else if same_chars(suffix, &east) {
        FaceRects { east: rect, ..faces }
    } else if same_chars(suffix, &south) {
        FaceRects { south: rect, ..faces }
    } else if same_chars(suffix, &north) {
        FaceRects { north: rect, ..faces }
    } else if same_chars(suffix, &up) {
        FaceRects { up: rect, ..faces }
    } else if same_chars(suffix, &down) {
        FaceRects { down: rect, ..faces }
    } else {
        faces
    }
}

impl AssetRegistry {
    /// The block-name map of the registry.
    pub open spec fn texture_map(&self) -> Map<Seq<char>, FaceRects> {
        entries_map(self.texture_uvs@)
    }

    /// No block name appears twice.
    pub open spec fn wf(&self) -> bool {
        names_unique(self.texture_uvs@)
    }

    /// An empty registry with a zero-sized atlas.
    pub fn new() -> (r: AssetRegistry)
        ensures
            r.wf(),
            r.texture_map() == Map::<Seq<char>, FaceRects>::empty(),
            r.texture_width == 0 && r.texture_height == 0,
    {
        AssetRegistry { texture_uvs: Vec::new(), texture_width: 0, texture_height: 0 }
    }

    /// Whether no block name appears twice.
    pub fn names_are_unique(&self) -> (r: bool)
        ensures
            r == self.wf(),
    {
        let n = self.texture_uvs.len();
        let mut i: usize = 0;
        while i < n
            invariant
                n == self.texture_uvs@.len(),
                i <= n,
                forall|a: int, b: int| 0 <= a < b < n && a < i ==> self.texture_uvs@[a].name@ != self.texture_uvs@[b].name@,
            decreases n - i,
        {
            let mut j: usize = i + 1;
            while j < n
                invariant
                    n == self.texture_uvs@.len(),
                    i < n,
                    i + 1 <= j <= n,
                    forall|a: int, b: int| 0 <= a < b < n && a < i ==> self.texture_uvs@[a].name@ != self.texture_uvs@[b].name@,
                    forall|b: int| i < b < j ==> self.texture_uvs@[i as int].name@ != self.texture_uvs@[b].name@,
                decreases n - j,
            {
                if same_chars(&self.texture_uvs[i].name, &self.texture_uvs[j].name) {
                    return false;
                }
                j += 1;
            }
            i += 1;
        }
        true
    }

    /// Position of the entry named `name`.
    fn find_entry(&self, name: &Vec<char>) -> (r: Option<usize>)
        ensures
            r.is_some() ==> r.unwrap() < self.texture_uvs@.len() && self.texture_uvs@[r.unwrap() as int].name@ == name@,
            r.is_none() ==> forall|j: int| 0 <= j < self.texture_uvs@.len() ==> (#[trigger] self.texture_uvs@[j]).name@ != name@,
    {
        let mut i: usize = 0;
        while i < self.texture_uvs.len()
            invariant
                i <= self.texture_uvs@.len(),
                forall|j: int| 0 <= j < i ==> (#[trigger] self.texture_uvs@[j]).name@ != name@,
            decreases self.texture_uvs@.len() - i,
        {
            if same_chars(&self.texture_uvs[i].name, name) {
                return Some(i);
            }
            i += 1;
        }
        None
    }

    /// Adds one packed texture, named `<block>` or `<block>_<selector>`.
    pub fn add_texture(&mut self, name: &Vec<char>, rect: PixelRect)
        requires
            old(self).wf(),
        ensures
            final(self).wf(),
            final(self).texture_map() == add_texture_spec(old(self).texture_map(), name@, rect),
            final(self).texture_width == old(self).texture_width,
            final(self).texture_height == old(self).texture_height,
    {
        let (base, suffix) = split_texture_name(name);
        let ghost b = base@;
        let found = self.find_entry(&base);
        if let Some(i) = found {
            proof {
                lemma_present(self.texture_uvs@, i as int);
            }
            let faces = apply_face_suffix(self.texture_uvs[i].faces, &suffix, rect);
            let ghost old_entries = self.texture_uvs@;
            let entry = TextureEntry { name: base, faces };
            proof {
                lemma_update(old_entries, i as int, entry);
            }
            self.texture_uvs.set(i, entry);
        } else {
            proof {
                lemma_absent(self.texture_uvs@, b);
            }
            let faces = apply_face_suffix(
                FaceRects { west: rect, east: rect, down: rect, up: rect, south: rect, north: rect },
                &suffix,
                rect,
            );
            let ghost old_entries = self.texture_uvs@;
            self.texture_uvs.push(TextureEntry { name: base, faces });
            assert(self.texture_uvs@.drop_last() =~= old_entries);
        }
    }

    /// Adds packed textures in order and records the atlas size.
    pub fn add_textures(&mut self, packed: &Vec<(Vec<char>, PixelRect)>, width: u32, height: u32)
        requires
            old(self).wf(),
        ensures
            final(self).wf(),
            final(self).texture_map() == add_textures_spec(old(self).texture_map(), packed_view(packed@)),
            final(self).texture_width == width,
            final(self).texture_height == height,
    {
        let ghost m0 = self.texture_map();
        let mut i: usize = 0;
        while i < packed.len()
            invariant
                i <= packed@.len(),
                self.wf(),
                self.texture_map() == add_textures_spec(m0, packed_view(packed@).subrange(0, i as int)),
            decreases packed@.len() - i,
        {
            self.add_texture(&packed[i].0, packed[i].1);
            proof {
                let pv = packed_view(packed@);
                assert(pv.subrange(0, i + 1).drop_last() =~= pv.subrange(0, i as int));
            }
            i += 1;
        }
        assert(packed_view(packed@).subrange(0, i as int) =~= packed_view(packed@));
        self.texture_width = width;
        self.texture_height = height;
    }

    /// A copy of the registry.
    pub fn copy(&self) -> (r: AssetRegistry)
        ensures
            r.texture_uvs@.len() == self.texture_uvs@.len(),
            forall|i: int| 0 <= i < r.texture_uvs@.len() ==> (#[trigger] r.texture_uvs@[i]).name@ == self.texture_uvs@[i].name@ && r.texture_uvs@[i].faces == self.texture_uvs@[i].faces,
            r.texture_width == self.texture_width,
            r.texture_height == self.texture_height,
    {
        let mut out: Vec<TextureEntry> = Vec::with_capacity(self.texture_uvs.len());
        let mut i: usize = 0;
        while i < self.texture_uvs.len()
            invariant
                i <= self.texture_uvs@.len(),
                out@.len() == i,
                forall|j: int| 0 <= j < i ==> (#[trigger] out@[j]).name@ == self.texture_uvs@[j].name@ && out@[j].faces == self.texture_uvs@[j].faces,
            decreases self.texture_uvs@.len() - i,
        {
            let e = &self.texture_uvs[i];
            let name = copy_range(&e.name, 0, e.name.len());
            assert(name@ =~= e.name@);
            out.push(TextureEntry { name, faces: e.faces });
            i += 1;
        }
        AssetRegistry { texture_uvs: out, texture_width: self.texture_width, texture_height: self.texture_height }
    }
}

/// Two entry lists with the same names and faces, position by position.
pub open spec fn same_entries(a: Seq<TextureEntry>, b: Seq<TextureEntry>) -> bool {
    &&& a.len() == b.len()
    &&& forall|i: int| 0 <= i < a.len() ==> (#[trigger] a[i]).name@ == b[i].name@ && a[i].faces == b[i].faces
}

/// Entry lists with the same names and faces give the same map.
pub proof fn lemma_same_entries_map(a: Seq<TextureEntry>, b: Seq<TextureEntry>)
    requires
        same_entries(a, b),
    ensures
        entries_map(a) == entries_map(b),
        names_unique(a) == names_unique(b),
    decreases a.len(),
{
    if a.len() > 0 {
        assert(same_entries(a.drop_last(), b.drop_last()));
        lemma_same_entries_map(a.drop_last(), b.drop_last());
        assert(a.last() == a[a.len() - 1]);
        assert(b.last() == b[b.len() - 1]);
    }
    if names_unique(a) {
        assert forall|i: int, j: int| 0 <= i < j < b.len() implies b[i].name@ != b[j].name@ by {
            assert(a[i].name@ == b[i].name@);
            assert(a[j].name@ == b[j].name@);
        }
    }
    if names_unique(b) {
        assert forall|i: int, j: int| 0 <= i < j < a.len() implies a[i].name@ != a[j].name@ by {
            assert(a[i].name@ == b[i].name@);
            assert(a[j].name@ == b[j].name@);
        }
    }
}

} // verus!
