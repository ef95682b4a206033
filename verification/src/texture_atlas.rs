//! The texture atlas: named regions of one image, some of them atlases or
//! animations of their own.
//!
//! A description gives every region relative to the region around it. The
//! atlas holds every region in texels of the image itself.

use std::rc::Rc;
use vstd::prelude::*;
use crate::name_map::{
    entries_with, last_index_of, lemma_last_index_of, lemma_last_index_of_push, lemma_names_with,
    names_of, NameMap,
};
use crate::shared::share;
use crate::texture::Texture;

verus! {

/// A rectangle of texels: its corner nearest the texture's origin, and its
/// extent.
#[derive(Clone, Copy, Debug, PartialEq, Eq, Structural)]
pub struct Rect {
    pub x: u32,
    pub y: u32,
    pub width: u32,
    pub height: u32,
}

impl Rect {
    /// The rectangle lies within the texture.
    pub open spec fn within(&self, texture: Texture) -> bool {
        self.x + self.width <= texture.width() && self.y + self.height <= texture.height()
    }

    /// Whether the rectangle lies within the texture.
    pub fn lies_within(&self, texture: &Texture) -> (inside: bool)
        ensures
            inside == self.within(*texture),
    {
        self.x as u64 + self.width as u64 <= texture.width() as u64 && self.y as u64
            + self.height as u64 <= texture.height() as u64
    }
}

/// One rectangle of a texture.
#[derive(Clone, Copy, Debug)]
pub struct TextureRegion {
    pub texture: Texture,
    pub src: Rect,
}

/// Two rectangles of one sheet: where a sprite's colour is, and where its
/// surface normals are.
#[derive(Clone, Copy, Debug)]
pub struct DeferredTextureRegion {
    pub texture: Texture,
    pub albedo: Rect,
    pub normal: Rect,
}

/// Why a description makes no atlas.
#[derive(Clone, Copy, Debug, PartialEq, Eq, Structural)]
pub enum AtlasError {
    /// A region lies further from the image's origin than 32 bits can say.
    OutOfRange,
}

/// A region of an atlas as its description gives it: relative to the region
/// around it.
#[derive(Debug)]
pub enum RawRegion {
    Single(Rect),
    NormalPair(Rect, Rect),
    Animation(Rect, Vec<RawRegion>),
    Atlas(Rect, Vec<(String, RawRegion)>),
}

/// A region of an atlas, in texels of the atlas's image.
#[derive(Debug)]
pub enum Region {
    Single(TextureRegion),
    NormalPair(DeferredTextureRegion),
    Animation(Vec<Region>),
    Atlas(NameMap<Region>),
}

/// What a [`Region`] holds.
pub enum RegionView {
    Single(TextureRegion),
    NormalPair(DeferredTextureRegion),
    Animation(Seq<RegionView>),
    Atlas(Map<Seq<char>, RegionView>),
}

/// The regions that a list of named regions holds, by name.
pub open spec fn regions_by_name(entries: Seq<(String, Region)>) -> Map<Seq<char>, RegionView>
    decreases entries,
{
    Map::new(
        |name: Seq<char>| last_index_of(names_of(entries), name) >= 0,
        |name: Seq<char>|
            {
                let i = last_index_of(names_of(entries), name);
                if 0 <= i < entries.len() {
                    entries[i].1.holds()
                } else {
                    arbitrary()
                }
            },
    )
}

impl Region {
    /// What the region holds.
    pub open spec fn holds(&self) -> RegionView
        decreases self,
    {
        match self {
            Region::Single(region) => RegionView::Single(*region),
            Region::NormalPair(region) => RegionView::NormalPair(*region),
            Region::Animation(frames) => RegionView::Animation(
                Seq::new(
                    frames@.len(),
                    |i: int|
                        if 0 <= i < frames@.len() {
                            frames@[i].holds()
                        } else {
                            arbitrary()
                        },
                ),
            ),
            Region::Atlas(map) => RegionView::Atlas(regions_by_name(map.entries@)),
        }
    }
}

impl Region {
    /// No atlas in the region, at any depth, has a name twice.
    pub open spec fn wf(&self) -> bool
        decreases self,
    {
        match self {
            Region::Animation(frames) => forall|i: int|
                0 <= i < frames@.len() ==> (#[trigger] frames@[i]).wf(),
            Region::Atlas(map) => map.wf() && forall|i: int|
                0 <= i < map.entries@.len() ==> (#[trigger] map.entries@[i]).1.wf(),
            _ => true,
        }
    }
}

/// Every region of a list is well formed.
pub open spec fn all_wf(entries: Seq<(String, Region)>) -> bool {
    forall|i: int| 0 <= i < entries.len() ==> (#[trigger] entries[i]).1.wf()
}

/// Naming a well-formed region among well-formed regions leaves them well
/// formed.
proof fn lemma_all_wf_with(entries: Seq<(String, Region)>, name: String, value: Region)
    requires
        all_wf(entries),
        value.wf(),
    ensures
        all_wf(entries_with(entries, name, value)),
{
    let after = entries_with(entries, name, value);
    lemma_last_index_of(names_of(entries), name@);
    assert forall|i: int| 0 <= i < after.len() implies (#[trigger] after[i]).1.wf() by {
        if i < entries.len() && after[i] != (name, value) {
            assert(after[i] == entries[i]);
        }
    }
}

impl View for Region {
    type V = RegionView;

    open spec fn view(&self) -> RegionView {
        self.holds()
    }
}

/// The rectangle `rect` moved by `x` and `y`, where that can be said in 32
/// bits.
pub open spec fn placed(rect: Rect, x: u32, y: u32) -> Option<Rect> {
    if rect.x + x <= u32::MAX && rect.y + y <= u32::MAX {
        Some(Rect { x: (rect.x + x) as u32, y: (rect.y + y) as u32, width: rect.width, height: rect.height })
    } else {
        None
    }
}

/// The named regions of a description, each placed relative to `x` and `y`,
/// if each of them can be placed.
pub open spec fn resolve_named(
    entries: Seq<(String, RawRegion)>,
    texture: Texture,
    x: u32,
    y: u32,
) -> Option<Map<Seq<char>, RegionView>>
    decreases entries, 0nat,
{
    if forall|i: int|
        0 <= i < entries.len() ==> (#[trigger] entries[i]).1.resolve(texture, x, y) is Some {
        Some(
            Map::new(
                |name: Seq<char>| last_index_of(names_of(entries), name) >= 0,
                |name: Seq<char>|
                    {
                        let i = last_index_of(names_of(entries), name);
                        if 0 <= i < entries.len() {
                            entries[i].1.resolve(texture, x, y).unwrap()
                        } else {
                            arbitrary()
                        }
                    },
            ),
        )
    } else {
        None
    }
}

impl RawRegion {
    /// The region placed relative to `x` and `y` in `texture`, and what it
    /// holds placed relative to the region itself; `None` where a corner of
    /// any of them cannot be said in 32 bits.
    pub open spec fn resolve(&self, texture: Texture, x: u32, y: u32) -> Option<RegionView>
        decreases self, 1nat,
    {
        match self {
            RawRegion::Single(src) => match placed(*src, x, y) {
                Some(src) => Some(RegionView::Single(TextureRegion { texture, src })),
                None => None,
            },
            RawRegion::NormalPair(albedo, normal) => match (
                placed(*albedo, x, y),
                placed(*normal, x, y),
            ) {
                (Some(albedo), Some(normal)) => Some(
                    RegionView::NormalPair(DeferredTextureRegion { texture, albedo, normal }),
                ),
                _ => None,
            },
            RawRegion::Animation(src, frames) => match placed(*src, x, y) {
                Some(at) => if forall|i: int|
                    0 <= i < frames@.len() ==> (#[trigger] frames@[i]).resolve(
                        texture,
                        at.x,
                        at.y,
                    ) is Some {
                    Some(
                        RegionView::Animation(
                            Seq::new(
                                frames@.len(),
                                |i: int|
                                    if 0 <= i < frames@.len() {
                                        frames@[i].resolve(texture, at.x, at.y).unwrap()
                                    } else {
                                        arbitrary()
                                    },
                            ),
                        ),
                    )
                } else {
                    None
                },
                None => None,
            },
            RawRegion::Atlas(src, entries) => match placed(*src, x, y) {
                Some(at) => match resolve_named(entries@, texture, at.x, at.y) {
                    Some(regions) => Some(RegionView::Atlas(regions)),
                    None => None,
                },
                None => None,
            },
        }
    }
}

fn place(rect: &Rect, x: u32, y: u32) -> (moved: Option<Rect>)
    ensures
        moved == placed(*rect, x, y),
{
    match (rect.x.checked_add(x), rect.y.checked_add(y)) {
        (Some(moved_x), Some(moved_y)) => Some(
            Rect { x: moved_x, y: moved_y, width: rect.width, height: rect.height },
        ),
        _ => None,
    }
}

impl RawRegion {
    /// Places the region in `image`, relative to `x_offset` and `y_offset`,
    /// and what it holds relative to the region itself.
    pub fn set_image(&self, image: Texture, x_offset: u32, y_offset: u32) -> (placed: Result<
        Region,
        AtlasError,
    >)
        ensures
            match placed {
                Ok(region) => self.resolve(image, x_offset, y_offset) == Some(region@)
                    && region.wf(),
                Err(error) => error == AtlasError::OutOfRange && self.resolve(
                    image,
                    x_offset,
                    y_offset,
                ) is None,
            },
        decreases self,
    {
        match self {
            RawRegion::Single(src) => match place(src, x_offset, y_offset) {
                Some(src) => Ok(Region::Single(TextureRegion { texture: image, src })),
                None => Err(AtlasError::OutOfRange),
            },
            RawRegion::NormalPair(albedo, normal) => match (
                place(albedo, x_offset, y_offset),
                place(normal, x_offset, y_offset),
            ) {
                (Some(albedo), Some(normal)) => Ok(
                    Region::NormalPair(DeferredTextureRegion { texture: image, albedo, normal }),
                ),
                _ => Err(AtlasError::OutOfRange),
            },
            RawRegion::Animation(src, raw_frames) => {
                let at = match place(src, x_offset, y_offset) {
                    Some(at) => at,
                    None => { return Err(AtlasError::OutOfRange); },
                };
                let mut frames: Vec<Region> = Vec::new();
                let mut i: usize = 0;
                while i < raw_frames.len()
                    invariant
                        *self == RawRegion::Animation(*src, *raw_frames),
                        placed(*src, x_offset, y_offset) == Some(at),
                        i <= raw_frames@.len(),
                        frames@.len() == i,
                        forall|j: int|
                            0 <= j < i ==> (#[trigger] raw_frames@[j]).resolve(image, at.x, at.y)
                                == Some(frames@[j]@),
                        forall|j: int| 0 <= j < i ==> (#[trigger] frames@[j]).wf(),
                    decreases raw_frames@.len() - i,
                {
                    match raw_frames[i].set_image(image, at.x, at.y) {
                        Ok(frame) => { frames.push(frame); },
                        Err(error) => {
                            assert(raw_frames@[i as int].resolve(image, at.x, at.y) is None);
                            return Err(error);
                        },
                    }
                    i = i + 1;
                }
                let ghost placed_frames = frames@;
                let region = Region::Animation(frames);
                proof {
                    let wanted = self.resolve(image, x_offset, y_offset);
                    assert(wanted is Some);
                    let views = wanted.unwrap()->Animation_0;
                    assert forall|j: int| 0 <= j < views.len() implies views[j]
                        == region@->Animation_0[j] by {
                        assert(raw_frames@[j].resolve(image, at.x, at.y) == Some(
                            placed_frames[j]@,
                        ));
                    }
                    assert(views =~= region@->Animation_0);
                }
                Ok(region)
            },
            RawRegion::Atlas(src, raw_atlas) => {
                let at = match place(src, x_offset, y_offset) {
                    Some(at) => at,
                    None => { return Err(AtlasError::OutOfRange); },
                };
                let mut atlas: NameMap<Region> = NameMap::new();
                let mut i: usize = 0;
                proof {
                    lemma_no_regions(raw_atlas@.take(0), atlas.entries@, image, at.x, at.y);
                }
                while i < raw_atlas.len()
                    invariant
                        *self == RawRegion::Atlas(*src, *raw_atlas),
                        placed(*src, x_offset, y_offset) == Some(at),
                        i <= raw_atlas@.len(),
                        atlas.wf(),
                        all_wf(atlas.entries@),
                        resolve_named(raw_atlas@.take(i as int), image, at.x, at.y) == Some(
                            regions_by_name(atlas.entries@),
                        ),
                    decreases raw_atlas@.len() - i,
                {
                    match raw_atlas[i].1.set_image(image, at.x, at.y) {
                        Ok(region) => {
                            let name = raw_atlas[i].0.clone();
                            proof {
                                lemma_regions_with(atlas.entries@, name, region);
                                lemma_all_wf_with(atlas.entries@, name, region);
                                lemma_resolve_named_step(raw_atlas@, i as int, image, at.x, at.y);
                            }
                            atlas.insert(name, region);
                        },
                        Err(error) => {
                            proof {
                                lemma_unplaced_entry(raw_atlas@, image, at.x, at.y, i as int);
                            }
                            return Err(error);
                        },
                    }
                    i = i + 1;
                }
                proof {
                    assert(raw_atlas@.take(i as int) =~= raw_atlas@);
                }
                Ok(Region::Atlas(atlas))
            },
        }
    }
}

/// No named regions make no regions.
proof fn lemma_no_regions(
    raw: Seq<(String, RawRegion)>,
    done: Seq<(String, Region)>,
    texture: Texture,
    x: u32,
    y: u32,
)
    requires
        raw.len() == 0,
        done.len() == 0,
    ensures
        resolve_named(raw, texture, x, y) == Some(regions_by_name(done)),
        resolve_named(raw, texture, x, y) == Some(Map::<Seq<char>, RegionView>::empty()),
{
    assert(resolve_named(raw, texture, x, y).unwrap() =~= regions_by_name(done));
    assert(regions_by_name(done) =~= Map::<Seq<char>, RegionView>::empty());
}

/// Naming a region in a list of regions names what it holds in what the
/// list holds.
proof fn lemma_regions_with(entries: Seq<(String, Region)>, name: String, value: Region)
    ensures
        regions_by_name(entries_with(entries, name, value)) == regions_by_name(entries).insert(
            name@,
            value@,
        ),
{
    let after = entries_with(entries, name, value);
    lemma_names_with(entries, name, value);
    lemma_last_index_of(names_of(entries), name@);
    assert forall|other: Seq<char>| #[trigger]
        regions_by_name(after).contains_key(other) implies regions_by_name(after)[other]
        == regions_by_name(entries).insert(name@, value@)[other] by {
        lemma_last_index_of(names_of(entries), other);
    }
    assert(regions_by_name(after) =~= regions_by_name(entries).insert(name@, value@));
}

/// One more named region of a description adds one name to what the
/// description resolves to, if the region can be placed and those before
/// it could.
proof fn lemma_resolve_named_step(
    raw: Seq<(String, RawRegion)>,
    i: int,
    texture: Texture,
    x: u32,
    y: u32,
)
    requires
        0 <= i < raw.len(),
    ensures
        resolve_named(raw.take(i + 1), texture, x, y) == match (
            resolve_named(raw.take(i), texture, x, y),
            raw[i].1.resolve(texture, x, y),
        ) {
            (Some(regions), Some(region)) => Some(regions.insert(raw[i].0@, region)),
            _ => None,
        },
{
    let fewer = raw.take(i);
    let more = raw.take(i + 1);
    assert(more.drop_last() =~= fewer);
    assert(more.last() == raw[i]);
    assert(names_of(more) =~= names_of(fewer).push(raw[i].0@));
    if resolve_named(fewer, texture, x, y) is Some && raw[i].1.resolve(texture, x, y) is Some {
        assert forall|j: int| 0 <= j < more.len() implies (#[trigger] more[j]).1.resolve(
            texture,
            x,
            y,
        ) is Some by {
            if j < i {
                assert(fewer[j] == more[j]);
            }
        }
        let wanted = resolve_named(fewer, texture, x, y).unwrap().insert(
            raw[i].0@,
            raw[i].1.resolve(texture, x, y).unwrap(),
        );
        let got = resolve_named(more, texture, x, y).unwrap();
        assert forall|name: Seq<char>| got.contains_key(name) == wanted.contains_key(name) by {
            lemma_last_index_of_push(names_of(fewer), raw[i].0@, name);
        }
        assert forall|name: Seq<char>| #[trigger] got.contains_key(name) implies got[name]
            == wanted[name] by {
            lemma_last_index_of_push(names_of(fewer), raw[i].0@, name);
            lemma_last_index_of(names_of(fewer), name);
            if name != raw[i].0@ {
                let at = last_index_of(names_of(fewer), name);
                assert(fewer[at] == more[at]);
            }
        }
        assert(got =~= wanted);
    } else if resolve_named(fewer, texture, x, y) is None {
        let j = choose|j: int|
            0 <= j < fewer.len() && !((#[trigger] fewer[j]).1.resolve(texture, x, y) is Some);
        assert(more[j] == fewer[j]);
    } else {
        assert(more[i] == raw[i]);
    }
}

/// Where one named region cannot be placed, the list of them cannot.
proof fn lemma_unplaced_entry(
    raw: Seq<(String, RawRegion)>,
    texture: Texture,
    x: u32,
    y: u32,
    i: int,
)
    requires
        0 <= i < raw.len(),
        raw[i].1.resolve(texture, x, y) is None,
    ensures
        resolve_named(raw, texture, x, y) is None,
{
}

fn clone_frames(frames: &Vec<Region>) -> (copy: Vec<Region>)
    ensures
        Region::Animation(copy)@ == Region::Animation(*frames)@,
        Region::Animation(copy).wf(),
    decreases frames, 0nat,
{
    let mut copy: Vec<Region> = Vec::new();
    let mut i: usize = 0;
    while i < frames.len()
        invariant
            i <= frames@.len(),
            copy@.len() == i,
            forall|j: int| 0 <= j < i ==> (#[trigger] copy@[j])@ == frames@[j]@,
            forall|j: int| 0 <= j < i ==> (#[trigger] copy@[j]).wf(),
        decreases frames@.len() - i,
    {
        copy.push(frames[i].duplicate());
        i = i + 1;
    }
    assert(Region::Animation(copy)@->Animation_0 =~= Region::Animation(*frames)@->Animation_0);
    copy
}

/// One more named region adds one name to what a list of regions holds.
proof fn lemma_regions_step(entries: Seq<(String, Region)>, i: int)
    requires
        0 <= i < entries.len(),
    ensures
        regions_by_name(entries.take(i + 1)) == regions_by_name(entries.take(i)).insert(
            entries[i].0@,
            entries[i].1@,
        ),
{
    let fewer = entries.take(i);
    let more = entries.take(i + 1);
    assert(more.drop_last() =~= fewer);
    assert(names_of(more) =~= names_of(fewer).push(entries[i].0@));
    let wanted = regions_by_name(fewer).insert(entries[i].0@, entries[i].1@);
    let got = regions_by_name(more);
    assert forall|name: Seq<char>| got.contains_key(name) == wanted.contains_key(name) by {
        lemma_last_index_of_push(names_of(fewer), entries[i].0@, name);
    }
    assert forall|name: Seq<char>| #[trigger] got.contains_key(name) implies got[name]
        == wanted[name] by {
        lemma_last_index_of_push(names_of(fewer), entries[i].0@, name);
        lemma_last_index_of(names_of(fewer), name);
        if name != entries[i].0@ {
            let at = last_index_of(names_of(fewer), name);
            assert(fewer[at] == more[at]);
        }
    }
    assert(got =~= wanted);
}

fn clone_entries(entries: &Vec<(String, Region)>) -> (copy: NameMap<Region>)
    ensures
        regions_by_name(copy.entries@) == regions_by_name(entries@),
        Region::Atlas(copy).wf(),
    decreases entries, 0nat,
{
    let mut copy: NameMap<Region> = NameMap::new();
    let mut i: usize = 0;
    assert(regions_by_name(copy.entries@) =~= regions_by_name(entries@.take(0)));
    while i < entries.len()
        invariant
            i <= entries@.len(),
            copy.wf(),
            all_wf(copy.entries@),
            regions_by_name(copy.entries@) == regions_by_name(entries@.take(i as int)),
        decreases entries@.len() - i,
    {
        let name = entries[i].0.clone();
        let region = entries[i].1.duplicate();
        proof {
            lemma_regions_with(copy.entries@, name, region);
            lemma_all_wf_with(copy.entries@, name, region);
            lemma_regions_step(entries@, i as int);
        }
        copy.insert(name, region);
        i = i + 1;
    }
    proof {
        assert(entries@.take(i as int) =~= entries@);
    }
    copy
}

impl Region {
    /// A region that holds what this one holds.
    pub fn duplicate(&self) -> (copy: Region)
        ensures
            copy@ == self@,
            copy.wf(),
        decreases self, 1nat,
    {
        match self {
            Region::Single(region) => Region::Single(*region),
            Region::NormalPair(region) => Region::NormalPair(*region),
            Region::Animation(frames) => Region::Animation(clone_frames(frames)),
            Region::Atlas(map) => Region::Atlas(clone_entries(&map.entries)),
        }
    }

    /// The one rectangle that this region is.
    pub fn unwrap_single(&self) -> (region: TextureRegion)
        requires
            self is Single,
        ensures
            self@ == RegionView::Single(region),
    {
        match self {
            Region::Single(region) => *region,
            _ => vstd::pervasive::unreached(),
        }
    }

    /// The pair of rectangles that this region is.
    pub fn unwrap_pair(&self) -> (region: DeferredTextureRegion)
        requires
            self is NormalPair,
        ensures
            self@ == RegionView::NormalPair(region),
    {
        match self {
            Region::NormalPair(region) => *region,
            _ => vstd::pervasive::unreached(),
        }
    }

    /// The frames of the animation that this region is.
    pub fn unwrap_animation(&self) -> (frames: Vec<Region>)
        requires
            self is Animation,
        ensures
            Region::Animation(frames)@ == self@,
            Region::Animation(frames).wf(),
    {
        match self {
            Region::Animation(frames) => clone_frames(frames),
            _ => vstd::pervasive::unreached(),
        }
    }

    /// The regions of the atlas that this region is.
    pub fn unwrap_atlas(&self) -> (atlas: NameMap<Region>)
        requires
            self is Atlas,
        ensures
            Region::Atlas(atlas)@ == self@,
            Region::Atlas(atlas).wf(),
    {
        match self {
            Region::Atlas(map) => clone_entries(&map.entries),
            _ => vstd::pervasive::unreached(),
        }
    }

    /// The one rectangle that this region is, for the `reason` that the
    /// caller gives for its being one.
    pub fn expect_single(&self, reason: &'static str) -> (region: TextureRegion)
        requires
            self is Single,
        ensures
            self@ == RegionView::Single(region),
    {
        self.unwrap_single()
    }

    /// The pair of rectangles that this region is, for the `reason` that
    /// the caller gives for its being one.
    pub fn expect_pair(&self, reason: &'static str) -> (region: DeferredTextureRegion)
        requires
            self is NormalPair,
        ensures
            self@ == RegionView::NormalPair(region),
    {
        self.unwrap_pair()
    }

    /// The frames of the animation that this region is, for the `reason`
    /// that the caller gives for its being one.
    pub fn expect_animation(&self, reason: &'static str) -> (frames: Vec<Region>)
        requires
            self is Animation,
        ensures
            Region::Animation(frames)@ == self@,
            Region::Animation(frames).wf(),
    {
        self.unwrap_animation()
    }

    /// The regions of the atlas that this region is, for the `reason` that
    /// the caller gives for its being one.
    pub fn expect_atlas(&self, reason: &'static str) -> (atlas: NameMap<Region>)
        requires
            self is Atlas,
        ensures
            Region::Atlas(atlas)@ == self@,
            Region::Atlas(atlas).wf(),
    {
        self.unwrap_atlas()
    }
}

impl Clone for Region {
    fn clone(&self) -> (copy: Region)
        ensures
            copy@ == self@,
            copy.wf(),
    {
        self.duplicate()
    }
}

/// Named regions of one image.
pub struct TextureAtlas {
    image: Texture,
    regions: NameMap<Rc<Region>>,
}

/// What shared regions hold, by name.
pub open spec fn shared_regions(regions: Map<Seq<char>, Rc<Region>>) -> Map<Seq<char>, RegionView> {
    regions.map_values(|region: Rc<Region>| region@)
}

impl View for TextureAtlas {
    type V = Map<Seq<char>, RegionView>;

    closed spec fn view(&self) -> Map<Seq<char>, RegionView> {
        shared_regions(self.regions@)
    }
}

impl TextureAtlas {
    /// No name occurs twice, in the atlas or in an atlas that it names at
    /// any depth.
    #[verifier::type_invariant]
    spec fn well_formed(self) -> bool {
        &&& self.regions.wf()
        &&& forall|i: int|
            0 <= i < self.regions.entries@.len() ==> (*(#[trigger] self.regions.entries@[i]).1).wf()
    }

    /// The image whose regions the atlas names.
    pub closed spec fn spec_image(&self) -> Texture {
        self.image
    }

    /// An atlas of `image` that names no region yet.
    pub fn new(image: Texture) -> (atlas: TextureAtlas)
        ensures
            atlas.spec_image() == image,
            atlas@ == Map::<Seq<char>, RegionView>::empty(),
    {
        let atlas = TextureAtlas { image, regions: NameMap::new() };
        assert(atlas@ =~= Map::<Seq<char>, RegionView>::empty());
        atlas
    }

    /// The atlas of `image` that a description makes: every named region
    /// placed from the image's origin.
    pub fn load(image: Texture, raw_regions: &Vec<(String, RawRegion)>) -> (loaded: Result<
        TextureAtlas,
        AtlasError,
    >)
        ensures
            match loaded {
                Ok(atlas) => atlas.spec_image() == image && resolve_named(
                    raw_regions@,
                    image,
                    0,
                    0,
                ) == Some(atlas@),
                Err(error) => error == AtlasError::OutOfRange && resolve_named(
                    raw_regions@,
                    image,
                    0,
                    0,
                ) is None,
            },
    {
        let mut regions: NameMap<Rc<Region>> = NameMap::new();
        let mut i: usize = 0;
        proof {
            lemma_no_regions(raw_regions@.take(0), Seq::empty(), image, 0, 0);
            assert(shared_regions(regions@) =~= Map::<Seq<char>, RegionView>::empty());
        }
        while i < raw_regions.len()
            invariant
                i <= raw_regions@.len(),
                regions.wf(),
                forall|j: int|
                    0 <= j < regions.entries@.len() ==> (*(#[trigger] regions.entries@[j]).1).wf(),
                resolve_named(raw_regions@.take(i as int), image, 0, 0) == Some(
                    shared_regions(regions@),
                ),
            decreases raw_regions@.len() - i,
        {
            match raw_regions[i].1.set_image(image, 0, 0) {
                Ok(region) => {
                    let ghost before = shared_regions(regions@);
                    let ghost entries = regions.entries@;
                    let ghost held = region@;
                    let name = raw_regions[i].0.clone();
                    let shared = Rc::new(region);
                    proof {
                        lemma_resolve_named_step(raw_regions@, i as int, image, 0, 0);
                        lemma_last_index_of(names_of(entries), name@);
                        let after = entries_with(entries, name, shared);
                        assert forall|j: int| 0 <= j < after.len() implies (*(#[trigger] after[j]).1).wf() by {
                            if j < entries.len() && after[j] != (name, shared) {
                                assert(after[j] == entries[j]);
                            }
                        }
                    }
                    regions.insert(name, shared);
                    assert(shared_regions(regions@) =~= before.insert(name@, held));
                },
                Err(error) => {
                    proof {
                        lemma_unplaced_entry(raw_regions@, image, 0, 0, i as int);
                    }
                    return Err(error);
                },
            }
            i = i + 1;
        }
        proof {
            assert(raw_regions@.take(i as int) =~= raw_regions@);
        }
        Ok(TextureAtlas { image, regions })
    }

    #[verifier::when_used_as_spec(spec_image)]
    pub fn image(&self) -> (image: Texture)
        ensures
            image == self.spec_image(),
    {
        self.image
    }

    /// The region that `details` names, if any.
    pub fn get_region(&self, details: &str) -> (region: Option<Rc<Region>>)
        ensures
            match region {
                Some(found) => self@.contains_key(details@) && found@ == self@[details@]
                    && found.wf(),
                None => !self@.contains_key(details@),
            },
    {
        proof {
            use_type_invariant(self);
            lemma_last_index_of(names_of(self.regions.entries@), details@);
        }
        match self.regions.get(details) {
            Some(found) => Some(share(found)),
            None => None,
        }
    }
}

/// The regions of an atlas are found under the names and hold what the
/// atlas holds under them.
pub proof fn lemma_atlas_names_its_regions(atlas: NameMap<Region>, name: Seq<char>)
    ensures
        atlas@.contains_key(name) <==> regions_by_name(atlas.entries@).contains_key(name),
        atlas@.contains_key(name) ==> atlas@[name]@ == regions_by_name(atlas.entries@)[name],
{
    lemma_last_index_of(names_of(atlas.entries@), name);
}

/// A single rectangle is placed by moving its corner and keeping its
/// extent.
pub proof fn lemma_single_keeps_its_extent(rect: Rect, texture: Texture, x: u32, y: u32)
    requires
        rect.x + x <= u32::MAX,
        rect.y + y <= u32::MAX,
    ensures
        RawRegion::Single(rect).resolve(texture, x, y) == Some(
            RegionView::Single(
                TextureRegion {
                    texture,
                    src: Rect {
                        x: (rect.x + x) as u32,
                        y: (rect.y + y) as u32,
                        width: rect.width,
                        height: rect.height,
                    },
                },
            ),
        ),
{
}

/// What an atlas names is placed relative to the atlas's own corner, as
/// the atlas itself was placed.
pub proof fn lemma_atlas_places_its_regions(
    region: RawRegion,
    texture: Texture,
    x: u32,
    y: u32,
    name: Seq<char>,
)
    requires
        region is Atlas,
        region.resolve(texture, x, y) is Some,
        last_index_of(names_of(region->Atlas_1@), name) >= 0,
    ensures
        ({
            let named = region->Atlas_1@[last_index_of(names_of(region->Atlas_1@), name)].1;
            let placed = region.resolve(texture, x, y).unwrap();
            let corner = region->Atlas_0;
            &&& placed is Atlas
            &&& placed->Atlas_0.contains_key(name)
            &&& corner.x + x <= u32::MAX
            &&& corner.y + y <= u32::MAX
            &&& Some(placed->Atlas_0[name]) == named.resolve(
                texture,
                (corner.x + x) as u32,
                (corner.y + y) as u32,
            )
        }),
{
    reveal_with_fuel(RawRegion::resolve, 2);
    lemma_last_index_of(names_of(region->Atlas_1@), name);
}

/// Offsets add up through nesting: a rectangle in an atlas in an atlas lies
/// as far from the image's origin as the three of them say together.
pub proof fn lemma_offsets_add_up(
    outer: RawRegion,
    inner_name: Seq<char>,
    leaf_name: Seq<char>,
    texture: Texture,
)
    requires
        outer is Atlas,
        last_index_of(names_of(outer->Atlas_1@), inner_name) >= 0,
        ({
            let inner = outer->Atlas_1@[last_index_of(names_of(outer->Atlas_1@), inner_name)].1;
            &&& inner is Atlas
            &&& last_index_of(names_of(inner->Atlas_1@), leaf_name) >= 0
            &&& inner->Atlas_1@[last_index_of(names_of(inner->Atlas_1@), leaf_name)].1 is Single
        }),
        outer.resolve(texture, 0, 0) is Some,
    ensures
        ({
            let inner = outer->Atlas_1@[last_index_of(names_of(outer->Atlas_1@), inner_name)].1;
            let leaf = inner->Atlas_1@[last_index_of(names_of(inner->Atlas_1@), leaf_name)].1;
            let rect = leaf->Single_0;
            let placed = outer.resolve(texture, 0, 0).unwrap();
            &&& placed is Atlas
            &&& placed->Atlas_0.contains_key(inner_name)
            &&& placed->Atlas_0[inner_name] is Atlas
            &&& placed->Atlas_0[inner_name]->Atlas_0.contains_key(leaf_name)
            &&& placed->Atlas_0[inner_name]->Atlas_0[leaf_name] == RegionView::Single(
                TextureRegion {
                    texture,
                    src: Rect {
                        x: (outer->Atlas_0.x + inner->Atlas_0.x + rect.x) as u32,
                        y: (outer->Atlas_0.y + inner->Atlas_0.y + rect.y) as u32,
                        width: rect.width,
                        height: rect.height,
                    },
                },
            )
            &&& outer->Atlas_0.x + inner->Atlas_0.x + rect.x <= u32::MAX
            &&& outer->Atlas_0.y + inner->Atlas_0.y + rect.y <= u32::MAX
        }),
{
    let inner = outer->Atlas_1@[last_index_of(names_of(outer->Atlas_1@), inner_name)].1;
    lemma_atlas_places_its_regions(outer, texture, 0, 0, inner_name);
    let at = outer->Atlas_0;
    lemma_atlas_places_its_regions(inner, texture, at.x, at.y, leaf_name);
}

/// What an animation shows is placed relative to the animation's own
/// corner, as the animation itself was placed.
pub proof fn lemma_animation_places_its_frames(
    region: RawRegion,
    texture: Texture,
    x: u32,
    y: u32,
    frame: int,
)
    requires
        region is Animation,
        region.resolve(texture, x, y) is Some,
        0 <= frame < region->Animation_1@.len(),
    ensures
        ({
            let placed = region.resolve(texture, x, y).unwrap();
            let corner = region->Animation_0;
            &&& placed is Animation
            &&& placed->Animation_0.len() == region->Animation_1@.len()
            &&& corner.x + x <= u32::MAX
            &&& corner.y + y <= u32::MAX
            &&& Some(placed->Animation_0[frame]) == region->Animation_1@[frame].resolve(
                texture,
                (corner.x + x) as u32,
                (corner.y + y) as u32,
            )
        }),
{
}

/// One step from a region to a region that it holds: to what an atlas
/// names, or to a frame of an animation.
pub enum PathStep {
    Named(Seq<char>),
    Frame(int),
}

/// Where a step from `region` leads, if it leads anywhere.
pub open spec fn step_into(region: RawRegion, step: PathStep) -> Option<RawRegion> {
    match (region, step) {
        (RawRegion::Atlas(_, entries), PathStep::Named(name)) => {
            let i = last_index_of(names_of(entries@), name);
            if 0 <= i < entries@.len() {
                Some(entries@[i].1)
            } else {
                None
            }
        },
        (RawRegion::Animation(_, frames), PathStep::Frame(i)) => if 0 <= i < frames@.len() {
            Some(frames@[i])
        } else {
            None
        },
        _ => None,
    }
}

/// Where a step from what `region` holds leads, if it leads anywhere.
pub open spec fn step_into_view(region: RegionView, step: PathStep) -> Option<RegionView> {
    match (region, step) {
        (RegionView::Atlas(regions), PathStep::Named(name)) => if regions.contains_key(name) {
            Some(regions[name])
        } else {
            None
        },
        (RegionView::Animation(frames), PathStep::Frame(i)) => if 0 <= i < frames.len() {
            Some(frames[i])
        } else {
            None
        },
        _ => None,
    }
}

/// The corner of an atlas or an animation, relative to the region around
/// it; the origin for other regions.
pub open spec fn own_corner(region: RawRegion) -> (int, int) {
    match region {
        RawRegion::Atlas(src, _) => (src.x as int, src.y as int),
        RawRegion::Animation(src, _) => (src.x as int, src.y as int),
        _ => (0, 0),
    }
}

/// Where a path of steps from `region` leads, if it leads anywhere.
pub open spec fn walk(region: RawRegion, path: Seq<PathStep>) -> Option<RawRegion>
    decreases path.len(),
{
    if path.len() == 0 {
        Some(region)
    } else {
        match step_into(region, path.first()) {
            Some(next) => walk(next, path.drop_first()),
            None => None,
        }
    }
}

/// Where a path of steps from what `region` holds leads, if it leads
/// anywhere.
pub open spec fn walk_view(region: RegionView, path: Seq<PathStep>) -> Option<RegionView>
    decreases path.len(),
{
    if path.len() == 0 {
        Some(region)
    } else {
        match step_into_view(region, path.first()) {
            Some(next) => walk_view(next, path.drop_first()),
            None => None,
        }
    }
}

/// The corners of the regions that a path leaves behind, added up: how far
/// the region at the end of the path lies from the corner that `region` is
/// relative to, not counting that region's own corner.
pub open spec fn offset_along(region: RawRegion, path: Seq<PathStep>) -> (int, int)
    decreases path.len(),
{
    if path.len() == 0 {
        (0, 0)
    } else {
        match step_into(region, path.first()) {
            Some(next) => {
                let rest = offset_along(next, path.drop_first());
                (own_corner(region).0 + rest.0, own_corner(region).1 + rest.1)
            },
            None => (0, 0),
        }
    }
}

/// Offsets add up through nesting of any depth: what a placed region holds
/// at the end of a path is what its description holds there, placed
/// relative to the sum of the corners along the path.
pub proof fn lemma_offsets_add_up_along_a_path(
    region: RawRegion,
    path: Seq<PathStep>,
    texture: Texture,
    x: u32,
    y: u32,
)
    requires
        region.resolve(texture, x, y) is Some,
        walk(region, path) is Some,
    ensures
        ({
            let offset = offset_along(region, path);
            &&& 0 <= offset.0 && 0 <= offset.1
            &&& x + offset.0 <= u32::MAX
            &&& y + offset.1 <= u32::MAX
            &&& walk_view(region.resolve(texture, x, y).unwrap(), path) == walk(
                region,
                path,
            ).unwrap().resolve(texture, (x + offset.0) as u32, (y + offset.1) as u32)
            &&& walk_view(region.resolve(texture, x, y).unwrap(), path) is Some
        }),
    decreases path.len(),
{
    if path.len() > 0 {
        let next = step_into(region, path.first()).unwrap();
        let corner = own_corner(region);
        match path.first() {
            PathStep::Named(name) => {
                lemma_atlas_places_its_regions(region, texture, x, y, name);
            },
            PathStep::Frame(i) => {
                lemma_animation_places_its_frames(region, texture, x, y, i);
            },
        }
        lemma_offsets_add_up_along_a_path(
            next,
            path.drop_first(),
            texture,
            (x + corner.0) as u32,
            (y + corner.1) as u32,
        );
    }
}

} // verus!
