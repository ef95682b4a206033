use row666_metroidbrainia::name_map::{same_text, NameMap};
use row666_metroidbrainia::texture::Texture;
use row666_metroidbrainia::texture_atlas::{
    AtlasError, DeferredTextureRegion, RawRegion, Rect, Region, TextureAtlas, TextureRegion,
};

fn image() -> Texture {
    Texture::new(3, 512, 512)
}

fn rect(x: u32, y: u32, width: u32, height: u32) -> Rect {
    Rect { x, y, width, height }
}

fn named(name: &str, region: RawRegion) -> (String, RawRegion) {
    (String::from(name), region)
}

#[test]
fn a_region_in_an_atlas_is_placed_from_the_atlas() {
    let description = vec![named(
        "outer",
        RawRegion::Atlas(rect(10, 10, 100, 100), vec![named("a", RawRegion::Single(rect(0, 0, 8, 8)))]),
    )];
    let atlas = TextureAtlas::load(image(), &description).unwrap();
    let outer = atlas.get_region("outer").unwrap().unwrap_atlas();
    let a = outer.get("a").unwrap().unwrap_single();
    assert_eq!(a.src, rect(10, 10, 8, 8));
    assert_eq!(a.texture.id(), 3);
}

#[test]
fn offsets_add_up_through_two_atlases() {
    let inner = RawRegion::Atlas(
        rect(5, 7, 50, 50),
        vec![
            named("leaf", RawRegion::Single(rect(1, 2, 8, 9))),
            named("pair", RawRegion::NormalPair(rect(3, 4, 5, 6), rect(13, 14, 5, 6))),
        ],
    );
    let description = vec![
        named("entities", RawRegion::Atlas(rect(10, 20, 100, 100), vec![named("zombie", inner)])),
        named("target", RawRegion::Single(rect(200, 100, 16, 16))),
    ];
    let atlas = TextureAtlas::load(image(), &description).unwrap();
    let entities = atlas.get_region("entities").unwrap().unwrap_atlas();
    let zombie = entities.get("zombie").unwrap().unwrap_atlas();
    assert_eq!(zombie.get("leaf").unwrap().unwrap_single().src, rect(16, 29, 8, 9));
    let pair: DeferredTextureRegion = zombie.get("pair").unwrap().unwrap_pair();
    assert_eq!(pair.albedo, rect(18, 31, 5, 6));
    assert_eq!(pair.normal, rect(28, 41, 5, 6));
    assert_eq!(atlas.get_region("target").unwrap().unwrap_single().src, rect(200, 100, 16, 16));
}

#[test]
fn a_region_at_the_top_keeps_the_numbers_of_its_description() {
    let description = vec![
        named("single", RawRegion::Single(rect(1, 2, 3, 4))),
        named("pair", RawRegion::NormalPair(rect(5, 6, 7, 8), rect(9, 10, 11, 12))),
    ];
    let atlas = TextureAtlas::load(image(), &description).unwrap();
    let single: TextureRegion = atlas.get_region("single").unwrap().expect_single("a single");
    assert_eq!(single.src, rect(1, 2, 3, 4));
    let pair = atlas.get_region("pair").unwrap().expect_pair("a pair");
    assert_eq!((pair.albedo, pair.normal), (rect(5, 6, 7, 8), rect(9, 10, 11, 12)));
    assert_eq!(atlas.image().id(), 3);
}

#[test]
fn the_frames_of_an_animation_are_placed_from_the_animation() {
    let walk = RawRegion::Animation(
        rect(100, 50, 64, 16),
        vec![
            RawRegion::Single(rect(0, 0, 16, 16)),
            RawRegion::Single(rect(16, 0, 16, 16)),
            RawRegion::Animation(rect(32, 1, 32, 16), vec![RawRegion::Single(rect(2, 3, 4, 5))]),
        ],
    );
    let placed = walk.set_image(image(), 1000, 2000).unwrap();
    let frames = placed.unwrap_animation();
    assert_eq!(frames.len(), 3);
    assert_eq!(frames[0].unwrap_single().src, rect(1100, 2050, 16, 16));
    assert_eq!(frames[1].unwrap_single().src, rect(1116, 2050, 16, 16));
    let nested = frames[2].expect_animation("an animation");
    assert_eq!(nested[0].unwrap_single().src, rect(1134, 2054, 4, 5));
}

#[test]
fn an_atlas_in_an_animation_in_an_atlas() {
    let raw = RawRegion::Atlas(
        rect(1, 1, 10, 10),
        vec![named(
            "frames",
            RawRegion::Animation(
                rect(2, 2, 10, 10),
                vec![RawRegion::Atlas(rect(3, 3, 5, 5), vec![named("x", RawRegion::Single(rect(4, 4, 1, 1)))])],
            ),
        )],
    );
    let placed = raw.set_image(image(), 0, 0).unwrap();
    let frames = placed.unwrap_atlas().get("frames").unwrap().unwrap_animation();
    let x = frames[0].expect_atlas("an atlas").get("x").unwrap().unwrap_single();
    assert_eq!(x.src, rect(10, 10, 1, 1));
}

#[test]
fn a_region_beyond_32_bits_makes_no_atlas() {
    let far = RawRegion::Single(rect(u32::MAX, 0, 1, 1));
    assert!(matches!(far.set_image(image(), 0, 0), Ok(Region::Single(_))));
    assert!(matches!(far.set_image(image(), 1, 0), Err(AtlasError::OutOfRange)));
    assert!(matches!(
        RawRegion::Single(rect(0, 1, 1, 1)).set_image(image(), 0, u32::MAX),
        Err(AtlasError::OutOfRange)
    ));
    assert!(matches!(
        RawRegion::NormalPair(rect(0, 0, 1, 1), rect(u32::MAX, 0, 1, 1)).set_image(image(), 1, 0),
        Err(AtlasError::OutOfRange)
    ));
    let description = vec![
        named("near", RawRegion::Single(rect(0, 0, 1, 1))),
        named(
            "deep",
            RawRegion::Atlas(
                rect(u32::MAX - 1, 0, 1, 1),
                vec![named("a", RawRegion::Animation(rect(0, 0, 1, 1), vec![RawRegion::Single(rect(2, 0, 1, 1))]))],
            ),
        ),
    ];
    assert!(matches!(TextureAtlas::load(image(), &description), Err(AtlasError::OutOfRange)));
}

#[test]
fn a_name_that_is_not_there_is_not_found() {
    let description = vec![named("a", RawRegion::Single(rect(0, 0, 1, 1)))];
    let atlas = TextureAtlas::load(image(), &description).unwrap();
    assert!(atlas.get_region("b").is_none());
    assert!(atlas.get_region("").is_none());
    assert!(atlas.get_region("A").is_none());
    assert!(TextureAtlas::new(image()).get_region("a").is_none());
}

#[test]
fn the_last_of_two_equal_names_counts() {
    let description = vec![
        named("a", RawRegion::Single(rect(1, 1, 1, 1))),
        named("b", RawRegion::Single(rect(2, 2, 2, 2))),
        named("a", RawRegion::Single(rect(3, 3, 3, 3))),
    ];
    let atlas = TextureAtlas::load(image(), &description).unwrap();
    assert_eq!(atlas.get_region("a").unwrap().unwrap_single().src, rect(3, 3, 3, 3));
    assert_eq!(atlas.get_region("b").unwrap().unwrap_single().src, rect(2, 2, 2, 2));
}

#[test]
fn a_region_is_handed_out_as_one_shared_value() {
    let description = vec![named("a", RawRegion::Single(rect(1, 1, 1, 1)))];
    let atlas = TextureAtlas::load(image(), &description).unwrap();
    let first = atlas.get_region("a").unwrap();
    let second = atlas.get_region("a").unwrap();
    assert!(std::rc::Rc::ptr_eq(&first, &second));
}

#[test]
fn a_copy_of_a_region_holds_the_same() {
    let raw = RawRegion::Atlas(
        rect(1, 1, 10, 10),
        vec![
            named("frames", RawRegion::Animation(rect(2, 2, 10, 10), vec![RawRegion::Single(rect(4, 4, 1, 1))])),
            named("one", RawRegion::Single(rect(7, 8, 9, 10))),
        ],
    );
    let placed = raw.set_image(image(), 0, 0).unwrap();
    let copy = placed.clone();
    let original = placed.unwrap_atlas();
    let copied = copy.unwrap_atlas();
    assert_eq!(original.len(), 2);
    assert_eq!(copied.len(), 2);
    assert_eq!(copied.get("one").unwrap().unwrap_single().src, rect(8, 9, 9, 10));
    assert_eq!(
        copied.get("frames").unwrap().unwrap_animation()[0].unwrap_single().src,
        rect(7, 7, 1, 1)
    );
}

#[test]
fn a_name_map_names_what_was_inserted_last() {
    let mut map: NameMap<u32> = NameMap::new();
    assert!(map.get("a").is_none());
    assert!(!map.contains("a"));
    map.insert(String::from("a"), 1);
    map.insert(String::from("b"), 2);
    map.insert(String::from("a"), 3);
    assert_eq!(map.get("a"), Some(&3));
    assert_eq!(map.get("b"), Some(&2));
    assert_eq!(map.len(), 2);
    assert_eq!(map.position("a"), Some(0));
    assert_eq!(map.position("b"), Some(1));
    assert_eq!(map.position("c"), None);
    assert!(map.contains("b"));
    assert!(!map.contains("ab"));
}

#[test]
fn texts_are_compared_by_what_they_hold() {
    assert!(same_text("", ""));
    assert!(same_text("zombie", "zombie"));
    assert!(!same_text("zombie", "zombi"));
    assert!(!same_text("zombie", "zombif"));
    assert!(same_text("\u{e9}t\u{e9}", "\u{e9}t\u{e9}"));
    assert!(!same_text("\u{e9}", "e"));
}

#[test]
fn a_rectangle_lies_within_a_texture_that_holds_it() {
    let texture = Texture::new(1, 64, 32);
    assert!(rect(0, 0, 64, 32).lies_within(&texture));
    assert!(rect(63, 31, 1, 1).lies_within(&texture));
    assert!(rect(64, 32, 0, 0).lies_within(&texture));
    assert!(!rect(1, 0, 64, 32).lies_within(&texture));
    assert!(!rect(0, 1, 64, 32).lies_within(&texture));
    assert!(!rect(u32::MAX, 0, 2, 1).lies_within(&texture));
    assert!(!rect(0, u32::MAX, 1, u32::MAX).lies_within(&texture));
}

#[test]
fn a_name_given_twice_in_an_atlas_is_there_once() {
    let raw = RawRegion::Atlas(
        rect(1, 1, 10, 10),
        vec![
            named("a", RawRegion::Single(rect(1, 0, 1, 1))),
            named("b", RawRegion::Single(rect(2, 0, 1, 1))),
            named("a", RawRegion::Single(rect(3, 0, 1, 1))),
        ],
    );
    let atlas = raw.set_image(image(), 0, 0).unwrap().unwrap_atlas();
    assert_eq!(atlas.len(), 2);
    assert_eq!(atlas.get("a").unwrap().unwrap_single().src, rect(4, 1, 1, 1));
    assert_eq!(atlas.get("b").unwrap().unwrap_single().src, rect(3, 1, 1, 1));
}
