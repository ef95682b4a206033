//! The geometry pass: every sprite drawn this frame becomes one quad that
//! samples the colour and the normals of a single sheet.

use vstd::prelude::*;
use crate::camera::{VIEWPORT_HEIGHT, VIEWPORT_WIDTH};
use crate::gfx::pipeline::{
    alpha_blended, alpha_blending, texture_bind_group_layout, texture_bindings,
    uniform_bind_group_layout, uniform_bindings, ColorTargetState, Pipeline, RenderTarget,
    TextureFormat,
};
use crate::gfx::plan::{format_of, targets_of, Layer, Target};
use crate::gfx::quad::{
    index_bytes, lays_out, lemma_indices_stay_in_their_quad, push_quad_indices, quad_indices,
    quad_winding, turn, MAX_QUADS,
};
use crate::ratio::Ratio;
use crate::texture::Texture;
use crate::texture_atlas::{DeferredTextureRegion, Rect};

verus! {

/// One corner of a sprite's quad.
///
/// The corner lies `offset` texels from `origin` along x and y. Its texture
/// coordinates are fractions of the sheet's width and height.
#[derive(Debug)]
pub struct DeferredVertex<S> {
    pub origin: (S, S, S),
    pub offset: (u32, u32),
    pub albedo_coords: (Ratio, Ratio),
    pub normal_coords: (Ratio, Ratio),
}

impl<S: Copy> Clone for DeferredVertex<S> {
    fn clone(&self) -> (v: Self)
        ensures
            v == *self,
    {
        *self
    }
}

impl<S: Copy> Copy for DeferredVertex<S> {

}

/// A sprite as it was drawn: where, and which part of the sheet.
pub type Sprite<S> = ((S, S, S), DeferredTextureRegion);

/// Whether a corner lies on the far side of its quad along x.
pub open spec fn corner_is_far_x(corner: int) -> bool {
    corner == 1 || corner == 2
}

/// Whether a corner lies on the far side of its quad along y.
pub open spec fn corner_is_far_y(corner: int) -> bool {
    corner == 2 || corner == 3
}

/// How far a corner of a quad that shows `rect` lies from the quad's origin.
pub open spec fn corner_offset(rect: Rect, corner: int) -> (u32, u32) {
    (
        if corner_is_far_x(corner) { rect.width } else { 0 },
        if corner_is_far_y(corner) { rect.height } else { 0 },
    )
}

/// The texture coordinates at a corner of a quad that shows `rect` of
/// `sheet`.
///
/// Texture space has its origin at the bottom left, so the quad's near edge
/// in y samples the rectangle's far edge, `rect.y + rect.height`.
pub open spec fn corner_coords(rect: Rect, sheet: Texture, corner: int) -> (Ratio, Ratio) {
    (
        Ratio {
            num: (rect.x + if corner_is_far_x(corner) { rect.width } else { 0 }) as u64,
            den: sheet.width() as u64,
        },
        Ratio {
            num: (rect.y + if corner_is_far_y(corner) { 0 } else { rect.height }) as u64,
            den: sheet.height() as u64,
        },
    )
}

/// The vertex at one corner of a sprite's quad.
pub open spec fn sprite_vertex<S>(sprite: Sprite<S>, corner: int) -> DeferredVertex<S> {
    DeferredVertex {
        origin: sprite.0,
        offset: corner_offset(sprite.1.albedo, corner),
        albedo_coords: corner_coords(sprite.1.albedo, sprite.1.texture, corner),
        normal_coords: corner_coords(sprite.1.normal, sprite.1.texture, corner),
    }
}

/// The vertex buffer of a batch: the four corners of each sprite, in the
/// order in which the sprites were drawn.
pub open spec fn sprite_vertices<S>(sprites: Seq<Sprite<S>>) -> Seq<DeferredVertex<S>> {
    Seq::new(4 * sprites.len(), |k: int| sprite_vertex(sprites[k / 4], k % 4))
}

fn corner_coords_of(rect: &Rect, sheet: &Texture, corner: usize) -> (coords: (Ratio, Ratio))
    requires
        corner < 4,
    ensures
        coords == corner_coords(*rect, *sheet, corner as int),
{
    let far_x: u64 = if corner == 1 || corner == 2 { rect.width as u64 } else { 0 };
    let far_y: u64 = if corner == 2 || corner == 3 { 0 } else { rect.height as u64 };
    (
        Ratio::new(rect.x as u64 + far_x, sheet.width() as u64),
        Ratio::new(rect.y as u64 + far_y, sheet.height() as u64),
    )
}

fn sprite_corner<S: Copy>(position: (S, S, S), region: &DeferredTextureRegion, corner: usize) -> (v:
    DeferredVertex<S>)
    requires
        corner < 4,
    ensures
        v == sprite_vertex((position, *region), corner as int),
{
    let dx: u32 = if corner == 1 || corner == 2 { region.albedo.width } else { 0 };
    let dy: u32 = if corner == 2 || corner == 3 { region.albedo.height } else { 0 };
    DeferredVertex {
        origin: position,
        offset: (dx, dy),
        albedo_coords: corner_coords_of(&region.albedo, &region.texture, corner),
        normal_coords: corner_coords_of(&region.normal, &region.texture, corner),
    }
}

/// The sprites drawn since the batch was last emptied, oldest first.
pub struct DeferredSpriteBatch<S> {
    sprites: Vec<Sprite<S>>,
}

impl<S> View for DeferredSpriteBatch<S> {
    type V = Seq<Sprite<S>>;

    closed spec fn view(&self) -> Seq<Sprite<S>> {
        self.sprites@
    }
}

impl<S: Copy> DeferredSpriteBatch<S> {
    pub fn new() -> (batch: DeferredSpriteBatch<S>)
        ensures
            batch@ == Seq::<Sprite<S>>::empty(),
    {
        DeferredSpriteBatch { sprites: Vec::new() }
    }

    /// Adds one sprite to the batch.
    pub fn push(&mut self, position: (S, S, S), region: DeferredTextureRegion)
        ensures
            final(self)@ == old(self)@.push((position, region)),
    {
        self.sprites.push((position, region));
    }

    /// Empties the batch.
    pub fn clear(&mut self)
        ensures
            final(self)@ == Seq::<Sprite<S>>::empty(),
    {
        self.sprites.clear();
    }

    /// Expands the batch into its vertex and index buffers.
    pub fn gen_vecs(&self) -> (out: (Vec<DeferredVertex<S>>, Vec<u16>))
        requires
            self@.len() <= MAX_QUADS,
        ensures
            out.0@ == sprite_vertices(self@),
            out.1@ == quad_indices(self@.len()),
            out.0@.len() == 4 * self@.len(),
            out.1@.len() == 6 * self@.len(),
            forall|k: int|
                0 <= k < out.1@.len() ==> 4 * (k / 6) <= #[trigger] out.1@[k] < 4 * (k / 6) + 4,
    {
        let mut vertices: Vec<DeferredVertex<S>> = Vec::new();
        let mut indices: Vec<u16> = Vec::new();
        let count: usize = self.sprites.len();
        let mut index: usize = 0;
        while index < count
            invariant
                count == self.sprites@.len(),
                count <= MAX_QUADS,
                index <= count,
                vertices@ == sprite_vertices(self.sprites@.take(index as int)),
                indices@ == quad_indices(index as nat),
            decreases count - index,
        {
            let position: (S, S, S) = self.sprites[index].0;
            let region: DeferredTextureRegion = self.sprites[index].1;
            let ghost before = vertices@;
            vertices.push(sprite_corner(position, &region, 0));
            vertices.push(sprite_corner(position, &region, 1));
            vertices.push(sprite_corner(position, &region, 2));
            vertices.push(sprite_corner(position, &region, 3));
            push_quad_indices(&mut indices, index);
            proof {
                let done = self.sprites@.take(index as int);
                let next = self.sprites@.take(index + 1);
                let after = sprite_vertices(next);
                assert forall|k: int| 0 <= k < after.len() implies vertices@[k] == after[k] by {
                    if k < 4 * index {
                        assert(vertices@[k] == before[k]);
                        assert(next[k / 4] == done[k / 4]);
                    } else {
                        assert(k / 4 == index as int);
                        assert(k % 4 == k - 4 * index);
                        assert(next[k / 4] == self.sprites@[index as int]);
                    }
                }
                assert(vertices@ =~= after);
            }
            index = index + 1;
        }
        proof {
            assert(self.sprites@.take(count as int) =~= self.sprites@);
            assert forall|k: int| 0 <= k < indices@.len() implies 4 * (k / 6) <= #[trigger] indices@[k]
                < 4 * (k / 6) + 4 by {
                lemma_indices_stay_in_their_quad(count as nat, k);
            }
        }
        (vertices, indices)
    }

    /// How many sprites are waiting to be drawn.
    pub fn len(&self) -> (n: usize)
        ensures
            n == self@.len(),
    {
        self.sprites.len()
    }
}

/// What the geometry pass draws in one frame: the corners of the sprites,
/// the indices that make triangles of them, and the same indices as the
/// bytes of an index buffer.
pub struct DeferredFrame<S> {
    pub vertices: Vec<DeferredVertex<S>>,
    pub indices: Vec<u16>,
    pub index_bytes: Vec<u8>,
}

/// The geometry pass of one sheet, between two frames or in the middle of
/// one.
pub struct DeferredPass<S> {
    sprites: DeferredSpriteBatch<S>,
    sheet: Texture,
}

impl<S: Copy> DeferredPass<S> {
    /// The sprites drawn since the last frame, oldest first.
    pub closed spec fn pending(&self) -> Seq<Sprite<S>> {
        self.sprites@
    }

    /// The one sheet whose sprites this pass draws.
    pub closed spec fn spec_sheet(&self) -> Texture {
        self.sheet
    }

    /// What [`DeferredPass::draw`] does: it turns the pass `before` into the
    /// pass `after` and hands out `vertices` and `indices`.
    pub open spec fn draws(
        before: &Self,
        after: &Self,
        vertices: Seq<DeferredVertex<S>>,
        indices: Seq<u16>,
    ) -> bool {
        &&& vertices == sprite_vertices(before.pending())
        &&& indices == quad_indices(before.pending().len())
        &&& after.pending() == Seq::<Sprite<S>>::empty()
        &&& after.spec_sheet() == before.spec_sheet()
    }

    pub fn new(sheet: Texture) -> (pass: DeferredPass<S>)
        ensures
            pass.spec_sheet() == sheet,
            pass.pending() == Seq::<Sprite<S>>::empty(),
    {
        DeferredPass { sprites: DeferredSpriteBatch::new(), sheet }
    }

    #[verifier::when_used_as_spec(spec_sheet)]
    pub fn sheet(&self) -> (sheet: Texture)
        ensures
            sheet == self.spec_sheet(),
    {
        self.sheet
    }

    /// How many sprites are waiting to be drawn.
    pub fn len(&self) -> (n: usize)
        ensures
            n == self.pending().len(),
    {
        self.sprites.len()
    }

    /// Whether `image` lies on this pass's sheet, and so may be drawn.
    pub fn accepts(&self, image: &DeferredTextureRegion) -> (b: bool)
        ensures
            b == self.spec_sheet().same_resource(image.texture),
    {
        self.sheet == image.texture
    }

    /// Queues one sprite for the frame being built.
    pub fn draw_sprite(&mut self, position: (S, S, S), image: DeferredTextureRegion)
        requires
            old(self).spec_sheet().same_resource(image.texture),
        ensures
            final(self).pending() == old(self).pending().push((position, image)),
            final(self).spec_sheet() == old(self).spec_sheet(),
    {
        self.sprites.push(position, image);
    }

    /// Ends the frame: hands out the geometry of every queued sprite and
    /// forgets the sprites.
    pub fn draw(&mut self) -> (frame: DeferredFrame<S>)
        requires
            old(self).pending().len() <= MAX_QUADS,
        ensures
            Self::draws(old(self), final(self), frame.vertices@, frame.indices@),
            frame.vertices@.len() == 4 * old(self).pending().len(),
            frame.indices@.len() == 6 * old(self).pending().len(),
            forall|k: int|
                0 <= k < frame.indices@.len() ==> 4 * (k / 6) <= #[trigger] frame.indices@[k] < 4 * (
                k / 6) + 4,
            lays_out(frame.index_bytes@, frame.indices@, true) || lays_out(
                frame.index_bytes@,
                frame.indices@,
                false,
            ),
    {
        let (vertices, indices) = self.sprites.gen_vecs();
        self.sprites.clear();
        let index_bytes = index_bytes(&indices);
        DeferredFrame { vertices, indices, index_bytes }
    }

    /// A frame that follows another with no sprite drawn in between has no
    /// geometry: what one frame drew is not drawn again.
    pub proof fn lemma_frames_do_not_leak(
        first: &Self,
        second: &Self,
        third: &Self,
        drawn: (Seq<DeferredVertex<S>>, Seq<u16>),
        redrawn: (Seq<DeferredVertex<S>>, Seq<u16>),
    )
        requires
            Self::draws(first, second, drawn.0, drawn.1),
            Self::draws(second, third, redrawn.0, redrawn.1),
        ensures
            redrawn.0.len() == 0,
            redrawn.1.len() == 0,
            third.pending().len() == 0,
    {
    }
}

/// A sprite that shows the whole of its sheet samples exactly the sheet's
/// corners: 0 and 1 along x from the near side to the far side, and 1 and 0
/// along y, whose axis texture space turns over.
pub proof fn lemma_whole_sheet_maps_to_unit_square(sheet: Texture, corner: int)
    requires
        0 <= corner < 4,
        sheet.width() > 0,
        sheet.height() > 0,
    ensures
        ({
            let whole = Rect { x: 0, y: 0, width: sheet.width(), height: sheet.height() };
            let coords = corner_coords(whole, sheet, corner);
            &&& coords.0.is_integer(if corner_is_far_x(corner) { 1 } else { 0 })
            &&& coords.1.is_integer(if corner_is_far_y(corner) { 0 } else { 1 })
        }),
{
}

/// A rectangle that lies within its sheet is sampled within the sheet: no
/// texture coordinate of any corner exceeds one.
pub proof fn lemma_rect_within_sheet_samples_within(rect: Rect, sheet: Texture, corner: int)
    requires
        0 <= corner < 4,
        rect.within(sheet),
        sheet.width() > 0,
        sheet.height() > 0,
    ensures
        corner_coords(rect, sheet, corner).0.at_most(Ratio { num: 1, den: 1 }),
        corner_coords(rect, sheet, corner).1.at_most(Ratio { num: 1, den: 1 }),
{
}

/// The pipeline of the geometry pass: the sheet and the camera are bound,
/// and colour and normals are drawn at once into two targets of the same
/// kind, each blended by alpha.
pub fn pipeline() -> (pipeline: Pipeline)
    ensures
        pipeline.is_standard(),
        pipeline.label@ == "DeferredPass"@ + " Pipeline"@,
        pipeline.layout_label@ == "DeferredPass"@ + " Pipeline Layout"@,
        pipeline.bind_group_layouts@.len() == 2,
        pipeline.bind_group_layouts@[0]@ == texture_bindings(),
        pipeline.bind_group_layouts@[1]@ == uniform_bindings(),
        pipeline.targets@ == targets_of(Layer::Sprites),
{
    let mut layouts = Vec::new();
    layouts.push(texture_bind_group_layout());
    layouts.push(uniform_bind_group_layout());
    let mut targets: Vec<ColorTargetState> = Vec::new();
    targets.push(alpha_blended(TextureFormat::Rgba8Unorm));
    targets.push(alpha_blended(TextureFormat::Rgba8Unorm));
    assert(targets@ =~= seq![
        ColorTargetState { format: TextureFormat::Rgba8Unorm, blend: Some(alpha_blending()) },
        ColorTargetState { format: TextureFormat::Rgba8Unorm, blend: Some(alpha_blending()) },
    ]);
    Pipeline::new(layouts, targets, "DeferredPass")
}

/// The target that takes the sprites' colour.
pub fn albedo_buffer() -> (target: RenderTarget)
    ensures
        target.label@ == "albedo_buffer"@,
        target.size == (VIEWPORT_WIDTH, VIEWPORT_HEIGHT),
        target.format == format_of(Target::Albedo),
{
    RenderTarget {
        label: "albedo_buffer",
        size: (VIEWPORT_WIDTH, VIEWPORT_HEIGHT),
        format: TextureFormat::Rgba8Unorm,
    }
}

/// The target that takes the sprites' normals.
pub fn normal_buffer() -> (target: RenderTarget)
    ensures
        target.label@ == "normal_buffer"@,
        target.size == (VIEWPORT_WIDTH, VIEWPORT_HEIGHT),
        target.format == format_of(Target::Normal),
{
    RenderTarget {
        label: "normal_buffer",
        size: (VIEWPORT_WIDTH, VIEWPORT_HEIGHT),
        format: TextureFormat::Rgba8Unorm,
    }
}

/// A sprite of positive extent makes two triangles that turn
/// counter-clockwise, seen with y pointing up.
pub proof fn lemma_sprite_turns_counter_clockwise(rect: Rect, triangle: int)
    requires
        0 <= triangle < 2,
        rect.width > 0,
        rect.height > 0,
    ensures
        ({
            let first = corner_offset(rect, quad_winding()[3 * triangle]);
            let second = corner_offset(rect, quad_winding()[3 * triangle + 1]);
            let third = corner_offset(rect, quad_winding()[3 * triangle + 2]);
            turn(
                (first.0 as int, first.1 as int),
                (second.0 as int, second.1 as int),
                (third.0 as int, third.1 as int),
            ) > 0
        }),
{
    let winding = quad_winding();
    let w = rect.width as int;
    let h = rect.height as int;
    assert(w * h > 0) by (nonlinear_arith)
        requires
            w > 0,
            h > 0,
    ;
    if triangle == 0 {
        assert(winding[0] == 0 && winding[1] == 1 && winding[2] == 2);
        assert((w - 0) * (h - 0) - (0 - 0) * (w - 0) == w * h) by (nonlinear_arith);
    } else {
        assert(winding[3] == 2 && winding[4] == 3 && winding[5] == 0);
        assert((0 - w) * (0 - h) - (h - h) * (0 - w) == w * h) by (nonlinear_arith);
    }
}

} // verus!
