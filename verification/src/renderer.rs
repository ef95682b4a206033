//! One frame after another: what was drawn since the last frame, and how
//! the viewport sits in the window.

use vstd::prelude::*;
use crate::camera::{letterbox, letterbox_of, Letterbox};
use crate::gfx::pass::deferred_pass::{DeferredFrame, DeferredPass, Sprite};
use crate::gfx::pass::lighting_pass::{DynamicLight, LightingFrame, LightingPass};
use crate::gfx::plan::{frame_plan, plan_frame, views, PassPlan};
use crate::gfx::quad::MAX_QUADS;
use crate::texture::Texture;
use crate::texture_atlas::DeferredTextureRegion;

verus! {

/// What one frame hands to the GPU: the passes to record, the geometry of
/// the sprites, the geometry of the lights, and the letterbox in which the
/// lit image is shown, if the window has had a size yet.
pub struct Frame<S> {
    pub passes: Vec<PassPlan>,
    pub deferred: DeferredFrame<S>,
    pub lighting: LightingFrame<S>,
    pub viewport: Option<Letterbox>,
}

/// The renderer between two frames or in the middle of one.
pub struct RendererState<S> {
    viewport: Option<Letterbox>,
    deferred_pass: DeferredPass<S>,
    lighting_pass: LightingPass<S>,
}

impl<S: Copy> RendererState<S> {
    /// The letterbox in which frames are shown; none as long as the window
    /// has had no size.
    pub closed spec fn spec_viewport(&self) -> Option<Letterbox> {
        self.viewport
    }

    /// The sheet of every sprite.
    pub closed spec fn sheet(&self) -> Texture {
        self.deferred_pass.sheet()
    }

    /// The sprites drawn since the last frame, oldest first.
    pub closed spec fn sprites(&self) -> Seq<Sprite<S>> {
        self.deferred_pass.pending()
    }

    /// The lights drawn since the last frame, oldest first.
    pub closed spec fn lights(&self) -> Seq<DynamicLight<S>> {
        self.lighting_pass.pending()
    }

    /// What [`RendererState::render`] does: it turns the renderer `before`
    /// into the renderer `after` and hands out `frame`.
    pub open spec fn renders(before: &Self, after: &Self, frame: &Frame<S>) -> bool {
        &&& views(frame.passes@) == frame_plan(before.sprites().len(), before.lights().len())
        &&& frame.deferred.vertices@ == crate::gfx::pass::deferred_pass::sprite_vertices(
            before.sprites(),
        )
        &&& frame.deferred.indices@ == crate::gfx::quad::quad_indices(before.sprites().len())
        &&& frame.lighting.vertices@ == crate::gfx::pass::lighting_pass::light_vertices(
            before.lights(),
        )
        &&& frame.lighting.indices@ == crate::gfx::quad::quad_indices(before.lights().len())
        &&& frame.viewport == before.spec_viewport()
        &&& after.sprites() == Seq::<Sprite<S>>::empty()
        &&& after.lights() == Seq::<DynamicLight<S>>::empty()
        &&& after.sheet() == before.sheet()
        &&& after.spec_viewport() == before.spec_viewport()
    }

    /// A renderer of the sprites of `sheet`, in a window of `width` by
    /// `height` pixels.
    pub fn new(sheet: Texture, width: u32, height: u32) -> (renderer: Self)
        ensures
            renderer.sheet() == sheet,
            renderer.spec_viewport() == letterbox_of(width, height),
            renderer.sprites() == Seq::<Sprite<S>>::empty(),
            renderer.lights() == Seq::<DynamicLight<S>>::empty(),
    {
        RendererState {
            viewport: letterbox(width, height),
            deferred_pass: DeferredPass::new(sheet),
            lighting_pass: LightingPass::new(),
        }
    }

    #[verifier::when_used_as_spec(spec_viewport)]
    pub fn viewport(&self) -> (viewport: Option<Letterbox>)
        ensures
            viewport == self.spec_viewport(),
    {
        self.viewport
    }

    /// Takes note of the window's new size. A size with a side of zero is
    /// passed over.
    pub fn resize(&mut self, width: u32, height: u32)
        ensures
            final(self).spec_viewport() == if width > 0 && height > 0 {
                letterbox_of(width, height)
            } else {
                old(self).spec_viewport()
            },
            final(self).sheet() == old(self).sheet(),
            final(self).sprites() == old(self).sprites(),
            final(self).lights() == old(self).lights(),
    {
        if width > 0 && height > 0 {
            self.viewport = letterbox(width, height);
        }
    }

    /// Whether `image` lies on the renderer's sheet, and so may be drawn.
    pub fn accepts(&self, image: &DeferredTextureRegion) -> (b: bool)
        ensures
            b == self.sheet().same_resource(image.texture),
    {
        self.deferred_pass.accepts(image)
    }

    /// Whether so few sprites and lights are waiting that a frame can be
    /// rendered.
    pub fn can_render(&self) -> (b: bool)
        ensures
            b == (self.sprites().len() <= MAX_QUADS && self.lights().len() <= MAX_QUADS),
    {
        self.deferred_pass.len() <= MAX_QUADS && self.lighting_pass.len() <= MAX_QUADS
    }

    /// Ends the frame: hands out what was drawn since the last one, which
    /// is then forgotten.
    pub fn render(&mut self) -> (frame: Frame<S>)
        requires
            old(self).sprites().len() <= MAX_QUADS,
            old(self).lights().len() <= MAX_QUADS,
        ensures
            Self::renders(old(self), final(self), &frame),
    {
        let passes = plan_frame(self.deferred_pass.len(), self.lighting_pass.len());
        let deferred = self.deferred_pass.draw();
        let lighting = self.lighting_pass.draw();
        Frame { passes, deferred, lighting, viewport: self.viewport }
    }

    /// Queues one light for the frame being built.
    pub fn draw_light(&mut self, light: DynamicLight<S>)
        ensures
            final(self).lights() == old(self).lights().push(light),
            final(self).sprites() == old(self).sprites(),
            final(self).sheet() == old(self).sheet(),
            final(self).spec_viewport() == old(self).spec_viewport(),
    {
        self.lighting_pass.draw_light(light)
    }

    /// Queues one sprite for the frame being built.
    pub fn draw_deferred_sprite(&mut self, position: (S, S, S), image: DeferredTextureRegion)
        requires
            old(self).sheet().same_resource(image.texture),
        ensures
            final(self).sprites() == old(self).sprites().push((position, image)),
            final(self).lights() == old(self).lights(),
            final(self).sheet() == old(self).sheet(),
            final(self).spec_viewport() == old(self).spec_viewport(),
    {
        self.deferred_pass.draw_sprite(position, image)
    }

    /// What is drawn before a frame is not in the frame after it: a second
    /// frame with nothing drawn in between has no geometry.
    pub proof fn lemma_frames_do_not_leak(
        first: &Self,
        second: &Self,
        third: &Self,
        drawn: &Frame<S>,
        redrawn: &Frame<S>,
    )
        requires
            Self::renders(first, second, drawn),
            Self::renders(second, third, redrawn),
        ensures
            redrawn.deferred.vertices@.len() == 0,
            redrawn.deferred.indices@.len() == 0,
            redrawn.lighting.vertices@.len() == 0,
            redrawn.lighting.indices@.len() == 0,
    {
    }
}

} // verus!
