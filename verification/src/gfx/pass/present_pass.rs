//! The present pass: one quad that covers the screen and shows the lit
//! image.

use vstd::prelude::*;
use crate::gfx::pipeline::{
    texture_bind_group_layout, texture_bindings, uniform_bind_group_layout, uniform_bindings,
    ColorTargetState, Pipeline, TextureFormat,
};
use crate::gfx::plan::{targets_of, Layer};
use crate::gfx::quad::{
    centred_corner, centred_corner_of, index_bytes, lays_out, push_quad_indices, quad_indices,
};

verus! {

/// One corner of the quad that covers the screen.
#[derive(Debug)]
pub struct PresentVertex {
    pub position: (i8, i8, i8),
    pub tex_coords: (u8, u8),
}

impl Clone for PresentVertex {
    fn clone(&self) -> (v: Self)
        ensures
            v == *self,
    {
        *self
    }
}

impl Copy for PresentVertex {

}

/// The vertex at one corner of the screen.
///
/// The image is shown as it is stored: its first row is the top of the
/// screen, so the corners with `y = 1` sample `v = 0`.
pub open spec fn present_vertex(corner: int) -> PresentVertex {
    let sides = centred_corner(corner);
    PresentVertex {
        position: (sides.0, sides.1, 0),
        tex_coords: (if sides.0 > 0 { 1u8 } else { 0u8 }, if sides.1 > 0 { 0u8 } else { 1u8 }),
    }
}

/// The geometry that the present pass draws, the same in every frame.
pub struct PresentPass {
    vertices: Vec<PresentVertex>,
    indices: Vec<u16>,
    index_bytes: Vec<u8>,
}

impl PresentPass {
    pub closed spec fn spec_vertices(&self) -> Seq<PresentVertex> {
        self.vertices@
    }

    pub closed spec fn spec_indices(&self) -> Seq<u16> {
        self.indices@
    }

    pub closed spec fn spec_index_bytes(&self) -> Seq<u8> {
        self.index_bytes@
    }

    pub fn new() -> (pass: PresentPass)
        ensures
            pass.spec_vertices() == Seq::new(4, |k: int| present_vertex(k)),
            pass.spec_indices() == quad_indices(1),
            lays_out(pass.spec_index_bytes(), pass.spec_indices(), true) || lays_out(
                pass.spec_index_bytes(),
                pass.spec_indices(),
                false,
            ),
    {
        let mut vertices: Vec<PresentVertex> = Vec::new();
        let mut corner: usize = 0;
        while corner < 4
            invariant
                corner <= 4,
                vertices@ == Seq::new(corner as nat, |k: int| present_vertex(k)),
            decreases 4 - corner,
        {
            let sides = centred_corner_of(corner);
            vertices.push(
                PresentVertex {
                    position: (sides.0, sides.1, 0),
                    tex_coords: (if sides.0 > 0 { 1 } else { 0 }, if sides.1 > 0 { 0 } else { 1 }),
                },
            );
            corner = corner + 1;
            assert(vertices@ =~= Seq::new(corner as nat, |k: int| present_vertex(k)));
        }
        let mut indices: Vec<u16> = Vec::new();
        assert(indices@ =~= quad_indices(0));
        push_quad_indices(&mut indices, 0);
        let index_bytes = index_bytes(&indices);
        PresentPass { vertices, indices, index_bytes }
    }

    /// The four corners of the screen.
    pub fn vertices(&self) -> (vertices: &Vec<PresentVertex>)
        ensures
            vertices@ == self.spec_vertices(),
    {
        &self.vertices
    }

    /// The two triangles that cover the screen.
    pub fn indices(&self) -> (indices: &Vec<u16>)
        ensures
            indices@ == self.spec_indices(),
    {
        &self.indices
    }

    /// The two triangles as the bytes of an index buffer.
    pub fn index_bytes(&self) -> (bytes: &Vec<u8>)
        ensures
            bytes@ == self.spec_index_bytes(),
    {
        &self.index_bytes
    }
}

/// The pipeline of the present pass: the lit image and the letterbox are
/// bound, and what is drawn takes the place of what the window showed.
pub fn pipeline() -> (pipeline: Pipeline)
    ensures
        pipeline.is_standard(),
        pipeline.label@ == "PresentPass"@ + " Pipeline"@,
        pipeline.layout_label@ == "PresentPass"@ + " Pipeline Layout"@,
        pipeline.bind_group_layouts@.len() == 2,
        pipeline.bind_group_layouts@[0]@ == texture_bindings(),
        pipeline.bind_group_layouts@[1]@ == uniform_bindings(),
        pipeline.targets@ == targets_of(Layer::Screen),
{
    let mut layouts = Vec::new();
    layouts.push(texture_bind_group_layout());
    layouts.push(uniform_bind_group_layout());
    let mut targets: Vec<ColorTargetState> = Vec::new();
    targets.push(ColorTargetState { format: TextureFormat::Surface, blend: None });
    assert(targets@ =~= seq![ColorTargetState { format: TextureFormat::Surface, blend: None }]);
    Pipeline::new(layouts, targets, "PresentPass")
}

} // verus!
