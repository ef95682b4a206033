//! The lighting pass: every light drawn this frame becomes one quad around
//! its centre, and one more quad that covers the screen adds the ambient
//! light.

use vstd::prelude::*;
use vstd::string::StringSliceAdditionalSpecFns;
use crate::camera::{VIEWPORT_HEIGHT, VIEWPORT_WIDTH};
use crate::gfx::pipeline::{
    accumulating, additive, g_buffer_bind_group_layout, g_buffer_bindings,
    uniform_bind_group_layout, uniform_bindings, ColorTargetState, Pipeline, RenderTarget,
    TextureFormat,
};
use crate::gfx::plan::{format_of, targets_of, Layer, Target};
use crate::gfx::quad::{
    centred_corner, centred_corner_of, index_bytes, lays_out, lemma_indices_stay_in_their_quad,
    push_quad_indices, quad_indices, MAX_QUADS,
};
use crate::ratio::Ratio;

verus! {

/// An opaque colour of eight bits per channel.
#[derive(Clone, Copy, Debug, PartialEq, Eq, Structural)]
pub struct Color {
    r: u8,
    g: u8,
    b: u8,
}

/// The value of a hexadecimal digit in ASCII, of either case.
pub open spec fn hex_digit(byte: u8) -> Option<u8> {
    if 0x30 <= byte <= 0x39 {
        Some((byte - 0x30) as u8)
    } else if 0x61 <= byte <= 0x66 {
        Some((byte - 0x61 + 10) as u8)
    } else if 0x41 <= byte <= 0x46 {
        Some((byte - 0x41 + 10) as u8)
    } else {
        None
    }
}

/// The value of one channel of a colour code: two hexadecimal digits, or a
/// plus sign and one digit.
pub open spec fn hex_channel(first: u8, second: u8) -> Option<u8> {
    if first == 0x2b {
        hex_digit(second)
    } else {
        match (hex_digit(first), hex_digit(second)) {
            (Some(high), Some(low)) => Some((16 * high + low) as u8),
            _ => None,
        }
    }
}

/// A colour code without the one `#` that may lead it.
pub open spec fn without_hash(code: Seq<u8>) -> Seq<u8> {
    if code.len() > 0 && code[0] == 0x23 {
        code.skip(1)
    } else {
        code
    }
}

/// The red, green and blue that a colour code spells, if it is one: after
/// the optional `#`, exactly six bytes that make three channels.
pub open spec fn hex_channels(code: Seq<u8>) -> Option<(u8, u8, u8)> {
    let digits = without_hash(code);
    if digits.len() != 6 {
        None
    } else {
        match (
            hex_channel(digits[0], digits[1]),
            hex_channel(digits[2], digits[3]),
            hex_channel(digits[4], digits[5]),
        ) {
            (Some(r), Some(g), Some(b)) => Some((r, g, b)),
            _ => None,
        }
    }
}

/// The upper-case hexadecimal digit of a value below sixteen, in ASCII.
pub open spec fn digit_of(value: u8) -> u8 {
    if value < 10 {
        (0x30 + value) as u8
    } else {
        (0x41 + value - 10) as u8
    }
}

/// The code that spells a colour: `#` and two digits for each of red,
/// green and blue.
pub open spec fn hex_code(r: u8, g: u8, b: u8) -> Seq<u8> {
    seq![
        0x23u8,
        digit_of(r / 16),
        digit_of(r % 16),
        digit_of(g / 16),
        digit_of(g % 16),
        digit_of(b / 16),
        digit_of(b % 16),
    ]
}

/// Every colour has a code, and the code spells that colour and no other.
pub proof fn lemma_every_colour_has_a_code(r: u8, g: u8, b: u8)
    ensures
        hex_channels(hex_code(r, g, b)) == Some((r, g, b)),
{
    let code = hex_code(r, g, b);
    assert(without_hash(code) =~= seq![
        digit_of(r / 16),
        digit_of(r % 16),
        digit_of(g / 16),
        digit_of(g % 16),
        digit_of(b / 16),
        digit_of(b % 16),
    ]);
    assert(hex_channel(digit_of(r / 16), digit_of(r % 16)) == Some(r));
    assert(hex_channel(digit_of(g / 16), digit_of(g % 16)) == Some(g));
    assert(hex_channel(digit_of(b / 16), digit_of(b % 16)) == Some(b));
}

fn hex_digit_of(byte: u8) -> (digit: Option<u8>)
    ensures
        digit == hex_digit(byte),
{
    if 0x30 <= byte && byte <= 0x39 {
        Some(byte - 0x30)
    } else if 0x61 <= byte && byte <= 0x66 {
        Some(byte - 0x61 + 10)
    } else if 0x41 <= byte && byte <= 0x46 {
        Some(byte - 0x41 + 10)
    } else {
        None
    }
}

fn hex_channel_of(first: u8, second: u8) -> (value: Option<u8>)
    ensures
        value == hex_channel(first, second),
{
    if first == 0x2b {
        return hex_digit_of(second);
    }
    match (hex_digit_of(first), hex_digit_of(second)) {
        (Some(high), Some(low)) => Some(16 * high + low),
        _ => None,
    }
}

impl Color {
    /// The red, green and blue channels.
    pub closed spec fn channels(&self) -> (u8, u8, u8) {
        (self.r, self.g, self.b)
    }

    pub fn from_rgb(r: u8, g: u8, b: u8) -> (color: Color)
        ensures
            color.channels() == (r, g, b),
    {
        Color { r, g, b }
    }

    /// Reads a colour code such as `#FF8000`.
    pub fn from_hex(code: &'static str) -> (color: Option<Color>)
        ensures
            match color {
                Some(c) => hex_channels(code.spec_bytes()) == Some(c.channels()),
                None => hex_channels(code.spec_bytes()) is None,
            },
    {
        let bytes = code.as_bytes();
        let start: usize = if bytes.len() > 0 && bytes[0] == 0x23 { 1 } else { 0 };
        if bytes.len() - start != 6 {
            return None;
        }
        proof {
            let digits = without_hash(bytes@);
            assert(digits.len() == 6);
            assert(forall|i: int| 0 <= i < 6 ==> digits[i] == bytes@[start + i]);
        }
        let r = hex_channel_of(bytes[start], bytes[start + 1]);
        let g = hex_channel_of(bytes[start + 2], bytes[start + 3]);
        let b = hex_channel_of(bytes[start + 4], bytes[start + 5]);
        match (r, g, b) {
            (Some(r), Some(g), Some(b)) => Some(Color { r, g, b }),
            _ => None,
        }
    }

    pub fn r(&self) -> (r: u8)
        ensures
            r == self.channels().0,
    {
        self.r
    }

    pub fn g(&self) -> (g: u8)
        ensures
            g == self.channels().1,
    {
        self.g
    }

    pub fn b(&self) -> (b: u8)
        ensures
            b == self.channels().2,
    {
        self.b
    }

    /// The channels as fractions of full intensity.
    pub fn normalized(&self) -> (shares: (Ratio, Ratio, Ratio))
        ensures
            shares.0 == (Ratio { num: self.channels().0 as u64, den: 255 }),
            shares.1 == (Ratio { num: self.channels().1 as u64, den: 255 }),
            shares.2 == (Ratio { num: self.channels().2 as u64, den: 255 }),
    {
        (
            Ratio::new(self.r as u64, 255),
            Ratio::new(self.g as u64, 255),
            Ratio::new(self.b as u64, 255),
        )
    }
}

/// A light that shines for one frame.
#[derive(Debug)]
pub struct DynamicLight<S> {
    pub center: (S, S, S),
    pub radius: S,
    pub color: Color,
}

impl<S: Copy> Clone for DynamicLight<S> {
    fn clone(&self) -> (light: Self)
        ensures
            light == *self,
    {
        *self
    }
}

impl<S: Copy> Copy for DynamicLight<S> {

}

/// One corner of a light's quad.
///
/// The corner lies one radius from the centre along x and along y, on the
/// sides that the signs in `corner` name.
#[derive(Debug)]
pub struct LightVertex<S> {
    pub corner: (i8, i8),
    pub color: Color,
    pub center: (S, S, S),
    pub radius: S,
}

impl<S: Copy> Clone for LightVertex<S> {
    fn clone(&self) -> (v: Self)
        ensures
            v == *self,
    {
        *self
    }
}

impl<S: Copy> Copy for LightVertex<S> {

}

/// The vertex at one corner of a light's quad.
pub open spec fn light_vertex<S>(light: DynamicLight<S>, corner: int) -> LightVertex<S> {
    LightVertex {
        corner: centred_corner(corner),
        color: light.color,
        center: light.center,
        radius: light.radius,
    }
}

/// The vertex buffer of a list of lights: the four corners of each, in the
/// order in which the lights were drawn.
pub open spec fn light_vertices<S>(lights: Seq<DynamicLight<S>>) -> Seq<LightVertex<S>> {
    Seq::new(4 * lights.len(), |k: int| light_vertex(lights[k / 4], k % 4))
}

fn light_corner_of<S: Copy>(light: &DynamicLight<S>, corner: usize) -> (v: LightVertex<S>)
    requires
        corner < 4,
    ensures
        v == light_vertex(*light, corner as int),
{
    LightVertex {
        corner: centred_corner_of(corner),
        color: light.color,
        center: light.center,
        radius: light.radius,
    }
}

/// One corner of the quad that spreads the ambient light over the screen.
#[derive(Debug)]
pub struct GlobalLightVertex {
    pub position: (i8, i8, i8),
    pub tex_coords: (u8, u8),
    pub color: (Ratio, Ratio, Ratio),
}

impl Clone for GlobalLightVertex {
    fn clone(&self) -> (v: Self)
        ensures
            v == *self,
    {
        *self
    }
}

impl Copy for GlobalLightVertex {

}

/// The share of full intensity that the ambient light adds to each channel.
pub open spec fn ambient_share() -> Ratio {
    Ratio { num: 1, den: 10 }
}

/// The vertex at one corner of the ambient quad: the corner of the screen
/// on that side, sampling the corner of the G-buffer that is shown there.
pub open spec fn global_light_vertex(corner: int) -> GlobalLightVertex {
    let sides = centred_corner(corner);
    GlobalLightVertex {
        position: (sides.0, sides.1, 0),
        tex_coords: (if sides.0 > 0 { 1u8 } else { 0u8 }, if sides.1 > 0 { 0u8 } else { 1u8 }),
        color: (ambient_share(), ambient_share(), ambient_share()),
    }
}

/// The vertex buffer of the ambient quad.
pub fn global_light_vertices() -> (vertices: Vec<GlobalLightVertex>)
    ensures
        vertices@ == Seq::new(4, |k: int| global_light_vertex(k)),
{
    let mut vertices: Vec<GlobalLightVertex> = Vec::new();
    let mut corner: usize = 0;
    while corner < 4
        invariant
            corner <= 4,
            vertices@ == Seq::new(corner as nat, |k: int| global_light_vertex(k)),
        decreases 4 - corner,
    {
        let sides = centred_corner_of(corner);
        let share = Ratio::new(1, 10);
        vertices.push(
            GlobalLightVertex {
                position: (sides.0, sides.1, 0),
                tex_coords: (if sides.0 > 0 { 1 } else { 0 }, if sides.1 > 0 { 0 } else { 1 }),
                color: (share, share, share),
            },
        );
        corner = corner + 1;
        assert(vertices@ =~= Seq::new(corner as nat, |k: int| global_light_vertex(k)));
    }
    vertices
}

/// The index buffer of the ambient quad.
pub fn global_light_indices() -> (indices: Vec<u16>)
    ensures
        indices@ == quad_indices(1),
{
    let mut indices: Vec<u16> = Vec::new();
    assert(indices@ =~= quad_indices(0));
    push_quad_indices(&mut indices, 0);
    indices
}

/// The lights drawn since the list was last emptied, oldest first.
pub struct Lights<S> {
    lights: Vec<DynamicLight<S>>,
}

impl<S> View for Lights<S> {
    type V = Seq<DynamicLight<S>>;

    closed spec fn view(&self) -> Seq<DynamicLight<S>> {
        self.lights@
    }
}

impl<S: Copy> Lights<S> {
    pub fn new() -> (lights: Lights<S>)
        ensures
            lights@ == Seq::<DynamicLight<S>>::empty(),
    {
        Lights { lights: Vec::new() }
    }

    /// Adds one light to the list.
    pub fn push(&mut self, light: DynamicLight<S>)
        ensures
            final(self)@ == old(self)@.push(light),
    {
        self.lights.push(light);
    }

    /// Empties the list.
    pub fn clear(&mut self)
        ensures
            final(self)@ == Seq::<DynamicLight<S>>::empty(),
    {
        self.lights.clear();
    }

    /// Expands the list into its vertex and index buffers.
    pub fn gen_vecs(&self) -> (out: (Vec<LightVertex<S>>, Vec<u16>))
        requires
            self@.len() <= MAX_QUADS,
        ensures
            out.0@ == light_vertices(self@),
            out.1@ == quad_indices(self@.len()),
            out.0@.len() == 4 * self@.len(),
            out.1@.len() == 6 * self@.len(),
            forall|k: int|
                0 <= k < out.1@.len() ==> 4 * (k / 6) <= #[trigger] out.1@[k] < 4 * (k / 6) + 4,
    {
        let mut vertices: Vec<LightVertex<S>> = Vec::new();
        let mut indices: Vec<u16> = Vec::new();
        let count: usize = self.lights.len();
        let mut index: usize = 0;
        while index < count
            invariant
                count == self.lights@.len(),
                count <= MAX_QUADS,
                index <= count,
                vertices@ == light_vertices(self.lights@.take(index as int)),
                indices@ == quad_indices(index as nat),
            decreases count - index,
        {
            let light: DynamicLight<S> = self.lights[index];
            let ghost before = vertices@;
            vertices.push(light_corner_of(&light, 0));
            vertices.push(light_corner_of(&light, 1));
            vertices.push(light_corner_of(&light, 2));
            vertices.push(light_corner_of(&light, 3));
            push_quad_indices(&mut indices, index);
            proof {
                let done = self.lights@.take(index as int);
                let next = self.lights@.take(index + 1);
                let after = light_vertices(next);
                assert forall|k: int| 0 <= k < after.len() implies vertices@[k] == after[k] by {
                    if k < 4 * index {
                        assert(vertices@[k] == before[k]);
                        assert(next[k / 4] == done[k / 4]);
                    } else {
                        assert(k / 4 == index as int);
                        assert(k % 4 == k - 4 * index);
                        assert(next[k / 4] == self.lights@[index as int]);
                    }
                }
                assert(vertices@ =~= after);
            }
            index = index + 1;
        }
        proof {
            assert(self.lights@.take(count as int) =~= self.lights@);
            assert forall|k: int| 0 <= k < indices@.len() implies 4 * (k / 6) <= #[trigger] indices@[k]
                < 4 * (k / 6) + 4 by {
                lemma_indices_stay_in_their_quad(count as nat, k);
            }
        }
        (vertices, indices)
    }

    /// How many lights are waiting to be drawn.
    pub fn len(&self) -> (n: usize)
        ensures
            n == self@.len(),
    {
        self.lights.len()
    }
}

/// What the lighting pass draws in one frame for the lights: the corners of
/// their quads, the indices that make triangles of them, and the same
/// indices as the bytes of an index buffer.
pub struct LightingFrame<S> {
    pub vertices: Vec<LightVertex<S>>,
    pub indices: Vec<u16>,
    pub index_bytes: Vec<u8>,
}

/// The lighting pass, between two frames or in the middle of one.
pub struct LightingPass<S> {
    lights: Lights<S>,
}

impl<S: Copy> LightingPass<S> {
    /// The lights drawn since the last frame, oldest first.
    pub closed spec fn pending(&self) -> Seq<DynamicLight<S>> {
        self.lights@
    }

    /// What [`LightingPass::draw`] does: it turns the pass `before` into the
    /// pass `after` and hands out `vertices` and `indices`.
    pub open spec fn draws(
        before: &Self,
        after: &Self,
        vertices: Seq<LightVertex<S>>,
        indices: Seq<u16>,
    ) -> bool {
        &&& vertices == light_vertices(before.pending())
        &&& indices == quad_indices(before.pending().len())
        &&& after.pending() == Seq::<DynamicLight<S>>::empty()
    }

    pub fn new() -> (pass: LightingPass<S>)
        ensures
            pass.pending() == Seq::<DynamicLight<S>>::empty(),
    {
        LightingPass { lights: Lights::new() }
    }

    /// How many lights are waiting to be drawn.
    pub fn len(&self) -> (n: usize)
        ensures
            n == self.pending().len(),
    {
        self.lights.len()
    }

    /// Queues one light for the frame being built.
    pub fn draw_light(&mut self, light: DynamicLight<S>)
        ensures
            final(self).pending() == old(self).pending().push(light),
    {
        self.lights.push(light);
    }

    /// Ends the frame: hands out the geometry of every queued light and
    /// forgets the lights.
    pub fn draw(&mut self) -> (frame: LightingFrame<S>)
        requires
            old(self).pending().len() <= MAX_QUADS,
        ensures
            Self::draws(old(self), final(self), frame.vertices@, frame.indices@),
            frame.vertices@.len() == 4 * old(self).pending().len(),
            frame.indices@.len() == 6 * old(self).pending().len(),
            forall|k: int|
                0 <= k < frame.indices@.len() ==> 4 * (k / 6) <= #[trigger] frame.indices@[k] < 4 * (
                k / 6) + 4,
            lays_out(frame.index_bytes@, frame.indices@, true) || lays_out(
                frame.index_bytes@,
                frame.indices@,
                false,
            ),
    {
        let (vertices, indices) = self.lights.gen_vecs();
        self.lights.clear();
        let index_bytes = index_bytes(&indices);
        LightingFrame { vertices, indices, index_bytes }
    }

    /// A frame that follows another with no light drawn in between has no
    /// light geometry: what one frame lit is not lit again.
    pub proof fn lemma_frames_do_not_leak(
        first: &Self,
        second: &Self,
        third: &Self,
        drawn: (Seq<LightVertex<S>>, Seq<u16>),
        redrawn: (Seq<LightVertex<S>>, Seq<u16>),
    )
        requires
            Self::draws(first, second, drawn.0, drawn.1),
            Self::draws(second, third, redrawn.0, redrawn.1),
        ensures
            redrawn.0.len() == 0,
            redrawn.1.len() == 0,
            third.pending().len() == 0,
    {
    }
}

/// The pipeline that draws the lights: the G-buffer and the camera are
/// bound, and what the lights shed adds up in one target that is encoded
/// for display.
pub fn pipeline() -> (pipeline: Pipeline)
    ensures
        pipeline.is_standard(),
        pipeline.label@ == "LightingPass"@ + " Pipeline"@,
        pipeline.layout_label@ == "LightingPass"@ + " Pipeline Layout"@,
        pipeline.bind_group_layouts@.len() == 2,
        pipeline.bind_group_layouts@[0]@ == g_buffer_bindings(),
        pipeline.bind_group_layouts@[1]@ == uniform_bindings(),
        pipeline.targets@ == targets_of(Layer::Lights),
{
    let mut layouts = Vec::new();
    layouts.push(g_buffer_bind_group_layout());
    layouts.push(uniform_bind_group_layout());
    let mut targets: Vec<ColorTargetState> = Vec::new();
    targets.push(accumulating(TextureFormat::Rgba8UnormSrgb));
    assert(targets@ =~= seq![
        ColorTargetState { format: TextureFormat::Rgba8UnormSrgb, blend: Some(additive()) },
    ]);
    Pipeline::new(layouts, targets, "LightingPass")
}

/// The pipeline that adds the ambient light: only the G-buffer is bound,
/// and the light is added to what the lights have shed.
pub fn global_light_pipeline() -> (pipeline: Pipeline)
    ensures
        pipeline.is_standard(),
        pipeline.label@ == "LightingPass global"@ + " Pipeline"@,
        pipeline.layout_label@ == "LightingPass global"@ + " Pipeline Layout"@,
        pipeline.bind_group_layouts@.len() == 1,
        pipeline.bind_group_layouts@[0]@ == g_buffer_bindings(),
        pipeline.targets@ == targets_of(Layer::Ambient),
{
    let mut layouts = Vec::new();
    layouts.push(g_buffer_bind_group_layout());
    let mut targets: Vec<ColorTargetState> = Vec::new();
    targets.push(accumulating(TextureFormat::Rgba8UnormSrgb));
    assert(targets@ =~= seq![
        ColorTargetState { format: TextureFormat::Rgba8UnormSrgb, blend: Some(additive()) },
    ]);
    Pipeline::new(layouts, targets, "LightingPass global")
}

/// The target that takes the lit image.
pub fn output() -> (target: RenderTarget)
    ensures
        target.label@ == "LightingPass output"@,
        target.size == (VIEWPORT_WIDTH, VIEWPORT_HEIGHT),
        target.format == format_of(Target::Lit),
{
    RenderTarget {
        label: "LightingPass output",
        size: (VIEWPORT_WIDTH, VIEWPORT_HEIGHT),
        format: TextureFormat::Rgba8UnormSrgb,
    }
}

} // verus!
