//! What the render pipelines of the three passes are made of.
//!
//! A pipeline is described here in full and created elsewhere. All three
//! passes share everything but their targets, their bindings and their
//! shaders.

use vstd::prelude::*;
use vstd::string::StringExecFns;
use crate::ratio::Ratio;

verus! {

/// How the texels of a render target are stored.
#[derive(Clone, Copy, Debug, PartialEq, Eq, Structural)]
pub enum TextureFormat {
    /// Eight bits a channel, read as they are: the G-buffer.
    Rgba8Unorm,
    /// Eight bits a channel, encoded for display: the lit image.
    Rgba8UnormSrgb,
    /// Whatever the window's surface asks for.
    Surface,
}

/// What a colour is multiplied by before blending.
#[derive(Clone, Copy, Debug, PartialEq, Eq, Structural)]
pub enum BlendFactor {
    Zero,
    One,
    SrcAlpha,
    OneMinusSrcAlpha,
}

/// How the two weighted colours are combined.
#[derive(Clone, Copy, Debug, PartialEq, Eq, Structural)]
pub enum BlendOperation {
    Add,
}

/// How one of colour and alpha is blended: what is drawn weighted by
/// `src_factor`, what is there weighted by `dst_factor`.
#[derive(Clone, Copy, Debug, PartialEq, Eq, Structural)]
pub struct BlendComponent {
    pub src_factor: BlendFactor,
    pub dst_factor: BlendFactor,
    pub operation: BlendOperation,
}

/// How a target's colour and alpha are blended.
#[derive(Clone, Copy, Debug, PartialEq, Eq, Structural)]
pub struct BlendState {
    pub color: BlendComponent,
    pub alpha: BlendComponent,
}

/// What is drawn takes the place of what is there.
pub open spec fn replace() -> BlendComponent {
    BlendComponent {
        src_factor: BlendFactor::One,
        dst_factor: BlendFactor::Zero,
        operation: BlendOperation::Add,
    }
}

/// What is drawn covers what is there as far as it is opaque.
pub open spec fn alpha_blending() -> BlendState {
    BlendState {
        color: BlendComponent {
            src_factor: BlendFactor::SrcAlpha,
            dst_factor: BlendFactor::OneMinusSrcAlpha,
            operation: BlendOperation::Add,
        },
        alpha: BlendComponent {
            src_factor: BlendFactor::One,
            dst_factor: BlendFactor::OneMinusSrcAlpha,
            operation: BlendOperation::Add,
        },
    }
}

/// What is drawn is added to what is there, colour by colour; its alpha
/// takes the place of the alpha that is there.
pub open spec fn additive() -> BlendState {
    BlendState {
        color: BlendComponent {
            src_factor: BlendFactor::One,
            dst_factor: BlendFactor::One,
            operation: BlendOperation::Add,
        },
        alpha: replace(),
    }
}

/// One colour target of a pipeline. Every channel is written.
#[derive(Clone, Copy, Debug, PartialEq, Eq, Structural)]
pub struct ColorTargetState {
    pub format: TextureFormat,
    pub blend: Option<BlendState>,
}

/// A target that blends by alpha.
pub fn alpha_blended(format: TextureFormat) -> (target: ColorTargetState)
    ensures
        target == (ColorTargetState { format, blend: Some(alpha_blending()) }),
{
    ColorTargetState {
        format,
        blend: Some(
            BlendState {
                color: BlendComponent {
                    src_factor: BlendFactor::SrcAlpha,
                    dst_factor: BlendFactor::OneMinusSrcAlpha,
                    operation: BlendOperation::Add,
                },
                alpha: BlendComponent {
                    src_factor: BlendFactor::One,
                    dst_factor: BlendFactor::OneMinusSrcAlpha,
                    operation: BlendOperation::Add,
                },
            },
        ),
    }
}

/// A target on which what is drawn adds up.
pub fn accumulating(format: TextureFormat) -> (target: ColorTargetState)
    ensures
        target == (ColorTargetState { format, blend: Some(additive()) }),
{
    ColorTargetState {
        format,
        blend: Some(
            BlendState {
                color: BlendComponent {
                    src_factor: BlendFactor::One,
                    dst_factor: BlendFactor::One,
                    operation: BlendOperation::Add,
                },
                alpha: BlendComponent {
                    src_factor: BlendFactor::One,
                    dst_factor: BlendFactor::Zero,
                    operation: BlendOperation::Add,
                },
            },
        ),
    }
}

/// The stage of a pipeline that sees a binding.
#[derive(Clone, Copy, Debug, PartialEq, Eq, Structural)]
pub enum ShaderStage {
    Vertex,
    Fragment,
}

/// What is bound at a binding.
#[derive(Clone, Copy, Debug, PartialEq, Eq, Structural)]
pub enum BindingType {
    /// A two-dimensional texture of filterable floats, one sample a texel.
    Texture,
    /// A filtering sampler.
    Sampler,
    /// A uniform buffer at a fixed offset.
    UniformBuffer,
}

/// One entry of the layout of a bind group.
#[derive(Clone, Copy, Debug, PartialEq, Eq, Structural)]
pub struct BindGroupLayoutEntry {
    pub binding: u32,
    pub visibility: ShaderStage,
    pub ty: BindingType,
}

/// The layout of the bind group of one texture: the texture, then its
/// sampler, both for the fragment stage.
pub open spec fn texture_bindings() -> Seq<BindGroupLayoutEntry> {
    seq![
        BindGroupLayoutEntry { binding: 0, visibility: ShaderStage::Fragment, ty: BindingType::Texture },
        BindGroupLayoutEntry { binding: 1, visibility: ShaderStage::Fragment, ty: BindingType::Sampler },
    ]
}

/// The layout of the bind group of the G-buffer: the colour, the normals,
/// then the sampler of both, all for the fragment stage.
pub open spec fn g_buffer_bindings() -> Seq<BindGroupLayoutEntry> {
    seq![
        BindGroupLayoutEntry { binding: 0, visibility: ShaderStage::Fragment, ty: BindingType::Texture },
        BindGroupLayoutEntry { binding: 1, visibility: ShaderStage::Fragment, ty: BindingType::Texture },
        BindGroupLayoutEntry { binding: 2, visibility: ShaderStage::Fragment, ty: BindingType::Sampler },
    ]
}

/// The layout of the bind group of a matrix: one uniform buffer for the
/// vertex stage.
pub open spec fn uniform_bindings() -> Seq<BindGroupLayoutEntry> {
    seq![
        BindGroupLayoutEntry {
            binding: 0,
            visibility: ShaderStage::Vertex,
            ty: BindingType::UniformBuffer,
        },
    ]
}

/// The layout of the bind group of one texture.
pub fn texture_bind_group_layout() -> (entries: Vec<BindGroupLayoutEntry>)
    ensures
        entries@ == texture_bindings(),
{
    let mut entries: Vec<BindGroupLayoutEntry> = Vec::new();
    entries.push(
        BindGroupLayoutEntry { binding: 0, visibility: ShaderStage::Fragment, ty: BindingType::Texture },
    );
    entries.push(
        BindGroupLayoutEntry { binding: 1, visibility: ShaderStage::Fragment, ty: BindingType::Sampler },
    );
    assert(entries@ =~= texture_bindings());
    entries
}

/// The layout of the bind group of the G-buffer.
pub fn g_buffer_bind_group_layout() -> (entries: Vec<BindGroupLayoutEntry>)
    ensures
        entries@ == g_buffer_bindings(),
{
    let mut entries: Vec<BindGroupLayoutEntry> = Vec::new();
    entries.push(
        BindGroupLayoutEntry { binding: 0, visibility: ShaderStage::Fragment, ty: BindingType::Texture },
    );
    entries.push(
        BindGroupLayoutEntry { binding: 1, visibility: ShaderStage::Fragment, ty: BindingType::Texture },
    );
    entries.push(
        BindGroupLayoutEntry { binding: 2, visibility: ShaderStage::Fragment, ty: BindingType::Sampler },
    );
    assert(entries@ =~= g_buffer_bindings());
    entries
}

/// The layout of the bind group of a matrix.
pub fn uniform_bind_group_layout() -> (entries: Vec<BindGroupLayoutEntry>)
    ensures
        entries@ == uniform_bindings(),
{
    let mut entries: Vec<BindGroupLayoutEntry> = Vec::new();
    entries.push(
        BindGroupLayoutEntry {
            binding: 0,
            visibility: ShaderStage::Vertex,
            ty: BindingType::UniformBuffer,
        },
    );
    assert(entries@ =~= uniform_bindings());
    entries
}

/// An off-screen texture that a pass draws into and a later pass reads.
#[derive(Clone, Copy, Debug)]
pub struct RenderTarget {
    pub label: &'static str,
    pub size: (u32, u32),
    pub format: TextureFormat,
}

/// The colour that a target is cleared to before a pass draws into it, each
/// channel a share of full intensity.
#[derive(Clone, Copy, Debug, PartialEq, Eq, Structural)]
pub struct ClearColor {
    pub r: Ratio,
    pub g: Ratio,
    pub b: Ratio,
    pub a: Ratio,
}

/// The opaque colour of `r`, `g` and `b` hundredths of full intensity.
pub open spec fn hundredths(r: u64, g: u64, b: u64) -> ClearColor {
    ClearColor {
        r: Ratio { num: r, den: 100 },
        g: Ratio { num: g, den: 100 },
        b: Ratio { num: b, den: 100 },
        a: Ratio { num: 100, den: 100 },
    }
}

/// The opaque colour of `r`, `g` and `b` hundredths of full intensity.
pub fn clear_to(r: u64, g: u64, b: u64) -> (color: ClearColor)
    ensures
        color == hundredths(r, g, b),
{
    ClearColor {
        r: Ratio::new(r, 100),
        g: Ratio::new(g, 100),
        b: Ratio::new(b, 100),
        a: Ratio::new(100, 100),
    }
}

/// How a texture is addressed beyond its edge.
#[derive(Clone, Copy, Debug, PartialEq, Eq, Structural)]
pub enum AddressMode {
    ClampToEdge,
    Repeat,
    MirrorRepeat,
}

/// How a texture is sampled between texels.
#[derive(Clone, Copy, Debug, PartialEq, Eq, Structural)]
pub enum FilterMode {
    Nearest,
    Linear,
}

/// How a texture is sampled.
#[derive(Clone, Copy, Debug, PartialEq, Eq, Structural)]
pub struct Sampler {
    pub address_mode: AddressMode,
    pub filter: FilterMode,
}

/// The sampler of every texture of the renderer: the nearest texel, and
/// the edge's texel beyond the edge.
pub fn sampler() -> (sampler: Sampler)
    ensures
        sampler == (Sampler { address_mode: AddressMode::ClampToEdge, filter: FilterMode::Nearest }),
{
    Sampler { address_mode: AddressMode::ClampToEdge, filter: FilterMode::Nearest }
}

/// How vertices make primitives.
#[derive(Clone, Copy, Debug, PartialEq, Eq, Structural)]
pub enum PrimitiveTopology {
    PointList,
    LineList,
    LineStrip,
    TriangleList,
    TriangleStrip,
}

/// Which winding faces the viewer.
#[derive(Clone, Copy, Debug, PartialEq, Eq, Structural)]
pub enum FrontFace {
    Ccw,
    Cw,
}

/// A side of a triangle.
#[derive(Clone, Copy, Debug, PartialEq, Eq, Structural)]
pub enum Face {
    Front,
    Back,
}

/// A render pipeline, described.
#[derive(Debug)]
pub struct Pipeline {
    pub label: String,
    pub layout_label: String,
    pub bind_group_layouts: Vec<Vec<BindGroupLayoutEntry>>,
    pub targets: Vec<ColorTargetState>,
    pub topology: PrimitiveTopology,
    pub front_face: FrontFace,
    pub cull_mode: Option<Face>,
    pub depth_stencil: bool,
    pub sample_count: u32,
}

impl Pipeline {
    /// What every pipeline of the renderer has in common: lists of
    /// triangles whose counter-clockwise side is the front and whose back
    /// is not drawn, no depth or stencil test, one sample a texel.
    pub open spec fn is_standard(&self) -> bool {
        &&& self.topology == PrimitiveTopology::TriangleList
        &&& self.front_face == FrontFace::Ccw
        &&& self.cull_mode == Some(Face::Back)
        &&& !self.depth_stencil
        &&& self.sample_count == 1
    }

    /// The pipeline called `name` that draws into `targets` with what is
    /// bound as `bind_group_layouts` say.
    pub fn new(
        bind_group_layouts: Vec<Vec<BindGroupLayoutEntry>>,
        targets: Vec<ColorTargetState>,
        name: &'static str,
    ) -> (pipeline: Pipeline)
        ensures
            pipeline.is_standard(),
            pipeline.label@ == name@ + " Pipeline"@,
            pipeline.layout_label@ == name@ + " Pipeline Layout"@,
            pipeline.bind_group_layouts == bind_group_layouts,
            pipeline.targets == targets,
    {
        let mut label = String::from_str(name);
        label.append(" Pipeline");
        let mut layout_label = String::from_str(name);
        layout_label.append(" Pipeline Layout");
        Pipeline {
            label,
            layout_label,
            bind_group_layouts,
            targets,
            topology: PrimitiveTopology::TriangleList,
            front_face: FrontFace::Ccw,
            cull_mode: Some(Face::Back),
            depth_stencil: false,
            sample_count: 1,
        }
    }
}

} // verus!
