//! What the GPU is told to do in one frame: three passes, each drawing into
//! targets that the next one reads.

use vstd::prelude::*;
use crate::gfx::pipeline::{
    additive, alpha_blending, clear_to, hundredths, ClearColor, ColorTargetState, TextureFormat,
};
use crate::gfx::quad::MAX_QUADS;

verus! {

/// A texture that a pass draws into.
#[derive(Clone, Copy, Debug, PartialEq, Eq, Structural)]
pub enum Target {
    /// The colour of the sprites.
    Albedo,
    /// The normals of the sprites.
    Normal,
    /// The lit image.
    Lit,
    /// The window's next image.
    Surface,
}

/// How the texels of a target are stored.
pub open spec fn format_of(target: Target) -> TextureFormat {
    match target {
        Target::Albedo => TextureFormat::Rgba8Unorm,
        Target::Normal => TextureFormat::Rgba8Unorm,
        Target::Lit => TextureFormat::Rgba8UnormSrgb,
        Target::Surface => TextureFormat::Surface,
    }
}

/// What is drawn with one pipeline.
#[derive(Clone, Copy, Debug, PartialEq, Eq, Structural)]
pub enum Layer {
    /// The sprites of the frame.
    Sprites,
    /// The lights of the frame.
    Lights,
    /// The quad that adds the ambient light.
    Ambient,
    /// The quad that shows the lit image.
    Screen,
}

/// The targets that the pipeline of a layer draws into, and how it blends
/// into each: sprites cover one another as far as they are opaque, light
/// adds up, and the lit image takes the place of what the window showed.
pub open spec fn targets_of(layer: Layer) -> Seq<ColorTargetState> {
    match layer {
        Layer::Sprites => seq![
            ColorTargetState { format: TextureFormat::Rgba8Unorm, blend: Some(alpha_blending()) },
            ColorTargetState { format: TextureFormat::Rgba8Unorm, blend: Some(alpha_blending()) },
        ],
        Layer::Lights => seq![
            ColorTargetState { format: TextureFormat::Rgba8UnormSrgb, blend: Some(additive()) },
        ],
        Layer::Ambient => seq![
            ColorTargetState { format: TextureFormat::Rgba8UnormSrgb, blend: Some(additive()) },
        ],
        Layer::Screen => seq![ColorTargetState { format: TextureFormat::Surface, blend: None }],
    }
}

/// One indexed draw: the pipeline and the geometry of a layer, and how many
/// indices of it.
#[derive(Clone, Copy, Debug, PartialEq, Eq, Structural)]
pub struct DrawCall {
    pub layer: Layer,
    pub index_count: u32,
}

/// A target as a pass draws into it: cleared first.
#[derive(Clone, Copy, Debug, PartialEq, Eq, Structural)]
pub struct Attachment {
    pub target: Target,
    pub clear: ClearColor,
}

/// One render pass.
#[derive(Debug)]
pub struct PassPlan {
    pub label: &'static str,
    /// The targets of earlier passes that the shaders sample.
    pub reads: Vec<Target>,
    /// The targets drawn into, all of them at once.
    pub attachments: Vec<Attachment>,
    /// The draws, in order.
    pub draws: Vec<DrawCall>,
}

/// What a [`PassPlan`] holds.
pub struct PassView {
    pub label: Seq<char>,
    pub reads: Seq<Target>,
    pub attachments: Seq<Attachment>,
    pub draws: Seq<DrawCall>,
}

impl View for PassPlan {
    type V = PassView;

    open spec fn view(&self) -> PassView {
        PassView {
            label: self.label@,
            reads: self.reads@,
            attachments: self.attachments@,
            draws: self.draws@,
        }
    }
}

/// The geometry pass of a frame of `sprites` sprites: one draw of all of
/// them into colour and normals at once.
pub open spec fn geometry_pass(sprites: nat) -> PassView {
    PassView {
        label: "G-Buffer Pass"@,
        reads: seq![],
        attachments: seq![
            Attachment { target: Target::Albedo, clear: hundredths(5, 5, 5) },
            Attachment { target: Target::Normal, clear: hundredths(50, 50, 100) },
        ],
        draws: seq![DrawCall { layer: Layer::Sprites, index_count: (6 * sprites) as u32 }],
    }
}

/// The lighting pass of a frame of `lights` lights: one draw of all of
/// them, then one of the ambient quad, both over the G-buffer.
pub open spec fn lighting_pass(lights: nat) -> PassView {
    PassView {
        label: "lighting_pass"@,
        reads: seq![Target::Albedo, Target::Normal],
        attachments: seq![Attachment { target: Target::Lit, clear: hundredths(0, 0, 0) }],
        draws: seq![
            DrawCall { layer: Layer::Lights, index_count: (6 * lights) as u32 },
            DrawCall { layer: Layer::Ambient, index_count: 6 },
        ],
    }
}

/// The present pass: one draw of the lit image into the window.
pub open spec fn present_pass() -> PassView {
    PassView {
        label: "Present Pass"@,
        reads: seq![Target::Lit],
        attachments: seq![Attachment { target: Target::Surface, clear: hundredths(0, 0, 0) }],
        draws: seq![DrawCall { layer: Layer::Screen, index_count: 6 }],
    }
}

/// The passes of a frame, in order.
pub open spec fn frame_plan(sprites: nat, lights: nat) -> Seq<PassView> {
    seq![geometry_pass(sprites), lighting_pass(lights), present_pass()]
}

/// The views of a list of passes.
pub open spec fn views(passes: Seq<PassPlan>) -> Seq<PassView> {
    Seq::new(passes.len(), |i: int| passes[i]@)
}

/// Whether a pass draws into `target`.
pub open spec fn writes(pass: PassView, target: Target) -> bool {
    exists|k: int| 0 <= k < pass.attachments.len() && pass.attachments[k].target == target
}

/// The passes of a frame of `sprites` sprites and `lights` lights.
pub fn plan_frame(sprites: usize, lights: usize) -> (passes: Vec<PassPlan>)
    requires
        sprites <= MAX_QUADS,
        lights <= MAX_QUADS,
    ensures
        views(passes@) == frame_plan(sprites as nat, lights as nat),
{
    let mut passes: Vec<PassPlan> = Vec::new();

    let mut attachments: Vec<Attachment> = Vec::new();
    attachments.push(Attachment { target: Target::Albedo, clear: clear_to(5, 5, 5) });
    attachments.push(Attachment { target: Target::Normal, clear: clear_to(50, 50, 100) });
    let mut draws: Vec<DrawCall> = Vec::new();
    draws.push(DrawCall { layer: Layer::Sprites, index_count: (6 * sprites) as u32 });
    let geometry = PassPlan { label: "G-Buffer Pass", reads: Vec::new(), attachments, draws };
    proof {
        assert(geometry@.reads =~= geometry_pass(sprites as nat).reads);
        assert(geometry@.attachments =~= geometry_pass(sprites as nat).attachments);
        assert(geometry@.draws =~= geometry_pass(sprites as nat).draws);
    }
    passes.push(geometry);

    let mut reads: Vec<Target> = Vec::new();
    reads.push(Target::Albedo);
    reads.push(Target::Normal);
    let mut attachments: Vec<Attachment> = Vec::new();
    attachments.push(Attachment { target: Target::Lit, clear: clear_to(0, 0, 0) });
    let mut draws: Vec<DrawCall> = Vec::new();
    draws.push(DrawCall { layer: Layer::Lights, index_count: (6 * lights) as u32 });
    draws.push(DrawCall { layer: Layer::Ambient, index_count: 6 });
    let lighting = PassPlan { label: "lighting_pass", reads, attachments, draws };
    proof {
        assert(lighting@.reads =~= lighting_pass(lights as nat).reads);
        assert(lighting@.attachments =~= lighting_pass(lights as nat).attachments);
        assert(lighting@.draws =~= lighting_pass(lights as nat).draws);
    }
    passes.push(lighting);

    let mut reads: Vec<Target> = Vec::new();
    reads.push(Target::Lit);
    let mut attachments: Vec<Attachment> = Vec::new();
    attachments.push(Attachment { target: Target::Surface, clear: clear_to(0, 0, 0) });
    let mut draws: Vec<DrawCall> = Vec::new();
    draws.push(DrawCall { layer: Layer::Screen, index_count: 6 });
    let present = PassPlan { label: "Present Pass", reads, attachments, draws };
    proof {
        assert(present@.reads =~= present_pass().reads);
        assert(present@.attachments =~= present_pass().attachments);
        assert(present@.draws =~= present_pass().draws);
    }
    passes.push(present);
    proof {
        assert(views(passes@) =~= frame_plan(sprites as nat, lights as nat));
    }
    passes
}

/// The passes of a frame are chained: each samples only what an earlier
/// pass has drawn, nothing is drawn into twice, and the last pass draws
/// into the window.
pub proof fn lemma_passes_are_chained(sprites: nat, lights: nat, pass: int, read: int)
    requires
        0 <= pass < 3,
        0 <= read < frame_plan(sprites, lights)[pass].reads.len(),
    ensures
        exists|earlier: int|
            0 <= earlier < pass && writes(
                #[trigger] frame_plan(sprites, lights)[earlier],
                frame_plan(sprites, lights)[pass].reads[read],
            ),
        writes(frame_plan(sprites, lights)[2], Target::Surface),
        forall|first: int, second: int, target: Target|
            0 <= first < second < 3 ==> !(writes(frame_plan(sprites, lights)[first], target)
                && writes(frame_plan(sprites, lights)[second], target)),
{
    let plan = frame_plan(sprites, lights);
    assert(plan[0].attachments[0].target == Target::Albedo);
    assert(plan[0].attachments[1].target == Target::Normal);
    assert(plan[1].attachments[0].target == Target::Lit);
    assert(plan[2].attachments[0].target == Target::Surface);
    if pass == 1 {
        assert(writes(plan[0], plan[1].reads[read]));
    } else if pass == 2 {
        assert(writes(plan[1], plan[2].reads[read]));
    }
}

/// Every draw of a pass is made with a pipeline for exactly the targets of
/// the pass: as many, in the same formats.
pub proof fn lemma_draws_fit_their_pass(sprites: nat, lights: nat, pass: int, draw: int)
    requires
        0 <= pass < 3,
        0 <= draw < frame_plan(sprites, lights)[pass].draws.len(),
    ensures
        ({
            let planned = frame_plan(sprites, lights)[pass];
            let targets = targets_of(planned.draws[draw].layer);
            &&& targets.len() == planned.attachments.len()
            &&& forall|k: int|
                0 <= k < targets.len() ==> targets[k].format == format_of(
                    #[trigger] planned.attachments[k].target,
                )
        }),
{
}

/// As long as the quads can be indexed, a frame draws six indices for
/// every sprite, six for every light and twelve more.
pub proof fn lemma_indices_of_a_frame(sprites: nat, lights: nat)
    requires
        sprites <= MAX_QUADS,
        lights <= MAX_QUADS,
    ensures
        frame_plan(sprites, lights)[0].draws[0].index_count == 6 * sprites,
        frame_plan(sprites, lights)[1].draws[0].index_count == 6 * lights,
        frame_plan(sprites, lights)[1].draws[1].index_count == 6,
        frame_plan(sprites, lights)[2].draws[0].index_count == 6,
{
}

} // verus!
