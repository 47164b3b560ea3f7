//! The batching pass: replays the drained commands of one frame into one
//! mesh and one ordered list of render commands.

use vstd::prelude::*;
use crate::batch_laws::{draw_ranges, lemma_draw_ranges_tile, tiles};
use crate::batcher::{BatchModel, Batcher, Step};
use crate::command::{DrawState, TextureId, ViewRenderCommands};
use crate::context::{ContextState, ContextTracker};
use crate::draw_log::{context_after, DrawCommand};
use crate::geometry::Viewport;
use crate::glyph::{CacheModel, GlyphCache};
use crate::mesh::{lemma_offered, MeshModel, VertexMode, ViewMesh};
use crate::pipeline::{first_index_of, keys_with, FrameTarget, PipelineId, PipelineKey, PipelineRegistry};
use crate::primitive::RenderStatus;
use crate::tessellate::render_primitive;

verus! {

/// What is fixed for a frame on one surface: the formats of its targets,
/// its size, and the texture that is bound where a primitive asks for none.
#[derive(Clone, Copy, Debug, PartialEq, Eq, Hash, Structural)]
pub struct Surface {
    pub target: FrameTarget,
    pub viewport: Viewport,
    pub default_texture: TextureId,
}

/// What a batching pass hands to the GPU-submission side.
#[derive(Debug)]
pub struct BatchOutput {
    pub mesh: ViewMesh,
    pub commands: ViewRenderCommands,
    /// For each vertex of the mesh, how it is to be coloured.
    pub vertex_modes: Vec<VertexMode>,
    /// How many primitives added nothing to the mesh.
    pub degenerate: usize,
    /// Whether a glyph was left out because the atlas cannot hold it.
    pub cache_capacity_exceeded: bool,
}

/// A batching pass as a value, after some of the frame's commands.
pub struct FrameModel {
    pub context: ContextState,
    pub mesh: MeshModel,
    pub vertex_modes: Seq<VertexMode>,
    /// The primitives that were drawn, as the batcher saw them.
    pub steps: Seq<Step>,
    pub pipelines: Seq<PipelineKey>,
    pub cache: CacheModel,
    pub degenerate: nat,
    pub cache_capacity_exceeded: bool,
}

impl FrameModel {
    /// The pass before the first command: an empty mesh, nothing drawn.
    pub open spec fn start(context: ContextState, pipelines: Seq<PipelineKey>, cache: CacheModel) -> FrameModel {
        FrameModel {
            context,
            mesh: MeshModel::empty(),
            vertex_modes: Seq::empty(),
            steps: Seq::empty(),
            pipelines,
            cache,
            degenerate: 0,
            cache_capacity_exceeded: false,
        }
    }

    /// The state under which a primitive is drawn that asks for `texture`
    /// in the context in force.
    pub open spec fn draw_state(self, surface: Surface, texture: Option<TextureId>) -> DrawState {
        DrawState {
            pipeline: PipelineId(
                first_index_of(self.pipelines, PipelineKey::for_context_spec(surface.target, self.context)) as usize,
            ),
            texture: match texture {
                Some(t) => t,
                None => surface.default_texture,
            },
            scissor: self.context.scissor.resolve_spec(surface.viewport),
        }
    }

    /// The pass after one more command. A context command replaces the
    /// context. A primitive is rendered under the context in force; where
    /// the mesh gained indices, the primitive is a step for the batcher, its
    /// pipeline is asked of the registry, and its vertices get its vertex
    /// mode; where not, it is counted as degenerate.
    #[verifier::opaque]
    pub open spec fn after(self, command: DrawCommand, surface: Surface) -> FrameModel {
        match command {
            DrawCommand::Context(c) => FrameModel { context: c, ..self },
            DrawCommand::Primitive(p) => {
                let r = p.rendering(self.context.transform, self.cache);
                let exceeded = self.cache_capacity_exceeded || r.skipped > 0;
                if self.mesh.accepts(r.piece.vertices, r.piece.indices) {
                    let mesh = self.mesh.joined(r.piece.vertices, r.piece.indices);
                    FrameModel {
                        mesh,
                        vertex_modes: self.vertex_modes + Seq::new(r.piece.vertices.len(), |i: int| r.vertex_mode),
                        steps: self.steps.push(
                            Step {
                                state: self.draw_state(surface, r.texture),
                                vertex_count: mesh.points.len() as u32,
                                index_count: mesh.indices.len() as u32,
                            },
                        ),
                        pipelines: keys_with(
                            self.pipelines,
                            PipelineKey::for_context_spec(surface.target, self.context),
                        ),
                        cache: r.cache,
                        cache_capacity_exceeded: exceeded,
                        ..self
                    }
                } else {
                    FrameModel {
                        cache: r.cache,
                        degenerate: self.degenerate + 1,
                        cache_capacity_exceeded: exceeded,
                        ..self
                    }
                }
            },
        }
    }

    /// The pass after `commands`, taken in order.
    pub open spec fn run(self, commands: Seq<DrawCommand>, surface: Surface) -> FrameModel
        decreases commands.len(),
    {
        if commands.len() == 0 {
            self
        } else {
            self.run(commands.drop_last(), surface).after(commands.last(), surface)
        }
    }

    /// The render commands of the pass.
    pub open spec fn commands(self) -> Seq<crate::command::RenderCommand> {
        BatchModel::run(self.steps).finished()
    }
}

/// Gives every vertex beyond those that have a mode the mode `mode`.
fn extend_modes(vertex_modes: &mut Vec<VertexMode>, count: usize, mode: VertexMode)
    requires
        old(vertex_modes)@.len() <= count,
    ensures
        final(vertex_modes)@ == old(vertex_modes)@ + Seq::new(
            (count - old(vertex_modes)@.len()) as nat,
            |j: int| mode,
        ),
{
    while vertex_modes.len() < count
        invariant
            old(vertex_modes)@.len() <= vertex_modes@.len() <= count,
            vertex_modes@ == old(vertex_modes)@ + Seq::new(
                (vertex_modes@.len() - old(vertex_modes)@.len()) as nat,
                |j: int| mode,
            ),
        decreases count - vertex_modes@.len(),
    {
        vertex_modes.push(mode);
        assert(vertex_modes@ =~= old(vertex_modes)@ + Seq::new(
            (vertex_modes@.len() - old(vertex_modes)@.len()) as nat,
            |j: int| mode,
        ));
    }
}

/// Whether the parts of a running pass are those of the pass `f`.
spec fn in_step(
    f: FrameModel,
    context: ContextState,
    mesh: &ViewMesh,
    batcher: &Batcher,
    vertex_modes: &Vec<VertexMode>,
    pipelines: &PipelineRegistry,
    glyphs: &GlyphCache,
) -> bool {
    &&& pipelines.wf()
    &&& glyphs.wf()
    &&& mesh.wf()
    &&& context == f.context
    &&& mesh@ == f.mesh
    &&& vertex_modes@ == f.vertex_modes
    &&& pipelines@ == f.pipelines
    &&& glyphs@ == f.cache
    &&& batcher@ == BatchModel::run(f.steps)
    &&& batcher@.end == f.mesh.indices.len()
    &&& batcher@.vertices == f.mesh.points.len()
    &&& f.vertex_modes.len() == f.mesh.points.len()
}

/// Takes note of a primitive that was drawn under `context`: asks for its
/// pipeline, hands it to the batcher and gives its vertices their mode.
#[verifier::rlimit(40)]
fn note_drawn(
    context: &ContextState,
    surface: &Surface,
    texture: Option<TextureId>,
    mode: VertexMode,
    mesh: &ViewMesh,
    batcher: &mut Batcher,
    vertex_modes: &mut Vec<VertexMode>,
    pipelines: &mut PipelineRegistry,
    Ghost(f): Ghost<FrameModel>,
)
    requires
        old(pipelines).wf(),
        mesh.wf(),
        *context == f.context,
        old(pipelines)@ == f.pipelines,
        old(vertex_modes)@ == f.vertex_modes,
        old(batcher)@ == BatchModel::run(f.steps),
        old(batcher)@.end == f.mesh.indices.len(),
        old(batcher)@.vertices == f.mesh.points.len(),
        f.vertex_modes.len() == f.mesh.points.len(),
        mesh@.indices.len() > f.mesh.indices.len(),
        mesh@.points.len() >= f.mesh.points.len(),
    ensures
        final(pipelines).wf(),
        final(pipelines)@ == keys_with(f.pipelines, PipelineKey::for_context_spec(surface.target, f.context)),
        final(vertex_modes)@ == f.vertex_modes + Seq::new(
            (mesh@.points.len() - f.mesh.points.len()) as nat,
            |i: int| mode,
        ),
        final(batcher)@ == BatchModel::run(
            f.steps.push(
                Step {
                    state: f.draw_state(*surface, texture),
                    vertex_count: mesh@.points.len() as u32,
                    index_count: mesh@.indices.len() as u32,
                },
            ),
        ),
        final(batcher)@.end == mesh@.indices.len(),
        final(batcher)@.vertices == mesh@.points.len(),
{
    let key = PipelineKey::for_context(&surface.target, context);
    let pipeline = pipelines.specialize(key);
    let texture = match texture {
        Some(t) => t,
        None => surface.default_texture,
    };
    let state = DrawState { pipeline, texture, scissor: context.scissor.resolve(surface.viewport) };
    let vertex_count = mesh.vertex_count();
    let index_count = mesh.index_count();
    let ghost step = Step { state, vertex_count, index_count };
    let noted = batcher.primitive(state, vertex_count, index_count);
    proof {
        assert(f.steps.push(step).drop_last() =~= f.steps);
    }
    extend_modes(vertex_modes, mesh.points().len(), mode);
}

/// Replays one command into a running pass.
#[verifier::rlimit(40)]
fn replay(
    command: &DrawCommand,
    tracker: &mut ContextTracker,
    surface: &Surface,
    mesh: &mut ViewMesh,
    batcher: &mut Batcher,
    vertex_modes: &mut Vec<VertexMode>,
    pipelines: &mut PipelineRegistry,
    glyphs: &mut GlyphCache,
    Ghost(f): Ghost<FrameModel>,
) -> (r: (bool, bool))
    requires
        in_step(f, old(tracker)@, old(mesh), old(batcher), old(vertex_modes), old(pipelines), old(glyphs)),
    ensures
        in_step(
            f.after(*command, *surface),
            final(tracker)@,
            final(mesh),
            final(batcher),
            final(vertex_modes),
            final(pipelines),
            final(glyphs),
        ),
        f.after(*command, *surface).degenerate == f.degenerate + (if r.0 { 1nat } else { 0nat }),
        f.after(*command, *surface).cache_capacity_exceeded == (f.cache_capacity_exceeded || r.1),
{
    reveal(FrameModel::after);
    match command {
        DrawCommand::Context(c) => {
            tracker.replace(*c);
            (false, false)
        },
        DrawCommand::Primitive(p) => {
            let context = tracker.current();
            proof {
                let r = p.rendering(context.transform, glyphs@);
                lemma_offered(mesh@, r.piece.vertices, r.piece.indices);
            }
            let outcome = render_primitive(p, &context, mesh, glyphs);
            match outcome.status {
                RenderStatus::Degenerate => (true, outcome.skipped_glyphs > 0),
                RenderStatus::Drawn => {
                    note_drawn(
                        &context,
                        surface,
                        outcome.texture,
                        outcome.vertex_mode,
                        mesh,
                        batcher,
                        vertex_modes,
                        pipelines,
                        Ghost(f),
                    );
                    (false, outcome.skipped_glyphs > 0)
                },
            }
        },
    }
}

/// The context in force after a pass is that of the last context command
/// among its commands, or the one it started with where there is none.
pub proof fn lemma_frame_context(start: FrameModel, commands: Seq<DrawCommand>, surface: Surface)
    ensures
        start.run(commands, surface).context == context_after(start.context, commands),
    decreases commands.len(),
{
    reveal(FrameModel::after);
    if commands.len() > 0 {
        lemma_frame_context(start, commands.drop_last(), surface);
    }
}

/// Replays the drained `commands` of one frame.
///
/// Context commands replace the tracker's state. Each primitive is rendered
/// under the state in force into one mesh; the render commands are those of
/// a batcher that saw every drawn primitive with the pipeline of its
/// context, the texture it asks for (or the surface's default) and its
/// resolved scissor. The draw ranges tile the mesh's index buffer.
#[verifier::rlimit(40)]
pub fn batch(
    commands: Vec<DrawCommand>,
    tracker: &mut ContextTracker,
    surface: &Surface,
    pipelines: &mut PipelineRegistry,
    glyphs: &mut GlyphCache,
) -> (out: BatchOutput)
    requires
        old(pipelines).wf(),
        old(glyphs).wf(),
    ensures
        final(pipelines).wf(),
        final(glyphs).wf(),
        out.mesh.wf(),
        ({
            let f = FrameModel::start(old(tracker)@, old(pipelines)@, old(glyphs)@).run(commands@, *surface);
            &&& out.mesh@ == f.mesh
            &&& out.commands@ == f.commands()
            &&& out.vertex_modes@ == f.vertex_modes
            &&& out.degenerate == f.degenerate
            &&& out.cache_capacity_exceeded == f.cache_capacity_exceeded
            &&& final(tracker)@ == f.context
            &&& final(pipelines)@ == f.pipelines
            &&& final(glyphs)@ == f.cache
        }),
        final(tracker)@ == context_after(old(tracker)@, commands@),
        out.vertex_modes@.len() == out.mesh@.points.len(),
        tiles(draw_ranges(out.commands@), out.mesh@.indices.len() as u32),
{
    let mut mesh = ViewMesh::new();
    let mut batcher = Batcher::new();
    let mut vertex_modes: Vec<VertexMode> = Vec::new();
    let mut degenerate: usize = 0;
    let mut exceeded = false;
    let ghost start = FrameModel::start(old(tracker)@, old(pipelines)@, old(glyphs)@);
    let ghost mut f = start;
    let mut i: usize = 0;
    assert(commands@.take(0) =~= Seq::<DrawCommand>::empty());
    while i < commands.len()
        invariant
            0 <= i <= commands@.len(),
            f == start.run(commands@.take(i as int), *surface),
            in_step(f, tracker@, &mesh, &batcher, &vertex_modes, pipelines, glyphs),
            degenerate == f.degenerate,
            degenerate <= i,
            exceeded == f.cache_capacity_exceeded,
        decreases commands@.len() - i,
    {
        proof {
            assert(commands@.take(i + 1).drop_last() =~= commands@.take(i as int));
            assert(commands@.take(i + 1).last() == commands@[i as int]);
        }
        let (was_degenerate, skipped) = replay(
            &commands[i],
            tracker,
            surface,
            &mut mesh,
            &mut batcher,
            &mut vertex_modes,
            pipelines,
            glyphs,
            Ghost(f),
        );
        if was_degenerate {
            degenerate += 1;
        }
        if skipped {
            exceeded = true;
        }
        proof {
            f = f.after(commands@[i as int], *surface);
        }
        i += 1;
    }
    assert(commands@.take(commands@.len() as int) =~= commands@);
    proof {
        lemma_draw_ranges_tile(f.steps);
        lemma_frame_context(start, commands@, *surface);
    }
    BatchOutput {
        mesh,
        commands: batcher.finish(),
        vertex_modes,
        degenerate,
        cache_capacity_exceeded: exceeded,
    }
}

} // verus!
