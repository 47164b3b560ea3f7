//! What holds of a whole batching pass, stated over the commands that were
//! recorded: the batcher sees the mesh as it is, primitives that share
//! their state share a draw, and one change of scissor splits the frame's
//! indices in two.

use vstd::prelude::*;
use crate::batch_laws::{
    all_under, draw_ranges, drawn_under, lemma_draw_ranges_tile, lemma_drawn_under_own_state,
    lemma_one_change_two_draws, lemma_shared_state_one_draw, owner, tiles, GpuState,
};
use crate::batcher::{BatchModel, Step};
use crate::command::{DrawState, TextureId};
use crate::context::ContextState;
use crate::draw_log::DrawCommand;
use crate::frame::{FrameModel, Surface};
use crate::geometry::Scissor;
use crate::glyph::CacheModel;
use crate::mesh::lemma_offered;
use crate::pipeline::{first_index_of, keys_with, lemma_first_index_of, PipelineId, PipelineKey};
use crate::primitive::Primitive;

verus! {

/// The texture that a primitive asks for.
pub open spec fn asked_texture(p: Primitive) -> Option<TextureId> {
    match p {
        Primitive::Mesh { vertices, indices, texture } => texture,
        _ => None,
    }
}

/// What of a context decides the state of its draws on `surface`: its
/// pipeline key and its resolved scissor.
pub open spec fn state_of(context: ContextState, surface: Surface) -> (PipelineKey, Scissor) {
    (PipelineKey::for_context_spec(surface.target, context), context.scissor.resolve_spec(surface.viewport))
}

/// No command among `commands` changes the draw state: every context
/// command has the pipeline key and the resolved scissor of `context`, and
/// every primitive asks for `texture`.
pub open spec fn keeps_state(
    commands: Seq<DrawCommand>,
    context: ContextState,
    surface: Surface,
    texture: Option<TextureId>,
) -> bool {
    forall|i: int|
        0 <= i < commands.len() ==> match #[trigger] commands[i] {
            DrawCommand::Context(c) => state_of(c, surface) == state_of(context, surface),
            DrawCommand::Primitive(p) => asked_texture(p) == texture,
        }
}

/// The batcher of the pass has seen the mesh of the pass.
pub open spec fn consistent(f: FrameModel) -> bool {
    &&& f.mesh.wf()
    &&& BatchModel::run(f.steps).end == f.mesh.indices.len()
    &&& BatchModel::run(f.steps).vertices == f.mesh.points.len()
}

/// The steps that `commands` add to a pass.
pub open spec fn added_steps(f: FrameModel, commands: Seq<DrawCommand>, surface: Surface) -> Seq<Step> {
    f.run(commands, surface).steps.subrange(f.steps.len() as int, f.run(commands, surface).steps.len() as int)
}

#[verifier::rlimit(40)]
proof fn lemma_after(f: FrameModel, command: DrawCommand, surface: Surface)
    requires
        consistent(f),
    ensures
        consistent(f.after(command, surface)),
        f.after(command, surface).mesh.indices.len() >= f.mesh.indices.len(),
        match command {
            DrawCommand::Context(c) => f.after(command, surface) == (FrameModel { context: c, ..f }),
            DrawCommand::Primitive(p) => {
                let g = f.after(command, surface);
                &&& g.context == f.context
                &&& {
                    ||| g.steps == f.steps && g.pipelines == f.pipelines && g.mesh == f.mesh
                    ||| {
                        &&& g.steps == f.steps.push(
                            Step {
                                state: f.draw_state(surface, asked_texture(p)),
                                vertex_count: g.mesh.points.len() as u32,
                                index_count: g.mesh.indices.len() as u32,
                            },
                        )
                        &&& g.pipelines == keys_with(
                            f.pipelines,
                            PipelineKey::for_context_spec(surface.target, f.context),
                        )
                        &&& g.mesh.indices.len() > f.mesh.indices.len()
                    }
                }
            },
        },
{
    reveal(FrameModel::after);
    match command {
        DrawCommand::Context(c) => {},
        DrawCommand::Primitive(p) => {
            let r = p.rendering(f.context.transform, f.cache);
            lemma_offered(f.mesh, r.piece.vertices, r.piece.indices);
            let g = f.after(command, surface);
            if f.mesh.accepts(r.piece.vertices, r.piece.indices) {
                assert(g.steps.drop_last() =~= f.steps);
            }
        },
    }
}

/// A pass over `first` and then `second` is a pass over `second` from where
/// the pass over `first` ended.
pub proof fn lemma_run_in_two(f: FrameModel, first: Seq<DrawCommand>, second: Seq<DrawCommand>, surface: Surface)
    ensures
        f.run(first + second, surface) == f.run(first, surface).run(second, surface),
    decreases second.len(),
{
    if second.len() == 0 {
        assert(first + second =~= first);
    } else {
        lemma_run_in_two(f, first, second.drop_last(), surface);
        assert((first + second).drop_last() =~= first + second.drop_last());
    }
}

/// A pass keeps the batcher in step with the mesh, only adds steps, and
/// never loses indices.
pub proof fn lemma_run_consistent(f: FrameModel, commands: Seq<DrawCommand>, surface: Surface)
    requires
        consistent(f),
    ensures
        consistent(f.run(commands, surface)),
        f.run(commands, surface).mesh.indices.len() >= f.mesh.indices.len(),
        f.run(commands, surface).steps == f.steps + added_steps(f, commands, surface),
    decreases commands.len(),
{
    if commands.len() == 0 {
        assert(f.steps =~= f.steps + added_steps(f, commands, surface));
    } else {
        let before = f.run(commands.drop_last(), surface);
        lemma_run_consistent(f, commands.drop_last(), surface);
        lemma_after(before, commands.last(), surface);
        let g = f.run(commands, surface);
        assert(g.steps =~= f.steps + added_steps(f, commands, surface));
    }
}

/// Draw order is kept: the draw ranges of a frame tile the index buffer of
/// its mesh in rising order, so that what was recorded later is drawn
/// later, and every index is drawn with the pipeline, texture and scissor
/// of the primitive that added it.
pub proof fn lemma_frame_draws_in_order(
    context: ContextState,
    pipelines: Seq<PipelineKey>,
    cache: CacheModel,
    commands: Seq<DrawCommand>,
    surface: Surface,
    index: int,
)
    requires
        0 <= index < FrameModel::start(context, pipelines, cache).run(commands, surface).mesh.indices.len(),
    ensures
        ({
            let f = FrameModel::start(context, pipelines, cache).run(commands, surface);
            &&& tiles(draw_ranges(f.commands()), f.mesh.indices.len() as u32)
            &&& owner(f.steps, index) is Some
            &&& drawn_under(f.commands(), index) == Some(GpuState::bound(owner(f.steps, index)->0))
        }),
{
    let start = FrameModel::start(context, pipelines, cache);
    let f = start.run(commands, surface);
    lemma_run_consistent(start, commands, surface);
    lemma_draw_ranges_tile(f.steps);
    lemma_drawn_under_own_state(f.steps, index);
}

/// The state of every draw of a pass in which no command changes the draw
/// state.
pub open spec fn kept_state(f: FrameModel, surface: Surface, texture: Option<TextureId>) -> DrawState {
    f.draw_state(surface, texture)
}

/// Asking for a key does not change the identity that the key gets.
proof fn lemma_first_index_stable(keys: Seq<PipelineKey>, key: PipelineKey)
    ensures
        first_index_of(keys_with(keys, key), key) == first_index_of(keys, key),
        keys_with(keys_with(keys, key), key) == keys_with(keys, key),
{
    lemma_first_index_of(keys, key);
    let after = keys_with(keys, key);
    lemma_first_index_of(after, key);
    if !keys.contains(key) {
        assert(after[keys.len() as int] == key);
        assert(after.contains(key));
        assert forall|i: int| 0 <= i < keys.len() implies after[i] != key by {
            assert(after[i] == keys[i]);
        }
    }
}

#[verifier::rlimit(40)]
proof fn lemma_kept_state(f: FrameModel, commands: Seq<DrawCommand>, surface: Surface, texture: Option<TextureId>)
    requires
        consistent(f),
        keeps_state(commands, f.context, surface, texture),
    ensures
        all_under(added_steps(f, commands, surface), kept_state(f, surface, texture)),
        state_of(f.run(commands, surface).context, surface) == state_of(f.context, surface),
        ({
            let key = PipelineKey::for_context_spec(surface.target, f.context);
            f.run(commands, surface).pipelines == f.pipelines || f.run(commands, surface).pipelines == keys_with(
                f.pipelines,
                key,
            )
        }),
    decreases commands.len(),
{
    let key = PipelineKey::for_context_spec(surface.target, f.context);
    if commands.len() == 0 {
    } else {
        let rest = commands.drop_last();
        let last = commands.last();
        assert(keeps_state(rest, f.context, surface, texture)) by {
            assert forall|i: int| 0 <= i < rest.len() implies match #[trigger] rest[i] {
                DrawCommand::Context(c) => state_of(c, surface) == state_of(f.context, surface),
                DrawCommand::Primitive(p) => asked_texture(p) == texture,
            } by {
                assert(rest[i] == commands[i]);
            }
        }
        lemma_kept_state(f, rest, surface, texture);
        lemma_run_consistent(f, rest, surface);
        lemma_run_consistent(f, commands, surface);
        let before = f.run(rest, surface);
        let g = f.run(commands, surface);
        lemma_after(before, last, surface);
        lemma_first_index_stable(f.pipelines, key);
        assert(commands[commands.len() - 1] == last);
        assert(before.steps == f.steps + added_steps(f, rest, surface));
        assert(g.steps == f.steps + added_steps(f, commands, surface));
        let added_before = added_steps(f, rest, surface);
        let added = added_steps(f, commands, surface);
        match last {
            DrawCommand::Context(c) => {
                assert(added =~= added_before);
            },
            DrawCommand::Primitive(p) => {
                if g.steps == before.steps {
                    assert(added =~= added_before);
                } else {
                    let step = Step {
                        state: before.draw_state(surface, asked_texture(p)),
                        vertex_count: g.mesh.points.len() as u32,
                        index_count: g.mesh.indices.len() as u32,
                    };
                    assert(g.steps == before.steps.push(step));
                    assert(added.len() == added_before.len() + 1);
                    assert forall|i: int| 0 <= i < added.len() implies added[i] == added_before.push(step)[i] by {
                        assert(added[i] == g.steps[f.steps.len() + i]);
                        if i < added_before.len() {
                            assert(added_before[i] == before.steps[f.steps.len() + i]);
                        }
                    }
                    assert(added =~= added_before.push(step));
                    assert(asked_texture(p) == texture);
                    assert(state_of(before.context, surface) == state_of(f.context, surface));
                    assert(PipelineKey::for_context_spec(surface.target, before.context) == key);
                    assert(first_index_of(before.pipelines, key) == first_index_of(f.pipelines, key));
                    assert(step.state == kept_state(f, surface, texture));
                }
            },
        }
    }
}

/// Primitives that share pipeline key, scissor and texture collapse into
/// one draw: where no command of a frame changes the draw state, the frame
/// has one draw command, which covers the whole index buffer, or none where
/// nothing was drawn.
#[verifier::rlimit(40)]
pub proof fn lemma_frame_one_draw(
    context: ContextState,
    pipelines: Seq<PipelineKey>,
    cache: CacheModel,
    commands: Seq<DrawCommand>,
    surface: Surface,
    texture: Option<TextureId>,
)
    requires
        keeps_state(commands, context, surface, texture),
    ensures
        ({
            let f = FrameModel::start(context, pipelines, cache).run(commands, surface);
            &&& f.mesh.indices.len() > 0 ==> draw_ranges(f.commands()) == seq![(0u32, f.mesh.indices.len() as u32)]
            &&& f.mesh.indices.len() == 0 ==> f.commands() == Seq::<crate::command::RenderCommand>::empty()
        }),
{
    let start = FrameModel::start(context, pipelines, cache);
    let f = start.run(commands, surface);
    lemma_kept_state(start, commands, surface, texture);
    lemma_run_consistent(start, commands, surface);
    assert(f.steps =~= added_steps(start, commands, surface));
    let state = kept_state(start, surface, texture);
    if f.mesh.indices.len() > 0 {
        lemma_shared_state_one_draw(f.steps, state);
    } else {
        lemma_nothing_drawn(f.steps);
    }
}

/// A batcher that has drawn nothing has no commands.
proof fn lemma_nothing_drawn(steps: Seq<Step>)
    requires
        BatchModel::run(steps).end == 0,
    ensures
        BatchModel::run(steps) == BatchModel::initial(),
        BatchModel::run(steps).finished() == Seq::<crate::command::RenderCommand>::empty(),
    decreases steps.len(),
{
    if steps.len() > 0 {
        let before = BatchModel::run(steps.drop_last());
        if before.end > 0 {
            lemma_end_grows(steps.drop_last(), steps.last());
        }
        lemma_nothing_drawn(steps.drop_last());
    }
}

proof fn lemma_end_grows(steps: Seq<Step>, step: Step)
    ensures
        BatchModel::run(steps).after(step).end >= BatchModel::run(steps).end,
{
}

/// One change of scissor splits a frame's indices into two draws: where
/// the commands before a context command keep one draw state, the context
/// command resolves to another scissor, the commands after it keep its
/// state, and something is drawn on each side, the frame has exactly two
/// draw commands, which meet where the indices of the first side end.
#[verifier::rlimit(40)]
pub proof fn lemma_frame_scissor_change(
    context: ContextState,
    pipelines: Seq<PipelineKey>,
    cache: CacheModel,
    first: Seq<DrawCommand>,
    change: ContextState,
    second: Seq<DrawCommand>,
    surface: Surface,
    texture: Option<TextureId>,
)
    requires
        keeps_state(first, context, surface, texture),
        keeps_state(second, change, surface, texture),
        change.scissor.resolve_spec(surface.viewport) != context.scissor.resolve_spec(surface.viewport),
        FrameModel::start(context, pipelines, cache).run(first, surface).mesh.indices.len() > 0,
        FrameModel::start(context, pipelines, cache).run(
            first.push(DrawCommand::Context(change)) + second,
            surface,
        ).mesh.indices.len() > FrameModel::start(context, pipelines, cache).run(first, surface).mesh.indices.len(),
    ensures
        ({
            let f1 = FrameModel::start(context, pipelines, cache).run(first, surface);
            let f = FrameModel::start(context, pipelines, cache).run(
                first.push(DrawCommand::Context(change)) + second,
                surface,
            );
            draw_ranges(f.commands()) == seq![
                (0u32, f1.mesh.indices.len() as u32),
                (f1.mesh.indices.len() as u32, f.mesh.indices.len() as u32),
            ]
        }),
{
    let start = FrameModel::start(context, pipelines, cache);
    let f1 = start.run(first, surface);
    let f2 = FrameModel { context: change, ..f1 };
    lemma_context_step(start, first, change, second, surface);
    lemma_first_side(start, first, surface, texture);
    lemma_second_side(f1, change, second, surface, texture);
    let a = kept_state(start, surface, texture);
    let b = kept_state(f2, surface, texture);
    lemma_states_differ(start, f2, surface, texture);
    lemma_one_change_two_draws(f1.steps, added_steps(f2, second, surface), a, b);
}

proof fn lemma_states_differ(start: FrameModel, f2: FrameModel, surface: Surface, texture: Option<TextureId>)
    requires
        start.context.scissor.resolve_spec(surface.viewport) != f2.context.scissor.resolve_spec(surface.viewport),
    ensures
        kept_state(start, surface, texture) != kept_state(f2, surface, texture),
{
}

proof fn lemma_context_step(
    start: FrameModel,
    first: Seq<DrawCommand>,
    change: ContextState,
    second: Seq<DrawCommand>,
    surface: Surface,
)
    ensures
        start.run(first.push(DrawCommand::Context(change)) + second, surface) == (FrameModel {
            context: change,
            ..start.run(first, surface)
        }).run(second, surface),
{
    reveal(FrameModel::after);
    let changed = first.push(DrawCommand::Context(change));
    lemma_run_in_two(start, changed, second, surface);
    assert(changed.drop_last() =~= first);
    assert(changed.last() == DrawCommand::Context(change));
}

proof fn lemma_first_side(start: FrameModel, first: Seq<DrawCommand>, surface: Surface, texture: Option<TextureId>)
    requires
        start.steps == Seq::<Step>::empty(),
        start.mesh == crate::mesh::MeshModel::empty(),
        keeps_state(first, start.context, surface, texture),
    ensures
        consistent(start.run(first, surface)),
        all_under(start.run(first, surface).steps, kept_state(start, surface, texture)),
        BatchModel::run(start.run(first, surface).steps).end == start.run(first, surface).mesh.indices.len(),
{
    lemma_kept_state(start, first, surface, texture);
    lemma_run_consistent(start, first, surface);
    assert(start.run(first, surface).steps =~= added_steps(start, first, surface));
}

proof fn lemma_second_side(
    f1: FrameModel,
    change: ContextState,
    second: Seq<DrawCommand>,
    surface: Surface,
    texture: Option<TextureId>,
)
    requires
        consistent(f1),
        keeps_state(second, change, surface, texture),
    ensures
        ({
            let f2 = FrameModel { context: change, ..f1 };
            let f = f2.run(second, surface);
            &&& f.steps == f1.steps + added_steps(f2, second, surface)
            &&& all_under(added_steps(f2, second, surface), kept_state(f2, surface, texture))
            &&& BatchModel::run(f.steps).end == f.mesh.indices.len()
        }),
{
    let f2 = FrameModel { context: change, ..f1 };
    lemma_kept_state(f2, second, surface, texture);
    lemma_run_consistent(f2, second, surface);
}

} // verus!
