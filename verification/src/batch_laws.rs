//! What holds of the commands that the batcher gives out, for every sequence
//! of primitives: the draw ranges tile the index buffer in order, every index
//! is drawn under the state of the primitive that added it, and there is one
//! draw range for each run of primitives that share a state.

use vstd::prelude::*;
use crate::batcher::{BatchError, BatchModel, Batched, Step};
use crate::command::{DrawState, RenderCommand, TextureId};
use crate::geometry::Scissor;
use crate::pipeline::PipelineId;

verus! {

/// The index ranges of the draw commands among `cmds`, in order.
pub open spec fn draw_ranges(cmds: Seq<RenderCommand>) -> Seq<(u32, u32)>
    decreases cmds.len(),
{
    if cmds.len() == 0 {
        Seq::empty()
    } else {
        let rest = draw_ranges(cmds.drop_last());
        let c = cmds.last();
        if c is DrawIndexed {
            rest.push((c->index_range.start, c->index_range.end))
        } else {
            rest
        }
    }
}

/// The ranges cover the indices below `total` once each, in rising order,
/// and none of them is empty.
pub open spec fn tiles(ranges: Seq<(u32, u32)>, total: u32) -> bool {
    &&& forall|i: int| 0 <= i < ranges.len() ==> (#[trigger] ranges[i]).0 < ranges[i].1
    &&& forall|i: int| 0 <= i < ranges.len() - 1 ==> (#[trigger] ranges[i]).1 == ranges[i + 1].0
    &&& ranges.len() == 0 ==> total == 0
    &&& ranges.len() > 0 ==> ranges[0].0 == 0 && ranges.last().1 == total
}

/// What a GPU has bound: nothing at first, then what the commands set.
pub struct GpuState {
    pub pipeline: Option<PipelineId>,
    pub texture: Option<TextureId>,
    pub scissor: Option<Scissor>,
}

impl GpuState {
    pub open spec fn unbound() -> GpuState {
        GpuState { pipeline: None, texture: None, scissor: None }
    }

    /// The GPU state in which all of `state` is bound.
    pub open spec fn bound(state: DrawState) -> GpuState {
        GpuState { pipeline: Some(state.pipeline), texture: Some(state.texture), scissor: Some(state.scissor) }
    }

    pub open spec fn of(current: Option<DrawState>) -> GpuState {
        match current {
            Some(state) => GpuState::bound(state),
            None => GpuState::unbound(),
        }
    }
}

/// The state of a GPU that has taken `cmds` in order.
pub open spec fn gpu_after(cmds: Seq<RenderCommand>) -> GpuState
    decreases cmds.len(),
{
    if cmds.len() == 0 {
        GpuState::unbound()
    } else {
        let g = gpu_after(cmds.drop_last());
        match cmds.last() {
            RenderCommand::SetPipeline(p) => GpuState { pipeline: Some(p), ..g },
            RenderCommand::SetBindGroup(t) => GpuState { texture: Some(t), ..g },
            RenderCommand::SetScissor(s) => GpuState { scissor: Some(s), ..g },
            RenderCommand::DrawIndexed { .. } => g,
        }
    }
}

/// The GPU state under which `index` is drawn when `cmds` are replayed in
/// order: that of the last draw command whose range holds it.
pub open spec fn drawn_under(cmds: Seq<RenderCommand>, index: int) -> Option<GpuState>
    decreases cmds.len(),
{
    if cmds.len() == 0 {
        None
    } else {
        let rest = cmds.drop_last();
        let c = cmds.last();
        if c is DrawIndexed && c->index_range.start <= index < c->index_range.end {
            Some(gpu_after(rest))
        } else {
            drawn_under(rest, index)
        }
    }
}

/// Whether `step` is drawn by a batcher that has taken `before`.
pub open spec fn is_drawn(before: Seq<Step>, step: Step) -> bool {
    BatchModel::run(before).classify(step.vertex_count, step.index_count) == Ok::<Batched, BatchError>(
        Batched::Drawn,
    )
}

/// The state of the primitive that added `index` to the mesh.
pub open spec fn owner(steps: Seq<Step>, index: int) -> Option<DrawState>
    decreases steps.len(),
{
    if steps.len() == 0 {
        None
    } else {
        let before = steps.drop_last();
        let s = steps.last();
        if index >= BatchModel::run(before).end && is_drawn(before, s) && index < s.index_count {
            Some(s.state)
        } else {
            owner(before, index)
        }
    }
}

/// The number of runs of drawn primitives with one state: a drawn primitive
/// starts a run where its state differs from that of the drawn primitive
/// before it, or where it is the first.
pub open spec fn state_runs(steps: Seq<Step>) -> nat
    decreases steps.len(),
{
    if steps.len() == 0 {
        0
    } else {
        let before = steps.drop_last();
        let s = steps.last();
        let starts_run = is_drawn(before, s) && BatchModel::run(before).current != Some(s.state);
        state_runs(before) + if starts_run { 1nat } else { 0nat }
    }
}

proof fn lemma_push_command(cmds: Seq<RenderCommand>, c: RenderCommand)
    ensures
        cmds.push(c).drop_last() == cmds,
        cmds.push(c).last() == c,
        draw_ranges(cmds.push(c)) == (if c is DrawIndexed {
            draw_ranges(cmds).push((c->index_range.start, c->index_range.end))
        } else {
            draw_ranges(cmds)
        }),
        forall|index: int|
            drawn_under(cmds.push(c), index) == (if c is DrawIndexed && c->index_range.start <= index
                < c->index_range.end {
                Some(gpu_after(cmds))
            } else {
                #[trigger] drawn_under(cmds, index)
            }),
        gpu_after(cmds.push(c)) == (match c {
            RenderCommand::SetPipeline(p) => GpuState { pipeline: Some(p), ..gpu_after(cmds) },
            RenderCommand::SetBindGroup(t) => GpuState { texture: Some(t), ..gpu_after(cmds) },
            RenderCommand::SetScissor(s) => GpuState { scissor: Some(s), ..gpu_after(cmds) },
            RenderCommand::DrawIndexed { .. } => gpu_after(cmds),
        }),
{
    assert(cmds.push(c).drop_last() =~= cmds);
}

#[verifier::rlimit(40)]
proof fn lemma_state_changes(cmds: Seq<RenderCommand>, current: Option<DrawState>, next: DrawState)
    ensures
        draw_ranges(BatchModel::with_state_changes(cmds, current, next)) == draw_ranges(cmds),
        forall|index: int|
            drawn_under(BatchModel::with_state_changes(cmds, current, next), index) == #[trigger] drawn_under(
                cmds,
                index,
            ),
        gpu_after(cmds) == GpuState::of(current) ==> gpu_after(
            BatchModel::with_state_changes(cmds, current, next),
        ) == GpuState::bound(next),
{
    let pipeline_changed = !(current is Some && current->0.pipeline == next.pipeline);
    let scissor_changed = !(current is Some && current->0.scissor == next.scissor);
    let a = if pipeline_changed {
        cmds.push(RenderCommand::SetPipeline(next.pipeline))
    } else {
        cmds
    };
    let b = a.push(RenderCommand::SetBindGroup(next.texture));
    if pipeline_changed {
        lemma_push_command(cmds, RenderCommand::SetPipeline(next.pipeline));
    }
    lemma_push_command(a, RenderCommand::SetBindGroup(next.texture));
    if scissor_changed {
        lemma_push_command(b, RenderCommand::SetScissor(next.scissor));
    }
}

proof fn lemma_run_push(steps: Seq<Step>, s: Step)
    ensures
        steps.push(s).drop_last() == steps,
        steps.push(s).last() == s,
        BatchModel::run(steps.push(s)) == BatchModel::run(steps).after(s),
{
    assert(steps.push(s).drop_last() =~= steps);
}

/// What the batcher keeps true of its commands and its pending range.
spec fn settled(steps: Seq<Step>) -> bool {
    let m = BatchModel::run(steps);
    &&& m.start <= m.end
    &&& m.current is Some <==> m.start < m.end
    &&& tiles(draw_ranges(m.commands), m.start)
    &&& gpu_after(m.commands) == GpuState::of(m.current)
    &&& draw_ranges(m.commands).len() + (if m.start < m.end { 1nat } else { 0nat }) == state_runs(steps)
    &&& forall|index: int|
        0 <= index < m.start ==> (#[trigger] owner(steps, index)) is Some && drawn_under(m.commands, index)
            == Some(GpuState::bound(owner(steps, index)->0))
    &&& forall|index: int| m.start <= index < m.end ==> #[trigger] owner(steps, index) == m.current
}

#[verifier::rlimit(40)]
proof fn lemma_settled(steps: Seq<Step>)
    ensures
        settled(steps),
    decreases steps.len(),
{
    if steps.len() == 0 {
        assert(draw_ranges(BatchModel::run(steps).commands) =~= Seq::empty());
    } else {
        let before = steps.drop_last();
        let s = steps.last();
        lemma_settled(before);
        let m0 = BatchModel::run(before);
        let m = BatchModel::run(steps);
        assert(m == m0.after(s));
        if is_drawn(before, s) {
            if m0.current == Some(s.state) {
                assert forall|index: int| m.start <= index < m.end implies #[trigger] owner(steps, index)
                    == m.current by {
                    if index < m0.end {
                        assert(owner(before, index) == m0.current);
                    }
                }
                assert forall|index: int| 0 <= index < m.start implies (#[trigger] owner(steps, index)) is Some
                    && drawn_under(m.commands, index) == Some(GpuState::bound(owner(steps, index)->0)) by {
                    assert(owner(steps, index) == owner(before, index));
                }
            } else {
                let flushed = m0.flushed_commands();
                lemma_state_changes(flushed, m0.current, s.state);
                if m0.start < m0.end {
                    lemma_push_command(m0.commands, RenderCommand::draw_spec(m0.start, m0.end));
                }
                assert(gpu_after(flushed) == gpu_after(m0.commands));
                assert(tiles(draw_ranges(m.commands), m.start));
                assert forall|index: int| 0 <= index < m.start implies (#[trigger] owner(steps, index)) is Some
                    && drawn_under(m.commands, index) == Some(GpuState::bound(owner(steps, index)->0)) by {
                    assert(owner(steps, index) == owner(before, index));
                    assert(drawn_under(m.commands, index) == drawn_under(flushed, index));
                    if index < m0.start {
                        assert(drawn_under(flushed, index) == drawn_under(m0.commands, index));
                    } else {
                        assert(owner(before, index) == m0.current);
                    }
                }
                assert forall|index: int| m.start <= index < m.end implies #[trigger] owner(steps, index)
                    == m.current by {}
            }
        } else {
            assert(m == m0);
            assert forall|index: int| 0 <= index < m.end implies #[trigger] owner(steps, index) == owner(
                before,
                index,
            ) by {}
        }
    }
}

/// The draw ranges of a frame tile its index buffer: they start at 0, each
/// starts where the one before it ends, the last ends at the mesh's index
/// count, and none is empty. So the indices are drawn in the order in which
/// the primitives added them, and no draw has an empty range.
pub proof fn lemma_draw_ranges_tile(steps: Seq<Step>)
    ensures
        tiles(draw_ranges(BatchModel::run(steps).finished()), BatchModel::run(steps).end),
{
    lemma_settled(steps);
    let m = BatchModel::run(steps);
    if m.start < m.end {
        lemma_push_command(m.commands, RenderCommand::draw_spec(m.start, m.end));
    }
}

/// Every index of the mesh is drawn, and the pipeline, texture and scissor
/// that are bound when it is drawn are those of the primitive that added it.
pub proof fn lemma_drawn_under_own_state(steps: Seq<Step>, index: int)
    requires
        0 <= index < BatchModel::run(steps).end,
    ensures
        owner(steps, index) is Some,
        drawn_under(BatchModel::run(steps).finished(), index) == Some(GpuState::bound(owner(steps, index)->0)),
{
    lemma_settled(steps);
    let m = BatchModel::run(steps);
    if m.start < m.end {
        lemma_push_command(m.commands, RenderCommand::draw_spec(m.start, m.end));
    }
    if index < m.start {
        assert(owner(steps, index) is Some);
    } else {
        assert(owner(steps, index) == m.current);
    }
}

/// A frame has as many draw commands as it has runs of drawn primitives that
/// share pipeline, texture and scissor.
pub proof fn lemma_one_draw_for_each_run(steps: Seq<Step>)
    ensures
        draw_ranges(BatchModel::run(steps).finished()).len() == state_runs(steps),
{
    lemma_settled(steps);
    let m = BatchModel::run(steps);
    if m.start < m.end {
        lemma_push_command(m.commands, RenderCommand::draw_spec(m.start, m.end));
    }
}

/// The steps all carry `state`.
pub open spec fn all_under(steps: Seq<Step>, state: DrawState) -> bool {
    forall|i: int| 0 <= i < steps.len() ==> (#[trigger] steps[i]).state == state
}

proof fn lemma_shared_state_run(steps: Seq<Step>, state: DrawState)
    requires
        all_under(steps, state),
    ensures
        draw_ranges(BatchModel::run(steps).commands) == Seq::<(u32, u32)>::empty(),
        BatchModel::run(steps).start == 0,
        BatchModel::run(steps).current is None || BatchModel::run(steps).current == Some(state),
    decreases steps.len(),
{
    if steps.len() == 0 {
        assert(draw_ranges(BatchModel::run(steps).commands) =~= Seq::empty());
    } else {
        let before = steps.drop_last();
        let s = steps.last();
        assert(s.state == state);
        assert(all_under(before, state)) by {
            assert forall|i: int| 0 <= i < before.len() implies (#[trigger] before[i]).state == state by {
                assert(before[i] == steps[i]);
            }
        }
        lemma_shared_state_run(before, state);
        lemma_settled(before);
        let m0 = BatchModel::run(before);
        lemma_state_changes(m0.flushed_commands(), m0.current, s.state);
    }
}

/// Primitives that share pipeline, texture and scissor are drawn by one draw
/// command, which covers the whole index buffer.
pub proof fn lemma_shared_state_one_draw(steps: Seq<Step>, state: DrawState)
    requires
        all_under(steps, state),
        BatchModel::run(steps).end > 0,
    ensures
        draw_ranges(BatchModel::run(steps).finished()) == seq![(0u32, BatchModel::run(steps).end)],
{
    lemma_shared_state_run(steps, state);
    lemma_settled(steps);
    let m = BatchModel::run(steps);
    lemma_push_command(m.commands, RenderCommand::draw_spec(m.start, m.end));
    assert(draw_ranges(m.finished()) =~= seq![(0u32, m.end)]);
}

#[verifier::rlimit(40)]
proof fn lemma_changed_state_run(first: Seq<Step>, second: Seq<Step>, a: DrawState, b: DrawState)
    requires
        all_under(first, a),
        all_under(second, b),
        a != b,
        BatchModel::run(first).end > 0,
    ensures
        ({
            let m1 = BatchModel::run(first);
            let m = BatchModel::run(first + second);
            ||| m == m1
            ||| {
                &&& draw_ranges(m.commands) == seq![(0u32, m1.end)]
                &&& m.start == m1.end
                &&& m.end > m1.end
                &&& m.current == Some(b)
            }
        }),
    decreases second.len(),
{
    if second.len() == 0 {
        assert(first + second =~= first);
    } else {
        let before = second.drop_last();
        let s = second.last();
        assert(s.state == b);
        assert(all_under(before, b)) by {
            assert forall|i: int| 0 <= i < before.len() implies (#[trigger] before[i]).state == b by {
                assert(before[i] == second[i]);
            }
        }
        lemma_changed_state_run(first, before, a, b);
        assert(first + second =~= (first + before).push(s));
        lemma_run_push(first + before, s);
        lemma_shared_state_run(first, a);
        lemma_settled(first);
        lemma_settled(first + before);
        let m1 = BatchModel::run(first);
        let m0 = BatchModel::run(first + before);
        let m = BatchModel::run(first + second);
        assert(m == m0.after(s));
        if is_drawn(first + before, s) {
            lemma_state_changes(m0.flushed_commands(), m0.current, s.state);
            if m0 == m1 {
                lemma_push_command(m1.commands, RenderCommand::draw_spec(m1.start, m1.end));
                assert(draw_ranges(m.commands) =~= seq![(0u32, m1.end)]);
            }
        }
    }
}

/// One change of state in a frame splits its indices into two draw
/// commands: where the primitives of `first` share the state `a`, those of
/// `second` share another state `b` (one with another scissor, for one), and
/// something is drawn under each, the frame has exactly two draw ranges,
/// and they meet where the indices of `first` end.
pub proof fn lemma_one_change_two_draws(first: Seq<Step>, second: Seq<Step>, a: DrawState, b: DrawState)
    requires
        all_under(first, a),
        all_under(second, b),
        a != b,
        BatchModel::run(first).end > 0,
        BatchModel::run(first + second).end > BatchModel::run(first).end,
    ensures
        draw_ranges(BatchModel::run(first + second).finished()) == seq![
            (0u32, BatchModel::run(first).end),
            (BatchModel::run(first).end, BatchModel::run(first + second).end),
        ],
{
    lemma_changed_state_run(first, second, a, b);
    let m1 = BatchModel::run(first);
    let m = BatchModel::run(first + second);
    lemma_push_command(m.commands, RenderCommand::draw_spec(m.start, m.end));
    assert(draw_ranges(m.finished()) =~= seq![(0u32, m1.end), (m1.end, m.end)]);
}

} // verus!
