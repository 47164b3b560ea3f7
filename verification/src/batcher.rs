//! The batcher: decides where state changes and draw ranges go, given what
//! each primitive in turn added to the mesh.

use vstd::prelude::*;
use crate::command::{DrawState, RenderCommand, ViewRenderCommands};

verus! {

/// What became of a primitive that was handed to the batcher.
#[derive(Clone, Copy, Debug, PartialEq, Eq, Hash, Structural)]
pub enum Batched {
    /// Its indices belong to a draw range.
    Drawn,
    /// It added nothing to the mesh: there is nothing to draw.
    Degenerate,
}

/// A breach of the mesh invariants by the side that fills the mesh.
#[derive(Clone, Copy, Debug, PartialEq, Eq, Hash, Structural)]
pub enum BatchError {
    /// Vertices came without indices, or the mesh shrank.
    InconsistentMeshState,
}

/// What one primitive left behind: the state it was rendered under, and the
/// vertex and index counts of the mesh after it.
pub struct Step {
    pub state: DrawState,
    pub vertex_count: u32,
    pub index_count: u32,
}

/// The batcher as a value: the commands so far, the index range that is
/// still to be drawn, the mesh's vertex count, and the state in force.
pub struct BatchModel {
    pub commands: Seq<RenderCommand>,
    /// Where the next draw range starts.
    pub start: u32,
    /// The index count of the mesh after the last primitive.
    pub end: u32,
    /// The vertex count of the mesh after the last primitive.
    pub vertices: u32,
    /// The state of the last drawn primitive.
    pub current: Option<DrawState>,
}

impl BatchModel {
    pub open spec fn initial() -> BatchModel {
        BatchModel { commands: Seq::empty(), start: 0, end: 0, vertices: 0, current: None }
    }

    /// Whether the counts of a primitive fit the mesh as it stood.
    pub open spec fn classify(self, vertex_count: u32, index_count: u32) -> Result<Batched, BatchError> {
        if index_count < self.end || vertex_count < self.vertices {
            Err(BatchError::InconsistentMeshState)
        } else if index_count == self.end {
            if vertex_count == self.vertices {
                Ok(Batched::Degenerate)
            } else {
                Err(BatchError::InconsistentMeshState)
            }
        } else {
            Ok(Batched::Drawn)
        }
    }

    /// The commands with a draw for the pending indices, if there are any.
    pub open spec fn flushed_commands(self) -> Seq<RenderCommand> {
        if self.start < self.end {
            self.commands.push(RenderCommand::draw_spec(self.start, self.end))
        } else {
            self.commands
        }
    }

    /// `commands` followed by the changes that lead from `current` to `next`:
    /// the pipeline if it differs, the bind group in any case, the scissor if
    /// it differs, in this order.
    pub open spec fn with_state_changes(
        commands: Seq<RenderCommand>,
        current: Option<DrawState>,
        next: DrawState,
    ) -> Seq<RenderCommand> {
        let pipeline_changed = !(current is Some && current->0.pipeline == next.pipeline);
        let scissor_changed = !(current is Some && current->0.scissor == next.scissor);
        let a = if pipeline_changed {
            commands.push(RenderCommand::SetPipeline(next.pipeline))
        } else {
            commands
        };
        let b = a.push(RenderCommand::SetBindGroup(next.texture));
        if scissor_changed {
            b.push(RenderCommand::SetScissor(next.scissor))
        } else {
            b
        }
    }

    /// The batcher after a primitive that grew the index count to
    /// `index_count` under `state`.
    pub open spec fn drawn(self, state: DrawState, vertex_count: u32, index_count: u32) -> BatchModel {
        if self.current == Some(state) {
            BatchModel { end: index_count, vertices: vertex_count, ..self }
        } else {
            BatchModel {
                commands: BatchModel::with_state_changes(self.flushed_commands(), self.current, state),
                start: self.end,
                end: index_count,
                vertices: vertex_count,
                current: Some(state),
            }
        }
    }

    /// The batcher after the primitive `step`: changed only where the
    /// primitive was drawn.
    pub open spec fn after(self, step: Step) -> BatchModel {
        if self.classify(step.vertex_count, step.index_count) == Ok::<Batched, BatchError>(Batched::Drawn) {
            self.drawn(step.state, step.vertex_count, step.index_count)
        } else {
            self
        }
    }

    /// The batcher after all of `steps`, from the initial one.
    pub open spec fn run(steps: Seq<Step>) -> BatchModel
        decreases steps.len(),
    {
        if steps.len() == 0 {
            BatchModel::initial()
        } else {
            BatchModel::run(steps.drop_last()).after(steps.last())
        }
    }

    /// The frame's commands: those so far, and a last draw for what is pending.
    pub open spec fn finished(self) -> Seq<RenderCommand> {
        self.flushed_commands()
    }
}

/// Collects the render commands of one frame.
#[derive(Debug)]
pub struct Batcher {
    commands: Vec<RenderCommand>,
    start_index: u32,
    end_index: u32,
    vertex_count: u32,
    current: Option<DrawState>,
}

impl View for Batcher {
    type V = BatchModel;

    closed spec fn view(&self) -> BatchModel {
        BatchModel {
            commands: self.commands@,
            start: self.start_index,
            end: self.end_index,
            vertices: self.vertex_count,
            current: self.current,
        }
    }
}

impl Batcher {
    /// A batcher with no commands, no state in force and an empty mesh.
    pub fn new() -> (b: Batcher)
        ensures
            b@ == BatchModel::initial(),
    {
        Batcher { commands: Vec::new(), start_index: 0, end_index: 0, vertex_count: 0, current: None }
    }

    /// Pushes a draw command for the pending indices and moves the cursor.
    /// Returns whether there was anything to draw.
    fn push_draw_cmd(&mut self) -> (pushed: bool)
        ensures
            pushed == (old(self)@.start < old(self)@.end),
            final(self)@ == (BatchModel {
                commands: old(self)@.flushed_commands(),
                start: old(self)@.end,
                ..old(self)@
            }),
    {
        if self.start_index < self.end_index {
            let cmd = RenderCommand::DrawIndexed {
                start_vertex: 0,
                index_range: core::ops::Range { start: self.start_index, end: self.end_index },
            };
            self.commands.push(cmd);
            self.start_index = self.end_index;
            true
        } else {
            self.start_index = self.end_index;
            false
        }
    }

    /// Takes note of a primitive that was rendered under `state` and left
    /// the mesh with `vertex_count` vertices and `index_count` indices.
    ///
    /// Where the index count did not grow, nothing changes: the primitive is
    /// degenerate if the vertex count stood still too, and the mesh is
    /// inconsistent if not, or if a count fell. Where it grew, the pending
    /// indices are drawn first if `state` differs from the state in force,
    /// and the state changes follow.
    pub fn primitive(&mut self, state: DrawState, vertex_count: u32, index_count: u32) -> (r: Result<
        Batched,
        BatchError,
    >)
        ensures
            r == old(self)@.classify(vertex_count, index_count),
            final(self)@ == old(self)@.after(Step { state, vertex_count, index_count }),
    {
        if index_count < self.end_index || vertex_count < self.vertex_count {
            return Err(BatchError::InconsistentMeshState);
        }
        if index_count == self.end_index {
            if vertex_count == self.vertex_count {
                return Ok(Batched::Degenerate);
            }
            return Err(BatchError::InconsistentMeshState);
        }
        let (pipeline_changed, scissor_changed, texture_changed) = match self.current {
            Some(c) => (c.pipeline != state.pipeline, c.scissor != state.scissor, c.texture != state.texture),
            None => (true, true, true),
        };
        if pipeline_changed || scissor_changed || texture_changed {
            self.push_draw_cmd();
            if pipeline_changed {
                self.commands.push(RenderCommand::SetPipeline(state.pipeline));
            }
            self.commands.push(RenderCommand::SetBindGroup(state.texture));
            if scissor_changed {
                self.commands.push(RenderCommand::SetScissor(state.scissor));
            }
            self.current = Some(state);
        }
        self.end_index = index_count;
        self.vertex_count = vertex_count;
        Ok(Batched::Drawn)
    }

    /// Ends the frame: draws what is pending and hands the commands out.
    pub fn finish(self) -> (commands: ViewRenderCommands)
        ensures
            commands@ == self@.finished(),
    {
        let mut this = self;
        this.push_draw_cmd();
        ViewRenderCommands(this.commands)
    }
}

} // verus!
