//! The commands that a batching pass hands to the GPU-submission side.

use vstd::prelude::*;
use crate::geometry::Scissor;
use crate::pipeline::PipelineId;

verus! {

/// The identity of a texture that a bind group refers to.
#[derive(Clone, Copy, Debug, PartialEq, Eq, Hash, Structural)]
pub struct TextureId(pub u64);

/// `Clone` for `core::ops::Range`, which the derived `Clone` of
/// `RenderCommand` calls. Nothing is claimed of the copy.
pub assume_specification<Idx: Clone>[ <core::ops::Range<Idx> as Clone>::clone ](
    r: &core::ops::Range<Idx>,
) -> (c: core::ops::Range<Idx>)
;

/// Commands that map to encodable GPU commands, to be replayed in order.
#[derive(Clone, Debug, PartialEq, Eq)]
pub enum RenderCommand {
    /// Change pipeline for a new blend mode or topology.
    SetPipeline(PipelineId),
    /// Change bind group for a texture.
    SetBindGroup(TextureId),
    /// Set the rectangular scissor.
    SetScissor(Scissor),
    /// Draw the indices in the given range of the index buffer.
    DrawIndexed { start_vertex: i32, index_range: core::ops::Range<u32> },
}

/// The ordered commands of one frame on one surface.
#[derive(Clone, Debug, Default, PartialEq, Eq)]
pub struct ViewRenderCommands(pub Vec<RenderCommand>);

impl View for ViewRenderCommands {
    type V = Seq<RenderCommand>;

    open spec fn view(&self) -> Seq<RenderCommand> {
        self.0@
    }
}

/// The pipeline, texture and scissor under which indices are drawn.
#[derive(Clone, Copy, Debug, PartialEq, Eq, Hash, Structural)]
pub struct DrawState {
    pub pipeline: PipelineId,
    pub texture: TextureId,
    pub scissor: Scissor,
}

impl RenderCommand {
    pub open spec fn is_draw(self) -> bool {
        self is DrawIndexed
    }

    /// The draw command for the indices from `start` up to `end`.
    pub open spec fn draw_spec(start: u32, end: u32) -> RenderCommand {
        RenderCommand::DrawIndexed { start_vertex: 0, index_range: core::ops::Range { start, end } }
    }
}

} // verus!
