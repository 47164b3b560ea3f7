//! The drawing context: the state under which a primitive is rendered, and
//! the tracker that holds the current one while a frame is replayed.

use vstd::prelude::*;
use crate::geometry::ScissorMode;
use crate::transform::Affine3;

verus! {

/// A factor of the blend equation.
#[derive(Clone, Copy, Debug, PartialEq, Eq, Hash, Structural)]
pub enum BlendFactor {
    Zero,
    One,
    Src,
    OneMinusSrc,
    SrcAlpha,
    OneMinusSrcAlpha,
    Dst,
    OneMinusDst,
    DstAlpha,
    OneMinusDstAlpha,
}

/// The operation that joins the weighted source and destination.
#[derive(Clone, Copy, Debug, PartialEq, Eq, Hash, Structural)]
pub enum BlendOperation {
    Add,
    Subtract,
    ReverseSubtract,
    Min,
    Max,
}

/// The blend equation of the colour channels or of the alpha channel.
#[derive(Clone, Copy, Debug, PartialEq, Eq, Hash, Structural)]
pub struct BlendComponent {
    pub src_factor: BlendFactor,
    pub dst_factor: BlendFactor,
    pub operation: BlendOperation,
}

/// How a fragment is joined with what the target already holds.
#[derive(Clone, Copy, Debug, PartialEq, Eq, Hash, Structural)]
pub struct BlendState {
    pub color: BlendComponent,
    pub alpha: BlendComponent,
}

/// How the index stream is assembled into shapes.
#[derive(Clone, Copy, Debug, PartialEq, Eq, Hash, Structural)]
pub enum PrimitiveTopology {
    PointList,
    LineList,
    LineStrip,
    TriangleList,
    TriangleStrip,
}

impl BlendComponent {
    pub open spec fn normal_spec() -> BlendComponent {
        BlendComponent {
            src_factor: BlendFactor::SrcAlpha,
            dst_factor: BlendFactor::OneMinusSrcAlpha,
            operation: BlendOperation::Add,
        }
    }

    pub open spec fn add_spec() -> BlendComponent {
        BlendComponent { src_factor: BlendFactor::Src, dst_factor: BlendFactor::Dst, operation: BlendOperation::Add }
    }

    pub open spec fn subtract_spec() -> BlendComponent {
        BlendComponent {
            src_factor: BlendFactor::Src,
            dst_factor: BlendFactor::Dst,
            operation: BlendOperation::Subtract,
        }
    }

    pub open spec fn reverse_subtract_spec() -> BlendComponent {
        BlendComponent {
            src_factor: BlendFactor::Src,
            dst_factor: BlendFactor::Dst,
            operation: BlendOperation::ReverseSubtract,
        }
    }

    pub open spec fn darkest_spec() -> BlendComponent {
        BlendComponent { src_factor: BlendFactor::One, dst_factor: BlendFactor::One, operation: BlendOperation::Min }
    }

    pub open spec fn lightest_spec() -> BlendComponent {
        BlendComponent { src_factor: BlendFactor::One, dst_factor: BlendFactor::One, operation: BlendOperation::Max }
    }

    /// Source over destination, weighted by the source's alpha.
    pub fn normal() -> (c: BlendComponent)
        ensures
            c == BlendComponent::normal_spec(),
    {
        BlendComponent {
            src_factor: BlendFactor::SrcAlpha,
            dst_factor: BlendFactor::OneMinusSrcAlpha,
            operation: BlendOperation::Add,
        }
    }

    /// Source plus destination.
    pub fn add() -> (c: BlendComponent)
        ensures
            c == BlendComponent::add_spec(),
    {
        BlendComponent { src_factor: BlendFactor::Src, dst_factor: BlendFactor::Dst, operation: BlendOperation::Add }
    }

    /// Source minus destination.
    pub fn subtract() -> (c: BlendComponent)
        ensures
            c == BlendComponent::subtract_spec(),
    {
        BlendComponent {
            src_factor: BlendFactor::Src,
            dst_factor: BlendFactor::Dst,
            operation: BlendOperation::Subtract,
        }
    }

    /// Destination minus source.
    pub fn reverse_subtract() -> (c: BlendComponent)
        ensures
            c == BlendComponent::reverse_subtract_spec(),
    {
        BlendComponent {
            src_factor: BlendFactor::Src,
            dst_factor: BlendFactor::Dst,
            operation: BlendOperation::ReverseSubtract,
        }
    }

    /// The smaller of source and destination.
    pub fn darkest() -> (c: BlendComponent)
        ensures
            c == BlendComponent::darkest_spec(),
    {
        BlendComponent { src_factor: BlendFactor::One, dst_factor: BlendFactor::One, operation: BlendOperation::Min }
    }

    /// The larger of source and destination.
    pub fn lightest() -> (c: BlendComponent)
        ensures
            c == BlendComponent::lightest_spec(),
    {
        BlendComponent { src_factor: BlendFactor::One, dst_factor: BlendFactor::One, operation: BlendOperation::Max }
    }
}

/// The state under which a primitive is rendered.
#[derive(Clone, Copy, Debug, PartialEq, Eq, Hash, Structural)]
pub struct ContextState {
    pub transform: Affine3,
    pub scissor: ScissorMode,
    pub blend: BlendState,
    pub topology: PrimitiveTopology,
}

impl ContextState {
    /// The state of a fresh tracker: identity transform, the whole viewport,
    /// normal colour blending with additive alpha, and a triangle list.
    pub open spec fn default_spec() -> ContextState {
        ContextState {
            transform: Affine3::identity_spec(),
            scissor: ScissorMode::Full,
            blend: BlendState { color: BlendComponent::normal_spec(), alpha: BlendComponent::add_spec() },
            topology: PrimitiveTopology::TriangleList,
        }
    }
}

impl Default for ContextState {
    fn default() -> (c: ContextState)
        ensures
            c == ContextState::default_spec(),
    {
        ContextState {
            transform: Affine3::identity(),
            scissor: ScissorMode::Full,
            blend: BlendState { color: BlendComponent::normal(), alpha: BlendComponent::add() },
            topology: PrimitiveTopology::TriangleList,
        }
    }
}

/// Holds the context that applies to the next primitive.
#[derive(Clone, Copy, Debug)]
pub struct ContextTracker {
    state: ContextState,
}

impl View for ContextTracker {
    type V = ContextState;

    closed spec fn view(&self) -> ContextState {
        self.state
    }
}

impl ContextTracker {
    /// A tracker in the default state.
    pub fn new() -> (t: ContextTracker)
        ensures
            t@ == ContextState::default_spec(),
    {
        ContextTracker { state: ContextState::default() }
    }

    /// Puts `state` in place of the whole current state.
    pub fn replace(&mut self, state: ContextState)
        ensures
            final(self)@ == state,
    {
        self.state = state;
    }

    /// The state under which the next primitive is rendered.
    pub fn current(&self) -> (c: ContextState)
        ensures
            c == self@,
    {
        self.state
    }
}

} // verus!
