use bevy_nannou_render::batcher::{BatchError, Batched, Batcher};
use bevy_nannou_render::command::{DrawState, RenderCommand, TextureId};
use bevy_nannou_render::context::{
    BlendComponent, BlendFactor, BlendOperation, BlendState, ContextState, ContextTracker, PrimitiveTopology,
};
use bevy_nannou_render::geometry::{Scissor, ScissorMode};
use bevy_nannou_render::pipeline::{FrameTarget, PipelineId, PipelineKey, PipelineRegistry, TextureFormat};
use bevy_nannou_render::transform::Affine3;

fn state(pipeline: usize, texture: u64, width: u32) -> DrawState {
    DrawState {
        pipeline: PipelineId(pipeline),
        texture: TextureId(texture),
        scissor: Scissor { left: 0, bottom: 0, width, height: width },
    }
}

fn draw(start: u32, end: u32) -> RenderCommand {
    RenderCommand::DrawIndexed { start_vertex: 0, index_range: start..end }
}

fn draws(commands: &[RenderCommand]) -> Vec<(u32, u32)> {
    let mut out = Vec::new();
    for c in commands {
        if let RenderCommand::DrawIndexed { index_range, .. } = c {
            out.push((index_range.start, index_range.end));
        }
    }
    out
}

#[test]
fn empty_frame_has_no_commands() {
    let commands = Batcher::new().finish();
    assert_eq!(commands.0, Vec::<RenderCommand>::new());
}

#[test]
fn first_primitive_sets_pipeline_bind_group_and_scissor_in_order() {
    let mut b = Batcher::new();
    assert_eq!(b.primitive(state(2, 9, 10), 4, 6), Ok(Batched::Drawn));
    let commands = b.finish();
    assert_eq!(
        commands.0,
        vec![
            RenderCommand::SetPipeline(PipelineId(2)),
            RenderCommand::SetBindGroup(TextureId(9)),
            RenderCommand::SetScissor(Scissor { left: 0, bottom: 0, width: 10, height: 10 }),
            draw(0, 6),
        ]
    );
}

#[test]
fn primitives_that_share_state_collapse_into_one_draw() {
    let mut b = Batcher::new();
    for n in 1..=5u32 {
        assert_eq!(b.primitive(state(0, 0, 10), 4 * n, 6 * n), Ok(Batched::Drawn));
    }
    let commands = b.finish();
    assert_eq!(draws(&commands.0), vec![(0, 30)]);
    assert_eq!(commands.0.len(), 4);
}

#[test]
fn one_scissor_change_splits_into_two_draws() {
    for k in 1..5u32 {
        let mut b = Batcher::new();
        for n in 1..=5u32 {
            let s = if n <= k { state(0, 0, 10) } else { state(0, 0, 5) };
            assert_eq!(b.primitive(s, 4 * n, 6 * n), Ok(Batched::Drawn));
        }
        let commands = b.finish();
        assert_eq!(draws(&commands.0), vec![(0, 6 * k), (6 * k, 30)]);
    }
}

#[test]
fn scissor_change_emits_bind_group_then_scissor() {
    let mut b = Batcher::new();
    b.primitive(state(0, 0, 10), 4, 6).unwrap();
    b.primitive(state(0, 0, 5), 8, 12).unwrap();
    let commands = b.finish();
    assert_eq!(
        commands.0,
        vec![
            RenderCommand::SetPipeline(PipelineId(0)),
            RenderCommand::SetBindGroup(TextureId(0)),
            RenderCommand::SetScissor(Scissor { left: 0, bottom: 0, width: 10, height: 10 }),
            draw(0, 6),
            RenderCommand::SetBindGroup(TextureId(0)),
            RenderCommand::SetScissor(Scissor { left: 0, bottom: 0, width: 5, height: 5 }),
            draw(6, 12),
        ]
    );
}

#[test]
fn pipeline_change_emits_pipeline_then_bind_group() {
    let mut b = Batcher::new();
    b.primitive(state(0, 0, 10), 4, 6).unwrap();
    b.primitive(state(1, 0, 10), 8, 12).unwrap();
    let commands = b.finish();
    assert_eq!(
        commands.0[3..].to_vec(),
        vec![
            draw(0, 6),
            RenderCommand::SetPipeline(PipelineId(1)),
            RenderCommand::SetBindGroup(TextureId(0)),
            draw(6, 12),
        ]
    );
}

#[test]
fn texture_change_emits_bind_group_alone() {
    let mut b = Batcher::new();
    b.primitive(state(0, 0, 10), 4, 6).unwrap();
    b.primitive(state(0, 7, 10), 8, 12).unwrap();
    let commands = b.finish();
    assert_eq!(
        commands.0[3..].to_vec(),
        vec![draw(0, 6), RenderCommand::SetBindGroup(TextureId(7)), draw(6, 12)]
    );
}

#[test]
fn all_three_change_in_fixed_order() {
    let mut b = Batcher::new();
    b.primitive(state(0, 0, 10), 4, 6).unwrap();
    b.primitive(state(1, 1, 11), 8, 12).unwrap();
    let commands = b.finish();
    assert_eq!(
        commands.0[3..].to_vec(),
        vec![
            draw(0, 6),
            RenderCommand::SetPipeline(PipelineId(1)),
            RenderCommand::SetBindGroup(TextureId(1)),
            RenderCommand::SetScissor(Scissor { left: 0, bottom: 0, width: 11, height: 11 }),
            draw(6, 12),
        ]
    );
}

#[test]
fn degenerate_primitive_changes_nothing() {
    let mut b = Batcher::new();
    assert_eq!(b.primitive(state(0, 0, 10), 0, 0), Ok(Batched::Degenerate));
    b.primitive(state(0, 0, 10), 4, 6).unwrap();
    assert_eq!(b.primitive(state(3, 3, 3), 4, 6), Ok(Batched::Degenerate));
    b.primitive(state(0, 0, 10), 8, 12).unwrap();
    let commands = b.finish();
    assert_eq!(draws(&commands.0), vec![(0, 12)]);
    assert_eq!(commands.0.len(), 4);
}

#[test]
fn vertices_without_indices_are_inconsistent() {
    let mut b = Batcher::new();
    assert_eq!(b.primitive(state(0, 0, 10), 3, 0), Err(BatchError::InconsistentMeshState));
    b.primitive(state(0, 0, 10), 4, 6).unwrap();
    assert_eq!(b.primitive(state(0, 0, 10), 5, 6), Err(BatchError::InconsistentMeshState));
    assert_eq!(b.primitive(state(0, 0, 10), 4, 5), Err(BatchError::InconsistentMeshState));
    assert_eq!(b.primitive(state(0, 0, 10), 3, 9), Err(BatchError::InconsistentMeshState));
    let commands = b.finish();
    assert_eq!(draws(&commands.0), vec![(0, 6)]);
}

#[test]
fn indices_may_grow_on_reused_vertices() {
    let mut b = Batcher::new();
    b.primitive(state(0, 0, 10), 4, 6).unwrap();
    assert_eq!(b.primitive(state(0, 0, 10), 4, 9), Ok(Batched::Drawn));
    assert_eq!(draws(&b.finish().0), vec![(0, 9)]);
}

#[test]
fn return_to_an_earlier_state_is_a_new_draw() {
    let mut b = Batcher::new();
    b.primitive(state(0, 0, 10), 4, 6).unwrap();
    b.primitive(state(0, 0, 5), 8, 12).unwrap();
    b.primitive(state(0, 0, 10), 12, 18).unwrap();
    assert_eq!(draws(&b.finish().0), vec![(0, 6), (6, 12), (12, 18)]);
}

#[test]
fn tracker_starts_in_the_default_state() {
    let t = ContextTracker::new();
    let c = t.current();
    assert_eq!(c, ContextState::default());
    assert_eq!(c.transform, Affine3::identity());
    assert_eq!(c.scissor, ScissorMode::Full);
    assert_eq!(c.topology, PrimitiveTopology::TriangleList);
    assert_eq!(c.blend.color, BlendComponent::normal());
    assert_eq!(c.blend.alpha, BlendComponent::add());
}

#[test]
fn tracker_replaces_and_never_merges() {
    let mut t = ContextTracker::new();
    let first = ContextState {
        transform: Affine3::identity(),
        scissor: ScissorMode::NoOverlap,
        blend: BlendState { color: BlendComponent::darkest(), alpha: BlendComponent::lightest() },
        topology: PrimitiveTopology::LineList,
    };
    let second = ContextState { scissor: ScissorMode::Full, ..ContextState::default() };
    t.replace(first);
    assert_eq!(t.current(), first);
    t.replace(second);
    assert_eq!(t.current(), second);
    assert_eq!(t.current().topology, PrimitiveTopology::TriangleList);
}

#[test]
fn blend_components_have_their_factors() {
    assert_eq!(
        BlendComponent::normal(),
        BlendComponent {
            src_factor: BlendFactor::SrcAlpha,
            dst_factor: BlendFactor::OneMinusSrcAlpha,
            operation: BlendOperation::Add
        }
    );
    assert_eq!(BlendComponent::add().operation, BlendOperation::Add);
    assert_eq!(BlendComponent::add().src_factor, BlendFactor::Src);
    assert_eq!(BlendComponent::subtract().operation, BlendOperation::Subtract);
    assert_eq!(BlendComponent::reverse_subtract().operation, BlendOperation::ReverseSubtract);
    assert_eq!(BlendComponent::darkest().operation, BlendOperation::Min);
    assert_eq!(BlendComponent::lightest().operation, BlendOperation::Max);
    assert_eq!(BlendComponent::lightest().dst_factor, BlendFactor::One);
}

fn target() -> FrameTarget {
    FrameTarget {
        color_format: TextureFormat::Bgra8UnormSrgb,
        sample_count: 4,
        depth_format: TextureFormat::Depth32Float,
    }
}

#[test]
fn equal_keys_resolve_to_one_pipeline() {
    let mut r = PipelineRegistry::new();
    let a = PipelineKey::for_context(&target(), &ContextState::default());
    let lines = ContextState { topology: PrimitiveTopology::LineList, ..ContextState::default() };
    let b = PipelineKey::for_context(&target(), &lines);
    assert_eq!(a.sample_count, 4);
    assert_eq!(a.topology, PrimitiveTopology::TriangleList);
    assert_eq!(b.topology, PrimitiveTopology::LineList);
    assert_eq!(r.specialize(a), PipelineId(0));
    assert_eq!(r.specialize(b), PipelineId(1));
    assert_eq!(r.specialize(a), PipelineId(0));
    assert_eq!(r.specialize(b), PipelineId(1));
    assert_eq!(r.len(), 2);
    assert_eq!(r.key(PipelineId(1)), Some(b));
    assert_eq!(r.key(PipelineId(2)), None);
}

#[test]
fn every_field_of_the_key_counts() {
    let mut r = PipelineRegistry::new();
    let base = PipelineKey::for_context(&target(), &ContextState::default());
    let keys = [
        base,
        PipelineKey { color_format: TextureFormat::Rgba16Float, ..base },
        PipelineKey { sample_count: 1, ..base },
        PipelineKey { depth_format: TextureFormat::Depth24Plus, ..base },
        PipelineKey { topology: PrimitiveTopology::TriangleStrip, ..base },
        PipelineKey {
            blend_state: BlendState { color: BlendComponent::add(), alpha: BlendComponent::add() },
            ..base
        },
    ];
    for (i, k) in keys.iter().enumerate() {
        assert_eq!(r.specialize(*k), PipelineId(i));
    }
    for (i, k) in keys.iter().enumerate() {
        assert_eq!(r.specialize(*k), PipelineId(i));
    }
}

#[test]
fn view_target_follows_the_dynamic_range() {
    let sdr = FrameTarget::for_view(false, 4, TextureFormat::Depth32Float);
    assert_eq!(
        sdr,
        FrameTarget {
            color_format: TextureFormat::Rgba8UnormSrgb,
            sample_count: 4,
            depth_format: TextureFormat::Depth32Float
        }
    );
    let hdr = FrameTarget::for_view(true, 1, TextureFormat::Depth24Plus);
    assert_eq!(hdr.color_format, TextureFormat::Rgba16Float);
    assert_eq!(hdr.sample_count, 1);
    assert_eq!(hdr.depth_format, TextureFormat::Depth24Plus);
}
