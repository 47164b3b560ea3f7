use bevy_nannou_render::context::{BlendComponent, BlendState};
use bevy_nannou_render::material::{
    ColorTargetState, FragmentState, NannouMaterial, NannouMaterialKey, PolygonMode, RenderPipelineDescriptor,
    ShaderRef, SpecializedMeshPipelineError,
};
use bevy_nannou_render::pipeline::TextureFormat;

fn additive() -> BlendState {
    BlendState { color: BlendComponent::add(), alpha: BlendComponent::add() }
}

fn target(blend: Option<BlendState>) -> Option<ColorTargetState> {
    Some(ColorTargetState { format: TextureFormat::Rgba8UnormSrgb, blend })
}

#[test]
fn empty_shader_path_means_the_default_shader() {
    let m = NannouMaterial::default();
    assert_eq!(m.vertex_shader(), ShaderRef::Default);
    assert_eq!(m.fragment_shader(), ShaderRef::Default);
    let m = NannouMaterial { fragment_shader: String::from("shaders/wave.wgsl"), ..NannouMaterial::default() };
    assert_eq!(m.vertex_shader(), ShaderRef::Default);
    assert_eq!(m.fragment_shader(), ShaderRef::Path(String::from("shaders/wave.wgsl")));
    let m = NannouMaterial { vertex_shader: String::from("v.wgsl"), ..NannouMaterial::default() };
    assert_eq!(m.vertex_shader(), ShaderRef::Path(String::from("v.wgsl")));
}

#[test]
fn key_takes_polygon_mode_and_blend() {
    let m = NannouMaterial {
        polygon_mode: Some(PolygonMode::Line),
        blend: Some(additive()),
        ..NannouMaterial::default()
    };
    let key = NannouMaterialKey::from(&m);
    assert_eq!(key, NannouMaterialKey { polygon_mode: Some(PolygonMode::Line), blend: Some(additive()) });
    let key = NannouMaterialKey::from(&NannouMaterial::default());
    assert_eq!(key, NannouMaterialKey { polygon_mode: None, blend: None });
}

#[test]
fn specialize_puts_the_blend_on_every_target_that_is_there() {
    let normal = BlendState { color: BlendComponent::normal(), alpha: BlendComponent::normal() };
    let mut d = RenderPipelineDescriptor {
        fragment: Some(FragmentState { targets: vec![target(None), None, target(Some(normal))] }),
        polygon_mode: PolygonMode::Fill,
    };
    let key = NannouMaterialKey { polygon_mode: Some(PolygonMode::Point), blend: Some(additive()) };
    assert_eq!(key.specialize(&mut d), Ok(()));
    assert_eq!(d.polygon_mode, PolygonMode::Point);
    assert_eq!(
        d.fragment.unwrap().targets,
        vec![target(Some(additive())), None, target(Some(additive()))]
    );
}

#[test]
fn specialize_leaves_alone_what_the_key_leaves_open() {
    let normal = BlendState { color: BlendComponent::normal(), alpha: BlendComponent::normal() };
    let mut d = RenderPipelineDescriptor {
        fragment: Some(FragmentState { targets: vec![target(Some(normal)), None] }),
        polygon_mode: PolygonMode::Line,
    };
    let key = NannouMaterialKey { polygon_mode: None, blend: None };
    assert_eq!(key.specialize(&mut d), Ok(()));
    assert_eq!(d.polygon_mode, PolygonMode::Line);
    assert_eq!(d.fragment.unwrap().targets, vec![target(Some(normal)), None]);
    let mut d = RenderPipelineDescriptor { fragment: None, polygon_mode: PolygonMode::Line };
    let key = NannouMaterialKey { polygon_mode: Some(PolygonMode::Fill), blend: None };
    assert_eq!(key.specialize(&mut d), Ok(()));
    assert_eq!(d.polygon_mode, PolygonMode::Fill);
    assert!(d.fragment.is_none());
}

#[test]
fn blend_without_a_fragment_stage_is_an_error() {
    let mut d = RenderPipelineDescriptor { fragment: None, polygon_mode: PolygonMode::Line };
    let key = NannouMaterialKey { polygon_mode: Some(PolygonMode::Fill), blend: Some(additive()) };
    assert_eq!(key.specialize(&mut d), Err(SpecializedMeshPipelineError::MissingFragmentState));
    assert_eq!(d.polygon_mode, PolygonMode::Line);
    assert!(d.fragment.is_none());
}
