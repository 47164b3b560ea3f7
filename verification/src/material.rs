//! The material of a draw: which shaders it names, and how it specializes
//! a pipeline descriptor by polygon mode and blend state.

use vstd::prelude::*;
use crate::context::BlendState;
use crate::pipeline::TextureFormat;

verus! {

/// How the faces of a triangle are rasterized.
#[derive(Clone, Copy, Debug, PartialEq, Eq, Hash, Structural)]
pub enum PolygonMode {
    Fill,
    Line,
    Point,
}

/// Where a shader comes from.
#[derive(Clone, Debug, PartialEq, Eq, Hash)]
pub enum ShaderRef {
    /// The shader that the pipeline has by default.
    Default,
    /// The shader at this asset path.
    Path(String),
}

/// One colour target of a fragment stage.
#[derive(Clone, Copy, Debug, PartialEq, Eq, Hash, Structural)]
pub struct ColorTargetState {
    pub format: TextureFormat,
    pub blend: Option<BlendState>,
}

/// The fragment stage of a pipeline.
#[derive(Debug)]
pub struct FragmentState {
    pub targets: Vec<Option<ColorTargetState>>,
}

/// What of a render pipeline a material may change.
#[derive(Debug)]
pub struct RenderPipelineDescriptor {
    pub fragment: Option<FragmentState>,
    pub polygon_mode: PolygonMode,
}

/// Why a pipeline cannot be specialized.
#[derive(Clone, Copy, Debug, PartialEq, Eq, Hash, Structural)]
pub enum SpecializedMeshPipelineError {
    /// The key has a blend state, and the descriptor no fragment stage to
    /// put it on.
    MissingFragmentState,
}

/// A material: the paths of its shaders, empty for the default ones, and
/// what it overrides of the pipeline.
#[derive(Clone, Debug, Default)]
pub struct NannouMaterial {
    pub vertex_shader: String,
    pub fragment_shader: String,
    pub polygon_mode: Option<PolygonMode>,
    pub blend: Option<BlendState>,
}

/// What of a material decides its pipeline.
#[derive(Clone, Copy, Debug, PartialEq, Eq, Hash, Structural)]
pub struct NannouMaterialKey {
    pub polygon_mode: Option<PolygonMode>,
    pub blend: Option<BlendState>,
}

/// The shader that the path `path` names: the default one for the empty
/// path.
pub open spec fn shader_for(path: Seq<char>) -> ShaderRefModel {
    if path.len() == 0 {
        ShaderRefModel::Default
    } else {
        ShaderRefModel::Path(path)
    }
}

/// A shader reference as a value.
pub enum ShaderRefModel {
    Default,
    Path(Seq<char>),
}

impl View for ShaderRef {
    type V = ShaderRefModel;

    open spec fn view(&self) -> ShaderRefModel {
        match self {
            ShaderRef::Default => ShaderRefModel::Default,
            ShaderRef::Path(p) => ShaderRefModel::Path(p@),
        }
    }
}

fn shader_ref(path: &String) -> (r: ShaderRef)
    ensures
        r@ == shader_for(path@),
{
    if !path.as_str().is_empty() {
        ShaderRef::Path(path.clone())
    } else {
        ShaderRef::Default
    }
}

impl NannouMaterial {
    /// The vertex shader of the material.
    pub fn vertex_shader(&self) -> (r: ShaderRef)
        ensures
            r@ == shader_for(self.vertex_shader@),
    {
        shader_ref(&self.vertex_shader)
    }

    /// The fragment shader of the material.
    pub fn fragment_shader(&self) -> (r: ShaderRef)
        ensures
            r@ == shader_for(self.fragment_shader@),
    {
        shader_ref(&self.fragment_shader)
    }
}

impl<'a> From<&'a NannouMaterial> for NannouMaterialKey {
    fn from(material: &'a NannouMaterial) -> (key: NannouMaterialKey) {
        NannouMaterialKey { polygon_mode: material.polygon_mode, blend: material.blend }
    }
}

impl<'a> vstd::std_specs::convert::FromSpecImpl<&'a NannouMaterial> for NannouMaterialKey {
    open spec fn obeys_from_spec() -> bool {
        true
    }

    open spec fn from_spec(material: &'a NannouMaterial) -> NannouMaterialKey {
        NannouMaterialKey { polygon_mode: material.polygon_mode, blend: material.blend }
    }
}

/// The targets with `blend` on each one that is there.
pub open spec fn blended(targets: Seq<Option<ColorTargetState>>, blend: BlendState) -> Seq<Option<ColorTargetState>> {
    Seq::new(
        targets.len(),
        |i: int|
            match targets[i] {
                Some(t) => Some(ColorTargetState { blend: Some(blend), ..t }),
                None => None,
            },
    )
}

impl NannouMaterialKey {
    /// Whether `descriptor` can be specialized for this key: a key with a
    /// blend state needs a descriptor with a fragment stage.
    pub open spec fn fits(self, descriptor: &RenderPipelineDescriptor) -> bool {
        self.blend is Some ==> descriptor.fragment is Some
    }

    /// Specializes `descriptor` for this key: a blend state of the key is
    /// put on every colour target that is there, and a polygon mode of the
    /// key takes the place of the descriptor's. What the key leaves open
    /// stays as it is. Where the key has a blend state and the descriptor no
    /// fragment stage, nothing changes and the error says so.
    pub fn specialize(&self, descriptor: &mut RenderPipelineDescriptor) -> (r: Result<
        (),
        SpecializedMeshPipelineError,
    >)
        ensures
            self.fits(old(descriptor)) ==> r == Ok::<(), SpecializedMeshPipelineError>(()),
            !self.fits(old(descriptor)) ==> r == Err::<(), SpecializedMeshPipelineError>(
                SpecializedMeshPipelineError::MissingFragmentState,
            ),
            !self.fits(old(descriptor)) ==> *final(descriptor) == *old(descriptor),
            self.fits(old(descriptor)) ==> final(descriptor).polygon_mode == (match self.polygon_mode {
                Some(m) => m,
                None => old(descriptor).polygon_mode,
            }),
            self.fits(old(descriptor)) && self.blend is None ==> final(descriptor).fragment
                == old(descriptor).fragment,
            self.blend is Some && old(descriptor).fragment is Some ==> final(descriptor).fragment is Some
                && final(descriptor).fragment->0.targets@ == blended(
                old(descriptor).fragment->0.targets@,
                self.blend->0,
            ),
    {
        if let Some(blend) = self.blend {
            let mut targets: Vec<Option<ColorTargetState>> = Vec::new();
            match &descriptor.fragment {
                Some(fragment) => {
                    let mut i: usize = 0;
                    while i < fragment.targets.len()
                        invariant
                            0 <= i <= fragment.targets@.len(),
                            targets@.len() == i,
                            forall|j: int| 0 <= j < i ==> targets@[j] == blended(fragment.targets@, blend)[j],
                        decreases fragment.targets@.len() - i,
                    {
                        let target = match fragment.targets[i] {
                            Some(t) => Some(ColorTargetState { format: t.format, blend: Some(blend) }),
                            None => None,
                        };
                        targets.push(target);
                        i += 1;
                    }
                    assert(targets@ =~= blended(fragment.targets@, blend));
                },
                None => {
                    return Err(SpecializedMeshPipelineError::MissingFragmentState);
                },
            }
            descriptor.fragment = Some(FragmentState { targets });
        }
        if let Some(polygon_mode) = self.polygon_mode {
            descriptor.polygon_mode = polygon_mode;
        }
        Ok(())
    }
}

} // verus!
