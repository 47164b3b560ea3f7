//! Pipeline keys and the registry that gives equal keys one identity.

use vstd::prelude::*;
use crate::context::{BlendState, ContextState, PrimitiveTopology};

verus! {

/// The texel format of a render target.
#[derive(Clone, Copy, Debug, PartialEq, Eq, Hash, Structural)]
pub enum TextureFormat {
    Rgba8Unorm,
    Rgba8UnormSrgb,
    Bgra8Unorm,
    Bgra8UnormSrgb,
    Rgba16Float,
    Depth16Unorm,
    Depth24Plus,
    Depth24PlusStencil8,
    Depth32Float,
}

/// What is fixed for a whole frame on one surface.
#[derive(Clone, Copy, Debug, PartialEq, Eq, Hash, Structural)]
pub struct FrameTarget {
    pub color_format: TextureFormat,
    pub sample_count: u32,
    pub depth_format: TextureFormat,
}

/// Everything that decides which compiled pipeline a draw needs.
#[derive(Clone, Copy, Debug, PartialEq, Eq, Hash, Structural)]
pub struct PipelineKey {
    pub color_format: TextureFormat,
    pub sample_count: u32,
    pub depth_format: TextureFormat,
    pub topology: PrimitiveTopology,
    pub blend_state: BlendState,
}

/// The identity of a pipeline in a `PipelineRegistry`.
#[derive(Clone, Copy, Debug, PartialEq, Eq, Hash, Structural)]
pub struct PipelineId(pub usize);

impl FrameTarget {
    /// The target of a view: a 16-bit float colour format where the view
    /// is high dynamic range, 8-bit sRGB where it is not.
    pub open spec fn for_view_spec(hdr: bool, sample_count: u32, depth_format: TextureFormat) -> FrameTarget {
        FrameTarget {
            color_format: if hdr {
                TextureFormat::Rgba16Float
            } else {
                TextureFormat::Rgba8UnormSrgb
            },
            sample_count,
            depth_format,
        }
    }

    pub fn for_view(hdr: bool, sample_count: u32, depth_format: TextureFormat) -> (t: FrameTarget)
        ensures
            t == FrameTarget::for_view_spec(hdr, sample_count, depth_format),
    {
        FrameTarget {
            color_format: if hdr {
                TextureFormat::Rgba16Float
            } else {
                TextureFormat::Rgba8UnormSrgb
            },
            sample_count,
            depth_format,
        }
    }
}

impl PipelineKey {
    /// The key of a draw under `context` into `target`.
    pub open spec fn for_context_spec(target: FrameTarget, context: ContextState) -> PipelineKey {
        PipelineKey {
            color_format: target.color_format,
            sample_count: target.sample_count,
            depth_format: target.depth_format,
            topology: context.topology,
            blend_state: context.blend,
        }
    }

    pub fn for_context(target: &FrameTarget, context: &ContextState) -> (k: PipelineKey)
        ensures
            k == PipelineKey::for_context_spec(*target, *context),
    {
        PipelineKey {
            color_format: target.color_format,
            sample_count: target.sample_count,
            depth_format: target.depth_format,
            topology: context.topology,
            blend_state: context.blend,
        }
    }
}

/// The position of the first `key` in `keys`, or the length of `keys` where
/// there is none.
pub open spec fn first_index_of(keys: Seq<PipelineKey>, key: PipelineKey) -> nat
    decreases keys.len(),
{
    if keys.len() == 0 {
        0
    } else if keys[0] == key {
        0
    } else {
        1 + first_index_of(keys.drop_first(), key)
    }
}

/// The keys after `key` was asked for: unchanged where they hold it, else
/// with `key` at the end.
pub open spec fn keys_with(keys: Seq<PipelineKey>, key: PipelineKey) -> Seq<PipelineKey> {
    if keys.contains(key) { keys } else { keys.push(key) }
}

pub proof fn lemma_first_index_of(keys: Seq<PipelineKey>, key: PipelineKey)
    ensures
        first_index_of(keys, key) <= keys.len(),
        first_index_of(keys, key) < keys.len() <==> keys.contains(key),
        keys.contains(key) ==> keys[first_index_of(keys, key) as int] == key,
        forall|i: int| 0 <= i < first_index_of(keys, key) ==> keys[i] != key,
    decreases keys.len(),
{
    if keys.len() == 0 {
    } else if keys[0] == key {
    } else {
        let rest = keys.drop_first();
        lemma_first_index_of(rest, key);
        if rest.contains(key) {
            let j = choose|j: int| 0 <= j < rest.len() && rest[j] == key;
            assert(keys[j + 1] == key);
        }
        if keys.contains(key) {
            let j = choose|j: int| 0 <= j < keys.len() && keys[j] == key;
            assert(rest[j - 1] == key);
        }
        assert forall|i: int| 0 <= i < first_index_of(keys, key) implies keys[i] != key by {
            if i > 0 {
                assert(keys[i] == rest[i - 1]);
            }
        }
    }
}

/// The keys seen so far, each once, in the order in which they first came.
/// A key's position is its pipeline's identity.
#[derive(Debug)]
pub struct PipelineRegistry {
    keys: Vec<PipelineKey>,
}

impl View for PipelineRegistry {
    type V = Seq<PipelineKey>;

    closed spec fn view(&self) -> Seq<PipelineKey> {
        self.keys@
    }
}

impl PipelineRegistry {
    /// No key occurs twice.
    pub open spec fn wf(&self) -> bool {
        self@.no_duplicates()
    }

    pub fn new() -> (r: PipelineRegistry)
        ensures
            r@ == Seq::<PipelineKey>::empty(),
            r.wf(),
    {
        PipelineRegistry { keys: Vec::new() }
    }

    /// The number of distinct keys seen.
    pub fn len(&self) -> (n: usize)
        ensures
            n == self@.len(),
    {
        self.keys.len()
    }

    /// The key of the pipeline `id`, if the registry gave that identity out.
    pub fn key(&self, id: PipelineId) -> (k: Option<PipelineKey>)
        ensures
            k == (if id.0 < self@.len() { Some(self@[id.0 as int]) } else { None }),
    {
        if id.0 < self.keys.len() {
            Some(self.keys[id.0])
        } else {
            None
        }
    }

    /// The identity of the pipeline for `key`: the one given out before for an
    /// equal key, else a new one.
    pub fn specialize(&mut self, key: PipelineKey) -> (id: PipelineId)
        requires
            old(self).wf(),
        ensures
            final(self).wf(),
            final(self)@ == keys_with(old(self)@, key),
            id.0 == first_index_of(old(self)@, key),
            id.0 < final(self)@.len(),
            final(self)@[id.0 as int] == key,
    {
        proof {
            lemma_first_index_of(self@, key);
        }
        let n = self.keys.len();
        let mut i: usize = 0;
        while i < n
            invariant
                n == self.keys.len(),
                self.keys@ == old(self)@,
                self.wf(),
                0 <= i <= n,
                forall|j: int| 0 <= j < i ==> self.keys@[j] != key,
                i <= first_index_of(old(self)@, key),
            decreases n - i,
        {
            if self.keys[i] == key {
                proof {
                    lemma_first_index_of(old(self)@, key);
                    assert(old(self)@.contains(key));
                }
                return PipelineId(i);
            }
            i += 1;
            proof {
                lemma_first_index_of(old(self)@, key);
            }
        }
        proof {
            lemma_first_index_of(old(self)@, key);
            assert(!old(self)@.contains(key));
        }
        self.keys.push(key);
        PipelineId(n)
    }
}

/// Two keys get the same identity exactly when they are equal: asking for
/// `a` and then for `b` gives one identity if `a == b`, and two if not.
pub proof fn lemma_equal_keys_share_identity(keys: Seq<PipelineKey>, a: PipelineKey, b: PipelineKey)
    requires
        keys.no_duplicates(),
    ensures
        (first_index_of(keys, a) == first_index_of(keys_with(keys, a), b)) <==> a == b,
{
    lemma_first_index_of(keys, a);
    lemma_first_index_of(keys_with(keys, a), b);
    let after = keys_with(keys, a);
    let ia = first_index_of(keys, a) as int;
    assert(after[ia] == a);
    if a == b {
        lemma_first_index_of(after, a);
        assert(after.contains(a));
        let ib = first_index_of(after, b) as int;
        if ib != ia {
            assert(after.no_duplicates()) by {
                lemma_keys_with_no_duplicates(keys, a);
            }
        }
    }
}

/// Asking for a key keeps the registry free of duplicates and keeps every
/// identity that was given out before.
pub proof fn lemma_keys_with_no_duplicates(keys: Seq<PipelineKey>, key: PipelineKey)
    requires
        keys.no_duplicates(),
    ensures
        keys_with(keys, key).no_duplicates(),
        keys.len() <= keys_with(keys, key).len(),
        forall|i: int| 0 <= i < keys.len() ==> keys_with(keys, key)[i] == keys[i],
{
}

} // verus!
