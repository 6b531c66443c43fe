//! Pipeline specialization: build the render-pipeline configuration for a
//! per-view key and memoize the result, so that equal keys always name the
//! identical cached pipeline and nothing is ever compiled twice.

use vstd::prelude::*;

verus! {

/// The per-view parameters that select one compiled pipeline variant:
/// the MSAA sample count and whether the view renders to an HDR target.
/// Equal keys are always treated as identical.
#[derive(Clone, Copy, Debug, PartialEq, Eq, Structural)]
pub struct PipelineKey {
    pub msaa_samples: u32,
    pub hdr: bool,
}

/// Color target format, chosen from the key's HDR flag.
#[derive(Clone, Copy, Debug, PartialEq, Eq, Structural)]
pub enum ColorFormat {
    HighDynamicRange,
    StandardDisplay,
}

/// How a vertex buffer slot advances: once per vertex or once per instance.
#[derive(Clone, Copy, Debug, PartialEq, Eq, Structural)]
pub enum StepMode {
    PerVertex,
    PerInstance,
}

/// Format of one vertex attribute.
#[derive(Clone, Copy, Debug, PartialEq, Eq, Structural)]
pub enum AttributeFormat {
    Float32x2,
    Float32x4,
}

/// Depth comparison function of the pipeline's depth test.
#[derive(Clone, Copy, Debug, PartialEq, Eq, Structural)]
pub enum DepthCompare {
    Less,
    Greater,
    GreaterEqual,
    Always,
}

/// One vertex attribute within a vertex buffer layout.
#[derive(Clone, Copy, Debug, PartialEq, Eq, Structural)]
pub struct VertexAttribute {
    pub shader_location: u32,
    pub format: AttributeFormat,
    pub offset: u64,
}

/// The layout of one vertex buffer slot.
#[derive(Clone, Debug, PartialEq, Eq)]
pub struct VertexBufferLayout {
    pub step_mode: StepMode,
    pub array_stride: u64,
    pub attributes: Vec<VertexAttribute>,
}

/// The configuration of one specialized render pipeline, as far as the
/// rendering core decides it. Compiling this configuration into a device
/// pipeline is the graphics backend's job.
#[derive(Clone, Debug, PartialEq, Eq)]
pub struct PipelineDescriptor {
    pub vertex_layouts: Vec<VertexBufferLayout>,
    pub color_format: ColorFormat,
    pub alpha_blend: bool,
    pub depth_compare: DepthCompare,
    pub depth_write_enabled: bool,
    pub msaa_count: u32,
}

/// What the descriptor of a pipeline specialized for `key` holds. The vertex
/// layout is fixed across all keys: slot 0 is per-vertex position (2 floats),
/// slot 1 is per-instance interleaved color + offset (4 + 2 floats), slot 2 is
/// per-instance scale (2 floats). Only the color format (from the HDR flag)
/// and the sample count vary with the key.
pub open spec fn descriptor_matches(d: PipelineDescriptor, key: PipelineKey) -> bool {
    &&& d.vertex_layouts@.len() == 3
    &&& d.vertex_layouts@[0].step_mode == StepMode::PerVertex
    &&& d.vertex_layouts@[0].array_stride == 8
    &&& d.vertex_layouts@[0].attributes@ =~= seq![
            (VertexAttribute { shader_location: 0, format: AttributeFormat::Float32x2, offset: 0 }),
        ]
    &&& d.vertex_layouts@[1].step_mode == StepMode::PerInstance
    &&& d.vertex_layouts@[1].array_stride == 24
    &&& d.vertex_layouts@[1].attributes@ =~= seq![
            (VertexAttribute { shader_location: 1, format: AttributeFormat::Float32x4, offset: 0 }),
            (VertexAttribute { shader_location: 2, format: AttributeFormat::Float32x2, offset: 16 }),
        ]
    &&& d.vertex_layouts@[2].step_mode == StepMode::PerInstance
    &&& d.vertex_layouts@[2].array_stride == 8
    &&& d.vertex_layouts@[2].attributes@ =~= seq![
            (VertexAttribute { shader_location: 3, format: AttributeFormat::Float32x2, offset: 0 }),
        ]
    &&& d.color_format == (if key.hdr { ColorFormat::HighDynamicRange } else { ColorFormat::StandardDisplay })
    &&& d.alpha_blend
    &&& d.depth_compare == DepthCompare::GreaterEqual
    &&& !d.depth_write_enabled
    &&& d.msaa_count == key.msaa_samples
}

/// Build the pipeline configuration for `key`: the fixed three-slot vertex
/// layout, greater-or-equal depth test with writes disabled, alpha blending,
/// and a color format and sample count taken from the key.
pub fn build_descriptor(key: PipelineKey) -> (d: PipelineDescriptor)
    ensures
        descriptor_matches(d, key),
{
    let mut position_attrs: Vec<VertexAttribute> = Vec::new();
    position_attrs.push(VertexAttribute {
        shader_location: 0,
        format: AttributeFormat::Float32x2,
        offset: 0,
    });

    let mut static_attrs: Vec<VertexAttribute> = Vec::new();
    static_attrs.push(VertexAttribute {
        shader_location: 1,
        format: AttributeFormat::Float32x4,
        offset: 0,
    });
    static_attrs.push(VertexAttribute {
        shader_location: 2,
        format: AttributeFormat::Float32x2,
        offset: 16,
    });

    let mut scale_attrs: Vec<VertexAttribute> = Vec::new();
    scale_attrs.push(VertexAttribute {
        shader_location: 3,
        format: AttributeFormat::Float32x2,
        offset: 0,
    });

    let mut layouts: Vec<VertexBufferLayout> = Vec::new();
    layouts.push(VertexBufferLayout {
        step_mode: StepMode::PerVertex,
        array_stride: 8,
        attributes: position_attrs,
    });
    layouts.push(VertexBufferLayout {
        step_mode: StepMode::PerInstance,
        array_stride: 24,
        attributes: static_attrs,
    });
    layouts.push(VertexBufferLayout {
        step_mode: StepMode::PerInstance,
        array_stride: 8,
        attributes: scale_attrs,
    });

    let color_format = if key.hdr {
        ColorFormat::HighDynamicRange
    } else {
        ColorFormat::StandardDisplay
    };

    PipelineDescriptor {
        vertex_layouts: layouts,
        color_format,
        alpha_blend: true,
        depth_compare: DepthCompare::GreaterEqual,
        depth_write_enabled: false,
        msaa_count: key.msaa_samples,
    }
}

/// Whether `keys` holds `k` somewhere.
pub open spec fn contains_key(keys: Seq<PipelineKey>, k: PipelineKey) -> bool {
    exists|i: int| 0 <= i < keys.len() && keys[i] == k
}

/// The handle under which `k` is cached: the index of its first occurrence.
pub open spec fn cache_handle(keys: Seq<PipelineKey>, k: PipelineKey) -> int
    decreases keys.len(),
{
    if keys.len() == 0 {
        0
    } else if keys[0] == k {
        0
    } else {
        1 + cache_handle(keys.skip(1), k)
    }
}

/// The key sequence after one specialization request for `k`: unchanged when
/// `k` is already cached, extended by `k` otherwise. The cache is append-only.
pub open spec fn specialize_keys(keys: Seq<PipelineKey>, k: PipelineKey) -> Seq<PipelineKey> {
    if contains_key(keys, k) {
        keys
    } else {
        keys.push(k)
    }
}

/// When `k` occurs in `keys`, its cache handle is the index of the first
/// occurrence.
pub proof fn lemma_cache_handle_is_first(keys: Seq<PipelineKey>, k: PipelineKey)
    requires
        contains_key(keys, k),
    ensures
        0 <= cache_handle(keys, k) < keys.len(),
        keys[cache_handle(keys, k)] == k,
        forall|j: int| 0 <= j < cache_handle(keys, k) ==> keys[j] != k,
    decreases keys.len(),
{
    if keys.len() > 0 && keys[0] != k {
        let tail = keys.skip(1);
        assert(contains_key(tail, k)) by {
            let i = choose|i: int| 0 <= i < keys.len() && keys[i] == k;
            assert(tail[i - 1] == keys[i]);
        }
        lemma_cache_handle_is_first(tail, k);
        assert forall|j: int| 0 <= j < cache_handle(keys, k) implies keys[j] != k by {
            if j > 0 {
                assert(tail[j - 1] == keys[j]);
            }
        }
    }
}

/// `k` is cached in `keys`, and `cache_handle` names its slot: a
/// quantifier-free form of `contains_key`.
pub open spec fn handle_valid(keys: Seq<PipelineKey>, k: PipelineKey) -> bool {
    &&& 0 <= cache_handle(keys, k) < keys.len()
    &&& keys[cache_handle(keys, k)] == k
}

/// A key's handle does not move when the cache grows: appending keys leaves
/// the first occurrence of an already cached key where it was.
pub proof fn lemma_cache_handle_stable(keys: Seq<PipelineKey>, grown: Seq<PipelineKey>, k: PipelineKey)
    requires
        handle_valid(keys, k),
        keys.len() <= grown.len(),
        keys =~= grown.take(keys.len() as int),
    ensures
        cache_handle(grown, k) == cache_handle(keys, k),
        handle_valid(grown, k),
    decreases keys.len(),
{
    let i = cache_handle(keys, k);
    assert(grown[i] == keys[i]);
    if keys[0] == k {
        assert(grown[0] == k);
    } else {
        let tail = keys.skip(1);
        let gtail = grown.skip(1);
        assert(handle_valid(tail, k)) by {
            assert(tail[i - 1] == keys[i]);
        }
        assert(tail =~= gtail.take(tail.len() as int));
        lemma_cache_handle_stable(tail, gtail, k);
        assert(grown[0] == keys[0]);
    }
}

/// The cache: compiled pipeline configurations memoized by their key, in the
/// order the keys were first requested. Entries are created lazily, never
/// invalidated, never evicted; keys are distinct; each entry matches its key.
pub struct PipelineSpecializationCache {
    pub keys: Vec<PipelineKey>,
    pub pipelines: Vec<PipelineDescriptor>,
}

impl PipelineSpecializationCache {
    /// Cache well-formedness: one pipeline per key, no key twice, every
    /// pipeline configured exactly for its key.
    pub open spec fn wf(self) -> bool {
        &&& self.keys@.len() == self.pipelines@.len()
        &&& forall|i: int, j: int| 0 <= i < j < self.keys@.len() ==> self.keys@[i] != self.keys@[j]
        &&& forall|i: int| 0 <= i < self.keys@.len()
                ==> descriptor_matches(#[trigger] self.pipelines@[i], self.keys@[i])
    }

    /// An empty cache.
    pub fn new() -> (c: Self)
        ensures
            c.wf(),
            c.keys@.len() == 0,
    {
        PipelineSpecializationCache { keys: Vec::new(), pipelines: Vec::new() }
    }

    /// Number of cached pipelines.
    pub fn len(&self) -> (n: usize)
        ensures
            n == self.keys@.len(),
    {
        self.keys.len()
    }

    /// The handle already cached for `key`, if any.
    fn find(&self, key: PipelineKey) -> (r: Option<usize>)
        ensures
            r matches Some(i) ==> i < self.keys@.len() && self.keys@[i as int] == key,
            r is None ==> !contains_key(self.keys@, key),
    {
        let n = self.keys.len();
        let mut i: usize = 0;
        while i < n
            invariant
                n == self.keys@.len(),
                i <= n,
                forall|j: int| 0 <= j < i ==> self.keys@[j] != key,
            decreases n - i,
        {
            if self.keys[i] == key {
                return Some(i);
            }
            i = i + 1;
        }
        None
    }

    /// Return the handle of the pipeline specialized for `key`, compiling and
    /// caching it on the first request for that key. Deterministic: equal keys
    /// always yield the identical cached handle, and a key already cached
    /// changes nothing.
    pub fn specialize(&mut self, key: PipelineKey) -> (h: usize)
        requires
            old(self).wf(),
        ensures
            final(self).wf(),
            final(self).keys@ == specialize_keys(old(self).keys@, key),
            h == cache_handle(final(self).keys@, key),
            h < final(self).keys@.len(),
            final(self).keys@[h as int] == key,
            handle_valid(final(self).keys@, key),
            descriptor_matches(final(self).pipelines@[h as int], key),
            contains_key(old(self).keys@, key)
                ==> final(self).keys@ == old(self).keys@ && final(self).pipelines@ == old(self).pipelines@,
            forall|i: int| 0 <= i < old(self).pipelines@.len()
                ==> final(self).pipelines@[i] == old(self).pipelines@[i],
            old(self).keys@ =~= final(self).keys@.take(old(self).keys@.len() as int),
    {
        match self.find(key) {
            Some(i) => {
                proof {
                    lemma_cache_handle_is_first(self.keys@, key);
                    assert forall|j: int| 0 <= j < i implies self.keys@[j] != key by {}
                    assert(cache_handle(self.keys@, key) == i) by {
                        let h0 = cache_handle(self.keys@, key);
                        if h0 < i {
                            assert(self.keys@[h0] == key);
                        }
                        if h0 > i {
                            assert(self.keys@[i as int] != key);
                        }
                    }
                    assert(self.keys@ =~= self.keys@.take(self.keys@.len() as int));
                }
                i
            }
            None => {
                let h = self.keys.len();
                let descriptor = build_descriptor(key);
                self.keys.push(key);
                self.pipelines.push(descriptor);
                proof {
                    let old_keys = old(self).keys@;
                    assert(self.keys@ == old_keys.push(key));
                    assert(contains_key(self.keys@, key)) by {
                        assert(self.keys@[h as int] == key);
                    }
                    lemma_cache_handle_is_first(self.keys@, key);
                    assert(cache_handle(self.keys@, key) == h as int) by {
                        let h0 = cache_handle(self.keys@, key);
                        if h0 < h as int {
                            assert(old_keys[h0] == self.keys@[h0]);
                        }
                    }
                    assert(old_keys =~= self.keys@.take(old_keys.len() as int));
                    assert forall|i: int, j: int| 0 <= i < j < self.keys@.len()
                        implies self.keys@[i] != self.keys@[j] by {
                        if j == h as int {
                            assert(self.keys@[i] == old_keys[i]);
                        }
                    }
                }
                h
            }
        }
    }

    /// The configuration cached under handle `h`.
    pub fn get_descriptor(&self, h: usize) -> (d: &PipelineDescriptor)
        requires
            self.wf(),
            h < self.keys@.len(),
        ensures
            descriptor_matches(*d, self.keys@[h as int]),
            *d == self.pipelines@[h as int],
    {
        &self.pipelines[h]
    }
}

/// Law: specialization is idempotent. The key set a specialization request
/// leaves behind already holds the key, so a second request with an equal key
/// changes nothing — and therefore, by `specialize`'s postcondition, returns
/// the identical cached handle. Nothing is compiled twice.
pub proof fn lemma_specialize_idempotent(keys: Seq<PipelineKey>, key: PipelineKey)
    ensures
        specialize_keys(specialize_keys(keys, key), key) == specialize_keys(keys, key),
        contains_key(specialize_keys(keys, key), key),
{
    let once = specialize_keys(keys, key);
    if !contains_key(keys, key) {
        assert(once[keys.len() as int] == key);
    }
    assert(contains_key(once, key));
}

/// Law: within one well-formed cache a key names at most one handle — two
/// handles that both carry equal keys are the same handle, so the handle a
/// caller got on the first request is the one every later request returns.
pub proof fn lemma_handle_unique(c: PipelineSpecializationCache, key: PipelineKey, h1: usize, h2: usize)
    requires
        c.wf(),
        h1 < c.keys@.len(),
        h2 < c.keys@.len(),
        c.keys@[h1 as int] == key,
        c.keys@[h2 as int] == key,
    ensures
        h1 == h2,
{
}

/// Law: the HDR flag decides the color target format. Pipelines specialized
/// for keys that agree on everything but the HDR flag are configured with
/// different output formats.
pub proof fn lemma_hdr_selects_format(
    d_hdr: PipelineDescriptor,
    d_std: PipelineDescriptor,
    k_hdr: PipelineKey,
    k_std: PipelineKey,
)
    requires
        descriptor_matches(d_hdr, k_hdr),
        descriptor_matches(d_std, k_std),
        k_hdr.hdr,
        !k_std.hdr,
    ensures
        d_hdr.color_format != d_std.color_format,
{
}

} // verus!
