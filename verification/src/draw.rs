//! Draw-time command submission: resolve every GPU resource a queued item
//! needs — mesh instance, GPU mesh, allocator slices, the entity's instance
//! buffers, the view bind group — and either record the instanced draw or
//! skip that one item. A missing resource is an expected cross-phase race
//! (an entity despawned between queue and draw, a mesh not yet loaded), never
//! a frame-level failure: each item is terminal in `Submitted` or `Skipped`.

use vstd::prelude::*;
use crate::instances::BindGroup;
use crate::instances::GpuInstanceBuffers;
use crate::instances::InstanceBuffer;
use crate::queue::QueuedDrawItem;

verus! {

/// The render-side record of an entity's mesh reference.
#[derive(Clone, Copy, Debug, PartialEq, Eq, Structural)]
pub struct MeshInstance {
    pub mesh_asset_id: u64,
}

/// Element type of an index buffer.
#[derive(Clone, Copy, Debug, PartialEq, Eq, Structural)]
pub enum IndexFormat {
    Uint16,
    Uint32,
}

/// Whether a GPU mesh draws through an index buffer, and with how many
/// indices.
#[derive(Clone, Copy, Debug, PartialEq, Eq, Structural)]
pub enum MeshBufferInfo {
    Indexed { count: u32, index_format: IndexFormat },
    NonIndexed,
}

/// A mesh as the draw phase sees it.
#[derive(Clone, Copy, Debug, PartialEq, Eq, Structural)]
pub struct GpuMesh {
    pub buffer_info: MeshBufferInfo,
}

/// One mesh's sub-range of a shared allocator buffer.
#[derive(Clone, Copy, Debug, PartialEq, Eq, Structural)]
pub struct BufferSlice {
    pub buffer: u64,
    pub start: u32,
    pub end: u32,
}

/// One recorded GPU command of a render pass.
#[derive(Clone, Copy, Debug, PartialEq, Eq, Structural)]
pub enum RenderCommand {
    SetPipeline { pipeline: usize },
    SetBindGroup { index: u32, group: BindGroup, dynamic_offset: u32 },
    SetVertexBuffer { slot: u32, buffer: u64 },
    SetIndexBuffer { buffer: u64, format: IndexFormat },
    DrawIndexed {
        index_start: u32,
        index_end: u32,
        base_vertex: u32,
        instance_start: u32,
        instance_end: u32,
    },
    Draw { vertex_start: u32, vertex_end: u32, instance_start: u32, instance_end: u32 },
}

/// Which resolution step found its input absent. The reason is carried for
/// observability; every case is recoverable and scoped to the one item.
#[derive(Clone, Copy, Debug, PartialEq, Eq, Structural)]
pub enum SkipReason {
    MissingMeshInstance,
    MissingGpuMesh,
    MissingVertexSlice,
    MissingIndexSlice,
    MissingInstanceBuffers,
    MissingViewBindGroup,
}

/// Terminal outcome of one queued item: its draw was recorded, or the item
/// was skipped and no command was issued.
#[derive(Clone, Copy, Debug, PartialEq, Eq, Structural)]
pub enum DrawResult {
    Submitted,
    Skipped(SkipReason),
}

/// First value stored under `key`, if any.
pub open spec fn assoc_lookup<T>(s: Seq<(u64, T)>, key: u64) -> Option<T>
    decreases s.len(),
{
    if s.len() == 0 {
        None
    } else if s[0].0 == key {
        Some(s[0].1)
    } else {
        assoc_lookup(s.skip(1), key)
    }
}

/// When the first `i` entries miss `key` and entry `i` carries it, the lookup
/// returns entry `i`.
proof fn lemma_assoc_lookup_at<T>(s: Seq<(u64, T)>, key: u64, i: int)
    requires
        0 <= i < s.len(),
        s[i].0 == key,
        forall|j: int| 0 <= j < i ==> s[j].0 != key,
    ensures
        assoc_lookup(s, key) == Some(s[i].1),
    decreases i,
{
    if i > 0 {
        let tail = s.skip(1);
        assert(tail[i - 1] == s[i]);
        assert forall|j: int| 0 <= j < i - 1 implies tail[j].0 != key by {
            assert(tail[j] == s[j + 1]);
        }
        lemma_assoc_lookup_at(tail, key, i - 1);
    }
}

/// When no entry carries `key`, the lookup misses.
proof fn lemma_assoc_lookup_none<T>(s: Seq<(u64, T)>, key: u64)
    requires
        forall|j: int| 0 <= j < s.len() ==> s[j].0 != key,
    ensures
        assoc_lookup(s, key) is None,
    decreases s.len(),
{
    if s.len() > 0 {
        let tail = s.skip(1);
        assert forall|j: int| 0 <= j < tail.len() implies tail[j].0 != key by {
            assert(tail[j] == s[j + 1]);
        }
        lemma_assoc_lookup_none(tail, key);
    }
}

/// Index of the first entry under `key`, if any.
fn assoc_index<T>(v: &Vec<(u64, T)>, key: u64) -> (r: Option<usize>)
    ensures
        r matches Some(j) ==> j < v@.len() && v@[j as int].0 == key && assoc_lookup(v@, key)
            == Some(v@[j as int].1),
        r is None ==> assoc_lookup::<T>(v@, key) is None,
{
    let n = v.len();
    let mut i: usize = 0;
    while i < n
        invariant
            n == v@.len(),
            i <= n,
            forall|j: int| 0 <= j < i ==> v@[j].0 != key,
        decreases n - i,
    {
        if v[i].0 == key {
            proof {
                lemma_assoc_lookup_at(v@, key, i as int);
            }
            return Some(i);
        }
        i = i + 1;
    }
    proof {
        lemma_assoc_lookup_none(v@, key);
    }
    None
}

/// Every shared lookup table the draw phase resolves against, frame-current.
pub struct RenderResources {
    pub mesh_instances: Vec<(u64, MeshInstance)>,
    pub gpu_meshes: Vec<(u64, GpuMesh)>,
    pub vertex_slices: Vec<(u64, BufferSlice)>,
    pub index_slices: Vec<(u64, BufferSlice)>,
    pub instance_buffers: Vec<(u64, GpuInstanceBuffers)>,
}

impl RenderResources {
    /// Machine limit the allocator guarantees: an indexed mesh's index range
    /// `start .. start + count` stays within `u32`.
    pub open spec fn wf(self) -> bool {
        forall|a: u64|
            #![trigger assoc_lookup(self.index_slices@, a)]
            match assoc_lookup(self.gpu_meshes@, a) {
                Some(mesh) => match mesh.buffer_info {
                    MeshBufferInfo::Indexed { count, index_format } => match assoc_lookup(
                        self.index_slices@,
                        a,
                    ) {
                        Some(slice) => slice.start + count <= u32::MAX,
                        None => true,
                    },
                    MeshBufferInfo::NonIndexed => true,
                },
                None => true,
            }
    }
}

/// The pass commands that bind one resolved item's pipeline, view bind group
/// and three vertex buffer slots: mesh vertices at slot 0, static instance
/// attributes at slot 1, changing instance attributes at slot 2.
pub open spec fn bind_commands(
    item: QueuedDrawItem,
    vertex_slice: BufferSlice,
    buffers: GpuInstanceBuffers,
    group: BindGroup,
    view_offset: u32,
) -> Seq<RenderCommand> {
    seq![
        (RenderCommand::SetPipeline { pipeline: item.pipeline }),
        (RenderCommand::SetBindGroup { index: 0, group, dynamic_offset: view_offset }),
        (RenderCommand::SetVertexBuffer { slot: 0, buffer: vertex_slice.buffer }),
        (RenderCommand::SetVertexBuffer { slot: 1, buffer: buffers.static_buffer_id }),
        (RenderCommand::SetVertexBuffer { slot: 2, buffer: buffers.changing_buffer_id }),
    ]
}

/// What submitting one queued item does: the outcome, and exactly the
/// commands the pass records. Resolution short-circuits in order — mesh
/// instance, GPU mesh, vertex slice (plus index slice when the mesh is
/// indexed), instance buffers, view bind group — and a skip records nothing.
/// A resolved item records its bindings and one instanced draw over instance
/// range `0 .. count`, indexed or not as the mesh decides.
pub open spec fn spec_submit(
    item: QueuedDrawItem,
    res: RenderResources,
    bind: InstanceBuffer,
    view_offset: u32,
) -> (DrawResult, Seq<RenderCommand>) {
    match assoc_lookup(res.mesh_instances@, item.entity) {
        None => (DrawResult::Skipped(SkipReason::MissingMeshInstance), Seq::empty()),
        Some(mesh_instance) => match assoc_lookup(res.gpu_meshes@, mesh_instance.mesh_asset_id) {
            None => (DrawResult::Skipped(SkipReason::MissingGpuMesh), Seq::empty()),
            Some(mesh) => match assoc_lookup(res.vertex_slices@, mesh_instance.mesh_asset_id) {
                None => (DrawResult::Skipped(SkipReason::MissingVertexSlice), Seq::empty()),
                Some(vertex_slice) => match mesh.buffer_info {
                    MeshBufferInfo::Indexed { count, index_format } => match assoc_lookup(
                        res.index_slices@,
                        mesh_instance.mesh_asset_id,
                    ) {
                        None => (DrawResult::Skipped(SkipReason::MissingIndexSlice), Seq::empty()),
                        Some(index_slice) => match assoc_lookup(res.instance_buffers@, item.entity) {
                            None => (
                                DrawResult::Skipped(SkipReason::MissingInstanceBuffers),
                                Seq::empty(),
                            ),
                            Some(buffers) => match bind.view_bind_group {
                                None => (
                                    DrawResult::Skipped(SkipReason::MissingViewBindGroup),
                                    Seq::empty(),
                                ),
                                Some(group) => (
                                    DrawResult::Submitted,
                                    bind_commands(item, vertex_slice, buffers, group, view_offset)
                                        + seq![
                                        (RenderCommand::SetIndexBuffer {
                                            buffer: index_slice.buffer,
                                            format: index_format,
                                        }),
                                        (RenderCommand::DrawIndexed {
                                            index_start: index_slice.start,
                                            index_end: (index_slice.start + count) as u32,
                                            base_vertex: vertex_slice.start,
                                            instance_start: 0,
                                            instance_end: buffers.count,
                                        }),
                                    ],
                                ),
                            },
                        },
                    },
                    MeshBufferInfo::NonIndexed => match assoc_lookup(
                        res.instance_buffers@,
                        item.entity,
                    ) {
                        None => (
                            DrawResult::Skipped(SkipReason::MissingInstanceBuffers),
                            Seq::empty(),
                        ),
                        Some(buffers) => match bind.view_bind_group {
                            None => (
                                DrawResult::Skipped(SkipReason::MissingViewBindGroup),
                                Seq::empty(),
                            ),
                            Some(group) => (
                                DrawResult::Submitted,
                                bind_commands(item, vertex_slice, buffers, group, view_offset)
                                    + seq![
                                    (RenderCommand::Draw {
                                        vertex_start: vertex_slice.start,
                                        vertex_end: vertex_slice.end,
                                        instance_start: 0,
                                        instance_end: buffers.count,
                                    }),
                                ],
                            ),
                        },
                    },
                },
            },
        },
    }
}

/// Submit one queued item: resolve its resources and record its commands on
/// the pass, exactly as `spec_submit` says — and record nothing on a skip.
pub fn submit(
    item: &QueuedDrawItem,
    res: &RenderResources,
    bind: &InstanceBuffer,
    view_offset: u32,
    pass: &mut Vec<RenderCommand>,
) -> (r: DrawResult)
    requires
        res.wf(),
    ensures
        ({
            let (outcome, commands) = spec_submit(*item, *res, *bind, view_offset);
            r == outcome && final(pass)@ == old(pass)@ + commands
        }),
{
    proof {
        assert(pass@ =~= pass@ + Seq::<RenderCommand>::empty());
    }
    let mesh_instance = match assoc_index(&res.mesh_instances, item.entity) {
        None => {
            return DrawResult::Skipped(SkipReason::MissingMeshInstance);
        }
        Some(ix) => res.mesh_instances[ix].1,
    };
    let mesh = match assoc_index(&res.gpu_meshes, mesh_instance.mesh_asset_id) {
        None => {
            return DrawResult::Skipped(SkipReason::MissingGpuMesh);
        }
        Some(ix) => res.gpu_meshes[ix].1,
    };
    let vertex_slice = match assoc_index(&res.vertex_slices, mesh_instance.mesh_asset_id) {
        None => {
            return DrawResult::Skipped(SkipReason::MissingVertexSlice);
        }
        Some(ix) => res.vertex_slices[ix].1,
    };
    let indexed: Option<(BufferSlice, u32, IndexFormat)> = match mesh.buffer_info {
        MeshBufferInfo::Indexed { count, index_format } => {
            match assoc_index(&res.index_slices, mesh_instance.mesh_asset_id) {
                None => {
                    return DrawResult::Skipped(SkipReason::MissingIndexSlice);
                }
                Some(ix) => Some((res.index_slices[ix].1, count, index_format)),
            }
        }
        MeshBufferInfo::NonIndexed => None,
    };
    let buffers_index = match assoc_index(&res.instance_buffers, item.entity) {
        None => {
            return DrawResult::Skipped(SkipReason::MissingInstanceBuffers);
        }
        Some(ix) => ix,
    };
    let buffers = &res.instance_buffers[buffers_index].1;
    let group = match bind.view_bind_group {
        None => {
            return DrawResult::Skipped(SkipReason::MissingViewBindGroup);
        }
        Some(g) => g,
    };

    let ghost pass0 = pass@;
    pass.push(RenderCommand::SetPipeline { pipeline: item.pipeline });
    pass.push(RenderCommand::SetBindGroup { index: 0, group, dynamic_offset: view_offset });
    pass.push(RenderCommand::SetVertexBuffer { slot: 0, buffer: vertex_slice.buffer });
    pass.push(RenderCommand::SetVertexBuffer { slot: 1, buffer: buffers.static_buffer_id });
    pass.push(RenderCommand::SetVertexBuffer { slot: 2, buffer: buffers.changing_buffer_id });
    match indexed {
        Some((slice, count, format)) => {
            pass.push(RenderCommand::SetIndexBuffer { buffer: slice.buffer, format });
            pass.push(RenderCommand::DrawIndexed {
                index_start: slice.start,
                index_end: slice.start + count,
                base_vertex: vertex_slice.start,
                instance_start: 0,
                instance_end: buffers.count,
            });
        }
        None => {
            pass.push(RenderCommand::Draw {
                vertex_start: vertex_slice.start,
                vertex_end: vertex_slice.end,
                instance_start: 0,
                instance_end: buffers.count,
            });
        }
    }
    proof {
        let (outcome, commands) = spec_submit(*item, *res, *bind, view_offset);
        assert(pass@ =~= pass0 + commands);
    }
    DrawResult::Submitted
}

/// Law: an item whose entity no longer resolves — despawned between queue and
/// draw — is skipped at the first step and records no GPU command at all.
pub proof fn lemma_missing_entity_skips(
    item: QueuedDrawItem,
    res: RenderResources,
    bind: InstanceBuffer,
    view_offset: u32,
)
    requires
        assoc_lookup(res.mesh_instances@, item.entity) is None,
    ensures
        spec_submit(item, res, bind, view_offset) == (
            DrawResult::Skipped(SkipReason::MissingMeshInstance),
            Seq::<RenderCommand>::empty(),
        ),
{
}

/// Law: an item that resolves fully is submitted whatever its instance count;
/// zero instances give a valid degenerate draw over the instance range
/// `0 .. 0`, not a skip. The recorded command list always ends in one draw
/// whose instance range is `0 .. count` of the entity's prepared buffers.
pub proof fn lemma_submitted_draw_ranges(
    item: QueuedDrawItem,
    res: RenderResources,
    bind: InstanceBuffer,
    view_offset: u32,
)
    requires
        spec_submit(item, res, bind, view_offset).0 == DrawResult::Submitted,
    ensures
        assoc_lookup(res.instance_buffers@, item.entity) is Some,
        ({
            let buffers = assoc_lookup(res.instance_buffers@, item.entity)->0;
            let commands = spec_submit(item, res, bind, view_offset).1;
            commands.len() > 0 && match commands.last() {
                RenderCommand::DrawIndexed {
                    index_start,
                    index_end,
                    base_vertex,
                    instance_start,
                    instance_end,
                } => instance_start == 0 && instance_end == buffers.count,
                RenderCommand::Draw { vertex_start, vertex_end, instance_start, instance_end } => (
                    instance_start == 0 && instance_end == buffers.count
                ),
                _ => false,
            }
        }),
{
    let mesh_instance = assoc_lookup(res.mesh_instances@, item.entity)->0;
    let mesh = assoc_lookup(res.gpu_meshes@, mesh_instance.mesh_asset_id)->0;
    match mesh.buffer_info {
        MeshBufferInfo::Indexed { count, index_format } => {
        }
        MeshBufferInfo::NonIndexed => {
        }
    }
}

} // verus!
