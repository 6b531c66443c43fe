use vertex_buffers::draw::BufferSlice;
use vertex_buffers::draw::DrawResult;
use vertex_buffers::draw::GpuMesh;
use vertex_buffers::draw::IndexFormat;
use vertex_buffers::draw::MeshBufferInfo;
use vertex_buffers::draw::MeshInstance;
use vertex_buffers::draw::RenderCommand;
use vertex_buffers::draw::RenderResources;
use vertex_buffers::draw::SkipReason;
use vertex_buffers::draw::submit;
use vertex_buffers::instances::BindGroup;
use vertex_buffers::instances::InstanceAttributeSet;
use vertex_buffers::instances::InstanceBuffer;
use vertex_buffers::instances::prepare_entity_buffers;
use vertex_buffers::queue::QueuedDrawItem;

const ENTITY: u64 = 17;
const MESH_ASSET: u64 = 5;

fn item_for(entity: u64) -> QueuedDrawItem {
    QueuedDrawItem {
        sort_key: 0,
        entity,
        pipeline: 0,
        draw_function: 1,
        batch_start: 0,
        batch_end: 1,
        indexed: false,
    }
}

fn empty_set() -> InstanceAttributeSet {
    InstanceAttributeSet { static_records: vec![], changing_records: vec![] }
}

fn resources(buffer_info: MeshBufferInfo) -> RenderResources {
    RenderResources {
        mesh_instances: vec![(ENTITY, MeshInstance { mesh_asset_id: MESH_ASSET })],
        gpu_meshes: vec![(MESH_ASSET, GpuMesh { buffer_info })],
        vertex_slices: vec![(MESH_ASSET, BufferSlice { buffer: 50, start: 64, end: 208 })],
        index_slices: vec![(MESH_ASSET, BufferSlice { buffer: 51, start: 16, end: 52 })],
        instance_buffers: vec![(ENTITY, prepare_entity_buffers(&empty_set(), 60, 61))],
    }
}

fn bind_ready() -> InstanceBuffer {
    InstanceBuffer { view_bind_group: Some(BindGroup { uniform_buffer: 40 }) }
}

#[test]
fn resolved_item_submits_non_indexed_draw() {
    let res = resources(MeshBufferInfo::NonIndexed);
    let mut pass: Vec<RenderCommand> = Vec::new();
    let outcome = submit(&item_for(ENTITY), &res, &bind_ready(), 256, &mut pass);
    assert_eq!(outcome, DrawResult::Submitted);
    assert_eq!(
        pass,
        vec![
            RenderCommand::SetPipeline { pipeline: 0 },
            RenderCommand::SetBindGroup {
                index: 0,
                group: BindGroup { uniform_buffer: 40 },
                dynamic_offset: 256,
            },
            RenderCommand::SetVertexBuffer { slot: 0, buffer: 50 },
            RenderCommand::SetVertexBuffer { slot: 1, buffer: 60 },
            RenderCommand::SetVertexBuffer { slot: 2, buffer: 61 },
            RenderCommand::Draw {
                vertex_start: 64,
                vertex_end: 208,
                instance_start: 0,
                instance_end: 0,
            },
        ]
    );
}

#[test]
fn resolved_item_submits_indexed_draw() {
    let res = resources(MeshBufferInfo::Indexed { count: 36, index_format: IndexFormat::Uint16 });
    let mut pass: Vec<RenderCommand> = Vec::new();
    let outcome = submit(&item_for(ENTITY), &res, &bind_ready(), 0, &mut pass);
    assert_eq!(outcome, DrawResult::Submitted);
    assert_eq!(pass.len(), 7);
    assert_eq!(
        pass[5],
        RenderCommand::SetIndexBuffer { buffer: 51, format: IndexFormat::Uint16 }
    );
    assert_eq!(
        pass[6],
        RenderCommand::DrawIndexed {
            index_start: 16,
            index_end: 52,
            base_vertex: 64,
            instance_start: 0,
            instance_end: 0,
        }
    );
}

#[test]
fn zero_count_entity_submits_degenerate_draw_not_skip() {
    let res = resources(MeshBufferInfo::NonIndexed);
    let mut pass: Vec<RenderCommand> = Vec::new();
    let outcome = submit(&item_for(ENTITY), &res, &bind_ready(), 0, &mut pass);
    assert_eq!(outcome, DrawResult::Submitted);
    match pass.last() {
        Some(RenderCommand::Draw { instance_start, instance_end, .. }) => {
            assert_eq!(*instance_start, 0);
            assert_eq!(*instance_end, 0);
        }
        other => panic!("expected a draw command, got {:?}", other),
    }
}

#[test]
fn despawned_entity_skips_while_others_submit() {
    let res = resources(MeshBufferInfo::NonIndexed);
    let mut pass: Vec<RenderCommand> = Vec::new();

    // this entity was despawned between queue and draw
    let outcome_gone = submit(&item_for(999), &res, &bind_ready(), 0, &mut pass);
    assert_eq!(outcome_gone, DrawResult::Skipped(SkipReason::MissingMeshInstance));
    assert!(pass.is_empty());

    // the other item queued in the same frame still submits
    let outcome_live = submit(&item_for(ENTITY), &res, &bind_ready(), 0, &mut pass);
    assert_eq!(outcome_live, DrawResult::Submitted);
    assert_eq!(pass.len(), 6);
}

#[test]
fn missing_gpu_mesh_skips() {
    let mut res = resources(MeshBufferInfo::NonIndexed);
    res.gpu_meshes.clear();
    let mut pass: Vec<RenderCommand> = Vec::new();
    let outcome = submit(&item_for(ENTITY), &res, &bind_ready(), 0, &mut pass);
    assert_eq!(outcome, DrawResult::Skipped(SkipReason::MissingGpuMesh));
    assert!(pass.is_empty());
}

#[test]
fn missing_vertex_slice_skips() {
    let mut res = resources(MeshBufferInfo::NonIndexed);
    res.vertex_slices.clear();
    let mut pass: Vec<RenderCommand> = Vec::new();
    let outcome = submit(&item_for(ENTITY), &res, &bind_ready(), 0, &mut pass);
    assert_eq!(outcome, DrawResult::Skipped(SkipReason::MissingVertexSlice));
    assert!(pass.is_empty());
}

#[test]
fn missing_index_slice_skips_only_indexed_meshes() {
    let mut res =
        resources(MeshBufferInfo::Indexed { count: 36, index_format: IndexFormat::Uint32 });
    res.index_slices.clear();
    let mut pass: Vec<RenderCommand> = Vec::new();
    let outcome = submit(&item_for(ENTITY), &res, &bind_ready(), 0, &mut pass);
    assert_eq!(outcome, DrawResult::Skipped(SkipReason::MissingIndexSlice));
    assert!(pass.is_empty());

    let mut res_plain = resources(MeshBufferInfo::NonIndexed);
    res_plain.index_slices.clear();
    let outcome_plain = submit(&item_for(ENTITY), &res_plain, &bind_ready(), 0, &mut pass);
    assert_eq!(outcome_plain, DrawResult::Submitted);
}

#[test]
fn missing_instance_buffers_skip() {
    let mut res = resources(MeshBufferInfo::NonIndexed);
    res.instance_buffers.clear();
    let mut pass: Vec<RenderCommand> = Vec::new();
    let outcome = submit(&item_for(ENTITY), &res, &bind_ready(), 0, &mut pass);
    assert_eq!(outcome, DrawResult::Skipped(SkipReason::MissingInstanceBuffers));
    assert!(pass.is_empty());
}

#[test]
fn missing_view_bind_group_is_a_recoverable_skip() {
    let res = resources(MeshBufferInfo::NonIndexed);
    let unprepared = InstanceBuffer::new();
    let mut pass: Vec<RenderCommand> = Vec::new();
    let outcome = submit(&item_for(ENTITY), &res, &unprepared, 0, &mut pass);
    assert_eq!(outcome, DrawResult::Skipped(SkipReason::MissingViewBindGroup));
    assert!(pass.is_empty());
}
