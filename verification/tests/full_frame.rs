use rand::RngExt;
use rand::SeedableRng;
use rand_chacha::ChaCha8Rng;
use vertex_buffers::draw::BufferSlice;
use vertex_buffers::draw::DrawResult;
use vertex_buffers::draw::GpuMesh;
use vertex_buffers::draw::MeshBufferInfo;
use vertex_buffers::draw::MeshInstance;
use vertex_buffers::draw::RenderCommand;
use vertex_buffers::draw::RenderResources;
use vertex_buffers::draw::submit;
use vertex_buffers::instances::ChangingInstanceRecord;
use vertex_buffers::instances::InstanceAttributeSet;
use vertex_buffers::instances::InstanceBuffer;
use vertex_buffers::instances::StaticInstanceRecord;
use vertex_buffers::instances::prepare_instance_buffers;
use vertex_buffers::pipeline::PipelineSpecializationCache;
use vertex_buffers::queue::ExtractedView;
use vertex_buffers::queue::ViewPhase;
use vertex_buffers::queue::queue_custom;

/// Positions of a ring mesh: two triangles for each subdivision.
fn ring_vertices(
    radius: f32,
    num_subdivisions: usize,
    inner_radius: f32,
    start_angle: f32,
    end_angle: f32,
) -> Vec<[f32; 2]> {
    let mut vertex_data = Vec::with_capacity(num_subdivisions * 3 * 2);
    for i in 0..num_subdivisions {
        let angle_1 =
            start_angle + (i as f32 + 0.0) * (end_angle - start_angle) / num_subdivisions as f32;
        let angle_2 =
            start_angle + (i as f32 + 1.0) * (end_angle - start_angle) / num_subdivisions as f32;
        let (c1, s1) = (angle_1.cos(), angle_1.sin());
        let (c2, s2) = (angle_2.cos(), angle_2.sin());
        vertex_data.push([c1 * radius, s1 * radius]);
        vertex_data.push([c2 * radius, s2 * radius]);
        vertex_data.push([c1 * inner_radius, s1 * inner_radius]);
        vertex_data.push([c1 * inner_radius, s1 * inner_radius]);
        vertex_data.push([c2 * radius, s2 * radius]);
        vertex_data.push([c2 * inner_radius, s2 * inner_radius]);
    }
    vertex_data
}

/// A whole frame for one entity with 900 instances on a 24-subdivision ring:
/// prepare, queue, draw; exactly one submitted draw with instance range
/// `0 .. 900` over the unmodified 144-vertex mesh.
#[test]
fn full_frame_draws_900_instances_of_the_ring_once() {
    let entity: u64 = 21;
    let mesh_asset: u64 = 3;
    let mut rng = ChaCha8Rng::seed_from_u64(8);

    // a grid of hue and lightness steps, each with a random offset and scale
    let mut static_records: Vec<StaticInstanceRecord> = Vec::new();
    let mut changing_records: Vec<ChangingInstanceRecord> = Vec::new();
    for x in 1..=100_u32 {
        for y in 1..10_u32 {
            let hue = x as f32 / 10.0;
            let lightness = y as f32 / 10.0;
            static_records.push(StaticInstanceRecord {
                color_r: hue.to_bits(),
                color_g: lightness.to_bits(),
                color_b: 0.5_f32.to_bits(),
                color_a: 1.0_f32.to_bits(),
                offset_x: rng.random_range(-1.0_f32..1.0).to_bits(),
                offset_y: rng.random_range(-1.0_f32..1.0).to_bits(),
            });
            let scale = rng.random_range(0.25_f32..1.0);
            changing_records.push(ChangingInstanceRecord {
                scale_x: scale.to_bits(),
                scale_y: scale.to_bits(),
            });
        }
    }
    let set = InstanceAttributeSet { static_records, changing_records };
    assert_eq!(set.static_records.len(), 900);

    let vertices = ring_vertices(0.5, 24, 0.25, 0.0, core::f32::consts::PI * 2.0);
    assert_eq!(vertices.len(), 144);

    // prepare: per-entity instance buffers and the view bind group
    let prepared = prepare_instance_buffers(&vec![(entity, set)], 200);
    assert_eq!(prepared[0].1.static_bytes.len(), 900 * 24);
    assert_eq!(prepared[0].1.changing_bytes.len(), 900 * 8);
    let mut bind = InstanceBuffer::new();
    bind.prepare_view_bind_group(Some(77));

    // queue: one view, one item for the entity
    let mut cache = PipelineSpecializationCache::new();
    let views = vec![ExtractedView { view_id: 1, msaa_samples: 4, hdr: false }];
    let mut phases = vec![ViewPhase { view_id: 1, items: Vec::new() }];
    queue_custom(&mut cache, &views, &vec![entity], 9, &mut phases);
    assert_eq!(phases[0].items.len(), 1);

    // draw: resolve and submit every queued item of the view
    let res = RenderResources {
        mesh_instances: vec![(entity, MeshInstance { mesh_asset_id: mesh_asset })],
        gpu_meshes: vec![(mesh_asset, GpuMesh { buffer_info: MeshBufferInfo::NonIndexed })],
        vertex_slices: vec![(
            mesh_asset,
            BufferSlice { buffer: 1, start: 0, end: vertices.len() as u32 },
        )],
        index_slices: vec![],
        instance_buffers: prepared,
    };
    let mut pass: Vec<RenderCommand> = Vec::new();
    let mut submitted = 0;
    for item in &phases[0].items {
        if submit(item, &res, &bind, 0, &mut pass) == DrawResult::Submitted {
            submitted += 1;
        }
    }
    assert_eq!(submitted, 1);

    let draws: Vec<&RenderCommand> = pass
        .iter()
        .filter(|c| matches!(c, RenderCommand::Draw { .. } | RenderCommand::DrawIndexed { .. }))
        .collect();
    assert_eq!(draws.len(), 1);
    assert_eq!(
        draws[0],
        &RenderCommand::Draw {
            vertex_start: 0,
            vertex_end: 144,
            instance_start: 0,
            instance_end: 900,
        }
    );
}
