use vertex_buffers::pipeline::AttributeFormat;
use vertex_buffers::pipeline::ColorFormat;
use vertex_buffers::pipeline::DepthCompare;
use vertex_buffers::pipeline::PipelineKey;
use vertex_buffers::pipeline::PipelineSpecializationCache;
use vertex_buffers::pipeline::StepMode;
use vertex_buffers::pipeline::build_descriptor;

#[test]
fn specialize_same_key_returns_identical_handle() {
    let mut cache = PipelineSpecializationCache::new();
    let key = PipelineKey { msaa_samples: 4, hdr: false };
    let first = cache.specialize(key);
    assert_eq!(cache.len(), 1);
    let second = cache.specialize(PipelineKey { msaa_samples: 4, hdr: false });
    assert_eq!(first, second);
    // no recompilation: the cache still holds exactly one pipeline
    assert_eq!(cache.len(), 1);
}

#[test]
fn specialize_different_keys_get_distinct_handles() {
    let mut cache = PipelineSpecializationCache::new();
    let a = cache.specialize(PipelineKey { msaa_samples: 1, hdr: false });
    let b = cache.specialize(PipelineKey { msaa_samples: 4, hdr: false });
    let c = cache.specialize(PipelineKey { msaa_samples: 4, hdr: true });
    assert_ne!(a, b);
    assert_ne!(b, c);
    assert_ne!(a, c);
    assert_eq!(cache.len(), 3);
    // asking again, in any order, returns the original handles
    assert_eq!(cache.specialize(PipelineKey { msaa_samples: 4, hdr: true }), c);
    assert_eq!(cache.specialize(PipelineKey { msaa_samples: 1, hdr: false }), a);
    assert_eq!(cache.len(), 3);
}

#[test]
fn hdr_flag_selects_output_format() {
    let mut cache = PipelineSpecializationCache::new();
    let hdr_handle = cache.specialize(PipelineKey { msaa_samples: 4, hdr: true });
    let std_handle = cache.specialize(PipelineKey { msaa_samples: 4, hdr: false });
    let hdr_descriptor = cache.get_descriptor(hdr_handle);
    let std_descriptor = cache.get_descriptor(std_handle);
    assert_eq!(hdr_descriptor.color_format, ColorFormat::HighDynamicRange);
    assert_eq!(std_descriptor.color_format, ColorFormat::StandardDisplay);
    assert_ne!(hdr_descriptor.color_format, std_descriptor.color_format);
}

#[test]
fn descriptor_has_fixed_three_slot_vertex_layout() {
    let d = build_descriptor(PipelineKey { msaa_samples: 8, hdr: false });
    assert_eq!(d.vertex_layouts.len(), 3);

    let position = &d.vertex_layouts[0];
    assert_eq!(position.step_mode, StepMode::PerVertex);
    assert_eq!(position.array_stride, 8);
    assert_eq!(position.attributes.len(), 1);
    assert_eq!(position.attributes[0].shader_location, 0);
    assert_eq!(position.attributes[0].format, AttributeFormat::Float32x2);
    assert_eq!(position.attributes[0].offset, 0);

    let static_slot = &d.vertex_layouts[1];
    assert_eq!(static_slot.step_mode, StepMode::PerInstance);
    assert_eq!(static_slot.array_stride, 24);
    assert_eq!(static_slot.attributes.len(), 2);
    assert_eq!(static_slot.attributes[0].shader_location, 1);
    assert_eq!(static_slot.attributes[0].format, AttributeFormat::Float32x4);
    assert_eq!(static_slot.attributes[0].offset, 0);
    assert_eq!(static_slot.attributes[1].shader_location, 2);
    assert_eq!(static_slot.attributes[1].format, AttributeFormat::Float32x2);
    assert_eq!(static_slot.attributes[1].offset, 16);

    let scale_slot = &d.vertex_layouts[2];
    assert_eq!(scale_slot.step_mode, StepMode::PerInstance);
    assert_eq!(scale_slot.array_stride, 8);
    assert_eq!(scale_slot.attributes.len(), 1);
    assert_eq!(scale_slot.attributes[0].shader_location, 3);
    assert_eq!(scale_slot.attributes[0].format, AttributeFormat::Float32x2);
    assert_eq!(scale_slot.attributes[0].offset, 0);

    assert_eq!(d.depth_compare, DepthCompare::GreaterEqual);
    assert!(!d.depth_write_enabled);
    assert!(d.alpha_blend);
    assert_eq!(d.msaa_count, 8);
}
