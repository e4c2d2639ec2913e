use picodraw::batch::{encode_quads, DrawBatch, DrawCounts, GpuQuadDescriptor};
use picodraw::compiler::CompilerShader;
use picodraw::context::{DrawError, DrawTarget};
use picodraw::gl::{GlInfo, GlTextureBufferWriter, StreamCursor};
use picodraw::resources::ResourceTable;
use picodraw::texture::Bounds;

fn info(version: (u32, u32), is_gles: bool, extensions: &[&str], ubo: u32) -> GlInfo {
    GlInfo {
        version,
        is_gles,
        vendor: "test".to_string(),
        extensions: extensions.iter().map(|e| e.to_string()).collect(),
        max_texture_size: 4096,
        max_texture_units: 16,
        max_uniform_block_size: ubo,
    }
}

#[test]
fn glsl_versions() {
    assert_eq!(info((3, 0), true, &[], 0).glsl_version(), 330);
    assert_eq!(info((2, 0), true, &[], 0).glsl_version(), 120);
    assert_eq!(info((1, 1), true, &[], 0).glsl_version(), 100);
    assert_eq!(info((4, 6), false, &[], 0).glsl_version(), 460);
    assert_eq!(info((3, 3), false, &[], 0).glsl_version(), 330);
    assert_eq!(info((3, 2), false, &[], 0).glsl_version(), 150);
    assert_eq!(info((3, 1), false, &[], 0).glsl_version(), 140);
    assert_eq!(info((3, 0), false, &[], 0).glsl_version(), 130);
    assert_eq!(info((2, 1), false, &[], 0).glsl_version(), 120);
    assert_eq!(info((2, 0), false, &[], 0).glsl_version(), 110);
    assert_eq!(info((1, 5), false, &[], 0).glsl_version(), 100);
}

#[test]
fn feature_support() {
    assert!(info((3, 1), false, &[], 0).is_baseline_supported());
    assert!(!info((3, 0), false, &[], 0).is_baseline_supported());
    assert!(info((3, 0), false, &["GL_ARB_uniform_buffer_object"], 0).is_baseline_supported());
    assert!(info((3, 3), false, &[], 0).is_timer_query_supported());
    assert!(info((2, 1), false, &["GL_ARB_timer_query"], 0).is_timer_query_supported());
    assert!(!info((3, 2), false, &["GL_ARB_other"], 0).is_timer_query_supported());
}

#[test]
fn ubo_size() {
    assert_eq!(info((3, 3), false, &[], 65536).target_ubo_size(), 65536);
    assert_eq!(info((3, 3), false, &[], 1_000_000).target_ubo_size(), 262144);
    assert_eq!(info((3, 3), false, &[], 16390).target_ubo_size(), 16384);
}

#[test]
fn stream_cursor_wraps() {
    let mut c = StreamCursor::new(64);
    assert_eq!(c.bytes_left(), 64);
    assert_eq!(c.write(32), (0, 32));
    assert_eq!(c.write(16), (32, 48));
    assert_eq!(c.bytes_left(), 16);
    // does not fit in what is left: starts over
    assert_eq!(c.write(32), (0, 32));
    assert_eq!(c.bytes_left(), 32);
}

#[test]
fn texture_buffer_writer() {
    let mut w = GlTextureBufferWriter::new(10, 2);
    assert_eq!(w.pointer(), 2);
    assert_eq!(w.space_left(), 128);
    assert_eq!(w.request(20), 0);
    assert_eq!(w.pointer(), 4);
    assert_eq!(w.request(16), 2);
    assert_eq!(w.space_left(), 80);
    w.mark_full();
    assert_eq!(w.space_left(), 0);
}

#[test]
fn resource_table() {
    let mut t = ResourceTable::new();
    let a = t.insert(10);
    let b = t.insert(20);
    assert_ne!(a, b);
    assert_eq!(t.len(), 2);
    assert_eq!(t.get(a), Some(10));
    assert_eq!(t.get(b), Some(20));
    assert_eq!(t.remove(a), Some(10));
    assert_eq!(t.get(a), None);
    assert_eq!(t.remove(a), None);
    assert_eq!(t.get(b), Some(20));
    let c = t.insert(30);
    // a removed handle never comes back to life
    assert_ne!(c, a);
    assert_eq!(t.get(a), None);
    assert_eq!(t.get(c), Some(30));
    assert_eq!(t.len(), 2);
}

#[test]
fn draw_error_messages() {
    assert_eq!(DrawError::InvalidShader.message(), "command stream contains an invalid shader reference");
    assert_eq!(DrawError::MalformedStream.message(), "command stream is malformed");
    assert_eq!(DrawError::TargetInUse.message(), "attempt to use the destination render target as a texture");
}

#[test]
fn draw_target_texture() {
    let mut texture = 5u32;
    assert!(matches!(DrawTarget::from_texture(&mut texture), DrawTarget::Texture(_)));
}

fn rect(left: u32, top: u32, right: u32, bottom: u32) -> Bounds {
    Bounds { left, right, top, bottom }
}

#[test]
fn quad_bytes_native_order() {
    let q = GpuQuadDescriptor { left: 1, top: 0x0203, right: 4, bottom: 5, shader: 0x0a0b0c0d, offset: 7 };
    let mut expected = Vec::new();
    for v in [1u16, 0x0203, 4, 5] {
        expected.extend_from_slice(&v.to_ne_bytes());
    }
    expected.extend_from_slice(&0x0a0b0c0du32.to_ne_bytes());
    expected.extend_from_slice(&7u32.to_ne_bytes());
    assert_eq!(encode_quads(&vec![q, q]), [expected.clone(), expected].concat());
    assert!(encode_quads(&vec![]).is_empty());
}

#[test]
fn batch_joins_objects() {
    let shader = CompilerShader { index: 3, texture_slots: vec![0] };
    let mut batch = DrawBatch::new();

    batch.push_object_rect(rect(0, 0, 10, 10));
    batch.push_object_data(&[1, 2, 3]);
    batch.push_object_texture(77);
    assert!(batch.push_object(&shader, 1024).is_none());

    batch.push_object_rect(rect(100, 5, 70000, 6));
    batch.push_object_data(&[4; 20]);
    batch.push_object_texture(77);
    assert!(batch.push_object(&shader, 1024).is_none());

    let call = batch.flush().unwrap();
    assert_eq!(call.data.len(), 48);
    assert_eq!(&call.data[0..3], &[1, 2, 3]);
    assert_eq!(&call.data[3..16], &[0; 13]);
    assert_eq!(call.quads.len(), 2);
    assert_eq!(call.quads[0], GpuQuadDescriptor { left: 0, top: 0, right: 10, bottom: 10, shader: 3, offset: 0 });
    // data offsets count 16-byte units; coordinates past 16 bits clamp
    assert_eq!(call.quads[1], GpuQuadDescriptor { left: 100, top: 5, right: 0xffff, bottom: 6, shader: 3, offset: 1 });
    assert_eq!(call.textures, vec![Some(77)]);
    assert!(batch.flush().is_none());
}

#[test]
fn batch_flushes_on_texture_conflict() {
    let shader = CompilerShader { index: 0, texture_slots: vec![1] };
    let mut batch = DrawBatch::new();
    batch.push_object_rect(rect(0, 0, 1, 1));
    batch.push_object_texture(5);
    assert!(batch.push_object(&shader, 4096).is_none());

    batch.push_object_rect(rect(0, 0, 2, 2));
    batch.push_object_texture(6);
    let call = batch.push_object(&shader, 4096).unwrap();
    assert_eq!(call.textures, vec![None, Some(5)]);
    assert_eq!(call.quads.len(), 1);

    let rest = batch.flush().unwrap();
    assert_eq!(rest.textures, vec![None, Some(6)]);
    assert_eq!(rest.quads[0].right, 2);
}

#[test]
fn batch_flushes_when_full() {
    let shader = CompilerShader { index: 0, texture_slots: vec![] };
    let mut batch = DrawBatch::new();
    batch.push_object_rect(rect(0, 0, 1, 1));
    batch.push_object_data(&[0; 16]);
    assert!(batch.push_object(&shader, 64).is_none());

    batch.push_object_rect(rect(0, 0, 1, 1));
    batch.push_object_data(&[0; 16]);
    // 16 + 16 bytes of data and two 16-byte quads exceed 48 bytes
    let call = batch.push_object(&shader, 48).unwrap();
    assert_eq!(call.quads.len(), 1);
    let rest = batch.flush().unwrap();
    assert_eq!(rest.quads[0].offset, 0);
}

#[test]
fn batch_sizes() {
    let mut batch = DrawBatch::new();
    batch.push_object_rect(rect(0, 0, 1, 1));
    batch.push_object_data(&[1, 2, 3]);
    assert_eq!(batch.sizes(), (0, 0, 3, 1));
    let shader = CompilerShader { index: 0, texture_slots: vec![] };
    assert!(batch.push_object(&shader, 1024).is_none());
    assert_eq!(batch.sizes(), (16, 1, 0, 0));
}

#[test]
fn batch_counts_what_it_draws() {
    let shader = CompilerShader { index: 0, texture_slots: vec![0] };
    let mut batch = DrawBatch::new();
    batch.push_object_rect(rect(0, 0, 10, 10));
    batch.push_object_rect(rect(5, 5, 8, 9));
    batch.push_object_data(&[1, 2, 3]);
    batch.push_object_texture(1);
    assert!(batch.push_object(&shader, 4096).is_none());
    // a second object that replaces the bound texture hands out the first call
    batch.push_object_rect(rect(0, 0, 2, 3));
    batch.push_object_texture(2);
    assert!(batch.push_object(&shader, 4096).is_some());
    let c: DrawCounts = batch.take_counts();
    assert_eq!(c.objects, 2);
    assert_eq!(c.pixels, 100 + 12 + 6);
    assert_eq!(c.draw_calls, 1);
    assert_eq!(c.quads, 2);
    assert_eq!(c.bytes, 2 * 16 + 16);
    // the second object is still pending; flushing it counts it
    assert!(batch.flush().is_some());
    let c = batch.take_counts();
    assert_eq!((c.objects, c.pixels, c.draw_calls, c.quads, c.bytes), (0, 0, 1, 1, 16));
    let c = batch.take_counts();
    assert_eq!((c.objects, c.pixels, c.draw_calls, c.quads, c.bytes), (0, 0, 0, 0, 0));
}
