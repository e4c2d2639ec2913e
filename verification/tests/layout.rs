use picodraw::compiler::serialize::{encode, take_offset, ShaderDataLayout};
use picodraw::graph::op::{OpInput, OpValue};
use picodraw::graph::{Graph, GraphBuilder};

fn inputs_graph(inputs: &[OpInput]) -> Graph {
    let mut b = GraphBuilder::new();
    let first = b.push(OpValue::Input(OpInput::F32)).unwrap();
    for i in inputs {
        b.push(OpValue::Input(*i)).unwrap();
    }
    let out = b.push(OpValue::Splat4(first)).unwrap();
    b.finish(out).unwrap()
}

#[test]
fn layout_packs_values() {
    let g = inputs_graph(&[OpInput::U8, OpInput::I16, OpInput::TextureStatic, OpInput::U32, OpInput::TextureRender]);
    let layout = ShaderDataLayout::new(&g, 7, 2, 3);
    assert_eq!(
        layout.inputs,
        vec![(0, OpInput::F32), (4, OpInput::U8), (6, OpInput::I16), (8, OpInput::U32)]
    );
    // texture units continue after the start and wrap around the limit
    assert_eq!(layout.textures, vec![2, 0]);
    assert_eq!(layout.size, 16);
    assert_eq!(layout.branch_id, 7);
}

#[test]
fn layout_fills_gaps() {
    let g = inputs_graph(&[OpInput::U8, OpInput::U32, OpInput::U8, OpInput::U16, OpInput::I8]);
    let layout = ShaderDataLayout::new(&g, 0, 0, 16);
    assert_eq!(
        layout.inputs,
        vec![
            (0, OpInput::F32),
            (4, OpInput::U8),
            (8, OpInput::U32),
            (5, OpInput::U8),
            (6, OpInput::U16),
            (12, OpInput::I8),
        ]
    );
    assert_eq!(layout.size, 16);
}

#[test]
fn layout_size_rounds_up() {
    let many = [OpInput::F32; 4];
    let g = inputs_graph(&many);
    let layout = ShaderDataLayout::new(&g, 1, 0, 1);
    assert_eq!(layout.inputs.len(), 5);
    assert_eq!(layout.size, 32);
    assert!(layout.textures.is_empty());
}

#[test]
fn offsets_first_fit() {
    let mut bitmap = Vec::new();
    assert_eq!(take_offset(&mut bitmap, 0, 4), 0);
    assert!(bitmap.is_empty());
    assert_eq!(take_offset(&mut bitmap, 1, 1), 0);
    assert_eq!(take_offset(&mut bitmap, 2, 2), 2);
    assert_eq!(take_offset(&mut bitmap, 1, 1), 1);
    assert_eq!(take_offset(&mut bitmap, 4, 4), 4);
    assert_eq!(bitmap, vec![true; 8]);
}

#[test]
fn encode_writes_native_bytes() {
    let g = inputs_graph(&[OpInput::U8, OpInput::I16, OpInput::U32]);
    let layout = ShaderDataLayout::new(&g, 0, 0, 1);
    let mut dst = vec![0xaau8; 16];
    let stream = [1.5f32.to_bits(), 0x1ff, 0xfffe_1234, 42];
    assert_eq!(encode(&mut dst, &layout, &stream), Ok(()));
    assert_eq!(&dst[0..4], &1.5f32.to_ne_bytes());
    assert_eq!(dst[4], 0xff);
    assert_eq!(dst[5], 0xaa);
    assert_eq!(&dst[6..8], &0x1234u16.to_ne_bytes());
    assert_eq!(&dst[8..12], &42u32.to_ne_bytes());
    assert_eq!(&dst[12..16], &[0xaa; 4]);
}

#[test]
fn encode_rejects_wrong_length() {
    let g = inputs_graph(&[OpInput::U8]);
    let layout = ShaderDataLayout::new(&g, 0, 0, 1);
    let mut dst = vec![0u8; 16];
    assert_eq!(encode(&mut dst, &layout, &[1]), Err(()));
    // what came before the end is written
    assert_eq!(&dst[0..4], &1u32.to_ne_bytes());
    assert_eq!(encode(&mut dst, &layout, &[1, 2, 3]), Err(()));
}

#[test]
fn encode_rejects_textures() {
    let layout = ShaderDataLayout {
        inputs: vec![(0, OpInput::U8), (4, OpInput::TextureStatic)],
        textures: vec![],
        size: 16,
        branch_id: 0,
    };
    let mut dst = vec![0u8; 16];
    assert_eq!(encode(&mut dst, &layout, &[9, 9]), Err(()));
    assert_eq!(dst[0], 9);
}
