use picodraw::shader::{ShaderBuilder, ShaderOp};
use picodraw::trace::{boolean, float1, float2, float4, int1};

fn finish(b: ShaderBuilder, out: float4) -> picodraw::shader::ShaderData {
    b.finish([out.x().id(), out.y().id(), out.z().id(), out.w().id()])
}

#[test]
fn trace_simple() {
    let mut b = ShaderBuilder::new();
    let a = float1::from_bits(0.0f32.to_bits(), &mut b);
    let one = float1::from_bits(1.0f32.to_bits(), &mut b);
    let c = a.add(one, &mut b);
    let d = a.sub(one, &mut b);
    let sin = c.sin(&mut b);
    let cos = c.cos(&mut b);
    let abs = d.abs(&mut b);
    let shader = finish(b, float4::new(c, sin, cos, abs));

    assert_eq!(
        shader.iter().into_iter().map(|x| x.1).collect::<Vec<_>>(),
        vec![
            ShaderOp::FLit(0.0f32.to_bits()),
            ShaderOp::FLit(1.0f32.to_bits()),
            ShaderOp::FAdd(0, 1),
            ShaderOp::FSub(0, 1),
            ShaderOp::Sin(2),
            ShaderOp::Cos(2),
            ShaderOp::FAbs(3),
        ]
    );

    assert!(!shader.is_empty());
    assert_eq!(shader.len(), 7);
    assert_eq!(shader.output(), [2, 4, 5, 6]);
}

#[test]
fn trace_literal() {
    let mut b = ShaderBuilder::new();
    let float = float1::from_bits(42.0f32.to_bits(), &mut b);
    let bool = boolean::from_bool(true, &mut b);
    let int = int1::from_i32(64, &mut b);
    let dynamic = float2::position(&mut b).x();

    assert_eq!(float.as_lit(&b), Some(42.0f32.to_bits()));
    assert_eq!(bool.as_lit(&b), Some(true));
    assert_eq!(int.as_lit(&b), Some(64));
    assert_eq!(dynamic.as_lit(&b), None);

    finish(b, float4::splat(float));
}

#[test]
fn atan2_reads_rhs_over_self() {
    let mut b = ShaderBuilder::new();
    let x = float1::from_bits(1.0f32.to_bits(), &mut b);
    let y = float1::from_bits(2.0f32.to_bits(), &mut b);
    let r = x.atan2(y, &mut b);
    assert_eq!(b.get(r.id()), ShaderOp::Atan2(y.id(), x.id()));
}

#[test]
fn aligned_reads() {
    let mut b = ShaderBuilder::new();
    let h = int1::read_u16(6, &mut b);
    let w = int1::read_i32(8, &mut b);
    assert_eq!(b.get(h.id()), ShaderOp::ReadU16(3));
    assert_eq!(b.get(w.id()), ShaderOp::ReadI32(2));
}

#[test]
fn get_gives_back_what_add_recorded() {
    let mut b = ShaderBuilder::new();
    let first = b.add(ShaderOp::FLit(1.0f32.to_bits()));
    let later = b.add(ShaderOp::FLit(2.0f32.to_bits()));
    b.add(ShaderOp::FAdd(first, later));
    assert_eq!(b.get(first), ShaderOp::FLit(1.0f32.to_bits()));
    assert_eq!(b.get(later), ShaderOp::FLit(2.0f32.to_bits()));
    assert_eq!(b.len(), 3);
}

#[test]
fn float_constants_compare_as_floats() {
    let nan = f32::NAN.to_bits();
    assert_ne!(ShaderOp::FLit(nan), ShaderOp::FLit(nan));
    assert_eq!(ShaderOp::FLit(0.0f32.to_bits()), ShaderOp::FLit((-0.0f32).to_bits()));
    assert_eq!(ShaderOp::FLit(1.5f32.to_bits()), ShaderOp::FLit(1.5f32.to_bits()));
    assert_ne!(ShaderOp::FLit(1.5f32.to_bits()), ShaderOp::FLit(2.5f32.to_bits()));
    assert_eq!(ShaderOp::FAdd(1, 2), ShaderOp::FAdd(1, 2));
    assert_ne!(ShaderOp::FAdd(1, 2), ShaderOp::FSub(1, 2));
    assert_ne!(ShaderOp::FAdd(1, 2), ShaderOp::FAdd(2, 1));
}
