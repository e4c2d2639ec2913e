use picodraw::dataflow;
use picodraw::dataflow::{Float, Op, OpDynamic};
use picodraw::graph::op::{OpAddr, OpInput, OpLiteral, OpType, OpValue};
use picodraw::graph::{GraphBuilder, GraphError};

fn push(b: &mut GraphBuilder, v: OpValue) -> OpAddr {
    b.push(v).unwrap()
}

#[test]
fn builder_types_and_links() {
    let mut b = GraphBuilder::new();
    let pos = push(&mut b, OpValue::Position);
    let one = push(&mut b, OpValue::Literal(OpLiteral::Float(1.0f32.to_bits())));
    let x = push(&mut b, OpValue::ExtractX(pos));
    let sum = push(&mut b, OpValue::Add(x, one));
    let twice = push(&mut b, OpValue::Mul(sum, sum));
    let color = push(&mut b, OpValue::Vec4(twice, x, one, one));
    assert_eq!(color, OpAddr(5));

    let g = b.finish(color).unwrap();
    assert_eq!(g.len(), 6);
    assert_eq!(g.output(), color);
    assert_eq!(g.type_of(pos), OpType::F2);
    assert_eq!(g.type_of(x), OpType::F1);
    assert_eq!(g.type_of(color), OpType::F4);
    assert_eq!(g.value_of(sum), OpValue::Add(x, one));
    assert_eq!(g.dependencies_of(color), vec![twice, x, one, one]);
    assert_eq!(g.dependents_of(one), vec![sum, color, color]);
    assert_eq!(g.dependents_of(sum), vec![twice, twice]);
    assert!(g.dependents_of(color).is_empty());
    assert_eq!(g.iter(), vec![OpAddr(0), OpAddr(1), OpAddr(2), OpAddr(3), OpAddr(4), OpAddr(5)]);
}

#[test]
fn builder_errors() {
    let mut b = GraphBuilder::new();
    let f = push(&mut b, OpValue::Literal(OpLiteral::Float(2.0f32.to_bits())));
    let i = push(&mut b, OpValue::Literal(OpLiteral::Int(3)));

    assert_eq!(b.push(OpValue::Add(f, OpAddr(7))), Err(GraphError::InvalidReference { index: 1 }));
    assert_eq!(b.push(OpValue::Add(OpAddr(9), OpAddr(7))), Err(GraphError::InvalidReference { index: 0 }));
    assert_eq!(b.push(OpValue::Add(f, i)), Err(GraphError::InvalidType));
    assert_eq!(b.push(OpValue::Sin(i)), Err(GraphError::InvalidType));
    // failed pushes add nothing
    assert_eq!(b.push(OpValue::Sin(f)), Ok(OpAddr(2)));

    assert!(matches!(b.finish(OpAddr(2)), Err(GraphError::InvalidType)));
}

#[test]
fn finish_checks_output() {
    let b = GraphBuilder::new();
    assert!(matches!(b.finish(OpAddr(0)), Err(GraphError::InvalidReference { index: 0 })));
}

#[test]
fn error_messages() {
    assert_eq!(
        GraphError::InvalidReference { index: 12 }.message(),
        "argument #12 refers to an invalid operation"
    );
    assert_eq!(GraphError::InvalidType.message(), "failed to infer the type of the operation");
}

#[test]
fn equal_graphs_hash_equal() {
    let build = |nan: u32| {
        let mut b = GraphBuilder::new();
        let v = push(&mut b, OpValue::Literal(OpLiteral::Float(nan)));
        let c = push(&mut b, OpValue::Splat4(v));
        b.finish(c).unwrap()
    };
    // every float that is not a number hashes alike
    assert_eq!(build(0x7fc0_0000).hash(), build(0x7f80_0001).hash());
    assert_ne!(build(1.0f32.to_bits()).hash(), build(2.0f32.to_bits()).hash());
}

#[test]
fn nan_literals_compare_equal() {
    assert_eq!(OpLiteral::Float(0x7fc0_0000), OpLiteral::Float(0xffc0_0001));
    assert_ne!(OpLiteral::Float(0), OpLiteral::Float(0x8000_0000));
    assert_ne!(OpLiteral::Int(1), OpLiteral::Bool(true));
}

#[test]
fn op_dependencies() {
    let v = OpValue::Clamp(OpAddr(1), OpAddr(2), OpAddr(3));
    assert_eq!(v.iter_dependencies(), vec![OpAddr(1), OpAddr(2), OpAddr(3)]);
    assert_eq!(v.index_dependency(2), Some(OpAddr(3)));
    assert_eq!(v.index_dependency(3), None);
    assert_eq!(OpValue::Position.index_dependency(0), None);
}

#[test]
fn op_types() {
    assert!(OpType::F3.is_float() && OpType::F3.is_numeric() && !OpType::F3.is_int());
    assert!(OpType::I2.is_int());
    assert!(OpType::TextureRender.is_texture());
    assert!(!OpType::Boolean.is_numeric());
    assert_eq!(OpType::F4.size(), 4);
    assert_eq!(OpType::I1.size(), 1);
    assert_eq!(OpInput::U8.value_type(), OpType::I1);
    assert_eq!(OpInput::F32.value_type(), OpType::F1);
    assert_eq!(OpAddr::from_raw(7).into_raw(), 7);
}

#[test]
fn type_check_rules() {
    let types = [OpType::F2, OpType::F1, OpType::Boolean];
    assert_eq!(OpValue::Dot(OpAddr(0), OpAddr(0)).type_check(&types), Some(OpType::F1));
    assert_eq!(OpValue::Select(OpAddr(2), OpAddr(1), OpAddr(1)).type_check(&types), Some(OpType::F1));
    assert_eq!(OpValue::Select(OpAddr(1), OpAddr(1), OpAddr(1)).type_check(&types), None);
    assert_eq!(OpValue::Vec2(OpAddr(1), OpAddr(1)).type_check(&types), Some(OpType::F2));
    assert_eq!(OpValue::Lt(OpAddr(1), OpAddr(1)).type_check(&types), Some(OpType::Boolean));
    assert_eq!(OpValue::Sin(OpAddr(5)).type_check(&types), None);
}

#[test]
fn dataflow_resolve() {
    let mut g = dataflow::Graph::empty();
    let pos = g.push(Op::Position);
    let lit = g.push(Op::LiteralFloat(Float(0.5f32.to_bits())));
    let half = g.push(Op::Splat2(lit));
    let sum = g.push(Op::Add(pos, half));
    let res = g.push(Op::Resolution);
    let scaled = g.push(Op::Mul(sum, res));
    let infos = g.resolve();
    assert_eq!(infos.len(), 6);
    assert_eq!(infos[half.0 as usize].ty, dataflow::OpType::F2);
    assert_eq!(infos[half.0 as usize].dynamic, OpDynamic::Const);
    assert_eq!(infos[sum.0 as usize].dynamic, OpDynamic::PerPixel);
    assert_eq!(infos[scaled.0 as usize].dependencies, vec![sum, res]);
    assert_eq!(infos[lit.0 as usize].dependents, vec![half]);
    assert_eq!(infos[res.0 as usize].dependents, vec![scaled]);
    assert_eq!(g.iter().len(), 6);
}

#[test]
fn dynamic_join() {
    assert_eq!(OpDynamic::Const & OpDynamic::PerFrame, OpDynamic::PerFrame);
    assert_eq!(OpDynamic::PerObject & OpDynamic::PerFrame, OpDynamic::PerObject);
    assert_eq!(OpDynamic::PerPixel & OpDynamic::Const, OpDynamic::PerPixel);
    assert_eq!(OpDynamic::Const & OpDynamic::Const, OpDynamic::Const);
}
