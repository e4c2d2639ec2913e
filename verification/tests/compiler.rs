use picodraw::compiler::analysis::{count_textures, hashcons, process, prune, transpile, GlslExpr, GlslGraph, GlslStmt, GlslType};
use picodraw::compiler::scope::{discover, Scoped};
use picodraw::compiler::codegen::{
    emit_fragment_dispatch, emit_header_version_decl, emit_shader_variable, push_radix,
};
use picodraw::compiler::{CompilerBufferMode, CompilerError, CompilerOptions, GlslCompiler};
use picodraw::shader::{ShaderBuilder, ShaderData, ShaderOp};
use picodraw::texture::TextureFilter;
use picodraw::trace::{boolean, float1, float2, float4, int1, texture2d};

fn lit(x: f32, b: &mut ShaderBuilder) -> float1 {
    float1::from_bits(x.to_bits(), b)
}

fn finish(b: ShaderBuilder, out: float4) -> ShaderData {
    b.finish([out.x().id(), out.y().id(), out.z().id(), out.w().id()])
}

/// The digits of each finite float constant of a shader.
fn float_literals(shader: &ShaderData) -> Vec<(u32, String)> {
    let mut table = Vec::new();
    for (_, op) in shader.iter() {
        if let ShaderOp::FLit(bits) = op {
            let x = f32::from_bits(bits);
            if x.is_finite() {
                table.push((bits, format!("{:?}", x)));
            }
        }
    }
    table
}

fn sdf_circle(pos: float2, center: float2, radius: float1, b: &mut ShaderBuilder) -> float1 {
    let d = center.sub(pos, b).len(b);
    let half = lit(0.5, b);
    let v = radius.sub(d, b).add(half, b);
    let lo = lit(0.0, b);
    let hi = lit(1.0, b);
    v.clamp(lo, hi, b)
}

fn circle_shader() -> ShaderData {
    let mut b = ShaderBuilder::new();
    let x = float1::read_f32(0, &mut b);
    let y = float1::read_f32(4, &mut b);
    let r = float1::read_f32(8, &mut b);
    let q = int1::read_u8(12, &mut b);

    let pos = float2::position(&mut b);
    let mask = sdf_circle(pos, float2::new(x, y), r, &mut b);

    let zero = int1::from_i32(0, &mut b);
    let c0 = q.eq(zero, &mut b);
    let sx = x.sin(&mut b);
    let cy = y.cos(&mut b);
    let one_a = lit(1.0, &mut b);
    let one_b = lit(1.0, &mut b);
    let first = float4::new(sx, cy, one_a, one_b);

    let one = int1::from_i32(1, &mut b);
    let c1 = q.eq(one, &mut b);
    let zf = lit(0.0, &mut b);
    let neg = x.lt(zf, &mut b);
    let xc = x.cos(&mut b);
    let xt = x.tan(&mut b);
    let z = neg.select(xc, xt, &mut b);
    let second = float4::new(z, z, z, z);

    let h1 = lit(0.5, &mut b);
    let h2 = lit(0.5, &mut b);
    let o1 = lit(1.0, &mut b);
    let o2 = lit(1.0, &mut b);
    let third = float4::new(h1, h2, o1, o2);

    let inner = c1.select(second, third, &mut b);
    let color = c0.select(first, inner, &mut b);

    let w1 = lit(1.0, &mut b);
    let w2 = lit(1.0, &mut b);
    let w3 = lit(1.0, &mut b);
    let base = float4::new(w1, w2, w3, mask);
    let out = base.mul(color, &mut b);
    finish(b, out)
}

#[test]
fn test_shader_op() {
    let shader = circle_shader();
    let body = process(&shader);
    assert_eq!(body.num_textures, 0);
    assert!(matches!(body.statements.last(), Some(GlslStmt::ReturnExpr { .. })));
}

#[test]
fn test() {
    let mut b = ShaderBuilder::new();
    let pos = float2::position(&mut b);
    let a = pos.x().sin(&mut b);
    let pos = float2::position(&mut b);
    let bb = pos.y().cos(&mut b);
    let pos = float2::position(&mut b);
    let d = pos.y().cos(&mut b);
    let threshold = lit(0.4, &mut b);
    let cond = a.gt(threshold, &mut b);
    let t1 = a.sub(bb, &mut b);
    let t2 = t1.add(a.sin(&mut b), &mut b);
    let t3 = t2.add(d, &mut b);
    let t4 = t3.add(d, &mut b);
    let e = a.add(bb, &mut b);
    let c = cond.select(t4, e, &mut b);
    let shader = finish(b, float4::new(a, bb, c, c));

    let mut compiler = GlslCompiler::new(CompilerOptions {
        glsl_version: 330,
        texture_units: 16,
        buffer_mode: CompilerBufferMode::TextureBuffer,
    });

    let table = float_literals(&shader);
    let meta = compiler.add_shader(shader, &table).unwrap();
    assert_eq!(meta.index, 0);
    assert!(meta.texture_slots.is_empty());

    let result = compiler.compile();
    assert!(result.vertex.starts_with("#version 330\n"));
    assert!(result.fragment.starts_with("#version 330\n"));
    assert!(result.fragment.contains("case 0:s_0();break;"));
    assert!(result.fragment.contains("0.4"));
}

#[test]
fn compiler_indices_and_removal() {
    let mut compiler = GlslCompiler::new(CompilerOptions {
        glsl_version: 140,
        texture_units: 4,
        buffer_mode: CompilerBufferMode::UniformBlock { size_bytes: 65536 },
    });
    for i in 0..3u32 {
        let mut b = ShaderBuilder::new();
        let v = lit(i as f32, &mut b);
        let shader = finish(b, float4::splat(v));
        let table = float_literals(&shader);
        let meta = compiler.add_shader(shader, &table).unwrap();
        assert_eq!(meta.index, i);
    }
    compiler.remove_shader(1);
    let result = compiler.compile();
    assert!(result.fragment.contains("case 0:s_0();break;case 2:s_2();break;default:"));
    assert!(!result.fragment.contains("case 1:"));
    assert!(result.vertex.starts_with("#version 140\n"));
}

fn texture_shader(count: u32) -> ShaderData {
    let mut b = ShaderBuilder::new();
    let pos = float2::position(&mut b);
    let mut acc = lit(0.0, &mut b);
    for t in 0..count {
        let tex = texture2d(t);
        let v = tex.sample(pos, TextureFilter::Linear, &mut b).x();
        acc = acc.add(v, &mut b);
    }
    finish(b, float4::splat(acc))
}

#[test]
fn compiler_texture_units() {
    let mut compiler = GlslCompiler::new(CompilerOptions {
        glsl_version: 330,
        texture_units: 3,
        buffer_mode: CompilerBufferMode::TextureBuffer,
    });
    let s = texture_shader(2);
    let table = float_literals(&s);
    let first = compiler.add_shader(s, &table).unwrap();
    assert_eq!(first.texture_slots, vec![0, 1]);
    let s = texture_shader(2);
    let table = float_literals(&s);
    let second = compiler.add_shader(s, &table).unwrap();
    assert_eq!(second.texture_slots, vec![2, 0]);

    let s = texture_shader(4);
    let table = float_literals(&s);
    assert!(matches!(compiler.add_shader(s, &table), Err(CompilerError::TooManyTextures)));
}

#[test]
fn texture_count_of_graph() {
    let shader = texture_shader(3);
    let g = transpile(&shader);
    assert_eq!(count_textures(&g), 3);
    let body = process(&shader);
    assert_eq!(body.num_textures, 3);
}

#[test]
fn prune_drops_unused() {
    let mut b = ShaderBuilder::new();
    let a = lit(1.0, &mut b);
    let _unused = a.sin(&mut b);
    let shader = finish(b, float4::splat(a));
    let g = transpile(&shader);
    let p = prune(&g);
    assert!(p.len() < g.len());
    for (_, e, _) in p.iter() {
        assert!(!matches!(e, GlslExpr::Sin(_)));
    }
}

#[test]
fn hashcons_merges_equal_expressions() {
    let mut g = GlslGraph::new();
    let a = g.add(GlslExpr::LitFloat(1.0f32.to_bits()), GlslType::Float1);
    let s1 = g.add(GlslExpr::Sin(a), GlslType::Float1);
    let b = g.add(GlslExpr::LitFloat(1.0f32.to_bits()), GlslType::Float1);
    let s2 = g.add(GlslExpr::Sin(b), GlslType::Float1);
    let sum = g.add(GlslExpr::Add(s1, s2), GlslType::Float1);
    g.add(GlslExpr::Output(sum), GlslType::Float1);
    let h = hashcons(&g);
    assert_eq!(h.len(), 4);
    assert_eq!(h.get(2).0, GlslExpr::Add(1, 1));
    assert_eq!(h.forward(1), vec![2, 2]);
    assert_eq!(h.backward(2), vec![1, 1]);
}

#[test]
fn glsl_graph_links() {
    let mut g = GlslGraph::new();
    let a = g.add(GlslExpr::LitFloat(2.0f32.to_bits()), GlslType::Float1);
    let b = g.add(GlslExpr::Mul(a, a), GlslType::Float1);
    let c = g.add(GlslExpr::Add(b, a), GlslType::Float1);
    assert_eq!(g.forward(a), vec![b, b, c]);
    assert_eq!(g.forward_count(a), 3);
    assert_eq!(g.backward(c), vec![b, a]);
    assert_eq!(g.iter().len(), 3);
}

#[test]
fn radix_text() {
    let mut s = String::new();
    push_radix(&mut s, 255, 16);
    assert_eq!(s, "ff");
    let mut s = String::new();
    push_radix(&mut s, 1209, 10);
    assert_eq!(s, "1209");
    let mut s = String::new();
    push_radix(&mut s, 0, 10);
    assert_eq!(s, "0");
}

#[test]
fn variable_names() {
    let mut s = String::new();
    emit_shader_variable(&mut s, 26, GlslType::Float4);
    assert_eq!(s, "fW1a");
    let mut s = String::new();
    emit_shader_variable(&mut s, 3, GlslType::Bool1);
    assert_eq!(s, "b3");
}

#[test]
fn version_headers() {
    let mut s = String::new();
    emit_header_version_decl(&mut s, 120, CompilerBufferMode::UniformBlock { size_bytes: 1024 });
    assert_eq!(s, "#version 130\n#extension GL_ARB_uniform_buffer_object : require\n");
    let mut s = String::new();
    emit_header_version_decl(&mut s, 150, CompilerBufferMode::TextureBuffer);
    assert_eq!(s, "#version 140\n#extension GL_ARB_shader_bit_encoding : require\n");
}

#[test]
fn dispatch_switch() {
    let mut s = String::new();
    emit_fragment_dispatch(&mut s, &[3, 17]);
    assert_eq!(
        s,
        "void main(){switch(fragType){case 3:s_3();break;case 17:s_11();break;default:outColor=vec4(1.0,0.0,1.0,1.0);break;}}"
    );
}

#[test]
fn boolean_literal_select() {
    let mut b = ShaderBuilder::new();
    let t = boolean::from_bool(true, &mut b);
    let x = lit(2.0, &mut b);
    let y = lit(3.0, &mut b);
    let r = t.select(x, y, &mut b);
    let shader = finish(b, float4::splat(r));
    assert_eq!(shader.get(r.id()), ShaderOp::FSelect(0, 1, 2));
    let body = process(&shader);
    assert_eq!(body.num_textures, 0);
}

#[test]
fn scopes_of_a_branch() {
    let mut g = GlslGraph::new();
    let cond = g.add(GlslExpr::LitBool(true), GlslType::Bool1);
    let two = g.add(GlslExpr::LitFloat(2.0f32.to_bits()), GlslType::Float1);
    let then_v = g.add(GlslExpr::Sin(two), GlslType::Float1);
    let three = g.add(GlslExpr::LitFloat(3.0f32.to_bits()), GlslType::Float1);
    let else_v = g.add(GlslExpr::Cos(three), GlslType::Float1);
    let shared = g.add(GlslExpr::LitFloat(4.0f32.to_bits()), GlslType::Float1);
    let then_w = g.add(GlslExpr::Add(then_v, shared), GlslType::Float1);
    let sel = g.add(GlslExpr::Select(cond, then_w, else_v), GlslType::Float1);
    let sum = g.add(GlslExpr::Add(sel, shared), GlslType::Float1);
    g.add(GlslExpr::Output(sum), GlslType::Float1);

    let parts = discover(&g);
    assert_eq!(parts.len(), 5);
    assert!(matches!(parts[0], Scoped::Expression(0)));
    // the value read outside the branch stays outside
    assert!(matches!(parts[1], Scoped::Expression(5)));
    match &parts[2] {
        Scoped::Branch { condition, outputs, then_nodes, else_nodes } => {
            assert_eq!(*condition, cond);
            assert_eq!(outputs, &vec![(then_w, else_v)]);
            assert_eq!(then_nodes.len(), 3);
            assert!(matches!(then_nodes[0], Scoped::Expression(1)));
            assert!(matches!(then_nodes[1], Scoped::Expression(2)));
            assert!(matches!(then_nodes[2], Scoped::Expression(6)));
            assert_eq!(else_nodes.len(), 2);
            assert!(matches!(else_nodes[0], Scoped::Expression(3)));
            assert!(matches!(else_nodes[1], Scoped::Expression(4)));
        }
        _ => panic!("expected a branch"),
    }
    assert!(matches!(parts[3], Scoped::Expression(8)));
    assert!(matches!(parts[4], Scoped::Expression(9)));
}

#[test]
fn compilable_limits() {
    let mut b = ShaderBuilder::new();
    let v = float1::read_f32(0, &mut b);
    let ok = finish(b, float4::splat(v));
    assert!(picodraw::compiler::compilable(&ok));

    let mut b = ShaderBuilder::new();
    let big = int1(b.add(ShaderOp::ReadU16(0x8000_0000)));
    let f = float1::from_int(big, &mut b);
    let far = finish(b, float4::splat(f));
    assert!(!picodraw::compiler::compilable(&far));
}

#[test]
fn variables_are_reused_once_free() {
    let mut g = GlslGraph::new();
    let a = g.add(GlslExpr::LitFloat(1.0f32.to_bits()), GlslType::Float1);
    let s = g.add(GlslExpr::Sin(a), GlslType::Float1);
    let m = g.add(GlslExpr::Mul(s, s), GlslType::Float1);
    let t = g.add(GlslExpr::Add(m, m), GlslType::Float1);
    let u = g.add(GlslExpr::Mul(t, t), GlslType::Float1);
    g.add(GlslExpr::Output(u), GlslType::Float1);
    let vars = picodraw::compiler::analysis::allocate(&g);
    // the sine's variable is free once the product has read it, and the sum takes it
    assert_eq!(vars.nodes, vec![None, Some(0), Some(1), Some(0), None, None]);
    assert_eq!(vars.counts, vec![(GlslType::Float1, 2)]);
}

#[test]
fn float_literal_texts() {
    let mut b = ShaderBuilder::new();
    let neg = lit(-1.5, &mut b);
    let inf = lit(f32::INFINITY, &mut b);
    let ninf = lit(f32::NEG_INFINITY, &mut b);
    let nan = lit(f32::NAN, &mut b);
    let shader = finish(b, float4::new(neg, inf, ninf, nan));
    let mut compiler = GlslCompiler::new(CompilerOptions {
        glsl_version: 330,
        texture_units: 4,
        buffer_mode: CompilerBufferMode::TextureBuffer,
    });
    let table = float_literals(&shader);
    assert_eq!(table.len(), 1);
    compiler.add_shader(shader, &table).unwrap();
    let fragment = compiler.compile().fragment;
    assert!(fragment.contains("(-1.5)"));
    assert!(fragment.contains("(-4.6e+18)"));
    assert!(fragment.contains("4.6e+18"));
    assert!(fragment.contains("(0.0/0.0)"));
}

#[test]
fn map_deps_identity_and_composition() {
    let e = GlslExpr::Mix(0, 1, 2);
    assert_eq!(e.map_deps(&[0, 1, 2]), e);
    let f = [2u32, 0, 1];
    let g = [10u32, 20, 30];
    let h: Vec<u32> = f.iter().map(|i| g[*i as usize]).collect();
    assert_eq!(e.map_deps(&f).map_deps(&g), e.map_deps(&h));
    assert_eq!(e.map_deps(&f), GlslExpr::Mix(2, 0, 1));
    let s = GlslExpr::Swizzle1(1, 3);
    assert_eq!(s.map_deps(&[5, 6]), GlslExpr::Swizzle1(6, 3));
}
