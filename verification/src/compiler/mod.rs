//! Compilation of shaders into GLSL programs.

pub mod analysis;
pub mod codegen;
pub mod scope;
pub mod serialize;

use vstd::prelude::*;
use crate::compiler::analysis::{GlslShader, body_ok, process, compiled_graph, alloc_upto, textures_used, body_upto,
    declarations, counts_of, reads_in_range, op_slots_in_range, op_texture_slot, simple_stmt, GlslStmt};
use crate::compiler::codegen::{ShaderContext, function_text, emit_shader_function, emit_vertex_program,
    emit_fragment_header, emit_fragment_dispatch, version_text, binding_text, vertex_body, fragment_header_text,
    dispatch_text, dispatch_cases, dec_text, hex_text, finite_bits};
use crate::shader::{ShaderData, ShaderOp};

verus! {

/// Name of the uniform holding the texture samplers.
pub const UNIFORM_TEXTURE_SAMPLERS: &'static str = "uTextures";
/// Name of the uniform holding the render target size.
pub const UNIFORM_FRAME_RESOLUTION: &'static str = "uResolution";
/// Name of the uniform telling whether the target is the screen.
pub const UNIFORM_FRAME_SCREEN: &'static str = "uScreenTarget";
/// Name of the uniform block holding the object data as floats.
pub const UNIFORM_BUFFER_UNIFORM_F32: &'static str = "uBufferF32";
/// Name of the uniform block holding the object data as integers.
pub const UNIFORM_BUFFER_UNIFORM_U32: &'static str = "uBufferU32";
/// Name of the uniform holding the object data as a texture buffer.
pub const UNIFORM_BUFFER_TEXTURE: &'static str = "uBuffer";
/// Name of the uniform holding where the quad list starts in the buffer.
pub const UNIFORM_BUFFER_LIST_OFFSET: &'static str = "uBufferListOffset";
/// Name of the uniform holding where the object data starts in the buffer.
pub const UNIFORM_BUFFER_DATA_OFFSET: &'static str = "uBufferDataOffset";

/// How the object data reaches the shaders.
#[derive(Clone, Copy, Debug, PartialEq, Eq, Structural)]
pub enum CompilerBufferMode {
    /// A uniform block of the given size in bytes.
    UniformBlock { size_bytes: u32 },
    /// A texture buffer.
    TextureBuffer,
}

/// What the generated programs may rely on.
#[derive(Clone, Copy, Debug, PartialEq, Eq, Structural)]
pub struct CompilerOptions {
    /// The GLSL version, as in `#version`.
    pub glsl_version: u32,
    /// How many texture units there are.
    pub texture_units: u32,
    /// How the object data reaches the shaders.
    pub buffer_mode: CompilerBufferMode,
}

/// A shader registered with a compiler: its dispatch index and the texture
/// unit bound to each of its texture slots.
#[derive(Debug)]
pub struct CompilerShader {
    pub index: u32,
    pub texture_slots: Vec<u32>,
}

/// Why a shader could not be compiled.
#[derive(Clone, Copy, Debug, PartialEq, Eq, Structural)]
pub enum CompilerError {
    TooManyTextures,
    InvalidInstructionType { index: u32 },
    InvalidInstructionReference { index: u32 },
    InvalidOutput { index: u32 },
}


/// The vertex and fragment programs of all registered shaders.
pub struct CompilerResult {
    pub vertex: String,
    pub fragment: String,
}

/// Compiles shaders one at a time into functions of one fragment program.
pub struct GlslCompiler {
    options: CompilerOptions,
    shaders: Vec<(u32, String)>,
    dispatch_alloc: u32,
    texture_alloc: u32,
}

/// `body` is what [`process`] makes of `shader`.
pub open spec fn processed(shader: ShaderData, body: GlslShader) -> bool {
    let g = compiled_graph(shader@, shader.outputs());
    let alloc = alloc_upto(g, g.len());
    &&& body.num_textures == textures_used(g, g.len())
    &&& body.expressions@ == body_upto(g, alloc.1, g.len()).0
    &&& body.statements@.map_values(|st: GlslStmt| simple_stmt(st))
        == declarations(counts_of(alloc.0, 7)) + body_upto(g, alloc.1, g.len()).1
    &&& body_ok(body)
}

/// How many texture slots the compiled shader reads.
pub open spec fn added_textures(shader: ShaderData) -> nat {
    let g = compiled_graph(shader@, shader.outputs());
    textures_used(g, g.len())
}

/// The texture units the next `k` texture slots get: each the unit after the
/// previous one, wrapping around the `units` there are.
pub open spec fn unit_sequence(last: u32, units: u32, k: nat) -> Seq<u32>
    decreases k,
{
    if k == 0 {
        Seq::empty()
    } else {
        let prev = unit_sequence(last, units, (k - 1) as nat);
        let before = if k == 1 { last } else { prev.last() };
        prev.push((before.wrapping_add(1) % units) as u32)
    }
}

/// The concatenation of the texts of the first `k` shaders.
pub open spec fn shader_texts(shaders: Seq<(u32, Seq<char>)>, k: nat) -> Seq<char>
    decreases k,
{
    if k == 0 || k > shaders.len() {
        Seq::empty()
    } else {
        shader_texts(shaders, (k - 1) as nat) + shaders[k - 1].1
    }
}

impl GlslCompiler {
    /// The options the compiler was made with.
    pub closed spec fn spec_options(&self) -> CompilerOptions {
        self.options
    }

    /// The registered shaders, in order of registration: index and function text.
    pub closed spec fn spec_shaders(&self) -> Seq<(u32, Seq<char>)> {
        self.shaders@.map_values(|s: (u32, String)| (s.0, s.1@))
    }

    /// The index the next shader gets.
    pub closed spec fn spec_next_index(&self) -> u32 {
        self.dispatch_alloc
    }

    /// The texture unit given out last.
    pub closed spec fn spec_last_unit(&self) -> u32 {
        self.texture_alloc
    }

    /// A compiler with no shaders.
    pub fn new(options: CompilerOptions) -> (c: Self)
        ensures
            c.spec_options() == options,
            c.spec_shaders() == Seq::<(u32, Seq<char>)>::empty(),
            c.spec_next_index() == 0,
            c.spec_last_unit() == u32::MAX,
    {
        let c = GlslCompiler { options, shaders: Vec::new(), dispatch_alloc: 0, texture_alloc: u32::MAX };
        assert(c.spec_shaders() =~= Seq::<(u32, Seq<char>)>::empty());
        c
    }

    /// The options the compiler was made with.
    pub fn options(&self) -> (r: &CompilerOptions)
        ensures
            *r == self.spec_options(),
    {
        &self.options
    }

    /// Compiles a shader into a function of the fragment program, with the
    /// digits of each finite float constant as `float_literals` gives them,
    /// which must hold every such constant of the shader, and registers it
    /// under the next index; its texture slots get the next texture units in turn.
    ///
    /// A shader that reads more textures than there are units is refused.
    /// Shaders that [`process`] leaves out are left out here.
    pub fn add_shader(&mut self, shader: ShaderData, float_literals: &Vec<(u32, String)>) -> (r: Result<CompilerShader, CompilerError>)
        requires
            reads_in_range(shader@),
            op_slots_in_range(shader@),
            shader@.len() < 0x0AAA_AAAB,
            literals_cover(shader@, float_literals@),
        ensures
            r is Err <==> added_textures(shader) > old(self).spec_options().texture_units,
            r matches Err(e) ==> e == CompilerError::TooManyTextures && *final(self) == *old(self),
            r matches Ok(meta) ==> meta.index == old(self).spec_next_index(),
            r matches Ok(meta) ==> meta.texture_slots@ == unit_sequence(old(self).spec_last_unit(),
                old(self).spec_options().texture_units, added_textures(shader) as nat),
            r is Ok ==> final(self).spec_options() == old(self).spec_options(),
            r is Ok ==> final(self).spec_next_index() == old(self).spec_next_index().wrapping_add(1),
            r matches Ok(meta) ==> final(self).spec_last_unit() == (if added_textures(shader) == 0 {
                old(self).spec_last_unit()
            } else {
                meta.texture_slots@.last()
            }),
            r is Ok ==> final(self).spec_shaders().len() == old(self).spec_shaders().len() + 1,
            r is Ok ==> final(self).spec_shaders().drop_last() == old(self).spec_shaders(),
            r matches Ok(meta) ==> final(self).spec_shaders().last().0 == meta.index,
            r matches Ok(meta) ==> exists|body: GlslShader| #[trigger] processed(shader, body)
                && final(self).spec_shaders().last().1 == function_text(ShaderContext {
                    metadata: &meta,
                    expressions: &body.expressions,
                    statements: &body.statements,
                    float_literals: float_literals,
                }),
    {
        let structure = process(&shader);
        if structure.num_textures > self.options.texture_units {
            return Err(CompilerError::TooManyTextures);
        }
        let units = self.options.texture_units;
        let ghost last0 = self.texture_alloc;
        let mut slots: Vec<u32> = Vec::new();
        let mut k: u32 = 0;
        while k < structure.num_textures
            invariant
                k <= structure.num_textures <= units,
                units == self.options.texture_units,
                slots@ == unit_sequence(last0, units, k as nat),
                slots@.len() == k,
                self.options == old(self).options,
                self.dispatch_alloc == old(self).dispatch_alloc,
                self.shaders@ == old(self).shaders@,
                self.texture_alloc == (if k == 0 { last0 } else { slots@.last() }),
            decreases structure.num_textures - k,
        {
            self.texture_alloc = self.texture_alloc.wrapping_add(1) % units;
            slots.push(self.texture_alloc);
            k += 1;
        }
        let meta = CompilerShader { index: self.dispatch_alloc, texture_slots: slots };
        let mut buffer = String::new();
        let ctx = ShaderContext {
            metadata: &meta,
            expressions: &structure.expressions,
            statements: &structure.statements,
            float_literals,
        };
        proof {
            crate::compiler::codegen::lemma_body_context(ctx, structure);
        }
        emit_shader_function(&mut buffer, &ctx);
        let ghost text = buffer@;
        let ghost before = self.spec_shaders();
        self.shaders.push((self.dispatch_alloc, buffer));
        self.dispatch_alloc = self.dispatch_alloc.wrapping_add(1);
        proof {
            assert(self.spec_shaders() =~= before.push((meta.index, text)));
            assert(self.spec_shaders().drop_last() =~= before);
            assert(processed(shader, structure));
            assert(text == function_text(ShaderContext {
                metadata: &meta,
                expressions: &structure.expressions,
                statements: &structure.statements,
                float_literals: float_literals,
            }));
        }
        Ok(meta)
    }

    /// Removes the shader with the given index, if there is one.
    pub fn remove_shader(&mut self, index: u32)
        ensures
            final(self).spec_shaders() == without_index(old(self).spec_shaders(), index, old(self).spec_shaders().len()),
            final(self).spec_options() == old(self).spec_options(),
            final(self).spec_next_index() == old(self).spec_next_index(),
            final(self).spec_last_unit() == old(self).spec_last_unit(),
    {
        let mut kept: Vec<(u32, String)> = Vec::new();
        let ghost all = self.spec_shaders();
        let mut i: usize = 0;
        while i < self.shaders.len()
            invariant
                all == self.spec_shaders(),
                all.len() == self.shaders@.len(),
                i <= all.len(),
                kept@.map_values(|s: (u32, String)| (s.0, s.1@)) == without_index(all, index, i as nat),
            decreases all.len() - i,
        {
            let key = self.shaders[i].0;
            if key != index {
                let text = self.shaders[i].1.clone();
                let ghost before = kept@;
                kept.push((key, text));
                proof {
                    assert(kept@.map_values(|s: (u32, String)| (s.0, s.1@)) =~= before.map_values(|s: (u32, String)| (s.0, s.1@)).push(all[i as int]));
                }
            }
            i += 1;
        }
        self.shaders = kept;
    }

    /// The vertex program, and the fragment program with the functions of all
    /// registered shaders in order of registration and the dispatch between them.
    pub fn compile(&self) -> (r: CompilerResult)
        ensures
            r.vertex@ == version_text(self.spec_options().glsl_version, self.spec_options().buffer_mode)
                + binding_text(self.spec_options().buffer_mode) + vertex_body(),
            r.fragment@ == compiled_fragment(self.spec_options(), self.spec_shaders()),
    {
        let ghost all = self.spec_shaders();
        let mut vertex = String::new();
        let mut fragment = String::new();
        emit_vertex_program(&mut vertex, &self.options);
        emit_fragment_header(&mut fragment, &self.options);
        let ghost head = fragment@;
        let mut indices: Vec<u32> = Vec::new();
        let mut i: usize = 0;
        while i < self.shaders.len()
            invariant
                all == self.spec_shaders(),
                all.len() == self.shaders@.len(),
                i <= all.len(),
                fragment@ == head + shader_texts(all, i as nat),
                indices@ == all.take(i as int).map_values(|s: (u32, Seq<char>)| s.0),
            decreases all.len() - i,
        {
            fragment.append(self.shaders[i].1.as_str());
            indices.push(self.shaders[i].0);
            proof {
                assert(all.take(i as int + 1) =~= all.take(i as int).push(all[i as int]));
                assert(indices@ =~= all.take(i as int + 1).map_values(|s: (u32, Seq<char>)| s.0));
                assert(fragment@ =~= head + shader_texts(all, (i + 1) as nat));
            }
            i += 1;
        }
        proof {
            assert(all.take(i as int) =~= all);
        }
        emit_fragment_dispatch(&mut fragment, indices.as_slice());
        assert(fragment@ =~= fragment_header_text(self.spec_options()) + shader_texts(all, all.len())
            + dispatch_text(all.map_values(|s: (u32, Seq<char>)| s.0)));
        CompilerResult { vertex, fragment }
    }
}

/// The first `k` shaders without the one with the given index.
pub open spec fn without_index(shaders: Seq<(u32, Seq<char>)>, index: u32, k: nat) -> Seq<(u32, Seq<char>)>
    decreases k,
{
    if k == 0 || k > shaders.len() {
        Seq::empty()
    } else {
        let prev = without_index(shaders, index, (k - 1) as nat);
        if shaders[k - 1].0 != index { prev.push(shaders[k - 1]) } else { prev }
    }
}

/// Every texture unit handed out is one of the `units` there are.
pub proof fn lemma_units_in_range(last: u32, units: u32, k: nat)
    requires
        units > 0,
    ensures
        unit_sequence(last, units, k).len() == k,
        forall|j: int| 0 <= j < k ==> #[trigger] unit_sequence(last, units, k)[j] < units,
    decreases k,
{
    if k > 0 {
        lemma_units_in_range(last, units, (k - 1) as nat);
        let prev = unit_sequence(last, units, (k - 1) as nat);
        assert forall|j: int| 0 <= j < k implies #[trigger] unit_sequence(last, units, k)[j] < units by {
            if j < k - 1 {
                assert(unit_sequence(last, units, k)[j] == prev[j]);
            }
        }
    }
}

/// The table holds the digits of every finite float constant of `ops`.
pub open spec fn literals_cover(ops: Seq<ShaderOp>, table: Seq<(u32, String)>) -> bool {
    forall|i: int| 0 <= i < ops.len() ==> match #[trigger] ops[i] {
        ShaderOp::FLit(bits) => finite_bits(bits) ==> exists|j: int| 0 <= j < table.len() && table[j].0 == bits,
        _ => true,
    }
}

/// The fragment program of a compiler with `options` and registered shaders
/// `shaders`: the header, each shader's function, and the dispatch on the
/// shader index.
pub open spec fn compiled_fragment(options: CompilerOptions, shaders: Seq<(u32, Seq<char>)>) -> Seq<char> {
    fragment_header_text(options) + shader_texts(shaders, shaders.len())
        + dispatch_text(shaders.map_values(|s: (u32, Seq<char>)| s.0))
}

/// The branch of the dispatch that calls the function of shader `k`.
pub open spec fn case_text(k: u32) -> Seq<char> {
    "case "@ + dec_text(k as nat) + ":s_"@ + hex_text(k as nat) + "();break;"@
}

/// `t` occurs in `s` as a contiguous part.
pub open spec fn occurs_in(t: Seq<char>, s: Seq<char>) -> bool {
    exists|p: int| 0 <= p && p + t.len() <= s.len() && #[trigger] s.subrange(p, p + t.len()) == t
}

proof fn lemma_dispatch_cases_step(b: Seq<u32>, k: nat)
    requires
        0 < k <= b.len(),
    ensures
        dispatch_cases(b, k) == dispatch_cases(b, (k - 1) as nat) + case_text(b[k - 1]),
{
    assert(dispatch_cases(b, k) =~= dispatch_cases(b, (k - 1) as nat) + case_text(b[k - 1]));
}

proof fn lemma_dispatch_cases_prefix(b: Seq<u32>, m: nat, k: nat)
    requires
        m <= k <= b.len(),
    ensures
        dispatch_cases(b, m).len() <= dispatch_cases(b, k).len(),
        dispatch_cases(b, k).subrange(0, dispatch_cases(b, m).len() as int) == dispatch_cases(b, m),
    decreases k,
{
    if k == m {
        assert(dispatch_cases(b, k).subrange(0, dispatch_cases(b, m).len() as int) =~= dispatch_cases(b, m));
    } else {
        lemma_dispatch_cases_prefix(b, m, (k - 1) as nat);
        lemma_dispatch_cases_step(b, k);
        let prev = dispatch_cases(b, (k - 1) as nat);
        let n = dispatch_cases(b, m).len() as int;
        assert(dispatch_cases(b, k).subrange(0, n) =~= prev.subrange(0, n));
    }
}

/// Every registered shader has its branch in the compiled fragment program.
pub proof fn lemma_registered_shader_dispatched(options: CompilerOptions, shaders: Seq<(u32, Seq<char>)>, s: (u32, Seq<char>))
    requires
        shaders.contains(s),
    ensures
        occurs_in(case_text(s.0), compiled_fragment(options, shaders)),
{
    let j = choose|j: int| 0 <= j < shaders.len() && shaders[j] == s;
    let b = shaders.map_values(|e: (u32, Seq<char>)| e.0);
    assert(b[j] == s.0);
    lemma_dispatch_cases_prefix(b, (j + 1) as nat, b.len());
    lemma_dispatch_cases_step(b, (j + 1) as nat);
    let head = fragment_header_text(options) + shader_texts(shaders, shaders.len()) + "void main(){switch(fragType){"@;
    let cases = dispatch_cases(b, b.len());
    let before = dispatch_cases(b, j as nat);
    let t = case_text(s.0);
    let full = compiled_fragment(options, shaders);
    assert(full =~= head + cases + "default:outColor=vec4(1.0,0.0,1.0,1.0);break;}}"@);
    let bl: int = before.len() as int;
    let tl: int = t.len() as int;
    let p: int = head.len() + bl;
    assert(cases.subrange(bl, bl + tl) =~= t) by {
        assert(cases.subrange(0, bl + tl) == before + t);
        assert(cases.subrange(bl, bl + tl) =~= cases.subrange(0, bl + tl).subrange(bl, bl + tl));
        assert((before + t).subrange(bl, bl + tl) =~= t);
    }
    assert(full.subrange(p, p + tl) =~= t);
}

/// A shader that was just added is dispatched to by every later compilation,
/// until a shader with its index is removed: each removal of another index
/// keeps it registered ([`lemma_removed_shader_gone`]).
pub proof fn lemma_added_shader_dispatched(options: CompilerOptions, before: Seq<(u32, Seq<char>)>,
    after: Seq<(u32, Seq<char>)>, index: u32)
    requires
        after.len() == before.len() + 1,
        after.drop_last() == before,
        after.last().0 == index,
    ensures
        occurs_in(case_text(index), compiled_fragment(options, after)),
{
    assert(after[after.len() - 1] == after.last());
    lemma_registered_shader_dispatched(options, after, after.last());
}

/// Removing a shader by index leaves no shader with that index, and keeps
/// every other shader, in order.
pub proof fn lemma_removed_shader_gone(shaders: Seq<(u32, Seq<char>)>, index: u32, k: nat)
    requires
        k <= shaders.len(),
    ensures
        forall|j: int| 0 <= j < without_index(shaders, index, k).len() ==>
            (#[trigger] without_index(shaders, index, k)[j]).0 != index,
        forall|j: int| 0 <= j < k && shaders[j].0 != index ==>
            without_index(shaders, index, k).contains(#[trigger] shaders[j]),
        without_index(shaders, index, k) == shaders.take(k as int).filter(|s: (u32, Seq<char>)| s.0 != index),
    decreases k,
{
    if k > 0 {
        lemma_removed_shader_gone(shaders, index, (k - 1) as nat);
        let prev = without_index(shaders, index, (k - 1) as nat);
        let cur = without_index(shaders, index, k);
        let f = |s: (u32, Seq<char>)| s.0 != index;
        assert(shaders.take(k as int).drop_last() =~= shaders.take((k - 1) as int));
        shaders.take((k - 1) as int).lemma_filter_push(shaders[k - 1], f);
        assert(shaders.take((k - 1) as int).push(shaders[k - 1]) =~= shaders.take(k as int));
        assert forall|j: int| 0 <= j < k && shaders[j].0 != index implies cur.contains(#[trigger] shaders[j]) by {
            if j < k - 1 {
                let w = choose|w: int| 0 <= w < prev.len() && prev[w] == shaders[j];
                if shaders[k - 1].0 != index {
                    assert(cur[w] == shaders[j]);
                } else {
                    assert(cur[w] == shaders[j]);
                }
            } else {
                assert(cur[cur.len() - 1] == shaders[j]);
            }
        }
    }
}

/// Whether a shader stays within the limits [`GlslCompiler::add_shader`]
/// works in: no 16-bit read at an offset past `0x7fff_ffff`, no texture slot
/// `u32::MAX`, and fewer than `0x0AAA_AAAB` operations (see [`process`]).
pub fn compilable(shader: &ShaderData) -> (b: bool)
    ensures
        b == (reads_in_range(shader@) && op_slots_in_range(shader@) && shader@.len() < 0x0AAA_AAAB),
{
    proof {
        use_type_invariant(shader);
    }
    let n = shader.len();
    if n >= 0x0AAA_AAAB {
        return false;
    }
    let mut i: u32 = 0;
    while i < n
        invariant
            i <= n,
            n == shader@.len(),
            forall|k: int| 0 <= k < i ==> (#[trigger] shader@[k] matches ShaderOp::ReadU16(o) ==> o <= 0x7fff_ffffu32),
            forall|k: int| 0 <= k < i ==> (#[trigger] op_texture_slot(shader@[k])) != Some(u32::MAX),
        decreases n - i,
    {
        let op = shader.get(i);
        assert(shader@[i as int] == op);
        match op {
            ShaderOp::ReadU16(o) => {
                if o > 0x7fff_ffff {
                    return false;
                }
            },
            ShaderOp::TexW(t) | ShaderOp::TexH(t) | ShaderOp::TexSample(t, _, _, _, _) => {
                if t == u32::MAX {
                    assert(op_texture_slot(shader@[i as int]) == Some(u32::MAX));
                    return false;
                }
            },
            _ => {},
        }
        i += 1;
    }
    true
}

} // verus!
