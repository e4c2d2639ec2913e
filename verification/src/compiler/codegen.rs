//! GLSL source text for compiled shaders: the program headers, the vertex
//! program, the fragment dispatch, and one function per shader.

use vstd::prelude::*;
use crate::compiler::analysis::{GlslExpr, GlslShader, GlslStmt, GlslType, body_ok, expr_deps, refs_ok, texture_slot};
use crate::compiler::{CompilerBufferMode, CompilerOptions, CompilerShader};
use crate::texture::TextureFilter;

verus! {

/// `String::push` appends one character to the end of the string.
pub assume_specification[ String::push ](string: &mut String, ch: char)
    ensures
        final(string)@ == old(string)@.push(ch),
;

/// The character of a digit below 16, lower case.
pub open spec fn digit_char(d: nat) -> char {
    if d == 0 { '0' } else if d == 1 { '1' } else if d == 2 { '2' } else if d == 3 { '3' } else if d == 4 { '4' }
    else if d == 5 { '5' } else if d == 6 { '6' } else if d == 7 { '7' } else if d == 8 { '8' } else if d == 9 { '9' }
    else if d == 10 { 'a' } else if d == 11 { 'b' } else if d == 12 { 'c' } else if d == 13 { 'd' } else if d == 14 { 'e' }
    else { 'f' }
}

/// The digits of `n` in `base` (2 to 16), most significant first.
pub open spec fn radix_text(n: nat, base: nat) -> Seq<char>
    decreases n,
{
    if n < base || base < 2 {
        seq![digit_char(n)]
    } else {
        proof {
            assert(n / base < n) by (nonlinear_arith)
                requires
                    n >= base,
                    base >= 2,
            ;
        }
        radix_text(n / base, base).push(digit_char(n % base))
    }
}

/// `n` in decimal.
pub open spec fn dec_text(n: nat) -> Seq<char> {
    radix_text(n, 10)
}

/// `n` in lower-case hexadecimal.
pub open spec fn hex_text(n: nat) -> Seq<char> {
    radix_text(n, 16)
}

fn digit(d: u32) -> (c: char)
    requires
        d < 16,
    ensures
        c == digit_char(d as nat),
{
    if d == 0 { '0' } else if d == 1 { '1' } else if d == 2 { '2' } else if d == 3 { '3' } else if d == 4 { '4' }
    else if d == 5 { '5' } else if d == 6 { '6' } else if d == 7 { '7' } else if d == 8 { '8' } else if d == 9 { '9' }
    else if d == 10 { 'a' } else if d == 11 { 'b' } else if d == 12 { 'c' } else if d == 13 { 'd' } else if d == 14 { 'e' }
    else { 'f' }
}

/// Appends `n` written in `base`.
pub fn push_radix(buffer: &mut String, n: u32, base: u32)
    requires
        2 <= base <= 16,
    ensures
        final(buffer)@ == old(buffer)@ + radix_text(n as nat, base as nat),
    decreases n,
{
    if n < base {
        buffer.push(digit(n));
    } else {
        assert(n / base < n) by (nonlinear_arith)
            requires
                n >= base,
                base >= 2,
        ;
        push_radix(buffer, n / base, base);
        buffer.push(digit(n % base));
    }
}

/// The text of an integer literal: negative values in parentheses.
pub open spec fn int_text(x: i32) -> Seq<char> {
    if x >= 0 {
        dec_text(x as nat)
    } else {
        "("@ + "-"@ + dec_text((-x) as nat) + ")"@
    }
}

fn push_int(buffer: &mut String, x: i32)
    ensures
        final(buffer)@ == old(buffer)@ + int_text(x),
{
    if x >= 0 {
        push_radix(buffer, x as u32, 10);
    } else {
        let magnitude: u32 = (-(x as i64)) as u32;
        buffer.append("(");
        buffer.append("-");
        push_radix(buffer, magnitude, 10);
        buffer.append(")");
        assert(final(buffer)@ =~= old(buffer)@ + ("("@ + "-"@ + dec_text((-x) as nat) + ")"@));
    }
}

/// The prefix of the name of a variable of type `t`.
pub open spec fn var_prefix(t: GlslType) -> Seq<char> {
    match t {
        GlslType::Bool1 => "b"@,
        GlslType::Int1 => "i"@,
        GlslType::Int2 => "iY"@,
        GlslType::Int4 => "iW"@,
        GlslType::Float1 => "f"@,
        GlslType::Float2 => "fY"@,
        GlslType::Float4 => "fW"@,
    }
}

/// The name of variable `register` of type `t`.
pub open spec fn var_text(register: u32, t: GlslType) -> Seq<char> {
    var_prefix(t) + hex_text(register as nat)
}

/// Appends the name of a variable.
pub fn emit_shader_variable(buffer: &mut String, register: u32, type_: GlslType)
    ensures
        final(buffer)@ == old(buffer)@ + var_text(register, type_),
{
    match type_ {
        GlslType::Bool1 => buffer.append("b"),
        GlslType::Int1 => buffer.append("i"),
        GlslType::Int2 => buffer.append("iY"),
        GlslType::Int4 => buffer.append("iW"),
        GlslType::Float1 => buffer.append("f"),
        GlslType::Float2 => buffer.append("fY"),
        GlslType::Float4 => buffer.append("fW"),
    }
    push_radix(buffer, register, 16);
}

/// The GLSL name of a type.
pub open spec fn glsl_type_text(t: GlslType) -> Seq<char> {
    match t {
        GlslType::Bool1 => "bool"@,
        GlslType::Int1 => "int"@,
        GlslType::Int2 => "ivec2"@,
        GlslType::Int4 => "ivec4"@,
        GlslType::Float1 => "float"@,
        GlslType::Float2 => "vec2"@,
        GlslType::Float4 => "vec4"@,
    }
}

fn glsl_type_text_exec(t: GlslType) -> (s: &'static str)
    ensures
        s@ == glsl_type_text(t),
{
    match t {
        GlslType::Bool1 => "bool",
        GlslType::Int1 => "int",
        GlslType::Int2 => "ivec2",
        GlslType::Int4 => "ivec4",
        GlslType::Float1 => "float",
        GlslType::Float2 => "vec2",
        GlslType::Float4 => "vec4",
    }
}

/// The operator of an expression written between its two operands.
pub open spec fn infix_op(e: GlslExpr) -> Option<Seq<char>> {
    match e {
        GlslExpr::Add(_, _) => Some("+"@),
        GlslExpr::Sub(_, _) => Some("-"@),
        GlslExpr::Mul(_, _) => Some("*"@),
        GlslExpr::Div(_, _) => Some("/"@),
        GlslExpr::IRem(_, _) => Some("%"@),
        GlslExpr::BAnd(_, _) => Some("&&"@),
        GlslExpr::BOr(_, _) => Some("||"@),
        GlslExpr::IXor(_, _) => Some("^"@),
        GlslExpr::IAnd(_, _) => Some("&"@),
        GlslExpr::IOr(_, _) => Some("|"@),
        GlslExpr::IShl(_, _) => Some("<<"@),
        GlslExpr::IShr(_, _) => Some(">>"@),
        GlslExpr::Eq(_, _) => Some("=="@),
        GlslExpr::Ne(_, _) => Some("!="@),
        GlslExpr::Lt(_, _) => Some("<"@),
        GlslExpr::Gt(_, _) => Some(">"@),
        GlslExpr::Le(_, _) => Some("<="@),
        GlslExpr::Ge(_, _) => Some(">="@),
        _ => None,
    }
}

fn infix_op_exec(e: GlslExpr) -> (r: Option<&'static str>)
    ensures
        r is Some <==> infix_op(e) is Some,
        r matches Some(s) ==> s@ == infix_op(e)->0,
{
    match e {
        GlslExpr::Add(_, _) => Some("+"),
        GlslExpr::Sub(_, _) => Some("-"),
        GlslExpr::Mul(_, _) => Some("*"),
        GlslExpr::Div(_, _) => Some("/"),
        GlslExpr::IRem(_, _) => Some("%"),
        GlslExpr::BAnd(_, _) => Some("&&"),
        GlslExpr::BOr(_, _) => Some("||"),
        GlslExpr::IXor(_, _) => Some("^"),
        GlslExpr::IAnd(_, _) => Some("&"),
        GlslExpr::IOr(_, _) => Some("|"),
        GlslExpr::IShl(_, _) => Some("<<"),
        GlslExpr::IShr(_, _) => Some(">>"),
        GlslExpr::Eq(_, _) => Some("=="),
        GlslExpr::Ne(_, _) => Some("!="),
        GlslExpr::Lt(_, _) => Some("<"),
        GlslExpr::Gt(_, _) => Some(">"),
        GlslExpr::Le(_, _) => Some("<="),
        GlslExpr::Ge(_, _) => Some(">="),
        _ => None,
    }
}

/// The operator of an expression written before its operand.
pub open spec fn prefix_op(e: GlslExpr) -> Option<Seq<char>> {
    match e {
        GlslExpr::Neg(_) => Some("-"@),
        GlslExpr::INot(_) => Some("~"@),
        GlslExpr::BNot(_) => Some("!"@),
        _ => None,
    }
}

fn prefix_op_exec(e: GlslExpr) -> (r: Option<&'static str>)
    ensures
        r is Some <==> prefix_op(e) is Some,
        r matches Some(s) ==> s@ == prefix_op(e)->0,
{
    match e {
        GlslExpr::Neg(_) => Some("-"),
        GlslExpr::INot(_) => Some("~"),
        GlslExpr::BNot(_) => Some("!"),
        _ => None,
    }
}

/// The function that computes an expression of one operand.
pub open spec fn fun1_name(e: GlslExpr) -> Option<Seq<char>> {
    match e {
        GlslExpr::Abs(_) => Some("abs"@),
        GlslExpr::Sign(_) => Some("sign"@),
        GlslExpr::Sin(_) => Some("sin"@),
        GlslExpr::Cos(_) => Some("cos"@),
        GlslExpr::Tan(_) => Some("tan"@),
        GlslExpr::Asin(_) => Some("asin"@),
        GlslExpr::Acos(_) => Some("acos"@),
        GlslExpr::Atan(_) => Some("atan"@),
        GlslExpr::Sqrt(_) => Some("sqrt"@),
        GlslExpr::Log(_) => Some("log"@),
        GlslExpr::Exp(_) => Some("exp"@),
        GlslExpr::Floor(_) => Some("floor"@),
        GlslExpr::DerivX(_) => Some("dFdx"@),
        GlslExpr::DerivY(_) => Some("dFdy"@),
        GlslExpr::AsFloat(_) => Some("float"@),
        GlslExpr::AsInt(_) => Some("int"@),
        _ => None,
    }
}

fn fun1_name_exec(e: GlslExpr) -> (r: Option<&'static str>)
    ensures
        r is Some <==> fun1_name(e) is Some,
        r matches Some(s) ==> s@ == fun1_name(e)->0,
{
    match e {
        GlslExpr::Abs(_) => Some("abs"),
        GlslExpr::Sign(_) => Some("sign"),
        GlslExpr::Sin(_) => Some("sin"),
        GlslExpr::Cos(_) => Some("cos"),
        GlslExpr::Tan(_) => Some("tan"),
        GlslExpr::Asin(_) => Some("asin"),
        GlslExpr::Acos(_) => Some("acos"),
        GlslExpr::Atan(_) => Some("atan"),
        GlslExpr::Sqrt(_) => Some("sqrt"),
        GlslExpr::Log(_) => Some("log"),
        GlslExpr::Exp(_) => Some("exp"),
        GlslExpr::Floor(_) => Some("floor"),
        GlslExpr::DerivX(_) => Some("dFdx"),
        GlslExpr::DerivY(_) => Some("dFdy"),
        GlslExpr::AsFloat(_) => Some("float"),
        GlslExpr::AsInt(_) => Some("int"),
        _ => None,
    }
}

/// The function that computes an expression of two operands.
pub open spec fn fun2_name(e: GlslExpr) -> Option<Seq<char>> {
    match e {
        GlslExpr::Min(_, _) => Some("min"@),
        GlslExpr::Max(_, _) => Some("max"@),
        GlslExpr::Pow(_, _) => Some("pow"@),
        GlslExpr::Atan2(_, _) => Some("atan"@),
        GlslExpr::FRem(_, _) => Some("mod"@),
        _ => None,
    }
}

fn fun2_name_exec(e: GlslExpr) -> (r: Option<&'static str>)
    ensures
        r is Some <==> fun2_name(e) is Some,
        r matches Some(s) ==> s@ == fun2_name(e)->0,
{
    match e {
        GlslExpr::Min(_, _) => Some("min"),
        GlslExpr::Max(_, _) => Some("max"),
        GlslExpr::Pow(_, _) => Some("pow"),
        GlslExpr::Atan2(_, _) => Some("atan"),
        GlslExpr::FRem(_, _) => Some("mod"),
        _ => None,
    }
}

/// What the text of a shader function is written from: the shader's
/// metadata, the expression standing for each graph entry, the statements,
/// and the digits of each finite float constant by its bit pattern (the
/// shortest text that reads back as that float, with its sign).
pub struct ShaderContext<'a> {
    pub metadata: &'a CompilerShader,
    pub expressions: &'a Vec<Option<GlslExpr>>,
    pub statements: &'a Vec<GlslStmt>,
    pub float_literals: &'a Vec<(u32, String)>,
}

/// The digits of the float constant with bit pattern `bits`: the first entry
/// of the table with those bits, or nothing.
pub open spec fn float_text(table: Seq<(u32, String)>, bits: u32) -> Seq<char>
    decreases table.len(),
{
    if table.len() == 0 {
        Seq::empty()
    } else if table[0].0 == bits {
        table[0].1@
    } else {
        float_text(table.drop_first(), bits)
    }
}

/// The GLSL text of the float constant with bit pattern `bits`: infinities
/// become a large finite value, a NaN becomes `0.0/0.0`, and a finite value is
/// its digits, in parentheses when its sign bit is set.
pub open spec fn float_lit_text(table: Seq<(u32, String)>, bits: u32) -> Seq<char> {
    if bits == 0x7f80_0000 {
        "4.6e+18"@
    } else if bits == 0xff80_0000 {
        "(-4.6e+18)"@
    } else if bits % 0x8000_0000 > 0x7f80_0000 {
        "(0.0/0.0)"@
    } else if bits < 0x8000_0000 {
        float_text(table, bits)
    } else {
        "("@ + float_text(table, bits) + ")"@
    }
}

/// Whether `bits` is the pattern of a finite float.
pub open spec fn finite_bits(bits: u32) -> bool {
    bits % 0x8000_0000 < 0x7f80_0000
}

fn push_float(buffer: &mut String, table: &Vec<(u32, String)>, bits: u32)
    ensures
        final(buffer)@ == old(buffer)@ + float_lit_text(table@, bits),
{
    if bits == 0x7f80_0000 {
        buffer.append("4.6e+18");
    } else if bits == 0xff80_0000 {
        buffer.append("(-4.6e+18)");
    } else if bits % 0x8000_0000 > 0x7f80_0000 {
        buffer.append("(0.0/0.0)");
    } else if bits < 0x8000_0000 {
        push_digits(buffer, table, bits);
    } else {
        buffer.append("(");
        push_digits(buffer, table, bits);
        buffer.append(")");
        assert(final(buffer)@ =~= old(buffer)@ + float_lit_text(table@, bits));
    }
}

fn push_digits(buffer: &mut String, table: &Vec<(u32, String)>, bits: u32)
    ensures
        final(buffer)@ == old(buffer)@ + float_text(table@, bits),
{
    let mut j: usize = 0;
    assert(table@.skip(0) =~= table@);
    while j < table.len()
        invariant
            j <= table@.len(),
            float_text(table@, bits) == float_text(table@.skip(j as int), bits),
            buffer@ == old(buffer)@,
        decreases table@.len() - j,
    {
        proof {
            assert(table@.skip(j as int).drop_first() =~= table@.skip(j as int + 1));
        }
        if table[j].0 == bits {
            buffer.append(table[j].1.as_str());
            return;
        }
        j += 1;
    }
}

/// The text unit `slot` of the shader reads, as a decimal number.
pub open spec fn unit_text(c: ShaderContext, slot: u32) -> Seq<char> {
    dec_text(c.metadata.texture_slots@[slot as int] as nat)
}

/// The component selected by a swizzle.
pub open spec fn swizzle_text(k: u8) -> Seq<char> {
    if k == 0 { ".x"@ } else if k == 1 { ".y"@ } else if k == 2 { ".z"@ } else if k == 3 { ".w"@ } else { Seq::empty() }
}

/// The helper function that samples a texture with a filter.
pub open spec fn filter_text(f: TextureFilter) -> Seq<char> {
    match f {
        TextureFilter::Linear => "sl"@,
        TextureFilter::Nearest => "sn"@,
    }
}

/// The text of expression `e`, whose operands are below `bound`.
pub open spec fn expr_text(c: ShaderContext, e: GlslExpr, bound: nat) -> Seq<char>
    decreases bound, 1nat,
{
    if infix_op(e) is Some {
        let d = expr_deps(e);
        "("@ + dep_text(c, d[0], bound) + infix_op(e)->0 + dep_text(c, d[1], bound) + ")"@
    } else if prefix_op(e) is Some {
        "("@ + prefix_op(e)->0 + dep_text(c, expr_deps(e)[0], bound) + ")"@
    } else if fun1_name(e) is Some {
        fun1_name(e)->0 + "("@ + dep_text(c, expr_deps(e)[0], bound) + ")"@
    } else if fun2_name(e) is Some {
        let d = expr_deps(e);
        fun2_name(e)->0 + "("@ + dep_text(c, d[0], bound) + ","@ + dep_text(c, d[1], bound) + ")"@
    } else {
        match e {
            GlslExpr::LitBool(b) => if b { "true"@ } else { "false"@ },
            GlslExpr::LitFloat(x) => float_lit_text(c.float_literals@, x),
            GlslExpr::LitInt(x) => int_text(x),
            GlslExpr::Position => "fragPos"@,
            GlslExpr::Resolution => "uResolution"@,
            GlslExpr::QuadBounds => "fragBounds"@,
            GlslExpr::Mix(a, b, t) => "mix("@ + dep_text(c, a, bound) + ","@ + dep_text(c, b, bound) + ","@
                + dep_text(c, t, bound) + ")"@,
            GlslExpr::Select(a, b, t) => "("@ + dep_text(c, a, bound) + "?"@ + dep_text(c, b, bound) + ":"@
                + dep_text(c, t, bound) + ")"@,
            GlslExpr::Vec4(a, b, x, y) => "vec4("@ + dep_text(c, a, bound) + ","@ + dep_text(c, b, bound) + ","@
                + dep_text(c, x, bound) + ","@ + dep_text(c, y, bound) + ")"@,
            GlslExpr::Swizzle1(a, k) => dep_text(c, a, bound) + swizzle_text(k),
            GlslExpr::DataFloat(o) => "df("@ + dec_text(o as nat) + ")"@,
            GlslExpr::DataInt(o) => "di("@ + dec_text(o as nat) + ")"@,
            GlslExpr::TextureSize(slot) => "textureSize(uTextures["@ + unit_text(c, slot) + "],0)"@,
            GlslExpr::TextureSample(slot, f, x, y) => filter_text(f) + "(uTextures["@ + unit_text(c, slot)
                + "],vec2("@ + dep_text(c, x, bound) + ","@ + dep_text(c, y, bound) + "))"@,
            GlslExpr::Variable(v, t) => var_text(v, t),
            _ => Seq::empty(),
        }
    }
}

/// The text of the expression standing for entry `d`, when it is below `bound`.
pub open spec fn dep_text(c: ShaderContext, d: u32, bound: nat) -> Seq<char>
    decreases bound, 0nat,
{
    if d < bound && d < c.expressions@.len() && c.expressions@[d as int] is Some {
        expr_text(c, c.expressions@[d as int]->0, d as nat)
    } else {
        Seq::empty()
    }
}

/// `e` reads only entries below `bound` that stand for an expression, and
/// only texture slots the shader has.
pub open spec fn expr_ok(c: ShaderContext, e: GlslExpr, bound: nat) -> bool {
    &&& forall|j: int| 0 <= j < expr_deps(e).len() ==> {
        let d = #[trigger] expr_deps(e)[j];
        &&& d < bound
        &&& d < c.expressions@.len()
        &&& c.expressions@[d as int] is Some
    }
    &&& match e {
        GlslExpr::TextureSize(slot) | GlslExpr::TextureSample(slot, _, _, _) => slot < c.metadata.texture_slots@.len(),
        _ => true,
    }
}

/// Every entry's expression reads only earlier entries that stand for an
/// expression, and only texture slots the shader has.
pub open spec fn context_ok(c: ShaderContext) -> bool {
    forall|i: int| 0 <= i < c.expressions@.len() && (#[trigger] c.expressions@[i]) is Some
        ==> expr_ok(c, c.expressions@[i]->0, i as nat)
}

fn emit_dep(buffer: &mut String, shader: &ShaderContext, d: u32, Ghost(bound): Ghost<nat>)
    requires
        context_ok(*shader),
        d < bound,
        d < shader.expressions@.len(),
        shader.expressions@[d as int] is Some,
    ensures
        final(buffer)@ == old(buffer)@ + dep_text(*shader, d, bound),
    decreases bound, 0nat,
{
    let e = shader.expressions[d as usize].unwrap();
    emit_expr(buffer, shader, &e, Ghost(d as nat));
}

fn emit_expr(buffer: &mut String, shader: &ShaderContext, expr: &GlslExpr, Ghost(bound): Ghost<nat>)
    requires
        context_ok(*shader),
        expr_ok(*shader, *expr, bound),
    ensures
        final(buffer)@ == old(buffer)@ + expr_text(*shader, *expr, bound),
    decreases bound, 3nat,
{
    let e = *expr;
    if infix_op_exec(e).is_none() && prefix_op_exec(e).is_none() && fun1_name_exec(e).is_none() && fun2_name_exec(e).is_none() {
        if leaf_exec(e) {
            emit_leaf(buffer, shader, e, Ghost(bound));
        } else {
            emit_other(buffer, shader, e, Ghost(bound));
        }
        return;
    }
    emit_op(buffer, shader, e, Ghost(bound));
}

/// Expressions written without reading other entries.
pub open spec fn is_leaf(e: GlslExpr) -> bool {
    match e {
        GlslExpr::LitBool(_) | GlslExpr::LitFloat(_) | GlslExpr::LitInt(_) | GlslExpr::Position | GlslExpr::Resolution
        | GlslExpr::QuadBounds | GlslExpr::DataFloat(_) | GlslExpr::DataInt(_) | GlslExpr::TextureSize(_)
        | GlslExpr::Variable(_, _) | GlslExpr::Output(_) => true,
        _ => false,
    }
}

fn leaf_exec(e: GlslExpr) -> (b: bool)
    ensures
        b == is_leaf(e),
{
    match e {
        GlslExpr::LitBool(_) | GlslExpr::LitFloat(_) | GlslExpr::LitInt(_) | GlslExpr::Position | GlslExpr::Resolution
        | GlslExpr::QuadBounds | GlslExpr::DataFloat(_) | GlslExpr::DataInt(_) | GlslExpr::TextureSize(_)
        | GlslExpr::Variable(_, _) | GlslExpr::Output(_) => true,
        _ => false,
    }
}

fn emit_leaf(buffer: &mut String, shader: &ShaderContext, e: GlslExpr, Ghost(bound): Ghost<nat>)
    requires
        context_ok(*shader),
        expr_ok(*shader, e, bound),
        is_leaf(e),
    ensures
        final(buffer)@ == old(buffer)@ + expr_text(*shader, e, bound),
{
    match e {
        GlslExpr::LitBool(b) => {
            if b { buffer.append("true"); } else { buffer.append("false"); }
        },
        GlslExpr::LitFloat(x) => push_float(buffer, shader.float_literals, x),
        GlslExpr::LitInt(x) => push_int(buffer, x),
        GlslExpr::Position => buffer.append("fragPos"),
        GlslExpr::Resolution => buffer.append("uResolution"),
        GlslExpr::QuadBounds => buffer.append("fragBounds"),
        GlslExpr::DataFloat(o) => {
            buffer.append("df(");
            push_radix(buffer, o, 10);
            buffer.append(")");
            assert(final(buffer)@ =~= old(buffer)@ + expr_text(*shader, e, bound));
        },
        GlslExpr::DataInt(o) => {
            buffer.append("di(");
            push_radix(buffer, o, 10);
            buffer.append(")");
            assert(final(buffer)@ =~= old(buffer)@ + expr_text(*shader, e, bound));
        },
        GlslExpr::TextureSize(slot) => {
            let unit = shader.metadata.texture_slots[slot as usize];
            buffer.append("textureSize(uTextures[");
            push_radix(buffer, unit, 10);
            buffer.append("],0)");
            assert(final(buffer)@ =~= old(buffer)@ + expr_text(*shader, e, bound));
        },
        GlslExpr::Variable(v, t) => emit_shader_variable(buffer, v, t),
        _ => {
            assert(old(buffer)@ =~= old(buffer)@ + expr_text(*shader, e, bound));
        },
    }
}

fn emit_op(buffer: &mut String, shader: &ShaderContext, e: GlslExpr, Ghost(bound): Ghost<nat>)
    requires
        context_ok(*shader),
        expr_ok(*shader, e, bound),
        infix_op(e) is Some || prefix_op(e) is Some || fun1_name(e) is Some || fun2_name(e) is Some,
    ensures
        final(buffer)@ == old(buffer)@ + expr_text(*shader, e, bound),
    decreases bound, 2nat,
{
    let ghost ds = expr_deps(e);
    if let Some(op) = infix_op_exec(e) {
        let deps = e.visit_deps();
        proof { assert(ds[0] == deps@[0] && ds[1] == deps@[1]); }
        buffer.append("(");
        emit_dep(buffer, shader, deps[0], Ghost(bound));
        buffer.append(op);
        emit_dep(buffer, shader, deps[1], Ghost(bound));
        buffer.append(")");
        assert(final(buffer)@ =~= old(buffer)@ + expr_text(*shader, e, bound));
        return;
    }
    if let Some(op) = prefix_op_exec(e) {
        let deps = e.visit_deps();
        proof { assert(ds[0] == deps@[0]); }
        buffer.append("(");
        buffer.append(op);
        emit_dep(buffer, shader, deps[0], Ghost(bound));
        buffer.append(")");
        assert(final(buffer)@ =~= old(buffer)@ + expr_text(*shader, e, bound));
        return;
    }
    if let Some(name) = fun1_name_exec(e) {
        let deps = e.visit_deps();
        proof { assert(ds[0] == deps@[0]); }
        buffer.append(name);
        buffer.append("(");
        emit_dep(buffer, shader, deps[0], Ghost(bound));
        buffer.append(")");
        assert(final(buffer)@ =~= old(buffer)@ + expr_text(*shader, e, bound));
        return;
    }
    if let Some(name) = fun2_name_exec(e) {
        let deps = e.visit_deps();
        proof { assert(ds[0] == deps@[0] && ds[1] == deps@[1]); }
        buffer.append(name);
        buffer.append("(");
        emit_dep(buffer, shader, deps[0], Ghost(bound));
        buffer.append(",");
        emit_dep(buffer, shader, deps[1], Ghost(bound));
        buffer.append(")");
        assert(final(buffer)@ =~= old(buffer)@ + expr_text(*shader, e, bound));
        return;
    }
}

fn emit_other(buffer: &mut String, shader: &ShaderContext, e: GlslExpr, Ghost(bound): Ghost<nat>)
    requires
        context_ok(*shader),
        expr_ok(*shader, e, bound),
        infix_op(e) is None,
        prefix_op(e) is None,
        fun1_name(e) is None,
        fun2_name(e) is None,
        !is_leaf(e),
    ensures
        final(buffer)@ == old(buffer)@ + expr_text(*shader, e, bound),
    decreases bound, 1nat,
{
    let ghost ds = expr_deps(e);
    match e {
        GlslExpr::Mix(a, b, t) => {
            proof { assert(ds[0] == t && ds[1] == a && ds[2] == b); }
            buffer.append("mix(");
            emit_dep(buffer, shader, a, Ghost(bound));
            buffer.append(",");
            emit_dep(buffer, shader, b, Ghost(bound));
            buffer.append(",");
            emit_dep(buffer, shader, t, Ghost(bound));
            buffer.append(")");
            assert(final(buffer)@ =~= old(buffer)@ + expr_text(*shader, e, bound));
        },
        GlslExpr::Select(a, b, t) => {
            proof { assert(ds[0] == a && ds[1] == b && ds[2] == t); }
            buffer.append("(");
            emit_dep(buffer, shader, a, Ghost(bound));
            buffer.append("?");
            emit_dep(buffer, shader, b, Ghost(bound));
            buffer.append(":");
            emit_dep(buffer, shader, t, Ghost(bound));
            buffer.append(")");
            assert(final(buffer)@ =~= old(buffer)@ + expr_text(*shader, e, bound));
        },
        GlslExpr::Vec4(a, b, x, y) => {
            proof { assert(ds[0] == a && ds[1] == b && ds[2] == x && ds[3] == y); }
            buffer.append("vec4(");
            emit_dep(buffer, shader, a, Ghost(bound));
            buffer.append(",");
            emit_dep(buffer, shader, b, Ghost(bound));
            buffer.append(",");
            emit_dep(buffer, shader, x, Ghost(bound));
            buffer.append(",");
            emit_dep(buffer, shader, y, Ghost(bound));
            buffer.append(")");
            assert(final(buffer)@ =~= old(buffer)@ + expr_text(*shader, e, bound));
        },
        GlslExpr::Swizzle1(a, k) => {
            proof { assert(ds[0] == a); }
            emit_dep(buffer, shader, a, Ghost(bound));
            if k == 0 {
                buffer.append(".x");
            } else if k == 1 {
                buffer.append(".y");
            } else if k == 2 {
                buffer.append(".z");
            } else if k == 3 {
                buffer.append(".w");
            }
            assert(final(buffer)@ =~= old(buffer)@ + expr_text(*shader, e, bound));
        },
        _ => {
            let (slot, f, x, y) = match e {
                GlslExpr::TextureSample(slot, f, x, y) => (slot, f, x, y),
                _ => (0, TextureFilter::Linear, 0, 0),
            };
            proof { assert(ds[0] == x && ds[1] == y); }
            let unit = shader.metadata.texture_slots[slot as usize];
            match f {
                TextureFilter::Linear => buffer.append("sl"),
                TextureFilter::Nearest => buffer.append("sn"),
            }
            buffer.append("(uTextures[");
            push_radix(buffer, unit, 10);
            buffer.append("],vec2(");
            emit_dep(buffer, shader, x, Ghost(bound));
            buffer.append(",");
            emit_dep(buffer, shader, y, Ghost(bound));
            buffer.append("))");
            assert(final(buffer)@ =~= old(buffer)@ + expr_text(*shader, e, bound));
        },
    }
}

/// Appends the text of an expression whose operands name entries of the shader.
pub fn emit_shader_expression(buffer: &mut String, shader: &ShaderContext, expr: &GlslExpr)
    requires
        context_ok(*shader),
        expr_ok(*shader, *expr, shader.expressions@.len()),
    ensures
        final(buffer)@ == old(buffer)@ + expr_text(*shader, *expr, shader.expressions@.len()),
{
    emit_expr(buffer, shader, expr, Ghost(shader.expressions@.len()));
}

/// The variable names `0..count` of type `t`, separated by commas.
pub open spec fn decl_list(t: GlslType, count: nat) -> Seq<char>
    decreases count,
{
    if count == 0 {
        Seq::empty()
    } else if count == 1 {
        var_text(0, t)
    } else {
        decl_list(t, (count - 1) as nat) + ","@ + var_text((count - 1) as u32, t)
    }
}

/// Every expression of the statement, and of the statements it holds, reads
/// only entries of the shader that stand for an expression.
pub open spec fn stmt_ok(c: ShaderContext, st: GlslStmt) -> bool
    decreases st, 1nat, 0nat,
{
    match st {
        GlslStmt::DeclareVars { .. } => true,
        GlslStmt::AssignExpr { expr, .. } => expr_ok(c, expr, c.expressions@.len()),
        GlslStmt::ReturnExpr { expr } => expr_ok(c, expr, c.expressions@.len()),
        GlslStmt::Branch { condition, then_branch, else_branch } => expr_ok(c, condition, c.expressions@.len())
            && stmts_ok(c, then_branch@, then_branch@.len()) && stmts_ok(c, else_branch@, else_branch@.len()),
    }
}

/// [`stmt_ok`] holds of the first `k` statements.
pub open spec fn stmts_ok(c: ShaderContext, sts: Seq<GlslStmt>, k: nat) -> bool
    decreases sts, 0nat, k,
{
    if k == 0 || k > sts.len() {
        true
    } else {
        stmts_ok(c, sts, (k - 1) as nat) && stmt_ok(c, sts[k - 1])
    }
}

/// The text of a statement.
pub open spec fn stmt_text(c: ShaderContext, st: GlslStmt) -> Seq<char>
    decreases st, 1nat, 0nat,
{
    let n = c.expressions@.len();
    match st {
        GlslStmt::DeclareVars { type_, count } => glsl_type_text(type_) + " "@ + decl_list(type_, count as nat) + ";"@,
        GlslStmt::AssignExpr { var, type_, expr } => var_text(var, type_) + "="@ + expr_text(c, expr, n) + ";"@,
        GlslStmt::ReturnExpr { expr } => "outColor="@ + expr_text(c, expr, n) + ";"@,
        GlslStmt::Branch { condition, then_branch, else_branch } => "if("@ + expr_text(c, condition, n) + "){"@
            + stmts_text(c, then_branch@, then_branch@.len()) + "}else{"@ + stmts_text(c, else_branch@, else_branch@.len()) + "}"@,
    }
}

/// The text of the first `k` statements, one after the other.
pub open spec fn stmts_text(c: ShaderContext, sts: Seq<GlslStmt>, k: nat) -> Seq<char>
    decreases sts, 0nat, k,
{
    if k == 0 || k > sts.len() {
        Seq::empty()
    } else {
        stmts_text(c, sts, (k - 1) as nat) + stmt_text(c, sts[k - 1])
    }
}

fn emit_decl_list(buffer: &mut String, t: GlslType, count: u32)
    ensures
        final(buffer)@ == old(buffer)@ + decl_list(t, count as nat),
{
    let mut i: u32 = 0;
    while i < count
        invariant
            i <= count,
            buffer@ == old(buffer)@ + decl_list(t, i as nat),
        decreases count - i,
    {
        if i > 0 {
            buffer.append(",");
        }
        emit_shader_variable(buffer, i, t);
        proof {
            if i == 0 {
                assert(decl_list(t, 1) == var_text(0, t));
                assert(decl_list(t, 0) =~= Seq::<char>::empty());
            }
        }
        assert(buffer@ =~= old(buffer)@ + decl_list(t, (i + 1) as nat));
        i += 1;
    }
}

proof fn lemma_stmts_step(c: ShaderContext, sts: Seq<GlslStmt>, k: nat)
    requires
        k < sts.len(),
    ensures
        stmts_text(c, sts, k + 1) == stmts_text(c, sts, k) + stmt_text(c, sts[k as int]),
        stmts_ok(c, sts, sts.len()) ==> stmt_ok(c, sts[k as int]),
    decreases sts.len() - k,
{
    if stmts_ok(c, sts, sts.len()) {
        lemma_stmts_ok_prefix(c, sts, sts.len(), k + 1);
    }
}

proof fn lemma_stmts_ok_prefix(c: ShaderContext, sts: Seq<GlslStmt>, n: nat, k: nat)
    requires
        k <= n <= sts.len(),
        stmts_ok(c, sts, n),
    ensures
        stmts_ok(c, sts, k),
    decreases n,
{
    if k < n {
        lemma_stmts_ok_prefix(c, sts, (n - 1) as nat, k);
    }
}

fn emit_statements(buffer: &mut String, shader: &ShaderContext, sts: &Vec<GlslStmt>, Ghost(outer): Ghost<GlslStmt>)
    requires
        context_ok(*shader),
        stmts_ok(*shader, sts@, sts@.len()),
        forall|j: int| 0 <= j < sts@.len() ==> decreases_to!(outer => #[trigger] sts@[j]),
    ensures
        final(buffer)@ == old(buffer)@ + stmts_text(*shader, sts@, sts@.len()),
    decreases outer, 0nat,
{
    let mut i: usize = 0;
    while i < sts.len()
        invariant
            context_ok(*shader),
            stmts_ok(*shader, sts@, sts@.len()),
            forall|j: int| 0 <= j < sts@.len() ==> decreases_to!(outer => #[trigger] sts@[j]),
            i <= sts@.len(),
            buffer@ == old(buffer)@ + stmts_text(*shader, sts@, i as nat),
        decreases sts@.len() - i,
    {
        proof {
            lemma_stmts_step(*shader, sts@, i as nat);
            assert(decreases_to!(outer => sts@[i as int]));
        }
        emit_shader_statement(buffer, shader, &sts[i]);
        assert(buffer@ =~= old(buffer)@ + stmts_text(*shader, sts@, (i + 1) as nat));
        i += 1;
    }
}

/// Appends the text of a statement.
pub fn emit_shader_statement(buffer: &mut String, shader: &ShaderContext, statement: &GlslStmt)
    requires
        context_ok(*shader),
        stmt_ok(*shader, *statement),
    ensures
        final(buffer)@ == old(buffer)@ + stmt_text(*shader, *statement),
    decreases *statement, 1nat,
{
    match statement {
        GlslStmt::DeclareVars { type_, count } => {
            buffer.append(glsl_type_text_exec(*type_));
            buffer.append(" ");
            emit_decl_list(buffer, *type_, *count);
            buffer.append(";");
            assert(final(buffer)@ =~= old(buffer)@ + stmt_text(*shader, *statement));
        },
        GlslStmt::AssignExpr { var, type_, expr } => {
            emit_shader_variable(buffer, *var, *type_);
            buffer.append("=");
            emit_shader_expression(buffer, shader, expr);
            buffer.append(";");
            assert(final(buffer)@ =~= old(buffer)@ + stmt_text(*shader, *statement));
        },
        GlslStmt::ReturnExpr { expr } => {
            buffer.append("outColor=");
            emit_shader_expression(buffer, shader, expr);
            buffer.append(";");
            assert(final(buffer)@ =~= old(buffer)@ + stmt_text(*shader, *statement));
        },
        GlslStmt::Branch { condition, then_branch, else_branch } => {
            buffer.append("if(");
            emit_shader_expression(buffer, shader, condition);
            buffer.append("){");
            emit_statements(buffer, shader, then_branch, Ghost(*statement));
            buffer.append("}else{");
            emit_statements(buffer, shader, else_branch, Ghost(*statement));
            buffer.append("}");
            assert(final(buffer)@ =~= old(buffer)@ + stmt_text(*shader, *statement));
        },
    }
}

/// The text of the function of a shader.
pub open spec fn function_text(c: ShaderContext) -> Seq<char> {
    "void s_"@ + hex_text(c.metadata.index as nat) + "(){"@ + stmts_text(c, c.statements@, c.statements@.len()) + "}"@
}

/// Appends the function that computes the color of a shader.
pub fn emit_shader_function(buffer: &mut String, shader: &ShaderContext)
    requires
        context_ok(*shader),
        stmts_ok(*shader, shader.statements@, shader.statements@.len()),
    ensures
        final(buffer)@ == old(buffer)@ + function_text(*shader),
{
    buffer.append("void s_");
    push_radix(buffer, shader.metadata.index, 16);
    buffer.append("(){");
    let mut i: usize = 0;
    while i < shader.statements.len()
        invariant
            context_ok(*shader),
            stmts_ok(*shader, shader.statements@, shader.statements@.len()),
            i <= shader.statements@.len(),
            buffer@ == old(buffer)@ + "void s_"@ + hex_text(shader.metadata.index as nat) + "(){"@
                + stmts_text(*shader, shader.statements@, i as nat),
        decreases shader.statements@.len() - i,
    {
        proof {
            lemma_stmts_step(*shader, shader.statements@, i as nat);
        }
        emit_shader_statement(buffer, shader, &shader.statements[i]);
        assert(buffer@ =~= old(buffer)@ + "void s_"@ + hex_text(shader.metadata.index as nat) + "(){"@
            + stmts_text(*shader, shader.statements@, (i + 1) as nat));
        i += 1;
    }
    buffer.append("}");
    assert(final(buffer)@ =~= old(buffer)@ + function_text(*shader));
}

/// The `#version` line, and the extensions it needs, for a GLSL version and a
/// way of reaching the object data.
pub open spec fn version_text(version: u32, mode: CompilerBufferMode) -> Seq<char> {
    match mode {
        CompilerBufferMode::UniformBlock { .. } => if version >= 140 {
            "#version 140\n"@
        } else {
            "#version 130\n"@ + "#extension GL_ARB_uniform_buffer_object : require\n"@
        },
        CompilerBufferMode::TextureBuffer => if version >= 330 {
            "#version 330\n"@
        } else if version >= 140 {
            "#version 140\n"@ + "#extension GL_ARB_shader_bit_encoding : require\n"@
        } else {
            "#version 130\n"@ + "#extension GL_ARB_shader_bit_encoding : require\n"@
                + "#extension GL_ARB_texture_buffer_object : enable\n"@ + "#extension GL_EXT_texture_buffer : enable\n"@
        },
    }
}

/// Appends the `#version` line and the extensions the programs need.
pub fn emit_header_version_decl(buffer: &mut String, version: u32, mode: CompilerBufferMode)
    ensures
        final(buffer)@ == old(buffer)@ + version_text(version, mode),
{
    match mode {
        CompilerBufferMode::UniformBlock { .. } => {
            if version >= 140 {
                buffer.append("#version 140\n");
            } else {
                buffer.append("#version 130\n");
                buffer.append("#extension GL_ARB_uniform_buffer_object : require\n");
            }
        },
        CompilerBufferMode::TextureBuffer => {
            if version >= 330 {
                buffer.append("#version 330\n");
            } else if version >= 140 {
                buffer.append("#version 140\n");
                buffer.append("#extension GL_ARB_shader_bit_encoding : require\n");
            } else {
                buffer.append("#version 130\n");
                buffer.append("#extension GL_ARB_shader_bit_encoding : require\n");
                buffer.append("#extension GL_ARB_texture_buffer_object : enable\n");
                buffer.append("#extension GL_EXT_texture_buffer : enable\n");
            }
        },
    }
    assert(final(buffer)@ =~= old(buffer)@ + version_text(version, mode));
}

/// The declarations through which the programs read the object data.
pub open spec fn binding_text(mode: CompilerBufferMode) -> Seq<char> {
    match mode {
        CompilerBufferMode::UniformBlock { size_bytes } => {
            let size = dec_text((size_bytes / 16) as nat);
            "\nlayout(std140) uniform uBufferU32 {uvec4 bufferU32["@ + size + "];};\nlayout(std140) uniform uBufferF32 {vec4 bufferF32["@ + size + "];};\nuvec4 readU(int i){return bufferU32[i%"@ + size
                + "];};\nvec4 readF(int i){return bufferF32[i%"@ + size + "];};\n                "@ + "\n"@
        },
        CompilerBufferMode::TextureBuffer => "\nuniform usamplerBuffer uBuffer;\nuvec4 readU(int i){return texelFetch(uBuffer,i);};\nvec4 readF(int i){return uintBitsToFloat(readU(i));};\n                "@ + "\n"@,
    }
}

/// Appends the declarations through which the programs read the object data:
/// a uniform block of 16-byte entries, or a texture buffer.
pub fn emit_header_buffer_binding(buffer: &mut String, mode: CompilerBufferMode)
    ensures
        final(buffer)@ == old(buffer)@ + binding_text(mode),
{
    match mode {
        CompilerBufferMode::UniformBlock { size_bytes } => {
            let size = size_bytes / 16;
            buffer.append("\nlayout(std140) uniform uBufferU32 {uvec4 bufferU32[");
            push_radix(buffer, size, 10);
            buffer.append("];};\nlayout(std140) uniform uBufferF32 {vec4 bufferF32[");
            push_radix(buffer, size, 10);
            buffer.append("];};\nuvec4 readU(int i){return bufferU32[i%");
            push_radix(buffer, size, 10);
            buffer.append("];};\nvec4 readF(int i){return bufferF32[i%");
            push_radix(buffer, size, 10);
            buffer.append("];};\n                ");
            buffer.append("\n");
        },
        CompilerBufferMode::TextureBuffer => {
            buffer.append("\nuniform usamplerBuffer uBuffer;\nuvec4 readU(int i){return texelFetch(uBuffer,i);};\nvec4 readF(int i){return uintBitsToFloat(readU(i));};\n                ");
            buffer.append("\n");
        },
    }
    assert(final(buffer)@ =~= old(buffer)@ + binding_text(mode));
}

/// The declaration of the texture samplers, if there are any.
pub open spec fn samplers_text(texture_samplers: u32) -> Seq<char> {
    if texture_samplers > 0 {
        "uniform sampler2D uTextures["@ + dec_text(texture_samplers as nat) + "];\n"@
    } else {
        Seq::empty()
    }
}

/// Appends the declaration of the texture samplers, if there are any.
pub fn emit_header_texture_samplers(buffer: &mut String, texture_samplers: u32)
    ensures
        final(buffer)@ == old(buffer)@ + samplers_text(texture_samplers),
{
    if texture_samplers > 0 {
        buffer.append("uniform sampler2D uTextures[");
        push_radix(buffer, texture_samplers, 10);
        buffer.append("];\n");
    }
    assert(final(buffer)@ =~= old(buffer)@ + samplers_text(texture_samplers));
}

/// The part of the fragment program that every shader shares.
pub open spec fn fragment_prelude() -> Seq<char> {
    "precision highp float;\nprecision highp int;\n\nuniform vec2 uResolution;\nuniform int uBufferDataOffset;\n\nflat in int fragType;\nflat in int fragData;\nflat in vec4 fragBounds;\nin vec2 fragPos;\nout vec4 outColor;\n\nvec4 sl(in sampler2D s,vec2 i){return textureLod(s,i/textureSize(s,0),0);}\nvec4 sn(in sampler2D s,vec2 i){return texelFetch(s,ivec2(i),0);}\nvec4 df(int i){return readF(uBufferDataOffset+fragData+i);}\nivec4 di(int i){return ivec4(readU(uBufferDataOffset+fragData+i));}"@
}

/// The head of the fragment program: version, data binding, samplers and the
/// declarations and helpers every shader function uses.
pub open spec fn fragment_header_text(options: CompilerOptions) -> Seq<char> {
    version_text(options.glsl_version, options.buffer_mode) + binding_text(options.buffer_mode)
        + samplers_text(options.texture_units) + fragment_prelude()
}

/// Appends the head of the fragment program.
pub fn emit_fragment_header(buffer: &mut String, options: &CompilerOptions)
    ensures
        final(buffer)@ == old(buffer)@ + fragment_header_text(*options),
{
    emit_header_version_decl(buffer, options.glsl_version, options.buffer_mode);
    emit_header_buffer_binding(buffer, options.buffer_mode);
    emit_header_texture_samplers(buffer, options.texture_units);
    buffer.append("precision highp float;\nprecision highp int;\n\nuniform vec2 uResolution;\nuniform int uBufferDataOffset;\n\nflat in int fragType;\nflat in int fragData;\nflat in vec4 fragBounds;\nin vec2 fragPos;\nout vec4 outColor;\n\nvec4 sl(in sampler2D s,vec2 i){return textureLod(s,i/textureSize(s,0),0);}\nvec4 sn(in sampler2D s,vec2 i){return texelFetch(s,ivec2(i),0);}\nvec4 df(int i){return readF(uBufferDataOffset+fragData+i);}\nivec4 di(int i){return ivec4(readU(uBufferDataOffset+fragData+i));}");
    assert(final(buffer)@ =~= old(buffer)@ + fragment_header_text(*options));
}

/// The vertex program after its version and data binding.
pub open spec fn vertex_body() -> Seq<char> {
    "\nprecision highp float;\nprecision highp int;\n\nuniform vec2 uResolution;\nuniform bool uScreenTarget;\nuniform int uBufferListOffset;\n\nflat out int fragType;\nflat out int fragData;\nflat out vec4 fragBounds;\nout vec2 fragPos;\n\nvoid main() {\n    int triangleId = gl_VertexID / 3;\n    int vertexId = gl_VertexID % 3;\n    int quadId = triangleId >> 1;\n    int cornerId = (triangleId & 1) + vertexId;\n    uvec4 packedData = readU(uBufferListOffset + quadId);\n    vec2 topLeft = vec2(float(packedData.x & 65535u), float((packedData.x >> 16) & 65535u));\n    vec2 bottomRight = vec2(float(packedData.y & 65535u), float((packedData.y >> 16) & 65535u));\n    vec2 pos = vec2(float(cornerId >> 1), float(cornerId & 1)) * (bottomRight - topLeft) + topLeft;\n    gl_Position = vec4((2 * pos / uResolution - 1) * vec2(1, uScreenTarget ? -1 : 1), 0, 1);\n    fragBounds = vec4(topLeft, bottomRight);\n    fragPos = pos;\n    fragType = int(packedData.z);\n    fragData = int(packedData.w);    \n}"@
}

/// Appends the vertex program, which places each quad and passes on its data.
pub fn emit_vertex_program(buffer: &mut String, options: &CompilerOptions)
    ensures
        final(buffer)@ == old(buffer)@ + version_text(options.glsl_version, options.buffer_mode)
            + binding_text(options.buffer_mode) + vertex_body(),
{
    emit_header_version_decl(buffer, options.glsl_version, options.buffer_mode);
    emit_header_buffer_binding(buffer, options.buffer_mode);
    buffer.append("\nprecision highp float;\nprecision highp int;\n\nuniform vec2 uResolution;\nuniform bool uScreenTarget;\nuniform int uBufferListOffset;\n\nflat out int fragType;\nflat out int fragData;\nflat out vec4 fragBounds;\nout vec2 fragPos;\n\nvoid main() {\n    int triangleId = gl_VertexID / 3;\n    int vertexId = gl_VertexID % 3;\n    int quadId = triangleId >> 1;\n    int cornerId = (triangleId & 1) + vertexId;\n    uvec4 packedData = readU(uBufferListOffset + quadId);\n    vec2 topLeft = vec2(float(packedData.x & 65535u), float((packedData.x >> 16) & 65535u));\n    vec2 bottomRight = vec2(float(packedData.y & 65535u), float((packedData.y >> 16) & 65535u));\n    vec2 pos = vec2(float(cornerId >> 1), float(cornerId & 1)) * (bottomRight - topLeft) + topLeft;\n    gl_Position = vec4((2 * pos / uResolution - 1) * vec2(1, uScreenTarget ? -1 : 1), 0, 1);\n    fragBounds = vec4(topLeft, bottomRight);\n    fragPos = pos;\n    fragType = int(packedData.z);\n    fragData = int(packedData.w);    \n}");
    assert(final(buffer)@ =~= old(buffer)@ + version_text(options.glsl_version, options.buffer_mode)
        + binding_text(options.buffer_mode) + vertex_body());
}

/// The cases of the dispatch for the first `k` shader indices.
pub open spec fn dispatch_cases(branches: Seq<u32>, k: nat) -> Seq<char>
    decreases k,
{
    if k == 0 || k > branches.len() {
        Seq::empty()
    } else {
        dispatch_cases(branches, (k - 1) as nat) + "case "@ + dec_text(branches[k - 1] as nat) + ":s_"@
            + hex_text(branches[k - 1] as nat) + "();break;"@
    }
}

/// The fragment program's `main`: it calls the function of the shader whose
/// index the quad carries, and paints other quads magenta.
pub open spec fn dispatch_text(branches: Seq<u32>) -> Seq<char> {
    "void main(){switch(fragType){"@ + dispatch_cases(branches, branches.len())
        + "default:outColor=vec4(1.0,0.0,1.0,1.0);break;}}"@
}

/// Appends the fragment program's `main`, dispatching on the shader index.
pub fn emit_fragment_dispatch(buffer: &mut String, branches: &[u32])
    ensures
        final(buffer)@ == old(buffer)@ + dispatch_text(branches@),
{
    buffer.append("void main(){switch(fragType){");
    let mut i: usize = 0;
    while i < branches.len()
        invariant
            i <= branches@.len(),
            buffer@ == old(buffer)@ + "void main(){switch(fragType){"@ + dispatch_cases(branches@, i as nat),
        decreases branches@.len() - i,
    {
        let index = branches[i];
        buffer.append("case ");
        push_radix(buffer, index, 10);
        buffer.append(":s_");
        push_radix(buffer, index, 16);
        buffer.append("();break;");
        assert(buffer@ =~= old(buffer)@ + "void main(){switch(fragType){"@ + dispatch_cases(branches@, (i + 1) as nat));
        i += 1;
    }
    buffer.append("default:outColor=vec4(1.0,0.0,1.0,1.0);break;}}");
    assert(final(buffer)@ =~= old(buffer)@ + dispatch_text(branches@));
}

/// A context made of a body that [`body_ok`] accepts, with as many texture
/// units as the body reads slots, can be written out.
pub proof fn lemma_body_context(c: ShaderContext, body: GlslShader)
    requires
        body_ok(body),
        c.expressions@ == body.expressions@,
        c.statements@ == body.statements@,
        c.metadata.texture_slots@.len() == body.num_textures,
    ensures
        context_ok(c),
        stmts_ok(c, c.statements@, c.statements@.len()),
{
    let ex = body.expressions@;
    assert forall|i: int| 0 <= i < c.expressions@.len() && (#[trigger] c.expressions@[i]) is Some
        implies expr_ok(c, c.expressions@[i]->0, i as nat) by {
        lemma_refs_expr_ok(c, body, c.expressions@[i]->0, i as nat);
    }
    lemma_body_stmts(c, body, c.statements@.len());
}

proof fn lemma_refs_expr_ok(c: ShaderContext, body: GlslShader, e: GlslExpr, bound: nat)
    requires
        refs_ok(body.expressions@, e, bound, body.num_textures as nat),
        c.expressions@ == body.expressions@,
        c.metadata.texture_slots@.len() == body.num_textures,
    ensures
        expr_ok(c, e, bound),
{
}

proof fn lemma_body_stmts(c: ShaderContext, body: GlslShader, k: nat)
    requires
        body_ok(body),
        c.expressions@ == body.expressions@,
        c.statements@ == body.statements@,
        c.metadata.texture_slots@.len() == body.num_textures,
        k <= c.statements@.len(),
    ensures
        stmts_ok(c, c.statements@, k),
    decreases k,
{
    if k > 0 {
        lemma_body_stmts(c, body, (k - 1) as nat);
        let st = c.statements@[k - 1];
        assert(body.statements@[k - 1] == st);
        match st {
            GlslStmt::AssignExpr { expr, .. } => {
                lemma_refs_expr_ok(c, body, expr, c.expressions@.len());
                assert(stmt_ok(c, st));
            },
            GlslStmt::ReturnExpr { expr } => {
                lemma_refs_expr_ok(c, body, expr, c.expressions@.len());
                assert(stmt_ok(c, st));
            },
            GlslStmt::DeclareVars { .. } => {
                assert(stmt_ok(c, st));
            },
            GlslStmt::Branch { .. } => {},
        }
        assert(stmts_ok(c, c.statements@, k));
    }
}

/// Each operation is written as the GLSL operator or built-in function of the
/// same meaning, with its operands in order (a component as `.x` to `.w`, a
/// linear sample through `sl` and a nearest one through `sn`): `a + b` as `(a+b)`, `a - b` as
/// `(a-b)`, the minimum as `min(a,b)`, the maximum as `max(a,b)`, the power
/// as `pow(a,b)`, the quadrant-aware arctangent as `atan(a,b)`, the float
/// remainder as `mod(a,b)`, the interpolation from `a` to `b` by `t` as
/// `mix(a,b,t)`, and so on.
pub proof fn lemma_operator_texts(c: ShaderContext, a: u32, b: u32, t: u32, bound: nat)
    ensures
        expr_text(c, GlslExpr::Swizzle1(a, 0), bound) == dep_text(c, a, bound) + ".x"@,
        expr_text(c, GlslExpr::Swizzle1(a, 1), bound) == dep_text(c, a, bound) + ".y"@,
        expr_text(c, GlslExpr::Swizzle1(a, 2), bound) == dep_text(c, a, bound) + ".z"@,
        expr_text(c, GlslExpr::Swizzle1(a, 3), bound) == dep_text(c, a, bound) + ".w"@,
        expr_text(c, GlslExpr::TextureSample(t, TextureFilter::Linear, a, b), bound) == "sl"@ + "(uTextures["@
            + unit_text(c, t) + "],vec2("@ + dep_text(c, a, bound) + ","@ + dep_text(c, b, bound) + "))"@,
        expr_text(c, GlslExpr::TextureSample(t, TextureFilter::Nearest, a, b), bound) == "sn"@ + "(uTextures["@
            + unit_text(c, t) + "],vec2("@ + dep_text(c, a, bound) + ","@ + dep_text(c, b, bound) + "))"@,
        expr_text(c, GlslExpr::Position, bound) == "fragPos"@,
        expr_text(c, GlslExpr::Resolution, bound) == "uResolution"@,
        expr_text(c, GlslExpr::QuadBounds, bound) == "fragBounds"@,
        expr_text(c, GlslExpr::LitBool(true), bound) == "true"@,
        expr_text(c, GlslExpr::LitBool(false), bound) == "false"@,
        expr_text(c, GlslExpr::Add(a, b), bound) == "("@ + dep_text(c, a, bound) + "+"@ + dep_text(c, b, bound) + ")"@,
        expr_text(c, GlslExpr::Sub(a, b), bound) == "("@ + dep_text(c, a, bound) + "-"@ + dep_text(c, b, bound) + ")"@,
        expr_text(c, GlslExpr::Mul(a, b), bound) == "("@ + dep_text(c, a, bound) + "*"@ + dep_text(c, b, bound) + ")"@,
        expr_text(c, GlslExpr::Div(a, b), bound) == "("@ + dep_text(c, a, bound) + "/"@ + dep_text(c, b, bound) + ")"@,
        expr_text(c, GlslExpr::IRem(a, b), bound) == "("@ + dep_text(c, a, bound) + "%"@ + dep_text(c, b, bound) + ")"@,
        expr_text(c, GlslExpr::BAnd(a, b), bound) == "("@ + dep_text(c, a, bound) + "&&"@ + dep_text(c, b, bound) + ")"@,
        expr_text(c, GlslExpr::BOr(a, b), bound) == "("@ + dep_text(c, a, bound) + "||"@ + dep_text(c, b, bound) + ")"@,
        expr_text(c, GlslExpr::IXor(a, b), bound) == "("@ + dep_text(c, a, bound) + "^"@ + dep_text(c, b, bound) + ")"@,
        expr_text(c, GlslExpr::IAnd(a, b), bound) == "("@ + dep_text(c, a, bound) + "&"@ + dep_text(c, b, bound) + ")"@,
        expr_text(c, GlslExpr::IOr(a, b), bound) == "("@ + dep_text(c, a, bound) + "|"@ + dep_text(c, b, bound) + ")"@,
        expr_text(c, GlslExpr::IShl(a, b), bound) == "("@ + dep_text(c, a, bound) + "<<"@ + dep_text(c, b, bound) + ")"@,
        expr_text(c, GlslExpr::IShr(a, b), bound) == "("@ + dep_text(c, a, bound) + ">>"@ + dep_text(c, b, bound) + ")"@,
        expr_text(c, GlslExpr::Eq(a, b), bound) == "("@ + dep_text(c, a, bound) + "=="@ + dep_text(c, b, bound) + ")"@,
        expr_text(c, GlslExpr::Ne(a, b), bound) == "("@ + dep_text(c, a, bound) + "!="@ + dep_text(c, b, bound) + ")"@,
        expr_text(c, GlslExpr::Lt(a, b), bound) == "("@ + dep_text(c, a, bound) + "<"@ + dep_text(c, b, bound) + ")"@,
        expr_text(c, GlslExpr::Gt(a, b), bound) == "("@ + dep_text(c, a, bound) + ">"@ + dep_text(c, b, bound) + ")"@,
        expr_text(c, GlslExpr::Le(a, b), bound) == "("@ + dep_text(c, a, bound) + "<="@ + dep_text(c, b, bound) + ")"@,
        expr_text(c, GlslExpr::Ge(a, b), bound) == "("@ + dep_text(c, a, bound) + ">="@ + dep_text(c, b, bound) + ")"@,
        expr_text(c, GlslExpr::Min(a, b), bound) == "min"@ + "("@ + dep_text(c, a, bound) + ","@ + dep_text(c, b, bound) + ")"@,
        expr_text(c, GlslExpr::Max(a, b), bound) == "max"@ + "("@ + dep_text(c, a, bound) + ","@ + dep_text(c, b, bound) + ")"@,
        expr_text(c, GlslExpr::Pow(a, b), bound) == "pow"@ + "("@ + dep_text(c, a, bound) + ","@ + dep_text(c, b, bound) + ")"@,
        expr_text(c, GlslExpr::Atan2(a, b), bound) == "atan"@ + "("@ + dep_text(c, a, bound) + ","@ + dep_text(c, b, bound) + ")"@,
        expr_text(c, GlslExpr::FRem(a, b), bound) == "mod"@ + "("@ + dep_text(c, a, bound) + ","@ + dep_text(c, b, bound) + ")"@,
        expr_text(c, GlslExpr::Abs(a), bound) == "abs"@ + "("@ + dep_text(c, a, bound) + ")"@,
        expr_text(c, GlslExpr::Sign(a), bound) == "sign"@ + "("@ + dep_text(c, a, bound) + ")"@,
        expr_text(c, GlslExpr::Sin(a), bound) == "sin"@ + "("@ + dep_text(c, a, bound) + ")"@,
        expr_text(c, GlslExpr::Cos(a), bound) == "cos"@ + "("@ + dep_text(c, a, bound) + ")"@,
        expr_text(c, GlslExpr::Tan(a), bound) == "tan"@ + "("@ + dep_text(c, a, bound) + ")"@,
        expr_text(c, GlslExpr::Asin(a), bound) == "asin"@ + "("@ + dep_text(c, a, bound) + ")"@,
        expr_text(c, GlslExpr::Acos(a), bound) == "acos"@ + "("@ + dep_text(c, a, bound) + ")"@,
        expr_text(c, GlslExpr::Atan(a), bound) == "atan"@ + "("@ + dep_text(c, a, bound) + ")"@,
        expr_text(c, GlslExpr::Sqrt(a), bound) == "sqrt"@ + "("@ + dep_text(c, a, bound) + ")"@,
        expr_text(c, GlslExpr::Log(a), bound) == "log"@ + "("@ + dep_text(c, a, bound) + ")"@,
        expr_text(c, GlslExpr::Exp(a), bound) == "exp"@ + "("@ + dep_text(c, a, bound) + ")"@,
        expr_text(c, GlslExpr::Floor(a), bound) == "floor"@ + "("@ + dep_text(c, a, bound) + ")"@,
        expr_text(c, GlslExpr::DerivX(a), bound) == "dFdx"@ + "("@ + dep_text(c, a, bound) + ")"@,
        expr_text(c, GlslExpr::DerivY(a), bound) == "dFdy"@ + "("@ + dep_text(c, a, bound) + ")"@,
        expr_text(c, GlslExpr::AsFloat(a), bound) == "float"@ + "("@ + dep_text(c, a, bound) + ")"@,
        expr_text(c, GlslExpr::AsInt(a), bound) == "int"@ + "("@ + dep_text(c, a, bound) + ")"@,
        expr_text(c, GlslExpr::Neg(a), bound) == "("@ + "-"@ + dep_text(c, a, bound) + ")"@,
        expr_text(c, GlslExpr::INot(a), bound) == "("@ + "~"@ + dep_text(c, a, bound) + ")"@,
        expr_text(c, GlslExpr::BNot(a), bound) == "("@ + "!"@ + dep_text(c, a, bound) + ")"@,
        expr_text(c, GlslExpr::Mix(a, b, t), bound) == "mix("@ + dep_text(c, a, bound) + ","@ + dep_text(c, b, bound) + ","@ + dep_text(c, t, bound) + ")"@,
        expr_text(c, GlslExpr::Select(t, a, b), bound) == "("@ + dep_text(c, t, bound) + "?"@ + dep_text(c, a, bound) + ":"@ + dep_text(c, b, bound) + ")"@,
{
    assert(expr_text(c, GlslExpr::Add(a, b), bound) =~= "("@ + dep_text(c, a, bound) + "+"@ + dep_text(c, b, bound) + ")"@);
    assert(expr_text(c, GlslExpr::Sub(a, b), bound) =~= "("@ + dep_text(c, a, bound) + "-"@ + dep_text(c, b, bound) + ")"@);
    assert(expr_text(c, GlslExpr::Mul(a, b), bound) =~= "("@ + dep_text(c, a, bound) + "*"@ + dep_text(c, b, bound) + ")"@);
    assert(expr_text(c, GlslExpr::Div(a, b), bound) =~= "("@ + dep_text(c, a, bound) + "/"@ + dep_text(c, b, bound) + ")"@);
    assert(expr_text(c, GlslExpr::IRem(a, b), bound) =~= "("@ + dep_text(c, a, bound) + "%"@ + dep_text(c, b, bound) + ")"@);
    assert(expr_text(c, GlslExpr::BAnd(a, b), bound) =~= "("@ + dep_text(c, a, bound) + "&&"@ + dep_text(c, b, bound) + ")"@);
    assert(expr_text(c, GlslExpr::BOr(a, b), bound) =~= "("@ + dep_text(c, a, bound) + "||"@ + dep_text(c, b, bound) + ")"@);
    assert(expr_text(c, GlslExpr::IXor(a, b), bound) =~= "("@ + dep_text(c, a, bound) + "^"@ + dep_text(c, b, bound) + ")"@);
    assert(expr_text(c, GlslExpr::IAnd(a, b), bound) =~= "("@ + dep_text(c, a, bound) + "&"@ + dep_text(c, b, bound) + ")"@);
    assert(expr_text(c, GlslExpr::IOr(a, b), bound) =~= "("@ + dep_text(c, a, bound) + "|"@ + dep_text(c, b, bound) + ")"@);
    assert(expr_text(c, GlslExpr::IShl(a, b), bound) =~= "("@ + dep_text(c, a, bound) + "<<"@ + dep_text(c, b, bound) + ")"@);
    assert(expr_text(c, GlslExpr::IShr(a, b), bound) =~= "("@ + dep_text(c, a, bound) + ">>"@ + dep_text(c, b, bound) + ")"@);
    assert(expr_text(c, GlslExpr::Eq(a, b), bound) =~= "("@ + dep_text(c, a, bound) + "=="@ + dep_text(c, b, bound) + ")"@);
    assert(expr_text(c, GlslExpr::Ne(a, b), bound) =~= "("@ + dep_text(c, a, bound) + "!="@ + dep_text(c, b, bound) + ")"@);
    assert(expr_text(c, GlslExpr::Lt(a, b), bound) =~= "("@ + dep_text(c, a, bound) + "<"@ + dep_text(c, b, bound) + ")"@);
    assert(expr_text(c, GlslExpr::Gt(a, b), bound) =~= "("@ + dep_text(c, a, bound) + ">"@ + dep_text(c, b, bound) + ")"@);
    assert(expr_text(c, GlslExpr::Le(a, b), bound) =~= "("@ + dep_text(c, a, bound) + "<="@ + dep_text(c, b, bound) + ")"@);
    assert(expr_text(c, GlslExpr::Ge(a, b), bound) =~= "("@ + dep_text(c, a, bound) + ">="@ + dep_text(c, b, bound) + ")"@);
    assert(expr_text(c, GlslExpr::Min(a, b), bound) =~= "min"@ + "("@ + dep_text(c, a, bound) + ","@ + dep_text(c, b, bound) + ")"@);
    assert(expr_text(c, GlslExpr::Max(a, b), bound) =~= "max"@ + "("@ + dep_text(c, a, bound) + ","@ + dep_text(c, b, bound) + ")"@);
    assert(expr_text(c, GlslExpr::Pow(a, b), bound) =~= "pow"@ + "("@ + dep_text(c, a, bound) + ","@ + dep_text(c, b, bound) + ")"@);
    assert(expr_text(c, GlslExpr::Atan2(a, b), bound) =~= "atan"@ + "("@ + dep_text(c, a, bound) + ","@ + dep_text(c, b, bound) + ")"@);
    assert(expr_text(c, GlslExpr::FRem(a, b), bound) =~= "mod"@ + "("@ + dep_text(c, a, bound) + ","@ + dep_text(c, b, bound) + ")"@);
    assert(expr_text(c, GlslExpr::Abs(a), bound) =~= "abs"@ + "("@ + dep_text(c, a, bound) + ")"@);
    assert(expr_text(c, GlslExpr::Sign(a), bound) =~= "sign"@ + "("@ + dep_text(c, a, bound) + ")"@);
    assert(expr_text(c, GlslExpr::Sin(a), bound) =~= "sin"@ + "("@ + dep_text(c, a, bound) + ")"@);
    assert(expr_text(c, GlslExpr::Cos(a), bound) =~= "cos"@ + "("@ + dep_text(c, a, bound) + ")"@);
    assert(expr_text(c, GlslExpr::Tan(a), bound) =~= "tan"@ + "("@ + dep_text(c, a, bound) + ")"@);
    assert(expr_text(c, GlslExpr::Asin(a), bound) =~= "asin"@ + "("@ + dep_text(c, a, bound) + ")"@);
    assert(expr_text(c, GlslExpr::Acos(a), bound) =~= "acos"@ + "("@ + dep_text(c, a, bound) + ")"@);
    assert(expr_text(c, GlslExpr::Atan(a), bound) =~= "atan"@ + "("@ + dep_text(c, a, bound) + ")"@);
    assert(expr_text(c, GlslExpr::Sqrt(a), bound) =~= "sqrt"@ + "("@ + dep_text(c, a, bound) + ")"@);
    assert(expr_text(c, GlslExpr::Log(a), bound) =~= "log"@ + "("@ + dep_text(c, a, bound) + ")"@);
    assert(expr_text(c, GlslExpr::Exp(a), bound) =~= "exp"@ + "("@ + dep_text(c, a, bound) + ")"@);
    assert(expr_text(c, GlslExpr::Floor(a), bound) =~= "floor"@ + "("@ + dep_text(c, a, bound) + ")"@);
    assert(expr_text(c, GlslExpr::DerivX(a), bound) =~= "dFdx"@ + "("@ + dep_text(c, a, bound) + ")"@);
    assert(expr_text(c, GlslExpr::DerivY(a), bound) =~= "dFdy"@ + "("@ + dep_text(c, a, bound) + ")"@);
    assert(expr_text(c, GlslExpr::AsFloat(a), bound) =~= "float"@ + "("@ + dep_text(c, a, bound) + ")"@);
    assert(expr_text(c, GlslExpr::AsInt(a), bound) =~= "int"@ + "("@ + dep_text(c, a, bound) + ")"@);
}

/// The value of a digit character: `0` to `9`, then `a` to `f` for ten to fifteen.
pub open spec fn digit_value(c: char) -> int {
    if '0' <= c && c <= '9' {
        (c as int) - ('0' as int)
    } else {
        (c as int) - ('a' as int) + 10
    }
}

/// The number that a string of digits in `base` spells, most significant first.
pub open spec fn digits_value(s: Seq<char>, base: nat) -> int
    decreases s.len(),
{
    if s.len() == 0 {
        0
    } else {
        digits_value(s.drop_last(), base) * base + digit_value(s.last())
    }
}

/// A character that `0` to `9` or `a` to `f` is.
pub open spec fn is_digit_char(c: char) -> bool {
    ('0' <= c && c <= '9') || ('a' <= c && c <= 'f')
}

proof fn lemma_digit_value(d: nat)
    requires
        d < 16,
    ensures
        digit_value(digit_char(d)) == d,
        d < 10 ==> '0' <= digit_char(d) <= '9',
        d >= 10 ==> 'a' <= digit_char(d) <= 'f',
{
}

/// Numbers are written in digits that spell them: reading the decimal or
/// hexadecimal text of `n` back, digit by digit, gives `n`, and every
/// character is a digit of the base.
pub proof fn lemma_radix_reads_back(n: nat, base: nat)
    requires
        2 <= base <= 16,
    ensures
        digits_value(radix_text(n, base), base) == n,
        forall|i: int| 0 <= i < radix_text(n, base).len() ==> 0 <= #[trigger] digit_value(radix_text(n, base)[i]) < base,
        radix_text(n, base).len() >= 1,
        forall|i: int| 0 <= i < radix_text(n, base).len() ==> is_digit_char(#[trigger] radix_text(n, base)[i]),
    decreases n,
{
    if n < base {
        lemma_digit_value(n);
        let t = radix_text(n, base);
        assert(t.drop_last() =~= Seq::<char>::empty());
        assert(t.last() == digit_char(n));
        assert(digits_value(t.drop_last(), base) == 0);
        assert(0 * base == 0) by (nonlinear_arith);
        assert(digits_value(t, base) == digits_value(t.drop_last(), base) * base + digit_value(t.last()));
    } else {
        assert(n / base < n) by (nonlinear_arith)
            requires n >= base, base >= 2;
        lemma_radix_reads_back(n / base, base);
        assert(n % base < base) by (nonlinear_arith)
            requires base >= 2;
        lemma_digit_value(n % base);
        let t = radix_text(n, base);
        let p = radix_text(n / base, base);
        assert(t.drop_last() =~= p);
        assert(n == (n / base) * base + n % base) by (nonlinear_arith)
            requires base >= 2;
        assert(t.last() == digit_char(n % base));
        assert(digits_value(t, base) == digits_value(p, base) * base + digit_value(t.last()));
        assert forall|i: int| 0 <= i < t.len() implies 0 <= #[trigger] digit_value(t[i]) < base by {
            if i < p.len() {
                assert(t[i] == p[i]);
            }
        }
        assert forall|i: int| 0 <= i < t.len() implies is_digit_char(#[trigger] t[i]) by {
            if i < p.len() {
                assert(t[i] == p[i]);
            }
        }
    }
}

/// Each variable has a name of its own: variables of different types, or in
/// different registers, are written with different names.
pub proof fn lemma_var_names_distinct(r1: u32, t1: GlslType, r2: u32, t2: GlslType)
    requires
        r1 != r2 || t1 != t2,
    ensures
        var_text(r1, t1) != var_text(r2, t2),
{
    reveal_strlit("b");
    reveal_strlit("i");
    reveal_strlit("iY");
    reveal_strlit("iW");
    reveal_strlit("f");
    reveal_strlit("fY");
    reveal_strlit("fW");
    lemma_radix_reads_back(r1 as nat, 16);
    lemma_radix_reads_back(r2 as nat, 16);
    let p1 = var_prefix(t1);
    let p2 = var_prefix(t2);
    let h1 = hex_text(r1 as nat);
    let h2 = hex_text(r2 as nat);
    let s1 = var_text(r1, t1);
    let s2 = var_text(r2, t2);
    if s1 == s2 {
        assert(s1[0] == p1[0] && s2[0] == p2[0]);
        assert(s1[1] == (if p1.len() > 1 { p1[1] } else { h1[0] }));
        assert(s2[1] == (if p2.len() > 1 { p2[1] } else { h2[0] }));
        assert(is_digit_char(h1[0]) && is_digit_char(h2[0]));
        assert(p1 == p2);
        assert(t1 == t2);
        assert(h1 =~= s1.subrange(p1.len() as int, s1.len() as int));
        assert(h2 =~= s2.subrange(p2.len() as int, s2.len() as int));
        assert(r1 == r2);
    }
}

/// Each type is declared with the GLSL type of the same kind and size: one
/// boolean, one or several integers (`int`, `ivecN`), one or several floats
/// (`float`, `vecN`).
pub proof fn lemma_type_names()
    ensures
        glsl_type_text(GlslType::Bool1) == "bool"@,
        glsl_type_text(GlslType::Int1) == "int"@,
        glsl_type_text(GlslType::Int2) == "ivec2"@,
        glsl_type_text(GlslType::Int4) == "ivec4"@,
        glsl_type_text(GlslType::Float1) == "float"@,
        glsl_type_text(GlslType::Float2) == "vec2"@,
        glsl_type_text(GlslType::Float4) == "vec4"@,
{
}

} // verus!
