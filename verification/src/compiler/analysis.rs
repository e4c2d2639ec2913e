//! The analyses that turn a shader into a GLSL program: lowering into a
//! graph of GLSL expressions, removal of unused and duplicate expressions,
//! variable allocation and texture counting.

use vstd::prelude::*;
use crate::texture::{TextureChannel, TextureFilter};
use crate::shader::{ShaderData, ShaderOp, ShaderOpType, op_inputs, op_output_type};

verus! {

/// The type of a GLSL expression.
#[derive(Debug, Clone, Copy, PartialEq, Eq, Hash, Structural)]
pub enum GlslType {
    Float1,
    Float2,
    Float4,
    Int1,
    Int2,
    Int4,
    Bool1,
}

/// An expression of the GLSL program, reading the values of earlier expressions by index.
#[derive(Debug, Clone, Copy, PartialEq, Eq, Hash, Structural)]
pub enum GlslExpr {
    /// A float constant, by its bit pattern.
    LitFloat(u32),
    LitInt(i32),
    LitBool(bool),
    Add(u32, u32),
    Sub(u32, u32),
    Mul(u32, u32),
    Div(u32, u32),
    Min(u32, u32),
    Max(u32, u32),
    Neg(u32),
    INot(u32),
    IAnd(u32, u32),
    IOr(u32, u32),
    IXor(u32, u32),
    IShl(u32, u32),
    IShr(u32, u32),
    BNot(u32),
    BAnd(u32, u32),
    BOr(u32, u32),
    IRem(u32, u32),
    FRem(u32, u32),
    Lt(u32, u32),
    Le(u32, u32),
    Gt(u32, u32),
    Ge(u32, u32),
    Eq(u32, u32),
    Ne(u32, u32),
    Sin(u32),
    Cos(u32),
    Tan(u32),
    Asin(u32),
    Acos(u32),
    Atan(u32),
    Exp(u32),
    Log(u32),
    Sqrt(u32),
    Abs(u32),
    Sign(u32),
    Floor(u32),
    Pow(u32, u32),
    Atan2(u32, u32),
    DerivX(u32),
    DerivY(u32),
    /// Choice (condition, if true, if false).
    Select(u32, u32, u32),
    /// Linear interpolation (start, end, t).
    Mix(u32, u32, u32),
    /// One component of a vector.
    Swizzle1(u32, u8),
    /// A vector of four floats.
    Vec4(u32, u32, u32, u32),
    AsInt(u32),
    AsFloat(u32),
    /// Four floats of the object's data at a given index: `-> float4`.
    DataFloat(u32),
    /// Four integers of the object's data at a given index: `-> int4`.
    DataInt(u32),
    /// Sample a texture (slot, filter, x, y): `-> float4`.
    TextureSample(u32, TextureFilter, u32, u32),
    /// The size of a texture (slot): `-> int2`.
    TextureSize(u32),
    /// The pixel position: `-> float2`.
    Position,
    /// The render target size: `-> float2`.
    Resolution,
    /// The bounds of the current quad: `-> float4`.
    QuadBounds,
    /// The output color: `float4 ->`.
    Output(u32),
    /// A variable (index, type).
    Variable(u32, GlslType),
}

/// The expressions `e` reads, in order.
pub open spec fn expr_deps(e: GlslExpr) -> Seq<u32> {
    match e {
        GlslExpr::LitFloat(_)
        | GlslExpr::LitInt(_)
        | GlslExpr::LitBool(_)
        | GlslExpr::DataFloat(_)
        | GlslExpr::DataInt(_)
        | GlslExpr::TextureSize(_)
        | GlslExpr::Position
        | GlslExpr::Resolution
        | GlslExpr::QuadBounds
        | GlslExpr::Variable(_, _) => seq![],
        GlslExpr::Add(a, b)
        | GlslExpr::Sub(a, b)
        | GlslExpr::Mul(a, b)
        | GlslExpr::Div(a, b)
        | GlslExpr::Min(a, b)
        | GlslExpr::Max(a, b)
        | GlslExpr::IAnd(a, b)
        | GlslExpr::IOr(a, b)
        | GlslExpr::IXor(a, b)
        | GlslExpr::IShl(a, b)
        | GlslExpr::IShr(a, b)
        | GlslExpr::BAnd(a, b)
        | GlslExpr::BOr(a, b)
        | GlslExpr::IRem(a, b)
        | GlslExpr::FRem(a, b)
        | GlslExpr::Lt(a, b)
        | GlslExpr::Le(a, b)
        | GlslExpr::Gt(a, b)
        | GlslExpr::Ge(a, b)
        | GlslExpr::Eq(a, b)
        | GlslExpr::Ne(a, b)
        | GlslExpr::Pow(a, b)
        | GlslExpr::Atan2(a, b) => seq![a, b],
        GlslExpr::Neg(a)
        | GlslExpr::INot(a)
        | GlslExpr::BNot(a)
        | GlslExpr::Sin(a)
        | GlslExpr::Cos(a)
        | GlslExpr::Tan(a)
        | GlslExpr::Asin(a)
        | GlslExpr::Acos(a)
        | GlslExpr::Atan(a)
        | GlslExpr::Exp(a)
        | GlslExpr::Log(a)
        | GlslExpr::Sqrt(a)
        | GlslExpr::Abs(a)
        | GlslExpr::Sign(a)
        | GlslExpr::Floor(a)
        | GlslExpr::DerivX(a)
        | GlslExpr::DerivY(a)
        | GlslExpr::Swizzle1(a, _)
        | GlslExpr::AsInt(a)
        | GlslExpr::AsFloat(a)
        | GlslExpr::Output(a) => seq![a],
        GlslExpr::Select(a, b, c) => seq![a, b, c],
        GlslExpr::Mix(a, b, c) => seq![c, a, b],
        GlslExpr::Vec4(a, b, c, d) => seq![a, b, c, d],
        GlslExpr::TextureSample(_, _, c, d) => seq![c, d],
    }
}

/// `e` with each expression it reads, `d`, replaced by `m[d]`.
pub open spec fn expr_map(e: GlslExpr, m: Seq<u32>) -> GlslExpr {
    match e {
        GlslExpr::LitFloat(_) => e,
        GlslExpr::LitInt(_) => e,
        GlslExpr::LitBool(_) => e,
        GlslExpr::Add(a, b) => GlslExpr::Add(m[a as int], m[b as int]),
        GlslExpr::Sub(a, b) => GlslExpr::Sub(m[a as int], m[b as int]),
        GlslExpr::Mul(a, b) => GlslExpr::Mul(m[a as int], m[b as int]),
        GlslExpr::Div(a, b) => GlslExpr::Div(m[a as int], m[b as int]),
        GlslExpr::Min(a, b) => GlslExpr::Min(m[a as int], m[b as int]),
        GlslExpr::Max(a, b) => GlslExpr::Max(m[a as int], m[b as int]),
        GlslExpr::Neg(a) => GlslExpr::Neg(m[a as int]),
        GlslExpr::INot(a) => GlslExpr::INot(m[a as int]),
        GlslExpr::IAnd(a, b) => GlslExpr::IAnd(m[a as int], m[b as int]),
        GlslExpr::IOr(a, b) => GlslExpr::IOr(m[a as int], m[b as int]),
        GlslExpr::IXor(a, b) => GlslExpr::IXor(m[a as int], m[b as int]),
        GlslExpr::IShl(a, b) => GlslExpr::IShl(m[a as int], m[b as int]),
        GlslExpr::IShr(a, b) => GlslExpr::IShr(m[a as int], m[b as int]),
        GlslExpr::BNot(a) => GlslExpr::BNot(m[a as int]),
        GlslExpr::BAnd(a, b) => GlslExpr::BAnd(m[a as int], m[b as int]),
        GlslExpr::BOr(a, b) => GlslExpr::BOr(m[a as int], m[b as int]),
        GlslExpr::IRem(a, b) => GlslExpr::IRem(m[a as int], m[b as int]),
        GlslExpr::FRem(a, b) => GlslExpr::FRem(m[a as int], m[b as int]),
        GlslExpr::Lt(a, b) => GlslExpr::Lt(m[a as int], m[b as int]),
        GlslExpr::Le(a, b) => GlslExpr::Le(m[a as int], m[b as int]),
        GlslExpr::Gt(a, b) => GlslExpr::Gt(m[a as int], m[b as int]),
        GlslExpr::Ge(a, b) => GlslExpr::Ge(m[a as int], m[b as int]),
        GlslExpr::Eq(a, b) => GlslExpr::Eq(m[a as int], m[b as int]),
        GlslExpr::Ne(a, b) => GlslExpr::Ne(m[a as int], m[b as int]),
        GlslExpr::Sin(a) => GlslExpr::Sin(m[a as int]),
        GlslExpr::Cos(a) => GlslExpr::Cos(m[a as int]),
        GlslExpr::Tan(a) => GlslExpr::Tan(m[a as int]),
        GlslExpr::Asin(a) => GlslExpr::Asin(m[a as int]),
        GlslExpr::Acos(a) => GlslExpr::Acos(m[a as int]),
        GlslExpr::Atan(a) => GlslExpr::Atan(m[a as int]),
        GlslExpr::Exp(a) => GlslExpr::Exp(m[a as int]),
        GlslExpr::Log(a) => GlslExpr::Log(m[a as int]),
        GlslExpr::Sqrt(a) => GlslExpr::Sqrt(m[a as int]),
        GlslExpr::Abs(a) => GlslExpr::Abs(m[a as int]),
        GlslExpr::Sign(a) => GlslExpr::Sign(m[a as int]),
        GlslExpr::Floor(a) => GlslExpr::Floor(m[a as int]),
        GlslExpr::Pow(a, b) => GlslExpr::Pow(m[a as int], m[b as int]),
        GlslExpr::Atan2(a, b) => GlslExpr::Atan2(m[a as int], m[b as int]),
        GlslExpr::DerivX(a) => GlslExpr::DerivX(m[a as int]),
        GlslExpr::DerivY(a) => GlslExpr::DerivY(m[a as int]),
        GlslExpr::Select(a, b, c) => GlslExpr::Select(m[a as int], m[b as int], m[c as int]),
        GlslExpr::Mix(a, b, c) => GlslExpr::Mix(m[a as int], m[b as int], m[c as int]),
        GlslExpr::Swizzle1(a, b) => GlslExpr::Swizzle1(m[a as int], b),
        GlslExpr::Vec4(a, b, c, d) => GlslExpr::Vec4(m[a as int], m[b as int], m[c as int], m[d as int]),
        GlslExpr::AsInt(a) => GlslExpr::AsInt(m[a as int]),
        GlslExpr::AsFloat(a) => GlslExpr::AsFloat(m[a as int]),
        GlslExpr::DataFloat(_) => e,
        GlslExpr::DataInt(_) => e,
        GlslExpr::TextureSample(a, b, c, d) => GlslExpr::TextureSample(a, b, m[c as int], m[d as int]),
        GlslExpr::TextureSize(_) => e,
        GlslExpr::Position => e,
        GlslExpr::Resolution => e,
        GlslExpr::QuadBounds => e,
        GlslExpr::Output(a) => GlslExpr::Output(m[a as int]),
        GlslExpr::Variable(_, _) => e,
    }
}

impl GlslExpr {
    /// The expressions this one reads, in order.
    pub fn visit_deps(self) -> (r: Vec<u32>)
        ensures
            r@ == expr_deps(self),
    {
        match self {
            GlslExpr::LitFloat(_)
            | GlslExpr::LitInt(_)
            | GlslExpr::LitBool(_)
            | GlslExpr::DataFloat(_)
            | GlslExpr::DataInt(_)
            | GlslExpr::TextureSize(_)
            | GlslExpr::Position
            | GlslExpr::Resolution
            | GlslExpr::QuadBounds
            | GlslExpr::Variable(_, _) => vec![],
            GlslExpr::Add(a, b)
            | GlslExpr::Sub(a, b)
            | GlslExpr::Mul(a, b)
            | GlslExpr::Div(a, b)
            | GlslExpr::Min(a, b)
            | GlslExpr::Max(a, b)
            | GlslExpr::IAnd(a, b)
            | GlslExpr::IOr(a, b)
            | GlslExpr::IXor(a, b)
            | GlslExpr::IShl(a, b)
            | GlslExpr::IShr(a, b)
            | GlslExpr::BAnd(a, b)
            | GlslExpr::BOr(a, b)
            | GlslExpr::IRem(a, b)
            | GlslExpr::FRem(a, b)
            | GlslExpr::Lt(a, b)
            | GlslExpr::Le(a, b)
            | GlslExpr::Gt(a, b)
            | GlslExpr::Ge(a, b)
            | GlslExpr::Eq(a, b)
            | GlslExpr::Ne(a, b)
            | GlslExpr::Pow(a, b)
            | GlslExpr::Atan2(a, b) => vec![a, b],
            GlslExpr::Neg(a)
            | GlslExpr::INot(a)
            | GlslExpr::BNot(a)
            | GlslExpr::Sin(a)
            | GlslExpr::Cos(a)
            | GlslExpr::Tan(a)
            | GlslExpr::Asin(a)
            | GlslExpr::Acos(a)
            | GlslExpr::Atan(a)
            | GlslExpr::Exp(a)
            | GlslExpr::Log(a)
            | GlslExpr::Sqrt(a)
            | GlslExpr::Abs(a)
            | GlslExpr::Sign(a)
            | GlslExpr::Floor(a)
            | GlslExpr::DerivX(a)
            | GlslExpr::DerivY(a)
            | GlslExpr::Swizzle1(a, _)
            | GlslExpr::AsInt(a)
            | GlslExpr::AsFloat(a)
            | GlslExpr::Output(a) => vec![a],
            GlslExpr::Select(a, b, c) => vec![a, b, c],
            GlslExpr::Mix(a, b, c) => vec![c, a, b],
            GlslExpr::Vec4(a, b, c, d) => vec![a, b, c, d],
            GlslExpr::TextureSample(_, _, c, d) => vec![c, d],
        }
    }

    /// This expression with each expression it reads, `d`, replaced by `mapping[d]`.
    pub fn map_deps(self, mapping: &[u32]) -> (r: GlslExpr)
        requires
            forall|j: int| 0 <= j < expr_deps(self).len() ==> (#[trigger] expr_deps(self)[j]) < mapping@.len(),
        ensures
            r == expr_map(self, mapping@),
            expr_deps(r) == expr_deps(self).map_values(|d: u32| mapping@[d as int]),
    {
        match self {
            GlslExpr::LitFloat(_) => {
                assert(expr_deps(self).map_values(|d: u32| mapping@[d as int]) =~= seq![]);
                self
            },
            GlslExpr::LitInt(_) => {
                assert(expr_deps(self).map_values(|d: u32| mapping@[d as int]) =~= seq![]);
                self
            },
            GlslExpr::LitBool(_) => {
                assert(expr_deps(self).map_values(|d: u32| mapping@[d as int]) =~= seq![]);
                self
            },
            GlslExpr::Add(a, b) => {
                proof { assert(expr_deps(self)[0] < mapping@.len()); assert(expr_deps(self)[1] < mapping@.len()); }
                let r = GlslExpr::Add(mapping[a as usize], mapping[b as usize]);
                assert(expr_deps(self).map_values(|d: u32| mapping@[d as int]) =~= seq![mapping@[a as int], mapping@[b as int]]);
                r
            },
            GlslExpr::Sub(a, b) => {
                proof { assert(expr_deps(self)[0] < mapping@.len()); assert(expr_deps(self)[1] < mapping@.len()); }
                let r = GlslExpr::Sub(mapping[a as usize], mapping[b as usize]);
                assert(expr_deps(self).map_values(|d: u32| mapping@[d as int]) =~= seq![mapping@[a as int], mapping@[b as int]]);
                r
            },
            GlslExpr::Mul(a, b) => {
                proof { assert(expr_deps(self)[0] < mapping@.len()); assert(expr_deps(self)[1] < mapping@.len()); }
                let r = GlslExpr::Mul(mapping[a as usize], mapping[b as usize]);
                assert(expr_deps(self).map_values(|d: u32| mapping@[d as int]) =~= seq![mapping@[a as int], mapping@[b as int]]);
                r
            },
            GlslExpr::Div(a, b) => {
                proof { assert(expr_deps(self)[0] < mapping@.len()); assert(expr_deps(self)[1] < mapping@.len()); }
                let r = GlslExpr::Div(mapping[a as usize], mapping[b as usize]);
                assert(expr_deps(self).map_values(|d: u32| mapping@[d as int]) =~= seq![mapping@[a as int], mapping@[b as int]]);
                r
            },
            GlslExpr::Min(a, b) => {
                proof { assert(expr_deps(self)[0] < mapping@.len()); assert(expr_deps(self)[1] < mapping@.len()); }
                let r = GlslExpr::Min(mapping[a as usize], mapping[b as usize]);
                assert(expr_deps(self).map_values(|d: u32| mapping@[d as int]) =~= seq![mapping@[a as int], mapping@[b as int]]);
                r
            },
            GlslExpr::Max(a, b) => {
                proof { assert(expr_deps(self)[0] < mapping@.len()); assert(expr_deps(self)[1] < mapping@.len()); }
                let r = GlslExpr::Max(mapping[a as usize], mapping[b as usize]);
                assert(expr_deps(self).map_values(|d: u32| mapping@[d as int]) =~= seq![mapping@[a as int], mapping@[b as int]]);
                r
            },
            GlslExpr::Neg(a) => {
                proof { assert(expr_deps(self)[0] < mapping@.len()); }
                let r = GlslExpr::Neg(mapping[a as usize]);
                assert(expr_deps(self).map_values(|d: u32| mapping@[d as int]) =~= seq![mapping@[a as int]]);
                r
            },
            GlslExpr::INot(a) => {
                proof { assert(expr_deps(self)[0] < mapping@.len()); }
                let r = GlslExpr::INot(mapping[a as usize]);
                assert(expr_deps(self).map_values(|d: u32| mapping@[d as int]) =~= seq![mapping@[a as int]]);
                r
            },
            GlslExpr::IAnd(a, b) => {
                proof { assert(expr_deps(self)[0] < mapping@.len()); assert(expr_deps(self)[1] < mapping@.len()); }
                let r = GlslExpr::IAnd(mapping[a as usize], mapping[b as usize]);
                assert(expr_deps(self).map_values(|d: u32| mapping@[d as int]) =~= seq![mapping@[a as int], mapping@[b as int]]);
                r
            },
            GlslExpr::IOr(a, b) => {
                proof { assert(expr_deps(self)[0] < mapping@.len()); assert(expr_deps(self)[1] < mapping@.len()); }
                let r = GlslExpr::IOr(mapping[a as usize], mapping[b as usize]);
                assert(expr_deps(self).map_values(|d: u32| mapping@[d as int]) =~= seq![mapping@[a as int], mapping@[b as int]]);
                r
            },
            GlslExpr::IXor(a, b) => {
                proof { assert(expr_deps(self)[0] < mapping@.len()); assert(expr_deps(self)[1] < mapping@.len()); }
                let r = GlslExpr::IXor(mapping[a as usize], mapping[b as usize]);
                assert(expr_deps(self).map_values(|d: u32| mapping@[d as int]) =~= seq![mapping@[a as int], mapping@[b as int]]);
                r
            },
            GlslExpr::IShl(a, b) => {
                proof { assert(expr_deps(self)[0] < mapping@.len()); assert(expr_deps(self)[1] < mapping@.len()); }
                let r = GlslExpr::IShl(mapping[a as usize], mapping[b as usize]);
                assert(expr_deps(self).map_values(|d: u32| mapping@[d as int]) =~= seq![mapping@[a as int], mapping@[b as int]]);
                r
            },
            GlslExpr::IShr(a, b) => {
                proof { assert(expr_deps(self)[0] < mapping@.len()); assert(expr_deps(self)[1] < mapping@.len()); }
                let r = GlslExpr::IShr(mapping[a as usize], mapping[b as usize]);
                assert(expr_deps(self).map_values(|d: u32| mapping@[d as int]) =~= seq![mapping@[a as int], mapping@[b as int]]);
                r
            },
            GlslExpr::BNot(a) => {
                proof { assert(expr_deps(self)[0] < mapping@.len()); }
                let r = GlslExpr::BNot(mapping[a as usize]);
                assert(expr_deps(self).map_values(|d: u32| mapping@[d as int]) =~= seq![mapping@[a as int]]);
                r
            },
            GlslExpr::BAnd(a, b) => {
                proof { assert(expr_deps(self)[0] < mapping@.len()); assert(expr_deps(self)[1] < mapping@.len()); }
                let r = GlslExpr::BAnd(mapping[a as usize], mapping[b as usize]);
                assert(expr_deps(self).map_values(|d: u32| mapping@[d as int]) =~= seq![mapping@[a as int], mapping@[b as int]]);
                r
            },
            GlslExpr::BOr(a, b) => {
                proof { assert(expr_deps(self)[0] < mapping@.len()); assert(expr_deps(self)[1] < mapping@.len()); }
                let r = GlslExpr::BOr(mapping[a as usize], mapping[b as usize]);
                assert(expr_deps(self).map_values(|d: u32| mapping@[d as int]) =~= seq![mapping@[a as int], mapping@[b as int]]);
                r
            },
            GlslExpr::IRem(a, b) => {
                proof { assert(expr_deps(self)[0] < mapping@.len()); assert(expr_deps(self)[1] < mapping@.len()); }
                let r = GlslExpr::IRem(mapping[a as usize], mapping[b as usize]);
                assert(expr_deps(self).map_values(|d: u32| mapping@[d as int]) =~= seq![mapping@[a as int], mapping@[b as int]]);
                r
            },
            GlslExpr::FRem(a, b) => {
                proof { assert(expr_deps(self)[0] < mapping@.len()); assert(expr_deps(self)[1] < mapping@.len()); }
                let r = GlslExpr::FRem(mapping[a as usize], mapping[b as usize]);
                assert(expr_deps(self).map_values(|d: u32| mapping@[d as int]) =~= seq![mapping@[a as int], mapping@[b as int]]);
                r
            },
            GlslExpr::Lt(a, b) => {
                proof { assert(expr_deps(self)[0] < mapping@.len()); assert(expr_deps(self)[1] < mapping@.len()); }
                let r = GlslExpr::Lt(mapping[a as usize], mapping[b as usize]);
                assert(expr_deps(self).map_values(|d: u32| mapping@[d as int]) =~= seq![mapping@[a as int], mapping@[b as int]]);
                r
            },
            GlslExpr::Le(a, b) => {
                proof { assert(expr_deps(self)[0] < mapping@.len()); assert(expr_deps(self)[1] < mapping@.len()); }
                let r = GlslExpr::Le(mapping[a as usize], mapping[b as usize]);
                assert(expr_deps(self).map_values(|d: u32| mapping@[d as int]) =~= seq![mapping@[a as int], mapping@[b as int]]);
                r
            },
            GlslExpr::Gt(a, b) => {
                proof { assert(expr_deps(self)[0] < mapping@.len()); assert(expr_deps(self)[1] < mapping@.len()); }
                let r = GlslExpr::Gt(mapping[a as usize], mapping[b as usize]);
                assert(expr_deps(self).map_values(|d: u32| mapping@[d as int]) =~= seq![mapping@[a as int], mapping@[b as int]]);
                r
            },
            GlslExpr::Ge(a, b) => {
                proof { assert(expr_deps(self)[0] < mapping@.len()); assert(expr_deps(self)[1] < mapping@.len()); }
                let r = GlslExpr::Ge(mapping[a as usize], mapping[b as usize]);
                assert(expr_deps(self).map_values(|d: u32| mapping@[d as int]) =~= seq![mapping@[a as int], mapping@[b as int]]);
                r
            },
            GlslExpr::Eq(a, b) => {
                proof { assert(expr_deps(self)[0] < mapping@.len()); assert(expr_deps(self)[1] < mapping@.len()); }
                let r = GlslExpr::Eq(mapping[a as usize], mapping[b as usize]);
                assert(expr_deps(self).map_values(|d: u32| mapping@[d as int]) =~= seq![mapping@[a as int], mapping@[b as int]]);
                r
            },
            GlslExpr::Ne(a, b) => {
                proof { assert(expr_deps(self)[0] < mapping@.len()); assert(expr_deps(self)[1] < mapping@.len()); }
                let r = GlslExpr::Ne(mapping[a as usize], mapping[b as usize]);
                assert(expr_deps(self).map_values(|d: u32| mapping@[d as int]) =~= seq![mapping@[a as int], mapping@[b as int]]);
                r
            },
            GlslExpr::Sin(a) => {
                proof { assert(expr_deps(self)[0] < mapping@.len()); }
                let r = GlslExpr::Sin(mapping[a as usize]);
                assert(expr_deps(self).map_values(|d: u32| mapping@[d as int]) =~= seq![mapping@[a as int]]);
                r
            },
            GlslExpr::Cos(a) => {
                proof { assert(expr_deps(self)[0] < mapping@.len()); }
                let r = GlslExpr::Cos(mapping[a as usize]);
                assert(expr_deps(self).map_values(|d: u32| mapping@[d as int]) =~= seq![mapping@[a as int]]);
                r
            },
            GlslExpr::Tan(a) => {
                proof { assert(expr_deps(self)[0] < mapping@.len()); }
                let r = GlslExpr::Tan(mapping[a as usize]);
                assert(expr_deps(self).map_values(|d: u32| mapping@[d as int]) =~= seq![mapping@[a as int]]);
                r
            },
            GlslExpr::Asin(a) => {
                proof { assert(expr_deps(self)[0] < mapping@.len()); }
                let r = GlslExpr::Asin(mapping[a as usize]);
                assert(expr_deps(self).map_values(|d: u32| mapping@[d as int]) =~= seq![mapping@[a as int]]);
                r
            },
            GlslExpr::Acos(a) => {
                proof { assert(expr_deps(self)[0] < mapping@.len()); }
                let r = GlslExpr::Acos(mapping[a as usize]);
                assert(expr_deps(self).map_values(|d: u32| mapping@[d as int]) =~= seq![mapping@[a as int]]);
                r
            },
            GlslExpr::Atan(a) => {
                proof { assert(expr_deps(self)[0] < mapping@.len()); }
                let r = GlslExpr::Atan(mapping[a as usize]);
                assert(expr_deps(self).map_values(|d: u32| mapping@[d as int]) =~= seq![mapping@[a as int]]);
                r
            },
            GlslExpr::Exp(a) => {
                proof { assert(expr_deps(self)[0] < mapping@.len()); }
                let r = GlslExpr::Exp(mapping[a as usize]);
                assert(expr_deps(self).map_values(|d: u32| mapping@[d as int]) =~= seq![mapping@[a as int]]);
                r
            },
            GlslExpr::Log(a) => {
                proof { assert(expr_deps(self)[0] < mapping@.len()); }
                let r = GlslExpr::Log(mapping[a as usize]);
                assert(expr_deps(self).map_values(|d: u32| mapping@[d as int]) =~= seq![mapping@[a as int]]);
                r
            },
            GlslExpr::Sqrt(a) => {
                proof { assert(expr_deps(self)[0] < mapping@.len()); }
                let r = GlslExpr::Sqrt(mapping[a as usize]);
                assert(expr_deps(self).map_values(|d: u32| mapping@[d as int]) =~= seq![mapping@[a as int]]);
                r
            },
            GlslExpr::Abs(a) => {
                proof { assert(expr_deps(self)[0] < mapping@.len()); }
                let r = GlslExpr::Abs(mapping[a as usize]);
                assert(expr_deps(self).map_values(|d: u32| mapping@[d as int]) =~= seq![mapping@[a as int]]);
                r
            },
            GlslExpr::Sign(a) => {
                proof { assert(expr_deps(self)[0] < mapping@.len()); }
                let r = GlslExpr::Sign(mapping[a as usize]);
                assert(expr_deps(self).map_values(|d: u32| mapping@[d as int]) =~= seq![mapping@[a as int]]);
                r
            },
            GlslExpr::Floor(a) => {
                proof { assert(expr_deps(self)[0] < mapping@.len()); }
                let r = GlslExpr::Floor(mapping[a as usize]);
                assert(expr_deps(self).map_values(|d: u32| mapping@[d as int]) =~= seq![mapping@[a as int]]);
                r
            },
            GlslExpr::Pow(a, b) => {
                proof { assert(expr_deps(self)[0] < mapping@.len()); assert(expr_deps(self)[1] < mapping@.len()); }
                let r = GlslExpr::Pow(mapping[a as usize], mapping[b as usize]);
                assert(expr_deps(self).map_values(|d: u32| mapping@[d as int]) =~= seq![mapping@[a as int], mapping@[b as int]]);
                r
            },
            GlslExpr::Atan2(a, b) => {
                proof { assert(expr_deps(self)[0] < mapping@.len()); assert(expr_deps(self)[1] < mapping@.len()); }
                let r = GlslExpr::Atan2(mapping[a as usize], mapping[b as usize]);
                assert(expr_deps(self).map_values(|d: u32| mapping@[d as int]) =~= seq![mapping@[a as int], mapping@[b as int]]);
                r
            },
            GlslExpr::DerivX(a) => {
                proof { assert(expr_deps(self)[0] < mapping@.len()); }
                let r = GlslExpr::DerivX(mapping[a as usize]);
                assert(expr_deps(self).map_values(|d: u32| mapping@[d as int]) =~= seq![mapping@[a as int]]);
                r
            },
            GlslExpr::DerivY(a) => {
                proof { assert(expr_deps(self)[0] < mapping@.len()); }
                let r = GlslExpr::DerivY(mapping[a as usize]);
                assert(expr_deps(self).map_values(|d: u32| mapping@[d as int]) =~= seq![mapping@[a as int]]);
                r
            },
            GlslExpr::Select(a, b, c) => {
                proof { assert(expr_deps(self)[0] < mapping@.len()); assert(expr_deps(self)[1] < mapping@.len()); assert(expr_deps(self)[2] < mapping@.len()); }
                let r = GlslExpr::Select(mapping[a as usize], mapping[b as usize], mapping[c as usize]);
                assert(expr_deps(self).map_values(|d: u32| mapping@[d as int]) =~= seq![mapping@[a as int], mapping@[b as int], mapping@[c as int]]);
                r
            },
            GlslExpr::Mix(a, b, c) => {
                proof { assert(expr_deps(self)[0] < mapping@.len()); assert(expr_deps(self)[1] < mapping@.len()); assert(expr_deps(self)[2] < mapping@.len()); }
                let r = GlslExpr::Mix(mapping[a as usize], mapping[b as usize], mapping[c as usize]);
                assert(expr_deps(self).map_values(|d: u32| mapping@[d as int]) =~= seq![mapping@[c as int], mapping@[a as int], mapping@[b as int]]);
                r
            },
            GlslExpr::Swizzle1(a, b) => {
                proof { assert(expr_deps(self)[0] < mapping@.len()); }
                let r = GlslExpr::Swizzle1(mapping[a as usize], b);
                assert(expr_deps(self).map_values(|d: u32| mapping@[d as int]) =~= seq![mapping@[a as int]]);
                r
            },
            GlslExpr::Vec4(a, b, c, d) => {
                proof { assert(expr_deps(self)[0] < mapping@.len()); assert(expr_deps(self)[1] < mapping@.len()); assert(expr_deps(self)[2] < mapping@.len()); assert(expr_deps(self)[3] < mapping@.len()); }
                let r = GlslExpr::Vec4(mapping[a as usize], mapping[b as usize], mapping[c as usize], mapping[d as usize]);
                assert(expr_deps(self).map_values(|d: u32| mapping@[d as int]) =~= seq![mapping@[a as int], mapping@[b as int], mapping@[c as int], mapping@[d as int]]);
                r
            },
            GlslExpr::AsInt(a) => {
                proof { assert(expr_deps(self)[0] < mapping@.len()); }
                let r = GlslExpr::AsInt(mapping[a as usize]);
                assert(expr_deps(self).map_values(|d: u32| mapping@[d as int]) =~= seq![mapping@[a as int]]);
                r
            },
            GlslExpr::AsFloat(a) => {
                proof { assert(expr_deps(self)[0] < mapping@.len()); }
                let r = GlslExpr::AsFloat(mapping[a as usize]);
                assert(expr_deps(self).map_values(|d: u32| mapping@[d as int]) =~= seq![mapping@[a as int]]);
                r
            },
            GlslExpr::DataFloat(_) => {
                assert(expr_deps(self).map_values(|d: u32| mapping@[d as int]) =~= seq![]);
                self
            },
            GlslExpr::DataInt(_) => {
                assert(expr_deps(self).map_values(|d: u32| mapping@[d as int]) =~= seq![]);
                self
            },
            GlslExpr::TextureSample(a, b, c, d) => {
                proof { assert(expr_deps(self)[0] < mapping@.len()); assert(expr_deps(self)[1] < mapping@.len()); }
                let r = GlslExpr::TextureSample(a, b, mapping[c as usize], mapping[d as usize]);
                assert(expr_deps(self).map_values(|d: u32| mapping@[d as int]) =~= seq![mapping@[c as int], mapping@[d as int]]);
                r
            },
            GlslExpr::TextureSize(_) => {
                assert(expr_deps(self).map_values(|d: u32| mapping@[d as int]) =~= seq![]);
                self
            },
            GlslExpr::Position => {
                assert(expr_deps(self).map_values(|d: u32| mapping@[d as int]) =~= seq![]);
                self
            },
            GlslExpr::Resolution => {
                assert(expr_deps(self).map_values(|d: u32| mapping@[d as int]) =~= seq![]);
                self
            },
            GlslExpr::QuadBounds => {
                assert(expr_deps(self).map_values(|d: u32| mapping@[d as int]) =~= seq![]);
                self
            },
            GlslExpr::Output(a) => {
                proof { assert(expr_deps(self)[0] < mapping@.len()); }
                let r = GlslExpr::Output(mapping[a as usize]);
                assert(expr_deps(self).map_values(|d: u32| mapping@[d as int]) =~= seq![mapping@[a as int]]);
                r
            },
            GlslExpr::Variable(_, _) => {
                assert(expr_deps(self).map_values(|d: u32| mapping@[d as int]) =~= seq![]);
                self
            },
        }
    }
}

/// The texture slot an expression reads, if it reads one.
pub open spec fn texture_slot(e: GlslExpr) -> Option<u32> {
    match e {
        GlslExpr::TextureSize(t) | GlslExpr::TextureSample(t, _, _, _) => Some(t),
        _ => None,
    }
}

/// No expression of `entries` reads the texture slot `u32::MAX`.
pub open spec fn slots_in_range(entries: Seq<(GlslExpr, GlslType)>) -> bool {
    forall|i: int| 0 <= i < entries.len() ==> (#[trigger] texture_slot(entries[i].0)) != Some(u32::MAX)
}

/// The texture slot a shader operation reads, if it reads one.
pub open spec fn op_texture_slot(op: ShaderOp) -> Option<u32> {
    match op {
        ShaderOp::TexW(t) | ShaderOp::TexH(t) | ShaderOp::TexSample(t, _, _, _, _) => Some(t),
        _ => None,
    }
}

/// No operation of `nodes` reads the texture slot `u32::MAX`.
pub open spec fn op_slots_in_range(nodes: Seq<ShaderOp>) -> bool {
    forall|i: int| 0 <= i < nodes.len() ==> (#[trigger] op_texture_slot(nodes[i])) != Some(u32::MAX)
}

/// How many times `a` occurs in `s`.
pub open spec fn count_of(s: Seq<u32>, a: u32) -> nat
    decreases s.len(),
{
    if s.len() == 0 {
        0
    } else {
        count_of(s.drop_last(), a) + if s.last() == a { 1nat } else { 0nat }
    }
}

/// The indices of the entries among the first `n` that read entry `i`, in
/// order, each as many times as it reads it.
pub open spec fn readers(entries: Seq<(GlslExpr, GlslType)>, i: int, n: nat) -> Seq<u32>
    decreases n,
{
    if n == 0 {
        Seq::empty()
    } else {
        readers(entries, i, (n - 1) as nat) + Seq::new(
            count_of(expr_deps(entries[n - 1].0), i as u32),
            |_k: int| (n - 1) as u32,
        )
    }
}

/// Every expression of `entries` reads only expressions before it.
pub open spec fn reads_backward(entries: Seq<(GlslExpr, GlslType)>) -> bool {
    forall|i: int, j: int| 0 <= i < entries.len() && 0 <= j < expr_deps(entries[i].0).len()
        ==> (#[trigger] expr_deps(entries[i].0)[j]) < i
}

/// Every expression `e` reads is below `n`.
pub open spec fn deps_below(e: GlslExpr, n: nat) -> bool {
    forall|j: int| 0 <= j < expr_deps(e).len() ==> (#[trigger] expr_deps(e)[j]) < n
}

proof fn lemma_count_none(s: Seq<u32>, a: u32)
    requires
        forall|j: int| 0 <= j < s.len() ==> s[j] != a,
    ensures
        count_of(s, a) == 0,
    decreases s.len(),
{
    if s.len() > 0 {
        lemma_count_none(s.drop_last(), a);
    }
}

proof fn lemma_no_readers_yet(entries: Seq<(GlslExpr, GlslType)>, i: int, n: nat)
    requires
        reads_backward(entries),
        entries.len() <= u32::MAX,
        0 <= i < entries.len(),
        n <= i + 1,
        n <= entries.len(),
    ensures
        readers(entries, i, n) == Seq::<u32>::empty(),
    decreases n,
{
    if n > 0 {
        lemma_no_readers_yet(entries, i, (n - 1) as nat);
        let deps = expr_deps(entries[n - 1].0);
        assert forall|j: int| 0 <= j < deps.len() implies deps[j] != i as u32 by {
            assert(deps[j] < n - 1);
        }
        lemma_count_none(deps, i as u32);
        assert(readers(entries, i, n) =~= Seq::<u32>::empty());
    }
}

proof fn lemma_readers_prefix(entries: Seq<(GlslExpr, GlslType)>, more: Seq<(GlslExpr, GlslType)>, i: int, n: nat)
    requires
        n <= entries.len(),
    ensures
        readers(entries + more, i, n) == readers(entries, i, n),
    decreases n,
{
    if n > 0 {
        lemma_readers_prefix(entries, more, i, (n - 1) as nat);
        assert((entries + more)[n - 1] == entries[n - 1]);
    }
}

proof fn lemma_count_concat(s: Seq<u32>, t: Seq<u32>, a: u32)
    ensures
        count_of(s + t, a) == count_of(s, a) + count_of(t, a),
    decreases t.len(),
{
    if t.len() > 0 {
        lemma_count_concat(s, t.drop_last(), a);
        assert((s + t).drop_last() =~= s + t.drop_last());
    } else {
        assert(s + t =~= s);
    }
}

proof fn lemma_count_repeat(k: nat, b: u32, a: u32)
    ensures
        count_of(Seq::new(k, |_j: int| b), a) == if a == b { k } else { 0 },
    decreases k,
{
    if k > 0 {
        lemma_count_repeat((k - 1) as nat, b, a);
        assert(Seq::new(k, |_j: int| b).drop_last() =~= Seq::new((k - 1) as nat, |_j: int| b));
    }
}

proof fn lemma_readers_count(entries: Seq<(GlslExpr, GlslType)>, i: int, n: nat, j: int)
    requires
        n <= entries.len(),
        n <= u32::MAX,
        0 <= j <= u32::MAX,
    ensures
        count_of(readers(entries, i, n), j as u32)
            == if j < n { count_of(expr_deps(entries[j].0), i as u32) } else { 0 },
    decreases n,
{
    if n > 0 {
        lemma_readers_count(entries, i, (n - 1) as nat, j);
        let k = count_of(expr_deps(entries[n - 1].0), i as u32);
        lemma_count_concat(readers(entries, i, (n - 1) as nat), Seq::new(k, |_k: int| (n - 1) as u32), j as u32);
        lemma_count_repeat(k, (n - 1) as u32, j as u32);
    }
}

/// One expression of a [`GlslGraph`] with the expressions that read it
/// (forward) and that it reads (backward).
pub struct GlslNode {
    pub expr: GlslExpr,
    pub ty: GlslType,
    pub forward: Vec<u32>,
    pub backward: Vec<u32>,
}

/// A DAG of GLSL expressions: each expression reads only expressions added before it.
pub struct GlslGraph {
    nodes: Vec<GlslNode>,
}

impl GlslGraph {
    /// The expressions with their types, in order.
    pub closed spec fn entries(&self) -> Seq<(GlslExpr, GlslType)> {
        self.nodes@.map_values(|n: GlslNode| (n.expr, n.ty))
    }

    /// The indices of the expressions that read expression `i`, in order.
    pub closed spec fn forward_of(&self, i: int) -> Seq<u32> {
        self.nodes@[i].forward@
    }

    /// The indices of the expressions that expression `i` reads, in order.
    pub closed spec fn backward_of(&self, i: int) -> Seq<u32> {
        self.nodes@[i].backward@
    }

    /// Each expression reads only earlier ones, and the forward and backward
    /// lists of each expression agree with what the expressions read.
    pub open spec fn wf(&self) -> bool {
        &&& reads_backward(self.entries())
        &&& self.entries().len() <= u32::MAX
        &&& forall|i: int| 0 <= i < self.entries().len() ==> #[trigger] self.backward_of(i) == expr_deps(self.entries()[i].0)
        &&& forall|i: int| 0 <= i < self.entries().len() ==> #[trigger] self.forward_of(i) == readers(self.entries(), i, self.entries().len())
    }

    /// An empty graph.
    pub fn new() -> (g: Self)
        ensures
            g.wf(),
            g.entries() == Seq::<(GlslExpr, GlslType)>::empty(),
    {
        let g = GlslGraph { nodes: Vec::new() };
        assert(g.entries() =~= Seq::<(GlslExpr, GlslType)>::empty());
        g
    }

    /// Number of expressions.
    pub fn len(&self) -> (n: usize)
        ensures
            n == self.entries().len(),
    {
        self.nodes.len()
    }

    /// Adds an expression that reads only expressions already in the graph and
    /// returns its index.
    pub fn add(&mut self, expr: GlslExpr, ty: GlslType) -> (index: u32)
        requires
            old(self).wf(),
            old(self).entries().len() < u32::MAX,
            deps_below(expr, old(self).entries().len()),
        ensures
            final(self).wf(),
            final(self).entries() == old(self).entries().push((expr, ty)),
            index == old(self).entries().len(),
    {
        let ghost old_entries = self.entries();
        let ghost new_entries = old_entries.push((expr, ty));
        let index = self.nodes.len() as u32;
        let deps = expr.visit_deps();
        let mut t: usize = 0;
        while t < deps.len()
            invariant
                self.nodes@.len() == index,
                index < u32::MAX,
                self.entries() == old_entries,
                old(self).wf(),
                old_entries == old(self).entries(),
                deps@ == expr_deps(expr),
                t <= deps@.len(),
                deps_below(expr, index as nat),
                forall|k: int| 0 <= k < index ==> #[trigger] self.backward_of(k) == old(self).backward_of(k),
                forall|k: int| 0 <= k < index ==> #[trigger] self.forward_of(k) == old(self).forward_of(k)
                    + Seq::new(count_of(deps@.take(t as int), k as u32), |_j: int| index),
            decreases deps@.len() - t,
        {
            let d = deps[t];
            proof {
                assert(deps@.take(t as int + 1).drop_last() =~= deps@.take(t as int));
                assert(d < index);
            }
            let ghost prev = self.nodes@;
            let ghost prev_g = *self;
            self.nodes[d as usize].forward.push(index);
            proof {
                assert forall|k: int| 0 <= k < prev.len() && k != d as int implies #[trigger] self.nodes@[k] == prev[k] by {}
                assert(self.nodes@[d as int].backward == prev[d as int].backward);
                assert(self.nodes@[d as int].expr == prev[d as int].expr);
                assert(self.nodes@[d as int].ty == prev[d as int].ty);
                assert(self.nodes@[d as int].forward@ == prev[d as int].forward@.push(index));
                assert(self.entries() =~= old_entries);
                assert forall|k: int| 0 <= k < index implies #[trigger] self.backward_of(k) == old(self).backward_of(k) by {
                    assert(prev_g.backward_of(k) == old(self).backward_of(k));
                    if k != d as int {
                        assert(self.nodes@[k] == prev[k]);
                    }
                }
                assert forall|k: int| 0 <= k < index implies #[trigger] self.forward_of(k) == old(self).forward_of(k)
                    + Seq::new(count_of(deps@.take(t as int + 1), k as u32), |_j: int| index) by {
                    assert(deps@.take(t as int + 1).drop_last() =~= deps@.take(t as int));
                    assert(deps@.take(t as int + 1).last() == d);
                    assert(prev_g.forward_of(k) == old(self).forward_of(k)
                        + Seq::new(count_of(deps@.take(t as int), k as u32), |_j: int| index));
                    if k != d as int {
                        assert(self.nodes@[k] == prev[k]);
                    }
                    if k == d as int {
                        assert(k as u32 == d);
                    }
                }
            }
            t += 1;
        }
        proof {
            assert(deps@.take(deps@.len() as int) =~= deps@);
        }
        let ghost before_push = self.nodes@;
        let ghost before_g = *self;
        self.nodes.push(GlslNode { expr, ty, forward: Vec::new(), backward: deps });
        proof {
            assert forall|k: int| 0 <= k < index implies #[trigger] self.nodes@[k] == before_push[k] by {}
            let n = index as nat;
            assert(self.entries() =~= new_entries);
            assert(reads_backward(new_entries)) by {
                assert forall|i: int, j: int| 0 <= i < new_entries.len() && 0 <= j < expr_deps(new_entries[i].0).len()
                    implies (#[trigger] expr_deps(new_entries[i].0)[j]) < i by {
                    if i < n {
                        assert(new_entries[i] == old_entries[i]);
                    }
                }
            }
            assert forall|k: int| 0 <= k < new_entries.len() implies #[trigger] self.forward_of(k)
                == readers(new_entries, k, new_entries.len()) by {
                lemma_readers_prefix(old_entries, seq![(expr, ty)], k, n);
                assert(old_entries + seq![(expr, ty)] =~= new_entries);
                if k < n {
                    assert(old(self).forward_of(k) == readers(old_entries, k, n));
                    assert(readers(new_entries, k, n + 1) == readers(new_entries, k, n) + Seq::new(
                        count_of(expr_deps(new_entries[n as int].0), k as u32),
                        |_j: int| n as u32,
                    ));
                    assert(Seq::new(count_of(deps@, k as u32), |_j: int| index) =~= Seq::new(
                        count_of(expr_deps(new_entries[n as int].0), k as u32),
                        |_j: int| n as u32,
                    ));
                    assert(before_g.forward_of(k) == old(self).forward_of(k)
                        + Seq::new(count_of(deps@.take(deps@.len() as int), k as u32), |_j: int| index));
                    assert(self.forward_of(k) == before_g.forward_of(k));
                } else {
                    lemma_no_readers_yet(new_entries, k, n + 1);
                }
            }
            assert forall|k: int| 0 <= k < new_entries.len() implies #[trigger] self.backward_of(k)
                == expr_deps(new_entries[k].0) by {
                if k < n {
                    assert(new_entries[k] == old_entries[k]);
                    assert(before_g.backward_of(k) == old(self).backward_of(k));
                    assert(self.backward_of(k) == before_g.backward_of(k));
                }
            }
        }
        index
    }

    /// The expression at `index` and its type.
    pub fn get(&self, index: u32) -> (r: (GlslExpr, GlslType))
        requires
            index < self.entries().len(),
        ensures
            r == self.entries()[index as int],
    {
        let node = &self.nodes[index as usize];
        (node.expr, node.ty)
    }

    /// All expressions with their indices and types, in order.
    pub fn iter(&self) -> (r: Vec<(u32, GlslExpr, GlslType)>)
        requires
            self.entries().len() <= u32::MAX,
        ensures
            r@.len() == self.entries().len(),
            forall|i: int| 0 <= i < r@.len() ==> #[trigger] r@[i] == (i as u32, self.entries()[i].0, self.entries()[i].1),
    {
        let mut r: Vec<(u32, GlslExpr, GlslType)> = Vec::new();
        let mut i: usize = 0;
        while i < self.nodes.len()
            invariant
                i <= self.nodes@.len() <= u32::MAX,
                self.entries().len() == self.nodes@.len(),
                r@.len() == i,
                forall|k: int| 0 <= k < i ==> #[trigger] r@[k] == (k as u32, self.entries()[k].0, self.entries()[k].1),
            decreases self.nodes@.len() - i,
        {
            r.push((i as u32, self.nodes[i].expr, self.nodes[i].ty));
            i += 1;
        }
        r
    }

    /// The indices of the expressions that read expression `index`, in order.
    pub fn forward(&self, index: u32) -> (r: Vec<u32>)
        requires
            index < self.entries().len(),
        ensures
            r@ == self.forward_of(index as int),
    {
        self.nodes[index as usize].forward.clone()
    }

    /// How many times expression `index` is read.
    pub fn forward_count(&self, index: u32) -> (n: usize)
        requires
            index < self.entries().len(),
        ensures
            n == self.forward_of(index as int).len(),
    {
        self.nodes[index as usize].forward.len()
    }

    /// The indices of the expressions that expression `index` reads, in order.
    pub fn backward(&self, index: u32) -> (r: Vec<u32>)
        requires
            index < self.entries().len(),
        ensures
            r@ == self.backward_of(index as int),
    {
        self.nodes[index as usize].backward.clone()
    }
}

/// The GLSL type of the value of a shader operation.
pub open spec fn glsl_type_of(op: ShaderOp) -> GlslType {
    match op_output_type(op) {
        ShaderOpType::Float => GlslType::Float1,
        ShaderOpType::Int32 => GlslType::Int1,
        ShaderOpType::Bool => GlslType::Bool1,
    }
}

/// The component index of a texture channel.
pub open spec fn channel_index(c: TextureChannel) -> u8 {
    match c {
        TextureChannel::Red => 0,
        TextureChannel::Green => 1,
        TextureChannel::Blue => 2,
        TextureChannel::Alpha => 3,
    }
}

/// The helper expressions added for a packed integer read of `word`, shifted
/// right by `shift` bits and masked with `mask`, placed after `n` expressions;
/// the last helper is followed by the masking expression.
pub open spec fn packed_read_plan(word: u32, lane: u32, shift: u32, mask: i32, n: nat) -> (Seq<(GlslExpr, GlslType)>, GlslExpr) {
    (seq![
        (GlslExpr::DataInt(word), GlslType::Int4),
        (GlslExpr::Swizzle1(n as u32, lane as u8), GlslType::Int1),
        (GlslExpr::LitInt(shift as i32), GlslType::Int1),
        (GlslExpr::IShr((n + 1) as u32, (n + 2) as u32), GlslType::Int1),
        (GlslExpr::LitInt(mask), GlslType::Int1),
    ], GlslExpr::IAnd((n + 3) as u32, (n + 4) as u32))
}

/// How a shader operation becomes GLSL: the helper expressions it adds after
/// `n` expressions, and the expression that gives its value, where `m` maps
/// shader operands to GLSL expressions.
pub open spec fn single_plan(op: ShaderOp, m: Seq<u32>, n: nat) -> (Seq<(GlslExpr, GlslType)>, GlslExpr) {
    let i = n as u32;
    match op {
        ShaderOp::FLit(v) => (seq![], GlslExpr::LitFloat(v)),
        ShaderOp::ILit(v) => (seq![], GlslExpr::LitInt(v)),
        ShaderOp::BLit(v) => (seq![], GlslExpr::LitBool(v)),
        ShaderOp::Acos(a) => (seq![], GlslExpr::Acos(m[a as int])),
        ShaderOp::Asin(a) => (seq![], GlslExpr::Asin(m[a as int])),
        ShaderOp::Atan(a) => (seq![], GlslExpr::Atan(m[a as int])),
        ShaderOp::Cos(a) => (seq![], GlslExpr::Cos(m[a as int])),
        ShaderOp::Sin(a) => (seq![], GlslExpr::Sin(m[a as int])),
        ShaderOp::Tan(a) => (seq![], GlslExpr::Tan(m[a as int])),
        ShaderOp::Exp(a) => (seq![], GlslExpr::Exp(m[a as int])),
        ShaderOp::Ln(a) => (seq![], GlslExpr::Log(m[a as int])),
        ShaderOp::Sqrt(a) => (seq![], GlslExpr::Sqrt(m[a as int])),
        ShaderOp::FNeg(a) => (seq![], GlslExpr::Neg(m[a as int])),
        ShaderOp::INeg(a) => (seq![], GlslExpr::Neg(m[a as int])),
        ShaderOp::FSign(a) => (seq![], GlslExpr::Sign(m[a as int])),
        ShaderOp::ISign(a) => (seq![], GlslExpr::Sign(m[a as int])),
        ShaderOp::FAbs(a) => (seq![], GlslExpr::Abs(m[a as int])),
        ShaderOp::IAbs(a) => (seq![], GlslExpr::Abs(m[a as int])),
        ShaderOp::Floor(a) => (seq![], GlslExpr::Floor(m[a as int])),
        ShaderOp::DerivX(a) => (seq![], GlslExpr::DerivX(m[a as int])),
        ShaderOp::DerivY(a) => (seq![], GlslExpr::DerivY(m[a as int])),
        ShaderOp::INot(a) => (seq![], GlslExpr::INot(m[a as int])),
        ShaderOp::BNot(a) => (seq![], GlslExpr::BNot(m[a as int])),
        ShaderOp::FCastInt32(a) => (seq![], GlslExpr::AsFloat(m[a as int])),
        ShaderOp::ICastFloat(a) => (seq![], GlslExpr::AsInt(m[a as int])),
        ShaderOp::FAdd(a, b) => (seq![], GlslExpr::Add(m[a as int], m[b as int])),
        ShaderOp::IAdd(a, b) => (seq![], GlslExpr::Add(m[a as int], m[b as int])),
        ShaderOp::FSub(a, b) => (seq![], GlslExpr::Sub(m[a as int], m[b as int])),
        ShaderOp::ISub(a, b) => (seq![], GlslExpr::Sub(m[a as int], m[b as int])),
        ShaderOp::FMul(a, b) => (seq![], GlslExpr::Mul(m[a as int], m[b as int])),
        ShaderOp::IMul(a, b) => (seq![], GlslExpr::Mul(m[a as int], m[b as int])),
        ShaderOp::FDiv(a, b) => (seq![], GlslExpr::Div(m[a as int], m[b as int])),
        ShaderOp::IDiv(a, b) => (seq![], GlslExpr::Div(m[a as int], m[b as int])),
        ShaderOp::FMin(a, b) => (seq![], GlslExpr::Min(m[a as int], m[b as int])),
        ShaderOp::IMin(a, b) => (seq![], GlslExpr::Min(m[a as int], m[b as int])),
        ShaderOp::FMax(a, b) => (seq![], GlslExpr::Max(m[a as int], m[b as int])),
        ShaderOp::IMax(a, b) => (seq![], GlslExpr::Max(m[a as int], m[b as int])),
        ShaderOp::FMod(a, b) => (seq![], GlslExpr::FRem(m[a as int], m[b as int])),
        ShaderOp::IMod(a, b) => (seq![], GlslExpr::IRem(m[a as int], m[b as int])),
        ShaderOp::Atan2(a, b) => (seq![], GlslExpr::Atan2(m[a as int], m[b as int])),
        ShaderOp::Pow(a, b) => (seq![], GlslExpr::Pow(m[a as int], m[b as int])),
        ShaderOp::IOr(a, b) => (seq![], GlslExpr::IOr(m[a as int], m[b as int])),
        ShaderOp::IAnd(a, b) => (seq![], GlslExpr::IAnd(m[a as int], m[b as int])),
        ShaderOp::IXor(a, b) => (seq![], GlslExpr::IXor(m[a as int], m[b as int])),
        ShaderOp::IShl(a, b) => (seq![], GlslExpr::IShl(m[a as int], m[b as int])),
        ShaderOp::IShr(a, b) => (seq![], GlslExpr::IShr(m[a as int], m[b as int])),
        ShaderOp::BOr(a, b) => (seq![], GlslExpr::BOr(m[a as int], m[b as int])),
        ShaderOp::BAnd(a, b) => (seq![], GlslExpr::BAnd(m[a as int], m[b as int])),
        ShaderOp::BXor(a, b) => (seq![], GlslExpr::Ne(m[a as int], m[b as int])),
        ShaderOp::IEq(a, b) => (seq![], GlslExpr::Eq(m[a as int], m[b as int])),
        ShaderOp::FEq(a, b) => (seq![], GlslExpr::Eq(m[a as int], m[b as int])),
        ShaderOp::INe(a, b) => (seq![], GlslExpr::Ne(m[a as int], m[b as int])),
        ShaderOp::FNe(a, b) => (seq![], GlslExpr::Ne(m[a as int], m[b as int])),
        ShaderOp::ILt(a, b) => (seq![], GlslExpr::Lt(m[a as int], m[b as int])),
        ShaderOp::FLt(a, b) => (seq![], GlslExpr::Lt(m[a as int], m[b as int])),
        ShaderOp::ILe(a, b) => (seq![], GlslExpr::Le(m[a as int], m[b as int])),
        ShaderOp::FLe(a, b) => (seq![], GlslExpr::Le(m[a as int], m[b as int])),
        ShaderOp::IGt(a, b) => (seq![], GlslExpr::Gt(m[a as int], m[b as int])),
        ShaderOp::FGt(a, b) => (seq![], GlslExpr::Gt(m[a as int], m[b as int])),
        ShaderOp::IGe(a, b) => (seq![], GlslExpr::Ge(m[a as int], m[b as int])),
        ShaderOp::FGe(a, b) => (seq![], GlslExpr::Ge(m[a as int], m[b as int])),
        ShaderOp::PosX => (seq![(GlslExpr::Position, GlslType::Float2)], GlslExpr::Swizzle1(i, 0)),
        ShaderOp::PosY => (seq![(GlslExpr::Position, GlslType::Float2)], GlslExpr::Swizzle1(i, 1)),
        ShaderOp::ResX => (seq![(GlslExpr::Resolution, GlslType::Float2)], GlslExpr::Swizzle1(i, 0)),
        ShaderOp::ResY => (seq![(GlslExpr::Resolution, GlslType::Float2)], GlslExpr::Swizzle1(i, 1)),
        ShaderOp::QuadL => (seq![(GlslExpr::QuadBounds, GlslType::Float4)], GlslExpr::Swizzle1(i, 0)),
        ShaderOp::QuadT => (seq![(GlslExpr::QuadBounds, GlslType::Float4)], GlslExpr::Swizzle1(i, 1)),
        ShaderOp::QuadR => (seq![(GlslExpr::QuadBounds, GlslType::Float4)], GlslExpr::Swizzle1(i, 2)),
        ShaderOp::QuadB => (seq![(GlslExpr::QuadBounds, GlslType::Float4)], GlslExpr::Swizzle1(i, 3)),
        ShaderOp::Lerp(t, a, b) => (seq![], GlslExpr::Mix(m[a as int], m[b as int], m[t as int])),
        ShaderOp::FSelect(t, a, b) | ShaderOp::BSelect(t, a, b) | ShaderOp::ISelect(t, a, b) =>
            (seq![], GlslExpr::Select(m[t as int], m[a as int], m[b as int])),
        ShaderOp::TexW(t) => (seq![(GlslExpr::TextureSize(t), GlslType::Int2)], GlslExpr::Swizzle1(i, 0)),
        ShaderOp::TexH(t) => (seq![(GlslExpr::TextureSize(t), GlslType::Int2)], GlslExpr::Swizzle1(i, 1)),
        ShaderOp::TexSample(t, x, y, f, c) => (
            seq![(GlslExpr::TextureSample(t, f, m[x as int], m[y as int]), GlslType::Float4)],
            GlslExpr::Swizzle1(i, channel_index(c)),
        ),
        ShaderOp::ReadF32(o) => (seq![(GlslExpr::DataFloat(o / 4), GlslType::Float4)], GlslExpr::Swizzle1(i, (o % 4) as u8)),
        ShaderOp::ReadI32(o) => (seq![(GlslExpr::DataInt(o / 4), GlslType::Int4)], GlslExpr::Swizzle1(i, (o % 4) as u8)),
        ShaderOp::ReadU16(o) => {
            let byte = (o * 2) as u32;
            packed_read_plan(byte >> 4u32, (byte >> 2u32) & 3u32, (byte & 3u32) << 3u32, 65535i32, n)
        },
        ShaderOp::ReadU8(o) => packed_read_plan(o >> 4u32, (o >> 2u32) & 3u32, (o & 3u32) << 3u32, 255i32, n),
    }
}

fn channel_index_exec(c: TextureChannel) -> (r: u8)
    ensures
        r == channel_index(c),
{
    match c {
        TextureChannel::Red => 0,
        TextureChannel::Green => 1,
        TextureChannel::Blue => 2,
        TextureChannel::Alpha => 3,
    }
}

fn glsl_type_of_exec(op: ShaderOp) -> (t: GlslType)
    ensures
        t == glsl_type_of(op),
{
    match op.output_type() {
        ShaderOpType::Float => GlslType::Float1,
        ShaderOpType::Int32 => GlslType::Int1,
        ShaderOpType::Bool => GlslType::Bool1,
    }
}

fn emit_packed_read(graph: &mut GlslGraph, word: u32, lane: u32, shift: u32, mask: i32) -> (r: GlslExpr)
    requires
        old(graph).wf(),
        old(graph).entries().len() + 5 < u32::MAX,
    ensures
        final(graph).wf(),
        final(graph).entries() == old(graph).entries() + packed_read_plan(word, lane, shift, mask, old(graph).entries().len()).0,
        r == packed_read_plan(word, lane, shift, mask, old(graph).entries().len()).1,
        deps_below(r, final(graph).entries().len()),
{
    let data = graph.add(GlslExpr::DataInt(word), GlslType::Int4);
    let lane_value = graph.add(GlslExpr::Swizzle1(data, lane as u8), GlslType::Int1);
    let shift_value = graph.add(GlslExpr::LitInt(shift as i32), GlslType::Int1);
    let shifted = graph.add(GlslExpr::IShr(lane_value, shift_value), GlslType::Int1);
    let mask_value = graph.add(GlslExpr::LitInt(mask), GlslType::Int1);
    GlslExpr::IAnd(shifted, mask_value)
}

/// Every packed 16-bit read of `nodes` has a byte offset that fits in 32 bits.
pub open spec fn reads_in_range(nodes: Seq<ShaderOp>) -> bool {
    forall|i: int| 0 <= i < nodes.len() ==> (#[trigger] nodes[i] matches ShaderOp::ReadU16(o) ==> o <= 0x7fff_ffffu32)
}

/// Every shader operand that `op` reads is mapped by `m` to an expression below `n`.
pub open spec fn operands_mapped(op: ShaderOp, m: Seq<u32>, n: nat) -> bool {
    forall|j: int| 0 <= j < op_inputs(op).len() ==> {
        &&& (#[trigger] op_inputs(op)[j]).0 < m.len()
        &&& m[op_inputs(op)[j].0 as int] < n
    }
}

/// The operation reads the pixel, frame, quad, texture or object data and
/// needs helper expressions.
pub open spec fn needs_helpers(op: ShaderOp) -> bool {
    match op {
        ShaderOp::PosX | ShaderOp::PosY | ShaderOp::ResX | ShaderOp::ResY | ShaderOp::QuadL | ShaderOp::QuadT
        | ShaderOp::QuadR | ShaderOp::QuadB | ShaderOp::TexW(_) | ShaderOp::TexH(_) | ShaderOp::TexSample(..)
        | ShaderOp::ReadF32(_) | ShaderOp::ReadI32(_) | ShaderOp::ReadU16(_) | ShaderOp::ReadU8(_) => true,
        _ => false,
    }
}

fn needs_helpers_exec(op: ShaderOp) -> (b: bool)
    ensures
        b == needs_helpers(op),
{
    match op {
        ShaderOp::PosX | ShaderOp::PosY | ShaderOp::ResX | ShaderOp::ResY | ShaderOp::QuadL | ShaderOp::QuadT
        | ShaderOp::QuadR | ShaderOp::QuadB | ShaderOp::TexW(_) | ShaderOp::TexH(_) | ShaderOp::TexSample(..)
        | ShaderOp::ReadF32(_) | ShaderOp::ReadI32(_) | ShaderOp::ReadU16(_) | ShaderOp::ReadU8(_) => true,
        _ => false,
    }
}


/// Which lowering a shader operation takes: 1 for one operand, 2 for two,
/// 3 for the others that need no helper expressions, 0 for those that do.
pub open spec fn direct_kind(op: ShaderOp) -> u8 {
    match op {
        ShaderOp::Acos(_)
        | ShaderOp::Asin(_)
        | ShaderOp::Atan(_)
        | ShaderOp::Cos(_)
        | ShaderOp::Sin(_)
        | ShaderOp::Tan(_)
        | ShaderOp::Exp(_)
        | ShaderOp::Ln(_)
        | ShaderOp::Sqrt(_)
        | ShaderOp::FNeg(_)
        | ShaderOp::INeg(_)
        | ShaderOp::FSign(_)
        | ShaderOp::ISign(_)
        | ShaderOp::FAbs(_)
        | ShaderOp::IAbs(_)
        | ShaderOp::Floor(_)
        | ShaderOp::DerivX(_)
        | ShaderOp::DerivY(_)
        | ShaderOp::INot(_)
        | ShaderOp::BNot(_)
        | ShaderOp::FCastInt32(_)
        | ShaderOp::ICastFloat(_) => 1,
        ShaderOp::FAdd(_, _)
        | ShaderOp::IAdd(_, _)
        | ShaderOp::FSub(_, _)
        | ShaderOp::ISub(_, _)
        | ShaderOp::FMul(_, _)
        | ShaderOp::IMul(_, _)
        | ShaderOp::FDiv(_, _)
        | ShaderOp::IDiv(_, _)
        | ShaderOp::FMin(_, _)
        | ShaderOp::IMin(_, _)
        | ShaderOp::FMax(_, _)
        | ShaderOp::IMax(_, _)
        | ShaderOp::FMod(_, _)
        | ShaderOp::IMod(_, _)
        | ShaderOp::Atan2(_, _)
        | ShaderOp::Pow(_, _)
        | ShaderOp::IOr(_, _)
        | ShaderOp::IAnd(_, _)
        | ShaderOp::IXor(_, _)
        | ShaderOp::IShl(_, _)
        | ShaderOp::IShr(_, _)
        | ShaderOp::BOr(_, _)
        | ShaderOp::BAnd(_, _)
        | ShaderOp::BXor(_, _)
        | ShaderOp::IEq(_, _)
        | ShaderOp::FEq(_, _)
        | ShaderOp::INe(_, _)
        | ShaderOp::FNe(_, _)
        | ShaderOp::ILt(_, _)
        | ShaderOp::FLt(_, _)
        | ShaderOp::ILe(_, _)
        | ShaderOp::FLe(_, _)
        | ShaderOp::IGt(_, _)
        | ShaderOp::FGt(_, _)
        | ShaderOp::IGe(_, _)
        | ShaderOp::FGe(_, _) => 2,
        _ => if needs_helpers(op) { 0 } else { 3 },
    }
}

fn direct_unary(op: ShaderOp, map: &[u32], Ghost(n): Ghost<nat>) -> (r: GlslExpr)
    requires
        operands_mapped(op, map@, n),
        !needs_helpers(op),
        true,
    ensures
        r == single_plan(op, map@, n).1,
        single_plan(op, map@, n).0 == Seq::<(GlslExpr, GlslType)>::empty(),
        deps_below(r, n),
{
    let ghost ins = op_inputs(op);
    match op {
        ShaderOp::Acos(a) => {
            proof { assert(ins[0].0 == a); }
            GlslExpr::Acos(map[a as usize])
        },
        ShaderOp::Asin(a) => {
            proof { assert(ins[0].0 == a); }
            GlslExpr::Asin(map[a as usize])
        },
        ShaderOp::Atan(a) => {
            proof { assert(ins[0].0 == a); }
            GlslExpr::Atan(map[a as usize])
        },
        ShaderOp::Cos(a) => {
            proof { assert(ins[0].0 == a); }
            GlslExpr::Cos(map[a as usize])
        },
        ShaderOp::Sin(a) => {
            proof { assert(ins[0].0 == a); }
            GlslExpr::Sin(map[a as usize])
        },
        ShaderOp::Tan(a) => {
            proof { assert(ins[0].0 == a); }
            GlslExpr::Tan(map[a as usize])
        },
        ShaderOp::Exp(a) => {
            proof { assert(ins[0].0 == a); }
            GlslExpr::Exp(map[a as usize])
        },
        ShaderOp::Ln(a) => {
            proof { assert(ins[0].0 == a); }
            GlslExpr::Log(map[a as usize])
        },
        ShaderOp::Sqrt(a) => {
            proof { assert(ins[0].0 == a); }
            GlslExpr::Sqrt(map[a as usize])
        },
        ShaderOp::FNeg(a) => {
            proof { assert(ins[0].0 == a); }
            GlslExpr::Neg(map[a as usize])
        },
        ShaderOp::INeg(a) => {
            proof { assert(ins[0].0 == a); }
            GlslExpr::Neg(map[a as usize])
        },
        ShaderOp::FSign(a) => {
            proof { assert(ins[0].0 == a); }
            GlslExpr::Sign(map[a as usize])
        },
        ShaderOp::ISign(a) => {
            proof { assert(ins[0].0 == a); }
            GlslExpr::Sign(map[a as usize])
        },
        ShaderOp::FAbs(a) => {
            proof { assert(ins[0].0 == a); }
            GlslExpr::Abs(map[a as usize])
        },
        ShaderOp::IAbs(a) => {
            proof { assert(ins[0].0 == a); }
            GlslExpr::Abs(map[a as usize])
        },
        ShaderOp::Floor(a) => {
            proof { assert(ins[0].0 == a); }
            GlslExpr::Floor(map[a as usize])
        },
        ShaderOp::DerivX(a) => {
            proof { assert(ins[0].0 == a); }
            GlslExpr::DerivX(map[a as usize])
        },
        ShaderOp::DerivY(a) => {
            proof { assert(ins[0].0 == a); }
            GlslExpr::DerivY(map[a as usize])
        },
        ShaderOp::INot(a) => {
            proof { assert(ins[0].0 == a); }
            GlslExpr::INot(map[a as usize])
        },
        ShaderOp::BNot(a) => {
            proof { assert(ins[0].0 == a); }
            GlslExpr::BNot(map[a as usize])
        },
        ShaderOp::FCastInt32(a) => {
            proof { assert(ins[0].0 == a); }
            GlslExpr::AsFloat(map[a as usize])
        },
        ShaderOp::ICastFloat(a) => {
            proof { assert(ins[0].0 == a); }
            GlslExpr::AsInt(map[a as usize])
        },
        _ => direct_binary(op, map, Ghost(n)),
    }
}

fn direct_binary(op: ShaderOp, map: &[u32], Ghost(n): Ghost<nat>) -> (r: GlslExpr)
    requires
        operands_mapped(op, map@, n),
        !needs_helpers(op),
        direct_kind(op) != 1,
    ensures
        r == single_plan(op, map@, n).1,
        single_plan(op, map@, n).0 == Seq::<(GlslExpr, GlslType)>::empty(),
        deps_below(r, n),
{
    let ghost ins = op_inputs(op);
    match op {
        ShaderOp::FAdd(a, b) => {
            proof { assert(ins[0].0 == a); assert(ins[1].0 == b); }
            GlslExpr::Add(map[a as usize], map[b as usize])
        },
        ShaderOp::IAdd(a, b) => {
            proof { assert(ins[0].0 == a); assert(ins[1].0 == b); }
            GlslExpr::Add(map[a as usize], map[b as usize])
        },
        ShaderOp::FSub(a, b) => {
            proof { assert(ins[0].0 == a); assert(ins[1].0 == b); }
            GlslExpr::Sub(map[a as usize], map[b as usize])
        },
        ShaderOp::ISub(a, b) => {
            proof { assert(ins[0].0 == a); assert(ins[1].0 == b); }
            GlslExpr::Sub(map[a as usize], map[b as usize])
        },
        ShaderOp::FMul(a, b) => {
            proof { assert(ins[0].0 == a); assert(ins[1].0 == b); }
            GlslExpr::Mul(map[a as usize], map[b as usize])
        },
        ShaderOp::IMul(a, b) => {
            proof { assert(ins[0].0 == a); assert(ins[1].0 == b); }
            GlslExpr::Mul(map[a as usize], map[b as usize])
        },
        ShaderOp::FDiv(a, b) => {
            proof { assert(ins[0].0 == a); assert(ins[1].0 == b); }
            GlslExpr::Div(map[a as usize], map[b as usize])
        },
        ShaderOp::IDiv(a, b) => {
            proof { assert(ins[0].0 == a); assert(ins[1].0 == b); }
            GlslExpr::Div(map[a as usize], map[b as usize])
        },
        ShaderOp::FMin(a, b) => {
            proof { assert(ins[0].0 == a); assert(ins[1].0 == b); }
            GlslExpr::Min(map[a as usize], map[b as usize])
        },
        ShaderOp::IMin(a, b) => {
            proof { assert(ins[0].0 == a); assert(ins[1].0 == b); }
            GlslExpr::Min(map[a as usize], map[b as usize])
        },
        ShaderOp::FMax(a, b) => {
            proof { assert(ins[0].0 == a); assert(ins[1].0 == b); }
            GlslExpr::Max(map[a as usize], map[b as usize])
        },
        ShaderOp::IMax(a, b) => {
            proof { assert(ins[0].0 == a); assert(ins[1].0 == b); }
            GlslExpr::Max(map[a as usize], map[b as usize])
        },
        ShaderOp::FMod(a, b) => {
            proof { assert(ins[0].0 == a); assert(ins[1].0 == b); }
            GlslExpr::FRem(map[a as usize], map[b as usize])
        },
        ShaderOp::IMod(a, b) => {
            proof { assert(ins[0].0 == a); assert(ins[1].0 == b); }
            GlslExpr::IRem(map[a as usize], map[b as usize])
        },
        ShaderOp::Atan2(a, b) => {
            proof { assert(ins[0].0 == a); assert(ins[1].0 == b); }
            GlslExpr::Atan2(map[a as usize], map[b as usize])
        },
        ShaderOp::Pow(a, b) => {
            proof { assert(ins[0].0 == a); assert(ins[1].0 == b); }
            GlslExpr::Pow(map[a as usize], map[b as usize])
        },
        ShaderOp::IOr(a, b) => {
            proof { assert(ins[0].0 == a); assert(ins[1].0 == b); }
            GlslExpr::IOr(map[a as usize], map[b as usize])
        },
        ShaderOp::IAnd(a, b) => {
            proof { assert(ins[0].0 == a); assert(ins[1].0 == b); }
            GlslExpr::IAnd(map[a as usize], map[b as usize])
        },
        ShaderOp::IXor(a, b) => {
            proof { assert(ins[0].0 == a); assert(ins[1].0 == b); }
            GlslExpr::IXor(map[a as usize], map[b as usize])
        },
        ShaderOp::IShl(a, b) => {
            proof { assert(ins[0].0 == a); assert(ins[1].0 == b); }
            GlslExpr::IShl(map[a as usize], map[b as usize])
        },
        ShaderOp::IShr(a, b) => {
            proof { assert(ins[0].0 == a); assert(ins[1].0 == b); }
            GlslExpr::IShr(map[a as usize], map[b as usize])
        },
        ShaderOp::BOr(a, b) => {
            proof { assert(ins[0].0 == a); assert(ins[1].0 == b); }
            GlslExpr::BOr(map[a as usize], map[b as usize])
        },
        ShaderOp::BAnd(a, b) => {
            proof { assert(ins[0].0 == a); assert(ins[1].0 == b); }
            GlslExpr::BAnd(map[a as usize], map[b as usize])
        },
        ShaderOp::BXor(a, b) => {
            proof { assert(ins[0].0 == a); assert(ins[1].0 == b); }
            GlslExpr::Ne(map[a as usize], map[b as usize])
        },
        ShaderOp::IEq(a, b) => {
            proof { assert(ins[0].0 == a); assert(ins[1].0 == b); }
            GlslExpr::Eq(map[a as usize], map[b as usize])
        },
        ShaderOp::FEq(a, b) => {
            proof { assert(ins[0].0 == a); assert(ins[1].0 == b); }
            GlslExpr::Eq(map[a as usize], map[b as usize])
        },
        ShaderOp::INe(a, b) => {
            proof { assert(ins[0].0 == a); assert(ins[1].0 == b); }
            GlslExpr::Ne(map[a as usize], map[b as usize])
        },
        ShaderOp::FNe(a, b) => {
            proof { assert(ins[0].0 == a); assert(ins[1].0 == b); }
            GlslExpr::Ne(map[a as usize], map[b as usize])
        },
        ShaderOp::ILt(a, b) => {
            proof { assert(ins[0].0 == a); assert(ins[1].0 == b); }
            GlslExpr::Lt(map[a as usize], map[b as usize])
        },
        ShaderOp::FLt(a, b) => {
            proof { assert(ins[0].0 == a); assert(ins[1].0 == b); }
            GlslExpr::Lt(map[a as usize], map[b as usize])
        },
        ShaderOp::ILe(a, b) => {
            proof { assert(ins[0].0 == a); assert(ins[1].0 == b); }
            GlslExpr::Le(map[a as usize], map[b as usize])
        },
        ShaderOp::FLe(a, b) => {
            proof { assert(ins[0].0 == a); assert(ins[1].0 == b); }
            GlslExpr::Le(map[a as usize], map[b as usize])
        },
        ShaderOp::IGt(a, b) => {
            proof { assert(ins[0].0 == a); assert(ins[1].0 == b); }
            GlslExpr::Gt(map[a as usize], map[b as usize])
        },
        ShaderOp::FGt(a, b) => {
            proof { assert(ins[0].0 == a); assert(ins[1].0 == b); }
            GlslExpr::Gt(map[a as usize], map[b as usize])
        },
        ShaderOp::IGe(a, b) => {
            proof { assert(ins[0].0 == a); assert(ins[1].0 == b); }
            GlslExpr::Ge(map[a as usize], map[b as usize])
        },
        ShaderOp::FGe(a, b) => {
            proof { assert(ins[0].0 == a); assert(ins[1].0 == b); }
            GlslExpr::Ge(map[a as usize], map[b as usize])
        },
        _ => direct_other(op, map, Ghost(n)),
    }
}

fn direct_other(op: ShaderOp, map: &[u32], Ghost(n): Ghost<nat>) -> (r: GlslExpr)
    requires
        operands_mapped(op, map@, n),
        !needs_helpers(op),
        direct_kind(op) == 3,
    ensures
        r == single_plan(op, map@, n).1,
        single_plan(op, map@, n).0 == Seq::<(GlslExpr, GlslType)>::empty(),
        deps_below(r, n),
{
    let ghost ins = op_inputs(op);
    match op {
        ShaderOp::FLit(v) => GlslExpr::LitFloat(v),
        ShaderOp::ILit(v) => GlslExpr::LitInt(v),
        ShaderOp::BLit(v) => GlslExpr::LitBool(v),
        ShaderOp::Lerp(t, a, b) => {
            proof { assert(ins[0].0 == t); assert(ins[1].0 == a); assert(ins[2].0 == b); }
            GlslExpr::Mix(map[a as usize], map[b as usize], map[t as usize])
        },
        ShaderOp::FSelect(t, a, b) | ShaderOp::BSelect(t, a, b) | ShaderOp::ISelect(t, a, b) => {
            proof { assert(ins[0].0 == t); assert(ins[1].0 == a); assert(ins[2].0 == b); }
            GlslExpr::Select(map[t as usize], map[a as usize], map[b as usize])
        },
        _ => GlslExpr::LitBool(false),
    }
}

fn helper_expr(op: ShaderOp, map: &[u32], graph: &mut GlslGraph) -> (r: GlslExpr)
    requires
        old(graph).wf(),
        old(graph).entries().len() + 6 < u32::MAX,
        operands_mapped(op, map@, old(graph).entries().len()),
        needs_helpers(op),
        op matches ShaderOp::ReadU16(o) ==> o <= 0x7fff_ffffu32,
    ensures
        final(graph).wf(),
        final(graph).entries() == old(graph).entries() + single_plan(op, map@, old(graph).entries().len()).0,
        r == single_plan(op, map@, old(graph).entries().len()).1,
        deps_below(r, final(graph).entries().len()),
{
    let ghost ins = op_inputs(op);
    match op {
        ShaderOp::PosX => GlslExpr::Swizzle1(graph.add(GlslExpr::Position, GlslType::Float2), 0),
        ShaderOp::PosY => GlslExpr::Swizzle1(graph.add(GlslExpr::Position, GlslType::Float2), 1),
        ShaderOp::ResX => GlslExpr::Swizzle1(graph.add(GlslExpr::Resolution, GlslType::Float2), 0),
        ShaderOp::ResY => GlslExpr::Swizzle1(graph.add(GlslExpr::Resolution, GlslType::Float2), 1),
        ShaderOp::QuadL => GlslExpr::Swizzle1(graph.add(GlslExpr::QuadBounds, GlslType::Float4), 0),
        ShaderOp::QuadT => GlslExpr::Swizzle1(graph.add(GlslExpr::QuadBounds, GlslType::Float4), 1),
        ShaderOp::QuadR => GlslExpr::Swizzle1(graph.add(GlslExpr::QuadBounds, GlslType::Float4), 2),
        ShaderOp::QuadB => GlslExpr::Swizzle1(graph.add(GlslExpr::QuadBounds, GlslType::Float4), 3),
        ShaderOp::TexW(t) => GlslExpr::Swizzle1(graph.add(GlslExpr::TextureSize(t), GlslType::Int2), 0),
        ShaderOp::TexH(t) => GlslExpr::Swizzle1(graph.add(GlslExpr::TextureSize(t), GlslType::Int2), 1),
        ShaderOp::TexSample(t, x, y, f, c) => {
            proof { assert(ins[0].0 == x); assert(ins[1].0 == y); }
            let sample = GlslExpr::TextureSample(t, f, map[x as usize], map[y as usize]);
            GlslExpr::Swizzle1(graph.add(sample, GlslType::Float4), channel_index_exec(c))
        },
        ShaderOp::ReadF32(o) => GlslExpr::Swizzle1(graph.add(GlslExpr::DataFloat(o / 4), GlslType::Float4), (o % 4) as u8),
        ShaderOp::ReadI32(o) => GlslExpr::Swizzle1(graph.add(GlslExpr::DataInt(o / 4), GlslType::Int4), (o % 4) as u8),
        ShaderOp::ReadU16(o) => {
            let byte = o * 2;
            emit_packed_read(graph, byte >> 4u32, (byte >> 2u32) & 3u32, (byte & 3u32) << 3u32, 65535)
        },
        _ => {
            let o = match op { ShaderOp::ReadU8(o) => o, _ => 0 };
            emit_packed_read(graph, o >> 4u32, (o >> 2u32) & 3u32, (o & 3u32) << 3u32, 255)
        },
    }
}

/// Lowers one shader operation: adds the helper expressions it needs and
/// returns the expression that gives its value, with its type.
///
/// A packed 16-bit read whose byte offset overflows 32 bits panics; it is left out here.
pub fn transpile_single(op: ShaderOp, map: &[u32], graph: &mut GlslGraph) -> (r: (GlslExpr, GlslType))
    requires
        old(graph).wf(),
        old(graph).entries().len() + 6 < u32::MAX,
        operands_mapped(op, map@, old(graph).entries().len()),
        op matches ShaderOp::ReadU16(o) ==> o <= 0x7fff_ffffu32,
    ensures
        final(graph).wf(),
        final(graph).entries() == old(graph).entries() + single_plan(op, map@, old(graph).entries().len()).0,
        r == (single_plan(op, map@, old(graph).entries().len()).1, glsl_type_of(op)),
        deps_below(r.0, final(graph).entries().len()),
{
    let expr = if needs_helpers_exec(op) {
        helper_expr(op, map, graph)
    } else {
        let ghost n = graph.entries().len();
        let e = direct_unary(op, map, Ghost(n));
        assert(graph.entries() =~= graph.entries() + single_plan(op, map@, n).0);
        e
    };
    (expr, glsl_type_of_exec(op))
}

proof fn lemma_plan_no_output(op: ShaderOp, m: Seq<u32>, n: nat)
    ensures
        forall|k: int| 0 <= k < single_plan(op, m, n).0.len() ==> !(#[trigger] single_plan(op, m, n).0[k].0 is Output),
        !(single_plan(op, m, n).1 is Output),
{
}

proof fn lemma_plan_slots(op: ShaderOp, m: Seq<u32>, n: nat)
    requires
        op_texture_slot(op) != Some(u32::MAX),
    ensures
        forall|k: int| 0 <= k < single_plan(op, m, n).0.len() ==> (#[trigger] texture_slot(single_plan(op, m, n).0[k].0)) != Some(u32::MAX),
        texture_slot(single_plan(op, m, n).1) != Some(u32::MAX),
{
}

proof fn lemma_plan_len(op: ShaderOp, m: Seq<u32>, n: nat)
    ensures
        single_plan(op, m, n).0.len() <= 5,
{
}

/// The expressions, and where each shader operand went, after lowering the
/// first `k` operations of `nodes`.
pub open spec fn transpile_prefix(nodes: Seq<ShaderOp>, k: nat) -> (Seq<(GlslExpr, GlslType)>, Seq<u32>)
    decreases k,
{
    if k == 0 {
        (Seq::empty(), Seq::empty())
    } else {
        let prev = transpile_prefix(nodes, (k - 1) as nat);
        let plan = single_plan(nodes[k - 1], prev.1, prev.0.len());
        let es = prev.0 + plan.0;
        (es.push((plan.1, glsl_type_of(nodes[k - 1]))), prev.1.push(es.len() as u32))
    }
}

/// The expressions that a shader lowers to, for a shader with operations `nodes` and
/// RGBA outputs `outputs`: every operation in order, then the output vector
/// and the output itself.
pub open spec fn transpile_spec(nodes: Seq<ShaderOp>, outputs: Seq<u32>) -> Seq<(GlslExpr, GlslType)> {
    let (es, m) = transpile_prefix(nodes, nodes.len());
    es.push((
        GlslExpr::Vec4(m[outputs[0] as int], m[outputs[1] as int], m[outputs[2] as int], m[outputs[3] as int]),
        GlslType::Float4,
    )).push((GlslExpr::Output(es.len() as u32), GlslType::Float4))
}

/// Lowers a shader into a graph of GLSL expressions that ends in its output.
///
/// A packed 16-bit read whose byte offset overflows 32 bits panics; it is left
/// out here, as are shaders too large for the graph's 32-bit indices: each
/// operation lowers to at most 6 expressions, and the graph numbers its
/// expressions with `u32`.
pub fn transpile(shader: &ShaderData) -> (g: GlslGraph)
    requires
        reads_in_range(shader@),
        shader@.len() < 0x2AAA_AAAA,
    ensures
        g.wf(),
        g.entries() == transpile_spec(shader@, shader.outputs()),
        g.entries().len() <= 6 * shader@.len() + 2,
        reads_no_output(g.entries()),
        op_slots_in_range(shader@) ==> slots_in_range(g.entries()),
{
    proof {
        use_type_invariant(shader);
    }
    let ghost nodes = shader@;
    let ops = shader.iter();
    let mut graph = GlslGraph::new();
    let mut map: Vec<u32> = Vec::new();
    let mut idx: usize = 0;
    while idx < ops.len()
        invariant
            shader.wf(),
            nodes == shader@,
            reads_in_range(nodes),
            nodes.len() < 0x2AAA_AAAA,
            ops@.len() == nodes.len(),
            forall|i: int| 0 <= i < ops@.len() ==> #[trigger] ops@[i] == (i as u32, nodes[i]),
            idx <= nodes.len(),
            graph.wf(),
            (graph.entries(), map@) == transpile_prefix(nodes, idx as nat),
            map@.len() == idx,
            graph.entries().len() <= 6 * idx,
            forall|j: int| 0 <= j < idx ==> #[trigger] map@[j] < graph.entries().len(),
            forall|j: int| 0 <= j < graph.entries().len() ==> !(#[trigger] graph.entries()[j].0 is Output),
            op_slots_in_range(nodes) ==> slots_in_range(graph.entries()),
        decreases nodes.len() - idx,
    {
        let (_, op) = ops[idx];
        proof {
            assert(op == nodes[idx as int]);
            assert(crate::shader::inputs_fit(op, crate::shader::output_types(nodes.take(idx as int))));
            assert forall|j: int| 0 <= j < op_inputs(op).len() implies {
                &&& (#[trigger] op_inputs(op)[j]).0 < map@.len()
                &&& map@[op_inputs(op)[j].0 as int] < graph.entries().len()
            } by {
                assert(crate::shader::input_fits(op, crate::shader::output_types(nodes.take(idx as int)), j));
            }
            lemma_plan_len(op, map@, graph.entries().len());
            lemma_plan_no_output(op, map@, graph.entries().len());
            if op_slots_in_range(nodes) {
                assert(op_texture_slot(nodes[idx as int]) != Some(u32::MAX));
                lemma_plan_slots(op, map@, graph.entries().len());
            }
        }
        let ghost before = graph.entries();
        let (expr, ty) = transpile_single(op, map.as_slice(), &mut graph);
        let index = graph.add(expr, ty);
        map.push(index);
        proof {
            assert(map@ =~= transpile_prefix(nodes, (idx + 1) as nat).1);
        }
        idx += 1;
    }
    let outputs = shader.output();
    proof {
        assert(idx == nodes.len());
        assert forall|k: int| 0 <= k < 4 implies #[trigger] shader.outputs()[k] < nodes.len() by {
            assert(crate::shader::is_float_operand(nodes, shader.outputs()[k]));
        }
        assert(outputs@ == shader.outputs());
        assert(outputs@[0] < map@.len() && outputs@[1] < map@.len() && outputs@[2] < map@.len() && outputs@[3] < map@.len());
    }
    let color = GlslExpr::Vec4(map[outputs[0] as usize], map[outputs[1] as usize], map[outputs[2] as usize], map[outputs[3] as usize]);
    let ghost es = graph.entries();
    let out = graph.add(color, GlslType::Float4);
    graph.add(GlslExpr::Output(out), GlslType::Float4);
    proof {
        let all = graph.entries();
        assert forall|i: int, j: int| 0 <= i < all.len() && 0 <= j < expr_deps(all[i].0).len()
            implies !(all[#[trigger] expr_deps(all[i].0)[j] as int].0 is Output) by {
            let d = expr_deps(all[i].0)[j];
            assert(d < i);
            assert(all[d as int] == es[d as int] || d as int == es.len());
        }
    }
    graph
}

/// The index of the last output expression among the first `k` entries.
pub open spec fn last_output(entries: Seq<(GlslExpr, GlslType)>, k: nat) -> Option<nat>
    decreases k,
{
    if k == 0 {
        None
    } else if entries[k - 1].0 is Output {
        Some((k - 1) as nat)
    } else {
        last_output(entries, (k - 1) as nat)
    }
}

/// `marks` with every index in `deps` set.
pub open spec fn mark_all(marks: Seq<bool>, deps: Seq<u32>) -> Seq<bool> {
    Seq::new(marks.len(), |x: int| marks[x] || deps.contains(x as u32))
}

/// Which entries are used, after visiting the entries from the last down to
/// `k`: the last output is used, and so is every entry a used entry reads.
pub open spec fn usage_from(entries: Seq<(GlslExpr, GlslType)>, k: nat) -> Seq<bool>
    decreases entries.len() - k,
{
    if k >= entries.len() {
        Seq::new(entries.len(), |x: int| last_output(entries, entries.len()) == Some(x as nat))
    } else {
        let u = usage_from(entries, k + 1);
        if u[k as int] { mark_all(u, expr_deps(entries[k as int].0)) } else { u }
    }
}

/// The kept entries up to `k`, each reading through the new indices, and where
/// each of the first `k` entries went.
pub open spec fn prune_build(entries: Seq<(GlslExpr, GlslType)>, used: Seq<bool>, k: nat) -> (Seq<(GlslExpr, GlslType)>, Seq<u32>)
    decreases k,
{
    if k == 0 {
        (Seq::empty(), Seq::new(entries.len(), |_x: int| 0u32))
    } else {
        let (es, m) = prune_build(entries, used, (k - 1) as nat);
        if used[k - 1] {
            (es.push((expr_map(entries[k - 1].0, m), entries[k - 1].1)), m.update(k - 1, es.len() as u32))
        } else {
            (es, m)
        }
    }
}

/// The entries that pruning keeps, in order, reading through the new indices.
pub open spec fn prune_spec(entries: Seq<(GlslExpr, GlslType)>) -> Seq<(GlslExpr, GlslType)> {
    prune_build(entries, usage_from(entries, 0), entries.len()).0
}

proof fn lemma_usage_len(entries: Seq<(GlslExpr, GlslType)>, k: nat)
    ensures
        usage_from(entries, k).len() == entries.len(),
    decreases entries.len() - k,
{
    if k < entries.len() {
        lemma_usage_len(entries, k + 1);
    }
}

/// Visiting entries at or below `x` does not change whether `x` is used.
proof fn lemma_usage_stable(entries: Seq<(GlslExpr, GlslType)>, k: nat, x: int)
    requires
        reads_backward(entries),
        entries.len() <= u32::MAX,
        0 <= x < entries.len(),
        k <= x + 1,
    ensures
        usage_from(entries, k)[x] == usage_from(entries, (x + 1) as nat)[x],
    decreases x + 1 - k,
{
    lemma_usage_len(entries, k);
    if k < x + 1 {
        lemma_usage_stable(entries, k + 1, x);
        let deps = expr_deps(entries[k as int].0);
        if deps.contains(x as u32) {
            let j = choose|j: int| 0 <= j < deps.len() && deps[j] == x as u32;
            assert(deps[j] < k);
        }
    }
}

/// Marks are only ever added.
proof fn lemma_usage_grows(entries: Seq<(GlslExpr, GlslType)>, k: nat, k2: nat, x: int)
    requires
        k2 <= k,
        0 <= x < entries.len(),
        usage_from(entries, k)[x],
    ensures
        usage_from(entries, k2)[x],
    decreases k - k2,
{
    lemma_usage_len(entries, k);
    if k2 < k {
        lemma_usage_grows(entries, k, k2 + 1, x);
        lemma_usage_len(entries, k2 + 1);
    }
}

/// Every entry that a used entry reads is used.
proof fn lemma_usage_closed(entries: Seq<(GlslExpr, GlslType)>, i: int, j: int)
    requires
        reads_backward(entries),
        entries.len() <= u32::MAX,
        0 <= i < entries.len(),
        usage_from(entries, 0)[i],
        0 <= j < expr_deps(entries[i].0).len(),
    ensures
        usage_from(entries, 0)[expr_deps(entries[i].0)[j] as int],
{
    let d = expr_deps(entries[i].0)[j];
    lemma_usage_stable(entries, 0, i);
    lemma_usage_len(entries, (i + 1) as nat);
    assert(expr_deps(entries[i].0).contains(d));
    assert(usage_from(entries, i as nat)[d as int]);
    lemma_usage_grows(entries, i as nat, 0, d as int);
}

proof fn lemma_map_variant(e: GlslExpr, m: Seq<u32>)
    ensures
        texture_slot(expr_map(e, m)) == texture_slot(e),
        (expr_map(e, m) is Output) <==> (e is Output),
        (expr_map(e, m) is LitFloat) <==> (e is LitFloat),
        (expr_map(e, m) is LitInt) <==> (e is LitInt),
        (expr_map(e, m) is LitBool) <==> (e is LitBool),
{
}

/// Removes every expression that the last output does not read, directly or
/// through other expressions; the kept ones read through their new indices.
pub fn prune(graph: &GlslGraph) -> (r: GlslGraph)
    requires
        graph.wf(),
    ensures
        r.wf(),
        r.entries() == prune_spec(graph.entries()),
        r.entries().len() <= graph.entries().len(),
        reads_no_output(graph.entries()) ==> reads_no_output(r.entries()),
        slots_in_range(graph.entries()) ==> slots_in_range(r.entries()),
{
    let ghost entries = graph.entries();
    let items = graph.iter();
    let n = items.len();
    let mut out: Option<usize> = None;
    let mut i: usize = 0;
    while i < n
        invariant
            n == entries.len(),
            n <= u32::MAX,
            items@.len() == n,
            forall|k: int| 0 <= k < n ==> #[trigger] items@[k] == (k as u32, entries[k].0, entries[k].1),
            i <= n,
            match out {
                Some(o) => last_output(entries, i as nat) == Some(o as nat),
                None => last_output(entries, i as nat) is None,
            },
        decreases n - i,
    {
        if let GlslExpr::Output(_) = items[i].1 {
            out = Some(i);
        }
        i += 1;
    }
    let mut used: Vec<bool> = Vec::new();
    let mut i: usize = 0;
    while i < n
        invariant
            n == entries.len(),
            i <= n,
            used@.len() == i,
            match out {
                Some(o) => last_output(entries, n as nat) == Some(o as nat),
                None => last_output(entries, n as nat) is None,
            },
            forall|x: int| 0 <= x < i ==> #[trigger] used@[x] == (last_output(entries, n as nat) == Some(x as nat)),
        decreases n - i,
    {
        let mark = match out {
            Some(o) => o == i,
            None => false,
        };
        used.push(mark);
        i += 1;
    }
    proof {
        assert(used@ =~= usage_from(entries, n as nat));
    }
    let mut i: usize = n;
    while i > 0
        invariant
            n == entries.len(),
            n <= u32::MAX,
            graph.wf(),
            entries == graph.entries(),
            items@.len() == n,
            forall|k: int| 0 <= k < n ==> #[trigger] items@[k] == (k as u32, entries[k].0, entries[k].1),
            i <= n,
            used@ == usage_from(entries, i as nat),
        decreases i,
    {
        let k = i - 1;
        proof {
            lemma_usage_len(entries, i as nat);
        }
        if used[k] {
            let deps = items[k].1.visit_deps();
            let ghost u = used@;
            let mut t: usize = 0;
            while t < deps.len()
                invariant
                    n == entries.len(),
                    n <= u32::MAX,
                    graph.wf(),
                    entries == graph.entries(),
                    k < n,
                    deps@ == expr_deps(entries[k as int].0),
                    u.len() == n,
                    t <= deps@.len(),
                    used@ == mark_all(u, deps@.take(t as int)),
                decreases deps@.len() - t,
            {
                let d = deps[t];
                proof {
                    assert(deps@[t as int] < k);
                }
                let ghost before = used@;
                used.set(d as usize, true);
                proof {
                    let s = deps@.take(t as int + 1);
                    assert(s =~= deps@.take(t as int).push(d));
                    assert forall|x: int| 0 <= x < n implies #[trigger] used@[x] == (u[x] || s.contains(x as u32)) by {
                        assert(before[x] == (u[x] || deps@.take(t as int).contains(x as u32)));
                        if x == d as int {
                            assert(s[t as int] == d);
                        }
                        if s.contains(x as u32) && x != d as int {
                            let j = choose|j: int| 0 <= j < s.len() && s[j] == x as u32;
                            assert(deps@.take(t as int).contains(x as u32)) by {
                                assert(deps@.take(t as int)[j] == x as u32);
                            }
                        }
                        if deps@.take(t as int).contains(x as u32) {
                            let j = choose|j: int| 0 <= j < t && deps@.take(t as int)[j] == x as u32;
                            assert(s[j] == x as u32);
                        }
                    }
                    assert(used@ =~= mark_all(u, s));
                }
                t += 1;
            }
            proof {
                assert(deps@.take(deps@.len() as int) =~= deps@);
            }
        }
        i -= 1;
    }
    let mut result = GlslGraph::new();
    let mut mapping: Vec<u32> = Vec::new();
    let mut j: usize = 0;
    while j < n
        invariant
            j <= n,
            mapping@.len() == j,
            forall|x: int| 0 <= x < j ==> #[trigger] mapping@[x] == 0u32,
        decreases n - j,
    {
        mapping.push(0);
        j += 1;
    }
    proof {
        assert(mapping@ =~= prune_build(entries, used@, 0).1);
    }
    let mut i: usize = 0;
    while i < n
        invariant
            n == entries.len(),
            n <= u32::MAX,
            reads_backward(entries),
            items@.len() == n,
            forall|k: int| 0 <= k < n ==> #[trigger] items@[k] == (k as u32, entries[k].0, entries[k].1),
            used@ == usage_from(entries, 0),
            i <= n,
            result.wf(),
            result.entries().len() <= i,
            (result.entries(), mapping@) == prune_build(entries, used@, i as nat),
            mapping@.len() == n,
            forall|x: int| 0 <= x < i && used@[x] ==> #[trigger] mapping@[x] < result.entries().len(),
            forall|x: int| 0 <= x < i && used@[x] ==> (result.entries()[#[trigger] mapping@[x] as int].0 is Output
                <==> entries[x].0 is Output),
            reads_no_output(entries) ==> reads_no_output(result.entries()),
            slots_in_range(entries) ==> slots_in_range(result.entries()),
        decreases n - i,
    {
        proof {
            lemma_usage_len(entries, 0);
        }
        if used[i] {
            let (_, expr, ty) = items[i];
            proof {
                assert(expr == entries[i as int].0);
                assert forall|q: int| 0 <= q < expr_deps(expr).len() implies (#[trigger] expr_deps(expr)[q]) < mapping@.len() by {
                    assert(expr_deps(entries[i as int].0)[q] < i);
                }
            }
            let mapped = expr.map_deps(mapping.as_slice());
            proof {
                assert forall|q: int| 0 <= q < expr_deps(mapped).len() implies (#[trigger] expr_deps(mapped)[q]) < result.entries().len() by {
                    let d = expr_deps(expr)[q];
                    assert(d < i);
                    lemma_usage_closed(entries, i as int, q);
                    assert(expr_deps(mapped)[q] == mapping@[d as int]);
                }
            }
            let ghost before = result.entries();
            let index = result.add(mapped, ty);
            mapping.set(i, index);
            proof {
                lemma_map_variant(expr, mapping@);
                let all = result.entries();
                if slots_in_range(entries) {
                    assert(texture_slot(entries[i as int].0) != Some(u32::MAX));
                    assert forall|q: int| 0 <= q < all.len() implies (#[trigger] texture_slot(all[q].0)) != Some(u32::MAX) by {
                        if q < before.len() {
                            assert(all[q] == before[q]);
                        }
                    }
                }
                assert forall|x: int| 0 <= x < i && used@[x] implies (all[#[trigger] mapping@[x] as int].0 is Output
                    <==> entries[x].0 is Output) by {
                    assert(all[mapping@[x] as int] == before[mapping@[x] as int]);
                }
                if reads_no_output(entries) {
                    assert forall|a: int, j: int| 0 <= a < all.len() && 0 <= j < expr_deps(all[a].0).len()
                        implies !(all[#[trigger] expr_deps(all[a].0)[j] as int].0 is Output) by {
                        if a < before.len() {
                            assert(all[a] == before[a]);
                            assert(all[expr_deps(all[a].0)[j] as int] == before[expr_deps(all[a].0)[j] as int]);
                        } else {
                            let d = expr_deps(expr)[j];
                            assert(expr_deps(mapped)[j] == mapping@[d as int]);
                            assert(d < i);
                            lemma_usage_closed(entries, i as int, j);
                            assert(!(entries[expr_deps(entries[i as int].0)[j] as int].0 is Output));
                        }
                    }
                }
            }
        }
        i += 1;
    }
    result
}

/// No expression of `entries` reads an output expression.
pub open spec fn reads_no_output(entries: Seq<(GlslExpr, GlslType)>) -> bool {
    forall|i: int, j: int| 0 <= i < entries.len() && 0 <= j < expr_deps(entries[i].0).len()
        ==> !(entries[#[trigger] expr_deps(entries[i].0)[j] as int].0 is Output)
}

/// The first of the first `k` entries whose expression is `e`.
pub open spec fn first_with(es: Seq<(GlslExpr, GlslType)>, e: GlslExpr, k: nat) -> Option<nat>
    decreases k,
{
    if k == 0 {
        None
    } else {
        match first_with(es, e, (k - 1) as nat) {
            Some(j) => Some(j),
            None => if es[k - 1].0 == e { Some((k - 1) as nat) } else { None },
        }
    }
}

/// The entries after merging duplicates among the first `k`, and where each of
/// them went: an expression equal to one already kept, once it reads through
/// the new indices, is replaced by it; outputs are always kept.
pub open spec fn hashcons_build(entries: Seq<(GlslExpr, GlslType)>, k: nat) -> (Seq<(GlslExpr, GlslType)>, Seq<u32>)
    decreases k,
{
    if k == 0 {
        (Seq::empty(), Seq::new(entries.len(), |_x: int| 0u32))
    } else {
        let (es, m) = hashcons_build(entries, (k - 1) as nat);
        let (e, t) = entries[k - 1];
        if e is Output {
            (es.push((expr_map(e, m), t)), m)
        } else {
            let e2 = expr_map(e, m);
            match first_with(es, e2, es.len()) {
                Some(j) => (es, m.update(k - 1, j as u32)),
                None => (es.push((e2, t)), m.update(k - 1, es.len() as u32)),
            }
        }
    }
}

/// The entries after merging duplicate expressions.
pub open spec fn hashcons_spec(entries: Seq<(GlslExpr, GlslType)>) -> Seq<(GlslExpr, GlslType)> {
    hashcons_build(entries, entries.len()).0
}

proof fn lemma_first_with(es: Seq<(GlslExpr, GlslType)>, e: GlslExpr, k: nat)
    requires
        k <= es.len(),
    ensures
        first_with(es, e, k) matches Some(j) ==> j < k && es[j as int].0 == e,
        first_with(es, e, k) is None ==> forall|j: int| 0 <= j < k ==> es[j].0 != e,
    decreases k,
{
    if k > 0 {
        lemma_first_with(es, e, (k - 1) as nat);
    }
}

proof fn lemma_first_with_found(es: Seq<(GlslExpr, GlslType)>, e: GlslExpr, j: nat, k: nat)
    requires
        j < k <= es.len(),
        first_with(es, e, j) is None,
        es[j as int].0 == e,
    ensures
        first_with(es, e, k) == Some(j),
    decreases k,
{
    if k > j + 1 {
        lemma_first_with_found(es, e, j, (k - 1) as nat);
    }
}

fn find_expr(result: &GlslGraph, e: GlslExpr) -> (r: Option<u32>)
    requires
        result.entries().len() <= u32::MAX,
    ensures
        r matches Some(j) ==> first_with(result.entries(), e, result.entries().len()) == Some(j as nat),
        r is None ==> first_with(result.entries(), e, result.entries().len()) is None,
{
    let n = result.len();
    let mut j: usize = 0;
    while j < n
        invariant
            n == result.entries().len() <= u32::MAX,
            j <= n,
            first_with(result.entries(), e, j as nat) is None,
        decreases n - j,
    {
        let (x, _) = result.get(j as u32);
        if x == e {
            proof {
                lemma_first_with_found(result.entries(), e, j as nat, n as nat);
            }
            return Some(j as u32);
        }
        j += 1;
    }
    None
}

/// Merges duplicate expressions: each expression, once it reads through the
/// new indices, is replaced by an equal one already kept; outputs are always kept.
///
/// An expression that reads an output panics; such graphs are left out here.
pub fn hashcons(graph: &GlslGraph) -> (r: GlslGraph)
    requires
        graph.wf(),
        reads_no_output(graph.entries()),
    ensures
        r.wf(),
        r.entries() == hashcons_spec(graph.entries()),
        r.entries().len() <= graph.entries().len(),
        slots_in_range(graph.entries()) ==> slots_in_range(r.entries()),
        reads_no_output(r.entries()),
{
    let ghost entries = graph.entries();
    let items = graph.iter();
    let n = items.len();
    let mut result = GlslGraph::new();
    let mut mapping: Vec<u32> = Vec::new();
    let mut j: usize = 0;
    while j < n
        invariant
            j <= n,
            mapping@.len() == j,
            forall|x: int| 0 <= x < j ==> #[trigger] mapping@[x] == 0u32,
        decreases n - j,
    {
        mapping.push(0);
        j += 1;
    }
    proof {
        assert(mapping@ =~= hashcons_build(entries, 0).1);
    }
    let mut i: usize = 0;
    while i < n
        invariant
            n == entries.len(),
            n <= u32::MAX,
            reads_backward(entries),
            reads_no_output(entries),
            items@.len() == n,
            forall|k: int| 0 <= k < n ==> #[trigger] items@[k] == (k as u32, entries[k].0, entries[k].1),
            i <= n,
            result.wf(),
            result.entries().len() <= i,
            (result.entries(), mapping@) == hashcons_build(entries, i as nat),
            mapping@.len() == n,
            forall|x: int| 0 <= x < i && !(entries[x].0 is Output) ==> #[trigger] mapping@[x] < result.entries().len(),
            slots_in_range(entries) ==> slots_in_range(result.entries()),
            forall|x: int| 0 <= x < i && !(entries[x].0 is Output) ==> !(result.entries()[#[trigger] mapping@[x] as int].0 is Output),
            reads_no_output(result.entries()),
        decreases n - i,
    {
        let (_, expr, ty) = items[i];
        proof {
            assert(expr == entries[i as int].0);
            assert forall|q: int| 0 <= q < expr_deps(expr).len() implies (#[trigger] expr_deps(expr)[q]) < mapping@.len() by {
                assert(expr_deps(entries[i as int].0)[q] < i);
            }
        }
        let mapped = expr.map_deps(mapping.as_slice());
        proof {
            assert forall|q: int| 0 <= q < expr_deps(mapped).len() implies (#[trigger] expr_deps(mapped)[q]) < result.entries().len() by {
                let d = expr_deps(expr)[q];
                assert(d < i);
                assert(!(entries[expr_deps(entries[i as int].0)[q] as int].0 is Output));
                assert(expr_deps(mapped)[q] == mapping@[d as int]);
            }
        }
        proof {
            lemma_map_variant(expr, mapping@);
            if slots_in_range(entries) {
                assert(texture_slot(entries[i as int].0) != Some(u32::MAX));
            }
        }
        let ghost before = result.entries();
        if let GlslExpr::Output(_) = expr {
            result.add(mapped, ty);
        } else {
            let found_at = find_expr(&result, mapped);
            proof {
                lemma_first_with(result.entries(), mapped, result.entries().len());
            }
            match found_at {
                Some(found) => {
                    mapping.set(i, found);
                },
                None => {
                    let index = result.add(mapped, ty);
                    mapping.set(i, index);
                },
            }
        }
        proof {
            let all = result.entries();
            if slots_in_range(entries) {
                assert forall|q: int| 0 <= q < all.len() implies (#[trigger] texture_slot(all[q].0)) != Some(u32::MAX) by {
                    if q < before.len() {
                        assert(all[q] == before[q]);
                    }
                }
            }
            lemma_first_with(before, mapped, before.len());
            assert forall|x: int| 0 <= x < i + 1 && !(entries[x].0 is Output) implies !(all[#[trigger] mapping@[x] as int].0 is Output) by {
                if x < i {
                    assert(all[mapping@[x] as int] == before[mapping@[x] as int]);
                }
            }
            assert forall|a: int, j: int| 0 <= a < all.len() && 0 <= j < expr_deps(all[a].0).len()
                implies !(all[#[trigger] expr_deps(all[a].0)[j] as int].0 is Output) by {
                if a < before.len() {
                    assert(all[a] == before[a]);
                    assert(all[expr_deps(all[a].0)[j] as int] == before[expr_deps(all[a].0)[j] as int]);
                } else {
                    let d = expr_deps(expr)[j];
                    assert(expr_deps(mapped)[j] == mapping@[d as int]);
                    assert(d < i);
                    assert(!(entries[expr_deps(entries[i as int].0)[j] as int].0 is Output));
                    assert(all[mapping@[d as int] as int] == before[mapping@[d as int] as int]);
                }
            }
        }
        i += 1;
    }
    result
}

/// The position of a type in [`Variables::counts`] order.
pub open spec fn ty_index(t: GlslType) -> int {
    match t {
        GlslType::Float1 => 0,
        GlslType::Float2 => 1,
        GlslType::Float4 => 2,
        GlslType::Int1 => 3,
        GlslType::Int2 => 4,
        GlslType::Int4 => 5,
        GlslType::Bool1 => 6,
    }
}

fn ty_index_exec(t: GlslType) -> (r: usize)
    ensures
        r == ty_index(t),
{
    match t {
        GlslType::Float1 => 0,
        GlslType::Float2 => 1,
        GlslType::Float4 => 2,
        GlslType::Int1 => 3,
        GlslType::Int2 => 4,
        GlslType::Int4 => 5,
        GlslType::Bool1 => 6,
    }
}

/// Constants are always written in place, never through a variable.
pub open spec fn always_inline(e: GlslExpr) -> bool {
    e is LitFloat || e is LitInt || e is LitBool
}

/// How many times entry `i` is read.
pub open spec fn uses_of(entries: Seq<(GlslExpr, GlslType)>, i: int) -> nat {
    readers(entries, i, entries.len()).len()
}

/// Entry `i` gets a variable: it is read more than once and is not a constant.
pub open spec fn gets_variable(entries: Seq<(GlslExpr, GlslType)>, i: int) -> bool {
    !always_inline(entries[i].0) && uses_of(entries, i) > 1
}

/// The first of the first `k` slots whose count of remaining uses is 0.
pub open spec fn first_free(st: Seq<u32>, k: nat) -> Option<nat>
    decreases k,
{
    if k == 0 {
        None
    } else {
        match first_free(st, (k - 1) as nat) {
            Some(p) => Some(p),
            None => if st[k - 1] == 0 { Some((k - 1) as nat) } else { None },
        }
    }
}

/// The slot counts after one use of each variable read by `deps` is given back.
pub open spec fn release_deps(
    stacks: Seq<Seq<u32>>,
    nodes: Seq<Option<u32>>,
    entries: Seq<(GlslExpr, GlslType)>,
    deps: Seq<u32>,
) -> Seq<Seq<u32>>
    decreases deps.len(),
{
    if deps.len() == 0 {
        stacks
    } else {
        let st = release_deps(stacks, nodes, entries, deps.drop_last());
        let d = deps.last();
        match nodes[d as int] {
            Some(r) => {
                let ti = ty_index(entries[d as int].1);
                st.update(ti, st[ti].update(r as int, (st[ti][r as int] - 1) as u32))
            },
            None => st,
        }
    }
}

/// The slots of each type, with the uses each still awaits, and the slot of
/// each entry, after visiting the first `k` entries: an entry that gets a
/// variable takes the first slot of its type with no uses left (or a new
/// one) for as many uses as it has, then gives back one use of the variable
/// of each entry it reads.
pub open spec fn alloc_upto(entries: Seq<(GlslExpr, GlslType)>, k: nat) -> (Seq<Seq<u32>>, Seq<Option<u32>>)
    decreases k,
{
    if k == 0 {
        (Seq::new(7, |_t: int| Seq::<u32>::empty()), Seq::new(entries.len(), |_x: int| None::<u32>))
    } else {
        let (st, nd) = alloc_upto(entries, (k - 1) as nat);
        let i = k - 1;
        if !gets_variable(entries, i) {
            (st, nd)
        } else {
            let ti = ty_index(entries[i].1);
            let s = st[ti];
            let u = uses_of(entries, i) as u32;
            let slot = match first_free(s, s.len()) {
                Some(p) => p,
                None => s.len(),
            };
            let s2 = if slot < s.len() { s.update(slot as int, u) } else { s.push(u) };
            let nd2 = nd.update(i, Some(slot as u32));
            (release_deps(st.update(ti, s2), nd2, entries, expr_deps(entries[i].0)), nd2)
        }
    }
}

/// The variables of a GLSL program: how many of each type, and which
/// expression is held in which.
pub struct Variables {
    /// For each type that has variables, in type order, how many.
    pub counts: Vec<(GlslType, u32)>,
    /// For each expression, the index of its variable among those of its type, if it has one.
    pub nodes: Vec<Option<u32>>,
}

/// The type at position `k` of [`Variables::counts`] order.
pub open spec fn ty_at(k: int) -> GlslType {
    if k == 0 { GlslType::Float1 } else if k == 1 { GlslType::Float2 } else if k == 2 { GlslType::Float4 }
    else if k == 3 { GlslType::Int1 } else if k == 4 { GlslType::Int2 } else if k == 5 { GlslType::Int4 }
    else { GlslType::Bool1 }
}

fn ty_at_exec(k: usize) -> (t: GlslType)
    ensures
        t == ty_at(k as int),
{
    if k == 0 { GlslType::Float1 } else if k == 1 { GlslType::Float2 } else if k == 2 { GlslType::Float4 }
    else if k == 3 { GlslType::Int1 } else if k == 4 { GlslType::Int2 } else if k == 5 { GlslType::Int4 }
    else { GlslType::Bool1 }
}

/// The types that have slots, in type order, each with its number of slots.
pub open spec fn counts_of(stacks: Seq<Seq<u32>>, k: nat) -> Seq<(GlslType, u32)>
    decreases k,
{
    if k == 0 {
        Seq::empty()
    } else {
        let prev = counts_of(stacks, (k - 1) as nat);
        if stacks[k - 1].len() > 0 {
            prev.push((ty_at(k - 1), stacks[k - 1].len() as u32))
        } else {
            prev
        }
    }
}

/// Reads of entry `x` by those of the first `n` entries that get a variable.
pub open spec fn alloc_reads(entries: Seq<(GlslExpr, GlslType)>, x: int, n: nat) -> nat
    decreases n,
{
    if n == 0 {
        0
    } else {
        alloc_reads(entries, x, (n - 1) as nat) + if gets_variable(entries, n - 1) {
            count_of(expr_deps(entries[n - 1].0), x as u32)
        } else {
            0
        }
    }
}

/// The uses the variable of entry `x` still awaits while entry `i` gives back
/// the uses of the entries in `taken`.
pub open spec fn pending(entries: Seq<(GlslExpr, GlslType)>, x: int, i: nat, taken: Seq<u32>) -> int {
    uses_of(entries, x) - alloc_reads(entries, x, i) - count_of(taken, x as u32)
}

/// Every variable's slot exists; the slot of a variable that still awaits uses
/// counts exactly those; and no two variables that both await uses share a slot.
pub open spec fn slots_consistent(
    entries: Seq<(GlslExpr, GlslType)>,
    st: Seq<Seq<u32>>,
    nd: Seq<Option<u32>>,
    i: nat,
    taken: Seq<u32>,
) -> bool {
    &&& st.len() == 7
    &&& nd.len() == entries.len()
    &&& forall|x: int| 0 <= x < entries.len() && (#[trigger] nd[x]) is Some ==> nd[x]->0 < st[ty_index(entries[x].1)].len()
    &&& forall|x: int| 0 <= x < entries.len() && (#[trigger] nd[x]) is Some && pending(entries, x, i, taken) > 0
        ==> st[ty_index(entries[x].1)][nd[x]->0 as int] == pending(entries, x, i, taken)
    &&& forall|x: int, y: int| 0 <= x < entries.len() && 0 <= y < entries.len() && x != y
        && (#[trigger] nd[x]) is Some && nd[x] == (#[trigger] nd[y]) && ty_index(entries[x].1) == ty_index(entries[y].1)
        && pending(entries, x, i, taken) > 0 ==> pending(entries, y, i, taken) <= 0
}

proof fn lemma_count_le(s: Seq<u32>, a: u32)
    ensures
        count_of(s, a) <= s.len(),
    decreases s.len(),
{
    if s.len() > 0 {
        lemma_count_le(s.drop_last(), a);
    }
}

proof fn lemma_count_prefix(s: Seq<u32>, a: u32, t: int)
    requires
        0 <= t < s.len(),
    ensures
        count_of(s.take(t + 1), a) == count_of(s.take(t), a) + if s[t] == a { 1nat } else { 0nat },
        count_of(s.take(t + 1), a) <= count_of(s, a),
    decreases s.len() - t,
{
    assert(s.take(t + 1).drop_last() =~= s.take(t));
    if t + 1 < s.len() {
        lemma_count_prefix(s, a, t + 1);
    } else {
        assert(s.take(t + 1) =~= s);
    }
}

proof fn lemma_deps_len(e: GlslExpr)
    ensures
        expr_deps(e).len() <= 4,
{
}

proof fn lemma_readers_len(entries: Seq<(GlslExpr, GlslType)>, x: int, n: nat, m: nat)
    requires
        n <= m <= entries.len(),
    ensures
        readers(entries, x, n).len() <= readers(entries, x, m).len(),
        readers(entries, x, m).len() <= 4 * m,
        alloc_reads(entries, x, n) <= readers(entries, x, n).len(),
        n < m ==> readers(entries, x, n).len() + count_of(expr_deps(entries[n as int].0), x as u32) <= readers(entries, x, m).len(),
    decreases m,
{
    if m > 0 {
        lemma_count_le(expr_deps(entries[m - 1].0), x as u32);
        lemma_deps_len(entries[m - 1].0);
        if n < m {
            lemma_readers_len(entries, x, n, (m - 1) as nat);
        } else {
            lemma_readers_len(entries, x, (n - 1) as nat, (m - 1) as nat);
        }
    }
}

/// No variable is taken over while the expression it holds still has a
/// reader to come: when two expressions of one type share a variable, every
/// reader of the earlier one comes before the later one.
pub open spec fn no_clobber(entries: Seq<(GlslExpr, GlslType)>, nodes: Seq<Option<u32>>, n: nat) -> bool {
    forall|x: int, y: int| 0 <= x < y < n && (#[trigger] nodes[x]) is Some && nodes[x] == (#[trigger] nodes[y])
        && ty_index(entries[x].1) == ty_index(entries[y].1)
        ==> forall|k: int| 0 <= k < readers(entries, x, entries.len()).len()
            ==> #[trigger] readers(entries, x, entries.len())[k] < y
}

proof fn lemma_readers_below(entries: Seq<(GlslExpr, GlslType)>, x: int, m: nat)
    requires
        m <= entries.len() <= u32::MAX,
    ensures
        forall|k: int| 0 <= k < readers(entries, x, m).len() ==> #[trigger] readers(entries, x, m)[k] < m,
    decreases m,
{
    if m > 0 {
        lemma_readers_below(entries, x, (m - 1) as nat);
        let prev = readers(entries, x, (m - 1) as nat);
        let cur = readers(entries, x, m);
        assert forall|k: int| 0 <= k < cur.len() implies #[trigger] cur[k] < m by {
            if k < prev.len() {
                assert(cur[k] == prev[k]);
            } else {
                assert(cur[k] == (m - 1) as u32);
            }
        }
    }
}

proof fn lemma_readers_settled(entries: Seq<(GlslExpr, GlslType)>, x: int, i: nat, m: nat)
    requires
        i <= m <= entries.len(),
        readers(entries, x, m).len() == readers(entries, x, i).len(),
    ensures
        readers(entries, x, m) == readers(entries, x, i),
    decreases m,
{
    if m > i {
        lemma_readers_len(entries, x, i, (m - 1) as nat);
        lemma_readers_len(entries, x, (m - 1) as nat, m);
        lemma_readers_settled(entries, x, i, (m - 1) as nat);
        assert(readers(entries, x, m) =~= readers(entries, x, (m - 1) as nat));
    }
}

/// An expression whose every use was given back by entries before `i` is
/// read only by entries before `i`.
proof fn lemma_readers_before(entries: Seq<(GlslExpr, GlslType)>, x: int, i: nat)
    requires
        i <= entries.len() <= u32::MAX,
        pending(entries, x, i, Seq::empty()) <= 0,
    ensures
        forall|k: int| 0 <= k < readers(entries, x, entries.len()).len()
            ==> #[trigger] readers(entries, x, entries.len())[k] < i,
{
    let n = entries.len();
    lemma_readers_len(entries, x, i, n);
    assert(count_of(Seq::<u32>::empty(), x as u32) == 0);
    lemma_readers_settled(entries, x, i, n);
    lemma_readers_below(entries, x, i);
}

/// Picks the slot for a new variable: the first with no uses left, or a new one.
fn take_slot(stack: &mut Vec<u32>, uses: u32) -> (slot: u32)
    requires
        old(stack)@.len() < u32::MAX,
    ensures
        slot == (match first_free(old(stack)@, old(stack)@.len()) {
            Some(p) => p,
            None => old(stack)@.len(),
        }),
        final(stack)@ == if slot < old(stack)@.len() { old(stack)@.update(slot as int, uses) } else { old(stack)@.push(uses) },
{
    let n = stack.len();
    let mut j: usize = 0;
    while j < n
        invariant
            n == stack@.len(),
            stack@ == old(stack)@,
            n < u32::MAX,
            j <= n,
            first_free(stack@, j as nat) is None,
        decreases n - j,
    {
        if stack[j] == 0 {
            proof {
                lemma_first_free_found(stack@, j as nat, n as nat);
            }
            stack.set(j, uses);
            return j as u32;
        }
        j += 1;
    }
    stack.push(uses);
    n as u32
}

proof fn lemma_first_free_found(st: Seq<u32>, j: nat, k: nat)
    requires
        j < k <= st.len(),
        first_free(st, j) is None,
        st[j as int] == 0,
    ensures
        first_free(st, k) == Some(j),
    decreases k,
{
    if k > j + 1 {
        lemma_first_free_found(st, j, (k - 1) as nat);
    }
}

proof fn lemma_first_free(st: Seq<u32>, k: nat)
    requires
        k <= st.len(),
    ensures
        first_free(st, k) matches Some(p) ==> p < k && st[p as int] == 0,
    decreases k,
{
    if k > 0 {
        lemma_first_free(st, (k - 1) as nat);
    }
}

/// The contents of a list of lists.
pub open spec fn views(s: Seq<Vec<u32>>) -> Seq<Seq<u32>> {
    s.map_values(|v: Vec<u32>| v@)
}

/// Assigns variables to the expressions that are read more than once and are
/// not constants, reusing the slot of a variable once all its uses are given back.
/// Use counts are `u32`: each expression must be read at most `u32::MAX` times.
pub fn allocate(graph: &GlslGraph) -> (vars: Variables)
    requires
        graph.wf(),
        forall|x: int| 0 <= x < graph.entries().len() ==> #[trigger] uses_of(graph.entries(), x) <= u32::MAX,
    ensures
        vars.nodes@ == alloc_upto(graph.entries(), graph.entries().len()).1,
        vars.nodes@.len() == graph.entries().len(),
        vars.counts@ == counts_of(alloc_upto(graph.entries(), graph.entries().len()).0, 7),
        no_clobber(graph.entries(), vars.nodes@, graph.entries().len()),
{
    let ghost entries = graph.entries();
    let items = graph.iter();
    let n = items.len();
    let mut stacks: Vec<Vec<u32>> = Vec::new();
    let mut k: usize = 0;
    while k < 7
        invariant
            k <= 7,
            stacks@.len() == k,
            forall|j: int| 0 <= j < k ==> (#[trigger] stacks@[j])@ == Seq::<u32>::empty(),
        decreases 7 - k,
    {
        stacks.push(Vec::new());
        k += 1;
    }
    let mut nodes: Vec<Option<u32>> = Vec::new();
    let mut k: usize = 0;
    while k < n
        invariant
            k <= n,
            nodes@.len() == k,
            forall|j: int| 0 <= j < k ==> (#[trigger] nodes@[j]) is None,
        decreases n - k,
    {
        nodes.push(None);
        k += 1;
    }
    proof {
        assert(views(stacks@) =~= alloc_upto(entries, 0).0);
        assert(nodes@ =~= alloc_upto(entries, 0).1);
    }
    let mut i: usize = 0;
    while i < n
        invariant
            graph.wf(),
            entries == graph.entries(),
            n == entries.len(),
            forall|x: int| 0 <= x < n ==> #[trigger] uses_of(entries, x) <= u32::MAX,
            items@.len() == n,
            forall|q: int| 0 <= q < n ==> #[trigger] items@[q] == (q as u32, entries[q].0, entries[q].1),
            i <= n,
            stacks@.len() == 7,
            (views(stacks@), nodes@) == alloc_upto(entries, i as nat),
            forall|j: int| 0 <= j < 7 ==> (#[trigger] stacks@[j])@.len() <= i,
            slots_consistent(entries, views(stacks@), nodes@, i as nat, Seq::empty()),
            forall|x: int| i <= x < n ==> (#[trigger] nodes@[x]) is None,
            no_clobber(entries, nodes@, i as nat),
        decreases n - i,
    {
        let (_, expr, ty) = items[i];
        let uses = graph.forward_count(i as u32);
        proof {
            lemma_readers_len(entries, i as int, n as nat, n as nat);
            assert(uses == uses_of(entries, i as int));
        }
        let inline = match expr {
            GlslExpr::LitFloat(_) | GlslExpr::LitInt(_) | GlslExpr::LitBool(_) => true,
            _ => false,
        };
        if inline || uses <= 1 {
            proof {
                assert(!gets_variable(entries, i as int));
                assert forall|x: int| 0 <= x < n implies pending(entries, x, (i + 1) as nat, Seq::empty())
                    == pending(entries, x, i as nat, Seq::empty()) by {}
            }
            i += 1;
            continue;
        }
        let ghost st0 = views(stacks@);
        let ghost nd0 = nodes@;
        let ti = ty_index_exec(ty);
        let slot = take_slot(&mut stacks[ti], uses as u32);
        nodes.set(i, Some(slot));
        proof {
            lemma_first_free(st0[ti as int], st0[ti as int].len());
            lemma_no_readers_yet(entries, i as int, i as nat);
            lemma_readers_len(entries, i as int, i as nat, i as nat);
            assert(alloc_reads(entries, i as int, i as nat) == 0);
            assert(views(stacks@) =~= st0.update(ti as int, views(stacks@)[ti as int]));
            assert(no_clobber(entries, nodes@, (i + 1) as nat)) by {
                let nd = nodes@;
                assert forall|x: int, y: int| 0 <= x < y < i + 1 && (#[trigger] nd[x]) is Some && nd[x] == (#[trigger] nd[y])
                    && ty_index(entries[x].1) == ty_index(entries[y].1)
                    implies forall|k: int| 0 <= k < readers(entries, x, entries.len()).len()
                        ==> #[trigger] readers(entries, x, entries.len())[k] < y by {
                    if y < i {
                        assert(nd0[x] == nd[x] && nd0[y] == nd[y]);
                    } else {
                        assert(nd0[x] is Some);
                        assert(nd0[x]->0 < st0[ti as int].len());
                        if pending(entries, x, i as nat, Seq::empty()) > 0 {
                            assert(st0[ti as int][slot as int] == pending(entries, x, i as nat, Seq::empty()));
                        }
                        lemma_readers_before(entries, x, i as nat);
                    }
                }
            }
            assert(slots_consistent(entries, views(stacks@), nodes@, i as nat, Seq::empty())) by {
                let st = views(stacks@);
                let nd = nodes@;
                assert forall|x: int| 0 <= x < n && (#[trigger] nd[x]) is Some implies nd[x]->0 < st[ty_index(entries[x].1)].len() by {
                    if x != i {
                        assert(nd0[x] is Some);
                    }
                }
                assert forall|x: int| 0 <= x < n && (#[trigger] nd[x]) is Some && pending(entries, x, i as nat, Seq::empty()) > 0
                    implies st[ty_index(entries[x].1)][nd[x]->0 as int] == pending(entries, x, i as nat, Seq::empty()) by {
                    if x != i {
                        assert(nd0[x] is Some);
                        if ty_index(entries[x].1) == ti && nd[x]->0 == slot {
                            assert(st0[ti as int][slot as int] == 0);
                        }
                    }
                }
                assert forall|x: int, y: int| 0 <= x < n && 0 <= y < n && x != y
                    && (#[trigger] nd[x]) is Some && nd[x] == (#[trigger] nd[y]) && ty_index(entries[x].1) == ty_index(entries[y].1)
                    && pending(entries, x, i as nat, Seq::empty()) > 0 implies pending(entries, y, i as nat, Seq::empty()) <= 0 by {
                    if x == i {
                        assert(nd0[y] is Some);
                        if pending(entries, y, i as nat, Seq::empty()) > 0 {
                            assert(st0[ti as int][slot as int] == pending(entries, y, i as nat, Seq::empty()));
                        }
                    } else if y == i {
                        assert(nd0[x] is Some);
                        assert(st0[ti as int][slot as int] == pending(entries, x, i as nat, Seq::empty()));
                    } else {
                        assert(nd0[x] is Some && nd0[y] is Some);
                    }
                }
            }
        }
        let deps = expr.visit_deps();
        let ghost base = views(stacks@);
        let mut t: usize = 0;
        while t < deps.len()
            invariant
                graph.wf(),
                entries == graph.entries(),
                n == entries.len(),
                forall|x: int| 0 <= x < n ==> #[trigger] uses_of(entries, x) <= u32::MAX,
                i < n,
                deps@ == expr_deps(entries[i as int].0),
                gets_variable(entries, i as int),
                t <= deps@.len(),
                stacks@.len() == 7,
                views(stacks@) == release_deps(base, nodes@, entries, deps@.take(t as int)),
                forall|j: int| 0 <= j < 7 ==> (#[trigger] stacks@[j])@.len() <= i + 1,
                slots_consistent(entries, views(stacks@), nodes@, i as nat, deps@.take(t as int)),
            decreases deps@.len() - t,
        {
            let d = deps[t];
            proof {
                assert(deps@.take(t as int + 1).drop_last() =~= deps@.take(t as int));
                assert(d < i);
            }
            match nodes[d as usize] {
                Some(r) => {
                    let (_, dty) = graph.get(d);
                    let di = ty_index_exec(dty);
                    proof {
                        let taken = deps@.take(t as int);
                        lemma_count_prefix(deps@, d, t as int);
                        lemma_readers_len(entries, d as int, i as nat, n as nat);
                        assert(pending(entries, d as int, i as nat, taken) >= 1);
                    }
                    let v = stacks[di][r as usize];
                    let ghost before = views(stacks@);
                    stacks[di].set(r as usize, v - 1);
                    proof {
                        let taken = deps@.take(t as int);
                        let taken2 = deps@.take(t as int + 1);
                        let st = views(stacks@);
                        let nd = nodes@;
                        assert(st =~= before.update(di as int, before[di as int].update(r as int, (v - 1) as u32)));
                        assert forall|x: int| 0 <= x < n && x != d as int implies #[trigger] pending(entries, x, i as nat, taken2)
                            == pending(entries, x, i as nat, taken) by {
                            lemma_count_prefix(deps@, x as u32, t as int);
                        }
                        assert(slots_consistent(entries, st, nd, i as nat, taken2)) by {
                            assert forall|x: int| 0 <= x < n && (#[trigger] nd[x]) is Some && pending(entries, x, i as nat, taken2) > 0
                                implies st[ty_index(entries[x].1)][nd[x]->0 as int] == pending(entries, x, i as nat, taken2) by {
                                if x != d as int && ty_index(entries[x].1) == di && nd[x]->0 == r {
                                    assert(pending(entries, d as int, i as nat, taken) > 0);
                                }
                            }
                        }
                    }
                },
                None => {
                    proof {
                        let taken = deps@.take(t as int);
                        let taken2 = deps@.take(t as int + 1);
                        assert forall|x: int| 0 <= x < n && x != d as int implies #[trigger] pending(entries, x, i as nat, taken2)
                            == pending(entries, x, i as nat, taken) by {
                            lemma_count_prefix(deps@, x as u32, t as int);
                        }
                        lemma_count_prefix(deps@, d, t as int);
                    }
                },
            }
            t += 1;
        }
        proof {
            assert(deps@.take(deps@.len() as int) =~= deps@);
            assert forall|x: int| 0 <= x < n implies pending(entries, x, (i + 1) as nat, Seq::empty())
                == pending(entries, x, i as nat, deps@) by {}
        }
        i += 1;
    }
    let mut counts: Vec<(GlslType, u32)> = Vec::new();
    let mut k: usize = 0;
    while k < 7
        invariant
            k <= 7,
            stacks@.len() == 7,
            forall|j: int| 0 <= j < 7 ==> (#[trigger] stacks@[j])@.len() <= n,
            forall|x: int| 0 <= x < n ==> #[trigger] uses_of(entries, x) <= u32::MAX,
            counts@ == counts_of(views(stacks@), k as nat),
        decreases 7 - k,
    {
        let len = stacks[k].len();
        if len > 0 {
            counts.push((ty_at_exec(k), len as u32));
        }
        k += 1;
    }
    Variables { counts, nodes }
}


/// One more than the highest texture slot the first `k` entries read, or 0.
pub open spec fn textures_used(entries: Seq<(GlslExpr, GlslType)>, k: nat) -> nat
    decreases k,
{
    if k == 0 {
        0
    } else {
        let prev = textures_used(entries, (k - 1) as nat);
        match texture_slot(entries[k - 1].0) {
            Some(t) => if t + 1 > prev { (t + 1) as nat } else { prev },
            None => prev,
        }
    }
}

proof fn lemma_textures_bounded(entries: Seq<(GlslExpr, GlslType)>, k: nat)
    requires
        k <= entries.len(),
        slots_in_range(entries),
    ensures
        textures_used(entries, k) <= u32::MAX,
    decreases k,
{
    if k > 0 {
        lemma_textures_bounded(entries, (k - 1) as nat);
        assert(texture_slot(entries[k - 1].0) != Some(u32::MAX));
    }
}

/// The number of texture slots the graph reads: one more than the highest.
///
/// A slot of `u32::MAX` overflows and panics; it is left out here.
pub fn count_textures(graph: &GlslGraph) -> (r: u32)
    requires
        slots_in_range(graph.entries()),
        graph.entries().len() <= u32::MAX,
    ensures
        r == textures_used(graph.entries(), graph.entries().len()),
{
    let ghost entries = graph.entries();
    let items = graph.iter();
    let mut num: u32 = 0;
    let mut i: usize = 0;
    while i < items.len()
        invariant
            items@.len() == entries.len(),
            forall|q: int| 0 <= q < entries.len() ==> #[trigger] items@[q] == (q as u32, entries[q].0, entries[q].1),
            forall|q: int| 0 <= q < entries.len() ==> (#[trigger] texture_slot(entries[q].0)) != Some(u32::MAX),
            i <= entries.len(),
            num == textures_used(entries, i as nat),
        decreases entries.len() - i,
    {
        proof {
            lemma_textures_bounded(entries, i as nat);
            assert(texture_slot(entries[i as int].0) != Some(u32::MAX));
        }
        match items[i].1 {
            GlslExpr::TextureSize(t) | GlslExpr::TextureSample(t, _, _, _) => {
                if t + 1 > num {
                    num = t + 1;
                }
            },
            _ => {},
        }
        i += 1;
    }
    num
}

/// A statement of a GLSL function.
pub enum GlslStmt {
    /// Declares `count` variables of a type.
    DeclareVars { type_: GlslType, count: u32 },
    /// Assigns an expression to a variable.
    AssignExpr { var: u32, type_: GlslType, expr: GlslExpr },
    /// Returns the output color.
    ReturnExpr { expr: GlslExpr },
    /// Runs one list of statements or the other.
    Branch { condition: GlslExpr, then_branch: Vec<GlslStmt>, else_branch: Vec<GlslStmt> },
}

/// A shader as a GLSL function body: the expression that stands for each
/// graph entry (its variable, or itself), the statements, and the number of
/// texture slots it reads.
pub struct GlslShader {
    pub expressions: Vec<Option<GlslExpr>>,
    pub statements: Vec<GlslStmt>,
    pub num_textures: u32,
}

/// A statement that declares variables or assigns or returns an expression.
pub open spec fn simple_stmt(st: GlslStmt) -> Option<(u8, GlslType, u32, GlslExpr)> {
    match st {
        GlslStmt::DeclareVars { type_, count } => Some((0u8, type_, count, GlslExpr::LitBool(false))),
        GlslStmt::AssignExpr { var, type_, expr } => Some((1u8, type_, var, expr)),
        GlslStmt::ReturnExpr { expr } => Some((2u8, GlslType::Float4, 0u32, expr)),
        GlslStmt::Branch { .. } => None,
    }
}

/// The statement declaring `count` variables of type `t`.
pub open spec fn declare_of(t: GlslType, count: u32) -> Option<(u8, GlslType, u32, GlslExpr)> {
    Some((0u8, t, count, GlslExpr::LitBool(false)))
}

/// The expression standing for each entry, and the statements for the entries,
/// after visiting the first `k` entries: an output returns the expression of
/// the entry it reads; an entry with a variable is assigned to it and stands
/// for it; any other entry stands for itself.
pub open spec fn body_upto(entries: Seq<(GlslExpr, GlslType)>, vars: Seq<Option<u32>>, k: nat)
    -> (Seq<Option<GlslExpr>>, Seq<Option<(u8, GlslType, u32, GlslExpr)>>)
    decreases k,
{
    if k == 0 {
        (Seq::new(entries.len(), |_x: int| None::<GlslExpr>), Seq::empty())
    } else {
        let (ex, st) = body_upto(entries, vars, (k - 1) as nat);
        let i = k - 1;
        let (e, t) = entries[i];
        match e {
            GlslExpr::Output(o) => (ex, st.push(Some((2u8, GlslType::Float4, 0u32, ex[o as int]->0)))),
            _ => match vars[i] {
                Some(v) => (ex.update(i, Some(GlslExpr::Variable(v, t))), st.push(Some((1u8, t, v, e)))),
                None => (ex.update(i, Some(e)), st),
            },
        }
    }
}

/// `e` reads only entries below `bound` that stand for an expression, and
/// only texture slots below `textures`.
pub open spec fn refs_ok(ex: Seq<Option<GlslExpr>>, e: GlslExpr, bound: nat, textures: nat) -> bool {
    &&& forall|j: int| 0 <= j < expr_deps(e).len() ==> {
        let d = #[trigger] expr_deps(e)[j];
        &&& d < bound
        &&& d < ex.len()
        &&& ex[d as int] is Some
    }
    &&& texture_slot(e) matches Some(t) ==> t < textures
}

/// The expressions of a shader body read only earlier entries that stand for
/// an expression, the statements only entries that stand for one, and all of
/// them only texture slots below the body's count; there are no branches.
pub open spec fn body_ok(r: GlslShader) -> bool {
    let ex = r.expressions@;
    &&& forall|i: int| 0 <= i < ex.len() && (#[trigger] ex[i]) is Some ==> refs_ok(ex, ex[i]->0, i as nat, r.num_textures as nat)
    &&& forall|k: int| 0 <= k < r.statements@.len() ==> match #[trigger] r.statements@[k] {
        GlslStmt::AssignExpr { expr, .. } => refs_ok(ex, expr, ex.len(), r.num_textures as nat),
        GlslStmt::ReturnExpr { expr } => refs_ok(ex, expr, ex.len(), r.num_textures as nat),
        GlslStmt::DeclareVars { .. } => true,
        GlslStmt::Branch { .. } => false,
    }
}

proof fn lemma_refs_mono(ex0: Seq<Option<GlslExpr>>, ex: Seq<Option<GlslExpr>>, e: GlslExpr, b0: nat, b: nat, t: nat)
    requires
        refs_ok(ex0, e, b0, t),
        b0 <= b,
        ex.len() == ex0.len(),
        forall|d: int| 0 <= d < ex0.len() && (#[trigger] ex0[d]) is Some ==> ex[d] is Some,
    ensures
        refs_ok(ex, e, b, t),
{
    assert forall|j: int| 0 <= j < expr_deps(e).len() implies {
        let d = #[trigger] expr_deps(e)[j];
        &&& d < b
        &&& d < ex.len()
        &&& ex[d as int] is Some
    } by {
        let d = expr_deps(e)[j];
        assert(ex0[d as int] is Some);
    }
}

proof fn lemma_textures_cover(entries: Seq<(GlslExpr, GlslType)>, k: nat, q: int)
    requires
        0 <= q < k <= entries.len(),
        texture_slot(entries[q].0) is Some,
    ensures
        texture_slot(entries[q].0)->0 < textures_used(entries, k),
    decreases k,
{
    if q < k - 1 {
        lemma_textures_cover(entries, (k - 1) as nat, q);
    }
}

/// The graph a shader compiles to: lowered, pruned, with duplicates merged.
pub open spec fn compiled_graph(nodes: Seq<ShaderOp>, outputs: Seq<u32>) -> Seq<(GlslExpr, GlslType)> {
    hashcons_spec(prune_spec(transpile_spec(nodes, outputs)))
}

/// The statements that declare the variables of each type, in type order.
pub open spec fn declarations(counts: Seq<(GlslType, u32)>) -> Seq<Option<(u8, GlslType, u32, GlslExpr)>> {
    counts.map_values(|c: (GlslType, u32)| declare_of(c.0, c.1))
}

/// Compiles a shader into the body of a GLSL function: the shader is
/// lowered, pruned and merged, its variables allocated, and then come the
/// declarations, the assignments to variables and the return of the output.
///
/// Shaders that the steps above leave out (see [`transpile`] and
/// [`count_textures`]) are left out here, as are shaders whose expressions
/// could be read more often than a `u32` use count holds: an expression
/// reads at most 4 others, so every count fits when the graph has fewer than
/// 2^30 expressions, that is, when the shader has fewer than `0x0AAA_AAAB`
/// operations.
pub fn process(shader: &ShaderData) -> (r: GlslShader)
    requires
        reads_in_range(shader@),
        op_slots_in_range(shader@),
        shader@.len() < 0x0AAA_AAAB,
    ensures
        ({
            let g = compiled_graph(shader@, shader.outputs());
            let alloc = alloc_upto(g, g.len());
            &&& r.num_textures == textures_used(g, g.len())
            &&& r.expressions@ == body_upto(g, alloc.1, g.len()).0
            &&& r.statements@.map_values(|st: GlslStmt| simple_stmt(st))
                == declarations(counts_of(alloc.0, 7)) + body_upto(g, alloc.1, g.len()).1
        }),
        body_ok(r),
{
    let graph = transpile(shader);
    let graph = prune(&graph);
    let graph = hashcons(&graph);
    proof {
        let es = graph.entries();
        assert forall|x: int| 0 <= x < es.len() implies #[trigger] uses_of(es, x) <= u32::MAX by {
            lemma_readers_len(es, x, es.len(), es.len());
        }
    }
    let vars = allocate(&graph);
    let ghost g = graph.entries();
    let ghost body = body_upto(g, vars.nodes@, g.len());
    let items = graph.iter();
    let n = items.len();
    let mut expressions: Vec<Option<GlslExpr>> = Vec::new();
    let mut k: usize = 0;
    while k < n
        invariant
            k <= n,
            expressions@.len() == k,
            forall|j: int| 0 <= j < k ==> (#[trigger] expressions@[j]) is None,
        decreases n - k,
    {
        expressions.push(None);
        k += 1;
    }
    let mut statements: Vec<GlslStmt> = Vec::new();
    let mut k: usize = 0;
    while k < vars.counts.len()
        invariant
            k <= vars.counts@.len(),
            forall|q: int| 0 <= q < statements@.len() ==> (#[trigger] statements@[q]) is DeclareVars,
            statements@.map_values(|st: GlslStmt| simple_stmt(st)) == declarations(vars.counts@.take(k as int)),
        decreases vars.counts@.len() - k,
    {
        let (type_, count) = vars.counts[k];
        let ghost before = statements@;
        statements.push(GlslStmt::DeclareVars { type_, count });
        proof {
            assert(statements@ == before.push(GlslStmt::DeclareVars { type_, count }));
            assert(statements@.map_values(|st: GlslStmt| simple_stmt(st)) =~= before.map_values(|st: GlslStmt| simple_stmt(st)).push(
                declare_of(type_, count)));
            assert(vars.counts@.take(k as int + 1) =~= vars.counts@.take(k as int).push((type_, count)));
            assert(statements@.map_values(|st: GlslStmt| simple_stmt(st)) =~= declarations(vars.counts@.take(k as int + 1)));
        }
        k += 1;
    }
    proof {
        assert(vars.counts@.take(vars.counts@.len() as int) =~= vars.counts@);
        assert(expressions@ =~= body_upto(g, vars.nodes@, 0).0);
    }
    let ghost decls = statements@.map_values(|st: GlslStmt| simple_stmt(st));
    let mut i: usize = 0;
    while i < n
        invariant
            n == g.len(),
            graph.wf(),
            g == graph.entries(),
            reads_no_output(g),
            items@.len() == n,
            forall|q: int| 0 <= q < n ==> #[trigger] items@[q] == (q as u32, g[q].0, g[q].1),
            vars.nodes@.len() == n,
            i <= n,
            expressions@ == body_upto(g, vars.nodes@, i as nat).0,
            expressions@.len() == n,
            forall|q: int| 0 <= q < i && !(g[q].0 is Output) ==> (#[trigger] expressions@[q]) is Some,
            forall|q: int| i <= q < n ==> (#[trigger] expressions@[q]) is None,
            statements@.map_values(|st: GlslStmt| simple_stmt(st)) == decls + body_upto(g, vars.nodes@, i as nat).1,
            slots_in_range(g),
            forall|q: int| 0 <= q < n && (#[trigger] expressions@[q]) is Some
                ==> refs_ok(expressions@, expressions@[q]->0, q as nat, textures_used(g, n as nat)),
            forall|q: int| 0 <= q < statements@.len() ==> match #[trigger] statements@[q] {
                GlslStmt::AssignExpr { expr, .. } => refs_ok(expressions@, expr, n as nat, textures_used(g, n as nat)),
                GlslStmt::ReturnExpr { expr } => refs_ok(expressions@, expr, n as nat, textures_used(g, n as nat)),
                GlslStmt::DeclareVars { .. } => true,
                GlslStmt::Branch { .. } => false,
            },
        decreases n - i,
    {
        let (_, expr, ty) = items[i];
        let ghost ex0 = expressions@;
        let ghost st0 = statements@;
        let ghost before = statements@.map_values(|st: GlslStmt| simple_stmt(st));
        proof {
            lemma_body_len(g, vars.nodes@, i as nat);
        }
        match expr {
            GlslExpr::Output(output) => {
                proof {
                    assert(expr_deps(g[i as int].0)[0] == output);
                    assert(output < i);
                    assert(!(g[output as int].0 is Output));
                }
                let value = expressions[output as usize].unwrap();
                statements.push(GlslStmt::ReturnExpr { expr: value });
                proof {
                    assert(statements@.map_values(|st: GlslStmt| simple_stmt(st)) =~= before.push(
                        Some((2u8, GlslType::Float4, 0u32, value))));
                }
            },
            _ => {
                match vars.nodes[i] {
                    Some(var) => {
                        expressions.set(i, Some(GlslExpr::Variable(var, ty)));
                        statements.push(GlslStmt::AssignExpr { var, expr, type_: ty });
                        proof {
                            assert(statements@.map_values(|st: GlslStmt| simple_stmt(st)) =~= before.push(
                                Some((1u8, ty, var, expr))));
                        }
                    },
                    None => {
                        expressions.set(i, Some(expr));
                    },
                }
            },
        }
        proof {
            let ex = expressions@;
            let tu = textures_used(g, n as nat);
            if texture_slot(g[i as int].0) is Some {
                lemma_textures_cover(g, n as nat, i as int);
            }
            assert(refs_ok(ex, g[i as int].0, i as nat, tu) || g[i as int].0 is Output) by {
                if !(g[i as int].0 is Output) {
                    assert forall|j: int| 0 <= j < expr_deps(g[i as int].0).len() implies {
                        let d = #[trigger] expr_deps(g[i as int].0)[j];
                        &&& d < i
                        &&& d < ex.len()
                        &&& ex[d as int] is Some
                    } by {
                        let d = expr_deps(g[i as int].0)[j];
                        assert(!(g[d as int].0 is Output));
                    }
                }
            }
            assert(ex0[i as int] is None);
            assert forall|d: int| 0 <= d < ex0.len() && (#[trigger] ex0[d]) is Some implies ex[d] is Some by {
                assert(d != i);
            }
            assert forall|q: int| 0 <= q < n && (#[trigger] ex[q]) is Some
                implies refs_ok(ex, ex[q]->0, q as nat, tu) by {
                if q != i {
                    assert(ex[q] == ex0[q]);
                    lemma_refs_mono(ex0, ex, ex0[q]->0, q as nat, q as nat, tu);
                } else if !(g[i as int].0 is Output) {
                    if ex[q]->0 != g[i as int].0 {
                        assert(ex[q]->0 is Variable);
                    }
                }
            }
            assert forall|q: int| 0 <= q < statements@.len() implies match #[trigger] statements@[q] {
                GlslStmt::AssignExpr { expr, .. } => refs_ok(ex, expr, n as nat, tu),
                GlslStmt::ReturnExpr { expr } => refs_ok(ex, expr, n as nat, tu),
                GlslStmt::DeclareVars { .. } => true,
                GlslStmt::Branch { .. } => false,
            } by {
                if q < st0.len() {
                    assert(statements@[q] == st0[q]);
                    match st0[q] {
                        GlslStmt::AssignExpr { expr, .. } => lemma_refs_mono(ex0, ex, expr, n as nat, n as nat, tu),
                        GlslStmt::ReturnExpr { expr } => lemma_refs_mono(ex0, ex, expr, n as nat, n as nat, tu),
                        _ => {},
                    }
                } else {
                    match g[i as int].0 {
                        GlslExpr::Output(o) => {
                            assert(o < i);
                            assert(!(g[o as int].0 is Output));
                            assert(ex0[o as int] is Some);
                            lemma_refs_mono(ex0, ex, ex0[o as int]->0, o as nat, n as nat, tu);
                        },
                        _ => {
                            lemma_refs_mono(ex, ex, g[i as int].0, i as nat, n as nat, tu);
                        },
                    }
                }
            }
        }
        i += 1;
    }
    GlslShader { expressions, statements, num_textures: count_textures(&graph) }
}

proof fn lemma_body_len(entries: Seq<(GlslExpr, GlslType)>, vars: Seq<Option<u32>>, k: nat)
    requires
        k <= entries.len(),
    ensures
        body_upto(entries, vars, k).0.len() == entries.len(),
    decreases k,
{
    if k > 0 {
        lemma_body_len(entries, vars, (k - 1) as nat);
    }
}

/// In a well-formed graph, expression `b` is listed among the expressions
/// reading `a` (its forward list) exactly as many times as `a` is listed in
/// the backward list of `b`.
pub proof fn lemma_forward_matches_backward(g: &GlslGraph, a: int, b: int)
    requires
        g.wf(),
        0 <= a < g.entries().len(),
        0 <= b < g.entries().len(),
    ensures
        count_of(g.forward_of(a), b as u32) == count_of(g.backward_of(b), a as u32),
{
    lemma_readers_count(g.entries(), a, g.entries().len(), b);
}

/// No expression other than an output occurs twice: each equals none before it.
pub open spec fn no_duplicates(es: Seq<(GlslExpr, GlslType)>) -> bool {
    forall|i: int, j: int| 0 <= i < j < es.len() && !(es[j].0 is Output) ==> #[trigger] es[i].0 != #[trigger] es[j].0
}

proof fn lemma_hashcons_unique_upto(entries: Seq<(GlslExpr, GlslType)>, k: nat)
    requires
        k <= entries.len(),
    ensures
        no_duplicates(hashcons_build(entries, k).0),
    decreases k,
{
    if k > 0 {
        lemma_hashcons_unique_upto(entries, (k - 1) as nat);
        let (es, m) = hashcons_build(entries, (k - 1) as nat);
        let (e, t) = entries[k - 1];
        let e2 = expr_map(e, m);
        lemma_first_with(es, e2, es.len());
        let r = hashcons_build(entries, k).0;
        assert forall|i: int, j: int| 0 <= i < j < r.len() && !(r[j].0 is Output) implies #[trigger] r[i].0 != #[trigger] r[j].0 by {
            if j < es.len() {
                assert(r[i] == es[i] && r[j] == es[j]);
            } else if e is Output {
                assert(r[j].0 == expr_map(e, m));
                lemma_map_variant(e, m);
            } else {
                assert(r[i] == es[i]);
            }
        }
    }
}

/// Merging duplicates leaves no expression but an output equal to one
/// before it.
pub proof fn lemma_hashcons_unique(entries: Seq<(GlslExpr, GlslType)>)
    ensures
        no_duplicates(hashcons_spec(entries)),
{
    lemma_hashcons_unique_upto(entries, entries.len());
}

/// Two tables that agree on the expressions `e` reads map it alike: only the
/// operands of an expression change, never its kind, literals, lane, texture
/// slot or filter.
pub proof fn lemma_map_deps_agree(e: GlslExpr, m1: Seq<u32>, m2: Seq<u32>)
    requires
        forall|j: int| 0 <= j < expr_deps(e).len() ==> m1[#[trigger] expr_deps(e)[j] as int] == m2[expr_deps(e)[j] as int],
    ensures
        expr_map(e, m1) == expr_map(e, m2),
{
    let d = expr_deps(e);
    if d.len() > 0 {
        assert(m1[d[0] as int] == m2[d[0] as int]);
    }
    if d.len() > 1 {
        assert(m1[d[1] as int] == m2[d[1] as int]);
    }
    if d.len() > 2 {
        assert(m1[d[2] as int] == m2[d[2] as int]);
    }
    if d.len() > 3 {
        assert(m1[d[3] as int] == m2[d[3] as int]);
    }
}

/// Mapping an expression by a table that sends each of its operands to
/// itself gives the expression back.
pub proof fn lemma_map_deps_identity(e: GlslExpr, m: Seq<u32>)
    requires
        forall|j: int| 0 <= j < expr_deps(e).len() ==> m[#[trigger] expr_deps(e)[j] as int] == expr_deps(e)[j],
    ensures
        expr_map(e, m) == e,
{
    let d = expr_deps(e);
    if d.len() > 0 {
        assert(m[d[0] as int] == d[0]);
    }
    if d.len() > 1 {
        assert(m[d[1] as int] == d[1]);
    }
    if d.len() > 2 {
        assert(m[d[2] as int] == d[2]);
    }
    if d.len() > 3 {
        assert(m[d[3] as int] == d[3]);
    }
}

/// Mapping by `f` and then by `g` is mapping once by the table that sends
/// each `i` to `g[f[i]]`.
pub proof fn lemma_map_deps_compose(e: GlslExpr, f: Seq<u32>, g: Seq<u32>)
    requires
        forall|j: int| 0 <= j < expr_deps(e).len() ==> (#[trigger] expr_deps(e)[j]) < f.len(),
    ensures
        expr_map(expr_map(e, f), g) == expr_map(e, Seq::new(f.len(), |i: int| g[f[i] as int])),
{
    let h = Seq::new(f.len(), |i: int| g[f[i] as int]);
    let d = expr_deps(e);
    if d.len() > 0 {
        assert(d[0] < f.len());
        assert(h[d[0] as int] == g[f[d[0] as int] as int]);
    }
    if d.len() > 1 {
        assert(d[1] < f.len());
        assert(h[d[1] as int] == g[f[d[1] as int] as int]);
    }
    if d.len() > 2 {
        assert(d[2] < f.len());
        assert(h[d[2] as int] == g[f[d[2] as int] as int]);
    }
    if d.len() > 3 {
        assert(d[3] < f.len());
        assert(h[d[3] as int] == g[f[d[3] as int] as int]);
    }
}

/// The expression `e` with every operand set to 0: what remains is its kind,
/// its literals, lane, texture slot and filter.
pub open spec fn skeleton(e: GlslExpr) -> GlslExpr {
    expr_map(e, Seq::new(0x1_0000_0000, |_i: int| 0u32))
}

/// Entry `i` of `a` and entry `j` of `b` unfold to the same expression tree:
/// the same kind of expression, whose operands in turn unfold alike. (An
/// expression reads at most four operands.)
pub open spec fn same_tree(a: Seq<(GlslExpr, GlslType)>, i: int, b: Seq<(GlslExpr, GlslType)>, j: int) -> bool
    decreases i,
{
    let d = expr_deps(a[i].0);
    let e = expr_deps(b[j].0);
    &&& 0 <= i < a.len()
    &&& 0 <= j < b.len()
    &&& skeleton(a[i].0) == skeleton(b[j].0)
    &&& d.len() == e.len()
    &&& d.len() <= 4
    &&& (d.len() > 0 ==> d[0] < i && same_tree(a, d[0] as int, b, e[0] as int))
    &&& (d.len() > 1 ==> d[1] < i && same_tree(a, d[1] as int, b, e[1] as int))
    &&& (d.len() > 2 ==> d[2] < i && same_tree(a, d[2] as int, b, e[2] as int))
    &&& (d.len() > 3 ==> d[3] < i && same_tree(a, d[3] as int, b, e[3] as int))
}

proof fn lemma_map_deps_of(e: GlslExpr, m: Seq<u32>)
    requires
        forall|j: int| 0 <= j < expr_deps(e).len() ==> (#[trigger] expr_deps(e)[j]) < m.len(),
    ensures
        expr_deps(expr_map(e, m)) == expr_deps(e).map_values(|d: u32| m[d as int]),
{
    assert(expr_deps(expr_map(e, m)) =~= expr_deps(e).map_values(|d: u32| m[d as int]));
}

proof fn lemma_skeleton_map(e: GlslExpr, m: Seq<u32>)
    requires
        forall|j: int| 0 <= j < expr_deps(e).len() ==> (#[trigger] expr_deps(e)[j]) < m.len(),
    ensures
        skeleton(expr_map(e, m)) == skeleton(e),
{
    let z = Seq::new(0x1_0000_0000, |_i: int| 0u32);
    lemma_map_deps_compose(e, m, z);
    let h = Seq::new(m.len(), |i: int| z[m[i] as int]);
    assert forall|j: int| 0 <= j < expr_deps(e).len() implies h[#[trigger] expr_deps(e)[j] as int] == z[expr_deps(e)[j] as int] by {
        let d = expr_deps(e)[j];
        assert(d < m.len());
        assert(m[d as int] < 0x1_0000_0000);
    }
    lemma_map_deps_agree(e, h, z);
}

/// Where `m` sends each entry of `a` marked in `p` to an entry of `b` that
/// holds the same expression reading through `m`; the marked entries read
/// only marked entries.
pub open spec fn maps_exprs(a: Seq<(GlslExpr, GlslType)>, b: Seq<(GlslExpr, GlslType)>, m: Seq<u32>, p: Seq<bool>) -> bool {
    &&& p.len() == a.len()
    &&& m.len() == a.len()
    &&& forall|x: int| 0 <= x < a.len() && #[trigger] p[x] ==> {
        &&& m[x] < b.len()
        &&& b[m[x] as int].0 == expr_map(a[x].0, m)
        &&& forall|k: int| 0 <= k < expr_deps(a[x].0).len() ==> p[#[trigger] expr_deps(a[x].0)[k] as int]
    }
}

/// An entry of `b` that holds entry `i` of `a` reading through `m`, where `i`
/// reads only entries marked in `p`, unfolds to the same tree as `i`.
proof fn lemma_tree_at(a: Seq<(GlslExpr, GlslType)>, b: Seq<(GlslExpr, GlslType)>, m: Seq<u32>, p: Seq<bool>,
    i: int, j: int)
    requires
        reads_backward(a),
        maps_exprs(a, b, m, p),
        0 <= i < a.len(),
        0 <= j < b.len(),
        b[j].0 == expr_map(a[i].0, m),
        forall|k: int| 0 <= k < expr_deps(a[i].0).len() ==> p[#[trigger] expr_deps(a[i].0)[k] as int],
    ensures
        same_tree(a, i, b, j),
    decreases i,
{
    let e = a[i].0;
    let d = expr_deps(e);
    assert forall|k: int| 0 <= k < d.len() implies (#[trigger] d[k]) < m.len() && d[k] < i by {
        assert(d[k] < i);
    }
    lemma_deps_len(e);
    lemma_map_deps_of(e, m);
    lemma_skeleton_map(e, m);
    let f = expr_deps(b[j].0);
    if d.len() > 0 {
        assert(p[d[0] as int]);
        assert(f[0] == m[d[0] as int]);
        lemma_tree_at(a, b, m, p, d[0] as int, m[d[0] as int] as int);
    }
    if d.len() > 1 {
        assert(p[d[1] as int]);
        assert(f[1] == m[d[1] as int]);
        lemma_tree_at(a, b, m, p, d[1] as int, m[d[1] as int] as int);
    }
    if d.len() > 2 {
        assert(p[d[2] as int]);
        assert(f[2] == m[d[2] as int]);
        lemma_tree_at(a, b, m, p, d[2] as int, m[d[2] as int] as int);
    }
    if d.len() > 3 {
        assert(p[d[3] as int]);
        assert(f[3] == m[d[3] as int]);
        lemma_tree_at(a, b, m, p, d[3] as int, m[d[3] as int] as int);
    }
}

proof fn lemma_prune_build_maps(g: Seq<(GlslExpr, GlslType)>, used: Seq<bool>, k: nat)
    requires
        reads_backward(g),
        used.len() == g.len(),
        k <= g.len(),
        g.len() <= u32::MAX,
    ensures
        prune_build(g, used, k).1.len() == g.len(),
        prune_build(g, used, k).0.len() <= k,
        forall|x: int| 0 <= x < k && #[trigger] used[x] ==> {
            let (es, m) = prune_build(g, used, k);
            &&& m[x] < es.len()
            &&& es[m[x] as int].0 == expr_map(g[x].0, m)
        },
    decreases k,
{
    if k > 0 {
        lemma_prune_build_maps(g, used, (k - 1) as nat);
        let (es, m) = prune_build(g, used, (k - 1) as nat);
        let (es2, m2) = prune_build(g, used, k);
        if used[k - 1] {
            assert forall|x: int| 0 <= x < k && #[trigger] used[x] implies {
                &&& m2[x] < es2.len()
                &&& es2[m2[x] as int].0 == expr_map(g[x].0, m2)
            } by {
                assert forall|q: int| 0 <= q < expr_deps(g[x].0).len() implies
                    m[#[trigger] expr_deps(g[x].0)[q] as int] == m2[expr_deps(g[x].0)[q] as int] by {
                    assert(expr_deps(g[x].0)[q] < x);
                }
                lemma_map_deps_agree(g[x].0, m, m2);
                if x < k - 1 {
                    assert(m2[x] == m[x]);
                    assert(es2[m[x] as int] == es[m[x] as int]);
                } else {
                    assert(m2[x] == es.len());
                }
            }
        }
    }
}

/// No entry past the last output is used.
proof fn lemma_usage_below_output(g: Seq<(GlslExpr, GlslType)>, k: nat, x: int)
    requires
        reads_backward(g),
        g.len() <= u32::MAX,
        last_output(g, g.len()) is Some,
        k <= g.len(),
        0 <= x < g.len(),
        usage_from(g, k)[x],
    ensures
        x <= last_output(g, g.len())->0,
    decreases g.len() - k,
{
    lemma_usage_len(g, k);
    if k < g.len() {
        lemma_usage_len(g, k + 1);
        let u = usage_from(g, k + 1);
        if !u[x] {
            assert(u[k as int]);
            lemma_usage_below_output(g, k + 1, k as int);
            let d = expr_deps(g[k as int].0);
            assert(d.contains(x as u32));
            let q = choose|q: int| 0 <= q < d.len() && d[q] == x as u32;
            assert(d[q] < k);
        } else {
            lemma_usage_below_output(g, k + 1, x);
        }
    }
}

/// Past the last used entry, building the pruned graph adds nothing and moves nothing.
proof fn lemma_prune_tail(g: Seq<(GlslExpr, GlslType)>, used: Seq<bool>, o: nat, k: nat)
    requires
        used.len() == g.len(),
        o < k <= g.len(),
        forall|x: int| o < x < g.len() ==> !#[trigger] used[x],
    ensures
        prune_build(g, used, k).0.len() == prune_build(g, used, o + 1).0.len(),
        prune_build(g, used, k).1[o as int] == prune_build(g, used, o + 1).1[o as int],
    decreases k,
{
    if k > o + 1 {
        lemma_prune_tail(g, used, o, (k - 1) as nat);
        assert(!used[k - 1]);
    }
}

/// Pruning keeps the output's expression tree: the pruned graph ends in an
/// entry that unfolds to the same tree as the last output of the graph.
pub proof fn lemma_prune_keeps_output_tree(g: Seq<(GlslExpr, GlslType)>)
    requires
        reads_backward(g),
        g.len() <= u32::MAX,
        last_output(g, g.len()) is Some,
    ensures
        prune_spec(g).len() > 0,
        same_tree(g, last_output(g, g.len())->0 as int, prune_spec(g), prune_spec(g).len() - 1),
{
    let n = g.len();
    let o = last_output(g, n)->0 as int;
    lemma_last_output_in(g, n);
    let used = usage_from(g, 0);
    lemma_usage_len(g, 0);
    lemma_usage_len(g, n);
    assert(usage_from(g, n)[o]);
    lemma_usage_grows(g, n, 0, o);
    lemma_prune_build_maps(g, used, n);
    let (es, m) = prune_build(g, used, n);
    assert(es == prune_spec(g));
    assert forall|x: int| 0 <= x < g.len() && #[trigger] used[x] implies {
        &&& m[x] < es.len()
        &&& es[m[x] as int].0 == expr_map(g[x].0, m)
        &&& forall|k: int| 0 <= k < expr_deps(g[x].0).len() ==> used[#[trigger] expr_deps(g[x].0)[k] as int]
    } by {
        assert forall|k: int| 0 <= k < expr_deps(g[x].0).len() implies used[#[trigger] expr_deps(g[x].0)[k] as int] by {
            lemma_usage_closed(g, x, k);
        }
    }
    assert(maps_exprs(g, es, m, used));
    assert forall|k: int| 0 <= k < expr_deps(g[o].0).len() implies used[#[trigger] expr_deps(g[o].0)[k] as int] by {
        lemma_usage_closed(g, o, k);
    }
    assert forall|x: int| o < x < g.len() implies !#[trigger] used[x] by {
        if used[x] {
            lemma_usage_below_output(g, 0, x);
        }
    }
    lemma_usage_len(g, 0);
    lemma_prune_tail(g, used, o as nat, n);
    let (es1, m1) = prune_build(g, used, (o + 1) as nat);
    let (es0, m0) = prune_build(g, used, o as nat);
    lemma_prune_build_maps(g, used, o as nat);
    assert(used[o]);
    assert(m1[o] == es0.len());
    assert(es1.len() == es0.len() + 1);
    assert(m[o] == es.len() - 1);
    lemma_tree_at(g, es, m, used, o, m[o] as int);
}

proof fn lemma_last_output_in(g: Seq<(GlslExpr, GlslType)>, k: nat)
    requires
        k <= g.len(),
    ensures
        last_output(g, k) matches Some(o) ==> o < k && g[o as int].0 is Output,
    decreases k,
{
    if k > 0 {
        lemma_last_output_in(g, (k - 1) as nat);
    }
}

proof fn lemma_hashcons_build_maps(g: Seq<(GlslExpr, GlslType)>, k: nat)
    requires
        reads_backward(g),
        k <= g.len(),
        g.len() <= u32::MAX,
    ensures
        hashcons_build(g, k).1.len() == g.len(),
        hashcons_build(g, k).0.len() <= k,
        forall|x: int| 0 <= x < k && !((#[trigger] g[x]).0 is Output) ==> {
            let (es, m) = hashcons_build(g, k);
            &&& m[x] < es.len()
            &&& es[m[x] as int].0 == expr_map(g[x].0, m)
        },
    decreases k,
{
    if k > 0 {
        lemma_hashcons_build_maps(g, (k - 1) as nat);
        let (es, m) = hashcons_build(g, (k - 1) as nat);
        let (es2, m2) = hashcons_build(g, k);
        let e = g[k - 1].0;
        if !(e is Output) {
            let e2 = expr_map(e, m);
            lemma_first_with(es, e2, es.len());
        }
        assert forall|x: int| 0 <= x < k && !((#[trigger] g[x]).0 is Output) implies {
            &&& m2[x] < es2.len()
            &&& es2[m2[x] as int].0 == expr_map(g[x].0, m2)
        } by {
            assert forall|q: int| 0 <= q < expr_deps(g[x].0).len() implies
                m[#[trigger] expr_deps(g[x].0)[q] as int] == m2[expr_deps(g[x].0)[q] as int] by {
                assert(expr_deps(g[x].0)[q] < x);
            }
            lemma_map_deps_agree(g[x].0, m, m2);
            if x < k - 1 {
                assert(m2[x] == m[x]);
                assert(es2[m[x] as int] == es[m[x] as int]);
            }
        }
    }
}

/// Merging duplicates keeps the output's expression tree: when a graph ends
/// in its output, the merged graph ends in an output that unfolds to the same
/// tree.
pub proof fn lemma_hashcons_keeps_output_tree(g: Seq<(GlslExpr, GlslType)>)
    requires
        reads_backward(g),
        reads_no_output(g),
        g.len() <= u32::MAX,
        g.len() > 0,
        g.last().0 is Output,
    ensures
        hashcons_spec(g).len() > 0,
        same_tree(g, g.len() - 1, hashcons_spec(g), hashcons_spec(g).len() - 1),
{
    let n = g.len();
    lemma_hashcons_build_maps(g, (n - 1) as nat);
    let (es, m) = hashcons_build(g, (n - 1) as nat);
    let fin = hashcons_spec(g);
    assert(g[n - 1] == g.last());
    assert(fin == es.push((expr_map(g[n - 1].0, m), g[n - 1].1)));
    let p = Seq::new(n, |x: int| !(g[x].0 is Output));
    assert forall|x: int| 0 <= x < n && #[trigger] p[x] implies {
        &&& m[x] < fin.len()
        &&& fin[m[x] as int].0 == expr_map(g[x].0, m)
        &&& forall|k: int| 0 <= k < expr_deps(g[x].0).len() ==> p[#[trigger] expr_deps(g[x].0)[k] as int]
    } by {
        assert(x < n - 1);
        assert(!(g[x].0 is Output));
        assert(fin[m[x] as int] == es[m[x] as int]);
        assert forall|k: int| 0 <= k < expr_deps(g[x].0).len() implies p[#[trigger] expr_deps(g[x].0)[k] as int] by {
            assert(expr_deps(g[x].0)[k] < x);
        }
    }
    assert(maps_exprs(g, fin, m, p));
    assert forall|k: int| 0 <= k < expr_deps(g[n - 1].0).len() implies p[#[trigger] expr_deps(g[n - 1].0)[k] as int] by {
        assert(expr_deps(g[n - 1].0)[k] < n - 1);
    }
    lemma_tree_at(g, fin, m, p, n - 1, es.len() as int);
}

/// Lowering keeps the operands of an operation, in order: an operation that
/// needs no helper expressions becomes one expression reading the lowering of
/// each of its operands in the order the operation names them, and a texture
/// sample reads its coordinates in order.
pub proof fn lemma_lowering_keeps_operands(op: ShaderOp, m: Seq<u32>, n: nat)
    ensures
        !needs_helpers(op) ==> single_plan(op, m, n).0.len() == 0,
        !needs_helpers(op) ==> expr_deps(single_plan(op, m, n).1)
            == crate::shader::op_inputs(op).map_values(|p: (u32, crate::shader::ShaderOpType)| m[p.0 as int]),
        op matches ShaderOp::TexSample(_, x, y, _, _) ==> expr_deps(single_plan(op, m, n).0[0].0) == seq![m[x as int], m[y as int]],
{
    let ins = crate::shader::op_inputs(op);
    let want = ins.map_values(|p: (u32, crate::shader::ShaderOpType)| m[p.0 as int]);
    if !needs_helpers(op) {
        assert(expr_deps(single_plan(op, m, n).1) =~= want);
    }
}

/// Each shader operation lowers to the GLSL operation of the same meaning:
/// sums to `+`, differences to `-`, products to `*`, quotients to `/`,
/// remainders to `%` or `mod`, minimum to `min`, maximum to `max`,
/// comparisons to the comparison of the same sense, a boolean exclusive or to
/// `!=`, and interpolation to `mix` of the two ends by the factor.
pub proof fn lemma_lowering_meaning(op: ShaderOp, m: Seq<u32>, n: nat)
    ensures
        (op is FAdd || op is IAdd) ==> single_plan(op, m, n).1 is Add,
        (op is FSub || op is ISub) ==> single_plan(op, m, n).1 is Sub,
        (op is FMul || op is IMul) ==> single_plan(op, m, n).1 is Mul,
        (op is FDiv || op is IDiv) ==> single_plan(op, m, n).1 is Div,
        (op is FMin || op is IMin) ==> single_plan(op, m, n).1 is Min,
        (op is FMax || op is IMax) ==> single_plan(op, m, n).1 is Max,
        op is FMod ==> single_plan(op, m, n).1 is FRem,
        op is IMod ==> single_plan(op, m, n).1 is IRem,
        op is Atan2 ==> single_plan(op, m, n).1 is Atan2,
        op is Pow ==> single_plan(op, m, n).1 is Pow,
        (op is FNeg || op is INeg) ==> single_plan(op, m, n).1 is Neg,
        (op is FAbs || op is IAbs) ==> single_plan(op, m, n).1 is Abs,
        (op is FSign || op is ISign) ==> single_plan(op, m, n).1 is Sign,
        op is Sin ==> single_plan(op, m, n).1 is Sin,
        op is Cos ==> single_plan(op, m, n).1 is Cos,
        op is Tan ==> single_plan(op, m, n).1 is Tan,
        op is Asin ==> single_plan(op, m, n).1 is Asin,
        op is Acos ==> single_plan(op, m, n).1 is Acos,
        op is Atan ==> single_plan(op, m, n).1 is Atan,
        op is Sqrt ==> single_plan(op, m, n).1 is Sqrt,
        op is Ln ==> single_plan(op, m, n).1 is Log,
        op is Exp ==> single_plan(op, m, n).1 is Exp,
        op is Floor ==> single_plan(op, m, n).1 is Floor,
        op is DerivX ==> single_plan(op, m, n).1 is DerivX,
        op is DerivY ==> single_plan(op, m, n).1 is DerivY,
        op is IOr ==> single_plan(op, m, n).1 is IOr,
        op is IAnd ==> single_plan(op, m, n).1 is IAnd,
        op is IXor ==> single_plan(op, m, n).1 is IXor,
        op is IShl ==> single_plan(op, m, n).1 is IShl,
        op is IShr ==> single_plan(op, m, n).1 is IShr,
        op is INot ==> single_plan(op, m, n).1 is INot,
        op is BOr ==> single_plan(op, m, n).1 is BOr,
        op is BAnd ==> single_plan(op, m, n).1 is BAnd,
        op is BXor ==> single_plan(op, m, n).1 is Ne,
        op is BNot ==> single_plan(op, m, n).1 is BNot,
        (op is IEq || op is FEq) ==> single_plan(op, m, n).1 is Eq,
        (op is INe || op is FNe) ==> single_plan(op, m, n).1 is Ne,
        (op is ILt || op is FLt) ==> single_plan(op, m, n).1 is Lt,
        (op is ILe || op is FLe) ==> single_plan(op, m, n).1 is Le,
        (op is IGt || op is FGt) ==> single_plan(op, m, n).1 is Gt,
        (op is IGe || op is FGe) ==> single_plan(op, m, n).1 is Ge,
        (op is FSelect || op is ISelect || op is BSelect) ==> single_plan(op, m, n).1 is Select,
        op is FCastInt32 ==> single_plan(op, m, n).1 is AsFloat,
        op is ICastFloat ==> single_plan(op, m, n).1 is AsInt,
        op matches ShaderOp::Lerp(t, a, b) ==> single_plan(op, m, n).1 == GlslExpr::Mix(m[a as int], m[b as int], m[t as int]),
        op matches ShaderOp::FLit(v) ==> single_plan(op, m, n).1 == GlslExpr::LitFloat(v),
        op matches ShaderOp::ILit(v) ==> single_plan(op, m, n).1 == GlslExpr::LitInt(v),
        op matches ShaderOp::BLit(v) ==> single_plan(op, m, n).1 == GlslExpr::LitBool(v),
{
}

/// Operations that read the pixel, the frame, the quad or a texture take the
/// matching component of the matching GLSL value: x of the position or
/// resolution is its first component and y its second; the quad's left, top,
/// right and bottom edges are its four components in that order; a texture
/// sample's red, green, blue and alpha are components 0 to 3 of the sampled
/// color; a float read at byte offset `o` is component `o % 4` of data word
/// `o / 4`.
#[verifier::rlimit(60)]
pub proof fn lemma_lowering_reads(op: ShaderOp, m: Seq<u32>, n: nat)
    ensures
        ({
            let (helpers, e) = single_plan(op, m, n);
            let i = n as u32;
            &&& op is PosX ==> helpers == seq![(GlslExpr::Position, GlslType::Float2)] && e == GlslExpr::Swizzle1(i, 0)
            &&& op is PosY ==> helpers == seq![(GlslExpr::Position, GlslType::Float2)] && e == GlslExpr::Swizzle1(i, 1)
            &&& op is ResX ==> helpers == seq![(GlslExpr::Resolution, GlslType::Float2)] && e == GlslExpr::Swizzle1(i, 0)
            &&& op is ResY ==> helpers == seq![(GlslExpr::Resolution, GlslType::Float2)] && e == GlslExpr::Swizzle1(i, 1)
            &&& op is QuadL ==> helpers == seq![(GlslExpr::QuadBounds, GlslType::Float4)] && e == GlslExpr::Swizzle1(i, 0)
            &&& op is QuadT ==> helpers == seq![(GlslExpr::QuadBounds, GlslType::Float4)] && e == GlslExpr::Swizzle1(i, 1)
            &&& op is QuadR ==> helpers == seq![(GlslExpr::QuadBounds, GlslType::Float4)] && e == GlslExpr::Swizzle1(i, 2)
            &&& op is QuadB ==> helpers == seq![(GlslExpr::QuadBounds, GlslType::Float4)] && e == GlslExpr::Swizzle1(i, 3)
            &&& op matches ShaderOp::TexW(t) ==> helpers == seq![(GlslExpr::TextureSize(t), GlslType::Int2)] && e == GlslExpr::Swizzle1(i, 0)
            &&& op matches ShaderOp::TexH(t) ==> helpers == seq![(GlslExpr::TextureSize(t), GlslType::Int2)] && e == GlslExpr::Swizzle1(i, 1)
            &&& op matches ShaderOp::TexSample(t, x, y, f, TextureChannel::Red) ==> helpers[0].0 == GlslExpr::TextureSample(t, f, m[x as int], m[y as int]) && e == GlslExpr::Swizzle1(i, 0)
            &&& op matches ShaderOp::TexSample(t, x, y, f, TextureChannel::Green) ==> e == GlslExpr::Swizzle1(i, 1)
            &&& op matches ShaderOp::TexSample(t, x, y, f, TextureChannel::Blue) ==> e == GlslExpr::Swizzle1(i, 2)
            &&& op matches ShaderOp::TexSample(t, x, y, f, TextureChannel::Alpha) ==> e == GlslExpr::Swizzle1(i, 3)
            &&& op matches ShaderOp::ReadF32(o) ==> helpers == seq![(GlslExpr::DataFloat(o / 4), GlslType::Float4)]
                && e == GlslExpr::Swizzle1(i, (o % 4) as u8)
            &&& op matches ShaderOp::ReadI32(o) ==> helpers == seq![(GlslExpr::DataInt(o / 4), GlslType::Int4)]
                && e == GlslExpr::Swizzle1(i, (o % 4) as u8)
        }),
{
    match op {
        ShaderOp::TexSample(t, x, y, f, c) => {
            assert(single_plan(op, m, n).1 == GlslExpr::Swizzle1(n as u32, channel_index(c)));
        },
        _ => {},
    }
}

} // verus!
