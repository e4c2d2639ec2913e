//! A shader graph in which each operation is typed as it is resolved and
//! classified by how often its value can change (per frame, per object,
//! per pixel).

use vstd::prelude::*;
use core::ops::BitAnd;
use vstd::std_specs::ops::BitAndSpecImpl;

verus! {

/// A value read from the per-object data.
#[derive(Clone, Copy, Debug, Hash, PartialEq, Eq, Structural)]
pub enum OpInput {
    TextureStatic,
    TextureRender,
    F32,
    I32,
    I16,
    I8,
    U32,
    U16,
    U8,
}

/// The type of an operation's value.
#[derive(Clone, Copy, Debug, Hash, PartialEq, Eq, Structural)]
pub enum OpType {
    F1,
    F2,
    F3,
    F4,
    I1,
    I2,
    I3,
    I4,
    Boolean,
    TextureStatic,
    TextureRender,
    Void,
}

/// How often the value of an operation can change.
#[derive(Clone, Copy, Debug, Hash, PartialEq, Eq, Structural)]
pub enum OpDynamic {
    Const,
    PerFrame,
    PerObject,
    PerPixel,
}

/// The index of an operation in a graph.
#[derive(Clone, Copy, Debug, Hash, PartialEq, Eq, Structural)]
pub struct OpAddr(pub u32);

/// A vector component.
#[derive(Clone, Copy, Debug, Hash, PartialEq, Eq, Structural)]
pub enum Swizzle {
    X,
    Y,
    Z,
    W,
}

/// The bit pattern of a 32-bit float literal.
#[derive(Debug, Clone, Copy, Hash, PartialEq, Eq, Structural)]
pub struct Float(pub u32);

/// A single operation of the graph.
#[derive(Clone, Copy, Debug, Hash, PartialEq, Eq)]
pub enum Op {
    Position,
    Resolution,
    QuadStart,
    QuadEnd,
    Input(OpInput),
    Output(OpAddr),
    LiteralFloat(Float),
    LiteralInt(i32),
    LiteralBool(bool),
    Add(OpAddr, OpAddr),
    Sub(OpAddr, OpAddr),
    Mul(OpAddr, OpAddr),
    Div(OpAddr, OpAddr),
    Rem(OpAddr, OpAddr),
    Dot(OpAddr, OpAddr),
    Cross(OpAddr, OpAddr),
    Neg(OpAddr),
    Sin(OpAddr),
    Cos(OpAddr),
    Tan(OpAddr),
    Asin(OpAddr),
    Acos(OpAddr),
    Atan(OpAddr),
    Atan2(OpAddr, OpAddr),
    Sqrt(OpAddr),
    Pow(OpAddr, OpAddr),
    Exp(OpAddr),
    Ln(OpAddr),
    Min(OpAddr, OpAddr),
    Max(OpAddr, OpAddr),
    Clamp(OpAddr, OpAddr, OpAddr),
    Abs(OpAddr),
    Sign(OpAddr),
    Floor(OpAddr),
    Lerp(OpAddr, OpAddr, OpAddr),
    Select(OpAddr, OpAddr, OpAddr),
    Smoothstep(OpAddr, OpAddr, OpAddr),
    Step(OpAddr, OpAddr),
    Eq(OpAddr, OpAddr),
    Ne(OpAddr, OpAddr),
    Lt(OpAddr, OpAddr),
    Le(OpAddr, OpAddr),
    Gt(OpAddr, OpAddr),
    Ge(OpAddr, OpAddr),
    And(OpAddr, OpAddr),
    Or(OpAddr, OpAddr),
    Xor(OpAddr, OpAddr),
    Not(OpAddr),
    Vec2(OpAddr, OpAddr),
    Vec3(OpAddr, OpAddr, OpAddr),
    Vec4(OpAddr, OpAddr, OpAddr, OpAddr),
    Splat2(OpAddr),
    Splat3(OpAddr),
    Splat4(OpAddr),
    CastFloat(OpAddr),
    CastInt(OpAddr),
    Swizzle1(OpAddr, [Swizzle; 1]),
    Swizzle2(OpAddr, [Swizzle; 2]),
    Swizzle3(OpAddr, [Swizzle; 3]),
    Swizzle4(OpAddr, [Swizzle; 4]),
    Length(OpAddr),
    Normalize(OpAddr),
    DerivX(OpAddr),
    DerivY(OpAddr),
    DerivWidth(OpAddr),
    TextureLinear(OpAddr, OpAddr),
    TextureNearest(OpAddr, OpAddr),
    TextureSize(OpAddr),
}

/// The resolved description of one operation of a graph.
#[derive(Debug)]
pub struct OpInfo {
    pub addr: OpAddr,
    pub value: Op,
    pub ty: OpType,
    pub dynamic: OpDynamic,
    pub dependencies: Vec<OpAddr>,
    pub dependents: Vec<OpAddr>,
}

/// The type and the variability of an operation.
pub struct OpSig {
    pub ty: OpType,
    pub dynamic: OpDynamic,
}

pub open spec fn dynamic_rank(d: OpDynamic) -> nat {
    match d {
        OpDynamic::Const => 0,
        OpDynamic::PerFrame => 1,
        OpDynamic::PerObject => 2,
        OpDynamic::PerPixel => 3,
    }
}

/// The variability of a value computed from two others: the more often
/// changing of the two.
pub open spec fn dynamic_join(a: OpDynamic, b: OpDynamic) -> OpDynamic {
    if dynamic_rank(a) >= dynamic_rank(b) { a } else { b }
}

impl BitAnd for OpDynamic {
    type Output = Self;

    fn bitand(self, rhs: Self) -> (r: Self)
        ensures
            r == dynamic_join(self, rhs),
    {
        match (self, rhs) {
            (OpDynamic::PerPixel, _) | (_, OpDynamic::PerPixel) => OpDynamic::PerPixel,
            (OpDynamic::PerObject, _) | (_, OpDynamic::PerObject) => OpDynamic::PerObject,
            (OpDynamic::PerFrame, _) | (_, OpDynamic::PerFrame) => OpDynamic::PerFrame,
            _ => OpDynamic::Const,
        }
    }
}

impl BitAndSpecImpl for OpDynamic {
    open spec fn obeys_bitand_spec() -> bool {
        true
    }

    open spec fn bitand_req(self, rhs: Self) -> bool {
        true
    }

    open spec fn bitand_spec(self, rhs: Self) -> Self {
        dynamic_join(self, rhs)
    }
}

pub open spec fn ty_numeric(t: OpType) -> bool {
    match t {
        OpType::F1 | OpType::F2 | OpType::F3 | OpType::F4 | OpType::I1 | OpType::I2
        | OpType::I3 | OpType::I4 => true,
        _ => false,
    }
}

pub open spec fn ty_float(t: OpType) -> bool {
    match t {
        OpType::F1 | OpType::F2 | OpType::F3 | OpType::F4 => true,
        _ => false,
    }
}

impl OpType {
    /// Whether the type is a float or integer scalar or vector.
    pub fn is_numeric(self) -> (b: bool)
        ensures
            b == ty_numeric(self),
    {
        match self {
            OpType::F1 | OpType::F2 | OpType::F3 | OpType::F4 | OpType::I1 | OpType::I2
            | OpType::I3 | OpType::I4 => true,
            _ => false,
        }
    }
}

/// The operations that `op` reads, in order.
pub open spec fn op_deps(op: Op) -> Seq<OpAddr> {
    match op {
        Op::Position | Op::Resolution | Op::QuadStart | Op::QuadEnd | Op::Input(_)
        | Op::LiteralFloat(_) | Op::LiteralInt(_) | Op::LiteralBool(_) => seq![],
        Op::Output(x) | Op::Neg(x) | Op::Sin(x) | Op::Cos(x) | Op::Tan(x) | Op::Asin(x)
        | Op::Acos(x) | Op::Atan(x) | Op::Sqrt(x) | Op::Exp(x) | Op::Ln(x) | Op::Abs(x)
        | Op::Sign(x) | Op::Floor(x) | Op::Not(x) | Op::Splat2(x) | Op::Splat3(x)
        | Op::Splat4(x) | Op::CastFloat(x) | Op::CastInt(x) | Op::Swizzle1(x, _)
        | Op::Swizzle2(x, _) | Op::Swizzle3(x, _) | Op::Swizzle4(x, _) | Op::Length(x)
        | Op::Normalize(x) | Op::DerivX(x) | Op::DerivY(x) | Op::DerivWidth(x)
        | Op::TextureSize(x) => seq![x],
        Op::Add(x, y) | Op::Sub(x, y) | Op::Mul(x, y) | Op::Div(x, y) | Op::Rem(x, y)
        | Op::Dot(x, y) | Op::Cross(x, y) | Op::Atan2(x, y) | Op::Pow(x, y) | Op::Min(x, y)
        | Op::Max(x, y) | Op::Step(x, y) | Op::Eq(x, y) | Op::Ne(x, y) | Op::Lt(x, y)
        | Op::Le(x, y) | Op::Gt(x, y) | Op::Ge(x, y) | Op::And(x, y) | Op::Or(x, y)
        | Op::Xor(x, y) | Op::Vec2(x, y) | Op::TextureLinear(x, y) | Op::TextureNearest(x, y) => seq![x, y],
        Op::Clamp(x, y, z) | Op::Lerp(x, y, z) | Op::Select(x, y, z) | Op::Smoothstep(x, y, z)
        | Op::Vec3(x, y, z) => seq![x, y, z],
        Op::Vec4(x, y, z, w) => seq![x, y, z, w],
    }
}

/// The signature of the operation at `a`, if there is one.
pub open spec fn sig_at(env: Seq<OpSig>, a: OpAddr) -> Option<OpSig> {
    if a.0 < env.len() { Some(env[a.0 as int]) } else { None }
}

pub open spec fn leaf(ty: OpType, dynamic: OpDynamic) -> Option<OpSig> {
    Some(OpSig { ty, dynamic })
}

/// The scalar type that builds a vector of `n` components, and that vector.
pub open spec fn vector_of(t: OpType, n: nat) -> Option<OpType> {
    match t {
        OpType::F1 => if n == 2 { Some(OpType::F2) } else if n == 3 { Some(OpType::F3) } else { Some(OpType::F4) },
        OpType::I1 => if n == 2 { Some(OpType::I2) } else if n == 3 { Some(OpType::I3) } else { Some(OpType::I4) },
        _ => None,
    }
}

/// The type an integer vector takes when converted to floats, and back.
pub open spec fn cast_float_of(t: OpType) -> Option<OpType> {
    match t {
        OpType::I1 => Some(OpType::F1),
        OpType::I2 => Some(OpType::F2),
        OpType::I3 => Some(OpType::F3),
        OpType::I4 => Some(OpType::F4),
        _ => None,
    }
}

pub open spec fn cast_int_of(t: OpType) -> Option<OpType> {
    match t {
        OpType::F1 => Some(OpType::I1),
        OpType::F2 => Some(OpType::I2),
        OpType::F3 => Some(OpType::I3),
        OpType::F4 => Some(OpType::I4),
        _ => None,
    }
}

/// The type that selecting `n` components from a vector of type `t` gives.
pub open spec fn swizzle_of(t: OpType, n: nat) -> Option<OpType> {
    match t {
        OpType::F1 | OpType::F2 | OpType::F3 | OpType::F4 => {
            if vec_len(t) < n { None } else if n == 1 { Some(OpType::F1) } else if n == 2 { Some(OpType::F2) }
            else if n == 3 { Some(OpType::F3) } else { Some(OpType::F4) }
        },
        OpType::I1 | OpType::I2 | OpType::I3 | OpType::I4 => {
            if vec_len(t) < n { None } else if n == 1 { Some(OpType::I1) } else if n == 2 { Some(OpType::I2) }
            else if n == 3 { Some(OpType::I3) } else { Some(OpType::I4) }
        },
        _ => None,
    }
}

pub open spec fn vec_len(t: OpType) -> nat {
    match t {
        OpType::F2 | OpType::I2 => 2,
        OpType::F3 | OpType::I3 => 3,
        OpType::F4 | OpType::I4 => 4,
        _ => 1,
    }
}

pub open spec fn d2(a: OpSig, b: OpSig) -> OpDynamic {
    dynamic_join(a.dynamic, b.dynamic)
}

pub open spec fn d3(a: OpSig, b: OpSig, c: OpSig) -> OpDynamic {
    dynamic_join(dynamic_join(a.dynamic, b.dynamic), c.dynamic)
}

/// The typing rule for an operation of one argument.
pub open spec fn sig1(op: Op, a: OpSig) -> Option<OpSig> {
    match op {
        Op::Output(_) => if a.ty == OpType::F4 { leaf(OpType::Void, a.dynamic) } else { None },
        Op::Sin(_) | Op::Cos(_) | Op::Tan(_) | Op::Asin(_) | Op::Acos(_) | Op::Atan(_)
        | Op::Sqrt(_) | Op::Exp(_) | Op::Ln(_) | Op::Floor(_) | Op::DerivX(_) | Op::DerivY(_)
        | Op::DerivWidth(_) | Op::Normalize(_) => if ty_float(a.ty) { leaf(a.ty, a.dynamic) } else { None },
        Op::Neg(_) | Op::Abs(_) | Op::Sign(_) => if ty_numeric(a.ty) { leaf(a.ty, a.dynamic) } else { None },
        Op::Not(_) => if a.ty == OpType::Boolean { leaf(a.ty, a.dynamic) } else { None },
        Op::CastFloat(_) => match cast_float_of(a.ty) { Some(t) => leaf(t, a.dynamic), None => None },
        Op::CastInt(_) => match cast_int_of(a.ty) { Some(t) => leaf(t, a.dynamic), None => None },
        Op::Splat2(_) => match vector_of(a.ty, 2) { Some(t) => leaf(t, a.dynamic), None => None },
        Op::Splat3(_) => match vector_of(a.ty, 3) { Some(t) => leaf(t, a.dynamic), None => None },
        Op::Splat4(_) => match vector_of(a.ty, 4) { Some(t) => leaf(t, a.dynamic), None => None },
        Op::Swizzle1(_, _) => match swizzle_of(a.ty, 1) { Some(t) => leaf(t, a.dynamic), None => None },
        Op::Swizzle2(_, _) => match swizzle_of(a.ty, 2) { Some(t) => leaf(t, a.dynamic), None => None },
        Op::Swizzle3(_, _) => match swizzle_of(a.ty, 3) { Some(t) => leaf(t, a.dynamic), None => None },
        Op::Swizzle4(_, _) => match swizzle_of(a.ty, 4) { Some(t) => leaf(t, a.dynamic), None => None },
        Op::Length(_) => if ty_float(a.ty) { leaf(OpType::F1, a.dynamic) } else { None },
        Op::TextureSize(_) => if a.ty == OpType::TextureRender || a.ty == OpType::TextureStatic {
            leaf(OpType::I2, OpDynamic::PerFrame)
        } else { None },
        _ => None,
    }
}

/// The typing rule for an operation of two arguments.
pub open spec fn sig2(op: Op, a: OpSig, b: OpSig) -> Option<OpSig> {
    match op {
        Op::Add(_, _) | Op::Sub(_, _) | Op::Mul(_, _) | Op::Div(_, _) | Op::Rem(_, _)
        | Op::Min(_, _) | Op::Max(_, _) | Op::Step(_, _) =>
            if a.ty == b.ty && ty_numeric(a.ty) { leaf(a.ty, d2(a, b)) } else { None },
        Op::Atan2(_, _) | Op::Pow(_, _) =>
            if a.ty == b.ty && ty_float(a.ty) { leaf(a.ty, d2(a, b)) } else { None },
        Op::Dot(_, _) =>
            if a.ty == b.ty && (a.ty == OpType::F2 || a.ty == OpType::F3 || a.ty == OpType::F4) {
                leaf(OpType::F1, d2(a, b))
            } else { None },
        Op::Cross(_, _) => if a.ty == b.ty && a.ty == OpType::F3 { leaf(OpType::F3, d2(a, b)) } else { None },
        Op::Eq(_, _) | Op::Ne(_, _) | Op::Lt(_, _) | Op::Le(_, _) | Op::Gt(_, _) | Op::Ge(_, _) =>
            if a.ty == b.ty && (a.ty == OpType::Boolean || a.ty == OpType::I1 || a.ty == OpType::F1) {
                leaf(OpType::Boolean, d2(a, b))
            } else { None },
        Op::And(_, _) | Op::Or(_, _) | Op::Xor(_, _) =>
            if a.ty == b.ty && (a.ty == OpType::Boolean || a.ty == OpType::I1 || a.ty == OpType::I2
                || a.ty == OpType::I3 || a.ty == OpType::I4) {
                leaf(a.ty, d2(a, b))
            } else { None },
        Op::Vec2(_, _) => match vector_of(a.ty, 2) {
            Some(t) => if a.ty == b.ty { leaf(t, d2(a, b)) } else { None },
            None => None,
        },
        Op::TextureLinear(_, _) | Op::TextureNearest(_, _) =>
            if (a.ty == OpType::TextureRender || a.ty == OpType::TextureStatic)
                && (b.ty == OpType::F2 || b.ty == OpType::I2) {
                leaf(OpType::F4, dynamic_join(b.dynamic, OpDynamic::PerFrame))
            } else { None },
        _ => None,
    }
}

/// The typing rule for an operation of three arguments.
pub open spec fn sig3(op: Op, a: OpSig, b: OpSig, c: OpSig) -> Option<OpSig> {
    match op {
        Op::Clamp(_, _, _) =>
            if a.ty == b.ty && a.ty == c.ty && ty_numeric(a.ty) { leaf(a.ty, d3(a, b, c)) } else { None },
        Op::Lerp(_, _, _) => if a.ty == b.ty && b.ty == c.ty { leaf(a.ty, d3(a, b, c)) } else { None },
        Op::Select(_, _, _) =>
            if a.ty == OpType::Boolean && b.ty == c.ty { leaf(b.ty, d3(a, b, c)) } else { None },
        Op::Smoothstep(_, _, _) =>
            if a.ty == b.ty && a.ty == c.ty && ty_float(a.ty) { leaf(a.ty, d3(a, b, c)) } else { None },
        Op::Vec3(_, _, _) => match vector_of(a.ty, 3) {
            Some(t) => if a.ty == b.ty && a.ty == c.ty { leaf(t, d3(a, b, c)) } else { None },
            None => None,
        },
        _ => None,
    }
}

/// The type and variability of `op` where `env` holds those of the operations
/// before it; `None` where the operation does not type check.
pub open spec fn op_sig(op: Op, env: Seq<OpSig>) -> Option<OpSig> {
    match op {
        Op::Position => leaf(OpType::F2, OpDynamic::PerPixel),
        Op::QuadStart | Op::QuadEnd => leaf(OpType::F2, OpDynamic::PerObject),
        Op::Resolution => leaf(OpType::F2, OpDynamic::PerFrame),
        Op::Input(OpInput::F32) => leaf(OpType::F1, OpDynamic::PerObject),
        Op::Input(OpInput::TextureStatic) => leaf(OpType::TextureStatic, OpDynamic::PerObject),
        Op::Input(OpInput::TextureRender) => leaf(OpType::TextureRender, OpDynamic::PerObject),
        Op::Input(_) => leaf(OpType::I1, OpDynamic::PerObject),
        Op::LiteralFloat(_) => leaf(OpType::F1, OpDynamic::Const),
        Op::LiteralInt(_) => leaf(OpType::I1, OpDynamic::Const),
        Op::LiteralBool(_) => leaf(OpType::Boolean, OpDynamic::Const),
        Op::Vec4(x, y, z, w) => match (sig_at(env, x), sig_at(env, y), sig_at(env, z), sig_at(env, w)) {
            (Some(a), Some(b), Some(c), Some(d)) => match vector_of(a.ty, 4) {
                Some(t) => if a.ty == b.ty && a.ty == c.ty && a.ty == d.ty {
                    leaf(t, dynamic_join(d3(a, b, c), d.dynamic))
                } else { None },
                None => None,
            },
            _ => None,
        },
        _ => {
            let deps = op_deps(op);
            if deps.len() == 1 {
                match sig_at(env, deps[0]) {
                    Some(a) => sig1(op, a),
                    None => None,
                }
            } else if deps.len() == 2 {
                match (sig_at(env, deps[0]), sig_at(env, deps[1])) {
                    (Some(a), Some(b)) => sig2(op, a, b),
                    _ => None,
                }
            } else {
                match (sig_at(env, deps[0]), sig_at(env, deps[1]), sig_at(env, deps[2])) {
                    (Some(a), Some(b), Some(c)) => sig3(op, a, b, c),
                    _ => None,
                }
            }
        },
    }
}

/// The signatures recorded in a list of resolved operations.
pub open spec fn info_sigs(infos: Seq<OpInfo>) -> Seq<OpSig> {
    infos.map_values(|i: OpInfo| OpSig { ty: i.ty, dynamic: i.dynamic })
}

fn is_float_exec(t: OpType) -> (b: bool)
    ensures
        b == ty_float(t),
{
    match t {
        OpType::F1 | OpType::F2 | OpType::F3 | OpType::F4 => true,
        _ => false,
    }
}

fn vector_of_exec(t: OpType, n: u8) -> (r: Option<OpType>)
    requires
        2 <= n <= 4,
    ensures
        r == vector_of(t, n as nat),
{
    match t {
        OpType::F1 => Some(if n == 2 { OpType::F2 } else if n == 3 { OpType::F3 } else { OpType::F4 }),
        OpType::I1 => Some(if n == 2 { OpType::I2 } else if n == 3 { OpType::I3 } else { OpType::I4 }),
        _ => None,
    }
}

fn vec_len_exec(t: OpType) -> (n: u8)
    ensures
        n == vec_len(t),
{
    match t {
        OpType::F2 | OpType::I2 => 2,
        OpType::F3 | OpType::I3 => 3,
        OpType::F4 | OpType::I4 => 4,
        _ => 1,
    }
}

fn swizzle_of_exec(t: OpType, n: u8) -> (r: Option<OpType>)
    requires
        1 <= n <= 4,
    ensures
        r == swizzle_of(t, n as nat),
{
    let float = is_float_exec(t);
    let integer = match t {
        OpType::I1 | OpType::I2 | OpType::I3 | OpType::I4 => true,
        _ => false,
    };
    if !float && !integer {
        return None;
    }
    if vec_len_exec(t) < n {
        return None;
    }
    if float {
        Some(if n == 1 { OpType::F1 } else if n == 2 { OpType::F2 } else if n == 3 { OpType::F3 } else { OpType::F4 })
    } else {
        Some(if n == 1 { OpType::I1 } else if n == 2 { OpType::I2 } else if n == 3 { OpType::I3 } else { OpType::I4 })
    }
}

fn sig1_exec(op: Op, a: &OpInfo) -> (r: (OpType, OpDynamic))
    requires
        sig1(op, OpSig { ty: a.ty, dynamic: a.dynamic }) is Some,
    ensures
        ({
            let s = sig1(op, OpSig { ty: a.ty, dynamic: a.dynamic })->0;
            r == (s.ty, s.dynamic)
        }),
{
    let t = a.ty;
    let d = a.dynamic;
    match op {
        Op::Output(_) => (OpType::Void, d),
        Op::Sin(_) | Op::Cos(_) | Op::Tan(_) | Op::Asin(_) | Op::Acos(_) | Op::Atan(_)
        | Op::Sqrt(_) | Op::Exp(_) | Op::Ln(_) | Op::Floor(_) | Op::DerivX(_) | Op::DerivY(_)
        | Op::DerivWidth(_) | Op::Normalize(_) | Op::Neg(_) | Op::Abs(_) | Op::Sign(_)
        | Op::Not(_) => (t, d),
        Op::CastFloat(_) => (match t {
            OpType::I1 => OpType::F1,
            OpType::I2 => OpType::F2,
            OpType::I3 => OpType::F3,
            _ => OpType::F4,
        }, d),
        Op::CastInt(_) => (match t {
            OpType::F1 => OpType::I1,
            OpType::F2 => OpType::I2,
            OpType::F3 => OpType::I3,
            _ => OpType::I4,
        }, d),
        Op::Splat2(_) => (vector_of_exec(t, 2).unwrap(), d),
        Op::Splat3(_) => (vector_of_exec(t, 3).unwrap(), d),
        Op::Splat4(_) => (vector_of_exec(t, 4).unwrap(), d),
        Op::Swizzle1(_, _) => (swizzle_of_exec(t, 1).unwrap(), d),
        Op::Swizzle2(_, _) => (swizzle_of_exec(t, 2).unwrap(), d),
        Op::Swizzle3(_, _) => (swizzle_of_exec(t, 3).unwrap(), d),
        Op::Swizzle4(_, _) => (swizzle_of_exec(t, 4).unwrap(), d),
        Op::Length(_) => (OpType::F1, d),
        _ => (OpType::I2, OpDynamic::PerFrame),
    }
}

fn sig2_exec(op: Op, a: &OpInfo, b: &OpInfo) -> (r: (OpType, OpDynamic))
    requires
        sig2(op, OpSig { ty: a.ty, dynamic: a.dynamic }, OpSig { ty: b.ty, dynamic: b.dynamic }) is Some,
    ensures
        ({
            let s = sig2(op, OpSig { ty: a.ty, dynamic: a.dynamic }, OpSig { ty: b.ty, dynamic: b.dynamic })->0;
            r == (s.ty, s.dynamic)
        }),
{
    let d = a.dynamic & b.dynamic;
    match op {
        Op::Dot(_, _) => (OpType::F1, d),
        Op::Cross(_, _) => (OpType::F3, d),
        Op::Eq(_, _) | Op::Ne(_, _) | Op::Lt(_, _) | Op::Le(_, _) | Op::Gt(_, _) | Op::Ge(_, _) =>
            (OpType::Boolean, d),
        Op::Vec2(_, _) => (vector_of_exec(a.ty, 2).unwrap(), d),
        Op::TextureLinear(_, _) | Op::TextureNearest(_, _) => (OpType::F4, b.dynamic & OpDynamic::PerFrame),
        _ => (a.ty, d),
    }
}

fn sig3_exec(op: Op, a: &OpInfo, b: &OpInfo, c: &OpInfo) -> (r: (OpType, OpDynamic))
    requires
        sig3(op, OpSig { ty: a.ty, dynamic: a.dynamic }, OpSig { ty: b.ty, dynamic: b.dynamic },
            OpSig { ty: c.ty, dynamic: c.dynamic }) is Some,
    ensures
        ({
            let s = sig3(op, OpSig { ty: a.ty, dynamic: a.dynamic }, OpSig { ty: b.ty, dynamic: b.dynamic },
                OpSig { ty: c.ty, dynamic: c.dynamic })->0;
            r == (s.ty, s.dynamic)
        }),
{
    let d = (a.dynamic & b.dynamic) & c.dynamic;
    match op {
        Op::Select(_, _, _) => (b.ty, d),
        Op::Vec3(_, _, _) => (vector_of_exec(a.ty, 3).unwrap(), d),
        _ => (a.ty, d),
    }
}

fn fits(ops: &[OpInfo], a: OpAddr) -> (b: bool)
    ensures
        b == (a.0 < ops@.len()),
{
    (a.0 as usize) < ops.len()
}

fn leaf_sig(value: Op) -> (r: (OpType, OpDynamic))
    requires
        op_deps(value).len() == 0,
    ensures
        ({
            let s = op_sig(value, Seq::empty())->0;
            op_sig(value, Seq::empty()) is Some && r == (s.ty, s.dynamic)
        }),
{
    match value {
        Op::Position => (OpType::F2, OpDynamic::PerPixel),
        Op::QuadStart | Op::QuadEnd => (OpType::F2, OpDynamic::PerObject),
        Op::Resolution => (OpType::F2, OpDynamic::PerFrame),
        Op::Input(OpInput::F32) => (OpType::F1, OpDynamic::PerObject),
        Op::Input(OpInput::TextureStatic) => (OpType::TextureStatic, OpDynamic::PerObject),
        Op::Input(OpInput::TextureRender) => (OpType::TextureRender, OpDynamic::PerObject),
        Op::Input(_) => (OpType::I1, OpDynamic::PerObject),
        Op::LiteralFloat(_) => (OpType::F1, OpDynamic::Const),
        Op::LiteralInt(_) => (OpType::I1, OpDynamic::Const),
        _ => (OpType::Boolean, OpDynamic::Const),
    }
}

proof fn lemma_leaf_env(value: Op, env: Seq<OpSig>)
    requires
        op_deps(value).len() == 0,
    ensures
        op_sig(value, env) == op_sig(value, Seq::empty()),
{
}

proof fn lemma_sig_unary(value: Op, env: Seq<OpSig>, x: OpAddr)
    requires
        op_deps(value) == seq![x],
    ensures
        op_sig(value, env) == (match sig_at(env, x) {
            Some(a) => sig1(value, a),
            None => None,
        }),
{
}

proof fn lemma_sig_binary(value: Op, env: Seq<OpSig>, x: OpAddr, y: OpAddr)
    requires
        op_deps(value) == seq![x, y],
    ensures
        op_sig(value, env) == (match (sig_at(env, x), sig_at(env, y)) {
            (Some(a), Some(b)) => sig2(value, a, b),
            _ => None,
        }),
{
    let deps = op_deps(value);
    assert(deps.len() == 2);
    assert(deps[0] == x && deps[1] == y);
    assert(value !is Vec4);
}

proof fn lemma_sig_ternary(value: Op, env: Seq<OpSig>, x: OpAddr, y: OpAddr, z: OpAddr)
    requires
        op_deps(value) == seq![x, y, z],
    ensures
        op_sig(value, env) == (match (sig_at(env, x), sig_at(env, y), sig_at(env, z)) {
            (Some(a), Some(b), Some(c)) => sig3(value, a, b, c),
            _ => None,
        }),
{
}

impl Op {
    /// The operations this one reads, in order.
    pub fn dependencies(self) -> (r: Vec<OpAddr>)
        ensures
            r@ == op_deps(self),
    {
        match self {
            Op::Position | Op::Resolution | Op::QuadStart | Op::QuadEnd | Op::Input(_)
            | Op::LiteralFloat(_) | Op::LiteralInt(_) | Op::LiteralBool(_) => vec![],
            Op::Output(x) | Op::Neg(x) | Op::Sin(x) | Op::Cos(x) | Op::Tan(x) | Op::Asin(x)
            | Op::Acos(x) | Op::Atan(x) | Op::Sqrt(x) | Op::Exp(x) | Op::Ln(x) | Op::Abs(x)
            | Op::Sign(x) | Op::Floor(x) | Op::Not(x) | Op::Splat2(x) | Op::Splat3(x)
            | Op::Splat4(x) | Op::CastFloat(x) | Op::CastInt(x) | Op::Swizzle1(x, _)
            | Op::Swizzle2(x, _) | Op::Swizzle3(x, _) | Op::Swizzle4(x, _) | Op::Length(x)
            | Op::Normalize(x) | Op::DerivX(x) | Op::DerivY(x) | Op::DerivWidth(x)
            | Op::TextureSize(x) => vec![x],
            Op::Add(x, y) | Op::Sub(x, y) | Op::Mul(x, y) | Op::Div(x, y) | Op::Rem(x, y)
            | Op::Dot(x, y) | Op::Cross(x, y) | Op::Atan2(x, y) | Op::Pow(x, y) | Op::Min(x, y)
            | Op::Max(x, y) | Op::Step(x, y) | Op::Eq(x, y) | Op::Ne(x, y) | Op::Lt(x, y)
            | Op::Le(x, y) | Op::Gt(x, y) | Op::Ge(x, y) | Op::And(x, y) | Op::Or(x, y)
            | Op::Xor(x, y) | Op::Vec2(x, y) | Op::TextureLinear(x, y) | Op::TextureNearest(x, y) => vec![x, y],
            Op::Clamp(x, y, z) | Op::Lerp(x, y, z) | Op::Select(x, y, z) | Op::Smoothstep(x, y, z)
            | Op::Vec3(x, y, z) => vec![x, y, z],
            Op::Vec4(x, y, z, w) => vec![x, y, z, w],
        }
    }

    /// Resolves the type, variability and dependencies of `value`, an
    /// operation placed at `addr` after the already resolved `ops`.
    ///
    /// An operation that does not type check panics; it is left out here.
    pub fn info(value: Op, addr: OpAddr, ops: &[OpInfo]) -> (r: OpInfo)
        requires
            op_sig(value, info_sigs(ops@)) is Some,
        ensures
            r.addr == addr,
            r.value == value,
            r.ty == op_sig(value, info_sigs(ops@))->0.ty,
            r.dynamic == op_sig(value, info_sigs(ops@))->0.dynamic,
            r.dependencies@ == op_deps(value),
            r.dependents@ == Seq::<OpAddr>::empty(),
    {
        let ghost env = info_sigs(ops@);
        let deps = value.dependencies();
        let n = deps.len();
        let (ty, dynamic) = if n == 0 {
            proof { lemma_leaf_env(value, env); }
            leaf_sig(value)
        } else if n == 1 {
            let x = deps[0];
            proof {
                assert(op_deps(value) =~= seq![x]);
                lemma_sig_unary(value, env, x);
            }
            sig1_exec(value, &ops[x.0 as usize])
        } else if n == 2 {
            let x = deps[0];
            let y = deps[1];
            proof {
                assert(op_deps(value) =~= seq![x, y]);
                lemma_sig_binary(value, env, x, y);
            }
            sig2_exec(value, &ops[x.0 as usize], &ops[y.0 as usize])
        } else if n == 3 {
            let x = deps[0];
            let y = deps[1];
            let z = deps[2];
            proof {
                assert(op_deps(value) =~= seq![x, y, z]);
                lemma_sig_ternary(value, env, x, y, z);
            }
            sig3_exec(value, &ops[x.0 as usize], &ops[y.0 as usize], &ops[z.0 as usize])
        } else {
            let x = deps[0];
            let y = deps[1];
            let z = deps[2];
            let w = deps[3];
            let a = &ops[x.0 as usize];
            let b = &ops[y.0 as usize];
            let c = &ops[z.0 as usize];
            let e = &ops[w.0 as usize];
            let t = vector_of_exec(a.ty, 4).unwrap();
            (t, ((a.dynamic & b.dynamic) & c.dynamic) & e.dynamic)
        };
        OpInfo { addr, value, ty, dynamic, dependencies: deps, dependents: Vec::new() }
    }
}


/// The signatures of the first `n` operations of `ops`, each resolved against
/// those before it; `None` where one of them does not type check.
pub open spec fn resolved_prefix(ops: Seq<Op>, n: nat) -> Option<Seq<OpSig>>
    decreases n,
{
    if n == 0 {
        Some(Seq::empty())
    } else {
        match resolved_prefix(ops, (n - 1) as nat) {
            Some(env) => match op_sig(ops[n - 1], env) {
                Some(s) => Some(env.push(s)),
                None => None,
            },
            None => None,
        }
    }
}

/// Every operation of `ops` type checks against those before it.
pub open spec fn well_typed(ops: Seq<Op>) -> bool {
    resolved_prefix(ops, ops.len()) is Some
}

/// How many times `a` occurs in `s`.
pub open spec fn occurrences(s: Seq<OpAddr>, a: OpAddr) -> nat
    decreases s.len(),
{
    if s.len() == 0 {
        0
    } else {
        occurrences(s.drop_last(), a) + if s.last() == a { 1nat } else { 0nat }
    }
}

/// The addresses of the operations among the first `n` that read operation
/// `i`, in order, each as many times as it reads it.
pub open spec fn dependents_upto(ops: Seq<Op>, i: int, n: nat) -> Seq<OpAddr>
    decreases n,
{
    if n == 0 {
        Seq::empty()
    } else {
        dependents_upto(ops, i, (n - 1) as nat) + Seq::new(
            occurrences(op_deps(ops[n - 1]), OpAddr(i as u32)),
            |_k: int| OpAddr((n - 1) as u32),
        )
    }
}

proof fn lemma_resolved_prefix(ops: Seq<Op>, n: nat, m: nat)
    requires
        m <= n,
        resolved_prefix(ops, n) is Some,
    ensures
        resolved_prefix(ops, m) is Some,
        resolved_prefix(ops, n)->0.len() == n,
        resolved_prefix(ops, n)->0.take(m as int) == resolved_prefix(ops, m)->0,
    decreases n,
{
    if n > 0 {
        if m < n {
            lemma_resolved_prefix(ops, (n - 1) as nat, m);
            let env = resolved_prefix(ops, (n - 1) as nat)->0;
            assert(resolved_prefix(ops, n)->0.take(m as int) =~= env.take(m as int));
        } else {
            lemma_resolved_prefix(ops, (n - 1) as nat, (n - 1) as nat);
            assert(resolved_prefix(ops, n)->0.take(m as int) =~= resolved_prefix(ops, n)->0);
        }
    }
}

proof fn lemma_deps_in_env(value: Op, env: Seq<OpSig>)
    requires
        op_sig(value, env) is Some,
    ensures
        forall|j: int| 0 <= j < op_deps(value).len() ==> (#[trigger] op_deps(value)[j]).0 < env.len(),
{
    let deps = op_deps(value);
    if deps.len() == 1 {
        lemma_sig_unary(value, env, deps[0]);
    } else if deps.len() == 2 {
        lemma_sig_binary(value, env, deps[0], deps[1]);
    } else if deps.len() == 3 {
        lemma_sig_ternary(value, env, deps[0], deps[1], deps[2]);
    }
}

proof fn lemma_occurrences_none(s: Seq<OpAddr>, a: OpAddr)
    requires
        forall|j: int| 0 <= j < s.len() ==> s[j] != a,
    ensures
        occurrences(s, a) == 0,
    decreases s.len(),
{
    if s.len() > 0 {
        lemma_occurrences_none(s.drop_last(), a);
    }
}

/// In a well-typed graph no operation among the first `n <= i` reads operation `i`.
proof fn lemma_no_dependents_before(ops: Seq<Op>, i: int, n: nat)
    requires
        well_typed(ops),
        0 <= i < ops.len(),
        ops.len() <= u32::MAX,
        n <= i,
    ensures
        dependents_upto(ops, i, n) == Seq::<OpAddr>::empty(),
    decreases n,
{
    if n > 0 {
        lemma_no_dependents_before(ops, i, (n - 1) as nat);
        lemma_resolved_prefix(ops, ops.len(), n);
        lemma_resolved_prefix(ops, n, (n - 1) as nat);
        let env = resolved_prefix(ops, (n - 1) as nat)->0;
        lemma_deps_in_env(ops[n - 1], env);
        let deps = op_deps(ops[n - 1]);
        assert forall|j: int| 0 <= j < deps.len() implies deps[j] != OpAddr(i as u32) by {
            assert(deps[j].0 < n - 1);
        }
        lemma_occurrences_none(deps, OpAddr(i as u32));
        assert(dependents_upto(ops, i, n) =~= Seq::<OpAddr>::empty());
    }
}

/// A list of operations, each of which may read those before it.
pub struct Graph {
    ops: Vec<Op>,
}

impl View for Graph {
    type V = Seq<Op>;

    closed spec fn view(&self) -> Seq<Op> {
        self.ops@
    }
}

impl Graph {
    /// A graph with no operations.
    pub fn empty() -> (g: Self)
        ensures
            g@ == Seq::<Op>::empty(),
    {
        Graph { ops: Vec::new() }
    }

    /// Appends `value` and returns its address.
    pub fn push(&mut self, value: Op) -> (a: OpAddr)
        requires
            old(self)@.len() < u32::MAX,
        ensures
            final(self)@ == old(self)@.push(value),
            a.0 == old(self)@.len(),
    {
        self.ops.push(value);
        OpAddr((self.ops.len() - 1) as u32)
    }

    /// The operations with their addresses, in order.
    pub fn iter(&self) -> (r: Vec<(OpAddr, Op)>)
        requires
            self@.len() <= u32::MAX,
        ensures
            r@.len() == self@.len(),
            forall|i: int| 0 <= i < r@.len() ==> #[trigger] r@[i] == (OpAddr(i as u32), self@[i]),
    {
        let mut r: Vec<(OpAddr, Op)> = Vec::new();
        let mut i: usize = 0;
        while i < self.ops.len()
            invariant
                i <= self.ops@.len() <= u32::MAX,
                r@.len() == i,
                forall|k: int| 0 <= k < i ==> #[trigger] r@[k] == (OpAddr(k as u32), self.ops@[k]),
            decreases self.ops@.len() - i,
        {
            r.push((OpAddr(i as u32), self.ops[i]));
            i += 1;
        }
        r
    }

    /// Resolves every operation in order: its type, its variability, what it
    /// reads and what reads it.
    ///
    /// An operation that does not type check panics; such graphs are left out.
    pub fn resolve(&self) -> (r: Vec<OpInfo>)
        requires
            well_typed(self@),
            self@.len() <= u32::MAX,
        ensures
            r@.len() == self@.len(),
            forall|i: int| 0 <= i < r@.len() ==> {
                let info = #[trigger] r@[i];
                let s = resolved_prefix(self@, self@.len())->0[i];
                &&& info.addr == OpAddr(i as u32)
                &&& info.value == self@[i]
                &&& info.ty == s.ty
                &&& info.dynamic == s.dynamic
                &&& info.dependencies@ == op_deps(self@[i])
                &&& info.dependents@ == dependents_upto(self@, i, self@.len())
            },
    {
        let ghost ops = self@;
        let ghost all = resolved_prefix(ops, ops.len())->0;
        proof { lemma_resolved_prefix(ops, ops.len(), ops.len()); }
        let mut infos: Vec<OpInfo> = Vec::new();
        let mut idx: usize = 0;
        while idx < self.ops.len()
            invariant
                ops == self@,
                ops == self.ops@,
                ops.len() <= u32::MAX,
                idx <= ops.len(),
                well_typed(ops),
                all == resolved_prefix(ops, ops.len())->0,
                all.len() == ops.len(),
                infos@.len() == idx,
                info_sigs(infos@) == all.take(idx as int),
                forall|k: int| 0 <= k < idx ==> {
                    let info = #[trigger] infos@[k];
                    &&& info.addr == OpAddr(k as u32)
                    &&& info.value == ops[k]
                    &&& info.ty == all[k].ty
                    &&& info.dynamic == all[k].dynamic
                    &&& info.dependencies@ == op_deps(ops[k])
                    &&& info.dependents@ == dependents_upto(ops, k, idx as nat)
                },
            decreases ops.len() - idx,
        {
            let addr = OpAddr(idx as u32);
            let value = self.ops[idx];
            proof {
                lemma_resolved_prefix(ops, ops.len(), idx as nat);
                lemma_resolved_prefix(ops, ops.len(), (idx + 1) as nat);
                lemma_resolved_prefix(ops, (idx + 1) as nat, idx as nat);
                assert(all.take(idx as int) == resolved_prefix(ops, idx as nat)->0);
            }
            let info = Op::info(value, addr, infos.as_slice());
            proof {
                let env = resolved_prefix(ops, idx as nat)->0;
                assert(all.take(idx as int + 1) == env.push(op_sig(value, env)->0));
                assert(all[idx as int] == all.take(idx as int + 1)[idx as int]);
                lemma_deps_in_env(value, all.take(idx as int));
                lemma_no_dependents_before(ops, idx as int, idx as nat);
                let own = op_deps(value);
                assert forall|j: int| 0 <= j < own.len() implies own[j] != OpAddr(idx as u32) by {
                    assert(own[j].0 < idx);
                }
                lemma_occurrences_none(own, OpAddr(idx as u32));
                assert(dependents_upto(ops, idx as int, (idx + 1) as nat) =~= Seq::<OpAddr>::empty());
            }
            let mut t: usize = 0;
            while t < info.dependencies.len()
                invariant
                    infos@.len() == idx,
                    idx < ops.len(),
                    ops.len() <= u32::MAX,
                    addr == OpAddr(idx as u32),
                    info.dependencies@ == op_deps(ops[idx as int]),
                    t <= info.dependencies@.len(),
                    forall|j: int| 0 <= j < info.dependencies@.len() ==> (#[trigger] info.dependencies@[j]).0 < idx,
                    forall|k: int| 0 <= k < idx ==> {
                        let i = #[trigger] infos@[k];
                        &&& i.addr == OpAddr(k as u32)
                        &&& i.value == ops[k]
                        &&& i.ty == all[k].ty
                        &&& i.dynamic == all[k].dynamic
                        &&& i.dependencies@ == op_deps(ops[k])
                        &&& i.dependents@ == dependents_upto(ops, k, idx as nat) + Seq::new(
                            occurrences(info.dependencies@.take(t as int), OpAddr(k as u32)),
                            |_j: int| addr,
                        )
                    },
                decreases info.dependencies@.len() - t,
            {
                let d = info.dependencies[t];
                let di = d.0 as usize;
                proof {
                    let s = info.dependencies@;
                    assert(s.take(t as int + 1).drop_last() =~= s.take(t as int));
                }
                infos[di].dependents.push(addr);
                proof {
                    let s = info.dependencies@;
                    assert forall|k: int| 0 <= k < idx implies (#[trigger] infos@[k]).dependents@
                        == dependents_upto(ops, k, idx as nat) + Seq::new(
                            occurrences(s.take(t as int + 1), OpAddr(k as u32)),
                            |_j: int| addr,
                        ) by {
                        assert(s.take(t as int + 1).drop_last() =~= s.take(t as int));
                        assert(s.take(t as int + 1).last() == d);
                        if k == di as int {
                            assert(OpAddr(k as u32) == d);
                        }
                    }
                }
                t += 1;
            }
            proof {
                let s = info.dependencies@;
                assert(s.take(s.len() as int) =~= s);
                assert forall|k: int| 0 <= k < idx implies (#[trigger] infos@[k]).dependents@
                    == dependents_upto(ops, k, (idx + 1) as nat) by {
                    assert(Seq::new(occurrences(s, OpAddr(k as u32)), |_j: int| addr) =~= Seq::new(
                        occurrences(op_deps(ops[idx as int]), OpAddr(k as u32)),
                        |_k: int| OpAddr(idx as u32),
                    ));
                }
            }
            let ghost before = infos@;
            infos.push(info);
            proof {
                assert(info_sigs(infos@) =~= all.take(idx as int + 1));
            }
            idx += 1;
        }
        infos
    }
}

/// Joining variabilities does not depend on the order of the operands, nor
/// on how they are grouped; joining one with itself gives it back; constants
/// change nothing; per-pixel values absorb everything.
pub proof fn lemma_dynamic_join_laws(a: OpDynamic, b: OpDynamic, c: OpDynamic)
    ensures
        dynamic_join(a, b) == dynamic_join(b, a),
        dynamic_join(dynamic_join(a, b), c) == dynamic_join(a, dynamic_join(b, c)),
        dynamic_join(a, a) == a,
        dynamic_join(a, OpDynamic::Const) == a,
        dynamic_join(a, OpDynamic::PerPixel) == OpDynamic::PerPixel,
        dynamic_rank(dynamic_join(a, b)) >= dynamic_rank(a),
{
}

proof fn lemma_occurrences_concat(s: Seq<OpAddr>, t: Seq<OpAddr>, a: OpAddr)
    ensures
        occurrences(s + t, a) == occurrences(s, a) + occurrences(t, a),
    decreases t.len(),
{
    if t.len() > 0 {
        lemma_occurrences_concat(s, t.drop_last(), a);
        assert((s + t).drop_last() =~= s + t.drop_last());
    } else {
        assert(s + t =~= s);
    }
}

proof fn lemma_occurrences_repeat(k: nat, b: OpAddr, a: OpAddr)
    ensures
        occurrences(Seq::new(k, |_j: int| b), a) == if a == b { k } else { 0 },
    decreases k,
{
    if k > 0 {
        lemma_occurrences_repeat((k - 1) as nat, b, a);
        assert(Seq::new(k, |_j: int| b).drop_last() =~= Seq::new((k - 1) as nat, |_j: int| b));
    }
}

proof fn lemma_dependents_count(ops: Seq<Op>, i: int, n: nat, j: int)
    requires
        n <= ops.len(),
        n <= u32::MAX,
        0 <= j <= u32::MAX,
    ensures
        occurrences(dependents_upto(ops, i, n), OpAddr(j as u32))
            == if j < n { occurrences(op_deps(ops[j]), OpAddr(i as u32)) } else { 0 },
    decreases n,
{
    if n > 0 {
        lemma_dependents_count(ops, i, (n - 1) as nat, j);
        let k = occurrences(op_deps(ops[n - 1]), OpAddr(i as u32));
        lemma_occurrences_concat(dependents_upto(ops, i, (n - 1) as nat),
            Seq::new(k, |_k: int| OpAddr((n - 1) as u32)), OpAddr(j as u32));
        lemma_occurrences_repeat(k, OpAddr((n - 1) as u32), OpAddr(j as u32));
    }
}

/// After resolving, operation `b` is listed among the dependents of `a`
/// exactly as many times as `a` is among the dependencies of `b`.
pub proof fn lemma_dependents_match_dependencies(ops: Seq<Op>, a: int, b: int)
    requires
        ops.len() <= u32::MAX,
        0 <= a < ops.len(),
        0 <= b < ops.len(),
    ensures
        occurrences(dependents_upto(ops, a, ops.len()), OpAddr(b as u32)) == occurrences(op_deps(ops[b]), OpAddr(a as u32)),
{
    lemma_dependents_count(ops, a, ops.len(), b);
}

} // verus!
