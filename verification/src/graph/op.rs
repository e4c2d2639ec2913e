//! Operations of a shader graph over typed vectors, and the typing rule of each.

use vstd::prelude::*;

verus! {

/// The address of an operation in a graph.
#[derive(Clone, Copy, Debug, Hash, PartialEq, Eq, Structural)]
pub struct OpAddr(pub u32);

impl OpAddr {
    /// The address as an index.
    pub fn into_raw(self) -> (r: usize)
        ensures
            r == self.0,
    {
        self.0 as usize
    }

    /// The address of an index, truncated to 32 bits.
    pub fn from_raw(raw: usize) -> (a: Self)
        ensures
            a.0 == raw as u32,
    {
        OpAddr(raw as u32)
    }
}

/// A value read from the object's data.
#[derive(Clone, Copy, Debug, Hash, PartialEq, Eq, Structural)]
pub enum OpInput {
    TextureStatic,
    TextureRender,
    F32,
    I32,
    I16,
    I8,
    U32,
    U16,
    U8,
}

/// The bit pattern of a 32-bit float that is not a number.
pub open spec fn is_nan_bits(bits: u32) -> bool {
    (bits & 0x7f80_0000u32) == 0x7f80_0000u32 && (bits & 0x007f_ffffu32) != 0
}

pub(crate) fn is_nan_bits_exec(bits: u32) -> (b: bool)
    ensures
        b == is_nan_bits(bits),
{
    (bits & 0x7f80_0000u32) == 0x7f80_0000u32 && (bits & 0x007f_ffffu32) != 0
}

/// A constant: a float by its bit pattern, an integer or a boolean.
#[derive(Clone, Copy, Debug)]
pub enum OpLiteral {
    Float(u32),
    Int(i32),
    Bool(bool),
}

/// Two constants are equal when they are the same, counting every float that
/// is not a number as the same.
pub open spec fn literal_eq(a: OpLiteral, b: OpLiteral) -> bool {
    match (a, b) {
        (OpLiteral::Float(x), OpLiteral::Float(y)) => (is_nan_bits(x) && is_nan_bits(y)) || x == y,
        (OpLiteral::Int(x), OpLiteral::Int(y)) => x == y,
        (OpLiteral::Bool(x), OpLiteral::Bool(y)) => x == y,
        _ => false,
    }
}

impl PartialEq for OpLiteral {
    fn eq(&self, other: &Self) -> (r: bool) {
        match (self, other) {
            (OpLiteral::Float(x), OpLiteral::Float(y)) => (is_nan_bits_exec(*x) && is_nan_bits_exec(*y)) || *x == *y,
            (OpLiteral::Int(x), OpLiteral::Int(y)) => *x == *y,
            (OpLiteral::Bool(x), OpLiteral::Bool(y)) => *x == *y,
            _ => false,
        }
    }
}

impl vstd::std_specs::cmp::PartialEqSpecImpl for OpLiteral {
    open spec fn obeys_eq_spec() -> bool {
        true
    }

    open spec fn eq_spec(&self, other: &Self) -> bool {
        literal_eq(*self, *other)
    }
}

impl Eq for OpLiteral {}

/// The type of an operation's value.
#[derive(Clone, Copy, Debug, Hash, PartialEq, Eq, Structural)]
pub enum OpType {
    F1,
    F2,
    F3,
    F4,
    I1,
    I2,
    I3,
    I4,
    Boolean,
    TextureStatic,
    TextureRender,
}

pub open spec fn ty_is_numeric(t: OpType) -> bool {
    ty_is_float(t) || ty_is_int(t)
}

pub open spec fn ty_is_float(t: OpType) -> bool {
    t is F1 || t is F2 || t is F3 || t is F4
}

pub open spec fn ty_is_int(t: OpType) -> bool {
    t is I1 || t is I2 || t is I3 || t is I4
}

pub open spec fn ty_is_texture(t: OpType) -> bool {
    t is TextureStatic || t is TextureRender
}

/// The number of components of a type; 1 for booleans and textures.
pub open spec fn ty_size(t: OpType) -> u32 {
    match t {
        OpType::F2 | OpType::I2 => 2,
        OpType::F3 | OpType::I3 => 3,
        OpType::F4 | OpType::I4 => 4,
        _ => 1,
    }
}

impl OpType {
    /// Whether this is a float or integer scalar or vector.
    pub fn is_numeric(self) -> (b: bool)
        ensures
            b == ty_is_numeric(self),
    {
        match self {
            OpType::F1 | OpType::F2 | OpType::F3 | OpType::F4 | OpType::I1 | OpType::I2 | OpType::I3 | OpType::I4 => true,
            _ => false,
        }
    }

    /// Whether this is a float scalar or vector.
    pub fn is_float(self) -> (b: bool)
        ensures
            b == ty_is_float(self),
    {
        match self {
            OpType::F1 | OpType::F2 | OpType::F3 | OpType::F4 => true,
            _ => false,
        }
    }

    /// Whether this is an integer scalar or vector.
    pub fn is_int(self) -> (b: bool)
        ensures
            b == ty_is_int(self),
    {
        match self {
            OpType::I1 | OpType::I2 | OpType::I3 | OpType::I4 => true,
            _ => false,
        }
    }

    /// Whether this is a texture.
    pub fn is_texture(self) -> (b: bool)
        ensures
            b == ty_is_texture(self),
    {
        match self {
            OpType::TextureStatic | OpType::TextureRender => true,
            _ => false,
        }
    }

    /// The number of components; 1 for booleans and textures.
    pub fn size(self) -> (n: u32)
        ensures
            n == ty_size(self),
    {
        match self {
            OpType::F2 | OpType::I2 => 2,
            OpType::F3 | OpType::I3 => 3,
            OpType::F4 | OpType::I4 => 4,
            _ => 1,
        }
    }
}

/// The type of the value an input reads.
pub open spec fn input_type(i: OpInput) -> OpType {
    match i {
        OpInput::F32 => OpType::F1,
        OpInput::TextureStatic => OpType::TextureStatic,
        OpInput::TextureRender => OpType::TextureRender,
        _ => OpType::I1,
    }
}

impl OpInput {
    /// The type of the value this input reads.
    pub fn value_type(self) -> (t: OpType)
        ensures
            t == input_type(self),
    {
        match self {
            OpInput::F32 => OpType::F1,
            OpInput::I32 => OpType::I1,
            OpInput::I16 => OpType::I1,
            OpInput::I8 => OpType::I1,
            OpInput::U32 => OpType::I1,
            OpInput::U16 => OpType::I1,
            OpInput::U8 => OpType::I1,
            OpInput::TextureStatic => OpType::TextureStatic,
            OpInput::TextureRender => OpType::TextureRender,
        }
    }
}

/// An operation of a shader graph, reading the operations at the given addresses.
#[derive(Clone, Copy, Debug, PartialEq, Eq)]
pub enum OpValue {
    Position,
    Resolution,
    QuadStart,
    QuadEnd,
    Input(OpInput),
    Literal(OpLiteral),
    Add(OpAddr, OpAddr),
    Sub(OpAddr, OpAddr),
    Mul(OpAddr, OpAddr),
    Div(OpAddr, OpAddr),
    Rem(OpAddr, OpAddr),
    Dot(OpAddr, OpAddr),
    Cross(OpAddr, OpAddr),
    Neg(OpAddr),
    Sin(OpAddr),
    Cos(OpAddr),
    Tan(OpAddr),
    Asin(OpAddr),
    Acos(OpAddr),
    Atan(OpAddr),
    Atan2(OpAddr, OpAddr),
    Sqrt(OpAddr),
    Pow(OpAddr, OpAddr),
    Exp(OpAddr),
    Ln(OpAddr),
    Min(OpAddr, OpAddr),
    Max(OpAddr, OpAddr),
    Clamp(OpAddr, OpAddr, OpAddr),
    Abs(OpAddr),
    Sign(OpAddr),
    Floor(OpAddr),
    Lerp(OpAddr, OpAddr, OpAddr),
    Select(OpAddr, OpAddr, OpAddr),
    Smoothstep(OpAddr, OpAddr, OpAddr),
    Step(OpAddr, OpAddr),
    Eq(OpAddr, OpAddr),
    Ne(OpAddr, OpAddr),
    Lt(OpAddr, OpAddr),
    Le(OpAddr, OpAddr),
    Gt(OpAddr, OpAddr),
    Ge(OpAddr, OpAddr),
    And(OpAddr, OpAddr),
    Or(OpAddr, OpAddr),
    Xor(OpAddr, OpAddr),
    Not(OpAddr),
    Vec2(OpAddr, OpAddr),
    Vec3(OpAddr, OpAddr, OpAddr),
    Vec4(OpAddr, OpAddr, OpAddr, OpAddr),
    Splat2(OpAddr),
    Splat3(OpAddr),
    Splat4(OpAddr),
    CastFloat(OpAddr),
    CastInt(OpAddr),
    ExtractX(OpAddr),
    ExtractY(OpAddr),
    ExtractZ(OpAddr),
    ExtractW(OpAddr),
    Length(OpAddr),
    Normalize(OpAddr),
    DerivX(OpAddr),
    DerivY(OpAddr),
    DerivWidth(OpAddr),
    TextureLinear(OpAddr, OpAddr),
    TextureNearest(OpAddr, OpAddr),
    TextureSize(OpAddr),
}

/// The addresses an operation reads, in order.
pub open spec fn value_deps(v: OpValue) -> Seq<OpAddr> {
    match v {
        OpValue::Position
        | OpValue::Resolution
        | OpValue::QuadStart
        | OpValue::QuadEnd
        | OpValue::Input(_)
        | OpValue::Literal(_) => seq![],
        OpValue::Add(x, y)
        | OpValue::Sub(x, y)
        | OpValue::Mul(x, y)
        | OpValue::Div(x, y)
        | OpValue::Rem(x, y)
        | OpValue::Dot(x, y)
        | OpValue::Cross(x, y)
        | OpValue::Atan2(x, y)
        | OpValue::Pow(x, y)
        | OpValue::Min(x, y)
        | OpValue::Max(x, y)
        | OpValue::Step(x, y)
        | OpValue::Eq(x, y)
        | OpValue::Ne(x, y)
        | OpValue::Lt(x, y)
        | OpValue::Le(x, y)
        | OpValue::Gt(x, y)
        | OpValue::Ge(x, y)
        | OpValue::And(x, y)
        | OpValue::Or(x, y)
        | OpValue::Xor(x, y)
        | OpValue::Vec2(x, y)
        | OpValue::TextureLinear(x, y)
        | OpValue::TextureNearest(x, y) => seq![x, y],
        OpValue::Neg(x)
        | OpValue::Sin(x)
        | OpValue::Cos(x)
        | OpValue::Tan(x)
        | OpValue::Asin(x)
        | OpValue::Acos(x)
        | OpValue::Atan(x)
        | OpValue::Sqrt(x)
        | OpValue::Exp(x)
        | OpValue::Ln(x)
        | OpValue::Abs(x)
        | OpValue::Sign(x)
        | OpValue::Floor(x)
        | OpValue::Not(x)
        | OpValue::Splat2(x)
        | OpValue::Splat3(x)
        | OpValue::Splat4(x)
        | OpValue::CastFloat(x)
        | OpValue::CastInt(x)
        | OpValue::ExtractX(x)
        | OpValue::ExtractY(x)
        | OpValue::ExtractZ(x)
        | OpValue::ExtractW(x)
        | OpValue::Length(x)
        | OpValue::Normalize(x)
        | OpValue::DerivX(x)
        | OpValue::DerivY(x)
        | OpValue::DerivWidth(x)
        | OpValue::TextureSize(x) => seq![x],
        OpValue::Clamp(x, y, z)
        | OpValue::Lerp(x, y, z)
        | OpValue::Select(x, y, z)
        | OpValue::Smoothstep(x, y, z)
        | OpValue::Vec3(x, y, z) => seq![x, y, z],
        OpValue::Vec4(x, y, z, w) => seq![x, y, z, w],
    }
}

/// The position of an operation's variant, for hashing.
pub open spec fn value_tag(v: OpValue) -> u8 {
    match v {
        OpValue::Position => 0,
        OpValue::Resolution => 1,
        OpValue::QuadStart => 2,
        OpValue::QuadEnd => 3,
        OpValue::Input(_) => 4,
        OpValue::Literal(_) => 5,
        OpValue::Add(_, _) => 6,
        OpValue::Sub(_, _) => 7,
        OpValue::Mul(_, _) => 8,
        OpValue::Div(_, _) => 9,
        OpValue::Rem(_, _) => 10,
        OpValue::Dot(_, _) => 11,
        OpValue::Cross(_, _) => 12,
        OpValue::Neg(_) => 13,
        OpValue::Sin(_) => 14,
        OpValue::Cos(_) => 15,
        OpValue::Tan(_) => 16,
        OpValue::Asin(_) => 17,
        OpValue::Acos(_) => 18,
        OpValue::Atan(_) => 19,
        OpValue::Atan2(_, _) => 20,
        OpValue::Sqrt(_) => 21,
        OpValue::Pow(_, _) => 22,
        OpValue::Exp(_) => 23,
        OpValue::Ln(_) => 24,
        OpValue::Min(_, _) => 25,
        OpValue::Max(_, _) => 26,
        OpValue::Clamp(_, _, _) => 27,
        OpValue::Abs(_) => 28,
        OpValue::Sign(_) => 29,
        OpValue::Floor(_) => 30,
        OpValue::Lerp(_, _, _) => 31,
        OpValue::Select(_, _, _) => 32,
        OpValue::Smoothstep(_, _, _) => 33,
        OpValue::Step(_, _) => 34,
        OpValue::Eq(_, _) => 35,
        OpValue::Ne(_, _) => 36,
        OpValue::Lt(_, _) => 37,
        OpValue::Le(_, _) => 38,
        OpValue::Gt(_, _) => 39,
        OpValue::Ge(_, _) => 40,
        OpValue::And(_, _) => 41,
        OpValue::Or(_, _) => 42,
        OpValue::Xor(_, _) => 43,
        OpValue::Not(_) => 44,
        OpValue::Vec2(_, _) => 45,
        OpValue::Vec3(_, _, _) => 46,
        OpValue::Vec4(_, _, _, _) => 47,
        OpValue::Splat2(_) => 48,
        OpValue::Splat3(_) => 49,
        OpValue::Splat4(_) => 50,
        OpValue::CastFloat(_) => 51,
        OpValue::CastInt(_) => 52,
        OpValue::ExtractX(_) => 53,
        OpValue::ExtractY(_) => 54,
        OpValue::ExtractZ(_) => 55,
        OpValue::ExtractW(_) => 56,
        OpValue::Length(_) => 57,
        OpValue::Normalize(_) => 58,
        OpValue::DerivX(_) => 59,
        OpValue::DerivY(_) => 60,
        OpValue::DerivWidth(_) => 61,
        OpValue::TextureLinear(_, _) => 62,
        OpValue::TextureNearest(_, _) => 63,
        OpValue::TextureSize(_) => 64,
    }
}

pub(crate) fn value_tag_exec(v: OpValue) -> (t: u8)
    ensures
        t == value_tag(v),
{
    match v {
        OpValue::Position => 0,
        OpValue::Resolution => 1,
        OpValue::QuadStart => 2,
        OpValue::QuadEnd => 3,
        OpValue::Input(_) => 4,
        OpValue::Literal(_) => 5,
        OpValue::Add(_, _) => 6,
        OpValue::Sub(_, _) => 7,
        OpValue::Mul(_, _) => 8,
        OpValue::Div(_, _) => 9,
        OpValue::Rem(_, _) => 10,
        OpValue::Dot(_, _) => 11,
        OpValue::Cross(_, _) => 12,
        OpValue::Neg(_) => 13,
        OpValue::Sin(_) => 14,
        OpValue::Cos(_) => 15,
        OpValue::Tan(_) => 16,
        OpValue::Asin(_) => 17,
        OpValue::Acos(_) => 18,
        OpValue::Atan(_) => 19,
        OpValue::Atan2(_, _) => 20,
        OpValue::Sqrt(_) => 21,
        OpValue::Pow(_, _) => 22,
        OpValue::Exp(_) => 23,
        OpValue::Ln(_) => 24,
        OpValue::Min(_, _) => 25,
        OpValue::Max(_, _) => 26,
        OpValue::Clamp(_, _, _) => 27,
        OpValue::Abs(_) => 28,
        OpValue::Sign(_) => 29,
        OpValue::Floor(_) => 30,
        OpValue::Lerp(_, _, _) => 31,
        OpValue::Select(_, _, _) => 32,
        OpValue::Smoothstep(_, _, _) => 33,
        OpValue::Step(_, _) => 34,
        OpValue::Eq(_, _) => 35,
        OpValue::Ne(_, _) => 36,
        OpValue::Lt(_, _) => 37,
        OpValue::Le(_, _) => 38,
        OpValue::Gt(_, _) => 39,
        OpValue::Ge(_, _) => 40,
        OpValue::And(_, _) => 41,
        OpValue::Or(_, _) => 42,
        OpValue::Xor(_, _) => 43,
        OpValue::Not(_) => 44,
        OpValue::Vec2(_, _) => 45,
        OpValue::Vec3(_, _, _) => 46,
        OpValue::Vec4(_, _, _, _) => 47,
        OpValue::Splat2(_) => 48,
        OpValue::Splat3(_) => 49,
        OpValue::Splat4(_) => 50,
        OpValue::CastFloat(_) => 51,
        OpValue::CastInt(_) => 52,
        OpValue::ExtractX(_) => 53,
        OpValue::ExtractY(_) => 54,
        OpValue::ExtractZ(_) => 55,
        OpValue::ExtractW(_) => 56,
        OpValue::Length(_) => 57,
        OpValue::Normalize(_) => 58,
        OpValue::DerivX(_) => 59,
        OpValue::DerivY(_) => 60,
        OpValue::DerivWidth(_) => 61,
        OpValue::TextureLinear(_, _) => 62,
        OpValue::TextureNearest(_, _) => 63,
        OpValue::TextureSize(_) => 64,
    }
}


/// The type of an operation that reads nothing.
pub open spec fn leaf_rule(v: OpValue) -> Option<OpType> {
    match v {
        OpValue::Position | OpValue::QuadStart | OpValue::QuadEnd | OpValue::Resolution => Some(OpType::F2),
        OpValue::Input(i) => Some(input_type(i)),
        OpValue::Literal(OpLiteral::Float(_)) => Some(OpType::F1),
        OpValue::Literal(OpLiteral::Int(_)) => Some(OpType::I1),
        OpValue::Literal(OpLiteral::Bool(_)) => Some(OpType::Boolean),
        _ => None,
    }
}

/// The component type of a vector type, when the vector has at least `n` components.
pub open spec fn extract_rule(x: OpType, n: u32) -> Option<OpType> {
    if ty_size(x) < n { None } else if ty_is_float(x) { Some(OpType::F1) } else if ty_is_int(x) { Some(OpType::I1) } else { None }
}

/// The vector of `n` components of a scalar type.
pub open spec fn vector_rule(x: OpType, n: u32) -> Option<OpType> {
    match x {
        OpType::F1 => if n == 2 { Some(OpType::F2) } else if n == 3 { Some(OpType::F3) } else { Some(OpType::F4) },
        OpType::I1 => if n == 2 { Some(OpType::I2) } else if n == 3 { Some(OpType::I3) } else { Some(OpType::I4) },
        _ => None,
    }
}

/// The type of an operation of one operand of type `x`.
pub open spec fn unary_rule(v: OpValue, x: OpType) -> Option<OpType> {
    match v {
        OpValue::Sin(_) | OpValue::Cos(_) | OpValue::Tan(_) | OpValue::Asin(_) | OpValue::Acos(_) | OpValue::Atan(_)
        | OpValue::Sqrt(_) | OpValue::Exp(_) | OpValue::Ln(_) | OpValue::Floor(_) | OpValue::DerivX(_) | OpValue::DerivY(_)
        | OpValue::DerivWidth(_) | OpValue::Normalize(_) => if ty_is_float(x) { Some(x) } else { None },
        OpValue::Neg(_) | OpValue::Abs(_) | OpValue::Sign(_) => if ty_is_numeric(x) { Some(x) } else { None },
        OpValue::Not(_) => if x == OpType::Boolean || ty_is_numeric(x) { Some(x) } else { None },
        OpValue::Splat2(_) => vector_rule(x, 2),
        OpValue::Splat3(_) => vector_rule(x, 3),
        OpValue::Splat4(_) => vector_rule(x, 4),
        OpValue::CastFloat(_) => match x {
            OpType::I1 => Some(OpType::F1),
            OpType::I2 => Some(OpType::F2),
            OpType::I3 => Some(OpType::F3),
            OpType::I4 => Some(OpType::F4),
            _ => None,
        },
        OpValue::CastInt(_) => match x {
            OpType::F1 => Some(OpType::I1),
            OpType::F2 => Some(OpType::I2),
            OpType::F3 => Some(OpType::I3),
            OpType::F4 => Some(OpType::I4),
            _ => None,
        },
        OpValue::ExtractX(_) => extract_rule(x, 1),
        OpValue::ExtractY(_) => extract_rule(x, 2),
        OpValue::ExtractZ(_) => extract_rule(x, 3),
        OpValue::ExtractW(_) => extract_rule(x, 4),
        OpValue::Length(_) => if ty_is_float(x) { Some(OpType::F1) } else { None },
        OpValue::TextureSize(_) => if ty_is_texture(x) { Some(OpType::I2) } else { None },
        _ => None,
    }
}

/// The type of an operation of two operands of types `l` and `r`.
pub open spec fn binary_rule(v: OpValue, l: OpType, r: OpType) -> Option<OpType> {
    match v {
        OpValue::Add(_, _) | OpValue::Sub(_, _) | OpValue::Mul(_, _) | OpValue::Div(_, _) | OpValue::Rem(_, _)
        | OpValue::Min(_, _) | OpValue::Max(_, _) | OpValue::Step(_, _) => if ty_is_numeric(l) && l == r { Some(l) } else { None },
        OpValue::Atan2(_, _) | OpValue::Pow(_, _) => if ty_is_float(l) && l == r { Some(l) } else { None },
        OpValue::Dot(_, _) => if ty_is_float(l) && l == r { Some(OpType::F1) } else { None },
        OpValue::Cross(_, _) => if l == OpType::F3 && r == OpType::F3 { Some(OpType::F3) } else { None },
        OpValue::Eq(_, _) | OpValue::Ne(_, _) | OpValue::Lt(_, _) | OpValue::Le(_, _) | OpValue::Gt(_, _)
        | OpValue::Ge(_, _) => if ty_is_numeric(l) && l == r { Some(OpType::Boolean) } else { None },
        OpValue::And(_, _) | OpValue::Or(_, _) | OpValue::Xor(_, _) =>
            if (l == OpType::Boolean || ty_is_numeric(l)) && l == r { Some(l) } else { None },
        OpValue::Vec2(_, _) => if ty_is_numeric(l) && l == r { vector_rule(l, 2) } else { None },
        OpValue::TextureLinear(_, _) | OpValue::TextureNearest(_, _) =>
            if ty_is_texture(l) && r == OpType::F2 { Some(OpType::F4) } else { None },
        _ => None,
    }
}

/// The type of an operation of three operands of types `a`, `b` and `c`.
pub open spec fn ternary_rule(v: OpValue, a: OpType, b: OpType, c: OpType) -> Option<OpType> {
    match v {
        OpValue::Clamp(_, _, _) | OpValue::Lerp(_, _, _) | OpValue::Smoothstep(_, _, _) =>
            if ty_is_float(a) && a == b && a == c { Some(a) } else { None },
        OpValue::Select(_, _, _) => if a == OpType::Boolean && b == c { Some(b) } else { None },
        OpValue::Vec3(_, _, _) => if ty_is_numeric(a) && a == b && a == c { vector_rule(a, 3) } else { None },
        _ => None,
    }
}

/// The type of the operation at `a` among those typed so far.
pub open spec fn arg_type(types: Seq<OpType>, a: OpAddr) -> Option<OpType> {
    if a.0 < types.len() { Some(types[a.0 as int]) } else { None }
}

/// The type of `v` when the operations before it have types `types`; `None`
/// where an operand is missing or of a type the operation does not take.
pub open spec fn value_type(v: OpValue, types: Seq<OpType>) -> Option<OpType> {
    let d = value_deps(v);
    if d.len() == 0 {
        leaf_rule(v)
    } else if d.len() == 1 {
        match arg_type(types, d[0]) {
            Some(x) => unary_rule(v, x),
            None => None,
        }
    } else if d.len() == 2 {
        match (arg_type(types, d[0]), arg_type(types, d[1])) {
            (Some(l), Some(r)) => binary_rule(v, l, r),
            _ => None,
        }
    } else if d.len() == 3 {
        match (arg_type(types, d[0]), arg_type(types, d[1]), arg_type(types, d[2])) {
            (Some(a), Some(b), Some(c)) => ternary_rule(v, a, b, c),
            _ => None,
        }
    } else {
        match (arg_type(types, d[0]), arg_type(types, d[1]), arg_type(types, d[2]), arg_type(types, d[3])) {
            (Some(x), Some(y), Some(z), Some(w)) =>
                if ty_is_numeric(x) && x == y && x == z && x == w { vector_rule(x, 4) } else { None },
            _ => None,
        }
    }
}

fn arg_type_exec(types: &[OpType], a: OpAddr) -> (r: Option<OpType>)
    ensures
        r == arg_type(types@, a),
{
    if (a.0 as usize) < types.len() { Some(types[a.0 as usize]) } else { None }
}

fn vector_rule_exec(x: OpType, n: u32) -> (r: Option<OpType>)
    ensures
        r == vector_rule(x, n),
{
    match x {
        OpType::F1 => Some(if n == 2 { OpType::F2 } else if n == 3 { OpType::F3 } else { OpType::F4 }),
        OpType::I1 => Some(if n == 2 { OpType::I2 } else if n == 3 { OpType::I3 } else { OpType::I4 }),
        _ => None,
    }
}

fn extract_rule_exec(x: OpType, n: u32) -> (r: Option<OpType>)
    ensures
        r == extract_rule(x, n),
{
    if x.size() < n { None } else if x.is_float() { Some(OpType::F1) } else if x.is_int() { Some(OpType::I1) } else { None }
}

fn leaf_rule_exec(v: OpValue) -> (r: Option<OpType>)
    ensures
        r == leaf_rule(v),
{
    match v {
        OpValue::Position | OpValue::QuadStart | OpValue::QuadEnd | OpValue::Resolution => Some(OpType::F2),
        OpValue::Input(i) => Some(i.value_type()),
        OpValue::Literal(OpLiteral::Float(_)) => Some(OpType::F1),
        OpValue::Literal(OpLiteral::Int(_)) => Some(OpType::I1),
        OpValue::Literal(OpLiteral::Bool(_)) => Some(OpType::Boolean),
        _ => None,
    }
}

fn unary_rule_exec(v: OpValue, x: OpType) -> (r: Option<OpType>)
    ensures
        r == unary_rule(v, x),
{
    match v {
        OpValue::Sin(_) | OpValue::Cos(_) | OpValue::Tan(_) | OpValue::Asin(_) | OpValue::Acos(_) | OpValue::Atan(_)
        | OpValue::Sqrt(_) | OpValue::Exp(_) | OpValue::Ln(_) | OpValue::Floor(_) | OpValue::DerivX(_) | OpValue::DerivY(_)
        | OpValue::DerivWidth(_) | OpValue::Normalize(_) => if x.is_float() { Some(x) } else { None },
        OpValue::Neg(_) | OpValue::Abs(_) | OpValue::Sign(_) => if x.is_numeric() { Some(x) } else { None },
        OpValue::Not(_) => if x == OpType::Boolean || x.is_numeric() { Some(x) } else { None },
        OpValue::Splat2(_) => vector_rule_exec(x, 2),
        OpValue::Splat3(_) => vector_rule_exec(x, 3),
        OpValue::Splat4(_) => vector_rule_exec(x, 4),
        OpValue::CastFloat(_) => match x {
            OpType::I1 => Some(OpType::F1),
            OpType::I2 => Some(OpType::F2),
            OpType::I3 => Some(OpType::F3),
            OpType::I4 => Some(OpType::F4),
            _ => None,
        },
        OpValue::CastInt(_) => match x {
            OpType::F1 => Some(OpType::I1),
            OpType::F2 => Some(OpType::I2),
            OpType::F3 => Some(OpType::I3),
            OpType::F4 => Some(OpType::I4),
            _ => None,
        },
        OpValue::ExtractX(_) => extract_rule_exec(x, 1),
        OpValue::ExtractY(_) => extract_rule_exec(x, 2),
        OpValue::ExtractZ(_) => extract_rule_exec(x, 3),
        OpValue::ExtractW(_) => extract_rule_exec(x, 4),
        OpValue::Length(_) => if x.is_float() { Some(OpType::F1) } else { None },
        OpValue::TextureSize(_) => if x.is_texture() { Some(OpType::I2) } else { None },
        _ => None,
    }
}

fn binary_rule_exec(v: OpValue, l: OpType, r: OpType) -> (t: Option<OpType>)
    ensures
        t == binary_rule(v, l, r),
{
    match v {
        OpValue::Add(_, _) | OpValue::Sub(_, _) | OpValue::Mul(_, _) | OpValue::Div(_, _) | OpValue::Rem(_, _)
        | OpValue::Min(_, _) | OpValue::Max(_, _) | OpValue::Step(_, _) => if l.is_numeric() && l == r { Some(l) } else { None },
        OpValue::Atan2(_, _) | OpValue::Pow(_, _) => if l.is_float() && l == r { Some(l) } else { None },
        OpValue::Dot(_, _) => if l.is_float() && l == r { Some(OpType::F1) } else { None },
        OpValue::Cross(_, _) => if l == OpType::F3 && r == OpType::F3 { Some(OpType::F3) } else { None },
        OpValue::Eq(_, _) | OpValue::Ne(_, _) | OpValue::Lt(_, _) | OpValue::Le(_, _) | OpValue::Gt(_, _)
        | OpValue::Ge(_, _) => if l.is_numeric() && l == r { Some(OpType::Boolean) } else { None },
        OpValue::And(_, _) | OpValue::Or(_, _) | OpValue::Xor(_, _) =>
            if (l == OpType::Boolean || l.is_numeric()) && l == r { Some(l) } else { None },
        OpValue::Vec2(_, _) => if l.is_numeric() && l == r { vector_rule_exec(l, 2) } else { None },
        OpValue::TextureLinear(_, _) | OpValue::TextureNearest(_, _) =>
            if l.is_texture() && r == OpType::F2 { Some(OpType::F4) } else { None },
        _ => None,
    }
}

fn ternary_rule_exec(v: OpValue, a: OpType, b: OpType, c: OpType) -> (t: Option<OpType>)
    ensures
        t == ternary_rule(v, a, b, c),
{
    match v {
        OpValue::Clamp(_, _, _) | OpValue::Lerp(_, _, _) | OpValue::Smoothstep(_, _, _) =>
            if a.is_float() && a == b && a == c { Some(a) } else { None },
        OpValue::Select(_, _, _) => if a == OpType::Boolean && b == c { Some(b) } else { None },
        OpValue::Vec3(_, _, _) => if a.is_numeric() && a == b && a == c { vector_rule_exec(a, 3) } else { None },
        _ => None,
    }
}

impl OpValue {
    /// The `idx`-th address this operation reads, if it reads that many.
    pub fn index_dependency(&self, idx: usize) -> (r: Option<OpAddr>)
        ensures
            r == (if idx < value_deps(*self).len() { Some(value_deps(*self)[idx as int]) } else { None }),
    {
        match *self {
            OpValue::Position
            | OpValue::Resolution
            | OpValue::QuadStart
            | OpValue::QuadEnd
            | OpValue::Input(_)
            | OpValue::Literal(_) => None,
            OpValue::Add(x, y)
            | OpValue::Sub(x, y)
            | OpValue::Mul(x, y)
            | OpValue::Div(x, y)
            | OpValue::Rem(x, y)
            | OpValue::Dot(x, y)
            | OpValue::Cross(x, y)
            | OpValue::Atan2(x, y)
            | OpValue::Pow(x, y)
            | OpValue::Min(x, y)
            | OpValue::Max(x, y)
            | OpValue::Step(x, y)
            | OpValue::Eq(x, y)
            | OpValue::Ne(x, y)
            | OpValue::Lt(x, y)
            | OpValue::Le(x, y)
            | OpValue::Gt(x, y)
            | OpValue::Ge(x, y)
            | OpValue::And(x, y)
            | OpValue::Or(x, y)
            | OpValue::Xor(x, y)
            | OpValue::Vec2(x, y)
            | OpValue::TextureLinear(x, y)
            | OpValue::TextureNearest(x, y) => { if idx == 0 { Some(x) } else if idx == 1 { Some(y) } else { None } },
            OpValue::Neg(x)
            | OpValue::Sin(x)
            | OpValue::Cos(x)
            | OpValue::Tan(x)
            | OpValue::Asin(x)
            | OpValue::Acos(x)
            | OpValue::Atan(x)
            | OpValue::Sqrt(x)
            | OpValue::Exp(x)
            | OpValue::Ln(x)
            | OpValue::Abs(x)
            | OpValue::Sign(x)
            | OpValue::Floor(x)
            | OpValue::Not(x)
            | OpValue::Splat2(x)
            | OpValue::Splat3(x)
            | OpValue::Splat4(x)
            | OpValue::CastFloat(x)
            | OpValue::CastInt(x)
            | OpValue::ExtractX(x)
            | OpValue::ExtractY(x)
            | OpValue::ExtractZ(x)
            | OpValue::ExtractW(x)
            | OpValue::Length(x)
            | OpValue::Normalize(x)
            | OpValue::DerivX(x)
            | OpValue::DerivY(x)
            | OpValue::DerivWidth(x)
            | OpValue::TextureSize(x) => { if idx == 0 { Some(x) } else { None } },
            OpValue::Clamp(x, y, z)
            | OpValue::Lerp(x, y, z)
            | OpValue::Select(x, y, z)
            | OpValue::Smoothstep(x, y, z)
            | OpValue::Vec3(x, y, z) => { if idx == 0 { Some(x) } else if idx == 1 { Some(y) } else if idx == 2 { Some(z) } else { None } },
            OpValue::Vec4(x, y, z, w) => { if idx == 0 { Some(x) } else if idx == 1 { Some(y) } else if idx == 2 { Some(z) } else if idx == 3 { Some(w) } else { None } },
        }
    }

    /// The addresses this operation reads, in order.
    pub fn iter_dependencies(&self) -> (r: Vec<OpAddr>)
        ensures
            r@ == value_deps(*self),
    {
        let mut r: Vec<OpAddr> = Vec::new();
        let mut i: usize = 0;
        while i < 4
            invariant
                i <= 4,
                value_deps(*self).len() <= 4,
                r@ == value_deps(*self).take(if i <= value_deps(*self).len() { i as int } else { value_deps(*self).len() as int }),
            decreases 4 - i,
        {
            match self.index_dependency(i) {
                Some(a) => {
                    proof {
                        assert(value_deps(*self).take(i as int + 1) =~= value_deps(*self).take(i as int).push(a));
                    }
                    r.push(a);
                },
                None => {},
            }
            i += 1;
        }
        proof {
            assert(value_deps(*self).take(value_deps(*self).len() as int) =~= value_deps(*self));
        }
        r
    }

    /// The type of this operation when the operations before it have types
    /// `types`; `None` where an operand is missing or of a type it does not take.
    pub fn type_check(&self, types: &[OpType]) -> (r: Option<OpType>)
        ensures
            r == value_type(*self, types@),
    {
        let v = *self;
        let d = v.iter_dependencies();
        if d.len() == 0 {
            leaf_rule_exec(v)
        } else if d.len() == 1 {
            match arg_type_exec(types, d[0]) {
                Some(x) => unary_rule_exec(v, x),
                None => None,
            }
        } else if d.len() == 2 {
            match (arg_type_exec(types, d[0]), arg_type_exec(types, d[1])) {
                (Some(l), Some(r)) => binary_rule_exec(v, l, r),
                _ => None,
            }
        } else if d.len() == 3 {
            match (arg_type_exec(types, d[0]), arg_type_exec(types, d[1]), arg_type_exec(types, d[2])) {
                (Some(a), Some(b), Some(c)) => ternary_rule_exec(v, a, b, c),
                _ => None,
            }
        } else {
            match (arg_type_exec(types, d[0]), arg_type_exec(types, d[1]), arg_type_exec(types, d[2]), arg_type_exec(types, d[3])) {
                (Some(x), Some(y), Some(z), Some(w)) =>
                    if x.is_numeric() && x == y && x == z && x == w { vector_rule_exec(x, 4) } else { None },
                _ => None,
            }
        }
    }
}

/// A componentwise operation (arithmetic, minimum, maximum, step, power,
/// two-argument arctangent, logical and bitwise operations) has the type of
/// its operands, which agree.
pub proof fn lemma_type_componentwise(x: OpAddr, y: OpAddr, z: OpAddr, w: OpAddr, types: Seq<OpType>)
    requires
        x.0 < types.len(),
        y.0 < types.len(),
        z.0 < types.len(),
        w.0 < types.len(),
    ensures
        ({
            let tx = types[x.0 as int];
            let ty = types[y.0 as int];
            let tz = types[z.0 as int];
            let tw = types[w.0 as int];
            &&& value_type(OpValue::Add(x, y), types) matches Some(t) ==> t == tx && t == ty
            &&& ty_is_numeric(tx) && tx == ty ==> value_type(OpValue::Add(x, y), types) == Some(tx)
            &&& value_type(OpValue::Sub(x, y), types) matches Some(t) ==> t == tx && t == ty
            &&& ty_is_numeric(tx) && tx == ty ==> value_type(OpValue::Sub(x, y), types) == Some(tx)
            &&& value_type(OpValue::Mul(x, y), types) matches Some(t) ==> t == tx && t == ty
            &&& ty_is_numeric(tx) && tx == ty ==> value_type(OpValue::Mul(x, y), types) == Some(tx)
            &&& value_type(OpValue::Div(x, y), types) matches Some(t) ==> t == tx && t == ty
            &&& ty_is_numeric(tx) && tx == ty ==> value_type(OpValue::Div(x, y), types) == Some(tx)
            &&& value_type(OpValue::Rem(x, y), types) matches Some(t) ==> t == tx && t == ty
            &&& ty_is_numeric(tx) && tx == ty ==> value_type(OpValue::Rem(x, y), types) == Some(tx)
            &&& value_type(OpValue::Min(x, y), types) matches Some(t) ==> t == tx && t == ty
            &&& ty_is_numeric(tx) && tx == ty ==> value_type(OpValue::Min(x, y), types) == Some(tx)
            &&& value_type(OpValue::Max(x, y), types) matches Some(t) ==> t == tx && t == ty
            &&& ty_is_numeric(tx) && tx == ty ==> value_type(OpValue::Max(x, y), types) == Some(tx)
            &&& value_type(OpValue::Step(x, y), types) matches Some(t) ==> t == tx && t == ty
            &&& ty_is_numeric(tx) && tx == ty ==> value_type(OpValue::Step(x, y), types) == Some(tx)
            &&& value_type(OpValue::Atan2(x, y), types) matches Some(t) ==> t == tx && t == ty && ty_is_float(t)
            &&& ty_is_float(tx) && tx == ty ==> value_type(OpValue::Atan2(x, y), types) == Some(tx)
            &&& value_type(OpValue::Pow(x, y), types) matches Some(t) ==> t == tx && t == ty && ty_is_float(t)
            &&& ty_is_float(tx) && tx == ty ==> value_type(OpValue::Pow(x, y), types) == Some(tx)
            &&& value_type(OpValue::And(x, y), types) matches Some(t) ==> t == tx && t == ty
            &&& value_type(OpValue::Or(x, y), types) matches Some(t) ==> t == tx && t == ty
            &&& value_type(OpValue::Xor(x, y), types) matches Some(t) ==> t == tx && t == ty
        }),
{
}

/// A dot product and a length are a single float; a cross product takes and
/// gives three-component float vectors.
pub proof fn lemma_type_products(x: OpAddr, y: OpAddr, z: OpAddr, w: OpAddr, types: Seq<OpType>)
    requires
        x.0 < types.len(),
        y.0 < types.len(),
        z.0 < types.len(),
        w.0 < types.len(),
    ensures
        ({
            let tx = types[x.0 as int];
            let ty = types[y.0 as int];
            let tz = types[z.0 as int];
            let tw = types[w.0 as int];
            &&& value_type(OpValue::Dot(x, y), types) matches Some(t) ==> t == OpType::F1 && tx == ty && ty_is_float(tx)
            &&& ty_is_float(tx) && tx == ty ==> value_type(OpValue::Dot(x, y), types) == Some(OpType::F1)
            &&& value_type(OpValue::Cross(x, y), types) matches Some(t) ==> t == OpType::F3 && tx == OpType::F3 && ty == OpType::F3
            &&& tx == OpType::F3 && ty == OpType::F3 ==> value_type(OpValue::Cross(x, y), types) == Some(OpType::F3)
            &&& value_type(OpValue::Length(x), types) matches Some(t) ==> t == OpType::F1
        }),
{
}

/// A comparison of two values of one numeric type is a boolean; a selection
/// on a boolean has the type of the values it picks between.
pub proof fn lemma_type_comparisons(x: OpAddr, y: OpAddr, z: OpAddr, w: OpAddr, types: Seq<OpType>)
    requires
        x.0 < types.len(),
        y.0 < types.len(),
        z.0 < types.len(),
        w.0 < types.len(),
    ensures
        ({
            let tx = types[x.0 as int];
            let ty = types[y.0 as int];
            let tz = types[z.0 as int];
            let tw = types[w.0 as int];
            &&& value_type(OpValue::Eq(x, y), types) matches Some(t) ==> t == OpType::Boolean && tx == ty
            &&& ty_is_numeric(tx) && tx == ty ==> value_type(OpValue::Eq(x, y), types) == Some(OpType::Boolean)
            &&& value_type(OpValue::Ne(x, y), types) matches Some(t) ==> t == OpType::Boolean && tx == ty
            &&& ty_is_numeric(tx) && tx == ty ==> value_type(OpValue::Ne(x, y), types) == Some(OpType::Boolean)
            &&& value_type(OpValue::Lt(x, y), types) matches Some(t) ==> t == OpType::Boolean && tx == ty
            &&& ty_is_numeric(tx) && tx == ty ==> value_type(OpValue::Lt(x, y), types) == Some(OpType::Boolean)
            &&& value_type(OpValue::Le(x, y), types) matches Some(t) ==> t == OpType::Boolean && tx == ty
            &&& ty_is_numeric(tx) && tx == ty ==> value_type(OpValue::Le(x, y), types) == Some(OpType::Boolean)
            &&& value_type(OpValue::Gt(x, y), types) matches Some(t) ==> t == OpType::Boolean && tx == ty
            &&& ty_is_numeric(tx) && tx == ty ==> value_type(OpValue::Gt(x, y), types) == Some(OpType::Boolean)
            &&& value_type(OpValue::Ge(x, y), types) matches Some(t) ==> t == OpType::Boolean && tx == ty
            &&& ty_is_numeric(tx) && tx == ty ==> value_type(OpValue::Ge(x, y), types) == Some(OpType::Boolean)
            &&& value_type(OpValue::Select(x, y, z), types) matches Some(t) ==> tx == OpType::Boolean && t == ty && t == tz
        }),
{
}

/// A function of one value (trigonometry, roots, logarithms, rounding,
/// derivatives, negation, absolute value, sign, normalization) has the type of
/// its operand; so do interpolation, clamping and smoothstep of three values.
pub proof fn lemma_type_unary(x: OpAddr, y: OpAddr, z: OpAddr, w: OpAddr, types: Seq<OpType>)
    requires
        x.0 < types.len(),
        y.0 < types.len(),
        z.0 < types.len(),
        w.0 < types.len(),
    ensures
        ({
            let tx = types[x.0 as int];
            let ty = types[y.0 as int];
            let tz = types[z.0 as int];
            let tw = types[w.0 as int];
            &&& value_type(OpValue::Sin(x), types) matches Some(t) ==> t == tx && ty_is_float(t)
            &&& value_type(OpValue::Cos(x), types) matches Some(t) ==> t == tx && ty_is_float(t)
            &&& value_type(OpValue::Tan(x), types) matches Some(t) ==> t == tx && ty_is_float(t)
            &&& value_type(OpValue::Asin(x), types) matches Some(t) ==> t == tx && ty_is_float(t)
            &&& value_type(OpValue::Acos(x), types) matches Some(t) ==> t == tx && ty_is_float(t)
            &&& value_type(OpValue::Atan(x), types) matches Some(t) ==> t == tx && ty_is_float(t)
            &&& value_type(OpValue::Sqrt(x), types) matches Some(t) ==> t == tx && ty_is_float(t)
            &&& value_type(OpValue::Exp(x), types) matches Some(t) ==> t == tx && ty_is_float(t)
            &&& value_type(OpValue::Ln(x), types) matches Some(t) ==> t == tx && ty_is_float(t)
            &&& value_type(OpValue::Floor(x), types) matches Some(t) ==> t == tx && ty_is_float(t)
            &&& value_type(OpValue::DerivX(x), types) matches Some(t) ==> t == tx && ty_is_float(t)
            &&& value_type(OpValue::DerivY(x), types) matches Some(t) ==> t == tx && ty_is_float(t)
            &&& value_type(OpValue::DerivWidth(x), types) matches Some(t) ==> t == tx && ty_is_float(t)
            &&& value_type(OpValue::Normalize(x), types) matches Some(t) ==> t == tx && ty_is_float(t)
            &&& value_type(OpValue::Neg(x), types) matches Some(t) ==> t == tx && ty_is_numeric(t)
            &&& value_type(OpValue::Abs(x), types) matches Some(t) ==> t == tx && ty_is_numeric(t)
            &&& value_type(OpValue::Sign(x), types) matches Some(t) ==> t == tx && ty_is_numeric(t)
            &&& value_type(OpValue::Not(x), types) matches Some(t) ==> t == tx
            &&& value_type(OpValue::Clamp(x, y, z), types) matches Some(t) ==> t == tx && t == ty && t == tz && ty_is_float(t)
            &&& value_type(OpValue::Lerp(x, y, z), types) matches Some(t) ==> t == tx && t == ty && t == tz && ty_is_float(t)
            &&& value_type(OpValue::Smoothstep(x, y, z), types) matches Some(t) ==> t == tx && t == ty && t == tz && ty_is_float(t)
        }),
{
}

/// Building a vector of `n` scalars or splatting one gives `n` components of
/// the scalar's kind; extracting a component gives one of the vector's kind;
/// a cast changes the kind and keeps the number of components.
pub proof fn lemma_type_vectors(x: OpAddr, y: OpAddr, z: OpAddr, w: OpAddr, types: Seq<OpType>)
    requires
        x.0 < types.len(),
        y.0 < types.len(),
        z.0 < types.len(),
        w.0 < types.len(),
    ensures
        ({
            let tx = types[x.0 as int];
            let ty = types[y.0 as int];
            let tz = types[z.0 as int];
            let tw = types[w.0 as int];
            &&& value_type(OpValue::CastFloat(x), types) matches Some(t) ==> ty_is_float(t) && ty_is_int(tx) && ty_size(t) == ty_size(tx)
            &&& value_type(OpValue::CastInt(x), types) matches Some(t) ==> ty_is_int(t) && ty_is_float(tx) && ty_size(t) == ty_size(tx)
            &&& value_type(OpValue::ExtractX(x), types) matches Some(t) ==> ty_size(t) == 1 && ty_size(tx) >= 1 && ty_is_float(t) == ty_is_float(tx)
            &&& value_type(OpValue::ExtractY(x), types) matches Some(t) ==> ty_size(t) == 1 && ty_size(tx) >= 2 && ty_is_float(t) == ty_is_float(tx)
            &&& value_type(OpValue::ExtractZ(x), types) matches Some(t) ==> ty_size(t) == 1 && ty_size(tx) >= 3 && ty_is_float(t) == ty_is_float(tx)
            &&& value_type(OpValue::ExtractW(x), types) matches Some(t) ==> ty_size(t) == 1 && ty_size(tx) >= 4 && ty_is_float(t) == ty_is_float(tx)
            &&& value_type(OpValue::Splat2(x), types) matches Some(t) ==> ty_size(t) == 2 && ty_size(tx) == 1 && ty_is_float(t) == ty_is_float(tx)
            &&& value_type(OpValue::Splat3(x), types) matches Some(t) ==> ty_size(t) == 3 && ty_size(tx) == 1 && ty_is_float(t) == ty_is_float(tx)
            &&& value_type(OpValue::Splat4(x), types) matches Some(t) ==> ty_size(t) == 4 && ty_size(tx) == 1 && ty_is_float(t) == ty_is_float(tx)
            &&& value_type(OpValue::Vec2(x, y), types) matches Some(t) ==> ty_size(t) == 2 && ty_size(tx) == 1 && tx == ty && ty_is_float(t) == ty_is_float(tx)
            &&& value_type(OpValue::Vec3(x, y, z), types) matches Some(t) ==> ty_size(t) == 3 && ty_size(tx) == 1 && tx == ty && tx == tz && ty_is_float(t) == ty_is_float(tx)
            &&& value_type(OpValue::Vec4(x, y, z, w), types) matches Some(t) ==> ty_size(t) == 4 && ty_size(tx) == 1 && tx == ty && tx == tz && tx == tw && ty_is_float(t) == ty_is_float(tx)
        }),
{
}

/// Sampling a texture at a two-component position gives a four-component
/// color, and a texture's size is two integers.
pub proof fn lemma_type_sampling(x: OpAddr, y: OpAddr, z: OpAddr, w: OpAddr, types: Seq<OpType>)
    requires
        x.0 < types.len(),
        y.0 < types.len(),
        z.0 < types.len(),
        w.0 < types.len(),
    ensures
        ({
            let tx = types[x.0 as int];
            let ty = types[y.0 as int];
            let tz = types[z.0 as int];
            let tw = types[w.0 as int];
            &&& value_type(OpValue::TextureLinear(x, y), types) matches Some(t) ==> t == OpType::F4 && ty_is_texture(tx) && ty == OpType::F2
            &&& value_type(OpValue::TextureNearest(x, y), types) matches Some(t) ==> t == OpType::F4 && ty_is_texture(tx) && ty == OpType::F2
            &&& value_type(OpValue::TextureSize(x), types) matches Some(t) ==> t == OpType::I2 && ty_is_texture(tx)
        }),
{
}

/// Operations that read nothing: positions and sizes on screen are
/// two-component floats, and a literal has the type of its value.
pub proof fn lemma_type_leaves(b: u32, x: i32, f: bool, types: Seq<OpType>)
    ensures
        value_type(OpValue::Position, types) == Some(OpType::F2),
        value_type(OpValue::Resolution, types) == Some(OpType::F2),
        value_type(OpValue::QuadStart, types) == Some(OpType::F2),
        value_type(OpValue::QuadEnd, types) == Some(OpType::F2),
        value_type(OpValue::Literal(OpLiteral::Float(b)), types) == Some(OpType::F1),
        value_type(OpValue::Literal(OpLiteral::Int(x)), types) == Some(OpType::I1),
        value_type(OpValue::Literal(OpLiteral::Bool(f)), types) == Some(OpType::Boolean),
{
}

} // verus!
