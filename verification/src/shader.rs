//! Shader graphs: flat lists of pure operations, each of which may read
//! the values of the operations before it, ending in an RGBA color.

use vstd::prelude::*;
use crate::texture::{TextureChannel, TextureFilter};

verus! {

/// An operand holding a float value of the shader.
pub type OpFloat = u32;

/// An operand holding an int32 value of the shader.
pub type OpInt32 = u32;

/// An operand holding a boolean value of the shader.
pub type OpBool = u32;

/// An operand holding a texture slot of the shader.
pub type OpTex = u32;

/// A single operation of a shader graph.
#[derive(Clone, Copy, Debug)]
pub enum ShaderOp {
    /// Float constant, given by its bit pattern. `() -> float`
    FLit(u32),

    /// Integer constant. `() -> int32`
    ILit(i32),

    /// Boolean constant. `() -> bool`
    BLit(bool),

    /// Read a float value at from the given index (offset = 4 * index)
    ///
    /// `() -> float`
    ReadF32(u32),

    /// Read an int32 value at from the given index (offset = 4 * index)
    ///
    /// `() -> int32`
    ReadI32(u32),

    /// Read a u16 value at from the given index (offset = 2 * index)
    ///
    /// `() -> int32`
    ReadU16(u32),

    /// Read a u8 value at from the given index (offset = 1 * index)
    ///
    /// `() -> int32`
    ReadU8(u32),

    /// Pixel X position. `() -> float`
    PosX,

    /// Pixel Y position. `() -> float`
    PosY,

    /// Render target width. `() -> float`
    ResX,

    /// Render target height. `() -> float`
    ResY,

    /// Bottom edge Y coordinate of the current quad.
    ///
    ///  `() -> float`
    QuadB,

    /// Left edge X coordinate of the current quad.
    ///
    ///  `() -> float`
    QuadL,

    /// Top edge Y coordinate of the current quad.
    ///
    /// `() -> float`
    QuadT,

    /// Right edge X coordinate of the current quad.
    ///
    /// `() -> float`
    QuadR,

    /// a + b. `float, float -> float`
    FAdd(OpFloat, OpFloat),

    /// a - b. `float, float -> float`
    FSub(OpFloat, OpFloat),

    /// a * b. `float, float -> float`
    FMul(OpFloat, OpFloat),

    /// a / b. `float, float -> float`
    FDiv(OpFloat, OpFloat),

    /// a % b. Always returns a positive value. `float, float -> float`
    FMod(OpFloat, OpFloat),

    /// a if a < b else b. `float, float -> float`
    FMin(OpFloat, OpFloat),

    /// a if a > b else b. `float, float -> float`
    FMax(OpFloat, OpFloat),

    /// -x. `float -> float`
    FNeg(OpFloat),

    /// abs(x). `float -> float`
    FAbs(OpFloat),

    /// 1.0 if x > 0.0, 0 if x == 0.0, -1.0 if x < 0.0. `float -> float`
    FSign(OpFloat),

    /// a + b. Wraps on overflow. `int32, int32 -> int32`
    IAdd(OpInt32, OpInt32),

    /// a - b. Wraps on overflow. `int32, int32 -> int32`
    ISub(OpInt32, OpInt32),

    /// a * b. Wraps on overflow. `int32, int32 -> int32`
    IMul(OpInt32, OpInt32),

    /// a / b. `int32, int32 -> int32`
    IDiv(OpInt32, OpInt32),

    /// a % b. Always returns a positive value. `int32, int32 -> int32`
    IMod(OpInt32, OpInt32),

    /// a if a < b else b. `int32, int32 -> int32`
    IMin(OpInt32, OpInt32),

    /// a if a > b else b. `int32, int32 -> int32`
    IMax(OpInt32, OpInt32),

    /// -x. `int32 -> int32`
    INeg(OpInt32),

    /// abs(x). `int32 -> int32`
    IAbs(OpInt32),

    /// 1 if x > 0, 0 if x == 0, -1 if x < 0. `int32 -> int32`
    ISign(OpInt32),

    /// sin(x). `float -> float`
    Sin(OpFloat),

    /// cos(x). `float -> float`
    Cos(OpFloat),

    /// tan(x). `float -> float`
    Tan(OpFloat),

    /// asin(x). `float -> float`
    Asin(OpFloat),

    /// acos(x). `float -> float`
    Acos(OpFloat),

    /// atan(x). `float -> float`
    Atan(OpFloat),

    /// atan2(y, x). `float, float -> float`
    Atan2(OpFloat, OpFloat),

    /// pow(x, y). `float, float -> float`
    Pow(OpFloat, OpFloat),

    /// sqrt(x). `float -> float`
    Sqrt(OpFloat),

    /// ln(x). `float -> float`
    Ln(OpFloat),

    /// exp(x). `float -> float`
    Exp(OpFloat),

    /// `float -> float`
    Floor(OpFloat),

    /// Linear interpolation (`a + (b - a) * t`).
    ///
    /// `float (t), float (a), float (b) -> float`
    Lerp(OpFloat, OpFloat, OpFloat),

    /// Screen-space derivative in X direction.
    ///
    /// `float -> float`
    DerivX(OpFloat),

    /// Screen-space derivative in Y direction.
    ///
    /// `float -> float`
    DerivY(OpFloat),

    /// a | b. `int32, int32 -> int32`
    IOr(OpInt32, OpInt32),

    /// a & b. `int32, int32 -> int32`
    IAnd(OpInt32, OpInt32),

    /// a ^ b. `int32, int32 -> int32`
    IXor(OpInt32, OpInt32),

    /// a << b. `int32, int32 -> int32`
    IShl(OpInt32, OpInt32),

    /// a >> b. `int32, int32 -> int32`
    IShr(OpInt32, OpInt32),

    /// !a. `int32 -> int32`
    INot(OpInt32),

    /// a | b. `bool, bool -> bool`
    BOr(OpBool, OpBool),

    /// a & b. `bool, bool -> bool`
    BAnd(OpBool, OpBool),

    /// a ^ b. `bool, bool -> bool`
    BXor(OpBool, OpBool),

    /// !a. `bool -> bool`
    BNot(OpBool),

    /// a == b. `int32, int32 -> bool`
    IEq(OpInt32, OpInt32),

    /// a != b. `int32, int32 -> bool`
    INe(OpInt32, OpInt32),

    /// a < b. `int32, int32 -> bool`
    ILt(OpInt32, OpInt32),

    /// a <= b. `int32, int32 -> bool`
    ILe(OpInt32, OpInt32),

    /// a > b. `int32, int32 -> bool`
    IGt(OpInt32, OpInt32),

    /// a >= b. `int32, int32 -> bool`
    IGe(OpInt32, OpInt32),

    /// a == b. `float, float -> bool`
    FEq(OpFloat, OpFloat),

    /// a != b. `float, float -> bool`
    FNe(OpFloat, OpFloat),

    /// a < b. `float, float -> bool`
    FLt(OpFloat, OpFloat),

    /// a <= b. `float, float -> bool`
    FLe(OpFloat, OpFloat),

    /// a > b. `float, float -> bool`
    FGt(OpFloat, OpFloat),

    /// a >= b. `float, float -> bool`
    FGe(OpFloat, OpFloat),

    /// Chooses a value based on the boolean selector.
    /// It is allowed for backends to not evaluate both branches.
    ///
    /// `bool, int32, int32 -> int32`
    ISelect(OpBool, OpInt32, OpInt32),

    /// See [`ShaderOp::ISelect`]. `bool, float, float -> float`
    FSelect(OpBool, OpFloat, OpFloat),

    /// See [`ShaderOp::ISelect`]. `bool, bool, bool -> bool`
    BSelect(OpBool, OpBool, OpBool),

    /// `int32 -> float`
    FCastInt32(OpInt32),

    /// `float -> int32`
    ICastFloat(OpFloat),

    /// Sample a texture. Coordinates are in pixels.
    ///
    /// `texture, x, y, filter, channel -> float`
    TexSample(OpTex, OpFloat, OpFloat, TextureFilter, TextureChannel),

    /// Texture width. `texture -> int32`
    TexW(OpTex),

    /// Texture height. `texture -> int32`
    TexH(OpTex),
}



/// Two float constants, by their bit patterns, compare as the floats they
/// stand for: a NaN equals nothing, not even itself, and the two zeros are equal.
pub open spec fn float_bits_eq(a: u32, b: u32) -> bool {
    &&& a % 0x8000_0000 <= 0x7f80_0000
    &&& b % 0x8000_0000 <= 0x7f80_0000
    &&& (a == b || (a % 0x8000_0000 == 0 && b % 0x8000_0000 == 0))
}

/// Two operations are equal when they are the same operation on the same
/// operands; float constants compare as floats.
pub open spec fn op_eq(a: ShaderOp, b: ShaderOp) -> bool {
    match (a, b) {
        (ShaderOp::FLit(x), ShaderOp::FLit(y)) => float_bits_eq(x, y),
        _ => a == b,
    }
}

impl PartialEq for ShaderOp {
    fn eq(&self, other: &Self) -> (r: bool) {
        match (*self, *other) {
            (ShaderOp::FLit(x), ShaderOp::FLit(y)) => {
                let xa = x % 0x8000_0000;
                let ya = y % 0x8000_0000;
                xa <= 0x7f80_0000 && ya <= 0x7f80_0000 && (x == y || (xa == 0 && ya == 0))
            },
            (ShaderOp::ILit(a0), ShaderOp::ILit(b0)) => a0 == b0,
            (ShaderOp::BLit(a0), ShaderOp::BLit(b0)) => a0 == b0,
            (ShaderOp::ReadF32(a0), ShaderOp::ReadF32(b0)) => a0 == b0,
            (ShaderOp::ReadI32(a0), ShaderOp::ReadI32(b0)) => a0 == b0,
            (ShaderOp::ReadU16(a0), ShaderOp::ReadU16(b0)) => a0 == b0,
            (ShaderOp::ReadU8(a0), ShaderOp::ReadU8(b0)) => a0 == b0,
            (ShaderOp::PosX, ShaderOp::PosX) => true,
            (ShaderOp::PosY, ShaderOp::PosY) => true,
            (ShaderOp::ResX, ShaderOp::ResX) => true,
            (ShaderOp::ResY, ShaderOp::ResY) => true,
            (ShaderOp::QuadB, ShaderOp::QuadB) => true,
            (ShaderOp::QuadL, ShaderOp::QuadL) => true,
            (ShaderOp::QuadT, ShaderOp::QuadT) => true,
            (ShaderOp::QuadR, ShaderOp::QuadR) => true,
            (ShaderOp::FAdd(a0, a1), ShaderOp::FAdd(b0, b1)) => a0 == b0 && a1 == b1,
            (ShaderOp::FSub(a0, a1), ShaderOp::FSub(b0, b1)) => a0 == b0 && a1 == b1,
            (ShaderOp::FMul(a0, a1), ShaderOp::FMul(b0, b1)) => a0 == b0 && a1 == b1,
            (ShaderOp::FDiv(a0, a1), ShaderOp::FDiv(b0, b1)) => a0 == b0 && a1 == b1,
            (ShaderOp::FMod(a0, a1), ShaderOp::FMod(b0, b1)) => a0 == b0 && a1 == b1,
            (ShaderOp::FMin(a0, a1), ShaderOp::FMin(b0, b1)) => a0 == b0 && a1 == b1,
            (ShaderOp::FMax(a0, a1), ShaderOp::FMax(b0, b1)) => a0 == b0 && a1 == b1,
            (ShaderOp::FNeg(a0), ShaderOp::FNeg(b0)) => a0 == b0,
            (ShaderOp::FAbs(a0), ShaderOp::FAbs(b0)) => a0 == b0,
            (ShaderOp::FSign(a0), ShaderOp::FSign(b0)) => a0 == b0,
            (ShaderOp::IAdd(a0, a1), ShaderOp::IAdd(b0, b1)) => a0 == b0 && a1 == b1,
            (ShaderOp::ISub(a0, a1), ShaderOp::ISub(b0, b1)) => a0 == b0 && a1 == b1,
            (ShaderOp::IMul(a0, a1), ShaderOp::IMul(b0, b1)) => a0 == b0 && a1 == b1,
            (ShaderOp::IDiv(a0, a1), ShaderOp::IDiv(b0, b1)) => a0 == b0 && a1 == b1,
            (ShaderOp::IMod(a0, a1), ShaderOp::IMod(b0, b1)) => a0 == b0 && a1 == b1,
            (ShaderOp::IMin(a0, a1), ShaderOp::IMin(b0, b1)) => a0 == b0 && a1 == b1,
            (ShaderOp::IMax(a0, a1), ShaderOp::IMax(b0, b1)) => a0 == b0 && a1 == b1,
            (ShaderOp::INeg(a0), ShaderOp::INeg(b0)) => a0 == b0,
            (ShaderOp::IAbs(a0), ShaderOp::IAbs(b0)) => a0 == b0,
            (ShaderOp::ISign(a0), ShaderOp::ISign(b0)) => a0 == b0,
            (ShaderOp::Sin(a0), ShaderOp::Sin(b0)) => a0 == b0,
            (ShaderOp::Cos(a0), ShaderOp::Cos(b0)) => a0 == b0,
            (ShaderOp::Tan(a0), ShaderOp::Tan(b0)) => a0 == b0,
            (ShaderOp::Asin(a0), ShaderOp::Asin(b0)) => a0 == b0,
            (ShaderOp::Acos(a0), ShaderOp::Acos(b0)) => a0 == b0,
            (ShaderOp::Atan(a0), ShaderOp::Atan(b0)) => a0 == b0,
            (ShaderOp::Atan2(a0, a1), ShaderOp::Atan2(b0, b1)) => a0 == b0 && a1 == b1,
            (ShaderOp::Pow(a0, a1), ShaderOp::Pow(b0, b1)) => a0 == b0 && a1 == b1,
            (ShaderOp::Sqrt(a0), ShaderOp::Sqrt(b0)) => a0 == b0,
            (ShaderOp::Ln(a0), ShaderOp::Ln(b0)) => a0 == b0,
            (ShaderOp::Exp(a0), ShaderOp::Exp(b0)) => a0 == b0,
            (ShaderOp::Floor(a0), ShaderOp::Floor(b0)) => a0 == b0,
            (ShaderOp::Lerp(a0, a1, a2), ShaderOp::Lerp(b0, b1, b2)) => a0 == b0 && a1 == b1 && a2 == b2,
            (ShaderOp::DerivX(a0), ShaderOp::DerivX(b0)) => a0 == b0,
            (ShaderOp::DerivY(a0), ShaderOp::DerivY(b0)) => a0 == b0,
            (ShaderOp::IOr(a0, a1), ShaderOp::IOr(b0, b1)) => a0 == b0 && a1 == b1,
            (ShaderOp::IAnd(a0, a1), ShaderOp::IAnd(b0, b1)) => a0 == b0 && a1 == b1,
            (ShaderOp::IXor(a0, a1), ShaderOp::IXor(b0, b1)) => a0 == b0 && a1 == b1,
            (ShaderOp::IShl(a0, a1), ShaderOp::IShl(b0, b1)) => a0 == b0 && a1 == b1,
            (ShaderOp::IShr(a0, a1), ShaderOp::IShr(b0, b1)) => a0 == b0 && a1 == b1,
            (ShaderOp::INot(a0), ShaderOp::INot(b0)) => a0 == b0,
            (ShaderOp::BOr(a0, a1), ShaderOp::BOr(b0, b1)) => a0 == b0 && a1 == b1,
            (ShaderOp::BAnd(a0, a1), ShaderOp::BAnd(b0, b1)) => a0 == b0 && a1 == b1,
            (ShaderOp::BXor(a0, a1), ShaderOp::BXor(b0, b1)) => a0 == b0 && a1 == b1,
            (ShaderOp::BNot(a0), ShaderOp::BNot(b0)) => a0 == b0,
            (ShaderOp::IEq(a0, a1), ShaderOp::IEq(b0, b1)) => a0 == b0 && a1 == b1,
            (ShaderOp::INe(a0, a1), ShaderOp::INe(b0, b1)) => a0 == b0 && a1 == b1,
            (ShaderOp::ILt(a0, a1), ShaderOp::ILt(b0, b1)) => a0 == b0 && a1 == b1,
            (ShaderOp::ILe(a0, a1), ShaderOp::ILe(b0, b1)) => a0 == b0 && a1 == b1,
            (ShaderOp::IGt(a0, a1), ShaderOp::IGt(b0, b1)) => a0 == b0 && a1 == b1,
            (ShaderOp::IGe(a0, a1), ShaderOp::IGe(b0, b1)) => a0 == b0 && a1 == b1,
            (ShaderOp::FEq(a0, a1), ShaderOp::FEq(b0, b1)) => a0 == b0 && a1 == b1,
            (ShaderOp::FNe(a0, a1), ShaderOp::FNe(b0, b1)) => a0 == b0 && a1 == b1,
            (ShaderOp::FLt(a0, a1), ShaderOp::FLt(b0, b1)) => a0 == b0 && a1 == b1,
            (ShaderOp::FLe(a0, a1), ShaderOp::FLe(b0, b1)) => a0 == b0 && a1 == b1,
            (ShaderOp::FGt(a0, a1), ShaderOp::FGt(b0, b1)) => a0 == b0 && a1 == b1,
            (ShaderOp::FGe(a0, a1), ShaderOp::FGe(b0, b1)) => a0 == b0 && a1 == b1,
            (ShaderOp::ISelect(a0, a1, a2), ShaderOp::ISelect(b0, b1, b2)) => a0 == b0 && a1 == b1 && a2 == b2,
            (ShaderOp::FSelect(a0, a1, a2), ShaderOp::FSelect(b0, b1, b2)) => a0 == b0 && a1 == b1 && a2 == b2,
            (ShaderOp::BSelect(a0, a1, a2), ShaderOp::BSelect(b0, b1, b2)) => a0 == b0 && a1 == b1 && a2 == b2,
            (ShaderOp::FCastInt32(a0), ShaderOp::FCastInt32(b0)) => a0 == b0,
            (ShaderOp::ICastFloat(a0), ShaderOp::ICastFloat(b0)) => a0 == b0,
            (ShaderOp::TexSample(a0, a1, a2, a3, a4), ShaderOp::TexSample(b0, b1, b2, b3, b4)) => a0 == b0 && a1 == b1 && a2 == b2 && a3 == b3 && a4 == b4,
            (ShaderOp::TexW(a0), ShaderOp::TexW(b0)) => a0 == b0,
            (ShaderOp::TexH(a0), ShaderOp::TexH(b0)) => a0 == b0,
            _ => false,
        }
    }
}

impl vstd::std_specs::cmp::PartialEqSpecImpl for ShaderOp {
    open spec fn obeys_eq_spec() -> bool {
        true
    }

    open spec fn eq_spec(&self, other: &Self) -> bool {
        op_eq(*self, *other)
    }
}

/// The type of value an operation produces.
#[derive(Clone, Copy, Debug, PartialEq, Eq, Hash, Structural)]
pub enum ShaderOpType {
    /// A 32-bit floating point value.
    Float,
    /// A 32-bit integer value.
    Int32,
    /// A single-bit true or false value.
    Bool,
}

/// The type of the value at `index` among `types`, if there is one.
pub open spec fn type_at(types: Seq<ShaderOpType>, index: u32) -> Option<ShaderOpType> {
    if index < types.len() { Some(types[index as int]) } else { None }
}

/// The `j`-th operand of `op` names a value of the type it expects.
pub open spec fn input_fits(op: ShaderOp, types: Seq<ShaderOpType>, j: int) -> bool {
    type_at(types, op_inputs(op)[j].0) == Some(op_inputs(op)[j].1)
}

/// Every operand of `op` names a value of the type it expects.
pub open spec fn inputs_fit(op: ShaderOp, types: Seq<ShaderOpType>) -> bool {
    forall|j: int| 0 <= j < op_inputs(op).len() ==> #[trigger] input_fits(op, types, j)
}

/// The output types of a list of operations.
pub open spec fn output_types(nodes: Seq<ShaderOp>) -> Seq<ShaderOpType> {
    nodes.map_values(|op: ShaderOp| op_output_type(op))
}

/// Each operation of `nodes` reads only operations before it, each of the
/// type it expects.
pub open spec fn well_formed_nodes(nodes: Seq<ShaderOp>) -> bool {
    forall|i: int| 0 <= i < nodes.len() ==> #[trigger] inputs_fit(nodes[i], output_types(nodes.take(i)))
}

/// The operand at `index` of `nodes` exists and holds a float.
pub open spec fn is_float_operand(nodes: Seq<ShaderOp>, index: u32) -> bool {
    index < nodes.len() && op_output_type(nodes[index as int]) == ShaderOpType::Float
}

/// An operand of an operation that does not name a value of the type the
/// operation expects there.
#[derive(Clone, Copy, Debug, PartialEq, Eq, Structural)]
pub struct OperandMismatch {
    /// The operand as written in the operation.
    pub operand: u32,
    /// The type the operation expects.
    pub expected: ShaderOpType,
    /// The type found there, if the operand names a value at all.
    pub found: Option<ShaderOpType>,
}

pub open spec fn op_output_type(op: ShaderOp) -> ShaderOpType {
    match op {
        ShaderOp::FLit(_)
        | ShaderOp::ReadF32(_)
        | ShaderOp::PosX
        | ShaderOp::PosY
        | ShaderOp::ResX
        | ShaderOp::ResY
        | ShaderOp::QuadB
        | ShaderOp::QuadL
        | ShaderOp::QuadT
        | ShaderOp::QuadR
        | ShaderOp::FAdd(_, _)
        | ShaderOp::FSub(_, _)
        | ShaderOp::FMul(_, _)
        | ShaderOp::FDiv(_, _)
        | ShaderOp::FMod(_, _)
        | ShaderOp::FMin(_, _)
        | ShaderOp::FMax(_, _)
        | ShaderOp::FNeg(_)
        | ShaderOp::FAbs(_)
        | ShaderOp::FSign(_)
        | ShaderOp::Sin(_)
        | ShaderOp::Cos(_)
        | ShaderOp::Tan(_)
        | ShaderOp::Asin(_)
        | ShaderOp::Acos(_)
        | ShaderOp::Atan(_)
        | ShaderOp::Atan2(_, _)
        | ShaderOp::Pow(_, _)
        | ShaderOp::Sqrt(_)
        | ShaderOp::Ln(_)
        | ShaderOp::Exp(_)
        | ShaderOp::Floor(_)
        | ShaderOp::Lerp(_, _, _)
        | ShaderOp::DerivX(_)
        | ShaderOp::DerivY(_)
        | ShaderOp::FSelect(_, _, _)
        | ShaderOp::FCastInt32(_)
        | ShaderOp::TexSample(_, _, _, _, _) => ShaderOpType::Float,
        ShaderOp::ILit(_)
        | ShaderOp::ReadI32(_)
        | ShaderOp::ReadU16(_)
        | ShaderOp::ReadU8(_)
        | ShaderOp::IAdd(_, _)
        | ShaderOp::ISub(_, _)
        | ShaderOp::IMul(_, _)
        | ShaderOp::IDiv(_, _)
        | ShaderOp::IMod(_, _)
        | ShaderOp::IMin(_, _)
        | ShaderOp::IMax(_, _)
        | ShaderOp::INeg(_)
        | ShaderOp::IAbs(_)
        | ShaderOp::ISign(_)
        | ShaderOp::IOr(_, _)
        | ShaderOp::IAnd(_, _)
        | ShaderOp::IXor(_, _)
        | ShaderOp::IShl(_, _)
        | ShaderOp::IShr(_, _)
        | ShaderOp::INot(_)
        | ShaderOp::ISelect(_, _, _)
        | ShaderOp::ICastFloat(_)
        | ShaderOp::TexW(_)
        | ShaderOp::TexH(_) => ShaderOpType::Int32,
        ShaderOp::BLit(_)
        | ShaderOp::BOr(_, _)
        | ShaderOp::BAnd(_, _)
        | ShaderOp::BXor(_, _)
        | ShaderOp::BNot(_)
        | ShaderOp::IEq(_, _)
        | ShaderOp::INe(_, _)
        | ShaderOp::ILt(_, _)
        | ShaderOp::ILe(_, _)
        | ShaderOp::IGt(_, _)
        | ShaderOp::IGe(_, _)
        | ShaderOp::FEq(_, _)
        | ShaderOp::FNe(_, _)
        | ShaderOp::FLt(_, _)
        | ShaderOp::FLe(_, _)
        | ShaderOp::FGt(_, _)
        | ShaderOp::FGe(_, _)
        | ShaderOp::BSelect(_, _, _) => ShaderOpType::Bool,
    }
}

pub open spec fn op_inputs(op: ShaderOp) -> Seq<(u32, ShaderOpType)> {
    match op {
        ShaderOp::FLit(_)
        | ShaderOp::ILit(_)
        | ShaderOp::BLit(_)
        | ShaderOp::ReadF32(_)
        | ShaderOp::ReadI32(_)
        | ShaderOp::ReadU16(_)
        | ShaderOp::ReadU8(_)
        | ShaderOp::PosX
        | ShaderOp::PosY
        | ShaderOp::ResX
        | ShaderOp::ResY
        | ShaderOp::QuadB
        | ShaderOp::QuadL
        | ShaderOp::QuadT
        | ShaderOp::QuadR
        | ShaderOp::TexW(_)
        | ShaderOp::TexH(_) => seq![],
        ShaderOp::FAdd(a, b)
        | ShaderOp::FSub(a, b)
        | ShaderOp::FMul(a, b)
        | ShaderOp::FDiv(a, b)
        | ShaderOp::FMod(a, b)
        | ShaderOp::FMin(a, b)
        | ShaderOp::FMax(a, b)
        | ShaderOp::Atan2(a, b)
        | ShaderOp::Pow(a, b)
        | ShaderOp::FEq(a, b)
        | ShaderOp::FNe(a, b)
        | ShaderOp::FLt(a, b)
        | ShaderOp::FLe(a, b)
        | ShaderOp::FGt(a, b)
        | ShaderOp::FGe(a, b) => seq![(a, ShaderOpType::Float), (b, ShaderOpType::Float)],
        ShaderOp::FNeg(a)
        | ShaderOp::FAbs(a)
        | ShaderOp::FSign(a)
        | ShaderOp::Sin(a)
        | ShaderOp::Cos(a)
        | ShaderOp::Tan(a)
        | ShaderOp::Asin(a)
        | ShaderOp::Acos(a)
        | ShaderOp::Atan(a)
        | ShaderOp::Sqrt(a)
        | ShaderOp::Ln(a)
        | ShaderOp::Exp(a)
        | ShaderOp::Floor(a)
        | ShaderOp::DerivX(a)
        | ShaderOp::DerivY(a)
        | ShaderOp::ICastFloat(a) => seq![(a, ShaderOpType::Float)],
        ShaderOp::IAdd(a, b)
        | ShaderOp::ISub(a, b)
        | ShaderOp::IMul(a, b)
        | ShaderOp::IDiv(a, b)
        | ShaderOp::IMod(a, b)
        | ShaderOp::IMin(a, b)
        | ShaderOp::IMax(a, b)
        | ShaderOp::IOr(a, b)
        | ShaderOp::IAnd(a, b)
        | ShaderOp::IXor(a, b)
        | ShaderOp::IShl(a, b)
        | ShaderOp::IShr(a, b)
        | ShaderOp::IEq(a, b)
        | ShaderOp::INe(a, b)
        | ShaderOp::ILt(a, b)
        | ShaderOp::ILe(a, b)
        | ShaderOp::IGt(a, b)
        | ShaderOp::IGe(a, b) => seq![(a, ShaderOpType::Int32), (b, ShaderOpType::Int32)],
        ShaderOp::INeg(a)
        | ShaderOp::IAbs(a)
        | ShaderOp::ISign(a)
        | ShaderOp::INot(a)
        | ShaderOp::FCastInt32(a) => seq![(a, ShaderOpType::Int32)],
        ShaderOp::Lerp(a, b, c) => seq![(a, ShaderOpType::Float), (b, ShaderOpType::Float), (c, ShaderOpType::Float)],
        ShaderOp::BOr(a, b)
        | ShaderOp::BAnd(a, b)
        | ShaderOp::BXor(a, b) => seq![(a, ShaderOpType::Bool), (b, ShaderOpType::Bool)],
        ShaderOp::BNot(a) => seq![(a, ShaderOpType::Bool)],
        ShaderOp::ISelect(a, b, c) => seq![(a, ShaderOpType::Bool), (b, ShaderOpType::Int32), (c, ShaderOpType::Int32)],
        ShaderOp::FSelect(a, b, c) => seq![(a, ShaderOpType::Bool), (b, ShaderOpType::Float), (c, ShaderOpType::Float)],
        ShaderOp::BSelect(a, b, c) => seq![(a, ShaderOpType::Bool), (b, ShaderOpType::Bool), (c, ShaderOpType::Bool)],
        ShaderOp::TexSample(_, b, c, _, _) => seq![(b, ShaderOpType::Float), (c, ShaderOpType::Float)],
    }
}


impl ShaderOp {
    /// The output type of this operation.
    pub fn output_type(self) -> (t: ShaderOpType)
        ensures
            t == op_output_type(self),
    {
        match self {
            ShaderOp::FLit(_)
            | ShaderOp::ReadF32(_)
            | ShaderOp::PosX
            | ShaderOp::PosY
            | ShaderOp::ResX
            | ShaderOp::ResY
            | ShaderOp::QuadB
            | ShaderOp::QuadL
            | ShaderOp::QuadT
            | ShaderOp::QuadR
            | ShaderOp::FAdd(_, _)
            | ShaderOp::FSub(_, _)
            | ShaderOp::FMul(_, _)
            | ShaderOp::FDiv(_, _)
            | ShaderOp::FMod(_, _)
            | ShaderOp::FMin(_, _)
            | ShaderOp::FMax(_, _)
            | ShaderOp::FNeg(_)
            | ShaderOp::FAbs(_)
            | ShaderOp::FSign(_)
            | ShaderOp::Sin(_)
            | ShaderOp::Cos(_)
            | ShaderOp::Tan(_)
            | ShaderOp::Asin(_)
            | ShaderOp::Acos(_)
            | ShaderOp::Atan(_)
            | ShaderOp::Atan2(_, _)
            | ShaderOp::Pow(_, _)
            | ShaderOp::Sqrt(_)
            | ShaderOp::Ln(_)
            | ShaderOp::Exp(_)
            | ShaderOp::Floor(_)
            | ShaderOp::Lerp(_, _, _)
            | ShaderOp::DerivX(_)
            | ShaderOp::DerivY(_)
            | ShaderOp::FSelect(_, _, _)
            | ShaderOp::FCastInt32(_)
            | ShaderOp::TexSample(_, _, _, _, _) => ShaderOpType::Float,
            ShaderOp::ILit(_)
            | ShaderOp::ReadI32(_)
            | ShaderOp::ReadU16(_)
            | ShaderOp::ReadU8(_)
            | ShaderOp::IAdd(_, _)
            | ShaderOp::ISub(_, _)
            | ShaderOp::IMul(_, _)
            | ShaderOp::IDiv(_, _)
            | ShaderOp::IMod(_, _)
            | ShaderOp::IMin(_, _)
            | ShaderOp::IMax(_, _)
            | ShaderOp::INeg(_)
            | ShaderOp::IAbs(_)
            | ShaderOp::ISign(_)
            | ShaderOp::IOr(_, _)
            | ShaderOp::IAnd(_, _)
            | ShaderOp::IXor(_, _)
            | ShaderOp::IShl(_, _)
            | ShaderOp::IShr(_, _)
            | ShaderOp::INot(_)
            | ShaderOp::ISelect(_, _, _)
            | ShaderOp::ICastFloat(_)
            | ShaderOp::TexW(_)
            | ShaderOp::TexH(_) => ShaderOpType::Int32,
            ShaderOp::BLit(_)
            | ShaderOp::BOr(_, _)
            | ShaderOp::BAnd(_, _)
            | ShaderOp::BXor(_, _)
            | ShaderOp::BNot(_)
            | ShaderOp::IEq(_, _)
            | ShaderOp::INe(_, _)
            | ShaderOp::ILt(_, _)
            | ShaderOp::ILe(_, _)
            | ShaderOp::IGt(_, _)
            | ShaderOp::IGe(_, _)
            | ShaderOp::FEq(_, _)
            | ShaderOp::FNe(_, _)
            | ShaderOp::FLt(_, _)
            | ShaderOp::FLe(_, _)
            | ShaderOp::FGt(_, _)
            | ShaderOp::FGe(_, _)
            | ShaderOp::BSelect(_, _, _) => ShaderOpType::Bool,
        }
    }

    /// The operands of this operation, in order, each with the type it must have.
    pub fn visit_deps(self) -> (r: Vec<(u32, ShaderOpType)>)
        ensures
            r@ == op_inputs(self),
    {
        match self {
            ShaderOp::FLit(_)
            | ShaderOp::ILit(_)
            | ShaderOp::BLit(_)
            | ShaderOp::ReadF32(_)
            | ShaderOp::ReadI32(_)
            | ShaderOp::ReadU16(_)
            | ShaderOp::ReadU8(_)
            | ShaderOp::PosX
            | ShaderOp::PosY
            | ShaderOp::ResX
            | ShaderOp::ResY
            | ShaderOp::QuadB
            | ShaderOp::QuadL
            | ShaderOp::QuadT
            | ShaderOp::QuadR
            | ShaderOp::TexW(_)
            | ShaderOp::TexH(_) => vec![],
            ShaderOp::FAdd(a, b)
            | ShaderOp::FSub(a, b)
            | ShaderOp::FMul(a, b)
            | ShaderOp::FDiv(a, b)
            | ShaderOp::FMod(a, b)
            | ShaderOp::FMin(a, b)
            | ShaderOp::FMax(a, b)
            | ShaderOp::Atan2(a, b)
            | ShaderOp::Pow(a, b)
            | ShaderOp::FEq(a, b)
            | ShaderOp::FNe(a, b)
            | ShaderOp::FLt(a, b)
            | ShaderOp::FLe(a, b)
            | ShaderOp::FGt(a, b)
            | ShaderOp::FGe(a, b) => vec![(a, ShaderOpType::Float), (b, ShaderOpType::Float)],
            ShaderOp::FNeg(a)
            | ShaderOp::FAbs(a)
            | ShaderOp::FSign(a)
            | ShaderOp::Sin(a)
            | ShaderOp::Cos(a)
            | ShaderOp::Tan(a)
            | ShaderOp::Asin(a)
            | ShaderOp::Acos(a)
            | ShaderOp::Atan(a)
            | ShaderOp::Sqrt(a)
            | ShaderOp::Ln(a)
            | ShaderOp::Exp(a)
            | ShaderOp::Floor(a)
            | ShaderOp::DerivX(a)
            | ShaderOp::DerivY(a)
            | ShaderOp::ICastFloat(a) => vec![(a, ShaderOpType::Float)],
            ShaderOp::IAdd(a, b)
            | ShaderOp::ISub(a, b)
            | ShaderOp::IMul(a, b)
            | ShaderOp::IDiv(a, b)
            | ShaderOp::IMod(a, b)
            | ShaderOp::IMin(a, b)
            | ShaderOp::IMax(a, b)
            | ShaderOp::IOr(a, b)
            | ShaderOp::IAnd(a, b)
            | ShaderOp::IXor(a, b)
            | ShaderOp::IShl(a, b)
            | ShaderOp::IShr(a, b)
            | ShaderOp::IEq(a, b)
            | ShaderOp::INe(a, b)
            | ShaderOp::ILt(a, b)
            | ShaderOp::ILe(a, b)
            | ShaderOp::IGt(a, b)
            | ShaderOp::IGe(a, b) => vec![(a, ShaderOpType::Int32), (b, ShaderOpType::Int32)],
            ShaderOp::INeg(a)
            | ShaderOp::IAbs(a)
            | ShaderOp::ISign(a)
            | ShaderOp::INot(a)
            | ShaderOp::FCastInt32(a) => vec![(a, ShaderOpType::Int32)],
            ShaderOp::Lerp(a, b, c) => vec![(a, ShaderOpType::Float), (b, ShaderOpType::Float), (c, ShaderOpType::Float)],
            ShaderOp::BOr(a, b)
            | ShaderOp::BAnd(a, b)
            | ShaderOp::BXor(a, b) => vec![(a, ShaderOpType::Bool), (b, ShaderOpType::Bool)],
            ShaderOp::BNot(a) => vec![(a, ShaderOpType::Bool)],
            ShaderOp::ISelect(a, b, c) => vec![(a, ShaderOpType::Bool), (b, ShaderOpType::Int32), (c, ShaderOpType::Int32)],
            ShaderOp::FSelect(a, b, c) => vec![(a, ShaderOpType::Bool), (b, ShaderOpType::Float), (c, ShaderOpType::Float)],
            ShaderOp::BSelect(a, b, c) => vec![(a, ShaderOpType::Bool), (b, ShaderOpType::Bool), (c, ShaderOpType::Bool)],
            ShaderOp::TexSample(_, b, c, _, _) => vec![(b, ShaderOpType::Float), (c, ShaderOpType::Float)],
        }
    }

    /// Checks the operands of this operation, in order, against `types`, the
    /// output types of the operations before it, and stops at the first one
    /// that does not name a value of the type it must have.
    pub fn try_visit_deps(self, types: &[ShaderOpType]) -> (r: Result<(), OperandMismatch>)
        ensures
            r is Ok <==> inputs_fit(self, types@),
            r matches Err(e) ==> exists|j: int| {
                &&& 0 <= j < op_inputs(self).len()
                &&& !input_fits(self, types@, j)
                &&& forall|k: int| 0 <= k < j ==> #[trigger] input_fits(self, types@, k)
                &&& e == (OperandMismatch {
                    operand: op_inputs(self)[j].0,
                    expected: op_inputs(self)[j].1,
                    found: type_at(types@, op_inputs(self)[j].0),
                })
            },
    {
        let deps = self.visit_deps();
        let mut j: usize = 0;
        while j < deps.len()
            invariant
                deps@ == op_inputs(self),
                j <= deps@.len(),
                forall|k: int| 0 <= k < j ==> #[trigger] input_fits(self, types@, k),
            decreases deps@.len() - j,
        {
            let (operand, expected) = deps[j];
            let found = if (operand as usize) < types.len() { Some(types[operand as usize]) } else { None };
            let fits = match found {
                Some(t) => t == expected,
                None => false,
            };
            if !fits {
                proof {
                    assert(!input_fits(self, types@, j as int));
                }
                return Err(OperandMismatch { operand, expected, found });
            }
            j += 1;
        }
        Ok(())
    }
}

/// A shader: a list of operations, each reading only the operations before it,
/// and the four float operands that give its RGBA output.
pub struct ShaderData {
    nodes: Vec<ShaderOp>,
    output: [OpFloat; 4],
}

/// Builds a [`ShaderData`] one operation at a time.
pub struct ShaderBuilder {
    nodes: Vec<ShaderOp>,
}

/// A copy of `nodes`.
fn copy_nodes(nodes: &Vec<ShaderOp>) -> (r: Vec<ShaderOp>)
    ensures
        r@ == nodes@,
{
    let mut r: Vec<ShaderOp> = Vec::new();
    let mut i: usize = 0;
    while i < nodes.len()
        invariant
            i <= nodes@.len(),
            r@ == nodes@.take(i as int),
        decreases nodes@.len() - i,
    {
        proof {
            assert(nodes@.take(i as int + 1) =~= nodes@.take(i as int).push(nodes@[i as int]));
        }
        r.push(nodes[i]);
        i += 1;
    }
    proof {
        assert(nodes@.take(i as int) =~= nodes@);
    }
    r
}

impl Clone for ShaderData {
    fn clone(&self) -> (r: Self)
        ensures
            r@ == self@,
            r.outputs() == self.outputs(),
    {
        proof {
            use_type_invariant(self);
        }
        ShaderData { nodes: copy_nodes(&self.nodes), output: self.output }
    }
}

impl Clone for ShaderBuilder {
    fn clone(&self) -> (r: Self)
        ensures
            r@ == self@,
    {
        proof {
            use_type_invariant(self);
        }
        ShaderBuilder { nodes: copy_nodes(&self.nodes) }
    }
}

impl View for ShaderBuilder {
    type V = Seq<ShaderOp>;

    closed spec fn view(&self) -> Seq<ShaderOp> {
        self.nodes@
    }
}

impl View for ShaderData {
    type V = Seq<ShaderOp>;

    closed spec fn view(&self) -> Seq<ShaderOp> {
        self.nodes@
    }
}

impl ShaderData {
    /// The RGBA output operands.
    pub closed spec fn outputs(&self) -> Seq<u32> {
        self.output@
    }

    /// Every operation reads only earlier operations of the right type, and
    /// the outputs are float operations.
    pub open spec fn wf(&self) -> bool {
        &&& well_formed_nodes(self@)
        &&& self@.len() <= u32::MAX
        &&& self.outputs().len() == 4
        &&& forall|k: int| 0 <= k < 4 ==> #[trigger] is_float_operand(self@, self.outputs()[k])
    }

    /// Every shader satisfies [`ShaderData::wf`].
    #[verifier::type_invariant]
    pub open spec fn data_invariant(self) -> bool {
        self.wf()
    }
}

impl ShaderBuilder {
    /// Every builder holds a well-formed list of at most `u32::MAX` operations.
    #[verifier::type_invariant]
    pub open spec fn builder_invariant(self) -> bool {
        &&& well_formed_nodes(self@)
        &&& self@.len() <= u32::MAX
    }
}

/// Adding an operation whose operands name earlier values of the types it
/// expects keeps every operation's operands earlier and well typed.
pub proof fn lemma_push_keeps_well_formed(nodes: Seq<ShaderOp>, op: ShaderOp)
    requires
        well_formed_nodes(nodes),
        inputs_fit(op, output_types(nodes)),
    ensures
        well_formed_nodes(nodes.push(op)),
{
    let n = nodes.push(op);
    assert forall|i: int| 0 <= i < n.len() implies #[trigger] inputs_fit(n[i], output_types(n.take(i))) by {
        if i < nodes.len() {
            assert(n.take(i) =~= nodes.take(i));
            assert(inputs_fit(nodes[i], output_types(nodes.take(i))));
        } else {
            assert(n.take(i) =~= nodes);
        }
    }
}

/// What [`ShaderBuilder::add`] records is what [`ShaderBuilder::get`] gives
/// back at the index `add` returned, however many operations are added after
/// it: adding only appends, and that index stays below the number of
/// operations, the bound below which `get` answers.
pub proof fn lemma_get_after_add(before: Seq<ShaderOp>, op: ShaderOp, later: Seq<ShaderOp>)
    ensures
        before.len() < (before.push(op) + later).len(),
        (before.push(op) + later)[before.len() as int] == op,
{
    assert((before.push(op) + later)[before.len() as int] == before.push(op)[before.len() as int]);
}

impl ShaderBuilder {
    /// An empty builder.
    pub fn new() -> (b: Self)
        ensures
            b@ == Seq::<ShaderOp>::empty(),
    {
        let b = ShaderBuilder { nodes: Vec::new() };
        assert(well_formed_nodes(b.nodes@));
        b
    }

    /// The output types of the operations added so far, in order.
    pub fn output_types(&self) -> (r: Vec<ShaderOpType>)
        ensures
            r@ == output_types(self@),
    {
        let mut r: Vec<ShaderOpType> = Vec::new();
        let mut i: usize = 0;
        while i < self.nodes.len()
            invariant
                i <= self.nodes@.len(),
                r@ == output_types(self.nodes@.take(i as int)),
            decreases self.nodes@.len() - i,
        {
            proof {
                assert(self.nodes@.take(i as int + 1) =~= self.nodes@.take(i as int).push(self.nodes@[i as int]));
            }
            r.push(self.nodes[i].output_type());
            proof {
                assert(r@ =~= output_types(self.nodes@.take(i as int + 1)));
            }
            i += 1;
        }
        proof {
            assert(self.nodes@.take(i as int) =~= self.nodes@);
        }
        r
    }

    /// Adds an operation and returns the operand that names its value.
    ///
    /// An operation whose operands do not name earlier values of the types it
    /// expects panics; it is left out here.
    pub fn add(&mut self, op: ShaderOp) -> (id: u32)
        requires
            inputs_fit(op, output_types(old(self)@)),
            old(self)@.len() < u32::MAX,
        ensures
            final(self)@ == old(self)@.push(op),
            id == old(self)@.len(),
    {
        proof {
            use_type_invariant(&*self);
            lemma_push_keeps_well_formed(self.nodes@, op);
        }
        let id = self.nodes.len() as u32;
        let mut nodes: Vec<ShaderOp> = Vec::new();
        assert(well_formed_nodes(nodes@));
        std::mem::swap(&mut nodes, &mut self.nodes);
        nodes.push(op);
        self.nodes = nodes;
        id
    }

    /// Adds an operation after checking its operands, or reports the first
    /// operand that does not name an earlier value of the type it expects.
    pub fn try_add(&mut self, op: ShaderOp) -> (r: Result<u32, OperandMismatch>)
        requires
            old(self)@.len() < u32::MAX,
        ensures
            r is Ok <==> inputs_fit(op, output_types(old(self)@)),
            r matches Ok(id) ==> final(self)@ == old(self)@.push(op) && id == old(self)@.len(),
            r is Err ==> final(self)@ == old(self)@,
    {
        let types = self.output_types();
        match op.try_visit_deps(types.as_slice()) {
            Ok(()) => Ok(self.add(op)),
            Err(e) => Err(e),
        }
    }

    /// The operation at `index`.
    ///
    /// An index past the end panics; it is left out here.
    pub fn get(&self, index: u32) -> (op: ShaderOp)
        requires
            index < self@.len(),
        ensures
            op == self@[index as int],
    {
        self.nodes[index as usize]
    }

    /// Number of operations added so far.
    pub fn len(&self) -> (n: usize)
        ensures
            n == self@.len(),
    {
        self.nodes.len()
    }

    /// Finishes the shader with the given RGBA output operands.
    ///
    /// Outputs that are not float operations panic; they are left out here.
    pub fn finish(self, output: [OpFloat; 4]) -> (data: ShaderData)
        requires
            forall|k: int| 0 <= k < 4 ==> #[trigger] is_float_operand(self@, output@[k]),
        ensures
            data@ == self@,
            data.outputs() == output@,
    {
        proof {
            use_type_invariant(&self);
        }
        ShaderData { nodes: self.nodes, output }
    }
}

impl ShaderData {
    /// Total number of operations.
    pub fn len(&self) -> (n: u32)
        requires
            self@.len() <= u32::MAX,
        ensures
            n == self@.len(),
    {
        self.nodes.len() as u32
    }

    /// Whether there are no operations.
    pub fn is_empty(&self) -> (b: bool)
        ensures
            b == (self@.len() == 0),
    {
        self.nodes.len() == 0
    }

    /// The RGBA output operands.
    pub fn output(&self) -> (o: [OpFloat; 4])
        ensures
            o@ == self.outputs(),
    {
        self.output
    }

    /// The operation at `index`.
    ///
    /// An index past the end panics; it is left out here.
    pub fn get(&self, index: u32) -> (op: ShaderOp)
        requires
            index < self@.len(),
        ensures
            op == self@[index as int],
    {
        self.nodes[index as usize]
    }

    /// All operations with their indices, in order.
    pub fn iter(&self) -> (r: Vec<(u32, ShaderOp)>)
        requires
            self@.len() <= u32::MAX,
        ensures
            r@.len() == self@.len(),
            forall|i: int| 0 <= i < r@.len() ==> #[trigger] r@[i] == (i as u32, self@[i]),
    {
        let mut r: Vec<(u32, ShaderOp)> = Vec::new();
        let mut i: usize = 0;
        while i < self.nodes.len()
            invariant
                i <= self.nodes@.len() <= u32::MAX,
                r@.len() == i,
                forall|k: int| 0 <= k < i ==> #[trigger] r@[k] == (k as u32, self.nodes@[k]),
            decreases self.nodes@.len() - i,
        {
            r.push((i as u32, self.nodes[i]));
            i += 1;
        }
        r
    }
}

/// What the shader operations take and give: float arithmetic and functions
/// take and give floats, integer arithmetic and bit operations take and give
/// integers, comparisons give booleans of operands of one type, logical
/// operations take and give booleans, casts change between floats and
/// integers, and a selection picks between two values of one type by a boolean.
pub proof fn lemma_op_types(a: u32, b: u32, c: u32)
    ensures
        op_output_type(ShaderOp::FAdd(a, b)) == ShaderOpType::Float && op_inputs(ShaderOp::FAdd(a, b)) == seq![(a, ShaderOpType::Float), (b, ShaderOpType::Float)],
        op_output_type(ShaderOp::FSub(a, b)) == ShaderOpType::Float && op_inputs(ShaderOp::FSub(a, b)) == seq![(a, ShaderOpType::Float), (b, ShaderOpType::Float)],
        op_output_type(ShaderOp::FMul(a, b)) == ShaderOpType::Float && op_inputs(ShaderOp::FMul(a, b)) == seq![(a, ShaderOpType::Float), (b, ShaderOpType::Float)],
        op_output_type(ShaderOp::FDiv(a, b)) == ShaderOpType::Float && op_inputs(ShaderOp::FDiv(a, b)) == seq![(a, ShaderOpType::Float), (b, ShaderOpType::Float)],
        op_output_type(ShaderOp::FMod(a, b)) == ShaderOpType::Float && op_inputs(ShaderOp::FMod(a, b)) == seq![(a, ShaderOpType::Float), (b, ShaderOpType::Float)],
        op_output_type(ShaderOp::FMin(a, b)) == ShaderOpType::Float && op_inputs(ShaderOp::FMin(a, b)) == seq![(a, ShaderOpType::Float), (b, ShaderOpType::Float)],
        op_output_type(ShaderOp::FMax(a, b)) == ShaderOpType::Float && op_inputs(ShaderOp::FMax(a, b)) == seq![(a, ShaderOpType::Float), (b, ShaderOpType::Float)],
        op_output_type(ShaderOp::Atan2(a, b)) == ShaderOpType::Float && op_inputs(ShaderOp::Atan2(a, b)) == seq![(a, ShaderOpType::Float), (b, ShaderOpType::Float)],
        op_output_type(ShaderOp::Pow(a, b)) == ShaderOpType::Float && op_inputs(ShaderOp::Pow(a, b)) == seq![(a, ShaderOpType::Float), (b, ShaderOpType::Float)],
        op_output_type(ShaderOp::IAdd(a, b)) == ShaderOpType::Int32 && op_inputs(ShaderOp::IAdd(a, b)) == seq![(a, ShaderOpType::Int32), (b, ShaderOpType::Int32)],
        op_output_type(ShaderOp::ISub(a, b)) == ShaderOpType::Int32 && op_inputs(ShaderOp::ISub(a, b)) == seq![(a, ShaderOpType::Int32), (b, ShaderOpType::Int32)],
        op_output_type(ShaderOp::IMul(a, b)) == ShaderOpType::Int32 && op_inputs(ShaderOp::IMul(a, b)) == seq![(a, ShaderOpType::Int32), (b, ShaderOpType::Int32)],
        op_output_type(ShaderOp::IDiv(a, b)) == ShaderOpType::Int32 && op_inputs(ShaderOp::IDiv(a, b)) == seq![(a, ShaderOpType::Int32), (b, ShaderOpType::Int32)],
        op_output_type(ShaderOp::IMod(a, b)) == ShaderOpType::Int32 && op_inputs(ShaderOp::IMod(a, b)) == seq![(a, ShaderOpType::Int32), (b, ShaderOpType::Int32)],
        op_output_type(ShaderOp::IMin(a, b)) == ShaderOpType::Int32 && op_inputs(ShaderOp::IMin(a, b)) == seq![(a, ShaderOpType::Int32), (b, ShaderOpType::Int32)],
        op_output_type(ShaderOp::IMax(a, b)) == ShaderOpType::Int32 && op_inputs(ShaderOp::IMax(a, b)) == seq![(a, ShaderOpType::Int32), (b, ShaderOpType::Int32)],
        op_output_type(ShaderOp::IOr(a, b)) == ShaderOpType::Int32 && op_inputs(ShaderOp::IOr(a, b)) == seq![(a, ShaderOpType::Int32), (b, ShaderOpType::Int32)],
        op_output_type(ShaderOp::IAnd(a, b)) == ShaderOpType::Int32 && op_inputs(ShaderOp::IAnd(a, b)) == seq![(a, ShaderOpType::Int32), (b, ShaderOpType::Int32)],
        op_output_type(ShaderOp::IXor(a, b)) == ShaderOpType::Int32 && op_inputs(ShaderOp::IXor(a, b)) == seq![(a, ShaderOpType::Int32), (b, ShaderOpType::Int32)],
        op_output_type(ShaderOp::IShl(a, b)) == ShaderOpType::Int32 && op_inputs(ShaderOp::IShl(a, b)) == seq![(a, ShaderOpType::Int32), (b, ShaderOpType::Int32)],
        op_output_type(ShaderOp::IShr(a, b)) == ShaderOpType::Int32 && op_inputs(ShaderOp::IShr(a, b)) == seq![(a, ShaderOpType::Int32), (b, ShaderOpType::Int32)],
        op_output_type(ShaderOp::FEq(a, b)) == ShaderOpType::Bool && op_inputs(ShaderOp::FEq(a, b)) == seq![(a, ShaderOpType::Float), (b, ShaderOpType::Float)],
        op_output_type(ShaderOp::FNe(a, b)) == ShaderOpType::Bool && op_inputs(ShaderOp::FNe(a, b)) == seq![(a, ShaderOpType::Float), (b, ShaderOpType::Float)],
        op_output_type(ShaderOp::FLt(a, b)) == ShaderOpType::Bool && op_inputs(ShaderOp::FLt(a, b)) == seq![(a, ShaderOpType::Float), (b, ShaderOpType::Float)],
        op_output_type(ShaderOp::FLe(a, b)) == ShaderOpType::Bool && op_inputs(ShaderOp::FLe(a, b)) == seq![(a, ShaderOpType::Float), (b, ShaderOpType::Float)],
        op_output_type(ShaderOp::FGt(a, b)) == ShaderOpType::Bool && op_inputs(ShaderOp::FGt(a, b)) == seq![(a, ShaderOpType::Float), (b, ShaderOpType::Float)],
        op_output_type(ShaderOp::FGe(a, b)) == ShaderOpType::Bool && op_inputs(ShaderOp::FGe(a, b)) == seq![(a, ShaderOpType::Float), (b, ShaderOpType::Float)],
        op_output_type(ShaderOp::IEq(a, b)) == ShaderOpType::Bool && op_inputs(ShaderOp::IEq(a, b)) == seq![(a, ShaderOpType::Int32), (b, ShaderOpType::Int32)],
        op_output_type(ShaderOp::INe(a, b)) == ShaderOpType::Bool && op_inputs(ShaderOp::INe(a, b)) == seq![(a, ShaderOpType::Int32), (b, ShaderOpType::Int32)],
        op_output_type(ShaderOp::ILt(a, b)) == ShaderOpType::Bool && op_inputs(ShaderOp::ILt(a, b)) == seq![(a, ShaderOpType::Int32), (b, ShaderOpType::Int32)],
        op_output_type(ShaderOp::ILe(a, b)) == ShaderOpType::Bool && op_inputs(ShaderOp::ILe(a, b)) == seq![(a, ShaderOpType::Int32), (b, ShaderOpType::Int32)],
        op_output_type(ShaderOp::IGt(a, b)) == ShaderOpType::Bool && op_inputs(ShaderOp::IGt(a, b)) == seq![(a, ShaderOpType::Int32), (b, ShaderOpType::Int32)],
        op_output_type(ShaderOp::IGe(a, b)) == ShaderOpType::Bool && op_inputs(ShaderOp::IGe(a, b)) == seq![(a, ShaderOpType::Int32), (b, ShaderOpType::Int32)],
        op_output_type(ShaderOp::BOr(a, b)) == ShaderOpType::Bool && op_inputs(ShaderOp::BOr(a, b)) == seq![(a, ShaderOpType::Bool), (b, ShaderOpType::Bool)],
        op_output_type(ShaderOp::BAnd(a, b)) == ShaderOpType::Bool && op_inputs(ShaderOp::BAnd(a, b)) == seq![(a, ShaderOpType::Bool), (b, ShaderOpType::Bool)],
        op_output_type(ShaderOp::BXor(a, b)) == ShaderOpType::Bool && op_inputs(ShaderOp::BXor(a, b)) == seq![(a, ShaderOpType::Bool), (b, ShaderOpType::Bool)],
        op_output_type(ShaderOp::FNeg(a)) == ShaderOpType::Float && op_inputs(ShaderOp::FNeg(a)) == seq![(a, ShaderOpType::Float)],
        op_output_type(ShaderOp::FAbs(a)) == ShaderOpType::Float && op_inputs(ShaderOp::FAbs(a)) == seq![(a, ShaderOpType::Float)],
        op_output_type(ShaderOp::FSign(a)) == ShaderOpType::Float && op_inputs(ShaderOp::FSign(a)) == seq![(a, ShaderOpType::Float)],
        op_output_type(ShaderOp::Sin(a)) == ShaderOpType::Float && op_inputs(ShaderOp::Sin(a)) == seq![(a, ShaderOpType::Float)],
        op_output_type(ShaderOp::Cos(a)) == ShaderOpType::Float && op_inputs(ShaderOp::Cos(a)) == seq![(a, ShaderOpType::Float)],
        op_output_type(ShaderOp::Tan(a)) == ShaderOpType::Float && op_inputs(ShaderOp::Tan(a)) == seq![(a, ShaderOpType::Float)],
        op_output_type(ShaderOp::Asin(a)) == ShaderOpType::Float && op_inputs(ShaderOp::Asin(a)) == seq![(a, ShaderOpType::Float)],
        op_output_type(ShaderOp::Acos(a)) == ShaderOpType::Float && op_inputs(ShaderOp::Acos(a)) == seq![(a, ShaderOpType::Float)],
        op_output_type(ShaderOp::Atan(a)) == ShaderOpType::Float && op_inputs(ShaderOp::Atan(a)) == seq![(a, ShaderOpType::Float)],
        op_output_type(ShaderOp::Sqrt(a)) == ShaderOpType::Float && op_inputs(ShaderOp::Sqrt(a)) == seq![(a, ShaderOpType::Float)],
        op_output_type(ShaderOp::Ln(a)) == ShaderOpType::Float && op_inputs(ShaderOp::Ln(a)) == seq![(a, ShaderOpType::Float)],
        op_output_type(ShaderOp::Exp(a)) == ShaderOpType::Float && op_inputs(ShaderOp::Exp(a)) == seq![(a, ShaderOpType::Float)],
        op_output_type(ShaderOp::Floor(a)) == ShaderOpType::Float && op_inputs(ShaderOp::Floor(a)) == seq![(a, ShaderOpType::Float)],
        op_output_type(ShaderOp::DerivX(a)) == ShaderOpType::Float && op_inputs(ShaderOp::DerivX(a)) == seq![(a, ShaderOpType::Float)],
        op_output_type(ShaderOp::DerivY(a)) == ShaderOpType::Float && op_inputs(ShaderOp::DerivY(a)) == seq![(a, ShaderOpType::Float)],
        op_output_type(ShaderOp::INeg(a)) == ShaderOpType::Int32 && op_inputs(ShaderOp::INeg(a)) == seq![(a, ShaderOpType::Int32)],
        op_output_type(ShaderOp::IAbs(a)) == ShaderOpType::Int32 && op_inputs(ShaderOp::IAbs(a)) == seq![(a, ShaderOpType::Int32)],
        op_output_type(ShaderOp::ISign(a)) == ShaderOpType::Int32 && op_inputs(ShaderOp::ISign(a)) == seq![(a, ShaderOpType::Int32)],
        op_output_type(ShaderOp::INot(a)) == ShaderOpType::Int32 && op_inputs(ShaderOp::INot(a)) == seq![(a, ShaderOpType::Int32)],
        op_output_type(ShaderOp::BNot(a)) == ShaderOpType::Bool && op_inputs(ShaderOp::BNot(a)) == seq![(a, ShaderOpType::Bool)],
        op_output_type(ShaderOp::FCastInt32(a)) == ShaderOpType::Float && op_inputs(ShaderOp::FCastInt32(a)) == seq![(a, ShaderOpType::Int32)],
        op_output_type(ShaderOp::ICastFloat(a)) == ShaderOpType::Int32 && op_inputs(ShaderOp::ICastFloat(a)) == seq![(a, ShaderOpType::Float)],
        op_output_type(ShaderOp::Lerp(a, b, c)) == ShaderOpType::Float && op_inputs(ShaderOp::Lerp(a, b, c)) == seq![(a, ShaderOpType::Float), (b, ShaderOpType::Float), (c, ShaderOpType::Float)],
        op_output_type(ShaderOp::FSelect(a, b, c)) == ShaderOpType::Float && op_inputs(ShaderOp::FSelect(a, b, c)) == seq![(a, ShaderOpType::Bool), (b, ShaderOpType::Float), (c, ShaderOpType::Float)],
        op_output_type(ShaderOp::ISelect(a, b, c)) == ShaderOpType::Int32 && op_inputs(ShaderOp::ISelect(a, b, c)) == seq![(a, ShaderOpType::Bool), (b, ShaderOpType::Int32), (c, ShaderOpType::Int32)],
        op_output_type(ShaderOp::BSelect(a, b, c)) == ShaderOpType::Bool && op_inputs(ShaderOp::BSelect(a, b, c)) == seq![(a, ShaderOpType::Bool), (b, ShaderOpType::Bool), (c, ShaderOpType::Bool)],
{
}

} // verus!
