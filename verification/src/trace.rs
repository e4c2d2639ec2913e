//! Recording shader graphs: values of the types below stand for operations
//! of a [`ShaderBuilder`], and each method on them adds the operations that
//! compute its result.

#![allow(non_camel_case_types)]

use vstd::prelude::*;
use crate::shader::{ShaderBuilder, ShaderOp, ShaderOpType, is_float_operand};
use crate::texture::{TextureChannel, TextureFilter};

verus! {

/// The operand that the operation `k` places after the end of `nodes` gets.
pub open spec fn next_id(nodes: Seq<ShaderOp>, k: int) -> u32 {
    (nodes.len() + k) as u32
}

/// The operand `id` names an operation of `nodes` of type `ty`.
pub open spec fn operand_of(nodes: Seq<ShaderOp>, id: u32, ty: ShaderOpType) -> bool {
    id < nodes.len() && crate::shader::op_output_type(nodes[id as int]) == ty
}

/// A value recorded in a shader.
pub trait Traced: Copy {
    /// The value names operations of `nodes` of the right types.
    spec fn valid_in(&self, nodes: Seq<ShaderOp>) -> bool;
}

/// Values that can be blended, or chosen between, by a selector of type `T`.
pub trait Lerp<T: Traced>: Traced + Sized {
    /// How many operations blending two values adds.
    spec fn width() -> nat;

    /// The operations that blending `start` and `end` by `sel` adds after `n` operations.
    spec fn lerp_ops(sel: T, start: Self, end: Self, n: nat) -> Seq<ShaderOp>;

    /// The value that blending `start` and `end` by `sel` gives after `n` operations.
    spec fn lerp_result(sel: T, start: Self, end: Self, n: nat) -> Self;

    /// Blends (for a float selector) or chooses between (for a boolean
    /// selector) `start` and `end`.
    fn lerp(sel: T, start: Self, end: Self, b: &mut ShaderBuilder) -> (r: Self)
        requires
            sel.valid_in(old(b)@),
            start.valid_in(old(b)@),
            end.valid_in(old(b)@),
            old(b)@.len() + Self::width() <= u32::MAX,
        ensures
            final(b)@ == old(b)@ + Self::lerp_ops(sel, start, end, old(b)@.len()),
            r == Self::lerp_result(sel, start, end, old(b)@.len()),
            r.valid_in(final(b)@),
    ;
}

/// A recorded integer value.
#[derive(Debug, Clone, Copy, PartialEq, Eq, Structural)]
pub struct int1(pub u32);

/// A recorded float value.
#[derive(Debug, Clone, Copy, PartialEq, Eq, Structural)]
pub struct float1(pub u32);

/// A recorded boolean value.
#[derive(Debug, Clone, Copy, PartialEq, Eq, Structural)]
pub struct boolean(pub u32);

/// A recorded vector of two floats.
#[derive(Debug, Clone, Copy, PartialEq, Eq, Structural)]
pub struct float2 {
    pub x: float1,
    pub y: float1,
}

/// A recorded vector of three floats.
#[derive(Debug, Clone, Copy, PartialEq, Eq, Structural)]
pub struct float3 {
    pub x: float1,
    pub y: float1,
    pub z: float1,
}

/// A recorded vector of four floats.
#[derive(Debug, Clone, Copy, PartialEq, Eq, Structural)]
pub struct float4 {
    pub x: float1,
    pub y: float1,
    pub z: float1,
    pub w: float1,
}

/// A texture slot of the object being drawn.
#[derive(Debug, Clone, Copy, PartialEq, Eq, Structural)]
pub struct texture2d(pub u32);

impl Traced for int1 {
    open spec fn valid_in(&self, nodes: Seq<ShaderOp>) -> bool {
        operand_of(nodes, self.0, ShaderOpType::Int32)
    }
}

impl Traced for float1 {
    open spec fn valid_in(&self, nodes: Seq<ShaderOp>) -> bool {
        operand_of(nodes, self.0, ShaderOpType::Float)
    }
}

impl Traced for boolean {
    open spec fn valid_in(&self, nodes: Seq<ShaderOp>) -> bool {
        operand_of(nodes, self.0, ShaderOpType::Bool)
    }
}

impl Traced for float2 {
    open spec fn valid_in(&self, nodes: Seq<ShaderOp>) -> bool {
        self.x.valid_in(nodes) && self.y.valid_in(nodes)
    }
}

impl Traced for float3 {
    open spec fn valid_in(&self, nodes: Seq<ShaderOp>) -> bool {
        self.x.valid_in(nodes) && self.y.valid_in(nodes) && self.z.valid_in(nodes)
    }
}

impl Traced for float4 {
    open spec fn valid_in(&self, nodes: Seq<ShaderOp>) -> bool {
        self.x.valid_in(nodes) && self.y.valid_in(nodes) && self.z.valid_in(nodes) && self.w.valid_in(nodes)
    }
}

impl Traced for texture2d {
    open spec fn valid_in(&self, nodes: Seq<ShaderOp>) -> bool {
        true
    }
}

impl int1 {
    /// The operand naming this value.
    pub fn id(self) -> (r: u32)
        ensures
            r == self.0,
    {
        self.0
    }

    /// An integer constant.
    pub fn from_i32(value: i32, b: &mut ShaderBuilder) -> (r: int1)
        requires
            old(b)@.len() < u32::MAX,
        ensures
            final(b)@ == old(b)@.push(ShaderOp::ILit(value)),
            r == int1(next_id(old(b)@, 0)),
            r.valid_in(final(b)@),
    {
        int1(b.add(ShaderOp::ILit(value)))
    }

    /// Converts a float to an integer.
    pub fn from_float(value: float1, b: &mut ShaderBuilder) -> (r: int1)
        requires
            value.valid_in(old(b)@),
            old(b)@.len() < u32::MAX,
        ensures
            final(b)@ == old(b)@.push(ShaderOp::ICastFloat(value.0)),
            r == int1(next_id(old(b)@, 0)),
            r.valid_in(final(b)@),
    {
        int1(b.add(ShaderOp::ICastFloat(value.0)))
    }

    /// If this integer is a literal, returns its value. Otherwise, returns None.
    ///
    /// This is mainly useful for optimization purposes,
    /// like implementing a separate code path if the value is known at compile time.
    pub fn as_lit(&self, b: &ShaderBuilder) -> (r: Option<i32>)
        requires
            self.0 < b@.len(),
        ensures
            r == (match b@[self.0 as int] {
                ShaderOp::ILit(v) => Some(v),
                _ => None,
            }),
    {
        match b.get(self.0) {
            ShaderOp::ILit(v) => Some(v),
            _ => None,
        }
    }

    /// Read an unsigned 8-bit integer from the given byte offset in the object's data buffer.
    pub fn read_u8(offset: u32, b: &mut ShaderBuilder) -> (r: int1)
        requires
            old(b)@.len() < u32::MAX,
        ensures
            final(b)@ == old(b)@.push(ShaderOp::ReadU8(offset)),
            r == int1(next_id(old(b)@, 0)),
            r.valid_in(final(b)@),
    {
        int1(b.add(ShaderOp::ReadU8(offset)))
    }

    /// Read an unsigned 16-bit integer from the given byte offset in the object's data buffer.
    ///
    /// # Panics
    /// An offset that is not 2-byte aligned panics; it is left out here.
    pub fn read_u16(offset: u32, b: &mut ShaderBuilder) -> (r: int1)
        requires
            offset % 2 == 0,
            old(b)@.len() < u32::MAX,
        ensures
            final(b)@ == old(b)@.push(ShaderOp::ReadU16(offset / 2)),
            r == int1(next_id(old(b)@, 0)),
            r.valid_in(final(b)@),
    {
        int1(b.add(ShaderOp::ReadU16(offset / 2)))
    }

    /// Read a signed 32-bit integer from the given byte offset in the object's data buffer.
    ///
    /// # Panics
    /// An offset that is not 4-byte aligned panics; it is left out here.
    pub fn read_i32(offset: u32, b: &mut ShaderBuilder) -> (r: int1)
        requires
            offset % 4 == 0,
            old(b)@.len() < u32::MAX,
        ensures
            final(b)@ == old(b)@.push(ShaderOp::ReadI32(offset / 4)),
            r == int1(next_id(old(b)@, 0)),
            r.valid_in(final(b)@),
    {
        int1(b.add(ShaderOp::ReadI32(offset / 4)))
    }

    /// Get the remainder of the division, never negative.
    pub fn rem_euclid(self, rhs: int1, b: &mut ShaderBuilder) -> (r: int1)
        requires
            self.valid_in(old(b)@),
            rhs.valid_in(old(b)@),
            old(b)@.len() < u32::MAX,
        ensures
            final(b)@ == old(b)@.push(ShaderOp::IMod(self.0, rhs.0)),
            r == int1(next_id(old(b)@, 0)),
            r.valid_in(final(b)@),
    {
        int1(b.add(ShaderOp::IMod(self.0, rhs.0)))
    }

    /// Get the smallest of two values.
    pub fn min(self, rhs: int1, b: &mut ShaderBuilder) -> (r: int1)
        requires
            self.valid_in(old(b)@),
            rhs.valid_in(old(b)@),
            old(b)@.len() < u32::MAX,
        ensures
            final(b)@ == old(b)@.push(ShaderOp::IMin(self.0, rhs.0)),
            r == int1(next_id(old(b)@, 0)),
            r.valid_in(final(b)@),
    {
        int1(b.add(ShaderOp::IMin(self.0, rhs.0)))
    }

    /// Get the largest of two values.
    pub fn max(self, rhs: int1, b: &mut ShaderBuilder) -> (r: int1)
        requires
            self.valid_in(old(b)@),
            rhs.valid_in(old(b)@),
            old(b)@.len() < u32::MAX,
        ensures
            final(b)@ == old(b)@.push(ShaderOp::IMax(self.0, rhs.0)),
            r == int1(next_id(old(b)@, 0)),
            r.valid_in(final(b)@),
    {
        int1(b.add(ShaderOp::IMax(self.0, rhs.0)))
    }

    /// Sum, wrapping on overflow.
    pub fn add(self, rhs: int1, b: &mut ShaderBuilder) -> (r: int1)
        requires
            self.valid_in(old(b)@),
            rhs.valid_in(old(b)@),
            old(b)@.len() < u32::MAX,
        ensures
            final(b)@ == old(b)@.push(ShaderOp::IAdd(self.0, rhs.0)),
            r == int1(next_id(old(b)@, 0)),
            r.valid_in(final(b)@),
    {
        int1(b.add(ShaderOp::IAdd(self.0, rhs.0)))
    }

    /// Difference, wrapping on overflow.
    pub fn sub(self, rhs: int1, b: &mut ShaderBuilder) -> (r: int1)
        requires
            self.valid_in(old(b)@),
            rhs.valid_in(old(b)@),
            old(b)@.len() < u32::MAX,
        ensures
            final(b)@ == old(b)@.push(ShaderOp::ISub(self.0, rhs.0)),
            r == int1(next_id(old(b)@, 0)),
            r.valid_in(final(b)@),
    {
        int1(b.add(ShaderOp::ISub(self.0, rhs.0)))
    }

    /// Product, wrapping on overflow.
    pub fn mul(self, rhs: int1, b: &mut ShaderBuilder) -> (r: int1)
        requires
            self.valid_in(old(b)@),
            rhs.valid_in(old(b)@),
            old(b)@.len() < u32::MAX,
        ensures
            final(b)@ == old(b)@.push(ShaderOp::IMul(self.0, rhs.0)),
            r == int1(next_id(old(b)@, 0)),
            r.valid_in(final(b)@),
    {
        int1(b.add(ShaderOp::IMul(self.0, rhs.0)))
    }

    /// Quotient.
    pub fn div(self, rhs: int1, b: &mut ShaderBuilder) -> (r: int1)
        requires
            self.valid_in(old(b)@),
            rhs.valid_in(old(b)@),
            old(b)@.len() < u32::MAX,
        ensures
            final(b)@ == old(b)@.push(ShaderOp::IDiv(self.0, rhs.0)),
            r == int1(next_id(old(b)@, 0)),
            r.valid_in(final(b)@),
    {
        int1(b.add(ShaderOp::IDiv(self.0, rhs.0)))
    }

    /// Bitwise and.
    pub fn bitand(self, rhs: int1, b: &mut ShaderBuilder) -> (r: int1)
        requires
            self.valid_in(old(b)@),
            rhs.valid_in(old(b)@),
            old(b)@.len() < u32::MAX,
        ensures
            final(b)@ == old(b)@.push(ShaderOp::IAnd(self.0, rhs.0)),
            r == int1(next_id(old(b)@, 0)),
            r.valid_in(final(b)@),
    {
        int1(b.add(ShaderOp::IAnd(self.0, rhs.0)))
    }

    /// Bitwise or.
    pub fn bitor(self, rhs: int1, b: &mut ShaderBuilder) -> (r: int1)
        requires
            self.valid_in(old(b)@),
            rhs.valid_in(old(b)@),
            old(b)@.len() < u32::MAX,
        ensures
            final(b)@ == old(b)@.push(ShaderOp::IOr(self.0, rhs.0)),
            r == int1(next_id(old(b)@, 0)),
            r.valid_in(final(b)@),
    {
        int1(b.add(ShaderOp::IOr(self.0, rhs.0)))
    }

    /// Bitwise exclusive or.
    pub fn bitxor(self, rhs: int1, b: &mut ShaderBuilder) -> (r: int1)
        requires
            self.valid_in(old(b)@),
            rhs.valid_in(old(b)@),
            old(b)@.len() < u32::MAX,
        ensures
            final(b)@ == old(b)@.push(ShaderOp::IXor(self.0, rhs.0)),
            r == int1(next_id(old(b)@, 0)),
            r.valid_in(final(b)@),
    {
        int1(b.add(ShaderOp::IXor(self.0, rhs.0)))
    }

    /// Shift left.
    pub fn shl(self, rhs: int1, b: &mut ShaderBuilder) -> (r: int1)
        requires
            self.valid_in(old(b)@),
            rhs.valid_in(old(b)@),
            old(b)@.len() < u32::MAX,
        ensures
            final(b)@ == old(b)@.push(ShaderOp::IShl(self.0, rhs.0)),
            r == int1(next_id(old(b)@, 0)),
            r.valid_in(final(b)@),
    {
        int1(b.add(ShaderOp::IShl(self.0, rhs.0)))
    }

    /// Shift right.
    pub fn shr(self, rhs: int1, b: &mut ShaderBuilder) -> (r: int1)
        requires
            self.valid_in(old(b)@),
            rhs.valid_in(old(b)@),
            old(b)@.len() < u32::MAX,
        ensures
            final(b)@ == old(b)@.push(ShaderOp::IShr(self.0, rhs.0)),
            r == int1(next_id(old(b)@, 0)),
            r.valid_in(final(b)@),
    {
        int1(b.add(ShaderOp::IShr(self.0, rhs.0)))
    }

    /// Get the absolute value.
    pub fn abs(self, b: &mut ShaderBuilder) -> (r: int1)
        requires
            self.valid_in(old(b)@),
            old(b)@.len() < u32::MAX,
        ensures
            final(b)@ == old(b)@.push(ShaderOp::IAbs(self.0)),
            r == int1(next_id(old(b)@, 0)),
            r.valid_in(final(b)@),
    {
        int1(b.add(ShaderOp::IAbs(self.0)))
    }

    /// Get the sign of the value: 1, 0 or -1.
    pub fn signum(self, b: &mut ShaderBuilder) -> (r: int1)
        requires
            self.valid_in(old(b)@),
            old(b)@.len() < u32::MAX,
        ensures
            final(b)@ == old(b)@.push(ShaderOp::ISign(self.0)),
            r == int1(next_id(old(b)@, 0)),
            r.valid_in(final(b)@),
    {
        int1(b.add(ShaderOp::ISign(self.0)))
    }

    /// Negation.
    pub fn neg(self, b: &mut ShaderBuilder) -> (r: int1)
        requires
            self.valid_in(old(b)@),
            old(b)@.len() < u32::MAX,
        ensures
            final(b)@ == old(b)@.push(ShaderOp::INeg(self.0)),
            r == int1(next_id(old(b)@, 0)),
            r.valid_in(final(b)@),
    {
        int1(b.add(ShaderOp::INeg(self.0)))
    }

    /// Bitwise not.
    pub fn not(self, b: &mut ShaderBuilder) -> (r: int1)
        requires
            self.valid_in(old(b)@),
            old(b)@.len() < u32::MAX,
        ensures
            final(b)@ == old(b)@.push(ShaderOp::INot(self.0)),
            r == int1(next_id(old(b)@, 0)),
            r.valid_in(final(b)@),
    {
        int1(b.add(ShaderOp::INot(self.0)))
    }

    /// Clamp the value between a minimum and maximum value.
    pub fn clamp(self, min: int1, max: int1, b: &mut ShaderBuilder) -> (r: int1)
        requires
            self.valid_in(old(b)@),
            min.valid_in(old(b)@),
            max.valid_in(old(b)@),
            old(b)@.len() + 2 <= u32::MAX,
        ensures
            final(b)@ == old(b)@ + seq![ShaderOp::IMin(self.0, max.0), ShaderOp::IMax(next_id(old(b)@, 0), min.0)],
            r == int1(next_id(old(b)@, 1)),
            r.valid_in(final(b)@),
    {
        let m = self.min(max, b);
        m.max(min, b)
    }

    /// Returns true if the integers are equal.
    pub fn eq(self, other: int1, b: &mut ShaderBuilder) -> (r: boolean)
        requires
            self.valid_in(old(b)@),
            other.valid_in(old(b)@),
            old(b)@.len() < u32::MAX,
        ensures
            final(b)@ == old(b)@.push(ShaderOp::IEq(self.0, other.0)),
            r == boolean(next_id(old(b)@, 0)),
            r.valid_in(final(b)@),
    {
        boolean(b.add(ShaderOp::IEq(self.0, other.0)))
    }

    /// Returns true if the integers are not equal.
    pub fn ne(self, other: int1, b: &mut ShaderBuilder) -> (r: boolean)
        requires
            self.valid_in(old(b)@),
            other.valid_in(old(b)@),
            old(b)@.len() < u32::MAX,
        ensures
            final(b)@ == old(b)@.push(ShaderOp::INe(self.0, other.0)),
            r == boolean(next_id(old(b)@, 0)),
            r.valid_in(final(b)@),
    {
        boolean(b.add(ShaderOp::INe(self.0, other.0)))
    }

    /// Returns true if `self` is less than or equal to `other`.
    pub fn le(self, other: int1, b: &mut ShaderBuilder) -> (r: boolean)
        requires
            self.valid_in(old(b)@),
            other.valid_in(old(b)@),
            old(b)@.len() < u32::MAX,
        ensures
            final(b)@ == old(b)@.push(ShaderOp::ILe(self.0, other.0)),
            r == boolean(next_id(old(b)@, 0)),
            r.valid_in(final(b)@),
    {
        boolean(b.add(ShaderOp::ILe(self.0, other.0)))
    }

    /// Returns true if `self` is less than `other`.
    pub fn lt(self, other: int1, b: &mut ShaderBuilder) -> (r: boolean)
        requires
            self.valid_in(old(b)@),
            other.valid_in(old(b)@),
            old(b)@.len() < u32::MAX,
        ensures
            final(b)@ == old(b)@.push(ShaderOp::ILt(self.0, other.0)),
            r == boolean(next_id(old(b)@, 0)),
            r.valid_in(final(b)@),
    {
        boolean(b.add(ShaderOp::ILt(self.0, other.0)))
    }

    /// Returns true if `self` is greater than or equal to `other`.
    pub fn ge(self, other: int1, b: &mut ShaderBuilder) -> (r: boolean)
        requires
            self.valid_in(old(b)@),
            other.valid_in(old(b)@),
            old(b)@.len() < u32::MAX,
        ensures
            final(b)@ == old(b)@.push(ShaderOp::IGe(self.0, other.0)),
            r == boolean(next_id(old(b)@, 0)),
            r.valid_in(final(b)@),
    {
        boolean(b.add(ShaderOp::IGe(self.0, other.0)))
    }

    /// Returns true if `self` is greater than `other`.
    pub fn gt(self, other: int1, b: &mut ShaderBuilder) -> (r: boolean)
        requires
            self.valid_in(old(b)@),
            other.valid_in(old(b)@),
            old(b)@.len() < u32::MAX,
        ensures
            final(b)@ == old(b)@.push(ShaderOp::IGt(self.0, other.0)),
            r == boolean(next_id(old(b)@, 0)),
            r.valid_in(final(b)@),
    {
        boolean(b.add(ShaderOp::IGt(self.0, other.0)))
    }
}

impl float1 {
    /// The operand naming this value.
    pub fn id(self) -> (r: u32)
        ensures
            r == self.0,
    {
        self.0
    }

    /// A float constant, given by its bit pattern.
    pub fn from_bits(bits: u32, b: &mut ShaderBuilder) -> (r: float1)
        requires
            old(b)@.len() < u32::MAX,
        ensures
            final(b)@ == old(b)@.push(ShaderOp::FLit(bits)),
            r == float1(next_id(old(b)@, 0)),
            r.valid_in(final(b)@),
    {
        float1(b.add(ShaderOp::FLit(bits)))
    }

    /// Converts an integer to a float.
    pub fn from_int(value: int1, b: &mut ShaderBuilder) -> (r: float1)
        requires
            value.valid_in(old(b)@),
            old(b)@.len() < u32::MAX,
        ensures
            final(b)@ == old(b)@.push(ShaderOp::FCastInt32(value.0)),
            r == float1(next_id(old(b)@, 0)),
            r.valid_in(final(b)@),
    {
        float1(b.add(ShaderOp::FCastInt32(value.0)))
    }

    /// If this float is a literal, returns its bit pattern. Otherwise, returns None.
    ///
    /// This is mainly useful for optimization purposes,
    /// like implementing a separate code path if the value is known at compile time.
    pub fn as_lit(&self, b: &ShaderBuilder) -> (r: Option<u32>)
        requires
            self.0 < b@.len(),
        ensures
            r == (match b@[self.0 as int] {
                ShaderOp::FLit(v) => Some(v),
                _ => None,
            }),
    {
        match b.get(self.0) {
            ShaderOp::FLit(v) => Some(v),
            _ => None,
        }
    }

    /// Read a 32-bit floating point value from the given byte offset in the object's data buffer.
    ///
    /// An offset that is not 4-byte aligned panics; it is left out here.
    pub fn read_f32(offset: u32, b: &mut ShaderBuilder) -> (r: float1)
        requires
            offset % 4 == 0,
            old(b)@.len() < u32::MAX,
        ensures
            final(b)@ == old(b)@.push(ShaderOp::ReadF32(offset / 4)),
            r == float1(next_id(old(b)@, 0)),
            r.valid_in(final(b)@),
    {
        float1(b.add(ShaderOp::ReadF32(offset / 4)))
    }

    /// Compute the sine.
    pub fn sin(self, b: &mut ShaderBuilder) -> (r: float1)
        requires
            self.valid_in(old(b)@),
            old(b)@.len() < u32::MAX,
        ensures
            final(b)@ == old(b)@.push(ShaderOp::Sin(self.0)),
            r == float1(next_id(old(b)@, 0)),
            r.valid_in(final(b)@),
    {
        float1(b.add(ShaderOp::Sin(self.0)))
    }

    /// Compute the cosine.
    pub fn cos(self, b: &mut ShaderBuilder) -> (r: float1)
        requires
            self.valid_in(old(b)@),
            old(b)@.len() < u32::MAX,
        ensures
            final(b)@ == old(b)@.push(ShaderOp::Cos(self.0)),
            r == float1(next_id(old(b)@, 0)),
            r.valid_in(final(b)@),
    {
        float1(b.add(ShaderOp::Cos(self.0)))
    }

    /// Compute the tangent.
    pub fn tan(self, b: &mut ShaderBuilder) -> (r: float1)
        requires
            self.valid_in(old(b)@),
            old(b)@.len() < u32::MAX,
        ensures
            final(b)@ == old(b)@.push(ShaderOp::Tan(self.0)),
            r == float1(next_id(old(b)@, 0)),
            r.valid_in(final(b)@),
    {
        float1(b.add(ShaderOp::Tan(self.0)))
    }

    /// Compute the arcsine.
    pub fn asin(self, b: &mut ShaderBuilder) -> (r: float1)
        requires
            self.valid_in(old(b)@),
            old(b)@.len() < u32::MAX,
        ensures
            final(b)@ == old(b)@.push(ShaderOp::Asin(self.0)),
            r == float1(next_id(old(b)@, 0)),
            r.valid_in(final(b)@),
    {
        float1(b.add(ShaderOp::Asin(self.0)))
    }

    /// Compute the arccosine.
    pub fn acos(self, b: &mut ShaderBuilder) -> (r: float1)
        requires
            self.valid_in(old(b)@),
            old(b)@.len() < u32::MAX,
        ensures
            final(b)@ == old(b)@.push(ShaderOp::Acos(self.0)),
            r == float1(next_id(old(b)@, 0)),
            r.valid_in(final(b)@),
    {
        float1(b.add(ShaderOp::Acos(self.0)))
    }

    /// Compute the arctangent.
    pub fn atan(self, b: &mut ShaderBuilder) -> (r: float1)
        requires
            self.valid_in(old(b)@),
            old(b)@.len() < u32::MAX,
        ensures
            final(b)@ == old(b)@.push(ShaderOp::Atan(self.0)),
            r == float1(next_id(old(b)@, 0)),
            r.valid_in(final(b)@),
    {
        float1(b.add(ShaderOp::Atan(self.0)))
    }

    /// Compute the square root.
    pub fn sqrt(self, b: &mut ShaderBuilder) -> (r: float1)
        requires
            self.valid_in(old(b)@),
            old(b)@.len() < u32::MAX,
        ensures
            final(b)@ == old(b)@.push(ShaderOp::Sqrt(self.0)),
            r == float1(next_id(old(b)@, 0)),
            r.valid_in(final(b)@),
    {
        float1(b.add(ShaderOp::Sqrt(self.0)))
    }

    /// Compute `e^self`.
    pub fn exp(self, b: &mut ShaderBuilder) -> (r: float1)
        requires
            self.valid_in(old(b)@),
            old(b)@.len() < u32::MAX,
        ensures
            final(b)@ == old(b)@.push(ShaderOp::Exp(self.0)),
            r == float1(next_id(old(b)@, 0)),
            r.valid_in(final(b)@),
    {
        float1(b.add(ShaderOp::Exp(self.0)))
    }

    /// Compute the natural logarithm.
    pub fn ln(self, b: &mut ShaderBuilder) -> (r: float1)
        requires
            self.valid_in(old(b)@),
            old(b)@.len() < u32::MAX,
        ensures
            final(b)@ == old(b)@.push(ShaderOp::Ln(self.0)),
            r == float1(next_id(old(b)@, 0)),
            r.valid_in(final(b)@),
    {
        float1(b.add(ShaderOp::Ln(self.0)))
    }

    /// Round down to an integer value.
    pub fn floor(self, b: &mut ShaderBuilder) -> (r: float1)
        requires
            self.valid_in(old(b)@),
            old(b)@.len() < u32::MAX,
        ensures
            final(b)@ == old(b)@.push(ShaderOp::Floor(self.0)),
            r == float1(next_id(old(b)@, 0)),
            r.valid_in(final(b)@),
    {
        float1(b.add(ShaderOp::Floor(self.0)))
    }

    /// Screen-space derivative in the X direction.
    pub fn dx(self, b: &mut ShaderBuilder) -> (r: float1)
        requires
            self.valid_in(old(b)@),
            old(b)@.len() < u32::MAX,
        ensures
            final(b)@ == old(b)@.push(ShaderOp::DerivX(self.0)),
            r == float1(next_id(old(b)@, 0)),
            r.valid_in(final(b)@),
    {
        float1(b.add(ShaderOp::DerivX(self.0)))
    }

    /// Screen-space derivative in the Y direction.
    pub fn dy(self, b: &mut ShaderBuilder) -> (r: float1)
        requires
            self.valid_in(old(b)@),
            old(b)@.len() < u32::MAX,
        ensures
            final(b)@ == old(b)@.push(ShaderOp::DerivY(self.0)),
            r == float1(next_id(old(b)@, 0)),
            r.valid_in(final(b)@),
    {
        float1(b.add(ShaderOp::DerivY(self.0)))
    }

    /// Get the absolute value.
    pub fn abs(self, b: &mut ShaderBuilder) -> (r: float1)
        requires
            self.valid_in(old(b)@),
            old(b)@.len() < u32::MAX,
        ensures
            final(b)@ == old(b)@.push(ShaderOp::FAbs(self.0)),
            r == float1(next_id(old(b)@, 0)),
            r.valid_in(final(b)@),
    {
        float1(b.add(ShaderOp::FAbs(self.0)))
    }

    /// Get the sign of the value: 1.0, 0.0 or -1.0.
    pub fn signum(self, b: &mut ShaderBuilder) -> (r: float1)
        requires
            self.valid_in(old(b)@),
            old(b)@.len() < u32::MAX,
        ensures
            final(b)@ == old(b)@.push(ShaderOp::FSign(self.0)),
            r == float1(next_id(old(b)@, 0)),
            r.valid_in(final(b)@),
    {
        float1(b.add(ShaderOp::FSign(self.0)))
    }

    /// Negation.
    pub fn neg(self, b: &mut ShaderBuilder) -> (r: float1)
        requires
            self.valid_in(old(b)@),
            old(b)@.len() < u32::MAX,
        ensures
            final(b)@ == old(b)@.push(ShaderOp::FNeg(self.0)),
            r == float1(next_id(old(b)@, 0)),
            r.valid_in(final(b)@),
    {
        float1(b.add(ShaderOp::FNeg(self.0)))
    }

    /// Get the smallest of two values.
    pub fn min(self, rhs: float1, b: &mut ShaderBuilder) -> (r: float1)
        requires
            self.valid_in(old(b)@),
            rhs.valid_in(old(b)@),
            old(b)@.len() < u32::MAX,
        ensures
            final(b)@ == old(b)@.push(ShaderOp::FMin(self.0, rhs.0)),
            r == float1(next_id(old(b)@, 0)),
            r.valid_in(final(b)@),
    {
        float1(b.add(ShaderOp::FMin(self.0, rhs.0)))
    }

    /// Get the largest of two values.
    pub fn max(self, rhs: float1, b: &mut ShaderBuilder) -> (r: float1)
        requires
            self.valid_in(old(b)@),
            rhs.valid_in(old(b)@),
            old(b)@.len() < u32::MAX,
        ensures
            final(b)@ == old(b)@.push(ShaderOp::FMax(self.0, rhs.0)),
            r == float1(next_id(old(b)@, 0)),
            r.valid_in(final(b)@),
    {
        float1(b.add(ShaderOp::FMax(self.0, rhs.0)))
    }

    /// Compute the arctangent of `rhs / self`, by quadrant.
    pub fn atan2(self, rhs: float1, b: &mut ShaderBuilder) -> (r: float1)
        requires
            self.valid_in(old(b)@),
            rhs.valid_in(old(b)@),
            old(b)@.len() < u32::MAX,
        ensures
            final(b)@ == old(b)@.push(ShaderOp::Atan2(rhs.0, self.0)),
            r == float1(next_id(old(b)@, 0)),
            r.valid_in(final(b)@),
    {
        float1(b.add(ShaderOp::Atan2(rhs.0, self.0)))
    }

    /// Compute `self` raised to the power of `rhs`.
    pub fn powf(self, rhs: float1, b: &mut ShaderBuilder) -> (r: float1)
        requires
            self.valid_in(old(b)@),
            rhs.valid_in(old(b)@),
            old(b)@.len() < u32::MAX,
        ensures
            final(b)@ == old(b)@.push(ShaderOp::Pow(self.0, rhs.0)),
            r == float1(next_id(old(b)@, 0)),
            r.valid_in(final(b)@),
    {
        float1(b.add(ShaderOp::Pow(self.0, rhs.0)))
    }

    /// Get the remainder of the division, never negative.
    pub fn rem_euclid(self, rhs: float1, b: &mut ShaderBuilder) -> (r: float1)
        requires
            self.valid_in(old(b)@),
            rhs.valid_in(old(b)@),
            old(b)@.len() < u32::MAX,
        ensures
            final(b)@ == old(b)@.push(ShaderOp::FMod(self.0, rhs.0)),
            r == float1(next_id(old(b)@, 0)),
            r.valid_in(final(b)@),
    {
        float1(b.add(ShaderOp::FMod(self.0, rhs.0)))
    }

    /// Sum.
    pub fn add(self, rhs: float1, b: &mut ShaderBuilder) -> (r: float1)
        requires
            self.valid_in(old(b)@),
            rhs.valid_in(old(b)@),
            old(b)@.len() < u32::MAX,
        ensures
            final(b)@ == old(b)@.push(ShaderOp::FAdd(self.0, rhs.0)),
            r == float1(next_id(old(b)@, 0)),
            r.valid_in(final(b)@),
    {
        float1(b.add(ShaderOp::FAdd(self.0, rhs.0)))
    }

    /// Difference.
    pub fn sub(self, rhs: float1, b: &mut ShaderBuilder) -> (r: float1)
        requires
            self.valid_in(old(b)@),
            rhs.valid_in(old(b)@),
            old(b)@.len() < u32::MAX,
        ensures
            final(b)@ == old(b)@.push(ShaderOp::FSub(self.0, rhs.0)),
            r == float1(next_id(old(b)@, 0)),
            r.valid_in(final(b)@),
    {
        float1(b.add(ShaderOp::FSub(self.0, rhs.0)))
    }

    /// Product.
    pub fn mul(self, rhs: float1, b: &mut ShaderBuilder) -> (r: float1)
        requires
            self.valid_in(old(b)@),
            rhs.valid_in(old(b)@),
            old(b)@.len() < u32::MAX,
        ensures
            final(b)@ == old(b)@.push(ShaderOp::FMul(self.0, rhs.0)),
            r == float1(next_id(old(b)@, 0)),
            r.valid_in(final(b)@),
    {
        float1(b.add(ShaderOp::FMul(self.0, rhs.0)))
    }

    /// Quotient.
    pub fn div(self, rhs: float1, b: &mut ShaderBuilder) -> (r: float1)
        requires
            self.valid_in(old(b)@),
            rhs.valid_in(old(b)@),
            old(b)@.len() < u32::MAX,
        ensures
            final(b)@ == old(b)@.push(ShaderOp::FDiv(self.0, rhs.0)),
            r == float1(next_id(old(b)@, 0)),
            r.valid_in(final(b)@),
    {
        float1(b.add(ShaderOp::FDiv(self.0, rhs.0)))
    }

    /// Clamp the value between a minimum and maximum value.
    pub fn clamp(self, min: float1, max: float1, b: &mut ShaderBuilder) -> (r: float1)
        requires
            self.valid_in(old(b)@),
            min.valid_in(old(b)@),
            max.valid_in(old(b)@),
            old(b)@.len() + 2 <= u32::MAX,
        ensures
            final(b)@ == old(b)@ + seq![ShaderOp::FMin(self.0, max.0), ShaderOp::FMax(next_id(old(b)@, 0), min.0)],
            r == float1(next_id(old(b)@, 1)),
            r.valid_in(final(b)@),
    {
        let m = self.min(max, b);
        m.max(min, b)
    }

    /// Returns true if the floats are equal.
    pub fn eq(self, other: float1, b: &mut ShaderBuilder) -> (r: boolean)
        requires
            self.valid_in(old(b)@),
            other.valid_in(old(b)@),
            old(b)@.len() < u32::MAX,
        ensures
            final(b)@ == old(b)@.push(ShaderOp::FEq(self.0, other.0)),
            r == boolean(next_id(old(b)@, 0)),
            r.valid_in(final(b)@),
    {
        boolean(b.add(ShaderOp::FEq(self.0, other.0)))
    }

    /// Returns true if the floats are not equal.
    pub fn ne(self, other: float1, b: &mut ShaderBuilder) -> (r: boolean)
        requires
            self.valid_in(old(b)@),
            other.valid_in(old(b)@),
            old(b)@.len() < u32::MAX,
        ensures
            final(b)@ == old(b)@.push(ShaderOp::FNe(self.0, other.0)),
            r == boolean(next_id(old(b)@, 0)),
            r.valid_in(final(b)@),
    {
        boolean(b.add(ShaderOp::FNe(self.0, other.0)))
    }

    /// Returns true if `self` is less than or equal to `other`.
    pub fn le(self, other: float1, b: &mut ShaderBuilder) -> (r: boolean)
        requires
            self.valid_in(old(b)@),
            other.valid_in(old(b)@),
            old(b)@.len() < u32::MAX,
        ensures
            final(b)@ == old(b)@.push(ShaderOp::FLe(self.0, other.0)),
            r == boolean(next_id(old(b)@, 0)),
            r.valid_in(final(b)@),
    {
        boolean(b.add(ShaderOp::FLe(self.0, other.0)))
    }

    /// Returns true if `self` is less than `other`.
    pub fn lt(self, other: float1, b: &mut ShaderBuilder) -> (r: boolean)
        requires
            self.valid_in(old(b)@),
            other.valid_in(old(b)@),
            old(b)@.len() < u32::MAX,
        ensures
            final(b)@ == old(b)@.push(ShaderOp::FLt(self.0, other.0)),
            r == boolean(next_id(old(b)@, 0)),
            r.valid_in(final(b)@),
    {
        boolean(b.add(ShaderOp::FLt(self.0, other.0)))
    }

    /// Returns true if `self` is greater than or equal to `other`.
    pub fn ge(self, other: float1, b: &mut ShaderBuilder) -> (r: boolean)
        requires
            self.valid_in(old(b)@),
            other.valid_in(old(b)@),
            old(b)@.len() < u32::MAX,
        ensures
            final(b)@ == old(b)@.push(ShaderOp::FGe(self.0, other.0)),
            r == boolean(next_id(old(b)@, 0)),
            r.valid_in(final(b)@),
    {
        boolean(b.add(ShaderOp::FGe(self.0, other.0)))
    }

    /// Returns true if `self` is greater than `other`.
    pub fn gt(self, other: float1, b: &mut ShaderBuilder) -> (r: boolean)
        requires
            self.valid_in(old(b)@),
            other.valid_in(old(b)@),
            old(b)@.len() < u32::MAX,
        ensures
            final(b)@ == old(b)@.push(ShaderOp::FGt(self.0, other.0)),
            r == boolean(next_id(old(b)@, 0)),
            r.valid_in(final(b)@),
    {
        boolean(b.add(ShaderOp::FGt(self.0, other.0)))
    }

    /// Linearly interpolate between two values.
    pub fn lerp<T: Lerp<float1>>(self, start: T, end: T, b: &mut ShaderBuilder) -> (r: T)
        requires
            self.valid_in(old(b)@),
            start.valid_in(old(b)@),
            end.valid_in(old(b)@),
            old(b)@.len() + T::width() <= u32::MAX,
        ensures
            final(b)@ == old(b)@ + T::lerp_ops(self, start, end, old(b)@.len()),
            r == T::lerp_result(self, start, end, old(b)@.len()),
            r.valid_in(final(b)@),
    {
        T::lerp(self, start, end, b)
    }
}

impl boolean {
    /// The operand naming this value.
    pub fn id(self) -> (r: u32)
        ensures
            r == self.0,
    {
        self.0
    }

    /// A boolean constant.
    pub fn from_bool(value: bool, b: &mut ShaderBuilder) -> (r: boolean)
        requires
            old(b)@.len() < u32::MAX,
        ensures
            final(b)@ == old(b)@.push(ShaderOp::BLit(value)),
            r == boolean(next_id(old(b)@, 0)),
            r.valid_in(final(b)@),
    {
        boolean(b.add(ShaderOp::BLit(value)))
    }

    /// If this boolean is a literal, returns its value. Otherwise, returns None.
    ///
    /// This is mainly useful for optimization purposes,
    /// like implementing a separate code path if the value is known at compile time.
    pub fn as_lit(&self, b: &ShaderBuilder) -> (r: Option<bool>)
        requires
            self.0 < b@.len(),
        ensures
            r == (match b@[self.0 as int] {
                ShaderOp::BLit(v) => Some(v),
                _ => None,
            }),
    {
        match b.get(self.0) {
            ShaderOp::BLit(v) => Some(v),
            _ => None,
        }
    }

    /// Logical and.
    pub fn bitand(self, rhs: boolean, b: &mut ShaderBuilder) -> (r: boolean)
        requires
            self.valid_in(old(b)@),
            rhs.valid_in(old(b)@),
            old(b)@.len() < u32::MAX,
        ensures
            final(b)@ == old(b)@.push(ShaderOp::BAnd(self.0, rhs.0)),
            r == boolean(next_id(old(b)@, 0)),
            r.valid_in(final(b)@),
    {
        boolean(b.add(ShaderOp::BAnd(self.0, rhs.0)))
    }

    /// Logical or.
    pub fn bitor(self, rhs: boolean, b: &mut ShaderBuilder) -> (r: boolean)
        requires
            self.valid_in(old(b)@),
            rhs.valid_in(old(b)@),
            old(b)@.len() < u32::MAX,
        ensures
            final(b)@ == old(b)@.push(ShaderOp::BOr(self.0, rhs.0)),
            r == boolean(next_id(old(b)@, 0)),
            r.valid_in(final(b)@),
    {
        boolean(b.add(ShaderOp::BOr(self.0, rhs.0)))
    }

    /// Logical exclusive or.
    pub fn bitxor(self, rhs: boolean, b: &mut ShaderBuilder) -> (r: boolean)
        requires
            self.valid_in(old(b)@),
            rhs.valid_in(old(b)@),
            old(b)@.len() < u32::MAX,
        ensures
            final(b)@ == old(b)@.push(ShaderOp::BXor(self.0, rhs.0)),
            r == boolean(next_id(old(b)@, 0)),
            r.valid_in(final(b)@),
    {
        boolean(b.add(ShaderOp::BXor(self.0, rhs.0)))
    }

    /// Logical not.
    pub fn not(self, b: &mut ShaderBuilder) -> (r: boolean)
        requires
            self.valid_in(old(b)@),
            old(b)@.len() < u32::MAX,
        ensures
            final(b)@ == old(b)@.push(ShaderOp::BNot(self.0)),
            r == boolean(next_id(old(b)@, 0)),
            r.valid_in(final(b)@),
    {
        boolean(b.add(ShaderOp::BNot(self.0)))
    }

    /// Select between two values based on the boolean.
    ///
    /// Returns the first argument if `self` is true, otherwise returns the second argument.
    pub fn select<T: Lerp<boolean>>(self, if_true: T, if_false: T, b: &mut ShaderBuilder) -> (r: T)
        requires
            self.valid_in(old(b)@),
            if_true.valid_in(old(b)@),
            if_false.valid_in(old(b)@),
            old(b)@.len() + T::width() <= u32::MAX,
        ensures
            final(b)@ == old(b)@ + T::lerp_ops(self, if_true, if_false, old(b)@.len()),
            r == T::lerp_result(self, if_true, if_false, old(b)@.len()),
            r.valid_in(final(b)@),
    {
        T::lerp(self, if_true, if_false, b)
    }
}

impl Lerp<float1> for float1 {
    open spec fn width() -> nat {
        1
    }

    open spec fn lerp_ops(sel: float1, start: Self, end: Self, n: nat) -> Seq<ShaderOp> {
        seq![ShaderOp::Lerp(sel.0, start.0, end.0)]
    }

    open spec fn lerp_result(sel: float1, start: Self, end: Self, n: nat) -> Self {
        float1(n as u32)
    }

    fn lerp(sel: float1, start: Self, end: Self, b: &mut ShaderBuilder) -> (r: Self) {
        let r = float1(b.add(ShaderOp::Lerp(sel.0, start.0, end.0)));
        assert(final(b)@ =~= old(b)@ + seq![ShaderOp::Lerp(sel.0, start.0, end.0)]);
        r
    }
}

impl Lerp<boolean> for float1 {
    open spec fn width() -> nat {
        1
    }

    open spec fn lerp_ops(sel: boolean, start: Self, end: Self, n: nat) -> Seq<ShaderOp> {
        seq![ShaderOp::FSelect(sel.0, start.0, end.0)]
    }

    open spec fn lerp_result(sel: boolean, start: Self, end: Self, n: nat) -> Self {
        float1(n as u32)
    }

    fn lerp(sel: boolean, start: Self, end: Self, b: &mut ShaderBuilder) -> (r: Self) {
        let r = float1(b.add(ShaderOp::FSelect(sel.0, start.0, end.0)));
        assert(final(b)@ =~= old(b)@ + seq![ShaderOp::FSelect(sel.0, start.0, end.0)]);
        r
    }
}

impl Lerp<boolean> for int1 {
    open spec fn width() -> nat {
        1
    }

    open spec fn lerp_ops(sel: boolean, start: Self, end: Self, n: nat) -> Seq<ShaderOp> {
        seq![ShaderOp::ISelect(sel.0, start.0, end.0)]
    }

    open spec fn lerp_result(sel: boolean, start: Self, end: Self, n: nat) -> Self {
        int1(n as u32)
    }

    fn lerp(sel: boolean, start: Self, end: Self, b: &mut ShaderBuilder) -> (r: Self) {
        let r = int1(b.add(ShaderOp::ISelect(sel.0, start.0, end.0)));
        assert(final(b)@ =~= old(b)@ + seq![ShaderOp::ISelect(sel.0, start.0, end.0)]);
        r
    }
}

impl Lerp<boolean> for boolean {
    open spec fn width() -> nat {
        1
    }

    open spec fn lerp_ops(sel: boolean, start: Self, end: Self, n: nat) -> Seq<ShaderOp> {
        seq![ShaderOp::BSelect(sel.0, start.0, end.0)]
    }

    open spec fn lerp_result(sel: boolean, start: Self, end: Self, n: nat) -> Self {
        boolean(n as u32)
    }

    fn lerp(sel: boolean, start: Self, end: Self, b: &mut ShaderBuilder) -> (r: Self) {
        let r = boolean(b.add(ShaderOp::BSelect(sel.0, start.0, end.0)));
        assert(final(b)@ =~= old(b)@ + seq![ShaderOp::BSelect(sel.0, start.0, end.0)]);
        r
    }
}

/// The literal value of the integer operation `id` of `nodes`, if it is one.
pub open spec fn int_literal(nodes: Seq<ShaderOp>, id: u32) -> Option<i32> {
    match nodes[id as int] {
        ShaderOp::ILit(v) => Some(v),
        _ => None,
    }
}

/// The bit pattern of the float 1.0.
pub const ONE_BITS: u32 = 0x3f80_0000u32;

/// The operations that raising `s` to the integer power `rhs`, whose literal
/// value is `lit`, adds after `n` operations, and the operand of the result.
pub open spec fn powi_plan(s: u32, rhs: u32, lit: Option<i32>, n: nat) -> (Seq<ShaderOp>, u32) {
    let n0 = n as u32;
    let n1 = (n + 1) as u32;
    let n2 = (n + 2) as u32;
    if lit == Some(-2i32) {
        (seq![ShaderOp::FMul(s, s), ShaderOp::FLit(ONE_BITS), ShaderOp::FDiv(n1, n0)], n2)
    } else if lit == Some(-1i32) {
        (seq![ShaderOp::FLit(ONE_BITS), ShaderOp::FDiv(n0, s)], n1)
    } else if lit == Some(0i32) {
        (seq![ShaderOp::FLit(ONE_BITS)], n0)
    } else if lit == Some(1i32) {
        (seq![], s)
    } else if lit == Some(2i32) {
        (seq![ShaderOp::FMul(s, s)], n0)
    } else if lit == Some(3i32) {
        (seq![ShaderOp::FMul(s, s), ShaderOp::FMul(n0, s)], n1)
    } else {
        (seq![ShaderOp::FCastInt32(rhs), ShaderOp::Pow(s, n0)], n1)
    }
}

/// The power of the value `x` that operation `id` of `nodes` computes, when it
/// is one: `x` is its first power, the constant 1.0 its zeroth, a product adds
/// the powers of its factors, and a quotient subtracts the power of the
/// divisor from that of the dividend.
pub open spec fn power_of(nodes: Seq<ShaderOp>, id: u32, x: u32) -> Option<int>
    decreases id,
{
    if id == x {
        Some(1)
    } else if id >= nodes.len() {
        None
    } else {
        match nodes[id as int] {
            ShaderOp::FLit(bits) => if bits == 0x3f80_0000u32 { Some(0) } else { None },
            ShaderOp::FMul(a, c) => if a < id && c < id {
                match (power_of(nodes, a, x), power_of(nodes, c, x)) {
                    (Some(p), Some(q)) => Some(p + q),
                    _ => None,
                }
            } else {
                None
            },
            ShaderOp::FDiv(a, c) => if a < id && c < id {
                match (power_of(nodes, a, x), power_of(nodes, c, x)) {
                    (Some(p), Some(q)) => Some(p - q),
                    _ => None,
                }
            } else {
                None
            },
            _ => None,
        }
    }
}

proof fn lemma_power_of_prefix(nodes: Seq<ShaderOp>, more: Seq<ShaderOp>, id: u32, x: u32)
    requires
        id < nodes.len(),
    ensures
        power_of(nodes + more, id, x) == power_of(nodes, id, x),
    decreases id,
{
    if id != x {
        match nodes[id as int] {
            ShaderOp::FMul(a, c) | ShaderOp::FDiv(a, c) => {
                assert((nodes + more)[id as int] == nodes[id as int]);
                if a < id && c < id {
                    lemma_power_of_prefix(nodes, more, a, x);
                    lemma_power_of_prefix(nodes, more, c, x);
                }
            },
            _ => {
                assert((nodes + more)[id as int] == nodes[id as int]);
            },
        }
    }
}

/// A literal power from -2 to 3, which is computed by products and quotients.
pub open spec fn small_power(lit: Option<i32>) -> bool {
    lit matches Some(k) && -2 <= k <= 3
}

/// Raising `x` to a literal power from -2 to 3 computes the power of `x` it
/// names.
pub proof fn lemma_powi_power(nodes: Seq<ShaderOp>, s: u32, rhs: u32, k: i32)
    requires
        s < nodes.len(),
        nodes.len() + 3 <= u32::MAX,
        -2 <= k <= 3,
    ensures
        power_of(nodes + powi_plan(s, rhs, Some(k), nodes.len()).0, powi_plan(s, rhs, Some(k), nodes.len()).1, s)
            == Some(k as int),
{
    let n = nodes.len();
    let (ops, r) = powi_plan(s, rhs, Some(k), n);
    let all = nodes + ops;
    let n0 = n as u32;
    let n1 = (n + 1) as u32;
    let n2 = (n + 2) as u32;
    assert(n0 != s && n1 != s && n2 != s);
    if ops.len() > 0 {
        assert(all[n0 as int] == ops[0]);
    }
    if ops.len() > 1 {
        assert(all[n1 as int] == ops[1]);
    }
    if ops.len() > 2 {
        assert(all[n2 as int] == ops[2]);
    }
    assert(power_of(all, s, s) == Some(1int));
    if k == -2 {
        assert(power_of(all, n0, s) == Some(2int));
        assert(power_of(all, n1, s) == Some(0int));
    } else if k == -1 {
        assert(power_of(all, n0, s) == Some(0int));
    } else if k == 3 {
        assert(power_of(all, n0, s) == Some(2int));
    }
}

impl float1 {
    /// Compute `self` raised to the power of `rhs` (an integer): small literal
    /// powers become products and quotients, any other power a `powf`.
    pub fn powi(self, rhs: int1, b: &mut ShaderBuilder) -> (r: float1)
        requires
            self.valid_in(old(b)@),
            rhs.valid_in(old(b)@),
            old(b)@.len() + 3 <= u32::MAX,
        ensures
            final(b)@ == old(b)@ + powi_plan(self.0, rhs.0, int_literal(old(b)@, rhs.0), old(b)@.len()).0,
            r == float1(powi_plan(self.0, rhs.0, int_literal(old(b)@, rhs.0), old(b)@.len()).1),
            r.valid_in(final(b)@),
            small_power(int_literal(old(b)@, rhs.0)) ==> power_of(final(b)@, r.0, self.0)
                == Some(int_literal(old(b)@, rhs.0)->0 as int),
            !small_power(int_literal(old(b)@, rhs.0)) ==> final(b)@ == old(b)@
                + seq![ShaderOp::FCastInt32(rhs.0), ShaderOp::Pow(self.0, old(b)@.len() as u32)],
    {
        proof {
            let lit = int_literal(old(b)@, rhs.0);
            if small_power(lit) {
                lemma_powi_power(old(b)@, self.0, rhs.0, lit->0);
                assert(lit == Some(lit->0));
            }
        }
        let lit = rhs.as_lit(b);
        let r = match lit {
            Some(-2) => {
                let sq = self.mul(self, b);
                let one = float1::from_bits(ONE_BITS, b);
                one.div(sq, b)
            },
            Some(-1) => {
                let one = float1::from_bits(ONE_BITS, b);
                one.div(self, b)
            },
            Some(0) => float1::from_bits(ONE_BITS, b),
            Some(1) => self,
            Some(2) => self.mul(self, b),
            Some(3) => {
                let sq = self.mul(self, b);
                sq.mul(self, b)
            },
            _ => {
                let f = float1::from_int(rhs, b);
                self.powf(f, b)
            },
        };
        proof {
            let plan = powi_plan(self.0, rhs.0, int_literal(old(b)@, rhs.0), old(b)@.len());
            assert(b@ =~= old(b)@ + plan.0);
        }
        r
    }
}

impl float2 {
    /// A vector of the given components.
    pub fn new(x: float1, y: float1) -> (r: float2)
        ensures
            r == (float2 { x: x, y: y }),
    {
        float2 { x: x, y: y }
    }

    /// A vector with every component set to `v`.
    pub fn splat(v: float1) -> (r: float2)
        ensures
            r == (float2 { x: v, y: v }),
    {
        float2 { x: v, y: v }
    }

    /// Get the X component.
    pub fn x(self) -> (r: float1)
        ensures
            r == self.x,
    {
        self.x
    }

    /// Get the Y component.
    pub fn y(self) -> (r: float1)
        ensures
            r == self.y,
    {
        self.y
    }

    /// The sine of each component.
    pub fn sin(self, b: &mut ShaderBuilder) -> (r: float2)
        requires
            self.valid_in(old(b)@),
            old(b)@.len() + 2 <= u32::MAX,
        ensures
            final(b)@ == old(b)@ + seq![ShaderOp::Sin(self.x.0), ShaderOp::Sin(self.y.0)],
            r == (float2 { x: float1(next_id(old(b)@, 0)), y: float1(next_id(old(b)@, 1)) }),
            r.valid_in(final(b)@),
    {
        let x = self.x.sin(b);
        let y = self.y.sin(b);
        float2 { x: x, y: y }
    }

    /// The cosine of each component.
    pub fn cos(self, b: &mut ShaderBuilder) -> (r: float2)
        requires
            self.valid_in(old(b)@),
            old(b)@.len() + 2 <= u32::MAX,
        ensures
            final(b)@ == old(b)@ + seq![ShaderOp::Cos(self.x.0), ShaderOp::Cos(self.y.0)],
            r == (float2 { x: float1(next_id(old(b)@, 0)), y: float1(next_id(old(b)@, 1)) }),
            r.valid_in(final(b)@),
    {
        let x = self.x.cos(b);
        let y = self.y.cos(b);
        float2 { x: x, y: y }
    }

    /// The tangent of each component.
    pub fn tan(self, b: &mut ShaderBuilder) -> (r: float2)
        requires
            self.valid_in(old(b)@),
            old(b)@.len() + 2 <= u32::MAX,
        ensures
            final(b)@ == old(b)@ + seq![ShaderOp::Tan(self.x.0), ShaderOp::Tan(self.y.0)],
            r == (float2 { x: float1(next_id(old(b)@, 0)), y: float1(next_id(old(b)@, 1)) }),
            r.valid_in(final(b)@),
    {
        let x = self.x.tan(b);
        let y = self.y.tan(b);
        float2 { x: x, y: y }
    }

    /// The arcsine of each component.
    pub fn asin(self, b: &mut ShaderBuilder) -> (r: float2)
        requires
            self.valid_in(old(b)@),
            old(b)@.len() + 2 <= u32::MAX,
        ensures
            final(b)@ == old(b)@ + seq![ShaderOp::Asin(self.x.0), ShaderOp::Asin(self.y.0)],
            r == (float2 { x: float1(next_id(old(b)@, 0)), y: float1(next_id(old(b)@, 1)) }),
            r.valid_in(final(b)@),
    {
        let x = self.x.asin(b);
        let y = self.y.asin(b);
        float2 { x: x, y: y }
    }

    /// The arccosine of each component.
    pub fn acos(self, b: &mut ShaderBuilder) -> (r: float2)
        requires
            self.valid_in(old(b)@),
            old(b)@.len() + 2 <= u32::MAX,
        ensures
            final(b)@ == old(b)@ + seq![ShaderOp::Acos(self.x.0), ShaderOp::Acos(self.y.0)],
            r == (float2 { x: float1(next_id(old(b)@, 0)), y: float1(next_id(old(b)@, 1)) }),
            r.valid_in(final(b)@),
    {
        let x = self.x.acos(b);
        let y = self.y.acos(b);
        float2 { x: x, y: y }
    }

    /// The arctangent of each component.
    pub fn atan(self, b: &mut ShaderBuilder) -> (r: float2)
        requires
            self.valid_in(old(b)@),
            old(b)@.len() + 2 <= u32::MAX,
        ensures
            final(b)@ == old(b)@ + seq![ShaderOp::Atan(self.x.0), ShaderOp::Atan(self.y.0)],
            r == (float2 { x: float1(next_id(old(b)@, 0)), y: float1(next_id(old(b)@, 1)) }),
            r.valid_in(final(b)@),
    {
        let x = self.x.atan(b);
        let y = self.y.atan(b);
        float2 { x: x, y: y }
    }

    /// The square root of each component.
    pub fn sqrt(self, b: &mut ShaderBuilder) -> (r: float2)
        requires
            self.valid_in(old(b)@),
            old(b)@.len() + 2 <= u32::MAX,
        ensures
            final(b)@ == old(b)@ + seq![ShaderOp::Sqrt(self.x.0), ShaderOp::Sqrt(self.y.0)],
            r == (float2 { x: float1(next_id(old(b)@, 0)), y: float1(next_id(old(b)@, 1)) }),
            r.valid_in(final(b)@),
    {
        let x = self.x.sqrt(b);
        let y = self.y.sqrt(b);
        float2 { x: x, y: y }
    }

    /// The exponential of each component.
    pub fn exp(self, b: &mut ShaderBuilder) -> (r: float2)
        requires
            self.valid_in(old(b)@),
            old(b)@.len() + 2 <= u32::MAX,
        ensures
            final(b)@ == old(b)@ + seq![ShaderOp::Exp(self.x.0), ShaderOp::Exp(self.y.0)],
            r == (float2 { x: float1(next_id(old(b)@, 0)), y: float1(next_id(old(b)@, 1)) }),
            r.valid_in(final(b)@),
    {
        let x = self.x.exp(b);
        let y = self.y.exp(b);
        float2 { x: x, y: y }
    }

    /// The natural logarithm of each component.
    pub fn ln(self, b: &mut ShaderBuilder) -> (r: float2)
        requires
            self.valid_in(old(b)@),
            old(b)@.len() + 2 <= u32::MAX,
        ensures
            final(b)@ == old(b)@ + seq![ShaderOp::Ln(self.x.0), ShaderOp::Ln(self.y.0)],
            r == (float2 { x: float1(next_id(old(b)@, 0)), y: float1(next_id(old(b)@, 1)) }),
            r.valid_in(final(b)@),
    {
        let x = self.x.ln(b);
        let y = self.y.ln(b);
        float2 { x: x, y: y }
    }

    /// The floor of each component.
    pub fn floor(self, b: &mut ShaderBuilder) -> (r: float2)
        requires
            self.valid_in(old(b)@),
            old(b)@.len() + 2 <= u32::MAX,
        ensures
            final(b)@ == old(b)@ + seq![ShaderOp::Floor(self.x.0), ShaderOp::Floor(self.y.0)],
            r == (float2 { x: float1(next_id(old(b)@, 0)), y: float1(next_id(old(b)@, 1)) }),
            r.valid_in(final(b)@),
    {
        let x = self.x.floor(b);
        let y = self.y.floor(b);
        float2 { x: x, y: y }
    }

    /// The absolute value of each component.
    pub fn abs(self, b: &mut ShaderBuilder) -> (r: float2)
        requires
            self.valid_in(old(b)@),
            old(b)@.len() + 2 <= u32::MAX,
        ensures
            final(b)@ == old(b)@ + seq![ShaderOp::FAbs(self.x.0), ShaderOp::FAbs(self.y.0)],
            r == (float2 { x: float1(next_id(old(b)@, 0)), y: float1(next_id(old(b)@, 1)) }),
            r.valid_in(final(b)@),
    {
        let x = self.x.abs(b);
        let y = self.y.abs(b);
        float2 { x: x, y: y }
    }

    /// The derivative in X of each component.
    pub fn dx(self, b: &mut ShaderBuilder) -> (r: float2)
        requires
            self.valid_in(old(b)@),
            old(b)@.len() + 2 <= u32::MAX,
        ensures
            final(b)@ == old(b)@ + seq![ShaderOp::DerivX(self.x.0), ShaderOp::DerivX(self.y.0)],
            r == (float2 { x: float1(next_id(old(b)@, 0)), y: float1(next_id(old(b)@, 1)) }),
            r.valid_in(final(b)@),
    {
        let x = self.x.dx(b);
        let y = self.y.dx(b);
        float2 { x: x, y: y }
    }

    /// The derivative in Y of each component.
    pub fn dy(self, b: &mut ShaderBuilder) -> (r: float2)
        requires
            self.valid_in(old(b)@),
            old(b)@.len() + 2 <= u32::MAX,
        ensures
            final(b)@ == old(b)@ + seq![ShaderOp::DerivY(self.x.0), ShaderOp::DerivY(self.y.0)],
            r == (float2 { x: float1(next_id(old(b)@, 0)), y: float1(next_id(old(b)@, 1)) }),
            r.valid_in(final(b)@),
    {
        let x = self.x.dy(b);
        let y = self.y.dy(b);
        float2 { x: x, y: y }
    }

    /// The negation of each component.
    pub fn neg(self, b: &mut ShaderBuilder) -> (r: float2)
        requires
            self.valid_in(old(b)@),
            old(b)@.len() + 2 <= u32::MAX,
        ensures
            final(b)@ == old(b)@ + seq![ShaderOp::FNeg(self.x.0), ShaderOp::FNeg(self.y.0)],
            r == (float2 { x: float1(next_id(old(b)@, 0)), y: float1(next_id(old(b)@, 1)) }),
            r.valid_in(final(b)@),
    {
        let x = self.x.neg(b);
        let y = self.y.neg(b);
        float2 { x: x, y: y }
    }

    /// The componentwise smallest.
    pub fn min(self, rhs: float2, b: &mut ShaderBuilder) -> (r: float2)
        requires
            self.valid_in(old(b)@),
            rhs.valid_in(old(b)@),
            old(b)@.len() + 2 <= u32::MAX,
        ensures
            final(b)@ == old(b)@ + seq![ShaderOp::FMin(self.x.0, rhs.x.0), ShaderOp::FMin(self.y.0, rhs.y.0)],
            r == (float2 { x: float1(next_id(old(b)@, 0)), y: float1(next_id(old(b)@, 1)) }),
            r.valid_in(final(b)@),
    {
        let x = self.x.min(rhs.x, b);
        let y = self.y.min(rhs.y, b);
        float2 { x: x, y: y }
    }

    /// The componentwise largest.
    pub fn max(self, rhs: float2, b: &mut ShaderBuilder) -> (r: float2)
        requires
            self.valid_in(old(b)@),
            rhs.valid_in(old(b)@),
            old(b)@.len() + 2 <= u32::MAX,
        ensures
            final(b)@ == old(b)@ + seq![ShaderOp::FMax(self.x.0, rhs.x.0), ShaderOp::FMax(self.y.0, rhs.y.0)],
            r == (float2 { x: float1(next_id(old(b)@, 0)), y: float1(next_id(old(b)@, 1)) }),
            r.valid_in(final(b)@),
    {
        let x = self.x.max(rhs.x, b);
        let y = self.y.max(rhs.y, b);
        float2 { x: x, y: y }
    }

    /// The componentwise arctangent of `rhs / self`, by quadrant.
    pub fn atan2(self, rhs: float2, b: &mut ShaderBuilder) -> (r: float2)
        requires
            self.valid_in(old(b)@),
            rhs.valid_in(old(b)@),
            old(b)@.len() + 2 <= u32::MAX,
        ensures
            final(b)@ == old(b)@ + seq![ShaderOp::Atan2(rhs.x.0, self.x.0), ShaderOp::Atan2(rhs.y.0, self.y.0)],
            r == (float2 { x: float1(next_id(old(b)@, 0)), y: float1(next_id(old(b)@, 1)) }),
            r.valid_in(final(b)@),
    {
        let x = self.x.atan2(rhs.x, b);
        let y = self.y.atan2(rhs.y, b);
        float2 { x: x, y: y }
    }

    /// The componentwise power.
    pub fn powf(self, rhs: float2, b: &mut ShaderBuilder) -> (r: float2)
        requires
            self.valid_in(old(b)@),
            rhs.valid_in(old(b)@),
            old(b)@.len() + 2 <= u32::MAX,
        ensures
            final(b)@ == old(b)@ + seq![ShaderOp::Pow(self.x.0, rhs.x.0), ShaderOp::Pow(self.y.0, rhs.y.0)],
            r == (float2 { x: float1(next_id(old(b)@, 0)), y: float1(next_id(old(b)@, 1)) }),
            r.valid_in(final(b)@),
    {
        let x = self.x.powf(rhs.x, b);
        let y = self.y.powf(rhs.y, b);
        float2 { x: x, y: y }
    }

    /// The componentwise euclidean remainder.
    pub fn rem_euclid(self, rhs: float2, b: &mut ShaderBuilder) -> (r: float2)
        requires
            self.valid_in(old(b)@),
            rhs.valid_in(old(b)@),
            old(b)@.len() + 2 <= u32::MAX,
        ensures
            final(b)@ == old(b)@ + seq![ShaderOp::FMod(self.x.0, rhs.x.0), ShaderOp::FMod(self.y.0, rhs.y.0)],
            r == (float2 { x: float1(next_id(old(b)@, 0)), y: float1(next_id(old(b)@, 1)) }),
            r.valid_in(final(b)@),
    {
        let x = self.x.rem_euclid(rhs.x, b);
        let y = self.y.rem_euclid(rhs.y, b);
        float2 { x: x, y: y }
    }

    /// The componentwise sum.
    pub fn add(self, rhs: float2, b: &mut ShaderBuilder) -> (r: float2)
        requires
            self.valid_in(old(b)@),
            rhs.valid_in(old(b)@),
            old(b)@.len() + 2 <= u32::MAX,
        ensures
            final(b)@ == old(b)@ + seq![ShaderOp::FAdd(self.x.0, rhs.x.0), ShaderOp::FAdd(self.y.0, rhs.y.0)],
            r == (float2 { x: float1(next_id(old(b)@, 0)), y: float1(next_id(old(b)@, 1)) }),
            r.valid_in(final(b)@),
    {
        let x = self.x.add(rhs.x, b);
        let y = self.y.add(rhs.y, b);
        float2 { x: x, y: y }
    }

    /// The componentwise difference.
    pub fn sub(self, rhs: float2, b: &mut ShaderBuilder) -> (r: float2)
        requires
            self.valid_in(old(b)@),
            rhs.valid_in(old(b)@),
            old(b)@.len() + 2 <= u32::MAX,
        ensures
            final(b)@ == old(b)@ + seq![ShaderOp::FSub(self.x.0, rhs.x.0), ShaderOp::FSub(self.y.0, rhs.y.0)],
            r == (float2 { x: float1(next_id(old(b)@, 0)), y: float1(next_id(old(b)@, 1)) }),
            r.valid_in(final(b)@),
    {
        let x = self.x.sub(rhs.x, b);
        let y = self.y.sub(rhs.y, b);
        float2 { x: x, y: y }
    }

    /// The componentwise product.
    pub fn mul(self, rhs: float2, b: &mut ShaderBuilder) -> (r: float2)
        requires
            self.valid_in(old(b)@),
            rhs.valid_in(old(b)@),
            old(b)@.len() + 2 <= u32::MAX,
        ensures
            final(b)@ == old(b)@ + seq![ShaderOp::FMul(self.x.0, rhs.x.0), ShaderOp::FMul(self.y.0, rhs.y.0)],
            r == (float2 { x: float1(next_id(old(b)@, 0)), y: float1(next_id(old(b)@, 1)) }),
            r.valid_in(final(b)@),
    {
        let x = self.x.mul(rhs.x, b);
        let y = self.y.mul(rhs.y, b);
        float2 { x: x, y: y }
    }

    /// The componentwise quotient.
    pub fn div(self, rhs: float2, b: &mut ShaderBuilder) -> (r: float2)
        requires
            self.valid_in(old(b)@),
            rhs.valid_in(old(b)@),
            old(b)@.len() + 2 <= u32::MAX,
        ensures
            final(b)@ == old(b)@ + seq![ShaderOp::FDiv(self.x.0, rhs.x.0), ShaderOp::FDiv(self.y.0, rhs.y.0)],
            r == (float2 { x: float1(next_id(old(b)@, 0)), y: float1(next_id(old(b)@, 1)) }),
            r.valid_in(final(b)@),
    {
        let x = self.x.div(rhs.x, b);
        let y = self.y.div(rhs.y, b);
        float2 { x: x, y: y }
    }

    /// The sum of each component and `rhs`.
    pub fn add_scalar(self, rhs: float1, b: &mut ShaderBuilder) -> (r: float2)
        requires
            self.valid_in(old(b)@),
            rhs.valid_in(old(b)@),
            old(b)@.len() + 2 <= u32::MAX,
        ensures
            final(b)@ == old(b)@ + seq![ShaderOp::FAdd(self.x.0, rhs.0), ShaderOp::FAdd(self.y.0, rhs.0)],
            r == (float2 { x: float1(next_id(old(b)@, 0)), y: float1(next_id(old(b)@, 1)) }),
            r.valid_in(final(b)@),
    {
        let x = self.x.add(rhs, b);
        let y = self.y.add(rhs, b);
        float2 { x: x, y: y }
    }

    /// The difference of each component and `rhs`.
    pub fn sub_scalar(self, rhs: float1, b: &mut ShaderBuilder) -> (r: float2)
        requires
            self.valid_in(old(b)@),
            rhs.valid_in(old(b)@),
            old(b)@.len() + 2 <= u32::MAX,
        ensures
            final(b)@ == old(b)@ + seq![ShaderOp::FSub(self.x.0, rhs.0), ShaderOp::FSub(self.y.0, rhs.0)],
            r == (float2 { x: float1(next_id(old(b)@, 0)), y: float1(next_id(old(b)@, 1)) }),
            r.valid_in(final(b)@),
    {
        let x = self.x.sub(rhs, b);
        let y = self.y.sub(rhs, b);
        float2 { x: x, y: y }
    }

    /// The product of each component and `rhs`.
    pub fn mul_scalar(self, rhs: float1, b: &mut ShaderBuilder) -> (r: float2)
        requires
            self.valid_in(old(b)@),
            rhs.valid_in(old(b)@),
            old(b)@.len() + 2 <= u32::MAX,
        ensures
            final(b)@ == old(b)@ + seq![ShaderOp::FMul(self.x.0, rhs.0), ShaderOp::FMul(self.y.0, rhs.0)],
            r == (float2 { x: float1(next_id(old(b)@, 0)), y: float1(next_id(old(b)@, 1)) }),
            r.valid_in(final(b)@),
    {
        let x = self.x.mul(rhs, b);
        let y = self.y.mul(rhs, b);
        float2 { x: x, y: y }
    }

    /// The quotient of each component and `rhs`.
    pub fn div_scalar(self, rhs: float1, b: &mut ShaderBuilder) -> (r: float2)
        requires
            self.valid_in(old(b)@),
            rhs.valid_in(old(b)@),
            old(b)@.len() + 2 <= u32::MAX,
        ensures
            final(b)@ == old(b)@ + seq![ShaderOp::FDiv(self.x.0, rhs.0), ShaderOp::FDiv(self.y.0, rhs.0)],
            r == (float2 { x: float1(next_id(old(b)@, 0)), y: float1(next_id(old(b)@, 1)) }),
            r.valid_in(final(b)@),
    {
        let x = self.x.div(rhs, b);
        let y = self.y.div(rhs, b);
        float2 { x: x, y: y }
    }

    /// Clamp each component between the components of `min` and `max`.
    pub fn clamp(self, min: float2, max: float2, b: &mut ShaderBuilder) -> (r: float2)
        requires
            self.valid_in(old(b)@),
            min.valid_in(old(b)@),
            max.valid_in(old(b)@),
            old(b)@.len() + 4 <= u32::MAX,
        ensures
            final(b)@ == old(b)@ + seq![ShaderOp::FMin(self.x.0, max.x.0), ShaderOp::FMax(next_id(old(b)@, 0), min.x.0), ShaderOp::FMin(self.y.0, max.y.0), ShaderOp::FMax(next_id(old(b)@, 2), min.y.0)],
            r == (float2 { x: float1(next_id(old(b)@, 1)), y: float1(next_id(old(b)@, 3)) }),
            r.valid_in(final(b)@),
    {
        let x = self.x.clamp(min.x, max.x, b);
        let y = self.y.clamp(min.y, max.y, b);
        float2 { x: x, y: y }
    }

    /// Linearly interpolate each component of `start` and `end` by the matching component of `self`.
    pub fn lerp(self, start: float2, end: float2, b: &mut ShaderBuilder) -> (r: float2)
        requires
            self.valid_in(old(b)@),
            start.valid_in(old(b)@),
            end.valid_in(old(b)@),
            old(b)@.len() + 2 <= u32::MAX,
        ensures
            final(b)@ == old(b)@ + seq![ShaderOp::Lerp(self.x.0, start.x.0, end.x.0), ShaderOp::Lerp(self.y.0, start.y.0, end.y.0)],
            r == (float2 { x: float1(next_id(old(b)@, 0)), y: float1(next_id(old(b)@, 1)) }),
            r.valid_in(final(b)@),
    {
        let x = self.x.lerp(start.x, end.x, b);
        let y = self.y.lerp(start.y, end.y, b);
        float2 { x: x, y: y }
    }

    /// Get the dot product with another vector.
    pub fn dot(self, rhs: float2, b: &mut ShaderBuilder) -> (r: float1)
        requires
            self.valid_in(old(b)@),
            rhs.valid_in(old(b)@),
            old(b)@.len() + 3 <= u32::MAX,
        ensures
            final(b)@ == old(b)@ + seq![ShaderOp::FMul(self.x.0, rhs.x.0), ShaderOp::FMul(self.y.0, rhs.y.0), ShaderOp::FAdd(next_id(old(b)@, 0), next_id(old(b)@, 1))],
            r == float1(next_id(old(b)@, 2)),
            r.valid_in(final(b)@),
    {
        let x = self.x.mul(rhs.x, b);
        let y = self.y.mul(rhs.y, b);
        let s = x.add(y, b);
        s
    }

    /// Get the length of the vector.
    pub fn len(self, b: &mut ShaderBuilder) -> (r: float1)
        requires
            self.valid_in(old(b)@),
            old(b)@.len() + 4 <= u32::MAX,
        ensures
            final(b)@ == old(b)@ + seq![ShaderOp::FMul(self.x.0, self.x.0), ShaderOp::FMul(self.y.0, self.y.0), ShaderOp::FAdd(next_id(old(b)@, 0), next_id(old(b)@, 1)), ShaderOp::Sqrt(next_id(old(b)@, 2))],
            r == float1(next_id(old(b)@, 3)),
            r.valid_in(final(b)@),
    {
        let d = self.dot(self, b);
        d.sqrt(b)
    }

    /// Normalize the vector to length 1.
    pub fn norm(self, b: &mut ShaderBuilder) -> (r: float2)
        requires
            self.valid_in(old(b)@),
            old(b)@.len() + 6 <= u32::MAX,
        ensures
            final(b)@ == old(b)@ + seq![ShaderOp::FMul(self.x.0, self.x.0), ShaderOp::FMul(self.y.0, self.y.0), ShaderOp::FAdd(next_id(old(b)@, 0), next_id(old(b)@, 1)), ShaderOp::Sqrt(next_id(old(b)@, 2)), ShaderOp::FDiv(self.x.0, next_id(old(b)@, 3)), ShaderOp::FDiv(self.y.0, next_id(old(b)@, 3))],
            r == (float2 { x: float1(next_id(old(b)@, 4)), y: float1(next_id(old(b)@, 5)) }),
            r.valid_in(final(b)@),
    {
        let l = self.len(b);
        self.div_scalar(l, b)
    }

    /// Get the position of the current pixel in screen space.
    pub fn position(b: &mut ShaderBuilder) -> (r: float2)
        requires
            old(b)@.len() + 2 <= u32::MAX,
        ensures
            final(b)@ == old(b)@ + seq![ShaderOp::PosX, ShaderOp::PosY],
            r == (float2 { x: float1(next_id(old(b)@, 0)), y: float1(next_id(old(b)@, 1)) }),
            r.valid_in(final(b)@),
    {
        let x = float1(b.add(ShaderOp::PosX));
        let y = float1(b.add(ShaderOp::PosY));
        float2 { x, y }
    }

    /// Get the resolution of the render target.
    pub fn resolution(b: &mut ShaderBuilder) -> (r: float2)
        requires
            old(b)@.len() + 2 <= u32::MAX,
        ensures
            final(b)@ == old(b)@ + seq![ShaderOp::ResX, ShaderOp::ResY],
            r == (float2 { x: float1(next_id(old(b)@, 0)), y: float1(next_id(old(b)@, 1)) }),
            r.valid_in(final(b)@),
    {
        let x = float1(b.add(ShaderOp::ResX));
        let y = float1(b.add(ShaderOp::ResY));
        float2 { x, y }
    }
}

impl Lerp<float1> for float2 {
    open spec fn width() -> nat {
        2
    }

    open spec fn lerp_ops(sel: float1, start: Self, end: Self, n: nat) -> Seq<ShaderOp> {
        seq![ShaderOp::Lerp(sel.0, start.x.0, end.x.0), ShaderOp::Lerp(sel.0, start.y.0, end.y.0)]
    }

    open spec fn lerp_result(sel: float1, start: Self, end: Self, n: nat) -> Self {
        float2 { x: float1((n + 0) as u32), y: float1((n + 1) as u32) }
    }

    fn lerp(sel: float1, start: Self, end: Self, b: &mut ShaderBuilder) -> (r: Self) {
        let x = sel.lerp(start.x, end.x, b);
        let y = sel.lerp(start.y, end.y, b);
        float2 { x: x, y: y }
    }
}

impl Lerp<float2> for float2 {
    open spec fn width() -> nat {
        2
    }

    open spec fn lerp_ops(sel: float2, start: Self, end: Self, n: nat) -> Seq<ShaderOp> {
        seq![ShaderOp::Lerp(sel.x.0, start.x.0, end.x.0), ShaderOp::Lerp(sel.y.0, start.y.0, end.y.0)]
    }

    open spec fn lerp_result(sel: float2, start: Self, end: Self, n: nat) -> Self {
        float2 { x: float1((n + 0) as u32), y: float1((n + 1) as u32) }
    }

    fn lerp(sel: float2, start: Self, end: Self, b: &mut ShaderBuilder) -> (r: Self) {
        let x = sel.x.lerp(start.x, end.x, b);
        let y = sel.y.lerp(start.y, end.y, b);
        float2 { x: x, y: y }
    }
}

impl Lerp<boolean> for float2 {
    open spec fn width() -> nat {
        2
    }

    open spec fn lerp_ops(sel: boolean, start: Self, end: Self, n: nat) -> Seq<ShaderOp> {
        seq![ShaderOp::FSelect(sel.0, start.x.0, end.x.0), ShaderOp::FSelect(sel.0, start.y.0, end.y.0)]
    }

    open spec fn lerp_result(sel: boolean, start: Self, end: Self, n: nat) -> Self {
        float2 { x: float1((n + 0) as u32), y: float1((n + 1) as u32) }
    }

    fn lerp(sel: boolean, start: Self, end: Self, b: &mut ShaderBuilder) -> (r: Self) {
        let x = sel.select(start.x, end.x, b);
        let y = sel.select(start.y, end.y, b);
        float2 { x: x, y: y }
    }
}

impl float3 {
    /// A vector of the given components.
    pub fn new(x: float1, y: float1, z: float1) -> (r: float3)
        ensures
            r == (float3 { x: x, y: y, z: z }),
    {
        float3 { x: x, y: y, z: z }
    }

    /// A vector with every component set to `v`.
    pub fn splat(v: float1) -> (r: float3)
        ensures
            r == (float3 { x: v, y: v, z: v }),
    {
        float3 { x: v, y: v, z: v }
    }

    /// Get the X component.
    pub fn x(self) -> (r: float1)
        ensures
            r == self.x,
    {
        self.x
    }

    /// Get the Y component.
    pub fn y(self) -> (r: float1)
        ensures
            r == self.y,
    {
        self.y
    }

    /// Get the Z component.
    pub fn z(self) -> (r: float1)
        ensures
            r == self.z,
    {
        self.z
    }

    /// The sine of each component.
    pub fn sin(self, b: &mut ShaderBuilder) -> (r: float3)
        requires
            self.valid_in(old(b)@),
            old(b)@.len() + 3 <= u32::MAX,
        ensures
            final(b)@ == old(b)@ + seq![ShaderOp::Sin(self.x.0), ShaderOp::Sin(self.y.0), ShaderOp::Sin(self.z.0)],
            r == (float3 { x: float1(next_id(old(b)@, 0)), y: float1(next_id(old(b)@, 1)), z: float1(next_id(old(b)@, 2)) }),
            r.valid_in(final(b)@),
    {
        let x = self.x.sin(b);
        let y = self.y.sin(b);
        let z = self.z.sin(b);
        float3 { x: x, y: y, z: z }
    }

    /// The cosine of each component.
    pub fn cos(self, b: &mut ShaderBuilder) -> (r: float3)
        requires
            self.valid_in(old(b)@),
            old(b)@.len() + 3 <= u32::MAX,
        ensures
            final(b)@ == old(b)@ + seq![ShaderOp::Cos(self.x.0), ShaderOp::Cos(self.y.0), ShaderOp::Cos(self.z.0)],
            r == (float3 { x: float1(next_id(old(b)@, 0)), y: float1(next_id(old(b)@, 1)), z: float1(next_id(old(b)@, 2)) }),
            r.valid_in(final(b)@),
    {
        let x = self.x.cos(b);
        let y = self.y.cos(b);
        let z = self.z.cos(b);
        float3 { x: x, y: y, z: z }
    }

    /// The tangent of each component.
    pub fn tan(self, b: &mut ShaderBuilder) -> (r: float3)
        requires
            self.valid_in(old(b)@),
            old(b)@.len() + 3 <= u32::MAX,
        ensures
            final(b)@ == old(b)@ + seq![ShaderOp::Tan(self.x.0), ShaderOp::Tan(self.y.0), ShaderOp::Tan(self.z.0)],
            r == (float3 { x: float1(next_id(old(b)@, 0)), y: float1(next_id(old(b)@, 1)), z: float1(next_id(old(b)@, 2)) }),
            r.valid_in(final(b)@),
    {
        let x = self.x.tan(b);
        let y = self.y.tan(b);
        let z = self.z.tan(b);
        float3 { x: x, y: y, z: z }
    }

    /// The arcsine of each component.
    pub fn asin(self, b: &mut ShaderBuilder) -> (r: float3)
        requires
            self.valid_in(old(b)@),
            old(b)@.len() + 3 <= u32::MAX,
        ensures
            final(b)@ == old(b)@ + seq![ShaderOp::Asin(self.x.0), ShaderOp::Asin(self.y.0), ShaderOp::Asin(self.z.0)],
            r == (float3 { x: float1(next_id(old(b)@, 0)), y: float1(next_id(old(b)@, 1)), z: float1(next_id(old(b)@, 2)) }),
            r.valid_in(final(b)@),
    {
        let x = self.x.asin(b);
        let y = self.y.asin(b);
        let z = self.z.asin(b);
        float3 { x: x, y: y, z: z }
    }

    /// The arccosine of each component.
    pub fn acos(self, b: &mut ShaderBuilder) -> (r: float3)
        requires
            self.valid_in(old(b)@),
            old(b)@.len() + 3 <= u32::MAX,
        ensures
            final(b)@ == old(b)@ + seq![ShaderOp::Acos(self.x.0), ShaderOp::Acos(self.y.0), ShaderOp::Acos(self.z.0)],
            r == (float3 { x: float1(next_id(old(b)@, 0)), y: float1(next_id(old(b)@, 1)), z: float1(next_id(old(b)@, 2)) }),
            r.valid_in(final(b)@),
    {
        let x = self.x.acos(b);
        let y = self.y.acos(b);
        let z = self.z.acos(b);
        float3 { x: x, y: y, z: z }
    }

    /// The arctangent of each component.
    pub fn atan(self, b: &mut ShaderBuilder) -> (r: float3)
        requires
            self.valid_in(old(b)@),
            old(b)@.len() + 3 <= u32::MAX,
        ensures
            final(b)@ == old(b)@ + seq![ShaderOp::Atan(self.x.0), ShaderOp::Atan(self.y.0), ShaderOp::Atan(self.z.0)],
            r == (float3 { x: float1(next_id(old(b)@, 0)), y: float1(next_id(old(b)@, 1)), z: float1(next_id(old(b)@, 2)) }),
            r.valid_in(final(b)@),
    {
        let x = self.x.atan(b);
        let y = self.y.atan(b);
        let z = self.z.atan(b);
        float3 { x: x, y: y, z: z }
    }

    /// The square root of each component.
    pub fn sqrt(self, b: &mut ShaderBuilder) -> (r: float3)
        requires
            self.valid_in(old(b)@),
            old(b)@.len() + 3 <= u32::MAX,
        ensures
            final(b)@ == old(b)@ + seq![ShaderOp::Sqrt(self.x.0), ShaderOp::Sqrt(self.y.0), ShaderOp::Sqrt(self.z.0)],
            r == (float3 { x: float1(next_id(old(b)@, 0)), y: float1(next_id(old(b)@, 1)), z: float1(next_id(old(b)@, 2)) }),
            r.valid_in(final(b)@),
    {
        let x = self.x.sqrt(b);
        let y = self.y.sqrt(b);
        let z = self.z.sqrt(b);
        float3 { x: x, y: y, z: z }
    }

    /// The exponential of each component.
    pub fn exp(self, b: &mut ShaderBuilder) -> (r: float3)
        requires
            self.valid_in(old(b)@),
            old(b)@.len() + 3 <= u32::MAX,
        ensures
            final(b)@ == old(b)@ + seq![ShaderOp::Exp(self.x.0), ShaderOp::Exp(self.y.0), ShaderOp::Exp(self.z.0)],
            r == (float3 { x: float1(next_id(old(b)@, 0)), y: float1(next_id(old(b)@, 1)), z: float1(next_id(old(b)@, 2)) }),
            r.valid_in(final(b)@),
    {
        let x = self.x.exp(b);
        let y = self.y.exp(b);
        let z = self.z.exp(b);
        float3 { x: x, y: y, z: z }
    }

    /// The natural logarithm of each component.
    pub fn ln(self, b: &mut ShaderBuilder) -> (r: float3)
        requires
            self.valid_in(old(b)@),
            old(b)@.len() + 3 <= u32::MAX,
        ensures
            final(b)@ == old(b)@ + seq![ShaderOp::Ln(self.x.0), ShaderOp::Ln(self.y.0), ShaderOp::Ln(self.z.0)],
            r == (float3 { x: float1(next_id(old(b)@, 0)), y: float1(next_id(old(b)@, 1)), z: float1(next_id(old(b)@, 2)) }),
            r.valid_in(final(b)@),
    {
        let x = self.x.ln(b);
        let y = self.y.ln(b);
        let z = self.z.ln(b);
        float3 { x: x, y: y, z: z }
    }

    /// The floor of each component.
    pub fn floor(self, b: &mut ShaderBuilder) -> (r: float3)
        requires
            self.valid_in(old(b)@),
            old(b)@.len() + 3 <= u32::MAX,
        ensures
            final(b)@ == old(b)@ + seq![ShaderOp::Floor(self.x.0), ShaderOp::Floor(self.y.0), ShaderOp::Floor(self.z.0)],
            r == (float3 { x: float1(next_id(old(b)@, 0)), y: float1(next_id(old(b)@, 1)), z: float1(next_id(old(b)@, 2)) }),
            r.valid_in(final(b)@),
    {
        let x = self.x.floor(b);
        let y = self.y.floor(b);
        let z = self.z.floor(b);
        float3 { x: x, y: y, z: z }
    }

    /// The absolute value of each component.
    pub fn abs(self, b: &mut ShaderBuilder) -> (r: float3)
        requires
            self.valid_in(old(b)@),
            old(b)@.len() + 3 <= u32::MAX,
        ensures
            final(b)@ == old(b)@ + seq![ShaderOp::FAbs(self.x.0), ShaderOp::FAbs(self.y.0), ShaderOp::FAbs(self.z.0)],
            r == (float3 { x: float1(next_id(old(b)@, 0)), y: float1(next_id(old(b)@, 1)), z: float1(next_id(old(b)@, 2)) }),
            r.valid_in(final(b)@),
    {
        let x = self.x.abs(b);
        let y = self.y.abs(b);
        let z = self.z.abs(b);
        float3 { x: x, y: y, z: z }
    }

    /// The derivative in X of each component.
    pub fn dx(self, b: &mut ShaderBuilder) -> (r: float3)
        requires
            self.valid_in(old(b)@),
            old(b)@.len() + 3 <= u32::MAX,
        ensures
            final(b)@ == old(b)@ + seq![ShaderOp::DerivX(self.x.0), ShaderOp::DerivX(self.y.0), ShaderOp::DerivX(self.z.0)],
            r == (float3 { x: float1(next_id(old(b)@, 0)), y: float1(next_id(old(b)@, 1)), z: float1(next_id(old(b)@, 2)) }),
            r.valid_in(final(b)@),
    {
        let x = self.x.dx(b);
        let y = self.y.dx(b);
        let z = self.z.dx(b);
        float3 { x: x, y: y, z: z }
    }

    /// The derivative in Y of each component.
    pub fn dy(self, b: &mut ShaderBuilder) -> (r: float3)
        requires
            self.valid_in(old(b)@),
            old(b)@.len() + 3 <= u32::MAX,
        ensures
            final(b)@ == old(b)@ + seq![ShaderOp::DerivY(self.x.0), ShaderOp::DerivY(self.y.0), ShaderOp::DerivY(self.z.0)],
            r == (float3 { x: float1(next_id(old(b)@, 0)), y: float1(next_id(old(b)@, 1)), z: float1(next_id(old(b)@, 2)) }),
            r.valid_in(final(b)@),
    {
        let x = self.x.dy(b);
        let y = self.y.dy(b);
        let z = self.z.dy(b);
        float3 { x: x, y: y, z: z }
    }

    /// The negation of each component.
    pub fn neg(self, b: &mut ShaderBuilder) -> (r: float3)
        requires
            self.valid_in(old(b)@),
            old(b)@.len() + 3 <= u32::MAX,
        ensures
            final(b)@ == old(b)@ + seq![ShaderOp::FNeg(self.x.0), ShaderOp::FNeg(self.y.0), ShaderOp::FNeg(self.z.0)],
            r == (float3 { x: float1(next_id(old(b)@, 0)), y: float1(next_id(old(b)@, 1)), z: float1(next_id(old(b)@, 2)) }),
            r.valid_in(final(b)@),
    {
        let x = self.x.neg(b);
        let y = self.y.neg(b);
        let z = self.z.neg(b);
        float3 { x: x, y: y, z: z }
    }

    /// The componentwise smallest.
    pub fn min(self, rhs: float3, b: &mut ShaderBuilder) -> (r: float3)
        requires
            self.valid_in(old(b)@),
            rhs.valid_in(old(b)@),
            old(b)@.len() + 3 <= u32::MAX,
        ensures
            final(b)@ == old(b)@ + seq![ShaderOp::FMin(self.x.0, rhs.x.0), ShaderOp::FMin(self.y.0, rhs.y.0), ShaderOp::FMin(self.z.0, rhs.z.0)],
            r == (float3 { x: float1(next_id(old(b)@, 0)), y: float1(next_id(old(b)@, 1)), z: float1(next_id(old(b)@, 2)) }),
            r.valid_in(final(b)@),
    {
        let x = self.x.min(rhs.x, b);
        let y = self.y.min(rhs.y, b);
        let z = self.z.min(rhs.z, b);
        float3 { x: x, y: y, z: z }
    }

    /// The componentwise largest.
    pub fn max(self, rhs: float3, b: &mut ShaderBuilder) -> (r: float3)
        requires
            self.valid_in(old(b)@),
            rhs.valid_in(old(b)@),
            old(b)@.len() + 3 <= u32::MAX,
        ensures
            final(b)@ == old(b)@ + seq![ShaderOp::FMax(self.x.0, rhs.x.0), ShaderOp::FMax(self.y.0, rhs.y.0), ShaderOp::FMax(self.z.0, rhs.z.0)],
            r == (float3 { x: float1(next_id(old(b)@, 0)), y: float1(next_id(old(b)@, 1)), z: float1(next_id(old(b)@, 2)) }),
            r.valid_in(final(b)@),
    {
        let x = self.x.max(rhs.x, b);
        let y = self.y.max(rhs.y, b);
        let z = self.z.max(rhs.z, b);
        float3 { x: x, y: y, z: z }
    }

    /// The componentwise arctangent of `rhs / self`, by quadrant.
    pub fn atan2(self, rhs: float3, b: &mut ShaderBuilder) -> (r: float3)
        requires
            self.valid_in(old(b)@),
            rhs.valid_in(old(b)@),
            old(b)@.len() + 3 <= u32::MAX,
        ensures
            final(b)@ == old(b)@ + seq![ShaderOp::Atan2(rhs.x.0, self.x.0), ShaderOp::Atan2(rhs.y.0, self.y.0), ShaderOp::Atan2(rhs.z.0, self.z.0)],
            r == (float3 { x: float1(next_id(old(b)@, 0)), y: float1(next_id(old(b)@, 1)), z: float1(next_id(old(b)@, 2)) }),
            r.valid_in(final(b)@),
    {
        let x = self.x.atan2(rhs.x, b);
        let y = self.y.atan2(rhs.y, b);
        let z = self.z.atan2(rhs.z, b);
        float3 { x: x, y: y, z: z }
    }

    /// The componentwise power.
    pub fn powf(self, rhs: float3, b: &mut ShaderBuilder) -> (r: float3)
        requires
            self.valid_in(old(b)@),
            rhs.valid_in(old(b)@),
            old(b)@.len() + 3 <= u32::MAX,
        ensures
            final(b)@ == old(b)@ + seq![ShaderOp::Pow(self.x.0, rhs.x.0), ShaderOp::Pow(self.y.0, rhs.y.0), ShaderOp::Pow(self.z.0, rhs.z.0)],
            r == (float3 { x: float1(next_id(old(b)@, 0)), y: float1(next_id(old(b)@, 1)), z: float1(next_id(old(b)@, 2)) }),
            r.valid_in(final(b)@),
    {
        let x = self.x.powf(rhs.x, b);
        let y = self.y.powf(rhs.y, b);
        let z = self.z.powf(rhs.z, b);
        float3 { x: x, y: y, z: z }
    }

    /// The componentwise euclidean remainder.
    pub fn rem_euclid(self, rhs: float3, b: &mut ShaderBuilder) -> (r: float3)
        requires
            self.valid_in(old(b)@),
            rhs.valid_in(old(b)@),
            old(b)@.len() + 3 <= u32::MAX,
        ensures
            final(b)@ == old(b)@ + seq![ShaderOp::FMod(self.x.0, rhs.x.0), ShaderOp::FMod(self.y.0, rhs.y.0), ShaderOp::FMod(self.z.0, rhs.z.0)],
            r == (float3 { x: float1(next_id(old(b)@, 0)), y: float1(next_id(old(b)@, 1)), z: float1(next_id(old(b)@, 2)) }),
            r.valid_in(final(b)@),
    {
        let x = self.x.rem_euclid(rhs.x, b);
        let y = self.y.rem_euclid(rhs.y, b);
        let z = self.z.rem_euclid(rhs.z, b);
        float3 { x: x, y: y, z: z }
    }

    /// The componentwise sum.
    pub fn add(self, rhs: float3, b: &mut ShaderBuilder) -> (r: float3)
        requires
            self.valid_in(old(b)@),
            rhs.valid_in(old(b)@),
            old(b)@.len() + 3 <= u32::MAX,
        ensures
            final(b)@ == old(b)@ + seq![ShaderOp::FAdd(self.x.0, rhs.x.0), ShaderOp::FAdd(self.y.0, rhs.y.0), ShaderOp::FAdd(self.z.0, rhs.z.0)],
            r == (float3 { x: float1(next_id(old(b)@, 0)), y: float1(next_id(old(b)@, 1)), z: float1(next_id(old(b)@, 2)) }),
            r.valid_in(final(b)@),
    {
        let x = self.x.add(rhs.x, b);
        let y = self.y.add(rhs.y, b);
        let z = self.z.add(rhs.z, b);
        float3 { x: x, y: y, z: z }
    }

    /// The componentwise difference.
    pub fn sub(self, rhs: float3, b: &mut ShaderBuilder) -> (r: float3)
        requires
            self.valid_in(old(b)@),
            rhs.valid_in(old(b)@),
            old(b)@.len() + 3 <= u32::MAX,
        ensures
            final(b)@ == old(b)@ + seq![ShaderOp::FSub(self.x.0, rhs.x.0), ShaderOp::FSub(self.y.0, rhs.y.0), ShaderOp::FSub(self.z.0, rhs.z.0)],
            r == (float3 { x: float1(next_id(old(b)@, 0)), y: float1(next_id(old(b)@, 1)), z: float1(next_id(old(b)@, 2)) }),
            r.valid_in(final(b)@),
    {
        let x = self.x.sub(rhs.x, b);
        let y = self.y.sub(rhs.y, b);
        let z = self.z.sub(rhs.z, b);
        float3 { x: x, y: y, z: z }
    }

    /// The componentwise product.
    pub fn mul(self, rhs: float3, b: &mut ShaderBuilder) -> (r: float3)
        requires
            self.valid_in(old(b)@),
            rhs.valid_in(old(b)@),
            old(b)@.len() + 3 <= u32::MAX,
        ensures
            final(b)@ == old(b)@ + seq![ShaderOp::FMul(self.x.0, rhs.x.0), ShaderOp::FMul(self.y.0, rhs.y.0), ShaderOp::FMul(self.z.0, rhs.z.0)],
            r == (float3 { x: float1(next_id(old(b)@, 0)), y: float1(next_id(old(b)@, 1)), z: float1(next_id(old(b)@, 2)) }),
            r.valid_in(final(b)@),
    {
        let x = self.x.mul(rhs.x, b);
        let y = self.y.mul(rhs.y, b);
        let z = self.z.mul(rhs.z, b);
        float3 { x: x, y: y, z: z }
    }

    /// The componentwise quotient.
    pub fn div(self, rhs: float3, b: &mut ShaderBuilder) -> (r: float3)
        requires
            self.valid_in(old(b)@),
            rhs.valid_in(old(b)@),
            old(b)@.len() + 3 <= u32::MAX,
        ensures
            final(b)@ == old(b)@ + seq![ShaderOp::FDiv(self.x.0, rhs.x.0), ShaderOp::FDiv(self.y.0, rhs.y.0), ShaderOp::FDiv(self.z.0, rhs.z.0)],
            r == (float3 { x: float1(next_id(old(b)@, 0)), y: float1(next_id(old(b)@, 1)), z: float1(next_id(old(b)@, 2)) }),
            r.valid_in(final(b)@),
    {
        let x = self.x.div(rhs.x, b);
        let y = self.y.div(rhs.y, b);
        let z = self.z.div(rhs.z, b);
        float3 { x: x, y: y, z: z }
    }

    /// The sum of each component and `rhs`.
    pub fn add_scalar(self, rhs: float1, b: &mut ShaderBuilder) -> (r: float3)
        requires
            self.valid_in(old(b)@),
            rhs.valid_in(old(b)@),
            old(b)@.len() + 3 <= u32::MAX,
        ensures
            final(b)@ == old(b)@ + seq![ShaderOp::FAdd(self.x.0, rhs.0), ShaderOp::FAdd(self.y.0, rhs.0), ShaderOp::FAdd(self.z.0, rhs.0)],
            r == (float3 { x: float1(next_id(old(b)@, 0)), y: float1(next_id(old(b)@, 1)), z: float1(next_id(old(b)@, 2)) }),
            r.valid_in(final(b)@),
    {
        let x = self.x.add(rhs, b);
        let y = self.y.add(rhs, b);
        let z = self.z.add(rhs, b);
        float3 { x: x, y: y, z: z }
    }

    /// The difference of each component and `rhs`.
    pub fn sub_scalar(self, rhs: float1, b: &mut ShaderBuilder) -> (r: float3)
        requires
            self.valid_in(old(b)@),
            rhs.valid_in(old(b)@),
            old(b)@.len() + 3 <= u32::MAX,
        ensures
            final(b)@ == old(b)@ + seq![ShaderOp::FSub(self.x.0, rhs.0), ShaderOp::FSub(self.y.0, rhs.0), ShaderOp::FSub(self.z.0, rhs.0)],
            r == (float3 { x: float1(next_id(old(b)@, 0)), y: float1(next_id(old(b)@, 1)), z: float1(next_id(old(b)@, 2)) }),
            r.valid_in(final(b)@),
    {
        let x = self.x.sub(rhs, b);
        let y = self.y.sub(rhs, b);
        let z = self.z.sub(rhs, b);
        float3 { x: x, y: y, z: z }
    }

    /// The product of each component and `rhs`.
    pub fn mul_scalar(self, rhs: float1, b: &mut ShaderBuilder) -> (r: float3)
        requires
            self.valid_in(old(b)@),
            rhs.valid_in(old(b)@),
            old(b)@.len() + 3 <= u32::MAX,
        ensures
            final(b)@ == old(b)@ + seq![ShaderOp::FMul(self.x.0, rhs.0), ShaderOp::FMul(self.y.0, rhs.0), ShaderOp::FMul(self.z.0, rhs.0)],
            r == (float3 { x: float1(next_id(old(b)@, 0)), y: float1(next_id(old(b)@, 1)), z: float1(next_id(old(b)@, 2)) }),
            r.valid_in(final(b)@),
    {
        let x = self.x.mul(rhs, b);
        let y = self.y.mul(rhs, b);
        let z = self.z.mul(rhs, b);
        float3 { x: x, y: y, z: z }
    }

    /// The quotient of each component and `rhs`.
    pub fn div_scalar(self, rhs: float1, b: &mut ShaderBuilder) -> (r: float3)
        requires
            self.valid_in(old(b)@),
            rhs.valid_in(old(b)@),
            old(b)@.len() + 3 <= u32::MAX,
        ensures
            final(b)@ == old(b)@ + seq![ShaderOp::FDiv(self.x.0, rhs.0), ShaderOp::FDiv(self.y.0, rhs.0), ShaderOp::FDiv(self.z.0, rhs.0)],
            r == (float3 { x: float1(next_id(old(b)@, 0)), y: float1(next_id(old(b)@, 1)), z: float1(next_id(old(b)@, 2)) }),
            r.valid_in(final(b)@),
    {
        let x = self.x.div(rhs, b);
        let y = self.y.div(rhs, b);
        let z = self.z.div(rhs, b);
        float3 { x: x, y: y, z: z }
    }

    /// Clamp each component between the components of `min` and `max`.
    pub fn clamp(self, min: float3, max: float3, b: &mut ShaderBuilder) -> (r: float3)
        requires
            self.valid_in(old(b)@),
            min.valid_in(old(b)@),
            max.valid_in(old(b)@),
            old(b)@.len() + 6 <= u32::MAX,
        ensures
            final(b)@ == old(b)@ + seq![ShaderOp::FMin(self.x.0, max.x.0), ShaderOp::FMax(next_id(old(b)@, 0), min.x.0), ShaderOp::FMin(self.y.0, max.y.0), ShaderOp::FMax(next_id(old(b)@, 2), min.y.0), ShaderOp::FMin(self.z.0, max.z.0), ShaderOp::FMax(next_id(old(b)@, 4), min.z.0)],
            r == (float3 { x: float1(next_id(old(b)@, 1)), y: float1(next_id(old(b)@, 3)), z: float1(next_id(old(b)@, 5)) }),
            r.valid_in(final(b)@),
    {
        let x = self.x.clamp(min.x, max.x, b);
        let y = self.y.clamp(min.y, max.y, b);
        let z = self.z.clamp(min.z, max.z, b);
        float3 { x: x, y: y, z: z }
    }

    /// Linearly interpolate each component of `start` and `end` by the matching component of `self`.
    pub fn lerp(self, start: float3, end: float3, b: &mut ShaderBuilder) -> (r: float3)
        requires
            self.valid_in(old(b)@),
            start.valid_in(old(b)@),
            end.valid_in(old(b)@),
            old(b)@.len() + 3 <= u32::MAX,
        ensures
            final(b)@ == old(b)@ + seq![ShaderOp::Lerp(self.x.0, start.x.0, end.x.0), ShaderOp::Lerp(self.y.0, start.y.0, end.y.0), ShaderOp::Lerp(self.z.0, start.z.0, end.z.0)],
            r == (float3 { x: float1(next_id(old(b)@, 0)), y: float1(next_id(old(b)@, 1)), z: float1(next_id(old(b)@, 2)) }),
            r.valid_in(final(b)@),
    {
        let x = self.x.lerp(start.x, end.x, b);
        let y = self.y.lerp(start.y, end.y, b);
        let z = self.z.lerp(start.z, end.z, b);
        float3 { x: x, y: y, z: z }
    }

    /// Get the dot product with another vector.
    pub fn dot(self, rhs: float3, b: &mut ShaderBuilder) -> (r: float1)
        requires
            self.valid_in(old(b)@),
            rhs.valid_in(old(b)@),
            old(b)@.len() + 5 <= u32::MAX,
        ensures
            final(b)@ == old(b)@ + seq![ShaderOp::FMul(self.x.0, rhs.x.0), ShaderOp::FMul(self.y.0, rhs.y.0), ShaderOp::FAdd(next_id(old(b)@, 0), next_id(old(b)@, 1)), ShaderOp::FMul(self.z.0, rhs.z.0), ShaderOp::FAdd(next_id(old(b)@, 2), next_id(old(b)@, 3))],
            r == float1(next_id(old(b)@, 4)),
            r.valid_in(final(b)@),
    {
        let x = self.x.mul(rhs.x, b);
        let y = self.y.mul(rhs.y, b);
        let s = x.add(y, b);
        let z = self.z.mul(rhs.z, b);
        let s = s.add(z, b);
        s
    }

    /// Get the length of the vector.
    pub fn len(self, b: &mut ShaderBuilder) -> (r: float1)
        requires
            self.valid_in(old(b)@),
            old(b)@.len() + 6 <= u32::MAX,
        ensures
            final(b)@ == old(b)@ + seq![ShaderOp::FMul(self.x.0, self.x.0), ShaderOp::FMul(self.y.0, self.y.0), ShaderOp::FAdd(next_id(old(b)@, 0), next_id(old(b)@, 1)), ShaderOp::FMul(self.z.0, self.z.0), ShaderOp::FAdd(next_id(old(b)@, 2), next_id(old(b)@, 3)), ShaderOp::Sqrt(next_id(old(b)@, 4))],
            r == float1(next_id(old(b)@, 5)),
            r.valid_in(final(b)@),
    {
        let d = self.dot(self, b);
        d.sqrt(b)
    }

    /// Normalize the vector to length 1.
    pub fn norm(self, b: &mut ShaderBuilder) -> (r: float3)
        requires
            self.valid_in(old(b)@),
            old(b)@.len() + 9 <= u32::MAX,
        ensures
            final(b)@ == old(b)@ + seq![ShaderOp::FMul(self.x.0, self.x.0), ShaderOp::FMul(self.y.0, self.y.0), ShaderOp::FAdd(next_id(old(b)@, 0), next_id(old(b)@, 1)), ShaderOp::FMul(self.z.0, self.z.0), ShaderOp::FAdd(next_id(old(b)@, 2), next_id(old(b)@, 3)), ShaderOp::Sqrt(next_id(old(b)@, 4)), ShaderOp::FDiv(self.x.0, next_id(old(b)@, 5)), ShaderOp::FDiv(self.y.0, next_id(old(b)@, 5)), ShaderOp::FDiv(self.z.0, next_id(old(b)@, 5))],
            r == (float3 { x: float1(next_id(old(b)@, 6)), y: float1(next_id(old(b)@, 7)), z: float1(next_id(old(b)@, 8)) }),
            r.valid_in(final(b)@),
    {
        let l = self.len(b);
        self.div_scalar(l, b)
    }

    /// Get the cross product with another vector.
    pub fn cross(self, rhs: float3, b: &mut ShaderBuilder) -> (r: float3)
        requires
            self.valid_in(old(b)@),
            rhs.valid_in(old(b)@),
            old(b)@.len() + 9 <= u32::MAX,
        ensures
            final(b)@ == old(b)@ + seq![ShaderOp::FMul(self.y.0, rhs.z.0), ShaderOp::FMul(self.z.0, rhs.y.0), ShaderOp::FSub(next_id(old(b)@, 0), next_id(old(b)@, 1)), ShaderOp::FMul(self.z.0, rhs.x.0), ShaderOp::FMul(self.x.0, rhs.z.0), ShaderOp::FSub(next_id(old(b)@, 3), next_id(old(b)@, 4)), ShaderOp::FMul(self.x.0, rhs.y.0), ShaderOp::FMul(self.y.0, rhs.x.0), ShaderOp::FSub(next_id(old(b)@, 6), next_id(old(b)@, 7))],
            r == (float3 { x: float1(next_id(old(b)@, 2)), y: float1(next_id(old(b)@, 5)), z: float1(next_id(old(b)@, 8)) }),
            r.valid_in(final(b)@),
    {
        let a = self.y.mul(rhs.z, b);
        let c = self.z.mul(rhs.y, b);
        let x = a.sub(c, b);
        let a = self.z.mul(rhs.x, b);
        let c = self.x.mul(rhs.z, b);
        let y = a.sub(c, b);
        let a = self.x.mul(rhs.y, b);
        let c = self.y.mul(rhs.x, b);
        let z = a.sub(c, b);
        float3 { x, y, z }
    }
}

impl Lerp<float1> for float3 {
    open spec fn width() -> nat {
        3
    }

    open spec fn lerp_ops(sel: float1, start: Self, end: Self, n: nat) -> Seq<ShaderOp> {
        seq![ShaderOp::Lerp(sel.0, start.x.0, end.x.0), ShaderOp::Lerp(sel.0, start.y.0, end.y.0), ShaderOp::Lerp(sel.0, start.z.0, end.z.0)]
    }

    open spec fn lerp_result(sel: float1, start: Self, end: Self, n: nat) -> Self {
        float3 { x: float1((n + 0) as u32), y: float1((n + 1) as u32), z: float1((n + 2) as u32) }
    }

    fn lerp(sel: float1, start: Self, end: Self, b: &mut ShaderBuilder) -> (r: Self) {
        let x = sel.lerp(start.x, end.x, b);
        let y = sel.lerp(start.y, end.y, b);
        let z = sel.lerp(start.z, end.z, b);
        float3 { x: x, y: y, z: z }
    }
}

impl Lerp<float3> for float3 {
    open spec fn width() -> nat {
        3
    }

    open spec fn lerp_ops(sel: float3, start: Self, end: Self, n: nat) -> Seq<ShaderOp> {
        seq![ShaderOp::Lerp(sel.x.0, start.x.0, end.x.0), ShaderOp::Lerp(sel.y.0, start.y.0, end.y.0), ShaderOp::Lerp(sel.z.0, start.z.0, end.z.0)]
    }

    open spec fn lerp_result(sel: float3, start: Self, end: Self, n: nat) -> Self {
        float3 { x: float1((n + 0) as u32), y: float1((n + 1) as u32), z: float1((n + 2) as u32) }
    }

    fn lerp(sel: float3, start: Self, end: Self, b: &mut ShaderBuilder) -> (r: Self) {
        let x = sel.x.lerp(start.x, end.x, b);
        let y = sel.y.lerp(start.y, end.y, b);
        let z = sel.z.lerp(start.z, end.z, b);
        float3 { x: x, y: y, z: z }
    }
}

impl Lerp<boolean> for float3 {
    open spec fn width() -> nat {
        3
    }

    open spec fn lerp_ops(sel: boolean, start: Self, end: Self, n: nat) -> Seq<ShaderOp> {
        seq![ShaderOp::FSelect(sel.0, start.x.0, end.x.0), ShaderOp::FSelect(sel.0, start.y.0, end.y.0), ShaderOp::FSelect(sel.0, start.z.0, end.z.0)]
    }

    open spec fn lerp_result(sel: boolean, start: Self, end: Self, n: nat) -> Self {
        float3 { x: float1((n + 0) as u32), y: float1((n + 1) as u32), z: float1((n + 2) as u32) }
    }

    fn lerp(sel: boolean, start: Self, end: Self, b: &mut ShaderBuilder) -> (r: Self) {
        let x = sel.select(start.x, end.x, b);
        let y = sel.select(start.y, end.y, b);
        let z = sel.select(start.z, end.z, b);
        float3 { x: x, y: y, z: z }
    }
}

impl float4 {
    /// A vector of the given components.
    pub fn new(x: float1, y: float1, z: float1, w: float1) -> (r: float4)
        ensures
            r == (float4 { x: x, y: y, z: z, w: w }),
    {
        float4 { x: x, y: y, z: z, w: w }
    }

    /// A vector with every component set to `v`.
    pub fn splat(v: float1) -> (r: float4)
        ensures
            r == (float4 { x: v, y: v, z: v, w: v }),
    {
        float4 { x: v, y: v, z: v, w: v }
    }

    /// Get the X component.
    pub fn x(self) -> (r: float1)
        ensures
            r == self.x,
    {
        self.x
    }

    /// Get the Y component.
    pub fn y(self) -> (r: float1)
        ensures
            r == self.y,
    {
        self.y
    }

    /// Get the Z component.
    pub fn z(self) -> (r: float1)
        ensures
            r == self.z,
    {
        self.z
    }

    /// Get the W component.
    pub fn w(self) -> (r: float1)
        ensures
            r == self.w,
    {
        self.w
    }

    /// Get the X component.
    pub fn r(self) -> (r: float1)
        ensures
            r == self.x,
    {
        self.x
    }

    /// Get the Y component.
    pub fn g(self) -> (r: float1)
        ensures
            r == self.y,
    {
        self.y
    }

    /// Get the Z component.
    pub fn b(self) -> (r: float1)
        ensures
            r == self.z,
    {
        self.z
    }

    /// Get the W component.
    pub fn a(self) -> (r: float1)
        ensures
            r == self.w,
    {
        self.w
    }

    /// The sine of each component.
    pub fn sin(self, b: &mut ShaderBuilder) -> (r: float4)
        requires
            self.valid_in(old(b)@),
            old(b)@.len() + 4 <= u32::MAX,
        ensures
            final(b)@ == old(b)@ + seq![ShaderOp::Sin(self.x.0), ShaderOp::Sin(self.y.0), ShaderOp::Sin(self.z.0), ShaderOp::Sin(self.w.0)],
            r == (float4 { x: float1(next_id(old(b)@, 0)), y: float1(next_id(old(b)@, 1)), z: float1(next_id(old(b)@, 2)), w: float1(next_id(old(b)@, 3)) }),
            r.valid_in(final(b)@),
    {
        let x = self.x.sin(b);
        let y = self.y.sin(b);
        let z = self.z.sin(b);
        let w = self.w.sin(b);
        float4 { x: x, y: y, z: z, w: w }
    }

    /// The cosine of each component.
    pub fn cos(self, b: &mut ShaderBuilder) -> (r: float4)
        requires
            self.valid_in(old(b)@),
            old(b)@.len() + 4 <= u32::MAX,
        ensures
            final(b)@ == old(b)@ + seq![ShaderOp::Cos(self.x.0), ShaderOp::Cos(self.y.0), ShaderOp::Cos(self.z.0), ShaderOp::Cos(self.w.0)],
            r == (float4 { x: float1(next_id(old(b)@, 0)), y: float1(next_id(old(b)@, 1)), z: float1(next_id(old(b)@, 2)), w: float1(next_id(old(b)@, 3)) }),
            r.valid_in(final(b)@),
    {
        let x = self.x.cos(b);
        let y = self.y.cos(b);
        let z = self.z.cos(b);
        let w = self.w.cos(b);
        float4 { x: x, y: y, z: z, w: w }
    }

    /// The tangent of each component.
    pub fn tan(self, b: &mut ShaderBuilder) -> (r: float4)
        requires
            self.valid_in(old(b)@),
            old(b)@.len() + 4 <= u32::MAX,
        ensures
            final(b)@ == old(b)@ + seq![ShaderOp::Tan(self.x.0), ShaderOp::Tan(self.y.0), ShaderOp::Tan(self.z.0), ShaderOp::Tan(self.w.0)],
            r == (float4 { x: float1(next_id(old(b)@, 0)), y: float1(next_id(old(b)@, 1)), z: float1(next_id(old(b)@, 2)), w: float1(next_id(old(b)@, 3)) }),
            r.valid_in(final(b)@),
    {
        let x = self.x.tan(b);
        let y = self.y.tan(b);
        let z = self.z.tan(b);
        let w = self.w.tan(b);
        float4 { x: x, y: y, z: z, w: w }
    }

    /// The arcsine of each component.
    pub fn asin(self, b: &mut ShaderBuilder) -> (r: float4)
        requires
            self.valid_in(old(b)@),
            old(b)@.len() + 4 <= u32::MAX,
        ensures
            final(b)@ == old(b)@ + seq![ShaderOp::Asin(self.x.0), ShaderOp::Asin(self.y.0), ShaderOp::Asin(self.z.0), ShaderOp::Asin(self.w.0)],
            r == (float4 { x: float1(next_id(old(b)@, 0)), y: float1(next_id(old(b)@, 1)), z: float1(next_id(old(b)@, 2)), w: float1(next_id(old(b)@, 3)) }),
            r.valid_in(final(b)@),
    {
        let x = self.x.asin(b);
        let y = self.y.asin(b);
        let z = self.z.asin(b);
        let w = self.w.asin(b);
        float4 { x: x, y: y, z: z, w: w }
    }

    /// The arccosine of each component.
    pub fn acos(self, b: &mut ShaderBuilder) -> (r: float4)
        requires
            self.valid_in(old(b)@),
            old(b)@.len() + 4 <= u32::MAX,
        ensures
            final(b)@ == old(b)@ + seq![ShaderOp::Acos(self.x.0), ShaderOp::Acos(self.y.0), ShaderOp::Acos(self.z.0), ShaderOp::Acos(self.w.0)],
            r == (float4 { x: float1(next_id(old(b)@, 0)), y: float1(next_id(old(b)@, 1)), z: float1(next_id(old(b)@, 2)), w: float1(next_id(old(b)@, 3)) }),
            r.valid_in(final(b)@),
    {
        let x = self.x.acos(b);
        let y = self.y.acos(b);
        let z = self.z.acos(b);
        let w = self.w.acos(b);
        float4 { x: x, y: y, z: z, w: w }
    }

    /// The arctangent of each component.
    pub fn atan(self, b: &mut ShaderBuilder) -> (r: float4)
        requires
            self.valid_in(old(b)@),
            old(b)@.len() + 4 <= u32::MAX,
        ensures
            final(b)@ == old(b)@ + seq![ShaderOp::Atan(self.x.0), ShaderOp::Atan(self.y.0), ShaderOp::Atan(self.z.0), ShaderOp::Atan(self.w.0)],
            r == (float4 { x: float1(next_id(old(b)@, 0)), y: float1(next_id(old(b)@, 1)), z: float1(next_id(old(b)@, 2)), w: float1(next_id(old(b)@, 3)) }),
            r.valid_in(final(b)@),
    {
        let x = self.x.atan(b);
        let y = self.y.atan(b);
        let z = self.z.atan(b);
        let w = self.w.atan(b);
        float4 { x: x, y: y, z: z, w: w }
    }

    /// The square root of each component.
    pub fn sqrt(self, b: &mut ShaderBuilder) -> (r: float4)
        requires
            self.valid_in(old(b)@),
            old(b)@.len() + 4 <= u32::MAX,
        ensures
            final(b)@ == old(b)@ + seq![ShaderOp::Sqrt(self.x.0), ShaderOp::Sqrt(self.y.0), ShaderOp::Sqrt(self.z.0), ShaderOp::Sqrt(self.w.0)],
            r == (float4 { x: float1(next_id(old(b)@, 0)), y: float1(next_id(old(b)@, 1)), z: float1(next_id(old(b)@, 2)), w: float1(next_id(old(b)@, 3)) }),
            r.valid_in(final(b)@),
    {
        let x = self.x.sqrt(b);
        let y = self.y.sqrt(b);
        let z = self.z.sqrt(b);
        let w = self.w.sqrt(b);
        float4 { x: x, y: y, z: z, w: w }
    }

    /// The exponential of each component.
    pub fn exp(self, b: &mut ShaderBuilder) -> (r: float4)
        requires
            self.valid_in(old(b)@),
            old(b)@.len() + 4 <= u32::MAX,
        ensures
            final(b)@ == old(b)@ + seq![ShaderOp::Exp(self.x.0), ShaderOp::Exp(self.y.0), ShaderOp::Exp(self.z.0), ShaderOp::Exp(self.w.0)],
            r == (float4 { x: float1(next_id(old(b)@, 0)), y: float1(next_id(old(b)@, 1)), z: float1(next_id(old(b)@, 2)), w: float1(next_id(old(b)@, 3)) }),
            r.valid_in(final(b)@),
    {
        let x = self.x.exp(b);
        let y = self.y.exp(b);
        let z = self.z.exp(b);
        let w = self.w.exp(b);
        float4 { x: x, y: y, z: z, w: w }
    }

    /// The natural logarithm of each component.
    pub fn ln(self, b: &mut ShaderBuilder) -> (r: float4)
        requires
            self.valid_in(old(b)@),
            old(b)@.len() + 4 <= u32::MAX,
        ensures
            final(b)@ == old(b)@ + seq![ShaderOp::Ln(self.x.0), ShaderOp::Ln(self.y.0), ShaderOp::Ln(self.z.0), ShaderOp::Ln(self.w.0)],
            r == (float4 { x: float1(next_id(old(b)@, 0)), y: float1(next_id(old(b)@, 1)), z: float1(next_id(old(b)@, 2)), w: float1(next_id(old(b)@, 3)) }),
            r.valid_in(final(b)@),
    {
        let x = self.x.ln(b);
        let y = self.y.ln(b);
        let z = self.z.ln(b);
        let w = self.w.ln(b);
        float4 { x: x, y: y, z: z, w: w }
    }

    /// The floor of each component.
    pub fn floor(self, b: &mut ShaderBuilder) -> (r: float4)
        requires
            self.valid_in(old(b)@),
            old(b)@.len() + 4 <= u32::MAX,
        ensures
            final(b)@ == old(b)@ + seq![ShaderOp::Floor(self.x.0), ShaderOp::Floor(self.y.0), ShaderOp::Floor(self.z.0), ShaderOp::Floor(self.w.0)],
            r == (float4 { x: float1(next_id(old(b)@, 0)), y: float1(next_id(old(b)@, 1)), z: float1(next_id(old(b)@, 2)), w: float1(next_id(old(b)@, 3)) }),
            r.valid_in(final(b)@),
    {
        let x = self.x.floor(b);
        let y = self.y.floor(b);
        let z = self.z.floor(b);
        let w = self.w.floor(b);
        float4 { x: x, y: y, z: z, w: w }
    }

    /// The absolute value of each component.
    pub fn abs(self, b: &mut ShaderBuilder) -> (r: float4)
        requires
            self.valid_in(old(b)@),
            old(b)@.len() + 4 <= u32::MAX,
        ensures
            final(b)@ == old(b)@ + seq![ShaderOp::FAbs(self.x.0), ShaderOp::FAbs(self.y.0), ShaderOp::FAbs(self.z.0), ShaderOp::FAbs(self.w.0)],
            r == (float4 { x: float1(next_id(old(b)@, 0)), y: float1(next_id(old(b)@, 1)), z: float1(next_id(old(b)@, 2)), w: float1(next_id(old(b)@, 3)) }),
            r.valid_in(final(b)@),
    {
        let x = self.x.abs(b);
        let y = self.y.abs(b);
        let z = self.z.abs(b);
        let w = self.w.abs(b);
        float4 { x: x, y: y, z: z, w: w }
    }

    /// The derivative in X of each component.
    pub fn dx(self, b: &mut ShaderBuilder) -> (r: float4)
        requires
            self.valid_in(old(b)@),
            old(b)@.len() + 4 <= u32::MAX,
        ensures
            final(b)@ == old(b)@ + seq![ShaderOp::DerivX(self.x.0), ShaderOp::DerivX(self.y.0), ShaderOp::DerivX(self.z.0), ShaderOp::DerivX(self.w.0)],
            r == (float4 { x: float1(next_id(old(b)@, 0)), y: float1(next_id(old(b)@, 1)), z: float1(next_id(old(b)@, 2)), w: float1(next_id(old(b)@, 3)) }),
            r.valid_in(final(b)@),
    {
        let x = self.x.dx(b);
        let y = self.y.dx(b);
        let z = self.z.dx(b);
        let w = self.w.dx(b);
        float4 { x: x, y: y, z: z, w: w }
    }

    /// The derivative in Y of each component.
    pub fn dy(self, b: &mut ShaderBuilder) -> (r: float4)
        requires
            self.valid_in(old(b)@),
            old(b)@.len() + 4 <= u32::MAX,
        ensures
            final(b)@ == old(b)@ + seq![ShaderOp::DerivY(self.x.0), ShaderOp::DerivY(self.y.0), ShaderOp::DerivY(self.z.0), ShaderOp::DerivY(self.w.0)],
            r == (float4 { x: float1(next_id(old(b)@, 0)), y: float1(next_id(old(b)@, 1)), z: float1(next_id(old(b)@, 2)), w: float1(next_id(old(b)@, 3)) }),
            r.valid_in(final(b)@),
    {
        let x = self.x.dy(b);
        let y = self.y.dy(b);
        let z = self.z.dy(b);
        let w = self.w.dy(b);
        float4 { x: x, y: y, z: z, w: w }
    }

    /// The negation of each component.
    pub fn neg(self, b: &mut ShaderBuilder) -> (r: float4)
        requires
            self.valid_in(old(b)@),
            old(b)@.len() + 4 <= u32::MAX,
        ensures
            final(b)@ == old(b)@ + seq![ShaderOp::FNeg(self.x.0), ShaderOp::FNeg(self.y.0), ShaderOp::FNeg(self.z.0), ShaderOp::FNeg(self.w.0)],
            r == (float4 { x: float1(next_id(old(b)@, 0)), y: float1(next_id(old(b)@, 1)), z: float1(next_id(old(b)@, 2)), w: float1(next_id(old(b)@, 3)) }),
            r.valid_in(final(b)@),
    {
        let x = self.x.neg(b);
        let y = self.y.neg(b);
        let z = self.z.neg(b);
        let w = self.w.neg(b);
        float4 { x: x, y: y, z: z, w: w }
    }

    /// The componentwise smallest.
    pub fn min(self, rhs: float4, b: &mut ShaderBuilder) -> (r: float4)
        requires
            self.valid_in(old(b)@),
            rhs.valid_in(old(b)@),
            old(b)@.len() + 4 <= u32::MAX,
        ensures
            final(b)@ == old(b)@ + seq![ShaderOp::FMin(self.x.0, rhs.x.0), ShaderOp::FMin(self.y.0, rhs.y.0), ShaderOp::FMin(self.z.0, rhs.z.0), ShaderOp::FMin(self.w.0, rhs.w.0)],
            r == (float4 { x: float1(next_id(old(b)@, 0)), y: float1(next_id(old(b)@, 1)), z: float1(next_id(old(b)@, 2)), w: float1(next_id(old(b)@, 3)) }),
            r.valid_in(final(b)@),
    {
        let x = self.x.min(rhs.x, b);
        let y = self.y.min(rhs.y, b);
        let z = self.z.min(rhs.z, b);
        let w = self.w.min(rhs.w, b);
        float4 { x: x, y: y, z: z, w: w }
    }

    /// The componentwise largest.
    pub fn max(self, rhs: float4, b: &mut ShaderBuilder) -> (r: float4)
        requires
            self.valid_in(old(b)@),
            rhs.valid_in(old(b)@),
            old(b)@.len() + 4 <= u32::MAX,
        ensures
            final(b)@ == old(b)@ + seq![ShaderOp::FMax(self.x.0, rhs.x.0), ShaderOp::FMax(self.y.0, rhs.y.0), ShaderOp::FMax(self.z.0, rhs.z.0), ShaderOp::FMax(self.w.0, rhs.w.0)],
            r == (float4 { x: float1(next_id(old(b)@, 0)), y: float1(next_id(old(b)@, 1)), z: float1(next_id(old(b)@, 2)), w: float1(next_id(old(b)@, 3)) }),
            r.valid_in(final(b)@),
    {
        let x = self.x.max(rhs.x, b);
        let y = self.y.max(rhs.y, b);
        let z = self.z.max(rhs.z, b);
        let w = self.w.max(rhs.w, b);
        float4 { x: x, y: y, z: z, w: w }
    }

    /// The componentwise arctangent of `rhs / self`, by quadrant.
    pub fn atan2(self, rhs: float4, b: &mut ShaderBuilder) -> (r: float4)
        requires
            self.valid_in(old(b)@),
            rhs.valid_in(old(b)@),
            old(b)@.len() + 4 <= u32::MAX,
        ensures
            final(b)@ == old(b)@ + seq![ShaderOp::Atan2(rhs.x.0, self.x.0), ShaderOp::Atan2(rhs.y.0, self.y.0), ShaderOp::Atan2(rhs.z.0, self.z.0), ShaderOp::Atan2(rhs.w.0, self.w.0)],
            r == (float4 { x: float1(next_id(old(b)@, 0)), y: float1(next_id(old(b)@, 1)), z: float1(next_id(old(b)@, 2)), w: float1(next_id(old(b)@, 3)) }),
            r.valid_in(final(b)@),
    {
        let x = self.x.atan2(rhs.x, b);
        let y = self.y.atan2(rhs.y, b);
        let z = self.z.atan2(rhs.z, b);
        let w = self.w.atan2(rhs.w, b);
        float4 { x: x, y: y, z: z, w: w }
    }

    /// The componentwise power.
    pub fn powf(self, rhs: float4, b: &mut ShaderBuilder) -> (r: float4)
        requires
            self.valid_in(old(b)@),
            rhs.valid_in(old(b)@),
            old(b)@.len() + 4 <= u32::MAX,
        ensures
            final(b)@ == old(b)@ + seq![ShaderOp::Pow(self.x.0, rhs.x.0), ShaderOp::Pow(self.y.0, rhs.y.0), ShaderOp::Pow(self.z.0, rhs.z.0), ShaderOp::Pow(self.w.0, rhs.w.0)],
            r == (float4 { x: float1(next_id(old(b)@, 0)), y: float1(next_id(old(b)@, 1)), z: float1(next_id(old(b)@, 2)), w: float1(next_id(old(b)@, 3)) }),
            r.valid_in(final(b)@),
    {
        let x = self.x.powf(rhs.x, b);
        let y = self.y.powf(rhs.y, b);
        let z = self.z.powf(rhs.z, b);
        let w = self.w.powf(rhs.w, b);
        float4 { x: x, y: y, z: z, w: w }
    }

    /// The componentwise euclidean remainder.
    pub fn rem_euclid(self, rhs: float4, b: &mut ShaderBuilder) -> (r: float4)
        requires
            self.valid_in(old(b)@),
            rhs.valid_in(old(b)@),
            old(b)@.len() + 4 <= u32::MAX,
        ensures
            final(b)@ == old(b)@ + seq![ShaderOp::FMod(self.x.0, rhs.x.0), ShaderOp::FMod(self.y.0, rhs.y.0), ShaderOp::FMod(self.z.0, rhs.z.0), ShaderOp::FMod(self.w.0, rhs.w.0)],
            r == (float4 { x: float1(next_id(old(b)@, 0)), y: float1(next_id(old(b)@, 1)), z: float1(next_id(old(b)@, 2)), w: float1(next_id(old(b)@, 3)) }),
            r.valid_in(final(b)@),
    {
        let x = self.x.rem_euclid(rhs.x, b);
        let y = self.y.rem_euclid(rhs.y, b);
        let z = self.z.rem_euclid(rhs.z, b);
        let w = self.w.rem_euclid(rhs.w, b);
        float4 { x: x, y: y, z: z, w: w }
    }

    /// The componentwise sum.
    pub fn add(self, rhs: float4, b: &mut ShaderBuilder) -> (r: float4)
        requires
            self.valid_in(old(b)@),
            rhs.valid_in(old(b)@),
            old(b)@.len() + 4 <= u32::MAX,
        ensures
            final(b)@ == old(b)@ + seq![ShaderOp::FAdd(self.x.0, rhs.x.0), ShaderOp::FAdd(self.y.0, rhs.y.0), ShaderOp::FAdd(self.z.0, rhs.z.0), ShaderOp::FAdd(self.w.0, rhs.w.0)],
            r == (float4 { x: float1(next_id(old(b)@, 0)), y: float1(next_id(old(b)@, 1)), z: float1(next_id(old(b)@, 2)), w: float1(next_id(old(b)@, 3)) }),
            r.valid_in(final(b)@),
    {
        let x = self.x.add(rhs.x, b);
        let y = self.y.add(rhs.y, b);
        let z = self.z.add(rhs.z, b);
        let w = self.w.add(rhs.w, b);
        float4 { x: x, y: y, z: z, w: w }
    }

    /// The componentwise difference.
    pub fn sub(self, rhs: float4, b: &mut ShaderBuilder) -> (r: float4)
        requires
            self.valid_in(old(b)@),
            rhs.valid_in(old(b)@),
            old(b)@.len() + 4 <= u32::MAX,
        ensures
            final(b)@ == old(b)@ + seq![ShaderOp::FSub(self.x.0, rhs.x.0), ShaderOp::FSub(self.y.0, rhs.y.0), ShaderOp::FSub(self.z.0, rhs.z.0), ShaderOp::FSub(self.w.0, rhs.w.0)],
            r == (float4 { x: float1(next_id(old(b)@, 0)), y: float1(next_id(old(b)@, 1)), z: float1(next_id(old(b)@, 2)), w: float1(next_id(old(b)@, 3)) }),
            r.valid_in(final(b)@),
    {
        let x = self.x.sub(rhs.x, b);
        let y = self.y.sub(rhs.y, b);
        let z = self.z.sub(rhs.z, b);
        let w = self.w.sub(rhs.w, b);
        float4 { x: x, y: y, z: z, w: w }
    }

    /// The componentwise product.
    pub fn mul(self, rhs: float4, b: &mut ShaderBuilder) -> (r: float4)
        requires
            self.valid_in(old(b)@),
            rhs.valid_in(old(b)@),
            old(b)@.len() + 4 <= u32::MAX,
        ensures
            final(b)@ == old(b)@ + seq![ShaderOp::FMul(self.x.0, rhs.x.0), ShaderOp::FMul(self.y.0, rhs.y.0), ShaderOp::FMul(self.z.0, rhs.z.0), ShaderOp::FMul(self.w.0, rhs.w.0)],
            r == (float4 { x: float1(next_id(old(b)@, 0)), y: float1(next_id(old(b)@, 1)), z: float1(next_id(old(b)@, 2)), w: float1(next_id(old(b)@, 3)) }),
            r.valid_in(final(b)@),
    {
        let x = self.x.mul(rhs.x, b);
        let y = self.y.mul(rhs.y, b);
        let z = self.z.mul(rhs.z, b);
        let w = self.w.mul(rhs.w, b);
        float4 { x: x, y: y, z: z, w: w }
    }

    /// The componentwise quotient.
    pub fn div(self, rhs: float4, b: &mut ShaderBuilder) -> (r: float4)
        requires
            self.valid_in(old(b)@),
            rhs.valid_in(old(b)@),
            old(b)@.len() + 4 <= u32::MAX,
        ensures
            final(b)@ == old(b)@ + seq![ShaderOp::FDiv(self.x.0, rhs.x.0), ShaderOp::FDiv(self.y.0, rhs.y.0), ShaderOp::FDiv(self.z.0, rhs.z.0), ShaderOp::FDiv(self.w.0, rhs.w.0)],
            r == (float4 { x: float1(next_id(old(b)@, 0)), y: float1(next_id(old(b)@, 1)), z: float1(next_id(old(b)@, 2)), w: float1(next_id(old(b)@, 3)) }),
            r.valid_in(final(b)@),
    {
        let x = self.x.div(rhs.x, b);
        let y = self.y.div(rhs.y, b);
        let z = self.z.div(rhs.z, b);
        let w = self.w.div(rhs.w, b);
        float4 { x: x, y: y, z: z, w: w }
    }

    /// The sum of each component and `rhs`.
    pub fn add_scalar(self, rhs: float1, b: &mut ShaderBuilder) -> (r: float4)
        requires
            self.valid_in(old(b)@),
            rhs.valid_in(old(b)@),
            old(b)@.len() + 4 <= u32::MAX,
        ensures
            final(b)@ == old(b)@ + seq![ShaderOp::FAdd(self.x.0, rhs.0), ShaderOp::FAdd(self.y.0, rhs.0), ShaderOp::FAdd(self.z.0, rhs.0), ShaderOp::FAdd(self.w.0, rhs.0)],
            r == (float4 { x: float1(next_id(old(b)@, 0)), y: float1(next_id(old(b)@, 1)), z: float1(next_id(old(b)@, 2)), w: float1(next_id(old(b)@, 3)) }),
            r.valid_in(final(b)@),
    {
        let x = self.x.add(rhs, b);
        let y = self.y.add(rhs, b);
        let z = self.z.add(rhs, b);
        let w = self.w.add(rhs, b);
        float4 { x: x, y: y, z: z, w: w }
    }

    /// The difference of each component and `rhs`.
    pub fn sub_scalar(self, rhs: float1, b: &mut ShaderBuilder) -> (r: float4)
        requires
            self.valid_in(old(b)@),
            rhs.valid_in(old(b)@),
            old(b)@.len() + 4 <= u32::MAX,
        ensures
            final(b)@ == old(b)@ + seq![ShaderOp::FSub(self.x.0, rhs.0), ShaderOp::FSub(self.y.0, rhs.0), ShaderOp::FSub(self.z.0, rhs.0), ShaderOp::FSub(self.w.0, rhs.0)],
            r == (float4 { x: float1(next_id(old(b)@, 0)), y: float1(next_id(old(b)@, 1)), z: float1(next_id(old(b)@, 2)), w: float1(next_id(old(b)@, 3)) }),
            r.valid_in(final(b)@),
    {
        let x = self.x.sub(rhs, b);
        let y = self.y.sub(rhs, b);
        let z = self.z.sub(rhs, b);
        let w = self.w.sub(rhs, b);
        float4 { x: x, y: y, z: z, w: w }
    }

    /// The product of each component and `rhs`.
    pub fn mul_scalar(self, rhs: float1, b: &mut ShaderBuilder) -> (r: float4)
        requires
            self.valid_in(old(b)@),
            rhs.valid_in(old(b)@),
            old(b)@.len() + 4 <= u32::MAX,
        ensures
            final(b)@ == old(b)@ + seq![ShaderOp::FMul(self.x.0, rhs.0), ShaderOp::FMul(self.y.0, rhs.0), ShaderOp::FMul(self.z.0, rhs.0), ShaderOp::FMul(self.w.0, rhs.0)],
            r == (float4 { x: float1(next_id(old(b)@, 0)), y: float1(next_id(old(b)@, 1)), z: float1(next_id(old(b)@, 2)), w: float1(next_id(old(b)@, 3)) }),
            r.valid_in(final(b)@),
    {
        let x = self.x.mul(rhs, b);
        let y = self.y.mul(rhs, b);
        let z = self.z.mul(rhs, b);
        let w = self.w.mul(rhs, b);
        float4 { x: x, y: y, z: z, w: w }
    }

    /// The quotient of each component and `rhs`.
    pub fn div_scalar(self, rhs: float1, b: &mut ShaderBuilder) -> (r: float4)
        requires
            self.valid_in(old(b)@),
            rhs.valid_in(old(b)@),
            old(b)@.len() + 4 <= u32::MAX,
        ensures
            final(b)@ == old(b)@ + seq![ShaderOp::FDiv(self.x.0, rhs.0), ShaderOp::FDiv(self.y.0, rhs.0), ShaderOp::FDiv(self.z.0, rhs.0), ShaderOp::FDiv(self.w.0, rhs.0)],
            r == (float4 { x: float1(next_id(old(b)@, 0)), y: float1(next_id(old(b)@, 1)), z: float1(next_id(old(b)@, 2)), w: float1(next_id(old(b)@, 3)) }),
            r.valid_in(final(b)@),
    {
        let x = self.x.div(rhs, b);
        let y = self.y.div(rhs, b);
        let z = self.z.div(rhs, b);
        let w = self.w.div(rhs, b);
        float4 { x: x, y: y, z: z, w: w }
    }

    /// Clamp each component between the components of `min` and `max`.
    pub fn clamp(self, min: float4, max: float4, b: &mut ShaderBuilder) -> (r: float4)
        requires
            self.valid_in(old(b)@),
            min.valid_in(old(b)@),
            max.valid_in(old(b)@),
            old(b)@.len() + 8 <= u32::MAX,
        ensures
            final(b)@ == old(b)@ + seq![ShaderOp::FMin(self.x.0, max.x.0), ShaderOp::FMax(next_id(old(b)@, 0), min.x.0), ShaderOp::FMin(self.y.0, max.y.0), ShaderOp::FMax(next_id(old(b)@, 2), min.y.0), ShaderOp::FMin(self.z.0, max.z.0), ShaderOp::FMax(next_id(old(b)@, 4), min.z.0), ShaderOp::FMin(self.w.0, max.w.0), ShaderOp::FMax(next_id(old(b)@, 6), min.w.0)],
            r == (float4 { x: float1(next_id(old(b)@, 1)), y: float1(next_id(old(b)@, 3)), z: float1(next_id(old(b)@, 5)), w: float1(next_id(old(b)@, 7)) }),
            r.valid_in(final(b)@),
    {
        let x = self.x.clamp(min.x, max.x, b);
        let y = self.y.clamp(min.y, max.y, b);
        let z = self.z.clamp(min.z, max.z, b);
        let w = self.w.clamp(min.w, max.w, b);
        float4 { x: x, y: y, z: z, w: w }
    }

    /// Linearly interpolate each component of `start` and `end` by the matching component of `self`.
    pub fn lerp(self, start: float4, end: float4, b: &mut ShaderBuilder) -> (r: float4)
        requires
            self.valid_in(old(b)@),
            start.valid_in(old(b)@),
            end.valid_in(old(b)@),
            old(b)@.len() + 4 <= u32::MAX,
        ensures
            final(b)@ == old(b)@ + seq![ShaderOp::Lerp(self.x.0, start.x.0, end.x.0), ShaderOp::Lerp(self.y.0, start.y.0, end.y.0), ShaderOp::Lerp(self.z.0, start.z.0, end.z.0), ShaderOp::Lerp(self.w.0, start.w.0, end.w.0)],
            r == (float4 { x: float1(next_id(old(b)@, 0)), y: float1(next_id(old(b)@, 1)), z: float1(next_id(old(b)@, 2)), w: float1(next_id(old(b)@, 3)) }),
            r.valid_in(final(b)@),
    {
        let x = self.x.lerp(start.x, end.x, b);
        let y = self.y.lerp(start.y, end.y, b);
        let z = self.z.lerp(start.z, end.z, b);
        let w = self.w.lerp(start.w, end.w, b);
        float4 { x: x, y: y, z: z, w: w }
    }

    /// Get the dot product with another vector.
    pub fn dot(self, rhs: float4, b: &mut ShaderBuilder) -> (r: float1)
        requires
            self.valid_in(old(b)@),
            rhs.valid_in(old(b)@),
            old(b)@.len() + 7 <= u32::MAX,
        ensures
            final(b)@ == old(b)@ + seq![ShaderOp::FMul(self.x.0, rhs.x.0), ShaderOp::FMul(self.y.0, rhs.y.0), ShaderOp::FAdd(next_id(old(b)@, 0), next_id(old(b)@, 1)), ShaderOp::FMul(self.z.0, rhs.z.0), ShaderOp::FAdd(next_id(old(b)@, 2), next_id(old(b)@, 3)), ShaderOp::FMul(self.w.0, rhs.w.0), ShaderOp::FAdd(next_id(old(b)@, 4), next_id(old(b)@, 5))],
            r == float1(next_id(old(b)@, 6)),
            r.valid_in(final(b)@),
    {
        let x = self.x.mul(rhs.x, b);
        let y = self.y.mul(rhs.y, b);
        let s = x.add(y, b);
        let z = self.z.mul(rhs.z, b);
        let s = s.add(z, b);
        let w = self.w.mul(rhs.w, b);
        let s = s.add(w, b);
        s
    }

    /// Get the length of the vector.
    pub fn len(self, b: &mut ShaderBuilder) -> (r: float1)
        requires
            self.valid_in(old(b)@),
            old(b)@.len() + 8 <= u32::MAX,
        ensures
            final(b)@ == old(b)@ + seq![ShaderOp::FMul(self.x.0, self.x.0), ShaderOp::FMul(self.y.0, self.y.0), ShaderOp::FAdd(next_id(old(b)@, 0), next_id(old(b)@, 1)), ShaderOp::FMul(self.z.0, self.z.0), ShaderOp::FAdd(next_id(old(b)@, 2), next_id(old(b)@, 3)), ShaderOp::FMul(self.w.0, self.w.0), ShaderOp::FAdd(next_id(old(b)@, 4), next_id(old(b)@, 5)), ShaderOp::Sqrt(next_id(old(b)@, 6))],
            r == float1(next_id(old(b)@, 7)),
            r.valid_in(final(b)@),
    {
        let d = self.dot(self, b);
        d.sqrt(b)
    }

    /// Normalize the vector to length 1.
    pub fn norm(self, b: &mut ShaderBuilder) -> (r: float4)
        requires
            self.valid_in(old(b)@),
            old(b)@.len() + 12 <= u32::MAX,
        ensures
            final(b)@ == old(b)@ + seq![ShaderOp::FMul(self.x.0, self.x.0), ShaderOp::FMul(self.y.0, self.y.0), ShaderOp::FAdd(next_id(old(b)@, 0), next_id(old(b)@, 1)), ShaderOp::FMul(self.z.0, self.z.0), ShaderOp::FAdd(next_id(old(b)@, 2), next_id(old(b)@, 3)), ShaderOp::FMul(self.w.0, self.w.0), ShaderOp::FAdd(next_id(old(b)@, 4), next_id(old(b)@, 5)), ShaderOp::Sqrt(next_id(old(b)@, 6)), ShaderOp::FDiv(self.x.0, next_id(old(b)@, 7)), ShaderOp::FDiv(self.y.0, next_id(old(b)@, 7)), ShaderOp::FDiv(self.z.0, next_id(old(b)@, 7)), ShaderOp::FDiv(self.w.0, next_id(old(b)@, 7))],
            r == (float4 { x: float1(next_id(old(b)@, 8)), y: float1(next_id(old(b)@, 9)), z: float1(next_id(old(b)@, 10)), w: float1(next_id(old(b)@, 11)) }),
            r.valid_in(final(b)@),
    {
        let l = self.len(b);
        self.div_scalar(l, b)
    }
}

impl Lerp<float1> for float4 {
    open spec fn width() -> nat {
        4
    }

    open spec fn lerp_ops(sel: float1, start: Self, end: Self, n: nat) -> Seq<ShaderOp> {
        seq![ShaderOp::Lerp(sel.0, start.x.0, end.x.0), ShaderOp::Lerp(sel.0, start.y.0, end.y.0), ShaderOp::Lerp(sel.0, start.z.0, end.z.0), ShaderOp::Lerp(sel.0, start.w.0, end.w.0)]
    }

    open spec fn lerp_result(sel: float1, start: Self, end: Self, n: nat) -> Self {
        float4 { x: float1((n + 0) as u32), y: float1((n + 1) as u32), z: float1((n + 2) as u32), w: float1((n + 3) as u32) }
    }

    fn lerp(sel: float1, start: Self, end: Self, b: &mut ShaderBuilder) -> (r: Self) {
        let x = sel.lerp(start.x, end.x, b);
        let y = sel.lerp(start.y, end.y, b);
        let z = sel.lerp(start.z, end.z, b);
        let w = sel.lerp(start.w, end.w, b);
        float4 { x: x, y: y, z: z, w: w }
    }
}

impl Lerp<float4> for float4 {
    open spec fn width() -> nat {
        4
    }

    open spec fn lerp_ops(sel: float4, start: Self, end: Self, n: nat) -> Seq<ShaderOp> {
        seq![ShaderOp::Lerp(sel.x.0, start.x.0, end.x.0), ShaderOp::Lerp(sel.y.0, start.y.0, end.y.0), ShaderOp::Lerp(sel.z.0, start.z.0, end.z.0), ShaderOp::Lerp(sel.w.0, start.w.0, end.w.0)]
    }

    open spec fn lerp_result(sel: float4, start: Self, end: Self, n: nat) -> Self {
        float4 { x: float1((n + 0) as u32), y: float1((n + 1) as u32), z: float1((n + 2) as u32), w: float1((n + 3) as u32) }
    }

    fn lerp(sel: float4, start: Self, end: Self, b: &mut ShaderBuilder) -> (r: Self) {
        let x = sel.x.lerp(start.x, end.x, b);
        let y = sel.y.lerp(start.y, end.y, b);
        let z = sel.z.lerp(start.z, end.z, b);
        let w = sel.w.lerp(start.w, end.w, b);
        float4 { x: x, y: y, z: z, w: w }
    }
}

impl Lerp<boolean> for float4 {
    open spec fn width() -> nat {
        4
    }

    open spec fn lerp_ops(sel: boolean, start: Self, end: Self, n: nat) -> Seq<ShaderOp> {
        seq![ShaderOp::FSelect(sel.0, start.x.0, end.x.0), ShaderOp::FSelect(sel.0, start.y.0, end.y.0), ShaderOp::FSelect(sel.0, start.z.0, end.z.0), ShaderOp::FSelect(sel.0, start.w.0, end.w.0)]
    }

    open spec fn lerp_result(sel: boolean, start: Self, end: Self, n: nat) -> Self {
        float4 { x: float1((n + 0) as u32), y: float1((n + 1) as u32), z: float1((n + 2) as u32), w: float1((n + 3) as u32) }
    }

    fn lerp(sel: boolean, start: Self, end: Self, b: &mut ShaderBuilder) -> (r: Self) {
        let x = sel.select(start.x, end.x, b);
        let y = sel.select(start.y, end.y, b);
        let z = sel.select(start.z, end.z, b);
        let w = sel.select(start.w, end.w, b);
        float4 { x: x, y: y, z: z, w: w }
    }
}

impl texture2d {
    /// The texture in slot `index` of the object being drawn.
    pub fn read(index: u32) -> (r: texture2d)
        ensures
            r == texture2d(index),
    {
        texture2d(index)
    }

    /// Get the width of the texture in pixels.
    pub fn width(&self, b: &mut ShaderBuilder) -> (r: int1)
        requires
            old(b)@.len() < u32::MAX,
        ensures
            final(b)@ == old(b)@.push(ShaderOp::TexW(self.0)),
            r == int1(next_id(old(b)@, 0)),
            r.valid_in(final(b)@),
    {
        int1(b.add(ShaderOp::TexW(self.0)))
    }

    /// Get the height of the texture in pixels.
    pub fn height(&self, b: &mut ShaderBuilder) -> (r: int1)
        requires
            old(b)@.len() < u32::MAX,
        ensures
            final(b)@ == old(b)@.push(ShaderOp::TexH(self.0)),
            r == int1(next_id(old(b)@, 0)),
            r.valid_in(final(b)@),
    {
        int1(b.add(ShaderOp::TexH(self.0)))
    }

    /// Sample the texture at the given pixel coordinates with the given filter,
    /// one channel at a time.
    pub fn sample(&self, xy: float2, filter: TextureFilter, b: &mut ShaderBuilder) -> (r: float4)
        requires
            xy.valid_in(old(b)@),
            old(b)@.len() + 4 <= u32::MAX,
        ensures
            final(b)@ == old(b)@ + seq![
                ShaderOp::TexSample(self.0, xy.x.0, xy.y.0, filter, TextureChannel::Red),
                ShaderOp::TexSample(self.0, xy.x.0, xy.y.0, filter, TextureChannel::Green),
                ShaderOp::TexSample(self.0, xy.x.0, xy.y.0, filter, TextureChannel::Blue),
                ShaderOp::TexSample(self.0, xy.x.0, xy.y.0, filter, TextureChannel::Alpha),
            ],
            r == (float4 {
                x: float1(next_id(old(b)@, 0)),
                y: float1(next_id(old(b)@, 1)),
                z: float1(next_id(old(b)@, 2)),
                w: float1(next_id(old(b)@, 3)),
            }),
            r.valid_in(final(b)@),
    {
        let x = xy.x.0;
        let y = xy.y.0;
        let r = float1(b.add(ShaderOp::TexSample(self.0, x, y, filter, TextureChannel::Red)));
        let g = float1(b.add(ShaderOp::TexSample(self.0, x, y, filter, TextureChannel::Green)));
        let bl = float1(b.add(ShaderOp::TexSample(self.0, x, y, filter, TextureChannel::Blue)));
        let a = float1(b.add(ShaderOp::TexSample(self.0, x, y, filter, TextureChannel::Alpha)));
        float4 { x: r, y: g, z: bl, w: a }
    }
}

} // verus!
