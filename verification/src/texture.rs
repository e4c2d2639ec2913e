//! Pixel geometry, colors and texture descriptions.

use vstd::prelude::*;

verus! {

/// A color represented as RGBA components in SRGB space.
#[derive(Clone, Copy, Debug, Hash, PartialEq, Eq, Default)]
pub struct Color {
    /// Red component.
    pub r: u8,
    /// Green component.
    pub g: u8,
    /// Blue component.
    pub b: u8,
    /// Alpha (transparency) component.
    pub a: u8,
}

/// One channel of a linear interpolation between `a` and `b` by `x / 256`,
/// where a factor of 255 reaches `b`.
pub open spec fn lerp_channel(a: u8, b: u8, x: u8) -> u8 {
    if x == 255 {
        b
    } else {
        ((a * (256 - x) + b * x) / 256) as u8
    }
}

fn lerp_u8(a: u8, b: u8, x: u8) -> (r: u8)
    ensures
        r == lerp_channel(a, b, x),
{
    if x == 255 {
        return b;
    }
    let a16 = a as u16;
    let b16 = b as u16;
    let x16 = x as u16;
    assert(a16 * (256 - x16) <= 255 * (256 - x16)) by (nonlinear_arith)
        requires a16 <= 255, x16 <= 255;
    assert(b16 * x16 <= 255 * x16) by (nonlinear_arith)
        requires b16 <= 255, x16 <= 255;
    let s = a16 * (256 - x16) + b16 * x16;
    ((s / 256) as u8)
}

impl Color {
    /// Linearly interpolate between this color and another color by a given factor.
    ///
    /// `t` is in the range `[0, 255]`, where 0 returns `self` and 255 returns `other`.
    pub fn lerp(self, other: Color, t: u8) -> (res: Color)
        ensures
            res.r == lerp_channel(self.r, other.r, t),
            res.g == lerp_channel(self.g, other.g, t),
            res.b == lerp_channel(self.b, other.b, t),
            res.a == lerp_channel(self.a, other.a, t),
            t == 0 ==> res == self,
            t == 255 ==> res == other,
    {
        proof {
            lemma_lerp_zero(self, other);
            lemma_lerp_full(self, other);
        }
        Color {
            r: lerp_u8(self.r, other.r, t),
            g: lerp_u8(self.g, other.g, t),
            b: lerp_u8(self.b, other.b, t),
            a: lerp_u8(self.a, other.a, t),
        }
    }
}

/// Pixel format of an image.
#[derive(Clone, Copy, Debug, PartialEq, Eq, Structural)]
pub enum TextureFormat {
    /// 8-bit single channel format.
    R8,
    /// 8-bit RGB format, assumes alpha of 255.
    RGB8,
    /// 8-bit RGBA format.
    RGBA8,
}

/// The number of bytes that one pixel of the format takes.
pub open spec fn format_bytes(f: TextureFormat) -> nat {
    match f {
        TextureFormat::R8 => 1,
        TextureFormat::RGB8 => 3,
        TextureFormat::RGBA8 => 4,
    }
}

impl TextureFormat {
    /// Get the number of bytes per pixel for this format.
    pub fn bytes_per_pixel(&self) -> (n: usize)
        ensures
            n == format_bytes(*self),
    {
        match self {
            TextureFormat::R8 => 1,
            TextureFormat::RGB8 => 3,
            TextureFormat::RGBA8 => 4,
        }
    }
}

/// Texture filtering mode.
#[derive(Clone, Copy, Debug, PartialEq, Eq, Hash, Structural)]
pub enum TextureFilter {
    /// Linear filtering.
    Linear,
    /// Nearest neighbor filtering (point sampling).
    Nearest,
}

/// A single channel of a texture.
#[derive(Clone, Copy, Debug, Hash, PartialEq, Eq, Structural)]
pub enum TextureChannel {
    /// Red channel.
    Red,
    /// Green channel.
    Green,
    /// Blue channel.
    Blue,
    /// Alpha channel.
    Alpha,
}

/// Texture data. Used for uploading static textures to the backend.
#[derive(Clone, Copy, Debug)]
pub struct TextureData<'a> {
    /// The region of the texture to upload data to.
    pub bounds: Bounds,
    /// The format of the texture data.
    pub format: TextureFormat,
    /// The raw pixel data.
    pub data: &'a [u8],
}

/// A struct representing a size in physical pixels.
#[derive(Clone, Copy, Debug, Hash, PartialEq, Eq, Structural)]
pub struct Size {
    /// Width, in physical pixels.
    pub width: u32,
    /// Height, in physical pixels.
    pub height: u32,
}

/// An axis aligned rectangle in physical pixels with origin in the top left corner.
#[derive(Clone, Copy, Debug, Hash, PartialEq, Eq, Structural)]
pub struct Bounds {
    /// Left coordinate (min X) of the rectangle.
    pub left: u32,
    /// Right coordinate (max X) of the rectangle.
    pub right: u32,
    /// Top coordinate (min Y) of the rectangle.
    pub top: u32,
    /// Bottom coordinate (max Y) of the rectangle.
    pub bottom: u32,
}

/// `a - b`, or zero where that is negative.
pub open spec fn sat_sub(a: u32, b: u32) -> u32 {
    if a >= b { (a - b) as u32 } else { 0 }
}

/// `v` clamped into the range of `u32`.
pub open spec fn clamp_u32(v: int) -> u32 {
    if v < 0 { 0 } else if v > u32::MAX { u32::MAX } else { v as u32 }
}

pub open spec fn min_u32(a: u32, b: u32) -> u32 {
    if a <= b { a } else { b }
}

pub open spec fn max_u32(a: u32, b: u32) -> u32 {
    if a >= b { a } else { b }
}

impl Bounds {
    /// Whether the rectangle has zero or negative area.
    pub open spec fn spec_empty(self) -> bool {
        self.left >= self.right || self.top >= self.bottom
    }

    /// Whether this rectangle fully contains `other` (touching edges count).
    pub open spec fn spec_contains(self, other: Bounds) -> bool {
        self.left <= other.left && self.right >= other.right && self.top <= other.top
            && self.bottom >= other.bottom
    }

    /// The componentwise intersection.
    pub open spec fn spec_intersect(self, other: Bounds) -> Bounds {
        Bounds {
            left: max_u32(self.left, other.left),
            right: min_u32(self.right, other.right),
            top: max_u32(self.top, other.top),
            bottom: min_u32(self.bottom, other.bottom),
        }
    }

    /// The smallest rectangle that holds both.
    pub open spec fn spec_union(self, other: Bounds) -> Bounds {
        Bounds {
            left: min_u32(self.left, other.left),
            right: max_u32(self.right, other.right),
            top: min_u32(self.top, other.top),
            bottom: max_u32(self.bottom, other.bottom),
        }
    }

    /// Whether the pixel at `(x, y)` lies inside the rectangle.
    pub open spec fn covers(self, x: int, y: int) -> bool {
        self.left <= x < self.right && self.top <= y < self.bottom
    }

    /// Get the size of the rectangle.
    ///
    /// Negative sizes are clamped to zero.
    pub fn size(&self) -> (s: Size)
        ensures
            s.width == sat_sub(self.right, self.left),
            s.height == sat_sub(self.bottom, self.top),
    {
        Size {
            width: if self.right >= self.left { self.right - self.left } else { 0 },
            height: if self.bottom >= self.top { self.bottom - self.top } else { 0 },
        }
    }

    /// Get the width of the rectangle
    pub fn width(&self) -> (w: u32)
        ensures
            w == sat_sub(self.right, self.left),
    {
        self.size().width
    }

    /// Get the height of the rectangle
    pub fn height(&self) -> (h: u32)
        ensures
            h == sat_sub(self.bottom, self.top),
    {
        self.size().height
    }

    /// Check if the rectangle is empty (has zero or negative area)
    pub fn is_empty(&self) -> (b: bool)
        ensures
            b == self.spec_empty(),
    {
        self.left >= self.right || self.top >= self.bottom
    }

    /// Check if this rectangle fully contains another rectangle (touching edges is considered contained)
    pub fn contains(&self, other: Bounds) -> (b: bool)
        ensures
            b == self.spec_contains(other),
    {
        self.left <= other.left && self.right >= other.right && self.top <= other.top
            && self.bottom >= other.bottom
    }

    /// Check if this rectangle intersects with another rectangle
    pub fn intersects(&self, other: Bounds) -> (b: bool)
        ensures
            b == !self.spec_intersect(other).spec_empty(),
    {
        !self.intersect(other).is_empty()
    }

    /// Get the intersection of this rectangle with another rectangle
    ///
    /// If the rectangles do not intersect, an empty (negative area) rectangle is returned.
    pub fn intersect(&self, other: Bounds) -> (r: Bounds)
        ensures
            r == self.spec_intersect(other),
    {
        let left = if self.left >= other.left { self.left } else { other.left };
        let right = if self.right <= other.right { self.right } else { other.right };
        let top = if self.top >= other.top { self.top } else { other.top };
        let bottom = if self.bottom <= other.bottom { self.bottom } else { other.bottom };
        Bounds { left, right, top, bottom }
    }

    /// Get the union of this rectangle with another rectangle
    pub fn union(&self, other: Bounds) -> (r: Bounds)
        ensures
            r == self.spec_union(other),
    {
        let left = if self.left <= other.left { self.left } else { other.left };
        let right = if self.right >= other.right { self.right } else { other.right };
        let top = if self.top <= other.top { self.top } else { other.top };
        let bottom = if self.bottom >= other.bottom { self.bottom } else { other.bottom };
        Bounds { left, right, top, bottom }
    }

    /// Offset the rectangle by the given amounts in the X and Y directions.
    ///
    /// Each coordinate saturates at the bounds of `u32`.
    pub fn offset(&self, x: i32, y: i32) -> (r: Bounds)
        ensures
            r.left == clamp_u32(self.left + x),
            r.right == clamp_u32(self.right + x),
            r.top == clamp_u32(self.top + y),
            r.bottom == clamp_u32(self.bottom + y),
    {
        Bounds {
            left: add_signed_saturating(self.left, x),
            right: add_signed_saturating(self.right, x),
            top: add_signed_saturating(self.top, y),
            bottom: add_signed_saturating(self.bottom, y),
        }
    }
}

fn add_signed_saturating(v: u32, d: i32) -> (r: u32)
    ensures
        r == clamp_u32(v + d),
{
    let s: i64 = v as i64 + d as i64;
    if s < 0 {
        0
    } else if s > u32::MAX as i64 {
        u32::MAX
    } else {
        s as u32
    }
}

/// An `i32` coordinate as a `u32`: negative values become 0.
pub open spec fn coord_or_zero(x: i32) -> u32 {
    if x < 0 { 0 } else { x as u32 }
}

fn coord_from_i32(x: i32) -> (r: u32)
    ensures
        r == coord_or_zero(x),
{
    if x < 0 { 0 } else { x as u32 }
}

impl From<[u32; 2]> for Size {
    fn from(v: [u32; 2]) -> (r: Self) {
        Size { width: v[0], height: v[1] }
    }
}

impl vstd::std_specs::convert::FromSpecImpl<[u32; 2]> for Size {
    open spec fn obeys_from_spec() -> bool {
        true
    }

    open spec fn from_spec(v: [u32; 2]) -> Self {
        Size { width: v@[0], height: v@[1] }
    }
}

impl From<(u32, u32)> for Size {
    fn from(v: (u32, u32)) -> (r: Self) {
        Size { width: v.0, height: v.1 }
    }
}

impl vstd::std_specs::convert::FromSpecImpl<(u32, u32)> for Size {
    open spec fn obeys_from_spec() -> bool {
        true
    }

    open spec fn from_spec(v: (u32, u32)) -> Self {
        Size { width: v.0, height: v.1 }
    }
}

impl From<[u32; 4]> for Bounds {
    /// The edges in the order left, top, right, bottom.
    fn from(v: [u32; 4]) -> (r: Self) {
        Bounds { left: v[0], top: v[1], right: v[2], bottom: v[3] }
    }
}

impl vstd::std_specs::convert::FromSpecImpl<[u32; 4]> for Bounds {
    open spec fn obeys_from_spec() -> bool {
        true
    }

    open spec fn from_spec(v: [u32; 4]) -> Self {
        Bounds { left: v@[0], top: v@[1], right: v@[2], bottom: v@[3] }
    }
}

impl From<(u32, u32, u32, u32)> for Bounds {
    /// The edges in the order left, top, right, bottom.
    fn from(v: (u32, u32, u32, u32)) -> (r: Self) {
        Bounds { left: v.0, top: v.1, right: v.2, bottom: v.3 }
    }
}

impl vstd::std_specs::convert::FromSpecImpl<(u32, u32, u32, u32)> for Bounds {
    open spec fn obeys_from_spec() -> bool {
        true
    }

    open spec fn from_spec(v: (u32, u32, u32, u32)) -> Self {
        Bounds { left: v.0, top: v.1, right: v.2, bottom: v.3 }
    }
}

impl From<[i32; 4]> for Bounds {
    /// The edges in the order left, top, right, bottom; negative edges become 0.
    fn from(v: [i32; 4]) -> (r: Self) {
        Bounds {
            left: coord_from_i32(v[0]),
            top: coord_from_i32(v[1]),
            right: coord_from_i32(v[2]),
            bottom: coord_from_i32(v[3]),
        }
    }
}

impl vstd::std_specs::convert::FromSpecImpl<[i32; 4]> for Bounds {
    open spec fn obeys_from_spec() -> bool {
        true
    }

    open spec fn from_spec(v: [i32; 4]) -> Self {
        Bounds {
            left: coord_or_zero(v@[0]),
            top: coord_or_zero(v@[1]),
            right: coord_or_zero(v@[2]),
            bottom: coord_or_zero(v@[3]),
        }
    }
}

impl From<(i32, i32, i32, i32)> for Bounds {
    /// The edges in the order left, top, right, bottom; negative edges become 0.
    fn from(v: (i32, i32, i32, i32)) -> (r: Self) {
        Bounds {
            left: coord_from_i32(v.0),
            top: coord_from_i32(v.1),
            right: coord_from_i32(v.2),
            bottom: coord_from_i32(v.3),
        }
    }
}

impl vstd::std_specs::convert::FromSpecImpl<(i32, i32, i32, i32)> for Bounds {
    open spec fn obeys_from_spec() -> bool {
        true
    }

    open spec fn from_spec(v: (i32, i32, i32, i32)) -> Self {
        Bounds {
            left: coord_or_zero(v.0),
            top: coord_or_zero(v.1),
            right: coord_or_zero(v.2),
            bottom: coord_or_zero(v.3),
        }
    }
}

/// Interpolating a color by 0 gives the color itself.
pub proof fn lemma_lerp_zero(c: Color, other: Color)
    ensures
        lerp_channel(c.r, other.r, 0) == c.r,
        lerp_channel(c.g, other.g, 0) == c.g,
        lerp_channel(c.b, other.b, 0) == c.b,
        lerp_channel(c.a, other.a, 0) == c.a,
{
    assert forall|a: u8, b: u8| #[trigger] lerp_channel(a, b, 0) == a by {
        assert(a * (256 - 0int) + b * 0int == a * 256int) by (nonlinear_arith);
    }
}

/// Interpolating a color by 255 gives the other color.
pub proof fn lemma_lerp_full(c: Color, other: Color)
    ensures
        lerp_channel(c.r, other.r, 255) == other.r,
        lerp_channel(c.g, other.g, 255) == other.g,
        lerp_channel(c.b, other.b, 255) == other.b,
        lerp_channel(c.a, other.a, 255) == other.a,
{
}

/// A rectangle is empty exactly when it covers no pixel.
pub proof fn lemma_empty_covers_nothing(a: Bounds)
    ensures
        a.spec_empty() <==> forall|x: int, y: int| !#[trigger] a.covers(x, y),
{
    if !a.spec_empty() {
        assert(a.covers(a.left as int, a.top as int));
    }
}

/// A rectangle is empty exactly when its width or its height is zero.
pub proof fn lemma_empty_size(a: Bounds)
    ensures
        a.spec_empty() <==> (sat_sub(a.right, a.left) == 0 || sat_sub(a.bottom, a.top) == 0),
{
}

/// Every rectangle contains itself.
pub proof fn lemma_contains_reflexive(a: Bounds)
    ensures
        a.spec_contains(a),
{
}

/// A rectangle covers every pixel that a rectangle it contains covers.
pub proof fn lemma_contains_covers(a: Bounds, b: Bounds)
    requires
        a.spec_contains(b),
    ensures
        forall|x: int, y: int| b.covers(x, y) ==> #[trigger] a.covers(x, y),
{
}

/// The intersection covers exactly the pixels both rectangles cover, and both
/// rectangles contain it.
pub proof fn lemma_intersect_covers(a: Bounds, b: Bounds)
    ensures
        forall|x: int, y: int| #[trigger] a.spec_intersect(b).covers(x, y) <==> (a.covers(x, y) && b.covers(x, y)),
        a.spec_contains(a.spec_intersect(b)),
        b.spec_contains(a.spec_intersect(b)),
{
}

/// Two rectangles intersect exactly when some pixel is covered by both.
pub proof fn lemma_intersects_iff_common_pixel(a: Bounds, b: Bounds)
    ensures
        !a.spec_intersect(b).spec_empty() <==> exists|x: int, y: int| a.covers(x, y) && #[trigger] b.covers(x, y),
{
    let i = a.spec_intersect(b);
    if !i.spec_empty() {
        assert(a.covers(i.left as int, i.top as int) && b.covers(i.left as int, i.top as int));
    }
    lemma_intersect_covers(a, b);
    lemma_empty_covers_nothing(i);
}

/// The union contains both rectangles.
pub proof fn lemma_union_contains(a: Bounds, b: Bounds)
    ensures
        a.spec_union(b).spec_contains(a),
        a.spec_union(b).spec_contains(b),
{
}

/// Intersection and union do not depend on the order of their operands.
pub proof fn lemma_intersect_union_commute(a: Bounds, b: Bounds)
    ensures
        a.spec_intersect(b) == b.spec_intersect(a),
        a.spec_union(b) == b.spec_union(a),
{
}

/// Offsetting a rectangle and then offsetting it back gives it again, when
/// no edge was clamped at the bounds of `u32`.
pub proof fn lemma_offset_back(a: Bounds, x: i32, y: i32)
    requires
        x > i32::MIN,
        y > i32::MIN,
        0 <= a.left + x <= u32::MAX,
        0 <= a.right + x <= u32::MAX,
        0 <= a.top + y <= u32::MAX,
        0 <= a.bottom + y <= u32::MAX,
    ensures
        ({
            let moved = Bounds {
                left: clamp_u32(a.left + x),
                right: clamp_u32(a.right + x),
                top: clamp_u32(a.top + y),
                bottom: clamp_u32(a.bottom + y),
            };
            Bounds {
                left: clamp_u32(moved.left + (-x)),
                right: clamp_u32(moved.right + (-x)),
                top: clamp_u32(moved.top + (-y)),
                bottom: clamp_u32(moved.bottom + (-y)),
            } == a
        }),
{
}

impl<'a> TextureData<'a> {
    /// Whether the data holds exactly one pixel of its format for each pixel
    /// of its region.
    pub fn has_valid_length(&self) -> (b: bool)
        ensures
            b == (self.data@.len() == sat_sub(self.bounds.right, self.bounds.left) as int
                * sat_sub(self.bounds.bottom, self.bounds.top) as int * format_bytes(self.format) as int),
    {
        let w = self.bounds.width() as u128;
        let h = self.bounds.height() as u128;
        let bpp = self.format.bytes_per_pixel() as u128;
        assert(w * h <= 0xffff_ffff * 0xffff_ffff) by (nonlinear_arith)
            requires w <= 0xffff_ffff, h <= 0xffff_ffff;
        let area = w * h;
        assert(area * bpp <= 0xffff_ffff * 0xffff_ffff * 4) by (nonlinear_arith)
            requires area <= 0xffff_ffff * 0xffff_ffff, bpp <= 4;
        let expected = area * bpp;
        self.data.len() as u128 == expected
    }
}

/// A pixel takes one byte per channel: one for `R8`, three for `RGB8`, four
/// for `RGBA8`.
pub proof fn lemma_format_bytes()
    ensures
        format_bytes(TextureFormat::R8) == 1,
        format_bytes(TextureFormat::RGB8) == 3,
        format_bytes(TextureFormat::RGBA8) == 4,
{
}

} // verus!
