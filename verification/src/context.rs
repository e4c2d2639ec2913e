//! What a rendering backend offers: the errors of its operations, handles of
//! its resources, and the encoder through which a frame's draw commands reach it.

use vstd::prelude::*;
use crate::texture::{Bounds, Color};

verus! {

/// A shader of a backend, by the number it was registered under.
#[derive(Clone, Copy, Debug, Hash, PartialEq, Eq, Structural)]
pub struct ShaderId(pub u64);

/// A texture of a backend, by the number it was registered under.
#[derive(Clone, Copy, Debug, Hash, PartialEq, Eq, Structural)]
pub struct TextureId(pub u64);

/// An error that occurred during texture creation or data upload.
#[derive(Clone, Copy, Debug, PartialEq, Eq, Structural)]
pub enum TextureError {
    /// The backend ran out of memory.
    OutOfMemory,
    /// The provided data was malformed or incompatible with the provided texture format.
    MalformedData,
}

/// An error that occurred during shader compilation.
#[derive(Clone, Copy, Debug, PartialEq, Eq, Structural)]
pub enum ShaderError {
    /// The shader graph was too complex to be compiled.
    TooComplex,
    /// The shader used more textures than the backend has texture units.
    TooManyTextures,
}

/// An error that has occurred while drawing.
#[derive(Clone, Copy, Debug, PartialEq, Eq, Structural)]
pub enum DrawError {
    /// The command stream names a shader that does not exist.
    InvalidShader,
    /// The command stream names a texture that does not exist.
    InvalidTexture,
    /// The render target is not valid.
    InvalidTarget,
    /// The object data does not correspond to what the shader expects.
    InvalidObjectData,
    /// The render target is also used as a texture.
    TargetInUse,
    /// The command stream is malformed.
    MalformedStream,
}

/// The message of a draw error.
pub open spec fn draw_error_text(e: DrawError) -> Seq<char> {
    match e {
        DrawError::InvalidShader => "command stream contains an invalid shader reference"@,
        DrawError::InvalidTexture => "command stream contains an invalid source texture"@,
        DrawError::InvalidTarget => "passed render target is not valid"@,
        DrawError::InvalidObjectData => "passed quad data does not correspond to the used shader's schema"@,
        DrawError::TargetInUse => "attempt to use the destination render target as a texture"@,
        DrawError::MalformedStream => "command stream is malformed"@,
    }
}

impl DrawError {
    /// A message describing the error.
    pub fn message(&self) -> (s: String)
        ensures
            s@ == draw_error_text(*self),
    {
        match self {
            DrawError::InvalidShader => String::from_str("command stream contains an invalid shader reference"),
            DrawError::InvalidTexture => String::from_str("command stream contains an invalid source texture"),
            DrawError::InvalidTarget => String::from_str("passed render target is not valid"),
            DrawError::InvalidObjectData => String::from_str("passed quad data does not correspond to the used shader's schema"),
            DrawError::TargetInUse => String::from_str("attempt to use the destination render target as a texture"),
            DrawError::MalformedStream => String::from_str("command stream is malformed"),
        }
    }
}

/// The target to draw into: the screen or a texture.
#[derive(Debug)]
pub enum DrawTarget<'a, T> {
    /// Render onto the screen.
    Screen,
    /// Render onto the given texture, which cannot be sampled while it is drawn into.
    Texture(&'a mut T),
}

impl<'a, T> DrawTarget<'a, T> {
    /// The target that draws into `texture`.
    pub fn from_texture(texture: &'a mut T) -> (r: Self)
        ensures
            r is Texture,
            *r->0 == *old(texture),
            *final(texture) == *final(r->0),
    {
        DrawTarget::Texture(texture)
    }
}

/// Encodes the draw commands of one frame.
pub trait FrameEncoder<'a> {
    /// The type of shader used for drawing.
    type Shader: 'static;

    /// The type of texture used for drawing.
    type Texture: 'static;

    /// Marks every pixel of the region as no longer needed.
    fn invalidate(&mut self, bounds: Bounds);

    /// Sets every pixel of the region to the color, without blending.
    fn fill(&mut self, bounds: Bounds, color: Color);

    /// Draws an object with the shader: the rectangles, data and textures added
    /// since the previous object.
    fn draw(&mut self, shader: &'a Self::Shader);

    /// Adds a rectangle to the next object.
    fn add_rect(&mut self, quad: Bounds);

    /// Appends a data blob to the next object's data.
    fn add_data(&mut self, buffer: &[u8]);

    /// Adds a texture to the next object.
    fn add_texture(&mut self, texture: &'a Self::Texture);
}

} // verus!
