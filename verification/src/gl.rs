//! What the backend knows of the OpenGL implementation it runs on, and the
//! bookkeeping of the buffers it streams object data through.

use vstd::prelude::*;
use crate::batch::BUFFER_ALIGNMENT;

verus! {

/// What an OpenGL implementation reports about itself.
#[derive(Debug)]
pub struct GlInfo {
    /// The OpenGL version, major and minor.
    pub version: (u32, u32),
    /// Whether this is OpenGL ES.
    pub is_gles: bool,
    /// The vendor string.
    pub vendor: String,
    /// The supported extensions.
    pub extensions: Vec<String>,
    /// The largest texture side.
    pub max_texture_size: u32,
    /// The number of texture units a fragment program can use.
    pub max_texture_units: u32,
    /// The largest uniform block, in bytes.
    pub max_uniform_block_size: u32,
}

/// Version `v` is `(major, minor)` or later.
pub open spec fn at_least(v: (u32, u32), major: u32, minor: u32) -> bool {
    v.0 > major || (v.0 == major && v.1 >= minor)
}

fn at_least_exec(v: (u32, u32), major: u32, minor: u32) -> (b: bool)
    ensures
        b == at_least(v, major, minor),
{
    v.0 > major || (v.0 == major && v.1 >= minor)
}

/// The GLSL version that goes with an OpenGL version: for OpenGL 3.3 and later
/// the same number, for earlier versions the one each introduced; for OpenGL ES,
/// 3.00 maps to 330, 2.0 to 120 and anything earlier to 100.
pub open spec fn glsl_version_of(version: (u32, u32), is_gles: bool) -> int {
    if is_gles && at_least(version, 3, 0) {
        330
    } else if is_gles && at_least(version, 2, 0) {
        120
    } else if is_gles {
        100
    } else if at_least(version, 3, 3) {
        version.0 * 100 + version.1 * 10
    } else if at_least(version, 3, 2) {
        150
    } else if at_least(version, 3, 1) {
        140
    } else if at_least(version, 3, 0) {
        130
    } else if at_least(version, 2, 1) {
        120
    } else if at_least(version, 2, 0) {
        110
    } else {
        100
    }
}

/// The list holds the extension `name`.
pub open spec fn has_extension(extensions: Seq<String>, name: Seq<char>) -> bool {
    exists|i: int| 0 <= i < extensions.len() && (#[trigger] extensions[i])@ == name
}

fn contains_extension(extensions: &Vec<String>, name: &str) -> (b: bool)
    ensures
        b == has_extension(extensions@, name@),
{
    let wanted = String::from_str(name);
    let mut i: usize = 0;
    while i < extensions.len()
        invariant
            i <= extensions@.len(),
            wanted@ == name@,
            forall|j: int| 0 <= j < i ==> (#[trigger] extensions@[j])@ != name@,
        decreases extensions@.len() - i,
    {
        if extensions[i] == wanted {
            return true;
        }
        i += 1;
    }
    false
}

impl GlInfo {
    /// The GLSL version to write programs for.
    ///
    /// A version so large that its number overflows panics; it is left out here.
    pub fn glsl_version(&self) -> (v: u32)
        requires
            !self.is_gles && at_least(self.version, 3, 3) ==> self.version.0 * 100 + self.version.1 * 10 <= u32::MAX,
        ensures
            v == glsl_version_of(self.version, self.is_gles),
    {
        let v = self.version;
        if self.is_gles && at_least_exec(v, 3, 0) {
            330
        } else if self.is_gles && at_least_exec(v, 2, 0) {
            120
        } else if self.is_gles {
            100
        } else if at_least_exec(v, 3, 3) {
            v.0 * 100 + v.1 * 10
        } else if at_least_exec(v, 3, 2) {
            150
        } else if at_least_exec(v, 3, 1) {
            140
        } else if at_least_exec(v, 3, 0) {
            130
        } else if at_least_exec(v, 2, 1) {
            120
        } else if at_least_exec(v, 2, 0) {
            110
        } else {
            100
        }
    }

    /// Whether uniform blocks are available: OpenGL 3.1, or the extension.
    pub fn is_baseline_supported(&self) -> (b: bool)
        ensures
            b == (at_least(self.version, 3, 1) || has_extension(self.extensions@, "GL_ARB_uniform_buffer_object"@)),
    {
        at_least_exec(self.version, 3, 1) || contains_extension(&self.extensions, "GL_ARB_uniform_buffer_object")
    }

    /// Whether timer queries are available: the extension, or OpenGL 3.3.
    pub fn is_timer_query_supported(&self) -> (b: bool)
        ensures
            b == (has_extension(self.extensions@, "GL_ARB_timer_query"@) || at_least(self.version, 3, 3)),
    {
        contains_extension(&self.extensions, "GL_ARB_timer_query") || at_least_exec(self.version, 3, 3)
    }

    /// The size to use for the uniform block: the largest the implementation
    /// allows, at most 256 KiB, rounded down to a multiple of 16 bytes.
    pub fn target_ubo_size(&self) -> (n: u32)
        ensures
            ({
                let target = if self.max_uniform_block_size <= 262144 { self.max_uniform_block_size } else { 262144 };
                n == target - target % 16
            }),
    {
        let target = if self.max_uniform_block_size <= 262144 { self.max_uniform_block_size } else { 262144 };
        target - target % BUFFER_ALIGNMENT
    }
}

/// Where the next write goes in a ring buffer of object data: writes go one
/// after the other, and one that does not fit in what is left starts over at
/// the beginning.
pub struct StreamCursor {
    size: u32,
    ptr: u32,
}

impl StreamCursor {
    /// The buffer's size in bytes.
    pub closed spec fn size(&self) -> u32 {
        self.size
    }

    /// Where the next write goes.
    pub closed spec fn position(&self) -> u32 {
        self.ptr
    }

    #[verifier::type_invariant]
    closed spec fn cursor_inv(self) -> bool {
        self.ptr <= self.size
    }

    /// A cursor at the start of a buffer of `size` bytes.
    pub fn new(size: u32) -> (c: Self)
        ensures
            c.size() == size,
            c.position() == 0,
    {
        StreamCursor { size, ptr: 0 }
    }

    /// The bytes left after the position.
    pub fn bytes_left(&self) -> (n: u32)
        ensures
            n == self.size() - self.position(),
    {
        proof {
            use_type_invariant(self);
        }
        self.size - self.ptr
    }

    /// Reserves `len` bytes: after the position if they fit there, else at the
    /// start; returns the range reserved.
    ///
    /// A length that is not a multiple of 16, or larger than the buffer, panics;
    /// it is left out here.
    pub fn write(&mut self, len: u32) -> (r: (u32, u32))
        requires
            len % 16 == 0,
            len <= old(self).size(),
        ensures
            final(self).size() == old(self).size(),
            r.0 == write_start(old(self).size(), old(self).position(), len),
            r.1 == r.0 + len,
            final(self).position() == r.1,
    {
        proof {
            use_type_invariant(&*self);
        }
        if len > self.size - self.ptr {
            self.ptr = 0;
        }
        let start = self.ptr;
        self.ptr = start + len;
        (start, self.ptr)
    }
}

/// A window into a texture buffer of `size` texels (16 bytes each) that writes
/// are reserved from in turn, starting at texel `start`.
pub struct GlTextureBufferWriter {
    size: usize,
    start: usize,
    ptr: usize,
}

/// The number of texels that hold `bytes` bytes.
pub open spec fn texels_for(bytes: usize) -> int {
    (bytes + 15) / 16
}

impl GlTextureBufferWriter {
    /// The buffer's size in texels.
    pub closed spec fn size(&self) -> usize {
        self.size
    }

    /// The texel where this window starts.
    pub closed spec fn start(&self) -> usize {
        self.start
    }

    /// The next free texel.
    pub closed spec fn position(&self) -> usize {
        self.ptr
    }

    #[verifier::type_invariant]
    closed spec fn writer_inv(self) -> bool {
        self.start <= self.ptr <= self.size && self.size <= usize::MAX / 16
    }

    /// A window over a buffer of `size` texels whose next free texel is `ptr`.
    pub fn new(size: usize, ptr: usize) -> (w: Self)
        requires
            ptr <= size <= usize::MAX / 16,
        ensures
            w.size() == size,
            w.start() == ptr,
            w.position() == ptr,
    {
        GlTextureBufferWriter { size, start: ptr, ptr }
    }

    /// The next free texel.
    pub fn pointer(&self) -> (p: usize)
        ensures
            p == self.position(),
    {
        self.ptr
    }

    /// The bytes left after the next free texel.
    pub fn space_left(&self) -> (n: usize)
        ensures
            n == (self.size() - self.position()) * 16,
    {
        proof {
            use_type_invariant(self);
        }
        (self.size - self.ptr) * 16
    }

    /// Marks the whole buffer as used.
    pub fn mark_full(&mut self)
        ensures
            final(self).size() == old(self).size(),
            final(self).start() == old(self).start(),
            final(self).position() == old(self).size(),
    {
        proof {
            use_type_invariant(&*self);
        }
        self.ptr = self.size;
    }

    /// Reserves the texels that hold `byte_size` bytes and returns the first of
    /// them, counted from the window's start.
    ///
    /// The reservation is granted when the bytes left are at least the number
    /// of texels asked for; otherwise it panics. A reservation that would run
    /// past the end of the buffer writes out of bounds. Both are left out here.
    pub fn request(&mut self, byte_size: usize) -> (offset: usize)
        requires
            byte_size <= usize::MAX - 15,
            (old(self).size() - old(self).position()) * 16 >= texels_for(byte_size),
            old(self).position() + texels_for(byte_size) <= old(self).size(),
        ensures
            offset == old(self).position() - old(self).start(),
            final(self).position() == old(self).position() + texels_for(byte_size),
            final(self).size() == old(self).size(),
            final(self).start() == old(self).start(),
    {
        proof {
            use_type_invariant(&*self);
        }
        let texels = (byte_size + 15) / 16;
        let offset = self.ptr - self.start;
        self.ptr = self.ptr + texels;
        offset
    }
}

/// Where a write of `len` bytes starts in a buffer of `size` bytes whose
/// cursor is at `position`.
pub open spec fn write_start(size: u32, position: u32, len: u32) -> u32 {
    if len > size - position { 0 } else { position }
}

/// A write lands inside the buffer, and a cursor at a multiple of 16 stays at
/// one: every range handed out starts at a multiple of 16.
pub proof fn lemma_write_in_buffer(size: u32, position: u32, len: u32)
    requires
        position <= size,
        len <= size,
        len % 16 == 0,
    ensures
        write_start(size, position, len) + len <= size,
        position % 16 == 0 ==> write_start(size, position, len) % 16 == 0
            && (write_start(size, position, len) + len) % 16 == 0,
{
}

} // verus!
