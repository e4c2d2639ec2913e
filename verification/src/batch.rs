//! Batching of drawn objects into draw calls: each object's rectangles,
//! data and textures join the pending draw call, which is handed out for
//! drawing first whenever the object would not fit in the stream buffer or
//! would bind a different texture to a slot in use.

use vstd::prelude::*;
use crate::compiler::CompilerShader;
use crate::texture::Bounds;
use crate::compiler::serialize::{ordered_bytes, u16_native_bytes, ordered_u16, ordered_u32};

verus! {

/// The alignment, in bytes, of everything written to the stream buffer.
pub const BUFFER_ALIGNMENT: u32 = 16;

/// The size in bytes of a quad descriptor as the vertex program reads it.
pub const QUAD_DESCRIPTOR_SIZE: usize = 16;

/// A quad as the vertex program reads it: its corners, the index of the
/// shader that paints it, and where its data starts, in 16-byte units.
#[derive(Clone, Copy, Debug, PartialEq, Eq, Structural)]
pub struct GpuQuadDescriptor {
    pub left: u16,
    pub top: u16,
    pub right: u16,
    pub bottom: u16,
    pub shader: u32,
    pub offset: u32,
}

/// A coordinate as a 16-bit value, `u16::MAX` where it does not fit.
pub open spec fn clamp_u16(x: u32) -> u16 {
    if x <= 0xffff { x as u16 } else { 0xffffu16 }
}

fn clamp_u16_exec(x: u32) -> (r: u16)
    ensures
        r == clamp_u16(x),
{
    if x <= 0xffff { x as u16 } else { 0xffff }
}

/// The descriptor of a rectangle of an object drawn by shader `shader` whose
/// data starts at byte `offset` of the draw call's data.
pub open spec fn quad_of(rect: Bounds, shader: u32, offset: nat) -> GpuQuadDescriptor {
    GpuQuadDescriptor {
        left: clamp_u16(rect.left),
        top: clamp_u16(rect.top),
        right: clamp_u16(rect.right),
        bottom: clamp_u16(rect.bottom),
        shader,
        offset: (offset / 16) as u32,
    }
}

/// The 16 bytes of a quad descriptor, fields in order, each in the byte
/// order `orders` gives it (big-endian where set).
pub open spec fn quad_bytes(q: GpuQuadDescriptor, orders: Seq<bool>) -> Seq<u8> {
    ordered_bytes(q.left as nat, 2, orders[0]) + ordered_bytes(q.top as nat, 2, orders[1])
        + ordered_bytes(q.right as nat, 2, orders[2]) + ordered_bytes(q.bottom as nat, 2, orders[3])
        + ordered_bytes(q.shader as nat, 4, orders[4]) + ordered_bytes(q.offset as nat, 4, orders[5])
}

/// The bytes of the first `k` quad descriptors, one after the other, the
/// `i`th with the byte orders `orders[i]`.
pub open spec fn quads_bytes(qs: Seq<GpuQuadDescriptor>, orders: Seq<Seq<bool>>, k: nat) -> Seq<u8>
    decreases k,
{
    if k == 0 || k > qs.len() {
        Seq::empty()
    } else {
        quads_bytes(qs, orders, (k - 1) as nat) + quad_bytes(qs[k - 1], orders[k - 1])
    }
}

/// Whether the machine stores integers most significant byte first: the
/// order in which `u16::to_ne_bytes` gives the bytes of 1.
fn machine_big_endian() -> (big: bool) {
    let b = u16_native_bytes(1);
    b[0] != 1
}

/// Appends the two bytes of `x` in the byte order `big`.
fn push_native_u16(out: &mut Vec<u8>, x: u16, big: bool)
    ensures
        final(out)@ == old(out)@ + ordered_bytes(x as nat, 2, big),
{
    let b = ordered_u16(x, big);
    out.push(b[0]);
    out.push(b[1]);
    assert(final(out)@ =~= old(out)@ + b@);
}

/// Appends the four bytes of `x` in the byte order `big`.
fn push_native_u32(out: &mut Vec<u8>, x: u32, big: bool)
    ensures
        final(out)@ == old(out)@ + ordered_bytes(x as nat, 4, big),
{
    let b = ordered_u32(x, big);
    out.push(b[0]);
    out.push(b[1]);
    out.push(b[2]);
    out.push(b[3]);
    assert(final(out)@ =~= old(out)@ + b@);
}

/// Six times the byte order `big`, one for each field of a quad descriptor.
pub open spec fn quad_orders(big: bool) -> Seq<bool> {
    seq![big, big, big, big, big, big]
}

/// The same byte orders for each of `k` quad descriptors.
pub open spec fn quads_orders(k: nat, big: bool) -> Seq<Seq<bool>> {
    Seq::new(k, |_i: int| quad_orders(big))
}

fn push_quad(out: &mut Vec<u8>, q: GpuQuadDescriptor, big: bool)
    ensures
        final(out)@ == old(out)@ + quad_bytes(q, quad_orders(big)),
{
    let ghost start = out@;
    push_native_u16(out, q.left, big);
    push_native_u16(out, q.top, big);
    push_native_u16(out, q.right, big);
    push_native_u16(out, q.bottom, big);
    push_native_u32(out, q.shader, big);
    push_native_u32(out, q.offset, big);
    assert(out@ =~= start + quad_bytes(q, quad_orders(big)));
}

/// The bytes the vertex program reads a list of quad descriptors from, as
/// the descriptors lie in memory: every field in one byte order, the machine's.
pub fn encode_quads(quads: &Vec<GpuQuadDescriptor>) -> (r: Vec<u8>)
    ensures
        exists|big_endian: bool| #[trigger] quads_bytes(quads@, quads_orders(quads@.len(), big_endian), quads@.len()) == r@,
{
    let big = machine_big_endian();
    let mut r: Vec<u8> = Vec::new();
    let ghost all = quads_orders(quads@.len(), big);
    let mut i: usize = 0;
    while i < quads.len()
        invariant
            i <= quads@.len(),
            all == quads_orders(quads@.len(), big),
            r@ == quads_bytes(quads@, all, i as nat),
        decreases quads@.len() - i,
    {
        let q = quads[i];
        push_quad(&mut r, q, big);
        proof {
            assert(all[i as int] == quad_orders(big));
        }
        i += 1;
    }
    r
}

proof fn lemma_quads_bytes_prefix(qs: Seq<GpuQuadDescriptor>, a: Seq<Seq<bool>>, b: Seq<Seq<bool>>, k: nat)
    requires
        k <= a.len(),
        k <= b.len(),
        forall|j: int| 0 <= j < k ==> a[j] == b[j],
    ensures
        quads_bytes(qs, a, k) == quads_bytes(qs, b, k),
    decreases k,
{
    if k > 0 {
        lemma_quads_bytes_prefix(qs, a, b, (k - 1) as nat);
    }
}

/// A draw call ready to be drawn: the data of its objects, its quads, and the
/// texture bound to each texture slot it uses.
pub struct DrawCall {
    pub data: Vec<u8>,
    pub quads: Vec<GpuQuadDescriptor>,
    pub textures: Vec<Option<u32>>,
}

/// What a batch has drawn since its counts were last taken. Each count
/// wraps around at the end of its range.
#[derive(Clone, Copy, Debug)]
pub struct DrawCounts {
    /// Bytes of quad lists and object data handed out in draw calls.
    pub bytes: u64,
    /// Quads handed out in draw calls.
    pub quads: u32,
    /// Objects closed.
    pub objects: u32,
    /// Pixels covered by the rectangles of the objects closed.
    pub pixels: u64,
    /// Draw calls handed out.
    pub draw_calls: u32,
}

/// `x` wrapped into the range of a `u64`.
pub open spec fn wrap64(x: int) -> u64 {
    (x % 0x1_0000_0000_0000_0000) as u64
}

/// `x` wrapped into the range of a `u32`.
pub open spec fn wrap32(x: int) -> u32 {
    (x % 0x1_0000_0000) as u32
}

/// The pixels that a list of rectangles covers, counted once per rectangle.
pub open spec fn pixel_area(rects: Seq<Bounds>) -> int
    decreases rects.len(),
{
    if rects.len() == 0 {
        0
    } else {
        let r = rects.last();
        pixel_area(rects.drop_last())
            + crate::texture::sat_sub(r.right, r.left) * crate::texture::sat_sub(r.bottom, r.top)
    }
}

/// No counts at all.
pub open spec fn no_counts() -> DrawCounts {
    DrawCounts { bytes: 0, quads: 0, objects: 0, pixels: 0, draw_calls: 0 }
}

/// The counts after handing out a draw call made of `pending`: its quads
/// (16 bytes each) and data are sent, and one more draw call is made.
pub open spec fn counts_after_call(c: DrawCounts, pending: (Seq<u8>, Seq<GpuQuadDescriptor>, Seq<Option<u32>>)) -> DrawCounts {
    DrawCounts {
        bytes: wrap64(c.bytes + pending.1.len() * 16 + pending.0.len()),
        quads: wrap32(c.quads + pending.1.len()),
        objects: c.objects,
        pixels: c.pixels,
        draw_calls: wrap32(c.draw_calls + 1),
    }
}

/// The counts after closing an object with rectangles `rects`.
pub open spec fn counts_after_object(c: DrawCounts, rects: Seq<Bounds>) -> DrawCounts {
    DrawCounts {
        bytes: c.bytes,
        quads: c.quads,
        objects: wrap32(c.objects + 1),
        pixels: wrap64(c.pixels + pixel_area(rects)),
        draw_calls: c.draw_calls,
    }
}

fn add64(a: u64, b: u64) -> (r: u64)
    ensures
        r == wrap64(a + b),
{
    a.wrapping_add(b)
}

fn add32(a: u32, b: u32) -> (r: u32)
    ensures
        r == wrap32(a + b),
{
    a.wrapping_add(b)
}

proof fn lemma_wrap64_add(x: int, y: int)
    ensures
        wrap64(wrap64(x) + y) == wrap64(x + y),
        wrap64(x + wrap64(y)) == wrap64(x + y),
{
    vstd::arithmetic::div_mod::lemma_add_mod_noop_right(y, x, 0x1_0000_0000_0000_0000);
    vstd::arithmetic::div_mod::lemma_add_mod_noop_right(x, y, 0x1_0000_0000_0000_0000);
    vstd::arithmetic::div_mod::lemma_mod_bound(x, 0x1_0000_0000_0000_0000);
    vstd::arithmetic::div_mod::lemma_mod_bound(y, 0x1_0000_0000_0000_0000);
}

proof fn lemma_wrap32_add(x: int, y: int)
    ensures
        wrap32(x + wrap32(y)) == wrap32(x + y),
{
    vstd::arithmetic::div_mod::lemma_add_mod_noop_right(x, y, 0x1_0000_0000);
    vstd::arithmetic::div_mod::lemma_mod_bound(y, 0x1_0000_0000);
}

/// `start` plus the pixels that `rects` cover, wrapped.
fn add_area(start: u64, rects: &Vec<Bounds>) -> (r: u64)
    ensures
        r == wrap64(start + pixel_area(rects@)),
{
    let mut acc: u64 = start;
    let mut i: usize = 0;
    proof {
        assert(rects@.take(0) =~= Seq::<Bounds>::empty());
        vstd::arithmetic::div_mod::lemma_small_mod(start as nat, 0x1_0000_0000_0000_0000);
    }
    while i < rects.len()
        invariant
            i <= rects@.len(),
            acc == wrap64(start + pixel_area(rects@.take(i as int))),
        decreases rects@.len() - i,
    {
        let r = rects[i];
        let w = r.width() as u64;
        let h = r.height() as u64;
        assert(w * h <= 0xffff_ffff * 0xffff_ffff) by (nonlinear_arith)
            requires w <= 0xffff_ffff, h <= 0xffff_ffff;
        let a = w * h;
        proof {
            let t = rects@.take(i as int + 1);
            assert(t.drop_last() =~= rects@.take(i as int));
            assert(t.last() == r);
            lemma_wrap64_add(start + pixel_area(rects@.take(i as int)), a as int);
        }
        acc = add64(acc, a);
        i += 1;
    }
    proof {
        assert(rects@.take(i as int) =~= rects@);
    }
    acc
}

/// The pending draw call and the object being described, with the counts of
/// what has been drawn.
pub struct DrawBatch {
    drawcall_data: Vec<u8>,
    drawcall_quads: Vec<GpuQuadDescriptor>,
    drawcall_textures: Vec<Option<u32>>,
    object_data: Vec<u8>,
    object_rects: Vec<Bounds>,
    object_textures: Vec<u32>,
    counts: DrawCounts,
}

/// A texture can go to a slot if the slot is free or already holds it.
pub open spec fn slot_accepts(bound: Seq<Option<u32>>, slot: u32, tex: u32) -> bool {
    match (if slot < bound.len() { bound[slot as int] } else { None }) {
        Some(existing) => existing == tex,
        None => true,
    }
}

/// Every texture of the object can be bound to its slot in the pending draw
/// call; textures beyond the shader's slots, and slots beyond the textures, are ignored.
pub open spec fn textures_compatible(bound: Seq<Option<u32>>, textures: Seq<u32>, slots: Seq<u32>) -> bool {
    forall|k: int| 0 <= k < textures.len() && k < slots.len() ==> #[trigger] slot_accepts(bound, slots[k], textures[k])
}

/// The slots after binding the first `k` textures of an object to their slots.
pub open spec fn bind_textures(bound: Seq<Option<u32>>, textures: Seq<u32>, slots: Seq<u32>, k: nat) -> Seq<Option<u32>>
    decreases k,
{
    if k == 0 || k > textures.len() || k > slots.len() {
        bound
    } else {
        let b = bind_textures(bound, textures, slots, (k - 1) as nat);
        let slot = slots[k - 1];
        let grown = if b.len() <= slot { b + Seq::new((slot + 1 - b.len()) as nat, |_i: int| None::<u32>) } else { b };
        grown.update(slot as int, Some(textures[k - 1]))
    }
}

/// `n` rounded up to a multiple of 16.
pub open spec fn align16(n: nat) -> nat {
    if n % 16 == 0 { n } else { (n + (16 - n % 16)) as nat }
}

impl DrawBatch {
    /// The pending draw call's data, quads and texture slots.
    pub closed spec fn pending(&self) -> (Seq<u8>, Seq<GpuQuadDescriptor>, Seq<Option<u32>>) {
        (self.drawcall_data@, self.drawcall_quads@, self.drawcall_textures@)
    }

    /// The object being described: its data, rectangles and textures.
    pub closed spec fn object(&self) -> (Seq<u8>, Seq<Bounds>, Seq<u32>) {
        (self.object_data@, self.object_rects@, self.object_textures@)
    }

    /// What has been drawn since the counts were last taken.
    pub closed spec fn tally(&self) -> DrawCounts {
        self.counts
    }

    /// Nothing pending, nothing described and nothing counted.
    pub fn new() -> (b: Self)
        ensures
            b.pending() == (Seq::<u8>::empty(), Seq::<GpuQuadDescriptor>::empty(), Seq::<Option<u32>>::empty()),
            b.object() == (Seq::<u8>::empty(), Seq::<Bounds>::empty(), Seq::<u32>::empty()),
            b.tally() == no_counts(),
    {
        DrawBatch {
            drawcall_data: Vec::new(),
            drawcall_quads: Vec::new(),
            drawcall_textures: Vec::new(),
            object_data: Vec::new(),
            object_rects: Vec::new(),
            object_textures: Vec::new(),
            counts: DrawCounts { bytes: 0, quads: 0, objects: 0, pixels: 0, draw_calls: 0 },
        }
    }

    /// Hands out the counts of what has been drawn and starts counting anew.
    pub fn take_counts(&mut self) -> (c: DrawCounts)
        ensures
            c == old(self).tally(),
            final(self).tally() == no_counts(),
            final(self).pending() == old(self).pending(),
            final(self).object() == old(self).object(),
    {
        let c = self.counts;
        self.counts = DrawCounts { bytes: 0, quads: 0, objects: 0, pixels: 0, draw_calls: 0 };
        c
    }

    /// The sizes of the pending draw call and of the next object: data bytes
    /// and quads of the call, data bytes and rectangles of the object.
    pub fn sizes(&self) -> (r: (usize, usize, usize, usize))
        ensures
            r.0 == self.pending().0.len(),
            r.1 == self.pending().1.len(),
            r.2 == self.object().0.len(),
            r.3 == self.object().1.len(),
    {
        (self.drawcall_data.len(), self.drawcall_quads.len(), self.object_data.len(), self.object_rects.len())
    }

    /// Adds a texture to the object being described.
    pub fn push_object_texture(&mut self, texture: u32)
        ensures
            final(self).pending() == old(self).pending(),
            final(self).object() == (old(self).object().0, old(self).object().1, old(self).object().2.push(texture)),
            final(self).tally() == old(self).tally(),
    {
        self.object_textures.push(texture);
    }

    /// Adds a rectangle to the object being described.
    pub fn push_object_rect(&mut self, rect: Bounds)
        ensures
            final(self).pending() == old(self).pending(),
            final(self).object() == (old(self).object().0, old(self).object().1.push(rect), old(self).object().2),
            final(self).tally() == old(self).tally(),
    {
        self.object_rects.push(rect);
    }

    /// Appends data to the object being described.
    pub fn push_object_data(&mut self, data: &[u8])
        ensures
            final(self).pending() == old(self).pending(),
            final(self).object() == (old(self).object().0 + data@, old(self).object().1, old(self).object().2),
            final(self).tally() == old(self).tally(),
    {
        let mut i: usize = 0;
        let ghost start = self.object_data@;
        while i < data.len()
            invariant
                i <= data@.len(),
                self.object_data@ == start + data@.take(i as int),
                self.drawcall_data@ == old(self).drawcall_data@,
                self.drawcall_quads@ == old(self).drawcall_quads@,
                self.drawcall_textures@ == old(self).drawcall_textures@,
                self.object_rects@ == old(self).object_rects@,
                self.object_textures@ == old(self).object_textures@,
                self.counts == old(self).counts,
                start == old(self).object_data@,
            decreases data@.len() - i,
        {
            self.object_data.push(data[i]);
            assert(self.object_data@ =~= start + data@.take(i as int + 1));
            i += 1;
        }
        assert(data@.take(i as int) =~= data@);
    }

    /// Hands out the pending draw call, if it has quads, counts it, and starts
    /// a new one.
    pub fn flush(&mut self) -> (r: Option<DrawCall>)
        ensures
            final(self).object() == old(self).object(),
            final(self).tally() == if old(self).pending().1.len() == 0 {
                old(self).tally()
            } else {
                counts_after_call(old(self).tally(), old(self).pending())
            },
            old(self).pending().1.len() == 0 ==> r is None && final(self).pending() == old(self).pending(),
            old(self).pending().1.len() > 0 ==> (r matches Some(call) && (call.data@, call.quads@, call.textures@)
                == old(self).pending()),
            old(self).pending().1.len() > 0 ==> final(self).pending().0.len() == 0 && final(self).pending().1.len() == 0
                && final(self).pending().2.len() == 0,
    {
        if self.drawcall_quads.len() == 0 {
            return None;
        }
        let ghost c0 = self.counts;
        let q = self.drawcall_quads.len() as u64;
        let d = self.drawcall_data.len() as u64;
        let qb = q.wrapping_mul(16);
        proof {
            assert(qb == wrap64(q * 16));
            lemma_wrap64_add(c0.bytes as int, q * 16);
            lemma_wrap64_add(c0.bytes + q * 16, d as int);
            vstd::arithmetic::div_mod::lemma_add_mod_noop_right(c0.quads as int, q as int, 0x1_0000_0000);
            vstd::arithmetic::div_mod::lemma_mod_bound(q as int, 0x1_0000_0000);
        }
        let bytes = add64(add64(self.counts.bytes, qb), d);
        let quads = add32(self.counts.quads, (q % 0x1_0000_0000) as u32);
        let draw_calls = add32(self.counts.draw_calls, 1);
        self.counts = DrawCounts { bytes, quads, objects: self.counts.objects, pixels: self.counts.pixels, draw_calls };
        let mut data: Vec<u8> = Vec::new();
        let mut quads: Vec<GpuQuadDescriptor> = Vec::new();
        let mut textures: Vec<Option<u32>> = Vec::new();
        std::mem::swap(&mut data, &mut self.drawcall_data);
        std::mem::swap(&mut quads, &mut self.drawcall_quads);
        std::mem::swap(&mut textures, &mut self.drawcall_textures);
        Some(DrawCall { data, quads, textures })
    }
}

/// `d` padded with zero bytes to a multiple of 16.
pub open spec fn pad16(d: Seq<u8>) -> Seq<u8> {
    d + Seq::new((align16(d.len()) - d.len()) as nat, |_i: int| 0u8)
}

/// The descriptors of the rectangles of an object drawn by `shader` whose data
/// starts at byte `offset`.
pub open spec fn quads_for(rects: Seq<Bounds>, shader: u32, offset: nat) -> Seq<GpuQuadDescriptor> {
    rects.map_values(|r: Bounds| quad_of(r, shader, offset))
}

/// The object, padded, fits in the stream buffer together with the pending draw call.
pub open spec fn fits_with(pending: (Seq<u8>, Seq<GpuQuadDescriptor>, Seq<Option<u32>>), object: (Seq<u8>, Seq<Bounds>, Seq<u32>), bytes_left: u32) -> bool {
    (pending.0.len() + align16(object.0.len())) + (pending.1.len() + object.1.len()) * 16 <= bytes_left
}

/// The pending draw call must be drawn before the object joins: the object
/// does not fit, or one of its textures would replace another in a slot.
pub open spec fn must_flush(pending: (Seq<u8>, Seq<GpuQuadDescriptor>, Seq<Option<u32>>), object: (Seq<u8>, Seq<Bounds>, Seq<u32>), slots: Seq<u32>, bytes_left: u32) -> bool {
    !fits_with(pending, object, bytes_left) || !textures_compatible(pending.2, object.2, slots)
}

/// The smaller of two lengths.
pub open spec fn min_len(a: nat, b: nat) -> nat {
    if a <= b { a } else { b }
}

proof fn lemma_align16(n: nat)
    ensures
        align16(n) >= n,
        align16(n) < n + 16,
        align16(n) % 16 == 0,
{
}

impl DrawBatch {
    /// Closes the object being described, drawn with `shader`: its data is
    /// padded to 16 bytes and joins the pending draw call, each of its
    /// rectangles becomes a quad, and each texture is bound to the shader's slot
    /// in turn. When the object does not fit in the `bytes_left` of the stream
    /// buffer, or would replace a texture bound to a slot, the pending draw
    /// call is handed out first, if it has quads.
    pub fn push_object(&mut self, shader: &CompilerShader, bytes_left: u32) -> (r: Option<DrawCall>)
        requires
            old(self).pending().0.len() + old(self).object().0.len() + 16 <= u32::MAX,
            old(self).pending().1.len() + old(self).object().1.len() <= 0x0fff_ffff,
            forall|k: int| 0 <= k < shader.texture_slots@.len() ==> #[trigger] shader.texture_slots@[k] < u32::MAX,
        ensures
            ({
                let pending = old(self).pending();
                let object = old(self).object();
                let flush = must_flush(pending, object, shader.texture_slots@, bytes_left) && pending.1.len() > 0;
                let base = if flush {
                    (Seq::<u8>::empty(), Seq::<GpuQuadDescriptor>::empty(), Seq::<Option<u32>>::empty())
                } else {
                    pending
                };
                &&& r is Some <==> flush
                &&& r matches Some(call) ==> (call.data@, call.quads@, call.textures@) == pending
                &&& final(self).pending() == (
                    base.0 + pad16(object.0),
                    base.1 + quads_for(object.1, shader.index, base.0.len()),
                    bind_textures(base.2, object.2, shader.texture_slots@,
                        min_len(object.2.len(), shader.texture_slots@.len())),
                )
                &&& final(self).object() == (Seq::<u8>::empty(), Seq::<Bounds>::empty(), Seq::<u32>::empty())
                &&& final(self).tally() == counts_after_object(
                    if flush { counts_after_call(old(self).tally(), pending) } else { old(self).tally() },
                    object.1,
                )
            }),
    {
        let ghost object0 = self.object();
        let ghost pending0 = self.pending();
        let ghost c0 = self.counts;
        proof {
            lemma_align16(self.object_data@.len());
        }
        let len = self.object_data.len();
        let padded_len = if len % 16 == 0 { len } else { len + (16 - len % 16) };
        let fits = (self.drawcall_data.len() as u64 + padded_len as u64)
            + (self.drawcall_quads.len() as u64 + self.object_rects.len() as u64) * 16 <= bytes_left as u64;
        let n = if self.object_textures.len() <= shader.texture_slots.len() {
            self.object_textures.len()
        } else {
            shader.texture_slots.len()
        };
        let mut compatible = true;
        let mut k: usize = 0;
        while k < n
            invariant
                k <= n,
                n <= self.object_textures@.len(),
                n <= shader.texture_slots@.len(),
                n == min_len(self.object_textures@.len(), shader.texture_slots@.len()),
                compatible == (forall|j: int| 0 <= j < k ==> #[trigger] slot_accepts(self.drawcall_textures@,
                    shader.texture_slots@[j], self.object_textures@[j])),
            decreases n - k,
        {
            let slot = shader.texture_slots[k];
            let tex = self.object_textures[k];
            let ok = if (slot as usize) < self.drawcall_textures.len() {
                match self.drawcall_textures[slot as usize] {
                    Some(existing) => existing == tex,
                    None => true,
                }
            } else {
                true
            };
            assert(ok == slot_accepts(self.drawcall_textures@, slot, tex));
            if !ok {
                compatible = false;
            }
            k += 1;
        }
        proof {
            assert(compatible == textures_compatible(self.drawcall_textures@, self.object_textures@, shader.texture_slots@));
        }
        let flushed = if !fits || !compatible { self.flush() } else { None };
        let ghost base = self.pending();
        let ghost c1 = self.counts;
        let mut p: usize = len;
        while p < padded_len
            invariant
                self.counts == c1,
                len <= p <= padded_len,
                padded_len == align16(len as nat),
                self.object_data@ == object0.0 + Seq::new((p - len) as nat, |_i: int| 0u8),
                self.pending() == base,
                self.object_rects@ == object0.1,
                self.object_textures@ == object0.2,
            decreases padded_len - p,
        {
            self.object_data.push(0);
            assert(self.object_data@ =~= object0.0 + Seq::new((p + 1 - len) as nat, |_i: int| 0u8));
            p += 1;
        }
        let offset = self.drawcall_data.len();
        let mut i: usize = 0;
        while i < self.object_data.len()
            invariant
                self.counts == c1,
                i <= self.object_data@.len(),
                self.object_data@ == pad16(object0.0),
                self.drawcall_data@ == base.0 + self.object_data@.take(i as int),
                self.drawcall_quads@ == base.1,
                self.drawcall_textures@ == base.2,
                self.object_rects@ == object0.1,
                self.object_textures@ == object0.2,
            decreases self.object_data@.len() - i,
        {
            let byte = self.object_data[i];
            self.drawcall_data.push(byte);
            assert(self.drawcall_data@ =~= base.0 + self.object_data@.take(i as int + 1));
            i += 1;
        }
        proof {
            assert(self.object_data@.take(i as int) =~= self.object_data@);
        }
        let mut i: usize = 0;
        while i < self.object_rects.len()
            invariant
                self.counts == c1,
                i <= self.object_rects@.len(),
                self.object_rects@ == object0.1,
                offset == base.0.len(),
                offset <= u32::MAX,
                self.drawcall_quads@ == base.1 + quads_for(object0.1, shader.index, offset as nat).take(i as int),
                self.drawcall_data@ == base.0 + pad16(object0.0),
                self.drawcall_textures@ == base.2,
                self.object_textures@ == object0.2,
            decreases self.object_rects@.len() - i,
        {
            let rect = self.object_rects[i];
            let quad = GpuQuadDescriptor {
                left: clamp_u16_exec(rect.left),
                top: clamp_u16_exec(rect.top),
                right: clamp_u16_exec(rect.right),
                bottom: clamp_u16_exec(rect.bottom),
                shader: shader.index,
                offset: (offset as u32) / 16,
            };
            self.drawcall_quads.push(quad);
            assert(self.drawcall_quads@ =~= base.1 + quads_for(object0.1, shader.index, offset as nat).take(i as int + 1));
            i += 1;
        }
        proof {
            assert(quads_for(object0.1, shader.index, offset as nat).take(i as int) =~= quads_for(object0.1, shader.index, offset as nat));
        }
        let mut k: usize = 0;
        while k < n
            invariant
                self.counts == c1,
                k <= n,
                n == min_len(object0.2.len(), shader.texture_slots@.len()),
                forall|j: int| 0 <= j < shader.texture_slots@.len() ==> #[trigger] shader.texture_slots@[j] < u32::MAX,
                self.object_rects@ == object0.1,
                self.object_textures@ == object0.2,
                self.drawcall_textures@ == bind_textures(base.2, object0.2, shader.texture_slots@, k as nat),
                self.drawcall_data@ == base.0 + pad16(object0.0),
                self.drawcall_quads@ == base.1 + quads_for(object0.1, shader.index, base.0.len()),
            decreases n - k,
        {
            let slot = shader.texture_slots[k];
            let tex = self.object_textures[k];
            let ghost before = self.drawcall_textures@;
            if self.drawcall_textures.len() <= slot as usize {
                let target = slot as usize + 1;
                while self.drawcall_textures.len() < target
                    invariant
                        self.counts == c1,
                self.counts == c1,
                        before.len() <= self.drawcall_textures@.len() <= target,
                        target == slot + 1,
                        self.object_rects@ == object0.1,
                        self.drawcall_textures@ == before + Seq::new((self.drawcall_textures@.len() - before.len()) as nat,
                            |_i: int| None::<u32>),
                        self.object_textures@ == object0.2,
                        self.drawcall_data@ == base.0 + pad16(object0.0),
                        self.drawcall_quads@ == base.1 + quads_for(object0.1, shader.index, base.0.len()),
                    decreases target - self.drawcall_textures@.len(),
                {
                    let ghost prev = self.drawcall_textures@;
                    self.drawcall_textures.push(None);
                    assert(self.drawcall_textures@ =~= before + Seq::new((self.drawcall_textures@.len() - before.len()) as nat,
                        |_i: int| None::<u32>));
                }
            }
            self.drawcall_textures.set(slot as usize, Some(tex));
            proof {
                assert(self.drawcall_textures@ =~= bind_textures(base.2, object0.2, shader.texture_slots@, (k + 1) as nat));
            }
            k += 1;
        }
        let pixels = add_area(self.counts.pixels, &self.object_rects);
        let objects = add32(self.counts.objects, 1);
        self.counts = DrawCounts {
            bytes: self.counts.bytes,
            quads: self.counts.quads,
            objects,
            pixels,
            draw_calls: self.counts.draw_calls,
        };
        self.object_data.clear();
        self.object_rects.clear();
        self.object_textures.clear();
        proof {
            assert(fits == fits_with(pending0, object0, bytes_left));
            let flush = must_flush(pending0, object0, shader.texture_slots@, bytes_left) && pending0.1.len() > 0;
            assert(flushed is Some <==> flush);
            assert(c1 == if flush { counts_after_call(c0, pending0) } else { c0 });
            assert(base == (if flush {
                (Seq::<u8>::empty(), Seq::<GpuQuadDescriptor>::empty(), Seq::<Option<u32>>::empty())
            } else {
                pending0
            }));
            assert(self.object() =~= (Seq::<u8>::empty(), Seq::<Bounds>::empty(), Seq::<u32>::empty()));
        }
        flushed
    }
}

/// The scissor rectangle `(x, y, width, height)` that clearing `bounds`
/// covers on a target `target_height` pixels high. The screen counts rows
/// from its bottom edge, a texture from its top edge.
pub fn clear_region(bounds: Bounds, screen: bool, target_height: u32) -> (r: (u32, u32, u32, u32))
    requires
        screen ==> i32::MIN <= (target_height as i32) - (bounds.bottom as i32) <= i32::MAX,
    ensures
        r.0 == bounds.left,
        r.1 == if screen { ((target_height as i32) - (bounds.bottom as i32)) as u32 } else { bounds.top },
        r.2 == crate::texture::sat_sub(bounds.right, bounds.left),
        r.3 == crate::texture::sat_sub(bounds.bottom, bounds.top),
{
    let y = if screen {
        let h = target_height as i32;
        let b = bounds.bottom as i32;
        (h - b) as u32
    } else {
        bounds.top
    };
    (bounds.left, y, bounds.width(), bounds.height())
}

/// Padding an object's data keeps the pending data a whole number of 16-byte
/// units, so each quad's data offset, counted in such units, is exact.
pub proof fn lemma_pending_data_aligned(pending: Seq<u8>, object: Seq<u8>)
    requires
        pending.len() % 16 == 0,
    ensures
        (pending + pad16(object)).len() % 16 == 0,
        pad16(object).len() >= object.len(),
        pad16(object).len() < object.len() + 16,
        (pending.len() / 16) * 16 == pending.len(),
{
    lemma_align16(object.len());
}

proof fn lemma_bind_keeps_upto(bound: Seq<Option<u32>>, textures: Seq<u32>, slots: Seq<u32>, k: nat, s: int, t: u32)
    requires
        textures_compatible(bound, textures, slots),
        0 <= s < bound.len(),
        bound[s] == Some(t),
        k <= textures.len(),
        k <= slots.len(),
    ensures
        s < bind_textures(bound, textures, slots, k).len(),
        bind_textures(bound, textures, slots, k)[s] == Some(t),
    decreases k,
{
    if k > 0 {
        lemma_bind_keeps_upto(bound, textures, slots, (k - 1) as nat, s, t);
        let j = k - 1;
        assert(slot_accepts(bound, slots[j], textures[j]));
    }
}

/// An object joins a draw call only with textures that agree with those the
/// call has bound already, so binding them never replaces a bound texture.
pub proof fn lemma_bind_keeps_bound(bound: Seq<Option<u32>>, textures: Seq<u32>, slots: Seq<u32>, s: int)
    requires
        textures_compatible(bound, textures, slots),
        0 <= s < bound.len(),
        bound[s] is Some,
    ensures
        ({
            let after = bind_textures(bound, textures, slots, min_len(textures.len(), slots.len()));
            s < after.len() && after[s] == bound[s]
        }),
{
    lemma_bind_keeps_upto(bound, textures, slots, min_len(textures.len(), slots.len()), s, bound[s]->0);
}

proof fn lemma_bind_sets_upto(bound: Seq<Option<u32>>, textures: Seq<u32>, slots: Seq<u32>, k: nat, j: int)
    requires
        k <= textures.len(),
        k <= slots.len(),
        0 <= j < k,
        forall|a: int, b: int| 0 <= a < b < k ==> #[trigger] slots[a] != #[trigger] slots[b],
    ensures
        slots[j] < bind_textures(bound, textures, slots, k).len(),
        bind_textures(bound, textures, slots, k)[slots[j] as int] == Some(textures[j]),
    decreases k,
{
    if j < k - 1 {
        lemma_bind_sets_upto(bound, textures, slots, (k - 1) as nat, j);
        assert(slots[j] != slots[k - 1]);
    }
}

/// Each texture an object asks for is bound at the slot the shader reads it
/// from, when the shader's slots are distinct.
pub proof fn lemma_bind_sets_slots(bound: Seq<Option<u32>>, textures: Seq<u32>, slots: Seq<u32>, j: int)
    requires
        0 <= j < min_len(textures.len(), slots.len()),
        forall|a: int, b: int| 0 <= a < b < slots.len() ==> #[trigger] slots[a] != #[trigger] slots[b],
    ensures
        ({
            let after = bind_textures(bound, textures, slots, min_len(textures.len(), slots.len()));
            slots[j] < after.len() && after[slots[j] as int] == Some(textures[j])
        }),
{
    lemma_bind_sets_upto(bound, textures, slots, min_len(textures.len(), slots.len()), j);
}

} // verus!
