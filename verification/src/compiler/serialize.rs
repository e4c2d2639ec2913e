//! The layout of an object's data for a shader: where each value the shader
//! reads lives in the object's data, and which texture unit each texture it
//! reads is bound to.

use vstd::prelude::*;
use crate::graph::{Graph, graph_wf};
use crate::graph::op::{OpInput, OpValue};

verus! {

/// Where the values a shader reads live in an object's data.
#[derive(Debug)]
pub struct ShaderDataLayout {
    /// The byte offset and kind of each value, in the order the shader reads them.
    pub inputs: Vec<(u32, OpInput)>,
    /// The texture unit of each texture the shader reads, in order.
    pub textures: Vec<u32>,
    /// The size of the data in bytes, a multiple of 16.
    pub size: u32,
    /// The index the shader is dispatched by.
    pub branch_id: u32,
}

/// Every byte of `[offset, offset + size)` is free in `bitmap` (bytes past its end are free).
pub open spec fn region_free(bitmap: Seq<bool>, offset: nat, size: nat) -> bool {
    forall|i: int| offset <= i < offset + size && i < bitmap.len() ==> !#[trigger] bitmap[i]
}

/// The first offset at or after `off`, stepping by `align`, where `size` bytes are free.
pub open spec fn first_fit(bitmap: Seq<bool>, size: nat, align: nat, off: nat) -> nat
    decreases (if off >= bitmap.len() { 0 } else { bitmap.len() - off }),
{
    if align == 0 || off >= bitmap.len() || region_free(bitmap, off, size) {
        off
    } else {
        first_fit(bitmap, size, align, off + align)
    }
}

/// `bitmap`, grown to cover `[offset, offset + size)` if needed, with those bytes taken.
pub open spec fn mark_region(bitmap: Seq<bool>, offset: nat, size: nat) -> Seq<bool> {
    let n = if bitmap.len() >= offset + size { bitmap.len() } else { offset + size };
    Seq::new(n, |i: int| (offset <= i < offset + size) || (i < bitmap.len() && bitmap[i]))
}

proof fn lemma_first_fit_bound(bitmap: Seq<bool>, size: nat, align: nat, off: nat)
    requires
        align > 0,
    ensures
        off <= first_fit(bitmap, size, align, off),
        first_fit(bitmap, size, align, off) <= if off >= bitmap.len() { off } else { bitmap.len() + align },
        region_free(bitmap, first_fit(bitmap, size, align, off), size),
    decreases (if off >= bitmap.len() { 0 } else { bitmap.len() - off }),
{
    if !(off >= bitmap.len() || region_free(bitmap, off, size)) {
        lemma_first_fit_bound(bitmap, size, align, off + align);
    }
}

/// Takes the first `size` free bytes at a multiple of `align` and returns their offset.
pub fn take_offset(bitmap: &mut Vec<bool>, size: u32, align: u32) -> (offset: u32)
    requires
        align > 0,
        old(bitmap)@.len() + size + align <= u32::MAX,
    ensures
        size == 0 ==> offset == 0 && final(bitmap)@ == old(bitmap)@,
        size > 0 ==> offset == first_fit(old(bitmap)@, size as nat, align as nat, 0),
        size > 0 ==> final(bitmap)@ == mark_region(old(bitmap)@, offset as nat, size as nat),
{
    if size == 0 {
        return 0;
    }
    proof {
        lemma_first_fit_bound(bitmap@, size as nat, align as nat, 0);
    }
    let n = bitmap.len();
    let mut offset: u32 = 0;
    loop
        invariant
            bitmap@ == old(bitmap)@,
            n == bitmap@.len(),
            n + size + align <= u32::MAX,
            align > 0,
            offset as nat <= n + align,
            first_fit(bitmap@, size as nat, align as nat, offset as nat) == first_fit(bitmap@, size as nat, align as nat, 0),
        ensures
            bitmap@ == old(bitmap)@,
            n == bitmap@.len(),
            offset as nat <= n + align,
            offset as nat == first_fit(bitmap@, size as nat, align as nat, 0),
        decreases n + align - offset,
    {
        let mut free = true;
        let mut i: u32 = offset;
        while i < offset + size
            invariant
                offset <= i <= offset + size,
                offset + size <= u32::MAX,
                bitmap@ == old(bitmap)@,
                n == bitmap@.len(),
                free == (forall|j: int| offset <= j < i && j < n ==> !#[trigger] bitmap@[j]),
            decreases offset + size - i,
        {
            if (i as usize) < n && bitmap[i as usize] {
                free = false;
            }
            i += 1;
        }
        if free || offset as usize >= n {
            proof {
                assert(free == region_free(bitmap@, offset as nat, size as nat));
            }
            break;
        }
        proof {
            assert(!region_free(bitmap@, offset as nat, size as nat));
        }
        offset = offset + align;
    }
    let end = offset + size;
    while bitmap.len() < end as usize
        invariant
            n <= bitmap@.len() <= if n >= end { n as nat } else { end as nat },
            forall|j: int| 0 <= j < n ==> #[trigger] bitmap@[j] == old(bitmap)@[j],
            forall|j: int| n <= j < bitmap@.len() ==> !#[trigger] bitmap@[j],
        decreases end - bitmap@.len(),
    {
        bitmap.push(false);
    }
    let mut i: u32 = offset;
    while i < end
        invariant
            offset <= i <= end,
            end == offset + size,
            bitmap@.len() == if n >= end { n as nat } else { end as nat },
            forall|j: int| 0 <= j < bitmap@.len() ==> #[trigger] bitmap@[j] == ((offset <= j < i)
                || (j < n && old(bitmap)@[j])),
        decreases end - i,
    {
        bitmap.set(i as usize, true);
        i += 1;
    }
    assert(bitmap@ =~= mark_region(old(bitmap)@, offset as nat, size as nat));
    offset
}

/// The size and alignment in bytes of a value read from the object's data;
/// textures take no bytes.
pub open spec fn input_extent(i: OpInput) -> Option<(u32, u32)> {
    match i {
        OpInput::F32 | OpInput::I32 | OpInput::U32 => Some((4u32, 4u32)),
        OpInput::I16 | OpInput::U16 => Some((2u32, 2u32)),
        OpInput::I8 | OpInput::U8 => Some((1u32, 1u32)),
        OpInput::TextureRender | OpInput::TextureStatic => None,
    }
}

/// The byte map, the values with their offsets, and the texture units after
/// laying out the inputs among the first `k` operations of a graph.
pub open spec fn layout_upto(values: Seq<OpValue>, textures_start: u32, textures_limit: u32, k: nat)
    -> (Seq<bool>, Seq<(u32, OpInput)>, Seq<u32>)
    decreases k,
{
    if k == 0 {
        (Seq::empty(), Seq::empty(), Seq::empty())
    } else {
        let (bitmap, fields, textures) = layout_upto(values, textures_start, textures_limit, (k - 1) as nat);
        match values[k - 1] {
            OpValue::Input(input) => match input_extent(input) {
                Some((size, align)) => {
                    let offset = first_fit(bitmap, size as nat, align as nat, 0);
                    (mark_region(bitmap, offset, size as nat), fields.push((offset as u32, input)), textures)
                },
                None => (bitmap, fields, textures.push(((textures_start + textures.len()) % (textures_limit as int)) as u32)),
            },
            _ => (bitmap, fields, textures),
        }
    }
}

/// `n` rounded up to a multiple of 16.
pub open spec fn round16(n: nat) -> nat {
    if n % 16 == 0 { n } else { (n + (16 - n % 16)) as nat }
}

/// How many texture inputs the first `k` values hold.
pub open spec fn texture_inputs(values: Seq<OpValue>, k: nat) -> nat
    decreases k,
{
    if k == 0 {
        0
    } else {
        texture_inputs(values, (k - 1) as nat) + match values[k - 1] {
            OpValue::Input(input) => if input_extent(input) is None { 1nat } else { 0nat },
            _ => 0nat,
        }
    }
}

proof fn lemma_layout_bounds(values: Seq<OpValue>, start: u32, limit: u32, k: nat)
    requires
        k <= values.len(),
    ensures
        layout_upto(values, start, limit, k).0.len() <= 8 * k,
        layout_upto(values, start, limit, k).2.len() == texture_inputs(values, k),
    decreases k,
{
    if k > 0 {
        lemma_layout_bounds(values, start, limit, (k - 1) as nat);
        let (bitmap, fields, textures) = layout_upto(values, start, limit, (k - 1) as nat);
        match values[k - 1] {
            OpValue::Input(input) => match input_extent(input) {
                Some((size, align)) => {
                    lemma_first_fit_bound(bitmap, size as nat, align as nat, 0);
                },
                None => {},
            },
            _ => {},
        }
    }
}

impl ShaderDataLayout {
    /// Lays out the values a graph reads from the object's data, each at the
    /// first offset, at a multiple of its size, where it fits among those
    /// before it; and gives its textures the units after `textures_start` in
    /// turn, wrapping around `textures_limit`.
    ///
    /// A graph with textures and no texture units, one whose texture units
    /// overflow 32 bits, or one too large for 32-bit offsets panics; such
    /// graphs are left out here. Each value takes at most 8 bytes of the
    /// layout, alignment included, so offsets fit when there are fewer than
    /// `0x1FFF_FFFE` values.
    pub fn new(graph: &Graph, uid: u32, textures_start: u32, textures_limit: u32) -> (r: Self)
        requires
            graph_wf(graph.entries(), graph.readers()),
            graph.entries().len() < 0x1FFF_FFFE,
            texture_inputs(graph.entries().map_values(|e: (OpValue, crate::graph::op::OpType)| e.0), graph.entries().len()) > 0
                ==> textures_limit > 0,
            textures_start + texture_inputs(graph.entries().map_values(|e: (OpValue, crate::graph::op::OpType)| e.0),
                graph.entries().len()) <= u32::MAX,
        ensures
            ({
                let values = graph.entries().map_values(|e: (OpValue, crate::graph::op::OpType)| e.0);
                let (bitmap, fields, textures) = layout_upto(values, textures_start, textures_limit, values.len());
                &&& r.inputs@ == fields
                &&& r.textures@ == textures
                &&& r.size == round16(bitmap.len())
                &&& r.branch_id == uid
            }),
    {
        let ghost values = graph.entries().map_values(|e: (OpValue, crate::graph::op::OpType)| e.0);
        let addrs = graph.iter();
        let mut bitmap: Vec<bool> = Vec::new();
        let mut fields: Vec<(u32, OpInput)> = Vec::new();
        let mut textures: Vec<u32> = Vec::new();
        let mut k: usize = 0;
        while k < addrs.len()
            invariant
                k <= addrs@.len(),
                addrs@.len() == values.len(),
                values.len() < 0x1FFF_FFFE,
                values == graph.entries().map_values(|e: (OpValue, crate::graph::op::OpType)| e.0),
                forall|i: int| 0 <= i < addrs@.len() ==> #[trigger] addrs@[i] == crate::graph::op::OpAddr(i as u32),
                (bitmap@, fields@, textures@) == layout_upto(values, textures_start, textures_limit, k as nat),
                texture_inputs(values, values.len()) > 0 ==> textures_limit > 0,
                textures_start + texture_inputs(values, values.len()) <= u32::MAX,
            decreases addrs@.len() - k,
        {
            proof {
                lemma_layout_bounds(values, textures_start, textures_limit, k as nat);
                lemma_texture_inputs_mono(values, (k + 1) as nat, values.len());
            }
            let v = graph.value_of(addrs[k]);
            match v {
                OpValue::Input(input) => {
                    let extent: Option<(u32, u32)> = match input {
                        OpInput::F32 | OpInput::I32 | OpInput::U32 => Some((4, 4)),
                        OpInput::I16 | OpInput::U16 => Some((2, 2)),
                        OpInput::I8 | OpInput::U8 => Some((1, 1)),
                        OpInput::TextureRender | OpInput::TextureStatic => None,
                    };
                    match extent {
                        Some((size, align)) => {
                            let offset = take_offset(&mut bitmap, size, align);
                            fields.push((offset, input));
                        },
                        None => {
                            let unit = (textures_start + textures.len() as u32) % textures_limit;
                            textures.push(unit);
                        },
                    }
                },
                _ => {},
            }
            k += 1;
        }
        proof {
            lemma_layout_bounds(values, textures_start, textures_limit, k as nat);
        }
        let len = bitmap.len() as u32;
        let size = if len % 16 == 0 { len } else { len + (16 - len % 16) };
        ShaderDataLayout { inputs: fields, textures, size, branch_id: uid }
    }
}

proof fn lemma_texture_inputs_mono(values: Seq<OpValue>, k: nat, n: nat)
    requires
        k <= n <= values.len(),
    ensures
        texture_inputs(values, k) <= texture_inputs(values, n),
    decreases n,
{
    if k < n {
        lemma_texture_inputs_mono(values, k, (n - 1) as nat);
    }
}

/// The `width` low bytes of `x`, least significant first.
pub open spec fn le_bytes(x: nat, width: nat) -> Seq<u8>
    decreases width,
{
    if width == 0 {
        Seq::empty()
    } else {
        seq![(x % 256) as u8] + le_bytes(x / 256, (width - 1) as nat)
    }
}

/// The `width` low bytes of `x` in the given byte order.
pub open spec fn ordered_bytes(x: nat, width: nat, big_endian: bool) -> Seq<u8> {
    if big_endian { le_bytes(x, width).reverse() } else { le_bytes(x, width) }
}

/// The bytes `encode` writes for `value` read as `input`, in the given byte order.
pub open spec fn value_bytes(input: OpInput, value: u32, big_endian: bool) -> Seq<u8> {
    match input {
        OpInput::F32 | OpInput::I32 | OpInput::U32 => ordered_bytes(value as nat, 4, big_endian),
        OpInput::I16 | OpInput::U16 => ordered_bytes((value as u16) as nat, 2, big_endian),
        _ => seq![value as u8],
    }
}

/// `d` with `bytes` written from `offset` on.
pub open spec fn put_bytes(d: Seq<u8>, offset: int, bytes: Seq<u8>) -> Seq<u8> {
    Seq::new(d.len(), |i: int| if offset <= i < offset + bytes.len() { bytes[i - offset] } else { d[i] })
}

/// How many values of a stream of `n` are written before `encode` stops:
/// it stops at the end of the stream or of the layout, or at a texture.
pub open spec fn values_written(inputs: Seq<(u32, OpInput)>, n: nat, i: nat) -> nat
    decreases n - i,
{
    if i >= n || i >= inputs.len() || input_extent(inputs[i as int].1) is None {
        i
    } else {
        values_written(inputs, n, i + 1)
    }
}

/// `d` after writing the first `k` values of `stream` where `inputs` places
/// them, the `i`th in the byte order `orders[i]`.
pub open spec fn encoded(d: Seq<u8>, inputs: Seq<(u32, OpInput)>, stream: Seq<u32>, orders: Seq<bool>, k: nat) -> Seq<u8>
    decreases k,
{
    if k == 0 {
        d
    } else {
        let prev = encoded(d, inputs, stream, orders, (k - 1) as nat);
        put_bytes(prev, inputs[k - 1].0 as int, value_bytes(inputs[k - 1].1, stream[k - 1], orders[k - 1]))
    }
}

/// The bytes of `x` in the machine's byte order, by `u32::to_ne_bytes`.
/// std documents the result as the value's memory representation in native
/// byte order; the contract states that this is little- or big-endian, and
/// leaves open which.
#[verifier::external_body]
pub(crate) fn u32_native_bytes(x: u32) -> (b: [u8; 4])
    ensures
        b@ == le_bytes(x as nat, 4) || b@ == le_bytes(x as nat, 4).reverse(),
{
    x.to_ne_bytes()
}

/// The bytes of `x` in the machine's byte order, by `u16::to_ne_bytes`; as
/// for `u32_native_bytes`, little- or big-endian.
#[verifier::external_body]
pub(crate) fn u16_native_bytes(x: u16) -> (b: [u8; 2])
    ensures
        b@ == le_bytes(x as nat, 2) || b@ == le_bytes(x as nat, 2).reverse(),
{
    x.to_ne_bytes()
}

/// The number of bytes a value read as `input` takes in the object's data.
pub open spec fn input_size(input: OpInput) -> nat {
    match input_extent(input) {
        Some((size, _)) => size as nat,
        None => 0,
    }
}

pub(crate) proof fn lemma_le_bytes_len(x: nat, width: nat)
    ensures
        le_bytes(x, width).len() == width,
    decreases width,
{
    if width > 0 {
        lemma_le_bytes_len(x / 256, (width - 1) as nat);
    }
}

proof fn lemma_values_written_bound(inputs: Seq<(u32, OpInput)>, n: nat, i: nat)
    ensures
        i <= values_written(inputs, n, i),
    decreases n - i,
{
    if !(i >= n || i >= inputs.len() || input_extent(inputs[i as int].1) is None) {
        lemma_values_written_bound(inputs, n, i + 1);
    }
}

/// Whether the machine stores integers most significant byte first: the
/// order in which `u32::to_ne_bytes` gives the bytes of 1.
pub(crate) fn native_big_endian() -> (big: bool) {
    let b = u32_native_bytes(1);
    b[0] != 1
}

/// The four bytes of `x` in the given byte order.
pub(crate) fn ordered_u32(x: u32, big: bool) -> (b: [u8; 4])
    ensures
        b@ == ordered_bytes(x as nat, 4, big),
{
    let x1 = x / 256;
    let x2 = x1 / 256;
    let x3 = x2 / 256;
    let b0 = (x % 256) as u8;
    let b1 = (x1 % 256) as u8;
    let b2 = (x2 % 256) as u8;
    let b3 = (x3 % 256) as u8;
    proof {
        reveal_with_fuel(le_bytes, 5);
        assert(le_bytes(x as nat, 4) =~= seq![b0, b1, b2, b3]);
    }
    let r: [u8; 4] = if big { [b3, b2, b1, b0] } else { [b0, b1, b2, b3] };
    proof {
        if big {
            assert(r@ =~= seq![b0, b1, b2, b3].reverse());
        } else {
            assert(r@ =~= seq![b0, b1, b2, b3]);
        }
    }
    r
}

/// The two bytes of `x` in the given byte order.
pub(crate) fn ordered_u16(x: u16, big: bool) -> (b: [u8; 2])
    ensures
        b@ == ordered_bytes(x as nat, 2, big),
{
    let x1 = x / 256;
    let b0 = (x % 256) as u8;
    let b1 = (x1 % 256) as u8;
    proof {
        reveal_with_fuel(le_bytes, 3);
        assert(le_bytes(x as nat, 2) =~= seq![b0, b1]);
    }
    let r: [u8; 2] = if big { [b1, b0] } else { [b0, b1] };
    proof {
        if big {
            assert(r@ =~= seq![b0, b1].reverse());
        } else {
            assert(r@ =~= seq![b0, b1]);
        }
    }
    r
}

/// Copies `bytes` into `dst` from `offset` on.
fn copy_bytes(dst: &mut [u8], offset: usize, bytes: &[u8])
    requires
        offset + bytes@.len() <= old(dst)@.len(),
    ensures
        final(dst)@ == put_bytes(old(dst)@, offset as int, bytes@),
{
    let n = dst.len();
    let mut j: usize = 0;
    while j < bytes.len()
        invariant
            j <= bytes@.len(),
            n == dst@.len(),
            offset + bytes@.len() <= n,
            dst@.len() == old(dst)@.len(),
            dst@ == put_bytes(old(dst)@, offset as int, bytes@.take(j as int)),
        decreases bytes@.len() - j,
    {
        dst[offset + j] = bytes[j];
        j += 1;
        assert(dst@ =~= put_bytes(old(dst)@, offset as int, bytes@.take(j as int)));
    }
    assert(bytes@.take(j as int) =~= bytes@);
}

/// The byte order `big_endian` for each of `k` values.
pub open spec fn one_order(k: nat, big_endian: bool) -> Seq<bool> {
    Seq::new(k, |_i: int| big_endian)
}

/// Writes a stream of values into an object's data where `layout` places
/// them, all in one byte order, the machine's (16- and 8-bit values keep
/// their low bytes). Fails if the stream is longer or shorter than the layout, or
/// reaches a texture; what came before is written either way.
pub fn encode(dst: &mut [u8], layout: &ShaderDataLayout, stream: &[u32]) -> (r: Result<(), ()>)
    requires
        forall|i: int| 0 <= i < values_written(layout.inputs@, stream@.len(), 0) ==>
            layout.inputs@[i].0 + input_size(#[trigger] layout.inputs@[i].1) <= old(dst)@.len(),
    ensures
        r is Ok <==> (stream@.len() == layout.inputs@.len()
            && forall|i: int| 0 <= i < layout.inputs@.len() ==> input_extent(#[trigger] layout.inputs@[i].1) is Some),
        exists|big_endian: bool| #[trigger] encoded(old(dst)@, layout.inputs@, stream@,
            one_order(values_written(layout.inputs@, stream@.len(), 0), big_endian),
            values_written(layout.inputs@, stream@.len(), 0)) == final(dst)@,
{
    let big = native_big_endian();
    let ghost inputs = layout.inputs@;
    let ghost n = stream@.len();
    let ghost mut orders: Seq<bool> = Seq::empty();
    let mut pointer: usize = 0;
    while pointer < stream.len()
        invariant
            pointer <= stream@.len(),
            pointer <= inputs.len(),
            inputs == layout.inputs@,
            n == stream@.len(),
            orders.len() == pointer,
            forall|i: int| 0 <= i < pointer ==> #[trigger] orders[i] == big,
            dst@.len() == old(dst)@.len(),
            dst@ == encoded(old(dst)@, inputs, stream@, orders, pointer as nat),
            values_written(inputs, n, 0) == values_written(inputs, n, pointer as nat),
            forall|i: int| 0 <= i < pointer ==> input_extent(#[trigger] inputs[i].1) is Some,
            forall|i: int| 0 <= i < values_written(inputs, n, 0) ==>
                inputs[i].0 + input_size(#[trigger] inputs[i].1) <= dst@.len(),
        decreases stream@.len() - pointer,
    {
        if pointer >= layout.inputs.len() {
            proof {
                assert(encoded(old(dst)@, inputs, stream@, orders, values_written(inputs, n, 0)) == dst@);
                    assert(orders =~= one_order(values_written(inputs, n, 0), big));
            }
            return Err(());
        }
        let (offset, input) = layout.inputs[pointer];
        let value = stream[pointer];
        let ghost order: bool;
        let ghost written: Seq<u8>;
        let ghost prev_dst = dst@;
        proof {
            if input_extent(input) is Some {
                lemma_values_written_bound(inputs, n, (pointer + 1) as nat);
                assert(values_written(inputs, n, pointer as nat) == values_written(inputs, n, (pointer + 1) as nat));
            }
        }
        match input {
            OpInput::I32 | OpInput::F32 | OpInput::U32 => {
                let b = ordered_u32(value, big);
                proof {
                    lemma_le_bytes_len(value as nat, 4);
                    order = big;
                    written = b@;
                }
                copy_bytes(dst, offset as usize, &b);
            },
            OpInput::I16 | OpInput::U16 => {
                let b = ordered_u16(value as u16, big);
                proof {
                    lemma_le_bytes_len((value as u16) as nat, 2);
                    order = big;
                    written = b@;
                }
                copy_bytes(dst, offset as usize, &b);
            },
            OpInput::I8 | OpInput::U8 => {
                let b: [u8; 1] = [value as u8];
                proof {
                    order = big;
                    assert(b@ =~= seq![value as u8]);
                    written = b@;
                }
                copy_bytes(dst, offset as usize, &b);
            },
            OpInput::TextureRender | OpInput::TextureStatic => {
                proof {
                    assert(input_extent(inputs[pointer as int].1) is None);
                    assert(encoded(old(dst)@, inputs, stream@, orders, values_written(inputs, n, 0)) == dst@);
                    assert(orders =~= one_order(values_written(inputs, n, 0), big));
                }
                return Err(());
            },
        }
        proof {
            assert(dst@ == put_bytes(prev_dst, offset as int, written));
            assert(written == value_bytes(input, value, order));
            let ghost prev_orders = orders;
            orders = orders.push(order);
            lemma_encoded_prefix(old(dst)@, inputs, stream@, orders, pointer as nat);
            assert(orders.take(pointer as int) =~= prev_orders);
        }
        pointer += 1;
    }
    proof {
        assert(encoded(old(dst)@, inputs, stream@, orders, values_written(inputs, n, 0)) == dst@);
                    assert(orders =~= one_order(values_written(inputs, n, 0), big));
    }
    if pointer != layout.inputs.len() {
        return Err(());
    }
    Ok(())
}

proof fn lemma_encoded_prefix(d: Seq<u8>, inputs: Seq<(u32, OpInput)>, stream: Seq<u32>, orders: Seq<bool>, k: nat)
    requires
        k < orders.len(),
    ensures
        encoded(d, inputs, stream, orders, k) == encoded(d, inputs, stream, orders.take(k as int), k),
    decreases k,
{
    if k > 0 {
        lemma_encoded_prefix(d, inputs, stream, orders, (k - 1) as nat);
        lemma_encoded_prefix(d, inputs, stream, orders.take(k as int), (k - 1) as nat);
        assert(orders.take(k as int).take((k - 1) as int) =~= orders.take((k - 1) as int));
    }
}

/// The bytes of the value at `f` are all taken in `bitmap`.
pub open spec fn field_taken(bitmap: Seq<bool>, f: (u32, OpInput)) -> bool {
    &&& f.0 + input_size(f.1) <= bitmap.len()
    &&& forall|p: int| f.0 <= p < f.0 + input_size(f.1) ==> #[trigger] bitmap[p]
}

/// No two values share a byte.
pub open spec fn fields_disjoint(fields: Seq<(u32, OpInput)>) -> bool {
    forall|i: int, j: int| 0 <= i < j < fields.len() ==>
        #[trigger] fields[i].0 + input_size(fields[i].1) <= #[trigger] fields[j].0
        || fields[j].0 + input_size(fields[j].1) <= fields[i].0
}

/// Each value takes some bytes and sits at a multiple of its size.
pub open spec fn fields_aligned(fields: Seq<(u32, OpInput)>) -> bool {
    forall|i: int| 0 <= i < fields.len() ==> input_size((#[trigger] fields[i]).1) > 0
        && (fields[i].0 as nat) % input_size(fields[i].1) == 0
}

proof fn lemma_field_taken_at(bitmap: Seq<bool>, f: (u32, OpInput), p: int)
    requires
        field_taken(bitmap, f),
        f.0 <= p < f.0 + input_size(f.1),
    ensures
        0 <= p < bitmap.len() && bitmap[p],
{
    assert(bitmap[p]);
}

proof fn lemma_first_fit_aligned(bitmap: Seq<bool>, size: nat, align: nat, off: nat)
    requires
        align > 0,
        off % align == 0,
    ensures
        first_fit(bitmap, size, align, off) % align == 0,
    decreases (if off >= bitmap.len() { 0 } else { bitmap.len() - off }),
{
    if !(off >= bitmap.len() || region_free(bitmap, off, size)) {
        assert((off + align) % align == 0) by (nonlinear_arith)
            requires off % align == 0, align > 0;
        lemma_first_fit_aligned(bitmap, size, align, off + align);
    }
}

proof fn lemma_layout_inv(values: Seq<OpValue>, start: u32, limit: u32, k: nat)
    requires
        k <= values.len(),
        values.len() < 0x1FFF_FFFE,
    ensures
        ({
            let (bitmap, fields, _) = layout_upto(values, start, limit, k);
            &&& fields_disjoint(fields)
            &&& fields_aligned(fields)
            &&& forall|i: int| 0 <= i < fields.len() ==> field_taken(bitmap, #[trigger] fields[i])
        }),
    decreases k,
{
    if k > 0 {
        lemma_layout_inv(values, start, limit, (k - 1) as nat);
        lemma_layout_bounds(values, start, limit, (k - 1) as nat);
        let (bitmap, fields, textures) = layout_upto(values, start, limit, (k - 1) as nat);
        match values[k - 1] {
            OpValue::Input(input) => match input_extent(input) {
                Some((size, align)) => {
                    lemma_first_fit_bound(bitmap, size as nat, align as nat, 0);
                    lemma_first_fit_aligned(bitmap, size as nat, align as nat, 0);
                    let offset = first_fit(bitmap, size as nat, align as nat, 0);
                    let nb = mark_region(bitmap, offset, size as nat);
                    let f = (offset as u32, input);
                    let nf = fields.push(f);
                    assert(offset < 0x1_0000_0000);
                    assert(input_size(input) == size);
                    assert forall|i: int| 0 <= i < nf.len() implies field_taken(nb, #[trigger] nf[i]) by {
                        if i < fields.len() {
                            let g = fields[i];
                            assert(field_taken(bitmap, g));
                            assert(nf[i] == g);
                            assert forall|p: int| g.0 <= p < g.0 + input_size(g.1) implies #[trigger] nb[p] by {
                                lemma_field_taken_at(bitmap, g, p);
                            }
                        } else {
                            assert(nf[i] == f);
                            assert(f.0 == offset);
                            assert(nb.len() >= offset + size);
                            assert forall|p: int| f.0 <= p < f.0 + input_size(f.1) implies #[trigger] nb[p] by {
                                assert(offset <= p < offset + size);
                            }
                        }
                    }
                    assert forall|i: int, j: int| 0 <= i < j < nf.len() implies
                        #[trigger] nf[i].0 + input_size(nf[i].1) <= #[trigger] nf[j].0
                        || nf[j].0 + input_size(nf[j].1) <= nf[i].0 by {
                        if j == fields.len() {
                            let g = fields[i];
                            assert(field_taken(bitmap, g));
                            if !(g.0 + input_size(g.1) <= offset || offset + size <= g.0) {
                                let p: int = if g.0 >= offset { g.0 as int } else { offset as int };
                                assert(g.0 <= p < g.0 + input_size(g.1));
                                lemma_field_taken_at(bitmap, g, p);
                                assert(offset <= p < offset + size);
                            }
                        } else {
                            assert(nf[i] == fields[i] && nf[j] == fields[j]);
                        }
                    }
                    assert(fields_aligned(nf));
                },
                None => {},
            },
            _ => {},
        }
    }
}

/// The values a layout places never share a byte, each sits at a multiple
/// of its size, and all lie within the layout's size.
pub proof fn lemma_layout_disjoint(values: Seq<OpValue>, textures_start: u32, textures_limit: u32)
    requires
        values.len() < 0x1FFF_FFFE,
    ensures
        ({
            let (bitmap, fields, _) = layout_upto(values, textures_start, textures_limit, values.len());
            &&& fields_disjoint(fields)
            &&& fields_aligned(fields)
            &&& forall|i: int| 0 <= i < fields.len() ==>
                (#[trigger] fields[i]).0 + input_size(fields[i].1) <= round16(bitmap.len())
        }),
{
    lemma_layout_inv(values, textures_start, textures_limit, values.len());
    let (bitmap, fields, _) = layout_upto(values, textures_start, textures_limit, values.len());
    assert forall|i: int| 0 <= i < fields.len() implies
        (#[trigger] fields[i]).0 + input_size(fields[i].1) <= round16(bitmap.len()) by {
        assert(field_taken(bitmap, fields[i]));
        assert(input_size(fields[i].1) > 0);
        let p = fields[i].0 + input_size(fields[i].1) - 1;
        assert(fields[i].0 <= p < fields[i].0 + input_size(fields[i].1));
        lemma_field_taken_at(bitmap, fields[i], p);
        assert(round16(bitmap.len()) >= bitmap.len());
    }
}

/// The number that `bytes` spell, least significant byte first.
pub open spec fn le_value(bytes: Seq<u8>) -> nat
    decreases bytes.len(),
{
    if bytes.len() == 0 {
        0
    } else {
        (bytes[0] + 256 * le_value(bytes.drop_first())) as nat
    }
}

/// The number read from the `width` bytes of `d` at `offset`, in the given
/// byte order.
pub open spec fn read_back(d: Seq<u8>, offset: int, width: nat, big_endian: bool) -> nat {
    let s = d.subrange(offset, offset + width);
    le_value(if big_endian { s.reverse() } else { s })
}

/// What a field of type `input` keeps of `value`: all of it, or its low 16
/// or 8 bits.
pub open spec fn kept_value(input: OpInput, value: u32) -> nat {
    match input {
        OpInput::F32 | OpInput::I32 | OpInput::U32 => value as nat,
        OpInput::I16 | OpInput::U16 => value as nat % 0x1_0000,
        _ => value as nat % 0x100,
    }
}

proof fn lemma_le_value_bytes(x: nat, width: nat)
    requires
        width == 1 || width == 2 || width == 4,
    ensures
        width == 1 ==> le_value(le_bytes(x, 1)) == x % 0x100,
        width == 2 ==> le_value(le_bytes(x, 2)) == x % 0x1_0000,
        width == 4 ==> le_value(le_bytes(x, 4)) == x % 0x1_0000_0000,
{
    reveal_with_fuel(le_bytes, 5);
    reveal_with_fuel(le_value, 5);
    let x1 = x / 256;
    let x2 = x1 / 256;
    let x3 = x2 / 256;
    assert(le_bytes(x, 1).drop_first() =~= Seq::<u8>::empty());
    assert(le_bytes(x, 2).drop_first() =~= le_bytes(x1, 1));
    assert(le_bytes(x1, 1).drop_first() =~= Seq::<u8>::empty());
    assert(le_bytes(x, 4).drop_first() =~= le_bytes(x1, 3));
    assert(le_bytes(x1, 3).drop_first() =~= le_bytes(x2, 2));
    assert(le_bytes(x2, 2).drop_first() =~= le_bytes(x3, 1));
    assert(le_bytes(x3, 1).drop_first() =~= Seq::<u8>::empty());
    assert(x % 0x1_0000 == x % 256 + 256 * (x1 % 256)) by (nonlinear_arith)
        requires x1 == x / 256;
    assert(x % 0x1_0000_0000 == x % 256 + 256 * (x1 % 256 + 256 * (x2 % 256 + 256 * (x3 % 256)))) by (nonlinear_arith)
        requires x1 == x / 256, x2 == x1 / 256, x3 == x2 / 256;
}

/// The bytes that `encode` writes for a value read back, in the order they
/// were written in, as what the field keeps of the value.
proof fn lemma_value_bytes_read(input: OpInput, value: u32, big: bool)
    requires
        input_extent(input) is Some,
    ensures
        value_bytes(input, value, big).len() == input_size(input),
        le_value(if big { value_bytes(input, value, big).reverse() } else { value_bytes(input, value, big) })
            == kept_value(input, value),
{
    match input {
        OpInput::F32 | OpInput::I32 | OpInput::U32 => {
            lemma_le_bytes_len(value as nat, 4);
            lemma_le_value_bytes(value as nat, 4);
            assert(le_bytes(value as nat, 4).reverse().reverse() =~= le_bytes(value as nat, 4));
        },
        OpInput::I16 | OpInput::U16 => {
            lemma_le_bytes_len((value as u16) as nat, 2);
            lemma_le_value_bytes((value as u16) as nat, 2);
            assert(le_bytes((value as u16) as nat, 2).reverse().reverse() =~= le_bytes((value as u16) as nat, 2));
            assert((value as u16) as nat == value as nat % 0x1_0000) by (bit_vector);
        },
        _ => {
            reveal_with_fuel(le_value, 2);
            assert(seq![value as u8].drop_first() =~= Seq::<u8>::empty());
            assert(seq![value as u8].reverse() =~= seq![value as u8]);
            assert((value as u8) as nat == value as nat % 0x100) by (bit_vector);
        },
    }
}

proof fn lemma_encoded_len(d: Seq<u8>, inputs: Seq<(u32, OpInput)>, stream: Seq<u32>, orders: Seq<bool>, k: nat)
    ensures
        encoded(d, inputs, stream, orders, k).len() == d.len(),
    decreases k,
{
    if k > 0 {
        lemma_encoded_len(d, inputs, stream, orders, (k - 1) as nat);
    }
}

/// Bytes outside the later fields keep what field `i` wrote.
proof fn lemma_encoded_keeps(d: Seq<u8>, inputs: Seq<(u32, OpInput)>, stream: Seq<u32>, orders: Seq<bool>, i: int, k: nat)
    requires
        0 <= i < k <= inputs.len(),
        k <= stream.len(),
        k <= orders.len(),
        fields_disjoint(inputs),
        forall|j: int| 0 <= j < k ==> input_extent(#[trigger] inputs[j].1) is Some,
        inputs[i].0 + input_size(inputs[i].1) <= d.len(),
    ensures
        encoded(d, inputs, stream, orders, k).subrange(inputs[i].0 as int, inputs[i].0 + input_size(inputs[i].1))
            == value_bytes(inputs[i].1, stream[i], orders[i]),
    decreases k,
{
    let o = inputs[i].0 as int;
    let w = input_size(inputs[i].1) as int;
    lemma_encoded_len(d, inputs, stream, orders, k);
    lemma_encoded_len(d, inputs, stream, orders, (k - 1) as nat);
    let prev = encoded(d, inputs, stream, orders, (k - 1) as nat);
    let cur = encoded(d, inputs, stream, orders, k);
    lemma_value_bytes_read(inputs[k - 1].1, stream[k - 1], orders[k - 1]);
    if i == k - 1 {
        assert(cur.subrange(o, o + w) =~= value_bytes(inputs[i].1, stream[i], orders[i]));
    } else {
        lemma_encoded_keeps(d, inputs, stream, orders, i, (k - 1) as nat);
        assert(inputs[i].0 + input_size(inputs[i].1) <= inputs[k - 1].0
            || inputs[k - 1].0 + input_size(inputs[k - 1].1) <= inputs[i].0);
        assert(cur.subrange(o, o + w) =~= prev.subrange(o, o + w));
    }
}

/// What `encode` writes reads back: when the fields do not overlap, the bytes
/// of each field written, read in the one byte order all values were written
/// in, give back what the field keeps of its value.
pub proof fn lemma_encode_reads_back(d: Seq<u8>, inputs: Seq<(u32, OpInput)>, stream: Seq<u32>, big: bool, k: nat, i: int)
    requires
        0 <= i < k <= inputs.len(),
        k <= stream.len(),
        fields_disjoint(inputs),
        forall|j: int| 0 <= j < k ==> input_extent(#[trigger] inputs[j].1) is Some,
        inputs[i].0 + input_size(inputs[i].1) <= d.len(),
    ensures
        read_back(encoded(d, inputs, stream, one_order(k, big), k), inputs[i].0 as int, input_size(inputs[i].1), big)
            == kept_value(inputs[i].1, stream[i]),
{
    lemma_encoded_keeps(d, inputs, stream, one_order(k, big), i, k);
    lemma_value_bytes_read(inputs[i].1, stream[i], big);
}

/// Each object data field takes as many bytes as its value has (four for
/// 32-bit values, two for 16-bit ones, one for bytes), aligned to that size;
/// textures take none.
pub proof fn lemma_field_sizes()
    ensures
        input_extent(OpInput::F32) == Some((4u32, 4u32)),
        input_extent(OpInput::I32) == Some((4u32, 4u32)),
        input_extent(OpInput::U32) == Some((4u32, 4u32)),
        input_extent(OpInput::I16) == Some((2u32, 2u32)),
        input_extent(OpInput::U16) == Some((2u32, 2u32)),
        input_extent(OpInput::I8) == Some((1u32, 1u32)),
        input_extent(OpInput::U8) == Some((1u32, 1u32)),
        input_extent(OpInput::TextureRender) is None,
        input_extent(OpInput::TextureStatic) is None,
{
}

} // verus!
