//! Shader graphs of typed vector operations, built one operation at a time,
//! each typed as it is added.

pub mod op;

use vstd::prelude::*;
use std::hash::Hasher;
use std::collections::hash_map::DefaultHasher;
use vstd::std_specs::hash::DefaultHasherAdditionalSpecFns;
use crate::graph::op::{OpAddr, OpInput, OpLiteral, OpType, OpValue, value_deps, value_tag, value_type, is_nan_bits};

verus! {

/// Why an operation could not be added, or a graph not finished.
#[derive(Clone, Copy, Debug, PartialEq, Eq, Structural)]
pub enum GraphError {
    /// The operand at this position names no operation.
    InvalidReference { index: usize },
    /// The operands are not of types the operation takes, or the output is not a color.
    InvalidType,
}

impl GraphError {
    /// A message describing the error.
    pub fn message(&self) -> (s: String)
        ensures
            s@ == graph_error_text(*self),
    {
        match self {
            GraphError::InvalidReference { index } => {
                let mut s = String::new();
                s.append("argument #");
                crate::compiler::codegen::push_radix(&mut s, *index as u32, 10);
                s.append(" refers to an invalid operation");
                s
            },
            GraphError::InvalidType => String::from_str("failed to infer the type of the operation"),
        }
    }
}

/// The message of an error.
pub open spec fn graph_error_text(e: GraphError) -> Seq<char> {
    match e {
        GraphError::InvalidReference { index } => "argument #"@ + crate::compiler::codegen::dec_text((index as u32) as nat)
            + " refers to an invalid operation"@,
        GraphError::InvalidType => "failed to infer the type of the operation"@,
    }
}

/// The four bytes of a 32-bit value, least significant first.
pub open spec fn u32_le(x: u32) -> Seq<u8> {
    seq![(x & 0xffu32) as u8, ((x >> 8u32) & 0xffu32) as u8, ((x >> 16u32) & 0xffu32) as u8, ((x >> 24u32) & 0xffu32) as u8]
}

fn push_u32_le(out: &mut Vec<u8>, x: u32)
    ensures
        final(out)@ == old(out)@ + u32_le(x),
{
    out.push((x & 0xffu32) as u8);
    out.push(((x >> 8u32) & 0xffu32) as u8);
    out.push(((x >> 16u32) & 0xffu32) as u8);
    out.push(((x >> 24u32) & 0xffu32) as u8);
    assert(final(out)@ =~= old(out)@ + u32_le(x));
}

/// The position of an input kind, for hashing.
pub open spec fn input_tag(i: OpInput) -> u8 {
    match i {
        OpInput::TextureStatic => 0,
        OpInput::TextureRender => 1,
        OpInput::F32 => 2,
        OpInput::I32 => 3,
        OpInput::I16 => 4,
        OpInput::I8 => 5,
        OpInput::U32 => 6,
        OpInput::U16 => 7,
        OpInput::U8 => 8,
    }
}

fn input_tag_exec(i: OpInput) -> (t: u8)
    ensures
        t == input_tag(i),
{
    match i {
        OpInput::TextureStatic => 0,
        OpInput::TextureRender => 1,
        OpInput::F32 => 2,
        OpInput::I32 => 3,
        OpInput::I16 => 4,
        OpInput::I8 => 5,
        OpInput::U32 => 6,
        OpInput::U16 => 7,
        OpInput::U8 => 8,
    }
}

/// The bytes of the addresses `deps`, in order.
pub open spec fn deps_bytes(deps: Seq<OpAddr>) -> Seq<u8>
    decreases deps.len(),
{
    if deps.len() == 0 {
        Seq::empty()
    } else {
        deps_bytes(deps.drop_last()) + u32_le(deps.last().0)
    }
}

/// The bytes of what an operation holds besides addresses; every float that
/// is not a number gives the same bytes.
pub open spec fn payload_bytes(v: OpValue) -> Seq<u8> {
    match v {
        OpValue::Input(i) => seq![input_tag(i)],
        OpValue::Literal(OpLiteral::Float(b)) => seq![0u8] + u32_le(if is_nan_bits(b) { 0x7fc0_0000u32 } else { b }),
        OpValue::Literal(OpLiteral::Int(x)) => seq![1u8] + u32_le(x as u32),
        OpValue::Literal(OpLiteral::Bool(b)) => seq![2u8, if b { 1u8 } else { 0u8 }],
        _ => Seq::empty(),
    }
}

/// The bytes an operation is hashed as: its variant, its addresses, and what
/// else it holds.
pub open spec fn value_bytes(v: OpValue) -> Seq<u8> {
    seq![value_tag(v)] + deps_bytes(value_deps(v)) + payload_bytes(v)
}

fn value_bytes_exec(v: OpValue) -> (r: Vec<u8>)
    ensures
        r@ == value_bytes(v),
{
    let mut out: Vec<u8> = Vec::new();
    out.push(crate::graph::op::value_tag_exec(v));
    let deps = v.iter_dependencies();
    let mut i: usize = 0;
    while i < deps.len()
        invariant
            i <= deps@.len(),
            out@ == seq![value_tag(v)] + deps_bytes(deps@.take(i as int)),
        decreases deps@.len() - i,
    {
        proof {
            assert(deps@.take(i as int + 1).drop_last() =~= deps@.take(i as int));
        }
        push_u32_le(&mut out, deps[i].0);
        assert(out@ =~= seq![value_tag(v)] + deps_bytes(deps@.take(i as int + 1)));
        i += 1;
    }
    proof {
        assert(deps@.take(deps@.len() as int) =~= deps@);
    }
    let ghost before = out@;
    match v {
        OpValue::Input(i) => out.push(input_tag_exec(i)),
        OpValue::Literal(OpLiteral::Float(b)) => {
            out.push(0);
            let canonical = if crate::graph::op::is_nan_bits_exec(b) { 0x7fc0_0000u32 } else { b };
            push_u32_le(&mut out, canonical);
        },
        OpValue::Literal(OpLiteral::Int(x)) => {
            out.push(1);
            push_u32_le(&mut out, x as u32);
        },
        OpValue::Literal(OpLiteral::Bool(b)) => {
            out.push(2);
            out.push(if b { 1 } else { 0 });
        },
        _ => {},
    }
    assert(out@ =~= before + payload_bytes(v));
    out
}

/// The operations, in order, that read operation `i`, among the first `n`:
/// each as many times as it reads it.
pub open spec fn value_readers(entries: Seq<(OpValue, OpType)>, i: int, n: nat) -> Seq<OpAddr>
    decreases n,
{
    if n == 0 {
        Seq::empty()
    } else {
        value_readers(entries, i, (n - 1) as nat) + Seq::new(
            addr_count(value_deps(entries[n - 1].0), OpAddr(i as u32)),
            |_k: int| OpAddr((n - 1) as u32),
        )
    }
}

/// How many times `a` occurs in `s`.
pub open spec fn addr_count(s: Seq<OpAddr>, a: OpAddr) -> nat
    decreases s.len(),
{
    if s.len() == 0 {
        0
    } else {
        addr_count(s.drop_last(), a) + if s.last() == a { 1nat } else { 0nat }
    }
}

/// The types of a list of typed operations.
pub open spec fn types_of(entries: Seq<(OpValue, OpType)>) -> Seq<OpType> {
    entries.map_values(|e: (OpValue, OpType)| e.1)
}

/// Each operation has the type its rule gives it from the operations before it.
pub open spec fn typed(entries: Seq<(OpValue, OpType)>) -> bool {
    forall|i: int| 0 <= i < entries.len() ==> #[trigger] value_type(entries[i].0, types_of(entries.take(i))) == Some(entries[i].1)
}

/// The first position among the first `k` of `deps` that names no operation
/// among `n`.
pub open spec fn first_missing(deps: Seq<OpAddr>, n: nat, k: nat) -> Option<nat>
    decreases k,
{
    if k == 0 || k > deps.len() {
        None
    } else {
        match first_missing(deps, n, (k - 1) as nat) {
            Some(j) => Some(j),
            None => if deps[k - 1].0 >= n { Some((k - 1) as nat) } else { None },
        }
    }
}

struct GraphOpData {
    value: OpValue,
    type_: OpType,
    dependants: Vec<OpAddr>,
}

/// Builds a [`Graph`] one operation at a time, typing each as it is added.
pub struct GraphBuilder {
    ops: Vec<GraphOpData>,
}

/// A graph of typed operations and the operation whose value is its color.
pub struct Graph {
    ops: Vec<GraphOpData>,
    output: OpAddr,
    hash: u64,
}

/// Each operation reads only earlier ones and has the type its rule gives it,
/// and the readers recorded for each are exactly those that read it.
pub open spec fn graph_wf(entries: Seq<(OpValue, OpType)>, readers: Seq<Seq<OpAddr>>) -> bool {
    &&& typed(entries)
    &&& entries.len() <= u32::MAX
    &&& readers.len() == entries.len()
    &&& forall|i: int| 0 <= i < entries.len() ==> #[trigger] readers[i] == value_readers(entries, i, entries.len())
}

impl GraphBuilder {
    /// The operations added so far, with their types.
    pub closed spec fn entries(&self) -> Seq<(OpValue, OpType)> {
        self.ops@.map_values(|o: GraphOpData| (o.value, o.type_))
    }

    /// For each operation, the operations that read it, in order.
    pub closed spec fn readers(&self) -> Seq<Seq<OpAddr>> {
        self.ops@.map_values(|o: GraphOpData| o.dependants@)
    }

    /// A builder with no operations.
    pub fn new() -> (b: Self)
        ensures
            b.entries() == Seq::<(OpValue, OpType)>::empty(),
            graph_wf(b.entries(), b.readers()),
    {
        let b = GraphBuilder { ops: Vec::new() };
        assert(b.entries() =~= Seq::<(OpValue, OpType)>::empty());
        assert(b.readers() =~= Seq::<Seq<OpAddr>>::empty());
        b
    }

    fn types(&self) -> (r: Vec<OpType>)
        ensures
            r@ == types_of(self.entries()),
    {
        let mut r: Vec<OpType> = Vec::new();
        let mut i: usize = 0;
        while i < self.ops.len()
            invariant
                i <= self.ops@.len(),
                r@ == types_of(self.entries()).take(i as int),
            decreases self.ops@.len() - i,
        {
            r.push(self.ops[i].type_);
            assert(r@ =~= types_of(self.entries()).take(i as int + 1));
            i += 1;
        }
        assert(r@ =~= types_of(self.entries()));
        r
    }

    /// Types `op` against the operations added so far and adds it, returning
    /// its address; or reports the first operand that names no operation, or
    /// that the operands are not of types the operation takes.
    pub fn push(&mut self, op: OpValue) -> (r: Result<OpAddr, GraphError>)
        requires
            graph_wf(old(self).entries(), old(self).readers()),
            old(self).entries().len() < u32::MAX,
        ensures
            graph_wf(final(self).entries(), final(self).readers()),
            r is Ok <==> value_type(op, types_of(old(self).entries())) is Some,
            r matches Ok(a) ==> a.0 == old(self).entries().len()
                && final(self).entries() == old(self).entries().push((op, value_type(op, types_of(old(self).entries()))->0)),
            r is Err ==> final(self).entries() == old(self).entries(),
            r matches Err(GraphError::InvalidReference { index }) ==>
                first_missing(value_deps(op), old(self).entries().len(), value_deps(op).len()) == Some(index as nat),
            r matches Err(GraphError::InvalidType) ==>
                first_missing(value_deps(op), old(self).entries().len(), value_deps(op).len()) is None,
    {
        let n = self.ops.len();
        let types = self.types();
        let deps = op.iter_dependencies();
        match op.type_check(types.as_slice()) {
            None => {
                let mut j: usize = 0;
                while j < deps.len()
                    invariant
                        j <= deps@.len(),
                        deps@ == value_deps(op),
                        n == old(self).entries().len(),
                        first_missing(deps@, n as nat, j as nat) is None,
                        self.entries() == old(self).entries(),
                        self.readers() == old(self).readers(),
                        graph_wf(old(self).entries(), old(self).readers()),
                    decreases deps@.len() - j,
                {
                    if deps[j].0 as usize >= n {
                        proof {
                            lemma_first_missing_found(deps@, n as nat, j as nat, deps@.len());
                        }
                        return Err(GraphError::InvalidReference { index: j });
                    }
                    j += 1;
                }
                Err(GraphError::InvalidType)
            },
            Some(ty) => {
                let addr = OpAddr(n as u32);
                proof {
                    lemma_typed_deps(op, types@);
                }
                self.add_typed(op, ty, &deps);
                Ok(addr)
            },
        }
    }

    fn add_typed(&mut self, op: OpValue, ty: OpType, deps: &Vec<OpAddr>)
        requires
            graph_wf(old(self).entries(), old(self).readers()),
            old(self).entries().len() < u32::MAX,
            deps@ == value_deps(op),
            value_type(op, types_of(old(self).entries())) == Some(ty),
            forall|j: int| 0 <= j < deps@.len() ==> (#[trigger] deps@[j]).0 < old(self).entries().len(),
        ensures
            graph_wf(final(self).entries(), final(self).readers()),
            final(self).entries() == old(self).entries().push((op, ty)),
    {
        let ghost old_entries = self.entries();
        let ghost new_entries = old_entries.push((op, ty));
        let n = self.ops.len();
        let index = OpAddr(n as u32);
        let mut t: usize = 0;
        while t < deps.len()
            invariant
                self.ops@.len() == n,
                n < u32::MAX,
                index == OpAddr(n as u32),
                self.entries() == old_entries,
                old_entries == old(self).entries(),
                graph_wf(old(self).entries(), old(self).readers()),
                deps@ == value_deps(op),
                t <= deps@.len(),
                forall|j: int| 0 <= j < deps@.len() ==> (#[trigger] deps@[j]).0 < n,
                self.readers().len() == n,
                forall|k: int| 0 <= k < n ==> #[trigger] self.readers()[k] == old(self).readers()[k]
                    + Seq::new(addr_count(deps@.take(t as int), OpAddr(k as u32)), |_j: int| index),
            decreases deps@.len() - t,
        {
            let d = deps[t];
            proof {
                assert(deps@.take(t as int + 1).drop_last() =~= deps@.take(t as int));
                assert(d.0 < n);
            }
            let ghost prev = self.ops@;
            let ghost prev_r = self.readers();
            self.ops[d.0 as usize].dependants.push(index);
            proof {
                assert forall|k: int| 0 <= k < prev.len() && k != d.0 as int implies #[trigger] self.ops@[k] == prev[k] by {}
                assert(self.entries() =~= old_entries);
                assert forall|k: int| 0 <= k < n implies #[trigger] self.readers()[k] == old(self).readers()[k]
                    + Seq::new(addr_count(deps@.take(t as int + 1), OpAddr(k as u32)), |_j: int| index) by {
                    assert(deps@.take(t as int + 1).last() == d);
                    assert(prev_r[k] == old(self).readers()[k]
                        + Seq::new(addr_count(deps@.take(t as int), OpAddr(k as u32)), |_j: int| index));
                    if k != d.0 as int {
                        assert(self.ops@[k] == prev[k]);
                        assert(OpAddr(k as u32) != d);
                    } else {
                        assert(OpAddr(k as u32) == d);
                    }
                }
            }
            t += 1;
        }
        proof {
            assert(deps@.take(deps@.len() as int) =~= deps@);
        }
        let ghost before_g = self.readers();
        self.ops.push(GraphOpData { value: op, type_: ty, dependants: Vec::new() });
        proof {
            let m = n as nat;
            assert(self.entries() =~= new_entries);
            assert forall|k: int| 0 <= k < n implies #[trigger] self.readers()[k] == before_g[k] by {}
            assert(typed(new_entries)) by {
                assert forall|i: int| 0 <= i < new_entries.len() implies #[trigger] value_type(new_entries[i].0,
                    types_of(new_entries.take(i))) == Some(new_entries[i].1) by {
                    if i < m {
                        assert(new_entries.take(i) =~= old_entries.take(i));
                        assert(new_entries[i] == old_entries[i]);
                    } else {
                        assert(new_entries.take(i) =~= old_entries);
                    }
                }
            }
            assert forall|k: int| 0 <= k < new_entries.len() implies #[trigger] self.readers()[k]
                == value_readers(new_entries, k, new_entries.len()) by {
                lemma_value_readers_prefix(old_entries, seq![(op, ty)], k, m);
                assert(old_entries + seq![(op, ty)] =~= new_entries);
                if k < m {
                    assert(old(self).readers()[k] == value_readers(old_entries, k, m));
                    assert(Seq::new(addr_count(deps@, OpAddr(k as u32)), |_j: int| index) =~= Seq::new(
                        addr_count(value_deps(new_entries[m as int].0), OpAddr(k as u32)),
                        |_j: int| OpAddr(m as u32),
                    ));
                } else {
                    lemma_no_value_readers_yet(new_entries, k, m + 1);
                    assert(self.readers()[k] =~= Seq::<OpAddr>::empty());
                }
            }
        }
    }

    /// Finishes the graph with the operation whose value is its color, which
    /// must be a four-float vector; the graph's hash is taken over the bytes of
    /// its operations.
    pub fn finish(self, output: OpAddr) -> (r: Result<Graph, GraphError>)
        requires
            graph_wf(self.entries(), self.readers()),
        ensures
            r is Ok <==> output.0 < self.entries().len() && self.entries()[output.0 as int].1 == OpType::F4,
            r matches Err(e) ==> (e == GraphError::InvalidReference { index: 0 }) == (output.0 >= self.entries().len()),
            r matches Err(e) ==> e == GraphError::InvalidType || e == (GraphError::InvalidReference { index: 0 }),
            r matches Ok(g) ==> g.entries() == self.entries() && g.readers() == self.readers() && g.output_addr() == output
                && g.hash_value() == DefaultHasher::spec_finish(self.entries().map_values(|e: (OpValue, OpType)| value_bytes(e.0))),
    {
        if output.0 as usize >= self.ops.len() {
            return Err(GraphError::InvalidReference { index: 0 });
        }
        if self.ops[output.0 as usize].type_ != OpType::F4 {
            return Err(GraphError::InvalidType);
        }
        let mut hasher = DefaultHasher::new();
        let mut i: usize = 0;
        while i < self.ops.len()
            invariant
                i <= self.ops@.len(),
                hasher@ == self.entries().take(i as int).map_values(|e: (OpValue, OpType)| value_bytes(e.0)),
            decreases self.ops@.len() - i,
        {
            let bytes = value_bytes_exec(self.ops[i].value);
            hasher.write(bytes.as_slice());
            assert(hasher@ =~= self.entries().take(i as int + 1).map_values(|e: (OpValue, OpType)| value_bytes(e.0)));
            i += 1;
        }
        assert(self.entries().take(i as int) =~= self.entries());
        let hash = hasher.finish();
        Ok(Graph { ops: self.ops, output, hash })
    }
}

proof fn lemma_first_missing_found(deps: Seq<OpAddr>, n: nat, j: nat, k: nat)
    requires
        j < k <= deps.len(),
        first_missing(deps, n, j) is None,
        deps[j as int].0 >= n,
    ensures
        first_missing(deps, n, k) == Some(j),
    decreases k,
{
    if k > j + 1 {
        lemma_first_missing_found(deps, n, j, (k - 1) as nat);
    }
}

proof fn lemma_typed_deps(op: OpValue, types: Seq<OpType>)
    requires
        value_type(op, types) is Some,
    ensures
        forall|j: int| 0 <= j < value_deps(op).len() ==> (#[trigger] value_deps(op)[j]).0 < types.len(),
{
}

proof fn lemma_addr_count_none(s: Seq<OpAddr>, a: OpAddr)
    requires
        forall|j: int| 0 <= j < s.len() ==> s[j] != a,
    ensures
        addr_count(s, a) == 0,
    decreases s.len(),
{
    if s.len() > 0 {
        lemma_addr_count_none(s.drop_last(), a);
    }
}

proof fn lemma_no_value_readers_yet(entries: Seq<(OpValue, OpType)>, i: int, n: nat)
    requires
        typed(entries),
        entries.len() <= u32::MAX,
        0 <= i < entries.len(),
        n <= i + 1,
        n <= entries.len(),
    ensures
        value_readers(entries, i, n) == Seq::<OpAddr>::empty(),
    decreases n,
{
    if n > 0 {
        lemma_no_value_readers_yet(entries, i, (n - 1) as nat);
        let deps = value_deps(entries[n - 1].0);
        assert(value_type(entries[n - 1].0, types_of(entries.take(n - 1))) == Some(entries[n - 1].1));
        lemma_typed_deps(entries[n - 1].0, types_of(entries.take(n - 1)));
        assert forall|j: int| 0 <= j < deps.len() implies deps[j] != OpAddr(i as u32) by {
            assert(deps[j].0 < n - 1);
        }
        lemma_addr_count_none(deps, OpAddr(i as u32));
        assert(value_readers(entries, i, n) =~= Seq::<OpAddr>::empty());
    }
}

proof fn lemma_value_readers_prefix(entries: Seq<(OpValue, OpType)>, more: Seq<(OpValue, OpType)>, i: int, n: nat)
    requires
        n <= entries.len(),
    ensures
        value_readers(entries + more, i, n) == value_readers(entries, i, n),
    decreases n,
{
    if n > 0 {
        lemma_value_readers_prefix(entries, more, i, (n - 1) as nat);
        assert((entries + more)[n - 1] == entries[n - 1]);
    }
}

impl Graph {
    /// The operations, with their types.
    pub closed spec fn entries(&self) -> Seq<(OpValue, OpType)> {
        self.ops@.map_values(|o: GraphOpData| (o.value, o.type_))
    }

    /// For each operation, the operations that read it, in order.
    pub closed spec fn readers(&self) -> Seq<Seq<OpAddr>> {
        self.ops@.map_values(|o: GraphOpData| o.dependants@)
    }

    /// The addresses of all operations, in order.
    pub fn iter(&self) -> (r: Vec<OpAddr>)
        requires
            self.entries().len() <= u32::MAX,
        ensures
            r@.len() == self.entries().len(),
            forall|i: int| 0 <= i < r@.len() ==> #[trigger] r@[i] == OpAddr(i as u32),
    {
        let mut r: Vec<OpAddr> = Vec::new();
        let mut i: usize = 0;
        while i < self.ops.len()
            invariant
                i <= self.ops@.len() <= u32::MAX,
                self.entries().len() == self.ops@.len(),
                r@.len() == i,
                forall|k: int| 0 <= k < i ==> #[trigger] r@[k] == OpAddr(k as u32),
            decreases self.ops@.len() - i,
        {
            r.push(OpAddr(i as u32));
            i += 1;
        }
        r
    }

    /// The operation at `addr`.
    ///
    /// An address past the end panics; it is left out here.
    pub fn value_of(&self, addr: OpAddr) -> (v: OpValue)
        requires
            addr.0 < self.entries().len(),
        ensures
            v == self.entries()[addr.0 as int].0,
    {
        self.ops[addr.0 as usize].value
    }

    /// The type of the operation at `addr`.
    ///
    /// An address past the end panics; it is left out here.
    pub fn type_of(&self, addr: OpAddr) -> (t: OpType)
        requires
            addr.0 < self.entries().len(),
        ensures
            t == self.entries()[addr.0 as int].1,
    {
        self.ops[addr.0 as usize].type_
    }

    /// The addresses the operation at `addr` reads, in order.
    ///
    /// An address past the end panics; it is left out here.
    pub fn dependencies_of(&self, addr: OpAddr) -> (r: Vec<OpAddr>)
        requires
            addr.0 < self.entries().len(),
        ensures
            r@ == value_deps(self.entries()[addr.0 as int].0),
    {
        self.ops[addr.0 as usize].value.iter_dependencies()
    }

    /// The operations that read the operation at `addr`, in order, each as
    /// many times as it reads it.
    ///
    /// An address past the end panics; it is left out here.
    pub fn dependents_of(&self, addr: OpAddr) -> (r: Vec<OpAddr>)
        requires
            addr.0 < self.entries().len(),
        ensures
            r@ == self.readers()[addr.0 as int],
    {
        let mut r: Vec<OpAddr> = Vec::new();
        let src = &self.ops[addr.0 as usize].dependants;
        let mut i: usize = 0;
        while i < src.len()
            invariant
                i <= src@.len(),
                r@ == src@.take(i as int),
            decreases src@.len() - i,
        {
            r.push(src[i]);
            assert(r@ =~= src@.take(i as int + 1));
            i += 1;
        }
        assert(r@ =~= src@);
        r
    }

    /// The operation whose value is the graph's color.
    pub closed spec fn output_addr(&self) -> OpAddr {
        self.output
    }

    /// The graph's hash.
    pub closed spec fn hash_value(&self) -> u64 {
        self.hash
    }

    /// The operation whose value is the graph's color.
    pub fn output(&self) -> (a: OpAddr)
        ensures
            a == self.output_addr(),
    {
        self.output
    }

    /// The hash of the graph's operations.
    pub fn hash(&self) -> (h: u64)
        ensures
            h == self.hash_value(),
    {
        self.hash
    }

    /// The number of operations.
    pub fn len(&self) -> (n: u32)
        requires
            self.entries().len() <= u32::MAX,
        ensures
            n == self.entries().len(),
    {
        self.ops.len() as u32
    }
}

proof fn lemma_addr_count_concat(s: Seq<OpAddr>, t: Seq<OpAddr>, a: OpAddr)
    ensures
        addr_count(s + t, a) == addr_count(s, a) + addr_count(t, a),
    decreases t.len(),
{
    if t.len() > 0 {
        lemma_addr_count_concat(s, t.drop_last(), a);
        assert((s + t).drop_last() =~= s + t.drop_last());
    } else {
        assert(s + t =~= s);
    }
}

proof fn lemma_addr_count_repeat(k: nat, b: OpAddr, a: OpAddr)
    ensures
        addr_count(Seq::new(k, |_j: int| b), a) == if a == b { k } else { 0 },
    decreases k,
{
    if k > 0 {
        lemma_addr_count_repeat((k - 1) as nat, b, a);
        assert(Seq::new(k, |_j: int| b).drop_last() =~= Seq::new((k - 1) as nat, |_j: int| b));
    }
}

proof fn lemma_value_readers_count(entries: Seq<(OpValue, OpType)>, i: int, n: nat, j: int)
    requires
        n <= entries.len(),
        n <= u32::MAX,
        0 <= j <= u32::MAX,
    ensures
        addr_count(value_readers(entries, i, n), OpAddr(j as u32))
            == if j < n { addr_count(value_deps(entries[j].0), OpAddr(i as u32)) } else { 0 },
    decreases n,
{
    if n > 0 {
        lemma_value_readers_count(entries, i, (n - 1) as nat, j);
        let k = addr_count(value_deps(entries[n - 1].0), OpAddr(i as u32));
        lemma_addr_count_concat(value_readers(entries, i, (n - 1) as nat),
            Seq::new(k, |_k: int| OpAddr((n - 1) as u32)), OpAddr(j as u32));
        lemma_addr_count_repeat(k, OpAddr((n - 1) as u32), OpAddr(j as u32));
    }
}

/// In a well-formed graph, an operation is listed among the readers of
/// another exactly as many times as it names that operation as an operand.
pub proof fn lemma_readers_match_operands(entries: Seq<(OpValue, OpType)>, readers: Seq<Seq<OpAddr>>, a: int, b: int)
    requires
        graph_wf(entries, readers),
        0 <= a < entries.len(),
        0 <= b < entries.len(),
    ensures
        addr_count(readers[a], OpAddr(b as u32)) == addr_count(value_deps(entries[b].0), OpAddr(a as u32)),
{
    lemma_value_readers_count(entries, a, entries.len(), b);
}

} // verus!
