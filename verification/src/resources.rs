//! Tables of a backend's resources: each resource gets a 64-bit handle when
//! it is registered, and a handle stays tied to its resource until that is
//! removed.

use vstd::prelude::*;
use slotmap::{DefaultKey, Key, KeyData, SlotMap};

verus! {

/// A slot map from default keys to 32-bit values, held whole: its contents
/// are known through [`table_contents`] alone.
#[verifier::external_body]
pub struct HandleMap {
    map: SlotMap<DefaultKey, u32>,
}

/// The values of a slot map, by the 64-bit handle of their key.
pub uninterp spec fn table_contents(t: HandleMap) -> Map<u64, u32>;

/// The handle of the key that a 64-bit number stands for: a key's version is
/// always odd, so the low bit of its upper half is set.
pub open spec fn canonical_handle(x: u64) -> u64 {
    x | 0x1_0000_0000u64
}

/// `SlotMap::new`: a map with no values.
#[verifier::external_body]
fn table_new() -> (table: HandleMap)
    ensures
        table_contents(table).dom() == Set::<u64>::empty(),
{
    HandleMap { map: SlotMap::new() }
}

/// `SlotMap::insert`, with the key's handle from `KeyData::as_ffi`: the value
/// is stored under a handle no value had, and that handle is returned. The map
/// panics when it would need a slot past `u32::MAX - 1`; maps holding that
/// many values are left out.
#[verifier::external_body]
fn table_insert(t: &mut HandleMap, value: u32) -> (handle: u64)
    requires
        table_contents(*old(t)).dom().finite(),
        table_contents(*old(t)).len() < u32::MAX - 1,
    ensures
        !table_contents(*old(t)).dom().contains(handle),
        canonical_handle(handle) == handle,
        table_contents(*final(t)) == table_contents(*old(t)).insert(handle, value),
{
    t.map.insert(value).data().as_ffi()
}

/// `SlotMap::remove` with the key `KeyData::from_ffi` makes of `handle`: the
/// value stored under that key, if any, is taken out and returned.
#[verifier::external_body]
fn table_remove(t: &mut HandleMap, handle: u64) -> (r: Option<u32>)
    ensures
        table_contents(*old(t)).dom().contains(canonical_handle(handle)) ==> r == Some(
            table_contents(*old(t))[canonical_handle(handle)],
        ) && table_contents(*final(t)) == table_contents(*old(t)).remove(canonical_handle(handle)),
        !table_contents(*old(t)).dom().contains(canonical_handle(handle)) ==> r is None && table_contents(*final(t))
            == table_contents(*old(t)),
{
    t.map.remove(KeyData::from_ffi(handle).into())
}

/// `SlotMap::get` with the key `KeyData::from_ffi` makes of `handle`: the value
/// stored under that key, if any.
#[verifier::external_body]
fn table_get(t: &HandleMap, handle: u64) -> (r: Option<u32>)
    ensures
        table_contents(*t).dom().contains(canonical_handle(handle)) ==> r == Some(
            table_contents(*t)[canonical_handle(handle)],
        ),
        !table_contents(*t).dom().contains(canonical_handle(handle)) ==> r is None,
{
    t.map.get(KeyData::from_ffi(handle).into()).copied()
}

/// `SlotMap::len`: the number of values stored.
#[verifier::external_body]
fn table_len(t: &HandleMap) -> (n: usize)
    ensures
        n == table_contents(*t).len(),
{
    t.map.len()
}

/// Resources of one kind, each held as a 32-bit value (such as a GPU object
/// name or a compiled shader's index) under the handle it was registered with.
pub struct ResourceTable {
    slots: HandleMap,
}

impl View for ResourceTable {
    type V = Map<u64, u32>;

    closed spec fn view(&self) -> Map<u64, u32> {
        table_contents(self.slots)
    }
}

impl ResourceTable {
    /// The table holds finitely many resources, and at most `u32::MAX`.
    pub closed spec fn wf(&self) -> bool {
        self@.dom().finite() && self@.len() <= u32::MAX
    }

    /// An empty table.
    pub fn new() -> (t: Self)
        ensures
            t@ == Map::<u64, u32>::empty(),
            t.wf(),
    {
        let t = ResourceTable { slots: table_new() };
        assert(t@.dom() =~= Set::<u64>::empty());
        t
    }

    /// Registers a resource and returns its handle, one no resource in the
    /// table has.
    pub fn insert(&mut self, value: u32) -> (handle: u64)
        requires
            old(self).wf(),
            old(self)@.len() < u32::MAX - 1,
        ensures
            final(self).wf(),
            !old(self)@.dom().contains(handle),
            canonical_handle(handle) == handle,
            final(self)@ == old(self)@.insert(handle, value),
    {
        let handle = table_insert(&mut self.slots, value);
        proof {
            assert(self@.dom() == old(self)@.dom().insert(handle));
        }
        handle
    }

    /// Removes the resource with the given handle and returns it, if there is one.
    pub fn remove(&mut self, handle: u64) -> (r: Option<u32>)
        requires
            old(self).wf(),
        ensures
            final(self).wf(),
            old(self)@.dom().contains(canonical_handle(handle)) ==> r == Some(old(self)@[canonical_handle(handle)])
                && final(self)@ == old(self)@.remove(canonical_handle(handle)),
            !old(self)@.dom().contains(canonical_handle(handle)) ==> r is None && final(self)@ == old(self)@,
    {
        let r = table_remove(&mut self.slots, handle);
        proof {
            if old(self)@.dom().contains(canonical_handle(handle)) {
                assert(self@.dom() == old(self)@.dom().remove(canonical_handle(handle)));
            }
        }
        r
    }

    /// The resource with the given handle, if there is one.
    pub fn get(&self, handle: u64) -> (r: Option<u32>)
        ensures
            r == handle_lookup(self@, handle),
    {
        table_get(&self.slots, handle)
    }

    /// The number of resources.
    pub fn len(&self) -> (n: usize)
        ensures
            n == self@.len(),
    {
        table_len(&self.slots)
    }
}

/// What a table with contents `m` holds under `handle`.
pub open spec fn handle_lookup(m: Map<u64, u32>, handle: u64) -> Option<u32> {
    if m.dom().contains(canonical_handle(handle)) {
        Some(m[canonical_handle(handle)])
    } else {
        None
    }
}

/// After registering a resource, its handle gives it back, and every other
/// handle gives what it gave before.
pub proof fn lemma_get_after_insert(before: Map<u64, u32>, handle: u64, value: u32, other: u64)
    requires
        canonical_handle(handle) == handle,
        canonical_handle(other) != handle,
    ensures
        handle_lookup(before.insert(handle, value), handle) == Some(value),
        handle_lookup(before.insert(handle, value), other) == handle_lookup(before, other),
{
}

/// After removing a handle it gives nothing, and every other handle gives
/// what it gave before.
pub proof fn lemma_get_after_remove(before: Map<u64, u32>, handle: u64, other: u64)
    requires
        canonical_handle(other) != canonical_handle(handle),
    ensures
        handle_lookup(before.remove(canonical_handle(handle)), handle) is None,
        handle_lookup(before.remove(canonical_handle(handle)), other) == handle_lookup(before, other),
{
}

/// A handle a table returns on registration is not one it already held, so
/// registering twice gives two handles.
pub proof fn lemma_insert_fresh(before: Map<u64, u32>, first: u64, value: u32, second: u64)
    requires
        !before.dom().contains(first),
        !before.insert(first, value).dom().contains(second),
    ensures
        first != second,
{
}

} // verus!
