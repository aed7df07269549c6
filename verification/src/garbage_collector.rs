//! The skeleton heap: a fixed pool of object slots threaded by a free
//! list.  No opcode allocates heap objects yet and no value tag refers to
//! the heap, so the pool stands alone; the collector itself (a host-side
//! watcher thread) lives outside the library.

use vstd::prelude::*;

verus! {

broadcast use vstd::std_specs::vec::group_vec_axioms;

/// One heap slot: either live payload bytes or a link to the next free
/// slot.
#[derive(Debug)]
pub enum ObjectData {
    Data([u8; 32]),
    Free(usize),
}

/// A slot with its mark byte.
#[derive(Debug)]
pub struct Object {
    pub data: ObjectData,
    pub marked: u8,
}

/// A fixed pool of slots; `free` is the index of the first free slot, and
/// each free slot links to the next.
#[derive(Debug)]
pub struct MemoryPool {
    pub memory: Vec<Object>,
    pub free: usize,
}

impl MemoryPool {
    /// How many slots the pool has.
    pub open spec fn spec_len(&self) -> nat {
        self.memory@.len()
    }

    /// The index of the first free slot (one past the end when the pool is
    /// exhausted).
    pub open spec fn spec_free(&self) -> int {
        self.free as int
    }

    /// A pool of `cap` slots, all free and unmarked, threaded in ascending
    /// order: slot `i` links to slot `i + 1`, and the free head is slot 0.
    pub fn with_capacity(cap: usize) -> (r: MemoryPool)
        requires
            cap < usize::MAX,
        ensures
            r.spec_len() == cap,
            r.spec_free() == 0,
            forall|i: int|
                0 <= i < cap ==> #[trigger] r.memory@[i] == (Object {
                    data: ObjectData::Free((i + 1) as usize),
                    marked: 0,
                }),
    {
        let mut memory: Vec<Object> = Vec::new();
        let mut x: usize = 0;
        while x < cap
            invariant
                x <= cap,
                cap < usize::MAX,
                memory@.len() == x,
                forall|i: int|
                    0 <= i < x ==> #[trigger] memory@[i] == (Object {
                        data: ObjectData::Free((i + 1) as usize),
                        marked: 0,
                    }),
            decreases cap - x,
        {
            memory.push(Object { data: ObjectData::Free(x + 1), marked: 0 });
            x = x + 1;
        }
        MemoryPool { memory, free: 0 }
    }

    /// Claim the first free slot for `obj` and hand its index back: the
    /// slot now holds `obj` and the free head moves to the slot's link.
    /// `None` — with nothing changed — when the pool is exhausted or the
    /// head slot was not free; whether to collect and retry or give up is
    /// the caller's policy, since the collector itself runs host-side.
    pub fn add(&mut self, obj: Object) -> (r: Option<usize>)
        ensures
            r matches Some(i) ==> {
                &&& i == old(self).spec_free()
                &&& i < old(self).spec_len()
                &&& final(self).memory@ == old(self).memory@.update(i as int, obj)
                &&& old(self).memory@[i as int].data matches ObjectData::Free(next)
                    && final(self).free == next
            },
            r is None ==> {
                &&& (old(self).spec_free() >= old(self).spec_len() || !(
                old(self).memory@[old(self).spec_free()].data is Free))
                &&& final(self).memory@ == old(self).memory@
                &&& final(self).free == old(self).free
            },
    {
        if self.free >= self.memory.len() {
            return None;
        }
        let idx = self.free;
        let next = match &self.memory[idx].data {
            ObjectData::Free(n) => *n,
            ObjectData::Data(_) => { return None },
        };
        self.memory[idx] = obj;
        self.free = next;
        Some(idx)
    }
}

} // verus!
