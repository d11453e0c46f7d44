//! Entity identifiers and their allocator.
//!
//! An entity is a generation-tagged slot index with no inherent fields; all
//! state lives in component tables keyed by the identifier.  The generation
//! tag makes a recycled slot produce a distinct identifier, so a freed id can
//! never alias the component data of its successor.

use vstd::prelude::*;

verus! {

/// An opaque simulation-object identifier.  The fields are exposed so that
/// specifications can speak about them; executable code outside this module
/// should treat the value as opaque.
#[derive(Clone, Copy, PartialEq, Eq, Structural, Debug)]
pub struct Entity {
    pub index: usize,
    pub generation: u64,
}

/// Issues entity identifiers and recycles slot indices.
///
/// A slot's generation is bumped when the slot is freed, so identifiers
/// handed out for one lifetime of a slot never compare equal to identifiers
/// of a later lifetime.
pub struct EntityAllocator {
    generations: Vec<u64>,
    live: Vec<bool>,
    free: Vec<usize>,
}

impl EntityAllocator {
    /// Internal consistency: the free list holds dead slots only, each once.
    pub closed spec fn wf(self) -> bool {
        &&& self.live@.len() == self.generations@.len()
        &&& forall|i: int|
            0 <= i < self.free@.len() ==> 0 <= #[trigger] self.free@[i] < self.live@.len()
                && !self.live@[self.free@[i] as int]
        &&& forall|i: int, k: int|
            0 <= i < k < self.free@.len() ==> self.free@[i] != self.free@[k]
    }

    /// Whether `e` is a currently-live identifier.
    pub closed spec fn spec_exists(self, e: Entity) -> bool {
        &&& e.index < self.live@.len()
        &&& self.live@[e.index as int]
        &&& self.generations@[e.index as int] == e.generation
    }

    pub fn new() -> (a: EntityAllocator)
        ensures
            a.wf(),
            forall|e: Entity| !a.spec_exists(e),
    {
        EntityAllocator { generations: Vec::new(), live: Vec::new(), free: Vec::new() }
    }

    /// Two live identifiers never share a slot index.
    pub proof fn lemma_live_same_index(&self, a: Entity, b: Entity)
        requires
            self.spec_exists(a),
            self.spec_exists(b),
            a.index == b.index,
        ensures
            a == b,
    {
    }

    /// Whether `e` is currently allocated.
    pub fn is_live(&self, e: Entity) -> (b: bool)
        requires
            self.wf(),
        ensures
            b == self.spec_exists(e),
    {
        e.index < self.live.len() && self.live[e.index] && self.generations[e.index]
            == e.generation
    }

    /// Allocates a fresh identifier: one that was not live before the call
    /// and is live after it.  No other identifier changes state.
    pub fn allocate(&mut self) -> (e: Entity)
        requires
            old(self).wf(),
        ensures
            final(self).wf(),
            !old(self).spec_exists(e),
            final(self).spec_exists(e),
            forall|o: Entity| o != e ==> final(self).spec_exists(o) == old(self).spec_exists(o),
    {
        if let Some(index) = self.free.pop() {
            let generation = self.generations[index];
            self.live.set(index, true);
            let e = Entity { index, generation };
            proof {
                let last = old(self).free@.len() - 1;
                assert(old(self).free@[last] == index);
                assert forall|i: int|
                    0 <= i < self.free@.len() implies 0 <= #[trigger] self.free@[i]
                    < self.live@.len() && !self.live@[self.free@[i] as int] by {
                    assert(old(self).free@[i] == self.free@[i]);
                    assert(old(self).free@[i] != old(self).free@[last]);
                }
            }
            e
        } else {
            let index = self.live.len();
            self.generations.push(0);
            self.live.push(true);
            Entity { index, generation: 0 }
        }
    }

    /// Frees a live identifier.  The slot's generation is bumped, so the
    /// freed identifier is never live again; a slot whose generation tag is
    /// exhausted is retired rather than recycled.  Must only be called once
    /// every component entry and spatial mapping for the identifier is gone.
    pub fn free(&mut self, e: Entity)
        requires
            old(self).wf(),
            old(self).spec_exists(e),
        ensures
            final(self).wf(),
            !final(self).spec_exists(e),
            forall|o: Entity| o.index != e.index ==> final(self).spec_exists(o) == old(
                self,
            ).spec_exists(o),
            forall|o: Entity| o.index == e.index ==> !final(self).spec_exists(o),
    {
        self.live.set(e.index, false);
        let generation = self.generations[e.index];
        if generation < u64::MAX {
            self.generations.set(e.index, generation + 1);
            self.free.push(e.index);
        }
        proof {
            assert forall|i: int|
                0 <= i < self.free@.len() implies 0 <= #[trigger] self.free@[i]
                < self.live@.len() && !self.live@[self.free@[i] as int] by {
                if i < old(self).free@.len() {
                    assert(old(self).free@[i] == self.free@[i]);
                }
            }
            assert forall|i: int, k: int| 0 <= i < k < self.free@.len() implies self.free@[i]
                != self.free@[k] by {
                if k == self.free@.len() - 1 && k >= old(self).free@.len() {
                    assert(!old(self).live@[old(self).free@[i] as int]);
                }
            }
        }
    }
}

} // verus!
