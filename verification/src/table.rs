//! Sparse component tables: typed maps from entity identifier to value.
//!
//! A table stores at most one value per slot index, tagged with the full
//! identifier that owns it.  Presence of a key is the assertion of that
//! capability for the entity.  Lookups compare the whole identifier, so an
//! entry left behind by a stale generation is invisible to its successor.

use crate::entity::Entity;
use vstd::prelude::*;

verus! {

/// A sparse map from entity identifier to component value.
pub struct ComponentTable<T> {
    slots: Vec<Option<(Entity, T)>>,
}

impl<T> ComponentTable<T> {
    /// The table as a mathematical map from identifier to value.
    pub closed spec fn view(&self) -> Map<Entity, T> {
        Map::new(
            |e: Entity|
                e.index < self.slots@.len() && match self.slots@[e.index as int] {
                    Some(p) => p.0 == e,
                    None => false,
                },
            |e: Entity| self.slots@[e.index as int]->Some_0.1,
        )
    }

    pub fn new() -> (t: ComponentTable<T>)
        ensures
            t@ == Map::<Entity, T>::empty(),
    {
        let t = ComponentTable { slots: Vec::new() };
        proof {
            assert(t@ =~= Map::<Entity, T>::empty());
        }
        t
    }

    pub fn contains(&self, e: Entity) -> (b: bool)
        ensures
            b == self@.contains_key(e),
    {
        e.index < self.slots.len() && match &self.slots[e.index] {
            Some(p) => p.0 == e,
            None => false,
        }
    }

    /// Looks the entity's value up; `None` when the entity has no entry.
    pub fn get(&self, e: Entity) -> (r: Option<&T>)
        ensures
            match r {
                Some(v) => self@.contains_key(e) && *v == self@[e],
                None => !self@.contains_key(e),
            },
    {
        if e.index < self.slots.len() {
            match &self.slots[e.index] {
                Some(p) => if p.0 == e {
                    Some(&p.1)
                } else {
                    None
                },
                None => None,
            }
        } else {
            None
        }
    }

    /// Inserts or replaces the entity's value.  Any entry a stale generation
    /// of the same slot left behind is dropped with it.
    pub fn insert(&mut self, e: Entity, value: T)
        ensures
            final(self)@.contains_key(e),
            final(self)@[e] == value,
            forall|o: Entity|
                o.index != e.index ==> #[trigger] final(self)@.contains_key(o) == old(
                    self,
                )@.contains_key(o),
            forall|o: Entity|
                o.index != e.index && old(self)@.contains_key(o) ==> #[trigger] final(self)@[o]
                    == old(self)@[o],
            forall|o: Entity| o != e ==> !(#[trigger] final(self)@.contains_key(o) && o.index
                == e.index),
            forall|o: Entity|
                #[trigger] final(self)@.contains_key(o) ==> o == e || old(self)@.contains_key(o),
    {
        let ghost orig = self.slots@;
        while self.slots.len() <= e.index
            invariant
                forall|i: int| 0 <= i < orig.len() ==> self.slots@[i] == orig[i],
                self.slots@.len() >= orig.len(),
                forall|i: int| orig.len() <= i < self.slots@.len() ==> self.slots@[i] is None,
            decreases e.index + 1 - self.slots.len(),
        {
            self.slots.push(None);
        }
        self.slots.set(e.index, Some((e, value)));
        proof {
            assert(forall|o: Entity|
                o.index != e.index ==> old(self)@.contains_key(o) == self@.contains_key(o));
        }
    }

    /// Removes the entity's entry if it has one; reports whether one was
    /// removed.  No other entry changes.
    pub fn remove(&mut self, e: Entity) -> (removed: bool)
        ensures
            final(self)@ == old(self)@.remove(e),
            removed == old(self)@.contains_key(e),
    {
        let r = if e.index < self.slots.len() {
            let hit = match &self.slots[e.index] {
                Some(p) => p.0 == e,
                None => false,
            };
            if hit {
                self.slots.set(e.index, None);
                true
            } else {
                false
            }
        } else {
            false
        };
        proof {
            assert(self@ =~= old(self)@.remove(e));
        }
        r
    }

    /// Two keys of the table never share a slot index.
    pub proof fn lemma_same_index(&self, a: Entity, b: Entity)
        requires
            self@.contains_key(a),
            self@.contains_key(b),
            a.index == b.index,
        ensures
            a == b,
    {
    }

    /// No two keys of the table share a slot index.
    pub proof fn lemma_unique_indices(&self)
        ensures
            forall|a: Entity, b: Entity|
                #[trigger] self@.contains_key(a) && #[trigger] self@.contains_key(b) && a.index
                    == b.index ==> a == b,
    {
    }

    /// The key currently occupying a slot index, whatever its generation.
    pub fn key_at_index(&self, index: usize) -> (r: Option<Entity>)
        ensures
            match r {
                Some(k) => k.index == index && self@.contains_key(k),
                None => forall|k: Entity| k.index == index ==> !self@.contains_key(k),
            },
    {
        if index < self.slots.len() {
            match &self.slots[index] {
                Some(p) => if p.0.index == index {
                    Some(p.0)
                } else {
                    None
                },
                None => None,
            }
        } else {
            None
        }
    }

    /// The live keys, in ascending slot order.  This is the table's stable
    /// iteration order.
    pub fn keys(&self) -> (ks: Vec<Entity>)
        ensures
            forall|i: int| 0 <= i < ks@.len() ==> self@.contains_key(#[trigger] ks@[i]),
            forall|e: Entity| self@.contains_key(e) ==> ks@.contains(e),
            forall|i: int, j: int| 0 <= i < j < ks@.len() ==> ks@[i].index < ks@[j].index,
    {
        let mut ks: Vec<Entity> = Vec::new();
        let mut i: usize = 0;
        while i < self.slots.len()
            invariant
                i <= self.slots@.len(),
                forall|k: int| 0 <= k < ks@.len() ==> self@.contains_key(#[trigger] ks@[k]),
                forall|e: Entity| self@.contains_key(e) && e.index < i ==> ks@.contains(e),
                forall|k: int| 0 <= k < ks@.len() ==> #[trigger] ks@[k].index < i,
                forall|k: int, j: int| 0 <= k < j < ks@.len() ==> ks@[k].index < ks@[j].index,
            decreases self.slots@.len() - i,
        {
            let ghost prev = ks@;
            match &self.slots[i] {
                Some(p) => {
                    let e = p.0;
                    if e.index == i {
                        ks.push(e);
                    }
                },
                None => {},
            }
            proof {
                assert forall|e: Entity| self@.contains_key(e) && e.index < i + 1 implies
                    ks@.contains(e) by {
                    if e.index < i {
                        assert(prev.contains(e));
                        let k = choose|k: int| 0 <= k < prev.len() && prev[k] == e;
                        assert(ks@[k] == e);
                    } else {
                        assert(ks@[ks@.len() - 1] == e);
                    }
                }
            }
            i += 1;
        }
        ks
    }
}

} // verus!
