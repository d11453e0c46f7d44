//! Position-independent combat statistics carried as components.

use vstd::prelude::*;

verus! {

/// Armour absorbs incoming penetration before any hit-point loss is applied.
#[derive(Clone, Copy, PartialEq, Eq, Structural, Debug)]
pub struct Armour {
    pub value: u32,
}

impl Armour {
    pub fn new(value: u32) -> (a: Armour)
        ensures
            a.value == value,
    {
        Armour { value }
    }
}

/// Current and maximum hit points; `current` never exceeds `max`.
#[derive(Clone, Copy, PartialEq, Eq, Structural, Debug)]
pub struct HitPoints {
    pub current: u32,
    pub max: u32,
}

impl HitPoints {
    /// Whether the component is internally consistent.
    pub open spec fn wf(self) -> bool {
        self.current <= self.max
    }

    pub fn new_full(max: u32) -> (hp: HitPoints)
        ensures
            hp.current == max,
            hp.max == max,
            hp.wf(),
    {
        HitPoints { current: max, max }
    }
}

/// Turns an entity must spend recovering instead of acting.
#[derive(Clone, Copy, PartialEq, Eq, Structural, Debug)]
pub struct Stunned {
    pub turns: u32,
}

} // verus!
