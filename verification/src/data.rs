//! Position-independent component data: colours, lights, doors, grass,
//! items, and the player and NPC records.

use crate::geom::Coord;
use crate::weapon::{Weapon, WeaponType};
use vstd::prelude::*;

verus! {

/// A 24-bit colour.
#[derive(Clone, Copy, PartialEq, Eq, Structural, Debug)]
pub struct Rgb24 {
    pub r: u8,
    pub g: u8,
    pub b: u8,
}

impl Rgb24 {
    pub fn new(r: u8, g: u8, b: u8) -> (c: Rgb24)
        ensures
            c == (Rgb24 { r, g, b }),
    {
        Rgb24 { r, g, b }
    }

    pub fn new_grey(v: u8) -> (c: Rgb24)
        ensures
            c == (Rgb24 { r: v, g: v, b: v }),
    {
        Rgb24 { r: v, g: v, b: v }
    }
}

/// An exact fraction, used for light diminishment factors.
#[derive(Clone, Copy, PartialEq, Eq, Structural, Debug)]
pub struct Rational {
    pub numerator: u32,
    pub denominator: u32,
}

/// A light source carried by an entity.
#[derive(Clone, Copy, PartialEq, Eq, Structural, Debug)]
pub struct Light {
    pub colour: Rgb24,
    pub vision_distance_squared: u32,
    pub diminish: Rational,
}

/// Whether a door currently blocks movement and sight.
#[derive(Clone, Copy, PartialEq, Eq, Structural, Debug)]
pub enum DoorState {
    Open,
    Closed,
}

/// Whether a grass feature still stands upright.
#[derive(Clone, Copy, PartialEq, Eq, Structural, Debug)]
pub enum GrassState {
    Normal,
    Crushed,
}

/// What a ground item gives when picked up.
#[derive(Clone, Copy, PartialEq, Eq, Structural, Debug)]
pub enum Item {
    Weapon(WeaponType),
    Medkit,
}

/// The kinds of hostile robot the levels are populated with.
#[derive(Clone, Copy, PartialEq, Eq, Structural, Debug)]
pub enum NpcType {
    MiniBot,
    SecBot,
    RoboCop,
    DoomBot,
}

/// How an NPC relates to the player.
#[derive(Clone, Copy, PartialEq, Eq, Structural, Debug)]
pub enum Disposition {
    Hostile,
    Afraid,
}

/// A non-player character's behavioural record.
#[derive(Clone, Copy, PartialEq, Eq, Structural, Debug)]
pub struct Npc {
    pub disposition: Disposition,
    pub npc_type: NpcType,
    pub weapon: Option<Weapon>,
    /// A pursuit target; set when the NPC has been alerted to the player.
    pub move_to: Option<Coord>,
}

/// Status traits the player can acquire through upgrades.
#[derive(Clone, Copy, PartialEq, Eq, Structural, Debug)]
pub struct PlayerTraits {
    pub double_damage: bool,
    pub explosive_damage: bool,
    pub life_steal: bool,
}

impl PlayerTraits {
    pub fn new() -> (t: PlayerTraits)
        ensures
            t == (PlayerTraits { double_damage: false, explosive_damage: false, life_steal: false }),
    {
        PlayerTraits { double_damage: false, explosive_damage: false, life_steal: false }
    }
}

/// One of the player's two ranged-weapon slots.
#[derive(Clone, Copy, PartialEq, Eq, Structural, Debug)]
pub enum RangedWeaponSlot {
    One,
    Two,
}

impl RangedWeaponSlot {
    /// The slot's position in the inventory.
    pub fn index(self) -> (i: usize)
        ensures
            i == self.spec_index(),
    {
        match self {
            RangedWeaponSlot::One => 0,
            RangedWeaponSlot::Two => 1,
        }
    }

    pub open spec fn spec_index(self) -> int {
        match self {
            RangedWeaponSlot::One => 0,
            RangedWeaponSlot::Two => 1,
        }
    }
}

/// The player's inventory and status traits.
#[derive(Clone, Copy, PartialEq, Eq, Structural, Debug)]
pub struct Player {
    pub melee_weapon: Weapon,
    pub ranged_slot_one: Option<Weapon>,
    pub ranged_slot_two: Option<Weapon>,
    pub traits: PlayerTraits,
}

impl Player {
    /// A fresh player: bare hands, empty ranged slots, no traits.
    pub fn new() -> (p: Player)
        ensures
            p.melee_weapon == Weapon::spec_bare_hands(),
            p.ranged_slot_one is None,
            p.ranged_slot_two is None,
            p.traits == (PlayerTraits {
                double_damage: false,
                explosive_damage: false,
                life_steal: false,
            }),
    {
        Player {
            melee_weapon: Weapon::new_bare_hands(),
            ranged_slot_one: None,
            ranged_slot_two: None,
            traits: PlayerTraits::new(),
        }
    }

    /// The penetration of the equipped melee weapon.
    pub fn melee_pen(&self) -> (p: u32)
        ensures
            p == self.melee_weapon.pen,
    {
        self.melee_weapon.pen
    }

    /// The damage of the equipped melee weapon.
    pub fn melee_dmg(&self) -> (d: u32)
        ensures
            d == self.melee_weapon.dmg,
    {
        self.melee_weapon.dmg
    }

    /// The weapon in the given ranged slot.
    pub open spec fn spec_ranged_weapon(self, slot: RangedWeaponSlot) -> Option<Weapon> {
        match slot {
            RangedWeaponSlot::One => self.ranged_slot_one,
            RangedWeaponSlot::Two => self.ranged_slot_two,
        }
    }

    pub fn ranged_weapon(&self, slot: RangedWeaponSlot) -> (w: Option<Weapon>)
        ensures
            w == self.spec_ranged_weapon(slot),
    {
        match slot {
            RangedWeaponSlot::One => self.ranged_slot_one,
            RangedWeaponSlot::Two => self.ranged_slot_two,
        }
    }

    /// The same inventory with one ranged slot replaced.
    pub open spec fn spec_with_ranged_weapon(self, slot: RangedWeaponSlot, weapon: Option<Weapon>) -> Player {
        match slot {
            RangedWeaponSlot::One => Player { ranged_slot_one: weapon, ..self },
            RangedWeaponSlot::Two => Player { ranged_slot_two: weapon, ..self },
        }
    }

    pub fn with_ranged_weapon(self, slot: RangedWeaponSlot, weapon: Option<Weapon>) -> (p: Player)
        ensures
            p == self.spec_with_ranged_weapon(slot, weapon),
            p.spec_ranged_weapon(slot) == weapon,
            forall|s: RangedWeaponSlot|
                s != slot ==> p.spec_ranged_weapon(s) == self.spec_ranged_weapon(s),
            p.melee_weapon == self.melee_weapon,
            p.traits == self.traits,
    {
        match slot {
            RangedWeaponSlot::One => Player { ranged_slot_one: weapon, ..self },
            RangedWeaponSlot::Two => Player { ranged_slot_two: weapon, ..self },
        }
    }
}

} // verus!
