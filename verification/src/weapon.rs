//! Weapons, their abilities, ammunition, and projectile payloads.

use crate::data::Rgb24;
use vstd::prelude::*;

verus! {

/// Every weapon kind the game knows, melee and ranged.
#[derive(Clone, Copy, PartialEq, Eq, Structural, Debug)]
pub enum WeaponType {
    BareHands,
    CattleProd,
    Chainsaw,
    Pistol,
    Rifle,
    Railgun,
    LifeStealer,
    FiftyCal,
}

/// Special effects a weapon applies on a hit.
#[derive(Clone, Copy, PartialEq, Eq, Structural, Debug)]
pub enum WeaponAbility {
    KnockBack,
    Shock,
    LifeSteal,
}

/// The set of abilities a weapon carries.
#[derive(Clone, Copy, PartialEq, Eq, Structural, Debug)]
pub struct AbilitySet {
    pub knock_back: bool,
    pub shock: bool,
    pub life_steal: bool,
}

impl AbilitySet {
    pub open spec fn spec_has(self, a: WeaponAbility) -> bool {
        match a {
            WeaponAbility::KnockBack => self.knock_back,
            WeaponAbility::Shock => self.shock,
            WeaponAbility::LifeSteal => self.life_steal,
        }
    }

    pub fn has(self, a: WeaponAbility) -> (b: bool)
        ensures
            b == self.spec_has(a),
    {
        match a {
            WeaponAbility::KnockBack => self.knock_back,
            WeaponAbility::Shock => self.shock,
            WeaponAbility::LifeSteal => self.life_steal,
        }
    }

    pub fn none() -> (s: AbilitySet)
        ensures
            s == (AbilitySet { knock_back: false, shock: false, life_steal: false }),
    {
        AbilitySet { knock_back: false, shock: false, life_steal: false }
    }
}

/// Shots remaining in a weapon with finite ammunition.
#[derive(Clone, Copy, PartialEq, Eq, Structural, Debug)]
pub struct Ammo {
    pub current: u32,
    pub max: u32,
}

impl Ammo {
    /// `current` never exceeds `max`.
    pub open spec fn wf(self) -> bool {
        self.current <= self.max
    }

    pub fn new_full(max: u32) -> (a: Ammo)
        ensures
            a.current == max,
            a.max == max,
            a.wf(),
    {
        Ammo { current: max, max }
    }
}

/// The timing and look of one particle burst.
#[derive(Clone, Copy, PartialEq, Eq, Structural, Debug)]
pub struct ParticleEmitterSpec {
    pub num_particles_per_frame: u32,
    /// Fastest particle step duration, in microseconds.
    pub min_step: u64,
    /// Slowest particle step duration, in microseconds.
    pub max_step: u64,
    /// How long the emitter keeps emitting, in microseconds.
    pub duration: u64,
    /// How long an emitted particle takes to fade, in microseconds.
    pub fade_duration: u64,
}

impl ParticleEmitterSpec {
    /// Positive periods, at most one particle per microsecond of a frame.
    pub open spec fn wf(self) -> bool {
        &&& 1 <= self.num_particles_per_frame <= crate::realtime::FRAME_MICROS
        &&& 1 <= self.min_step <= self.max_step <= crate::realtime::MAX_STEP_MICROS
    }
}

/// How an explosion damages and decorates its surroundings.
#[derive(Clone, Copy, PartialEq, Eq, Structural, Debug)]
pub struct ExplosionSpec {
    /// Blast strength: both the damage dealt and the squared radius reached.
    pub mechanics: u32,
    pub particle_emitter: ParticleEmitterSpec,
}

/// What happens to a projectile when it hits something it collides with.
#[derive(Clone, Copy, PartialEq, Eq, Structural, Debug)]
pub enum OnCollision {
    /// Destroy the projectile entity outright.
    Remove,
    /// Strip the realtime components but keep the entity.
    RemoveRealtime,
    /// Explode at the current position, then destroy the entity.
    Explode(ExplosionSpec),
}

/// Which occupants a projectile collides with.
#[derive(Clone, Copy, PartialEq, Eq, Structural, Debug)]
pub struct CollidesWith {
    pub solid: bool,
    pub character: bool,
}

impl CollidesWith {
    /// Projectiles default to colliding with solid features only.
    pub fn new_default() -> (c: CollidesWith)
        ensures
            c == (CollidesWith { solid: true, character: false }),
    {
        CollidesWith { solid: true, character: false }
    }
}

/// The payload a projectile entity carries into collisions.
#[derive(Clone, Copy, PartialEq, Eq, Structural, Debug)]
pub struct ProjectileDamage {
    pub hit_points: u32,
    pub pen: u32,
    pub push_back: bool,
    pub life_steal: bool,
    pub hull_pen_percent: u32,
    pub weapon_name: Option<WeaponType>,
}

/// A weapon: its statistics, ammunition and effects.
#[derive(Clone, Copy, PartialEq, Eq, Structural, Debug)]
pub struct Weapon {
    pub name: WeaponType,
    pub dmg: u32,
    pub pen: u32,
    pub ammo: Option<Ammo>,
    pub abilities: AbilitySet,
    pub on_collision: Option<OnCollision>,
    pub light_colour: Option<Rgb24>,
    pub hull_pen_percent: u32,
    pub bright: bool,
}

impl Weapon {
    /// Finite ammunition, when present, is internally consistent, and any
    /// explosion the weapon triggers has a sane particle specification.
    pub open spec fn wf(self) -> bool {
        &&& match self.ammo {
            Some(a) => a.wf(),
            None => true,
        }
        &&& match self.on_collision {
            Some(OnCollision::Explode(s)) => s.particle_emitter.wf(),
            _ => true,
        }
    }

    /// The weapon the player falls back to when a melee weapon wears out:
    /// penetration 0, damage 1, no ammunition, no abilities.
    pub open spec fn spec_bare_hands() -> Weapon {
        Weapon {
            name: WeaponType::BareHands,
            dmg: 1,
            pen: 0,
            ammo: None,
            abilities: AbilitySet { knock_back: false, shock: false, life_steal: false },
            on_collision: None,
            light_colour: None,
            hull_pen_percent: 0,
            bright: false,
        }
    }

    pub fn new_bare_hands() -> (w: Weapon)
        ensures
            w == Weapon::spec_bare_hands(),
            w.wf(),
    {
        Weapon {
            name: WeaponType::BareHands,
            dmg: 1u32,
            pen: 0u32,
            ammo: None,
            abilities: AbilitySet::none(),
            on_collision: None,
            light_colour: None,
            hull_pen_percent: 0u32,
            bright: false,
        }
    }
}

impl WeaponType {
    /// Whether the weapon is swung rather than fired.
    pub open spec fn spec_is_melee(self) -> bool {
        match self {
            WeaponType::BareHands | WeaponType::CattleProd | WeaponType::Chainsaw => true,
            _ => false,
        }
    }

    pub fn is_melee(self) -> (b: bool)
        ensures
            b == self.spec_is_melee(),
    {
        match self {
            WeaponType::BareHands | WeaponType::CattleProd | WeaponType::Chainsaw => true,
            _ => false,
        }
    }

    /// The factory statistics of each weapon kind.
    pub open spec fn spec_new_weapon(self) -> Weapon {
        match self {
            WeaponType::BareHands => Weapon::spec_bare_hands(),
            WeaponType::CattleProd => Weapon {
                name: self,
                dmg: 2,
                pen: 2,
                ammo: Some(Ammo { current: 20, max: 20 }),
                abilities: AbilitySet { knock_back: false, shock: true, life_steal: false },
                on_collision: None,
                light_colour: None,
                hull_pen_percent: 0,
                bright: false,
            },
            WeaponType::Chainsaw => Weapon {
                name: self,
                dmg: 6,
                pen: 6,
                ammo: Some(Ammo { current: 10, max: 10 }),
                abilities: AbilitySet { knock_back: true, shock: false, life_steal: false },
                on_collision: None,
                light_colour: None,
                hull_pen_percent: 0,
                bright: false,
            },
            WeaponType::Pistol => Weapon {
                name: self,
                dmg: 2,
                pen: 2,
                ammo: Some(Ammo { current: 12, max: 12 }),
                abilities: AbilitySet { knock_back: false, shock: false, life_steal: false },
                on_collision: Some(OnCollision::Remove),
                light_colour: Some(Rgb24 { r: 255, g: 255, b: 127 }),
                hull_pen_percent: 20,
                bright: false,
            },
            WeaponType::Rifle => Weapon {
                name: self,
                dmg: 4,
                pen: 4,
                ammo: Some(Ammo { current: 8, max: 8 }),
                abilities: AbilitySet { knock_back: false, shock: false, life_steal: false },
                on_collision: Some(OnCollision::Remove),
                light_colour: Some(Rgb24 { r: 127, g: 255, b: 255 }),
                hull_pen_percent: 40,
                bright: false,
            },
            WeaponType::Railgun => Weapon {
                name: self,
                dmg: 8,
                pen: 20,
                ammo: Some(Ammo { current: 4, max: 4 }),
                abilities: AbilitySet { knock_back: true, shock: false, life_steal: false },
                on_collision: Some(OnCollision::Remove),
                light_colour: Some(Rgb24 { r: 0, g: 255, b: 255 }),
                hull_pen_percent: 100,
                bright: true,
            },
            WeaponType::LifeStealer => Weapon {
                name: self,
                dmg: 3,
                pen: 3,
                ammo: Some(Ammo { current: 6, max: 6 }),
                abilities: AbilitySet { knock_back: false, shock: false, life_steal: true },
                on_collision: Some(OnCollision::Remove),
                light_colour: Some(Rgb24 { r: 255, g: 0, b: 63 }),
                hull_pen_percent: 20,
                bright: false,
            },
            WeaponType::FiftyCal => Weapon {
                name: self,
                dmg: 20,
                pen: 10,
                ammo: Some(Ammo { current: 2, max: 2 }),
                abilities: AbilitySet { knock_back: false, shock: false, life_steal: false },
                on_collision: Some(OnCollision::Remove),
                light_colour: Some(Rgb24 { r: 255, g: 255, b: 255 }),
                hull_pen_percent: 75,
                bright: true,
            },
        }
    }

    /// A factory-fresh weapon of this kind.
    pub fn new_weapon(self) -> (w: Weapon)
        ensures
            w == self.spec_new_weapon(),
            w.wf(),
    {
        match self {
            WeaponType::BareHands => Weapon::new_bare_hands(),
            WeaponType::CattleProd => Weapon {
                name: self,
                dmg: 2u32,
                pen: 2u32,
                ammo: Some(Ammo::new_full(20)),
                abilities: AbilitySet { knock_back: false, shock: true, life_steal: false },
                on_collision: None,
                light_colour: None,
                hull_pen_percent: 0u32,
                bright: false,
            },
            WeaponType::Chainsaw => Weapon {
                name: self,
                dmg: 6u32,
                pen: 6u32,
                ammo: Some(Ammo::new_full(10)),
                abilities: AbilitySet { knock_back: true, shock: false, life_steal: false },
                on_collision: None,
                light_colour: None,
                hull_pen_percent: 0u32,
                bright: false,
            },
            WeaponType::Pistol => Weapon {
                name: self,
                dmg: 2u32,
                pen: 2u32,
                ammo: Some(Ammo::new_full(12)),
                abilities: AbilitySet::none(),
                on_collision: Some(OnCollision::Remove),
                light_colour: Some(Rgb24::new(255, 255, 127)),
                hull_pen_percent: 20u32,
                bright: false,
            },
            WeaponType::Rifle => Weapon {
                name: self,
                dmg: 4u32,
                pen: 4u32,
                ammo: Some(Ammo::new_full(8)),
                abilities: AbilitySet::none(),
                on_collision: Some(OnCollision::Remove),
                light_colour: Some(Rgb24::new(127, 255, 255)),
                hull_pen_percent: 40u32,
                bright: false,
            },
            WeaponType::Railgun => Weapon {
                name: self,
                dmg: 8u32,
                pen: 20u32,
                ammo: Some(Ammo::new_full(4)),
                abilities: AbilitySet { knock_back: true, shock: false, life_steal: false },
                on_collision: Some(OnCollision::Remove),
                light_colour: Some(Rgb24::new(0, 255, 255)),
                hull_pen_percent: 100u32,
                bright: true,
            },
            WeaponType::LifeStealer => Weapon {
                name: self,
                dmg: 3u32,
                pen: 3u32,
                ammo: Some(Ammo::new_full(6)),
                abilities: AbilitySet { knock_back: false, shock: false, life_steal: true },
                on_collision: Some(OnCollision::Remove),
                light_colour: Some(Rgb24::new(255, 0, 63)),
                hull_pen_percent: 20u32,
                bright: false,
            },
            WeaponType::FiftyCal => Weapon {
                name: self,
                dmg: 20u32,
                pen: 10u32,
                ammo: Some(Ammo::new_full(2)),
                abilities: AbilitySet::none(),
                on_collision: Some(OnCollision::Remove),
                light_colour: Some(Rgb24::new(255, 255, 255)),
                hull_pen_percent: 75u32,
                bright: true,
            },
        }
    }
}

} // verus!
