//! Particle emission: the specification of emitted particles and the
//! emitter's scheduled state.

use crate::data::{Light, Rational, Rgb24};
use crate::realtime::FRAME_MICROS;
use crate::tile::Tile;
use vstd::prelude::*;

verus! {

/// How an emitted particle moves: a random direction with a step period
/// drawn from this range, in microseconds.
#[derive(Clone, Copy, PartialEq, Eq, Structural, Debug)]
pub struct ParticleMovementSpec {
    pub min_period: u64,
    pub max_period: u64,
}

impl ParticleMovementSpec {
    pub open spec fn wf(self) -> bool {
        1 <= self.min_period <= self.max_period <= crate::realtime::MAX_STEP_MICROS
    }
}

/// A light a particle may carry, with the chance of carrying it.
#[derive(Clone, Copy, PartialEq, Eq, Structural, Debug)]
pub struct PossibleLight {
    pub chance: Rational,
    pub light: Light,
}

/// A second-stage emitter a particle may itself carry.
#[derive(Clone, Copy, PartialEq, Eq, Structural, Debug)]
pub struct ChildEmitterSpec {
    /// Delay between child emissions, in microseconds.
    pub emit_period: u64,
    /// Fade duration of the child's particles, in microseconds.
    pub particle_fade_duration: u64,
    /// Step period range of the child's particles, in microseconds.
    pub min_period: u64,
    pub max_period: u64,
}

impl ChildEmitterSpec {
    pub open spec fn wf(self) -> bool {
        &&& 1 <= self.emit_period
        &&& 1 <= self.min_period <= self.max_period <= crate::realtime::MAX_STEP_MICROS
    }
}

/// A child emitter with the chance of carrying it.
#[derive(Clone, Copy, PartialEq, Eq, Structural, Debug)]
pub struct PossibleChildEmitter {
    pub chance: Rational,
    pub emitter: ChildEmitterSpec,
}

/// A range of colours a particle may be tinted with.
#[derive(Clone, Copy, PartialEq, Eq, Structural, Debug)]
pub struct ColourRange {
    pub low: Rgb24,
    pub high: Rgb24,
}

/// What each emitted particle looks like and does.
#[derive(Clone, Copy, PartialEq, Eq, Structural, Debug)]
pub struct ParticleSpec {
    pub tile: Option<Tile>,
    pub movement: Option<ParticleMovementSpec>,
    /// How long the particle takes to fade, in microseconds.
    pub fade_duration: Option<u64>,
    pub colour_hint: Option<ColourRange>,
    pub possible_light: Option<PossibleLight>,
    pub possible_particle_emitter: Option<PossibleChildEmitter>,
}

impl ParticleSpec {
    /// A particle with no look and no behavior, to be filled in field by
    /// field.
    pub fn empty() -> (p: ParticleSpec)
        ensures
            p == (ParticleSpec {
                tile: None,
                movement: None,
                fade_duration: None,
                colour_hint: None,
                possible_light: None,
                possible_particle_emitter: None,
            }),
    {
        ParticleSpec {
            tile: None,
            movement: None,
            fade_duration: None,
            colour_hint: None,
            possible_light: None,
            possible_particle_emitter: None,
        }
    }

    pub open spec fn wf(self) -> bool {
        &&& match self.movement {
            Some(m) => m.wf(),
            None => true,
        }
        &&& match self.possible_particle_emitter {
            Some(p) => p.emitter.wf() && p.chance.denominator >= 1,
            None => true,
        }
        &&& match self.possible_light {
            Some(p) => p.chance.denominator >= 1,
            None => true,
        }
    }
}

/// An emitter in flight: emits one particle of its specification every
/// period.
#[derive(Clone, Copy, PartialEq, Eq, Structural, Debug)]
pub struct ParticleEmitterState {
    /// Delay between emissions, in microseconds.
    pub emit_particle_every_period: u64,
    /// When set, emitted particles fade over this duration even if the
    /// particle specification names none, in microseconds.
    pub fade_out_duration: Option<u64>,
    pub particle: ParticleSpec,
}

impl ParticleEmitterState {
    pub open spec fn wf(self) -> bool {
        &&& 1 <= self.emit_particle_every_period
        &&& self.particle.wf()
    }
}

/// The emission period that spreads `n` particles over one frame.
pub fn period_per_frame(n: u32) -> (p: u64)
    requires
        1 <= n <= FRAME_MICROS,
    ensures
        p == FRAME_MICROS as int / n as int,
        1 <= p,
{
    proof {
        assert(FRAME_MICROS as int / (n as int) >= 1) by (nonlinear_arith)
            requires
                1 <= n <= FRAME_MICROS,
        ;
    }
    FRAME_MICROS / (n as u64)
}

} // verus!
