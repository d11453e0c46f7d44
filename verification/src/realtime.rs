//! Realtime components: state that advances on a simulated clock between
//! turns, and the tick functions that drive it.
//!
//! Every duration in this module is measured in microseconds.  Each
//! component's tick consumes one logical step and returns the step's event
//! together with the delay before the component is due again; the scheduler
//! always advances the soonest-due component.

use crate::data::Rgb24;
use crate::geom::{Coord, Direction};
use crate::line::LineStepper;
use vstd::prelude::*;

verus! {

/// One simulated frame, used as the fade and emission quantum.
pub const FRAME_MICROS: u64 = 16_667;

/// Numerator of the √2 scaling applied to diagonal step durations.
pub const SQRT_2_NUMERATOR: u64 = 1_414_214;

/// Denominator of the √2 scaling applied to diagonal step durations.
pub const SQRT_2_DENOMINATOR: u64 = 1_000_000;

/// Largest step duration the movement builder accepts, in microseconds.
/// Keeps the √2 scaling inside `u64`.
pub const MAX_STEP_MICROS: u64 = 0x1000_0000_0000_0000;

/// The duration of a diagonal step with the given cardinal step duration:
/// the cardinal duration scaled by √2, rounded down at microsecond
/// granularity, so motion speed is uniform regardless of direction.
pub open spec fn spec_ordinal_duration(cardinal_micros: u64) -> int {
    (cardinal_micros * SQRT_2_NUMERATOR) / (SQRT_2_DENOMINATOR as int)
}

/// Scales a cardinal step duration to its diagonal counterpart.
pub fn ordinal_duration_from_cardinal_duration(duration: u64) -> (d: u64)
    requires
        duration <= MAX_STEP_MICROS,
    ensures
        d == spec_ordinal_duration(duration),
        duration >= 1 ==> d >= 1,
{
    proof {
        assert(0 <= (duration as int) * (SQRT_2_NUMERATOR as int) <= (MAX_STEP_MICROS as int) * (
        SQRT_2_NUMERATOR as int)) by (nonlinear_arith)
            requires
                0 <= duration <= MAX_STEP_MICROS,
        ;
        if duration >= 1 {
            assert((duration as int) * (SQRT_2_NUMERATOR as int) >= SQRT_2_NUMERATOR)
                by (nonlinear_arith)
                requires
                    duration >= 1,
            ;
        }
        assert((duration as int) * (SQRT_2_NUMERATOR as int) / (SQRT_2_DENOMINATOR as int) <= 2
            * (duration as int)) by (nonlinear_arith)
            requires
                0 <= duration,
        ;
    }
    let wide: u128 = (duration as u128) * (SQRT_2_NUMERATOR as u128) / (
    SQRT_2_DENOMINATOR as u128);
    wide as u64
}

/// How a movement path terminates.
#[derive(Clone, Copy, PartialEq, Eq, Structural, Debug)]
pub enum Repeat {
    /// Traverse the displacement once, then stop.
    Once,
    /// Repeat the displacement's direction without end.
    Forever,
    /// Take exactly this many steps, then stop.
    Steps(usize),
}

/// A movement order: a displacement, a termination mode, and the duration of
/// one cardinal step in microseconds.
#[derive(Clone, Copy, PartialEq, Eq, Structural, Debug)]
pub struct Movement {
    pub path: Coord,
    pub repeat: Repeat,
    pub cardinal_step_duration: u64,
}

/// The live remainder of a movement path.
#[derive(Clone, Copy, PartialEq, Eq, Structural, Debug)]
pub enum PathState {
    Once { stepper: LineStepper, remaining: usize },
    Forever { stepper: LineStepper },
    Steps { stepper: LineStepper, remaining: usize },
    Done,
}

impl PathState {
    pub open spec fn wf(self) -> bool {
        match self {
            PathState::Once { stepper, .. } => stepper.wf(),
            PathState::Forever { stepper } => stepper.wf(),
            PathState::Steps { stepper, .. } => stepper.wf(),
            PathState::Done => true,
        }
    }
}

/// An in-flight movement: the remaining path and the per-axis step
/// durations.
#[derive(Clone, Copy, PartialEq, Eq, Structural, Debug)]
pub struct MovementState {
    pub path: PathState,
    pub cardinal_step_duration: u64,
    pub ordinal_step_duration: u64,
}

impl Movement {
    /// The path state a movement order starts with: a zero displacement is
    /// exhausted from the outset, otherwise the stepper of the displacement
    /// under the order's termination mode.
    pub open spec fn spec_initial_path(self) -> PathState {
        if self.path.x == 0 && self.path.y == 0 {
            PathState::Done
        } else {
            match self.repeat {
                Repeat::Once => PathState::Once {
                    stepper: spec_stepper_of(self.path),
                    remaining: spec_chebyshev(self.path) as usize,
                },
                Repeat::Forever => PathState::Forever { stepper: spec_stepper_of(self.path) },
                Repeat::Steps(n) => PathState::Steps {
                    stepper: spec_stepper_of(self.path),
                    remaining: n,
                },
            }
        }
    }

    /// Builds the live movement state: the initial path, the cardinal step
    /// duration as given, and the diagonal duration scaled by √2.
    pub fn build(self) -> (m: MovementState)
        requires
            1 <= self.cardinal_step_duration <= MAX_STEP_MICROS,
        ensures
            m.path == self.spec_initial_path(),
            m.path.wf(),
            m.cardinal_step_duration == self.cardinal_step_duration,
            m.ordinal_step_duration == spec_ordinal_duration(self.cardinal_step_duration),
            1 <= m.cardinal_step_duration,
            1 <= m.ordinal_step_duration,
    {
        let path = if self.path.x == 0 && self.path.y == 0 {
            PathState::Done
        } else {
            let stepper = LineStepper::new(self.path);
            match self.repeat {
                Repeat::Once => PathState::Once { stepper, remaining: stepper.major_abs as usize },
                Repeat::Forever => PathState::Forever { stepper },
                Repeat::Steps(n) => PathState::Steps { stepper, remaining: n },
            }
        };
        MovementState {
            path,
            cardinal_step_duration: self.cardinal_step_duration,
            ordinal_step_duration: ordinal_duration_from_cardinal_duration(
                self.cardinal_step_duration,
            ),
        }
    }
}

/// The stepper a displacement starts with.
pub open spec fn spec_stepper_of(delta: Coord) -> LineStepper {
    LineStepper {
        x_sign: spec_sign_i32(delta.x),
        y_sign: spec_sign_i32(delta.y),
        major_axis_x: spec_abs_i32(delta.x) >= spec_abs_i32(delta.y),
        major_abs: (if spec_abs_i32(delta.x) >= spec_abs_i32(delta.y) {
            spec_abs_i32(delta.x)
        } else {
            spec_abs_i32(delta.y)
        }) as u32,
        minor_abs: (if spec_abs_i32(delta.x) >= spec_abs_i32(delta.y) {
            spec_abs_i32(delta.y)
        } else {
            spec_abs_i32(delta.x)
        }) as u32,
        accum: 0,
    }
}

/// The number of steps of one full traversal: the larger axis magnitude.
pub open spec fn spec_chebyshev(delta: Coord) -> int {
    if spec_abs_i32(delta.x) >= spec_abs_i32(delta.y) {
        spec_abs_i32(delta.x)
    } else {
        spec_abs_i32(delta.y)
    }
}

pub open spec fn spec_sign_i32(v: i32) -> i32 {
    if v > 0 {
        1i32
    } else if v < 0 {
        -1i32
    } else {
        0i32
    }
}

pub open spec fn spec_abs_i32(v: i32) -> int {
    if v < 0 {
        -(v as int)
    } else {
        v as int
    }
}

impl MovementState {
    /// The duration of one axis-aligned step.
    pub fn cardinal_step_duration(&self) -> (d: u64)
        ensures
            d == self.cardinal_step_duration,
    {
        self.cardinal_step_duration
    }

    pub open spec fn wf(self) -> bool {
        &&& self.path.wf()
        &&& 1 <= self.cardinal_step_duration
        &&& 1 <= self.ordinal_step_duration
    }

    /// What one tick of a movement state does: the step's direction (`None`
    /// when the path is exhausted), the delay until the next tick, and the
    /// state left behind.
    pub open spec fn spec_tick(self) -> (Option<Direction>, u64, MovementState) {
        let (event, path) = self.spec_tick_path();
        let delay = match event {
            Some(d) => if d.spec_is_cardinal() {
                self.cardinal_step_duration
            } else {
                self.ordinal_step_duration
            },
            None => self.cardinal_step_duration,
        };
        (event, delay, MovementState { path, ..self })
    }

    /// The step event and remaining path of one tick.
    pub open spec fn spec_tick_path(self) -> (Option<Direction>, PathState) {
        match self.path {
            PathState::Once { stepper, remaining } => if remaining == 0 {
                (None, PathState::Done)
            } else {
                (
                    Some(stepper.spec_next_dir()),
                    PathState::Once {
                        stepper: spec_stepped(stepper),
                        remaining: (remaining - 1) as usize,
                    },
                )
            },
            PathState::Forever { stepper } => (
                Some(stepper.spec_next_dir()),
                PathState::Forever { stepper: spec_stepped(stepper) },
            ),
            PathState::Steps { stepper, remaining } => if remaining == 0 {
                (None, PathState::Done)
            } else {
                (
                    Some(stepper.spec_next_dir()),
                    PathState::Steps {
                        stepper: spec_stepped(stepper),
                        remaining: (remaining - 1) as usize,
                    },
                )
            },
            PathState::Done => (None, PathState::Done),
        }
    }

    /// One movement tick.  An exhausted path yields an empty event; the
    /// scheduler turns that into the projectile-stop path.
    pub fn tick(&mut self) -> (r: (Option<Direction>, u64))
        requires
            old(self).wf(),
        ensures
            final(self).wf(),
            (r.0, r.1, *final(self)) == old(self).spec_tick(),
    {
        let (event, path): (Option<Direction>, PathState) = match self.path {
            PathState::Once { mut stepper, remaining } => if remaining == 0 {
                (None, PathState::Done)
            } else {
                let d = stepper.next_step();
                (Some(d), PathState::Once { stepper, remaining: remaining - 1 })
            },
            PathState::Forever { mut stepper } => {
                let d = stepper.next_step();
                (Some(d), PathState::Forever { stepper })
            },
            PathState::Steps { mut stepper, remaining } => if remaining == 0 {
                (None, PathState::Done)
            } else {
                let d = stepper.next_step();
                (Some(d), PathState::Steps { stepper, remaining: remaining - 1 })
            },
            PathState::Done => (None, PathState::Done),
        };
        self.path = path;
        let delay = match event {
            Some(d) => if d.is_cardinal() {
                self.cardinal_step_duration
            } else {
                self.ordinal_step_duration
            },
            None => self.cardinal_step_duration,
        };
        (event, delay)
    }
}

/// A stepper after one step.
pub open spec fn spec_stepped(s: LineStepper) -> LineStepper {
    LineStepper { accum: s.spec_next_accum() as u32, ..s }
}

/// A fade in progress.
#[derive(Clone, Copy, PartialEq, Eq, Structural, Debug)]
pub struct FadeState {
    /// The fade's total duration in microseconds.
    pub total: u64,
    /// How much of it has elapsed.
    pub elapsed: u64,
}

/// What one fade tick reports.
#[derive(Clone, Copy, PartialEq, Eq, Structural, Debug)]
pub enum FadeProgress {
    /// Fading, with the elapsed fraction scaled to 0..=255.
    Fading(u8),
    /// The fade has run its course.
    Complete,
}

impl FadeState {
    pub open spec fn wf(self) -> bool {
        self.elapsed <= self.total
    }

    /// A fresh fade over the given duration in microseconds.
    pub fn new(total: u64) -> (f: FadeState)
        ensures
            f.total == total,
            f.elapsed == 0,
            f.wf(),
    {
        FadeState { total, elapsed: 0 }
    }

    /// The elapsed fraction, scaled to 0..=255 and rounded down.
    pub open spec fn spec_fraction(self) -> int {
        if self.total == 0 {
            255
        } else {
            self.elapsed * 255 / (self.total as int)
        }
    }

    /// What one fade tick does: advance by one frame, completing when the
    /// whole duration has elapsed.
    pub open spec fn spec_tick(self) -> (FadeProgress, FadeState) {
        if self.elapsed >= self.total {
            (FadeProgress::Complete, self)
        } else {
            let advanced = FadeState {
                total: self.total,
                elapsed: if self.elapsed + FRAME_MICROS >= self.total {
                    self.total
                } else {
                    (self.elapsed + FRAME_MICROS) as u64
                },
            };
            (FadeProgress::Fading(advanced.spec_fraction() as u8), advanced)
        }
    }

    /// One fade tick.
    pub fn tick(&mut self) -> (r: FadeProgress)
        requires
            old(self).wf(),
        ensures
            final(self).wf(),
            (r, *final(self)) == old(self).spec_tick(),
    {
        if self.elapsed >= self.total {
            FadeProgress::Complete
        } else {
            if self.total - self.elapsed <= FRAME_MICROS {
                self.elapsed = self.total;
            } else {
                self.elapsed = self.elapsed + FRAME_MICROS;
            }
            let fraction = self.fraction();
            FadeProgress::Fading(fraction)
        }
    }

    /// The elapsed fraction, scaled to 0..=255.
    pub fn fraction(&self) -> (f: u8)
        requires
            self.wf(),
        ensures
            f == self.spec_fraction(),
    {
        if self.total == 0 {
            255
        } else {
            proof {
                assert((self.elapsed as int) * 255 <= (self.total as int) * 255)
                    by (nonlinear_arith)
                    requires
                        self.elapsed <= self.total,
                ;
                assert((self.elapsed as int) * 255 / (self.total as int) <= (self.total as int)
                    * 255 / (self.total as int)) by (nonlinear_arith)
                    requires
                        (self.elapsed as int) * 255 <= (self.total as int) * 255,
                        self.total > 0,
                ;
                assert((self.total as int) * 255 / (self.total as int) == 255) by (nonlinear_arith)
                    requires
                        self.total > 0,
                ;
            }
            (((self.elapsed as u128) * 255) / (self.total as u128)) as u8
        }
    }
}

/// A light colour fade: interpolates between two colours as its inner fade
/// advances.
#[derive(Clone, Copy, PartialEq, Eq, Structural, Debug)]
pub struct LightColourFadeState {
    pub fade_state: FadeState,
    pub from: Rgb24,
    pub to: Rgb24,
}

/// What one colour-fade tick reports.
#[derive(Clone, Copy, PartialEq, Eq, Structural, Debug)]
pub enum LightColourEvent {
    /// The light should now show this colour.
    Colour(Rgb24),
    /// The fade has run its course.
    Complete,
}

/// Linear interpolation of one colour channel by a 0..=255 fraction.
pub open spec fn spec_channel_lerp(from: u8, to: u8, fraction: u8) -> int {
    if to >= from {
        from + (to - from) * (fraction as int) / 255
    } else {
        from - (from - to) * (fraction as int) / 255
    }
}

/// Interpolates one colour channel by a 0..=255 fraction.
pub fn channel_lerp(from: u8, to: u8, fraction: u8) -> (v: u8)
    ensures
        v == spec_channel_lerp(from, to, fraction),
{
    let f: u64 = fraction as u64;
    if to >= from {
        let span: u64 = (to - from) as u64;
        proof {
            assert(0 <= span * f <= 255 * 255 && span * f / 255 <= span) by (nonlinear_arith)
                requires
                    0 <= span <= 255,
                    0 <= f <= 255,
            ;
        }
        from + (span * f / 255) as u8
    } else {
        let span: u64 = (from - to) as u64;
        proof {
            assert(0 <= span * f <= 255 * 255 && span * f / 255 <= span) by (nonlinear_arith)
                requires
                    0 <= span <= 255,
                    0 <= f <= 255,
            ;
        }
        from - (span * f / 255) as u8
    }
}

impl LightColourFadeState {
    pub open spec fn wf(self) -> bool {
        self.fade_state.wf()
    }

    /// What one colour-fade tick does.
    pub open spec fn spec_tick(self) -> (LightColourEvent, LightColourFadeState) {
        let (progress, fade) = self.fade_state.spec_tick();
        match progress {
            FadeProgress::Complete => (LightColourEvent::Complete, self),
            FadeProgress::Fading(fraction) => (
                LightColourEvent::Colour(
                    Rgb24 {
                        r: spec_channel_lerp(self.from.r, self.to.r, fraction) as u8,
                        g: spec_channel_lerp(self.from.g, self.to.g, fraction) as u8,
                        b: spec_channel_lerp(self.from.b, self.to.b, fraction) as u8,
                    },
                ),
                LightColourFadeState { fade_state: fade, ..self },
            ),
        }
    }

    /// One colour-fade tick.
    pub fn tick(&mut self) -> (r: LightColourEvent)
        requires
            old(self).wf(),
        ensures
            final(self).wf(),
            (r, *final(self)) == old(self).spec_tick(),
    {
        let progress = self.fade_state.tick();
        match progress {
            FadeProgress::Complete => LightColourEvent::Complete,
            FadeProgress::Fading(fraction) => {
                let colour = Rgb24 {
                    r: channel_lerp(self.from.r, self.to.r, fraction),
                    g: channel_lerp(self.from.g, self.to.g, fraction),
                    b: channel_lerp(self.from.b, self.to.b, fraction),
                };
                LightColourEvent::Colour(colour)
            },
        }
    }
}

} // verus!
