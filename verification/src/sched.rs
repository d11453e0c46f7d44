//! The realtime scheduler: advances the single soonest-due behavior across
//! every behavior kind, applies its event through the action pipeline, and
//! drains until nothing realtime remains or the frame budget is spent.

use crate::data::Light;
use crate::entity::Entity;
use crate::geom::Direction;
use crate::particle::{ParticleEmitterState, ParticleSpec};
use crate::realtime::{FadeProgress, FadeState, LightColourEvent, Movement, Repeat, FRAME_MICROS};
use crate::spatial::Location;
use crate::world::{lemma_table_insert_view, Scheduled, World};
use vstd::prelude::*;

verus! {

/// The four kinds of ticking behavior.
#[derive(Clone, Copy, PartialEq, Eq, Structural, Debug)]
pub enum BehaviorKind {
    Movement,
    Fade,
    ParticleEmitter,
    LightColourFade,
}

/// Every scheduled entry across the four tables is due no sooner than `d`
/// microseconds from now.
pub open spec fn spec_all_due_at_least(w: World, d: u64) -> bool {
    &&& forall|e: Entity|
        #[trigger] w.realtime_components.movement@.contains_key(e)
            ==> w.realtime_components.movement@[e].until_next >= d
    &&& forall|e: Entity|
        #[trigger] w.realtime_components.fade@.contains_key(e)
            ==> w.realtime_components.fade@[e].until_next >= d
    &&& forall|e: Entity|
        #[trigger] w.realtime_components.particle_emitter@.contains_key(e)
            ==> w.realtime_components.particle_emitter@[e].until_next >= d
    &&& forall|e: Entity|
        #[trigger] w.realtime_components.light_colour_fade@.contains_key(e)
            ==> w.realtime_components.light_colour_fade@[e].until_next >= d
}

/// The entry `(e, kind)` exists and is due in exactly `d` microseconds.
pub open spec fn spec_entry_due(w: World, e: Entity, kind: BehaviorKind, d: u64) -> bool {
    match kind {
        BehaviorKind::Movement => w.realtime_components.movement@.contains_key(e)
            && w.realtime_components.movement@[e].until_next == d,
        BehaviorKind::Fade => w.realtime_components.fade@.contains_key(e)
            && w.realtime_components.fade@[e].until_next == d,
        BehaviorKind::ParticleEmitter => w.realtime_components.particle_emitter@.contains_key(e)
            && w.realtime_components.particle_emitter@[e].until_next == d,
        BehaviorKind::LightColourFade => w.realtime_components.light_colour_fade@.contains_key(e)
            && w.realtime_components.light_colour_fade@[e].until_next == d,
    }
}

/// No realtime behavior is scheduled at all.
pub open spec fn spec_no_realtime(w: World) -> bool {
    &&& forall|e: Entity| !(#[trigger] w.realtime_components.movement@.contains_key(e))
    &&& forall|e: Entity| !(#[trigger] w.realtime_components.fade@.contains_key(e))
    &&& forall|e: Entity| !(#[trigger] w.realtime_components.particle_emitter@.contains_key(e))
    &&& forall|e: Entity| !(#[trigger] w.realtime_components.light_colour_fade@.contains_key(e))
}

impl World {
    /// The soonest-due behavior across every kind: its entity, kind and
    /// delay, the minimum over all scheduled entries.  `None` exactly when
    /// nothing realtime is scheduled.
    pub fn next_due(&self) -> (r: Option<(Entity, BehaviorKind, u64)>)
        ensures
            match r {
                Some(t) => spec_entry_due(*self, t.0, t.1, t.2) && spec_all_due_at_least(
                    *self,
                    t.2,
                ),
                None => spec_no_realtime(*self),
            },
    {
        let mut best: Option<(Entity, BehaviorKind, u64)> = None;

        let keys = self.realtime_components.movement.keys();
        let mut i: usize = 0;
        while i < keys.len()
            invariant
                i <= keys@.len(),
                forall|k: int|
                    0 <= k < keys@.len() ==> self.realtime_components.movement@.contains_key(
                        #[trigger] keys@[k],
                    ),
                forall|o: Entity|
                    self.realtime_components.movement@.contains_key(o) ==> keys@.contains(o),
                forall|a: int, b: int|
                    0 <= a < b < keys@.len() ==> keys@[a].index < keys@[b].index,
                match best {
                    Some(t) => spec_entry_due(*self, t.0, t.1, t.2) && forall|k: int|
                        0 <= k < i ==> self.realtime_components.movement@[#[trigger] keys@[k]].until_next
                            >= t.2,
                    None => i == 0,
                },
            decreases keys@.len() - i,
        {
            let e = keys[i];
            let d = self.realtime_components.movement.get(e).unwrap().until_next;
            best = match best {
                Some(t) => if d < t.2 {
                    Some((e, BehaviorKind::Movement, d))
                } else {
                    Some(t)
                },
                None => Some((e, BehaviorKind::Movement, d)),
            };
            i += 1;
        }
        proof {
            assert forall|o: Entity| #[trigger]
                self.realtime_components.movement@.contains_key(o) implies match best {
                Some(t) => self.realtime_components.movement@[o].until_next >= t.2,
                None => false,
            } by {
                assert(keys@.contains(o));
                let k = choose|k: int| 0 <= k < keys@.len() && keys@[k] == o;
            }
        }

        let keys = self.realtime_components.fade.keys();
        let mut i: usize = 0;
        while i < keys.len()
            invariant
                i <= keys@.len(),
                forall|k: int|
                    0 <= k < keys@.len() ==> self.realtime_components.fade@.contains_key(
                        #[trigger] keys@[k],
                    ),
                forall|o: Entity|
                    self.realtime_components.fade@.contains_key(o) ==> keys@.contains(o),
                forall|a: int, b: int|
                    0 <= a < b < keys@.len() ==> keys@[a].index < keys@[b].index,
                forall|o: Entity| #[trigger]
                    self.realtime_components.movement@.contains_key(o) ==> match best {
                        Some(t) => self.realtime_components.movement@[o].until_next >= t.2,
                        None => false,
                    },
                match best {
                    Some(t) => spec_entry_due(*self, t.0, t.1, t.2) && forall|k: int|
                        0 <= k < i ==> self.realtime_components.fade@[#[trigger] keys@[k]].until_next
                            >= t.2,
                    None => i == 0,
                },
            decreases keys@.len() - i,
        {
            let e = keys[i];
            let d = self.realtime_components.fade.get(e).unwrap().until_next;
            best = match best {
                Some(t) => if d < t.2 {
                    Some((e, BehaviorKind::Fade, d))
                } else {
                    Some(t)
                },
                None => Some((e, BehaviorKind::Fade, d)),
            };
            i += 1;
        }
        proof {
            assert forall|o: Entity| #[trigger]
                self.realtime_components.fade@.contains_key(o) implies match best {
                Some(t) => self.realtime_components.fade@[o].until_next >= t.2,
                None => false,
            } by {
                assert(keys@.contains(o));
                let k = choose|k: int| 0 <= k < keys@.len() && keys@[k] == o;
            }
        }

        let keys = self.realtime_components.particle_emitter.keys();
        let mut i: usize = 0;
        while i < keys.len()
            invariant
                i <= keys@.len(),
                forall|k: int|
                    0 <= k < keys@.len()
                        ==> self.realtime_components.particle_emitter@.contains_key(
                        #[trigger] keys@[k],
                    ),
                forall|o: Entity|
                    self.realtime_components.particle_emitter@.contains_key(o) ==> keys@.contains(
                        o,
                    ),
                forall|a: int, b: int|
                    0 <= a < b < keys@.len() ==> keys@[a].index < keys@[b].index,
                forall|o: Entity| #[trigger]
                    self.realtime_components.movement@.contains_key(o) ==> match best {
                        Some(t) => self.realtime_components.movement@[o].until_next >= t.2,
                        None => false,
                    },
                forall|o: Entity| #[trigger]
                    self.realtime_components.fade@.contains_key(o) ==> match best {
                        Some(t) => self.realtime_components.fade@[o].until_next >= t.2,
                        None => false,
                    },
                match best {
                    Some(t) => spec_entry_due(*self, t.0, t.1, t.2) && forall|k: int|
                        0 <= k < i
                            ==> self.realtime_components.particle_emitter@[#[trigger] keys@[k]].until_next
                            >= t.2,
                    None => i == 0,
                },
            decreases keys@.len() - i,
        {
            let e = keys[i];
            let d = self.realtime_components.particle_emitter.get(e).unwrap().until_next;
            best = match best {
                Some(t) => if d < t.2 {
                    Some((e, BehaviorKind::ParticleEmitter, d))
                } else {
                    Some(t)
                },
                None => Some((e, BehaviorKind::ParticleEmitter, d)),
            };
            i += 1;
        }
        proof {
            assert forall|o: Entity| #[trigger]
                self.realtime_components.particle_emitter@.contains_key(o) implies match best {
                Some(t) => self.realtime_components.particle_emitter@[o].until_next >= t.2,
                None => false,
            } by {
                assert(keys@.contains(o));
                let k = choose|k: int| 0 <= k < keys@.len() && keys@[k] == o;
            }
        }

        let keys = self.realtime_components.light_colour_fade.keys();
        let mut i: usize = 0;
        while i < keys.len()
            invariant
                i <= keys@.len(),
                forall|k: int|
                    0 <= k < keys@.len()
                        ==> self.realtime_components.light_colour_fade@.contains_key(
                        #[trigger] keys@[k],
                    ),
                forall|o: Entity|
                    self.realtime_components.light_colour_fade@.contains_key(o)
                        ==> keys@.contains(o),
                forall|a: int, b: int|
                    0 <= a < b < keys@.len() ==> keys@[a].index < keys@[b].index,
                forall|o: Entity| #[trigger]
                    self.realtime_components.movement@.contains_key(o) ==> match best {
                        Some(t) => self.realtime_components.movement@[o].until_next >= t.2,
                        None => false,
                    },
                forall|o: Entity| #[trigger]
                    self.realtime_components.fade@.contains_key(o) ==> match best {
                        Some(t) => self.realtime_components.fade@[o].until_next >= t.2,
                        None => false,
                    },
                forall|o: Entity| #[trigger]
                    self.realtime_components.particle_emitter@.contains_key(o) ==> match best {
                        Some(t) => self.realtime_components.particle_emitter@[o].until_next >= t.2,
                        None => false,
                    },
                match best {
                    Some(t) => spec_entry_due(*self, t.0, t.1, t.2) && forall|k: int|
                        0 <= k < i
                            ==> self.realtime_components.light_colour_fade@[#[trigger] keys@[k]].until_next
                            >= t.2,
                    None => i == 0,
                },
            decreases keys@.len() - i,
        {
            let e = keys[i];
            let d = self.realtime_components.light_colour_fade.get(e).unwrap().until_next;
            best = match best {
                Some(t) => if d < t.2 {
                    Some((e, BehaviorKind::LightColourFade, d))
                } else {
                    Some(t)
                },
                None => Some((e, BehaviorKind::LightColourFade, d)),
            };
            i += 1;
        }
        proof {
            assert forall|o: Entity| #[trigger]
                self.realtime_components.light_colour_fade@.contains_key(o) implies match best {
                Some(t) => self.realtime_components.light_colour_fade@[o].until_next >= t.2,
                None => false,
            } by {
                assert(keys@.contains(o));
                let k = choose|k: int| 0 <= k < keys@.len() && keys@[k] == o;
            }
        }

        best
    }

    /// Brings the clock forward: every scheduled entry's delay drops by
    /// `elapsed`, which must not overtake any entry.
    fn advance_clock(&mut self, elapsed: u64)
        requires
            old(self).wf(),
            spec_all_due_at_least(*old(self), elapsed),
        ensures
            final(self).wf(),
            spec_clock_advanced(*old(self), *final(self), elapsed),
    {
        let ghost alloc = self.entity_allocator;
        advance_table_clock(&mut self.realtime_components.movement, elapsed, Ghost(alloc));
        advance_table_clock(&mut self.realtime_components.fade, elapsed, Ghost(alloc));
        advance_table_clock(&mut self.realtime_components.particle_emitter, elapsed, Ghost(alloc));
        advance_table_clock(&mut self.realtime_components.light_colour_fade, elapsed, Ghost(alloc));
    }
}

/// How bringing the clock forward rewrites the world: every scheduled entry
/// keeps its state and loses `elapsed` from its delay; nothing else moves.
pub open spec fn spec_clock_advanced(pre: World, post: World, elapsed: u64) -> bool {
    &&& post == (World { realtime_components: post.realtime_components, ..pre })
    &&& forall|e: Entity|
        #[trigger] post.realtime_components.movement@.contains_key(e)
            == pre.realtime_components.movement@.contains_key(e)
    &&& forall|e: Entity|
        pre.realtime_components.movement@.contains_key(e)
            ==> #[trigger] post.realtime_components.movement@[e] == (Scheduled {
            state: pre.realtime_components.movement@[e].state,
            until_next: (pre.realtime_components.movement@[e].until_next - elapsed) as u64,
        })
    &&& forall|e: Entity|
        #[trigger] post.realtime_components.fade@.contains_key(e)
            == pre.realtime_components.fade@.contains_key(e)
    &&& forall|e: Entity|
        pre.realtime_components.fade@.contains_key(e)
            ==> #[trigger] post.realtime_components.fade@[e] == (Scheduled {
            state: pre.realtime_components.fade@[e].state,
            until_next: (pre.realtime_components.fade@[e].until_next - elapsed) as u64,
        })
    &&& forall|e: Entity|
        #[trigger] post.realtime_components.particle_emitter@.contains_key(e)
            == pre.realtime_components.particle_emitter@.contains_key(e)
    &&& forall|e: Entity|
        pre.realtime_components.particle_emitter@.contains_key(e)
            ==> #[trigger] post.realtime_components.particle_emitter@[e] == (Scheduled {
            state: pre.realtime_components.particle_emitter@[e].state,
            until_next: (pre.realtime_components.particle_emitter@[e].until_next
                - elapsed) as u64,
        })
    &&& forall|e: Entity|
        #[trigger] post.realtime_components.light_colour_fade@.contains_key(e)
            == pre.realtime_components.light_colour_fade@.contains_key(e)
    &&& forall|e: Entity|
        pre.realtime_components.light_colour_fade@.contains_key(e)
            ==> #[trigger] post.realtime_components.light_colour_fade@[e] == (Scheduled {
            state: pre.realtime_components.light_colour_fade@[e].state,
            until_next: (pre.realtime_components.light_colour_fade@[e].until_next
                - elapsed) as u64,
        })
}

/// Some behavior was advanced as the scheduler promises, whatever entry
/// and kind it was.
pub open spec fn spec_stepped_somehow(pre: World, post: World, d: u64) -> bool {
    exists|e: Entity, kind: BehaviorKind, mid: World, ticked: World|
        #[trigger] spec_step_witness(pre, post, e, kind, mid, ticked, d)
}

/// One full scheduler step, witnessed: the chosen entry was due in exactly
/// `d` (the minimum over every entry), the clock advanced by `d`, and a
/// chosen movement was re-armed from its tick and its event applied through
/// the projectile pipeline.
pub open spec fn spec_step_witness(
    pre: World,
    post: World,
    e: Entity,
    kind: BehaviorKind,
    mid: World,
    ticked: World,
    d: u64,
) -> bool {
    &&& spec_entry_due(pre, e, kind, d)
    &&& spec_clock_advanced(pre, mid, d)
    &&& (kind == BehaviorKind::Movement ==> spec_movement_rearmed(mid, ticked, e) && {
        let event = mid.realtime_components.movement@[e].state.spec_tick().0;
        match event {
            Some(dir) => crate::action::spec_move_rel(ticked, post, e, dir),
            None => crate::action::spec_stop_rel(ticked, post, e),
        }
    })
    &&& (kind == BehaviorKind::Fade ==> {
        let progress = mid.realtime_components.fade@[e].state.spec_tick().0;
        match progress {
            FadeProgress::Fading(_) => spec_fade_rearmed(mid, post, e),
            FadeProgress::Complete => {
                &&& spec_fade_stripped(mid, ticked, e)
                &&& if spec_fade_expires(ticked, e) {
                    crate::action::spec_destroyed(ticked, post, e)
                } else {
                    post == ticked
                }
            },
        }
    })
    &&& (kind == BehaviorKind::ParticleEmitter ==> {
        &&& spec_emitter_rearmed(mid, ticked, e)
        &&& if mid.spatial_table@.contains_key(e) {
            exists|p: Entity|
                #[trigger] spec_particle_spawned(
                    ticked,
                    post,
                    p,
                    mid.spatial_table@[e].coord,
                )
        } else {
            post == ticked
        }
    })
    &&& (kind == BehaviorKind::LightColourFade ==> spec_light_fade_stepped(mid, post, e))
}

/// How re-arming a ticked movement rewrites the world: the entry's new
/// state and delay are exactly what its tick returned, and nothing else
/// moves.
pub open spec fn spec_movement_rearmed(mid: World, post: World, e: Entity) -> bool {
    let t = mid.realtime_components.movement@[e].state.spec_tick();
    &&& post == (World { realtime_components: post.realtime_components, ..mid })
    &&& post.realtime_components == (crate::world::RealtimeComponents {
        movement: post.realtime_components.movement,
        ..mid.realtime_components
    })
    &&& post.realtime_components.movement@ == mid.realtime_components.movement@.insert(
        e,
        Scheduled { state: t.2, until_next: t.1 },
    )
}

/// How re-arming a ticked fade rewrites the world while it is still
/// fading: only the fade entry changes, to the ticked state one frame out.
pub open spec fn spec_fade_rearmed(mid: World, post: World, e: Entity) -> bool {
    let t = mid.realtime_components.fade@[e].state.spec_tick();
    &&& post == (World { realtime_components: post.realtime_components, ..mid })
    &&& post.realtime_components == (crate::world::RealtimeComponents {
        fade: post.realtime_components.fade,
        ..mid.realtime_components
    })
    &&& post.realtime_components.fade@ == mid.realtime_components.fade@.insert(
        e,
        Scheduled { state: t.1, until_next: FRAME_MICROS },
    )
}

/// How a completed fade is stripped: only the fade entry goes.
pub open spec fn spec_fade_stripped(mid: World, post: World, e: Entity) -> bool {
    &&& post == (World { realtime_components: post.realtime_components, ..mid })
    &&& post.realtime_components == (crate::world::RealtimeComponents {
        fade: post.realtime_components.fade,
        ..mid.realtime_components
    })
    &&& post.realtime_components.fade@ == mid.realtime_components.fade@.remove(e)
}

/// Whether an entity whose fade just completed expires with it: a pure
/// realtime effect with no other behavior left and no character record.
pub open spec fn spec_fade_expires(w: World, e: Entity) -> bool {
    &&& !w.realtime_components.movement@.contains_key(e)
    &&& !w.realtime_components.particle_emitter@.contains_key(e)
    &&& !w.realtime_components.light_colour_fade@.contains_key(e)
    &&& !w.components.character@.contains_key(e)
    &&& w.components.realtime@.contains_key(e)
}

/// How re-arming a ticked particle emitter rewrites the world: only its
/// entry changes, due again one emission period out.
pub open spec fn spec_emitter_rearmed(mid: World, post: World, e: Entity) -> bool {
    &&& post == (World { realtime_components: post.realtime_components, ..mid })
    &&& post.realtime_components == (crate::world::RealtimeComponents {
        particle_emitter: post.realtime_components.particle_emitter,
        ..mid.realtime_components
    })
    &&& post.realtime_components.particle_emitter@
        == mid.realtime_components.particle_emitter@.insert(
        e,
        Scheduled {
            state: mid.realtime_components.particle_emitter@[e].state,
            until_next: mid.realtime_components.particle_emitter@[e].state.emit_particle_every_period,
        },
    )
}

/// How one emitted particle rewrites the world: a fresh floating effect at
/// the emitter's coordinate with the realtime marker, whose look and
/// behavior (tile, light, fade, drift, second-stage emitter) draw on the
/// injected random source; nothing belonging to any other entity changes.
pub open spec fn spec_particle_spawned(
    pre: World,
    post: World,
    p: Entity,
    coord: crate::geom::Coord,
) -> bool {
    &&& crate::spawner::spec_fresh(pre, post, p)
    &&& post == (World {
        entity_allocator: post.entity_allocator,
        spatial_table: post.spatial_table,
        components: post.components,
        realtime_components: post.realtime_components,
        rng: post.rng,
        ..pre
    })
    &&& post.components == (crate::world::Components {
        realtime: post.components.realtime,
        tile: post.components.tile,
        light: post.components.light,
        ..pre.components
    })
    &&& post.realtime_components == (crate::world::RealtimeComponents {
        fade: post.realtime_components.fade,
        movement: post.realtime_components.movement,
        particle_emitter: post.realtime_components.particle_emitter,
        ..pre.realtime_components
    })
    &&& post.spatial_table@ == pre.spatial_table@.insert(
        p,
        crate::spatial::Location { coord, layer: None },
    )
    &&& post.spatial_table.spec_width() == pre.spatial_table.spec_width()
    &&& post.spatial_table.spec_height() == pre.spatial_table.spec_height()
    &&& post.components.realtime@ == pre.components.realtime@.insert(p, ())
    &&& forall|o: Entity|
        o != p ==> #[trigger] post.components.tile@.contains_key(o)
            == pre.components.tile@.contains_key(o) && (pre.components.tile@.contains_key(o)
            ==> post.components.tile@[o] == pre.components.tile@[o])
    &&& forall|o: Entity|
        o != p ==> #[trigger] post.components.light@.contains_key(o)
            == pre.components.light@.contains_key(o) && (pre.components.light@.contains_key(o)
            ==> post.components.light@[o] == pre.components.light@[o])
    &&& forall|o: Entity|
        o != p ==> #[trigger] post.realtime_components.fade@.contains_key(o)
            == pre.realtime_components.fade@.contains_key(o) && (
        pre.realtime_components.fade@.contains_key(o)
            ==> post.realtime_components.fade@[o] == pre.realtime_components.fade@[o])
    &&& forall|o: Entity|
        o != p ==> #[trigger] post.realtime_components.movement@.contains_key(o)
            == pre.realtime_components.movement@.contains_key(o) && (
        pre.realtime_components.movement@.contains_key(o)
            ==> post.realtime_components.movement@[o] == pre.realtime_components.movement@[o])
    &&& forall|o: Entity|
        o != p ==> #[trigger] post.realtime_components.particle_emitter@.contains_key(o)
            == pre.realtime_components.particle_emitter@.contains_key(o) && (
        pre.realtime_components.particle_emitter@.contains_key(o)
            ==> post.realtime_components.particle_emitter@[o]
            == pre.realtime_components.particle_emitter@[o])
}

/// How re-arming a ticked light colour fade rewrites the world: while it
/// still runs, the carried light takes the ticked colour and the entry is
/// due a frame out; a completed fade's entry goes, and nothing else moves.
pub open spec fn spec_light_fade_stepped(mid: World, post: World, e: Entity) -> bool {
    let t = mid.realtime_components.light_colour_fade@[e].state.spec_tick();
    match t.0 {
        LightColourEvent::Complete => {
            &&& post == (World { realtime_components: post.realtime_components, ..mid })
            &&& post.realtime_components == (crate::world::RealtimeComponents {
                light_colour_fade: post.realtime_components.light_colour_fade,
                ..mid.realtime_components
            })
            &&& post.realtime_components.light_colour_fade@
                == mid.realtime_components.light_colour_fade@.remove(e)
        },
        LightColourEvent::Colour(colour) => {
            &&& post == (World {
                components: post.components,
                realtime_components: post.realtime_components,
                ..mid
            })
            &&& post.components == (crate::world::Components {
                light: post.components.light,
                ..mid.components
            })
            &&& post.components.light@ == (if mid.components.light@.contains_key(e) {
                mid.components.light@.insert(
                    e,
                    Light { colour, ..mid.components.light@[e] },
                )
            } else {
                mid.components.light@
            })
            &&& post.realtime_components == (crate::world::RealtimeComponents {
                light_colour_fade: post.realtime_components.light_colour_fade,
                ..mid.realtime_components
            })
            &&& post.realtime_components.light_colour_fade@
                == mid.realtime_components.light_colour_fade@.insert(
                e,
                Scheduled { state: t.1, until_next: FRAME_MICROS },
            )
        },
    }
}

impl World {
    /// Feeds a movement tick's event back into the action pipeline: a step
    /// moves the projectile, an exhausted path stops it.
    pub fn apply_movement_event(&mut self, entity: Entity, event: Option<Direction>)
        requires
            old(self).wf(),
        ensures
            final(self).wf(),
            match event {
                Some(direction) => crate::action::spec_move_rel(
                    *old(self),
                    *final(self),
                    entity,
                    direction,
                ),
                None => crate::action::spec_stop_rel(*old(self), *final(self), entity),
            },
    {
        match event {
            None => self.projectile_stop(entity),
            Some(direction) => self.projectile_move(entity, direction),
        }
    }

    /// Spawns one particle of an emitter's specification: a floating effect
    /// that may carry a tile, drift in a random direction, fade out, glow,
    /// and seed a second-stage emitter.
    fn spawn_particle(&mut self, coord: crate::geom::Coord, spec: ParticleSpec, fade_out: Option<
        u64,
    >) -> (e: Entity)
        requires
            old(self).wf(),
            old(self).spatial_table.in_bounds(coord),
            spec.wf(),
        ensures
            final(self).wf(),
            spec_particle_spawned(*old(self), *final(self), e, coord),
    {
        let e = self.place_new_entity(Location { coord, layer: None });
        self.components.realtime.insert(e, ());
        proof {
            lemma_table_insert_view(
                self.entity_allocator,
                old(self).components.realtime@,
                self.components.realtime@,
                e,
                (),
            );
        }
        if let Some(tile) = spec.tile {
            let ghost before = self.components.tile@;
            self.components.tile.insert(e, tile);
            proof {
                lemma_table_insert_view(
                    self.entity_allocator,
                    before,
                    self.components.tile@,
                    e,
                    tile,
                );
            }
        }
        let fade_duration: Option<u64> = match spec.fade_duration {
            Some(d) => Some(d),
            None => fade_out,
        };
        if let Some(duration) = fade_duration {
            let ghost before = self.realtime_components.fade@;
            self.realtime_components.fade.insert(
                e,
                Scheduled { state: FadeState::new(duration), until_next: 1 },
            );
            proof {
                lemma_table_insert_view(
                    self.entity_allocator,
                    before,
                    self.realtime_components.fade@,
                    e,
                    Scheduled { state: FadeState { total: duration, elapsed: 0 }, until_next: 1u64 },
                );
            }
        }
        if let Some(movement) = spec.movement {
            let step = self.rng.range_inclusive(movement.min_period, movement.max_period);
            let dir = random_direction(&mut self.rng);
            let order = Movement {
                path: dir.coord(),
                repeat: Repeat::Forever,
                cardinal_step_duration: step,
            };
            let ghost before = self.realtime_components.movement@;
            let state = order.build();
            self.realtime_components.movement.insert(e, Scheduled { state, until_next: 1 });
            proof {
                lemma_table_insert_view(
                    self.entity_allocator,
                    before,
                    self.realtime_components.movement@,
                    e,
                    Scheduled { state, until_next: 1u64 },
                );
            }
        }
        if let Some(possible_light) = spec.possible_light {
            let draw = self.rng.below_rational(possible_light.chance);
            if draw {
                let ghost before = self.components.light@;
                self.components.light.insert(e, possible_light.light);
                proof {
                    lemma_table_insert_view(
                        self.entity_allocator,
                        before,
                        self.components.light@,
                        e,
                        possible_light.light,
                    );
                }
            }
        }
        if let Some(possible_emitter) = spec.possible_particle_emitter {
            let draw = self.rng.below_rational(possible_emitter.chance);
            if draw {
                let child = possible_emitter.emitter;
                let state = ParticleEmitterState {
                    emit_particle_every_period: child.emit_period,
                    fade_out_duration: None,
                    particle: ParticleSpec {
                        tile: None,
                        movement: Some(
                            crate::particle::ParticleMovementSpec {
                                min_period: child.min_period,
                                max_period: child.max_period,
                            },
                        ),
                        fade_duration: Some(child.particle_fade_duration),
                        colour_hint: None,
                        possible_light: None,
                        possible_particle_emitter: None,
                    },
                };
                let ghost before = self.realtime_components.particle_emitter@;
                self.realtime_components.particle_emitter.insert(
                    e,
                    Scheduled { state, until_next: 1 },
                );
                proof {
                    lemma_table_insert_view(
                        self.entity_allocator,
                        before,
                        self.realtime_components.particle_emitter@,
                        e,
                        Scheduled { state, until_next: 1u64 },
                    );
                }
            }
        }
        e
    }

    /// Advances the single soonest-due behavior: brings the clock forward
    /// to its due time, ticks it, re-arms or retires it, and applies its
    /// event.  Returns the elapsed simulated time, or `None` when nothing
    /// realtime remains.
    #[verifier::rlimit(60)]
    pub fn realtime_step(&mut self) -> (r: Option<u64>)
        requires
            old(self).wf(),
        ensures
            final(self).wf(),
            match r {
                None => spec_no_realtime(*old(self)) && *final(self) == *old(self),
                // the advanced behavior was the soonest due — no entry was
                // scheduled earlier — and an in-flight movement is ticked
                // exactly once with its step fed into the projectile
                // pipeline
                Some(d) => spec_all_due_at_least(*old(self), d) && spec_stepped_somehow(
                    *old(self),
                    *final(self),
                    d,
                ),
            },
    {
        let (entity, kind, delay) = match self.next_due() {
            Some(t) => t,
            None => {
                return None;
            },
        };
        self.advance_clock(delay);
        let ghost mid = *self;
        let ghost mut rearmed_witness = mid;
        match kind {
            BehaviorKind::Movement => {
                let sched = *self.realtime_components.movement.get(entity).unwrap();
                let mut state = sched.state;
                let (event, next_delay) = state.tick();
                let ghost before = self.realtime_components.movement@;
                self.realtime_components.movement.insert(
                    entity,
                    Scheduled { state, until_next: next_delay },
                );
                proof {
                    lemma_table_insert_view(
                        self.entity_allocator,
                        before,
                        self.realtime_components.movement@,
                        entity,
                        Scheduled { state, until_next: next_delay },
                    );
                    assert(spec_movement_rearmed(mid, *self, entity));
                }
                let ghost rearmed = *self;
                proof {
                    rearmed_witness = rearmed;
                }
                self.apply_movement_event(entity, event);
                proof {
                    assert(event == mid.realtime_components.movement@[entity].state.spec_tick().0);
                    assert(spec_movement_rearmed(mid, rearmed, entity));
                    match event {
                        Some(dir) => {
                            assert(crate::action::spec_move_rel(rearmed, *self, entity, dir));
                        },
                        None => {
                            assert(crate::action::spec_stop_rel(rearmed, *self, entity));
                        },
                    }
                }
            },
            BehaviorKind::Fade => {
                let sched = *self.realtime_components.fade.get(entity).unwrap();
                let mut state = sched.state;
                let progress = state.tick();
                proof {
                    assert(progress == mid.realtime_components.fade@[entity].state.spec_tick().0);
                }
                match progress {
                    FadeProgress::Complete => {
                        // the fade has run its course; a pure effect
                        // entity expires with it
                        self.realtime_components.fade.remove(entity);
                        let ghost stripped = *self;
                        proof {
                            rearmed_witness = stripped;
                            assert(spec_fade_stripped(mid, stripped, entity));
                        }
                        let expires = !self.realtime_components.movement.contains(entity)
                            && !self.realtime_components.particle_emitter.contains(entity)
                            && !self.realtime_components.light_colour_fade.contains(entity)
                            && !self.components.character.contains(entity)
                            && self.components.realtime.contains(entity);
                        if expires {
                            self.destroy_entity(entity);
                            proof {
                                assert(crate::action::spec_destroyed(stripped, *self, entity));
                            }
                        }
                    },
                    FadeProgress::Fading(_) => {
                        let ghost before = self.realtime_components.fade@;
                        self.realtime_components.fade.insert(
                            entity,
                            Scheduled { state, until_next: FRAME_MICROS },
                        );
                        proof {
                            lemma_table_insert_view(
                                self.entity_allocator,
                                before,
                                self.realtime_components.fade@,
                                entity,
                                Scheduled { state, until_next: FRAME_MICROS },
                            );
                            assert(spec_fade_rearmed(mid, *self, entity));
                        }
                    },
                }
            },
            BehaviorKind::ParticleEmitter => {
                let sched = *self.realtime_components.particle_emitter.get(entity).unwrap();
                let state = sched.state;
                let ghost before = self.realtime_components.particle_emitter@;
                self.realtime_components.particle_emitter.insert(
                    entity,
                    Scheduled { state, until_next: state.emit_particle_every_period },
                );
                let ghost rearmed = *self;
                proof {
                    lemma_table_insert_view(
                        self.entity_allocator,
                        before,
                        self.realtime_components.particle_emitter@,
                        entity,
                        Scheduled { state, until_next: state.emit_particle_every_period },
                    );
                    rearmed_witness = rearmed;
                    assert(spec_emitter_rearmed(mid, rearmed, entity));
                }
                if let Some(coord) = self.spatial_table.coord_of(entity) {
                    proof {
                        self.spatial_table.lemma_located_in_bounds(entity);
                        assert(coord == mid.spatial_table@[entity].coord);
                    }
                    let particle = self.spawn_particle(coord, state.particle, state.fade_out_duration);
                    proof {
                        assert(spec_particle_spawned(rearmed, *self, particle, coord));
                    }
                }
            },
            BehaviorKind::LightColourFade => {
                let sched = *self.realtime_components.light_colour_fade.get(entity).unwrap();
                let mut state = sched.state;
                let event = state.tick();
                proof {
                    assert(event
                        == mid.realtime_components.light_colour_fade@[entity].state.spec_tick().0);
                }
                match event {
                    LightColourEvent::Complete => {
                        self.realtime_components.light_colour_fade.remove(entity);
                        proof {
                            assert(spec_light_fade_stepped(mid, *self, entity));
                        }
                    },
                    LightColourEvent::Colour(colour) => {
                        let light_opt = match self.components.light.get(entity) {
                            Some(l) => Some(*l),
                            None => None,
                        };
                        if let Some(light) = light_opt {
                            let ghost before = self.components.light@;
                            self.components.light.insert(entity, Light { colour, ..light });
                            proof {
                                lemma_table_insert_view(
                                    self.entity_allocator,
                                    before,
                                    self.components.light@,
                                    entity,
                                    Light { colour, ..light },
                                );
                            }
                        }
                        let ghost before = self.realtime_components.light_colour_fade@;
                        self.realtime_components.light_colour_fade.insert(
                            entity,
                            Scheduled { state, until_next: FRAME_MICROS },
                        );
                        proof {
                            lemma_table_insert_view(
                                self.entity_allocator,
                                before,
                                self.realtime_components.light_colour_fade@,
                                entity,
                                Scheduled { state, until_next: FRAME_MICROS },
                            );
                            assert(spec_light_fade_stepped(mid, *self, entity));
                        }
                    },
                }
            },
        }
        proof {
            assert(spec_step_witness(
                *old(self),
                *self,
                entity,
                kind,
                mid,
                rearmed_witness,
                delay,
            ));
            assert(spec_stepped_somehow(*old(self), *self, delay));
        }
        Some(delay)
    }

    /// Drains the realtime queue: advances soonest-due behaviors until
    /// nothing realtime remains, nothing is due inside the frame budget, or
    /// the budget is spent.  Every advance is charged at least one
    /// microsecond, so a frame can never stall the host loop.  The
    /// post-state is reached from the pre-state by a chain of scheduler
    /// steps within the budget.
    pub fn animation_tick(&mut self, frame_budget: u64)
        requires
            old(self).wf(),
        ensures
            final(self).wf(),
            exists|fuel: nat|
                #[trigger] spec_drained(*old(self), *final(self), frame_budget, fuel),
        decreases frame_budget,
    {
        let due = match self.next_due() {
            Some(t) => t.2,
            None => {
                proof {
                    assert(spec_nothing_due_within(*self, frame_budget));
                    assert(spec_drained(*old(self), *self, frame_budget, 0));
                }
                return ;
            },
        };
        if due > frame_budget {
            proof {
                assert(spec_nothing_due_within(*self, frame_budget));
                assert(spec_drained(*old(self), *self, frame_budget, 0));
            }
            return ;
        }
        if frame_budget == 0 {
            proof {
                assert(spec_drained(*old(self), *self, frame_budget, 0));
            }
            return ;
        }
        let d = match self.realtime_step() {
            Some(d) => d,
            None => {
                // the queue held a due entry, so a step was available
                proof {
                    assert(false);
                }
                0
            },
        };
        let ghost mid = *self;
        proof {
            // the step advanced by exactly the peeked minimum
            let (e, kind, m, t) = choose|e: Entity, kind: BehaviorKind, m: World, t: World|
                spec_step_witness(*old(self), mid, e, kind, m, t, d);
            assert(spec_entry_due(*old(self), e, kind, d));
            assert(d == due);
        }
        let charge: u64 = if d > 0 {
            d
        } else {
            1
        };
        let next: u64 = if charge >= frame_budget {
            0
        } else {
            frame_budget - charge
        };
        proof {
            assert(next == spec_next_budget(frame_budget, d));
            assert(next < frame_budget);
        }
        self.animation_tick(next);
        proof {
            let fuel = choose|fuel: nat| spec_drained(mid, *self, next, fuel);
            assert(spec_drained(*old(self), *self, frame_budget, fuel + 1));
        }
    }
}

/// No scheduled entry is due within the given budget.
pub open spec fn spec_nothing_due_within(w: World, remaining: u64) -> bool {
    &&& forall|e: Entity|
        #[trigger] w.realtime_components.movement@.contains_key(e)
            ==> w.realtime_components.movement@[e].until_next > remaining
    &&& forall|e: Entity|
        #[trigger] w.realtime_components.fade@.contains_key(e)
            ==> w.realtime_components.fade@[e].until_next > remaining
    &&& forall|e: Entity|
        #[trigger] w.realtime_components.particle_emitter@.contains_key(e)
            ==> w.realtime_components.particle_emitter@[e].until_next > remaining
    &&& forall|e: Entity|
        #[trigger] w.realtime_components.light_colour_fade@.contains_key(e)
            ==> w.realtime_components.light_colour_fade@[e].until_next > remaining
}

/// The frame budget left after one advance of `d` simulated microseconds:
/// every advance is charged at least one microsecond.
pub open spec fn spec_next_budget(remaining: u64, d: u64) -> u64 {
    let charge: u64 = if d == 0 {
        1u64
    } else {
        d
    };
    if charge >= remaining {
        0u64
    } else {
        (remaining - charge) as u64
    }
}

/// How a drain rewrites the world: either it is already finished — the
/// budget is spent or nothing is due within it — and nothing changes, or
/// one scheduler step of some due delay within the budget runs and the
/// drain goes on with the reduced budget.
pub open spec fn spec_drained(pre: World, post: World, remaining: u64, fuel: nat) -> bool
    decreases fuel,
{
    ||| (post == pre && (remaining == 0 || spec_nothing_due_within(pre, remaining)))
    ||| (fuel > 0 && exists|mid: World, d: u64|
        {
            &&& #[trigger] spec_stepped_somehow(pre, mid, d)
            &&& spec_all_due_at_least(pre, d)
            &&& d <= remaining
            &&& spec_drained(mid, post, spec_next_budget(remaining, d), (fuel - 1) as nat)
        })
}

/// A uniformly drawn compass direction.
fn random_direction(rng: &mut crate::rng::Rng) -> (d: Direction)
{
    match rng.below(8) {
        0 => Direction::North,
        1 => Direction::NorthEast,
        2 => Direction::East,
        3 => Direction::SouthEast,
        4 => Direction::South,
        5 => Direction::SouthWest,
        6 => Direction::West,
        _ => Direction::NorthWest,
    }
}

/// Lowers every scheduled delay of one behavior table by `elapsed`.
fn advance_table_clock<T: Copy>(
    table: &mut crate::table::ComponentTable<Scheduled<T>>,
    elapsed: u64,
    alloc: Ghost<crate::entity::EntityAllocator>,
)
    requires
        crate::world::keys_live(old(table)@, alloc@),
        forall|e: Entity|
            #[trigger] old(table)@.contains_key(e) ==> old(table)@[e].until_next >= elapsed,
    ensures
        crate::world::keys_live(final(table)@, alloc@),
        forall|e: Entity|
            #[trigger] final(table)@.contains_key(e) == old(table)@.contains_key(e),
        forall|e: Entity|
            old(table)@.contains_key(e) ==> #[trigger] final(table)@[e] == (Scheduled {
                state: old(table)@[e].state,
                until_next: (old(table)@[e].until_next - elapsed) as u64,
            }),
{
    let keys = table.keys();
    let mut i: usize = 0;
    while i < keys.len()
        invariant
            crate::world::keys_live(table@, alloc@),
            i <= keys@.len(),
            forall|k: int|
                0 <= k < keys@.len() ==> old(table)@.contains_key(#[trigger] keys@[k]),
            forall|o: Entity| old(table)@.contains_key(o) ==> keys@.contains(o),
            forall|a: int, b: int|
                0 <= a < b < keys@.len() ==> keys@[a].index < keys@[b].index,
            forall|e: Entity|
                #[trigger] old(table)@.contains_key(e) ==> old(table)@[e].until_next >= elapsed,
            forall|e: Entity|
                #[trigger] table@.contains_key(e) == old(table)@.contains_key(e),
            forall|e: Entity|
                old(table)@.contains_key(e) ==> #[trigger] table@[e] == (
                if crate::action::spec_in_prefix(keys@, i as int, e) {
                    Scheduled {
                        state: old(table)@[e].state,
                        until_next: (old(table)@[e].until_next - elapsed) as u64,
                    }
                } else {
                    old(table)@[e]
                }),
        decreases keys@.len() - i,
    {
        let e = keys[i];
        proof {
            assert forall|j: int| 0 <= j < i implies keys@[j] != e by {
                assert(keys@[j].index < keys@[i as int].index);
            }
            assert(!crate::action::spec_in_prefix(keys@, i as int, e));
        }
        let sched = *table.get(e).unwrap();
        let ghost before = table@;
        table.insert(e, Scheduled { state: sched.state, until_next: sched.until_next - elapsed });
        proof {
            lemma_table_insert_view(
                alloc@,
                before,
                table@,
                e,
                Scheduled {
                    state: old(table)@[e].state,
                    until_next: (old(table)@[e].until_next - elapsed) as u64,
                },
            );
            assert forall|o: Entity| #[trigger]
                crate::action::spec_in_prefix(keys@, i + 1, o) == (crate::action::spec_in_prefix(
                keys@,
                i as int,
                o,
            ) || o == e) by {
                if crate::action::spec_in_prefix(keys@, i + 1, o) {
                    let j = choose|j: int| 0 <= j < i + 1 && keys@[j] == o;
                    if j == i {
                        assert(o == e);
                    }
                }
                if o == e {
                    assert(keys@[i as int] == o);
                }
            }
        }
        i += 1;
    }
    proof {
        assert forall|e: Entity| old(table)@.contains_key(e) implies
            crate::action::spec_in_prefix(keys@, keys@.len() as int, e) by {
            assert(keys@.contains(e));
        }
    }
}

} // verus!
