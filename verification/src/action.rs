//! The action pipeline: turn-scoped operations that mutate the world in
//! response to a single actor's intent.
//!
//! Damage resolution follows the armour rule: a hit whose penetration does
//! not exceed the armour value deals no damage; a melee hit then simply
//! fizzles, while a fully absorbed projectile is removed.

use crate::data::Player;
use crate::entity::Entity;
use crate::geom::{CardinalDirection, Coord, Direction};
use crate::realtime::{Movement, MovementState, Repeat};
use crate::spatial::{Layer, Location};
use crate::stats::HitPoints;
use crate::weapon::{Ammo, ExplosionSpec, OnCollision, ProjectileDamage, Weapon};
use crate::world::{
    lemma_table_insert_view, spec_components_removed, Components, RealtimeComponents, Scheduled,
    World,
};
use vstd::prelude::*;

verus! {

/// How many cells a knockback pushes its victim.
pub const KNOCKBACK: usize = 3;

/// One knockback step of a melee hit lasts this long, in microseconds.
pub const MELEE_KNOCKBACK_STEP_MICROS: u64 = 50_000;

/// One knockback step of a projectile push-back lasts this long, in
/// microseconds.
pub const PROJECTILE_KNOCKBACK_STEP_MICROS: u64 = 100_000;

/// Whether a hit with the given penetration gets through the given armour:
/// penetration must exceed the armour value.
pub open spec fn spec_penetrates(pen: u32, armour: u32) -> bool {
    pen > armour
}

/// Hit points after losing `amount`, clamped at zero.
pub open spec fn spec_damaged_hp(hp: HitPoints, amount: u32) -> HitPoints {
    if amount >= hp.current {
        HitPoints { current: 0, max: hp.max }
    } else {
        HitPoints { current: (hp.current - amount) as u32, max: hp.max }
    }
}

/// Whether losing `amount` kills a character with hit points `hp`.
pub open spec fn spec_damage_kills(hp: HitPoints, amount: u32) -> bool {
    amount >= hp.current
}

/// A melee weapon after its ammunition is spent by one swing, and whether
/// the swing used it up.
pub open spec fn spec_melee_ammo_spent(w: Weapon) -> (Weapon, bool) {
    match w.ammo {
        Some(ammo) => {
            let current = if ammo.current == 0 {
                0
            } else {
                (ammo.current - 1) as u32
            };
            (
                Weapon { ammo: Some(Ammo { current, max: ammo.max }), ..w },
                current == 0,
            )
        },
        None => (w, false),
    }
}

/// The movement state of a knockback: a fixed number of steps along the
/// hit's unit displacement at the given step duration.
pub open spec fn spec_knockback_state(path: Coord, step_micros: u64) -> MovementState {
    MovementState {
        path: (Movement {
            path,
            repeat: Repeat::Steps(KNOCKBACK),
            cardinal_step_duration: step_micros,
        }).spec_initial_path(),
        cardinal_step_duration: step_micros,
        ordinal_step_duration: crate::realtime::spec_ordinal_duration(step_micros) as u64,
    }
}

/// How `damage_character` rewrites the hit-point and death tables: nothing
/// for an already-dead character, otherwise a clamped hit-point loss with
/// the death marker set exactly when the loss reaches zero hit points.
pub open spec fn spec_damage_tables(
    pre: World,
    post: World,
    character: Entity,
    amount: u32,
) -> bool {
    if pre.components.dead@.contains_key(character) {
        &&& post.components.hp@ == pre.components.hp@
        &&& post.components.dead@ == pre.components.dead@
    } else {
        &&& post.components.hp@ == pre.components.hp@.insert(
            character,
            spec_damaged_hp(pre.components.hp@[character], amount),
        )
        &&& post.components.dead@ == (if spec_damage_kills(
            pre.components.hp@[character],
            amount,
        ) {
            pre.components.dead@.insert(character, ())
        } else {
            pre.components.dead@
        })
    }
}

/// How a player's melee swing rewrites the world's tables.  The melee
/// weapon spends one round of finite ammunition and reverts to bare hands
/// when that uses it up; the victim takes the weapon's damage exactly when
/// its penetration exceeds the victim's armour; and a knockback weapon sets
/// the victim moving three cardinal steps along the hit's direction.
pub open spec fn spec_melee_tables(
    pre: World,
    post: World,
    attacker: Entity,
    victim: Entity,
    direction: CardinalDirection,
) -> bool {
    let p = pre.components.player@[attacker];
    let spent = spec_melee_ammo_spent(p.melee_weapon);
    let melee_final = if spent.1 {
        Weapon::spec_bare_hands()
    } else {
        spent.0
    };
    &&& post.components.player@ == pre.components.player@.insert(
        attacker,
        Player { melee_weapon: melee_final, ..p },
    )
    &&& (if spec_penetrates(p.melee_weapon.pen, pre.components.armour@[victim].value) {
        spec_damage_tables(pre, post, victim, p.melee_weapon.dmg)
    } else {
        post.components.hp@ == pre.components.hp@ && post.components.dead@
            == pre.components.dead@
    })
    &&& (if p.melee_weapon.abilities.knock_back {
        &&& post.components.pushed_from@ == pre.components.pushed_from@.insert(
            victim,
            pre.spatial_table@[victim].coord,
        )
        &&& post.components.realtime@ == pre.components.realtime@.insert(victim, ())
        &&& post.realtime_components.movement@ == pre.realtime_components.movement@.insert(
            victim,
            Scheduled {
                state: spec_knockback_state(direction.spec_coord(), MELEE_KNOCKBACK_STEP_MICROS),
                until_next: 1,
            },
        )
    } else {
        &&& post.components.pushed_from@ == pre.components.pushed_from@
        &&& post.components.realtime@ == pre.components.realtime@
        &&& post.realtime_components.movement@ == pre.realtime_components.movement@
    })
    &&& post.realtime_components.fade@ == pre.realtime_components.fade@
    &&& post.realtime_components.particle_emitter@ == pre.realtime_components.particle_emitter@
    &&& post.realtime_components.light_colour_fade@
        == pre.realtime_components.light_colour_fade@
}

/// Hit points after healing by `amount`, clamped at the maximum.
pub open spec fn spec_healed_hp(hp: HitPoints, amount: u32) -> HitPoints {
    if hp.current + amount > hp.max {
        HitPoints { current: hp.max, max: hp.max }
    } else {
        HitPoints { current: (hp.current + amount) as u32, max: hp.max }
    }
}

/// How a projectile hit rewrites the world.  Nothing happens to an
/// unarmoured target; an armoured target is damaged exactly when the
/// projectile's penetration exceeds its armour, in which case a
/// life-stealing projectile heals the player by the hit points actually
/// lost, a push-back projectile knocks the victim three steps along its
/// direction, and the projectile continues with its penetration reduced by
/// the armour's value; otherwise the projectile is absorbed and loses every
/// component.
pub open spec fn spec_apply_projectile_rel(
    pre: World,
    post: World,
    projectile: Entity,
    pd: ProjectileDamage,
    direction: Direction,
    victim: Entity,
) -> bool {
    if !pre.components.armour@.contains_key(victim) {
        post == pre
    } else {
        let armour = pre.components.armour@[victim].value;
        if spec_penetrates(pd.pen, armour) {
            let victim_health = if pre.components.hp@.contains_key(victim) {
                pre.components.hp@[victim].current
            } else {
                0
            };
            let actual = if pd.hit_points < victim_health {
                pd.hit_points
            } else {
                victim_health as u32
            };
            let hp_damaged = if pre.components.dead@.contains_key(victim) {
                pre.components.hp@
            } else {
                pre.components.hp@.insert(
                    victim,
                    spec_damaged_hp(pre.components.hp@[victim], pd.hit_points),
                )
            };
            let hp_healed = if pd.life_steal && pre.player_entity is Some
                && hp_damaged.contains_key(pre.player_entity->Some_0) {
                hp_damaged.insert(
                    pre.player_entity->Some_0,
                    spec_healed_hp(hp_damaged[pre.player_entity->Some_0], actual),
                )
            } else {
                hp_damaged
            };
            &&& post.components.hp@ == hp_healed
            &&& post.components.dead@ == (if !pre.components.dead@.contains_key(victim)
                && spec_damage_kills(pre.components.hp@[victim], pd.hit_points) {
                pre.components.dead@.insert(victim, ())
            } else {
                pre.components.dead@
            })
            &&& (if pd.push_back {
                &&& post.components.realtime@ == pre.components.realtime@.insert(victim, ())
                &&& post.realtime_components.movement@
                    == pre.realtime_components.movement@.insert(
                    victim,
                    Scheduled {
                        state: spec_knockback_state(
                            direction.spec_coord(),
                            PROJECTILE_KNOCKBACK_STEP_MICROS,
                        ),
                        until_next: 1,
                    },
                )
            } else {
                &&& post.components.realtime@ == pre.components.realtime@
                &&& post.realtime_components.movement@ == pre.realtime_components.movement@
            })
            &&& post.components.projectile_damage@ == pre.components.projectile_damage@.insert(
                projectile,
                ProjectileDamage { pen: (pd.pen - armour) as u32, ..pd },
            )
            &&& post == (World {
                components: post.components,
                realtime_components: post.realtime_components,
                ..pre
            })
            &&& post.components == (Components {
                hp: post.components.hp,
                dead: post.components.dead,
                realtime: post.components.realtime,
                projectile_damage: post.components.projectile_damage,
                ..pre.components
            })
            &&& post.realtime_components == (crate::world::RealtimeComponents {
                movement: post.realtime_components.movement,
                ..pre.realtime_components
            })
        } else {
            &&& post == (World { components: post.components, ..pre })
            &&& spec_components_removed(pre.components, post.components, projectile)
        }
    }
}

/// Whether `k` occurs among the first `i` elements of `ks`.
pub open spec fn spec_in_prefix(ks: Seq<Entity>, i: int, k: Entity) -> bool {
    exists|j: int| 0 <= j < i && ks[j] == k
}

/// Whether the blast at `coord` with squared radius `radius2` reaches the
/// character `k`: a located character within the radius.
pub open spec fn spec_blast_hit(pre: World, coord: Coord, radius2: u32, k: Entity) -> bool {
    &&& pre.components.character@.contains_key(k)
    &&& pre.spatial_table@.contains_key(k)
    &&& pre.spatial_table@[k].coord.spec_distance2(coord) <= radius2
}

/// How an explosion rewrites the world: its emitter entity appears as a
/// fresh floating effect, and every living character within the blast's
/// squared radius loses the blast's strength in hit points, dying when that
/// reaches zero.  Dead characters are untouched.
pub open spec fn spec_exploded(
    pre: World,
    post: World,
    coord: Coord,
    spec: ExplosionSpec,
    emitter: Entity,
) -> bool {
    &&& post == (World {
        entity_allocator: post.entity_allocator,
        spatial_table: post.spatial_table,
        components: post.components,
        realtime_components: post.realtime_components,
        ..pre
    })
    &&& post.components == (Components {
        realtime: post.components.realtime,
        light: post.components.light,
        hp: post.components.hp,
        dead: post.components.dead,
        ..pre.components
    })
    &&& post.spatial_table@ == pre.spatial_table@.insert(
        emitter,
        Location { coord, layer: None },
    )
    &&& post.components.realtime@ == pre.components.realtime@.insert(emitter, ())
    &&& post.realtime_components.movement@ == pre.realtime_components.movement@
    &&& post.realtime_components.fade@ == pre.realtime_components.fade@.insert(
        emitter,
        Scheduled {
            state: crate::realtime::FadeState { total: spec.particle_emitter.duration, elapsed: 0 },
            until_next: 1,
        },
    )
    &&& post.realtime_components.particle_emitter@
        == pre.realtime_components.particle_emitter@.insert(
        emitter,
        Scheduled {
            state: crate::spawner::spec_explosion_emitter(spec.particle_emitter),
            until_next: 1,
        },
    )
    &&& post.components.light@ == pre.components.light@.insert(
        emitter,
        crate::spawner::spec_explosion_light(),
    )
    &&& post.realtime_components.light_colour_fade@
        == pre.realtime_components.light_colour_fade@.insert(
        emitter,
        Scheduled {
            state: crate::realtime::LightColourFadeState {
                fade_state: crate::realtime::FadeState {
                    total: spec.particle_emitter.fade_duration,
                    elapsed: 0,
                },
                from: crate::data::Rgb24 { r: 255, g: 187, b: 63 },
                to: crate::data::Rgb24 { r: 0, g: 0, b: 0 },
            },
            until_next: 1,
        },
    )
    &&& forall|k: Entity|
        #[trigger] post.components.hp@.contains_key(k) == pre.components.hp@.contains_key(k)
    &&& forall|k: Entity|
        pre.components.hp@.contains_key(k) ==> #[trigger] post.components.hp@[k] == (
        if spec_blast_hit(pre, coord, spec.mechanics, k) && !pre.components.dead@.contains_key(
            k,
        ) {
            spec_damaged_hp(pre.components.hp@[k], spec.mechanics)
        } else {
            pre.components.hp@[k]
        })
    &&& forall|k: Entity|
        #[trigger] post.components.dead@.contains_key(k) == (pre.components.dead@.contains_key(k)
            || (spec_blast_hit(pre, coord, spec.mechanics, k)
            && pre.components.hp@.contains_key(k) && !pre.components.dead@.contains_key(k)
            && spec_damage_kills(pre.components.hp@[k], spec.mechanics)))
}

/// How destroying an entity rewrites the world: every component, realtime
/// component and the spatial mapping are removed, and the identifier is
/// released, never to be live again.
pub open spec fn spec_destroyed(pre: World, post: World, e: Entity) -> bool {
    &&& post == (World {
        entity_allocator: post.entity_allocator,
        components: post.components,
        realtime_components: post.realtime_components,
        spatial_table: post.spatial_table,
        ..pre
    })
    &&& spec_components_removed(pre.components, post.components, e)
    &&& post.realtime_components.movement@ == pre.realtime_components.movement@.remove(e)
    &&& post.realtime_components.fade@ == pre.realtime_components.fade@.remove(e)
    &&& post.realtime_components.particle_emitter@
        == pre.realtime_components.particle_emitter@.remove(e)
    &&& post.realtime_components.light_colour_fade@
        == pre.realtime_components.light_colour_fade@.remove(e)
    &&& post.spatial_table@ == pre.spatial_table@.remove(e)
    &&& !post.entity_allocator.spec_exists(e)
    &&& forall|o: Entity|
        o.index != e.index ==> post.entity_allocator.spec_exists(o)
            == pre.entity_allocator.spec_exists(o)
}

/// How stopping a projectile rewrites the world.  A located projectile
/// resolves its collision behavior: plain removal destroys the entity, a
/// realtime-only removal strips its realtime components, and an explosion
/// detonates at the projectile's coordinate before the entity is destroyed.
/// In every case the projectile's realtime marker and in-flight movement are
/// gone afterwards.
pub open spec fn spec_stop_rel(pre: World, post: World, e: Entity) -> bool {
    if pre.spatial_table@.contains_key(e) && pre.components.on_collision@.contains_key(e) {
        match pre.components.on_collision@[e] {
            OnCollision::Remove => spec_destroyed(pre, post, e),
            OnCollision::RemoveRealtime => {
                &&& post == (World {
                    components: post.components,
                    realtime_components: post.realtime_components,
                    ..pre
                })
                &&& post.components == (Components {
                    realtime: post.components.realtime,
                    blocks_gameplay: post.components.blocks_gameplay,
                    ..pre.components
                })
                &&& post.components.realtime@ == pre.components.realtime@.remove(e)
                &&& post.components.blocks_gameplay@ == pre.components.blocks_gameplay@.remove(e)
                &&& post.realtime_components.movement@ == pre.realtime_components.movement@.remove(
                    e,
                )
                &&& post.realtime_components.fade@ == pre.realtime_components.fade@.remove(e)
                &&& post.realtime_components.particle_emitter@
                    == pre.realtime_components.particle_emitter@.remove(e)
                &&& post.realtime_components.light_colour_fade@
                    == pre.realtime_components.light_colour_fade@.remove(e)
            },
            OnCollision::Explode(s) => exists|mid: World, emitter: Entity|
                {
                    &&& #[trigger] spec_exploded(pre, mid, pre.spatial_table@[e].coord, s, emitter)
                    &&& crate::spawner::spec_fresh(pre, mid, emitter)
                    &&& spec_destroyed(mid, post, e)
                },
        }
    } else {
        spec_halt_rel(pre, post, e)
    }
}

/// Stopping a projectile without side effects: only its realtime marker
/// and in-flight movement are removed; `on_collision` is not resolved and
/// nothing is damaged.
pub open spec fn spec_halt_rel(pre: World, post: World, e: Entity) -> bool {
    &&& post == (World {
        components: post.components,
        realtime_components: post.realtime_components,
        ..pre
    })
    &&& post.components == (Components {
        realtime: post.components.realtime,
        ..pre.components
    })
    &&& post.components.realtime@ == pre.components.realtime@.remove(e)
    &&& post.realtime_components == (RealtimeComponents {
        movement: post.realtime_components.movement,
        ..pre.realtime_components
    })
    &&& post.realtime_components.movement@ == pre.realtime_components.movement@.remove(e)
}

/// How clearing an entity rewrites the world: every component, realtime
/// component and the spatial mapping are removed; the identifier stays
/// allocated.
pub open spec fn spec_cleared(pre: World, post: World, e: Entity) -> bool {
    &&& post == (World {
        components: post.components,
        realtime_components: post.realtime_components,
        spatial_table: post.spatial_table,
        ..pre
    })
    &&& spec_components_removed(pre.components, post.components, e)
    &&& post.realtime_components.movement@ == pre.realtime_components.movement@.remove(e)
    &&& post.realtime_components.fade@ == pre.realtime_components.fade@.remove(e)
    &&& post.realtime_components.particle_emitter@
        == pre.realtime_components.particle_emitter@.remove(e)
    &&& post.realtime_components.light_colour_fade@
        == pre.realtime_components.light_colour_fade@.remove(e)
    &&& post.spatial_table@ == pre.spatial_table@.remove(e)
}

/// The step of a projectile hitting whatever character stands in the
/// destination cell: its payload is applied when it carries one, otherwise
/// nothing changes.
pub open spec fn spec_char_hit_step(
    pre: World,
    m1: World,
    p: Entity,
    dir: Direction,
    cell: crate::spatial::Layers,
) -> bool {
    match cell.character {
        Some(ch) => if pre.components.projectile_damage@.contains_key(p) {
            spec_apply_projectile_rel(
                pre,
                m1,
                p,
                pre.components.projectile_damage@[p],
                dir,
                ch,
            )
        } else {
            m1 == pre
        },
        None => m1 == pre,
    }
}

/// Whether the occupant `b` blocks a projectile with collision mask `cw`.
pub open spec fn spec_blocks(pre: World, cw: crate::weapon::CollidesWith, b: Entity) -> bool {
    ||| cw.solid && pre.components.solid@.contains_key(b)
    ||| cw.character && pre.components.character@.contains_key(b)
}

/// A payload-carrying projectile damages the blocking occupant (when it has
/// hit points) and is stopped; one without a payload is left as it is for
/// the trailing stop.
pub open spec fn spec_feature_hit_then_stop(
    m1: World,
    m3: World,
    p: Entity,
    dir: Direction,
    b: Entity,
) -> bool {
    if m1.components.projectile_damage@.contains_key(p) {
        exists|m2: World|
            {
                &&& #[trigger] spec_stop_rel(m2, m3, p)
                &&& if m1.components.hp@.contains_key(b) {
                    spec_apply_projectile_rel(
                        m1,
                        m2,
                        p,
                        m1.components.projectile_damage@[p],
                        dir,
                        b,
                    )
                } else {
                    m2 == m1
                }
            }
    } else {
        m3 == m1
    }
}

/// A character still in knockback that collides takes impact damage scaled
/// by the manhattan distance travelled since the knockback began, capped at
/// 2, with a log entry when it is an NPC.
pub open spec fn spec_wall_slam(m3: World, m4: World, p: Entity, cur: Coord) -> bool {
    if m3.realtime_components.movement@.contains_key(p) && m3.components.character@.contains_key(
        p,
    ) && m3.components.pushed_from@.contains_key(p) {
        let from = m3.components.pushed_from@[p];
        let dist = cur.spec_manhattan_distance(from);
        let dmg: u32 = if dist >= 2 {
            2
        } else {
            dist as u32
        };
        &&& m4 == (World {
            components: m4.components,
            message_log: m4.message_log,
            ..m3
        })
        &&& m4.components == (Components {
            hp: m4.components.hp,
            dead: m4.components.dead,
            ..m3.components
        })
        &&& m4.message_log@ == (if m3.components.npc@.contains_key(p) {
            m3.message_log@.push(
                crate::event::Message::EnemySlammedIntoWall(m3.components.npc@[p].npc_type),
            )
        } else {
            m3.message_log@
        })
        &&& spec_damage_tables(m3, m4, p, dmg)
    } else {
        m4 == m3
    }
}

/// A projectile sliding into its destination cell: the move succeeds unless
/// the projectile occupies an exclusive layer whose slot at the destination
/// is already held by another entity, in which case nothing changes.
pub open spec fn spec_plain_slide(m1: World, post: World, p: Entity, next: Coord) -> bool {
    let layer = m1.spatial_table@[p].layer;
    let blocked = match layer {
        Some(l) => l.spec_is_exclusive() && m1.spatial_table.spec_layers_at(next).spec_slot(
            l,
        ) is Some && m1.spatial_table.spec_layers_at(next).spec_slot(l) != Some(p),
        None => false,
    };
    if blocked {
        post == m1
    } else {
        &&& post == (World { spatial_table: post.spatial_table, ..m1 })
        &&& post.spatial_table@ == m1.spatial_table@.insert(p, Location { coord: next, layer })
    }
}

/// The destination coordinate of one step from the projectile's position.
pub open spec fn spec_next_of(pre: World, p: Entity, dir: Direction) -> Coord {
    let cur = pre.spatial_table@[p].coord;
    let step = dir.spec_coord();
    Coord { x: (cur.x + step.x) as i32, y: (cur.y + step.y) as i32 }
}

/// The collision mask a projectile travels with: its own, or the default of
/// colliding with solid occupants only.
pub open spec fn spec_mask_of(pre: World, p: Entity) -> crate::weapon::CollidesWith {
    if pre.components.collides_with@.contains_key(p) {
        pre.components.collides_with@[p]
    } else {
        crate::weapon::CollidesWith { solid: true, character: false }
    }
}

/// The occupant a projectile meets at its destination: the feature there,
/// or failing that the character.
pub open spec fn spec_blocker_of(pre: World, p: Entity, dir: Direction) -> Option<Entity> {
    let cell = pre.spatial_table.spec_layers_at(spec_next_of(pre, p, dir));
    match cell.feature {
        Some(f) => Some(f),
        None => cell.character,
    }
}

/// The payload step against whatever character stands at the destination.
pub open spec fn spec_char_hit_at(pre: World, m1: World, p: Entity, dir: Direction) -> bool {
    spec_char_hit_step(
        pre,
        m1,
        p,
        dir,
        pre.spatial_table.spec_layers_at(spec_next_of(pre, p, dir)),
    )
}

/// The full witness chain of a blocked projectile step: the character hit,
/// the blocker hit with its stop, and the wall slam.
pub open spec fn spec_blocked_chain(
    pre: World,
    m1: World,
    m3: World,
    m4: World,
    p: Entity,
    dir: Direction,
) -> bool {
    &&& spec_char_hit_at(pre, m1, p, dir)
    &&& spec_feature_hit_then_stop(m1, m3, p, dir, spec_blocker_of(pre, p, dir)->Some_0)
    &&& spec_wall_slam(m3, m4, p, pre.spatial_table@[p].coord)
}

/// How one projectile step rewrites the world: an unlocated projectile is
/// cleared; a step off the traversable grid halts the projectile without
/// side effects (its collision behavior is not resolved); otherwise the
/// destination cell is probed — a character there takes the payload, a
/// blocking occupant stops the projectile (with damage and knockback
/// wall-slam resolution), and a free cell is slid into.
pub open spec fn spec_move_rel(pre: World, post: World, p: Entity, dir: Direction) -> bool {
    if !pre.spatial_table@.contains_key(p) {
        spec_cleared(pre, post, p)
    } else if !pre.spatial_table.in_bounds(spec_next_of(pre, p, dir)) {
        spec_halt_rel(pre, post, p)
    } else {
        match spec_blocker_of(pre, p, dir) {
            Some(b) => if spec_blocks(pre, spec_mask_of(pre, p), b) {
                exists|m1: World, m3: World, m4: World|
                    #[trigger] spec_blocked_chain(pre, m1, m3, m4, p, dir) && spec_stop_rel(
                        m4,
                        post,
                        p,
                    )
            } else {
                exists|m1: World|
                    #[trigger] spec_char_hit_at(pre, m1, p, dir) && spec_plain_slide(
                        m1,
                        post,
                        p,
                        spec_next_of(pre, p, dir),
                    )
            },
            None => exists|m1: World|
                #[trigger] spec_char_hit_at(pre, m1, p, dir) && spec_plain_slide(
                    m1,
                    post,
                    p,
                    spec_next_of(pre, p, dir),
                ),
        }
    }
}

/// The component tables a melee swing leaves untouched.
pub open spec fn spec_melee_frame(pre: World, post: World) -> bool {
    &&& post == (World {
        components: post.components,
        realtime_components: post.realtime_components,
        ..pre
    })
    &&& post.components == (Components {
        player: post.components.player,
        hp: post.components.hp,
        dead: post.components.dead,
        pushed_from: post.components.pushed_from,
        realtime: post.components.realtime,
        ..pre.components
    })
}

/// The coordinate a walking character is heading for.
pub open spec fn spec_walk_target(pre: World, character: Entity, direction: CardinalDirection) -> Coord {
    let cur = pre.spatial_table@[character].coord;
    let step = direction.spec_coord();
    Coord { x: (cur.x + step.x) as i32, y: (cur.y + step.y) as i32 }
}

/// The feature occupant of the walk's target cell, if the cell is on the
/// grid and has one.
pub open spec fn spec_walk_feature(pre: World, character: Entity, direction: CardinalDirection) -> Option<Entity> {
    let target = spec_walk_target(pre, character, direction);
    if pre.spatial_table.in_bounds(target) {
        pre.spatial_table.spec_layers_at(target).feature
    } else {
        None
    }
}

/// How `reduce_stun` rewrites the stun table.
pub open spec fn spec_stun_tables(pre: World, post: World, e: Entity) -> bool {
    if !pre.components.stunned@.contains_key(e) {
        post.components.stunned@ == pre.components.stunned@
    } else {
        let turns = pre.components.stunned@[e].turns;
        if turns <= 1 {
            post.components.stunned@ == pre.components.stunned@.remove(e)
        } else {
            post.components.stunned@ == pre.components.stunned@.insert(
                e,
                crate::stats::Stunned { turns: (turns - 1) as u32 },
            )
        }
    }
}

/// How crushing the grass feature underfoot (when there is standing grass)
/// rewrites its tables.
pub open spec fn spec_maybe_crush(pre: World, post: World, feature: Option<Entity>) -> bool {
    let crushes = match feature {
        Some(f) => pre.components.grass_state@.contains_key(f)
            && pre.components.grass_state@[f] == crate::data::GrassState::Normal,
        None => false,
    };
    if crushes {
        let f = feature->Some_0;
        &&& post.components.grass_state@ == pre.components.grass_state@.insert(
            f,
            crate::data::GrassState::Crushed,
        )
        &&& post.components.tile@ == pre.components.tile@.insert(f, crate::tile::Tile::GrassCrushed)
        &&& post.components.opacity@ == pre.components.opacity@.insert(f, 0u8)
    } else {
        &&& post.components.grass_state@ == pre.components.grass_state@
        &&& post.components.tile@ == pre.components.tile@
        &&& post.components.opacity@ == pre.components.opacity@
    }
}

/// The character slot of the walk's target cell.
pub open spec fn spec_walk_occupant(pre: World, character: Entity, direction: CardinalDirection) -> Option<Entity> {
    pre.spatial_table.spec_layers_at(spec_walk_target(pre, character, direction)).character
}

/// How a completed walk (no blocking feature) rewrites the world: grass is
/// crushed underfoot, and then the character either moves into the free
/// cell or redirects into a melee attack against the character standing
/// there.
pub open spec fn spec_walk_step(
    pre: World,
    post: World,
    character: Entity,
    direction: CardinalDirection,
) -> bool {
    let target = spec_walk_target(pre, character, direction);
    let feature = spec_walk_feature(pre, character, direction);
    match spec_walk_occupant(pre, character, direction) {
        Some(occupant) => if occupant != character {
            // melee redirect; the grass crush and the swing touch disjoint
            // tables, so both are stated against the pre-call world
            &&& post == (World {
                components: post.components,
                realtime_components: post.realtime_components,
                ..pre
            })
            &&& post.components == (Components {
                grass_state: post.components.grass_state,
                tile: post.components.tile,
                opacity: post.components.opacity,
                player: post.components.player,
                hp: post.components.hp,
                dead: post.components.dead,
                pushed_from: post.components.pushed_from,
                realtime: post.components.realtime,
                ..pre.components
            })
            &&& spec_maybe_crush(pre, post, feature)
            &&& (if pre.components.player@.contains_key(character) {
                spec_melee_tables(pre, post, character, occupant, direction)
            } else {
                &&& post.components.player@ == pre.components.player@
                &&& post.components.hp@ == pre.components.hp@
                &&& post.components.dead@ == pre.components.dead@
                &&& post.components.pushed_from@ == pre.components.pushed_from@
                &&& post.components.realtime@ == pre.components.realtime@
                &&& post.realtime_components == pre.realtime_components
            })
        } else {
            // a character never occupies two cells; unreachable
            false
        },
        None => {
            // move into the free cell
            &&& post == (World {
                components: post.components,
                spatial_table: post.spatial_table,
                ..pre
            })
            &&& post.components == (Components {
                grass_state: post.components.grass_state,
                tile: post.components.tile,
                opacity: post.components.opacity,
                ..pre.components
            })
            &&& spec_maybe_crush(pre, post, feature)
            &&& post.spatial_table@ == pre.spatial_table@.insert(
                character,
                Location { coord: target, layer: pre.spatial_table@[character].layer },
            )
        },
    }
}

/// How one walk intent resolves, with its result.  A movement-blocked
/// character spends the turn recovering; a closed door is opened; a solid
/// feature closes an adjacent open door, offers the upgrade station to the
/// player, or refuses the walk; otherwise the character crushes any grass
/// underfoot and moves, redirecting into melee when a character occupies
/// the destination.
pub open spec fn spec_walk_rel(
    pre: World,
    post: World,
    character: Entity,
    direction: CardinalDirection,
    r: Result<Option<crate::event::ControlFlow>, crate::event::ActionError>,
) -> bool {
    let is_player = pre.components.player@.contains_key(character);
    if pre.realtime_components.movement@.contains_key(character)
        || pre.components.stunned@.contains_key(character) {
        // blocked by an effect: the turn reduces the stun instead
        &&& r == Result::<Option<crate::event::ControlFlow>, crate::event::ActionError>::Ok(
            None::<crate::event::ControlFlow>,
        )
        &&& post == (World { components: post.components, ..pre })
        &&& post.components == (Components { stunned: post.components.stunned, ..pre.components })
        &&& spec_stun_tables(pre, post, character)
    } else {
        let target = spec_walk_target(pre, character, direction);
        match spec_walk_feature(pre, character, direction) {
            Some(f) => if pre.components.door_state@.contains_key(f)
                && pre.components.door_state@[f] == crate::data::DoorState::Closed {
                // bumping a closed door opens it
                &&& r == Result::<Option<crate::event::ControlFlow>, crate::event::ActionError>::Ok(
                    None::<crate::event::ControlFlow>,
                )
                &&& post == (World {
                    components: post.components,
                    external_events: post.external_events,
                    ..pre
                })
                &&& post.components == (Components {
                    door_state: post.components.door_state,
                    tile: post.components.tile,
                    solid: post.components.solid,
                    opacity: post.components.opacity,
                    ..pre.components
                })
                &&& post.components.door_state@ == pre.components.door_state@.insert(
                    f,
                    crate::data::DoorState::Open,
                )
                &&& post.components.tile@ == pre.components.tile@.insert(
                    f,
                    crate::tile::Tile::DoorOpen,
                )
                &&& post.components.solid@ == pre.components.solid@.remove(f)
                &&& post.components.opacity@ == pre.components.opacity@.insert(f, 0u8)
                &&& post.external_events@ == (if is_player {
                    pre.external_events@.push(
                        crate::event::ExternalEvent::SoundEffect(
                            crate::event::SoundEffect::DoorOpen,
                        ),
                    )
                } else {
                    pre.external_events@
                })
            } else if pre.components.solid@.contains_key(f) {
                if exists|d: Entity| crate::world::spec_adjacent_open_door(pre, target, d) {
                    // close a nearby open door instead of walking
                    &&& r == Result::<
                        Option<crate::event::ControlFlow>,
                        crate::event::ActionError,
                    >::Ok(None::<crate::event::ControlFlow>)
                    &&& exists|d: Entity|
                        {
                            &&& #[trigger] crate::world::spec_adjacent_open_door(pre, target, d)
                            &&& post.components.door_state@ == pre.components.door_state@.insert(
                                d,
                                crate::data::DoorState::Closed,
                            )
                            &&& post.components.tile@ == pre.components.tile@.insert(
                                d,
                                crate::tile::Tile::DoorClosed,
                            )
                            &&& post.components.solid@ == pre.components.solid@.insert(d, ())
                            &&& post.components.opacity@ == pre.components.opacity@.insert(
                                d,
                                255u8,
                            )
                        }
                    &&& post == (World {
                        components: post.components,
                        external_events: post.external_events,
                        ..pre
                    })
                    &&& post.components == (Components {
                        door_state: post.components.door_state,
                        tile: post.components.tile,
                        solid: post.components.solid,
                        opacity: post.components.opacity,
                        ..pre.components
                    })
                    &&& post.external_events@ == (if is_player {
                        pre.external_events@.push(
                            crate::event::ExternalEvent::SoundEffect(
                                crate::event::SoundEffect::DoorClose,
                            ),
                        )
                    } else {
                        pre.external_events@
                    })
                } else if pre.components.upgrade@.contains_key(f) && is_player {
                    // the upgrade station suspends the turn pipeline
                    &&& r == Result::<
                        Option<crate::event::ControlFlow>,
                        crate::event::ActionError,
                    >::Ok(Some(crate::event::ControlFlow::Upgrade))
                    &&& post == pre
                } else {
                    // blocked by a solid feature
                    &&& r == Result::<
                        Option<crate::event::ControlFlow>,
                        crate::event::ActionError,
                    >::Err(crate::event::ActionError::CannotWalkThere)
                    &&& post == pre
                }
            } else {
                &&& r == Result::<Option<crate::event::ControlFlow>, crate::event::ActionError>::Ok(
                    None::<crate::event::ControlFlow>,
                )
                &&& spec_walk_step(pre, post, character, direction)
            },
            None => {
                &&& r == Result::<Option<crate::event::ControlFlow>, crate::event::ActionError>::Ok(
                    None::<crate::event::ControlFlow>,
                )
                &&& spec_walk_step(pre, post, character, direction)
            },
        }
    }
}

/// The sound a ranged weapon makes when fired; melee weapons make none
/// here.
pub open spec fn spec_weapon_sound(name: crate::weapon::WeaponType) -> Option<crate::event::SoundEffect> {
    match name {
        crate::weapon::WeaponType::Railgun => Some(crate::event::SoundEffect::Railgun),
        crate::weapon::WeaponType::FiftyCal => Some(crate::event::SoundEffect::FiftyCal),
        crate::weapon::WeaponType::LifeStealer => Some(crate::event::SoundEffect::LifeStealer),
        crate::weapon::WeaponType::Pistol => Some(crate::event::SoundEffect::Pistol),
        crate::weapon::WeaponType::Rifle => Some(crate::event::SoundEffect::Rifle),
        _ => None,
    }
}

/// The explosion a player with the explosive-damage trait injects into a
/// fired weapon's snapshot.
pub open spec fn spec_explosive_injection() -> ExplosionSpec {
    ExplosionSpec {
        mechanics: 10,
        particle_emitter: crate::weapon::ParticleEmitterSpec {
            num_particles_per_frame: 50,
            min_step: 10_000,
            max_step: 30_000,
            duration: 250_000,
            fade_duration: 250_000,
        },
    }
}

/// The weapon an actor would fire from the given slot: the player's slot
/// weapon, an NPC's single weapon, nothing for anything else.
pub open spec fn spec_fire_weapon_of(
    pre: World,
    character: Entity,
    slot: crate::data::RangedWeaponSlot,
) -> Option<Weapon> {
    if pre.components.player@.contains_key(character) {
        pre.components.player@[character].spec_ranged_weapon(slot)
    } else if pre.components.npc@.contains_key(character) {
        pre.components.npc@[character].weapon
    } else {
        None
    }
}

/// A weapon after one shot: finite ammunition drops by one.
pub open spec fn spec_shot_weapon(w: Weapon) -> Weapon {
    match w.ammo {
        Some(ammo) => Weapon {
            ammo: Some(Ammo { current: (ammo.current - 1) as u32, max: ammo.max }),
            ..w
        },
        None => w,
    }
}

/// The fired snapshot: the player's explosive-damage trait injects an
/// explosion into the snapshot only, never into the stored weapon.
pub open spec fn spec_fire_snapshot(pre: World, character: Entity, w: Weapon) -> Weapon {
    if pre.components.player@.contains_key(character)
        && pre.components.player@[character].traits.explosive_damage {
        Weapon {
            on_collision: Some(crate::weapon::OnCollision::Explode(spec_explosive_injection())),
            ..w
        }
    } else {
        w
    }
}

/// The two fresh effect entities of a shot — the bullet and the muzzle
/// flash — and every table change a successful shot makes.
pub open spec fn spec_fired(
    pre: World,
    post: World,
    character: Entity,
    target: Coord,
    slot: crate::data::RangedWeaponSlot,
    b: Entity,
    f: Entity,
) -> bool {
    let cur = pre.spatial_table@[character].coord;
    let w = spec_fire_weapon_of(pre, character, slot)->Some_0;
    let w1 = spec_shot_weapon(w);
    let snapshot = spec_fire_snapshot(pre, character, w1);
    &&& b != f
    &&& !pre.entity_allocator.spec_exists(b)
    &&& !pre.entity_allocator.spec_exists(f)
    &&& post.entity_allocator.spec_exists(b)
    &&& post.entity_allocator.spec_exists(f)
    &&& forall|o: Entity|
        o != b && o != f ==> post.entity_allocator.spec_exists(o)
            == pre.entity_allocator.spec_exists(o)
    &&& post == (World {
        entity_allocator: post.entity_allocator,
        spatial_table: post.spatial_table,
        components: post.components,
        realtime_components: post.realtime_components,
        external_events: post.external_events,
        ..pre
    })
    &&& post.components == (Components {
        player: post.components.player,
        npc: post.components.npc,
        tile: post.components.tile,
        realtime: post.components.realtime,
        on_collision: post.components.on_collision,
        collides_with: post.components.collides_with,
        projectile_damage: post.components.projectile_damage,
        light: post.components.light,
        ..pre.components
    })
    &&& post.components.player@ == (if pre.components.player@.contains_key(character) {
        pre.components.player@.insert(
            character,
            pre.components.player@[character].spec_with_ranged_weapon(slot, Some(w1)),
        )
    } else {
        pre.components.player@
    })
    &&& post.components.npc@ == (if !pre.components.player@.contains_key(character)
        && pre.components.npc@.contains_key(character) {
        pre.components.npc@.insert(
            character,
            crate::data::Npc { weapon: Some(w1), ..pre.components.npc@[character] },
        )
    } else {
        pre.components.npc@
    })
    &&& post.external_events@ == (match spec_weapon_sound(w.name) {
        Some(s) => pre.external_events@.push(crate::event::ExternalEvent::SoundEffect(s)),
        None => pre.external_events@,
    })
    &&& post.spatial_table@ == pre.spatial_table@.insert(
        b,
        Location { coord: cur, layer: None },
    ).insert(f, Location { coord: cur, layer: None })
    &&& post.components.realtime@ == pre.components.realtime@.insert(b, ()).insert(f, ())
    &&& post.components.tile@ == pre.components.tile@.insert(b, crate::tile::Tile::Bullet)
    &&& post.components.on_collision@ == pre.components.on_collision@.insert(
        b,
        match snapshot.on_collision {
            Some(c) => c,
            None => crate::weapon::OnCollision::Remove,
        },
    )
    &&& post.components.collides_with@ == pre.components.collides_with@.insert(
        b,
        crate::weapon::CollidesWith { solid: true, character: false },
    )
    &&& post.components.projectile_damage@ == pre.components.projectile_damage@.insert(
        b,
        ProjectileDamage {
            hit_points: snapshot.dmg,
            push_back: snapshot.abilities.knock_back,
            pen: snapshot.pen,
            hull_pen_percent: snapshot.hull_pen_percent,
            life_steal: snapshot.abilities.life_steal,
            weapon_name: Some(snapshot.name),
        },
    )
    &&& post.realtime_components.movement@ == pre.realtime_components.movement@.insert(
        b,
        Scheduled { state: crate::spawner::spec_bullet_movement_state(cur, target), until_next: 1 },
    )
    &&& post.realtime_components.particle_emitter@
        == pre.realtime_components.particle_emitter@.insert(
        b,
        Scheduled { state: crate::spawner::spec_bullet_trail_emitter(snapshot), until_next: 1 },
    )
    &&& post.realtime_components.fade@ == pre.realtime_components.fade@.insert(
        f,
        Scheduled {
            state: crate::realtime::FadeState {
                total: crate::spawner::FLASH_FADE_MICROS,
                elapsed: 0,
            },
            until_next: 1,
        },
    )
    &&& post.realtime_components.light_colour_fade@
        == pre.realtime_components.light_colour_fade@
}

/// How a fire intent resolves: a no-op when the target is the actor's own
/// coordinate, when the actor has no weapon in the slot, or when the
/// weapon's finite ammunition is exhausted — in which case no projectile is
/// spawned and nothing changes at all.  Otherwise one round is spent and a
/// bullet and a muzzle flash appear at the actor's position.
pub open spec fn spec_fire_rel(
    pre: World,
    post: World,
    character: Entity,
    target: Coord,
    slot: crate::data::RangedWeaponSlot,
) -> bool {
    let cur = pre.spatial_table@[character].coord;
    if cur == target {
        post == pre
    } else {
        match spec_fire_weapon_of(pre, character, slot) {
            None => post == pre,
            Some(w) => if w.ammo is Some && w.ammo->Some_0.current == 0 {
                post == pre
            } else {
                exists|b: Entity, f: Entity| #[trigger] spec_fired(
                    pre,
                    post,
                    character,
                    target,
                    slot,
                    b,
                    f,
                )
            },
        }
    }
}

/// The record an NPC ends up with when the alarm is raised at `entity`'s
/// coordinate: pursuing the player's coordinate when within squared
/// distance 100 of the alarm, otherwise with its pursuit cleared.
pub open spec fn spec_alerted_npc(
    pre: World,
    k: Entity,
    entity: Entity,
    player_entity: Entity,
) -> crate::data::Npc {
    let npc = pre.components.npc@[k];
    if pre.spatial_table@[k].coord.spec_distance2(pre.spatial_table@[entity].coord) <= 100 {
        crate::data::Npc { move_to: Some(pre.spatial_table@[player_entity].coord), ..npc }
    } else {
        crate::data::Npc { move_to: None, ..npc }
    }
}

/// How raising the alarm rewrites the world, before the alerting entity's
/// own walk: every NPC's pursuit target is set or cleared by its distance
/// to the alarm, and a log entry is appended.
pub open spec fn spec_alerted(pre: World, mid: World, entity: Entity, player_entity: Entity) -> bool {
    &&& mid == (World { components: mid.components, message_log: mid.message_log, ..pre })
    &&& mid.components == (Components { npc: mid.components.npc, ..pre.components })
    &&& mid.message_log@ == pre.message_log@.push(crate::event::Message::AlertedNearbyEntities)
    &&& forall|k: Entity|
        #[trigger] mid.components.npc@.contains_key(k) == pre.components.npc@.contains_key(k)
    &&& forall|k: Entity|
        pre.components.npc@.contains_key(k) ==> #[trigger] mid.components.npc@[k]
            == spec_alerted_npc(pre, k, entity, player_entity)
}

/// Some walk of the entity took place, whatever it returned.
pub open spec fn spec_walked_somehow(
    mid: World,
    post: World,
    entity: Entity,
    direction: CardinalDirection,
) -> bool {
    exists|r: Result<Option<crate::event::ControlFlow>, crate::event::ActionError>|
        #[trigger] spec_walk_rel(mid, post, entity, direction, r)
}

impl World {
    /// A player's melee swing against a victim standing next to it.
    pub fn player_melee_attack(
        &mut self,
        attacker: Entity,
        victim: Entity,
        direction: CardinalDirection,
    )
        requires
            old(self).wf(),
            old(self).components.player@.contains_key(attacker),
            old(self).components.armour@.contains_key(victim),
            old(self).components.hp@.contains_key(victim) || old(
                self,
            ).components.dead@.contains_key(victim),
            old(self).spatial_table@.contains_key(victim),
        ensures
            final(self).wf(),
            spec_melee_tables(*old(self), *final(self), attacker, victim, direction),
            spec_melee_frame(*old(self), *final(self)),
    {
        let player = *self.components.player.get(attacker).unwrap();
        let (spent_weapon, used_up): (Weapon, bool) = match player.melee_weapon.ammo {
            Some(ammo) => {
                let current: u32 = if ammo.current == 0 {
                    0
                } else {
                    ammo.current - 1
                };
                (
                    Weapon { ammo: Some(Ammo { current, max: ammo.max }), ..player.melee_weapon },
                    current == 0,
                )
            },
            None => (player.melee_weapon, false),
        };

        let pen = player.melee_weapon.pen;
        let armour = self.components.armour.get(victim).unwrap().value;
        if pen > armour {
            self.damage_character(victim, player.melee_weapon.dmg);
        }

        if player.melee_weapon.abilities.knock_back {
            proof {
                self.spatial_table.lemma_located_in_bounds(victim);
            }
            let victim_coord = self.spatial_table.coord_of(victim).unwrap();
            self.components.pushed_from.insert(victim, victim_coord);
            self.components.realtime.insert(victim, ());
            let movement = Movement {
                path: direction.coord(),
                repeat: Repeat::Steps(KNOCKBACK),
                cardinal_step_duration: MELEE_KNOCKBACK_STEP_MICROS,
            };
            self.realtime_components.movement.insert(
                victim,
                Scheduled { state: movement.build(), until_next: 1 },
            );
            proof {
                let a = old(self).entity_allocator;
                lemma_table_insert_view(
                    a,
                    old(self).components.pushed_from@,
                    self.components.pushed_from@,
                    victim,
                    old(self).spatial_table@[victim].coord,
                );
                lemma_table_insert_view(
                    a,
                    old(self).components.realtime@,
                    self.components.realtime@,
                    victim,
                    (),
                );
                lemma_table_insert_view(
                    a,
                    old(self).realtime_components.movement@,
                    self.realtime_components.movement@,
                    victim,
                    Scheduled {
                        state: spec_knockback_state(
                            direction.spec_coord(),
                            MELEE_KNOCKBACK_STEP_MICROS,
                        ),
                        until_next: 1u64,
                    },
                );
            }
        }

        let melee_final = if used_up {
            Weapon::new_bare_hands()
        } else {
            spent_weapon
        };
        let ghost before_player = self.components.player@;
        self.components.player.insert(attacker, Player { melee_weapon: melee_final, ..player });
        proof {
            lemma_table_insert_view(
                old(self).entity_allocator,
                before_player,
                self.components.player@,
                attacker,
                Player { melee_weapon: melee_final, ..player },
            );
        }
    }

    /// Fires the actor's ranged weapon at a target coordinate.  Firing at
    /// the actor's own cell, with an empty slot, or with exhausted
    /// ammunition is a silent no-op; ammunition never goes below zero and
    /// no projectile appears.  A successful shot spends one round, emits
    /// the weapon's sound, and spawns the bullet and a muzzle flash at the
    /// actor's position.
    pub fn character_fire_bullet(
        &mut self,
        character: Entity,
        target: Coord,
        slot: crate::data::RangedWeaponSlot,
    )
        requires
            old(self).wf(),
            old(self).spatial_table@.contains_key(character),
            -crate::geom::COORD_LIMIT <= target.x <= crate::geom::COORD_LIMIT,
            -crate::geom::COORD_LIMIT <= target.y <= crate::geom::COORD_LIMIT,
        ensures
            final(self).wf(),
            spec_fire_rel(*old(self), *final(self), character, target, slot),
    {
        proof {
            self.spatial_table.lemma_located_in_bounds(character);
            self.spatial_table.lemma_dims();
        }
        let character_coord = self.spatial_table.coord_of(character).unwrap();
        if character_coord.x == target.x && character_coord.y == target.y {
            return ;
        }

        let is_player = self.components.player.contains(character);
        let weapon_opt: Option<Weapon> = if is_player {
            let player = *self.components.player.get(character).unwrap();
            player.ranged_weapon(slot)
        } else {
            match self.components.npc.get(character) {
                Some(npc) => npc.weapon,
                None => None,
            }
        };
        let weapon = match weapon_opt {
            Some(w) => w,
            None => {
                return ;
            },
        };
        if let Some(ammo) = weapon.ammo {
            if ammo.current == 0 {
                // an exhausted weapon refuses to fire
                return ;
            }
        }

        // Spend one round and store the weapon back.
        let shot = match weapon.ammo {
            Some(ammo) => Weapon {
                ammo: Some(Ammo { current: ammo.current - 1, max: ammo.max }),
                ..weapon
            },
            None => weapon,
        };
        if is_player {
            let player = *self.components.player.get(character).unwrap();
            let updated = player.with_ranged_weapon(slot, Some(shot));
            self.components.player.insert(character, updated);
            proof {
                lemma_table_insert_view(
                    old(self).entity_allocator,
                    old(self).components.player@,
                    self.components.player@,
                    character,
                    old(self).components.player@[character].spec_with_ranged_weapon(
                        slot,
                        Some(spec_shot_weapon(
                            spec_fire_weapon_of(*old(self), character, slot)->Some_0,
                        )),
                    ),
                );
            }
        } else {
            let npc = *self.components.npc.get(character).unwrap();
            let updated = crate::data::Npc { weapon: Some(shot), ..npc };
            self.components.npc.insert(character, updated);
            proof {
                lemma_table_insert_view(
                    old(self).entity_allocator,
                    old(self).components.npc@,
                    self.components.npc@,
                    character,
                    crate::data::Npc {
                        weapon: Some(spec_shot_weapon(
                            spec_fire_weapon_of(*old(self), character, slot)->Some_0,
                        )),
                        ..old(self).components.npc@[character]
                    },
                );
            }
        }

        // The weapon's report.
        let sound: Option<crate::event::SoundEffect> = match weapon.name {
            crate::weapon::WeaponType::Railgun => Some(crate::event::SoundEffect::Railgun),
            crate::weapon::WeaponType::FiftyCal => Some(crate::event::SoundEffect::FiftyCal),
            crate::weapon::WeaponType::LifeStealer => Some(
                crate::event::SoundEffect::LifeStealer,
            ),
            crate::weapon::WeaponType::Pistol => Some(crate::event::SoundEffect::Pistol),
            crate::weapon::WeaponType::Rifle => Some(crate::event::SoundEffect::Rifle),
            _ => None,
        };
        if let Some(sound) = sound {
            self.add_event(crate::event::ExternalEvent::SoundEffect(sound));
        }

        // The snapshot the projectile carries; an explosive-damage player
        // injects an explosion into the snapshot only.
        let mut snapshot = shot;
        if is_player {
            let player = *self.components.player.get(character).unwrap();
            if player.traits.explosive_damage {
                snapshot.on_collision = Some(
                    crate::weapon::OnCollision::Explode(
                        ExplosionSpec {
                            mechanics: 10,
                            particle_emitter: crate::weapon::ParticleEmitterSpec {
                                num_particles_per_frame: 50,
                                min_step: 10_000,
                                max_step: 30_000,
                                duration: 250_000,
                                fade_duration: 250_000,
                            },
                        },
                    ),
                );
            }
        }

        let bullet = self.spawn_bullet(character_coord, target, &snapshot);
        let flash = self.spawn_flash(character_coord, snapshot.light_colour);
        proof {
            assert(spec_fired(*old(self), *self, character, target, slot, bullet, flash));
        }
    }

    /// One walk intent of a character: opens or closes doors it bumps into,
    /// offers the upgrade station, crushes grass underfoot, and moves —
    /// redirecting into a melee attack when another character occupies the
    /// destination.  A movement-blocked character recovers instead.
    pub fn character_walk_in_direction(
        &mut self,
        character: Entity,
        direction: CardinalDirection,
    ) -> (r: Result<Option<crate::event::ControlFlow>, crate::event::ActionError>)
        requires
            old(self).wf(),
            old(self).spatial_table@.contains_key(character),
            old(self).spatial_table@[character].layer == Some(Layer::Character),
            !(old(self).realtime_components.movement@.contains_key(character) || old(
                self,
            ).components.stunned@.contains_key(character)) ==> old(self).spatial_table.in_bounds(
                spec_walk_target(*old(self), character, direction),
            ),
        ensures
            final(self).wf(),
            spec_walk_rel(*old(self), *final(self), character, direction, r),
    {
        // A character being knocked back (or stunned) spends the turn
        // recovering instead of acting.
        if self.check_movement_blocked(character) {
            self.reduce_stun(character);
            return Ok(None);
        }

        proof {
            self.spatial_table.lemma_located_in_bounds(character);
            self.spatial_table.lemma_dims();
        }
        let current_coord = self.spatial_table.coord_of(character).unwrap();
        let target_coord = current_coord.plus(direction.coord());
        proof {
            assert(target_coord == spec_walk_target(*old(self), character, direction));
        }

        if let Some(layers) = self.spatial_table.layers_at(target_coord) {
            if let Some(feature_entity) = layers.feature {
                proof {
                    self.spatial_table.lemma_slot_occupant(
                        target_coord,
                        Layer::Feature,
                        feature_entity,
                    );
                }
                // Bumping into a closed door opens it.
                let door = match self.components.door_state.get(feature_entity) {
                    Some(d) => Some(*d),
                    None => None,
                };
                if door == Some(crate::data::DoorState::Closed) {
                    self.open_door(feature_entity);
                    if self.components.player.contains(character) {
                        self.add_event(
                            crate::event::ExternalEvent::SoundEffect(
                                crate::event::SoundEffect::DoorOpen,
                            ),
                        );
                    }
                    return Ok(None);
                }

                // A solid feature blocks the walk.
                if self.components.solid.contains(feature_entity) {
                    if let Some(open_door_entity) = self.open_door_entity_adjacent_to_coord(
                        target_coord,
                    ) {
                        self.close_door(open_door_entity);
                        if self.components.player.contains(character) {
                            self.add_event(
                                crate::event::ExternalEvent::SoundEffect(
                                    crate::event::SoundEffect::DoorClose,
                                ),
                            );
                        }
                        return Ok(None);
                    }
                    if self.components.upgrade.contains(feature_entity)
                        && self.components.player.contains(character) {
                        return Ok(Some(crate::event::ControlFlow::Upgrade));
                    }
                    return crate::event::ActionError::err_cant_walk_there();
                }

                // Standing grass in the feature slot is crushed underfoot.
                let grass = match self.components.grass_state.get(feature_entity) {
                    Some(g) => Some(*g),
                    None => None,
                };
                if grass == Some(crate::data::GrassState::Normal) {
                    self.crush_grass(feature_entity);
                }
            }
        }

        // Move, or redirect into melee against the occupant.
        let move_result = self.spatial_table.update_coord(character, target_coord);
        match move_result {
            Ok(()) => {
                proof {
                    if old(self).spatial_table.spec_layers_at(target_coord).character is Some {
                        let o = old(self).spatial_table.spec_layers_at(
                            target_coord,
                        ).character->Some_0;
                        old(self).spatial_table.lemma_slot_occupant(
                            target_coord,
                            Layer::Character,
                            o,
                        );
                        assert(o == character);
                        assert(old(self).spatial_table@[character].coord == current_coord);
                        assert(false);
                    }
                    assert(self.spatial_table@ =~= old(self).spatial_table@.insert(
                        character,
                        Location {
                            coord: target_coord,
                            layer: old(self).spatial_table@[character].layer,
                        },
                    ));
                }
            },
            Err(crate::spatial::SpatialError::OccupiedBy(occupant)) => {
                proof {
                    old(self).spatial_table.lemma_slot_occupant(
                        target_coord,
                        Layer::Character,
                        occupant,
                    );
                    assert(old(self).spatial_table@[occupant].layer == Some(Layer::Character));
                    assert(old(self).components.player@.contains_key(occupant) || old(
                        self,
                    ).components.npc@.contains_key(occupant));
                    if self.components.player@.contains_key(character) {
                        if old(self).components.player@.contains_key(occupant) {
                            assert(old(self).player_entity == Some(occupant));
                            assert(old(self).player_entity == Some(character));
                            assert(false);
                        }
                        assert(self.components.npc@.contains_key(occupant));
                    }
                }
                self.melee_attack(character, occupant, direction);
            },
            Err(crate::spatial::SpatialError::OutOfBounds) => {
                proof {
                    assert(false);
                }
            },
        }
        Ok(None)
    }

    /// An NPC's melee swing against the player.  Deliberately a no-op: only
    /// the player deals melee damage.
    #[allow(unused_variables)]
    pub fn npc_melee_attack(&mut self, attacker: Entity, victim: Entity)
        ensures
            *final(self) == *old(self),
    {
    }

    /// Melee dispatch: a player attacker swings at the victim; an NPC
    /// attacking the player is a no-op; NPC-versus-NPC melee does nothing.
    pub fn melee_attack(&mut self, attacker: Entity, victim: Entity, direction: CardinalDirection)
        requires
            old(self).wf(),
            old(self).components.player@.contains_key(attacker) ==> {
                &&& old(self).components.armour@.contains_key(victim)
                &&& old(self).components.hp@.contains_key(victim) || old(
                    self,
                ).components.dead@.contains_key(victim)
                &&& old(self).spatial_table@.contains_key(victim)
            },
        ensures
            final(self).wf(),
            old(self).components.player@.contains_key(attacker) ==> spec_melee_tables(
                *old(self),
                *final(self),
                attacker,
                victim,
                direction,
            ) && spec_melee_frame(*old(self), *final(self)),
            !old(self).components.player@.contains_key(attacker) ==> *final(self) == *old(self),
    {
        if self.components.player.contains(attacker) {
            self.player_melee_attack(attacker, victim, direction);
        } else if self.components.player.contains(victim) {
            self.npc_melee_attack(attacker, victim);
        }
    }

    /// A robot raising the alarm: every NPC within squared distance 100 of
    /// the alerting entity is set to pursue the player's current
    /// coordinate, every NPC outside that radius has its pursuit cleared, a
    /// log entry is appended, and the alerting entity then takes its own
    /// walk.
    pub fn alert_nearby_entities(
        &mut self,
        entity: Entity,
        direction: CardinalDirection,
        player_entity: Entity,
    )
        requires
            old(self).wf(),
            old(self).spatial_table@.contains_key(entity),
            old(self).spatial_table@.contains_key(player_entity),
            old(self).spatial_table@[entity].layer == Some(Layer::Character),
            !(old(self).realtime_components.movement@.contains_key(entity) || old(
                self,
            ).components.stunned@.contains_key(entity)) ==> old(self).spatial_table.in_bounds(
                spec_walk_target(*old(self), entity, direction),
            ),
        ensures
            final(self).wf(),
            exists|mid: World|
                #[trigger] spec_alerted(*old(self), mid, entity, player_entity)
                    && spec_walked_somehow(mid, *final(self), entity, direction),
    {
        proof {
            self.spatial_table.lemma_located_in_bounds(entity);
            self.spatial_table.lemma_dims();
        }
        let alert_coord = self.spatial_table.coord_of(entity).unwrap();
        let pursuit_coord = self.spatial_table.coord_of(player_entity).unwrap();
        let ghost pre = *old(self);
        let npcs = self.components.npc.keys();
        let mut i: usize = 0;
        while i < npcs.len()
            invariant
                self.wf(),
                i <= npcs@.len(),
                0 <= alert_coord.x < crate::spatial::GRID_DIMENSION_LIMIT,
                0 <= alert_coord.y < crate::spatial::GRID_DIMENSION_LIMIT,
                alert_coord == pre.spatial_table@[entity].coord,
                pursuit_coord == pre.spatial_table@[player_entity].coord,
                *self == (World { components: self.components, ..pre }),
                self.components == (Components { npc: self.components.npc, ..pre.components }),
                forall|idx: int|
                    0 <= idx < npcs@.len() ==> pre.components.npc@.contains_key(
                        #[trigger] npcs@[idx],
                    ),
                forall|k: Entity| pre.components.npc@.contains_key(k) ==> npcs@.contains(k),
                forall|a: int, b: int|
                    0 <= a < b < npcs@.len() ==> npcs@[a].index < npcs@[b].index,
                forall|k: Entity|
                    #[trigger] self.components.npc@.contains_key(k)
                        == pre.components.npc@.contains_key(k),
                forall|k: Entity|
                    pre.components.npc@.contains_key(k) ==> #[trigger] self.components.npc@[k]
                        == (if spec_in_prefix(npcs@, i as int, k) {
                        spec_alerted_npc(pre, k, entity, player_entity)
                    } else {
                        pre.components.npc@[k]
                    }),
            decreases npcs@.len() - i,
        {
            let k = npcs[i];
            proof {
                assert forall|j: int| 0 <= j < i implies npcs@[j] != k by {
                    assert(npcs@[j].index < npcs@[i as int].index);
                }
                assert(!spec_in_prefix(npcs@, i as int, k));
                assert(self.components.npc@.contains_key(k));
                assert(self.spatial_table@.contains_key(k));
                self.spatial_table.lemma_located_in_bounds(k);
            }
            let npc = *self.components.npc.get(k).unwrap();
            let current_coord = self.spatial_table.coord_of(k).unwrap();
            let updated = if current_coord.distance2(alert_coord) <= 100 {
                crate::data::Npc { move_to: Some(pursuit_coord), ..npc }
            } else {
                crate::data::Npc { move_to: None, ..npc }
            };
            let ghost before_npc = self.components.npc@;
            self.components.npc.insert(k, updated);
            proof {
                lemma_table_insert_view(
                    pre.entity_allocator,
                    before_npc,
                    self.components.npc@,
                    k,
                    spec_alerted_npc(pre, k, entity, player_entity),
                );
                assert forall|o: Entity| #[trigger]
                    spec_in_prefix(npcs@, i + 1, o) == (spec_in_prefix(npcs@, i as int, o) || o
                    == k) by {
                    if spec_in_prefix(npcs@, i + 1, o) {
                        let j = choose|j: int| 0 <= j < i + 1 && npcs@[j] == o;
                        if j == i {
                            assert(o == k);
                        }
                    }
                    if o == k {
                        assert(npcs@[i as int] == o);
                    }
                }
            }
            i += 1;
        }
        proof {
            assert forall|k: Entity| pre.components.npc@.contains_key(k) implies spec_in_prefix(
                npcs@,
                npcs@.len() as int,
                k,
            ) by {
                assert(npcs@.contains(k));
            }
        }
        self.append_log(crate::event::Message::AlertedNearbyEntities);
        let ghost mid = *self;
        proof {
            assert(spec_alerted(pre, mid, entity, player_entity));
        }
        let walk_result = self.character_walk_in_direction(entity, direction);
        proof {
            assert(spec_walk_rel(mid, *self, entity, direction, walk_result));
            assert(spec_walked_somehow(mid, *self, entity, direction));
        }
    }

    /// Marks a character dead.  Dead characters never take further damage.
    pub fn character_die(&mut self, character: Entity)
        requires
            old(self).wf(),
            old(self).entity_allocator.spec_exists(character),
        ensures
            final(self).wf(),
            *final(self) == (World { components: final(self).components, ..*old(self) }),
            final(self).components == (Components {
                dead: final(self).components.dead,
                ..old(self).components
            }),
            final(self).components.dead@ == old(self).components.dead@.insert(character, ()),
    {
        self.components.dead.insert(character, ());
        proof {
            lemma_table_insert_view(
                old(self).entity_allocator,
                old(self).components.dead@,
                self.components.dead@,
                character,
                (),
            );
        }
    }

    /// Detonates an explosion at a coordinate: spawns its particle emitter
    /// and deals the blast's strength as damage to every character within
    /// squared distance `mechanics` of the blast.  Dead characters take no
    /// damage, as ever.  Returns the emitter entity.
    pub fn explode(&mut self, coord: Coord, spec: ExplosionSpec) -> (emitter: Entity)
        requires
            old(self).wf(),
            old(self).spatial_table.in_bounds(coord),
            spec.particle_emitter.wf(),
        ensures
            final(self).wf(),
            crate::spawner::spec_fresh(*old(self), *final(self), emitter),
            spec_exploded(*old(self), *final(self), coord, spec, emitter),
    {
        proof {
            old(self).spatial_table.lemma_dims();
        }
        let emitter = self.spawn_explosion_emitter(coord, &spec.particle_emitter);
        let ghost mid = *self;
        proof {
            assert forall|k: Entity| #[trigger]
                spec_blast_hit(mid, coord, spec.mechanics, k) == spec_blast_hit(
                *old(self),
                coord,
                spec.mechanics,
                k,
            ) by {
                if old(self).components.character@.contains_key(k) {
                    assert(k != emitter);
                }
            }
        }
        let characters = self.components.character.keys();
        let mut i: usize = 0;
        while i < characters.len()
            invariant
                self.wf(),
                i <= characters@.len(),
                0 <= coord.x < crate::spatial::GRID_DIMENSION_LIMIT,
                0 <= coord.y < crate::spatial::GRID_DIMENSION_LIMIT,
                *self == (World { components: self.components, ..mid }),
                self.components == (Components {
                    hp: self.components.hp,
                    dead: self.components.dead,
                    ..mid.components
                }),
                forall|idx: int|
                    0 <= idx < characters@.len() ==> mid.components.character@.contains_key(
                        #[trigger] characters@[idx],
                    ),
                forall|k: Entity|
                    mid.components.character@.contains_key(k) ==> characters@.contains(k),
                forall|a: int, b: int|
                    0 <= a < b < characters@.len() ==> characters@[a].index
                        < characters@[b].index,
                forall|k: Entity|
                    #[trigger] self.components.hp@.contains_key(k)
                        == mid.components.hp@.contains_key(k),
                forall|k: Entity|
                    mid.components.hp@.contains_key(k) ==> #[trigger] self.components.hp@[k] == (
                    if spec_in_prefix(characters@, i as int, k) && spec_blast_hit(
                        mid,
                        coord,
                        spec.mechanics,
                        k,
                    ) && !mid.components.dead@.contains_key(k) {
                        spec_damaged_hp(mid.components.hp@[k], spec.mechanics)
                    } else {
                        mid.components.hp@[k]
                    }),
                forall|k: Entity|
                    #[trigger] self.components.dead@.contains_key(k) == (
                    mid.components.dead@.contains_key(k) || (spec_in_prefix(
                        characters@,
                        i as int,
                        k,
                    ) && spec_blast_hit(mid, coord, spec.mechanics, k)
                        && mid.components.hp@.contains_key(k)
                        && !mid.components.dead@.contains_key(k) && spec_damage_kills(
                        mid.components.hp@[k],
                        spec.mechanics,
                    ))),
            decreases characters@.len() - i,
        {
            let k = characters[i];
            proof {
                assert forall|j: int| 0 <= j < i implies characters@[j] != k by {
                    assert(characters@[j].index < characters@[i as int].index);
                }
                assert(!spec_in_prefix(characters@, i as int, k));
            }
            let coord_opt = self.spatial_table.coord_of(k);
            if let Some(c) = coord_opt {
                proof {
                    self.spatial_table.lemma_located_in_bounds(k);
                    self.spatial_table.lemma_dims();
                }
                let d2 = c.distance2(coord);
                if d2 <= spec.mechanics as u64 {
                    self.damage_character(k, spec.mechanics);
                } else {
                    proof {
                        assert(!spec_blast_hit(mid, coord, spec.mechanics, k));
                    }
                }
            } else {
                proof {
                    assert(!spec_blast_hit(mid, coord, spec.mechanics, k));
                }
            }
            proof {
                assert forall|o: Entity| #[trigger]
                    spec_in_prefix(characters@, i + 1, o) == (spec_in_prefix(
                    characters@,
                    i as int,
                    o,
                ) || o == k) by {
                    if spec_in_prefix(characters@, i + 1, o) {
                        let j = choose|j: int| 0 <= j < i + 1 && characters@[j] == o;
                        if j == i {
                            assert(o == k);
                        }
                    }
                    if o == k {
                        assert(characters@[i as int] == o);
                    }
                }
            }
            i += 1;
        }
        proof {
            assert forall|k: Entity|
                mid.components.character@.contains_key(k) implies spec_in_prefix(
                characters@,
                characters@.len() as int,
                k,
            ) by {
                assert(characters@.contains(k));
            }
        }
        emitter
    }

    /// Resolves a projectile hit on an entity.  Against an armoured victim,
    /// the projectile damages it exactly when its penetration exceeds the
    /// armour and then keeps travelling with the armour's value subtracted
    /// from its penetration; a projectile that fails to penetrate is
    /// entirely absorbed and removed without dealing damage.  A hit on an
    /// unarmoured entity does nothing.
    pub fn apply_projectile_damage(
        &mut self,
        projectile_entity: Entity,
        projectile_damage: ProjectileDamage,
        projectile_movement_direction: Direction,
        entity_to_damage: Entity,
    )
        requires
            old(self).wf(),
            old(self).entity_allocator.spec_exists(projectile_entity),
            old(self).components.armour@.contains_key(entity_to_damage) ==> old(
                self,
            ).components.hp@.contains_key(entity_to_damage) || old(
                self,
            ).components.dead@.contains_key(entity_to_damage),
            !(old(self).spatial_table@.contains_key(projectile_entity) && old(
                self,
            ).spatial_table@[projectile_entity].layer == Some(crate::spatial::Layer::Character)),
        ensures
            final(self).wf(),
            spec_apply_projectile_rel(
                *old(self),
                *final(self),
                projectile_entity,
                projectile_damage,
                projectile_movement_direction,
                entity_to_damage,
            ),
    {
        let armour_opt = match self.components.armour.get(entity_to_damage) {
            Some(a) => Some(*a),
            None => None,
        };
        if let Some(armour) = armour_opt {
            if projectile_damage.pen > armour.value {
                let remaining_pen = projectile_damage.pen - armour.value;
                let victim_health = match self.components.hp.get(entity_to_damage) {
                    Some(h) => h.current,
                    None => 0,
                };
                let actual_damage = if projectile_damage.hit_points < victim_health {
                    projectile_damage.hit_points
                } else {
                    victim_health
                };
                self.damage_character(entity_to_damage, projectile_damage.hit_points);

                // Life steal returns the hit points actually lost to the
                // player.
                if projectile_damage.life_steal {
                    if let Some(player) = self.player_entity {
                        let player_hp = match self.components.hp.get(player) {
                            Some(h) => Some(*h),
                            None => None,
                        };
                        if let Some(hit_points) = player_hp {
                            let healed: u64 = hit_points.current as u64 + actual_damage as u64;
                            let new_current: u32 = if healed > hit_points.max as u64 {
                                hit_points.max
                            } else {
                                healed as u32
                            };
                            let ghost before_hp = self.components.hp@;
                            self.components.hp.insert(
                                player,
                                HitPoints { current: new_current, max: hit_points.max },
                            );
                            proof {
                                lemma_table_insert_view(
                                    old(self).entity_allocator,
                                    before_hp,
                                    self.components.hp@,
                                    player,
                                    HitPoints { current: new_current, max: hit_points.max },
                                );
                            }
                        }
                    }
                }

                // Push the victim back along the projectile's direction.
                if projectile_damage.push_back {
                    self.components.realtime.insert(entity_to_damage, ());
                    let movement = Movement {
                        path: projectile_movement_direction.coord(),
                        repeat: Repeat::Steps(KNOCKBACK),
                        cardinal_step_duration: PROJECTILE_KNOCKBACK_STEP_MICROS,
                    };
                    self.realtime_components.movement.insert(
                        entity_to_damage,
                        Scheduled { state: movement.build(), until_next: 1 },
                    );
                    proof {
                        let a = old(self).entity_allocator;
                        lemma_table_insert_view(
                            a,
                            old(self).components.realtime@,
                            self.components.realtime@,
                            entity_to_damage,
                            (),
                        );
                        lemma_table_insert_view(
                            a,
                            old(self).realtime_components.movement@,
                            self.realtime_components.movement@,
                            entity_to_damage,
                            Scheduled {
                                state: spec_knockback_state(
                                    projectile_movement_direction.spec_coord(),
                                    PROJECTILE_KNOCKBACK_STEP_MICROS,
                                ),
                                until_next: 1u64,
                            },
                        );
                    }
                }

                let reduced = ProjectileDamage { pen: remaining_pen, ..projectile_damage };
                let ghost before_pd = self.components.projectile_damage@;
                self.components.projectile_damage.insert(projectile_entity, reduced);
                proof {
                    lemma_table_insert_view(
                        old(self).entity_allocator,
                        before_pd,
                        self.components.projectile_damage@,
                        projectile_entity,
                        reduced,
                    );
                }
            } else {
                // Entirely absorbed: the projectile is spent.
                self.components.remove_entity(projectile_entity);
            }
        }
    }

    /// Strips a projectile's in-flight movement and realtime marker without
    /// resolving its collision behavior: a stop with no side effects.
    fn halt_projectile(&mut self, e: Entity)
        requires
            old(self).wf(),
        ensures
            final(self).wf(),
            spec_halt_rel(*old(self), *final(self), e),
    {
        self.components.realtime.remove(e);
        self.realtime_components.movement.remove(e);
    }

    /// One scheduled step of a projectile (or of a character in knockback).
    /// Probes the destination cell before any mutation: a character there
    /// takes the projectile's payload; an occupant the projectile collides
    /// with stops it (after damaging the occupant if it has hit points), and
    /// a knocked-back character slamming into it takes impact damage scaled
    /// by the distance travelled, capped at 2; a destination off the grid
    /// halts the projectile without side effects, never resolving its
    /// collision behavior; otherwise the projectile slides into the free
    /// cell.
    pub fn projectile_move(&mut self, projectile_entity: Entity, movement_direction: Direction)
        requires
            old(self).wf(),
        ensures
            final(self).wf(),
            spec_move_rel(*old(self), *final(self), projectile_entity, movement_direction),
    {
        let p = projectile_entity;
        let current_opt = self.spatial_table.coord_of(p);
        let current_coord = match current_opt {
            None => {
                self.clear_entity(p);
                return ;
            },
            Some(c) => c,
        };
        proof {
            self.spatial_table.lemma_located_in_bounds(p);
            self.spatial_table.lemma_dims();
        }
        let next_coord = current_coord.plus(movement_direction.coord());
        let collides_with = match self.components.collides_with.get(p) {
            Some(c) => *c,
            None => crate::weapon::CollidesWith::new_default(),
        };
        let cell = match self.spatial_table.layers_at(next_coord) {
            None => {
                // off the traversable grid: the projectile stops without
                // side effects — its collision behavior is not resolved
                self.halt_projectile(p);
                return ;
            },
            Some(cell) => cell,
        };

        // A character in the destination cell takes the payload.
        if let Some(character_entity) = cell.character {
            let pd_opt = match self.components.projectile_damage.get(p) {
                Some(pd) => Some(*pd),
                None => None,
            };
            if let Some(projectile_damage) = pd_opt {
                proof {
                    self.spatial_table.lemma_slot_occupant(
                        next_coord,
                        Layer::Character,
                        character_entity,
                    );
                    assert(self.spatial_table@[character_entity].layer == Some(Layer::Character));
                    assert(self.components.player@.contains_key(character_entity)
                        || self.components.npc@.contains_key(character_entity));
                    assert(self.components.hp@.contains_key(character_entity)
                        || self.components.dead@.contains_key(character_entity));
                }
                self.apply_projectile_damage(p, projectile_damage, movement_direction, character_entity);
            }
        }
        let ghost m1 = *self;
        proof {
            assert(spec_next_of(*old(self), p, movement_direction) == next_coord);
            assert(cell == old(self).spatial_table.spec_layers_at(next_coord));
            assert(spec_char_hit_at(*old(self), m1, p, movement_direction));
        }

        // An occupant the projectile collides with stops it.
        let blocker_opt = match cell.feature {
            Some(f) => Some(f),
            None => cell.character,
        };
        if let Some(entity_in_cell) = blocker_opt {
            proof {
                // The occupant stands at the destination, the projectile a
                // step before it, so they are different entities and the
                // payload hit touched none of the occupant's markers.
                let b = entity_in_cell;
                if old(self).spatial_table.spec_layers_at(next_coord).feature == Some(b) {
                    old(self).spatial_table.lemma_slot_occupant(next_coord, Layer::Feature, b);
                } else {
                    old(self).spatial_table.lemma_slot_occupant(next_coord, Layer::Character, b);
                }
                old(self).spatial_table.lemma_located_in_bounds(p);
                assert(movement_direction.spec_coord().x != 0 || movement_direction.spec_coord().y
                    != 0);
                assert(next_coord != current_coord);
                assert(b != p);
                assert(self.components.solid@.contains_key(b) == old(
                    self,
                ).components.solid@.contains_key(b));
                assert(self.components.character@.contains_key(b) == old(
                    self,
                ).components.character@.contains_key(b));
            }
            if (collides_with.solid && self.components.solid.contains(entity_in_cell)) || (
            collides_with.character && self.components.character.contains(entity_in_cell)) {
                let pd_opt = match self.components.projectile_damage.get(p) {
                    Some(pd) => Some(*pd),
                    None => None,
                };
                if let Some(projectile_damage) = pd_opt {
                    if self.components.hp.contains(entity_in_cell) {
                        self.apply_projectile_damage(
                            p,
                            projectile_damage,
                            movement_direction,
                            entity_in_cell,
                        );
                    }
                    self.projectile_stop(p);
                }
                let ghost m3 = *self;
                proof {
                    assert(spec_feature_hit_then_stop(
                        m1,
                        m3,
                        p,
                        movement_direction,
                        entity_in_cell,
                    ));
                }

                // A knocked-back character slams into the occupant.
                if self.realtime_components.movement.contains(p) && self.components.character.contains(
                    p,
                ) {
                    let from_opt = match self.components.pushed_from.get(p) {
                        Some(c) => Some(*c),
                        None => None,
                    };
                    if let Some(from_coord) = from_opt {
                        let distance = current_coord.manhattan_distance(from_coord);
                        let dmg = if distance >= 2 {
                            2
                        } else {
                            distance
                        };
                        let npc_opt = match self.components.npc.get(p) {
                            Some(n) => Some(*n),
                            None => None,
                        };
                        if let Some(npc) = npc_opt {
                            self.append_log(
                                crate::event::Message::EnemySlammedIntoWall(npc.npc_type),
                            );
                        }
                        self.damage_character(p, dmg);
                    }
                }
                let ghost m4 = *self;
                proof {
                    assert(spec_wall_slam(m3, m4, p, current_coord));
                }
                self.projectile_stop(p);
                proof {
                    let pre = *old(self);
                    assert(spec_next_of(pre, p, movement_direction) == next_coord);
                    assert(cell == pre.spatial_table.spec_layers_at(next_coord));
                    assert(spec_blocker_of(pre, p, movement_direction) == Some(entity_in_cell));
                    assert(spec_blocked_chain(pre, m1, m3, m4, p, movement_direction));
                    assert(spec_stop_rel(m4, *self, p));
                    assert(spec_move_rel(pre, *self, p, movement_direction));
                }
                return ;
            }
        }

        // The destination is free for this projectile: slide into it.
        let slide_result = self.spatial_table.update_coord(p, next_coord);
        proof {
            match slide_result {
                Ok(()) => {
                    assert(self.spatial_table@ =~= m1.spatial_table@.insert(
                        p,
                        Location { coord: next_coord, layer: m1.spatial_table@[p].layer },
                    ));
                },
                Err(crate::spatial::SpatialError::OccupiedBy(_)) => {},
                Err(crate::spatial::SpatialError::OutOfBounds) => {
                    assert(false);
                },
            }
            assert(spec_plain_slide(m1, *self, p, next_coord));
        }
    }

    /// Stops a projectile: resolves its collision behavior — removal,
    /// realtime-only removal, or an explosion at its current position — and
    /// strips its in-flight movement, terminating the motion even when a
    /// path was still remaining.
    pub fn projectile_stop(&mut self, projectile_entity: Entity)
        requires
            old(self).wf(),
        ensures
            final(self).wf(),
            spec_stop_rel(*old(self), *final(self), projectile_entity),
            !final(self).realtime_components.movement@.contains_key(projectile_entity),
    {
        let located = self.spatial_table.coord_of(projectile_entity);
        if let Some(current_coord) = located {
            let on_collision = match self.components.on_collision.get(projectile_entity) {
                Some(c) => Some(*c),
                None => None,
            };
            if let Some(on_collision) = on_collision {
                match on_collision {
                    OnCollision::Remove => {
                        self.destroy_entity(projectile_entity);
                    },
                    OnCollision::RemoveRealtime => {
                        self.realtime_components.remove_entity(projectile_entity);
                        self.components.realtime.remove(projectile_entity);
                        self.components.blocks_gameplay.remove(projectile_entity);
                    },
                    OnCollision::Explode(explosion_spec) => {
                        proof {
                            old(self).spatial_table.lemma_located_in_bounds(projectile_entity);
                        }
                        let ghost pre = *old(self);
                        let emitter = self.explode(current_coord, explosion_spec);
                        let ghost mid = *self;
                        self.destroy_entity(projectile_entity);
                        proof {
                            assert(spec_exploded(
                                pre,
                                mid,
                                pre.spatial_table@[projectile_entity].coord,
                                explosion_spec,
                                emitter,
                            ));
                            assert(spec_destroyed(mid, *self, projectile_entity));
                        }
                    },
                }
            }
        }
        let ghost before_trailing = *self;
        self.components.realtime.remove(projectile_entity);
        self.realtime_components.movement.remove(projectile_entity);
        proof {
            let e = projectile_entity;
            if old(self).spatial_table@.contains_key(e) && old(
                self,
            ).components.on_collision@.contains_key(e) {
                match old(self).components.on_collision@[e] {
                    OnCollision::Remove => {
                        assert(self.components.realtime@ =~= before_trailing.components.realtime@);
                        assert(self.realtime_components.movement@
                            =~= before_trailing.realtime_components.movement@);
                    },
                    OnCollision::RemoveRealtime => {
                        assert(self.components.realtime@ =~= before_trailing.components.realtime@);
                        assert(self.realtime_components.movement@
                            =~= before_trailing.realtime_components.movement@);
                    },
                    OnCollision::Explode(_) => {
                        assert(self.components.realtime@ =~= before_trailing.components.realtime@);
                        assert(self.realtime_components.movement@
                            =~= before_trailing.realtime_components.movement@);
                    },
                }
            }
        }
    }

    /// Deals `hit_points_to_lose` damage to a character.  Damage to a dead
    /// character is a no-op, the loss is clamped at the character's current
    /// hit points, and reaching zero marks the character dead.
    pub fn damage_character(&mut self, character: Entity, hit_points_to_lose: u32)
        requires
            old(self).wf(),
            old(self).entity_allocator.spec_exists(character),
            old(self).components.dead@.contains_key(character) || old(
                self,
            ).components.hp@.contains_key(character),
        ensures
            final(self).wf(),
            *final(self) == (World { components: final(self).components, ..*old(self) }),
            final(self).components == (Components {
                hp: final(self).components.hp,
                dead: final(self).components.dead,
                ..old(self).components
            }),
            spec_damage_tables(*old(self), *final(self), character, hit_points_to_lose),
    {
        if self.components.dead.contains(character) {
            // prevents cascading damage from simultaneous explosion ticks
            return ;
        }
        let hp = *self.components.hp.get(character).unwrap();
        if hit_points_to_lose >= hp.current {
            self.components.hp.insert(character, HitPoints { current: 0, max: hp.max });
            proof {
                lemma_table_insert_view(
                    old(self).entity_allocator,
                    old(self).components.hp@,
                    self.components.hp@,
                    character,
                    HitPoints { current: 0, max: hp.max },
                );
            }
            self.character_die(character);
        } else {
            self.components.hp.insert(
                character,
                HitPoints { current: hp.current - hit_points_to_lose, max: hp.max },
            );
            proof {
                lemma_table_insert_view(
                    old(self).entity_allocator,
                    old(self).components.hp@,
                    self.components.hp@,
                    character,
                    HitPoints {
                        current: (hp.current - hit_points_to_lose) as u32,
                        max: hp.max,
                    },
                );
            }
        }
    }
}

} // verus!
