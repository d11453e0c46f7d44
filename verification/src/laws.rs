//! The laws the simulation keeps, stated and proved once over the action
//! relations rather than left implicit in them.

use crate::action::{
    spec_damage_kills, spec_damage_tables, spec_damaged_hp, spec_fire_rel, spec_knockback_state,
    spec_melee_tables, spec_penetrates, KNOCKBACK, MELEE_KNOCKBACK_STEP_MICROS,
    PROJECTILE_KNOCKBACK_STEP_MICROS,
};
use crate::data::RangedWeaponSlot;
use crate::entity::Entity;
use crate::geom::{CardinalDirection, Coord, Direction};
use crate::realtime::{spec_ordinal_duration, MAX_STEP_MICROS};
use crate::world::World;
use vstd::prelude::*;

verus! {

/// A character marked dead takes no damage: the damage relation leaves
/// every hit-point entry exactly as it was, so hit points never decrease
/// further.
pub proof fn lemma_dead_characters_take_no_damage(
    pre: World,
    post: World,
    character: Entity,
    amount: u32,
)
    requires
        spec_damage_tables(pre, post, character, amount),
        pre.components.dead@.contains_key(character),
    ensures
        post.components.hp@ == pre.components.hp@,
        post.components.dead@ == pre.components.dead@,
{
}

/// A melee swing damages its victim exactly when the weapon's penetration
/// exceeds the victim's armour: with penetration through, the victim's hit
/// points drop by the weapon's damage (clamped at zero, dying exactly at
/// zero); without it, no hit-point entry changes at all.
pub proof fn lemma_melee_damage_iff_penetrates(
    pre: World,
    post: World,
    attacker: Entity,
    victim: Entity,
    direction: CardinalDirection,
)
    requires
        spec_melee_tables(pre, post, attacker, victim, direction),
        pre.components.player@.contains_key(attacker),
        pre.components.hp@.contains_key(victim),
        !pre.components.dead@.contains_key(victim),
        pre.components.armour@.contains_key(victim),
    ensures
        spec_penetrates(
            pre.components.player@[attacker].melee_weapon.pen,
            pre.components.armour@[victim].value,
        ) ==> post.components.hp@[victim] == spec_damaged_hp(
            pre.components.hp@[victim],
            pre.components.player@[attacker].melee_weapon.dmg,
        ) && (post.components.dead@.contains_key(victim) <==> spec_damage_kills(
            pre.components.hp@[victim],
            pre.components.player@[attacker].melee_weapon.dmg,
        )),
        !spec_penetrates(
            pre.components.player@[attacker].melee_weapon.pen,
            pre.components.armour@[victim].value,
        ) ==> post.components.hp@ == pre.components.hp@ && post.components.dead@
            == pre.components.dead@,
        spec_penetrates(
            pre.components.player@[attacker].melee_weapon.pen,
            pre.components.armour@[victim].value,
        ) == (pre.components.player@[attacker].melee_weapon.pen
            > pre.components.armour@[victim].value),
{
}

/// Firing a weapon whose finite ammunition is exhausted changes nothing:
/// no round is spent, no projectile or flash is spawned, and ammunition
/// never goes below zero.
pub proof fn lemma_empty_weapon_never_fires(
    pre: World,
    post: World,
    character: Entity,
    target: Coord,
    slot: RangedWeaponSlot,
)
    requires
        spec_fire_rel(pre, post, character, target, slot),
        crate::action::spec_fire_weapon_of(pre, character, slot) is Some,
        crate::action::spec_fire_weapon_of(pre, character, slot)->Some_0.ammo is Some,
        crate::action::spec_fire_weapon_of(pre, character, slot)->Some_0.ammo->Some_0.current
            == 0,
    ensures
        post == pre,
{
}

/// A knockback movement takes exactly `KNOCKBACK` steps and then reports
/// exhaustion: for a cardinal push direction, each of the three ticks
/// yields that direction with the configured step duration, and the fourth
/// tick yields no step, so an interrupted knockback also terminates — its
/// state is simply discarded.
pub proof fn lemma_knockback_takes_three_steps(direction: CardinalDirection, step_micros: u64)
    requires
        1 <= step_micros <= MAX_STEP_MICROS,
    ensures
        ({
            let m0 = spec_knockback_state(direction.spec_coord(), step_micros);
            let t1 = m0.spec_tick();
            let t2 = t1.2.spec_tick();
            let t3 = t2.2.spec_tick();
            let t4 = t3.2.spec_tick();
            &&& KNOCKBACK == 3
            &&& t1.0 == Some(direction.spec_direction()) && t1.1 == step_micros
            &&& t2.0 == Some(direction.spec_direction()) && t2.1 == step_micros
            &&& t3.0 == Some(direction.spec_direction()) && t3.1 == step_micros
            &&& t4.0 == None::<Direction>
        }),
{
    let m0 = spec_knockback_state(direction.spec_coord(), step_micros);
    assert(m0.path is Steps);
    let t1 = m0.spec_tick();
    let t2 = t1.2.spec_tick();
    let t3 = t2.2.spec_tick();
    let t4 = t3.2.spec_tick();
    match direction {
        CardinalDirection::North => {
            assert(t1.0 == Some(direction.spec_direction()));
        },
        CardinalDirection::East => {
            assert(t1.0 == Some(direction.spec_direction()));
        },
        CardinalDirection::South => {
            assert(t1.0 == Some(direction.spec_direction()));
        },
        CardinalDirection::West => {
            assert(t1.0 == Some(direction.spec_direction()));
        },
    }
}

/// The two knockback flavours use the documented step durations: melee
/// knockback pushes at 50 milliseconds a step, projectile push-back at 100.
pub proof fn lemma_knockback_step_durations()
    ensures
        MELEE_KNOCKBACK_STEP_MICROS == 50_000,
        PROJECTILE_KNOCKBACK_STEP_MICROS == 100_000,
        KNOCKBACK == 3,
{
}

/// An identifier that is not live is unencumbered in a well-formed world:
/// no component table, realtime table or spatial mapping holds anything for
/// it.  Together with the allocator's guarantee that a fresh identifier was
/// not live before its allocation, a recycled identifier can never observe
/// data of the entity it replaced.
pub proof fn lemma_fresh_identifier_unencumbered(w: World, e: Entity)
    requires
        w.wf(),
        !w.entity_allocator.spec_exists(e),
    ensures
        w.components.spec_absent(e),
        w.realtime_components.spec_absent(e),
        !w.spatial_table@.contains_key(e),
{
    assert(!w.components.tile@.contains_key(e));
    assert(!w.components.player@.contains_key(e));
    assert(!w.components.npc@.contains_key(e));
    assert(!w.components.hp@.contains_key(e));
    assert(!w.components.armour@.contains_key(e));
    assert(!w.components.dead@.contains_key(e));
    assert(!w.components.solid@.contains_key(e));
    assert(!w.components.character@.contains_key(e));
    assert(!w.components.door_state@.contains_key(e));
    assert(!w.components.grass_state@.contains_key(e));
    assert(!w.components.stunned@.contains_key(e));
    assert(!w.components.item@.contains_key(e));
    assert(!w.components.weapon@.contains_key(e));
    assert(!w.components.projectile_damage@.contains_key(e));
    assert(!w.components.collides_with@.contains_key(e));
    assert(!w.components.on_collision@.contains_key(e));
    assert(!w.components.realtime@.contains_key(e));
    assert(!w.components.blocks_gameplay@.contains_key(e));
    assert(!w.components.pushed_from@.contains_key(e));
    assert(!w.components.upgrade@.contains_key(e));
    assert(!w.components.opacity@.contains_key(e));
    assert(!w.components.light@.contains_key(e));
    assert(!w.components.damage@.contains_key(e));
}

/// The diagonal step duration is the cardinal duration scaled by √2 at
/// microsecond granularity: exactly `cardinal × 1414214 / 1000000`,
/// rounded down.
pub proof fn lemma_ordinal_duration_formula(cardinal_micros: u64)
    ensures
        spec_ordinal_duration(cardinal_micros) == (cardinal_micros as int) * 1_414_214
            / 1_000_000,
{
}

} // verus!
