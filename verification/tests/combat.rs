//! Combat rules: the armour gate, death handling, life steal and knockback.

use forgotten_core::data::Player;
use forgotten_core::geom::{CardinalDirection, Coord, Direction};
use forgotten_core::realtime::PathState;
use forgotten_core::weapon::{AbilitySet, Ammo, ProjectileDamage, Weapon, WeaponType};
use forgotten_core::world::World;

fn arena() -> World {
    World::new(20, 20, 7)
}

fn melee_weapon(pen: u32, dmg: u32, knock_back: bool) -> Weapon {
    Weapon {
        name: WeaponType::Chainsaw,
        dmg,
        pen,
        ammo: None,
        abilities: AbilitySet {
            knock_back,
            shock: false,
            life_steal: false,
        },
        on_collision: None,
        light_colour: None,
        hull_pen_percent: 0,
        bright: false,
    }
}

fn set_melee(world: &mut World, player: forgotten_core::entity::Entity, weapon: Weapon) {
    let p = *world.components.player.get(player).unwrap();
    world
        .components
        .player
        .insert(player, Player { melee_weapon: weapon, ..p });
}

#[test]
fn dead_characters_take_no_further_damage() {
    let mut world = arena();
    let npc = world.spawn_secbot(Coord::new(3, 3));
    world.components.dead.insert(npc, ());
    let before = *world.components.hp.get(npc).unwrap();
    world.damage_character(npc, 4);
    let after = *world.components.hp.get(npc).unwrap();
    assert_eq!(before, after);
}

#[test]
fn damage_clamps_at_zero_and_kills() {
    let mut world = arena();
    let npc = world.spawn_secbot(Coord::new(3, 3));
    world.damage_character(npc, 99);
    assert_eq!(world.components.hp.get(npc).unwrap().current, 0);
    assert!(world.components.dead.contains(npc));
}

#[test]
fn melee_equal_penetration_deals_no_damage() {
    // penetration 5 against armour 5: fully absorbed
    let mut world = arena();
    let player = world.spawn_player(Coord::new(1, 1));
    let npc = world.spawn_robocop(Coord::new(2, 1)); // armour 5, 10 hit points
    set_melee(&mut world, player, melee_weapon(5, 4, false));
    world.player_melee_attack(player, npc, CardinalDirection::East);
    assert_eq!(world.components.hp.get(npc).unwrap().current, 10);
    assert!(!world.components.dead.contains(npc));
}

#[test]
fn melee_exceeding_penetration_deals_full_damage() {
    // penetration 6 against armour 5: the full weapon damage lands
    let mut world = arena();
    let player = world.spawn_player(Coord::new(1, 1));
    let npc = world.spawn_robocop(Coord::new(2, 1));
    set_melee(&mut world, player, melee_weapon(6, 4, false));
    world.player_melee_attack(player, npc, CardinalDirection::East);
    assert_eq!(world.components.hp.get(npc).unwrap().current, 6);
}

#[test]
fn ranged_equal_penetration_removes_projectile_without_damage() {
    let mut world = arena();
    world.spawn_player(Coord::new(1, 1));
    let npc = world.spawn_robocop(Coord::new(5, 1)); // armour 5
    let weapon = Weapon {
        pen: 5,
        ..WeaponType::Pistol.new_weapon()
    };
    let bullet = world.spawn_bullet(Coord::new(1, 1), Coord::new(5, 1), &weapon);
    let pd = *world.components.projectile_damage.get(bullet).unwrap();
    world.apply_projectile_damage(bullet, pd, Direction::East, npc);
    assert_eq!(world.components.hp.get(npc).unwrap().current, 10);
    assert!(!world.components.projectile_damage.contains(bullet));
}

#[test]
fn ranged_exceeding_penetration_damages_and_carries_through() {
    let mut world = arena();
    world.spawn_player(Coord::new(1, 1));
    let npc = world.spawn_robocop(Coord::new(5, 1)); // armour 5, 10 hit points
    let weapon = Weapon {
        pen: 6,
        dmg: 2,
        ..WeaponType::Pistol.new_weapon()
    };
    let bullet = world.spawn_bullet(Coord::new(1, 1), Coord::new(5, 1), &weapon);
    let pd = *world.components.projectile_damage.get(bullet).unwrap();
    world.apply_projectile_damage(bullet, pd, Direction::East, npc);
    assert_eq!(world.components.hp.get(npc).unwrap().current, 8);
    // the projectile keeps travelling with penetration reduced by the armour
    assert_eq!(world.components.projectile_damage.get(bullet).unwrap().pen, 1);
}

#[test]
fn bare_hands_then_armed_scenario() {
    // bare hands (penetration 0, damage 1) cannot scratch an armoured robot
    let mut world = arena();
    let player = world.spawn_player(Coord::new(1, 1));
    let npc = world.spawn_secbot(Coord::new(2, 1)); // armour 3, 5 hit points
    world.melee_attack(player, npc, CardinalDirection::East);
    assert_eq!(world.components.hp.get(npc).unwrap().current, 5);

    // an armed swing with penetration 5 lands its configured damage
    set_melee(&mut world, player, melee_weapon(5, 2, false));
    world.melee_attack(player, npc, CardinalDirection::East);
    assert_eq!(world.components.hp.get(npc).unwrap().current, 3);

    // enough damage kills and marks the robot dead
    set_melee(&mut world, player, melee_weapon(5, 10, false));
    world.melee_attack(player, npc, CardinalDirection::East);
    assert_eq!(world.components.hp.get(npc).unwrap().current, 0);
    assert!(world.components.dead.contains(npc));
}

#[test]
fn npc_melee_is_a_no_op() {
    let mut world = arena();
    let player = world.spawn_player(Coord::new(1, 1));
    let npc = world.spawn_secbot(Coord::new(2, 1));
    let hp = *world.components.hp.get(player).unwrap();
    world.melee_attack(npc, player, CardinalDirection::West);
    assert_eq!(*world.components.hp.get(player).unwrap(), hp);
}

#[test]
fn melee_knockback_pushes_three_cardinal_steps() {
    let mut world = arena();
    let player = world.spawn_player(Coord::new(1, 1));
    let npc = world.spawn_secbot(Coord::new(2, 1));
    set_melee(&mut world, player, melee_weapon(6, 1, true));
    world.player_melee_attack(player, npc, CardinalDirection::East);
    let sched = *world.realtime_components.movement.get(npc).unwrap();
    assert_eq!(sched.state.cardinal_step_duration(), 50_000);
    match sched.state.path {
        PathState::Steps { remaining, .. } => assert_eq!(remaining, 3),
        _ => panic!("knockback should be a fixed-step path"),
    }
    assert!(world.components.pushed_from.contains(npc));
}

#[test]
fn melee_ammo_wears_out_to_bare_hands() {
    let mut world = arena();
    let player = world.spawn_player(Coord::new(1, 1));
    let npc = world.spawn_secbot(Coord::new(2, 1));
    let worn = Weapon {
        ammo: Some(Ammo { current: 1, max: 10 }),
        ..melee_weapon(6, 1, false)
    };
    set_melee(&mut world, player, worn);
    world.player_melee_attack(player, npc, CardinalDirection::East);
    let p = *world.components.player.get(player).unwrap();
    assert_eq!(p.melee_weapon, Weapon::new_bare_hands());
}

#[test]
fn life_steal_heals_the_player() {
    let mut world = arena();
    let player = world.spawn_player(Coord::new(1, 1));
    world.components.hp.insert(
        player,
        forgotten_core::stats::HitPoints {
            current: 50,
            max: 100,
        },
    );
    let npc = world.spawn_robocop(Coord::new(5, 1)); // armour 5, 10 hit points
    let pd = ProjectileDamage {
        hit_points: 4,
        pen: 6,
        push_back: false,
        life_steal: true,
        hull_pen_percent: 0,
        weapon_name: Some(WeaponType::LifeStealer),
    };
    let weapon = Weapon {
        pen: 6,
        dmg: 4,
        ..WeaponType::LifeStealer.new_weapon()
    };
    let bullet = world.spawn_bullet(Coord::new(1, 1), Coord::new(5, 1), &weapon);
    world.apply_projectile_damage(bullet, pd, Direction::East, npc);
    assert_eq!(world.components.hp.get(npc).unwrap().current, 6);
    assert_eq!(world.components.hp.get(player).unwrap().current, 54);
}
