//! The spatial index, walking, firing, projectiles and the alarm.

use forgotten_core::data::{Player, RangedWeaponSlot};
use forgotten_core::event::{ActionError, ControlFlow, ExternalEvent, SoundEffect};
use forgotten_core::geom::{CardinalDirection, Coord, Direction};
use forgotten_core::spatial::SpatialError;
use forgotten_core::weapon::{Ammo, Weapon, WeaponType};
use forgotten_core::world::World;

fn arena() -> World {
    World::new(20, 20, 11)
}

#[test]
fn moving_onto_an_occupied_slot_changes_nothing_and_names_the_occupant() {
    let mut world = arena();
    let a = world.spawn_secbot(Coord::new(2, 2));
    let b = world.spawn_minibot(Coord::new(3, 2));
    let before_a = world.spatial_table.coord_of(a);
    let before_b = world.spatial_table.coord_of(b);
    let result = world.spatial_table.update_coord(a, Coord::new(3, 2));
    assert_eq!(result, Err(SpatialError::OccupiedBy(b)));
    assert_eq!(world.spatial_table.coord_of(a), before_a);
    assert_eq!(world.spatial_table.coord_of(b), before_b);
}

#[test]
fn freed_identifiers_never_alias_old_data() {
    let mut world = arena();
    let item = world.spawn_weapon(Coord::new(4, 4), WeaponType::Pistol);
    assert!(world.components.item.contains(item));
    world.destroy_entity(item);
    let recycled = world.entity_allocator.allocate();
    assert_ne!(item, recycled);
    assert!(!world.components.item.contains(recycled));
    assert!(!world.components.weapon.contains(recycled));
    assert!(!world.components.tile.contains(recycled));
    assert!(world.spatial_table.coord_of(recycled).is_none());
}

#[test]
fn walking_into_a_closed_door_opens_it() {
    let mut world = arena();
    let player = world.spawn_player(Coord::new(1, 1));
    let door = world.spawn_door(Coord::new(2, 1));
    let result = world.character_walk_in_direction(player, CardinalDirection::East);
    assert_eq!(result, Ok(None));
    assert_eq!(
        world.components.door_state.get(door),
        Some(&forgotten_core::data::DoorState::Open)
    );
    assert!(!world.components.solid.contains(door));
    // the player did not move
    assert_eq!(world.spatial_table.coord_of(player), Some(Coord::new(1, 1)));
    assert_eq!(
        world.external_events.last(),
        Some(&ExternalEvent::SoundEffect(SoundEffect::DoorOpen))
    );
}

#[test]
fn walking_into_a_wall_is_refused() {
    let mut world = arena();
    let player = world.spawn_player(Coord::new(1, 1));
    world.spawn_wall(Coord::new(2, 1));
    let result = world.character_walk_in_direction(player, CardinalDirection::East);
    assert_eq!(result, Err(ActionError::CannotWalkThere));
    assert_eq!(world.spatial_table.coord_of(player), Some(Coord::new(1, 1)));
}

#[test]
fn walking_next_to_a_wall_closes_an_adjacent_open_door() {
    let mut world = arena();
    let player = world.spawn_player(Coord::new(1, 1));
    world.spawn_wall(Coord::new(2, 1));
    let door = world.spawn_door(Coord::new(2, 2));
    world.open_door(door);
    let result = world.character_walk_in_direction(player, CardinalDirection::East);
    assert_eq!(result, Ok(None));
    assert_eq!(
        world.components.door_state.get(door),
        Some(&forgotten_core::data::DoorState::Closed)
    );
}

#[test]
fn walking_into_the_upgrade_station_signals_the_menu() {
    let mut world = arena();
    let player = world.spawn_player(Coord::new(1, 1));
    let station = world.spawn_wall(Coord::new(2, 1));
    world.components.upgrade.insert(station, ());
    let result = world.character_walk_in_direction(player, CardinalDirection::East);
    assert_eq!(result, Ok(Some(ControlFlow::Upgrade)));
}

#[test]
fn walking_crushes_grass_and_moves() {
    let mut world = arena();
    let player = world.spawn_player(Coord::new(1, 1));
    let grass = world.spawn_grass(Coord::new(2, 1));
    let result = world.character_walk_in_direction(player, CardinalDirection::East);
    assert_eq!(result, Ok(None));
    assert_eq!(
        world.components.grass_state.get(grass),
        Some(&forgotten_core::data::GrassState::Crushed)
    );
    assert_eq!(world.spatial_table.coord_of(player), Some(Coord::new(2, 1)));
}

#[test]
fn walking_onto_a_character_redirects_into_melee() {
    let mut world = arena();
    let player = world.spawn_player(Coord::new(1, 1));
    let npc = world.spawn_minibot(Coord::new(2, 1)); // armour 1, 4 hit points
    let p = *world.components.player.get(player).unwrap();
    world.components.player.insert(
        player,
        Player {
            melee_weapon: Weapon {
                pen: 2,
                dmg: 1,
                ..Weapon::new_bare_hands()
            },
            ..p
        },
    );
    let result = world.character_walk_in_direction(player, CardinalDirection::East);
    assert_eq!(result, Ok(None));
    // the player stays put and the occupant takes the hit
    assert_eq!(world.spatial_table.coord_of(player), Some(Coord::new(1, 1)));
    assert_eq!(world.components.hp.get(npc).unwrap().current, 3);
}

#[test]
fn a_stunned_character_spends_the_turn_recovering() {
    let mut world = arena();
    let player = world.spawn_player(Coord::new(1, 1));
    world
        .components
        .stunned
        .insert(player, forgotten_core::stats::Stunned { turns: 2 });
    assert_eq!(
        world.character_walk_in_direction(player, CardinalDirection::East),
        Ok(None)
    );
    assert_eq!(world.spatial_table.coord_of(player), Some(Coord::new(1, 1)));
    assert_eq!(world.components.stunned.get(player).unwrap().turns, 1);
    assert_eq!(
        world.character_walk_in_direction(player, CardinalDirection::East),
        Ok(None)
    );
    assert!(!world.components.stunned.contains(player));
}

#[test]
fn firing_spends_one_round_and_spawns_a_bullet() {
    let mut world = arena();
    let player = world.spawn_player(Coord::new(1, 1));
    let p = *world.components.player.get(player).unwrap();
    world.components.player.insert(
        player,
        p.with_ranged_weapon(RangedWeaponSlot::One, Some(WeaponType::Pistol.new_weapon())),
    );
    let moving_before = world.realtime_components.movement.keys().len();
    world.character_fire_bullet(player, Coord::new(6, 1), RangedWeaponSlot::One);
    let p = *world.components.player.get(player).unwrap();
    let ammo = p
        .ranged_weapon(RangedWeaponSlot::One)
        .unwrap()
        .ammo
        .unwrap();
    assert_eq!(ammo.current, 11);
    assert_eq!(
        world.realtime_components.movement.keys().len(),
        moving_before + 1
    );
    assert_eq!(
        world.external_events.last(),
        Some(&ExternalEvent::SoundEffect(SoundEffect::Pistol))
    );
}

#[test]
fn firing_an_empty_weapon_is_a_silent_no_op() {
    let mut world = arena();
    let player = world.spawn_player(Coord::new(1, 1));
    let p = *world.components.player.get(player).unwrap();
    let empty = Weapon {
        ammo: Some(Ammo { current: 0, max: 12 }),
        ..WeaponType::Pistol.new_weapon()
    };
    world
        .components
        .player
        .insert(player, p.with_ranged_weapon(RangedWeaponSlot::One, Some(empty)));
    let moving_before = world.realtime_components.movement.keys().len();
    let events_before = world.external_events.len();
    world.character_fire_bullet(player, Coord::new(6, 1), RangedWeaponSlot::One);
    let p = *world.components.player.get(player).unwrap();
    let ammo = p
        .ranged_weapon(RangedWeaponSlot::One)
        .unwrap()
        .ammo
        .unwrap();
    // ammunition never goes below zero and no projectile appears
    assert_eq!(ammo.current, 0);
    assert_eq!(world.realtime_components.movement.keys().len(), moving_before);
    assert_eq!(world.external_events.len(), events_before);
}

#[test]
fn firing_at_the_own_cell_does_nothing() {
    let mut world = arena();
    let player = world.spawn_player(Coord::new(1, 1));
    let p = *world.components.player.get(player).unwrap();
    world.components.player.insert(
        player,
        p.with_ranged_weapon(RangedWeaponSlot::One, Some(WeaponType::Pistol.new_weapon())),
    );
    world.character_fire_bullet(player, Coord::new(1, 1), RangedWeaponSlot::One);
    let p = *world.components.player.get(player).unwrap();
    let ammo = p
        .ranged_weapon(RangedWeaponSlot::One)
        .unwrap()
        .ammo
        .unwrap();
    assert_eq!(ammo.current, 12);
}

#[test]
fn a_projectile_stops_against_a_wall() {
    let mut world = arena();
    world.spawn_wall(Coord::new(3, 1));
    let weapon = WeaponType::Pistol.new_weapon();
    let bullet = world.spawn_bullet(Coord::new(1, 1), Coord::new(5, 1), &weapon);
    world.projectile_move(bullet, Direction::East); // to (2, 1)
    assert_eq!(world.spatial_table.coord_of(bullet), Some(Coord::new(2, 1)));
    world.projectile_move(bullet, Direction::East); // blocked by the wall
    // the bullet was removed outright
    assert!(world.spatial_table.coord_of(bullet).is_none());
    assert!(!world.realtime_components.movement.contains(bullet));
    assert!(!world.components.projectile_damage.contains(bullet));
}

#[test]
fn the_alarm_sets_and_clears_pursuit_by_distance() {
    let mut world = arena();
    let player = world.spawn_player(Coord::new(1, 1));
    let caller = world.spawn_robocop(Coord::new(10, 10));
    let near = world.spawn_minibot(Coord::new(12, 10)); // squared distance 4
    let far = world.spawn_minibot(Coord::new(19, 19)); // squared distance 162
    let mut already_pursuing = *world.components.npc.get(far).unwrap();
    already_pursuing.move_to = Some(Coord::new(5, 5));
    world.components.npc.insert(far, already_pursuing);
    world.alert_nearby_entities(caller, CardinalDirection::North, player);
    assert_eq!(
        world.components.npc.get(near).unwrap().move_to,
        Some(Coord::new(1, 1))
    );
    assert_eq!(world.components.npc.get(far).unwrap().move_to, None);
    assert!(world
        .message_log
        .contains(&forgotten_core::event::Message::AlertedNearbyEntities));
}

#[test]
fn a_projectile_leaving_the_grid_stops_without_side_effects() {
    let mut world = arena();
    let npc = world.spawn_secbot(Coord::new(17, 1)); // 5 hit points
    let explosive = forgotten_core::weapon::Weapon {
        on_collision: Some(forgotten_core::weapon::OnCollision::Explode(
            forgotten_core::weapon::ExplosionSpec {
                mechanics: 10,
                particle_emitter: forgotten_core::weapon::ParticleEmitterSpec {
                    num_particles_per_frame: 50,
                    min_step: 10_000,
                    max_step: 30_000,
                    duration: 250_000,
                    fade_duration: 250_000,
                },
            },
        )),
        ..WeaponType::Pistol.new_weapon()
    };
    let bullet = world.spawn_bullet(Coord::new(18, 1), Coord::new(30, 1), &explosive);
    world.projectile_move(bullet, Direction::East); // to (19, 1), the border
    assert_eq!(world.spatial_table.coord_of(bullet), Some(Coord::new(19, 1)));
    world.projectile_move(bullet, Direction::East); // off the grid
    // the flight ends, but the collision behavior is not resolved: no
    // explosion, no damage, and the entity keeps its components
    assert!(!world.realtime_components.movement.contains(bullet));
    assert_eq!(world.spatial_table.coord_of(bullet), Some(Coord::new(19, 1)));
    assert!(world.components.on_collision.contains(bullet));
    assert!(world.components.projectile_damage.contains(bullet));
    assert_eq!(world.components.hp.get(npc).unwrap().current, 5);
}

#[test]
fn a_knocked_back_character_slams_into_the_wall_and_stops() {
    let mut world = arena();
    let npc = world.spawn_secbot(Coord::new(2, 1)); // 5 hit points
    world.spawn_wall(Coord::new(4, 1));
    // a knockback in flight: pushed from its starting cell, three steps east
    world.components.pushed_from.insert(npc, Coord::new(2, 1));
    world.components.realtime.insert(npc, ());
    let movement = forgotten_core::realtime::Movement {
        path: Coord::new(1, 0),
        repeat: forgotten_core::realtime::Repeat::Steps(3),
        cardinal_step_duration: 50_000,
    };
    world.realtime_components.movement.insert(
        npc,
        forgotten_core::world::Scheduled {
            state: movement.build(),
            until_next: 1,
        },
    );
    world.projectile_move(npc, Direction::East); // to (3, 1)
    assert_eq!(world.spatial_table.coord_of(npc), Some(Coord::new(3, 1)));
    world.projectile_move(npc, Direction::East); // into the wall
    // one cell travelled: one point of impact damage, and the knockback ends
    assert_eq!(world.components.hp.get(npc).unwrap().current, 4);
    assert!(!world.realtime_components.movement.contains(npc));
    assert_eq!(world.spatial_table.coord_of(npc), Some(Coord::new(3, 1)));
}

#[test]
fn an_explosion_damages_only_living_characters_in_range() {
    let mut world = arena();
    let near = world.spawn_secbot(Coord::new(6, 5)); // 5 hit points
    let far = world.spawn_minibot(Coord::new(15, 15)); // 4 hit points
    let dead = world.spawn_minibot(Coord::new(5, 6));
    world.components.dead.insert(dead, ());
    let spec = forgotten_core::weapon::ExplosionSpec {
        mechanics: 10,
        particle_emitter: forgotten_core::weapon::ParticleEmitterSpec {
            num_particles_per_frame: 50,
            min_step: 10_000,
            max_step: 30_000,
            duration: 250_000,
            fade_duration: 250_000,
        },
    };
    let dead_hp = *world.components.hp.get(dead).unwrap();
    world.explode(Coord::new(5, 5), spec);
    // squared distance 1: in range of a blast of strength 10
    assert_eq!(world.components.hp.get(near).unwrap().current, 0);
    assert!(world.components.dead.contains(near));
    // far outside the radius: untouched
    assert_eq!(world.components.hp.get(far).unwrap().current, 4);
    // already dead: no cascading damage
    assert_eq!(*world.components.hp.get(dead).unwrap(), dead_hp);
}

#[test]
fn a_flash_burns_out_and_expires() {
    let mut world = arena();
    world.spawn_flash(Coord::new(2, 2), None);
    world.animation_tick(2_000_000);
    assert_eq!(world.realtime_components.fade.keys().len(), 0);
    assert!(world.next_due().is_none());
}

#[test]
fn a_bullet_flies_until_it_hits_the_wall() {
    let mut world = arena();
    world.spawn_wall(Coord::new(5, 1));
    let weapon = Weapon {
        light_colour: None,
        ..WeaponType::Pistol.new_weapon()
    };
    let bullet = world.spawn_bullet(Coord::new(1, 1), Coord::new(9, 1), &weapon);
    world.animation_tick(10_000_000);
    assert!(world.spatial_table.coord_of(bullet).is_none());
    assert!(!world.realtime_components.movement.contains(bullet));
}
