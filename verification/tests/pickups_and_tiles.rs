//! The pickup side states, equipment, and tile descriptions.

use forgotten_core::data::RangedWeaponSlot;
use forgotten_core::event::Message;
use forgotten_core::geom::Coord;
use forgotten_core::state::{GameState, StateScope, TurnState};
use forgotten_core::tile::{default_tile_str, tile_str, Tile, TileLabel};
use forgotten_core::weapon::WeaponType;
use forgotten_core::world::World;

#[test]
fn committing_the_ranged_pickup_equips_and_ends_the_turn() {
    let mut world = World::new(20, 20, 3);
    let player = world.spawn_player(Coord::new(1, 1));
    world.spawn_weapon(Coord::new(1, 1), WeaponType::Pistol);
    let mut scope = StateScope {
        world,
        player_entity: player,
        turn_state: TurnState::PlayerTurn,
    };
    let offered = match GameState::get_ranged_weapon() {
        GameState::GetRangedWeapon(s) => s,
        _ => panic!("expected the ranged pickup state"),
    };
    let next = offered.commit(&mut scope, RangedWeaponSlot::One);
    assert!(matches!(next, GameState::Running(_)));
    assert_eq!(scope.turn_state, TurnState::EnemyTurn);
    let p = *scope.world.components.player.get(player).unwrap();
    assert_eq!(
        p.ranged_weapon(RangedWeaponSlot::One),
        Some(WeaponType::Pistol.new_weapon())
    );
    assert!(scope
        .world
        .message_log
        .contains(&Message::EquipWeapon(WeaponType::Pistol)));
}

#[test]
fn cancelling_a_pickup_returns_to_running() {
    let offered = match GameState::get_melee_weapon() {
        GameState::GetMeleeWeapon(s) => s,
        _ => panic!("expected the melee pickup state"),
    };
    assert!(matches!(offered.cancel(), GameState::Running(_)));
}

#[test]
fn committing_the_melee_pickup_swaps_the_melee_weapon() {
    let mut world = World::new(20, 20, 3);
    let player = world.spawn_player(Coord::new(1, 1));
    world.spawn_weapon(Coord::new(1, 1), WeaponType::Chainsaw);
    let mut scope = StateScope {
        world,
        player_entity: player,
        turn_state: TurnState::PlayerTurn,
    };
    let offered = match GameState::get_melee_weapon() {
        GameState::GetMeleeWeapon(s) => s,
        _ => panic!("expected the melee pickup state"),
    };
    offered.commit(&mut scope);
    let p = *scope.world.components.player.get(player).unwrap();
    assert_eq!(p.melee_weapon, WeaponType::Chainsaw.new_weapon());
}

#[test]
fn tiles_describe_themselves() {
    assert_eq!(default_tile_str(Tile::Player), Some("yourself"));
    assert_eq!(default_tile_str(Tile::Water), Some("some lovely cave water"));
    assert_eq!(
        default_tile_str(Tile::Npc(forgotten_core::data::NpcType::MiniBot)),
        Some("a mini-bot")
    );
    assert_eq!(default_tile_str(Tile::Bullet), None);
    assert_eq!(default_tile_str(Tile::Weapon(WeaponType::BareHands)), None);

    match tile_str(Tile::Grass) {
        Some(TileLabel::Name(name)) => assert_eq!(name, "dense patch of grass"),
        _ => panic!("grass reads as a name"),
    }
    match tile_str(Tile::Weapon(WeaponType::Railgun)) {
        Some(TileLabel::Literal(text)) => {
            assert_eq!(text, "A railgun - it can shoot through almost anything!")
        }
        _ => panic!("weapons read verbatim"),
    }
    assert!(tile_str(Tile::Bullet).is_none());
}
