//! Level generation: reachability, door validity, stairs placement, and
//! the population routines.

use forgotten_core::geom::Coord;
use forgotten_core::grid::Grid;
use forgotten_core::rng::Rng;
use forgotten_core::terrain::{
    generate, generate_items, generate_npcs, Agent, CaveCell, EnemyCounts, LevelCell, RoomCell,
    TerrainState, FINAL_LEVEL,
};
use forgotten_core::weapon::WeaponType;
use forgotten_core::world::World;

const W: usize = 16;
const H: usize = 16;

/// A bordered room layout with one internal dividing wall and a door in it.
fn rooms() -> Grid<Option<RoomCell>> {
    let mut g: Grid<Option<RoomCell>> = Grid::new_filled(W, H, Some(RoomCell::Floor));
    for x in 0..W {
        g.set(Coord::new(x as i32, 0), Some(RoomCell::Wall));
        g.set(Coord::new(x as i32, (H - 1) as i32), Some(RoomCell::Wall));
    }
    for y in 0..H {
        g.set(Coord::new(0, y as i32), Some(RoomCell::Wall));
        g.set(Coord::new((W - 1) as i32, y as i32), Some(RoomCell::Wall));
    }
    // a dividing wall with a door in the middle
    for y in 1..H - 1 {
        g.set(Coord::new(8, y as i32), Some(RoomCell::Wall));
    }
    g.set(Coord::new(8, 7), Some(RoomCell::Door));
    g
}

fn caves() -> Grid<CaveCell> {
    Grid::new_filled(W, H, CaveCell::Wall)
}

fn dry() -> Grid<bool> {
    Grid::new_filled(W, H, false)
}

fn walkable(c: LevelCell) -> bool {
    matches!(
        c,
        LevelCell::Floor
            | LevelCell::CaveFloor
            | LevelCell::Door
            | LevelCell::Grass
            | LevelCell::PlayerSpawn
            | LevelCell::Stairs
    )
}

/// A plain flood fill used to check the generator's reachability claim.
fn reachable_from(map: &Grid<LevelCell>, start: Coord) -> Vec<Vec<bool>> {
    let mut seen = vec![vec![false; H]; W];
    let mut queue = vec![start];
    seen[start.x as usize][start.y as usize] = true;
    while let Some(c) = queue.pop() {
        for (dx, dy) in [(0i32, -1i32), (1, 0), (0, 1), (-1, 0)] {
            let n = Coord::new(c.x + dx, c.y + dy);
            if n.x >= 0
                && n.y >= 0
                && (n.x as usize) < W
                && (n.y as usize) < H
                && !seen[n.x as usize][n.y as usize]
                && walkable(map.get(n))
            {
                seen[n.x as usize][n.y as usize] = true;
                queue.push(n);
            }
        }
    }
    seen
}

#[test]
fn every_floor_cell_is_reachable_from_the_spawn() {
    let spawn = Coord::new(2, 2);
    let mut rng = Rng::new(99);
    let map = generate(&rooms(), &caves(), &dry(), spawn, 1, &mut rng).unwrap();
    assert_eq!(map.get(spawn), LevelCell::PlayerSpawn);
    let seen = reachable_from(&map, spawn);
    for x in 0..W {
        for y in 0..H {
            let cell = map.get(Coord::new(x as i32, y as i32));
            if matches!(cell, LevelCell::Floor | LevelCell::CaveFloor) {
                assert!(seen[x][y], "floor cell not connected to the spawn");
            }
        }
    }
}

#[test]
fn unreachable_pockets_are_sealed() {
    let spawn = Coord::new(2, 2);
    let mut g = rooms();
    // wall the door up: the right half becomes unreachable
    g.set(Coord::new(8, 7), Some(RoomCell::Wall));
    let mut rng = Rng::new(5);
    let map = generate(&g, &caves(), &dry(), spawn, FINAL_LEVEL, &mut rng).unwrap();
    for x in 9..W - 1 {
        for y in 1..H - 1 {
            let cell = map.get(Coord::new(x as i32, y as i32));
            assert!(
                !matches!(cell, LevelCell::Floor | LevelCell::CaveFloor),
                "a sealed-off cell kept its floor"
            );
        }
    }
}

#[test]
fn non_final_levels_have_exactly_one_far_stairs_cell() {
    let spawn = Coord::new(2, 2);
    let mut rng = Rng::new(123);
    let map = generate(&rooms(), &caves(), &dry(), spawn, 1, &mut rng).unwrap();
    let mut stairs = Vec::new();
    for x in 0..W {
        for y in 0..H {
            let c = Coord::new(x as i32, y as i32);
            if map.get(c) == LevelCell::Stairs {
                stairs.push(c);
            }
        }
    }
    assert_eq!(stairs.len(), 1);
    let sc = stairs[0];
    let dx = (sc.x - spawn.x) as i64;
    let dy = (sc.y - spawn.y) as i64;
    assert!(dx * dx + dy * dy > 125);
}

#[test]
fn the_final_level_has_no_stairs() {
    let spawn = Coord::new(2, 2);
    let mut rng = Rng::new(123);
    let map = generate(&rooms(), &caves(), &dry(), spawn, FINAL_LEVEL, &mut rng).unwrap();
    for x in 0..W {
        for y in 0..H {
            assert_ne!(map.get(Coord::new(x as i32, y as i32)), LevelCell::Stairs);
        }
    }
}

#[test]
fn remaining_doors_separate_walkable_cells_through_barriers() {
    let spawn = Coord::new(2, 2);
    let mut rng = Rng::new(77);
    let map = generate(&rooms(), &caves(), &dry(), spawn, 1, &mut rng).unwrap();
    let barrier = |c: Coord| -> bool {
        if c.x < 0 || c.y < 0 || c.x as usize >= W || c.y as usize >= H {
            return true;
        }
        matches!(
            map.get(c),
            LevelCell::Wall | LevelCell::CaveWall | LevelCell::Water
        )
    };
    let walk = |c: Coord| -> bool {
        c.x >= 0 && c.y >= 0 && (c.x as usize) < W && (c.y as usize) < H && walkable(map.get(c))
    };
    for x in 0..W {
        for y in 0..H {
            let c = Coord::new(x as i32, y as i32);
            if map.get(c) == LevelCell::Door {
                let n = Coord::new(c.x, c.y - 1);
                let s = Coord::new(c.x, c.y + 1);
                let w = Coord::new(c.x - 1, c.y);
                let e = Coord::new(c.x + 1, c.y);
                let across = walk(w) && walk(e) && barrier(n) && barrier(s);
                let down = walk(n) && walk(s) && barrier(w) && barrier(e);
                assert!(across || down, "an invalid door survived generation");
            }
        }
    }
}

#[test]
fn water_never_floods_the_spawn_or_the_stairs() {
    let spawn = Coord::new(2, 2);
    let mut wet = dry();
    for x in 0..W {
        for y in 0..H {
            wet.set(Coord::new(x as i32, y as i32), true);
        }
    }
    let mut rng = Rng::new(3);
    let map = generate(&rooms(), &caves(), &wet, spawn, FINAL_LEVEL, &mut rng).unwrap();
    assert_eq!(map.get(spawn), LevelCell::PlayerSpawn);
    for x in 0..W {
        for y in 0..H {
            assert_ne!(map.get(Coord::new(x as i32, y as i32)), LevelCell::Stairs);
        }
    }
}

#[test]
fn enemy_counts_match_the_population_table() {
    let counts = EnemyCounts::new();
    assert_eq!(counts.mini, vec![8, 10, 10, 12, 12]);
    assert_eq!(counts.sec, vec![2, 2, 4, 6, 6]);
    assert_eq!(counts.robo, vec![2, 3, 3, 4, 4]);
    assert_eq!(counts.doom, vec![0, 0, 1, 2, 4]);
}

#[test]
fn the_population_routines_stock_the_level() {
    let mut world = World::new(32, 32, 17);
    let mut candidates = Vec::new();
    for x in 1..31 {
        for y in 1..4 {
            candidates.push(Coord::new(x, y));
        }
    }
    let mut agents = forgotten_core::table::ComponentTable::<Agent>::new();
    generate_npcs(1, &mut world, &mut candidates.clone(), &mut agents);
    // level 1 spawns 8 mini-bots, 2 sec-bots, 2 robo-cops, 0 doom-bots
    assert_eq!(world.components.npc.keys().len(), 12);
    assert_eq!(agents.keys().len(), 12);

    let mut terrain_state = TerrainState {
        ranged_weapons: vec![WeaponType::Pistol, WeaponType::Rifle],
        cattle_prod_floors: vec![2],
        chainsaw_floors: vec![3],
    };
    let mut empty = candidates;
    generate_items(1, &mut world, &mut terrain_state, &mut empty);
    // one medkit and two ranged weapons, no unlock on this level
    assert_eq!(world.components.item.keys().len(), 3);
    assert_eq!(terrain_state.ranged_weapons.len(), 0);
}
