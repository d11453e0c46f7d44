//! Spawn operations: the only way entities come into being.
//!
//! Each spawner allocates a fresh identifier, claims the entity's spatial
//! slot, and fills in its components.  A spawner must be aimed at a free
//! slot; a collision with an existing occupant is a level-generation bug,
//! excluded by precondition rather than repaired.  Every spawner returns
//! the identifier it created.

use crate::data::{Disposition, Item, Light, Npc, NpcType, Player, Rational, Rgb24};
use crate::entity::Entity;
use crate::geom::Coord;
use crate::particle::{
    period_per_frame, ChildEmitterSpec, ColourRange, ParticleEmitterState, ParticleMovementSpec,
    ParticleSpec, PossibleChildEmitter, PossibleLight,
};
use crate::realtime::{FadeState, LightColourFadeState, Movement, Repeat, FRAME_MICROS};
use crate::spatial::{Layer, Location};
use crate::stats::{Armour, HitPoints};
use crate::tile::Tile;
use crate::weapon::{
    CollidesWith, OnCollision, ParticleEmitterSpec, ProjectileDamage, Weapon, WeaponType,
};
use crate::world::{lemma_table_insert_view, Components, Scheduled, World};
use vstd::prelude::*;

verus! {

/// How long a muzzle flash lasts, in microseconds.
pub const FLASH_FADE_MICROS: u64 = 100_000;

/// The duration of one cardinal bullet step, in microseconds.
pub const BULLET_STEP_MICROS: u64 = 25_000;

/// The entity `e` is fresh in `post` against `pre`: it was not live, it is
/// now, and no other identifier changed state.
pub open spec fn spec_fresh(pre: World, post: World, e: Entity) -> bool {
    &&& !pre.entity_allocator.spec_exists(e)
    &&& post.entity_allocator.spec_exists(e)
    &&& forall|o: Entity|
        o != e ==> post.entity_allocator.spec_exists(o) == pre.entity_allocator.spec_exists(o)
}

impl World {
    /// Whether a location can be spawned into: it lies on the grid and its
    /// exclusive slot, if any, is free.
    pub open spec fn spec_can_spawn(self, location: Location) -> bool {
        &&& self.spatial_table.in_bounds(location.coord)
        &&& match location.layer {
            Some(l) => l.spec_is_exclusive() ==> self.spatial_table.spec_layers_at(
                location.coord,
            ).spec_slot(l) is None,
            None => true,
        }
    }

    /// Allocates a fresh entity and claims its location.  The caller fills
    /// in components and re-establishes full world well-formedness.
    pub(crate) fn place_new_entity(&mut self, location: Location) -> (e: Entity)
        requires
            old(self).wf(),
            old(self).spec_can_spawn(location),
        ensures
            spec_fresh(*old(self), *final(self), e),
            final(self).entity_allocator.wf(),
            final(self).spatial_table.wf(),
            final(self).spatial_table@ == old(self).spatial_table@.insert(e, location),
            final(self).spatial_table.spec_width() == old(self).spatial_table.spec_width(),
            final(self).spatial_table.spec_height() == old(self).spatial_table.spec_height(),
            *final(self) == (World {
                entity_allocator: final(self).entity_allocator,
                spatial_table: final(self).spatial_table,
                ..*old(self)
            }),
            final(self).components.spec_absent(e),
            final(self).realtime_components.spec_absent(e),
    {
        let e = self.entity_allocator.allocate();
        let r = self.spatial_table.update(e, location);
        proof {
            assert(r is Ok);
            lemma_table_insert_view(
                self.entity_allocator,
                old(self).spatial_table@,
                self.spatial_table@,
                e,
                location,
            );
        }
        e
    }

    /// Spawns a wall: a solid, fully opaque feature.
    pub fn spawn_wall(&mut self, coord: Coord) -> (e: Entity)
        requires
            old(self).wf(),
            old(self).spec_can_spawn(Location { coord, layer: Some(Layer::Feature) }),
        ensures
            final(self).wf(),
            spec_fresh(*old(self), *final(self), e),
            final(self).spatial_table.spec_width() == old(self).spatial_table.spec_width(),
            final(self).spatial_table.spec_height() == old(self).spatial_table.spec_height(),
            *final(self) == (World {
                entity_allocator: final(self).entity_allocator,
                spatial_table: final(self).spatial_table,
                components: final(self).components,
                ..*old(self)
            }),
            final(self).components == (Components {
                tile: final(self).components.tile,
                solid: final(self).components.solid,
                opacity: final(self).components.opacity,
                ..old(self).components
            }),
            final(self).spatial_table@ == old(self).spatial_table@.insert(
                e,
                Location { coord, layer: Some(Layer::Feature) },
            ),
            final(self).components.tile@ == old(self).components.tile@.insert(e, Tile::Wall),
            final(self).components.solid@ == old(self).components.solid@.insert(e, ()),
            final(self).components.opacity@ == old(self).components.opacity@.insert(e, 255u8),
    {
        let location = Location { coord, layer: Some(Layer::Feature) };
        let e = self.place_new_entity(location);
        self.components.tile.insert(e, Tile::Wall);
        self.components.solid.insert(e, ());
        self.components.opacity.insert(e, 255);
        proof {
            let a = self.entity_allocator;
            lemma_table_insert_view(
                a,
                old(self).components.tile@,
                self.components.tile@,
                e,
                Tile::Wall,
            );
            lemma_table_insert_view(a, old(self).components.solid@, self.components.solid@, e, ());
            lemma_table_insert_view(
                a,
                old(self).components.opacity@,
                self.components.opacity@,
                e,
                255u8,
            );
        }
        e
    }

    /// Spawns a cave wall: a solid, fully opaque feature.
    pub fn spawn_cave_wall(&mut self, coord: Coord) -> (e: Entity)
        requires
            old(self).wf(),
            old(self).spec_can_spawn(Location { coord, layer: Some(Layer::Feature) }),
        ensures
            final(self).wf(),
            spec_fresh(*old(self), *final(self), e),
            final(self).spatial_table.spec_width() == old(self).spatial_table.spec_width(),
            final(self).spatial_table.spec_height() == old(self).spatial_table.spec_height(),
            *final(self) == (World {
                entity_allocator: final(self).entity_allocator,
                spatial_table: final(self).spatial_table,
                components: final(self).components,
                ..*old(self)
            }),
            final(self).components == (Components {
                tile: final(self).components.tile,
                solid: final(self).components.solid,
                opacity: final(self).components.opacity,
                ..old(self).components
            }),
            final(self).spatial_table@ == old(self).spatial_table@.insert(
                e,
                Location { coord, layer: Some(Layer::Feature) },
            ),
            final(self).components.tile@ == old(self).components.tile@.insert(e, Tile::CaveWall),
            final(self).components.solid@ == old(self).components.solid@.insert(e, ()),
            final(self).components.opacity@ == old(self).components.opacity@.insert(e, 255u8),
    {
        let location = Location { coord, layer: Some(Layer::Feature) };
        let e = self.place_new_entity(location);
        self.components.tile.insert(e, Tile::CaveWall);
        self.components.solid.insert(e, ());
        self.components.opacity.insert(e, 255);
        proof {
            let a = self.entity_allocator;
            lemma_table_insert_view(
                a,
                old(self).components.tile@,
                self.components.tile@,
                e,
                Tile::CaveWall,
            );
            lemma_table_insert_view(a, old(self).components.solid@, self.components.solid@, e, ());
            lemma_table_insert_view(
                a,
                old(self).components.opacity@,
                self.components.opacity@,
                e,
                255u8,
            );
        }
        e
    }

    /// Spawns a closed door: solid and opaque until opened.
    pub fn spawn_door(&mut self, coord: Coord) -> (e: Entity)
        requires
            old(self).wf(),
            old(self).spec_can_spawn(Location { coord, layer: Some(Layer::Feature) }),
        ensures
            final(self).wf(),
            spec_fresh(*old(self), *final(self), e),
            final(self).spatial_table.spec_width() == old(self).spatial_table.spec_width(),
            final(self).spatial_table.spec_height() == old(self).spatial_table.spec_height(),
            *final(self) == (World {
                entity_allocator: final(self).entity_allocator,
                spatial_table: final(self).spatial_table,
                components: final(self).components,
                ..*old(self)
            }),
            final(self).components == (Components {
                tile: final(self).components.tile,
                door_state: final(self).components.door_state,
                solid: final(self).components.solid,
                opacity: final(self).components.opacity,
                ..old(self).components
            }),
            final(self).spatial_table@ == old(self).spatial_table@.insert(
                e,
                Location { coord, layer: Some(Layer::Feature) },
            ),
            final(self).components.tile@ == old(self).components.tile@.insert(
                e,
                Tile::DoorClosed,
            ),
            final(self).components.door_state@ == old(self).components.door_state@.insert(
                e,
                crate::data::DoorState::Closed,
            ),
            final(self).components.solid@ == old(self).components.solid@.insert(e, ()),
            final(self).components.opacity@ == old(self).components.opacity@.insert(e, 255u8),
    {
        let location = Location { coord, layer: Some(Layer::Feature) };
        let e = self.place_new_entity(location);
        self.components.tile.insert(e, Tile::DoorClosed);
        self.components.door_state.insert(e, crate::data::DoorState::Closed);
        self.components.solid.insert(e, ());
        self.components.opacity.insert(e, 255);
        proof {
            let a = self.entity_allocator;
            lemma_table_insert_view(
                a,
                old(self).components.tile@,
                self.components.tile@,
                e,
                Tile::DoorClosed,
            );
            lemma_table_insert_view(
                a,
                old(self).components.door_state@,
                self.components.door_state@,
                e,
                crate::data::DoorState::Closed,
            );
            lemma_table_insert_view(a, old(self).components.solid@, self.components.solid@, e, ());
            lemma_table_insert_view(
                a,
                old(self).components.opacity@,
                self.components.opacity@,
                e,
                255u8,
            );
        }
        e
    }

    /// Spawns a floor tile.
    pub fn spawn_floor(&mut self, coord: Coord) -> (e: Entity)
        requires
            old(self).wf(),
            old(self).spec_can_spawn(Location { coord, layer: Some(Layer::Floor) }),
        ensures
            final(self).wf(),
            spec_fresh(*old(self), *final(self), e),
            final(self).spatial_table.spec_width() == old(self).spatial_table.spec_width(),
            final(self).spatial_table.spec_height() == old(self).spatial_table.spec_height(),
            *final(self) == (World {
                entity_allocator: final(self).entity_allocator,
                spatial_table: final(self).spatial_table,
                components: final(self).components,
                ..*old(self)
            }),
            final(self).components == (Components {
                tile: final(self).components.tile,
                ..old(self).components
            }),
            final(self).spatial_table@ == old(self).spatial_table@.insert(
                e,
                Location { coord, layer: Some(Layer::Floor) },
            ),
            final(self).components.tile@ == old(self).components.tile@.insert(e, Tile::Floor),
    {
        let location = Location { coord, layer: Some(Layer::Floor) };
        let e = self.place_new_entity(location);
        self.components.tile.insert(e, Tile::Floor);
        proof {
            lemma_table_insert_view(
                self.entity_allocator,
                old(self).components.tile@,
                self.components.tile@,
                e,
                Tile::Floor,
            );
        }
        e
    }

    /// Spawns a cave floor tile.
    pub fn spawn_cave_floor(&mut self, coord: Coord) -> (e: Entity)
        requires
            old(self).wf(),
            old(self).spec_can_spawn(Location { coord, layer: Some(Layer::Floor) }),
        ensures
            final(self).wf(),
            spec_fresh(*old(self), *final(self), e),
            final(self).spatial_table.spec_width() == old(self).spatial_table.spec_width(),
            final(self).spatial_table.spec_height() == old(self).spatial_table.spec_height(),
            *final(self) == (World {
                entity_allocator: final(self).entity_allocator,
                spatial_table: final(self).spatial_table,
                components: final(self).components,
                ..*old(self)
            }),
            final(self).components == (Components {
                tile: final(self).components.tile,
                ..old(self).components
            }),
            final(self).spatial_table@ == old(self).spatial_table@.insert(
                e,
                Location { coord, layer: Some(Layer::Floor) },
            ),
            final(self).components.tile@ == old(self).components.tile@.insert(e, Tile::CaveFloor),
    {
        let location = Location { coord, layer: Some(Layer::Floor) };
        let e = self.place_new_entity(location);
        self.components.tile.insert(e, Tile::CaveFloor);
        proof {
            lemma_table_insert_view(
                self.entity_allocator,
                old(self).components.tile@,
                self.components.tile@,
                e,
                Tile::CaveFloor,
            );
        }
        e
    }

    /// Spawns standing grass: a non-blocking, half-opaque feature that is
    /// crushed when walked over.
    pub fn spawn_grass(&mut self, coord: Coord) -> (e: Entity)
        requires
            old(self).wf(),
            old(self).spec_can_spawn(Location { coord, layer: Some(Layer::Feature) }),
        ensures
            final(self).wf(),
            spec_fresh(*old(self), *final(self), e),
            final(self).spatial_table.spec_width() == old(self).spatial_table.spec_width(),
            final(self).spatial_table.spec_height() == old(self).spatial_table.spec_height(),
            *final(self) == (World {
                entity_allocator: final(self).entity_allocator,
                spatial_table: final(self).spatial_table,
                components: final(self).components,
                ..*old(self)
            }),
            final(self).components == (Components {
                tile: final(self).components.tile,
                grass_state: final(self).components.grass_state,
                opacity: final(self).components.opacity,
                ..old(self).components
            }),
            final(self).spatial_table@ == old(self).spatial_table@.insert(
                e,
                Location { coord, layer: Some(Layer::Feature) },
            ),
            final(self).components.tile@ == old(self).components.tile@.insert(e, Tile::Grass),
            final(self).components.grass_state@ == old(self).components.grass_state@.insert(
                e,
                crate::data::GrassState::Normal,
            ),
            final(self).components.opacity@ == old(self).components.opacity@.insert(e, 128u8),
    {
        let location = Location { coord, layer: Some(Layer::Feature) };
        let e = self.place_new_entity(location);
        self.components.tile.insert(e, Tile::Grass);
        self.components.grass_state.insert(e, crate::data::GrassState::Normal);
        self.components.opacity.insert(e, 128);
        proof {
            let a = self.entity_allocator;
            lemma_table_insert_view(
                a,
                old(self).components.tile@,
                self.components.tile@,
                e,
                Tile::Grass,
            );
            lemma_table_insert_view(
                a,
                old(self).components.grass_state@,
                self.components.grass_state@,
                e,
                crate::data::GrassState::Normal,
            );
            lemma_table_insert_view(
                a,
                old(self).components.opacity@,
                self.components.opacity@,
                e,
                128u8,
            );
        }
        e
    }

    /// Spawns a water tile.
    pub fn spawn_water(&mut self, coord: Coord) -> (e: Entity)
        requires
            old(self).wf(),
            old(self).spec_can_spawn(Location { coord, layer: Some(Layer::Floor) }),
        ensures
            final(self).wf(),
            spec_fresh(*old(self), *final(self), e),
            final(self).spatial_table.spec_width() == old(self).spatial_table.spec_width(),
            final(self).spatial_table.spec_height() == old(self).spatial_table.spec_height(),
            *final(self) == (World {
                entity_allocator: final(self).entity_allocator,
                spatial_table: final(self).spatial_table,
                components: final(self).components,
                ..*old(self)
            }),
            final(self).components == (Components {
                tile: final(self).components.tile,
                ..old(self).components
            }),
            final(self).spatial_table@ == old(self).spatial_table@.insert(
                e,
                Location { coord, layer: Some(Layer::Floor) },
            ),
            final(self).components.tile@ == old(self).components.tile@.insert(e, Tile::Water),
    {
        let location = Location { coord, layer: Some(Layer::Floor) };
        let e = self.place_new_entity(location);
        self.components.tile.insert(e, Tile::Water);
        proof {
            lemma_table_insert_view(
                self.entity_allocator,
                old(self).components.tile@,
                self.components.tile@,
                e,
                Tile::Water,
            );
        }
        e
    }

    /// Spawns the player: a character with full hit points, bare hands, and
    /// a personal light.  The world remembers the identifier.
    pub fn spawn_player(&mut self, coord: Coord) -> (e: Entity)
        requires
            old(self).wf(),
            old(self).spec_can_spawn(Location { coord, layer: Some(Layer::Character) }),
            old(self).player_entity is None,
        ensures
            final(self).wf(),
            spec_fresh(*old(self), *final(self), e),
            final(self).spatial_table.spec_width() == old(self).spatial_table.spec_width(),
            final(self).spatial_table.spec_height() == old(self).spatial_table.spec_height(),
            *final(self) == (World {
                entity_allocator: final(self).entity_allocator,
                spatial_table: final(self).spatial_table,
                components: final(self).components,
                player_entity: Some(e),
                ..*old(self)
            }),
            final(self).components == (Components {
                tile: final(self).components.tile,
                character: final(self).components.character,
                player: final(self).components.player,
                hp: final(self).components.hp,
                light: final(self).components.light,
                ..old(self).components
            }),
            final(self).spatial_table@ == old(self).spatial_table@.insert(
                e,
                Location { coord, layer: Some(Layer::Character) },
            ),
            final(self).components.tile@ == old(self).components.tile@.insert(e, Tile::Player),
            final(self).components.character@ == old(self).components.character@.insert(e, ()),
            final(self).components.hp@ == old(self).components.hp@.insert(
                e,
                HitPoints { current: 100, max: 100 },
            ),
            final(self).components.player@.contains_key(e),
            final(self).components.player@ == old(self).components.player@.insert(
                e,
                final(self).components.player@[e],
            ),
            final(self).components.player@[e].melee_weapon == Weapon::spec_bare_hands(),
            final(self).components.player@[e].ranged_slot_one is None,
            final(self).components.player@[e].ranged_slot_two is None,
    {
        let location = Location { coord, layer: Some(Layer::Character) };
        let e = self.place_new_entity(location);
        let player = Player::new();
        self.components.tile.insert(e, Tile::Player);
        self.components.character.insert(e, ());
        self.components.player.insert(e, player);
        self.components.hp.insert(e, HitPoints::new_full(100));
        self.components.light.insert(
            e,
            Light {
                colour: Rgb24::new_grey(200),
                vision_distance_squared: 200,
                diminish: Rational { numerator: 1, denominator: 8 },
            },
        );
        self.player_entity = Some(e);
        proof {
            let a = self.entity_allocator;
            lemma_table_insert_view(
                a,
                old(self).components.tile@,
                self.components.tile@,
                e,
                Tile::Player,
            );
            lemma_table_insert_view(
                a,
                old(self).components.character@,
                self.components.character@,
                e,
                (),
            );
            lemma_table_insert_view(a, old(self).components.player@, self.components.player@, e, player);
            lemma_table_insert_view(
                a,
                old(self).components.hp@,
                self.components.hp@,
                e,
                HitPoints { current: 100, max: 100 },
            );
            lemma_table_insert_view(
                a,
                old(self).components.light@,
                self.components.light@,
                e,
                Light {
                    colour: Rgb24 { r: 200, g: 200, b: 200 },
                    vision_distance_squared: 200,
                    diminish: Rational { numerator: 1, denominator: 8 },
                },
            );
        }
        e
    }

    /// Spawns one hostile NPC of the given kind and statistics.
    fn spawn_npc(
        &mut self,
        coord: Coord,
        npc_type: NpcType,
        melee_damage: u32,
        armour: u32,
        hit_points: u32,
    ) -> (e: Entity)
        requires
            old(self).wf(),
            old(self).spec_can_spawn(Location { coord, layer: Some(Layer::Character) }),
        ensures
            final(self).wf(),
            spec_fresh(*old(self), *final(self), e),
            final(self).spatial_table.spec_width() == old(self).spatial_table.spec_width(),
            final(self).spatial_table.spec_height() == old(self).spatial_table.spec_height(),
            spec_spawned_npc(
                *old(self),
                *final(self),
                e,
                coord,
                npc_type,
                melee_damage,
                armour,
                hit_points,
            ),
    {
        let location = Location { coord, layer: Some(Layer::Character) };
        let e = self.place_new_entity(location);
        let npc = Npc { disposition: Disposition::Hostile, npc_type, weapon: None, move_to: None };
        self.components.tile.insert(e, Tile::Npc(npc_type));
        self.components.character.insert(e, ());
        self.components.npc.insert(e, npc);
        self.components.damage.insert(e, melee_damage);
        self.components.armour.insert(e, Armour::new(armour));
        self.components.hp.insert(e, HitPoints::new_full(hit_points));
        proof {
            let a = self.entity_allocator;
            lemma_table_insert_view(
                a,
                old(self).components.tile@,
                self.components.tile@,
                e,
                Tile::Npc(npc_type),
            );
            lemma_table_insert_view(
                a,
                old(self).components.character@,
                self.components.character@,
                e,
                (),
            );
            lemma_table_insert_view(a, old(self).components.npc@, self.components.npc@, e, npc);
            lemma_table_insert_view(
                a,
                old(self).components.damage@,
                self.components.damage@,
                e,
                melee_damage,
            );
            lemma_table_insert_view(
                a,
                old(self).components.armour@,
                self.components.armour@,
                e,
                Armour { value: armour },
            );
            lemma_table_insert_view(
                a,
                old(self).components.hp@,
                self.components.hp@,
                e,
                HitPoints { current: hit_points, max: hit_points },
            );
        }
        e
    }

    /// Spawns a mini-bot: the weakest patrol robot.
    pub fn spawn_minibot(&mut self, coord: Coord) -> (e: Entity)
        requires
            old(self).wf(),
            old(self).spec_can_spawn(Location { coord, layer: Some(Layer::Character) }),
        ensures
            final(self).wf(),
            spec_fresh(*old(self), *final(self), e),
            final(self).spatial_table.spec_width() == old(self).spatial_table.spec_width(),
            final(self).spatial_table.spec_height() == old(self).spatial_table.spec_height(),
            spec_spawned_npc(*old(self), *final(self), e, coord, NpcType::MiniBot, 1, 1, 4),
    {
        self.spawn_npc(coord, NpcType::MiniBot, 1, 1, 4)
    }

    /// Spawns a sec-bot: an upgraded mini-bot.
    pub fn spawn_secbot(&mut self, coord: Coord) -> (e: Entity)
        requires
            old(self).wf(),
            old(self).spec_can_spawn(Location { coord, layer: Some(Layer::Character) }),
        ensures
            final(self).wf(),
            spec_fresh(*old(self), *final(self), e),
            final(self).spatial_table.spec_width() == old(self).spatial_table.spec_width(),
            final(self).spatial_table.spec_height() == old(self).spatial_table.spec_height(),
            spec_spawned_npc(*old(self), *final(self), e, coord, NpcType::SecBot, 2, 3, 5),
    {
        self.spawn_npc(coord, NpcType::SecBot, 2, 3, 5)
    }

    /// Spawns a robo-cop: a heavy security robot.
    pub fn spawn_robocop(&mut self, coord: Coord) -> (e: Entity)
        requires
            old(self).wf(),
            old(self).spec_can_spawn(Location { coord, layer: Some(Layer::Character) }),
        ensures
            final(self).wf(),
            spec_fresh(*old(self), *final(self), e),
            final(self).spatial_table.spec_width() == old(self).spatial_table.spec_width(),
            final(self).spatial_table.spec_height() == old(self).spatial_table.spec_height(),
            spec_spawned_npc(*old(self), *final(self), e, coord, NpcType::RoboCop, 3, 5, 10),
    {
        self.spawn_npc(coord, NpcType::RoboCop, 3, 5, 10)
    }

    /// Spawns a doom-bot: the deadliest robot.
    pub fn spawn_doombot(&mut self, coord: Coord) -> (e: Entity)
        requires
            old(self).wf(),
            old(self).spec_can_spawn(Location { coord, layer: Some(Layer::Character) }),
        ensures
            final(self).wf(),
            spec_fresh(*old(self), *final(self), e),
            final(self).spatial_table.spec_width() == old(self).spatial_table.spec_width(),
            final(self).spatial_table.spec_height() == old(self).spatial_table.spec_height(),
            spec_spawned_npc(*old(self), *final(self), e, coord, NpcType::DoomBot, 5, 10, 30),
    {
        self.spawn_npc(coord, NpcType::DoomBot, 5, 10, 30)
    }

    /// Spawns a ranged weapon as a ground item.
    pub fn spawn_weapon(&mut self, coord: Coord, ranged_weapon: WeaponType) -> (e: Entity)
        requires
            old(self).wf(),
            old(self).spatial_table.in_bounds(coord),
        ensures
            final(self).wf(),
            spec_fresh(*old(self), *final(self), e),
            final(self).spatial_table.spec_width() == old(self).spatial_table.spec_width(),
            final(self).spatial_table.spec_height() == old(self).spatial_table.spec_height(),
            *final(self) == (World {
                entity_allocator: final(self).entity_allocator,
                spatial_table: final(self).spatial_table,
                components: final(self).components,
                ..*old(self)
            }),
            final(self).components == (Components {
                tile: final(self).components.tile,
                item: final(self).components.item,
                weapon: final(self).components.weapon,
                ..old(self).components
            }),
            final(self).spatial_table@ == old(self).spatial_table@.insert(
                e,
                Location { coord, layer: Some(Layer::Item) },
            ),
            final(self).components.tile@ == old(self).components.tile@.insert(
                e,
                Tile::Weapon(ranged_weapon),
            ),
            final(self).components.item@ == old(self).components.item@.insert(
                e,
                Item::Weapon(ranged_weapon),
            ),
            final(self).components.weapon@ == old(self).components.weapon@.insert(
                e,
                ranged_weapon.spec_new_weapon(),
            ),
    {
        let location = Location { coord, layer: Some(Layer::Item) };
        let e = self.place_new_entity(location);
        let weapon = ranged_weapon.new_weapon();
        self.components.tile.insert(e, Tile::Weapon(ranged_weapon));
        self.components.item.insert(e, Item::Weapon(ranged_weapon));
        self.components.weapon.insert(e, weapon);
        proof {
            let a = self.entity_allocator;
            lemma_table_insert_view(
                a,
                old(self).components.tile@,
                self.components.tile@,
                e,
                Tile::Weapon(ranged_weapon),
            );
            lemma_table_insert_view(
                a,
                old(self).components.item@,
                self.components.item@,
                e,
                Item::Weapon(ranged_weapon),
            );
            lemma_table_insert_view(
                a,
                old(self).components.weapon@,
                self.components.weapon@,
                e,
                ranged_weapon.spec_new_weapon(),
            );
        }
        e
    }

    /// Spawns a medkit as a ground item.
    pub fn spawn_medkit(&mut self, coord: Coord) -> (e: Entity)
        requires
            old(self).wf(),
            old(self).spatial_table.in_bounds(coord),
        ensures
            final(self).wf(),
            spec_fresh(*old(self), *final(self), e),
            final(self).spatial_table.spec_width() == old(self).spatial_table.spec_width(),
            final(self).spatial_table.spec_height() == old(self).spatial_table.spec_height(),
            *final(self) == (World {
                entity_allocator: final(self).entity_allocator,
                spatial_table: final(self).spatial_table,
                components: final(self).components,
                ..*old(self)
            }),
            final(self).components == (Components {
                tile: final(self).components.tile,
                item: final(self).components.item,
                ..old(self).components
            }),
            final(self).spatial_table@ == old(self).spatial_table@.insert(
                e,
                Location { coord, layer: Some(Layer::Item) },
            ),
            final(self).components.tile@ == old(self).components.tile@.insert(e, Tile::Medkit),
            final(self).components.item@ == old(self).components.item@.insert(e, Item::Medkit),
    {
        let location = Location { coord, layer: Some(Layer::Item) };
        let e = self.place_new_entity(location);
        self.components.tile.insert(e, Tile::Medkit);
        self.components.item.insert(e, Item::Medkit);
        proof {
            let a = self.entity_allocator;
            lemma_table_insert_view(
                a,
                old(self).components.tile@,
                self.components.tile@,
                e,
                Tile::Medkit,
            );
            lemma_table_insert_view(
                a,
                old(self).components.item@,
                self.components.item@,
                e,
                Item::Medkit,
            );
        }
        e
    }

    /// Spawns a momentary light flash: a floating effect whose light fades
    /// out and which is destroyed when the fade completes.
    pub fn spawn_flash(&mut self, coord: Coord, colour: Option<Rgb24>) -> (e: Entity)
        requires
            old(self).wf(),
            old(self).spatial_table.in_bounds(coord),
        ensures
            final(self).wf(),
            spec_fresh(*old(self), *final(self), e),
            final(self).spatial_table.spec_width() == old(self).spatial_table.spec_width(),
            final(self).spatial_table.spec_height() == old(self).spatial_table.spec_height(),
            *final(self) == (World {
                entity_allocator: final(self).entity_allocator,
                spatial_table: final(self).spatial_table,
                components: final(self).components,
                realtime_components: final(self).realtime_components,
                ..*old(self)
            }),
            final(self).components == (Components {
                realtime: final(self).components.realtime,
                light: final(self).components.light,
                ..old(self).components
            }),
            final(self).spatial_table@ == old(self).spatial_table@.insert(
                e,
                Location { coord, layer: None },
            ),
            final(self).components.realtime@ == old(self).components.realtime@.insert(e, ()),
            final(self).components.light@ == old(self).components.light@.insert(
                e,
                spec_flash_light(colour),
            ),
            final(self).realtime_components.fade@ == old(self).realtime_components.fade@.insert(
                e,
                Scheduled { state: FadeState { total: FLASH_FADE_MICROS, elapsed: 0 }, until_next: 1 },
            ),
            final(self).realtime_components.movement@ == old(
                self,
            ).realtime_components.movement@,
            final(self).realtime_components.particle_emitter@ == old(
                self,
            ).realtime_components.particle_emitter@,
            final(self).realtime_components.light_colour_fade@ == old(
                self,
            ).realtime_components.light_colour_fade@,
    {
        let location = Location { coord, layer: None };
        let e = self.place_new_entity(location);
        let light_colour = match colour {
            Some(c) => c,
            None => Rgb24::new_grey(100),
        };
        self.components.realtime.insert(e, ());
        self.components.light.insert(
            e,
            Light {
                colour: light_colour,
                vision_distance_squared: 90,
                diminish: Rational { numerator: 1, denominator: 20 },
            },
        );
        self.realtime_components.fade.insert(
            e,
            Scheduled { state: FadeState::new(FLASH_FADE_MICROS), until_next: 1 },
        );
        proof {
            let a = self.entity_allocator;
            lemma_table_insert_view(
                a,
                old(self).components.realtime@,
                self.components.realtime@,
                e,
                (),
            );
            lemma_table_insert_view(
                a,
                old(self).components.light@,
                self.components.light@,
                e,
                spec_flash_light(colour),
            );
            lemma_table_insert_view(
                a,
                old(self).realtime_components.fade@,
                self.realtime_components.fade@,
                e,
                Scheduled {
                    state: FadeState { total: FLASH_FADE_MICROS, elapsed: 0 },
                    until_next: 1u64,
                },
            );
        }
        e
    }
}

/// The light a muzzle flash casts: the weapon's colour, or a grey default.
pub open spec fn spec_flash_light(colour: Option<Rgb24>) -> Light {
    Light {
        colour: match colour {
            Some(c) => c,
            None => Rgb24 { r: 100, g: 100, b: 100 },
        },
        vision_distance_squared: 90,
        diminish: Rational { numerator: 1, denominator: 20 },
    }
}

impl World {
    /// Spawns an explosion's particle emitter: a floating light that emits
    /// burning particles, fades over the explosion's duration, and cools
    /// from flame-orange to black.
    pub fn spawn_explosion_emitter(&mut self, coord: Coord, spec: &ParticleEmitterSpec) -> (e:
        Entity)
        requires
            old(self).wf(),
            old(self).spatial_table.in_bounds(coord),
            1 <= spec.num_particles_per_frame <= FRAME_MICROS,
            1 <= spec.min_step <= spec.max_step <= crate::realtime::MAX_STEP_MICROS,
        ensures
            final(self).wf(),
            spec_fresh(*old(self), *final(self), e),
            final(self).spatial_table.spec_width() == old(self).spatial_table.spec_width(),
            final(self).spatial_table.spec_height() == old(self).spatial_table.spec_height(),
            *final(self) == (World {
                entity_allocator: final(self).entity_allocator,
                spatial_table: final(self).spatial_table,
                components: final(self).components,
                realtime_components: final(self).realtime_components,
                ..*old(self)
            }),
            final(self).components == (Components {
                realtime: final(self).components.realtime,
                light: final(self).components.light,
                ..old(self).components
            }),
            final(self).spatial_table@ == old(self).spatial_table@.insert(
                e,
                Location { coord, layer: None },
            ),
            final(self).components.realtime@ == old(self).components.realtime@.insert(e, ()),
            final(self).realtime_components.fade@ == old(self).realtime_components.fade@.insert(
                e,
                Scheduled { state: FadeState { total: spec.duration, elapsed: 0 }, until_next: 1 },
            ),
            final(self).realtime_components.particle_emitter@ == old(
                self,
            ).realtime_components.particle_emitter@.insert(
                e,
                Scheduled { state: spec_explosion_emitter(*spec), until_next: 1 },
            ),
            final(self).components.light@ == old(self).components.light@.insert(
                e,
                spec_explosion_light(),
            ),
            final(self).realtime_components.light_colour_fade@ == old(
                self,
            ).realtime_components.light_colour_fade@.insert(
                e,
                Scheduled {
                    state: LightColourFadeState {
                        fade_state: FadeState { total: spec.fade_duration, elapsed: 0 },
                        from: Rgb24 { r: 255, g: 187, b: 63 },
                        to: Rgb24 { r: 0, g: 0, b: 0 },
                    },
                    until_next: 1,
                },
            ),
            final(self).realtime_components.movement@ == old(self).realtime_components.movement@,
    {
        let location = Location { coord, layer: None };
        let e = self.place_new_entity(location);
        self.components.realtime.insert(e, ());
        self.components.light.insert(
            e,
            Light {
                colour: Rgb24::new(255, 187, 63),
                vision_distance_squared: 420,
                diminish: Rational { numerator: 1, denominator: 100 },
            },
        );
        self.realtime_components.fade.insert(
            e,
            Scheduled { state: FadeState::new(spec.duration), until_next: 1 },
        );
        let emitter = ParticleEmitterState {
            emit_particle_every_period: period_per_frame(spec.num_particles_per_frame),
            fade_out_duration: Some(spec.duration),
            particle: ParticleSpec {
                tile: None,
                movement: Some(
                    ParticleMovementSpec { min_period: spec.min_step, max_period: spec.max_step },
                ),
                fade_duration: Some(spec.fade_duration),
                colour_hint: Some(
                    ColourRange { low: Rgb24::new(255, 17, 0), high: Rgb24::new(255, 255, 63) },
                ),
                possible_light: None,
                possible_particle_emitter: Some(
                    PossibleChildEmitter {
                        chance: Rational { numerator: 1, denominator: 20 },
                        emitter: ChildEmitterSpec {
                            emit_period: spec.min_step,
                            particle_fade_duration: 1_000_000,
                            min_period: 200_000,
                            max_period: 500_000,
                        },
                    },
                ),
            },
        };
        self.realtime_components.particle_emitter.insert(e, Scheduled { state: emitter, until_next: 1 });
        self.realtime_components.light_colour_fade.insert(
            e,
            Scheduled {
                state: LightColourFadeState {
                    fade_state: FadeState::new(spec.fade_duration),
                    from: Rgb24::new(255, 187, 63),
                    to: Rgb24::new(0, 0, 0),
                },
                until_next: 1,
            },
        );
        proof {
            let a = self.entity_allocator;
            lemma_table_insert_view(
                a,
                old(self).components.realtime@,
                self.components.realtime@,
                e,
                (),
            );
            lemma_table_insert_view(
                a,
                old(self).realtime_components.fade@,
                self.realtime_components.fade@,
                e,
                Scheduled {
                    state: FadeState { total: spec.duration, elapsed: 0 },
                    until_next: 1u64,
                },
            );
            lemma_table_insert_view(
                a,
                old(self).realtime_components.particle_emitter@,
                self.realtime_components.particle_emitter@,
                e,
                Scheduled { state: spec_explosion_emitter(*spec), until_next: 1u64 },
            );
            lemma_table_insert_view(
                a,
                old(self).components.light@,
                self.components.light@,
                e,
                spec_explosion_light(),
            );
            lemma_table_insert_view(
                a,
                old(self).realtime_components.light_colour_fade@,
                self.realtime_components.light_colour_fade@,
                e,
                Scheduled {
                    state: LightColourFadeState {
                        fade_state: FadeState { total: spec.fade_duration, elapsed: 0 },
                        from: Rgb24 { r: 255, g: 187, b: 63 },
                        to: Rgb24 { r: 0, g: 0, b: 0 },
                    },
                    until_next: 1u64,
                },
            );
        }
        e
    }

    /// Spawns a bullet: a floating projectile that traverses the line from
    /// `start` towards `target` once, carrying the weapon's damage payload
    /// and a trail of particles.
    pub fn spawn_bullet(&mut self, start: Coord, target: Coord, weapon: &Weapon) -> (e: Entity)
        requires
            old(self).wf(),
            old(self).spatial_table.in_bounds(start),
            weapon.wf(),
            -crate::geom::COORD_LIMIT <= target.x <= crate::geom::COORD_LIMIT,
            -crate::geom::COORD_LIMIT <= target.y <= crate::geom::COORD_LIMIT,
        ensures
            final(self).wf(),
            spec_fresh(*old(self), *final(self), e),
            final(self).spatial_table.spec_width() == old(self).spatial_table.spec_width(),
            final(self).spatial_table.spec_height() == old(self).spatial_table.spec_height(),
            spec_spawned_bullet(*old(self), *final(self), e, start, target, *weapon),
    {
        proof {
            old(self).spatial_table.lemma_dims();
        }
        let location = Location { coord: start, layer: None };
        let e = self.place_new_entity(location);
        let on_collision = match weapon.on_collision {
            Some(c) => c,
            None => OnCollision::Remove,
        };
        let projectile_damage = ProjectileDamage {
            hit_points: weapon.dmg,
            push_back: weapon.abilities.knock_back,
            pen: weapon.pen,
            hull_pen_percent: weapon.hull_pen_percent,
            life_steal: weapon.abilities.life_steal,
            weapon_name: Some(weapon.name),
        };
        self.components.realtime.insert(e, ());
        self.components.on_collision.insert(e, on_collision);
        self.components.collides_with.insert(e, CollidesWith::new_default());
        self.components.tile.insert(e, Tile::Bullet);
        self.components.projectile_damage.insert(e, projectile_damage);
        let path = target.minus(start);
        let movement = Movement {
            path,
            repeat: Repeat::Once,
            cardinal_step_duration: BULLET_STEP_MICROS,
        };
        self.realtime_components.movement.insert(
            e,
            Scheduled { state: movement.build(), until_next: 1 },
        );
        let emitter = bullet_trail_emitter(weapon);
        self.realtime_components.particle_emitter.insert(e, Scheduled { state: emitter, until_next: 1 });
        proof {
            let a = self.entity_allocator;
            lemma_table_insert_view(
                a,
                old(self).components.realtime@,
                self.components.realtime@,
                e,
                (),
            );
            lemma_table_insert_view(
                a,
                old(self).components.on_collision@,
                self.components.on_collision@,
                e,
                on_collision,
            );
            lemma_table_insert_view(
                a,
                old(self).components.collides_with@,
                self.components.collides_with@,
                e,
                CollidesWith { solid: true, character: false },
            );
            lemma_table_insert_view(
                a,
                old(self).components.tile@,
                self.components.tile@,
                e,
                Tile::Bullet,
            );
            lemma_table_insert_view(
                a,
                old(self).components.projectile_damage@,
                self.components.projectile_damage@,
                e,
                projectile_damage,
            );
            lemma_table_insert_view(
                a,
                old(self).realtime_components.movement@,
                self.realtime_components.movement@,
                e,
                Scheduled { state: spec_bullet_movement_state(start, target), until_next: 1u64 },
            );
            lemma_table_insert_view(
                a,
                old(self).realtime_components.particle_emitter@,
                self.realtime_components.particle_emitter@,
                e,
                Scheduled { state: spec_bullet_trail_emitter(*weapon), until_next: 1u64 },
            );
        }
        e
    }
}

/// The trail emitter of a bullet: a bright or dim glow for weapons that
/// cast light, a smoke of drifting particles for those that do not.
fn bullet_trail_emitter(weapon: &Weapon) -> (r: ParticleEmitterState)
    ensures
        r == spec_bullet_trail_emitter(*weapon),
        r.wf(),
{
    match weapon.light_colour {
        Some(light_colour) => {
            if weapon.bright {
                ParticleEmitterState {
                    emit_particle_every_period: 8_000,
                    fade_out_duration: None,
                    particle: ParticleSpec {
                        tile: None,
                        movement: None,
                        fade_duration: Some(200_000),
                        colour_hint: None,
                        possible_light: Some(
                            PossibleLight {
                                chance: Rational { numerator: 1, denominator: 1 },
                                light: Light {
                                    colour: light_colour,
                                    vision_distance_squared: 50,
                                    diminish: Rational { numerator: 10, denominator: 1 },
                                },
                            },
                        ),
                        possible_particle_emitter: None,
                    },
                }
            } else {
                ParticleEmitterState {
                    emit_particle_every_period: 1_000,
                    fade_out_duration: None,
                    particle: ParticleSpec {
                        tile: None,
                        movement: None,
                        fade_duration: Some(100_000),
                        colour_hint: None,
                        possible_light: Some(
                            PossibleLight {
                                chance: Rational { numerator: 1, denominator: 1 },
                                light: Light {
                                    colour: light_colour,
                                    vision_distance_squared: 7,
                                    diminish: Rational { numerator: 100, denominator: 1 },
                                },
                            },
                        ),
                        possible_particle_emitter: None,
                    },
                }
            }
        },
        None => ParticleEmitterState {
            emit_particle_every_period: 2_000,
            fade_out_duration: None,
            particle: ParticleSpec {
                tile: None,
                movement: Some(
                    ParticleMovementSpec { min_period: 200_000, max_period: 500_000 },
                ),
                fade_duration: Some(1_000_000),
                colour_hint: None,
                possible_light: None,
                possible_particle_emitter: None,
            },
        },
    }
}

/// The flame-coloured light an explosion's emitter carries.
pub open spec fn spec_explosion_light() -> Light {
    Light {
        colour: Rgb24 { r: 255, g: 187, b: 63 },
        vision_distance_squared: 420,
        diminish: Rational { numerator: 1, denominator: 100 },
    }
}

/// The explosion emitter built from an explosion's particle specification.
pub open spec fn spec_explosion_emitter(spec: ParticleEmitterSpec) -> ParticleEmitterState {
    ParticleEmitterState {
        emit_particle_every_period: (FRAME_MICROS as int / spec.num_particles_per_frame as int) as u64,
        fade_out_duration: Some(spec.duration),
        particle: ParticleSpec {
            tile: None,
            movement: Some(
                ParticleMovementSpec { min_period: spec.min_step, max_period: spec.max_step },
            ),
            fade_duration: Some(spec.fade_duration),
            colour_hint: Some(
                ColourRange {
                    low: Rgb24 { r: 255, g: 17, b: 0 },
                    high: Rgb24 { r: 255, g: 255, b: 63 },
                },
            ),
            possible_light: None,
            possible_particle_emitter: Some(
                PossibleChildEmitter {
                    chance: Rational { numerator: 1, denominator: 20 },
                    emitter: ChildEmitterSpec {
                        emit_period: spec.min_step,
                        particle_fade_duration: 1_000_000,
                        min_period: 200_000,
                        max_period: 500_000,
                    },
                },
            ),
        },
    }
}

/// The trail emitter of a bullet of the given weapon.
pub open spec fn spec_bullet_trail_emitter(weapon: Weapon) -> ParticleEmitterState {
    match weapon.light_colour {
        Some(light_colour) => ParticleEmitterState {
            emit_particle_every_period: if weapon.bright {
                8_000
            } else {
                1_000
            },
            fade_out_duration: None,
            particle: ParticleSpec {
                tile: None,
                movement: None,
                fade_duration: Some(
                    if weapon.bright {
                        200_000
                    } else {
                        100_000
                    },
                ),
                colour_hint: None,
                possible_light: Some(
                    PossibleLight {
                        chance: Rational { numerator: 1, denominator: 1 },
                        light: Light {
                            colour: light_colour,
                            vision_distance_squared: if weapon.bright {
                                50
                            } else {
                                7
                            },
                            diminish: Rational {
                                numerator: if weapon.bright {
                                    10
                                } else {
                                    100
                                },
                                denominator: 1,
                            },
                        },
                    },
                ),
                possible_particle_emitter: None,
            },
        },
        None => ParticleEmitterState {
            emit_particle_every_period: 2_000,
            fade_out_duration: None,
            particle: ParticleSpec {
                tile: None,
                movement: Some(
                    ParticleMovementSpec { min_period: 200_000, max_period: 500_000 },
                ),
                fade_duration: Some(1_000_000),
                colour_hint: None,
                possible_light: None,
                possible_particle_emitter: None,
            },
        },
    }
}

/// A bullet `e` was spawned at `start` aimed at `target` with the given
/// weapon: freshly allocated, floating (no occupancy), carrying the
/// weapon's damage payload, a one-traversal movement along the line to the
/// target at the bullet step duration, and the weapon's trail emitter.
pub open spec fn spec_spawned_bullet(
    pre: World,
    post: World,
    e: Entity,
    start: Coord,
    target: Coord,
    weapon: Weapon,
) -> bool {
    &&& post == (World {
        entity_allocator: post.entity_allocator,
        spatial_table: post.spatial_table,
        components: post.components,
        realtime_components: post.realtime_components,
        ..pre
    })
    &&& post.components == (Components {
        realtime: post.components.realtime,
        on_collision: post.components.on_collision,
        collides_with: post.components.collides_with,
        tile: post.components.tile,
        projectile_damage: post.components.projectile_damage,
        ..pre.components
    })
    &&& post.spatial_table.spec_width() == pre.spatial_table.spec_width()
    &&& post.spatial_table.spec_height() == pre.spatial_table.spec_height()
    &&& post.spatial_table@ == pre.spatial_table@.insert(e, Location { coord: start, layer: None })
    &&& post.components.tile@ == pre.components.tile@.insert(e, Tile::Bullet)
    &&& post.components.projectile_damage@ == pre.components.projectile_damage@.insert(
        e,
        ProjectileDamage {
            hit_points: weapon.dmg,
            push_back: weapon.abilities.knock_back,
            pen: weapon.pen,
            hull_pen_percent: weapon.hull_pen_percent,
            life_steal: weapon.abilities.life_steal,
            weapon_name: Some(weapon.name),
        },
    )
    &&& post.components.on_collision@ == pre.components.on_collision@.insert(
        e,
        match weapon.on_collision {
            Some(c) => c,
            None => OnCollision::Remove,
        },
    )
    &&& post.components.collides_with@ == pre.components.collides_with@.insert(
        e,
        CollidesWith { solid: true, character: false },
    )
    &&& post.components.realtime@ == pre.components.realtime@.insert(e, ())
    &&& post.realtime_components.movement@ == pre.realtime_components.movement@.insert(
        e,
        Scheduled {
            state: spec_bullet_movement_state(start, target),
            until_next: 1,
        },
    )
    &&& post.realtime_components.particle_emitter@
        == pre.realtime_components.particle_emitter@.insert(
        e,
        Scheduled { state: spec_bullet_trail_emitter(weapon), until_next: 1 },
    )
    &&& post.realtime_components.fade@ == pre.realtime_components.fade@
    &&& post.realtime_components.light_colour_fade@ == pre.realtime_components.light_colour_fade@
}

/// The movement state a fresh bullet starts with.

pub open spec fn spec_bullet_movement_state(start: Coord, target: Coord) -> crate::realtime::MovementState {
    crate::realtime::MovementState {
        path: (Movement {
            path: Coord { x: (target.x - start.x) as i32, y: (target.y - start.y) as i32 },
            repeat: Repeat::Once,
            cardinal_step_duration: BULLET_STEP_MICROS,
        }).spec_initial_path(),
        cardinal_step_duration: BULLET_STEP_MICROS,
        ordinal_step_duration: crate::realtime::spec_ordinal_duration(BULLET_STEP_MICROS) as u64,
    }
}

/// A ranged weapon item `e` of the given kind was spawned at `coord`:
/// freshly allocated, stacked on the item layer, carrying its tile, item
/// record and factory weapon, and every other part of the world as it was.
pub open spec fn spec_spawned_weapon_item(
    pre: World,
    post: World,
    e: Entity,
    coord: Coord,
    wpn: WeaponType,
) -> bool {
    &&& spec_fresh(pre, post, e)
    &&& post == (World {
        entity_allocator: post.entity_allocator,
        spatial_table: post.spatial_table,
        components: post.components,
        ..pre
    })
    &&& post.components == (Components {
        tile: post.components.tile,
        item: post.components.item,
        weapon: post.components.weapon,
        ..pre.components
    })
    &&& post.spatial_table@ == pre.spatial_table@.insert(
        e,
        Location { coord, layer: Some(Layer::Item) },
    )
    &&& post.spatial_table.spec_width() == pre.spatial_table.spec_width()
    &&& post.spatial_table.spec_height() == pre.spatial_table.spec_height()
    &&& post.components.tile@ == pre.components.tile@.insert(e, Tile::Weapon(wpn))
    &&& post.components.item@ == pre.components.item@.insert(e, Item::Weapon(wpn))
    &&& post.components.weapon@ == pre.components.weapon@.insert(e, wpn.spec_new_weapon())
}

/// A medkit item `e` was spawned at `coord`: freshly allocated, stacked on
/// the item layer with its tile and item record, and every other part of
/// the world as it was.
pub open spec fn spec_spawned_medkit(pre: World, post: World, e: Entity, coord: Coord) -> bool {
    &&& spec_fresh(pre, post, e)
    &&& post == (World {
        entity_allocator: post.entity_allocator,
        spatial_table: post.spatial_table,
        components: post.components,
        ..pre
    })
    &&& post.components == (Components {
        tile: post.components.tile,
        item: post.components.item,
        ..pre.components
    })
    &&& post.spatial_table@ == pre.spatial_table@.insert(
        e,
        Location { coord, layer: Some(Layer::Item) },
    )
    &&& post.spatial_table.spec_width() == pre.spatial_table.spec_width()
    &&& post.spatial_table.spec_height() == pre.spatial_table.spec_height()
    &&& post.components.tile@ == pre.components.tile@.insert(e, Tile::Medkit)
    &&& post.components.item@ == pre.components.item@.insert(e, Item::Medkit)
}

/// An NPC `e` of the given kind was spawned at `coord`: freshly allocated,
/// placed on the character slot, with its tile, character marker, melee
/// damage, armour and full hit points, and every other part of the world as
/// it was.
pub open spec fn spec_spawned_npc(
    pre: World,
    post: World,
    e: Entity,
    coord: Coord,
    npc_type: NpcType,
    melee_damage: u32,
    armour: u32,
    hit_points: u32,
) -> bool {
    &&& post == (World {
        entity_allocator: post.entity_allocator,
        spatial_table: post.spatial_table,
        components: post.components,
        ..pre
    })
    &&& post.components == (Components {
        tile: post.components.tile,
        character: post.components.character,
        npc: post.components.npc,
        damage: post.components.damage,
        armour: post.components.armour,
        hp: post.components.hp,
        ..pre.components
    })
    &&& post.spatial_table@ == pre.spatial_table@.insert(
        e,
        Location { coord, layer: Some(Layer::Character) },
    )
    &&& post.components.tile@ == pre.components.tile@.insert(e, Tile::Npc(npc_type))
    &&& post.components.character@ == pre.components.character@.insert(e, ())
    &&& post.components.npc@ == pre.components.npc@.insert(
        e,
        Npc { disposition: Disposition::Hostile, npc_type, weapon: None, move_to: None },
    )
    &&& post.components.damage@ == pre.components.damage@.insert(e, melee_damage)
    &&& post.components.armour@ == pre.components.armour@.insert(e, Armour { value: armour })
    &&& post.components.hp@ == pre.components.hp@.insert(
        e,
        HitPoints { current: hit_points, max: hit_points },
    )
}

} // verus!
