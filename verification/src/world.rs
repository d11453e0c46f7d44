//! The world: entity allocator, component tables, spatial index, realtime
//! components and the side channels, with the invariants that tie them
//! together.

use crate::data::{
    DoorState, GrassState, Item, Light, Npc, Player, Rgb24,
};
use crate::entity::{Entity, EntityAllocator};
use crate::event::{ExternalEvent, Message};
use crate::geom::Coord;
use crate::realtime::{FadeState, LightColourFadeState, MovementState};
use crate::rng::Rng;
use crate::spatial::{Layer, SpatialTable};
use crate::stats::{Armour, HitPoints, Stunned};
use crate::table::ComponentTable;
use crate::tile::Tile;
use crate::weapon::{CollidesWith, OnCollision, ProjectileDamage, Weapon};
use vstd::prelude::*;

verus! {

/// The turn-scoped component tables, one sparse map per capability.
pub struct Components {
    pub tile: ComponentTable<Tile>,
    pub player: ComponentTable<Player>,
    pub npc: ComponentTable<Npc>,
    pub hp: ComponentTable<HitPoints>,
    pub armour: ComponentTable<Armour>,
    pub dead: ComponentTable<()>,
    pub solid: ComponentTable<()>,
    pub character: ComponentTable<()>,
    pub door_state: ComponentTable<DoorState>,
    pub grass_state: ComponentTable<GrassState>,
    pub stunned: ComponentTable<Stunned>,
    pub item: ComponentTable<Item>,
    pub weapon: ComponentTable<Weapon>,
    pub projectile_damage: ComponentTable<ProjectileDamage>,
    pub collides_with: ComponentTable<CollidesWith>,
    pub on_collision: ComponentTable<OnCollision>,
    pub realtime: ComponentTable<()>,
    pub blocks_gameplay: ComponentTable<()>,
    pub pushed_from: ComponentTable<Coord>,
    pub upgrade: ComponentTable<()>,
    pub opacity: ComponentTable<u8>,
    pub light: ComponentTable<Light>,
    pub damage: ComponentTable<u32>,
}

/// A realtime component together with the delay until its next tick, in
/// microseconds.
#[derive(Clone, Copy, PartialEq, Eq, Structural, Debug)]
pub struct Scheduled<T> {
    pub state: T,
    pub until_next: u64,
}

/// The realtime component tables: one ticking behavior per kind.
pub struct RealtimeComponents {
    pub movement: ComponentTable<Scheduled<MovementState>>,
    pub fade: ComponentTable<Scheduled<FadeState>>,
    pub particle_emitter: ComponentTable<Scheduled<crate::particle::ParticleEmitterState>>,
    pub light_colour_fade: ComponentTable<Scheduled<LightColourFadeState>>,
}

/// Whether every key of a component table is a live entity.
pub open spec fn keys_live<T>(m: Map<Entity, T>, a: EntityAllocator) -> bool {
    forall|e: Entity| #[trigger] m.contains_key(e) ==> a.spec_exists(e)
}

impl Components {
    pub fn new() -> (c: Components)
        ensures
            c.tile@ == Map::<Entity, Tile>::empty(),
            c.player@ == Map::<Entity, Player>::empty(),
            c.npc@ == Map::<Entity, Npc>::empty(),
            c.hp@ == Map::<Entity, HitPoints>::empty(),
            c.armour@ == Map::<Entity, Armour>::empty(),
            c.dead@ == Map::<Entity, ()>::empty(),
            c.solid@ == Map::<Entity, ()>::empty(),
            c.character@ == Map::<Entity, ()>::empty(),
            c.door_state@ == Map::<Entity, DoorState>::empty(),
            c.grass_state@ == Map::<Entity, GrassState>::empty(),
            c.stunned@ == Map::<Entity, Stunned>::empty(),
            c.item@ == Map::<Entity, Item>::empty(),
            c.weapon@ == Map::<Entity, Weapon>::empty(),
            c.projectile_damage@ == Map::<Entity, ProjectileDamage>::empty(),
            c.collides_with@ == Map::<Entity, CollidesWith>::empty(),
            c.on_collision@ == Map::<Entity, OnCollision>::empty(),
            c.realtime@ == Map::<Entity, ()>::empty(),
            c.blocks_gameplay@ == Map::<Entity, ()>::empty(),
            c.pushed_from@ == Map::<Entity, Coord>::empty(),
            c.upgrade@ == Map::<Entity, ()>::empty(),
            c.opacity@ == Map::<Entity, u8>::empty(),
            c.light@ == Map::<Entity, Light>::empty(),
            c.damage@ == Map::<Entity, u32>::empty(),
    {
        Components {
            tile: ComponentTable::new(),
            player: ComponentTable::new(),
            npc: ComponentTable::new(),
            hp: ComponentTable::new(),
            armour: ComponentTable::new(),
            dead: ComponentTable::new(),
            solid: ComponentTable::new(),
            character: ComponentTable::new(),
            door_state: ComponentTable::new(),
            grass_state: ComponentTable::new(),
            stunned: ComponentTable::new(),
            item: ComponentTable::new(),
            weapon: ComponentTable::new(),
            projectile_damage: ComponentTable::new(),
            collides_with: ComponentTable::new(),
            on_collision: ComponentTable::new(),
            realtime: ComponentTable::new(),
            blocks_gameplay: ComponentTable::new(),
            pushed_from: ComponentTable::new(),
            upgrade: ComponentTable::new(),
            opacity: ComponentTable::new(),
            light: ComponentTable::new(),
            damage: ComponentTable::new(),
        }
    }

    /// Removes every component entry of one entity.
    pub fn remove_entity(&mut self, e: Entity)
        ensures
            final(self).tile@ == old(self).tile@.remove(e),
            final(self).player@ == old(self).player@.remove(e),
            final(self).npc@ == old(self).npc@.remove(e),
            final(self).hp@ == old(self).hp@.remove(e),
            final(self).armour@ == old(self).armour@.remove(e),
            final(self).dead@ == old(self).dead@.remove(e),
            final(self).solid@ == old(self).solid@.remove(e),
            final(self).character@ == old(self).character@.remove(e),
            final(self).door_state@ == old(self).door_state@.remove(e),
            final(self).grass_state@ == old(self).grass_state@.remove(e),
            final(self).stunned@ == old(self).stunned@.remove(e),
            final(self).item@ == old(self).item@.remove(e),
            final(self).weapon@ == old(self).weapon@.remove(e),
            final(self).projectile_damage@ == old(self).projectile_damage@.remove(e),
            final(self).collides_with@ == old(self).collides_with@.remove(e),
            final(self).on_collision@ == old(self).on_collision@.remove(e),
            final(self).realtime@ == old(self).realtime@.remove(e),
            final(self).blocks_gameplay@ == old(self).blocks_gameplay@.remove(e),
            final(self).pushed_from@ == old(self).pushed_from@.remove(e),
            final(self).upgrade@ == old(self).upgrade@.remove(e),
            final(self).opacity@ == old(self).opacity@.remove(e),
            final(self).light@ == old(self).light@.remove(e),
            final(self).damage@ == old(self).damage@.remove(e),
    {
        self.tile.remove(e);
        self.player.remove(e);
        self.npc.remove(e);
        self.hp.remove(e);
        self.armour.remove(e);
        self.dead.remove(e);
        self.solid.remove(e);
        self.character.remove(e);
        self.door_state.remove(e);
        self.grass_state.remove(e);
        self.stunned.remove(e);
        self.item.remove(e);
        self.weapon.remove(e);
        self.projectile_damage.remove(e);
        self.collides_with.remove(e);
        self.on_collision.remove(e);
        self.realtime.remove(e);
        self.blocks_gameplay.remove(e);
        self.pushed_from.remove(e);
        self.upgrade.remove(e);
        self.opacity.remove(e);
        self.light.remove(e);
        self.damage.remove(e);
    }

    /// Whether `e` has no entry in any table.
    pub open spec fn spec_absent(self, e: Entity) -> bool {
        &&& !self.tile@.contains_key(e)
        &&& !self.player@.contains_key(e)
        &&& !self.npc@.contains_key(e)
        &&& !self.hp@.contains_key(e)
        &&& !self.armour@.contains_key(e)
        &&& !self.dead@.contains_key(e)
        &&& !self.solid@.contains_key(e)
        &&& !self.character@.contains_key(e)
        &&& !self.door_state@.contains_key(e)
        &&& !self.grass_state@.contains_key(e)
        &&& !self.stunned@.contains_key(e)
        &&& !self.item@.contains_key(e)
        &&& !self.weapon@.contains_key(e)
        &&& !self.projectile_damage@.contains_key(e)
        &&& !self.collides_with@.contains_key(e)
        &&& !self.on_collision@.contains_key(e)
        &&& !self.realtime@.contains_key(e)
        &&& !self.blocks_gameplay@.contains_key(e)
        &&& !self.pushed_from@.contains_key(e)
        &&& !self.upgrade@.contains_key(e)
        &&& !self.opacity@.contains_key(e)
        &&& !self.light@.contains_key(e)
        &&& !self.damage@.contains_key(e)
    }

    /// Whether every key of every table is live.
    pub open spec fn keys_live(self, a: EntityAllocator) -> bool {
        &&& keys_live(self.tile@, a)
        &&& keys_live(self.player@, a)
        &&& keys_live(self.npc@, a)
        &&& keys_live(self.hp@, a)
        &&& keys_live(self.armour@, a)
        &&& keys_live(self.dead@, a)
        &&& keys_live(self.solid@, a)
        &&& keys_live(self.character@, a)
        &&& keys_live(self.door_state@, a)
        &&& keys_live(self.grass_state@, a)
        &&& keys_live(self.stunned@, a)
        &&& keys_live(self.item@, a)
        &&& keys_live(self.weapon@, a)
        &&& keys_live(self.projectile_damage@, a)
        &&& keys_live(self.collides_with@, a)
        &&& keys_live(self.on_collision@, a)
        &&& keys_live(self.realtime@, a)
        &&& keys_live(self.blocks_gameplay@, a)
        &&& keys_live(self.pushed_from@, a)
        &&& keys_live(self.upgrade@, a)
        &&& keys_live(self.opacity@, a)
        &&& keys_live(self.light@, a)
        &&& keys_live(self.damage@, a)
    }
}

impl RealtimeComponents {
    pub fn new() -> (c: RealtimeComponents)
        ensures
            c.movement@ == Map::<Entity, Scheduled<MovementState>>::empty(),
            c.fade@ == Map::<Entity, Scheduled<FadeState>>::empty(),
            c.particle_emitter@ == Map::<
                Entity,
                Scheduled<crate::particle::ParticleEmitterState>,
            >::empty(),
            c.light_colour_fade@ == Map::<Entity, Scheduled<LightColourFadeState>>::empty(),
    {
        RealtimeComponents {
            movement: ComponentTable::new(),
            fade: ComponentTable::new(),
            particle_emitter: ComponentTable::new(),
            light_colour_fade: ComponentTable::new(),
        }
    }

    /// Removes every realtime component of one entity.
    pub fn remove_entity(&mut self, e: Entity)
        ensures
            final(self).movement@ == old(self).movement@.remove(e),
            final(self).fade@ == old(self).fade@.remove(e),
            final(self).particle_emitter@ == old(self).particle_emitter@.remove(e),
            final(self).light_colour_fade@ == old(self).light_colour_fade@.remove(e),
    {
        self.movement.remove(e);
        self.fade.remove(e);
        self.particle_emitter.remove(e);
        self.light_colour_fade.remove(e);
    }

    /// Whether `e` has no realtime component.
    pub open spec fn spec_absent(self, e: Entity) -> bool {
        &&& !self.movement@.contains_key(e)
        &&& !self.fade@.contains_key(e)
        &&& !self.particle_emitter@.contains_key(e)
        &&& !self.light_colour_fade@.contains_key(e)
    }

    /// Whether every key of every table is live.
    pub open spec fn keys_live(self, a: EntityAllocator) -> bool {
        &&& keys_live(self.movement@, a)
        &&& keys_live(self.fade@, a)
        &&& keys_live(self.particle_emitter@, a)
        &&& keys_live(self.light_colour_fade@, a)
    }

    /// Whether every scheduled behavior is internally consistent.
    pub open spec fn states_wf(self) -> bool {
        &&& forall|e: Entity|
            #[trigger] self.movement@.contains_key(e) ==> self.movement@[e].state.wf()
        &&& forall|e: Entity|
            #[trigger] self.fade@.contains_key(e) ==> self.fade@[e].state.wf()
        &&& forall|e: Entity|
            #[trigger] self.particle_emitter@.contains_key(e) ==> self.particle_emitter@[e].state.wf()
        &&& forall|e: Entity|
            #[trigger] self.light_colour_fade@.contains_key(e) ==> self.light_colour_fade@[e].state.wf()
    }
}

/// The simulation world.
pub struct World {
    pub entity_allocator: EntityAllocator,
    pub components: Components,
    pub realtime_components: RealtimeComponents,
    pub spatial_table: SpatialTable,
    /// The player's identifier, once one has been spawned.
    pub player_entity: Option<Entity>,
    /// Sound-effect events emitted since the last drain, in order.
    pub external_events: Vec<ExternalEvent>,
    /// The structured combat / event log, in order.
    pub message_log: Vec<Message>,
    /// The injected random source.
    pub rng: Rng,
}

/// A table after inserting a value for a live key equals the map insertion,
/// because live keys never share slot indices.
pub proof fn lemma_table_insert_view<T>(
    a: EntityAllocator,
    pre: Map<Entity, T>,
    post: Map<Entity, T>,
    e: Entity,
    v: T,
)
    requires
        keys_live(pre, a),
        a.spec_exists(e),
        post.contains_key(e),
        post[e] == v,
        forall|o: Entity|
            o.index != e.index ==> #[trigger] post.contains_key(o) == pre.contains_key(o),
        forall|o: Entity|
            o.index != e.index && pre.contains_key(o) ==> #[trigger] post[o] == pre[o],
        forall|o: Entity| o != e ==> !(#[trigger] post.contains_key(o) && o.index == e.index),
    ensures
        post == pre.insert(e, v),
{
    assert forall|o: Entity| #![auto] pre.contains_key(o) && o.index == e.index implies o
        == e by {
        a.lemma_live_same_index(o, e);
    }
    assert(post =~= pre.insert(e, v));
}

impl World {
    /// The world's global consistency invariant: the allocator and spatial
    /// index are well formed, every component key is a live entity, hit
    /// points and weapons are internally consistent, every NPC is a located
    /// combatant, and every character-layer occupant is the player or an
    /// NPC.
    pub open spec fn wf(self) -> bool {
        &&& self.entity_allocator.wf()
        &&& self.spatial_table.wf()
        &&& self.components.keys_live(self.entity_allocator)
        &&& self.realtime_components.keys_live(self.entity_allocator)
        &&& keys_live(self.spatial_table@, self.entity_allocator)
        &&& self.realtime_components.states_wf()
        &&& forall|e: Entity|
            #[trigger] self.components.hp@.contains_key(e) ==> self.components.hp@[e].wf()
        &&& forall|e: Entity|
            #[trigger] self.components.player@.contains_key(e) ==> spec_player_wf(
                self.components.player@[e],
            )
        &&& forall|e: Entity|
            #[trigger] self.components.npc@.contains_key(e) ==> spec_npc_weapon_wf(
                self.components.npc@[e],
            )
        &&& forall|e: Entity|
            #[trigger] self.components.weapon@.contains_key(e) ==> self.components.weapon@[e].wf()
        &&& forall|e: Entity|
            #[trigger] self.components.npc@.contains_key(e) ==> self.components.armour@.contains_key(
                e,
            ) && self.components.hp@.contains_key(e) && self.spatial_table@.contains_key(e)
        &&& forall|e: Entity|
            #[trigger] self.components.character@.contains_key(e)
                ==> self.components.hp@.contains_key(e) || self.components.dead@.contains_key(e)
        &&& forall|e: Entity|
            #[trigger] self.components.player@.contains_key(e)
                ==> self.components.hp@.contains_key(e) || self.components.dead@.contains_key(e)
        &&& forall|e: Entity|
            #[trigger] self.components.player@.contains_key(e) ==> self.player_entity == Some(e)
        &&& forall|e: Entity|
            #[trigger] self.components.on_collision@.contains_key(e) ==> match self.components.on_collision@[e] {
                OnCollision::Explode(s) => s.particle_emitter.wf(),
                _ => true,
            }
        &&& forall|e: Entity|
            #[trigger] self.components.pushed_from@.contains_key(e) ==> 0
                <= self.components.pushed_from@[e].x < crate::spatial::GRID_DIMENSION_LIMIT && 0
                <= self.components.pushed_from@[e].y < crate::spatial::GRID_DIMENSION_LIMIT
        &&& forall|e: Entity|
            self.spatial_table@.contains_key(e) && #[trigger] self.spatial_table@[e].layer == Some(
                Layer::Character,
            ) ==> self.components.player@.contains_key(e) || self.components.npc@.contains_key(e)
        &&& forall|e: Entity|
            #[trigger] self.components.projectile_damage@.contains_key(e) ==> !(
            self.spatial_table@.contains_key(e) && self.spatial_table@[e].layer == Some(
                Layer::Character,
            ))
    }

    /// An empty world over a grid of the given dimensions.
    pub fn new(width: usize, height: usize, seed: u64) -> (w: World)
        requires
            width <= crate::spatial::GRID_DIMENSION_LIMIT,
            height <= crate::spatial::GRID_DIMENSION_LIMIT,
        ensures
            w.wf(),
            w.spatial_table@ == Map::<Entity, crate::spatial::Location>::empty(),
            w.spatial_table.spec_width() == width,
            w.spatial_table.spec_height() == height,
            w.components.player@ == Map::<Entity, Player>::empty(),
            w.components.npc@ == Map::<Entity, Npc>::empty(),
            w.player_entity is None,
            w.external_events@.len() == 0,
            w.message_log@.len() == 0,
    {
        World {
            entity_allocator: EntityAllocator::new(),
            components: Components::new(),
            realtime_components: RealtimeComponents::new(),
            spatial_table: SpatialTable::new(width, height),
            player_entity: None,
            external_events: Vec::new(),
            message_log: Vec::new(),
            rng: Rng::new(seed),
        }
    }

    /// The grid width in cells.
    pub fn size_width(&self) -> (w: usize)
        ensures
            w == self.spatial_table.spec_width(),
    {
        self.spatial_table.width()
    }

    /// The grid height in cells.
    pub fn size_height(&self) -> (h: usize)
        ensures
            h == self.spatial_table.spec_height(),
    {
        self.spatial_table.height()
    }

    /// The coordinate an entity stands at.
    pub fn entity_coord(&self, e: Entity) -> (r: Option<Coord>)
        ensures
            match r {
                Some(c) => self.spatial_table@.contains_key(e) && self.spatial_table@[e].coord
                    == c,
                None => !self.spatial_table@.contains_key(e),
            },
    {
        self.spatial_table.coord_of(e)
    }

    /// Emits an external event.
    pub fn add_event(&mut self, ev: ExternalEvent)
        ensures
            final(self).external_events@ == old(self).external_events@.push(ev),
            unchanged_but_events(*old(self), *final(self)),
    {
        self.external_events.push(ev);
    }

    /// Appends a log entry.
    pub fn append_log(&mut self, m: Message)
        ensures
            final(self).message_log@ == old(self).message_log@.push(m),
            unchanged_but_log(*old(self), *final(self)),
    {
        self.message_log.push(m);
    }

    /// Opens a door: it stops blocking movement and sight.
    pub fn open_door(&mut self, e: Entity)
        requires
            old(self).wf(),
            old(self).components.door_state@.contains_key(e),
        ensures
            final(self).wf(),
            *final(self) == (World { components: final(self).components, ..*old(self) }),
            final(self).components == (Components {
                door_state: final(self).components.door_state,
                tile: final(self).components.tile,
                solid: final(self).components.solid,
                opacity: final(self).components.opacity,
                ..old(self).components
            }),
            final(self).components.door_state@ == old(self).components.door_state@.insert(
                e,
                DoorState::Open,
            ),
            final(self).components.tile@ == old(self).components.tile@.insert(e, Tile::DoorOpen),
            final(self).components.solid@ == old(self).components.solid@.remove(e),
            final(self).components.opacity@ == old(self).components.opacity@.insert(e, 0u8),
    {
        self.components.door_state.insert(e, DoorState::Open);
        self.components.tile.insert(e, Tile::DoorOpen);
        self.components.solid.remove(e);
        self.components.opacity.insert(e, 0);
        proof {
            let a = old(self).entity_allocator;
            lemma_table_insert_view(
                a,
                old(self).components.door_state@,
                self.components.door_state@,
                e,
                DoorState::Open,
            );
            lemma_table_insert_view(
                a,
                old(self).components.tile@,
                self.components.tile@,
                e,
                Tile::DoorOpen,
            );
            lemma_table_insert_view(
                a,
                old(self).components.opacity@,
                self.components.opacity@,
                e,
                0u8,
            );
        }
    }

    /// Closes a door: it blocks movement and sight again.
    pub fn close_door(&mut self, e: Entity)
        requires
            old(self).wf(),
            old(self).components.door_state@.contains_key(e),
        ensures
            final(self).wf(),
            *final(self) == (World { components: final(self).components, ..*old(self) }),
            final(self).components == (Components {
                door_state: final(self).components.door_state,
                tile: final(self).components.tile,
                solid: final(self).components.solid,
                opacity: final(self).components.opacity,
                ..old(self).components
            }),
            final(self).components.door_state@ == old(self).components.door_state@.insert(
                e,
                DoorState::Closed,
            ),
            final(self).components.tile@ == old(self).components.tile@.insert(
                e,
                Tile::DoorClosed,
            ),
            final(self).components.solid@ == old(self).components.solid@.insert(e, ()),
            final(self).components.opacity@ == old(self).components.opacity@.insert(e, 255u8),
    {
        self.components.door_state.insert(e, DoorState::Closed);
        self.components.tile.insert(e, Tile::DoorClosed);
        self.components.solid.insert(e, ());
        self.components.opacity.insert(e, 255);
        proof {
            let a = old(self).entity_allocator;
            lemma_table_insert_view(
                a,
                old(self).components.door_state@,
                self.components.door_state@,
                e,
                DoorState::Closed,
            );
            lemma_table_insert_view(
                a,
                old(self).components.tile@,
                self.components.tile@,
                e,
                Tile::DoorClosed,
            );
            lemma_table_insert_view(a, old(self).components.solid@, self.components.solid@, e, ());
            lemma_table_insert_view(
                a,
                old(self).components.opacity@,
                self.components.opacity@,
                e,
                255u8,
            );
        }
    }

    /// An open door on the feature slot of a cell cardinally adjacent to
    /// `coord`, if there is one.
    pub fn open_door_entity_adjacent_to_coord(&self, coord: Coord) -> (r: Option<Entity>)
        requires
            self.wf(),
            -crate::geom::COORD_LIMIT <= coord.x <= crate::geom::COORD_LIMIT,
            -crate::geom::COORD_LIMIT <= coord.y <= crate::geom::COORD_LIMIT,
        ensures
            match r {
                Some(d) => spec_adjacent_open_door(*self, coord, d),
                None => forall|d: Entity| !spec_adjacent_open_door(*self, coord, d),
            },
    {
        let mut found: Option<Entity> = None;
        let dirs: [crate::geom::CardinalDirection; 4] = [
            crate::geom::CardinalDirection::North,
            crate::geom::CardinalDirection::East,
            crate::geom::CardinalDirection::South,
            crate::geom::CardinalDirection::West,
        ];
        let mut i: usize = 0;
        while i < 4
            invariant
                i <= 4,
                dirs@ =~= seq![
                    crate::geom::CardinalDirection::North,
                    crate::geom::CardinalDirection::East,
                    crate::geom::CardinalDirection::South,
                    crate::geom::CardinalDirection::West,
                ],
                match found {
                    Some(d) => spec_adjacent_open_door(*self, coord, d),
                    None => forall|j: int, d: Entity|
                        #![trigger spec_open_door_through(*self, coord, dirs@[j], d)]
                        0 <= j < i ==> !spec_open_door_through(*self, coord, dirs@[j], d),
                },
                self.wf(),
                -crate::geom::COORD_LIMIT <= coord.x <= crate::geom::COORD_LIMIT,
                -crate::geom::COORD_LIMIT <= coord.y <= crate::geom::COORD_LIMIT,
            decreases 4 - i,
        {
            let direction = dirs[i];
            let neighbour = coord.plus(direction.coord());
            let mut hit = false;
            if let Some(layers) = self.spatial_table.layers_at(neighbour) {
                if let Some(feature) = layers.feature {
                    proof {
                        self.spatial_table.lemma_slot_occupant(
                            neighbour,
                            crate::spatial::Layer::Feature,
                            feature,
                        );
                    }
                    match self.components.door_state.get(feature) {
                        Some(DoorState::Open) => {
                            found = Some(feature);
                            hit = true;
                            proof {
                                assert(spec_open_door_through(*self, coord, direction, feature));
                                assert(spec_adjacent_open_door(*self, coord, feature));
                            }
                        },
                        _ => {},
                    }
                }
            }
            proof {
                if !hit && found is None {
                    assert forall|d: Entity| !spec_open_door_through(
                        *self,
                        coord,
                        direction,
                        d,
                    ) by {}
                }
            }
            i += 1;
        }
        proof {
            if found is None {
                assert forall|d: Entity| !spec_adjacent_open_door(*self, coord, d) by {
                    if spec_adjacent_open_door(*self, coord, d) {
                        let dir = choose|dir: crate::geom::CardinalDirection|
                            spec_open_door_through(*self, coord, dir, d);
                        assert(dirs@.contains(dir)) by {
                            match dir {
                                crate::geom::CardinalDirection::North => {
                                    assert(dirs@[0] == dir);
                                },
                                crate::geom::CardinalDirection::East => {
                                    assert(dirs@[1] == dir);
                                },
                                crate::geom::CardinalDirection::South => {
                                    assert(dirs@[2] == dir);
                                },
                                crate::geom::CardinalDirection::West => {
                                    assert(dirs@[3] == dir);
                                },
                            }
                        }
                        let j = choose|j: int| 0 <= j < 4 && dirs@[j] == dir;
                        assert(!spec_open_door_through(*self, coord, dirs@[j], d));
                    }
                }
            }
        }
        found
    }

    /// Crushes standing grass underfoot: it stays crushed and no longer
    /// obstructs sight.
    pub fn crush_grass(&mut self, e: Entity)
        requires
            old(self).wf(),
            old(self).components.grass_state@.contains_key(e),
        ensures
            final(self).wf(),
            *final(self) == (World { components: final(self).components, ..*old(self) }),
            final(self).components == (Components {
                grass_state: final(self).components.grass_state,
                tile: final(self).components.tile,
                opacity: final(self).components.opacity,
                ..old(self).components
            }),
            final(self).components.grass_state@ == old(self).components.grass_state@.insert(
                e,
                GrassState::Crushed,
            ),
            final(self).components.tile@ == old(self).components.tile@.insert(
                e,
                Tile::GrassCrushed,
            ),
            final(self).components.opacity@ == old(self).components.opacity@.insert(e, 0u8),
    {
        self.components.grass_state.insert(e, GrassState::Crushed);
        self.components.tile.insert(e, Tile::GrassCrushed);
        self.components.opacity.insert(e, 0);
        proof {
            let a = old(self).entity_allocator;
            lemma_table_insert_view(
                a,
                old(self).components.grass_state@,
                self.components.grass_state@,
                e,
                GrassState::Crushed,
            );
            lemma_table_insert_view(
                a,
                old(self).components.tile@,
                self.components.tile@,
                e,
                Tile::GrassCrushed,
            );
            lemma_table_insert_view(
                a,
                old(self).components.opacity@,
                self.components.opacity@,
                e,
                0u8,
            );
        }
    }

    /// Whether a movement-blocking effect (an active knockback, or a stun)
    /// currently prevents the entity from acting on its own.
    pub fn check_movement_blocked(&self, e: Entity) -> (b: bool)
        ensures
            b == (self.realtime_components.movement@.contains_key(e)
                || self.components.stunned@.contains_key(e)),
    {
        self.realtime_components.movement.contains(e) || self.components.stunned.contains(e)
    }

    /// Spends one stun turn: the counter drops by one and the stun lifts
    /// when it reaches zero.  Entities that are not stunned are untouched.
    pub fn reduce_stun(&mut self, e: Entity)
        requires
            old(self).wf(),
        ensures
            final(self).wf(),
            *final(self) == (World { components: final(self).components, ..*old(self) }),
            final(self).components == (Components {
                stunned: final(self).components.stunned,
                ..old(self).components
            }),
            !old(self).components.stunned@.contains_key(e) ==> final(self).components.stunned@
                == old(self).components.stunned@,
            old(self).components.stunned@.contains_key(e) ==> {
                let turns = old(self).components.stunned@[e].turns;
                if turns <= 1 {
                    final(self).components.stunned@ == old(self).components.stunned@.remove(e)
                } else {
                    final(self).components.stunned@ == old(self).components.stunned@.insert(
                        e,
                        Stunned { turns: (turns - 1) as u32 },
                    )
                }
            },
    {
        let turns_opt = match self.components.stunned.get(e) {
            Some(s) => Some(s.turns),
            None => None,
        };
        match turns_opt {
            Some(turns) => {
                if turns <= 1 {
                    self.components.stunned.remove(e);
                } else {
                    self.components.stunned.insert(e, Stunned { turns: turns - 1 });
                    proof {
                        lemma_table_insert_view(
                            old(self).entity_allocator,
                            old(self).components.stunned@,
                            self.components.stunned@,
                            e,
                            Stunned { turns: (old(self).components.stunned@[e].turns - 1) as u32 },
                        );
                    }
                }
            },
            None => {},
        }
    }

    /// Removes every trace of an entity — components, realtime components
    /// and spatial mapping — without releasing its identifier.
    pub fn clear_entity(&mut self, e: Entity)
        requires
            old(self).wf(),
        ensures
            final(self).wf(),
            *final(self) == (World {
                components: final(self).components,
                realtime_components: final(self).realtime_components,
                spatial_table: final(self).spatial_table,
                ..*old(self)
            }),
            final(self).components.spec_absent(e),
            final(self).realtime_components.spec_absent(e),
            !final(self).spatial_table@.contains_key(e),
            final(self).spatial_table@ == old(self).spatial_table@.remove(e),
            spec_components_removed(old(self).components, final(self).components, e),
            final(self).realtime_components.movement@ == old(
                self,
            ).realtime_components.movement@.remove(e),
            final(self).realtime_components.fade@ == old(self).realtime_components.fade@.remove(e),
            final(self).realtime_components.particle_emitter@ == old(
                self,
            ).realtime_components.particle_emitter@.remove(e),
            final(self).realtime_components.light_colour_fade@ == old(
                self,
            ).realtime_components.light_colour_fade@.remove(e),
    {
        self.components.remove_entity(e);
        self.realtime_components.remove_entity(e);
        self.spatial_table.remove(e);
    }

    /// Removes every trace of an entity and releases its identifier for
    /// reuse.  A later allocation can never observe this entity's data: its
    /// components and spatial mapping are gone, and the identifier itself is
    /// retired.
    pub fn destroy_entity(&mut self, e: Entity)
        requires
            old(self).wf(),
            old(self).entity_allocator.spec_exists(e),
        ensures
            final(self).wf(),
            *final(self) == (World {
                entity_allocator: final(self).entity_allocator,
                components: final(self).components,
                realtime_components: final(self).realtime_components,
                spatial_table: final(self).spatial_table,
                ..*old(self)
            }),
            final(self).components.spec_absent(e),
            final(self).realtime_components.spec_absent(e),
            !final(self).spatial_table@.contains_key(e),
            !final(self).entity_allocator.spec_exists(e),
            final(self).spatial_table@ == old(self).spatial_table@.remove(e),
            spec_components_removed(old(self).components, final(self).components, e),
            final(self).realtime_components.movement@ == old(
                self,
            ).realtime_components.movement@.remove(e),
            final(self).realtime_components.fade@ == old(self).realtime_components.fade@.remove(e),
            final(self).realtime_components.particle_emitter@ == old(
                self,
            ).realtime_components.particle_emitter@.remove(e),
            final(self).realtime_components.light_colour_fade@ == old(
                self,
            ).realtime_components.light_colour_fade@.remove(e),
            forall|o: Entity|
                o.index != e.index ==> final(self).entity_allocator.spec_exists(o) == old(
                    self,
                ).entity_allocator.spec_exists(o),
    {
        self.components.remove_entity(e);
        self.realtime_components.remove_entity(e);
        self.spatial_table.remove(e);
        self.entity_allocator.free(e);
        proof {
            assert forall|o: Entity|
                old(self).entity_allocator.spec_exists(o) && o.index == e.index implies o
                == e by {
                old(self).entity_allocator.lemma_live_same_index(o, e);
            }
        }
    }
}

/// Whether stepping from `coord` in `dir` lands on a feature that is an
/// open door `d`.
pub open spec fn spec_open_door_through(
    w: World,
    coord: Coord,
    dir: crate::geom::CardinalDirection,
    d: Entity,
) -> bool {
    let n = Coord {
        x: (coord.x + dir.spec_coord().x) as i32,
        y: (coord.y + dir.spec_coord().y) as i32,
    };
    &&& w.spatial_table.in_bounds(n)
    &&& w.spatial_table.spec_layers_at(n).feature == Some(d)
    &&& w.components.door_state@.contains_key(d)
    &&& w.components.door_state@[d] == DoorState::Open
}

/// Whether some cell cardinally adjacent to `coord` has the open door `d`
/// on its feature slot.
pub open spec fn spec_adjacent_open_door(w: World, coord: Coord, d: Entity) -> bool {
    exists|dir: crate::geom::CardinalDirection| #[trigger] spec_open_door_through(w, coord, dir, d)
}

/// Every component table of `b` is `a`'s with `e` removed.
pub open spec fn spec_components_removed(a: Components, b: Components, e: Entity) -> bool {
    &&& b.tile@ == a.tile@.remove(e)
    &&& b.player@ == a.player@.remove(e)
    &&& b.npc@ == a.npc@.remove(e)
    &&& b.hp@ == a.hp@.remove(e)
    &&& b.armour@ == a.armour@.remove(e)
    &&& b.dead@ == a.dead@.remove(e)
    &&& b.solid@ == a.solid@.remove(e)
    &&& b.character@ == a.character@.remove(e)
    &&& b.door_state@ == a.door_state@.remove(e)
    &&& b.grass_state@ == a.grass_state@.remove(e)
    &&& b.stunned@ == a.stunned@.remove(e)
    &&& b.item@ == a.item@.remove(e)
    &&& b.weapon@ == a.weapon@.remove(e)
    &&& b.projectile_damage@ == a.projectile_damage@.remove(e)
    &&& b.collides_with@ == a.collides_with@.remove(e)
    &&& b.on_collision@ == a.on_collision@.remove(e)
    &&& b.realtime@ == a.realtime@.remove(e)
    &&& b.blocks_gameplay@ == a.blocks_gameplay@.remove(e)
    &&& b.pushed_from@ == a.pushed_from@.remove(e)
    &&& b.upgrade@ == a.upgrade@.remove(e)
    &&& b.opacity@ == a.opacity@.remove(e)
    &&& b.light@ == a.light@.remove(e)
    &&& b.damage@ == a.damage@.remove(e)
}

/// Every part of the world except the event channel is unchanged.
pub open spec fn unchanged_but_events(a: World, b: World) -> bool {
    &&& b.entity_allocator == a.entity_allocator
    &&& b.components == a.components
    &&& b.realtime_components == a.realtime_components
    &&& b.spatial_table == a.spatial_table
    &&& b.player_entity == a.player_entity
    &&& b.message_log == a.message_log
    &&& b.rng == a.rng
}

/// Every part of the world except the message log is unchanged.
pub open spec fn unchanged_but_log(a: World, b: World) -> bool {
    &&& b.entity_allocator == a.entity_allocator
    &&& b.components == a.components
    &&& b.realtime_components == a.realtime_components
    &&& b.spatial_table == a.spatial_table
    &&& b.player_entity == a.player_entity
    &&& b.external_events == a.external_events
    &&& b.rng == a.rng
}

/// The player's stored weapons are internally consistent.
pub open spec fn spec_player_wf(p: Player) -> bool {
    &&& p.melee_weapon.wf()
    &&& match p.ranged_slot_one {
        Some(w) => w.wf(),
        None => true,
    }
    &&& match p.ranged_slot_two {
        Some(w) => w.wf(),
        None => true,
    }
}

/// An NPC's stored weapon, if any, is internally consistent.
pub open spec fn spec_npc_weapon_wf(n: Npc) -> bool {
    match n.weapon {
        Some(w) => w.wf(),
        None => true,
    }
}

} // verus!
