//! The top-level game states and the pickup side states.
//!
//! The side states suspend normal turn progression until resolved by an
//! explicit commit or cancel; a commit hands the turn to the enemies.

use crate::data::RangedWeaponSlot;
use crate::entity::Entity;
use crate::world::World;
use vstd::prelude::*;

verus! {

/// Whose turn the simulation is resolving.
#[derive(Clone, Copy, PartialEq, Eq, Structural, Debug)]
pub enum TurnState {
    PlayerTurn,
    EnemyTurn,
}

/// A token restricting construction of the running states to this crate
/// and the functions it exposes.
pub struct Private {
    pub(crate) token: (),
}

/// The world together with the player's identity and the turn phase.
pub struct StateScope {
    pub world: World,
    pub player_entity: Entity,
    pub turn_state: TurnState,
}

/// The ordinary running state.
pub struct Running(pub(crate) Private);

/// The top-level game state.
pub enum GameState {
    Running(Running),
    GetRangedWeapon(GetRangedWeapon),
    GetMeleeWeapon(GetMeleeWeapon),
    Won,
    Lost,
}

impl GameState {
    /// The ordinary running state.
    pub fn running() -> (s: GameState)
        ensures
            s is Running,
    {
        GameState::Running(Running(Private { token: () }))
    }

    /// Suspends into the ranged-weapon pickup choice.
    pub fn get_ranged_weapon() -> (s: GameState)
        ensures
            s is GetRangedWeapon,
    {
        GameState::GetRangedWeapon(GetRangedWeapon(Private { token: () }))
    }

    /// Suspends into the melee-weapon pickup choice.
    pub fn get_melee_weapon() -> (s: GameState)
        ensures
            s is GetMeleeWeapon,
    {
        GameState::GetMeleeWeapon(GetMeleeWeapon(Private { token: () }))
    }
}

/// The suspended state offering a ranged weapon on the ground.
pub struct GetRangedWeapon(pub(crate) Private);

impl GetRangedWeapon {
    /// Takes the ground weapon into the chosen slot — destroying the item
    /// entity — and hands the turn to the enemies.
    pub fn commit(self, scope: &mut StateScope, slot: RangedWeaponSlot) -> (s: GameState)
        requires
            old(scope).world.wf(),
            old(scope).world.spatial_table@.contains_key(old(scope).player_entity),
        ensures
            final(scope).world.wf(),
            final(scope).turn_state == TurnState::EnemyTurn,
            final(scope).player_entity == old(scope).player_entity,
            spec_equip_ranged_rel(
                old(scope).world,
                final(scope).world,
                old(scope).player_entity,
                slot,
            ),
            s is Running,
    {
        scope.world.equip_ranged_weapon_from_ground(scope.player_entity, slot);
        scope.turn_state = TurnState::EnemyTurn;
        GameState::Running(Running(self.0))
    }

    /// Declines the weapon; nothing changes.
    pub fn cancel(self) -> (s: GameState)
        ensures
            s is Running,
    {
        GameState::Running(Running(self.0))
    }
}

/// The suspended state offering a melee weapon on the ground.
pub struct GetMeleeWeapon(pub(crate) Private);

impl GetMeleeWeapon {
    /// Takes the ground weapon as the melee weapon — destroying the item
    /// entity — and hands the turn to the enemies.
    pub fn commit(self, scope: &mut StateScope) -> (s: GameState)
        requires
            old(scope).world.wf(),
            old(scope).world.spatial_table@.contains_key(old(scope).player_entity),
        ensures
            final(scope).world.wf(),
            final(scope).turn_state == TurnState::EnemyTurn,
            final(scope).player_entity == old(scope).player_entity,
            spec_equip_melee_rel(old(scope).world, final(scope).world, old(scope).player_entity),
            s is Running,
    {
        scope.world.equip_melee_weapon_from_ground(scope.player_entity);
        scope.turn_state = TurnState::EnemyTurn;
        GameState::Running(Running(self.0))
    }

    /// Declines the weapon; nothing changes.
    pub fn cancel(self) -> (s: GameState)
        ensures
            s is Running,
    {
        GameState::Running(Running(self.0))
    }
}

/// Whether `e` is a ground weapon item at `coord` whose kind matches the
/// wanted class (melee or ranged).
pub open spec fn spec_ground_weapon_at(w: World, coord: crate::geom::Coord, melee: bool, e: Entity) -> bool {
    &&& w.components.item@.contains_key(e)
    &&& w.components.weapon@.contains_key(e)
    &&& w.spatial_table@.contains_key(e)
    &&& w.spatial_table@[e].coord == coord
    &&& w.components.weapon@[e].name.spec_is_melee() == melee
}

/// How a completed pickup rewrites the world: the player record becomes
/// `updated`, the ground item entity loses every component, realtime
/// component and its spatial mapping, its identifier is released, and the
/// pickup is logged.
pub open spec fn spec_picked_up(
    pre: World,
    post: World,
    player: Entity,
    item: Entity,
    updated: crate::data::Player,
) -> bool {
    &&& post == (World {
        entity_allocator: post.entity_allocator,
        components: post.components,
        realtime_components: post.realtime_components,
        spatial_table: post.spatial_table,
        message_log: post.message_log,
        ..pre
    })
    &&& post.components.player@ == pre.components.player@.insert(player, updated).remove(item)
    &&& post.components.tile@ == pre.components.tile@.remove(item)
    &&& post.components.npc@ == pre.components.npc@.remove(item)
    &&& post.components.hp@ == pre.components.hp@.remove(item)
    &&& post.components.armour@ == pre.components.armour@.remove(item)
    &&& post.components.dead@ == pre.components.dead@.remove(item)
    &&& post.components.solid@ == pre.components.solid@.remove(item)
    &&& post.components.character@ == pre.components.character@.remove(item)
    &&& post.components.door_state@ == pre.components.door_state@.remove(item)
    &&& post.components.grass_state@ == pre.components.grass_state@.remove(item)
    &&& post.components.stunned@ == pre.components.stunned@.remove(item)
    &&& post.components.item@ == pre.components.item@.remove(item)
    &&& post.components.weapon@ == pre.components.weapon@.remove(item)
    &&& post.components.projectile_damage@ == pre.components.projectile_damage@.remove(item)
    &&& post.components.collides_with@ == pre.components.collides_with@.remove(item)
    &&& post.components.on_collision@ == pre.components.on_collision@.remove(item)
    &&& post.components.realtime@ == pre.components.realtime@.remove(item)
    &&& post.components.blocks_gameplay@ == pre.components.blocks_gameplay@.remove(item)
    &&& post.components.pushed_from@ == pre.components.pushed_from@.remove(item)
    &&& post.components.upgrade@ == pre.components.upgrade@.remove(item)
    &&& post.components.opacity@ == pre.components.opacity@.remove(item)
    &&& post.components.light@ == pre.components.light@.remove(item)
    &&& post.components.damage@ == pre.components.damage@.remove(item)
    &&& post.realtime_components.movement@ == pre.realtime_components.movement@.remove(item)
    &&& post.realtime_components.fade@ == pre.realtime_components.fade@.remove(item)
    &&& post.realtime_components.particle_emitter@
        == pre.realtime_components.particle_emitter@.remove(item)
    &&& post.realtime_components.light_colour_fade@
        == pre.realtime_components.light_colour_fade@.remove(item)
    &&& post.spatial_table@ == pre.spatial_table@.remove(item)
    &&& !post.entity_allocator.spec_exists(item)
    &&& forall|o: Entity|
        o.index != item.index ==> post.entity_allocator.spec_exists(o)
            == pre.entity_allocator.spec_exists(o)
    &&& post.message_log@ == pre.message_log@.push(
        crate::event::Message::EquipWeapon(pre.components.weapon@[item].name),
    )
}

/// How taking a ranged weapon from the ground resolves: when the player is
/// a player and some ground weapon of the ranged class other than the
/// player itself lies at the player's coordinate, one such item is taken
/// into the chosen slot and destroyed; otherwise nothing changes.
pub open spec fn spec_equip_ranged_rel(
    pre: World,
    post: World,
    player: Entity,
    slot: RangedWeaponSlot,
) -> bool {
    let coord = pre.spatial_table@[player].coord;
    if pre.components.player@.contains_key(player) && (exists|e: Entity|
        #[trigger] spec_ground_weapon_at(pre, coord, false, e) && e != player) {
        exists|item: Entity|
            {
                &&& #[trigger] spec_ground_weapon_at(pre, coord, false, item)
                &&& item != player
                &&& spec_picked_up(
                    pre,
                    post,
                    player,
                    item,
                    pre.components.player@[player].spec_with_ranged_weapon(
                        slot,
                        Some(pre.components.weapon@[item]),
                    ),
                )
            }
    } else {
        post == pre
    }
}

/// How taking a melee weapon from the ground resolves: as the ranged
/// pickup, but the item becomes the equipped melee weapon.
pub open spec fn spec_equip_melee_rel(pre: World, post: World, player: Entity) -> bool {
    let coord = pre.spatial_table@[player].coord;
    if pre.components.player@.contains_key(player) && (exists|e: Entity|
        #[trigger] spec_ground_weapon_at(pre, coord, true, e) && e != player) {
        exists|item: Entity|
            {
                &&& #[trigger] spec_ground_weapon_at(pre, coord, true, item)
                &&& item != player
                &&& spec_picked_up(
                    pre,
                    post,
                    player,
                    item,
                    crate::data::Player {
                        melee_weapon: pre.components.weapon@[item],
                        ..pre.components.player@[player]
                    },
                )
            }
    } else {
        post == pre
    }
}

impl World {
    /// The first ground weapon of the wanted class at a coordinate other
    /// than the excluded entity, in stable table order.
    fn ground_weapon_at(&self, coord: crate::geom::Coord, melee: bool, exclude: Entity) -> (r:
        Option<Entity>)
        requires
            self.wf(),
        ensures
            match r {
                Some(e) => spec_ground_weapon_at(*self, coord, melee, e) && e != exclude,
                None => forall|e: Entity|
                    e != exclude ==> !spec_ground_weapon_at(*self, coord, melee, e),
            },
    {
        let items = self.components.item.keys();
        let mut i: usize = 0;
        while i < items.len()
            invariant
                self.wf(),
                i <= items@.len(),
                forall|k: int|
                    0 <= k < items@.len() ==> self.components.item@.contains_key(
                        #[trigger] items@[k],
                    ),
                forall|e: Entity|
                    self.components.item@.contains_key(e) ==> items@.contains(e),
                forall|a: int, b: int|
                    0 <= a < b < items@.len() ==> items@[a].index < items@[b].index,
                forall|k: int|
                    0 <= k < i ==> items@[k] == exclude || !spec_ground_weapon_at(
                        *self,
                        coord,
                        melee,
                        #[trigger] items@[k],
                    ),
            decreases items@.len() - i,
        {
            let e = items[i];
            let has_weapon = e != exclude && match self.components.weapon.get(e) {
                Some(w) => w.name.is_melee() == melee,
                None => false,
            };
            if has_weapon {
                if let Some(c) = self.spatial_table.coord_of(e) {
                    if c.x == coord.x && c.y == coord.y {
                        return Some(e);
                    }
                }
            }
            i += 1;
        }
        proof {
            assert forall|e: Entity|
                e != exclude implies !spec_ground_weapon_at(*self, coord, melee, e) by {
                if spec_ground_weapon_at(*self, coord, melee, e) {
                    assert(items@.contains(e));
                    let k = choose|k: int| 0 <= k < items@.len() && items@[k] == e;
                    assert(items@[k] == exclude || !spec_ground_weapon_at(
                        *self,
                        coord,
                        melee,
                        items@[k],
                    ));
                }
            }
        }
        None
    }

    /// Takes a ranged weapon lying at the player's feet into the given
    /// slot, logs the pickup, and destroys the ground item.  Without a
    /// matching ground weapon nothing changes.
    pub fn equip_ranged_weapon_from_ground(&mut self, player: Entity, slot: RangedWeaponSlot)
        requires
            old(self).wf(),
            old(self).spatial_table@.contains_key(player),
        ensures
            final(self).wf(),
            final(self).player_entity == old(self).player_entity,
            spec_equip_ranged_rel(*old(self), *final(self), player, slot),
    {
        let coord = self.spatial_table.coord_of(player).unwrap();
        if !self.components.player.contains(player) {
            return ;
        }
        if let Some(item_entity) = self.ground_weapon_at(coord, false, player) {
            let weapon = *self.components.weapon.get(item_entity).unwrap();
            let p = *self.components.player.get(player).unwrap();
            let updated = p.with_ranged_weapon(slot, Some(weapon));
            self.components.player.insert(player, updated);
            proof {
                crate::world::lemma_table_insert_view(
                    old(self).entity_allocator,
                    old(self).components.player@,
                    self.components.player@,
                    player,
                    old(self).components.player@[player].spec_with_ranged_weapon(
                        slot,
                        Some(old(self).components.weapon@[item_entity]),
                    ),
                );
            }
            self.append_log(crate::event::Message::EquipWeapon(weapon.name));
            self.destroy_entity(item_entity);
            proof {
                assert(spec_picked_up(
                    *old(self),
                    *self,
                    player,
                    item_entity,
                    old(self).components.player@[player].spec_with_ranged_weapon(
                        slot,
                        Some(old(self).components.weapon@[item_entity]),
                    ),
                ));
            }
        }
    }

    /// Takes a melee weapon lying at the player's feet as the equipped
    /// melee weapon, logs the pickup, and destroys the ground item.
    /// Without a matching ground weapon nothing changes.
    pub fn equip_melee_weapon_from_ground(&mut self, player: Entity)
        requires
            old(self).wf(),
            old(self).spatial_table@.contains_key(player),
        ensures
            final(self).wf(),
            final(self).player_entity == old(self).player_entity,
            spec_equip_melee_rel(*old(self), *final(self), player),
    {
        let coord = self.spatial_table.coord_of(player).unwrap();
        if !self.components.player.contains(player) {
            return ;
        }
        if let Some(item_entity) = self.ground_weapon_at(coord, true, player) {
            let weapon = *self.components.weapon.get(item_entity).unwrap();
            let p = *self.components.player.get(player).unwrap();
            let updated = crate::data::Player { melee_weapon: weapon, ..p };
            self.components.player.insert(player, updated);
            proof {
                crate::world::lemma_table_insert_view(
                    old(self).entity_allocator,
                    old(self).components.player@,
                    self.components.player@,
                    player,
                    crate::data::Player {
                        melee_weapon: old(self).components.weapon@[item_entity],
                        ..old(self).components.player@[player]
                    },
                );
            }
            self.append_log(crate::event::Message::EquipWeapon(weapon.name));
            self.destroy_entity(item_entity);
            proof {
                assert(spec_picked_up(
                    *old(self),
                    *self,
                    player,
                    item_entity,
                    crate::data::Player {
                        melee_weapon: old(self).components.weapon@[item_entity],
                        ..old(self).components.player@[player]
                    },
                ));
            }
        }
    }
}

} // verus!
