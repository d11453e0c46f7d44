//! The side channels the simulation feeds its collaborators: sound-effect
//! events, the structured message log, control-flow signals, and the closed
//! set of expected action failures.

use crate::data::NpcType;
use crate::weapon::WeaponType;
use vstd::prelude::*;

verus! {

/// Sound effects the host may play; consumption is fire-and-forget.
#[derive(Clone, Copy, PartialEq, Eq, Structural, Debug)]
pub enum SoundEffect {
    DoorOpen,
    DoorClose,
    Punch,
    Pistol,
    Rifle,
    Railgun,
    FiftyCal,
    LifeStealer,
}

/// An out-of-band event emitted by the simulation.
#[derive(Clone, Copy, PartialEq, Eq, Structural, Debug)]
pub enum ExternalEvent {
    SoundEffect(SoundEffect),
}

/// One entry of the combat / event log.
#[derive(Clone, Copy, PartialEq, Eq, Structural, Debug)]
pub enum Message {
    Intro,
    EnemyHitPlayer(NpcType),
    EnemyDies(NpcType),
    EnemyStunned(NpcType),
    EnemySlammedIntoWall(NpcType),
    DoomBotExplodes,
    AlertedNearbyEntities,
    PlayerHitEnemy { enemy: NpcType, weapon: WeaponType },
    PlayerDies,
    PlayerStunned,
    EquipWeapon(WeaponType),
    Heal,
    Descend,
    TakeCredit(u32),
}

/// A signal telling the turn pipeline to suspend into a side state.
#[derive(Clone, Copy, PartialEq, Eq, Structural, Debug)]
pub enum ControlFlow {
    Upgrade,
}

/// The closed set of expected action failures.  Anything outside this set is
/// an invariant violation and is excluded by the functions' preconditions.
#[derive(Clone, Copy, PartialEq, Eq, Structural, Debug)]
pub enum ActionError {
    CannotWalkThere,
}

impl ActionError {
    /// The conventional failure result of a blocked walk.
    pub fn err_cant_walk_there() -> (r: Result<Option<ControlFlow>, ActionError>)
        ensures
            r == Result::<Option<ControlFlow>, ActionError>::Err(ActionError::CannotWalkThere),
    {
        Err(ActionError::CannotWalkThere)
    }
}

} // verus!
