//! Tile kinds and their player-facing descriptions.

use crate::data::NpcType;
use crate::weapon::WeaponType;
use vstd::prelude::*;
use vstd::string::StringExecFns;

verus! {

/// The visual / semantic kind of an entity.
#[derive(Clone, Copy, PartialEq, Eq, Structural, Debug)]
pub enum Tile {
    Player,
    Npc(NpcType),
    Wall,
    CaveWall,
    Floor,
    CaveFloor,
    Water,
    DoorClosed,
    DoorOpen,
    Grass,
    GrassCrushed,
    Weapon(WeaponType),
    Medkit,
    Bullet,
    Laser,
}

/// How a tile's description should be presented.
pub enum TileLabel {
    /// Shown verbatim.
    Literal(String),
    /// Substituted into a sighting sentence.
    Name(String),
}

/// Which tiles have no description at all.
pub open spec fn spec_tile_undescribed(tile: Tile) -> bool {
    match tile {
        Tile::Weapon(WeaponType::BareHands) => true,
        Tile::Medkit => true,
        Tile::Bullet => true,
        Tile::Laser => true,
        _ => false,
    }
}

/// Which described tiles read as names rather than verbatim text.
pub open spec fn spec_tile_is_named(tile: Tile) -> bool {
    match tile {
        Tile::Player | Tile::Npc(_) | Tile::DoorClosed | Tile::DoorOpen | Tile::Floor
            | Tile::CaveFloor | Tile::Wall | Tile::CaveWall | Tile::Grass | Tile::GrassCrushed
            | Tile::Water => true,
        _ => false,
    }
}

/// The description text of each tile kind; meaningful only for described
/// tiles.
pub open spec fn spec_tile_text(tile: Tile) -> Seq<char> {
    match tile {
        Tile::Player => "yourself"@,
        Tile::Floor | Tile::CaveFloor => "the floor"@,
        Tile::DoorClosed | Tile::DoorOpen => "a door"@,
        Tile::Wall | Tile::CaveWall => "a wall"@,
        Tile::Grass => "dense patch of grass"@,
        Tile::GrassCrushed => "crushed grass"@,
        Tile::Water => "some lovely cave water"@,
        Tile::Weapon(wpn) => match wpn {
            WeaponType::BareHands => ""@,
            WeaponType::CattleProd => "A cattle prod - can stun low-level enemies"@,
            WeaponType::Chainsaw => "A chainsaw - melee weapon with high DMG and limited uses."@,
            WeaponType::Pistol => "A pistol - a dependable sidearm"@,
            WeaponType::Rifle => "A rifle - steady ranged damage"@,
            WeaponType::Railgun => "A railgun - it can shoot through almost anything!"@,
            WeaponType::LifeStealer => "A life stealer - converts the recently deceased into health like some kind of creepy vampire. And you thought the zombies were gross!"@,
            WeaponType::FiftyCal => "A 50 Cal Sniper - 1 shot is all you need"@,
        },
        Tile::Npc(npc_type) => match npc_type {
            NpcType::MiniBot => "a mini-bot"@,
            NpcType::SecBot => "a sec-bot. an upgraded bot from mini-bot."@,
            NpcType::RoboCop => "a robo-cop. a security bot for the <blank>"@,
            NpcType::DoomBot => "a doom-bot. its only purpose is to kill"@,
        },
        Tile::Medkit => ""@,
        Tile::Laser | Tile::Bullet => ""@,
    }
}

/// The fixed description of each tile kind; `None` for tiles that are never
/// described to the player.
pub fn default_tile_str(tile: Tile) -> (r: Option<&'static str>)
    ensures
        match r {
            Some(s) => !spec_tile_undescribed(tile) && s@ == spec_tile_text(tile),
            None => spec_tile_undescribed(tile),
        },
{
    match tile {
        Tile::Player => Some("yourself"),
        Tile::Floor | Tile::CaveFloor => Some("the floor"),
        Tile::DoorClosed | Tile::DoorOpen => Some("a door"),
        Tile::Wall | Tile::CaveWall => Some("a wall"),
        Tile::Grass => Some("dense patch of grass"),
        Tile::GrassCrushed => Some("crushed grass"),
        Tile::Water => Some("some lovely cave water"),
        Tile::Weapon(wpn) => match wpn {
            WeaponType::BareHands => None,
            WeaponType::CattleProd => Some("A cattle prod - can stun low-level enemies"),
            WeaponType::Chainsaw => Some(
                "A chainsaw - melee weapon with high DMG and limited uses.",
            ),
            WeaponType::Pistol => Some("A pistol - a dependable sidearm"),
            WeaponType::Rifle => Some("A rifle - steady ranged damage"),
            WeaponType::Railgun => Some("A railgun - it can shoot through almost anything!"),
            WeaponType::LifeStealer => Some(
                "A life stealer - converts the recently deceased into health like some kind of creepy vampire. And you thought the zombies were gross!",
            ),
            WeaponType::FiftyCal => Some("A 50 Cal Sniper - 1 shot is all you need"),
        },
        Tile::Npc(npc_type) => match npc_type {
            NpcType::MiniBot => Some("a mini-bot"),
            NpcType::SecBot => Some("a sec-bot. an upgraded bot from mini-bot."),
            NpcType::RoboCop => Some("a robo-cop. a security bot for the <blank>"),
            NpcType::DoomBot => Some("a doom-bot. its only purpose is to kill"),
        },
        Tile::Medkit => None,
        Tile::Laser | Tile::Bullet => None,
    }
}

/// The label the examine view shows for a tile: a name for people, terrain
/// and doors, verbatim text for weapons, nothing for effects.
pub fn tile_str(tile: Tile) -> (r: Option<TileLabel>)
    ensures
        match r {
            Some(TileLabel::Name(s)) => spec_tile_is_named(tile) && s@ == spec_tile_text(tile),
            Some(TileLabel::Literal(s)) => !spec_tile_is_named(tile) && !spec_tile_undescribed(
                tile,
            ) && s@ == spec_tile_text(tile),
            None => !spec_tile_is_named(tile) && spec_tile_undescribed(tile),
        },
{
    let desc: String = match default_tile_str(tile) {
        Some(s) => String::from_str(s),
        None => String::from_str(""),
    };
    match tile {
        Tile::Player | Tile::Npc(_) | Tile::DoorClosed | Tile::DoorOpen | Tile::Floor
            | Tile::CaveFloor | Tile::Wall | Tile::CaveWall | Tile::Grass | Tile::GrassCrushed
            | Tile::Water => Some(TileLabel::Name(desc)),
        Tile::Weapon(WeaponType::BareHands) => None,
        Tile::Weapon(_) => Some(TileLabel::Literal(desc)),
        _ => None,
    }
}

} // verus!
