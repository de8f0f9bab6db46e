use vstd::prelude::*;

verus! {

/// Every stat, damage amount and heal amount in the game stays within this
/// bound; it keeps all combat arithmetic far away from `i32` overflow.
pub const MAX_STAT: i32 = 1_000_000;

/// An opaque game-object identifier. The generation lets a holder detect a
/// stale reference: a destroyed entity's slot keeps its id but its generation
/// moves on, so the old handle never matches again.
#[derive(Clone, Copy, PartialEq, Eq, Structural, Debug, Hash)]
pub struct Entity {
    pub id: usize,
    pub gen: u64,
}

/// Integer grid coordinates of an entity that is somewhere on the map.
#[derive(Clone, Copy, PartialEq, Eq, Structural, Debug)]
pub struct Position {
    pub x: i32,
    pub y: i32,
}

/// The palette the spawner draws from; display work happens outside the
/// simulation core, which only carries these tags around.
#[derive(Clone, Copy, PartialEq, Eq, Structural, Debug)]
pub enum Color {
    Yellow,
    Red,
    Magenta,
    White,
    Green,
    Black,
}

/// How an entity is drawn. Lower `render_order` is drawn last, so it ends up
/// in the foreground when several renderables share a tile.
#[derive(Clone, Copy, PartialEq, Eq, Structural, Debug)]
pub struct Renderable {
    pub glyph: u16,
    pub fg: Color,
    pub bg: Color,
    pub render_order: i32,
}

/// A sighted entity's field of view: the tiles it currently sees, its sight
/// radius, and a flag that forces recomputation on the next visibility pass.
#[derive(Clone, Debug)]
pub struct Fov {
    pub visible_tiles: Vec<Position>,
    pub range: i32,
    pub dirty: bool,
}

/// Fighting statistics. Valid stats keep `hp <= max_hp`; `hp` may go negative
/// between damage application and corpse removal.
#[derive(Clone, Copy, PartialEq, Eq, Structural, Debug)]
pub struct CombatStats {
    pub max_hp: i32,
    pub hp: i32,
    pub defense: i32,
    pub power: i32,
}

impl CombatStats {
    /// Field bounds assumed of every stats block in the world; they make all
    /// damage and healing arithmetic overflow-free.
    pub open spec fn valid(self) -> bool {
        &&& -MAX_STAT <= self.hp <= self.max_hp <= MAX_STAT
        &&& 0 <= self.defense <= MAX_STAT
        &&& 0 <= self.power <= MAX_STAT
        &&& 0 <= self.max_hp
    }
}

/// Display name, required for any entity mentioned in log messages.
#[derive(Clone, Debug)]
pub struct Name {
    pub name: String,
}

/// A drinkable item's healing strength.
#[derive(Clone, Copy, PartialEq, Eq, Structural, Debug)]
pub struct Potion {
    pub heal_amount: i32,
}

/// Where a piece of equipment is worn.
#[derive(Clone, Copy, PartialEq, Eq, Structural, Debug)]
pub enum EquipmentSlot {
    Weapon,
    OffHand,
}

/// An item that can be worn, and the slot it goes into.
#[derive(Clone, Copy, PartialEq, Eq, Structural, Debug)]
pub struct Equippable {
    pub slot: EquipmentSlot,
}

/// An item currently worn by `owner` in `slot`.
#[derive(Clone, Copy, PartialEq, Eq, Structural, Debug)]
pub struct Equipped {
    pub owner: Entity,
    pub slot: EquipmentSlot,
}

/// An item currently carried in `owner`'s backpack.
#[derive(Clone, Copy, PartialEq, Eq, Structural, Debug)]
pub struct InBackpack {
    pub owner: Entity,
}

/// One-turn intent: this entity wants to attack `target` in melee.
#[derive(Clone, Copy, PartialEq, Eq, Structural, Debug)]
pub struct AttackIntent {
    pub target: Entity,
}

/// One-turn intent: `collected_by` wants to pick `item` up off the ground.
#[derive(Clone, Copy, PartialEq, Eq, Structural, Debug)]
pub struct WantsToPickupItem {
    pub collected_by: Entity,
    pub item: Entity,
}

/// One-turn intent: this entity wants to drink (or equip) `potion`.
#[derive(Clone, Copy, PartialEq, Eq, Structural, Debug)]
pub struct WantsToDrinkPotion {
    pub potion: Entity,
}

/// One-turn intent: this entity wants to drop `item` at its own feet.
#[derive(Clone, Copy, PartialEq, Eq, Structural, Debug)]
pub struct WantsToDropItem {
    pub item: Entity,
}

/// Damage amounts queued against an entity this turn, not yet applied to its
/// stats. Several attackers may each append an entry before they are summed.
#[derive(Clone, Debug)]
pub struct SufferDamage {
    pub amounts: Vec<i32>,
}

} // verus!
