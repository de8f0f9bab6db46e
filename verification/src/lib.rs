use vstd::prelude::*;

pub mod components;
pub mod damage_system;
pub mod fov;
pub mod gamelog;
pub mod gui;
pub mod inventory_system;
pub mod laws;
pub mod map;
pub mod map_indexing;
pub mod melee_combat_system;
pub mod monster_ai_system;
pub mod player;
pub mod potion_system;
pub mod rng;
pub mod spawn_table;
pub mod spawner;
pub mod state;
pub mod text;
pub mod world;

pub use components::Entity;
pub use components::Position;

verus! {

} // verus!
