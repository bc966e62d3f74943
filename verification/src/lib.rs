//! Map generation and game-rule logic of a tile-based roguelike, with its
//! behaviour stated as Verus contracts.
pub mod tile;
pub mod components;
pub mod rect;
pub mod map;
pub mod rng;
pub mod map_builders;
pub mod raws;
pub mod ai;
pub mod damage;
pub mod inventory;
pub mod visibility;
pub mod state;
pub mod player;
pub mod laws;
pub mod level_laws;
