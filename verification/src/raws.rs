//! Plain data read from the game's raw files.
use std::collections::HashMap;
use vstd::prelude::*;

verus! {

/// How a thing is drawn: its glyph, colours and draw order.
pub struct Renderable {
    pub glyph: String,
    pub fg: String,
    pub bg: String,
    pub order: i32,
}

/// What consuming an item does, effect name to parameter.
pub struct Consumable {
    pub effects: HashMap<String, String>,
}

/// A weapon's range, governing attribute, damage dice and bonus to hit.
pub struct Weapon {
    pub range: String,
    pub attribute: String,
    pub base_damage: String,
    pub hit_bonus: i32,
}

/// A shield's bonus to defense.
pub struct Shield {
    pub defense_bonus: i32,
}

/// How one faction responds to meeting another.
#[derive(PartialEq, Eq, Structural, Copy, Clone, Debug)]
pub enum Reaction {
    Ignore,
    Attack,
    Flee,
}

} // verus!
