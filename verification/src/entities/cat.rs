use vstd::prelude::*;

verus! {

/// A cat of the game with the levels it can reach, lowest level first.
#[derive(Debug)]
pub struct Cat {
    pub id: i32,
    pub name: String,
    pub description: String,
    pub sprite_idle: String,
    pub sprite_mining: String,
    pub is_starter: bool,
    pub created_at: i64,
    pub levels: Vec<CatLevel>,
}

/// One level of a cat. Amounts are in hundredths.
#[derive(Debug, Clone, Copy, PartialEq, Eq, Structural)]
pub struct CatLevel {
    pub level: i32,
    pub damage: i64,
    pub critical_chance: i64,
    pub critical_multiplier: i64,
    pub cost: i64,
}

} // verus!
