//! Integer-valued player progression data.  Combat statistics that live in
//! floating point (life, damage, resistances) stay with the host; the
//! attribute and experience bookkeeping here is plain integer state.
use vstd::prelude::*;

verus! {

/// Core attributes of a player character.
#[derive(Clone, Copy, Debug, PartialEq, Eq, Structural, Hash)]
pub struct Attributes {
    pub strength: i32,
    pub vitality: i32,
    pub energy: i32,
}

impl Default for Attributes {
    /// The starting attribute spread of a fresh character.
    fn default() -> (r: Self)
        ensures
            r.strength == 10,
            r.vitality == 10,
            r.energy == 15,
    {
        Attributes { strength: 10, vitality: 10, energy: 15 }
    }
}

/// Experience progress of a player character.
#[derive(Clone, Copy, Debug, PartialEq, Eq, Structural, Hash)]
pub struct Experience {
    /// Points gathered within the current level.
    pub current: u32,
    /// Points still missing for the next level.
    pub remaining: u32,
    /// Current level, starting at one.
    pub level: u16,
}

impl Default for Experience {
    /// A fresh character: level one, nothing gathered, the base amount to
    /// go.
    fn default() -> (r: Self)
        ensures
            r.current == 0,
            r.remaining == 100,
            r.level == 1,
    {
        Experience { current: 0, remaining: 100, level: 1 }
    }
}

/// Which resource a skill draws on when cast.
#[derive(Clone, Copy, Debug, PartialEq, Eq, Structural, Hash)]
pub enum CostType {
    Free,
    Life,
    Mana,
    Stamina,
}

impl Default for CostType {
    /// Skills cost nothing unless they say otherwise.
    fn default() -> (r: Self)
        ensures
            r == CostType::Free,
    {
        CostType::Free
    }
}

} // verus!
