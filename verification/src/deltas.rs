//! The three delta bundles every effect in the game is made of.

use vstd::prelude::*;

verus! {

/// A change to the five stored resources.
#[derive(Clone, Copy, Debug, PartialEq, Eq)]
pub struct ResourceDelta {
    pub credits: i64,
    pub energy: i64,
    pub minerals: i64,
    pub food: i64,
    pub influence: i64,
}

/// A change to the ship's condition: fractions in millionths, parts as a count.
#[derive(Clone, Copy, Debug, PartialEq, Eq)]
pub struct ShipDelta {
    pub hull_integrity: i64,
    pub life_support: i64,
    pub fuel: i64,
    pub spare_parts: i32,
}

/// A change to the population: a head count and six 0-1 fractions in millionths.
#[derive(Clone, Copy, Debug, PartialEq, Eq)]
pub struct PopulationDelta {
    pub count: i32,
    pub morale: i64,
    pub unity: i64,
    pub stability: i64,
    pub legacy_loyalty: i64,
    pub adaptation: i64,
    pub cultural_drift: i64,
}

impl ResourceDelta {
    /// The delta that changes nothing.
    pub fn zero() -> (d: ResourceDelta)
        ensures
            d == (ResourceDelta { credits: 0, energy: 0, minerals: 0, food: 0, influence: 0 }),
    {
        ResourceDelta { credits: 0, energy: 0, minerals: 0, food: 0, influence: 0 }
    }
}

impl ShipDelta {
    /// The delta that changes nothing.
    pub fn zero() -> (d: ShipDelta)
        ensures
            d == (ShipDelta { hull_integrity: 0, life_support: 0, fuel: 0, spare_parts: 0 }),
    {
        ShipDelta { hull_integrity: 0, life_support: 0, fuel: 0, spare_parts: 0 }
    }
}

impl PopulationDelta {
    /// The delta that changes nothing.
    pub fn zero() -> (d: PopulationDelta)
        ensures
            d == (PopulationDelta {
                count: 0,
                morale: 0,
                unity: 0,
                stability: 0,
                legacy_loyalty: 0,
                adaptation: 0,
                cultural_drift: 0,
            }),
    {
        PopulationDelta {
            count: 0,
            morale: 0,
            unity: 0,
            stability: 0,
            legacy_loyalty: 0,
            adaptation: 0,
            cultural_drift: 0,
        }
    }
}

} // verus!
