//! The recipe type: a named combination of consumable requirements and a cost.

use vstd::prelude::*;

verus! {

/// One purchasable drink: how much of each consumable it needs and what it
/// credits to the money drawer when bought.
#[derive(Debug)]
pub struct Coffee {
    pub name: String,
    pub water: usize,
    pub milk: usize,
    pub beans: usize,
    pub cups: usize,
    pub cost: usize,
}

impl Coffee {
    /// Builds a recipe from its parts.
    pub fn new(name: String, water: usize, milk: usize, beans: usize, cups: usize, cost: usize) -> (c: Coffee)
        ensures
            c.name == name,
            c.water == water,
            c.milk == milk,
            c.beans == beans,
            c.cups == cups,
            c.cost == cost,
    {
        Coffee { name, water, milk, beans, cups, cost }
    }
}

} // verus!
