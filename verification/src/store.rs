//! The transactional inventory store: four capped consumables plus the money
//! drawer, with fill and purchase operations that are atomic — an operation
//! either applies completely or leaves the store unchanged.

use vstd::prelude::*;

use crate::coffee::Coffee;

verus! {

/// One of the finite resources the machine tracks: the four capped
/// consumables, plus the money drawer.
#[derive(Clone, Copy, Debug, PartialEq, Eq, Structural)]
pub enum Ingredient {
    Water,
    Milk,
    Beans,
    Cups,
    Money,
}

/// Why a store operation was refused.
#[derive(Debug, PartialEq)]
pub enum StoreError {
    /// The purchase needs more of the listed consumables than the store
    /// holds, in the fixed order water, milk, beans, cups.
    NotEnoughIngredient(Vec<Ingredient>),
    /// The fill would push the consumable above its maximum.
    IncorrectFill(Ingredient),
}

pub const MAX_WATER: usize = 10000;
pub const MAX_MILK: usize = 10000;
pub const MAX_BEANS: usize = 1000;
pub const MAX_CUPS: usize = 100;

/// The inventory: consumable quantities, each bounded by its maximum, plus
/// the unbounded money drawer.
#[derive(Clone, Copy, Debug, PartialEq, Eq, Structural)]
pub struct Store {
    pub water: usize,
    pub milk: usize,
    pub beans: usize,
    pub cups: usize,
    pub money: usize,
}

/// How much of one resource the store currently holds.
pub open spec fn amount_of(s: Store, ing: Ingredient) -> usize {
    match ing {
        Ingredient::Water => s.water,
        Ingredient::Milk => s.milk,
        Ingredient::Beans => s.beans,
        Ingredient::Cups => s.cups,
        Ingredient::Money => s.money,
    }
}

/// The fixed maximum of one resource. Money has no cap of its own; only the
/// machine word bounds it.
pub open spec fn cap_of(ing: Ingredient) -> usize {
    match ing {
        Ingredient::Water => MAX_WATER,
        Ingredient::Milk => MAX_MILK,
        Ingredient::Beans => MAX_BEANS,
        Ingredient::Cups => MAX_CUPS,
        Ingredient::Money => usize::MAX,
    }
}

/// The store with one resource set to `v` and the rest untouched.
pub open spec fn with_amount(s: Store, ing: Ingredient, v: usize) -> Store {
    match ing {
        Ingredient::Water => Store { water: v, ..s },
        Ingredient::Milk => Store { milk: v, ..s },
        Ingredient::Beans => Store { beans: v, ..s },
        Ingredient::Cups => Store { cups: v, ..s },
        Ingredient::Money => Store { money: v, ..s },
    }
}

/// Whether adding `count` to one resource stays at or below its maximum.
pub open spec fn fill_fits(s: Store, ing: Ingredient, count: usize) -> bool {
    amount_of(s, ing) + count <= cap_of(ing)
}

/// What one fill request does: adds `count` to the resource when the result
/// fits, and leaves the store unchanged otherwise.
pub open spec fn spec_fill(s: Store, ing: Ingredient, count: usize) -> Store {
    if fill_fits(s, ing, count) {
        with_amount(s, ing, (amount_of(s, ing) + count) as usize)
    } else {
        s
    }
}

/// What taking the money does: the new store and the amount handed out.
pub open spec fn spec_take(s: Store) -> (Store, usize) {
    (Store { money: 0, ..s }, s.money)
}

/// Whether the store holds enough of every consumable for the recipe.
pub open spec fn sufficient(s: Store, c: Coffee) -> bool {
    s.water >= c.water && s.milk >= c.milk && s.beans >= c.beans && s.cups >= c.cups
}

/// The consumables the recipe needs more of than the store holds, in the
/// fixed order water, milk, beans, cups.
pub open spec fn missing_of(s: Store, c: Coffee) -> Seq<Ingredient> {
    (if s.water < c.water { seq![Ingredient::Water] } else { seq![] })
        + (if s.milk < c.milk { seq![Ingredient::Milk] } else { seq![] })
        + (if s.beans < c.beans { seq![Ingredient::Beans] } else { seq![] })
        + (if s.cups < c.cups { seq![Ingredient::Cups] } else { seq![] })
}

/// The store after a successful purchase: every consumable decreased by the
/// recipe's requirement and the cost credited to money.
pub open spec fn spec_purchase(s: Store, c: Coffee) -> Store {
    Store {
        water: (s.water - c.water) as usize,
        milk: (s.milk - c.milk) as usize,
        beans: (s.beans - c.beans) as usize,
        cups: (s.cups - c.cups) as usize,
        money: (s.money + c.cost) as usize,
    }
}

impl Store {
    /// The store's invariant: no consumable exceeds its maximum.
    pub open spec fn wf(self) -> bool {
        self.water <= MAX_WATER && self.milk <= MAX_MILK && self.beans <= MAX_BEANS
            && self.cups <= MAX_CUPS
    }

    /// Adds `count` ml of water unless that would exceed the maximum, in
    /// which case nothing changes.
    pub fn fill_water(&mut self, count: usize) -> (r: Result<(), StoreError>)
        requires
            old(self).wf(),
        ensures
            r is Ok <==> old(self).water + count <= MAX_WATER,
            *final(self) == spec_fill(*old(self), Ingredient::Water, count),
            r matches Err(e) ==> e == StoreError::IncorrectFill(Ingredient::Water),
            final(self).wf(),
    {
        if count > MAX_WATER - self.water {
            return Err(StoreError::IncorrectFill(Ingredient::Water));
        }
        self.water = self.water + count;
        Ok(())
    }

    /// Adds `count` ml of milk unless that would exceed the maximum, in
    /// which case nothing changes.
    pub fn fill_milk(&mut self, count: usize) -> (r: Result<(), StoreError>)
        requires
            old(self).wf(),
        ensures
            r is Ok <==> old(self).milk + count <= MAX_MILK,
            *final(self) == spec_fill(*old(self), Ingredient::Milk, count),
            r matches Err(e) ==> e == StoreError::IncorrectFill(Ingredient::Milk),
            final(self).wf(),
    {
        if count > MAX_MILK - self.milk {
            return Err(StoreError::IncorrectFill(Ingredient::Milk));
        }
        self.milk = self.milk + count;
        Ok(())
    }

    /// Adds `count` mg of beans unless that would exceed the maximum, in
    /// which case nothing changes.
    pub fn fill_beans(&mut self, count: usize) -> (r: Result<(), StoreError>)
        requires
            old(self).wf(),
        ensures
            r is Ok <==> old(self).beans + count <= MAX_BEANS,
            *final(self) == spec_fill(*old(self), Ingredient::Beans, count),
            r matches Err(e) ==> e == StoreError::IncorrectFill(Ingredient::Beans),
            final(self).wf(),
    {
        if count > MAX_BEANS - self.beans {
            return Err(StoreError::IncorrectFill(Ingredient::Beans));
        }
        self.beans = self.beans + count;
        Ok(())
    }

    /// Adds `count` cups unless that would exceed the maximum, in which case
    /// nothing changes.
    pub fn fill_cups(&mut self, count: usize) -> (r: Result<(), StoreError>)
        requires
            old(self).wf(),
        ensures
            r is Ok <==> old(self).cups + count <= MAX_CUPS,
            *final(self) == spec_fill(*old(self), Ingredient::Cups, count),
            r matches Err(e) ==> e == StoreError::IncorrectFill(Ingredient::Cups),
            final(self).wf(),
    {
        if count > MAX_CUPS - self.cups {
            return Err(StoreError::IncorrectFill(Ingredient::Cups));
        }
        self.cups = self.cups + count;
        Ok(())
    }

    /// Hands out the whole balance and resets it to zero; always succeeds.
    pub fn take_money(&mut self) -> (m: usize)
        ensures
            m == old(self).money,
            final(self).money == 0,
            (*final(self), m) == spec_take(*old(self)),
    {
        let money = self.money;
        self.money = 0;
        money
    }

    /// Attempts to buy one drink. Either every consumable decreases by the
    /// recipe's requirement and the cost is credited, or — when one or more
    /// consumables are short — the store is left completely unchanged and the
    /// short consumables are reported.
    pub fn process_purchase(&mut self, coffee: &Coffee) -> (r: Result<(), StoreError>)
        requires
            old(self).money + coffee.cost <= usize::MAX,
        ensures
            r is Ok <==> sufficient(*old(self), *coffee),
            r is Ok ==> *final(self) == spec_purchase(*old(self), *coffee),
            r is Err ==> *final(self) == *old(self),
            r matches Err(e) ==> (e matches StoreError::NotEnoughIngredient(v)
                && v@ == missing_of(*old(self), *coffee)),
            old(self).wf() ==> final(self).wf(),
    {
        let mut ingredients: Vec<Ingredient> = Vec::with_capacity(4);
        if self.water < coffee.water {
            ingredients.push(Ingredient::Water);
        }
        if self.milk < coffee.milk {
            ingredients.push(Ingredient::Milk);
        }
        if self.beans < coffee.beans {
            ingredients.push(Ingredient::Beans);
        }
        if self.cups < coffee.cups {
            ingredients.push(Ingredient::Cups);
        }
        if ingredients.len() > 0 {
            proof {
                assert(ingredients@ =~= missing_of(*self, *coffee));
            }
            return Err(StoreError::NotEnoughIngredient(ingredients));
        }
        self.water = self.water - coffee.water;
        self.milk = self.milk - coffee.milk;
        self.beans = self.beans - coffee.beans;
        self.cups = self.cups - coffee.cups;
        self.money = self.money + coffee.cost;
        Ok(())
    }
}

/// The store after a sequence of fill requests, applied in order.
pub open spec fn apply_fills(s: Store, fills: Seq<(Ingredient, usize)>) -> Store
    decreases fills.len(),
{
    if fills.len() == 0 {
        s
    } else {
        spec_fill(apply_fills(s, fills.drop_last()), fills.last().0, fills.last().1)
    }
}

/// One fill request never loses anything and never overfills: an accepted
/// fill adds exactly the requested amount and stays at or below the cap, a
/// refused one changes nothing, and no other resource moves either way.
pub proof fn lemma_fill_step(s: Store, ing: Ingredient, count: usize)
    requires
        s.wf(),
    ensures
        spec_fill(s, ing, count).wf(),
        fill_fits(s, ing, count) ==> amount_of(spec_fill(s, ing, count), ing) == amount_of(s, ing)
            + count,
        amount_of(spec_fill(s, ing, count), ing) <= cap_of(ing),
        !fill_fits(s, ing, count) ==> spec_fill(s, ing, count) == s,
        forall|other: Ingredient|
            other != ing ==> amount_of(spec_fill(s, ing, count), other) == amount_of(s, other),
{
}

/// For every sequence of fill requests, every intermediate store respects
/// the caps — no resource quantity ever exceeds its maximum — and each step
/// is exactly one [`spec_fill`], so by [`lemma_fill_step`] a quantity never
/// drops below its pre-fill value plus the accepted amount.
pub proof fn lemma_fill_sequence_bounds(s: Store, fills: Seq<(Ingredient, usize)>)
    requires
        s.wf(),
    ensures
        forall|k: int| 0 <= k <= fills.len() ==> (#[trigger] apply_fills(s, fills.take(k))).wf(),
        forall|k: int|
            0 <= k < fills.len() ==> #[trigger] apply_fills(s, fills.take(k + 1)) == spec_fill(
                apply_fills(s, fills.take(k)),
                fills[k].0,
                fills[k].1,
            ),
    decreases fills.len(),
{
    assert forall|k: int| 0 <= k < fills.len() implies #[trigger] apply_fills(
        s,
        fills.take(k + 1),
    ) == spec_fill(apply_fills(s, fills.take(k)), fills[k].0, fills[k].1) by {
        assert(fills.take(k + 1).drop_last() =~= fills.take(k));
        assert(fills.take(k + 1).last() == fills[k]);
    }
    assert(fills.take(0) =~= Seq::<(Ingredient, usize)>::empty());
    if fills.len() > 0 {
        let prefix = fills.drop_last();
        lemma_fill_sequence_bounds(s, prefix);
        assert forall|k: int| 0 <= k <= fills.len() implies (#[trigger] apply_fills(
            s,
            fills.take(k),
        )).wf() by {
            if k <= prefix.len() {
                assert(fills.take(k) =~= prefix.take(k));
                assert(apply_fills(s, prefix.take(k)).wf());
            } else {
                assert(fills.take(k) =~= fills);
                assert(prefix.take(prefix.len() as int) =~= prefix);
                assert(apply_fills(s, prefix).wf());
                lemma_fill_step(apply_fills(s, prefix), fills.last().0, fills.last().1);
            }
        }
    }
}

/// Taking the money is idempotent under repetition: the first call hands out
/// the prior balance and leaves zero; an immediate second call hands out
/// zero and changes nothing.
pub proof fn lemma_take_money_idempotent(s: Store)
    ensures
        spec_take(s).1 == s.money,
        spec_take(s).0.money == 0,
        spec_take(spec_take(s).0).1 == 0,
        spec_take(spec_take(s).0).0 == spec_take(s).0,
{
}

/// The machine's initial stock: 400 ml of water, 540 ml of milk, 120 mg of
/// beans, 9 cups, and 550 of collected money.
pub open spec fn default_store() -> Store {
    Store { water: 400, milk: 540, beans: 120, cups: 9, money: 550 }
}

impl Default for Store {
    /// The machine's initial stock; see [`default_store`].
    fn default() -> (s: Store)
        ensures
            s == default_store(),
            s.wf(),
    {
        Store { water: 400, milk: 540, beans: 120, cups: 9, money: 550 }
    }
}

} // verus!
