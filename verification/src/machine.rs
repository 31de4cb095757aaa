//! The session controller: a finite state machine that owns the recipe list
//! and the inventory store, and interprets one line of user input per call.
//! Line-oriented I/O and prompt formatting live outside the library.

use vstd::prelude::*;

use crate::coffee::Coffee;
use crate::input::{spec_token, tokenize, Token};
use crate::store::{
    default_store, fill_fits, missing_of, spec_fill, spec_purchase, spec_take, sufficient,
    Ingredient, Store, StoreError,
};

verus! {

/// Where the session stands. `Exit` is terminal: once reached, inputs are
/// acknowledged and nothing changes.
#[derive(Clone, Copy, Debug, PartialEq, Eq, Structural)]
pub enum MachineState {
    MainMenu,
    BuyMenu,
    FillWater,
    FillMilk,
    FillBeans,
    FillCups,
    Exit,
}

/// What the controller reports back for display after an accepted input.
#[derive(Debug, PartialEq)]
pub enum Reply {
    /// A menu change with nothing to announce.
    Done,
    /// The whole balance was handed out.
    MoneyTaken(usize),
    /// A read-only snapshot of the stock.
    Remaining(Store),
    /// The drink was made and paid for.
    Purchased,
    /// The fill was accepted and the next fill stage begins.
    Filled,
    /// Input arrived after the session ended.
    Goodbye,
}

/// Why an input was rejected.
#[derive(Debug, PartialEq)]
pub enum MachineErrors {
    /// The line was not a legal input for the current state.
    InvalidInput,
    /// The store refused the requested fill or purchase.
    StoreFailure(StoreError),
}

/// Whether the state is one of the four fill stages.
pub open spec fn is_fill_state(st: MachineState) -> bool {
    st == MachineState::FillWater || st == MachineState::FillMilk || st == MachineState::FillBeans
        || st == MachineState::FillCups
}

/// The consumable a fill stage replenishes.
pub open spec fn fill_ing(st: MachineState) -> Ingredient {
    match st {
        MachineState::FillWater => Ingredient::Water,
        MachineState::FillMilk => Ingredient::Milk,
        MachineState::FillBeans => Ingredient::Beans,
        MachineState::FillCups => Ingredient::Cups,
        _ => Ingredient::Water,
    }
}

/// The stage after a successful fill, in the fixed order
/// water, milk, beans, cups, then back to the main menu.
pub open spec fn next_fill_state(st: MachineState) -> MachineState {
    match st {
        MachineState::FillWater => MachineState::FillMilk,
        MachineState::FillMilk => MachineState::FillBeans,
        MachineState::FillBeans => MachineState::FillCups,
        MachineState::FillCups => MachineState::MainMenu,
        _ => st,
    }
}

/// The next session state for every state/input pair: a total function, so
/// the transition table is exhaustive and deterministic.
pub open spec fn next_state(st: MachineState, store: Store, tok: Token) -> MachineState {
    match st {
        MachineState::MainMenu => match tok {
            Token::Buy => MachineState::BuyMenu,
            Token::Fill => MachineState::FillWater,
            Token::Exit => MachineState::Exit,
            _ => MachineState::MainMenu,
        },
        MachineState::BuyMenu => MachineState::MainMenu,
        MachineState::FillWater | MachineState::FillMilk | MachineState::FillBeans
            | MachineState::FillCups => match tok {
            Token::Number(n) => if fill_fits(store, fill_ing(st), n) {
                next_fill_state(st)
            } else {
                st
            },
            _ => st,
        },
        MachineState::Exit => MachineState::Exit,
    }
}

/// The next store contents for every state/input pair: only "take", an
/// in-range purchase with sufficient stock, and an accepted fill change it.
pub open spec fn next_store(
    st: MachineState,
    store: Store,
    recipes: Seq<Coffee>,
    tok: Token,
) -> Store {
    match st {
        MachineState::MainMenu => if tok == Token::Take {
            spec_take(store).0
        } else {
            store
        },
        MachineState::BuyMenu => match tok {
            Token::Number(n) => if 1 <= n && n <= recipes.len() && sufficient(
                store,
                recipes[n - 1],
            ) {
                spec_purchase(store, recipes[n - 1])
            } else {
                store
            },
            _ => store,
        },
        MachineState::FillWater | MachineState::FillMilk | MachineState::FillBeans
            | MachineState::FillCups => match tok {
            Token::Number(n) => spec_fill(store, fill_ing(st), n),
            _ => store,
        },
        MachineState::Exit => store,
    }
}

/// The report owed for every state/input pair, as a relation because the
/// list of short ingredients rides in the error.
pub open spec fn reply_ok(
    st: MachineState,
    store: Store,
    recipes: Seq<Coffee>,
    tok: Token,
    r: Result<Reply, MachineErrors>,
) -> bool {
    match st {
        MachineState::MainMenu => match tok {
            Token::Buy => r == Ok::<Reply, MachineErrors>(Reply::Done),
            Token::Fill => r == Ok::<Reply, MachineErrors>(Reply::Done),
            Token::Exit => r == Ok::<Reply, MachineErrors>(Reply::Done),
            Token::Take => r == Ok::<Reply, MachineErrors>(Reply::MoneyTaken(store.money)),
            Token::Remaining => r == Ok::<Reply, MachineErrors>(Reply::Remaining(store)),
            _ => r == Err::<Reply, MachineErrors>(MachineErrors::InvalidInput),
        },
        MachineState::BuyMenu => match tok {
            Token::Back => r == Ok::<Reply, MachineErrors>(Reply::Done),
            Token::Number(n) => if 1 <= n && n <= recipes.len() {
                if sufficient(store, recipes[n - 1]) {
                    r == Ok::<Reply, MachineErrors>(Reply::Purchased)
                } else {
                    r matches Err(MachineErrors::StoreFailure(StoreError::NotEnoughIngredient(v)))
                        && v@ == missing_of(store, recipes[n - 1])
                }
            } else {
                r == Err::<Reply, MachineErrors>(MachineErrors::InvalidInput)
            },
            _ => r == Err::<Reply, MachineErrors>(MachineErrors::InvalidInput),
        },
        MachineState::FillWater | MachineState::FillMilk | MachineState::FillBeans
            | MachineState::FillCups => match tok {
            Token::Number(n) => if fill_fits(store, fill_ing(st), n) {
                r == Ok::<Reply, MachineErrors>(Reply::Filled)
            } else {
                r == Err::<Reply, MachineErrors>(
                    MachineErrors::StoreFailure(StoreError::IncorrectFill(fill_ing(st))),
                )
            },
            _ => r == Err::<Reply, MachineErrors>(MachineErrors::InvalidInput),
        },
        MachineState::Exit => r == Ok::<Reply, MachineErrors>(Reply::Goodbye),
    }
}

/// The controller: current state, the recipe catalog, and the store.
#[derive(Debug)]
pub struct CoffeeMachine {
    pub state: MachineState,
    pub coffees: Vec<Coffee>,
    pub store: Store,
}

impl CoffeeMachine {
    /// The controller's invariant: the store respects its caps.
    pub open spec fn wf(self) -> bool {
        self.store.wf()
    }

    /// No purchase can overflow the money drawer's machine word.
    pub open spec fn money_fits(self) -> bool {
        forall|i: int|
            0 <= i < self.coffees@.len() ==> self.store.money + self.coffees@[i].cost
                <= usize::MAX
    }

    /// A fresh session: main menu, the built-in three-recipe catalog, and the
    /// default stock.
    pub fn new() -> (m: CoffeeMachine)
        ensures
            m.state == MachineState::MainMenu,
            m.store == default_store(),
            m.wf(),
            m.coffees@.len() == 3,
            m.coffees@[0].name@ == "Espresso"@,
            m.coffees@[0] == (Coffee {
                name: m.coffees@[0].name,
                water: 250,
                milk: 0,
                beans: 16,
                cups: 1,
                cost: 4,
            }),
            m.coffees@[1].name@ == "Latte"@,
            m.coffees@[1] == (Coffee {
                name: m.coffees@[1].name,
                water: 350,
                milk: 75,
                beans: 20,
                cups: 1,
                cost: 7,
            }),
            m.coffees@[2].name@ == "Cappucino"@,
            m.coffees@[2] == (Coffee {
                name: m.coffees@[2].name,
                water: 200,
                milk: 100,
                beans: 12,
                cups: 1,
                cost: 6,
            }),
    {
        let mut coffees: Vec<Coffee> = Vec::with_capacity(3);
        coffees.push(Coffee::new("Espresso".to_owned(), 250, 0, 16, 1, 4));
        coffees.push(Coffee::new("Latte".to_owned(), 350, 75, 20, 1, 7));
        coffees.push(Coffee::new("Cappucino".to_owned(), 200, 100, 12, 1, 6));
        CoffeeMachine { state: MachineState::MainMenu, coffees, store: Store::default() }
    }

    /// A session over a caller-supplied catalog, starting at the main menu
    /// with the default stock.
    pub fn with_catalog(coffees: Vec<Coffee>) -> (m: CoffeeMachine)
        ensures
            m.state == MachineState::MainMenu,
            m.store == default_store(),
            m.wf(),
            m.coffees == coffees,
    {
        CoffeeMachine { state: MachineState::MainMenu, coffees, store: Store::default() }
    }

    /// Attempts to buy the recipe at `coffee_index`, delegating entirely to
    /// the store: either the whole purchase applies or nothing changes.
    pub fn make_coffee(&mut self, coffee_index: usize) -> (r: Result<(), StoreError>)
        requires
            coffee_index < old(self).coffees@.len(),
            old(self).store.money + old(self).coffees@[coffee_index as int].cost <= usize::MAX,
        ensures
            final(self).state == old(self).state,
            final(self).coffees == old(self).coffees,
            r is Ok <==> sufficient(old(self).store, old(self).coffees@[coffee_index as int]),
            r is Ok ==> final(self).store == spec_purchase(
                old(self).store,
                old(self).coffees@[coffee_index as int],
            ),
            r is Err ==> final(self).store == old(self).store,
            r matches Err(e) ==> (e matches StoreError::NotEnoughIngredient(v) && v@ == missing_of(
                old(self).store,
                old(self).coffees@[coffee_index as int],
            )),
            old(self).wf() ==> final(self).wf(),
    {
        self.store.process_purchase(&self.coffees[coffee_index])
    }

    /// One fill request at the current fill stage. On success the stage
    /// advances; a zero amount is an accepted no-op. On failure (the cap
    /// would be exceeded) the stage is retained so the user can retry.
    pub fn fill(&mut self, count: usize) -> (r: Result<(), StoreError>)
        requires
            old(self).wf(),
            is_fill_state(old(self).state),
        ensures
            final(self).coffees == old(self).coffees,
            final(self).store == spec_fill(old(self).store, fill_ing(old(self).state), count),
            r is Ok <==> fill_fits(old(self).store, fill_ing(old(self).state), count),
            r is Ok ==> final(self).state == next_fill_state(old(self).state),
            r is Err ==> final(self).state == old(self).state,
            r matches Err(e) ==> e == StoreError::IncorrectFill(fill_ing(old(self).state)),
            final(self).wf(),
    {
        let result = match self.state {
            MachineState::FillWater => self.store.fill_water(count),
            MachineState::FillMilk => self.store.fill_milk(count),
            MachineState::FillBeans => self.store.fill_beans(count),
            _ => self.store.fill_cups(count),
        };
        match result {
            Ok(()) => {
                self.state = match self.state {
                    MachineState::FillWater => MachineState::FillMilk,
                    MachineState::FillMilk => MachineState::FillBeans,
                    MachineState::FillBeans => MachineState::FillCups,
                    _ => MachineState::MainMenu,
                };
                Ok(())
            },
            Err(e) => Err(e),
        }
    }

    /// Interprets one line of input for the current state and drives both
    /// the store and the session state. The next state, the next store, and
    /// the report are each a total function of the current state and the
    /// normalized input, so the transition table is exhaustive and the
    /// outcome deterministic.
    pub fn input_handler(&mut self, input: &str) -> (r: Result<Reply, MachineErrors>)
        requires
            old(self).wf(),
            old(self).money_fits(),
        ensures
            final(self).coffees == old(self).coffees,
            final(self).state == next_state(old(self).state, old(self).store, spec_token(input@)),
            final(self).store == next_store(
                old(self).state,
                old(self).store,
                old(self).coffees@,
                spec_token(input@),
            ),
            reply_ok(old(self).state, old(self).store, old(self).coffees@, spec_token(input@), r),
            final(self).wf(),
    {
        let tok = tokenize(input);
        match self.state {
            MachineState::MainMenu => match tok {
                Token::Buy => {
                    self.state = MachineState::BuyMenu;
                    Ok(Reply::Done)
                },
                Token::Fill => {
                    self.state = MachineState::FillWater;
                    Ok(Reply::Done)
                },
                Token::Exit => {
                    self.state = MachineState::Exit;
                    Ok(Reply::Done)
                },
                Token::Take => {
                    let m = self.store.take_money();
                    Ok(Reply::MoneyTaken(m))
                },
                Token::Remaining => Ok(Reply::Remaining(self.store)),
                _ => Err(MachineErrors::InvalidInput),
            },
            MachineState::BuyMenu => match tok {
                Token::Back => {
                    self.state = MachineState::MainMenu;
                    Ok(Reply::Done)
                },
                Token::Number(n) => {
                    self.state = MachineState::MainMenu;
                    if n == 0 || n > self.coffees.len() {
                        Err(MachineErrors::InvalidInput)
                    } else {
                        match self.make_coffee(n - 1) {
                            Ok(()) => Ok(Reply::Purchased),
                            Err(e) => Err(MachineErrors::StoreFailure(e)),
                        }
                    }
                },
                _ => {
                    self.state = MachineState::MainMenu;
                    Err(MachineErrors::InvalidInput)
                },
            },
            MachineState::FillWater | MachineState::FillMilk | MachineState::FillBeans
                | MachineState::FillCups => match tok {
                Token::Number(n) => match self.fill(n) {
                    Ok(()) => Ok(Reply::Filled),
                    Err(e) => Err(MachineErrors::StoreFailure(e)),
                },
                _ => Err(MachineErrors::InvalidInput),
            },
            MachineState::Exit => Ok(Reply::Goodbye),
        }
    }
}

} // verus!
