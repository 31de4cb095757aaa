use coffee_machine::coffee::Coffee;
use coffee_machine::store::{Ingredient, Store, StoreError, MAX_BEANS, MAX_WATER};

#[test]
fn test_coffee_new() {
    let coffee = Coffee::new("Test".to_owned(), 1, 2, 3, 4, 5);
    assert_eq!(coffee.name, "Test");
    assert_eq!(coffee.water, 1);
    assert_eq!(coffee.milk, 2);
    assert_eq!(coffee.beans, 3);
    assert_eq!(coffee.cups, 4);
    assert_eq!(coffee.cost, 5);
}

#[test]
fn default_store_values() {
    let s = Store::default();
    assert_eq!(s, Store { water: 400, milk: 540, beans: 120, cups: 9, money: 550 });
}

#[test]
fn fill_within_cap_adds_exactly() {
    let mut s = Store::default();
    assert_eq!(s.fill_water(9600), Ok(()));
    assert_eq!(s.water, MAX_WATER);
    assert_eq!(s.fill_milk(60), Ok(()));
    assert_eq!(s.milk, 600);
    assert_eq!(s.fill_beans(880), Ok(()));
    assert_eq!(s.beans, MAX_BEANS);
    assert_eq!(s.fill_cups(91), Ok(()));
    assert_eq!(s.cups, 100);
}

#[test]
fn fill_over_cap_fails_and_changes_nothing() {
    let mut s = Store::default();
    assert_eq!(s.fill_water(9601), Err(StoreError::IncorrectFill(Ingredient::Water)));
    assert_eq!(s.fill_milk(9461), Err(StoreError::IncorrectFill(Ingredient::Milk)));
    assert_eq!(s.fill_beans(881), Err(StoreError::IncorrectFill(Ingredient::Beans)));
    assert_eq!(s.fill_cups(92), Err(StoreError::IncorrectFill(Ingredient::Cups)));
    assert_eq!(s, Store::default());
}

#[test]
fn fill_zero_is_a_no_op_success() {
    let mut s = Store::default();
    assert_eq!(s.fill_water(0), Ok(()));
    assert_eq!(s, Store::default());
}

#[test]
fn fill_sequence_never_exceeds_caps_nor_loses_amounts() {
    let mut s = Store::default();
    let before = s.water;
    assert_eq!(s.fill_water(9000), Ok(()));
    assert_eq!(s.water, before + 9000);
    // refused: would exceed the cap; quantity keeps the accepted total
    assert_eq!(s.fill_water(700), Err(StoreError::IncorrectFill(Ingredient::Water)));
    assert_eq!(s.water, before + 9000);
    assert_eq!(s.fill_water(600), Ok(()));
    assert_eq!(s.water, MAX_WATER);
    assert!(s.water <= MAX_WATER && s.milk <= 10000 && s.beans <= 1000 && s.cups <= 100);
}

#[test]
fn purchase_deducts_all_and_credits_cost() {
    // default store, recipe water=250, milk=0, beans=16, cups=1, cost=4
    let mut s = Store::default();
    let recipe = Coffee::new("Espresso".to_owned(), 250, 0, 16, 1, 4);
    assert_eq!(s.process_purchase(&recipe), Ok(()));
    assert_eq!(s, Store { water: 150, milk: 540, beans: 104, cups: 8, money: 554 });
}

#[test]
fn purchase_short_on_cups_fails_and_store_is_unchanged() {
    // default store has 9 cups; the recipe wants 20
    let mut s = Store::default();
    let recipe = Coffee::new("Party".to_owned(), 100, 100, 10, 20, 9);
    assert_eq!(
        s.process_purchase(&recipe),
        Err(StoreError::NotEnoughIngredient(vec![Ingredient::Cups]))
    );
    assert_eq!(s, Store::default());
}

#[test]
fn purchase_reports_every_short_ingredient_in_order() {
    let mut s = Store { water: 0, milk: 0, beans: 0, cups: 0, money: 0 };
    let recipe = Coffee::new("Any".to_owned(), 1, 1, 1, 1, 2);
    assert_eq!(
        s.process_purchase(&recipe),
        Err(StoreError::NotEnoughIngredient(vec![
            Ingredient::Water,
            Ingredient::Milk,
            Ingredient::Beans,
            Ingredient::Cups,
        ]))
    );
    assert_eq!(s, Store { water: 0, milk: 0, beans: 0, cups: 0, money: 0 });
}

#[test]
fn purchase_with_zero_requirements_always_succeeds() {
    let mut s = Store { water: 0, milk: 0, beans: 0, cups: 0, money: 7 };
    let recipe = Coffee::new("Nothing".to_owned(), 0, 0, 0, 0, 3);
    assert_eq!(s.process_purchase(&recipe), Ok(()));
    assert_eq!(s.money, 10);
}

#[test]
fn take_money_is_idempotent_under_repetition() {
    let mut s = Store::default();
    assert_eq!(s.take_money(), 550);
    assert_eq!(s.money, 0);
    assert_eq!(s.take_money(), 0);
    assert_eq!(s.money, 0);
    let untouched = Store { money: 0, ..Store::default() };
    assert_eq!(s, untouched);
}
