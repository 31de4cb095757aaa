use coffee_machine::catalog::{parse_coffees, parse_recipe, CatalogLoadError};
use coffee_machine::input::parse_number;
use coffee_machine::machine::{CoffeeMachine, MachineState, Reply};

#[test]
fn parse_recipe_reads_six_trimmed_fields() {
    let c = parse_recipe(" Latte , 350 , 75 , 20 , 1 , 7 ").expect("well-formed line");
    assert_eq!(c.name, "Latte");
    assert_eq!(c.water, 350);
    assert_eq!(c.milk, 75);
    assert_eq!(c.beans, 20);
    assert_eq!(c.cups, 1);
    assert_eq!(c.cost, 7);
}

#[test]
fn parse_recipe_ignores_fields_beyond_the_sixth() {
    let c = parse_recipe("Mocha,1,2,3,4,5,decaf,extra").expect("well-formed line");
    assert_eq!(c.name, "Mocha");
    assert_eq!(c.cost, 5);
}

#[test]
fn parse_recipe_rejects_missing_and_bad_fields() {
    assert!(parse_recipe("Espresso,250,0,16,1").is_none());
    assert!(parse_recipe("Espresso,25x,0,16,1,4").is_none());
    assert!(parse_recipe("Espresso,250,0,16,1,").is_none());
    assert!(parse_recipe("").is_none());
}

#[test]
fn parse_coffees_loads_all_or_nothing() {
    let good = vec![
        "Espresso,250,0,16,1,4".to_owned(),
        "Latte,350,75,20,1,7".to_owned(),
    ];
    let cs = parse_coffees(&good).expect("both lines well-formed");
    assert_eq!(cs.len(), 2);
    assert_eq!(cs[0].name, "Espresso");
    assert_eq!(cs[1].water, 350);

    let bad = vec![
        "Espresso,250,0,16,1,4".to_owned(),
        "Latte,350,75".to_owned(),
    ];
    assert!(matches!(parse_coffees(&bad), Err(CatalogLoadError)));
}

#[test]
fn a_parsed_catalog_drives_a_session() {
    let lines = vec!["Flat White,150,120,18,1,5".to_owned()];
    let cs = parse_coffees(&lines).expect("well-formed line");
    let mut m = CoffeeMachine::with_catalog(cs);
    assert_eq!(m.input_handler("buy"), Ok(Reply::Done));
    assert_eq!(m.input_handler("1"), Ok(Reply::Purchased));
    assert_eq!(m.state, MachineState::MainMenu);
    assert_eq!(m.store.water, 250);
    assert_eq!(m.store.milk, 420);
    assert_eq!(m.store.money, 555);
}

#[test]
fn parse_number_reads_optionally_plus_signed_decimals() {
    assert_eq!(parse_number("0"), Some(0));
    assert_eq!(parse_number("0123"), Some(123));
    assert_eq!(parse_number("9700"), Some(9700));
    assert_eq!(parse_number("+5"), Some(5));
    assert_eq!(parse_number("+0123"), Some(123));
    assert_eq!(parse_number(""), None);
    assert_eq!(parse_number("+"), None);
    assert_eq!(parse_number("++1"), None);
    assert_eq!(parse_number("12a"), None);
    assert_eq!(parse_number("-1"), None);
    assert_eq!(parse_number("99999999999999999999999999"), None);
    assert_eq!(parse_number(&usize::MAX.to_string()), Some(usize::MAX));
}

#[test]
fn parse_recipe_accepts_plus_signed_numerals() {
    let c = parse_recipe("Plus,+250,0,+16,1,+4").expect("well-formed line");
    assert_eq!(c.water, 250);
    assert_eq!(c.milk, 0);
    assert_eq!(c.beans, 16);
    assert_eq!(c.cups, 1);
    assert_eq!(c.cost, 4);
}
