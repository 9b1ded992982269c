use planner::lookup::{find_statement, found};
use planner::Error;

#[test]
fn statement_of_a_lookup() {
    assert_eq!(
        find_statement("estimates", "core%").unwrap(),
        "SELECT `name`, `area` FROM `estimates` WHERE `name` LIKE 'core%' LIMIT 1"
    );
    assert_eq!(
        find_statement("t", "l3%").unwrap(),
        "SELECT `name`, `area` FROM `t` WHERE `name` LIKE 'l3%' LIMIT 1"
    );
}

#[test]
fn outcome_of_a_lookup() {
    assert_eq!(found(Some(1_000_000)), Ok(1_000_000));
    assert_eq!(found(Some(0)), Ok(0));
    assert_eq!(found(None), Err(Error::Lookup));
}
