use trade_wara::entities::investor::Investor;

#[test]
fn increment_investor_assets() {
    let mut investor = Investor::new("123".into(), "Joe".into(), vec![("HGLG11".into(), 10)]);

    investor.increment_asset("MXRF11".into(), 20);
    investor.increment_asset("HGLG11".into(), 5);

    assert_eq!(investor.quantity_of("MXRF11"), Some(20));
    assert_eq!(investor.quantity_of("HGLG11"), Some(15));
    assert_eq!(investor.assets().len(), 2);
}

#[test]
fn decrement_investor_assets() {
    let mut investor = Investor::new("123".into(), "Joe".into(), vec![("HGLG11".into(), 10)]);

    assert_eq!(
        Err("Asset not found".into()),
        investor.decrement_asset("MXRF11".into(), 20)
    );

    assert_eq!(Ok(()), investor.decrement_asset("HGLG11".into(), 7));
    assert_eq!(investor.quantity_of("HGLG11"), Some(3));

    assert_eq!(
        Err("Out range quantity".into()),
        investor.decrement_asset("HGLG11".into(), 6)
    );

    assert_eq!(investor.quantity_of("HGLG11"), Some(3));
    assert_eq!(investor.assets().len(), 1);
}

#[test]
fn new_investor_keeps_the_last_quantity_given_for_an_asset() {
    let investor = Investor::new(
        "123".into(),
        "Joe".into(),
        vec![("HGLG11".into(), 10), ("MXRF11".into(), 1), ("HGLG11".into(), 4)],
    );

    assert_eq!(investor.quantity_of("HGLG11"), Some(4));
    assert_eq!(investor.quantity_of("MXRF11"), Some(1));
    assert_eq!(investor.assets().len(), 2);
    assert_eq!(investor.id(), "123");
    assert_eq!(investor.name(), "Joe");
}

#[test]
fn credit_makes_an_entry_where_there_was_none() {
    let mut investor = Investor::new("1".into(), "A".into(), vec![]);

    assert_eq!(investor.quantity_of("X"), None);
    investor.increment_asset("X".into(), 0);
    assert_eq!(investor.quantity_of("X"), Some(0));
    investor.increment_asset("X".into(), u32::MAX);
    assert_eq!(investor.quantity_of("X"), Some(u32::MAX));
}

#[test]
fn debit_of_all_that_is_held_leaves_an_entry_of_nothing() {
    let mut investor = Investor::new("1".into(), "A".into(), vec![("X".into(), 3)]);

    assert_eq!(Ok(()), investor.decrement_asset("X".into(), 3));
    assert_eq!(investor.quantity_of("X"), Some(0));
    assert_eq!(Ok(()), investor.decrement_asset("X".into(), 0));
    assert_eq!(
        Err("Out range quantity".into()),
        investor.decrement_asset("X".into(), 1)
    );
}

#[test]
fn holdings_change_by_credits_less_debits() {
    let mut investor = Investor::new("1".into(), "A".into(), vec![("X".into(), 10)]);

    investor.increment_asset("X".into(), 5);
    assert!(investor.decrement_asset("X".into(), 7).is_ok());
    assert!(investor.decrement_asset("X".into(), 100).is_err());
    investor.increment_asset("Y".into(), 2);
    investor.increment_asset("X".into(), 1);

    // 10 + 5 - 7 + 1; the refused debit counts for nothing.
    assert_eq!(investor.quantity_of("X"), Some(9));
    assert_eq!(investor.quantity_of("Y"), Some(2));
}

#[test]
fn a_copy_of_an_investor_is_equal_to_it() {
    let investor = Investor::new("1".into(), "A".into(), vec![("X".into(), 10), ("Y".into(), 2)]);
    let copy = investor.clone();

    assert_eq!(investor, copy);
    assert_eq!(copy.quantity_of("Y"), Some(2));
}

#[test]
fn investors_are_equal_whatever_the_order_of_their_holdings() {
    let one = Investor::new("1".into(), "A".into(), vec![("X".into(), 10), ("Y".into(), 2)]);
    let other = Investor::new("1".into(), "A".into(), vec![("Y".into(), 2), ("X".into(), 10)]);
    let less = Investor::new("1".into(), "A".into(), vec![("X".into(), 10)]);
    let changed = Investor::new("1".into(), "A".into(), vec![("X".into(), 10), ("Y".into(), 3)]);
    let named = Investor::new("1".into(), "B".into(), vec![("X".into(), 10), ("Y".into(), 2)]);

    assert_eq!(one, other);
    assert_ne!(one, less);
    assert_ne!(less, one);
    assert_ne!(one, changed);
    assert_ne!(one, named);
}
