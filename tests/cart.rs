use farmtasker_checkout::cart::{ShoppingCart, ITEM_QUANTITY_LIMIT};
use farmtasker_checkout::catalog::{DbPrice, DbProduct};

fn price(id: &str, amount: Option<i64>, active: bool) -> DbPrice {
    DbPrice {
        id: id.to_string(),
        active,
        billing_scheme: None,
        created: None,
        custom_unit_amount: None,
        livemode: false,
        lookup_key: None,
        nickname: None,
        product: None,
        recurring: None,
        type_: None,
        unit_amount: amount,
        unit_amount_decimal: None,
    }
}

fn product(id: &str, default_price: Option<DbPrice>) -> DbProduct {
    DbProduct {
        id: id.to_string(),
        active: true,
        created: None,
        default_price,
        description: None,
        images: None,
        name: id.to_string(),
        unit_label: None,
        updated: None,
        url: None,
    }
}

fn catalog() -> Vec<DbProduct> {
    vec![
        product("prod_A", Some(price("price_A", Some(5000), true))),
        product("prod_B", Some(price("price_B", Some(2000), true))),
        product("prod_C", Some(price("price_C", Some(900), false))),
        product("prod_D", None),
        product("prod_E", Some(price("price_E", None, true))),
    ]
}

fn cart_of(pairs: &[(&str, u8)]) -> ShoppingCart {
    let v: Vec<(String, u8)> = pairs.iter().map(|(k, q)| (k.to_string(), *q)).collect();
    ShoppingCart::from_quantities(&v)
}

fn id(s: &str) -> String {
    s.to_string()
}

#[test]
fn add_then_remove_restores_quantity() {
    let mut cart = cart_of(&[("prod_A", 3), ("prod_B", 1)]);
    cart.add_single_product(&id("prod_A"), ITEM_QUANTITY_LIMIT);
    assert_eq!(cart.quantity(&id("prod_A")), 4);
    cart.remove_single_product(&id("prod_A"));
    assert_eq!(cart.quantity(&id("prod_A")), 3);
    assert_eq!(cart.len(), 2);
}

#[test]
fn add_new_then_remove_leaves_no_line() {
    let mut cart = cart_of(&[("prod_B", 1)]);
    cart.add_single_product(&id("prod_A"), ITEM_QUANTITY_LIMIT);
    assert_eq!(cart.quantity(&id("prod_A")), 1);
    assert_eq!(cart.len(), 2);
    cart.remove_single_product(&id("prod_A"));
    assert_eq!(cart.quantity(&id("prod_A")), 0);
    assert_eq!(cart.len(), 1);
}

#[test]
fn add_at_limit_is_capped_and_remove_lowers() {
    let mut cart = cart_of(&[("prod_A", 20)]);
    cart.add_single_product(&id("prod_A"), ITEM_QUANTITY_LIMIT);
    assert_eq!(cart.quantity(&id("prod_A")), 20);
    cart.remove_single_product(&id("prod_A"));
    assert_eq!(cart.quantity(&id("prod_A")), 19);
}

#[test]
fn add_new_product_ignores_limit() {
    let mut cart = ShoppingCart::new();
    cart.add_single_product(&id("prod_A"), 0);
    assert_eq!(cart.quantity(&id("prod_A")), 1);
}

#[test]
fn remove_absent_is_noop() {
    let mut cart = cart_of(&[("prod_A", 2)]);
    cart.remove_single_product(&id("prod_Z"));
    assert_eq!(cart.len(), 1);
    assert_eq!(cart.quantity(&id("prod_A")), 2);
}

#[test]
fn remove_last_unit_deletes_line() {
    let mut cart = cart_of(&[("prod_A", 1), ("prod_B", 2)]);
    cart.remove_single_product(&id("prod_A"));
    assert_eq!(cart.len(), 1);
    assert!(cart.lines().iter().all(|l| l.product_id != "prod_A" && l.quantity > 0));
}

#[test]
fn delete_and_clear() {
    let mut cart = cart_of(&[("prod_A", 5), ("prod_B", 2)]);
    cart.delete_product(id("prod_A"));
    assert_eq!(cart.quantity(&id("prod_A")), 0);
    assert_eq!(cart.len(), 1);
    cart.clear();
    assert!(cart.is_empty());
}

#[test]
fn total_price_of_empty_cart_is_zero() {
    let cart = ShoppingCart::default();
    assert_eq!(cart.calculate_total_price(&catalog()), 0);
}

#[test]
fn total_price_scenario() {
    let cart = cart_of(&[("prod_A", 2), ("prod_B", 1)]);
    assert_eq!(cart.calculate_total_price(&catalog()), 12000);
}

#[test]
fn total_price_grows_with_quantity() {
    let mut cart = cart_of(&[("prod_A", 2), ("prod_B", 1)]);
    let before = cart.calculate_total_price(&catalog());
    cart.add_single_product(&id("prod_B"), ITEM_QUANTITY_LIMIT);
    let after = cart.calculate_total_price(&catalog());
    assert_eq!(after, before + 2000);
    assert!(after >= before);
}

#[test]
fn total_price_skips_unpriced_products() {
    let cart = cart_of(&[("prod_A", 1), ("prod_C", 3), ("prod_D", 2), ("prod_E", 1), ("prod_Z", 4)]);
    assert_eq!(cart.calculate_total_price(&catalog()), 5000);
}

#[test]
fn checked_total_price_reports_overflow() {
    let products = vec![product("prod_X", Some(price("price_X", Some(i64::MAX / 2), true)))];
    let cart = cart_of(&[("prod_X", 3)]);
    assert_eq!(cart.checked_total_price(&products), None);
    let small = cart_of(&[("prod_X", 1)]);
    assert_eq!(small.checked_total_price(&products), Some(i64::MAX / 2));
}

#[test]
fn total_quantity_sums_lines() {
    let cart = cart_of(&[("prod_A", 2), ("prod_B", 7)]);
    assert_eq!(cart.total_quantity(), 9);
}

#[test]
fn from_quantities_later_pair_wins_and_zero_drops() {
    let cart = cart_of(&[("prod_A", 2), ("prod_B", 1), ("prod_A", 5), ("prod_B", 0)]);
    assert_eq!(cart.len(), 1);
    assert_eq!(cart.quantity(&id("prod_A")), 5);
    assert_eq!(cart.quantity(&id("prod_B")), 0);
}

#[test]
fn set_quantity_updates_and_deletes() {
    let mut cart = cart_of(&[("prod_A", 2)]);
    cart.set_quantity(&id("prod_A"), 9);
    assert_eq!(cart.quantity(&id("prod_A")), 9);
    cart.set_quantity(&id("prod_A"), 0);
    assert!(cart.is_empty());
}
