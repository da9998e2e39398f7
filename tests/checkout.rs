use farmtasker_checkout::cart::ShoppingCart;
use farmtasker_checkout::catalog::{
    DbCheckoutSession, DbCheckoutSessionItem, DbCheckoutSessionMode,
    DbCheckoutSessionPaymentStatus, DbCheckoutSessionStatus, DbPrice, DbProduct, StripeData,
};
use farmtasker_checkout::checkout::{
    finish_checkout_session, new_checkout_session, redirect_to_url, select_shipping_rate,
    CheckoutError, CheckoutPolicy, CheckoutSessionRequest, CheckoutStep, CreationFailure,
    ProviderError, FREE_SHIPPING_THRESHOLD,
};
use farmtasker_checkout::session::{cart_matches_session, find_checkout_session_matches};
use farmtasker_checkout::shipping::{
    find_shipping_rate, shipping_rate_to_create, DbShippingFixedAmount, DbShippingRate,
};

fn price(id: &str, amount: i64, active: bool) -> DbPrice {
    DbPrice {
        id: id.to_string(),
        active,
        billing_scheme: None,
        created: None,
        custom_unit_amount: None,
        livemode: false,
        lookup_key: None,
        nickname: None,
        product: None,
        recurring: None,
        type_: None,
        unit_amount: Some(amount),
        unit_amount_decimal: None,
    }
}

fn product(id: &str, default_price: Option<DbPrice>) -> DbProduct {
    DbProduct {
        id: id.to_string(),
        active: true,
        created: None,
        default_price,
        description: None,
        images: None,
        name: id.to_string(),
        unit_label: None,
        updated: None,
        url: None,
    }
}

fn item(price_id: &str, quantity: Option<u64>) -> DbCheckoutSessionItem {
    DbCheckoutSessionItem {
        id: format!("li_{}", price_id),
        amount_discount: 0,
        amount_subtotal: 0,
        amount_total: 0,
        description: String::new(),
        price: Some(price(price_id, 0, true)),
        quantity,
    }
}

fn session(
    id: &str,
    status: Option<DbCheckoutSessionStatus>,
    line_items: Option<Vec<DbCheckoutSessionItem>>,
) -> DbCheckoutSession {
    DbCheckoutSession {
        id: id.to_string(),
        amount_subtotal: None,
        amount_total: None,
        cancel_url: None,
        created: None,
        customer: None,
        customer_email: None,
        expires_at: None,
        line_items,
        livemode: false,
        mode: DbCheckoutSessionMode::Payment,
        payment_status: DbCheckoutSessionPaymentStatus::Unpaid,
        status,
        success_url: None,
        url: Some(format!("https://pay.example/{}", id)),
    }
}

fn data(sessions: Vec<DbCheckoutSession>) -> StripeData {
    StripeData {
        products: vec![
            product("prod_A", Some(price("price_A", 5000, true))),
            product("prod_B", Some(price("price_B", 2000, true))),
            product("prod_C", Some(price("price_C", 700, false))),
        ],
        customers: vec![],
        checkout_sessions: sessions,
        default_shipping_rate_id: "shr_paid".to_string(),
        free_shipping_rate_id: "shr_free".to_string(),
    }
}

fn policy() -> CheckoutPolicy {
    CheckoutPolicy::new(
        "aud".to_string(),
        "https://shop.example/shop/cart".to_string(),
        "https://shop.example/success".to_string(),
    )
}

fn cart_of(pairs: &[(&str, u8)]) -> ShoppingCart {
    let v: Vec<(String, u8)> = pairs.iter().map(|(k, q)| (k.to_string(), *q)).collect();
    ShoppingCart::from_quantities(&v)
}

fn expect_create(r: Result<CheckoutStep, CheckoutError>) -> CheckoutSessionRequest {
    match r {
        Ok(CheckoutStep::Create(req)) => req,
        Ok(CheckoutStep::Reuse(i)) => panic!("reused session {}", i),
        Err(e) => panic!("failed: {:?}", e),
    }
}

#[test]
fn scenario_small_cart_pays_shipping() {
    let cart = cart_of(&[("prod_A", 2), ("prod_B", 1)]);
    let d = data(vec![]);
    assert_eq!(cart.calculate_total_price(&d.products), 12000);
    let req = expect_create(new_checkout_session(&cart, &"".to_string(), &d, &policy()));
    assert_eq!(req.shipping_rate_id, "shr_paid");
    assert_eq!(req.currency, "aud");
    assert!(req.billing_address_required);
    assert!(req.phone_number_collection);
    assert_eq!(req.cancel_url, "https://shop.example/shop/cart");
    assert_eq!(req.success_url, "https://shop.example/success");
    assert_eq!(req.line_items.len(), 2);
    assert_eq!(req.line_items[0].price_id, "price_A");
    assert_eq!(req.line_items[0].quantity, 2);
    assert_eq!(req.line_items[0].minimum_quantity, 1);
    assert_eq!(req.line_items[0].maximum_quantity, 20);
    assert_eq!(req.line_items[1].price_id, "price_B");
    assert_eq!(req.line_items[1].quantity, 1);
}

#[test]
fn scenario_large_cart_ships_free() {
    let cart = cart_of(&[("prod_A", 7)]);
    let d = data(vec![]);
    assert_eq!(cart.calculate_total_price(&d.products), 35000);
    let req = expect_create(new_checkout_session(&cart, &"cs_old".to_string(), &d, &policy()));
    assert_eq!(req.shipping_rate_id, "shr_free");
}

#[test]
fn shipping_threshold_is_inclusive_for_free_rate() {
    let d = data(vec![]);
    assert_eq!(FREE_SHIPPING_THRESHOLD, 30000);
    assert_eq!(select_shipping_rate(29999, &d, &policy()), "shr_paid");
    assert_eq!(select_shipping_rate(30000, &d, &policy()), "shr_free");
}

#[test]
fn scenario_matching_open_session_is_reused() {
    let cart = cart_of(&[("prod_A", 2), ("prod_B", 1)]);
    let items = vec![item("price_B", Some(1)), item("price_A", Some(2))];
    let d = data(vec![
        session("cs_other", Some(DbCheckoutSessionStatus::Open), Some(vec![])),
        session("cs_1", Some(DbCheckoutSessionStatus::Open), Some(items)),
    ]);
    match new_checkout_session(&cart, &"cs_1".to_string(), &d, &policy()) {
        Ok(CheckoutStep::Reuse(i)) => assert_eq!(d.checkout_sessions[i].id, "cs_1"),
        _ => panic!("expected the open session to be reused"),
    }
}

#[test]
fn scenario_quantity_mismatch_creates_new_session() {
    let cart = cart_of(&[("prod_A", 2), ("prod_B", 1)]);
    let items = vec![item("price_A", Some(2)), item("price_B", Some(2))];
    let d = data(vec![session("cs_1", Some(DbCheckoutSessionStatus::Open), Some(items))]);
    let req = expect_create(new_checkout_session(&cart, &"cs_1".to_string(), &d, &policy()));
    assert_eq!(req.line_items.len(), 2);
    let created = session("cs_2", Some(DbCheckoutSessionStatus::Open), None);
    let done = finish_checkout_session(Ok(created)).ok().unwrap();
    assert!(done.resync_requested);
    assert_ne!(done.session.id, "cs_1");
}

#[test]
fn empty_cart_is_refused() {
    let cart = ShoppingCart::new();
    let d = data(vec![session("cs_1", Some(DbCheckoutSessionStatus::Open), None)]);
    match new_checkout_session(&cart, &"cs_1".to_string(), &d, &policy()) {
        Err(CheckoutError::EmptyCart) => {}
        _ => panic!("expected EmptyCart"),
    }
}

#[test]
fn closed_session_behaves_like_unknown_id() {
    let cart = cart_of(&[("prod_A", 2), ("prod_B", 1)]);
    let items = vec![item("price_A", Some(2)), item("price_B", Some(1))];
    let d = data(vec![
        session("cs_done", Some(DbCheckoutSessionStatus::Complete), Some(items.clone())),
        session("cs_gone", Some(DbCheckoutSessionStatus::Expired), Some(items)),
    ]);
    let unknown = expect_create(new_checkout_session(&cart, &"cs_none".to_string(), &d, &policy()));
    for id in ["cs_done", "cs_gone"] {
        let req = expect_create(new_checkout_session(&cart, &id.to_string(), &d, &policy()));
        assert_eq!(req.shipping_rate_id, unknown.shipping_rate_id);
        assert_eq!(req.line_items.len(), unknown.line_items.len());
        for (a, b) in req.line_items.iter().zip(unknown.line_items.iter()) {
            assert_eq!(a.price_id, b.price_id);
            assert_eq!(a.quantity, b.quantity);
        }
    }
}

#[test]
fn open_session_without_line_items_is_an_invariant_violation() {
    let cart = cart_of(&[("prod_A", 1)]);
    let d = data(vec![session("cs_1", Some(DbCheckoutSessionStatus::Open), None)]);
    match new_checkout_session(&cart, &"cs_1".to_string(), &d, &policy()) {
        Err(CheckoutError::InvariantViolation(id)) => assert_eq!(id, "cs_1"),
        _ => panic!("expected InvariantViolation"),
    }
}

#[test]
fn product_without_active_price_fails_creation() {
    let cart = cart_of(&[("prod_A", 1), ("prod_C", 1), ("prod_Z", 1)]);
    let d = data(vec![]);
    match new_checkout_session(&cart, &"".to_string(), &d, &policy()) {
        Err(CheckoutError::CheckoutCreation(CreationFailure::UnpricedProduct(p))) => {
            assert_eq!(p, "prod_C")
        }
        _ => panic!("expected an unpriced product"),
    }
}

#[test]
fn cart_matches_session_built_from_its_own_request() {
    let cart = cart_of(&[("prod_B", 3), ("prod_A", 1)]);
    let d = data(vec![]);
    let req = expect_create(new_checkout_session(&cart, &"".to_string(), &d, &policy()));
    let items: Vec<DbCheckoutSessionItem> = req
        .line_items
        .iter()
        .map(|l| item(&l.price_id, Some(l.quantity)))
        .collect();
    let s = session("cs_new", Some(DbCheckoutSessionStatus::Open), Some(items));
    assert!(cart_matches_session(&cart, &s, &d));
}

#[test]
fn same_total_other_composition_does_not_match() {
    let d = data(vec![]);
    let cart = cart_of(&[("prod_A", 2)]);
    let items = vec![item("price_B", Some(5))];
    let s = session("cs_1", Some(DbCheckoutSessionStatus::Open), Some(items));
    assert!(!cart_matches_session(&cart, &s, &d));
    let extra = vec![item("price_A", Some(2)), item("price_C", Some(1))];
    let s2 = session("cs_2", Some(DbCheckoutSessionStatus::Open), Some(extra));
    assert!(!cart_matches_session(&cart, &s2, &d));
}

#[test]
fn missing_item_quantity_counts_as_zero() {
    let d = data(vec![]);
    let cart = cart_of(&[("prod_A", 2)]);
    let s = session("cs_1", Some(DbCheckoutSessionStatus::Open), Some(vec![item("price_A", None)]));
    assert!(!cart_matches_session(&cart, &s, &d));
}

#[test]
fn open_session_lookup() {
    let d = data(vec![
        session("cs_open", Some(DbCheckoutSessionStatus::Open), None),
        session("cs_exp", Some(DbCheckoutSessionStatus::Expired), None),
        session("cs_done", Some(DbCheckoutSessionStatus::Complete), None),
        session("cs_none", None, None),
    ]);
    assert!(find_checkout_session_matches(&"cs_open".to_string(), &d));
    assert!(!find_checkout_session_matches(&"cs_exp".to_string(), &d));
    assert!(!find_checkout_session_matches(&"cs_done".to_string(), &d));
    assert!(!find_checkout_session_matches(&"cs_none".to_string(), &d));
    assert!(!find_checkout_session_matches(&"cs_unknown".to_string(), &d));
}

#[test]
fn provider_failures_are_mapped() {
    match finish_checkout_session(Err(ProviderError::Rejected("bad".to_string()))) {
        Err(CheckoutError::CheckoutCreation(CreationFailure::Rejected(m))) => assert_eq!(m, "bad"),
        _ => panic!("expected a creation error"),
    }
    match finish_checkout_session(Err(ProviderError::Transport("down".to_string()))) {
        Err(CheckoutError::Transport(m)) => assert_eq!(m, "down"),
        _ => panic!("expected a transport error"),
    }
}

#[test]
fn redirect_goes_to_session_url_or_cancel() {
    let s = session("cs_1", Some(DbCheckoutSessionStatus::Open), None);
    assert_eq!(redirect_to_url(&s), "https://pay.example/cs_1");
    let mut t = s.clone();
    t.url = None;
    assert_eq!(redirect_to_url(&t), "/cancel");
}

fn rate(id: &str, fixed: Option<(i64, &str)>) -> DbShippingRate {
    DbShippingRate {
        id: id.to_string(),
        active: true,
        fixed_amount: fixed.map(|(amount, currency)| DbShippingFixedAmount {
            amount,
            currency: currency.to_string(),
        }),
    }
}

#[test]
fn shipping_rates_are_picked_by_kind() {
    let rates = vec![
        rate("shr_none", None),
        rate("shr_usd", Some((1500, "usd"))),
        rate("shr_free", Some((0, "aud"))),
        rate("shr_paid", Some((1000, "aud"))),
        rate("shr_paid2", Some((2000, "aud"))),
    ];
    let aud = "aud".to_string();
    assert_eq!(find_shipping_rate(&rates, &aud, false), Some(3));
    assert_eq!(find_shipping_rate(&rates, &aud, true), Some(2));
    assert_eq!(find_shipping_rate(&rates[..2].to_vec(), &aud, true), None);
}

#[test]
fn shipping_rate_to_create_by_kind() {
    let aud = "aud".to_string();
    let paid = shipping_rate_to_create(&aud, false);
    assert_eq!(paid.amount, 1000);
    assert_eq!(paid.display_name, "Default Created Shipping Rate");
    let free = shipping_rate_to_create(&aud, true);
    assert_eq!(free.amount, 0);
    assert_eq!(free.currency, "aud");
    assert_eq!((free.minimum_days, free.maximum_days), (4, 7));
}
