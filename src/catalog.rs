//! The catalog snapshot: products with their default prices, known checkout
//! sessions and the two shipping-rate identifiers, as read from the payment
//! provider by a separate sync process. Nothing here is mutated by checkout.
use vstd::prelude::*;

verus! {

#[derive(Clone, Copy, Debug, PartialEq, Eq, Structural)]
pub enum DbPriceBillingScheme {
    PerUnit,
    Tiered,
}

#[derive(Clone, Copy, Debug, PartialEq, Eq, Structural)]
pub struct DbCustomUnitAmount {
    pub maximum: Option<i64>,
    pub minimum: Option<i64>,
    pub preset: Option<i64>,
}

#[derive(Clone, Copy, Debug, PartialEq, Eq, Structural)]
pub enum DbRecurringAggregateUsage {
    LastDuringPeriod,
    LastEver,
    Max,
    Sum,
}

#[derive(Clone, Copy, Debug, PartialEq, Eq, Structural)]
pub enum DbRecurringInterval {
    Day,
    Month,
    Week,
    Year,
}

#[derive(Clone, Copy, Debug, PartialEq, Eq, Structural)]
pub enum DbRecurringUsageType {
    Licensed,
    Metered,
}

#[derive(Clone, Copy, Debug, PartialEq, Eq, Structural)]
pub struct DbRecurring {
    pub aggregate_usage: Option<DbRecurringAggregateUsage>,
    pub interval: DbRecurringInterval,
    pub interval_count: u64,
    pub trial_period_days: Option<u32>,
    pub usage_type: DbRecurringUsageType,
}

#[derive(Clone, Copy, Debug, PartialEq, Eq, Structural)]
pub enum DbPriceType {
    OneTime,
    Recurring,
}

/// A price of the provider. `unit_amount` is in minor currency units.
#[derive(Clone, Debug)]
pub struct DbPrice {
    pub id: String,
    pub active: bool,
    pub billing_scheme: Option<DbPriceBillingScheme>,
    pub created: Option<i64>,
    pub custom_unit_amount: Option<DbCustomUnitAmount>,
    pub livemode: bool,
    pub lookup_key: Option<String>,
    pub nickname: Option<String>,
    pub product: Option<String>,
    pub recurring: Option<DbRecurring>,
    pub type_: Option<DbPriceType>,
    pub unit_amount: Option<i64>,
    pub unit_amount_decimal: Option<String>,
}

#[derive(Clone, Debug)]
pub struct DbProduct {
    pub id: String,
    pub active: bool,
    pub created: Option<i64>,
    pub default_price: Option<DbPrice>,
    pub description: Option<String>,
    pub images: Option<Vec<String>>,
    pub name: String,
    pub unit_label: Option<String>,
    pub updated: Option<i64>,
    pub url: Option<String>,
}

#[derive(Clone, Debug)]
pub struct DbAddress {
    pub city: Option<String>,
    pub country: Option<String>,
    pub line1: Option<String>,
    pub line2: Option<String>,
    pub postal_code: Option<String>,
    pub state: Option<String>,
}

#[derive(Clone, Debug)]
pub struct DbShipping {
    pub address: Option<DbAddress>,
    pub carrier: Option<String>,
    pub name: Option<String>,
    pub phone: Option<String>,
    pub tracking_number: Option<String>,
}

#[derive(Clone, Debug)]
pub struct DbCustomer {
    pub id: String,
    pub address: Option<DbAddress>,
    pub balance: Option<i64>,
    pub created: Option<i64>,
    pub description: Option<String>,
    pub email: Option<String>,
    pub livemode: bool,
    pub name: Option<String>,
    pub phone: Option<String>,
    pub shipping: Option<DbShipping>,
}

#[derive(Clone, Copy, Debug, PartialEq, Eq, Structural)]
pub enum DbCheckoutSessionStatus {
    Open,
    Expired,
    Complete,
}

#[derive(Clone, Copy, Debug, PartialEq, Eq, Structural)]
pub enum DbCheckoutSessionMode {
    Payment,
    Setup,
    Subscription,
}

#[derive(Clone, Copy, Debug, PartialEq, Eq, Structural)]
pub enum DbCheckoutSessionPaymentStatus {
    NoPaymentRequired,
    Paid,
    Unpaid,
}

/// One line of a checkout session: a price and how many of it.
#[derive(Clone, Debug)]
pub struct DbCheckoutSessionItem {
    pub id: String,
    pub amount_discount: i64,
    pub amount_subtotal: i64,
    pub amount_total: i64,
    pub description: String,
    pub price: Option<DbPrice>,
    pub quantity: Option<u64>,
}

#[derive(Clone, Debug)]
pub struct DbCheckoutSession {
    pub id: String,
    pub amount_subtotal: Option<i64>,
    pub amount_total: Option<i64>,
    pub cancel_url: Option<String>,
    pub created: Option<i64>,
    pub customer: Option<DbCustomer>,
    pub customer_email: Option<String>,
    pub expires_at: Option<i64>,
    pub line_items: Option<Vec<DbCheckoutSessionItem>>,
    pub livemode: bool,
    pub mode: DbCheckoutSessionMode,
    pub payment_status: DbCheckoutSessionPaymentStatus,
    pub status: Option<DbCheckoutSessionStatus>,
    pub success_url: Option<String>,
    pub url: Option<String>,
}

/// A point-in-time snapshot of the provider's data.
#[derive(Clone, Debug)]
pub struct StripeData {
    pub products: Vec<DbProduct>,
    pub customers: Vec<DbCustomer>,
    pub checkout_sessions: Vec<DbCheckoutSession>,
    pub default_shipping_rate_id: String,
    pub free_shipping_rate_id: String,
}

/// Index of the first product at or after `start` whose id is `id`, or -1.
pub open spec fn product_index_from(products: Seq<DbProduct>, id: Seq<char>, start: int) -> int
    decreases products.len() - start,
{
    if start < 0 || start >= products.len() {
        -1
    } else if products[start].id@ == id {
        start
    } else {
        product_index_from(products, id, start + 1)
    }
}

/// Index of the first product whose id is `id`, or -1 when there is none.
pub open spec fn product_index(products: Seq<DbProduct>, id: Seq<char>) -> int {
    product_index_from(products, id, 0)
}

/// The default price of the first product with id `id`, if there is one.
pub open spec fn default_price_of(products: Seq<DbProduct>, id: Seq<char>) -> Option<DbPrice> {
    let i = product_index(products, id);
    if i < 0 {
        None
    } else {
        products[i].default_price
    }
}

/// What one unit of product `id` contributes to a cart total: the amount of its
/// default price when that price exists, is active and has an amount; else 0.
pub open spec fn unit_price(products: Seq<DbProduct>, id: Seq<char>) -> int {
    match default_price_of(products, id) {
        Some(p) => if p.active {
            match p.unit_amount {
                Some(u) => u as int,
                None => 0,
            }
        } else {
            0
        },
        None => 0,
    }
}

/// The price id that product `id` resolves to, when it has a default price.
pub open spec fn price_id_of(products: Seq<DbProduct>, id: Seq<char>) -> Option<Seq<char>> {
    match default_price_of(products, id) {
        Some(p) => Some(p.id@),
        None => None,
    }
}

/// The price id that product `id` resolves to, when its default price is active.
pub open spec fn active_price_id_of(products: Seq<DbProduct>, id: Seq<char>) -> Option<Seq<char>> {
    match default_price_of(products, id) {
        Some(p) => if p.active {
            Some(p.id@)
        } else {
            None
        },
        None => None,
    }
}

pub proof fn lemma_product_index_from_range(products: Seq<DbProduct>, id: Seq<char>, start: int)
    ensures
        product_index_from(products, id, start) == -1 || (start <= product_index_from(products, id, start)
            < products.len() && products[product_index_from(products, id, start)].id@ == id),
    decreases products.len() - start,
{
    if 0 <= start < products.len() && products[start].id@ != id {
        lemma_product_index_from_range(products, id, start + 1);
    }
}

/// The index of the first product whose id is `id`.
pub fn find_product(products: &[DbProduct], id: &String) -> (r: Option<usize>)
    ensures
        match r {
            Some(i) => i as int == product_index(products@, id@) && i < products@.len(),
            None => product_index(products@, id@) == -1,
        },
{
    let mut i: usize = 0;
    while i < products.len()
        invariant
            i <= products@.len(),
            product_index_from(products@, id@, 0) == product_index_from(products@, id@, i as int),
        decreases products.len() - i,
    {
        if products[i].id == *id {
            return Some(i);
        }
        i = i + 1;
    }
    None
}

/// The default price of the first product whose id is `id`.
pub fn find_default_price<'a>(products: &'a [DbProduct], id: &String) -> (r: Option<&'a DbPrice>)
    ensures
        match r {
            Some(p) => default_price_of(products@, id@) == Some(*p),
            None => default_price_of(products@, id@).is_none(),
        },
{
    proof {
        lemma_product_index_from_range(products@, id@, 0);
    }
    match find_product(products, id) {
        Some(i) => match &products[i].default_price {
            Some(p) => Some(p),
            None => None,
        },
        None => None,
    }
}

} // verus!
