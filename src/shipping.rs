//! Picking the two shipping rates a snapshot names: the first paid
//! fixed-amount rate in the store currency, and the first free one. When the
//! provider has none of a kind, a rate of that kind is requested.
use vstd::prelude::*;

verus! {

/// The default paid shipping amount, in minor currency units.
pub const DEFAULT_SHIPPING_AMOUNT: i64 = 1000;

#[derive(Clone, Debug)]
pub struct DbShippingFixedAmount {
    pub amount: i64,
    pub currency: String,
}

#[derive(Clone, Debug)]
pub struct DbShippingRate {
    pub id: String,
    pub active: bool,
    pub fixed_amount: Option<DbShippingFixedAmount>,
}

/// A fixed-amount rate in `currency` that is free (`free`) or paid (not `free`).
pub open spec fn is_rate_of_kind(r: DbShippingRate, currency: Seq<char>, free: bool) -> bool {
    match r.fixed_amount {
        Some(f) => f.currency@ == currency && (if free {
            f.amount == 0
        } else {
            f.amount > 0
        }),
        None => false,
    }
}

/// Index of the first rate of the kind at or after `start`, or -1.
pub open spec fn rate_index_from(rates: Seq<DbShippingRate>, currency: Seq<char>, free: bool, start: int) -> int
    decreases rates.len() - start,
{
    if start < 0 || start >= rates.len() {
        -1
    } else if is_rate_of_kind(rates[start], currency, free) {
        start
    } else {
        rate_index_from(rates, currency, free, start + 1)
    }
}

/// The first free (`free`) or paid (not `free`) fixed-amount rate in `currency`.
pub fn find_shipping_rate(rates: &Vec<DbShippingRate>, currency: &String, free: bool) -> (r: Option<usize>)
    ensures
        match r {
            Some(i) => i as int == rate_index_from(rates@, currency@, free, 0) && i < rates@.len(),
            None => rate_index_from(rates@, currency@, free, 0) == -1,
        },
{
    let mut i: usize = 0;
    while i < rates.len()
        invariant
            i <= rates@.len(),
            rate_index_from(rates@, currency@, free, 0) == rate_index_from(rates@, currency@, free, i as int),
        decreases rates.len() - i,
    {
        let fits = match &rates[i].fixed_amount {
            Some(f) => f.currency == *currency && (if free {
                f.amount == 0
            } else {
                f.amount > 0
            }),
            None => false,
        };
        if fits {
            return Some(i);
        }
        i = i + 1;
    }
    None
}

/// A fixed-amount shipping rate to create at the provider.
#[derive(Clone, Debug)]
pub struct ShippingRateRequest {
    pub display_name: String,
    pub amount: i64,
    pub currency: String,
    pub minimum_days: u32,
    pub maximum_days: u32,
}

/// The rate to create when the provider has no free (`free`) or paid rate:
/// free ones cost 0, paid ones the default amount; both take 4 to 7 days.
pub fn shipping_rate_to_create(currency: &String, free: bool) -> (r: ShippingRateRequest)
    ensures
        r.amount == (if free {
            0
        } else {
            DEFAULT_SHIPPING_AMOUNT
        }),
        r.currency@ == currency@,
        r.minimum_days == 4,
        r.maximum_days == 7,
        r.display_name@ == (if free {
            "Free Created Shipping Rate"@
        } else {
            "Default Created Shipping Rate"@
        }),
{
    if free {
        ShippingRateRequest {
            display_name: String::from_str("Free Created Shipping Rate"),
            amount: 0,
            currency: currency.clone(),
            minimum_days: 4,
            maximum_days: 7,
        }
    } else {
        ShippingRateRequest {
            display_name: String::from_str("Default Created Shipping Rate"),
            amount: DEFAULT_SHIPPING_AMOUNT,
            currency: currency.clone(),
            minimum_days: 4,
            maximum_days: 7,
        }
    }
}

} // verus!
