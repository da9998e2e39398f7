//! Reconciling a cart with a remembered checkout session: reuse the session
//! when it is open and asks for exactly what the cart holds, else build the
//! request for a new one. Sending that request to the payment provider is the
//! caller's work; `finish_checkout_session` takes the provider's answer.
use vstd::prelude::*;
use crate::cart::{
    CartLine, ITEM_QUANTITY_LIMIT, ShoppingCart, line_view, total_fits, total_price_of,
};
use crate::catalog::{
    DbCheckoutSession, DbCheckoutSessionItem, DbCheckoutSessionStatus, DbProduct, StripeData,
    active_price_id_of, find_default_price,
};
use crate::session::{
    cart_matches, cart_matches_session, cart_price_pairs, find_open_session, has_open_session,
    lemma_open_session_index, open_session_index, session_price_pairs,
};

verus! {

/// A cart total, in minor currency units, from which shipping is free.
pub const FREE_SHIPPING_THRESHOLD: i64 = 30000;

/// The settings a new checkout session is created with.
#[derive(Clone, Debug)]
pub struct CheckoutPolicy {
    pub currency: String,
    pub free_shipping_threshold: i64,
    pub item_quantity_limit: u8,
    pub cancel_url: String,
    pub success_url: String,
}

impl CheckoutPolicy {
    /// A policy with the storefront's threshold and per-item limit.
    pub fn new(currency: String, cancel_url: String, success_url: String) -> (r: CheckoutPolicy)
        ensures
            r.currency == currency,
            r.cancel_url == cancel_url,
            r.success_url == success_url,
            r.free_shipping_threshold == FREE_SHIPPING_THRESHOLD,
            r.item_quantity_limit == ITEM_QUANTITY_LIMIT,
    {
        CheckoutPolicy {
            currency,
            free_shipping_threshold: FREE_SHIPPING_THRESHOLD,
            item_quantity_limit: ITEM_QUANTITY_LIMIT,
            cancel_url,
            success_url,
        }
    }
}

/// A line of a session-creation request; the customer may adjust the
/// quantity between `minimum_quantity` and `maximum_quantity`.
#[derive(Clone, Debug)]
pub struct CheckoutLineItem {
    pub price_id: String,
    pub quantity: u64,
    pub minimum_quantity: u64,
    pub maximum_quantity: u64,
}

pub open spec fn line_item_view(l: CheckoutLineItem) -> (Seq<char>, u64, u64, u64) {
    (l.price_id@, l.quantity, l.minimum_quantity, l.maximum_quantity)
}

/// What is sent to the provider to open a new hosted checkout session.
#[derive(Clone, Debug)]
pub struct CheckoutSessionRequest {
    pub currency: String,
    pub line_items: Vec<CheckoutLineItem>,
    pub shipping_rate_id: String,
    pub billing_address_required: bool,
    pub phone_number_collection: bool,
    pub cancel_url: String,
    pub success_url: String,
}

pub struct RequestView {
    pub currency: Seq<char>,
    pub line_items: Seq<(Seq<char>, u64, u64, u64)>,
    pub shipping_rate_id: Seq<char>,
    pub billing_address_required: bool,
    pub phone_number_collection: bool,
    pub cancel_url: Seq<char>,
    pub success_url: Seq<char>,
}

impl View for CheckoutSessionRequest {
    type V = RequestView;

    open spec fn view(&self) -> RequestView {
        RequestView {
            currency: self.currency@,
            line_items: self.line_items@.map_values(|l: CheckoutLineItem| line_item_view(l)),
            shipping_rate_id: self.shipping_rate_id@,
            billing_address_required: self.billing_address_required,
            phone_number_collection: self.phone_number_collection,
            cancel_url: self.cancel_url@,
            success_url: self.success_url@,
        }
    }
}

/// What reconciliation decided.
pub enum CheckoutStep {
    /// Reuse the session at this index of the snapshot's checkout sessions.
    Reuse(usize),
    /// Ask the provider for a new session.
    Create(CheckoutSessionRequest),
}

/// Why a session could not be created.
#[derive(Clone, Debug)]
pub enum CreationFailure {
    /// This cart product has no active default price in the snapshot.
    UnpricedProduct(String),
    /// The provider refused the request, with its message.
    Rejected(String),
}

#[derive(Clone, Debug)]
pub enum CheckoutError {
    /// Checkout was asked for an empty cart.
    EmptyCart,
    CheckoutCreation(CreationFailure),
    /// The open session with this id carries no line items.
    InvariantViolation(String),
    /// The provider could not be reached; its message, unchanged.
    Transport(String),
}

/// How a call to the provider for a new session failed.
#[derive(Clone, Debug)]
pub enum ProviderError {
    Rejected(String),
    Transport(String),
}

/// A session the provider created, and the request to resync the snapshot so
/// that later lookups see it.
pub struct CreatedSession {
    pub session: DbCheckoutSession,
    pub resync_requested: bool,
}

/// The outcome of reconciliation, over plain values.
pub enum ReconcileView {
    Reuse(int),
    Create(RequestView),
    EmptyCart,
    Unpriced(Seq<char>),
    InvariantViolation(Seq<char>),
    /// A provider failure, which reconciliation itself never reports.
    ProviderFailure,
}

pub open spec fn reconcile_result_view(r: Result<CheckoutStep, CheckoutError>) -> ReconcileView {
    match r {
        Ok(CheckoutStep::Reuse(i)) => ReconcileView::Reuse(i as int),
        Ok(CheckoutStep::Create(req)) => ReconcileView::Create(req@),
        Err(CheckoutError::EmptyCart) => ReconcileView::EmptyCart,
        Err(CheckoutError::CheckoutCreation(CreationFailure::UnpricedProduct(p))) => ReconcileView::Unpriced(p@),
        Err(CheckoutError::InvariantViolation(id)) => ReconcileView::InvariantViolation(id@),
        Err(_) => ReconcileView::ProviderFailure,
    }
}

/// The shipping rate for a cart total: the paid rate below the threshold,
/// the free rate from it on.
pub open spec fn shipping_rate_for(total: int, data: StripeData, policy: CheckoutPolicy) -> Seq<char> {
    if total < policy.free_shipping_threshold {
        data.default_shipping_rate_id@
    } else {
        data.free_shipping_rate_id@
    }
}

/// The first cart product, from line `start` on, without an active default price.
pub open spec fn first_unpriced_from(cart: Seq<(Seq<char>, u8)>, products: Seq<DbProduct>, start: int) -> Option<Seq<char>>
    decreases cart.len() - start,
{
    if start < 0 || start >= cart.len() {
        None
    } else if active_price_id_of(products, cart[start].0).is_none() {
        Some(cart[start].0)
    } else {
        first_unpriced_from(cart, products, start + 1)
    }
}

/// One request line per cart line, in cart order, with the active price id,
/// the cart quantity and the adjustable range from 1 to `limit`.
pub open spec fn request_line_items(cart: Seq<(Seq<char>, u8)>, products: Seq<DbProduct>, limit: u8) -> Seq<(Seq<char>, u64, u64, u64)> {
    cart.map_values(
        |l: (Seq<char>, u8)| (active_price_id_of(products, l.0).unwrap(), l.1 as u64, 1u64, limit as u64),
    )
}

pub open spec fn new_session_request(cart: Seq<(Seq<char>, u8)>, data: StripeData, policy: CheckoutPolicy) -> RequestView {
    RequestView {
        currency: policy.currency@,
        line_items: request_line_items(cart, data.products@, policy.item_quantity_limit),
        shipping_rate_id: shipping_rate_for(total_price_of(cart, data.products@), data, policy),
        billing_address_required: true,
        phone_number_collection: true,
        cancel_url: policy.cancel_url@,
        success_url: policy.success_url@,
    }
}

/// The decision for a cart and a remembered session id: an empty cart is
/// refused; an open remembered session without line items is an invariant
/// violation; one whose items match the cart is reused; otherwise a new
/// session is requested, unless a cart product has no active price.
pub open spec fn reconcile(cart: Seq<(Seq<char>, u8)>, id: Seq<char>, data: StripeData, policy: CheckoutPolicy) -> ReconcileView {
    let sessions = data.checkout_sessions@;
    let i = open_session_index(sessions, id);
    if cart.len() == 0 {
        ReconcileView::EmptyCart
    } else if i >= 0 && sessions[i].line_items.is_none() {
        ReconcileView::InvariantViolation(id)
    } else if i >= 0 && cart_matches(cart, sessions[i].line_items.unwrap()@, data.products@) {
        ReconcileView::Reuse(i)
    } else {
        match first_unpriced_from(cart, data.products@, 0) {
            Some(p) => ReconcileView::Unpriced(p),
            None => ReconcileView::Create(new_session_request(cart, data, policy)),
        }
    }
}

/// The shipping rate id for a cart total.
pub fn select_shipping_rate(total: i64, stripe_data: &StripeData, policy: &CheckoutPolicy) -> (r: String)
    ensures
        r@ == shipping_rate_for(total as int, *stripe_data, *policy),
{
    if total < policy.free_shipping_threshold {
        stripe_data.default_shipping_rate_id.clone()
    } else {
        stripe_data.free_shipping_rate_id.clone()
    }
}

/// One request line per cart line, or the first product without an active
/// default price.
fn build_line_items(cart: &ShoppingCart, products: &[DbProduct], limit: u8) -> (r: Result<Vec<CheckoutLineItem>, String>)
    ensures
        match r {
            Ok(items) => first_unpriced_from(cart@, products@, 0).is_none()
                && items@.map_values(|l: CheckoutLineItem| line_item_view(l))
                == request_line_items(cart@, products@, limit),
            Err(p) => first_unpriced_from(cart@, products@, 0) == Some(p@),
        },
{
    let lines: &Vec<CartLine> = cart.lines();
    let ghost s = cart@;
    let ghost want = request_line_items(s, products@, limit);
    let mut items: Vec<CheckoutLineItem> = Vec::new();
    let mut i: usize = 0;
    while i < lines.len()
        invariant
            i <= lines@.len(),
            s == cart@,
            want == request_line_items(s, products@, limit),
            lines@.map_values(|l: CartLine| line_view(l)) == s,
            first_unpriced_from(s, products@, 0) == first_unpriced_from(s, products@, i as int),
            items@.map_values(|l: CheckoutLineItem| line_item_view(l)) == want.take(i as int),
        decreases lines.len() - i,
    {
        let line = &lines[i];
        assert(s[i as int] == line_view(lines@[i as int]));
        let price_id = match find_default_price(products, &line.product_id) {
            Some(p) => if p.active {
                Some(p.id.clone())
            } else {
                None
            },
            None => None,
        };
        assert(match price_id {
            Some(pid) => active_price_id_of(products@, s[i as int].0) == Some(pid@),
            None => active_price_id_of(products@, s[i as int].0).is_none(),
        });
        match price_id {
            Some(price_id) => {
                let ghost before = items@;
                items.push(
                    CheckoutLineItem {
                        price_id,
                        quantity: line.quantity as u64,
                        minimum_quantity: 1,
                        maximum_quantity: limit as u64,
                    },
                );
                proof {
                    let v = |l: CheckoutLineItem| line_item_view(l);
                    assert(s.len() == lines@.len());
                    assert(want.len() == s.len());
                    assert(before.map_values(v).len() == i);
                    assert(items@.len() == i + 1);
                    assert(items@[i as int].price_id@ == active_price_id_of(products@, s[i as int].0).unwrap());
                    assert(want[i as int] == line_item_view(items@[i as int]));
                    assert(items@.map_values(v) =~= before.map_values(v).push(want[i as int]));
                    assert(want.take(i as int + 1) =~= want.take(i as int).push(want[i as int]));
                }
            },
            None => {
                return Err(line.product_id.clone());
            },
        }
        i = i + 1;
    }
    assert(want.take(i as int) =~= want);
    Ok(items)
}

/// Decides, for a cart and the session id the client remembers, whether the
/// remembered session is reused or a new one is requested, reading only the
/// given snapshot. No provider call is made here.
pub fn new_checkout_session(
    shopping_cart: &ShoppingCart,
    checkout_sessionid: &String,
    stripe_data: &StripeData,
    policy: &CheckoutPolicy,
) -> (r: Result<CheckoutStep, CheckoutError>)
    requires
        total_fits(shopping_cart@, stripe_data.products@),
    ensures
        reconcile_result_view(r) == reconcile(shopping_cart@, checkout_sessionid@, *stripe_data, *policy),
{
    if shopping_cart.is_empty() {
        return Err(CheckoutError::EmptyCart);
    }
    match find_open_session(&stripe_data.checkout_sessions, checkout_sessionid) {
        Some(i) => {
            let session = &stripe_data.checkout_sessions[i];
            if session.line_items.is_none() {
                return Err(CheckoutError::InvariantViolation(checkout_sessionid.clone()));
            }
            if cart_matches_session(shopping_cart, session, stripe_data) {
                return Ok(CheckoutStep::Reuse(i));
            }
        },
        None => {},
    }
    let total = shopping_cart.calculate_total_price(stripe_data.products.as_slice());
    let shipping_rate_id = select_shipping_rate(total, stripe_data, policy);
    match build_line_items(shopping_cart, stripe_data.products.as_slice(), policy.item_quantity_limit) {
        Ok(line_items) => {
            let req = CheckoutSessionRequest {
                currency: policy.currency.clone(),
                line_items,
                shipping_rate_id,
                billing_address_required: true,
                phone_number_collection: true,
                cancel_url: policy.cancel_url.clone(),
                success_url: policy.success_url.clone(),
            };
            Ok(CheckoutStep::Create(req))
        },
        Err(p) => Err(CheckoutError::CheckoutCreation(CreationFailure::UnpricedProduct(p))),
    }
}

/// Takes the provider's answer to a creation request: a created session is
/// returned with a resync request; a refusal becomes a creation error; a
/// transport failure is passed on unchanged.
pub fn finish_checkout_session(created: Result<DbCheckoutSession, ProviderError>) -> (r: Result<CreatedSession, CheckoutError>)
    ensures
        match (created, r) {
            (Ok(s), Ok(c)) => c.session == s && c.resync_requested,
            (Err(ProviderError::Rejected(m)), Err(CheckoutError::CheckoutCreation(CreationFailure::Rejected(n)))) => m == n,
            (Err(ProviderError::Transport(m)), Err(CheckoutError::Transport(n))) => m == n,
            _ => false,
        },
{
    match created {
        Ok(session) => Ok(CreatedSession { session, resync_requested: true }),
        Err(ProviderError::Rejected(m)) => Err(CheckoutError::CheckoutCreation(CreationFailure::Rejected(m))),
        Err(ProviderError::Transport(m)) => Err(CheckoutError::Transport(m)),
    }
}

/// Where to send the customer after checkout was started: the session's
/// hosted page, or the cancel page when the session has no url.
pub fn redirect_to_url(session: &DbCheckoutSession) -> (r: String)
    ensures
        r@ == match session.url {
            Some(u) => u@,
            None => "/cancel"@,
        },
{
    match &session.url {
        Some(u) => u.clone(),
        None => String::from_str("/cancel"),
    }
}

proof fn lemma_first_unpriced_from(cart: Seq<(Seq<char>, u8)>, products: Seq<DbProduct>, start: int)
    requires
        0 <= start <= cart.len(),
        first_unpriced_from(cart, products, start).is_none(),
    ensures
        forall|i: int| start <= i < cart.len() ==> active_price_id_of(products, (#[trigger] cart[i]).0).is_some(),
    decreases cart.len() - start,
{
    if start < cart.len() {
        lemma_first_unpriced_from(cart, products, start + 1);
    }
}

proof fn lemma_own_items_pairs(cart: Seq<(Seq<char>, u8)>, products: Seq<DbProduct>, items: Seq<DbCheckoutSessionItem>)
    requires
        items.len() == cart.len(),
        forall|i: int|
            0 <= i < cart.len() ==> {
                &&& active_price_id_of(products, (#[trigger] cart[i]).0).is_some()
                &&& items[i].price.is_some()
                &&& items[i].price.unwrap().id@ == active_price_id_of(products, cart[i].0).unwrap()
                &&& items[i].quantity == Some(cart[i].1 as u64)
            },
    ensures
        session_price_pairs(items) == cart_price_pairs(cart, products),
    decreases cart.len(),
{
    if cart.len() > 0 {
        let c = cart.drop_last();
        let t = items.drop_last();
        assert forall|i: int| 0 <= i < c.len() implies {
            &&& active_price_id_of(products, (#[trigger] c[i]).0).is_some()
            &&& t[i].price.is_some()
            &&& t[i].price.unwrap().id@ == active_price_id_of(products, c[i].0).unwrap()
            &&& t[i].quantity == Some(c[i].1 as u64)
        } by {
            assert(c[i] == cart[i] && t[i] == items[i]);
        }
        lemma_own_items_pairs(c, products, t);
        let n = cart.len() - 1;
        assert(cart[n] == cart.last() && items[n] == items.last());
    }
}

/// A session whose line items carry exactly the price ids and quantities of
/// the creation request for a cart matches that cart.
pub proof fn lemma_cart_matches_own_items(
    cart: Seq<(Seq<char>, u8)>,
    products: Seq<DbProduct>,
    items: Seq<DbCheckoutSessionItem>,
    limit: u8,
)
    requires
        first_unpriced_from(cart, products, 0).is_none(),
        items.len() == cart.len(),
        forall|i: int|
            0 <= i < items.len() ==> {
                &&& (#[trigger] items[i]).price.is_some()
                &&& items[i].price.unwrap().id@ == request_line_items(cart, products, limit)[i].0
                &&& items[i].quantity == Some(request_line_items(cart, products, limit)[i].1)
            },
    ensures
        cart_matches(cart, items, products),
{
    lemma_first_unpriced_from(cart, products, 0);
    assert forall|i: int| 0 <= i < cart.len() implies {
        &&& active_price_id_of(products, (#[trigger] cart[i]).0).is_some()
        &&& items[i].price.is_some()
        &&& items[i].price.unwrap().id@ == active_price_id_of(products, cart[i].0).unwrap()
        &&& items[i].quantity == Some(cart[i].1 as u64)
    } by {
        assert(items[i].price.is_some());
    }
    lemma_own_items_pairs(cart, products, items);
}

/// An empty cart is refused before anything else is looked at, and no
/// session request comes out of it.
pub proof fn lemma_empty_cart_refused(id: Seq<char>, data: StripeData, policy: CheckoutPolicy)
    ensures
        reconcile(Seq::<(Seq<char>, u8)>::empty(), id, data, policy) == ReconcileView::EmptyCart,
{
}

/// A remembered id whose sessions are all complete or expired is treated
/// as an id that no session has.
pub proof fn lemma_closed_session_is_unknown(
    cart: Seq<(Seq<char>, u8)>,
    id: Seq<char>,
    unknown: Seq<char>,
    data: StripeData,
    policy: CheckoutPolicy,
)
    requires
        forall|i: int|
            0 <= i < data.checkout_sessions@.len() && (#[trigger] data.checkout_sessions@[i]).id@ == id
                ==> data.checkout_sessions@[i].status == Some(DbCheckoutSessionStatus::Complete)
                || data.checkout_sessions@[i].status == Some(DbCheckoutSessionStatus::Expired),
        forall|i: int|
            0 <= i < data.checkout_sessions@.len() ==> (#[trigger] data.checkout_sessions@[i]).id@ != unknown,
    ensures
        reconcile(cart, id, data, policy) == reconcile(cart, unknown, data, policy),
        open_session_index(data.checkout_sessions@, id) == -1,
{
    let sessions = data.checkout_sessions@;
    lemma_open_session_index(sessions, id);
    lemma_open_session_index(sessions, unknown);
    assert(!has_open_session(sessions, id));
    assert(!has_open_session(sessions, unknown));
}

/// Once the session created for a cart's request is open in the snapshot and
/// is the first open one under the remembered id, reconciling the same cart
/// again reuses it instead of asking for another.
pub proof fn lemma_created_session_is_reused(
    cart: Seq<(Seq<char>, u8)>,
    id: Seq<char>,
    data: StripeData,
    policy: CheckoutPolicy,
)
    requires
        cart.len() > 0,
        first_unpriced_from(cart, data.products@, 0).is_none(),
        open_session_index(data.checkout_sessions@, id) >= 0,
        data.checkout_sessions@[open_session_index(data.checkout_sessions@, id)].line_items matches Some(items) && {
            let want = request_line_items(cart, data.products@, policy.item_quantity_limit);
            &&& items@.len() == cart.len()
            &&& forall|i: int|
                0 <= i < items@.len() ==> {
                    &&& (#[trigger] items@[i]).price.is_some()
                    &&& items@[i].price.unwrap().id@ == want[i].0
                    &&& items@[i].quantity == Some(want[i].1)
                }
        },
    ensures
        reconcile(cart, id, data, policy) == ReconcileView::Reuse(open_session_index(data.checkout_sessions@, id)),
{
    let i = open_session_index(data.checkout_sessions@, id);
    let items = data.checkout_sessions@[i].line_items.unwrap()@;
    lemma_cart_matches_own_items(cart, data.products@, items, policy.item_quantity_limit);
}

} // verus!
