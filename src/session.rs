//! Finding a remembered checkout session that is still open, and comparing a
//! cart with a session's line items in the space of price ids.
use vstd::prelude::*;
use crate::cart::{CartLine, ShoppingCart, line_view};
use crate::catalog::{
    DbCheckoutSession, DbCheckoutSessionItem, DbCheckoutSessionStatus, DbProduct, StripeData,
    find_default_price, price_id_of,
};

verus! {

pub open spec fn is_open_session(s: DbCheckoutSession, id: Seq<char>) -> bool {
    s.id@ == id && s.status == Some(DbCheckoutSessionStatus::Open)
}

/// Index of the first open session at or after `start` whose id is `id`, or -1.
pub open spec fn open_session_index_from(sessions: Seq<DbCheckoutSession>, id: Seq<char>, start: int) -> int
    decreases sessions.len() - start,
{
    if start < 0 || start >= sessions.len() {
        -1
    } else if is_open_session(sessions[start], id) {
        start
    } else {
        open_session_index_from(sessions, id, start + 1)
    }
}

/// Index of the first open session whose id is `id`, or -1.
pub open spec fn open_session_index(sessions: Seq<DbCheckoutSession>, id: Seq<char>) -> int {
    open_session_index_from(sessions, id, 0)
}

/// Some session with id `id` has status Open.
pub open spec fn has_open_session(sessions: Seq<DbCheckoutSession>, id: Seq<char>) -> bool {
    exists|i: int| 0 <= i < sessions.len() && is_open_session(#[trigger] sessions[i], id)
}

pub proof fn lemma_open_session_index_from(sessions: Seq<DbCheckoutSession>, id: Seq<char>, start: int)
    requires
        0 <= start <= sessions.len(),
    ensures
        open_session_index_from(sessions, id, start) == -1 <==> forall|i: int|
            start <= i < sessions.len() ==> !is_open_session(#[trigger] sessions[i], id),
        open_session_index_from(sessions, id, start) != -1 ==> start <= open_session_index_from(
            sessions,
            id,
            start,
        ) < sessions.len() && is_open_session(
            sessions[open_session_index_from(sessions, id, start)],
            id,
        ),
    decreases sessions.len() - start,
{
    if start < sessions.len() && !is_open_session(sessions[start], id) {
        lemma_open_session_index_from(sessions, id, start + 1);
    }
}

pub proof fn lemma_open_session_index(sessions: Seq<DbCheckoutSession>, id: Seq<char>)
    ensures
        open_session_index(sessions, id) == -1 <==> !has_open_session(sessions, id),
        open_session_index(sessions, id) != -1 ==> 0 <= open_session_index(sessions, id)
            < sessions.len() && is_open_session(sessions[open_session_index(sessions, id)], id),
{
    lemma_open_session_index_from(sessions, id, 0);
}

/// The index of the first session with id `id` whose status is Open.
pub fn find_open_session(sessions: &Vec<DbCheckoutSession>, id: &String) -> (r: Option<usize>)
    ensures
        match r {
            Some(i) => i as int == open_session_index(sessions@, id@) && i < sessions@.len(),
            None => open_session_index(sessions@, id@) == -1,
        },
{
    let mut i: usize = 0;
    while i < sessions.len()
        invariant
            i <= sessions@.len(),
            open_session_index_from(sessions@, id@, 0) == open_session_index_from(sessions@, id@, i as int),
        decreases sessions.len() - i,
    {
        let s = &sessions[i];
        let open = match s.status {
            Some(DbCheckoutSessionStatus::Open) => true,
            _ => false,
        };
        if open && s.id == *id {
            return Some(i);
        }
        i = i + 1;
    }
    None
}

/// Whether the snapshot knows a session with id `checkout_sessionid` that is
/// still open. Expired, complete, status-less and unknown sessions give false.
pub fn find_checkout_session_matches(checkout_sessionid: &String, stripe_data: &StripeData) -> (r: bool)
    ensures
        r == has_open_session(stripe_data.checkout_sessions@, checkout_sessionid@),
{
    proof {
        lemma_open_session_index(stripe_data.checkout_sessions@, checkout_sessionid@);
    }
    find_open_session(&stripe_data.checkout_sessions, checkout_sessionid).is_some()
}

/// The value of the last pair whose key is `k`.
pub open spec fn last_value(s: Seq<(Seq<char>, nat)>, k: Seq<char>) -> Option<nat>
    decreases s.len(),
{
    if s.len() == 0 {
        None
    } else if s.last().0 == k {
        Some(s.last().1)
    } else {
        last_value(s.drop_last(), k)
    }
}

/// The map that a list of pairs builds when later pairs overwrite earlier ones.
pub open spec fn pairs_map(s: Seq<(Seq<char>, nat)>) -> Map<Seq<char>, nat> {
    Map::new(|k: Seq<char>| last_value(s, k).is_some(), |k: Seq<char>| last_value(s, k).unwrap())
}

/// Price id and quantity of each cart line whose product has a default price.
pub open spec fn cart_price_pairs(cart: Seq<(Seq<char>, u8)>, products: Seq<DbProduct>) -> Seq<(Seq<char>, nat)>
    decreases cart.len(),
{
    if cart.len() == 0 {
        Seq::empty()
    } else {
        let rest = cart_price_pairs(cart.drop_last(), products);
        match price_id_of(products, cart.last().0) {
            Some(p) => rest.push((p, cart.last().1 as nat)),
            None => rest,
        }
    }
}

/// The quantity of a line item; a missing one counts as 0.
pub open spec fn item_quantity(item: DbCheckoutSessionItem) -> nat {
    match item.quantity {
        Some(q) => q as nat,
        None => 0,
    }
}

/// Price id and quantity of each line item that names a price.
pub open spec fn session_price_pairs(items: Seq<DbCheckoutSessionItem>) -> Seq<(Seq<char>, nat)>
    decreases items.len(),
{
    if items.len() == 0 {
        Seq::empty()
    } else {
        let rest = session_price_pairs(items.drop_last());
        match items.last().price {
            Some(p) => rest.push((p.id@, item_quantity(items.last()))),
            None => rest,
        }
    }
}

/// The cart and the line items give the same price-to-quantity map.
pub open spec fn cart_matches(
    cart: Seq<(Seq<char>, u8)>,
    items: Seq<DbCheckoutSessionItem>,
    products: Seq<DbProduct>,
) -> bool {
    pairs_map(cart_price_pairs(cart, products)) == pairs_map(session_price_pairs(items))
}

pub open spec fn pairs_view(v: Seq<(String, u64)>) -> Seq<(Seq<char>, nat)> {
    v.map_values(|p: (String, u64)| (p.0@, p.1 as nat))
}

proof fn lemma_last_value(s: Seq<(Seq<char>, nat)>, k: Seq<char>)
    ensures
        last_value(s, k).is_some() <==> exists|i: int| 0 <= i < s.len() && (#[trigger] s[i]).0 == k,
    decreases s.len(),
{
    if s.len() > 0 && s.last().0 != k {
        lemma_last_value(s.drop_last(), k);
        if last_value(s, k).is_none() {
            assert forall|i: int| 0 <= i < s.len() implies (#[trigger] s[i]).0 != k by {
                if i < s.len() - 1 {
                    assert(s.drop_last()[i] == s[i]);
                }
            }
        } else {
            let i = choose|i: int| 0 <= i < s.drop_last().len() && (#[trigger] s.drop_last()[i]).0 == k;
            assert(s[i] == s.drop_last()[i]);
        }
    } else if s.len() > 0 {
        assert(s[s.len() - 1].0 == k);
    }
}

/// The value of the last pair of `v` whose key is `k`.
fn find_last_value(v: &Vec<(String, u64)>, k: &String) -> (r: Option<u64>)
    ensures
        match r {
            Some(x) => last_value(pairs_view(v@), k@) == Some(x as nat),
            None => last_value(pairs_view(v@), k@).is_none(),
        },
{
    let ghost s = pairs_view(v@);
    let mut i: usize = v.len();
    assert(s.take(i as int) =~= s);
    while i > 0
        invariant
            i <= v@.len(),
            s == pairs_view(v@),
            last_value(s, k@) == last_value(s.take(i as int), k@),
        decreases i,
    {
        let ghost t = s.take(i as int);
        assert(t.drop_last() =~= s.take(i as int - 1));
        assert(t.last() == s[i as int - 1]);
        if v[i - 1].0 == *k {
            return Some(v[i - 1].1);
        }
        i = i - 1;
    }
    assert(s.take(0) =~= Seq::<(Seq<char>, nat)>::empty());
    None
}

/// Whether two lists of pairs build the same map.
fn same_pairs_map(a: &Vec<(String, u64)>, b: &Vec<(String, u64)>) -> (r: bool)
    ensures
        r == (pairs_map(pairs_view(a@)) == pairs_map(pairs_view(b@))),
{
    let ghost sa = pairs_view(a@);
    let ghost sb = pairs_view(b@);
    let mut i: usize = 0;
    while i < a.len()
        invariant
            i <= a@.len(),
            sa == pairs_view(a@),
            sb == pairs_view(b@),
            forall|j: int| 0 <= j < i ==> last_value(sa, (#[trigger] sa[j]).0) == last_value(sb, sa[j].0),
        decreases a.len() - i,
    {
        let va = find_last_value(a, &a[i].0);
        let vb = find_last_value(b, &a[i].0);
        assert(sa[i as int].0 == a@[i as int].0@);
        let same = match (va, vb) {
            (Some(x), Some(y)) => x == y,
            (None, None) => true,
            _ => false,
        };
        if !same {
            proof {
                let k = a@[i as int].0@;
                assert(pairs_map(sa).dom().contains(k) != pairs_map(sb).dom().contains(k)
                    || pairs_map(sa)[k] != pairs_map(sb)[k]);
            }
            return false;
        }
        i = i + 1;
    }
    let mut j: usize = 0;
    while j < b.len()
        invariant
            j <= b@.len(),
            sa == pairs_view(a@),
            sb == pairs_view(b@),
            forall|x: int| 0 <= x < a@.len() ==> last_value(sa, (#[trigger] sa[x]).0) == last_value(sb, sa[x].0),
            forall|x: int| 0 <= x < j ==> last_value(sa, (#[trigger] sb[x]).0).is_some(),
        decreases b.len() - j,
    {
        assert(sb[j as int].0 == b@[j as int].0@);
        if find_last_value(a, &b[j].0).is_none() {
            proof {
                let k = b@[j as int].0@;
                lemma_last_value(sb, k);
                assert(sb[j as int].0 == k);
                assert(pairs_map(sb).dom().contains(k));
                assert(!pairs_map(sa).dom().contains(k));
            }
            return false;
        }
        j = j + 1;
    }
    proof {
        assert forall|k: Seq<char>| last_value(sa, k) == last_value(sb, k) by {
            lemma_last_value(sa, k);
            lemma_last_value(sb, k);
            if last_value(sa, k).is_some() {
                let x = choose|x: int| 0 <= x < sa.len() && (#[trigger] sa[x]).0 == k;
                assert(last_value(sa, sa[x].0) == last_value(sb, sa[x].0));
            } else if last_value(sb, k).is_some() {
                let x = choose|x: int| 0 <= x < sb.len() && (#[trigger] sb[x]).0 == k;
                assert(last_value(sa, sb[x].0).is_some());
            }
        }
        assert(pairs_map(sa) =~= pairs_map(sb));
    }
    true
}

/// Price id and quantity of each cart line whose product has a default price.
fn cart_pairs(cart: &ShoppingCart, products: &[DbProduct]) -> (r: Vec<(String, u64)>)
    ensures
        pairs_view(r@) == cart_price_pairs(cart@, products@),
{
    let lines: &Vec<CartLine> = cart.lines();
    let ghost s = cart@;
    let mut r: Vec<(String, u64)> = Vec::new();
    let mut i: usize = 0;
    assert(s.take(0) =~= Seq::<(Seq<char>, u8)>::empty());
    assert(pairs_view(r@) =~= Seq::<(Seq<char>, nat)>::empty());
    while i < lines.len()
        invariant
            i <= lines@.len(),
            s == cart@,
            lines@.map_values(|l: CartLine| line_view(l)) == s,
            pairs_view(r@) == cart_price_pairs(s.take(i as int), products@),
        decreases lines.len() - i,
    {
        let line = &lines[i];
        proof {
            assert(s[i as int] == line_view(lines@[i as int]));
            assert(s.take(i as int + 1).drop_last() =~= s.take(i as int));
        }
        match find_default_price(products, &line.product_id) {
            Some(p) => {
                let ghost before = r@;
                r.push((p.id.clone(), line.quantity as u64));
                assert(pairs_view(r@) =~= pairs_view(before).push((p.id@, line.quantity as nat)));
            },
            None => {},
        }
        i = i + 1;
    }
    assert(s.take(i as int) =~= s);
    r
}

/// Price id and quantity of each line item that names a price.
fn item_pairs(items: &Vec<DbCheckoutSessionItem>) -> (r: Vec<(String, u64)>)
    ensures
        pairs_view(r@) == session_price_pairs(items@),
{
    let mut r: Vec<(String, u64)> = Vec::new();
    let mut i: usize = 0;
    assert(items@.take(0) =~= Seq::<DbCheckoutSessionItem>::empty());
    assert(pairs_view(r@) =~= Seq::<(Seq<char>, nat)>::empty());
    while i < items.len()
        invariant
            i <= items@.len(),
            pairs_view(r@) == session_price_pairs(items@.take(i as int)),
        decreases items.len() - i,
    {
        let item = &items[i];
        proof {
            assert(items@.take(i as int + 1).drop_last() =~= items@.take(i as int));
            assert(items@.take(i as int + 1).last() == items@[i as int]);
        }
        match &item.price {
            Some(p) => {
                let q: u64 = match item.quantity {
                    Some(q) => q,
                    None => 0,
                };
                let ghost before = r@;
                r.push((p.id.clone(), q));
                assert(pairs_view(r@) =~= pairs_view(before).push((p.id@, q as nat)));
            },
            None => {},
        }
        i = i + 1;
    }
    assert(items@.take(i as int) =~= items@);
    r
}

/// Whether the session's line items ask for exactly what the cart holds,
/// compared as maps from price id to quantity. The session must carry its
/// line items.
pub fn cart_matches_session(cart: &ShoppingCart, session: &DbCheckoutSession, stripe_data: &StripeData) -> (r: bool)
    requires
        session.line_items.is_some(),
    ensures
        r == cart_matches(cart@, session.line_items.unwrap()@, stripe_data.products@),
{
    let a = cart_pairs(cart, stripe_data.products.as_slice());
    match &session.line_items {
        Some(items) => {
            let b = item_pairs(items);
            same_pairs_map(&a, &b)
        },
        None => false,
    }
}

} // verus!
