//! The shopping cart: a mapping from product id to a positive quantity, kept as
//! a list of lines with distinct product ids in the order they were first added.
use vstd::prelude::*;
use crate::catalog::{DbProduct, find_default_price, lemma_product_index_from_range, unit_price};

verus! {

/// The largest quantity of one product that the storefront lets a cart hold.
pub const ITEM_QUANTITY_LIMIT: u8 = 20;

#[derive(Clone, Debug)]
pub struct CartLine {
    pub product_id: String,
    pub quantity: u8,
}

pub open spec fn line_view(l: CartLine) -> (Seq<char>, u8) {
    (l.product_id@, l.quantity)
}

/// A cart whose lines have distinct product ids and positive quantities.
pub struct ShoppingCart {
    lines: Vec<CartLine>,
}

impl View for ShoppingCart {
    type V = Seq<(Seq<char>, u8)>;

    closed spec fn view(&self) -> Seq<(Seq<char>, u8)> {
        self.lines@.map_values(|l: CartLine| line_view(l))
    }
}

/// Distinct product ids, and no line with quantity 0.
pub open spec fn lines_wf(s: Seq<(Seq<char>, u8)>) -> bool {
    &&& forall|i: int, j: int| 0 <= i < s.len() && 0 <= j < s.len() && i != j ==> s[i].0 != s[j].0
    &&& forall|i: int| 0 <= i < s.len() ==> s[i].1 > 0
}

/// Index of the line for product `k`, or -1.
pub open spec fn find_line(s: Seq<(Seq<char>, u8)>, k: Seq<char>) -> int
    decreases s.len(),
{
    if s.len() == 0 {
        -1
    } else if s.last().0 == k {
        s.len() - 1
    } else {
        find_line(s.drop_last(), k)
    }
}

/// The quantity of product `k` in the cart; 0 when it has no line.
pub open spec fn quantity_of(s: Seq<(Seq<char>, u8)>, k: Seq<char>) -> nat {
    let i = find_line(s, k);
    if i < 0 {
        0
    } else {
        s[i].1 as nat
    }
}

/// The cart after adding one unit of `k`, capped at `limit` for a product
/// already present; a new product always enters with quantity 1.
pub open spec fn cart_add(s: Seq<(Seq<char>, u8)>, k: Seq<char>, limit: u8) -> Seq<(Seq<char>, u8)> {
    let i = find_line(s, k);
    if i < 0 {
        s.push((k, 1u8))
    } else if s[i].1 < limit {
        s.update(i, (k, (s[i].1 + 1) as u8))
    } else {
        s
    }
}

/// The cart after taking one unit of `k` away; a line reaching 0 is deleted.
pub open spec fn cart_remove(s: Seq<(Seq<char>, u8)>, k: Seq<char>) -> Seq<(Seq<char>, u8)> {
    let i = find_line(s, k);
    if i < 0 {
        s
    } else if s[i].1 > 1 {
        s.update(i, (k, (s[i].1 - 1) as u8))
    } else {
        s.remove(i)
    }
}

/// The cart without the line of `k`.
pub open spec fn cart_delete(s: Seq<(Seq<char>, u8)>, k: Seq<char>) -> Seq<(Seq<char>, u8)> {
    let i = find_line(s, k);
    if i < 0 {
        s
    } else {
        s.remove(i)
    }
}

/// The sum of all quantities.
pub open spec fn total_quantity_of(s: Seq<(Seq<char>, u8)>) -> int
    decreases s.len(),
{
    if s.len() == 0 {
        0
    } else {
        total_quantity_of(s.drop_last()) + s.last().1
    }
}

/// The sum over the lines of unit price times quantity, in minor units.
pub open spec fn total_price_of(s: Seq<(Seq<char>, u8)>, products: Seq<DbProduct>) -> int
    decreases s.len(),
{
    if s.len() == 0 {
        0
    } else {
        total_price_of(s.drop_last(), products) + unit_price(products, s.last().0) * s.last().1
    }
}

/// Every partial sum of the total, line by line, fits in an `i64`.
pub open spec fn total_fits(s: Seq<(Seq<char>, u8)>, products: Seq<DbProduct>) -> bool {
    forall|n: int|
        0 <= n <= s.len() ==> i64::MIN <= #[trigger] total_price_of(s.take(n), products) <= i64::MAX
}

pub proof fn lemma_find_line(s: Seq<(Seq<char>, u8)>, k: Seq<char>)
    ensures
        find_line(s, k) == -1 <==> forall|i: int| 0 <= i < s.len() ==> s[i].0 != k,
        find_line(s, k) != -1 ==> 0 <= find_line(s, k) < s.len() && s[find_line(s, k)].0 == k,
    decreases s.len(),
{
    if s.len() > 0 && s.last().0 != k {
        lemma_find_line(s.drop_last(), k);
        if find_line(s, k) == -1 {
            assert forall|i: int| 0 <= i < s.len() implies s[i].0 != k by {
                if i < s.len() - 1 {
                    assert(s.drop_last()[i] == s[i]);
                }
            }
        }
    }
}

/// In a well-formed cart the line of `k` is the one whose id is `k`.
pub proof fn lemma_find_line_unique(s: Seq<(Seq<char>, u8)>, k: Seq<char>, i: int)
    requires
        lines_wf(s),
        0 <= i < s.len(),
        s[i].0 == k,
    ensures
        find_line(s, k) == i,
{
    lemma_find_line(s, k);
}

impl ShoppingCart {
    pub open spec fn wf(&self) -> bool {
        lines_wf(self@)
    }

    /// An empty cart.
    pub fn new() -> (r: ShoppingCart)
        ensures
            r.wf(),
            r@ == Seq::<(Seq<char>, u8)>::empty(),
    {
        let r = ShoppingCart { lines: Vec::new() };
        assert(r@ =~= Seq::<(Seq<char>, u8)>::empty());
        r
    }

    /// The lines of the cart.
    pub fn lines(&self) -> (r: &Vec<CartLine>)
        ensures
            r@.map_values(|l: CartLine| line_view(l)) == self@,
    {
        &self.lines
    }

    pub fn len(&self) -> (r: usize)
        ensures
            r == self@.len(),
    {
        self.lines.len()
    }

    pub fn is_empty(&self) -> (r: bool)
        ensures
            r == (self@.len() == 0),
    {
        self.lines.len() == 0
    }

    /// Index of the line of `product_id`.
    fn find_index(&self, product_id: &String) -> (r: Option<usize>)
        requires
            self.wf(),
        ensures
            match r {
                Some(i) => i as int == find_line(self@, product_id@) && i < self@.len(),
                None => find_line(self@, product_id@) == -1,
            },
    {
        let mut i: usize = 0;
        while i < self.lines.len()
            invariant
                self.wf(),
                i <= self@.len(),
                forall|j: int| 0 <= j < i ==> self@[j].0 != product_id@,
            decreases self.lines.len() - i,
        {
            assert(self@[i as int] == line_view(self.lines@[i as int]));
            if self.lines[i].product_id == *product_id {
                proof {
                    lemma_find_line_unique(self@, product_id@, i as int);
                }
                return Some(i);
            }
            i = i + 1;
        }
        proof {
            lemma_find_line(self@, product_id@);
        }
        None
    }

    /// The quantity of `product_id` in the cart, 0 when absent.
    pub fn quantity(&self, product_id: &String) -> (r: u8)
        requires
            self.wf(),
        ensures
            r as nat == quantity_of(self@, product_id@),
    {
        match self.find_index(product_id) {
            Some(i) => {
                assert(self@[i as int] == line_view(self.lines@[i as int]));
                self.lines[i].quantity
            },
            None => 0,
        }
    }

    /// Adds one unit of `product_id`: a new product enters with quantity 1; a
    /// present one grows by 1 while below `add_limit` and is left as it is at it.
    pub fn add_single_product(&mut self, product_id: &String, add_limit: u8)
        requires
            old(self).wf(),
        ensures
            final(self).wf(),
            final(self)@ == cart_add(old(self)@, product_id@, add_limit),
    {
        let ghost s = self@;
        match self.find_index(product_id) {
            Some(i) => {
                let q = self.lines[i].quantity;
                assert(s[i as int] == line_view(self.lines@[i as int]));
                if q < add_limit {
                    proof {
                        lemma_find_line(s, product_id@);
                    }
                    self.lines.set(i, CartLine { product_id: product_id.clone(), quantity: q + 1 });
                    assert(self@ =~= s.update(i as int, (product_id@, (q + 1) as u8)));
                }
            },
            None => {
                proof {
                    lemma_find_line(s, product_id@);
                }
                self.lines.push(CartLine { product_id: product_id.clone(), quantity: 1 });
                assert(self@ =~= s.push((product_id@, 1u8)));
            },
        }
    }

    /// Takes one unit of `product_id` away; the line is deleted when its
    /// quantity would reach 0; nothing happens when the product is absent.
    pub fn remove_single_product(&mut self, product_id: &String)
        requires
            old(self).wf(),
        ensures
            final(self).wf(),
            final(self)@ == cart_remove(old(self)@, product_id@),
    {
        let ghost s = self@;
        match self.find_index(product_id) {
            Some(i) => {
                let q = self.lines[i].quantity;
                assert(s[i as int] == line_view(self.lines@[i as int]));
                proof {
                    lemma_find_line(s, product_id@);
                }
                if q > 1 {
                    self.lines.set(i, CartLine { product_id: product_id.clone(), quantity: q - 1 });
                    assert(self@ =~= s.update(i as int, (product_id@, (q - 1) as u8)));
                } else {
                    self.lines.remove(i);
                    assert(self@ =~= s.remove(i as int));
                }
            },
            None => {},
        }
    }

    /// Deletes the line of `product_id`, whatever its quantity.
    pub fn delete_product(&mut self, product_id: String)
        requires
            old(self).wf(),
        ensures
            final(self).wf(),
            final(self)@ == cart_delete(old(self)@, product_id@),
    {
        let ghost s = self@;
        match self.find_index(&product_id) {
            Some(i) => {
                self.lines.remove(i);
                assert(self@ =~= s.remove(i as int));
            },
            None => {},
        }
    }

    /// Empties the cart.
    pub fn clear(&mut self)
        ensures
            final(self).wf(),
            final(self)@ == Seq::<(Seq<char>, u8)>::empty(),
    {
        self.lines = Vec::new();
        assert(self@ =~= Seq::<(Seq<char>, u8)>::empty());
    }
}

impl ShoppingCart {
    /// The sum of all quantities.
    pub fn total_quantity(self) -> (r: u64)
        requires
            self.wf(),
            total_quantity_of(self@) <= u64::MAX,
        ensures
            r as int == total_quantity_of(self@),
    {
        let mut total: u64 = 0;
        let mut i: usize = 0;
        while i < self.lines.len()
            invariant
                i <= self@.len(),
                total as int == total_quantity_of(self@.take(i as int)),
                total_quantity_of(self@) <= u64::MAX,
            decreases self.lines.len() - i,
        {
            proof {
                lemma_total_quantity_prefix(self@, i as int + 1);
                assert(self@.take(i as int + 1).drop_last() =~= self@.take(i as int));
                assert(self@[i as int] == line_view(self.lines@[i as int]));
            }
            total = total + self.lines[i].quantity as u64;
            i = i + 1;
        }
        assert(self@.take(i as int) =~= self@);
        total
    }

    /// The cart's total in minor currency units, or `None` when a partial sum
    /// leaves the range of `i64`. A product missing from `products`, or whose
    /// default price is absent, inactive or without an amount, adds nothing.
    pub fn checked_total_price(&self, products: &[DbProduct]) -> (r: Option<i64>)
        ensures
            r.is_some() <==> total_fits(self@, products@),
            r.is_some() ==> r.unwrap() as int == total_price_of(self@, products@),
    {
        let mut total: i64 = 0;
        let mut i: usize = 0;
        assert(self@.take(0) =~= Seq::<(Seq<char>, u8)>::empty());
        while i < self.lines.len()
            invariant
                i <= self@.len(),
                total as int == total_price_of(self@.take(i as int), products@),
                forall|n: int|
                    0 <= n <= i ==> i64::MIN <= #[trigger] total_price_of(self@.take(n), products@)
                        <= i64::MAX,
            decreases self.lines.len() - i,
        {
            let line = &self.lines[i];
            let ghost k = line.product_id@;
            let mut term: i128 = 0;
            match find_default_price(products, &line.product_id) {
                Some(p) => {
                    if p.active {
                        match p.unit_amount {
                            Some(u) => {
                                let q = line.quantity;
                                assert(-0x8000_0000_0000_0000 * 256 <= u as int * q as int
                                    <= 0x8000_0000_0000_0000 * 256) by (nonlinear_arith)
                                    requires
                                        -0x8000_0000_0000_0000 <= u <= 0x8000_0000_0000_0000,
                                        0 <= q <= 256,
                                ;
                                term = u as i128 * q as i128;
                            },
                            None => {},
                        }
                    }
                },
                None => {},
            }
            proof {
                assert(self@[i as int] == line_view(self.lines@[i as int]));
                assert(self@.take(i as int + 1).drop_last() =~= self@.take(i as int));
                assert(term as int == unit_price(products@, k) * self@[i as int].1);
            }
            let next: i128 = total as i128 + term;
            if next < i64::MIN as i128 || next > i64::MAX as i128 {
                assert(total_price_of(self@.take(i as int + 1), products@) == next as int);
                return None;
            }
            total = next as i64;
            i = i + 1;
        }
        assert(self@.take(i as int) =~= self@);
        Some(total)
    }

    /// The cart's total in minor currency units, as `checked_total_price`
    /// computes it, on a cart whose partial sums fit in an `i64`.
    pub fn calculate_total_price(&self, stripe_data: &[DbProduct]) -> (r: i64)
        requires
            total_fits(self@, stripe_data@),
        ensures
            r as int == total_price_of(self@, stripe_data@),
    {
        match self.checked_total_price(stripe_data) {
            Some(t) => t,
            None => 0,
        }
    }
}

/// The total quantity of a prefix is at most that of the whole cart.
proof fn lemma_total_quantity_prefix(s: Seq<(Seq<char>, u8)>, n: int)
    requires
        0 <= n <= s.len(),
    ensures
        total_quantity_of(s.take(n)) <= total_quantity_of(s),
    decreases s.len(),
{
    if n < s.len() {
        assert(s.drop_last().take(n) =~= s.take(n));
        lemma_total_quantity_prefix(s.drop_last(), n);
    } else {
        assert(s.take(n) =~= s);
    }
}

impl Default for ShoppingCart {
    fn default() -> (r: ShoppingCart)
        ensures
            r.wf(),
            r@ == Seq::<(Seq<char>, u8)>::empty(),
    {
        ShoppingCart::new()
    }
}

/// Adding one unit of a product and then removing one gives back the cart
/// itself, whenever the add was not capped: the product was absent, or its
/// quantity was below the limit.
pub proof fn lemma_add_then_remove(s: Seq<(Seq<char>, u8)>, k: Seq<char>, limit: u8)
    requires
        lines_wf(s),
        find_line(s, k) == -1 || quantity_of(s, k) < limit,
    ensures
        cart_remove(cart_add(s, k, limit), k) == s,
{
    lemma_find_line(s, k);
    let i = find_line(s, k);
    if i < 0 {
        let t = s.push((k, 1u8));
        assert(t.drop_last() =~= s);
        assert(t.remove(s.len() as int) =~= s);
    } else {
        let t = s.update(i, (k, (s[i].1 + 1) as u8));
        lemma_add_keeps_wf(s, k, limit);
        lemma_find_line_unique(t, k, i);
        assert(t.update(i, (k, s[i].1)) =~= s);
    }
}

/// At the limit adding is a no-op, so a following remove leaves the product
/// with one unit less than before: the two do not cancel.
pub proof fn lemma_add_at_limit_then_remove(s: Seq<(Seq<char>, u8)>, k: Seq<char>, limit: u8)
    requires
        lines_wf(s),
        find_line(s, k) != -1,
        quantity_of(s, k) >= limit,
    ensures
        cart_add(s, k, limit) == s,
        quantity_of(cart_remove(cart_add(s, k, limit), k), k) == quantity_of(s, k) - 1,
{
    lemma_find_line(s, k);
    lemma_remove_keeps_wf(s, k);
    let i = find_line(s, k);
    if s[i].1 > 1 {
        lemma_find_line_unique(cart_remove(s, k), k, i);
    } else {
        lemma_find_line(cart_remove(s, k), k);
    }
}

/// Removing a product the cart does not hold changes nothing.
pub proof fn lemma_remove_absent(s: Seq<(Seq<char>, u8)>, k: Seq<char>)
    requires
        quantity_of(s, k) == 0,
        lines_wf(s),
    ensures
        cart_remove(s, k) == s,
{
    lemma_find_line(s, k);
}

/// Removing a product held once deletes its line: no line with quantity 0
/// is left behind.
pub proof fn lemma_remove_last_unit(s: Seq<(Seq<char>, u8)>, k: Seq<char>)
    requires
        lines_wf(s),
        quantity_of(s, k) == 1,
    ensures
        find_line(cart_remove(s, k), k) == -1,
        cart_remove(s, k).len() == s.len() - 1,
        lines_wf(cart_remove(s, k)),
{
    lemma_find_line(s, k);
    lemma_remove_keeps_wf(s, k);
    let i = find_line(s, k);
    let t = s.remove(i);
    assert forall|j: int| 0 <= j < t.len() implies t[j].0 != k by {
        if j < i {
            assert(t[j] == s[j]);
        } else {
            assert(t[j] == s[j + 1]);
        }
    }
    lemma_find_line(t, k);
}

pub proof fn lemma_add_keeps_wf(s: Seq<(Seq<char>, u8)>, k: Seq<char>, limit: u8)
    requires
        lines_wf(s),
    ensures
        lines_wf(cart_add(s, k, limit)),
{
    lemma_find_line(s, k);
}

pub proof fn lemma_remove_keeps_wf(s: Seq<(Seq<char>, u8)>, k: Seq<char>)
    requires
        lines_wf(s),
    ensures
        lines_wf(cart_remove(s, k)),
{
    lemma_find_line(s, k);
    let i = find_line(s, k);
    if i >= 0 && s[i].1 <= 1 {
        let t = s.remove(i);
        assert forall|a: int, b: int| 0 <= a < t.len() && 0 <= b < t.len() && a != b implies t[a].0
            != t[b].0 by {
            let a2 = if a < i { a } else { a + 1 };
            let b2 = if b < i { b } else { b + 1 };
            assert(t[a] == s[a2] && t[b] == s[b2]);
        }
    }
}

/// The empty cart costs nothing.
pub proof fn lemma_total_price_empty(products: Seq<DbProduct>)
    ensures
        total_price_of(Seq::<(Seq<char>, u8)>::empty(), products) == 0,
{
}

/// Changing the quantity of one line changes the total by the unit price
/// times the change.
pub proof fn lemma_total_price_update(s: Seq<(Seq<char>, u8)>, i: int, q: u8, products: Seq<DbProduct>)
    requires
        0 <= i < s.len(),
    ensures
        total_price_of(s.update(i, (s[i].0, q)), products) == total_price_of(s, products)
            + unit_price(products, s[i].0) * (q - s[i].1),
    decreases s.len(),
{
    let t = s.update(i, (s[i].0, q));
    let u = unit_price(products, s[i].0);
    if i == s.len() - 1 {
        assert(t.drop_last() =~= s.drop_last());
    } else {
        assert(t.drop_last() =~= s.drop_last().update(i, (s[i].0, q)));
        lemma_total_price_update(s.drop_last(), i, q, products);
    }
    assert(u * q - u * s[i].1 == u * (q - s[i].1)) by (nonlinear_arith);
}

/// Adding one unit of a product raises the total by its unit price, or
/// leaves the cart as it was when capped.
pub proof fn lemma_total_price_add(s: Seq<(Seq<char>, u8)>, k: Seq<char>, limit: u8, products: Seq<DbProduct>)
    requires
        lines_wf(s),
    ensures
        cart_add(s, k, limit) == s || total_price_of(cart_add(s, k, limit), products) == total_price_of(
            s,
            products,
        ) + unit_price(products, k),
{
    lemma_find_line(s, k);
    let i = find_line(s, k);
    let t = cart_add(s, k, limit);
    if i < 0 {
        assert(t.drop_last() =~= s);
        assert(t.last() == (k, 1u8));
        assert(unit_price(products, k) * 1u8 == unit_price(products, k));
    } else if s[i].1 < limit {
        let q = (s[i].1 + 1) as u8;
        assert(t == s.update(i, (s[i].0, q)));
        lemma_total_price_update(s, i, q, products);
        assert(q - s[i].1 == 1);
        assert(unit_price(products, k) * 1 == unit_price(products, k));
    }
}

/// With no negative prices in the catalog, adding to the cart never lowers
/// its total.
pub proof fn lemma_total_price_monotone(s: Seq<(Seq<char>, u8)>, k: Seq<char>, limit: u8, products: Seq<DbProduct>)
    requires
        lines_wf(s),
        forall|j: int|
            0 <= j < products.len() ==> match (#[trigger] products[j]).default_price {
                Some(p) => match p.unit_amount {
                    Some(u) => u >= 0,
                    None => true,
                },
                None => true,
            },
    ensures
        total_price_of(cart_add(s, k, limit), products) >= total_price_of(s, products),
{
    lemma_total_price_add(s, k, limit, products);
    lemma_product_index_from_range(products, k, 0);
}

/// The cart with the quantity of `k` set to `q`; 0 deletes the line, and a
/// new product is appended.
pub open spec fn cart_set(s: Seq<(Seq<char>, u8)>, k: Seq<char>, q: u8) -> Seq<(Seq<char>, u8)> {
    let i = find_line(s, k);
    if q == 0 {
        cart_delete(s, k)
    } else if i < 0 {
        s.push((k, q))
    } else {
        s.update(i, (k, q))
    }
}

/// The cart that setting each pair's quantity in turn builds from empty.
pub open spec fn cart_from_pairs(pairs: Seq<(Seq<char>, u8)>) -> Seq<(Seq<char>, u8)>
    decreases pairs.len(),
{
    if pairs.len() == 0 {
        Seq::empty()
    } else {
        cart_set(cart_from_pairs(pairs.drop_last()), pairs.last().0, pairs.last().1)
    }
}

pub proof fn lemma_delete_keeps_wf(s: Seq<(Seq<char>, u8)>, k: Seq<char>)
    requires
        lines_wf(s),
    ensures
        lines_wf(cart_delete(s, k)),
{
    lemma_find_line(s, k);
    let i = find_line(s, k);
    if i >= 0 {
        let t = s.remove(i);
        assert forall|a: int, b: int| 0 <= a < t.len() && 0 <= b < t.len() && a != b implies t[a].0
            != t[b].0 by {
            let a2 = if a < i { a } else { a + 1 };
            let b2 = if b < i { b } else { b + 1 };
            assert(t[a] == s[a2] && t[b] == s[b2]);
        }
    }
}

impl ShoppingCart {
    /// Sets the quantity of `product_id`; 0 deletes its line.
    pub fn set_quantity(&mut self, product_id: &String, quantity: u8)
        requires
            old(self).wf(),
        ensures
            final(self).wf(),
            final(self)@ == cart_set(old(self)@, product_id@, quantity),
    {
        let ghost s = self@;
        proof {
            lemma_find_line(s, product_id@);
            lemma_delete_keeps_wf(s, product_id@);
        }
        if quantity == 0 {
            self.delete_product(product_id.clone());
            return;
        }
        match self.find_index(product_id) {
            Some(i) => {
                self.lines.set(i, CartLine { product_id: product_id.clone(), quantity });
                assert(self@ =~= s.update(i as int, (product_id@, quantity)));
            },
            None => {
                self.lines.push(CartLine { product_id: product_id.clone(), quantity });
                assert(self@ =~= s.push((product_id@, quantity)));
            },
        }
    }

    /// A cart holding the given quantities; a later pair for the same product
    /// overrides an earlier one, and a quantity of 0 leaves the product out.
    pub fn from_quantities(pairs: &Vec<(String, u8)>) -> (r: ShoppingCart)
        ensures
            r.wf(),
            r@ == cart_from_pairs(pairs@.map_values(|p: (String, u8)| (p.0@, p.1))),
    {
        let ghost ps = pairs@.map_values(|p: (String, u8)| (p.0@, p.1));
        let mut cart = ShoppingCart::new();
        let mut i: usize = 0;
        assert(ps.take(0) =~= Seq::<(Seq<char>, u8)>::empty());
        while i < pairs.len()
            invariant
                i <= pairs@.len(),
                ps == pairs@.map_values(|p: (String, u8)| (p.0@, p.1)),
                cart.wf(),
                cart@ == cart_from_pairs(ps.take(i as int)),
            decreases pairs.len() - i,
        {
            proof {
                assert(ps.take(i as int + 1).drop_last() =~= ps.take(i as int));
                assert(ps.take(i as int + 1).last() == ps[i as int]);
            }
            cart.set_quantity(&pairs[i].0, pairs[i].1);
            i = i + 1;
        }
        assert(ps.take(i as int) =~= ps);
        cart
    }
}

} // verus!
