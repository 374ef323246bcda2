//! Aggregations over the orders of one session: the shopping list and the
//! per-buyer subtotals, all in exact integer arithmetic.

use vstd::prelude::*;

use crate::model::{find_item, GroupBuy, GroupBuyOrder};
use crate::money::{Money, MAX_PRICE_CENTS, MAX_QUANTITY};

verus! {

/// Largest amount one order can cost, in hundredths.
pub const ORDER_AMOUNT_LIMIT: u128 = 1_000_000_000_000_000_000;

/// Every order within bounds: what the store's validity gives.
pub open spec fn orders_wf(os: Seq<GroupBuyOrder>) -> bool {
    forall|i: int| 0 <= i < os.len() ==> (#[trigger] os[i]).wf()
}

/// The total cost of a list of orders, each at its snapshot unit price.
pub open spec fn total_of(os: Seq<GroupBuyOrder>) -> int
    decreases os.len(),
{
    if os.len() == 0 {
        0
    } else {
        total_of(os.drop_last()) + os.last().amount()
    }
}

/// The total quantity ordered of one item.
pub open spec fn item_total_qty(os: Seq<GroupBuyOrder>, item: Seq<char>) -> int
    decreases os.len(),
{
    if os.len() == 0 {
        0
    } else {
        item_total_qty(os.drop_last(), item) + (if os.last().item_name@ == item {
            os.last().quantity as int
        } else {
            0
        })
    }
}

/// The total cost of one buyer's orders.
pub open spec fn buyer_total(os: Seq<GroupBuyOrder>, buyer: Seq<char>) -> int
    decreases os.len(),
{
    if os.len() == 0 {
        0
    } else {
        buyer_total(os.drop_last(), buyer) + (if os.last().buyer_username@ == buyer {
            os.last().amount()
        } else {
            0
        })
    }
}

pub proof fn lemma_total_take_step(os: Seq<GroupBuyOrder>, i: int)
    requires
        0 <= i < os.len(),
    ensures
        total_of(os.take(i + 1)) == total_of(os.take(i)) + os[i].amount(),
        forall|item: Seq<char>|
            #[trigger] item_total_qty(os.take(i + 1), item) == item_total_qty(os.take(i), item)
                + (if os[i].item_name@ == item {
                os[i].quantity as int
            } else {
                0
            }),
        forall|buyer: Seq<char>|
            #[trigger] buyer_total(os.take(i + 1), buyer) == buyer_total(os.take(i), buyer) + (
            if os[i].buyer_username@ == buyer {
                os[i].amount()
            } else {
                0
            }),
        forall|item: Seq<char>|
            #[trigger] item_snapshot_total(os.take(i + 1), item) == item_snapshot_total(
                os.take(i),
                item,
            ) + (if os[i].item_name@ == item {
                os[i].amount()
            } else {
                0
            }),
{
    assert(os.take(i + 1).drop_last() =~= os.take(i));
    assert(os.take(i + 1).last() == os[i]);
}

/// One bounded order costs at most `ORDER_AMOUNT_LIMIT`.
pub proof fn lemma_amount_bound(o: GroupBuyOrder)
    requires
        o.wf(),
    ensures
        0 <= o.amount() <= ORDER_AMOUNT_LIMIT,
{
    assert(o.unit_price.cents * o.quantity <= 1_000_000_000_000 * 1_000_000) by (nonlinear_arith)
        requires
            o.unit_price.cents <= 1_000_000_000_000,
            o.quantity <= 1_000_000,
    ;
    assert(o.unit_price.cents * o.quantity >= 0) by (nonlinear_arith);
}

proof fn lemma_buyer_total_absent(os: Seq<GroupBuyOrder>, buyer: Seq<char>)
    requires
        forall|j: int| 0 <= j < os.len() ==> (#[trigger] os[j]).buyer_username@ != buyer,
    ensures
        buyer_total(os, buyer) == 0,
    decreases os.len(),
{
    if os.len() > 0 {
        assert(forall|j: int|
            0 <= j < os.drop_last().len() ==> #[trigger] os.drop_last()[j] == os[j]);
        lemma_buyer_total_absent(os.drop_last(), buyer);
    }
}

proof fn lemma_item_total_absent(os: Seq<GroupBuyOrder>, item: Seq<char>)
    requires
        forall|j: int| 0 <= j < os.len() ==> (#[trigger] os[j]).item_name@ != item,
    ensures
        item_total_qty(os, item) == 0,
    decreases os.len(),
{
    if os.len() > 0 {
        assert(forall|j: int|
            0 <= j < os.drop_last().len() ==> #[trigger] os.drop_last()[j] == os[j]);
        lemma_item_total_absent(os.drop_last(), item);
    }
}

/// The grand total of the orders: Σ unit_price × quantity, exactly.
pub fn total_amount(orders: &Vec<GroupBuyOrder>) -> (r: u128)
    requires
        orders_wf(orders@),
    ensures
        r == total_of(orders@),
{
    let mut total: u128 = 0;
    let mut i: usize = 0;
    assert(orders@.take(0) =~= Seq::<GroupBuyOrder>::empty());
    while i < orders.len()
        invariant
            0 <= i <= orders@.len(),
            orders_wf(orders@),
            total == total_of(orders@.take(i as int)),
            total <= (i as int) * (ORDER_AMOUNT_LIMIT as int),
        decreases orders@.len() - i,
    {
        proof {
            lemma_total_take_step(orders@, i as int);
            lemma_amount_bound(orders@[i as int]);
            assert((i as int) * (ORDER_AMOUNT_LIMIT as int) + (ORDER_AMOUNT_LIMIT as int) == (i
                + 1) * (ORDER_AMOUNT_LIMIT as int)) by (nonlinear_arith);
            assert((i + 1) * (ORDER_AMOUNT_LIMIT as int) <= u128::MAX) by (nonlinear_arith)
                requires
                    0 <= i + 1 <= 0x1_0000_0000_0000_0000,
            ;
        }
        let o = &orders[i];
        let amount = (o.unit_price.cents as u128) * (o.quantity as u128);
        total = total + amount;
        i = i + 1;
    }
    assert(orders@.take(orders@.len() as int) =~= orders@);
    total
}

/// Strict lexicographic order on texts, by code point.
pub open spec fn lex_lt(a: Seq<char>, b: Seq<char>) -> bool
    decreases a.len(),
{
    if b.len() == 0 {
        false
    } else if a.len() == 0 {
        true
    } else if (a[0] as u32) < (b[0] as u32) {
        true
    } else if (a[0] as u32) > (b[0] as u32) {
        false
    } else {
        lex_lt(a.drop_first(), b.drop_first())
    }
}

/// Two distinct texts are ordered one way or the other.
pub proof fn lemma_lex_total(a: Seq<char>, b: Seq<char>)
    requires
        a != b,
    ensures
        lex_lt(a, b) || lex_lt(b, a),
    decreases a.len(),
{
    if a.len() == 0 && b.len() == 0 {
        assert(a =~= b);
    } else if a.len() > 0 && b.len() > 0 && (a[0] as u32) == (b[0] as u32) {
        vstd::utf8::char_u32_cast(a[0], a[0] as u32);
        vstd::utf8::char_u32_cast(b[0], b[0] as u32);
        assert(a[0] == b[0]);
        if a.drop_first() == b.drop_first() {
            assert(a.drop_first().len() == b.drop_first().len());
            assert(a.len() == b.len());
            assert forall|j: int| 0 <= j < a.len() implies a[j] == b[j] by {
                if j > 0 {
                    assert(a.drop_first()[j - 1] == a[j]);
                    assert(b.drop_first()[j - 1] == b[j]);
                }
            }
            assert(a =~= b);
        } else {
            lemma_lex_total(a.drop_first(), b.drop_first());
        }
    }
}

/// Nothing is lexicographically below itself.
pub proof fn lemma_lex_irrefl(a: Seq<char>)
    ensures
        !lex_lt(a, a),
    decreases a.len(),
{
    if a.len() > 0 {
        lemma_lex_irrefl(a.drop_first());
    }
}

/// Lexicographic order is transitive.
pub proof fn lemma_lex_trans(a: Seq<char>, b: Seq<char>, c: Seq<char>)
    requires
        lex_lt(a, b),
        lex_lt(b, c),
    ensures
        lex_lt(a, c),
    decreases a.len(),
{
    if a.len() > 0 && b.len() > 0 && c.len() > 0 && (a[0] as u32) == (b[0] as u32) && (b[0]
        as u32) == (c[0] as u32) {
        lemma_lex_trans(a.drop_first(), b.drop_first(), c.drop_first());
    }
}

proof fn lemma_lex_skip(a: Seq<char>, b: Seq<char>, k: int)
    requires
        0 <= k <= a.len(),
        k <= b.len(),
        forall|j: int| 0 <= j < k ==> a[j] == b[j],
    ensures
        lex_lt(a, b) == lex_lt(a.skip(k), b.skip(k)),
    decreases k,
{
    if k > 0 {
        assert(a.len() > 0 && b.len() > 0);
        assert(a[0] == b[0]);
        assert(a.drop_first() =~= a.skip(1));
        assert(b.drop_first() =~= b.skip(1));
        assert(forall|j: int| 0 <= j < k - 1 ==> #[trigger] a.skip(1)[j] == b.skip(1)[j]);
        lemma_lex_skip(a.skip(1), b.skip(1), k - 1);
        assert(a.skip(1).skip(k - 1) =~= a.skip(k));
        assert(b.skip(1).skip(k - 1) =~= b.skip(k));
    } else {
        assert(a.skip(0) =~= a);
        assert(b.skip(0) =~= b);
    }
}

/// Compares two texts in lexicographic order.
pub fn lex_lt_str(a: &str, b: &str) -> (r: bool)
    ensures
        r == lex_lt(a@, b@),
{
    let na = a.unicode_len();
    let nb = b.unicode_len();
    let mut k: usize = 0;
    while k < na && k < nb
        invariant
            0 <= k,
            k <= na,
            k <= nb,
            na == a@.len(),
            nb == b@.len(),
            forall|j: int| 0 <= j < k ==> a@[j] == b@[j],
        decreases na - k,
    {
        let ca = a.get_char(k) as u32;
        let cb = b.get_char(k) as u32;
        if ca < cb {
            proof {
                lemma_lex_skip(a@, b@, k as int);
            }
            return true;
        }
        if ca > cb {
            proof {
                lemma_lex_skip(a@, b@, k as int);
            }
            return false;
        }
        proof {
            vstd::utf8::char_u32_cast(a@[k as int], a@[k as int] as u32);
            vstd::utf8::char_u32_cast(b@[k as int], b@[k as int] as u32);
            assert(a@[k as int] == b@[k as int]);
        }
        k = k + 1;
    }
    proof {
        lemma_lex_skip(a@, b@, k as int);
    }
    k == na && k < nb
}

/// One row of the shopping list: an item, the quantity to buy, the menu
/// price, and their product.
#[derive(Debug)]
pub struct ShoppingListRow {
    pub item_name: String,
    pub total_quantity: u128,
    pub unit_price: Money,
    pub subtotal: u128,
}

impl Clone for ShoppingListRow {
    fn clone(&self) -> (r: Self)
        ensures
            r == *self,
    {
        ShoppingListRow {
            item_name: self.item_name.clone(),
            total_quantity: self.total_quantity,
            unit_price: self.unit_price,
            subtotal: self.subtotal,
        }
    }
}

/// The cost of one item's orders, each at its snapshot unit price: what
/// the item's shopping-list row charges.
pub open spec fn item_snapshot_total(os: Seq<GroupBuyOrder>, item: Seq<char>) -> int
    decreases os.len(),
{
    if os.len() == 0 {
        0
    } else {
        item_snapshot_total(os.drop_last(), item) + (if os.last().item_name@ == item {
            os.last().amount()
        } else {
            0
        })
    }
}

/// First order of this item, if any: the one whose snapshot price the
/// item's row displays.
pub open spec fn find_order_of_item(os: Seq<GroupBuyOrder>, item: Seq<char>) -> Option<int>
    decreases os.len(),
{
    if os.len() == 0 {
        None
    } else if os[0].item_name@ == item {
        Some(0)
    } else {
        match find_order_of_item(os.drop_first(), item) {
            Some(j) => Some(j + 1),
            None => None,
        }
    }
}

proof fn lemma_find_order_of_item_push(s: Seq<GroupBuyOrder>, x: GroupBuyOrder, item: Seq<char>)
    ensures
        find_order_of_item(s.push(x), item) == (match find_order_of_item(s, item) {
            Some(j) => Some(j),
            None => if x.item_name@ == item {
                Some(s.len() as int)
            } else {
                None
            },
        }),
    decreases s.len(),
{
    let sp = s.push(x);
    if s.len() == 0 {
        assert(sp[0] == x);
        assert(sp.drop_first() =~= Seq::<GroupBuyOrder>::empty());
        if x.item_name@ == item {
            assert(find_order_of_item(sp, item) == Some(0int));
        } else {
            assert(find_order_of_item(Seq::<GroupBuyOrder>::empty(), item) is None);
            assert(find_order_of_item(sp, item) is None);
        }
    } else {
        assert(sp[0] == s[0]);
        if s[0].item_name@ == item {
            assert(find_order_of_item(sp, item) == Some(0int));
            assert(find_order_of_item(s, item) == Some(0int));
        } else {
            assert(sp.drop_first() =~= s.drop_first().push(x));
            lemma_find_order_of_item_push(s.drop_first(), x, item);
            assert(s.drop_first().len() == s.len() - 1);
        }
    }
}

proof fn lemma_item_snapshot_absent(os: Seq<GroupBuyOrder>, item: Seq<char>)
    requires
        forall|j: int| 0 <= j < os.len() ==> (#[trigger] os[j]).item_name@ != item,
    ensures
        item_snapshot_total(os, item) == 0,
        find_order_of_item(os, item) is None,
    decreases os.len(),
{
    if os.len() > 0 {
        assert(forall|j: int|
            0 <= j < os.drop_last().len() ==> #[trigger] os.drop_last()[j] == os[j]);
        assert(forall|j: int|
            0 <= j < os.drop_first().len() ==> #[trigger] os.drop_first()[j] == os[j + 1]);
        lemma_item_snapshot_absent(os.drop_last(), item);
        assert(forall|j: int|
            0 <= j < os.drop_first().len() ==> (#[trigger] os.drop_first()[j]).item_name@
                != item);
        lemma_find_order_of_item_absent(os.drop_first(), item);
    }
}

proof fn lemma_find_order_of_item_props(os: Seq<GroupBuyOrder>, item: Seq<char>)
    ensures
        match find_order_of_item(os, item) {
            Some(j) => 0 <= j < os.len() && os[j].item_name@ == item,
            None => true,
        },
    decreases os.len(),
{
    if os.len() > 0 && os[0].item_name@ != item {
        let rest = os.drop_first();
        lemma_find_order_of_item_props(rest, item);
        match find_order_of_item(os, item) {
            Some(j) => {
                assert(find_order_of_item(rest, item) == Some(j - 1));
                assert(os[j] == rest[j - 1]);
            },
            None => {},
        }
    }
}

proof fn lemma_find_order_of_item_absent(os: Seq<GroupBuyOrder>, item: Seq<char>)
    requires
        forall|j: int| 0 <= j < os.len() ==> (#[trigger] os[j]).item_name@ != item,
    ensures
        find_order_of_item(os, item) is None,
    decreases os.len(),
{
    if os.len() > 0 {
        assert(forall|j: int|
            0 <= j < os.drop_first().len() ==> #[trigger] os.drop_first()[j] == os[j + 1]);
        lemma_find_order_of_item_absent(os.drop_first(), item);
    }
}

proof fn lemma_item_snapshot_nonneg(os: Seq<GroupBuyOrder>, item: Seq<char>)
    requires
        orders_wf(os),
    ensures
        item_snapshot_total(os, item) >= 0,
    decreases os.len(),
{
    if os.len() > 0 {
        assert(orders_wf(os.drop_last()));
        lemma_item_snapshot_nonneg(os.drop_last(), item);
        lemma_amount_bound(os.last());
    }
}

pub proof fn lemma_find_item_first(items: Seq<crate::model::Item>, name: Seq<char>, i: int)
    requires
        0 <= i < items.len(),
        items[i].name@ == name,
        forall|j: int| 0 <= j < i ==> (#[trigger] items[j].name)@ != name,
    ensures
        find_item(items, name) == Some(i),
    decreases items.len(),
{
    if i > 0 {
        assert(forall|j: int|
            0 <= j < items.drop_first().len() ==> #[trigger] items.drop_first()[j] == items[j
                + 1]);
        lemma_find_item_first(items.drop_first(), name, i - 1);
    }
}

pub proof fn lemma_find_item_absent(items: Seq<crate::model::Item>, name: Seq<char>)
    requires
        forall|j: int| 0 <= j < items.len() ==> (#[trigger] items[j].name)@ != name,
    ensures
        find_item(items, name) is None,
    decreases items.len(),
{
    if items.len() > 0 {
        assert(forall|j: int|
            0 <= j < items.drop_first().len() ==> #[trigger] items.drop_first()[j] == items[j
                + 1]);
        lemma_find_item_absent(items.drop_first(), name);
    }
}

/// What every shopping list row states: the summed quantity, the snapshot
/// subtotal (each order at its own captured price — later menu edits do
/// not reach it), and the captured price of the item's first order.
pub open spec fn shopping_row_exact(row: ShoppingListRow, os: Seq<GroupBuyOrder>) -> bool {
    &&& row.total_quantity == item_total_qty(os, row.item_name@)
    &&& row.subtotal == item_snapshot_total(os, row.item_name@)
    &&& match find_order_of_item(os, row.item_name@) {
        Some(j) => row.unit_price == os[j].unit_price,
        None => false,
    }
}

/// The sum of the subtotals of a list of shopping rows.
pub open spec fn sum_subtotals(rows: Seq<ShoppingListRow>) -> int
    decreases rows.len(),
{
    if rows.len() == 0 {
        0
    } else {
        sum_subtotals(rows.drop_last()) + rows.last().subtotal
    }
}

proof fn lemma_sum_subtotals_update(rows: Seq<ShoppingListRow>, m: int, v: ShoppingListRow)
    requires
        0 <= m < rows.len(),
    ensures
        sum_subtotals(rows.update(m, v)) == sum_subtotals(rows) - rows[m].subtotal + v.subtotal,
    decreases rows.len(),
{
    if m == rows.len() - 1 {
        assert(rows.update(m, v).drop_last() =~= rows.drop_last());
        assert(rows.update(m, v).last() == v);
    } else {
        assert(rows.update(m, v).drop_last() =~= rows.drop_last().update(m, v));
        assert(rows.update(m, v).last() == rows.last());
        lemma_sum_subtotals_update(rows.drop_last(), m, v);
    }
}

proof fn lemma_sum_subtotals_insert(rows: Seq<ShoppingListRow>, p: int, v: ShoppingListRow)
    requires
        0 <= p <= rows.len(),
    ensures
        sum_subtotals(rows.insert(p, v)) == sum_subtotals(rows) + v.subtotal,
    decreases rows.len(),
{
    if p == rows.len() {
        assert(rows.insert(p, v).drop_last() =~= rows);
        assert(rows.insert(p, v).last() == v);
    } else {
        assert(rows.insert(p, v).drop_last() =~= rows.drop_last().insert(p, v));
        assert(rows.insert(p, v).last() == rows.last());
        lemma_sum_subtotals_insert(rows.drop_last(), p, v);
    }
}

/// The shopping list: one row per distinct ordered item, sorted by item
/// name; each row holds the summed quantity, the snapshot subtotal, and
/// the first order's captured price; the rows sum to the grand total.
#[verifier::rlimit(60)]
#[verifier::spinoff_prover]
pub fn shopping_list_rows(orders: &Vec<GroupBuyOrder>) -> (rows: Vec<ShoppingListRow>)
    requires
        orders_wf(orders@),
    ensures
        forall|a: int, b: int|
            0 <= a < b < rows@.len() ==> lex_lt(
                (#[trigger] rows@[a]).item_name@,
                (#[trigger] rows@[b]).item_name@,
            ),
        forall|m: int|
            0 <= m < rows@.len() ==> shopping_row_exact(#[trigger] rows@[m], orders@),
        forall|j: int|
            0 <= j < orders@.len() ==> exists|m: int|
                0 <= m < rows@.len() && (#[trigger] orders@[j]).item_name@ == rows@[m].item_name@,
        sum_subtotals(rows@) == total_of(orders@),
    {
    let mut rows: Vec<ShoppingListRow> = Vec::new();
    let mut i: usize = 0;
    assert(orders@.take(0) =~= Seq::<GroupBuyOrder>::empty());
    while i < orders.len()
        invariant
            0 <= i <= orders@.len(),
            orders_wf(orders@),
            forall|a: int, b: int|
                0 <= a < b < rows@.len() ==> lex_lt(
                    (#[trigger] rows@[a]).item_name@,
                    (#[trigger] rows@[b]).item_name@,
                ),
            forall|m: int|
                0 <= m < rows@.len() ==> shopping_row_exact(
                    #[trigger] rows@[m],
                    orders@.take(i as int),
                ),
            forall|m: int|
                0 <= m < rows@.len() ==> (#[trigger] rows@[m]).total_quantity <= (i as int) * (
                MAX_QUANTITY as int),
            forall|j: int|
                0 <= j < i ==> exists|m: int|
                    0 <= m < rows@.len() && (#[trigger] orders@[j]).item_name@
                        == rows@[m].item_name@,
            sum_subtotals(rows@) == total_of(orders@.take(i as int)),
            sum_subtotals(rows@) <= (i as int) * (ORDER_AMOUNT_LIMIT as int),
        decreases orders@.len() - i,
    {
        let o = &orders[i];
        proof {
            lemma_total_take_step(orders@, i as int);
            lemma_amount_bound(orders@[i as int]);
            assert(orders@.take(i + 1) =~= orders@.take(i as int).push(orders@[i as int]));
            assert((i as int) * (MAX_QUANTITY as int) + (MAX_QUANTITY as int) == (i + 1) * (
            MAX_QUANTITY as int)) by (nonlinear_arith);
            assert((i + 1) * (MAX_QUANTITY as int) <= u128::MAX) by (nonlinear_arith)
                requires
                    0 <= i + 1 <= 0x1_0000_0000_0000_0000,
            ;
            assert((i as int) * (ORDER_AMOUNT_LIMIT as int) + (ORDER_AMOUNT_LIMIT as int) == (i
                + 1) * (ORDER_AMOUNT_LIMIT as int)) by (nonlinear_arith);
            assert((i + 1) * (ORDER_AMOUNT_LIMIT as int) <= u128::MAX) by (nonlinear_arith)
                requires
                    0 <= i + 1 <= 0x1_0000_0000_0000_0000,
            ;
        }
        let amount = (o.unit_price.cents as u128) * (o.quantity as u128);
        let ghost pre_rows = rows@;
        match row_index_by_name(&rows, o.item_name.as_str()) {
            Some(m) => {
                let ghost name = rows@[m as int].item_name;
                proof {
                    // Every row's subtotal is non-negative, so each is at
                    // most the sum, which is bounded; the new amount fits.
                    assert(orders_wf(orders@.take(i as int))) by {
                        assert forall|j: int|
                            0 <= j < orders@.take(i as int).len() implies (
                        #[trigger] orders@.take(i as int)[j]).wf() by {
                            assert(orders@.take(i as int)[j] == orders@[j]);
                        }
                    }
                    assert forall|x: int| 0 <= x < pre_rows.len() implies (
                    #[trigger] pre_rows[x]).subtotal >= 0 by {
                        lemma_item_snapshot_nonneg(orders@.take(i as int), pre_rows[x].item_name@);
                    }
                    lemma_sum_subtotals_element_bound(pre_rows, m as int);
                }
                let new_qty = rows[m].total_quantity + (o.quantity as u128);
                let new_sub = rows[m].subtotal + amount;
                let slot = &mut rows[m];
                slot.total_quantity = new_qty;
                slot.subtotal = new_sub;
                proof {
                    assert(rows@[m as int].item_name == name);
                    assert(rows@ == pre_rows.update(m as int, rows@[m as int]));
                    lemma_sum_subtotals_update(pre_rows, m as int, rows@[m as int]);
                    assert(forall|x: int|
                        0 <= x < rows@.len() && x != m ==> #[trigger] rows@[x] == pre_rows[x]);
                    // Rows other than `m` name a different item, so their
                    // totals are untouched by this order.
                    assert forall|x: int| 0 <= x < rows@.len() && x != m implies (
                    #[trigger] rows@[x]).item_name@ != o.item_name@ by {
                        if x < m {
                            assert(lex_lt(pre_rows[x].item_name@, name@));
                        } else {
                            assert(lex_lt(name@, pre_rows[x].item_name@));
                        }
                        lemma_lex_irrefl(name@);
                    }
                    assert forall|x: int| 0 <= x < rows@.len() implies shopping_row_exact(
                        #[trigger] rows@[x],
                        orders@.take(i + 1),
                    ) by {
                        assert(shopping_row_exact(pre_rows[x], orders@.take(i as int)));
                        let nm = pre_rows[x].item_name@;
                        lemma_find_order_of_item_props(orders@.take(i as int), nm);
                        lemma_find_order_of_item_push(
                            orders@.take(i as int),
                            orders@[i as int],
                            nm,
                        );
                        let jj = find_order_of_item(orders@.take(i as int), nm)->Some_0;
                        assert(orders@.take(i + 1)[jj] == orders@.take(i as int)[jj]);
                        if x != m {
                            assert(rows@[x] == pre_rows[x]);
                            assert(rows@[x].item_name@ != o.item_name@);
                        } else {
                            assert(rows@[x].item_name@ == nm);
                        }
                    }
                    // The panel coverage carries over: names did not move.
                    assert forall|j: int| 0 <= j < i + 1 implies exists|mm: int|
                        0 <= mm < rows@.len() && (#[trigger] orders@[j]).item_name@
                            == rows@[mm].item_name@ by {
                        if j == i {
                            assert(orders@[j].item_name@ == rows@[m as int].item_name@);
                        } else {
                            let w = choose|w: int|
                                0 <= w < pre_rows.len() && orders@[j].item_name@
                                    == pre_rows[w].item_name@;
                            assert(rows@[w].item_name@ == pre_rows[w].item_name@);
                        }
                    }
                }
            },
            None => {
                proof {
                    // This item was never ordered before, else it would
                    // already have a row.
                    assert forall|j: int|
                        0 <= j < orders@.take(i as int).len() implies (#[trigger] orders@.take(
                        i as int,
                    )[j]).item_name@ != o.item_name@ by {
                        assert(orders@.take(i as int)[j] == orders@[j]);
                        assert(exists|mm: int|
                            0 <= mm < pre_rows.len() && orders@[j].item_name@ == (
                            #[trigger] pre_rows[mm]).item_name@);
                    }
                    lemma_item_total_absent(orders@.take(i as int), o.item_name@);
                    lemma_item_snapshot_absent(orders@.take(i as int), o.item_name@);
                }
                let qty = o.quantity as u128;
                let row = ShoppingListRow {
                    item_name: o.item_name.clone(),
                    total_quantity: qty,
                    unit_price: o.unit_price,
                    subtotal: amount,
                };
                let ghost new_row = row;
                let p = insert_row_sorted(&mut rows, row);
                proof {
                    assert(rows@ == pre_rows.insert(p as int, new_row));
                    lemma_sum_subtotals_insert(pre_rows, p as int, new_row);
                    // Every row is either the fresh one (whose totals this
                    // order alone makes up) or an old one naming another
                    // item (whose totals are untouched).
                    assert forall|x: int| 0 <= x < rows@.len() implies ((#[trigger] rows@[x])
                        == new_row || (exists|y: int|
                        0 <= y < pre_rows.len() && rows@[x] == #[trigger] pre_rows[y]
                            && rows@[x].item_name@ != o.item_name@)) by {
                        if rows@[x] != new_row {
                            let y = choose|y: int|
                                0 <= y < pre_rows.len() && rows@[x] == #[trigger] pre_rows[y];
                            assert(pre_rows[y].item_name@ != o.item_name@);
                        }
                    }
                    assert forall|x: int| 0 <= x < rows@.len() implies shopping_row_exact(
                        #[trigger] rows@[x],
                        orders@.take(i + 1),
                    ) by {
                        lemma_find_order_of_item_push(
                            orders@.take(i as int),
                            orders@[i as int],
                            rows@[x].item_name@,
                        );
                        if rows@[x] == new_row {
                            assert(orders@.take(i + 1)[i as int] == orders@[i as int]);
                        } else {
                            let y = choose|y: int|
                                0 <= y < pre_rows.len() && rows@[x] == #[trigger] pre_rows[y];
                            assert(shopping_row_exact(pre_rows[y], orders@.take(i as int)));
                            let nm = pre_rows[y].item_name@;
                            lemma_find_order_of_item_props(orders@.take(i as int), nm);
                            let jj = find_order_of_item(orders@.take(i as int), nm)->Some_0;
                            assert(orders@.take(i + 1)[jj] == orders@.take(i as int)[jj]);
                        }
                    }
                    assert forall|j: int| 0 <= j < i + 1 implies exists|mm: int|
                        0 <= mm < rows@.len() && (#[trigger] orders@[j]).item_name@
                            == rows@[mm].item_name@ by {
                        if j == i {
                            let mm = choose|mm: int|
                                0 <= mm < rows@.len() && #[trigger] rows@[mm] == new_row;
                            assert(rows@[mm].item_name@ == o.item_name@);
                        } else {
                            let w = choose|w: int|
                                0 <= w < pre_rows.len() && orders@[j].item_name@
                                    == pre_rows[w].item_name@;
                            let mm = choose|mm: int|
                                0 <= mm < rows@.len() && (#[trigger] rows@[mm]) == (
                                #[trigger] pre_rows[w]);
                            assert(rows@[mm].item_name@ == pre_rows[w].item_name@);
                        }
                    }
                }
            },
        }
        i = i + 1;
    }
    assert(orders@.take(orders@.len() as int) =~= orders@);
    rows
}

proof fn lemma_sum_subtotals_element_bound(rows: Seq<ShoppingListRow>, m: int)
    requires
        0 <= m < rows.len(),
        forall|x: int| 0 <= x < rows.len() ==> (#[trigger] rows[x]).subtotal >= 0,
    ensures
        rows[m].subtotal <= sum_subtotals(rows),
    decreases rows.len(),
{
    if m == rows.len() - 1 {
        lemma_sum_subtotals_nonneg(rows.drop_last());
    } else {
        assert(forall|x: int|
            0 <= x < rows.drop_last().len() ==> #[trigger] rows.drop_last()[x] == rows[x]);
        lemma_sum_subtotals_element_bound(rows.drop_last(), m);
    }
}

proof fn lemma_sum_subtotals_nonneg(rows: Seq<ShoppingListRow>)
    requires
        forall|x: int| 0 <= x < rows.len() ==> (#[trigger] rows[x]).subtotal >= 0,
    ensures
        sum_subtotals(rows) >= 0,
    decreases rows.len(),
{
    if rows.len() > 0 {
        assert(forall|x: int|
            0 <= x < rows.drop_last().len() ==> #[trigger] rows.drop_last()[x] == rows[x]);
        lemma_sum_subtotals_nonneg(rows.drop_last());
    }
}

proof fn lemma_item_total_nonneg(os: Seq<GroupBuyOrder>, item: Seq<char>)
    ensures
        item_total_qty(os, item) >= 0,
    decreases os.len(),
{
    if os.len() > 0 {
        lemma_item_total_nonneg(os.drop_last(), item);
    }
}

/// First row naming `item`, by linear scan.
fn row_index_by_name(rows: &Vec<ShoppingListRow>, item: &str) -> (r: Option<usize>)
    ensures
        match r {
            Some(m) => m < rows@.len() && rows@[m as int].item_name@ == item@,
            None => forall|m: int|
                0 <= m < rows@.len() ==> (#[trigger] rows@[m]).item_name@ != item@,
        },
{
    let mut m: usize = 0;
    while m < rows.len()
        invariant
            0 <= m <= rows@.len(),
            forall|x: int| 0 <= x < m ==> (#[trigger] rows@[x]).item_name@ != item@,
        decreases rows@.len() - m,
    {
        if crate::model::str_eq(rows[m].item_name.as_str(), item) {
            return Some(m);
        }
        m = m + 1;
    }
    None
}

/// Inserts a row with a fresh name at its place in name order; returns the
/// position it went to.
fn insert_row_sorted(rows: &mut Vec<ShoppingListRow>, row: ShoppingListRow) -> (p: usize)
    requires
        forall|a: int, b: int|
            0 <= a < b < old(rows)@.len() ==> lex_lt(
                (#[trigger] old(rows)@[a]).item_name@,
                (#[trigger] old(rows)@[b]).item_name@,
            ),
        forall|m: int|
            0 <= m < old(rows)@.len() ==> (#[trigger] old(rows)@[m]).item_name@ != row.item_name@,
    ensures
        p <= old(rows)@.len(),
        final(rows)@ == old(rows)@.insert(p as int, row),
        final(rows)@.len() == old(rows)@.len() + 1,
        forall|a: int, b: int|
            0 <= a < b < final(rows)@.len() ==> lex_lt(
                (#[trigger] final(rows)@[a]).item_name@,
                (#[trigger] final(rows)@[b]).item_name@,
            ),
        forall|m: int|
            0 <= m < final(rows)@.len() ==> ((#[trigger] final(rows)@[m]) == row || exists|x: int|
                0 <= x < old(rows)@.len() && final(rows)@[m] == #[trigger] old(rows)@[x]),
        exists|m: int| 0 <= m < final(rows)@.len() && #[trigger] final(rows)@[m] == row,
        forall|x: int|
            0 <= x < old(rows)@.len() ==> exists|m: int|
                0 <= m < final(rows)@.len() && (#[trigger] final(rows)@[m]) == (
                #[trigger] old(rows)@[x]),
{
    let mut p: usize = 0;
    while p < rows.len() && lex_lt_str(rows[p].item_name.as_str(), row.item_name.as_str())
        invariant
            0 <= p <= rows@.len(),
            *rows == *old(rows),
            forall|a: int|
                0 <= a < p ==> lex_lt((#[trigger] rows@[a]).item_name@, row.item_name@),
        decreases rows@.len() - p,
    {
        p = p + 1;
    }
    proof {
        if p < rows@.len() {
            // Names are distinct, so the stopped-at row is strictly after.
            lemma_lex_total(rows@[p as int].item_name@, row.item_name@);
            assert(lex_lt(row.item_name@, rows@[p as int].item_name@));
            assert forall|b: int| p <= b < rows@.len() implies lex_lt(
                row.item_name@,
                (#[trigger] rows@[b]).item_name@,
            ) by {
                if b > p {
                    lemma_lex_trans(
                        row.item_name@,
                        rows@[p as int].item_name@,
                        rows@[b].item_name@,
                    );
                }
            }
        }
    }
    let ghost pre = rows@;
    let ghost r = row;
    rows.insert(p, row);
    proof {
        assert(rows@ == pre.insert(p as int, r));
        assert(rows@[p as int] == r);
        assert(forall|x: int| 0 <= x < p ==> #[trigger] rows@[x] == pre[x]);
        assert(forall|x: int| p < x < rows@.len() ==> #[trigger] rows@[x] == pre[x - 1]);
        assert forall|x: int| 0 <= x < pre.len() implies exists|m: int|
            0 <= m < rows@.len() && (#[trigger] rows@[m]) == (#[trigger] pre[x]) by {
            if x < p {
                assert(rows@[x] == pre[x]);
            } else {
                assert(rows@[x + 1] == pre[x]);
            }
        }
    }
    p
}

/// One row of the per-buyer subtotal view.
#[derive(Debug)]
pub struct SubtotalRow {
    pub buyer_username: String,
    pub amount: u128,
}

impl Clone for SubtotalRow {
    fn clone(&self) -> (r: Self)
        ensures
            r == *self,
    {
        SubtotalRow { buyer_username: self.buyer_username.clone(), amount: self.amount }
    }
}

/// The sum of the amounts of a list of subtotal rows.
pub open spec fn sum_amounts(rows: Seq<SubtotalRow>) -> int
    decreases rows.len(),
{
    if rows.len() == 0 {
        0
    } else {
        sum_amounts(rows.drop_last()) + rows.last().amount
    }
}

proof fn lemma_sum_update(rows: Seq<SubtotalRow>, m: int, v: SubtotalRow)
    requires
        0 <= m < rows.len(),
    ensures
        sum_amounts(rows.update(m, v)) == sum_amounts(rows) - rows[m].amount + v.amount,
    decreases rows.len(),
{
    if m == rows.len() - 1 {
        assert(rows.update(m, v).drop_last() =~= rows.drop_last());
        assert(rows.update(m, v).last() == v);
    } else {
        assert(rows.update(m, v).drop_last() =~= rows.drop_last().update(m, v));
        assert(rows.update(m, v).last() == rows.last());
        lemma_sum_update(rows.drop_last(), m, v);
    }
}

proof fn lemma_sum_nonneg(rows: Seq<SubtotalRow>)
    ensures
        sum_amounts(rows) >= 0,
    decreases rows.len(),
{
    if rows.len() > 0 {
        lemma_sum_nonneg(rows.drop_last());
    }
}

proof fn lemma_sum_element_bound(rows: Seq<SubtotalRow>, m: int)
    requires
        0 <= m < rows.len(),
    ensures
        rows[m].amount <= sum_amounts(rows),
    decreases rows.len(),
{
    if m == rows.len() - 1 {
        lemma_sum_nonneg(rows.drop_last());
    } else {
        lemma_sum_element_bound(rows.drop_last(), m);
    }
}

proof fn lemma_sum_swap_remove(rows: Seq<SubtotalRow>, m: int)
    requires
        0 <= m < rows.len(),
    ensures
        sum_amounts(rows.update(m, rows.last()).drop_last()) == sum_amounts(rows)
            - rows[m].amount,
{
    if m == rows.len() - 1 {
        assert(rows.update(m, rows.last()) =~= rows);
    } else {
        lemma_sum_update(rows, m, rows.last());
        assert(rows.update(m, rows.last()).last() == rows.last());
    }
}

/// First row of this buyer, by linear scan.
fn subtotal_index(rows: &Vec<SubtotalRow>, buyer: &str) -> (r: Option<usize>)
    ensures
        match r {
            Some(m) => m < rows@.len() && rows@[m as int].buyer_username@ == buyer@,
            None => forall|m: int|
                0 <= m < rows@.len() ==> (#[trigger] rows@[m]).buyer_username@ != buyer@,
        },
{
    let mut m: usize = 0;
    while m < rows.len()
        invariant
            0 <= m <= rows@.len(),
            forall|x: int| 0 <= x < m ==> (#[trigger] rows@[x]).buyer_username@ != buyer@,
        decreases rows@.len() - m,
    {
        if crate::model::str_eq(rows[m].buyer_username.as_str(), buyer) {
            return Some(m);
        }
        m = m + 1;
    }
    None
}

/// Groups the orders by buyer: one row per distinct buyer, holding that
/// buyer's exact total, the rows together summing to the grand total.
fn collect_subtotals(orders: &Vec<GroupBuyOrder>) -> (rows: Vec<SubtotalRow>)
    requires
        orders_wf(orders@),
    ensures
        forall|a: int, b: int|
            0 <= a < b < rows@.len() ==> (#[trigger] rows@[a]).buyer_username@ != (
            #[trigger] rows@[b]).buyer_username@,
        forall|m: int|
            0 <= m < rows@.len() ==> (#[trigger] rows@[m]).amount == buyer_total(
                orders@,
                rows@[m].buyer_username@,
            ),
        forall|j: int|
            0 <= j < orders@.len() ==> exists|m: int|
                0 <= m < rows@.len() && (#[trigger] orders@[j]).buyer_username@
                    == rows@[m].buyer_username@,
        sum_amounts(rows@) == total_of(orders@),
{
    let mut rows: Vec<SubtotalRow> = Vec::new();
    let mut i: usize = 0;
    assert(orders@.take(0) =~= Seq::<GroupBuyOrder>::empty());
    while i < orders.len()
        invariant
            0 <= i <= orders@.len(),
            orders_wf(orders@),
            forall|a: int, b: int|
                0 <= a < b < rows@.len() ==> (#[trigger] rows@[a]).buyer_username@ != (
                #[trigger] rows@[b]).buyer_username@,
            forall|m: int|
                0 <= m < rows@.len() ==> (#[trigger] rows@[m]).amount == buyer_total(
                    orders@.take(i as int),
                    rows@[m].buyer_username@,
                ),
            forall|j: int|
                0 <= j < i ==> exists|m: int|
                    0 <= m < rows@.len() && (#[trigger] orders@[j]).buyer_username@
                        == rows@[m].buyer_username@,
            sum_amounts(rows@) == total_of(orders@.take(i as int)),
            sum_amounts(rows@) <= (i as int) * (ORDER_AMOUNT_LIMIT as int),
        decreases orders@.len() - i,
    {
        let o = &orders[i];
        proof {
            lemma_total_take_step(orders@, i as int);
            lemma_amount_bound(orders@[i as int]);
            assert((i as int) * (ORDER_AMOUNT_LIMIT as int) + (ORDER_AMOUNT_LIMIT as int) == (i
                + 1) * (ORDER_AMOUNT_LIMIT as int)) by (nonlinear_arith);
            assert((i + 1) * (ORDER_AMOUNT_LIMIT as int) <= u128::MAX) by (nonlinear_arith)
                requires
                    0 <= i + 1 <= 0x1_0000_0000_0000_0000,
            ;
        }
        let amount = (o.unit_price.cents as u128) * (o.quantity as u128);
        let ghost pre_rows = rows@;
        match subtotal_index(&rows, o.buyer_username.as_str()) {
            Some(m) => {
                proof {
                    lemma_sum_element_bound(rows@, m as int);
                    lemma_sum_nonneg(rows@);
                }
                let new_amount = rows[m].amount + amount;
                let ghost buyer = rows@[m as int].buyer_username;
                let slot = &mut rows[m];
                slot.amount = new_amount;
                proof {
                    assert(rows@ == pre_rows.update(m as int, rows@[m as int]));
                    lemma_sum_update(pre_rows, m as int, rows@[m as int]);
                    assert(forall|x: int|
                        0 <= x < rows@.len() && x != m ==> #[trigger] rows@[x] == pre_rows[x]);
                    assert forall|j: int| 0 <= j < i + 1 implies exists|mm: int|
                        0 <= mm < rows@.len() && (#[trigger] orders@[j]).buyer_username@
                            == rows@[mm].buyer_username@ by {
                        if j == i {
                            assert(orders@[j].buyer_username@ == rows@[m as int].buyer_username@);
                        } else {
                            let w = choose|w: int|
                                0 <= w < pre_rows.len() && orders@[j].buyer_username@
                                    == pre_rows[w].buyer_username@;
                            assert(rows@[w].buyer_username@ == pre_rows[w].buyer_username@);
                        }
                    }
                }
            },
            None => {
                proof {
                    assert forall|j: int|
                        0 <= j < orders@.take(i as int).len() implies (#[trigger] orders@.take(
                        i as int,
                    )[j]).buyer_username@ != o.buyer_username@ by {
                        assert(orders@.take(i as int)[j] == orders@[j]);
                        assert(exists|mm: int|
                            0 <= mm < pre_rows.len() && orders@[j].buyer_username@ == (
                            #[trigger] pre_rows[mm]).buyer_username@);
                    }
                    lemma_buyer_total_absent(orders@.take(i as int), o.buyer_username@);
                }
                rows.push(SubtotalRow { buyer_username: o.buyer_username.clone(), amount });
                proof {
                    assert(rows@.drop_last() =~= pre_rows);
                    assert forall|j: int| 0 <= j < i + 1 implies exists|mm: int|
                        0 <= mm < rows@.len() && (#[trigger] orders@[j]).buyer_username@
                            == rows@[mm].buyer_username@ by {
                        if j == i {
                            assert(orders@[j].buyer_username@ == rows@[rows@.len()
                                - 1].buyer_username@);
                        } else {
                            let w = choose|w: int|
                                0 <= w < pre_rows.len() && orders@[j].buyer_username@
                                    == pre_rows[w].buyer_username@;
                            assert(rows@[w].buyer_username@ == pre_rows[w].buyer_username@);
                        }
                    }
                }
            },
        }
        i = i + 1;
    }
    assert(orders@.take(orders@.len() as int) =~= orders@);
    rows
}

/// Sorts subtotal rows by amount, highest first, keeping exactly the same
/// rows and their sum.
#[verifier::rlimit(100)]
fn sort_rows_desc(input: Vec<SubtotalRow>) -> (out: Vec<SubtotalRow>)
    requires
        forall|a: int, b: int|
            0 <= a < b < input@.len() ==> (#[trigger] input@[a]).buyer_username@ != (
            #[trigger] input@[b]).buyer_username@,
    ensures
        out@.len() == input@.len(),
        forall|a: int, b: int|
            0 <= a < b < out@.len() ==> (#[trigger] out@[a]).amount >= (
            #[trigger] out@[b]).amount,
        forall|a: int, b: int|
            0 <= a < b < out@.len() ==> (#[trigger] out@[a]).buyer_username@ != (
            #[trigger] out@[b]).buyer_username@,
        forall|m: int|
            0 <= m < out@.len() ==> exists|x: int|
                0 <= x < input@.len() && (#[trigger] out@[m]) == (#[trigger] input@[x]),
        forall|x: int|
            0 <= x < input@.len() ==> exists|m: int|
                0 <= m < out@.len() && (#[trigger] out@[m]) == (#[trigger] input@[x]),
        sum_amounts(out@) == sum_amounts(input@),
{
    let ghost input0 = input@;
    let mut rem = input;
    let mut out: Vec<SubtotalRow> = Vec::new();
    proof {
        lemma_sum_nonneg(rem@);
    }
    while rem.len() > 0
        invariant
            out@.len() + rem@.len() == input0.len(),
            forall|a: int, b: int|
                0 <= a < b < out@.len() ==> (#[trigger] out@[a]).amount >= (
                #[trigger] out@[b]).amount,
            forall|a: int, b: int|
                0 <= a < b < out@.len() ==> (#[trigger] out@[a]).buyer_username@ != (
                #[trigger] out@[b]).buyer_username@,
            forall|a: int, b: int|
                0 <= a < b < rem@.len() ==> (#[trigger] rem@[a]).buyer_username@ != (
                #[trigger] rem@[b]).buyer_username@,
            forall|a: int, b: int|
                0 <= a < out@.len() && 0 <= b < rem@.len() ==> (
                #[trigger] out@[a]).buyer_username@ != (#[trigger] rem@[b]).buyer_username@,
            forall|a: int, b: int|
                0 <= a < out@.len() && 0 <= b < rem@.len() ==> (#[trigger] out@[a]).amount >= (
                #[trigger] rem@[b]).amount,
            forall|m: int|
                0 <= m < out@.len() ==> exists|x: int|
                    0 <= x < input0.len() && (#[trigger] out@[m]) == (#[trigger] input0[x]),
            forall|y: int|
                0 <= y < rem@.len() ==> exists|x: int|
                    0 <= x < input0.len() && (#[trigger] rem@[y]) == (#[trigger] input0[x]),
            forall|x: int|
                0 <= x < input0.len() ==> ((exists|m: int|
                    0 <= m < out@.len() && (#[trigger] out@[m]) == (#[trigger] input0[x]))
                    || (exists|y: int|
                    0 <= y < rem@.len() && (#[trigger] rem@[y]) == input0[x])),
            sum_amounts(out@) + sum_amounts(rem@) == sum_amounts(input0),
        decreases rem@.len(),
    {
        let mut mx: usize = 0;
        let mut y: usize = 1;
        while y < rem.len()
            invariant
                0 <= mx < y <= rem@.len() || (y <= rem@.len() && mx == 0 && rem@.len() > 0),
                mx < rem@.len(),
                forall|x: int|
                    0 <= x < y ==> (#[trigger] rem@[x]).amount <= rem@[mx as int].amount,
            decreases rem@.len() - y,
        {
            if rem[y].amount > rem[mx].amount {
                mx = y;
            }
            y = y + 1;
        }
        let ghost pre_rem = rem@;
        let ghost pre_out = out@;
        let row = rem.swap_remove(mx);
        proof {
            assert(row == pre_rem[mx as int]);
            assert(rem@ =~= pre_rem.update(mx as int, pre_rem.last()).drop_last());
            lemma_sum_swap_remove(pre_rem, mx as int);
            // Each remaining row is one of the previous remaining rows.
            assert forall|x: int| 0 <= x < rem@.len() implies ((#[trigger] rem@[x])
                == pre_rem[x] || rem@[x] == pre_rem[pre_rem.len() - 1]) by {}
        }
        out.push(row);
        proof {
            assert(out@.drop_last() =~= pre_out);
            assert(out@.last() == row);
            // The extracted row is at least every remaining row.
            assert forall|b: int| 0 <= b < rem@.len() implies (#[trigger] rem@[b]).amount
                <= row.amount by {
                assert(rem@[b] == pre_rem[b] || rem@[b] == pre_rem[pre_rem.len() - 1]);
            }
            assert forall|j: int| 0 <= j < input0.len() implies ((exists|m: int|
                0 <= m < out@.len() && (#[trigger] out@[m]) == (#[trigger] input0[j])) || (exists|
                yy: int,
            |
                0 <= yy < rem@.len() && rem@[yy] == input0[j])) by {
                if exists|m: int| 0 <= m < pre_out.len() && (#[trigger] pre_out[m]) == input0[j] {
                    let m = choose|m: int|
                        0 <= m < pre_out.len() && (#[trigger] pre_out[m]) == input0[j];
                    assert(out@[m] == input0[j]);
                } else {
                    let yy = choose|yy: int|
                        0 <= yy < pre_rem.len() && (#[trigger] pre_rem[yy]) == input0[j];
                    if yy == mx {
                        assert(out@[out@.len() - 1] == input0[j]);
                    } else if yy == pre_rem.len() - 1 {
                        if mx < pre_rem.len() - 1 {
                            assert(rem@[mx as int] == input0[j]);
                        } else {
                            assert(out@[out@.len() - 1] == input0[j]);
                        }
                    } else {
                        assert(rem@[yy] == input0[j]);
                    }
                }
            }
        }
    }
    proof {
        assert(rem@.len() == 0);
        assert(sum_amounts(rem@) == 0);
    }
    out
}

/// The per-buyer subtotals: one row per distinct buyer with that buyer's
/// exact total, sorted by amount, highest first; the rows sum to the grand
/// total of the orders.
pub fn subtotals(orders: &Vec<GroupBuyOrder>) -> (rows: Vec<SubtotalRow>)
    requires
        orders_wf(orders@),
    ensures
        forall|a: int, b: int|
            0 <= a < b < rows@.len() ==> (#[trigger] rows@[a]).amount >= (
            #[trigger] rows@[b]).amount,
        forall|a: int, b: int|
            0 <= a < b < rows@.len() ==> (#[trigger] rows@[a]).buyer_username@ != (
            #[trigger] rows@[b]).buyer_username@,
        forall|m: int|
            0 <= m < rows@.len() ==> (#[trigger] rows@[m]).amount == buyer_total(
                orders@,
                rows@[m].buyer_username@,
            ),
        forall|j: int|
            0 <= j < orders@.len() ==> exists|m: int|
                0 <= m < rows@.len() && (#[trigger] orders@[j]).buyer_username@
                    == rows@[m].buyer_username@,
        sum_amounts(rows@) == total_of(orders@),
{
    let grouped = collect_subtotals(orders);
    let ghost g = grouped@;
    let rows = sort_rows_desc(grouped);
    proof {
        assert forall|m: int| 0 <= m < rows@.len() implies (#[trigger] rows@[m]).amount
            == buyer_total(orders@, rows@[m].buyer_username@) by {
            let x = choose|x: int| 0 <= x < g.len() && (#[trigger] rows@[m]) == (#[trigger] g[x]);
            assert(g[x].amount == buyer_total(orders@, g[x].buyer_username@));
        }
        assert forall|j: int| 0 <= j < orders@.len() implies exists|m: int|
            0 <= m < rows@.len() && (#[trigger] orders@[j]).buyer_username@
                == rows@[m].buyer_username@ by {
            let w = choose|w: int|
                0 <= w < g.len() && orders@[j].buyer_username@ == (
                #[trigger] g[w]).buyer_username@;
            let m = choose|m: int| 0 <= m < rows@.len() && (#[trigger] rows@[m]) == (#[trigger] g[w]);
            assert(rows@[m].buyer_username@ == g[w].buyer_username@);
        }
    }
    rows
}

} // verus!
