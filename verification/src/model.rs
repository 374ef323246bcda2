//! The group-buy data model: sessions, orders, shortage adjustments and
//! audit entries, together with their well-formedness conditions.

use vstd::prelude::*;

use crate::money::{Money, MAX_PRICE_CENTS, MAX_QUANTITY};

verus! {

/// Lifecycle state of a group-buy session.
#[derive(Clone, Copy, Debug, PartialEq, Eq, Structural)]
pub enum GroupBuyStatus {
    Active,
    Closed,
}

impl GroupBuyStatus {
    /// Reads a status from its stored text; anything but "closed" is Active.
    pub fn from_string(s: &str) -> (r: Self)
        ensures
            r == (if s@ == "closed"@ {
                GroupBuyStatus::Closed
            } else {
                GroupBuyStatus::Active
            }),
    {
        proof {
            reveal_strlit("closed");
        }
        let n = s.unicode_len();
        if n == 6 {
            assert(s@.subrange(0, 6) =~= s@);
            if substr_eq_at(s, "closed", 0) {
                GroupBuyStatus::Closed
            } else {
                GroupBuyStatus::Active
            }
        } else {
            GroupBuyStatus::Active
        }
    }

    /// The stored text of the status.
    pub fn as_str(&self) -> (r: &'static str)
        ensures
            r@ == (if self is Closed {
                "closed"@
            } else {
                "active"@
            }),
    {
        match self {
            GroupBuyStatus::Active => "active",
            GroupBuyStatus::Closed => "closed",
        }
    }
}

/// Whether `pat` occurs in `s` starting at position `at`.
pub fn substr_eq_at(s: &str, pat: &str, at: usize) -> (r: bool)
    requires
        at + pat@.len() <= s@.len(),
    ensures
        r == (s@.subrange(at as int, at + pat@.len()) == pat@),
{
    let n = s.unicode_len();
    let m = pat.unicode_len();
    let mut i: usize = 0;
    while i < m
        invariant
            0 <= i <= m,
            m == pat@.len(),
            n == s@.len(),
            at + m <= n,
            forall|j: int| 0 <= j < i ==> s@[at + j] == pat@[j],
        decreases m - i,
    {
        if s.get_char(at + i) != pat.get_char(i) {
            assert(s@.subrange(at as int, at + pat@.len())[i as int] != pat@[i as int]);
            return false;
        }
        i = i + 1;
    }
    assert(s@.subrange(at as int, at + pat@.len()) =~= pat@);
    true
}

/// Character-for-character equality of two texts.
pub fn str_eq(a: &str, b: &str) -> (r: bool)
    ensures
        r == (a@ == b@),
{
    let n = a.unicode_len();
    let m = b.unicode_len();
    if n != m {
        return false;
    }
    assert(a@.subrange(0, n as int) =~= a@);
    substr_eq_at(a, b, 0)
}

/// One menu entry: an item name and its unit price.
#[derive(Debug)]
pub struct Item {
    pub name: String,
    pub price: Money,
}

impl Clone for Item {
    fn clone(&self) -> (r: Self)
        ensures
            r == *self,
    {
        Item { name: self.name.clone(), price: self.price }
    }
}

/// First index of the item named `name`, if present.
pub open spec fn find_item(items: Seq<Item>, name: Seq<char>) -> Option<int>
    decreases items.len(),
{
    if items.len() == 0 {
        None
    } else if items[0].name@ == name {
        Some(0)
    } else {
        match find_item(items.drop_first(), name) {
            Some(i) => Some(i + 1),
            None => None,
        }
    }
}

/// A well-formed menu: distinct item names, prices within bounds.
pub open spec fn items_wf(items: Seq<Item>) -> bool {
    &&& forall|i: int, j: int|
        0 <= i < j < items.len() ==> (#[trigger] items[i].name)@ != (#[trigger] items[j].name)@
    &&& forall|i: int|
        0 <= i < items.len() ==> (#[trigger] items[i].price).cents <= MAX_PRICE_CENTS
}

/// A group-buy session: the aggregate root, mutated under optimistic locking.
#[derive(Debug)]
pub struct GroupBuy {
    pub id: String,
    pub creator_id: String,
    pub creator_username: String,
    pub channel_id: String,
    pub post_id: Option<String>,
    pub merchant_name: String,
    pub description: Option<String>,
    pub metadata: Vec<(String, String)>,
    pub items: Vec<Item>,
    pub status: GroupBuyStatus,
    pub version: u64,
    pub created_at: String,
    pub updated_at: String,
}

impl GroupBuy {
    /// Session validity: a non-empty id and a well-formed menu.
    pub open spec fn wf(self) -> bool {
        &&& self.id@.len() > 0
        &&& items_wf(self.items@)
        &&& self.version >= 1
    }
}

fn clone_opt_string(s: &Option<String>) -> (r: Option<String>)
    ensures
        r == *s,
{
    match s {
        Some(x) => Some(x.clone()),
        None => None,
    }
}

fn clone_string_pairs(v: &Vec<(String, String)>) -> (r: Vec<(String, String)>)
    ensures
        r@ == v@,
{
    let mut out: Vec<(String, String)> = Vec::new();
    let mut i: usize = 0;
    while i < v.len()
        invariant
            0 <= i <= v@.len(),
            out@ =~= v@.take(i as int),
        decreases v@.len() - i,
    {
        let p = &v[i];
        out.push((p.0.clone(), p.1.clone()));
        assert(out@ =~= v@.take(i + 1));
        i = i + 1;
    }
    assert(out@ =~= v@);
    out
}

fn clone_items(v: &Vec<Item>) -> (r: Vec<Item>)
    ensures
        r@ == v@,
{
    let mut out: Vec<Item> = Vec::new();
    let mut i: usize = 0;
    while i < v.len()
        invariant
            0 <= i <= v@.len(),
            out@ =~= v@.take(i as int),
        decreases v@.len() - i,
    {
        out.push(v[i].clone());
        assert(out@ =~= v@.take(i + 1));
        i = i + 1;
    }
    assert(out@ =~= v@);
    out
}

impl Clone for GroupBuy {
    fn clone(&self) -> (r: Self)
        ensures
            r.id == self.id,
            r.creator_id == self.creator_id,
            r.creator_username == self.creator_username,
            r.channel_id == self.channel_id,
            r.post_id == self.post_id,
            r.merchant_name == self.merchant_name,
            r.description == self.description,
            r.metadata@ == self.metadata@,
            r.items@ == self.items@,
            r.status == self.status,
            r.version == self.version,
            r.created_at == self.created_at,
            r.updated_at == self.updated_at,
    {
        GroupBuy {
            id: self.id.clone(),
            creator_id: self.creator_id.clone(),
            creator_username: self.creator_username.clone(),
            channel_id: self.channel_id.clone(),
            post_id: clone_opt_string(&self.post_id),
            merchant_name: self.merchant_name.clone(),
            description: clone_opt_string(&self.description),
            metadata: clone_string_pairs(&self.metadata),
            items: clone_items(&self.items),
            status: self.status,
            version: self.version,
            created_at: self.created_at.clone(),
            updated_at: self.updated_at.clone(),
        }
    }
}

/// One registration: a buyer's commitment to a quantity of one item at the
/// unit price captured when the order was created.
#[derive(Debug)]
pub struct GroupBuyOrder {
    pub id: String,
    pub group_buy_id: String,
    pub registrar_id: String,
    pub registrar_username: String,
    pub buyer_id: String,
    pub buyer_username: String,
    pub item_name: String,
    pub quantity: u32,
    pub original_quantity: Option<u32>,
    pub unit_price: Money,
    pub created_at: String,
}

impl GroupBuyOrder {
    /// Order validity: bounded quantity and price, so sums cannot overflow.
    pub open spec fn wf(self) -> bool {
        &&& self.quantity <= MAX_QUANTITY
        &&& self.unit_price.cents <= MAX_PRICE_CENTS
        &&& match self.original_quantity {
            Some(q) => q <= MAX_QUANTITY,
            None => true,
        }
    }

    /// What the order costs, in hundredths.
    pub open spec fn amount(self) -> int {
        self.unit_price.cents * self.quantity
    }
}

impl Clone for GroupBuyOrder {
    fn clone(&self) -> (r: Self)
        ensures
            r == *self,
    {
        GroupBuyOrder {
            id: self.id.clone(),
            group_buy_id: self.group_buy_id.clone(),
            registrar_id: self.registrar_id.clone(),
            registrar_username: self.registrar_username.clone(),
            buyer_id: self.buyer_id.clone(),
            buyer_username: self.buyer_username.clone(),
            item_name: self.item_name.clone(),
            quantity: self.quantity,
            original_quantity: self.original_quantity,
            unit_price: self.unit_price,
            created_at: self.created_at.clone(),
        }
    }
}

/// One recorded per-order shortage change.
#[derive(Debug)]
pub struct ShortageAdjustment {
    pub group_buy_id: String,
    pub order_id: String,
    pub adjuster_id: String,
    pub adjuster_username: String,
    pub item_name: String,
    pub buyer_id: String,
    pub buyer_username: String,
    pub old_quantity: u32,
    pub new_quantity: u32,
    pub created_at: String,
}

/// One append-only audit record of a mutation.
#[derive(Debug)]
pub struct AuditEntry {
    pub group_buy_id: String,
    pub user_id: String,
    pub username: String,
    pub action: String,
    pub details: String,
    pub created_at: String,
}

/// One row of the result of a batch shortage adjustment.
#[derive(Debug)]
pub struct AdjustmentRecord {
    pub buyer_username: String,
    pub old_quantity: u32,
    pub new_quantity: u32,
}

impl Clone for AdjustmentRecord {
    fn clone(&self) -> (r: Self)
        ensures
            r == *self,
    {
        AdjustmentRecord {
            buyer_username: self.buyer_username.clone(),
            old_quantity: self.old_quantity,
            new_quantity: self.new_quantity,
        }
    }
}

} // verus!
