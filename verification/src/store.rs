//! The transactional store of the engine, with optimistic locking.
//!
//! Every mutation either applies completely — state row, adjustment rows and
//! audit entry together — or leaves the store untouched, exactly as the
//! contracts state.  Versioned mutations succeed only when the caller's
//! `expected_version` matches, and then advance the version by one.

use vstd::prelude::*;

use crate::errors::GroupBuyError;
use crate::json::{audit_details, details_str, spec_pairs, DetailVal, JsonVal};
use crate::model::{
    str_eq, AdjustmentRecord, AuditEntry, GroupBuy, GroupBuyOrder, GroupBuyStatus, Item,
    ShortageAdjustment,
};
use crate::money::{MAX_PRICE_CENTS, MAX_QUANTITY};

verus! {

/// First index of the session with the given id, if any.
pub open spec fn find_session(ss: Seq<GroupBuy>, id: Seq<char>) -> Option<int>
    decreases ss.len(),
{
    if ss.len() == 0 {
        None
    } else if ss[0].id@ == id {
        Some(0)
    } else {
        match find_session(ss.drop_first(), id) {
            Some(i) => Some(i + 1),
            None => None,
        }
    }
}

/// First index of the order with the given id, if any.
pub open spec fn find_order(os: Seq<GroupBuyOrder>, id: Seq<char>) -> Option<int>
    decreases os.len(),
{
    if os.len() == 0 {
        None
    } else if os[0].id@ == id {
        Some(0)
    } else {
        match find_order(os.drop_first(), id) {
            Some(i) => Some(i + 1),
            None => None,
        }
    }
}

/// First quantity listed for the given buyer name, if any.
pub open spec fn lookup_quantity(advs: Seq<(String, u32)>, name: Seq<char>) -> Option<u32>
    decreases advs.len(),
{
    if advs.len() == 0 {
        None
    } else if advs[0].0@ == name {
        Some(advs[0].1)
    } else {
        lookup_quantity(advs.drop_first(), name)
    }
}

/// `new_s` is `old_s` with exactly one element appended.
pub open spec fn appended<T>(old_s: Seq<T>, new_s: Seq<T>) -> bool {
    &&& new_s.len() == old_s.len() + 1
    &&& new_s.take(old_s.len() as int) == old_s
}

pub proof fn lemma_find_session_props(ss: Seq<GroupBuy>, id: Seq<char>)
    ensures
        match find_session(ss, id) {
            Some(i) => 0 <= i < ss.len() && ss[i].id@ == id && (forall|j: int|
                0 <= j < i ==> (#[trigger] ss[j].id)@ != id),
            None => forall|j: int| 0 <= j < ss.len() ==> (#[trigger] ss[j].id)@ != id,
        },
    decreases ss.len(),
{
    if ss.len() > 0 && ss[0].id@ != id {
        let rest = ss.drop_first();
        lemma_find_session_props(rest, id);
        match find_session(ss, id) {
            Some(i) => {
                assert(find_session(rest, id) == Some(i - 1));
                assert(ss[i] == rest[i - 1]);
                assert forall|j: int| 0 <= j < i implies (#[trigger] ss[j].id)@ != id by {
                    if j > 0 {
                        assert(ss[j] == rest[j - 1]);
                        assert(rest[j - 1].id@ != id);
                    }
                }
            },
            None => {
                assert forall|j: int| 0 <= j < ss.len() implies (#[trigger] ss[j].id)@ != id by {
                    if j > 0 {
                        assert(ss[j] == rest[j - 1]);
                        assert(rest[j - 1].id@ != id);
                    }
                }
            },
        }
    }
}

pub proof fn lemma_find_session_first(ss: Seq<GroupBuy>, id: Seq<char>, i: int)
    requires
        0 <= i < ss.len(),
        ss[i].id@ == id,
        forall|j: int| 0 <= j < i ==> (#[trigger] ss[j].id)@ != id,
    ensures
        find_session(ss, id) == Some(i),
    decreases ss.len(),
{
    if i > 0 {
        lemma_find_session_first(ss.drop_first(), id, i - 1);
    }
}

pub proof fn lemma_find_order_first(os: Seq<GroupBuyOrder>, id: Seq<char>, i: int)
    requires
        0 <= i < os.len(),
        os[i].id@ == id,
        forall|j: int| 0 <= j < i ==> (#[trigger] os[j].id)@ != id,
    ensures
        find_order(os, id) == Some(i),
    decreases os.len(),
{
    if i > 0 {
        lemma_find_order_first(os.drop_first(), id, i - 1);
    }
}

pub proof fn lemma_find_session_absent(ss: Seq<GroupBuy>, id: Seq<char>)
    requires
        forall|j: int| 0 <= j < ss.len() ==> (#[trigger] ss[j].id)@ != id,
    ensures
        find_session(ss, id) is None,
    decreases ss.len(),
{
    if ss.len() > 0 {
        lemma_find_session_absent(ss.drop_first(), id);
    }
}

proof fn lemma_find_order_absent(os: Seq<GroupBuyOrder>, id: Seq<char>)
    requires
        forall|j: int| 0 <= j < os.len() ==> (#[trigger] os[j].id)@ != id,
    ensures
        find_order(os, id) is None,
    decreases os.len(),
{
    if os.len() > 0 {
        lemma_find_order_absent(os.drop_first(), id);
    }
}

/// Whether a versioned mutation may apply to this session.
pub open spec fn version_matches(s: GroupBuy, expected: int) -> bool {
    &&& s.version == expected
    &&& s.version < u64::MAX
}

/// How a successful `update_items` rewrites one session: the menu is
/// replaced, the version advances by one, everything else is kept.
pub open spec fn items_updated(pre: GroupBuy, post: GroupBuy, items: Seq<Item>, now: Seq<char>) -> bool {
    &&& post.id == pre.id
    &&& post.creator_id == pre.creator_id
    &&& post.creator_username == pre.creator_username
    &&& post.channel_id == pre.channel_id
    &&& post.post_id == pre.post_id
    &&& post.merchant_name == pre.merchant_name
    &&& post.description == pre.description
    &&& post.metadata == pre.metadata
    &&& post.items@ == items
    &&& post.status == pre.status
    &&& post.version == pre.version + 1
    &&& post.created_at == pre.created_at
    &&& post.updated_at@ == now
}

/// How a successful `update_status` rewrites one session.
pub open spec fn status_updated(
    pre: GroupBuy,
    post: GroupBuy,
    status: GroupBuyStatus,
    now: Seq<char>,
) -> bool {
    &&& post.id == pre.id
    &&& post.creator_id == pre.creator_id
    &&& post.creator_username == pre.creator_username
    &&& post.channel_id == pre.channel_id
    &&& post.post_id == pre.post_id
    &&& post.merchant_name == pre.merchant_name
    &&& post.description == pre.description
    &&& post.metadata == pre.metadata
    &&& post.items == pre.items
    &&& post.status == status
    &&& post.version == pre.version + 1
    &&& post.created_at == pre.created_at
    &&& post.updated_at@ == now
}

/// How a shortage adjustment rewrites one order: the quantity is replaced,
/// and `original_quantity` is set the first time the quantity decreases,
/// never overwritten.
pub open spec fn order_adjusted(pre: GroupBuyOrder, post: GroupBuyOrder, new_q: int) -> bool {
    &&& post.id == pre.id
    &&& post.group_buy_id == pre.group_buy_id
    &&& post.registrar_id == pre.registrar_id
    &&& post.registrar_username == pre.registrar_username
    &&& post.buyer_id == pre.buyer_id
    &&& post.buyer_username == pre.buyer_username
    &&& post.item_name == pre.item_name
    &&& post.quantity == new_q
    &&& post.original_quantity == (if pre.original_quantity is None && new_q < pre.quantity {
        Some(pre.quantity)
    } else {
        pre.original_quantity
    })
    &&& post.unit_price == pre.unit_price
    &&& post.created_at == pre.created_at
}

/// How binding the panel post rewrites a session that had none bound yet.
pub open spec fn post_id_bound(pre: GroupBuy, post: GroupBuy, p: Seq<char>, now: Seq<char>) -> bool {
    &&& post.post_id matches Some(q) && q@ == p
    &&& post.id == pre.id
    &&& post.creator_id == pre.creator_id
    &&& post.creator_username == pre.creator_username
    &&& post.channel_id == pre.channel_id
    &&& post.merchant_name == pre.merchant_name
    &&& post.description == pre.description
    &&& post.metadata == pre.metadata
    &&& post.items == pre.items
    &&& post.status == pre.status
    &&& post.version == pre.version
    &&& post.created_at == pre.created_at
    &&& post.updated_at@ == now
}

/// The in-memory store: sessions, orders, shortage adjustments and the
/// append-only audit log.  A persistence layer sits outside the library and
/// holds exactly this state.
#[derive(Debug)]
pub struct Database {
    pub sessions: Vec<GroupBuy>,
    pub orders: Vec<GroupBuyOrder>,
    pub adjustments: Vec<ShortageAdjustment>,
    pub logs: Vec<AuditEntry>,
}

impl Database {
    /// Store validity: distinct session ids and bounded rows.
    pub open spec fn wf(self) -> bool {
        &&& forall|i: int, j: int|
            0 <= i < j < self.sessions@.len() ==> (#[trigger] self.sessions@[i].id)@ != (
            #[trigger] self.sessions@[j].id)@
        &&& forall|i: int|
            0 <= i < self.sessions@.len() ==> (#[trigger] self.sessions@[i]).wf()
        &&& forall|i: int| 0 <= i < self.orders@.len() ==> (#[trigger] self.orders@[i]).wf()
    }

    /// An empty store.
    pub fn new() -> (r: Self)
        ensures
            r.wf(),
            r.sessions@.len() == 0,
            r.orders@.len() == 0,
            r.adjustments@.len() == 0,
            r.logs@.len() == 0,
    {
        Database {
            sessions: Vec::new(),
            orders: Vec::new(),
            adjustments: Vec::new(),
            logs: Vec::new(),
        }
    }

    /// Index of the session with the given id, by linear scan.
    pub(crate) fn session_index(&self, id: &str) -> (r: Option<usize>)
        ensures
            match r {
                Some(i) => find_session(self.sessions@, id@) == Some(i as int) && i
                    < self.sessions@.len(),
                None => find_session(self.sessions@, id@) is None,
            },
    {
        let mut i: usize = 0;
        while i < self.sessions.len()
            invariant
                0 <= i <= self.sessions@.len(),
                forall|j: int| 0 <= j < i ==> (#[trigger] self.sessions@[j].id)@ != id@,
            decreases self.sessions@.len() - i,
        {
            if str_eq(self.sessions[i].id.as_str(), id) {
                proof {
                    lemma_find_session_first(self.sessions@, id@, i as int);
                }
                return Some(i);
            }
            i = i + 1;
        }
        proof {
            lemma_find_session_absent(self.sessions@, id@);
        }
        None
    }

    /// Index of the order with the given id, by linear scan.
    fn order_index(&self, id: &str) -> (r: Option<usize>)
        ensures
            match r {
                Some(i) => find_order(self.orders@, id@) == Some(i as int) && i
                    < self.orders@.len(),
                None => find_order(self.orders@, id@) is None,
            },
    {
        let mut i: usize = 0;
        while i < self.orders.len()
            invariant
                0 <= i <= self.orders@.len(),
                forall|j: int| 0 <= j < i ==> (#[trigger] self.orders@[j].id)@ != id@,
            decreases self.orders@.len() - i,
        {
            if str_eq(self.orders[i].id.as_str(), id) {
                proof {
                    lemma_find_order_first(self.orders@, id@, i as int);
                }
                return Some(i);
            }
            i = i + 1;
        }
        proof {
            lemma_find_order_absent(self.orders@, id@);
        }
        None
    }

    /// Appends one audit entry; nothing else changes.
    pub fn log_action(
        &mut self,
        group_buy_id: &str,
        user_id: &str,
        username: &str,
        action: &str,
        details: Option<&str>,
        created_at: &str,
    )
        ensures
            final(self).sessions == old(self).sessions,
            final(self).orders == old(self).orders,
            final(self).adjustments == old(self).adjustments,
            appended(old(self).logs@, final(self).logs@),
            ({
                let e = final(self).logs@.last();
                &&& e.group_buy_id@ == group_buy_id@
                &&& e.user_id@ == user_id@
                &&& e.username@ == username@
                &&& e.action@ == action@
                &&& e.details@ == (match details {
                    Some(d) => d@,
                    None => "{}"@,
                })
                &&& e.created_at@ == created_at@
            }),
    {
        let details_text = match details {
            Some(d) => String::from_str(d),
            None => String::from_str("{}"),
        };
        self.logs.push(
            AuditEntry {
                group_buy_id: String::from_str(group_buy_id),
                user_id: String::from_str(user_id),
                username: String::from_str(username),
                action: String::from_str(action),
                details: details_text,
                created_at: String::from_str(created_at),
            },
        );
        assert(final(self).logs@.take(old(self).logs@.len() as int) =~= old(self).logs@);
    }

    /// Creates a session row and its `create` audit entry, atomically.
    /// Fails on an ill-formed session or a duplicate id, changing nothing.
    pub fn create_group_buy(&mut self, group_buy: GroupBuy) -> (r: Result<(), GroupBuyError>)
        requires
            old(self).wf(),
        ensures
            final(self).wf(),
            r == Err::<(), GroupBuyError>(GroupBuyError::Validation) <==> !group_buy.wf(),
            r == Err::<(), GroupBuyError>(GroupBuyError::DuplicateId) <==> (group_buy.wf()
                && find_session(old(self).sessions@, group_buy.id@) is Some),
            r is Err ==> *final(self) == *old(self),
            r is Ok <==> (group_buy.wf() && find_session(old(self).sessions@, group_buy.id@)
                is None),
            r is Ok ==> ({
                &&& appended(old(self).sessions@, final(self).sessions@)
                &&& final(self).sessions@.last() == group_buy
                &&& final(self).orders == old(self).orders
                &&& final(self).adjustments == old(self).adjustments
                &&& appended(old(self).logs@, final(self).logs@)
                &&& ({
                    let e = final(self).logs@.last();
                    &&& e.group_buy_id@ == group_buy.id@
                    &&& e.user_id@ == group_buy.creator_id@
                    &&& e.username@ == group_buy.creator_username@
                    &&& e.action@ == "create"@
                    &&& e.created_at@ == group_buy.created_at@
                    &&& e.details@ == details_str(
                        seq![
                            ("merchant_name"@, JsonVal::Text(group_buy.merchant_name@)),
                            ("action"@, JsonVal::Text("create"@)),
                        ],
                        group_buy.version as int,
                    )
                })
            }),
    {
        if !check_group_buy_wf(&group_buy) {
            return Err(GroupBuyError::Validation);
        }
        if self.session_index(group_buy.id.as_str()).is_some() {
            return Err(GroupBuyError::DuplicateId);
        }
        let mut pairs: Vec<(String, DetailVal)> = Vec::new();
        pairs.push(
            (String::from_str("merchant_name"), DetailVal::Text(group_buy.merchant_name.clone())),
        );
        pairs.push((String::from_str("action"), DetailVal::Text(String::from_str("create"))));
        let details = audit_details(&pairs, group_buy.version);
        assert(spec_pairs(pairs@) =~= seq![
            ("merchant_name"@, JsonVal::Text(group_buy.merchant_name@)),
            ("action"@, JsonVal::Text("create"@)),
        ]);
        let id = group_buy.id.clone();
        let creator_id = group_buy.creator_id.clone();
        let creator_username = group_buy.creator_username.clone();
        let created_at = group_buy.created_at.clone();
        proof {
            lemma_find_session_props(old(self).sessions@, group_buy.id@);
        }
        self.sessions.push(group_buy);
        assert(self.sessions@.take(old(self).sessions@.len() as int) =~= old(self).sessions@);
        self.log_action(
            id.as_str(),
            creator_id.as_str(),
            creator_username.as_str(),
            "create",
            Some(details.as_str()),
            created_at.as_str(),
        );
        Ok(())
    }

    /// Looks a session up by id.
    pub fn get_group_buy(&self, id: &str) -> (r: Option<&GroupBuy>)
        ensures
            match find_session(self.sessions@, id@) {
                Some(i) => match r {
                    Some(gb) => *gb == self.sessions@[i],
                    None => false,
                },
                None => r is None,
            },
    {
        match self.session_index(id) {
            Some(i) => Some(&self.sessions[i]),
            None => None,
        }
    }

    /// Replaces the menu of an Active session whose version matches, advances
    /// the version, and writes the `update_items` audit entry; otherwise
    /// changes nothing and says precisely why.
    pub fn update_items(
        &mut self,
        id: &str,
        items: Vec<Item>,
        expected_version: u64,
        user_id: &str,
        username: &str,
        now: &str,
    ) -> (r: Result<(), GroupBuyError>)
        requires
            old(self).wf(),
        ensures
            final(self).wf(),
            r == Err::<(), GroupBuyError>(GroupBuyError::Validation) <==> !crate::model::items_wf(
                items@,
            ),
            r == Err::<(), GroupBuyError>(GroupBuyError::NotFound) <==> (crate::model::items_wf(
                items@,
            ) && find_session(old(self).sessions@, id@) is None),
            r == Err::<(), GroupBuyError>(GroupBuyError::VersionConflict) <==> ({
                &&& crate::model::items_wf(items@)
                &&& match find_session(old(self).sessions@, id@) {
                    Some(i) => !(version_matches(old(self).sessions@[i], expected_version as int)
                        && old(self).sessions@[i].status is Active),
                    None => false,
                }
            }),
            r is Err ==> *final(self) == *old(self),
            r is Ok <==> (crate::model::items_wf(items@) && match find_session(
                old(self).sessions@,
                id@,
            ) {
                Some(i) => old(self).sessions@[i].status is Active && version_matches(
                    old(self).sessions@[i],
                    expected_version as int,
                ),
                None => false,
            }),
            r is Ok ==> ({
                let i = find_session(old(self).sessions@, id@)->Some_0;
                &&& find_session(old(self).sessions@, id@) is Some
                &&& old(self).sessions@[i].status is Active
                &&& version_matches(old(self).sessions@[i], expected_version as int)
                &&& final(self).sessions@.len() == old(self).sessions@.len()
                &&& forall|j: int|
                    0 <= j < old(self).sessions@.len() && j != i ==> final(self).sessions@[j]
                        == old(self).sessions@[j]
                &&& items_updated(old(self).sessions@[i], final(self).sessions@[i], items@, now@)
                &&& final(self).orders == old(self).orders
                &&& final(self).adjustments == old(self).adjustments
                &&& appended(old(self).logs@, final(self).logs@)
                &&& ({
                    let e = final(self).logs@.last();
                    &&& e.group_buy_id@ == id@
                    &&& e.user_id@ == user_id@
                    &&& e.username@ == username@
                    &&& e.action@ == "update_items"@
                    &&& e.created_at@ == now@
                    &&& e.details@ == details_str(
                        seq![
                            ("items_count"@, JsonVal::Num(items@.len() as int)),
                            ("action"@, JsonVal::Text("update_items"@)),
                        ],
                        expected_version as int,
                    )
                })
            }),
    {
        if !check_items_wf(&items) {
            return Err(GroupBuyError::Validation);
        }
        let i = match self.session_index(id) {
            Some(i) => i,
            None => {
                return Err(GroupBuyError::NotFound);
            },
        };
        if !(self.sessions[i].version == expected_version && self.sessions[i].version < u64::MAX
            && matches!(self.sessions[i].status, GroupBuyStatus::Active)) {
            return Err(GroupBuyError::VersionConflict);
        }
        let items_count = items.len() as u64;
        let s = &mut self.sessions[i];
        s.items = items;
        s.version = s.version + 1;
        s.updated_at = String::from_str(now);
        let mut pairs: Vec<(String, DetailVal)> = Vec::new();
        pairs.push((String::from_str("items_count"), DetailVal::Num(items_count)));
        pairs.push(
            (String::from_str("action"), DetailVal::Text(String::from_str("update_items"))),
        );
        let details = audit_details(&pairs, expected_version);
        assert(spec_pairs(pairs@) =~= seq![
            ("items_count"@, JsonVal::Num(items_count as int)),
            ("action"@, JsonVal::Text("update_items"@)),
        ]);
        self.log_action(id, user_id, username, "update_items", Some(details.as_str()), now);
        Ok(())
    }

    /// Switches the status of a session whose version matches, advances the
    /// version, and writes the status audit entry; otherwise changes nothing.
    pub fn update_status(
        &mut self,
        id: &str,
        status: GroupBuyStatus,
        expected_version: u64,
        user_id: &str,
        username: &str,
        now: &str,
    ) -> (r: Result<(), GroupBuyError>)
        requires
            old(self).wf(),
        ensures
            final(self).wf(),
            r == Err::<(), GroupBuyError>(GroupBuyError::NotFound) <==> find_session(
                old(self).sessions@,
                id@,
            ) is None,
            r == Err::<(), GroupBuyError>(GroupBuyError::VersionConflict) <==> ({
                match find_session(old(self).sessions@, id@) {
                    Some(i) => !version_matches(old(self).sessions@[i], expected_version as int),
                    None => false,
                }
            }),
            r is Err ==> *final(self) == *old(self),
            r is Ok <==> (match find_session(old(self).sessions@, id@) {
                Some(i) => version_matches(old(self).sessions@[i], expected_version as int),
                None => false,
            }),
            r is Ok ==> ({
                let i = find_session(old(self).sessions@, id@)->Some_0;
                &&& find_session(old(self).sessions@, id@) is Some
                &&& version_matches(old(self).sessions@[i], expected_version as int)
                &&& final(self).sessions@.len() == old(self).sessions@.len()
                &&& forall|j: int|
                    0 <= j < old(self).sessions@.len() && j != i ==> final(self).sessions@[j]
                        == old(self).sessions@[j]
                &&& status_updated(old(self).sessions@[i], final(self).sessions@[i], status, now@)
                &&& final(self).orders == old(self).orders
                &&& final(self).adjustments == old(self).adjustments
                &&& appended(old(self).logs@, final(self).logs@)
                &&& ({
                    let e = final(self).logs@.last();
                    &&& e.group_buy_id@ == id@
                    &&& e.user_id@ == user_id@
                    &&& e.username@ == username@
                    &&& e.action@ == (if status is Closed {
                        "update_status_closed"@
                    } else {
                        "update_status_active"@
                    })
                    &&& e.created_at@ == now@
                    &&& e.details@ == details_str(
                        seq![
                            (
                                "new_status"@,
                                JsonVal::Text(
                                    if status is Closed {
                                        "closed"@
                                    } else {
                                        "active"@
                                    },
                                ),
                            ),
                            (
                                "action"@,
                                JsonVal::Text(
                                    if status is Closed {
                                        "update_status_closed"@
                                    } else {
                                        "update_status_active"@
                                    },
                                ),
                            ),
                        ],
                        expected_version as int,
                    )
                })
            }),
    {
        let i = match self.session_index(id) {
            Some(i) => i,
            None => {
                return Err(GroupBuyError::NotFound);
            },
        };
        if !(self.sessions[i].version == expected_version && self.sessions[i].version
            < u64::MAX) {
            return Err(GroupBuyError::VersionConflict);
        }
        let s = &mut self.sessions[i];
        s.status = status;
        s.version = s.version + 1;
        s.updated_at = String::from_str(now);
        let action = match status {
            GroupBuyStatus::Closed => "update_status_closed",
            GroupBuyStatus::Active => "update_status_active",
        };
        let mut pairs: Vec<(String, DetailVal)> = Vec::new();
        pairs.push(
            (String::from_str("new_status"), DetailVal::Text(String::from_str(status.as_str()))),
        );
        pairs.push((String::from_str("action"), DetailVal::Text(String::from_str(action))));
        let details = audit_details(&pairs, expected_version);
        assert(spec_pairs(pairs@) =~= seq![
            (
                "new_status"@,
                JsonVal::Text(
                    if status is Closed {
                        "closed"@
                    } else {
                        "active"@
                    },
                ),
            ),
            (
                "action"@,
                JsonVal::Text(
                    if status is Closed {
                        "update_status_closed"@
                    } else {
                        "update_status_active"@
                    },
                ),
            ),
        ]);
        self.log_action(id, user_id, username, action, Some(details.as_str()), now);
        Ok(())
    }

    /// Binds the panel post to the session, once: the id is written only
    /// while it is still unset, and never rewritten afterwards.
    pub fn update_post_id(&mut self, id: &str, post_id: &str, now: &str) -> (r: Result<
        (),
        GroupBuyError,
    >)
        requires
            old(self).wf(),
        ensures
            final(self).wf(),
            r == Err::<(), GroupBuyError>(GroupBuyError::NotFound) <==> find_session(
                old(self).sessions@,
                id@,
            ) is None,
            r is Err ==> *final(self) == *old(self),
            r is Ok <==> find_session(old(self).sessions@, id@) is Some,
            r is Ok ==> ({
                let i = find_session(old(self).sessions@, id@)->Some_0;
                &&& find_session(old(self).sessions@, id@) is Some
                &&& final(self).orders == old(self).orders
                &&& final(self).adjustments == old(self).adjustments
                &&& final(self).logs == old(self).logs
                &&& final(self).sessions@.len() == old(self).sessions@.len()
                &&& forall|j: int|
                    0 <= j < old(self).sessions@.len() && j != i ==> final(self).sessions@[j]
                        == old(self).sessions@[j]
                &&& (old(self).sessions@[i].post_id is Some ==> final(self).sessions@[i] == old(
                    self,
                ).sessions@[i])
                &&& (old(self).sessions@[i].post_id is None ==> post_id_bound(
                    old(self).sessions@[i],
                    final(self).sessions@[i],
                    post_id@,
                    now@,
                ))
            }),
    {
        let i = match self.session_index(id) {
            Some(i) => i,
            None => {
                return Err(GroupBuyError::NotFound);
            },
        };
        if self.sessions[i].post_id.is_none() {
            let s = &mut self.sessions[i];
            s.post_id = Some(String::from_str(post_id));
            s.updated_at = String::from_str(now);
        }
        Ok(())
    }
}

/// Whether an order row belongs to this session.
pub open spec fn order_in_session(o: GroupBuyOrder, gb: Seq<char>) -> bool {
    o.group_buy_id@ == gb
}

/// Whether an order row belongs to this session and buyer.
pub open spec fn order_of_buyer(o: GroupBuyOrder, gb: Seq<char>, buyer: Seq<char>) -> bool {
    o.group_buy_id@ == gb && o.buyer_id@ == buyer
}

/// Whether an order row belongs to this session, buyer and item.
pub open spec fn order_of_buyer_item(
    o: GroupBuyOrder,
    gb: Seq<char>,
    buyer: Seq<char>,
    item: Seq<char>,
) -> bool {
    o.group_buy_id@ == gb && o.buyer_id@ == buyer && o.item_name@ == item
}

/// The session's version, or zero when the session is absent: what a delete
/// records in its audit entry.
pub open spec fn session_version_or_zero(ss: Seq<GroupBuy>, id: Seq<char>) -> int {
    match find_session(ss, id) {
        Some(i) => ss[i].version as int,
        None => 0,
    }
}

proof fn lemma_lookup_quantity_bound(advs: Seq<(String, u32)>, name: Seq<char>, bound: int)
    requires
        forall|i: int| 0 <= i < advs.len() ==> (#[trigger] advs[i]).1 <= bound,
    ensures
        match lookup_quantity(advs, name) {
            Some(q) => q <= bound,
            None => true,
        },
    decreases advs.len(),
{
    if advs.len() > 0 && advs[0].0@ != name {
        assert(forall|i: int|
            0 <= i < advs.drop_first().len() ==> #[trigger] advs.drop_first()[i] == advs[i + 1]);
        lemma_lookup_quantity_bound(advs.drop_first(), name, bound);
    }
}

/// First quantity listed for `name`, by linear scan.
fn lookup_qty(advs: &Vec<(String, u32)>, name: &str) -> (r: Option<u32>)
    ensures
        r == lookup_quantity(advs@, name@),
{
    let mut i: usize = 0;
    while i < advs.len()
        invariant
            0 <= i <= advs@.len(),
            forall|j: int| 0 <= j < i ==> (#[trigger] advs@[j]).0@ != name@,
        decreases advs@.len() - i,
    {
        if str_eq(advs[i].0.as_str(), name) {
            proof {
                lemma_lookup_quantity_first(advs@, name@, i as int);
            }
            return Some(advs[i].1);
        }
        i = i + 1;
    }
    proof {
        lemma_lookup_quantity_absent(advs@, name@);
    }
    None
}

proof fn lemma_lookup_quantity_first(advs: Seq<(String, u32)>, name: Seq<char>, i: int)
    requires
        0 <= i < advs.len(),
        advs[i].0@ == name,
        forall|j: int| 0 <= j < i ==> (#[trigger] advs[j]).0@ != name,
    ensures
        lookup_quantity(advs, name) == Some(advs[i].1),
    decreases advs.len(),
{
    if i > 0 {
        assert(forall|j: int|
            0 <= j < advs.drop_first().len() ==> #[trigger] advs.drop_first()[j] == advs[j + 1]);
        lemma_lookup_quantity_first(advs.drop_first(), name, i - 1);
    }
}

proof fn lemma_lookup_quantity_absent(advs: Seq<(String, u32)>, name: Seq<char>)
    requires
        forall|j: int| 0 <= j < advs.len() ==> (#[trigger] advs[j]).0@ != name,
    ensures
        lookup_quantity(advs, name) is None,
    decreases advs.len(),
{
    if advs.len() > 0 {
        assert(forall|j: int|
            0 <= j < advs.drop_first().len() ==> #[trigger] advs.drop_first()[j] == advs[j + 1]);
        lemma_lookup_quantity_absent(advs.drop_first(), name);
    }
}

impl Database {
    /// Creates an order row and its `register` audit entry, atomically.
    /// The parent session must exist and be Active; the order must carry a
    /// positive bounded quantity, a bounded price, and no original quantity.
    pub fn create_order(&mut self, order: GroupBuyOrder) -> (r: Result<(), GroupBuyError>)
        requires
            old(self).wf(),
        ensures
            final(self).wf(),
            r == Err::<(), GroupBuyError>(GroupBuyError::Validation) <==> !(1 <= order.quantity
                <= MAX_QUANTITY && order.unit_price.cents <= MAX_PRICE_CENTS
                && order.original_quantity is None),
            r == Err::<(), GroupBuyError>(GroupBuyError::NotFound) <==> (1 <= order.quantity
                <= MAX_QUANTITY && order.unit_price.cents <= MAX_PRICE_CENTS
                && order.original_quantity is None && find_session(
                old(self).sessions@,
                order.group_buy_id@,
            ) is None),
            r == Err::<(), GroupBuyError>(GroupBuyError::PreconditionFailed) <==> (1
                <= order.quantity <= MAX_QUANTITY && order.unit_price.cents <= MAX_PRICE_CENTS
                && order.original_quantity is None && match find_session(
                old(self).sessions@,
                order.group_buy_id@,
            ) {
                Some(i) => old(self).sessions@[i].status is Closed,
                None => false,
            }),
            r is Err ==> *final(self) == *old(self),
            r is Ok <==> (1 <= order.quantity <= MAX_QUANTITY && order.unit_price.cents
                <= MAX_PRICE_CENTS && order.original_quantity is None && match find_session(
                old(self).sessions@,
                order.group_buy_id@,
            ) {
                Some(i) => old(self).sessions@[i].status is Active,
                None => false,
            }),
            r is Ok ==> ({
                let i = find_session(old(self).sessions@, order.group_buy_id@)->Some_0;
                &&& find_session(old(self).sessions@, order.group_buy_id@) is Some
                &&& old(self).sessions@[i].status is Active
                &&& final(self).sessions == old(self).sessions
                &&& final(self).adjustments == old(self).adjustments
                &&& appended(old(self).orders@, final(self).orders@)
                &&& final(self).orders@.last() == order
                &&& appended(old(self).logs@, final(self).logs@)
                &&& ({
                    let e = final(self).logs@.last();
                    &&& e.group_buy_id@ == order.group_buy_id@
                    &&& e.user_id@ == order.registrar_id@
                    &&& e.username@ == order.registrar_username@
                    &&& e.action@ == "register"@
                    &&& e.created_at@ == order.created_at@
                    &&& e.details@ == details_str(
                        seq![
                            ("buyer"@, JsonVal::Text(order.buyer_username@)),
                            ("item"@, JsonVal::Text(order.item_name@)),
                            ("quantity"@, JsonVal::Num(order.quantity as int)),
                            ("action"@, JsonVal::Text("register"@)),
                        ],
                        old(self).sessions@[i].version as int,
                    )
                })
            }),
    {
        if !(order.quantity >= 1 && order.quantity <= MAX_QUANTITY && order.unit_price.cents
            <= MAX_PRICE_CENTS && order.original_quantity.is_none()) {
            return Err(GroupBuyError::Validation);
        }
        let i = match self.session_index(order.group_buy_id.as_str()) {
            Some(i) => i,
            None => {
                return Err(GroupBuyError::NotFound);
            },
        };
        if matches!(self.sessions[i].status, GroupBuyStatus::Closed) {
            return Err(GroupBuyError::PreconditionFailed);
        }
        let version = self.sessions[i].version;
        let mut pairs: Vec<(String, DetailVal)> = Vec::new();
        pairs.push((String::from_str("buyer"), DetailVal::Text(order.buyer_username.clone())));
        pairs.push((String::from_str("item"), DetailVal::Text(order.item_name.clone())));
        pairs.push((String::from_str("quantity"), DetailVal::Num(order.quantity as u64)));
        pairs.push((String::from_str("action"), DetailVal::Text(String::from_str("register"))));
        let details = audit_details(&pairs, version);
        assert(spec_pairs(pairs@) =~= seq![
            ("buyer"@, JsonVal::Text(order.buyer_username@)),
            ("item"@, JsonVal::Text(order.item_name@)),
            ("quantity"@, JsonVal::Num(order.quantity as int)),
            ("action"@, JsonVal::Text("register"@)),
        ]);
        let group_buy_id = order.group_buy_id.clone();
        let registrar_id = order.registrar_id.clone();
        let registrar_username = order.registrar_username.clone();
        let created_at = order.created_at.clone();
        self.orders.push(order);
        assert(self.orders@.take(old(self).orders@.len() as int) =~= old(self).orders@);
        self.log_action(
            group_buy_id.as_str(),
            registrar_id.as_str(),
            registrar_username.as_str(),
            "register",
            Some(details.as_str()),
            created_at.as_str(),
        );
        Ok(())
    }

    /// All orders of one session, in creation order: the store appends a
    /// row exactly when an order is created, so the stored subsequence this
    /// returns is the creation-time (`created_at`-ascending) order, without
    /// reading the timestamp texts themselves.
    pub fn get_orders_by_group_buy(&self, group_buy_id: &str) -> (r: Vec<GroupBuyOrder>)
        requires
            self.wf(),
        ensures
            r@ == self.orders@.filter(|o: GroupBuyOrder| order_in_session(o, group_buy_id@)),
            forall|k: int| 0 <= k < r@.len() ==> (#[trigger] r@[k]).wf(),
    {
        let ghost pred = |o: GroupBuyOrder| order_in_session(o, group_buy_id@);
        let mut out: Vec<GroupBuyOrder> = Vec::new();
        let mut i: usize = 0;
        proof {
            reveal(Seq::filter);
        }
        while i < self.orders.len()
            invariant
                0 <= i <= self.orders@.len(),
                pred == (|o: GroupBuyOrder| order_in_session(o, group_buy_id@)),
                out@ == self.orders@.take(i as int).filter(pred),
                forall|k: int| 0 <= k < self.orders@.len() ==> (#[trigger] self.orders@[k]).wf(),
                forall|k: int| 0 <= k < out@.len() ==> (#[trigger] out@[k]).wf(),
            decreases self.orders@.len() - i,
        {
            proof {
                reveal(Seq::filter);
                assert(self.orders@.take(i + 1).drop_last() =~= self.orders@.take(i as int));
            }
            if str_eq(self.orders[i].group_buy_id.as_str(), group_buy_id) {
                out.push(self.orders[i].clone());
            }
            i = i + 1;
        }
        proof {
            assert(self.orders@.take(self.orders@.len() as int) =~= self.orders@);
        }
        out
    }

    /// All orders of one session; the same rows the session view holds.
    pub fn get_all_orders(&self, group_buy_id: &str) -> (r: Vec<GroupBuyOrder>)
        requires
            self.wf(),
        ensures
            r@ == self.orders@.filter(|o: GroupBuyOrder| order_in_session(o, group_buy_id@)),
            forall|k: int| 0 <= k < r@.len() ==> (#[trigger] r@[k]).wf(),
    {
        self.get_orders_by_group_buy(group_buy_id)
    }

    /// The orders one buyer holds in one session.
    pub fn get_buyer_orders(&self, group_buy_id: &str, buyer_id: &str) -> (r: Vec<GroupBuyOrder>)
        requires
            self.wf(),
        ensures
            r@ == self.orders@.filter(
                |o: GroupBuyOrder| order_of_buyer(o, group_buy_id@, buyer_id@),
            ),
            forall|k: int| 0 <= k < r@.len() ==> (#[trigger] r@[k]).wf(),
    {
        let ghost pred = |o: GroupBuyOrder| order_of_buyer(o, group_buy_id@, buyer_id@);
        let mut out: Vec<GroupBuyOrder> = Vec::new();
        let mut i: usize = 0;
        proof {
            reveal(Seq::filter);
        }
        while i < self.orders.len()
            invariant
                0 <= i <= self.orders@.len(),
                pred == (|o: GroupBuyOrder| order_of_buyer(o, group_buy_id@, buyer_id@)),
                out@ == self.orders@.take(i as int).filter(pred),
                forall|k: int| 0 <= k < self.orders@.len() ==> (#[trigger] self.orders@[k]).wf(),
                forall|k: int| 0 <= k < out@.len() ==> (#[trigger] out@[k]).wf(),
            decreases self.orders@.len() - i,
        {
            proof {
                reveal(Seq::filter);
                assert(self.orders@.take(i + 1).drop_last() =~= self.orders@.take(i as int));
            }
            if str_eq(self.orders[i].group_buy_id.as_str(), group_buy_id) && str_eq(
                self.orders[i].buyer_id.as_str(),
                buyer_id,
            ) {
                out.push(self.orders[i].clone());
            }
            i = i + 1;
        }
        proof {
            assert(self.orders@.take(self.orders@.len() as int) =~= self.orders@);
        }
        out
    }

    /// Removes every order of one buyer for one item, and writes the
    /// `delete_registration` audit entry.  Returns how many rows left.
    pub fn delete_buyer_item_orders(
        &mut self,
        group_buy_id: &str,
        buyer_id: &str,
        item_name: &str,
        actor_id: &str,
        actor_username: &str,
        now: &str,
    ) -> (r: u64)
        requires
            old(self).wf(),
        ensures
            final(self).wf(),
            final(self).sessions == old(self).sessions,
            final(self).adjustments == old(self).adjustments,
            final(self).orders@ == old(self).orders@.filter(
                |o: GroupBuyOrder| !order_of_buyer_item(o, group_buy_id@, buyer_id@, item_name@),
            ),
            r == old(self).orders@.len() - final(self).orders@.len(),
            appended(old(self).logs@, final(self).logs@),
            ({
                let e = final(self).logs@.last();
                &&& e.group_buy_id@ == group_buy_id@
                &&& e.user_id@ == actor_id@
                &&& e.username@ == actor_username@
                &&& e.action@ == "delete_registration"@
                &&& e.created_at@ == now@
                &&& e.details@ == details_str(
                    seq![
                        ("buyer_id"@, JsonVal::Text(buyer_id@)),
                        ("item_name"@, JsonVal::Text(item_name@)),
                        ("action"@, JsonVal::Text("delete_registration"@)),
                    ],
                    session_version_or_zero(old(self).sessions@, group_buy_id@),
                )
            }),
    {
        let ghost keep = |o: GroupBuyOrder| !order_of_buyer_item(
            o,
            group_buy_id@,
            buyer_id@,
            item_name@,
        );
        let mut kept: Vec<GroupBuyOrder> = Vec::new();
        let mut i: usize = 0;
        proof {
            reveal(Seq::filter);
        }
        while i < self.orders.len()
            invariant
                0 <= i <= self.orders@.len(),
                keep == (|o: GroupBuyOrder| !order_of_buyer_item(
                    o,
                    group_buy_id@,
                    buyer_id@,
                    item_name@,
                )),
                kept@ == self.orders@.take(i as int).filter(keep),
                forall|k: int| 0 <= k < self.orders@.len() ==> (#[trigger] self.orders@[k]).wf(),
                forall|k: int| 0 <= k < kept@.len() ==> (#[trigger] kept@[k]).wf(),
            decreases self.orders@.len() - i,
        {
            proof {
                reveal(Seq::filter);
                assert(self.orders@.take(i + 1).drop_last() =~= self.orders@.take(i as int));
            }
            if !(str_eq(self.orders[i].group_buy_id.as_str(), group_buy_id) && str_eq(
                self.orders[i].buyer_id.as_str(),
                buyer_id,
            ) && str_eq(self.orders[i].item_name.as_str(), item_name)) {
                kept.push(self.orders[i].clone());
            }
            i = i + 1;
        }
        proof {
            assert(self.orders@.take(self.orders@.len() as int) =~= self.orders@);
            old(self).orders@.lemma_filter_len(keep);
        }
        let removed = (self.orders.len() - kept.len()) as u64;
        self.orders = kept;
        let version = match self.session_index(group_buy_id) {
            Some(i) => self.sessions[i].version,
            None => 0,
        };
        let mut pairs: Vec<(String, DetailVal)> = Vec::new();
        pairs.push((String::from_str("buyer_id"), DetailVal::Text(String::from_str(buyer_id))));
        pairs.push(
            (String::from_str("item_name"), DetailVal::Text(String::from_str(item_name))),
        );
        pairs.push(
            (String::from_str("action"), DetailVal::Text(String::from_str("delete_registration"))),
        );
        let details = audit_details(&pairs, version);
        assert(spec_pairs(pairs@) =~= seq![
            ("buyer_id"@, JsonVal::Text(buyer_id@)),
            ("item_name"@, JsonVal::Text(item_name@)),
            ("action"@, JsonVal::Text("delete_registration"@)),
        ]);
        self.log_action(
            group_buy_id,
            actor_id,
            actor_username,
            "delete_registration",
            Some(details.as_str()),
            now,
        );
        removed
    }

    /// Removes every order of one buyer in the session, and writes the
    /// `cancel_all_registrations` audit entry.  Returns how many rows left.
    pub fn delete_orders_for_buyer(
        &mut self,
        group_buy_id: &str,
        buyer_id: &str,
        actor_id: &str,
        actor_username: &str,
        now: &str,
    ) -> (r: u64)
        requires
            old(self).wf(),
        ensures
            final(self).wf(),
            final(self).sessions == old(self).sessions,
            final(self).adjustments == old(self).adjustments,
            final(self).orders@ == old(self).orders@.filter(
                |o: GroupBuyOrder| !order_of_buyer(o, group_buy_id@, buyer_id@),
            ),
            r == old(self).orders@.len() - final(self).orders@.len(),
            appended(old(self).logs@, final(self).logs@),
            ({
                let e = final(self).logs@.last();
                &&& e.group_buy_id@ == group_buy_id@
                &&& e.user_id@ == actor_id@
                &&& e.username@ == actor_username@
                &&& e.action@ == "cancel_all_registrations"@
                &&& e.created_at@ == now@
                &&& e.details@ == details_str(
                    seq![
                        ("buyer_id"@, JsonVal::Text(buyer_id@)),
                        ("action"@, JsonVal::Text("cancel_all_registrations"@)),
                    ],
                    session_version_or_zero(old(self).sessions@, group_buy_id@),
                )
            }),
    {
        let ghost keep = |o: GroupBuyOrder| !order_of_buyer(o, group_buy_id@, buyer_id@);
        let mut kept: Vec<GroupBuyOrder> = Vec::new();
        let mut i: usize = 0;
        proof {
            reveal(Seq::filter);
        }
        while i < self.orders.len()
            invariant
                0 <= i <= self.orders@.len(),
                keep == (|o: GroupBuyOrder| !order_of_buyer(o, group_buy_id@, buyer_id@)),
                kept@ == self.orders@.take(i as int).filter(keep),
                forall|k: int| 0 <= k < self.orders@.len() ==> (#[trigger] self.orders@[k]).wf(),
                forall|k: int| 0 <= k < kept@.len() ==> (#[trigger] kept@[k]).wf(),
            decreases self.orders@.len() - i,
        {
            proof {
                reveal(Seq::filter);
                assert(self.orders@.take(i + 1).drop_last() =~= self.orders@.take(i as int));
            }
            if !(str_eq(self.orders[i].group_buy_id.as_str(), group_buy_id) && str_eq(
                self.orders[i].buyer_id.as_str(),
                buyer_id,
            )) {
                kept.push(self.orders[i].clone());
            }
            i = i + 1;
        }
        proof {
            assert(self.orders@.take(self.orders@.len() as int) =~= self.orders@);
            old(self).orders@.lemma_filter_len(keep);
        }
        let removed = (self.orders.len() - kept.len()) as u64;
        self.orders = kept;
        let version = match self.session_index(group_buy_id) {
            Some(i) => self.sessions[i].version,
            None => 0,
        };
        let mut pairs: Vec<(String, DetailVal)> = Vec::new();
        pairs.push((String::from_str("buyer_id"), DetailVal::Text(String::from_str(buyer_id))));
        pairs.push(
            (
                String::from_str("action"),
                DetailVal::Text(String::from_str("cancel_all_registrations")),
            ),
        );
        let details = audit_details(&pairs, version);
        assert(spec_pairs(pairs@) =~= seq![
            ("buyer_id"@, JsonVal::Text(buyer_id@)),
            ("action"@, JsonVal::Text("cancel_all_registrations"@)),
        ]);
        self.log_action(
            group_buy_id,
            actor_id,
            actor_username,
            "cancel_all_registrations",
            Some(details.as_str()),
            now,
        );
        removed
    }

    /// Adjusts one order after close: rewrites the quantity, preserves the
    /// first pre-decrease quantity, and appends one shortage row and one
    /// audit entry — all three or none.
    pub fn adjust_single_order(
        &mut self,
        order_id: &str,
        new_quantity: u32,
        adjuster_id: &str,
        adjuster_username: &str,
        now: &str,
    ) -> (r: Result<(), GroupBuyError>)
        requires
            old(self).wf(),
        ensures
            final(self).wf(),
            r == Err::<(), GroupBuyError>(GroupBuyError::Validation) <==> new_quantity
                > MAX_QUANTITY,
            r == Err::<(), GroupBuyError>(GroupBuyError::NotFound) <==> (new_quantity
                <= MAX_QUANTITY && (find_order(old(self).orders@, order_id@) is None || ({
                match find_order(old(self).orders@, order_id@) {
                    Some(j) => find_session(
                        old(self).sessions@,
                        old(self).orders@[j].group_buy_id@,
                    ) is None,
                    None => false,
                }
            }))),
            r == Err::<(), GroupBuyError>(GroupBuyError::PreconditionFailed) <==> (new_quantity
                <= MAX_QUANTITY && match find_order(old(self).orders@, order_id@) {
                Some(j) => match find_session(
                    old(self).sessions@,
                    old(self).orders@[j].group_buy_id@,
                ) {
                    Some(i) => old(self).sessions@[i].status is Active,
                    None => false,
                },
                None => false,
            }),
            r is Err ==> *final(self) == *old(self),
            r is Ok <==> (new_quantity <= MAX_QUANTITY && match find_order(
                old(self).orders@,
                order_id@,
            ) {
                Some(j) => match find_session(
                    old(self).sessions@,
                    old(self).orders@[j].group_buy_id@,
                ) {
                    Some(i) => old(self).sessions@[i].status is Closed,
                    None => false,
                },
                None => false,
            }),
            r is Ok ==> ({
                let j = find_order(old(self).orders@, order_id@)->Some_0;
                let pre = old(self).orders@[j];
                let i = find_session(old(self).sessions@, pre.group_buy_id@)->Some_0;
                &&& find_order(old(self).orders@, order_id@) is Some
                &&& find_session(old(self).sessions@, pre.group_buy_id@) is Some
                &&& old(self).sessions@[i].status is Closed
                &&& final(self).sessions == old(self).sessions
                &&& final(self).orders@.len() == old(self).orders@.len()
                &&& forall|k: int|
                    0 <= k < old(self).orders@.len() && k != j ==> final(self).orders@[k] == old(
                        self,
                    ).orders@[k]
                &&& order_adjusted(pre, final(self).orders@[j], new_quantity as int)
                &&& appended(old(self).adjustments@, final(self).adjustments@)
                &&& ({
                    let a = final(self).adjustments@.last();
                    &&& a.group_buy_id@ == pre.group_buy_id@
                    &&& a.order_id@ == pre.id@
                    &&& a.adjuster_id@ == adjuster_id@
                    &&& a.adjuster_username@ == adjuster_username@
                    &&& a.item_name@ == pre.item_name@
                    &&& a.buyer_id@ == pre.buyer_id@
                    &&& a.buyer_username@ == pre.buyer_username@
                    &&& a.old_quantity == pre.quantity
                    &&& a.new_quantity == new_quantity
                    &&& a.created_at@ == now@
                })
                &&& appended(old(self).logs@, final(self).logs@)
                &&& ({
                    let e = final(self).logs@.last();
                    &&& e.group_buy_id@ == pre.group_buy_id@
                    &&& e.user_id@ == adjuster_id@
                    &&& e.username@ == adjuster_username@
                    &&& e.action@ == "adjust_shortage"@
                    &&& e.created_at@ == now@
                    &&& e.details@ == details_str(
                        seq![
                            ("buyer"@, JsonVal::Text(pre.buyer_username@)),
                            ("item"@, JsonVal::Text(pre.item_name@)),
                            ("old_quantity"@, JsonVal::Num(pre.quantity as int)),
                            ("new_quantity"@, JsonVal::Num(new_quantity as int)),
                            ("action"@, JsonVal::Text("adjust_shortage"@)),
                        ],
                        old(self).sessions@[i].version as int,
                    )
                })
            }),
    {
        if new_quantity > MAX_QUANTITY {
            return Err(GroupBuyError::Validation);
        }
        let j = match self.order_index(order_id) {
            Some(j) => j,
            None => {
                return Err(GroupBuyError::NotFound);
            },
        };
        let i = match self.session_index(self.orders[j].group_buy_id.as_str()) {
            Some(i) => i,
            None => {
                return Err(GroupBuyError::NotFound);
            },
        };
        if matches!(self.sessions[i].status, GroupBuyStatus::Active) {
            return Err(GroupBuyError::PreconditionFailed);
        }
        let version = self.sessions[i].version;
        let old_quantity = self.orders[j].quantity;
        let group_buy_id = self.orders[j].group_buy_id.clone();
        let order_id_text = self.orders[j].id.clone();
        let item_name = self.orders[j].item_name.clone();
        let buyer_id = self.orders[j].buyer_id.clone();
        let buyer_username = self.orders[j].buyer_username.clone();
        let o = &mut self.orders[j];
        o.quantity = new_quantity;
        if o.original_quantity.is_none() && new_quantity < old_quantity {
            o.original_quantity = Some(old_quantity);
        }
        self.adjustments.push(
            ShortageAdjustment {
                group_buy_id: group_buy_id.clone(),
                order_id: order_id_text,
                adjuster_id: String::from_str(adjuster_id),
                adjuster_username: String::from_str(adjuster_username),
                item_name: item_name.clone(),
                buyer_id,
                buyer_username: buyer_username.clone(),
                old_quantity,
                new_quantity,
                created_at: String::from_str(now),
            },
        );
        assert(self.adjustments@.take(old(self).adjustments@.len() as int) =~= old(
            self,
        ).adjustments@);
        let mut pairs: Vec<(String, DetailVal)> = Vec::new();
        pairs.push((String::from_str("buyer"), DetailVal::Text(buyer_username)));
        pairs.push((String::from_str("item"), DetailVal::Text(item_name)));
        pairs.push((String::from_str("old_quantity"), DetailVal::Num(old_quantity as u64)));
        pairs.push((String::from_str("new_quantity"), DetailVal::Num(new_quantity as u64)));
        pairs.push(
            (String::from_str("action"), DetailVal::Text(String::from_str("adjust_shortage"))),
        );
        let details = audit_details(&pairs, version);
        assert(spec_pairs(pairs@) =~= seq![
            ("buyer"@, JsonVal::Text(old(self).orders@[j as int].buyer_username@)),
            ("item"@, JsonVal::Text(old(self).orders@[j as int].item_name@)),
            ("old_quantity"@, JsonVal::Num(old_quantity as int)),
            ("new_quantity"@, JsonVal::Num(new_quantity as int)),
            ("action"@, JsonVal::Text("adjust_shortage"@)),
        ]);
        self.log_action(
            group_buy_id.as_str(),
            adjuster_id,
            adjuster_username,
            "adjust_shortage",
            Some(details.as_str()),
            now,
        );
        Ok(())
    }
}

/// What the batch adjustment does to the orders, read off the pre-batch
/// rows in order: one entry — order id, buyer, old quantity, new quantity —
/// per matched order.  The returned records and the appended shortage rows
/// follow this sequence exactly.
pub open spec fn batch_entries(
    os: Seq<GroupBuyOrder>,
    gb: Seq<char>,
    item: Seq<char>,
    advs: Seq<(String, u32)>,
) -> Seq<(Seq<char>, Seq<char>, u32, u32)>
    decreases os.len(),
{
    if os.len() == 0 {
        Seq::empty()
    } else {
        batch_entries(os.drop_last(), gb, item, advs) + (match target_quantity(
            os.last(),
            gb,
            item,
            advs,
        ) {
            Some(q) => seq![(os.last().id@, os.last().buyer_username@, os.last().quantity, q)],
            None => Seq::empty(),
        })
    }
}

/// The quantity a batch adjustment assigns to this order, if any: the order
/// must belong to the session and item, and its buyer must be listed.
pub open spec fn target_quantity(
    o: GroupBuyOrder,
    gb: Seq<char>,
    item: Seq<char>,
    advs: Seq<(String, u32)>,
) -> Option<u32> {
    if o.group_buy_id@ == gb && o.item_name@ == item {
        lookup_quantity(advs, o.buyer_username@)
    } else {
        None
    }
}

impl Database {
    /// Adjusts every listed buyer's orders for one item of a Closed session,
    /// in one step: each affected order is rewritten as `order_adjusted`
    /// says, each change appends one shortage row and one result record, and
    /// one audit entry closes the batch.  On any refusal nothing changes.
    pub fn adjust_order_quantity(
        &mut self,
        group_buy_id: &str,
        item_name: &str,
        adjustments: &Vec<(String, u32)>,
        adjuster_id: &str,
        adjuster_username: &str,
        now: &str,
    ) -> (r: Result<Vec<AdjustmentRecord>, GroupBuyError>)
        requires
            old(self).wf(),
        ensures
            final(self).wf(),
            r == Err::<Vec<AdjustmentRecord>, GroupBuyError>(GroupBuyError::Validation) <==> !(
            forall|t: int|
                0 <= t < adjustments@.len() ==> (#[trigger] adjustments@[t]).1 <= MAX_QUANTITY),
            r == Err::<Vec<AdjustmentRecord>, GroupBuyError>(GroupBuyError::NotFound) <==> ((
            forall|t: int|
                0 <= t < adjustments@.len() ==> (#[trigger] adjustments@[t]).1 <= MAX_QUANTITY)
                && find_session(old(self).sessions@, group_buy_id@) is None),
            r == Err::<Vec<AdjustmentRecord>, GroupBuyError>(GroupBuyError::PreconditionFailed)
                <==> ((forall|t: int|
                0 <= t < adjustments@.len() ==> (#[trigger] adjustments@[t]).1 <= MAX_QUANTITY)
                && match find_session(old(self).sessions@, group_buy_id@) {
                Some(i) => old(self).sessions@[i].status is Active,
                None => false,
            }),
            r is Err ==> *final(self) == *old(self),
            r is Ok <==> ((forall|t: int|
                0 <= t < adjustments@.len() ==> (#[trigger] adjustments@[t]).1 <= MAX_QUANTITY)
                && match find_session(old(self).sessions@, group_buy_id@) {
                Some(i) => old(self).sessions@[i].status is Closed,
                None => false,
            }),
            r matches Ok(records) ==> ({
                let i = find_session(old(self).sessions@, group_buy_id@)->Some_0;
                &&& find_session(old(self).sessions@, group_buy_id@) is Some
                &&& old(self).sessions@[i].status is Closed
                &&& final(self).sessions == old(self).sessions
                &&& final(self).orders@.len() == old(self).orders@.len()
                &&& forall|k: int|
                    0 <= k < old(self).orders@.len() ==> ({
                        let pre = #[trigger] old(self).orders@[k];
                        match target_quantity(pre, group_buy_id@, item_name@, adjustments@) {
                            Some(q) => order_adjusted(pre, final(self).orders@[k], q as int),
                            None => final(self).orders@[k] == pre,
                        }
                    })
                &&& final(self).adjustments@.take(old(self).adjustments@.len() as int) == old(
                    self,
                ).adjustments@
                &&& final(self).adjustments@.len() == old(self).adjustments@.len()
                    + records@.len()
                &&& records@.len() == batch_entries(
                    old(self).orders@,
                    group_buy_id@,
                    item_name@,
                    adjustments@,
                ).len()
                &&& forall|m: int|
                    0 <= m < records@.len() ==> ({
                        let e = #[trigger] batch_entries(
                            old(self).orders@,
                            group_buy_id@,
                            item_name@,
                            adjustments@,
                        )[m];
                        &&& records@[m].buyer_username@ == e.1
                        &&& records@[m].old_quantity == e.2
                        &&& records@[m].new_quantity == e.3
                    })
                &&& forall|m: int|
                    0 <= m < records@.len() ==> ({
                        let a = #[trigger] final(self).adjustments@[old(
                            self,
                        ).adjustments@.len() + m];
                        let e = batch_entries(
                            old(self).orders@,
                            group_buy_id@,
                            item_name@,
                            adjustments@,
                        )[m];
                        &&& a.group_buy_id@ == group_buy_id@
                        &&& a.item_name@ == item_name@
                        &&& a.adjuster_id@ == adjuster_id@
                        &&& a.adjuster_username@ == adjuster_username@
                        &&& a.order_id@ == e.0
                        &&& a.buyer_username == records@[m].buyer_username
                        &&& a.old_quantity == records@[m].old_quantity
                        &&& a.new_quantity == records@[m].new_quantity
                        &&& a.created_at@ == now@
                    })
                &&& appended(old(self).logs@, final(self).logs@)
                &&& ({
                    let e = final(self).logs@.last();
                    &&& e.group_buy_id@ == group_buy_id@
                    &&& e.user_id@ == adjuster_id@
                    &&& e.username@ == adjuster_username@
                    &&& e.action@ == "adjust_shortage"@
                    &&& e.created_at@ == now@
                    &&& e.details@ == details_str(
                        seq![
                            ("item"@, JsonVal::Text(item_name@)),
                            ("affected"@, JsonVal::Num(records@.len() as int)),
                            ("action"@, JsonVal::Text("adjust_shortage"@)),
                        ],
                        old(self).sessions@[i].version as int,
                    )
                })
            }),
    {
        let mut v: usize = 0;
        while v < adjustments.len()
            invariant
                0 <= v <= adjustments@.len(),
                *self == *old(self),
                old(self).wf(),
                forall|t: int|
                    0 <= t < v ==> (#[trigger] adjustments@[t]).1 <= MAX_QUANTITY,
            decreases adjustments@.len() - v,
        {
            if adjustments[v].1 > MAX_QUANTITY {
                return Err(GroupBuyError::Validation);
            }
            v = v + 1;
        }
        let i = match self.session_index(group_buy_id) {
            Some(i) => i,
            None => {
                return Err(GroupBuyError::NotFound);
            },
        };
        if matches!(self.sessions[i].status, GroupBuyStatus::Active) {
            return Err(GroupBuyError::PreconditionFailed);
        }
        let version = self.sessions[i].version;
        let mut records: Vec<AdjustmentRecord> = Vec::new();
        let n = self.orders.len();
        let mut k: usize = 0;
        while k < n
            invariant
                0 <= k <= n,
                n == old(self).orders@.len(),
                self.sessions == old(self).sessions,
                self.logs == old(self).logs,
                self.orders@.len() == old(self).orders@.len(),
                forall|t: int| k <= t < n ==> self.orders@[t] == old(self).orders@[t],
                forall|t: int|
                    0 <= t < k ==> ({
                        let pre = #[trigger] old(self).orders@[t];
                        match target_quantity(pre, group_buy_id@, item_name@, adjustments@) {
                            Some(q) => order_adjusted(pre, self.orders@[t], q as int),
                            None => self.orders@[t] == pre,
                        }
                    }),
                forall|t: int| 0 <= t < n ==> (#[trigger] self.orders@[t]).wf(),
                forall|t: int| 0 <= t < n ==> (#[trigger] old(self).orders@[t]).wf(),
                forall|t: int|
                    0 <= t < adjustments@.len() ==> (#[trigger] adjustments@[t]).1
                        <= MAX_QUANTITY,
                self.adjustments@.take(old(self).adjustments@.len() as int) == old(
                    self,
                ).adjustments@,
                self.adjustments@.len() == old(self).adjustments@.len() + records@.len(),
                records@.len() == batch_entries(
                    old(self).orders@.take(k as int),
                    group_buy_id@,
                    item_name@,
                    adjustments@,
                ).len(),
                forall|m: int|
                    0 <= m < records@.len() ==> ({
                        let e = #[trigger] batch_entries(
                            old(self).orders@.take(k as int),
                            group_buy_id@,
                            item_name@,
                            adjustments@,
                        )[m];
                        &&& records@[m].buyer_username@ == e.1
                        &&& records@[m].old_quantity == e.2
                        &&& records@[m].new_quantity == e.3
                    }),
                forall|m: int|
                    0 <= m < records@.len() ==> ({
                        let a = #[trigger] self.adjustments@[old(self).adjustments@.len() + m];
                        let e = batch_entries(
                            old(self).orders@.take(k as int),
                            group_buy_id@,
                            item_name@,
                            adjustments@,
                        )[m];
                        &&& a.group_buy_id@ == group_buy_id@
                        &&& a.item_name@ == item_name@
                        &&& a.adjuster_id@ == adjuster_id@
                        &&& a.adjuster_username@ == adjuster_username@
                        &&& a.order_id@ == e.0
                        &&& a.buyer_username == records@[m].buyer_username
                        &&& a.old_quantity == records@[m].old_quantity
                        &&& a.new_quantity == records@[m].new_quantity
                        &&& a.created_at@ == now@
                    }),
            decreases n - k,
        {
            proof {
                assert(old(self).orders@.take(k + 1).drop_last() =~= old(self).orders@.take(
                    k as int,
                ));
                assert(old(self).orders@.take(k + 1).last() == old(self).orders@[k as int]);
            }
            let is_target = str_eq(self.orders[k].group_buy_id.as_str(), group_buy_id) && str_eq(
                self.orders[k].item_name.as_str(),
                item_name,
            );
            if is_target {
                match lookup_qty(adjustments, self.orders[k].buyer_username.as_str()) {
                    Some(new_q) => {
                        proof {
                            lemma_lookup_quantity_bound(
                                adjustments@,
                                self.orders@[k as int].buyer_username@,
                                MAX_QUANTITY as int,
                            );
                        }
                        let old_q = self.orders[k].quantity;
                        let order_id_text = self.orders[k].id.clone();
                        let buyer_id = self.orders[k].buyer_id.clone();
                        let buyer_username = self.orders[k].buyer_username.clone();
                        let o = &mut self.orders[k];
                        o.quantity = new_q;
                        if o.original_quantity.is_none() && new_q < old_q {
                            o.original_quantity = Some(old_q);
                        }
                        self.adjustments.push(
                            ShortageAdjustment {
                                group_buy_id: String::from_str(group_buy_id),
                                order_id: order_id_text,
                                adjuster_id: String::from_str(adjuster_id),
                                adjuster_username: String::from_str(adjuster_username),
                                item_name: String::from_str(item_name),
                                buyer_id,
                                buyer_username: buyer_username.clone(),
                                old_quantity: old_q,
                                new_quantity: new_q,
                                created_at: String::from_str(now),
                            },
                        );
                        records.push(
                            AdjustmentRecord {
                                buyer_username,
                                old_quantity: old_q,
                                new_quantity: new_q,
                            },
                        );
                        assert(self.adjustments@.take(old(self).adjustments@.len() as int) =~= old(
                            self,
                        ).adjustments@);
                    },
                    None => {},
                }
            }
            k = k + 1;
        }
        proof {
            assert(old(self).orders@.take(n as int) =~= old(self).orders@);
        }
        let mut pairs: Vec<(String, DetailVal)> = Vec::new();
        pairs.push((String::from_str("item"), DetailVal::Text(String::from_str(item_name))));
        pairs.push((String::from_str("affected"), DetailVal::Num(records.len() as u64)));
        pairs.push(
            (String::from_str("action"), DetailVal::Text(String::from_str("adjust_shortage"))),
        );
        let details = audit_details(&pairs, version);
        assert(spec_pairs(pairs@) =~= seq![
            ("item"@, JsonVal::Text(item_name@)),
            ("affected"@, JsonVal::Num(records@.len() as int)),
            ("action"@, JsonVal::Text("adjust_shortage"@)),
        ]);
        self.log_action(
            group_buy_id,
            adjuster_id,
            adjuster_username,
            "adjust_shortage",
            Some(details.as_str()),
            now,
        );
        Ok(records)
    }
}

/// Checks the menu conditions: distinct names, bounded prices.
pub fn check_items_wf(items: &Vec<Item>) -> (r: bool)
    ensures
        r == crate::model::items_wf(items@),
{
    let n = items.len();
    let mut i: usize = 0;
    while i < n
        invariant
            0 <= i <= n,
            n == items@.len(),
            forall|a: int|
                0 <= a < i ==> (#[trigger] items@[a].price).cents <= MAX_PRICE_CENTS,
        decreases n - i,
    {
        if items[i].price.cents > MAX_PRICE_CENTS {
            return false;
        }
        i = i + 1;
    }
    let mut a: usize = 0;
    while a < n
        invariant
            0 <= a <= n,
            n == items@.len(),
            forall|x: int|
                0 <= x < items@.len() ==> (#[trigger] items@[x].price).cents <= MAX_PRICE_CENTS,
            forall|x: int, y: int|
                0 <= x < y < n && x < a ==> (#[trigger] items@[x].name)@ != (
                #[trigger] items@[y].name)@,
        decreases n - a,
    {
        let mut b: usize = a + 1;
        while b < n
            invariant
                0 <= a < b <= n,
                n == items@.len(),
                forall|y: int| a < y < b ==> (#[trigger] items@[y].name)@ != items@[a as int].name@,
            decreases n - b,
        {
            if str_eq(items[a].name.as_str(), items[b].name.as_str()) {
                return false;
            }
            b = b + 1;
        }
        a = a + 1;
    }
    true
}

/// Checks the session conditions: non-empty id, version at least one, and a
/// well-formed menu.
pub fn check_group_buy_wf(gb: &GroupBuy) -> (r: bool)
    ensures
        r == gb.wf(),
{
    gb.id.as_str().unicode_len() > 0 && gb.version >= 1 && check_items_wf(&gb.items)
}

} // verus!
