//! The dialog submission handlers: each validates its fields, mutates
//! through the store exactly once, and answers either cleanly or with the
//! precise dialog error.

use vstd::prelude::*;

use crate::dialog::DialogSubmissionResponse;
use crate::model::{find_item, GroupBuy, GroupBuyOrder, GroupBuyStatus, Item};
use crate::money::{quantity_value, Money, QuantityParseError, MAX_QUANTITY};
use crate::store::{
    appended, find_session, order_of_buyer, order_of_buyer_item, version_matches, Database,
};
use crate::yaml::{
    items_pairs, parse_adjustments_spec, parse_items_spec, parse_items_yaml, parse_metadata_spec,
    parse_metadata_yaml, split_lines, string_pairs, YamlError,
};

verus! {

/// What the create dialog accepts: a merchant name of 1 to 100 characters,
/// a description of at most 500, and a metadata block of at most 1000 that
/// parses.
pub open spec fn create_inputs_ok(
    merchant: Seq<char>,
    description: Option<String>,
    metadata_yaml: Seq<char>,
) -> bool {
    &&& 1 <= merchant.len() <= 100
    &&& (match description {
        Some(d) => d@.len() <= 500,
        None => true,
    })
    &&& metadata_yaml.len() <= 1000
    &&& parse_metadata_spec(split_lines(metadata_yaml), Seq::empty()) is Ok
}

/// Handles the create dialog: parses the metadata block, then writes the
/// new session — version 1, Active, empty menu, unbound panel — and its
/// `create` audit entry.  Returns the fresh session id.  Field errors come
/// exactly on invalid input; with valid input the write fails only if the
/// drawn id collides with a stored one, which no 36-character-free store
/// can make happen.
pub fn handle_create_dialog(
    db: &mut Database,
    channel_id: &str,
    user_id: &str,
    user_name: &str,
    merchant_name: &str,
    description: Option<String>,
    metadata_yaml: &str,
    now: &str,
) -> (r: Result<String, DialogSubmissionResponse>)
    requires
        old(db).wf(),
    ensures
        final(db).wf(),
        r is Err ==> *final(db) == *old(db),
        (r matches Err(resp) && resp.errors is Some) <==> !create_inputs_ok(
            merchant_name@,
            description,
            metadata_yaml@,
        ),
        (r matches Err(resp) && resp.error is Some) ==> create_inputs_ok(
            merchant_name@,
            description,
            metadata_yaml@,
        ),
        (create_inputs_ok(merchant_name@, description, metadata_yaml@) && (forall|j: int|
            0 <= j < old(db).sessions@.len() ==> (#[trigger] old(db).sessions@[j]).id@.len()
                != 36)) ==> r is Ok,
        r matches Ok(id) ==> ({
            let gb = final(db).sessions@.last();
            &&& 1 <= merchant_name@.len() <= 100
            &&& appended(old(db).sessions@, final(db).sessions@)
            &&& final(db).orders == old(db).orders
            &&& final(db).adjustments == old(db).adjustments
            &&& appended(old(db).logs@, final(db).logs@)
            &&& final(db).logs@.last().action@ == "create"@
            &&& id@ == gb.id@
            &&& gb.id@.len() == 36
            &&& gb.creator_id@ == user_id@
            &&& gb.creator_username@ == user_name@
            &&& gb.channel_id@ == channel_id@
            &&& gb.post_id is None
            &&& gb.merchant_name@ == merchant_name@
            &&& (match gb.description {
                Some(d) => description matches Some(d0) && d == d0 && d0@.len() > 0,
                None => description is None || (description matches Some(d0) && d0@.len() == 0),
            })
            &&& parse_metadata_spec(split_lines(metadata_yaml@), Seq::empty()) == Ok::<
                _,
                YamlError,
            >(string_pairs(gb.metadata@))
            &&& gb.items@.len() == 0
            &&& gb.status is Active
            &&& gb.version == 1
            &&& gb.created_at@ == now@
            &&& gb.updated_at@ == now@
        }),
{
    let mlen = merchant_name.unicode_len();
    if mlen == 0 {
        return Err(
            crate::dialog::make_field_error_response("merchant_name", "商家名稱不能為空"),
        );
    }
    if mlen > 100 {
        return Err(
            crate::dialog::make_field_error_response("merchant_name", "商家名稱過長"),
        );
    }
    match &description {
        Some(d) => {
            if d.as_str().unicode_len() > 500 {
                return Err(
                    crate::dialog::make_field_error_response("description", "描述過長"),
                );
            }
        },
        None => {},
    }
    if metadata_yaml.unicode_len() > 1000 {
        return Err(
            crate::dialog::make_field_error_response("metadata", "其他資訊過長"),
        );
    }
    let metadata = match parse_metadata_yaml(metadata_yaml) {
        Ok(m) => m,
        Err(_) => {
            return Err(
                crate::dialog::make_field_error_response("metadata", "YAML 格式錯誤"),
            );
        },
    };
    let description = match description {
        Some(d) => if d.as_str().unicode_len() > 0 {
            Some(d)
        } else {
            None
        },
        None => None,
    };
    let id = crate::ids::fresh_id();
    let group_buy = GroupBuy {
        id: id.clone(),
        creator_id: String::from_str(user_id),
        creator_username: String::from_str(user_name),
        channel_id: String::from_str(channel_id),
        post_id: None,
        merchant_name: String::from_str(merchant_name),
        description,
        metadata,
        items: Vec::new(),
        status: GroupBuyStatus::Active,
        version: 1,
        created_at: String::from_str(now),
        updated_at: String::from_str(now),
    };
    proof {
        // With no 36-character id stored, the fresh id cannot collide.
        if forall|j: int|
            0 <= j < old(db).sessions@.len() ==> (#[trigger] old(db).sessions@[j]).id@.len()
                != 36 {
            assert forall|j: int| 0 <= j < old(db).sessions@.len() implies (
            #[trigger] old(db).sessions@[j].id)@ != id@ by {
                assert(old(db).sessions@[j].id@.len() != 36);
            }
            crate::store::lemma_find_session_absent(old(db).sessions@, id@);
        }
    }
    match db.create_group_buy(group_buy) {
        Ok(_) => Ok(id),
        Err(_) => Err(
            DialogSubmissionResponse {
                error: Some(String::from_str("儲存團購資料失敗")),
                errors: None,
                text: None,
            },
        ),
    }
}

/// Handles the edit-items dialog: parses the menu block, rejects an empty
/// menu, and replaces the session's menu under the submitted version.
pub fn handle_edit_items_dialog(
    db: &mut Database,
    group_buy_id: &str,
    expected_version: u64,
    user_id: &str,
    username: &str,
    items_yaml_text: &str,
    now: &str,
) -> (r: Result<(), DialogSubmissionResponse>)
    requires
        old(db).wf(),
    ensures
        final(db).wf(),
        r is Err ==> *final(db) == *old(db),
        r is Ok <==> (match parse_items_spec(split_lines(items_yaml_text@), Seq::empty()) {
            Ok(pairs) => pairs.len() > 0 && match find_session(old(db).sessions@, group_buy_id@) {
                Some(i) => old(db).sessions@[i].status is Active && version_matches(
                    old(db).sessions@[i],
                    expected_version as int,
                ),
                None => false,
            },
            Err(_) => false,
        }),
        parse_items_spec(split_lines(items_yaml_text@), Seq::empty()) is Err ==> (r matches Err(
            resp,
        ) && resp.errors is Some),
        r is Ok ==> ({
            let i = find_session(old(db).sessions@, group_buy_id@)->Some_0;
            &&& final(db).sessions@.len() == old(db).sessions@.len()
            &&& forall|j: int|
                0 <= j < old(db).sessions@.len() && j != i ==> final(db).sessions@[j] == old(
                    db,
                ).sessions@[j]
            &&& final(db).sessions@[i].version == old(db).sessions@[i].version + 1
            &&& parse_items_spec(split_lines(items_yaml_text@), Seq::empty()) == Ok::<
                _,
                YamlError,
            >(items_pairs(final(db).sessions@[i].items@))
            &&& final(db).orders == old(db).orders
            &&& final(db).adjustments == old(db).adjustments
            &&& appended(old(db).logs@, final(db).logs@)
            &&& final(db).logs@.last().action@ == "update_items"@
        }),
{
    let items = match parse_items_yaml(items_yaml_text) {
        Ok(items) => items,
        Err(_) => {
            return Err(crate::dialog::make_field_error_response("items", "YAML 格式錯誤"));
        },
    };
    if items.len() == 0 {
        return Err(
            crate::dialog::make_field_error_response("items", "至少需要一個商品"),
        );
    }
    match db.update_items(group_buy_id, items, expected_version, user_id, username, now) {
        Ok(_) => Ok(()),
        Err(_) => Err(
            DialogSubmissionResponse {
                error: Some(
                    String::from_str("更新失敗：團購已被修改或已截止，請重新整理"),
                ),
                errors: None,
                text: None,
            },
        ),
    }
}

/// What a register submission did.
#[derive(Debug)]
pub enum RegisterOutcome {
    /// One order row was appended.
    Registered,
    /// A zero quantity removed this buyer's rows for the item; how many.
    Removed(u64),
}

/// Handles the register dialog.  A positive quantity appends one order at
/// the menu's current price — the snapshot later menu edits cannot touch;
/// a zero quantity removes the buyer's rows for the item instead.
pub fn handle_register_dialog(
    db: &mut Database,
    group_buy_id: &str,
    buyer_id: &str,
    buyer_username: &str,
    registrar_id: &str,
    registrar_username: &str,
    item_name: &str,
    quantity_text: &str,
    now: &str,
) -> (r: Result<RegisterOutcome, DialogSubmissionResponse>)
    requires
        old(db).wf(),
    ensures
        final(db).wf(),
        final(db).sessions == old(db).sessions,
        final(db).adjustments == old(db).adjustments,
        r is Err ==> *final(db) == *old(db),
        quantity_value(quantity_text@) is None ==> (r matches Err(resp) && resp.errors is Some),
        r is Ok <==> (match quantity_value(quantity_text@) {
            Some(q) => q <= MAX_QUANTITY && match find_session(old(db).sessions@, group_buy_id@) {
                Some(i) => find_item(old(db).sessions@[i].items@, item_name@) is Some && (q == 0
                    || old(db).sessions@[i].status is Active),
                None => false,
            },
            None => false,
        }),
        r matches Ok(out) ==> ({
            let i = find_session(old(db).sessions@, group_buy_id@)->Some_0;
            &&& find_session(old(db).sessions@, group_buy_id@) is Some
            &&& find_item(old(db).sessions@[i].items@, item_name@) is Some
            &&& (match out {
                RegisterOutcome::Removed(n) => {
                    &&& quantity_value(quantity_text@) == Some(0int)
                    &&& final(db).orders@ == old(db).orders@.filter(
                        |o: GroupBuyOrder| !order_of_buyer_item(
                            o,
                            group_buy_id@,
                            buyer_id@,
                            item_name@,
                        ),
                    )
                    &&& n == old(db).orders@.len() - final(db).orders@.len()
                    &&& appended(old(db).logs@, final(db).logs@)
                    &&& final(db).logs@.last().action@ == "delete_registration"@
                },
                RegisterOutcome::Registered => {
                    let k = find_item(old(db).sessions@[i].items@, item_name@)->Some_0;
                    let o = final(db).orders@.last();
                    &&& (match quantity_value(quantity_text@) {
                        Some(q) => 1 <= q <= MAX_QUANTITY && o.quantity == q,
                        None => false,
                    })
                    &&& old(db).sessions@[i].status is Active
                    &&& appended(old(db).orders@, final(db).orders@)
                    &&& o.group_buy_id@ == group_buy_id@
                    &&& o.buyer_id@ == buyer_id@
                    &&& o.buyer_username@ == buyer_username@
                    &&& o.registrar_id@ == registrar_id@
                    &&& o.registrar_username@ == registrar_username@
                    &&& o.item_name@ == item_name@
                    &&& o.unit_price == old(db).sessions@[i].items@[k].price
                    &&& o.original_quantity is None
                    &&& o.created_at@ == now@
                    &&& appended(old(db).logs@, final(db).logs@)
                    &&& final(db).logs@.last().action@ == "register"@
                },
            })
        }),
{
    let quantity = match crate::money::parse_quantity(quantity_text) {
        Ok(q) => q,
        Err(QuantityParseError::Negative) => {
            return Err(
                crate::dialog::make_field_error_response("quantity", "數量必須是正整數"),
            );
        },
        Err(QuantityParseError::TooLarge) => {
            return Err(
                crate::dialog::make_field_error_response("quantity", "數量過大"),
            );
        },
        Err(QuantityParseError::Malformed) => {
            return Err(
                crate::dialog::make_field_error_response("quantity", "數量必須是正整數"),
            );
        },
    };
    let i = match db.session_index(group_buy_id) {
        Some(i) => i,
        None => {
            return Err(
                DialogSubmissionResponse {
                    error: Some(String::from_str("找不到該團購")),
                    errors: None,
                    text: None,
                },
            );
        },
    };
    let price = match item_price(&db.sessions[i].items, item_name) {
        Some(p) => p,
        None => {
            return Err(
                DialogSubmissionResponse {
                    error: Some(String::from_str("商品不存在")),
                    errors: None,
                    text: None,
                },
            );
        },
    };
    proof {
        // The menu price is bounded because the session is well formed.
        lemma_find_item_range(db.sessions@[i as int].items@, item_name@);
        assert(db.sessions@[i as int].wf());
    }
    if quantity == 0 {
        let removed = db.delete_buyer_item_orders(
            group_buy_id,
            buyer_id,
            item_name,
            registrar_id,
            registrar_username,
            now,
        );
        return Ok(RegisterOutcome::Removed(removed));
    }
    let order = GroupBuyOrder {
        id: crate::ids::fresh_id(),
        group_buy_id: String::from_str(group_buy_id),
        registrar_id: String::from_str(registrar_id),
        registrar_username: String::from_str(registrar_username),
        buyer_id: String::from_str(buyer_id),
        buyer_username: String::from_str(buyer_username),
        item_name: String::from_str(item_name),
        quantity,
        original_quantity: None,
        unit_price: price,
        created_at: String::from_str(now),
    };
    match db.create_order(order) {
        Ok(_) => Ok(RegisterOutcome::Registered),
        Err(_) => Err(
            DialogSubmissionResponse {
                error: Some(String::from_str("團購已截止，無法登記")),
                errors: None,
                text: None,
            },
        ),
    }
}

proof fn lemma_find_item_range(items: Seq<Item>, name: Seq<char>)
    ensures
        match find_item(items, name) {
            Some(k) => 0 <= k < items.len(),
            None => true,
        },
    decreases items.len(),
{
    if items.len() > 0 && items[0].name@ != name {
        lemma_find_item_range(items.drop_first(), name);
    }
}

/// The menu price of `item`, when the menu lists it.
fn item_price(items: &Vec<Item>, item: &str) -> (r: Option<Money>)
    ensures
        match r {
            Some(p) => match find_item(items@, item@) {
                Some(k) => p == items@[k].price,
                None => false,
            },
            None => find_item(items@, item@) is None,
        },
{
    let mut k: usize = 0;
    while k < items.len()
        invariant
            0 <= k <= items@.len(),
            forall|j: int| 0 <= j < k ==> (#[trigger] items@[j].name)@ != item@,
        decreases items@.len() - k,
    {
        if crate::model::str_eq(items[k].name.as_str(), item) {
            proof {
                crate::aggregate::lemma_find_item_first(items@, item@, k as int);
            }
            return Some(items[k].price);
        }
        k = k + 1;
    }
    proof {
        crate::aggregate::lemma_find_item_absent(items@, item@);
    }
    None
}

/// Handles the cancel-register dialog: removes every order of the chosen
/// buyer and writes the cancellation audit entry.
pub fn handle_cancel_register_dialog(
    db: &mut Database,
    group_buy_id: &str,
    target_buyer: &str,
    actor_id: &str,
    actor_username: &str,
    now: &str,
) -> (r: Result<u64, DialogSubmissionResponse>)
    requires
        old(db).wf(),
    ensures
        final(db).wf(),
        final(db).sessions == old(db).sessions,
        final(db).adjustments == old(db).adjustments,
        r is Err <==> target_buyer@.len() == 0,
        r is Err ==> *final(db) == *old(db),
        r matches Ok(n) ==> ({
            &&& final(db).orders@ == old(db).orders@.filter(
                |o: GroupBuyOrder| !order_of_buyer(o, group_buy_id@, target_buyer@),
            )
            &&& n == old(db).orders@.len() - final(db).orders@.len()
            &&& appended(old(db).logs@, final(db).logs@)
            &&& final(db).logs@.last().action@ == "cancel_all_registrations"@
        }),
{
    if target_buyer.unicode_len() == 0 {
        return Err(
            DialogSubmissionResponse {
                error: Some(String::from_str("請選擇要取消的被登記人")),
                errors: None,
                text: None,
            },
        );
    }
    let rows = db.delete_orders_for_buyer(
        group_buy_id,
        target_buyer,
        actor_id,
        actor_username,
        now,
    );
    Ok(rows)
}

/// Whether every listed adjustment names an existing order whose session
/// is Closed: exactly when the whole batch goes through.
pub open spec fn adjustments_applicable(db0: Database, pairs: Seq<(Seq<char>, u32)>) -> bool {
    forall|t: int|
        0 <= t < pairs.len() ==> (match crate::store::find_order(
            db0.orders@,
            (#[trigger] pairs[t]).0,
        ) {
            Some(j) => match find_session(db0.sessions@, db0.orders@[j].group_buy_id@) {
                Some(i) => db0.sessions@[i].status is Closed,
                None => false,
            },
            None => false,
        })
}

/// Everything of an order but its adjustable quantities.
pub open spec fn same_order_identity(pre: GroupBuyOrder, post: GroupBuyOrder) -> bool {
    &&& post.id == pre.id
    &&& post.group_buy_id == pre.group_buy_id
    &&& post.registrar_id == pre.registrar_id
    &&& post.registrar_username == pre.registrar_username
    &&& post.buyer_id == pre.buyer_id
    &&& post.buyer_username == pre.buyer_username
    &&& post.item_name == pre.item_name
    &&& post.unit_price == pre.unit_price
    &&& post.created_at == pre.created_at
}

proof fn lemma_find_order_range(os: Seq<GroupBuyOrder>, id: Seq<char>)
    ensures
        match crate::store::find_order(os, id) {
            Some(j) => 0 <= j < os.len(),
            None => true,
        },
    decreases os.len(),
{
    if os.len() > 0 && os[0].id@ != id {
        lemma_find_order_range(os.drop_first(), id);
    }
}

proof fn lemma_find_order_pointwise(
    os1: Seq<GroupBuyOrder>,
    os2: Seq<GroupBuyOrder>,
    id: Seq<char>,
)
    requires
        os1.len() == os2.len(),
        forall|j: int| 0 <= j < os1.len() ==> (#[trigger] os2[j]).id@ == os1[j].id@,
    ensures
        crate::store::find_order(os2, id) == crate::store::find_order(os1, id),
    decreases os1.len(),
{
    if os1.len() > 0 {
        assert(os2[0].id@ == os1[0].id@);
        if os1[0].id@ != id {
            assert(forall|j: int|
                0 <= j < os1.drop_first().len() ==> #[trigger] os1.drop_first()[j] == os1[j + 1]);
            assert(forall|j: int|
                0 <= j < os2.drop_first().len() ==> #[trigger] os2.drop_first()[j] == os2[j + 1]);
            lemma_find_order_pointwise(os1.drop_first(), os2.drop_first(), id);
        }
    }
}

/// Handles the adjust-shortage dialog: parses the block, then adjusts each
/// listed order in turn.  The whole batch succeeds exactly when every
/// listed order exists under a Closed session; each applied entry is
/// atomic on its own — one rewritten order, one shortage row, one audit
/// entry — and the first refused entry stops the batch, leaving exactly
/// the earlier entries applied.
pub fn handle_adjust_shortage_dialog(
    db: &mut Database,
    group_buy_id: &str,
    adjustments_yaml: &str,
    adjuster_id: &str,
    adjuster_username: &str,
    now: &str,
) -> (r: Result<u64, DialogSubmissionResponse>)
    requires
        old(db).wf(),
    ensures
        final(db).wf(),
        final(db).sessions == old(db).sessions,
        final(db).orders@.len() == old(db).orders@.len(),
        forall|j: int|
            0 <= j < old(db).orders@.len() ==> same_order_identity(
                old(db).orders@[j],
                #[trigger] final(db).orders@[j],
            ),
        final(db).adjustments@.take(old(db).adjustments@.len() as int) == old(db).adjustments@,
        final(db).logs@.take(old(db).logs@.len() as int) == old(db).logs@,
        parse_adjustments_spec(split_lines(adjustments_yaml@), Seq::empty()) is Err ==> (
        r matches Err(resp) && resp.errors is Some && *final(db) == *old(db)),
        r is Ok <==> (match parse_adjustments_spec(
            split_lines(adjustments_yaml@),
            Seq::empty(),
        ) {
            Ok(pairs) => pairs.len() > 0 && adjustments_applicable(*old(db), pairs),
            Err(_) => false,
        }),
        r matches Ok(n) ==> (match parse_adjustments_spec(
            split_lines(adjustments_yaml@),
            Seq::empty(),
        ) {
            Ok(pairs) => {
                &&& n == pairs.len()
                &&& final(db).adjustments@.len() == old(db).adjustments@.len() + pairs.len()
                &&& final(db).logs@.len() == old(db).logs@.len() + pairs.len()
            },
            Err(_) => false,
        }),
        final(db).adjustments@.len() >= old(db).adjustments@.len(),
        final(db).adjustments@.len() - old(db).adjustments@.len() == final(db).logs@.len() - old(
            db,
        ).logs@.len(),
{
    let advs = match crate::yaml::parse_adjustments_yaml(adjustments_yaml) {
        Ok(a) => a,
        Err(_) => {
            return Err(
                crate::dialog::make_field_error_response("adjustments", "YAML 格式錯誤"),
            );
        },
    };
    if advs.len() == 0 {
        return Err(
            DialogSubmissionResponse {
                error: Some(String::from_str("沒有需要調整的訂單")),
                errors: None,
                text: None,
            },
        );
    }
    let ghost pairs = crate::yaml::quantity_pairs(advs@);
    let mut k: usize = 0;
    while k < advs.len()
        invariant
            0 <= k <= advs@.len(),
            db.wf(),
            db.sessions == old(db).sessions,
            pairs == crate::yaml::quantity_pairs(advs@),
            pairs.len() == advs@.len(),
            forall|t: int| 0 <= t < advs@.len() ==> (#[trigger] advs@[t]).1 <= MAX_QUANTITY,
            parse_adjustments_spec(split_lines(adjustments_yaml@), Seq::empty()) == Ok::<
                _,
                YamlError,
            >(pairs),
            db.orders@.len() == old(db).orders@.len(),
            forall|j: int|
                0 <= j < old(db).orders@.len() ==> same_order_identity(
                    old(db).orders@[j],
                    #[trigger] db.orders@[j],
                ),
            db.adjustments@.take(old(db).adjustments@.len() as int) == old(db).adjustments@,
            db.adjustments@.len() == old(db).adjustments@.len() + k,
            db.logs@.take(old(db).logs@.len() as int) == old(db).logs@,
            db.logs@.len() == old(db).logs@.len() + k,
            forall|t: int|
                0 <= t < k ==> (match crate::store::find_order(
                    old(db).orders@,
                    (#[trigger] pairs[t]).0,
                ) {
                    Some(j) => match find_session(
                        old(db).sessions@,
                        old(db).orders@[j].group_buy_id@,
                    ) {
                        Some(i) => old(db).sessions@[i].status is Closed,
                        None => false,
                    },
                    None => false,
                }),
        decreases advs@.len() - k,
    {
        let ghost pre = *db;
        proof {
            assert(pairs[k as int] == (advs@[k as int].0@, advs@[k as int].1));
            lemma_find_order_pointwise(old(db).orders@, db.orders@, advs@[k as int].0@);
            lemma_find_order_range(old(db).orders@, advs@[k as int].0@);
        }
        match db.adjust_single_order(
            advs[k].0.as_str(),
            advs[k].1,
            adjuster_id,
            adjuster_username,
            now,
        ) {
            Ok(_) => {
                proof {
                    assert(db.adjustments@.take(old(db).adjustments@.len() as int) =~= pre
                        .adjustments@.take(old(db).adjustments@.len() as int));
                    assert(db.logs@.take(old(db).logs@.len() as int) =~= pre.logs@.take(
                        old(db).logs@.len() as int,
                    ));
                    // The applied entry was applicable in the starting state.
                    match crate::store::find_order(pre.orders@, pairs[k as int].0) {
                        Some(j) => {
                            assert(crate::store::find_order(old(db).orders@, pairs[k as int].0)
                                == Some(j));
                            assert(pre.orders@[j].group_buy_id@ == old(
                                db,
                            ).orders@[j].group_buy_id@);
                        },
                        None => {
                            assert(false);
                        },
                    }
                }
            },
            Err(_) => {
                proof {
                    match crate::store::find_order(old(db).orders@, pairs[k as int].0) {
                        Some(j) => {
                            assert(crate::store::find_order(pre.orders@, pairs[k as int].0)
                                == Some(j));
                            assert(pre.orders@[j].group_buy_id@ == old(
                                db,
                            ).orders@[j].group_buy_id@);
                        },
                        None => {},
                    }
                }
                return Err(
                    DialogSubmissionResponse {
                        error: Some(String::from_str("調整訂單失敗")),
                        errors: None,
                        text: None,
                    },
                );
            },
        }
        k = k + 1;
    }
    Ok(advs.len() as u64)
}

} // verus!
