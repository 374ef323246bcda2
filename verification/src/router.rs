//! The action router: every panel button lands here.  The router first
//! binds the panel post to the session (one-shot), then checks who may do
//! what in which state, and either mutates through the store, opens a
//! dialog, or answers with an ephemeral note — exactly as the contract
//! says.

use vstd::prelude::*;

use crate::model::{GroupBuy, GroupBuyOrder, GroupBuyStatus, Item};
use crate::platform::DialogOption;
use crate::render::{
    buttons_exact, generate_action_buttons, generate_group_buy_message_with_orders,
    menu_is_usable, menu_usable, orders_panel_message, render_shopping_list, render_subtotals,
    ActionButton,
};
use crate::store::{appended, find_session, post_id_bound, Database};
use crate::yaml::items_yaml;

verus! {

/// What the slash command hands the create dialog.
#[derive(Debug)]
pub struct CreateDialogParams {
    pub trigger_id: String,
    pub response_url: String,
    pub channel_id: String,
    pub user_id: String,
    pub user_name: String,
    pub bot_callback_url: String,
}

/// What the Edit button hands the edit-items dialog.
#[derive(Debug)]
pub struct EditItemsDialogParams {
    pub trigger_id: String,
    pub group_buy_id: String,
    pub items_yaml: String,
    pub version: u64,
    pub post_id: Option<String>,
    pub bot_callback_url: String,
}

/// What the Cancel-Register button hands its dialog.
#[derive(Debug)]
pub struct CancelRegisterDialogParams {
    pub trigger_id: String,
    pub group_buy_id: String,
    pub buyer_options: Vec<DialogOption>,
    pub version: u64,
    pub post_id: Option<String>,
    pub introduction_text: Option<String>,
    pub bot_callback_url: String,
}

/// What the Register button hands its dialog.
#[derive(Debug)]
pub struct RegisterDialogParams {
    pub trigger_id: String,
    pub group_buy_id: String,
    pub items: Vec<Item>,
    pub version: u64,
    pub post_id: Option<String>,
    pub introduction_text: Option<String>,
    pub bot_callback_url: String,
}

/// What the Adjust button hands the shortage dialog.
#[derive(Debug)]
pub struct AdjustShortageDialogParams {
    pub trigger_id: String,
    pub group_buy_id: String,
    pub orders: Vec<GroupBuyOrder>,
    pub version: u64,
    pub bot_callback_url: String,
}

/// One inbound button callback, reduced to plain values.
#[derive(Debug)]
pub struct ActionInput {
    pub user_id: String,
    pub user_name: Option<String>,
    pub channel_id: String,
    pub post_id: String,
    pub trigger_id: Option<String>,
    pub action: String,
    pub group_buy_id: String,
}

/// A re-rendered panel.
#[derive(Debug)]
pub struct PanelUpdate {
    pub message: String,
    pub buttons: Vec<ActionButton>,
}

/// What the router decides; the caller performs it.
#[derive(Debug)]
pub enum ActionOutcome {
    /// Show this text to the actor only; nothing changed.
    Ephemeral(String),
    /// Open the edit-items dialog.
    OpenEditItems(EditItemsDialogParams),
    /// Open the register dialog.
    OpenRegister(RegisterDialogParams),
    /// Open the cancel-register dialog.
    OpenCancelRegister(CancelRegisterDialogParams),
    /// Open the adjust-shortage dialog.
    OpenAdjustShortage(AdjustShortageDialogParams),
    /// Replace the panel message and its buttons.
    UpdatePanel(PanelUpdate),
}

/// The actions only the organizer may take.
pub open spec fn organizer_only(action: Seq<char>) -> bool {
    ||| action == "edit_items"@
    ||| action == "close"@
    ||| action == "reopen"@
    ||| action == "adjust_shortage"@
}

/// The session row is untouched, or only had its panel post bound.
pub open spec fn binding_only(pre: GroupBuy, post: GroupBuy, p: Seq<char>, now: Seq<char>) -> bool {
    post == pre || (pre.post_id is None && post_id_bound(pre, post, p, now))
}

/// How a close or reopen leaves the session row: the status switched, the
/// version advanced by one, the panel post bound if it was still unbound,
/// and every other field kept.
pub open spec fn status_switched(
    pre: GroupBuy,
    post: GroupBuy,
    status: GroupBuyStatus,
    bound_post: Seq<char>,
    now: Seq<char>,
) -> bool {
    &&& post.id == pre.id
    &&& post.creator_id == pre.creator_id
    &&& post.creator_username == pre.creator_username
    &&& post.channel_id == pre.channel_id
    &&& post.merchant_name == pre.merchant_name
    &&& post.description == pre.description
    &&& post.metadata == pre.metadata
    &&& post.items == pre.items
    &&& post.status == status
    &&& post.version == pre.version + 1
    &&& post.created_at == pre.created_at
    &&& post.updated_at@ == now
    &&& (pre.post_id is Some ==> post.post_id == pre.post_id)
    &&& (pre.post_id is None ==> (post.post_id matches Some(p) && p@ == bound_post))
}

/// What a re-rendered panel must hold after a status switch: exactly the
/// new session's body with its orders, and the new status's button set.
pub open spec fn panel_exact(
    u: PanelUpdate,
    s: GroupBuy,
    os: Seq<GroupBuyOrder>,
    gb_id: Seq<char>,
    base_raw: Seq<char>,
) -> bool {
    &&& u.message@ == orders_panel_message(
        s.merchant_name@,
        s.description,
        s.metadata@,
        s.status,
        s.items@,
        os.filter(|o: GroupBuyOrder| crate::store::order_in_session(o, gb_id)),
    )
    &&& buttons_exact(u.buttons@, s.status, gb_id, base_raw)
}

/// Routes one button callback.  Binds the panel post first; organizer-only
/// actions by anyone else are refused without any further change; close and
/// reopen switch the status under the version read here; everything else
/// opens a dialog or answers ephemerally.
pub fn handle_group_buy_action(
    db: &mut Database,
    req: &ActionInput,
    actor_username: &str,
    bot_callback_url: &str,
    now: &str,
) -> (r: ActionOutcome)
    requires
        old(db).wf(),
    ensures
        final(db).wf(),
        final(db).orders == old(db).orders,
        final(db).adjustments == old(db).adjustments,
        find_session(old(db).sessions@, req.group_buy_id@) is None ==> (r is Ephemeral
            && *final(db) == *old(db)),
        (match find_session(old(db).sessions@, req.group_buy_id@) {
            Some(i) => {
                let pre = old(db).sessions@[i];
                &&& final(db).sessions@.len() == old(db).sessions@.len()
                &&& (forall|j: int|
                    0 <= j < old(db).sessions@.len() && j != i ==> final(db).sessions@[j] == old(
                        db,
                    ).sessions@[j])
                &&& (organizer_only(req.action@) && pre.creator_id@ != req.user_id@ ==> (
                r is Ephemeral && final(db).logs == old(db).logs && binding_only(
                    pre,
                    final(db).sessions@[i],
                    req.post_id@,
                    now@,
                )))
                &&& (req.action@ == "close"@ && pre.creator_id@ == req.user_id@ ==> ({
                    if pre.status is Active && pre.version < u64::MAX {
                        &&& (r matches ActionOutcome::UpdatePanel(u) && panel_exact(
                            u,
                            final(db).sessions@[i],
                            final(db).orders@,
                            req.group_buy_id@,
                            bot_callback_url@,
                        ))
                        &&& status_switched(
                            pre,
                            final(db).sessions@[i],
                            GroupBuyStatus::Closed,
                            req.post_id@,
                            now@,
                        )
                        &&& appended(old(db).logs@, final(db).logs@)
                    } else {
                        &&& r is Ephemeral
                        &&& final(db).logs == old(db).logs
                        &&& binding_only(pre, final(db).sessions@[i], req.post_id@, now@)
                    }
                }))
                &&& (req.action@ == "reopen"@ && pre.creator_id@ == req.user_id@ ==> ({
                    if pre.status is Closed && pre.version < u64::MAX {
                        &&& (r matches ActionOutcome::UpdatePanel(u) && panel_exact(
                            u,
                            final(db).sessions@[i],
                            final(db).orders@,
                            req.group_buy_id@,
                            bot_callback_url@,
                        ))
                        &&& status_switched(
                            pre,
                            final(db).sessions@[i],
                            GroupBuyStatus::Active,
                            req.post_id@,
                            now@,
                        )
                        &&& appended(old(db).logs@, final(db).logs@)
                    } else {
                        &&& r is Ephemeral
                        &&& final(db).logs == old(db).logs
                        &&& binding_only(pre, final(db).sessions@[i], req.post_id@, now@)
                    }
                }))
                &&& (match r {
                    ActionOutcome::OpenEditItems(p) => req.action@ == "edit_items"@
                        && pre.creator_id@ == req.user_id@ && pre.status is Active && p.version
                        == pre.version && p.group_buy_id@ == req.group_buy_id@ && p.items_yaml@
                        == items_yaml(pre.items@),
                    ActionOutcome::OpenRegister(p) => req.action@ == "register"@
                        && pre.status is Active && menu_usable(pre.items@) && p.version
                        == pre.version && p.group_buy_id@ == req.group_buy_id@ && p.items@
                        == pre.items@,
                    ActionOutcome::OpenCancelRegister(p) => req.action@ == "cancel_register"@
                        && p.version == pre.version && p.group_buy_id@ == req.group_buy_id@,
                    ActionOutcome::OpenAdjustShortage(p) => req.action@ == "adjust_shortage"@
                        && pre.creator_id@ == req.user_id@ && pre.status is Closed && p.version
                        == pre.version && p.group_buy_id@ == req.group_buy_id@,
                    ActionOutcome::UpdatePanel(_) => (req.action@ == "close"@ || req.action@
                        == "reopen"@) && pre.creator_id@ == req.user_id@,
                    _ => true,
                })
                // The dialog-opening actions never write: at most the panel
                // binding touches the store, and each owed dialog is opened.
                &&& ((req.action@ == "edit_items"@ || req.action@ == "register"@ || req.action@
                    == "cancel_register"@ || req.action@ == "adjust_shortage"@)
                    ==> (final(db).logs == old(db).logs && binding_only(
                    pre,
                    final(db).sessions@[i],
                    req.post_id@,
                    now@,
                )))
                &&& (req.action@ == "register"@ && pre.status is Closed ==> r is Ephemeral)
                &&& (req.action@ == "edit_items"@ && pre.creator_id@ == req.user_id@
                    && pre.status is Active && req.trigger_id is Some ==> r is OpenEditItems)
                &&& (req.action@ == "register"@ && pre.status is Active && menu_usable(pre.items@)
                    && req.trigger_id is Some ==> r is OpenRegister)
                &&& (req.action@ == "cancel_register"@ && old(db).orders@.filter(
                    |o: GroupBuyOrder| crate::store::order_in_session(o, req.group_buy_id@),
                ).len() > 0 && req.trigger_id is Some ==> r is OpenCancelRegister)
                &&& (req.action@ == "adjust_shortage"@ && pre.creator_id@ == req.user_id@
                    && pre.status is Closed && old(db).orders@.filter(
                    |o: GroupBuyOrder| crate::store::order_in_session(o, req.group_buy_id@),
                ).len() > 0 && req.trigger_id is Some ==> r is OpenAdjustShortage)
                &&& ((req.action@ == "shopping_list"@ || req.action@ == "subtotal"@) ==> (
                r is Ephemeral && final(db).logs == old(db).logs && binding_only(
                    pre,
                    final(db).sessions@[i],
                    req.post_id@,
                    now@,
                )))
            },
            None => true,
        }),
{
    proof {
        reveal_strlit("edit_items");
        reveal_strlit("register");
        reveal_strlit("cancel_register");
        reveal_strlit("close");
        reveal_strlit("reopen");
        reveal_strlit("adjust_shortage");
        reveal_strlit("shopping_list");
        reveal_strlit("subtotal");
        assert("edit_items"@.len() == 10);
        assert("register"@.len() == 8);
        assert("cancel_register"@.len() == 15);
        assert("close"@.len() == 5);
        assert("reopen"@.len() == 6);
        assert("adjust_shortage"@.len() == 15);
        assert("shopping_list"@.len() == 13);
        assert("subtotal"@.len() == 8);
        assert("register"@[0] == 'r' && "subtotal"@[0] == 's');
        assert("register"@ != "subtotal"@);
        assert("cancel_register"@[0] == 'c' && "adjust_shortage"@[0] == 'a');
        assert("cancel_register"@ != "adjust_shortage"@);
    }
    let i = match db.session_index(req.group_buy_id.as_str()) {
        Some(i) => i,
        None => {
            return ActionOutcome::Ephemeral(String::from_str("找不到該團購"));
        },
    };
    if db.sessions[i].post_id.is_none() {
        let _ = db.update_post_id(req.group_buy_id.as_str(), req.post_id.as_str(), now);
    }
    proof {
        // The binding kept every id, so the session is still found at `i`.
        crate::store::lemma_find_session_props(old(db).sessions@, req.group_buy_id@);
        assert(db.sessions@[i as int].id@ == req.group_buy_id@);
        assert forall|j: int| 0 <= j < i implies (#[trigger] db.sessions@[j].id)@
            != req.group_buy_id@ by {
            assert(db.sessions@[j] == old(db).sessions@[j]);
        }
        crate::store::lemma_find_session_first(db.sessions@, req.group_buy_id@, i as int);
    }
    let gb = db.sessions[i].clone();
    proof {
        assert(crate::model::items_wf(gb.items@));
        assert(gb.wf());
    }
    let action = req.action.as_str();
    if crate::model::str_eq(action, "edit_items") {
        if !crate::model::str_eq(gb.creator_id.as_str(), req.user_id.as_str()) {
            return ActionOutcome::Ephemeral(
                String::from_str("⚠️ 只有團購建立者可以編輯商品"),
            );
        }
        if matches!(gb.status, GroupBuyStatus::Closed) {
            return ActionOutcome::Ephemeral(
                String::from_str("⚠️ 只有進行中的團購可以編輯商品"),
            );
        }
        let trigger_id = match &req.trigger_id {
            Some(t) => t.clone(),
            None => {
                return ActionOutcome::Ephemeral(String::from_str("⚠️ 缺少操作憑證"));
            },
        };
        let yaml = crate::yaml::items_to_yaml(&gb.items);
        ActionOutcome::OpenEditItems(
            EditItemsDialogParams {
                trigger_id,
                group_buy_id: req.group_buy_id.clone(),
                items_yaml: yaml,
                version: gb.version,
                post_id: clone_opt(&gb.post_id),
                bot_callback_url: String::from_str(bot_callback_url),
            },
        )
    } else if crate::model::str_eq(action, "register") {
        if matches!(gb.status, GroupBuyStatus::Closed) {
            return ActionOutcome::Ephemeral(
                String::from_str("⚠️ 此團購已截止，無法登記"),
            );
        }
        if !menu_is_usable(&gb.items) {
            return ActionOutcome::Ephemeral(String::from_str("⚠️ 請先編輯商品列表"));
        }
        let trigger_id = match &req.trigger_id {
            Some(t) => t.clone(),
            None => {
                return ActionOutcome::Ephemeral(String::from_str("⚠️ 缺少操作憑證"));
            },
        };
        let mine = db.get_buyer_orders(req.group_buy_id.as_str(), req.user_id.as_str());
        let intro = if mine.len() > 0 {
            Some(render_buyer_orders_intro(&mine))
        } else {
            None
        };
        ActionOutcome::OpenRegister(
            RegisterDialogParams {
                trigger_id,
                group_buy_id: req.group_buy_id.clone(),
                items: gb.items,
                version: gb.version,
                post_id: clone_opt(&gb.post_id),
                introduction_text: intro,
                bot_callback_url: String::from_str(bot_callback_url),
            },
        )
    } else if crate::model::str_eq(action, "cancel_register") {
        let orders = db.get_all_orders(req.group_buy_id.as_str());
        if orders.len() == 0 {
            return ActionOutcome::Ephemeral(
                String::from_str("目前沒有任何登記可供取消"),
            );
        }
        let trigger_id = match &req.trigger_id {
            Some(t) => t.clone(),
            None => {
                return ActionOutcome::Ephemeral(String::from_str("⚠️ 缺少操作憑證"));
            },
        };
        let buyer_options = distinct_buyer_options(&orders);
        let intro = render_registrations_intro(&orders);
        ActionOutcome::OpenCancelRegister(
            CancelRegisterDialogParams {
                trigger_id,
                group_buy_id: req.group_buy_id.clone(),
                buyer_options,
                version: gb.version,
                post_id: clone_opt(&gb.post_id),
                introduction_text: Some(intro),
                bot_callback_url: String::from_str(bot_callback_url),
            },
        )
    } else if crate::model::str_eq(action, "close") {
        if !crate::model::str_eq(gb.creator_id.as_str(), req.user_id.as_str()) {
            return ActionOutcome::Ephemeral(
                String::from_str("⚠️ 只有團購建立者可以截止"),
            );
        }
        if matches!(gb.status, GroupBuyStatus::Closed) {
            return ActionOutcome::Ephemeral(String::from_str("⚠️ 此團購已截止"));
        }
        match db.update_status(
            req.group_buy_id.as_str(),
            GroupBuyStatus::Closed,
            gb.version,
            req.user_id.as_str(),
            actor_username,
            now,
        ) {
            Ok(_) => {},
            Err(_) => {
                return ActionOutcome::Ephemeral(
                    String::from_str("更新失敗：團購狀態已變更，請重新整理"),
                );
            },
        }
        let updated = db.sessions[i].clone();
        let orders = db.get_orders_by_group_buy(req.group_buy_id.as_str());
        let message = generate_group_buy_message_with_orders(
            updated.merchant_name.as_str(),
            &updated.description,
            &updated.metadata,
            &GroupBuyStatus::Closed,
            &updated.items,
            &orders,
        );
        let buttons = generate_action_buttons(
            req.group_buy_id.as_str(),
            &GroupBuyStatus::Closed,
            bot_callback_url,
        );
        ActionOutcome::UpdatePanel(PanelUpdate { message, buttons })
    } else if crate::model::str_eq(action, "reopen") {
        if !crate::model::str_eq(gb.creator_id.as_str(), req.user_id.as_str()) {
            return ActionOutcome::Ephemeral(
                String::from_str("⚠️ 只有團購建立者可以重新開放"),
            );
        }
        if matches!(gb.status, GroupBuyStatus::Active) {
            return ActionOutcome::Ephemeral(String::from_str("⚠️ 此團購尚未截止"));
        }
        match db.update_status(
            req.group_buy_id.as_str(),
            GroupBuyStatus::Active,
            gb.version,
            req.user_id.as_str(),
            actor_username,
            now,
        ) {
            Ok(_) => {},
            Err(_) => {
                return ActionOutcome::Ephemeral(
                    String::from_str("更新失敗：團購狀態已變更，請重新整理"),
                );
            },
        }
        let updated = db.sessions[i].clone();
        let orders = db.get_orders_by_group_buy(req.group_buy_id.as_str());
        let message = generate_group_buy_message_with_orders(
            updated.merchant_name.as_str(),
            &updated.description,
            &updated.metadata,
            &GroupBuyStatus::Active,
            &updated.items,
            &orders,
        );
        let buttons = generate_action_buttons(
            req.group_buy_id.as_str(),
            &GroupBuyStatus::Active,
            bot_callback_url,
        );
        ActionOutcome::UpdatePanel(PanelUpdate { message, buttons })
    } else if crate::model::str_eq(action, "adjust_shortage") {
        if !crate::model::str_eq(gb.creator_id.as_str(), req.user_id.as_str()) {
            return ActionOutcome::Ephemeral(
                String::from_str("⚠️ 只有團購建立者可以調整缺貨"),
            );
        }
        if matches!(gb.status, GroupBuyStatus::Active) {
            return ActionOutcome::Ephemeral(
                String::from_str("⚠️ 只有已截止的團購可以調整缺貨"),
            );
        }
        let orders = db.get_orders_by_group_buy(req.group_buy_id.as_str());
        if orders.len() == 0 {
            return ActionOutcome::Ephemeral(String::from_str("尚無登記資料"));
        }
        let trigger_id = match &req.trigger_id {
            Some(t) => t.clone(),
            None => {
                return ActionOutcome::Ephemeral(String::from_str("⚠️ 缺少操作憑證"));
            },
        };
        ActionOutcome::OpenAdjustShortage(
            AdjustShortageDialogParams {
                trigger_id,
                group_buy_id: req.group_buy_id.clone(),
                orders,
                version: gb.version,
                bot_callback_url: String::from_str(bot_callback_url),
            },
        )
    } else if crate::model::str_eq(action, "shopping_list") {
        let orders = db.get_orders_by_group_buy(req.group_buy_id.as_str());
        if orders.len() == 0 {
            return ActionOutcome::Ephemeral(String::from_str("尚無登記資料"));
        }
        let rows = crate::aggregate::shopping_list_rows(&orders);
        let people = crate::render::count_distinct_buyers(&orders);
        let total = crate::aggregate::total_amount(&orders);
        ActionOutcome::Ephemeral(
            render_shopping_list(gb.merchant_name.as_str(), people, &rows, total),
        )
    } else if crate::model::str_eq(action, "subtotal") {
        let orders = db.get_orders_by_group_buy(req.group_buy_id.as_str());
        if orders.len() == 0 {
            return ActionOutcome::Ephemeral(String::from_str("尚無登記資料"));
        }
        let rows = crate::aggregate::subtotals(&orders);
        let total = crate::aggregate::total_amount(&orders);
        ActionOutcome::Ephemeral(render_subtotals(gb.merchant_name.as_str(), &rows, total))
    } else {
        ActionOutcome::Ephemeral(String::from_str("未知的操作"))
    }
}

/// Handles the slash command that starts a session: checks the command
/// secret, then hands back everything the create dialog needs.
pub fn handle_group_buy_command(
    form: &Vec<(String, String)>,
    expected_token: &Option<String>,
    bot_callback_url: &str,
) -> (r: Result<CreateDialogParams, crate::auth::UnauthorizedError>)
    ensures
        r is Ok <==> crate::auth::token_ok(form@, *expected_token),
        r matches Ok(p) ==> ({
            &&& p.trigger_id@ == crate::dialog::form_value_or_empty(form@, "trigger_id"@)
            &&& p.response_url@ == crate::dialog::form_value_or_empty(form@, "response_url"@)
            &&& p.channel_id@ == crate::dialog::form_value_or_empty(form@, "channel_id"@)
            &&& p.user_id@ == crate::dialog::form_value_or_empty(form@, "user_id"@)
            &&& p.user_name@ == crate::dialog::form_value_or_empty(form@, "user_name"@)
            &&& p.bot_callback_url@ == bot_callback_url@
        }),
{
    match crate::auth::verify_slash_command_token(form, expected_token) {
        Ok(_) => {},
        Err(e) => {
            return Err(e);
        },
    }
    let req = crate::dialog::parse_slash_command(form);
    Ok(
        CreateDialogParams {
            trigger_id: req.trigger_id,
            response_url: req.response_url,
            channel_id: req.channel_id,
            user_id: req.user_id,
            user_name: req.user_name,
            bot_callback_url: String::from_str(bot_callback_url),
        },
    )
}

fn clone_opt(s: &Option<String>) -> (r: Option<String>)
    ensures
        r == *s,
{
    match s {
        Some(x) => Some(x.clone()),
        None => None,
    }
}

/// The registration table shown above the register dialog: the actor's own
/// orders, grouped by item with quantity and amount sums.
fn render_buyer_orders_intro(orders: &Vec<GroupBuyOrder>) -> (r: String)
    requires
        crate::aggregate::orders_wf(orders@),
{
    let mut msg = String::from_str(
        "已購買項目：\n\n| 商品 | 數量 | 小計 |\n|------|----:|-----:|\n",
    );
    let mut names: Vec<String> = Vec::new();
    let mut i: usize = 0;
    while i < orders.len()
        invariant
            0 <= i <= orders@.len(),
        decreases orders@.len() - i,
    {
        let mut seen = false;
        let mut k: usize = 0;
        while k < names.len()
            invariant
                0 <= k <= names@.len(),
                i < orders@.len(),
            decreases names@.len() - k,
        {
            if crate::model::str_eq(names[k].as_str(), orders[i].item_name.as_str()) {
                seen = true;
            }
            k = k + 1;
        }
        if !seen {
            names.push(orders[i].item_name.clone());
        }
        i = i + 1;
    }
    let mut n: usize = 0;
    while n < names.len()
        invariant
            0 <= n <= names@.len(),
            crate::aggregate::orders_wf(orders@),
        decreases names@.len() - n,
    {
        let name = names[n].as_str();
        let mut qty: u128 = 0;
        let mut amount: u128 = 0;
        let mut j: usize = 0;
        while j < orders.len()
            invariant
                0 <= j <= orders@.len(),
                crate::aggregate::orders_wf(orders@),
                qty <= (j as int) * (crate::money::MAX_QUANTITY as int),
                amount <= (j as int) * (crate::aggregate::ORDER_AMOUNT_LIMIT as int),
            decreases orders@.len() - j,
        {
            proof {
                crate::aggregate::lemma_amount_bound(orders@[j as int]);
                assert((j as int) * (crate::money::MAX_QUANTITY as int) + (
                crate::money::MAX_QUANTITY as int) == (j + 1) * (crate::money::MAX_QUANTITY
                    as int)) by (nonlinear_arith);
                assert((j as int) * (crate::aggregate::ORDER_AMOUNT_LIMIT as int) + (
                crate::aggregate::ORDER_AMOUNT_LIMIT as int) == (j + 1) * (
                crate::aggregate::ORDER_AMOUNT_LIMIT as int)) by (nonlinear_arith);
                assert((j + 1) * (crate::money::MAX_QUANTITY as int) <= u128::MAX) by (
                nonlinear_arith)
                    requires
                        0 <= j + 1 <= 0x1_0000_0000_0000_0000,
                ;
                assert((j + 1) * (crate::aggregate::ORDER_AMOUNT_LIMIT as int) <= u128::MAX) by (
                nonlinear_arith)
                    requires
                        0 <= j + 1 <= 0x1_0000_0000_0000_0000,
                ;
            }
            if crate::model::str_eq(orders[j].item_name.as_str(), name) {
                qty = qty + (orders[j].quantity as u128);
                amount = amount + (orders[j].unit_price.cents as u128) * (orders[j].quantity
                    as u128);
            }
            j = j + 1;
        }
        msg.append("| ");
        msg.append(name);
        msg.append(" | ");
        let q = crate::money::format_u128(qty);
        msg.append(q.as_str());
        msg.append(" | $");
        let a = crate::money::format_money_u128(amount);
        msg.append(a.as_str());
        msg.append(" |\n");
        n = n + 1;
    }
    msg
}

/// The current registrations table shown above the cancel dialog.
fn render_registrations_intro(orders: &Vec<GroupBuyOrder>) -> (r: String) {
    let mut msg = String::from_str(
        "目前登記：\n\n| 被登記人 | 商品 | 數量 | 登記人 |\n|---|---|---:|---|\n",
    );
    let mut i: usize = 0;
    while i < orders.len()
        invariant
            0 <= i <= orders@.len(),
        decreases orders@.len() - i,
    {
        msg.append("| @");
        msg.append(orders[i].buyer_username.as_str());
        msg.append(" | ");
        msg.append(orders[i].item_name.as_str());
        msg.append(" | ");
        let q = crate::money::format_u64(orders[i].quantity as u64);
        msg.append(q.as_str());
        msg.append(" | @");
        msg.append(orders[i].registrar_username.as_str());
        msg.append(" |\n");
        i = i + 1;
    }
    msg
}

/// One select option per distinct buyer among the orders.
fn distinct_buyer_options(orders: &Vec<GroupBuyOrder>) -> (r: Vec<DialogOption>)
{
    let mut options: Vec<DialogOption> = Vec::new();
    let mut i: usize = 0;
    while i < orders.len()
        invariant
            0 <= i <= orders@.len(),
        decreases orders@.len() - i,
    {
        let mut seen = false;
        let mut k: usize = 0;
        while k < options.len()
            invariant
                0 <= k <= options@.len(),
                i < orders@.len(),
            decreases options@.len() - k,
        {
            if crate::model::str_eq(options[k].value.as_str(), orders[i].buyer_id.as_str()) {
                seen = true;
            }
            k = k + 1;
        }
        if !seen {
            let mut text = String::from_str("@");
            text.append(orders[i].buyer_username.as_str());
            options.push(DialogOption { text, value: orders[i].buyer_id.clone() });
        }
        i = i + 1;
    }
    options
}

/// One commented caption and one `order id: current quantity` line per
/// order, in order.
pub open spec fn prefill_lines(os: Seq<GroupBuyOrder>) -> Seq<char>
    decreases os.len(),
{
    if os.len() == 0 {
        Seq::empty()
    } else {
        prefill_lines(os.drop_last()) + "# @"@ + os.last().buyer_username@ + " - "@
            + os.last().item_name@ + " x"@ + crate::money::dec_str(os.last().quantity as int)
            + "\n"@ + os.last().id@ + ": "@ + crate::money::dec_str(os.last().quantity as int)
            + "\n\n"@
    }
}

/// The whole pre-filled block the shortage dialog opens with.
pub open spec fn prefill_text(os: Seq<GroupBuyOrder>) -> Seq<char> {
    "# 格式：order_id: 新數量\n# 設為 0 表示完全缺貨，維持原數量則不填或保持原值\n\n"@
        + prefill_lines(os)
}

/// The pre-filled block the shortage dialog opens with: a commented format
/// note, then one captioned `order id: current quantity` line per order —
/// exactly the text `prefill_text` lays down.
pub fn adjustments_prefill(orders: &Vec<GroupBuyOrder>) -> (r: String)
    ensures
        r@ == prefill_text(orders@),
{
    let mut yaml = String::from_str(
        "# 格式：order_id: 新數量\n# 設為 0 表示完全缺貨，維持原數量則不填或保持原值\n\n",
    );
    let ghost head =
        "# 格式：order_id: 新數量\n# 設為 0 表示完全缺貨，維持原數量則不填或保持原值\n\n"@;
    let mut i: usize = 0;
    assert(prefill_lines(orders@.take(0)) =~= Seq::<char>::empty());
    while i < orders.len()
        invariant
            0 <= i <= orders@.len(),
            yaml@ == head + prefill_lines(orders@.take(i as int)),
        decreases orders@.len() - i,
    {
        proof {
            assert(orders@.take(i + 1).drop_last() =~= orders@.take(i as int));
            assert(orders@.take(i + 1).last() == orders@[i as int]);
        }
        let q = crate::money::format_u64(orders[i].quantity as u64);
        yaml.append("# @");
        yaml.append(orders[i].buyer_username.as_str());
        yaml.append(" - ");
        yaml.append(orders[i].item_name.as_str());
        yaml.append(" x");
        yaml.append(q.as_str());
        yaml.append("\n");
        yaml.append(orders[i].id.as_str());
        yaml.append(": ");
        yaml.append(q.as_str());
        yaml.append("\n\n");
        assert(yaml@ =~= head + prefill_lines(orders@.take(i + 1)));
        i = i + 1;
    }
    assert(orders@.take(orders@.len() as int) =~= orders@);
    yaml
}

} // verus!
