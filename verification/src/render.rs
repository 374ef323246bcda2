//! The panel renderer: the message body and the deterministic button set.

use vstd::prelude::*;

use crate::aggregate::{item_total_qty, orders_wf, ShoppingListRow, SubtotalRow};
use crate::model::{GroupBuyOrder, GroupBuyStatus, Item};
use crate::money::{dec_str, money_str};

verus! {

/// One panel button: its stable id, its label, the action tag it posts,
/// the callback address, and the session it belongs to.
#[derive(Debug)]
pub struct ActionButton {
    pub id: String,
    pub name: String,
    pub action: String,
    pub url: String,
    pub group_buy_id: String,
}

/// `s` with every hyphen removed: the platform-safe form of a session id.
pub open spec fn strip_hyphens(s: Seq<char>) -> Seq<char> {
    s.filter(|c: char| c != '-')
}

/// Removes the hyphens of a session id.
pub fn strip_hyphens_of(s: &str) -> (r: String)
    ensures
        r@ == strip_hyphens(s@),
{
    let ghost keep = |c: char| c != '-';
    let n = s.unicode_len();
    let mut out = String::new();
    let mut i: usize = 0;
    proof {
        reveal(Seq::filter);
        assert(s@.take(0) =~= Seq::<char>::empty());
    }
    while i < n
        invariant
            0 <= i <= n,
            n == s@.len(),
            keep == (|c: char| c != '-'),
            out@ == s@.take(i as int).filter(keep),
        decreases n - i,
    {
        proof {
            reveal(Seq::filter);
            assert(s@.take(i + 1).drop_last() =~= s@.take(i as int));
        }
        let c = s.get_char(i);
        if c != '-' {
            let piece = s.substring_char(i, i + 1);
            assert(piece@ =~= seq![s@[i as int]]);
            out.append(piece);
        }
        i = i + 1;
    }
    proof {
        assert(s@.take(n as int) =~= s@);
    }
    out
}

/// `s` without trailing slashes: how a callback base address is normalised.
pub open spec fn trim_trailing_slash(s: Seq<char>) -> Seq<char>
    decreases s.len(),
{
    if s.len() > 0 && s.last() == '/' {
        trim_trailing_slash(s.drop_last())
    } else {
        s
    }
}

/// Strips trailing slashes from a callback base address.
pub fn trim_trailing_slash_of(s: &str) -> (r: String)
    ensures
        r@ == trim_trailing_slash(s@),
{
    let n = s.unicode_len();
    let mut b: usize = n;
    while b > 0 && s.get_char(b - 1) == '/'
        invariant
            0 <= b <= n,
            n == s@.len(),
            forall|j: int| b <= j < n ==> s@[j] == '/',
        decreases b,
    {
        b = b - 1;
    }
    proof {
        lemma_trim_slash_take(s@, b as int);
    }
    let piece = s.substring_char(0, b);
    assert(piece@ =~= s@.take(b as int));
    String::from_str(piece)
}

proof fn lemma_trim_slash_take(s: Seq<char>, k: int)
    requires
        0 <= k <= s.len(),
        forall|j: int| k <= j < s.len() ==> s[j] == '/',
        k > 0 ==> s[k - 1] != '/',
    ensures
        trim_trailing_slash(s) == s.take(k),
    decreases s.len() - k,
{
    if k < s.len() {
        assert(s.last() == '/');
        assert(s.drop_last() =~= s.take(s.len() - 1));
        assert(forall|j: int|
            k <= j < s.take(s.len() - 1).len() ==> #[trigger] s.take(s.len() - 1)[j] == s[j]);
        lemma_trim_slash_take(s.take(s.len() - 1), k);
        assert(s.take(s.len() - 1).take(k) =~= s.take(k));
    } else {
        assert(s.take(k) =~= s);
    }
}

/// The action tag each button slot posts, per status: what the router
/// dispatches on.
pub open spec fn button_actions(status: GroupBuyStatus) -> Seq<Seq<char>> {
    if status is Active {
        seq![
            "edit_items"@,
            "register"@,
            "cancel_register"@,
            "close"@,
            "shopping_list"@,
            "subtotal"@,
        ]
    } else {
        seq!["reopen"@, "adjust_shortage"@, "shopping_list"@, "subtotal"@]
    }
}

fn push_button(
    buttons: &mut Vec<ActionButton>,
    id_prefix: &str,
    clean_id: &String,
    name: &str,
    action: &str,
    base: &String,
    group_buy_id: &str,
)
    ensures
        final(buttons)@.len() == old(buttons)@.len() + 1,
        final(buttons)@.take(old(buttons)@.len() as int) == old(buttons)@,
        ({
            let b = final(buttons)@.last();
            &&& b.id@ == id_prefix@ + clean_id@
            &&& b.name@ == name@
            &&& b.action@ == action@
            &&& b.url@ == base@ + "/api/v1/group_buy/action/"@ + action@
            &&& b.group_buy_id@ == group_buy_id@
        }),
{
    let mut id = String::from_str(id_prefix);
    id.append(clean_id.as_str());
    let mut url = base.clone();
    url.append("/api/v1/group_buy/action/");
    url.append(action);
    buttons.push(
        ActionButton {
            id,
            name: String::from_str(name),
            action: String::from_str(action),
            url,
            group_buy_id: String::from_str(group_buy_id),
        },
    );
    assert(final(buttons)@.take(old(buttons)@.len() as int) =~= old(buttons)@);
}

/// The stable identifier prefix of each button slot, per status.
pub open spec fn button_id_prefixes(status: GroupBuyStatus) -> Seq<Seq<char>> {
    if status is Active {
        seq![
            "edititems"@,
            "register"@,
            "cancelregister"@,
            "close"@,
            "shoppinglist"@,
            "subtotal"@,
        ]
    } else {
        seq!["reopen"@, "adjustshortage"@, "shoppinglist"@, "subtotal"@]
    }
}

/// The label of each button slot, per status.
pub open spec fn button_labels(status: GroupBuyStatus) -> Seq<Seq<char>> {
    if status is Active {
        seq!["編輯商品"@, "登記"@, "取消登記"@, "截止"@, "採購列表"@, "小計"@]
    } else {
        seq!["重新開放"@, "調整缺貨"@, "採購列表"@, "小計"@]
    }
}

/// The full button set of a panel: per slot the action tag, the stable
/// per-session identifier, the label, the callback address, and the
/// session id the context carries.
pub open spec fn buttons_exact(
    buttons: Seq<ActionButton>,
    status: GroupBuyStatus,
    gb: Seq<char>,
    base_raw: Seq<char>,
) -> bool {
    &&& buttons.len() == button_actions(status).len()
    &&& forall|k: int|
        0 <= k < buttons.len() ==> ({
            let b = #[trigger] buttons[k];
            &&& b.action@ == button_actions(status)[k]
            &&& b.id@ == button_id_prefixes(status)[k] + strip_hyphens(gb)
            &&& b.name@ == button_labels(status)[k]
            &&& b.url@ == trim_trailing_slash(base_raw) + "/api/v1/group_buy/action/"@
                + button_actions(status)[k]
            &&& b.group_buy_id@ == gb
        })
}

/// The panel's buttons: a deterministic set per status, each carrying the
/// session id and a stable per-session identifier.
pub fn generate_action_buttons(
    group_buy_id: &str,
    status: &GroupBuyStatus,
    bot_callback_url: &str,
) -> (buttons: Vec<ActionButton>)
    ensures
        buttons_exact(buttons@, *status, group_buy_id@, bot_callback_url@),
{
    let clean_id = strip_hyphens_of(group_buy_id);
    let base = trim_trailing_slash_of(bot_callback_url);
    let mut buttons: Vec<ActionButton> = Vec::new();
    match status {
        GroupBuyStatus::Active => {
            push_button(
                &mut buttons,
                "edititems",
                &clean_id,
                "編輯商品",
                "edit_items",
                &base,
                group_buy_id,
            );
            push_button(
                &mut buttons,
                "register",
                &clean_id,
                "登記",
                "register",
                &base,
                group_buy_id,
            );
            push_button(
                &mut buttons,
                "cancelregister",
                &clean_id,
                "取消登記",
                "cancel_register",
                &base,
                group_buy_id,
            );
            push_button(&mut buttons, "close", &clean_id, "截止", "close", &base, group_buy_id);
        },
        GroupBuyStatus::Closed => {
            push_button(
                &mut buttons,
                "reopen",
                &clean_id,
                "重新開放",
                "reopen",
                &base,
                group_buy_id,
            );
            push_button(
                &mut buttons,
                "adjustshortage",
                &clean_id,
                "調整缺貨",
                "adjust_shortage",
                &base,
                group_buy_id,
            );
        },
    }
    push_button(
        &mut buttons,
        "shoppinglist",
        &clean_id,
        "採購列表",
        "shopping_list",
        &base,
        group_buy_id,
    );
    push_button(&mut buttons, "subtotal", &clean_id, "小計", "subtotal", &base, group_buy_id);
    buttons
}

/// Whether the menu holds only the placeholder sample item.
pub open spec fn placeholder_only(items: Seq<Item>) -> bool {
    items.len() == 1 && items[0].name@ == "範例商品"@
}

/// Whether the session can accept registrations for its menu.
pub open spec fn menu_usable(items: Seq<Item>) -> bool {
    items.len() > 0 && !placeholder_only(items)
}

/// Checks whether the menu holds real items.
pub fn menu_is_usable(items: &Vec<Item>) -> (r: bool)
    ensures
        r == menu_usable(items@),
{
    if items.len() == 0 {
        return false;
    }
    if items.len() == 1 && crate::model::str_eq(items[0].name.as_str(), "範例商品") {
        return false;
    }
    true
}
/// The closed marker that heads the panel of a Closed session.
pub open spec fn lock_prefix(status: GroupBuyStatus) -> Seq<char> {
    if status is Closed {
        "🔒 **【已截止】** "@
    } else {
        Seq::empty()
    }
}

/// The description paragraph, present exactly for a non-empty description.
pub open spec fn desc_block(description: Option<String>) -> Seq<char> {
    match description {
        Some(d) => if d@.len() > 0 {
            "📝 **描述:**\n"@ + d@ + "\n\n"@
        } else {
            Seq::empty()
        },
        None => Seq::empty(),
    }
}

/// One bullet line per metadata pair, in order.
pub open spec fn metadata_lines(md: Seq<(String, String)>) -> Seq<char>
    decreases md.len(),
{
    if md.len() == 0 {
        Seq::empty()
    } else {
        metadata_lines(md.drop_last()) + "• "@ + md.last().0@ + ": "@ + md.last().1@ + "\n"@
    }
}

/// The metadata paragraph, present exactly when any pair exists.
pub open spec fn metadata_block(md: Seq<(String, String)>) -> Seq<char> {
    if md.len() > 0 {
        "ℹ️ **其他資訊:**\n"@ + metadata_lines(md) + "\n"@
    } else {
        Seq::empty()
    }
}

/// One bullet line per menu item, in menu order.
pub open spec fn menu_lines(items: Seq<Item>) -> Seq<char>
    decreases items.len(),
{
    if items.len() == 0 {
        Seq::empty()
    } else {
        menu_lines(items.drop_last()) + "• "@ + items.last().name@ + " - NT$"@ + money_str(
            items.last().price.cents as int,
        ) + "\n"@
    }
}

/// The menu paragraph, present exactly for a usable menu.
pub open spec fn menu_block(items: Seq<Item>) -> Seq<char> {
    if menu_usable(items) {
        "🍱 **商品列表:**\n"@ + menu_lines(items) + "\n"@
    } else {
        Seq::empty()
    }
}

/// The whole panel body, character for character.
pub open spec fn panel_message(
    merchant: Seq<char>,
    description: Option<String>,
    md: Seq<(String, String)>,
    status: GroupBuyStatus,
    items: Seq<Item>,
) -> Seq<char> {
    lock_prefix(status) + "🛒 **【團購】"@ + merchant + "**\n\n"@ + desc_block(description)
        + metadata_block(md) + menu_block(items) + "━━━━━━━━━━━━━━━━━━━━\n"@
}

/// The panel body: the closed marker exactly when the session is Closed,
/// then the merchant headline, description, metadata and menu — exactly
/// the text `panel_message` lays down.
pub fn generate_group_buy_message(
    merchant_name: &str,
    description: &Option<String>,
    metadata: &Vec<(String, String)>,
    status: &GroupBuyStatus,
    items: &Vec<Item>,
) -> (r: String)
    ensures
        r@ == panel_message(merchant_name@, *description, metadata@, *status, items@),
{
    let mut msg = String::new();
    if matches!(status, GroupBuyStatus::Closed) {
        msg.append("🔒 **【已截止】** ");
    }
    msg.append("🛒 **【團購】");
    msg.append(merchant_name);
    msg.append("**\n\n");
    let ghost head = lock_prefix(*status) + "🛒 **【團購】"@ + merchant_name@ + "**\n\n"@;
    assert(msg@ =~= head);
    match description {
        Some(desc) => {
            if desc.as_str().unicode_len() > 0 {
                msg.append("📝 **描述:**\n");
                msg.append(desc.as_str());
                msg.append("\n\n");
            }
        },
        None => {},
    }
    let ghost with_desc = head + desc_block(*description);
    assert(msg@ =~= with_desc);
    if metadata.len() > 0 {
        msg.append("ℹ️ **其他資訊:**\n");
        let mut i: usize = 0;
        assert(metadata_lines(metadata@.take(0)) =~= Seq::<char>::empty());
        while i < metadata.len()
            invariant
                0 <= i <= metadata@.len(),
                msg@ == with_desc + "ℹ️ **其他資訊:**\n"@ + metadata_lines(
                    metadata@.take(i as int),
                ),
            decreases metadata@.len() - i,
        {
            proof {
                assert(metadata@.take(i + 1).drop_last() =~= metadata@.take(i as int));
            }
            msg.append("• ");
            msg.append(metadata[i].0.as_str());
            msg.append(": ");
            msg.append(metadata[i].1.as_str());
            msg.append("\n");
            i = i + 1;
        }
        assert(metadata@.take(metadata@.len() as int) =~= metadata@);
        msg.append("\n");
    }
    assert(msg@ =~= with_desc + metadata_block(metadata@));
    let ghost with_md = with_desc + metadata_block(metadata@);
    if menu_is_usable(items) {
        msg.append("🍱 **商品列表:**\n");
        let mut i: usize = 0;
        assert(menu_lines(items@.take(0)) =~= Seq::<char>::empty());
        while i < items.len()
            invariant
                0 <= i <= items@.len(),
                msg@ == with_md + "🍱 **商品列表:**\n"@ + menu_lines(items@.take(i as int)),
            decreases items@.len() - i,
        {
            proof {
                assert(items@.take(i + 1).drop_last() =~= items@.take(i as int));
            }
            msg.append("• ");
            msg.append(items[i].name.as_str());
            msg.append(" - NT$");
            let price = items[i].price.format();
            msg.append(price.as_str());
            msg.append("\n");
            i = i + 1;
        }
        assert(items@.take(items@.len() as int) =~= items@);
        msg.append("\n");
    }
    assert(msg@ =~= with_md + menu_block(items@));
    msg.append("━━━━━━━━━━━━━━━━━━━━\n");
    assert(msg@ =~= panel_message(merchant_name@, *description, metadata@, *status, items@));
    msg
}

/// Whether a name is among those already listed.
pub open spec fn contains_name(names: Seq<Seq<char>>, n: Seq<char>) -> bool {
    exists|k: int| 0 <= k < names.len() && names[k] == n
}

/// The ordered item names as first encountered among the orders.
pub open spec fn distinct_item_names(os: Seq<GroupBuyOrder>) -> Seq<Seq<char>>
    decreases os.len(),
{
    if os.len() == 0 {
        Seq::empty()
    } else {
        let prev = distinct_item_names(os.drop_last());
        if contains_name(prev, os.last().item_name@) {
            prev
        } else {
            prev.push(os.last().item_name@)
        }
    }
}

/// The note appended when someone registered on the buyer's behalf.
pub open spec fn registrar_note(o: GroupBuyOrder) -> Seq<char> {
    if o.registrar_id@ == o.buyer_id@ {
        Seq::empty()
    } else {
        " (由 @"@ + o.registrar_username@ + " 登記)"@
    }
}

/// One line per order of this item, in creation order.
pub open spec fn order_lines(os: Seq<GroupBuyOrder>, name: Seq<char>) -> Seq<char>
    decreases os.len(),
{
    if os.len() == 0 {
        Seq::empty()
    } else {
        order_lines(os.drop_last(), name) + (if os.last().item_name@ == name {
            "• @"@ + os.last().buyer_username@ + " x"@ + dec_str(os.last().quantity as int)
                + registrar_note(os.last()) + "\n"@
        } else {
            Seq::empty()
        })
    }
}

/// One item's section: its header with the summed quantity, then its lines.
pub open spec fn item_section(os: Seq<GroupBuyOrder>, name: Seq<char>) -> Seq<char> {
    "\n**"@ + name + "** (共 "@ + dec_str(item_total_qty(os, name)) + " 份):\n"@ + order_lines(
        os,
        name,
    )
}

/// All item sections, in first-encounter order.
pub open spec fn item_sections(os: Seq<GroupBuyOrder>, names: Seq<Seq<char>>) -> Seq<char>
    decreases names.len(),
{
    if names.len() == 0 {
        Seq::empty()
    } else {
        item_sections(os, names.drop_last()) + item_section(os, names.last())
    }
}

/// The registration list under the panel, present exactly when any order
/// exists.
pub open spec fn registration_block(os: Seq<GroupBuyOrder>) -> Seq<char> {
    if os.len() == 0 {
        Seq::empty()
    } else {
        "\n📋 **登記名單:**\n"@ + item_sections(os, distinct_item_names(os)) + "\n"@
    }
}

/// The panel body followed by the registration list.
pub open spec fn orders_panel_message(
    merchant: Seq<char>,
    description: Option<String>,
    md: Seq<(String, String)>,
    status: GroupBuyStatus,
    items: Seq<Item>,
    os: Seq<GroupBuyOrder>,
) -> Seq<char> {
    panel_message(merchant, description, md, status, items) + registration_block(os)
}

/// The views of collected name texts.
pub open spec fn names_view(v: Seq<String>) -> Seq<Seq<char>> {
    v.map_values(|x: String| x@)
}

/// The panel body followed by the registration list, grouped by item with
/// per-item totals and a registrar note where the registrar differs from
/// the buyer — exactly the text `orders_panel_message` lays down.
#[verifier::rlimit(60)]
pub fn generate_group_buy_message_with_orders(
    merchant_name: &str,
    description: &Option<String>,
    metadata: &Vec<(String, String)>,
    status: &GroupBuyStatus,
    items: &Vec<Item>,
    orders: &Vec<GroupBuyOrder>,
) -> (r: String)
    requires
        orders_wf(orders@),
    ensures
        r@ == orders_panel_message(
            merchant_name@,
            *description,
            metadata@,
            *status,
            items@,
            orders@,
        ),
{
    let mut msg = generate_group_buy_message(merchant_name, description, metadata, status, items);
    let ghost panel = panel_message(merchant_name@, *description, metadata@, *status, items@);
    if orders.len() == 0 {
        assert(msg@ =~= orders_panel_message(
            merchant_name@,
            *description,
            metadata@,
            *status,
            items@,
            orders@,
        ));
        return msg;
    }
    msg.append("\n📋 **登記名單:**\n");
    let mut names: Vec<String> = Vec::new();
    let mut i: usize = 0;
    assert(names_view(names@) =~= distinct_item_names(orders@.take(0)));
    while i < orders.len()
        invariant
            0 <= i <= orders@.len(),
            names_view(names@) == distinct_item_names(orders@.take(i as int)),
        decreases orders@.len() - i,
    {
        proof {
            assert(orders@.take(i + 1).drop_last() =~= orders@.take(i as int));
            assert(orders@.take(i + 1).last() == orders@[i as int]);
        }
        let mut seen = false;
        let mut k: usize = 0;
        while k < names.len()
            invariant
                0 <= k <= names@.len(),
                i < orders@.len(),
                seen == exists|x: int|
                    0 <= x < k && (#[trigger] names@[x])@ == orders@[i as int].item_name@,
            decreases names@.len() - k,
        {
            if crate::model::str_eq(names[k].as_str(), orders[i].item_name.as_str()) {
                seen = true;
            }
            k = k + 1;
        }
        proof {
            if seen {
                let x = choose|x: int|
                    0 <= x < names@.len() && (#[trigger] names@[x])@
                        == orders@[i as int].item_name@;
                assert(names_view(names@)[x] == orders@[i as int].item_name@);
                assert(contains_name(names_view(names@), orders@[i as int].item_name@));
            } else {
                assert(!contains_name(names_view(names@), orders@[i as int].item_name@)) by {
                    if contains_name(names_view(names@), orders@[i as int].item_name@) {
                        let x = choose|x: int|
                            0 <= x < names_view(names@).len() && names_view(names@)[x]
                                == orders@[i as int].item_name@;
                        assert(names@[x]@ == orders@[i as int].item_name@);
                    }
                }
            }
        }
        if !seen {
            names.push(orders[i].item_name.clone());
            assert(names_view(names@) =~= names_view(names@.drop_last()).push(
                orders@[i as int].item_name@,
            ));
        }
        i = i + 1;
    }
    assert(orders@.take(orders@.len() as int) =~= orders@);
    let ghost all_names = distinct_item_names(orders@);
    assert(names_view(names@) == all_names);
    let ghost listed = panel + "\n📋 **登記名單:**\n"@;
    assert(msg@ =~= listed + item_sections(orders@, all_names.take(0)));
    let mut n: usize = 0;
    while n < names.len()
        invariant
            0 <= n <= names@.len(),
            orders_wf(orders@),
            names_view(names@) == all_names,
            msg@ == listed + item_sections(orders@, all_names.take(n as int)),
        decreases names@.len() - n,
    {
        proof {
            assert(all_names.take(n + 1).drop_last() =~= all_names.take(n as int));
            assert(all_names.take(n + 1).last() == names@[n as int]@);
        }
        let name = names[n].as_str();
        let mut total: u128 = 0;
        let mut j: usize = 0;
        assert(orders@.take(0) =~= Seq::<GroupBuyOrder>::empty());
        while j < orders.len()
            invariant
                0 <= j <= orders@.len(),
                orders_wf(orders@),
                n < names@.len(),
                name@ == names@[n as int]@,
                total == item_total_qty(orders@.take(j as int), name@),
                total <= (j as int) * (crate::money::MAX_QUANTITY as int),
            decreases orders@.len() - j,
        {
            proof {
                crate::aggregate::lemma_total_take_step(orders@, j as int);
                assert((j as int) * (crate::money::MAX_QUANTITY as int) + (
                crate::money::MAX_QUANTITY as int) == (j + 1) * (crate::money::MAX_QUANTITY
                    as int)) by (nonlinear_arith);
                assert((j + 1) * (crate::money::MAX_QUANTITY as int) <= u128::MAX) by (
                nonlinear_arith)
                    requires
                        0 <= j + 1 <= 0x1_0000_0000_0000_0000,
                ;
            }
            if crate::model::str_eq(orders[j].item_name.as_str(), name) {
                total = total + (orders[j].quantity as u128);
            }
            j = j + 1;
        }
        assert(orders@.take(orders@.len() as int) =~= orders@);
        msg.append("\n**");
        msg.append(name);
        msg.append("** (共 ");
        let t = crate::money::format_u128(total);
        msg.append(t.as_str());
        msg.append(" 份):\n");
        let ghost sect_head = listed + item_sections(orders@, all_names.take(n as int)) + "\n**"@
            + name@ + "** (共 "@ + dec_str(item_total_qty(orders@, name@)) + " 份):\n"@;
        assert(msg@ =~= sect_head);
        let mut j: usize = 0;
        assert(order_lines(orders@.take(0), name@) =~= Seq::<char>::empty());
        while j < orders.len()
            invariant
                0 <= j <= orders@.len(),
                n < names@.len(),
                name@ == names@[n as int]@,
                msg@ == sect_head + order_lines(orders@.take(j as int), name@),
            decreases orders@.len() - j,
        {
            proof {
                assert(orders@.take(j + 1).drop_last() =~= orders@.take(j as int));
                assert(orders@.take(j + 1).last() == orders@[j as int]);
            }
            if crate::model::str_eq(orders[j].item_name.as_str(), name) {
                msg.append("• @");
                msg.append(orders[j].buyer_username.as_str());
                msg.append(" x");
                let q = crate::money::format_u64(orders[j].quantity as u64);
                msg.append(q.as_str());
                if !crate::model::str_eq(
                    orders[j].registrar_id.as_str(),
                    orders[j].buyer_id.as_str(),
                ) {
                    msg.append(" (由 @");
                    msg.append(orders[j].registrar_username.as_str());
                    msg.append(" 登記)");
                }
                msg.append("\n");
                assert(msg@ =~= sect_head + order_lines(orders@.take(j + 1), name@));
            }
            j = j + 1;
        }
        assert(orders@.take(orders@.len() as int) =~= orders@);
        assert(msg@ =~= listed + item_sections(orders@, all_names.take(n + 1)));
        n = n + 1;
    }
    assert(all_names.take(all_names.len() as int) =~= all_names);
    msg.append("\n");
    assert(msg@ =~= orders_panel_message(
        merchant_name@,
        *description,
        metadata@,
        *status,
        items@,
        orders@,
    ));
    msg
}

/// The ordered buyer ids as first encountered among the orders: who the
/// shopping-list header counts.
pub open spec fn distinct_buyer_ids(os: Seq<GroupBuyOrder>) -> Seq<Seq<char>>
    decreases os.len(),
{
    if os.len() == 0 {
        Seq::empty()
    } else {
        let prev = distinct_buyer_ids(os.drop_last());
        if contains_name(prev, os.last().buyer_id@) {
            prev
        } else {
            prev.push(os.last().buyer_id@)
        }
    }
}

/// Counts the distinct buyers among the orders.
pub fn count_distinct_buyers(orders: &Vec<GroupBuyOrder>) -> (r: usize)
    ensures
        r == distinct_buyer_ids(orders@).len(),
{
    let mut ids: Vec<String> = Vec::new();
    let mut i: usize = 0;
    assert(names_view(ids@) =~= distinct_buyer_ids(orders@.take(0)));
    while i < orders.len()
        invariant
            0 <= i <= orders@.len(),
            names_view(ids@) == distinct_buyer_ids(orders@.take(i as int)),
        decreases orders@.len() - i,
    {
        proof {
            assert(orders@.take(i + 1).drop_last() =~= orders@.take(i as int));
            assert(orders@.take(i + 1).last() == orders@[i as int]);
        }
        let mut seen = false;
        let mut k: usize = 0;
        while k < ids.len()
            invariant
                0 <= k <= ids@.len(),
                i < orders@.len(),
                seen == exists|x: int|
                    0 <= x < k && (#[trigger] ids@[x])@ == orders@[i as int].buyer_id@,
            decreases ids@.len() - k,
        {
            if crate::model::str_eq(ids[k].as_str(), orders[i].buyer_id.as_str()) {
                seen = true;
            }
            k = k + 1;
        }
        proof {
            if seen {
                let x = choose|x: int|
                    0 <= x < ids@.len() && (#[trigger] ids@[x])@ == orders@[i as int].buyer_id@;
                assert(names_view(ids@)[x] == orders@[i as int].buyer_id@);
                assert(contains_name(names_view(ids@), orders@[i as int].buyer_id@));
            } else {
                assert(!contains_name(names_view(ids@), orders@[i as int].buyer_id@)) by {
                    if contains_name(names_view(ids@), orders@[i as int].buyer_id@) {
                        let x = choose|x: int|
                            0 <= x < names_view(ids@).len() && names_view(ids@)[x]
                                == orders@[i as int].buyer_id@;
                        assert(ids@[x]@ == orders@[i as int].buyer_id@);
                    }
                }
            }
        }
        if !seen {
            ids.push(orders[i].buyer_id.clone());
            assert(names_view(ids@) =~= names_view(ids@.drop_last()).push(
                orders@[i as int].buyer_id@,
            ));
        }
        i = i + 1;
    }
    assert(orders@.take(orders@.len() as int) =~= orders@);
    ids.len()
}

/// One shopping-list table line.
pub open spec fn shopping_row_line(row: ShoppingListRow) -> Seq<char> {
    "| "@ + row.item_name@ + " | "@ + dec_str(row.total_quantity as int) + " | $"@ + money_str(
        row.unit_price.cents as int,
    ) + " | $"@ + money_str(row.subtotal as int) + " |\n"@
}

/// The shopping-list table lines, in row order.
pub open spec fn shopping_rows_lines(rows: Seq<ShoppingListRow>) -> Seq<char>
    decreases rows.len(),
{
    if rows.len() == 0 {
        Seq::empty()
    } else {
        shopping_rows_lines(rows.drop_last()) + shopping_row_line(rows.last())
    }
}

/// The whole shopping-list text: header with item and buyer counts, the
/// table, and the grand total.
pub open spec fn shopping_list_text(
    merchant: Seq<char>,
    n_people: int,
    rows: Seq<ShoppingListRow>,
    total: int,
) -> Seq<char> {
    "### 🛍️ 採購列表\n\n**商家："@ + merchant + "  •  品項："@ + dec_str(rows.len() as int)
        + "  •  人數："@ + dec_str(n_people)
        + "**\n\n| 商品 | 數量 | 單價 | 小計 |\n|------|-----:|-----:|-----:|\n"@
        + shopping_rows_lines(rows) + "\n**💰 總金額：NT$"@ + money_str(total) + "**"@
}

/// Renders the ephemeral shopping-list table: exactly `shopping_list_text`
/// over the given rows, buyer count and grand total.
pub fn render_shopping_list(
    merchant: &str,
    n_people: usize,
    rows: &Vec<ShoppingListRow>,
    total: u128,
) -> (r: String)
    ensures
        r@ == shopping_list_text(merchant@, n_people as int, rows@, total as int),
{
    let mut msg = String::from_str("### 🛍️ 採購列表\n\n**商家：");
    msg.append(merchant);
    msg.append("  •  品項：");
    let nitems = crate::money::format_u64(rows.len() as u64);
    msg.append(nitems.as_str());
    msg.append("  •  人數：");
    let npeople = crate::money::format_u64(n_people as u64);
    msg.append(npeople.as_str());
    msg.append("**\n\n| 商品 | 數量 | 單價 | 小計 |\n|------|-----:|-----:|-----:|\n");
    let ghost head = "### 🛍️ 採購列表\n\n**商家："@ + merchant@ + "  •  品項："@ + dec_str(
        rows@.len() as int,
    ) + "  •  人數："@ + dec_str(n_people as int)
        + "**\n\n| 商品 | 數量 | 單價 | 小計 |\n|------|-----:|-----:|-----:|\n"@;
    assert(msg@ =~= head);
    let mut m: usize = 0;
    assert(shopping_rows_lines(rows@.take(0)) =~= Seq::<char>::empty());
    while m < rows.len()
        invariant
            0 <= m <= rows@.len(),
            msg@ == head + shopping_rows_lines(rows@.take(m as int)),
        decreases rows@.len() - m,
    {
        proof {
            assert(rows@.take(m + 1).drop_last() =~= rows@.take(m as int));
        }
        msg.append("| ");
        msg.append(rows[m].item_name.as_str());
        msg.append(" | ");
        let q = crate::money::format_u128(rows[m].total_quantity);
        msg.append(q.as_str());
        msg.append(" | $");
        let p = rows[m].unit_price.format();
        msg.append(p.as_str());
        msg.append(" | $");
        let sub = crate::money::format_money_u128(rows[m].subtotal);
        msg.append(sub.as_str());
        msg.append(" |\n");
        m = m + 1;
    }
    assert(rows@.take(rows@.len() as int) =~= rows@);
    msg.append("\n**💰 總金額：NT$");
    let t = crate::money::format_money_u128(total);
    msg.append(t.as_str());
    msg.append("**");
    assert(msg@ =~= shopping_list_text(merchant@, n_people as int, rows@, total as int));
    msg
}

/// One per-buyer subtotal table line.
pub open spec fn subtotal_row_line(row: SubtotalRow) -> Seq<char> {
    "| @"@ + row.buyer_username@ + " | $"@ + money_str(row.amount as int) + " |\n"@
}

/// The subtotal table lines, in row order.
pub open spec fn subtotal_rows_lines(rows: Seq<SubtotalRow>) -> Seq<char>
    decreases rows.len(),
{
    if rows.len() == 0 {
        Seq::empty()
    } else {
        subtotal_rows_lines(rows.drop_last()) + subtotal_row_line(rows.last())
    }
}

/// The whole per-buyer subtotal text: header with the buyer count, the
/// table in row order, and the grand total.
pub open spec fn subtotals_text(
    merchant: Seq<char>,
    rows: Seq<SubtotalRow>,
    total: int,
) -> Seq<char> {
    "### 💰 個人小計\n\n**商家："@ + merchant + "  •  人數："@ + dec_str(rows.len() as int)
        + "**\n\n| 訂購人 | 金額 |\n|--------|-----:|\n"@ + subtotal_rows_lines(rows)
        + "\n**🧮 總計：NT$"@ + money_str(total) + "**"@
}

/// Renders the ephemeral per-buyer subtotal table: exactly `subtotals_text`
/// over the given rows and grand total.
pub fn render_subtotals(merchant: &str, rows: &Vec<SubtotalRow>, total: u128) -> (r: String)
    ensures
        r@ == subtotals_text(merchant@, rows@, total as int),
{
    let mut msg = String::from_str("### 💰 個人小計\n\n**商家：");
    msg.append(merchant);
    msg.append("  •  人數：");
    let npeople = crate::money::format_u64(rows.len() as u64);
    msg.append(npeople.as_str());
    msg.append("**\n\n| 訂購人 | 金額 |\n|--------|-----:|\n");
    let ghost head = "### 💰 個人小計\n\n**商家："@ + merchant@ + "  •  人數："@ + dec_str(
        rows@.len() as int,
    ) + "**\n\n| 訂購人 | 金額 |\n|--------|-----:|\n"@;
    assert(msg@ =~= head);
    let mut m: usize = 0;
    assert(subtotal_rows_lines(rows@.take(0)) =~= Seq::<char>::empty());
    while m < rows.len()
        invariant
            0 <= m <= rows@.len(),
            msg@ == head + subtotal_rows_lines(rows@.take(m as int)),
        decreases rows@.len() - m,
    {
        proof {
            assert(rows@.take(m + 1).drop_last() =~= rows@.take(m as int));
        }
        msg.append("| @");
        msg.append(rows[m].buyer_username.as_str());
        msg.append(" | $");
        let a = crate::money::format_money_u128(rows[m].amount);
        msg.append(a.as_str());
        msg.append(" |\n");
        m = m + 1;
    }
    assert(rows@.take(rows@.len() as int) =~= rows@);
    msg.append("\n**🧮 總計：NT$");
    let t = crate::money::format_money_u128(total);
    msg.append(t.as_str());
    msg.append("**");
    assert(msg@ =~= subtotals_text(merchant@, rows@, total as int));
    msg
}

} // verus!
