//! End-to-end flows through the dialog handlers, the router and the
//! aggregations, on the engine's own reference inputs.

use group_buy::aggregate::{shopping_list_rows, subtotals, total_amount};
use group_buy::dialogs::{
    handle_adjust_shortage_dialog, handle_create_dialog, handle_edit_items_dialog,
    handle_register_dialog, RegisterOutcome,
};
use group_buy::model::GroupBuyStatus;
use group_buy::router::{handle_group_buy_action, ActionInput, ActionOutcome};
use group_buy::store::Database;

fn create_session(db: &mut Database) -> String {
    handle_create_dialog(
        db,
        "chan",
        "creator-id",
        "creator",
        "五十嵐",
        None,
        "截止時間: 2026-01-25 18:00\n取貨地點: 公司大廳",
        "2026-01-20T10:00:00Z",
    )
    .expect("create session")
}

fn action(user: &str, action: &str, gb: &str) -> ActionInput {
    ActionInput {
        user_id: user.to_string(),
        user_name: Some(user.to_string()),
        channel_id: "chan".to_string(),
        post_id: "panel-post".to_string(),
        trigger_id: Some("trigger".to_string()),
        action: action.to_string(),
        group_buy_id: gb.to_string(),
    }
}

#[test]
fn scenario_create_session() {
    let mut db = Database::new();
    let id = create_session(&mut db);

    let gb = db.get_group_buy(&id).expect("stored");
    assert_eq!(gb.version, 1);
    assert_eq!(gb.status, GroupBuyStatus::Active);
    assert_eq!(gb.metadata.len(), 2);
    assert_eq!(gb.metadata[0], ("截止時間".to_string(), "2026-01-25 18:00".to_string()));
    assert_eq!(gb.metadata[1], ("取貨地點".to_string(), "公司大廳".to_string()));
    assert!(gb.items.is_empty());
    let creates: Vec<_> = db.logs.iter().filter(|e| e.action == "create").collect();
    assert_eq!(creates.len(), 1);
}

#[test]
fn scenario_edit_items() {
    let mut db = Database::new();
    let id = create_session(&mut db);

    handle_edit_items_dialog(
        &mut db,
        &id,
        1,
        "creator-id",
        "creator",
        "珍珠奶茶: 50\n紅茶拿鐵: 45\n",
        "t1",
    )
    .expect("edit items");
    let gb = db.get_group_buy(&id).unwrap();
    assert_eq!(gb.version, 2);
    assert_eq!(gb.items.len(), 2);
    let pearl = gb.items.iter().find(|i| i.name == "珍珠奶茶").unwrap();
    assert_eq!(pearl.price.cents, 5000);
    let tea = gb.items.iter().find(|i| i.name == "紅茶拿鐵").unwrap();
    assert_eq!(tea.price.cents, 4500);

    // A second edit that still claims version 1 loses the optimistic race.
    let stale = handle_edit_items_dialog(
        &mut db,
        &id,
        1,
        "creator-id",
        "creator",
        "珍珠奶茶: 55\n",
        "t2",
    );
    assert!(stale.is_err());
    assert_eq!(db.get_group_buy(&id).unwrap().version, 2);
}

#[test]
fn scenario_register_and_adjust() {
    let mut db = Database::new();
    let id = create_session(&mut db);
    handle_edit_items_dialog(
        &mut db,
        &id,
        1,
        "creator-id",
        "creator",
        "珍珠奶茶: 50\n紅茶拿鐵: 45\n",
        "t1",
    )
    .expect("edit items");

    let out = handle_register_dialog(
        &mut db, &id, "alice-id", "alice", "alice-id", "alice", "珍珠奶茶", "2", "t2",
    )
    .expect("register");
    assert!(matches!(out, RegisterOutcome::Registered));
    let orders = db.get_orders_by_group_buy(&id);
    assert_eq!(orders.len(), 1);
    assert_eq!(orders[0].unit_price.cents, 5000);

    // Quantity zero removes the rows again.
    let out = handle_register_dialog(
        &mut db, &id, "alice-id", "alice", "alice-id", "alice", "珍珠奶茶", "0", "t3",
    )
    .expect("remove");
    assert!(matches!(out, RegisterOutcome::Removed(1)));
    assert!(db.get_orders_by_group_buy(&id).is_empty());

    // Register one, close, adjust the order down to zero.
    handle_register_dialog(
        &mut db, &id, "alice-id", "alice", "alice-id", "alice", "珍珠奶茶", "1", "t4",
    )
    .expect("register again");
    let order_id = db.get_orders_by_group_buy(&id)[0].id.clone();
    let version = db.get_group_buy(&id).unwrap().version;
    db.update_status(&id, GroupBuyStatus::Closed, version, "creator-id", "creator", "t5")
        .expect("close");
    let block = format!("{}: 0\n", order_id);
    handle_adjust_shortage_dialog(&mut db, &id, &block, "creator-id", "creator", "t6")
        .expect("adjust");
    let orders = db.get_orders_by_group_buy(&id);
    assert_eq!(orders[0].quantity, 0);
    assert_eq!(orders[0].original_quantity, Some(1));
    assert_eq!(db.adjustments.len(), 1);
}

fn session_with_two_buyers(db: &mut Database) -> String {
    let id = create_session(db);
    handle_edit_items_dialog(
        db,
        &id,
        1,
        "creator-id",
        "creator",
        "珍珠奶茶: 50\n紅茶拿鐵: 45\n",
        "t1",
    )
    .expect("edit items");
    handle_register_dialog(
        db, &id, "alice-id", "alice", "alice-id", "alice", "珍珠奶茶", "2", "t2",
    )
    .expect("alice");
    handle_register_dialog(db, &id, "bob-id", "bob", "bob-id", "bob", "紅茶拿鐵", "1", "t3")
        .expect("bob");
    id
}

#[test]
fn scenario_shopping_list() {
    let mut db = Database::new();
    let id = session_with_two_buyers(&mut db);
    let orders = db.get_orders_by_group_buy(&id);

    let rows = shopping_list_rows(&orders);
    assert_eq!(rows.len(), 2);
    // Sorted by item name, by code point: 珍珠奶茶 before 紅茶拿鐵.
    assert_eq!(rows[0].item_name, "珍珠奶茶");
    assert_eq!(rows[0].total_quantity, 2);
    assert_eq!(rows[0].unit_price.cents, 5000);
    assert_eq!(rows[0].subtotal, 10000);
    assert_eq!(rows[1].item_name, "紅茶拿鐵");
    assert_eq!(rows[1].total_quantity, 1);
    assert_eq!(rows[1].unit_price.cents, 4500);
    assert_eq!(rows[1].subtotal, 4500);
    assert_eq!(total_amount(&orders), 14500);
}

#[test]
fn scenario_subtotals() {
    let mut db = Database::new();
    let id = session_with_two_buyers(&mut db);
    let orders = db.get_orders_by_group_buy(&id);

    let rows = subtotals(&orders);
    assert_eq!(rows.len(), 2);
    assert_eq!(rows[0].buyer_username, "alice");
    assert_eq!(rows[0].amount, 10000);
    assert_eq!(rows[1].buyer_username, "bob");
    assert_eq!(rows[1].amount, 4500);
    assert_eq!(rows[0].amount + rows[1].amount, total_amount(&orders));
}

#[test]
fn scenario_close_then_reopen() {
    let mut db = Database::new();
    let id = session_with_two_buyers(&mut db);
    let v0 = db.get_group_buy(&id).unwrap().version;

    let closed = handle_group_buy_action(
        &mut db,
        &action("creator-id", "close", &id),
        "creator",
        "http://localhost:3000",
        "t4",
    );
    assert!(matches!(closed, ActionOutcome::UpdatePanel(_)));
    assert_eq!(db.get_group_buy(&id).unwrap().status, GroupBuyStatus::Closed);

    // Registration while Closed is refused before any mutation.
    let orders_before = db.get_orders_by_group_buy(&id).len();
    let refused = handle_register_dialog(
        &mut db, &id, "carol-id", "carol", "carol-id", "carol", "珍珠奶茶", "1", "t5",
    );
    assert!(refused.is_err());
    assert_eq!(db.get_orders_by_group_buy(&id).len(), orders_before);

    let reopened = handle_group_buy_action(
        &mut db,
        &action("creator-id", "reopen", &id),
        "creator",
        "http://localhost:3000",
        "t6",
    );
    assert!(matches!(reopened, ActionOutcome::UpdatePanel(_)));
    let gb = db.get_group_buy(&id).unwrap();
    assert_eq!(gb.status, GroupBuyStatus::Active);
    assert_eq!(gb.version, v0 + 2);
}

#[test]
fn authorization_rejects_non_organizer() {
    let mut db = Database::new();
    let id = session_with_two_buyers(&mut db);
    let version_before = db.get_group_buy(&id).unwrap().version;
    let logs_before = db.logs.len();

    for organizer_action in ["edit_items", "close", "reopen", "adjust_shortage"] {
        let out = handle_group_buy_action(
            &mut db,
            &action("mallory-id", organizer_action, &id),
            "mallory",
            "http://localhost:3000",
            "t9",
        );
        assert!(matches!(out, ActionOutcome::Ephemeral(_)));
    }
    let gb = db.get_group_buy(&id).unwrap();
    assert_eq!(gb.version, version_before);
    assert_eq!(gb.status, GroupBuyStatus::Active);
    assert_eq!(db.logs.len(), logs_before);
}

#[test]
fn snapshot_price_survives_menu_edit() {
    let mut db = Database::new();
    let id = session_with_two_buyers(&mut db);
    let version = db.get_group_buy(&id).unwrap().version;
    handle_edit_items_dialog(
        &mut db,
        &id,
        version,
        "creator-id",
        "creator",
        "珍珠奶茶: 99\n紅茶拿鐵: 45\n",
        "t7",
    )
    .expect("reprice");
    let orders = db.get_orders_by_group_buy(&id);
    let pearl = orders.iter().find(|o| o.item_name == "珍珠奶茶").unwrap();
    assert_eq!(pearl.unit_price.cents, 5000);
    let rows = subtotals(&orders);
    assert_eq!(rows[0].amount, 10000);
}

#[test]
fn router_binds_post_id_once() {
    let mut db = Database::new();
    let id = session_with_two_buyers(&mut db);
    assert_eq!(db.get_group_buy(&id).unwrap().post_id, None);

    let mut first = action("alice-id", "shopping_list", &id);
    first.post_id = "post-a".to_string();
    handle_group_buy_action(&mut db, &first, "alice", "http://localhost:3000", "t4");
    assert_eq!(db.get_group_buy(&id).unwrap().post_id, Some("post-a".to_string()));

    let mut second = action("bob-id", "subtotal", &id);
    second.post_id = "post-b".to_string();
    handle_group_buy_action(&mut db, &second, "bob", "http://localhost:3000", "t5");
    assert_eq!(db.get_group_buy(&id).unwrap().post_id, Some("post-a".to_string()));
}
