//! Store behavior: creation, optimistic updates, orders, deletions and
//! shortage adjustments, with the audit trail they leave.

use group_buy::model::{GroupBuy, GroupBuyOrder, GroupBuyStatus, Item};
use group_buy::money::Money;
use group_buy::store::Database;

fn make_group_buy(id: String, version: u64) -> GroupBuy {
    GroupBuy {
        id,
        creator_id: "creator".to_string(),
        creator_username: "creator".to_string(),
        channel_id: "chan".to_string(),
        post_id: None,
        merchant_name: "shop".to_string(),
        description: None,
        metadata: Vec::new(),
        items: vec![Item { name: "apple".to_string(), price: Money::from_cents(1000) }],
        status: GroupBuyStatus::Active,
        version,
        created_at: "2026-01-01T00:00:00Z".to_string(),
        updated_at: "2026-01-01T00:00:00Z".to_string(),
    }
}

fn make_order_for(gb_id: String, order_id: &str, buyer: &str, registrar: &str) -> GroupBuyOrder {
    GroupBuyOrder {
        id: order_id.to_string(),
        group_buy_id: gb_id,
        registrar_id: registrar.to_string(),
        registrar_username: registrar.to_string(),
        buyer_id: buyer.to_string(),
        buyer_username: buyer.to_string(),
        item_name: "apple".to_string(),
        quantity: 2,
        original_quantity: None,
        unit_price: Money::from_cents(1000),
        created_at: "2026-01-01T00:00:00Z".to_string(),
    }
}

fn insert_group_buy(db: &mut Database, id: &str, version: u64) -> String {
    let gb = make_group_buy(id.to_string(), version);
    db.create_group_buy(gb).expect("create gb");
    id.to_string()
}

fn create_and_insert_order(
    db: &mut Database,
    gb_id: &str,
    order_id: &str,
    buyer: &str,
    registrar: &str,
    quantity: u32,
) {
    let mut order = make_order_for(gb_id.to_string(), order_id, buyer, registrar);
    order.quantity = quantity;
    db.create_order(order).expect("create order");
}

fn close_group_buy(db: &mut Database, id: &str, expected_version: u64) {
    db.update_status(id, GroupBuyStatus::Closed, expected_version, "tester", "tester", "t1")
        .expect("close gb");
}

#[test]
fn test_create_and_get_group_buy() {
    let mut db = Database::new();
    let id = insert_group_buy(&mut db, "gb-1", 1);

    let fetched = db.get_group_buy(&id);
    assert!(fetched.is_some());
    let f = fetched.unwrap();
    assert_eq!(f.id, id);
    assert_eq!(f.version, 1);
}

#[test]
fn test_update_items_and_version_conflict() {
    let mut db = Database::new();
    let id = insert_group_buy(&mut db, "gb-2", 1);

    let new_items = vec![Item { name: "banana".to_string(), price: Money::from_cents(500) }];
    db.update_items(&id, new_items, 1, "u1", "u1", "t1").expect("update items");
    let fetched = db.get_group_buy(&id).unwrap();
    assert_eq!(fetched.version, 2);

    let another = vec![Item { name: "pear".to_string(), price: Money::from_cents(300) }];
    let res = db.update_items(&id, another, 1, "u1", "u1", "t2");
    assert!(res.is_err());
}

#[test]
fn test_update_post_id_and_status() {
    let mut db = Database::new();
    let id = insert_group_buy(&mut db, "gb-3", 1);

    db.update_post_id(&id, "post123", "t1").expect("update post");
    let fetched = db.get_group_buy(&id).unwrap();
    assert_eq!(fetched.post_id, Some("post123".to_string()));

    db.update_status(&id, GroupBuyStatus::Closed, 1, "u2", "u2", "t2").expect("update status");
    let fetched2 = db.get_group_buy(&id).unwrap();
    assert_eq!(fetched2.status, GroupBuyStatus::Closed);
    assert_eq!(fetched2.version, 2);
}

#[test]
fn test_create_order_and_queries() {
    let mut db = Database::new();
    let id = insert_group_buy(&mut db, "gb-4", 1);

    create_and_insert_order(&mut db, &id, "o1", "buyer1", "reg1", 2);
    let orders = db.get_orders_by_group_buy(&id);
    assert_eq!(orders.len(), 1);

    let buyer_orders = db.get_buyer_orders(&id, "buyer1");
    assert_eq!(buyer_orders.len(), 1);

    let all_orders = db.get_all_orders(&id);
    assert_eq!(all_orders.len(), 1);
}

#[test]
fn test_delete_buyer_item_and_delete_all() {
    let mut db = Database::new();
    let id = insert_group_buy(&mut db, "gb-5", 1);
    create_and_insert_order(&mut db, &id, "o1", "buyer1", "reg1", 2);
    create_and_insert_order(&mut db, &id, "o2", "buyer2", "reg2", 2);

    let rows = db.delete_buyer_item_orders(&id, "buyer1", "apple", "actor1", "actor1", "t1");
    assert!(rows >= 1);

    let rows2 = db.delete_orders_for_buyer(&id, "buyer2", "actor2", "actor2", "t2");
    assert!(rows2 >= 1);
}

#[test]
fn test_adjust_single_and_batch() {
    let mut db = Database::new();
    let id = insert_group_buy(&mut db, "gb-6", 1);
    create_and_insert_order(&mut db, &id, "o1", "alice", "reg1", 3);
    create_and_insert_order(&mut db, &id, "o2", "bob", "reg2", 4);

    close_group_buy(&mut db, &id, 1);

    db.adjust_single_order("o1", 1, "adj", "adj", "t2").expect("adjust single");
    let orders = db.get_all_orders(&id);
    let o1_after = orders.iter().find(|o| o.id == "o1").unwrap();
    assert_eq!(o1_after.quantity, 1);

    let map = vec![("bob".to_string(), 2u32)];
    let records = db
        .adjust_order_quantity(&id, "apple", &map, "adj2", "adj2", "t3")
        .expect("batch adjust");
    assert_eq!(records.len(), 1);

    assert!(db.adjustments.len() >= 1);
}

#[test]
fn test_version_monotonicity_over_updates() {
    let mut db = Database::new();
    let id = insert_group_buy(&mut db, "gb-7", 1);
    for step in 0..4u64 {
        let items = vec![Item { name: "apple".to_string(), price: Money::from_cents(1000) }];
        db.update_items(&id, items, 1 + step, "u", "u", "t").expect("update");
        assert_eq!(db.get_group_buy(&id).unwrap().version, 2 + step);
    }
    assert_eq!(db.get_group_buy(&id).unwrap().version, 5);
}

#[test]
fn test_optimistic_exclusivity_on_status() {
    let mut db = Database::new();
    let id = insert_group_buy(&mut db, "gb-8", 1);
    db.update_status(&id, GroupBuyStatus::Closed, 1, "u", "u", "t1").expect("first wins");
    let before_sessions = db.sessions.len();
    let before_logs = db.logs.len();
    let second = db.update_status(&id, GroupBuyStatus::Closed, 1, "u", "u", "t2");
    assert!(second.is_err());
    assert_eq!(db.sessions.len(), before_sessions);
    assert_eq!(db.logs.len(), before_logs);
    assert_eq!(db.get_group_buy(&id).unwrap().version, 2);
}

#[test]
fn test_status_gating() {
    let mut db = Database::new();
    let id = insert_group_buy(&mut db, "gb-9", 1);
    // Adjustments are refused while the session is Active.
    create_and_insert_order(&mut db, &id, "o1", "alice", "alice", 2);
    assert!(db.adjust_single_order("o1", 1, "adj", "adj", "t1").is_err());
    // Orders are refused once the session is Closed.
    close_group_buy(&mut db, &id, 1);
    let order = make_order_for(id.clone(), "o2", "bob", "bob");
    assert!(db.create_order(order).is_err());
}

#[test]
fn test_original_quantity_preserved() {
    let mut db = Database::new();
    let id = insert_group_buy(&mut db, "gb-10", 1);
    create_and_insert_order(&mut db, &id, "o1", "alice", "alice", 5);
    close_group_buy(&mut db, &id, 1);
    db.adjust_single_order("o1", 3, "adj", "adj", "t1").expect("first cut");
    db.adjust_single_order("o1", 1, "adj", "adj", "t2").expect("second cut");
    let orders = db.get_all_orders(&id);
    let o = orders.iter().find(|o| o.id == "o1").unwrap();
    assert_eq!(o.quantity, 1);
    assert_eq!(o.original_quantity, Some(5));
}

#[test]
fn test_adjustment_atomicity_rows() {
    let mut db = Database::new();
    let id = insert_group_buy(&mut db, "gb-11", 1);
    create_and_insert_order(&mut db, &id, "o1", "alice", "alice", 5);
    close_group_buy(&mut db, &id, 1);
    let orders_before = db.orders.len();
    let adjustments_before = db.adjustments.len();
    let logs_before = db.logs.len();
    db.adjust_single_order("o1", 2, "adj", "adj", "t1").expect("adjust");
    assert_eq!(db.orders.len(), orders_before);
    assert_eq!(db.adjustments.len(), adjustments_before + 1);
    assert_eq!(db.logs.len(), logs_before + 1);
    // A refused adjustment writes none of the three rows.
    let adjustments_mid = db.adjustments.len();
    let logs_mid = db.logs.len();
    assert!(db.adjust_single_order("missing", 2, "adj", "adj", "t2").is_err());
    assert_eq!(db.adjustments.len(), adjustments_mid);
    assert_eq!(db.logs.len(), logs_mid);
}

#[test]
fn test_audit_details_are_json_with_version() {
    let mut db = Database::new();
    let id = insert_group_buy(&mut db, "gb-12", 1);
    create_and_insert_order(&mut db, &id, "o1", "alice", "alice", 2);
    db.update_items(
        &id,
        vec![Item { name: "pear".to_string(), price: Money::from_cents(300) }],
        1,
        "u",
        "u",
        "t1",
    )
    .expect("update");
    db.update_status(&id, GroupBuyStatus::Closed, 2, "u", "u", "t2").expect("close");
    db.adjust_single_order("o1", 1, "adj", "adj", "t3").expect("adjust");
    db.delete_orders_for_buyer(&id, "alice", "u", "u", "t4");
    assert!(db.logs.len() >= 5);
    for entry in &db.logs {
        let parsed: serde_json::Value =
            serde_json::from_str(&entry.details).expect("details must be valid JSON");
        let obj = parsed.as_object().expect("details must be a JSON object");
        assert!(obj.get("version").is_some(), "details must carry a version");
        assert!(obj["version"].is_u64());
    }
}

#[test]
fn test_post_id_one_shot() {
    let mut db = Database::new();
    let id = insert_group_buy(&mut db, "gb-13", 1);
    db.update_post_id(&id, "first", "t1").expect("bind");
    db.update_post_id(&id, "second", "t2").expect("bind again");
    assert_eq!(db.get_group_buy(&id).unwrap().post_id, Some("first".to_string()));
}
