//! Rendering and the smaller protocol pieces: buttons, panel text,
//! stickers, admin matching and form access.

use group_buy::appcall::AppCallResponse;
use group_buy::config::{Config, MattermostConfig, StickersConfig};
use group_buy::dialog::{make_field_error_response, parse_slash_command};
use group_buy::model::{GroupBuyStatus, Item};
use group_buy::money::Money;
use group_buy::render::{generate_action_buttons, generate_group_buy_message};
use group_buy::sticker::Sticker;

#[test]
fn buttons_depend_on_status_deterministically() {
    let active = generate_action_buttons("ab-cd", &GroupBuyStatus::Active, "http://host/");
    let tags: Vec<&str> = active.iter().map(|b| b.action.as_str()).collect();
    assert_eq!(
        tags,
        vec!["edit_items", "register", "cancel_register", "close", "shopping_list", "subtotal"]
    );
    assert_eq!(active[0].id, "edititemsabcd");
    assert_eq!(active[0].url, "http://host/api/v1/group_buy/action/edit_items");
    assert!(active.iter().all(|b| b.group_buy_id == "ab-cd"));

    let closed = generate_action_buttons("ab-cd", &GroupBuyStatus::Closed, "http://host");
    let tags: Vec<&str> = closed.iter().map(|b| b.action.as_str()).collect();
    assert_eq!(tags, vec!["reopen", "adjust_shortage", "shopping_list", "subtotal"]);
}

#[test]
fn panel_message_marks_closed_sessions() {
    let items = vec![Item { name: "奶茶".to_string(), price: Money::from_cents(5000) }];
    let metadata = vec![("地點".to_string(), "大廳".to_string())];
    let active =
        generate_group_buy_message("五十嵐", &None, &metadata, &GroupBuyStatus::Active, &items);
    assert!(!active.starts_with("🔒"));
    assert!(active.contains("五十嵐"));
    assert!(active.contains("奶茶"));
    let closed =
        generate_group_buy_message("五十嵐", &None, &metadata, &GroupBuyStatus::Closed, &items);
    assert!(closed.starts_with("🔒"));
}

#[test]
fn test_get_url_hash() {
    let sticker = Sticker {
        name: "測試".to_string(),
        image_url: "https://i.imgur.com/XB4MwpR.jpg".to_string(),
        category: "測試分類".to_string(),
    };

    let hash = sticker.get_url_hash();
    assert_eq!(hash.len(), 8);

    let display_name = sticker.get_display_name();
    assert!(display_name.starts_with("[測試分類] 測試 ("));
    assert!(display_name.ends_with(")"));
}

#[test]
fn url_hash_is_stable_and_input_dependent() {
    let a = Sticker {
        name: "a".to_string(),
        image_url: "https://example.com/a.png".to_string(),
        category: "c".to_string(),
    };
    let b = Sticker {
        name: "a".to_string(),
        image_url: "https://example.com/b.png".to_string(),
        category: "c".to_string(),
    };
    assert_eq!(a.get_url_hash(), a.get_url_hash());
    assert_ne!(a.get_url_hash(), b.get_url_hash());
}

#[test]
fn admin_matching_by_username_or_id() {
    let config = Config {
        mattermost: MattermostConfig {
            url: "https://example.com".to_string(),
            bot_token: "token".to_string(),
            slash_command_token: None,
            bot_callback_url: None,
        },
        stickers: StickersConfig { categories: Vec::new() },
        admin: vec!["@testuser".to_string(), "userid123".to_string()],
    };
    assert!(config.is_admin("userid123", "otheruser"));
    assert!(config.is_admin("anyid", "testuser"));
    assert!(!config.is_admin("otherid", "otheruser"));
}

#[test]
fn slash_command_form_fields() {
    let form = vec![
        ("token".to_string(), "secret".to_string()),
        ("channel_id".to_string(), "chan".to_string()),
        ("user_id".to_string(), "u1".to_string()),
        ("user_name".to_string(), "alice".to_string()),
        ("trigger_id".to_string(), "trig".to_string()),
    ];
    let req = parse_slash_command(&form);
    assert_eq!(req.token, Some("secret".to_string()));
    assert_eq!(req.channel_id, "chan");
    assert_eq!(req.user_id, "u1");
    assert_eq!(req.user_name, "alice");
    assert_eq!(req.trigger_id, "trig");
    assert_eq!(req.team_id, "");
}

#[test]
fn command_token_check() {
    let form = vec![("token".to_string(), "secret".to_string())];
    let expected = Some("secret".to_string());
    assert!(group_buy::auth::verify_slash_command_token(&form, &expected).is_ok());
    let wrong = Some("other".to_string());
    assert!(group_buy::auth::verify_slash_command_token(&form, &wrong).is_err());
    assert!(group_buy::auth::verify_slash_command_token(&form, &None).is_ok());
}

#[test]
fn field_error_response_shape() {
    let resp = make_field_error_response("items", "bad");
    assert!(resp.error.is_none());
    assert!(resp.text.is_none());
    let errors = resp.errors.unwrap();
    assert_eq!(errors, vec![("items".to_string(), "bad".to_string())]);
}

#[test]
fn app_call_response_constructors() {
    let ok = AppCallResponse::ok("done".to_string());
    assert_eq!(ok.response_type, "ok");
    assert_eq!(ok.text, Some("done".to_string()));
    let err = AppCallResponse::error("nope".to_string());
    assert_eq!(err.response_type, "error");
    assert_eq!(err.text, Some("nope".to_string()));
}

#[test]
fn status_from_string_round_trip() {
    assert_eq!(GroupBuyStatus::from_string("closed"), GroupBuyStatus::Closed);
    assert_eq!(GroupBuyStatus::from_string("active"), GroupBuyStatus::Active);
    assert_eq!(GroupBuyStatus::from_string("anything"), GroupBuyStatus::Active);
    assert_eq!(GroupBuyStatus::from_string(GroupBuyStatus::Closed.as_str()), GroupBuyStatus::Closed);
    assert_eq!(GroupBuyStatus::from_string(GroupBuyStatus::Active.as_str()), GroupBuyStatus::Active);
}
