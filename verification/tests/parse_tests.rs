//! Parsing and formatting: money, quantities, and the dialog block formats.

use group_buy::model::Item;
use group_buy::money::{parse_quantity, Money, PriceParseError, QuantityParseError};
use group_buy::yaml::{
    items_to_yaml, parse_adjustments_yaml, parse_items_yaml, parse_metadata_yaml, YamlError,
};

#[test]
fn money_parses_integers_and_fractions() {
    assert_eq!(Money::parse("50").unwrap().cents, 5000);
    assert_eq!(Money::parse("45.5").unwrap().cents, 4550);
    assert_eq!(Money::parse("49.99").unwrap().cents, 4999);
    assert_eq!(Money::parse("0").unwrap().cents, 0);
}

#[test]
fn money_rejects_bad_prices() {
    assert_eq!(Money::parse("-5"), Err(PriceParseError::Negative));
    assert_eq!(Money::parse("abc"), Err(PriceParseError::Malformed));
    assert_eq!(Money::parse(""), Err(PriceParseError::Malformed));
    assert_eq!(Money::parse("1.234"), Err(PriceParseError::Malformed));
    assert_eq!(Money::parse("5."), Err(PriceParseError::Malformed));
    assert_eq!(Money::parse("10000000000000"), Err(PriceParseError::TooLarge));
}

#[test]
fn money_formats_without_trailing_zeros() {
    assert_eq!(Money::from_cents(5000).format(), "50");
    assert_eq!(Money::from_cents(4550).format(), "45.5");
    assert_eq!(Money::from_cents(4999).format(), "49.99");
    assert_eq!(Money::from_cents(0).format(), "0");
}

#[test]
fn quantity_parsing_bounds() {
    assert_eq!(parse_quantity("0"), Ok(0));
    assert_eq!(parse_quantity("2"), Ok(2));
    assert_eq!(parse_quantity("1000000"), Ok(1_000_000));
    assert_eq!(parse_quantity("1000001"), Err(QuantityParseError::TooLarge));
    assert_eq!(parse_quantity("-3"), Err(QuantityParseError::Negative));
    assert_eq!(parse_quantity("x"), Err(QuantityParseError::Malformed));
}

#[test]
fn items_yaml_parses_names_and_prices() {
    let items = parse_items_yaml("珍珠奶茶: 50\n紅茶拿鐵: 45\n").unwrap();
    assert_eq!(items.len(), 2);
    assert_eq!(items[0].name, "珍珠奶茶");
    assert_eq!(items[0].price.cents, 5000);
    assert_eq!(items[1].name, "紅茶拿鐵");
    assert_eq!(items[1].price.cents, 4500);
}

#[test]
fn items_yaml_skips_comments_and_replaces_duplicates() {
    let items = parse_items_yaml("# menu\n\n奶茶: 50\n奶茶: 55\n").unwrap();
    assert_eq!(items.len(), 1);
    assert_eq!(items[0].price.cents, 5500);
}

#[test]
fn items_yaml_rejects_bad_lines() {
    assert_eq!(parse_items_yaml("no colon here").unwrap_err(), YamlError::MalformedLine);
    assert_eq!(parse_items_yaml(": 50").unwrap_err(), YamlError::EmptyName);
    assert_eq!(parse_items_yaml("奶茶: -5").unwrap_err(), YamlError::NegativePrice);
    assert_eq!(parse_items_yaml("奶茶: abc").unwrap_err(), YamlError::BadPrice);
    assert_eq!(parse_items_yaml("奶茶: 10000000000000").unwrap_err(), YamlError::PriceTooLarge);
}

#[test]
fn adjustments_yaml_skips_comments_and_blanks() {
    let advs = parse_adjustments_yaml(
        "# 格式：order_id: 新數量\n\n# @alice - 珍珠奶茶 x2\nord-1: 0\n\nord-2: 3\n",
    )
    .unwrap();
    assert_eq!(advs, vec![("ord-1".to_string(), 0), ("ord-2".to_string(), 3)]);
}

#[test]
fn adjustments_yaml_rejects_bad_lines() {
    assert_eq!(parse_adjustments_yaml("ord-1: -1"), Err(YamlError::NegativeQuantity));
    assert_eq!(parse_adjustments_yaml("ord-1: x"), Err(YamlError::BadQuantity));
    assert_eq!(parse_adjustments_yaml("ord-1: 9999999"), Err(YamlError::QuantityTooLarge));
    assert_eq!(parse_adjustments_yaml("bad line without colon"), Err(YamlError::MalformedLine));
    assert_eq!(parse_adjustments_yaml(": 3"), Err(YamlError::EmptyName));
}

#[test]
fn metadata_yaml_keeps_colons_in_values() {
    let meta = parse_metadata_yaml("截止時間: 2026-01-25 18:00\n取貨地點: 公司大廳").unwrap();
    assert_eq!(meta.len(), 2);
    assert_eq!(meta[0].1, "2026-01-25 18:00");
    assert_eq!(parse_metadata_yaml("just text"), Err(YamlError::MalformedLine));
}

#[test]
fn items_to_yaml_round_trips_and_masks_placeholder() {
    let items = vec![
        Item { name: "珍珠奶茶".to_string(), price: Money::from_cents(5000) },
        Item { name: "紅茶拿鐵".to_string(), price: Money::from_cents(4550) },
    ];
    let yaml = items_to_yaml(&items);
    assert_eq!(yaml, "珍珠奶茶: 50\n紅茶拿鐵: 45.5\n");
    let back = parse_items_yaml(&yaml).unwrap();
    assert_eq!(back.len(), 2);
    assert_eq!(back[0].price.cents, 5000);
    assert_eq!(back[1].price.cents, 4550);

    let placeholder = vec![Item { name: "範例商品".to_string(), price: Money::from_cents(1000) }];
    assert_eq!(items_to_yaml(&placeholder), "# 範例商品: 10\n");
}
