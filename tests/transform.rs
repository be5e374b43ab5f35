use cart_transform::addon::{extract_addon, has_addon_flag, select_addon};
use cart_transform::cart::{normalize_document, normalize_line_item, MalformedInput, MetaValue, Metafield};
use cart_transform::decimal::{amount_cents, amount_scaled, cents_to_text, quantity_from_text};
use cart_transform::json::{text_is, JsonValue};
use cart_transform::transform::{
    processCart, render_overrides, resolve_price, respond, transform, PriceOverride, TransformConfig,
};

fn s(t: &str) -> String {
    t.to_string()
}

fn obj(fields: Vec<(&str, JsonValue)>) -> JsonValue {
    JsonValue::Object(fields.into_iter().map(|(k, v)| (s(k), v)).collect())
}

fn text(t: &str) -> JsonValue {
    JsonValue::Str(s(t))
}

fn flag(value: &str) -> Metafield {
    Metafield {
        namespace: s("cdh_shoplazza_addon"),
        key: s("addon_selected"),
        value: MetaValue::Text(s(value)),
    }
}

fn one_update(id: &str, price: &str) -> String {
    format!(
        "{{\"operation\":{{\"update\":[{{\"id\":\"{}\",\"price\":{{\"adjustment_fixed_price\":\"{}\"}}}}]}}}}",
        id, price
    )
}

const EMPTY: &str = "{\"operation\":{\"update\":[]}}";

#[test]
fn empty_cart_gives_empty_update() {
    assert_eq!(processCart("{\"cart\":{\"line_items\":[]}}"), EMPTY);
}

#[test]
fn item_without_signal_is_left_out() {
    let input = r#"{"cart":{"line_items":[{"id":"7","price":"10.00","quantity":1,"properties":"{\"color\":\"red\"}"}]}}"#;
    assert_eq!(processCart(input), EMPTY);
}

#[test]
fn structured_string_price_is_added() {
    let input = r#"{"cart":{"line_items":[{"id":"1","price":"100.00","quantity":1,"properties":"{\"addon\":{\"price\":\"1.54\",\"name\":\"Care\"}}"}]}}"#;
    assert_eq!(processCart(input), one_update("1", "101.54"));
}

#[test]
fn structured_number_price_has_two_decimals() {
    let input = r#"{"cart":{"line_items":[{"id":"2","price":"10.00","quantity":"1","properties":"{\"addon\":{\"price\":1.5}}"}]}}"#;
    assert_eq!(processCart(input), one_update("2", "11.50"));
}

#[test]
fn metafield_flag_gives_fixed_price() {
    let input = r#"{"cart":{"line_items":[{"id":"3","quantity":1,"properties":"{}","product":{"product_id":"p","price":"50.00","metafields":[{"namespace":"cdh_shoplazza_addon","key":"addon_selected","value":"true"}]}}]}}"#;
    assert_eq!(processCart(input), one_update("3", "69.99"));
}

#[test]
fn properties_not_json_fall_through() {
    let input = r#"{"cart":{"line_items":[{"id":"4","price":"5.00","quantity":1,"properties":"not json"},{"id":"5","price":"5.00","quantity":1,"properties":"not json","metafields":[{"namespace":"cdh_shoplazza_addon","key":"addon_selected","value":"true"}]}]}}"#;
    assert_eq!(processCart(input), one_update("5", "24.99"));
}

#[test]
fn structured_price_wins_over_metafield() {
    let input = r#"{"cart":{"line_items":[{"id":"6","price":"100.00","quantity":1,"properties":"{\"addon\":{\"price\":\"1.54\"}}","metafields":[{"namespace":"cdh_shoplazza_addon","key":"addon_selected","value":"true"}]}]}}"#;
    assert_eq!(processCart(input), one_update("6", "101.54"));
}

#[test]
fn same_input_same_output() {
    let input = r#"{"cart":{"line_items":[{"id":"a","price":"1.10","quantity":2,"properties":"{\"addon\":{\"price\":2.25}}"},{"id":"b","price":"3.00","quantity":1,"properties":"{}"}]}}"#;
    let first = processCart(input);
    let second = processCart(input);
    assert_eq!(first, second);
    assert_eq!(first, one_update("a", "3.35"));
}

#[test]
fn legacy_flat_fields_give_price() {
    let input = r#"{"cart":{"line_items":[{"id":"8","price":"20.00","quantity":1,"properties":"{\"_add_on_type\":\"protection_plan\",\"_add_on_price\":\"5.00\",\"_add_on_name\":\"Plan\"}"}]}}"#;
    assert_eq!(processCart(input), one_update("8", "25.00"));
}

#[test]
fn legacy_flat_fields_need_protection_plan() {
    let input = r#"{"cart":{"line_items":[{"id":"9","price":"20.00","quantity":1,"properties":"{\"_add_on_type\":\"gift\",\"_add_on_price\":\"5.00\"}"}]}}"#;
    assert_eq!(processCart(input), EMPTY);
}

#[test]
fn addon_object_without_price_skips_legacy_fields() {
    let input = r#"{"cart":{"line_items":[{"id":"10","price":"20.00","quantity":1,"properties":"{\"addon\":{\"name\":\"x\"},\"_add_on_type\":\"protection_plan\",\"_add_on_price\":\"5.00\"}"}]}}"#;
    assert_eq!(processCart(input), EMPTY);
}

#[test]
fn several_items_keep_their_order() {
    let input = r#"{"cart":{"line_items":[{"id":"x","price":"1.00","quantity":1,"properties":"{\"addon\":{\"price\":\"1.00\"}}"},{"id":"y","price":"2.00","quantity":1,"properties":"{\"addon\":{\"price\":\"0.50\"}}"}]}}"#;
    let expected = "{\"operation\":{\"update\":[{\"id\":\"x\",\"price\":{\"adjustment_fixed_price\":\"2.00\"}},{\"id\":\"y\",\"price\":{\"adjustment_fixed_price\":\"2.50\"}}]}}";
    assert_eq!(processCart(input), expected);
}

#[test]
fn id_is_escaped_in_output() {
    let input = r#"{"cart":{"line_items":[{"id":"a\"b","price":"1.00","quantity":1,"properties":"{\"addon\":{\"price\":\"1.00\"}}"}]}}"#;
    assert_eq!(processCart(input), one_update("a\\\"b", "2.00"));
}

#[test]
fn id_control_characters_are_escaped() {
    let input = "{\"cart\":{\"line_items\":[{\"id\":\"a\\u0001\\n\\\\b\",\"price\":\"1.00\",\"properties\":\"{\\\"addon\\\":{\\\"price\\\":\\\"1.00\\\"}}\"}]}}";
    assert_eq!(processCart(input), one_update("a\\u0001\\n\\\\b", "2.00"));
}

#[test]
fn not_json_is_reported() {
    assert_eq!(processCart("{cart"), "{\"error\":\"malformed input: not valid JSON\"}");
}

#[test]
fn missing_line_items_is_reported() {
    assert_eq!(
        processCart("{\"cart\":{}}"),
        "{\"error\":\"malformed input: missing cart.line_items\"}"
    );
}

#[test]
fn missing_id_is_reported() {
    let input = r#"{"cart":{"line_items":[{"price":"1.00","properties":"{}"}]}}"#;
    assert_eq!(processCart(input), "{\"error\":\"malformed input: line item without id\"}");
}

#[test]
fn normalize_document_reports_each_error() {
    assert!(matches!(normalize_document(&obj(vec![])), Err(MalformedInput::MissingLineItems)));
    let doc = obj(vec![("cart", obj(vec![("line_items", JsonValue::Array(vec![obj(vec![])]))]))]);
    assert!(matches!(normalize_document(&doc), Err(MalformedInput::MissingId)));
    let doc = obj(vec![("cart", obj(vec![("line_items", JsonValue::Array(vec![]))]))]);
    assert_eq!(normalize_document(&doc).unwrap().line_items.len(), 0);
}

#[test]
fn flat_and_nested_product_fields_agree() {
    let flat = obj(vec![
        ("id", text("1")),
        ("product_id", text("p1")),
        ("variant_id", text("v1")),
        ("price", text("9.99")),
        ("quantity", JsonValue::Number(s("3"))),
        ("properties", text("{}")),
    ]);
    let nested = obj(vec![
        ("id", text("1")),
        ("quantity", text("3")),
        ("properties", text("{}")),
        (
            "product",
            obj(vec![("product_id", text("p1")), ("variant_id", text("v1")), ("price", text("9.99"))]),
        ),
    ]);
    for v in [flat, nested] {
        let item = normalize_line_item(&v).unwrap();
        assert_eq!(item.id, "1");
        assert_eq!(item.product_id.as_deref(), Some("p1"));
        assert_eq!(item.variant_id.as_deref(), Some("v1"));
        assert_eq!(item.price, "9.99");
        assert_eq!(item.quantity, 3);
        assert_eq!(item.properties, "{}");
        assert_eq!(item.metafields.len(), 0);
    }
}

#[test]
fn quantity_that_is_no_number_is_zero() {
    let v = obj(vec![("id", text("1")), ("quantity", text("two"))]);
    assert_eq!(normalize_line_item(&v).unwrap().quantity, 0);
    assert_eq!(quantity_from_text("42"), 42);
    assert_eq!(quantity_from_text(""), 0);
    assert_eq!(quantity_from_text("1.5"), 0);
    assert_eq!(quantity_from_text("9999999999999999999"), 9999999999999999999);
    assert_eq!(quantity_from_text("18446744073709551615"), 0);
}

#[test]
fn metafields_keep_only_well_formed_entries() {
    let v = obj(vec![
        ("id", text("1")),
        (
            "metafields",
            JsonValue::Array(vec![
                obj(vec![("namespace", text("n")), ("key", text("k")), ("value", JsonValue::Bool(true))]),
                obj(vec![("namespace", text("n"))]),
                obj(vec![("namespace", text("m")), ("key", text("j"))]),
            ]),
        ),
    ]);
    let item = normalize_line_item(&v).unwrap();
    assert_eq!(item.metafields.len(), 2);
    assert!(matches!(item.metafields[0].value, MetaValue::Bool(true)));
    assert!(matches!(item.metafields[1].value, MetaValue::Null));
}

#[test]
fn amounts_round_half_away_from_zero() {
    assert_eq!(amount_cents("1.555"), 156);
    assert_eq!(amount_cents("1.554"), 155);
    assert_eq!(amount_cents("-1.005"), -101);
    assert_eq!(amount_cents("100"), 10000);
    assert_eq!(amount_cents("0.5"), 50);
    assert_eq!(amount_cents("abc"), 0);
    assert_eq!(amount_cents("1."), 0);
    assert_eq!(amount_cents(""), 0);
    assert_eq!(amount_cents("9999999999999.99"), 999999999999999);
    assert_eq!(amount_cents("9999999999999999.995"), 1000000000000000000);
    assert_eq!(amount_cents("10000000000000000"), 0);
    assert_eq!(amount_cents("0.004999999999999999"), 0);
    assert_eq!(amount_cents("0.0050000000000000000"), 0);
}

#[test]
fn cents_are_written_with_two_decimals() {
    assert_eq!(cents_to_text(0), "0.00");
    assert_eq!(cents_to_text(5), "0.05");
    assert_eq!(cents_to_text(-50), "-0.50");
    assert_eq!(cents_to_text(10154), "101.54");
    assert_eq!(cents_to_text(i64::MIN + 1), "-92233720368547758.07");
}

#[test]
fn resolve_price_adds_amounts() {
    assert_eq!(resolve_price(&s("100.00"), &s("1.54")), "101.54");
    assert_eq!(resolve_price(&s("abc"), &s("1.00")), "1.00");
    assert_eq!(resolve_price(&s("10"), &s("-2.5")), "7.50");
}

#[test]
fn sum_is_rounded_once() {
    assert_eq!(resolve_price(&s("0.005"), &s("0.005")), "0.01");
    assert_eq!(resolve_price(&s("10.004"), &s("0.004")), "10.01");
    assert_eq!(resolve_price(&s("0.10"), &s("0.20")), "0.30");
    assert_eq!(resolve_price(&s("0.004999999999999999"), &s("0.000000000000000001")), "0.01");
    assert_eq!(resolve_price(&s("-0.004"), &s("-0.001")), "-0.01");
    assert_eq!(resolve_price(&s("1.006"), &s("-0.001")), "1.01");
    assert_eq!(amount_scaled("-1.5"), -1500000000000000000);
}

#[test]
fn flag_needs_exact_namespace_key_and_value() {
    assert!(has_addon_flag(&vec![flag("true")]));
    assert!(!has_addon_flag(&vec![flag("false")]));
    let other = Metafield { namespace: s("other"), key: s("addon_selected"), value: MetaValue::Text(s("true")) };
    assert!(!has_addon_flag(&vec![other]));
    assert!(!has_addon_flag(&vec![]));
}

#[test]
fn select_addon_follows_source_order() {
    let price = s("19.99");
    let none = select_addon(&None, &vec![flag("true")], &price).unwrap();
    assert_eq!(none.price, "19.99");
    assert!(select_addon(&None, &vec![], &price).is_none());
    let props = obj(vec![("addon", obj(vec![("price", JsonValue::Number(s("2.005")))]))]);
    assert_eq!(select_addon(&Some(props), &vec![flag("true")], &price).unwrap().price, "2.01");
}

#[test]
fn extract_addon_parses_properties() {
    let price = s("19.99");
    let r = extract_addon(&s("{\"addon\":{\"price\":\"3.10\"}}"), &vec![], &price).unwrap();
    assert_eq!(r.price, "3.10");
    assert!(extract_addon(&s("not json"), &vec![], &price).is_none());
}

#[test]
fn configured_flag_price_is_used() {
    let config = TransformConfig { legacy_addon_price: s("5.00") };
    let input = r#"{"cart":{"line_items":[{"id":"3","price":"50.00","quantity":1,"properties":"{}","metafields":[{"namespace":"cdh_shoplazza_addon","key":"addon_selected","value":"true"}]}]}}"#;
    assert_eq!(transform(input, &config), one_update("3", "55.00"));
    assert_eq!(TransformConfig::standard().legacy_addon_price, "19.99");
}

#[test]
fn respond_reports_unparsed_document() {
    let config = TransformConfig::standard();
    assert_eq!(respond(&None, &config), "{\"error\":\"malformed input: not valid JSON\"}");
}

#[test]
fn render_overrides_lists_in_order() {
    let os = vec![
        PriceOverride { line_item_id: s("1"), adjusted_price: s("1.00") },
        PriceOverride { line_item_id: s("2"), adjusted_price: s("2.00") },
    ];
    let expected = "{\"operation\":{\"update\":[{\"id\":\"1\",\"price\":{\"adjustment_fixed_price\":\"1.00\"}},{\"id\":\"2\",\"price\":{\"adjustment_fixed_price\":\"2.00\"}}]}}";
    assert_eq!(render_overrides(&os), expected);
    assert_eq!(render_overrides(&vec![]), EMPTY);
}

#[test]
fn text_is_compares_whole_text() {
    assert!(text_is(&s("addon"), "addon"));
    assert!(!text_is(&s("addon"), "addons"));
}
