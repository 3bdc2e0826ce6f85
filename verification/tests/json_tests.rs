use multitool_backend::json::{items_from_json, items_to_json};
use multitool_backend::records::InvoiceItem;

fn item(d: &str, q: &str, u: &str, t: &str) -> InvoiceItem {
    InvoiceItem {
        description: d.to_string(),
        quantity: q.to_string(),
        unit_price: u.to_string(),
        total: t.to_string(),
    }
}

#[test]
fn encode_empty_list() {
    let items: Vec<InvoiceItem> = Vec::new();
    assert_eq!(items_to_json(&items), "[]");
}

#[test]
fn encode_one_item_exactly() {
    let items = vec![item("Design work", "2", "150", "300")];
    assert_eq!(
        items_to_json(&items),
        "[{\"description\":\"Design work\",\"quantity\":2,\"unit_price\":150,\"total\":300}]"
    );
}

#[test]
fn encode_two_items_with_comma() {
    let items = vec![item("A", "1", "2", "2"), item("B", "3", "4", "12")];
    assert_eq!(
        items_to_json(&items),
        "[{\"description\":\"A\",\"quantity\":1,\"unit_price\":2,\"total\":2},{\"description\":\"B\",\"quantity\":3,\"unit_price\":4,\"total\":12}]"
    );
}

#[test]
fn encode_escapes_quote_backslash_newline() {
    let items = vec![item("say \"hi\"\\\n", "1", "1", "1")];
    let js = items_to_json(&items);
    assert_eq!(
        js,
        "[{\"description\":\"say \\\"hi\\\"\\\\\\n\",\"quantity\":1,\"unit_price\":1,\"total\":1}]"
    );
}

#[test]
fn encode_escapes_control_char_as_hex() {
    let items = vec![item("a\u{1}b\u{1f}", "1", "1", "1")];
    let js = items_to_json(&items);
    assert!(js.contains("a\\u0001b\\u001f"));
}

#[test]
fn round_trip_plain_items() {
    let items = vec![
        item("Design work", "2", "150.5", "301"),
        item("Hosting", "12", "9.99", "119.88"),
    ];
    let js = items_to_json(&items);
    assert_eq!(items_from_json(&js), Some(items));
}

#[test]
fn round_trip_awkward_description() {
    let items = vec![item("tabs\tquotes \"q\" back\\slash\r\nand \u{8}\u{c}\u{3}", "1", "-2.5e3", "+0.5")];
    let js = items_to_json(&items);
    assert_eq!(items_from_json(&js), Some(items));
}

#[test]
fn round_trip_unicode_description() {
    let items = vec![item("caf\u{e9} \u{2603}", "1", "1", "1")];
    let js = items_to_json(&items);
    assert_eq!(items_from_json(&js), Some(items));
}

#[test]
fn decode_empty_array() {
    assert_eq!(items_from_json("[]"), Some(Vec::new()));
}

#[test]
fn decode_exact_text() {
    let js = "[{\"description\":\"X\",\"quantity\":1,\"unit_price\":2,\"total\":2}]";
    let items = items_from_json(js).unwrap();
    assert_eq!(items.len(), 1);
    assert_eq!(items[0].description, "X");
    assert_eq!(items[0].quantity, "1");
    assert_eq!(items[0].unit_price, "2");
    assert_eq!(items[0].total, "2");
}

#[test]
fn decode_rejects_garbage() {
    assert_eq!(items_from_json(""), None);
    assert_eq!(items_from_json("not json"), None);
    assert_eq!(items_from_json("[{}]"), None);
    assert_eq!(items_from_json("["), None);
    assert_eq!(items_from_json("[]extra"), None);
    assert_eq!(
        items_from_json("[{\"description\":\"X\",\"quantity\":,\"unit_price\":2,\"total\":2}]"),
        None
    );
    assert_eq!(
        items_from_json("[{\"description\":\"X\",\"quantity\":1,\"unit_price\":2,\"total\":2}"),
        None
    );
}

#[test]
fn decode_takes_only_the_stored_field_order() {
    assert_eq!(
        items_from_json("[{\"quantity\":1,\"description\":\"X\",\"unit_price\":2,\"total\":2}]"),
        None
    );
}

#[test]
fn decode_takes_only_the_stored_spelling() {
    assert_eq!(
        items_from_json(
            "[{\"description\":\"\\u0041\",\"quantity\":1,\"unit_price\":2,\"total\":2}]"
        ),
        None
    );
    assert_eq!(
        items_from_json("[ {\"description\":\"X\",\"quantity\":1,\"unit_price\":2,\"total\":2} ]"),
        None
    );
}

#[test]
fn decode_rejects_unterminated_string() {
    assert_eq!(items_from_json("[{\"description\":\"X"), None);
}

#[test]
fn encoder_output_is_json_serde_reads_back() {
    let items = vec![item("say \"hi\"\\\nnow\u{1f}", "2", "9.99", "19.98")];
    let js = items_to_json(&items);
    let v: serde_json::Value = serde_json::from_str(&js).unwrap();
    assert_eq!(v[0]["description"].as_str().unwrap(), "say \"hi\"\\\nnow\u{1f}");
    assert_eq!(v[0]["quantity"].as_f64().unwrap(), 2.0);
    assert_eq!(v[0]["unit_price"].as_f64().unwrap(), 9.99);
    assert_eq!(v[0]["total"].as_f64().unwrap(), 19.98);
}

#[test]
fn greeting_text() {
    assert_eq!(
        multitool_backend::text::greet("World"),
        "Hello, World! You've been greeted from Rust!"
    );
}
