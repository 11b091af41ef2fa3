use thermoprint::render_json;
use thermoprint::template::TemplateError;
use thermoprint::Money;
use thermoprint::PrintWidth;
use thermoprint::ReceiptBuilder;

#[test]
fn minimal_template() {
    let json = r#"{
        "width": "80mm",
        "elements": [
            { "type": "init" },
            { "type": "text_line", "text": "Hello" },
            { "type": "cut" }
        ]
    }"#;
    let bytes = render_json(json).unwrap();
    assert!(!bytes.is_empty());
}

#[test]
fn full_receipt_template() {
    let json = r#"{
        "width": "80mm",
        "currency": "FCFA",
        "language": "fr",
        "elements": [
            { "type": "init" },
            { "type": "shop_header", "name": "MA BOUTIQUE", "phone": "+221 77 000", "address": "Dakar" },
            { "type": "divider", "char": "=" },
            { "type": "item", "name": "Polo shirt", "qty": 2, "unit_price": "15000" },
            { "type": "item", "name": "Jean Levis", "qty": 1, "unit_price": "25000", "discount": "2000" },
            { "type": "divider", "char": "-" },
            { "type": "subtotal", "amount": "53000" },
            { "type": "tax", "label": "TVA 18%", "amount": "9540", "included": true },
            { "type": "total", "amount": "62540" },
            { "type": "received", "amount": "70000" },
            { "type": "change", "amount": "7460" },
            { "type": "divider", "char": "=" },
            { "type": "barcode_code128", "value": "ORD-2024-001" },
            { "type": "served_by", "name": "Mamadou" },
            { "type": "thank_you", "shop_name": "MA BOUTIQUE" },
            { "type": "feed", "lines": 3 },
            { "type": "cut" }
        ]
    }"#;
    let bytes = render_json(json).unwrap();
    let output = String::from_utf8_lossy(&bytes);
    assert!(output.contains("MA BOUTIQUE"));
    assert!(output.contains("TOTAL"));
}

#[test]
fn english_language_template() {
    let json = r#"{
        "width": "80mm",
        "language": "en",
        "elements": [
            { "type": "init" },
            { "type": "total", "amount": "100" },
            { "type": "cut" }
        ]
    }"#;
    let bytes = render_json(json).unwrap();
    let output = String::from_utf8_lossy(&bytes);
    assert!(output.contains("TOTAL"));
}

#[test]
fn defaults_applied() {
    let json = r#"{ "elements": [{ "type": "init" }, { "type": "cut" }] }"#;
    let bytes = render_json(json).unwrap();
    assert!(!bytes.is_empty());
}

#[test]
fn invalid_json_returns_error() {
    let result = render_json("not json");
    assert!(result.is_err());
}

#[test]
fn invalid_decimal_returns_error() {
    let json = r#"{ "elements": [{ "type": "total", "amount": "abc" }] }"#;
    let result = render_json(json);
    assert!(result.is_err());
}

#[test]
fn unknown_width_returns_error() {
    let json = r#"{ "width": "999mm", "elements": [{ "type": "init" }] }"#;
    let result = render_json(json);
    assert!(result.is_err());
}

#[test]
fn alignment_element() {
    let json = r#"{
        "elements": [
            { "type": "init" },
            { "type": "align", "value": "center" },
            { "type": "text_line", "text": "Centered" },
            { "type": "align", "value": "left" },
            { "type": "cut" }
        ]
    }"#;
    let bytes = render_json(json).unwrap();
    assert!(!bytes.is_empty());
}

#[test]
fn qr_code_element() {
    let json = r#"{
        "elements": [
            { "type": "init" },
            { "type": "qr_code", "data": "https://example.com" },
            { "type": "cut" }
        ]
    }"#;
    let bytes = render_json(json).unwrap();
    assert!(!bytes.is_empty());
}

#[test]
fn style_elements() {
    let json = r#"{
        "elements": [
            { "type": "init" },
            { "type": "bold" },
            { "type": "double_size" },
            { "type": "text_line", "text": "BIG BOLD" },
            { "type": "normal_size" },
            { "type": "bold", "on": false },
            { "type": "underline" },
            { "type": "text_line", "text": "underlined" },
            { "type": "underline", "on": false },
            { "type": "cut" }
        ]
    }"#;
    let bytes = render_json(json).unwrap();
    assert!(!bytes.is_empty());
}

#[test]
fn unknown_width_is_named_and_yields_no_buffer() {
    let json = r#"{ "width": "999mm", "elements": [{ "type": "init" }] }"#;
    match render_json(json) {
        Ok(_) => panic!("999mm must not render"),
        Err(TemplateError::UnknownWidth(w)) => assert_eq!(w, "999mm"),
        Err(e) => panic!("wrong error kind: {:?}", e),
    }
}

#[test]
fn unknown_language_is_named() {
    let json = r#"{ "language": "zz", "elements": [{ "type": "init" }] }"#;
    match render_json(json) {
        Err(TemplateError::UnknownLanguage(l)) => assert_eq!(l, "zz"),
        other => panic!("wrong result: {:?}", other.map(|_| ())),
    }
}

#[test]
fn unknown_align_is_named() {
    let json = r#"{ "elements": [{ "type": "align", "value": "middle" }] }"#;
    match render_json(json) {
        Err(TemplateError::UnknownAlign(a)) => assert_eq!(a, "middle"),
        other => panic!("wrong result: {:?}", other.map(|_| ())),
    }
}

#[test]
fn invalid_decimal_names_the_value() {
    let json = r#"{ "elements": [{ "type": "total", "amount": "abc" }] }"#;
    match render_json(json) {
        Err(TemplateError::InvalidDecimal { value, .. }) => assert_eq!(value, "abc"),
        other => panic!("wrong result: {:?}", other.map(|_| ())),
    }
}

#[test]
fn render_is_deterministic() {
    let json = r#"{
        "width": "58mm",
        "elements": [
            { "type": "init" },
            { "type": "item", "name": "Produit", "qty": 3, "unit_price": "149.99" },
            { "type": "total", "amount": "449.97" },
            { "type": "cut" }
        ]
    }"#;
    let a = render_json(json).unwrap();
    let b = render_json(json).unwrap();
    assert_eq!(a, b);
}

#[test]
fn template_matches_fluent_builder_bytes() {
    let json = r#"{
        "width": "80mm",
        "elements": [
            { "type": "init" },
            { "type": "item", "name": "Polo shirt", "qty": 2, "unit_price": "15000" },
            { "type": "total", "amount": "30000" },
            { "type": "cut" }
        ]
    }"#;
    let rendered = render_json(json).unwrap();
    let built = ReceiptBuilder::new(PrintWidth::Mm80)
        .init()
        .item("Polo shirt", 2, Money::parse("15000").unwrap(), None)
        .total(Money::parse("30000").unwrap())
        .cut()
        .build();
    assert_eq!(rendered, built);
}

#[test]
fn currency_omitted_uses_default_symbol() {
    let json = r#"{ "elements": [{ "type": "total", "amount": "5000" }] }"#;
    let bytes = render_json(json).unwrap();
    let output = String::from_utf8_lossy(&bytes);
    assert!(output.contains("FCFA"));
}
