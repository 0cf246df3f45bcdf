use chost_dom::attributes::{content_attribute_name, is_known_good};
use chost_dom::coerce::{convert_idl_to_content_attribute, decimal_text, rename_idl_to_content_attribute, JsonValue};
use chost_dom::dom::{make_attribute_name, Attribute};
use chost_dom::ledger::{debug_attributes_seen, debug_not_known_good_attributes_seen, Ledger};

fn pair(t: &str, a: &str) -> (String, String) {
    (t.to_owned(), a.to_owned())
}

#[test]
fn test_rename_idl_to_content_attribute() {
    let mut ledger = Ledger::new();
    assert_eq!(
        rename_idl_to_content_attribute(&mut ledger, "div", "tabIndex"),
        make_attribute_name("tabindex"),
    );
}

#[test]
fn test_convert_idl_to_content_attribute() {
    let mut ledger = Ledger::new();
    assert_eq!(
        convert_idl_to_content_attribute(&mut ledger, "div", "id", JsonValue::String("foo".to_owned())),
        Some(Attribute { name: make_attribute_name("id"), value: "foo".into() }),
    );
    assert_eq!(
        convert_idl_to_content_attribute(&mut ledger, "img", "width", JsonValue::Number(13)),
        Some(Attribute { name: make_attribute_name("width"), value: "13".into() }),
    );
    assert_eq!(
        convert_idl_to_content_attribute(&mut ledger, "details", "open", JsonValue::Bool(true)),
        Some(Attribute { name: make_attribute_name("open"), value: "".into() }),
    );
    assert_eq!(
        convert_idl_to_content_attribute(&mut ledger, "details", "open", JsonValue::Bool(false)),
        None,
    );
    assert_eq!(
        convert_idl_to_content_attribute(
            &mut ledger,
            "div",
            "className",
            JsonValue::Array(vec![JsonValue::String("foo".into()), JsonValue::String("bar".into())]),
        ),
        Some(Attribute { name: make_attribute_name("class"), value: "foo bar".into() }),
    );
}

#[test]
fn rename_keeps_unknown_properties() {
    assert_eq!(content_attribute_name("div", "tabIndex"), "tabindex");
    assert_eq!(content_attribute_name("div", "unknownProp"), "unknownProp");
    assert_eq!(content_attribute_name("span", "ariaHidden"), "aria-hidden");
    assert_eq!(content_attribute_name("span", "ariaLabel"), "aria-label");
}

#[test]
fn allowlist_matches_global_and_tag_entries() {
    assert!(is_known_good("span", "id"));
    assert!(is_known_good("img", "width"));
    assert!(!is_known_good("div", "width"));
    assert!(is_known_good("Mention", "handle"));
    assert!(!is_known_good("div", "class"));
}

#[test]
fn numbers_render_in_decimal() {
    assert_eq!(decimal_text(0), "0");
    assert_eq!(decimal_text(-42), "-42");
    assert_eq!(decimal_text(18446744073709551615), "18446744073709551615");
    assert_eq!(decimal_text(-9223372036854775808), "-9223372036854775808");
}

#[test]
fn list_values_drop_non_strings_and_other_shapes_are_omitted() {
    let mut ledger = Ledger::new();
    let rel = JsonValue::Array(vec![
        JsonValue::String("noopener".into()),
        JsonValue::Number(3),
        JsonValue::Null,
        JsonValue::String("nofollow".into()),
    ]);
    assert_eq!(
        convert_idl_to_content_attribute(&mut ledger, "a", "rel", rel),
        Some(Attribute { name: make_attribute_name("rel"), value: "noopener nofollow".into() }),
    );
    let list = JsonValue::Array(vec![JsonValue::String("x".into())]);
    assert_eq!(convert_idl_to_content_attribute(&mut ledger, "div", "title", list), None);
    assert_eq!(convert_idl_to_content_attribute(&mut ledger, "div", "title", JsonValue::Null), None);
    assert_eq!(
        convert_idl_to_content_attribute(&mut ledger, "div", "style", JsonValue::Object(vec![])),
        None
    );
    assert_eq!(
        convert_idl_to_content_attribute(&mut ledger, "div", "className", JsonValue::Array(vec![])),
        Some(Attribute { name: make_attribute_name("class"), value: "".into() }),
    );
    // omitted values are still recorded
    assert_eq!(debug_attributes_seen(&ledger), vec![pair("a", "rel"), pair("div", "class"), pair("div", "style"), pair("div", "title")]);
}

#[test]
fn ledger_records_unknown_pairs_within_all_pairs() {
    let mut ledger = Ledger::new();
    convert_idl_to_content_attribute(&mut ledger, "div", "className", JsonValue::String("x".into()));
    convert_idl_to_content_attribute(&mut ledger, "div", "className", JsonValue::String("y".into()));
    convert_idl_to_content_attribute(&mut ledger, "div", "id", JsonValue::String("z".into()));
    convert_idl_to_content_attribute(&mut ledger, "img", "width", JsonValue::Number(1));
    convert_idl_to_content_attribute(&mut ledger, "p", "unknownProp", JsonValue::Bool(true));
    convert_idl_to_content_attribute(&mut ledger, "p", "hidden", JsonValue::Bool(false));
    let all = debug_attributes_seen(&ledger);
    let unknown = debug_not_known_good_attributes_seen(&ledger);
    assert_eq!(all, vec![pair("div", "class"), pair("div", "id"), pair("img", "width"), pair("p", "hidden"), pair("p", "unknownProp")]);
    assert_eq!(unknown, vec![pair("div", "class"), pair("p", "hidden"), pair("p", "unknownProp")]);
    for p in &unknown {
        assert!(all.contains(p));
    }
}

#[test]
fn false_omits_but_records() {
    let mut ledger = Ledger::new();
    assert_eq!(convert_idl_to_content_attribute(&mut ledger, "details", "open", JsonValue::Bool(false)), None);
    assert_eq!(debug_attributes_seen(&ledger), vec![pair("details", "open")]);
    assert_eq!(debug_not_known_good_attributes_seen(&ledger), vec![]);
}

#[test]
fn snapshots_are_sorted_by_code_point() {
    let mut ledger = Ledger::new();
    convert_idl_to_content_attribute(&mut ledger, "p", "zeta", JsonValue::Bool(true));
    convert_idl_to_content_attribute(&mut ledger, "a", "x", JsonValue::Bool(true));
    convert_idl_to_content_attribute(&mut ledger, "B", "y", JsonValue::Bool(true));
    convert_idl_to_content_attribute(&mut ledger, "p", "alpha", JsonValue::Bool(true));
    convert_idl_to_content_attribute(&mut ledger, "é", "x", JsonValue::Bool(true));
    convert_idl_to_content_attribute(&mut ledger, "a", "x", JsonValue::Bool(true));
    let expected = vec![pair("B", "y"), pair("a", "x"), pair("p", "alpha"), pair("p", "zeta"), pair("é", "x")];
    assert_eq!(debug_attributes_seen(&ledger), expected);
    assert_eq!(debug_not_known_good_attributes_seen(&ledger), expected);
}
