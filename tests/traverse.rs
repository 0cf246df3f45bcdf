use chost_dom::dom::{attr_value, create_element, find_attr_mut, make_attribute_name, Attribute, Dom};
use chost_dom::traverse::Traverse;

#[test]
fn breadth_first_order() {
    let mut dom = Dom::new();
    let r = create_element(&mut dom, "r");
    let a = create_element(&mut dom, "a");
    let b = create_element(&mut dom, "b");
    let c = create_element(&mut dom, "c");
    dom.append(r, a);
    dom.append(r, b);
    dom.append(a, c);
    let mut walk = Traverse::new(r);
    let mut order = Vec::new();
    while let Some(n) = walk.next(&dom) {
        order.push(n);
    }
    assert_eq!(order, vec![r, a, b, c]);
    assert_eq!(walk.next(&dom), None);
}

#[test]
fn attribute_lookup_takes_first_unnamespaced_match() {
    let attrs = vec![
        Attribute {
            name: chost_dom::dom::QualName { ns: "http://www.w3.org/1999/xlink".into(), local: "href".into() },
            value: "x".into(),
        },
        Attribute { name: make_attribute_name("href"), value: "first".into() },
        Attribute { name: make_attribute_name("href"), value: "second".into() },
    ];
    assert_eq!(find_attr_mut(&attrs, "href"), Some(1));
    assert_eq!(attr_value(&attrs, "href"), Some("first"));
    assert_eq!(attr_value(&attrs, "src"), None);
    assert_eq!(find_attr_mut(&attrs, "src"), None);
}
