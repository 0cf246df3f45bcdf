use chost_dom::dom::{create_element, create_fragment, make_attribute_name, Attribute, Dom, NodeData};
use chost_dom::html::{parse, serialize, SerializeError};

#[test]
fn test_serialize() {
    assert_eq!(serialize(Dom::new()).map_err(|_| ()), Err(()));

    let mut dom = Dom::new();
    let html = create_element(&mut dom, "html");
    dom.append(0, html);
    assert_eq!(serialize(dom).unwrap(), "");

    let mut dom = Dom::new();
    let html = create_element(&mut dom, "html");
    dom.append(0, html);
    let html = create_element(&mut dom, "html");
    dom.append(0, html);
    assert_eq!(serialize(dom).map_err(|_| ()), Err(()));

    let mut dom = Dom::new();
    let html = create_element(&mut dom, "p");
    dom.append(0, html);
    assert_eq!(serialize(dom).map_err(|_| ()), Err(()));
}

#[test]
fn empty_fragment_serializes_to_empty_text() {
    let (dom, root) = create_fragment();
    assert_eq!(root, 1);
    assert_eq!(serialize(dom), Ok(String::new()));
}

#[test]
fn root_shape_errors_are_specific() {
    assert_eq!(serialize(Dom::new()), Err(SerializeError::RootCount(0)));

    let mut dom = Dom::new();
    let a = create_element(&mut dom, "html");
    let b = create_element(&mut dom, "html");
    dom.append(0, a);
    dom.append(0, b);
    assert_eq!(serialize(dom), Err(SerializeError::RootCount(2)));

    let mut dom = Dom::new();
    let p = create_element(&mut dom, "p");
    dom.append(0, p);
    assert_eq!(serialize(dom), Err(SerializeError::RootNotHtml));
}

#[test]
fn built_tree_serializes_with_escaping() {
    let (mut dom, root) = create_fragment();
    let p = create_element(&mut dom, "p");
    dom.append(root, p);
    let text = dom.add_node(chost_dom::dom::NodeData::Text { contents: "a < b & c".to_owned() });
    dom.append(p, text);
    let br = create_element(&mut dom, "br");
    dom.append(root, br);
    assert_eq!(serialize(dom).unwrap(), "<p>a &lt; b &amp; c</p><br>");
}

#[test]
fn parse_wraps_fragment_in_one_html_root() {
    for input in ["", "<p>hi</p>", "</html><!--x--><td>", "<table><tr>cell", "plain & text"] {
        let dom = parse(input.as_bytes()).unwrap();
        assert!(serialize(dom).is_ok(), "{input}");
    }
}

#[test]
fn parse_then_serialize_gives_canonical_text() {
    let dom = parse(b"<P CLASS=a id='b'>one<br/>two</p><!--c-->").unwrap();
    assert_eq!(
        serialize(dom).unwrap(),
        "<p class=\"a\" id=\"b\">one<br>two</p><!--c-->"
    );
}

#[test]
fn round_trip_of_canonical_text_is_stable() {
    let first = serialize(parse(b"<div title=\"x &quot;y&quot;\" class=\"k\"><p>a &amp; b</p>tail</div>").unwrap()).unwrap();
    let second = serialize(parse(first.as_bytes()).unwrap()).unwrap();
    assert_eq!(first, second);
    assert_eq!(first, "<div title=\"x &quot;y&quot;\" class=\"k\"><p>a &amp; b</p>tail</div>");
}

#[test]
fn parse_uses_section_context_and_drops_doctype() {
    let dom = parse(b"<!DOCTYPE html><span>x</span>").unwrap();
    assert_eq!(serialize(dom).unwrap(), "<span>x</span>");
}

#[test]
fn set_attribute_replaces_first_or_appends() {
    let (mut dom, root) = create_fragment();
    let a = create_element(&mut dom, "a");
    dom.append(root, a);
    dom.set_attribute(a, Attribute { name: make_attribute_name("href"), value: "x".into() });
    dom.set_attribute(a, Attribute { name: make_attribute_name("title"), value: "t".into() });
    dom.set_attribute(a, Attribute { name: make_attribute_name("href"), value: "y&\"z".into() });
    match &dom.node(a).data {
        NodeData::Element { attrs, .. } => assert_eq!(attrs.len(), 2),
        _ => panic!("not an element"),
    }
    assert_eq!(serialize(dom).unwrap(), "<a href=\"y&amp;&quot;z\" title=\"t\"></a>");
}

#[test]
fn built_paragraph_renders_escaped_text() {
    let (mut dom, root) = create_fragment();
    let p = create_element(&mut dom, "p");
    let text = dom.add_node(chost_dom::dom::NodeData::Text { contents: "a<b&c".to_owned() });
    dom.append(p, text);
    dom.append(root, p);
    assert_eq!(serialize(dom).unwrap(), "<p>a&lt;b&amp;c</p>");
}

#[test]
fn parse_of_empty_and_unclosed_input() {
    let dom = parse(b"").unwrap();
    assert_eq!(dom.node_count(), 2);
    assert_eq!(dom.node(1).children.len(), 0);
    let dom = parse(b"<p>x").unwrap();
    assert_eq!(dom.node(1).children, vec![2]);
    assert_eq!(dom.node(2).children, vec![3]);
    assert_eq!(serialize(dom).unwrap(), "<p>x</p>");
}
