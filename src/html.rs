use std::rc::Rc;

use html5ever::serialize::{HtmlSerializer, Serializer};
use html5ever::tendril::TendrilSink;
use html5ever::QualName as ParserName;
use std::io::Error as IoError;
use vstd::prelude::*;
use vstd::utf8::{decode_utf8, encode_utf8, encode_utf8_decode_utf8, encode_utf8_valid_utf8, valid_utf8};

use crate::dom::{
    create_fragment, is_html_element, make_html_tag_name, Attribute, Dom, NodeData, QualName,
};
use crate::text::str_eq;

verus! {

#[verifier::external_type_specification]
#[verifier::external_body]
pub struct ExIoError(std::io::Error);

#[verifier::external_type_specification]
#[verifier::external_body]
pub struct ExFromUtf8Error(std::string::FromUtf8Error);

#[verifier::external_type_specification]
#[verifier::external_body]
pub struct ExRcNode(markup5ever_rcdom::Node);

/// Relies on html5ever::parse_fragment into a markup5ever_rcdom::RcDom:
/// decodes the input as UTF-8 and parses it as a fragment inside the context
/// element. Fragment parsing always appends one `html` element to the
/// document; the document and that element are handed back (dropping the
/// document empties its descendants, so the caller holds it while it reads
/// them). Reading from a byte slice never fails.
#[verifier::external_body]
fn parse_fragment_root(mut input: &[u8], context: &QualName, drop_doctype: bool) -> (r: Result<(Rc<markup5ever_rcdom::Node>, Rc<markup5ever_rcdom::Node>), std::io::Error>)
    ensures
        r is Ok,
{
    let mut options = html5ever::ParseOpts::default();
    options.tree_builder.drop_doctype = drop_doctype;
    let context = ParserName::new(None, context.ns[..].into(), context.local[..].into());
    let sink = markup5ever_rcdom::RcDom::default();
    let dom = html5ever::parse_fragment(sink, options, context, vec![]).from_utf8().read_from(&mut input)?;
    let root = dom.document.children.borrow()[0].clone();
    Ok((dom.document, root))
}

/// Relies on markup5ever_rcdom::Node's child list: the children in order.
#[verifier::external_body]
fn rc_children(h: &Rc<markup5ever_rcdom::Node>) -> (r: Vec<Rc<markup5ever_rcdom::Node>>) {
    h.children.borrow().clone()
}

/// Relies on markup5ever_rcdom::NodeData::Element: the element's name, with
/// its namespace URL and local name as text.
#[verifier::external_body]
fn rc_element_name(h: &Rc<markup5ever_rcdom::Node>) -> (r: Option<QualName>) {
    match &h.data {
        markup5ever_rcdom::NodeData::Element { name, .. } => Some(QualName { ns: name.ns.to_string(), local: name.local.to_string() }),
        _ => None,
    }
}

/// Relies on markup5ever_rcdom::NodeData::Element: the element's attributes
/// in order, names and values as text.
#[verifier::external_body]
fn rc_element_attrs(h: &Rc<markup5ever_rcdom::Node>) -> (r: Vec<Attribute>) {
    match &h.data {
        markup5ever_rcdom::NodeData::Element { attrs, .. } => attrs.borrow().iter().map(|a| Attribute { name: QualName { ns: a.name.ns.to_string(), local: a.name.local.to_string() }, value: a.value.to_string() }).collect(),
        _ => Vec::new(),
    }
}

/// Relies on markup5ever_rcdom::NodeData::Text: the text node's contents.
#[verifier::external_body]
fn rc_text(h: &Rc<markup5ever_rcdom::Node>) -> (r: Option<String>) {
    match &h.data {
        markup5ever_rcdom::NodeData::Text { contents } => Some(contents.borrow().to_string()),
        _ => None,
    }
}

/// Relies on markup5ever_rcdom::NodeData::Comment: the comment's contents.
#[verifier::external_body]
fn rc_comment(h: &Rc<markup5ever_rcdom::Node>) -> (r: Option<String>) {
    match &h.data {
        markup5ever_rcdom::NodeData::Comment { contents } => Some(contents.to_string()),
        _ => None,
    }
}

/// One step of writing a tree out, borrowed from the tree.
pub enum SerializeEvent<'a> {
    Start { name: &'a QualName, attrs: &'a Vec<Attribute> },
    End { name: &'a QualName },
    Text { text: &'a String },
    Comment { text: &'a String },
}

/// An event as plain values: a kind (start, end, text, comment), a namespace,
/// a local name or a text, and the attributes as (namespace, local name,
/// value).
pub type PlainEvent = (int, Seq<char>, Seq<char>, Seq<(Seq<char>, Seq<char>, Seq<char>)>);

pub open spec fn plain_attribute(a: Attribute) -> (Seq<char>, Seq<char>, Seq<char>) {
    (a.name.ns@, a.name.local@, a.value@)
}

pub open spec fn plain_event(e: SerializeEvent) -> PlainEvent {
    match e {
        SerializeEvent::Start { name, attrs } => (
            0,
            name.ns@,
            name.local@,
            attrs@.map_values(|a: Attribute| plain_attribute(a)),
        ),
        SerializeEvent::End { name } => (1, name.ns@, name.local@, Seq::empty()),
        SerializeEvent::Text { text } => (2, Seq::empty(), text@, Seq::empty()),
        SerializeEvent::Comment { text } => (3, Seq::empty(), text@, Seq::empty()),
    }
}

pub open spec fn plain_events(events: Seq<SerializeEvent>) -> Seq<PlainEvent> {
    events.map_values(|e: SerializeEvent| plain_event(e))
}

/// The text that html5ever's HTML serializer writes for a sequence of events.
pub uninterp spec fn rendered_html(events: Seq<PlainEvent>) -> Seq<char>;

/// Relies on html5ever's HtmlSerializer with the default options, which
/// writes each event into a buffer: a start tag with its attributes escaped,
/// an end tag unless the element is void, text escaped unless its parent is a
/// raw-text element, and comments as they are. The events come from a tree,
/// so every start has its end and the serializer's stack never runs empty;
/// writing into a `Vec<u8>` never fails.
#[verifier::external_body]
fn render_events(dom: &Dom, i: usize, events: &Vec<SerializeEvent>) -> (r: Result<Vec<u8>, IoError>)
    requires
        dom.wf(),
        i < dom.len(),
        events@ == children_events(dom, i as int, 0),
    ensures
        r is Ok,
        r is Ok ==> r->Ok_0@ == encode_utf8(rendered_html(plain_events(events@))),
{
    let mut s = HtmlSerializer::new(vec![], Default::default());
    let qual = |n: &QualName| ParserName::new(None, n.ns[..].into(), n.local[..].into());
    for event in events {
        match event {
            SerializeEvent::Start { name, attrs } => {
                let names: Vec<_> = attrs.iter().map(|a| qual(&a.name)).collect();
                s.start_elem(qual(name), names.iter().zip(attrs.iter().map(|a| &*a.value)))
            },
            SerializeEvent::End { name } => s.end_elem(qual(name)),
            SerializeEvent::Text { text } => s.write_text(text),
            SerializeEvent::Comment { text } => s.write_comment(text),
        }?

    }
    Ok(s.writer)
}

/// Relies on String::from_utf8: the bytes as text exactly when they are
/// valid UTF-8.
#[verifier::external_body]
fn utf8_text(bytes: Vec<u8>) -> (r: Result<String, std::string::FromUtf8Error>)
    ensures
        r is Ok <==> valid_utf8(bytes@),
        r is Ok ==> r->Ok_0@ == decode_utf8(bytes@),
{
    String::from_utf8(bytes)
}

/// Why a parse failed.
#[derive(Clone, Copy, Debug, PartialEq, Eq)]
pub enum ParseError {
    /// The tree has more nodes than an arena can address.
    TooLarge,
}

/// Why a serialization failed.
#[derive(Clone, Copy, Debug, PartialEq, Eq)]
pub enum SerializeError {
    /// The document does not have exactly one child; the count is given.
    RootCount(usize),
    /// The document's only child is not an `html` element.
    RootNotHtml,
    /// The serializer could not write.
    Write,
    /// The serializer wrote bytes that are not UTF-8.
    NotUtf8,
}

/// A failure that the shape of the document's children calls for.
pub open spec fn is_shape_error(e: SerializeError) -> bool {
    e is RootCount || e is RootNotHtml
}

/// What `serialize` owes on a tree: an error for a document without exactly
/// one `html` child, the empty text for an empty `html` child, and otherwise
/// the serializer's text for the events of the `html` element's children.
pub open spec fn serialize_outcome(dom: Dom, r: Result<String, SerializeError>) -> bool {
    if dom.children(0).len() != 1 {
        r matches Err(SerializeError::RootCount(n)) && n == dom.children(0).len()
    } else if !is_html_element(dom.data(dom.children(0)[0] as int)) {
        r matches Err(SerializeError::RootNotHtml)
    } else if dom.children(dom.children(0)[0] as int).len() == 0 {
        r matches Ok(t) && t@ == Seq::<char>::empty()
    } else {
        r matches Ok(t) && t@ == rendered_html(
            plain_events(children_events(&dom, dom.children(0)[0] as int, 0)),
        )
    }
}

fn node_data_of(h: &Rc<markup5ever_rcdom::Node>) -> (r: Option<NodeData>)
    ensures
        r matches Some(d) ==> !(d is Document),
{
    match rc_element_name(h) {
        Some(name) => {
            let attrs = rc_element_attrs(h);
            return Some(NodeData::Element { name, attrs });
        },
        None => {},
    }
    match rc_text(h) {
        Some(contents) => {
            return Some(NodeData::Text { contents });
        },
        None => {},
    }
    match rc_comment(h) {
        Some(contents) => Some(NodeData::Comment { contents }),
        None => None,
    }
}

fn is_html_root(dom: &Dom) -> (r: bool)
    requires
        dom.wf(),
    ensures
        r == dom.has_single_html_root(),
{
    let top = &dom.node(0).children;
    if top.len() != 1 {
        return false;
    }
    proof {
        assert(dom.children(0)[0] < dom.len());
    }
    match &dom.node(top[0]).data {
        NodeData::Element { name, .. } => {
            proof {
                reveal_strlit("http://www.w3.org/1999/xhtml");
                reveal_strlit("html");
            }
            str_eq(name.ns.as_str(), "http://www.w3.org/1999/xhtml") && str_eq(
                name.local.as_str(),
                "html",
            )
        },
        _ => false,
    }
}

/// Parses the bytes as an HTML fragment in the context of a `<section>`
/// element, with doctypes dropped. Malformed markup is recovered by the
/// parser, so the one failure is a tree too large for the arena.
///
/// The fragment lies under one `html` element, the document's only child.
/// Doctype and processing-instruction nodes are left out of the tree.
pub fn parse(input: &[u8]) -> (r: Result<Dom, ParseError>)
    ensures
        r matches Ok(dom) ==> dom.wf() && dom.has_single_html_root(),
        r matches Err(e) ==> e == ParseError::TooLarge,
{
    let context = make_html_tag_name("section");
    let (_document, html) = match parse_fragment_root(input, &context, true) {
        Ok(parsed) => parsed,
        Err(_) => {
            // reading from a byte slice never fails, so this arm is never taken
            proof {
                assert(false);
            }
            return Err(ParseError::TooLarge);
        },
    };
    let (mut dom, root) = create_fragment();
    let mut pending: Vec<(Rc<markup5ever_rcdom::Node>, usize)> = Vec::new();
    let top = rc_children(&html);
    let mut k: usize = 0;
    while k < top.len()
        invariant
            root == 1,
            forall|j: int| 0 <= j < pending@.len() ==> #[trigger] pending@[j].1 == 1,
        decreases top.len() - k,
    {
        pending.push((top[k].clone(), root));
        k = k + 1;
    }
    let mut fuel: usize = usize::MAX - 2;
    while pending.len() > 0
        invariant
            dom.wf(),
            dom.has_single_html_root(),
            dom.children(0) == seq![1usize],
            dom.len() >= 2,
            dom.len() + fuel <= usize::MAX,
            forall|j: int| 0 <= j < pending@.len() ==> 1 <= #[trigger] pending@[j].1 < dom.len(),
        decreases fuel,
    {
        if fuel == 0 {
            return Err(ParseError::TooLarge);
        }
        fuel = fuel - 1;
        let (handle, parent) = pending.remove(0);
        match node_data_of(&handle) {
            Some(data) => {
                let index = dom.add_node(data);
                dom.append(parent, index);
                let kids = rc_children(&handle);
                let mut c: usize = 0;
                while c < kids.len()
                    invariant
                        1 <= index < dom.len(),
                        forall|j: int| 0 <= j < pending@.len() ==> 1 <= #[trigger] pending@[j].1 < dom.len(),
                    decreases kids.len() - c,
                {
                    pending.push((kids[c].clone(), index));
                    c = c + 1;
                }
            },
            None => {},
        }
    }
    Ok(dom)
}

/// The events that write out the children of node `i`, from its `k`-th child
/// on: an element opens, writes its own children and closes; text and
/// comments are written as they are.
pub open spec fn children_events(dom: &Dom, i: int, k: int) -> Seq<SerializeEvent>
    decreases dom.len() - i, 0int, dom.children(i).len() - k,
{
    if i < 0 || i >= dom.len() || k < 0 || k >= dom.children(i).len() {
        Seq::empty()
    } else {
        let c = dom.children(i)[k] as int;
        let here = if i < c < dom.len() {
            node_events(dom, c)
        } else {
            Seq::empty()
        };
        here + children_events(dom, i, k + 1)
    }
}

/// The events that write out node `c`.
pub open spec fn node_events(dom: &Dom, c: int) -> Seq<SerializeEvent>
    decreases dom.len() - c, 1int, 0int,
{
    match dom.nodes()[c].data {
        NodeData::Element { name, attrs } => if 0 <= c < dom.len() {
            seq![SerializeEvent::Start { name: &name, attrs: &attrs }] + children_events(dom, c, 0)
                + seq![SerializeEvent::End { name: &name }]
        } else {
            Seq::empty()
        },
        NodeData::Text { contents } => seq![SerializeEvent::Text { text: &contents }],
        NodeData::Comment { contents } => seq![SerializeEvent::Comment { text: &contents }],
        NodeData::Document => Seq::empty(),
    }
}

fn push_children_events<'a>(dom: &'a Dom, i: usize, out: &mut Vec<SerializeEvent<'a>>)
    requires
        dom.wf(),
        i < dom.len(),
    ensures
        final(out)@ == old(out)@ + children_events(dom, i as int, 0),
    decreases dom.len() - i,
{
    let kids = &dom.node(i).children;
    let mut k: usize = 0;
    while k < kids.len()
        invariant
            dom.wf(),
            i < dom.len(),
            kids@ == dom.children(i as int),
            k <= kids@.len(),
            old(out)@ + children_events(dom, i as int, 0) == out@ + children_events(dom, i as int, k as int),
        decreases kids.len() - k,
    {
        let child = kids[k];
        let ghost before = out@;
        match &dom.node(child).data {
            NodeData::Element { name, attrs } => {
                out.push(SerializeEvent::Start { name, attrs });
                push_children_events(dom, child, out);
                out.push(SerializeEvent::End { name });
            },
            NodeData::Text { contents } => out.push(SerializeEvent::Text { text: contents }),
            NodeData::Comment { contents } => out.push(SerializeEvent::Comment { text: contents }),
            NodeData::Document => {},
        }
        proof {
            assert(out@ == before + node_events(dom, child as int));
            assert(children_events(dom, i as int, k as int) == node_events(dom, child as int)
                + children_events(dom, i as int, k + 1));
            assert(out@ + children_events(dom, i as int, k + 1) =~= before + children_events(dom, i as int, k as int));
        }
        k = k + 1;
    }
    proof {
        assert(out@ + children_events(dom, i as int, k as int) =~= out@);
    }
}

/// The events that write out the children of node `i`, in order.
pub fn serialization_events<'a>(dom: &'a Dom, i: usize) -> (r: Vec<SerializeEvent<'a>>)
    requires
        dom.wf(),
        i < dom.len(),
    ensures
        r@ == children_events(dom, i as int, 0),
{
    let mut out: Vec<SerializeEvent<'a>> = Vec::new();
    push_children_events(dom, i, &mut out);
    proof {
        assert(out@ =~= children_events(dom, i as int, 0));
    }
    out
}

/// Renders the contents of the document's single `html` element as HTML
/// text; the wrapper element itself is not written.
pub fn serialize(dom: Dom) -> (r: Result<String, SerializeError>)
    requires
        dom.wf(),
    ensures
        serialize_outcome(dom, r),
{
    let count = dom.node(0).children.len();
    if count != 1 {
        return Err(SerializeError::RootCount(count));
    }
    if !is_html_root(&dom) {
        return Err(SerializeError::RootNotHtml);
    }
    let root = dom.node(0).children[0];
    if dom.node(root).children.len() == 0 {
        return Ok(String::new());
    }
    let events = serialization_events(&dom, root);
    let bytes = match render_events(&dom, root, &events) {
        Ok(b) => b,
        Err(_) => {
            return Err(SerializeError::Write);
        },
    };
    proof {
        broadcast use encode_utf8_valid_utf8, encode_utf8_decode_utf8;
    }
    match utf8_text(bytes) {
        Ok(text) => Ok(text),
        Err(_) => Err(SerializeError::NotUtf8),
    }
}

/// A tree that the parser hands back always serializes.
pub proof fn lemma_parsed_tree_has_serializable_root(dom: Dom, r: Result<String, SerializeError>)
    requires
        dom.wf(),
        dom.has_single_html_root(),
        serialize_outcome(dom, r),
    ensures
        r is Ok,
{
}

/// A document with two children, or with one child that is not an `html`
/// element, always fails serialization on its shape.
pub proof fn lemma_malformed_root_fails(dom: Dom, r: Result<String, SerializeError>)
    requires
        dom.wf(),
        dom.children(0).len() == 2 || (dom.children(0).len() == 1 && !is_html_element(
            dom.data(dom.children(0)[0] as int),
        )),
        serialize_outcome(dom, r),
    ensures
        r matches Err(e) && is_shape_error(e),
{
}

} // verus!
