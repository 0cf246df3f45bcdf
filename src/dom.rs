use vstd::prelude::*;

verus! {

/// The HTML namespace, as html5ever spells it.
pub open spec fn html_namespace() -> Seq<char> {
    "http://www.w3.org/1999/xhtml"@
}

/// A qualified name: a namespace URL (empty for the null namespace) and a
/// local name.
#[derive(Clone, Debug, PartialEq, Eq)]
pub struct QualName {
    pub ns: String,
    pub local: String,
}

/// An attribute of an element.
#[derive(Clone, Debug, PartialEq, Eq)]
pub struct Attribute {
    pub name: QualName,
    pub value: String,
}

/// What a node is.
#[derive(Clone, Debug, PartialEq, Eq)]
pub enum NodeData {
    Document,
    Element { name: QualName, attrs: Vec<Attribute> },
    Text { contents: String },
    Comment { contents: String },
}

/// A node of the arena: its data and the handles of its children in order.
#[derive(Clone, Debug, PartialEq, Eq)]
pub struct TreeNode {
    pub data: NodeData,
    pub children: Vec<usize>,
}

/// A fragment tree held as an arena of nodes addressed by index.
///
/// The document is the node at index zero. A node's children are always
/// created after it, so the tree has no cycles and a walk from any node ends.
pub struct Dom {
    nodes: Vec<TreeNode>,
}

pub open spec fn is_html_element(data: NodeData) -> bool {
    match data {
        NodeData::Element { name, .. } => name.ns@ == html_namespace() && name.local@ == "html"@,
        _ => false,
    }
}

pub open spec fn is_named_attribute(a: Attribute, name: Seq<char>) -> bool {
    a.name.ns@ == Seq::<char>::empty() && a.name.local@ == name
}

impl Dom {
    pub closed spec fn nodes(&self) -> Seq<TreeNode> {
        self.nodes@
    }

    pub open spec fn len(&self) -> nat {
        self.nodes().len()
    }

    pub open spec fn children(&self, i: int) -> Seq<usize> {
        self.nodes()[i].children@
    }

    pub open spec fn data(&self, i: int) -> NodeData {
        self.nodes()[i].data
    }

    /// The document is the first node and the only document node, and every
    /// child handle points past its parent and into the arena.
    pub open spec fn wf(&self) -> bool {
        &&& self.len() >= 1
        &&& self.data(0) is Document
        &&& forall|i: int| 1 <= i < self.len() ==> !(#[trigger] self.data(i) is Document)
        &&& forall|i: int, j: int|
            0 <= i < self.len() && 0 <= j < self.children(i).len() ==> i < #[trigger] self.children(
                i,
            )[j] < self.len()
        &&& forall|i1: int, j1: int, i2: int, j2: int|
            0 <= i1 < self.len() && 0 <= j1 < self.children(i1).len() && 0 <= i2 < self.len() && 0
                <= j2 < self.children(i2).len() && #[trigger] self.children(i1)[j1]
                == #[trigger] self.children(i2)[j2] ==> i1 == i2 && j1 == j2
    }

    /// Whether node `c` is the child of some node.
    pub open spec fn is_attached(&self, c: int) -> bool {
        exists|i: int, j: int|
            0 <= i < self.len() && 0 <= j < self.children(i).len() && #[trigger] self.children(i)[j]
                == c
    }

    /// The attributes of node `i`, empty for a node that is not an element.
    pub open spec fn attrs(&self, i: int) -> Seq<Attribute> {
        match self.data(i) {
            NodeData::Element { attrs, .. } => attrs@,
            _ => Seq::empty(),
        }
    }

    /// The document has exactly one child, an `html` element in the HTML
    /// namespace.
    pub open spec fn has_single_html_root(&self) -> bool {
        &&& self.children(0).len() == 1
        &&& is_html_element(self.data(self.children(0)[0] as int))
    }

    /// A tree that holds only its document.
    pub fn new() -> (r: Dom)
        ensures
            r.wf(),
            r.len() == 1,
            r.children(0).len() == 0,
    {
        let mut nodes: Vec<TreeNode> = Vec::new();
        nodes.push(TreeNode { data: NodeData::Document, children: Vec::new() });
        Dom { nodes }
    }

    /// The handle of the document.
    pub fn document(&self) -> (r: usize)
        ensures
            r == 0,
    {
        0
    }

    /// The number of nodes in the arena.
    pub fn node_count(&self) -> (r: usize)
        ensures
            r == self.len(),
    {
        self.nodes.len()
    }

    /// The node behind a handle.
    pub fn node(&self, i: usize) -> (r: &TreeNode)
        requires
            i < self.len(),
        ensures
            *r == self.nodes()[i as int],
    {
        &self.nodes[i]
    }

    /// Adds a detached node and returns its handle.
    pub fn add_node(&mut self, data: NodeData) -> (r: usize)
        requires
            old(self).wf(),
            !(data is Document),
            old(self).len() < usize::MAX,
        ensures
            final(self).wf(),
            r == old(self).len(),
            final(self).len() == old(self).len() + 1,
            forall|i: int| 0 <= i < old(self).len() ==> #[trigger] final(self).nodes()[i] == old(self).nodes()[i],
            final(self).data(r as int) == data,
            final(self).children(r as int).len() == 0,
            !final(self).is_attached(r as int),
    {
        let r = self.nodes.len();
        self.nodes.push(TreeNode { data, children: Vec::new() });
        proof {
            assert forall|i: int| 1 <= i < self.len() implies !(#[trigger] self.data(i) is Document) by {
                if i < r {
                    assert(self.data(i) == old(self).data(i));
                }
            }
            assert forall|i: int, j: int|
                0 <= i < self.len() && 0 <= j < self.children(i).len() implies i
                < #[trigger] self.children(i)[j] < self.len() by {
                if i < r {
                    assert(self.children(i) == old(self).children(i));
                }
            }
            assert forall|i: int| 0 <= i < self.len() implies #[trigger] self.children(i) == if i < r {
                old(self).children(i)
            } else {
                Seq::<usize>::empty()
            } by {
                if i < r {
                    assert(self.nodes()[i] == old(self).nodes()[i]);
                }
            }
            assert(!self.is_attached(r as int));
        }
        r
    }

    /// Appends `child` as the last child of `parent`. A child is always a node
    /// created after its parent.
    pub fn append(&mut self, parent: usize, child: usize)
        requires
            old(self).wf(),
            parent < child < old(self).len(),
            !old(self).is_attached(child as int),
        ensures
            final(self).wf(),
            final(self).len() == old(self).len(),
            final(self).children(parent as int) == old(self).children(parent as int).push(child),
            forall|i: int| 0 <= i < old(self).len() ==> #[trigger] final(self).data(i) == old(self).data(i),
            forall|i: int|
                0 <= i < old(self).len() && i != parent ==> #[trigger] final(self).children(i)
                    == old(self).children(i),
    {
        let mut node = self.nodes.remove(parent);
        node.children.push(child);
        self.nodes.insert(parent, node);
        proof {
            assert forall|i: int| 0 <= i < old(self).len() implies #[trigger] self.nodes()[i] == if i == parent {
                TreeNode { data: old(self).data(i), children: self.nodes()[i].children }
            } else {
                old(self).nodes()[i]
            } by {}
            assert forall|i: int, j: int|
                0 <= i < self.len() && 0 <= j < self.children(i).len() implies i
                < #[trigger] self.children(i)[j] < self.len() by {
                if i != parent {
                    assert(self.children(i) == old(self).children(i));
                } else if j < old(self).children(i).len() {
                    assert(self.children(i)[j] == old(self).children(i)[j]);
                }
            }
            assert forall|i: int| 0 <= i < self.len() && i != parent implies #[trigger] self.children(i)
                == old(self).children(i) by {}
            assert forall|i1: int, j1: int, i2: int, j2: int|
                0 <= i1 < self.len() && 0 <= j1 < self.children(i1).len() && 0 <= i2 < self.len() && 0
                    <= j2 < self.children(i2).len() && #[trigger] self.children(i1)[j1]
                    == #[trigger] self.children(i2)[j2] implies i1 == i2 && j1 == j2 by {
                let old_len1 = old(self).children(i1).len();
                let old_len2 = old(self).children(i2).len();
                let new1 = i1 == parent && j1 == old_len1;
                let new2 = i2 == parent && j2 == old_len2;
                if !new1 {
                    assert(self.children(i1)[j1] == old(self).children(i1)[j1]);
                }
                if !new2 {
                    assert(self.children(i2)[j2] == old(self).children(i2)[j2]);
                }
                if new1 && !new2 {
                    assert(old(self).is_attached(child as int));
                }
                if new2 && !new1 {
                    assert(old(self).is_attached(child as int));
                }
            }
        }
    }

    /// Sets an attribute on element `node`: the first attribute with the same
    /// namespace and local name takes the new value, and where there is none
    /// the attribute is added at the end.
    pub fn set_attribute(&mut self, node: usize, attr: Attribute)
        requires
            old(self).wf(),
            node < old(self).len(),
            old(self).data(node as int) is Element,
        ensures
            final(self).wf(),
            final(self).len() == old(self).len(),
            forall|i: int| 0 <= i < old(self).len() ==> #[trigger] final(self).children(i) == old(self).children(i),
            forall|i: int|
                0 <= i < old(self).len() && i != node ==> #[trigger] final(self).data(i) == old(self).data(i),
            final(self).data(node as int) is Element,
            final(self).data(node as int)->Element_name == old(self).data(node as int)->Element_name,
            match first_same_name(old(self).attrs(node as int), attr) {
                Some(k) => final(self).attrs(node as int) == old(self).attrs(node as int).update(k, attr),
                None => final(self).attrs(node as int) == old(self).attrs(node as int).push(attr),
            },
    {
        let mut taken = self.nodes.remove(node);
        let ghost old_attrs = old(self).attrs(node as int);
        match &mut taken.data {
            NodeData::Element { attrs, .. } => {
                let mut k: usize = 0;
                let mut found = false;
                while k < attrs.len() && !found
                    invariant
                        attrs@ == old_attrs,
                        k <= attrs@.len(),
                        found ==> k < attrs@.len() && same_name(attrs@[k as int], attr),
                        first_same_name(old_attrs, attr) == first_same_name_from(old_attrs, attr, k as int),
                    decreases attrs@.len() - k, if found { 0int } else { 1int },
                {
                    if crate::text::str_eq(attrs[k].name.ns.as_str(), attr.name.ns.as_str())
                        && crate::text::str_eq(attrs[k].name.local.as_str(), attr.name.local.as_str()) {
                        found = true;
                    } else {
                        k = k + 1;
                    }
                }
                if found {
                    attrs.set(k, attr);
                } else {
                    attrs.push(attr);
                }
            },
            _ => {},
        }
        self.nodes.insert(node, taken);
        proof {
            assert forall|i: int| 0 <= i < old(self).len() implies #[trigger] self.children(i) == old(self).children(i) by {}
            assert forall|i: int| 0 <= i < old(self).len() && i != node implies #[trigger] self.data(i) == old(self).data(i) by {}
            assert forall|i: int, j: int|
                0 <= i < self.len() && 0 <= j < self.children(i).len() implies i
                < #[trigger] self.children(i)[j] < self.len() by {
                assert(self.children(i) == old(self).children(i));
            }
            assert forall|i: int| 1 <= i < self.len() implies !(#[trigger] self.data(i) is Document) by {
                if i != node {
                    assert(self.data(i) == old(self).data(i));
                }
            }
        }
    }
}

/// Whether two attributes have the same namespace and local name.
pub open spec fn same_name(a: Attribute, b: Attribute) -> bool {
    a.name.ns@ == b.name.ns@ && a.name.local@ == b.name.local@
}

/// The first position, from `k` on, of an attribute named as `attr`.
pub open spec fn first_same_name_from(attrs: Seq<Attribute>, attr: Attribute, k: int) -> Option<int>
    decreases attrs.len() - k,
{
    if k < 0 || k >= attrs.len() {
        None
    } else if same_name(attrs[k], attr) {
        Some(k)
    } else {
        first_same_name_from(attrs, attr, k + 1)
    }
}

/// The first position of an attribute named as `attr`.
pub open spec fn first_same_name(attrs: Seq<Attribute>, attr: Attribute) -> Option<int> {
    first_same_name_from(attrs, attr, 0)
}

/// A name in the HTML namespace.
pub fn make_html_tag_name(name: &str) -> (r: QualName)
    ensures
        r.ns@ == html_namespace(),
        r.local@ == name@,
{
    QualName { ns: "http://www.w3.org/1999/xhtml".to_owned(), local: name.to_owned() }
}

/// An attribute name in the null namespace, which is where the tokenizer puts
/// every attribute outside foreign content.
pub fn make_attribute_name(name: &str) -> (r: QualName)
    ensures
        r.ns@ == Seq::<char>::empty(),
        r.local@ == name@,
{
    QualName { ns: String::new(), local: name.to_owned() }
}

/// Creates a detached element in the HTML namespace, with no attributes and
/// no children.
pub fn create_element(dom: &mut Dom, html_local_name: &str) -> (r: usize)
    requires
        old(dom).wf(),
        old(dom).len() < usize::MAX,
    ensures
        final(dom).wf(),
        r == old(dom).len(),
        final(dom).len() == old(dom).len() + 1,
        forall|i: int| 0 <= i < old(dom).len() ==> #[trigger] final(dom).nodes()[i] == old(dom).nodes()[i],
        final(dom).children(r as int).len() == 0,
        !final(dom).is_attached(r as int),
        match final(dom).data(r as int) {
            NodeData::Element { name, attrs } => name.ns@ == html_namespace() && name.local@
                == html_local_name@ && attrs@.len() == 0,
            _ => false,
        },
{
    let name = make_html_tag_name(html_local_name);
    dom.add_node(NodeData::Element { name, attrs: Vec::new() })
}

/// A tree whose document has exactly one child, a wrapper `html` element,
/// together with the handle of that element.
pub fn create_fragment() -> (r: (Dom, usize))
    ensures
        r.0.wf(),
        r.0.has_single_html_root(),
        r.0.len() == 2,
        r.1 == 1,
        r.0.children(0) == seq![1usize],
        r.0.children(1).len() == 0,
        r.0.data(1) matches NodeData::Element { attrs, .. } && attrs@.len() == 0,
{
    let mut dom = Dom::new();
    let root = create_element(&mut dom, "html");
    dom.append(0, root);
    proof {
        reveal_strlit("html");
        assert(dom.children(0) =~= seq![1usize]);
    }
    (dom, root)
}

/// The position of the first attribute in the null namespace with the given
/// local name.
pub fn find_attr_mut(attrs: &[Attribute], name: &str) -> (r: Option<usize>)
    ensures
        match r {
            Some(i) => i < attrs@.len() && is_named_attribute(attrs@[i as int], name@) && forall|
                j: int,
            | 0 <= j < i ==> !is_named_attribute(#[trigger] attrs@[j], name@),
            None => forall|j: int|
                0 <= j < attrs@.len() ==> !is_named_attribute(#[trigger] attrs@[j], name@),
        },
{
    let mut i: usize = 0;
    while i < attrs.len()
        invariant
            0 <= i <= attrs@.len(),
            forall|j: int| 0 <= j < i ==> !is_named_attribute(#[trigger] attrs@[j], name@),
        decreases attrs@.len() - i,
    {
        if crate::text::is_empty_text(attrs[i].name.ns.as_str()) && crate::text::str_eq(
            attrs[i].name.local.as_str(),
            name,
        ) {
            return Some(i);
        }
        i = i + 1;
    }
    None
}

/// The value of the first attribute in the null namespace with the given
/// local name.
pub fn attr_value<'a>(attrs: &'a [Attribute], name: &str) -> (r: Option<&'a str>)
    ensures
        match r {
            Some(v) => exists|i: int|
                0 <= i < attrs@.len() && is_named_attribute(attrs@[i], name@) && v@
                    == attrs@[i].value@ && forall|j: int|
                    0 <= j < i ==> !is_named_attribute(#[trigger] attrs@[j], name@),
            None => forall|j: int|
                0 <= j < attrs@.len() ==> !is_named_attribute(#[trigger] attrs@[j], name@),
        },
{
    match find_attr_mut(attrs, name) {
        Some(i) => Some(attrs[i].value.as_str()),
        None => None,
    }
}

} // verus!
