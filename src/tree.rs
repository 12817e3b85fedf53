//! The parsed document: an arena of nodes addressed by index. Node 0 is the
//! document root, and every child index is greater than its parent's, so a
//! walk from the root always ends.
use vstd::prelude::*;
use crate::text::{chars_of, eq_lit};

verus! {

/// One attribute of an element.
pub struct Attribute {
    pub name: Vec<char>,
    pub value: Vec<char>,
}

/// What a node is.
pub enum NodeData {
    Document,
    Doctype,
    /// An element with its case-normalised tag name and its attributes in order.
    Element { tag: Vec<char>, attrs: Vec<Attribute> },
    Text { contents: Vec<char> },
    Comment { contents: Vec<char> },
    ProcessingInstruction,
}

pub struct Node {
    pub data: NodeData,
    pub children: Vec<usize>,
}

pub struct Tree {
    pub nodes: Vec<Node>,
}

/// The value of the first attribute named `name`.
pub open spec fn attr_lookup(attrs: Seq<Attribute>, name: Seq<char>) -> Option<Seq<char>>
    decreases attrs.len(),
{
    if attrs.len() == 0 {
        None
    } else if attrs[0].name@ == name {
        Some(attrs[0].value@)
    } else {
        attr_lookup(attrs.drop_first(), name)
    }
}

/// The first attribute of `attrs` named `name`, from position `k` on.
pub open spec fn attr_from(attrs: Seq<Attribute>, name: Seq<char>, k: int) -> Option<Seq<char>>
    decreases attrs.len() - k,
{
    if k < 0 || k >= attrs.len() {
        None
    } else if attrs[k].name@ == name {
        Some(attrs[k].value@)
    } else {
        attr_from(attrs, name, k + 1)
    }
}

pub proof fn lemma_attr_from(attrs: Seq<Attribute>, name: Seq<char>, k: int)
    requires
        0 <= k <= attrs.len(),
    ensures
        attr_from(attrs, name, k) == attr_lookup(attrs.subrange(k, attrs.len() as int), name),
    decreases attrs.len() - k,
{
    let rest = attrs.subrange(k, attrs.len() as int);
    if k < attrs.len() {
        lemma_attr_from(attrs, name, k + 1);
        assert(rest.drop_first() =~= attrs.subrange(k + 1, attrs.len() as int));
    }
}

/// The value of the first attribute of `attrs` named by the literal `name`.
pub fn find_attr<'a>(attrs: &'a Vec<Attribute>, name: &str) -> (r: Option<&'a Vec<char>>)
    ensures
        match r {
            Some(v) => attr_lookup(attrs@, name@) == Some(v@),
            None => attr_lookup(attrs@, name@) is None,
        },
{
    proof {
        lemma_attr_from(attrs@, name@, 0);
        assert(attrs@.subrange(0, attrs@.len() as int) =~= attrs@);
    }
    let mut k: usize = 0;
    while k < attrs.len()
        invariant
            k <= attrs@.len(),
            attr_lookup(attrs@, name@) == attr_from(attrs@, name@, k as int),
        decreases attrs@.len() - k,
    {
        if eq_lit(&attrs[k].name, name) {
            assert(attr_from(attrs@, name@, k as int) == Some(attrs@[k as int].value@));
            return Some(&attrs[k].value);
        }
        k = k + 1;
    }
    None
}

impl Node {
    pub open spec fn children_after(&self, i: int, n: int) -> bool {
        forall|k: int| 0 <= k < self.children@.len() ==> i < #[trigger] self.children@[k] < n
    }
}

/// `new` is `old` with one childless node appended as the last child of
/// `parent`; every other node is unchanged and the parent keeps its data.
pub open spec fn appended(old: Tree, new: Tree, parent: int) -> bool {
    let n = old.nodes@.len();
    &&& new.nodes@.len() == n + 1
    &&& new.nodes@.last().children@.len() == 0
    &&& new.nodes@[parent].data == old.nodes@[parent].data
    &&& new.nodes@[parent].children@ == old.nodes@[parent].children@.push(n as usize)
    &&& forall|j: int| 0 <= j < n && j != parent ==> new.nodes@[j] == old.nodes@[j]
}

impl Tree {
    /// Every child index lies after its parent's and inside the arena, and the
    /// root exists.
    pub open spec fn wf(&self) -> bool {
        &&& self.nodes@.len() > 0
        &&& forall|i: int|
            0 <= i < self.nodes@.len() ==> #[trigger] self.nodes@[i].children_after(
                i,
                self.nodes@.len() as int,
            )
    }

    /// A tree that holds only its document root.
    pub fn new() -> (t: Tree)
        ensures
            t.wf(),
            t.nodes@.len() == 1,
            t.nodes@[0].data is Document,
            t.nodes@[0].children@.len() == 0,
    {
        let mut nodes: Vec<Node> = Vec::new();
        nodes.push(Node { data: NodeData::Document, children: Vec::new() });
        Tree { nodes }
    }

    pub fn len(&self) -> (r: usize)
        ensures
            r == self.nodes@.len(),
    {
        self.nodes.len()
    }

    /// Appends `data` as the last child of `parent` and returns its index, or
    /// `None` (and leaves the tree as it was) where `parent` is no node.
    pub fn add_node(&mut self, parent: usize, data: NodeData) -> (r: Option<usize>)
        requires
            old(self).wf(),
        ensures
            final(self).wf(),
            parent < old(self).nodes@.len() ==> {
                &&& r == Some(old(self).nodes@.len() as usize)
                &&& appended(*old(self), *final(self), parent as int)
                &&& final(self).nodes@.last().data == data
            },
            parent >= old(self).nodes@.len() ==> r is None && *final(self) == *old(self),
    {
        let n = self.nodes.len();
        if parent >= n {
            return None;
        }
        let ghost old_nodes = self.nodes@;
        let mut node = self.nodes.remove(parent);
        node.children.push(n);
        self.nodes.insert(parent, node);
        self.nodes.push(Node { data, children: Vec::new() });
        proof {
            assert forall|j: int| 0 <= j < n && j != parent implies self.nodes@[j] == old_nodes[j] by {
            }
            assert forall|i: int| 0 <= i < self.nodes@.len() implies #[trigger] self.nodes@[i].children_after(
                i,
                self.nodes@.len() as int,
            ) by {
                if i < n && i != parent {
                    assert(old_nodes[i].children_after(i, n as int));
                } else if i == parent {
                    assert(old_nodes[i].children_after(i, n as int));
                    assert forall|k: int| 0 <= k < self.nodes@[i].children@.len() implies i
                        < #[trigger] self.nodes@[i].children@[k] < self.nodes@.len() by {
                        if k < old_nodes[i].children@.len() {
                            assert(self.nodes@[i].children@[k] == old_nodes[i].children@[k]);
                        }
                    }
                }
            }
        }
        Some(n)
    }

    /// Appends an element named `tag` (without attributes) under `parent`.
    pub fn add_element(&mut self, parent: usize, tag: &str) -> (r: Option<usize>)
        requires
            old(self).wf(),
        ensures
            final(self).wf(),
            parent < old(self).nodes@.len() ==> {
                &&& r == Some(old(self).nodes@.len() as usize)
                &&& appended(*old(self), *final(self), parent as int)
                &&& match final(self).nodes@.last().data {
                    NodeData::Element { tag: t, attrs } => t@ == tag@ && attrs@.len() == 0,
                    _ => false,
                }
            },
            parent >= old(self).nodes@.len() ==> r is None && *final(self) == *old(self),
    {
        let tag = chars_of(tag);
        self.add_node(parent, NodeData::Element { tag, attrs: Vec::new() })
    }

    /// Appends a text node under `parent`.
    pub fn add_text(&mut self, parent: usize, contents: &str) -> (r: Option<usize>)
        requires
            old(self).wf(),
        ensures
            final(self).wf(),
            parent < old(self).nodes@.len() ==> {
                &&& r == Some(old(self).nodes@.len() as usize)
                &&& appended(*old(self), *final(self), parent as int)
                &&& match final(self).nodes@.last().data {
                    NodeData::Text { contents: x } => x@ == contents@,
                    _ => false,
                }
            },
            parent >= old(self).nodes@.len() ==> r is None && *final(self) == *old(self),
    {
        let contents = chars_of(contents);
        self.add_node(parent, NodeData::Text { contents })
    }

    /// Appends a comment under `parent`.
    pub fn add_comment(&mut self, parent: usize, contents: &str) -> (r: Option<usize>)
        requires
            old(self).wf(),
        ensures
            final(self).wf(),
            parent < old(self).nodes@.len() ==> {
                &&& r == Some(old(self).nodes@.len() as usize)
                &&& appended(*old(self), *final(self), parent as int)
                &&& match final(self).nodes@.last().data {
                    NodeData::Comment { contents: x } => x@ == contents@,
                    _ => false,
                }
            },
            parent >= old(self).nodes@.len() ==> r is None && *final(self) == *old(self),
    {
        let contents = chars_of(contents);
        self.add_node(parent, NodeData::Comment { contents })
    }

    /// Adds the attribute `name="value"` after the others of element `node`.
    /// Returns false, and changes nothing, where `node` is no element.
    pub fn add_attr(&mut self, node: usize, name: &str, value: &str) -> (r: bool)
        requires
            old(self).wf(),
        ensures
            final(self).wf(),
            final(self).nodes@.len() == old(self).nodes@.len(),
            r == (node < old(self).nodes@.len() && old(self).nodes@[node as int].data is Element),
            !r ==> *final(self) == *old(self),
            r ==> match (old(self).nodes@[node as int].data, final(self).nodes@[node as int].data) {
                (
                    NodeData::Element { tag: t0, attrs: a0 },
                    NodeData::Element { tag: t1, attrs: a1 },
                ) => t1@ == t0@ && a1@.len() == a0@.len() + 1 && a1@.drop_last() == a0@
                    && a1@.last().name@ == name@ && a1@.last().value@ == value@,
                _ => false,
            },
    {
        if node >= self.nodes.len() {
            return false;
        }
        match &self.nodes[node].data {
            NodeData::Element { .. } => {},
            _ => {
                return false;
            },
        }
        let ghost old_nodes = self.nodes@;
        let mut n = self.nodes.remove(node);
        let attr = Attribute { name: chars_of(name), value: chars_of(value) };
        match &mut n.data {
            NodeData::Element { attrs, .. } => {
                attrs.push(attr);
            },
            _ => {},
        }
        self.nodes.insert(node, n);
        proof {
            assert forall|i: int| 0 <= i < self.nodes@.len() implies #[trigger] self.nodes@[i].children_after(
                i,
                self.nodes@.len() as int,
            ) by {
                assert(old_nodes[i].children_after(i, old_nodes.len() as int));
                assert(self.nodes@[i].children@ == old_nodes[i].children@);
            }
        }
        assert(match (old_nodes[node as int].data, self.nodes@[node as int].data) {
            (NodeData::Element { attrs: a0, .. }, NodeData::Element { attrs: a1, .. }) => a1@.drop_last() =~= a0@,
            _ => true,
        });
        true
    }
}

} // verus!
