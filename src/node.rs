//! Child nodes of a fragment list and their mathematical model.
use vstd::prelude::*;
use crate::vlist::VList;

verus! {

broadcast use {vstd::std_specs::vec::group_vec_axioms, vstd::seq::group_seq_axioms};

/// An identity key that tells a node apart from its siblings across renders.
pub struct Key {
    pub value: String,
}

/// A text node.
pub struct VText {
    pub text: String,
}

/// An element with a tag name, an optional key and a list of children.
pub struct VTag {
    pub tag: String,
    pub key: Option<Key>,
    pub children: VList,
}

/// A component placeholder: its body is rendered after the component has
/// possibly suspended once (while waiting for its own state).
pub struct VComp {
    pub key: Option<Key>,
    pub suspends: bool,
    pub body: VList,
}

/// A node of the UI tree.
pub enum VNode {
    VTag(VTag),
    VText(VText),
    VList(VList),
    VComp(VComp),
}

/// What a node is, with keys and text as character sequences.
pub enum NodeModel {
    Text(Seq<char>),
    Tag { tag: Seq<char>, key: Option<Seq<char>>, children: Seq<NodeModel> },
    List { key: Option<Seq<char>>, children: Seq<NodeModel> },
    Comp { key: Option<Seq<char>>, suspends: bool, body: Seq<NodeModel> },
}

pub open spec fn key_model(k: Option<Key>) -> Option<Seq<char>> {
    match k {
        Some(k) => Some(k.value@),
        None => None,
    }
}

/// The children of a list, in order.
pub open(crate) spec fn children_seq(l: VList) -> Seq<VNode> {
    match l.children {
        Some(rc) => (*rc)@,
        None => Seq::empty(),
    }
}

pub open(crate) spec fn node_model(n: VNode) -> NodeModel
    decreases n,
{
    match n {
        VNode::VText(t) => NodeModel::Text(t.text@),
        VNode::VTag(t) => NodeModel::Tag {
            tag: t.tag@,
            key: key_model(t.key),
            children: list_children_model(t.children),
        },
        VNode::VList(l) => NodeModel::List { key: key_model(l.key), children: list_children_model(l) },
        VNode::VComp(c) => NodeModel::Comp {
            key: key_model(c.key),
            suspends: c.suspends,
            body: list_children_model(c.body),
        },
    }
}

pub open(crate) spec fn list_children_model(l: VList) -> Seq<NodeModel>
    decreases l,
{
    match l.children {
        Some(rc) => nodes_model((*rc)@),
        None => Seq::empty(),
    }
}

pub open(crate) spec fn nodes_model(s: Seq<VNode>) -> Seq<NodeModel>
    decreases s,
{
    if s.len() == 0 {
        Seq::empty()
    } else {
        nodes_model(s.drop_last()).push(node_model(s.last()))
    }
}


/// Whether a node carries an identity key.
pub open(crate) spec fn has_key_spec(n: VNode) -> bool {
    match n {
        VNode::VTag(t) => t.key is Some,
        VNode::VText(_) => false,
        VNode::VList(l) => l.key is Some,
        VNode::VComp(c) => c.key is Some,
    }
}

/// Every node of `s` carries a key.
pub open spec fn all_keyed(s: Seq<VNode>) -> bool {
    forall|i: int| 0 <= i < s.len() ==> #[trigger] has_key_spec(s[i])
}

/// The text that a node renders to.
pub open spec fn rendered(m: NodeModel) -> Seq<char>
    decreases m,
{
    match m {
        NodeModel::Text(t) => t,
        NodeModel::Tag { tag, key, children } => seq!['<'] + tag + seq!['>'] + rendered_all(children)
            + seq!['<', '/'] + tag + seq!['>'],
        NodeModel::List { key, children } => rendered_all(children),
        NodeModel::Comp { key, suspends, body } => rendered_all(body),
    }
}

/// The concatenation of the renderings of `s`, in order.
pub open spec fn rendered_all(s: Seq<NodeModel>) -> Seq<char>
    decreases s,
{
    if s.len() == 0 {
        Seq::empty()
    } else {
        rendered_all(s.drop_last()) + rendered(s.last())
    }
}

/// The model of a sequence of nodes is the model of each node, in order.
pub proof fn lemma_nodes_model(s: Seq<VNode>)
    ensures
        nodes_model(s).len() == s.len(),
        forall|i: int| 0 <= i < s.len() ==> #[trigger] nodes_model(s)[i] == node_model(s[i]),
    decreases s.len(),
{
    if s.len() > 0 {
        lemma_nodes_model(s.drop_last());
    }
}

/// Rendering a sequence with one more node appends that node's rendering.
pub proof fn lemma_nodes_model_push(s: Seq<VNode>, n: VNode)
    ensures
        nodes_model(s.push(n)) == nodes_model(s).push(node_model(n)),
        rendered_all(nodes_model(s.push(n))) == rendered_all(nodes_model(s)) + rendered(node_model(n)),
{
    assert(s.push(n).drop_last() =~= s);
    let m = nodes_model(s);
    assert(m.push(node_model(n)).drop_last() =~= m);
}

impl Key {
    pub fn new(value: String) -> (r: Key)
        ensures
            r.value == value,
    {
        Key { value }
    }
}

impl Clone for Key {
    fn clone(&self) -> (r: Key)
        ensures
            r == *self,
    {
        Key { value: self.value.clone() }
    }
}

/// Copies an optional key.
pub fn clone_key(k: &Option<Key>) -> (r: Option<Key>)
    ensures
        r == *k,
{
    match k {
        Some(k) => Some(k.clone()),
        None => None,
    }
}

/// Compares two optional keys by their text.
pub fn keys_equal(a: &Option<Key>, b: &Option<Key>) -> (r: bool)
    ensures
        r == (key_model(*a) == key_model(*b)),
{
    match (a, b) {
        (Some(x), Some(y)) => x.value == y.value,
        (None, None) => true,
        _ => false,
    }
}

impl VText {
    pub fn new(text: &str) -> (r: VText)
        ensures
            r.text@ == text@,
    {
        VText { text: text.to_owned() }
    }
}

impl Clone for VText {
    fn clone(&self) -> (r: VText)
        ensures
            r == *self,
    {
        VText { text: self.text.clone() }
    }
}

impl VTag {
    /// An element without key and without children.
    pub fn new(tag: &str) -> (r: VTag)
        ensures
            r.tag@ == tag@,
            r.key is None,
            r.children.wf(),
            children_seq(r.children) == Seq::<VNode>::empty(),
            r.children.key_spec() is None,
    {
        VTag { tag: tag.to_owned(), key: None, children: VList::new() }
    }
}

impl Clone for VTag {
    fn clone(&self) -> (r: VTag)
        ensures
            r == *self,
    {
        VTag { tag: self.tag.clone(), key: clone_key(&self.key), children: self.children.clone() }
    }
}

impl VComp {
    pub fn new(key: Option<Key>, suspends: bool, body: VList) -> (r: VComp)
        ensures
            r == (VComp { key, suspends, body }),
    {
        VComp { key, suspends, body }
    }
}

impl Clone for VComp {
    fn clone(&self) -> (r: VComp)
        ensures
            r == *self,
    {
        VComp { key: clone_key(&self.key), suspends: self.suspends, body: self.body.clone() }
    }
}

impl Clone for VNode {
    fn clone(&self) -> (r: VNode)
        ensures
            r == *self,
    {
        match self {
            VNode::VTag(t) => VNode::VTag(t.clone()),
            VNode::VText(t) => VNode::VText(t.clone()),
            VNode::VList(l) => VNode::VList(l.clone()),
            VNode::VComp(c) => VNode::VComp(c.clone()),
        }
    }
}

/// Structural equality of two nodes: same kind, text, tag, keys and children.
pub fn node_eq(a: &VNode, b: &VNode) -> (r: bool)
    ensures
        r == (node_model(*a) == node_model(*b)),
    decreases *a,
{
    match (a, b) {
        (VNode::VText(x), VNode::VText(y)) => x.text == y.text,
        (VNode::VTag(x), VNode::VTag(y)) => {
            x.tag == y.tag && keys_equal(&x.key, &y.key) && children_eq(&x.children, &y.children)
        },
        (VNode::VList(x), VNode::VList(y)) => {
            keys_equal(&x.key, &y.key) && children_eq(x, y)
        },
        (VNode::VComp(x), VNode::VComp(y)) => {
            x.suspends == y.suspends && keys_equal(&x.key, &y.key) && children_eq(&x.body, &y.body)
        },
        _ => false,
    }
}

/// Equality of the children of two lists, node by node.
pub fn children_eq(a: &VList, b: &VList) -> (r: bool)
    ensures
        r == (list_children_model(*a) == list_children_model(*b)),
    decreases *a,
{
    let empty: Vec<VNode> = Vec::new();
    let va: &Vec<VNode> = match &a.children {
        Some(rc) => rc,
        None => &empty,
    };
    let vb: &Vec<VNode> = match &b.children {
        Some(rc) => rc,
        None => &empty,
    };
    proof {
        lemma_nodes_model(va@);
        lemma_nodes_model(vb@);
        assert(list_children_model(*a) == nodes_model(va@));
        assert(list_children_model(*b) == nodes_model(vb@));
    }
    if va.len() != vb.len() {
        return false;
    }
    let mut i: usize = 0;
    while i < va.len()
        invariant
            i <= va.len(),
            va.len() == vb.len(),
            va@ == children_seq(*a),
            vb@ == children_seq(*b),
            nodes_model(va@).len() == va.len(),
            nodes_model(vb@).len() == vb.len(),
            forall|j: int| 0 <= j < va.len() ==> #[trigger] nodes_model(va@)[j] == node_model(va@[j]),
            forall|j: int| 0 <= j < vb.len() ==> #[trigger] nodes_model(vb@)[j] == node_model(vb@[j]),
            forall|j: int| 0 <= j < i ==> node_model(#[trigger] va@[j]) == node_model(vb@[j]),
        decreases va.len() - i,
    {
        proof {
            assert(decreases_to!(*a => va@[i as int]));
        }
        if !node_eq(&va[i], &vb[i]) {
            proof {
                assert(nodes_model(va@)[i as int] != nodes_model(vb@)[i as int]);
            }
            return false;
        }
        i = i + 1;
    }
    proof {
        assert(nodes_model(va@) =~= nodes_model(vb@));
    }
    true
}

impl VNode {
    /// Whether this node carries an identity key.
    pub fn has_key(&self) -> (r: bool)
        ensures
            r == has_key_spec(*self),
    {
        match self {
            VNode::VTag(t) => t.key.is_some(),
            VNode::VText(_) => false,
            VNode::VList(l) => l.key.is_some(),
            VNode::VComp(c) => c.key.is_some(),
        }
    }
}

} // verus!
