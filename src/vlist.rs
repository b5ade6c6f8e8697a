//! The fragment list.
use vstd::prelude::*;
use std::rc::Rc;
use crate::keyed::{
    FullyKeyedState, append_transition, appends_transition, next_state, scanned_state,
    state_consistent,
};
use crate::node::{
    Key, VNode, all_keyed, children_eq, children_seq, has_key_spec, key_model, keys_equal,
    list_children_model,
};

verus! {

/// An ordered, possibly empty group of sibling nodes without a wrapping element.
///
/// The children are shared between copies of a list and copied on the first
/// write. `fully_keyed` caches whether every child has a key; only the
/// methods here set it, and every constructor and method keeps it accurate
/// (`wf`), but for `__macro_new`, whose caller vouches for it.
pub struct VList {
    /// The children, absent until the first write.
    pub(crate) children: Option<Rc<Vec<VNode>>>,
    /// What is known about whether every child has a key.
    pub(crate) fully_keyed: FullyKeyedState,
    /// The identity key of the whole list.
    pub key: Option<Key>,
}

/// Relies on Rc::clone: the new handle shares the same vector.
#[verifier::external_body]
fn share_children(rc: &Rc<Vec<VNode>>) -> (r: Rc<Vec<VNode>>)
    ensures
        r == *rc,
{
    Rc::clone(rc)
}

/// Relies on Rc::make_mut: unique access to the shared vector, which is first
/// copied (through `VNode::clone`, which gives an equal node) when other handles share it.
#[verifier::external_body]
fn make_mut_children(rc: &mut Rc<Vec<VNode>>) -> (r: &mut Vec<VNode>)
    ensures
        r@ == (**old(rc))@,
        (**final(rc))@ == final(r)@,
{
    Rc::make_mut(rc)
}

/// The key flags of a sequence of nodes, in order.
pub open spec fn key_flags(s: Seq<VNode>) -> Seq<bool> {
    s.map_values(|n: VNode| has_key_spec(n))
}

impl Clone for VList {
    /// Shares the children with the copy; they are copied on the first write.
    fn clone(&self) -> (r: VList)
        ensures
            r == *self,
    {
        let children = match &self.children {
            Some(rc) => Some(share_children(rc)),
            None => None,
        };
        VList { children, fully_keyed: self.fully_keyed, key: crate::node::clone_key(&self.key) }
    }
}

/// Two lists are equal when their keys and their children are; the cached
/// key state is not part of the comparison.
pub open(crate) spec fn lists_equal(a: VList, b: VList) -> bool {
    key_model(a.key_spec()) == key_model(b.key_spec()) && list_children_model(a) == list_children_model(b)
}

impl PartialEq for VList {
    fn eq(&self, other: &VList) -> (r: bool)
        ensures
            r == lists_equal(*self, *other),
    {
        keys_equal(&self.key, &other.key) && children_eq(self, other)
    }
}

impl vstd::std_specs::cmp::PartialEqSpecImpl for VList {
    open spec fn obeys_eq_spec() -> bool {
        true
    }

    open spec fn eq_spec(&self, other: &VList) -> bool {
        lists_equal(*self, *other)
    }
}

impl std::ops::Deref for VList {
    type Target = [VNode];

    /// Read access to the children as a slice.
    fn deref(&self) -> (r: &[VNode])
        ensures
            r@ == children_seq(*self),
    {
        match &self.children {
            Some(rc) => rc.as_slice(),
            None => &[],
        }
    }
}

impl std::ops::DerefMut for VList {
    /// Write access to the children through the generic path: the cached
    /// state becomes unknown.
    fn deref_mut(&mut self) -> (r: &mut [VNode])
        ensures
            r@ == children_seq(*old(self)),
            children_seq(*final(self)) == final(r)@,
            final(self).cached_state() == FullyKeyedState::Unknown,
            final(self).key_spec() == old(self).key_spec(),
    {
        self.children_mut_unkeyed().as_mut_slice()
    }
}

impl Default for VList {
    fn default() -> (r: VList)
        ensures
            r.wf(),
            children_seq(r) == Seq::<VNode>::empty(),
            r.key_spec() is None,
            r.cached_state() == FullyKeyedState::KnownFullyKeyed,
            r.children_spec() is None,
    {
        VList::new()
    }
}

/// Equality ignores the cached key state: lists with the same key and the
/// same children are equal whatever each has cached, and a different key or
/// different children make them unequal.
pub proof fn lemma_equality_ignores_cached_state(a: VList, b: VList)
    ensures
        key_model(a.key_spec()) == key_model(b.key_spec()) && children_seq(a) == children_seq(b)
            ==> lists_equal(a, b),
        key_model(a.key_spec()) != key_model(b.key_spec()) ==> !lists_equal(a, b),
        list_children_model(a) != list_children_model(b) ==> !lists_equal(a, b),
{
}

impl VList {
    /// The cached key state.
    pub open(crate) spec fn cached_state(&self) -> FullyKeyedState {
        self.fully_keyed
    }

    /// The identity key of the list.
    pub open(crate) spec fn key_spec(&self) -> Option<Key> {
        self.key
    }

    /// The child storage: absent, or a shared vector.
    pub open(crate) spec fn children_spec(&self) -> Option<Rc<Vec<VNode>>> {
        self.children
    }

    /// The cached state is accurate for the current children.
    pub open(crate) spec fn wf(&self) -> bool {
        state_consistent(self.fully_keyed, all_keyed(children_seq(*self)))
    }

    /// Creates an empty list without key.
    pub fn new() -> (r: VList)
        ensures
            r.wf(),
            children_seq(r) == Seq::<VNode>::empty(),
            r.key_spec() is None,
            r.cached_state() == FullyKeyedState::KnownFullyKeyed,
            r.children_spec() is None,
    {
        VList { children: None, key: None, fully_keyed: FullyKeyedState::KnownFullyKeyed }
    }

    /// Creates a list that owns `children`; the cached state comes from one scan.
    pub fn with_children(children: Vec<VNode>, key: Option<Key>) -> (r: VList)
        ensures
            r.wf(),
            children_seq(r) == children@,
            r.key_spec() == key,
            r.cached_state() == scanned_state(all_keyed(children@)),
    {
        let mut vlist = VList {
            fully_keyed: FullyKeyedState::Unknown,
            children: Some(Rc::new(children)),
            key,
        };
        vlist.recheck_fully_keyed();
        vlist
    }

    /// Creates a list with a cached state that the caller vouches for, so that
    /// no scan is made. Meant for generated code that knows the key state.
    pub fn __macro_new(children: Vec<VNode>, key: Option<Key>, fully_keyed: FullyKeyedState) -> (r: VList)
        requires
            state_consistent(fully_keyed, all_keyed(children@)),
        ensures
            r.wf(),
            children_seq(r) == children@,
            r.key_spec() == key,
            r.cached_state() == fully_keyed,
    {
        VList { children: Some(Rc::new(children)), fully_keyed, key }
    }

    /// Unique access to the children, allocating them when absent. The cached
    /// state is left as it is: callers keep it accurate.
    fn children_mut(&mut self) -> (r: &mut Vec<VNode>)
        ensures
            r@ == children_seq(*old(self)),
            children_seq(*final(self)) == final(r)@,
            final(self).children_spec() is Some,
            final(self).cached_state() == old(self).cached_state(),
            final(self).key_spec() == old(self).key_spec(),
    {
        if self.children.is_none() {
            self.children = Some(Rc::new(Vec::new()));
        }
        make_mut_children(self.children.as_mut().unwrap())
    }

    /// Mutable access to the children through the generic write path: the
    /// cached state becomes unknown, since the caller may change anything.
    pub fn children_mut_unkeyed(&mut self) -> (r: &mut Vec<VNode>)
        ensures
            r@ == children_seq(*old(self)),
            children_seq(*final(self)) == final(r)@,
            final(self).cached_state() == FullyKeyedState::Unknown,
            final(self).key_spec() == old(self).key_spec(),
            final(self).wf(),
    {
        self.fully_keyed = FullyKeyedState::Unknown;
        self.children_mut()
    }

    /// Appends a child, updating the cached state as a keyed-aware append.
    pub fn add_child(&mut self, child: VNode)
        requires
            old(self).wf(),
        ensures
            final(self).wf(),
            children_seq(*final(self)) == children_seq(*old(self)).push(child),
            final(self).cached_state() == append_transition(old(self).cached_state(), has_key_spec(child)),
            final(self).key_spec() == old(self).key_spec(),
    {
        let ghost before = children_seq(*self);
        let hk = child.has_key();
        self.fully_keyed = next_state(self.fully_keyed, hk);
        let ghost c = child;
        self.children_mut().push(child);
        proof {
            let after = before.push(c);
            assert(after[before.len() as int] == c);
            if all_keyed(after) {
                assert forall|i: int| 0 <= i < before.len() implies #[trigger] has_key_spec(before[i]) by {
                    assert(after[i] == before[i]);
                }
            }
            if all_keyed(before) && hk {
                assert forall|i: int| 0 <= i < after.len() implies #[trigger] has_key_spec(after[i]) by {
                    if i < before.len() {
                        assert(after[i] == before[i]);
                    }
                }
            }
        }
    }

    /// Appends each of `children` in order, as `add_child` does, after
    /// reserving room for all of them.
    pub fn add_children(&mut self, children: Vec<VNode>)
        requires
            old(self).wf(),
        ensures
            final(self).wf(),
            children_seq(*final(self)) == children_seq(*old(self)) + children@,
            final(self).cached_state() == appends_transition(old(self).cached_state(), key_flags(children@)),
            final(self).key_spec() == old(self).key_spec(),
    {
        let ghost start = children_seq(*self);
        let ghost orig = children@;
        let n = children.len();
        self.children_mut().reserve(n);
        let mut rest = children;
        let mut rev: Vec<VNode> = Vec::new();
        while rest.len() > 0
            invariant
                rest.len() + rev.len() == n,
                n == orig.len(),
                forall|i: int| 0 <= i < rest.len() ==> rest@[i] == orig[i],
                forall|j: int| 0 <= j < rev.len() ==> rev@[j] == orig[n - 1 - j],
            decreases rest.len(),
        {
            let c = rest.pop().unwrap();
            rev.push(c);
        }
        proof {
            assert(orig.subrange(0, 0) =~= Seq::<VNode>::empty());
            assert(key_flags(orig.subrange(0, 0)) =~= Seq::<bool>::empty());
            assert(start + orig.subrange(0, 0) =~= start);
        }
        while rev.len() > 0
            invariant
                self.wf(),
                rev.len() <= n,
                n == orig.len(),
                forall|j: int| 0 <= j < rev.len() ==> rev@[j] == orig[n - 1 - j],
                children_seq(*self) == start + orig.subrange(0, n - rev.len()),
                self.fully_keyed == appends_transition(
                    old(self).cached_state(),
                    key_flags(orig.subrange(0, n - rev.len())),
                ),
                self.key == old(self).key_spec(),
            decreases rev.len(),
        {
            let ghost k = n - rev.len();
            let c = rev.pop().unwrap();
            proof {
                assert(c == orig[k]);
            }
            self.add_child(c);
            proof {
                assert(orig.subrange(0, k + 1) =~= orig.subrange(0, k).push(c));
                assert(start + orig.subrange(0, k + 1) =~= (start + orig.subrange(0, k)).push(c));
                assert(key_flags(orig.subrange(0, k + 1)).drop_last() =~= key_flags(orig.subrange(0, k)));
            }
        }
        proof {
            assert(orig.subrange(0, n as int) =~= orig);
        }
    }

    /// The number of children.
    pub fn len(&self) -> (r: usize)
        ensures
            r == children_seq(*self).len(),
    {
        match &self.children {
            Some(rc) => rc.len(),
            None => 0,
        }
    }

    /// Whether the list has no children.
    pub fn is_empty(&self) -> (r: bool)
        ensures
            r == (children_seq(*self).len() == 0),
    {
        self.len() == 0
    }

    /// The child at `index`, if there is one.
    pub fn get(&self, index: usize) -> (r: Option<&VNode>)
        ensures
            index < children_seq(*self).len() ==> r == Some(&children_seq(*self)[index as int]),
            index >= children_seq(*self).len() ==> r is None,
    {
        match &self.children {
            Some(rc) => {
                if index < rc.len() {
                    Some(&rc[index])
                } else {
                    None
                }
            }
            None => None,
        }
    }

    /// The cached key state, as it stands.
    pub fn fully_keyed_state(&self) -> (r: FullyKeyedState)
        ensures
            r == self.cached_state(),
    {
        self.fully_keyed
    }

    /// Whether every child has a key: the cached answer when known, else a scan.
    pub fn fully_keyed(&self) -> (r: bool)
        requires
            self.wf(),
        ensures
            r == all_keyed(children_seq(*self)),
    {
        match self.fully_keyed {
            FullyKeyedState::KnownFullyKeyed => true,
            FullyKeyedState::KnownMissingKeys => false,
            FullyKeyedState::Unknown => {
                match &self.children {
                    None => true,
                    Some(rc) => {
                        let v: &Vec<VNode> = rc;
                        let mut i: usize = 0;
                        while i < v.len()
                            invariant
                                i <= v.len(),
                                v@ == children_seq(*self),
                                forall|j: int| 0 <= j < i ==> #[trigger] has_key_spec(v@[j]),
                            decreases v.len() - i,
                        {
                            if !v[i].has_key() {
                                return false;
                            }
                            i = i + 1;
                        }
                        true
                    }
                }
            }
        }
    }

    /// Scans the children afresh, whatever is cached, and caches whether every
    /// one of them has a key.
    pub fn recheck_fully_keyed(&mut self)
        ensures
            final(self).wf(),
            final(self).cached_state() == scanned_state(all_keyed(children_seq(*old(self)))),
            final(self).children_spec() == old(self).children_spec(),
            final(self).key_spec() == old(self).key_spec(),
    {
        self.fully_keyed = FullyKeyedState::Unknown;
        self.fully_keyed = if self.fully_keyed() {
            FullyKeyedState::KnownFullyKeyed
        } else {
            FullyKeyedState::KnownMissingKeys
        };
    }
}

} // verus!
