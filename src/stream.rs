//! Depth-bounded rendering of a fragment list into a text sink.
//!
//! When a child suspends on its first poll while siblings remain, the
//! siblings are rendered into a fresh buffer as a separate unit of work, and
//! that buffer is drained into the sink once the suspended child is done.
//! The decisions of that protocol are plain functions here, so that an
//! asynchronous driver and the run loop of this module take the same steps.
use vstd::prelude::*;
use vstd::string::*;
use crate::node::{
    NodeModel, VNode, children_seq, list_children_model, lemma_nodes_model_push, node_model, nodes_model,
    rendered, rendered_all,
};
use crate::vlist::VList;

verus! {

broadcast use {vstd::std_specs::vec::group_vec_axioms, vstd::seq::group_seq_axioms};

/// How rendering a list of children starts.
#[derive(Clone, Copy, Debug, PartialEq, Eq, Structural)]
pub enum StreamStart {
    /// No children: nothing is written.
    Nothing,
    /// One child: it is rendered straight into the sink.
    Single,
    /// Two or more: the children are polled one by one.
    Iterate,
}

/// What the first poll of a child's rendering gave.
#[derive(Clone, Copy, Debug, PartialEq, Eq, Structural)]
pub enum PollOutcome {
    /// The child finished writing without suspending.
    Ready,
    /// The child suspended before it finished.
    Pending,
}

/// What follows the first poll of a child.
#[derive(Clone, Copy, Debug, PartialEq, Eq, Structural)]
pub enum StreamStep {
    /// Poll this next child with the same sink.
    PollNext(usize),
    /// Render the children from `rest_from` on into a fresh buffer while the
    /// suspended child finishes in the sink, then drain the buffer into the
    /// sink and stop.
    Split { rest_from: usize },
    /// Let the suspended last child finish, then stop.
    FinishLast,
    /// Every child has been written.
    Done,
}

/// Chooses how to render `len` children.
pub fn stream_start(len: usize) -> (r: StreamStart)
    ensures
        len == 0 ==> r == StreamStart::Nothing,
        len == 1 ==> r == StreamStart::Single,
        len >= 2 ==> r == StreamStart::Iterate,
{
    if len == 0 {
        StreamStart::Nothing
    } else if len == 1 {
        StreamStart::Single
    } else {
        StreamStart::Iterate
    }
}

/// Chooses what follows the first poll of child `index` of `len`.
pub fn after_poll(index: usize, len: usize, outcome: PollOutcome) -> (r: StreamStep)
    requires
        index < len,
    ensures
        outcome == PollOutcome::Ready && index + 1 < len ==> r == StreamStep::PollNext(
            (index + 1) as usize,
        ),
        outcome == PollOutcome::Ready && index + 1 == len ==> r == StreamStep::Done,
        outcome == PollOutcome::Pending && index + 1 < len ==> r == (StreamStep::Split {
            rest_from: (index + 1) as usize,
        }),
        outcome == PollOutcome::Pending && index + 1 == len ==> r == StreamStep::FinishLast,
{
    let next = index + 1;
    match outcome {
        PollOutcome::Ready => {
            if next < len {
                StreamStep::PollNext(next)
            } else {
                StreamStep::Done
            }
        },
        PollOutcome::Pending => {
            if next < len {
                StreamStep::Split { rest_from: next }
            } else {
                StreamStep::FinishLast
            }
        },
    }
}

/// Appends what a buffer holds to the sink, in order.
pub fn drain_into(w: &mut String, buffer: &String)
    ensures
        final(w)@ == old(w)@ + buffer@,
{
    w.append(buffer.as_str());
}

/// The text held by a chain of buffers, first to last.
pub open spec fn chain_text(bufs: Seq<String>) -> Seq<char>
    decreases bufs.len(),
{
    if bufs.len() == 0 {
        Seq::empty()
    } else {
        chain_text(bufs.drop_last()) + bufs.last()@
    }
}

proof fn lemma_chain_push(bufs: Seq<String>, b: String)
    ensures
        chain_text(bufs.push(b)) == chain_text(bufs) + b@,
{
    assert(bufs.push(b).drop_last() =~= bufs);
}

/// Whether a node suspends on its first poll: a component placeholder that
/// waits for its own state does.
pub fn suspends_on_first_poll(n: &VNode) -> (r: bool)
    ensures
        r == (n is VComp && n->VComp_0.suspends),
{
    match n {
        VNode::VComp(c) => c.suspends,
        _ => false,
    }
}

/// Writes the rendering of a node into the sink.
pub fn render_node(n: &VNode, w: &mut String)
    ensures
        final(w)@ == old(w)@ + rendered(node_model(*n)),
    decreases *n,
{
    match n {
        VNode::VText(t) => {
            w.append(t.text.as_str());
        },
        VNode::VTag(t) => {
            proof {
                reveal_strlit("<");
                reveal_strlit(">");
                reveal_strlit("</");
            }
            w.append("<");
            w.append(t.tag.as_str());
            w.append(">");
            t.children.render_into_stream(w);
            w.append("</");
            w.append(t.tag.as_str());
            w.append(">");
            proof {
                assert(final(w)@ =~= old(w)@ + rendered(node_model(*n)));
            }
        },
        VNode::VList(l) => {
            l.render_into_stream(w);
        },
        VNode::VComp(c) => {
            c.body.render_into_stream(w);
        },
    }
}

/// The nodes of `s` in order, with every nested fragment list replaced by
/// its own children, at any depth of nesting.
pub open spec fn flatten_lists(s: Seq<NodeModel>) -> Seq<NodeModel>
    decreases s,
{
    if s.len() == 0 {
        Seq::empty()
    } else {
        flatten_lists(s.drop_last()) + match s.last() {
            NodeModel::List { key, children } => flatten_lists(children),
            other => seq![other],
        }
    }
}

/// Rendering distributes over concatenation.
pub proof fn lemma_rendered_all_concat(a: Seq<NodeModel>, b: Seq<NodeModel>)
    ensures
        rendered_all(a + b) == rendered_all(a) + rendered_all(b),
    decreases b.len(),
{
    if b.len() == 0 {
        assert(a + b =~= a);
        assert(rendered_all(a) + rendered_all(b) =~= rendered_all(a));
    } else {
        lemma_rendered_all_concat(a, b.drop_last());
        assert((a + b).drop_last() =~= a + b.drop_last());
        assert((a + b).last() == b.last());
        assert(rendered_all(a + b) =~= rendered_all(a) + rendered_all(b));
    }
}

/// Fragment boundaries add no text and keep the order: a sequence of nodes
/// renders exactly as the sequence with every nested list flattened into it.
pub proof fn lemma_flattened_lists_render_same(s: Seq<NodeModel>)
    ensures
        rendered_all(flatten_lists(s)) == rendered_all(s),
    decreases s,
{
    if s.len() > 0 {
        let init = s.drop_last();
        let last = s.last();
        lemma_flattened_lists_render_same(init);
        match last {
            NodeModel::List { key, children } => {
                assert(decreases_to!(s => last));
                lemma_flattened_lists_render_same(children);
                lemma_rendered_all_concat(flatten_lists(init), flatten_lists(children));
                assert(flatten_lists(s) == flatten_lists(init) + flatten_lists(children));
                assert(rendered(last) == rendered_all(children));
                assert(rendered_all(s) == rendered_all(init) + rendered(last));
            },
            other => {
                lemma_rendered_all_concat(flatten_lists(init), seq![other]);
                let single = seq![other];
                assert(single.drop_last() =~= Seq::<NodeModel>::empty());
                assert(single.last() == other);
                assert(rendered_all(Seq::<NodeModel>::empty()) =~= Seq::<char>::empty());
                assert(rendered_all(single) == rendered_all(single.drop_last()) + rendered(other));
                assert(rendered_all(single) =~= rendered(other));
                assert(flatten_lists(s) == flatten_lists(init) + seq![other]);
                assert(rendered_all(s) == rendered_all(init) + rendered(last));
            },
        }
    }
}

/// A list renders as its children with all nested fragment lists flattened.
pub proof fn lemma_nested_lists_render_flat(l: VList)
    ensures
        rendered_all(list_children_model(l)) == rendered_all(flatten_lists(list_children_model(l))),
{
    lemma_flattened_lists_render_same(list_children_model(l));
}

impl VList {
    /// Writes the children's renderings into the sink, in order. A child that
    /// suspends with siblings left hands those siblings to a fresh buffer,
    /// which is drained into the sink after the child, so the text comes out
    /// in document order whatever suspends.
    pub fn render_into_stream(&self, w: &mut String)
        ensures
            final(w)@ == old(w)@ + rendered_all(list_children_model(*self)),
        decreases *self,
    {
        let empty: Vec<VNode> = Vec::new();
        let v: &Vec<VNode> = match &self.children {
            Some(rc) => rc,
            None => &empty,
        };
        let ghost start = w@;
        proof {
            assert(list_children_model(*self) == nodes_model(v@));
        }
        match stream_start(v.len()) {
            StreamStart::Nothing => {
                assert(nodes_model(v@) =~= Seq::<NodeModel>::empty());
            },
            StreamStart::Single => {
                proof {
                    assert(decreases_to!(*self => v@[0]));
                    assert(v@ =~= Seq::<VNode>::empty().push(v@[0]));
                    lemma_nodes_model_push(Seq::<VNode>::empty(), v@[0]);
                    assert(nodes_model(Seq::<VNode>::empty()) =~= Seq::<NodeModel>::empty());
                }
                render_node(&v[0], w);
            },
            StreamStart::Iterate => {
                let len = v.len();
                let mut pending: Vec<String> = Vec::new();
                let mut i: usize = 0;
                let mut finished = false;
                proof {
                    assert(v@.subrange(0, 0) =~= Seq::<VNode>::empty());
                    assert(nodes_model(Seq::<VNode>::empty()) =~= Seq::<NodeModel>::empty());
                }
                while !finished
                    invariant
                        len == v.len(),
                        v@ == children_seq(*self),
                        i <= len,
                        finished ==> i == len,
                        !finished ==> i < len,
                        w@ + chain_text(pending@) == start + rendered_all(
                            nodes_model(v@.subrange(0, i as int)),
                        ),
                    decreases len - i,
                {
                    let child = &v[i];
                    proof {
                        assert(decreases_to!(*self => v@[i as int]));
                    }
                    let outcome = if suspends_on_first_poll(child) {
                        PollOutcome::Pending
                    } else {
                        PollOutcome::Ready
                    };
                    let ghost p0 = pending@;
                    let ghost w0 = w@;
                    if pending.len() == 0 {
                        render_node(child, w);
                        proof {
                            assert(w@ =~= w0 + rendered(node_model(v@[i as int])));
                            assert(chain_text(p0) =~= Seq::<char>::empty());
                            assert(w@ + chain_text(pending@) =~= w0 + chain_text(p0) + rendered(
                                node_model(v@[i as int]),
                            ));
                        }
                    } else {
                        let mut b = pending.pop().unwrap();
                        proof {
                            assert(pending@ == p0.drop_last());
                        }
                        let ghost b0 = b;
                        render_node(child, &mut b);
                        pending.push(b);
                        proof {
                            lemma_chain_push(p0.drop_last(), b);
                            assert(chain_text(p0) == chain_text(p0.drop_last()) + b0@);
                            assert(chain_text(pending@) =~= chain_text(p0) + rendered(node_model(v@[i as int])));
                            assert(w@ + chain_text(pending@) =~= w0 + chain_text(p0) + rendered(
                                node_model(v@[i as int]),
                            ));
                        }
                    }
                    proof {
                        assert(v@.subrange(0, i + 1) =~= v@.subrange(0, i as int).push(v@[i as int]));
                        lemma_nodes_model_push(v@.subrange(0, i as int), v@[i as int]);
                        assert(rendered_all(nodes_model(v@.subrange(0, i + 1))) == rendered_all(
                            nodes_model(v@.subrange(0, i as int)),
                        ) + rendered(node_model(v@[i as int])));
                        assert(w@ + chain_text(pending@) =~= start + rendered_all(
                            nodes_model(v@.subrange(0, i + 1)),
                        ));
                    }
                    i = i + 1;
                    match after_poll(i - 1, len, outcome) {
                        StreamStep::PollNext(_) => {},
                        StreamStep::Split { rest_from: _ } => {
                            let ghost p1 = pending@;
                            let fresh = String::new();
                            pending.push(fresh);
                            proof {
                                lemma_chain_push(p1, fresh);
                                assert(chain_text(pending@) =~= chain_text(p1));
                            }
                        },
                        _ => {
                            finished = true;
                        },
                    }
                }
                proof {
                    assert(v@.subrange(0, len as int) =~= v@);
                }
                while pending.len() > 0
                    invariant
                        w@ + chain_text(pending@) == start + rendered_all(nodes_model(v@)),
                    decreases pending.len(),
                {
                    let ghost q0 = pending@;
                    let ghost w0 = w@;
                    let b = pending.pop().unwrap();
                    proof {
                        assert(chain_text(q0) == chain_text(q0.drop_last()) + b@);
                    }
                    if pending.len() == 0 {
                        drain_into(w, &b);
                        proof {
                            assert(w@ + chain_text(pending@) =~= w0 + chain_text(q0));
                        }
                    } else {
                        let ghost q1 = pending@;
                        let mut p = pending.pop().unwrap();
                        let ghost p_before = p;
                        proof {
                            assert(chain_text(q1) == chain_text(q1.drop_last()) + p_before@);
                        }
                        drain_into(&mut p, &b);
                        pending.push(p);
                        proof {
                            lemma_chain_push(q1.drop_last(), p);
                            assert(w@ + chain_text(pending@) =~= w0 + chain_text(q0));
                        }
                    }
                }
            },
        }
    }
}

} // verus!
