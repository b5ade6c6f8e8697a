use vlist::node::{Key, VComp, VNode, VTag, VText};
use vlist::stream::{after_poll, drain_into, stream_start, PollOutcome, StreamStart, StreamStep};
use vlist::vlist::VList;

fn text(s: &str) -> VNode {
    VNode::VText(VText::new(s))
}

fn render(l: &VList) -> String {
    let mut w = String::new();
    l.render_into_stream(&mut w);
    w
}

fn div_with(children: Vec<VNode>) -> VNode {
    let mut tag = VTag::new("div");
    tag.children = VList::with_children(children, None);
    VNode::VTag(tag)
}

fn child(name: &str) -> VNode {
    VNode::VComp(VComp::new(None, false, VList::with_children(vec![div_with(vec![text("Hello, "), text(name), text("!")])], None)))
}

#[test]
fn three_text_children_concatenate() {
    let l = VList::with_children(vec![text("Hello "), text("world"), text("!")], None);
    assert_eq!(render(&l), "Hello world!");
}

#[test]
fn test_text_back_to_back() {
    let l = VList::with_children(vec![div_with(vec![text("Hello "), text("world"), text("!")])], None);
    assert_eq!(render(&l), "<div>Hello world!</div>");
}

#[test]
fn empty_list_writes_nothing() {
    let l = VList::new();
    let mut w = String::from("before");
    l.render_into_stream(&mut w);
    assert_eq!(w, "before");
}

#[test]
fn test_fragment() {
    let l = VList::with_children(vec![child("Jane"), child("John"), child("Josh")], None);
    assert_eq!(
        render(&l),
        "<div>Hello, Jane!</div><div>Hello, John!</div><div>Hello, Josh!</div>"
    );
}

#[test]
fn nested_single_child_lists_flatten() {
    let inner = VList::with_children(vec![text("Hello, "), text("Jane"), text("!")], None);
    let mid = VList::with_children(vec![VNode::VList(inner)], None);
    let outer = VList::with_children(vec![VNode::VList(mid)], None);
    assert_eq!(render(&outer), "Hello, Jane!");
}

#[test]
fn suspending_children_keep_document_order() {
    let mut l = VList::new();
    let mut expected = String::new();
    for i in 0..10_000u32 {
        let s = i.to_string();
        expected.push_str(&s);
        let body = VList::with_children(vec![text(&s)], None);
        l.add_child(VNode::VComp(VComp::new(Some(Key::new(s.clone())), i % 2 == 1, body)));
    }
    assert_eq!(render(&l), expected);
}

#[test]
fn suspension_in_last_child_and_first_child() {
    let l = VList::with_children(
        vec![
            VNode::VComp(VComp::new(None, true, VList::with_children(vec![text("a")], None))),
            text("b"),
            VNode::VComp(VComp::new(None, true, VList::with_children(vec![text("c")], None))),
        ],
        None,
    );
    let mut w = String::from(">");
    l.render_into_stream(&mut w);
    assert_eq!(w, ">abc");
}

#[test]
fn start_and_step_decisions() {
    assert_eq!(stream_start(0), StreamStart::Nothing);
    assert_eq!(stream_start(1), StreamStart::Single);
    assert_eq!(stream_start(2), StreamStart::Iterate);
    assert_eq!(after_poll(0, 3, PollOutcome::Ready), StreamStep::PollNext(1));
    assert_eq!(after_poll(2, 3, PollOutcome::Ready), StreamStep::Done);
    assert_eq!(after_poll(1, 3, PollOutcome::Pending), StreamStep::Split { rest_from: 2 });
    assert_eq!(after_poll(2, 3, PollOutcome::Pending), StreamStep::FinishLast);
}

#[test]
fn drain_appends_buffer() {
    let mut w = String::from("ab");
    drain_into(&mut w, &String::from("cd"));
    assert_eq!(w, "abcd");
}

#[test]
fn mixed_nested_lists_render_as_flattened() {
    let deep = VList::with_children(vec![text("b"), text("c")], None);
    let mid = VList::with_children(vec![VNode::VList(deep), text("d")], None);
    let outer = VList::with_children(vec![text("a"), VNode::VList(mid), text("e")], None);
    let flat = VList::with_children(vec![text("a"), text("b"), text("c"), text("d"), text("e")], None);
    assert_eq!(render(&outer), render(&flat));
    assert_eq!(render(&outer), "abcde");
}
